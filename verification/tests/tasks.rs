use spider_py::registry::Registry;
use spider_py::website::{Method, Website};

fn website() -> Website {
    Website::new("https://example.com".to_string(), None)
}

#[test]
fn subscriptions_count_up() {
    let mut website = website();
    assert_eq!(website.subscribe(10, 88).0, 0);
    assert_eq!(website.subscribe(11, 88).0, 1);
    assert_eq!(website.subscribe(12, 88).0, 2);
}

#[test]
fn unsubscribe_gives_up_one_task() {
    let mut website = website();
    website.subscribe(10, 88);
    website.subscribe(11, 88);
    let removal = website.unsubscribe(Some(0));
    assert!(removal.found);
    assert_eq!(removal.aborted, vec![10]);
    let removal = website.unsubscribe(Some(0));
    assert!(!removal.found);
    assert_eq!(removal.aborted.len(), 0);
    let removal = website.unsubscribe(Some(1));
    assert!(removal.found);
    assert_eq!(removal.aborted, vec![11]);
}

#[test]
fn unsubscribe_gives_up_every_task() {
    let mut website = website();
    assert!(!website.unsubscribe(None).found);
    website.subscribe(10, 88);
    website.subscribe(11, 88);
    website.subscribe(12, 88);
    let removal = website.unsubscribe(None);
    assert!(removal.found);
    assert_eq!(removal.aborted, vec![10, 11, 12]);
    assert!(!website.unsubscribe(None).found);
    assert_eq!(website.subscribe(13, 88).0, 0);
}

#[test]
fn next_id_is_one_more_than_the_largest() {
    let mut website = website();
    website.subscribe(10, 88);
    website.subscribe(11, 88);
    website.subscribe(12, 88);
    assert!(website.unsubscribe(Some(0)).found);
    assert_eq!(website.subscribe(13, 88).0, 3);
    assert_eq!(website.unsubscribe(Some(2)).aborted, vec![12]);
    assert_eq!(website.unsubscribe(Some(3)).aborted, vec![13]);
    assert_eq!(website.subscribe(14, 88).0, 2);
    let mut aborted = website.unsubscribe(None).aborted;
    aborted.sort();
    assert_eq!(aborted, vec![11, 14]);
}

#[test]
fn crawl_id_follows_the_last_one() {
    let mut website = website();
    website.scrape(None, Some(true), None, 20, 0);
    website.scrape(None, Some(true), None, 21, 0);
    website.scrape(None, Some(true), None, 22, 0);
    assert_eq!(website.stop(Some(2)).removal.aborted, vec![22]);
    website.crawl(Some(1), Some(true), None, 23, 88);
    assert_eq!(website.stop(Some(2)).removal.aborted, vec![23]);
    website.scrape(None, Some(true), None, 24, 0);
    assert_eq!(website.stop(Some(0)).removal.aborted, vec![20]);
    // the last crawl is now the one under 1, and the id that follows is in use
    website.crawl(Some(2), Some(true), None, 25, 88);
    assert_eq!(website.stop(None).removal.aborted, vec![25, 21]);
}

#[test]
fn subscription_is_undone() {
    let mut website = website();
    website.subscribe(10, 88);
    let (id, _) = website.subscribe(11, 88);
    assert!(website.unsubscribe(Some(id)).found);
    assert_eq!(website.subscribe(12, 88).0, id);
    assert_eq!(website.unsubscribe(None).aborted, vec![10, 12]);
}

#[test]
fn foreground_crawl_registers_its_listener() {
    let mut website = website();
    let run = website.crawl(Some(1), Some(false), None, 2, 88);
    assert!(matches!(run.method, Method::CrawlRaw));
    assert!(run.listener.is_some());
    assert!(run.background.is_none());
    let stop = website.stop(None);
    assert!(stop.shutdown.is_none());
    assert!(!stop.removal.found);
    assert_eq!(website.unsubscribe(None).aborted, vec![1]);
}

#[test]
fn background_crawl_registers_both_tasks() {
    let mut website = website();
    let run = website.crawl(Some(1), Some(true), Some(true), 2, 88);
    assert!(matches!(run.method, Method::Crawl));
    assert!(run.listener.is_some());
    assert!(run.background.is_some());
    let stop = website.stop(Some(0));
    assert_eq!(stop.shutdown, Some("https://example.com".to_string()));
    assert!(stop.removal.found);
    assert_eq!(stop.removal.aborted, vec![2]);
    assert_eq!(website.unsubscribe(Some(0)).aborted, vec![1]);
}

#[test]
fn background_scrape_without_listener() {
    let mut website = website();
    let run = website.scrape(None, Some(true), Some(false), 5, 0);
    assert!(matches!(run.method, Method::ScrapeRaw));
    assert!(run.listener.is_none());
    assert!(run.background.is_some());
    let run = website.scrape(None, Some(true), Some(true), 6, 0);
    assert!(matches!(run.method, Method::Scrape));
    assert!(!website.unsubscribe(None).found);
    assert_eq!(website.stop(None).removal.aborted, vec![5, 6]);
}

#[test]
fn crawl_without_listener_does_not_run_in_the_background() {
    let mut website = website();
    let run = website.crawl(None, Some(true), Some(true), 5, 0);
    assert!(matches!(run.method, Method::Crawl));
    assert!(run.listener.is_none());
    assert!(run.background.is_none());
    let stop = website.stop(None);
    assert!(stop.shutdown.is_none());
    assert!(!stop.removal.found);
}

#[test]
fn crawl_and_scrape_keep_the_same_books() {
    for background in [None, Some(false), Some(true)] {
        let mut crawled = website();
        let mut scraped = website();
        crawled.crawl(Some(1), background, None, 2, 88);
        scraped.scrape(Some(1), background, Some(false), 2, 88);
        let (first, second) = (crawled.stop(None), scraped.stop(None));
        assert_eq!(first.shutdown, second.shutdown);
        assert_eq!(first.shutdown.is_some(), background == Some(true));
        assert_eq!(first.removal.aborted, second.removal.aborted);
        assert_eq!(crawled.unsubscribe(None).aborted, scraped.unsubscribe(None).aborted);
    }
}

#[test]
fn plain_run_registers_nothing() {
    let mut website = website();
    let run = website.crawl(None, None, None, 5, 0);
    assert!(matches!(run.method, Method::CrawlRaw));
    assert!(run.listener.is_none());
    assert!(run.background.is_none());
    let run = website.scrape(None, Some(false), Some(true), 5, 0);
    assert!(matches!(run.method, Method::Scrape));
    assert!(run.background.is_none());
    assert!(!website.stop(None).removal.found);
}

#[test]
fn stop_shuts_down_once() {
    let mut website = website();
    assert!(website.stop(Some(3)).shutdown.is_none());
    website.scrape(None, Some(true), None, 1, 0);
    let stop = website.stop(Some(9));
    assert_eq!(stop.shutdown, Some("https://example.com".to_string()));
    assert!(!stop.removal.found);
    let stop = website.stop(None);
    assert!(stop.shutdown.is_none());
    assert_eq!(stop.removal.aborted, vec![1]);
    assert!(!website.stop(None).removal.found);
}

#[test]
fn subscriptions_have_one_channel() {
    let mut website = website();
    let (_, first) = website.subscribe(1, 88);
    let (_, second) = website.subscribe(2, 12);
    assert!(first.receiver.same_channel(&second.receiver));
    let run = website.crawl(Some(3), Some(true), None, 4, 6);
    assert!(first.receiver.same_channel(&run.listener.unwrap().receiver));
}

#[test]
fn background_run_has_a_channel_of_its_own() {
    let mut website = website();
    let run = website.crawl(Some(1), Some(true), None, 2, 88);
    let (_, listener) = website.subscribe(3, 88);
    assert!(!listener.receiver.same_channel(&run.listener.unwrap().receiver));
    let (_, heard) = (0, run.background.unwrap().subscribe(1).unwrap());
    assert!(!listener.receiver.same_channel(&heard));
}

#[test]
fn cron_hands_back_its_listener() {
    let mut website = Website::new("https://example.com".to_string(), Some(true));
    let (cron, listener) = website.run_cron(Some(7), 88);
    assert_eq!(cron.stop(), Some(7));
    assert!(listener.unwrap().raw_content);
    let (cron, listener) = website.run_cron(None, 0);
    assert_eq!(cron.stop(), None);
    assert!(listener.is_none());
    assert!(!website.unsubscribe(None).found);
}

#[test]
fn ids_are_left() {
    let mut website = website();
    assert!(website.can_subscribe());
    assert!(website.can_crawl_in_background());
    website.subscribe(1, 2);
    assert!(website.can_subscribe());
}

#[test]
fn registry_drains_in_order() {
    let mut registry = Registry::new();
    assert!(registry.has_next_id());
    assert_eq!(registry.register(5), 0);
    assert_eq!(registry.register(6), 1);
    assert_eq!(registry.len(), 2);
    assert_eq!(registry.remove(7), None);
    assert_eq!(registry.remove(0), Some(5));
    assert_eq!(registry.drain(), vec![6]);
    assert_eq!(registry.len(), 0);
    assert!(registry.has_following_id());
    assert_eq!(registry.follow(7), 0);
    assert_eq!(registry.follow(8), 1);
    assert_eq!(registry.remove(1), Some(8));
    assert_eq!(registry.follow(9), 1);
    assert_eq!(registry.drain(), vec![7, 9]);
}
