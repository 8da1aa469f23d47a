use spider::tokio::runtime::Runtime;
use spider_py::page::Content;
use spider_py::website::{Method, Website};

/// An address at which nothing answers.
const URL: &str = "http://127.0.0.1:1";

#[test]
fn scrape_collects_links_and_pages() {
    let runtime = Runtime::new().unwrap();
    let mut website = Website::new(URL.to_string(), None);
    assert_eq!(website.status(), "Start");
    assert_eq!(website.get_pages().len(), 0);
    let run = website.scrape(None, None, None, 0, 0);
    assert!(matches!(run.method, Method::ScrapeRaw));
    assert!(run.background.is_none());
    runtime.block_on(website.crawler_mut().scrape_raw());
    assert_eq!(website.status(), "Idle");
    assert_eq!(website.get_links(), vec![URL.to_string()]);
    assert_eq!(website.size(), 1);
    let pages = website.get_pages();
    assert_eq!(pages.len(), 1);
    assert_eq!(pages[0].url, URL);
    match &pages[0].content {
        Content::Text(text) => assert_eq!(text, ""),
        Content::Raw(_) => panic!("the content is converted"),
    }
    website.clear();
    assert_eq!(website.get_links().len(), 0);
    assert_eq!(website.get_pages().len(), 0);
    assert_eq!(website.size(), 0);
}

#[test]
fn drain_links_takes_the_links() {
    let runtime = Runtime::new().unwrap();
    let mut website = Website::new(URL.to_string(), Some(true));
    runtime.block_on(website.crawler_mut().scrape_raw());
    assert_eq!(website.size(), 1);
    assert_eq!(website.drain_links(), vec![URL.to_string()]);
    assert_eq!(website.size(), 0);
    assert_eq!(website.drain_links().len(), 0);
    let pages = website.get_pages();
    assert_eq!(pages.len(), 1);
    assert!(matches!(pages[0].content, Content::Raw(_)));
}

#[test]
fn background_run_leaves_the_size() {
    let runtime = Runtime::new().unwrap();
    let mut website = Website::new(URL.to_string(), None);
    let run = website.scrape(Some(1), Some(true), Some(false), 2, 16);
    let mut crawler = run.background.unwrap();
    let mut receiver = run.listener.unwrap().receiver;
    runtime.block_on(crawler.scrape_raw());
    assert_eq!(crawler.size(), 1);
    assert_eq!(website.size(), 0);
    assert_eq!(website.get_pages().len(), 0);
    assert_eq!(website.status(), "Start");
    assert_eq!(receiver.try_recv().unwrap().get_url(), URL);
}

#[test]
fn foreground_run_is_heard_by_all() {
    let runtime = Runtime::new().unwrap();
    let mut website = Website::new(URL.to_string(), None);
    let (id, subscription) = website.subscribe(1, 16);
    assert_eq!(id, 0);
    let run = website.scrape(Some(2), None, Some(true), 3, 16);
    assert!(matches!(run.method, Method::Scrape));
    assert!(run.background.is_none());
    runtime.block_on(website.crawler_mut().scrape());
    let mut first = subscription.receiver;
    let mut second = run.listener.unwrap().receiver;
    assert_eq!(first.try_recv().unwrap().get_url(), URL);
    assert_eq!(second.try_recv().unwrap().get_url(), URL);
}

#[test]
fn address_that_is_no_url_is_invalid() {
    let runtime = Runtime::new().unwrap();
    let mut website = Website::new("http:// no url".to_string(), None);
    runtime.block_on(website.crawler_mut().crawl_raw());
    assert_eq!(website.status(), "Invalid");
    assert_eq!(website.size(), 0);
}
