//! What crawls and scrapes leave to do, and what they leave behind.
use crate::crawler::{crawler_state, receiver_channel, CrawlerState};
use crate::laws::tasks::{
    law_following_task_is_placed, law_registered_task_comes_last,
};
use crate::registry::unique_ids;
use crate::website::{is_crawl, is_scrape, shown_size, Listener, Method, Run, WebsiteView};
use vstd::prelude::*;

verus! {

/// A crawl is run as a crawl, whoever listens and wherever it runs: with a browser where that is
/// asked for, and with plain requests otherwise.
pub proof fn law_crawl_is_run_as_a_crawl(
    before: WebsiteView,
    after: WebsiteView,
    run: Run,
    on_page_event: Option<u64>,
    background: Option<bool>,
    headless: Option<bool>,
    task: u64,
    capacity: usize,
)
    requires
        is_crawl(before, after, run, on_page_event, background, headless, task, capacity),
    ensures
        run.method == Method::Crawl <==> headless == Some(true),
        run.method == Method::CrawlRaw <==> headless != Some(true),
        run.method != Method::Scrape,
        run.method != Method::ScrapeRaw,
{
}

/// A scrape is run as a scrape, whoever listens and wherever it runs: with a browser where that
/// is asked for, and with plain requests otherwise.
pub proof fn law_scrape_is_run_as_a_scrape(
    before: WebsiteView,
    after: WebsiteView,
    run: Run,
    on_page_event: Option<u64>,
    background: Option<bool>,
    headless: Option<bool>,
    task: u64,
    capacity: usize,
)
    requires
        is_scrape(before, after, run, on_page_event, background, headless, task, capacity),
    ensures
        run.method == Method::Scrape <==> headless == Some(true),
        run.method == Method::ScrapeRaw <==> headless != Some(true),
        run.method != Method::Crawl,
        run.method != Method::CrawlRaw,
{
}

/// A crawl runs in the background exactly where that is asked for and a task listens; a scrape,
/// where that is asked for.
pub proof fn law_background_is_asked_for(
    before: WebsiteView,
    after: WebsiteView,
    run: Run,
    on_page_event: Option<u64>,
    background: Option<bool>,
    headless: Option<bool>,
    task: u64,
    capacity: usize,
)
    ensures
        is_crawl(before, after, run, on_page_event, background, headless, task, capacity) ==> (
        run.background is Some <==> background == Some(true) && on_page_event is Some),
        is_scrape(before, after, run, on_page_event, background, headless, task, capacity) ==> (
        run.background is Some <==> background == Some(true)),
{
}

/// The crawler that is run in the background has every setting of the website's crawler, and all
/// that it has collected; the channel to the listeners aside, the two hold the same.
pub proof fn law_background_crawler_has_every_setting(
    before: WebsiteView,
    after: WebsiteView,
    run: Run,
    on_page_event: Option<u64>,
    background: Option<bool>,
    headless: Option<bool>,
    task: u64,
    capacity: usize,
)
    requires
        is_crawl(before, after, run, on_page_event, background, headless, task, capacity)
            || is_scrape(before, after, run, on_page_event, background, headless, task, capacity),
        run.background is Some,
    ensures
        crawler_state(run.background->0).url == before.crawler.url,
        crawler_state(run.background->0).url_valid == before.crawler.url_valid,
        crawler_state(run.background->0).respect_robots_txt == before.crawler.respect_robots_txt,
        crawler_state(run.background->0).subdomains == before.crawler.subdomains,
        crawler_state(run.background->0).tld == before.crawler.tld,
        crawler_state(run.background->0).http2_prior_knowledge
            == before.crawler.http2_prior_knowledge,
        crawler_state(run.background->0).delay == before.crawler.delay,
        crawler_state(run.background->0).request_timeout == before.crawler.request_timeout,
        crawler_state(run.background->0).user_agent == before.crawler.user_agent,
        crawler_state(run.background->0).headers == before.crawler.headers,
        crawler_state(run.background->0).proxies == before.crawler.proxies,
        crawler_state(run.background->0).blacklist_url == before.crawler.blacklist_url,
        crawler_state(run.background->0).budget == before.crawler.budget,
        crawler_state(run.background->0).external_domains == before.crawler.external_domains,
        crawler_state(run.background->0).cron_str == before.crawler.cron_str,
        crawler_state(run.background->0).cron_type == before.crawler.cron_type,
        crawler_state(run.background->0).status == before.crawler.status,
        crawler_state(run.background->0).stopped == before.crawler.stopped,
        crawler_state(run.background->0).links == before.crawler.links,
        crawler_state(run.background->0).pages == before.crawler.pages,
        on_page_event is None ==> crawler_state(run.background->0).channel
            == before.crawler.channel,
        on_page_event is Some ==> crawler_state(run.background->0).channel == Some(
            receiver_channel(run.listener->0.receiver),
        ),
{
}

/// The website's own crawler keeps every setting, and all that it has collected, when a crawl or
/// a scrape is started. A run in the background leaves it alone; otherwise it gets the channel
/// of the task that listens, if any.
pub proof fn law_run_keeps_the_settings(
    before: WebsiteView,
    after: WebsiteView,
    run: Run,
    on_page_event: Option<u64>,
    background: Option<bool>,
    headless: Option<bool>,
    task: u64,
    capacity: usize,
)
    requires
        is_crawl(before, after, run, on_page_event, background, headless, task, capacity)
            || is_scrape(before, after, run, on_page_event, background, headless, task, capacity),
    ensures
        run.background is Some || on_page_event is None ==> after.crawler == before.crawler,
        run.background is None && on_page_event is Some ==> after.crawler == (CrawlerState {
            channel: Some(receiver_channel(run.listener->0.receiver)),
            ..before.crawler
        }),
        after.raw_content == before.raw_content,
        after.running_in_background <==> before.running_in_background || run.background is Some,
{
}

/// A listener is needed exactly where a task listens, and it is one of the website's.
pub proof fn law_run_has_a_listener(
    before: WebsiteView,
    after: WebsiteView,
    run: Run,
    on_page_event: Option<u64>,
    background: Option<bool>,
    headless: Option<bool>,
    task: u64,
    capacity: usize,
)
    requires
        is_crawl(before, after, run, on_page_event, background, headless, task, capacity)
            || is_scrape(before, after, run, on_page_event, background, headless, task, capacity),
    ensures
        run.listener is Some <==> on_page_event is Some,
        run.listener matches Some(listener) ==> {
            &&& listener.raw_content == before.raw_content
            &&& before.crawler.channel is Some ==> before.crawler.channel == Some(
                receiver_channel(listener.receiver),
            )
            &&& before.crawler.channel is None ==> receiver_channel(listener.receiver).capacity
                == capacity
        },
{
}

/// A listener hands out raw content exactly where the website does, and hears the channel that
/// the website's crawler has, or else one for as many pages as asked for.
pub proof fn law_listener_is_the_website_s(
    listener: Listener,
    website: WebsiteView,
    capacity: usize,
)
    requires
        listener.listens_to(website, capacity),
    ensures
        website.raw_content ==> listener.raw_content,
        !website.raw_content ==> !listener.raw_content,
        website.crawler.channel is Some ==> website.crawler.channel == Some(
            receiver_channel(listener.receiver),
        ),
        website.crawler.channel is None ==> receiver_channel(listener.receiver).capacity
            == capacity,
        listener.channel() == receiver_channel(listener.receiver),
{
}

/// A crawl or a scrape adds the task that listens, if any, behind the subscriptions, under one
/// more than the largest id among them; the subscriptions that there were stay.
pub proof fn law_run_adds_its_listener(
    before: WebsiteView,
    after: WebsiteView,
    run: Run,
    on_page_event: Option<u64>,
    background: Option<bool>,
    headless: Option<bool>,
    task: u64,
    capacity: usize,
)
    requires
        is_crawl(before, after, run, on_page_event, background, headless, task, capacity)
            || is_scrape(before, after, run, on_page_event, background, headless, task, capacity),
        forall|i: int|
            0 <= i < before.subscriptions.len() ==> (#[trigger] before.subscriptions[i]).0
                < u32::MAX,
    ensures
        on_page_event is None ==> after.subscriptions == before.subscriptions,
        on_page_event matches Some(listener) ==> {
            &&& after.subscriptions.len() == before.subscriptions.len() + 1
            &&& after.subscriptions.drop_last() == before.subscriptions
            &&& after.subscriptions.last().1 == listener
            &&& before.subscriptions.len() == 0 ==> after.subscriptions.last().0 == 0
            &&& forall|i: int|
                0 <= i < before.subscriptions.len() ==> (#[trigger] before.subscriptions[i]).0
                    < after.subscriptions.last().0
            &&& before.subscriptions.len() > 0 ==> exists|i: int|
                0 <= i < before.subscriptions.len() && (#[trigger] before.subscriptions[i]).0 + 1
                    == after.subscriptions.last().0
        },
{
    if let Some(listener) = on_page_event {
        law_registered_task_comes_last(before.subscriptions, listener);
        assert(after.subscriptions.drop_last() =~= before.subscriptions);
    }
}

/// A run in the background adds its task to the crawls, under one more than the id of the last
/// one; any other run leaves the crawls as they were.
pub proof fn law_background_run_adds_its_task(
    before: WebsiteView,
    after: WebsiteView,
    run: Run,
    on_page_event: Option<u64>,
    background: Option<bool>,
    headless: Option<bool>,
    task: u64,
    capacity: usize,
    id: u32,
)
    requires
        is_crawl(before, after, run, on_page_event, background, headless, task, capacity)
            || is_scrape(before, after, run, on_page_event, background, headless, task, capacity),
        unique_ids(before.crawls),
        before.crawls.len() == 0 ==> id == 0,
        before.crawls.len() > 0 ==> id == before.crawls.last().0 + 1,
    ensures
        run.background is None ==> after.crawls == before.crawls,
        run.background is Some && (forall|i: int|
            0 <= i < before.crawls.len() ==> (#[trigger] before.crawls[i]).0 != id)
            ==> after.crawls == before.crawls.push((id, task)),
        run.background is Some ==> forall|i: int|
            0 <= i < before.crawls.len() && (#[trigger] before.crawls[i]).0 == id ==> after.crawls
                == before.crawls.update(i, (id, task)),
{
    law_following_task_is_placed(before.crawls, task, id);
}

/// The size that a website shows is the number of the links that it lists, each once, where that
/// fits; there is no size that does not.
pub proof fn law_size_is_the_number_of_links(website: WebsiteView, links: Seq<Seq<char>>)
    requires
        links.no_duplicates(),
        links.to_set() == website.crawler.links,
    ensures
        links.len() <= u32::MAX ==> shown_size(website) == links.len(),
        shown_size(website) <= u32::MAX,
        (links.len() - shown_size(website)) % 0x1_0000_0000 == 0,
{
    links.unique_seq_to_set();
}

/// One more link makes the size one more, where that fits, and without links it is 0.
pub proof fn law_size_counts_up(website: WebsiteView, other: WebsiteView, link: Seq<char>)
    requires
        website.crawler.links.finite(),
        other.crawler.links == website.crawler.links.insert(link),
    ensures
        website.crawler.links =~= Set::<Seq<char>>::empty() ==> shown_size(website) == 0,
        website.crawler.links.contains(link) ==> shown_size(other) == shown_size(website),
        !website.crawler.links.contains(link) && website.crawler.links.len() < u32::MAX
            ==> shown_size(other) == shown_size(website) + 1,
{
    if website.crawler.links.contains(link) {
        assert(other.crawler.links =~= website.crawler.links);
    }
}

} // verus!
