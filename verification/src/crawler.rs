//! The crawler that does the work of a website, and what a website sets on it and reads
//! from it.
use crate::headers::{ascii_lower_text, map_groups};
use compact_str::CompactString;
use spider::page::Page;
use spider::reqwest::header::HeaderMap;
use spider::tokio::sync::broadcast::Receiver;
use spider::website::Website as Crawler;
use std::time::Duration;
use vstd::prelude::*;
use vstd::string::*;

verus! {

/// `spider::website::Website`: the crawler of one website.
#[verifier::external_type_specification]
#[verifier::external_body]
pub struct ExCrawler(Crawler);

/// `tokio::sync::broadcast::Receiver`: the end of a channel at which what was sent arrives.
#[verifier::external_type_specification]
#[verifier::external_body]
#[verifier::reject_recursive_types(T)]
pub struct ExReceiver<T>(spider::tokio::sync::broadcast::Receiver<T>);

/// `std::io::Error`: a failure, here of a crawler whose address is no URL.
#[verifier::external_type_specification]
#[verifier::external_body]
pub struct ExIoError(std::io::Error);

/// The largest number of pages that a channel is made for: with a kilobyte for each, twice as
/// many still have an address.
pub const MAX_CAPACITY: usize = usize::MAX / 4096;

/// How far a crawl has come.
#[derive(Clone, Copy, PartialEq, Eq, Structural)]
pub enum CrawlStatus {
    /// The crawl did not start yet.
    Start,
    /// The crawl has completed.
    Idle,
    /// The crawl is running.
    Active,
    /// The crawl was blocked by the network.
    Blocked,
    /// The first request gave no page.
    Empty,
    /// The address is no URL, so the crawl can not start.
    Invalid,
    /// The crawl was shut down.
    Shutdown,
    /// The crawl was paused.
    Paused,
}

/// What a cron job runs.
#[derive(Clone, Copy, PartialEq, Eq, Structural)]
pub enum CronType {
    /// A crawl, which collects links.
    Crawl,
    /// A scrape, which collects pages.
    Scrape,
}

/// A channel from a crawler to its listeners.
pub struct Channel {
    /// Which channel it is.
    pub id: int,
    /// The number of pages that it was made for.
    pub capacity: usize,
}

/// What a crawler holds, as far as a website sets it or reads it.
#[verifier::ext_equal]
pub struct CrawlerState {
    /// The address where a crawl starts.
    pub url: Seq<char>,
    /// Whether the address is a URL.
    pub url_valid: bool,
    /// Whether robots.txt is respected.
    pub respect_robots_txt: bool,
    /// Whether subdomains belong to the website.
    pub subdomains: bool,
    /// Whether other top-level domains belong to the website.
    pub tld: bool,
    /// Whether only HTTP/2 is used.
    pub http2_prior_knowledge: bool,
    /// The milliseconds between requests.
    pub delay: u64,
    /// The milliseconds after which a request is given up.
    pub request_timeout: Option<u64>,
    /// The user agent of the requests.
    pub user_agent: Option<Seq<char>>,
    /// The headers of the requests: each name with its values.
    pub headers: Option<Seq<(Seq<char>, Seq<Seq<u8>>)>>,
    /// The proxies that the requests go through.
    pub proxies: Option<Seq<Seq<char>>>,
    /// The patterns of the addresses that are not crawled.
    pub blacklist_url: Option<Seq<Seq<char>>>,
    /// The number of pages that are crawled under a path.
    pub budget: Option<Map<Seq<char>, u32>>,
    /// The hosts that are crawled besides that of the website.
    pub external_domains: Set<Seq<char>>,
    /// The times at which a cron job runs.
    pub cron_str: Seq<char>,
    /// What a cron job runs.
    pub cron_type: CronType,
    /// How far the crawl has come.
    pub status: CrawlStatus,
    /// Whether a crawl is to end.
    pub stopped: bool,
    /// The channel to the listeners, once there is one.
    pub channel: Option<Channel>,
    /// The links that were visited.
    pub links: Set<Seq<char>>,
    /// The pages that a scrape collected.
    pub pages: Option<Seq<Page>>,
}

/// What a crawler holds.
pub uninterp spec fn crawler_state(crawler: Crawler) -> CrawlerState;

/// The channel that arrives at a receiver.
pub uninterp spec fn receiver_channel(
    receiver: spider::tokio::sync::broadcast::Receiver<spider::page::Page>,
) -> Channel;

/// The host of a URL, nothing where the URL has no host; `None` where the text is no URL.
pub uninterp spec fn url_host(text: Seq<char>) -> Option<Seq<char>>;

/// Whether a character is white space in the sense of Unicode.
pub open spec fn is_white_space(c: char) -> bool {
    ||| '\u{9}' <= c && c <= '\u{d}'
    ||| c == ' '
    ||| c == '\u{85}'
    ||| c == '\u{a0}'
    ||| c == '\u{1680}'
    ||| '\u{2000}' <= c && c <= '\u{200a}'
    ||| c == '\u{2028}'
    ||| c == '\u{2029}'
    ||| c == '\u{202f}'
    ||| c == '\u{205f}'
    ||| c == '\u{3000}'
}

/// A text without the white space at its start.
pub open spec fn trimmed_start(text: Seq<char>) -> Seq<char>
    decreases text.len(),
{
    if text.len() > 0 && is_white_space(text[0]) {
        trimmed_start(text.skip(1))
    } else {
        text
    }
}

/// A text without the white space at its end.
pub open spec fn trimmed_end(text: Seq<char>) -> Seq<char>
    decreases text.len(),
{
    if text.len() > 0 && is_white_space(text.last()) {
        trimmed_end(text.drop_last())
    } else {
        text
    }
}

/// The address where the crawl of `url` starts: without white space around it, where there
/// is a space at either end, and with a scheme in front, where there seems to be none.
pub open spec fn start_url(url: Seq<char>) -> Seq<char> {
    let trimmed = if url.len() > 0 && (url[0] == ' ' || url.last() == ' ') {
        trimmed_end(trimmed_start(url))
    } else {
        url
    };
    if seq!['h', 't', 't', 'p'].is_prefix_of(trimmed) {
        trimmed
    } else {
        seq!['h', 't', 't', 'p', 's', ':', '/', '/'] + trimmed
    }
}

/// What a new crawler holds whose crawls start at `url`; `host` is the host there.
pub open spec fn fresh_crawler(url: Seq<char>, host: Option<Seq<char>>) -> CrawlerState {
    CrawlerState {
        url,
        url_valid: host is Some,
        respect_robots_txt: false,
        subdomains: false,
        tld: false,
        http2_prior_knowledge: false,
        delay: 0,
        request_timeout: Some(15000),
        user_agent: None,
        headers: None,
        proxies: None,
        blacklist_url: None,
        budget: None,
        external_domains: Set::empty(),
        cron_str: Seq::empty(),
        cron_type: CronType::Crawl,
        status: CrawlStatus::Start,
        stopped: false,
        channel: None,
        links: Set::empty(),
        pages: None,
    }
}

/// What a crawler holds whose pages go to `channel`.
pub open spec fn with_channel(crawler: CrawlerState, channel: Channel) -> CrawlerState {
    CrawlerState { channel: Some(channel), ..crawler }
}

/// Whether a listener who comes to the crawler hears `channel`: the channel that there is, or
/// else a new one for `capacity` pages.
pub open spec fn hears(crawler: CrawlerState, channel: Channel, capacity: usize) -> bool {
    match crawler.channel {
        Some(there) => channel == there,
        None => channel.capacity == capacity,
    }
}

/// The name of a status.
pub open spec fn status_name(status: CrawlStatus) -> Seq<char> {
    match status {
        CrawlStatus::Start => "Start"@,
        CrawlStatus::Idle => "Idle"@,
        CrawlStatus::Active => "Active"@,
        CrawlStatus::Blocked => "Blocked"@,
        CrawlStatus::Empty => "Empty"@,
        CrawlStatus::Invalid => "Invalid"@,
        CrawlStatus::Shutdown => "Shutdown"@,
        CrawlStatus::Paused => "Paused"@,
    }
}

/// Whether two texts differ in nothing but the case of ASCII letters.
pub open spec fn same_ignoring_case(a: Seq<char>, b: Seq<char>) -> bool {
    ascii_lower_text(a) == ascii_lower_text(b)
}

/// Whether a set holds a text, the case of ASCII letters aside.
pub open spec fn holds_ignoring_case(texts: Set<Seq<char>>, text: Seq<char>) -> bool {
    exists|t: Seq<char>| #[trigger] texts.contains(t) && same_ignoring_case(t, text)
}

/// The host that a text names: a star stands for every host.
pub open spec fn external_host(text: Seq<char>) -> Option<Seq<char>> {
    if text == seq!['*'] {
        Some(text)
    } else {
        url_host(text)
    }
}

/// The hosts that texts name. A text that names none is left out, and so is one whose host
/// has come before, the case of ASCII letters aside.
pub open spec fn external_hosts(texts: Seq<Seq<char>>) -> Set<Seq<char>>
    decreases texts.len(),
{
    if texts.len() == 0 {
        Set::empty()
    } else {
        let before = external_hosts(texts.drop_last());
        match external_host(texts.last()) {
            Some(host) => if holds_ignoring_case(before, host) {
                before
            } else {
                before.insert(host)
            },
            None => before,
        }
    }
}

/// The limits of paths, as texts.
pub open spec fn budget_view(budget: Seq<(String, u32)>) -> Seq<(Seq<char>, u32)> {
    budget.map_values(|entry: (String, u32)| (entry.0@, entry.1))
}

/// The limits of paths, of which the last one that a path is given counts.
pub open spec fn limits(budget: Seq<(Seq<char>, u32)>) -> Map<Seq<char>, u32>
    decreases budget.len(),
{
    if budget.len() == 0 {
        Map::empty()
    } else {
        limits(budget.drop_last()).insert(budget.last().0, budget.last().1)
    }
}

/// Whether `budget` has the limits `limits`, the case of ASCII letters in a path aside: of
/// paths that differ in case alone, one stands for all, with the limit of any of them.
pub open spec fn has_limits(budget: Map<Seq<char>, u32>, limits: Map<Seq<char>, u32>) -> bool {
    &&& forall|path: Seq<char>| #[trigger]
        budget.dom().contains(path) ==> limits.dom().contains(path) && (exists|other: Seq<char>| #[trigger]
            limits.dom().contains(other) && same_ignoring_case(other, path) && limits[other]
                == budget[path])
    &&& forall|path: Seq<char>| #[trigger]
        limits.dom().contains(path) ==> holds_ignoring_case(budget.dom(), path)
    &&& forall|a: Seq<char>, b: Seq<char>| #[trigger]
        budget.dom().contains(a) && #[trigger] budget.dom().contains(b) && same_ignoring_case(a, b)
            ==> a == b
}

/// `Website::new`: a crawler of the website `url` with the settings that a crawler starts
/// with. Whether the address is a URL is left to `url_host`.
#[verifier::external_body]
pub(crate) fn new_crawler(url: &str) -> (crawler: Crawler)
    ensures
        crawler_state(crawler) == fresh_crawler(start_url(url@), url_host(start_url(url@))),
{
    Crawler::new(url)
}

/// `Website::clone`: a crawler that holds the same, and whose pages go to the same channel
/// where there is one.
#[verifier::external_body]
pub(crate) fn clone_crawler(crawler: &Crawler) -> (copy: Crawler)
    ensures
        crawler_state(copy) == crawler_state(*crawler),
{
    crawler.clone()
}

/// `Website::build`: a copy of a crawler whose address is a URL; any other is refused.
#[verifier::external_body]
pub(crate) fn build_crawler(crawler: &Crawler) -> (built: Result<Crawler, std::io::Error>)
    ensures
        built is Ok <==> crawler_state(*crawler).url_valid,
        built matches Ok(copy) ==> crawler_state(copy) == crawler_state(*crawler),
{
    crawler.build()
}

/// `Website::subscribe`: a receiver of the channel to the listeners, which is made for
/// `capacity` pages where there is none yet. Making it panics for a capacity of zero, and for
/// one that takes more bytes than an allocation can have: it has a slot for each page, rounded
/// up to a power of two, and a slot is smaller than a kilobyte. Which new channel it is, is not
/// said.
#[verifier::external_body]
pub(crate) fn listen(crawler: &mut Crawler, capacity: usize) -> (receiver: Option<Receiver<Page>>)
    requires
        0 < capacity <= MAX_CAPACITY,
    ensures
        receiver is Some,
        hears(crawler_state(*old(crawler)), receiver_channel(receiver->0), capacity),
        crawler_state(*final(crawler)) == with_channel(
            crawler_state(*old(crawler)),
            receiver_channel(receiver->0),
        ),
{
    crawler.subscribe(capacity)
}

/// `Website::stop`: a crawl is to end.
#[verifier::external_body]
pub(crate) fn stop_crawler(crawler: &mut Crawler)
    ensures
        crawler_state(*final(crawler)) == (CrawlerState {
            stopped: true,
            ..crawler_state(*old(crawler))
        }),
{
    crawler.stop();
}

/// `Website::get_status`, by its name.
#[verifier::external_body]
pub(crate) fn get_status(crawler: &Crawler) -> (status: String)
    ensures
        status@ == status_name(crawler_state(*crawler).status),
{
    crawler.get_status().to_string()
}

/// `Website::get_domain`: the address where a crawl starts.
#[verifier::external_body]
pub(crate) fn get_domain(crawler: &Crawler) -> (domain: String)
    ensures
        domain@ == crawler_state(*crawler).url,
{
    crawler.get_domain().inner().to_string()
}

/// `Website::get_links`: the links that were visited, each once. Their order is that of a
/// hash table.
#[verifier::external_body]
pub(crate) fn get_links(crawler: &Crawler) -> (links: Vec<String>)
    ensures
        links.deep_view().no_duplicates(),
        links.deep_view().to_set() == crawler_state(*crawler).links,
{
    crawler.get_links().iter().map(|link| link.as_ref().to_string()).collect()
}

/// `Website::drain_links`: takes out the links that were visited, each once. Their order is
/// that of a hash table.
#[verifier::external_body]
pub(crate) fn drain_links(crawler: &mut Crawler) -> (links: Vec<String>)
    ensures
        links.deep_view().no_duplicates(),
        links.deep_view().to_set() == crawler_state(*old(crawler)).links,
        crawler_state(*final(crawler)) == (CrawlerState {
            links: Set::empty(),
            ..crawler_state(*old(crawler))
        }),
{
    crawler.drain_links().map(|link| link.as_ref().to_string()).collect()
}

/// `Website::size`: the number of links that were visited.
#[verifier::external_body]
pub(crate) fn get_size(crawler: &Crawler) -> (size: usize)
    ensures
        size == crawler_state(*crawler).links.len(),
{
    crawler.size()
}

/// `Website::clear`: forgets the links and the pages.
#[verifier::external_body]
pub(crate) fn clear_crawler(crawler: &mut Crawler)
    ensures
        crawler_state(*final(crawler)) == (CrawlerState {
            links: Set::empty(),
            pages: None,
            ..crawler_state(*old(crawler))
        }),
{
    crawler.clear();
}

/// `Website::get_pages`: the pages that a scrape collected, if there was one.
#[verifier::external_body]
pub(crate) fn get_pages(crawler: &Crawler) -> (pages: Option<&Vec<Page>>)
    ensures
        pages is Some <==> crawler_state(*crawler).pages is Some,
        pages matches Some(pages) ==> crawler_state(*crawler).pages == Some(pages@),
{
    crawler.get_pages().map(|pages| &**pages)
}

/// The headers in the configuration of a `Website`.
#[verifier::external_body]
pub(crate) fn get_headers(crawler: &Crawler) -> (headers: Option<&HeaderMap>)
    ensures
        headers is Some <==> crawler_state(*crawler).headers is Some,
        headers matches Some(map) ==> crawler_state(*crawler).headers == Some(map_groups(*map)),
{
    crawler.configuration.headers.as_deref()
}

/// `Website::with_headers`: sets the headers of the requests, or unsets them.
#[verifier::external_body]
pub(crate) fn set_headers(crawler: &mut Crawler, headers: Option<HeaderMap>)
    ensures
        crawler_state(*final(crawler)) == (CrawlerState {
            headers: match headers {
                Some(map) => Some(map_groups(map)),
                None => None,
            },
            ..crawler_state(*old(crawler))
        }),
{
    crawler.with_headers(headers);
}

/// `Configuration::with_user_agent`: sets the user agent of the requests, or unsets it.
#[verifier::external_body]
pub(crate) fn set_user_agent(crawler: &mut Crawler, user_agent: Option<&str>)
    ensures
        crawler_state(*final(crawler)) == (CrawlerState {
            user_agent: match user_agent {
                Some(agent) => Some(agent@),
                None => None,
            },
            ..crawler_state(*old(crawler))
        }),
{
    crawler.configuration.with_user_agent(user_agent);
}

/// `Configuration::with_respect_robots_txt`: sets whether robots.txt is respected.
#[verifier::external_body]
pub(crate) fn set_respect_robots_txt(crawler: &mut Crawler, respect_robots_txt: bool)
    ensures
        crawler_state(*final(crawler)) == (CrawlerState {
            respect_robots_txt,
            ..crawler_state(*old(crawler))
        }),
{
    crawler.configuration.with_respect_robots_txt(respect_robots_txt);
}

/// `Configuration::with_subdomains`: sets whether subdomains belong to the website.
#[verifier::external_body]
pub(crate) fn set_subdomains(crawler: &mut Crawler, subdomains: bool)
    ensures
        crawler_state(*final(crawler)) == (CrawlerState {
            subdomains,
            ..crawler_state(*old(crawler))
        }),
{
    crawler.configuration.with_subdomains(subdomains);
}

/// `Configuration::with_tld`: sets whether other top-level domains belong to the website.
#[verifier::external_body]
pub(crate) fn set_tld(crawler: &mut Crawler, tld: bool)
    ensures
        crawler_state(*final(crawler)) == (CrawlerState { tld, ..crawler_state(*old(crawler)) }),
{
    crawler.configuration.with_tld(tld);
}

/// `Configuration::with_http2_prior_knowledge`: sets whether only HTTP/2 is used.
#[verifier::external_body]
pub(crate) fn set_http2_prior_knowledge(crawler: &mut Crawler, http2_prior_knowledge: bool)
    ensures
        crawler_state(*final(crawler)) == (CrawlerState {
            http2_prior_knowledge,
            ..crawler_state(*old(crawler))
        }),
{
    crawler.configuration.with_http2_prior_knowledge(http2_prior_knowledge);
}

/// `Configuration::with_request_timeout`: sets the milliseconds after which a request is
/// given up, or that none is.
#[verifier::external_body]
pub(crate) fn set_request_timeout(crawler: &mut Crawler, request_timeout: Option<u64>)
    ensures
        crawler_state(*final(crawler)) == (CrawlerState {
            request_timeout,
            ..crawler_state(*old(crawler))
        }),
{
    crawler.configuration.with_request_timeout(request_timeout.map(Duration::from_millis));
}

/// `Configuration::with_delay`: sets the milliseconds between requests.
#[verifier::external_body]
pub(crate) fn set_delay(crawler: &mut Crawler, delay: u64)
    ensures
        crawler_state(*final(crawler)) == (CrawlerState { delay, ..crawler_state(*old(crawler)) }),
{
    crawler.configuration.with_delay(delay);
}

/// `Configuration::with_proxies`: sets the proxies of the requests, or unsets them.
#[verifier::external_body]
pub(crate) fn set_proxies(crawler: &mut Crawler, proxies: Option<Vec<String>>)
    ensures
        crawler_state(*final(crawler)) == (CrawlerState {
            proxies: proxies.deep_view(),
            ..crawler_state(*old(crawler))
        }),
{
    crawler.configuration.with_proxies(proxies);
}

/// `Configuration::with_blacklist_url`: sets the patterns of the addresses that are not
/// crawled, or unsets them. The crawler keeps each as a `CompactString` of the same text.
#[verifier::external_body]
pub(crate) fn set_blacklist_url(crawler: &mut Crawler, blacklist_url: Option<Vec<String>>)
    ensures
        crawler_state(*final(crawler)) == (CrawlerState {
            blacklist_url: blacklist_url.deep_view(),
            ..crawler_state(*old(crawler))
        }),
{
    let blacklist = blacklist_url.map(
        |urls| urls.into_iter().map(|url| CompactString::new(url)).collect::<Vec<CompactString>>(),
    );
    crawler.configuration.with_blacklist_url(blacklist);
}

/// `Website::with_external_domains`: sets the hosts that are crawled besides that of the
/// website, or unsets them. Which host a text names is left to `url_host`.
#[verifier::external_body]
pub(crate) fn set_external_domains(crawler: &mut Crawler, external_domains: Option<Vec<String>>)
    ensures
        crawler_state(*final(crawler)) == (CrawlerState {
            external_domains: match external_domains {
                Some(texts) => external_hosts(texts.deep_view()),
                None => Set::empty(),
            },
            ..crawler_state(*old(crawler))
        }),
{
    crawler.with_external_domains(external_domains.map(|texts| texts.into_iter()));
}

/// `Website::with_budget`: sets the limits of paths. The crawler knows a path whatever the
/// case of its ASCII letters, and takes the limits in the order of a hash table.
#[verifier::external_body]
pub(crate) fn set_budget(crawler: &mut Crawler, budget: &Vec<(String, u32)>)
    ensures
        crawler_state(*final(crawler)).budget is Some,
        has_limits(
            crawler_state(*final(crawler)).budget->0,
            limits(budget_view(budget@)),
        ),
        crawler_state(*final(crawler)) == (CrawlerState {
            budget: crawler_state(*final(crawler)).budget,
            ..crawler_state(*old(crawler))
        }),
{
    let limits = budget.iter().map(|entry| (entry.0.as_str(), entry.1));
    crawler.with_budget(Some(limits.collect::<spider::hashbrown::HashMap<&str, u32>>()));
}

/// `Website::with_cron`: sets the times at which a cron job runs, and what it runs.
#[verifier::external_body]
pub(crate) fn set_cron(crawler: &mut Crawler, cron_str: &str, cron_type: CronType)
    ensures
        crawler_state(*final(crawler)) == (CrawlerState {
            cron_str: cron_str@,
            cron_type,
            ..crawler_state(*old(crawler))
        }),
{
    let cron_type = match cron_type {
        CronType::Crawl => spider::website::CronType::Crawl,
        CronType::Scrape => spider::website::CronType::Scrape,
    };
    crawler.with_cron(cron_str, cron_type);
}

} // verus!
