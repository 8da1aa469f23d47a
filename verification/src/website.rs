//! A website to crawl: the crawler that does the work, and the tasks that crawl and listen.
use crate::crawler::{
    self, budget_view, crawler_state, external_hosts, fresh_crawler, has_limits, hears, limits,
    receiver_channel, start_url, status_name, url_host, with_channel, Channel, CrawlerState,
    CronType, MAX_CAPACITY,
};
use crate::cron::Cron;
use crate::headers::{
    collect_headers, collected, pairs_view, show_headers, shown_headers, TooManyHeaders,
    MAX_HEADER_NAMES, SAFE_HEADER_NAMES,
};
use crate::page::{show_pages, NPage};
use crate::registry::{
    followed_by, following_id, has_id, next_id, position_of, registered, tasks_of, unique_ids,
    without_id, Registry,
};
use spider::page::Page;
use spider::tokio::sync::broadcast::Receiver;
use spider::website::Website as Crawler;
use vstd::prelude::*;
use vstd::string::*;

verus! {

/// A website to crawl.
pub struct Website {
    /// The crawler that does the work.
    inner: Crawler,
    /// The tasks that listen to the pages.
    subscription_handles: Registry,
    /// The tasks that crawl in the background.
    crawl_handles: Registry,
    /// Whether content is handed out without converting it to UTF-8.
    raw_content: bool,
    /// Whether a crawl was started in the background and not stopped since.
    running_in_background: bool,
}

/// What a website holds.
#[verifier::ext_equal]
pub struct WebsiteView {
    /// What the crawler holds.
    pub crawler: CrawlerState,
    /// The tasks that listen to the pages, each behind its id.
    pub subscriptions: Seq<(u32, u64)>,
    /// The tasks that crawl in the background, each behind its id.
    pub crawls: Seq<(u32, u64)>,
    /// Whether content is handed out without converting it to UTF-8.
    pub raw_content: bool,
    /// Whether a crawl was started in the background and not stopped since.
    pub running_in_background: bool,
}

impl WebsiteView {
    /// The same website with another crawler.
    pub open spec fn with_crawler(self, crawler: CrawlerState) -> WebsiteView {
        WebsiteView { crawler, ..self }
    }
}

/// What is run on a crawler.
#[derive(Clone, Copy, PartialEq, Eq, Structural)]
pub enum Method {
    /// A crawl with a browser.
    Crawl,
    /// A crawl with plain requests.
    CrawlRaw,
    /// A scrape with a browser.
    Scrape,
    /// A scrape with plain requests.
    ScrapeRaw,
}

/// The method of a crawl.
pub open spec fn crawl_method(headless: Option<bool>) -> Method {
    if headless == Some(true) {
        Method::Crawl
    } else {
        Method::CrawlRaw
    }
}

/// The method of a scrape.
pub open spec fn scrape_method(headless: Option<bool>) -> Method {
    if headless == Some(true) {
        Method::Scrape
    } else {
        Method::ScrapeRaw
    }
}

/// What a task needs to listen to the pages of a crawl.
pub struct Listener {
    /// Where the pages arrive.
    pub receiver: Receiver<Page>,
    /// Whether their content is handed out without converting it to UTF-8.
    pub raw_content: bool,
}

impl Listener {
    /// The channel whose pages arrive.
    pub open spec fn channel(&self) -> Channel {
        receiver_channel(self.receiver)
    }

    /// Whether this is a listener who came to the website: it hears the channel of the
    /// website's crawler, or else a new one for `capacity` pages.
    pub open spec fn listens_to(&self, website: WebsiteView, capacity: usize) -> bool {
        &&& hears(website.crawler, self.channel(), capacity)
        &&& self.raw_content == website.raw_content
    }
}

/// What is left to do to run a crawl or a scrape.
pub struct Run {
    /// What is to be run.
    pub method: Method,
    /// What the task that listens to the pages needs, where one is to be spawned.
    pub listener: Option<Listener>,
    /// The crawler of its own that a task is to run in the background; without it the
    /// website's crawler is run to the end.
    pub background: Option<Crawler>,
}

impl Run {
    /// The channel that the task which listens hears, where one is to be spawned.
    pub open spec fn channel(&self) -> Option<Channel> {
        match self.listener {
            Some(listener) => Some(listener.channel()),
            None => None,
        }
    }
}

/// What is left to do to give up tasks.
pub struct Removal {
    /// Whether there was a task to give up.
    pub found: bool,
    /// The tasks to abort.
    pub aborted: Vec<u64>,
}

/// What is left to do to stop crawls.
pub struct Stop {
    /// The address whose crawls are to be shut down, where a background crawl was started.
    pub shutdown: Option<String>,
    /// The crawl tasks that are given up.
    pub removal: Removal,
}

/// The headers that a website is given.
pub enum HeaderSource {
    /// None at all.
    Unset,
    /// A dictionary, entry by entry.
    Dict(Vec<(String, String)>),
    /// Something that is no dictionary.
    Other,
}

/// What a new website holds.
pub open spec fn fresh_website(
    url: Seq<char>,
    host: Option<Seq<char>>,
    raw_content: bool,
) -> WebsiteView {
    WebsiteView {
        crawler: fresh_crawler(url, host),
        subscriptions: Seq::empty(),
        crawls: Seq::empty(),
        raw_content,
        running_in_background: false,
    }
}

/// What a website holds once the task `listener` is subscribed to its pages.
/// The task hears `channel`.
pub open spec fn subscribed(website: WebsiteView, listener: u64, channel: Channel) -> WebsiteView {
    WebsiteView {
        crawler: with_channel(website.crawler, channel),
        subscriptions: registered(website.subscriptions, listener),
        ..website
    }
}

/// What a website holds once subscriptions are removed: the one under `id`, or all.
pub open spec fn unsubscribed(website: WebsiteView, id: Option<u32>) -> WebsiteView {
    WebsiteView { subscriptions: given_up(website.subscriptions, id), ..website }
}

/// What a website holds once crawls are stopped: the one under `id`, or all.
pub open spec fn stopped(website: WebsiteView, id: Option<u32>) -> WebsiteView {
    WebsiteView {
        crawler: CrawlerState { stopped: true, ..website.crawler },
        crawls: given_up(website.crawls, id),
        running_in_background: false,
        ..website
    }
}

/// What a crawler holds whose pages go to `channel`, if any.
pub open spec fn heard(crawler: CrawlerState, channel: Option<Channel>) -> CrawlerState {
    match channel {
        Some(channel) => with_channel(crawler, channel),
        None => crawler,
    }
}

/// What a website holds once a crawl or a scrape is under way: a listener task, where there
/// is one, is registered under the next id, and the crawl task of a background run under the
/// id that follows the last one. The listener hears `channel`.
pub open spec fn under_way(
    website: WebsiteView,
    listener: Option<u64>,
    channel: Option<Channel>,
    background: bool,
    task: u64,
) -> WebsiteView {
    WebsiteView {
        crawler: if background {
            website.crawler
        } else {
            heard(website.crawler, channel)
        },
        subscriptions: match listener {
            Some(listener) => registered(website.subscriptions, listener),
            None => website.subscriptions,
        },
        crawls: if background {
            followed_by(website.crawls, task)
        } else {
            website.crawls
        },
        running_in_background: website.running_in_background || background,
        ..website
    }
}

/// Whether `run` is what is left to do of a crawl or a scrape by `method`.
pub open spec fn is_run_of(
    run: Run,
    website: WebsiteView,
    method: Method,
    listener: Option<u64>,
    background: bool,
    capacity: usize,
) -> bool {
    &&& run.method == method
    &&& run.listener is Some <==> listener is Some
    &&& run.listener matches Some(listener) ==> listener.listens_to(website, capacity)
    &&& run.background is Some <==> background
    &&& run.background matches Some(crawler) ==> crawler_state(crawler) == heard(
        website.crawler,
        run.channel(),
    )
}

/// Whether a crawl is run in the background: where that is asked for and a task listens to the
/// pages.
pub open spec fn crawls_in_background(
    on_page_event: Option<u64>,
    background: Option<bool>,
) -> bool {
    background == Some(true) && on_page_event is Some
}

/// Whether a crawl takes the website from `before` to `after` and leaves `run` to do.
pub open spec fn is_crawl(
    before: WebsiteView,
    after: WebsiteView,
    run: Run,
    on_page_event: Option<u64>,
    background: Option<bool>,
    headless: Option<bool>,
    task: u64,
    capacity: usize,
) -> bool {
    let in_background = crawls_in_background(on_page_event, background);
    &&& is_run_of(run, before, crawl_method(headless), on_page_event, in_background, capacity)
    &&& after == under_way(before, on_page_event, run.channel(), in_background, task)
}

/// Whether a scrape takes the website from `before` to `after` and leaves `run` to do. It is
/// run in the background where that is asked for.
pub open spec fn is_scrape(
    before: WebsiteView,
    after: WebsiteView,
    run: Run,
    on_page_event: Option<u64>,
    background: Option<bool>,
    headless: Option<bool>,
    task: u64,
    capacity: usize,
) -> bool {
    let in_background = background == Some(true);
    &&& is_run_of(run, before, scrape_method(headless), on_page_event, in_background, capacity)
    &&& after == under_way(before, on_page_event, run.channel(), in_background, task)
}

/// The size that a website shows: the number of its links, modulo two to the power of 32.
pub open spec fn shown_size(website: WebsiteView) -> nat {
    website.crawler.links.len() % 0x1_0000_0000
}

/// The entries of a registry once tasks are given up: the one under `id`, or all.
pub open spec fn given_up(entries: Seq<(u32, u64)>, id: Option<u32>) -> Seq<(u32, u64)> {
    match id {
        Some(id) => without_id(entries, id),
        None => Seq::empty(),
    }
}

/// Whether `removal` is what is left to do to give up tasks: the one under `id`, or all.
pub open spec fn is_removal_of(removal: Removal, entries: Seq<(u32, u64)>, id: Option<u32>) -> bool {
    match id {
        Some(id) => if has_id(entries, id) {
            removal.found && removal.aborted@ == seq![entries[position_of(entries, id)].1]
        } else {
            !removal.found && removal.aborted@ == Seq::<u64>::empty()
        },
        None => removal.found == (entries.len() > 0) && removal.aborted@ == tasks_of(entries),
    }
}

/// Gives up tasks: the one under `id`, or all.
fn give_up(handles: &mut Registry, id: Option<u32>) -> (removal: Removal)
    requires
        old(handles).wf(),
    ensures
        final(handles).wf(),
        final(handles)@ == given_up(old(handles)@, id),
        is_removal_of(removal, old(handles)@, id),
{
    match id {
        Some(id) => {
            let mut aborted: Vec<u64> = Vec::new();
            match handles.remove(id) {
                Some(task) => {
                    aborted.push(task);
                    assert(aborted@ =~= seq![task]);
                    Removal { found: true, aborted }
                },
                None => Removal { found: false, aborted },
            }
        },
        None => {
            let keys = handles.len();
            let aborted = handles.drain();
            Removal { found: keys > 0, aborted }
        },
    }
}

/// Makes a crawler's pages arrive at a listener.
fn open_listener(crawler: &mut Crawler, buffer: usize, raw_content: bool) -> (listener: Listener)
    requires
        2 <= buffer,
        buffer / 2 <= MAX_CAPACITY,
    ensures
        hears(crawler_state(*old(crawler)), listener.channel(), (buffer / 2) as usize),
        crawler_state(*final(crawler)) == with_channel(
            crawler_state(*old(crawler)),
            listener.channel(),
        ),
        listener.raw_content == raw_content,
{
    let receiver = crawler::listen(crawler, buffer / 2).unwrap();
    Listener { receiver, raw_content }
}

impl View for Website {
    type V = WebsiteView;

    closed spec fn view(&self) -> WebsiteView {
        WebsiteView {
            crawler: crawler_state(self.inner),
            subscriptions: self.subscription_handles@,
            crawls: self.crawl_handles@,
            raw_content: self.raw_content,
            running_in_background: self.running_in_background,
        }
    }
}

impl Website {
    /// No id stands for two tasks.
    pub open spec fn wf(&self) -> bool {
        unique_ids(self@.subscriptions) && unique_ids(self@.crawls)
    }

    /// A new website.
    pub fn new(url: String, raw_content: Option<bool>) -> (website: Website)
        ensures
            website.wf(),
            website@ == fresh_website(
                start_url(url@),
                url_host(start_url(url@)),
                raw_content == Some(true),
            ),
    {
        Website {
            inner: crawler::new_crawler(url.as_str()),
            subscription_handles: Registry::new(),
            crawl_handles: Registry::new(),
            raw_content: raw_content.unwrap_or(false),
            running_in_background: false,
        }
    }

    /// The crawler that does the work.
    pub fn crawler(&self) -> (inner: &Crawler)
        ensures
            crawler_state(*inner) == self@.crawler,
    {
        &self.inner
    }

    /// The crawler that does the work, to be run.
    pub fn crawler_mut(&mut self) -> (inner: &mut Crawler)
        ensures
            crawler_state(*inner) == old(self)@.crawler,
            final(self)@ == old(self)@.with_crawler(crawler_state(*final(inner))),
    {
        &mut self.inner
    }

    /// Whether there is an id for another subscription.
    pub fn can_subscribe(&self) -> (can: bool)
        ensures
            can == (next_id(self@.subscriptions) <= u32::MAX),
    {
        self.subscription_handles.has_next_id()
    }

    /// Whether there is an id for another crawl in the background.
    pub fn can_crawl_in_background(&self) -> (can: bool)
        ensures
            can == (following_id(self@.crawls) <= u32::MAX),
    {
        self.crawl_handles.has_following_id()
    }

    /// Get the crawl status.
    pub fn status(&self) -> (status: String)
        ensures
            status@ == status_name(self@.crawler.status),
    {
        crawler::get_status(&self.inner)
    }

    /// Subscribes the listener task `on_page_event` to the pages and returns the id of the
    /// subscription, one more than the largest one in use, and what the task needs.
    pub fn subscribe(&mut self, on_page_event: u64, buffer: usize) -> (subscription: (
        u32,
        Listener,
    ))
        requires
            old(self).wf(),
            next_id(old(self)@.subscriptions) <= u32::MAX,
            2 <= buffer,
            buffer / 2 <= MAX_CAPACITY,
        ensures
            final(self).wf(),
            subscription.0 == next_id(old(self)@.subscriptions),
            !has_id(old(self)@.subscriptions, subscription.0),
            subscription.1.listens_to(old(self)@, (buffer / 2) as usize),
            final(self)@ == subscribed(old(self)@, on_page_event, subscription.1.channel()),
            next_id(final(self)@.subscriptions) == subscription.0 + 1,
    {
        let listener = open_listener(&mut self.inner, buffer, self.raw_content);
        let id = self.subscription_handles.register(on_page_event);
        (id, listener)
    }

    /// Removes a subscription, or every one, and says which tasks to abort.
    pub fn unsubscribe(&mut self, id: Option<u32>) -> (removal: Removal)
        requires
            old(self).wf(),
        ensures
            final(self).wf(),
            is_removal_of(removal, old(self)@.subscriptions, id),
            final(self)@ == unsubscribed(old(self)@, id),
    {
        give_up(&mut self.subscription_handles, id)
    }

    /// Stops a crawl in the background, or every one, and says which tasks to abort and
    /// whether crawls are to be shut down.
    pub fn stop(&mut self, id: Option<u32>) -> (stop: Stop)
        requires
            old(self).wf(),
        ensures
            final(self).wf(),
            stop.shutdown is Some <==> old(self)@.running_in_background,
            stop.shutdown matches Some(url) ==> url@ == old(self)@.crawler.url,
            is_removal_of(stop.removal, old(self)@.crawls, id),
            final(self)@ == stopped(old(self)@, id),
    {
        crawler::stop_crawler(&mut self.inner);
        let shutdown = if self.running_in_background {
            let domain_name = crawler::get_domain(&self.inner);
            self.running_in_background = false;
            Some(domain_name)
        } else {
            None
        };
        let removal = give_up(&mut self.crawl_handles, id);
        Stop { shutdown, removal }
    }

    /// Registers the tasks of a crawl or a scrape and prepares what they need.
    fn start(
        &mut self,
        method: Method,
        on_page_event: Option<u64>,
        background: bool,
        task: u64,
        buffer: usize,
    ) -> (run: Run)
        requires
            old(self).wf(),
            on_page_event is Some ==> next_id(old(self)@.subscriptions) <= u32::MAX && 2 <= buffer
                && buffer / 2 <= MAX_CAPACITY,
            background ==> following_id(old(self)@.crawls) <= u32::MAX,
        ensures
            final(self).wf(),
            on_page_event is Some ==> !has_id(
                old(self)@.subscriptions,
                next_id(old(self)@.subscriptions) as u32,
            ),
            is_run_of(
                run,
                old(self)@,
                method,
                on_page_event,
                background,
                (buffer / 2) as usize,
            ),
            final(self)@ == under_way(
                old(self)@,
                on_page_event,
                run.channel(),
                background,
                task,
            ),
    {
        if background {
            self.running_in_background = background;
        }
        match on_page_event {
            Some(callback) => {
                if background {
                    let mut website = crawler::clone_crawler(&self.inner);
                    let listener = open_listener(&mut website, buffer, self.raw_content);
                    let _ = self.crawl_handles.follow(task);
                    let _ = self.subscription_handles.register(callback);
                    Run { method, listener: Some(listener), background: Some(website) }
                } else {
                    let listener = open_listener(&mut self.inner, buffer, self.raw_content);
                    let _ = self.subscription_handles.register(callback);
                    Run { method, listener: Some(listener), background: None }
                }
            },
            None => {
                if background {
                    let website = crawler::clone_crawler(&self.inner);
                    let _ = self.crawl_handles.follow(task);
                    Run { method, listener: None, background: Some(website) }
                } else {
                    Run { method, listener: None, background: None }
                }
            },
        }
    }

    /// Crawls the website: in the background on a copy of the crawler by the task `task`, or
    /// on the crawler itself. The task `on_page_event` listens to the pages, if any; without
    /// it the crawl does not run in the background.
    pub fn crawl(
        &mut self,
        on_page_event: Option<u64>,
        background: Option<bool>,
        headless: Option<bool>,
        task: u64,
        buffer: usize,
    ) -> (run: Run)
        requires
            old(self).wf(),
            on_page_event is Some ==> next_id(old(self)@.subscriptions) <= u32::MAX && 2 <= buffer
                && buffer / 2 <= MAX_CAPACITY,
            crawls_in_background(on_page_event, background) ==> following_id(old(self)@.crawls)
                <= u32::MAX,
        ensures
            final(self).wf(),
            on_page_event is Some ==> !has_id(
                old(self)@.subscriptions,
                next_id(old(self)@.subscriptions) as u32,
            ),
            is_crawl(
                old(self)@,
                final(self)@,
                run,
                on_page_event,
                background,
                headless,
                task,
                (buffer / 2) as usize,
            ),
    {
        let background = on_page_event.is_some() && background.unwrap_or(false);
        let headless = headless.unwrap_or(false);
        let method = if headless {
            Method::Crawl
        } else {
            Method::CrawlRaw
        };
        self.start(method, on_page_event, background, task, buffer)
    }

    /// Scrapes the website: in the background on a copy of the crawler by the task `task`, or
    /// on the crawler itself. The task `on_page_event` listens to the pages, if any.
    pub fn scrape(
        &mut self,
        on_page_event: Option<u64>,
        background: Option<bool>,
        headless: Option<bool>,
        task: u64,
        buffer: usize,
    ) -> (run: Run)
        requires
            old(self).wf(),
            on_page_event is Some ==> next_id(old(self)@.subscriptions) <= u32::MAX && 2 <= buffer
                && buffer / 2 <= MAX_CAPACITY,
            background == Some(true) ==> following_id(old(self)@.crawls) <= u32::MAX,
        ensures
            final(self).wf(),
            on_page_event is Some ==> !has_id(
                old(self)@.subscriptions,
                next_id(old(self)@.subscriptions) as u32,
            ),
            is_scrape(
                old(self)@,
                final(self)@,
                run,
                on_page_event,
                background,
                headless,
                task,
                (buffer / 2) as usize,
            ),
    {
        let headless = headless.unwrap_or(false);
        let background = background.unwrap_or(false);
        let method = if headless {
            Method::Scrape
        } else {
            Method::ScrapeRaw
        };
        self.start(method, on_page_event, background, task, buffer)
    }

    /// Starts a cron job, whose pages go to the task `on_page_event`, if any; says what that
    /// task needs. The job runs on a copy of the website's crawler, whose pages go to the same
    /// channel.
    pub fn run_cron(&mut self, on_page_event: Option<u64>, buffer: usize) -> (started: (
        Cron,
        Option<Listener>,
    ))
        requires
            on_page_event is Some ==> 2 <= buffer && buffer / 2 <= MAX_CAPACITY,
        ensures
            started.0@ == on_page_event,
            started.1 is Some <==> on_page_event is Some,
            started.1 matches Some(listener) ==> listener.listens_to(
                old(self)@,
                (buffer / 2) as usize,
            ),
            final(self)@ == old(self)@.with_crawler(
                match started.1 {
                    Some(listener) => with_channel(old(self)@.crawler, listener.channel()),
                    None => old(self)@.crawler,
                },
            ),
    {
        let listener = match on_page_event {
            Some(_) => Some(open_listener(&mut self.inner, buffer, self.raw_content)),
            None => None,
        };
        (Cron::new(on_page_event), listener)
    }

    /// Get all the links of the website, each once.
    pub fn get_links(&self) -> (links: Vec<String>)
        ensures
            links.deep_view().no_duplicates(),
            links.deep_view().to_set() == self@.crawler.links,
    {
        crawler::get_links(&self.inner)
    }

    /// Get the size of the website in amount of pages crawled, modulo two to the power of
    /// 32. A crawl in the background does not change it.
    pub fn size(&mut self) -> (size: u32)
        ensures
            size as nat == shown_size(old(self)@),
            *final(self) == *old(self),
    {
        let size: u64 = crawler::get_size(&self.inner) as u64;
        assert(size as u32 == size % 0x1_0000_0000) by (bit_vector);
        size as u32
    }

    /// Get the configured HTTP headers, name by name; a value that is no text is empty.
    pub fn get_configuration_headers(&self) -> (headers: Vec<(String, String)>)
        ensures
            pairs_view(headers@) == (match self@.crawler.headers {
                Some(groups) => shown_headers(groups),
                None => Seq::empty(),
            }),
    {
        match crawler::get_headers(&self.inner) {
            Some(map) => show_headers(map),
            None => {
                let headers: Vec<(String, String)> = Vec::new();
                assert(pairs_view(headers@) =~= Seq::empty());
                headers
            },
        }
    }

    /// Get all the pages of the website, which takes a scrape.
    pub fn get_pages(&self) -> (pages: Vec<NPage>)
        ensures
            match self@.crawler.pages {
                Some(collected) => pages@.len() == collected.len() && (forall|i: int|
                    0 <= i < pages@.len() ==> (#[trigger] pages@[i]).shows(
                        collected[i],
                        self@.raw_content,
                    )),
                None => pages@.len() == 0,
            },
    {
        match crawler::get_pages(&self.inner) {
            Some(pages) => show_pages(pages, self.raw_content),
            None => Vec::new(),
        }
    }

    /// Takes out all the links of the website, each once.
    pub fn drain_links(&mut self) -> (links: Vec<String>)
        ensures
            links.deep_view().no_duplicates(),
            links.deep_view().to_set() == old(self)@.crawler.links,
            final(self)@ == old(self)@.with_crawler(
                (CrawlerState { links: Set::empty(), ..old(self)@.crawler }),
            ),
    {
        crawler::drain_links(&mut self.inner)
    }

    /// Clears all links and page data.
    pub fn clear(&mut self)
        ensures
            final(self)@ == old(self)@.with_crawler(
                (CrawlerState { links: Set::empty(), pages: None, ..old(self)@.crawler }),
            ),
    {
        crawler::clear_crawler(&mut self.inner);
    }

    /// Set the HTTP headers of requests. An entry that makes no header is left out; what is
    /// no dictionary changes nothing, and neither do more headers than fit.
    pub fn with_headers(&mut self, headers: HeaderSource) -> (website: Result<
        &mut Website,
        TooManyHeaders,
    >)
        ensures
            website matches Ok(website) ==> website@ == old(self)@.with_crawler(
                (CrawlerState {
                    headers: match headers {
                        HeaderSource::Unset => None,
                        HeaderSource::Dict(pairs) => Some(collected(pairs_view(pairs@))),
                        HeaderSource::Other => old(self)@.crawler.headers,
                    },
                    ..old(self)@.crawler
                }),
            ) && *final(self) == *final(website),
            website is Err ==> final(self)@ == old(self)@,
            match headers {
                HeaderSource::Dict(pairs) => {
                    &&& collected(pairs_view(pairs@)).len() <= SAFE_HEADER_NAMES ==> website is Ok
                    &&& collected(pairs_view(pairs@)).len() > MAX_HEADER_NAMES ==> website is Err
                },
                _ => website is Ok,
            },
    {
        match headers {
            HeaderSource::Dict(pairs) => {
                match collect_headers(&pairs) {
                    Ok(map) => crawler::set_headers(&mut self.inner, Some(map)),
                    Err(error) => {
                        return Err(error);
                    },
                }
            },
            HeaderSource::Unset => crawler::set_headers(&mut self.inner, None),
            HeaderSource::Other => (),
        }
        Ok(self)
    }

    /// Add a user agent to requests, or leave it out.
    pub fn with_user_agent(&mut self, user_agent: Option<String>) -> (website: &mut Website)
        ensures
            website@ == old(self)@.with_crawler(
                (CrawlerState { user_agent: user_agent.deep_view(), ..old(self)@.crawler }),
            ),
            *final(self) == *final(website),
    {
        match &user_agent {
            Some(agent) => crawler::set_user_agent(&mut self.inner, Some(agent.as_str())),
            None => crawler::set_user_agent(&mut self.inner, None),
        }
        self
    }

    /// Respect the robots.txt file.
    pub fn with_respect_robots_txt(&mut self, respect_robots_txt: bool) -> (website: &mut Website)
        ensures
            website@ == old(self)@.with_crawler(
                (CrawlerState { respect_robots_txt, ..old(self)@.crawler }),
            ),
            *final(self) == *final(website),
    {
        crawler::set_respect_robots_txt(&mut self.inner, respect_robots_txt);
        self
    }

    /// Crawl subdomains too.
    pub fn with_subdomains(&mut self, subdomains: bool) -> (website: &mut Website)
        ensures
            website@ == old(self)@.with_crawler(
                (CrawlerState { subdomains, ..old(self)@.crawler }),
            ),
            *final(self) == *final(website),
    {
        crawler::set_subdomains(&mut self.inner, subdomains);
        self
    }

    /// Crawl other top-level domains too.
    pub fn with_tld(&mut self, tld: bool) -> (website: &mut Website)
        ensures
            website@ == old(self)@.with_crawler((CrawlerState { tld, ..old(self)@.crawler })),
            *final(self) == *final(website),
    {
        crawler::set_tld(&mut self.inner, tld);
        self
    }

    /// Only use HTTP/2.
    pub fn with_http2_prior_knowledge(&mut self, http2_prior_knowledge: bool) -> (website:
        &mut Website)
        ensures
            website@ == old(self)@.with_crawler(
                (CrawlerState { http2_prior_knowledge, ..old(self)@.crawler }),
            ),
            *final(self) == *final(website),
    {
        crawler::set_http2_prior_knowledge(&mut self.inner, http2_prior_knowledge);
        self
    }

    /// Max time to wait for a request as ms, or wait for as long as it takes.
    pub fn with_request_timeout(&mut self, request_timeout: Option<u32>) -> (website: &mut Website)
        ensures
            website@ == old(self)@.with_crawler(
                (CrawlerState {
                    request_timeout: match request_timeout {
                        Some(d) => Some(d as u64),
                        None => None,
                    },
                    ..old(self)@.crawler
                }),
            ),
            *final(self) == *final(website),
    {
        let timeout: Option<u64> = match request_timeout {
            Some(d) => Some(d as u64),
            None => None,
        };
        crawler::set_request_timeout(&mut self.inner, timeout);
        self
    }

    /// Crawl external domains too, or none.
    pub fn with_external_domains(&mut self, external_domains: Option<Vec<String>>) -> (website:
        &mut Website)
        ensures
            website@ == old(self)@.with_crawler(
                (CrawlerState {
                    external_domains: match external_domains {
                        Some(texts) => external_hosts(texts.deep_view()),
                        None => Set::empty(),
                    },
                    ..old(self)@.crawler
                }),
            ),
            *final(self) == *final(website),
    {
        crawler::set_external_domains(&mut self.inner, external_domains);
        self
    }

    /// Set the crawling budget, whose entries come in any order; without one nothing changes.
    pub fn with_budget(&mut self, budget: Option<Vec<(String, u32)>>) -> (website: &mut Website)
        ensures
            website@ == old(self)@.with_crawler(
                (CrawlerState { budget: website@.crawler.budget, ..old(self)@.crawler }),
            ),
            match budget {
                Some(entries) => website@.crawler.budget is Some && has_limits(
                    website@.crawler.budget->0,
                    limits(budget_view(entries@)),
                ),
                None => website@.crawler.budget == old(self)@.crawler.budget,
            },
            *final(self) == *final(website),
    {
        match budget {
            Some(entries) => {
                crawler::set_budget(&mut self.inner, &entries);
            },
            None => (),
        }
        self
    }

    /// Leave out the addresses that match a pattern, or none.
    pub fn with_blacklist_url(&mut self, blacklist_url: Option<Vec<String>>) -> (website:
        &mut Website)
        ensures
            website@ == old(self)@.with_crawler(
                (CrawlerState { blacklist_url: blacklist_url.deep_view(), ..old(self)@.crawler }),
            ),
            *final(self) == *final(website),
    {
        crawler::set_blacklist_url(&mut self.inner, blacklist_url);
        self
    }

    /// Setup a cron job, which scrapes where `cron_type` is `scrape`, and crawls otherwise.
    pub fn with_cron(&mut self, cron_str: String, cron_type: Option<String>) -> (website:
        &mut Website)
        ensures
            website@ == old(self)@.with_crawler(
                (CrawlerState {
                    cron_str: cron_str@,
                    cron_type: if cron_type.deep_view() == Some("scrape"@) {
                        CronType::Scrape
                    } else {
                        CronType::Crawl
                    },
                    ..old(self)@.crawler
                }),
            ),
            *final(self) == *final(website),
    {
        let kind = match cron_type {
            Some(name) => if name == "scrape".to_owned() {
                CronType::Scrape
            } else {
                CronType::Crawl
            },
            None => CronType::Crawl,
        };
        crawler::set_cron(&mut self.inner, cron_str.as_str(), kind);
        self
    }

    /// Delay between requests as ms.
    pub fn with_delay(&mut self, delay: u32) -> (website: &mut Website)
        ensures
            website@ == old(self)@.with_crawler(
                (CrawlerState { delay: delay as u64, ..old(self)@.crawler }),
            ),
            *final(self) == *final(website),
    {
        crawler::set_delay(&mut self.inner, delay as u64);
        self
    }

    /// Use proxies for requests, or none.
    pub fn with_proxies(&mut self, proxies: Option<Vec<String>>) -> (website: &mut Website)
        ensures
            website@ == old(self)@.with_crawler(
                (CrawlerState { proxies: proxies.deep_view(), ..old(self)@.crawler }),
            ),
            *final(self) == *final(website),
    {
        crawler::set_proxies(&mut self.inner, proxies);
        self
    }

    /// Build the crawler anew, which no setting requires. Where the address is no URL, the
    /// crawler stays as it is.
    pub fn build(&mut self) -> (website: &mut Website)
        ensures
            website@ == old(self)@,
            *final(self) == *final(website),
    {
        match crawler::build_crawler(&self.inner) {
            Ok(inner) => {
                self.inner = inner;
            },
            _ => (),
        }
        self
    }
}

} // verus!
