//! What holds of websites whatever is done with them.
pub mod runs;
pub mod settings;
pub mod tasks;

use crate::crawler::{
    crawler_state, external_host, external_hosts, has_limits, holds_ignoring_case, is_white_space,
    limits, same_ignoring_case, start_url, trimmed_end, trimmed_start, Channel, CrawlerState,
};
use crate::headers::{
    ascii_lower_text, collected, has_name, header_items, is_header_name, is_header_value,
    is_visible, names_at, shown_headers, shown_value,
};
use crate::registry::{
    followed_by, following_id, has_id, holds_at, lemma_ids_count_up, lemma_largest_id,
    lemma_next_id, next_id, position_of, registered, tasks_of, unique_ids, with_entry, without_id,
};
use crate::website::{
    is_crawl, is_removal_of, is_run_of, is_scrape, shown_size, stopped, subscribed, under_way,
    unsubscribed, Listener, Method, Removal, Run, Stop, WebsiteView,
};
use vstd::prelude::*;
use vstd::utf8::encode_utf8;

verus! {

/// The next id is 0 where there is no task; otherwise it is one more than an id in use, above
/// every id in use, and so it is not in use itself.
pub proof fn law_next_id_is_highest(entries: Seq<(u32, u64)>)
    ensures
        entries.len() == 0 ==> next_id(entries) == 0,
        entries.len() > 0 ==> has_id(entries, (next_id(entries) - 1) as u32),
        forall|i: int| 0 <= i < entries.len() ==> (#[trigger] entries[i]).0 < next_id(entries),
        next_id(entries) <= u32::MAX ==> !has_id(entries, next_id(entries) as u32),
{
    lemma_next_id(entries);
    if entries.len() > 0 {
        lemma_largest_id(entries);
    }
}

/// A task that is registered stands under the next id, and under every other id stands what
/// stood there: no task is displaced, so that giving up all gives up every one of them.
pub proof fn law_registering_keeps_the_others(entries: Seq<(u32, u64)>, task: u64, other: u32)
    requires
        unique_ids(entries),
        next_id(entries) <= u32::MAX,
        other != next_id(entries),
    ensures
        ({
            let id = next_id(entries) as u32;
            let after = registered(entries, task);
            &&& unique_ids(after)
            &&& has_id(after, id)
            &&& after[position_of(after, id)] == (id, task)
            &&& has_id(after, other) <==> has_id(entries, other)
            &&& has_id(entries, other) ==> after[position_of(after, other)]
                == entries[position_of(entries, other)]
            &&& tasks_of(after) == tasks_of(entries).push(task)
            &&& next_id(after) == id + 1
        }),
{
    lemma_next_id(entries);
    lemma_ids_count_up(entries, task);
    let id = next_id(entries) as u32;
    let after = registered(entries, task);
    assert(holds_at(after, entries.len() as int, id));
    assert(holds_at(after, position_of(after, id), id));
    if has_id(entries, other) {
        let from = position_of(entries, other);
        assert(holds_at(entries, from, other));
        assert(holds_at(after, from, other));
    }
    if has_id(after, other) {
        let to = position_of(after, other);
        assert(holds_at(after, to, other));
        assert(holds_at(entries, to, other));
        assert(holds_at(entries, position_of(entries, other), other));
    }
    assert(tasks_of(after) =~= tasks_of(entries).push(task));
}

/// Giving up the task under an id that was not in use undoes that it was put there.
proof fn lemma_push_undone(entries: Seq<(u32, u64)>, id: u32, task: u64)
    requires
        !has_id(entries, id),
    ensures
        has_id(entries.push((id, task)), id),
        entries.push((id, task))[position_of(entries.push((id, task)), id)] == (id, task),
        without_id(entries.push((id, task)), id) == entries,
{
    let after = entries.push((id, task));
    assert(holds_at(after, entries.len() as int, id));
    let at = position_of(after, id);
    assert(holds_at(after, at, id));
    if at < entries.len() {
        assert(holds_at(entries, at, id));
    }
    assert(without_id(after, id) =~= entries);
}

/// Removing a subscription under the id that it was given undoes the subscription and aborts
/// the task that was subscribed, and no other.
pub proof fn law_unsubscribe_undoes_subscribe(
    website: WebsiteView,
    listener: u64,
    channel: Channel,
    removal: Removal,
)
    requires
        next_id(website.subscriptions) <= u32::MAX,
        is_removal_of(
            removal,
            subscribed(website, listener, channel).subscriptions,
            Some(next_id(website.subscriptions) as u32),
        ),
    ensures
        removal.found,
        removal.aborted@ == seq![listener],
        unsubscribed(
            subscribed(website, listener, channel),
            Some(next_id(website.subscriptions) as u32),
        ).subscriptions == website.subscriptions,
{
    lemma_next_id(website.subscriptions);
    lemma_push_undone(website.subscriptions, next_id(website.subscriptions) as u32, listener);
}

/// Giving up the task under an id gives up that task alone: the id is free again, and under
/// every other id stands what stood there.
pub proof fn law_removal_keeps_the_others(entries: Seq<(u32, u64)>, id: u32, other: u32)
    requires
        unique_ids(entries),
        other != id,
    ensures
        !has_id(without_id(entries, id), id),
        has_id(without_id(entries, id), other) <==> has_id(entries, other),
        has_id(entries, other) ==> without_id(entries, id)[position_of(
            without_id(entries, id),
            other,
        )] == entries[position_of(entries, other)],
{
    let after = without_id(entries, id);
    if has_id(entries, id) {
        let at = position_of(entries, id);
        let end = entries.len() - 1;
        assert(holds_at(entries, at, id));
        assert forall|i: int| !holds_at(after, i, id) by {
            if holds_at(after, i, id) {
                if i == at {
                    assert(entries[end].0 == id);
                } else {
                    assert(entries[i].0 == id);
                }
            }
        }
        if has_id(entries, other) {
            let from = position_of(entries, other);
            assert(holds_at(entries, from, other));
            if from == end {
                assert(holds_at(after, at, other));
            } else {
                assert(holds_at(after, from, other));
            }
        }
        if has_id(after, other) {
            let to = position_of(after, other);
            assert(holds_at(after, to, other));
            if to == at {
                assert(holds_at(entries, end, other));
            } else {
                assert(holds_at(entries, to, other));
            }
            let from = position_of(entries, other);
            assert(holds_at(entries, from, other));
            assert(from == if to == at {
                end
            } else {
                to
            });
        }
    }
}

/// Giving up the task under an id other than the largest leaves the next id as it was, and
/// giving up that one takes the next id back.
pub proof fn law_next_id_after_removal(entries: Seq<(u32, u64)>, id: u32)
    requires
        unique_ids(entries),
    ensures
        id + 1 != next_id(entries) ==> next_id(without_id(entries, id)) == next_id(entries),
        has_id(entries, id) && id + 1 == next_id(entries) ==> next_id(without_id(entries, id))
            < next_id(entries),
{
    let after = without_id(entries, id);
    if has_id(entries, id) {
        assert(holds_at(entries, position_of(entries, id), id));
        lemma_largest_id(entries);
        let largest = (next_id(entries) - 1) as u32;
        let kept = if id == 0 {
            1u32
        } else {
            0u32
        };
        law_removal_keeps_the_others(entries, id, kept);
        if id != largest {
            law_removal_keeps_the_others(entries, id, largest);
            assert(holds_at(after, position_of(after, largest), largest));
        }
        if after.len() > 0 {
            lemma_largest_id(after);
            let found = (next_id(after) - 1) as u32;
            let at = position_of(after, found);
            assert(holds_at(after, at, found));
            if found != id {
                law_removal_keeps_the_others(entries, id, found);
                assert(holds_at(entries, position_of(entries, found), found));
            }
        }
    }
}

/// Whether the ids of entries go up from each to the next.
pub open spec fn ascending(entries: Seq<(u32, u64)>) -> bool {
    forall|i: int, j: int|
        0 <= i < j < entries.len() ==> (#[trigger] entries[i]).0 < (#[trigger] entries[j]).0
}

/// Where the last id is the largest, the id that follows it is the next one: it is not in use,
/// and a task that is put under it displaces none.
pub proof fn law_following_id_is_next_id(entries: Seq<(u32, u64)>, task: u64)
    requires
        forall|i: int| 0 <= i < entries.len() ==> (#[trigger] entries[i]).0 <= entries.last().0,
    ensures
        following_id(entries) == next_id(entries),
        following_id(entries) <= u32::MAX ==> !has_id(entries, following_id(entries) as u32)
            && followed_by(entries, task) == registered(entries, task),
{
    lemma_next_id(entries);
    if entries.len() > 0 {
        lemma_largest_id(entries);
        let largest = (next_id(entries) - 1) as u32;
        assert(holds_at(entries, position_of(entries, largest), largest));
    }
}

/// Ids that go up keep going up as tasks are put under the id that follows the last one, and
/// as tasks are given up from the end or all at once.
pub proof fn law_following_ids_stay_ascending(entries: Seq<(u32, u64)>, task: u64)
    requires
        ascending(entries),
    ensures
        following_id(entries) <= u32::MAX ==> followed_by(entries, task) == entries.push(
            (following_id(entries) as u32, task),
        ) && ascending(followed_by(entries, task)),
        entries.len() > 0 ==> without_id(entries, entries.last().0) == entries.drop_last()
            && ascending(without_id(entries, entries.last().0)),
{
    law_following_id_is_next_id(entries, task);
    if entries.len() > 0 {
        let id = entries.last().0;
        assert(holds_at(entries, entries.len() - 1, id));
        assert(holds_at(entries, position_of(entries, id), id));
        assert(position_of(entries, id) == entries.len() - 1);
        assert(without_id(entries, id) =~= entries.drop_last());
    }
}

/// A task that is put under an id stands there, in use or not, and under every other id stands
/// what stood there.
pub proof fn law_entry_keeps_the_others(entries: Seq<(u32, u64)>, id: u32, task: u64, other: u32)
    requires
        unique_ids(entries),
        other != id,
    ensures
        ({
            let after = with_entry(entries, id, task);
            &&& has_id(after, id)
            &&& after[position_of(after, id)] == (id, task)
            &&& has_id(after, other) <==> has_id(entries, other)
            &&& has_id(entries, other) ==> after[position_of(after, other)]
                == entries[position_of(entries, other)]
        }),
{
    let after = with_entry(entries, id, task);
    let at = if has_id(entries, id) {
        position_of(entries, id)
    } else {
        entries.len() as int
    };
    if has_id(entries, id) {
        assert(holds_at(entries, at, id));
    }
    assert(holds_at(after, at, id));
    let found = position_of(after, id);
    assert(holds_at(after, found, id));
    if found != at {
        assert(holds_at(entries, found, id));
        assert(entries[found].0 == entries[at].0);
    }
    if has_id(entries, other) {
        let from = position_of(entries, other);
        assert(holds_at(entries, from, other));
        assert(holds_at(after, from, other));
    }
    if has_id(after, other) {
        let to = position_of(after, other);
        assert(holds_at(after, to, other));
        assert(holds_at(entries, to, other));
        assert(holds_at(entries, position_of(entries, other), other));
    }
}

/// A website whose crawls were all stopped has none in the background left to abort or to
/// shut down; its subscriptions, its settings and what it has collected are untouched.
pub proof fn law_stop_is_final(website: WebsiteView)
    ensures
        stopped(website, None).crawls.len() == 0,
        stopped(stopped(website, None), None) == stopped(website, None),
        !stopped(website, None).running_in_background,
        stopped(website, None).subscriptions == website.subscriptions,
        stopped(website, None).crawler == (CrawlerState { stopped: true, ..website.crawler }),
{
    assert(stopped(stopped(website, None), None) =~= stopped(website, None));
}

/// A run in the background leaves the website's own crawler alone, and with it the links and
/// the pages that the website shows; a run in the foreground adds a channel at most.
pub proof fn law_background_leaves_the_crawler(
    website: WebsiteView,
    listener: Option<u64>,
    channel: Option<Channel>,
    background: bool,
    task: u64,
)
    ensures
        background ==> under_way(website, listener, channel, background, task).crawler
            == website.crawler,
        under_way(website, listener, channel, background, task).crawler.links
            == website.crawler.links,
        under_way(website, listener, channel, background, task).crawler.pages
            == website.crawler.pages,
{
}

/// A crawl or a scrape in the background does not update the size that the website shows: it
/// runs on a crawler of its own.
pub proof fn law_background_keeps_the_size(
    before: WebsiteView,
    after: WebsiteView,
    run: Run,
    on_page_event: Option<u64>,
    headless: Option<bool>,
    task: u64,
    capacity: usize,
)
    requires
        is_scrape(before, after, run, on_page_event, Some(true), headless, task, capacity) || (
        on_page_event is Some && is_crawl(
            before,
            after,
            run,
            on_page_event,
            Some(true),
            headless,
            task,
            capacity,
        )),
    ensures
        run.background is Some,
        after.crawler == before.crawler,
        shown_size(after) == shown_size(before),
{
}

/// A crawl whose pages no task listens to does not run in the background, whatever is asked
/// for: it is a plain crawl, which registers nothing.
pub proof fn law_no_background_crawl_without_listener(
    before: WebsiteView,
    after: WebsiteView,
    run: Run,
    background: Option<bool>,
    headless: Option<bool>,
    task: u64,
    capacity: usize,
)
    requires
        is_crawl(before, after, run, None, background, headless, task, capacity),
    ensures
        run.background is None,
        run.listener is None,
        after == before,
{
    assert(after =~= before);
}

/// A flag that is left out means no: a crawl and a scrape without it are those with it unset.
pub proof fn law_omitted_flag_means_no(
    before: WebsiteView,
    after: WebsiteView,
    run: Run,
    on_page_event: Option<u64>,
    background: Option<bool>,
    headless: Option<bool>,
    task: u64,
    capacity: usize,
)
    ensures
        is_crawl(before, after, run, on_page_event, None, headless, task, capacity) <==> is_crawl(
            before,
            after,
            run,
            on_page_event,
            Some(false),
            headless,
            task,
            capacity,
        ),
        is_crawl(before, after, run, on_page_event, background, None, task, capacity) <==> is_crawl(
            before,
            after,
            run,
            on_page_event,
            background,
            Some(false),
            task,
            capacity,
        ),
        is_scrape(before, after, run, on_page_event, None, headless, task, capacity) <==> is_scrape(
            before,
            after,
            run,
            on_page_event,
            Some(false),
            headless,
            task,
            capacity,
        ),
        is_scrape(before, after, run, on_page_event, background, None, task, capacity)
            <==> is_scrape(
            before,
            after,
            run,
            on_page_event,
            background,
            Some(false),
            task,
            capacity,
        ),
{
}

/// Two crawls of websites in equal states have the same effect where one leaves a flag out and
/// the other unsets it: they register the same tasks under the same ids and leave the same to
/// do, and the websites differ in the new channel at most, where there was none before.
pub proof fn law_omitted_crawl_flag_has_no_effect(
    before: WebsiteView,
    omitted: WebsiteView,
    run: Run,
    unset: WebsiteView,
    other: Run,
    on_page_event: Option<u64>,
    background: Option<bool>,
    headless: Option<bool>,
    task: u64,
    capacity: usize,
)
    requires
        (is_crawl(before, omitted, run, on_page_event, None, headless, task, capacity) && is_crawl(
            before,
            unset,
            other,
            on_page_event,
            Some(false),
            headless,
            task,
            capacity,
        )) || (is_crawl(before, omitted, run, on_page_event, background, None, task, capacity)
            && is_crawl(
            before,
            unset,
            other,
            on_page_event,
            background,
            Some(false),
            task,
            capacity,
        )),
    ensures
        omitted.subscriptions == unset.subscriptions,
        omitted.crawls == unset.crawls,
        omitted.running_in_background == unset.running_in_background,
        omitted.raw_content == unset.raw_content,
        omitted.crawler == (CrawlerState { channel: omitted.crawler.channel, ..unset.crawler }),
        before.crawler.channel is Some ==> omitted == unset,
        run.method == other.method,
        run.listener is Some <==> other.listener is Some,
        run.background is Some <==> other.background is Some,
        run.channel() is Some && before.crawler.channel is Some ==> run.channel()
            == other.channel(),
{
}

/// A scrape keeps the same books as a crawl: both register the same tasks under the same ids.
/// A run in the background that no task listens to is left out, as a crawl is none.
pub proof fn law_scrape_keeps_the_books_of_crawl(
    before: WebsiteView,
    crawled: WebsiteView,
    crawl: Run,
    scraped: WebsiteView,
    scrape: Run,
    on_page_event: Option<u64>,
    background: Option<bool>,
    headless: Option<bool>,
    task: u64,
    capacity: usize,
)
    requires
        on_page_event is Some || background != Some(true),
        is_crawl(before, crawled, crawl, on_page_event, background, headless, task, capacity),
        is_scrape(before, scraped, scrape, on_page_event, background, headless, task, capacity),
    ensures
        crawled.subscriptions == scraped.subscriptions,
        crawled.crawls == scraped.crawls,
        crawled.running_in_background == scraped.running_in_background,
        crawled.raw_content == scraped.raw_content,
{
}

/// A background run is stopped by the id that it was given: its task alone is aborted. Where
/// that id was not in use, the crawls are then what they were before the run.
pub proof fn law_stop_undoes_a_background_run(
    website: WebsiteView,
    listener: Option<u64>,
    channel: Option<Channel>,
    task: u64,
    stop: Stop,
)
    requires
        unique_ids(website.crawls),
        following_id(website.crawls) <= u32::MAX,
        is_removal_of(
            stop.removal,
            under_way(website, listener, channel, true, task).crawls,
            Some(following_id(website.crawls) as u32),
        ),
    ensures
        stop.removal.found,
        stop.removal.aborted@ == seq![task],
        under_way(website, listener, channel, true, task).running_in_background,
        !has_id(website.crawls, following_id(website.crawls) as u32) ==> stopped(
            under_way(website, listener, channel, true, task),
            Some(following_id(website.crawls) as u32),
        ).crawls == website.crawls,
{
    let before = website.crawls;
    let id = following_id(before) as u32;
    let other = if id == 0 {
        1u32
    } else {
        0u32
    };
    law_entry_keeps_the_others(before, id, task, other);
    if !has_id(before, id) {
        lemma_push_undone(before, id, task);
    }
}

/// The task that listens to a crawl or a scrape hears the crawler that is run: the copy that
/// is run in the background, or the website's own.
pub proof fn law_listener_hears_the_run(
    run: Run,
    website: WebsiteView,
    method: Method,
    listener: Option<u64>,
    background: bool,
    task: u64,
    capacity: usize,
)
    requires
        is_run_of(run, website, method, listener, background, capacity),
        listener is Some,
    ensures
        run.channel() is Some,
        background ==> crawler_state(run.background->0).channel == run.channel(),
        !background ==> under_way(
            website,
            listener,
            run.channel(),
            background,
            task,
        ).crawler.channel == run.channel(),
{
}

/// All who subscribe to a website hear the same channel, for as many pages as it was made
/// for at first.
pub proof fn law_subscribers_share_a_channel(
    website: WebsiteView,
    listener: u64,
    first: Listener,
    capacity: usize,
    second: Listener,
    other_capacity: usize,
)
    requires
        first.listens_to(website, capacity),
        second.listens_to(subscribed(website, listener, first.channel()), other_capacity),
    ensures
        second.channel() == first.channel(),
        website.crawler.channel is None ==> second.channel().capacity == capacity,
{
}

/// The links that a website lists, each once, are as many as its size says.
pub proof fn law_links_are_counted(website: WebsiteView, links: Seq<Seq<char>>)
    requires
        links.no_duplicates(),
        links.to_set() == website.crawler.links,
    ensures
        website.crawler.links.len() == links.len(),
{
    links.unique_seq_to_set();
}

/// A path has the last limit that it is given, and no other path has one.
proof fn lemma_limits(entries: Seq<(Seq<char>, u32)>)
    ensures
        forall|i: int|
            0 <= i < entries.len() ==> limits(entries).dom().contains((#[trigger] entries[i]).0),
        forall|path: Seq<char>| #[trigger]
            limits(entries).dom().contains(path) ==> exists|i: int|
                0 <= i < entries.len() && (#[trigger] entries[i]) == (path, limits(entries)[path]),
    decreases entries.len(),
{
    if entries.len() > 0 {
        let rest = entries.drop_last();
        lemma_limits(rest);
        assert forall|i: int| 0 <= i < entries.len() implies limits(entries).dom().contains(
            (#[trigger] entries[i]).0,
        ) by {
            if i < rest.len() {
                assert(rest[i] == entries[i]);
            }
        }
        assert forall|path: Seq<char>| #[trigger] limits(entries).dom().contains(path) implies exists|
            i: int,
        |
            0 <= i < entries.len() && (#[trigger] entries[i]) == (path, limits(entries)[path]) by {
            if path == entries.last().0 {
                assert(entries[entries.len() - 1] == (path, limits(entries)[path]));
            } else {
                assert(limits(rest).dom().contains(path));
                let i = choose|i: int|
                    0 <= i < rest.len() && (#[trigger] rest[i]) == (path, limits(rest)[path]);
                assert(entries[i] == (path, limits(entries)[path]));
            }
        }
    }
}

/// A budget whose paths differ in more than case is set as it is given: every path has its own
/// limit, and no other path has one.
pub proof fn law_budget_is_kept(entries: Seq<(Seq<char>, u32)>, budget: Map<Seq<char>, u32>)
    requires
        has_limits(budget, limits(entries)),
        forall|i: int, j: int|
            0 <= i < j < entries.len() ==> !same_ignoring_case(
                (#[trigger] entries[i]).0,
                (#[trigger] entries[j]).0,
            ),
    ensures
        budget == limits(entries),
        forall|i: int|
            0 <= i < entries.len() ==> budget.dom().contains((#[trigger] entries[i]).0)
                && budget[entries[i].0] == entries[i].1,
        forall|path: Seq<char>| #[trigger]
            budget.dom().contains(path) ==> exists|i: int|
                0 <= i < entries.len() && (#[trigger] entries[i]).0 == path,
{
    lemma_limits(entries);
    let given = limits(entries);
    assert forall|a: Seq<char>, b: Seq<char>| #[trigger]
        given.dom().contains(a) && #[trigger] given.dom().contains(b) && same_ignoring_case(
            a,
            b,
        ) implies a == b by {
        let i = choose|i: int| 0 <= i < entries.len() && (#[trigger] entries[i]) == (a, given[a]);
        let j = choose|j: int| 0 <= j < entries.len() && (#[trigger] entries[j]) == (b, given[b]);
        assert(i == j);
    }
    lemma_limits_are_had(budget, given);
    assert forall|i: int| 0 <= i < entries.len() implies budget.dom().contains(
        (#[trigger] entries[i]).0,
    ) && budget[entries[i].0] == entries[i].1 by {
        let path = entries[i].0;
        let j = choose|j: int|
            0 <= j < entries.len() && (#[trigger] entries[j]) == (path, given[path]);
        assert(i == j);
    }
}

/// Where no two paths differ in case alone, a budget has the limits that it is given and no
/// others.
proof fn lemma_limits_are_had(
    budget: Map<Seq<char>, u32>,
    limits: Map<Seq<char>, u32>,
)
    requires
        has_limits(budget, limits),
        forall|a: Seq<char>, b: Seq<char>| #[trigger]
            limits.dom().contains(a) && #[trigger] limits.dom().contains(b) && same_ignoring_case(
                a,
                b,
            ) ==> a == b,
    ensures
        budget == limits,
{
    assert forall|path: Seq<char>| limits.dom().contains(path) implies budget.dom().contains(
        path,
    ) by {
        assert(holds_ignoring_case(budget.dom(), path));
        let held = choose|t: Seq<char>| #[trigger]
            budget.dom().contains(t) && same_ignoring_case(t, path);
        assert(limits.dom().contains(held));
    }
    assert forall|path: Seq<char>| budget.dom().contains(path) implies #[trigger] budget[path]
        == limits[path] by {
        let other = choose|other: Seq<char>| #[trigger]
            limits.dom().contains(other) && same_ignoring_case(other, path) && limits[other]
                == budget[path];
        assert(limits.dom().contains(path));
    }
    assert(budget =~= limits);
}

/// The headers among pairs of a name and a value, in their order.
pub open spec fn accepted_items(pairs: Seq<(Seq<char>, Seq<char>)>) -> Seq<(Seq<char>, Seq<u8>)>
    decreases pairs.len(),
{
    if pairs.len() == 0 {
        Seq::empty()
    } else {
        let before = accepted_items(pairs.drop_last());
        let (name, value) = pairs.last();
        if is_header_name(name) && is_header_value(value) {
            before.push((ascii_lower_text(name), encode_utf8(value)))
        } else {
            before
        }
    }
}

/// Whether a text can be shown as the value of a header: visible ASCII characters, spaces
/// and tabs.
pub open spec fn is_visible_text(text: Seq<char>) -> bool {
    forall|i: int|
        0 <= i < text.len() ==> ' ' <= #[trigger] text[i] && text[i] <= '~' || text[i] == '\t'
}

/// One more value adds one item.
proof fn lemma_items_update(
    groups: Seq<(Seq<char>, Seq<Seq<u8>>)>,
    i: int,
    value: Seq<u8>,
)
    requires
        0 <= i < groups.len(),
    ensures
        header_items(
            groups.update(i, (groups[i].0, groups[i].1.push(value))),
        ).to_multiset() == header_items(groups).to_multiset().insert((groups[i].0, value)),
    decreases groups.len(),
{
    broadcast use vstd::seq_lib::group_to_multiset_ensures;

    let name = groups[i].0;
    let after = groups.update(i, (name, groups[i].1.push(value)));
    let last = groups.last().1.map_values(|v: Seq<u8>| (groups.last().0, v));
    let rest = header_items(groups.drop_last());
    if i == groups.len() - 1 {
        let more = groups[i].1.push(value).map_values(|v: Seq<u8>| (name, v));
        assert(after.drop_last() =~= groups.drop_last());
        assert(more =~= last.push((name, value)));
        assert(rest + more =~= (rest + last).push((name, value)));
        assert(header_items(after) =~= header_items(groups).push((name, value)));
    } else {
        lemma_items_update(groups.drop_last(), i, value);
        let changed = header_items(after.drop_last());
        assert(after.drop_last() =~= groups.drop_last().update(
            i,
            (name, groups.drop_last()[i].1.push(value)),
        ));
        assert(header_items(after) =~= changed + last);
        vstd::seq_lib::lemma_multiset_commutative(changed, last);
        vstd::seq_lib::lemma_multiset_commutative(rest, last);
        assert(changed.to_multiset().add(last.to_multiset()) =~= rest.to_multiset().add(
            last.to_multiset(),
        ).insert((name, value)));
    }
}

/// A first value under a name adds one item, behind all others.
proof fn lemma_items_push(
    groups: Seq<(Seq<char>, Seq<Seq<u8>>)>,
    name: Seq<char>,
    value: Seq<u8>,
)
    ensures
        header_items(groups.push((name, seq![value]))) == header_items(groups).push((name, value)),
{
    let after = groups.push((name, seq![value]));
    assert(after.drop_last() =~= groups);
    assert(after.last().1.map_values(|v: Seq<u8>| (after.last().0, v)) =~= seq![(name, value)]);
    assert(header_items(after) =~= header_items(groups).push((name, value)));
}

/// A name in the headers that pairs give is the name of one of the pairs.
proof fn lemma_collected_names(pairs: Seq<(Seq<char>, Seq<char>)>, name: Seq<char>)
    requires
        has_name(collected(pairs), name),
    ensures
        exists|i: int| 0 <= i < accepted_items(pairs).len() && accepted_items(pairs)[i].0 == name,
    decreases pairs.len(),
{
    let at = choose|i: int| names_at(collected(pairs), i, name);
    assert(names_at(collected(pairs), at, name));
    let before = collected(pairs.drop_last());
    let (last, value) = pairs.last();
    let items = accepted_items(pairs.drop_last());
    if is_header_name(last) && is_header_value(value) {
        if ascii_lower_text(last) == name {
            assert(accepted_items(pairs)[items.len() as int].0 == name);
        } else {
            if has_name(before, ascii_lower_text(last)) {
                let i = choose|i: int| names_at(before, i, ascii_lower_text(last));
                assert(names_at(before, i, ascii_lower_text(last)));
            }
            assert(names_at(before, at, name));
            lemma_collected_names(pairs.drop_last(), name);
            let j = choose|j: int| 0 <= j < items.len() && items[j].0 == name;
            assert(accepted_items(pairs)[j].0 == name);
        }
    } else {
        lemma_collected_names(pairs.drop_last(), name);
        let j = choose|j: int| 0 <= j < items.len() && items[j].0 == name;
        assert(accepted_items(pairs)[j].0 == name);
    }
}

/// Pairs of a name and a value give at most as many header names as there are pairs.
pub proof fn law_pairs_bound_header_names(pairs: Seq<(Seq<char>, Seq<char>)>)
    ensures
        collected(pairs).len() <= pairs.len(),
    decreases pairs.len(),
{
    if pairs.len() > 0 {
        law_pairs_bound_header_names(pairs.drop_last());
    }
}

/// The headers of requests are the pairs that make a header, each as often as it was given,
/// and no others.
pub proof fn law_headers_are_kept(pairs: Seq<(Seq<char>, Seq<char>)>)
    ensures
        header_items(collected(pairs)).to_multiset() == accepted_items(pairs).to_multiset(),
    decreases pairs.len(),
{
    broadcast use vstd::seq_lib::group_to_multiset_ensures;

    if pairs.len() > 0 {
        law_headers_are_kept(pairs.drop_last());
        let before = collected(pairs.drop_last());
        let (last, value) = pairs.last();
        if is_header_name(last) && is_header_value(value) {
            let name = ascii_lower_text(last);
            if has_name(before, name) {
                let i = choose|i: int| names_at(before, i, name);
                assert(names_at(before, i, name));
                lemma_items_update(before, i, encode_utf8(value));
            } else {
                lemma_items_push(before, name, encode_utf8(value));
            }
        }
    } else {
        assert(header_items(collected(pairs)) =~= accepted_items(pairs));
    }
}

/// Headers of which no name comes twice keep their order.
pub proof fn law_headers_keep_their_order(pairs: Seq<(Seq<char>, Seq<char>)>)
    requires
        forall|i: int, j: int|
            0 <= i < j < accepted_items(pairs).len() ==> (#[trigger] accepted_items(pairs)[i]).0
                != (#[trigger] accepted_items(pairs)[j]).0,
    ensures
        header_items(collected(pairs)) == accepted_items(pairs),
    decreases pairs.len(),
{
    if pairs.len() > 0 {
        let rest = pairs.drop_last();
        let items = accepted_items(rest);
        let all = accepted_items(pairs);
        let (last, value) = pairs.last();
        assert forall|i: int, j: int| 0 <= i < j < items.len() implies (#[trigger] items[i]).0
            != (#[trigger] items[j]).0 by {
            assert(all[i] == items[i]);
            assert(all[j] == items[j]);
        }
        law_headers_keep_their_order(rest);
        if is_header_name(last) && is_header_value(value) {
            let name = ascii_lower_text(last);
            if has_name(collected(rest), name) {
                lemma_collected_names(rest, name);
                let i = choose|i: int| 0 <= i < items.len() && items[i].0 == name;
                assert(all[i].0 == name);
                assert(all[items.len() as int].0 == name);
            }
            lemma_items_push(collected(rest), name, encode_utf8(value));
        }
    }
}

/// A visible text is a header value and is shown as it is.
pub proof fn law_visible_value_is_shown(text: Seq<char>)
    requires
        is_visible_text(text),
    ensures
        is_header_value(text),
        shown_value(encode_utf8(text)) == text,
{
    assert(vstd::utf8::is_ascii_chars(text));
    vstd::utf8::is_ascii_chars_encode_utf8(text);
    let bytes = encode_utf8(text);
    assert forall|i: int| 0 <= i < bytes.len() implies bytes[i] == text[i] as u8 && text[i] as nat
        == bytes[i] && #[trigger] bytes[i] <= 126 && (bytes[i] >= 32 || bytes[i] == 9) by {
        assert(text[i] as u8 == bytes[i]);
    }
    assert(is_visible(bytes));
    assert(shown_value(bytes) =~= text);
}

/// Headers that are set are shown: where every name is a header name, none comes twice
/// whatever its case, and every value is visible, each name is shown in lower case with its
/// value, in the order in which they were given.
pub proof fn law_headers_are_shown(pairs: Seq<(Seq<char>, Seq<char>)>)
    requires
        forall|i: int|
            0 <= i < pairs.len() ==> is_header_name((#[trigger] pairs[i]).0) && is_visible_text(
                pairs[i].1,
            ),
        forall|i: int, j: int|
            0 <= i < j < pairs.len() ==> !same_ignoring_case(
                (#[trigger] pairs[i]).0,
                (#[trigger] pairs[j]).0,
            ),
    ensures
        shown_headers(collected(pairs)) == pairs.map_values(
            |pair: (Seq<char>, Seq<char>)| (ascii_lower_text(pair.0), pair.1),
        ),
{
    lemma_all_accepted(pairs);
    law_headers_keep_their_order(pairs);
    let items = accepted_items(pairs);
    assert forall|i: int| 0 <= i < pairs.len() implies shown_value(#[trigger] items[i].1)
        == pairs[i].1 by {
        law_visible_value_is_shown(pairs[i].1);
    }
    assert(shown_headers(collected(pairs)) =~= pairs.map_values(
        |pair: (Seq<char>, Seq<char>)| (ascii_lower_text(pair.0), pair.1),
    ));
}

proof fn lemma_all_accepted(pairs: Seq<(Seq<char>, Seq<char>)>)
    requires
        forall|i: int|
            0 <= i < pairs.len() ==> is_header_name((#[trigger] pairs[i]).0) && is_visible_text(
                pairs[i].1,
            ),
    ensures
        accepted_items(pairs).len() == pairs.len(),
        forall|i: int|
            0 <= i < pairs.len() ==> #[trigger] accepted_items(pairs)[i] == (
                ascii_lower_text(pairs[i].0),
                encode_utf8(pairs[i].1),
            ),
    decreases pairs.len(),
{
    if pairs.len() > 0 {
        let rest = pairs.drop_last();
        assert forall|i: int| 0 <= i < rest.len() implies is_header_name((#[trigger] rest[i]).0)
            && is_visible_text(rest[i].1) by {
            assert(rest[i] == pairs[i]);
        }
        lemma_all_accepted(rest);
        law_visible_value_is_shown(pairs.last().1);
    }
}

/// A crawl starts at an address that begins with `http`, and that address is taken as it is.
pub proof fn law_start_url_is_kept(url: Seq<char>)
    ensures
        seq!['h', 't', 't', 'p'].is_prefix_of(start_url(url)),
        start_url(start_url(url)) == start_url(url),
{
    let start = start_url(url);
    let http = seq!['h', 't', 't', 'p'];
    let trimmed = trimmed_end(trimmed_start(url));
    lemma_trimmed_end(trimmed_start(url));
    if !http.is_prefix_of(start) {
        let rest = if url.len() > 0 && (url[0] == ' ' || url.last() == ' ') {
            trimmed
        } else {
            url
        };
        assert(start == seq!['h', 't', 't', 'p', 's', ':', '/', '/'] + rest);
        assert(http =~= start.subrange(0, 4));
    }
    assert(http.is_prefix_of(start));
    assert(start[0] == http[0]);
    if start.last() == ' ' {
        assert(start.len() > 0);
    }
}

proof fn lemma_trimmed_end(text: Seq<char>)
    ensures
        trimmed_end(text).len() > 0 ==> !is_white_space(trimmed_end(text).last()),
    decreases text.len(),
{
    if text.len() > 0 && is_white_space(text.last()) {
        lemma_trimmed_end(text.drop_last());
    }
}

/// Every host that is named is crawled, the case of ASCII letters aside, and no two hosts
/// that are crawled differ in case alone.
pub proof fn law_external_hosts(texts: Seq<Seq<char>>)
    ensures
        forall|i: int| 0 <= i < texts.len() ==> (external_host(#[trigger] texts[i]) matches Some(
            host,
        ) ==> holds_ignoring_case(external_hosts(texts), host)),
        forall|a: Seq<char>, b: Seq<char>| #[trigger]
            external_hosts(texts).contains(a) && #[trigger] external_hosts(texts).contains(b)
                && same_ignoring_case(a, b) ==> a == b,
    decreases texts.len(),
{
    if texts.len() > 0 {
        let rest = texts.drop_last();
        let before = external_hosts(rest);
        let after = external_hosts(texts);
        law_external_hosts(rest);
        assert forall|host: Seq<char>| holds_ignoring_case(
            before,
            host,
        ) implies #[trigger] holds_ignoring_case(after, host) by {
            let t = choose|t: Seq<char>| #[trigger]
                before.contains(t) && same_ignoring_case(t, host);
            assert(after.contains(t));
        }
        assert forall|i: int| 0 <= i < texts.len() implies (external_host(
            #[trigger] texts[i],
        ) matches Some(host) ==> holds_ignoring_case(after, host)) by {
            if i < rest.len() {
                assert(rest[i] == texts[i]);
            } else if let Some(host) = external_host(texts[i]) {
                if !holds_ignoring_case(before, host) {
                    assert(after.contains(host));
                }
            }
        }
        assert forall|a: Seq<char>, b: Seq<char>| #[trigger]
            after.contains(a) && #[trigger] after.contains(b) && same_ignoring_case(
                a,
                b,
            ) implies a == b by {
            if before.contains(a) && before.contains(b) {
            } else if let Some(host) = external_host(texts.last()) {
                if a != b && !holds_ignoring_case(before, host) {
                    if a == host {
                        assert(before.contains(b) && same_ignoring_case(b, host));
                    } else {
                        assert(before.contains(a) && same_ignoring_case(a, host));
                    }
                }
            }
        }
    }
}

} // verus!
