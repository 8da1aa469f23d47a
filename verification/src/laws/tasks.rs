//! What becomes of the tasks that are registered and given up.
use crate::registry::{
    followed_by, following_id, has_id, holds_at, lemma_largest_id, lemma_next_id, next_id,
    position_of, registered, unique_ids, with_entry,
};
use crate::website::{
    given_up, is_removal_of, stopped, subscribed, unsubscribed, Removal, WebsiteView,
};
use crate::crawler::{Channel, CrawlerState};
use vstd::prelude::*;

verus! {

/// An id is in use exactly where an entry stands under it, and where no two entries stand under
/// one id it leads to that entry.
pub proof fn law_id_leads_to_its_entry(entries: Seq<(u32, u64)>, id: u32)
    ensures
        has_id(entries, id) <==> exists|i: int|
            0 <= i < entries.len() && (#[trigger] entries[i]).0 == id,
        unique_ids(entries) <==> forall|i: int, j: int|
            0 <= i < entries.len() && 0 <= j < entries.len() && i != j ==> (
            #[trigger] entries[i]).0 != (#[trigger] entries[j]).0,
        unique_ids(entries) ==> forall|i: int|
            0 <= i < entries.len() ==> position_of(entries, (#[trigger] entries[i]).0) == i,
{
    if exists|i: int| 0 <= i < entries.len() && (#[trigger] entries[i]).0 == id {
        let i = choose|i: int| 0 <= i < entries.len() && (#[trigger] entries[i]).0 == id;
        assert(holds_at(entries, i, id));
    }
    if has_id(entries, id) {
        assert(holds_at(entries, position_of(entries, id), id));
    }
    if unique_ids(entries) {
        assert forall|i: int, j: int|
            0 <= i < entries.len() && 0 <= j < entries.len() && i != j implies (
        #[trigger] entries[i]).0 != (#[trigger] entries[j]).0 by {
            if j < i {
                assert(entries[j].0 != entries[i].0);
            }
        }
        assert forall|i: int| 0 <= i < entries.len() implies position_of(
            entries,
            (#[trigger] entries[i]).0,
        ) == i by {
            assert(holds_at(entries, i, entries[i].0));
            let at = position_of(entries, entries[i].0);
            assert(holds_at(entries, at, entries[i].0));
            assert(entries[at].0 == entries[i].0);
        }
    }
}

/// A task that is registered comes behind all others, which stay as they were, under an id that
/// is one more than the largest one, and 0 where there is none.
pub proof fn law_registered_task_comes_last(entries: Seq<(u32, u64)>, task: u64)
    requires
        forall|i: int| 0 <= i < entries.len() ==> (#[trigger] entries[i]).0 < u32::MAX,
    ensures
        next_id(entries) <= u32::MAX,
        registered(entries, task).len() == entries.len() + 1,
        forall|i: int|
            0 <= i < entries.len() ==> #[trigger] registered(entries, task)[i] == entries[i],
        registered(entries, task).last().1 == task,
        registered(entries, task).last().0 == next_id(entries),
        entries.len() == 0 ==> registered(entries, task).last().0 == 0,
        forall|i: int|
            0 <= i < entries.len() ==> (#[trigger] entries[i]).0 < registered(
                entries,
                task,
            ).last().0,
        entries.len() > 0 ==> exists|i: int|
            0 <= i < entries.len() && (#[trigger] entries[i]).0 + 1 == registered(
                entries,
                task,
            ).last().0,
{
    lemma_next_id(entries);
    if entries.len() > 0 {
        lemma_largest_id(entries);
        let largest = (next_id(entries) - 1) as u32;
        let at = position_of(entries, largest);
        assert(holds_at(entries, at, largest));
        assert(entries[at].0 < u32::MAX);
        assert(entries[at].0 + 1 == registered(entries, task).last().0);
    }
}

/// A task that follows the others stands under one more than the id of the last entry, and under
/// 0 where there is none: behind all others, or in the place of the one that has that id.
pub proof fn law_following_task_is_placed(entries: Seq<(u32, u64)>, task: u64, id: u32)
    requires
        forall|i: int, j: int|
            0 <= i < j < entries.len() ==> (#[trigger] entries[i]).0 != (#[trigger] entries[j]).0,
        entries.len() == 0 ==> id == 0,
        entries.len() > 0 ==> id == entries.last().0 + 1,
    ensures
        following_id(entries) == id,
        (forall|i: int| 0 <= i < entries.len() ==> (#[trigger] entries[i]).0 != id) ==> followed_by(
            entries,
            task,
        ) == entries.push((id, task)),
        forall|i: int|
            0 <= i < entries.len() && (#[trigger] entries[i]).0 == id ==> followed_by(entries, task)
                == entries.update(i, (id, task)),
{
    law_id_leads_to_its_entry(entries, id);
    assert forall|i: int| 0 <= i < entries.len() && (#[trigger] entries[i]).0 == id implies followed_by(
        entries,
        task,
    ) == entries.update(i, (id, task)) by {
        assert(holds_at(entries, i, id));
        assert(position_of(entries, entries[i].0) == i);
        assert(with_entry(entries, id, task) == entries.update(i, (id, task)));
    }
}

/// Giving up without an id aborts every task that is registered, each once and in its order, and
/// no other; none is left.
pub proof fn law_giving_up_all_aborts_every_task(entries: Seq<(u32, u64)>, removal: Removal)
    requires
        is_removal_of(removal, entries, None),
    ensures
        removal.found <==> entries.len() > 0,
        removal.aborted@.len() == entries.len(),
        forall|i: int| 0 <= i < entries.len() ==> removal.aborted@[i] == (#[trigger] entries[i]).1,
        given_up(entries, None).len() == 0,
{
}

/// Giving up under an id aborts the one task that stands there, and the last entry takes its
/// place; the others stay. Where none stands there, nothing is aborted and all stay.
pub proof fn law_giving_up_one_aborts_its_task(
    entries: Seq<(u32, u64)>,
    id: u32,
    removal: Removal,
)
    requires
        forall|i: int, j: int|
            0 <= i < j < entries.len() ==> (#[trigger] entries[i]).0 != (#[trigger] entries[j]).0,
        is_removal_of(removal, entries, Some(id)),
    ensures
        removal.found <==> exists|i: int|
            0 <= i < entries.len() && (#[trigger] entries[i]).0 == id,
        forall|i: int|
            0 <= i < entries.len() && (#[trigger] entries[i]).0 == id ==> removal.aborted@ == seq![
                entries[i].1,
            ] && given_up(entries, Some(id)) == entries.update(
                i,
                entries[entries.len() - 1],
            ).drop_last(),
        !removal.found ==> removal.aborted@.len() == 0 && given_up(entries, Some(id)) == entries,
{
    law_id_leads_to_its_entry(entries, id);
    assert forall|i: int| 0 <= i < entries.len() && (#[trigger] entries[i]).0 == id implies removal.aborted@
        == seq![entries[i].1] && given_up(entries, Some(id)) == entries.update(
        i,
        entries[entries.len() - 1],
    ).drop_last() by {
        assert(position_of(entries, entries[i].0) == i);
    }
}

/// No task is forgotten: one that is registered and then is not is among those to abort, and
/// those to abort are registered ones that then are not. Together they are as many as before.
pub proof fn law_no_task_is_forgotten(
    entries: Seq<(u32, u64)>,
    id: Option<u32>,
    removal: Removal,
)
    requires
        forall|i: int, j: int|
            0 <= i < j < entries.len() ==> (#[trigger] entries[i]).0 != (#[trigger] entries[j]).0,
        is_removal_of(removal, entries, id),
    ensures
        forall|i: int|
            0 <= i < entries.len() ==> given_up(entries, id).contains(#[trigger] entries[i])
                || removal.aborted@.contains(entries[i].1),
        forall|k: int|
            0 <= k < removal.aborted@.len() ==> exists|i: int|
                0 <= i < entries.len() && (#[trigger] entries[i]).1 == #[trigger] removal.aborted@[k]
                    && !given_up(entries, id).contains(entries[i]),
        given_up(entries, id).len() + removal.aborted@.len() == entries.len(),
{
    let rest = given_up(entries, id);
    match id {
        None => {
            law_giving_up_all_aborts_every_task(entries, removal);
            assert forall|i: int| 0 <= i < entries.len() implies rest.contains(
                #[trigger] entries[i],
            ) || removal.aborted@.contains(entries[i].1) by {
                assert(removal.aborted@[i] == entries[i].1);
            }
            assert forall|k: int| 0 <= k < removal.aborted@.len() implies exists|i: int|
                0 <= i < entries.len() && (#[trigger] entries[i]).1 == #[trigger] removal.aborted@[k]
                    && !rest.contains(entries[i]) by {
                assert(entries[k].1 == removal.aborted@[k]);
            }
        },
        Some(id) => {
            law_giving_up_one_aborts_its_task(entries, id, removal);
            if removal.found {
                let at = choose|i: int| 0 <= i < entries.len() && (#[trigger] entries[i]).0 == id;
                let end = entries.len() - 1;
                assert(rest == entries.update(at, entries[end]).drop_last());
                assert(removal.aborted@[0] == entries[at].1);
                assert forall|i: int| 0 <= i < entries.len() implies rest.contains(
                    #[trigger] entries[i],
                ) || removal.aborted@.contains(entries[i].1) by {
                    if i == end && at != end {
                        assert(rest[at] == entries[i]);
                    } else if i != at {
                        assert(rest[i] == entries[i]);
                    }
                }
                assert(!rest.contains(entries[at])) by {
                    if rest.contains(entries[at]) {
                        let k = choose|k: int| 0 <= k < rest.len() && rest[k] == entries[at];
                        if k == at {
                            assert(entries[end].0 == entries[at].0);
                        } else {
                            assert(entries[k].0 == entries[at].0);
                        }
                    }
                }
            } else {
                assert forall|i: int| 0 <= i < entries.len() implies rest.contains(
                    #[trigger] entries[i],
                ) by {
                    assert(rest[i] == entries[i]);
                }
            }
        },
    }
}

/// A subscription adds one listener, gives the crawler the channel and changes nothing else.
pub proof fn law_subscription_adds_a_listener(
    website: WebsiteView,
    listener: u64,
    channel: Channel,
)
    requires
        forall|i: int|
            0 <= i < website.subscriptions.len() ==> (#[trigger] website.subscriptions[i]).0
                < u32::MAX,
    ensures
        ({
            let before = website.subscriptions;
            let after = subscribed(website, listener, channel).subscriptions;
            &&& after.len() == before.len() + 1
            &&& after.drop_last() == before
            &&& after.last().1 == listener
            &&& before.len() == 0 ==> after.last().0 == 0
            &&& forall|i: int| 0 <= i < before.len() ==> (#[trigger] before[i]).0 < after.last().0
            &&& before.len() > 0 ==> exists|i: int|
                0 <= i < before.len() && (#[trigger] before[i]).0 + 1 == after.last().0
        }),
        subscribed(website, listener, channel).crawler == (CrawlerState {
            channel: Some(channel),
            ..website.crawler
        }),
        subscribed(website, listener, channel).crawls == website.crawls,
        subscribed(website, listener, channel).raw_content == website.raw_content,
        subscribed(website, listener, channel).running_in_background
            == website.running_in_background,
{
    law_registered_task_comes_last(website.subscriptions, listener);
    let after = subscribed(website, listener, channel).subscriptions;
    assert(after == registered(website.subscriptions, listener));
    assert(after.drop_last() =~= website.subscriptions);
}

/// Removing subscriptions concerns the subscriptions alone: all of them without an id, and those
/// under the id otherwise.
pub proof fn law_unsubscribe_leaves_the_rest(website: WebsiteView, id: Option<u32>, i: int)
    requires
        unique_ids(website.subscriptions),
        0 <= i < website.subscriptions.len(),
    ensures
        unsubscribed(website, id).subscriptions.contains(website.subscriptions[i]) <==> id is Some
            && id != Some(website.subscriptions[i].0),
        unsubscribed(website, id).crawls == website.crawls,
        unsubscribed(website, id).crawler == website.crawler,
        unsubscribed(website, id).raw_content == website.raw_content,
        unsubscribed(website, id).running_in_background == website.running_in_background,
{
    lemma_given_up_contains(website.subscriptions, id, i);
}

/// Stopping crawls has the crawler end, takes back that a crawl runs in the background, and gives
/// up crawls: all of them without an id, and those under the id otherwise. Nothing else changes.
pub proof fn law_stop_leaves_the_rest(website: WebsiteView, id: Option<u32>)
    requires
        unique_ids(website.crawls),
    ensures
        forall|i: int|
            0 <= i < website.crawls.len() ==> (stopped(website, id).crawls.contains(
                #[trigger] website.crawls[i],
            ) <==> id is Some && id != Some(website.crawls[i].0)),
        stopped(website, id).crawls.len() <= website.crawls.len(),
        stopped(website, id).crawler == (CrawlerState { stopped: true, ..website.crawler }),
        !stopped(website, id).running_in_background,
        stopped(website, id).subscriptions == website.subscriptions,
        stopped(website, id).raw_content == website.raw_content,
{
    assert forall|i: int| 0 <= i < website.crawls.len() implies (stopped(
        website,
        id,
    ).crawls.contains(#[trigger] website.crawls[i]) <==> id is Some && id != Some(
        website.crawls[i].0,
    )) by {
        lemma_given_up_contains(website.crawls, id, i);
    }
}

/// An entry stays exactly where another id is given up.
proof fn lemma_given_up_contains(entries: Seq<(u32, u64)>, id: Option<u32>, i: int)
    requires
        unique_ids(entries),
        0 <= i < entries.len(),
    ensures
        given_up(entries, id).contains(entries[i]) <==> id is Some && id != Some(entries[i].0),
        given_up(entries, id).len() <= entries.len(),
{
    if let Some(id) = id {
        law_id_leads_to_its_entry(entries, id);
        let rest = given_up(entries, Some(id));
        if has_id(entries, id) {
            let at = position_of(entries, id);
            let end = entries.len() - 1;
            assert(holds_at(entries, at, id));
            if entries[i].0 != id {
                if i == end {
                    assert(rest[at] == entries[i]);
                } else {
                    assert(rest[i] == entries[i]);
                }
            } else if rest.contains(entries[i]) {
                let k = choose|k: int| 0 <= k < rest.len() && rest[k] == entries[i];
                if k == at {
                    assert(entries[end].0 == entries[at].0);
                } else {
                    assert(entries[k].0 == entries[at].0);
                }
            }
        } else {
            assert(rest[i] == entries[i]);
            assert(entries[i].0 != id);
        }
    }
}

} // verus!
