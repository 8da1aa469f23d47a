//! The tasks that a website has spawned, each under the id that its owner was given.
use indexmap::IndexMap;
use vstd::prelude::*;

verus! {

/// `indexmap::IndexMap`: a hash map that keeps its entries in a sequence.
#[verifier::external_type_specification]
#[verifier::external_body]
#[verifier::reject_recursive_types(K)]
#[verifier::reject_recursive_types(V)]
#[verifier::reject_recursive_types(S)]
pub struct ExIndexMap<K, V, S>(indexmap::IndexMap<K, V, S>);

/// The entries of an index map, in the order in which it keeps them.
pub uninterp spec fn map_entries(map: indexmap::IndexMap<u32, u64>) -> Seq<(u32, u64)>;

/// Whether no id occurs twice.
pub open spec fn unique_ids(entries: Seq<(u32, u64)>) -> bool {
    forall|i: int, j: int|
        0 <= i < j < entries.len() ==> (#[trigger] entries[i]).0 != (#[trigger] entries[j]).0
}

/// Whether some entry stands at position `i` under the id `id`.
pub open spec fn holds_at(entries: Seq<(u32, u64)>, i: int, id: u32) -> bool {
    0 <= i < entries.len() && entries[i].0 == id
}

/// Whether some entry stands under the id `id`.
pub open spec fn has_id(entries: Seq<(u32, u64)>, id: u32) -> bool {
    exists|i: int| holds_at(entries, i, id)
}

/// The position of the entry under the id `id`.
pub open spec fn position_of(entries: Seq<(u32, u64)>, id: u32) -> int
    recommends
        has_id(entries, id),
{
    choose|i: int| holds_at(entries, i, id)
}

/// The entries once `task` stands under `id`: in the place of the task that stood under
/// that id, or as the last entry.
pub open spec fn with_entry(entries: Seq<(u32, u64)>, id: u32, task: u64) -> Seq<(u32, u64)> {
    if has_id(entries, id) {
        entries.update(position_of(entries, id), (id, task))
    } else {
        entries.push((id, task))
    }
}

/// The entries without the one under `id`: the last entry takes its place.
pub open spec fn without_id(entries: Seq<(u32, u64)>, id: u32) -> Seq<(u32, u64)> {
    if has_id(entries, id) {
        entries.update(position_of(entries, id), entries.last()).drop_last()
    } else {
        entries
    }
}

/// The tasks of the entries, in their order.
pub open spec fn tasks_of(entries: Seq<(u32, u64)>) -> Seq<u64> {
    entries.map_values(|entry: (u32, u64)| entry.1)
}

/// The largest id of the entries.
pub open spec fn largest_id(entries: Seq<(u32, u64)>) -> u32
    recommends
        entries.len() > 0,
    decreases entries.len(),
{
    if entries.len() <= 1 || largest_id(entries.drop_last()) < entries.last().0 {
        entries.last().0
    } else {
        largest_id(entries.drop_last())
    }
}

/// The id that comes next: one more than the largest one, and 0 where there is none.
pub open spec fn next_id(entries: Seq<(u32, u64)>) -> int {
    if entries.len() == 0 {
        0
    } else {
        largest_id(entries) + 1
    }
}

/// The entries once `task` stands under the next id, as the last entry.
pub open spec fn registered(entries: Seq<(u32, u64)>, task: u64) -> Seq<(u32, u64)> {
    entries.push((next_id(entries) as u32, task))
}

/// The id that follows that of the last entry: one more, and 0 where there is none. Once an
/// entry was taken out, it can be in use.
pub open spec fn following_id(entries: Seq<(u32, u64)>) -> int {
    if entries.len() == 0 {
        0
    } else {
        entries.last().0 + 1
    }
}

/// The entries once `task` stands under the id that follows the last one: as the last entry,
/// or in the place of the task that stood under that id.
pub open spec fn followed_by(entries: Seq<(u32, u64)>, task: u64) -> Seq<(u32, u64)> {
    with_entry(entries, following_id(entries) as u32, task)
}

/// `IndexMap::new`: a map without entries.
#[verifier::external_body]
fn map_new() -> (map: IndexMap<u32, u64>)
    ensures
        map_entries(map) == Seq::<(u32, u64)>::empty(),
{
    IndexMap::new()
}

/// `IndexMap::len`: the number of entries.
#[verifier::external_body]
fn map_len(map: &IndexMap<u32, u64>) -> (len: usize)
    ensures
        len == map_entries(*map).len(),
{
    map.len()
}

/// `IndexMap::last`: the last entry, if there is one.
#[verifier::external_body]
fn map_last(map: &IndexMap<u32, u64>) -> (entry: Option<(u32, u64)>)
    ensures
        entry == (if map_entries(*map).len() > 0 {
            Some(map_entries(*map).last())
        } else {
            None
        }),
{
    map.last().map(|entry| (*entry.0, *entry.1))
}

/// `IndexMap::get_index`: the entry at a position, if there is one.
#[verifier::external_body]
fn map_get_index(map: &IndexMap<u32, u64>, index: usize) -> (entry: Option<(u32, u64)>)
    ensures
        entry == (if index < map_entries(*map).len() {
            Some(map_entries(*map)[index as int])
        } else {
            None
        }),
{
    map.get_index(index).map(|entry| (*entry.0, *entry.1))
}

/// `IndexMap::get`: the value under a key, if there is one.
#[verifier::external_body]
fn map_get(map: &IndexMap<u32, u64>, id: u32) -> (task: Option<u64>)
    ensures
        task == (if has_id(map_entries(*map), id) {
            Some(map_entries(*map)[position_of(map_entries(*map), id)].1)
        } else {
            None
        }),
{
    map.get(&id).copied()
}

/// `IndexMap::insert`: a value under a key that the map has replaces the value there, the
/// entry keeps its position; under another key it becomes the last entry.
#[verifier::external_body]
fn map_insert(map: &mut IndexMap<u32, u64>, id: u32, task: u64)
    ensures
        map_entries(*final(map)) == with_entry(map_entries(*old(map)), id, task),
{
    map.insert(id, task);
}

/// `IndexMap::swap_remove_entry`: takes out the entry under a key, if there is one; the
/// last entry moves to its position.
#[verifier::external_body]
fn map_swap_remove_entry(map: &mut IndexMap<u32, u64>, id: u32) -> (entry: Option<(u32, u64)>)
    ensures
        entry == (if has_id(map_entries(*old(map)), id) {
            Some(map_entries(*old(map))[position_of(map_entries(*old(map)), id)])
        } else {
            None
        }),
        map_entries(*final(map)) == without_id(map_entries(*old(map)), id),
{
    map.swap_remove_entry(&id)
}

/// `IndexMap::drain` over the whole map: hands out every entry in order and leaves the map
/// empty.
#[verifier::external_body]
fn map_drain(map: &mut IndexMap<u32, u64>) -> (entries: Vec<(u32, u64)>)
    ensures
        entries@ == map_entries(*old(map)),
        map_entries(*final(map)) == Seq::<(u32, u64)>::empty(),
{
    map.drain(..).collect()
}

/// The largest id is an id, and none is larger.
pub proof fn lemma_largest_id(entries: Seq<(u32, u64)>)
    requires
        entries.len() > 0,
    ensures
        has_id(entries, largest_id(entries)),
        forall|i: int| 0 <= i < entries.len() ==> (#[trigger] entries[i]).0 <= largest_id(entries),
    decreases entries.len(),
{
    if entries.len() > 1 {
        let rest = entries.drop_last();
        lemma_largest_id(rest);
        assert forall|i: int| 0 <= i < entries.len() implies (#[trigger] entries[i]).0
            <= largest_id(entries) by {
            if i < rest.len() {
                assert(rest[i] == entries[i]);
            }
        }
        if largest_id(entries) != entries.last().0 {
            let at = position_of(rest, largest_id(rest));
            assert(holds_at(rest, at, largest_id(rest)));
            assert(holds_at(entries, at, largest_id(entries)));
        }
    }
    if largest_id(entries) == entries.last().0 {
        assert(holds_at(entries, entries.len() - 1, largest_id(entries)));
    }
}

/// The next id is above every id, and so not in use.
pub proof fn lemma_next_id(entries: Seq<(u32, u64)>)
    ensures
        forall|i: int| 0 <= i < entries.len() ==> (#[trigger] entries[i]).0 < next_id(entries),
        next_id(entries) <= u32::MAX ==> !has_id(entries, next_id(entries) as u32),
{
    if entries.len() > 0 {
        lemma_largest_id(entries);
    }
    if next_id(entries) <= u32::MAX {
        assert(forall|i: int| !#[trigger] holds_at(entries, i, next_id(entries) as u32));
    }
}

/// Ids count up from task to task.
pub proof fn lemma_ids_count_up(entries: Seq<(u32, u64)>, task: u64)
    requires
        next_id(entries) <= u32::MAX,
    ensures
        next_id(registered(entries, task)) == next_id(entries) + 1,
{
    assert(registered(entries, task).drop_last() =~= entries);
}

/// Putting a task under an id keeps the ids unique.
proof fn lemma_insert_unique(entries: Seq<(u32, u64)>, id: u32, task: u64)
    requires
        unique_ids(entries),
    ensures
        unique_ids(with_entry(entries, id, task)),
{
    let after = with_entry(entries, id, task);
    if has_id(entries, id) {
        assert(holds_at(entries, position_of(entries, id), id));
        assert forall|i: int, j: int| 0 <= i < j < after.len() implies (#[trigger] after[i]).0
            != (#[trigger] after[j]).0 by {
            assert(after[i].0 == entries[i].0);
            assert(after[j].0 == entries[j].0);
        }
    } else {
        assert forall|i: int, j: int| 0 <= i < j < after.len() implies (#[trigger] after[i]).0
            != (#[trigger] after[j]).0 by {
            if j == entries.len() {
                assert(!holds_at(entries, i, id));
            }
        }
    }
}

/// Taking an entry out keeps the ids unique.
proof fn lemma_remove_unique(entries: Seq<(u32, u64)>, id: u32)
    requires
        unique_ids(entries),
    ensures
        unique_ids(without_id(entries, id)),
{
    if has_id(entries, id) {
        assert(holds_at(entries, position_of(entries, id), id));
    }
}

/// The tasks of one kind that a website has spawned and not yet given up.
pub struct Registry {
    handles: IndexMap<u32, u64>,
}

impl View for Registry {
    type V = Seq<(u32, u64)>;

    closed spec fn view(&self) -> Seq<(u32, u64)> {
        map_entries(self.handles)
    }
}

impl Registry {
    /// No id stands for two tasks.
    pub open spec fn wf(&self) -> bool {
        unique_ids(self@)
    }

    /// A registry without tasks.
    pub fn new() -> (registry: Registry)
        ensures
            registry.wf(),
            registry@ == Seq::<(u32, u64)>::empty(),
    {
        Registry { handles: map_new() }
    }

    /// The number of tasks.
    pub fn len(&self) -> (len: usize)
        ensures
            len == self@.len(),
    {
        map_len(&self.handles)
    }

    /// The largest id, if there is one.
    fn largest(&self) -> (largest: Option<u32>)
        ensures
            largest == (if self@.len() > 0 {
                Some(largest_id(self@))
            } else {
                None
            }),
    {
        let mut largest: Option<u32> = None;
        let mut i: usize = 0;
        let len = map_len(&self.handles);
        while i < len
            invariant
                i <= len,
                len == self@.len(),
                largest == (if i > 0 {
                    Some(largest_id(self@.take(i as int)))
                } else {
                    None
                }),
            decreases len - i,
        {
            assert(self@.take(i + 1).drop_last() =~= self@.take(i as int));
            match (map_get_index(&self.handles, i), largest) {
                (Some(entry), Some(before)) => {
                    if before < entry.0 {
                        largest = Some(entry.0);
                    }
                },
                (Some(entry), None) => {
                    largest = Some(entry.0);
                },
                _ => (),
            }
            i = i + 1;
        }
        assert(self@.take(i as int) =~= self@);
        largest
    }

    /// Whether there is a next id.
    pub fn has_next_id(&self) -> (has: bool)
        ensures
            has == (next_id(self@) <= u32::MAX),
    {
        match self.largest() {
            Some(id) => id < u32::MAX,
            None => true,
        }
    }

    /// Puts a task under the next id, which no task has, and returns that id.
    pub fn register(&mut self, task: u64) -> (id: u32)
        requires
            old(self).wf(),
            next_id(old(self)@) <= u32::MAX,
        ensures
            final(self).wf(),
            id == next_id(old(self)@),
            !has_id(old(self)@, id),
            final(self)@ == registered(old(self)@, task),
            next_id(final(self)@) == id + 1,
    {
        let id: u32 = match self.largest() {
            Some(largest) => largest + 1,
            None => 0,
        };
        proof {
            lemma_next_id(self@);
            lemma_ids_count_up(self@, task);
        }
        map_insert(&mut self.handles, id, task);
        id
    }

    /// Whether there is an id that follows the last one.
    pub fn has_following_id(&self) -> (has: bool)
        ensures
            has == (following_id(self@) <= u32::MAX),
    {
        match map_last(&self.handles) {
            Some(entry) => entry.0 < u32::MAX,
            None => true,
        }
    }

    /// Puts a task under the id that follows the last one and returns that id. A task that
    /// stood under it is no longer known.
    pub fn follow(&mut self, task: u64) -> (id: u32)
        requires
            old(self).wf(),
            following_id(old(self)@) <= u32::MAX,
        ensures
            final(self).wf(),
            id == following_id(old(self)@),
            final(self)@ == followed_by(old(self)@, task),
    {
        let id: u32 = match map_last(&self.handles) {
            Some(entry) => entry.0 + 1,
            None => 0,
        };
        proof {
            lemma_insert_unique(self@, id, task);
        }
        map_insert(&mut self.handles, id, task);
        id
    }

    /// Gives up the task under `id` and returns it.
    pub fn remove(&mut self, id: u32) -> (task: Option<u64>)
        requires
            old(self).wf(),
        ensures
            final(self).wf(),
            final(self)@ == without_id(old(self)@, id),
            task == (if has_id(old(self)@, id) {
                Some(old(self)@[position_of(old(self)@, id)].1)
            } else {
                None
            }),
    {
        proof {
            lemma_remove_unique(self@, id);
        }
        match map_get(&self.handles, id) {
            Some(task) => {
                let _ = map_swap_remove_entry(&mut self.handles, id);
                Some(task)
            },
            None => None,
        }
    }

    /// Gives up every task and returns them in their order.
    pub fn drain(&mut self) -> (tasks: Vec<u64>)
        ensures
            final(self).wf(),
            final(self)@ == Seq::<(u32, u64)>::empty(),
            tasks@ == tasks_of(old(self)@),
    {
        let entries = map_drain(&mut self.handles);
        let mut tasks: Vec<u64> = Vec::new();
        let mut i: usize = 0;
        while i < entries.len()
            invariant
                i <= entries@.len(),
                tasks@ == tasks_of(entries@.take(i as int)),
            decreases entries@.len() - i,
        {
            tasks.push(entries[i].1);
            i = i + 1;
            assert(tasks@ =~= tasks_of(entries@.take(i as int)));
        }
        assert(entries@.take(i as int) =~= entries@);
        tasks
    }
}

} // verus!
