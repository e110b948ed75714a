//! The per-task record store: edge items, collectible counters, aggregation
//! metadata and the dirty flag of each task.
use vstd::prelude::*;
use crate::counts::{bump, count_of, sat_add, CountMap};
use crate::ids::{CachedDataItemKey, CollectibleRef, CounterKey, TaskId};

verus! {

/// Aggregation number of `t`: the last value recorded for it, zero when none.
pub open spec fn aggregation_number_of(s: Seq<(TaskId, u32)>, t: TaskId) -> u32
    decreases s.len(),
{
    if s.len() == 0 {
        0
    } else if s.last().0 == t {
        s.last().1
    } else {
        aggregation_number_of(s.drop_last(), t)
    }
}

/// The uppers recorded for `t`, in the order they were added.
pub open spec fn uppers_of(s: Seq<(TaskId, TaskId)>, t: TaskId) -> Seq<TaskId>
    decreases s.len(),
{
    if s.len() == 0 {
        Seq::empty()
    } else if s.last().0 == t {
        uppers_of(s.drop_last(), t).push(s.last().1)
    } else {
        uppers_of(s.drop_last(), t)
    }
}

proof fn lemma_push_contains<T>(s: Seq<T>, x: T)
    ensures
        forall|e: T| #[trigger] s.push(x).contains(e) <==> (s.contains(e) || e == x),
{
    assert forall|e: T| #[trigger] s.push(x).contains(e) <==> (s.contains(e) || e == x) by {
        if s.contains(e) {
            let j = choose|j: int| 0 <= j < s.len() && s[j] == e;
            assert(s.push(x)[j] == e);
        }
        if e == x {
            assert(s.push(x)[s.len() as int] == e);
        }
        if s.push(x).contains(e) {
            let j = choose|j: int| 0 <= j < s.len() + 1 && s.push(x)[j] == e;
            if j < s.len() {
                assert(s[j] == e);
            }
        }
    }
}

/// What the store holds, as mathematical values.
pub ghost struct StorageView {
    /// Edge items: the task that holds the item, and its key.
    pub items: Set<(TaskId, CachedDataItemKey)>,
    /// Collectible counters, keyed by task and collectible.
    pub counters: Map<CounterKey, int>,
    /// Aggregation numbers, in the order they were set.
    pub aggregation_numbers: Seq<(TaskId, u32)>,
    /// Pairs (follower, upper) of the aggregation tree, in insertion order.
    pub uppers: Seq<(TaskId, TaskId)>,
    /// Tasks whose cached output is stale.
    pub dirty: Set<TaskId>,
}

/// In-memory store of all task records.
pub struct TaskStorage {
    items: Vec<(TaskId, CachedDataItemKey)>,
    counters: CountMap<CounterKey>,
    aggregation_numbers: Vec<(TaskId, u32)>,
    uppers: Vec<(TaskId, TaskId)>,
    dirty: Vec<TaskId>,
}

impl TaskStorage {
    pub closed spec fn view(&self) -> StorageView {
        StorageView {
            items: Set::new(|e: (TaskId, CachedDataItemKey)| self.items@.contains(e)),
            counters: self.counters@,
            aggregation_numbers: self.aggregation_numbers@,
            uppers: self.uppers@,
            dirty: Set::new(|t: TaskId| self.dirty@.contains(t)),
        }
    }

    pub closed spec fn wf(&self) -> bool {
        self.counters.wf()
    }

    pub fn new() -> (r: Self)
        ensures
            r.wf(),
            r@.items == Set::<(TaskId, CachedDataItemKey)>::empty(),
            r@.counters == Map::<CounterKey, int>::empty(),
            r@.aggregation_numbers == Seq::<(TaskId, u32)>::empty(),
            r@.uppers == Seq::<(TaskId, TaskId)>::empty(),
            r@.dirty == Set::<TaskId>::empty(),
    {
        let r = TaskStorage {
            items: Vec::new(),
            counters: CountMap::new(),
            aggregation_numbers: Vec::new(),
            uppers: Vec::new(),
            dirty: Vec::new(),
        };
        assert(r@.items =~= Set::<(TaskId, CachedDataItemKey)>::empty());
        assert(r@.dirty =~= Set::<TaskId>::empty());
        r
    }

    /// Whether task `t` holds the item `key`.
    pub fn has_item(&self, t: TaskId, key: CachedDataItemKey) -> (r: bool)
        ensures
            r == self@.items.contains((t, key)),
    {
        let mut i: usize = 0;
        while i < self.items.len()
            invariant
                i <= self.items@.len(),
                forall|j: int| 0 <= j < i ==> self.items@[j] != (t, key),
            decreases self.items@.len() - i,
        {
            let e = self.items[i];
            if e.0 == t && e.1 == key {
                assert(self.items@[i as int] == (t, key));
                return true;
            }
            i += 1;
        }
        false
    }

    /// Adds the item `key` to task `t`.
    pub fn insert_item(&mut self, t: TaskId, key: CachedDataItemKey)
        requires
            old(self).wf(),
        ensures
            final(self).wf(),
            final(self)@ == (StorageView { items: old(self)@.items.insert((t, key)), ..old(self)@ }),
    {
        if !self.has_item(t, key) {
            proof { lemma_push_contains(self.items@, (t, key)); }
            self.items.push((t, key));
        }
        assert(self@.items =~= old(self)@.items.insert((t, key)));
        assert(self@.dirty =~= old(self)@.dirty);
    }

    /// Removes the item `key` from task `t`; a no-op when it is absent.
    pub fn remove(&mut self, t: TaskId, key: CachedDataItemKey)
        requires
            old(self).wf(),
        ensures
            final(self).wf(),
            final(self)@ == (StorageView { items: old(self)@.items.remove((t, key)), ..old(self)@ }),
    {
        let mut kept: Vec<(TaskId, CachedDataItemKey)> = Vec::new();
        let mut i: usize = 0;
        while i < self.items.len()
            invariant
                i <= self.items@.len(),
                forall|e: (TaskId, CachedDataItemKey)| #[trigger] kept@.contains(e) <==>
                    (self.items@.subrange(0, i as int).contains(e) && e != (t, key)),
            decreases self.items@.len() - i,
        {
            let e = self.items[i];
            proof {
                assert(self.items@.subrange(0, i + 1) == self.items@.subrange(0, i as int).push(e));
            }
            proof {
                lemma_push_contains(self.items@.subrange(0, i as int), e);
                lemma_push_contains(kept@, e);
            }
            if !(e.0 == t && e.1 == key) {
                kept.push(e);
            }
            i += 1;
        }
        assert(self.items@.subrange(0, i as int) == self.items@);
        self.items = kept;
        assert(self@.items =~= old(self)@.items.remove((t, key)));
        assert(self@.dirty =~= old(self)@.dirty);
    }

    /// The counter of `collectible` on task `t`, zero when absent.
    pub fn get_count(&self, t: TaskId, collectible: CollectibleRef) -> (r: i64)
        requires
            self.wf(),
        ensures
            r as int == count_of(self@.counters, CounterKey { task: t, collectible }),
    {
        self.counters.get(&CounterKey { task: t, collectible })
    }

    /// Adds `delta` to the counter of `collectible` on task `t`, removing the
    /// counter at zero. Returns whether the stored value changed.
    pub fn update_count(&mut self, t: TaskId, collectible: CollectibleRef, delta: i64) -> (changed: bool)
        requires
            old(self).wf(),
        ensures
            final(self).wf(),
            final(self)@ == (StorageView {
                counters: bump(old(self)@.counters, CounterKey { task: t, collectible }, delta as int),
                ..old(self)@
            }),
            changed == (sat_add(count_of(old(self)@.counters, CounterKey { task: t, collectible }), delta as int)
                != count_of(old(self)@.counters, CounterKey { task: t, collectible })),
    {
        let r = self.counters.update(CounterKey { task: t, collectible }, delta);
        assert(self@.items =~= old(self)@.items);
        assert(self@.dirty =~= old(self)@.dirty);
        r
    }

    /// Sets the aggregation number of task `t`.
    pub fn set_aggregation_number(&mut self, t: TaskId, n: u32)
        requires
            old(self).wf(),
        ensures
            final(self).wf(),
            final(self)@ == (StorageView {
                aggregation_numbers: old(self)@.aggregation_numbers.push((t, n)),
                ..old(self)@
            }),
    {
        self.aggregation_numbers.push((t, n));
        assert(self@.items =~= old(self)@.items);
        assert(self@.dirty =~= old(self)@.dirty);
    }

    /// The aggregation number of task `t`, zero when none was set.
    pub fn get_aggregation_number(&self, t: TaskId) -> (r: u32)
        ensures
            r == aggregation_number_of(self@.aggregation_numbers, t),
    {
        let mut r: u32 = 0;
        let mut i: usize = 0;
        while i < self.aggregation_numbers.len()
            invariant
                i <= self.aggregation_numbers@.len(),
                r == aggregation_number_of(self.aggregation_numbers@.subrange(0, i as int), t),
            decreases self.aggregation_numbers@.len() - i,
        {
            let e = self.aggregation_numbers[i];
            proof {
                let p = self.aggregation_numbers@.subrange(0, i + 1);
                assert(p.drop_last() == self.aggregation_numbers@.subrange(0, i as int));
            }
            if e.0 == t {
                r = e.1;
            }
            i += 1;
        }
        assert(self.aggregation_numbers@.subrange(0, i as int) == self.aggregation_numbers@);
        r
    }

    /// Records `upper` as an upper of task `t` in the aggregation tree.
    pub fn add_upper(&mut self, t: TaskId, upper: TaskId)
        requires
            old(self).wf(),
        ensures
            final(self).wf(),
            final(self)@ == (StorageView { uppers: old(self)@.uppers.push((t, upper)), ..old(self)@ }),
    {
        self.uppers.push((t, upper));
        assert(self@.items =~= old(self)@.items);
        assert(self@.dirty =~= old(self)@.dirty);
    }

    /// The uppers of task `t`, in the order they were added.
    pub fn get_uppers(&self, t: TaskId) -> (r: Vec<TaskId>)
        ensures
            r@ == uppers_of(self@.uppers, t),
    {
        let mut r: Vec<TaskId> = Vec::new();
        let mut i: usize = 0;
        while i < self.uppers.len()
            invariant
                i <= self.uppers@.len(),
                r@ == uppers_of(self.uppers@.subrange(0, i as int), t),
            decreases self.uppers@.len() - i,
        {
            let e = self.uppers[i];
            proof {
                let p = self.uppers@.subrange(0, i + 1);
                assert(p.drop_last() == self.uppers@.subrange(0, i as int));
            }
            if e.0 == t {
                r.push(e.1);
            }
            i += 1;
        }
        assert(self.uppers@.subrange(0, i as int) == self.uppers@);
        r
    }

    /// Whether task `t` is marked dirty.
    pub fn is_dirty(&self, t: TaskId) -> (r: bool)
        ensures
            r == self@.dirty.contains(t),
    {
        let mut i: usize = 0;
        while i < self.dirty.len()
            invariant
                i <= self.dirty@.len(),
                forall|j: int| 0 <= j < i ==> self.dirty@[j] != t,
            decreases self.dirty@.len() - i,
        {
            if self.dirty[i] == t {
                return true;
            }
            i += 1;
        }
        false
    }

    /// Marks task `t` dirty.
    pub fn set_dirty(&mut self, t: TaskId)
        requires
            old(self).wf(),
        ensures
            final(self).wf(),
            final(self)@ == (StorageView { dirty: old(self)@.dirty.insert(t), ..old(self)@ }),
    {
        if !self.is_dirty(t) {
            proof { lemma_push_contains(self.dirty@, t); }
            self.dirty.push(t);
        }
        assert(self@.items =~= old(self)@.items);
        assert(self@.dirty =~= old(self)@.dirty.insert(t));
    }
}

} // verus!
