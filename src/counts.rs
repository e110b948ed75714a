//! Signed reference counters keyed by a copyable key. A counter that reaches
//! zero is removed, so the map holds only non-zero counts.
use vstd::prelude::*;
use crate::ids::KeyEq;

verus! {

/// `a + b`, clamped to the range of `i64`.
pub open spec fn sat_add(a: int, b: int) -> int {
    if a + b > i64::MAX {
        i64::MAX as int
    } else if a + b < i64::MIN {
        i64::MIN as int
    } else {
        a + b
    }
}

/// The count stored for `k`, zero when absent.
pub open spec fn count_of<K>(m: Map<K, int>, k: K) -> int {
    if m.dom().contains(k) {
        m[k]
    } else {
        0
    }
}

/// `m` after adding `d` to the counter of `k`, removing it when it reaches zero.
pub open spec fn bump<K>(m: Map<K, int>, k: K, d: int) -> Map<K, int> {
    let v = sat_add(count_of(m, k), d);
    if v == 0 {
        m.remove(k)
    } else {
        m.insert(k, v)
    }
}

/// `m` after applying each `(key, delta)` of `s` in order.
pub open spec fn bump_all<K>(m: Map<K, int>, s: Seq<(K, i64)>) -> Map<K, int>
    decreases s.len(),
{
    if s.len() == 0 {
        m
    } else {
        let last = s.last();
        bump(bump_all(m, s.drop_last()), last.0, last.1 as int)
    }
}

/// A map from keys to non-zero signed counts.
#[derive(Clone)]
pub struct CountMap<K> {
    entries: Vec<(K, i64)>,
}

impl<K: KeyEq> CountMap<K> {
    pub open spec fn entries_map(s: Seq<(K, i64)>) -> Map<K, int> {
        Map::new(
            |k: K| exists|i: int| 0 <= i < s.len() && s[i].0 == k,
            |k: K| (s[choose|i: int| 0 <= i < s.len() && s[i].0 == k].1) as int,
        )
    }

    pub closed spec fn view(&self) -> Map<K, int> {
        Self::entries_map(self.entries@)
    }

    /// Keys are unique and no count is zero.
    pub closed spec fn wf(&self) -> bool {
        &&& forall|i: int, j: int|
            0 <= i < j < self.entries@.len() ==> self.entries@[i].0 != self.entries@[j].0
        &&& forall|i: int| 0 <= i < self.entries@.len() ==> self.entries@[i].1 != 0
    }

    pub fn new() -> (r: Self)
        ensures
            r.wf(),
            r@ == Map::<K, int>::empty(),
    {
        let r = CountMap { entries: Vec::new() };
        assert(r@ =~= Map::<K, int>::empty());
        r
    }

    /// The stored counters as `(key, count)` pairs, each key once.
    pub fn entries(&self) -> (r: Vec<(K, i64)>)
        requires
            self.wf(),
        ensures
            Self::entries_map(r@) == self@,
            forall|i: int, j: int| 0 <= i < j < r@.len() ==> r@[i].0 != r@[j].0,
            forall|i: int| 0 <= i < r@.len() ==> r@[i].1 != 0,
    {
        let mut r: Vec<(K, i64)> = Vec::new();
        let mut i: usize = 0;
        while i < self.entries.len()
            invariant
                i <= self.entries@.len(),
                r@ == self.entries@.subrange(0, i as int),
            decreases self.entries@.len() - i,
        {
            r.push(self.entries[i]);
            i += 1;
        }
        assert(r@ == self.entries@);
        r
    }

    /// The count stored for `k`, zero when absent.
    pub fn get(&self, k: &K) -> (r: i64)
        requires
            self.wf(),
        ensures
            r as int == count_of(self@, *k),
    {
        match self.find(k) {
            Some(i) => self.entries[i].1,
            None => 0,
        }
    }

    fn find(&self, k: &K) -> (r: Option<usize>)
        requires
            self.wf(),
        ensures
            match r {
                Some(i) => i < self.entries@.len() && self.entries@[i as int].0 == *k
                    && self@.dom().contains(*k) && self@[*k] == self.entries@[i as int].1 as int,
                None => !self@.dom().contains(*k),
            },
    {
        let mut i: usize = 0;
        while i < self.entries.len()
            invariant
                self.wf(),
                i <= self.entries@.len(),
                forall|j: int| 0 <= j < i ==> self.entries@[j].0 != *k,
            decreases self.entries@.len() - i,
        {
            if self.entries[i].0.key_eq(k) {
                proof { self.lemma_at(i as int); }
                return Some(i);
            }
            i += 1;
        }
        None
    }

    proof fn lemma_at(&self, i: int)
        requires
            self.wf(),
            0 <= i < self.entries@.len(),
        ensures
            self@.dom().contains(self.entries@[i].0),
            self@[self.entries@[i].0] == self.entries@[i].1 as int,
    {
        let s = self.entries@;
        let k = s[i].0;
        assert(exists|j: int| 0 <= j < s.len() && s[j].0 == k) by {
            assert(s[i].0 == k);
        }
        let j = choose|j: int| 0 <= j < s.len() && s[j].0 == k;
        assert(i == j);
    }

    /// Adds `delta` to the counter of `k` (clamped to `i64`), removing it when
    /// it reaches zero. Returns whether the stored count changed.
    pub fn update(&mut self, k: K, delta: i64) -> (changed: bool)
        requires
            old(self).wf(),
        ensures
            final(self).wf(),
            final(self)@ == bump(old(self)@, k, delta as int),
            changed == (sat_add(count_of(old(self)@, k), delta as int) != count_of(old(self)@, k)),
    {
        let cur = self.get(&k);
        let v: i64 = match cur.checked_add(delta) {
            Some(v) => v,
            None => if delta > 0 { i64::MAX } else { i64::MIN },
        };
        let ghost m = self@;
        let ghost s = self.entries@;
        match self.find(&k) {
            Some(i) => {
                if v == 0 {
                    self.entries.remove(i);
                    proof { self.lemma_removed(s, i as int, k); }
                } else {
                    self.entries.set(i, (k, v));
                    proof { self.lemma_set(s, i as int, k, v); }
                }
            },
            None => {
                if v != 0 {
                    self.entries.push((k, v));
                    proof { self.lemma_pushed(s, k, v); }
                } else {
                    assert(self@ =~= m.remove(k));
                }
            },
        }
        v != cur
    }

    proof fn lemma_removed(&self, s: Seq<(K, i64)>, i: int, k: K)
        requires
            forall|a: int, b: int| 0 <= a < b < s.len() ==> s[a].0 != s[b].0,
            forall|a: int| 0 <= a < s.len() ==> s[a].1 != 0,
            0 <= i < s.len(),
            s[i].0 == k,
            self.entries@ == s.remove(i),
        ensures
            self.wf(),
            self@ == Self::entries_map(s).remove(k),
    {
        let t = self.entries@;
        let m = Self::entries_map(s);
        assert forall|a: int, b: int| 0 <= a < b < t.len() implies t[a].0 != t[b].0 by {
            let a2 = if a < i { a } else { a + 1 };
            let b2 = if b < i { b } else { b + 1 };
            assert(t[a] == s[a2] && t[b] == s[b2]);
        }
        assert forall|a: int| 0 <= a < t.len() implies t[a].1 != 0 by {
            let a2 = if a < i { a } else { a + 1 };
            assert(t[a] == s[a2]);
        }
        assert forall|q: K| #[trigger] self@.dom().contains(q) == m.remove(k).dom().contains(q) by {
            if self@.dom().contains(q) {
                let a = choose|a: int| 0 <= a < t.len() && t[a].0 == q;
                let a2 = if a < i { a } else { a + 1 };
                assert(s[a2].0 == q);
                assert(q != k);
            }
            if m.remove(k).dom().contains(q) {
                let a2 = choose|a: int| 0 <= a < s.len() && s[a].0 == q;
                assert(a2 != i);
                let a = if a2 < i { a2 } else { a2 - 1 };
                assert(t[a].0 == q);
            }
        }
        assert forall|q: K| #[trigger] self@.dom().contains(q) implies self@[q] == m.remove(k)[q] by {
            let a = choose|a: int| 0 <= a < t.len() && t[a].0 == q;
            let a2 = if a < i { a } else { a + 1 };
            self.lemma_at(a);
            assert(t[a] == s[a2]);
            lemma_entry(s, a2);
        }
        assert(self@ =~= m.remove(k));
    }

    proof fn lemma_set(&self, s: Seq<(K, i64)>, i: int, k: K, v: i64)
        requires
            forall|a: int, b: int| 0 <= a < b < s.len() ==> s[a].0 != s[b].0,
            forall|a: int| 0 <= a < s.len() ==> s[a].1 != 0,
            0 <= i < s.len(),
            s[i].0 == k,
            v != 0,
            self.entries@ == s.update(i, (k, v)),
        ensures
            self.wf(),
            self@ == Self::entries_map(s).insert(k, v as int),
    {
        let t = self.entries@;
        let m = Self::entries_map(s);
        assert forall|a: int, b: int| 0 <= a < b < t.len() implies t[a].0 != t[b].0 by {
            assert(t[a].0 == s[a].0 && t[b].0 == s[b].0);
        }
        assert forall|q: K| #[trigger] self@.dom().contains(q) == m.insert(k, v as int).dom().contains(q) by {
            if self@.dom().contains(q) {
                let a = choose|a: int| 0 <= a < t.len() && t[a].0 == q;
                assert(s[a].0 == q);
            }
            if m.dom().contains(q) {
                let a = choose|a: int| 0 <= a < s.len() && s[a].0 == q;
                assert(t[a].0 == q);
            }
            if q == k {
                assert(t[i].0 == q);
            }
        }
        assert forall|q: K| #[trigger] self@.dom().contains(q) implies self@[q] == m.insert(k, v as int)[q] by {
            let a = choose|a: int| 0 <= a < t.len() && t[a].0 == q;
            self.lemma_at(a);
            if q != k {
                assert(s[a].0 == q);
                lemma_entry(s, a);
            }
        }
        assert(self@ =~= m.insert(k, v as int));
    }

    proof fn lemma_pushed(&self, s: Seq<(K, i64)>, k: K, v: i64)
        requires
            forall|a: int, b: int| 0 <= a < b < s.len() ==> s[a].0 != s[b].0,
            forall|a: int| 0 <= a < s.len() ==> s[a].1 != 0,
            !Self::entries_map(s).dom().contains(k),
            v != 0,
            self.entries@ == s.push((k, v)),
        ensures
            self.wf(),
            self@ == Self::entries_map(s).insert(k, v as int),
    {
        let t = self.entries@;
        let m = Self::entries_map(s);
        assert forall|a: int, b: int| 0 <= a < b < t.len() implies t[a].0 != t[b].0 by {
            if b == s.len() {
                assert(t[a] == s[a]);
                if s[a].0 == k {
                    assert(m.dom().contains(k));
                }
            } else {
                assert(t[a] == s[a] && t[b] == s[b]);
            }
        }
        assert forall|q: K| #[trigger] self@.dom().contains(q) == m.insert(k, v as int).dom().contains(q) by {
            if self@.dom().contains(q) && q != k {
                let a = choose|a: int| 0 <= a < t.len() && t[a].0 == q;
                assert(a < s.len());
                assert(s[a].0 == q);
            }
            if m.dom().contains(q) {
                let a = choose|a: int| 0 <= a < s.len() && s[a].0 == q;
                assert(t[a].0 == q);
            }
            if q == k {
                assert(t[s.len() as int].0 == q);
            }
        }
        assert forall|q: K| #[trigger] self@.dom().contains(q) implies self@[q] == m.insert(k, v as int)[q] by {
            let a = choose|a: int| 0 <= a < t.len() && t[a].0 == q;
            self.lemma_at(a);
            if q != k {
                assert(a < s.len());
                assert(s[a].0 == q);
                lemma_entry(s, a);
            }
        }
        assert(self@ =~= m.insert(k, v as int));
    }
}

proof fn lemma_entry<K: KeyEq>(s: Seq<(K, i64)>, i: int)
    requires
        forall|a: int, b: int| 0 <= a < b < s.len() ==> s[a].0 != s[b].0,
        0 <= i < s.len(),
    ensures
        CountMap::<K>::entries_map(s).dom().contains(s[i].0),
        CountMap::<K>::entries_map(s)[s[i].0] == s[i].1 as int,
{
    let k = s[i].0;
    assert(s[i].0 == k);
    let j = choose|j: int| 0 <= j < s.len() && s[j].0 == k;
    assert(i == j);
}

} // verus!
