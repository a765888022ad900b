//! A small map keyed by text, kept in insertion order, with distinct keys.
use vstd::prelude::*;

verus! {

/// Entries `(key, value)` with pairwise distinct keys, in insertion order.
pub(crate) struct StrMap<V> {
    pub(crate) entries: Vec<(String, V)>,
}

impl<V> StrMap<V> {
    /// Keys are pairwise distinct.
    pub(crate) open spec fn wf(&self) -> bool {
        forall|i: int, j: int|
            0 <= i < j < self.entries@.len() ==> self.entries@[i].0@ != self.entries@[j].0@
    }

    /// The mapping from keys to values.
    pub(crate) open spec fn view(&self) -> Map<Seq<char>, V> {
        Map::new(
            |k: Seq<char>| exists|i: int| 0 <= i < self.entries@.len() && self.entries@[i].0@ == k,
            |k: Seq<char>| {
                let i = choose|i: int| 0 <= i < self.entries@.len() && self.entries@[i].0@ == k;
                self.entries@[i].1
            },
        )
    }

    pub(crate) proof fn lemma_view_at(&self, i: int)
        requires
            self.wf(),
            0 <= i < self.entries@.len(),
        ensures
            self.view().contains_key(self.entries@[i].0@),
            self.view()[self.entries@[i].0@] == self.entries@[i].1,
    {
        let k = self.entries@[i].0@;
        assert(exists|j: int| 0 <= j < self.entries@.len() && self.entries@[j].0@ == k);
        let j = choose|j: int| 0 <= j < self.entries@.len() && self.entries@[j].0@ == k;
        assert(i == j);
    }

    /// An empty map.
    pub(crate) fn new() -> (m: StrMap<V>)
        ensures
            m.wf(),
            m.view() == Map::<Seq<char>, V>::empty(),
            m.entries@.len() == 0,
    {
        let m = StrMap { entries: Vec::new() };
        assert(m.view() =~= Map::<Seq<char>, V>::empty());
        m
    }

    /// The number of entries.
    pub(crate) fn len(&self) -> (n: usize)
        ensures
            n == self.entries@.len(),
    {
        self.entries.len()
    }

    /// The position of `key`, if present.
    pub(crate) fn find(&self, key: &str) -> (r: Option<usize>)
        requires
            self.wf(),
        ensures
            match r {
                Some(i) => i < self.entries@.len() && self.entries@[i as int].0@ == key@
                    && self.view().contains_key(key@) && self.view()[key@] == self.entries@[i as int].1,
                None => !self.view().contains_key(key@),
            },
    {
        let k = key.to_string();
        assert(k@ == key@);
        let mut i: usize = 0;
        while i < self.entries.len()
            invariant
                i <= self.entries@.len(),
                self.wf(),
                k@ == key@,
                forall|j: int| 0 <= j < i ==> self.entries@[j].0@ != key@,
            decreases self.entries@.len() - i,
        {
            if self.entries[i].0 == k {
                proof { self.lemma_view_at(i as int); }
                return Some(i);
            }
            i = i + 1;
        }
        None
    }

    /// The value of `key`, if present.
    pub(crate) fn get(&self, key: &str) -> (r: Option<&V>)
        requires
            self.wf(),
        ensures
            r is Some == self.view().contains_key(key@),
            r matches Some(v) ==> *v == self.view()[key@],
    {
        match self.find(key) {
            Some(i) => Some(&self.entries[i].1),
            None => None,
        }
    }

    /// The key at a position.
    pub(crate) fn key_at(&self, i: usize) -> (k: &String)
        requires
            i < self.entries@.len(),
        ensures
            *k == self.entries@[i as int].0,
    {
        &self.entries[i].0
    }

    /// The value at a position.
    pub(crate) fn value_at(&self, i: usize) -> (v: &V)
        requires
            i < self.entries@.len(),
        ensures
            *v == self.entries@[i as int].1,
    {
        &self.entries[i].1
    }

    /// Replaces the value at a position and returns the previous one.
    pub(crate) fn replace_at(&mut self, i: usize, value: V) -> (prev: V)
        requires
            old(self).wf(),
            i < old(self).entries@.len(),
        ensures
            final(self).wf(),
            prev == old(self).entries@[i as int].1,
            final(self).entries@ == old(self).entries@.update(i as int, (old(self).entries@[i as int].0, value)),
            final(self).view() == old(self).view().insert(old(self).entries@[i as int].0@, value),
    {
        let ghost k = self.entries@[i as int].0@;
        let ghost old_entries = self.entries@;
        let ghost newv = old(self).view().insert(k, value);
        let mut v = value;
        std::mem::swap(&mut v, &mut self.entries[i].1);
        assert(self.entries@ == old_entries.update(i as int, (old_entries[i as int].0, value)));
        assert forall|a: int, b: int| 0 <= a < b < self.entries@.len() implies
            self.entries@[a].0@ != self.entries@[b].0@ by {
            assert(self.entries@[a].0 == old_entries[a].0);
            assert(self.entries@[b].0 == old_entries[b].0);
        }
        assert forall|kk: Seq<char>| #[trigger] self.view().contains_key(kk) == newv.contains_key(kk) by {
            if self.view().contains_key(kk) {
                let a = choose|a: int| 0 <= a < self.entries@.len() && self.entries@[a].0@ == kk;
                assert(old_entries[a].0@ == kk);
            }
            if newv.contains_key(kk) && kk != k {
                let a = choose|a: int| 0 <= a < old_entries.len() && old_entries[a].0@ == kk;
                assert(self.entries@[a].0@ == kk);
            }
            if kk == k {
                assert(self.entries@[i as int].0@ == kk);
            }
        }
        assert forall|kk: Seq<char>| #[trigger] self.view().contains_key(kk) implies
            self.view()[kk] == newv[kk] by {
            let a = choose|a: int| 0 <= a < self.entries@.len() && self.entries@[a].0@ == kk;
            self.lemma_view_at(a);
            if a != i {
                old(self).lemma_view_at(a);
            }
        }
        assert(self.view() =~= newv);
        v
    }

    /// Adds a key that is not yet present, at the end.
    pub(crate) fn push_new(&mut self, key: String, value: V)
        requires
            old(self).wf(),
            !old(self).view().contains_key(key@),
        ensures
            final(self).wf(),
            final(self).entries@ == old(self).entries@.push((key, value)),
            final(self).view() == old(self).view().insert(key@, value),
    {
        let ghost k = key@;
        let ghost old_entries = self.entries@;
        let ghost newv = old(self).view().insert(k, value);
        self.entries.push((key, value));
        let ghost n = old_entries.len() as int;
        assert forall|a: int, b: int| 0 <= a < b < self.entries@.len() implies
            self.entries@[a].0@ != self.entries@[b].0@ by {
            if b == n {
                assert(self.entries@[a] == old_entries[a]);
                old(self).lemma_view_at(a);
            }
        }
        assert forall|kk: Seq<char>| #[trigger] self.view().contains_key(kk) == newv.contains_key(kk) by {
            if self.view().contains_key(kk) && kk != k {
                let a = choose|a: int| 0 <= a < self.entries@.len() && self.entries@[a].0@ == kk;
                assert(a != n);
                assert(old_entries[a].0@ == kk);
            }
            if newv.contains_key(kk) && kk != k {
                let a = choose|a: int| 0 <= a < old_entries.len() && old_entries[a].0@ == kk;
                assert(self.entries@[a].0@ == kk);
            }
            if kk == k {
                assert(self.entries@[n].0@ == kk);
            }
        }
        assert forall|kk: Seq<char>| #[trigger] self.view().contains_key(kk) implies
            self.view()[kk] == newv[kk] by {
            let a = choose|a: int| 0 <= a < self.entries@.len() && self.entries@[a].0@ == kk;
            self.lemma_view_at(a);
            if a != n {
                old(self).lemma_view_at(a);
            }
        }
        assert(self.view() =~= newv);
    }

    /// Sets `key` to `value`, replacing a present value in place.
    pub(crate) fn insert(&mut self, key: String, value: V)
        requires
            old(self).wf(),
        ensures
            final(self).wf(),
            final(self).view() == old(self).view().insert(key@, value),
    {
        match self.find(key.as_str()) {
            Some(i) => {
                let _ = self.replace_at(i, value);
            },
            None => {
                self.push_new(key, value);
            },
        }
    }

    /// Removes the entry at a position, keeping the order of the others.
    pub(crate) fn remove_at(&mut self, i: usize) -> (removed: (String, V))
        requires
            old(self).wf(),
            i < old(self).entries@.len(),
        ensures
            final(self).wf(),
            removed == old(self).entries@[i as int],
            final(self).entries@ == old(self).entries@.remove(i as int),
            final(self).view() == old(self).view().remove(old(self).entries@[i as int].0@),
    {
        let ghost k = self.entries@[i as int].0@;
        let ghost old_entries = self.entries@;
        proof { self.lemma_view_at(i as int); }
        let removed = self.entries.remove(i);
        assert forall|a: int, b: int| 0 <= a < b < self.entries@.len() implies
            self.entries@[a].0@ != self.entries@[b].0@ by {
            let a0 = if a < i { a } else { a + 1 };
            let b0 = if b < i { b } else { b + 1 };
            assert(self.entries@[a] == old_entries[a0]);
            assert(self.entries@[b] == old_entries[b0]);
        }
        assert forall|kk: Seq<char>| #[trigger] self.view().contains_key(kk) == old(self).view().remove(k).contains_key(kk) by {
            if self.view().contains_key(kk) {
                let a = choose|a: int| 0 <= a < self.entries@.len() && self.entries@[a].0@ == kk;
                let a0 = if a < i { a } else { a + 1 };
                assert(self.entries@[a] == old_entries[a0]);
                assert(a0 != i);
            }
            if old(self).view().remove(k).contains_key(kk) {
                let a0 = choose|a: int| 0 <= a < old_entries.len() && old_entries[a].0@ == kk;
                assert(a0 != i);
                let a = if a0 < i { a0 } else { a0 - 1 };
                assert(self.entries@[a] == old_entries[a0]);
            }
        }
        assert forall|kk: Seq<char>| #[trigger] self.view().contains_key(kk) implies
            self.view()[kk] == old(self).view().remove(k)[kk] by {
            let a = choose|a: int| 0 <= a < self.entries@.len() && self.entries@[a].0@ == kk;
            let a0 = if a < i { a } else { a + 1 };
            assert(self.entries@[a] == old_entries[a0]);
            self.lemma_view_at(a);
            old(self).lemma_view_at(a0);
        }
        assert(self.view() =~= old(self).view().remove(k));
        removed
    }

    /// Removes `key`; tells whether it was present.
    pub(crate) fn remove(&mut self, key: &str) -> (was: bool)
        requires
            old(self).wf(),
        ensures
            final(self).wf(),
            was == old(self).view().contains_key(key@),
            final(self).view() == old(self).view().remove(key@),
    {
        match self.find(key) {
            Some(i) => {
                let _ = self.remove_at(i);
                true
            },
            None => {
                assert(self.view() =~= old(self).view().remove(key@));
                false
            },
        }
    }
}

} // verus!
