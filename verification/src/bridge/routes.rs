//! A table from text keys, such as unique ids, to slot indices.

use vstd::prelude::*;

verus! {

/// A table from keys to slot indices. No key occurs twice, and a new value
/// for a key replaces the old one.
pub struct RouteTable {
    entries: Vec<(String, usize)>,
}

impl View for RouteTable {
    type V = Map<Seq<char>, usize>;

    closed spec fn view(&self) -> Map<Seq<char>, usize> {
        Map::new(
            |key: Seq<char>| self.position(key) is Some,
            |key: Seq<char>| self.entries@[self.position(key)->0].1,
        )
    }
}

impl RouteTable {
    /// Where `key` stands among the entries.
    spec fn position(&self, key: Seq<char>) -> Option<int> {
        if exists|i: int| 0 <= i < self.entries@.len() && (#[trigger] self.entries@[i]).0@ == key {
            Some(
                choose|i: int|
                    0 <= i < self.entries@.len() && (#[trigger] self.entries@[i]).0@ == key,
            )
        } else {
            None
        }
    }

    /// No key occurs twice.
    pub closed spec fn wf(&self) -> bool {
        forall|i: int, j: int|
            0 <= i < j < self.entries@.len() ==> (#[trigger] self.entries@[i]).0@ != (
            #[trigger] self.entries@[j]).0@
    }

    proof fn lemma_entry(&self, i: int)
        requires
            self.wf(),
            0 <= i < self.entries@.len(),
        ensures
            self@.contains_key(self.entries@[i].0@),
            self@[self.entries@[i].0@] == self.entries@[i].1,
    {
        let key = self.entries@[i].0@;
        let j = self.position(key)->0;
        assert(self.entries@[j].0@ == key);
        assert(i == j);
    }

    pub fn new() -> (table: RouteTable)
        ensures
            table.wf(),
            table@ == Map::<Seq<char>, usize>::empty(),
    {
        let table = RouteTable { entries: Vec::new() };
        assert(table@ =~= Map::<Seq<char>, usize>::empty());
        table
    }

    /// The slot that `key` leads to.
    pub fn get(&self, key: &str) -> (r: Option<usize>)
        requires
            self.wf(),
        ensures
            r == (if self@.contains_key(key@) {
                Some(self@[key@])
            } else {
                None
            }),
    {
        let mut i: usize = 0;
        while i < self.entries.len()
            invariant
                self.wf(),
                i <= self.entries@.len(),
                forall|j: int| 0 <= j < i ==> (#[trigger] self.entries@[j]).0@ != key@,
            decreases self.entries@.len() - i,
        {
            if crate::text::same_text(self.entries[i].0.as_str(), key) {
                proof {
                    self.lemma_entry(i as int);
                }
                return Some(self.entries[i].1);
            }
            i = i + 1;
        }
        None
    }

    /// Makes `key` lead to `slot`, whatever it led to before.
    pub fn insert(&mut self, key: String, slot: usize)
        requires
            old(self).wf(),
        ensures
            final(self).wf(),
            final(self)@ == old(self)@.insert(key@, slot),
    {
        let mut i: usize = 0;
        while i < self.entries.len()
            invariant
                self.wf(),
                *self == *old(self),
                i <= self.entries@.len(),
                forall|j: int| 0 <= j < i ==> (#[trigger] self.entries@[j]).0@ != key@,
            decreases self.entries@.len() - i,
        {
            if crate::text::same_text(self.entries[i].0.as_str(), key.as_str()) {
                let ghost text = key@;
                self.entries.set(i, (key, slot));
                proof {
                    self.lemma_inserted(*old(self), i as int, text, slot);
                }
                return;
            }
            i = i + 1;
        }
        let ghost text = key@;
        self.entries.push((key, slot));
        proof {
            self.lemma_inserted(*old(self), i as int, text, slot);
        }
    }

    /// One entry was written, in the place of its key or at the end.
    proof fn lemma_inserted(&self, before: RouteTable, at: int, key: Seq<char>, slot: usize)
        requires
            before.wf(),
            0 <= at < self.entries@.len(),
            self.entries@[at].0@ == key,
            self.entries@[at].1 == slot,
            forall|j: int|
                0 <= j < before.entries@.len() && j != at ==> (#[trigger] before.entries@[j]).0@
                    != key && self.entries@[j] == before.entries@[j],
            at < before.entries@.len() ==> before.entries@[at].0@ == key && self.entries@.len()
                == before.entries@.len(),
            at >= before.entries@.len() ==> at == before.entries@.len() && self.entries@.len() == at
                + 1,
        ensures
            self.wf(),
            self@ == before@.insert(key, slot),
    {
        assert forall|i: int, j: int| 0 <= i < j < self.entries@.len() implies (
        #[trigger] self.entries@[i]).0@ != (#[trigger] self.entries@[j]).0@ by {
            if i != at {
                assert(before.entries@[i] == self.entries@[i]);
            }
            if j != at {
                assert(before.entries@[j] == self.entries@[j]);
            }
        }
        self.lemma_entry(at);
        assert forall|k: Seq<char>|
            #![trigger self@.contains_key(k)]
            #![trigger before@.contains_key(k)]
            k != key implies self@.contains_key(k) == before@.contains_key(k) && (
        before@.contains_key(k) ==> self@[k] == before@[k]) by {
            if before@.contains_key(k) {
                let i = before.position(k)->0;
                assert(before.entries@[i].0@ == k);
                assert(self.entries@[i] == before.entries@[i]);
                self.lemma_entry(i);
                before.lemma_entry(i);
            }
            if self@.contains_key(k) {
                let i = self.position(k)->0;
                assert(self.entries@[i].0@ == k);
                assert(i != at);
                assert(before.entries@[i] == self.entries@[i]);
                before.lemma_entry(i);
            }
        }
        assert(self@ =~= before@.insert(key, slot));
    }
}

} // verus!
