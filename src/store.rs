use vstd::prelude::*;

use crate::values::{VarKey, VariableId};

verus! {

/// A finite map from variable identifiers to values, kept as a list of entries
/// with distinct keys.
pub struct VarMap<V> {
    entries: Vec<(VariableId, V)>,
    contents: Ghost<Map<VarKey, V>>,
}

impl<V> View for VarMap<V> {
    type V = Map<VarKey, V>;

    closed spec fn view(&self) -> Map<VarKey, V> {
        self.contents@
    }
}

impl<V> VarMap<V> {
    /// The entries agree with the map, and no key occurs twice.
    pub closed spec fn wf(&self) -> bool {
        &&& self.contents@.dom().finite()
        &&& forall|i: int|
            0 <= i < self.entries@.len() ==> {
                &&& #[trigger] self.contents@.contains_key(self.entries@[i].0@)
                &&& self.contents@[self.entries@[i].0@] == self.entries@[i].1
            }
        &&& forall|k: VarKey|
            #[trigger] self.contents@.contains_key(k) ==> exists|i: int|
                0 <= i < self.entries@.len() && self.entries@[i].0@ == k
        &&& forall|i: int, j: int|
            0 <= i < self.entries@.len() && 0 <= j < self.entries@.len() && i != j
                ==> self.entries@[i].0@ != self.entries@[j].0@
    }

    /// A well-formed map has finitely many keys.
    pub proof fn lemma_finite(&self)
        requires
            self.wf(),
        ensures
            self@.dom().finite(),
    {
    }

    /// The empty map.
    pub fn new() -> (r: VarMap<V>)
        ensures
            r.wf(),
            r@ == Map::<VarKey, V>::empty(),
    {
        VarMap { entries: Vec::new(), contents: Ghost(Map::empty()) }
    }

    fn position(&self, k: &VariableId) -> (r: Option<usize>)
        requires
            self.wf(),
        ensures
            r is None ==> !self@.contains_key(k@),
            r is Some ==> r->0 < self.entries@.len() && self.entries@[r->0 as int].0@ == k@,
    {
        let mut i: usize = 0;
        while i < self.entries.len()
            invariant
                self.wf(),
                i <= self.entries@.len(),
                forall|j: int| 0 <= j < i ==> self.entries@[j].0@ != k@,
            decreases self.entries@.len() - i,
        {
            if self.entries[i].0.same(k) {
                return Some(i);
            }
            i += 1;
        }
        None
    }

    /// The value stored under `k`, if any.
    pub fn get(&self, k: &VariableId) -> (r: Option<&V>)
        requires
            self.wf(),
        ensures
            r is Some == self@.contains_key(k@),
            r is Some ==> *r->0 == self@[k@],
    {
        match self.position(k) {
            Some(i) => {
                assert(self.contents@.contains_key(self.entries@[i as int].0@));
                Some(&self.entries[i].1)
            },
            None => None,
        }
    }

    /// Whether a value is stored under `k`.
    pub fn contains_key(&self, k: &VariableId) -> (r: bool)
        requires
            self.wf(),
        ensures
            r == self@.contains_key(k@),
    {
        self.position(k).is_some()
    }

    /// The stored entries, each key once.
    pub fn entries(&self) -> (r: &Vec<(VariableId, V)>)
        requires
            self.wf(),
        ensures
            forall|i: int|
                0 <= i < r@.len() ==> self@.contains_key(#[trigger] r@[i].0@) && self@[r@[i].0@]
                    == r@[i].1,
            forall|k: VarKey| #[trigger]
                self@.contains_key(k) ==> exists|i: int| 0 <= i < r@.len() && r@[i].0@ == k,
            forall|i: int, j: int|
                0 <= i < r@.len() && 0 <= j < r@.len() && i != j ==> r@[i].0@ != r@[j].0@,
    {
        &self.entries
    }

    /// Stores `v` under `k`, replacing what was there.
    pub fn insert(&mut self, k: VariableId, v: V)
        requires
            old(self).wf(),
        ensures
            final(self).wf(),
            final(self)@ == old(self)@.insert(k@, v),
    {
        let ghost key = k@;
        let ghost vv = v;
        let ghost idx: int;
        match self.position(&k) {
            Some(i) => {
                self.entries.set(i, (k, v));
                proof { idx = i as int; }
            },
            None => {
                self.entries.push((k, v));
                proof { idx = self.entries@.len() - 1; }
            },
        }
        self.contents = Ghost(self.contents@.insert(key, vv));
        assert(self.entries@[idx].0@ == key);
        assert forall|kk: VarKey| #[trigger] self.contents@.contains_key(kk) implies exists|i: int|
            0 <= i < self.entries@.len() && self.entries@[i].0@ == kk by {
            if kk != key {
                let i = choose|i: int| 0 <= i < old(self).entries@.len() && old(self).entries@[i].0@ == kk;
                assert(self.entries@[i].0@ == kk);
            } else {
                assert(self.entries@[idx].0@ == kk);
            }
        }
    }
}

} // verus!
