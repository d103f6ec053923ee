use vstd::prelude::*;

verus! {

/// A keyed store of records, the in-memory form of the host's persistent
/// entries. Keys are unique; the view is the map from key to record.
pub struct Table<V> {
    entries: Vec<(u128, V)>,
}

impl<V: Copy> Table<V> {
    /// No key appears twice.
    pub closed spec fn wf(&self) -> bool {
        forall|i: int, j: int|
            0 <= i < j < self.entries@.len() ==> self.entries@[i].0 != self.entries@[j].0
    }

    pub closed spec fn view(&self) -> Map<u128, V> {
        Map::new(
            |k: u128| exists|i: int| 0 <= i < self.entries@.len() && self.entries@[i].0 == k,
            |k: u128|
                self.entries@[choose|i: int|
                    0 <= i < self.entries@.len() && self.entries@[i].0 == k].1,
        )
    }

    proof fn lemma_entry(&self, i: int)
        requires
            self.wf(),
            0 <= i < self.entries@.len(),
        ensures
            self@.contains_key(self.entries@[i].0),
            self@[self.entries@[i].0] == self.entries@[i].1,
    {
        let k = self.entries@[i].0;
        assert(self@.dom().contains(k));
        let j = choose|j: int| 0 <= j < self.entries@.len() && self.entries@[j].0 == k;
        assert(j == i);
    }

    pub fn new() -> (r: Self)
        ensures
            r.wf(),
            r@ == Map::<u128, V>::empty(),
    {
        let r = Table { entries: Vec::new() };
        assert(r@ =~= Map::<u128, V>::empty());
        r
    }

    fn find(&self, k: u128) -> (r: Option<usize>)
        requires
            self.wf(),
        ensures
            r matches Some(i) ==> i < self.entries@.len() && self.entries@[i as int].0 == k,
            r is None ==> !self@.contains_key(k),
    {
        let mut i: usize = 0;
        while i < self.entries.len()
            invariant
                i <= self.entries@.len(),
                forall|j: int| 0 <= j < i ==> self.entries@[j].0 != k,
            decreases self.entries@.len() - i,
        {
            if self.entries[i].0 == k {
                return Some(i);
            }
            i = i + 1;
        }
        None
    }

    /// The record stored under `k`, if any.
    pub fn get(&self, k: u128) -> (r: Option<V>)
        requires
            self.wf(),
        ensures
            r == (if self@.contains_key(k) { Some(self@[k]) } else { None::<V> }),
    {
        match self.find(k) {
            Some(i) => {
                proof {
                    self.lemma_entry(i as int);
                }
                Some(self.entries[i].1)
            },
            None => None,
        }
    }

    /// Stores `v` under `k`, replacing what was there.
    pub fn set(&mut self, k: u128, v: V)
        requires
            old(self).wf(),
        ensures
            final(self).wf(),
            final(self)@ == old(self)@.insert(k, v),
    {
        let ghost before = *self;
        match self.find(k) {
            Some(i) => {
                self.entries.set(i, (k, v));
                proof {
                    assert forall|a: int, b: int|
                        0 <= a < b < self.entries@.len() implies self.entries@[a].0
                        != self.entries@[b].0 by {
                        assert(before.entries@[a].0 != before.entries@[b].0);
                    }
                    assert forall|key: u128| #[trigger] self@.contains_key(key)
                        <==> before@.insert(k, v).contains_key(key) by {
                        if before@.contains_key(key) {
                            let j = choose|j: int|
                                0 <= j < before.entries@.len() && before.entries@[j].0 == key;
                            assert(self.entries@[j].0 == key);
                        }
                        if self@.contains_key(key) {
                            let j = choose|j: int|
                                0 <= j < self.entries@.len() && self.entries@[j].0 == key;
                            assert(before.entries@[j].0 == key);
                        }
                    }
                    assert forall|key: u128| #[trigger] self@.contains_key(key) implies self@[key]
                        == before@.insert(k, v)[key] by {
                        let j = choose|j: int|
                            0 <= j < self.entries@.len() && self.entries@[j].0 == key;
                        self.lemma_entry(j);
                        if j != i {
                            before.lemma_entry(j);
                        }
                    }
                    assert(self@ =~= before@.insert(k, v));
                }
            },
            None => {
                self.entries.push((k, v));
                proof {
                    let n = before.entries@.len() as int;
                    assert forall|key: u128| #[trigger] self@.contains_key(key)
                        <==> before@.insert(k, v).contains_key(key) by {
                        if before@.contains_key(key) {
                            let j = choose|j: int|
                                0 <= j < before.entries@.len() && before.entries@[j].0 == key;
                            assert(self.entries@[j].0 == key);
                        }
                        if key == k {
                            assert(self.entries@[n].0 == key);
                        }
                        if self@.contains_key(key) && key != k {
                            let j = choose|j: int|
                                0 <= j < self.entries@.len() && self.entries@[j].0 == key;
                            assert(before.entries@[j].0 == key);
                        }
                    }
                    assert forall|key: u128| #[trigger] self@.contains_key(key) implies self@[key]
                        == before@.insert(k, v)[key] by {
                        let j = choose|j: int|
                            0 <= j < self.entries@.len() && self.entries@[j].0 == key;
                        self.lemma_entry(j);
                        if j != n {
                            before.lemma_entry(j);
                        }
                    }
                    assert(self@ =~= before@.insert(k, v));
                }
            },
        }
    }
}

} // verus!
