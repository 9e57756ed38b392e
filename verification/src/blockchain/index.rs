//! A map keyed by block identifiers.

use crate::block::HeaderHash;
use vstd::prelude::*;

verus! {

struct Entry<V> {
    key: HeaderHash,
    value: V,
}

/// A map from block identifiers to values, kept as a vector in the order of the
/// identifiers and searched by halving.
pub struct HashIndex<V> {
    entries: Vec<Entry<V>>,
}

impl<V> HashIndex<V> {
    /// The entries stand in ascending order, so that no identifier occurs twice.
    pub closed spec fn wf(&self) -> bool {
        forall|i: int, j: int|
            0 <= i < j < self.entries@.len() ==> (#[trigger] self.entries@[i]).key.precedes(
                (#[trigger] self.entries@[j]).key,
            )
    }

    spec fn holds_at(&self, key: HeaderHash, i: int) -> bool {
        0 <= i < self.entries@.len() && self.entries@[i].key == key
    }

    spec fn position(&self, key: HeaderHash) -> int {
        choose|i: int| self.holds_at(key, i)
    }

    /// The map that the entries stand for.
    pub closed spec fn view(&self) -> Map<HeaderHash, V> {
        Map::new(
            |key: HeaderHash| exists|i: int| self.holds_at(key, i),
            |key: HeaderHash| self.entries@[self.position(key)].value,
        )
    }

    /// In an ordered index the place of an identifier is unique.
    proof fn lemma_entry(&self, i: int)
        requires
            self.wf(),
            0 <= i < self.entries@.len(),
        ensures
            self@.dom().contains(self.entries@[i].key),
            self@[self.entries@[i].key] == self.entries@[i].value,
    {
        let key = self.entries@[i].key;
        assert(self.holds_at(key, i));
        let p = self.position(key);
        assert(self.holds_at(key, p));
        if p < i {
            assert(self.entries@[p].key.precedes(self.entries@[i].key));
        } else if i < p {
            assert(self.entries@[i].key.precedes(self.entries@[p].key));
        }
    }

    /// An empty index.
    pub fn new() -> (res: Self)
        ensures
            res.wf(),
            res@ == Map::<HeaderHash, V>::empty(),
    {
        let res = HashIndex { entries: Vec::new() };
        proof {
            assert forall|key: HeaderHash| !res@.dom().contains(key) by {
                if exists|i: int| res.holds_at(key, i) {
                    let i = choose|i: int| res.holds_at(key, i);
                    assert(0 <= i < 0);
                }
            }
            assert(res@ =~= Map::empty());
        }
        res
    }

    /// The place of `key`, or the place where it would have to be put.
    fn locate(&self, key: &HeaderHash) -> (res: Result<usize, usize>)
        requires
            self.wf(),
        ensures
            match res {
                Ok(i) => i < self.entries@.len() && self.entries@[i as int].key == *key,
                Err(i) => {
                    &&& i <= self.entries@.len()
                    &&& forall|j: int|
                        0 <= j < i ==> (#[trigger] self.entries@[j]).key.precedes(*key)
                    &&& forall|j: int|
                        i <= j < self.entries@.len() ==> key.precedes(
                            (#[trigger] self.entries@[j]).key,
                        )
                },
            },
    {
        let mut low: usize = 0;
        let mut high: usize = self.entries.len();
        while low < high
            invariant
                self.wf(),
                low <= high <= self.entries@.len(),
                forall|j: int| 0 <= j < low ==> (#[trigger] self.entries@[j]).key.precedes(*key),
                forall|j: int|
                    high <= j < self.entries@.len() ==> key.precedes(
                        (#[trigger] self.entries@[j]).key,
                    ),
            decreases high - low,
        {
            let middle: usize = low + (high - low) / 2;
            let entry = &self.entries[middle];
            if entry.key.is_before(key) {
                proof {
                    assert forall|j: int| 0 <= j < middle + 1 implies (
                    #[trigger] self.entries@[j]).key.precedes(*key) by {
                        if j < middle {
                            assert(self.entries@[j].key.precedes(self.entries@[middle as int].key));
                        }
                    }
                }
                low = middle + 1;
            } else if key.is_before(&entry.key) {
                proof {
                    assert forall|j: int| middle <= j < self.entries@.len() implies key.precedes(
                        (#[trigger] self.entries@[j]).key,
                    ) by {
                        if middle < j {
                            assert(self.entries@[middle as int].key.precedes(self.entries@[j].key));
                        }
                    }
                }
                high = middle;
            } else {
                return Ok(middle);
            }
        }
        Err(low)
    }

    /// The value of `key`, if it has one.
    pub fn get(&self, key: &HeaderHash) -> (res: Option<&V>)
        requires
            self.wf(),
        ensures
            match res {
                Some(value) => self@.dom().contains(*key) && *value == self@[*key],
                None => !self@.dom().contains(*key),
            },
    {
        match self.locate(key) {
            Ok(i) => {
                proof {
                    self.lemma_entry(i as int);
                }
                Some(&self.entries[i].value)
            },
            Err(i) => {
                proof {
                    self.lemma_absent(*key, i as int);
                }
                None
            },
        }
    }

    proof fn lemma_absent(&self, key: HeaderHash, i: int)
        requires
            forall|j: int| 0 <= j < i ==> (#[trigger] self.entries@[j]).key.precedes(key),
            forall|j: int|
                i <= j < self.entries@.len() ==> key.precedes((#[trigger] self.entries@[j]).key),
        ensures
            !self@.dom().contains(key),
    {
        if exists|j: int| self.holds_at(key, j) {
            let j = choose|j: int| self.holds_at(key, j);
            assert(self.entries@[j].key == key);
        }
    }

    /// Sets the value of `key`, whether or not it had one.
    pub fn insert(&mut self, key: HeaderHash, value: V)
        requires
            old(self).wf(),
        ensures
            final(self).wf(),
            final(self)@ == old(self)@.insert(key, value),
    {
        let ghost before = *self;
        match self.locate(&key) {
            Ok(i) => {
                self.entries.set(i, Entry { key, value });
                proof {
                    lemma_replaced(before, *self, i as int);
                }
            },
            Err(i) => {
                self.entries.insert(i, Entry { key, value });
                proof {
                    lemma_inserted(before, *self, i as int);
                }
            },
        }
    }

    /// Takes `key` out of the index.
    pub fn remove(&mut self, key: &HeaderHash)
        requires
            old(self).wf(),
        ensures
            final(self).wf(),
            final(self)@ == old(self)@.remove(*key),
    {
        let ghost before = *self;
        match self.locate(key) {
            Ok(i) => {
                let _ = self.entries.remove(i);
                proof {
                    lemma_removed(before, *self, i as int);
                }
            },
            Err(i) => {
                proof {
                    self.lemma_absent(*key, i as int);
                    assert(self@ =~= before@.remove(*key));
                }
            },
        }
    }
}

proof fn lemma_replaced<V>(before: HashIndex<V>, after: HashIndex<V>, i: int)
    requires
        before.wf(),
        0 <= i < before.entries@.len(),
        after.entries@.len() == before.entries@.len(),
        after.entries@[i].key == before.entries@[i].key,
        after.entries@ == before.entries@.update(i, after.entries@[i]),
    ensures
        after.wf(),
        after@ == before@.insert(after.entries@[i].key, after.entries@[i].value),
{
    let changed = before@.insert(after.entries@[i].key, after.entries@[i].value);
    assert forall|a: int, b: int| 0 <= a < b < after.entries@.len() implies (
    #[trigger] after.entries@[a]).key.precedes((#[trigger] after.entries@[b]).key) by {
        assert(before.entries@[a].key.precedes(before.entries@[b].key));
    }
    assert forall|key: HeaderHash|
        #![trigger after@.dom().contains(key)]
        #![trigger changed.dom().contains(key)]
        #![trigger after@[key]]
        after@.dom().contains(key) == changed.dom().contains(key) && (after@.dom().contains(key)
            ==> after@[key] == changed[key]) by {
        if exists|j: int| after.holds_at(key, j) {
            let j = choose|j: int| after.holds_at(key, j);
            after.lemma_entry(j);
            before.lemma_entry(j);
        } else if exists|j: int| before.holds_at(key, j) {
            let j = choose|j: int| before.holds_at(key, j);
            assert(after.holds_at(key, j));
        } else if key == after.entries@[i].key {
            assert(after.holds_at(key, i));
        }
    }
    assert(after@ =~= changed);
}

proof fn lemma_inserted<V>(before: HashIndex<V>, after: HashIndex<V>, i: int)
    requires
        before.wf(),
        0 <= i <= before.entries@.len(),
        after.entries@.len() == before.entries@.len() + 1,
        after.entries@ == before.entries@.insert(i, after.entries@[i]),
        forall|j: int|
            0 <= j < i ==> (#[trigger] before.entries@[j]).key.precedes(after.entries@[i].key),
        forall|j: int|
            i <= j < before.entries@.len() ==> after.entries@[i].key.precedes(
                (#[trigger] before.entries@[j]).key,
            ),
    ensures
        after.wf(),
        after@ == before@.insert(after.entries@[i].key, after.entries@[i].value),
{
    let changed = before@.insert(after.entries@[i].key, after.entries@[i].value);
    assert forall|a: int, b: int| 0 <= a < b < after.entries@.len() implies (
    #[trigger] after.entries@[a]).key.precedes((#[trigger] after.entries@[b]).key) by {
        let x = if a < i { a } else { a - 1 };
        let y = if b < i { b } else { b - 1 };
        if a != i && b != i {
            assert(before.entries@[x].key.precedes(before.entries@[y].key));
        } else if a == i {
            assert(after.entries@[i].key.precedes(before.entries@[y].key));
        } else {
            assert(before.entries@[x].key.precedes(after.entries@[i].key));
        }
    }
    assert forall|key: HeaderHash|
        #![trigger after@.dom().contains(key)]
        #![trigger changed.dom().contains(key)]
        #![trigger after@[key]]
        after@.dom().contains(key) == changed.dom().contains(key) && (after@.dom().contains(key)
            ==> after@[key] == changed[key]) by {
        if exists|j: int| after.holds_at(key, j) {
            let j = choose|j: int| after.holds_at(key, j);
            after.lemma_entry(j);
            if j != i {
                let k = if j < i { j } else { j - 1 };
                before.lemma_entry(k);
                assert(before.entries@[k].key == key);
            }
        } else if exists|j: int| before.holds_at(key, j) {
            let j = choose|j: int| before.holds_at(key, j);
            let k = if j < i { j } else { j + 1 };
            assert(after.holds_at(key, k));
        } else if key == after.entries@[i].key {
            assert(after.holds_at(key, i));
        }
    }
    assert(after@ =~= changed);
}

proof fn lemma_removed<V>(before: HashIndex<V>, after: HashIndex<V>, i: int)
    requires
        before.wf(),
        0 <= i < before.entries@.len(),
        after.entries@ == before.entries@.remove(i),
    ensures
        after.wf(),
        after@ == before@.remove(before.entries@[i].key),
{
    let gone = before.entries@[i].key;
    let changed = before@.remove(gone);
    assert forall|a: int, b: int| 0 <= a < b < after.entries@.len() implies (
    #[trigger] after.entries@[a]).key.precedes((#[trigger] after.entries@[b]).key) by {
        let x = if a < i { a } else { a + 1 };
        let y = if b < i { b } else { b + 1 };
        assert(before.entries@[x].key.precedes(before.entries@[y].key));
    }
    assert forall|key: HeaderHash|
        #![trigger after@.dom().contains(key)]
        #![trigger changed.dom().contains(key)]
        #![trigger after@[key]]
        after@.dom().contains(key) == changed.dom().contains(key) && (after@.dom().contains(key)
            ==> after@[key] == changed[key]) by {
        if exists|j: int| after.holds_at(key, j) {
            let j = choose|j: int| after.holds_at(key, j);
            after.lemma_entry(j);
            let k = if j < i { j } else { j + 1 };
            before.lemma_entry(k);
            if k < i {
                assert(before.entries@[k].key.precedes(before.entries@[i].key));
            } else {
                assert(before.entries@[i].key.precedes(before.entries@[k].key));
            }
        } else if key != gone && exists|j: int| before.holds_at(key, j) {
            let j = choose|j: int| before.holds_at(key, j);
            let k = if j < i { j } else { j - 1 };
            assert(after.holds_at(key, k));
        }
    }
    assert(after@ =~= changed);
}

} // verus!
