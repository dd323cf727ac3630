//! Values by index, in the order of their indices.
use vstd::prelude::*;

verus! {

#[derive(Clone, Copy, PartialEq, Eq, Structural, Debug)]
pub struct IndexedValue {
    pub index: i32,
    pub handle: usize,
}

/// The elements of an associative array: a handle for each index, smallest index first.
pub struct IndexedValues {
    pub entries: Vec<IndexedValue>,
}

pub open spec fn sorted(entries: Seq<IndexedValue>) -> bool {
    forall|i: int, j: int|
        0 <= i < j < entries.len() ==> (#[trigger] entries[i]).index < (
        #[trigger] entries[j]).index
}

/// The mapping that entries stand for.
pub open spec fn by_index(entries: Seq<IndexedValue>) -> Map<i32, usize>
    decreases entries.len(),
{
    if entries.len() == 0 {
        Map::empty()
    } else {
        by_index(entries.drop_last()).insert(entries.last().index, entries.last().handle)
    }
}

/// An index is in the mapping exactly where an entry has it, and the entry has its handle.
pub proof fn lemma_by_index(entries: Seq<IndexedValue>, k: i32)
    requires
        sorted(entries),
    ensures
        by_index(entries).dom().contains(k) <==> exists|i: int|
            0 <= i < entries.len() && (#[trigger] entries[i]).index == k,
        forall|i: int|
            0 <= i < entries.len() && (#[trigger] entries[i]).index == k ==> by_index(entries)[k]
                == entries[i].handle,
        by_index(entries).dom().finite(),
        by_index(entries).dom().len() == entries.len(),
    decreases entries.len(),
{
    if entries.len() > 0 {
        let shorter = entries.drop_last();
        let last = entries.last();
        assert(sorted(shorter)) by {
            assert forall|i: int, j: int| 0 <= i < j < shorter.len() implies (
            #[trigger] shorter[i]).index < (#[trigger] shorter[j]).index by {
                assert(entries[i].index < entries[j].index);
            }
        }
        lemma_by_index(shorter, k);
        lemma_by_index(shorter, last.index);
        assert forall|i: int| 0 <= i < shorter.len() implies #[trigger] shorter[i]
            == entries[i] by {}
        assert forall|i: int| 0 <= i < shorter.len() implies (#[trigger] shorter[i]).index
            < last.index by {
            assert(entries[i].index < entries[entries.len() - 1].index);
        }
        assert(!by_index(shorter).dom().contains(last.index));
        if exists|i: int| 0 <= i < entries.len() && (#[trigger] entries[i]).index == k {
            let i = choose|i: int| 0 <= i < entries.len() && (#[trigger] entries[i]).index == k;
            if i < shorter.len() {
                assert(shorter[i].index == k);
            }
        }
        assert forall|i: int| 0 <= i < entries.len() && (#[trigger] entries[i]).index
            == k implies by_index(entries)[k] == entries[i].handle by {
            if i < shorter.len() {
                assert(shorter[i].index == k);
            }
        }
        assert(by_index(entries).dom() =~= by_index(shorter).dom().insert(last.index));
    }
}

impl View for IndexedValues {
    type V = Map<i32, usize>;

    open spec fn view(&self) -> Map<i32, usize> {
        by_index(self.entries@)
    }
}

/// `k` is the smallest index that is not below `from`.
pub open spec fn least_from(m: Map<i32, usize>, from: i32, k: i32) -> bool {
    &&& m.dom().contains(k)
    &&& k >= from
    &&& forall|j: i32| #[trigger] m.dom().contains(j) && j >= from ==> k <= j
}

/// `k` is the greatest index.
pub open spec fn greatest(m: Map<i32, usize>, k: i32) -> bool {
    &&& m.dom().contains(k)
    &&& forall|j: i32| #[trigger] m.dom().contains(j) ==> j <= k
}

/// `k` is the greatest index below `to`.
pub open spec fn greatest_below(m: Map<i32, usize>, to: int, k: i32) -> bool {
    &&& m.dom().contains(k)
    &&& k < to
    &&& forall|j: i32| #[trigger] m.dom().contains(j) && j < to ==> j <= k
}

impl IndexedValues {
    pub open spec fn wf(self) -> bool {
        sorted(self.entries@)
    }

    pub fn new() -> (r: Self)
        ensures
            r.wf(),
            r@ == Map::<i32, usize>::empty(),
    {
        IndexedValues { entries: Vec::new() }
    }

    /// The position of the first entry that is not below an index.
    fn position(&self, from: i32) -> (r: usize)
        requires
            self.wf(),
        ensures
            r <= self.entries@.len(),
            forall|i: int| 0 <= i < r ==> (#[trigger] self.entries@[i]).index < from,
            forall|i: int| r <= i < self.entries@.len() ==> (#[trigger] self.entries@[i]).index
                >= from,
    {
        let mut i: usize = 0;
        while i < self.entries.len() && self.entries[i].index < from
            invariant
                i <= self.entries@.len(),
                forall|j: int| 0 <= j < i ==> (#[trigger] self.entries@[j]).index < from,
            decreases self.entries@.len() - i,
        {
            i = i + 1;
        }
        proof {
            assert forall|j: int| i <= j < self.entries@.len() implies (
            #[trigger] self.entries@[j]).index >= from by {
                if i < j {
                    assert(self.entries@[i as int].index < self.entries@[j].index);
                }
            }
        }
        i
    }

    pub fn get(&self, k: i32) -> (r: Option<usize>)
        requires
            self.wf(),
        ensures
            match r {
                Some(v) => self@.dom().contains(k) && self@[k] == v,
                None => !self@.dom().contains(k),
            },
    {
        proof {
            lemma_by_index(self.entries@, k);
        }
        let p = self.position(k);
        if p < self.entries.len() && self.entries[p].index == k {
            assert(self.entries@[p as int].index == k);
            Some(self.entries[p].handle)
        } else {
            proof {
                assert forall|i: int| 0 <= i < self.entries@.len() implies (
                #[trigger] self.entries@[i]).index != k by {
                    if p < i {
                        assert(self.entries@[p as int].index < self.entries@[i].index);
                    }
                }
            }
            None
        }
    }

    pub fn insert(&mut self, k: i32, handle: usize)
        requires
            old(self).wf(),
        ensures
            final(self).wf(),
            final(self)@ == old(self)@.insert(k, handle),
    {
        let ghost before = self.entries@;
        let p = self.position(k);
        if p < self.entries.len() && self.entries[p].index == k {
            self.entries.set(p, IndexedValue { index: k, handle });
            proof {
                assert(sorted(self.entries@)) by {
                    assert forall|i: int, j: int| 0 <= i < j < self.entries@.len() implies (
                    #[trigger] self.entries@[i]).index < (#[trigger] self.entries@[j]).index by {
                        assert(before[i].index < before[j].index);
                    }
                }
            }
        } else {
            self.entries.insert(p, IndexedValue { index: k, handle });
            proof {
                let after = self.entries@;
                assert(after =~= before.insert(p as int, IndexedValue { index: k, handle }));
                assert forall|i: int, j: int| 0 <= i < j < after.len() implies (
                #[trigger] after[i]).index < (#[trigger] after[j]).index by {
                    let a = if i <= p {
                        i
                    } else {
                        i - 1
                    };
                    let b = if j <= p {
                        j
                    } else {
                        j - 1
                    };
                    if i != p && j != p {
                        assert(after[i] == before[a]);
                        assert(after[j] == before[b]);
                        assert(before[a].index < before[b].index);
                    } else if i == p {
                        assert(after[j] == before[b]);
                        assert(before[b].index >= k);
                        if b > p {
                            assert(before[p as int].index < before[b].index);
                        }
                    } else {
                        assert(after[i] == before[a]);
                        assert(before[a].index < k);
                    }
                }
            }
        }
        proof {
            let after = self.entries@;
            let target = by_index(before).insert(k, handle);
            assert(after[p as int] == (IndexedValue { index: k, handle }));
            assert forall|u: i32|
                #![trigger by_index(after).dom().contains(u)]
                by_index(after).dom().contains(u) == target.dom().contains(u) && (
                target.dom().contains(u) ==> by_index(after)[u] == target[u]) by {
                lemma_by_index(before, u);
                lemma_by_index(after, u);
                if u == k {
                    assert(after[p as int].index == u);
                } else {
                    if by_index(before).dom().contains(u) {
                        let i = choose|i: int|
                            0 <= i < before.len() && (#[trigger] before[i]).index == u;
                        let a = if after.len() == before.len() || i < p {
                            i
                        } else {
                            i + 1
                        };
                        assert(after[a] == before[i]);
                        assert(after[a].index == u);
                    }
                    if by_index(after).dom().contains(u) {
                        let a = choose|a: int|
                            0 <= a < after.len() && (#[trigger] after[a]).index == u;
                        let i = if after.len() == before.len() || a < p {
                            a
                        } else {
                            a - 1
                        };
                        assert(after[a] == before[i]);
                        assert(before[i].index == u);
                    }
                }
            }
            assert(by_index(after) =~= target);
        }
    }

    /// Removes an index, and says whether it was there.
    pub fn remove(&mut self, k: i32) -> (r: bool)
        requires
            old(self).wf(),
        ensures
            final(self).wf(),
            r == old(self)@.dom().contains(k),
            final(self)@ == old(self)@.remove(k),
    {
        let ghost before = self.entries@;
        proof {
            lemma_by_index(before, k);
        }
        let p = self.position(k);
        if p < self.entries.len() && self.entries[p].index == k {
            assert(before[p as int].index == k);
            self.entries.remove(p);
            proof {
                let after = self.entries@;
                assert(after =~= before.remove(p as int));
                assert forall|i: int, j: int| 0 <= i < j < after.len() implies (
                #[trigger] after[i]).index < (#[trigger] after[j]).index by {
                    let a = if i < p {
                        i
                    } else {
                        i + 1
                    };
                    let b = if j < p {
                        j
                    } else {
                        j + 1
                    };
                    assert(after[i] == before[a]);
                    assert(after[j] == before[b]);
                    assert(before[a].index < before[b].index);
                }
                let target = by_index(before).remove(k);
                assert forall|u: i32|
                    #![trigger by_index(after).dom().contains(u)]
                    by_index(after).dom().contains(u) == target.dom().contains(u) && (
                    target.dom().contains(u) ==> by_index(after)[u] == target[u]) by {
                    lemma_by_index(before, u);
                    lemma_by_index(after, u);
                    if by_index(before).dom().contains(u) && u != k {
                        let i = choose|i: int|
                            0 <= i < before.len() && (#[trigger] before[i]).index == u;
                        let a = if i < p {
                            i
                        } else {
                            i - 1
                        };
                        assert(after[a] == before[i]);
                        assert(after[a].index == u);
                    }
                    if by_index(after).dom().contains(u) {
                        let a = choose|a: int|
                            0 <= a < after.len() && (#[trigger] after[a]).index == u;
                        let i = if a < p {
                            a
                        } else {
                            a + 1
                        };
                        assert(after[a] == before[i]);
                        assert(before[i].index == u);
                        if a < p {
                            assert(before[i].index < before[p as int].index);
                        } else {
                            assert(before[p as int].index < before[i].index);
                        }
                    }
                }
                assert(by_index(after) =~= target);
            }
            true
        } else {
            proof {
                assert forall|i: int| 0 <= i < before.len() implies (#[trigger] before[i]).index
                    != k by {
                    if p < i {
                        assert(before[p as int].index < before[i].index);
                    }
                }
                assert(by_index(before).remove(k) =~= by_index(before));
            }
            false
        }
    }

    /// The smallest index that is not below `from`.
    pub fn first_from(&self, from: i32) -> (r: Option<i32>)
        requires
            self.wf(),
        ensures
            match r {
                Some(k) => least_from(self@, from, k),
                None => forall|j: i32| #[trigger] self@.dom().contains(j) ==> j < from,
            },
    {
        let p = self.position(from);
        proof {
            assert forall|j: i32| #[trigger]
                self@.dom().contains(j) && j >= from implies p < self.entries@.len()
                && self.entries@[p as int].index <= j by {
                lemma_by_index(self.entries@, j);
                let i = choose|i: int|
                    0 <= i < self.entries@.len() && (#[trigger] self.entries@[i]).index == j;
                if p < i {
                    assert(self.entries@[p as int].index < self.entries@[i].index);
                }
            }
        }
        if p < self.entries.len() {
            proof {
                lemma_by_index(self.entries@, self.entries@[p as int].index);
            }
            Some(self.entries[p].index)
        } else {
            None
        }
    }

    /// The greatest index below `to`.
    pub fn last_below(&self, to: i32) -> (r: Option<i32>)
        requires
            self.wf(),
        ensures
            match r {
                Some(k) => greatest_below(self@, to as int, k),
                None => forall|j: i32| #[trigger] self@.dom().contains(j) ==> j >= to,
            },
    {
        let p = self.position(to);
        proof {
            assert forall|j: i32| #[trigger] self@.dom().contains(j) && j < to implies p > 0
                && self.entries@[p - 1].index >= j by {
                lemma_by_index(self.entries@, j);
                let i = choose|i: int|
                    0 <= i < self.entries@.len() && (#[trigger] self.entries@[i]).index == j;
                if i < p - 1 {
                    assert(self.entries@[i].index < self.entries@[p - 1].index);
                }
            }
        }
        if p > 0 {
            proof {
                lemma_by_index(self.entries@, self.entries@[p - 1].index);
            }
            Some(self.entries[p - 1].index)
        } else {
            None
        }
    }

    /// The greatest index.
    pub fn last(&self) -> (r: Option<i32>)
        requires
            self.wf(),
        ensures
            match r {
                Some(k) => greatest(self@, k),
                None => self@ == Map::<i32, usize>::empty(),
            },
    {
        let n = self.entries.len();
        if n > 0 {
            proof {
                assert forall|j: i32| #[trigger] self@.dom().contains(j) implies j
                    <= self.entries@[n - 1].index by {
                    lemma_by_index(self.entries@, j);
                    let i = choose|i: int|
                        0 <= i < self.entries@.len() && (#[trigger] self.entries@[i]).index == j;
                    if i < n - 1 {
                        assert(self.entries@[i].index < self.entries@[n - 1].index);
                    }
                }
                lemma_by_index(self.entries@, self.entries@[n - 1].index);
            }
            Some(self.entries[n - 1].index)
        } else {
            None
        }
    }

    pub fn len(&self) -> (r: usize)
        requires
            self.wf(),
        ensures
            r == self@.dom().len(),
    {
        proof {
            lemma_by_index(self.entries@, 0);
        }
        self.entries.len()
    }
}

/// Stepping back from the next index leads to where the step began.
pub proof fn law_step_back_undoes_step(m: Map<i32, usize>, i: i32, j: i32, k: i32)
    requires
        m.dom().contains(i),
        i < i32::MAX,
        least_from(m, (i + 1) as i32, j),
        greatest_below(m, j as int, k),
    ensures
        k == i,
{
    assert(m.dom().contains(k) && m.dom().contains(i));
    if k > i {
        assert(k >= (i + 1) as i32);
    }
}

} // verus!
