//! A batch that is executed row by row, and what its rows give together.
use vstd::prelude::*;

use crate::errors::{runtime_error, Fault};
#[allow(unused_imports)]
use crate::errors::{fault_of_message, FaultView};
#[allow(unused_imports)]
use crate::cursor::Flavor;
#[allow(unused_imports)]
use crate::execute::{law_commit_follows_success, ExecuteCall, ExecuteReply, ExecuteRun};
use crate::text::owned;
use crate::value::{bind_rows_need_iterative_plsql, BindValue};
#[allow(unused_imports)]
use crate::value::{iterates, row_has_output};

verus! {

/// The values at one index.
pub struct IndexedList<V> {
    pub index: usize,
    pub values: Vec<V>,
}

/// Lists of values by index, in ascending order of the index.
pub struct IndexedLists<V> {
    pub entries: Vec<IndexedList<V>>,
}

impl<V> IndexedLists<V> {
    /// The indices ascend.
    pub open spec fn wf(self) -> bool {
        forall|i: int, j: int|
            0 <= i < j < self.entries@.len() ==> (#[trigger] self.entries@[i]).index < (
            #[trigger] self.entries@[j]).index
    }

    pub open spec fn has(self, k: usize) -> bool {
        exists|i: int| 0 <= i < self.entries@.len() && (#[trigger] self.entries@[i]).index == k
    }

    /// The values at index `k`, none if nothing was added there.
    pub open spec fn at(self, k: usize) -> Seq<V> {
        if self.has(k) {
            self.entries@[self.place(k)].values@
        } else {
            Seq::empty()
        }
    }

    pub open spec fn place(self, k: usize) -> int {
        choose|i: int| 0 <= i < self.entries@.len() && (#[trigger] self.entries@[i]).index == k
    }

    pub proof fn lemma_at(self, i: int)
        requires
            self.wf(),
            0 <= i < self.entries@.len(),
        ensures
            self.has(self.entries@[i].index),
            self.at(self.entries@[i].index) == self.entries@[i].values@,
    {
        let k = self.entries@[i].index;
        let p = self.place(k);
        assert(self.entries@[i].index == k);
        assert(0 <= p < self.entries@.len() && self.entries@[p].index == k);
        if p < i {
            assert(self.entries@[p].index < self.entries@[i].index);
        }
        if i < p {
            assert(self.entries@[i].index < self.entries@[p].index);
        }
    }

    pub fn new() -> (r: Self)
        ensures
            r.wf(),
            forall|k: usize| !r.has(k) && r.at(k) == Seq::<V>::empty(),
    {
        IndexedLists { entries: Vec::new() }
    }

    /// Adds values at an index, behind those that are there.
    pub fn extend(&mut self, index: usize, values: Vec<V>)
        requires
            old(self).wf(),
        ensures
            final(self).wf(),
            forall|k: usize|
                #![trigger final(self).at(k)]
                #![trigger final(self).has(k)]
                final(self).has(k) == (old(self).has(k) || k == index) && final(self).at(k)
                    == if k == index {
                    old(self).at(k) + values@
                } else {
                    old(self).at(k)
                },
    {
        let ghost before = *self;
        let mut i: usize = 0;
        while i < self.entries.len() && self.entries[i].index < index
            invariant
                *self == before,
                before.wf(),
                i <= self.entries@.len(),
                forall|j: int| 0 <= j < i ==> (#[trigger] self.entries@[j]).index < index,
            decreases self.entries@.len() - i,
        {
            i = i + 1;
        }
        let found = i < self.entries.len() && self.entries[i].index == index;
        let mut values = values;
        let ghost added = values@;
        let list = if found {
            let mut list = self.entries.remove(i);
            list.values.append(&mut values);
            list
        } else {
            IndexedList { index, values }
        };
        let ghost item = list;
        self.entries.insert(i, list);
        proof {
            let rest = if found {
                before.entries@.remove(i as int)
            } else {
                before.entries@
            };
            assert(self.entries@ == rest.insert(i as int, item));
            assert(item.index == index);
            assert forall|a: int, b: int| 0 <= a < b < self.entries@.len() implies (
            #[trigger] self.entries@[a]).index < (#[trigger] self.entries@[b]).index by {
                Self::lemma_after(before, *self, i as int, found, item, a);
                Self::lemma_after(before, *self, i as int, found, item, b);
                Self::lemma_order(before, i as int, found, a, b);
            }
            assert forall|k: usize|
                #![trigger self.at(k)]
                #![trigger self.has(k)]
                self.has(k) == (before.has(k) || k == index) && self.at(k) == if k == index {
                    before.at(k) + added
                } else {
                    before.at(k)
                } by {
                self.lemma_at(i as int);
                Self::lemma_after(before, *self, i as int, found, item, i as int);
                if k == index {
                    if found {
                        before.lemma_at(i as int);
                    } else if before.has(k) {
                        let p = before.place(k);
                        assert(before.entries@[p].index == k);
                        if p >= i && i < before.entries@.len() && p > i {
                            assert(before.entries@[i as int].index < before.entries@[p].index);
                        }
                    }
                    if !found {
                        assert(!before.has(k));
                        assert(before.at(k) + added =~= added);
                    }
                } else {
                    if before.has(k) {
                        let p = before.place(k);
                        before.lemma_at(p);
                        let q = if found || p < i {
                            p
                        } else {
                            p + 1
                        };
                        Self::lemma_after(before, *self, i as int, found, item, q);
                        self.lemma_at(q);
                    }
                    if self.has(k) {
                        let q = self.place(k);
                        Self::lemma_after(before, *self, i as int, found, item, q);
                        let p = if found || q < i {
                            q
                        } else {
                            q - 1
                        };
                        before.lemma_at(p);
                    }
                }
            }
        }
    }

    /// Where the entries of the old lists stand in the new ones.
    proof fn lemma_after(
        before: Self,
        after: Self,
        i: int,
        found: bool,
        item: IndexedList<V>,
        q: int,
    )
        requires
            0 <= i <= before.entries@.len(),
            found ==> i < before.entries@.len(),
            after.entries@ == (if found {
                before.entries@.remove(i)
            } else {
                before.entries@
            }).insert(i, item),
            0 <= q < after.entries@.len(),
        ensures
            after.entries@.len() == before.entries@.len() + if found {
                0int
            } else {
                1int
            },
            after.entries@[q] == if q == i {
                item
            } else if found || q < i {
                before.entries@[q]
            } else {
                before.entries@[q - 1]
            },
    {
    }

    proof fn lemma_order(before: Self, i: int, found: bool, a: int, b: int)
        requires
            before.wf(),
            0 <= i <= before.entries@.len(),
            0 <= a < b,
            b < before.entries@.len() + if found {
                0int
            } else {
                1int
            },
        ensures
            a != i && b != i ==> {
                let p = if found || a < i {
                    a
                } else {
                    a - 1
                };
                let q = if found || b < i {
                    b
                } else {
                    b - 1
                };
                p < q && before.entries@[p].index < before.entries@[q].index
            },
    {
    }
}

/// What the execution of one row gives.
pub struct RowResult<V> {
    pub row_count: u64,
    pub compilation_error_warning: bool,
    pub last_rowid: Option<String>,
    /// The output values by the index of their bind.
    pub out_values: Vec<OutValue<V>>,
    /// The values of a `RETURNING` clause by the index of their bind.
    pub return_values: Vec<IndexedList<V>>,
}

pub struct OutValue<V> {
    pub index: usize,
    pub value: V,
}

/// The output values of bind `k` among the first `n`, in order.
pub open spec fn outs_at<V>(outs: Seq<OutValue<V>>, k: usize, n: int) -> Seq<V>
    decreases n,
{
    if n <= 0 {
        Seq::empty()
    } else if outs[n - 1].index == k {
        outs_at(outs, k, n - 1).push(outs[n - 1].value)
    } else {
        outs_at(outs, k, n - 1)
    }
}

/// The returned values of bind `k` among the first `n` lists, in order.
pub open spec fn returns_at<V>(lists: Seq<IndexedList<V>>, k: usize, n: int) -> Seq<V>
    decreases n,
{
    if n <= 0 {
        Seq::empty()
    } else if lists[n - 1].index == k {
        returns_at(lists, k, n - 1) + lists[n - 1].values@
    } else {
        returns_at(lists, k, n - 1)
    }
}

/// There is an output value of bind `k`.
pub open spec fn outs_name<V>(outs: Seq<OutValue<V>>, k: usize) -> bool {
    exists|i: int| 0 <= i < outs.len() && (#[trigger] outs[i]).index == k
}

/// There is a list of returned values of bind `k`, which may be empty.
pub open spec fn returns_name<V>(lists: Seq<IndexedList<V>>, k: usize) -> bool {
    exists|i: int| 0 <= i < lists.len() && (#[trigger] lists[i]).index == k
}

/// What the rows of a batch gave so far.
pub struct BatchTotals<V> {
    pub row_count: u64,
    pub compilation_error_warning: bool,
    pub last_rowid: Option<String>,
    pub out_values: IndexedLists<V>,
    pub return_values: IndexedLists<V>,
}

pub open spec fn saturating_sum(a: u64, b: u64) -> u64 {
    if a + b > u64::MAX {
        u64::MAX
    } else {
        (a + b) as u64
    }
}

impl<V> BatchTotals<V> {
    /// What one more row adds.
    pub open spec fn absorbed(self, after: BatchTotals<V>, row: RowResult<V>) -> bool {
        &&& after.row_count == saturating_sum(self.row_count, row.row_count)
        &&& after.compilation_error_warning == (self.compilation_error_warning
            || row.compilation_error_warning)
        &&& after.last_rowid == row.last_rowid
        &&& forall|k: usize|
            #[trigger] after.out_values.at(k) == self.out_values.at(k) + outs_at(
                row.out_values@,
                k,
                row.out_values@.len() as int,
            )
        &&& forall|k: usize|
            #[trigger] after.return_values.at(k) == self.return_values.at(k) + returns_at(
                row.return_values@,
                k,
                row.return_values@.len() as int,
            )
        &&& forall|k: usize| #[trigger]
            after.out_values.has(k) == (self.out_values.has(k) || outs_name(row.out_values@, k))
        &&& forall|k: usize| #[trigger]
            after.return_values.has(k) == (self.return_values.has(k) || returns_name(
                row.return_values@,
                k,
            ))
    }

    pub open spec fn wf(self) -> bool {
        self.out_values.wf() && self.return_values.wf()
    }

    pub fn new() -> (r: Self)
        ensures
            r.wf(),
            r.row_count == 0,
            !r.compilation_error_warning,
            r.last_rowid is None,
            forall|k: usize|
                #![trigger r.out_values.at(k)]
                #![trigger r.out_values.has(k)]
                !r.out_values.has(k) && r.out_values.at(k) == Seq::<V>::empty(),
            forall|k: usize|
                #![trigger r.return_values.at(k)]
                #![trigger r.return_values.has(k)]
                !r.return_values.has(k) && r.return_values.at(k) == Seq::<V>::empty(),
    {
        BatchTotals {
            row_count: 0,
            compilation_error_warning: false,
            last_rowid: None,
            out_values: IndexedLists::new(),
            return_values: IndexedLists::new(),
        }
    }

    /// Adds what one more row gave.
    pub fn absorb(&mut self, row: RowResult<V>)
        requires
            old(self).wf(),
        ensures
            final(self).wf(),
            old(self).absorbed(*final(self), row),
    {
        let row_count: u64 = if row.row_count > u64::MAX - self.row_count {
            u64::MAX
        } else {
            self.row_count + row.row_count
        };
        self.row_count = row_count;
        self.compilation_error_warning = self.compilation_error_warning
            || row.compilation_error_warning;
        self.last_rowid = row.last_rowid;
        let mut outs = row.out_values;
        self.add_outs(&mut outs);
        let mut lists = row.return_values;
        self.add_returns(&mut lists);
    }

    fn add_outs(&mut self, outs: &mut Vec<OutValue<V>>)
        requires
            old(self).wf(),
        ensures
            final(self).out_values.wf(),
            *final(self) == (BatchTotals { out_values: final(self).out_values, ..*old(self) }),
            forall|k: usize|
                #[trigger] final(self).out_values.at(k) == old(self).out_values.at(k) + outs_at(
                    old(outs)@,
                    k,
                    old(outs)@.len() as int,
                ),
            forall|k: usize| #[trigger]
                final(self).out_values.has(k) == (old(self).out_values.has(k) || outs_name(
                    old(outs)@,
                    k,
                )),
        decreases old(outs)@.len(),
    {
        let ghost before = *self;
        let ghost given = outs@;
        match outs.pop() {
            None => {
                proof {
                    assert forall|k: usize|
                        #[trigger] self.out_values.at(k) == before.out_values.at(k) + outs_at(
                            given,
                            k,
                            given.len() as int,
                        ) by {
                        assert(before.out_values.at(k) + Seq::<V>::empty()
                            =~= before.out_values.at(k));
                    }
                }
            },
            Some(last) => {
                let ghost rest = outs@;
                let ghost taken = last;
                self.add_outs(outs);
                let ghost middle = *self;
                let mut one: Vec<V> = Vec::new();
                let index = last.index;
                one.push(last.value);
                self.out_values.extend(index, one);
                proof {
                    assert forall|k: usize| #[trigger]
                        self.out_values.has(k) == (before.out_values.has(k) || outs_name(
                            given,
                            k,
                        )) by {
                        assert(given[given.len() - 1] == taken);
                        assert(middle.out_values.has(k) == (before.out_values.has(k) || outs_name(
                            rest,
                            k,
                        )));
                        if outs_name(rest, k) {
                            let i = choose|i: int|
                                0 <= i < rest.len() && (#[trigger] rest[i]).index == k;
                            assert(given[i].index == k);
                        }
                        if outs_name(given, k) && k != index {
                            let i = choose|i: int|
                                0 <= i < given.len() && (#[trigger] given[i]).index == k;
                            assert(rest[i].index == k);
                        }
                    }
                    assert forall|k: usize|
                        #[trigger] self.out_values.at(k) == before.out_values.at(k) + outs_at(
                            given,
                            k,
                            given.len() as int,
                        ) by {
                        lemma_outs_prefix(given, rest, k, rest.len() as int);
                        assert(middle.out_values.at(k) == before.out_values.at(k) + outs_at(
                            rest,
                            k,
                            rest.len() as int,
                        ));
                        if k == index {
                            assert(self.out_values.at(k) =~= middle.out_values.at(k).push(
                                taken.value,
                            ));
                            assert(before.out_values.at(k) + outs_at(
                                rest,
                                k,
                                rest.len() as int,
                            ).push(taken.value) =~= (before.out_values.at(k) + outs_at(
                                rest,
                                k,
                                rest.len() as int,
                            )).push(taken.value));
                        }
                    }
                }
            },
        }
    }

    fn add_returns(&mut self, lists: &mut Vec<IndexedList<V>>)
        requires
            old(self).wf(),
        ensures
            final(self).wf(),
            *final(self) == (BatchTotals {
                return_values: final(self).return_values,
                ..*old(self)
            }),
            forall|k: usize|
                #[trigger] final(self).return_values.at(k) == old(self).return_values.at(k)
                    + returns_at(old(lists)@, k, old(lists)@.len() as int),
            forall|k: usize| #[trigger]
                final(self).return_values.has(k) == (old(self).return_values.has(k)
                    || returns_name(old(lists)@, k)),
        decreases old(lists)@.len(),
    {
        let ghost before = *self;
        let ghost given = lists@;
        match lists.pop() {
            None => {
                proof {
                    assert forall|k: usize|
                        #[trigger] self.return_values.at(k) == before.return_values.at(k)
                            + returns_at(given, k, given.len() as int) by {
                        assert(before.return_values.at(k) + Seq::<V>::empty()
                            =~= before.return_values.at(k));
                    }
                }
            },
            Some(last) => {
                let ghost rest = lists@;
                let ghost taken = last;
                self.add_returns(lists);
                let ghost middle = *self;
                self.return_values.extend(last.index, last.values);
                proof {
                    assert forall|k: usize| #[trigger]
                        self.return_values.has(k) == (before.return_values.has(k)
                            || returns_name(given, k)) by {
                        assert(given[given.len() - 1] == taken);
                        assert(middle.return_values.has(k) == (before.return_values.has(k)
                            || returns_name(rest, k)));
                        if returns_name(rest, k) {
                            let i = choose|i: int|
                                0 <= i < rest.len() && (#[trigger] rest[i]).index == k;
                            assert(given[i].index == k);
                        }
                        if returns_name(given, k) && k != taken.index {
                            let i = choose|i: int|
                                0 <= i < given.len() && (#[trigger] given[i]).index == k;
                            assert(rest[i].index == k);
                        }
                    }
                    assert forall|k: usize|
                        #[trigger] self.return_values.at(k) == before.return_values.at(k)
                            + returns_at(given, k, given.len() as int) by {
                        lemma_returns_prefix(given, rest, k, rest.len() as int);
                        assert(middle.return_values.at(k) == before.return_values.at(k)
                            + returns_at(rest, k, rest.len() as int));
                        if k == taken.index {
                            assert(before.return_values.at(k) + (returns_at(
                                rest,
                                k,
                                rest.len() as int,
                            ) + taken.values@) =~= (before.return_values.at(k) + returns_at(
                                rest,
                                k,
                                rest.len() as int,
                            )) + taken.values@);
                        }
                    }
                }
            },
        }
    }
}

proof fn lemma_outs_prefix<V>(longer: Seq<OutValue<V>>, shorter: Seq<OutValue<V>>, k: usize, n: int)
    requires
        0 <= n <= shorter.len() <= longer.len(),
        forall|i: int| 0 <= i < shorter.len() ==> longer[i] == shorter[i],
    ensures
        outs_at(longer, k, n) == outs_at(shorter, k, n),
    decreases n,
{
    if n > 0 {
        lemma_outs_prefix(longer, shorter, k, n - 1);
    }
}

proof fn lemma_returns_prefix<V>(
    longer: Seq<IndexedList<V>>,
    shorter: Seq<IndexedList<V>>,
    k: usize,
    n: int,
)
    requires
        0 <= n <= shorter.len() <= longer.len(),
        forall|i: int| 0 <= i < shorter.len() ==> longer[i] == shorter[i],
    ensures
        returns_at(longer, k, n) == returns_at(shorter, k, n),
    decreases n,
{
    if n > 0 {
        lemma_returns_prefix(longer, shorter, k, n - 1);
    }
}

/// No row binds anything.
pub open spec fn all_rows_empty(rows: Seq<Vec<BindValue>>) -> bool {
    forall|i: int| 0 <= i < rows.len() ==> (#[trigger] rows[i])@.len() == 0
}

pub open spec fn row_by_row(is_plsql: bool, rows: Seq<Vec<BindValue>>) -> bool {
    all_rows_empty(rows) || iterates(is_plsql, rows)
}

/// Whether a batch is executed row by row: no row binds anything, or a PL/SQL block gives output.
pub fn executes_row_by_row(is_plsql: bool, rows: &Vec<Vec<BindValue>>) -> (r: bool)
    ensures
        r == row_by_row(is_plsql, rows@),
{
    let mut i: usize = 0;
    while i < rows.len() && rows[i].len() == 0
        invariant
            i <= rows@.len(),
            forall|j: int| 0 <= j < i ==> (#[trigger] rows@[j])@.len() == 0,
        decreases rows@.len() - i,
    {
        i = i + 1;
    }
    if i == rows.len() {
        return true;
    }
    proof {
        assert(rows@[i as int]@.len() != 0);
    }
    bind_rows_need_iterative_plsql(is_plsql, rows)
}

pub open spec fn failed_row(is_plsql: bool, start: usize, row: usize) -> Option<usize> {
    if is_plsql {
        Some((start + row) as usize)
    } else {
        None
    }
}

/// The row that an error of a PL/SQL batch is reported for: the row that failed, or the first one of
/// a batch that was executed at once. Other statements report no row.
pub fn plsql_row_offset(is_plsql: bool, start: usize, row: usize) -> (r: Option<usize>)
    requires
        start + row <= usize::MAX,
    ensures
        r == failed_row(is_plsql, start, row),
{
    if is_plsql {
        Some(start + row)
    } else {
        None
    }
}

/// The next execution of a batch.
#[derive(Clone, Copy, PartialEq, Eq, Structural, Debug)]
pub enum BatchCall {
    /// Execute a part of the batch: the row of that index, or all rows at once as the only part.
    Execute(usize),
    /// None: the batch succeeded.
    Done,
    /// None: the batch failed with the last part.
    Failed,
}

/// What a part of a batch was answered with.
#[derive(Clone, Copy, PartialEq, Eq, Structural, Debug)]
pub struct BatchReply {
    pub succeeded: bool,
    /// The execution opened a result set.
    pub has_columns: bool,
}

/// How far the parts of a batch have come.
#[derive(Clone, Copy, PartialEq, Eq, Structural, Debug)]
pub struct BatchRun {
    pub parts: usize,
    pub row_by_row: bool,
    /// The parts that were executed.
    pub executed: usize,
    /// The batch opened a result set. The rows of a batch that is executed row by row do not.
    pub has_columns: bool,
    pub failed: bool,
}

impl BatchRun {
    pub open spec fn started(row_by_row: bool, rows: usize) -> BatchRun {
        BatchRun {
            parts: if row_by_row {
                rows
            } else {
                1
            },
            row_by_row,
            executed: 0,
            has_columns: false,
            failed: false,
        }
    }

    pub open spec fn next_call(self) -> BatchCall {
        if self.failed {
            BatchCall::Failed
        } else if self.executed < self.parts {
            BatchCall::Execute(self.executed)
        } else {
            BatchCall::Done
        }
    }

    pub open spec fn answered(self, reply: BatchReply) -> BatchRun {
        if !reply.succeeded {
            BatchRun { failed: true, ..self }
        } else {
            BatchRun {
                executed: (self.executed + 1) as usize,
                has_columns: !self.row_by_row && reply.has_columns,
                ..self
            }
        }
    }

    pub fn start(row_by_row: bool, rows: usize) -> (r: BatchRun)
        ensures
            r == BatchRun::started(row_by_row, rows),
    {
        BatchRun {
            parts: if row_by_row {
                rows
            } else {
                1
            },
            row_by_row,
            executed: 0,
            has_columns: false,
            failed: false,
        }
    }

    pub fn call(&self) -> (r: BatchCall)
        ensures
            r == self.next_call(),
    {
        if self.failed {
            BatchCall::Failed
        } else if self.executed < self.parts {
            BatchCall::Execute(self.executed)
        } else {
            BatchCall::Done
        }
    }

    pub fn answer(&mut self, reply: BatchReply)
        requires
            old(self).next_call() is Execute,
        ensures
            *final(self) == old(self).answered(reply),
    {
        if !reply.succeeded {
            self.failed = true;
        } else {
            self.executed = self.executed + 1;
            self.has_columns = !self.row_by_row && reply.has_columns;
        }
    }

    /// The batch after the first `n` replies.
    pub open spec fn after(self, replies: Seq<BatchReply>, n: int) -> BatchRun
        decreases n,
    {
        if n <= 0 {
            self
        } else {
            self.after(replies, n - 1).answered(replies[n - 1])
        }
    }

    /// The call behind the first `n` replies.
    pub open spec fn call_at(self, replies: Seq<BatchReply>, n: int) -> BatchCall {
        self.after(replies, n).next_call()
    }

    /// Each reply answers an execution.
    pub open spec fn is_answered_by(self, replies: Seq<BatchReply>) -> bool {
        forall|i: int|
            0 <= i < replies.len() ==> #[trigger] self.call_at(replies, i) is Execute
    }

    /// The reply that the whole batch stands for among the calls of its statement.
    pub open spec fn is_reported_by(self, reply: ExecuteReply) -> bool {
        &&& reply.succeeded <==> self.next_call() is Done
        &&& reply.succeeded ==> reply.has_columns == self.has_columns
    }

    proof fn lemma_after(run: BatchRun, replies: Seq<BatchReply>, n: int)
        requires
            run.executed == 0 && !run.has_columns && !run.failed,
            run.is_answered_by(replies),
            0 <= n <= replies.len(),
        ensures
            ({
                let s = run.after(replies, n);
                &&& s.parts == run.parts && s.row_by_row == run.row_by_row
                &&& s.failed ==> n > 0 && !replies[n - 1].succeeded
                &&& !s.failed ==> {
                    &&& forall|i: int| 0 <= i < n ==> (#[trigger] replies[i]).succeeded
                    &&& s.executed == n
                    &&& n <= run.parts
                    &&& s.has_columns == (n > 0 && !run.row_by_row && replies[n - 1].has_columns)
                }
            }),
        decreases n,
    {
        if n > 0 {
            Self::lemma_after(run, replies, n - 1);
            assert(run.call_at(replies, n - 1) is Execute);
        }
    }
}

/// A batch executes each part once, in order, until one fails; it succeeds where each part did.
/// `i` is any point of the batch: so many replies have come.
pub proof fn law_batch_executes_each_part(
    row_by_row: bool,
    rows: usize,
    replies: Seq<BatchReply>,
    i: int,
)
    requires
        BatchRun::started(row_by_row, rows).is_answered_by(replies),
        0 <= i <= replies.len(),
    ensures
        ({
            let run = BatchRun::started(row_by_row, rows);
            let parts = if row_by_row {
                rows as int
            } else {
                1
            };
            let all = forall|j: int| 0 <= j < i ==> (#[trigger] replies[j]).succeeded;
            &&& run.call_at(replies, i) == if !all {
                BatchCall::Failed
            } else if i < parts {
                BatchCall::Execute(i as usize)
            } else {
                BatchCall::Done
            }
            &&& i <= parts
        }),
{
    let run = BatchRun::started(row_by_row, rows);
    BatchRun::lemma_after(run, replies, i);
    if i > 0 {
        assert(run.call_at(replies, i - 1) is Execute);
        BatchRun::lemma_after(run, replies, i - 1);
    }
}

/// A batch is committed only where each of its parts succeeded and none opened a result set that
/// counts. It is committed once, behind all of them: the commit is one of the calls of
/// [`crate::execute::law_execution_order`].
pub proof fn law_batch_commits_behind_every_part(
    row_by_row: bool,
    rows: usize,
    parts: Seq<BatchReply>,
    flavor: Flavor,
    is_plsql: bool,
    autocommit: bool,
    replies: Seq<ExecuteReply>,
    n: int,
)
    requires
        BatchRun::started(row_by_row, rows).is_answered_by(parts),
        0 <= n <= replies.len(),
        ExecuteRun::started(flavor, true, is_plsql, autocommit).call_at(replies, n)
            == ExecuteCall::Commit,
        BatchRun::started(row_by_row, rows).after(parts, parts.len() as int).is_reported_by(
            replies[ExecuteRun::started(flavor, true, is_plsql, autocommit).executes_at() - 1],
        ),
    ensures
        parts.len() == if row_by_row {
            rows as int
        } else {
            1
        },
        forall|j: int| 0 <= j < parts.len() ==> (#[trigger] parts[j]).succeeded,
        !row_by_row ==> !parts[0].has_columns,
{
    law_commit_follows_success(flavor, true, is_plsql, autocommit, replies, n);
    let run = BatchRun::started(row_by_row, rows);
    BatchRun::lemma_after(run, parts, parts.len() as int);
    law_batch_executes_each_part(row_by_row, rows, parts, parts.len() as int);
}

/// Why the rows of a batch cannot be cut into windows.
pub enum BatchWindowError {
    ZeroBatchSize,
    /// There are more rows than can be counted; the message says so.
    RowCountOverflow(String),
}

/// What a batch that cannot be cut into windows is refused with.
pub fn executemany_manager_error(err: &BatchWindowError) -> (r: Fault)
    ensures
        r@ == match *err {
            BatchWindowError::ZeroBatchSize => FaultView::TypeError(
                "batch_size must be greater than zero"@,
            ),
            BatchWindowError::RowCountOverflow(m) => fault_of_message(m@),
        },
{
    match err {
        BatchWindowError::ZeroBatchSize => Fault::TypeError(
            owned("batch_size must be greater than zero"),
        ),
        BatchWindowError::RowCountOverflow(m) => runtime_error(m.as_str()),
    }
}

/// The output values of a bind are all of its values and no other, in the order in which they came.
pub proof fn law_outputs_stay_in_order<V>(outs: Seq<OutValue<V>>, k: usize, n: int)
    requires
        0 <= n <= outs.len(),
    ensures
        outs_at(outs, k, n) == outs.take(n).filter(|o: OutValue<V>| o.index == k).map_values(
            |o: OutValue<V>| o.value,
        ),
    decreases n,
{
    let named = |o: OutValue<V>| o.index == k;
    let value = |o: OutValue<V>| o.value;
    reveal(Seq::filter);
    if n > 0 {
        law_outputs_stay_in_order(outs, k, n - 1);
        assert(outs.take(n).drop_last() =~= outs.take(n - 1));
        assert(outs.take(n).last() == outs[n - 1]);
        let before = outs.take(n - 1).filter(named);
        if named(outs[n - 1]) {
            assert(outs.take(n).filter(named) == before.push(outs[n - 1]));
            assert(before.push(outs[n - 1]).map_values(value) =~= before.map_values(value).push(
                outs[n - 1].value,
            ));
        }
        assert(outs_at(outs, k, n) =~= outs.take(n).filter(named).map_values(value));
    } else {
        assert(outs.take(0).filter(named).map_values(value) =~= Seq::empty());
    }
}

/// A row with one list of returned values for a bind returns that list; without one it returns
/// nothing.
pub proof fn law_returned_values_are_those_of_the_bind<V>(
    lists: Seq<IndexedList<V>>,
    k: usize,
    i: int,
    n: int,
)
    requires
        0 <= n <= lists.len(),
        forall|j: int| 0 <= j < n && j != i ==> (#[trigger] lists[j]).index != k,
        0 <= i < n ==> lists[i].index == k,
    ensures
        returns_at(lists, k, n) == if 0 <= i < n {
            lists[i].values@
        } else {
            Seq::empty()
        },
    decreases n,
{
    if n > 0 {
        if i == n - 1 {
            law_returned_values_are_those_of_the_bind(lists, k, i, n - 1);
            assert(returns_at(lists, k, n) =~= lists[i].values@);
        } else {
            assert(lists[n - 1].index != k);
            law_returned_values_are_those_of_the_bind(lists, k, i, n - 1);
        }
    }
}

/// The rows of a batch add up: the counts are summed, a warning of any row stays, the row id is that
/// of the last row, and the values of each bind stand one after the other in the order of the rows.
pub proof fn law_rows_of_a_batch_add_up<V>(
    start: BatchTotals<V>,
    one: BatchTotals<V>,
    two: BatchTotals<V>,
    a: RowResult<V>,
    b: RowResult<V>,
    k: usize,
)
    requires
        start.absorbed(one, a),
        one.absorbed(two, b),
    ensures
        start.row_count + a.row_count + b.row_count <= u64::MAX ==> two.row_count
            == start.row_count + a.row_count + b.row_count,
        start.row_count + a.row_count + b.row_count > u64::MAX ==> two.row_count == u64::MAX,
        two.compilation_error_warning <==> start.compilation_error_warning
            || a.compilation_error_warning || b.compilation_error_warning,
        two.last_rowid == b.last_rowid,
        two.out_values.at(k) == start.out_values.at(k) + outs_at(
            a.out_values@,
            k,
            a.out_values@.len() as int,
        ) + outs_at(b.out_values@, k, b.out_values@.len() as int),
        two.return_values.at(k) == start.return_values.at(k) + returns_at(
            a.return_values@,
            k,
            a.return_values@.len() as int,
        ) + returns_at(b.return_values@, k, b.return_values@.len() as int),
{
    assert(one.out_values.at(k) == start.out_values.at(k) + outs_at(
        a.out_values@,
        k,
        a.out_values@.len() as int,
    ));
    assert(one.return_values.at(k) == start.return_values.at(k) + returns_at(
        a.return_values@,
        k,
        a.return_values@.len() as int,
    ));
}

/// A batch is executed at once unless no row binds anything or a PL/SQL block has an output; an error
/// of a PL/SQL row names the row in the whole batch.
pub proof fn law_batches_run_at_once(
    is_plsql: bool,
    rows: Seq<Vec<BindValue>>,
    start: usize,
    row: usize,
    i: int,
)
    requires
        start + row <= usize::MAX,
    ensures
        !is_plsql && 0 <= i < rows.len() && rows[i]@.len() > 0 ==> !row_by_row(is_plsql, rows),
        (forall|j: int| 0 <= j < rows.len() ==> (#[trigger] rows[j])@.len() == 0) ==> row_by_row(
            is_plsql,
            rows,
        ),
        iterates(is_plsql, rows) ==> row_by_row(is_plsql, rows),
        !iterates(is_plsql, rows) && 0 <= i < rows.len() && rows[i]@.len() > 0 ==> !row_by_row(
            is_plsql,
            rows,
        ),
        is_plsql ==> failed_row(is_plsql, start, row) == Some((start + row) as usize),
        !is_plsql ==> failed_row(is_plsql, start, row) is None,
{
}

} // verus!
