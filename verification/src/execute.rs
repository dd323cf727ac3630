//! The calls that the execution of a statement makes, in their order.
use vstd::prelude::*;

use crate::cursor::Flavor;
use crate::value::BindValue;

verus! {

/// What an execution does next.
#[derive(Clone, Copy, PartialEq, Eq, Structural, Debug)]
pub enum ExecuteCall {
    /// Gives the server's cursor of the execution before back, so that the same statement can
    /// take it up again. A batch keeps it.
    ReleaseCursor,
    /// Sets the schema that is pending, if one is.
    ApplySchema,
    /// Makes temporary LOBs of the values that are declared as such.
    StoreTypedLobs,
    /// Makes temporary LOBs of the values that are too long to bind in PL/SQL.
    StoreLongBinds,
    /// Executes the statement with the rows of [`bind_rows`], or with those of the batch.
    Execute,
    /// Keeps the errors and row counts of the batch's single rows.
    RecordBatch,
    /// Looks whether the user cancelled the statement meanwhile.
    CheckCancel,
    /// Asks which columns hold JSON.
    LookUpJson,
    /// Hands the output values to the variables.
    TakeOutputs,
    /// Clears the cursors that were bound as values.
    ResetCursors,
    Commit,
    /// Nothing: the execution is complete.
    Done,
    /// Nothing: the execution failed with the last call.
    Failed,
}

/// What a call of an execution was answered with.
#[derive(Clone, Copy, PartialEq, Eq, Structural, Debug)]
pub struct ExecuteReply {
    pub succeeded: bool,
    /// The statement opened a result set.
    pub has_columns: bool,
    /// The connection is set to commit by itself when the reply comes.
    pub autocommit: bool,
}

/// How far an execution has come.
#[derive(Clone, Copy, PartialEq, Eq, Structural, Debug)]
pub struct ExecuteRun {
    pub flavor: Flavor,
    /// The statement is executed for a batch of rows.
    pub many: bool,
    pub is_plsql: bool,
    /// The statement is to be committed if it opens no result set. An awaited execution goes by
    /// what was set at its start.
    pub autocommit: bool,
    pub has_columns: bool,
    pub call: ExecuteCall,
}

impl ExecuteRun {
    pub open spec fn commits(self) -> bool {
        self.autocommit && !self.has_columns
    }

    /// The call that stands behind the present one, once that has succeeded.
    pub open spec fn following(self) -> ExecuteCall {
        let blocking = self.flavor == Flavor::Blocking;
        match self.call {
            ExecuteCall::ReleaseCursor => ExecuteCall::ApplySchema,
            ExecuteCall::ApplySchema => ExecuteCall::StoreTypedLobs,
            ExecuteCall::StoreTypedLobs => if self.is_plsql {
                ExecuteCall::StoreLongBinds
            } else {
                ExecuteCall::Execute
            },
            ExecuteCall::StoreLongBinds => ExecuteCall::Execute,
            ExecuteCall::Execute => if !blocking {
                ExecuteCall::LookUpJson
            } else if self.many {
                ExecuteCall::RecordBatch
            } else {
                ExecuteCall::CheckCancel
            },
            ExecuteCall::RecordBatch => if !blocking {
                ExecuteCall::TakeOutputs
            } else if self.commits() {
                ExecuteCall::Commit
            } else {
                ExecuteCall::CheckCancel
            },
            ExecuteCall::CheckCancel => if blocking {
                ExecuteCall::LookUpJson
            } else if self.many {
                ExecuteCall::RecordBatch
            } else {
                ExecuteCall::TakeOutputs
            },
            ExecuteCall::LookUpJson => if blocking {
                ExecuteCall::TakeOutputs
            } else if self.commits() {
                ExecuteCall::Commit
            } else {
                ExecuteCall::CheckCancel
            },
            ExecuteCall::TakeOutputs => if self.many {
                ExecuteCall::Done
            } else {
                ExecuteCall::ResetCursors
            },
            ExecuteCall::ResetCursors => if blocking && self.commits() {
                ExecuteCall::Commit
            } else {
                ExecuteCall::Done
            },
            ExecuteCall::Commit => if blocking && !self.many {
                ExecuteCall::Done
            } else {
                ExecuteCall::CheckCancel
            },
            ExecuteCall::Done => ExecuteCall::Done,
            ExecuteCall::Failed => ExecuteCall::Failed,
        }
    }

    pub open spec fn started(
        flavor: Flavor,
        many: bool,
        is_plsql: bool,
        autocommit: bool,
    ) -> ExecuteRun {
        ExecuteRun {
            flavor,
            many,
            is_plsql,
            autocommit,
            has_columns: false,
            call: if many {
                ExecuteCall::ApplySchema
            } else {
                ExecuteCall::ReleaseCursor
            },
        }
    }

    pub open spec fn answered(self, reply: ExecuteReply) -> ExecuteRun {
        if reply.succeeded {
            let known = ExecuteRun {
                has_columns: if self.call == ExecuteCall::Execute {
                    reply.has_columns
                } else {
                    self.has_columns
                },
                autocommit: if self.flavor == Flavor::Blocking {
                    reply.autocommit
                } else {
                    self.autocommit
                },
                ..self
            };
            ExecuteRun { call: known.following(), ..known }
        } else {
            ExecuteRun { call: ExecuteCall::Failed, ..self }
        }
    }

    pub fn start(flavor: Flavor, many: bool, is_plsql: bool, autocommit: bool) -> (r: ExecuteRun)
        ensures
            r == ExecuteRun::started(flavor, many, is_plsql, autocommit),
    {
        let call = if many {
            ExecuteCall::ApplySchema
        } else {
            ExecuteCall::ReleaseCursor
        };
        ExecuteRun { flavor, many, is_plsql, autocommit, has_columns: false, call }
    }

    fn next(&self) -> (r: ExecuteCall)
        ensures
            r == self.following(),
    {
        let blocking = self.flavor == Flavor::Blocking;
        let commits = self.autocommit && !self.has_columns;
        match self.call {
            ExecuteCall::ReleaseCursor => ExecuteCall::ApplySchema,
            ExecuteCall::ApplySchema => ExecuteCall::StoreTypedLobs,
            ExecuteCall::StoreTypedLobs if self.is_plsql => ExecuteCall::StoreLongBinds,
            ExecuteCall::StoreTypedLobs | ExecuteCall::StoreLongBinds => ExecuteCall::Execute,
            ExecuteCall::Execute if !blocking => ExecuteCall::LookUpJson,
            ExecuteCall::Execute if self.many => ExecuteCall::RecordBatch,
            ExecuteCall::Execute => ExecuteCall::CheckCancel,
            ExecuteCall::RecordBatch if !blocking => ExecuteCall::TakeOutputs,
            ExecuteCall::CheckCancel if blocking => ExecuteCall::LookUpJson,
            ExecuteCall::CheckCancel if self.many => ExecuteCall::RecordBatch,
            ExecuteCall::CheckCancel => ExecuteCall::TakeOutputs,
            ExecuteCall::LookUpJson if blocking => ExecuteCall::TakeOutputs,
            ExecuteCall::RecordBatch if commits => ExecuteCall::Commit,
            ExecuteCall::LookUpJson if commits => ExecuteCall::Commit,
            ExecuteCall::RecordBatch | ExecuteCall::LookUpJson => ExecuteCall::CheckCancel,
            ExecuteCall::TakeOutputs if !self.many => ExecuteCall::ResetCursors,
            ExecuteCall::ResetCursors if blocking && commits => ExecuteCall::Commit,
            ExecuteCall::Commit if self.many || !blocking => ExecuteCall::CheckCancel,
            ExecuteCall::TakeOutputs
            | ExecuteCall::ResetCursors
            | ExecuteCall::Commit
            | ExecuteCall::Done => ExecuteCall::Done,
            ExecuteCall::Failed => ExecuteCall::Failed,
        }
    }

    pub fn answer(&mut self, reply: ExecuteReply)
        ensures
            *final(self) == old(self).answered(reply),
    {
        if !reply.succeeded {
            self.call = ExecuteCall::Failed;
            return;
        }
        if self.call == ExecuteCall::Execute {
            self.has_columns = reply.has_columns;
        }
        if self.flavor == Flavor::Blocking {
            self.autocommit = reply.autocommit;
        }
        self.call = self.next();
    }

    /// The execution after the first `n` replies.
    pub open spec fn after(self, replies: Seq<ExecuteReply>, n: int) -> ExecuteRun
        decreases n,
    {
        if n <= 0 {
            self
        } else {
            self.after(replies, n - 1).answered(replies[n - 1])
        }
    }

    /// The call behind the first `n` replies.
    pub open spec fn call_at(self, replies: Seq<ExecuteReply>, n: int) -> ExecuteCall {
        self.after(replies, n).call
    }
}

/// The calls in front of the statement, and the statement itself.
pub open spec fn calls_to_execute(many: bool, is_plsql: bool) -> Seq<ExecuteCall> {
    let release = if many {
        Seq::empty()
    } else {
        seq![ExecuteCall::ReleaseCursor]
    };
    let long = if is_plsql {
        seq![ExecuteCall::StoreLongBinds]
    } else {
        Seq::empty()
    };
    release + seq![ExecuteCall::ApplySchema, ExecuteCall::StoreTypedLobs] + long + seq![
        ExecuteCall::Execute,
    ]
}

/// The calls behind the statement. An awaited execution commits on its task, and looks for a
/// cancellation when the task is over. A blocking one looks for a cancellation first and commits
/// last; a blocking batch keeps what it reports of single rows first, and commits before it looks
/// for a cancellation.
pub open spec fn calls_behind_execute(
    flavor: Flavor,
    many: bool,
    commits: bool,
) -> Seq<ExecuteCall> {
    match (flavor, many, commits) {
        (Flavor::Blocking, true, true) => seq![
            ExecuteCall::RecordBatch,
            ExecuteCall::Commit,
            ExecuteCall::CheckCancel,
            ExecuteCall::LookUpJson,
            ExecuteCall::TakeOutputs,
        ],
        (Flavor::Blocking, true, false) => seq![
            ExecuteCall::RecordBatch,
            ExecuteCall::CheckCancel,
            ExecuteCall::LookUpJson,
            ExecuteCall::TakeOutputs,
        ],
        (Flavor::Blocking, false, true) => seq![
            ExecuteCall::CheckCancel,
            ExecuteCall::LookUpJson,
            ExecuteCall::TakeOutputs,
            ExecuteCall::ResetCursors,
            ExecuteCall::Commit,
        ],
        (Flavor::Blocking, false, false) => seq![
            ExecuteCall::CheckCancel,
            ExecuteCall::LookUpJson,
            ExecuteCall::TakeOutputs,
            ExecuteCall::ResetCursors,
        ],
        (Flavor::Awaited, true, true) => seq![
            ExecuteCall::LookUpJson,
            ExecuteCall::Commit,
            ExecuteCall::CheckCancel,
            ExecuteCall::RecordBatch,
            ExecuteCall::TakeOutputs,
        ],
        (Flavor::Awaited, true, false) => seq![
            ExecuteCall::LookUpJson,
            ExecuteCall::CheckCancel,
            ExecuteCall::RecordBatch,
            ExecuteCall::TakeOutputs,
        ],
        (Flavor::Awaited, false, true) => seq![
            ExecuteCall::LookUpJson,
            ExecuteCall::Commit,
            ExecuteCall::CheckCancel,
            ExecuteCall::TakeOutputs,
            ExecuteCall::ResetCursors,
        ],
        (Flavor::Awaited, false, false) => seq![
            ExecuteCall::LookUpJson,
            ExecuteCall::CheckCancel,
            ExecuteCall::TakeOutputs,
            ExecuteCall::ResetCursors,
        ],
    }
}

pub open spec fn all_succeeded(replies: Seq<ExecuteReply>) -> bool {
    forall|i: int| 0 <= i < replies.len() ==> (#[trigger] replies[i]).succeeded
}

impl ExecuteRun {
    /// The number of calls up to the statement.
    pub open spec fn executes_at(self) -> int {
        calls_to_execute(self.many, self.is_plsql).len() as int
    }

    /// The connection is set to commit when that counts: for an awaited execution at its start,
    /// for a blocking one at the call before the commit.
    pub open spec fn autocommit_that_counts(self, replies: Seq<ExecuteReply>) -> bool {
        match self.flavor {
            Flavor::Awaited => self.autocommit,
            Flavor::Blocking => if self.many {
                replies[self.executes_at()].autocommit
            } else {
                replies[self.executes_at() + 3].autocommit
            },
        }
    }

    /// The execution that begins here commits: the statement opened no result set, and the
    /// connection commits by itself.
    pub open spec fn commits_with(self, replies: Seq<ExecuteReply>) -> bool {
        !replies[self.executes_at() - 1].has_columns && self.autocommit_that_counts(replies)
    }

    /// The calls of an execution that begins here and in which each call succeeds.
    pub open spec fn calls_with(self, replies: Seq<ExecuteReply>) -> Seq<ExecuteCall> {
        calls_to_execute(self.many, self.is_plsql) + calls_behind_execute(
            self.flavor,
            self.many,
            self.commits_with(replies),
        )
    }

    pub open spec fn is_start(self) -> bool {
        self == ExecuteRun::started(self.flavor, self.many, self.is_plsql, self.autocommit)
    }
}

proof fn lemma_to_execute(run: ExecuteRun, replies: Seq<ExecuteReply>, n: int)
    requires
        run.is_start(),
        all_succeeded(replies.take(n)),
        0 <= n < run.executes_at(),
        n <= replies.len(),
    ensures
        run.call_at(replies, n) == calls_to_execute(run.many, run.is_plsql)[n],
        run.after(replies, n).flavor == run.flavor,
        run.after(replies, n).many == run.many,
        run.after(replies, n).is_plsql == run.is_plsql,
        run.flavor == Flavor::Awaited ==> run.after(replies, n).autocommit == run.autocommit,
    decreases n,
{
    if n > 0 {
        lemma_take(replies, n);
        lemma_to_execute(run, replies, n - 1);
    }
}

proof fn lemma_take(replies: Seq<ExecuteReply>, n: int)
    requires
        0 < n <= replies.len(),
        all_succeeded(replies.take(n)),
    ensures
        replies[n - 1].succeeded,
        all_succeeded(replies.take(n - 1)),
{
    assert(replies.take(n)[n - 1] == replies[n - 1]);
    assert forall|i: int| 0 <= i < n - 1 implies (#[trigger] replies.take(n - 1)[i]).succeeded by {
        assert(replies.take(n)[i] == replies[i]);
    }
}

proof fn lemma_behind_execute(run: ExecuteRun, replies: Seq<ExecuteReply>, k: int)
    requires
        run.is_start(),
        0 <= k,
        run.executes_at() + k <= replies.len(),
        all_succeeded(replies.take(run.executes_at() + k)),
    ensures
        ({
            let e = run.executes_at();
            let behind = calls_behind_execute(run.flavor, run.many, run.commits_with(replies));
            let s = run.after(replies, e + k);
            &&& s.call == if k < behind.len() {
                behind[k]
            } else {
                ExecuteCall::Done
            }
            &&& s.flavor == run.flavor && s.many == run.many
            &&& s.has_columns == replies[e - 1].has_columns
            &&& run.flavor == Flavor::Awaited ==> s.autocommit == run.autocommit
            &&& run.flavor == Flavor::Blocking ==> s.autocommit == replies[e + k - 1].autocommit
        }),
    decreases k,
{
    let e = run.executes_at();
    lemma_take(replies, e + k);
    if k > 0 {
        lemma_behind_execute(run, replies, k - 1);
    } else {
        lemma_to_execute(run, replies, e - 1);
    }
}

/// An execution gives the cursor before it back (a batch keeps it), sets the pending schema and
/// makes its temporary LOBs before it executes the statement, and executes it once. Behind that it
/// asks for JSON columns, takes the output values and commits: exactly where the statement opened
/// no result set and the connection commits by itself. `n` is any point of it: so many calls have
/// succeeded.
pub proof fn law_execution_order(
    flavor: Flavor,
    many: bool,
    is_plsql: bool,
    autocommit: bool,
    replies: Seq<ExecuteReply>,
    n: int,
)
    requires
        0 <= n <= replies.len(),
        all_succeeded(replies.take(n)),
    ensures
        ({
            let run = ExecuteRun::started(flavor, many, is_plsql, autocommit);
            run.call_at(replies, n) == if n < run.calls_with(replies).len() {
                run.calls_with(replies)[n]
            } else {
                ExecuteCall::Done
            }
        }),
{
    let run = ExecuteRun::started(flavor, many, is_plsql, autocommit);
    if n < run.executes_at() {
        lemma_to_execute(run, replies, n);
    } else {
        lemma_behind_execute(run, replies, n - run.executes_at());
    }
}

/// Behind a call that failed an execution calls nothing more: it does not commit either.
pub proof fn law_failed_execution_stops(
    run: ExecuteRun,
    replies: Seq<ExecuteReply>,
    failed: int,
    n: int,
)
    requires
        0 <= failed < n <= replies.len(),
        !replies[failed].succeeded,
    ensures
        run.call_at(replies, n) == ExecuteCall::Failed,
    decreases n,
{
    if failed < n - 1 {
        law_failed_execution_stops(run, replies, failed, n - 1);
    }
}

/// An execution commits only behind a statement that succeeded without a result set.
pub proof fn law_commit_follows_success(
    flavor: Flavor,
    many: bool,
    is_plsql: bool,
    autocommit: bool,
    replies: Seq<ExecuteReply>,
    n: int,
)
    requires
        0 <= n <= replies.len(),
        ExecuteRun::started(flavor, many, is_plsql, autocommit).call_at(replies, n)
            == ExecuteCall::Commit,
    ensures
        ({
            let run = ExecuteRun::started(flavor, many, is_plsql, autocommit);
            let e = run.executes_at();
            &&& e <= n
            &&& run.call_at(replies, e - 1) == ExecuteCall::Execute
            &&& all_succeeded(replies.take(n))
            &&& replies[e - 1].succeeded && !replies[e - 1].has_columns
        }),
{
    let run = ExecuteRun::started(flavor, many, is_plsql, autocommit);
    let e = run.executes_at();
    if !all_succeeded(replies.take(n)) {
        let j = choose|j: int| 0 <= j < n && !(#[trigger] replies.take(n)[j]).succeeded;
        assert(!replies[j].succeeded);
        law_failed_execution_stops(run, replies, j, n);
    }
    law_execution_order(flavor, many, is_plsql, autocommit, replies, n);
    if n < e {
        assert(calls_to_execute(many, is_plsql)[n] != ExecuteCall::Commit);
    } else {
        assert(replies.take(n)[e - 1] == replies[e - 1]);
        assert(all_succeeded(replies.take(e - 1))) by {
            assert forall|i: int| 0 <= i < e - 1 implies (#[trigger] replies.take(
                e - 1,
            )[i]).succeeded by {
                assert(replies.take(n)[i] == replies[i]);
            }
        }
        law_execution_order(flavor, many, is_plsql, autocommit, replies, e - 1);
    }
}

pub open spec fn rows_of(values: Vec<BindValue>) -> Seq<Vec<BindValue>> {
    if values@.len() == 0 {
        Seq::empty()
    } else {
        seq![values]
    }
}

/// The rows that one execution binds: none where it binds no value, and else exactly one.
pub fn bind_rows(values: Vec<BindValue>) -> (r: Vec<Vec<BindValue>>)
    ensures
        r@ == rows_of(values),
{
    let mut rows: Vec<Vec<BindValue>> = Vec::new();
    if values.len() > 0 {
        rows.push(values);
    }
    rows
}

/// An execution binds its values in one row, all of them and in their order; without values it
/// binds no row.
pub proof fn law_execution_binds_one_row(values: Vec<BindValue>)
    ensures
        rows_of(values).len() <= 1,
        rows_of(values).len() == 1 <==> values@.len() > 0,
        values@.len() > 0 ==> rows_of(values)[0]@ == values@,
{
}

} // verus!
