//! Pipelines: which of the two ways of running one is taken, and what is sent.
use vstd::prelude::*;

use crate::errors::Fault;
#[allow(unused_imports)]
use crate::errors::FaultView;
use crate::text::{chars_of, is_space_char, join3, lower_chars, owned, same_text, tail, text_starts_with};
#[allow(unused_imports)]
use crate::text::{front_run, is_space, lemma_front_run_is, lower, starts_with};

verus! {

/// The two ways of running a pipeline.
#[derive(Clone, Copy, PartialEq, Eq, Structural, Debug)]
pub enum PipelinePath {
    /// All operations in one round trip.
    Native,
    /// One operation after the other.
    Sequential,
}

impl PipelinePath {
    pub open spec fn label(self) -> Seq<char> {
        match self {
            PipelinePath::Native => "native"@,
            PipelinePath::Sequential => "sequential"@,
        }
    }

    pub fn name(self) -> (r: &'static str)
        ensures
            r@ == self.label(),
    {
        match self {
            PipelinePath::Native => "native",
            PipelinePath::Sequential => "sequential",
        }
    }
}

/// The text that the standard library's `Debug` writes for a string.
pub uninterp spec fn debug_text(s: Seq<char>) -> Seq<char>;

/// `format!` with `{:?}` writes a string as its `Debug` implementation in the standard library
/// does: in quotes, with escapes. What exactly is escaped is not stated here.
#[verifier::external_body]
fn write_debug(s: &str) -> (r: String)
    ensures
        r@ == debug_text(s@),
{
    format!("{:?}", s)
}

/// The path that is asked for, and the path that the last pipeline took.
#[derive(Clone, Copy, PartialEq, Eq, Structural, Debug)]
pub struct PipelinePaths {
    pub forced: Option<PipelinePath>,
    pub last: Option<PipelinePath>,
}

impl PipelinePaths {
    pub fn new() -> (r: Self)
        ensures
            r == (PipelinePaths { forced: None, last: None }),
    {
        PipelinePaths { forced: None, last: None }
    }

    pub open spec fn asked(
        self,
        after: PipelinePaths,
        r: Result<(), Fault>,
        mode: Seq<char>,
    ) -> bool {
        match r {
            Ok(_) => {
                ||| mode == "auto"@ && after == (PipelinePaths { forced: None, ..self })
                ||| mode == "native"@ && after == (PipelinePaths {
                    forced: Some(PipelinePath::Native),
                    ..self
                })
                ||| mode == "sequential"@ && after == (PipelinePaths {
                    forced: Some(PipelinePath::Sequential),
                    ..self
                })
            },
            Err(f) => {
                &&& mode != "auto"@
                &&& mode != "native"@
                &&& mode != "sequential"@
                &&& after == self
                &&& f@ == FaultView::Runtime(
                    "unknown pipeline path mode: "@ + debug_text(mode)
                        + " (expected auto/native/sequential)"@,
                )
            },
        }
    }

    pub open spec fn with_last(self, last: Option<PipelinePath>) -> PipelinePaths {
        PipelinePaths { last, ..self }
    }

    /// Asks for a path by name; `auto` asks for none.
    pub fn set_force_pipeline_path(&mut self, mode: &str) -> (r: Result<(), Fault>)
        ensures
            old(self).asked(*final(self), r, mode@),
    {
        if same_text(mode, "auto") {
            self.forced = None;
            Ok(())
        } else if same_text(mode, "native") {
            self.forced = Some(PipelinePath::Native);
            Ok(())
        } else if same_text(mode, "sequential") {
            self.forced = Some(PipelinePath::Sequential);
            Ok(())
        } else {
            Err(
                Fault::Runtime(
                    join3(
                        "unknown pipeline path mode: ",
                        write_debug(mode).as_str(),
                        " (expected auto/native/sequential)",
                    ),
                ),
            )
        }
    }

    pub fn record_pipeline_path(&mut self, path: PipelinePath)
        ensures
            *final(self) == old(self).with_last(Some(path)),
    {
        self.last = Some(path);
    }

    pub fn reset_pipeline_path_log(&mut self)
        ensures
            *final(self) == old(self).with_last(None),
    {
        self.last = None;
    }
}

#[derive(Clone, Copy, PartialEq, Eq, Structural, Debug)]
pub enum PipelineOpKind {
    Commit,
    CallFunc,
    CallProc,
    Execute,
    ExecuteMany,
    FetchAll,
    FetchMany,
    FetchOne,
    Other,
}

/// The kind of operation that a name of the package's enumeration stands for.
pub open spec fn kind_named(name: Seq<char>) -> PipelineOpKind {
    if name == "COMMIT"@ {
        PipelineOpKind::Commit
    } else if name == "CALL_FUNC"@ {
        PipelineOpKind::CallFunc
    } else if name == "CALL_PROC"@ {
        PipelineOpKind::CallProc
    } else if name == "EXECUTE"@ {
        PipelineOpKind::Execute
    } else if name == "EXECUTE_MANY"@ {
        PipelineOpKind::ExecuteMany
    } else if name == "FETCH_ALL"@ {
        PipelineOpKind::FetchAll
    } else if name == "FETCH_MANY"@ {
        PipelineOpKind::FetchMany
    } else if name == "FETCH_ONE"@ {
        PipelineOpKind::FetchOne
    } else {
        PipelineOpKind::Other
    }
}

pub fn op_kind(name: &str) -> (r: PipelineOpKind)
    ensures
        r == kind_named(name@),
{
    if same_text(name, "COMMIT") {
        PipelineOpKind::Commit
    } else if same_text(name, "CALL_FUNC") {
        PipelineOpKind::CallFunc
    } else if same_text(name, "CALL_PROC") {
        PipelineOpKind::CallProc
    } else if same_text(name, "EXECUTE") {
        PipelineOpKind::Execute
    } else if same_text(name, "EXECUTE_MANY") {
        PipelineOpKind::ExecuteMany
    } else if same_text(name, "FETCH_ALL") {
        PipelineOpKind::FetchAll
    } else if same_text(name, "FETCH_MANY") {
        PipelineOpKind::FetchMany
    } else if same_text(name, "FETCH_ONE") {
        PipelineOpKind::FetchOne
    } else {
        PipelineOpKind::Other
    }
}

/// A member of a list of parameters.
pub struct ParameterItem {
    /// The member is a list, a tuple or a mapping.
    pub is_row: bool,
    /// The member itself can be sent without the connection.
    pub is_scalar: bool,
    /// For each value in a row, whether it can be sent without the connection.
    pub members: Vec<bool>,
}

/// The parameters of an operation.
pub enum PipelineParameters {
    Absent,
    /// A mapping; for each value, whether it can be sent without the connection.
    Mapping(Vec<bool>),
    /// A list or a tuple.
    Items(Vec<ParameterItem>),
    /// A number of iterations.
    Count,
    Other,
}

pub struct PipelineOp {
    pub kind: PipelineOpKind,
    pub statement: Option<String>,
    pub parameters: PipelineParameters,
}

pub open spec fn all_set(row: Seq<bool>) -> bool {
    forall|i: int| 0 <= i < row.len() ==> #[trigger] row[i]
}

/// All values are scalars. Where the first member is a row, the values are those of the rows.
pub open spec fn all_scalar(p: PipelineParameters) -> bool {
    match p {
        PipelineParameters::Absent => true,
        PipelineParameters::Mapping(values) => all_set(values@),
        PipelineParameters::Items(items) => if items@.len() > 0 && items@[0].is_row {
            forall|i: int| 0 <= i < items@.len() ==> all_set((#[trigger] items@[i]).members@)
        } else {
            forall|i: int| 0 <= i < items@.len() ==> (#[trigger] items@[i]).is_scalar
        },
        PipelineParameters::Count => true,
        PipelineParameters::Other => false,
    }
}

fn is_all_set(row: &Vec<bool>) -> (r: bool)
    ensures
        r == all_set(row@),
{
    let mut i: usize = 0;
    while i < row.len()
        invariant
            i <= row@.len(),
            forall|j: int| 0 <= j < i ==> #[trigger] row@[j],
        decreases row@.len() - i,
    {
        if !row[i] {
            return false;
        }
        i = i + 1;
    }
    true
}

pub fn params_are_scalar(p: &PipelineParameters) -> (r: bool)
    ensures
        r == all_scalar(*p),
{
    match p {
        PipelineParameters::Absent => true,
        PipelineParameters::Mapping(values) => is_all_set(values),
        PipelineParameters::Items(items) => {
            let rows = items.len() > 0 && items[0].is_row;
            let mut i: usize = 0;
            while i < items.len()
                invariant
                    i <= items@.len(),
                    rows == (items@.len() > 0 && items@[0].is_row),
                    *p == PipelineParameters::Items(*items),
                    rows ==> forall|j: int|
                        0 <= j < i ==> all_set((#[trigger] items@[j]).members@),
                    !rows ==> forall|j: int| 0 <= j < i ==> (#[trigger] items@[j]).is_scalar,
                decreases items@.len() - i,
            {
                let fits = if rows {
                    is_all_set(&items[i].members)
                } else {
                    items[i].is_scalar
                };
                if !fits {
                    assert(!all_scalar(*p)) by {
                        let x = items@[i as int];
                    }
                    return false;
                }
                i = i + 1;
            }
            true
        },
        PipelineParameters::Count => true,
        PipelineParameters::Other => false,
    }
}

/// Blanks in front of a statement, the separators of ASCII among them.
pub open spec fn is_statement_blank(c: char) -> bool {
    is_space(c) || 28 <= c as u32 <= 31
}

pub open spec fn statement_blank_pred() -> spec_fn(char) -> bool {
    |c: char| is_statement_blank(c)
}

pub open spec fn bracket_pred() -> spec_fn(char) -> bool {
    |c: char| c == '('
}

pub open spec fn without_front(s: Seq<char>, gone: spec_fn(char) -> bool) -> Seq<char> {
    s.skip(front_run(s, gone))
}

/// The statement is a PL/SQL block; a missing statement counts as one.
pub open spec fn counts_as_plsql(statement: Option<Seq<char>>) -> bool {
    match statement {
        None => true,
        Some(t) => {
            let s = lower(
                without_front(
                    without_front(without_front(t, statement_blank_pred()), bracket_pred()),
                    statement_blank_pred(),
                ),
            );
            starts_with(s, "begin"@) || starts_with(s, "declare"@)
        },
    }
}

fn skip_statement_blanks(v: &Vec<char>) -> (r: Vec<char>)
    ensures
        r@ == without_front(v@, statement_blank_pred()),
{
    let mut i: usize = 0;
    while i < v.len() && (is_space_char(v[i]) || (28 <= v[i] as u32 && v[i] as u32 <= 31))
        invariant
            i <= v@.len(),
            forall|j: int| 0 <= j < i ==> is_statement_blank(#[trigger] v@[j]),
        decreases v@.len() - i,
    {
        i = i + 1;
    }
    proof {
        lemma_front_run_is(v@, statement_blank_pred(), i as int);
    }
    tail(v, i)
}

fn skip_brackets(v: &Vec<char>) -> (r: Vec<char>)
    ensures
        r@ == without_front(v@, bracket_pred()),
{
    let mut i: usize = 0;
    while i < v.len() && v[i] == '('
        invariant
            i <= v@.len(),
            forall|j: int| 0 <= j < i ==> #[trigger] v@[j] == '(',
        decreases v@.len() - i,
    {
        i = i + 1;
    }
    proof {
        lemma_front_run_is(v@, bracket_pred(), i as int);
    }
    tail(v, i)
}

pub fn is_plsql(statement: &Option<String>) -> (r: bool)
    ensures
        r == counts_as_plsql(
            match *statement {
                Some(s) => Some(s@),
                None => None,
            },
        ),
{
    match statement {
        None => true,
        Some(t) => {
            let s = lower_chars(
                &skip_statement_blanks(&skip_brackets(&skip_statement_blanks(&chars_of(t.as_str())))),
            );
            text_starts_with(&s, &chars_of("begin")) || text_starts_with(&s, &chars_of("declare"))
        },
    }
}

impl PipelineOp {
    /// The operation can be sent in one round trip with others.
    pub open spec fn is_native(self) -> bool {
        match self.kind {
            PipelineOpKind::Commit => true,
            PipelineOpKind::CallFunc | PipelineOpKind::CallProc | PipelineOpKind::Other => false,
            _ => !counts_as_plsql(
                match self.statement {
                    Some(s) => Some(s@),
                    None => None,
                },
            ) && all_scalar(self.parameters),
        }
    }

    pub fn op_is_native(&self) -> (r: bool)
        ensures
            r == self.is_native(),
    {
        match self.kind {
            PipelineOpKind::Commit => true,
            PipelineOpKind::CallFunc | PipelineOpKind::CallProc | PipelineOpKind::Other => false,
            _ => !is_plsql(&self.statement) && params_are_scalar(&self.parameters),
        }
    }
}

pub open spec fn all_native(ops: Seq<PipelineOp>) -> bool {
    forall|i: int| 0 <= i < ops.len() ==> (#[trigger] ops[i]).is_native()
}

pub open spec fn path_for(
    forced: Option<PipelinePath>,
    autocommit: bool,
    ops: Seq<PipelineOp>,
) -> PipelinePath {
    if forced == Some(PipelinePath::Sequential) || autocommit || !all_native(ops) {
        PipelinePath::Sequential
    } else {
        PipelinePath::Native
    }
}

/// The path that a pipeline takes. One round trip cannot commit behind each operation, and it
/// cannot carry an operation that needs the connection while its answer is read.
pub fn choose_pipeline_path(
    forced: Option<PipelinePath>,
    autocommit: bool,
    ops: &Vec<PipelineOp>,
) -> (r: PipelinePath)
    ensures
        r == path_for(forced, autocommit, ops@),
{
    let sequential = match forced {
        Some(p) => p == PipelinePath::Sequential,
        None => false,
    };
    if sequential || autocommit {
        return PipelinePath::Sequential;
    }
    let mut i: usize = 0;
    while i < ops.len()
        invariant
            i <= ops@.len(),
            forall|j: int| 0 <= j < i ==> (#[trigger] ops@[j]).is_native(),
        decreases ops@.len() - i,
    {
        if !ops[i].op_is_native() {
            assert(!all_native(ops@)) by {
                let x = ops@[i as int];
            }
            return PipelinePath::Sequential;
        }
        i = i + 1;
    }
    PipelinePath::Native
}

pub open spec fn fetch_size(kind: PipelineOpKind, asked: u32, arraysize: u32) -> Option<u32> {
    match kind {
        PipelineOpKind::FetchOne => Some(1u32),
        PipelineOpKind::FetchMany => Some(asked),
        PipelineOpKind::FetchAll => Some(arraysize),
        _ => None,
    }
}

/// How many rows an operation fetches at a time: `asked` those that were asked for, `arraysize`
/// those that fit the operation's buffer.
pub fn rows_to_fetch(kind: PipelineOpKind, asked: u32, arraysize: u32) -> (r: Option<u32>)
    ensures
        r == fetch_size(kind, asked, arraysize),
{
    match kind {
        PipelineOpKind::FetchOne => Some(1),
        PipelineOpKind::FetchMany => Some(asked),
        PipelineOpKind::FetchAll => Some(arraysize),
        _ => None,
    }
}

/// The cursor of an operation, once it is prepared.
#[derive(Clone, Copy, PartialEq, Eq, Structural, Debug)]
pub struct PreparedOp {
    pub has_statement: bool,
    /// How many rows are bound for a batch.
    pub batch_rows: usize,
    /// How many values are bound for a single execution.
    pub values: usize,
    pub prefetchrows: u32,
}

/// Which rows an operation binds.
#[derive(Clone, Copy, PartialEq, Eq, Structural, Debug)]
pub enum BoundRows {
    Batch,
    Single,
    Nothing,
}

/// What is sent for an operation.
#[derive(Clone, Copy, PartialEq, Eq, Structural, Debug)]
pub enum RequestPlan {
    Commit,
    Execute { rows: BoundRows, prefetch_rows: u32 },
}

pub open spec fn request_of(op: Option<PreparedOp>) -> Option<RequestPlan> {
    match op {
        None => Some(RequestPlan::Commit),
        Some(c) => if !c.has_statement {
            None
        } else {
            Some(
                RequestPlan::Execute {
                    rows: if c.batch_rows > 0 {
                        BoundRows::Batch
                    } else if c.values > 0 {
                        BoundRows::Single
                    } else {
                        BoundRows::Nothing
                    },
                    prefetch_rows: if c.prefetchrows == 0 {
                        1
                    } else {
                        c.prefetchrows
                    },
                },
            )
        },
    }
}

fn plan_request(op: Option<PreparedOp>) -> (r: Option<RequestPlan>)
    ensures
        r == request_of(op),
{
    match op {
        None => Some(RequestPlan::Commit),
        Some(c) => if !c.has_statement {
            None
        } else {
            let rows = if c.batch_rows > 0 {
                BoundRows::Batch
            } else if c.values > 0 {
                BoundRows::Single
            } else {
                BoundRows::Nothing
            };
            let prefetch_rows: u32 = if c.prefetchrows == 0 {
                1
            } else {
                c.prefetchrows
            };
            Some(RequestPlan::Execute { rows, prefetch_rows })
        },
    }
}

pub open spec fn plan_built(
    r: Result<Vec<RequestPlan>, Fault>,
    ops: Seq<Option<PreparedOp>>,
) -> bool {
    match r {
        Ok(plan) => plan@.len() == ops.len() && forall|i: int|
            0 <= i < ops.len() ==> request_of(ops[i]) == Some(#[trigger] plan@[i]),
        Err(f) => (exists|i: int| 0 <= i < ops.len() && request_of(#[trigger] ops[i]) is None) && f@
            == FaultView::Runtime("pipeline op has no statement"@),
    }
}

/// Plans what is sent for each operation; one without a cursor is a commit. A cursor without a
/// statement cannot be sent.
pub fn build_native_plan(ops: &Vec<Option<PreparedOp>>) -> (r: Result<Vec<RequestPlan>, Fault>)
    ensures
        plan_built(r, ops@),
{
    let mut plan: Vec<RequestPlan> = Vec::new();
    let mut i: usize = 0;
    while i < ops.len()
        invariant
            i <= ops@.len(),
            plan@.len() == i,
            forall|j: int| 0 <= j < i ==> request_of(ops@[j]) == Some(#[trigger] plan@[j]),
        decreases ops@.len() - i,
    {
        match plan_request(ops[i]) {
            Some(p) => plan.push(p),
            None => {
                assert(request_of(ops@[i as int]) is None);
                return Err(Fault::Runtime(owned("pipeline op has no statement")));
            },
        }
        i = i + 1;
    }
    Ok(plan)
}

/// The ids of those of the first `n` cursors that are open on the server.
pub open spec fn open_ids(ids: Seq<Option<u32>>, n: int) -> Seq<u32>
    decreases n,
{
    if n <= 0 {
        Seq::empty()
    } else {
        let before = open_ids(ids, n - 1);
        match ids[n - 1] {
            Some(id) => if id != 0 {
                before.push(id)
            } else {
                before
            },
            None => before,
        }
    }
}

/// The cursors to close behind a pipeline, in order; a commit has none.
pub fn cursors_to_close(ids: &Vec<Option<u32>>) -> (r: Vec<u32>)
    ensures
        r@ == open_ids(ids@, ids@.len() as int),
{
    let mut r: Vec<u32> = Vec::new();
    let mut i: usize = 0;
    while i < ids.len()
        invariant
            i <= ids@.len(),
            r@ == open_ids(ids@, i as int),
        decreases ids@.len() - i,
    {
        if let Some(id) = ids[i] {
            if id != 0 {
                r.push(id);
            }
        }
        i = i + 1;
    }
    r
}

/// What is done about an operation's error.
#[derive(Clone, Copy, PartialEq, Eq, Structural, Debug)]
pub enum OpErrorAction {
    /// The pipeline ends with the error.
    Raise,
    /// The error becomes the operation's result.
    Capture,
}

pub open spec fn error_action(continue_on_error: bool) -> OpErrorAction {
    if continue_on_error {
        OpErrorAction::Capture
    } else {
        OpErrorAction::Raise
    }
}

pub fn op_error_action(continue_on_error: bool) -> (r: OpErrorAction)
    ensures
        r == error_action(continue_on_error),
{
    if continue_on_error {
        OpErrorAction::Capture
    } else {
        OpErrorAction::Raise
    }
}

/// Operations that go in one round trip are commits, or statements with scalar parameters that are
/// no PL/SQL blocks.
pub proof fn law_native_pipelines_hold_no_plsql(ops: Seq<PipelineOp>, i: int)
    requires
        all_native(ops),
        0 <= i < ops.len(),
        ops[i].kind != PipelineOpKind::Commit,
    ensures
        ops[i].statement is Some,
        !counts_as_plsql(Some(ops[i].statement->0@)),
        all_scalar(ops[i].parameters),
{
    assert(ops[i].is_native());
}

/// A path is asked for by its own name, and `auto` takes that back; any other name is refused and
/// changes nothing. What the last pipeline did stays.
pub proof fn law_path_is_asked_for_by_name(
    p: PipelinePaths,
    after: PipelinePaths,
    r: Result<(), Fault>,
    mode: Seq<char>,
)
    requires
        p.asked(after, r, mode),
    ensures
        r is Ok <==> mode == "auto"@ || mode == "native"@ || mode == "sequential"@,
        r is Err ==> after == p,
        after.last == p.last,
        r is Ok ==> (after.forced is None <==> mode == "auto"@),
        r is Ok ==> (after.forced matches Some(f) ==> f.label() == mode),
{
    reveal_strlit("auto");
    reveal_strlit("native");
    reveal_strlit("sequential");
    assert("auto"@.len() == 4 && "native"@.len() == 6 && "sequential"@.len() == 10);
}

/// The path that was taken last is told until it is forgotten; what is asked for stays.
pub proof fn law_last_path_is_told(p: PipelinePaths, path: PipelinePath)
    ensures
        p.with_last(Some(path)).last == Some(path),
        p.with_last(Some(path)).forced == p.forced,
        p.with_last(None).last is None && p.with_last(None).forced == p.forced,
{
}

/// The kinds of operations are told apart by their names.
pub proof fn law_operations_are_told_apart(name: Seq<char>)
    ensures
        kind_named(name) == PipelineOpKind::Commit <==> name == "COMMIT"@,
        kind_named(name) == PipelineOpKind::CallFunc <==> name == "CALL_FUNC"@,
        kind_named(name) == PipelineOpKind::CallProc <==> name == "CALL_PROC"@,
        kind_named(name) == PipelineOpKind::Execute <==> name == "EXECUTE"@,
        kind_named(name) == PipelineOpKind::ExecuteMany <==> name == "EXECUTE_MANY"@,
        kind_named(name) == PipelineOpKind::FetchAll <==> name == "FETCH_ALL"@,
        kind_named(name) == PipelineOpKind::FetchMany <==> name == "FETCH_MANY"@,
        kind_named(name) == PipelineOpKind::FetchOne <==> name == "FETCH_ONE"@,
{
    reveal_strlit("COMMIT");
    reveal_strlit("CALL_FUNC");
    reveal_strlit("CALL_PROC");
    reveal_strlit("EXECUTE");
    reveal_strlit("EXECUTE_MANY");
    reveal_strlit("FETCH_ALL");
    reveal_strlit("FETCH_MANY");
    reveal_strlit("FETCH_ONE");
    assert("COMMIT"@.len() == 6 && "EXECUTE"@.len() == 7 && "EXECUTE_MANY"@.len() == 12);
    assert("CALL_FUNC"@[5] == 'F' && "CALL_PROC"@[5] == 'P' && "FETCH_ALL"@[5] == '_');
    assert("FETCH_ALL"@[6] == 'A' && "FETCH_ONE"@[6] == 'O' && "FETCH_MANY"@.len() == 10);
    assert("FETCH_ONE"@[5] == '_' && "CALL_FUNC"@.len() == 9 && "CALL_PROC"@.len() == 9);
    assert("FETCH_ALL"@.len() == 9 && "FETCH_ONE"@.len() == 9);
}

/// One value that cannot be sent without the connection keeps the parameters from being scalar,
/// wherever it stands; without parameters there is none.
pub proof fn law_one_value_can_need_the_connection(
    values: Vec<bool>,
    items: Vec<ParameterItem>,
    i: int,
    j: int,
)
    ensures
        0 <= i < values@.len() && !values@[i] ==> !all_scalar(PipelineParameters::Mapping(values)),
        (forall|k: int| 0 <= k < values@.len() ==> #[trigger] values@[k]) ==> all_scalar(
            PipelineParameters::Mapping(values),
        ),
        items@.len() > 0 && items@[0].is_row && 0 <= i < items@.len() && 0 <= j
            < items@[i].members@.len() && !items@[i].members@[j] ==> !all_scalar(
            PipelineParameters::Items(items),
        ),
        items@.len() > 0 && !items@[0].is_row && 0 <= i < items@.len() && !items@[i].is_scalar
            ==> !all_scalar(PipelineParameters::Items(items)),
        all_scalar(PipelineParameters::Absent) && all_scalar(PipelineParameters::Count),
        !all_scalar(PipelineParameters::Other),
{
    if items@.len() > 0 && items@[0].is_row && 0 <= i < items@.len() && 0 <= j
        < items@[i].members@.len() && !items@[i].members@[j] {
        assert(!all_set(items@[i].members@));
    }
}

/// A block begins with `BEGIN` or `DECLARE`, in any case, behind blanks and opening brackets; any
/// other word makes it none.
pub proof fn law_blocks_begin_with_begin_or_declare(
    blanks: Seq<char>,
    word: Seq<char>,
)
    requires
        forall|i: int| 0 <= i < blanks.len() ==> is_statement_blank(#[trigger] blanks[i]),
        word.len() > 0,
        !is_statement_blank(word[0]),
        word[0] != '(',
    ensures
        counts_as_plsql(Some(blanks + word)) <==> starts_with(lower(word), "begin"@) || starts_with(
            lower(word),
            "declare"@,
        ),
        counts_as_plsql(None),
{
    let s = blanks + word;
    let n = blanks.len() as int;
    assert forall|i: int| 0 <= i < n implies statement_blank_pred()(#[trigger] s[i]) by {
        assert(s[i] == blanks[i]);
    }
    assert(s[n] == word[0]);
    lemma_front_run_is(s, statement_blank_pred(), n);
    assert(s.skip(n) =~= word);
    lemma_front_run_is(word, bracket_pred(), 0);
    assert(word.skip(0) =~= word);
    lemma_front_run_is(word, statement_blank_pred(), 0);
}

/// A call of a procedure or function never goes in one round trip, a commit always does. One
/// operation that cannot keeps the whole pipeline from it, and so do a commit behind each operation
/// and the wish for the other path.
pub proof fn law_one_operation_decides_the_path(
    forced: Option<PipelinePath>,
    autocommit: bool,
    ops: Seq<PipelineOp>,
    i: int,
)
    ensures
        0 <= i < ops.len() && (ops[i].kind == PipelineOpKind::CallFunc || ops[i].kind
            == PipelineOpKind::CallProc || ops[i].kind == PipelineOpKind::Other) ==> path_for(
            forced,
            autocommit,
            ops,
        ) == PipelinePath::Sequential,
        autocommit ==> path_for(forced, autocommit, ops) == PipelinePath::Sequential,
        forced == Some(PipelinePath::Sequential) ==> path_for(forced, autocommit, ops)
            == PipelinePath::Sequential,
        !autocommit && forced != Some(PipelinePath::Sequential) && (forall|k: int|
            0 <= k < ops.len() ==> (#[trigger] ops[k]).kind == PipelineOpKind::Commit) ==> path_for(
            forced,
            autocommit,
            ops,
        ) == PipelinePath::Native,
        path_for(forced, autocommit, ops) == PipelinePath::Native && 0 <= i < ops.len()
            && ops[i].kind == PipelineOpKind::Execute ==> ops[i].statement is Some && all_scalar(
            ops[i].parameters,
        ),
{
    if 0 <= i < ops.len() && all_native(ops) {
        assert(ops[i].is_native());
    }
}

/// Rows are fetched as asked for: one, the given number, or as many as fit; no other operation
/// fetches any.
pub proof fn law_rows_are_fetched_as_asked(kind: PipelineOpKind, asked: u32, arraysize: u32)
    ensures
        kind == PipelineOpKind::FetchOne ==> fetch_size(kind, asked, arraysize) == Some(1u32),
        kind == PipelineOpKind::FetchMany ==> fetch_size(kind, asked, arraysize) == Some(asked),
        kind == PipelineOpKind::FetchAll ==> fetch_size(kind, asked, arraysize) == Some(arraysize),
        fetch_size(kind, asked, arraysize) is Some <==> kind == PipelineOpKind::FetchOne || kind
            == PipelineOpKind::FetchMany || kind == PipelineOpKind::FetchAll,
{
}

/// There is a request for each operation, in order: a commit for one without a cursor, else an
/// execution that binds its batch, its values or nothing, and fetches at least one row ahead. Only
/// an operation without a statement keeps the pipeline from being sent.
pub proof fn law_each_operation_is_sent(
    r: Result<Vec<RequestPlan>, Fault>,
    ops: Seq<Option<PreparedOp>>,
    i: int,
)
    requires
        plan_built(r, ops),
        0 <= i < ops.len(),
    ensures
        r matches Ok(plan) ==> {
            &&& plan@.len() == ops.len()
            &&& plan@[i] == RequestPlan::Commit <==> ops[i] is None
            &&& ops[i] matches Some(c) ==> (plan@[i] matches RequestPlan::Execute {
                rows,
                prefetch_rows,
            } && {
                &&& rows == BoundRows::Batch <==> c.batch_rows > 0
                &&& rows == BoundRows::Single <==> c.batch_rows == 0 && c.values > 0
                &&& c.prefetchrows > 0 ==> prefetch_rows == c.prefetchrows
                &&& prefetch_rows > 0
            })
        },
        ops[i] matches Some(c) ==> !c.has_statement ==> r is Err,
        (forall|k: int| 0 <= k < ops.len() ==> (#[trigger] ops[k] matches Some(c)
            ==> c.has_statement)) ==> r is Ok,
{
    if r is Ok {
        assert(request_of(ops[i]) == Some(r->Ok_0@[i]));
    }
}

/// Behind a pipeline exactly the cursors that are open on the server are closed, in their order.
pub proof fn law_open_cursors_are_closed(ids: Seq<Option<u32>>, n: int)
    requires
        0 <= n <= ids.len(),
    ensures
        open_ids(ids, n) == ids.take(n).filter(|x: Option<u32>| x is Some && x->0 != 0).map_values(
            |x: Option<u32>| x->0,
        ),
    decreases n,
{
    let open = |x: Option<u32>| x is Some && x->0 != 0;
    let id = |x: Option<u32>| x->0;
    reveal(Seq::filter);
    if n > 0 {
        law_open_cursors_are_closed(ids, n - 1);
        assert(ids.take(n).drop_last() =~= ids.take(n - 1));
        assert(ids.take(n).last() == ids[n - 1]);
        let before = ids.take(n - 1).filter(open);
        if open(ids[n - 1]) {
            assert(ids.take(n).filter(open) == before.push(ids[n - 1]));
            assert(before.push(ids[n - 1]).map_values(id) =~= before.map_values(id).push(
                id(ids[n - 1]),
            ));
        }
        assert(open_ids(ids, n) =~= ids.take(n).filter(open).map_values(id));
    } else {
        assert(ids.take(0).filter(open).map_values(id) =~= Seq::empty());
    }
}

/// An error ends a pipeline exactly where it was not asked to go on.
pub proof fn law_errors_end_a_pipeline(continue_on_error: bool)
    ensures
        error_action(continue_on_error) == OpErrorAction::Raise <==> !continue_on_error,
{
}

} // verus!
