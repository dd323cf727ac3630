//! A cursor: what it executes, what a statement left in it, and what comes next.
use vstd::prelude::*;

use crate::buffer::{
    next_fetch_position, to_rowcount, Orientation, RowBuffer, ScrollFetch, ScrollResult,
};
#[allow(unused_imports)]
use crate::buffer::{at_least_zero, clamp_i64, next_position, scroll_answered, BufferModel};
use crate::columns::{
    columns_have_vector, columns_require_define, duplicate_columns, ColumnMetadata, Defines,
};
#[allow(unused_imports)]
use crate::columns::{
    has_vector, law_columns_that_defer_rows, require_define, DefinesModel,
};
#[allow(unused_imports)]
use crate::value::OraType;
use crate::errors::{ora_cancel_error, query_result_warning, ErrorName, Fault, TaskError};
#[allow(unused_imports)]
use crate::errors::{database_view, FaultView};
use crate::text::{owned, same_text};

verus! {

/// An error of one row of a batch.
pub struct BatchError {
    pub message: String,
    pub code: u32,
    pub offset: u32,
}

/// Calls to the server block the thread, or run on a task that is awaited.
#[derive(Clone, Copy, PartialEq, Eq, Structural, Debug)]
pub enum Flavor {
    Blocking,
    Awaited,
}

/// What the server answers to an execution or a fetch.
pub struct QueryResult<R> {
    pub columns: Vec<ColumnMetadata>,
    pub rows: Vec<R>,
    pub cursor_id: u32,
    pub more_rows: bool,
    pub row_count: u64,
    pub last_rowid: Option<String>,
    pub compilation_error_warning: bool,
    pub batch_errors: Vec<BatchError>,
    pub array_dml_row_counts: Option<Vec<u64>>,
    /// The number of result sets that the statement returned implicitly.
    pub implicit_resultsets: Option<usize>,
}

impl<R> QueryResult<R> {
    /// `rest` is the result without the errors and row counts of single rows.
    pub open spec fn without_batch(self, rest: QueryResult<R>) -> bool {
        &&& rest == (QueryResult {
            batch_errors: rest.batch_errors,
            array_dml_row_counts: None,
            ..self
        })
        &&& rest.batch_errors@ == Seq::<BatchError>::empty()
    }

    /// What a batch comes to that was executed row by row: it returns no rows of its own.
    pub fn of_batch(
        row_count: u64,
        last_rowid: Option<String>,
        compilation_error_warning: bool,
    ) -> (r: QueryResult<R>)
        ensures
            r.columns@.len() == 0,
            r.rows@.len() == 0,
            r.cursor_id == 0,
            !r.more_rows,
            r.row_count == row_count,
            r.last_rowid == last_rowid,
            r.compilation_error_warning == compilation_error_warning,
            r.batch_errors@.len() == 0,
            r.array_dml_row_counts is None,
            r.implicit_resultsets is None,
    {
        QueryResult {
            columns: Vec::new(),
            rows: Vec::new(),
            cursor_id: 0,
            more_rows: false,
            row_count,
            last_rowid,
            compilation_error_warning,
            batch_errors: Vec::new(),
            array_dml_row_counts: None,
            implicit_resultsets: None,
        }
    }
}

/// The statement of a cursor.
pub struct Prepared {
    pub statement: Option<String>,
    /// The last preparation gave another statement than the one before.
    pub statement_changed: bool,
    /// The statement may use the statement cache.
    pub cache_statement: bool,
    pub bind_names: Vec<String>,
    /// The number of rows that the last batch bound.
    pub many_bind_rows: usize,
}

/// A declared input size: the name or position it is for, and whether it holds a variable.
pub struct DeclaredSize {
    pub key: String,
    pub is_var: bool,
}

/// The input sizes that were declared.
pub struct DeclaredSizes {
    pub positional: bool,
    pub named: bool,
    pub sizes: Vec<DeclaredSize>,
}

/// How rows are fetched.
#[derive(Clone, Copy, PartialEq, Eq, Structural, Debug)]
pub struct FetchOptions {
    pub arraysize: u32,
    pub prefetchrows: u32,
    pub scrollable: bool,
    pub fetch_lobs: bool,
    pub fetch_lobs_overridden: bool,
    pub fetch_decimals: bool,
    pub fetch_decimals_overridden: bool,
    pub fetching_arrow: bool,
    pub suspend_on_success: bool,
}

/// What the last statement left behind, besides rows.
pub struct Outcome {
    pub is_query: bool,
    pub last_rowid: Option<String>,
    /// The number of the warning of the last statement.
    pub warning: Option<u32>,
    pub batch_errors: Option<Vec<BatchError>>,
    pub dml_row_counts: Option<Vec<u64>>,
    pub implicit_resultsets: Option<usize>,
    /// The cursors of the implicit result sets were handed out.
    pub implicit_cursors_built: bool,
    pub has_rowfactory: bool,
}

pub ghost struct PreparedModel {
    pub statement: Option<String>,
    pub statement_changed: bool,
    pub cache_statement: bool,
    pub bind_names: Seq<String>,
    pub many_bind_rows: usize,
}

pub ghost struct DeclaredModel {
    pub positional: bool,
    pub named: bool,
    pub sizes: Seq<DeclaredSize>,
}

pub ghost struct OutcomeModel {
    pub is_query: bool,
    pub last_rowid: Option<String>,
    pub warning: Option<u32>,
    pub batch_errors: Option<Seq<BatchError>>,
    pub dml_row_counts: Option<Seq<u64>>,
    pub implicit_resultsets: Option<usize>,
    pub implicit_cursors_built: bool,
    pub has_rowfactory: bool,
}

pub open spec fn seq_of<T>(v: Option<Vec<T>>) -> Option<Seq<T>> {
    match v {
        Some(x) => Some(x@),
        None => None,
    }
}

impl View for Prepared {
    type V = PreparedModel;

    open spec fn view(&self) -> PreparedModel {
        PreparedModel {
            statement: self.statement,
            statement_changed: self.statement_changed,
            cache_statement: self.cache_statement,
            bind_names: self.bind_names@,
            many_bind_rows: self.many_bind_rows,
        }
    }
}

impl View for DeclaredSizes {
    type V = DeclaredModel;

    open spec fn view(&self) -> DeclaredModel {
        DeclaredModel { positional: self.positional, named: self.named, sizes: self.sizes@ }
    }
}

impl View for Outcome {
    type V = OutcomeModel;

    open spec fn view(&self) -> OutcomeModel {
        OutcomeModel {
            is_query: self.is_query,
            last_rowid: self.last_rowid,
            warning: self.warning,
            batch_errors: seq_of(self.batch_errors),
            dml_row_counts: seq_of(self.dml_row_counts),
            implicit_resultsets: self.implicit_resultsets,
            implicit_cursors_built: self.implicit_cursors_built,
            has_rowfactory: self.has_rowfactory,
        }
    }
}

pub struct CursorState<R> {
    pub prepared: Prepared,
    pub declared: DeclaredSizes,
    pub options: FetchOptions,
    pub defines: Defines,
    pub buffer: RowBuffer<R>,
    pub outcome: Outcome,
}

pub ghost struct CursorModel<R> {
    pub prepared: PreparedModel,
    pub declared: DeclaredModel,
    pub options: FetchOptions,
    pub defines: DefinesModel,
    pub buffer: BufferModel<R>,
    pub outcome: OutcomeModel,
}

impl<R> View for CursorState<R> {
    type V = CursorModel<R>;

    open spec fn view(&self) -> CursorModel<R> {
        CursorModel {
            prepared: self.prepared@,
            declared: self.declared@,
            options: self.options,
            defines: self.defines@,
            buffer: self.buffer@,
            outcome: self.outcome@,
        }
    }
}

/// How a statement is executed.
#[derive(Clone, Copy, PartialEq, Eq, Structural, Debug)]
pub struct ExecuteOptions {
    pub batcherrors: bool,
    pub arraydmlrowcounts: bool,
    pub cache_statement: bool,
    pub suspend_on_success: bool,
    /// For a scrollable cursor, where the result set is opened.
    pub scroll: Option<ScrollFetch>,
}

/// An execution of a batch: the bound rows from `start` up to `end`.
#[derive(Clone, Copy, PartialEq, Eq, Structural, Debug)]
pub struct BatchRange {
    pub start: usize,
    pub end: usize,
    pub options: ExecuteOptions,
}

/// How the next rows are got.
#[derive(Clone, Copy, PartialEq, Eq, Structural, Debug)]
pub enum FetchStep {
    /// The buffer decides: it has the next row, or there is none.
    Buffered,
    /// Execute the open cursor from a position on.
    Scroll(ScrollFetch),
    /// Define the columns and fetch so many rows.
    DefineAndFetch(u32),
    /// Fetch so many rows.
    Fetch(u32),
}

pub open spec fn timeout_set(value: u32) -> Option<u32> {
    if value > 0 {
        Some(value)
    } else {
        None
    }
}

/// The timeout of a call, where one is set.
pub fn effective_call_timeout(value: u32) -> (r: Option<u32>)
    ensures
        r == timeout_set(value),
{
    if value > 0 {
        Some(value)
    } else {
        None
    }
}

/// What a question for the row counts of a batch comes to.
pub open spec fn row_counts_told(
    r: Result<&Vec<u64>, Fault>,
    dml_row_counts: Option<Vec<u64>>,
) -> bool {
    match dml_row_counts {
        Some(c) => r matches Ok(v) && *v == c,
        None => r matches Err(f) && f@ == FaultView::Named(ErrorName::ArrayDmlRowCountsNotEnabled),
    }
}

impl OutcomeModel {
    pub open spec fn with_implicit_resultsets(self, sets: Option<usize>) -> OutcomeModel {
        match sets {
            Some(n) => OutcomeModel {
                implicit_resultsets: Some(n),
                implicit_cursors_built: false,
                ..self
            },
            None => self,
        }
    }

    /// What a batch leaves in the modes that were asked for. A batch that failed leaves no errors
    /// of single rows.
    pub open spec fn with_batch_modes(
        self,
        errors: Seq<BatchError>,
        counts: Option<Seq<u64>>,
        batcherrors: bool,
        arraydmlrowcounts: bool,
    ) -> OutcomeModel {
        OutcomeModel {
            batch_errors: if batcherrors {
                Some(errors)
            } else {
                None
            },
            dml_row_counts: if arraydmlrowcounts {
                Some(
                    match counts {
                        Some(c) => c,
                        None => Seq::empty(),
                    },
                )
            } else {
                self.dml_row_counts
            },
            ..self
        }
    }
}

impl OutcomeModel {
    /// What asking for the implicit result sets comes to.
    pub open spec fn implicit_outcome(
        self,
        after: OutcomeModel,
        r: Result<Option<usize>, Fault>,
    ) -> bool {
        match r {
            Ok(None) => self.implicit_cursors_built && after == self,
            Ok(Some(n)) => !self.implicit_cursors_built && self.implicit_resultsets == Some(n)
                && after == (OutcomeModel { implicit_cursors_built: true, ..self }),
            Err(f) => !self.implicit_cursors_built && self.implicit_resultsets is None && f@
                == FaultView::Named(ErrorName::NoStatementExecuted) && after == self,
        }
    }
}

impl Outcome {
    /// Adopts the implicit result sets of a statement that returned any.
    pub fn record_implicit_resultsets(&mut self, sets: Option<usize>)
        ensures
            final(self)@ == old(self)@.with_implicit_resultsets(sets),
    {
        if let Some(n) = sets {
            self.implicit_resultsets = Some(n);
            self.implicit_cursors_built = false;
        }
    }

    fn record_batch_modes(
        &mut self,
        errors: Vec<BatchError>,
        counts: Option<Vec<u64>>,
        batcherrors: bool,
        arraydmlrowcounts: bool,
    )
        ensures
            final(self)@ == old(self)@.with_batch_modes(
                errors@,
                seq_of(counts),
                batcherrors,
                arraydmlrowcounts,
            ),
    {
        self.batch_errors = if batcherrors {
            Some(errors)
        } else {
            None
        };
        if arraydmlrowcounts {
            self.dml_row_counts = match counts {
                Some(c) => Some(c),
                None => Some(Vec::new()),
            };
        }
    }

    /// Keeps what a failed batch reports in the modes that were asked for.
    pub fn record_executemany_error_modes(
        &mut self,
        counts: Option<Vec<u64>>,
        batcherrors: bool,
        arraydmlrowcounts: bool,
    )
        ensures
            final(self)@ == old(self)@.with_batch_modes(
                Seq::empty(),
                seq_of(counts),
                batcherrors,
                arraydmlrowcounts,
            ),
    {
        self.record_batch_modes(Vec::new(), counts, batcherrors, arraydmlrowcounts);
    }

    /// The row counts of the last batch, which has to have asked for them.
    pub fn get_array_dml_row_counts(&self) -> (r: Result<&Vec<u64>, Fault>)
        ensures
            row_counts_told(r, self.dml_row_counts),
    {
        match &self.dml_row_counts {
            Some(c) => Ok(c),
            None => Err(Fault::Named(ErrorName::ArrayDmlRowCountsNotEnabled)),
        }
    }

    /// How many cursors are to be built for implicit result sets; `None` when they were built
    /// before. Fails until a statement returned such result sets.
    pub fn get_implicit_results(&mut self) -> (r: Result<Option<usize>, Fault>)
        ensures
            old(self)@.implicit_outcome(final(self)@, r),
    {
        if self.implicit_cursors_built {
            return Ok(None);
        }
        match self.implicit_resultsets {
            Some(n) => {
                self.implicit_cursors_built = true;
                Ok(Some(n))
            },
            None => Err(Fault::Named(ErrorName::NoStatementExecuted)),
        }
    }
}

impl DeclaredModel {
    pub open spec fn cleared(self) -> DeclaredModel {
        DeclaredModel { positional: false, named: false, sizes: Seq::empty() }
    }
}

/// One argument of a declaration of input sizes.
pub struct SizeArgument {
    /// The keyword, where the size is declared by name.
    pub key: String,
    /// The argument leaves the type to the value.
    pub is_none: bool,
}

impl DeclaredSizes {
    pub fn clear_input_sizes_state(&mut self)
        ensures
            final(self)@ == old(self)@.cleared(),
    {
        self.positional = false;
        self.named = false;
        self.sizes = Vec::new();
    }
}

impl FetchOptions {
    pub open spec fn with_lobs(self, value: bool) -> FetchOptions {
        FetchOptions { fetch_lobs: value, fetch_lobs_overridden: true, ..self }
    }

    pub open spec fn with_decimals(self, value: bool) -> FetchOptions {
        FetchOptions { fetch_decimals: value, fetch_decimals_overridden: true, ..self }
    }

    pub fn set_fetch_lobs(&mut self, value: bool)
        ensures
            *final(self) == old(self).with_lobs(value),
    {
        self.fetch_lobs = value;
        self.fetch_lobs_overridden = true;
    }

    pub fn set_fetch_decimals(&mut self, value: bool)
        ensures
            *final(self) == old(self).with_decimals(value),
    {
        self.fetch_decimals = value;
        self.fetch_decimals_overridden = true;
    }

    /// The options when a statement is executed: those that were not set keep to the defaults.
    pub open spec fn with_defaults(self, lobs: bool, decimals: bool) -> FetchOptions {
        FetchOptions {
            fetch_lobs: if self.fetch_lobs_overridden {
                self.fetch_lobs
            } else {
                lobs
            },
            fetch_decimals: if self.fetch_decimals_overridden {
                self.fetch_decimals
            } else {
                decimals
            },
            ..self
        }
    }

    fn apply_defaults(&mut self, lobs: bool, decimals: bool)
        ensures
            *final(self) == old(self).with_defaults(lobs, decimals),
    {
        if !self.fetch_lobs_overridden {
            self.fetch_lobs = lobs;
        }
        if !self.fetch_decimals_overridden {
            self.fetch_decimals = decimals;
        }
    }
}

pub open spec fn same_statement(a: Option<String>, b: Option<String>) -> bool {
    match (a, b) {
        (Some(x), Some(y)) => x@ == y@,
        (None, None) => true,
        _ => false,
    }
}

fn statements_equal(a: &Option<String>, b: &Option<String>) -> (r: bool)
    ensures
        r == same_statement(*a, *b),
{
    match (a, b) {
        (Some(x), Some(y)) => same_text(x.as_str(), y.as_str()),
        (None, None) => true,
        _ => false,
    }
}

impl PreparedModel {
    /// The statement that an execution names replaces that of the cursor.
    pub open spec fn with_statement(self, statement: Option<String>) -> PreparedModel {
        match statement {
            Some(s) => PreparedModel {
                statement: Some(s),
                statement_changed: !same_statement(self.statement, Some(s)),
                ..self
            },
            None => PreparedModel { statement_changed: false, ..self },
        }
    }
}

impl PreparedModel {
    /// A cursor whose statement was prepared.
    pub open spec fn prepared(
        self,
        statement: Option<String>,
        cache_statement: Option<bool>,
        bind_names: Seq<String>,
    ) -> PreparedModel {
        PreparedModel {
            statement,
            statement_changed: !same_statement(self.statement, statement),
            cache_statement: match cache_statement {
                Some(b) => b,
                None => true,
            },
            bind_names: if statement is Some {
                bind_names
            } else {
                Seq::empty()
            },
            ..self
        }
    }
}

impl Prepared {
    /// Prepares a statement, whose bind names the SQL parser found.
    pub fn prepare(
        &mut self,
        statement: Option<String>,
        cache_statement: Option<bool>,
        bind_names: Vec<String>,
    )
        ensures
            final(self)@ == old(self)@.prepared(statement, cache_statement, bind_names@),
    {
        self.statement_changed = !statements_equal(&self.statement, &statement);
        let has_statement = statement.is_some();
        self.statement = statement;
        self.cache_statement = match cache_statement {
            Some(b) => b,
            None => true,
        };
        self.bind_names = if has_statement {
            bind_names
        } else {
            Vec::new()
        };
    }

    pub(crate) fn adopt_statement(&mut self, statement: Option<String>)
        ensures
            final(self)@ == old(self)@.with_statement(statement),
    {
        match statement {
            Some(s) => {
                let next = Some(s);
                self.statement_changed = !statements_equal(&self.statement, &next);
                self.statement = next;
            },
            None => {
                self.statement_changed = false;
            },
        }
    }
}

impl<R> CursorModel<R> {
    /// The cursor after a statement was executed with success.
    pub open spec fn executed(
        self,
        result: QueryResult<R>,
        is_plsql: bool,
        flavor: Flavor,
        many: bool,
    ) -> CursorModel<R> {
        let is_query = result.columns@.len() > 0;
        let needs_define = require_define(result.columns@);
        // A first execution with vectors only describes the result set: the rows follow a define.
        let describe_only = flavor == Flavor::Blocking && needs_define && result.cursor_id != 0
            && result.rows@.len() == 0 && has_vector(result.columns@);
        let rowcount = if is_plsql || (is_query && !many) {
            0
        } else {
            clamp_i64(result.row_count as int)
        };
        CursorModel {
            defines: DefinesModel {
                columns: result.columns@,
                requires_define: needs_define && result.rows@.len() == 0,
                ..self.defines.reset()
            },
            buffer: BufferModel {
                rows: result.rows@,
                row_index: 0,
                cursor_id: result.cursor_id,
                more_rows: describe_only || result.more_rows,
                rowcount,
                invalid_ref_cursor: false,
                ..self.buffer
            }.refreshed(),
            outcome: OutcomeModel {
                is_query,
                last_rowid: result.last_rowid,
                warning: if result.compilation_error_warning {
                    Some(7000u32)
                } else {
                    None
                },
                ..self.outcome.with_implicit_resultsets(result.implicit_resultsets)
            },
            ..self
        }
    }

    /// The cursor after a batch was executed with success.
    pub open spec fn batch_executed(
        self,
        result: QueryResult<R>,
        is_plsql: bool,
        flavor: Flavor,
        batcherrors: bool,
        arraydmlrowcounts: bool,
    ) -> CursorModel<R> {
        let m = self.executed(result, is_plsql, flavor, true);
        CursorModel {
            outcome: m.outcome.with_batch_modes(
                result.batch_errors@,
                seq_of(result.array_dml_row_counts),
                batcherrors,
                arraydmlrowcounts,
            ),
            ..m
        }
    }
}

/// A batch whose errors and row counts were kept first ends as one that takes over its whole
/// result at once.
pub proof fn law_batch_modes_can_be_kept_first<R>(
    cursor: CursorModel<R>,
    result: QueryResult<R>,
    rest: QueryResult<R>,
    is_plsql: bool,
    flavor: Flavor,
    batcherrors: bool,
    arraydmlrowcounts: bool,
)
    requires
        result.without_batch(rest),
    ensures
        (CursorModel {
            outcome: cursor.outcome.with_batch_modes(
                result.batch_errors@,
                seq_of(result.array_dml_row_counts),
                batcherrors,
                arraydmlrowcounts,
            ),
            ..cursor
        }).executed(rest, is_plsql, flavor, true) == cursor.batch_executed(
            result,
            is_plsql,
            flavor,
            batcherrors,
            arraydmlrowcounts,
        ),
{
}

impl<R> CursorState<R> {
    /// A new cursor.
    pub fn new(scrollable: bool) -> (r: Self)
        ensures
            r@.buffer.window_ok(),
            r@.buffer.rows.len() == 0 && r@.buffer.cursor_id == 0 && r@.buffer.rowcount == 0
                && !r@.buffer.more_rows && r@.buffer.row_index == 0 && r@.buffer.min_row == 0
                && !r@.buffer.invalid_ref_cursor,
            r@.defines == (DefinesModel {
                columns: Seq::empty(),
                fetch_vars: Seq::empty(),
                define_columns: Seq::empty(),
                requires_define: false,
            }),
            r@.prepared == (PreparedModel {
                statement: None,
                statement_changed: false,
                cache_statement: true,
                bind_names: Seq::empty(),
                many_bind_rows: 0,
            }),
            r@.declared == (DeclaredModel {
                positional: false,
                named: false,
                sizes: Seq::empty(),
            }),
            r@.options == (FetchOptions {
                arraysize: 100,
                prefetchrows: 2,
                scrollable,
                fetch_lobs: true,
                fetch_lobs_overridden: false,
                fetch_decimals: false,
                fetch_decimals_overridden: false,
                fetching_arrow: false,
                suspend_on_success: false,
            }),
            r@.outcome == (OutcomeModel {
                is_query: false,
                last_rowid: None,
                warning: None,
                batch_errors: None,
                dml_row_counts: None,
                implicit_resultsets: None,
                implicit_cursors_built: false,
                has_rowfactory: false,
            }),
    {
        CursorState {
            prepared: Prepared {
                statement: None,
                statement_changed: false,
                cache_statement: true,
                bind_names: Vec::new(),
                many_bind_rows: 0,
            },
            declared: DeclaredSizes { positional: false, named: false, sizes: Vec::new() },
            options: FetchOptions {
                arraysize: 100,
                prefetchrows: 2,
                scrollable,
                fetch_lobs: true,
                fetch_lobs_overridden: false,
                fetch_decimals: false,
                fetch_decimals_overridden: false,
                fetching_arrow: false,
                suspend_on_success: false,
            },
            defines: Defines::empty(),
            buffer: RowBuffer::empty(),
            outcome: Outcome {
                is_query: false,
                last_rowid: None,
                warning: None,
                batch_errors: None,
                dml_row_counts: None,
                implicit_resultsets: None,
                implicit_cursors_built: false,
                has_rowfactory: false,
            },
        }
    }

    /// Readies the cursor for executing its statement, and says how to execute it.
    pub fn begin_execute(&mut self, default_lobs: bool, default_decimals: bool) -> (r: Result<
        ExecuteOptions,
        Fault,
    >)
        ensures
            old(self)@.begun(final(self)@, r, default_lobs, default_decimals),
    {
        if self.prepared.statement_changed {
            self.outcome.has_rowfactory = false;
        }
        self.options.apply_defaults(default_lobs, default_decimals);
        self.outcome.batch_errors = None;
        if self.prepared.statement.is_none() {
            return Err(Fault::Runtime(owned("no statement prepared")));
        }
        let scroll = if self.options.scrollable {
            Some(
                ScrollFetch {
                    orientation: Orientation::Current,
                    position: next_fetch_position(self.buffer.rowcount),
                },
            )
        } else {
            None
        };
        Ok(
            ExecuteOptions {
                batcherrors: false,
                arraydmlrowcounts: false,
                cache_statement: self.prepared.cache_statement,
                suspend_on_success: self.options.suspend_on_success,
                scroll,
            },
        )
    }

    fn adopt_result(
        &mut self,
        result: QueryResult<R>,
        is_plsql: bool,
        flavor: Flavor,
        many: bool,
    )
        requires
            result.rows@.len() <= i64::MAX,
        ensures
            final(self)@ == old(self)@.executed(result, is_plsql, flavor, many),
    {
        let is_query = result.columns.len() > 0;
        let needs_define = columns_require_define(&result.columns);
        let vector = columns_have_vector(&result.columns);
        let returned_rows = result.rows.len() > 0;
        let describe_only = flavor == Flavor::Blocking && needs_define && result.cursor_id != 0
            && !returned_rows && vector;
        self.outcome.warning = query_result_warning(result.compilation_error_warning);
        self.outcome.record_implicit_resultsets(result.implicit_resultsets);
        self.outcome.last_rowid = result.last_rowid;
        self.outcome.is_query = is_query;
        self.defines.columns = result.columns;
        self.defines.reset_fetch_define_state();
        self.defines.requires_define = needs_define && !returned_rows;
        self.buffer.rows = result.rows;
        self.buffer.row_index = 0;
        self.buffer.cursor_id = result.cursor_id;
        self.buffer.more_rows = describe_only || result.more_rows;
        self.buffer.invalid_ref_cursor = false;
        self.buffer.rowcount = if is_plsql || (is_query && !many) {
            0
        } else {
            to_rowcount(result.row_count)
        };
        self.buffer.refresh_buffer_window();
    }

    /// Takes over the result of an execution.
    pub fn finish_execute(&mut self, result: QueryResult<R>, is_plsql: bool, flavor: Flavor)
        requires
            result.rows@.len() <= i64::MAX,
        ensures
            final(self)@ == old(self)@.executed(result, is_plsql, flavor, false),
    {
        self.adopt_result(result, is_plsql, flavor, false);
    }

    /// Decides which rows of a batch are executed, and how.
    pub fn begin_executemany(
        &self,
        num_execs: u32,
        offset: u32,
        batcherrors: bool,
        arraydmlrowcounts: bool,
        is_dml: bool,
    ) -> (r: Result<BatchRange, Fault>)
        ensures
            self@.batch_range(r, num_execs, offset, batcherrors, arraydmlrowcounts, is_dml),
    {
        if self.prepared.statement.is_none() {
            return Err(Fault::Runtime(owned("no statement prepared")));
        }
        if (batcherrors || arraydmlrowcounts) && !is_dml {
            return Err(Fault::Named(ErrorName::ExecuteModeOnlyForDml));
        }
        let start: usize = offset as usize;
        let count: usize = num_execs as usize;
        let end: usize = match start.checked_add(count) {
            Some(e) => e,
            None => {
                return Err(Fault::Runtime(owned("executemany offset overflow")));
            },
        };
        if end > self.prepared.many_bind_rows {
            return Err(Fault::Runtime(owned("executemany batch is out of range")));
        }
        Ok(
            BatchRange {
                start,
                end,
                options: ExecuteOptions {
                    batcherrors,
                    arraydmlrowcounts,
                    cache_statement: self.prepared.cache_statement,
                    suspend_on_success: self.options.suspend_on_success,
                    scroll: None,
                },
            },
        )
    }

    /// Takes the errors and row counts of single rows out of the result of a batch, and keeps them
    /// in the modes that were asked for. This is done before anything else can fail.
    pub fn record_batch(
        &mut self,
        result: &mut QueryResult<R>,
        batcherrors: bool,
        arraydmlrowcounts: bool,
    )
        ensures
            final(self)@ == (CursorModel {
                outcome: old(self)@.outcome.with_batch_modes(
                    old(result).batch_errors@,
                    seq_of(old(result).array_dml_row_counts),
                    batcherrors,
                    arraydmlrowcounts,
                ),
                ..old(self)@
            }),
            old(result).without_batch(*final(result)),
    {
        let mut errors: Vec<BatchError> = Vec::new();
        std::mem::swap(&mut errors, &mut result.batch_errors);
        let counts = result.array_dml_row_counts.take();
        self.outcome.record_batch_modes(errors, counts, batcherrors, arraydmlrowcounts);
    }

    /// Takes over the result of a batch, behind [`CursorState::record_batch`].
    pub fn finish_executemany(&mut self, result: QueryResult<R>, is_plsql: bool, flavor: Flavor)
        requires
            result.rows@.len() <= i64::MAX,
        ensures
            final(self)@ == old(self)@.executed(result, is_plsql, flavor, true),
    {
        self.adopt_result(result, is_plsql, flavor, true);
    }

    /// What a failed execution leaves in the cursor, what it raises, and whether the connection is
    /// dropped. A cancelled execution raises the cancellation and leaves the cursor alone.
    pub fn fail_execute(
        &mut self,
        err: &TaskError,
        cancel_requested: bool,
        is_plsql: bool,
        is_session_dead: bool,
    ) -> (r: (Fault, bool))
        ensures
            old(self)@.failure(
                final(self)@,
                r,
                *err,
                cancel_requested,
                is_plsql,
                is_session_dead,
            ),
    {
        if cancel_requested {
            return (ora_cancel_error(), false);
        }
        if let Some(d) = &err.details {
            if !is_plsql {
                self.buffer.rowcount = to_rowcount(d.row_count);
            }
            self.outcome.last_rowid = match &d.rowid {
                Some(s) => Some(s.clone()),
                None => None,
            };
        }
        err.raise(is_session_dead)
    }

    /// What a failed batch leaves in the cursor, what it raises, and whether the connection is
    /// dropped.
    pub fn fail_executemany(
        &mut self,
        err: &TaskError,
        counts: Option<Vec<u64>>,
        cancel_requested: bool,
        is_plsql: bool,
        is_session_dead: bool,
        batcherrors: bool,
        arraydmlrowcounts: bool,
    ) -> (r: (Fault, bool))
        ensures
            old(self)@.batch_failure(
                final(self)@,
                r,
                *err,
                seq_of(counts),
                cancel_requested,
                is_plsql,
                is_session_dead,
                batcherrors,
                arraydmlrowcounts,
            ),
    {
        if !cancel_requested {
            self.outcome.record_executemany_error_modes(counts, batcherrors, arraydmlrowcounts);
        }
        self.fail_execute(err, cancel_requested, is_plsql, is_session_dead)
    }

    /// Takes over the description of a statement that was parsed.
    pub fn finish_parse(&mut self, columns: Vec<ColumnMetadata>)
        ensures
            final(self)@ == old(self)@.parsed(columns@),
    {
        if columns.len() > 0 {
            let needs_define = columns_require_define(&columns);
            self.defines.columns = columns;
            self.defines.reset_fetch_define_state();
            self.defines.requires_define = needs_define;
            self.buffer.clear_rows();
            self.buffer.more_rows = false;
            self.outcome.is_query = true;
        }
    }

    /// Forgets the server cursor of a cursor that was just bound to a call, which may have closed
    /// it.
    pub fn reset_after_cursor_bind(&mut self)
        ensures
            final(self)@ == old(self)@.bound_away(),
    {
        self.prepared.statement = None;
        self.buffer.cursor_id = 0;
        self.defines.reset_fetch_define_state();
        self.buffer.clear_rows();
        self.buffer.more_rows = false;
        self.outcome.is_query = false;
    }

    /// Closes the cursor, and says which server cursor to give back if it has one.
    pub fn close(&mut self) -> (r: Option<u32>)
        ensures
            r == old(self)@.released(),
            final(self)@ == old(self)@.after_close(),
    {
        let released = if self.buffer.cursor_id != 0 {
            Some(self.buffer.cursor_id)
        } else {
            None
        };
        self.prepared.statement = None;
        self.prepared.bind_names = Vec::new();
        self.prepared.many_bind_rows = 0;
        self.declared.sizes = Vec::new();
        self.defines.columns = Vec::new();
        self.defines.reset_fetch_define_state();
        self.buffer.clear_rows();
        self.buffer.cursor_id = 0;
        self.buffer.more_rows = false;
        self.buffer.invalid_ref_cursor = false;
        self.outcome.is_query = false;
        released
    }

    /// Gives the cursor an open result set that the server returned as a value.
    pub fn hydrate(
        &mut self,
        columns: Vec<ColumnMetadata>,
        cursor_id: u32,
        invalid_ref_cursor: bool,
    )
        ensures
            final(self)@ == old(self)@.hydrated(columns@, cursor_id, invalid_ref_cursor),
    {
        self.defines.columns = columns;
        self.defines.reset_fetch_define_state();
        self.buffer.clear_rows();
        self.buffer.cursor_id = cursor_id;
        self.buffer.more_rows = cursor_id != 0;
        self.buffer.invalid_ref_cursor = invalid_ref_cursor;
        self.buffer.rowcount = 0;
        self.outcome.is_query = true;
    }

    /// The id of the last row that a statement touched, if it touched any.
    pub fn get_lastrowid(&self) -> (r: Option<String>)
        ensures
            r == self@.shown_rowid(),
    {
        if self.buffer.rowcount > 0 {
            match &self.outcome.last_rowid {
                Some(s) => Some(s.clone()),
                None => None,
            }
        } else {
            None
        }
    }

    /// Rows that were fetched with other defines are discarded, and fetched anew.
    pub fn finish_fetch_defines(&mut self, define_changed: bool)
        ensures
            final(self)@ == old(self)@.redefined(define_changed),
    {
        if define_changed && self.buffer.rows.len() > 0 && self.buffer.cursor_id != 0 {
            self.buffer.clear_rows();
            self.buffer.more_rows = true;
        }
    }

    /// Decides how the next row is got.
    pub fn plan_fetch(&self, flavor: Flavor) -> (r: Result<FetchStep, Fault>)
        ensures
            self@.fetch_planned(r, flavor),
    {
        if self.buffer.invalid_ref_cursor {
            return Err(Fault::Named(ErrorName::InvalidRefCursor));
        }
        if !self.buffer.fetch_needed() {
            return Ok(FetchStep::Buffered);
        }
        if self.options.scrollable {
            return Ok(
                FetchStep::Scroll(
                    ScrollFetch {
                        orientation: Orientation::Current,
                        position: next_fetch_position(self.buffer.rowcount),
                    },
                ),
            );
        }
        if self.defines.requires_define {
            let rows: u32 = if flavor == Flavor::Blocking && self.options.prefetchrows == 0 {
                if self.options.arraysize == 0 {
                    1
                } else {
                    self.options.arraysize
                }
            } else {
                self.options.prefetchrows
            };
            return Ok(FetchStep::DefineAndFetch(rows));
        }
        Ok(FetchStep::Fetch(self.options.arraysize))
    }

    /// Whether an execution ends with the first fetch. The rows of a result set with deferred rows
    /// are fetched before an awaited execution returns, so that an error in a row is one of the
    /// execution. Arrow data is fetched with defines of its own.
    pub fn fetches_at_execute(&self, flavor: Flavor) -> (r: bool)
        ensures
            r == (flavor == Flavor::Awaited && self.outcome.is_query
                && self.defines.requires_define && !self.options.fetching_arrow),
            r == self@.primes(flavor),
    {
        flavor == Flavor::Awaited && self.outcome.is_query && self.defines.requires_define
            && !self.options.fetching_arrow
    }

    /// Takes over the result of a fetch.
    pub fn apply_fetch_result(&mut self, result: QueryResult<R>)
        requires
            result.rows@.len() <= i64::MAX,
        ensures
            final(self)@ == old(self)@.fetched(result),
    {
        if result.columns.len() > 0 {
            self.defines.columns = result.columns;
        } else if self.defines.requires_define {
            self.defines.columns = duplicate_columns(&self.defines.define_columns);
        }
        self.buffer.apply_fetch(result.rows, result.cursor_id, result.more_rows);
        self.defines.requires_define = false;
    }

    /// Takes over the result of a scroll request.
    pub fn apply_scroll(&mut self, orientation: Orientation, result: QueryResult<R>) -> (r: Result<
        (),
        Fault,
    >)
        requires
            result.rows@.len() <= i64::MAX,
        ensures
            final(self)@ == old(self)@.after_scroll(orientation, result),
            scroll_answered(r, orientation, result.rows@.len() as int),
    {
        if result.columns.len() > 0 {
            self.defines.columns = result.columns;
        }
        let scroll = ScrollResult {
            rows: result.rows,
            cursor_id: result.cursor_id,
            more_rows: result.more_rows,
            row_count: result.row_count,
        };
        self.buffer.apply_scroll_result(orientation, scroll)
    }
}

impl<R> CursorModel<R> {
    /// What readying the cursor for an execution comes to.
    pub open spec fn begun(
        self,
        after: CursorModel<R>,
        r: Result<ExecuteOptions, Fault>,
        default_lobs: bool,
        default_decimals: bool,
    ) -> bool {
        &&& after == (CursorModel {
            options: self.options.with_defaults(default_lobs, default_decimals),
            outcome: OutcomeModel {
                batch_errors: None,
                has_rowfactory: self.outcome.has_rowfactory && !self.prepared.statement_changed,
                ..self.outcome
            },
            ..self
        })
        &&& match r {
            Ok(options) => self.prepared.statement is Some && options == (ExecuteOptions {
                batcherrors: false,
                arraydmlrowcounts: false,
                cache_statement: self.prepared.cache_statement,
                suspend_on_success: self.options.suspend_on_success,
                scroll: if self.options.scrollable {
                    Some(
                        ScrollFetch {
                            orientation: Orientation::Current,
                            position: next_position(self.buffer.rowcount),
                        },
                    )
                } else {
                    None
                },
            }),
            Err(f) => self.prepared.statement is None && f@ == FaultView::Runtime(
                "no statement prepared"@,
            ),
        }
    }

    /// Which rows of a batch are executed, and how.
    pub open spec fn batch_range(
        self,
        r: Result<BatchRange, Fault>,
        num_execs: u32,
        offset: u32,
        batcherrors: bool,
        arraydmlrowcounts: bool,
        is_dml: bool,
    ) -> bool {
        if self.prepared.statement is None {
            r matches Err(f) && f@ == FaultView::Runtime("no statement prepared"@)
        } else if (batcherrors || arraydmlrowcounts) && !is_dml {
            r matches Err(f) && f@ == FaultView::Named(ErrorName::ExecuteModeOnlyForDml)
        } else if offset + num_execs > usize::MAX {
            r matches Err(f) && f@ == FaultView::Runtime("executemany offset overflow"@)
        } else if offset + num_execs > self.prepared.many_bind_rows {
            r matches Err(f) && f@ == FaultView::Runtime("executemany batch is out of range"@)
        } else {
            r == Ok::<BatchRange, Fault>(
                BatchRange {
                    start: offset as usize,
                    end: (offset + num_execs) as usize,
                    options: ExecuteOptions {
                        batcherrors,
                        arraydmlrowcounts,
                        cache_statement: self.prepared.cache_statement,
                        suspend_on_success: self.options.suspend_on_success,
                        scroll: None,
                    },
                },
            )
        }
    }

    /// What a failed execution leaves, raises and says of the session.
    pub open spec fn failure(
        self,
        after: CursorModel<R>,
        r: (Fault, bool),
        err: TaskError,
        cancel_requested: bool,
        is_plsql: bool,
        is_session_dead: bool,
    ) -> bool {
        if cancel_requested {
            after == self && r.0@ == cancel_view() && !r.1
        } else {
            after == self.failed(err, is_plsql) && r.0@ == err.fault() && r.1 == (err.details is Some
                && is_session_dead)
        }
    }

    /// What a failed batch leaves, raises and says of the session.
    pub open spec fn batch_failure(
        self,
        after: CursorModel<R>,
        r: (Fault, bool),
        err: TaskError,
        counts: Option<Seq<u64>>,
        cancel_requested: bool,
        is_plsql: bool,
        is_session_dead: bool,
        batcherrors: bool,
        arraydmlrowcounts: bool,
    ) -> bool {
        if cancel_requested {
            after == self && r.0@ == cancel_view() && !r.1
        } else {
            &&& after == (CursorModel {
                outcome: self.outcome.with_batch_modes(
                    Seq::empty(),
                    counts,
                    batcherrors,
                    arraydmlrowcounts,
                ),
                ..self
            }).failed(err, is_plsql)
            &&& r.0@ == err.fault()
            &&& r.1 == (err.details is Some && is_session_dead)
        }
    }

    /// The cursor after its statement was parsed.
    pub open spec fn parsed(self, columns: Seq<ColumnMetadata>) -> CursorModel<R> {
        if columns.len() > 0 {
            CursorModel {
                defines: DefinesModel {
                    columns,
                    requires_define: require_define(columns),
                    ..self.defines.reset()
                },
                buffer: BufferModel { more_rows: false, ..self.buffer.emptied() },
                outcome: OutcomeModel { is_query: true, ..self.outcome },
                ..self
            }
        } else {
            self
        }
    }

    /// The cursor after it was bound to a call.
    pub open spec fn bound_away(self) -> CursorModel<R> {
        CursorModel {
            prepared: PreparedModel { statement: None, ..self.prepared },
            defines: self.defines.reset(),
            buffer: BufferModel { cursor_id: 0, more_rows: false, ..self.buffer.emptied() },
            outcome: OutcomeModel { is_query: false, ..self.outcome },
            ..self
        }
    }

    /// The server cursor that closing gives back.
    pub open spec fn released(self) -> Option<u32> {
        if self.buffer.cursor_id != 0 {
            Some(self.buffer.cursor_id)
        } else {
            None
        }
    }

    pub open spec fn after_close(self) -> CursorModel<R> {
        CursorModel {
            prepared: PreparedModel {
                statement: None,
                bind_names: Seq::empty(),
                many_bind_rows: 0,
                ..self.prepared
            },
            declared: DeclaredModel { sizes: Seq::empty(), ..self.declared },
            defines: DefinesModel { columns: Seq::empty(), ..self.defines.reset() },
            buffer: BufferModel {
                cursor_id: 0,
                more_rows: false,
                invalid_ref_cursor: false,
                ..self.buffer.emptied()
            },
            outcome: OutcomeModel { is_query: false, ..self.outcome },
            ..self
        }
    }

    /// The cursor on an open result set that the server returned.
    pub open spec fn hydrated(
        self,
        columns: Seq<ColumnMetadata>,
        cursor_id: u32,
        invalid_ref_cursor: bool,
    ) -> CursorModel<R> {
        CursorModel {
            defines: DefinesModel { columns, ..self.defines.reset() },
            buffer: BufferModel {
                cursor_id,
                more_rows: cursor_id != 0,
                invalid_ref_cursor,
                rowcount: 0,
                ..self.buffer.emptied()
            },
            outcome: OutcomeModel { is_query: true, ..self.outcome },
            ..self
        }
    }

    /// The row id that the cursor shows.
    pub open spec fn shown_rowid(self) -> Option<String> {
        if self.buffer.rowcount > 0 {
            self.outcome.last_rowid
        } else {
            None
        }
    }

    /// The cursor once its defines are settled.
    pub open spec fn redefined(self, define_changed: bool) -> CursorModel<R> {
        if define_changed && self.buffer.rows.len() > 0 && self.buffer.cursor_id != 0 {
            CursorModel {
                buffer: BufferModel { more_rows: true, ..self.buffer.emptied() },
                ..self
            }
        } else {
            self
        }
    }

    /// What deciding on the next row comes to.
    pub open spec fn fetch_planned(self, r: Result<FetchStep, Fault>, flavor: Flavor) -> bool {
        if self.buffer.invalid_ref_cursor {
            r matches Err(f) && f@ == FaultView::Named(ErrorName::InvalidRefCursor)
        } else {
            r == Ok::<FetchStep, Fault>(self.fetch_step(flavor))
        }
    }

    /// The cursor after the server answered a scroll request.
    pub open spec fn after_scroll(
        self,
        orientation: Orientation,
        result: QueryResult<R>,
    ) -> CursorModel<R> {
        CursorModel {
            defines: DefinesModel {
                columns: if result.columns@.len() > 0 {
                    result.columns@
                } else {
                    self.defines.columns
                },
                ..self.defines
            },
            buffer: self.buffer.scrolled(
                orientation,
                result.rows@,
                result.cursor_id,
                result.more_rows,
                result.row_count,
            ),
            ..self
        }
    }
}

/// The error of a cancelled execution.
pub open spec fn cancel_view() -> FaultView {
    database_view("ORA-01013: user requested cancel of current operation"@)
}

impl<R> CursorModel<R> {
    /// The cursor after an execution failed.
    pub open spec fn failed(self, err: TaskError, is_plsql: bool) -> CursorModel<R> {
        match err.details {
            Some(d) => CursorModel {
                buffer: BufferModel {
                    rowcount: if is_plsql {
                        self.buffer.rowcount
                    } else {
                        clamp_i64(d.row_count as int)
                    },
                    ..self.buffer
                },
                outcome: OutcomeModel { last_rowid: d.rowid, ..self.outcome },
                ..self
            },
            None => self,
        }
    }

    pub open spec fn fetch_step(self, flavor: Flavor) -> FetchStep {
        if !self.buffer.needs_fetch() {
            FetchStep::Buffered
        } else if self.options.scrollable {
            FetchStep::Scroll(
                ScrollFetch {
                    orientation: Orientation::Current,
                    position: next_position(self.buffer.rowcount),
                },
            )
        } else if self.defines.requires_define {
            FetchStep::DefineAndFetch(
                if flavor == Flavor::Blocking && self.options.prefetchrows == 0 {
                    if self.options.arraysize == 0 {
                        1
                    } else {
                        self.options.arraysize
                    }
                } else {
                    self.options.prefetchrows
                },
            )
        } else {
            FetchStep::Fetch(self.options.arraysize)
        }
    }

    /// An execution ends with the first fetch.
    pub open spec fn primes(self, flavor: Flavor) -> bool {
        flavor == Flavor::Awaited && self.outcome.is_query && self.defines.requires_define
            && !self.options.fetching_arrow
    }

    /// The cursor after a fetch.
    pub open spec fn fetched(self, result: QueryResult<R>) -> CursorModel<R> {
        CursorModel {
            defines: DefinesModel {
                columns: if result.columns@.len() > 0 {
                    result.columns@
                } else if self.defines.requires_define {
                    self.defines.define_columns
                } else {
                    self.defines.columns
                },
                requires_define: false,
                ..self.defines
            },
            buffer: self.buffer.fetched(result.rows@, result.cursor_id, result.more_rows),
            ..self
        }
    }
}

/// After an execution the window of the buffer covers exactly the rows that came with it.
pub proof fn law_executed_window<R>(
    before: CursorModel<R>,
    result: QueryResult<R>,
    is_plsql: bool,
    flavor: Flavor,
    many: bool,
)
    requires
        result.rows@.len() <= i64::MAX,
    ensures
        before.executed(result, is_plsql, flavor, many).buffer.window_ok(),
        before.executed(result, is_plsql, flavor, many).buffer.rowcount >= 0,
{
}

/// An execution that sent rows leaves nothing to define: what remains is fetched plainly.
pub proof fn law_rows_settle_defines<R>(
    before: CursorModel<R>,
    result: QueryResult<R>,
    is_plsql: bool,
    flavor: Flavor,
    many: bool,
)
    requires
        result.rows@.len() > 0,
    ensures
        !before.executed(result, is_plsql, flavor, many).defines.requires_define,
        before.executed(result, is_plsql, flavor, many).buffer.more_rows == result.more_rows,
{
}

/// A fetch is asked of the server only when the buffer is used up and the server has more rows.
pub proof fn law_fetch_only_when_used_up<R>(m: CursorModel<R>, flavor: Flavor)
    ensures
        m.fetch_step(flavor) != FetchStep::Buffered <==> m.buffer.row_index >= m.buffer.rows.len()
            && m.buffer.more_rows && m.buffer.cursor_id != 0,
{
}

/// Rows that an awaited execution left out, because a column of LOBs, JSON values or vectors has to
/// be defined, are fetched with the define before the execution ends. After that fetch the
/// execution does not fetch again. `max_long` is the largest size that the protocol has.
pub proof fn law_deferred_rows_come_with_execution<R>(
    before: CursorModel<R>,
    result: QueryResult<R>,
    is_plsql: bool,
    max_long: u32,
    reply: QueryResult<R>,
)
    requires
        require_define(result.columns@),
        result.rows@.len() == 0,
        result.more_rows,
        result.cursor_id != 0,
        !before.options.scrollable,
        !before.options.fetching_arrow,
    ensures
        ({
            let executed = before.executed(result, is_plsql, Flavor::Awaited, false);
            let ready = CursorModel { defines: executed.defines.prepared(max_long), ..executed };
            &&& ready.primes(Flavor::Awaited)
            &&& ready.fetch_step(Flavor::Awaited) == FetchStep::DefineAndFetch(
                before.options.prefetchrows,
            )
            &&& !ready.fetched(reply).primes(Flavor::Awaited)
        }),
{
}

/// A define is made at most once: after a fetch nothing is left to define.
pub proof fn law_defined_once<R>(m: CursorModel<R>, result: QueryResult<R>, flavor: Flavor)
    ensures
        !(m.fetched(result).fetch_step(flavor) is DefineAndFetch),
{
}

/// A statement that is not PL/SQL and returns no columns is reported with the server's count of
/// rows, up to the largest that can be shown, whether the call blocked or was awaited. A query and
/// a PL/SQL block have counted no row yet.
pub proof fn law_execution_reports_row_count<R>(
    before: CursorModel<R>,
    result: QueryResult<R>,
    is_plsql: bool,
    flavor: Flavor,
)
    ensures
        ({
            let m = before.executed(result, is_plsql, flavor, false);
            &&& !is_plsql && result.columns@.len() == 0 && result.row_count <= i64::MAX
                ==> m.buffer.rowcount == result.row_count
            &&& !is_plsql && result.columns@.len() == 0 && result.row_count > i64::MAX
                ==> m.buffer.rowcount == i64::MAX
            &&& is_plsql || result.columns@.len() > 0 ==> m.buffer.rowcount == 0
        }),
{
}

/// A batch is reported with the server's count of rows, also where it returns columns; a batch of
/// PL/SQL counts none.
pub proof fn law_batch_reports_row_count<R>(
    before: CursorModel<R>,
    result: QueryResult<R>,
    is_plsql: bool,
    flavor: Flavor,
)
    ensures
        ({
            let m = before.executed(result, is_plsql, flavor, true);
            &&& !is_plsql && result.row_count <= i64::MAX ==> m.buffer.rowcount
                == result.row_count
            &&& !is_plsql && result.row_count > i64::MAX ==> m.buffer.rowcount == i64::MAX
            &&& is_plsql ==> m.buffer.rowcount == 0
        }),
{
}

/// An execution leaves in the cursor what the server answered: its columns, its rows with the
/// first of them next, its cursor, its row id and its warning. What was prepared and declared and
/// how rows are fetched stays.
pub proof fn law_execution_adopts_the_answer<R>(
    before: CursorModel<R>,
    result: QueryResult<R>,
    is_plsql: bool,
    flavor: Flavor,
    many: bool,
)
    ensures
        ({
            let m = before.executed(result, is_plsql, flavor, many);
            &&& m.outcome.is_query <==> result.columns@.len() > 0
            &&& m.outcome.last_rowid == result.last_rowid
            &&& m.outcome.warning is Some <==> result.compilation_error_warning
            &&& m.defines.columns == result.columns@
            &&& m.defines.fetch_vars.len() == 0 && m.defines.define_columns.len() == 0
            &&& m.buffer.rows == result.rows@ && m.buffer.row_index == 0
            &&& m.buffer.cursor_id == result.cursor_id && !m.buffer.invalid_ref_cursor
            &&& result.implicit_resultsets matches Some(n) ==> m.outcome.implicit_resultsets
                == Some(n) && !m.outcome.implicit_cursors_built
            &&& result.implicit_resultsets is None ==> m.outcome.implicit_resultsets
                == before.outcome.implicit_resultsets && m.outcome.implicit_cursors_built
                == before.outcome.implicit_cursors_built
            &&& m.outcome.batch_errors == before.outcome.batch_errors
            &&& m.outcome.dml_row_counts == before.outcome.dml_row_counts
            &&& m.outcome.has_rowfactory == before.outcome.has_rowfactory
            &&& m.prepared == before.prepared && m.declared == before.declared && m.options
                == before.options
        }),
{
}

/// The server has more rows where it says so. Besides, a blocking execution that only described a
/// result set with vectors has all of its rows left. Rows that did not come with an execution
/// because of the type of a column wait for a define.
pub proof fn law_execution_says_what_is_left<R>(
    before: CursorModel<R>,
    result: QueryResult<R>,
    is_plsql: bool,
    flavor: Flavor,
    many: bool,
)
    ensures
        ({
            let m = before.executed(result, is_plsql, flavor, many);
            let vector = exists|i: int|
                0 <= i < result.columns@.len() && (#[trigger] result.columns@[i]).ora_type
                    == OraType::Vector;
            let deferring = exists|i: int|
                0 <= i < result.columns@.len() && {
                    ||| (#[trigger] result.columns@[i]).ora_type == OraType::Clob
                    ||| result.columns@[i].ora_type == OraType::Blob
                    ||| result.columns@[i].ora_type == OraType::Json
                    ||| result.columns@[i].ora_type == OraType::Vector
                };
            &&& result.more_rows ==> m.buffer.more_rows
            &&& !result.more_rows ==> (m.buffer.more_rows <==> vector && result.rows@.len() == 0
                && result.cursor_id != 0 && flavor == Flavor::Blocking)
            &&& m.defines.requires_define <==> deferring && result.rows@.len() == 0
        }),
{
    law_columns_that_defer_rows(result.columns@);
}

/// Whether the call blocks or is awaited changes nothing of what is reported: count, row id,
/// columns, rows and cursor are the same.
pub proof fn law_flavors_report_alike<R>(
    before: CursorModel<R>,
    result: QueryResult<R>,
    is_plsql: bool,
    many: bool,
)
    ensures
        ({
            let one = before.executed(result, is_plsql, Flavor::Blocking, many);
            let two = before.executed(result, is_plsql, Flavor::Awaited, many);
            &&& one.outcome == two.outcome && one.defines == two.defines
            &&& one.buffer.rowcount == two.buffer.rowcount
            &&& one.buffer.rows == two.buffer.rows && one.buffer.row_index
                == two.buffer.row_index
            &&& one.buffer.cursor_id == two.buffer.cursor_id
            &&& one.buffer.min_row == two.buffer.min_row && one.buffer.max_row
                == two.buffer.max_row
            &&& result.rows@.len() > 0 ==> one == two
        }),
{
}

/// The row id of the last statement is shown while rows count as touched, and only then.
pub proof fn law_row_id_is_shown_with_rows<R>(m: CursorModel<R>)
    ensures
        m.buffer.rowcount > 0 ==> m.shown_rowid() == m.outcome.last_rowid,
        m.buffer.rowcount <= 0 ==> m.shown_rowid() is None,
{
}

/// After a data change that touched rows the row id that the server sent is shown.
pub proof fn law_touched_rows_show_row_id<R>(
    before: CursorModel<R>,
    result: QueryResult<R>,
    flavor: Flavor,
)
    requires
        result.columns@.len() == 0,
    ensures
        before.executed(result, false, flavor, false).shown_rowid() == if result.row_count > 0 {
            result.last_rowid
        } else {
            None
        },
{
}

/// What a batch reports of single rows is kept exactly in the modes that asked for it. Errors of an
/// earlier batch are dropped; row counts stay until a batch asks for them anew.
pub proof fn law_batch_modes_keep_what_was_asked(
    o: OutcomeModel,
    errors: Seq<BatchError>,
    counts: Option<Seq<u64>>,
    batcherrors: bool,
    arraydmlrowcounts: bool,
)
    ensures
        ({
            let m = o.with_batch_modes(errors, counts, batcherrors, arraydmlrowcounts);
            &&& batcherrors ==> m.batch_errors == Some(errors)
            &&& !batcherrors ==> m.batch_errors is None
            &&& arraydmlrowcounts && counts is Some ==> m.dml_row_counts == counts
            &&& arraydmlrowcounts && counts is None ==> m.dml_row_counts == Some(
                Seq::<u64>::empty(),
            )
            &&& !arraydmlrowcounts ==> m.dml_row_counts == o.dml_row_counts
            &&& m.is_query == o.is_query && m.last_rowid == o.last_rowid && m.warning == o.warning
            &&& m.implicit_resultsets == o.implicit_resultsets && m.implicit_cursors_built
                == o.implicit_cursors_built && m.has_rowfactory == o.has_rowfactory
        }),
{
}

/// Implicit result sets are handed out once, as many as the statement returned, and are an error
/// before there are any.
pub proof fn law_implicit_results_come_once(
    o: OutcomeModel,
    sets: usize,
    one: OutcomeModel,
    two: OutcomeModel,
    first: Result<Option<usize>, Fault>,
    second: Result<Option<usize>, Fault>,
)
    requires
        o.with_implicit_resultsets(Some(sets)).implicit_outcome(one, first),
        one.implicit_outcome(two, second),
    ensures
        first == Ok::<Option<usize>, Fault>(Some(sets)),
        second == Ok::<Option<usize>, Fault>(None),
        o.with_implicit_resultsets(None) == o,
{
}

pub proof fn law_implicit_results_need_a_statement(
    o: OutcomeModel,
    after: OutcomeModel,
    r: Result<Option<usize>, Fault>,
)
    requires
        o.implicit_outcome(after, r),
    ensures
        r is Err <==> !o.implicit_cursors_built && o.implicit_resultsets is None,
        r matches Err(f) ==> f@ == FaultView::Named(ErrorName::NoStatementExecuted) && after == o,
{
}

/// An execution needs a statement, and goes by the options of the cursor: where they were not set
/// by hand, by the defaults. A row factory lasts as long as the statement.
pub proof fn law_execution_begins_with_the_options<R>(
    m: CursorModel<R>,
    after: CursorModel<R>,
    r: Result<ExecuteOptions, Fault>,
    lobs: bool,
    decimals: bool,
)
    requires
        m.begun(after, r, lobs, decimals),
    ensures
        r is Ok <==> m.prepared.statement is Some,
        r matches Ok(o) ==> {
            &&& !o.batcherrors && !o.arraydmlrowcounts
            &&& o.cache_statement == m.prepared.cache_statement
            &&& o.suspend_on_success == m.options.suspend_on_success
            &&& o.scroll is Some <==> m.options.scrollable
            &&& o.scroll matches Some(s) ==> s.orientation == Orientation::Current && (0
                <= m.buffer.rowcount < u32::MAX ==> s.position == m.buffer.rowcount + 1)
        },
        after.options.fetch_lobs == if m.options.fetch_lobs_overridden {
            m.options.fetch_lobs
        } else {
            lobs
        },
        after.options.fetch_decimals == if m.options.fetch_decimals_overridden {
            m.options.fetch_decimals
        } else {
            decimals
        },
        after.options.arraysize == m.options.arraysize && after.options.prefetchrows
            == m.options.prefetchrows && after.options.scrollable == m.options.scrollable,
        after.options.fetch_lobs_overridden == m.options.fetch_lobs_overridden,
        after.options.fetch_decimals_overridden == m.options.fetch_decimals_overridden,
        after.outcome.batch_errors is None,
        m.prepared.statement_changed ==> !after.outcome.has_rowfactory,
        !m.prepared.statement_changed ==> after.outcome.has_rowfactory
            == m.outcome.has_rowfactory,
        after.prepared == m.prepared && after.declared == m.declared && after.buffer == m.buffer
            && after.defines == m.defines,
{
}

/// A batch executes the rows that were asked for: as many as asked, from the offset on, and only
/// rows that were bound. The modes that report single rows are for data changes alone.
pub proof fn law_batch_range_is_what_was_asked<R>(
    m: CursorModel<R>,
    r: Result<BatchRange, Fault>,
    num_execs: u32,
    offset: u32,
    batcherrors: bool,
    arraydmlrowcounts: bool,
    is_dml: bool,
)
    requires
        m.batch_range(r, num_execs, offset, batcherrors, arraydmlrowcounts, is_dml),
    ensures
        r matches Ok(b) ==> {
            &&& b.start == offset && b.end - b.start == num_execs
            &&& b.end <= m.prepared.many_bind_rows
            &&& b.options.batcherrors == batcherrors && b.options.arraydmlrowcounts
                == arraydmlrowcounts
            &&& b.options.cache_statement == m.prepared.cache_statement
            &&& b.options.suspend_on_success == m.options.suspend_on_success
            &&& b.options.scroll is None
        },
        r is Ok <==> m.prepared.statement is Some && (is_dml || !batcherrors
            && !arraydmlrowcounts) && offset + num_execs <= m.prepared.many_bind_rows,
        m.prepared.statement is Some && !is_dml && (batcherrors || arraydmlrowcounts) ==> (r
            matches Err(f) && f@ == FaultView::Named(ErrorName::ExecuteModeOnlyForDml)),
{
}

/// A failed execution that the server described leaves its row id, and but for PL/SQL its count of
/// rows; one that it did not describe leaves the cursor. The rest of the cursor stays. A cancelled
/// one leaves all of it, raises the cancellation and keeps the session.
pub proof fn law_failure_reports_what_was_done<R>(
    m: CursorModel<R>,
    after: CursorModel<R>,
    r: (Fault, bool),
    err: TaskError,
    cancel_requested: bool,
    is_plsql: bool,
    is_session_dead: bool,
)
    requires
        m.failure(after, r, err, cancel_requested, is_plsql, is_session_dead),
    ensures
        cancel_requested ==> after == m && !r.1 && r.0@ == database_view(
            "ORA-01013: user requested cancel of current operation"@,
        ),
        !cancel_requested && err.details is None ==> after == m && !r.1,
        !cancel_requested && err.details is Some ==> {
            &&& after.outcome.last_rowid == err.details->0.rowid
            &&& is_plsql ==> after.buffer == m.buffer
            &&& !is_plsql && err.details->0.row_count <= i64::MAX ==> after.buffer.rowcount
                == err.details->0.row_count
            &&& r.1 == is_session_dead
        },
        after.buffer.rows == m.buffer.rows && after.buffer.row_index == m.buffer.row_index
            && after.buffer.cursor_id == m.buffer.cursor_id && after.buffer.more_rows
            == m.buffer.more_rows,
        after.defines == m.defines && after.prepared == m.prepared && after.options == m.options
            && after.declared == m.declared,
        after.outcome.is_query == m.outcome.is_query,
        !cancel_requested ==> r.0@ == err.fault(),
{
}

/// A failed batch fails as an execution does, and besides keeps the row counts that the server
/// sent, with no errors of single rows, in the modes that were asked for.
pub proof fn law_failed_batch_keeps_counts<R>(
    m: CursorModel<R>,
    after: CursorModel<R>,
    r: (Fault, bool),
    err: TaskError,
    counts: Option<Seq<u64>>,
    cancel_requested: bool,
    is_plsql: bool,
    is_session_dead: bool,
    batcherrors: bool,
    arraydmlrowcounts: bool,
)
    requires
        m.batch_failure(
            after,
            r,
            err,
            counts,
            cancel_requested,
            is_plsql,
            is_session_dead,
            batcherrors,
            arraydmlrowcounts,
        ),
    ensures
        cancel_requested ==> after == m && !r.1,
        !cancel_requested ==> {
            &&& batcherrors ==> after.outcome.batch_errors == Some(Seq::<BatchError>::empty())
            &&& !batcherrors ==> after.outcome.batch_errors is None
            &&& arraydmlrowcounts && counts is Some ==> after.outcome.dml_row_counts == counts
            &&& !arraydmlrowcounts ==> after.outcome.dml_row_counts == m.outcome.dml_row_counts
            &&& r.0@ == err.fault() && r.1 == (err.details is Some && is_session_dead)
            &&& err.details is Some ==> after.outcome.last_rowid == err.details->0.rowid
            &&& err.details is Some && !is_plsql && err.details->0.row_count <= i64::MAX
                ==> after.buffer.rowcount == err.details->0.row_count
            &&& is_plsql || err.details is None ==> after.buffer == m.buffer
        },
        after.buffer.rows == m.buffer.rows && after.defines == m.defines && after.prepared
            == m.prepared,
{
}

/// A fetch of rows is planned by the state of the cursor: an invalid cursor is refused; a scrollable
/// one is executed again behind the rows that were consumed; a due define is made with the fetch,
/// never for no rows in a blocking call; else as many rows as the array size are fetched.
pub proof fn law_fetch_follows_the_options<R>(
    m: CursorModel<R>,
    r: Result<FetchStep, Fault>,
    flavor: Flavor,
)
    requires
        m.fetch_planned(r, flavor),
    ensures
        m.buffer.invalid_ref_cursor <==> r is Err,
        r matches Err(f) ==> f@ == FaultView::Named(ErrorName::InvalidRefCursor),
        r matches Ok(FetchStep::Scroll(s)) ==> m.options.scrollable && s.orientation
            == Orientation::Current && (0 <= m.buffer.rowcount < u32::MAX ==> s.position
            == m.buffer.rowcount + 1),
        r matches Ok(FetchStep::Fetch(n)) ==> !m.options.scrollable && !m.defines.requires_define
            && n == m.options.arraysize,
        r matches Ok(FetchStep::DefineAndFetch(n)) ==> {
            &&& !m.options.scrollable && m.defines.requires_define
            &&& m.options.prefetchrows > 0 ==> n == m.options.prefetchrows
            &&& m.options.prefetchrows == 0 && flavor == Flavor::Awaited ==> n == 0
            &&& m.options.prefetchrows == 0 && flavor == Flavor::Blocking
                && m.options.arraysize > 0 ==> n == m.options.arraysize
            &&& flavor == Flavor::Blocking ==> n > 0
        },
        r == Ok::<FetchStep, Fault>(FetchStep::Buffered) ==> m.buffer.row_index
            < m.buffer.rows.len() || !m.buffer.more_rows || m.buffer.cursor_id == 0,
{
}

/// A fetch brings its rows, with the first of them next, and consumes none. The columns are those
/// it came with; without any, those that were defined with it.
pub proof fn law_fetched_rows_come_next<R>(m: CursorModel<R>, result: QueryResult<R>)
    requires
        result.rows@.len() <= i64::MAX,
    ensures
        ({
            let after = m.fetched(result);
            &&& after.buffer.rows == result.rows@ && after.buffer.row_index == 0
            &&& after.buffer.rowcount == m.buffer.rowcount
            &&& after.buffer.more_rows == result.more_rows && !after.buffer.invalid_ref_cursor
            &&& !after.defines.requires_define
            &&& result.columns@.len() > 0 ==> after.defines.columns == result.columns@
            &&& result.columns@.len() == 0 && m.defines.requires_define ==> after.defines.columns
                == m.defines.define_columns
            &&& result.columns@.len() == 0 && !m.defines.requires_define ==> after.defines.columns
                == m.defines.columns
            &&& after.outcome == m.outcome && after.options == m.options && after.prepared
                == m.prepared
        }),
{
}

/// A closed cursor holds no statement, no columns, no rows and no cursor of the server; that one is
/// given back, if there is one. Closing twice gives nothing back the second time.
pub proof fn law_close_releases_once<R>(m: CursorModel<R>)
    ensures
        m.buffer.cursor_id != 0 ==> m.released() == Some(m.buffer.cursor_id),
        m.buffer.cursor_id == 0 ==> m.released() is None,
        m.after_close().released() is None,
        m.after_close().prepared.statement is None,
        m.after_close().defines.columns.len() == 0,
        m.after_close().buffer.rows.len() == 0 && !m.after_close().buffer.more_rows,
        !m.after_close().outcome.is_query,
        m.after_close().options == m.options,
{
}

/// A cursor on a result set that the server returned has all of its rows left, has counted none,
/// and is a query on those columns.
pub proof fn law_returned_cursor_is_at_its_start<R>(
    m: CursorModel<R>,
    columns: Seq<ColumnMetadata>,
    cursor_id: u32,
    invalid: bool,
    r: Result<FetchStep, Fault>,
)
    requires
        cursor_id != 0,
        !invalid,
        m.hydrated(columns, cursor_id, invalid).fetch_planned(r, Flavor::Blocking),
    ensures
        m.hydrated(columns, cursor_id, invalid).buffer.rowcount == 0,
        m.hydrated(columns, cursor_id, invalid).buffer.cursor_id == cursor_id,
        m.hydrated(columns, cursor_id, invalid).defines.columns == columns,
        m.hydrated(columns, cursor_id, invalid).outcome.is_query,
        r is Ok && r->Ok_0 != FetchStep::Buffered,
{
}

/// A cursor that was bound to a call, or parsed, has no rows of an earlier execution left.
pub proof fn law_no_rows_are_left_over<R>(m: CursorModel<R>, columns: Seq<ColumnMetadata>)
    ensures
        m.bound_away().buffer.rows.len() == 0 && !m.bound_away().buffer.more_rows,
        m.bound_away().buffer.cursor_id == 0 && m.bound_away().prepared.statement is None,
        !m.bound_away().outcome.is_query,
        columns.len() > 0 ==> {
            &&& m.parsed(columns).defines.columns == columns
            &&& m.parsed(columns).outcome.is_query
            &&& m.parsed(columns).buffer.rows.len() == 0 && !m.parsed(columns).buffer.more_rows
            &&& m.parsed(columns).defines.requires_define <==> exists|i: int|
                0 <= i < columns.len() && (#[trigger] columns[i]).defers_rows()
            &&& m.parsed(columns).defines.fetch_vars.len() == 0
            &&& m.parsed(columns).buffer.cursor_id == m.buffer.cursor_id
            &&& m.parsed(columns).buffer.rowcount == m.buffer.rowcount
        },
        columns.len() == 0 ==> m.parsed(columns) == m,
{
}

/// Rows that were fetched before the defines changed are fetched again: none is left, and the
/// server has more. Without such rows nothing changes.
pub proof fn law_changed_defines_fetch_again<R>(m: CursorModel<R>, changed: bool)
    ensures
        changed && m.buffer.rows.len() > 0 && m.buffer.cursor_id != 0 ==> {
            &&& m.redefined(changed).buffer.rows.len() == 0
            &&& m.redefined(changed).buffer.needs_fetch()
            &&& m.redefined(changed).buffer.rowcount == m.buffer.rowcount
        },
        !changed ==> m.redefined(changed) == m,
        m.buffer.rows.len() == 0 ==> m.redefined(changed) == m,
        m.buffer.cursor_id == 0 ==> m.redefined(changed) == m,
{
}

/// A prepared statement is that of the cursor. It counts as changed exactly where its text is not
/// the one before; it may be cached unless that is ruled out.
pub proof fn law_prepare_replaces_the_statement(
    p: PreparedModel,
    statement: Option<String>,
    cache_statement: Option<bool>,
    bind_names: Seq<String>,
)
    ensures
        ({
            let m = p.prepared(statement, cache_statement, bind_names);
            &&& m.statement == statement
            &&& statement is Some && p.statement is Some ==> (m.statement_changed <==> statement->0@
                != p.statement->0@)
            &&& (statement is Some) != (p.statement is Some) ==> m.statement_changed
            &&& statement is None && p.statement is None ==> !m.statement_changed
            &&& cache_statement matches Some(b) ==> m.cache_statement == b
            &&& cache_statement is None ==> m.cache_statement
            &&& statement is Some ==> m.bind_names == bind_names
            &&& statement is None ==> m.bind_names.len() == 0
        }),
{
}

/// A statement that an execution names replaces that of the cursor; without one the cursor's is
/// executed again, which is no change.
pub proof fn law_named_statement_is_executed(p: PreparedModel, statement: Option<String>)
    ensures
        statement is Some ==> p.with_statement(statement).statement == statement,
        statement is None ==> p.with_statement(statement).statement == p.statement
            && !p.with_statement(statement).statement_changed,
        statement is Some && p.statement is Some ==> (p.with_statement(statement).statement_changed
            <==> statement->0@ != p.statement->0@),
        statement is Some && p.statement is None ==> p.with_statement(
            statement,
        ).statement_changed,
        p.with_statement(statement).bind_names == p.bind_names,
{
}

/// A call has the time that was set, and no limit where that is zero.
pub proof fn law_zero_is_no_timeout(value: u32)
    ensures
        timeout_set(value) is None <==> value == 0,
        timeout_set(value) matches Some(n) ==> n == value,
{
}

/// The row counts of a batch are told exactly where it kept them, as it kept them.
pub proof fn law_kept_row_counts_are_told(
    r: Result<&Vec<u64>, Fault>,
    dml_row_counts: Option<Vec<u64>>,
)
    requires
        row_counts_told(r, dml_row_counts),
    ensures
        r is Ok <==> dml_row_counts is Some,
        r matches Ok(v) ==> v@ == dml_row_counts->0@,
        r matches Err(f) ==> f@ == FaultView::Named(ErrorName::ArrayDmlRowCountsNotEnabled),
{
}

/// An option that was set for a cursor holds against every default; one that was not follows it.
pub proof fn law_set_options_hold(o: FetchOptions, value: bool, lobs: bool, decimals: bool)
    ensures
        o.with_lobs(value).with_defaults(lobs, decimals).fetch_lobs == value,
        o.with_decimals(value).with_defaults(lobs, decimals).fetch_decimals == value,
        !o.fetch_lobs_overridden ==> o.with_defaults(lobs, decimals).fetch_lobs == lobs,
        !o.fetch_decimals_overridden ==> o.with_defaults(lobs, decimals).fetch_decimals == decimals,
        o.with_lobs(value).fetch_decimals == o.fetch_decimals,
        o.with_decimals(value).fetch_lobs == o.fetch_lobs,
        o.with_lobs(value).arraysize == o.arraysize,
        o.with_decimals(value).arraysize == o.arraysize,
{
}

/// A scroll answer brings the columns that it has, and its rows take the place of the buffered ones;
/// the statement and its outcome stay.
pub proof fn law_scroll_answer_brings_rows<R>(
    m: CursorModel<R>,
    orientation: Orientation,
    result: QueryResult<R>,
)
    ensures
        ({
            let after = m.after_scroll(orientation, result);
            &&& result.columns@.len() > 0 ==> after.defines.columns == result.columns@
            &&& result.columns@.len() == 0 ==> after.defines.columns == m.defines.columns
            &&& result.rows@.len() > 0 ==> after.buffer.rows == result.rows@
                && after.buffer.row_index == 0 && after.buffer.more_rows == result.more_rows
            &&& after.prepared == m.prepared && after.outcome == m.outcome && after.options
                == m.options
            &&& after.defines.fetch_vars == m.defines.fetch_vars
        }),
{
}

} // verus!
