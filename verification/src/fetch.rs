//! How fetched values become Python values.
use vstd::prelude::*;

#[allow(unused_imports)]
use crate::buffer::BufferModel;
use crate::buffer::RowBuffer;
use crate::columns::{ColumnMetadata, Defines};
#[allow(unused_imports)]
use crate::columns::DefinesModel;
use crate::errors::{not_implemented, ErrorName, Fault};
#[allow(unused_imports)]
use crate::errors::FaultView;
use crate::pyvalue::{interval_ds_to_py, IntervalParts, TimeDeltaArgs, YearMonth};
#[allow(unused_imports)]
use crate::pyvalue::{
    fields_of, law_interval_round_trip, parts_of, timedelta_of,
    DateParts, TimeDelta,
};
use crate::text::{join3, owned, same_text_ignoring_case};
#[allow(unused_imports)]
use crate::text::same_ignoring_case;
use crate::value::{CsForm, DateTimeFields, OraType};

verus! {

/// A fetched value that is not NULL, as far as its conversion depends on it.
#[derive(Clone)]
pub enum QueryValue {
    Text,
    /// Character data that could not be decoded.
    TextRaw { csfrm: CsForm },
    IntervalDS(IntervalParts),
    IntervalYM(YearMonth),
    Boolean(bool),
    Rowid,
    Raw,
    BinaryDouble,
    Number { is_integer: bool },
    DateTime(DateTimeFields),
    Array,
    Vector,
    Cursor { cursor_id: u32 },
    Lob { ora_type: OraType, csfrm: CsForm, size: u64, chunk_size: u32 },
    Object { schema: Option<String>, object_name: Option<String> },
    Json,
}

/// What is at hand for a conversion.
#[derive(Clone, Copy, PartialEq, Eq, Structural, Debug)]
pub struct ConversionContext {
    pub has_owner_cursor: bool,
    pub has_lob_context: bool,
    pub fetch_lobs: bool,
    pub fetch_decimals: bool,
}

#[derive(Clone, Copy, PartialEq, Eq, Structural, Debug)]
pub enum TextEncoding {
    Utf8,
    Utf16Be,
}

/// The arguments of `datetime.datetime`.
#[derive(Clone, Copy, PartialEq, Eq, Structural, Debug)]
pub struct DateTimeArgs {
    pub year: i32,
    pub month: u8,
    pub day: u8,
    pub hour: u8,
    pub minute: u8,
    pub second: u8,
    pub microsecond: u32,
}

/// How a fetched value becomes a Python value.
pub enum PyPlan {
    /// `None`.
    Null,
    /// The text.
    Str,
    /// Decode the bytes with Python's codec.
    DecodeStr(TextEncoding),
    TimeDelta(TimeDeltaArgs),
    IntervalYM(YearMonth),
    Bool(bool),
    Bytes,
    /// The number that the text stands for, as a `float`.
    Float,
    /// The number that the text stands for, as a `decimal.Decimal`.
    Decimal,
    /// The number that the text stands for, as an `int`.
    Int,
    DateTime(DateTimeArgs),
    /// A list: convert the elements in turn.
    List,
    Vector,
    /// A new cursor of the owner's connection on the open result set.
    ChildCursor { cursor_id: u32 },
    /// Read the LOB, and give its content.
    LobContent { ora_type: OraType, csfrm: CsForm, context_from_cursor: bool },
    /// A LOB object. The locator of an external file also gives the name of the file.
    LobObject {
        ora_type: OraType,
        csfrm: CsForm,
        size: u64,
        chunk_size: u32,
        has_file_name: bool,
        context_from_cursor: bool,
    },
    /// Decode the image as XML.
    XmlType,
    /// An object of the named type.
    Object { fqn: String, context_from_cursor: bool },
    /// Convert the JSON value.
    Json,
}

pub open spec fn date_args(f: DateTimeFields) -> DateTimeArgs {
    DateTimeArgs {
        year: f.year,
        month: f.month,
        day: f.day,
        hour: f.hour,
        minute: f.minute,
        second: f.second,
        microsecond: (f.nanosecond / 1000) as u32,
    }
}

pub fn datetime_args(f: DateTimeFields) -> (r: DateTimeArgs)
    ensures
        r == date_args(f),
{
    DateTimeArgs {
        year: f.year,
        month: f.month,
        day: f.day,
        hour: f.hour,
        minute: f.minute,
        second: f.second,
        microsecond: f.nanosecond / 1000,
    }
}

/// The name of an object type, with its schema where it has one.
pub open spec fn qualified(schema: Option<String>, name: Seq<char>) -> Seq<char> {
    match schema {
        Some(s) => if s@.len() > 0 {
            s@ + "."@ + name
        } else {
            name
        },
        None => name,
    }
}

pub fn qualified_name(schema: &Option<String>, name: &str) -> (r: String)
    ensures
        r@ == qualified(*schema, name@),
{
    match schema {
        Some(s) => if s.as_str().is_empty() {
            owned(name)
        } else {
            join3(s.as_str(), ".", name)
        },
        None => owned(name),
    }
}

pub open spec fn unimplemented_view(name: Seq<char>) -> FaultView {
    FaultView::NotImplemented(
        name + " is a Rust shim placeholder; M1+ must route this through the oracledb crate"@,
    )
}

/// What converting a value comes to.
pub open spec fn plan_outcome(
    r: Result<PyPlan, Fault>,
    value: Option<QueryValue>,
    ctx: ConversionContext,
) -> bool {
    match value {
        None => r == Ok::<PyPlan, Fault>(PyPlan::Null),
        Some(v) => match v {
            QueryValue::Text | QueryValue::Rowid => r == Ok::<PyPlan, Fault>(PyPlan::Str),
            QueryValue::TextRaw { csfrm } => r == Ok::<PyPlan, Fault>(
                PyPlan::DecodeStr(
                    if csfrm == CsForm::Nchar {
                        TextEncoding::Utf16Be
                    } else {
                        TextEncoding::Utf8
                    },
                ),
            ),
            QueryValue::IntervalDS(p) => r == Ok::<PyPlan, Fault>(
                PyPlan::TimeDelta(timedelta_of(p)),
            ),
            QueryValue::IntervalYM(i) => r == Ok::<PyPlan, Fault>(PyPlan::IntervalYM(i)),
            QueryValue::Boolean(b) => r == Ok::<PyPlan, Fault>(PyPlan::Bool(b)),
            QueryValue::Raw => r == Ok::<PyPlan, Fault>(PyPlan::Bytes),
            QueryValue::BinaryDouble => r == Ok::<PyPlan, Fault>(PyPlan::Float),
            QueryValue::Number { is_integer } => r == Ok::<PyPlan, Fault>(
                if ctx.fetch_decimals {
                    PyPlan::Decimal
                } else if is_integer {
                    PyPlan::Int
                } else {
                    PyPlan::Float
                },
            ),
            QueryValue::DateTime(f) => r == Ok::<PyPlan, Fault>(PyPlan::DateTime(date_args(f))),
            QueryValue::Array => r == Ok::<PyPlan, Fault>(PyPlan::List),
            QueryValue::Vector => r == Ok::<PyPlan, Fault>(PyPlan::Vector),
            QueryValue::Json => r == Ok::<PyPlan, Fault>(PyPlan::Json),
            QueryValue::Cursor { cursor_id } => if ctx.has_owner_cursor {
                r == Ok::<PyPlan, Fault>(PyPlan::ChildCursor { cursor_id })
            } else {
                r matches Err(f) && f@ == unimplemented_view(
                    "ThinCursorImpl cursor value conversion"@,
                )
            },
            QueryValue::Lob { ora_type, csfrm, size, chunk_size } => if !ctx.has_lob_context
                && !ctx.has_owner_cursor {
                r matches Err(f) && f@ == unimplemented_view(
                    "ThinCursorImpl LOB value conversion"@,
                )
            } else if !ctx.fetch_lobs {
                r == Ok::<PyPlan, Fault>(
                    PyPlan::LobContent {
                        ora_type,
                        csfrm,
                        context_from_cursor: !ctx.has_lob_context,
                    },
                )
            } else {
                r == Ok::<PyPlan, Fault>(
                    PyPlan::LobObject {
                        ora_type,
                        csfrm,
                        size,
                        chunk_size,
                        has_file_name: ora_type == OraType::Bfile,
                        context_from_cursor: !ctx.has_lob_context,
                    },
                )
            },
            QueryValue::Object { schema, object_name } => if object_name matches Some(n)
                && same_ignoring_case(n@, "XMLTYPE"@) {
                r == Ok::<PyPlan, Fault>(PyPlan::XmlType)
            } else if !ctx.has_owner_cursor {
                r matches Err(f) && f@ == unimplemented_view(
                    "ThinCursorImpl DbObject value conversion"@,
                )
            } else if object_name is None {
                r matches Err(f) && f@ == FaultView::Runtime("missing DbObject type name"@)
            } else {
                r matches Ok(PyPlan::Object { fqn, context_from_cursor }) && fqn@ == qualified(
                    schema,
                    object_name->0@,
                ) && context_from_cursor == !ctx.has_lob_context
            },
        },
    }
}

/// Decides how a fetched value becomes a Python value.
pub fn query_value_to_py(value: &Option<QueryValue>, ctx: ConversionContext) -> (r: Result<
    PyPlan,
    Fault,
>)
    ensures
        plan_outcome(r, *value, ctx),
{
    let v = match value {
        None => {
            return Ok(PyPlan::Null);
        },
        Some(v) => v,
    };
    match v {
        QueryValue::Text | QueryValue::Rowid => Ok(PyPlan::Str),
        QueryValue::TextRaw { csfrm } => if *csfrm == CsForm::Nchar {
            Ok(PyPlan::DecodeStr(TextEncoding::Utf16Be))
        } else {
            Ok(PyPlan::DecodeStr(TextEncoding::Utf8))
        },
        QueryValue::IntervalDS(p) => Ok(PyPlan::TimeDelta(interval_ds_to_py(*p))),
        QueryValue::IntervalYM(i) => Ok(PyPlan::IntervalYM(*i)),
        QueryValue::Boolean(b) => Ok(PyPlan::Bool(*b)),
        QueryValue::Raw => Ok(PyPlan::Bytes),
        QueryValue::BinaryDouble => Ok(PyPlan::Float),
        QueryValue::Number { is_integer } => if ctx.fetch_decimals {
            Ok(PyPlan::Decimal)
        } else if *is_integer {
            Ok(PyPlan::Int)
        } else {
            Ok(PyPlan::Float)
        },
        QueryValue::DateTime(f) => Ok(PyPlan::DateTime(datetime_args(*f))),
        QueryValue::Array => Ok(PyPlan::List),
        QueryValue::Vector => Ok(PyPlan::Vector),
        QueryValue::Json => Ok(PyPlan::Json),
        QueryValue::Cursor { cursor_id } => if ctx.has_owner_cursor {
            Ok(PyPlan::ChildCursor { cursor_id: *cursor_id })
        } else {
            Err(not_implemented("ThinCursorImpl cursor value conversion"))
        },
        QueryValue::Lob { ora_type, csfrm, size, chunk_size } => {
            if !ctx.has_lob_context && !ctx.has_owner_cursor {
                return Err(not_implemented("ThinCursorImpl LOB value conversion"));
            }
            let context_from_cursor = !ctx.has_lob_context;
            if !ctx.fetch_lobs {
                return Ok(
                    PyPlan::LobContent { ora_type: *ora_type, csfrm: *csfrm, context_from_cursor },
                );
            }
            Ok(
                PyPlan::LobObject {
                    ora_type: *ora_type,
                    csfrm: *csfrm,
                    size: *size,
                    chunk_size: *chunk_size,
                    has_file_name: *ora_type == OraType::Bfile,
                    context_from_cursor,
                },
            )
        },
        QueryValue::Object { schema, object_name } => {
            if let Some(n) = object_name {
                if same_text_ignoring_case(n.as_str(), "XMLTYPE") {
                    return Ok(PyPlan::XmlType);
                }
            }
            if !ctx.has_owner_cursor {
                return Err(not_implemented("ThinCursorImpl DbObject value conversion"));
            }
            match object_name {
                None => Err(Fault::Runtime(owned("missing DbObject type name"))),
                Some(n) => Ok(
                    PyPlan::Object {
                        fqn: qualified_name(schema, n.as_str()),
                        context_from_cursor: !ctx.has_lob_context,
                    },
                ),
            }
        },
    }
}

/// The kinds of values that a cell is told apart by.
#[derive(Clone, Copy, PartialEq, Eq, Structural, Debug)]
pub enum CellKind {
    Null,
    Raw,
    Json,
    Number,
    Other,
}

/// How a cell of a fetched row is converted.
#[derive(Clone, Copy, PartialEq, Eq, Structural, Debug)]
pub enum CellStep {
    /// By the variable that an output type handler gave.
    Variable,
    /// `None`.
    Null,
    /// The bytes are an image of binary JSON.
    DecodeOson,
    /// The value is JSON as text.
    JsonText,
    /// The number as a `decimal.Decimal`.
    Decimal,
    /// By its own type.
    Plain,
}

/// How the cell of column `index` is converted.
pub open spec fn cell_step(
    defines: crate::columns::DefinesModel,
    fetch_decimals: bool,
    index: int,
    kind: CellKind,
) -> CellStep {
    let handled = index < defines.fetch_vars.len() && defines.fetch_vars[index];
    let oson = index < defines.define_columns.len() && defines.define_columns[index].is_oson_lob();
    let known = index < defines.columns.len();
    if handled {
        CellStep::Variable
    } else if oson {
        if kind == CellKind::Null {
            CellStep::Null
        } else if kind == CellKind::Raw {
            CellStep::DecodeOson
        } else {
            CellStep::Plain
        }
    } else if kind != CellKind::Json && known && defines.columns[index].is_json {
        CellStep::JsonText
    } else if fetch_decimals && known && defines.columns[index].ora_type == OraType::Number && kind
        == CellKind::Number {
        CellStep::Decimal
    } else {
        CellStep::Plain
    }
}

impl Defines {
    /// Decides how the cell of a column is converted.
    pub fn plan_cell(&self, fetch_decimals: bool, index: usize, kind: CellKind) -> (r: CellStep)
        ensures
            r == cell_step(self@, fetch_decimals, index as int, kind),
    {
        if index < self.fetch_vars.len() && self.fetch_vars[index] {
            return CellStep::Variable;
        }
        if self.is_oson_lob_column(index) {
            return match kind {
                CellKind::Null => CellStep::Null,
                CellKind::Raw => CellStep::DecodeOson,
                _ => CellStep::Plain,
            };
        }
        if index < self.columns.len() {
            let column = &self.columns[index];
            if kind != CellKind::Json && column.is_json {
                return CellStep::JsonText;
            }
            if fetch_decimals && column.ora_type == OraType::Number && kind == CellKind::Number {
                return CellStep::Decimal;
            }
        }
        CellStep::Plain
    }
}

/// A value of binary JSON as far as its conversion depends on it.
#[derive(Clone, Copy, PartialEq, Eq, Structural, Debug)]
pub enum OsonValue {
    Null,
    Bool(bool),
    Number,
    BinaryFloat,
    BinaryDouble,
    Text,
    Raw,
    DateTime(DateTimeFields),
    IntervalDS(IntervalParts),
    Vector,
    Array,
    Object,
}

/// How a value of binary JSON becomes a Python value. Arrays and objects hold further values.
#[derive(Clone, Copy, PartialEq, Eq, Structural, Debug)]
pub enum OsonPlan {
    /// `None`.
    Null,
    Bool(bool),
    /// The number that the text stands for, as a `decimal.Decimal`.
    Decimal,
    Float,
    Str,
    Bytes,
    DateTime(DateTimeArgs),
    TimeDelta(TimeDeltaArgs),
    Vector,
    List,
    Dict,
}

pub open spec fn json_plan(value: OsonValue) -> OsonPlan {
    match value {
        OsonValue::Null => OsonPlan::Null,
        OsonValue::Bool(b) => OsonPlan::Bool(b),
        OsonValue::Number => OsonPlan::Decimal,
        OsonValue::BinaryFloat => OsonPlan::Float,
        OsonValue::BinaryDouble => OsonPlan::Float,
        OsonValue::Text => OsonPlan::Str,
        OsonValue::Raw => OsonPlan::Bytes,
        OsonValue::DateTime(f) => OsonPlan::DateTime(date_args(f)),
        OsonValue::IntervalDS(p) => OsonPlan::TimeDelta(timedelta_of(p)),
        OsonValue::Vector => OsonPlan::Vector,
        OsonValue::Array => OsonPlan::List,
        OsonValue::Object => OsonPlan::Dict,
    }
}

/// Decides how a value of binary JSON is converted. Its numbers keep all their digits.
pub fn oson_value_to_py(value: OsonValue) -> (r: OsonPlan)
    ensures
        r == json_plan(value),
{
    match value {
        OsonValue::Null => OsonPlan::Null,
        OsonValue::Bool(b) => OsonPlan::Bool(b),
        OsonValue::Number => OsonPlan::Decimal,
        OsonValue::BinaryFloat => OsonPlan::Float,
        OsonValue::BinaryDouble => OsonPlan::Float,
        OsonValue::Text => OsonPlan::Str,
        OsonValue::Raw => OsonPlan::Bytes,
        OsonValue::DateTime(f) => OsonPlan::DateTime(datetime_args(f)),
        OsonValue::IntervalDS(p) => OsonPlan::TimeDelta(interval_ds_to_py(p)),
        OsonValue::Vector => OsonPlan::Vector,
        OsonValue::Array => OsonPlan::List,
        OsonValue::Object => OsonPlan::Dict,
    }
}

/// The variable that keeps the last value fetched from a column.
#[derive(Clone, Copy, PartialEq, Eq, Structural, Debug)]
pub enum FetchValueVar {
    /// The variable that is there.
    Reuse,
    /// A new variable of the column's type.
    OfColumn,
    /// A new variable that holds text: the column is not known.
    OfText,
}

pub open spec fn value_var(existing: Seq<bool>, columns: int, i: int) -> FetchValueVar {
    if i < existing.len() && existing[i] {
        FetchValueVar::Reuse
    } else if i < columns {
        FetchValueVar::OfColumn
    } else {
        FetchValueVar::OfText
    }
}

/// Decides which variable keeps each value of a fetched row. `existing` says for which columns
/// there is one.
pub fn record_fetch_value_vars(existing: &Vec<bool>, columns: usize, values: usize) -> (r: Vec<
    FetchValueVar,
>)
    ensures
        r@.len() == values,
        forall|i: int|
            0 <= i < values ==> #[trigger] r@[i] == value_var(existing@, columns as int, i),
{
    let mut r: Vec<FetchValueVar> = Vec::new();
    let mut i: usize = 0;
    while i < values
        invariant
            i <= values,
            r@.len() == i,
            forall|j: int|
                0 <= j < i ==> #[trigger] r@[j] == value_var(existing@, columns as int, j),
        decreases values - i,
    {
        let v = if i < existing.len() && existing[i] {
            FetchValueVar::Reuse
        } else if i < columns {
            FetchValueVar::OfColumn
        } else {
            FetchValueVar::OfText
        };
        r.push(v);
        i = i + 1;
    }
    r
}

pub open spec fn json_has_value(is_none: bool, truthy: bool) -> bool {
    !is_none && truthy
}

/// Whether a JSON text is parsed: one that is empty stands for no value.
pub fn json_text_is_parsed(is_none: bool, truthy: bool) -> (r: bool)
    ensures
        r == json_has_value(is_none, truthy),
{
    !is_none && truthy
}

/// Which variable stands for a fetched column.
#[derive(Clone, Copy, PartialEq, Eq, Structural, Debug)]
pub enum FetchVar {
    /// The variable that an output type handler gave.
    Handler,
    /// The variable that keeps the last fetched value.
    Value,
    Missing,
}

pub open spec fn vars_shown(r: Seq<FetchVar>, handler: Seq<bool>, value: Seq<bool>) -> bool {
    &&& r.len() == if handler.len() > value.len() {
        handler.len()
    } else {
        value.len()
    }
    &&& forall|i: int|
        0 <= i < r.len() ==> #[trigger] r[i] == if i < handler.len() && handler[i] {
            FetchVar::Handler
        } else if i < value.len() && value[i] {
            FetchVar::Value
        } else {
            FetchVar::Missing
        }
}

/// The variables of the fetched columns, in order.
pub fn fetch_vars(handler: &Vec<bool>, value: &Vec<bool>) -> (r: Vec<FetchVar>)
    ensures
        vars_shown(r@, handler@, value@),
{
    let count: usize = if handler.len() > value.len() {
        handler.len()
    } else {
        value.len()
    };
    let mut r: Vec<FetchVar> = Vec::new();
    let mut i: usize = 0;
    while i < count
        invariant
            i <= count,
            r@.len() == i,
            forall|j: int|
                0 <= j < i ==> #[trigger] r@[j] == if j < handler@.len() && handler@[j] {
                    FetchVar::Handler
                } else if j < value@.len() && value@[j] {
                    FetchVar::Value
                } else {
                    FetchVar::Missing
                },
        decreases count - i,
    {
        let v = if i < handler.len() && handler[i] {
            FetchVar::Handler
        } else if i < value.len() && value[i] {
            FetchVar::Value
        } else {
            FetchVar::Missing
        };
        r.push(v);
        i = i + 1;
    }
    r
}

/// The indices below `n` of columns whose values are LOBs, in order.
pub open spec fn lob_indices(columns: Seq<ColumnMetadata>, n: int) -> Seq<usize>
    decreases n,
{
    if n <= 0 {
        Seq::empty()
    } else if columns[n - 1].is_lob() {
        lob_indices(columns, n - 1).push((n - 1) as usize)
    } else {
        lob_indices(columns, n - 1)
    }
}

/// The columns whose values have to be read in before they go into an Arrow array.
pub fn lob_column_indices(columns: &Vec<ColumnMetadata>) -> (r: Vec<usize>)
    ensures
        r@ == lob_indices(columns@, columns@.len() as int),
{
    let mut r: Vec<usize> = Vec::new();
    let mut i: usize = 0;
    while i < columns.len()
        invariant
            i <= columns@.len(),
            r@ == lob_indices(columns@, i as int),
        decreases columns@.len() - i,
    {
        if columns[i].lob() {
            r.push(i);
        }
        i = i + 1;
    }
    r
}

pub open spec fn content_is_raw(ora_type: OraType) -> bool {
    ora_type == OraType::Blob
}

/// What the content of a LOB is taken as: raw bytes for a binary LOB, else text.
pub fn lob_content_is_raw(ora_type: OraType) -> (r: bool)
    ensures
        r == content_is_raw(ora_type),
{
    ora_type == OraType::Blob
}

/// Fetching all rows of a result set at once.
pub struct Drain<R> {
    pub rows: Vec<R>,
    /// The next fetch defines the columns.
    pub pending_define: bool,
}

/// What starting to fetch all rows comes to.
pub open spec fn drain_started<R>(
    before: BufferModel<R>,
    after: BufferModel<R>,
    r: Result<Drain<R>, Fault>,
    is_query: bool,
    requires_define: bool,
) -> bool {
    match r {
        Ok(d) => is_query && d.rows@ == before.rows && d.pending_define == requires_define && after
            == before.emptied(),
        Err(f) => !is_query && f@ == FaultView::Named(ErrorName::NotAQuery) && after == before,
    }
}

/// There are rows left to fetch.
pub open spec fn rows_are_left<R>(buffer: BufferModel<R>) -> bool {
    buffer.more_rows && buffer.cursor_id != 0
}

/// What the rows of one fetch add.
pub open spec fn drained<R>(
    before: Drain<R>,
    after: Drain<R>,
    buffer: BufferModel<R>,
    buffer_after: BufferModel<R>,
    rows: Seq<R>,
    cursor_id: u32,
    more_rows: bool,
) -> bool {
    &&& after.rows@ == before.rows@ + rows
    &&& !after.pending_define
    &&& buffer_after == (BufferModel {
        more_rows,
        cursor_id: if cursor_id != 0 {
            cursor_id
        } else {
            buffer.cursor_id
        },
        ..buffer
    })
}

impl<R> Drain<R> {
    /// Starts to fetch the rows of a query, with those that the buffer holds.
    pub fn start(buffer: &mut RowBuffer<R>, is_query: bool, requires_define: bool) -> (r: Result<
        Drain<R>,
        Fault,
    >)
        ensures
            drain_started(old(buffer)@, final(buffer)@, r, is_query, requires_define),
    {
        if !is_query {
            return Err(Fault::Named(ErrorName::NotAQuery));
        }
        let mut rows: Vec<R> = Vec::new();
        std::mem::swap(&mut rows, &mut buffer.rows);
        buffer.clear_rows();
        Ok(Drain { rows, pending_define: requires_define })
    }

    /// Whether there are rows left to fetch.
    pub fn wants_more(buffer: &RowBuffer<R>) -> (r: bool)
        ensures
            r == rows_are_left(buffer@),
    {
        buffer.more_rows && buffer.cursor_id != 0
    }

    /// Adds the rows of a fetch.
    pub fn absorb(
        &mut self,
        buffer: &mut RowBuffer<R>,
        rows: Vec<R>,
        cursor_id: u32,
        more_rows: bool,
    )
        ensures
            drained(
                *old(self),
                *final(self),
                old(buffer)@,
                final(buffer)@,
                rows@,
                cursor_id,
                more_rows,
            ),
    {
        let mut rows = rows;
        self.rows.append(&mut rows);
        self.pending_define = false;
        buffer.more_rows = more_rows;
        if cursor_id != 0 {
            buffer.cursor_id = cursor_id;
        }
    }

    pub open spec fn finished(self, r: Seq<R>, before: DefinesModel, after: DefinesModel) -> bool {
        r == self.rows@ && after == (DefinesModel { requires_define: false, ..before })
    }

    /// Ends the fetching, and gives all rows. Nothing is left to define.
    pub fn finish(self, defines: &mut Defines) -> (r: Vec<R>)
        ensures
            self.finished(r@, old(defines)@, final(defines)@),
    {
        defines.requires_define = false;
        self.rows
    }
}

/// A run of rows.
#[derive(Clone, Copy, PartialEq, Eq, Structural, Debug)]
pub struct RowSlice {
    pub offset: usize,
    pub len: usize,
}

/// The number of rows in a frame: at least one, at most what fits.
pub open spec fn frame_size(batch_size: i64) -> int {
    if batch_size < 1 {
        1
    } else if batch_size > usize::MAX {
        usize::MAX as int
    } else {
        batch_size as int
    }
}

/// The slices cut `total` rows into frames of the given size.
pub open spec fn slices_cut(slices: Seq<RowSlice>, total: int, size: int) -> bool {
    if total == 0 {
        slices == seq![RowSlice { offset: 0, len: 0 }]
    } else {
        &&& slices.len() * size >= total
        &&& (slices.len() - 1) * size < total
        &&& forall|i: int|
            0 <= i < slices.len() ==> (#[trigger] slices[i]).offset == i * size && slices[i].len
                == if (i + 1) * size <= total {
                size
            } else {
                total - i * size
            }
    }
}

/// Cuts a number of rows into frames, at least one even when there are no rows.
pub fn slice_batch_into_frames(total: usize, batch_size: i64) -> (r: Vec<RowSlice>)
    ensures
        slices_cut(r@, total as int, frame_size(batch_size)),
{
    let size: usize = if batch_size < 1 {
        1
    } else if batch_size as u64 > usize::MAX as u64 {
        usize::MAX
    } else {
        batch_size as usize
    };
    let mut r: Vec<RowSlice> = Vec::new();
    if total == 0 {
        r.push(RowSlice { offset: 0, len: 0 });
        proof {
            assert(r@ =~= seq![RowSlice { offset: 0, len: 0 }]);
        }
        return r;
    }
    let mut offset: usize = 0;
    while offset < total
        invariant
            size >= 1,
            total > 0,
            offset <= total,
            offset == if r@.len() * size <= total {
                r@.len() * size
            } else {
                total as int
            },
            r@.len() == 0 || (r@.len() - 1) * size < total,
            forall|i: int|
                0 <= i < r@.len() ==> (#[trigger] r@[i]).offset == i * size && r@[i].len == if (i
                    + 1) * size <= total {
                    size as int
                } else {
                    total - i * size
                },
        decreases total - offset,
    {
        let left: usize = total - offset;
        let len: usize = if size < left {
            size
        } else {
            left
        };
        let ghost n = r@.len() as int;
        proof {
            assert((n + 1) * size == n * size + size) by (nonlinear_arith);
        }
        r.push(RowSlice { offset, len });
        offset = offset + len;
    }
    r
}

/// The frames cover all rows one after the other: each starts where the one before ends, the first
/// at the start, and the last ends at the end.
pub proof fn law_frames_cover_all_rows(slices: Seq<RowSlice>, total: int, size: int)
    requires
        size >= 1,
        total >= 0,
        slices_cut(slices, total, size),
    ensures
        slices.len() > 0,
        slices[0].offset == 0,
        forall|i: int|
            0 <= i < slices.len() - 1 ==> (#[trigger] slices[i]).offset + slices[i].len
                == slices[i + 1].offset,
        slices.last().offset + slices.last().len == total,
        forall|i: int| 0 <= i < slices.len() ==> (#[trigger] slices[i]).len <= size,
        total > 0 ==> forall|i: int| 0 <= i < slices.len() ==> (#[trigger] slices[i]).len > 0,
{
    if total > 0 {
        let n = slices.len() as int;
        assert(n > 0) by {
            if n == 0 {
                assert(n * size == 0) by (nonlinear_arith)
                    requires
                        n == 0,
                ;
            }
        }
        assert forall|i: int| 0 <= i < n - 1 implies (#[trigger] slices[i]).offset + slices[i].len
            == slices[i + 1].offset by {
            assert((i + 1) * size <= (n - 1) * size) by (nonlinear_arith)
                requires
                    i + 1 <= n - 1,
                    size >= 1,
            ;
            assert((i + 1) * size == i * size + size) by (nonlinear_arith);
        }
        assert(n * size == (n - 1) * size + size) by (nonlinear_arith);
        assert forall|i: int| 0 <= i < n implies (#[trigger] slices[i]).len <= size
            && slices[i].len > 0 by {
            assert(i * size <= (n - 1) * size) by (nonlinear_arith)
                requires
                    i <= n - 1,
                    size >= 1,
            ;
            assert((i + 1) * size == i * size + size) by (nonlinear_arith);
        }
        assert(slices[0].offset == 0 * size);
    }
}

/// A date that is bound and fetched again is the same date: year, month, day, hour, minute, second
/// and microsecond come back in their places.
pub proof fn law_date_round_trip(
    year: i32,
    month: u8,
    day: u8,
    hour: u8,
    minute: u8,
    second: u8,
    microsecond: u32,
)
    requires
        microsecond * 1000 <= u32::MAX,
    ensures
        ({
            let bound = fields_of(
                DateParts {
                    year: Some(year),
                    month: Some(month),
                    day: Some(day),
                    hour: Some(hour),
                    minute: Some(minute),
                    second: Some(second),
                    microsecond: Some(microsecond),
                },
            );
            let fetched = date_args(bound->0);
            &&& bound is Some
            &&& fetched.year == year && fetched.month == month && fetched.day == day
            &&& fetched.hour == hour && fetched.minute == minute && fetched.second == second
            &&& fetched.microsecond == microsecond
        }),
{
}

/// A fetched date is the one that the server sent: each field is in its place, and less than a
/// microsecond is dropped.
pub proof fn law_fetched_date_is_the_servers(
    r: Result<PyPlan, Fault>,
    f: DateTimeFields,
    ctx: ConversionContext,
)
    requires
        plan_outcome(r, Some(QueryValue::DateTime(f)), ctx),
    ensures
        r matches Ok(PyPlan::DateTime(a)) && {
            &&& (a.year, a.month, a.day) == (f.year, f.month, f.day)
            &&& (a.hour, a.minute, a.second) == (f.hour, f.minute, f.second)
            &&& a.microsecond * 1000 <= f.nanosecond < a.microsecond * 1000 + 1000
        },
{
}

/// An interval that is bound and fetched again is the same interval.
pub proof fn law_fetched_interval_is_the_servers(
    r: Result<PyPlan, Fault>,
    t: TimeDelta,
    ctx: ConversionContext,
)
    requires
        t.wf(),
        plan_outcome(r, Some(QueryValue::IntervalDS(parts_of(t))), ctx),
    ensures
        r matches Ok(PyPlan::TimeDelta(a)) && a.days == t.days && a.seconds == t.seconds
            && a.microseconds == t.microseconds,
{
    law_interval_round_trip(t);
}

/// The parts of a fetched interval count in their units; less than a microsecond is dropped.
pub proof fn law_interval_counts_in_its_units(p: IntervalParts)
    ensures
        timedelta_of(p).days == p.days,
        timedelta_of(p).seconds == p.hours * 3600 + p.minutes * 60 + p.seconds,
        p.fseconds >= 0 ==> timedelta_of(p).microseconds * 1000 <= p.fseconds < timedelta_of(
            p,
        ).microseconds * 1000 + 1000,
        p.fseconds < 0 ==> timedelta_of(p).microseconds * 1000 - 1000 < p.fseconds
            <= timedelta_of(p).microseconds * 1000,
{
}

/// A fetched value becomes `None` exactly where the server sent no value, and else a Python value
/// of its kind that carries what the server sent.
pub proof fn law_fetched_value_keeps_its_kind(
    r: Result<PyPlan, Fault>,
    value: Option<QueryValue>,
    ctx: ConversionContext,
)
    requires
        plan_outcome(r, value, ctx),
    ensures
        match r {
            Ok(PyPlan::Null) => value is None,
            Ok(PyPlan::Str) => value == Some(QueryValue::Text) || value == Some(QueryValue::Rowid),
            Ok(PyPlan::DecodeStr(e)) => value matches Some(QueryValue::TextRaw { csfrm }) && (e
                == TextEncoding::Utf16Be <==> csfrm == CsForm::Nchar),
            Ok(PyPlan::TimeDelta(a)) => value matches Some(QueryValue::IntervalDS(p)) && a.days
                == p.days && a.seconds == p.hours * 3600 + p.minutes * 60 + p.seconds,
            Ok(PyPlan::IntervalYM(i)) => value == Some(QueryValue::IntervalYM(i)),
            Ok(PyPlan::Bool(b)) => value == Some(QueryValue::Boolean(b)),
            Ok(PyPlan::Bytes) => value == Some(QueryValue::Raw),
            Ok(PyPlan::Float) => value == Some(QueryValue::BinaryDouble) || value == Some(
                QueryValue::Number { is_integer: false },
            ) && !ctx.fetch_decimals,
            Ok(PyPlan::Int) => value == Some(QueryValue::Number { is_integer: true })
                && !ctx.fetch_decimals,
            Ok(PyPlan::Decimal) => value matches Some(QueryValue::Number { .. })
                && ctx.fetch_decimals,
            Ok(PyPlan::DateTime(a)) => value matches Some(QueryValue::DateTime(f)) && a.year
                == f.year && a.month == f.month && a.day == f.day && a.hour == f.hour && a.minute
                == f.minute && a.second == f.second,
            Ok(PyPlan::List) => value == Some(QueryValue::Array),
            Ok(PyPlan::Vector) => value == Some(QueryValue::Vector),
            Ok(PyPlan::Json) => value == Some(QueryValue::Json),
            Ok(PyPlan::ChildCursor { cursor_id }) => value == Some(
                QueryValue::Cursor { cursor_id },
            ) && ctx.has_owner_cursor,
            Ok(PyPlan::LobContent { ora_type, csfrm, context_from_cursor }) => value matches Some(
                QueryValue::Lob { ora_type: t, csfrm: c, .. },
            ) && t == ora_type && c == csfrm && !ctx.fetch_lobs && (context_from_cursor
                <==> !ctx.has_lob_context),
            Ok(
                PyPlan::LobObject {
                    ora_type,
                    csfrm,
                    size,
                    chunk_size,
                    has_file_name,
                    context_from_cursor,
                },
            ) => value == Some(QueryValue::Lob { ora_type, csfrm, size, chunk_size })
                && ctx.fetch_lobs && (has_file_name <==> ora_type == OraType::Bfile) && (
            context_from_cursor <==> !ctx.has_lob_context),
            Ok(PyPlan::XmlType) => value matches Some(
                QueryValue::Object { object_name: Some(n), .. },
            ) && same_ignoring_case(n@, "XMLTYPE"@),
            Ok(PyPlan::Object { fqn, context_from_cursor }) => value matches Some(
                QueryValue::Object { schema, object_name: Some(n) },
            ) && ctx.has_owner_cursor && (schema is None ==> fqn@ == n@) && (schema matches Some(
                s,
            ) ==> fqn@ == if s@.len() > 0 {
                s@ + "."@ + n@
            } else {
                n@
            }) && (context_from_cursor <==> !ctx.has_lob_context),
            Err(_) => true,
        },
{
}

/// A fetched value is refused only where the cursor that it needs is missing, or where an object
/// has no name for its type. Values that need no cursor always convert.
pub proof fn law_conversion_fails_for_want_of_a_cursor(
    r: Result<PyPlan, Fault>,
    value: Option<QueryValue>,
    ctx: ConversionContext,
)
    requires
        plan_outcome(r, value, ctx),
    ensures
        r is Err <==> {
            ||| value matches Some(QueryValue::Cursor { .. }) && !ctx.has_owner_cursor
            ||| value matches Some(QueryValue::Lob { .. }) && !ctx.has_owner_cursor
                && !ctx.has_lob_context
            ||| value matches Some(QueryValue::Object { object_name, .. }) && (object_name is None
                || !ctx.has_owner_cursor && !same_ignoring_case(object_name->0@, "XMLTYPE"@))
        },
{
}

/// A cell is converted by the variable of its output type handler where there is one, whatever the
/// value. Otherwise binary JSON in a LOB is decoded, JSON stored as text is parsed, and a number
/// becomes a decimal where decimals are asked for; any other value converts by its own type.
pub proof fn law_cell_is_converted_by_its_column(
    d: DefinesModel,
    fetch_decimals: bool,
    index: int,
    kind: CellKind,
)
    requires
        0 <= index < d.columns.len(),
        d.fetch_vars.len() == d.columns.len(),
        d.define_columns.len() == d.columns.len(),
    ensures
        ({
            let step = cell_step(d, fetch_decimals, index, kind);
            let binary = d.define_columns[index].is_oson && d.define_columns[index].ora_type
                != OraType::Json;
            &&& step == CellStep::Variable <==> d.fetch_vars[index]
            &&& step == CellStep::DecodeOson <==> !d.fetch_vars[index] && binary && kind
                == CellKind::Raw
            &&& step == CellStep::Null ==> kind == CellKind::Null && binary
            &&& step == CellStep::JsonText <==> !d.fetch_vars[index] && !binary
                && d.columns[index].is_json && kind != CellKind::Json
            &&& step == CellStep::Decimal ==> fetch_decimals && kind == CellKind::Number
                && d.columns[index].ora_type == OraType::Number
            &&& fetch_decimals && kind == CellKind::Number && d.columns[index].ora_type
                == OraType::Number && !d.fetch_vars[index] && !binary && !d.columns[index].is_json
                ==> step == CellStep::Decimal
        }),
{
}

/// A value of binary JSON becomes a Python value of its kind that carries what was stored; numbers
/// keep their digits, and only the floating point types become floats.
pub proof fn law_json_value_keeps_its_kind(value: OsonValue)
    ensures
        match json_plan(value) {
            OsonPlan::Null => value == OsonValue::Null,
            OsonPlan::Bool(b) => value == OsonValue::Bool(b),
            OsonPlan::Decimal => value == OsonValue::Number,
            OsonPlan::Float => value == OsonValue::BinaryFloat || value == OsonValue::BinaryDouble,
            OsonPlan::Str => value == OsonValue::Text,
            OsonPlan::Bytes => value == OsonValue::Raw,
            OsonPlan::DateTime(a) => value matches OsonValue::DateTime(f) && a.year == f.year
                && a.month == f.month && a.day == f.day && a.hour == f.hour && a.minute == f.minute
                && a.second == f.second && a.microsecond == f.nanosecond / 1000,
            OsonPlan::TimeDelta(a) => value matches OsonValue::IntervalDS(p) && a.days == p.days
                && a.seconds == p.hours * 3600 + p.minutes * 60 + p.seconds,
            OsonPlan::Vector => value == OsonValue::Vector,
            OsonPlan::List => value == OsonValue::Array,
            OsonPlan::Dict => value == OsonValue::Object,
        },
{
}

/// The variable that keeps a fetched value is the one that is there, and else a new one of the
/// column's type; a value beyond the known columns is kept as text.
pub proof fn law_fetched_values_keep_their_variables(existing: Seq<bool>, columns: int, i: int)
    requires
        0 <= i,
    ensures
        value_var(existing, columns, i) == FetchValueVar::Reuse <==> i < existing.len()
            && existing[i],
        value_var(existing, columns, i) == FetchValueVar::OfColumn ==> i < columns,
        value_var(existing, columns, i) == FetchValueVar::OfText ==> i >= columns,
{
}

/// Each column shows the variable of its handler, and without one that of its last value.
pub proof fn law_columns_show_their_variables(
    r: Seq<FetchVar>,
    handler: Seq<bool>,
    value: Seq<bool>,
    i: int,
)
    requires
        vars_shown(r, handler, value),
        0 <= i,
    ensures
        i < r.len() <==> i < handler.len() || i < value.len(),
        i < handler.len() && handler[i] ==> r[i] == FetchVar::Handler,
        i < value.len() && value[i] && (i >= handler.len() || !handler[i]) ==> r[i]
            == FetchVar::Value,
        i < r.len() && r[i] == FetchVar::Handler ==> i < handler.len() && handler[i],
        i < r.len() && r[i] == FetchVar::Value ==> i < value.len() && value[i],
{
}

/// The columns whose values are read in are exactly those of character and binary LOBs, in order.
pub proof fn law_lob_columns_are_found(columns: Seq<ColumnMetadata>, n: int, i: int)
    requires
        0 <= n <= columns.len() <= usize::MAX,
        0 <= i < n,
    ensures
        ({
            let found = lob_indices(columns, n);
            &&& found.contains(i as usize) <==> columns[i].ora_type == OraType::Clob
                || columns[i].ora_type == OraType::Blob
            &&& forall|k: int| 0 <= k < found.len() ==> (#[trigger] found[k]) < n
            &&& forall|k: int, l: int|
                0 <= k < l < found.len() ==> (#[trigger] found[k]) < (#[trigger] found[l])
        }),
    decreases n,
{
    let found = lob_indices(columns, n);
    let before = lob_indices(columns, n - 1);
    if n > 1 {
        law_lob_columns_are_found(
            columns,
            n - 1,
            if i < n - 1 {
                i
            } else {
                0
            },
        );
    } else {
        assert(lob_indices(columns, 0).len() == 0);
    }
    if columns[n - 1].is_lob() {
        assert(found == before.push((n - 1) as usize));
        assert(found[before.len() as int] == n - 1);
        if before.contains(i as usize) {
            let k = before.index_of(i as usize);
            assert(found[k] == i);
        }
        if i < n - 1 && found.contains(i as usize) {
            let k = choose|k: int| 0 <= k < found.len() && found[k] == i as usize;
            assert(before[k] == i as usize);
        }
    } else if i == n - 1 && found.contains(i as usize) {
        let k = choose|k: int| 0 <= k < found.len() && found[k] == i as usize;
        assert(found[k] < n - 1);
    }
}

/// Fetching all rows loses none: first come those of the buffer, then those of each fetch, in the
/// order in which they came. Only the rows of a query can be fetched.
pub proof fn law_drain_keeps_all_rows<R>(
    buffer: BufferModel<R>,
    emptied: BufferModel<R>,
    r: Result<Drain<R>, Fault>,
    is_query: bool,
    requires_define: bool,
    after: Drain<R>,
    buffer_after: BufferModel<R>,
    rows: Seq<R>,
    cursor_id: u32,
    more_rows: bool,
)
    requires
        drain_started(buffer, emptied, r, is_query, requires_define),
        r is Ok,
        drained(r->Ok_0, after, emptied, buffer_after, rows, cursor_id, more_rows),
    ensures
        is_query,
        r->Ok_0.pending_define == requires_define,
        emptied.rows.len() == 0 && emptied.row_index == 0,
        after.rows@ == buffer.rows + rows,
        !after.pending_define,
        rows_are_left(buffer_after) <==> more_rows && (cursor_id != 0 || buffer.cursor_id != 0),
        buffer_after.rowcount == buffer.rowcount,
{
}

pub proof fn law_drain_needs_a_query<R>(
    buffer: BufferModel<R>,
    after: BufferModel<R>,
    r: Result<Drain<R>, Fault>,
    is_query: bool,
    requires_define: bool,
)
    requires
        drain_started(buffer, after, r, is_query, requires_define),
    ensures
        r is Ok <==> is_query,
        r matches Err(f) ==> f@ == FaultView::Named(ErrorName::NotAQuery) && after == buffer,
{
}

/// A frame has as many rows as were asked for, and at least one.
pub proof fn law_frame_size_is_what_was_asked(batch_size: i64)
    ensures
        1 <= batch_size <= usize::MAX ==> frame_size(batch_size) == batch_size,
        batch_size < 1 ==> frame_size(batch_size) == 1,
{
}

/// A JSON text is parsed where there is one and it is not empty.
pub proof fn law_empty_json_is_no_value(is_none: bool, truthy: bool)
    ensures
        is_none ==> !json_has_value(is_none, truthy),
        !truthy ==> !json_has_value(is_none, truthy),
        !is_none && truthy ==> json_has_value(is_none, truthy),
{
}

/// Only binary objects are taken as bytes; texts never are.
pub proof fn law_binary_content_is_raw(t: OraType)
    ensures
        content_is_raw(OraType::Blob),
        t == OraType::Clob || t == OraType::Varchar ==> !content_is_raw(t),
        content_is_raw(t) ==> t == OraType::Blob,
{
}

/// Fetching ends with all the rows that came, in their order, and with nothing left to define.
pub proof fn law_fetching_ends_with_all_rows<R>(
    d: Drain<R>,
    r: Seq<R>,
    before: DefinesModel,
    after: DefinesModel,
    i: int,
)
    requires
        d.finished(r, before, after),
    ensures
        r.len() == d.rows@.len(),
        0 <= i < r.len() ==> r[i] == d.rows@[i],
        !after.requires_define,
        after.columns == before.columns && after.fetch_vars == before.fetch_vars,
{
}

} // verus!
