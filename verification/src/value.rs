//! Database types and the values that are bound to placeholders.
use vstd::prelude::*;
#[allow(unused_imports)]
use vstd::utf8::{encode_utf8, valid_utf8};

verus! {

/// The database types that are told apart; any other keeps its number.
#[derive(Clone, Copy, PartialEq, Eq, Structural, Debug)]
pub enum OraType {
    Varchar,
    Number,
    BinaryInteger,
    Raw,
    LongRaw,
    BinaryFloat,
    BinaryDouble,
    Cursor,
    Object,
    Clob,
    Blob,
    Bfile,
    Json,
    Vector,
    Timestamp,
    TimestampTz,
    TimestampLtz,
    Boolean,
    Other(u8),
}

/// The form of a character type's character set.
#[derive(Clone, Copy, PartialEq, Eq, Structural, Debug)]
pub enum CsForm {
    Unset,
    Implicit,
    Nchar,
}

/// Type, character set form and buffer size of a bind.
#[derive(Clone, Copy, PartialEq, Eq, Structural, Debug)]
pub struct TypeInfo {
    pub ora_type: OraType,
    pub csfrm: CsForm,
    pub buffer_size: u32,
}

#[derive(Clone, Copy, PartialEq, Eq, Structural, Debug)]
pub struct DateTimeFields {
    pub year: i32,
    pub month: u8,
    pub day: u8,
    pub hour: u8,
    pub minute: u8,
    pub second: u8,
    pub nanosecond: u32,
}

/// A value bound to a placeholder.
pub enum BindValue {
    Null,
    TypedNull(TypeInfo),
    Boolean(bool),
    Text(String),
    Raw(Vec<u8>),
    /// A number as decimal text.
    Number(String),
    BinaryInteger(String),
    /// The bits of a double precision number.
    BinaryDouble(u64),
    /// The nanosecond is not sent.
    DateTime(DateTimeFields),
    Timestamp { ora_type: OraType, fields: DateTimeFields },
    IntervalDS { days: i32, seconds: i32, microseconds: i32 },
    IntervalYM { years: i32, months: i32 },
    Lob { ora_type: OraType, csfrm: CsForm, locator: Vec<u8> },
    /// An open cursor, or with id zero a cursor that the call opens.
    Cursor { cursor_id: u32 },
    Vector(Vec<u8>),
    Json(Vec<u8>),
    Array {
        info: TypeInfo,
        max_elements: u32,
        values: Vec<Option<BindValue>>,
    },
    ObjectInput {
        schema: String,
        object_name: String,
        oid: Vec<u8>,
        version: u32,
        image: Vec<u8>,
        buffer_size: u32,
    },
    Output(TypeInfo),
    ReturnOutput(TypeInfo),
    ObjectOutput { schema: String, object_name: String, oid: Vec<u8>, version: u32 },
}

impl BindValue {
    /// A PL/SQL output bind that holds a concrete value goes in and out; any other is output only.
    pub open spec fn keeps_plsql_input(self) -> bool {
        match self {
            BindValue::Null
            | BindValue::TypedNull(_)
            | BindValue::Output(_)
            | BindValue::ReturnOutput(_)
            | BindValue::ObjectOutput { .. } => false,
            BindValue::Cursor { cursor_id } => cursor_id != 0,
            _ => true,
        }
    }

    pub open spec fn is_output(self) -> bool {
        self is Output || self is ReturnOutput || self is ObjectOutput
    }

    /// The two bind the same value.
    pub open spec fn same(self, other: BindValue) -> bool
        decreases self,
    {
        match (self, other) {
            (BindValue::Raw(a), BindValue::Raw(b)) => a@ == b@,
            (BindValue::Vector(a), BindValue::Vector(b)) => a@ == b@,
            (BindValue::Json(a), BindValue::Json(b)) => a@ == b@,
            (
                BindValue::Lob { ora_type: t, csfrm: c, locator: a },
                BindValue::Lob { ora_type: u, csfrm: d, locator: b },
            ) => t == u && c == d && a@ == b@,
            (
                BindValue::Array { info: s, max_elements: m, values: a },
                BindValue::Array { info: t, max_elements: n, values: b },
            ) => {
                &&& s == t
                &&& m == n
                &&& a@.len() == b@.len()
                &&& forall|i: int|
                    0 <= i < a@.len() ==> match (#[trigger] a@[i], b@[i]) {
                        (Some(x), Some(y)) => x.same(y),
                        (x, y) => x is None && y is None,
                    }
            },
            (
                BindValue::ObjectInput {
                    schema: s,
                    object_name: n,
                    oid: a,
                    version: v,
                    image: c,
                    buffer_size: z,
                },
                BindValue::ObjectInput {
                    schema: t,
                    object_name: m,
                    oid: b,
                    version: w,
                    image: d,
                    buffer_size: y,
                },
            ) => s@ == t@ && n@ == m@ && a@ == b@ && v == w && c@ == d@ && z == y,
            (
                BindValue::ObjectOutput { schema: s, object_name: n, oid: a, version: v },
                BindValue::ObjectOutput { schema: t, object_name: m, oid: b, version: w },
            ) => s@ == t@ && n@ == m@ && a@ == b@ && v == w,
            _ => self == other,
        }
    }

    pub fn duplicate(&self) -> (r: BindValue)
        ensures
            self.same(r),
        decreases self,
    {
        match self {
            BindValue::Null => BindValue::Null,
            BindValue::TypedNull(info) => BindValue::TypedNull(*info),
            BindValue::Boolean(flag) => BindValue::Boolean(*flag),
            BindValue::Text(text) => BindValue::Text(text.clone()),
            BindValue::Raw(bytes) => BindValue::Raw(bytes.clone()),
            BindValue::Number(text) => BindValue::Number(text.clone()),
            BindValue::BinaryInteger(text) => BindValue::BinaryInteger(text.clone()),
            BindValue::BinaryDouble(bits) => BindValue::BinaryDouble(*bits),
            BindValue::DateTime(fields) => BindValue::DateTime(*fields),
            BindValue::Timestamp { ora_type, fields } => BindValue::Timestamp {
                ora_type: *ora_type,
                fields: *fields,
            },
            BindValue::IntervalDS { days, seconds, microseconds } => BindValue::IntervalDS {
                days: *days,
                seconds: *seconds,
                microseconds: *microseconds,
            },
            BindValue::IntervalYM { years, months } => BindValue::IntervalYM {
                years: *years,
                months: *months,
            },
            BindValue::Lob { ora_type, csfrm, locator } => BindValue::Lob {
                ora_type: *ora_type,
                csfrm: *csfrm,
                locator: locator.clone(),
            },
            BindValue::Cursor { cursor_id } => BindValue::Cursor { cursor_id: *cursor_id },
            BindValue::Vector(image) => BindValue::Vector(image.clone()),
            BindValue::Json(image) => BindValue::Json(image.clone()),
            BindValue::Array { info, max_elements, values } => {
                let mut copies: Vec<Option<BindValue>> = Vec::new();
                let mut i: usize = 0;
                while i < values.len()
                    invariant
                        *self == (BindValue::Array {
                            info: *info,
                            max_elements: *max_elements,
                            values: *values,
                        }),
                        i <= values@.len(),
                        copies@.len() == i,
                        forall|j: int|
                            0 <= j < i ==> match (#[trigger] values@[j], copies@[j]) {
                                (Some(x), Some(y)) => x.same(y),
                                (x, y) => x is None && y is None,
                            },
                    decreases values@.len() - i,
                {
                    let copy = match &values[i] {
                        Some(value) => {
                            proof {
                                assert(decreases_to!(*self => self->values));
                                assert(decreases_to!(self->values => self->values@[i as int]));
                            }
                            Some(value.duplicate())
                        },
                        None => None,
                    };
                    copies.push(copy);
                    i = i + 1;
                }
                BindValue::Array { info: *info, max_elements: *max_elements, values: copies }
            },
            BindValue::ObjectInput { schema, object_name, oid, version, image, buffer_size } =>
                BindValue::ObjectInput {
                    schema: schema.clone(),
                    object_name: object_name.clone(),
                    oid: oid.clone(),
                    version: *version,
                    image: image.clone(),
                    buffer_size: *buffer_size,
                },
            BindValue::Output(info) => BindValue::Output(*info),
            BindValue::ReturnOutput(info) => BindValue::ReturnOutput(*info),
            BindValue::ObjectOutput { schema, object_name, oid, version } =>
                BindValue::ObjectOutput {
                    schema: schema.clone(),
                    object_name: object_name.clone(),
                    oid: oid.clone(),
                    version: *version,
                },
        }
    }
}

/// Whether a PL/SQL output bind keeps its value, rather than become a placeholder for output.
pub fn plsql_output_bind_keeps(value: &BindValue) -> (r: bool)
    ensures
        r == value.keeps_plsql_input(),
{
    match value {
        BindValue::Null
        | BindValue::TypedNull(_)
        | BindValue::Output(_)
        | BindValue::ReturnOutput(_)
        | BindValue::ObjectOutput { .. } => false,
        BindValue::Cursor { cursor_id } => *cursor_id != 0,
        _ => true,
    }
}

pub fn bind_value_is_output(value: &BindValue) -> (r: bool)
    ensures
        r == value.is_output(),
{
    match value {
        BindValue::Output(_)
        | BindValue::ReturnOutput(_)
        | BindValue::ObjectOutput { .. } => true,
        _ => false,
    }
}

pub open spec fn row_has_output(row: Seq<BindValue>) -> bool {
    exists|i: int| 0 <= i < row.len() && (#[trigger] row[i]).is_output()
}

fn row_holds_output(row: &Vec<BindValue>) -> (r: bool)
    ensures
        r == row_has_output(row@),
{
    let mut i: usize = 0;
    while i < row.len()
        invariant
            i <= row@.len(),
            forall|j: int| 0 <= j < i ==> !(#[trigger] row@[j]).is_output(),
        decreases row@.len() - i,
    {
        if bind_value_is_output(&row[i]) {
            proof {
                assert(row@[i as int].is_output());
            }
            return true;
        }
        i = i + 1;
    }
    false
}

pub open spec fn iterates(is_plsql: bool, rows: Seq<Vec<BindValue>>) -> bool {
    is_plsql && exists|i: int| 0 <= i < rows.len() && row_has_output((#[trigger] rows[i])@)
}

/// Whether a batch has to be executed row by row: a PL/SQL block with output binds.
pub fn bind_rows_need_iterative_plsql(is_plsql: bool, rows: &Vec<Vec<BindValue>>) -> (r: bool)
    ensures
        r == iterates(is_plsql, rows@),
{
    if !is_plsql {
        return false;
    }
    let mut i: usize = 0;
    while i < rows.len()
        invariant
            is_plsql,
            i <= rows@.len(),
            forall|j: int| 0 <= j < i ==> !row_has_output((#[trigger] rows@[j])@),
        decreases rows@.len() - i,
    {
        if row_holds_output(&rows[i]) {
            return true;
        }
        i = i + 1;
    }
    false
}

/// `String::from_utf8` of the standard library gives the text that the bytes encode, and fails
/// exactly where the bytes are not UTF-8.
#[verifier::external_body]
pub(crate) fn text_from_utf8(bytes: Vec<u8>) -> (r: Option<String>)
    ensures
        match r {
            Some(s) => valid_utf8(bytes@) && encode_utf8(s@) == bytes@,
            None => !valid_utf8(bytes@),
        },
{
    String::from_utf8(bytes).ok()
}

pub open spec fn bytes_view(b: Option<Vec<u8>>) -> Option<Seq<u8>> {
    match b {
        Some(v) => Some(v@),
        None => None,
    }
}

/// The bytes of a text in UTF-8.
pub fn utf8_bytes(s: &str) -> (r: Vec<u8>)
    ensures
        r@ == encode_utf8(s@),
{
    s.as_bytes_vec()
}

/// A copy of a bind value is of the same kind and carries the same content.
pub proof fn law_copy_binds_the_same_value(a: BindValue, b: BindValue, i: int)
    requires
        a.same(b),
    ensures
        match a {
            BindValue::Null => b is Null,
            BindValue::TypedNull(t) => b == BindValue::TypedNull(t),
            BindValue::Boolean(f) => b == BindValue::Boolean(f),
            BindValue::Text(t) => b matches BindValue::Text(u) && u@ == t@,
            BindValue::Raw(t) => b matches BindValue::Raw(u) && u@ == t@,
            BindValue::Number(t) => b matches BindValue::Number(u) && u@ == t@,
            BindValue::BinaryInteger(t) => b matches BindValue::BinaryInteger(u) && u@ == t@,
            BindValue::BinaryDouble(t) => b == BindValue::BinaryDouble(t),
            BindValue::DateTime(t) => b == BindValue::DateTime(t),
            BindValue::Timestamp { ora_type, fields } => b == (BindValue::Timestamp {
                ora_type,
                fields,
            }),
            BindValue::IntervalDS { days, seconds, microseconds } => b == (BindValue::IntervalDS {
                days,
                seconds,
                microseconds,
            }),
            BindValue::IntervalYM { years, months } => b == (BindValue::IntervalYM {
                years,
                months,
            }),
            BindValue::Lob { ora_type, csfrm, locator } => b matches BindValue::Lob {
                ora_type: t,
                csfrm: c,
                locator: l,
            } && t == ora_type && c == csfrm && l@ == locator@,
            BindValue::Cursor { cursor_id } => b == (BindValue::Cursor { cursor_id }),
            BindValue::Vector(t) => b matches BindValue::Vector(u) && u@ == t@,
            BindValue::Json(t) => b matches BindValue::Json(u) && u@ == t@,
            BindValue::Array { info, max_elements, values } => b matches BindValue::Array {
                info: t,
                max_elements: m,
                values: other,
            } && t == info && m == max_elements && other@.len() == values@.len() && (0 <= i
                < values@.len() ==> (values@[i] is Some <==> other@[i] is Some) && (values@[i]
                is Some ==> values@[i]->0.same(other@[i]->0))),
            BindValue::ObjectInput { schema, object_name, oid, version, image, buffer_size } => b
                matches BindValue::ObjectInput {
                schema: s,
                object_name: n,
                oid: o,
                version: v,
                image: g,
                buffer_size: z,
            } && s@ == schema@ && n@ == object_name@ && o@ == oid@ && v == version && g@ == image@
                && z == buffer_size,
            BindValue::Output(t) => b == BindValue::Output(t),
            BindValue::ReturnOutput(t) => b == BindValue::ReturnOutput(t),
            BindValue::ObjectOutput { schema, object_name, oid, version } => b matches
                BindValue::ObjectOutput { schema: s, object_name: n, oid: o, version: v } && s@
                == schema@ && n@ == object_name@ && o@ == oid@ && v == version,
        },
{
}

/// A PL/SQL output bind keeps every value that says something: all but nulls, outputs and a cursor
/// that is yet to be opened.
pub proof fn law_plsql_output_keeps_values(v: BindValue)
    ensures
        v.keeps_plsql_input() <==> {
            &&& !(v is Null) && !(v is TypedNull)
            &&& !(v is Output) && !(v is ReturnOutput) && !(v is ObjectOutput)
            &&& v matches BindValue::Cursor { cursor_id } ==> cursor_id != 0
        },
        v.is_output() ==> !v.keeps_plsql_input(),
        v.is_output() <==> v is Output || v is ReturnOutput || v is ObjectOutput,
{
}

/// Only a PL/SQL block is executed row by row, and only one that binds an output in some row.
pub proof fn law_only_plsql_outputs_iterate(
    is_plsql: bool,
    rows: Seq<Vec<BindValue>>,
    i: int,
    j: int,
)
    ensures
        !is_plsql ==> !iterates(is_plsql, rows),
        is_plsql && 0 <= i < rows.len() && 0 <= j < rows[i]@.len() && (rows[i]@[j] is Output
            || rows[i]@[j] is ReturnOutput || rows[i]@[j] is ObjectOutput) ==> iterates(
            is_plsql,
            rows,
        ),
        iterates(is_plsql, rows) ==> exists|a: int, b: int|
            0 <= a < rows.len() && 0 <= b < rows[a]@.len() && (#[trigger] rows[a]@[b]).is_output(),
{
    if is_plsql && 0 <= i < rows.len() && 0 <= j < rows[i]@.len() && (rows[i]@[j] is Output
        || rows[i]@[j] is ReturnOutput || rows[i]@[j] is ObjectOutput) {
        assert(rows[i]@[j].is_output());
        assert(row_has_output(rows[i]@));
    }
    if iterates(is_plsql, rows) {
        let a = choose|a: int| 0 <= a < rows.len() && row_has_output((#[trigger] rows[a])@);
        let b = choose|b: int| 0 <= b < rows[a]@.len() && (#[trigger] rows[a]@[b]).is_output();
        assert(rows[a]@[b].is_output());
    }
}

} // verus!
