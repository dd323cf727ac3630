//! How Python values become bind values, binary JSON and direct path columns.
//!
//! A Python value is described by what each of the probes that are made of it finds. Which probe
//! decides is settled here; converting what only Python or the driver can convert is left to the
//! caller and named by the result.
use vstd::prelude::*;

use crate::errors::{dpy_database_error, ErrorName, Fault};
#[allow(unused_imports)]
use crate::errors::{database_view, FaultView};
use crate::slots::wrong_count;
#[allow(unused_imports)]
use crate::slots::wrong_count_fault;
use crate::text::{chars_of, join3, owned, same_text};
use crate::value::{text_from_utf8, utf8_bytes, BindValue, CsForm, DateTimeFields, OraType, TypeInfo};
#[allow(unused_imports)]
use vstd::utf8::{encode_utf8, valid_utf8};

verus! {

/// A `datetime.timedelta`, which Python keeps normalised.
#[derive(Clone, Copy, PartialEq, Eq, Structural, Debug)]
pub struct TimeDelta {
    pub days: i32,
    pub seconds: i32,
    pub microseconds: i32,
}

impl TimeDelta {
    pub open spec fn wf(self) -> bool {
        0 <= self.seconds < 86400 && 0 <= self.microseconds < 1_000_000
    }
}

/// An `oracledb.IntervalYM`.
#[derive(Clone, Copy, PartialEq, Eq, Structural, Debug)]
pub struct YearMonth {
    pub years: i32,
    pub months: i32,
}

/// What is known of a public cursor that is passed as a value.
#[derive(Clone, Copy, PartialEq, Eq, Structural, Debug)]
pub enum CursorFacet {
    /// The cursor was closed.
    NotOpen,
    /// A cursor of this driver, with the id of its server cursor, zero if it has none.
    Open { cursor_id: u32 },
    /// An object that looks like a cursor and is not one of this driver.
    Foreign,
}

/// What the probes of a Python value find.
pub struct PyFacets {
    pub is_none: bool,
    /// A bind variable.
    pub is_var: bool,
    /// An instance of `bool`, and its value.
    pub boolean: Option<bool>,
    /// What `bool()` makes of the value.
    pub truthy: bool,
    pub cursor: Option<CursorFacet>,
    pub is_lob: bool,
    pub is_object: bool,
    pub bytes: Option<Vec<u8>>,
    pub interval_ym: Option<YearMonth>,
    /// An array or a sparse vector.
    pub is_vector: bool,
    pub is_list: bool,
    pub is_tuple: bool,
    pub is_dict: bool,
    pub datetime: Option<DateTimeFields>,
    pub text: Option<String>,
    /// The decimal text of a value that converts to a whole number.
    pub integer: Option<String>,
    /// The text of a value that converts to a floating point number.
    pub float: Option<String>,
    pub timedelta: Option<TimeDelta>,
    /// An instance of `int`, `float` or `decimal.Decimal`.
    pub is_int: bool,
    pub is_float: bool,
    pub is_decimal: bool,
    /// What `str()` makes of the value.
    pub str_text: String,
    /// The name of the value's type.
    pub type_label: String,
}

/// How a Python value becomes a bind value.
pub enum Conversion {
    Ready(BindValue),
    /// Read the bind value off the variable.
    Variable,
    /// Bind the LOB.
    Lob,
    /// Bind the object.
    Object,
    /// Encode the value as a vector, a plain list too where `accept_list` is set.
    Vector { accept_list: bool },
    /// Convert the items and bind them as an array.
    Sequence,
    /// Encode the value as binary JSON.
    Json,
    /// Bind what `int()` makes of the value as a binary integer.
    BinaryInteger,
    /// Bind what `float()` makes of the value as a binary double.
    BinaryDouble,
    /// Bind 1 for true and 0 for false.
    NumberFlag(bool),
    /// Bind the template of the variable.
    Template,
}

/// The first probe that finds something decides.
pub open spec fn conversion_of(f: PyFacets) -> Result<Conversion, Fault> {
    if f.is_none {
        Ok(Conversion::Ready(BindValue::Null))
    } else if f.is_var {
        Ok(Conversion::Variable)
    } else if f.boolean is Some {
        Ok(Conversion::Ready(BindValue::Boolean(f.boolean->0)))
    } else if f.cursor == Some(CursorFacet::NotOpen) {
        Err(Fault::Named(ErrorName::CursorNotOpen))
    } else if f.cursor is Some && f.cursor->0 is Open {
        Ok(Conversion::Ready(BindValue::Cursor { cursor_id: f.cursor->0->cursor_id }))
    } else if f.is_lob {
        Ok(Conversion::Lob)
    } else if f.is_object {
        Ok(Conversion::Object)
    } else if f.bytes is Some {
        Ok(Conversion::Ready(BindValue::Raw(f.bytes->0)))
    } else if f.interval_ym is Some {
        Ok(
            Conversion::Ready(
                BindValue::IntervalYM {
                    years: f.interval_ym->0.years,
                    months: f.interval_ym->0.months,
                },
            ),
        )
    } else if f.is_vector {
        Ok(Conversion::Vector { accept_list: false })
    } else if f.is_list || f.is_tuple {
        Ok(Conversion::Sequence)
    } else if f.datetime is Some {
        Ok(Conversion::Ready(BindValue::DateTime(f.datetime->0)))
    } else if f.text is Some {
        Ok(Conversion::Ready(BindValue::Text(f.text->0)))
    } else if f.integer is Some {
        Ok(Conversion::Ready(BindValue::Number(f.integer->0)))
    } else if f.float is Some {
        Ok(Conversion::Ready(BindValue::Number(f.float->0)))
    } else if f.timedelta is Some {
        Ok(
            Conversion::Ready(
                BindValue::IntervalDS {
                    days: f.timedelta->0.days,
                    seconds: f.timedelta->0.seconds,
                    microseconds: f.timedelta->0.microseconds,
                },
            ),
        )
    } else {
        Err(Fault::PythonValueNotSupported { type_label: f.type_label })
    }
}

/// Decides how a Python value is bound when its own type decides.
pub fn py_value_to_bind(f: PyFacets) -> (r: Result<Conversion, Fault>)
    ensures
        r == conversion_of(f),
{
    if f.is_none {
        return Ok(Conversion::Ready(BindValue::Null));
    }
    if f.is_var {
        return Ok(Conversion::Variable);
    }
    if let Some(b) = f.boolean {
        return Ok(Conversion::Ready(BindValue::Boolean(b)));
    }
    if let Some(cursor) = f.cursor {
        match cursor {
            CursorFacet::NotOpen => {
                return Err(Fault::Named(ErrorName::CursorNotOpen));
            },
            CursorFacet::Open { cursor_id } => {
                return Ok(Conversion::Ready(BindValue::Cursor { cursor_id }));
            },
            CursorFacet::Foreign => {},
        }
    }
    if f.is_lob {
        return Ok(Conversion::Lob);
    }
    if f.is_object {
        return Ok(Conversion::Object);
    }
    if let Some(bytes) = f.bytes {
        return Ok(Conversion::Ready(BindValue::Raw(bytes)));
    }
    if let Some(i) = f.interval_ym {
        return Ok(
            Conversion::Ready(BindValue::IntervalYM { years: i.years, months: i.months }),
        );
    }
    if f.is_vector {
        return Ok(Conversion::Vector { accept_list: false });
    }
    if f.is_list || f.is_tuple {
        return Ok(Conversion::Sequence);
    }
    if let Some(fields) = f.datetime {
        return Ok(Conversion::Ready(BindValue::DateTime(fields)));
    }
    if let Some(text) = f.text {
        return Ok(Conversion::Ready(BindValue::Text(text)));
    }
    if let Some(number) = f.integer {
        return Ok(Conversion::Ready(BindValue::Number(number)));
    }
    if let Some(number) = f.float {
        return Ok(Conversion::Ready(BindValue::Number(number)));
    }
    if let Some(t) = f.timedelta {
        return Ok(
            Conversion::Ready(
                BindValue::IntervalDS {
                    days: t.days,
                    seconds: t.seconds,
                    microseconds: t.microseconds,
                },
            ),
        );
    }
    Err(Fault::PythonValueNotSupported { type_label: f.type_label })
}

pub open spec fn is_timestamp_type(t: OraType) -> bool {
    t == OraType::Timestamp || t == OraType::TimestampLtz || t == OraType::TimestampTz
}

/// How a Python value is bound through a variable of a given type.
pub open spec fn template_conversion(f: PyFacets, ora_type: Option<OraType>) -> Result<
    Conversion,
    Fault,
> {
    match ora_type {
        Some(OraType::BinaryInteger) => Ok(
            if f.is_none {
                Conversion::Ready(BindValue::Null)
            } else {
                Conversion::BinaryInteger
            },
        ),
        Some(OraType::BinaryDouble) => Ok(
            if f.is_none {
                Conversion::Ready(BindValue::Null)
            } else {
                Conversion::BinaryDouble
            },
        ),
        Some(OraType::Boolean) => Ok(
            if f.is_none {
                Conversion::Template
            } else {
                Conversion::Ready(BindValue::Boolean(f.truthy))
            },
        ),
        Some(OraType::Vector) => Ok(
            if f.is_none {
                Conversion::Ready(BindValue::Null)
            } else {
                Conversion::Vector { accept_list: true }
            },
        ),
        Some(OraType::Json) => Ok(
            if f.is_none {
                Conversion::Ready(BindValue::Null)
            } else {
                Conversion::Json
            },
        ),
        Some(t) => if t == OraType::Number && f.boolean is Some {
            Ok(Conversion::NumberFlag(f.truthy))
        } else if t == OraType::Number && f.type_label@ == "Decimal"@ {
            Ok(Conversion::Ready(BindValue::Number(f.str_text)))
        } else if f.datetime is Some && is_timestamp_type(t) {
            Ok(Conversion::Ready(BindValue::Timestamp { ora_type: t, fields: f.datetime->0 }))
        } else {
            conversion_of(f)
        },
        None => conversion_of(f),
    }
}

/// Decides how a Python value is bound through a variable whose type is known.
pub fn py_value_to_bind_with_template(f: PyFacets, ora_type: Option<OraType>) -> (r: Result<
    Conversion,
    Fault,
>)
    ensures
        r == template_conversion(f, ora_type),
{
    let t = match ora_type {
        None => {
            return py_value_to_bind(f);
        },
        Some(t) => t,
    };
    match t {
        OraType::BinaryInteger => {
            if f.is_none {
                Ok(Conversion::Ready(BindValue::Null))
            } else {
                Ok(Conversion::BinaryInteger)
            }
        },
        OraType::BinaryDouble => {
            if f.is_none {
                Ok(Conversion::Ready(BindValue::Null))
            } else {
                Ok(Conversion::BinaryDouble)
            }
        },
        OraType::Boolean => {
            if f.is_none {
                Ok(Conversion::Template)
            } else {
                Ok(Conversion::Ready(BindValue::Boolean(f.truthy)))
            }
        },
        OraType::Vector => {
            if f.is_none {
                Ok(Conversion::Ready(BindValue::Null))
            } else {
                Ok(Conversion::Vector { accept_list: true })
            }
        },
        OraType::Json => {
            if f.is_none {
                Ok(Conversion::Ready(BindValue::Null))
            } else {
                Ok(Conversion::Json)
            }
        },
        _ => {
            if t == OraType::Number && f.boolean.is_some() {
                return Ok(Conversion::NumberFlag(f.truthy));
            }
            if t == OraType::Number && same_text(f.type_label.as_str(), "Decimal") {
                return Ok(Conversion::Ready(BindValue::Number(f.str_text)));
            }
            if let Some(fields) = f.datetime {
                if t == OraType::Timestamp || t == OraType::TimestampLtz || t
                    == OraType::TimestampTz {
                    return Ok(Conversion::Ready(BindValue::Timestamp { ora_type: t, fields }));
                }
            }
            py_value_to_bind(f)
        },
    }
}

pub open spec fn flag_number(flag: bool) -> Seq<char> {
    if flag {
        "1"@
    } else {
        "0"@
    }
}

/// The text that a boolean is bound as through a variable for numbers.
pub fn number_flag_text(flag: bool) -> (r: String)
    ensures
        r@ == flag_number(flag),
{
    if flag {
        owned("1")
    } else {
        owned("0")
    }
}

/// The type information of the first element that has any.
pub open spec fn first_info(infos: Seq<Option<TypeInfo>>, from: int) -> Option<TypeInfo>
    decreases infos.len() - from,
{
    if from < 0 || from >= infos.len() {
        None
    } else if infos[from] is Some {
        infos[from]
    } else {
        first_info(infos, from + 1)
    }
}

pub open spec fn default_array_info() -> TypeInfo {
    TypeInfo { ora_type: OraType::Varchar, csfrm: CsForm::Implicit, buffer_size: 1 }
}

pub open spec fn clamp_count(n: int) -> u32 {
    if n < 1 {
        1
    } else if n > u32::MAX {
        u32::MAX
    } else {
        n as u32
    }
}

/// A count as the driver takes it: at least one, at most what fits.
pub fn array_capacity(n: usize) -> (r: u32)
    ensures
        r == clamp_count(n as int),
{
    if n < 1 {
        1
    } else if n > 0xffff_ffff {
        0xffff_ffff
    } else {
        n as u32
    }
}

pub open spec fn array_of(
    values: Vec<Option<BindValue>>,
    infos: Seq<Option<TypeInfo>>,
    fallback: TypeInfo,
) -> BindValue {
    BindValue::Array {
        info: match first_info(infos, 0) {
            Some(i) => i,
            None => fallback,
        },
        max_elements: clamp_count(values@.len() as int),
        values,
    }
}

/// The array bind of converted elements. `infos` holds the type information that the driver has of
/// each, `fallback` the one to use where none has any.
pub fn array_bind(
    values: Vec<Option<BindValue>>,
    infos: &Vec<Option<TypeInfo>>,
    fallback: TypeInfo,
) -> (r: BindValue)
    ensures
        r == array_of(values, infos@, fallback),
{
    let mut info: TypeInfo = fallback;
    let mut i: usize = 0;
    let mut found = false;
    while i < infos.len() && !found
        invariant
            i <= infos@.len(),
            !found ==> info == fallback && first_info(infos@, 0) == first_info(
                infos@,
                i as int,
            ),
            found ==> first_info(infos@, 0) == Some(info),
        decreases infos@.len() - i,
    {
        if let Some(t) = infos[i] {
            info = t;
            found = true;
        }
        i = i + 1;
    }
    let max_elements = array_capacity(values.len());
    BindValue::Array { info, max_elements, values }
}

/// The type information of an array of elements that have none.
pub fn untyped_array_info() -> (r: TypeInfo)
    ensures
        r == default_array_info(),
{
    TypeInfo { ora_type: OraType::Varchar, csfrm: CsForm::Implicit, buffer_size: 1 }
}

/// The attributes of a Python object that may be a date or a timestamp.
#[derive(Clone, Copy, PartialEq, Eq, Structural, Debug)]
pub struct DateParts {
    pub year: Option<i32>,
    pub month: Option<u8>,
    pub day: Option<u8>,
    pub hour: Option<u8>,
    pub minute: Option<u8>,
    pub second: Option<u8>,
    pub microsecond: Option<u32>,
}

pub open spec fn or_zero(v: Option<u8>) -> u8 {
    match v {
        Some(x) => x,
        None => 0,
    }
}

pub open spec fn micro_or_zero(v: Option<u32>) -> u32 {
    match v {
        Some(x) => x,
        None => 0,
    }
}

/// The fields of a date: present when year, month and day are, with zero for a missing time.
pub open spec fn fields_of(p: DateParts) -> Option<DateTimeFields> {
    if p.year is Some && p.month is Some && p.day is Some {
        Some(
            DateTimeFields {
                year: p.year->0,
                month: p.month->0,
                day: p.day->0,
                hour: or_zero(p.hour),
                minute: or_zero(p.minute),
                second: or_zero(p.second),
                nanosecond: (micro_or_zero(p.microsecond) * 1000) as u32,
            },
        )
    } else {
        None
    }
}

/// Takes the fields of a date or timestamp.
pub fn py_date_time_fields(p: DateParts) -> (r: Option<DateTimeFields>)
    requires
        micro_or_zero(p.microsecond) * 1000 <= u32::MAX,
    ensures
        r == fields_of(p),
{
    match (p.year, p.month, p.day) {
        (Some(year), Some(month), Some(day)) => {
            let microsecond: u32 = p.microsecond.unwrap_or(0);
            Some(
                DateTimeFields {
                    year,
                    month,
                    day,
                    hour: p.hour.unwrap_or(0),
                    minute: p.minute.unwrap_or(0),
                    second: p.second.unwrap_or(0),
                    nanosecond: microsecond * 1000,
                },
            )
        },
        _ => None,
    }
}

/// A day to second interval as the JSON codec takes it.
#[derive(Clone, Copy, PartialEq, Eq, Structural, Debug)]
pub struct IntervalParts {
    pub days: i32,
    pub hours: i32,
    pub minutes: i32,
    pub seconds: i32,
    pub fseconds: i32,
}

pub open spec fn parts_of(t: TimeDelta) -> IntervalParts {
    IntervalParts {
        days: t.days,
        hours: (t.seconds / 3600) as i32,
        minutes: ((t.seconds % 3600) / 60) as i32,
        seconds: (t.seconds % 60) as i32,
        fseconds: (t.microseconds * 1000) as i32,
    }
}

pub fn split_timedelta(t: TimeDelta) -> (r: IntervalParts)
    requires
        t.wf(),
    ensures
        r == parts_of(t),
{
    IntervalParts {
        days: t.days,
        hours: t.seconds / 3600,
        minutes: (t.seconds % 3600) / 60,
        seconds: t.seconds % 60,
        fseconds: t.microseconds * 1000,
    }
}

/// The arguments of `datetime.timedelta` for an interval: days, seconds and microseconds.
#[derive(Clone, Copy, PartialEq, Eq, Structural, Debug)]
pub struct TimeDeltaArgs {
    pub days: i32,
    pub seconds: i64,
    pub microseconds: i64,
}

/// Division that rounds towards zero.
pub open spec fn truncated_div(a: int, b: int) -> int
    recommends
        b > 0,
{
    if a >= 0 {
        a / b
    } else {
        -((-a) / b)
    }
}

pub open spec fn timedelta_of(p: IntervalParts) -> TimeDeltaArgs {
    TimeDeltaArgs {
        days: p.days,
        seconds: (p.hours * 3600 + p.minutes * 60 + p.seconds) as i64,
        microseconds: truncated_div(p.fseconds as int, 1000) as i64,
    }
}

/// The Python interval for the parts of an interval.
pub fn interval_ds_to_py(p: IntervalParts) -> (r: TimeDeltaArgs)
    ensures
        r == timedelta_of(p),
{
    let seconds: i64 = p.hours as i64 * 3600 + p.minutes as i64 * 60 + p.seconds as i64;
    let f: i64 = p.fseconds as i64;
    let microseconds: i64 = if f >= 0 {
        f / 1000
    } else {
        -((-f) / 1000)
    };
    TimeDeltaArgs { days: p.days, seconds, microseconds }
}

/// Splitting an interval into hours, minutes and seconds and putting it together again gives back
/// the interval.
pub proof fn law_interval_round_trip(t: TimeDelta)
    requires
        t.wf(),
    ensures
        timedelta_of(parts_of(t)) == (TimeDeltaArgs {
            days: t.days,
            seconds: t.seconds as i64,
            microseconds: t.microseconds as i64,
        }),
{
    let s = t.seconds as int;
    assert(s == (s / 3600) * 3600 + s % 3600);
    assert(s % 3600 == ((s % 3600) / 60) * 60 + (s % 3600) % 60);
    assert((s % 3600) % 60 == s % 60);
}

/// How a Python value becomes a node of binary JSON.
pub enum OsonConversion {
    Null,
    Bool(bool),
    /// A number, carried as its text.
    Number(String),
    Raw(Vec<u8>),
    Vector,
    IntervalDS(IntervalParts),
    DateTime(DateTimeFields),
    Text(String),
    /// Convert the items.
    Array,
    /// Convert the entries, whose keys have to be texts.
    Object,
}

pub open spec fn oson_conversion(f: PyFacets) -> Result<OsonConversion, Fault> {
    if f.is_none {
        Ok(OsonConversion::Null)
    } else if f.boolean is Some {
        Ok(OsonConversion::Bool(f.boolean->0))
    } else if f.is_int || f.is_float || f.is_decimal {
        Ok(OsonConversion::Number(f.str_text))
    } else if f.bytes is Some {
        Ok(OsonConversion::Raw(f.bytes->0))
    } else if f.is_vector {
        Ok(OsonConversion::Vector)
    } else if f.timedelta is Some {
        Ok(OsonConversion::IntervalDS(parts_of(f.timedelta->0)))
    } else if f.datetime is Some {
        Ok(OsonConversion::DateTime(f.datetime->0))
    } else if f.text is Some {
        Ok(OsonConversion::Text(f.text->0))
    } else if f.is_list || f.is_tuple {
        Ok(OsonConversion::Array)
    } else if f.is_dict {
        Ok(OsonConversion::Object)
    } else {
        Err(Fault::PythonTypeNotSupported { type_label: f.type_label })
    }
}

/// Decides how a Python value is encoded as binary JSON.
pub fn py_value_to_oson(f: PyFacets) -> (r: Result<OsonConversion, Fault>)
    requires
        f.timedelta matches Some(t) ==> t.wf(),
    ensures
        r == oson_conversion(f),
{
    if f.is_none {
        return Ok(OsonConversion::Null);
    }
    if let Some(b) = f.boolean {
        return Ok(OsonConversion::Bool(b));
    }
    if f.is_int || f.is_float || f.is_decimal {
        return Ok(OsonConversion::Number(f.str_text));
    }
    if let Some(bytes) = f.bytes {
        return Ok(OsonConversion::Raw(bytes));
    }
    if f.is_vector {
        return Ok(OsonConversion::Vector);
    }
    if let Some(t) = f.timedelta {
        return Ok(OsonConversion::IntervalDS(split_timedelta(t)));
    }
    if let Some(fields) = f.datetime {
        return Ok(OsonConversion::DateTime(fields));
    }
    if let Some(text) = f.text {
        return Ok(OsonConversion::Text(text));
    }
    if f.is_list || f.is_tuple {
        return Ok(OsonConversion::Array);
    }
    if f.is_dict {
        return Ok(OsonConversion::Object);
    }
    Err(Fault::PythonTypeNotSupported { type_label: f.type_label })
}

/// The error for a JSON object with a key that is not a text.
pub fn oson_key_error() -> (r: Fault)
    ensures
        r@ == FaultView::Named(ErrorName::PythonTypeNotSupported),
{
    Fault::Named(ErrorName::PythonTypeNotSupported)
}

/// The column that a direct path load sends a value to.
#[derive(Clone, Copy, PartialEq, Eq, Structural, Debug)]
pub struct TargetColumn {
    pub ora_type: OraType,
    pub is_nchar: bool,
}

/// How a Python value is sent by a direct path load.
pub enum DirectPathValue {
    Null,
    Boolean(bool),
    Bytes(Vec<u8>),
    DateTime(DateTimeFields),
    Number(String),
    /// Send what `float()` makes of the value, in single precision.
    BinaryFloat,
    /// Send what `float()` makes of the value, in double precision.
    BinaryDouble,
}

pub open spec fn utf16_unit(u: int) -> Seq<u8> {
    seq![(u / 256) as u8, (u % 256) as u8]
}

/// A character in UTF-16, most significant byte first.
pub open spec fn utf16_char(c: char) -> Seq<u8> {
    let u = c as u32 as int;
    if u < 0x10000 {
        utf16_unit(u)
    } else {
        utf16_unit(0xD800 + (u - 0x10000) / 0x400) + utf16_unit(0xDC00 + (u - 0x10000) % 0x400)
    }
}

/// A text in UTF-16, most significant byte first.
pub open spec fn utf16_bytes(s: Seq<char>) -> Seq<u8>
    decreases s.len(),
{
    if s.len() == 0 {
        Seq::empty()
    } else {
        utf16_bytes(s.drop_last()) + utf16_char(s.last())
    }
}

fn push_unit(out: &mut Vec<u8>, u: u32)
    requires
        u < 0x10000,
    ensures
        final(out)@ == old(out)@ + utf16_unit(u as int),
{
    out.push((u / 256) as u8);
    out.push((u % 256) as u8);
    proof {
        assert(out@ =~= old(out)@ + utf16_unit(u as int));
    }
}

/// Encodes a text in UTF-16, most significant byte first.
pub fn encode_utf16_be(s: &str) -> (r: Vec<u8>)
    ensures
        r@ == utf16_bytes(s@),
{
    let v = chars_of(s);
    let mut out: Vec<u8> = Vec::new();
    let mut i: usize = 0;
    proof {
        assert(v@.take(0) =~= Seq::<char>::empty());
    }
    while i < v.len()
        invariant
            v@ == s@,
            i <= v@.len(),
            out@ == utf16_bytes(v@.take(i as int)),
        decreases v@.len() - i,
    {
        let c: char = v[i];
        let u: u32 = c as u32;
        proof {
            vstd::utf8::char_is_scalar(c);
            assert(v@.take(i + 1).drop_last() =~= v@.take(i as int));
            assert(v@.take(i + 1).last() == v@[i as int]);
        }
        let ghost before = out@;
        if u < 0x10000 {
            push_unit(&mut out, u);
        } else {
            push_unit(&mut out, 0xD800 + (u - 0x10000) / 0x400);
            push_unit(&mut out, 0xDC00 + (u - 0x10000) % 0x400);
        }
        proof {
            assert(out@ =~= before + utf16_char(v@[i as int]));
        }
        i = i + 1;
    }
    proof {
        assert(v@.take(v@.len() as int) =~= v@);
    }
    out
}

/// The error for a value that no column of the target's type can take.
pub open spec fn direct_path_fault(label: Seq<char>) -> FaultView {
    database_view(
        "DPY-3002"@ + ": "@ + ("Python value of type \""@ + label + "\" is not supported"@),
    )
}

/// What is sent for a value, as far as the value and its column decide.
pub open spec fn direct_path_outcome(
    r: Result<DirectPathValue, Fault>,
    f: PyFacets,
    column: Option<TargetColumn>,
) -> bool {
    let ora_type = match column {
        Some(c) => Some(c.ora_type),
        None => None,
    };
    let nchar = column matches Some(c) && c.is_nchar;
    if f.is_none {
        r == Ok::<_, Fault>(DirectPathValue::Null)
    } else if f.boolean is Some && ora_type != Some(OraType::Number) {
        r == Ok::<_, Fault>(DirectPathValue::Boolean(f.truthy))
    } else if f.bytes is Some {
        r == Ok::<_, Fault>(DirectPathValue::Bytes(f.bytes->0))
    } else if f.text is Some {
        if f.text->0@.len() == 0 {
            r == Ok::<_, Fault>(DirectPathValue::Null)
        } else {
            r matches Ok(DirectPathValue::Bytes(b)) && b@ == if nchar {
                utf16_bytes(f.text->0@)
            } else {
                encode_utf8(f.text->0@)
            }
        }
    } else if f.datetime is Some {
        r == Ok::<_, Fault>(DirectPathValue::DateTime(f.datetime->0))
    } else if ora_type == Some(OraType::BinaryFloat) {
        r == Ok::<_, Fault>(DirectPathValue::BinaryFloat)
    } else if ora_type == Some(OraType::BinaryDouble) {
        r == Ok::<_, Fault>(DirectPathValue::BinaryDouble)
    } else if ora_type != Some(OraType::Raw) && ora_type != Some(OraType::Blob) && (f.is_int
        || f.type_label@ == "Decimal"@ || f.float is Some) {
        r == Ok::<_, Fault>(DirectPathValue::Number(f.str_text))
    } else {
        r matches Err(e) && e@ == direct_path_fault(f.type_label@)
    }
}

/// Decides what a direct path load sends for a Python value.
pub fn py_value_to_direct_path(f: PyFacets, column: Option<TargetColumn>) -> (r: Result<
    DirectPathValue,
    Fault,
>)
    ensures
        direct_path_outcome(r, f, column),
{
    if f.is_none {
        return Ok(DirectPathValue::Null);
    }
    let ora_type: Option<OraType> = match column {
        Some(c) => Some(c.ora_type),
        None => None,
    };
    let is_number = match ora_type {
        Some(t) => t == OraType::Number,
        None => false,
    };
    if f.boolean.is_some() && !is_number {
        return Ok(DirectPathValue::Boolean(f.truthy));
    }
    if let Some(bytes) = f.bytes {
        return Ok(DirectPathValue::Bytes(bytes));
    }
    if let Some(text) = f.text {
        if text.as_str().is_empty() {
            return Ok(DirectPathValue::Null);
        }
        let nchar = match column {
            Some(c) => c.is_nchar,
            None => false,
        };
        let bytes = if nchar {
            encode_utf16_be(text.as_str())
        } else {
            utf8_bytes(text.as_str())
        };
        return Ok(DirectPathValue::Bytes(bytes));
    }
    if let Some(fields) = f.datetime {
        return Ok(DirectPathValue::DateTime(fields));
    }
    let binary = match ora_type {
        Some(OraType::BinaryFloat) => {
            return Ok(DirectPathValue::BinaryFloat);
        },
        Some(OraType::BinaryDouble) => {
            return Ok(DirectPathValue::BinaryDouble);
        },
        Some(OraType::Raw) | Some(OraType::Blob) => true,
        _ => false,
    };
    if !binary && (f.is_int || same_text(f.type_label.as_str(), "Decimal") || f.float.is_some()) {
        return Ok(DirectPathValue::Number(f.str_text));
    }
    let m = join3(
        "Python value of type \"",
        f.type_label.as_str(),
        "\" is not supported",
    );
    Err(dpy_database_error("DPY-3002", m.as_str()))
}

/// The first row of a direct path load that has not one cell per column.
pub open spec fn first_wrong_width(widths: Seq<usize>, columns: int, from: int) -> Option<int>
    decreases widths.len() - from,
{
    if from < 0 || from >= widths.len() {
        None
    } else if widths[from] != columns {
        Some(from)
    } else {
        first_wrong_width(widths, columns, from + 1)
    }
}

/// Rejects rows that have not one cell per column.
pub fn verify_direct_path_widths(widths: &Vec<usize>, columns: usize) -> (r: Option<Fault>)
    ensures
        match first_wrong_width(widths@, columns as int, 0) {
            Some(i) => r matches Some(f) && f@ == wrong_count_fault(
                columns as int,
                widths@[i] as int,
            ),
            None => r is None,
        },
{
    let mut i: usize = 0;
    while i < widths.len()
        invariant
            i <= widths@.len(),
            first_wrong_width(widths@, columns as int, 0) == first_wrong_width(
                widths@,
                columns as int,
                i as int,
            ),
        decreases widths@.len() - i,
    {
        if widths[i] != columns {
            return Some(wrong_count(columns, widths[i]));
        }
        i = i + 1;
    }
    None
}

pub open spec fn batch_size_checked(r: Option<Fault>, batch_size: u32) -> bool {
    match r {
        Some(f) => batch_size == 0 && f@ == FaultView::TypeError(
            "batch_size must be a positive integer"@,
        ),
        None => batch_size > 0,
    }
}

/// Rejects a batch size of zero for a direct path load.
pub fn check_direct_path_batch_size(batch_size: u32) -> (r: Option<Fault>)
    ensures
        batch_size_checked(r, batch_size),
{
    if batch_size == 0 {
        Some(Fault::TypeError(owned("batch_size must be a positive integer")))
    } else {
        None
    }
}

/// What a declared input size is given as.
pub enum InputSizeSpec {
    /// A size in bytes.
    Size(u32),
    /// A tuple or list that starts with a type, and the number in its third place if there is one.
    TypeAndSize { size: Option<u32> },
    /// A type, or an empty tuple or list.
    Type,
}

/// What template a declared input size stands for.
#[derive(Clone, Copy, PartialEq, Eq, Structural, Debug)]
pub enum TemplateChoice {
    /// A text of at most so many bytes.
    Varchar { buffer_size: u32 },
    /// The driver's template for the type in the first place of the tuple or list.
    FirstItem { size: u32 },
    /// The driver's template for the type itself.
    Whole,
}

pub open spec fn template_choice(spec: InputSizeSpec) -> TemplateChoice {
    match spec {
        InputSizeSpec::Size(n) => TemplateChoice::Varchar {
            buffer_size: if n == 0 {
                1
            } else {
                n
            },
        },
        InputSizeSpec::TypeAndSize { size } => TemplateChoice::FirstItem {
            size: match size {
                Some(n) => n,
                None => 0,
            },
        },
        InputSizeSpec::Type => TemplateChoice::Whole,
    }
}

pub fn bind_template_from_input_size(spec: &InputSizeSpec) -> (r: TemplateChoice)
    ensures
        r == template_choice(*spec),
{
    match spec {
        InputSizeSpec::Size(n) => TemplateChoice::Varchar {
            buffer_size: if *n == 0 {
                1
            } else {
                *n
            },
        },
        InputSizeSpec::TypeAndSize { size } => TemplateChoice::FirstItem {
            size: match size {
                Some(n) => *n,
                None => 0,
            },
        },
        InputSizeSpec::Type => TemplateChoice::Whole,
    }
}

pub open spec fn optional_text_bind(value: Option<String>) -> BindValue {
    match value {
        Some(s) => BindValue::Text(s),
        None => BindValue::Null,
    }
}

/// The bind value of an optional text.
pub fn bind_optional_text(value: Option<String>) -> (r: BindValue)
    ensures
        r == optional_text_bind(value),
{
    match value {
        Some(s) => BindValue::Text(s),
        None => BindValue::Null,
    }
}

/// What a LOB held in memory is made of.
pub enum LobContent {
    Bytes(Vec<u8>),
    /// Text, still to be encoded for the LOB's character set form.
    Text(String),
}

/// A LOB to be made of a value that is bound through a LOB variable.
pub struct MemoryLob {
    pub ora_type: OraType,
    pub csfrm: CsForm,
    pub content: LobContent,
    pub size: u64,
}

/// The LOB type that a database type name stands for.
pub open spec fn memory_lob_type(name: Seq<char>) -> Option<(OraType, CsForm)> {
    if name == "DB_TYPE_BLOB"@ {
        Some((OraType::Blob, CsForm::Unset))
    } else if name == "DB_TYPE_CLOB"@ {
        Some((OraType::Clob, CsForm::Implicit))
    } else if name == "DB_TYPE_NCLOB"@ {
        Some((OraType::Clob, CsForm::Nchar))
    } else {
        None
    }
}

/// Why a value cannot become a LOB in memory.
#[derive(Clone, Copy, PartialEq, Eq, Structural, Debug)]
pub enum MemoryLobError {
    /// The value is neither bytes nor text.
    NotText,
    /// The bytes for a character LOB are not UTF-8.
    NotUtf8,
}

/// What becomes of a value that is bound through a variable of the named type: a LOB in memory, or
/// nothing where the type is no LOB type or the value is a LOB already, or an error where the value
/// is neither text nor bytes that hold text.
pub open spec fn memory_lob_outcome(
    r: Result<Option<MemoryLob>, MemoryLobError>,
    f: PyFacets,
    dbtype_name: Seq<char>,
) -> bool {
    match memory_lob_type(dbtype_name) {
        None => r matches Ok(o) && o is None,
        Some((ora_type, csfrm)) => if f.is_none || f.is_lob {
            r matches Ok(o) && o is None
        } else if f.bytes is None && f.text is None {
            r == Err::<Option<MemoryLob>, _>(MemoryLobError::NotText)
        } else {
            let bytes = if f.bytes is Some {
                f.bytes->0@
            } else {
                encode_utf8(f.text->0@)
            };
            if ora_type == OraType::Clob && f.bytes is Some && !valid_utf8(bytes) {
                r == Err::<Option<MemoryLob>, _>(MemoryLobError::NotUtf8)
            } else {
                r matches Ok(Some(lob)) && lob.ora_type == ora_type && lob.csfrm == csfrm && (
                match lob.content {
                    LobContent::Bytes(b) => ora_type == OraType::Blob && b@ == bytes && lob.size
                        == b@.len(),
                    LobContent::Text(t) => ora_type == OraType::Clob && encode_utf8(t@) == bytes
                        && lob.size == t@.len(),
                })
            }
        },
    }
}

/// Decides whether a value bound through a LOB variable becomes a LOB in memory.
pub fn scalar_value_to_memory_lob(f: PyFacets, dbtype_name: &str) -> (r: Result<
    Option<MemoryLob>,
    MemoryLobError,
>)
    ensures
        memory_lob_outcome(r, f, dbtype_name@),
{
    let (ora_type, csfrm) = if same_text(dbtype_name, "DB_TYPE_BLOB") {
        (OraType::Blob, CsForm::Unset)
    } else if same_text(dbtype_name, "DB_TYPE_CLOB") {
        (OraType::Clob, CsForm::Implicit)
    } else if same_text(dbtype_name, "DB_TYPE_NCLOB") {
        (OraType::Clob, CsForm::Nchar)
    } else {
        return Ok(None);
    };
    if f.is_none || f.is_lob {
        return Ok(None);
    }
    if ora_type == OraType::Blob {
        let bytes = match f.bytes {
            Some(b) => b,
            None => match f.text {
                Some(t) => utf8_bytes(t.as_str()),
                None => {
                    return Err(MemoryLobError::NotText);
                },
            },
        };
        let size = bytes.len() as u64;
        return Ok(Some(MemoryLob { ora_type, csfrm, content: LobContent::Bytes(bytes), size }));
    }
    let text = match f.bytes {
        Some(b) => match text_from_utf8(b) {
            Some(t) => t,
            None => {
                return Err(MemoryLobError::NotUtf8);
            },
        },
        None => match f.text {
            Some(t) => t,
            None => {
                return Err(MemoryLobError::NotText);
            },
        },
    };
    let size = text.as_str().unicode_len() as u64;
    Ok(Some(MemoryLob { ora_type, csfrm, content: LobContent::Text(text), size }))
}

pub open spec fn element_outcome(
    r: Result<Conversion, Fault>,
    f: PyFacets,
    dbtype_name: Seq<char>,
) -> bool {
    if dbtype_name == "DB_TYPE_BLOB"@ && f.text is Some {
        r matches Ok(Conversion::Ready(BindValue::Raw(b))) && b@ == encode_utf8(f.text->0@)
    } else {
        r == conversion_of(f)
    }
}

/// How an element of a collection, or an attribute, is bound: text for a binary LOB as its bytes,
/// anything else like a value of its own.
pub fn py_dbobject_element_to_bind(f: PyFacets, dbtype_name: &str) -> (r: Result<Conversion, Fault>)
    ensures
        element_outcome(r, f, dbtype_name@),
{
    if same_text(dbtype_name, "DB_TYPE_BLOB") {
        if let Some(text) = &f.text {
            return Ok(Conversion::Ready(BindValue::Raw(utf8_bytes(text.as_str()))));
        }
    }
    py_value_to_bind(f)
}

pub open spec fn byte_size_outcome(r: Option<usize>, f: PyFacets) -> bool {
    match r {
        Some(n) => !f.is_none && if f.text is Some {
            n == encode_utf8(f.text->0@).len()
        } else {
            f.bytes is Some && n == f.bytes->0@.len()
        },
        None => f.is_none || (f.text is None && f.bytes is None),
    }
}

/// The size in bytes of a text or of bytes that an object stores.
pub fn dbobject_value_byte_size(f: &PyFacets) -> (r: Option<usize>)
    ensures
        byte_size_outcome(r, *f),
{
    if f.is_none {
        return None;
    }
    match &f.text {
        Some(text) => Some(utf8_bytes(text.as_str()).len()),
        None => match &f.bytes {
            Some(b) => Some(b.len()),
            None => None,
        },
    }
}

/// A value is bound as what one of its probes found, and carries just that. It is bound as null
/// only where it is `None`, and as the text of a float only where it is no whole number.
pub proof fn law_bind_carries_what_was_found(f: PyFacets)
    ensures
        match conversion_of(f) {
            Ok(Conversion::Ready(v)) => match v {
                BindValue::Null => f.is_none,
                BindValue::Boolean(b) => f.boolean == Some(b),
                BindValue::Cursor { cursor_id } => f.cursor == Some(
                    CursorFacet::Open { cursor_id },
                ),
                BindValue::Raw(b) => f.bytes == Some(b),
                BindValue::IntervalYM { years, months } => f.interval_ym == Some(
                    YearMonth { years, months },
                ),
                BindValue::DateTime(d) => f.datetime == Some(d),
                BindValue::Text(t) => f.text == Some(t),
                BindValue::Number(n) => f.integer == Some(n) || f.integer is None && f.float
                    == Some(n),
                BindValue::IntervalDS { days, seconds, microseconds } => f.timedelta == Some(
                    TimeDelta { days, seconds, microseconds },
                ),
                _ => false,
            },
            Ok(Conversion::Variable) => f.is_var,
            Ok(Conversion::Lob) => f.is_lob,
            Ok(Conversion::Object) => f.is_object,
            Ok(Conversion::Vector { accept_list }) => f.is_vector && !accept_list,
            Ok(Conversion::Sequence) => f.is_list || f.is_tuple,
            Ok(_) => false,
            Err(e) => true,
        },
{
}

/// A value of which any probe found something is bound; only a closed cursor is an error. A value
/// of which nothing was found is refused by the name of its type.
pub proof fn law_bind_succeeds_on_any_find(f: PyFacets)
    ensures
        conversion_of(f) matches Err(e) ==> {
            ||| f.cursor == Some(CursorFacet::NotOpen) && e@ == FaultView::Named(
                ErrorName::CursorNotOpen,
            )
            ||| {
                &&& !f.is_none && !f.is_var && f.boolean is None && !f.is_lob && !f.is_object
                &&& f.cursor is None || f.cursor == Some(CursorFacet::Foreign)
                &&& f.bytes is None && f.interval_ym is None && !f.is_vector && !f.is_list
                    && !f.is_tuple
                &&& f.datetime is None && f.text is None && f.integer is None && f.float is None
                    && f.timedelta is None
                &&& e@ == (FaultView::PythonValueNotSupported { type_label: f.type_label@ })
            }
        },
        f.cursor == Some(CursorFacet::NotOpen) && !f.is_none && !f.is_var && f.boolean is None
            ==> conversion_of(f) is Err,
{
}

/// The two agree on the probes for `None`, variables and booleans.
pub open spec fn agree_to_boolean(f: PyFacets, g: PyFacets) -> bool {
    f.is_none == g.is_none && f.is_var == g.is_var && f.boolean == g.boolean
}

/// The two agree on the probes up to that for bytes.
pub open spec fn agree_to_bytes(f: PyFacets, g: PyFacets) -> bool {
    agree_to_boolean(f, g) && f.cursor == g.cursor && f.is_lob == g.is_lob && f.is_object
        == g.is_object && f.bytes == g.bytes
}

/// The two agree on the probes up to that for sequences.
pub open spec fn agree_to_sequence(f: PyFacets, g: PyFacets) -> bool {
    agree_to_bytes(f, g) && f.interval_ym == g.interval_ym && f.is_vector == g.is_vector
        && f.is_list == g.is_list && f.is_tuple == g.is_tuple
}

/// The probes are made in order, and what stands behind the first find does not matter: `None`,
/// variables, booleans, cursors, LOBs, objects, bytes, intervals, vectors, sequences, dates, texts,
/// whole numbers, floats. A boolean is no number though Python counts it as one, and a text is
/// bound as text though it may read as a number.
pub proof fn law_first_find_decides(f: PyFacets, g: PyFacets)
    ensures
        f.is_none && g.is_none ==> conversion_of(f) == conversion_of(g),
        f.is_var && f.is_none == g.is_none && g.is_var ==> conversion_of(f) == conversion_of(g),
        f.boolean is Some && agree_to_boolean(f, g) ==> conversion_of(f) == conversion_of(g),
        f.cursor matches Some(CursorFacet::Open { .. }) && agree_to_boolean(f, g) && f.cursor
            == g.cursor ==> conversion_of(f) == conversion_of(g),
        f.is_lob && agree_to_boolean(f, g) && f.cursor == g.cursor && g.is_lob ==> conversion_of(f)
            == conversion_of(g),
        f.is_object && agree_to_boolean(f, g) && f.cursor == g.cursor && f.is_lob == g.is_lob
            && g.is_object ==> conversion_of(f) == conversion_of(g),
        f.bytes is Some && agree_to_bytes(f, g) ==> conversion_of(f) == conversion_of(g),
        f.interval_ym is Some && agree_to_bytes(f, g) && f.interval_ym == g.interval_ym
            ==> conversion_of(f) == conversion_of(g),
        f.is_vector && agree_to_bytes(f, g) && f.interval_ym == g.interval_ym && g.is_vector
            ==> conversion_of(f) == conversion_of(g),
        (f.is_list || f.is_tuple) && agree_to_sequence(f, g) ==> conversion_of(f)
            == conversion_of(g),
        f.datetime is Some && agree_to_sequence(f, g) && f.datetime == g.datetime ==> conversion_of(
            f,
        ) == conversion_of(g),
        f.text is Some && agree_to_sequence(f, g) && f.datetime == g.datetime && f.text == g.text
            ==> conversion_of(f) == conversion_of(g),
        f.integer is Some && agree_to_sequence(f, g) && f.datetime == g.datetime && f.text
            == g.text && f.integer == g.integer ==> conversion_of(f) == conversion_of(g),
        f.float is Some && agree_to_sequence(f, g) && f.datetime == g.datetime && f.text == g.text
            && f.integer == g.integer && f.float == g.float ==> conversion_of(f) == conversion_of(
            g,
        ),
{
}

/// A value of which only the probe for floating point numbers found something is bound as a number
/// with exactly that text.
pub proof fn law_float_is_bound_as_its_text(f: PyFacets, text: String)
    requires
        f.float == Some(text),
        !f.is_none && !f.is_var && f.boolean is None && f.cursor is None && !f.is_lob
            && !f.is_object && f.bytes is None && f.interval_ym is None && !f.is_vector
            && !f.is_list && !f.is_tuple && f.datetime is None && f.text is None && f.integer
            is None,
    ensures
        conversion_of(f) matches Ok(Conversion::Ready(BindValue::Number(n))) && n == text,
{
}

/// A variable with a type converts as its type asks: whole and floating point numbers, vectors and
/// JSON each in their own way, and only through such a variable. `None` stays null, or the template
/// of a variable for booleans.
pub proof fn law_typed_variable_converts_by_its_type(f: PyFacets, t: OraType)
    ensures
        template_conversion(f, Some(t)) matches Ok(c) ==> {
            &&& c is BinaryInteger <==> t == OraType::BinaryInteger && !f.is_none
            &&& c is BinaryDouble <==> t == OraType::BinaryDouble && !f.is_none
            &&& c is Json <==> t == OraType::Json && !f.is_none
            &&& c is Template <==> t == OraType::Boolean && f.is_none
            &&& c matches Conversion::Vector { accept_list } ==> (accept_list <==> t
                == OraType::Vector)
            &&& t == OraType::Vector && !f.is_none ==> c is Vector
            &&& t == OraType::Boolean && !f.is_none ==> c == Conversion::Ready(
                BindValue::Boolean(f.truthy),
            )
            &&& c is NumberFlag <==> t == OraType::Number && f.boolean is Some
            &&& c matches Conversion::NumberFlag(b) ==> b == f.truthy
        },
        f.is_none && (t == OraType::BinaryInteger || t == OraType::BinaryDouble || t
            == OraType::Vector || t == OraType::Json) ==> template_conversion(f, Some(t)) == Ok::<
            Conversion,
            Fault,
        >(Conversion::Ready(BindValue::Null)),
        template_conversion(f, None) == conversion_of(f),
{
}

/// A date that is bound through a variable for timestamps keeps its fields, and takes the type of
/// the variable; through no other variable does a date become a timestamp.
pub proof fn law_timestamp_takes_the_variables_type(f: PyFacets, t: OraType)
    ensures
        template_conversion(f, Some(t)) matches Ok(
            Conversion::Ready(BindValue::Timestamp { ora_type, fields }),
        ) ==> ora_type == t && f.datetime == Some(fields) && (t == OraType::Timestamp || t
            == OraType::TimestampTz || t == OraType::TimestampLtz),
        f.datetime is Some && (t == OraType::Timestamp || t == OraType::TimestampTz || t
            == OraType::TimestampLtz) ==> (template_conversion(f, Some(t)) matches Ok(
            Conversion::Ready(BindValue::Timestamp { ora_type, fields }),
        ) && ora_type == t && f.datetime == Some(fields)),
{
}

/// A decimal that is bound through a variable for numbers keeps the text that Python writes for it.
/// Any other value that its variable's type does not speak of is bound by its own type.
pub proof fn law_other_types_leave_the_value(f: PyFacets, t: OraType)
    requires
        t != OraType::BinaryInteger && t != OraType::BinaryDouble && t != OraType::Boolean && t
            != OraType::Vector && t != OraType::Json,
    ensures
        t == OraType::Number && f.boolean is None && f.type_label@ == "Decimal"@ ==> (
        template_conversion(f, Some(t)) matches Ok(Conversion::Ready(BindValue::Number(n))) && n
            == f.str_text),
        t == OraType::Number && f.boolean is None && f.type_label@ != "Decimal"@
            ==> template_conversion(f, Some(t)) == conversion_of(f),
        t != OraType::Number && f.datetime is None ==> template_conversion(f, Some(t))
            == conversion_of(f),
        t != OraType::Number && t != OraType::Timestamp && t != OraType::TimestampTz && t
            != OraType::TimestampLtz ==> template_conversion(f, Some(t)) == conversion_of(f),
{
}

/// An array binds all of its elements, and has room for at least one. Its type is that of the first
/// element that has one; without any it is the one to fall back on.
pub proof fn law_array_takes_the_first_type(
    values: Vec<Option<BindValue>>,
    infos: Seq<Option<TypeInfo>>,
    fallback: TypeInfo,
)
    ensures
        array_of(values, infos, fallback) matches BindValue::Array {
            info,
            max_elements,
            values: bound,
        } && {
            &&& bound == values
            &&& max_elements >= 1
            &&& 1 <= values@.len() <= u32::MAX ==> max_elements == values@.len()
            &&& (forall|i: int| 0 <= i < infos.len() ==> (#[trigger] infos[i]) is None) ==> info
                == fallback
            &&& (exists|i: int| 0 <= i < infos.len() && (#[trigger] infos[i]) is Some)
                ==> exists|i: int|
                0 <= i < infos.len() && #[trigger] infos[i] == Some(info) && forall|j: int|
                    0 <= j < i ==> (#[trigger] infos[j]) is None
        },
{
    lemma_first_info(infos, 0);
}

proof fn lemma_first_info(infos: Seq<Option<TypeInfo>>, from: int)
    requires
        0 <= from,
        forall|j: int| 0 <= j < from && j < infos.len() ==> (#[trigger] infos[j]) is None,
    ensures
        match first_info(infos, from) {
            Some(t) => exists|i: int|
                0 <= i < infos.len() && #[trigger] infos[i] == Some(t) && forall|j: int|
                    0 <= j < i ==> (#[trigger] infos[j]) is None,
            None => forall|i: int| 0 <= i < infos.len() ==> (#[trigger] infos[i]) is None,
        },
    decreases infos.len() - from,
{
    if from < infos.len() {
        if infos[from] is Some {
            assert(infos[from] == Some(infos[from]->0));
        } else {
            lemma_first_info(infos, from + 1);
        }
    }
}

/// A value has the fields of a date exactly where it has a year, a month and a day. Each field is
/// in its place; a time of day that is missing is midnight, and the nanoseconds are those of the
/// microsecond.
pub proof fn law_date_fields_keep_their_places(p: DateParts)
    requires
        p.microsecond matches Some(n) ==> n * 1000 <= u32::MAX,
    ensures
        fields_of(p) is Some <==> p.year is Some && p.month is Some && p.day is Some,
        fields_of(p) matches Some(d) ==> {
            &&& p.year == Some(d.year) && p.month == Some(d.month) && p.day == Some(d.day)
            &&& p.hour is Some ==> p.hour == Some(d.hour)
            &&& p.hour is None ==> d.hour == 0
            &&& p.minute is Some ==> p.minute == Some(d.minute)
            &&& p.minute is None ==> d.minute == 0
            &&& p.second is Some ==> p.second == Some(d.second)
            &&& p.second is None ==> d.second == 0
            &&& p.microsecond matches Some(n) ==> d.nanosecond == n * 1000
            &&& p.microsecond is None ==> d.nanosecond == 0
        },
{
}

/// The parts of an interval are in their ranges, and add up to it.
pub proof fn law_interval_parts_add_up(t: TimeDelta)
    requires
        t.wf(),
    ensures
        ({
            let p = parts_of(t);
            &&& p.days == t.days
            &&& 0 <= p.hours < 24 && 0 <= p.minutes < 60 && 0 <= p.seconds < 60
            &&& p.hours * 3600 + p.minutes * 60 + p.seconds == t.seconds
            &&& p.fseconds == t.microseconds * 1000
        }),
{
    law_interval_round_trip(t);
    let s = t.seconds as int;
    assert(0 <= s / 3600 < 24);
    assert(0 <= (s % 3600) / 60 < 60);
}

/// A value is encoded as JSON as what one of its probes found, and carries just that. It is refused
/// exactly where nothing that JSON has was found. Booleans come before numbers, dates before texts.
pub proof fn law_json_carries_what_was_found(f: PyFacets)
    ensures
        match oson_conversion(f) {
            Ok(OsonConversion::Null) => f.is_none,
            Ok(OsonConversion::Bool(b)) => f.boolean == Some(b),
            Ok(OsonConversion::Number(n)) => (f.is_int || f.is_float || f.is_decimal) && n
                == f.str_text && f.boolean is None,
            Ok(OsonConversion::Raw(b)) => f.bytes == Some(b),
            Ok(OsonConversion::Vector) => f.is_vector,
            Ok(OsonConversion::IntervalDS(p)) => f.timedelta is Some && p == parts_of(
                f.timedelta->0,
            ),
            Ok(OsonConversion::DateTime(d)) => f.datetime == Some(d) && f.timedelta is None,
            Ok(OsonConversion::Text(t)) => f.text == Some(t) && f.datetime is None,
            Ok(OsonConversion::Array) => f.is_list || f.is_tuple,
            Ok(OsonConversion::Object) => f.is_dict && !f.is_list && !f.is_tuple,
            Err(e) => {
                &&& !f.is_none && f.boolean is None && !f.is_int && !f.is_float && !f.is_decimal
                &&& f.bytes is None && !f.is_vector && f.timedelta is None && f.datetime is None
                &&& f.text is None && !f.is_list && !f.is_tuple && !f.is_dict
                &&& e@ == (FaultView::PythonTypeNotSupported { type_label: f.type_label@ })
            },
        },
        f.is_none ==> oson_conversion(f) == Ok::<OsonConversion, Fault>(OsonConversion::Null),
        f.bytes is Some && !f.is_none && f.boolean is None && !f.is_int && !f.is_float
            && !f.is_decimal ==> oson_conversion(f) matches Ok(OsonConversion::Raw(_)),
        f.text is Some && oson_conversion(f) is Ok ==> !(oson_conversion(f)->Ok_0 is Array)
            && !(oson_conversion(f)->Ok_0 is Object),
{
}

/// A direct path load sends what was found of the value: null only for `None` and the empty text,
/// bytes as they are, a text in the character set of its column, a number as Python writes it.
pub proof fn law_direct_path_sends_what_was_found(
    r: Result<DirectPathValue, Fault>,
    f: PyFacets,
    column: Option<TargetColumn>,
)
    requires
        direct_path_outcome(r, f, column),
    ensures
        match r {
            Ok(DirectPathValue::Null) => f.is_none || f.text is Some && f.text->0@.len() == 0,
            Ok(DirectPathValue::Boolean(b)) => f.boolean is Some && b == f.truthy && (column is None
                || column->0.ora_type != OraType::Number),
            Ok(DirectPathValue::Bytes(b)) => {
                ||| f.bytes == Some(b)
                ||| f.bytes is None && f.text is Some && f.text->0@.len() > 0 && b@ == if column
                    is Some && column->0.is_nchar {
                    utf16_bytes(f.text->0@)
                } else {
                    encode_utf8(f.text->0@)
                }
            },
            Ok(DirectPathValue::DateTime(d)) => f.datetime == Some(d) && f.text is None && f.bytes
                is None,
            Ok(DirectPathValue::Number(n)) => n == f.str_text && (f.is_int || f.float is Some
                || f.type_label@ == "Decimal"@) && f.datetime is None && f.text is None,
            Ok(DirectPathValue::BinaryFloat) => column is Some && column->0.ora_type
                == OraType::BinaryFloat,
            Ok(DirectPathValue::BinaryDouble) => column is Some && column->0.ora_type
                == OraType::BinaryDouble,
            Err(e) => !f.is_none && f.bytes is None && f.text is None && f.datetime is None && (
            column is Some && (column->0.ora_type == OraType::Raw || column->0.ora_type
                == OraType::Blob) || !f.is_int && f.float is None && f.type_label@ != "Decimal"@),
        },
        f.is_none ==> r == Ok::<DirectPathValue, Fault>(DirectPathValue::Null),
{
}

/// A character in UTF-16 can be read back: one unit is its code, two are a surrogate pair for it.
pub proof fn law_utf16_can_be_read_back(c: char)
    ensures
        ({
            let b = utf16_char(c);
            let u = c as u32 as int;
            &&& u < 0x10000 ==> b.len() == 2 && b[0] * 256 + b[1] == u
            &&& u >= 0x10000 ==> {
                let hi = b[0] * 256 + b[1];
                let lo = b[2] * 256 + b[3];
                &&& b.len() == 4
                &&& 0xD800 <= hi < 0xDC00 && 0xDC00 <= lo < 0xE000
                &&& 0x10000 + (hi - 0xD800) * 0x400 + (lo - 0xDC00) == u
            }
        }),
{
    vstd::utf8::char_is_scalar(c);
}

/// Texts are encoded character by character, in order.
pub proof fn law_utf16_joins(a: Seq<char>, b: Seq<char>)
    ensures
        utf16_bytes(a + b) == utf16_bytes(a) + utf16_bytes(b),
        a.len() == 1 ==> utf16_bytes(a) == utf16_char(a[0]),
    decreases b.len(),
{
    if b.len() == 0 {
        assert(a + b =~= a);
        assert(utf16_bytes(a) + utf16_bytes(b) =~= utf16_bytes(a));
    } else {
        law_utf16_joins(a, b.drop_last());
        assert((a + b).drop_last() =~= a + b.drop_last());
        assert(utf16_bytes(a) + utf16_bytes(b) =~= utf16_bytes(a) + utf16_bytes(b.drop_last())
            + utf16_char(b.last()));
    }
    if a.len() == 1 {
        reveal_with_fuel(utf16_bytes, 2);
        assert(a.drop_last().len() == 0);
        assert(utf16_bytes(a) =~= utf16_char(a[0]));
    }
}

/// The rows of a direct path load are refused exactly where one has not a cell for each column; the
/// first such row is named by its number of cells.
pub proof fn law_first_wrong_row_is_named(widths: Seq<usize>, columns: int, from: int)
    requires
        0 <= from <= widths.len(),
    ensures
        match first_wrong_width(widths, columns, from) {
            Some(i) => from <= i < widths.len() && widths[i] != columns && forall|j: int|
                from <= j < i ==> #[trigger] widths[j] == columns,
            None => forall|j: int| from <= j < widths.len() ==> #[trigger] widths[j] == columns,
        },
    decreases widths.len() - from,
{
    if from < widths.len() && widths[from] == columns {
        law_first_wrong_row_is_named(widths, columns, from + 1);
    }
}

/// A declared size is at least one byte, and else as declared; a type is taken as it is.
pub proof fn law_declared_size_is_kept(n: u32, size: Option<u32>)
    ensures
        template_choice(InputSizeSpec::Size(n)) matches TemplateChoice::Varchar { buffer_size }
            && buffer_size >= 1 && (n >= 1 ==> buffer_size == n),
        template_choice(InputSizeSpec::TypeAndSize { size }) matches TemplateChoice::FirstItem {
            size: s,
        } && (size is Some ==> size == Some(s)) && (size is None ==> s == 0),
        template_choice(InputSizeSpec::Type) == TemplateChoice::Whole,
        optional_text_bind(None) is Null,
        forall|t: String|
            #[trigger] optional_text_bind(Some(t)) matches BindValue::Text(x) && x == t,
{
}

/// A value that is bound through a LOB variable keeps its content: as bytes in a binary LOB, which
/// has its number of bytes, and as text in a character LOB, which has its number of characters.
/// `None`, a LOB and a variable of another type make no LOB.
pub proof fn law_memory_lob_keeps_the_content(
    r: Result<Option<MemoryLob>, MemoryLobError>,
    f: PyFacets,
    dbtype_name: Seq<char>,
)
    requires
        memory_lob_outcome(r, f, dbtype_name),
    ensures
        r matches Ok(Some(lob)) ==> {
            &&& !f.is_none && !f.is_lob
            &&& lob.ora_type == OraType::Blob <==> dbtype_name == "DB_TYPE_BLOB"@
            &&& lob.ora_type == OraType::Clob || lob.ora_type == OraType::Blob
            &&& lob.ora_type == OraType::Clob ==> (lob.csfrm == CsForm::Nchar <==> dbtype_name
                == "DB_TYPE_NCLOB"@)
            &&& lob.content matches LobContent::Bytes(b) ==> lob.size == b@.len() && if f.bytes
                is Some {
                b@ == f.bytes->0@
            } else {
                b@ == encode_utf8(f.text->0@)
            }
            &&& lob.content matches LobContent::Text(t) ==> lob.size == t@.len() && if f.bytes
                is Some {
                encode_utf8(t@) == f.bytes->0@
            } else {
                encode_utf8(t@) == encode_utf8(f.text->0@)
            }
            &&& lob.content is Bytes <==> lob.ora_type == OraType::Blob
        },
        f.is_none || f.is_lob ==> (r matches Ok(o) && o is None),
        dbtype_name != "DB_TYPE_BLOB"@ && dbtype_name != "DB_TYPE_CLOB"@ && dbtype_name
            != "DB_TYPE_NCLOB"@ ==> (r matches Ok(o) && o is None),
        (dbtype_name == "DB_TYPE_BLOB"@ || dbtype_name == "DB_TYPE_CLOB"@ || dbtype_name
            == "DB_TYPE_NCLOB"@) && !f.is_none && !f.is_lob && f.text is Some && f.bytes is None
            ==> (r matches Ok(o) && o is Some),
{
    reveal_strlit("DB_TYPE_BLOB");
    reveal_strlit("DB_TYPE_CLOB");
    reveal_strlit("DB_TYPE_NCLOB");
    assert("DB_TYPE_BLOB"@[8] != "DB_TYPE_CLOB"@[8]);
    assert("DB_TYPE_NCLOB"@.len() == 13 && "DB_TYPE_BLOB"@.len() == 12);
}

/// The size of a value is the number of its bytes; a text counts as it is encoded.
pub proof fn law_byte_size_counts_bytes(r: Option<usize>, f: PyFacets)
    requires
        byte_size_outcome(r, f),
    ensures
        r is None <==> f.is_none || f.text is None && f.bytes is None,
        r is Some && f.text is None ==> r->0 == f.bytes->0@.len(),
        r is Some && f.text is Some ==> r->0 == encode_utf8(f.text->0@).len(),
{
}

/// A boolean is bound as the number one or zero.
pub proof fn law_flag_is_one_or_zero(flag: bool)
    ensures
        flag_number(flag).len() == 1,
        flag_number(flag)[0] == '1' <==> flag,
        flag_number(flag)[0] == '0' <==> !flag,
{
    reveal_strlit("1");
    reveal_strlit("0");
}

/// Any batch size but zero is taken.
pub proof fn law_zero_is_no_batch_size(r: Option<Fault>, batch_size: u32)
    requires
        batch_size_checked(r, batch_size),
    ensures
        r is Some <==> batch_size == 0,
        r matches Some(f) ==> f@ is TypeError,
{
}

/// A text for a binary object of a collection is bound as its bytes, any other value as it would be
/// by itself.
pub proof fn law_element_is_bound_as_a_value(
    r: Result<Conversion, Fault>,
    f: PyFacets,
    dbtype_name: Seq<char>,
)
    requires
        element_outcome(r, f, dbtype_name),
    ensures
        dbtype_name == "DB_TYPE_BLOB"@ ==> (f.text matches Some(t) ==> (r matches Ok(
            Conversion::Ready(BindValue::Raw(b)),
        ) && b@ == encode_utf8(t@))),
        dbtype_name != "DB_TYPE_BLOB"@ || f.text is None ==> r == conversion_of(f),
{
}

/// An array of elements of which nothing is known holds texts.
pub proof fn law_untyped_arrays_hold_texts()
    ensures
        default_array_info().ora_type == OraType::Varchar,
        default_array_info().buffer_size >= 1,
{
}

} // verus!
