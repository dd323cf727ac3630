//! Arrow tables as rows of values to bind.
use vstd::prelude::*;

use arrow_array::cast::AsArray;
use arrow_array::types::{
    Date32Type, Date64Type, Decimal128Type, Float32Type, Float64Type, Int16Type, Int32Type,
    Int64Type, Int8Type, TimestampMicrosecondType, TimestampMillisecondType,
    TimestampNanosecondType, TimestampSecondType, UInt16Type, UInt32Type, UInt64Type, UInt8Type,
};
use arrow_array::{Array, ArrayRef, RecordBatch};
use arrow_schema::DataType::{
    Binary, BinaryView, Boolean, Date32, Date64, Decimal128, FixedSizeBinary, FixedSizeList,
    Float32, Float64, Int16, Int32, Int64, Int8, LargeBinary, LargeList, LargeUtf8, List, Null,
    Struct, Timestamp, UInt16, UInt32, UInt64, UInt8, Utf8, Utf8View,
};
use arrow_schema::{DataType, TimeUnit};

use self::ArrowKind::{Decimal, Other};
use crate::errors::{dpy_database_error, Fault};
#[allow(unused_imports)]
use crate::errors::{database_view, FaultView};
#[allow(unused_imports)]
use crate::pyvalue::truncated_div;
use crate::text::join3;

verus! {

/// The types of columns that are told apart.
#[derive(Clone, Copy, PartialEq, Eq, Structural, Debug)]
pub enum ArrowKind {
    Null,
    Boolean,
    Int8,
    Int16,
    Int32,
    Int64,
    UInt8,
    UInt16,
    UInt32,
    UInt64,
    Float32,
    Float64,
    /// A decimal number with so many digits behind the point.
    Decimal(i8),
    Utf8,
    LargeUtf8,
    Utf8View,
    Binary,
    LargeBinary,
    BinaryView,
    FixedSizeBinary,
    Date32,
    Date64,
    Timestamp,
    List,
    LargeList,
    FixedSizeList,
    Struct,
    /// A type that no value is read from.
    Other,
}

#[derive(Clone, Copy, PartialEq, Eq, Structural, Debug)]
pub enum ArrowUnit {
    Second,
    Millisecond,
    Microsecond,
    Nanosecond,
}

#[verifier::external_type_specification]
#[verifier::external_body]
pub struct ExDataType(DataType);

/// A table's batch of rows: an `arrow_array::RecordBatch`. It is held whole, since its impls hand
/// out arrays of any type behind the trait `Array`.
#[verifier::external_body]
pub struct ArrowBatch {
    pub batch: RecordBatch,
}

/// A column of values: an `arrow_array::ArrayRef`, a pointer to an array of any type behind the
/// trait `Array`.
#[verifier::external_body]
pub struct ArrowColumn {
    array: ArrayRef,
}

/// The number of rows of a batch.
pub uninterp spec fn batch_rows(b: ArrowBatch) -> nat;

/// The number of columns of a batch.
pub uninterp spec fn batch_columns(b: ArrowBatch) -> nat;

/// A column of a batch.
pub uninterp spec fn batch_column(b: ArrowBatch, i: int) -> ArrowColumn;

/// The number of values in a column.
pub uninterp spec fn column_len(c: ArrowColumn) -> nat;

/// The data type of a column.
pub uninterp spec fn column_data_type(c: ArrowColumn) -> DataType;

/// The kind of a column's data type.
pub uninterp spec fn column_kind(c: ArrowColumn) -> ArrowKind;

/// The unit of a column of timestamps.
pub uninterp spec fn column_unit(c: ArrowColumn) -> Option<ArrowUnit>;

/// A value of a column is null.
pub uninterp spec fn null_at(c: ArrowColumn, i: int) -> bool;

/// A value of a column of flags.
pub uninterp spec fn flag_at(c: ArrowColumn, i: int) -> bool;

/// A value of a column of signed integers.
pub uninterp spec fn signed_at(c: ArrowColumn, i: int) -> i64;

/// A value of a column of unsigned integers.
pub uninterp spec fn unsigned_at(c: ArrowColumn, i: int) -> u64;

/// The bits of a value of a column of 8-bit integers or of floating point numbers.
pub uninterp spec fn bits_at(c: ArrowColumn, i: int) -> u64;

/// The digits, as an integer, of a value of a column of decimal numbers.
pub uninterp spec fn decimal_at(c: ArrowColumn, i: int) -> i128;

/// A value of a column of texts.
pub uninterp spec fn text_at(c: ArrowColumn, i: int) -> Seq<char>;

/// A value of a column of byte strings.
pub uninterp spec fn bytes_at(c: ArrowColumn, i: int) -> Seq<u8>;

/// A value of a column of dates or timestamps, in the column's own unit.
pub uninterp spec fn time_at(c: ArrowColumn, i: int) -> i64;

/// A value of a column of lists.
pub uninterp spec fn list_at(c: ArrowColumn, i: int) -> ArrowColumn;

/// The column of a field of a column of structs.
pub uninterp spec fn field_of(c: ArrowColumn, name: Seq<char>) -> Option<ArrowColumn>;

/// `RecordBatch::num_rows` of arrow-array.
#[verifier::external_body]
fn num_rows(b: &ArrowBatch) -> (r: usize)
    ensures
        r == batch_rows(*b),
{
    b.batch.num_rows()
}

/// `RecordBatch::num_columns` of arrow-array.
#[verifier::external_body]
fn num_columns(b: &ArrowBatch) -> (r: usize)
    ensures
        r == batch_columns(*b),
{
    b.batch.num_columns()
}

/// `RecordBatch::column` of arrow-array. Each column of a batch has a value for each of its rows.
#[verifier::external_body]
fn column(b: &ArrowBatch, i: usize) -> (r: ArrowColumn)
    requires
        i < batch_columns(*b),
    ensures
        r == batch_column(*b, i as int),
        column_len(r) == batch_rows(*b),
{
    ArrowColumn { array: b.batch.column(i).clone() }
}

pub open spec fn is_signed(k: ArrowKind) -> bool {
    k == ArrowKind::Int8 || k == ArrowKind::Int16 || k == ArrowKind::Int32 || k == ArrowKind::Int64
}

pub open spec fn is_unsigned(k: ArrowKind) -> bool {
    k == ArrowKind::UInt8 || k == ArrowKind::UInt16 || k == ArrowKind::UInt32 || k
        == ArrowKind::UInt64
}

/// The kind can be the element of a vector.
pub open spec fn is_vector_element(k: ArrowKind) -> bool {
    k == ArrowKind::Int8 || k == ArrowKind::Float32 || k == ArrowKind::Float64
}

/// The kind holds texts.
pub open spec fn is_text(k: ArrowKind) -> bool {
    k == ArrowKind::Utf8 || k == ArrowKind::LargeUtf8 || k == ArrowKind::Utf8View
}

/// The kind holds byte strings.
pub open spec fn is_bytes(k: ArrowKind) -> bool {
    k == ArrowKind::Binary || k == ArrowKind::LargeBinary || k == ArrowKind::BinaryView || k
        == ArrowKind::FixedSizeBinary
}

/// The kind holds lists.
pub open spec fn is_list(k: ArrowKind) -> bool {
    k == ArrowKind::List || k == ArrowKind::LargeList || k == ArrowKind::FixedSizeList
}

pub open spec fn is_temporal(k: ArrowKind) -> bool {
    k == ArrowKind::Date32 || k == ArrowKind::Date64 || k == ArrowKind::Timestamp
}

impl ArrowColumn {
    /// `Array::len` of arrow-array.
    #[verifier::external_body]
    fn len(&self) -> (r: usize)
        ensures
            r == column_len(*self),
    {
        self.array.len()
    }

    /// `Array::data_type` of arrow-array, cloned.
    #[verifier::external_body]
    fn data_type(&self) -> (r: DataType)
        ensures
            r == column_data_type(*self),
    {
        self.array.data_type().clone()
    }

    /// `Array::data_type` of arrow-array, told apart by variant.
    #[verifier::external_body]
    fn kind(&self) -> (r: ArrowKind)
        ensures
            r == column_kind(*self),
    {
        match self.array.data_type() {
            Null => ArrowKind::Null, Boolean => ArrowKind::Boolean, Int8 => ArrowKind::Int8,
            Int16 => ArrowKind::Int16, Int32 => ArrowKind::Int32, Int64 => ArrowKind::Int64,
            UInt8 => ArrowKind::UInt8, UInt16 => ArrowKind::UInt16, UInt32 => ArrowKind::UInt32,
            UInt64 => ArrowKind::UInt64, Float32 => ArrowKind::Float32,
            Float64 => ArrowKind::Float64, Decimal128(_, scale) => Decimal(*scale),
            Utf8 => ArrowKind::Utf8, LargeUtf8 => ArrowKind::LargeUtf8,
            Utf8View => ArrowKind::Utf8View, Binary => ArrowKind::Binary,
            LargeBinary => ArrowKind::LargeBinary, BinaryView => ArrowKind::BinaryView,
            FixedSizeBinary(_) => ArrowKind::FixedSizeBinary, Date32 => ArrowKind::Date32,
            Date64 => ArrowKind::Date64, Timestamp(..) => ArrowKind::Timestamp,
            List(_) => ArrowKind::List, LargeList(_) => ArrowKind::LargeList,
            FixedSizeList(..) => ArrowKind::FixedSizeList, Struct(_) => ArrowKind::Struct,
            _ => Other
        }
    }

    /// The unit in the data type of a column of timestamps.
    #[verifier::external_body]
    fn unit(&self) -> (r: Option<ArrowUnit>)
        ensures
            r == column_unit(*self),
            r is Some == (column_kind(*self) == ArrowKind::Timestamp),
    {
        match self.array.data_type() {
            Timestamp(TimeUnit::Second, _) => Some(ArrowUnit::Second),
            Timestamp(TimeUnit::Millisecond, _) => Some(ArrowUnit::Millisecond),
            Timestamp(TimeUnit::Microsecond, _) => Some(ArrowUnit::Microsecond),
            Timestamp(TimeUnit::Nanosecond, _) => Some(ArrowUnit::Nanosecond),
            _ => None,
        }
    }

    /// `Array::is_null` of arrow-array.
    #[verifier::external_body]
    fn is_null(&self, i: usize) -> (r: bool)
        requires
            i < column_len(*self),
        ensures
            r == null_at(*self, i as int),
    {
        self.array.is_null(i)
    }

    /// `BooleanArray::value` of arrow-array.
    #[verifier::external_body]
    fn read_flag(&self, i: usize) -> (r: bool)
        requires
            i < column_len(*self),
            column_kind(*self) == ArrowKind::Boolean,
        ensures
            r == flag_at(*self, i as int),
    {
        self.array.as_boolean().value(i)
    }

    /// `PrimitiveArray::value` of arrow-array for signed integers, widened.
    #[verifier::external_body]
    fn read_signed(&self, i: usize) -> (r: i64)
        requires
            i < column_len(*self),
            is_signed(column_kind(*self)),
        ensures
            r == signed_at(*self, i as int),
    {
        match self.array.data_type() {
            Int8 => i64::from(self.array.as_primitive::<Int8Type>().value(i)),
            Int16 => i64::from(self.array.as_primitive::<Int16Type>().value(i)),
            Int32 => i64::from(self.array.as_primitive::<Int32Type>().value(i)),
            _ => self.array.as_primitive::<Int64Type>().value(i),
        }
    }

    /// `PrimitiveArray::value` of arrow-array for unsigned integers, widened.
    #[verifier::external_body]
    fn read_unsigned(&self, i: usize) -> (r: u64)
        requires
            i < column_len(*self),
            is_unsigned(column_kind(*self)),
        ensures
            r == unsigned_at(*self, i as int),
    {
        match self.array.data_type() {
            UInt8 => u64::from(self.array.as_primitive::<UInt8Type>().value(i)),
            UInt16 => u64::from(self.array.as_primitive::<UInt16Type>().value(i)),
            UInt32 => u64::from(self.array.as_primitive::<UInt32Type>().value(i)),
            _ => self.array.as_primitive::<UInt64Type>().value(i),
        }
    }

    /// `PrimitiveArray::value` of arrow-array for 8-bit integers and floating point numbers, as
    /// bits.
    #[verifier::external_body]
    fn read_bits(&self, i: usize) -> (r: u64)
        requires
            i < column_len(*self),
            is_vector_element(column_kind(*self)),
        ensures
            r == bits_at(*self, i as int),
            column_kind(*self) == ArrowKind::Int8 ==> r < 0x100,
            column_kind(*self) == ArrowKind::Float32 ==> r < 0x1_0000_0000,
    {
        match self.array.data_type() {
            Int8 => u64::from(self.array.as_primitive::<Int8Type>().value(i) as u8),
            Float32 => u64::from(self.array.as_primitive::<Float32Type>().value(i).to_bits()),
            _ => self.array.as_primitive::<Float64Type>().value(i).to_bits(),
        }
    }

    /// `PrimitiveArray::value` of arrow-array for decimal numbers.
    #[verifier::external_body]
    fn read_decimal(&self, i: usize) -> (r: i128)
        requires
            i < column_len(*self),
            column_kind(*self) is Decimal,
        ensures
            r == decimal_at(*self, i as int),
    {
        self.array.as_primitive::<Decimal128Type>().value(i)
    }

    /// `value` of arrow-array's string arrays.
    #[verifier::external_body]
    fn read_text(&self, i: usize) -> (r: String)
        requires
            i < column_len(*self),
            is_text(column_kind(*self)),
        ensures
            r@ == text_at(*self, i as int),
    {
        match self.array.data_type() {
            Utf8 => self.array.as_string::<i32>().value(i).to_owned(),
            LargeUtf8 => self.array.as_string::<i64>().value(i).to_owned(),
            _ => self.array.as_string_view().value(i).to_owned(),
        }
    }

    /// `value` of arrow-array's binary arrays.
    #[verifier::external_body]
    fn read_bytes(&self, i: usize) -> (r: Vec<u8>)
        requires
            i < column_len(*self),
            is_bytes(column_kind(*self)),
        ensures
            r@ == bytes_at(*self, i as int),
    {
        match self.array.data_type() {
            Binary => self.array.as_binary::<i32>().value(i).to_vec(),
            LargeBinary => self.array.as_binary::<i64>().value(i).to_vec(),
            BinaryView => self.array.as_binary_view().value(i).to_vec(),
            _ => self.array.as_fixed_size_binary().value(i).to_vec(),
        }
    }

    /// `PrimitiveArray::value` of arrow-array for dates and timestamps, widened.
    #[verifier::external_body]
    fn read_time(&self, i: usize) -> (r: i64)
        requires
            i < column_len(*self),
            is_temporal(column_kind(*self)),
        ensures
            r == time_at(*self, i as int),
    {
        let a = &self.array;
        match a.data_type() {
            Date32 => i64::from(a.as_primitive::<Date32Type>().value(i)),
            Date64 => a.as_primitive::<Date64Type>().value(i),
            Timestamp(TimeUnit::Second, _) => a.as_primitive::<TimestampSecondType>().value(i),
            Timestamp(TimeUnit::Millisecond, _) => a.as_primitive::<TimestampMillisecondType>().value(i),
            Timestamp(TimeUnit::Microsecond, _) => a.as_primitive::<TimestampMicrosecondType>().value(i),
            _ => a.as_primitive::<TimestampNanosecondType>().value(i),
        }
    }

    /// `value` of arrow-array's list arrays.
    #[verifier::external_body]
    fn read_list(&self, i: usize) -> (r: ArrowColumn)
        requires
            i < column_len(*self),
            is_list(column_kind(*self)),
        ensures
            r == list_at(*self, i as int),
    {
        let array = match self.array.data_type() {
            List(_) => self.array.as_list::<i32>().value(i),
            LargeList(_) => self.array.as_list::<i64>().value(i),
            _ => self.array.as_fixed_size_list().value(i),
        };
        ArrowColumn { array }
    }

    /// `StructArray::column_by_name` of arrow-array. The fields of a column of structs have as
    /// many values as the column.
    #[verifier::external_body]
    fn read_field(&self, name: &str) -> (r: Option<ArrowColumn>)
        requires
            column_kind(*self) == ArrowKind::Struct,
        ensures
            r == field_of(*self, name@),
            r matches Some(f) ==> column_len(f) == column_len(*self),
    {
        let found = self.array.as_struct().column_by_name(name);
        found.map(|array| ArrowColumn { array: array.clone() })
    }
}

#[derive(Clone, Copy, PartialEq, Eq, Structural, Debug)]
pub enum VectorFormat {
    Int8,
    Float32,
    Float64,
}

/// A vector; its elements are the bits of the numbers.
pub struct VectorData {
    pub format: VectorFormat,
    pub elements: Vec<u64>,
}

pub ghost struct VectorView {
    pub format: VectorFormat,
    pub elements: Seq<u64>,
}

/// A value to bind.
pub enum ArrowValue {
    Null,
    Flag(bool),
    Signed(i64),
    Unsigned(u64),
    /// The bits of a single precision number.
    Float32(u32),
    /// The bits of a double precision number.
    Float64(u64),
    /// An integer with the point so many digits from its end.
    Decimal { digits: i128, scale: i8 },
    Text(String),
    Bytes(Vec<u8>),
    /// Days since the beginning of 1970.
    Date(i64),
    /// Microseconds since the beginning of 1970.
    Timestamp(i128),
    Vector(VectorData),
    SparseVector { num_dimensions: u32, indices: Vec<i64>, values: VectorData },
}

pub ghost enum ArrowValueView {
    Null,
    Flag(bool),
    Signed(i64),
    Unsigned(u64),
    Float32(u32),
    Float64(u64),
    Decimal { digits: i128, scale: i8 },
    Text(Seq<char>),
    Bytes(Seq<u8>),
    Date(i64),
    Timestamp(i128),
    Vector(VectorView),
    SparseVector { num_dimensions: u32, indices: Seq<i64>, values: VectorView },
}

impl View for VectorData {
    type V = VectorView;

    open spec fn view(&self) -> VectorView {
        VectorView { format: self.format, elements: self.elements@ }
    }
}

impl View for ArrowValue {
    type V = ArrowValueView;

    open spec fn view(&self) -> ArrowValueView {
        match *self {
            ArrowValue::Null => ArrowValueView::Null,
            ArrowValue::Flag(b) => ArrowValueView::Flag(b),
            ArrowValue::Signed(n) => ArrowValueView::Signed(n),
            ArrowValue::Unsigned(n) => ArrowValueView::Unsigned(n),
            ArrowValue::Float32(n) => ArrowValueView::Float32(n),
            ArrowValue::Float64(n) => ArrowValueView::Float64(n),
            ArrowValue::Decimal { digits, scale } => ArrowValueView::Decimal { digits, scale },
            ArrowValue::Text(s) => ArrowValueView::Text(s@),
            ArrowValue::Bytes(b) => ArrowValueView::Bytes(b@),
            ArrowValue::Date(d) => ArrowValueView::Date(d),
            ArrowValue::Timestamp(t) => ArrowValueView::Timestamp(t),
            ArrowValue::Vector(v) => ArrowValueView::Vector(v@),
            ArrowValue::SparseVector { num_dimensions, indices, values } =>
                ArrowValueView::SparseVector {
                num_dimensions,
                indices: indices@,
                values: values@,
            },
        }
    }
}

/// Why a value cannot be bound. The message names the data type.
#[derive(Debug)]
pub enum ArrowError {
    Format(DataType),
    VectorElement(DataType),
    Dimensions(DataType),
    Indices(DataType),
    /// A struct lacks a field.
    MissingField(Fault),
}

pub ghost enum ArrowErrorView {
    Format(DataType),
    VectorElement(DataType),
    Dimensions(DataType),
    Indices(DataType),
    MissingField(FaultView),
}

impl View for ArrowError {
    type V = ArrowErrorView;

    open spec fn view(&self) -> ArrowErrorView {
        match *self {
            ArrowError::Format(t) => ArrowErrorView::Format(t),
            ArrowError::VectorElement(t) => ArrowErrorView::VectorElement(t),
            ArrowError::Dimensions(t) => ArrowErrorView::Dimensions(t),
            ArrowError::Indices(t) => ArrowErrorView::Indices(t),
            ArrowError::MissingField(f) => ArrowErrorView::MissingField(f@),
        }
    }
}

/// The vector that a column's values are.
pub open spec fn vector_of(c: ArrowColumn) -> Result<VectorView, ArrowErrorView> {
    let elements = Seq::new(column_len(c), |i: int| bits_at(c, i));
    match column_kind(c) {
        ArrowKind::Int8 => Ok(VectorView { format: VectorFormat::Int8, elements }),
        ArrowKind::Float32 => Ok(VectorView { format: VectorFormat::Float32, elements }),
        ArrowKind::Float64 => Ok(VectorView { format: VectorFormat::Float64, elements }),
        _ => Err(ArrowErrorView::VectorElement(column_data_type(c))),
    }
}

/// A value of a column that should hold lists.
pub open spec fn list_cell(c: ArrowColumn, i: int) -> Result<ArrowColumn, ArrowErrorView> {
    if is_list(column_kind(c)) {
        Ok(list_at(c, i))
    } else {
        Err(ArrowErrorView::VectorElement(column_data_type(c)))
    }
}

pub open spec fn index_at(c: ArrowColumn, i: int) -> i64 {
    if is_signed(column_kind(c)) {
        signed_at(c, i)
    } else {
        unsigned_at(c, i) as i64
    }
}

/// The indices that a column's values are. The type of an empty column does not matter.
pub open spec fn indices_of(c: ArrowColumn) -> Result<Seq<i64>, ArrowErrorView> {
    if column_len(c) == 0 || is_signed(column_kind(c)) || is_unsigned(column_kind(c)) {
        Ok(Seq::new(column_len(c), |i: int| index_at(c, i)))
    } else {
        Err(ArrowErrorView::Indices(column_data_type(c)))
    }
}

pub open spec fn missing_field(name: Seq<char>) -> FaultView {
    database_view(
        "DPY-3032"@ + ": "@ + ("conversion from Apache Arrow struct without a \""@ + name
            + "\" field to Oracle Database is not supported"@),
    )
}

pub open spec fn field_cell(c: ArrowColumn, name: Seq<char>) -> Result<ArrowColumn, ArrowErrorView> {
    match field_of(c, name) {
        Some(f) => Ok(f),
        None => Err(ArrowErrorView::MissingField(missing_field(name))),
    }
}

/// The number of dimensions in a value of a column.
pub open spec fn dimensions_at(c: ArrowColumn, i: int) -> Result<u32, ArrowErrorView> {
    match column_kind(c) {
        ArrowKind::Int64 | ArrowKind::Int32 => Ok(signed_at(c, i) as u32),
        ArrowKind::UInt32 | ArrowKind::UInt64 => Ok(unsigned_at(c, i) as u32),
        _ => Err(ArrowErrorView::Dimensions(column_data_type(c))),
    }
}

/// The vector in a value of a column that should hold lists.
pub open spec fn vector_cell(c: ArrowColumn, i: int) -> Result<VectorView, ArrowErrorView> {
    match list_cell(c, i) {
        Ok(child) => vector_of(child),
        Err(e) => Err(e),
    }
}

pub open spec fn indices_cell(c: ArrowColumn, i: int) -> Result<Seq<i64>, ArrowErrorView> {
    match list_cell(c, i) {
        Ok(child) => indices_of(child),
        Err(e) => Err(e),
    }
}

/// The sparse vector in a value of a column of structs: what is wrong first counts, in the order
/// of dimensions, indices and values.
pub open spec fn sparse_cell(c: ArrowColumn, i: int) -> Result<ArrowValueView, ArrowErrorView> {
    match field_cell(c, "num_dimensions"@) {
        Err(e) => Err(e),
        Ok(d) => match dimensions_at(d, i) {
            Err(e) => Err(e),
            Ok(num_dimensions) => match field_cell(c, "indices"@) {
                Err(e) => Err(e),
                Ok(n) => match indices_cell(n, i) {
                    Err(e) => Err(e),
                    Ok(indices) => match field_cell(c, "values"@) {
                        Err(e) => Err(e),
                        Ok(v) => match vector_cell(v, i) {
                            Err(e) => Err(e),
                            Ok(values) => Ok(
                                ArrowValueView::SparseVector { num_dimensions, indices, values },
                            ),
                        },
                    },
                },
            },
        },
    }
}

/// Microseconds of a time in a unit. Parts of a microsecond are dropped.
pub open spec fn in_micros(t: i64, unit: ArrowUnit) -> int {
    match unit {
        ArrowUnit::Second => t * 1_000_000,
        ArrowUnit::Millisecond => t * 1_000,
        ArrowUnit::Microsecond => t as int,
        ArrowUnit::Nanosecond => truncated_div(t as int, 1_000),
    }
}

/// The day that a time in milliseconds belongs to.
pub open spec fn day_of_millis(t: i64) -> int {
    t as int / 86_400_000
}

/// The value in a cell.
pub open spec fn cell(c: ArrowColumn, i: int) -> Result<ArrowValueView, ArrowErrorView> {
    if null_at(c, i) {
        Ok(ArrowValueView::Null)
    } else {
        match column_kind(c) {
            ArrowKind::Null => Ok(ArrowValueView::Null),
            ArrowKind::Boolean => Ok(ArrowValueView::Flag(flag_at(c, i))),
            ArrowKind::Int8 | ArrowKind::Int16 | ArrowKind::Int32 | ArrowKind::Int64 => Ok(
                ArrowValueView::Signed(signed_at(c, i)),
            ),
            ArrowKind::UInt8 | ArrowKind::UInt16 | ArrowKind::UInt32 | ArrowKind::UInt64 => Ok(
                ArrowValueView::Unsigned(unsigned_at(c, i)),
            ),
            ArrowKind::Float32 => Ok(ArrowValueView::Float32(bits_at(c, i) as u32)),
            ArrowKind::Float64 => Ok(ArrowValueView::Float64(bits_at(c, i))),
            ArrowKind::Decimal(scale) => Ok(
                ArrowValueView::Decimal { digits: decimal_at(c, i), scale },
            ),
            ArrowKind::Utf8 | ArrowKind::LargeUtf8 | ArrowKind::Utf8View => Ok(
                ArrowValueView::Text(text_at(c, i)),
            ),
            ArrowKind::Binary
            | ArrowKind::LargeBinary
            | ArrowKind::BinaryView
            | ArrowKind::FixedSizeBinary => Ok(ArrowValueView::Bytes(bytes_at(c, i))),
            ArrowKind::Date32 => Ok(ArrowValueView::Date(time_at(c, i))),
            ArrowKind::Date64 => Ok(ArrowValueView::Date(day_of_millis(time_at(c, i)) as i64)),
            ArrowKind::Timestamp => Ok(
                ArrowValueView::Timestamp(in_micros(time_at(c, i), column_unit(c)->0) as i128),
            ),
            ArrowKind::List | ArrowKind::LargeList | ArrowKind::FixedSizeList => match vector_of(
                list_at(c, i),
            ) {
                Ok(v) => Ok(ArrowValueView::Vector(v)),
                Err(e) => Err(e),
            },
            ArrowKind::Struct => sparse_cell(c, i),
            ArrowKind::Other => Err(ArrowErrorView::Format(column_data_type(c))),
        }
    }
}

pub open spec fn vector_outcome(r: Result<VectorData, ArrowError>) -> Result<
    VectorView,
    ArrowErrorView,
> {
    match r {
        Ok(v) => Ok(v@),
        Err(e) => Err(e@),
    }
}

pub open spec fn indices_outcome(r: Result<Vec<i64>, ArrowError>) -> Result<
    Seq<i64>,
    ArrowErrorView,
> {
    match r {
        Ok(v) => Ok(v@),
        Err(e) => Err(e@),
    }
}

pub open spec fn value_outcome(r: Result<ArrowValue, ArrowError>) -> Result<
    ArrowValueView,
    ArrowErrorView,
> {
    match r {
        Ok(v) => Ok(v@),
        Err(e) => Err(e@),
    }
}

fn numeric_child_to_vector(c: &ArrowColumn) -> (r: Result<VectorData, ArrowError>)
    ensures
        vector_outcome(r) == vector_of(*c),
{
    let format = match c.kind() {
        ArrowKind::Int8 => VectorFormat::Int8,
        ArrowKind::Float32 => VectorFormat::Float32,
        ArrowKind::Float64 => VectorFormat::Float64,
        _ => {
            return Err(ArrowError::VectorElement(c.data_type()));
        },
    };
    let n = c.len();
    let mut elements: Vec<u64> = Vec::new();
    let mut i: usize = 0;
    while i < n
        invariant
            i <= n == column_len(*c),
            is_vector_element(column_kind(*c)),
            elements@ == Seq::new(i as nat, |k: int| bits_at(*c, k)),
        decreases n - i,
    {
        elements.push(c.read_bits(i));
        i = i + 1;
        proof {
            assert(elements@ =~= Seq::new(i as nat, |k: int| bits_at(*c, k)));
        }
    }
    Ok(VectorData { format, elements })
}

fn holds_lists(k: ArrowKind) -> (r: bool)
    ensures
        r == is_list(k),
{
    match k {
        ArrowKind::List | ArrowKind::LargeList | ArrowKind::FixedSizeList => true,
        _ => false,
    }
}

fn list_cell_to_dense_vector(c: &ArrowColumn, i: usize) -> (r: Result<VectorData, ArrowError>)
    requires
        i < column_len(*c),
    ensures
        vector_outcome(r) == vector_cell(*c, i as int),
{
    if holds_lists(c.kind()) {
        numeric_child_to_vector(&c.read_list(i))
    } else {
        Err(ArrowError::VectorElement(c.data_type()))
    }
}

fn integer_child_to_indices(c: &ArrowColumn) -> (r: Result<Vec<i64>, ArrowError>)
    ensures
        indices_outcome(r) == indices_of(*c),
{
    let n = c.len();
    let kind = c.kind();
    let mut out: Vec<i64> = Vec::new();
    let mut i: usize = 0;
    while i < n
        invariant
            i <= n == column_len(*c),
            kind == column_kind(*c),
            i > 0 ==> is_signed(kind) || is_unsigned(kind),
            out@ == Seq::new(i as nat, |k: int| index_at(*c, k)),
        decreases n - i,
    {
        let value: i64 = match kind {
            ArrowKind::Int8 | ArrowKind::Int16 | ArrowKind::Int32 | ArrowKind::Int64 =>
                c.read_signed(i),
            ArrowKind::UInt8 | ArrowKind::UInt16 | ArrowKind::UInt32 | ArrowKind::UInt64 =>
                c.read_unsigned(i) as i64,
            _ => {
                return Err(ArrowError::Indices(c.data_type()));
            },
        };
        out.push(value);
        i = i + 1;
        proof {
            assert(out@ =~= Seq::new(i as nat, |k: int| index_at(*c, k)));
        }
    }
    Ok(out)
}

fn list_cell_to_indices(c: &ArrowColumn, i: usize) -> (r: Result<Vec<i64>, ArrowError>)
    requires
        i < column_len(*c),
    ensures
        indices_outcome(r) == indices_cell(*c, i as int),
{
    if holds_lists(c.kind()) {
        integer_child_to_indices(&c.read_list(i))
    } else {
        Err(ArrowError::VectorElement(c.data_type()))
    }
}

fn field_missing(name: &str) -> (r: ArrowError)
    ensures
        r@ == ArrowErrorView::MissingField(missing_field(name@)),
{
    let m = join3(
        "conversion from Apache Arrow struct without a \"",
        name,
        "\" field to Oracle Database is not supported",
    );
    ArrowError::MissingField(dpy_database_error("DPY-3032", m.as_str()))
}

fn read_dimensions(c: &ArrowColumn, i: usize) -> (r: Result<u32, ArrowError>)
    requires
        i < column_len(*c),
    ensures
        match r {
            Ok(n) => dimensions_at(*c, i as int) == Ok::<u32, ArrowErrorView>(n),
            Err(e) => dimensions_at(*c, i as int) == Err::<u32, ArrowErrorView>(e@),
        },
{
    match c.kind() {
        ArrowKind::Int64 | ArrowKind::Int32 => Ok(c.read_signed(i) as u32),
        ArrowKind::UInt32 | ArrowKind::UInt64 => Ok(c.read_unsigned(i) as u32),
        _ => Err(ArrowError::Dimensions(c.data_type())),
    }
}

fn struct_cell_to_sparse_vector(c: &ArrowColumn, i: usize) -> (r: Result<ArrowValue, ArrowError>)
    requires
        i < column_len(*c),
        column_kind(*c) == ArrowKind::Struct,
    ensures
        value_outcome(r) == sparse_cell(*c, i as int),
{
    let d = match c.read_field("num_dimensions") {
        Some(f) => f,
        None => {
            return Err(field_missing("num_dimensions"));
        },
    };
    let num_dimensions = match read_dimensions(&d, i) {
        Ok(n) => n,
        Err(e) => {
            return Err(e);
        },
    };
    let n = match c.read_field("indices") {
        Some(f) => f,
        None => {
            return Err(field_missing("indices"));
        },
    };
    let indices = match list_cell_to_indices(&n, i) {
        Ok(v) => v,
        Err(e) => {
            return Err(e);
        },
    };
    let v = match c.read_field("values") {
        Some(f) => f,
        None => {
            return Err(field_missing("values"));
        },
    };
    let values = match list_cell_to_dense_vector(&v, i) {
        Ok(v) => v,
        Err(e) => {
            return Err(e);
        },
    };
    Ok(ArrowValue::SparseVector { num_dimensions, indices, values })
}

/// Microseconds of a time in a unit.
pub fn timestamp_micros(t: i64, unit: ArrowUnit) -> (r: i128)
    ensures
        r == in_micros(t, unit),
{
    match unit {
        ArrowUnit::Second => t as i128 * 1_000_000,
        ArrowUnit::Millisecond => t as i128 * 1_000,
        ArrowUnit::Microsecond => t as i128,
        ArrowUnit::Nanosecond => {
            if t >= 0 {
                (t as u64 / 1_000) as i128
            } else {
                let m: u128 = (-(t as i128)) as u128;
                -((m / 1_000) as i128)
            }
        },
    }
}

/// The day that a time in milliseconds belongs to.
pub fn date_of_millis(t: i64) -> (r: i64)
    ensures
        r == day_of_millis(t),
{
    if t >= 0 {
        (t as u64 / 86_400_000) as i64
    } else {
        let m: u128 = (-(t as i128)) as u128;
        let q: u128 = (m + 86_399_999) / 86_400_000;
        let r: i128 = -(q as i128);
        assert(r == t as int / 86_400_000);
        r as i64
    }
}

fn cell_to_value(c: &ArrowColumn, i: usize) -> (r: Result<ArrowValue, ArrowError>)
    requires
        i < column_len(*c),
    ensures
        value_outcome(r) == cell(*c, i as int),
{
    if c.is_null(i) {
        return Ok(ArrowValue::Null);
    }
    match c.kind() {
        ArrowKind::Null => Ok(ArrowValue::Null),
        ArrowKind::Boolean => Ok(ArrowValue::Flag(c.read_flag(i))),
        ArrowKind::Int8 | ArrowKind::Int16 | ArrowKind::Int32 | ArrowKind::Int64 => Ok(
            ArrowValue::Signed(c.read_signed(i)),
        ),
        ArrowKind::UInt8 | ArrowKind::UInt16 | ArrowKind::UInt32 | ArrowKind::UInt64 => Ok(
            ArrowValue::Unsigned(c.read_unsigned(i)),
        ),
        ArrowKind::Float32 => Ok(ArrowValue::Float32(c.read_bits(i) as u32)),
        ArrowKind::Float64 => Ok(ArrowValue::Float64(c.read_bits(i))),
        ArrowKind::Decimal(scale) => Ok(
            ArrowValue::Decimal { digits: c.read_decimal(i), scale },
        ),
        ArrowKind::Utf8 | ArrowKind::LargeUtf8 | ArrowKind::Utf8View => Ok(
            ArrowValue::Text(c.read_text(i)),
        ),
        ArrowKind::Binary
        | ArrowKind::LargeBinary
        | ArrowKind::BinaryView
        | ArrowKind::FixedSizeBinary => Ok(ArrowValue::Bytes(c.read_bytes(i))),
        ArrowKind::Date32 => Ok(ArrowValue::Date(c.read_time(i))),
        ArrowKind::Date64 => Ok(ArrowValue::Date(date_of_millis(c.read_time(i)))),
        ArrowKind::Timestamp => {
            let t = c.read_time(i);
            let unit = match c.unit() {
                Some(u) => u,
                None => ArrowUnit::Microsecond,
            };
            Ok(ArrowValue::Timestamp(timestamp_micros(t, unit)))
        },
        ArrowKind::List | ArrowKind::LargeList | ArrowKind::FixedSizeList => match
            list_cell_to_dense_vector(c, i) {
            Ok(v) => Ok(ArrowValue::Vector(v)),
            Err(e) => Err(e),
        },
        ArrowKind::Struct => struct_cell_to_sparse_vector(c, i),
        ArrowKind::Other => Err(ArrowError::Format(c.data_type())),
    }
}

pub open spec fn value_views(v: Seq<ArrowValue>) -> Seq<ArrowValueView> {
    v.map_values(|x: ArrowValue| x@)
}

pub open spec fn row_views(v: Seq<Vec<ArrowValue>>) -> Seq<Seq<ArrowValueView>> {
    v.map_values(|x: Vec<ArrowValue>| value_views(x@))
}

/// The first `n` cells of a row, or what is wrong with the first that is wrong.
pub open spec fn row_cells(b: ArrowBatch, row: int, n: int) -> Result<
    Seq<ArrowValueView>,
    ArrowErrorView,
>
    decreases n,
{
    if n <= 0 {
        Ok(Seq::empty())
    } else {
        match row_cells(b, row, n - 1) {
            Err(e) => Err(e),
            Ok(before) => match cell(batch_column(b, n - 1), row) {
                Err(e) => Err(e),
                Ok(v) => Ok(before.push(v)),
            },
        }
    }
}

/// The first `n` rows of a batch.
pub open spec fn batch_cells(b: ArrowBatch, n: int) -> Result<
    Seq<Seq<ArrowValueView>>,
    ArrowErrorView,
>
    decreases n,
{
    if n <= 0 {
        Ok(Seq::empty())
    } else {
        match batch_cells(b, n - 1) {
            Err(e) => Err(e),
            Ok(before) => match row_cells(b, n - 1, batch_columns(b) as int) {
                Err(e) => Err(e),
                Ok(row) => Ok(before.push(row)),
            },
        }
    }
}

/// The rows of the first `n` batches.
pub open spec fn table_cells(batches: Seq<ArrowBatch>, n: int) -> Result<
    Seq<Seq<ArrowValueView>>,
    ArrowErrorView,
>
    decreases n,
{
    if n <= 0 {
        Ok(Seq::empty())
    } else {
        match table_cells(batches, n - 1) {
            Err(e) => Err(e),
            Ok(before) => match batch_cells(batches[n - 1], batch_rows(batches[n - 1]) as int) {
                Err(e) => Err(e),
                Ok(rows) => Ok(before + rows),
            },
        }
    }
}

/// The lengths of those of the first `n` batches that have rows.
pub open spec fn chunk_lengths_of(batches: Seq<ArrowBatch>, n: int) -> Seq<nat>
    decreases n,
{
    if n <= 0 {
        Seq::empty()
    } else {
        let before = chunk_lengths_of(batches, n - 1);
        if batch_rows(batches[n - 1]) > 0 {
            before.push(batch_rows(batches[n - 1]))
        } else {
            before
        }
    }
}

/// Those of the first `n` columns of a batch that hold timestamps.
pub open spec fn timestamp_columns_of(b: ArrowBatch, n: int) -> Seq<int>
    decreases n,
{
    if n <= 0 {
        Seq::empty()
    } else {
        let before = timestamp_columns_of(b, n - 1);
        if column_kind(batch_column(b, n - 1)) == ArrowKind::Timestamp {
            before.push(n - 1)
        } else {
            before
        }
    }
}

/// A table that is ready to be bound.
pub struct ArrowRows {
    pub rows: Vec<Vec<ArrowValue>>,
    /// How many rows each part of the table has, without those that have none.
    pub chunk_lengths: Vec<usize>,
    /// The columns whose values are bound as timestamps.
    pub timestamp_columns: Vec<usize>,
}

pub open spec fn count_views(v: Seq<usize>) -> Seq<nat> {
    v.map_values(|x: usize| x as nat)
}

pub open spec fn column_views(v: Seq<usize>) -> Seq<int> {
    v.map_values(|x: usize| x as int)
}

fn read_row(b: &ArrowBatch, row: usize) -> (r: Result<Vec<ArrowValue>, ArrowError>)
    requires
        row < batch_rows(*b),
    ensures
        match r {
            Ok(v) => row_cells(*b, row as int, batch_columns(*b) as int) == Ok::<
                Seq<ArrowValueView>,
                ArrowErrorView,
            >(value_views(v@)),
            Err(e) => row_cells(*b, row as int, batch_columns(*b) as int) == Err::<
                Seq<ArrowValueView>,
                ArrowErrorView,
            >(e@),
        },
{
    let n = num_columns(b);
    let mut out: Vec<ArrowValue> = Vec::new();
    let mut i: usize = 0;
    proof {
        assert(value_views(out@) =~= Seq::<ArrowValueView>::empty());
    }
    while i < n
        invariant
            i <= n == batch_columns(*b),
            row < batch_rows(*b),
            row_cells(*b, row as int, i as int) == Ok::<Seq<ArrowValueView>, ArrowErrorView>(
                value_views(out@),
            ),
        decreases n - i,
    {
        let c = column(b, i);
        match cell_to_value(&c, row) {
            Ok(v) => {
                let ghost before = out@;
                let ghost view = v@;
                out.push(v);
                proof {
                    assert(value_views(out@) =~= value_views(before).push(view));
                }
            },
            Err(e) => {
                proof {
                    lemma_row_error(*b, row as int, i + 1, n as int, e@);
                }
                return Err(e);
            },
        }
        i = i + 1;
    }
    Ok(out)
}

/// An error in a row stays the row's error.
proof fn lemma_row_error(b: ArrowBatch, row: int, i: int, n: int, e: ArrowErrorView)
    requires
        i <= n,
        row_cells(b, row, i) == Err::<Seq<ArrowValueView>, ArrowErrorView>(e),
    ensures
        row_cells(b, row, n) == Err::<Seq<ArrowValueView>, ArrowErrorView>(e),
    decreases n - i,
{
    if i < n {
        assert(row_cells(b, row, i + 1) == Err::<Seq<ArrowValueView>, ArrowErrorView>(e));
        lemma_row_error(b, row, i + 1, n, e);
    }
}

proof fn lemma_batch_error(b: ArrowBatch, i: int, n: int, e: ArrowErrorView)
    requires
        i <= n,
        batch_cells(b, i) == Err::<Seq<Seq<ArrowValueView>>, ArrowErrorView>(e),
    ensures
        batch_cells(b, n) == Err::<Seq<Seq<ArrowValueView>>, ArrowErrorView>(e),
    decreases n - i,
{
    if i < n {
        assert(batch_cells(b, i + 1) == Err::<Seq<Seq<ArrowValueView>>, ArrowErrorView>(e));
        lemma_batch_error(b, i + 1, n, e);
    }
}

proof fn lemma_table_error(batches: Seq<ArrowBatch>, i: int, n: int, e: ArrowErrorView)
    requires
        i <= n,
        table_cells(batches, i) == Err::<Seq<Seq<ArrowValueView>>, ArrowErrorView>(e),
    ensures
        table_cells(batches, n) == Err::<Seq<Seq<ArrowValueView>>, ArrowErrorView>(e),
    decreases n - i,
{
    if i < n {
        assert(table_cells(batches, i + 1) == Err::<Seq<Seq<ArrowValueView>>, ArrowErrorView>(e));
        lemma_table_error(batches, i + 1, n, e);
    }
}

/// Adds the rows of a batch.
fn read_batch(b: &ArrowBatch, rows: &mut Vec<Vec<ArrowValue>>) -> (r: Result<(), ArrowError>)
    ensures
        match r {
            Ok(_) => batch_cells(*b, batch_rows(*b) as int) is Ok && row_views(final(rows)@)
                == row_views(old(rows)@) + batch_cells(*b, batch_rows(*b) as int)->Ok_0,
            Err(e) => batch_cells(*b, batch_rows(*b) as int) == Err::<
                Seq<Seq<ArrowValueView>>,
                ArrowErrorView,
            >(e@),
        },
{
    let n = num_rows(b);
    let ghost start = row_views(rows@);
    let mut i: usize = 0;
    proof {
        assert(start + Seq::<Seq<ArrowValueView>>::empty() =~= start);
    }
    while i < n
        invariant
            i <= n == batch_rows(*b),
            batch_cells(*b, i as int) is Ok,
            row_views(rows@) == start + batch_cells(*b, i as int)->Ok_0,
        decreases n - i,
    {
        match read_row(b, i) {
            Ok(row) => {
                let ghost before = rows@;
                let ghost view = value_views(row@);
                rows.push(row);
                proof {
                    assert(row_views(rows@) =~= row_views(before).push(view));
                    assert(start + batch_cells(*b, i as int)->Ok_0.push(view) =~= (start
                        + batch_cells(*b, i as int)->Ok_0).push(view));
                }
            },
            Err(e) => {
                proof {
                    lemma_batch_error(*b, i + 1, n as int, e@);
                }
                return Err(e);
            },
        }
        i = i + 1;
    }
    Ok(())
}

pub open spec fn table_read(r: Result<ArrowRows, ArrowError>, batches: Seq<ArrowBatch>) -> bool {
    match r {
        Ok(t) => {
            &&& table_cells(batches, batches.len() as int) == Ok::<
                Seq<Seq<ArrowValueView>>,
                ArrowErrorView,
            >(row_views(t.rows@))
            &&& count_views(t.chunk_lengths@) == chunk_lengths_of(batches, batches.len() as int)
            &&& column_views(t.timestamp_columns@) == if batches.len() == 0 {
                Seq::empty()
            } else {
                timestamp_columns_of(batches[0], batch_columns(batches[0]) as int)
            }
        },
        Err(e) => table_cells(batches, batches.len() as int) == Err::<
            Seq<Seq<ArrowValueView>>,
            ArrowErrorView,
        >(e@),
    }
}

/// Reads a table's batches as rows of values. The first value that cannot be bound ends it.
pub fn arrow_table_rows(batches: &Vec<ArrowBatch>) -> (r: Result<ArrowRows, ArrowError>)
    ensures
        table_read(r, batches@),
{
    let mut timestamp_columns: Vec<usize> = Vec::new();
    proof {
        assert(column_views(timestamp_columns@) =~= Seq::<int>::empty());
    }
    if batches.len() > 0 {
        let first = &batches[0];
        let n = num_columns(first);
        let mut k: usize = 0;
        while k < n
            invariant
                k <= n == batch_columns(*first),
                column_views(timestamp_columns@) == timestamp_columns_of(*first, k as int),
            decreases n - k,
        {
            if column(first, k).kind() == ArrowKind::Timestamp {
                let ghost before = timestamp_columns@;
                timestamp_columns.push(k);
                proof {
                    assert(column_views(timestamp_columns@) =~= column_views(before).push(
                        k as int,
                    ));
                }
            }
            k = k + 1;
        }
    }
    let mut rows: Vec<Vec<ArrowValue>> = Vec::new();
    let mut chunk_lengths: Vec<usize> = Vec::new();
    let mut i: usize = 0;
    proof {
        assert(row_views(rows@) =~= Seq::<Seq<ArrowValueView>>::empty());
        assert(count_views(chunk_lengths@) =~= Seq::<nat>::empty());
    }
    while i < batches.len()
        invariant
            i <= batches@.len(),
            table_cells(batches@, i as int) == Ok::<Seq<Seq<ArrowValueView>>, ArrowErrorView>(
                row_views(rows@),
            ),
            count_views(chunk_lengths@) == chunk_lengths_of(batches@, i as int),
        decreases batches@.len() - i,
    {
        let n = num_rows(&batches[i]);
        if n > 0 {
            let ghost before = chunk_lengths@;
            chunk_lengths.push(n);
            proof {
                assert(count_views(chunk_lengths@) =~= count_views(before).push(n as nat));
            }
        }
        match read_batch(&batches[i], &mut rows) {
            Ok(_) => {},
            Err(e) => {
                proof {
                    lemma_table_error(batches@, i + 1, batches@.len() as int, e@);
                }
                return Err(e);
            },
        }
        i = i + 1;
    }
    Ok(ArrowRows { rows, chunk_lengths, timestamp_columns })
}

pub open spec fn fault_of(e: ArrowErrorView, name: Seq<char>) -> FaultView {
    match e {
        ArrowErrorView::Format(_) => database_view(
            "DPY-3032"@ + ": "@ + ("conversion from Apache Arrow format \""@ + name
                + "\" to Oracle Database is not supported"@),
        ),
        ArrowErrorView::VectorElement(_) => database_view(
            "DPY-3033"@ + ": "@ + ("conversion from Apache Arrow list with child format \""@ + name
                + "\" to Oracle Database vector is not supported"@),
        ),
        ArrowErrorView::Dimensions(_) => database_view(
            "DPY-3032"@ + ": "@ + ("conversion from Apache Arrow struct num_dimensions format \""@
                + name + "\" to Oracle Database is not supported"@),
        ),
        ArrowErrorView::Indices(_) => database_view(
            "DPY-3032"@ + ": "@ + ("conversion from Apache Arrow struct indices format \""@ + name
                + "\" to Oracle Database is not supported"@),
        ),
        ArrowErrorView::MissingField(f) => f,
    }
}

/// The message for a data type, which the driver names.
pub fn error_fault(e: ArrowError, data_type_name: &str) -> (r: Fault)
    ensures
        r@ == fault_of(e@, data_type_name@),
{
    match e {
        ArrowError::Format(_) => dpy_database_error(
            "DPY-3032",
            join3(
                "conversion from Apache Arrow format \"",
                data_type_name,
                "\" to Oracle Database is not supported",
            ).as_str(),
        ),
        ArrowError::VectorElement(_) => dpy_database_error(
            "DPY-3033",
            join3(
                "conversion from Apache Arrow list with child format \"",
                data_type_name,
                "\" to Oracle Database vector is not supported",
            ).as_str(),
        ),
        ArrowError::Dimensions(_) => dpy_database_error(
            "DPY-3032",
            join3(
                "conversion from Apache Arrow struct num_dimensions format \"",
                data_type_name,
                "\" to Oracle Database is not supported",
            ).as_str(),
        ),
        ArrowError::Indices(_) => dpy_database_error(
            "DPY-3032",
            join3(
                "conversion from Apache Arrow struct indices format \"",
                data_type_name,
                "\" to Oracle Database is not supported",
            ).as_str(),
        ),
        ArrowError::MissingField(f) => f,
    }
}

/// The error for data that is neither rows nor a table.
pub fn data_error() -> (r: Fault)
    ensures
        r@ == database_view(
            "DPY-2004"@ + ": "@ + "data must be a list of sequences or a DataFrame"@,
        ),
{
    dpy_database_error("DPY-2004", "data must be a list of sequences or a DataFrame")
}

/// The lengths of the parts of a table add up to the number of its rows.
pub proof fn law_chunks_add_up(batches: Seq<ArrowBatch>, n: int)
    requires
        0 <= n <= batches.len(),
        table_cells(batches, n) is Ok,
    ensures
        sum_of(chunk_lengths_of(batches, n)) == table_cells(batches, n)->Ok_0.len(),
    decreases n,
{
    if n > 0 {
        law_chunks_add_up(batches, n - 1);
        let b = batches[n - 1];
        lemma_batch_len(b, batch_rows(b) as int);
        let before = chunk_lengths_of(batches, n - 1);
        if batch_rows(b) > 0 {
            assert(before.push(batch_rows(b)).drop_last() =~= before);
        }
    }
}

pub open spec fn sum_of(v: Seq<nat>) -> nat
    decreases v.len(),
{
    if v.len() == 0 {
        0
    } else {
        sum_of(v.drop_last()) + v.last()
    }
}

proof fn lemma_batch_len(b: ArrowBatch, n: int)
    requires
        0 <= n,
        batch_cells(b, n) is Ok,
    ensures
        batch_cells(b, n)->Ok_0.len() == n,
    decreases n,
{
    if n > 0 {
        lemma_batch_len(b, n - 1);
    }
}

/// The place in a list of frames that are handed out one after the other.
pub struct FrameIter {
    pub len: usize,
    pub index: usize,
}

impl FrameIter {
    pub open spec fn over(len: usize) -> FrameIter {
        FrameIter { len, index: 0 }
    }

    pub open spec fn advanced(self, after: FrameIter, r: Option<usize>) -> bool {
        if self.index < self.len {
            r == Some(self.index) && after == (FrameIter {
                index: (self.index + 1) as usize,
                ..self
            })
        } else {
            r is None && after == self
        }
    }

    pub fn new(len: usize) -> (r: Self)
        ensures
            r == FrameIter::over(len),
    {
        FrameIter { len, index: 0 }
    }

    /// The place of the next frame, if there is one.
    pub fn next_frame(&mut self) -> (r: Option<usize>)
        ensures
            old(self).advanced(*final(self), r),
    {
        if self.index < self.len {
            let i = self.index;
            self.index = i + 1;
            Some(i)
        } else {
            None
        }
    }
}

/// A cell without a value is null whatever its column holds; a cell with one is bound as what the
/// column holds and as nothing else.
pub proof fn law_cell_is_bound_as_its_kind(c: ArrowColumn, i: int)
    ensures
        null_at(c, i) ==> cell(c, i) == Ok::<ArrowValueView, ArrowErrorView>(ArrowValueView::Null),
        !null_at(c, i) ==> {
            let k = column_kind(c);
            &&& cell(c, i) == Ok::<ArrowValueView, ArrowErrorView>(ArrowValueView::Null) <==> k
                == ArrowKind::Null
            &&& k == ArrowKind::Boolean ==> cell(c, i) == Ok::<ArrowValueView, ArrowErrorView>(
                ArrowValueView::Flag(flag_at(c, i)),
            )
            &&& is_signed(k) ==> cell(c, i) == Ok::<ArrowValueView, ArrowErrorView>(
                ArrowValueView::Signed(signed_at(c, i)),
            )
            &&& is_unsigned(k) ==> cell(c, i) == Ok::<ArrowValueView, ArrowErrorView>(
                ArrowValueView::Unsigned(unsigned_at(c, i)),
            )
            &&& is_text(k) ==> cell(c, i) == Ok::<ArrowValueView, ArrowErrorView>(
                ArrowValueView::Text(text_at(c, i)),
            )
            &&& is_bytes(k) ==> cell(c, i) == Ok::<ArrowValueView, ArrowErrorView>(
                ArrowValueView::Bytes(bytes_at(c, i)),
            )
            &&& k == ArrowKind::Float64 ==> cell(c, i) == Ok::<ArrowValueView, ArrowErrorView>(
                ArrowValueView::Float64(bits_at(c, i)),
            )
            &&& k == ArrowKind::Float32 && bits_at(c, i) <= u32::MAX ==> (
            cell(c, i) matches Ok(ArrowValueView::Float32(n)) && n == bits_at(c, i))
            &&& k matches ArrowKind::Decimal(s) ==> (
            cell(c, i) matches Ok(ArrowValueView::Decimal { digits, scale }) && digits == decimal_at(
                c,
                i,
            ) && scale == s)
            &&& k == ArrowKind::Date32 ==> cell(c, i) == Ok::<ArrowValueView, ArrowErrorView>(
                ArrowValueView::Date(time_at(c, i)),
            )
            &&& cell(c, i) matches Ok(ArrowValueView::Timestamp(_)) ==> k == ArrowKind::Timestamp
            &&& cell(c, i) matches Ok(ArrowValueView::Vector(_)) ==> is_list(k)
            &&& cell(c, i) matches Ok(ArrowValueView::SparseVector { .. }) ==> k
                == ArrowKind::Struct
            &&& k == ArrowKind::Other <==> (cell(c, i) matches Err(ArrowErrorView::Format(_)))
        },
{
}

/// Times of all units are told in microseconds: a coarser unit counts its microseconds, a finer one
/// is cut towards zero.
pub proof fn law_times_are_told_in_microseconds(t: i64)
    ensures
        in_micros(t, ArrowUnit::Microsecond) == t,
        in_micros(t, ArrowUnit::Second) == 1000 * in_micros(t, ArrowUnit::Millisecond),
        in_micros(t, ArrowUnit::Millisecond) == 1000 * in_micros(t, ArrowUnit::Microsecond),
        t >= 0 ==> in_micros(t, ArrowUnit::Nanosecond) * 1000 <= t < (in_micros(
            t,
            ArrowUnit::Nanosecond,
        ) + 1) * 1000,
        t < 0 ==> (in_micros(t, ArrowUnit::Nanosecond) - 1) * 1000 < t <= in_micros(
            t,
            ArrowUnit::Nanosecond,
        ) * 1000,
{
}

/// The day of a time is the one in which it lies, also before 1970.
pub proof fn law_day_holds_the_time(t: i64)
    ensures
        day_of_millis(t) * 86_400_000 <= t < (day_of_millis(t) + 1) * 86_400_000,
{
}

/// A dense vector has the format and the elements of its list, in order; a list of other elements is
/// refused.
pub proof fn law_vector_holds_the_list(c: ArrowColumn, i: int)
    ensures
        vector_of(c) is Ok <==> column_kind(c) == ArrowKind::Int8 || column_kind(c)
            == ArrowKind::Float32 || column_kind(c) == ArrowKind::Float64,
        vector_of(c) matches Ok(v) ==> {
            &&& v.elements.len() == column_len(c)
            &&& 0 <= i < column_len(c) ==> v.elements[i] == bits_at(c, i)
            &&& v.format == VectorFormat::Int8 <==> column_kind(c) == ArrowKind::Int8
            &&& v.format == VectorFormat::Float32 <==> column_kind(c) == ArrowKind::Float32
        },
        vector_of(c) matches Err(e) ==> e == ArrowErrorView::VectorElement(column_data_type(c)),
{
}

/// A sparse vector takes its dimensions, indices and values each from the field of that name; a field
/// that is missing is named.
pub proof fn law_sparse_vector_is_read_from_its_fields(c: ArrowColumn, i: int)
    ensures
        sparse_cell(c, i) matches Ok(v) ==> {
            &&& field_of(c, "num_dimensions"@) is Some && field_of(c, "indices"@) is Some
                && field_of(c, "values"@) is Some
            &&& v matches ArrowValueView::SparseVector { num_dimensions, indices, values } && {
                &&& dimensions_at(field_of(c, "num_dimensions"@)->0, i) == Ok::<
                    u32,
                    ArrowErrorView,
                >(num_dimensions)
                &&& indices_of(list_at(field_of(c, "indices"@)->0, i)) == Ok::<
                    Seq<i64>,
                    ArrowErrorView,
                >(indices)
                &&& vector_of(list_at(field_of(c, "values"@)->0, i)) == Ok::<
                    VectorView,
                    ArrowErrorView,
                >(values)
            }
        },
        field_of(c, "num_dimensions"@) is None ==> sparse_cell(c, i) == Err::<
            ArrowValueView,
            ArrowErrorView,
        >(ArrowErrorView::MissingField(missing_field("num_dimensions"@))),
{
}

/// Indices and dimensions are integers, read as they are.
pub proof fn law_indices_are_integers(c: ArrowColumn, i: int)
    ensures
        indices_of(c) matches Ok(v) ==> {
            &&& v.len() == column_len(c)
            &&& 0 <= i < v.len() && is_signed(column_kind(c)) ==> v[i] == signed_at(c, i)
            &&& 0 <= i < v.len() && is_unsigned(column_kind(c)) && unsigned_at(c, i) <= i64::MAX
                ==> v[i] == unsigned_at(c, i)
        },
        indices_of(c) is Err <==> column_len(c) > 0 && !is_signed(column_kind(c)) && !is_unsigned(
            column_kind(c),
        ),
        column_kind(c) == ArrowKind::Int64 && 0 <= signed_at(c, i) <= u32::MAX ==> (
        dimensions_at(c, i) matches Ok(n) && n == signed_at(c, i)),
        column_kind(c) == ArrowKind::UInt32 && unsigned_at(c, i) <= u32::MAX ==> (
        dimensions_at(c, i) matches Ok(n) && n == unsigned_at(c, i)),
{
}

/// A row has a value for each column, in order, and is read exactly where all its cells can be.
pub proof fn law_row_holds_its_cells(b: ArrowBatch, row: int, n: int, j: int)
    requires
        0 <= j < n,
    ensures
        row_cells(b, row, n) matches Ok(v) ==> v.len() == n && cell(batch_column(b, j), row) == Ok::<
            ArrowValueView,
            ArrowErrorView,
        >(v[j]),
        cell(batch_column(b, j), row) is Err ==> row_cells(b, row, n) is Err,
    decreases n,
{
    if j < n - 1 {
        law_row_holds_its_cells(b, row, n - 1, j);
    } else if n > 1 {
        law_row_holds_its_cells(b, row, n - 1, 0);
    } else {
        reveal_with_fuel(row_cells, 2);
    }
}

/// A batch has its rows in order, each with the value of every column.
pub proof fn law_batch_holds_its_rows(b: ArrowBatch, n: int, i: int, j: int)
    requires
        0 <= i < n,
        0 <= j < batch_columns(b),
    ensures
        batch_cells(b, n) matches Ok(rows) ==> {
            &&& rows.len() == n
            &&& rows[i].len() == batch_columns(b)
            &&& cell(batch_column(b, j), i) == Ok::<ArrowValueView, ArrowErrorView>(rows[i][j])
        },
        cell(batch_column(b, j), i) is Err ==> batch_cells(b, n) is Err,
    decreases n,
{
    law_row_holds_its_cells(b, n - 1, batch_columns(b) as int, j);
    if i < n - 1 {
        law_batch_holds_its_rows(b, n - 1, i, j);
    } else if n > 1 {
        law_batch_holds_its_rows(b, n - 1, 0, j);
    } else {
        reveal_with_fuel(batch_cells, 2);
    }
}

/// A table has the rows of its batches one after the other: those of a batch stand behind all rows of
/// the batches before it.
pub proof fn law_table_holds_its_batches(batches: Seq<ArrowBatch>, n: int, k: int)
    requires
        0 <= k < n <= batches.len(),
        table_cells(batches, n) is Ok,
    ensures
        table_cells(batches, k) is Ok,
        batch_cells(batches[k], batch_rows(batches[k]) as int) is Ok,
        ({
            let all = table_cells(batches, n)->Ok_0;
            let before = table_cells(batches, k)->Ok_0;
            let rows = batch_cells(batches[k], batch_rows(batches[k]) as int)->Ok_0;
            &&& before.len() + rows.len() <= all.len()
            &&& all.subrange(before.len() as int, (before.len() + rows.len()) as int) == rows
        }),
    decreases n,
{
    let all = table_cells(batches, n)->Ok_0;
    if k < n - 1 {
        law_table_holds_its_batches(batches, n - 1, k);
        let shorter = table_cells(batches, n - 1)->Ok_0;
        let before = table_cells(batches, k)->Ok_0;
        let rows = batch_cells(batches[k], batch_rows(batches[k]) as int)->Ok_0;
        assert(all.subrange(before.len() as int, (before.len() + rows.len()) as int)
            =~= shorter.subrange(before.len() as int, (before.len() + rows.len()) as int));
    } else {
        let before = table_cells(batches, k)->Ok_0;
        let rows = batch_cells(batches[k], batch_rows(batches[k]) as int)->Ok_0;
        assert(all =~= before + rows);
        assert(all.subrange(before.len() as int, (before.len() + rows.len()) as int) =~= rows);
    }
}

/// The parts of a table are its batches that have rows, in order.
pub proof fn law_parts_are_the_batches_with_rows(batches: Seq<ArrowBatch>, n: int)
    requires
        0 <= n <= batches.len(),
    ensures
        chunk_lengths_of(batches, n) == batches.take(n).filter(
            |b: ArrowBatch| batch_rows(b) > 0,
        ).map_values(|b: ArrowBatch| batch_rows(b)),
    decreases n,
{
    let filled = |b: ArrowBatch| batch_rows(b) > 0;
    let rows = |b: ArrowBatch| batch_rows(b);
    reveal(Seq::filter);
    if n > 0 {
        law_parts_are_the_batches_with_rows(batches, n - 1);
        assert(batches.take(n).drop_last() =~= batches.take(n - 1));
        assert(batches.take(n).last() == batches[n - 1]);
        let before = batches.take(n - 1).filter(filled);
        if filled(batches[n - 1]) {
            assert(batches.take(n).filter(filled) == before.push(batches[n - 1]));
            assert(before.push(batches[n - 1]).map_values(rows) =~= before.map_values(rows).push(
                batch_rows(batches[n - 1]),
            ));
        }
        assert(chunk_lengths_of(batches, n) =~= batches.take(n).filter(filled).map_values(rows));
    } else {
        assert(batches.take(0).filter(filled).map_values(rows) =~= Seq::empty());
    }
}

/// The columns that are bound as timestamps are exactly those that hold them, in order.
pub proof fn law_timestamp_columns_hold_timestamps(b: ArrowBatch, n: int, j: int)
    requires
        0 <= j < n,
    ensures
        timestamp_columns_of(b, n).contains(j) <==> column_kind(batch_column(b, j))
            == ArrowKind::Timestamp,
        forall|i: int|
            0 <= i < timestamp_columns_of(b, n).len() ==> 0 <= #[trigger] timestamp_columns_of(
                b,
                n,
            )[i] < n,
    decreases n,
{
    lemma_timestamp_columns_below(b, n);
    lemma_timestamp_columns_below(b, n - 1);
    let all = timestamp_columns_of(b, n);
    let before = timestamp_columns_of(b, n - 1);
    if j < n - 1 {
        law_timestamp_columns_hold_timestamps(b, n - 1, j);
        if before.contains(j) {
            let i = choose|i: int| 0 <= i < before.len() && before[i] == j;
            assert(all[i] == j);
        }
        if all.contains(j) {
            let i = choose|i: int| 0 <= i < all.len() && all[i] == j;
            assert(before[i] == j);
        }
    } else if column_kind(batch_column(b, j)) == ArrowKind::Timestamp {
        assert(all[all.len() - 1] == j);
    } else if all.contains(j) {
        let i = choose|i: int| 0 <= i < all.len() && all[i] == j;
        assert(before[i] == j);
    }
}

proof fn lemma_timestamp_columns_below(b: ArrowBatch, n: int)
    ensures
        forall|i: int|
            0 <= i < timestamp_columns_of(b, n).len() ==> 0 <= #[trigger] timestamp_columns_of(
                b,
                n,
            )[i] < n,
    decreases n,
{
    if n > 0 {
        lemma_timestamp_columns_below(b, n - 1);
        let all = timestamp_columns_of(b, n);
        let before = timestamp_columns_of(b, n - 1);
        assert forall|i: int| 0 <= i < all.len() implies 0 <= #[trigger] all[i] < n by {
            if i < before.len() {
                assert(all[i] == before[i]);
            }
        }
    } else {
        assert(timestamp_columns_of(b, n).len() == 0);
    }
}

/// A table that was read has the timestamp columns of its first batch, and one without batches has
/// neither rows nor columns.
pub proof fn law_first_batch_tells_of_timestamps(
    r: Result<ArrowRows, ArrowError>,
    batches: Seq<ArrowBatch>,
    j: int,
)
    requires
        table_read(r, batches),
    ensures
        r is Ok <==> table_cells(batches, batches.len() as int) is Ok,
        r matches Ok(t) ==> batches.len() == 0 ==> t.rows@.len() == 0 && t.timestamp_columns@.len()
            == 0 && t.chunk_lengths@.len() == 0,
        r matches Ok(t) ==> batches.len() > 0 && 0 <= j < batch_columns(batches[0]) ==> (
        column_views(t.timestamp_columns@).contains(j) <==> column_kind(batch_column(batches[0], j))
            == ArrowKind::Timestamp),
        r matches Ok(t) ==> row_views(t.rows@) == table_cells(batches, batches.len() as int)->Ok_0,
{
    if let Ok(t) = r {
        assert(row_views(t.rows@).len() == t.rows@.len());
        assert(column_views(t.timestamp_columns@).len() == t.timestamp_columns@.len());
        assert(count_views(t.chunk_lengths@).len() == t.chunk_lengths@.len());
        if batches.len() > 0 && 0 <= j < batch_columns(batches[0]) {
            law_timestamp_columns_hold_timestamps(batches[0], batch_columns(batches[0]) as int, j);
        }
    }
}

/// The message for a value that cannot be bound names its data type; those of vectors have a number
/// of their own.
pub proof fn law_refused_type_is_named(t: DataType, name: Seq<char>, f: FaultView)
    ensures
        fault_of(ArrowErrorView::Format(t), name) matches FaultView::Database(e)
            && e.message.subrange(47, (47 + name.len()) as int) == name && e.message[7] == '2',
        fault_of(ArrowErrorView::VectorElement(t), name) matches FaultView::Database(e)
            && e.message.subrange(63, (63 + name.len()) as int) == name && e.message[7] == '3',
        fault_of(ArrowErrorView::Dimensions(t), name) matches FaultView::Database(e)
            && e.message.subrange(69, (69 + name.len()) as int) == name && e.message[7] == '2',
        fault_of(ArrowErrorView::Indices(t), name) matches FaultView::Database(e)
            && e.message.subrange(62, (62 + name.len()) as int) == name && e.message[7] == '2',
        missing_field(name) matches FaultView::Database(e) && e.message.subrange(
            57,
            (57 + name.len()) as int,
        ) == name,
        fault_of(ArrowErrorView::MissingField(f), name) == f,
{
    reveal_strlit("DPY-3032");
    reveal_strlit("DPY-3033");
    reveal_strlit(": ");
    reveal_strlit("conversion from Apache Arrow format \"");
    reveal_strlit("conversion from Apache Arrow list with child format \"");
    reveal_strlit("conversion from Apache Arrow struct num_dimensions format \"");
    reveal_strlit("conversion from Apache Arrow struct indices format \"");
    reveal_strlit("conversion from Apache Arrow struct without a \"");
    let a = fault_of(ArrowErrorView::Format(t), name)->Database_0.message;
    assert(a.subrange(47, (47 + name.len()) as int) =~= name);
    let b = fault_of(ArrowErrorView::VectorElement(t), name)->Database_0.message;
    assert(b.subrange(63, (63 + name.len()) as int) =~= name);
    let c = fault_of(ArrowErrorView::Dimensions(t), name)->Database_0.message;
    assert(c.subrange(69, (69 + name.len()) as int) =~= name);
    let d = fault_of(ArrowErrorView::Indices(t), name)->Database_0.message;
    assert(d.subrange(62, (62 + name.len()) as int) =~= name);
    let e = missing_field(name)->Database_0.message;
    assert(e.subrange(57, (57 + name.len()) as int) =~= name);
}

/// Frames are handed out one after the other, each once, and then none.
pub proof fn law_frames_come_once_in_order(
    f: FrameIter,
    one: FrameIter,
    two: FrameIter,
    first: Option<usize>,
    second: Option<usize>,
)
    requires
        f.advanced(one, first),
        one.advanced(two, second),
    ensures
        FrameIter::over(f.len).index == 0 && FrameIter::over(f.len).len == f.len,
        first is Some <==> f.index < f.len,
        first matches Some(i) ==> i == f.index && (second matches Some(j) ==> j == i + 1),
        first is None ==> second is None,
        one.len == f.len,
{
}

} // verus!
