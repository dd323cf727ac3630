//! The errors that are raised in Python, and how messages and server reports map to them.
use vstd::prelude::*;

use crate::decimal::{i64_text, read_unsigned, u64_text};
#[allow(unused_imports)]
use crate::decimal::{
    all_digits, digits_value, int_text, law_decimal_round_trip, lemma_nat_text, nat_text,
    parse_signed, parse_unsigned,
};
use crate::text::{
    chars_of, find_chars, head, is_digit_char, join2, join3, owned, same_text, slice_text, tail,
    text_ends_with, text_of, text_starts_with,
};
#[allow(unused_imports)]
use crate::text::{
    contains, ends_with, find, front_run, is_digit, lemma_find_from_is, lemma_front_run_is,
    occurs_at, starts_with,
};

verus! {

/// The errors of the package's catalogue, by name.
#[derive(Clone, Copy, PartialEq, Eq, Structural, Debug)]
pub enum ErrorName {
    ArgsAndKeywordArgs,
    ArrayDmlRowCountsNotEnabled,
    CallTimeoutExceeded,
    ColumnTruncated,
    ContentInvalidAfterNumber,
    CursorDiffConnection,
    CursorNotOpen,
    DbobjectAttrMaxSizeViolated,
    DbobjectElementMaxSizeViolated,
    DbTypeNotSupported,
    DmlReturningDupBinds,
    EndUserSecurityContextRequiresTcps,
    ExecuteModeOnlyForDml,
    ExpectingVar,
    InconsistentDatatypes,
    IncorrectVarArraysize,
    InvalidCollIndexGet,
    InvalidCollIndexSet,
    InvalidEndUserSecurityContextLength,
    InvalidNumber,
    InvalidObjectTypeName,
    InvalidRefCursor,
    InvalidVector,
    LobOfWrongType,
    MissingEndingDoubleQuote,
    MissingEndingSingleQuote,
    MixedPositionalAndNamedBinds,
    NotAQuery,
    NotConnected,
    NoStatement,
    NoStatementExecuted,
    NumberStringOfZeroLength,
    NumberStringTooLong,
    NumberWithEmptyExponent,
    NumberWithInvalidExponent,
    ObjectIsNotACollection,
    OracleNumberNoRepr,
    PoolNotOpen,
    PythonTypeNotSupported,
    PythonValueNotSupported,
    ScrollOutOfResultSet,
    SelfBindNotSupported,
    UnexpectedData,
    UnexpectedEndOfData,
    UnsupportedPythonTypeForDbType,
    UnsupportedTypeSet,
    WrongExecutemanyParametersType,
    WrongExecuteParametersType,
    WrongObjectType,
    WrongScrollMode,
}

impl ErrorName {
    /// The name under which the catalogue lists the error.
    pub open spec fn catalogue_name(self) -> Seq<char> {
        match self {
            ErrorName::ArgsAndKeywordArgs => "ERR_ARGS_AND_KEYWORD_ARGS"@,
            ErrorName::ArrayDmlRowCountsNotEnabled => "ERR_ARRAY_DML_ROW_COUNTS_NOT_ENABLED"@,
            ErrorName::CallTimeoutExceeded => "ERR_CALL_TIMEOUT_EXCEEDED"@,
            ErrorName::ColumnTruncated => "ERR_COLUMN_TRUNCATED"@,
            ErrorName::ContentInvalidAfterNumber => "ERR_CONTENT_INVALID_AFTER_NUMBER"@,
            ErrorName::CursorDiffConnection => "ERR_CURSOR_DIFF_CONNECTION"@,
            ErrorName::CursorNotOpen => "ERR_CURSOR_NOT_OPEN"@,
            ErrorName::DbobjectAttrMaxSizeViolated => "ERR_DBOBJECT_ATTR_MAX_SIZE_VIOLATED"@,
            ErrorName::DbobjectElementMaxSizeViolated => "ERR_DBOBJECT_ELEMENT_MAX_SIZE_VIOLATED"@,
            ErrorName::DbTypeNotSupported => "ERR_DB_TYPE_NOT_SUPPORTED"@,
            ErrorName::DmlReturningDupBinds => "ERR_DML_RETURNING_DUP_BINDS"@,
            ErrorName::EndUserSecurityContextRequiresTcps => "ERR_END_USER_SECURITY_CONTEXT_REQUIRES_TCPS"@,
            ErrorName::ExecuteModeOnlyForDml => "ERR_EXECUTE_MODE_ONLY_FOR_DML"@,
            ErrorName::ExpectingVar => "ERR_EXPECTING_VAR"@,
            ErrorName::InconsistentDatatypes => "ERR_INCONSISTENT_DATATYPES"@,
            ErrorName::IncorrectVarArraysize => "ERR_INCORRECT_VAR_ARRAYSIZE"@,
            ErrorName::InvalidCollIndexGet => "ERR_INVALID_COLL_INDEX_GET"@,
            ErrorName::InvalidCollIndexSet => "ERR_INVALID_COLL_INDEX_SET"@,
            ErrorName::InvalidEndUserSecurityContextLength => "ERR_INVALID_END_USER_SECURITY_CONTEXT_LENGTH"@,
            ErrorName::InvalidNumber => "ERR_INVALID_NUMBER"@,
            ErrorName::InvalidObjectTypeName => "ERR_INVALID_OBJECT_TYPE_NAME"@,
            ErrorName::InvalidRefCursor => "ERR_INVALID_REF_CURSOR"@,
            ErrorName::InvalidVector => "ERR_INVALID_VECTOR"@,
            ErrorName::LobOfWrongType => "ERR_LOB_OF_WRONG_TYPE"@,
            ErrorName::MissingEndingDoubleQuote => "ERR_MISSING_ENDING_DOUBLE_QUOTE"@,
            ErrorName::MissingEndingSingleQuote => "ERR_MISSING_ENDING_SINGLE_QUOTE"@,
            ErrorName::MixedPositionalAndNamedBinds => "ERR_MIXED_POSITIONAL_AND_NAMED_BINDS"@,
            ErrorName::NotAQuery => "ERR_NOT_A_QUERY"@,
            ErrorName::NotConnected => "ERR_NOT_CONNECTED"@,
            ErrorName::NoStatement => "ERR_NO_STATEMENT"@,
            ErrorName::NoStatementExecuted => "ERR_NO_STATEMENT_EXECUTED"@,
            ErrorName::NumberStringOfZeroLength => "ERR_NUMBER_STRING_OF_ZERO_LENGTH"@,
            ErrorName::NumberStringTooLong => "ERR_NUMBER_STRING_TOO_LONG"@,
            ErrorName::NumberWithEmptyExponent => "ERR_NUMBER_WITH_EMPTY_EXPONENT"@,
            ErrorName::NumberWithInvalidExponent => "ERR_NUMBER_WITH_INVALID_EXPONENT"@,
            ErrorName::ObjectIsNotACollection => "ERR_OBJECT_IS_NOT_A_COLLECTION"@,
            ErrorName::OracleNumberNoRepr => "ERR_ORACLE_NUMBER_NO_REPR"@,
            ErrorName::PoolNotOpen => "ERR_POOL_NOT_OPEN"@,
            ErrorName::PythonTypeNotSupported => "ERR_PYTHON_TYPE_NOT_SUPPORTED"@,
            ErrorName::PythonValueNotSupported => "ERR_PYTHON_VALUE_NOT_SUPPORTED"@,
            ErrorName::ScrollOutOfResultSet => "ERR_SCROLL_OUT_OF_RESULT_SET"@,
            ErrorName::SelfBindNotSupported => "ERR_SELF_BIND_NOT_SUPPORTED"@,
            ErrorName::UnexpectedData => "ERR_UNEXPECTED_DATA"@,
            ErrorName::UnexpectedEndOfData => "ERR_UNEXPECTED_END_OF_DATA"@,
            ErrorName::UnsupportedPythonTypeForDbType => "ERR_UNSUPPORTED_PYTHON_TYPE_FOR_DB_TYPE"@,
            ErrorName::UnsupportedTypeSet => "ERR_UNSUPPORTED_TYPE_SET"@,
            ErrorName::WrongExecutemanyParametersType => "ERR_WRONG_EXECUTEMANY_PARAMETERS_TYPE"@,
            ErrorName::WrongExecuteParametersType => "ERR_WRONG_EXECUTE_PARAMETERS_TYPE"@,
            ErrorName::WrongObjectType => "ERR_WRONG_OBJECT_TYPE"@,
            ErrorName::WrongScrollMode => "ERR_WRONG_SCROLL_MODE"@,
        }
    }

    pub fn name(self) -> (r: &'static str)
        ensures
            r@ == self.catalogue_name(),
    {
        match self {
            ErrorName::ArgsAndKeywordArgs => "ERR_ARGS_AND_KEYWORD_ARGS",
            ErrorName::ArrayDmlRowCountsNotEnabled => "ERR_ARRAY_DML_ROW_COUNTS_NOT_ENABLED",
            ErrorName::CallTimeoutExceeded => "ERR_CALL_TIMEOUT_EXCEEDED",
            ErrorName::ColumnTruncated => "ERR_COLUMN_TRUNCATED",
            ErrorName::ContentInvalidAfterNumber => "ERR_CONTENT_INVALID_AFTER_NUMBER",
            ErrorName::CursorDiffConnection => "ERR_CURSOR_DIFF_CONNECTION",
            ErrorName::CursorNotOpen => "ERR_CURSOR_NOT_OPEN",
            ErrorName::DbobjectAttrMaxSizeViolated => "ERR_DBOBJECT_ATTR_MAX_SIZE_VIOLATED",
            ErrorName::DbobjectElementMaxSizeViolated => "ERR_DBOBJECT_ELEMENT_MAX_SIZE_VIOLATED",
            ErrorName::DbTypeNotSupported => "ERR_DB_TYPE_NOT_SUPPORTED",
            ErrorName::DmlReturningDupBinds => "ERR_DML_RETURNING_DUP_BINDS",
            ErrorName::EndUserSecurityContextRequiresTcps => "ERR_END_USER_SECURITY_CONTEXT_REQUIRES_TCPS",
            ErrorName::ExecuteModeOnlyForDml => "ERR_EXECUTE_MODE_ONLY_FOR_DML",
            ErrorName::ExpectingVar => "ERR_EXPECTING_VAR",
            ErrorName::InconsistentDatatypes => "ERR_INCONSISTENT_DATATYPES",
            ErrorName::IncorrectVarArraysize => "ERR_INCORRECT_VAR_ARRAYSIZE",
            ErrorName::InvalidCollIndexGet => "ERR_INVALID_COLL_INDEX_GET",
            ErrorName::InvalidCollIndexSet => "ERR_INVALID_COLL_INDEX_SET",
            ErrorName::InvalidEndUserSecurityContextLength => "ERR_INVALID_END_USER_SECURITY_CONTEXT_LENGTH",
            ErrorName::InvalidNumber => "ERR_INVALID_NUMBER",
            ErrorName::InvalidObjectTypeName => "ERR_INVALID_OBJECT_TYPE_NAME",
            ErrorName::InvalidRefCursor => "ERR_INVALID_REF_CURSOR",
            ErrorName::InvalidVector => "ERR_INVALID_VECTOR",
            ErrorName::LobOfWrongType => "ERR_LOB_OF_WRONG_TYPE",
            ErrorName::MissingEndingDoubleQuote => "ERR_MISSING_ENDING_DOUBLE_QUOTE",
            ErrorName::MissingEndingSingleQuote => "ERR_MISSING_ENDING_SINGLE_QUOTE",
            ErrorName::MixedPositionalAndNamedBinds => "ERR_MIXED_POSITIONAL_AND_NAMED_BINDS",
            ErrorName::NotAQuery => "ERR_NOT_A_QUERY",
            ErrorName::NotConnected => "ERR_NOT_CONNECTED",
            ErrorName::NoStatement => "ERR_NO_STATEMENT",
            ErrorName::NoStatementExecuted => "ERR_NO_STATEMENT_EXECUTED",
            ErrorName::NumberStringOfZeroLength => "ERR_NUMBER_STRING_OF_ZERO_LENGTH",
            ErrorName::NumberStringTooLong => "ERR_NUMBER_STRING_TOO_LONG",
            ErrorName::NumberWithEmptyExponent => "ERR_NUMBER_WITH_EMPTY_EXPONENT",
            ErrorName::NumberWithInvalidExponent => "ERR_NUMBER_WITH_INVALID_EXPONENT",
            ErrorName::ObjectIsNotACollection => "ERR_OBJECT_IS_NOT_A_COLLECTION",
            ErrorName::OracleNumberNoRepr => "ERR_ORACLE_NUMBER_NO_REPR",
            ErrorName::PoolNotOpen => "ERR_POOL_NOT_OPEN",
            ErrorName::PythonTypeNotSupported => "ERR_PYTHON_TYPE_NOT_SUPPORTED",
            ErrorName::PythonValueNotSupported => "ERR_PYTHON_VALUE_NOT_SUPPORTED",
            ErrorName::ScrollOutOfResultSet => "ERR_SCROLL_OUT_OF_RESULT_SET",
            ErrorName::SelfBindNotSupported => "ERR_SELF_BIND_NOT_SUPPORTED",
            ErrorName::UnexpectedData => "ERR_UNEXPECTED_DATA",
            ErrorName::UnexpectedEndOfData => "ERR_UNEXPECTED_END_OF_DATA",
            ErrorName::UnsupportedPythonTypeForDbType => "ERR_UNSUPPORTED_PYTHON_TYPE_FOR_DB_TYPE",
            ErrorName::UnsupportedTypeSet => "ERR_UNSUPPORTED_TYPE_SET",
            ErrorName::WrongExecutemanyParametersType => "ERR_WRONG_EXECUTEMANY_PARAMETERS_TYPE",
            ErrorName::WrongExecuteParametersType => "ERR_WRONG_EXECUTE_PARAMETERS_TYPE",
            ErrorName::WrongObjectType => "ERR_WRONG_OBJECT_TYPE",
            ErrorName::WrongScrollMode => "ERR_WRONG_SCROLL_MODE",
        }
    }
}

/// An error that carries a message of its own, with the server's code and offset where known.
#[derive(Debug)]
pub struct DatabaseError {
    pub message: String,
    pub code: Option<i64>,
    pub offset: Option<i64>,
    /// The text as it was reported, which is raised where the error itself cannot be built.
    pub reported: String,
}

pub ghost struct DatabaseErrorView {
    pub message: Seq<char>,
    pub code: Option<i64>,
    pub offset: Option<i64>,
    pub reported: Seq<char>,
}

impl View for DatabaseError {
    type V = DatabaseErrorView;

    open spec fn view(&self) -> DatabaseErrorView {
        DatabaseErrorView {
            message: self.message@,
            code: self.code,
            offset: self.offset,
            reported: self.reported@,
        }
    }
}

/// What is to be raised in Python.
#[derive(Debug)]
pub enum Fault {
    /// An error of the catalogue that takes no arguments.
    Named(ErrorName),
    DbTypeNotSupported { name: String, message: String },
    ColumnTruncated,
    DmlReturningDupBinds { name: String },
    IncorrectVarArraysize { var_arraysize: u32, required_arraysize: u32 },
    LobOfWrongType { actual_type_name: String, expected_type_name: String },
    PythonValueNotSupported { type_label: String },
    PythonTypeNotSupported { type_label: String },
    InconsistentDatatypes { input_type: String, output_type: String },
    NotSupported { feature: String },
    CallTimeoutExceeded { timeout: u32 },
    InvalidObjectTypeName { name: String },
    InvalidCollIndexGet { index: i32 },
    InvalidCollIndexSet { index: i32, min_index: i32, max_index: i32 },
    WrongObjectType {
        actual_schema: String,
        actual_name: String,
        expected_schema: String,
        expected_name: String,
    },
    AttrMaxSize { attr_name: String, type_label: String, actual_size: u64, max_size: u32 },
    ElementMaxSize { index: i32, type_label: String, actual_size: u64, max_size: u32 },
    UnsupportedPythonType { py_type_name: String, db_type_name: String },
    UnsupportedTypeSet { db_type_name: String },
    Database(DatabaseError),
    Runtime(String),
    TypeError(String),
    NotImplemented(String),
}

pub ghost enum FaultView {
    Named(ErrorName),
    DbTypeNotSupported { name: Seq<char>, message: Seq<char> },
    ColumnTruncated,
    DmlReturningDupBinds { name: Seq<char> },
    IncorrectVarArraysize { var_arraysize: u32, required_arraysize: u32 },
    LobOfWrongType { actual_type_name: Seq<char>, expected_type_name: Seq<char> },
    PythonValueNotSupported { type_label: Seq<char> },
    PythonTypeNotSupported { type_label: Seq<char> },
    InconsistentDatatypes { input_type: Seq<char>, output_type: Seq<char> },
    NotSupported { feature: Seq<char> },
    CallTimeoutExceeded { timeout: u32 },
    InvalidObjectTypeName { name: Seq<char> },
    InvalidCollIndexGet { index: i32 },
    InvalidCollIndexSet { index: i32, min_index: i32, max_index: i32 },
    WrongObjectType {
        actual_schema: Seq<char>,
        actual_name: Seq<char>,
        expected_schema: Seq<char>,
        expected_name: Seq<char>,
    },
    AttrMaxSize { attr_name: Seq<char>, type_label: Seq<char>, actual_size: u64, max_size: u32 },
    ElementMaxSize { index: i32, type_label: Seq<char>, actual_size: u64, max_size: u32 },
    UnsupportedPythonType { py_type_name: Seq<char>, db_type_name: Seq<char> },
    UnsupportedTypeSet { db_type_name: Seq<char> },
    Database(DatabaseErrorView),
    Runtime(Seq<char>),
    TypeError(Seq<char>),
    NotImplemented(Seq<char>),
}

impl View for Fault {
    type V = FaultView;

    open spec fn view(&self) -> FaultView {
        match *self {
            Fault::Named(n) => FaultView::Named(n),
            Fault::DbTypeNotSupported { name, message } => FaultView::DbTypeNotSupported {
                name: name@,
                message: message@,
            },
            Fault::ColumnTruncated => FaultView::ColumnTruncated,
            Fault::DmlReturningDupBinds { name } => FaultView::DmlReturningDupBinds {
                name: name@,
            },
            Fault::IncorrectVarArraysize { var_arraysize, required_arraysize } =>
                FaultView::IncorrectVarArraysize { var_arraysize, required_arraysize },
            Fault::LobOfWrongType { actual_type_name, expected_type_name } =>
                FaultView::LobOfWrongType {
                actual_type_name: actual_type_name@,
                expected_type_name: expected_type_name@,
            },
            Fault::PythonValueNotSupported { type_label } => FaultView::PythonValueNotSupported {
                type_label: type_label@,
            },
            Fault::PythonTypeNotSupported { type_label } => FaultView::PythonTypeNotSupported {
                type_label: type_label@,
            },
            Fault::InconsistentDatatypes { input_type, output_type } =>
                FaultView::InconsistentDatatypes {
                input_type: input_type@,
                output_type: output_type@,
            },
            Fault::NotSupported { feature } => FaultView::NotSupported { feature: feature@ },
            Fault::CallTimeoutExceeded { timeout } => FaultView::CallTimeoutExceeded { timeout },
            Fault::InvalidObjectTypeName { name } => FaultView::InvalidObjectTypeName {
                name: name@,
            },
            Fault::InvalidCollIndexGet { index } => FaultView::InvalidCollIndexGet { index },
            Fault::InvalidCollIndexSet { index, min_index, max_index } =>
                FaultView::InvalidCollIndexSet { index, min_index, max_index },
            Fault::WrongObjectType {
                actual_schema,
                actual_name,
                expected_schema,
                expected_name,
            } => FaultView::WrongObjectType {
                actual_schema: actual_schema@,
                actual_name: actual_name@,
                expected_schema: expected_schema@,
                expected_name: expected_name@,
            },
            Fault::AttrMaxSize { attr_name, type_label, actual_size, max_size } =>
                FaultView::AttrMaxSize {
                attr_name: attr_name@,
                type_label: type_label@,
                actual_size,
                max_size,
            },
            Fault::ElementMaxSize { index, type_label, actual_size, max_size } =>
                FaultView::ElementMaxSize { index, type_label: type_label@, actual_size, max_size },
            Fault::UnsupportedPythonType { py_type_name, db_type_name } =>
                FaultView::UnsupportedPythonType {
                py_type_name: py_type_name@,
                db_type_name: db_type_name@,
            },
            Fault::UnsupportedTypeSet { db_type_name } => FaultView::UnsupportedTypeSet {
                db_type_name: db_type_name@,
            },
            Fault::Database(e) => FaultView::Database(e@),
            Fault::Runtime(m) => FaultView::Runtime(m@),
            Fault::TypeError(m) => FaultView::TypeError(m@),
            Fault::NotImplemented(m) => FaultView::NotImplemented(m@),
        }
    }
}

impl FaultView {
    /// The message to raise when the package's error catalogue cannot be reached.
    pub open spec fn fallback(self) -> Seq<char> {
        match self {
            FaultView::Named(n) => n.catalogue_name(),
            FaultView::DbTypeNotSupported { name, message } => message,
            FaultView::ColumnTruncated =>
                "DPY-4002: column truncated to 0 characters. Untruncated was 0"@,
            FaultView::DmlReturningDupBinds { name } =>
                "DPY-2048: the bind variable placeholder \":"@ + name
                    + "\" cannot be used both before and after the RETURNING clause in a DML RETURNING statement"@,
            FaultView::IncorrectVarArraysize { var_arraysize, required_arraysize } =>
                "DPY-2016: variable array size of "@ + nat_text(var_arraysize as nat)
                    + " is too small (should be at least "@ + nat_text(required_arraysize as nat)
                    + ")"@,
            FaultView::LobOfWrongType { actual_type_name, expected_type_name } =>
                "DPY-3014: LOB is of type "@ + actual_type_name + " but must be of type "@
                    + expected_type_name,
            FaultView::PythonValueNotSupported { type_label } =>
                "DPY-3002: Python value of type \""@ + type_label + "\" is not supported"@,
            FaultView::PythonTypeNotSupported { type_label } =>
                "DPY-3003: Python type is not supported"@,
            FaultView::InconsistentDatatypes { input_type, output_type } =>
                "DPY-4007: cannot convert from data type "@ + input_type + " to "@ + output_type,
            FaultView::NotSupported { feature } =>
                "DPY-3001: "@ + feature + " is only supported in python-oracledb thick mode"@,
            FaultView::CallTimeoutExceeded { timeout } =>
                "call timeout of "@ + nat_text(timeout as nat) + " ms exceeded"@,
            FaultView::InvalidObjectTypeName { name } => "invalid object type name: "@ + name,
            FaultView::InvalidCollIndexGet { index } =>
                "invalid collection index: "@ + int_text(index as int),
            FaultView::InvalidCollIndexSet { index, min_index, max_index } =>
                "invalid collection index: "@ + int_text(index as int) + "; expected "@
                    + int_text(min_index as int) + " to "@ + int_text(max_index as int),
            FaultView::WrongObjectType {
                actual_schema,
                actual_name,
                expected_schema,
                expected_name,
            } => "found object of type \""@ + actual_schema + "."@ + actual_name
                + "\" when expecting object of type \""@ + expected_schema + "."@ + expected_name
                + "\""@,
            FaultView::AttrMaxSize { attr_name, type_label, actual_size, max_size } =>
                "attribute "@ + attr_name + " of type "@ + type_label
                    + " exceeds its maximum size (actual: "@ + nat_text(actual_size as nat)
                    + ", maximum: "@ + nat_text(max_size as nat) + ")"@,
            FaultView::ElementMaxSize { index, type_label, actual_size, max_size } =>
                "element "@ + int_text(index as int) + " of type "@ + type_label
                    + " exceeds its maximum size (actual: "@ + nat_text(actual_size as nat)
                    + ", maximum: "@ + nat_text(max_size as nat) + ")"@,
            FaultView::UnsupportedPythonType { py_type_name, db_type_name } =>
                "unsupported Python type "@ + py_type_name + " for database type "@
                    + db_type_name,
            FaultView::UnsupportedTypeSet { db_type_name } =>
                "type "@ + db_type_name + " does not support being set"@,
            FaultView::Database(e) => e.reported,
            FaultView::Runtime(m) => m,
            FaultView::TypeError(m) => m,
            FaultView::NotImplemented(m) => m,
        }
    }
}

impl Fault {
    /// The message to raise when the package's error catalogue cannot be reached.
    pub fn fallback_text(&self) -> (r: String)
        ensures
            r@ == self@.fallback(),
    {
        match self {
            Fault::Named(n) => owned(n.name()),
            Fault::DbTypeNotSupported { name: _, message } => message.clone(),
            Fault::ColumnTruncated => owned(
                "DPY-4002: column truncated to 0 characters. Untruncated was 0",
            ),
            Fault::DmlReturningDupBinds { name } => join3(
                "DPY-2048: the bind variable placeholder \":",
                name.as_str(),
                "\" cannot be used both before and after the RETURNING clause in a DML RETURNING statement",
            ),
            Fault::IncorrectVarArraysize { var_arraysize, required_arraysize } => {
                let mut r = join3(
                    "DPY-2016: variable array size of ",
                    u64_text(*var_arraysize as u64).as_str(),
                    " is too small (should be at least ",
                );
                r.append(u64_text(*required_arraysize as u64).as_str());
                r.append(")");
                r
            },
            Fault::LobOfWrongType { actual_type_name, expected_type_name } => {
                let mut r = join3(
                    "DPY-3014: LOB is of type ",
                    actual_type_name.as_str(),
                    " but must be of type ",
                );
                r.append(expected_type_name.as_str());
                r
            },
            Fault::PythonValueNotSupported { type_label } => join3(
                "DPY-3002: Python value of type \"",
                type_label.as_str(),
                "\" is not supported",
            ),
            Fault::PythonTypeNotSupported { type_label: _ } => owned(
                "DPY-3003: Python type is not supported",
            ),
            Fault::InconsistentDatatypes { input_type, output_type } => {
                let mut r = join3(
                    "DPY-4007: cannot convert from data type ",
                    input_type.as_str(),
                    " to ",
                );
                r.append(output_type.as_str());
                r
            },
            Fault::NotSupported { feature } => join3(
                "DPY-3001: ",
                feature.as_str(),
                " is only supported in python-oracledb thick mode",
            ),
            Fault::CallTimeoutExceeded { timeout } => join3(
                "call timeout of ",
                u64_text(*timeout as u64).as_str(),
                " ms exceeded",
            ),
            Fault::InvalidObjectTypeName { name } => join2(
                "invalid object type name: ",
                name.as_str(),
            ),
            Fault::InvalidCollIndexGet { index } => join2(
                "invalid collection index: ",
                i64_text(*index as i64).as_str(),
            ),
            Fault::InvalidCollIndexSet { index, min_index, max_index } => {
                let mut r = join3(
                    "invalid collection index: ",
                    i64_text(*index as i64).as_str(),
                    "; expected ",
                );
                r.append(i64_text(*min_index as i64).as_str());
                r.append(" to ");
                r.append(i64_text(*max_index as i64).as_str());
                r
            },
            Fault::WrongObjectType {
                actual_schema,
                actual_name,
                expected_schema,
                expected_name,
            } => {
                let mut r = join3("found object of type \"", actual_schema.as_str(), ".");
                r.append(actual_name.as_str());
                r.append("\" when expecting object of type \"");
                r.append(expected_schema.as_str());
                r.append(".");
                r.append(expected_name.as_str());
                r.append("\"");
                r
            },
            Fault::AttrMaxSize { attr_name, type_label, actual_size, max_size } => {
                let mut r = join3("attribute ", attr_name.as_str(), " of type ");
                r.append(type_label.as_str());
                r.append(" exceeds its maximum size (actual: ");
                r.append(u64_text(*actual_size).as_str());
                r.append(", maximum: ");
                r.append(u64_text(*max_size as u64).as_str());
                r.append(")");
                r
            },
            Fault::ElementMaxSize { index, type_label, actual_size, max_size } => {
                let mut r = join3("element ", i64_text(*index as i64).as_str(), " of type ");
                r.append(type_label.as_str());
                r.append(" exceeds its maximum size (actual: ");
                r.append(u64_text(*actual_size).as_str());
                r.append(", maximum: ");
                r.append(u64_text(*max_size as u64).as_str());
                r.append(")");
                r
            },
            Fault::UnsupportedPythonType { py_type_name, db_type_name } => {
                let mut r = join3(
                    "unsupported Python type ",
                    py_type_name.as_str(),
                    " for database type ",
                );
                r.append(db_type_name.as_str());
                r
            },
            Fault::UnsupportedTypeSet { db_type_name } => join3(
                "type ",
                db_type_name.as_str(),
                " does not support being set",
            ),
            Fault::Database(e) => e.reported.clone(),
            Fault::Runtime(m) => m.clone(),
            Fault::TypeError(m) => m.clone(),
            Fault::NotImplemented(m) => m.clone(),
        }
    }
}

/// The view of an outcome whose value is taken as it stands.
pub open spec fn outcome<T>(r: Result<T, Fault>) -> Result<T, FaultView> {
    match r {
        Ok(v) => Ok(v),
        Err(e) => Err(e@),
    }
}

/// The five-digit number behind the first `ORA-` of a message.
pub open spec fn ora_code(m: Seq<char>) -> Option<i64> {
    match find(m, "ORA-"@) {
        Some(i) => {
            let start = i + "ORA-"@.len();
            if start + 5 <= m.len() && all_digits(m.subrange(start, start + 5)) {
                Some(digits_value(m.subrange(start, start + 5)) as i64)
            } else {
                None
            }
        },
        None => None,
    }
}

pub open spec fn digit_pred() -> spec_fn(char) -> bool {
    |c: char| is_digit(c)
}

/// The offset, counted from zero, behind the first `, column ` of a message.
pub open spec fn ora_offset(m: Seq<char>) -> Option<i64> {
    match find(m, ", column "@) {
        Some(i) => {
            let rest = m.skip(i + ", column "@.len());
            let digits = rest.take(front_run(rest, digit_pred()));
            if digits.len() > 0 && digits_value(digits) <= i32::MAX {
                Some((digits_value(digits) - 1) as i64)
            } else {
                None
            }
        },
        None => None,
    }
}

/// The error with message `m`, out of the text `reported`.
pub open spec fn reported_view(m: Seq<char>, reported: Seq<char>) -> FaultView {
    FaultView::Database(
        DatabaseErrorView { message: m, code: ora_code(m), offset: ora_offset(m), reported },
    )
}

pub open spec fn database_view(m: Seq<char>) -> FaultView {
    reported_view(m, m)
}

/// The messages of the driver that stand for one error of the catalogue.
pub open spec fn known_message(m: Seq<char>) -> Option<FaultView> {
    if m == "connection is closed"@ {
        Some(FaultView::Named(ErrorName::NotConnected))
    } else if m == "TTC decode failed: truncated DML RETURNING value"@ {
        Some(FaultView::ColumnTruncated)
    } else if m == "TTC decode failed: NUMBER bind out of range"@ {
        Some(FaultView::Named(ErrorName::OracleNumberNoRepr))
    } else if m == "TTC decode failed: invalid NUMBER bind"@ {
        Some(FaultView::Named(ErrorName::InvalidNumber))
    } else if m == "TTC decode failed: invalid NUMBER bind suffix"@ {
        Some(FaultView::Named(ErrorName::ContentInvalidAfterNumber))
    } else if m == "TTC decode failed: invalid NUMBER exponent"@ {
        Some(FaultView::Named(ErrorName::NumberWithInvalidExponent))
    } else if m == "TTC decode failed: empty NUMBER exponent"@ {
        Some(FaultView::Named(ErrorName::NumberWithEmptyExponent))
    } else if m == "TTC decode failed: NUMBER bind text too long"@ {
        Some(FaultView::Named(ErrorName::NumberStringTooLong))
    } else if m == "TTC decode failed: empty NUMBER bind"@ {
        Some(FaultView::Named(ErrorName::NumberStringOfZeroLength))
    } else {
        None
    }
}

/// `m` without the given suffix, or unchanged.
pub open spec fn without_suffix(m: Seq<char>, p: Seq<char>) -> Seq<char> {
    if ends_with(m, p) {
        m.take(m.len() - p.len())
    } else {
        m
    }
}

/// The number of milliseconds in the message of an exceeded call timeout.
pub open spec fn timeout_of(m: Seq<char>) -> Option<nat> {
    let p = "call timeout of "@;
    let rest = m.skip(p.len() as int);
    if starts_with(m, p) && ends_with(rest, " ms exceeded"@) {
        match parse_unsigned(without_suffix(rest, " ms exceeded"@)) {
            Some(n) => if n <= u32::MAX {
                Some(n)
            } else {
                None
            },
            None => None,
        }
    } else {
        None
    }
}

/// What an error message of the driver is raised as. The prefixes that name one error are
/// looked at before the general `DPY-` prefix. The error of the server is raised without the
/// prefix that the driver gave it; the prefix stays in the text that was reported.
pub open spec fn fault_of_message(m: Seq<char>) -> FaultView {
    let server = "server returned Oracle error: "@;
    let unsupported = "DPY-3007: the data type "@;
    if starts_with(m, server) {
        reported_view(m.skip(server.len() as int), m)
    } else if starts_with(m, unsupported) {
        FaultView::DbTypeNotSupported {
            name: without_suffix(m.skip(unsupported.len() as int), " is not supported"@),
            message: m,
        }
    } else if starts_with(m, "DPY-5004: "@) {
        FaultView::Named(ErrorName::UnexpectedData)
    } else if starts_with(m, "DPY-5006: "@) {
        FaultView::Named(ErrorName::UnexpectedEndOfData)
    } else if starts_with(m, "DPY-"@) {
        database_view(m)
    } else if known_message(m) is Some {
        known_message(m)->0
    } else {
        match timeout_of(m) {
            Some(n) => FaultView::CallTimeoutExceeded { timeout: n as u32 },
            None => FaultView::Runtime(m),
        }
    }
}

/// Finds the server's error number in a message.
pub fn parse_ora_code(message: &str) -> (r: Option<i64>)
    ensures
        r == ora_code(message@),
{
    let m = chars_of(message);
    let p = chars_of("ORA-");
    match find_chars(&m, &p, 0) {
        Some(i) => {
            let start: usize = i + p.len();
            if m.len() - start < 5 {
                return None;
            }
            let digits = slice_text(&m, start, start + 5);
            let ghost d = m@.subrange(start as int, start + 5);
            proof {
                lemma_five_digits(d);
                if all_digits(d) {
                    assert(is_digit(d[0]));
                }
            }
            if digits.as_str().get_char(0) == '+' {
                return None;
            }
            match read_unsigned(digits.as_str(), 99999) {
                Some(n) => Some(n as i64),
                None => None,
            }
        },
        None => None,
    }
}

proof fn lemma_five_digits(d: Seq<char>)
    requires
        d.len() == 5,
    ensures
        all_digits(d) ==> digits_value(d) <= 99999,
{
    if all_digits(d) {
        reveal_with_fuel(digits_value, 6);
        assert(is_digit(d[0]) && is_digit(d[1]) && is_digit(d[2]) && is_digit(d[3]) && is_digit(
            d[4],
        ));
        let d4 = d.drop_last();
        let d3 = d4.drop_last();
        let d2 = d3.drop_last();
        let d1 = d2.drop_last();
        assert(d.last() == d[4] && d4.last() == d[3] && d3.last() == d[2] && d2.last() == d[1]
            && d1.last() == d[0]);
        assert(digits_value(d1) <= 9);
        assert(digits_value(d2) <= 99);
        assert(digits_value(d3) <= 999);
        assert(digits_value(d4) <= 9999);
    }
}

/// Finds the offset that a message gives as a column.
pub fn parse_ora_offset(message: &str) -> (r: Option<i64>)
    ensures
        r == ora_offset(message@),
{
    let m = chars_of(message);
    let p = chars_of(", column ");
    match find_chars(&m, &p, 0) {
        Some(i) => {
            let start: usize = i + p.len();
            let rest = tail(&m, start);
            let mut n: usize = 0;
            while n < rest.len() && is_digit_char(rest[n])
                invariant
                    n <= rest@.len(),
                    forall|j: int| 0 <= j < n ==> is_digit(#[trigger] rest@[j]),
                decreases rest@.len() - n,
            {
                n = n + 1;
            }
            let digits = slice_text(&rest, 0, n);
            proof {
                lemma_front_run_is(rest@, digit_pred(), n as int);
                assert(rest@.subrange(0, n as int) =~= rest@.take(n as int));
                assert forall|j: int| 0 <= j < n implies is_digit(#[trigger] digits@[j]) by {
                    assert(digits@[j] == rest@[j]);
                }
            }
            match read_unsigned(digits.as_str(), 0x7fff_ffff) {
                Some(column) => Some(column as i64 - 1),
                None => None,
            }
        },
        None => None,
    }
}

fn reported_error(message: &str, reported: &str) -> (r: Fault)
    ensures
        r@ == reported_view(message@, reported@),
{
    Fault::Database(
        DatabaseError {
            message: owned(message),
            code: parse_ora_code(message),
            offset: parse_ora_offset(message),
            reported: owned(reported),
        },
    )
}

/// The error that carries a message as it stands.
pub fn database_error(message: &str) -> (r: Fault)
    ensures
        r@ == database_view(message@),
{
    reported_error(message, message)
}

/// The error for one of the driver's numbered messages, such as `DPY-4009`.
pub fn dpy_database_error(code: &str, message: &str) -> (r: Fault)
    ensures
        r@ == database_view(code@ + ": "@ + message@),
{
    let m = join3(code, ": ", message);
    database_error(m.as_str())
}

/// The error for a statement that the user cancelled.
pub fn ora_cancel_error() -> (r: Fault)
    ensures
        r@ == database_view("ORA-01013: user requested cancel of current operation"@),
{
    database_error("ORA-01013: user requested cancel of current operation")
}

/// The error for a feature that has no implementation.
pub fn not_implemented(name: &str) -> (r: Fault)
    ensures
        r@ == FaultView::NotImplemented(
            name@
                + " is a Rust shim placeholder; M1+ must route this through the oracledb crate"@,
        ),
{
    Fault::NotImplemented(
        join2(
            name,
            " is a Rust shim placeholder; M1+ must route this through the oracledb crate",
        ),
    )
}

fn known_fault(message: &str) -> (r: Option<Fault>)
    ensures
        match r {
            Some(f) => known_message(message@) == Some(f@),
            None => known_message(message@) is None,
        },
{
    if same_text(message, "connection is closed") {
        Some(Fault::Named(ErrorName::NotConnected))
    } else if same_text(message, "TTC decode failed: truncated DML RETURNING value") {
        Some(Fault::ColumnTruncated)
    } else if same_text(message, "TTC decode failed: NUMBER bind out of range") {
        Some(Fault::Named(ErrorName::OracleNumberNoRepr))
    } else if same_text(message, "TTC decode failed: invalid NUMBER bind") {
        Some(Fault::Named(ErrorName::InvalidNumber))
    } else if same_text(message, "TTC decode failed: invalid NUMBER bind suffix") {
        Some(Fault::Named(ErrorName::ContentInvalidAfterNumber))
    } else if same_text(message, "TTC decode failed: invalid NUMBER exponent") {
        Some(Fault::Named(ErrorName::NumberWithInvalidExponent))
    } else if same_text(message, "TTC decode failed: empty NUMBER exponent") {
        Some(Fault::Named(ErrorName::NumberWithEmptyExponent))
    } else if same_text(message, "TTC decode failed: NUMBER bind text too long") {
        Some(Fault::Named(ErrorName::NumberStringTooLong))
    } else if same_text(message, "TTC decode failed: empty NUMBER bind") {
        Some(Fault::Named(ErrorName::NumberStringOfZeroLength))
    } else {
        None
    }
}

fn exceeded_timeout(m: &Vec<char>) -> (r: Option<u32>)
    ensures
        match r {
            Some(n) => timeout_of(m@) == Some(n as nat),
            None => timeout_of(m@) is None,
        },
{
    let prefix = chars_of("call timeout of ");
    if !text_starts_with(m, &prefix) {
        return None;
    }
    let rest = tail(m, prefix.len());
    let suffix = chars_of(" ms exceeded");
    if !text_ends_with(&rest, &suffix) {
        return None;
    }
    let digits = slice_text(&rest, 0, rest.len() - suffix.len());
    proof {
        assert(rest@.subrange(0, rest@.len() - suffix@.len()) =~= rest@.take(
            rest@.len() - suffix@.len(),
        ));
    }
    match read_unsigned(digits.as_str(), 0xffff_ffff) {
        Some(n) => Some(n as u32),
        None => None,
    }
}

/// Decides what an error message of the driver is raised as.
pub fn runtime_error(message: &str) -> (r: Fault)
    ensures
        r@ == fault_of_message(message@),
{
    let m = chars_of(message);
    let server = chars_of("server returned Oracle error: ");
    if text_starts_with(&m, &server) {
        let rest = text_of(&tail(&m, server.len()));
        return reported_error(rest.as_str(), message);
    }
    let unsupported = chars_of("DPY-3007: the data type ");
    if text_starts_with(&m, &unsupported) {
        let rest = tail(&m, unsupported.len());
        let suffix = chars_of(" is not supported");
        let name = if text_ends_with(&rest, &suffix) {
            text_of(&head(&rest, rest.len() - suffix.len()))
        } else {
            text_of(&rest)
        };
        return Fault::DbTypeNotSupported { name, message: owned(message) };
    }
    if text_starts_with(&m, &chars_of("DPY-5004: ")) {
        return Fault::Named(ErrorName::UnexpectedData);
    }
    if text_starts_with(&m, &chars_of("DPY-5006: ")) {
        return Fault::Named(ErrorName::UnexpectedEndOfData);
    }
    if text_starts_with(&m, &chars_of("DPY-")) {
        return database_error(message);
    }
    match known_fault(message) {
        Some(f) => f,
        None => match exceeded_timeout(&m) {
            Some(timeout) => Fault::CallTimeoutExceeded { timeout },
            None => Fault::Runtime(owned(message)),
        },
    }
}

/// A message with one of the prefixes that name an error never reaches the general rule for
/// `DPY-` messages.
pub proof fn law_specific_prefixes_come_first(rest: Seq<char>)
    ensures
        fault_of_message("DPY-5004: "@ + rest) == FaultView::Named(ErrorName::UnexpectedData),
        fault_of_message("DPY-5006: "@ + rest) == FaultView::Named(ErrorName::UnexpectedEndOfData),
        fault_of_message("DPY-3007: the data type "@ + rest + " is not supported"@)
            == (FaultView::DbTypeNotSupported {
            name: rest,
            message: "DPY-3007: the data type "@ + rest + " is not supported"@,
        }),
{
    reveal_strlit("server returned Oracle error: ");
    reveal_strlit("DPY-3007: the data type ");
    reveal_strlit("DPY-5004: ");
    reveal_strlit("DPY-5006: ");
    reveal_strlit(" is not supported");
    let m4 = "DPY-5004: "@ + rest;
    assert(m4.take(10) =~= "DPY-5004: "@);
    assert(m4[0] == 'D' && m4[4] == '5' && m4[7] == '4');
    lemma_prefix_char(m4, "server returned Oracle error: "@, 0);
    lemma_prefix_char(m4, "DPY-3007: the data type "@, 4);
    let m6 = "DPY-5006: "@ + rest;
    assert(m6.take(10) =~= "DPY-5006: "@);
    assert(m6[0] == 'D' && m6[4] == '5' && m6[7] == '6');
    lemma_prefix_char(m6, "server returned Oracle error: "@, 0);
    lemma_prefix_char(m6, "DPY-3007: the data type "@, 4);
    lemma_prefix_char(m6, "DPY-5004: "@, 7);
    let p7 = "DPY-3007: the data type "@;
    let s7 = " is not supported"@;
    let m7 = p7 + rest + s7;
    assert(m7[0] == 'D');
    lemma_prefix_char(m7, "server returned Oracle error: "@, 0);
    assert(m7.take(p7.len() as int) =~= p7);
    assert(m7.skip(p7.len() as int) =~= rest + s7);
    assert((rest + s7).skip(rest.len() as int) =~= s7);
    assert((rest + s7).take(rest.len() as int) =~= rest);
}

/// Where the catalogue cannot be reached, an error that carries a message is raised with the
/// whole message of the driver, also where the error itself drops a prefix of it.
pub proof fn law_fallback_is_the_whole_message(m: Seq<char>)
    requires
        fault_of_message(m) is Database || fault_of_message(m) is DbTypeNotSupported
            || fault_of_message(m) is Runtime,
    ensures
        fault_of_message(m).fallback() == m,
{
}

/// A text whose character at `k` differs from the pattern's does not start with the pattern.
pub proof fn lemma_prefix_char(s: Seq<char>, p: Seq<char>, k: int)
    requires
        0 <= k < p.len(),
        k < s.len() ==> s[k] != p[k],
    ensures
        !starts_with(s, p),
{
    if starts_with(s, p) {
        assert(s.take(p.len() as int)[k] == s[k]);
    }
}

/// What the server reports of a failed statement.
pub struct ServerErrorDetails {
    pub message: String,
    pub code: u32,
    pub pos: i32,
    pub row_count: u64,
    pub rowid: Option<String>,
    pub array_dml_row_counts: Option<Vec<u64>>,
}

impl ServerErrorDetails {
    /// The error that the details stand for: the reported code and position where they are set,
    /// and otherwise those that the message gives.
    pub open spec fn fault(self) -> FaultView {
        FaultView::Database(
            DatabaseErrorView {
                message: self.message@,
                code: if self.code != 0 {
                    Some(self.code as i64)
                } else {
                    ora_code(self.message@)
                },
                offset: if self.pos > 0 {
                    Some(self.pos as i64)
                } else {
                    ora_offset(self.message@)
                },
                reported: self.message@,
            },
        )
    }

    pub fn to_fault(&self) -> (r: Fault)
        ensures
            r@ == self.fault(),
    {
        let code: Option<i64> = if self.code != 0 {
            Some(self.code as i64)
        } else {
            parse_ora_code(self.message.as_str())
        };
        let offset: Option<i64> = if self.pos > 0 {
            Some(self.pos as i64)
        } else {
            parse_ora_offset(self.message.as_str())
        };
        Fault::Database(
            DatabaseError {
                message: self.message.clone(),
                code,
                offset,
                reported: self.message.clone(),
            },
        )
    }
}

/// A failed call to the server: its text, and the structured details when the server sent them.
pub struct TaskError {
    pub message: String,
    pub details: Option<ServerErrorDetails>,
}

impl TaskError {
    pub open spec fn fault(self) -> FaultView {
        match self.details {
            Some(d) => d.fault(),
            None => fault_of_message(self.message@),
        }
    }

    pub open spec fn raised(self, r: (Fault, bool), is_session_dead: bool) -> bool {
        r.0@ == self.fault() && r.1 == (self.details is Some && is_session_dead)
    }

    /// What to raise for the failed call, and whether the connection is to be dropped: that is so
    /// exactly when the server sent details and the package counts their error as the end of the
    /// session.
    pub fn raise(&self, is_session_dead: bool) -> (r: (Fault, bool))
        ensures
            self.raised(r, is_session_dead),
    {
        match &self.details {
            Some(d) => (d.to_fault(), is_session_dead),
            None => (runtime_error(self.message.as_str()), false),
        }
    }
}

/// How a failed encoding or decoding of binary JSON is reported by the codec.
pub enum OsonError {
    NotEncoded,
    Invalid,
    TypeNotSupported(String),
    Other(String),
}

pub open spec fn oson_fault(err: OsonError) -> FaultView {
    match err {
        OsonError::NotEncoded => FaultView::Named(ErrorName::UnexpectedData),
        OsonError::Invalid => FaultView::Named(ErrorName::UnexpectedEndOfData),
        OsonError::TypeNotSupported(name) => FaultView::DbTypeNotSupported {
            name: name@,
            message: "ERR_DB_TYPE_NOT_SUPPORTED"@,
        },
        OsonError::Other(m) => fault_of_message(m@),
    }
}

/// What a failure of the JSON codec is raised as.
pub fn oson_error_to_fault(err: &OsonError) -> (r: Fault)
    ensures
        r@ == oson_fault(*err),
{
    match err {
        OsonError::NotEncoded => Fault::Named(ErrorName::UnexpectedData),
        OsonError::Invalid => Fault::Named(ErrorName::UnexpectedEndOfData),
        OsonError::TypeNotSupported(name) => Fault::DbTypeNotSupported {
            name: name.clone(),
            message: owned("ERR_DB_TYPE_NOT_SUPPORTED"),
        },
        OsonError::Other(m) => runtime_error(m.as_str()),
    }
}

pub open spec fn says_type_does_not_suit(full_code: Option<Seq<char>>) -> bool {
    full_code matches Some(c) && (c == "DPY-3013"@ || c == "DPY-3004"@)
}

/// Whether an error says that a value does not suit the type declared for its bind variable, so
/// that the declaration is dropped and the type taken from the value.
pub fn is_setinputsizes_fallback_error(full_code: Option<&str>) -> (r: bool)
    ensures
        r == says_type_does_not_suit(
            match full_code {
                Some(c) => Some(c@),
                None => None,
            },
        ),
{
    match full_code {
        Some(c) => same_text(c, "DPY-3013") || same_text(c, "DPY-3004"),
        None => false,
    }
}

pub open spec fn warning_of(compilation_error_warning: bool) -> Option<u32> {
    if compilation_error_warning {
        Some(7000u32)
    } else {
        None
    }
}

/// The number of the warning for a statement that compiled with errors, if it did.
pub fn query_result_warning(compilation_error_warning: bool) -> (r: Option<u32>)
    ensures
        r == warning_of(compilation_error_warning),
{
    if compilation_error_warning {
        Some(7000)
    } else {
        None
    }
}

/// `s` without any number of copies of `p` at its front.
pub open spec fn without_leading(s: Seq<char>, p: Seq<char>) -> Seq<char>
    decreases s.len(),
{
    if p.len() > 0 && starts_with(s, p) {
        without_leading(s.skip(p.len() as int), p)
    } else {
        s
    }
}

/// The name of a database type without its `DB_TYPE_` prefix.
pub fn short_db_type_name(name: &str) -> (r: String)
    ensures
        r@ == without_leading(name@, "DB_TYPE_"@),
{
    let p = chars_of("DB_TYPE_");
    let mut v = chars_of(name);
    proof {
        reveal_strlit("DB_TYPE_");
    }
    while text_starts_with(&v, &p)
        invariant
            p@ == "DB_TYPE_"@,
            p@.len() > 0,
            without_leading(v@, p@) == without_leading(name@, p@),
        decreases v@.len(),
    {
        v = tail(&v, p.len());
    }
    text_of(&v)
}

pub open spec fn close_reported(r: Option<Fault>, error: Option<Seq<char>>) -> bool {
    match error {
        None => r is None,
        Some(m) => if contains(m, "Broken pipe"@) || contains(
            m,
            "Transport endpoint is not connected"@,
        ) {
            r is None
        } else {
            r matches Some(f) && f@ == fault_of_message(m)
        },
    }
}

/// Whether a failed close is an error at all: a peer that has gone counts as closed.
pub fn close_result(error: Option<&str>) -> (r: Option<Fault>)
    ensures
        close_reported(
            r,
            match error {
                Some(m) => Some(m@),
                None => None,
            },
        ),
{
    match error {
        None => None,
        Some(m) => {
            let v = chars_of(m);
            if find_chars(&v, &chars_of("Broken pipe"), 0).is_some() || find_chars(
                &v,
                &chars_of("Transport endpoint is not connected"),
                0,
            ).is_some() {
                None
            } else {
                Some(runtime_error(m))
            }
        },
    }
}

/// The number of a server's error is the five digits behind its first `ORA-`.
pub proof fn law_error_number_stands_behind_ora(
    front: Seq<char>,
    digits: Seq<char>,
    rest: Seq<char>,
)
    requires
        forall|i: int| 0 <= i < front.len() ==> #[trigger] front[i] != 'O',
        digits.len() == 5,
    ensures
        all_digits(digits) ==> ora_code(front + "ORA-"@ + digits + rest) == Some(
            digits_value(digits) as i64,
        ),
        !all_digits(digits) ==> ora_code(front + "ORA-"@ + digits + rest) is None,
        ora_code(front + "ORA-"@ + digits.take(4)) is None,
{
    reveal_strlit("ORA-");
    let m = front + "ORA-"@ + digits + rest;
    let n = front.len() as int;
    lemma_find_behind(front, "ORA-"@, digits + rest, 'O');
    assert(m =~= front + "ORA-"@ + (digits + rest));
    assert(m.subrange(n + 4, n + 9) =~= digits);
    lemma_find_behind(front, "ORA-"@, digits.take(4), 'O');
}

/// A pattern is found behind a front in which its first character does not occur.
proof fn lemma_find_behind(front: Seq<char>, p: Seq<char>, rest: Seq<char>, c: char)
    requires
        p.len() > 0,
        p[0] == c,
        forall|i: int| 0 <= i < front.len() ==> #[trigger] front[i] != c,
    ensures
        find(front + p + rest, p) == Some(front.len() as int),
{
    let s = front + p + rest;
    let n = front.len() as int;
    assert(s.subrange(n, n + p.len()) =~= p);
    assert forall|j: int| 0 <= j < n implies !occurs_at(s, p, j) by {
        if occurs_at(s, p, j) {
            assert(s.subrange(j, j + p.len())[0] == p[0]);
            assert(s[j] == front[j]);
        }
    }
    lemma_find_from_is(s, p, 0, n);
}

/// The offset of an error is one less than the number behind its first `, column `, which counts from
/// one.
pub proof fn law_error_offset_counts_from_zero(front: Seq<char>, column: nat, rest: Seq<char>)
    requires
        forall|i: int| 0 <= i < front.len() ==> #[trigger] front[i] != ',',
        rest.len() == 0 || !is_digit(rest[0]),
    ensures
        column <= i32::MAX ==> ora_offset(front + ", column "@ + nat_text(column) + rest) == Some(
            (column - 1) as i64,
        ),
        column > i32::MAX ==> ora_offset(front + ", column "@ + nat_text(column) + rest) is None,
{
    reveal_strlit(", column ");
    let p = ", column "@;
    let d = nat_text(column);
    let m = front + p + d + rest;
    lemma_nat_text(column);
    lemma_find_behind(front, p, d + rest, ',');
    assert(m =~= front + p + (d + rest));
    let behind = m.skip((front.len() + p.len()) as int);
    assert(behind =~= d + rest);
    assert forall|j: int| 0 <= j < d.len() implies digit_pred()(#[trigger] behind[j]) by {
        assert(behind[j] == d[j]);
        assert(is_digit(d[j]));
    }
    if d.len() < behind.len() {
        assert(behind[d.len() as int] == rest[0]);
    }
    lemma_front_run_is(behind, digit_pred(), d.len() as int);
    assert(behind.take(d.len() as int) =~= d);
}

/// An error of the server is raised with its own message, number and offset, and without the words
/// that the driver put in front. A numbered message of the driver is raised as it is.
pub proof fn law_server_error_is_raised_by_its_message(message: Seq<char>)
    ensures
        fault_of_message("server returned Oracle error: "@ + message) matches FaultView::Database(e)
            && e.message == message && e.code == ora_code(message) && e.offset == ora_offset(
            message,
        ),
        message.len() > 0 && message[0] == '4' ==> (fault_of_message(
            "DPY-"@ + message,
        ) matches FaultView::Database(e) && e.message == "DPY-"@ + message && e.reported == "DPY-"@
            + message),
{
    reveal_strlit("server returned Oracle error: ");
    reveal_strlit("DPY-3007: the data type ");
    reveal_strlit("DPY-5004: ");
    reveal_strlit("DPY-5006: ");
    reveal_strlit("DPY-");
    let p = "server returned Oracle error: "@;
    let m = p + message;
    assert(m.take(p.len() as int) =~= p);
    assert(m.skip(p.len() as int) =~= message);
    if message.len() > 0 && message[0] == '4' {
        let d = "DPY-"@ + message;
        assert(d[0] == 'D' && d[4] == '4');
        lemma_prefix_char(d, p, 0);
        lemma_prefix_char(d, "DPY-3007: the data type "@, 4);
        lemma_prefix_char(d, "DPY-5004: "@, 4);
        lemma_prefix_char(d, "DPY-5006: "@, 4);
        assert(d.take(4) =~= "DPY-"@);
    }
}

/// A call that took too long is reported with its limit: the message for a limit is raised as the
/// error with that limit.
pub proof fn law_timeout_is_read_back(timeout: u32)
    ensures
        fault_of_message((FaultView::CallTimeoutExceeded { timeout }).fallback()) == (
        FaultView::CallTimeoutExceeded { timeout }),
{
    reveal_strlit("server returned Oracle error: ");
    reveal_strlit("DPY-3007: the data type ");
    reveal_strlit("DPY-5004: ");
    reveal_strlit("DPY-5006: ");
    reveal_strlit("DPY-");
    reveal_strlit("call timeout of ");
    reveal_strlit(" ms exceeded");
    let p = "call timeout of "@;
    let s = " ms exceeded"@;
    let d = nat_text(timeout as nat);
    let m = p + d + s;
    assert(m[0] == 'c' && m[1] == 'a');
    lemma_prefix_char(m, "server returned Oracle error: "@, 0);
    lemma_prefix_char(m, "DPY-3007: the data type "@, 0);
    lemma_prefix_char(m, "DPY-5004: "@, 0);
    lemma_prefix_char(m, "DPY-5006: "@, 0);
    lemma_prefix_char(m, "DPY-"@, 0);
    lemma_unknown_message(m);
    assert(m.take(p.len() as int) =~= p);
    let rest = m.skip(p.len() as int);
    assert(rest =~= d + s);
    assert(rest.skip(d.len() as int) =~= s);
    assert(rest.take(d.len() as int) =~= d);
    lemma_nat_text(timeout as nat);
    law_decimal_round_trip(timeout as int);
    assert(is_digit(d[0]));
}

/// The messages that stand for one error begin in two ways only.
proof fn lemma_unknown_message(m: Seq<char>)
    requires
        m.len() > 1,
        m[0] != 'T',
        m[1] != 'o',
    ensures
        known_message(m) is None,
{
    reveal_strlit("connection is closed");
    reveal_strlit("TTC decode failed: truncated DML RETURNING value");
    reveal_strlit("TTC decode failed: NUMBER bind out of range");
    reveal_strlit("TTC decode failed: invalid NUMBER bind");
    reveal_strlit("TTC decode failed: invalid NUMBER bind suffix");
    reveal_strlit("TTC decode failed: invalid NUMBER exponent");
    reveal_strlit("TTC decode failed: empty NUMBER exponent");
    reveal_strlit("TTC decode failed: NUMBER bind text too long");
    reveal_strlit("TTC decode failed: empty NUMBER bind");
    assert("connection is closed"@[1] == 'o');
    assert("TTC decode failed: truncated DML RETURNING value"@[0] == 'T');
    assert("TTC decode failed: NUMBER bind out of range"@[0] == 'T');
    assert("TTC decode failed: invalid NUMBER bind"@[0] == 'T');
    assert("TTC decode failed: invalid NUMBER bind suffix"@[0] == 'T');
    assert("TTC decode failed: invalid NUMBER exponent"@[0] == 'T');
    assert("TTC decode failed: empty NUMBER exponent"@[0] == 'T');
    assert("TTC decode failed: NUMBER bind text too long"@[0] == 'T');
    assert("TTC decode failed: empty NUMBER bind"@[0] == 'T');
}

/// A message that says nothing in particular is raised as it is.
pub proof fn law_other_messages_are_raised_as_they_are(m: Seq<char>)
    requires
        m.len() > 1,
        m[0] != 's' && m[0] != 'D' && m[0] != 'T' && m[0] != 'c',
        m[1] != 'o',
    ensures
        fault_of_message(m) == FaultView::Runtime(m),
{
    reveal_strlit("server returned Oracle error: ");
    reveal_strlit("DPY-3007: the data type ");
    reveal_strlit("DPY-5004: ");
    reveal_strlit("DPY-5006: ");
    reveal_strlit("DPY-");
    reveal_strlit("call timeout of ");
    lemma_prefix_char(m, "server returned Oracle error: "@, 0);
    lemma_prefix_char(m, "DPY-3007: the data type "@, 0);
    lemma_prefix_char(m, "DPY-5004: "@, 0);
    lemma_prefix_char(m, "DPY-5006: "@, 0);
    lemma_prefix_char(m, "DPY-"@, 0);
    lemma_prefix_char(m, "call timeout of "@, 0);
    lemma_unknown_message(m);
}

/// A message of the driver that stands for one error is raised as that error and as no other.
pub proof fn law_known_messages_name_their_error(m: Seq<char>)
    ensures
        known_message(m) == Some(FaultView::Named(ErrorName::NotConnected)) <==> m
            == "connection is closed"@,
        known_message(m) == Some(FaultView::ColumnTruncated) ==> m
            == "TTC decode failed: truncated DML RETURNING value"@,
        known_message(m) == Some(FaultView::Named(ErrorName::OracleNumberNoRepr)) ==> m
            == "TTC decode failed: NUMBER bind out of range"@,
        known_message(m) == Some(FaultView::Named(ErrorName::InvalidNumber)) ==> m
            == "TTC decode failed: invalid NUMBER bind"@,
        known_message(m) == Some(FaultView::Named(ErrorName::ContentInvalidAfterNumber)) ==> m
            == "TTC decode failed: invalid NUMBER bind suffix"@,
        known_message(m) == Some(FaultView::Named(ErrorName::NumberWithInvalidExponent)) ==> m
            == "TTC decode failed: invalid NUMBER exponent"@,
        known_message(m) == Some(FaultView::Named(ErrorName::NumberWithEmptyExponent)) ==> m
            == "TTC decode failed: empty NUMBER exponent"@,
        known_message(m) == Some(FaultView::Named(ErrorName::NumberStringTooLong)) ==> m
            == "TTC decode failed: NUMBER bind text too long"@,
        known_message(m) == Some(FaultView::Named(ErrorName::NumberStringOfZeroLength)) ==> m
            == "TTC decode failed: empty NUMBER bind"@,
{
}

/// What the server reports of a failure goes before what its message says: the number where it is
/// set, the position where it lies in the statement. The message is that of the server.
pub proof fn law_reported_details_go_first(d: ServerErrorDetails)
    ensures
        d.fault() matches FaultView::Database(e) && {
            &&& e.message == d.message@ && e.reported == d.message@
            &&& d.code != 0 ==> e.code == Some(d.code as i64)
            &&& d.code == 0 ==> e.code == ora_code(d.message@)
            &&& d.pos > 0 ==> e.offset == Some(d.pos as i64)
            &&& d.pos <= 0 ==> e.offset == ora_offset(d.message@)
        },
{
}

/// A failed call is raised by the details that the server sent, and without them by its message. The
/// connection is dropped only for an error that the server reported and that ends the session.
pub proof fn law_failed_call_is_raised_by_its_details(
    t: TaskError,
    r: (Fault, bool),
    is_session_dead: bool,
)
    requires
        t.raised(r, is_session_dead),
    ensures
        t.details matches Some(d) ==> (r.0@ matches FaultView::Database(e) && e.message
            == d.message@) && r.1 == is_session_dead,
        t.details is None ==> r.0@ == fault_of_message(t.message@) && !r.1,
{
}

/// Data that is not encoded, data that ends too early and a type that is not supported are told
/// apart; any other failure is raised by its message.
pub proof fn law_json_failures_are_told_apart(err: OsonError)
    ensures
        err is NotEncoded ==> oson_fault(err) == FaultView::Named(ErrorName::UnexpectedData),
        err is Invalid ==> oson_fault(err) == FaultView::Named(ErrorName::UnexpectedEndOfData),
        err matches OsonError::TypeNotSupported(n) ==> (
        oson_fault(err) matches FaultView::DbTypeNotSupported { name, .. } && name == n@),
        err matches OsonError::Other(m) ==> oson_fault(err) == fault_of_message(m@),
{
}

/// Exactly two errors say that a value does not suit the declared type.
pub proof fn law_two_errors_drop_a_declaration(code: Seq<char>)
    ensures
        says_type_does_not_suit(Some(code)) ==> code.len() == 8 && code.take(6) == "DPY-30"@ && (
        code[6] == '1' && code[7] == '3' || code[6] == '0' && code[7] == '4'),
        code == "DPY-3013"@ || code == "DPY-3004"@ ==> says_type_does_not_suit(Some(code)),
        !says_type_does_not_suit(None),
{
    reveal_strlit("DPY-3013");
    reveal_strlit("DPY-3004");
    reveal_strlit("DPY-30");
    if says_type_does_not_suit(Some(code)) {
        assert(code.take(6) =~= "DPY-30"@);
    }
}

/// A warning is given exactly for a statement that compiled with errors.
pub proof fn law_warning_tells_of_compilation(compiled_with_errors: bool)
    ensures
        warning_of(compiled_with_errors) is Some <==> compiled_with_errors,
        warning_of(compiled_with_errors) matches Some(n) ==> n == 7000,
{
}

/// The short name of a type is what stands behind the prefix, however often that is there.
pub proof fn law_short_name_has_no_prefix(s: Seq<char>, p: Seq<char>)
    requires
        p.len() > 0,
    ensures
        !starts_with(without_leading(s, p), p),
        without_leading(p + s, p) == without_leading(s, p),
        !starts_with(s, p) ==> without_leading(s, p) == s,
    decreases s.len(),
{
    assert((p + s).take(p.len() as int) =~= p);
    assert((p + s).skip(p.len() as int) =~= s);
    if starts_with(s, p) {
        law_short_name_has_no_prefix(s.skip(p.len() as int), p);
    }
}

/// A close fails only with an error that does not say that the peer has gone.
pub proof fn law_gone_peer_is_closed(r: Option<Fault>, m: Seq<char>)
    requires
        close_reported(r, Some(m)),
    ensures
        r is None <==> contains(m, "Broken pipe"@) || contains(
            m,
            "Transport endpoint is not connected"@,
        ),
        r matches Some(f) ==> f@ == fault_of_message(m),
        forall|ok: Option<Fault>| #[trigger] close_reported(ok, None) ==> ok is None,
{
}

/// The messages for the catalogue's errors end with, or hold in their place, what they are about.
pub proof fn law_fallback_messages_name_their_subject(
    a: Seq<char>,
    b: Seq<char>,
    n: u32,
    k: u32,
    i: i32,
)
    ensures
        (FaultView::InvalidObjectTypeName { name: a }).fallback().skip(26) == a,
        (FaultView::InvalidCollIndexGet { index: i }).fallback().skip(26) == int_text(i as int),
        (FaultView::LobOfWrongType { actual_type_name: a, expected_type_name: b }).fallback().subrange(
            25,
            (25 + a.len()) as int,
        ) == a,
        (FaultView::LobOfWrongType { actual_type_name: a, expected_type_name: b }).fallback().skip(
            (46 + a.len()) as int,
        ) == b,
        (FaultView::InconsistentDatatypes {
            input_type: a,
            output_type: b,
        }).fallback().subrange(40, (40 + a.len()) as int) == a,
        (FaultView::InconsistentDatatypes { input_type: a, output_type: b }).fallback().skip(
            (44 + a.len()) as int,
        ) == b,
        (FaultView::IncorrectVarArraysize {
            var_arraysize: n,
            required_arraysize: k,
        }).fallback().subrange(33, (33 + nat_text(n as nat).len()) as int) == nat_text(n as nat),
        (FaultView::PythonValueNotSupported { type_label: a }).fallback().subrange(
            32,
            (32 + a.len()) as int,
        ) == a,
        (FaultView::NotSupported { feature: a }).fallback().subrange(10, (10 + a.len()) as int) == a,
{
    reveal_strlit("invalid object type name: ");
    reveal_strlit("invalid collection index: ");
    reveal_strlit("DPY-3014: LOB is of type ");
    reveal_strlit(" but must be of type ");
    reveal_strlit("DPY-4007: cannot convert from data type ");
    reveal_strlit(" to ");
    reveal_strlit("DPY-2016: variable array size of ");
    reveal_strlit("DPY-3002: Python value of type \"");
    reveal_strlit("DPY-3001: ");
    assert((FaultView::InvalidObjectTypeName { name: a }).fallback().skip(26) =~= a);
    assert((FaultView::InvalidCollIndexGet { index: i }).fallback().skip(26) =~= int_text(i as int));
    let l = (FaultView::LobOfWrongType { actual_type_name: a, expected_type_name: b }).fallback();
    assert(l.subrange(25, (25 + a.len()) as int) =~= a);
    assert(l.skip((46 + a.len()) as int) =~= b);
    let c = (FaultView::InconsistentDatatypes { input_type: a, output_type: b }).fallback();
    assert(c.subrange(40, (40 + a.len()) as int) =~= a);
    assert(c.skip((44 + a.len()) as int) =~= b);
    let v = (FaultView::IncorrectVarArraysize {
        var_arraysize: n,
        required_arraysize: k,
    }).fallback();
    assert(v.subrange(33, (33 + nat_text(n as nat).len()) as int) =~= nat_text(n as nat));
    assert((FaultView::PythonValueNotSupported { type_label: a }).fallback().subrange(
        32,
        (32 + a.len()) as int,
    ) =~= a);
    assert((FaultView::NotSupported { feature: a }).fallback().subrange(10, (10 + a.len()) as int)
        =~= a);
}

/// An error that is built from a message carries that message, and the number that the message begins
/// with.
pub proof fn law_message_begins_with_its_number(digits: Seq<char>, rest: Seq<char>)
    requires
        digits.len() == 5,
        all_digits(digits),
    ensures
        database_view("ORA-"@ + digits + rest) matches FaultView::Database(e) && e.message == "ORA-"@
            + digits + rest && e.code == Some(digits_value(digits) as i64) && e.reported
            == e.message,
{
    law_error_number_stands_behind_ora(Seq::empty(), digits, rest);
    assert(Seq::<char>::empty() + "ORA-"@ + digits + rest =~= "ORA-"@ + digits + rest);
}

/// The number of a literal message.
pub proof fn lemma_ora_number(m: Seq<char>, a: nat, b: nat, c: nat, d: nat, e: nat)
    requires
        m.len() >= 9,
        m.take(4) == "ORA-"@,
        a < 10 && b < 10 && c < 10 && d < 10 && e < 10,
        is_digit(m[4]) && m[4] as u32 - '0' as u32 == a,
        is_digit(m[5]) && m[5] as u32 - '0' as u32 == b,
        is_digit(m[6]) && m[6] as u32 - '0' as u32 == c,
        is_digit(m[7]) && m[7] as u32 - '0' as u32 == d,
        is_digit(m[8]) && m[8] as u32 - '0' as u32 == e,
    ensures
        ora_code(m) == Some((((((a * 10 + b) * 10 + c) * 10 + d) * 10) + e) as i64),
{
    reveal_strlit("ORA-");
    let s = m.subrange(4, 9);
    assert(m =~= Seq::<char>::empty() + "ORA-"@ + s + m.skip(9)) by {
        assert forall|i: int| 0 <= i < 4 implies m[i] == "ORA-"@[i] by {
            assert(m.take(4)[i] == m[i]);
        }
    }
    assert(s[0] == m[4] && s[1] == m[5] && s[2] == m[6] && s[3] == m[7] && s[4] == m[8]);
    law_error_number_stands_behind_ora(Seq::empty(), s, m.skip(9));
    let s4 = s.drop_last();
    let s3 = s4.drop_last();
    let s2 = s3.drop_last();
    let s1 = s2.drop_last();
    reveal_with_fuel(digits_value, 6);
    assert(s.last() == m[8] && s4.last() == m[7] && s3.last() == m[6] && s2.last() == m[5]
        && s1.last() == m[4]);
    assert(s1.drop_last().len() == 0);
    assert(digits_value(s1) == a);
    assert(digits_value(s2) == a * 10 + b);
    assert(digits_value(s3) == (a * 10 + b) * 10 + c);
    assert(digits_value(s4) == ((a * 10 + b) * 10 + c) * 10 + d);
}

} // verus!
