use oracledb_pyshim::catalogue::Argument;
use oracledb_pyshim::decimal::{i64_text, read_signed, read_unsigned, u64_text};
use oracledb_pyshim::errors::{
    close_result, database_error, dpy_database_error, is_setinputsizes_fallback_error,
    not_implemented, ora_cancel_error, oson_error_to_fault, parse_ora_code, parse_ora_offset,
    query_result_warning, runtime_error, short_db_type_name, ErrorName, Fault, OsonError,
    ServerErrorDetails, TaskError,
};
use oracledb_pyshim::text::{
    chars_of, find_chars, join3, same_text_ignoring_case, slice_text, text_of, to_lower, to_upper,
    trim_both_of, trim_chars, trim_end_of,
};

#[test]
fn numbers_are_written_and_read_back() {
    for n in [0u64, 7, 10, 99, 100, 4294967295, 18446744073709551615] {
        assert_eq!(u64_text(n), n.to_string());
        assert_eq!(read_unsigned(&u64_text(n), u64::MAX), Some(n));
    }
    for n in [0i64, -1, 42, -42, i64::MAX, i64::MIN] {
        assert_eq!(i64_text(n), n.to_string());
        assert_eq!(read_signed(&i64_text(n), i64::MIN, i64::MAX), Some(n));
    }
}

#[test]
fn numbers_out_of_range_or_malformed_are_not_read() {
    assert_eq!(read_unsigned("256", 255), None);
    assert_eq!(read_unsigned("+255", 255), Some(255));
    assert_eq!(read_unsigned("", 255), None);
    assert_eq!(read_unsigned("-1", 255), None);
    assert_eq!(read_unsigned("1 ", 255), None);
    assert_eq!(read_signed("-129", -128, 127), None);
    assert_eq!(read_signed("-128", -128, 127), Some(-128));
    assert_eq!(read_signed("-", -128, 127), None);
}

#[test]
fn case_changes_only_ascii_letters() {
    assert_eq!(to_upper("abcZ1_\u{e9}"), "ABCZ1_\u{e9}");
    assert_eq!(to_lower("ABCz1_\u{c9}"), "abcz1_\u{c9}");
    assert_eq!(to_upper(&to_upper("MiXed")), to_upper("MiXed"));
    assert!(same_text_ignoring_case("Name", "nAME"));
    assert!(!same_text_ignoring_case("Name", "Names"));
}

#[test]
fn texts_are_cut_and_joined() {
    let v = chars_of("  a b\u{2003}");
    assert_eq!(text_of(&trim_chars(&v)), "a b");
    assert_eq!(slice_text(&v, 2, 5), "a b");
    assert_eq!(text_of(&trim_end_of(&chars_of("a;;"), ';')), "a");
    assert_eq!(text_of(&trim_both_of(&chars_of("\"a\""), '"')), "a");
    assert_eq!(find_chars(&chars_of("abcabc"), &chars_of("ca"), 0), Some(2));
    assert_eq!(find_chars(&chars_of("abcabc"), &chars_of("ab"), 1), Some(3));
    assert_eq!(find_chars(&chars_of("abc"), &chars_of("d"), 0), None);
    assert_eq!(join3("a", "\u{1F600}", "c"), "a\u{1F600}c");
}

#[test]
fn oracle_codes_are_parsed() {
    assert_eq!(parse_ora_code("ORA-01745: invalid host/bind variable name"), Some(1745));
    assert_eq!(parse_ora_code("no code"), None);
    assert_eq!(parse_ora_offset("no offset"), None);
}

fn database(f: Fault) -> (String, Option<i64>, Option<i64>) {
    match f {
        Fault::Database(e) => (e.message, e.code, e.offset),
        other => panic!("{:?}", other),
    }
}

#[test]
fn server_messages_become_database_errors() {
    let f = runtime_error("server returned Oracle error: ORA-00942: table or view does not exist");
    assert_eq!(
        database(f),
        ("ORA-00942: table or view does not exist".to_string(), Some(942), None)
    );
    let f = runtime_error("server returned Oracle error: ORA-00942: table or view does not exist");
    assert_eq!(
        f.fallback_text(),
        "server returned Oracle error: ORA-00942: table or view does not exist"
    );
    assert_eq!(runtime_error("DPY-4011: lost").fallback_text(), "DPY-4011: lost");
    assert_eq!(runtime_error("no such thing").fallback_text(), "no such thing");
    let g = database_error("ORA-00001: unique constraint violated");
    assert_eq!(database(g).1, Some(1));
    let (m, code, _) = database(dpy_database_error("DPY-1001", "not connected to database"));
    assert_eq!(m, "DPY-1001: not connected to database");
    assert_eq!(code, None);
    let (m, code, _) = database(ora_cancel_error());
    assert_eq!(m, "ORA-01013: user requested cancel of current operation");
    assert_eq!(code, Some(1013));
}

#[test]
fn specific_prefixes_come_before_the_general_one() {
    assert!(matches!(runtime_error("DPY-5004: x"), Fault::Named(ErrorName::UnexpectedData)));
    assert!(matches!(runtime_error("DPY-5006: x"), Fault::Named(ErrorName::UnexpectedEndOfData)));
    match runtime_error("DPY-3007: the data type DB_TYPE_X is not supported") {
        Fault::DbTypeNotSupported { name, message } => {
            assert_eq!(name, "DB_TYPE_X");
            assert_eq!(message, "DPY-3007: the data type DB_TYPE_X is not supported");
        }
        other => panic!("{:?}", other),
    }
    assert_eq!(database(runtime_error("DPY-4011: lost")).0, "DPY-4011: lost");
}

#[test]
fn known_messages_name_errors_of_the_catalogue() {
    let cases = [
        ("connection is closed", ErrorName::NotConnected),
        ("TTC decode failed: NUMBER bind out of range", ErrorName::OracleNumberNoRepr),
        ("TTC decode failed: invalid NUMBER bind", ErrorName::InvalidNumber),
        ("TTC decode failed: invalid NUMBER bind suffix", ErrorName::ContentInvalidAfterNumber),
        ("TTC decode failed: invalid NUMBER exponent", ErrorName::NumberWithInvalidExponent),
        ("TTC decode failed: empty NUMBER exponent", ErrorName::NumberWithEmptyExponent),
        ("TTC decode failed: NUMBER bind text too long", ErrorName::NumberStringTooLong),
        ("TTC decode failed: empty NUMBER bind", ErrorName::NumberStringOfZeroLength),
    ];
    for (message, name) in cases {
        match runtime_error(message) {
            Fault::Named(n) => assert_eq!(n, name),
            other => panic!("{:?}", other),
        }
    }
    assert!(matches!(
        runtime_error("TTC decode failed: truncated DML RETURNING value"),
        Fault::ColumnTruncated
    ));
    assert!(matches!(
        runtime_error("call timeout of 5000 ms exceeded"),
        Fault::CallTimeoutExceeded { timeout: 5000 }
    ));
    match runtime_error("call timeout of 4294967296 ms exceeded") {
        Fault::Runtime(m) => assert_eq!(m, "call timeout of 4294967296 ms exceeded"),
        other => panic!("{:?}", other),
    }
    assert_eq!(ErrorName::NotConnected.name(), "ERR_NOT_CONNECTED");
}

#[test]
fn fallback_texts_are_complete() {
    assert_eq!(Fault::Named(ErrorName::NoStatement).fallback_text(), "ERR_NO_STATEMENT");
    assert_eq!(
        Fault::IncorrectVarArraysize { var_arraysize: 2, required_arraysize: 10 }.fallback_text(),
        "DPY-2016: variable array size of 2 is too small (should be at least 10)"
    );
    assert_eq!(
        Fault::PythonValueNotSupported { type_label: "set".to_string() }.fallback_text(),
        "DPY-3002: Python value of type \"set\" is not supported"
    );
    assert_eq!(
        Fault::UnsupportedTypeSet { db_type_name: "X".to_string() }.fallback_text(),
        "type X does not support being set"
    );
    assert!(not_implemented("soda.x").fallback_text().contains("soda.x"));
}

fn details(code: u32, pos: i32) -> ServerErrorDetails {
    ServerErrorDetails {
        message: "ORA-00001: no".to_string(),
        code,
        pos,
        row_count: 3,
        rowid: None,
        array_dml_row_counts: None,
    }
}

#[test]
fn details_prefer_reported_numbers() {
    assert_eq!(
        database(details(4043, 7).to_fault()),
        ("ORA-00001: no".to_string(), Some(4043), Some(7))
    );
    assert_eq!(
        database(details(0, 0).to_fault()),
        ("ORA-00001: no".to_string(), Some(1), None)
    );
}

#[test]
fn only_details_can_end_the_session() {
    let plain = TaskError { message: "x".to_string(), details: None };
    assert!(!plain.raise(true).1);
    let with = TaskError { message: "x".to_string(), details: Some(details(28, 0)) };
    assert!(with.raise(true).1);
    assert!(!with.raise(false).1);
    assert_eq!(database(with.raise(true).0).1, Some(28));
}

#[test]
fn json_codec_errors_are_mapped() {
    assert!(matches!(
        oson_error_to_fault(&OsonError::NotEncoded),
        Fault::Named(ErrorName::UnexpectedData)
    ));
    assert!(matches!(
        oson_error_to_fault(&OsonError::Invalid),
        Fault::Named(ErrorName::UnexpectedEndOfData)
    ));
    match oson_error_to_fault(&OsonError::TypeNotSupported("T".to_string())) {
        Fault::DbTypeNotSupported { name, .. } => assert_eq!(name, "T"),
        other => panic!("{:?}", other),
    }
    assert!(matches!(
        oson_error_to_fault(&OsonError::Other("connection is closed".to_string())),
        Fault::Named(ErrorName::NotConnected)
    ));
}

#[test]
fn small_error_rules() {
    assert!(is_setinputsizes_fallback_error(Some("DPY-3013")));
    assert!(is_setinputsizes_fallback_error(Some("DPY-3004")));
    assert!(!is_setinputsizes_fallback_error(Some("DPY-3002")));
    assert!(!is_setinputsizes_fallback_error(None));
    assert_eq!(query_result_warning(true), Some(7000));
    assert_eq!(query_result_warning(false), None);
    assert_eq!(short_db_type_name("DB_TYPE_DATE"), "DATE");
    assert_eq!(short_db_type_name("DATE"), "DATE");
    assert!(close_result(None).is_none());
    assert!(close_result(Some("io: Broken pipe (os error 32)")).is_none());
    assert!(close_result(Some("Transport endpoint is not connected")).is_none());
    assert!(matches!(
        close_result(Some("connection is closed")),
        Some(Fault::Named(ErrorName::NotConnected))
    ));
}

fn entry(f: Fault) -> (ErrorName, Vec<(&'static str, String)>) {
    let e = f.entry().expect("an entry of the catalogue");
    let arguments = e
        .arguments
        .into_iter()
        .map(|a| match a.value {
            Argument::Text(s) => (a.name, s),
            Argument::Signed(n) => (a.name, n.to_string()),
            Argument::Unsigned(n) => (a.name, n.to_string()),
            Argument::TypeOf(s) => (a.name, format!("<{}>", s)),
        })
        .collect();
    (e.name, arguments)
}

#[test]
fn catalogue_entries_take_arguments() {
    let s = |t: &str| t.to_string();
    assert_eq!(entry(Fault::Named(ErrorName::NotAQuery)), (ErrorName::NotAQuery, vec![]));
    assert_eq!(
        entry(Fault::ColumnTruncated),
        (
            ErrorName::ColumnTruncated,
            vec![("col_value_len", s("0")), ("unit", s("characters")), ("actual_len", s("0"))]
        )
    );
    assert_eq!(
        entry(Fault::InvalidCollIndexSet { index: -1, min_index: 0, max_index: 4 }).1,
        vec![("index", s("-1")), ("min_index", s("0")), ("max_index", s("4"))]
    );
    assert_eq!(
        entry(Fault::PythonTypeNotSupported { type_label: s("list") }),
        (ErrorName::PythonTypeNotSupported, vec![("typ", s("<list>"))])
    );
    let unsupported = Fault::UnsupportedPythonType {
        py_type_name: s("str"),
        db_type_name: s("DB_TYPE_NUMBER"),
    };
    assert_eq!(
        entry(unsupported),
        (
            ErrorName::UnsupportedPythonTypeForDbType,
            vec![("py_type_name", s("str")), ("db_type_name", s("NUMBER"))]
        )
    );
    let too_large = Fault::ElementMaxSize {
        index: 2,
        type_label: s("HR.T"),
        actual_size: 9,
        max_size: 3,
    };
    assert_eq!(
        entry(too_large),
        (
            ErrorName::DbobjectElementMaxSizeViolated,
            vec![
                ("index", s("2")),
                ("type_name", s("HR.T")),
                ("actual_size", s("9")),
                ("max_size", s("3"))
            ]
        )
    );
    assert!(Fault::Runtime(s("x")).entry().is_none());
    assert!(Fault::NotSupported { feature: s("x") }.entry().is_none());
    assert!(database_error("ORA-00942: x").entry().is_none());
}
