use oracledb_pyshim::errors::{ErrorName, Fault};
use oracledb_pyshim::lobbinds::{
    bind_temp_lob, materialize_plsql_long_binds, materialize_typed_lob_bind_values,
    plsql_long_bind_hint, promote_oversized_plsql_bind_hints, return_kind_from_type_name,
    temp_lob_for, typed_lob_bind_hint_from_type_name, typed_lob_bind_hints, LobHint, ReturnKind,
};
use oracledb_pyshim::pyvalue::{
    array_bind, array_capacity, bind_optional_text, bind_template_from_input_size,
    check_direct_path_batch_size, dbobject_value_byte_size, encode_utf16_be, interval_ds_to_py, number_flag_text,
    oson_key_error, py_date_time_fields, py_dbobject_element_to_bind, py_value_to_bind, py_value_to_bind_with_template,
    py_value_to_direct_path, py_value_to_oson, scalar_value_to_memory_lob, split_timedelta,
    untyped_array_info, verify_direct_path_widths, Conversion, CursorFacet, DateParts,
    DirectPathValue, InputSizeSpec, IntervalParts, LobContent, MemoryLobError, OsonConversion,
    PyFacets, TargetColumn, TemplateChoice, TimeDelta, TimeDeltaArgs, YearMonth,
};
use oracledb_pyshim::value::{
    bind_rows_need_iterative_plsql, bind_value_is_output, plsql_output_bind_keeps, utf8_bytes,
    BindValue, CsForm, DateTimeFields, OraType, TypeInfo,
};

fn facets() -> PyFacets {
    PyFacets {
        is_none: false,
        is_var: false,
        boolean: None,
        truthy: false,
        cursor: None,
        is_lob: false,
        is_object: false,
        bytes: None,
        interval_ym: None,
        is_vector: false,
        is_list: false,
        is_tuple: false,
        is_dict: false,
        datetime: None,
        text: None,
        integer: None,
        float: None,
        timedelta: None,
        is_int: false,
        is_float: false,
        is_decimal: false,
        str_text: String::new(),
        type_label: "thing".to_string(),
    }
}

fn none() -> PyFacets {
    PyFacets { is_none: true, ..facets() }
}

fn text(s: &str) -> PyFacets {
    PyFacets { text: Some(s.to_string()), ..facets() }
}

fn bytes(b: &[u8]) -> PyFacets {
    PyFacets { bytes: Some(b.to_vec()), ..facets() }
}

fn noon() -> DateTimeFields {
    DateTimeFields { year: 2024, month: 2, day: 29, hour: 12, minute: 30, second: 1, nanosecond: 5000 }
}

#[test]
fn python_values_become_bind_values() {
    assert!(matches!(py_value_to_bind(none()), Ok(Conversion::Ready(BindValue::Null))));
    let var = PyFacets { is_var: true, boolean: Some(true), ..facets() };
    assert!(matches!(py_value_to_bind(var), Ok(Conversion::Variable)));
    let flag = PyFacets { boolean: Some(true), integer: Some("1".to_string()), ..facets() };
    assert!(matches!(
        py_value_to_bind(flag),
        Ok(Conversion::Ready(BindValue::Boolean(true)))
    ));
    match py_value_to_bind(text("abc")) {
        Ok(Conversion::Ready(BindValue::Text(t))) => assert_eq!(t, "abc"),
        _ => panic!("text"),
    }
    match py_value_to_bind(bytes(&[1, 2])) {
        Ok(Conversion::Ready(BindValue::Raw(b))) => assert_eq!(b, vec![1, 2]),
        _ => panic!("raw"),
    }
    let both = PyFacets {
        integer: Some("5".to_string()),
        float: Some("5.0".to_string()),
        ..facets()
    };
    match py_value_to_bind(both) {
        Ok(Conversion::Ready(BindValue::Number(n))) => assert_eq!(n, "5"),
        _ => panic!("number"),
    }
    let date = PyFacets { datetime: Some(noon()), ..facets() };
    assert!(matches!(
        py_value_to_bind(date),
        Ok(Conversion::Ready(BindValue::DateTime(d))) if d == noon()
    ));
    let ym = PyFacets { interval_ym: Some(YearMonth { years: 1, months: 2 }), ..facets() };
    assert!(matches!(
        py_value_to_bind(ym),
        Ok(Conversion::Ready(BindValue::IntervalYM { years: 1, months: 2 }))
    ));
    let delta = TimeDelta { days: 1, seconds: 2, microseconds: 3 };
    assert!(matches!(
        py_value_to_bind(PyFacets { timedelta: Some(delta), ..facets() }),
        Ok(Conversion::Ready(BindValue::IntervalDS { days: 1, seconds: 2, microseconds: 3 }))
    ));
    assert!(matches!(
        py_value_to_bind(PyFacets { is_tuple: true, ..facets() }),
        Ok(Conversion::Sequence)
    ));
    assert!(matches!(py_value_to_bind(PyFacets { is_lob: true, ..facets() }), Ok(Conversion::Lob)));
    assert!(matches!(
        py_value_to_bind(PyFacets { is_object: true, ..facets() }),
        Ok(Conversion::Object)
    ));
    assert!(matches!(
        py_value_to_bind(PyFacets { is_vector: true, ..facets() }),
        Ok(Conversion::Vector { accept_list: false })
    ));
}

#[test]
fn cursors_are_bound_when_open() {
    let open = PyFacets { cursor: Some(CursorFacet::Open { cursor_id: 9 }), ..facets() };
    assert!(matches!(
        py_value_to_bind(open),
        Ok(Conversion::Ready(BindValue::Cursor { cursor_id: 9 }))
    ));
    let closed = PyFacets { cursor: Some(CursorFacet::NotOpen), ..facets() };
    assert!(matches!(
        py_value_to_bind(closed),
        Err(Fault::Named(ErrorName::CursorNotOpen))
    ));
    let foreign = PyFacets { cursor: Some(CursorFacet::Foreign), ..facets() };
    match py_value_to_bind(foreign) {
        Err(Fault::PythonValueNotSupported { type_label }) => assert_eq!(type_label, "thing"),
        _ => panic!("unsupported"),
    }
}

#[test]
fn a_declared_type_decides_the_conversion() {
    let flag = PyFacets { boolean: Some(true), truthy: true, ..facets() };
    assert!(matches!(
        py_value_to_bind_with_template(flag, Some(OraType::Number)),
        Ok(Conversion::NumberFlag(true))
    ));
    assert_eq!(number_flag_text(true), "1");
    assert_eq!(number_flag_text(false), "0");
    let decimal = PyFacets {
        type_label: "Decimal".to_string(),
        str_text: "1.50".to_string(),
        float: Some("1.5".to_string()),
        ..facets()
    };
    match py_value_to_bind_with_template(decimal, Some(OraType::Number)) {
        Ok(Conversion::Ready(BindValue::Number(n))) => assert_eq!(n, "1.50"),
        _ => panic!("decimal"),
    }
    let date = PyFacets { datetime: Some(noon()), ..facets() };
    assert!(matches!(
        py_value_to_bind_with_template(date, Some(OraType::TimestampTz)),
        Ok(Conversion::Ready(BindValue::Timestamp { ora_type: OraType::TimestampTz, .. }))
    ));
    assert!(matches!(
        py_value_to_bind_with_template(none(), Some(OraType::Boolean)),
        Ok(Conversion::Template)
    ));
    assert!(matches!(
        py_value_to_bind_with_template(none(), Some(OraType::BinaryInteger)),
        Ok(Conversion::Ready(BindValue::Null))
    ));
    assert!(matches!(
        py_value_to_bind_with_template(facets(), Some(OraType::BinaryInteger)),
        Ok(Conversion::BinaryInteger)
    ));
    assert!(matches!(
        py_value_to_bind_with_template(facets(), Some(OraType::BinaryDouble)),
        Ok(Conversion::BinaryDouble)
    ));
    assert!(matches!(
        py_value_to_bind_with_template(facets(), Some(OraType::Vector)),
        Ok(Conversion::Vector { accept_list: true })
    ));
    assert!(matches!(
        py_value_to_bind_with_template(facets(), Some(OraType::Json)),
        Ok(Conversion::Json)
    ));
    assert!(matches!(
        py_value_to_bind_with_template(text("x"), None),
        Ok(Conversion::Ready(BindValue::Text(_)))
    ));
}

#[test]
fn arrays_take_the_first_known_type() {
    let info = TypeInfo { ora_type: OraType::Number, csfrm: CsForm::Unset, buffer_size: 22 };
    let values = vec![None, Some(BindValue::Number("1".to_string()))];
    match array_bind(values, &vec![None, Some(info)], untyped_array_info()) {
        BindValue::Array { info: i, max_elements, values } => {
            assert_eq!(i, info);
            assert_eq!(max_elements, 2);
            assert_eq!(values.len(), 2);
        }
        _ => panic!("array"),
    }
    match array_bind(vec![], &vec![], untyped_array_info()) {
        BindValue::Array { info, max_elements, .. } => {
            assert_eq!(info.ora_type, OraType::Varchar);
            assert_eq!(info.buffer_size, 1);
            assert_eq!(max_elements, 1);
        }
        _ => panic!("array"),
    }
    assert_eq!(array_capacity(0), 1);
    assert_eq!(array_capacity(17), 17);
}

#[test]
fn dates_without_time_start_at_midnight() {
    let parts = DateParts {
        year: Some(2024),
        month: Some(1),
        day: Some(31),
        hour: None,
        minute: None,
        second: None,
        microsecond: None,
    };
    let d = py_date_time_fields(parts).unwrap();
    assert_eq!((d.year, d.month, d.day, d.hour, d.nanosecond), (2024, 1, 31, 0, 0));
    let e = py_date_time_fields(DateParts { microsecond: Some(12), hour: Some(3), ..parts }).unwrap();
    assert_eq!((e.hour, e.nanosecond), (3, 12000));
    assert!(py_date_time_fields(DateParts { year: None, ..parts }).is_none());
}

#[test]
fn intervals_survive_a_round_trip() {
    let t = TimeDelta { days: -3, seconds: 86399, microseconds: 999999 };
    let p = split_timedelta(t);
    assert_eq!(
        p,
        IntervalParts { days: -3, hours: 23, minutes: 59, seconds: 59, fseconds: 999999000 }
    );
    assert_eq!(
        interval_ds_to_py(p),
        TimeDeltaArgs { days: -3, seconds: 86399, microseconds: 999999 }
    );
    let negative = IntervalParts { days: 0, hours: -1, minutes: -2, seconds: -3, fseconds: -1999 };
    assert_eq!(
        interval_ds_to_py(negative),
        TimeDeltaArgs { days: 0, seconds: -3723, microseconds: -1 }
    );
}

#[test]
fn json_values_are_classified() {
    assert!(matches!(py_value_to_oson(none()), Ok(OsonConversion::Null)));
    let flag = PyFacets { boolean: Some(false), is_int: true, ..facets() };
    assert!(matches!(py_value_to_oson(flag), Ok(OsonConversion::Bool(false))));
    let int = PyFacets { is_int: true, str_text: "12".to_string(), ..facets() };
    match py_value_to_oson(int) {
        Ok(OsonConversion::Number(n)) => assert_eq!(n, "12"),
        _ => panic!("number"),
    }
    assert!(matches!(
        py_value_to_oson(PyFacets { is_dict: true, ..facets() }),
        Ok(OsonConversion::Object)
    ));
    assert!(matches!(
        py_value_to_oson(PyFacets { is_list: true, ..facets() }),
        Ok(OsonConversion::Array)
    ));
    let t = TimeDelta { days: 1, seconds: 61, microseconds: 0 };
    assert!(matches!(
        py_value_to_oson(PyFacets { timedelta: Some(t), ..facets() }),
        Ok(OsonConversion::IntervalDS(IntervalParts { days: 1, minutes: 1, seconds: 1, .. }))
    ));
    match py_value_to_oson(facets()) {
        Err(Fault::PythonTypeNotSupported { type_label }) => assert_eq!(type_label, "thing"),
        _ => panic!("unsupported"),
    }
    assert!(matches!(oson_key_error(), Fault::Named(ErrorName::PythonTypeNotSupported)));
}

#[test]
fn texts_are_encoded() {
    assert_eq!(encode_utf16_be("A\u{e9}"), vec![0x00, 0x41, 0x00, 0xe9]);
    assert_eq!(encode_utf16_be("\u{1F600}"), vec![0xd8, 0x3d, 0xde, 0x00]);
    assert_eq!(utf8_bytes("\u{e9}"), vec![0xc3, 0xa9]);
}

#[test]
fn direct_path_values() {
    let varchar = Some(TargetColumn { ora_type: OraType::Varchar, is_nchar: false });
    let nchar = Some(TargetColumn { ora_type: OraType::Varchar, is_nchar: true });
    let number = Some(TargetColumn { ora_type: OraType::Number, is_nchar: false });
    assert!(matches!(py_value_to_direct_path(none(), None), Ok(DirectPathValue::Null)));
    assert!(matches!(py_value_to_direct_path(text(""), varchar), Ok(DirectPathValue::Null)));
    match py_value_to_direct_path(text("ab"), varchar) {
        Ok(DirectPathValue::Bytes(b)) => assert_eq!(b, vec![97, 98]),
        _ => panic!("bytes"),
    }
    match py_value_to_direct_path(text("a"), nchar) {
        Ok(DirectPathValue::Bytes(b)) => assert_eq!(b, vec![0, 97]),
        _ => panic!("bytes"),
    }
    let flag = || PyFacets {
        boolean: Some(true),
        truthy: true,
        is_int: true,
        str_text: "True".to_string(),
        ..facets()
    };
    assert!(matches!(
        py_value_to_direct_path(flag(), varchar),
        Ok(DirectPathValue::Boolean(true))
    ));
    assert!(matches!(py_value_to_direct_path(flag(), number), Ok(DirectPathValue::Number(_))));
    let float = Some(TargetColumn { ora_type: OraType::BinaryFloat, is_nchar: false });
    let double = Some(TargetColumn { ora_type: OraType::BinaryDouble, is_nchar: false });
    let int = || PyFacets { is_int: true, str_text: "7".to_string(), ..facets() };
    assert!(matches!(py_value_to_direct_path(int(), float), Ok(DirectPathValue::BinaryFloat)));
    assert!(matches!(py_value_to_direct_path(int(), double), Ok(DirectPathValue::BinaryDouble)));
    let raw = Some(TargetColumn { ora_type: OraType::Raw, is_nchar: false });
    match py_value_to_direct_path(int(), raw) {
        Err(Fault::Database(e)) => {
            assert_eq!(e.message, "DPY-3002: Python value of type \"thing\" is not supported")
        }
        _ => panic!("unsupported"),
    }
}

#[test]
fn direct_path_rows_have_one_value_per_column() {
    assert!(verify_direct_path_widths(&vec![2, 2], 2).is_none());
    match verify_direct_path_widths(&vec![2, 3, 1], 2) {
        Some(Fault::Database(e)) => assert_eq!(
            e.message,
            "DPY-4009: 2 positional bind values are required but 3 were provided"
        ),
        _ => panic!("widths"),
    }
    assert!(check_direct_path_batch_size(1).is_none());
    assert!(matches!(check_direct_path_batch_size(0), Some(Fault::TypeError(_))));
}

#[test]
fn input_sizes_choose_templates() {
    assert_eq!(
        bind_template_from_input_size(&InputSizeSpec::Size(0)),
        TemplateChoice::Varchar { buffer_size: 1 }
    );
    assert_eq!(
        bind_template_from_input_size(&InputSizeSpec::Size(30)),
        TemplateChoice::Varchar { buffer_size: 30 }
    );
    assert_eq!(
        bind_template_from_input_size(&InputSizeSpec::TypeAndSize { size: Some(5) }),
        TemplateChoice::FirstItem { size: 5 }
    );
    assert_eq!(
        bind_template_from_input_size(&InputSizeSpec::TypeAndSize { size: None }),
        TemplateChoice::FirstItem { size: 0 }
    );
    assert_eq!(bind_template_from_input_size(&InputSizeSpec::Type), TemplateChoice::Whole);
    assert!(matches!(bind_optional_text(None), BindValue::Null));
    assert!(matches!(bind_optional_text(Some("a".to_string())), BindValue::Text(_)));
}

#[test]
fn values_for_lob_columns_are_held_in_memory() {
    assert!(matches!(scalar_value_to_memory_lob(text("x"), "DB_TYPE_VARCHAR"), Ok(None)));
    assert!(matches!(scalar_value_to_memory_lob(none(), "DB_TYPE_CLOB"), Ok(None)));
    let blob = scalar_value_to_memory_lob(text("\u{e9}"), "DB_TYPE_BLOB").ok().unwrap().unwrap();
    assert_eq!((blob.ora_type, blob.csfrm, blob.size), (OraType::Blob, CsForm::Unset, 2));
    assert!(matches!(blob.content, LobContent::Bytes(b) if b == vec![0xc3, 0xa9]));
    let clob =
        scalar_value_to_memory_lob(bytes("\u{e9}".as_bytes()), "DB_TYPE_NCLOB").ok().unwrap().unwrap();
    assert_eq!((clob.ora_type, clob.csfrm, clob.size), (OraType::Clob, CsForm::Nchar, 1));
    assert!(matches!(clob.content, LobContent::Text(t) if t == "\u{e9}"));
    assert!(matches!(
        scalar_value_to_memory_lob(bytes(&[0xff]), "DB_TYPE_CLOB"),
        Err(MemoryLobError::NotUtf8)
    ));
    assert!(matches!(
        scalar_value_to_memory_lob(facets(), "DB_TYPE_CLOB"),
        Err(MemoryLobError::NotText)
    ));
}

#[test]
fn outputs_and_iterative_plsql() {
    let info = TypeInfo { ora_type: OraType::Number, csfrm: CsForm::Unset, buffer_size: 22 };
    assert!(bind_value_is_output(&BindValue::Output(info)));
    assert!(bind_value_is_output(&BindValue::ReturnOutput(info)));
    assert!(!bind_value_is_output(&BindValue::Null));
    assert!(!plsql_output_bind_keeps(&BindValue::Null));
    assert!(!plsql_output_bind_keeps(&BindValue::TypedNull(info)));
    assert!(!plsql_output_bind_keeps(&BindValue::Output(info)));
    assert!(!plsql_output_bind_keeps(&BindValue::Cursor { cursor_id: 0 }));
    assert!(plsql_output_bind_keeps(&BindValue::Cursor { cursor_id: 4 }));
    assert!(plsql_output_bind_keeps(&BindValue::Text("x".to_string())));
    assert!(plsql_output_bind_keeps(&BindValue::Boolean(true)));
    assert!(plsql_output_bind_keeps(&BindValue::IntervalYM { years: 1, months: 2 }));
    assert!(plsql_output_bind_keeps(&BindValue::Json(vec![1])));
    assert!(plsql_output_bind_keeps(&BindValue::Array { info, max_elements: 1, values: vec![] }));
    let rows = vec![vec![BindValue::Null], vec![BindValue::Output(info)]];
    assert!(bind_rows_need_iterative_plsql(true, &rows));
    assert!(!bind_rows_need_iterative_plsql(false, &rows));
    assert!(!bind_rows_need_iterative_plsql(true, &vec![vec![BindValue::Null]]));
}

fn clob() -> LobHint {
    LobHint { ora_type: OraType::Clob, csfrm: CsForm::Implicit }
}

#[test]
fn lob_types_give_hints() {
    assert_eq!(typed_lob_bind_hint_from_type_name("DB_TYPE_CLOB"), Some(clob()));
    assert_eq!(
        typed_lob_bind_hint_from_type_name("DB_TYPE_NCLOB"),
        Some(LobHint { ora_type: OraType::Clob, csfrm: CsForm::Nchar })
    );
    assert_eq!(
        typed_lob_bind_hint_from_type_name("DB_TYPE_BLOB").map(|h| h.ora_type),
        Some(OraType::Blob)
    );
    assert_eq!(typed_lob_bind_hint_from_type_name("DB_TYPE_NUMBER"), None);
    let names = vec!["DB_TYPE_NUMBER".to_string(), "DB_TYPE_CLOB".to_string()];
    assert_eq!(typed_lob_bind_hints(&names), vec![None, Some(clob())]);
    assert_eq!(return_kind_from_type_name("DB_TYPE_NUMBER"), ReturnKind::Plain);
}

#[test]
fn long_plsql_binds_become_temporary_lobs() {
    let long = "x".repeat(32768);
    let short = "x".repeat(32767);
    assert_eq!(plsql_long_bind_hint(&BindValue::Text(short.clone())), None);
    assert_eq!(
        plsql_long_bind_hint(&BindValue::Text(long.clone())).map(|h| h.ora_type),
        Some(OraType::Clob)
    );
    assert_eq!(
        plsql_long_bind_hint(&BindValue::Raw(vec![0; 32768])).map(|h| h.ora_type),
        Some(OraType::Blob)
    );
    let mut values = vec![BindValue::Text(short), BindValue::Text(long)];
    let mut hints = vec![None, None];
    promote_oversized_plsql_bind_hints(true, &values, &mut hints);
    assert_eq!(hints[0], None);
    assert!(hints[1].is_some());
    let mut unchanged = vec![None, None];
    promote_oversized_plsql_bind_hints(false, &values, &mut unchanged);
    assert_eq!(unchanged, vec![None, None]);
    let temps = materialize_typed_lob_bind_values(&values, &hints);
    assert!(temps[0].is_none());
    assert!(temps[1].unwrap().writes);
    assert_eq!(materialize_plsql_long_binds(&values)[1].map(|t| t.writes), Some(true));
    bind_temp_lob(&mut values, 1, hints[1].unwrap(), vec![9, 9]);
    assert!(matches!(
        &values[1],
        BindValue::Lob { ora_type: OraType::Clob, locator, .. } if *locator == vec![9, 9]
    ));
    assert!(materialize_typed_lob_bind_values(&values, &hints)[1].is_none());
    assert!(materialize_plsql_long_binds(&values).iter().all(|t| t.is_none()));
    assert!(temp_lob_for(&BindValue::Null, None).is_none());
}

#[test]
fn elements_of_objects_are_bound() {
    match py_dbobject_element_to_bind(text("\u{e9}"), "DB_TYPE_BLOB") {
        Ok(Conversion::Ready(BindValue::Raw(b))) => assert_eq!(b, vec![0xc3, 0xa9]),
        _ => panic!("text for a binary LOB is bound as its bytes"),
    }
    match py_dbobject_element_to_bind(text("x"), "DB_TYPE_VARCHAR") {
        Ok(Conversion::Ready(BindValue::Text(t))) => assert_eq!(t, "x"),
        _ => panic!("other text is bound as text"),
    }
    match py_dbobject_element_to_bind(bytes(&[1, 2]), "DB_TYPE_BLOB") {
        Ok(Conversion::Ready(BindValue::Raw(b))) => assert_eq!(b, vec![1, 2]),
        _ => panic!("bytes are bound as they are"),
    }
    assert_eq!(dbobject_value_byte_size(&text("\u{e9}a")), Some(3));
    assert_eq!(dbobject_value_byte_size(&bytes(&[1, 2])), Some(2));
    assert_eq!(dbobject_value_byte_size(&none()), None);
    assert_eq!(dbobject_value_byte_size(&facets()), None);
}

#[test]
fn duplicated_binds_are_the_same() {
    let info = TypeInfo { ora_type: OraType::Number, csfrm: CsForm::Unset, buffer_size: 22 };
    let array = BindValue::Array {
        info,
        max_elements: 4,
        values: vec![Some(BindValue::Number("7".to_string())), None],
    };
    match array.duplicate() {
        BindValue::Array { info: copied, max_elements, values } => {
            assert_eq!(copied, info);
            assert_eq!(max_elements, 4);
            assert_eq!(values.len(), 2);
            assert!(matches!(&values[0], Some(BindValue::Number(n)) if n == "7"));
            assert!(values[1].is_none());
        }
        _ => panic!("not an array"),
    }
    let lob = BindValue::Lob { ora_type: OraType::Blob, csfrm: CsForm::Unset, locator: vec![1, 2] };
    assert!(matches!(
        lob.duplicate(),
        BindValue::Lob { ora_type: OraType::Blob, csfrm: CsForm::Unset, locator } if locator == [1, 2]
    ));
    let input = BindValue::ObjectInput {
        schema: "HR".to_string(),
        object_name: "T".to_string(),
        oid: vec![9],
        version: 2,
        image: vec![3],
        buffer_size: 5,
    };
    assert!(matches!(
        input.duplicate(),
        BindValue::ObjectInput { schema, object_name, oid, version: 2, image, buffer_size: 5 }
            if schema == "HR" && object_name == "T" && oid == [9] && image == [3]
    ));
    assert!(matches!(BindValue::BinaryDouble(8).duplicate(), BindValue::BinaryDouble(8)));
    assert!(matches!(BindValue::Cursor { cursor_id: 3 }.duplicate(), BindValue::Cursor { cursor_id: 3 }));
}
