use std::sync::Arc;

use arrow_array::types::{Float32Type, Int32Type, Int8Type};
use arrow_array::{
    Array, ArrayRef, BinaryArray, BinaryViewArray, BooleanArray, Date32Array, Date64Array, Decimal128Array,
    DurationSecondArray, FixedSizeBinaryArray, Float32Array, Float64Array, Int16Array, Int32Array,
    Int64Array, Int8Array, LargeBinaryArray, LargeStringArray, ListArray, NullArray, RecordBatch,
    StringArray, StringViewArray, StructArray, TimestampMicrosecondArray,
    TimestampMillisecondArray, TimestampNanosecondArray, TimestampSecondArray, UInt16Array,
    UInt32Array, UInt64Array, UInt8Array,
};
use arrow_schema::{DataType, Field, Fields};
use oracledb_pyshim::arrow::{
    arrow_table_rows, data_error, date_of_millis, error_fault, timestamp_micros, ArrowBatch,
    ArrowError, ArrowRows, ArrowUnit, ArrowValue, FrameIter, VectorFormat,
};
use oracledb_pyshim::errors::Fault;
use oracledb_pyshim::pipeline::{
    build_native_plan, choose_pipeline_path, cursors_to_close, is_plsql, op_error_action,
    op_kind, params_are_scalar, rows_to_fetch, BoundRows, OpErrorAction, ParameterItem, PipelineOp,
    PipelineOpKind, PipelineParameters, PipelinePath, PipelinePaths, PreparedOp, RequestPlan,
};

fn batch(columns: Vec<ArrayRef>) -> ArrowBatch {
    let named: Vec<(String, ArrayRef, bool)> = columns
        .into_iter()
        .enumerate()
        .map(|(i, c)| (format!("c{i}"), c, true))
        .collect();
    ArrowBatch { batch: RecordBatch::try_from_iter_with_nullable(named).unwrap() }
}

fn rows(columns: Vec<ArrayRef>) -> ArrowRows {
    arrow_table_rows(&vec![batch(columns)]).unwrap_or_else(|e| panic!("{:?}", e))
}

fn one(column: ArrayRef) -> ArrowValue {
    let mut r = rows(vec![column]);
    r.rows.remove(0).remove(0)
}

fn failure(column: ArrayRef) -> ArrowError {
    match arrow_table_rows(&vec![batch(vec![column])]) {
        Err(e) => e,
        Ok(_) => panic!("no error"),
    }
}

#[test]
fn integers_are_widened() {
    assert!(matches!(one(Arc::new(Int8Array::from(vec![-8]))), ArrowValue::Signed(-8)));
    assert!(matches!(one(Arc::new(Int16Array::from(vec![-16]))), ArrowValue::Signed(-16)));
    assert!(matches!(one(Arc::new(Int32Array::from(vec![-32]))), ArrowValue::Signed(-32)));
    assert!(matches!(
        one(Arc::new(Int64Array::from(vec![i64::MIN]))),
        ArrowValue::Signed(i64::MIN)
    ));
    assert!(matches!(one(Arc::new(UInt8Array::from(vec![8]))), ArrowValue::Unsigned(8)));
    assert!(matches!(one(Arc::new(UInt16Array::from(vec![16]))), ArrowValue::Unsigned(16)));
    assert!(matches!(one(Arc::new(UInt32Array::from(vec![32]))), ArrowValue::Unsigned(32)));
    assert!(matches!(
        one(Arc::new(UInt64Array::from(vec![u64::MAX]))),
        ArrowValue::Unsigned(u64::MAX)
    ));
}

#[test]
fn other_scalars() {
    assert!(matches!(one(Arc::new(BooleanArray::from(vec![true]))), ArrowValue::Flag(true)));
    assert!(matches!(one(Arc::new(NullArray::new(1))), ArrowValue::Null));
    assert!(matches!(
        one(Arc::new(Int32Array::from(vec![None::<i32>]))),
        ArrowValue::Null
    ));
    match one(Arc::new(Float32Array::from(vec![1.5]))) {
        ArrowValue::Float32(bits) => assert_eq!(f32::from_bits(bits), 1.5),
        _ => panic!("float"),
    }
    match one(Arc::new(Float64Array::from(vec![-2.25]))) {
        ArrowValue::Float64(bits) => assert_eq!(f64::from_bits(bits), -2.25),
        _ => panic!("double"),
    }
    let decimals = Decimal128Array::from(vec![12345]).with_precision_and_scale(10, 2).unwrap();
    assert!(matches!(
        one(Arc::new(decimals)),
        ArrowValue::Decimal { digits: 12345, scale: 2 }
    ));
}

#[test]
fn texts_and_bytes_of_all_layouts() {
    let texts: Vec<ArrayRef> = vec![
        Arc::new(StringArray::from(vec!["\u{e9}t"])),
        Arc::new(LargeStringArray::from(vec!["\u{e9}t"])),
        Arc::new(StringViewArray::from(vec!["\u{e9}t"])),
    ];
    for t in texts {
        match one(t) {
            ArrowValue::Text(s) => assert_eq!(s, "\u{e9}t"),
            _ => panic!("text"),
        }
    }
    let bytes: Vec<ArrayRef> = vec![
        Arc::new(BinaryArray::from(vec![&b"ab"[..]])),
        Arc::new(LargeBinaryArray::from(vec![&b"ab"[..]])),
        Arc::new(BinaryViewArray::from(vec![&b"ab"[..]])),
        Arc::new(FixedSizeBinaryArray::try_from_iter(vec![b"ab"].into_iter()).unwrap()),
    ];
    for b in bytes {
        match one(b) {
            ArrowValue::Bytes(v) => assert_eq!(v, b"ab".to_vec()),
            _ => panic!("bytes"),
        }
    }
}

#[test]
fn dates_and_timestamps() {
    assert!(matches!(one(Arc::new(Date32Array::from(vec![-5]))), ArrowValue::Date(-5)));
    assert!(matches!(
        one(Arc::new(Date64Array::from(vec![86_400_000 * 3]))),
        ArrowValue::Date(3)
    ));
    assert!(matches!(
        one(Arc::new(TimestampSecondArray::from(vec![2]))),
        ArrowValue::Timestamp(2_000_000)
    ));
    assert!(matches!(
        one(Arc::new(TimestampMillisecondArray::from(vec![-2]))),
        ArrowValue::Timestamp(-2000)
    ));
    assert!(matches!(
        one(Arc::new(TimestampMicrosecondArray::from(vec![7]))),
        ArrowValue::Timestamp(7)
    ));
    assert!(matches!(
        one(Arc::new(TimestampNanosecondArray::from(vec![-1999]))),
        ArrowValue::Timestamp(-1)
    ));
    assert_eq!(timestamp_micros(i64::MAX, ArrowUnit::Second), i128::from(i64::MAX) * 1_000_000);
    assert_eq!(date_of_millis(-1), -1);
    assert_eq!(date_of_millis(86_400_000), 1);
}

#[test]
fn lists_become_vectors() {
    let ints = ListArray::from_iter_primitive::<Int8Type, _, _>(vec![Some(vec![Some(1), Some(-1)])]);
    match one(Arc::new(ints)) {
        ArrowValue::Vector(v) => {
            assert_eq!(v.format, VectorFormat::Int8);
            assert_eq!(v.elements, vec![1, 255]);
        }
        _ => panic!("vector"),
    }
    let floats = ListArray::from_iter_primitive::<Float32Type, _, _>(vec![Some(vec![Some(0.5)])]);
    match one(Arc::new(floats)) {
        ArrowValue::Vector(v) => {
            assert_eq!(v.format, VectorFormat::Float32);
            assert_eq!(v.elements, vec![u64::from(0.5f32.to_bits())]);
        }
        _ => panic!("vector"),
    }
    let wrong = ListArray::from_iter_primitive::<Int32Type, _, _>(vec![Some(vec![Some(1)])]);
    let e = failure(Arc::new(wrong));
    assert!(matches!(&e, ArrowError::VectorElement(DataType::Int32)));
    match error_fault(e, "int32") {
        Fault::Database(d) => assert_eq!(
            d.message,
            "DPY-3033: conversion from Apache Arrow list with child format \"int32\" to Oracle Database vector is not supported"
        ),
        other => panic!("{:?}", other),
    }
}

fn structs(fields: Vec<(&str, ArrayRef)>) -> ArrayRef {
    let described: Fields = fields
        .iter()
        .map(|(n, a)| Field::new(*n, a.data_type().clone(), true))
        .collect::<Vec<Field>>()
        .into();
    let arrays = fields.into_iter().map(|(_, a)| a).collect();
    Arc::new(StructArray::new(described, arrays, None))
}

fn dims() -> ArrayRef {
    Arc::new(Int64Array::from(vec![10]))
}

fn indices() -> ArrayRef {
    Arc::new(ListArray::from_iter_primitive::<Int32Type, _, _>(vec![Some(vec![Some(1), Some(7)])]))
}

fn values() -> ArrayRef {
    Arc::new(ListArray::from_iter_primitive::<Float32Type, _, _>(vec![Some(vec![
        Some(0.5),
        Some(1.5),
    ])]))
}

#[test]
fn structs_become_sparse_vectors() {
    let s = structs(vec![("num_dimensions", dims()), ("indices", indices()), ("values", values())]);
    match one(s) {
        ArrowValue::SparseVector { num_dimensions, indices, values } => {
            assert_eq!((num_dimensions, indices), (10, vec![1, 7]));
            assert_eq!(values.elements.len(), 2);
        }
        _ => panic!("sparse"),
    }
    let e = failure(structs(vec![("num_dimensions", dims()), ("values", values())]));
    match error_fault(e, "") {
        Fault::Database(d) => assert_eq!(
            d.message,
            "DPY-3032: conversion from Apache Arrow struct without a \"indices\" field to Oracle Database is not supported"
        ),
        other => panic!("{:?}", other),
    }
    let e = failure(structs(vec![
        ("num_dimensions", Arc::new(StringArray::from(vec!["x"])) as ArrayRef),
        ("indices", indices()),
        ("values", values()),
    ]));
    assert!(matches!(e, ArrowError::Dimensions(DataType::Utf8)));
    let e = failure(structs(vec![
        ("num_dimensions", dims()),
        ("indices", values()),
        ("values", values()),
    ]));
    assert!(matches!(e, ArrowError::Indices(DataType::Float32)));
    let e = failure(structs(vec![
        ("num_dimensions", dims()),
        ("indices", dims()),
        ("values", values()),
    ]));
    assert!(matches!(e, ArrowError::VectorElement(DataType::Int64)));
}

#[test]
fn unknown_types_are_refused() {
    let e = failure(Arc::new(DurationSecondArray::from(vec![1])));
    assert!(matches!(&e, ArrowError::Format(DataType::Duration(_))));
    match error_fault(e, "duration") {
        Fault::Database(d) => assert_eq!(
            d.message,
            "DPY-3032: conversion from Apache Arrow format \"duration\" to Oracle Database is not supported"
        ),
        other => panic!("{:?}", other),
    }
    assert!(matches!(
        data_error(),
        Fault::Database(d)
            if d.message == "DPY-2004: data must be a list of sequences or a DataFrame"
    ));
}

#[test]
fn the_parts_of_a_table_add_up() {
    let part = |v: Vec<i32>| {
        let times: Vec<i64> = v.iter().map(|_| 1).collect();
        batch(vec![
            Arc::new(Int32Array::from(v)) as ArrayRef,
            Arc::new(TimestampSecondArray::from(times)) as ArrayRef,
        ])
    };
    let t = arrow_table_rows(&vec![part(vec![1, 2]), part(vec![]), part(vec![3])])
        .unwrap_or_else(|e| panic!("{:?}", e));
    assert_eq!(t.chunk_lengths, vec![2, 1]);
    assert_eq!(t.rows.len(), 3);
    assert!(matches!(t.rows[2][0], ArrowValue::Signed(3)));
    assert_eq!(t.rows[0].len(), 2);
    assert_eq!(t.timestamp_columns, vec![1]);
    let empty = arrow_table_rows(&vec![]).unwrap_or_else(|e| panic!("{:?}", e));
    assert!(empty.rows.is_empty() && empty.chunk_lengths.is_empty());
}

#[test]
fn frames_are_iterated_over() {
    let mut f = FrameIter::new(2);
    assert_eq!((f.next_frame(), f.next_frame(), f.next_frame()), (Some(0), Some(1), None));
}

#[test]
fn a_pipeline_path_can_be_forced() {
    let mut p = PipelinePaths::new();
    assert!(p.set_force_pipeline_path("native").is_ok());
    assert_eq!(p.forced, Some(PipelinePath::Native));
    assert!(p.set_force_pipeline_path("auto").is_ok());
    assert_eq!(p.forced, None);
    match p.set_force_pipeline_path("a\"b") {
        Err(Fault::Runtime(m)) => assert_eq!(
            m,
            "unknown pipeline path mode: \"a\\\"b\" (expected auto/native/sequential)"
        ),
        other => panic!("{:?}", other),
    }
    p.record_pipeline_path(PipelinePath::Sequential);
    assert_eq!(p.last.map(|l| l.name()), Some("sequential"));
    p.reset_pipeline_path_log();
    assert_eq!(p.last, None);
}

fn op(kind: PipelineOpKind, statement: &str) -> PipelineOp {
    PipelineOp {
        kind,
        statement: Some(statement.to_string()),
        parameters: PipelineParameters::Absent,
    }
}

#[test]
fn native_pipelines_hold_no_plsql() {
    assert!(is_plsql(&Some(" (\n BEGIN null; end;".to_string())));
    assert!(is_plsql(&Some("declare x int; begin".to_string())));
    assert!(is_plsql(&None));
    assert!(!is_plsql(&Some("select 1".to_string())));
    assert!(op(PipelineOpKind::Execute, "select 1").op_is_native());
    assert!(!op(PipelineOpKind::Execute, "begin null; end;").op_is_native());
    assert!(!op(PipelineOpKind::CallProc, "p").op_is_native());
    let ops = vec![
        op(PipelineOpKind::FetchAll, "select 1"),
        PipelineOp { statement: None, ..op(PipelineOpKind::Commit, "") },
    ];
    assert_eq!(choose_pipeline_path(None, false, &ops), PipelinePath::Native);
    assert_eq!(choose_pipeline_path(None, true, &ops), PipelinePath::Sequential);
    assert_eq!(
        choose_pipeline_path(Some(PipelinePath::Sequential), false, &ops),
        PipelinePath::Sequential
    );
    let mixed = vec![op(PipelineOpKind::FetchAll, "select 1"), op(PipelineOpKind::CallFunc, "f")];
    assert_eq!(
        choose_pipeline_path(Some(PipelinePath::Native), false, &mixed),
        PipelinePath::Sequential
    );
}

#[test]
fn parameters_of_native_operations() {
    let row = |members: Vec<bool>| ParameterItem { is_row: true, is_scalar: false, members };
    let value = |is_scalar| ParameterItem { is_row: false, is_scalar, members: vec![] };
    assert!(params_are_scalar(&PipelineParameters::Absent));
    assert!(params_are_scalar(&PipelineParameters::Count));
    assert!(!params_are_scalar(&PipelineParameters::Other));
    assert!(!params_are_scalar(&PipelineParameters::Mapping(vec![true, false])));
    assert!(params_are_scalar(&PipelineParameters::Items(vec![value(true), value(true)])));
    assert!(!params_are_scalar(&PipelineParameters::Items(vec![value(true), value(false)])));
    assert!(params_are_scalar(&PipelineParameters::Items(vec![row(vec![true]), row(vec![])])));
    assert!(!params_are_scalar(&PipelineParameters::Items(vec![row(vec![true]), row(vec![false])])));
}

#[test]
fn one_request_per_operation() {
    let prepared = |batch_rows, values| PreparedOp {
        has_statement: true,
        batch_rows,
        values,
        prefetchrows: 0,
    };
    let plan = build_native_plan(&vec![
        None,
        Some(prepared(3, 1)),
        Some(prepared(0, 1)),
        Some(PreparedOp { prefetchrows: 9, ..prepared(0, 0) }),
    ])
    .unwrap();
    assert_eq!(
        plan,
        vec![
            RequestPlan::Commit,
            RequestPlan::Execute { rows: BoundRows::Batch, prefetch_rows: 1 },
            RequestPlan::Execute { rows: BoundRows::Single, prefetch_rows: 1 },
            RequestPlan::Execute { rows: BoundRows::Nothing, prefetch_rows: 9 },
        ]
    );
    assert!(matches!(
        build_native_plan(&vec![Some(PreparedOp { has_statement: false, ..prepared(0, 0) })]),
        Err(Fault::Runtime(m)) if m == "pipeline op has no statement"
    ));
    assert_eq!(rows_to_fetch(PipelineOpKind::FetchOne, 5, 100), Some(1));
    assert_eq!(rows_to_fetch(PipelineOpKind::FetchMany, 5, 100), Some(5));
    assert_eq!(rows_to_fetch(PipelineOpKind::FetchAll, 5, 100), Some(100));
    assert_eq!(rows_to_fetch(PipelineOpKind::Commit, 5, 100), None);
    assert_eq!(cursors_to_close(&vec![None, Some(0), Some(4)]).last(), Some(&4));
    assert_eq!(op_error_action(true), OpErrorAction::Capture);
    assert_eq!(op_error_action(false), OpErrorAction::Raise);
}

#[test]
fn operations_are_known_by_name() {
    assert_eq!(op_kind("COMMIT"), PipelineOpKind::Commit);
    assert_eq!(op_kind("CALL_FUNC"), PipelineOpKind::CallFunc);
    assert_eq!(op_kind("CALL_PROC"), PipelineOpKind::CallProc);
    assert_eq!(op_kind("EXECUTE"), PipelineOpKind::Execute);
    assert_eq!(op_kind("EXECUTE_MANY"), PipelineOpKind::ExecuteMany);
    assert_eq!(op_kind("FETCH_ALL"), PipelineOpKind::FetchAll);
    assert_eq!(op_kind("FETCH_MANY"), PipelineOpKind::FetchMany);
    assert_eq!(op_kind("FETCH_ONE"), PipelineOpKind::FetchOne);
    assert_eq!(op_kind("ROLLBACK"), PipelineOpKind::Other);
}
