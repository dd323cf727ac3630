use oracledb_pyshim::binds::{ContainerKind, Payload};
use oracledb_pyshim::buffer::{next_fetch_position, to_rowcount, Orientation, RowBuffer, ScrollFetch};
use oracledb_pyshim::columns::{
    columns_have_vector, columns_require_define, duplicate_columns, json_lob_candidates,
    mark_json_column, ColumnMetadata, DefineConversion, Defines, HandlerResult,
};
use oracledb_pyshim::cursor::{
    effective_call_timeout, BatchError, CursorState, FetchStep, Flavor, QueryResult, SizeArgument,
};
use oracledb_pyshim::errors::{ErrorName, Fault, ServerErrorDetails, TaskError};
use oracledb_pyshim::execute::{bind_rows, ExecuteCall, ExecuteReply, ExecuteRun};
use oracledb_pyshim::fetch::{
    fetch_vars, json_text_is_parsed, lob_column_indices, lob_content_is_raw, oson_value_to_py,
    qualified_name, query_value_to_py, record_fetch_value_vars, slice_batch_into_frames, CellKind,
    CellStep, ConversionContext, DateTimeArgs, Drain, FetchValueVar, FetchVar, OsonPlan, OsonValue,
    PyPlan, QueryValue, RowSlice, TextEncoding,
};
use oracledb_pyshim::iterate::{
    executemany_manager_error, executes_row_by_row, plsql_row_offset, BatchCall,
    BatchReply, BatchRun, BatchTotals, BatchWindowError, IndexedList, OutValue, RowResult,
};
use oracledb_pyshim::prepare::{
    promote_timestamp_bind_columns, validate_cursor_bind_container,
    validate_cursor_bind_parameters, validate_cursor_bind_value, BatchSource, CursorBind,
    ExecuteRequest,
};
use oracledb_pyshim::value::{BindValue, CsForm, DateTimeFields, OraType, TypeInfo};

fn column(name: &str, ora_type: OraType) -> ColumnMetadata {
    ColumnMetadata {
        name: name.to_string(),
        ora_type,
        csfrm: CsForm::Implicit,
        is_json: false,
        is_oson: false,
        buffer_size: 4000,
        max_size: 4000,
    }
}

fn result(columns: Vec<ColumnMetadata>, rows: Vec<u32>, row_count: u64) -> QueryResult<u32> {
    QueryResult {
        columns,
        rows,
        cursor_id: 5,
        more_rows: true,
        row_count,
        last_rowid: None,
        compilation_error_warning: false,
        batch_errors: vec![],
        array_dml_row_counts: None,
        implicit_resultsets: None,
    }
}

fn prepared(sql: &str) -> CursorState<u32> {
    let mut c = CursorState::new(false);
    c.prepared.prepare(Some(sql.to_string()), None, vec![]);
    c
}

fn buffer(rows: Vec<u32>, rowcount: i64) -> RowBuffer<u32> {
    let mut b = RowBuffer::empty();
    b.rowcount = rowcount;
    b.apply_fetch(rows, 7, true);
    b
}

#[test]
fn rows_are_taken_in_order() {
    let mut b = buffer(vec![10, 11, 12], 0);
    assert_eq!((b.min_row, b.max_row), (1, 4));
    assert_eq!(b.take_next(), Some(0));
    assert_eq!(b.take_next(), Some(1));
    assert_eq!(b.rowcount, 2);
    assert!(!b.fetch_needed());
    assert_eq!(b.take_next(), Some(2));
    assert!(b.fetch_needed());
    assert_eq!(b.take_next(), None);
    assert_eq!(b.rowcount, 3);
    b.apply_fetch(vec![13], 0, false);
    assert_eq!((b.min_row, b.max_row, b.cursor_id), (4, 5, 7));
    assert_eq!(b.take_next(), Some(0));
    assert!(!b.fetch_needed());
}

#[test]
fn scrolling_stays_in_the_buffer_where_it_can() {
    let mut b = buffer(vec![10, 11, 12], 0);
    b.take_next();
    assert!(matches!(b.resolve_scroll_target(2, "relative"), Ok(None)));
    assert_eq!((b.row_index, b.rowcount), (2, 2));
    assert!(matches!(b.resolve_scroll_target(1, "absolute"), Ok(None)));
    assert_eq!((b.row_index, b.rowcount), (0, 0));
    assert!(matches!(
        b.resolve_scroll_target(9, "absolute"),
        Ok(Some(ScrollFetch { orientation: Orientation::Absolute, position: 9 }))
    ));
    assert!(matches!(
        b.resolve_scroll_target(0, "last"),
        Ok(Some(ScrollFetch { orientation: Orientation::Last, position: 0 }))
    ));
    assert!(matches!(b.resolve_scroll_target(0, "first"), Ok(None)));
    assert!(matches!(
        b.resolve_scroll_target(-1, "relative"),
        Err(Fault::Named(ErrorName::ScrollOutOfResultSet))
    ));
    assert!(matches!(
        b.resolve_scroll_target(1, "sideways"),
        Err(Fault::Named(ErrorName::WrongScrollMode))
    ));
}

#[test]
fn a_taken_row_is_found_again() {
    let mut b = buffer(vec![10, 11, 12], 4);
    b.take_next();
    let before = (b.row_index, b.rowcount);
    b.take_next();
    assert!(matches!(b.resolve_scroll_target(0, "relative"), Ok(None)));
    assert_eq!((b.row_index, b.rowcount), before);
}

#[test]
fn scrolled_rows_define_the_window() {
    let mut c = prepared("select 1 from dual");
    let mut r = result(vec![], vec![1, 2, 3], 12);
    r.cursor_id = 0;
    assert!(c.apply_scroll(Orientation::Absolute, r).is_ok());
    assert_eq!((c.buffer.min_row, c.buffer.max_row, c.buffer.rowcount), (10, 13, 9));
    let empty = result(vec![], vec![], 0);
    assert!(matches!(
        c.apply_scroll(Orientation::Relative, empty),
        Err(Fault::Named(ErrorName::ScrollOutOfResultSet))
    ));
    assert_eq!((c.buffer.min_row, c.buffer.max_row, c.buffer.rowcount), (0, 0, 9));
    assert!(c.apply_scroll(Orientation::Last, result(vec![], vec![], 0)).is_ok());
    assert_eq!((c.buffer.min_row, c.buffer.max_row, c.buffer.rowcount), (0, 0, 0));
}

#[test]
fn positions_are_clamped() {
    assert_eq!(to_rowcount(u64::MAX), i64::MAX);
    assert_eq!(to_rowcount(3), 3);
    assert_eq!(next_fetch_position(-5), 1);
    assert_eq!(next_fetch_position(41), 42);
    assert_eq!(next_fetch_position(i64::MAX), u32::MAX);
    assert_eq!(effective_call_timeout(0), None);
    assert_eq!(effective_call_timeout(5), Some(5));
}

#[test]
fn an_executed_query_fills_the_buffer() {
    let mut c = prepared("select x from t");
    let options = c.begin_execute(false, true).unwrap();
    assert!(options.cache_statement && options.scroll.is_none());
    assert!(!c.options.fetch_lobs && c.options.fetch_decimals);
    c.finish_execute(result(vec![column("X", OraType::Number)], vec![1, 2], 2), false, Flavor::Blocking);
    assert!(c.outcome.is_query);
    assert_eq!((c.buffer.rowcount, c.buffer.min_row, c.buffer.max_row), (0, 1, 3));
    assert!(!c.defines.requires_define);
    assert!(matches!(c.plan_fetch(Flavor::Blocking), Ok(FetchStep::Buffered)));
    c.buffer.take_next();
    c.buffer.take_next();
    assert!(matches!(c.plan_fetch(Flavor::Blocking), Ok(FetchStep::Fetch(100))));
    c.apply_fetch_result(result(vec![], vec![3], 3));
    assert_eq!((c.buffer.min_row, c.buffer.max_row), (3, 4));
    assert_eq!(c.defines.columns.len(), 1);
}

#[test]
fn an_execution_needs_a_statement() {
    let mut c: CursorState<u32> = CursorState::new(true);
    match c.begin_execute(true, false) {
        Err(Fault::Runtime(m)) => assert_eq!(m, "no statement prepared"),
        _ => panic!("no statement"),
    }
    c.prepared.prepare(Some("select 1 from dual".to_string()), Some(false), vec!["A".to_string()]);
    assert!(c.prepared.statement_changed);
    assert_eq!(c.prepared.bind_names.len(), 1);
    let options = c.begin_execute(true, false).unwrap();
    assert_eq!(
        options.scroll,
        Some(ScrollFetch { orientation: Orientation::Current, position: 1 })
    );
    assert!(!options.cache_statement);
}

#[test]
fn options_set_on_the_cursor_stay() {
    let mut c = prepared("x");
    c.options.set_fetch_lobs(false);
    c.options.set_fetch_decimals(true);
    c.begin_execute(true, false).unwrap();
    assert!(!c.options.fetch_lobs && c.options.fetch_decimals);
}

#[test]
fn dml_counts_rows_and_plsql_does_not() {
    let mut c = prepared("update t set x = 1");
    let mut r = result(vec![], vec![], 17);
    r.last_rowid = Some("AAA".to_string());
    r.compilation_error_warning = true;
    c.finish_execute(r, false, Flavor::Awaited);
    assert_eq!(c.buffer.rowcount, 17);
    assert_eq!(c.outcome.warning, Some(7000));
    assert_eq!(c.get_lastrowid().as_deref(), Some("AAA"));
    c.finish_execute(result(vec![], vec![], 17), true, Flavor::Awaited);
    assert_eq!(c.buffer.rowcount, 0);
    assert_eq!(c.get_lastrowid(), None);
}

#[test]
fn lob_columns_wait_for_a_define() {
    let mut c = prepared("select v from t");
    c.finish_execute(result(vec![column("V", OraType::Clob)], vec![], 0), false, Flavor::Blocking);
    assert!(c.defines.requires_define);
    assert!(matches!(c.plan_fetch(Flavor::Blocking), Ok(FetchStep::DefineAndFetch(2))));
    c.options.prefetchrows = 0;
    assert!(matches!(c.plan_fetch(Flavor::Blocking), Ok(FetchStep::DefineAndFetch(100))));
    assert!(matches!(c.plan_fetch(Flavor::Awaited), Ok(FetchStep::DefineAndFetch(0))));
    c.defines.begin_fetch_defines(1000);
    c.apply_fetch_result(result(vec![], vec![1], 1));
    c.buffer.take_next();
    assert!(matches!(c.plan_fetch(Flavor::Blocking), Ok(FetchStep::Fetch(100))));
}

#[test]
fn an_invalid_ref_cursor_cannot_be_fetched_from() {
    let mut c = prepared("x");
    c.hydrate(vec![column("X", OraType::Number)], 0, true);
    assert!(matches!(
        c.plan_fetch(Flavor::Blocking),
        Err(Fault::Named(ErrorName::InvalidRefCursor))
    ));
    c.hydrate(vec![column("X", OraType::Number)], 4, false);
    assert!(c.outcome.is_query && c.buffer.more_rows);
    assert_eq!(c.close(), Some(4));
    assert_eq!(c.close(), None);
    assert!(c.prepared.statement.is_none() && c.defines.columns.is_empty());
}

#[test]
fn scrollable_cursors_fetch_by_position() {
    let mut c: CursorState<u32> = CursorState::new(true);
    c.hydrate(vec![column("X", OraType::Number)], 4, false);
    assert!(matches!(
        c.plan_fetch(Flavor::Blocking),
        Ok(FetchStep::Scroll(ScrollFetch { orientation: Orientation::Current, position: 1 }))
    ));
}

fn details(row_count: u64) -> ServerErrorDetails {
    ServerErrorDetails {
        message: "ORA-00001: unique constraint violated".to_string(),
        code: 1,
        pos: 0,
        row_count,
        rowid: Some("BBB".to_string()),
        array_dml_row_counts: None,
    }
}

#[test]
fn a_failed_execution_keeps_what_the_server_counted() {
    let mut c = prepared("insert into t values (1)");
    let err = TaskError { message: "x".to_string(), details: Some(details(4)) };
    let (fault, dead) = c.fail_execute(&err, false, false, true);
    assert!(matches!(fault, Fault::Database(e) if e.code == Some(1)));
    assert!(dead);
    assert_eq!(c.buffer.rowcount, 4);
    assert_eq!(c.outcome.last_rowid.as_deref(), Some("BBB"));
    let (fault, dead) = c.fail_execute(&err, true, false, true);
    assert!(matches!(fault, Fault::Database(e) if e.code == Some(1013)));
    assert!(!dead);
}

#[test]
fn batches_are_checked_before_they_run() {
    let mut c = prepared("insert into t values (:1)");
    c.finish_prepare_for_executemany(vec!["1".to_string()], 10);
    let range = c.begin_executemany(4, 6, true, true, true).unwrap();
    assert_eq!((range.start, range.end), (6, 10));
    assert!(range.options.batcherrors && range.options.arraydmlrowcounts);
    assert!(matches!(
        c.begin_executemany(4, 6, true, false, false),
        Err(Fault::Named(ErrorName::ExecuteModeOnlyForDml))
    ));
    match c.begin_executemany(5, 6, false, false, true) {
        Err(Fault::Runtime(m)) => assert_eq!(m, "executemany batch is out of range"),
        _ => panic!("range"),
    }
    let fresh: CursorState<u32> = CursorState::new(false);
    assert!(matches!(
        fresh.begin_executemany(1, 0, false, false, true),
        Err(Fault::Runtime(_))
    ));
}

#[test]
fn batches_record_errors_and_counts() {
    let mut c = prepared("insert into t values (:1)");
    assert!(matches!(
        c.outcome.get_array_dml_row_counts(),
        Err(Fault::Named(ErrorName::ArrayDmlRowCountsNotEnabled))
    ));
    let mut r = result(vec![], vec![], 3);
    r.batch_errors = vec![BatchError { message: "m".to_string(), code: 1, offset: 2 }];
    r.array_dml_row_counts = Some(vec![1, 0, 2]);
    c.record_batch(&mut r, true, true);
    assert!(r.batch_errors.is_empty() && r.array_dml_row_counts.is_none());
    assert_eq!(c.buffer.rowcount, 0);
    c.finish_executemany(r, false, Flavor::Blocking);
    assert_eq!(c.outcome.batch_errors.as_ref().unwrap().len(), 1);
    assert_eq!(c.outcome.get_array_dml_row_counts().unwrap(), &vec![1, 0, 2]);
    assert_eq!(c.buffer.rowcount, 3);
    let err = TaskError { message: "x".to_string(), details: Some(details(1)) };
    c.fail_executemany(&err, Some(vec![9]), false, false, false, true, true);
    assert!(c.outcome.batch_errors.as_ref().unwrap().is_empty());
    assert_eq!(c.outcome.get_array_dml_row_counts().unwrap(), &vec![9]);
    assert_eq!(c.buffer.rowcount, 1);
}

#[test]
fn implicit_results_are_handed_out_once() {
    let mut c = prepared("begin p; end;");
    assert!(matches!(
        c.outcome.get_implicit_results(),
        Err(Fault::Named(ErrorName::NoStatementExecuted))
    ));
    c.outcome.record_implicit_resultsets(Some(2));
    c.outcome.record_implicit_resultsets(None);
    assert!(matches!(c.outcome.get_implicit_results(), Ok(Some(2))));
    assert!(matches!(c.outcome.get_implicit_results(), Ok(None)));
}

#[test]
fn parsing_a_query_describes_it() {
    let mut c = prepared("select x from t");
    c.finish_parse(vec![column("X", OraType::Blob)]);
    assert!(c.outcome.is_query && c.defines.requires_define && !c.buffer.more_rows);
    let mut d = prepared("update t set x = 1");
    d.finish_parse(vec![]);
    assert!(!d.outcome.is_query);
    c.reset_after_cursor_bind();
    assert!(!c.outcome.is_query && c.prepared.statement.is_none());
}

fn request(statement: Option<&str>) -> ExecuteRequest {
    ExecuteRequest {
        statement: statement.map(|s| s.to_string()),
        default_lobs: true,
        default_decimals: false,
        parameters: None,
        is_arrow_stream: false,
        duplicate_returning: None,
    }
}

#[test]
fn preparing_for_one_execution() {
    let mut c: CursorState<u32> = CursorState::new(false);
    assert!(matches!(
        c.prepare_for_execute(request(None)),
        Err(Fault::Named(ErrorName::NoStatement))
    ));
    assert!(c.prepare_for_execute(request(Some("select 1"))).is_ok());
    assert!(c.prepared.statement_changed);
    assert!(c.prepare_for_execute(request(None)).is_ok());
    assert!(!c.prepared.statement_changed);
    let stream = ExecuteRequest { is_arrow_stream: true, ..request(None) };
    assert!(matches!(
        c.prepare_for_execute(stream),
        Err(Fault::Named(ErrorName::WrongExecuteParametersType))
    ));
    let dup = ExecuteRequest {
        duplicate_returning: Some(Fault::DmlReturningDupBinds { name: "A".to_string() }),
        ..request(None)
    };
    assert!(matches!(c.prepare_for_execute(dup), Err(Fault::DmlReturningDupBinds { .. })));
}

fn size(key: &str, is_none: bool) -> SizeArgument {
    SizeArgument { key: key.to_string(), is_none }
}

#[test]
fn declared_sizes_exclude_the_other_style_of_binding() {
    let mut c = prepared("x");
    assert!(c.declared.setinputsizes(&vec![size("", false), size("", true)], &vec![]).is_ok());
    assert!(c.declared.positional && !c.declared.named);
    assert_eq!(c.declared.sizes[1].key, "2");
    assert!(c.declared.sizes[0].is_var && !c.declared.sizes[1].is_var);
    let dict = Payload { is_none: false, kind: ContainerKind::Dict, len: 1, items: 1 };
    let mixed = ExecuteRequest { parameters: Some(dict), ..request(None) };
    assert!(matches!(
        c.prepare_for_execute(mixed),
        Err(Fault::Named(ErrorName::MixedPositionalAndNamedBinds))
    ));
    assert!(c.declared.sizes.is_empty() && !c.declared.positional);
    assert!(c.declared.setinputsizes(&vec![], &vec![size("a", false), size("b", true)]).is_ok());
    assert!(c.declared.named);
    assert_eq!(c.declared.sizes.len(), 1);
    assert!(matches!(
        c.declared.setinputsizes(&vec![size("", false)], &vec![size("a", false)]),
        Err(Fault::Named(ErrorName::ArgsAndKeywordArgs))
    ));
    c.declared.clear_input_sizes_state();
    assert!(c.declared.sizes.is_empty() && !c.declared.named);
}

#[test]
fn a_batch_may_reuse_the_last_rows() {
    let mut c = prepared("insert into t values (:1)");
    c.finish_prepare_for_executemany(vec!["1".to_string()], 3);
    assert!(matches!(
        c.prepare_for_executemany(None, true, false, Some(2), true),
        Ok(BatchSource::Reuse(2))
    ));
    assert!(matches!(
        c.prepare_for_executemany(None, true, false, Some(4), true),
        Err(Fault::IncorrectVarArraysize { var_arraysize: 3, required_arraysize: 4 })
    ));
    assert!(matches!(
        c.prepare_for_executemany(Some("x".to_string()), true, false, Some(2), true),
        Ok(BatchSource::Rebind)
    ));
    let mut fresh: CursorState<u32> = CursorState::new(false);
    assert!(matches!(
        fresh.prepare_for_executemany(None, true, false, None, false),
        Err(Fault::Named(ErrorName::NoStatement))
    ));
    c.finish_prepare_for_execute("y".to_string(), vec![]);
    assert_eq!(c.prepared.many_bind_rows, 0);
}

#[test]
fn bound_cursors_are_checked() {
    assert_eq!(validate_cursor_bind_value(CursorBind::Other), None);
    assert_eq!(
        validate_cursor_bind_value(CursorBind::Executing),
        Some(ErrorName::SelfBindNotSupported)
    );
    assert_eq!(
        validate_cursor_bind_container(&vec![CursorBind::SameConnection, CursorBind::NotOpen]),
        Some(ErrorName::CursorNotOpen)
    );
    assert!(validate_cursor_bind_parameters(&vec![], &vec![]).is_ok());
    assert!(matches!(
        validate_cursor_bind_parameters(&vec![], &vec![CursorBind::OtherConnection]),
        Err(Fault::Named(ErrorName::CursorDiffConnection))
    ));
}

#[test]
fn timestamp_columns_are_promoted() {
    let f = DateTimeFields { year: 2024, month: 1, day: 2, hour: 3, minute: 4, second: 5, nanosecond: 6 };
    let mut row = vec![BindValue::DateTime(f), BindValue::DateTime(f), BindValue::Null];
    promote_timestamp_bind_columns(&mut row, &vec![1, 2], &vec![Some(f), Some(f), Some(f)]);
    assert!(matches!(row[0], BindValue::DateTime(_)));
    assert!(matches!(
        row[1],
        BindValue::Timestamp { ora_type: OraType::Timestamp, fields } if fields == f
    ));
    assert!(matches!(row[2], BindValue::Null));
    let info = TypeInfo { ora_type: OraType::Number, csfrm: CsForm::Unset, buffer_size: 22 };
    let mut longer = vec![BindValue::DateTime(f), BindValue::ReturnOutput(info)];
    promote_timestamp_bind_columns(&mut longer, &vec![0, 1, 5], &vec![Some(f)]);
    assert!(matches!(longer[0], BindValue::Timestamp { .. }));
    assert!(matches!(longer[1], BindValue::ReturnOutput(_)));
}

#[test]
fn a_failed_execution_leaves_a_buffer_to_scroll_in() {
    let mut b = buffer(vec![10, 11, 12], 0);
    b.rowcount = 40;
    assert!(matches!(b.resolve_scroll_target(2, "absolute"), Ok(None)));
    assert_eq!((b.row_index, b.rowcount), (1, 1));
}

#[test]
fn an_empty_buffer_has_no_window() {
    let mut b = buffer(vec![10], 3);
    assert_eq!((b.min_row, b.max_row), (4, 5));
    b.apply_fetch(vec![], 0, false);
    assert_eq!((b.min_row, b.max_row), (0, 0));
    let mut b = buffer(vec![10], 3);
    b.clear_rows();
    assert_eq!((b.min_row, b.max_row), (0, 0));
    assert!(matches!(b.resolve_scroll_target(4, "absolute"), Ok(Some(_))));
}

#[test]
fn deferred_rows_come_with_an_awaited_execution() {
    for ora_type in [OraType::Clob, OraType::Blob, OraType::Json, OraType::Vector] {
        let mut c = prepared("select x from t");
        let mut r = result(vec![column("X", ora_type)], vec![], 0);
        r.more_rows = true;
        r.cursor_id = 7;
        c.finish_execute(r, false, Flavor::Awaited);
        assert!(c.defines.begin_fetch_defines(0x7fff_ffff));
        assert!(c.fetches_at_execute(Flavor::Awaited));
        assert!(!c.fetches_at_execute(Flavor::Blocking));
        assert!(matches!(c.plan_fetch(Flavor::Awaited), Ok(FetchStep::DefineAndFetch(2))));
        c.options.fetching_arrow = true;
        assert!(!c.fetches_at_execute(Flavor::Awaited));
        c.options.fetching_arrow = false;
        c.apply_fetch_result(result(vec![], vec![1], 1));
        assert!(!c.fetches_at_execute(Flavor::Awaited));
    }
    let mut c = prepared("select x from t");
    c.finish_execute(result(vec![column("X", OraType::Number)], vec![], 0), false, Flavor::Awaited);
    assert!(!c.fetches_at_execute(Flavor::Awaited));
}

#[test]
fn a_batch_executes_each_part_once() {
    let ok = BatchReply { succeeded: true, has_columns: false };
    let mut run = BatchRun::start(true, 2);
    assert_eq!(run.call(), BatchCall::Execute(0));
    run.answer(ok);
    assert_eq!(run.call(), BatchCall::Execute(1));
    run.answer(BatchReply { succeeded: true, has_columns: true });
    assert_eq!(run.call(), BatchCall::Done);
    assert!(!run.has_columns);

    let mut failing = BatchRun::start(true, 3);
    failing.answer(ok);
    failing.answer(BatchReply { succeeded: false, has_columns: false });
    assert_eq!(failing.call(), BatchCall::Failed);

    let mut query = BatchRun::start(false, 5);
    assert_eq!(query.call(), BatchCall::Execute(0));
    query.answer(BatchReply { succeeded: true, has_columns: true });
    assert_eq!(query.call(), BatchCall::Done);
    assert!(query.has_columns);
    assert_eq!(BatchRun::start(true, 0).call(), BatchCall::Done);
}

#[test]
fn a_batch_that_failed_is_not_committed() {
    let mut batch = BatchRun::start(true, 2);
    batch.answer(BatchReply { succeeded: false, has_columns: false });
    let mut run = ExecuteRun::start(Flavor::Awaited, true, false, true);
    while run.call != ExecuteCall::Execute {
        run.answer(reply(false, true));
    }
    let succeeded = batch.call() == BatchCall::Done;
    run.answer(ExecuteReply { succeeded, has_columns: batch.has_columns, autocommit: true });
    assert_eq!(run.call, ExecuteCall::Failed);
}

#[test]
fn single_executions_add_up() {
    let mut t: BatchTotals<u32> = BatchTotals::new();
    let row = |n: u64, out: u32| RowResult {
        row_count: n,
        compilation_error_warning: n == 2,
        last_rowid: Some(n.to_string()),
        out_values: vec![OutValue { index: 1, value: out }],
        return_values: vec![IndexedList { index: 0, values: vec![out, out + 1] }],
    };
    t.absorb(row(2, 10));
    t.absorb(row(3, 20));
    assert_eq!(t.row_count, 5);
    assert!(t.compilation_error_warning);
    assert_eq!(t.last_rowid.as_deref(), Some("3"));
    assert_eq!(t.out_values.entries[0].values, vec![10, 20]);
    assert_eq!(t.return_values.entries[0].values, vec![10, 11, 20, 21]);
    t.absorb(row(u64::MAX, 30));
    assert_eq!(t.row_count, u64::MAX);
    let mut returned_nothing = row(1, 40);
    returned_nothing.return_values = vec![IndexedList { index: 4, values: vec![] }];
    t.absorb(returned_nothing);
    assert_eq!(t.return_values.entries.len(), 2);
    assert_eq!(t.return_values.entries[1].index, 4);
    assert!(t.return_values.entries[1].values.is_empty());
    assert!(executes_row_by_row(false, &vec![vec![], vec![]]));
    let info = TypeInfo { ora_type: OraType::Number, csfrm: CsForm::Unset, buffer_size: 22 };
    assert!(executes_row_by_row(true, &vec![vec![BindValue::Output(info)]]));
    assert!(!executes_row_by_row(false, &vec![vec![BindValue::Output(info)]]));
    assert_eq!(plsql_row_offset(true, 5, 2), Some(7));
    assert_eq!(plsql_row_offset(false, 5, 2), None);
}

#[test]
fn columns_are_classified() {
    assert!(columns_require_define(&vec![column("j", OraType::Json)]));
    assert!(columns_require_define(&vec![column("v", OraType::Vector)]));
    assert!(!columns_require_define(&vec![column("n", OraType::Number)]));
    let columns =
        vec![column("a", OraType::Clob), column("", OraType::Blob), column("c", OraType::Vector)];
    assert!(columns_require_define(&columns) && columns_have_vector(&columns));
    assert_eq!(duplicate_columns(&columns).len(), 3);
    let candidates = json_lob_candidates(&columns);
    assert_eq!(candidates.len(), 1);
    assert_eq!((candidates[0].index, candidates[0].name.as_str()), (0, "A"));
    let mut marked = columns;
    mark_json_column(&mut marked, 0);
    assert!(marked[0].is_json);
    assert!(json_lob_candidates(&marked).is_empty());
    assert_eq!(lob_column_indices(&marked), vec![0, 1]);
    assert!(lob_content_is_raw(OraType::Blob) && !lob_content_is_raw(OraType::Clob));
}

fn defines(columns: Vec<ColumnMetadata>) -> Defines {
    let mut d = Defines::empty();
    d.columns = columns;
    d
}

fn variable(num_elements: u32, name: &str, conversion: Option<DefineConversion>) -> HandlerResult {
    HandlerResult::Variable { num_elements, dbtype_name: name.to_string(), conversion }
}

#[test]
fn output_type_handlers_change_defines() {
    let mut oson = column("j", OraType::Blob);
    oson.is_oson = true;
    let mut d = defines(vec![oson, column("n", OraType::Number)]);
    assert!(d.begin_fetch_defines(777));
    assert!(!d.begin_fetch_defines(777));
    assert!(d.requires_define);
    assert_eq!((d.define_columns[0].ora_type, d.define_columns[0].max_size), (OraType::LongRaw, 777));
    assert!(d.is_oson_lob_column(0) && !d.is_oson_lob_column(1) && !d.is_oson_lob_column(9));
    assert!(matches!(
        d.adopt_handler_result(1, 100, "DB_TYPE_NUMBER", HandlerResult::Default),
        Ok(false)
    ));
    assert!(matches!(
        d.adopt_handler_result(1, 100, "DB_TYPE_NUMBER", HandlerResult::NotAVariable),
        Err(Fault::Named(ErrorName::ExpectingVar))
    ));
    assert!(matches!(
        d.adopt_handler_result(1, 100, "DB_TYPE_NUMBER", variable(5, "DB_TYPE_NUMBER", None)),
        Err(Fault::IncorrectVarArraysize { var_arraysize: 5, required_arraysize: 100 })
    ));
    assert!(matches!(
        d.adopt_handler_result(1, 100, "DB_TYPE_NUMBER", variable(100, "DB_TYPE_DATE", None)),
        Err(Fault::InconsistentDatatypes { .. })
    ));
    let conversion = DefineConversion { column: column("n", OraType::Varchar), differs: true };
    assert!(matches!(
        d.adopt_handler_result(
            1,
            100,
            "DB_TYPE_NUMBER",
            variable(100, "DB_TYPE_VARCHAR", Some(conversion))
        ),
        Ok(true)
    ));
    assert_eq!(d.define_columns[1].ora_type, OraType::Varchar);
    assert_eq!(d.fetch_vars, vec![false, true]);
    d.reset_fetch_define_state();
    assert!(d.fetch_vars.is_empty() && !d.requires_define);
}

#[test]
fn a_changed_define_discards_prefetched_rows() {
    let mut c = prepared("select x from t");
    c.finish_execute(result(vec![column("X", OraType::Number)], vec![1], 1), false, Flavor::Blocking);
    c.finish_fetch_defines(false);
    assert_eq!(c.buffer.rows.len(), 1);
    c.finish_fetch_defines(true);
    assert!(c.buffer.rows.is_empty() && c.buffer.more_rows);
}

#[test]
fn cells_are_converted_by_their_define() {
    let mut json = column("j", OraType::Clob);
    json.is_json = true;
    let mut oson = column("o", OraType::Blob);
    oson.is_oson = true;
    let mut d = defines(vec![json, column("n", OraType::Number), oson]);
    d.begin_fetch_defines(1);
    assert_eq!(d.plan_cell(false, 0, CellKind::Other), CellStep::JsonText);
    assert_eq!(d.plan_cell(false, 0, CellKind::Json), CellStep::Plain);
    assert_eq!(d.plan_cell(true, 1, CellKind::Number), CellStep::Decimal);
    assert_eq!(d.plan_cell(false, 1, CellKind::Number), CellStep::Plain);
    assert_eq!(d.plan_cell(false, 2, CellKind::Raw), CellStep::DecodeOson);
    assert_eq!(d.plan_cell(false, 2, CellKind::Null), CellStep::Null);
    d.fetch_vars[1] = true;
    assert_eq!(d.plan_cell(true, 1, CellKind::Number), CellStep::Variable);
    assert!(json_text_is_parsed(false, true));
    assert!(!json_text_is_parsed(true, false) && !json_text_is_parsed(false, false));
}

fn context() -> ConversionContext {
    ConversionContext {
        has_owner_cursor: true,
        has_lob_context: false,
        fetch_lobs: true,
        fetch_decimals: false,
    }
}

#[test]
fn fetched_values_become_python_values() {
    let plan = |v: QueryValue| query_value_to_py(&Some(v), context());
    assert!(matches!(query_value_to_py(&None, context()), Ok(PyPlan::Null)));
    assert!(matches!(plan(QueryValue::Text), Ok(PyPlan::Str)));
    assert!(matches!(plan(QueryValue::Number { is_integer: true }), Ok(PyPlan::Int)));
    assert!(matches!(plan(QueryValue::Number { is_integer: false }), Ok(PyPlan::Float)));
    let decimals = ConversionContext { fetch_decimals: true, ..context() };
    assert!(matches!(
        query_value_to_py(&Some(QueryValue::Number { is_integer: true }), decimals),
        Ok(PyPlan::Decimal)
    ));
    assert!(matches!(
        plan(QueryValue::TextRaw { csfrm: CsForm::Nchar }),
        Ok(PyPlan::DecodeStr(TextEncoding::Utf16Be))
    ));
    let f = DateTimeFields { year: 1, month: 2, day: 3, hour: 4, minute: 5, second: 6, nanosecond: 7999 };
    assert!(matches!(
        plan(QueryValue::DateTime(f)),
        Ok(PyPlan::DateTime(DateTimeArgs { year: 1, microsecond: 7, .. }))
    ));
    let lob = || QueryValue::Lob {
        ora_type: OraType::Bfile,
        csfrm: CsForm::Unset,
        size: 10,
        chunk_size: 4,
    };
    assert!(matches!(
        plan(lob()),
        Ok(PyPlan::LobObject { has_file_name: true, context_from_cursor: true, size: 10, .. })
    ));
    let content = ConversionContext { fetch_lobs: false, has_lob_context: true, ..context() };
    assert!(matches!(
        query_value_to_py(&Some(lob()), content),
        Ok(PyPlan::LobContent { context_from_cursor: false, .. })
    ));
    let bare = ConversionContext { has_owner_cursor: false, ..context() };
    assert!(matches!(query_value_to_py(&Some(lob()), bare), Err(Fault::NotImplemented(_))));
    assert!(matches!(
        query_value_to_py(&Some(QueryValue::Cursor { cursor_id: 3 }), bare),
        Err(Fault::NotImplemented(_))
    ));
    assert!(matches!(
        plan(QueryValue::Cursor { cursor_id: 3 }),
        Ok(PyPlan::ChildCursor { cursor_id: 3 })
    ));
    let object = |s: Option<&str>, n: Option<&str>| QueryValue::Object {
        schema: s.map(|x| x.to_string()),
        object_name: n.map(|x| x.to_string()),
    };
    assert!(matches!(plan(object(Some("SYS"), Some("xmltype"))), Ok(PyPlan::XmlType)));
    match plan(object(Some("HR"), Some("T"))) {
        Ok(PyPlan::Object { fqn, .. }) => assert_eq!(fqn, "HR.T"),
        _ => panic!("object"),
    }
    assert!(matches!(plan(object(None, None)), Err(Fault::Runtime(_))));
    assert_eq!(qualified_name(&Some(String::new()), "T"), "T");
}

#[test]
fn json_trees_become_python_values() {
    assert_eq!(oson_value_to_py(OsonValue::Number), OsonPlan::Decimal);
    assert_eq!(oson_value_to_py(OsonValue::BinaryFloat), OsonPlan::Float);
    assert_eq!(oson_value_to_py(OsonValue::Bool(true)), OsonPlan::Bool(true));
    assert_eq!(oson_value_to_py(OsonValue::Object), OsonPlan::Dict);
    assert_eq!(oson_value_to_py(OsonValue::Null), OsonPlan::Null);
}

#[test]
fn fetched_values_are_kept_in_variables() {
    assert_eq!(
        record_fetch_value_vars(&vec![true, false], 2, 3),
        vec![FetchValueVar::Reuse, FetchValueVar::OfColumn, FetchValueVar::OfText]
    );
    assert_eq!(
        fetch_vars(&vec![true, false], &vec![true, true, false]),
        vec![FetchVar::Handler, FetchVar::Value, FetchVar::Missing]
    );
}

#[test]
fn all_rows_are_drained() {
    let mut b = buffer(vec![1, 2], 0);
    let mut d = Drain::start(&mut b, true, true).ok().unwrap();
    assert_eq!(d.rows, vec![1, 2]);
    assert!(d.pending_define && b.rows.is_empty());
    assert!(Drain::wants_more(&b));
    d.absorb(&mut b, vec![3], 0, false);
    assert_eq!(d.rows, vec![1, 2, 3]);
    assert!(!d.pending_define && !Drain::wants_more(&b));
    let mut defines = Defines::empty();
    defines.requires_define = true;
    assert_eq!(d.finish(&mut defines), vec![1, 2, 3]);
    assert!(!defines.requires_define);
    assert!(matches!(
        Drain::start(&mut b, false, false),
        Err(Fault::Named(ErrorName::NotAQuery))
    ));
}

#[test]
fn frames_cover_all_rows() {
    assert_eq!(
        slice_batch_into_frames(5, 2),
        vec![
            RowSlice { offset: 0, len: 2 },
            RowSlice { offset: 2, len: 2 },
            RowSlice { offset: 4, len: 1 },
        ]
    );
    assert_eq!(slice_batch_into_frames(0, 2), vec![RowSlice { offset: 0, len: 0 }]);
    assert_eq!(slice_batch_into_frames(2, 0).len(), 2);
    assert_eq!(slice_batch_into_frames(4, 2).len(), 2);
}

#[test]
fn batches_that_cannot_be_cut_are_refused() {
    match executemany_manager_error(&BatchWindowError::ZeroBatchSize) {
        Fault::TypeError(m) => assert_eq!(m, "batch_size must be greater than zero"),
        other => panic!("{:?}", other),
    }
    match executemany_manager_error(&BatchWindowError::RowCountOverflow("too many".to_string())) {
        Fault::TypeError(_) => panic!("a row count is no type error"),
        other => assert!(format!("{:?}", other).contains("too many")),
    }
}

#[test]
fn a_batch_run_row_by_row_returns_no_rows() {
    let r: QueryResult<u32> = QueryResult::of_batch(4, Some("AAA".to_string()), true);
    assert!(r.columns.is_empty() && r.rows.is_empty() && r.batch_errors.is_empty());
    assert_eq!((r.row_count, r.cursor_id, r.more_rows), (4, 0, false));
    assert_eq!(r.last_rowid.as_deref(), Some("AAA"));
    assert!(r.compilation_error_warning);
    assert!(r.array_dml_row_counts.is_none() && r.implicit_resultsets.is_none());
}

fn reply(has_columns: bool, autocommit: bool) -> ExecuteReply {
    ExecuteReply { succeeded: true, has_columns, autocommit }
}

fn calls(
    flavor: Flavor,
    many: bool,
    is_plsql: bool,
    autocommit: bool,
    r: ExecuteReply,
) -> Vec<ExecuteCall> {
    let mut run = ExecuteRun::start(flavor, many, is_plsql, autocommit);
    let mut made = vec![];
    while run.call != ExecuteCall::Done {
        made.push(run.call);
        run.answer(r);
    }
    made
}

#[test]
fn an_execution_calls_in_order() {
    let front = vec![
        ExecuteCall::ReleaseCursor,
        ExecuteCall::ApplySchema,
        ExecuteCall::StoreTypedLobs,
    ];
    let with = |more: &[ExecuteCall]| {
        let mut all = front.clone();
        all.extend_from_slice(more);
        all
    };
    assert_eq!(
        calls(Flavor::Blocking, false, false, false, reply(false, true)),
        with(&[
            ExecuteCall::Execute,
            ExecuteCall::CheckCancel,
            ExecuteCall::LookUpJson,
            ExecuteCall::TakeOutputs,
            ExecuteCall::ResetCursors,
            ExecuteCall::Commit,
        ])
    );
    assert_eq!(
        calls(Flavor::Awaited, false, true, true, reply(false, false)),
        with(&[
            ExecuteCall::StoreLongBinds,
            ExecuteCall::Execute,
            ExecuteCall::LookUpJson,
            ExecuteCall::Commit,
            ExecuteCall::CheckCancel,
            ExecuteCall::TakeOutputs,
            ExecuteCall::ResetCursors,
        ])
    );
    assert_eq!(
        calls(Flavor::Blocking, true, true, false, reply(false, true)),
        vec![
            ExecuteCall::ApplySchema,
            ExecuteCall::StoreTypedLobs,
            ExecuteCall::StoreLongBinds,
            ExecuteCall::Execute,
            ExecuteCall::RecordBatch,
            ExecuteCall::Commit,
            ExecuteCall::CheckCancel,
            ExecuteCall::LookUpJson,
            ExecuteCall::TakeOutputs,
        ]
    );
    assert_eq!(
        calls(Flavor::Awaited, true, false, true, reply(false, true)),
        vec![
            ExecuteCall::ApplySchema,
            ExecuteCall::StoreTypedLobs,
            ExecuteCall::Execute,
            ExecuteCall::LookUpJson,
            ExecuteCall::Commit,
            ExecuteCall::CheckCancel,
            ExecuteCall::RecordBatch,
            ExecuteCall::TakeOutputs,
        ]
    );
    let never = [
        calls(Flavor::Blocking, true, false, true, reply(true, true)),
        calls(Flavor::Awaited, true, true, true, reply(true, true)),
        calls(Flavor::Blocking, false, false, true, reply(true, true)),
        calls(Flavor::Blocking, false, false, true, reply(false, false)),
        calls(Flavor::Awaited, false, true, true, reply(true, true)),
        calls(Flavor::Awaited, false, true, false, reply(false, true)),
    ];
    for made in never {
        assert!(!made.contains(&ExecuteCall::Commit));
        assert_eq!(made.iter().filter(|call| **call == ExecuteCall::Execute).count(), 1);
    }
}

#[test]
fn a_failed_execution_calls_nothing_more() {
    let mut run = ExecuteRun::start(Flavor::Awaited, false, false, true);
    run.answer(reply(false, true));
    run.answer(ExecuteReply { succeeded: false, has_columns: false, autocommit: true });
    assert_eq!(run.call, ExecuteCall::Failed);
    run.answer(reply(false, true));
    assert_eq!(run.call, ExecuteCall::Failed);
}

#[test]
fn an_execution_binds_no_row_or_one() {
    assert!(bind_rows(vec![]).is_empty());
    let rows = bind_rows(vec![BindValue::Number("1".to_string()), BindValue::Null]);
    assert_eq!((rows.len(), rows[0].len()), (1, 2));
}
