use oracledb_pyshim::aq::{
    assign_message_ids, decode_payload, queue_desc, uninitialized, DeqOptions, EnqOptions,
    MsgPayload, MsgProps, PayloadKind, PayloadPlan, QueueState, ReceivedMsg, ReceivedPayload,
};
use oracledb_pyshim::binds::{ContainerKind, Payload};
use oracledb_pyshim::catalog::{
    assemble_type, missing_table, object_attr_columns, object_collection_limits,
    object_element_columns, package_attr_columns, package_collection_limits,
    package_element_columns, no_limits, object_type_collection_metadata,
    plsql_type_collection_metadata, plan_get_type, plan_nested_type, plan_package_type, read_cell,
    read_described_type, read_described_types, read_oid, read_package_type_row, read_type_row, read_typecode,
    rowtype_columns, rowtype_descriptions, split_type_name, strip_text_suffix, type_request, type_shape_identity,
    CollectionLimits, NestedLookup, OutValue, ShapeIdentity, TypePlan,
};
use oracledb_pyshim::cursor::Flavor;
use oracledb_pyshim::dictionary::{
    json_column_query, object_attrs_query, object_collection_query, object_oid_query,
    object_typecode_query, package_attrs_query, package_collection_query, package_oid_query,
    package_type_query, package_typecode_query, rowtype_attrs_query, type_shape_call, ServerFact,
};
use oracledb_pyshim::errors::{ErrorName, Fault};
use oracledb_pyshim::hooks::{ConnectArgs, PasswordEnvironment};
use oracledb_pyshim::pool::{refuse, Pool, PoolKind, PoolOperation, PoolParams};
use oracledb_pyshim::session::{ConnState, EditionStep, ServerCall, XidFacets, XidMember, begin_dbop, create_end_user_security_context, dbop_execution_id, edition_statement, extract_optional_xid, extract_xid, new_connection, new_connection_for_pool, prepare_connect, set_action, set_client_identifier, set_client_info, set_end_user_security_context, set_module, supports_long_field_names, temp_lob_type, tpc_forget};
use oracledb_pyshim::soda::{
    get_content, replace_one, CollectionMetadata, ContentPlan, DocCursor, ReplaceAnswer,
    UnsupportedSoda,
};
use oracledb_pyshim::sqltext::CatalogValue;
use oracledb_pyshim::subscr::{
    after_delivery, background_error, before_receipt, check_client_initiated,
    check_registered_query, on_notification, registered_query_id, statement_is_query, Delivery, EmonStep,
    Notification, ReadyState, Registration,
};
use oracledb_pyshim::task::TaskSlot;
use oracledb_pyshim::typehandler::{
    active_input_type_handler, apply_input_type_handler, goes_through_handler,
    handler_uses_metadata, input_handler_substitute, HandlerAnswer, HandlerSource, HandlerTarget,
    Substitution,
};
use oracledb_pyshim::value::{BindValue, CsForm, DateTimeFields, OraType};

fn state() -> ConnState {
    ConnState::new(20, None, false)
}

#[test]
fn a_schema_is_applied_once() {
    let mut c = state();
    assert!(matches!(c.apply_pending_current_schema(Flavor::Blocking), Ok(None)));
    assert!(c.set_current_schema(Some("hr".to_string())).is_ok());
    match c.apply_pending_current_schema(Flavor::Blocking) {
        Ok(Some(sql)) => assert_eq!(sql, "alter session set current_schema = hr"),
        _ => panic!("schema"),
    }
    assert!(matches!(c.apply_pending_current_schema(Flavor::Blocking), Ok(None)));
    assert_eq!(c.current_schema.as_deref(), Some("hr"));
    c.restore_pending_current_schema();
    assert!(matches!(c.apply_pending_current_schema(Flavor::Awaited), Ok(Some(_))));
    assert!(matches!(c.set_current_schema(Some("a b".to_string())), Err(Fault::NotImplemented(_))));
    assert!(c.set_current_schema(None).is_ok());
    assert!(c.current_schema.is_none() && !c.current_schema_modified);
}

#[test]
fn statements_change_what_is_known_of_the_session() {
    let mut c = state();
    c.record_statement("alter session set current_schema = hr;");
    assert_eq!(c.current_schema.as_deref(), Some("hr"));
    assert!(!c.current_schema_modified);
    c.record_statement("select 1 from dual");
    assert_eq!(c.current_schema.as_deref(), Some("hr"));
}

#[test]
fn the_edition_is_asked_for_late() {
    let mut c = state();
    assert!(matches!(c.get_edition(), EditionStep::Known(None)));
    assert!(matches!(c.get_edition(), EditionStep::Ask));
    c.finish_edition("E1".to_string());
    assert!(matches!(c.get_edition(), EditionStep::Known(Some(e)) if e == "E1"));
    assert_eq!(edition_statement("e1").unwrap(), "alter session set edition = e1");
    assert!(edition_statement("e 1").is_err());
}

#[test]
fn session_attributes_are_set_by_calls() {
    let call = set_action(Some("a".to_string()));
    assert_eq!(call.sql, "begin dbms_application_info.set_action(:1); end;");
    assert!(matches!(&call.binds[..], [BindValue::Text(t)] if t == "a"));
    assert!(matches!(set_client_info(None).binds[..], [BindValue::Null]));
    assert_eq!(set_module(None).sql, "begin dbms_application_info.set_module(:1, null); end;");
    assert!(set_client_identifier(None).binds.is_empty());
    assert_eq!(
        set_client_identifier(Some("x".to_string())).sql,
        "begin dbms_session.set_identifier(:1); end;"
    );
    let mut c = state();
    assert!(c.end_dbop().is_none());
    assert_eq!(begin_dbop("op".to_string()).binds.len(), 1);
    let cell = |s: &str| Some(CatalogValue::Number(s.to_string()));
    let refused = |r: Result<i64, Fault>| match r {
        Err(Fault::Runtime(m)) => m,
        other => panic!("{:?}", other),
    };
    assert_eq!(
        refused(dbop_execution_id(None)),
        "dbms_sql_monitor.begin_operation returned no row"
    );
    assert_eq!(
        refused(dbop_execution_id(Some(&vec![]))),
        "query returned NULL where integer was expected"
    );
    assert_eq!(
        refused(dbop_execution_id(Some(&vec![cell("x")]))),
        "x".parse::<i64>().unwrap_err().to_string()
    );
    let id = dbop_execution_id(Some(&vec![cell("-12"), cell("3")]));
    assert!(matches!(id, Ok(-12)));
    c.finish_dbop("op".to_string(), -12);
    let end = c.end_dbop().unwrap();
    assert!(matches!(
        &end.binds[..],
        [BindValue::Text(t), BindValue::Number(n)] if t == "op" && n == "-12"
    ));
    assert!(c.end_dbop().is_none());
}

#[test]
fn settings_of_a_connection() {
    let mut c = state();
    c.set_call_timeout(7);
    c.set_stmt_cache_size(8);
    c.set_external_name(Some("e".to_string()));
    c.set_internal_name(Some("i".to_string()));
    assert_eq!((c.call_timeout, c.stmt_cache_size), (7, 8));
    assert_eq!((c.external_name.as_deref(), c.internal_name.as_deref()), (Some("e"), Some("i")));
    assert!(supports_long_field_names(23) && !supports_long_field_names(21));
    assert_eq!(temp_lob_type("DB_TYPE_NCLOB").csfrm, CsForm::Nchar);
    assert_eq!(temp_lob_type("DB_TYPE_BLOB").ora_type, OraType::Blob);
    assert_eq!(temp_lob_type("DB_TYPE_CLOB").ora_type, OraType::Clob);
}

fn args() -> ConnectArgs {
    ConnectArgs {
        id: 1,
        password: Some("p".to_string()),
        new_password: None,
        invalid_user_dsn: false,
    }
}

fn environment() -> PasswordEnvironment {
    PasswordEnvironment {
        shim_password: None,
        main_user: None,
        main_password: None,
        password: None,
        proxy_user: None,
        proxy_password: None,
    }
}

#[test]
fn new_connections() {
    let n = new_connection(Some("tcp://h/s".to_string()), None, Some("e".to_string()), args());
    assert_eq!(n.dsn, "h/s");
    assert_eq!(n.state.stmt_cache_size, 20);
    assert!(!n.state.invalid_connect_string && n.state.edition_probe_started);
    assert_eq!(n.connect_password.as_deref(), Some("p"));
    let bad = new_connection(Some("scott@db".to_string()), Some(5), None, args());
    assert!(bad.state.invalid_connect_string);
    assert_eq!(bad.state.stmt_cache_size, 5);
    let pooled = new_connection_for_pool("scott@db".to_string(), None, None, None);
    assert!(!pooled.state.invalid_connect_string);
}

#[test]
fn connecting_is_prepared() {
    let go = |invalid: bool, dsn: &str, password: Option<&str>| {
        prepare_connect(
            invalid,
            dsn,
            password.map(|p| p.to_string()),
            &environment(),
            None,
            "scott",
            None,
            None,
        )
    };
    let c = go(false, "h/s", Some("p")).ok().unwrap();
    assert_eq!((c.password.as_str(), c.driver_name.as_str(), c.sdu), ("p", "rust-oracledb thn : 0.0.0", 8192));
    assert!(matches!(go(true, "h/s", Some("p")), Err(Fault::Database(_))));
    assert!(matches!(
        go(false, "  ", Some("p")),
        Err(Fault::NotSupported { feature }) if feature == "bequeath"
    ));
    assert!(go(false, "h/s", None).is_err());
}

fn xid() -> XidFacets {
    XidFacets {
        length: Some(3),
        format_id: Some(9),
        gtid: XidMember::Text("\u{e9}".to_string()),
        bqual: XidMember::Bytes(vec![1]),
    }
}

#[test]
fn transaction_ids() {
    let x = extract_xid(xid()).ok().unwrap();
    assert_eq!((x.format_id, x.gtid, x.bqual), (9, vec![0xc3, 0xa9], vec![1]));
    let message = |x: XidFacets| match extract_xid(x) {
        Err(Fault::TypeError(m)) => m,
        _ => panic!("xid"),
    };
    assert_eq!(message(XidFacets { length: None, ..xid() }), "xid must be a 3-element Xid");
    assert_eq!(
        message(XidFacets { format_id: None, ..xid() }),
        "xid format_id must be an integer"
    );
    assert_eq!(
        message(XidFacets { gtid: XidMember::Other, ..xid() }),
        "xid global_transaction_id must be bytes or str"
    );
    assert_eq!(
        message(XidFacets { bqual: XidMember::Other, ..xid() }),
        "xid branch_qualifier must be bytes or str"
    );
    assert!(matches!(extract_optional_xid(None), Ok(None)));
    assert!(matches!(extract_optional_xid(Some(xid())), Ok(Some(_))));
    assert!(matches!(
        tpc_forget(xid()),
        Fault::NotSupported { feature } if feature == "forgetting a TPC (two-phase commit) transaction"
    ));
    assert!(matches!(tpc_forget(XidFacets { length: None, ..xid() }), Fault::TypeError(_)));
}

#[test]
fn security_contexts() {
    assert!(matches!(set_end_user_security_context("TCPS://h/s"), Fault::NotImplemented(_)));
    assert!(matches!(
        set_end_user_security_context("h/s"),
        Fault::Named(ErrorName::EndUserSecurityContextRequiresTcps)
    ));
    let c = create_end_user_security_context(
        None,
        Some("u".to_string()),
        None,
        None,
        None,
        Some("a".to_string()),
    )
    .ok()
    .unwrap();
    let entries: Vec<(&str, &str)> = c.payload.iter().map(|e| (e.name, e.value.as_str())).collect();
    assert_eq!(entries, vec![("ver", "1.0"), ("end_user_name", "u"), ("attributes", "a")]);
    let long = Some("x".repeat(65_535));
    assert!(matches!(
        create_end_user_security_context(long, None, None, None, None, None),
        Err(Fault::Named(ErrorName::InvalidEndUserSecurityContextLength))
    ));
}

fn text(s: &str) -> Option<CatalogValue> {
    Some(CatalogValue::Text(s.to_string()))
}

#[test]
fn type_names_are_taken_apart() {
    assert_eq!(split_type_name(" hr . . t "), vec!["hr".to_string(), "t".to_string()]);
    assert_eq!(strip_text_suffix("T%ROWTYPE", "%ROWTYPE").as_deref(), Some("T"));
    assert_eq!(strip_text_suffix("T", "%ROWTYPE"), None);
    let r = type_request("hr.t");
    assert_eq!((r.type_label.as_str(), r.owner.as_deref()), ("T", Some("HR")));
    match plan_get_type(&r, "scott") {
        TypePlan::Dictionary { sql, binds } => {
            assert_eq!(
                sql,
                "select owner, type_name, typecode from all_types where type_name = :1 and owner = :2 order by owner"
            );
            assert_eq!(binds.len(), 2);
        }
        _ => panic!("dictionary"),
    }
    match plan_get_type(&type_request("emp%rowtype"), "scott") {
        TypePlan::Rowtype { schema, table_name } => {
            assert_eq!((schema.as_str(), table_name.as_str()), ("SCOTT", "EMP"));
        }
        _ => panic!("rowtype"),
    }
    let p = plan_package_type(&type_request("pkg.t"), "scott", "pkg.t").ok().unwrap();
    assert_eq!((p.schema.as_str(), p.package_name.as_str(), p.type_label.as_str()), ("SCOTT", "pkg", "t"));
    let p = plan_package_type(&type_request("hr.pkg.t"), "scott", "hr.pkg.t").ok().unwrap();
    assert_eq!(p.schema, "hr");
    assert!(matches!(
        plan_package_type(&type_request("t"), "scott", "t"),
        Err(Fault::InvalidObjectTypeName { name }) if name == "t"
    ));
    assert!(matches!(
        missing_table("EMP"),
        Fault::InvalidObjectTypeName { name } if name == "EMP%ROWTYPE"
    ));
}

#[test]
fn row_types_have_an_attribute_for_each_column() {
    let rows = vec![
        vec![text("id"), text("NUMBER"), text("22"), text("9"), text("0"), None, text("0")],
        vec![text("home"), text("ADDRESS"), None, None, None, text("HR"), None],
    ];
    let v = match rowtype_descriptions(&rows, "EMP", "scott") {
        Ok(v) => v,
        Err(f) => panic!("{:?}", f),
    };
    assert_eq!(v.len(), 2);
    assert_eq!((v[0].name.as_str(), v[0].owner.as_str()), ("ID", "SCOTT"));
    assert_eq!((v[0].length, v[0].precision, v[0].char_length), (Some(22), Some(9), Some(0)));
    assert_eq!((v[1].name.as_str(), v[1].type_label.as_str()), ("HOME", "ADDRESS"));
    assert_eq!(v[1].owner, "HR");
    match rowtype_descriptions(&vec![], "EMP", "scott") {
        Err(Fault::InvalidObjectTypeName { name }) => assert_eq!(name, "EMP%ROWTYPE"),
        _ => panic!("a table without columns"),
    }
    let attributes = read_described_types(&rows, object_attr_columns(), "scott");
    assert_eq!((attributes.len(), attributes[0].char_length), (2, None));
}

#[test]
fn dictionary_rows_are_read() {
    let row = vec![text("HR"), None, text("COLLECTION")];
    let t = read_type_row(&row, "scott", "T");
    assert_eq!((t.schema.as_str(), t.type_label.as_str(), t.typecode.as_str()), ("HR", "T", "COLLECTION"));
    assert_eq!(read_cell(&row, 7), None);
    assert_eq!(read_typecode(None), "OBJECT");
    assert_eq!(read_typecode(Some(&vec![text("COLLECTION")])), "COLLECTION");
    let asked = plan_package_type(&type_request("pkg.t"), "scott", "pkg.t").ok().unwrap();
    let p = read_package_type_row(Some(&vec![None, None, None, None]), &asked, "pkg.t").ok().unwrap();
    assert_eq!((p.package_name.as_str(), p.typecode.as_str()), ("PKG", "OBJECT"));
    assert!(read_package_type_row(None, &asked, "pkg.t").is_err());
    assert_eq!(read_oid(Some(&vec![Some(CatalogValue::Raw(vec![1, 2]))])), Some(vec![1, 2]));
    assert_eq!(read_oid(Some(&vec![text("x")])), None);
}

#[test]
fn attributes_are_described() {
    let row = vec![text("A"), text("VARCHAR2"), text("30"), text("5"), text("-2"), None];
    let d = read_described_type(&row, object_attr_columns(), "HR");
    assert_eq!((d.name.as_str(), d.owner.as_str(), d.type_label.as_str()), ("A", "HR", "VARCHAR2"));
    assert_eq!((d.length, d.precision, d.scale), (Some(30), Some(5), Some(-2)));
    assert_eq!(package_attr_columns().type_package, Some(2));
    assert_eq!(rowtype_columns().char_length, Some(6));
    assert_eq!(object_element_columns().name, None);
    assert_eq!(package_element_columns().type_label, 2);
    assert!(matches!(plan_nested_type(&d, "DB_TYPE_VARCHAR", false), NestedLookup::Nothing));
    assert!(matches!(plan_nested_type(&d, "DB_TYPE_OBJECT", false), NestedLookup::Object { .. }));
    let element = vec![text("HR"), text("PKG"), text("EMP%ROWTYPE")];
    let e = read_described_type(&element, package_element_columns(), "HR");
    assert!(matches!(
        plan_nested_type(&e, "DB_TYPE_OBJECT", true),
        NestedLookup::Rowtype { table_name, .. } if table_name == "EMP"
    ));
    assert!(matches!(
        plan_nested_type(&e, "DB_TYPE_OBJECT", false),
        NestedLookup::Package { package_name, .. } if package_name == "PKG"
    ));
}

#[test]
fn collections_are_described() {
    let mut row = vec![None, None, None, None, None, text("10")];
    let limits = object_collection_limits(&row);
    assert_eq!(limits, CollectionLimits { max_num_elements: 10, is_assoc_array: false });
    row.push(None);
    row.push(text("pl/sql index table"));
    row.push(None);
    assert!(package_collection_limits(&row).is_assoc_array);
    row[7] = None;
    assert!(!package_collection_limits(&row).is_assoc_array);
    row[8] = text("BINARY_INTEGER");
    assert!(package_collection_limits(&row).is_assoc_array);
}

#[test]
fn a_type_without_a_collection_row_is_no_collection() {
    let none = object_type_collection_metadata(None, "hr", false);
    assert!(none.element.is_none() && none.has_attrs);
    assert_eq!(none.limits, no_limits());
    let none = plsql_type_collection_metadata(None, "hr");
    assert!(none.element.is_none() && none.has_attrs);
    assert_eq!(none.limits, CollectionLimits { max_num_elements: 0, is_assoc_array: false });
    let row = vec![None, text("NUMBER"), None, text("5"), text("2"), text("10")];
    let found = object_type_collection_metadata(Some(&row), "hr", false);
    let element = found.element.unwrap();
    assert_eq!((element.name.as_str(), element.owner.as_str()), ("", "HR"));
    assert_eq!((element.type_label.as_str(), element.precision), ("NUMBER", Some(5)));
    assert_eq!(found.limits.max_num_elements, 10);
    assert!(!found.has_attrs);
    assert!(object_type_collection_metadata(Some(&row), "hr", true).has_attrs);
    let row = vec![
        text("A"), text("P"), text("T"), None, None, None, text("x"), None, text("BINARY_INTEGER"),
    ];
    let found = plsql_type_collection_metadata(Some(&row), "hr");
    let element = found.element.unwrap();
    assert_eq!((element.name.as_str(), element.package_name.as_deref()), ("", Some("P")));
    assert_eq!(found.limits, CollectionLimits { max_num_elements: 0, is_assoc_array: true });
    assert!(!found.has_attrs);
}

#[test]
fn types_are_put_together() {
    let shape = type_shape_identity(&vec![], Some(vec![9]));
    assert_eq!((shape.oid.clone(), shape.version), (Some(vec![9]), 0));
    let out = vec![OutValue { index: 0, value: None }];
    assert_eq!(type_shape_identity(&out, None).oid, None);
    let t = assemble_type(
        "hr",
        Some("pkg"),
        "t",
        "collection",
        vec![],
        None,
        CollectionLimits { max_num_elements: 4, is_assoc_array: true },
        ShapeIdentity { oid: Some(vec![1]), version: 2 },
    );
    assert_eq!(t.identity.get_fqn(), "HR.PKG.T");
    assert!(t.is_collection && t.is_assoc_array);
    assert_eq!((t.max_num_elements, t.version), (4, 2));
}

fn params() -> PoolParams {
    PoolParams {
        min: None,
        max: None,
        increment: None,
        homogeneous: None,
        getmode: None,
        max_lifetime_session: None,
        ping_interval: None,
        stmt_cache_size: None,
        timeout: None,
        wait_timeout: Some(30),
    }
}

#[test]
fn pools_have_defaults() {
    let p = Pool::new("tcp://h/s".to_string(), "u".to_string(), params());
    assert_eq!(p.dsn, "h/s");
    assert_eq!((p.settings.min, p.settings.max, p.settings.increment), (1, 2, 1));
    assert_eq!((p.settings.ping_interval, p.settings.stmt_cache_size), (60, 20));
    assert!(p.settings.homogeneous && p.counts.opened);
}

#[test]
fn leaving_timed_wait_forgets_the_timeout() {
    let mut p = Pool::new("h/s".to_string(), "u".to_string(), params());
    assert_eq!(p.get_wait_timeout(), 0);
    p.set_getmode(2);
    assert_eq!(p.get_wait_timeout(), 30);
    p.set_getmode(1);
    assert_eq!(p.get_wait_timeout(), 0);
    p.set_getmode(2);
    assert_eq!(p.get_wait_timeout(), 0);
    p.set_wait_timeout(5);
    assert_eq!(p.get_wait_timeout(), 5);
    p.set_max_lifetime_session(7);
    p.set_ping_interval(8);
    p.set_stmt_cache_size(9);
    p.set_timeout(10);
    assert_eq!((p.settings.max_lifetime_session, p.settings.ping_interval), (7, 8));
    assert_eq!((p.settings.stmt_cache_size, p.settings.timeout), (9, 10));
    p.reconfigure(3, 4, 5);
    assert_eq!((p.settings.min, p.settings.max, p.settings.increment), (3, 4, 5));
    p.close();
    assert!(!p.counts.opened && p.counts.open_count == 0);
}

#[test]
fn refused_pool_operations() {
    let acquire = PoolOperation::Acquire { tagged: false };
    assert!(matches!(
        refuse(PoolKind::Blocking, false, acquire),
        Fault::Named(ErrorName::PoolNotOpen)
    ));
    assert!(matches!(
        refuse(PoolKind::Awaited, true, acquire),
        Fault::NotImplemented(m) if m.starts_with("AsyncThinPoolImpl.acquire")
    ));
    assert!(matches!(
        refuse(PoolKind::Blocking, true, PoolOperation::Acquire { tagged: true }),
        Fault::NotSupported { feature } if feature == "session tagging"
    ));
}

#[test]
fn no_result_is_missed() {
    let mut early: TaskSlot<u32, &str> = TaskSlot::pending();
    assert_eq!(early.poll("w"), None);
    assert_eq!(early.complete(5), Some("w"));
    assert_eq!(early.poll("v"), Some(5));
    assert_eq!(early.poll("v"), None);
    let mut late: TaskSlot<u32, &str> = TaskSlot::pending();
    assert_eq!(late.complete(6), None);
    assert_eq!(late.poll("w"), Some(6));
    let mut ready: TaskSlot<u32, &str> = TaskSlot::ready(7);
    assert_eq!(ready.poll("w"), Some(7));
}

#[test]
fn input_type_handlers() {
    assert_eq!(active_input_type_handler(true, true), Some(HandlerSource::Cursor));
    assert_eq!(active_input_type_handler(false, true), Some(HandlerSource::Connection));
    assert_eq!(active_input_type_handler(false, false), None);
    assert!(goes_through_handler(false) && !goes_through_handler(true));
    assert_eq!(input_handler_substitute(HandlerAnswer::Nothing), Ok(Substitution::Keep));
    assert_eq!(input_handler_substitute(HandlerAnswer::Variable), Ok(Substitution::Replace));
    assert_eq!(input_handler_substitute(HandlerAnswer::Other), Err(ErrorName::ExpectingVar));
    let p = |kind| Some(Payload { is_none: false, kind, len: 2, items: 2 });
    assert_eq!(apply_input_type_handler(None), HandlerTarget::Unchanged);
    assert_eq!(apply_input_type_handler(p(ContainerKind::Dict)), HandlerTarget::Mapping);
    assert_eq!(apply_input_type_handler(p(ContainerKind::Tuple)), HandlerTarget::Positions(2));
    assert_eq!(apply_input_type_handler(p(ContainerKind::Text)), HandlerTarget::Unchanged);
    assert!(handler_uses_metadata(Some(2)));
    assert!(!handler_uses_metadata(Some(6)) && !handler_uses_metadata(None));
}

#[test]
fn queue_options() {
    let d = DeqOptions::new();
    let sent = d.to_protocol();
    assert_eq!((sent.mode, sent.navigation, sent.visibility, sent.wait), (3, 3, 2, u32::MAX));
    let mut other = DeqOptions::new();
    other.mode = u32::MAX;
    other.msgid = Some(vec![1]);
    assert_eq!((other.to_protocol().mode, other.to_protocol().msgid), (-1, Some(vec![1])));
    let e = EnqOptions::new().to_protocol();
    assert_eq!((e.visibility, e.delivery_mode), (2, 1));
}

#[test]
fn messages() {
    let mut m = MsgProps::new();
    assert_eq!((m.expiration, m.priority), (-1, 0));
    assert!(matches!(m.payload, MsgPayload::Nothing));
    m.recipients = Some(vec!["a".to_string()]);
    assert_eq!(m.to_protocol().recipients, vec!["a".to_string()]);
    assert!(MsgProps::new().to_protocol().recipients.is_empty());
    m.finish_enq(Some(vec![7]));
    m.finish_enq(None);
    assert_eq!(m.msgid, Some(vec![7]));
    assert_eq!(assign_message_ids(2, vec![vec![1]]), vec![Some(vec![1]), None]);
    assert_eq!(assign_message_ids(1, vec![vec![1], vec![2]]), vec![Some(vec![1])]);
    let t = DateTimeFields { year: 1, month: 1, day: 1, hour: 1, minute: 1, second: 1, nanosecond: 4500 };
    let received = ReceivedMsg {
        priority: 4,
        delay: 0,
        expiration: 0,
        correlation: None,
        exception_queue: None,
        state: 2,
        num_attempts: 1,
        delivery_mode: 1,
        enq_time: Some(t),
        msgid: None,
    };
    let m = MsgProps::from_deq_message(received, 42);
    assert_eq!((m.priority, m.state, m.payload_attr), (4, 2, Some(42)));
    assert_eq!(m.get_enq_time().unwrap().nanosecond, 4);
}

#[test]
fn payloads_and_queues() {
    assert_eq!(decode_payload(ReceivedPayload::Raw, true, true), PayloadPlan::Bytes);
    assert_eq!(decode_payload(ReceivedPayload::Object, false, false), PayloadPlan::Nothing);
    assert_eq!(decode_payload(ReceivedPayload::Object, true, false), PayloadPlan::Object);
    assert_eq!(decode_payload(ReceivedPayload::Missing, false, true), PayloadPlan::Nothing);
    assert_eq!(decode_payload(ReceivedPayload::Missing, true, false), PayloadPlan::EmptyObject);
    assert_eq!(decode_payload(ReceivedPayload::Missing, false, false), PayloadPlan::EmptyBytes);
    let q = |json: bool, typed: bool| QueueState {
        name: "Q".to_string(),
        is_json: json,
        has_payload_type: typed,
        payload_oid: Some(vec![3]),
    };
    assert_eq!(q(true, true).kind(), PayloadKind::Json);
    let d = queue_desc(&Some(q(false, true))).ok().unwrap();
    assert_eq!((d.kind, d.object_oid), (PayloadKind::Object, Some(vec![3])));
    let raw = queue_desc(&Some(q(false, false))).ok().unwrap();
    assert_eq!((raw.kind, raw.object_oid), (PayloadKind::Raw, None));
    assert!(matches!(queue_desc(&None), Err(Fault::Runtime(m)) if m == "queue is not initialized"));
    assert!(matches!(uninitialized(), Fault::Runtime(_)));
}

fn metadata(schema: Option<&str>) -> CollectionMetadata {
    CollectionMetadata {
        table_name: "T\"1".to_string(),
        schema_name: schema.map(|s| s.to_string()),
        key_column: "ID".to_string(),
        key_sql_type: "VARCHAR2".to_string(),
        content_column: "DOC".to_string(),
        read_only: false,
    }
}

#[test]
fn metadata_is_written_as_json() {
    assert_eq!(
        metadata(Some("HR")).get_metadata().unwrap(),
        "{\"contentColumn\":{\"name\":\"DOC\"},\"keyColumn\":{\"name\":\"ID\",\"sqlType\":\"VARCHAR2\"},\"readOnly\":false,\"schemaName\":\"HR\",\"tableName\":\"T\\\"1\"}"
    );
    assert_eq!(
        metadata(None).get_metadata().unwrap(),
        "{\"contentColumn\":{\"name\":\"DOC\"},\"keyColumn\":{\"name\":\"ID\",\"sqlType\":\"VARCHAR2\"},\"readOnly\":false,\"tableName\":\"T\\\"1\"}"
    );
    let document = metadata(Some("HR")).document();
    assert_eq!(document["readOnly"], serde_json::Value::Bool(false));
    assert_eq!(document["keyColumn"]["name"], serde_json::Value::String("ID".to_string()));
}

#[test]
fn documents_are_given_once() {
    let mut c = DocCursor::new(2);
    assert!(matches!(c.get_next_doc(), Ok(Some(0))));
    assert!(matches!(c.get_next_doc(), Ok(Some(1))));
    assert!(matches!(c.get_next_doc(), Ok(None)));
    assert!(c.close().is_ok());
    assert!(c.get_next_doc().is_err());
    assert!(matches!(c.close(), Err(Fault::Database(e)) if e.message == "DPY-1006: cursor is not open"));
    assert_eq!(replace_one(false, true, true), ReplaceAnswer::Flag(true));
    assert_eq!(replace_one(true, true, true), ReplaceAnswer::Document);
    assert_eq!(replace_one(true, true, false), ReplaceAnswer::Nothing);
    assert_eq!(get_content(true, true), ContentPlan::Value);
    assert_eq!(get_content(false, true), ContentPlan::Bytes);
    assert_eq!(get_content(false, false), ContentPlan::Nothing);
    assert!(matches!(
        oracledb_pyshim::soda::refuse(UnsupportedSoda::Save),
        Fault::Database(e) if e.message.starts_with("DPY-3001")
    ));
}

#[test]
fn a_signal_ends_the_wait() {
    let mut r = ReadyState::new();
    assert_eq!(r.outcome(), None);
    r.signal_ready();
    assert_eq!(r.outcome(), Some(None));
    let mut e = ReadyState::new();
    e.signal_error("x".to_string());
    e.signal_ready();
    assert_eq!(e.outcome(), Some(Some("x".to_string())));
    assert!(matches!(
        background_error("no emon"),
        Fault::Database(d) if d.message == "DPY-6007: no emon"
    ));
}

#[test]
fn subscriptions_are_registered() {
    let mut r = Registration::new();
    assert!(r.client_id_to_send().is_empty());
    assert!(r.finish_register(4, None).is_err());
    assert!(r.finish_register(5, Some(vec![1, 2])).is_ok());
    assert_eq!((r.id, r.client_id_to_send()), (5, vec![1, 2]));
    assert!(statement_is_query(" WITH x as (select 1 from dual) select * from x"));
    assert!(check_registered_query("select 1 from dual").is_none());
    assert!(matches!(
        check_registered_query("update t set a = 1"),
        Some(Fault::Database(e))
            if e.message == "DPY-1003: the executed statement does not return rows"
    ));
    assert_eq!(registered_query_id(Some(0)), None);
    assert_eq!(registered_query_id(Some(3)), Some(3));
    assert!(check_client_initiated(true).is_none());
    assert!(matches!(check_client_initiated(false), Some(Fault::NotSupported { .. })));
}

#[test]
fn notifications_are_delivered_until_the_last() {
    assert_eq!(on_notification(Notification::Message { end_of_response: true }), EmonStep::Deliver);
    assert_eq!(on_notification(Notification::Record), EmonStep::Receive);
    assert_eq!(on_notification(Notification::TimedOut), EmonStep::Receive);
    assert_eq!(on_notification(Notification::Closed), EmonStep::Stop);
    assert_eq!(after_delivery(Delivery::Done, false), EmonStep::Receive);
    assert_eq!(after_delivery(Delivery::Done, true), EmonStep::Stop);
    assert_eq!(after_delivery(Delivery::Raised, false), EmonStep::Stop);
    assert_eq!(after_delivery(Delivery::NoCallback, false), EmonStep::Stop);
    assert_eq!(before_receipt(true), EmonStep::Stop);
    assert_eq!(before_receipt(false), EmonStep::Receive);
}

fn names_of(call: &ServerCall) -> Vec<&str> {
    call.binds
        .iter()
        .map(|bind| match bind {
            BindValue::Text(s) => s.as_str(),
            _ => panic!("a name is bound as text"),
        })
        .collect()
}

#[test]
fn dictionary_names_are_upper_case() {
    let attrs = object_attrs_query("hr", "Point");
    assert!(attrs.sql.ends_with("where owner = :1 and type_name = :2 order by attr_no"));
    assert_eq!(names_of(&attrs), vec!["HR", "POINT"]);
    assert_eq!(names_of(&object_attrs_query("HR", "POINT")), names_of(&attrs));
    let three = vec!["HR", "PKG", "REC"];
    assert_eq!(names_of(&package_attrs_query("hr", "pkg", "rec")), three);
    assert_eq!(names_of(&package_collection_query("hr", "pkg", "rec")), three);
    assert_eq!(names_of(&package_typecode_query("hr", "pkg", "rec")), three);
    assert_eq!(names_of(&package_oid_query("hr", "pkg", "rec")), three);
    let package = package_type_query("hr", "pkg", "rec");
    assert!(package.sql.starts_with("select owner, package_name, type_name, typecode "));
    assert_eq!(names_of(&package), three);
    let two = vec!["HR", "T"];
    assert_eq!(names_of(&rowtype_attrs_query("hr", "t")), two);
    assert_eq!(names_of(&object_collection_query("hr", "t")), two);
    assert_eq!(names_of(&object_oid_query("hr", "t")), two);
    let typecode = object_typecode_query("hr", "t");
    assert_eq!(
        typecode.sql,
        "select typecode from all_types where owner = :1 and type_name = :2"
    );
    assert_eq!(names_of(&typecode), two);
}

#[test]
fn type_shapes_and_server_facts_are_asked_for() {
    for (package, name) in [(None, "HR.T"), (Some("p"), "HR.P.T")] {
        let call = type_shape_call("hr", package, "t");
        assert!(call.sql.contains(":1 := dbms_pickler.get_type_shape(:2, :3, :4, :5, "));
        assert_eq!(call.binds.len(), 6);
        assert!(matches!(&call.binds[1], BindValue::Text(s) if s == name));
        assert!(matches!(&call.binds[2], BindValue::Output(i)
            if i.ora_type == OraType::Raw && i.csfrm == CsForm::Unset && i.buffer_size == 64));
        assert!(matches!(&call.binds[4], BindValue::Output(i) if i.buffer_size == 32767));
        assert!(matches!(&call.binds[5], BindValue::Output(i) if i.ora_type == OraType::Cursor));
    }
    let json = json_column_query("DOC".to_string());
    assert!(json.sql.contains("from all_json_columns"));
    assert_eq!(names_of(&json), vec!["DOC"]);
    assert_eq!(ServerFact::DbName.query(), "select name from V$DATABASE");
    assert_eq!(
        ServerFact::MaxOpenCursors.query(),
        "select value from V$PARAMETER where name='open_cursors'"
    );
}
