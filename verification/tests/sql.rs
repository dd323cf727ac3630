use oracledb_pyshim::errors::{ErrorName, Fault};
use oracledb_pyshim::hooks::{ConnectArgsQueue, PasswordEnvironment, PasswordOverrides};
use oracledb_pyshim::sqltext::{
    first_sql_keyword, get_connect_sdu, is_user_without_password_dsn, merge_output_names,
    normalize_connect_string, parse_alter_session_value, plsql_output_lists,
    query_value_to_i64, query_value_to_i8, query_value_to_string, query_value_to_u32,
    quoted_oracle_string, sql_identifier, sql_parse_error, text_before_returning, user_identifier,
    validate_dml_returning_duplicate_binds, validate_parse_bind_names, CatalogValue,
    ParsedName, ReturningName, SqlError,
};
use oracledb_pyshim::textmap::TextMap;

#[test]
fn connect_strings() {
    assert_eq!(normalize_connect_string("tcps://h:1/s".to_string()), "h:1/s");
    assert_eq!(normalize_connect_string("h:1/s".to_string()), "h:1/s");
    assert!(is_user_without_password_dsn("scott@db"));
    assert!(!is_user_without_password_dsn("scott/tiger@db"));
    assert!(!is_user_without_password_dsn("h:1521@x"));
    assert!(!is_user_without_password_dsn("@db"));
    assert!(!is_user_without_password_dsn("scott@"));
    assert!(!is_user_without_password_dsn("db"));
    assert_eq!(get_connect_sdu(Some(1), &vec![Some(2)]), Some(1));
    assert_eq!(get_connect_sdu(None, &vec![None, Some(2)]), None);
    assert_eq!(get_connect_sdu(None, &vec![Some(2)]), Some(2));
    assert_eq!(get_connect_sdu(None, &vec![]), None);
}

#[test]
fn quoting_doubles_quotes() {
    assert_eq!(quoted_oracle_string("a"), "\"a\"");
    assert_eq!(quoted_oracle_string("a\"b"), "\"a\"\"b\"");
    assert_eq!(quoted_oracle_string(""), "\"\"");
    assert_ne!(quoted_oracle_string("\""), quoted_oracle_string("\"\""));
}

#[test]
fn identifiers() {
    assert_eq!(user_identifier("scott_1$#").unwrap(), "SCOTT_1$#");
    assert!(matches!(user_identifier("a b"), Err(Fault::NotImplemented(_))));
    assert_eq!(sql_identifier("Scott").unwrap(), "Scott");
    match sql_identifier("a\"b") {
        Err(Fault::NotImplemented(m)) => assert!(m.starts_with("quoted Oracle identifier is")),
        other => panic!("{:?}", other),
    }
}

#[test]
fn catalogue_values_are_read() {
    let text = |s: &str| Some(CatalogValue::Text(s.to_string()));
    assert_eq!(query_value_to_string(&text("x")).as_deref(), Some("x"));
    let raw = Some(CatalogValue::Raw("\u{e9}".as_bytes().to_vec()));
    assert_eq!(query_value_to_string(&raw).as_deref(), Some("\u{e9}"));
    assert_eq!(query_value_to_string(&Some(CatalogValue::Raw(vec![0xff]))), None);
    assert_eq!(query_value_to_string(&Some(CatalogValue::Other)), None);
    assert_eq!(query_value_to_string(&None), None);
    let number = |s: &str| Some(CatalogValue::Number(s.to_string()));
    assert!(matches!(query_value_to_i64(&number("-7")), Ok(-7)));
    assert!(matches!(query_value_to_i64(&number("-9223372036854775808")), Ok(i64::MIN)));
    assert!(matches!(
        query_value_to_i64(&None),
        Err(Fault::Runtime(m)) if m == "query returned NULL where integer was expected"
    ));
    for wrong in ["7.5", "", "9223372036854775808", "-9223372036854775809"] {
        let expected = wrong.parse::<i64>().unwrap_err().to_string();
        match query_value_to_i64(&number(wrong)) {
            Err(Fault::Runtime(m)) => assert_eq!(m, expected),
            other => panic!("{:?}", other),
        }
    }
    assert_eq!(query_value_to_u32(&number("4294967295")), Some(4294967295));
    assert_eq!(query_value_to_u32(&number("4294967296")), None);
    assert_eq!(query_value_to_u32(&number("-1")), None);
    assert_eq!(query_value_to_i8(&number("-128")), Some(-128));
    assert_eq!(query_value_to_i8(&number("128")), None);
}

#[test]
fn statements_are_recognised() {
    assert_eq!(first_sql_keyword("  \n SELECT* from t"), "select");
    assert_eq!(first_sql_keyword("/* x */ select"), "");
    assert_eq!(
        parse_alter_session_value("ALTER SESSION SET current_schema = \"Hr\" ;", "current_schema")
            .as_deref(),
        Some("Hr")
    );
    assert_eq!(
        parse_alter_session_value("alter session set edition=e1", "edition").as_deref(),
        Some("e1")
    );
    assert_eq!(parse_alter_session_value("alter session set edition =", "edition"), None);
    assert_eq!(parse_alter_session_value("select 1", "edition"), None);
}

#[test]
fn output_placeholders_of_plsql() {
    assert_eq!(
        plsql_output_lists("begin select a, b into :x, :y from t; end;"),
        vec![":x, :y".to_string()]
    );
    assert_eq!(
        plsql_output_lists("begin insert into t values (1) returning id into :z; end;"),
        vec![":z".to_string(), " :z".to_string()]
    );
    assert!(plsql_output_lists("begin null; end;").is_empty());
    assert!(plsql_output_lists("begin x into").is_empty());
}

#[test]
fn repeated_output_names_count_once() {
    let same = vec![
        vec![false, true, false, false],
        vec![true, false, true, false],
        vec![false, true, false, true],
    ];
    assert_eq!(merge_output_names(1, &same), vec![0]);
    let distinct = vec![vec![true, false], vec![false, true]];
    assert_eq!(merge_output_names(0, &distinct), vec![0, 1]);
}

#[test]
fn bind_names_are_validated() {
    let name = |n: &str, quoted: bool| ParsedName { name: n.to_string(), quoted };
    assert!(validate_parse_bind_names(&vec![name("A", false), name("ROWID", true)]).is_none());
    match validate_parse_bind_names(&vec![name("rowid", false)]) {
        Some(Fault::Database(e)) => {
            assert_eq!(e.message, "ORA-01745: invalid host/bind variable name");
            assert_eq!(e.code, Some(1745));
        }
        other => panic!("{:?}", other),
    }
}

#[test]
fn returning_clauses() {
    assert_eq!(
        text_before_returning("update t set a = :a RETURNING b into :b").as_deref(),
        Some("update t set a = :a ")
    );
    assert_eq!(text_before_returning("update t"), None);
    let names = || {
        vec![
            ReturningName { public_name: "A".to_string(), same_as: vec![false, false] },
            ReturningName { public_name: "B".to_string(), same_as: vec![false, true] },
        ]
    };
    assert!(validate_dml_returning_duplicate_binds(true, &names()).is_none());
    match validate_dml_returning_duplicate_binds(false, &names()) {
        Some(Fault::DmlReturningDupBinds { name }) => assert_eq!(name, "B"),
        other => panic!("{:?}", other),
    }
}

#[test]
fn texts_as_keys() {
    let mut m: TextMap<u32> = TextMap::new();
    m.insert("a".to_string(), 1);
    m.insert("b".to_string(), 2);
    m.insert("a".to_string(), 3);
    assert_eq!(m.get("a"), Some(&3));
    assert_eq!(m.get("b"), Some(&2));
    assert_eq!(m.get("A"), None);
}

#[test]
fn password_overrides_ignore_case() {
    let mut p = PasswordOverrides::new();
    assert_eq!(p.password_override_for_user("scott"), None);
    p.set_password_override_for_user("Scott", "t1");
    p.set_password_override_for_user("other", "t2");
    assert_eq!(p.password_override_for_user("SCOTT").as_deref(), Some("t1"));
    p.set_password_override_for_user("sCOTT", "t3");
    assert_eq!(p.password_override_for_user("scott").as_deref(), Some("t3"));
    assert_eq!(p.password_override_for_user("OTHER").as_deref(), Some("t2"));
}

#[test]
fn recorded_arguments_are_consumed_in_order() {
    let mut q = ConnectArgsQueue::new();
    let first = q.record_next_connect_args(Some("a".to_string()), None, false);
    let second = q.record_next_connect_args(None, Some("b".to_string()), true);
    let third = q.record_next_connect_args(None, None, false);
    assert_eq!((first, second, third), (1, 2, 3));
    assert!(q.discard_pending_connect_args(second));
    assert!(!q.discard_pending_connect_args(second));
    assert_eq!(q.consume_next_connect_args().password.as_deref(), Some("a"));
    assert_eq!(q.consume_next_connect_args().id, third);
    let none = q.consume_next_connect_args();
    assert_eq!(none.id, 0);
    assert!(none.password.is_none() && !none.invalid_user_dsn);
}

fn environment() -> PasswordEnvironment {
    PasswordEnvironment {
        shim_password: None,
        main_user: Some("main".to_string()),
        main_password: Some("mp".to_string()),
        password: Some("p".to_string()),
        proxy_user: Some("proxy".to_string()),
        proxy_password: None,
    }
}

#[test]
fn passwords_come_from_the_environment() {
    let e = environment();
    assert_eq!(e.env_password_for_user(Some("kept".to_string()), "x").unwrap(), "kept");
    assert_eq!(e.env_password_for_user(None, "MAIN").unwrap(), "mp");
    assert_eq!(e.env_password_for_user(None, "Proxy").unwrap(), "mp");
    let own = PasswordEnvironment { proxy_password: Some("pp".to_string()), ..environment() };
    assert_eq!(own.env_password_for_user(None, "proxy").unwrap(), "pp");
    let shim = PasswordEnvironment { shim_password: Some("s".to_string()), ..environment() };
    assert_eq!(shim.env_password_for_user(None, "main").unwrap(), "s");
    let plain = PasswordEnvironment { main_password: None, ..environment() };
    assert_eq!(plain.env_password_for_user(None, "main").unwrap(), "p");
    assert!(plain.env_password_for_user(None, "someone").is_err());
}

#[test]
fn unclosed_quotes_are_named() {
    assert!(matches!(
        sql_parse_error(SqlError::MissingEndingSingleQuote),
        Fault::Named(ErrorName::MissingEndingSingleQuote)
    ));
    assert!(matches!(
        sql_parse_error(SqlError::MissingEndingDoubleQuote),
        Fault::Named(ErrorName::MissingEndingDoubleQuote)
    ));
}
