//! A connection's session: what is remembered of it, and the calls that change it.
use vstd::prelude::*;

#[allow(unused_imports)]
use crate::lob::LobModel;

use crate::cursor::Flavor;
use crate::decimal::i64_text;
#[allow(unused_imports)]
use crate::decimal::int_text;
use crate::errors::{dpy_database_error, not_implemented, ErrorName, Fault};
#[allow(unused_imports)]
use crate::errors::{database_view, outcome, FaultView};
use crate::hooks::{ConnectArgs, PasswordEnvironment};
use crate::pyvalue::bind_optional_text;
use crate::sqltext::{
    is_user_without_password_dsn, normalize_connect_string, parse_alter_session_value,
    query_value_to_i64, sql_identifier, CatalogValue,
};
#[allow(unused_imports)]
use crate::sqltext::{
    alter_session_value, integer_of, law_session_value_is_read_back, plain_identifier,
    user_without_password, without_protocol,
};
use crate::text::{chars_of, find_chars, join2, lower_chars, owned, same_text, to_upper, trim_chars};
#[allow(unused_imports)]
use crate::text::{contains, lower, option_text, trim, upper};
use crate::value::{utf8_bytes, BindValue, CsForm, OraType};
#[allow(unused_imports)]
use vstd::utf8::encode_utf8;

verus! {

/// An operation that the database monitors.
pub struct Dbop {
    pub name: String,
    pub execution_id: i64,
}

/// What is remembered of a session.
pub struct ConnState {
    pub current_schema: Option<String>,
    /// The schema is not yet set on the server.
    pub current_schema_modified: bool,
    pub edition: Option<String>,
    pub edition_probe_started: bool,
    pub external_name: Option<String>,
    pub internal_name: Option<String>,
    pub call_timeout: u32,
    pub stmt_cache_size: u32,
    pub invalid_connect_string: bool,
    pub dbop: Option<Dbop>,
}

pub ghost struct ConnModel {
    pub current_schema: Option<Seq<char>>,
    pub current_schema_modified: bool,
    pub edition: Option<Seq<char>>,
    pub edition_probe_started: bool,
    pub external_name: Option<Seq<char>>,
    pub internal_name: Option<Seq<char>>,
    pub call_timeout: u32,
    pub stmt_cache_size: u32,
    pub invalid_connect_string: bool,
    pub dbop: Option<(Seq<char>, i64)>,
}

impl View for ConnState {
    type V = ConnModel;

    open spec fn view(&self) -> ConnModel {
        ConnModel {
            current_schema: option_text(self.current_schema),
            current_schema_modified: self.current_schema_modified,
            edition: option_text(self.edition),
            edition_probe_started: self.edition_probe_started,
            external_name: option_text(self.external_name),
            internal_name: option_text(self.internal_name),
            call_timeout: self.call_timeout,
            stmt_cache_size: self.stmt_cache_size,
            invalid_connect_string: self.invalid_connect_string,
            dbop: match self.dbop {
                Some(d) => Some((d.name@, d.execution_id)),
                None => None,
            },
        }
    }
}

/// Where the edition is known from.
pub enum EditionStep {
    Known(Option<String>),
    /// Ask the server.
    Ask,
}

/// The error for a name that cannot stand in a statement as it is.
pub open spec fn identifier_fault() -> FaultView {
    FaultView::NotImplemented(
        "quoted Oracle identifier"@
            + " is a Rust shim placeholder; M1+ must route this through the oracledb crate"@,
    )
}

impl ConnModel {
    /// The schema that the server must still be told of.
    pub open spec fn pending_schema(self) -> Option<Seq<char>> {
        if self.current_schema_modified {
            self.current_schema
        } else {
            None
        }
    }

    /// A schema that is pending can stand in a statement as it is.
    pub open spec fn pending_is_plain(self) -> bool {
        self.pending_schema() matches Some(s) ==> plain_identifier(s)
    }

    /// What is remembered after a statement was executed.
    pub open spec fn after_statement(self, statement: Seq<char>) -> ConnModel {
        match alter_session_value(statement, "current_schema"@) {
            Some(s) => ConnModel {
                current_schema: Some(s),
                current_schema_modified: false,
                ..self
            },
            None => match alter_session_value(statement, "edition"@) {
                Some(e) => ConnModel {
                    edition: Some(upper(e)),
                    edition_probe_started: true,
                    ..self
                },
                None => self,
            },
        }
    }

    /// What is remembered of a session that begins.
    pub open spec fn fresh(
        stmt_cache_size: u32,
        edition: Option<Seq<char>>,
        invalid_connect_string: bool,
    ) -> ConnModel {
        ConnModel {
            current_schema: None,
            current_schema_modified: false,
            edition,
            edition_probe_started: edition is Some,
            external_name: None,
            internal_name: None,
            call_timeout: 0,
            stmt_cache_size,
            invalid_connect_string,
            dbop: None,
        }
    }

    pub open spec fn schema_set(
        self,
        after: ConnModel,
        r: Result<(), Fault>,
        value: Option<Seq<char>>,
    ) -> bool {
        match r {
            Ok(_) => (value matches Some(s) ==> plain_identifier(s)) && after == (ConnModel {
                current_schema: value,
                current_schema_modified: value is Some,
                ..self
            }),
            Err(f) => (value matches Some(s) && !plain_identifier(s)) && f@ == identifier_fault()
                && after == self,
        }
    }

    pub open spec fn schema_applied(
        self,
        after: ConnModel,
        r: Result<Option<String>, Fault>,
        flavor: Flavor,
    ) -> bool {
        match r {
            Ok(None) => self.pending_schema() is None && after == (ConnModel {
                current_schema_modified: false,
                ..self
            }),
            Ok(Some(s)) => (self.pending_schema() matches Some(p) && plain_identifier(p) && s@
                == schema_statement(p)) && after == (ConnModel {
                current_schema_modified: false,
                ..self
            }),
            Err(f) => (self.pending_schema() matches Some(p) && !plain_identifier(p)) && f@
                == identifier_fault() && after == (ConnModel {
                current_schema_modified: flavor == Flavor::Awaited,
                ..self
            }),
        }
    }

    pub open spec fn schema_refused(self) -> ConnModel {
        ConnModel { current_schema_modified: true, ..self }
    }

    pub open spec fn edition_asked(self, after: ConnModel, r: EditionStep) -> bool {
        match r {
            EditionStep::Known(e) => {
                &&& option_text(e) == self.edition
                &&& self.edition is Some || !self.edition_probe_started
                &&& after == (ConnModel {
                    edition_probe_started: self.edition_probe_started || self.edition is None,
                    ..self
                })
            },
            EditionStep::Ask => self.edition is None && self.edition_probe_started && after == self,
        }
    }

    pub open spec fn with_edition(self, edition: Seq<char>) -> ConnModel {
        ConnModel { edition: Some(edition), edition_probe_started: true, ..self }
    }

    pub open spec fn with_call_timeout(self, value: u32) -> ConnModel {
        ConnModel { call_timeout: value, ..self }
    }

    pub open spec fn with_stmt_cache_size(self, value: u32) -> ConnModel {
        ConnModel { stmt_cache_size: value, ..self }
    }

    pub open spec fn with_external_name(self, value: Option<Seq<char>>) -> ConnModel {
        ConnModel { external_name: value, ..self }
    }

    pub open spec fn with_internal_name(self, value: Option<Seq<char>>) -> ConnModel {
        ConnModel { internal_name: value, ..self }
    }

    pub open spec fn dbop_ended(self, after: ConnModel, r: Option<ServerCall>) -> bool {
        &&& after == (ConnModel { dbop: None, ..self })
        &&& match self.dbop {
            None => r is None,
            Some(d) => r matches Some(c) && c.sql@
                == "begin dbms_sql_monitor.end_operation(:1, :2); end;"@ && c.binds@.len() == 2 && (
            c.binds@[0] matches BindValue::Text(t) && t@ == d.0) && (
            c.binds@[1] matches BindValue::Number(n) && n@ == int_text(d.1 as int)),
        }
    }

    pub open spec fn with_dbop(self, name: Seq<char>, execution_id: i64) -> ConnModel {
        ConnModel { dbop: Some((name, execution_id)), ..self }
    }
}

/// The statement that sets the schema.
pub open spec fn schema_statement(schema: Seq<char>) -> Seq<char> {
    "alter session set current_schema = "@ + schema
}

impl ConnState {
    pub fn new(stmt_cache_size: u32, edition: Option<String>, invalid_connect_string: bool) -> (r:
        Self)
        ensures
            r@ == ConnModel::fresh(stmt_cache_size, option_text(edition), invalid_connect_string),
            r@.pending_is_plain(),
    {
        let edition_probe_started = edition.is_some();
        ConnState {
            current_schema: None,
            current_schema_modified: false,
            edition,
            edition_probe_started,
            external_name: None,
            internal_name: None,
            call_timeout: 0,
            stmt_cache_size,
            invalid_connect_string,
            dbop: None,
        }
    }

    /// Remembers what an executed statement changed.
    pub fn record_statement(&mut self, statement: &str)
        ensures
            final(self)@ == old(self)@.after_statement(statement@),
            old(self)@.pending_is_plain() ==> final(self)@.pending_is_plain(),
    {
        if let Some(schema) = parse_alter_session_value(statement, "current_schema") {
            self.current_schema = Some(schema);
            self.current_schema_modified = false;
            return;
        }
        if let Some(edition) = parse_alter_session_value(statement, "edition") {
            self.edition = Some(to_upper(edition.as_str()));
            self.edition_probe_started = true;
        }
    }

    /// Sets the schema, of which the server is told before the next call.
    pub fn set_current_schema(&mut self, value: Option<String>) -> (r: Result<(), Fault>)
        ensures
            old(self)@.schema_set(final(self)@, r, option_text(value)),
            r is Ok ==> final(self)@.pending_is_plain(),
    {
        match value {
            Some(s) => match sql_identifier(s.as_str()) {
                Ok(_) => {
                    self.current_schema = Some(s);
                    self.current_schema_modified = true;
                    Ok(())
                },
                Err(f) => Err(f),
            },
            None => {
                self.current_schema = None;
                self.current_schema_modified = false;
                Ok(())
            },
        }
    }

    /// The statement that tells the server of a pending schema, which then is pending no more. A
    /// name that cannot stand in a statement stays pending where the call is awaited.
    pub fn apply_pending_current_schema(&mut self, flavor: Flavor) -> (r: Result<
        Option<String>,
        Fault,
    >)
        ensures
            old(self)@.schema_applied(final(self)@, r, flavor),
            old(self)@.pending_is_plain() ==> final(self)@.pending_is_plain(),
    {
        if !self.current_schema_modified {
            return Ok(None);
        }
        self.current_schema_modified = false;
        let statement = match &self.current_schema {
            None => {
                return Ok(None);
            },
            Some(schema) => match sql_identifier(schema.as_str()) {
                Ok(identifier) => Ok(
                    join2("alter session set current_schema = ", identifier.as_str()),
                ),
                Err(f) => Err(f),
            },
        };
        match statement {
            Ok(s) => Ok(Some(s)),
            Err(f) => {
                if flavor == Flavor::Awaited {
                    self.current_schema_modified = true;
                }
                Err(f)
            },
        }
    }

    /// After the server refused the schema: it is pending again.
    pub fn restore_pending_current_schema(&mut self)
        ensures
            final(self)@ == old(self)@.schema_refused(),
    {
        self.current_schema_modified = true;
    }

    /// Where the edition is known from. The first question without an edition is answered with
    /// none.
    pub fn get_edition(&mut self) -> (r: EditionStep)
        ensures
            old(self)@.edition_asked(final(self)@, r),
    {
        if let Some(e) = &self.edition {
            return EditionStep::Known(Some(e.clone()));
        }
        if !self.edition_probe_started {
            self.edition_probe_started = true;
            return EditionStep::Known(None);
        }
        EditionStep::Ask
    }

    /// After the server set the edition.
    pub fn finish_edition(&mut self, edition: String)
        ensures
            final(self)@ == old(self)@.with_edition(edition@),
    {
        self.edition = Some(edition);
        self.edition_probe_started = true;
    }

    pub fn set_call_timeout(&mut self, value: u32)
        ensures
            final(self)@ == old(self)@.with_call_timeout(value),
    {
        self.call_timeout = value;
    }

    pub fn set_stmt_cache_size(&mut self, value: u32)
        ensures
            final(self)@ == old(self)@.with_stmt_cache_size(value),
    {
        self.stmt_cache_size = value;
    }

    pub fn set_external_name(&mut self, value: Option<String>)
        ensures
            final(self)@ == old(self)@.with_external_name(option_text(value)),
    {
        self.external_name = value;
    }

    pub fn set_internal_name(&mut self, value: Option<String>)
        ensures
            final(self)@ == old(self)@.with_internal_name(option_text(value)),
    {
        self.internal_name = value;
    }

    /// The call that ends the monitored operation, which then is forgotten.
    pub fn end_dbop(&mut self) -> (r: Option<ServerCall>)
        ensures
            old(self)@.dbop_ended(final(self)@, r),
    {
        match self.dbop.take() {
            None => None,
            Some(d) => {
                let mut binds: Vec<BindValue> = Vec::new();
                let id = i64_text(d.execution_id);
                binds.push(BindValue::Text(d.name));
                binds.push(BindValue::Number(id));
                Some(
                    ServerCall { sql: "begin dbms_sql_monitor.end_operation(:1, :2); end;", binds },
                )
            },
        }
    }

    /// After the server began to monitor an operation.
    pub fn finish_dbop(&mut self, name: String, execution_id: i64)
        ensures
            final(self)@ == old(self)@.with_dbop(name@, execution_id),
    {
        self.dbop = Some(Dbop { name, execution_id });
    }
}

/// The server is told of a schema once: behind the call nothing is pending.
pub proof fn law_schema_is_applied_once(before: ConnModel, after: ConnModel)
    requires
        after == (ConnModel { current_schema_modified: false, ..before }),
    ensures
        after.pending_schema() is None,
        after.current_schema == before.current_schema,
{
}

/// A schema that the server refused is pending as before.
pub proof fn law_refused_schema_stays_pending(before: ConnModel, taken: ConnModel, after: ConnModel)
    requires
        before.current_schema_modified,
        taken == (ConnModel { current_schema_modified: false, ..before }),
        after == (ConnModel { current_schema_modified: true, ..taken }),
    ensures
        after == before,
{
}

/// A statement together with the values it binds.
pub struct ServerCall {
    pub sql: &'static str,
    pub binds: Vec<BindValue>,
}

impl ServerCall {
    /// The call has this text and this one value.
    pub open spec fn is_call(self, sql: Seq<char>, bind: BindValue) -> bool {
        self.sql@ == sql && self.binds@ == seq![bind]
    }

    pub open spec fn sets_action(self, value: Option<String>) -> bool {
        self.is_call("begin dbms_application_info.set_action(:1); end;"@, optional_text(value))
    }

    pub open spec fn sets_client_info(self, value: Option<String>) -> bool {
        self.is_call("begin dbms_application_info.set_client_info(:1); end;"@, optional_text(value))
    }

    pub open spec fn sets_module(self, value: Option<String>) -> bool {
        self.is_call("begin dbms_application_info.set_module(:1, null); end;"@, optional_text(value))
    }

    pub open spec fn sets_client_identifier(self, value: Option<String>) -> bool {
        match value {
            Some(s) => self.is_call(
                "begin dbms_session.set_identifier(:1); end;"@,
                BindValue::Text(s),
            ),
            None => self.sql@ == "begin dbms_session.clear_identifier; end;"@ && self.binds@.len()
                == 0,
        }
    }
}

pub open spec fn optional_text(value: Option<String>) -> BindValue {
    match value {
        Some(s) => BindValue::Text(s),
        None => BindValue::Null,
    }
}

fn one_bind(sql: &'static str, bind: BindValue) -> (r: ServerCall)
    ensures
        r.is_call(sql@, bind),
{
    let mut binds: Vec<BindValue> = Vec::new();
    binds.push(bind);
    assert(binds@ =~= seq![bind]);
    ServerCall { sql, binds }
}

pub fn set_action(value: Option<String>) -> (r: ServerCall)
    ensures
        r.sets_action(value),
{
    one_bind("begin dbms_application_info.set_action(:1); end;", bind_optional_text(value))
}

pub fn set_client_info(value: Option<String>) -> (r: ServerCall)
    ensures
        r.sets_client_info(value),
{
    one_bind("begin dbms_application_info.set_client_info(:1); end;", bind_optional_text(value))
}

pub fn set_module(value: Option<String>) -> (r: ServerCall)
    ensures
        r.sets_module(value),
{
    one_bind("begin dbms_application_info.set_module(:1, null); end;", bind_optional_text(value))
}

/// The call that sets the client's identifier, or clears it.
pub fn set_client_identifier(value: Option<String>) -> (r: ServerCall)
    ensures
        r.sets_client_identifier(value),
{
    match value {
        Some(s) => one_bind("begin dbms_session.set_identifier(:1); end;", BindValue::Text(s)),
        None => ServerCall {
            sql: "begin dbms_session.clear_identifier; end;",
            binds: Vec::new(),
        },
    }
}

/// The query that begins to monitor an operation; its value is the execution's id.
pub fn begin_dbop(name: String) -> (r: ServerCall)
    ensures
        r.is_call(
            "select dbms_sql_monitor.begin_operation(:1, null, 'Y') from dual"@,
            BindValue::Text(name),
        ),
{
    one_bind(
        "select dbms_sql_monitor.begin_operation(:1, null, 'Y') from dual",
        BindValue::Text(name),
    )
}

/// What the server's reply to [`begin_dbop`] says.
pub open spec fn dbop_reply(row: Option<Seq<Option<CatalogValue>>>) -> Result<i64, FaultView> {
    match row {
        None => Err(FaultView::Runtime("dbms_sql_monitor.begin_operation returned no row"@)),
        Some(cells) => integer_of(
            if cells.len() > 0 {
                cells[0]
            } else {
                None
            },
        ),
    }
}

/// Reads the execution's id from the row that [`begin_dbop`] selects.
pub fn dbop_execution_id(row: Option<&Vec<Option<CatalogValue>>>) -> (r: Result<i64, Fault>)
    ensures
        outcome(r) == dbop_reply(
            match row {
                Some(cells) => Some(cells@),
                None => None,
            },
        ),
{
    match row {
        None => Err(Fault::Runtime(owned("dbms_sql_monitor.begin_operation returned no row"))),
        Some(cells) => if cells.len() > 0 {
            query_value_to_i64(&cells[0])
        } else {
            query_value_to_i64(&None)
        },
    }
}

pub open spec fn edition_stated(r: Result<String, Fault>, edition: Seq<char>) -> bool {
    match r {
        Ok(s) => plain_identifier(edition) && s@ == "alter session set edition = "@ + edition,
        Err(f) => !plain_identifier(edition) && f@ == identifier_fault(),
    }
}

/// The statement that sets the edition.
pub fn edition_statement(edition: &str) -> (r: Result<String, Fault>)
    ensures
        edition_stated(r, edition@),
{
    match sql_identifier(edition) {
        Ok(identifier) => Ok(join2("alter session set edition = ", identifier.as_str())),
        Err(f) => Err(f),
    }
}

/// A connection as it is before it connects.
pub struct NewConnection {
    pub dsn: String,
    pub state: ConnState,
    pub connect_password: Option<String>,
    pub new_password: Option<String>,
}

/// The number of statements that are kept where no other is set.
pub const DEFAULT_STMT_CACHE_SIZE: u32 = 20;

pub open spec fn or_default(n: Option<u32>, default: u32) -> u32 {
    match n {
        Some(v) => v,
        None => default,
    }
}

pub fn value_or(n: Option<u32>, default: u32) -> (r: u32)
    ensures
        r == or_default(n, default),
{
    match n {
        Some(v) => v,
        None => default,
    }
}

impl NewConnection {
    pub open spec fn is_own(
        self,
        dsn: Option<String>,
        stmt_cache_size: Option<u32>,
        edition: Option<String>,
        args: ConnectArgs,
    ) -> bool {
        let given = match dsn {
            Some(d) => d@,
            None => Seq::empty(),
        };
        &&& self.dsn@ == without_protocol(given)
        &&& self.connect_password == args.password
        &&& self.new_password == args.new_password
        &&& self.state@ == ConnModel::fresh(
            or_default(stmt_cache_size, DEFAULT_STMT_CACHE_SIZE),
            option_text(edition),
            user_without_password(given) || args.invalid_user_dsn,
        )
    }

    pub open spec fn is_pooled(
        self,
        dsn: String,
        stmt_cache_size: Option<u32>,
        edition: Option<String>,
        password: Option<String>,
    ) -> bool {
        &&& self.dsn@ == without_protocol(dsn@)
        &&& self.connect_password == password
        &&& self.new_password is None
        &&& self.state@ == ConnModel::fresh(
            or_default(stmt_cache_size, DEFAULT_STMT_CACHE_SIZE),
            option_text(edition),
            false,
        )
    }
}

/// A connection of its own. A connect string that names a user without a password is remembered
/// as invalid.
pub fn new_connection(
    dsn: Option<String>,
    stmt_cache_size: Option<u32>,
    edition: Option<String>,
    args: ConnectArgs,
) -> (r: NewConnection)
    ensures
        r.is_own(dsn, stmt_cache_size, edition, args),
{
    let given = match dsn {
        Some(d) => d,
        None => String::new(),
    };
    let invalid = is_user_without_password_dsn(given.as_str());
    NewConnection {
        dsn: normalize_connect_string(given),
        state: ConnState::new(
            value_or(stmt_cache_size, DEFAULT_STMT_CACHE_SIZE),
            edition,
            invalid || args.invalid_user_dsn,
        ),
        connect_password: args.password,
        new_password: args.new_password,
    }
}

/// A connection of a pool, which hands over the password.
pub fn new_connection_for_pool(
    dsn: String,
    stmt_cache_size: Option<u32>,
    edition: Option<String>,
    password: Option<String>,
) -> (r: NewConnection)
    ensures
        r.is_pooled(dsn, stmt_cache_size, edition, password),
{
    NewConnection {
        dsn: normalize_connect_string(dsn),
        state: ConnState::new(value_or(stmt_cache_size, DEFAULT_STMT_CACHE_SIZE), edition, false),
        connect_password: password,
        new_password: None,
    }
}

/// What a connection asks for besides its address.
pub struct PreparedConnect {
    pub password: String,
    pub driver_name: String,
    pub sdu: u32,
}

/// Why a connection cannot be made, before its password is looked for.
pub open spec fn connect_fault(invalid_connect_string: bool, dsn: Seq<char>) -> Option<FaultView> {
    if invalid_connect_string {
        Some(
            database_view(
                "DPY-4000"@ + ": "@
                    + "cannot connect with a username but no password in the connect string"@,
            ),
        )
    } else if trim(dsn).len() == 0 {
        Some(FaultView::NotSupported { feature: "bequeath"@ })
    } else {
        None
    }
}

pub open spec fn connect_prepared(
    r: Result<PreparedConnect, Fault>,
    fault: Option<FaultView>,
    password: Result<Seq<char>, FaultView>,
    driver_name: Option<String>,
    sdu: Option<u32>,
) -> bool {
    match fault {
        Some(e) => r matches Err(f) && f@ == e,
        None => match r {
            Ok(c) => {
                &&& password == Ok::<Seq<char>, FaultView>(c.password@)
                &&& c.driver_name@ == match driver_name {
                    Some(d) => d@,
                    None => "rust-oracledb thn : 0.0.0"@,
                }
                &&& c.sdu == or_default(sdu, 8192)
            },
            Err(f) => password == Err::<Seq<char>, FaultView>(f@),
        },
    }
}

/// Settles what a connection asks for. The password that came with the connection goes before
/// those of the environment.
pub fn prepare_connect(
    invalid_connect_string: bool,
    dsn: &str,
    connect_password: Option<String>,
    environment: &PasswordEnvironment,
    kept_password: Option<String>,
    username: &str,
    driver_name: Option<String>,
    sdu: Option<u32>,
) -> (r: Result<PreparedConnect, Fault>)
    ensures
        connect_prepared(
            r,
            connect_fault(invalid_connect_string, dsn@),
            match connect_password {
                Some(p) => Ok(p@),
                None => environment.password_of(kept_password, username@),
            },
            driver_name,
            sdu,
        ),
{
    if invalid_connect_string {
        return Err(
            dpy_database_error(
                "DPY-4000",
                "cannot connect with a username but no password in the connect string",
            ),
        );
    }
    if trim_chars(&chars_of(dsn)).len() == 0 {
        return Err(Fault::NotSupported { feature: owned("bequeath") });
    }
    let password = match connect_password {
        Some(p) => p,
        None => match environment.env_password_for_user(kept_password, username) {
            Ok(p) => p,
            Err(f) => {
                return Err(f);
            },
        },
    };
    let driver_name = match driver_name {
        Some(d) => d,
        None => owned("rust-oracledb thn : 0.0.0"),
    };
    Ok(PreparedConnect { password, driver_name, sdu: value_or(sdu, 8192) })
}

/// A member of a transaction's identifier.
pub enum XidMember {
    Bytes(Vec<u8>),
    Text(String),
    Other,
}

/// What is known of a value that should identify a transaction. The members are there where the
/// value has three of them.
pub struct XidFacets {
    /// The number of members, if the value has any.
    pub length: Option<usize>,
    /// The first member as an integer.
    pub format_id: Option<u32>,
    pub gtid: XidMember,
    pub bqual: XidMember,
}

/// The identifier of a transaction.
pub struct Xid {
    pub format_id: u32,
    pub gtid: Vec<u8>,
    pub bqual: Vec<u8>,
}

pub open spec fn member_bytes(m: XidMember) -> Option<Seq<u8>> {
    match m {
        XidMember::Bytes(b) => Some(b@),
        XidMember::Text(t) => Some(encode_utf8(t@)),
        XidMember::Other => None,
    }
}

/// Why a value does not identify a transaction.
pub open spec fn xid_fault(x: XidFacets) -> Option<Seq<char>> {
    if x.length != Some(3usize) {
        Some("xid must be a 3-element Xid"@)
    } else if x.format_id is None {
        Some("xid format_id must be an integer"@)
    } else if member_bytes(x.gtid) is None {
        Some("xid global_transaction_id must be bytes or str"@)
    } else if member_bytes(x.bqual) is None {
        Some("xid branch_qualifier must be bytes or str"@)
    } else {
        None
    }
}

pub open spec fn xid_extracted(r: Result<Xid, Fault>, x: XidFacets) -> bool {
    match r {
        Ok(xid) => xid_fault(x) is None && x.format_id == Some(xid.format_id) && member_bytes(
            x.gtid,
        ) == Some(xid.gtid@) && member_bytes(x.bqual) == Some(xid.bqual@),
        Err(f) => xid_fault(x) matches Some(m) && f@ == FaultView::TypeError(m),
    }
}

fn extract_xid_member(m: XidMember) -> (r: Option<Vec<u8>>)
    ensures
        match r {
            Some(b) => member_bytes(m) == Some(b@),
            None => member_bytes(m) is None,
        },
{
    match m {
        XidMember::Bytes(b) => Some(b),
        XidMember::Text(t) => Some(utf8_bytes(t.as_str())),
        XidMember::Other => None,
    }
}

pub fn extract_xid(x: XidFacets) -> (r: Result<Xid, Fault>)
    ensures
        xid_extracted(r, x),
{
    let has_three = match x.length {
        Some(n) => n == 3,
        None => false,
    };
    if !has_three {
        return Err(Fault::TypeError(owned("xid must be a 3-element Xid")));
    }
    let format_id = match x.format_id {
        Some(n) => n,
        None => {
            return Err(Fault::TypeError(owned("xid format_id must be an integer")));
        },
    };
    let gtid = match extract_xid_member(x.gtid) {
        Some(b) => b,
        None => {
            return Err(Fault::TypeError(owned("xid global_transaction_id must be bytes or str")));
        },
    };
    let bqual = match extract_xid_member(x.bqual) {
        Some(b) => b,
        None => {
            return Err(Fault::TypeError(owned("xid branch_qualifier must be bytes or str")));
        },
    };
    Ok(Xid { format_id, gtid, bqual })
}

pub open spec fn forget_fault(x: XidFacets) -> FaultView {
    match xid_fault(x) {
        Some(m) => FaultView::TypeError(m),
        None => FaultView::NotSupported {
            feature: "forgetting a TPC (two-phase commit) transaction"@,
        },
    }
}

/// A transaction cannot be forgotten: the error for asking, where that of a value which identifies
/// none comes first.
pub fn tpc_forget(x: XidFacets) -> (r: Fault)
    ensures
        r@ == forget_fault(x),
{
    match extract_xid(x) {
        Ok(_) => Fault::NotSupported {
            feature: owned("forgetting a TPC (two-phase commit) transaction"),
        },
        Err(f) => f,
    }
}

pub open spec fn optional_xid_extracted(
    r: Result<Option<Xid>, Fault>,
    x: Option<XidFacets>,
) -> bool {
    match (x, r) {
        (None, Ok(None)) => true,
        (Some(v), Ok(Some(xid))) => xid_extracted(Ok(xid), v),
        (Some(v), Err(f)) => xid_extracted(Err(f), v),
        _ => false,
    }
}

/// Without a value the transaction is the current one.
pub fn extract_optional_xid(x: Option<XidFacets>) -> (r: Result<Option<Xid>, Fault>)
    ensures
        optional_xid_extracted(r, x),
{
    match x {
        None => Ok(None),
        Some(v) => match extract_xid(v) {
            Ok(xid) => Ok(Some(xid)),
            Err(f) => Err(f),
        },
    }
}

pub open spec fn long_names_from(major_version: u8) -> bool {
    major_version >= 23
}

/// Field names beyond 255 bytes are permitted from version 23 on.
pub fn supports_long_field_names(major_version: u8) -> (r: bool)
    ensures
        r == long_names_from(major_version),
{
    major_version >= 23
}

pub open spec fn security_context_fault(dsn: Seq<char>) -> FaultView {
    if contains(lower(dsn), "tcps"@) {
        FaultView::NotImplemented(
            "ThinConnImpl.set_end_user_security_context"@
                + " is a Rust shim placeholder; M1+ must route this through the oracledb crate"@,
        )
    } else {
        FaultView::Named(ErrorName::EndUserSecurityContextRequiresTcps)
    }
}

/// The error with which a security context is always answered.
pub fn set_end_user_security_context(dsn: &str) -> (r: Fault)
    ensures
        r@ == security_context_fault(dsn@),
{
    if find_chars(&lower_chars(&chars_of(dsn)), &chars_of("tcps"), 0).is_none() {
        Fault::Named(ErrorName::EndUserSecurityContextRequiresTcps)
    } else {
        not_implemented("ThinConnImpl.set_end_user_security_context")
    }
}

pub struct ContextEntry {
    pub name: &'static str,
    pub value: String,
}

/// What is sent of an end user's security context.
pub struct SecurityContext {
    pub payload: Vec<ContextEntry>,
}

pub open spec fn entry_view(e: ContextEntry) -> (Seq<char>, Seq<char>) {
    (e.name@, e.value@)
}

pub open spec fn entry_views(s: Seq<ContextEntry>) -> Seq<(Seq<char>, Seq<char>)> {
    s.map_values(|e: ContextEntry| entry_view(e))
}

/// The entries with one more, if it has a value.
pub open spec fn with_entry(
    s: Seq<(Seq<char>, Seq<char>)>,
    name: Seq<char>,
    value: Option<String>,
) -> Seq<(Seq<char>, Seq<char>)> {
    match value {
        Some(v) => s.push((name, v@)),
        None => s,
    }
}

/// The entries of a security context.
pub open spec fn context_entries(
    end_user_token: Option<String>,
    end_user_name: Option<String>,
    key: Option<String>,
    database_access_token: Option<String>,
    data_roles: Option<String>,
    attributes: Option<String>,
) -> Seq<(Seq<char>, Seq<char>)> {
    let e0 = seq![("ver"@, "1.0"@)];
    let e1 = with_entry(e0, "end_user_token"@, end_user_token);
    let e2 = with_entry(e1, "end_user_name"@, end_user_name);
    let e3 = with_entry(e2, "end_user_contextid"@, key);
    let e4 = with_entry(e3, "database_access_token"@, database_access_token);
    let e5 = with_entry(e4, "data_roles"@, data_roles);
    with_entry(e5, "attributes"@, attributes)
}

pub open spec fn context_created(
    r: Result<SecurityContext, Fault>,
    entries: Seq<(Seq<char>, Seq<char>)>,
) -> bool {
    match r {
        Ok(c) => entry_views(c.payload@) == entries && encoded_len(entries) <= 65_535,
        Err(f) => encoded_len(entries) > 65_535 && f@ == FaultView::Named(
            ErrorName::InvalidEndUserSecurityContextLength,
        ),
    }
}

/// The bytes that entries take.
pub open spec fn encoded_len(s: Seq<(Seq<char>, Seq<char>)>) -> nat
    decreases s.len(),
{
    if s.len() == 0 {
        0
    } else {
        encoded_len(s.drop_last()) + encode_utf8(s.last().0).len() + encode_utf8(s.last().1).len()
            + 8
    }
}

fn push_entry(payload: &mut Vec<ContextEntry>, name: &'static str, value: Option<String>)
    ensures
        entry_views(final(payload)@) == with_entry(entry_views(old(payload)@), name@, value),
{
    if let Some(value) = value {
        let ghost before = payload@;
        let ghost text = value@;
        payload.push(ContextEntry { name, value });
        proof {
            assert(entry_views(payload@) =~= entry_views(before).push((name@, text)));
        }
    }
}

/// Adds to a count that is cut off beyond 65535.
fn add_capped(total: u32, n: usize) -> (r: u32)
    requires
        total <= 65_536,
    ensures
        r <= 65_536,
        r == if total + n > 65_535 {
            65_536
        } else {
            total + n
        },
{
    if n as u64 > 65_535 || total + n as u32 > 65_535 {
        65_536
    } else {
        total + n as u32
    }
}

/// The entries of a security context, which together may take no more than 65535 bytes.
pub fn create_end_user_security_context(
    end_user_token: Option<String>,
    end_user_name: Option<String>,
    key: Option<String>,
    database_access_token: Option<String>,
    data_roles: Option<String>,
    attributes: Option<String>,
) -> (r: Result<SecurityContext, Fault>)
    ensures
        context_created(
            r,
            context_entries(
                end_user_token,
                end_user_name,
                key,
                database_access_token,
                data_roles,
                attributes,
            ),
        ),
{
    let mut payload: Vec<ContextEntry> = Vec::new();
    proof {
        assert(entry_views(payload@) =~= Seq::<(Seq<char>, Seq<char>)>::empty());
    }
    push_entry(&mut payload, "ver", Some(owned("1.0")));
    proof {
        assert(entry_views(payload@) =~= seq![("ver"@, "1.0"@)]);
    }
    push_entry(&mut payload, "end_user_token", end_user_token);
    push_entry(&mut payload, "end_user_name", end_user_name);
    push_entry(&mut payload, "end_user_contextid", key);
    push_entry(&mut payload, "database_access_token", database_access_token);
    push_entry(&mut payload, "data_roles", data_roles);
    push_entry(&mut payload, "attributes", attributes);
    let ghost all = entry_views(payload@);
    let mut total: u32 = 0;
    let mut i: usize = 0;
    proof {
        assert(all.take(0) =~= Seq::<(Seq<char>, Seq<char>)>::empty());
    }
    while i < payload.len()
        invariant
            i <= payload@.len(),
            all == entry_views(payload@),
            total <= 65_536,
            total == if encoded_len(all.take(i as int)) > 65_535 {
                65_536
            } else {
                encoded_len(all.take(i as int)) as int
            },
        decreases payload@.len() - i,
    {
        proof {
            let longer = all.take(i + 1);
            assert(longer.drop_last() =~= all.take(i as int));
            assert(longer.last() == entry_view(payload@[i as int]));
        }
        let name_len: usize = payload[i].name.as_bytes().len();
        let value_len: usize = payload[i].value.as_str().as_bytes().len();
        total = add_capped(add_capped(add_capped(total, name_len), value_len), 8);
        i = i + 1;
    }
    proof {
        assert(all.take(all.len() as int) =~= all);
    }
    if total > 65_535 {
        Err(Fault::Named(ErrorName::InvalidEndUserSecurityContextLength))
    } else {
        Ok(SecurityContext { payload })
    }
}

/// Type and character set form of a temporary LOB.
#[derive(Clone, Copy, PartialEq, Eq, Structural, Debug)]
pub struct TempLobType {
    pub ora_type: OraType,
    pub csfrm: CsForm,
}

pub open spec fn temp_lob_of(name: Seq<char>) -> TempLobType {
    if name == "DB_TYPE_BLOB"@ {
        TempLobType { ora_type: OraType::Blob, csfrm: CsForm::Unset }
    } else if name == "DB_TYPE_NCLOB"@ {
        TempLobType { ora_type: OraType::Clob, csfrm: CsForm::Nchar }
    } else {
        TempLobType { ora_type: OraType::Clob, csfrm: CsForm::Implicit }
    }
}

pub fn temp_lob_type(dbtype_name: &str) -> (r: TempLobType)
    ensures
        r == temp_lob_of(dbtype_name@),
{
    if same_text(dbtype_name, "DB_TYPE_BLOB") {
        TempLobType { ora_type: OraType::Blob, csfrm: CsForm::Unset }
    } else if same_text(dbtype_name, "DB_TYPE_NCLOB") {
        TempLobType { ora_type: OraType::Clob, csfrm: CsForm::Nchar }
    } else {
        TempLobType { ora_type: OraType::Clob, csfrm: CsForm::Implicit }
    }
}

/// A schema that was set is remembered at once, and the next call tells the server of it, by name
/// and only once. Nothing else of the session changes. Without a schema, the server is told nothing.
pub proof fn law_schema_reaches_the_server_once(
    m: ConnModel,
    set: ConnModel,
    applied: ConnModel,
    again: ConnModel,
    r: Result<(), Fault>,
    value: Option<Seq<char>>,
    flavor: Flavor,
    first: Result<Option<String>, Fault>,
    second: Result<Option<String>, Fault>,
)
    requires
        m.schema_set(set, r, value),
        r is Ok,
        set.schema_applied(applied, first, flavor),
        applied.schema_applied(again, second, flavor),
    ensures
        set.current_schema == value,
        applied.current_schema == value,
        value is None ==> first == Ok::<Option<String>, Fault>(None),
        value is Some ==> (first matches Ok(Some(s)) && s@.len() == 35 + value->0.len()
            && s@.subrange(35, s@.len() as int) == value->0),
        second == Ok::<Option<String>, Fault>(None),
        applied == (ConnModel {
            current_schema: value,
            current_schema_modified: false,
            ..m
        }),
{
    reveal_strlit("alter session set current_schema = ");
    if value is Some {
        let s = first->Ok_0->0@;
        assert(s.subrange(35, s.len() as int) =~= value->0);
    }
}

/// A schema that the server refused is sent again by the next call.
pub proof fn law_refused_schema_is_sent_again(
    m: ConnModel,
    applied: ConnModel,
    again: ConnModel,
    flavor: Flavor,
    first: Result<Option<String>, Fault>,
    second: Result<Option<String>, Fault>,
)
    requires
        m.schema_applied(applied, first, flavor),
        first is Ok && first->Ok_0 is Some,
        applied.schema_refused().schema_applied(again, second, flavor),
    ensures
        second is Ok && second->Ok_0 is Some,
        second->Ok_0->0@ == first->Ok_0->0@,
        applied.schema_refused() == m,
{
}

/// A schema is refused exactly for its name, and then everything stays.
pub proof fn law_only_plain_schemas_are_set(
    m: ConnModel,
    after: ConnModel,
    r: Result<(), Fault>,
    value: Option<Seq<char>>,
)
    requires
        m.schema_set(after, r, value),
    ensures
        r is Err <==> value is Some && !plain_identifier(value->0),
        r matches Err(f) ==> after == m && f@ is NotImplemented,
{
}

/// An edition that is known is given without asking. Without one the first question is answered
/// with none, and each further one goes to the server until it gave an edition.
pub proof fn law_edition_is_asked_until_known(
    m: ConnModel,
    one: ConnModel,
    two: ConnModel,
    first: EditionStep,
    second: EditionStep,
    edition: Seq<char>,
    known: ConnModel,
    third: EditionStep,
)
    requires
        m.edition_asked(one, first),
        one.edition_asked(two, second),
        two.with_edition(edition).edition_asked(known, third),
    ensures
        m.edition is Some ==> (first matches EditionStep::Known(e) && option_text(e) == m.edition)
            && one == m && second is Known,
        m.edition is None ==> second is Ask,
        m.edition is None && !m.edition_probe_started ==> first == EditionStep::Known(None),
        m.edition is None && m.edition_probe_started ==> first is Ask,
        third matches EditionStep::Known(Some(e)) && e@ == edition,
        known.current_schema == m.current_schema,
{
}

/// Each setting changes itself alone, to what was given.
pub proof fn law_settings_are_kept(
    m: ConnModel,
    n: u32,
    name: Option<Seq<char>>,
)
    ensures
        m.with_call_timeout(n).call_timeout == n,
        m.with_call_timeout(n).with_call_timeout(m.call_timeout) == m,
        m.with_stmt_cache_size(n).stmt_cache_size == n,
        m.with_stmt_cache_size(n).with_stmt_cache_size(m.stmt_cache_size) == m,
        m.with_external_name(name).external_name == name,
        m.with_external_name(name).with_external_name(m.external_name) == m,
        m.with_internal_name(name).internal_name == name,
        m.with_internal_name(name).with_internal_name(m.internal_name) == m,
{
}

/// An operation is ended once, by the name and the number with which it began.
pub proof fn law_operation_ends_as_it_began(
    m: ConnModel,
    name: Seq<char>,
    id: i64,
    ended: ConnModel,
    call: Option<ServerCall>,
    again: ConnModel,
    second: Option<ServerCall>,
)
    requires
        m.with_dbop(name, id).dbop_ended(ended, call),
        ended.dbop_ended(again, second),
    ensures
        call is Some && call->0.binds@.len() == 2,
        call->0.binds@[0] matches BindValue::Text(t) && t@ == name,
        call->0.binds@[1] matches BindValue::Number(t) && t@ == int_text(id as int),
        call->0.sql@.subrange(23, 44) == "end_operation(:1, :2)"@,
        second is None,
        m.dbop is None ==> ended == m,
{
    reveal_strlit("begin dbms_sql_monitor.end_operation(:1, :2); end;");
    reveal_strlit("end_operation(:1, :2)");
    assert("begin dbms_sql_monitor.end_operation(:1, :2); end;"@.subrange(23, 44)
        =~= "end_operation(:1, :2)"@);
}

/// The values that describe a session are sent each by a call of its own, which binds the value
/// that was given; without one it binds null, and a client's identifier is cleared.
pub proof fn law_calls_tell_what_they_set(
    action: ServerCall,
    info: ServerCall,
    module: ServerCall,
    identifier: ServerCall,
    cleared: ServerCall,
    value: String,
)
    requires
        action.sets_action(Some(value)),
        info.sets_client_info(Some(value)),
        module.sets_module(Some(value)),
        identifier.sets_client_identifier(Some(value)),
        cleared.sets_client_identifier(None),
    ensures
        action.binds@ == seq![BindValue::Text(value)] && info.binds@ == action.binds@
            && module.binds@ == action.binds@ && identifier.binds@ == action.binds@,
        action.sql@.subrange(27, 41) == ".set_action(:1"@,
        info.sql@.subrange(27, 46) == ".set_client_info(:1"@,
        module.sql@.subrange(27, 41) == ".set_module(:1"@,
        identifier.sql@.subrange(18, 36) == ".set_identifier(:1"@,
        cleared.sql@.subrange(18, 36) == ".clear_identifier;"@,
        cleared.binds@.len() == 0,
        forall|c: ServerCall| #[trigger] c.sets_action(None) ==> c.binds@ == seq![BindValue::Null],
        forall|c: ServerCall| #[trigger]
            c.sets_client_info(None) ==> c.binds@ == seq![BindValue::Null],
        forall|c: ServerCall| #[trigger] c.sets_module(None) ==> c.binds@ == seq![BindValue::Null],
{
    reveal_strlit("begin dbms_application_info.set_action(:1); end;");
    reveal_strlit("begin dbms_application_info.set_client_info(:1); end;");
    reveal_strlit("begin dbms_application_info.set_module(:1, null); end;");
    reveal_strlit("begin dbms_session.set_identifier(:1); end;");
    reveal_strlit("begin dbms_session.clear_identifier; end;");
    reveal_strlit(".set_action(:1");
    reveal_strlit(".set_client_info(:1");
    reveal_strlit(".set_module(:1");
    reveal_strlit(".set_identifier(:1");
    reveal_strlit(".clear_identifier;");
    assert(action.sql@.subrange(27, 41) =~= ".set_action(:1"@);
    assert(info.sql@.subrange(27, 46) =~= ".set_client_info(:1"@);
    assert(module.sql@.subrange(27, 41) =~= ".set_module(:1"@);
    assert(identifier.sql@.subrange(18, 36) =~= ".set_identifier(:1"@);
    assert(cleared.sql@.subrange(18, 36) =~= ".clear_identifier;"@);
}

/// The server's reply is the first cell of its row; a reply without a row is an error.
pub proof fn law_operation_number_is_the_first_cell(
    row: Seq<Option<CatalogValue>>,
    other: Seq<Option<CatalogValue>>,
)
    ensures
        dbop_reply(None) is Err,
        row.len() > 0 && other.len() > 0 && row[0] == other[0] ==> dbop_reply(Some(row))
            == dbop_reply(Some(other)),
        row.len() > 0 ==> dbop_reply(Some(row)) == integer_of(row[0]),
{
}

/// The statement for an edition names it; it is refused exactly where the name cannot stand there.
pub proof fn law_edition_is_named(r: Result<String, Fault>, edition: Seq<char>)
    requires
        edition_stated(r, edition),
    ensures
        r is Ok <==> plain_identifier(edition),
        r matches Ok(s) ==> s@.len() == 28 + edition.len() && s@.subrange(28, s@.len() as int)
            == edition,
{
    reveal_strlit("alter session set edition = ");
    if r is Ok {
        let s = r->Ok_0@;
        assert(s.subrange(28, s.len() as int) =~= edition);
    }
}

/// A new connection has the passwords, the edition and the cache that were asked for, and nothing
/// pending. One of its own is invalid exactly where its connect string names a user without a
/// password, or its arguments said so; one of a pool never is.
pub proof fn law_new_connection_has_what_was_asked(
    own: NewConnection,
    pooled: NewConnection,
    dsn: String,
    stmt_cache_size: Option<u32>,
    edition: Option<String>,
    args: ConnectArgs,
    password: Option<String>,
)
    requires
        own.is_own(Some(dsn), stmt_cache_size, edition, args),
        pooled.is_pooled(dsn, stmt_cache_size, edition, password),
    ensures
        own.dsn@ == pooled.dsn@,
        own.connect_password == args.password && own.new_password == args.new_password,
        pooled.connect_password == password && pooled.new_password is None,
        stmt_cache_size is Some ==> own.state.stmt_cache_size == stmt_cache_size->0
            && pooled.state.stmt_cache_size == stmt_cache_size->0,
        stmt_cache_size is None ==> own.state.stmt_cache_size == 20
            && pooled.state.stmt_cache_size == 20,
        own.state@.edition == option_text(edition) && pooled.state@.edition == option_text(edition),
        own.state.invalid_connect_string <==> user_without_password(dsn@) || args.invalid_user_dsn,
        !pooled.state.invalid_connect_string,
        own.state@.pending_schema() is None && pooled.state@.pending_schema() is None,
        own.state@.dbop is None && own.state.call_timeout == 0,
        own.state.edition_probe_started <==> edition is Some,
{
}

/// A connection is prepared exactly where its connect string is valid and not blank and there is a
/// password; it uses that password, and what was asked for goes before the defaults.
pub proof fn law_connection_is_prepared_as_asked(
    r: Result<PreparedConnect, Fault>,
    invalid: bool,
    dsn: Seq<char>,
    password: Result<Seq<char>, FaultView>,
    driver_name: Option<String>,
    sdu: Option<u32>,
)
    requires
        connect_prepared(r, connect_fault(invalid, dsn), password, driver_name, sdu),
    ensures
        r is Ok <==> !invalid && trim(dsn).len() > 0 && password is Ok,
        r matches Ok(c) ==> {
            &&& c.password@ == password->Ok_0
            &&& driver_name is Some ==> c.driver_name@ == driver_name->0@
            &&& sdu is Some ==> c.sdu == sdu->0
            &&& sdu is None ==> c.sdu == 8192
        },
        r matches Err(f) ==> !invalid && trim(dsn).len() > 0 ==> password == Err::<
            Seq<char>,
            FaultView,
        >(f@),
        !invalid && trim(dsn).len() == 0 ==> (r matches Err(f) && f@ == (FaultView::NotSupported {
            feature: "bequeath"@,
        })),
{
}

/// A transaction is identified by three members: a number and two byte strings, each in its place.
/// Text stands for its UTF-8 bytes.
pub proof fn law_transaction_identifier_has_three_members(r: Result<Xid, Fault>, x: XidFacets)
    requires
        xid_extracted(r, x),
    ensures
        r is Ok <==> x.length == Some(3usize) && x.format_id is Some && !(x.gtid is Other) && !(
        x.bqual is Other),
        r matches Ok(xid) ==> {
            &&& xid.format_id == x.format_id->0
            &&& x.gtid matches XidMember::Bytes(b) ==> xid.gtid@ == b@
            &&& x.gtid matches XidMember::Text(t) ==> xid.gtid@ == encode_utf8(t@)
            &&& x.bqual matches XidMember::Bytes(b) ==> xid.bqual@ == b@
            &&& x.bqual matches XidMember::Text(t) ==> xid.bqual@ == encode_utf8(t@)
        },
        r matches Err(f) ==> forget_fault(x) == f@,
        r is Ok ==> forget_fault(x) is NotSupported,
{
}

/// No value identifies no transaction; any other is taken as it is alone.
pub proof fn law_transaction_identifier_may_be_left_out(
    r: Result<Option<Xid>, Fault>,
    x: Option<XidFacets>,
)
    requires
        optional_xid_extracted(r, x),
    ensures
        r == Ok::<Option<Xid>, Fault>(None) <==> x is None,
        x matches Some(v) ==> (r is Ok <==> xid_fault(v) is None),
        r matches Ok(Some(xid)) ==> x is Some && x->0.format_id == Some(xid.format_id),
{
}

/// A security context needs an encrypted connection, however its protocol is spelled.
pub proof fn law_security_context_needs_encryption(a: Seq<char>, b: Seq<char>)
    requires
        lower(a) == lower(b),
    ensures
        security_context_fault(a) == security_context_fault(b),
        security_context_fault(a) == FaultView::Named(ErrorName::EndUserSecurityContextRequiresTcps)
            <==> !contains(lower(a), "tcps"@),
{
}

/// The entries of a security context begin with its version. Behind it stands each value that was
/// given, under its name, and nothing else.
pub proof fn law_security_context_holds_what_was_given(
    token: Option<String>,
    name: Option<String>,
    key: Option<String>,
    access: Option<String>,
    roles: Option<String>,
    attributes: Option<String>,
)
    ensures
        ({
            let e = context_entries(token, name, key, access, roles, attributes);
            &&& e.len() == 1 + count(token) + count(name) + count(key) + count(access) + count(roles)
                + count(attributes)
            &&& e[0] == ("ver"@, "1.0"@)
            &&& token matches Some(v) ==> e[1] == ("end_user_token"@, v@)
            &&& name matches Some(v) ==> e[1 + count(token)] == ("end_user_name"@, v@)
            &&& key matches Some(v) ==> e[1 + count(token) + count(name)] == (
                "end_user_contextid"@,
                v@,
            )
            &&& access matches Some(v) ==> e[1 + count(token) + count(name) + count(key)] == (
                "database_access_token"@,
                v@,
            )
            &&& roles matches Some(v) ==> e[e.len() - 1 - count(attributes)] == ("data_roles"@, v@)
            &&& attributes matches Some(v) ==> e[e.len() - 1] == ("attributes"@, v@)
        }),
{
}

/// How many values an optional value is.
pub open spec fn count(value: Option<String>) -> int {
    if value is Some {
        1
    } else {
        0
    }
}

/// A security context is refused exactly for its length: each entry counts by the bytes of its name
/// and value and eight more.
pub proof fn law_security_context_is_limited(
    r: Result<SecurityContext, Fault>,
    entries: Seq<(Seq<char>, Seq<char>)>,
    name: Seq<char>,
    value: Seq<char>,
)
    requires
        context_created(r, entries),
    ensures
        r is Ok <==> encoded_len(entries) <= 65_535,
        r matches Ok(c) ==> c.payload@.len() == entries.len(),
        encoded_len(entries.push((name, value))) == encoded_len(entries) + encode_utf8(name).len()
            + encode_utf8(value).len() + 8,
        encoded_len(Seq::empty()) == 0,
{
    assert(entries.push((name, value)).drop_last() =~= entries);
}

/// A temporary object that is made for the type name of a text or binary object is of that type.
pub proof fn law_temporary_object_has_the_named_type(m: LobModel)
    requires
        m.ora_type == OraType::Blob || m.ora_type == OraType::Clob,
    ensures
        temp_lob_of(m.dbtype_text()).ora_type == m.ora_type,
        m.ora_type == OraType::Clob ==> (temp_lob_of(m.dbtype_text()).csfrm == CsForm::Nchar <==>
            m.csfrm == CsForm::Nchar),
        m.ora_type == OraType::Blob ==> temp_lob_of(m.dbtype_text()).csfrm == CsForm::Unset,
{
    reveal_strlit("DB_TYPE_BLOB");
    reveal_strlit("DB_TYPE_NCLOB");
    reveal_strlit("DB_TYPE_CLOB");
    assert("DB_TYPE_BLOB"@[8] == 'B');
    assert("DB_TYPE_NCLOB"@[8] == 'N');
    assert("DB_TYPE_CLOB"@[8] == 'C');
}

/// Long names are permitted from one version on, in every later one.
pub proof fn law_long_names_stay_permitted(a: u8, b: u8)
    requires
        a <= b,
    ensures
        long_names_from(a) ==> long_names_from(b),
        long_names_from(23) && !long_names_from(22),
{
}

/// A statement that sets the schema is remembered: the schema is the one that it names, and the
/// server need not be told of it any more.
pub proof fn law_executed_schema_is_remembered(m: ConnModel, schema: Seq<char>)
    requires
        plain_identifier(schema),
        schema.len() > 0,
    ensures
        m.after_statement(schema_statement(schema)).current_schema == Some(schema),
        m.after_statement(schema_statement(schema)).pending_schema() is None,
        m.after_statement(schema_statement(schema)).edition == m.edition,
{
    reveal_strlit("alter session set current_schema = ");
    reveal_strlit("alter session set ");
    reveal_strlit("current_schema");
    reveal_strlit(" = ");
    assert(lower("current_schema"@) =~= "current_schema"@);
    law_session_value_is_read_back("current_schema"@, schema);
    assert("alter session set "@ + "current_schema"@ + " = "@ + schema =~= schema_statement(schema));
}

/// A statement that sets the edition is remembered, in upper case, and the edition is then known; any
/// other statement changes nothing.
pub proof fn law_executed_edition_is_remembered(m: ConnModel, statement: Seq<char>)
    ensures
        alter_session_value(statement, "current_schema"@) is None ==> {
            &&& alter_session_value(statement, "edition"@) matches Some(e) ==> m.after_statement(
                statement,
            ) == m.with_edition(upper(e))
            &&& alter_session_value(statement, "edition"@) is None ==> m.after_statement(statement)
                == m
        },
        m.after_statement(statement).call_timeout == m.call_timeout,
        m.after_statement(statement).dbop == m.dbop,
{
}

} // verus!
