//! The queries that are put to the data dictionary.
use vstd::prelude::*;

use crate::session::ServerCall;
use crate::text::{join2, to_upper};
#[allow(unused_imports)]
use crate::text::{law_upper_idempotent, upper};
use crate::value::{BindValue, CsForm, OraType, TypeInfo};

verus! {

/// The values are texts with these contents, in this order.
pub open spec fn binds_texts(binds: Seq<BindValue>, texts: Seq<Seq<char>>) -> bool {
    &&& binds.len() == texts.len()
    &&& forall|i: int|
        0 <= i < binds.len() ==> (#[trigger] binds[i] matches BindValue::Text(s) && s@ == texts[i])
}

/// The call asks about names, which the dictionary keeps in upper case.
pub open spec fn asks(call: ServerCall, sql: Seq<char>, names: Seq<Seq<char>>) -> bool {
    call.sql@ == sql && binds_texts(call.binds@, names.map_values(|n: Seq<char>| upper(n)))
}

fn ask_two(sql: &'static str, a: &str, b: &str) -> (r: ServerCall)
    ensures
        asks(r, sql@, seq![a@, b@]),
{
    let mut binds: Vec<BindValue> = Vec::new();
    binds.push(BindValue::Text(to_upper(a)));
    binds.push(BindValue::Text(to_upper(b)));
    ServerCall { sql, binds }
}

fn ask_three(sql: &'static str, a: &str, b: &str, c: &str) -> (r: ServerCall)
    ensures
        asks(r, sql@, seq![a@, b@, c@]),
{
    let mut binds: Vec<BindValue> = Vec::new();
    binds.push(BindValue::Text(to_upper(a)));
    binds.push(BindValue::Text(to_upper(b)));
    binds.push(BindValue::Text(to_upper(c)));
    ServerCall { sql, binds }
}

impl ServerCall {
    pub open spec fn asks_object_attrs(self, schema: Seq<char>, type_label: Seq<char>) -> bool {
        asks(
            self,
            "select attr_name, attr_type_name, length, precision, scale, attr_type_owner from all_type_attrs where owner = :1 and type_name = :2 order by attr_no"@,
            seq![schema, type_label],
        )
    }

    pub open spec fn asks_package_attrs(self, schema: Seq<char>, package_name: Seq<char>, type_label: Seq<char>) -> bool {
        asks(
            self,
            "select attr_name, attr_type_owner, attr_type_package, attr_type_name, length, precision, scale from all_plsql_type_attrs where owner = :1 and package_name = :2 and type_name = :3 order by attr_no"@,
            seq![schema, package_name, type_label],
        )
    }

    pub open spec fn asks_rowtype_attrs(self, schema: Seq<char>, table_name: Seq<char>) -> bool {
        asks(
            self,
            "select column_name, data_type, data_length, data_precision, data_scale, data_type_owner, char_length from all_tab_cols where owner = :1 and table_name = :2 and hidden_column = 'NO' order by internal_column_id"@,
            seq![schema, table_name],
        )
    }

    pub open spec fn asks_object_collection(self, schema: Seq<char>, type_label: Seq<char>) -> bool {
        asks(
            self,
            "select elem_type_owner, elem_type_name, length, precision, scale, upper_bound from all_coll_types where owner = :1 and type_name = :2"@,
            seq![schema, type_label],
        )
    }

    pub open spec fn asks_package_collection(self, schema: Seq<char>, package_name: Seq<char>, type_label: Seq<char>) -> bool {
        asks(
            self,
            "select elem_type_owner, elem_type_package, elem_type_name, length, precision, scale, upper_bound, coll_type, index_by from all_plsql_coll_types where owner = :1 and package_name = :2 and type_name = :3"@,
            seq![schema, package_name, type_label],
        )
    }

    pub open spec fn asks_object_typecode(self, schema: Seq<char>, type_label: Seq<char>) -> bool {
        asks(
            self,
            "select typecode from all_types where owner = :1 and type_name = :2"@,
            seq![schema, type_label],
        )
    }

    pub open spec fn asks_package_typecode(self, schema: Seq<char>, package_name: Seq<char>, type_label: Seq<char>) -> bool {
        asks(
            self,
            "select typecode from all_plsql_types where owner = :1 and package_name = :2 and type_name = :3"@,
            seq![schema, package_name, type_label],
        )
    }

    pub open spec fn asks_package_type(self, schema: Seq<char>, package_name: Seq<char>, type_label: Seq<char>) -> bool {
        asks(
            self,
            "select owner, package_name, type_name, typecode from all_plsql_types where owner = :1 and package_name = :2 and type_name = :3"@,
            seq![schema, package_name, type_label],
        )
    }

    pub open spec fn asks_object_oid(self, schema: Seq<char>, type_label: Seq<char>) -> bool {
        asks(
            self,
            "select type_oid from all_types where owner = :1 and type_name = :2"@,
            seq![schema, type_label],
        )
    }

    pub open spec fn asks_package_oid(self, schema: Seq<char>, package_name: Seq<char>, type_label: Seq<char>) -> bool {
        asks(
            self,
            "select type_oid from all_plsql_types where owner = :1 and package_name = :2 and type_name = :3"@,
            seq![schema, package_name, type_label],
        )
    }
}

/// The attributes of an object type, in order.
pub fn object_attrs_query(schema: &str, type_label: &str) -> (r: ServerCall)
    ensures
        r.asks_object_attrs(schema@, type_label@),
{
    ask_two(
        "select attr_name, attr_type_name, length, precision, scale, attr_type_owner from all_type_attrs where owner = :1 and type_name = :2 order by attr_no",
        schema,
        type_label,
    )
}

/// The attributes of a package's record type, in order.
pub fn package_attrs_query(schema: &str, package_name: &str, type_label: &str) -> (r: ServerCall)
    ensures
        r.asks_package_attrs(schema@, package_name@, type_label@),
{
    ask_three(
        "select attr_name, attr_type_owner, attr_type_package, attr_type_name, length, precision, scale from all_plsql_type_attrs where owner = :1 and package_name = :2 and type_name = :3 order by attr_no",
        schema,
        package_name,
        type_label,
    )
}

/// The visible columns of a table, in order.
pub fn rowtype_attrs_query(schema: &str, table_name: &str) -> (r: ServerCall)
    ensures
        r.asks_rowtype_attrs(schema@, table_name@),
{
    ask_two(
        "select column_name, data_type, data_length, data_precision, data_scale, data_type_owner, char_length from all_tab_cols where owner = :1 and table_name = :2 and hidden_column = 'NO' order by internal_column_id",
        schema,
        table_name,
    )
}

/// The elements of a collection type.
pub fn object_collection_query(schema: &str, type_label: &str) -> (r: ServerCall)
    ensures
        r.asks_object_collection(schema@, type_label@),
{
    ask_two(
        "select elem_type_owner, elem_type_name, length, precision, scale, upper_bound from all_coll_types where owner = :1 and type_name = :2",
        schema,
        type_label,
    )
}

/// The elements of a package's collection type.
pub fn package_collection_query(schema: &str, package_name: &str, type_label: &str) -> (r:
    ServerCall)
    ensures
        r.asks_package_collection(schema@, package_name@, type_label@),
{
    ask_three(
        "select elem_type_owner, elem_type_package, elem_type_name, length, precision, scale, upper_bound, coll_type, index_by from all_plsql_coll_types where owner = :1 and package_name = :2 and type_name = :3",
        schema,
        package_name,
        type_label,
    )
}

/// The kind of an object type.
pub fn object_typecode_query(schema: &str, type_label: &str) -> (r: ServerCall)
    ensures
        r.asks_object_typecode(schema@, type_label@),
{
    ask_two(
        "select typecode from all_types where owner = :1 and type_name = :2",
        schema,
        type_label,
    )
}

/// The kind of a package's type.
pub fn package_typecode_query(schema: &str, package_name: &str, type_label: &str) -> (r: ServerCall)
    ensures
        r.asks_package_typecode(schema@, package_name@, type_label@),
{
    ask_three(
        "select typecode from all_plsql_types where owner = :1 and package_name = :2 and type_name = :3",
        schema,
        package_name,
        type_label,
    )
}

/// A package's type by name.
pub fn package_type_query(schema: &str, package_name: &str, type_label: &str) -> (r: ServerCall)
    ensures
        r.asks_package_type(schema@, package_name@, type_label@),
{
    ask_three(
        "select owner, package_name, type_name, typecode from all_plsql_types where owner = :1 and package_name = :2 and type_name = :3",
        schema,
        package_name,
        type_label,
    )
}

/// The object identifier of an object type.
pub fn object_oid_query(schema: &str, type_label: &str) -> (r: ServerCall)
    ensures
        r.asks_object_oid(schema@, type_label@),
{
    ask_two(
        "select type_oid from all_types where owner = :1 and type_name = :2",
        schema,
        type_label,
    )
}

/// The object identifier of a package's type.
pub fn package_oid_query(schema: &str, package_name: &str, type_label: &str) -> (r: ServerCall)
    ensures
        r.asks_package_oid(schema@, package_name@, type_label@),
{
    ask_three(
        "select type_oid from all_plsql_types where owner = :1 and package_name = :2 and type_name = :3",
        schema,
        package_name,
        type_label,
    )
}

/// The name by which the shape of a type is asked for: its parts in upper case, joined by dots.
pub open spec fn dotted_name(
    schema: Seq<char>,
    package_name: Option<Seq<char>>,
    type_label: Seq<char>,
) -> Seq<char> {
    match package_name {
        Some(p) => upper(schema) + "."@ + upper(p) + "."@ + upper(type_label),
        None => upper(schema) + "."@ + upper(type_label),
    }
}

/// An output of the given type and size.
pub open spec fn is_output(b: BindValue, ora_type: OraType, size: u32) -> bool {
    b == BindValue::Output(TypeInfo { ora_type, csfrm: CsForm::Unset, buffer_size: size })
}

fn output(ora_type: OraType, buffer_size: u32) -> (r: BindValue)
    ensures
        is_output(r, ora_type, buffer_size),
{
    BindValue::Output(TypeInfo { ora_type, csfrm: CsForm::Unset, buffer_size })
}

impl ServerCall {
    pub open spec fn asks_shape(
        self,
        schema: Seq<char>,
        package_name: Option<Seq<char>>,
        type_label: Seq<char>,
    ) -> bool {
        &&& self.binds@.len() == 6
        &&& is_output(self.binds@[0], OraType::Number, 22)
        &&& (self.binds@[1] matches BindValue::Text(s) && s@ == dotted_name(
            schema,
            package_name,
            type_label,
        ))
        &&& is_output(self.binds@[2], OraType::Raw, 64)
        &&& is_output(self.binds@[3], OraType::Number, 22)
        &&& is_output(self.binds@[4], OraType::Raw, 32767)
        &&& is_output(self.binds@[5], OraType::Cursor, 4)
    }
}

/// The call that gives a type's identifier and version: the type's name goes in second, the
/// identifier comes out third and the version fourth.
pub fn type_shape_call(schema: &str, package_name: Option<&str>, type_label: &str) -> (r:
    ServerCall)
    ensures
        r.asks_shape(
            schema@,
            match package_name {
                Some(p) => Some(p@),
                None => None,
            },
            type_label@,
        ),
        r.sql@
            == "declare t_instantiable varchar2(3); t_super_type_owner varchar2(128); t_super_type_name varchar2(128); t_subtype_ref_cursor sys_refcursor; begin :1 := dbms_pickler.get_type_shape(:2, :3, :4, :5, t_instantiable, t_super_type_owner, t_super_type_name, :6, t_subtype_ref_cursor); end;"@,
{
    let mut name = join2(to_upper(schema).as_str(), ".");
    if let Some(p) = package_name {
        name.append(to_upper(p).as_str());
        name.append(".");
    }
    name.append(to_upper(type_label).as_str());
    let mut binds: Vec<BindValue> = Vec::new();
    binds.push(output(OraType::Number, 22));
    binds.push(BindValue::Text(name));
    binds.push(output(OraType::Raw, 64));
    binds.push(output(OraType::Number, 22));
    binds.push(output(OraType::Raw, 32767));
    binds.push(output(OraType::Cursor, 4));
    ServerCall {
        sql: "declare t_instantiable varchar2(3); t_super_type_owner varchar2(128); t_super_type_name varchar2(128); t_subtype_ref_cursor sys_refcursor; begin :1 := dbms_pickler.get_type_shape(:2, :3, :4, :5, t_instantiable, t_super_type_owner, t_super_type_name, :6, t_subtype_ref_cursor); end;",
        binds,
    }
}

impl ServerCall {
    pub open spec fn asks_json(self, column_name: String) -> bool {
        self.is_call(
            "select 1 from all_json_columns where owner = sys_context('USERENV', 'CURRENT_SCHEMA') and column_name = :1"@,
            BindValue::Text(column_name),
        )
    }
}

/// Whether a column of the given name holds JSON in some table of the current schema.
pub fn json_column_query(column_name: String) -> (r: ServerCall)
    ensures
        r.asks_json(column_name),
{
    let mut binds: Vec<BindValue> = Vec::new();
    binds.push(BindValue::Text(column_name));
    assert(binds@ =~= seq![BindValue::Text(column_name)]);
    ServerCall {
        sql: "select 1 from all_json_columns where owner = sys_context('USERENV', 'CURRENT_SCHEMA') and column_name = :1",
        binds,
    }
}

/// What a connection can ask the server about itself.
#[derive(Clone, Copy, PartialEq, Eq, Structural, Debug)]
pub enum ServerFact {
    Edition,
    InstanceName,
    DbName,
    MaxOpenCursors,
    ServiceName,
    DbDomain,
}

pub open spec fn fact_query(fact: ServerFact) -> Seq<char> {
    match fact {
        ServerFact::Edition => "select sys_context('USERENV', 'CURRENT_EDITION_NAME') from dual"@,
        ServerFact::InstanceName => "select sys_context('userenv', 'instance_name') from dual"@,
        ServerFact::DbName => "select name from V$DATABASE"@,
        ServerFact::MaxOpenCursors => "select value from V$PARAMETER where name='open_cursors'"@,
        ServerFact::ServiceName => "select sys_context('userenv', 'service_name') from dual"@,
        ServerFact::DbDomain => "select value from V$PARAMETER where name='db_domain'"@,
    }
}

impl ServerFact {
    pub fn query(self) -> (r: &'static str)
        ensures
            r@ == fact_query(self),
    {
        match self {
            ServerFact::Edition => "select sys_context('USERENV', 'CURRENT_EDITION_NAME') from dual",
            ServerFact::InstanceName => "select sys_context('userenv', 'instance_name') from dual",
            ServerFact::DbName => "select name from V$DATABASE",
            ServerFact::MaxOpenCursors => "select value from V$PARAMETER where name='open_cursors'",
            ServerFact::ServiceName => "select sys_context('userenv', 'service_name') from dual",
            ServerFact::DbDomain => "select value from V$PARAMETER where name='db_domain'",
        }
    }
}

/// Names that differ in case alone are asked about in the same way.
pub proof fn law_dictionary_ignores_case(
    a: ServerCall,
    b: ServerCall,
    sql: Seq<char>,
    names: Seq<Seq<char>>,
    others: Seq<Seq<char>>,
)
    requires
        asks(a, sql, names),
        asks(b, sql, others),
        names.len() == others.len(),
        forall|i: int| 0 <= i < names.len() ==> upper(#[trigger] names[i]) == upper(others[i]),
    ensures
        a.sql@ == b.sql@,
        a.binds@.len() == b.binds@.len(),
        forall|i: int|
            0 <= i < a.binds@.len() ==> (#[trigger] a.binds@[i] matches BindValue::Text(s)
                && b.binds@[i] matches BindValue::Text(t) && s@ == t@),
{
}

/// The value in a place is this text.
pub open spec fn binds_text(call: ServerCall, i: int, text: Seq<char>) -> bool {
    0 <= i < call.binds@.len() && (call.binds@[i] matches BindValue::Text(t) && t@ == text)
}

/// What is asked about an object type names its schema first and the type second, both in upper
/// case, and nothing else.
pub proof fn law_object_type_is_asked_about_by_schema_and_name(
    attrs: ServerCall,
    rows: ServerCall,
    elements: ServerCall,
    code: ServerCall,
    oid: ServerCall,
    schema: Seq<char>,
    name: Seq<char>,
)
    requires
        attrs.asks_object_attrs(schema, name),
        rows.asks_rowtype_attrs(schema, name),
        elements.asks_object_collection(schema, name),
        code.asks_object_typecode(schema, name),
        oid.asks_object_oid(schema, name),
    ensures
        attrs.binds@.len() == 2 && binds_text(attrs, 0, upper(schema)) && binds_text(
            attrs,
            1,
            upper(name),
        ),
        rows.binds@.len() == 2 && binds_text(rows, 0, upper(schema)) && binds_text(
            rows,
            1,
            upper(name),
        ),
        elements.binds@.len() == 2 && binds_text(elements, 0, upper(schema)) && binds_text(
            elements,
            1,
            upper(name),
        ),
        code.binds@.len() == 2 && binds_text(code, 0, upper(schema)) && binds_text(
            code,
            1,
            upper(name),
        ),
        oid.binds@.len() == 2 && binds_text(oid, 0, upper(schema)) && binds_text(
            oid,
            1,
            upper(name),
        ),
{
    assert(binds_text(attrs, 0, upper(schema)) && binds_text(attrs, 1, upper(name)));
    assert(binds_text(rows, 0, upper(schema)) && binds_text(rows, 1, upper(name)));
    assert(binds_text(elements, 0, upper(schema)) && binds_text(elements, 1, upper(name)));
    assert(binds_text(code, 0, upper(schema)) && binds_text(code, 1, upper(name)));
    assert(binds_text(oid, 0, upper(schema)) && binds_text(oid, 1, upper(name)));
}

/// What is asked about a package's type names its schema, its package and the type, in this order
/// and in upper case.
pub proof fn law_package_type_is_asked_about_by_all_names(
    attrs: ServerCall,
    elements: ServerCall,
    code: ServerCall,
    found: ServerCall,
    oid: ServerCall,
    schema: Seq<char>,
    package: Seq<char>,
    name: Seq<char>,
    i: int,
)
    requires
        attrs.asks_package_attrs(schema, package, name),
        elements.asks_package_collection(schema, package, name),
        code.asks_package_typecode(schema, package, name),
        found.asks_package_type(schema, package, name),
        oid.asks_package_oid(schema, package, name),
        0 <= i < 3,
    ensures
        ({
            let asked = seq![upper(schema), upper(package), upper(name)];
            &&& attrs.binds@.len() == 3 && binds_text(attrs, i, asked[i])
            &&& elements.binds@.len() == 3 && binds_text(elements, i, asked[i])
            &&& code.binds@.len() == 3 && binds_text(code, i, asked[i])
            &&& found.binds@.len() == 3 && binds_text(found, i, asked[i])
            &&& oid.binds@.len() == 3 && binds_text(oid, i, asked[i])
        }),
{
    assert(attrs.binds@[i] is Text);
    assert(elements.binds@[i] is Text);
    assert(code.binds@[i] is Text);
    assert(found.binds@[i] is Text);
    assert(oid.binds@[i] is Text);
}

/// The attributes of a type are selected in the order in which their description is read: the name,
/// the type, then its length, precision and scale, each query from its own view.
pub proof fn law_attributes_are_selected_as_they_are_read(
    attrs: ServerCall,
    package_attrs: ServerCall,
    rows: ServerCall,
    schema: Seq<char>,
    package: Seq<char>,
    name: Seq<char>,
)
    requires
        attrs.asks_object_attrs(schema, name),
        package_attrs.asks_package_attrs(schema, package, name),
        rows.asks_rowtype_attrs(schema, name),
    ensures
        attrs.sql@.subrange(7, 75)
            == "attr_name, attr_type_name, length, precision, scale, attr_type_owner"@,
        package_attrs.sql@.subrange(7, 94)
            == "attr_name, attr_type_owner, attr_type_package, attr_type_name, length, precision, scale"@,
        rows.sql@.subrange(7, 100) == "column_name, data_type, data_length, data_precision, data_scale, data_type_owner, char_length"@,
{
    reveal_strlit(
        "select attr_name, attr_type_name, length, precision, scale, attr_type_owner from all_type_attrs where owner = :1 and type_name = :2 order by attr_no",
    );
    reveal_strlit(
        "select attr_name, attr_type_owner, attr_type_package, attr_type_name, length, precision, scale from all_plsql_type_attrs where owner = :1 and package_name = :2 and type_name = :3 order by attr_no",
    );
    reveal_strlit(
        "select column_name, data_type, data_length, data_precision, data_scale, data_type_owner, char_length from all_tab_cols where owner = :1 and table_name = :2 and hidden_column = 'NO' order by internal_column_id",
    );
    reveal_strlit("attr_name, attr_type_name, length, precision, scale, attr_type_owner");
    reveal_strlit(
        "attr_name, attr_type_owner, attr_type_package, attr_type_name, length, precision, scale",
    );
    reveal_strlit(
        "column_name, data_type, data_length, data_precision, data_scale, data_type_owner, char_length",
    );
    assert(attrs.sql@.subrange(7, 75)
        =~= "attr_name, attr_type_name, length, precision, scale, attr_type_owner"@);
    assert(package_attrs.sql@.subrange(7, 94)
        =~= "attr_name, attr_type_owner, attr_type_package, attr_type_name, length, precision, scale"@);
    assert(rows.sql@.subrange(7, 100)
        =~= "column_name, data_type, data_length, data_precision, data_scale, data_type_owner, char_length"@);
}

/// The shape of a type is asked for by its dotted name in upper case. Everything else comes out, the
/// identifier third and the version fourth.
pub proof fn law_shape_is_asked_for_by_dotted_name(
    call: ServerCall,
    schema: Seq<char>,
    package: Option<Seq<char>>,
    name: Seq<char>,
    i: int,
)
    requires
        call.asks_shape(schema, package, name),
        0 <= i < 6,
    ensures
        call.binds@.len() == 6,
        call.binds@[i] is Output <==> i != 1,
        call.binds@[2] matches BindValue::Output(t) && t.ora_type == OraType::Raw,
        call.binds@[3] matches BindValue::Output(t) && t.ora_type == OraType::Number,
        call.binds@[1] matches BindValue::Text(t) && ({
            let s = schema.len() as int;
            &&& t@.take(s) == upper(schema) && t@[s] == '.'
            &&& t@.skip(t@.len() - name.len()) == upper(name)
            &&& package is None ==> t@.len() == s + name.len() + 1
            &&& package matches Some(p) ==> t@.len() == s + p.len() + name.len() + 2 && t@.subrange(
                s + 1,
                s + 1 + p.len(),
            ) == upper(p)
        }),
{
    reveal_strlit(".");
    let t = dotted_name(schema, package, name);
    let s = schema.len() as int;
    assert(upper(schema).len() == s && upper(name).len() == name.len());
    assert(t.take(s) =~= upper(schema));
    assert(t.skip(t.len() - name.len()) =~= upper(name));
    if package is Some {
        let p = package->0;
        assert(upper(p).len() == p.len());
        assert(t.subrange(s + 1, s + 1 + p.len()) =~= upper(p));
    }
}

/// A JSON column is asked for by its name as it is.
pub proof fn law_json_column_is_asked_for_by_name(call: ServerCall, name: String)
    requires
        call.asks_json(name),
    ensures
        call.binds@.len() == 1 && binds_text(call, 0, name@),
{
}

/// Each fact of the server has a query of its own.
pub proof fn law_facts_are_asked_for_apart(a: ServerFact, b: ServerFact)
    ensures
        fact_query(a) == fact_query(b) <==> a == b,
{
    reveal_strlit("select sys_context('USERENV', 'CURRENT_EDITION_NAME') from dual");
    reveal_strlit("select sys_context('userenv', 'instance_name') from dual");
    reveal_strlit("select name from V$DATABASE");
    reveal_strlit("select value from V$PARAMETER where name='open_cursors'");
    reveal_strlit("select sys_context('userenv', 'service_name') from dual");
    reveal_strlit("select value from V$PARAMETER where name='db_domain'");
    assert(fact_query(ServerFact::Edition).len() == 63);
    assert(fact_query(ServerFact::InstanceName).len() == 56);
    assert(fact_query(ServerFact::DbName).len() == 27);
    assert(fact_query(ServerFact::MaxOpenCursors).len() == 55);
    assert(fact_query(ServerFact::ServiceName).len() == 55);
    assert(fact_query(ServerFact::DbDomain).len() == 52);
    assert(fact_query(ServerFact::ServiceName)[7] == 's');
    assert(fact_query(ServerFact::MaxOpenCursors)[7] == 'v');
}

/// The elements of a collection are selected in the order in which they are read, from the view of
/// collections; kinds and identifiers are selected from the views of types, those of a package from
/// the views of packages.
pub proof fn law_each_question_has_its_view(
    elements: ServerCall,
    package_elements: ServerCall,
    code: ServerCall,
    package_code: ServerCall,
    oid: ServerCall,
    package_oid: ServerCall,
    found: ServerCall,
    schema: Seq<char>,
    package: Seq<char>,
    name: Seq<char>,
)
    requires
        elements.asks_object_collection(schema, name),
        package_elements.asks_package_collection(schema, package, name),
        code.asks_object_typecode(schema, name),
        package_code.asks_package_typecode(schema, package, name),
        oid.asks_object_oid(schema, name),
        package_oid.asks_package_oid(schema, package, name),
        found.asks_package_type(schema, package, name),
    ensures
        elements.sql@.subrange(7, 97)
            == "elem_type_owner, elem_type_name, length, precision, scale, upper_bound from all_coll_types"@,
        package_elements.sql@.subrange(7, 143)
            == "elem_type_owner, elem_type_package, elem_type_name, length, precision, scale, upper_bound, coll_type, index_by from all_plsql_coll_types"@,
        code.sql@.subrange(7, 30) == "typecode from all_types"@,
        package_code.sql@.subrange(7, 36) == "typecode from all_plsql_types"@,
        oid.sql@.subrange(7, 30) == "type_oid from all_types"@,
        package_oid.sql@.subrange(7, 36) == "type_oid from all_plsql_types"@,
        found.sql@.subrange(7, 68) == "owner, package_name, type_name, typecode from all_plsql_types"@,
{
    reveal_strlit(
        "select elem_type_owner, elem_type_name, length, precision, scale, upper_bound from all_coll_types where owner = :1 and type_name = :2",
    );
    reveal_strlit(
        "select elem_type_owner, elem_type_package, elem_type_name, length, precision, scale, upper_bound, coll_type, index_by from all_plsql_coll_types where owner = :1 and package_name = :2 and type_name = :3",
    );
    reveal_strlit("select typecode from all_types where owner = :1 and type_name = :2");
    reveal_strlit(
        "select typecode from all_plsql_types where owner = :1 and package_name = :2 and type_name = :3",
    );
    reveal_strlit("select type_oid from all_types where owner = :1 and type_name = :2");
    reveal_strlit(
        "select type_oid from all_plsql_types where owner = :1 and package_name = :2 and type_name = :3",
    );
    reveal_strlit(
        "select owner, package_name, type_name, typecode from all_plsql_types where owner = :1 and package_name = :2 and type_name = :3",
    );
    reveal_strlit(
        "elem_type_owner, elem_type_name, length, precision, scale, upper_bound from all_coll_types",
    );
    reveal_strlit(
        "elem_type_owner, elem_type_package, elem_type_name, length, precision, scale, upper_bound, coll_type, index_by from all_plsql_coll_types",
    );
    reveal_strlit("typecode from all_types");
    reveal_strlit("typecode from all_plsql_types");
    reveal_strlit("type_oid from all_types");
    reveal_strlit("type_oid from all_plsql_types");
    reveal_strlit("owner, package_name, type_name, typecode from all_plsql_types");
    assert(elements.sql@.subrange(7, 97)
        =~= "elem_type_owner, elem_type_name, length, precision, scale, upper_bound from all_coll_types"@);
    assert(package_elements.sql@.subrange(7, 143)
        =~= "elem_type_owner, elem_type_package, elem_type_name, length, precision, scale, upper_bound, coll_type, index_by from all_plsql_coll_types"@);
    assert(code.sql@.subrange(7, 30) =~= "typecode from all_types"@);
    assert(package_code.sql@.subrange(7, 36) =~= "typecode from all_plsql_types"@);
    assert(oid.sql@.subrange(7, 30) =~= "type_oid from all_types"@);
    assert(package_oid.sql@.subrange(7, 36) =~= "type_oid from all_plsql_types"@);
    assert(found.sql@.subrange(7, 68)
        =~= "owner, package_name, type_name, typecode from all_plsql_types"@);
}

} // verus!
