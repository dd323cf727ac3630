//! Looking up object types in the data dictionary.
use vstd::prelude::*;

use crate::errors::Fault;
#[allow(unused_imports)]
use crate::errors::FaultView;
use crate::objtype::{DbObjectAttr, DbObjectType, TypeIdentity};
use crate::sqltext::{
    query_value_to_i64, query_value_to_i8, query_value_to_string, query_value_to_u32, CatalogValue,
};
#[allow(unused_imports)]
use crate::sqltext::{value_int, value_nat, value_text};
use crate::text::{
    chars_of, find_chars, head, join2, owned, same_text, same_text_ignoring_case, tail, text_ends_with,
    text_of, to_upper, trim_chars,
};
#[allow(unused_imports)]
use crate::text::{
    ends_with, find, law_upper_idempotent, lemma_find_from, lemma_find_from_is,
    lemma_find_from_none, lemma_same_ignoring_case_upper, occurs_at, option_text, same_ignoring_case, text_views, trim,
    upper,
};
use crate::value::BindValue;
#[allow(unused_imports)]
use crate::value::bytes_view;

verus! {

/// The parts of a dotted name, without blanks around them; parts that are empty do not count.
pub open spec fn name_parts(s: Seq<char>) -> Seq<Seq<char>>
    decreases s.len(),
{
    match find(s, "."@) {
        None => one_part(s),
        Some(i) => {
            proof {
                reveal_strlit(".");
                lemma_find_from(s, "."@, 0);
            }
            one_part(s.take(i)) + name_parts(s.skip(i + 1))
        },
    }
}

pub open spec fn one_part(s: Seq<char>) -> Seq<Seq<char>> {
    if trim(s).len() == 0 {
        Seq::empty()
    } else {
        seq![trim(s)]
    }
}

fn push_part(out: &mut Vec<String>, piece: &Vec<char>)
    ensures
        text_views(final(out)@) == text_views(old(out)@) + one_part(piece@),
{
    let t = trim_chars(piece);
    let ghost before = out@;
    if t.len() > 0 {
        out.push(text_of(&t));
        proof {
            assert(text_views(out@) =~= text_views(before) + seq![t@]);
        }
    } else {
        proof {
            assert(text_views(before) + Seq::<Seq<char>>::empty() =~= text_views(before));
        }
    }
}

pub fn split_type_name(name: &str) -> (r: Vec<String>)
    ensures
        text_views(r@) == name_parts(name@),
{
    proof {
        reveal_strlit(".");
    }
    let dot = chars_of(".");
    let mut rest = chars_of(name);
    let mut out: Vec<String> = Vec::new();
    let mut going = true;
    proof {
        assert(text_views(out@) + name_parts(rest@) =~= name_parts(rest@));
    }
    while going
        invariant
            dot@ == "."@,
            dot@.len() == 1,
            going ==> text_views(out@) + name_parts(rest@) == name_parts(name@),
            !going ==> text_views(out@) == name_parts(name@),
        decreases
                rest@.len(),
                (if going {
                    1int
                } else {
                    0int
                }),
    {
        match find_chars(&rest, &dot, 0) {
            None => {
                push_part(&mut out, &rest);
                going = false;
            },
            Some(i) => {
                let piece = head(&rest, i);
                let ghost before = text_views(out@);
                push_part(&mut out, &piece);
                let next = tail(&rest, i + 1);
                proof {
                    assert(before + (one_part(piece@) + name_parts(next@)) =~= (before + one_part(
                        piece@,
                    )) + name_parts(next@));
                }
                rest = next;
            },
        }
    }
    out
}

/// The text in front of a suffix.
pub open spec fn without_suffix(s: Seq<char>, suffix: Seq<char>) -> Option<Seq<char>> {
    if ends_with(s, suffix) {
        Some(s.take(s.len() - suffix.len()))
    } else {
        None
    }
}

pub fn strip_text_suffix(s: &str, suffix: &str) -> (r: Option<String>)
    ensures
        match r {
            Some(t) => without_suffix(s@, suffix@) == Some(t@),
            None => without_suffix(s@, suffix@) is None,
        },
{
    let v = chars_of(s);
    let p = chars_of(suffix);
    if text_ends_with(&v, &p) {
        Some(text_of(&head(&v, v.len() - p.len())))
    } else {
        None
    }
}

/// What is looked for under the name of a type.
pub struct TypeRequest {
    pub parts: Vec<String>,
    /// The last part, in upper case.
    pub type_label: String,
    /// The schema, where the name has two parts.
    pub owner: Option<String>,
}

pub open spec fn requested_name(name: Seq<char>) -> Seq<char> {
    let parts = name_parts(name);
    if parts.len() == 0 {
        upper(name)
    } else {
        upper(parts.last())
    }
}

pub open spec fn requested_owner(name: Seq<char>) -> Option<Seq<char>> {
    let parts = name_parts(name);
    if parts.len() == 2 {
        Some(upper(parts[0]))
    } else {
        None
    }
}

pub fn type_request(name: &str) -> (r: TypeRequest)
    ensures
        text_views(r.parts@) == name_parts(name@),
        r.type_label@ == requested_name(name@),
        option_text(r.owner) == requested_owner(name@),
{
    let parts = split_type_name(name);
    let ghost views = text_views(parts@);
    let n = parts.len();
    proof {
        assert(views.len() == n);
        assert forall|i: int| 0 <= i < n implies #[trigger] views[i] == parts@[i]@ by {}
    }
    let type_label = if n == 0 {
        to_upper(name)
    } else {
        to_upper(parts[n - 1].as_str())
    };
    let owner = if n == 2 {
        Some(to_upper(parts[0].as_str()))
    } else {
        None
    };
    TypeRequest { parts, type_label, owner }
}

/// How a type is looked up first.
pub enum TypePlan {
    /// The type of a table's rows.
    Rowtype { schema: String, table_name: String },
    /// A type of the dictionary.
    Dictionary { sql: String, binds: Vec<BindValue> },
}

/// The query for a type of the dictionary.
pub open spec fn type_query(has_owner: bool) -> Seq<char> {
    "select owner, type_name, typecode from all_types where type_name = :1"@ + (if has_owner {
        " and owner = :2"@
    } else {
        " and owner = sys_context('USERENV', 'CURRENT_SCHEMA')"@
    }) + " order by owner"@
}

pub open spec fn type_planned(r: TypePlan, request: TypeRequest, username: Seq<char>) -> bool {
    match (without_suffix(request.type_label@, "%ROWTYPE"@), r) {
        (Some(table), TypePlan::Rowtype { schema, table_name }) => table_name@ == table && schema@
            == match request.owner {
            Some(o) => o@,
            None => upper(username),
        },
        (None, TypePlan::Dictionary { sql, binds }) => {
            &&& sql@ == type_query(request.owner is Some)
            &&& binds@ == match request.owner {
                Some(o) => seq![BindValue::Text(request.type_label), BindValue::Text(o)],
                None => seq![BindValue::Text(request.type_label)],
            }
        },
        _ => false,
    }
}

pub fn plan_get_type(request: &TypeRequest, username: &str) -> (r: TypePlan)
    ensures
        type_planned(r, *request, username@),
{
    if let Some(table_name) = strip_text_suffix(request.type_label.as_str(), "%ROWTYPE") {
        let schema = match &request.owner {
            Some(o) => o.clone(),
            None => to_upper(username),
        };
        return TypePlan::Rowtype { schema, table_name };
    }
    let mut sql = owned("select owner, type_name, typecode from all_types where type_name = :1");
    let mut binds: Vec<BindValue> = Vec::new();
    binds.push(BindValue::Text(request.type_label.clone()));
    match &request.owner {
        Some(o) => {
            sql.append(" and owner = :2");
            binds.push(BindValue::Text(o.clone()));
            proof {
                assert(binds@ =~= seq![BindValue::Text(request.type_label), BindValue::Text(*o)]);
            }
        },
        None => {
            sql.append(" and owner = sys_context('USERENV', 'CURRENT_SCHEMA')");
            proof {
                assert(binds@ =~= seq![BindValue::Text(request.type_label)]);
            }
        },
    }
    sql.append(" order by owner");
    TypePlan::Dictionary { sql, binds }
}

/// A type of a package, by name.
pub struct PackageType {
    pub schema: String,
    pub package_name: String,
    pub type_label: String,
}

pub open spec fn invalid_name(name: Seq<char>) -> FaultView {
    FaultView::InvalidObjectTypeName { name }
}

pub open spec fn package_planned(
    r: Result<PackageType, Fault>,
    parts: Seq<Seq<char>>,
    username: Seq<char>,
    name: Seq<char>,
) -> bool {
    match r {
        Ok(p) => {
            let n = parts.len() as int;
            &&& n == 2 || n == 3
            &&& p.type_label@ == parts[n - 1]
            &&& p.package_name@ == parts[n - 2]
            &&& p.schema@ == if n == 3 {
                parts[0]
            } else {
                upper(username)
            }
        },
        Err(f) => parts.len() != 2 && parts.len() != 3 && f@ == invalid_name(name),
    }
}

/// Where the dictionary has no such type: the type of a package that the parts name. Two parts
/// name one of the user's own packages.
pub fn plan_package_type(request: &TypeRequest, username: &str, name: &str) -> (r: Result<
    PackageType,
    Fault,
>)
    ensures
        package_planned(r, text_views(request.parts@), username@, name@),
{
    proof {
        assert(text_views(request.parts@).len() == request.parts@.len());
        assert forall|i: int| 0 <= i < request.parts@.len() implies #[trigger] text_views(
            request.parts@,
        )[i] == request.parts@[i]@ by {}
    }
    if request.parts.len() == 2 {
        Ok(
            PackageType {
                schema: to_upper(username),
                package_name: request.parts[0].clone(),
                type_label: request.parts[1].clone(),
            },
        )
    } else if request.parts.len() == 3 {
        Ok(
            PackageType {
                schema: request.parts[0].clone(),
                package_name: request.parts[1].clone(),
                type_label: request.parts[2].clone(),
            },
        )
    } else {
        Err(Fault::InvalidObjectTypeName { name: owned(name) })
    }
}

/// The text in a column of a row.
pub open spec fn cell_text(row: Seq<Option<CatalogValue>>, i: int) -> Option<Seq<char>> {
    if 0 <= i < row.len() {
        value_text(row[i])
    } else {
        None
    }
}

pub open spec fn text_or(t: Option<Seq<char>>, default: Seq<char>) -> Seq<char> {
    match t {
        Some(s) => s,
        None => default,
    }
}

pub fn read_cell(row: &Vec<Option<CatalogValue>>, i: usize) -> (r: Option<String>)
    ensures
        option_text(r) == cell_text(row@, i as int),
{
    if i < row.len() {
        query_value_to_string(&row[i])
    } else {
        None
    }
}

fn read_cell_or(row: &Vec<Option<CatalogValue>>, i: usize, default: &str) -> (r: String)
    ensures
        r@ == text_or(cell_text(row@, i as int), default@),
{
    match read_cell(row, i) {
        Some(s) => s,
        None => owned(default),
    }
}

fn read_cell_u32(row: &Vec<Option<CatalogValue>>, i: usize) -> (r: Option<u32>)
    ensures
        r == cell_u32(row@, i as int),
{
    if i < row.len() {
        query_value_to_u32(&row[i])
    } else {
        None
    }
}

fn read_cell_i8(row: &Vec<Option<CatalogValue>>, i: usize) -> (r: Option<i8>)
    ensures
        r == cell_i8(row@, i as int),
{
    if i < row.len() {
        query_value_to_i8(&row[i])
    } else {
        None
    }
}

pub open spec fn cell_u32(row: Seq<Option<CatalogValue>>, i: int) -> Option<u32> {
    if 0 <= i < row.len() {
        match value_nat(row[i], u32::MAX as int) {
            Some(n) => Some(n as u32),
            None => None,
        }
    } else {
        None
    }
}

pub open spec fn cell_i8(row: Seq<Option<CatalogValue>>, i: int) -> Option<i8> {
    if 0 <= i < row.len() {
        match value_int(row[i], i8::MIN as int, i8::MAX as int) {
            Some(n) => Some(n as i8),
            None => None,
        }
    } else {
        None
    }
}

/// What the dictionary says of a type: its schema, name and code.
pub struct TypeRow {
    pub schema: String,
    pub type_label: String,
    pub typecode: String,
}

impl TypeRow {
    pub open spec fn reads(
        self,
        row: Seq<Option<CatalogValue>>,
        username: Seq<char>,
        requested: Seq<char>,
    ) -> bool {
        &&& self.schema@ == text_or(cell_text(row, 0), upper(username))
        &&& self.type_label@ == text_or(cell_text(row, 1), requested)
        &&& self.typecode@ == text_or(cell_text(row, 2), "OBJECT"@)
    }
}

pub fn read_type_row(row: &Vec<Option<CatalogValue>>, username: &str, requested: &str) -> (r:
    TypeRow)
    ensures
        r.reads(row@, username@, requested@),
{
    TypeRow {
        schema: read_cell_or(row, 0, to_upper(username).as_str()),
        type_label: read_cell_or(row, 1, requested),
        typecode: read_cell_or(row, 2, "OBJECT"),
    }
}

/// What the dictionary says of a package's type.
pub struct PackageTypeRow {
    pub schema: String,
    pub package_name: String,
    pub type_label: String,
    pub typecode: String,
}

pub open spec fn package_row_read(
    r: Result<PackageTypeRow, Fault>,
    row: Option<Seq<Option<CatalogValue>>>,
    asked: PackageType,
    name: Seq<char>,
) -> bool {
    match (row, r) {
        (Some(row), Ok(t)) => {
            &&& t.schema@ == text_or(cell_text(row, 0), upper(asked.schema@))
            &&& t.package_name@ == text_or(cell_text(row, 1), upper(asked.package_name@))
            &&& t.type_label@ == text_or(cell_text(row, 2), upper(asked.type_label@))
            &&& t.typecode@ == text_or(cell_text(row, 3), "OBJECT"@)
        },
        (None, Err(f)) => f@ == invalid_name(name),
        _ => false,
    }
}

pub fn read_package_type_row(
    row: Option<&Vec<Option<CatalogValue>>>,
    asked: &PackageType,
    name: &str,
) -> (r: Result<PackageTypeRow, Fault>)
    ensures
        package_row_read(
            r,
            match row {
                Some(row) => Some(row@),
                None => None,
            },
            *asked,
            name@,
        ),
{
    match row {
        None => Err(Fault::InvalidObjectTypeName { name: owned(name) }),
        Some(row) => Ok(
            PackageTypeRow {
                schema: read_cell_or(row, 0, to_upper(asked.schema.as_str()).as_str()),
                package_name: read_cell_or(row, 1, to_upper(asked.package_name.as_str()).as_str()),
                type_label: read_cell_or(row, 2, to_upper(asked.type_label.as_str()).as_str()),
                typecode: read_cell_or(row, 3, "OBJECT"),
            },
        ),
    }
}

/// The code of a type that is looked at as part of another.
pub fn read_typecode(row: Option<&Vec<Option<CatalogValue>>>) -> (r: String)
    ensures
        r@ == match row {
            Some(row) => text_or(cell_text(row@, 0), "OBJECT"@),
            None => "OBJECT"@,
        },
{
    match row {
        Some(row) => read_cell_or(row, 0, "OBJECT"),
        None => owned("OBJECT"),
    }
}

/// Which columns of a row describe the type of an attribute or element.
#[derive(Clone, Copy, PartialEq, Eq, Structural, Debug)]
pub struct TypeColumns {
    /// The attribute's name; an element has none.
    pub name: Option<usize>,
    pub type_owner: usize,
    pub type_package: Option<usize>,
    pub type_label: usize,
    pub length: usize,
    pub precision: usize,
    pub scale: usize,
    pub char_length: Option<usize>,
}

/// The type of an attribute or element as a row describes it.
pub struct DescribedType {
    pub name: String,
    pub owner: String,
    pub package_name: Option<String>,
    pub type_label: String,
    pub length: Option<u32>,
    pub precision: Option<i8>,
    pub scale: Option<i8>,
    pub char_length: Option<u32>,
}

impl DescribedType {
    /// The description that a row gives. A type without a name counts as text, one without a
    /// schema as one of `schema`.
    pub open spec fn describes(
        self,
        row: Seq<Option<CatalogValue>>,
        c: TypeColumns,
        schema: Seq<char>,
    ) -> bool {
        &&& self.name@ == match c.name {
            Some(i) => upper(text_or(cell_text(row, i as int), Seq::empty())),
            None => Seq::empty(),
        }
        &&& self.owner@ == text_or(cell_text(row, c.type_owner as int), upper(schema))
        &&& option_text(self.package_name) == match c.type_package {
            Some(i) => cell_text(row, i as int),
            None => None,
        }
        &&& self.type_label@ == text_or(cell_text(row, c.type_label as int), "VARCHAR2"@)
        &&& self.length == cell_u32(row, c.length as int)
        &&& self.precision == cell_i8(row, c.precision as int)
        &&& self.scale == cell_i8(row, c.scale as int)
        &&& self.char_length == match c.char_length {
            Some(i) => cell_u32(row, i as int),
            None => None,
        }
    }
}

pub fn read_described_type(row: &Vec<Option<CatalogValue>>, c: TypeColumns, schema: &str) -> (r:
    DescribedType)
    ensures
        r.describes(row@, c, schema@),
{
    let name = match c.name {
        Some(i) => to_upper(
            match read_cell(row, i) {
                Some(s) => s,
                None => String::new(),
            }.as_str(),
        ),
        None => String::new(),
    };
    let package_name = match c.type_package {
        Some(i) => read_cell(row, i),
        None => None,
    };
    let char_length = match c.char_length {
        Some(i) => read_cell_u32(row, i),
        None => None,
    };
    DescribedType {
        name,
        owner: read_cell_or(row, c.type_owner, to_upper(schema).as_str()),
        package_name,
        type_label: read_cell_or(row, c.type_label, "VARCHAR2"),
        length: read_cell_u32(row, c.length),
        precision: read_cell_i8(row, c.precision),
        scale: read_cell_i8(row, c.scale),
        char_length,
    }
}

/// Each row is described, in order.
pub open spec fn all_described(
    described: Seq<DescribedType>,
    rows: Seq<Vec<Option<CatalogValue>>>,
    c: TypeColumns,
    schema: Seq<char>,
) -> bool {
    &&& described.len() == rows.len()
    &&& forall|i: int|
        0 <= i < rows.len() ==> (#[trigger] described[i]).describes(rows[i]@, c, schema)
}

/// Reads the description that each row gives.
pub fn read_described_types(
    rows: &Vec<Vec<Option<CatalogValue>>>,
    c: TypeColumns,
    schema: &str,
) -> (r: Vec<DescribedType>)
    ensures
        all_described(r@, rows@, c, schema@),
{
    let mut out: Vec<DescribedType> = Vec::new();
    let mut i: usize = 0;
    while i < rows.len()
        invariant
            i <= rows@.len(),
            all_described(out@, rows@.take(i as int), c, schema@),
        decreases rows@.len() - i,
    {
        out.push(read_described_type(&rows[i], c, schema));
        i = i + 1;
    }
    proof {
        assert(rows@.take(i as int) =~= rows@);
    }
    out
}

pub open spec fn object_attribute_columns() -> TypeColumns {
    TypeColumns {
        name: Some(0usize),
        type_owner: 5,
        type_package: None,
        type_label: 1,
        length: 2,
        precision: 3,
        scale: 4,
        char_length: None,
    }
}

pub open spec fn package_attribute_columns() -> TypeColumns {
    TypeColumns {
        name: Some(0usize),
        type_owner: 1,
        type_package: Some(2usize),
        type_label: 3,
        length: 4,
        precision: 5,
        scale: 6,
        char_length: None,
    }
}

pub open spec fn object_elements_columns() -> TypeColumns {
    TypeColumns {
        name: None,
        type_owner: 0,
        type_package: None,
        type_label: 1,
        length: 2,
        precision: 3,
        scale: 4,
        char_length: None,
    }
}

pub open spec fn package_elements_columns() -> TypeColumns {
    TypeColumns {
        name: None,
        type_owner: 0,
        type_package: Some(1usize),
        type_label: 2,
        length: 3,
        precision: 4,
        scale: 5,
        char_length: None,
    }
}

/// The columns of `all_type_attrs` as they are selected.
pub fn object_attr_columns() -> (r: TypeColumns)
    ensures
        r == object_attribute_columns(),
{
    TypeColumns {
        name: Some(0),
        type_owner: 5,
        type_package: None,
        type_label: 1,
        length: 2,
        precision: 3,
        scale: 4,
        char_length: None,
    }
}

/// The columns of `all_plsql_type_attrs` as they are selected.
pub fn package_attr_columns() -> (r: TypeColumns)
    ensures
        r == package_attribute_columns(),
{
    TypeColumns {
        name: Some(0),
        type_owner: 1,
        type_package: Some(2),
        type_label: 3,
        length: 4,
        precision: 5,
        scale: 6,
        char_length: None,
    }
}

/// The columns of `all_tab_cols` as they are selected.
pub open spec fn table_columns() -> TypeColumns {
    TypeColumns {
        name: Some(0usize),
        type_owner: 5,
        type_package: None,
        type_label: 1,
        length: 2,
        precision: 3,
        scale: 4,
        char_length: Some(6usize),
    }
}

pub fn rowtype_columns() -> (r: TypeColumns)
    ensures
        r == table_columns(),
{
    TypeColumns {
        name: Some(0),
        type_owner: 5,
        type_package: None,
        type_label: 1,
        length: 2,
        precision: 3,
        scale: 4,
        char_length: Some(6),
    }
}

/// The columns of `all_coll_types` as they are selected.
pub fn object_element_columns() -> (r: TypeColumns)
    ensures
        r == object_elements_columns(),
{
    TypeColumns {
        name: None,
        type_owner: 0,
        type_package: None,
        type_label: 1,
        length: 2,
        precision: 3,
        scale: 4,
        char_length: None,
    }
}

/// The columns of `all_plsql_coll_types` as they are selected.
pub fn package_element_columns() -> (r: TypeColumns)
    ensures
        r == package_elements_columns(),
{
    TypeColumns {
        name: None,
        type_owner: 0,
        type_package: Some(1),
        type_label: 2,
        length: 3,
        precision: 4,
        scale: 5,
        char_length: None,
    }
}

/// The type that must be looked up for an attribute or element.
pub enum NestedLookup {
    /// None: the value is no object.
    Nothing,
    /// The type of a table's rows.
    Rowtype { owner: String, table_name: String },
    Package { owner: String, package_name: String },
    Object { owner: String },
}

pub open spec fn nested_planned(
    r: NestedLookup,
    d: DescribedType,
    dbtype_name: Seq<char>,
    is_package_element: bool,
) -> bool {
    let table = without_suffix(d.type_label@, "%ROWTYPE"@);
    match r {
        NestedLookup::Nothing => dbtype_name != "DB_TYPE_OBJECT"@,
        NestedLookup::Rowtype { owner, table_name } => dbtype_name == "DB_TYPE_OBJECT"@
            && is_package_element && table == Some(table_name@) && owner == d.owner,
        NestedLookup::Package { owner, package_name } => dbtype_name == "DB_TYPE_OBJECT"@ && !(
        is_package_element && table is Some) && d.package_name == Some(package_name) && owner
            == d.owner,
        NestedLookup::Object { owner } => dbtype_name == "DB_TYPE_OBJECT"@ && !(is_package_element
            && table is Some) && d.package_name is None && owner == d.owner,
    }
}

/// Decides which type must be looked up. The element of a package's collection can be a row of a
/// table.
pub fn plan_nested_type(d: &DescribedType, dbtype_name: &str, is_package_element: bool) -> (r:
    NestedLookup)
    ensures
        nested_planned(r, *d, dbtype_name@, is_package_element),
{
    if !same_text(dbtype_name, "DB_TYPE_OBJECT") {
        return NestedLookup::Nothing;
    }
    if is_package_element {
        if let Some(table_name) = strip_text_suffix(d.type_label.as_str(), "%ROWTYPE") {
            return NestedLookup::Rowtype { owner: d.owner.clone(), table_name };
        }
    }
    match &d.package_name {
        Some(p) => NestedLookup::Package { owner: d.owner.clone(), package_name: p.clone() },
        None => NestedLookup::Object { owner: d.owner.clone() },
    }
}

/// The error for a table that has no columns.
pub fn missing_table(table_name: &str) -> (r: Fault)
    ensures
        r@ == invalid_name(table_name@ + "%ROWTYPE"@),
{
    Fault::InvalidObjectTypeName { name: join2(table_name, "%ROWTYPE") }
}

pub open spec fn rowtype_described(
    r: Result<Vec<DescribedType>, Fault>,
    rows: Seq<Vec<Option<CatalogValue>>>,
    table_name: Seq<char>,
    schema: Seq<char>,
) -> bool {
    match r {
        Ok(v) => rows.len() > 0 && all_described(v@, rows, table_columns(), schema),
        Err(f) => rows.len() == 0 && f@ == invalid_name(table_name + "%ROWTYPE"@),
    }
}

/// Reads the attributes of the type of a table's rows, one for each column in order. A table
/// without columns is none.
pub fn rowtype_descriptions(
    rows: &Vec<Vec<Option<CatalogValue>>>,
    table_name: &str,
    schema: &str,
) -> (r: Result<Vec<DescribedType>, Fault>)
    ensures
        rowtype_described(r, rows@, table_name@, schema@),
{
    if rows.len() == 0 {
        Err(missing_table(table_name))
    } else {
        Ok(read_described_types(rows, rowtype_columns(), schema))
    }
}

/// How many elements a collection may hold, and how they are indexed.
#[derive(Clone, Copy, PartialEq, Eq, Structural, Debug)]
pub struct CollectionLimits {
    pub max_num_elements: u32,
    pub is_assoc_array: bool,
}

pub open spec fn count_or_zero(n: Option<u32>) -> u32 {
    match n {
        Some(v) => v,
        None => 0,
    }
}

pub open spec fn unlimited() -> CollectionLimits {
    CollectionLimits { max_num_elements: 0, is_assoc_array: false }
}

impl CollectionLimits {
    pub open spec fn limits_object(self, row: Seq<Option<CatalogValue>>) -> bool {
        &&& self.max_num_elements == count_or_zero(cell_u32(row, 5))
        &&& !self.is_assoc_array
    }

    pub open spec fn limits_package(self, row: Seq<Option<CatalogValue>>) -> bool {
        &&& self.max_num_elements == count_or_zero(cell_u32(row, 6))
        &&& self.is_assoc_array == (same_ignoring_case(
            text_or(cell_text(row, 7), Seq::empty()),
            "PL/SQL INDEX TABLE"@,
        ) || cell_text(row, 8) is Some)
    }
}

/// The limits of a type that is no collection.
pub fn no_limits() -> (r: CollectionLimits)
    ensures
        r == unlimited(),
{
    CollectionLimits { max_num_elements: 0, is_assoc_array: false }
}

pub fn object_collection_limits(row: &Vec<Option<CatalogValue>>) -> (r: CollectionLimits)
    ensures
        r.limits_object(row@),
{
    let max_num_elements = match read_cell_u32(row, 5) {
        Some(n) => n,
        None => 0,
    };
    CollectionLimits { max_num_elements, is_assoc_array: false }
}

/// A package's collection is an associative array if it is an index table or says what it is
/// indexed by.
pub fn package_collection_limits(row: &Vec<Option<CatalogValue>>) -> (r: CollectionLimits)
    ensures
        r.limits_package(row@),
{
    let max_num_elements = match read_cell_u32(row, 6) {
        Some(n) => n,
        None => 0,
    };
    let coll_type = match read_cell(row, 7) {
        Some(s) => s,
        None => String::new(),
    };
    let is_assoc_array = same_text_ignoring_case(coll_type.as_str(), "PL/SQL INDEX TABLE")
        || read_cell(row, 8).is_some();
    CollectionLimits { max_num_elements, is_assoc_array }
}

/// What a type is as a collection.
pub struct CollectionShape {
    /// The type of its elements, if it is one.
    pub element: Option<DescribedType>,
    pub limits: CollectionLimits,
    /// Its attributes are looked up.
    pub has_attrs: bool,
}

impl CollectionShape {
    pub open spec fn shapes_object(
        self,
        row: Option<Seq<Option<CatalogValue>>>,
        schema: Seq<char>,
        with_attrs: bool,
    ) -> bool {
        match row {
            None => self.element is None && self.limits == unlimited() && self.has_attrs,
            Some(row) => {
                &&& self.element matches Some(e)
                &&& e.name@ == Seq::<char>::empty()
                &&& e.describes(row, object_elements_columns(), schema)
                &&& self.limits.limits_object(row)
                &&& self.has_attrs == with_attrs
            },
        }
    }

    pub open spec fn shapes_package(
        self,
        row: Option<Seq<Option<CatalogValue>>>,
        schema: Seq<char>,
    ) -> bool {
        match row {
            None => self.element is None && self.limits == unlimited() && self.has_attrs,
            Some(row) => {
                &&& self.element matches Some(e)
                &&& e.name@ == Seq::<char>::empty()
                &&& e.describes(row, package_elements_columns(), schema)
                &&& self.limits.limits_package(row)
                &&& !self.has_attrs
            },
        }
    }
}

/// The row that the dictionary has for a type as a collection; a type without one is no collection.
/// The attributes of a type are looked up where it is no collection, or where `with_attrs` asks for
/// those of any type.
pub fn object_type_collection_metadata(
    row: Option<&Vec<Option<CatalogValue>>>,
    schema: &str,
    with_attrs: bool,
) -> (r: CollectionShape)
    ensures
        r.shapes_object(
            match row {
                Some(row) => Some(row@),
                None => None,
            },
            schema@,
            with_attrs,
        ),
{
    match row {
        None => CollectionShape { element: None, limits: no_limits(), has_attrs: true },
        Some(row) => CollectionShape {
            element: Some(read_described_type(row, object_element_columns(), schema)),
            limits: object_collection_limits(row),
            has_attrs: with_attrs,
        },
    }
}

/// The same for a type of a package.
pub fn plsql_type_collection_metadata(row: Option<&Vec<Option<CatalogValue>>>, schema: &str) -> (r:
    CollectionShape)
    ensures
        r.shapes_package(
            match row {
                Some(row) => Some(row@),
                None => None,
            },
            schema@,
        ),
{
    match row {
        None => CollectionShape { element: None, limits: no_limits(), has_attrs: true },
        Some(row) => CollectionShape {
            element: Some(read_described_type(row, package_element_columns(), schema)),
            limits: package_collection_limits(row),
            has_attrs: false,
        },
    }
}

/// The identifier in the first column of a row.
pub open spec fn row_oid(row: Option<Seq<Option<CatalogValue>>>) -> Option<Seq<u8>> {
    match row {
        Some(r) => if r.len() > 0 && r[0] is Some && r[0]->0 is Raw {
            Some(r[0]->0->Raw_0@)
        } else {
            None
        },
        None => None,
    }
}

pub fn read_oid(row: Option<&Vec<Option<CatalogValue>>>) -> (r: Option<Vec<u8>>)
    ensures
        bytes_view(r) == row_oid(
            match row {
                Some(v) => Some(v@),
                None => None,
            },
        ),
{
    if let Some(row) = row {
        if row.len() > 0 {
            if let Some(CatalogValue::Raw(b)) = &row[0] {
                let c = b.clone();
                proof {
                    assert(c@ =~= b@);
                }
                return Some(c);
            }
        }
    }
    None
}

/// An output value of a call, by the position of its placeholder.
pub struct OutValue {
    pub index: usize,
    pub value: Option<CatalogValue>,
}

pub open spec fn out_oid(v: OutValue) -> Option<Seq<u8>> {
    if v.index == 2 && v.value is Some && v.value->0 is Raw {
        Some(v.value->0->Raw_0@)
    } else {
        None
    }
}

pub open spec fn out_version(v: OutValue) -> Option<u32> {
    if v.index == 3 {
        match value_int(v.value, i64::MIN as int, i64::MAX as int) {
            Some(n) => if 0 <= n <= u32::MAX {
                Some(n as u32)
            } else {
                None
            },
            None => None,
        }
    } else {
        None
    }
}

/// The first identifier among output values, from a position on.
pub open spec fn first_oid(out: Seq<OutValue>, from: int) -> Option<Seq<u8>>
    decreases out.len() - from,
{
    if from < 0 || from >= out.len() {
        None
    } else if out_oid(out[from]) is Some {
        out_oid(out[from])
    } else {
        first_oid(out, from + 1)
    }
}

/// The first version among output values, from a position on.
pub open spec fn first_version(out: Seq<OutValue>, from: int) -> Option<u32>
    decreases out.len() - from,
{
    if from < 0 || from >= out.len() {
        None
    } else if out_version(out[from]) is Some {
        out_version(out[from])
    } else {
        first_version(out, from + 1)
    }
}

/// Identifier and version of a type.
pub struct ShapeIdentity {
    pub oid: Option<Vec<u8>>,
    pub version: u32,
}

impl ShapeIdentity {
    pub open spec fn identifies(self, out: Seq<OutValue>, catalogued: Option<Seq<u8>>) -> bool {
        &&& bytes_view(self.oid) == match first_oid(out, 0) {
            Some(o) => Some(o),
            None => catalogued,
        }
        &&& self.version == count_or_zero(first_version(out, 0))
    }
}

/// Reads what a call of `get_type_shape` gave. Without an identifier, that of the dictionary
/// holds.
pub fn type_shape_identity(out: &Vec<OutValue>, oid_from_catalog: Option<Vec<u8>>) -> (r:
    ShapeIdentity)
    ensures
        r.identifies(out@, bytes_view(oid_from_catalog)),
{
    let mut oid: Option<Vec<u8>> = None;
    let mut i: usize = 0;
    while i < out.len() && oid.is_none()
        invariant
            i <= out@.len(),
            match oid {
                Some(o) => first_oid(out@, 0) == Some(o@),
                None => first_oid(out@, 0) == first_oid(out@, i as int),
            },
        decreases out@.len() - i,
    {
        if out[i].index == 2 {
            if let Some(CatalogValue::Raw(b)) = &out[i].value {
                let c = b.clone();
                proof {
                    assert(c@ =~= b@);
                }
                oid = Some(c);
            }
        }
        i = i + 1;
    }
    let mut version: u32 = 0;
    let mut found = false;
    let mut j: usize = 0;
    while j < out.len() && !found
        invariant
            j <= out@.len(),
            found ==> first_version(out@, 0) == Some(version),
            !found ==> version == 0 && first_version(out@, 0) == first_version(out@, j as int),
        decreases out@.len() - j,
    {
        if out[j].index == 3 {
            if let Ok(n) = query_value_to_i64(&out[j].value) {
                if 0 <= n && n <= 0xffff_ffff {
                    version = n as u32;
                    found = true;
                }
            }
        }
        j = j + 1;
    }
    let oid = match oid {
        Some(o) => Some(o),
        None => oid_from_catalog,
    };
    ShapeIdentity { oid, version }
}

pub open spec fn names_assembled(
    t: DbObjectType,
    schema: Seq<char>,
    package_name: Option<Seq<char>>,
    type_label: Seq<char>,
    typecode: Seq<char>,
) -> bool {
    &&& t.identity.schema@ == upper(schema)
    &&& option_text(t.identity.package_name) == match package_name {
        Some(p) => Some(upper(p)),
        None => None,
    }
    &&& t.identity.name@ == upper(type_label)
    &&& t.is_collection == same_ignoring_case(typecode, "COLLECTION"@)
}

pub open spec fn parts_assembled(
    t: DbObjectType,
    attrs: Vec<DbObjectAttr>,
    element_metadata: Option<Box<DbObjectAttr>>,
    limits: CollectionLimits,
    identity: ShapeIdentity,
) -> bool {
    &&& t.attrs == attrs
    &&& t.element_metadata == element_metadata
    &&& t.max_num_elements == limits.max_num_elements
    &&& t.is_assoc_array == limits.is_assoc_array
    &&& t.oid == identity.oid
    &&& t.version == identity.version
}

/// Puts a type together from what was looked up. Its names are in upper case.
pub fn assemble_type(
    schema: &str,
    package_name: Option<&str>,
    type_label: &str,
    typecode: &str,
    attrs: Vec<DbObjectAttr>,
    element_metadata: Option<Box<DbObjectAttr>>,
    limits: CollectionLimits,
    identity: ShapeIdentity,
) -> (r: DbObjectType)
    ensures
        names_assembled(
            r,
            schema@,
            match package_name {
                Some(p) => Some(p@),
                None => None,
            },
            type_label@,
            typecode@,
        ),
        parts_assembled(r, attrs, element_metadata, limits, identity),
{
    let package = match package_name {
        Some(p) => Some(to_upper(p)),
        None => None,
    };
    DbObjectType::new(
        TypeIdentity {
            schema: to_upper(schema),
            package_name: package,
            name: to_upper(type_label),
        },
        typecode,
        attrs,
        element_metadata,
        limits.max_num_elements,
        limits.is_assoc_array,
    ).with_type_identity(identity.oid, identity.version)
}

/// A name is split at its points: what stands before the first is one part, what stands behind it is
/// split on. A name without points is one part.
pub proof fn law_name_is_split_at_points(a: Seq<char>, b: Seq<char>)
    requires
        forall|i: int| 0 <= i < a.len() ==> #[trigger] a[i] != '.',
    ensures
        trim(a).len() > 0 ==> name_parts(a) == seq![trim(a)],
        trim(a).len() == 0 ==> name_parts(a).len() == 0,
        trim(a).len() > 0 ==> name_parts(a.push('.') + b) == seq![trim(a)] + name_parts(b),
        trim(a).len() == 0 ==> name_parts(a.push('.') + b) == name_parts(b),
{
    reveal_strlit(".");
    assert forall|j: int| 0 <= j implies !occurs_at(a, "."@, j) by {
        if occurs_at(a, "."@, j) {
            assert(a.subrange(j, j + 1)[0] == "."@[0]);
            assert(a[j] == '.');
        }
    }
    lemma_find_from_none(a, "."@, 0);
    let s = a.push('.') + b;
    let n = a.len() as int;
    assert(s.subrange(n, n + 1) =~= "."@);
    assert forall|j: int| 0 <= j < n implies !occurs_at(s, "."@, j) by {
        if occurs_at(s, "."@, j) {
            assert(s.subrange(j, j + 1)[0] == "."@[0]);
            assert(s[j] == a[j]);
        }
    }
    lemma_find_from_is(s, "."@, 0, n);
    assert(s.take(n) =~= a);
    assert(s.skip(n + 1) =~= b);
    assert(Seq::<Seq<char>>::empty() + name_parts(b) =~= name_parts(b));
}

/// A suffix comes off exactly where the text ends with it, and what is left is what stood before.
pub proof fn law_suffix_comes_off(s: Seq<char>, suffix: Seq<char>)
    ensures
        without_suffix(s + suffix, suffix) == Some(s),
        without_suffix(s, suffix) matches Some(t) ==> t + suffix == s,
{
    let joined = s + suffix;
    assert(joined.skip(joined.len() - suffix.len()) =~= suffix);
    assert(joined.take(joined.len() - suffix.len()) =~= s);
    if ends_with(s, suffix) {
        assert(s.take(s.len() - suffix.len()) + suffix =~= s);
    }
}

/// A type is asked for by the last part of its name, in upper case. A name of two parts gives the
/// schema, one of any other number gives none.
pub proof fn law_type_is_asked_for_by_name(schema: Seq<char>, name: Seq<char>)
    requires
        forall|i: int| 0 <= i < schema.len() ==> #[trigger] schema[i] != '.',
        forall|i: int| 0 <= i < name.len() ==> #[trigger] name[i] != '.',
        trim(schema).len() > 0,
        trim(name).len() > 0,
    ensures
        requested_name(name) == upper(trim(name)),
        requested_owner(name) is None,
        requested_name(schema.push('.') + name) == upper(trim(name)),
        requested_owner(schema.push('.') + name) == Some(upper(trim(schema))),
{
    law_name_is_split_at_points(schema, name);
    law_name_is_split_at_points(name, name);
}

/// The rows of a table are looked up exactly where the name ends with `%ROWTYPE`: the table is what
/// stands before it. Any other type is asked for by its name and, where one is given, its schema.
pub proof fn law_type_is_looked_up_by_name(
    r: TypePlan,
    request: TypeRequest,
    username: Seq<char>,
)
    requires
        type_planned(r, request, username),
    ensures
        r is Rowtype <==> ends_with(request.type_label@, "%ROWTYPE"@),
        r matches TypePlan::Rowtype { schema, table_name } ==> {
            &&& table_name@ + "%ROWTYPE"@ == request.type_label@
            &&& request.owner matches Some(o) ==> schema@ == o@
            &&& request.owner is None ==> schema@ == upper(username)
        },
        r matches TypePlan::Dictionary { sql, binds } ==> {
            &&& binds@[0] matches BindValue::Text(t) && t@ == request.type_label@
            &&& request.owner is None ==> binds@.len() == 1
            &&& request.owner matches Some(o) ==> binds@.len() == 2 && (
            binds@[1] matches BindValue::Text(t) && t@ == o@)
        },
{
    if without_suffix(request.type_label@, "%ROWTYPE"@) is Some {
        law_suffix_comes_off(request.type_label@, "%ROWTYPE"@);
    }
}

/// The query for a type asks for one schema: the one that is bound, or the current one.
pub proof fn law_type_query_asks_for_one_schema()
    ensures
        type_query(true) != type_query(false),
        type_query(true).subrange(69, 84) == " and owner = :2"@,
        type_query(false).subrange(69, 81) == " and owner ="@ && type_query(false)[82] == 's',
{
    reveal_strlit("select owner, type_name, typecode from all_types where type_name = :1");
    reveal_strlit(" and owner = :2");
    reveal_strlit(" and owner = sys_context('USERENV', 'CURRENT_SCHEMA')");
    reveal_strlit(" and owner =");
    reveal_strlit(" order by owner");
    assert(type_query(true).subrange(69, 84) =~= " and owner = :2"@);
    assert(type_query(false).subrange(69, 81) =~= " and owner ="@);
    assert(type_query(true)[82] == ':');
    assert(type_query(false)[82] == 's');
}

/// A type of a package is named by package and type, and where there are three parts by its schema
/// in front; else the schema is the user's own. Any other number of parts names none.
pub proof fn law_package_type_is_named_by_parts(
    r: Result<PackageType, Fault>,
    parts: Seq<Seq<char>>,
    username: Seq<char>,
    name: Seq<char>,
)
    requires
        package_planned(r, parts, username, name),
    ensures
        r is Ok <==> parts.len() == 2 || parts.len() == 3,
        r matches Ok(p) ==> parts.len() == 2 ==> p.package_name@ == parts[0] && p.type_label@
            == parts[1] && p.schema@ == upper(username),
        r matches Ok(p) ==> parts.len() == 3 ==> p.schema@ == parts[0] && p.package_name@
            == parts[1] && p.type_label@ == parts[2],
        r matches Err(f) ==> f@ == (FaultView::InvalidObjectTypeName { name }),
{
}

/// What the dictionary says of a type goes before what was asked for; the columns are schema, name
/// and code, with the package between schema and name where there is one.
pub proof fn law_dictionary_row_goes_first(
    t: TypeRow,
    p: Result<PackageTypeRow, Fault>,
    row: Seq<Option<CatalogValue>>,
    username: Seq<char>,
    requested: Seq<char>,
    asked: PackageType,
    name: Seq<char>,
)
    requires
        t.reads(row, username, requested),
        package_row_read(p, Some(row), asked, name),
    ensures
        cell_text(row, 0) matches Some(s) ==> t.schema@ == s,
        cell_text(row, 0) is None ==> t.schema@ == upper(username),
        cell_text(row, 1) matches Some(s) ==> t.type_label@ == s,
        cell_text(row, 1) is None ==> t.type_label@ == requested,
        cell_text(row, 2) matches Some(s) ==> t.typecode@ == s,
        cell_text(row, 2) is None ==> t.typecode@ == "OBJECT"@,
        p is Ok,
        cell_text(row, 0) matches Some(s) ==> p->Ok_0.schema@ == s,
        cell_text(row, 0) is None ==> p->Ok_0.schema@ == upper(asked.schema@),
        cell_text(row, 1) matches Some(s) ==> p->Ok_0.package_name@ == s,
        cell_text(row, 1) is None ==> p->Ok_0.package_name@ == upper(asked.package_name@),
        cell_text(row, 2) matches Some(s) ==> p->Ok_0.type_label@ == s,
        cell_text(row, 2) is None ==> p->Ok_0.type_label@ == upper(asked.type_label@),
        cell_text(row, 3) matches Some(s) ==> p->Ok_0.typecode@ == s,
        cell_text(row, 3) is None ==> p->Ok_0.typecode@ == "OBJECT"@,
        forall|none: Result<PackageTypeRow, Fault>| #[trigger]
            package_row_read(none, None, asked, name) ==> (none matches Err(f) && f@ == (
            FaultView::InvalidObjectTypeName { name })),
{
}

/// A cell is read where the row has it, by itself; beyond the row there is nothing.
pub proof fn law_cell_stands_by_itself(
    row: Seq<Option<CatalogValue>>,
    i: int,
    j: int,
    v: Option<CatalogValue>,
)
    requires
        0 <= i < row.len(),
        0 <= j < row.len(),
        i != j,
    ensures
        cell_text(row.update(j, v), i) == cell_text(row, i),
        cell_u32(row.update(j, v), i) == cell_u32(row, i),
        cell_i8(row.update(j, v), i) == cell_i8(row, i),
        cell_text(row, row.len() as int) is None,
        cell_u32(row, row.len() as int) is None,
        cell_i8(row, row.len() as int) is None,
        cell_text(row, i) == value_text(row[i]),
        row[i] matches Some(CatalogValue::Text(t)) ==> cell_text(row, i) == Some(t@),
        row[i] is None ==> cell_text(row, i) is None && cell_u32(row, i) is None && cell_i8(row, i)
            is None,
{
}

/// An attribute of an object type is described by its name, type, length, precision, scale and the
/// type's schema, in this order.
pub proof fn law_object_attribute_is_described_in_order(
    d: DescribedType,
    row: Seq<Option<CatalogValue>>,
    schema: Seq<char>,
)
    requires
        d.describes(row, object_attribute_columns(), schema),
    ensures
        cell_text(row, 0) matches Some(s) ==> d.name@ == upper(s),
        cell_text(row, 1) matches Some(s) ==> d.type_label@ == s,
        cell_text(row, 1) is None ==> d.type_label@ == "VARCHAR2"@,
        d.length == cell_u32(row, 2),
        d.precision == cell_i8(row, 3),
        d.scale == cell_i8(row, 4),
        cell_text(row, 5) matches Some(s) ==> d.owner@ == s,
        cell_text(row, 5) is None ==> d.owner@ == upper(schema),
        d.package_name is None && d.char_length is None,
{
}

/// An attribute of a package's record has the schema, package and name of its type behind its own
/// name.
pub proof fn law_package_attribute_is_described_in_order(
    d: DescribedType,
    row: Seq<Option<CatalogValue>>,
    schema: Seq<char>,
)
    requires
        d.describes(row, package_attribute_columns(), schema),
    ensures
        cell_text(row, 0) matches Some(s) ==> d.name@ == upper(s),
        cell_text(row, 1) matches Some(s) ==> d.owner@ == s,
        option_text(d.package_name) == cell_text(row, 2),
        cell_text(row, 3) matches Some(s) ==> d.type_label@ == s,
        d.length == cell_u32(row, 4),
        d.precision == cell_i8(row, 5),
        d.scale == cell_i8(row, 6),
{
}

/// A column of a table is described as an attribute is, with its length in characters at the end.
pub proof fn law_table_column_is_described_as_an_attribute(
    d: DescribedType,
    e: DescribedType,
    row: Seq<Option<CatalogValue>>,
    schema: Seq<char>,
)
    requires
        d.describes(row, table_columns(), schema),
        e.describes(row, object_attribute_columns(), schema),
    ensures
        d.name@ == e.name@ && d.owner@ == e.owner@ && d.type_label@ == e.type_label@,
        d.length == e.length && d.precision == e.precision && d.scale == e.scale,
        d.package_name is None,
        d.char_length == cell_u32(row, 6),
{
}

/// The elements of a collection have no name; their type is described by schema, package where there
/// is one, name, length, precision and scale.
pub proof fn law_elements_are_described_in_order(
    o: DescribedType,
    p: DescribedType,
    row: Seq<Option<CatalogValue>>,
    schema: Seq<char>,
)
    requires
        o.describes(row, object_elements_columns(), schema),
        p.describes(row, package_elements_columns(), schema),
    ensures
        o.name@.len() == 0 && p.name@.len() == 0,
        cell_text(row, 0) matches Some(s) ==> o.owner@ == s && p.owner@ == s,
        cell_text(row, 1) matches Some(s) ==> o.type_label@ == s,
        o.package_name is None && option_text(p.package_name) == cell_text(row, 1),
        cell_text(row, 2) matches Some(s) ==> p.type_label@ == s,
        o.length == cell_u32(row, 2) && p.length == cell_u32(row, 3),
        o.precision == cell_i8(row, 3) && p.precision == cell_i8(row, 4),
        o.scale == cell_i8(row, 4) && p.scale == cell_i8(row, 5),
{
}

/// A type is looked up for an attribute exactly where that holds an object, in the schema that its
/// description names. Only the element of a package's collection can be a table's row.
pub proof fn law_nested_type_is_looked_up_where_described(
    r: NestedLookup,
    d: DescribedType,
    dbtype_name: Seq<char>,
    is_package_element: bool,
)
    requires
        nested_planned(r, d, dbtype_name, is_package_element),
    ensures
        r is Nothing <==> dbtype_name != "DB_TYPE_OBJECT"@,
        r matches NestedLookup::Rowtype { owner, table_name } ==> is_package_element && owner@
            == d.owner@ && table_name@ + "%ROWTYPE"@ == d.type_label@,
        r matches NestedLookup::Package { owner, package_name } ==> owner@ == d.owner@
            && option_text(d.package_name) == Some(package_name@),
        r matches NestedLookup::Object { owner } ==> owner@ == d.owner@ && d.package_name is None,
        dbtype_name == "DB_TYPE_OBJECT"@ && is_package_element && ends_with(
            d.type_label@,
            "%ROWTYPE"@,
        ) ==> r is Rowtype,
        !is_package_element ==> !(r is Rowtype),
{
    law_suffix_comes_off(d.type_label@, "%ROWTYPE"@);
}

/// The type of a table's rows has an attribute for each column, in order; a table without columns is
/// refused by its name.
pub proof fn law_rows_have_the_columns_of_the_table(
    r: Result<Vec<DescribedType>, Fault>,
    rows: Seq<Vec<Option<CatalogValue>>>,
    table_name: Seq<char>,
    schema: Seq<char>,
    i: int,
)
    requires
        rowtype_described(r, rows, table_name, schema),
    ensures
        r is Ok <==> rows.len() > 0,
        r matches Ok(v) ==> v@.len() == rows.len(),
        r matches Ok(v) ==> 0 <= i < rows.len() ==> (cell_text(rows[i]@, 0) matches Some(s)
            ==> v@[i].name@ == upper(s)),
        r matches Err(f) ==> (f@ matches FaultView::InvalidObjectTypeName { name }
            && without_suffix(name, "%ROWTYPE"@) == Some(table_name)),
{
    law_suffix_comes_off(table_name, "%ROWTYPE"@);
    if r is Ok && 0 <= i < rows.len() {
        assert(r->Ok_0@[i].describes(rows[i]@, table_columns(), schema));
    }
}

/// A type is a collection exactly where the dictionary has a row for it as one. Only a package's
/// collection can be an associative array: one that is an index table, or says by what it is
/// indexed.
pub proof fn law_collection_has_a_row(
    o: CollectionShape,
    p: CollectionShape,
    row: Option<Seq<Option<CatalogValue>>>,
    schema: Seq<char>,
    with_attrs: bool,
)
    requires
        o.shapes_object(row, schema, with_attrs),
        p.shapes_package(row, schema),
    ensures
        o.element is Some <==> row is Some,
        p.element is Some <==> row is Some,
        row is None ==> o.limits.max_num_elements == 0 && p.limits.max_num_elements == 0
            && o.has_attrs && p.has_attrs,
        !o.limits.is_assoc_array,
        row is None ==> !p.limits.is_assoc_array,
        row is Some ==> o.has_attrs == with_attrs && !p.has_attrs,
        row matches Some(c) ==> {
            &&& cell_u32(c, 5) matches Some(n) ==> o.limits.max_num_elements == n
            &&& cell_u32(c, 5) is None ==> o.limits.max_num_elements == 0
            &&& cell_u32(c, 6) matches Some(n) ==> p.limits.max_num_elements == n
            &&& cell_u32(c, 6) is None ==> p.limits.max_num_elements == 0
            &&& cell_text(c, 8) is Some ==> p.limits.is_assoc_array
            &&& cell_text(c, 7) == Some("PL/SQL INDEX TABLE"@) ==> p.limits.is_assoc_array
            &&& cell_text(c, 7) is None && cell_text(c, 8) is None ==> !p.limits.is_assoc_array
            &&& cell_text(c, 0) matches Some(s) ==> o.element->0.owner@ == s && p.element->0.owner@
                == s
        },
{
    reveal_strlit("PL/SQL INDEX TABLE");
    lemma_same_ignoring_case_upper("PL/SQL INDEX TABLE"@, "PL/SQL INDEX TABLE"@);
    lemma_same_ignoring_case_upper(Seq::empty(), "PL/SQL INDEX TABLE"@);
    assert(upper("PL/SQL INDEX TABLE"@).len() == 18);
    assert(upper(Seq::empty()).len() == 0);
}

/// An identifier is the raw value in the first column.
pub proof fn law_identifier_is_the_first_raw_value(row: Seq<Option<CatalogValue>>)
    ensures
        row_oid(None) is None,
        row.len() == 0 ==> row_oid(Some(row)) is None,
        row.len() > 0 ==> (row_oid(Some(row)) is Some <==> row[0] matches Some(CatalogValue::Raw(_))),
        row.len() > 0 ==> (row[0] matches Some(CatalogValue::Raw(b)) ==> row_oid(Some(row)) == Some(
            b@,
        )),
{
}

/// The identifier of a type is the first raw value of the third output, the version the first number
/// of the fourth.
pub proof fn law_shape_is_read_from_its_outputs(out: Seq<OutValue>, from: int, j: int)
    requires
        0 <= from <= j < out.len(),
    ensures
        first_oid(out, from) is None ==> !(out[j].index == 2 && (
        out[j].value matches Some(CatalogValue::Raw(_)))),
        first_oid(out, from) matches Some(o) ==> exists|i: int|
            from <= i < out.len() && (#[trigger] out[i]).index == 2 && (
            out[i].value matches Some(CatalogValue::Raw(b)) && b@ == o),
        first_version(out, from) matches Some(n) ==> exists|i: int|
            from <= i < out.len() && (#[trigger] out[i]).index == 3 && value_int(
                out[i].value,
                i64::MIN as int,
                i64::MAX as int,
            ) == Some(n as int),
        first_version(out, from) is None ==> !(out[j].index == 3 && (value_int(
            out[j].value,
            i64::MIN as int,
            i64::MAX as int,
        ) matches Some(n) && 0 <= n <= u32::MAX)),
        j == from && out[j].index == 2 ==> (out[j].value matches Some(CatalogValue::Raw(b))
            ==> first_oid(out, from) == Some(b@)),
    decreases out.len() - from,
{
    if from + 1 < out.len() {
        law_shape_is_read_from_its_outputs(
            out,
            from + 1,
            if j > from {
                j
            } else {
                from + 1
            },
        );
    } else {
        reveal_with_fuel(first_oid, 2);
        reveal_with_fuel(first_version, 2);
    }
    assert(out[from].index == out[from].index);
}

/// The server's identifier goes before that of the dictionary, and a version that is not given is
/// zero.
pub proof fn law_shape_goes_before_the_dictionary(
    r: ShapeIdentity,
    out: Seq<OutValue>,
    catalogued: Option<Seq<u8>>,
)
    requires
        r.identifies(out, catalogued),
    ensures
        first_oid(out, 0) matches Some(o) ==> r.oid is Some && r.oid->0@ == o,
        first_oid(out, 0) is None ==> bytes_view(r.oid) == catalogued,
        first_version(out, 0) is None ==> r.version == 0,
        first_version(out, 0) matches Some(n) ==> r.version == n,
{
}

/// A type that was looked up is known by its names in upper case, so that any spelling of them gives
/// the same type; it has the attributes, the elements, the limits and the identifier that were found.
pub proof fn law_assembled_type_is_what_was_found(
    a: DbObjectType,
    b: DbObjectType,
    schema: Seq<char>,
    package_name: Option<Seq<char>>,
    type_label: Seq<char>,
    typecode: Seq<char>,
    attrs: Vec<DbObjectAttr>,
    element: Option<Box<DbObjectAttr>>,
    limits: CollectionLimits,
    identity: ShapeIdentity,
)
    requires
        names_assembled(a, schema, package_name, type_label, typecode),
        names_assembled(
            b,
            upper(schema),
            match package_name {
                Some(p) => Some(upper(p)),
                None => None,
            },
            upper(type_label),
            typecode,
        ),
        parts_assembled(a, attrs, element, limits, identity),
    ensures
        a.identity.same(b.identity),
        a.identity.schema@ == upper(schema) && a.identity.name@ == upper(type_label),
        a.identity.package_name is Some <==> package_name is Some,
        a.identity.package_name matches Some(p) ==> p@ == upper(package_name->0),
        typecode == "COLLECTION"@ ==> a.is_collection,
        typecode == "OBJECT"@ ==> !a.is_collection,
        a.attrs@ == attrs@ && a.element_metadata == element,
        a.max_num_elements == limits.max_num_elements,
        a.is_assoc_array == limits.is_assoc_array,
        a.oid == identity.oid && a.version == identity.version,
{
    law_upper_idempotent(schema);
    law_upper_idempotent(type_label);
    if package_name is Some {
        law_upper_idempotent(package_name->0);
    }
    reveal_strlit("COLLECTION");
    reveal_strlit("OBJECT");
    lemma_same_ignoring_case_upper(typecode, "COLLECTION"@);
    assert(upper("OBJECT"@).len() != upper("COLLECTION"@).len());
}

} // verus!
