//! SODA: collection metadata, documents and document cursors.
use vstd::prelude::*;

use crate::errors::{database_error, runtime_error, Fault};
#[allow(unused_imports)]
use crate::errors::{database_view, fault_of_message, FaultView};
use crate::text::owned;

verus! {

#[verifier::external_type_specification]
#[verifier::external_body]
pub struct ExJsonValue(serde_json::Value);

#[verifier::external_type_specification]
#[verifier::external_body]
#[verifier::reject_recursive_types(K)]
#[verifier::reject_recursive_types(V)]
pub struct ExJsonMap<K, V>(serde_json::Map<K, V>);

#[verifier::external_type_specification]
#[verifier::external_body]
pub struct ExJsonError(serde_json::Error);

/// The members that a `serde_json::Map` holds.
pub uninterp spec fn json_members(m: serde_json::Map<String, serde_json::Value>) -> Map<
    Seq<char>,
    serde_json::Value,
>;

/// The JSON value that is a string.
pub uninterp spec fn json_string(s: Seq<char>) -> serde_json::Value;

/// The JSON value that is `true` or `false`.
pub uninterp spec fn json_flag(b: bool) -> serde_json::Value;

/// The JSON value that is an object with these members.
pub uninterp spec fn json_object(members: Map<Seq<char>, serde_json::Value>) -> serde_json::Value;

/// The text that serde_json writes for a value.
pub uninterp spec fn json_text(v: serde_json::Value) -> Seq<char>;

pub open spec fn no_members() -> Map<Seq<char>, serde_json::Value> {
    Map::empty()
}

/// `serde_json::Map::new` gives a map without members.
#[verifier::external_body]
fn new_members() -> (r: serde_json::Map<String, serde_json::Value>)
    ensures
        json_members(r) == no_members(),
{
    serde_json::Map::new()
}

/// `serde_json::Map::insert` gives a key a value, in place of one that it had.
#[verifier::external_body]
fn insert_member(
    m: &mut serde_json::Map<String, serde_json::Value>,
    key: String,
    value: serde_json::Value,
)
    ensures
        json_members(*final(m)) == json_members(*old(m)).insert(key@, value),
{
    m.insert(key, value);
}

/// `serde_json::Value::String` makes a string value, which depends on nothing but the text.
#[verifier::external_body]
fn string_value(s: String) -> (r: serde_json::Value)
    ensures
        r == json_string(s@),
{
    serde_json::Value::String(s)
}

/// `serde_json::Value::Bool` makes a value that is `true` or `false`.
#[verifier::external_body]
fn flag_value(b: bool) -> (r: serde_json::Value)
    ensures
        r == json_flag(b),
{
    serde_json::Value::Bool(b)
}

/// `serde_json::Value::Object` makes an object, which depends on nothing but its members: the map
/// orders them by key.
#[verifier::external_body]
fn object_value(m: serde_json::Map<String, serde_json::Value>) -> (r: serde_json::Value)
    ensures
        r == json_object(json_members(m)),
{
    serde_json::Value::Object(m)
}

/// `serde_json::to_string` writes a value as text, which depends on nothing but the value. It can
/// fail where the type that is written decides to, or where a map has keys that are no strings: a
/// JSON value does neither, so that the call succeeds.
#[verifier::external_body]
fn write_json(v: &serde_json::Value) -> (r: Result<String, serde_json::Error>)
    ensures
        r is Ok,
        r->Ok_0@ == json_text(*v),
{
    serde_json::to_string(v)
}

/// The message of a `serde_json::Error`, as its `Display` implementation writes it. Nothing is
/// stated of it.
#[verifier::external_body]
fn json_error_message(e: &serde_json::Error) -> (r: String)
{
    format!("{}", e)
}

/// What a collection's metadata says.
pub struct CollectionMetadata {
    pub table_name: String,
    pub schema_name: Option<String>,
    pub key_column: String,
    pub key_sql_type: String,
    pub content_column: String,
    pub read_only: bool,
}

impl CollectionMetadata {
    /// The members of the metadata document.
    pub open spec fn members(self) -> Map<Seq<char>, serde_json::Value> {
        let key = no_members().insert(
            "name"@,
            json_string(self.key_column@),
        ).insert("sqlType"@, json_string(self.key_sql_type@));
        let content = no_members().insert(
            "name"@,
            json_string(self.content_column@),
        );
        let named = no_members().insert(
            "tableName"@,
            json_string(self.table_name@),
        );
        let placed = match self.schema_name {
            Some(s) => named.insert("schemaName"@, json_string(s@)),
            None => named,
        };
        placed.insert("keyColumn"@, json_object(key)).insert(
            "contentColumn"@,
            json_object(content),
        ).insert("readOnly"@, json_flag(self.read_only))
    }

    /// The metadata document as a JSON value.
    pub fn document(&self) -> (r: serde_json::Value)
        ensures
            r == json_object(self.members()),
    {
        let mut obj = new_members();
        insert_member(&mut obj, owned("tableName"), string_value(self.table_name.clone()));
        if let Some(s) = &self.schema_name {
            insert_member(&mut obj, owned("schemaName"), string_value(s.clone()));
        }
        let mut key = new_members();
        insert_member(&mut key, owned("name"), string_value(self.key_column.clone()));
        insert_member(&mut key, owned("sqlType"), string_value(self.key_sql_type.clone()));
        insert_member(&mut obj, owned("keyColumn"), object_value(key));
        let mut content = new_members();
        insert_member(&mut content, owned("name"), string_value(self.content_column.clone()));
        insert_member(&mut obj, owned("contentColumn"), object_value(content));
        insert_member(&mut obj, owned("readOnly"), flag_value(self.read_only));
        object_value(obj)
    }

    /// The metadata document as text.
    pub fn get_metadata(&self) -> (r: Result<String, Fault>)
        ensures
            r matches Ok(s) && s@ == json_text(json_object(self.members())),
    {
        match write_json(&self.document()) {
            Ok(s) => Ok(s),
            Err(e) => {
                let message = json_error_message(&e);
                Err(runtime_error(message.as_str()))
            },
        }
    }
}

/// A cursor over documents that were all fetched.
pub struct DocCursor {
    /// The number of documents.
    pub len: usize,
    pub position: usize,
    pub open: bool,
}

pub open spec fn cursor_not_open() -> FaultView {
    database_view("DPY-1006: cursor is not open"@)
}

impl DocCursor {
    pub open spec fn wf(self) -> bool {
        self.position <= self.len
    }

    pub open spec fn over(len: usize) -> DocCursor {
        DocCursor { len, position: 0, open: true }
    }

    pub fn new(len: usize) -> (r: Self)
        ensures
            r == DocCursor::over(len),
            r.wf(),
    {
        DocCursor { len, position: 0, open: true }
    }

    pub open spec fn advanced(self, after: DocCursor, r: Result<Option<usize>, Fault>) -> bool {
        match r {
            Ok(Some(i)) => self.open && i == self.position && i < self.len && after == (DocCursor {
                position: (self.position + 1) as usize,
                ..self
            }),
            Ok(None) => self.open && self.position == self.len && after == self,
            Err(f) => !self.open && after == self && f@ == cursor_not_open(),
        }
    }

    pub open spec fn closed(self, after: DocCursor, r: Result<(), Fault>) -> bool {
        match r {
            Ok(_) => self.open && after == (DocCursor { open: false, ..self }),
            Err(f) => !self.open && after == self && f@ == cursor_not_open(),
        }
    }

    /// The next document, by its place among those fetched. Each is given once.
    pub fn get_next_doc(&mut self) -> (r: Result<Option<usize>, Fault>)
        requires
            old(self).wf(),
        ensures
            final(self).wf(),
            old(self).advanced(*final(self), r),
    {
        if !self.open {
            return Err(database_error("DPY-1006: cursor is not open"));
        }
        if self.position >= self.len {
            return Ok(None);
        }
        let i = self.position;
        self.position = i + 1;
        Ok(Some(i))
    }

    pub fn close(&mut self) -> (r: Result<(), Fault>)
        ensures
            old(self).closed(*final(self), r),
    {
        if !self.open {
            return Err(database_error("DPY-1006: cursor is not open"));
        }
        self.open = false;
        Ok(())
    }
}

/// What a replacement answers with.
#[derive(Clone, Copy, PartialEq, Eq, Structural, Debug)]
pub enum ReplaceAnswer {
    /// The document that took the place.
    Document,
    /// `None`.
    Nothing,
    /// Whether a document was replaced.
    Flag(bool),
}

pub open spec fn replace_answer(
    return_doc: bool,
    replaced: bool,
    has_document: bool,
) -> ReplaceAnswer {
    if !return_doc {
        ReplaceAnswer::Flag(replaced)
    } else if has_document {
        ReplaceAnswer::Document
    } else {
        ReplaceAnswer::Nothing
    }
}

pub fn replace_one(return_doc: bool, replaced: bool, has_document: bool) -> (r: ReplaceAnswer)
    ensures
        r == replace_answer(return_doc, replaced, has_document),
{
    if !return_doc {
        ReplaceAnswer::Flag(replaced)
    } else if has_document {
        ReplaceAnswer::Document
    } else {
        ReplaceAnswer::Nothing
    }
}

/// What the content of a document is given as.
#[derive(Clone, Copy, PartialEq, Eq, Structural, Debug)]
pub enum ContentPlan {
    /// The decoded value, without an encoding.
    Value,
    /// The bytes, and `UTF-8` as their encoding.
    Bytes,
    /// Neither content nor encoding.
    Nothing,
}

pub open spec fn content_shown(has_value: bool, has_bytes: bool) -> ContentPlan {
    if has_value {
        ContentPlan::Value
    } else if has_bytes {
        ContentPlan::Bytes
    } else {
        ContentPlan::Nothing
    }
}

pub fn get_content(has_value: bool, has_bytes: bool) -> (r: ContentPlan)
    ensures
        r == content_shown(has_value, has_bytes),
{
    if has_value {
        ContentPlan::Value
    } else if has_bytes {
        ContentPlan::Bytes
    } else {
        ContentPlan::Nothing
    }
}

/// The operations of a collection that always fail.
#[derive(Clone, Copy, PartialEq, Eq, Structural, Debug)]
pub enum UnsupportedSoda {
    GetDataGuide,
    ListIndexes,
    Save,
}

pub fn refuse(op: UnsupportedSoda) -> (r: Fault)
    ensures
        r@ == match op {
            UnsupportedSoda::GetDataGuide => fault_of_message(
                "ORA-40582: getDataGuide() requires a JSON search index (Oracle Text); not supported by thin-mode SODA on this database"@,
            ),
            UnsupportedSoda::ListIndexes => database_view(
                "DPY-3001: listIndexes() is not supported by thin-mode SODA"@,
            ),
            UnsupportedSoda::Save => database_view(
                "DPY-3001: save()/saveAndGet() is not supported by thin-mode SODA"@,
            ),
        },
{
    match op {
        UnsupportedSoda::GetDataGuide => runtime_error(
            "ORA-40582: getDataGuide() requires a JSON search index (Oracle Text); not supported by thin-mode SODA on this database",
        ),
        UnsupportedSoda::ListIndexes => database_error(
            "DPY-3001: listIndexes() is not supported by thin-mode SODA",
        ),
        UnsupportedSoda::Save => database_error(
            "DPY-3001: save()/saveAndGet() is not supported by thin-mode SODA",
        ),
    }
}

/// Metadata tells of a collection its table, the columns of keys and contents and whether it can be
/// written; the schema is there exactly where the collection has one.
pub proof fn law_metadata_tells_of_the_collection(c: CollectionMetadata)
    ensures
        ({
            let m = c.members();
            &&& m.dom().contains("tableName"@) && m["tableName"@] == json_string(c.table_name@)
            &&& m.dom().contains("readOnly"@) && m["readOnly"@] == json_flag(c.read_only)
            &&& m.dom().contains("schemaName"@) <==> c.schema_name is Some
            &&& c.schema_name matches Some(s) ==> m["schemaName"@] == json_string(s@)
            &&& m.dom().contains("contentColumn"@) && m["contentColumn"@] == json_object(
                no_members().insert("name"@, json_string(c.content_column@)),
            )
            &&& m.dom().contains("keyColumn"@) && exists|k: Map<Seq<char>, serde_json::Value>|
                {
                    &&& m["keyColumn"@] == #[trigger] json_object(k)
                    &&& k.dom().contains("name"@) && k["name"@] == json_string(c.key_column@)
                    &&& k.dom().contains("sqlType"@) && k["sqlType"@] == json_string(
                        c.key_sql_type@,
                    )
                }
        }),
{
    reveal_strlit("tableName");
    reveal_strlit("schemaName");
    reveal_strlit("keyColumn");
    reveal_strlit("contentColumn");
    reveal_strlit("readOnly");
    reveal_strlit("name");
    reveal_strlit("sqlType");
    assert("tableName"@.len() == 9 && "keyColumn"@.len() == 9 && "schemaName"@.len() == 10);
    assert("contentColumn"@.len() == 13 && "readOnly"@.len() == 8);
    assert("tableName"@[0] == 't' && "keyColumn"@[0] == 'k');
    assert("name"@.len() == 4 && "sqlType"@.len() == 7);
    let k = no_members().insert("name"@, json_string(c.key_column@)).insert(
        "sqlType"@,
        json_string(c.key_sql_type@),
    );
    assert(c.members()["keyColumn"@] == json_object(k));
}

/// A cursor gives each document once, from the first on, and then nothing more.
pub proof fn law_documents_come_once_in_order(
    c: DocCursor,
    one: DocCursor,
    two: DocCursor,
    first: Result<Option<usize>, Fault>,
    second: Result<Option<usize>, Fault>,
)
    requires
        c.wf(),
        c.open,
        c.advanced(one, first),
        one.advanced(two, second),
    ensures
        first matches Ok(Some(i)) ==> i == c.position && (second matches Ok(Some(j)) ==> j == i + 1),
        first == Ok::<Option<usize>, Fault>(None) <==> c.position == c.len,
        first == Ok::<Option<usize>, Fault>(None) ==> second == Ok::<Option<usize>, Fault>(None),
        one.len == c.len && one.open,
        DocCursor::over(c.len).position == 0 && DocCursor::over(c.len).open && DocCursor::over(
            c.len,
        ).len == c.len,
{
}

/// A cursor is closed once, and a closed one gives nothing.
pub proof fn law_closed_cursor_gives_nothing(
    c: DocCursor,
    closed: DocCursor,
    after: DocCursor,
    r: Result<(), Fault>,
    next: Result<Option<usize>, Fault>,
    again: Result<(), Fault>,
)
    requires
        c.closed(closed, r),
        closed.advanced(after, next),
        after.closed(after, again),
    ensures
        r is Ok <==> c.open,
        !closed.open,
        next is Err && again is Err,
        after == closed,
        r is Err ==> closed == c,
        next->Err_0@ == again->Err_0@,
        again->Err_0@ matches FaultView::Database(e) && e.message.take(8) == "DPY-1006"@,
{
    reveal_strlit("DPY-1006: cursor is not open");
    reveal_strlit("DPY-1006");
    assert("DPY-1006: cursor is not open"@.take(8) =~= "DPY-1006"@);
}

/// A replacement tells whether it replaced anything, unless the document was asked for.
pub proof fn law_replacement_answers_what_was_asked(replaced: bool, has_document: bool)
    ensures
        replace_answer(false, replaced, has_document) == ReplaceAnswer::Flag(replaced),
        replace_answer(true, replaced, has_document) == ReplaceAnswer::Document <==> has_document,
        replace_answer(true, replaced, has_document) == ReplaceAnswer::Nothing <==> !has_document,
{
}

/// A decoded value goes before the bytes of a document.
pub proof fn law_decoded_content_goes_first(has_value: bool, has_bytes: bool)
    ensures
        content_shown(has_value, has_bytes) == ContentPlan::Value <==> has_value,
        content_shown(has_value, has_bytes) == ContentPlan::Bytes <==> !has_value && has_bytes,
{
}

} // verus!
