//! Object types of the database, their attributes, and what may be stored in them.
use vstd::prelude::*;

use crate::errors::Fault;
#[allow(unused_imports)]
use crate::errors::FaultView;
use crate::text::{join3, same_text, same_text_ignoring_case, to_upper};
#[allow(unused_imports)]
use crate::text::{lemma_same_ignoring_case_upper, option_text, same_ignoring_case, upper};
#[allow(unused_imports)]
use crate::value::bytes_view;
use crate::value::{BindValue, CsForm, OraType};

verus! {

/// What tells one object type from another.
pub struct TypeIdentity {
    pub schema: String,
    pub package_name: Option<String>,
    pub name: String,
}

pub struct DbObjectType {
    pub identity: TypeIdentity,
    pub oid: Option<Vec<u8>>,
    pub version: u32,
    pub is_collection: bool,
    pub attrs: Vec<DbObjectAttr>,
    /// What the elements of a collection are.
    pub element_metadata: Option<Box<DbObjectAttr>>,
    /// How many elements a collection may hold; zero if that is not limited.
    pub max_num_elements: u32,
    pub is_assoc_array: bool,
}

pub struct DbObjectAttr {
    pub name: String,
    /// The name of the database type, such as `DB_TYPE_NUMBER`.
    pub dbtype_name: String,
    pub objtype: Option<DbObjectType>,
    pub max_size: u32,
    pub precision: i8,
    pub scale: i8,
}

pub fn same_option_text(a: &Option<String>, b: &Option<String>) -> (r: bool)
    ensures
        r == (option_text(*a) == option_text(*b)),
{
    match (a, b) {
        (Some(x), Some(y)) => same_text(x.as_str(), y.as_str()),
        (None, None) => true,
        _ => false,
    }
}

impl TypeIdentity {
    /// The two are one type: schema, package and name agree.
    pub open spec fn same(self, other: TypeIdentity) -> bool {
        &&& self.schema@ == other.schema@
        &&& option_text(self.package_name) == option_text(other.package_name)
        &&& self.name@ == other.name@
    }

    pub fn same_type(&self, other: &TypeIdentity) -> (r: bool)
        ensures
            r == self.same(*other),
    {
        same_text(self.schema.as_str(), other.schema.as_str()) && same_option_text(
            &self.package_name,
            &other.package_name,
        ) && same_text(self.name.as_str(), other.name.as_str())
    }

    pub fn duplicate(&self) -> (r: TypeIdentity)
        ensures
            self.same(r),
    {
        TypeIdentity {
            schema: self.schema.clone(),
            package_name: self.package_name.clone(),
            name: self.name.clone(),
        }
    }

    /// The qualified name.
    pub open spec fn fqn(self) -> Seq<char> {
        match self.package_name {
            Some(p) => self.schema@ + "."@ + p@ + "."@ + self.name@,
            None => self.schema@ + "."@ + self.name@,
        }
    }

    pub fn get_fqn(&self) -> (r: String)
        ensures
            r@ == self.fqn(),
    {
        match &self.package_name {
            Some(p) => {
                let head = join3(self.schema.as_str(), ".", p.as_str());
                join3(head.as_str(), ".", self.name.as_str())
            },
            None => join3(self.schema.as_str(), ".", self.name.as_str()),
        }
    }
}

/// Being one type is an equivalence.
pub proof fn law_same_type_is_an_equivalence(a: TypeIdentity, b: TypeIdentity, c: TypeIdentity)
    ensures
        a.same(a),
        a.same(b) == b.same(a),
        a.same(b) && b.same(c) ==> a.same(c),
        a.same(b) ==> a.fqn() == b.fqn(),
{
}

impl DbObjectType {
    /// The two describe one type, with all that belongs to it.
    pub open spec fn same_definition(self, other: DbObjectType) -> bool
        decreases self,
    {
        &&& self.identity.same(other.identity)
        &&& bytes_view(self.oid) == bytes_view(other.oid)
        &&& self.version == other.version
        &&& self.is_collection == other.is_collection
        &&& self.attrs@.len() == other.attrs@.len()
        &&& forall|i: int|
            0 <= i < self.attrs@.len() ==> (#[trigger] self.attrs@[i]).same_definition(
                other.attrs@[i],
            )
        &&& match (self.element_metadata, other.element_metadata) {
            (Some(a), Some(b)) => a.same_definition(*b),
            (a, b) => a is None && b is None,
        }
        &&& self.max_num_elements == other.max_num_elements
        &&& self.is_assoc_array == other.is_assoc_array
    }

    pub fn duplicate(&self) -> (r: DbObjectType)
        ensures
            self.same_definition(r),
        decreases self,
    {
        let mut attrs: Vec<DbObjectAttr> = Vec::new();
        let mut i: usize = 0;
        while i < self.attrs.len()
            invariant
                i <= self.attrs@.len(),
                attrs@.len() == i,
                forall|j: int|
                    0 <= j < i ==> (#[trigger] self.attrs@[j]).same_definition(attrs@[j]),
            decreases self.attrs@.len() - i,
        {
            proof {
                assert(decreases_to!(*self => self.attrs));
                assert(decreases_to!(self.attrs => self.attrs@));
                assert(decreases_to!(self.attrs@ => self.attrs@[i as int]));
            }
            attrs.push(self.attrs[i].duplicate());
            i = i + 1;
        }
        let element_metadata = match &self.element_metadata {
            Some(attr) => Some(Box::new(attr.duplicate())),
            None => None,
        };
        DbObjectType {
            identity: self.identity.duplicate(),
            oid: self.oid.clone(),
            version: self.version,
            is_collection: self.is_collection,
            attrs,
            element_metadata,
            max_num_elements: self.max_num_elements,
            is_assoc_array: self.is_assoc_array,
        }
    }
}

impl DbObjectAttr {
    pub open spec fn same_definition(self, other: DbObjectAttr) -> bool
        decreases self,
    {
        &&& self.name@ == other.name@
        &&& self.dbtype_name@ == other.dbtype_name@
        &&& match (self.objtype, other.objtype) {
            (Some(a), Some(b)) => a.same_definition(b),
            (a, b) => a is None && b is None,
        }
        &&& self.max_size == other.max_size
        &&& self.precision == other.precision
        &&& self.scale == other.scale
    }

    pub fn duplicate(&self) -> (r: DbObjectAttr)
        ensures
            self.same_definition(r),
        decreases self,
    {
        let objtype = match &self.objtype {
            Some(t) => Some(t.duplicate()),
            None => None,
        };
        DbObjectAttr {
            name: self.name.clone(),
            dbtype_name: self.dbtype_name.clone(),
            objtype,
            max_size: self.max_size,
            precision: self.precision,
            scale: self.scale,
        }
    }
}

/// A type as a query's column names it: no more is known than that it is an object type.
pub open spec fn bare_type(t: DbObjectType, schema: Seq<char>, name: Seq<char>) -> bool {
    &&& t.identity.schema@ == schema
    &&& t.identity.package_name is None
    &&& t.identity.name@ == name
    &&& t.oid is None
    &&& t.version == 0
    &&& !t.is_collection
    &&& t.attrs@.len() == 0
    &&& t.element_metadata is None
    &&& t.max_num_elements == 0
    &&& !t.is_assoc_array
}

/// The type that a query's column names.
pub open spec fn column_type(
    r: Option<DbObjectType>,
    name: Option<Seq<char>>,
    schema: Option<Seq<char>>,
) -> bool {
    &&& r is Some == name is Some
    &&& r matches Some(t) ==> bare_type(
        t,
        match schema {
            Some(s) => upper(s),
            None => Seq::empty(),
        },
        upper(name->0),
    )
}

/// The first attribute, from a position on, that has a name.
pub open spec fn first_named(attrs: Seq<DbObjectAttr>, name: Seq<char>, from: int) -> Option<int>
    decreases attrs.len() - from,
{
    if from < 0 || from >= attrs.len() {
        None
    } else if same_ignoring_case(attrs[from].name@, name) {
        Some(from)
    } else {
        first_named(attrs, name, from + 1)
    }
}

/// The type holds characters.
pub open spec fn is_character_type(dbtype_name: Seq<char>) -> bool {
    ||| dbtype_name == "DB_TYPE_VARCHAR"@
    ||| dbtype_name == "DB_TYPE_CHAR"@
    ||| dbtype_name == "DB_TYPE_NVARCHAR"@
    ||| dbtype_name == "DB_TYPE_NCHAR"@
}

pub fn character_type(dbtype_name: &str) -> (r: bool)
    ensures
        r == is_character_type(dbtype_name@),
{
    same_text(dbtype_name, "DB_TYPE_VARCHAR") || same_text(dbtype_name, "DB_TYPE_CHAR")
        || same_text(dbtype_name, "DB_TYPE_NVARCHAR") || same_text(dbtype_name, "DB_TYPE_NCHAR")
}

/// The first attribute, from a position on, that holds characters.
pub open spec fn first_character(attrs: Seq<DbObjectAttr>, from: int) -> Option<int>
    decreases attrs.len() - from,
{
    if from < 0 || from >= attrs.len() {
        None
    } else if is_character_type(attrs[from].dbtype_name@) {
        Some(from)
    } else {
        first_character(attrs, from + 1)
    }
}

impl DbObjectType {
    pub open spec fn described(
        identity: TypeIdentity,
        typecode: Seq<char>,
        attrs: Vec<DbObjectAttr>,
        element_metadata: Option<Box<DbObjectAttr>>,
        max_num_elements: u32,
        is_assoc_array: bool,
    ) -> DbObjectType {
        DbObjectType {
            identity,
            oid: None,
            version: 0,
            is_collection: same_ignoring_case(typecode, "COLLECTION"@),
            attrs,
            element_metadata,
            max_num_elements,
            is_assoc_array,
        }
    }

    /// A type as the catalogue describes it.
    pub fn new(
        identity: TypeIdentity,
        typecode: &str,
        attrs: Vec<DbObjectAttr>,
        element_metadata: Option<Box<DbObjectAttr>>,
        max_num_elements: u32,
        is_assoc_array: bool,
    ) -> (r: Self)
        ensures
            r == DbObjectType::described(
                identity,
                typecode@,
                attrs,
                element_metadata,
                max_num_elements,
                is_assoc_array,
            ),
    {
        DbObjectType {
            identity,
            oid: None,
            version: 0,
            is_collection: same_text_ignoring_case(typecode, "COLLECTION"),
            attrs,
            element_metadata,
            max_num_elements,
            is_assoc_array,
        }
    }

    /// The type that a query's column names, if it names one.
    pub fn from_column_metadata(
        object_name: Option<&str>,
        object_schema: Option<&str>,
    ) -> (r: Option<Self>)
        ensures
            column_type(
                r,
                match object_name {
                    Some(n) => Some(n@),
                    None => None,
                },
                match object_schema {
                    Some(s) => Some(s@),
                    None => None,
                },
            ),
    {
        let name = match object_name {
            Some(n) => to_upper(n),
            None => {
                return None;
            },
        };
        let schema = match object_schema {
            Some(s) => to_upper(s),
            None => String::new(),
        };
        Some(
            DbObjectType {
                identity: TypeIdentity { schema, package_name: None, name },
                oid: None,
                version: 0,
                is_collection: false,
                attrs: Vec::new(),
                element_metadata: None,
                max_num_elements: 0,
                is_assoc_array: false,
            },
        )
    }

    pub open spec fn identified(self, oid: Option<Vec<u8>>, version: u32) -> DbObjectType {
        DbObjectType { oid, version, ..self }
    }

    pub fn with_type_identity(self, oid: Option<Vec<u8>>, version: u32) -> (r: Self)
        ensures
            r == self.identified(oid, version),
    {
        DbObjectType {
            identity: self.identity,
            oid,
            version,
            is_collection: self.is_collection,
            attrs: self.attrs,
            element_metadata: self.element_metadata,
            max_num_elements: self.max_num_elements,
            is_assoc_array: self.is_assoc_array,
        }
    }

    pub open spec fn received_by(self, r: Option<BindValue>) -> bool {
        match r {
            Some(BindValue::ObjectOutput { schema, object_name, oid, version }) => {
                &&& self.oid is Some
                &&& schema == self.identity.schema
                &&& object_name == self.identity.name
                &&& oid@ == self.oid->0@
                &&& version == if self.version == 0 {
                    1
                } else {
                    self.version
                }
            },
            Some(_) => false,
            None => self.oid is None,
        }
    }

    /// The bind that receives an object of the type. A type without an identifier has none.
    pub fn object_output_bind(&self) -> (r: Option<BindValue>)
        ensures
            self.received_by(r),
    {
        match &self.oid {
            Some(o) => {
                let oid = o.clone();
                assert(oid@ =~= o@);
                Some(
                    BindValue::ObjectOutput {
                        schema: self.identity.schema.clone(),
                        object_name: self.identity.name.clone(),
                        oid,
                        version: if self.version == 0 {
                            1
                        } else {
                            self.version
                        },
                    },
                )
            },
            None => None,
        }
    }

    pub open spec fn sent_by(self, r: Option<BindValue>, image: Vec<u8>) -> bool {
        match r {
            Some(BindValue::ObjectInput {
                schema,
                object_name,
                oid,
                version,
                image: sent,
                buffer_size,
            }) => {
                &&& self.oid is Some
                &&& schema == self.identity.schema
                &&& object_name == self.identity.name
                &&& oid@ == self.oid->0@
                &&& version == self.version
                &&& sent == image
                &&& buffer_size == if image@.len() == 0 {
                    1
                } else if image@.len() > u32::MAX {
                    u32::MAX as int
                } else {
                    image@.len() as int
                }
            },
            Some(_) => false,
            None => self.oid is None,
        }
    }

    /// The bind that sends an object of the type, whose packed image is given. A type without an
    /// identifier has none.
    pub fn object_input_bind(&self, image: Vec<u8>) -> (r: Option<BindValue>)
        ensures
            self.sent_by(r, image),
    {
        match &self.oid {
            Some(o) => {
                let oid = o.clone();
                assert(oid@ =~= o@);
                let buffer_size: u32 = if image.len() == 0 {
                    1
                } else if image.len() as u64 > 0xffff_ffff {
                    0xffff_ffff
                } else {
                    image.len() as u32
                };
                Some(
                    BindValue::ObjectInput {
                        schema: self.identity.schema.clone(),
                        object_name: self.identity.name.clone(),
                        oid,
                        version: self.version,
                        image,
                        buffer_size,
                    },
                )
            },
            None => None,
        }
    }

    /// The attribute that stands for an object where a statement can return only a scalar: the
    /// one named `STRINGVALUE`, else the first that holds characters.
    pub open spec fn scalar_attr(self) -> Option<int> {
        match first_named(self.attrs@, "STRINGVALUE"@, 0) {
            Some(i) => Some(i),
            None => first_character(self.attrs@, 0),
        }
    }

    pub fn default_scalar_return_attr(&self) -> (r: Option<usize>)
        ensures
            match r {
                Some(i) => self.scalar_attr() == Some(i as int) && i < self.attrs@.len(),
                None => self.scalar_attr() is None,
            },
    {
        let mut i: usize = 0;
        while i < self.attrs.len()
            invariant
                i <= self.attrs@.len(),
                first_named(self.attrs@, "STRINGVALUE"@, 0) == first_named(
                    self.attrs@,
                    "STRINGVALUE"@,
                    i as int,
                ),
            decreases self.attrs@.len() - i,
        {
            if same_text_ignoring_case(self.attrs[i].name.as_str(), "STRINGVALUE") {
                return Some(i);
            }
            i = i + 1;
        }
        let mut j: usize = 0;
        while j < self.attrs.len()
            invariant
                j <= self.attrs@.len(),
                first_named(self.attrs@, "STRINGVALUE"@, 0) is None,
                first_character(self.attrs@, 0) == first_character(self.attrs@, j as int),
            decreases self.attrs@.len() - j,
        {
            if character_type(self.attrs[j].dbtype_name.as_str()) {
                return Some(j);
            }
            j = j + 1;
        }
        None
    }

    pub open spec fn returned_as(self, r: Option<String>, asked: Option<String>) -> bool {
        match r {
            Some(s) => s@ == match asked {
                Some(a) => a@,
                None => self.attrs@[self.scalar_attr()->0].name@,
            } && (asked is Some || self.scalar_attr() is Some),
            None => asked is None && self.scalar_attr() is None,
        }
    }

    /// The attribute that a `RETURNING` clause is rewritten to return: the one that was asked
    /// for, else the default.
    pub fn object_return_projection(&self, asked: Option<String>) -> (r: Option<String>)
        ensures
            self.returned_as(r, asked),
    {
        match asked {
            Some(a) => Some(a),
            None => match self.default_scalar_return_attr() {
                Some(i) => Some(self.attrs[i].name.clone()),
                None => None,
            },
        }
    }
}

/// What is known of a value that is to be stored in an attribute or element.
pub struct StoredFacets {
    pub is_none: bool,
    /// The type of the object that the value is.
    pub object: Option<TypeIdentity>,
    pub is_text_or_bytes: bool,
    /// The size of a text or of bytes, in bytes.
    pub byte_size: Option<u64>,
    /// The name of the value's Python type.
    pub py_type_name: String,
}

impl DbObjectAttr {
    /// Why a value cannot be stored, whatever its size.
    pub open spec fn value_fault(self, v: StoredFacets) -> Option<FaultView> {
        let unsupported = FaultView::UnsupportedPythonType {
            py_type_name: v.py_type_name@,
            db_type_name: self.dbtype_name@,
        };
        if v.is_none {
            None
        } else if self.dbtype_name@ == "DB_TYPE_OBJECT"@ {
            match (self.objtype, v.object) {
                (None, _) => None,
                (Some(expected), None) => Some(unsupported),
                (Some(expected), Some(actual)) => if actual.same(expected.identity) {
                    None
                } else {
                    Some(
                        FaultView::WrongObjectType {
                            actual_schema: actual.schema@,
                            actual_name: actual.name@,
                            expected_schema: expected.identity.schema@,
                            expected_name: expected.identity.name@,
                        },
                    )
                },
            }
        } else if self.dbtype_name@ == "DB_TYPE_NUMBER"@ && v.is_text_or_bytes {
            Some(unsupported)
        } else {
            None
        }
    }

    pub fn validated_dbobject_value(&self, v: &StoredFacets) -> (r: Option<Fault>)
        ensures
            match r {
                Some(f) => self.value_fault(*v) == Some(f@),
                None => self.value_fault(*v) is None,
            },
    {
        if v.is_none {
            return None;
        }
        if same_text(self.dbtype_name.as_str(), "DB_TYPE_OBJECT") {
            return match &self.objtype {
                None => None,
                Some(expected) => match &v.object {
                    None => Some(self.unsupported(v)),
                    Some(actual) => if actual.same_type(&expected.identity) {
                        None
                    } else {
                        Some(
                            Fault::WrongObjectType {
                                actual_schema: actual.schema.clone(),
                                actual_name: actual.name.clone(),
                                expected_schema: expected.identity.schema.clone(),
                                expected_name: expected.identity.name.clone(),
                            },
                        )
                    },
                },
            };
        }
        if same_text(self.dbtype_name.as_str(), "DB_TYPE_NUMBER") && v.is_text_or_bytes {
            return Some(self.unsupported(v));
        }
        None
    }

    fn unsupported(&self, v: &StoredFacets) -> (r: Fault)
        ensures
            r@ == (FaultView::UnsupportedPythonType {
                py_type_name: v.py_type_name@,
                db_type_name: self.dbtype_name@,
            }),
    {
        Fault::UnsupportedPythonType {
            py_type_name: v.py_type_name.clone(),
            db_type_name: self.dbtype_name.clone(),
        }
    }

    /// The value is larger than the attribute or element may be.
    pub open spec fn too_large(self, v: StoredFacets) -> bool {
        &&& self.max_size > 0
        &&& !v.is_none
        &&& v.byte_size is Some
        &&& v.byte_size->0 > self.max_size
    }

    pub fn is_too_large(&self, v: &StoredFacets) -> (r: Option<u64>)
        ensures
            match r {
                Some(n) => self.too_large(*v) && v.byte_size == Some(n),
                None => !self.too_large(*v),
            },
    {
        if self.max_size > 0 && !v.is_none {
            if let Some(n) = v.byte_size {
                if n > self.max_size as u64 {
                    return Some(n);
                }
            }
        }
        None
    }
}

/// How a value in a packed object is read.
#[derive(Clone, Copy, PartialEq, Eq, Structural, Debug)]
pub enum UnpackPlan {
    /// Read the bytes and give no value.
    Discard,
    /// An object of the attribute's type. In a collection it is read as bytes that stay packed,
    /// else its attributes follow.
    Nested { in_collection: bool },
    /// Read the bytes and decode them.
    Scalar(ScalarPlan),
}

/// How the bytes of a scalar are decoded.
#[derive(Clone, Copy, PartialEq, Eq, Structural, Debug)]
pub enum ScalarPlan {
    Text,
    Bytes,
    XmlType,
    /// A number that is a `float` in Python.
    FloatNumber,
    Number,
    DateTime,
    BinaryFloat,
    BinaryDouble,
    /// The bytes are a locator.
    Lob { ora_type: OraType, csfrm: CsForm },
    /// No value.
    Nothing,
}

impl DbObjectAttr {
    pub open spec fn scalar_plan(self) -> ScalarPlan {
        let t = self.dbtype_name@;
        if is_character_type(t) {
            ScalarPlan::Text
        } else if t == "DB_TYPE_RAW"@ {
            ScalarPlan::Bytes
        } else if t == "DB_TYPE_XMLTYPE"@ {
            ScalarPlan::XmlType
        } else if t == "DB_TYPE_NUMBER"@ {
            if self.scale == -127 && self.precision > 0 {
                ScalarPlan::FloatNumber
            } else {
                ScalarPlan::Number
            }
        } else if t == "DB_TYPE_DATE"@ || t == "DB_TYPE_TIMESTAMP"@ || t == "DB_TYPE_TIMESTAMP_TZ"@
            || t == "DB_TYPE_TIMESTAMP_LTZ"@ {
            ScalarPlan::DateTime
        } else if t == "DB_TYPE_BINARY_FLOAT"@ {
            ScalarPlan::BinaryFloat
        } else if t == "DB_TYPE_BINARY_DOUBLE"@ {
            ScalarPlan::BinaryDouble
        } else if t == "DB_TYPE_BLOB"@ {
            ScalarPlan::Lob { ora_type: OraType::Blob, csfrm: CsForm::Implicit }
        } else if t == "DB_TYPE_CLOB"@ {
            ScalarPlan::Lob { ora_type: OraType::Clob, csfrm: CsForm::Implicit }
        } else if t == "DB_TYPE_NCLOB"@ {
            ScalarPlan::Lob { ora_type: OraType::Clob, csfrm: CsForm::Nchar }
        } else {
            ScalarPlan::Nothing
        }
    }

    fn plan_scalar(&self) -> (r: ScalarPlan)
        ensures
            r == self.scalar_plan(),
    {
        let t = self.dbtype_name.as_str();
        if character_type(t) {
            ScalarPlan::Text
        } else if same_text(t, "DB_TYPE_RAW") {
            ScalarPlan::Bytes
        } else if same_text(t, "DB_TYPE_XMLTYPE") {
            ScalarPlan::XmlType
        } else if same_text(t, "DB_TYPE_NUMBER") {
            if self.scale == -127 && self.precision > 0 {
                ScalarPlan::FloatNumber
            } else {
                ScalarPlan::Number
            }
        } else if same_text(t, "DB_TYPE_DATE") || same_text(t, "DB_TYPE_TIMESTAMP") || same_text(
            t,
            "DB_TYPE_TIMESTAMP_TZ",
        ) || same_text(t, "DB_TYPE_TIMESTAMP_LTZ") {
            ScalarPlan::DateTime
        } else if same_text(t, "DB_TYPE_BINARY_FLOAT") {
            ScalarPlan::BinaryFloat
        } else if same_text(t, "DB_TYPE_BINARY_DOUBLE") {
            ScalarPlan::BinaryDouble
        } else if same_text(t, "DB_TYPE_BLOB") {
            ScalarPlan::Lob { ora_type: OraType::Blob, csfrm: CsForm::Implicit }
        } else if same_text(t, "DB_TYPE_CLOB") {
            ScalarPlan::Lob { ora_type: OraType::Clob, csfrm: CsForm::Implicit }
        } else if same_text(t, "DB_TYPE_NCLOB") {
            ScalarPlan::Lob { ora_type: OraType::Clob, csfrm: CsForm::Nchar }
        } else {
            ScalarPlan::Nothing
        }
    }

    pub open spec fn unpack_plan(self, parent_is_collection: bool) -> UnpackPlan {
        if self.dbtype_name@ == "DB_TYPE_OBJECT"@ {
            match self.objtype {
                None => UnpackPlan::Discard,
                Some(t) => UnpackPlan::Nested {
                    in_collection: parent_is_collection || t.is_collection,
                },
            }
        } else {
            UnpackPlan::Scalar(self.scalar_plan())
        }
    }

    /// Decides how the value of an attribute, or of an element of a collection, is read.
    pub fn dbobject_unpack_value(&self, parent_is_collection: bool) -> (r: UnpackPlan)
        ensures
            r == self.unpack_plan(parent_is_collection),
    {
        if same_text(self.dbtype_name.as_str(), "DB_TYPE_OBJECT") {
            match &self.objtype {
                None => UnpackPlan::Discard,
                Some(t) => UnpackPlan::Nested {
                    in_collection: parent_is_collection || t.is_collection,
                },
            }
        } else {
            UnpackPlan::Scalar(self.plan_scalar())
        }
    }
}

/// A qualified name begins with the schema and ends with the name, with points between the parts.
pub proof fn law_qualified_name_has_its_parts(t: TypeIdentity)
    ensures
        ({
            let f = t.fqn();
            let s = t.schema@.len() as int;
            let n = t.name@.len() as int;
            &&& f.take(s) == t.schema@ && f[s] == '.'
            &&& f.skip(f.len() - n) == t.name@ && f[f.len() - n - 1] == '.'
            &&& t.package_name is None ==> f.len() == s + n + 1
            &&& t.package_name matches Some(p) ==> f.len() == s + n + p@.len() + 2 && f.subrange(
                s + 1,
                s + 1 + p@.len(),
            ) == p@
        }),
{
    reveal_strlit(".");
    let f = t.fqn();
    let s = t.schema@.len() as int;
    let n = t.name@.len() as int;
    assert(f.take(s) =~= t.schema@);
    assert(f.skip(f.len() - n) =~= t.name@);
    if t.package_name is Some {
        let p = t.package_name->0@;
        assert(f.subrange(s + 1, s + 1 + p.len()) =~= p);
    }
}

/// Types that differ in schema, package or name are not one type.
pub proof fn law_same_type_compares_all_parts(a: TypeIdentity, b: TypeIdentity)
    ensures
        a.same(b) ==> a.schema@ == b.schema@ && a.name@ == b.name@ && (a.package_name is Some
            <==> b.package_name is Some),
        a.same(b) && a.package_name is Some ==> a.package_name->0@ == b.package_name->0@,
        a.schema@ == b.schema@ && a.name@ == b.name@ && a.package_name is None && b.package_name
            is None ==> a.same(b),
{
}

/// A copy of a type has the same attributes in the same order, each with its own type, and the same
/// elements.
pub proof fn law_copied_type_is_the_same(t: DbObjectType, c: DbObjectType, i: int)
    requires
        t.same_definition(c),
    ensures
        c.identity.fqn() == t.identity.fqn(),
        c.attrs@.len() == t.attrs@.len(),
        0 <= i < t.attrs@.len() ==> {
            &&& c.attrs@[i].name@ == t.attrs@[i].name@
            &&& c.attrs@[i].dbtype_name@ == t.attrs@[i].dbtype_name@
            &&& c.attrs@[i].max_size == t.attrs@[i].max_size
            &&& c.attrs@[i].precision == t.attrs@[i].precision
            &&& c.attrs@[i].scale == t.attrs@[i].scale
            &&& c.attrs@[i].objtype is Some <==> t.attrs@[i].objtype is Some
        },
        c.is_collection == t.is_collection && c.is_assoc_array == t.is_assoc_array,
        c.max_num_elements == t.max_num_elements && c.version == t.version,
        c.oid is Some <==> t.oid is Some,
        c.oid is Some ==> c.oid->0@ == t.oid->0@,
        c.element_metadata is Some <==> t.element_metadata is Some,
{
    reveal_with_fuel(DbObjectType::same_definition, 2);
    reveal_with_fuel(DbObjectAttr::same_definition, 2);
    if 0 <= i < t.attrs@.len() {
        assert(t.attrs@[i].same_definition(c.attrs@[i]));
    }
}

/// A described type has what the catalogue says of it and no identifier; it is a collection exactly
/// where its code says so, in any case.
pub proof fn law_described_type_has_what_was_said(
    identity: TypeIdentity,
    typecode: Seq<char>,
    attrs: Vec<DbObjectAttr>,
    element: Option<Box<DbObjectAttr>>,
    max_num_elements: u32,
    is_assoc_array: bool,
)
    ensures
        ({
            let t = DbObjectType::described(
                identity,
                typecode,
                attrs,
                element,
                max_num_elements,
                is_assoc_array,
            );
            &&& t.identity == identity && t.attrs == attrs && t.element_metadata == element
            &&& t.max_num_elements == max_num_elements && t.is_assoc_array == is_assoc_array
            &&& t.oid is None && t.version == 0
            &&& typecode == "COLLECTION"@ ==> t.is_collection
            &&& typecode == "OBJECT"@ ==> !t.is_collection
        }),
{
    reveal_strlit("COLLECTION");
    reveal_strlit("OBJECT");
    assert(upper("OBJECT"@).len() != upper("COLLECTION"@).len());
    lemma_same_ignoring_case_upper(typecode, "COLLECTION"@);
}

/// A bind for an object names its type, and is there exactly where the type has an identifier. One
/// that receives asks for a version of at least one; one that sends carries the image, with room for
/// all of it.
pub proof fn law_object_binds_name_their_type(
    t: DbObjectType,
    received: Option<BindValue>,
    sent: Option<BindValue>,
    image: Vec<u8>,
)
    requires
        t.received_by(received),
        t.sent_by(sent, image),
    ensures
        received is Some <==> t.oid is Some,
        sent is Some <==> t.oid is Some,
        received matches Some(b) ==> (
        b matches BindValue::ObjectOutput { schema, object_name, oid, version } && {
            &&& schema@ == t.identity.schema@ && object_name@ == t.identity.name@
            &&& oid@ == t.oid->0@
            &&& version >= 1 && (t.version > 0 ==> version == t.version)
        }),
        sent matches Some(b) ==> (
        b matches BindValue::ObjectInput {
            schema,
            object_name,
            oid,
            version,
            image: i,
            buffer_size,
        } && {
            &&& schema@ == t.identity.schema@ && object_name@ == t.identity.name@
            &&& oid@ == t.oid->0@ && version == t.version
            &&& i@ == image@
            &&& buffer_size >= 1 && (image@.len() <= u32::MAX ==> buffer_size >= image@.len())
            &&& 1 <= image@.len() <= u32::MAX ==> buffer_size == image@.len()
        }),
{
}

/// The search for a name finds the first attribute that has it, in any case, and nothing only where
/// none has it.
pub proof fn law_first_attribute_of_a_name(
    attrs: Seq<DbObjectAttr>,
    name: Seq<char>,
    from: int,
    j: int,
)
    requires
        0 <= from <= j < attrs.len(),
    ensures
        match first_named(attrs, name, from) {
            Some(i) => from <= i < attrs.len() && same_ignoring_case(attrs[i].name@, name) && (j < i
                ==> !same_ignoring_case(attrs[j].name@, name)),
            None => !same_ignoring_case(attrs[j].name@, name),
        },
    decreases attrs.len() - from,
{
    if from + 1 < attrs.len() && !same_ignoring_case(attrs[from].name@, name) {
        law_first_attribute_of_a_name(
            attrs,
            name,
            from + 1,
            if j > from {
                j
            } else {
                from + 1
            },
        );
    } else {
        reveal_with_fuel(first_named, 2);
    }
}

/// The search for characters finds the first attribute that holds them.
pub proof fn law_first_attribute_of_characters(attrs: Seq<DbObjectAttr>, from: int, j: int)
    requires
        0 <= from <= j < attrs.len(),
    ensures
        match first_character(attrs, from) {
            Some(i) => from <= i < attrs.len() && is_character_type(attrs[i].dbtype_name@) && (j < i
                ==> !is_character_type(attrs[j].dbtype_name@)),
            None => !is_character_type(attrs[j].dbtype_name@),
        },
    decreases attrs.len() - from,
{
    if from + 1 < attrs.len() && !is_character_type(attrs[from].dbtype_name@) {
        law_first_attribute_of_characters(
            attrs,
            from + 1,
            if j > from {
                j
            } else {
                from + 1
            },
        );
    } else {
        reveal_with_fuel(first_character, 2);
    }
}

/// An object is returned as the attribute that was asked for. Else an attribute named `STRINGVALUE`
/// goes before those that hold characters, and there is none only where the type has neither.
pub proof fn law_object_is_returned_as_an_attribute(
    t: DbObjectType,
    r: Option<String>,
    asked: Option<String>,
    j: int,
)
    requires
        t.returned_as(r, asked),
        0 <= j < t.attrs@.len(),
    ensures
        asked is Some ==> (r matches Some(s) && s@ == asked->0@),
        r is None ==> asked is None && !same_ignoring_case(t.attrs@[j].name@, "STRINGVALUE"@)
            && !is_character_type(t.attrs@[j].dbtype_name@),
        asked is None && same_ignoring_case(t.attrs@[j].name@, "STRINGVALUE"@) ==> (
        r matches Some(s) && same_ignoring_case(s@, "STRINGVALUE"@)),
{
    law_first_attribute_of_a_name(t.attrs@, "STRINGVALUE"@, 0, j);
    law_first_attribute_of_characters(t.attrs@, 0, j);
}

/// `None` is always stored. An attribute of an object type takes an object of exactly that type, one
/// of a number no text and no bytes; everything else is taken.
pub proof fn law_stored_value_has_the_type(a: DbObjectAttr, v: StoredFacets)
    ensures
        v.is_none ==> a.value_fault(v) is None,
        a.dbtype_name@ == "DB_TYPE_OBJECT"@ && a.objtype is Some && !v.is_none ==> (a.value_fault(v)
            is None <==> v.object is Some && v.object->0.schema@ == a.objtype->0.identity.schema@
            && option_text(v.object->0.package_name) == option_text(
            a.objtype->0.identity.package_name,
        ) && v.object->0.name@ == a.objtype->0.identity.name@),
        a.dbtype_name@ == "DB_TYPE_NUMBER"@ && !v.is_none ==> (a.value_fault(v) is None <==>
            !v.is_text_or_bytes),
        a.dbtype_name@ != "DB_TYPE_OBJECT"@ && a.dbtype_name@ != "DB_TYPE_NUMBER"@ ==> a.value_fault(
            v,
        ) is None,
        a.value_fault(v) matches Some(FaultView::UnsupportedPythonType {
            py_type_name,
            db_type_name,
        }) ==> py_type_name == v.py_type_name@ && db_type_name == a.dbtype_name@,
        a.value_fault(v) matches Some(FaultView::WrongObjectType {
            actual_name,
            expected_name,
            ..
        }) ==> actual_name == v.object->0.name@ && expected_name == a.objtype->0.identity.name@,
{
    reveal_strlit("DB_TYPE_OBJECT");
    reveal_strlit("DB_TYPE_NUMBER");
    assert("DB_TYPE_OBJECT"@[8] == 'O');
    assert("DB_TYPE_NUMBER"@[8] == 'N');
}

/// A value is too large exactly where the attribute has a size and the value has more bytes.
pub proof fn law_size_limits_bytes(a: DbObjectAttr, v: StoredFacets)
    ensures
        a.max_size == 0 || v.is_none || v.byte_size is None ==> !a.too_large(v),
        a.max_size > 0 && !v.is_none && v.byte_size is Some ==> (a.too_large(v) <==> v.byte_size->0
            > a.max_size),
{
}

/// Objects are read as objects, and every other value by the family of its type: characters, bytes,
/// numbers, dates, binary numbers and large objects, which keep their kind and form.
pub proof fn law_packed_values_are_read_by_type(a: DbObjectAttr, in_collection: bool)
    ensures
        a.dbtype_name@ == "DB_TYPE_OBJECT"@ && a.objtype is None ==> a.unpack_plan(in_collection)
            == UnpackPlan::Discard,
        a.dbtype_name@ == "DB_TYPE_OBJECT"@ && a.objtype is Some ==> (a.unpack_plan(
            in_collection,
        ) matches UnpackPlan::Nested { in_collection: c } && (c <==> in_collection
            || a.objtype->0.is_collection)),
        a.dbtype_name@ != "DB_TYPE_OBJECT"@ ==> a.unpack_plan(in_collection) is Scalar,
        a.dbtype_name@ == "DB_TYPE_VARCHAR"@ || a.dbtype_name@ == "DB_TYPE_NVARCHAR"@
            || a.dbtype_name@ == "DB_TYPE_CHAR"@ || a.dbtype_name@ == "DB_TYPE_NCHAR"@ <==>
            a.scalar_plan() == ScalarPlan::Text,
        a.dbtype_name@ == "DB_TYPE_RAW"@ <==> a.scalar_plan() == ScalarPlan::Bytes,
        a.dbtype_name@ == "DB_TYPE_XMLTYPE"@ <==> a.scalar_plan() == ScalarPlan::XmlType,
        a.dbtype_name@ == "DB_TYPE_NUMBER"@ && a.scale == -127 && a.precision > 0 <==>
            a.scalar_plan() == ScalarPlan::FloatNumber,
        a.dbtype_name@ == "DB_TYPE_NUMBER"@ && !(a.scale == -127 && a.precision > 0) <==>
            a.scalar_plan() == ScalarPlan::Number,
        a.dbtype_name@ == "DB_TYPE_DATE"@ || a.dbtype_name@ == "DB_TYPE_TIMESTAMP"@
            || a.dbtype_name@ == "DB_TYPE_TIMESTAMP_TZ"@ || a.dbtype_name@
            == "DB_TYPE_TIMESTAMP_LTZ"@ <==> a.scalar_plan() == ScalarPlan::DateTime,
        a.dbtype_name@ == "DB_TYPE_BINARY_FLOAT"@ <==> a.scalar_plan() == ScalarPlan::BinaryFloat,
        a.dbtype_name@ == "DB_TYPE_BINARY_DOUBLE"@ <==> a.scalar_plan()
            == ScalarPlan::BinaryDouble,
        a.dbtype_name@ == "DB_TYPE_BLOB"@ <==> (a.scalar_plan() matches ScalarPlan::Lob {
            ora_type,
            ..
        } && ora_type == OraType::Blob),
        a.dbtype_name@ == "DB_TYPE_NCLOB"@ <==> (a.scalar_plan() matches ScalarPlan::Lob {
            csfrm,
            ..
        } && csfrm == CsForm::Nchar),
        a.dbtype_name@ == "DB_TYPE_CLOB"@ <==> a.scalar_plan() == (ScalarPlan::Lob {
            ora_type: OraType::Clob,
            csfrm: CsForm::Implicit,
        }),
{
    reveal_strlit("DB_TYPE_VARCHAR");
    reveal_strlit("DB_TYPE_NVARCHAR");
    reveal_strlit("DB_TYPE_CHAR");
    reveal_strlit("DB_TYPE_NCHAR");
    reveal_strlit("DB_TYPE_RAW");
    reveal_strlit("DB_TYPE_XMLTYPE");
    reveal_strlit("DB_TYPE_NUMBER");
    reveal_strlit("DB_TYPE_DATE");
    reveal_strlit("DB_TYPE_TIMESTAMP");
    reveal_strlit("DB_TYPE_TIMESTAMP_TZ");
    reveal_strlit("DB_TYPE_TIMESTAMP_LTZ");
    reveal_strlit("DB_TYPE_BINARY_FLOAT");
    reveal_strlit("DB_TYPE_BINARY_DOUBLE");
    reveal_strlit("DB_TYPE_BLOB");
    reveal_strlit("DB_TYPE_CLOB");
    reveal_strlit("DB_TYPE_NCLOB");
    assert("DB_TYPE_VARCHAR"@[8] == 'V');
    assert("DB_TYPE_NVARCHAR"@[9] == 'V');
    assert("DB_TYPE_CHAR"@[8] == 'C' && "DB_TYPE_CHAR"@[9] == 'H');
    assert("DB_TYPE_NCHAR"@[8] == 'N' && "DB_TYPE_NCHAR"@[10] == 'H');
    assert("DB_TYPE_RAW"@[8] == 'R');
    assert("DB_TYPE_XMLTYPE"@[8] == 'X');
    assert("DB_TYPE_NUMBER"@[9] == 'U');
    assert("DB_TYPE_DATE"@[8] == 'D');
    assert("DB_TYPE_TIMESTAMP"@[8] == 'T');
    assert("DB_TYPE_TIMESTAMP_TZ"@[8] == 'T');
    assert("DB_TYPE_TIMESTAMP_LTZ"@[8] == 'T');
    assert("DB_TYPE_BINARY_FLOAT"@[8] == 'B' && "DB_TYPE_BINARY_FLOAT"@[15] == 'F');
    assert("DB_TYPE_BINARY_DOUBLE"@[8] == 'B' && "DB_TYPE_BINARY_DOUBLE"@[15] == 'D');
    assert("DB_TYPE_BLOB"@[8] == 'B' && "DB_TYPE_BLOB"@[9] == 'L');
    assert("DB_TYPE_BINARY_FLOAT"@[9] == 'I' && "DB_TYPE_BINARY_DOUBLE"@[9] == 'I');
    assert("DB_TYPE_CLOB"@[8] == 'C' && "DB_TYPE_CLOB"@[9] == 'L');
    assert("DB_TYPE_NCLOB"@[8] == 'N' && "DB_TYPE_NCLOB"@[10] == 'L');
}

/// A column that names a type has that type, in upper case, and nothing more is known of it; a column
/// that names none has none.
pub proof fn law_column_names_its_type(
    r: Option<DbObjectType>,
    name: Option<Seq<char>>,
    schema: Option<Seq<char>>,
)
    requires
        column_type(r, name, schema),
    ensures
        r is Some <==> name is Some,
        r matches Some(t) ==> {
            &&& t.identity.name@ == upper(name->0) && t.identity.package_name is None
            &&& schema matches Some(s) ==> t.identity.schema@ == upper(s)
            &&& schema is None ==> t.identity.schema@.len() == 0
            &&& t.oid is None && t.attrs@.len() == 0 && !t.is_collection && t.element_metadata
                is None
        },
{
}

/// An identifier and a version are added to a type and change nothing else of it.
pub proof fn law_type_takes_its_identifier(t: DbObjectType, oid: Option<Vec<u8>>, version: u32)
    ensures
        t.identified(oid, version).oid == oid && t.identified(oid, version).version == version,
        t.identified(oid, version).identified(t.oid, t.version) == t,
{
}

} // verus!
