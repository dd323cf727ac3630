use oracledb_pyshim::dbobject::{
    dbobject_collection_to_array_bind, DbObject, ObjectBindPlan, PackedShape,
};
use oracledb_pyshim::errors::{ErrorName, Fault};
use oracledb_pyshim::indexed::{IndexedValue, IndexedValues};
use oracledb_pyshim::lob::{
    lob_bytes, lob_text, FileName, FreeStep, Lob, LobBind, ReadStep, TrimStep, WriteStep,
    Written,
};
use oracledb_pyshim::objsql::{
    object_bind_sql_expr, object_inputs_source, prepare_object_execute_inputs,
    rewrite_object_bind_dict, BindSourceKind, NamedValue, ObjectChild, ObjectInputs, ObjectTree,
    ObjectValue,
};
use oracledb_pyshim::binds::{ContainerKind, Payload};
use oracledb_pyshim::objtype::{
    character_type, DbObjectAttr, DbObjectType, ScalarPlan, StoredFacets, TypeIdentity, UnpackPlan,
};
use oracledb_pyshim::value::{BindValue, CsForm, OraType, TypeInfo};

fn identity(package: Option<&str>) -> TypeIdentity {
    TypeIdentity {
        schema: "HR".to_string(),
        package_name: package.map(|p| p.to_string()),
        name: "T".to_string(),
    }
}

fn attr(name: &str, dbtype: &str) -> DbObjectAttr {
    DbObjectAttr {
        name: name.to_string(),
        dbtype_name: dbtype.to_string(),
        objtype: None,
        max_size: 0,
        precision: 0,
        scale: 0,
    }
}

fn object_type() -> DbObjectType {
    DbObjectType::new(
        identity(None),
        "OBJECT",
        vec![attr("NUM", "DB_TYPE_NUMBER"), attr("TXT", "DB_TYPE_VARCHAR")],
        None,
        0,
        false,
    )
}

fn collection_type(limit: u32, assoc: bool) -> DbObjectType {
    DbObjectType::new(
        identity(Some("PKG")),
        "COLLECTION",
        vec![],
        Some(Box::new(attr("", "DB_TYPE_NUMBER"))),
        limit,
        assoc,
    )
}

fn stored() -> StoredFacets {
    StoredFacets {
        is_none: false,
        object: None,
        is_text_or_bytes: false,
        byte_size: None,
        py_type_name: "int".to_string(),
    }
}

#[test]
fn types_have_qualified_names() {
    assert_eq!(identity(None).get_fqn(), "HR.T");
    assert_eq!(identity(Some("P")).get_fqn(), "HR.P.T");
    assert!(identity(Some("P")).same_type(&identity(Some("P"))));
    assert!(!identity(Some("P")).same_type(&identity(None)));
    assert!(character_type("DB_TYPE_NCHAR") && !character_type("DB_TYPE_RAW"));
}

#[test]
fn types_of_columns() {
    let t = DbObjectType::from_column_metadata(Some("t_x"), Some("hr")).unwrap();
    assert_eq!((t.identity.schema.as_str(), t.identity.name.as_str()), ("HR", "T_X"));
    assert!(t.oid.is_none() && !t.is_collection);
    assert!(DbObjectType::from_column_metadata(None, Some("hr")).is_none());
}

#[test]
fn objects_are_bound_by_their_type() {
    assert!(object_type().object_output_bind().is_none());
    assert!(object_type().object_input_bind(vec![1]).is_none());
    let t = object_type().with_type_identity(Some(vec![7, 8]), 0);
    match t.object_output_bind() {
        Some(BindValue::ObjectOutput { schema, object_name, oid, version }) => {
            assert_eq!((schema.as_str(), object_name.as_str()), ("HR", "T"));
            assert_eq!((oid, version), (vec![7, 8], 1));
        }
        _ => panic!("output"),
    }
    match t.object_input_bind(vec![]) {
        Some(BindValue::ObjectInput { version, buffer_size, .. }) => {
            assert_eq!((version, buffer_size), (0, 1));
        }
        _ => panic!("input"),
    }
}

#[test]
fn the_scalar_attribute_of_a_returned_object() {
    assert_eq!(object_type().default_scalar_return_attr(), Some(1));
    assert_eq!(object_type().object_return_projection(None).as_deref(), Some("TXT"));
    assert_eq!(
        object_type().object_return_projection(Some("NUM".to_string())).as_deref(),
        Some("NUM")
    );
    let mut t = object_type();
    t.attrs.push(attr("StringValue", "DB_TYPE_NUMBER"));
    assert_eq!(t.default_scalar_return_attr(), Some(2));
    t.attrs.clear();
    assert_eq!(t.object_return_projection(None), None);
}

#[test]
fn values_are_checked_against_the_attribute() {
    let number = attr("N", "DB_TYPE_NUMBER");
    assert!(number.validated_dbobject_value(&stored()).is_none());
    let text = StoredFacets { is_text_or_bytes: true, py_type_name: "str".to_string(), ..stored() };
    match number.validated_dbobject_value(&text) {
        Some(Fault::UnsupportedPythonType { py_type_name, db_type_name }) => {
            assert_eq!((py_type_name.as_str(), db_type_name.as_str()), ("str", "DB_TYPE_NUMBER"));
        }
        other => panic!("{:?}", other),
    }
    let mut nested = attr("O", "DB_TYPE_OBJECT");
    nested.objtype = Some(object_type());
    assert!(matches!(
        nested.validated_dbobject_value(&stored()),
        Some(Fault::UnsupportedPythonType { .. })
    ));
    let right = StoredFacets { object: Some(identity(None)), ..stored() };
    assert!(nested.validated_dbobject_value(&right).is_none());
    let wrong = StoredFacets { object: Some(identity(Some("P"))), ..stored() };
    assert!(matches!(
        nested.validated_dbobject_value(&wrong),
        Some(Fault::WrongObjectType { .. })
    ));
    let mut small = attr("S", "DB_TYPE_VARCHAR");
    small.max_size = 3;
    assert_eq!(small.is_too_large(&StoredFacets { byte_size: Some(4), ..stored() }), Some(4));
    assert_eq!(small.is_too_large(&StoredFacets { byte_size: Some(3), ..stored() }), None);
}

#[test]
fn packed_values_are_decoded_by_type() {
    let plan = |t: &str| attr("A", t).dbobject_unpack_value(false);
    assert_eq!(plan("DB_TYPE_CHAR"), UnpackPlan::Scalar(ScalarPlan::Text));
    assert_eq!(plan("DB_TYPE_RAW"), UnpackPlan::Scalar(ScalarPlan::Bytes));
    assert_eq!(plan("DB_TYPE_NUMBER"), UnpackPlan::Scalar(ScalarPlan::Number));
    assert_eq!(plan("DB_TYPE_TIMESTAMP_LTZ"), UnpackPlan::Scalar(ScalarPlan::DateTime));
    assert_eq!(plan("DB_TYPE_OBJECT"), UnpackPlan::Discard);
    let mut float = attr("A", "DB_TYPE_NUMBER");
    float.scale = -127;
    float.precision = 126;
    assert_eq!(float.dbobject_unpack_value(false), UnpackPlan::Scalar(ScalarPlan::FloatNumber));
    let mut nested = attr("A", "DB_TYPE_OBJECT");
    nested.objtype = Some(object_type());
    assert_eq!(nested.dbobject_unpack_value(false), UnpackPlan::Nested { in_collection: false });
    assert_eq!(nested.dbobject_unpack_value(true), UnpackPlan::Nested { in_collection: true });
}

#[test]
fn attributes_are_found_without_regard_to_case() {
    let mut o = DbObject::new(object_type(), 0);
    assert_eq!(o.attr_value("num"), Some(0));
    o.set_attr_by_name("Num", 5);
    assert_eq!(o.attr_value("nUM"), Some(5));
    assert_eq!(o.attr_value("TXT"), Some(0));
    assert_eq!(o.attr_value("missing"), None);
    let a = attr("TXT", "DB_TYPE_VARCHAR");
    assert!(o.set_attr_value(&a, &stored(), 9).is_ok());
    assert_eq!(o.attr_value("txt"), Some(9));
    let mut small = attr("TXT", "DB_TYPE_VARCHAR");
    small.max_size = 1;
    let large = StoredFacets { byte_size: Some(2), ..stored() };
    match o.set_attr_value(&small, &large, 10) {
        Err(Fault::AttrMaxSize { attr_name, type_label, actual_size, max_size }) => {
            assert_eq!((attr_name.as_str(), type_label.as_str()), ("TXT", "HR.T"));
            assert_eq!((actual_size, max_size), (2, 1));
        }
        _ => panic!("size"),
    }
    assert_eq!(o.attr_value("txt"), Some(9));
    assert_eq!(DbObject::with_attr(object_type(), 0, "num", 3).attr_value("NUM"), Some(3));
    assert_eq!(o.copy(object_type()).attr_value("num"), Some(5));
}

#[test]
fn collections_grow_and_shrink() {
    let mut o = DbObject::new(collection_type(3, false), 0);
    assert_eq!((o.get_first_index(), o.get_last_index(), o.get_size()), (None, None, 0));
    for h in [10, 11, 12] {
        assert!(o.append(&stored(), h).is_ok());
    }
    assert!(matches!(
        o.append(&stored(), 13),
        Err(Fault::InvalidCollIndexSet { index: 3, min_index: 0, max_index: 2 })
    ));
    assert_eq!((o.get_first_index(), o.get_last_index(), o.get_size()), (Some(0), Some(2), 3));
    assert_eq!(o.get_element_by_index(1).unwrap(), 11);
    assert!(o.set_element_by_index(1, &stored(), 21).is_ok());
    assert_eq!(o.get_element_by_index(1).unwrap(), 21);
    assert_eq!(o.get_element_by_index(0).unwrap(), 10);
    assert!(matches!(
        o.set_element_by_index(3, &stored(), 1),
        Err(Fault::InvalidCollIndexSet { index: 3, min_index: 0, max_index: 2 })
    ));
    assert!(matches!(
        o.get_element_by_index(-1),
        Err(Fault::InvalidCollIndexGet { index: -1 })
    ));
    assert_eq!((o.get_next_index(0), o.get_next_index(2)), (Some(1), None));
    assert_eq!((o.get_prev_index(1), o.get_prev_index(0)), (Some(0), None));
    assert!(o.delete_by_index(0).is_ok());
    assert_eq!(o.get_element_by_index(0).unwrap(), 21);
    assert!(matches!(
        o.delete_by_index(2),
        Err(Fault::InvalidCollIndexGet { index: 2 })
    ));
    o.trim(1);
    assert_eq!(o.get_size(), 1);
    o.trim(-3);
    assert_eq!(o.get_size(), 1);
    o.trim(9);
    assert_eq!(o.get_size(), 0);
}

#[test]
fn only_collections_have_elements() {
    let mut o = DbObject::new(object_type(), 0);
    assert!(matches!(
        o.append(&stored(), 1),
        Err(Fault::Named(ErrorName::ObjectIsNotACollection))
    ));
}

#[test]
fn associative_arrays_keep_gaps() {
    let mut o = DbObject::new(collection_type(1, true), 0);
    assert_eq!(o.next_collection_append_index(), 0);
    assert!(o.set_element_by_index(5, &stored(), 50).is_ok());
    assert!(o.set_element_by_index_checked(-2, 20).is_ok());
    assert_eq!(o.next_collection_append_index(), 6);
    assert!(o.append_collection_value(60).is_ok());
    assert_eq!(o.get_element_by_index(6).unwrap(), 60);
    assert!(o.exists_by_index(5) && !o.exists_by_index(0));
    assert_eq!((o.get_first_index(), o.get_last_index()), (Some(-2), Some(6)));
    assert_eq!(o.get_next_index(-2), Some(5));
    assert_eq!(o.get_prev_index(5), Some(-2));
    assert_eq!(o.scalar_elements(), Some(vec![20, 50, 60]));
    assert!(o.delete_by_index(5).is_ok());
    assert_eq!(o.get_size(), 2);
}

#[test]
fn packed_objects_are_read_once() {
    let mut o = DbObject::with_packed_data(object_type(), vec![1]);
    assert!(matches!(o.unpack_shape(), Ok(PackedShape::Attributes)));
    o.adopt_attributes(&vec![4, 5]);
    assert!(o.packed.is_none());
    assert_eq!((o.attr_value("num"), o.attr_value("txt")), (Some(4), Some(5)));
    let mut c = DbObject::with_packed_data(collection_type(0, false), vec![1]);
    assert!(matches!(c.unpack_shape(), Ok(PackedShape::Elements)));
    c.adopt_elements(vec![1, 2]);
    assert_eq!(c.get_size(), 2);
    let mut a = DbObject::with_packed_data(collection_type(0, true), vec![1]);
    assert!(matches!(a.unpack_shape(), Ok(PackedShape::IndexedElements)));
    a.adopt_indexed(&vec![
        IndexedValue { index: 3, handle: 30 },
        IndexedValue { index: 1, handle: 10 },
        IndexedValue { index: 3, handle: 31 },
    ]);
    assert_eq!(a.scalar_elements(), Some(vec![10, 31]));
    let mut broken = collection_type(0, false);
    broken.element_metadata = None;
    assert!(matches!(
        DbObject::with_packed_data(broken, vec![]).unpack_shape(),
        Err(Fault::Runtime(_))
    ));
}

#[test]
fn packed_elements_are_not_counted() {
    let mut limited = collection_type(0, false);
    limited.element_metadata = Some(Box::new(DbObjectAttr {
        max_size: 3,
        ..attr("", "DB_TYPE_VARCHAR")
    }));
    let mut packed = DbObject::with_packed_data(limited, vec![1]);
    let large = StoredFacets { is_text_or_bytes: true, byte_size: Some(4), ..stored() };
    match packed.check_append(&large) {
        Some(Fault::ElementMaxSize { index, actual_size, max_size, .. }) => {
            assert_eq!((index, actual_size, max_size), (0, 4, 3));
        }
        other => panic!("{:?}", other),
    }
    packed.adopt_elements(vec![1, 2]);
    match packed.append(&large, 9) {
        Err(Fault::ElementMaxSize { index, .. }) => assert_eq!(index, 2),
        other => panic!("{:?}", other),
    }
}

#[test]
fn objects_choose_how_they_are_bound() {
    let native = object_type().with_type_identity(Some(vec![1]), 1);
    assert!(matches!(
        DbObject::new(native, 0).dbobject_to_bind(),
        Ok(ObjectBindPlan::Native)
    ));
    assert!(matches!(
        DbObject::new(collection_type(0, false), 0).dbobject_to_bind(),
        Ok(ObjectBindPlan::ScalarArray)
    ));
    assert!(matches!(
        DbObject::new(object_type(), 0).dbobject_to_bind(),
        Err(Fault::PythonValueNotSupported { type_label }) if type_label == "DbObject"
    ));
    let info = TypeInfo { ora_type: OraType::Number, csfrm: CsForm::Unset, buffer_size: 22 };
    assert!(matches!(
        dbobject_collection_to_array_bind(vec![None], &vec![None], info),
        BindValue::Array { info: i, max_elements: 1, .. } if i == info
    ));
}

#[test]
fn values_by_index() {
    let mut v = IndexedValues::new();
    assert_eq!(v.last(), None);
    v.insert(4, 40);
    v.insert(1, 10);
    v.insert(4, 41);
    assert_eq!((v.len(), v.get(4), v.get(2)), (2, Some(41), None));
    assert_eq!((v.first_from(2), v.last_below(4), v.last()), (Some(4), Some(1), Some(4)));
    let next = v.first_from(2).unwrap();
    assert_eq!(v.last_below(next), Some(1));
    assert!(v.remove(1) && !v.remove(1));
    assert_eq!(v.first_from(5), None);
}

fn scalar(handle: usize) -> ObjectValue {
    ObjectValue::Scalar { handle, is_text: true }
}

fn child(name: &str, is_blob: bool, value: ObjectValue) -> ObjectChild {
    ObjectChild { bind_name: name.to_string(), is_blob, value }
}

fn tree(children: Vec<ObjectChild>) -> ObjectTree {
    ObjectTree {
        handle: 1,
        fqn: "HR.T".to_string(),
        is_collection: false,
        is_assoc_array: false,
        in_package: false,
        children,
    }
}

#[test]
fn objects_are_written_as_constructors() {
    let inner = ObjectTree { is_collection: true, fqn: "HR.L".to_string(), ..tree(vec![child("o_2_0", true, scalar(9))]) };
    let value = ObjectValue::Object(tree(vec![
        child("o_0", false, ObjectValue::Null),
        child("o_1", true, scalar(8)),
        child("o_2", false, ObjectValue::Object(inner)),
        child(
            "o_3",
            false,
            ObjectValue::NullVar { handle: 3, fqn: "HR.X".to_string(), is_collection: false },
        ),
    ]));
    let mut added = vec![];
    assert_eq!(
        object_bind_sql_expr(&value, false, &mut added).as_deref(),
        Some("HR.T(null, utl_raw.cast_to_raw(:o_1), HR.L(:o_2_0), cast(null as HR.X))")
    );
    let names: Vec<(String, usize)> = added.into_iter().map(|b| (b.name, b.handle)).collect();
    assert_eq!(names, vec![("o_1".to_string(), 8), ("o_2_0".to_string(), 9)]);
    let mut none = vec![];
    assert_eq!(object_bind_sql_expr(&scalar(1), true, &mut none), None);
    let packaged = ObjectTree { is_collection: true, in_package: true, ..tree(vec![]) };
    assert_eq!(object_bind_sql_expr(&ObjectValue::Object(packaged), true, &mut none), None);
    assert!(none.is_empty());
}

#[test]
fn parameters_that_are_objects_make_way() {
    let entries = vec![
        NamedValue { key: "a".to_string(), handle: 5, value: scalar(5), is_return: false },
        NamedValue {
            key: "o".to_string(),
            handle: 6,
            value: ObjectValue::Object(tree(vec![child("o_0", false, scalar(7))])),
            is_return: false,
        },
    ];
    let r = rewrite_object_bind_dict(&entries);
    assert_eq!(r.replacements.len(), 1);
    assert_eq!((r.replacements[0].key.as_str(), r.replacements[0].expr.as_str()), ("o", "HR.T(:o_0)"));
    let dict: Vec<(String, usize)> = r.dict.iter().map(|b| (b.name.clone(), b.handle)).collect();
    assert_eq!(dict, vec![("a".to_string(), 5), ("o_0".to_string(), 7)]);
    assert!(matches!(
        prepare_object_execute_inputs(BindSourceKind::Parameters, r, false),
        ObjectInputs::Changed { source: BindSourceKind::Parameters, .. }
    ));
    let plain = rewrite_object_bind_dict(&vec![NamedValue {
        key: "a".to_string(),
        handle: 5,
        value: scalar(5),
        is_return: false,
    }]);
    assert!(plain.replacements.is_empty());
    assert_eq!(plain.dict.len(), 1);
    assert!(matches!(
        prepare_object_execute_inputs(BindSourceKind::Keywords, plain, false),
        ObjectInputs::Unchanged
    ));
}

#[test]
fn the_source_of_object_parameters() {
    let p = |kind, n| Some(Payload { is_none: false, kind, len: n, items: n });
    let dict = p(ContainerKind::Dict, 1);
    let list = p(ContainerKind::List, 2);
    assert!(matches!(object_inputs_source(None, None, 0), Ok(None)));
    assert!(matches!(object_inputs_source(dict, dict, 1), Ok(None)));
    assert!(matches!(
        object_inputs_source(None, dict, 1),
        Ok(Some(BindSourceKind::Keywords))
    ));
    assert!(matches!(
        object_inputs_source(list, None, 2),
        Ok(Some(BindSourceKind::Parameters))
    ));
    assert!(matches!(object_inputs_source(list, None, 3), Ok(None)));
    assert!(matches!(
        object_inputs_source(p(ContainerKind::Text, 2), None, 2),
        Err(Fault::Named(ErrorName::WrongExecuteParametersType))
    ));
}

fn memory_lob(data: &[u8]) -> Lob {
    Lob {
        data: Some(data.to_vec()),
        locator: None,
        ora_type: OraType::Blob,
        csfrm: CsForm::Unset,
        size: data.len() as u64,
        chunk_size: 8,
        has_context: false,
        is_open: false,
        bfile_name: None,
    }
}

#[test]
fn windows_of_lobs() {
    let data = vec![1, 2, 3, 4];
    assert_eq!(lob_bytes(&data, 1, None), data);
    assert_eq!(lob_bytes(&data, 0, Some(2)), vec![1, 2]);
    assert_eq!(lob_bytes(&data, 3, Some(9)), vec![3, 4]);
    assert!(lob_bytes(&data, 5, None).is_empty());
    assert_eq!(lob_text("a\u{e9}bc", 2, Some(2)), "\u{e9}b");
    let mut joined = lob_bytes(&data, 1, Some(3));
    joined.extend(lob_bytes(&data, 4, None));
    assert_eq!(joined, data);
}

#[test]
fn a_read_gives_back_a_write() {
    let mut l = memory_lob(&[1, 2, 3]);
    l.write_memory(5, &vec![8, 9]);
    assert_eq!(l.data.as_ref().unwrap(), &vec![1, 2, 3, 0, 8, 9]);
    assert_eq!(l.size, 6);
    assert_eq!(lob_bytes(l.data.as_ref().unwrap(), 5, Some(2)), vec![8, 9]);
    l.write_memory(2, &vec![7]);
    assert_eq!(l.data.as_ref().unwrap(), &vec![1, 7, 3, 0, 8, 9]);
    assert!(matches!(l.trim(2), TrimStep::Done));
    assert_eq!(l.data.as_ref().unwrap(), &vec![1, 7]);
    assert!(matches!(l.read(1, None), Ok(ReadStep::Memory)));
    assert!(matches!(l.write(), Ok(WriteStep::Memory)));
}

#[test]
fn lobs_of_a_connection() {
    let mut l = Lob {
        data: None,
        locator: Some(vec![4, 2]),
        ora_type: OraType::Clob,
        csfrm: CsForm::Nchar,
        has_context: true,
        ..memory_lob(&[])
    };
    assert!(matches!(
        l.read(3, None),
        Ok(ReadStep::Fetch { locator, offset: 3, amount: 4294967295 }) if locator == vec![4, 2]
    ));
    assert!(matches!(l.write(), Ok(WriteStep::Send { locator }) if locator == vec![4, 2]));
    let text = Written::Text("a\u{e9}bcd".to_string());
    assert_eq!(text.units(), 5);
    l.finish_write_sent(3, &text, vec![6]);
    assert_eq!((l.size, l.locator.clone()), (7, Some(vec![6])));
    let bytes = Written::Bytes("a\u{e9}bcd".as_bytes().to_vec());
    assert_eq!(bytes.units(), 6);
    l.finish_write_sent(0, &bytes, vec![6]);
    assert_eq!(l.size, 7);
    assert!(matches!(l.trim(2), TrimStep::Send { .. }));
    l.finish_trim_sent(2, vec![7]);
    assert_eq!(l.size, 2);
    assert_eq!(l.dbtype(), "DB_TYPE_NCLOB");
    assert!(!l.holds_bytes());
    assert!(matches!(l.free_lob(true, true), FreeStep::Free { .. }));
    l.finish_free();
    assert!(l.locator.is_none());
    l.set_locator(vec![1]);
    assert!(matches!(l.free_lob(true, false), FreeStep::Done));
    assert!(l.locator.is_none());
    assert_eq!(l.get_max_amount(), 4294967295);
}

#[test]
fn text_lobs_in_memory_are_recoded() {
    let mut l = Lob { ora_type: OraType::Clob, ..memory_lob(b"abc") };
    assert!(matches!(l.trim(1), TrimStep::Recode));
    l.finish_trim_recoded(1, b"a".to_vec());
    assert_eq!((l.data.clone(), l.size), (Some(b"a".to_vec()), 1));
    l.write_memory(2, &b"xyz".to_vec());
    assert_eq!(l.size, 1);
    l.set_text_size("a\u{e9}yz");
    assert_eq!(l.size, 4);
}

#[test]
fn lobs_are_opened_and_closed() {
    let mut l = memory_lob(&[]);
    assert!(matches!(l.close(), Err(Fault::Database(e)) if e.code == Some(22289)));
    assert!(l.open().is_ok());
    assert!(matches!(l.open(), Err(Fault::Database(e)) if e.code == Some(22293)));
    assert!(l.close().is_ok());
    let empty = Lob { data: None, ..memory_lob(&[]) };
    assert!(matches!(empty.read(1, None), Ok(ReadStep::Empty)));
    assert!(matches!(empty.write(), Err(Fault::NotImplemented(_))));
}

#[test]
fn files_outside_the_database() {
    let mut l = Lob { ora_type: OraType::Bfile, ..memory_lob(&[]) };
    assert!(matches!(l.read(1, None), Err(Fault::Database(e)) if e.code == Some(22285)));
    assert_eq!(l.get_file_name().name, "");
    l.set_file_name("DIR".to_string(), "f.txt".to_string());
    let f = l.get_file_name();
    assert_eq!((f.dir_alias.as_str(), f.name.as_str()), ("DIR", "f.txt"));
    assert!(matches!(l.file_exists(), Fault::Database(e) if e.code == Some(22285)));
    assert_eq!(l.dbtype(), "DB_TYPE_BFILE");
}

#[test]
fn lobs_are_bound_by_locator_or_contents() {
    let mut lob = memory_lob(&[1]);
    assert!(matches!(lob.lob_value_to_bind(), LobBind::Bytes));
    lob.ora_type = OraType::Clob;
    assert!(matches!(lob.lob_value_to_bind(), LobBind::Text));
    lob.locator = Some(vec![7, 8]);
    lob.csfrm = CsForm::Nchar;
    match lob.lob_value_to_bind() {
        LobBind::Ready(BindValue::Lob { ora_type, csfrm, locator }) => {
            assert_eq!((ora_type, csfrm), (OraType::Clob, CsForm::Nchar));
            assert_eq!(locator, vec![7, 8]);
        }
        _ => panic!("a locator is bound"),
    }
}

#[test]
fn duplicated_types_are_the_same() {
    let mut outer = collection_type(3, false);
    outer.attrs.push(attr("A", "DB_TYPE_NUMBER"));
    let mut nested = attr("B", "DB_TYPE_OBJECT");
    nested.objtype = Some(object_type());
    outer.attrs.push(nested);
    let copy = outer.duplicate();
    assert!(copy.identity.same_type(&outer.identity));
    assert_eq!(copy.oid, outer.oid);
    assert_eq!(copy.version, outer.version);
    assert!(copy.is_collection);
    assert_eq!(copy.max_num_elements, 3);
    assert_eq!(copy.attrs.len(), outer.attrs.len());
    let last = copy.attrs.last().expect("an attribute");
    assert_eq!(last.name, "B");
    let inner = last.objtype.as_ref().expect("a nested type");
    assert_eq!(inner.attrs.len(), object_type().attrs.len());
    let element = copy.element_metadata.expect("an element");
    assert_eq!(element.dbtype_name, collection_type(3, false).element_metadata.expect("an element").dbtype_name);
}

#[test]
fn lobs_are_made_in_memory_or_at_the_server() {
    let local = Lob::in_memory(OraType::Blob, CsForm::Unset, vec![1, 2, 3], 3);
    assert_eq!(local.data, Some(vec![1, 2, 3]));
    assert_eq!(local.size, 3);
    assert!(local.locator.is_none() && !local.has_context && !local.is_open);
    let name = FileName { dir_alias: "DIR".to_string(), name: "f.txt".to_string() };
    let remote = Lob::at_server(OraType::Bfile, CsForm::Unset, vec![7], 10, 4, Some(name), true);
    assert!(remote.data.is_none());
    assert_eq!(remote.locator, Some(vec![7]));
    assert_eq!((remote.size, remote.chunk_size, remote.has_context), (10, 4, true));
    assert_eq!(remote.get_file_name().name, "f.txt");
}
