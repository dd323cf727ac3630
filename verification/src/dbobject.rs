//! Objects and collections: their attributes and elements.
//!
//! The values themselves stay in Python; an object knows them by handle.
use vstd::prelude::*;

use crate::errors::{ErrorName, Fault};
#[allow(unused_imports)]
use crate::errors::FaultView;
use crate::indexed::{IndexedValue, IndexedValues};
#[allow(unused_imports)]
use crate::indexed::{greatest, greatest_below, least_from, lemma_by_index};
use crate::objtype::{DbObjectAttr, DbObjectType, StoredFacets};
use crate::pyvalue::array_bind;
#[allow(unused_imports)]
use crate::pyvalue::{clamp_count, first_info};
use crate::text::{owned, same_text, to_upper};
#[allow(unused_imports)]
use crate::text::{lemma_same_ignoring_case_upper, same_ignoring_case, upper};
use crate::textmap::TextMap;
use crate::value::{BindValue, TypeInfo};

verus! {

pub struct DbObject {
    pub object_type: DbObjectType,
    pub attrs: TextMap<usize>,
    /// The elements of a collection that is not an associative array.
    pub elements: Vec<usize>,
    /// The elements of an associative array.
    pub indexed: IndexedValues,
    /// What was fetched and not yet read.
    pub packed: Option<Vec<u8>>,
}

pub ghost struct ObjectModel {
    pub attrs: Map<Seq<char>, usize>,
    pub elements: Seq<usize>,
    pub indexed: Map<i32, usize>,
    pub packed: Option<Seq<u8>>,
}

impl View for DbObject {
    type V = ObjectModel;

    open spec fn view(&self) -> ObjectModel {
        ObjectModel {
            attrs: self.attrs@,
            elements: self.elements@,
            indexed: self.indexed@,
            packed: match self.packed {
                Some(p) => Some(p@),
                None => None,
            },
        }
    }
}

impl ObjectModel {
    /// An object that is still packed.
    pub open spec fn fetched(packed: Seq<u8>) -> ObjectModel {
        ObjectModel {
            attrs: Map::empty(),
            elements: Seq::empty(),
            indexed: Map::empty(),
            packed: Some(packed),
        }
    }

    pub open spec fn with_attribute(self, name: Seq<char>, handle: usize) -> ObjectModel {
        ObjectModel { attrs: self.attrs.insert(upper(name), handle), ..self }
    }

    pub open spec fn attribute(self, name: Seq<char>) -> Option<usize> {
        if self.attrs.dom().contains(upper(name)) {
            Some(self.attrs[upper(name)])
        } else {
            None
        }
    }

    /// The object when a number of elements was taken off its end.
    pub open spec fn shortened(self, n: i32) -> ObjectModel {
        ObjectModel {
            elements: if n <= 0 {
                self.elements
            } else if n >= self.elements.len() {
                Seq::empty()
            } else {
                self.elements.take(self.elements.len() - n)
            },
            ..self
        }
    }

    pub open spec fn with_attributes(self, attrs: Map<Seq<char>, usize>) -> ObjectModel {
        ObjectModel { attrs, packed: None, ..self }
    }

    pub open spec fn with_elements(self, elements: Seq<usize>) -> ObjectModel {
        ObjectModel { elements, packed: None, ..self }
    }

    pub open spec fn with_indexed(self, indexed: Map<i32, usize>) -> ObjectModel {
        ObjectModel { indexed, packed: None, ..self }
    }
}

/// The attributes' values by name, in the order of the attributes.
pub open spec fn attrs_map(attrs: Seq<DbObjectAttr>, values: Seq<usize>, n: int) -> Map<
    Seq<char>,
    usize,
>
    decreases n,
{
    if n <= 0 {
        Map::empty()
    } else {
        attrs_map(attrs, values, n - 1).insert(attrs[n - 1].name@, values[n - 1])
    }
}

/// The elements by index after they were stored one after the other.
pub open spec fn stored_by_index(values: Seq<IndexedValue>) -> Map<i32, usize>
    decreases values.len(),
{
    if values.len() == 0 {
        Map::empty()
    } else {
        stored_by_index(values.drop_last()).insert(values.last().index, values.last().handle)
    }
}

pub open spec fn clamp_index(n: int) -> i32 {
    if n > i32::MAX {
        i32::MAX
    } else {
        n as i32
    }
}

pub fn index_of_count(n: usize) -> (r: i32)
    ensures
        r == clamp_index(n as int),
{
    if n as u64 > 0x7fff_ffff {
        i32::MAX
    } else {
        n as i32
    }
}

/// What the packed form of an object holds.
#[derive(Clone, Copy, PartialEq, Eq, Structural, Debug)]
pub enum PackedShape {
    /// A value for each attribute.
    Attributes,
    /// Flags, a count, and as many elements.
    Elements,
    /// Flags, a count, and as many elements with an index in front of each.
    IndexedElements,
}

/// What follows the last index.
pub open spec fn index_after(last: Option<i32>) -> i32 {
    match last {
        None => 0,
        Some(k) => if k == i32::MAX {
            i32::MAX
        } else {
            (k + 1) as i32
        },
    }
}

/// The greatest index, if there is any.
pub open spec fn last_of(m: Map<i32, usize>) -> Option<i32> {
    if exists|k: i32| greatest(m, k) {
        Some(choose|k: i32| greatest(m, k))
    } else {
        None
    }
}

proof fn lemma_last_of(m: Map<i32, usize>, k: i32)
    requires
        greatest(m, k),
    ensures
        last_of(m) == Some(k),
{
    let c = choose|c: i32| greatest(m, c);
    assert(greatest(m, c));
    assert(m.dom().contains(c) && m.dom().contains(k));
}

impl DbObject {
    pub open spec fn wf(self) -> bool {
        self.attrs.wf() && self.indexed.wf()
    }

    /// Nothing is left to be read.
    pub open spec fn unpacked(self) -> bool {
        self.packed is None
    }

    /// A new object: its attributes all hold the handle of `None`.
    pub fn new(object_type: DbObjectType, none: usize) -> (r: Self)
        ensures
            r.wf(),
            r.object_type == object_type,
            r@.attrs == attrs_map(
                object_type.attrs@,
                Seq::new(object_type.attrs@.len(), |i: int| none),
                object_type.attrs@.len() as int,
            ),
            r@.elements == Seq::<usize>::empty(),
            r@.indexed == Map::<i32, usize>::empty(),
            r.unpacked(),
    {
        let mut attrs: TextMap<usize> = TextMap::new();
        let ghost values = Seq::new(object_type.attrs@.len(), |i: int| none);
        let mut i: usize = 0;
        while i < object_type.attrs.len()
            invariant
                i <= object_type.attrs@.len(),
                attrs.wf(),
                values == Seq::new(object_type.attrs@.len(), |j: int| none),
                attrs@ == attrs_map(object_type.attrs@, values, i as int),
            decreases object_type.attrs@.len() - i,
        {
            attrs.insert(object_type.attrs[i].name.clone(), none);
            i = i + 1;
        }
        DbObject {
            object_type,
            attrs,
            elements: Vec::new(),
            indexed: IndexedValues::new(),
            packed: None,
        }
    }

    /// An object that was fetched and is read when it is first looked at.
    pub fn with_packed_data(object_type: DbObjectType, packed: Vec<u8>) -> (r: Self)
        ensures
            r.wf(),
            r.object_type == object_type,
            r@ == ObjectModel::fetched(packed@),
    {
        DbObject {
            object_type,
            attrs: TextMap::new(),
            elements: Vec::new(),
            indexed: IndexedValues::new(),
            packed: Some(packed),
        }
    }

    /// Stores the value of an attribute, whose name is compared without case.
    pub fn set_attr_by_name(&mut self, attr_name: &str, handle: usize)
        requires
            old(self).wf(),
        ensures
            final(self).wf(),
            final(self).object_type == old(self).object_type,
            final(self)@ == old(self)@.with_attribute(attr_name@, handle),
    {
        self.attrs.insert(to_upper(attr_name), handle);
    }

    /// A new object with the value of one attribute.
    pub fn with_attr(
        object_type: DbObjectType,
        none: usize,
        attr_name: &str,
        handle: usize,
    ) -> (r: Self)
        ensures
            r.wf(),
            r.object_type == object_type,
            r.unpacked(),
            r@.attrs == attrs_map(
                object_type.attrs@,
                Seq::new(object_type.attrs@.len(), |i: int| none),
                object_type.attrs@.len() as int,
            ).insert(upper(attr_name@), handle),
            r@.elements == Seq::<usize>::empty(),
            r@.indexed == Map::<i32, usize>::empty(),
    {
        let mut r = DbObject::new(object_type, none);
        r.set_attr_by_name(attr_name, handle);
        r
    }

    /// The value of an attribute, whose name is compared without case.
    pub fn attr_value(&self, attr_name: &str) -> (r: Option<usize>)
        requires
            self.wf(),
            self.unpacked(),
        ensures
            r == self@.attribute(attr_name@),
    {
        let key = to_upper(attr_name);
        match self.attrs.get(key.as_str()) {
            Some(h) => Some(*h),
            None => None,
        }
    }

    /// Why a value cannot be stored in an attribute.
    pub open spec fn attr_fault(self, attr: DbObjectAttr, v: StoredFacets) -> Option<FaultView> {
        if attr.value_fault(v) is Some {
            attr.value_fault(v)
        } else if attr.too_large(v) {
            Some(
                FaultView::AttrMaxSize {
                    attr_name: attr.name@,
                    type_label: self.object_type.identity.fqn(),
                    actual_size: v.byte_size->0,
                    max_size: attr.max_size,
                },
            )
        } else {
            None
        }
    }

    pub open spec fn attribute_set(
        self,
        after: ObjectModel,
        r: Result<(), Fault>,
        attr: DbObjectAttr,
        v: StoredFacets,
        handle: usize,
    ) -> bool {
        match r {
            Ok(_) => self.attr_fault(attr, v) is None && after == self@.with_attribute(
                attr.name@,
                handle,
            ),
            Err(f) => self.attr_fault(attr, v) == Some(f@) && after == self@,
        }
    }

    /// Checks a value and stores it in an attribute.
    pub fn set_attr_value(&mut self, attr: &DbObjectAttr, v: &StoredFacets, handle: usize) -> (r:
        Result<(), Fault>)
        requires
            old(self).wf(),
        ensures
            final(self).wf(),
            final(self).object_type == old(self).object_type,
            old(self).attribute_set(final(self)@, r, *attr, *v, handle),
    {
        if let Some(f) = attr.validated_dbobject_value(v) {
            return Err(f);
        }
        if let Some(actual_size) = attr.is_too_large(v) {
            return Err(
                Fault::AttrMaxSize {
                    attr_name: attr.name.clone(),
                    type_label: self.object_type.identity.get_fqn(),
                    actual_size,
                    max_size: attr.max_size,
                },
            );
        }
        self.set_attr_by_name(attr.name.as_str(), handle);
        Ok(())
    }

    /// The index that the next appended element gets.
    pub open spec fn append_index(self) -> i32 {
        if self.object_type.is_assoc_array {
            index_after(last_of(self@.indexed))
        } else {
            clamp_index(self@.elements.len() as int)
        }
    }

    fn last_index(&self) -> (r: Option<i32>)
        requires
            self.wf(),
        ensures
            r == last_of(self@.indexed),
    {
        let r = self.indexed.last();
        proof {
            match r {
                Some(k) => {
                    lemma_last_of(self@.indexed, k);
                },
                None => {
                    assert forall|k: i32| !greatest(self@.indexed, k) by {
                        assert(!self@.indexed.dom().contains(k));
                    }
                },
            }
        }
        r
    }

    pub fn next_collection_append_index(&self) -> (r: i32)
        requires
            self.wf(),
        ensures
            r == self.append_index(),
    {
        if self.object_type.is_assoc_array {
            match self.last_index() {
                None => 0,
                Some(k) => if k == i32::MAX {
                    i32::MAX
                } else {
                    k + 1
                },
            }
        } else {
            index_of_count(self.elements.len())
        }
    }

    /// The collection holds as many elements as it may.
    pub open spec fn is_full(self) -> bool {
        &&& !self.object_type.is_assoc_array
        &&& self.object_type.max_num_elements > 0
        &&& self@.elements.len() >= self.object_type.max_num_elements
    }

    pub open spec fn appended(self, handle: usize) -> ObjectModel {
        if self.object_type.is_assoc_array {
            ObjectModel { indexed: self@.indexed.insert(self.append_index(), handle), ..self@ }
        } else {
            ObjectModel { elements: self@.elements.push(handle), ..self@ }
        }
    }

    pub open spec fn full_fault(self) -> FaultView {
        FaultView::InvalidCollIndexSet {
            index: clamp_index(self@.elements.len() as int),
            min_index: 0,
            max_index: clamp_index(self.object_type.max_num_elements - 1),
        }
    }

    pub open spec fn append_done(
        self,
        after: ObjectModel,
        r: Result<(), Fault>,
        handle: usize,
    ) -> bool {
        match r {
            Ok(_) => !self.is_full() && after == self.appended(handle),
            Err(f) => self.is_full() && after == self@ && f@ == self.full_fault(),
        }
    }

    /// Appends an element without a look at its type.
    pub fn append_collection_value(&mut self, handle: usize) -> (r: Result<(), Fault>)
        requires
            old(self).wf(),
            old(self).unpacked(),
        ensures
            final(self).wf(),
            final(self).object_type == old(self).object_type,
            old(self).append_done(final(self)@, r, handle),
    {
        if self.object_type.is_assoc_array {
            let index = self.next_collection_append_index();
            self.indexed.insert(index, handle);
            return Ok(());
        }
        let max = self.object_type.max_num_elements;
        if max > 0 && self.elements.len() as u64 >= max as u64 {
            return Err(
                Fault::InvalidCollIndexSet {
                    index: index_of_count(self.elements.len()),
                    min_index: 0,
                    max_index: if max > 0x8000_0000 {
                        i32::MAX
                    } else {
                        (max - 1) as i32
                    },
                },
            );
        }
        self.elements.push(handle);
        Ok(())
    }

    /// Why a value cannot be stored as the element with an index.
    pub open spec fn element_fault(self, index: i32, v: StoredFacets) -> Option<FaultView> {
        match self.object_type.element_metadata {
            None => Some(FaultView::Named(ErrorName::ObjectIsNotACollection)),
            Some(m) => if m.value_fault(v) is Some {
                m.value_fault(v)
            } else if m.too_large(v) {
                Some(
                    FaultView::ElementMaxSize {
                        index,
                        type_label: self.object_type.identity.fqn(),
                        actual_size: v.byte_size->0,
                        max_size: m.max_size,
                    },
                )
            } else {
                None
            },
        }
    }

    fn check_element(&self, index: i32, v: &StoredFacets) -> (r: Option<Fault>)
        ensures
            match r {
                Some(f) => self.element_fault(index, *v) == Some(f@),
                None => self.element_fault(index, *v) is None,
            },
    {
        match &self.object_type.element_metadata {
            None => Some(Fault::Named(ErrorName::ObjectIsNotACollection)),
            Some(m) => {
                if let Some(f) = m.validated_dbobject_value(v) {
                    return Some(f);
                }
                match m.is_too_large(v) {
                    Some(actual_size) => Some(
                        Fault::ElementMaxSize {
                            index,
                            type_label: self.object_type.identity.get_fqn(),
                            actual_size,
                            max_size: m.max_size,
                        },
                    ),
                    None => None,
                }
            },
        }
    }

    /// Checks a value that is to be appended. The check does not need the packed data, and counts
    /// none of its elements.
    pub fn check_append(&self, v: &StoredFacets) -> (r: Option<Fault>)
        requires
            self.wf(),
        ensures
            match r {
                Some(f) => self.element_fault(self.append_index(), *v) == Some(f@),
                None => self.element_fault(self.append_index(), *v) is None,
            },
    {
        let index = self.next_collection_append_index();
        self.check_element(index, v)
    }

    pub open spec fn checked_append_done(
        self,
        after: ObjectModel,
        r: Result<(), Fault>,
        v: StoredFacets,
        handle: usize,
    ) -> bool {
        match r {
            Ok(_) => self.element_fault(self.append_index(), v) is None && !self.is_full() && after
                == self.appended(handle),
            Err(f) => after == self@ && match self.element_fault(self.append_index(), v) {
                Some(e) => f@ == e,
                None => self.is_full() && f@ == self.full_fault(),
            },
        }
    }

    /// Checks a value and appends it.
    pub fn append(&mut self, v: &StoredFacets, handle: usize) -> (r: Result<(), Fault>)
        requires
            old(self).wf(),
            old(self).unpacked(),
        ensures
            final(self).wf(),
            final(self).object_type == old(self).object_type,
            old(self).checked_append_done(final(self)@, r, *v, handle),
    {
        if let Some(f) = self.check_append(v) {
            return Err(f);
        }
        self.append_collection_value(handle)
    }

    /// There is an element with the index.
    pub open spec fn has_index(self, index: i32) -> bool {
        if self.object_type.is_assoc_array {
            self@.indexed.dom().contains(index)
        } else {
            0 <= index < self@.elements.len()
        }
    }

    /// The element with an index.
    pub open spec fn element(self, index: i32) -> usize {
        if self.object_type.is_assoc_array {
            self@.indexed[index]
        } else {
            self@.elements[index as int]
        }
    }

    pub fn exists_by_index(&self, index: i32) -> (r: bool)
        requires
            self.wf(),
            self.unpacked(),
        ensures
            r == self.has_index(index),
    {
        if self.object_type.is_assoc_array {
            self.indexed.get(index).is_some()
        } else {
            index >= 0 && (index as u64) < self.elements.len() as u64
        }
    }

    pub open spec fn element_read(self, r: Result<usize, Fault>, index: i32) -> bool {
        match r {
            Ok(h) => self.has_index(index) && h == self.element(index),
            Err(f) => !self.has_index(index) && f@ == (FaultView::InvalidCollIndexGet { index }),
        }
    }

    pub fn get_element_by_index(&self, index: i32) -> (r: Result<usize, Fault>)
        requires
            self.wf(),
            self.unpacked(),
        ensures
            self.element_read(r, index),
    {
        if self.object_type.is_assoc_array {
            return match self.indexed.get(index) {
                Some(h) => Ok(h),
                None => Err(Fault::InvalidCollIndexGet { index }),
            };
        }
        if index >= 0 && (index as u64) < self.elements.len() as u64 {
            Ok(self.elements[index as usize])
        } else {
            Err(Fault::InvalidCollIndexGet { index })
        }
    }

    pub open spec fn element_deleted(
        self,
        after: ObjectModel,
        r: Result<(), Fault>,
        index: i32,
    ) -> bool {
        match r {
            Ok(_) => self.has_index(index) && after == if self.object_type.is_assoc_array {
                ObjectModel { indexed: self@.indexed.remove(index), ..self@ }
            } else {
                ObjectModel { elements: self@.elements.remove(index as int), ..self@ }
            },
            Err(f) => !self.has_index(index) && after == self@ && f@ == (
            FaultView::InvalidCollIndexGet { index }),
        }
    }

    /// Removes the element with an index. Those behind it move up, but in an associative array.
    pub fn delete_by_index(&mut self, index: i32) -> (r: Result<(), Fault>)
        requires
            old(self).wf(),
            old(self).unpacked(),
        ensures
            final(self).wf(),
            final(self).object_type == old(self).object_type,
            old(self).element_deleted(final(self)@, r, index),
    {
        if self.object_type.is_assoc_array {
            let ghost before = self.indexed@;
            if self.indexed.remove(index) {
                return Ok(());
            }
            proof {
                assert(self.indexed@ =~= before);
            }
            return Err(Fault::InvalidCollIndexGet { index });
        }
        if index >= 0 && (index as u64) < self.elements.len() as u64 {
            let ghost before = self.elements@;
            self.elements.remove(index as usize);
            proof {
                assert(self.elements@ =~= before.remove(index as int));
            }
            Ok(())
        } else {
            Err(Fault::InvalidCollIndexGet { index })
        }
    }

    pub open spec fn is_first_index(self, r: Option<i32>) -> bool {
        match r {
            Some(k) => self.has_index(k) && forall|j: i32| #[trigger] self.has_index(j) ==> k <= j,
            None => forall|j: i32| !#[trigger] self.has_index(j),
        }
    }

    pub fn get_first_index(&self) -> (r: Option<i32>)
        requires
            self.wf(),
            self.unpacked(),
        ensures
            self.is_first_index(r),
    {
        if self.object_type.is_assoc_array {
            let r = self.indexed.first_from(i32::MIN);
            proof {
                assert forall|j: i32| #[trigger] self.has_index(j) implies (r matches Some(k) && k
                    <= j) by {
                    assert(self@.indexed.dom().contains(j));
                }
            }
            r
        } else if self.elements.len() > 0 {
            Some(0)
        } else {
            None
        }
    }

    pub open spec fn greatest_index(self) -> Option<i32> {
        if self.object_type.is_assoc_array {
            last_of(self@.indexed)
        } else if self@.elements.len() == 0 {
            None
        } else {
            Some(clamp_index(self@.elements.len() - 1))
        }
    }

    /// The greatest index. A count beyond what an index can be is cut off.
    pub fn get_last_index(&self) -> (r: Option<i32>)
        requires
            self.wf(),
            self.unpacked(),
        ensures
            r == self.greatest_index(),
    {
        if self.object_type.is_assoc_array {
            self.last_index()
        } else if self.elements.len() == 0 {
            None
        } else {
            Some(index_of_count(self.elements.len() - 1))
        }
    }

    pub open spec fn is_next_index(self, r: Option<i32>, index: i32) -> bool {
        let from = index_after(Some(index));
        if self.object_type.is_assoc_array {
            match r {
                Some(k) => least_from(self@.indexed, from, k),
                None => forall|j: i32| #[trigger] self@.indexed.dom().contains(j) ==> j < from,
            }
        } else {
            r == if self.has_index(from) {
                Some(from)
            } else {
                None
            }
        }
    }

    /// The smallest index behind the given one. Behind the greatest number there is none: it
    /// counts as its own next.
    pub fn get_next_index(&self, index: i32) -> (r: Option<i32>)
        requires
            self.wf(),
            self.unpacked(),
        ensures
            self.is_next_index(r, index),
    {
        let next: i32 = if index == i32::MAX {
            i32::MAX
        } else {
            index + 1
        };
        if self.object_type.is_assoc_array {
            self.indexed.first_from(next)
        } else if next >= 0 && (next as u64) < self.elements.len() as u64 {
            Some(next)
        } else {
            None
        }
    }

    pub open spec fn is_prev_index(self, r: Option<i32>, index: i32) -> bool {
        if self.object_type.is_assoc_array {
            match r {
                Some(k) => greatest_below(self@.indexed, index as int, k),
                None => forall|j: i32| #[trigger] self@.indexed.dom().contains(j) ==> j >= index,
            }
        } else {
            r == if index > 0 {
                Some((index - 1) as i32)
            } else {
                None
            }
        }
    }

    /// The greatest index before the given one. Where the elements are not an associative array,
    /// the index before any other than the first.
    pub fn get_prev_index(&self, index: i32) -> (r: Option<i32>)
        requires
            self.wf(),
            self.unpacked(),
        ensures
            self.is_prev_index(r, index),
    {
        if self.object_type.is_assoc_array {
            self.indexed.last_below(index)
        } else if index > 0 {
            Some(index - 1)
        } else {
            None
        }
    }

    pub open spec fn size(self) -> nat {
        if self.object_type.is_assoc_array {
            self@.indexed.dom().len()
        } else {
            self@.elements.len()
        }
    }

    pub fn get_size(&self) -> (r: usize)
        requires
            self.wf(),
            self.unpacked(),
        ensures
            r == self.size(),
    {
        if self.object_type.is_assoc_array {
            self.indexed.len()
        } else {
            self.elements.len()
        }
    }

    pub open spec fn with_element(self, index: i32, handle: usize) -> ObjectModel {
        if self.object_type.is_assoc_array {
            ObjectModel { indexed: self@.indexed.insert(index, handle), ..self@ }
        } else {
            ObjectModel { elements: self@.elements.update(index as int, handle), ..self@ }
        }
    }

    /// The index can be stored to: any in an associative array, else one that is there.
    pub open spec fn can_set(self, index: i32) -> bool {
        self.object_type.is_assoc_array || self.has_index(index)
    }

    pub open spec fn set_fault(self, index: i32) -> FaultView {
        FaultView::InvalidCollIndexSet {
            index,
            min_index: 0,
            max_index: if self@.elements.len() == 0 {
                0
            } else {
                clamp_index(self@.elements.len() - 1)
            },
        }
    }

    pub open spec fn element_set(
        self,
        after: ObjectModel,
        r: Result<(), Fault>,
        index: i32,
        handle: usize,
    ) -> bool {
        match r {
            Ok(_) => self.can_set(index) && after == self.with_element(index, handle),
            Err(f) => !self.can_set(index) && after == self@ && f@ == self.set_fault(index),
        }
    }

    /// Stores an element without a look at its type.
    pub fn set_element_by_index_checked(&mut self, index: i32, handle: usize) -> (r: Result<
        (),
        Fault,
    >)
        requires
            old(self).wf(),
            old(self).unpacked(),
        ensures
            final(self).wf(),
            final(self).object_type == old(self).object_type,
            old(self).element_set(final(self)@, r, index, handle),
    {
        if self.object_type.is_assoc_array {
            self.indexed.insert(index, handle);
            return Ok(());
        }
        if index >= 0 && (index as u64) < self.elements.len() as u64 {
            self.elements.set(index as usize, handle);
            return Ok(());
        }
        let max_index: i32 = if self.elements.len() == 0 {
            0
        } else {
            index_of_count(self.elements.len() - 1)
        };
        Err(Fault::InvalidCollIndexSet { index, min_index: 0, max_index })
    }

    pub open spec fn checked_element_set(
        self,
        after: ObjectModel,
        r: Result<(), Fault>,
        index: i32,
        v: StoredFacets,
        handle: usize,
    ) -> bool {
        match r {
            Ok(_) => self.element_fault(index, v) is None && self.can_set(index) && after
                == self.with_element(index, handle),
            Err(f) => after == self@ && match self.element_fault(index, v) {
                Some(e) => f@ == e,
                None => !self.can_set(index) && f@ == self.set_fault(index),
            },
        }
    }

    /// Checks a value and stores it as an element.
    pub fn set_element_by_index(&mut self, index: i32, v: &StoredFacets, handle: usize) -> (r:
        Result<(), Fault>)
        requires
            old(self).wf(),
            old(self).unpacked(),
        ensures
            final(self).wf(),
            final(self).object_type == old(self).object_type,
            old(self).checked_element_set(final(self)@, r, index, *v, handle),
    {
        if let Some(f) = self.check_element(index, v) {
            return Err(f);
        }
        self.set_element_by_index_checked(index, handle)
    }

    /// Takes elements off the end; a number that is not positive takes none.
    pub fn trim(&mut self, num_to_trim: i32)
        requires
            old(self).wf(),
            old(self).unpacked(),
        ensures
            final(self).wf(),
            final(self).object_type == old(self).object_type,
            final(self)@ == old(self)@.shortened(num_to_trim),
    {
        if num_to_trim <= 0 {
            return;
        }
        let ghost before = self.elements@;
        let n = self.elements.len();
        if num_to_trim as u64 >= n as u64 {
            self.elements.truncate(0);
            proof {
                assert(self.elements@ =~= Seq::<usize>::empty());
            }
        } else {
            self.elements.truncate(n - num_to_trim as usize);
            proof {
                assert(self.elements@ =~= before.take(n - num_to_trim));
            }
        }
    }

    /// A second object with the same attributes and elements.
    pub fn copy(&self, object_type: DbObjectType) -> (r: Self)
        requires
            self.wf(),
            self.unpacked(),
        ensures
            r.wf(),
            r.object_type == object_type,
            r@ == self@,
    {
        let mut attrs: TextMap<usize> = TextMap::new();
        let mut i: usize = 0;
        proof {
            assert(self.attrs.entries@.take(0) =~= Seq::empty());
        }
        while i < self.attrs.entries.len()
            invariant
                i <= self.attrs.entries@.len(),
                attrs.wf(),
                attrs@ == crate::textmap::entries_map(self.attrs.entries@.take(i as int)),
            decreases self.attrs.entries@.len() - i,
        {
            proof {
                let longer = self.attrs.entries@.take(i + 1);
                assert(longer.drop_last() =~= self.attrs.entries@.take(i as int));
                assert(longer.last() == self.attrs.entries@[i as int]);
            }
            attrs.insert(self.attrs.entries[i].key.clone(), self.attrs.entries[i].value);
            i = i + 1;
        }
        proof {
            assert(self.attrs.entries@.take(i as int) =~= self.attrs.entries@);
        }
        let elements = self.elements.clone();
        let entries = self.indexed.entries.clone();
        proof {
            assert(elements@ =~= self.elements@);
            assert(entries@ =~= self.indexed.entries@);
        }
        DbObject { object_type, attrs, elements, indexed: IndexedValues { entries }, packed: None }
    }

    pub open spec fn packed_as(self, r: Result<PackedShape, Fault>) -> bool {
        match r {
            Ok(PackedShape::Attributes) => !self.object_type.is_collection,
            Ok(PackedShape::Elements) => self.object_type.is_collection
                && self.object_type.element_metadata is Some && !self.object_type.is_assoc_array,
            Ok(PackedShape::IndexedElements) => self.object_type.is_collection
                && self.object_type.element_metadata is Some && self.object_type.is_assoc_array,
            Err(f) => self.object_type.is_collection && self.object_type.element_metadata is None
                && f@ == FaultView::Runtime("missing collection element metadata"@),
        }
    }

    /// What the packed form holds.
    pub fn unpack_shape(&self) -> (r: Result<PackedShape, Fault>)
        ensures
            self.packed_as(r),
    {
        if !self.object_type.is_collection {
            Ok(PackedShape::Attributes)
        } else if self.object_type.element_metadata.is_none() {
            Err(Fault::Runtime(owned("missing collection element metadata")))
        } else if self.object_type.is_assoc_array {
            Ok(PackedShape::IndexedElements)
        } else {
            Ok(PackedShape::Elements)
        }
    }

    /// Takes over the attributes that were read, one for each attribute of the type.
    pub fn adopt_attributes(&mut self, values: &Vec<usize>)
        requires
            old(self).wf(),
            values@.len() == old(self).object_type.attrs@.len(),
        ensures
            final(self).wf(),
            final(self).object_type == old(self).object_type,
            final(self)@ == old(self)@.with_attributes(
                attrs_map(old(self).object_type.attrs@, values@, values@.len() as int),
            ),
    {
        let mut attrs: TextMap<usize> = TextMap::new();
        let mut i: usize = 0;
        while i < values.len()
            invariant
                i <= values@.len(),
                self.wf(),
                values@.len() == self.object_type.attrs@.len(),
                self.object_type == old(self).object_type,
                self@ == old(self)@,
                attrs.wf(),
                attrs@ == attrs_map(self.object_type.attrs@, values@, i as int),
            decreases values@.len() - i,
        {
            attrs.insert(self.object_type.attrs[i].name.clone(), values[i]);
            i = i + 1;
        }
        self.attrs = attrs;
        self.packed = None;
    }

    /// Takes over the elements that were read.
    pub fn adopt_elements(&mut self, values: Vec<usize>)
        requires
            old(self).wf(),
        ensures
            final(self).wf(),
            final(self).object_type == old(self).object_type,
            final(self)@ == old(self)@.with_elements(values@),
    {
        self.elements = values;
        self.packed = None;
    }

    /// Takes over the elements that were read with their indices. Of two with one index the later
    /// counts.
    pub fn adopt_indexed(&mut self, values: &Vec<IndexedValue>)
        requires
            old(self).wf(),
        ensures
            final(self).wf(),
            final(self).object_type == old(self).object_type,
            final(self)@ == old(self)@.with_indexed(stored_by_index(values@)),
    {
        let mut indexed = IndexedValues::new();
        let mut i: usize = 0;
        proof {
            assert(values@.take(0) =~= Seq::<IndexedValue>::empty());
        }
        while i < values.len()
            invariant
                i <= values@.len(),
                self.wf(),
                self.object_type == old(self).object_type,
                self@ == old(self)@,
                indexed.wf(),
                indexed@ == stored_by_index(values@.take(i as int)),
            decreases values@.len() - i,
        {
            proof {
                let longer = values@.take(i + 1);
                assert(longer.drop_last() =~= values@.take(i as int));
                assert(longer.last() == values@[i as int]);
            }
            indexed.insert(values[i].index, values[i].handle);
            i = i + 1;
        }
        proof {
            assert(values@.take(i as int) =~= values@);
        }
        self.indexed = indexed;
        self.packed = None;
    }

    /// The elements can be sent as an array of scalars.
    pub open spec fn is_scalar_collection(self) -> bool {
        &&& self.object_type.is_collection
        &&& self.object_type.element_metadata is Some
        &&& self.object_type.element_metadata->0.dbtype_name@ != "DB_TYPE_OBJECT"@
    }

    /// The elements in the order of their indices.
    pub open spec fn handles(self) -> Seq<usize> {
        if self.object_type.is_assoc_array {
            self.indexed.entries@.map_values(|e: IndexedValue| e.handle)
        } else {
            self@.elements
        }
    }

    /// The elements, in order, of a collection that can be sent as an array of scalars.
    pub fn scalar_elements(&self) -> (r: Option<Vec<usize>>)
        requires
            self.wf(),
            self.unpacked(),
        ensures
            r is Some == self.is_scalar_collection(),
            r matches Some(v) ==> v@ == self.handles(),
    {
        if !self.object_type.is_collection {
            return None;
        }
        match &self.object_type.element_metadata {
            None => {
                return None;
            },
            Some(m) => {
                if same_text(m.dbtype_name.as_str(), "DB_TYPE_OBJECT") {
                    return None;
                }
            },
        }
        let mut r: Vec<usize> = Vec::new();
        if self.object_type.is_assoc_array {
            let ghost all = self.indexed.entries@.map_values(|e: IndexedValue| e.handle);
            let mut i: usize = 0;
            while i < self.indexed.entries.len()
                invariant
                    i <= self.indexed.entries@.len(),
                    all == self.indexed.entries@.map_values(|e: IndexedValue| e.handle),
                    r@ == all.take(i as int),
                decreases self.indexed.entries@.len() - i,
            {
                r.push(self.indexed.entries[i].handle);
                i = i + 1;
                proof {
                    assert(r@ =~= all.take(i as int));
                }
            }
            proof {
                assert(r@ =~= all);
            }
        } else {
            let c = self.elements.clone();
            proof {
                assert(c@ =~= self.elements@);
            }
            r = c;
        }
        Some(r)
    }
}

/// The bind of a collection as an array of scalars. `infos` holds the type information that the
/// driver has of each element, `element_info` that of the element type.
pub fn dbobject_collection_to_array_bind(
    values: Vec<Option<BindValue>>,
    infos: &Vec<Option<TypeInfo>>,
    element_info: TypeInfo,
) -> (r: BindValue)
    ensures
        r == (BindValue::Array {
            info: match first_info(infos@, 0) {
                Some(i) => i,
                None => element_info,
            },
            max_elements: clamp_count(values@.len() as int),
            values,
        }),
{
    array_bind(values, infos, element_info)
}

/// How an object is sent.
#[derive(Clone, Copy, PartialEq, Eq, Structural, Debug)]
pub enum ObjectBindPlan {
    /// As a packed image.
    Native,
    /// As an array of its elements.
    ScalarArray,
}

impl DbObject {
    pub open spec fn sent_as(self, r: Result<ObjectBindPlan, Fault>) -> bool {
        match r {
            Ok(ObjectBindPlan::Native) => self.object_type.oid is Some,
            Ok(ObjectBindPlan::ScalarArray) => self.object_type.oid is None
                && self.is_scalar_collection(),
            Err(f) => self.object_type.oid is None && !self.is_scalar_collection() && f@ == (
            FaultView::PythonValueNotSupported { type_label: "DbObject"@ }),
        }
    }

    /// Decides how an object is sent: as an image where its type has an identifier, else as an
    /// array of scalars, else not at all.
    pub fn dbobject_to_bind(&self) -> (r: Result<ObjectBindPlan, Fault>)
        ensures
            self.sent_as(r),
    {
        if self.object_type.oid.is_some() {
            return Ok(ObjectBindPlan::Native);
        }
        if self.object_type.is_collection {
            if let Some(m) = &self.object_type.element_metadata {
                if !same_text(m.dbtype_name.as_str(), "DB_TYPE_OBJECT") {
                    return Ok(ObjectBindPlan::ScalarArray);
                }
            }
        }
        Err(Fault::PythonValueNotSupported { type_label: owned("DbObject") })
    }
}

/// What was stored in an attribute is found under any spelling of its name, and the other
/// attributes stay.
pub proof fn law_attribute_names_ignore_case(
    m: Map<Seq<char>, usize>,
    name: Seq<char>,
    other: Seq<char>,
    handle: usize,
)
    ensures
        same_ignoring_case(name, other) ==> m.insert(upper(name), handle)[upper(other)] == handle,
        !same_ignoring_case(name, other) ==> m.insert(upper(name), handle)[upper(other)]
            == m[upper(other)],
{
    lemma_same_ignoring_case_upper(name, other);
}

/// An appended element is found under the index that appending announced, as long as there are no
/// more elements than indices.
pub proof fn law_appended_element_is_found(before: DbObject, after: DbObject, handle: usize)
    requires
        after.object_type == before.object_type,
        after@ == before.appended(handle),
        before.object_type.is_assoc_array || before@.elements.len() <= i32::MAX,
    ensures
        after.has_index(before.append_index()),
        after.element(before.append_index()) == handle,
{
}

/// Elements that were there stay under their indices when one is appended, but for the element of
/// an associative array with the greatest number as its index.
pub proof fn law_append_keeps_elements(
    before: DbObject,
    after: DbObject,
    handle: usize,
    index: i32,
)
    requires
        after.object_type == before.object_type,
        after@ == before.appended(handle),
        before.has_index(index),
        !(before.object_type.is_assoc_array && index == i32::MAX),
    ensures
        after.has_index(index),
        after.element(index) == before.element(index),
{
    if before.object_type.is_assoc_array {
        let m = before@.indexed;
        assert(m.dom().contains(index));
        if last_of(m) is Some {
            let k = last_of(m)->0;
            assert(greatest(m, k));
            assert(index <= k);
        } else {
            assert(before.append_index() == 0);
            lemma_greatest_exists(m, index);
        }
    }
}

/// A finite mapping with an index has a greatest one.
proof fn lemma_greatest_exists(m: Map<i32, usize>, index: i32)
    requires
        m.dom().contains(index),
    ensures
        last_of(m) is Some,
    decreases i32::MAX - index,
{
    if !greatest(m, index) {
        let j = choose|j: i32| #[trigger] m.dom().contains(j) && !(j <= index);
        lemma_greatest_exists(m, j);
    }
}

/// A stored element is read back, and the others stay.
pub proof fn law_stored_element_is_read_back(
    before: DbObject,
    after: DbObject,
    index: i32,
    other: i32,
    handle: usize,
)
    requires
        after.object_type == before.object_type,
        before.can_set(index),
        after@ == before.with_element(index, handle),
    ensures
        after.has_index(index),
        after.element(index) == handle,
        other != index && before.has_index(other) ==> after.has_index(other) && after.element(
            other,
        ) == before.element(other),
{
}

/// A value that was stored in an attribute is read back under any spelling of its name; every other
/// attribute, the elements and what is packed stay.
pub proof fn law_stored_attribute_is_read_back(
    o: DbObject,
    after: ObjectModel,
    r: Result<(), Fault>,
    attr: DbObjectAttr,
    v: StoredFacets,
    handle: usize,
    other: Seq<char>,
)
    requires
        o.attribute_set(after, r, attr, v, handle),
    ensures
        r is Ok && same_ignoring_case(attr.name@, other) ==> after.attribute(other) == Some(handle),
        r is Ok && !same_ignoring_case(attr.name@, other) ==> after.attribute(other)
            == o@.attribute(other),
        r is Err ==> after == o@,
        after.elements == o@.elements && after.indexed == o@.indexed && after.packed == o@.packed,
{
    lemma_same_ignoring_case_upper(attr.name@, other);
}

/// An attribute takes a value exactly where its type does and the value is not larger than the
/// attribute allows. The error for one that is too large names the attribute and both sizes.
pub proof fn law_attribute_takes_what_fits(
    o: DbObject,
    after: ObjectModel,
    r: Result<(), Fault>,
    attr: DbObjectAttr,
    v: StoredFacets,
    handle: usize,
)
    requires
        o.attribute_set(after, r, attr, v, handle),
    ensures
        r is Ok <==> attr.value_fault(v) is None && !attr.too_large(v),
        attr.value_fault(v) is Some ==> (r matches Err(f) && f@ == attr.value_fault(v)->0),
        attr.value_fault(v) is None ==> (r matches Err(f) ==> (
        f@ matches FaultView::AttrMaxSize { attr_name, actual_size, max_size, .. } && attr_name
            == attr.name@ && Some(actual_size) == v.byte_size && max_size == attr.max_size)),
{
}

/// A new object has every attribute of its type, each without a value, and no elements; what is
/// read of a packed one becomes the value of the attribute in the same place.
pub proof fn law_attributes_are_those_of_the_type(
    attrs: Seq<DbObjectAttr>,
    values: Seq<usize>,
    n: int,
    i: int,
)
    requires
        0 <= i < n <= attrs.len(),
        forall|j: int| i < j < n ==> (#[trigger] attrs[j]).name@ != attrs[i].name@,
    ensures
        attrs_map(attrs, values, n).dom().contains(attrs[i].name@),
        attrs_map(attrs, values, n)[attrs[i].name@] == values[i],
    decreases n,
{
    if i < n - 1 {
        assert(attrs[n - 1].name@ != attrs[i].name@);
        law_attributes_are_those_of_the_type(attrs, values, n - 1, i);
    }
}

/// An object has no attribute that its type has not.
pub proof fn law_no_attribute_is_made_up(
    attrs: Seq<DbObjectAttr>,
    values: Seq<usize>,
    n: int,
    name: Seq<char>,
)
    requires
        0 <= n <= attrs.len(),
        forall|j: int| 0 <= j < n ==> (#[trigger] attrs[j]).name@ != name,
    ensures
        !attrs_map(attrs, values, n).dom().contains(name),
    decreases n,
{
    if n > 0 {
        assert(attrs[n - 1].name@ != name);
        law_no_attribute_is_made_up(attrs, values, n - 1, name);
    }
}

/// Of the elements that were read with one index the last counts.
pub proof fn law_last_element_with_an_index_counts(values: Seq<IndexedValue>, i: int)
    requires
        0 <= i < values.len(),
        forall|j: int| i < j < values.len() ==> (#[trigger] values[j]).index != values[i].index,
    ensures
        stored_by_index(values).dom().contains(values[i].index),
        stored_by_index(values)[values[i].index] == values[i].handle,
    decreases values.len(),
{
    if i < values.len() - 1 {
        assert(values[values.len() - 1].index != values[i].index);
        assert forall|j: int| i < j < values.len() - 1 implies (
        #[trigger] values.drop_last()[j]).index != values.drop_last()[i].index by {
            assert(values[j].index != values[i].index);
        }
        law_last_element_with_an_index_counts(values.drop_last(), i);
    }
}

/// An associative array has no index that was not read.
pub proof fn law_no_index_is_made_up(values: Seq<IndexedValue>, index: i32)
    requires
        forall|j: int| 0 <= j < values.len() ==> (#[trigger] values[j]).index != index,
    ensures
        !stored_by_index(values).dom().contains(index),
    decreases values.len(),
{
    if values.len() > 0 {
        assert(values[values.len() - 1].index != index);
        assert forall|j: int| 0 <= j < values.len() - 1 implies (
        #[trigger] values.drop_last()[j]).index != index by {
            assert(values[j].index != index);
        }
        law_no_index_is_made_up(values.drop_last(), index);
    }
}

/// What was read takes the place of what was packed, which then is packed no more; the other parts
/// stay.
pub proof fn law_object_is_unpacked_once(
    m: ObjectModel,
    attrs: Map<Seq<char>, usize>,
    elements: Seq<usize>,
    indexed: Map<i32, usize>,
)
    ensures
        m.with_attributes(attrs).packed is None && m.with_elements(elements).packed is None
            && m.with_indexed(indexed).packed is None,
        m.with_attributes(attrs).attrs == attrs && m.with_attributes(attrs).elements == m.elements,
        m.with_elements(elements).elements == elements && m.with_elements(elements).attrs == m.attrs,
        m.with_indexed(indexed).indexed == indexed && m.with_indexed(indexed).elements
            == m.elements,
{
}

/// Appending fails exactly for a value that does not fit or a collection that is full, and then
/// nothing changes. It puts the element behind all others: a list is longer by one, and the element
/// of an associative array follows the greatest index.
pub proof fn law_append_adds_behind_the_last(
    o: DbObject,
    after: ObjectModel,
    r: Result<(), Fault>,
    v: StoredFacets,
    handle: usize,
    index: i32,
)
    requires
        o.checked_append_done(after, r, v, handle),
    ensures
        r is Err ==> after == o@,
        r is Ok <==> o.element_fault(o.append_index(), v) is None && !o.is_full(),
        o.element_fault(o.append_index(), v) matches Some(e) ==> (r matches Err(f) && f@ == e),
        r is Ok ==> o.object_type.element_metadata is Some,
        r is Ok && !o.object_type.is_assoc_array ==> {
            &&& after.elements.len() == o@.elements.len() + 1
            &&& after.elements.last() == handle
            &&& after.elements.drop_last() == o@.elements
            &&& o.object_type.max_num_elements > 0 ==> after.elements.len()
                <= o.object_type.max_num_elements
            &&& after.indexed == o@.indexed
        },
        r is Ok && o.object_type.is_assoc_array && greatest(o@.indexed, index) && index < i32::MAX
            ==> after.indexed == o@.indexed.insert((index + 1) as i32, handle),
        r is Ok && o.object_type.is_assoc_array && o@.indexed =~= Map::empty() ==> after.indexed
            == Map::<i32, usize>::empty().insert(0, handle),
        after.attrs == o@.attrs && after.packed == o@.packed,
{
    if r is Ok && !o.object_type.is_assoc_array {
        assert(after.elements.drop_last() =~= o@.elements);
    }
    if greatest(o@.indexed, index) {
        lemma_last_of(o@.indexed, index);
    }
    if o@.indexed =~= Map::empty() {
        assert forall|k: i32| !greatest(o@.indexed, k) by {
            assert(!o@.indexed.dom().contains(k));
        }
    }
}

/// A list takes elements exactly up to its maximum; without a maximum, and in an associative array,
/// it always does. The error names the index and the greatest that is allowed.
pub proof fn law_list_is_limited(
    o: DbObject,
    after: ObjectModel,
    r: Result<(), Fault>,
    handle: usize,
)
    requires
        o.append_done(after, r, handle),
    ensures
        o.object_type.is_assoc_array || o.object_type.max_num_elements == 0 ==> r is Ok,
        !o.object_type.is_assoc_array && o.object_type.max_num_elements > 0 ==> (r is Ok <==>
            o@.elements.len() < o.object_type.max_num_elements),
        r matches Err(f) ==> (
        f@ matches FaultView::InvalidCollIndexSet { index, min_index, max_index } && min_index == 0
            && (o@.elements.len() <= i32::MAX ==> index == o@.elements.len()) && (
        o.object_type.max_num_elements - 1 <= i32::MAX ==> max_index
            == o.object_type.max_num_elements - 1)),
{
}

/// An element fits exactly where its type takes it and it is not larger than the type allows; an
/// object that is no collection takes none.
pub proof fn law_element_fits_its_type(o: DbObject, index: i32, v: StoredFacets)
    ensures
        o.object_type.element_metadata is None ==> o.element_fault(index, v) == Some(
            FaultView::Named(ErrorName::ObjectIsNotACollection),
        ),
        o.object_type.element_metadata matches Some(m) ==> {
            &&& o.element_fault(index, v) is None <==> m.value_fault(v) is None && !m.too_large(v)
            &&& m.value_fault(v) is None && m.too_large(v) ==> (o.element_fault(
                index,
                v,
            ) matches Some(FaultView::ElementMaxSize { index: i, actual_size, max_size, .. }) && i
                == index && Some(actual_size) == v.byte_size && max_size == m.max_size)
        },
{
}

/// Reading an index gives the element that stands there, and fails, naming the index, exactly where
/// there is none. A list counts from zero.
pub proof fn law_elements_are_read_by_index(o: DbObject, r: Result<usize, Fault>, index: i32)
    requires
        o.element_read(r, index),
    ensures
        !o.object_type.is_assoc_array ==> (r is Ok <==> 0 <= index < o@.elements.len()),
        o.object_type.is_assoc_array ==> (r is Ok <==> o@.indexed.dom().contains(index)),
        r matches Ok(h) ==> !o.object_type.is_assoc_array ==> h == o@.elements[index as int],
        r matches Ok(h) ==> o.object_type.is_assoc_array ==> h == o@.indexed[index],
        r matches Err(f) ==> f@ == (FaultView::InvalidCollIndexGet { index }),
{
}

/// Deleting takes exactly one element away: in an associative array its index is free and all others
/// stay, in a list those behind it move up.
pub proof fn law_delete_takes_one_away(
    o: DbObject,
    after: ObjectModel,
    r: Result<(), Fault>,
    index: i32,
    other: int,
)
    requires
        o.element_deleted(after, r, index),
    ensures
        r is Ok <==> o.has_index(index),
        r is Err ==> after == o@,
        r is Ok && o.object_type.is_assoc_array ==> {
            &&& !after.indexed.dom().contains(index)
            &&& after.elements == o@.elements
            &&& i32::MIN <= other <= i32::MAX && other != index && o@.indexed.dom().contains(
                other as i32,
            ) ==> after.indexed.dom().contains(other as i32) && after.indexed[other as i32]
                == o@.indexed[other as i32]
        },
        r is Ok && !o.object_type.is_assoc_array ==> {
            &&& after.elements.len() == o@.elements.len() - 1
            &&& 0 <= other < index ==> after.elements[other] == o@.elements[other]
            &&& index <= other < after.elements.len() ==> after.elements[other]
                == o@.elements[other + 1]
            &&& after.indexed == o@.indexed
        },
        after.attrs == o@.attrs,
{
}

/// The first and the last index enclose all others, and are there exactly where there are elements.
pub proof fn law_first_and_last_index_enclose(o: DbObject, first: Option<i32>, index: i32)
    requires
        o.is_first_index(first),
        o.has_index(index),
        o.object_type.is_assoc_array || o@.elements.len() <= i32::MAX,
    ensures
        first is Some && o.greatest_index() is Some,
        first->0 <= index <= o.greatest_index()->0,
        o.has_index(first->0) && o.has_index(o.greatest_index()->0),
{
    if o.object_type.is_assoc_array {
        lemma_greatest_exists(o@.indexed, index);
        let k = o.greatest_index()->0;
        assert(greatest(o@.indexed, k));
        assert(o@.indexed.dom().contains(index));
    }
}

/// Without elements there is neither a first nor a last index.
pub proof fn law_empty_collection_has_no_index(o: DbObject, first: Option<i32>)
    requires
        o.is_first_index(first),
        forall|j: i32| !#[trigger] o.has_index(j),
        o.object_type.is_assoc_array || o@.elements.len() == 0,
    ensures
        first is None && o.greatest_index() is None,
{
    if o.object_type.is_assoc_array {
        assert forall|k: i32| !greatest(o@.indexed, k) by {
            assert(!o.has_index(k));
        }
    }
}

/// The next index lies behind the given one with nothing between, and there is none exactly where no
/// element lies behind.
pub proof fn law_next_index_leaves_none_out(
    o: DbObject,
    r: Option<i32>,
    index: i32,
    other: i32,
)
    requires
        o.is_next_index(r, index),
        index < i32::MAX,
        o.object_type.is_assoc_array || index >= -1,
    ensures
        r matches Some(k) ==> o.has_index(k) && index < k && !(index < other < k && o.has_index(
            other,
        )),
        r is None ==> !(index < other && o.has_index(other)),
{
    if o.object_type.is_assoc_array && o.has_index(other) {
        assert(o@.indexed.dom().contains(other));
    }
}

/// The previous index of an associative array lies before the given one with nothing between; the
/// one of a list is one less, and the first has none.
pub proof fn law_previous_index_leaves_none_out(
    o: DbObject,
    r: Option<i32>,
    index: i32,
    other: i32,
)
    requires
        o.is_prev_index(r, index),
    ensures
        o.object_type.is_assoc_array ==> {
            &&& r matches Some(k) ==> o.has_index(k) && k < index && !(k < other < index
                && o.has_index(other))
            &&& r is None ==> !(other < index && o.has_index(other))
        },
        !o.object_type.is_assoc_array ==> {
            &&& index > 0 ==> r == Some((index - 1) as i32)
            &&& index <= 0 ==> r is None
        },
{
    if o.object_type.is_assoc_array && o.has_index(other) {
        assert(o@.indexed.dom().contains(other));
    }
}

/// A value is stored at an index exactly where it fits and, in a list, where an element is there
/// already; a value that does not fit is refused first. The size of a list stays.
pub proof fn law_store_needs_a_place(
    o: DbObject,
    after: ObjectModel,
    r: Result<(), Fault>,
    index: i32,
    v: StoredFacets,
    handle: usize,
)
    requires
        o.checked_element_set(after, r, index, v, handle),
    ensures
        r is Ok <==> o.element_fault(index, v) is None && (o.object_type.is_assoc_array || 0 <= index
            < o@.elements.len()),
        r is Err ==> after == o@,
        o.element_fault(index, v) is Some ==> (r matches Err(f) && f@ == o.element_fault(
            index,
            v,
        )->0),
        after.elements.len() == o@.elements.len(),
        r is Ok && o.object_type.is_assoc_array ==> after.indexed[index] == handle
            && after.elements == o@.elements,
        r is Ok && !o.object_type.is_assoc_array ==> after.elements[index as int] == handle
            && after.indexed == o@.indexed,
{
}

/// Trimming keeps the front: so many elements go from the end as were asked for, at most all. What
/// is trimmed in two steps is trimmed as in one.
pub proof fn law_trim_takes_from_the_end(m: ObjectModel, n: i32, i: int, a: i32, b: i32)
    requires
        0 <= a,
        0 <= b,
        a + b <= i32::MAX,
    ensures
        n <= 0 ==> m.shortened(n) == m,
        0 <= n <= m.elements.len() ==> m.shortened(n).elements.len() == m.elements.len() - n,
        n >= m.elements.len() && n > 0 ==> m.shortened(n).elements.len() == 0,
        0 <= i < m.shortened(n).elements.len() ==> m.shortened(n).elements[i] == m.elements[i],
        m.shortened(a).shortened(b).elements == m.shortened((a + b) as i32).elements,
        m.shortened(n).indexed == m.indexed && m.shortened(n).attrs == m.attrs,
{
    assert(m.shortened(a).shortened(b).elements =~= m.shortened((a + b) as i32).elements);
}

/// The size counts the elements: appending makes it one larger, an empty collection has none.
pub proof fn law_size_counts_elements(o: DbObject, after: DbObject, handle: usize)
    requires
        after.object_type == o.object_type,
        after@ == o.appended(handle),
        o@.indexed.dom().finite(),
        !o@.indexed.dom().contains(i32::MAX),
    ensures
        after.size() == o.size() + 1,
        o.object_type.is_assoc_array && o@.indexed =~= Map::empty() ==> o.size() == 0,
        !o.object_type.is_assoc_array && o@.elements.len() == 0 ==> o.size() == 0,
{
    if o.object_type.is_assoc_array {
        let m = o@.indexed;
        let at = o.append_index();
        if m.dom().contains(at) {
            lemma_greatest_exists(m, at);
            let k = last_of(m)->0;
            assert(greatest(m, k));
            assert(m.dom().contains(k));
            assert(at == k + 1);
            assert(at <= k);
        }
        assert(after@.indexed.dom() =~= m.dom().insert(at));
        if m =~= Map::empty() {
            assert(m.dom() =~= Set::empty());
        }
    }
}

/// A packed object holds attributes exactly where its type is no collection; the elements of an
/// associative array come with their indices.
pub proof fn law_packed_form_follows_the_type(o: DbObject, r: Result<PackedShape, Fault>)
    requires
        o.packed_as(r),
    ensures
        !o.object_type.is_collection <==> r == Ok::<PackedShape, Fault>(PackedShape::Attributes),
        o.object_type.is_collection && o.object_type.element_metadata is Some ==> {
            &&& o.object_type.is_assoc_array ==> r == Ok::<PackedShape, Fault>(
                PackedShape::IndexedElements,
            )
            &&& !o.object_type.is_assoc_array ==> r == Ok::<PackedShape, Fault>(
                PackedShape::Elements,
            )
        },
        r is Err <==> o.object_type.is_collection && o.object_type.element_metadata is None,
{
}

/// The elements of a scalar collection are all sent, each once and in the order of their indices.
pub proof fn law_elements_are_sent_in_order(o: DbObject, i: int, j: int)
    requires
        o.wf(),
        0 <= i < j < o.handles().len(),
    ensures
        !o.object_type.is_assoc_array ==> o.handles().len() == o@.elements.len() && o.handles()[i]
            == o@.elements[i],
        o.object_type.is_assoc_array ==> {
            let at = o.indexed.entries@;
            &&& o.handles().len() == o@.indexed.dom().len()
            &&& o@.indexed.dom().contains(at[i].index) && o.handles()[i] == o@.indexed[at[i].index]
            &&& at[i].index < at[j].index
        },
{
    lemma_by_index(o.indexed.entries@, o.indexed.entries@[i].index);
}

/// An object whose type has an identifier is sent as it is; else a collection of scalars is sent as
/// an array, and nothing else is sent.
pub proof fn law_object_is_sent_by_its_type(o: DbObject, r: Result<ObjectBindPlan, Fault>)
    requires
        o.sent_as(r),
    ensures
        r == Ok::<ObjectBindPlan, Fault>(ObjectBindPlan::Native) <==> o.object_type.oid is Some,
        o.object_type.oid is None ==> (r is Ok <==> o.object_type.is_collection
            && o.object_type.element_metadata is Some
            && o.object_type.element_metadata->0.dbtype_name@ != "DB_TYPE_OBJECT"@),
{
}

/// A fetched object is what was packed, and has nothing else before it is read.
pub proof fn law_fetched_object_is_packed(packed: Seq<u8>, name: Seq<char>)
    ensures
        ObjectModel::fetched(packed).packed == Some(packed),
        ObjectModel::fetched(packed).attribute(name) is None,
        ObjectModel::fetched(packed).elements.len() == 0,
{
}

/// An element is stored exactly where it has a place, and an error names the index and the range.
pub proof fn law_store_names_the_range(
    o: DbObject,
    after: ObjectModel,
    r: Result<(), Fault>,
    index: i32,
    handle: usize,
)
    requires
        o.element_set(after, r, index, handle),
    ensures
        r is Ok <==> o.object_type.is_assoc_array || 0 <= index < o@.elements.len(),
        r matches Err(f) ==> after == o@ && (f@ matches FaultView::InvalidCollIndexSet {
            index: i,
            min_index,
            max_index,
        } && i == index && min_index == 0 && (1 <= o@.elements.len() <= i32::MAX ==> max_index
            == o@.elements.len() - 1) && (o@.elements.len() == 0 ==> max_index == 0)),
{
}

} // verus!
