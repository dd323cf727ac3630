//! Objects as constructor expressions in the SQL text.
//!
//! An object that is bound by value is written as a call of its type's constructor, whose arguments
//! are placeholders of their own. The values that the new placeholders stand for are referred to by
//! handle.
use vstd::prelude::*;

use crate::binds::{has_bind_payload, positional_bind_items, ContainerKind, Payload};
#[allow(unused_imports)]
use crate::binds::{has_payload, positional_kind};
use crate::errors::{ErrorName, Fault};
#[allow(unused_imports)]
use crate::errors::FaultView;
use crate::text::{join2, join3, owned, same_text};

verus! {

/// A value as far as it matters for constructor expressions.
pub enum ObjectValue {
    Null,
    Scalar { handle: usize, is_text: bool },
    /// A variable of an object type that holds no value.
    NullVar { handle: usize, fqn: String, is_collection: bool },
    Object(ObjectTree),
}

/// An object with its attributes, or a collection with its elements.
pub struct ObjectTree {
    pub handle: usize,
    /// The qualified name of the type.
    pub fqn: String,
    pub is_collection: bool,
    pub is_assoc_array: bool,
    /// The type is declared in a package.
    pub in_package: bool,
    pub children: Vec<ObjectChild>,
}

/// An attribute or element, and the name of the placeholder that may be made for it.
pub struct ObjectChild {
    pub bind_name: String,
    /// The attribute is a binary LOB.
    pub is_blob: bool,
    pub value: ObjectValue,
}

/// A placeholder that an expression makes, and the value that it stands for.
pub struct AddedBind {
    pub name: String,
    pub handle: usize,
}

impl ObjectValue {
    pub open spec fn handle(self) -> usize {
        match self {
            ObjectValue::Null => 0,
            ObjectValue::Scalar { handle, is_text } => handle,
            ObjectValue::NullVar { handle, fqn, is_collection } => handle,
            ObjectValue::Object(t) => t.handle,
        }
    }

    fn get_handle(&self) -> (r: usize)
        ensures
            r == self.handle(),
    {
        match self {
            ObjectValue::Null => 0,
            ObjectValue::Scalar { handle, is_text: _ } => *handle,
            ObjectValue::NullVar { handle, fqn: _, is_collection: _ } => *handle,
            ObjectValue::Object(t) => t.handle,
        }
    }
}

impl ObjectTree {
    /// The object can be written as a constructor call.
    pub open spec fn constructible(self) -> bool {
        if self.is_collection {
            !self.is_assoc_array && !self.in_package
        } else {
            self.children@.len() > 0
        }
    }
}

/// The expression that a value is written as, if it is written at all.
pub open spec fn expr_of(v: ObjectValue, allow_null_cast: bool) -> Option<Seq<char>>
    decreases v,
{
    match v {
        ObjectValue::Object(t) => if t.constructible() {
            Some(t.fqn@ + "("@ + args_of(t.children@, t.is_collection) + ")"@)
        } else {
            None
        },
        ObjectValue::NullVar { handle, fqn, is_collection } => if allow_null_cast
            && !is_collection {
            Some("cast(null as "@ + fqn@ + ")"@)
        } else {
            None
        },
        _ => None,
    }
}

/// The argument that an attribute or element is written as.
pub open spec fn arg_of(c: ObjectChild, of_collection: bool) -> Seq<char>
    decreases c,
{
    if c.value is Null {
        "null"@
    } else {
        match expr_of(c.value, true) {
            Some(e) => e,
            None => if !of_collection && c.is_blob && c.value is Scalar && c.value->is_text {
                "utl_raw.cast_to_raw(:"@ + c.bind_name@ + ")"@
            } else {
                ":"@ + c.bind_name@
            },
        }
    }
}

/// The arguments of a constructor, with commas between them.
pub open spec fn args_of(children: Seq<ObjectChild>, of_collection: bool) -> Seq<char>
    decreases children,
{
    if children.len() == 0 {
        Seq::empty()
    } else if children.len() == 1 {
        arg_of(children[0], of_collection)
    } else {
        args_of(children.drop_last(), of_collection) + ", "@ + arg_of(
            children.last(),
            of_collection,
        )
    }
}

/// The placeholders that the expression of a value makes, in order.
pub open spec fn added_by(v: ObjectValue) -> Seq<(Seq<char>, usize)>
    decreases v,
{
    match v {
        ObjectValue::Object(t) => if t.constructible() {
            added_by_all(t.children@)
        } else {
            Seq::empty()
        },
        _ => Seq::empty(),
    }
}

pub open spec fn added_by_child(c: ObjectChild) -> Seq<(Seq<char>, usize)>
    decreases c,
{
    if c.value is Null {
        Seq::empty()
    } else if expr_of(c.value, true) is Some {
        added_by(c.value)
    } else {
        seq![(c.bind_name@, c.value.handle())]
    }
}

pub open spec fn added_by_all(children: Seq<ObjectChild>) -> Seq<(Seq<char>, usize)>
    decreases children,
{
    if children.len() == 0 {
        Seq::empty()
    } else {
        added_by_all(children.drop_last()) + added_by_child(children.last())
    }
}

pub open spec fn bind_views(s: Seq<AddedBind>) -> Seq<(Seq<char>, usize)> {
    s.map_values(|x: AddedBind| (x.name@, x.handle))
}

/// Writes a value as an expression, if it is written at all, and adds the placeholders that the
/// expression makes.
pub fn object_bind_sql_expr(
    value: &ObjectValue,
    allow_null_cast: bool,
    added: &mut Vec<AddedBind>,
) -> (r: Option<String>)
    ensures
        match r {
            Some(s) => expr_of(*value, allow_null_cast) == Some(s@) && bind_views(final(added)@)
                == bind_views(old(added)@) + added_by(*value),
            None => expr_of(*value, allow_null_cast) is None && final(added)@ == old(added)@,
        },
    decreases value,
{
    match value {
        ObjectValue::Object(t) => {
            let constructible = if t.is_collection {
                !t.is_assoc_array && !t.in_package
            } else {
                t.children.len() > 0
            };
            if !constructible {
                return None;
            }
            let mut args = String::new();
            let ghost start = added@;
            let mut i: usize = 0;
            proof {
                assert(t.children@.take(0) =~= Seq::<ObjectChild>::empty());
                assert(args@ =~= args_of(t.children@.take(0), t.is_collection));
                assert(bind_views(added@) =~= bind_views(start) + added_by_all(
                    t.children@.take(0),
                ));
            }
            while i < t.children.len()
                invariant
                    *value == ObjectValue::Object(*t),
                    i <= t.children@.len(),
                    args@ == args_of(t.children@.take(i as int), t.is_collection),
                    bind_views(added@) == bind_views(start) + added_by_all(
                        t.children@.take(i as int),
                    ),
                decreases t.children@.len() - i,
            {
                let c = &t.children[i];
                let ghost shorter = t.children@.take(i as int);
                let ghost longer = t.children@.take(i + 1);
                let ghost before = added@;
                proof {
                    assert(longer.drop_last() =~= shorter);
                    assert(longer.last() == *c);
                    assert(decreases_to!(*value => value->0));
                    assert(decreases_to!(*t => t.children));
                    assert(decreases_to!(t.children => t.children@));
                    assert(decreases_to!(t.children@ => t.children@[i as int]));
                    assert(decreases_to!(*c => c.value));
                    assert(decreases_to!(*value => c.value));
                }
                let is_null = match &c.value {
                    ObjectValue::Null => true,
                    _ => false,
                };
                let arg = if is_null {
                    owned("null")
                } else {
                    match object_bind_sql_expr(&c.value, true, added) {
                        Some(e) => e,
                        None => {
                            added.push(
                                AddedBind { name: c.bind_name.clone(), handle: c.value.get_handle() },
                            );
                            proof {
                                assert(bind_views(added@) =~= bind_views(before).push(
                                    (c.bind_name@, c.value.handle()),
                                ));
                                assert(bind_views(before).push((c.bind_name@, c.value.handle()))
                                    =~= bind_views(before) + seq![
                                    (c.bind_name@, c.value.handle()),
                                ]);
                            }
                            object_attr_bind_sql_expr(c, t.is_collection)
                        },
                    }
                };
                proof {
                    assert(bind_views(added@) =~= bind_views(before) + added_by_child(*c));
                    assert(bind_views(start) + (added_by_all(shorter) + added_by_child(*c))
                        =~= (bind_views(start) + added_by_all(shorter)) + added_by_child(*c));
                    assert(arg@ == arg_of(*c, t.is_collection));
                }
                if i > 0 {
                    args.append(", ");
                }
                args.append(arg.as_str());
                proof {
                    if i == 0 {
                        assert(shorter =~= Seq::<ObjectChild>::empty());
                        assert(longer[0] == *c);
                        assert(args@ =~= arg@);
                    }
                }
                i = i + 1;
            }
            proof {
                assert(t.children@.take(t.children@.len() as int) =~= t.children@);
            }
            let mut r = join3(t.fqn.as_str(), "(", args.as_str());
            r.append(")");
            Some(r)
        },
        ObjectValue::NullVar { handle: _, fqn, is_collection } => {
            if allow_null_cast && !*is_collection {
                proof {
                    assert(bind_views(added@) + Seq::empty() =~= bind_views(added@));
                }
                Some(join3("cast(null as ", fqn.as_str(), ")"))
            } else {
                None
            }
        },
        _ => None,
    }
}

/// The placeholder of an attribute or element. A text for a binary LOB attribute is cast.
fn object_attr_bind_sql_expr(c: &ObjectChild, of_collection: bool) -> (r: String)
    requires
        !(c.value is Null),
        expr_of(c.value, true) is None,
    ensures
        r@ == arg_of(*c, of_collection),
{
    let is_text = match &c.value {
        ObjectValue::Scalar { handle: _, is_text } => *is_text,
        _ => false,
    };
    if !of_collection && c.is_blob && is_text {
        join3("utl_raw.cast_to_raw(:", c.bind_name.as_str(), ")")
    } else {
        join2(":", c.bind_name.as_str())
    }
}

/// A mapping in order of insertion.
pub open spec fn dict_index(d: Seq<(Seq<char>, usize)>, key: Seq<char>, from: int) -> Option<int>
    decreases d.len() - from,
{
    if from < 0 || from >= d.len() {
        None
    } else if d[from].0 == key {
        Some(from)
    } else {
        dict_index(d, key, from + 1)
    }
}

/// The mapping after a key was set: a key that is there keeps its place.
pub open spec fn dict_set(d: Seq<(Seq<char>, usize)>, key: Seq<char>, handle: usize) -> Seq<
    (Seq<char>, usize),
> {
    match dict_index(d, key, 0) {
        Some(i) => d.update(i, (key, handle)),
        None => d.push((key, handle)),
    }
}

/// The mapping after a key was deleted.
pub open spec fn dict_del(d: Seq<(Seq<char>, usize)>, key: Seq<char>) -> Seq<(Seq<char>, usize)> {
    match dict_index(d, key, 0) {
        Some(i) => d.remove(i),
        None => d,
    }
}

/// The mapping after keys were set one after the other.
pub open spec fn dict_set_all(
    d: Seq<(Seq<char>, usize)>,
    entries: Seq<(Seq<char>, usize)>,
) -> Seq<(Seq<char>, usize)>
    decreases entries.len(),
{
    if entries.len() == 0 {
        d
    } else {
        dict_set(dict_set_all(d, entries.drop_last()), entries.last().0, entries.last().1)
    }
}

fn find_key(d: &Vec<AddedBind>, key: &str) -> (r: Option<usize>)
    ensures
        match r {
            Some(i) => dict_index(bind_views(d@), key@, 0) == Some(i as int) && i < d@.len(),
            None => dict_index(bind_views(d@), key@, 0) is None,
        },
{
    let mut i: usize = 0;
    while i < d.len()
        invariant
            i <= d@.len(),
            dict_index(bind_views(d@), key@, 0) == dict_index(bind_views(d@), key@, i as int),
        decreases d@.len() - i,
    {
        if same_text(d[i].name.as_str(), key) {
            return Some(i);
        }
        i = i + 1;
    }
    None
}

fn set_key(d: &mut Vec<AddedBind>, name: String, handle: usize)
    ensures
        bind_views(final(d)@) == dict_set(bind_views(old(d)@), name@, handle),
{
    let ghost before = d@;
    let ghost key = name@;
    match find_key(d, name.as_str()) {
        Some(i) => {
            d.set(i, AddedBind { name, handle });
            proof {
                assert(bind_views(d@) =~= bind_views(before).update(i as int, (key, handle)));
            }
        },
        None => {
            d.push(AddedBind { name, handle });
            proof {
                assert(bind_views(d@) =~= bind_views(before).push((key, handle)));
            }
        },
    }
}

fn del_key(d: &mut Vec<AddedBind>, key: &str)
    ensures
        bind_views(final(d)@) == dict_del(bind_views(old(d)@), key@),
{
    let ghost before = d@;
    match find_key(d, key) {
        Some(i) => {
            d.remove(i);
            proof {
                assert(bind_views(d@) =~= bind_views(before).remove(i as int));
            }
        },
        None => {},
    }
}

/// A named parameter.
pub struct NamedValue {
    pub key: String,
    pub handle: usize,
    pub value: ObjectValue,
    /// The name is that of a function's return value or of a `RETURNING` clause.
    pub is_return: bool,
}

/// A placeholder of the statement that is replaced by an expression.
pub struct Replacement {
    pub key: String,
    pub expr: String,
}

pub open spec fn replacement_views(s: Seq<Replacement>) -> Seq<(Seq<char>, Seq<char>)> {
    s.map_values(|x: Replacement| (x.key@, x.expr@))
}

/// The parameters as a mapping.
pub open spec fn entry_dict(entries: Seq<NamedValue>) -> Seq<(Seq<char>, usize)> {
    entries.map_values(|e: NamedValue| (e.key@, e.handle))
}

pub open spec fn entry_expr(e: NamedValue) -> Option<Seq<char>> {
    expr_of(e.value, !e.is_return)
}

/// The replacements that the first `n` parameters give, in order.
pub open spec fn replacements_of(entries: Seq<NamedValue>, n: int) -> Seq<(Seq<char>, Seq<char>)>
    decreases n,
{
    if n <= 0 {
        Seq::empty()
    } else {
        match entry_expr(entries[n - 1]) {
            Some(e) => replacements_of(entries, n - 1).push((entries[n - 1].key@, e)),
            None => replacements_of(entries, n - 1),
        }
    }
}

/// The mapping after the first `n` parameters were looked at: a parameter that was written as an
/// expression makes way for the placeholders of the expression.
pub open spec fn rewritten_dict(entries: Seq<NamedValue>, n: int) -> Seq<(Seq<char>, usize)>
    decreases n,
{
    if n <= 0 {
        entry_dict(entries)
    } else {
        let d = rewritten_dict(entries, n - 1);
        let e = entries[n - 1];
        if entry_expr(e) is Some {
            dict_del(dict_set_all(d, added_by(e.value)), e.key@)
        } else {
            d
        }
    }
}

/// The statement's new parameters, and what is replaced in its text.
pub struct Rewritten {
    pub replacements: Vec<Replacement>,
    pub dict: Vec<AddedBind>,
}

fn set_all(d: &mut Vec<AddedBind>, added: &Vec<AddedBind>)
    ensures
        bind_views(final(d)@) == dict_set_all(bind_views(old(d)@), bind_views(added@)),
{
    let ghost start = d@;
    let mut i: usize = 0;
    proof {
        assert(bind_views(added@).take(0) =~= Seq::<(Seq<char>, usize)>::empty());
    }
    while i < added.len()
        invariant
            i <= added@.len(),
            bind_views(d@) == dict_set_all(bind_views(start), bind_views(added@).take(i as int)),
        decreases added@.len() - i,
    {
        proof {
            let longer = bind_views(added@).take(i + 1);
            assert(longer.drop_last() =~= bind_views(added@).take(i as int));
            assert(longer.last() == (added@[i as int].name@, added@[i as int].handle));
        }
        set_key(d, added[i].name.clone(), added[i].handle);
        i = i + 1;
    }
    proof {
        assert(bind_views(added@).take(added@.len() as int) =~= bind_views(added@));
    }
}

/// Writes the objects among named parameters as expressions.
pub fn rewrite_object_bind_dict(entries: &Vec<NamedValue>) -> (r: Rewritten)
    ensures
        replacement_views(r.replacements@) == replacements_of(entries@, entries@.len() as int),
        bind_views(r.dict@) == rewritten_dict(entries@, entries@.len() as int),
{
    let mut dict: Vec<AddedBind> = Vec::new();
    let mut k: usize = 0;
    while k < entries.len()
        invariant
            k <= entries@.len(),
            bind_views(dict@) == entry_dict(entries@).take(k as int),
        decreases entries@.len() - k,
    {
        let ghost before = dict@;
        dict.push(AddedBind { name: entries[k].key.clone(), handle: entries[k].handle });
        proof {
            assert(bind_views(dict@) =~= bind_views(before).push(
                (entries@[k as int].key@, entries@[k as int].handle),
            ));
            assert(entry_dict(entries@).take(k + 1) =~= entry_dict(entries@).take(k as int).push(
                (entries@[k as int].key@, entries@[k as int].handle),
            ));
        }
        k = k + 1;
    }
    proof {
        assert(entry_dict(entries@).take(entries@.len() as int) =~= entry_dict(entries@));
    }
    let mut replacements: Vec<Replacement> = Vec::new();
    let mut i: usize = 0;
    proof {
        assert(replacement_views(replacements@) =~= replacements_of(entries@, 0));
    }
    while i < entries.len()
        invariant
            i <= entries@.len(),
            replacement_views(replacements@) == replacements_of(entries@, i as int),
            bind_views(dict@) == rewritten_dict(entries@, i as int),
        decreases entries@.len() - i,
    {
        let e = &entries[i];
        let mut added: Vec<AddedBind> = Vec::new();
        let ghost none_added = added@;
        if let Some(expr) = object_bind_sql_expr(&e.value, !e.is_return, &mut added) {
            proof {
                assert(bind_views(none_added) =~= Seq::<(Seq<char>, usize)>::empty());
                assert(bind_views(added@) =~= added_by(e.value));
            }
            set_all(&mut dict, &added);
            del_key(&mut dict, e.key.as_str());
            let ghost before = replacements@;
            let ghost text = expr@;
            replacements.push(Replacement { key: e.key.clone(), expr });
            proof {
                assert(replacement_views(replacements@) =~= replacement_views(before).push(
                    (e.key@, text),
                ));
            }
        }
        i = i + 1;
    }
    Rewritten { replacements, dict }
}

/// Without objects among the parameters nothing is rewritten.
pub proof fn law_scalars_stay(entries: Seq<NamedValue>, n: int)
    requires
        0 <= n <= entries.len(),
        forall|i: int| 0 <= i < entries.len() ==> (#[trigger] entries[i]).value is Scalar,
    ensures
        replacements_of(entries, n) == Seq::<(Seq<char>, Seq<char>)>::empty(),
        rewritten_dict(entries, n) == entry_dict(entries),
    decreases n,
{
    if n > 0 {
        law_scalars_stay(entries, n - 1);
        assert(entries[n - 1].value is Scalar);
    }
}

/// Where the parameters of an execution come from.
#[derive(Clone, Copy, PartialEq, Eq, Structural, Debug)]
pub enum BindSourceKind {
    Parameters,
    Keywords,
}

pub open spec fn source_found(
    r: Result<Option<BindSourceKind>, Fault>,
    parameters: Option<Payload>,
    keywords: Option<Payload>,
    placeholders: usize,
) -> bool {
    if has_payload(parameters) && has_payload(keywords) {
        r == Ok::<Option<BindSourceKind>, Fault>(None)
    } else if has_payload(keywords) {
        r == Ok::<Option<BindSourceKind>, Fault>(
            if keywords->0.kind == ContainerKind::Dict {
                Some(BindSourceKind::Keywords)
            } else {
                None
            },
        )
    } else if has_payload(parameters) {
        if parameters->0.kind == ContainerKind::Dict {
            r == Ok::<Option<BindSourceKind>, Fault>(Some(BindSourceKind::Parameters))
        } else if !positional_kind(parameters->0.kind) {
            r matches Err(f) && f@ == FaultView::Named(ErrorName::WrongExecuteParametersType)
        } else {
            r == Ok::<Option<BindSourceKind>, Fault>(
                if parameters->0.items == placeholders {
                    Some(BindSourceKind::Parameters)
                } else {
                    None
                },
            )
        }
    } else {
        r == Ok::<Option<BindSourceKind>, Fault>(None)
    }
}

/// Which parameters may hold objects to be written as expressions: named ones, or one positional
/// value per placeholder.
pub fn object_inputs_source(
    parameters: Option<Payload>,
    keywords: Option<Payload>,
    placeholders: usize,
) -> (r: Result<Option<BindSourceKind>, Fault>)
    ensures
        source_found(r, parameters, keywords, placeholders),
{
    let has_parameters = has_bind_payload(parameters);
    let has_keywords = has_bind_payload(keywords);
    if has_parameters && has_keywords {
        return Ok(None);
    }
    if has_keywords {
        return match keywords {
            Some(k) => if k.kind == ContainerKind::Dict {
                Ok(Some(BindSourceKind::Keywords))
            } else {
                Ok(None)
            },
            None => Ok(None),
        };
    }
    if has_parameters {
        return match parameters {
            Some(p) => if p.kind == ContainerKind::Dict {
                Ok(Some(BindSourceKind::Parameters))
            } else {
                match positional_bind_items(&p) {
                    Ok(n) => if n == placeholders {
                        Ok(Some(BindSourceKind::Parameters))
                    } else {
                        Ok(None)
                    },
                    Err(f) => Err(f),
                }
            },
            None => Ok(None),
        };
    }
    Ok(None)
}

/// What an execution binds once its objects were written as expressions.
pub enum ObjectInputs {
    /// The statement and its parameters as they were given.
    Unchanged,
    /// New parameters, in the place of those that were given, for the rewritten statement.
    Changed { source: BindSourceKind, dict: Vec<AddedBind> },
}

pub open spec fn inputs_settled(
    source: BindSourceKind,
    rewritten: Rewritten,
    projected: bool,
) -> ObjectInputs {
    if rewritten.replacements@.len() > 0 || projected {
        ObjectInputs::Changed { source, dict: rewritten.dict }
    } else {
        ObjectInputs::Unchanged
    }
}

/// Settles what an execution binds. `projected` says that the `RETURNING` clause was rewritten to
/// return an attribute of an object.
pub fn prepare_object_execute_inputs(
    source: BindSourceKind,
    rewritten: Rewritten,
    projected: bool,
) -> (r: ObjectInputs)
    ensures
        r == inputs_settled(source, rewritten, projected),
{
    if rewritten.replacements.len() > 0 || projected {
        ObjectInputs::Changed { source, dict: rewritten.dict }
    } else {
        ObjectInputs::Unchanged
    }
}

/// An object is written as a call of its type's constructor, unless it is an object without
/// attributes, an associative array or a collection of a package. A variable without a value is cast
/// where that is allowed and it is no collection; nothing else is written.
pub proof fn law_objects_are_written_as_constructors(v: ObjectValue, allow_null_cast: bool)
    ensures
        v matches ObjectValue::Object(t) ==> {
            &&& !t.is_collection ==> (expr_of(v, allow_null_cast) is Some <==> t.children@.len() > 0)
            &&& t.is_collection ==> (expr_of(v, allow_null_cast) is Some <==> !t.is_assoc_array
                && !t.in_package)
            &&& expr_of(v, allow_null_cast) matches Some(e) ==> {
                let n = t.fqn@.len() as int;
                &&& e.take(n) == t.fqn@ && e[n] == '(' && e.last() == ')'
                &&& e.subrange(n + 1, e.len() - 1) == args_of(t.children@, t.is_collection)
            }
        },
        v matches ObjectValue::NullVar { handle, fqn, is_collection } ==> {
            &&& expr_of(v, allow_null_cast) is Some <==> allow_null_cast && !is_collection
            &&& expr_of(v, allow_null_cast) matches Some(e) ==> e.subrange(13, e.len() - 1) == fqn@
        },
        v is Scalar || v is Null ==> expr_of(v, allow_null_cast) is None,
{
    reveal_strlit("(");
    reveal_strlit(")");
    reveal_strlit("cast(null as ");
    if let Some(e) = expr_of(v, allow_null_cast) {
        if let ObjectValue::Object(t) = v {
            let n = t.fqn@.len() as int;
            assert(e.take(n) =~= t.fqn@);
            assert(e.subrange(n + 1, e.len() - 1) =~= args_of(t.children@, t.is_collection));
        }
        if let ObjectValue::NullVar { handle, fqn, is_collection } = v {
            assert(e.subrange(13, e.len() - 1) =~= fqn@);
        }
    }
}

/// A scalar attribute is written as its placeholder, which stands for its value; a text for a binary
/// object of an attribute is cast. `None` is written as null and needs no placeholder.
pub proof fn law_attributes_are_written_as_placeholders(c: ObjectChild, of_collection: bool)
    ensures
        c.value is Null ==> arg_of(c, of_collection) == "null"@ && added_by_child(c).len() == 0,
        c.value matches ObjectValue::Scalar { handle, is_text } ==> {
            &&& added_by_child(c) == seq![(c.bind_name@, handle)]
            &&& of_collection || !c.is_blob || !is_text ==> arg_of(c, of_collection).len()
                == c.bind_name@.len() + 1 && arg_of(c, of_collection)[0] == ':' && arg_of(
                c,
                of_collection,
            ).skip(1) == c.bind_name@
            &&& !of_collection && c.is_blob && is_text ==> arg_of(c, of_collection).subrange(
                21,
                (21 + c.bind_name@.len()) as int,
            ) == c.bind_name@ && arg_of(c, of_collection)[0] == 'u' && arg_of(
                c,
                of_collection,
            )[20] == ':'
        },
        expr_of(c.value, true) matches Some(e) ==> arg_of(c, of_collection) == e && added_by_child(c)
            == added_by(c.value),
{
    reveal_strlit(":");
    reveal_strlit(")");
    reveal_strlit("utl_raw.cast_to_raw(:");
    if c.value is Scalar {
        assert(expr_of(c.value, true) is None);
        let a = arg_of(c, of_collection);
        if !of_collection && c.is_blob && c.value->is_text {
            assert(a.subrange(21, (21 + c.bind_name@.len()) as int) =~= c.bind_name@);
        } else {
            assert(a.skip(1) =~= c.bind_name@);
        }
    }
}

/// The arguments stand in the order of the attributes, with a comma and a blank between each two; the
/// placeholders come in the same order.
pub proof fn law_arguments_stand_in_order(
    children: Seq<ObjectChild>,
    c: ObjectChild,
    of_collection: bool,
)
    ensures
        children.len() == 0 ==> args_of(children.push(c), of_collection) == arg_of(c, of_collection),
        children.len() > 0 ==> args_of(children.push(c), of_collection) == args_of(
            children,
            of_collection,
        ) + seq![',', ' '] + arg_of(c, of_collection),
        added_by_all(children.push(c)) == added_by_all(children) + added_by_child(c),
        added_by_all(Seq::empty()).len() == 0,
{
    reveal_strlit(", ");
    assert(", "@ =~= seq![',', ' ']);
    assert(children.push(c).drop_last() =~= children);
    assert(children.push(c).last() == c);
    if children.len() == 0 {
        assert(children.push(c)[0] == c);
    }
}

/// An object whose attributes are all scalars makes one placeholder for each, in order, and each
/// stands for its attribute's value.
pub proof fn law_each_scalar_attribute_gets_a_placeholder(children: Seq<ObjectChild>, i: int)
    requires
        forall|j: int| 0 <= j < children.len() ==> (#[trigger] children[j]).value is Scalar,
        0 <= i < children.len(),
    ensures
        added_by_all(children).len() == children.len(),
        added_by_all(children)[i] == (children[i].bind_name@, children[i].value.handle()),
    decreases children.len(),
{
    let front = children.drop_last();
    let last = children.last();
    assert(last.value is Scalar);
    law_attributes_are_written_as_placeholders(last, false);
    law_arguments_stand_in_order(front, last, false);
    assert(front.push(last) =~= children);
    assert forall|j: int| 0 <= j < front.len() implies (#[trigger] front[j]).value is Scalar by {
        assert(front[j] == children[j]);
    }
    if front.len() > 0 {
        law_each_scalar_attribute_gets_a_placeholder(
            front,
            if i < front.len() {
                i
            } else {
                0
            },
        );
    } else {
        assert(added_by_all(front).len() == 0);
    }
}

/// The value under a key.
pub open spec fn dict_get(d: Seq<(Seq<char>, usize)>, key: Seq<char>) -> Option<usize> {
    match dict_index(d, key, 0) {
        Some(i) => Some(d[i].1),
        None => None,
    }
}

/// No key occurs twice.
pub open spec fn dict_keys_differ(d: Seq<(Seq<char>, usize)>) -> bool {
    forall|i: int, j: int| 0 <= i < j < d.len() ==> (#[trigger] d[i]).0 != (#[trigger] d[j]).0
}

proof fn lemma_dict_index(d: Seq<(Seq<char>, usize)>, key: Seq<char>, from: int)
    requires
        0 <= from,
    ensures
        match dict_index(d, key, from) {
            Some(i) => from <= i < d.len() && d[i].0 == key && forall|j: int|
                from <= j < i ==> (#[trigger] d[j]).0 != key,
            None => forall|j: int| from <= j < d.len() ==> (#[trigger] d[j]).0 != key,
        },
    decreases d.len() - from,
{
    if from < d.len() && d[from].0 != key {
        lemma_dict_index(d, key, from + 1);
        match dict_index(d, key, from + 1) {
            Some(i) => {
                assert forall|j: int| from <= j < i implies (#[trigger] d[j]).0 != key by {}
            },
            None => {
                assert forall|j: int| from <= j < d.len() implies (#[trigger] d[j]).0 != key by {}
            },
        }
    }
}

/// A key that was set has its value, a key that was deleted has none, and every other key keeps its
/// own.
pub proof fn law_parameters_keep_their_values(
    d: Seq<(Seq<char>, usize)>,
    key: Seq<char>,
    handle: usize,
    other: Seq<char>,
)
    requires
        dict_keys_differ(d),
    ensures
        dict_get(dict_set(d, key, handle), key) == Some(handle),
        other != key ==> dict_get(dict_set(d, key, handle), other) == dict_get(d, other),
        dict_get(dict_del(d, key), key) is None,
        other != key ==> dict_get(dict_del(d, key), other) == dict_get(d, other),
        dict_keys_differ(dict_set(d, key, handle)),
        dict_keys_differ(dict_del(d, key)),
{
    let s = dict_set(d, key, handle);
    let r = dict_del(d, key);
    lemma_dict_index(d, key, 0);
    lemma_dict_index(d, other, 0);
    lemma_dict_index(s, key, 0);
    lemma_dict_index(s, other, 0);
    lemma_dict_index(r, key, 0);
    lemma_dict_index(r, other, 0);
    match dict_index(d, key, 0) {
        Some(i) => {
            assert(s[i] == (key, handle));
            assert forall|j: int| 0 <= j < d.len() && j != i implies #[trigger] s[j] == d[j] by {}
            assert forall|a: int, b: int| 0 <= a < b < s.len() implies (#[trigger] s[a]).0 != (
            #[trigger] s[b]).0 by {
                assert(d[a].0 != d[b].0);
            }
            assert forall|j: int| 0 <= j < r.len() implies #[trigger] r[j] == d[if j < i {
                j
            } else {
                j + 1
            }] by {}
            assert forall|a: int, b: int| 0 <= a < b < r.len() implies (#[trigger] r[a]).0 != (
            #[trigger] r[b]).0 by {
                let x = if a < i {
                    a
                } else {
                    a + 1
                };
                let y = if b < i {
                    b
                } else {
                    b + 1
                };
                assert(d[x].0 != d[y].0);
            }
            assert forall|j: int| 0 <= j < r.len() implies (#[trigger] r[j]).0 != key by {
                let x = if j < i {
                    j
                } else {
                    j + 1
                };
                if x < i {
                    assert(d[x].0 != d[i].0);
                } else {
                    assert(d[i].0 != d[x].0);
                }
            }
            if other != key {
                match dict_index(d, other, 0) {
                    Some(k) => {
                        assert(s[k].0 == other);
                        let x = dict_index(s, other, 0)->0;
                        assert(s[x].0 == other);
                        if x < k {
                            assert(s[x].0 != s[k].0);
                        } else if k < x {
                            assert(s[k].0 != s[x].0);
                        }
                        let k2 = if k < i {
                            k
                        } else {
                            k - 1
                        };
                        assert(r[k2].0 == other);
                        let y = dict_index(r, other, 0)->0;
                        if y < k2 {
                            assert(r[y].0 != r[k2].0);
                        } else if k2 < y {
                            assert(r[k2].0 != r[y].0);
                        }
                    },
                    None => {
                        if dict_index(s, other, 0) is Some {
                            let x = dict_index(s, other, 0)->0;
                            assert(x != i);
                            assert(d[x].0 == other);
                        }
                        if dict_index(r, other, 0) is Some {
                            let y = dict_index(r, other, 0)->0;
                            let x = if y < i {
                                y
                            } else {
                                y + 1
                            };
                            assert(d[x].0 == other);
                        }
                    },
                }
            }
        },
        None => {
            let n = d.len() as int;
            assert(s[n] == (key, handle));
            assert forall|j: int| 0 <= j < n implies #[trigger] s[j] == d[j] by {}
            assert forall|a: int, b: int| 0 <= a < b < s.len() implies (#[trigger] s[a]).0 != (
            #[trigger] s[b]).0 by {
                if b < n {
                    assert(d[a].0 != d[b].0);
                } else {
                    assert(d[a].0 != key);
                }
            }
            if dict_index(s, key, 0) is Some && dict_index(s, key, 0)->0 < n {
                assert(d[dict_index(s, key, 0)->0].0 == key);
            }
            if other != key {
                match dict_index(d, other, 0) {
                    Some(k) => {
                        assert(s[k].0 == other);
                        let x = dict_index(s, other, 0)->0;
                        if x < k {
                            assert(s[x].0 != s[k].0);
                        } else if k < x {
                            assert(s[k].0 != s[x].0);
                        }
                    },
                    None => {
                        if dict_index(s, other, 0) is Some {
                            let x = dict_index(s, other, 0)->0;
                            assert(x < n);
                            assert(d[x].0 == other);
                        }
                    },
                }
            }
        },
    }
}

/// Each parameter that is written as an expression is replaced in the statement, under its own name
/// and in order; no other is.
pub proof fn law_written_parameters_are_replaced(entries: Seq<NamedValue>, n: int)
    requires
        0 <= n < entries.len(),
    ensures
        expr_of(entries[n].value, !entries[n].is_return) matches Some(e) ==> replacements_of(
            entries,
            n + 1,
        ) == replacements_of(entries, n).push((entries[n].key@, e)),
        expr_of(entries[n].value, !entries[n].is_return) is None ==> replacements_of(entries, n + 1)
            == replacements_of(entries, n) && rewritten_dict(entries, n + 1) == rewritten_dict(
            entries,
            n,
        ),
        replacements_of(entries, 0).len() == 0,
        rewritten_dict(entries, 0).len() == entries.len(),
{
}

/// A parameter that was written as an expression is bound no more, where its own name is none of the
/// placeholders that the expression made; else it is bound as before.
pub proof fn law_written_parameter_is_bound_no_more(
    entries: Seq<NamedValue>,
    n: int,
    other: Seq<char>,
)
    requires
        0 <= n < entries.len(),
        dict_keys_differ(rewritten_dict(entries, n)),
        expr_of(entries[n].value, !entries[n].is_return) is Some,
        added_by(entries[n].value).len() == 0,
    ensures
        dict_get(rewritten_dict(entries, n + 1), entries[n].key@) is None,
        other != entries[n].key@ ==> dict_get(rewritten_dict(entries, n + 1), other) == dict_get(
            rewritten_dict(entries, n),
            other,
        ),
{
    law_parameters_keep_their_values(rewritten_dict(entries, n), entries[n].key@, 0, other);
}

/// The placeholders that an expression makes are bound to the values that they stand for.
pub proof fn law_new_placeholders_are_bound(
    d: Seq<(Seq<char>, usize)>,
    entries: Seq<(Seq<char>, usize)>,
    i: int,
)
    requires
        dict_keys_differ(d),
        dict_keys_differ(entries),
    ensures
        dict_keys_differ(dict_set_all(d, entries)),
        0 <= i < entries.len() ==> dict_get(dict_set_all(d, entries), entries[i].0) == Some(
            entries[i].1,
        ),
    decreases entries.len(),
{
    if entries.len() > 0 {
        let front = entries.drop_last();
        let last = entries.last();
        assert forall|a: int, b: int| 0 <= a < b < front.len() implies (#[trigger] front[a]).0 != (
        #[trigger] front[b]).0 by {
            assert(entries[a].0 != entries[b].0);
        }
        law_new_placeholders_are_bound(d, front, i);
        law_parameters_keep_their_values(
            dict_set_all(d, front),
            last.0,
            last.1,
            if 0 <= i < entries.len() {
                entries[i].0
            } else {
                last.0
            },
        );
        if 0 <= i < front.len() {
            assert(entries[i].0 != entries[entries.len() - 1].0);
            assert(front[i] == entries[i]);
        }
    }
}

/// Objects are written only among parameters that came one way, by name or one for each placeholder.
/// Parameters that are neither are refused.
pub proof fn law_objects_are_written_among_matching_parameters(
    r: Result<Option<BindSourceKind>, Fault>,
    parameters: Option<Payload>,
    keywords: Option<Payload>,
    placeholders: usize,
)
    requires
        source_found(r, parameters, keywords, placeholders),
    ensures
        r == Ok::<Option<BindSourceKind>, Fault>(Some(BindSourceKind::Keywords)) <==> has_payload(
            keywords,
        ) && !has_payload(parameters) && keywords->0.kind == ContainerKind::Dict,
        r == Ok::<Option<BindSourceKind>, Fault>(Some(BindSourceKind::Parameters)) <==> has_payload(
            parameters,
        ) && !has_payload(keywords) && (parameters->0.kind == ContainerKind::Dict
            || positional_kind(parameters->0.kind) && parameters->0.items == placeholders),
        r is Err ==> has_payload(parameters) && !has_payload(keywords) && !positional_kind(
            parameters->0.kind,
        ),
        !has_payload(parameters) && !has_payload(keywords) ==> r == Ok::<
            Option<BindSourceKind>,
            Fault,
        >(None),
{
}

/// An execution binds new parameters exactly where something was replaced or its `RETURNING` clause
/// was rewritten.
pub proof fn law_unwritten_inputs_stay(
    source: BindSourceKind,
    rewritten: Rewritten,
    projected: bool,
)
    ensures
        inputs_settled(source, rewritten, projected) is Unchanged <==>
            rewritten.replacements@.len() == 0 && !projected,
        inputs_settled(source, rewritten, projected) matches ObjectInputs::Changed {
            source: s,
            dict,
        } ==> s == source && dict == rewritten.dict,
{
}

} // verus!
