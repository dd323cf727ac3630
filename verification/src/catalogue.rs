//! The entries of the package's error catalogue, and the arguments that they take.
use vstd::prelude::*;

use crate::errors::{short_db_type_name, ErrorName, Fault};
#[allow(unused_imports)]
use crate::errors::{without_leading, FaultView};
use crate::text::owned;

verus! {

/// An argument of an entry.
pub enum Argument {
    Text(String),
    Signed(i64),
    Unsigned(u64),
    /// The type of the value that the error is about; its name stands for it.
    TypeOf(String),
}

pub ghost enum ArgumentView {
    Text(Seq<char>),
    Signed(i64),
    Unsigned(u64),
    TypeOf(Seq<char>),
}

impl View for Argument {
    type V = ArgumentView;

    open spec fn view(&self) -> ArgumentView {
        match *self {
            Argument::Text(s) => ArgumentView::Text(s@),
            Argument::Signed(n) => ArgumentView::Signed(n),
            Argument::Unsigned(n) => ArgumentView::Unsigned(n),
            Argument::TypeOf(s) => ArgumentView::TypeOf(s@),
        }
    }
}

pub struct NamedArgument {
    pub name: &'static str,
    pub value: Argument,
}

/// An entry of the catalogue with the arguments to raise it with.
pub struct Entry {
    pub name: ErrorName,
    pub arguments: Vec<NamedArgument>,
}

pub ghost struct EntryView {
    pub name: ErrorName,
    pub arguments: Seq<(Seq<char>, ArgumentView)>,
}

pub open spec fn argument_views(v: Seq<NamedArgument>) -> Seq<(Seq<char>, ArgumentView)> {
    v.map_values(|a: NamedArgument| (a.name@, a.value@))
}

impl View for Entry {
    type V = EntryView;

    open spec fn view(&self) -> EntryView {
        EntryView { name: self.name, arguments: argument_views(self.arguments@) }
    }
}

/// A text argument.
pub open spec fn text_argument(name: Seq<char>, value: Seq<char>) -> (Seq<char>, ArgumentView) {
    (name, ArgumentView::Text(value))
}

pub open spec fn signed_argument(name: Seq<char>, value: i32) -> (Seq<char>, ArgumentView) {
    (name, ArgumentView::Signed(value as i64))
}

pub open spec fn count_argument(name: Seq<char>, value: u64) -> (Seq<char>, ArgumentView) {
    (name, ArgumentView::Unsigned(value))
}

/// The entry that a fault is raised through; the others are raised as exceptions of their own.
pub open spec fn entry_of(f: FaultView) -> Option<EntryView> {
    match f {
        FaultView::Named(name) => Some(EntryView { name, arguments: Seq::empty() }),
        FaultView::DbTypeNotSupported { name, message } => Some(
            EntryView {
                name: ErrorName::DbTypeNotSupported,
                arguments: seq![text_argument("name"@, name)],
            },
        ),
        FaultView::ColumnTruncated => Some(
            EntryView {
                name: ErrorName::ColumnTruncated,
                arguments: seq![
                    count_argument("col_value_len"@, 0),
                    text_argument("unit"@, "characters"@),
                    count_argument("actual_len"@, 0),
                ],
            },
        ),
        FaultView::DmlReturningDupBinds { name } => Some(
            EntryView {
                name: ErrorName::DmlReturningDupBinds,
                arguments: seq![text_argument("name"@, name)],
            },
        ),
        FaultView::IncorrectVarArraysize { var_arraysize, required_arraysize } => Some(
            EntryView {
                name: ErrorName::IncorrectVarArraysize,
                arguments: seq![
                    count_argument("var_arraysize"@, var_arraysize as u64),
                    count_argument("required_arraysize"@, required_arraysize as u64),
                ],
            },
        ),
        FaultView::LobOfWrongType { actual_type_name, expected_type_name } => Some(
            EntryView {
                name: ErrorName::LobOfWrongType,
                arguments: seq![
                    text_argument("actual_type_name"@, actual_type_name),
                    text_argument("expected_type_name"@, expected_type_name),
                ],
            },
        ),
        FaultView::PythonValueNotSupported { type_label } => Some(
            EntryView {
                name: ErrorName::PythonValueNotSupported,
                arguments: seq![text_argument(TYPE_ARGUMENT@, type_label)],
            },
        ),
        FaultView::PythonTypeNotSupported { type_label } => Some(
            EntryView {
                name: ErrorName::PythonTypeNotSupported,
                arguments: seq![("typ"@, ArgumentView::TypeOf(type_label))],
            },
        ),
        FaultView::InconsistentDatatypes { input_type, output_type } => Some(
            EntryView {
                name: ErrorName::InconsistentDatatypes,
                arguments: seq![
                    text_argument("input_type"@, input_type),
                    text_argument("output_type"@, output_type),
                ],
            },
        ),
        FaultView::CallTimeoutExceeded { timeout } => Some(
            EntryView {
                name: ErrorName::CallTimeoutExceeded,
                arguments: seq![count_argument("timeout"@, timeout as u64)],
            },
        ),
        FaultView::InvalidObjectTypeName { name } => Some(
            EntryView {
                name: ErrorName::InvalidObjectTypeName,
                arguments: seq![text_argument("name"@, name)],
            },
        ),
        FaultView::InvalidCollIndexGet { index } => Some(
            EntryView {
                name: ErrorName::InvalidCollIndexGet,
                arguments: seq![signed_argument("index"@, index)],
            },
        ),
        FaultView::InvalidCollIndexSet { index, min_index, max_index } => Some(
            EntryView {
                name: ErrorName::InvalidCollIndexSet,
                arguments: seq![
                    signed_argument("index"@, index),
                    signed_argument("min_index"@, min_index),
                    signed_argument("max_index"@, max_index),
                ],
            },
        ),
        FaultView::WrongObjectType { actual_schema, actual_name, expected_schema, expected_name } =>
            Some(
            EntryView {
                name: ErrorName::WrongObjectType,
                arguments: seq![
                    text_argument("actual_schema"@, actual_schema),
                    text_argument("actual_name"@, actual_name),
                    text_argument("expected_schema"@, expected_schema),
                    text_argument("expected_name"@, expected_name),
                ],
            },
        ),
        FaultView::AttrMaxSize { attr_name, type_label, actual_size, max_size } => Some(
            EntryView {
                name: ErrorName::DbobjectAttrMaxSizeViolated,
                arguments: seq![
                    text_argument("attr_name"@, attr_name),
                    text_argument(TYPE_ARGUMENT@, type_label),
                    count_argument("actual_size"@, actual_size),
                    count_argument("max_size"@, max_size as u64),
                ],
            },
        ),
        FaultView::ElementMaxSize { index, type_label, actual_size, max_size } => Some(
            EntryView {
                name: ErrorName::DbobjectElementMaxSizeViolated,
                arguments: seq![
                    signed_argument("index"@, index),
                    text_argument(TYPE_ARGUMENT@, type_label),
                    count_argument("actual_size"@, actual_size),
                    count_argument("max_size"@, max_size as u64),
                ],
            },
        ),
        FaultView::UnsupportedPythonType { py_type_name, db_type_name } => Some(
            EntryView {
                name: ErrorName::UnsupportedPythonTypeForDbType,
                arguments: seq![
                    text_argument("py_type_name"@, py_type_name),
                    text_argument("db_type_name"@, without_leading(db_type_name, "DB_TYPE_"@)),
                ],
            },
        ),
        FaultView::UnsupportedTypeSet { db_type_name } => Some(
            EntryView {
                name: ErrorName::UnsupportedTypeSet,
                arguments: seq![
                    text_argument("db_type_name"@, without_leading(db_type_name, "DB_TYPE_"@)),
                ],
            },
        ),
        FaultView::NotSupported { .. } | FaultView::Database(_) | FaultView::Runtime(_)
        | FaultView::TypeError(_) | FaultView::NotImplemented(_) => None,
    }
}

/// The argument that names a type.
pub const TYPE_ARGUMENT: &'static str = "type_name";

fn text(name: &'static str, value: &str) -> (r: NamedArgument)
    ensures
        (r.name@, r.value@) == text_argument(name@, value@),
{
    NamedArgument { name, value: Argument::Text(owned(value)) }
}

fn signed(name: &'static str, value: i32) -> (r: NamedArgument)
    ensures
        (r.name@, r.value@) == signed_argument(name@, value),
{
    NamedArgument { name, value: Argument::Signed(value as i64) }
}

fn count(name: &'static str, value: u64) -> (r: NamedArgument)
    ensures
        (r.name@, r.value@) == count_argument(name@, value),
{
    NamedArgument { name, value: Argument::Unsigned(value) }
}

fn with_one(name: ErrorName, a: NamedArgument) -> (r: Entry)
    ensures
        r@ == (EntryView { name, arguments: seq![(a.name@, a.value@)] }),
{
    let mut arguments: Vec<NamedArgument> = Vec::new();
    arguments.push(a);
    proof {
        assert(argument_views(arguments@) =~= seq![(a.name@, a.value@)]);
    }
    Entry { name, arguments }
}

fn with_two(name: ErrorName, a: NamedArgument, b: NamedArgument) -> (r: Entry)
    ensures
        r@ == (EntryView { name, arguments: seq![(a.name@, a.value@), (b.name@, b.value@)] }),
{
    let mut arguments: Vec<NamedArgument> = Vec::new();
    arguments.push(a);
    arguments.push(b);
    proof {
        assert(argument_views(arguments@) =~= seq![(a.name@, a.value@), (b.name@, b.value@)]);
    }
    Entry { name, arguments }
}

fn with_three(name: ErrorName, a: NamedArgument, b: NamedArgument, c: NamedArgument) -> (r: Entry)
    ensures
        r@ == (EntryView {
            name,
            arguments: seq![(a.name@, a.value@), (b.name@, b.value@), (c.name@, c.value@)],
        }),
{
    let mut arguments: Vec<NamedArgument> = Vec::new();
    arguments.push(a);
    arguments.push(b);
    arguments.push(c);
    proof {
        assert(argument_views(arguments@) =~= seq![
            (a.name@, a.value@),
            (b.name@, b.value@),
            (c.name@, c.value@),
        ]);
    }
    Entry { name, arguments }
}

fn with_four(
    name: ErrorName,
    a: NamedArgument,
    b: NamedArgument,
    c: NamedArgument,
    d: NamedArgument,
) -> (r: Entry)
    ensures
        r@ == (EntryView {
            name,
            arguments: seq![
                (a.name@, a.value@),
                (b.name@, b.value@),
                (c.name@, c.value@),
                (d.name@, d.value@),
            ],
        }),
{
    let mut arguments: Vec<NamedArgument> = Vec::new();
    arguments.push(a);
    arguments.push(b);
    arguments.push(c);
    arguments.push(d);
    proof {
        assert(argument_views(arguments@) =~= seq![
            (a.name@, a.value@),
            (b.name@, b.value@),
            (c.name@, c.value@),
            (d.name@, d.value@),
        ]);
    }
    Entry { name, arguments }
}

impl Fault {
    /// The entry of the catalogue to raise, if the fault has one.
    pub fn entry(&self) -> (r: Option<Entry>)
        ensures
            match r {
                Some(e) => entry_of(self@) == Some(e@),
                None => entry_of(self@) is None,
            },
    {
        let entry = match self {
            Fault::Named(name) => {
                let e = Entry { name: *name, arguments: Vec::new() };
                proof {
                    assert(argument_views(e.arguments@) =~= Seq::empty());
                }
                e
            },
            Fault::DbTypeNotSupported { name, message: _ } => with_one(
                ErrorName::DbTypeNotSupported,
                text("name", name.as_str()),
            ),
            Fault::ColumnTruncated => with_three(
                ErrorName::ColumnTruncated,
                count("col_value_len", 0),
                text("unit", "characters"),
                count("actual_len", 0),
            ),
            Fault::DmlReturningDupBinds { name } => with_one(
                ErrorName::DmlReturningDupBinds,
                text("name", name.as_str()),
            ),
            Fault::IncorrectVarArraysize { var_arraysize, required_arraysize } => with_two(
                ErrorName::IncorrectVarArraysize,
                count("var_arraysize", *var_arraysize as u64),
                count("required_arraysize", *required_arraysize as u64),
            ),
            Fault::LobOfWrongType { actual_type_name, expected_type_name } => with_two(
                ErrorName::LobOfWrongType,
                text("actual_type_name", actual_type_name.as_str()),
                text("expected_type_name", expected_type_name.as_str()),
            ),
            Fault::PythonValueNotSupported { type_label } => with_one(
                ErrorName::PythonValueNotSupported,
                text(TYPE_ARGUMENT, type_label.as_str()),
            ),
            Fault::PythonTypeNotSupported { type_label } => with_one(
                ErrorName::PythonTypeNotSupported,
                NamedArgument { name: "typ", value: Argument::TypeOf(type_label.clone()) },
            ),
            Fault::InconsistentDatatypes { input_type, output_type } => with_two(
                ErrorName::InconsistentDatatypes,
                text("input_type", input_type.as_str()),
                text("output_type", output_type.as_str()),
            ),
            Fault::CallTimeoutExceeded { timeout } => with_one(
                ErrorName::CallTimeoutExceeded,
                count("timeout", *timeout as u64),
            ),
            Fault::InvalidObjectTypeName { name } => with_one(
                ErrorName::InvalidObjectTypeName,
                text("name", name.as_str()),
            ),
            Fault::InvalidCollIndexGet { index } => with_one(
                ErrorName::InvalidCollIndexGet,
                signed("index", *index),
            ),
            Fault::InvalidCollIndexSet { index, min_index, max_index } => with_three(
                ErrorName::InvalidCollIndexSet,
                signed("index", *index),
                signed("min_index", *min_index),
                signed("max_index", *max_index),
            ),
            Fault::WrongObjectType {
                actual_schema,
                actual_name,
                expected_schema,
                expected_name,
            } => with_four(
                ErrorName::WrongObjectType,
                text("actual_schema", actual_schema.as_str()),
                text("actual_name", actual_name.as_str()),
                text("expected_schema", expected_schema.as_str()),
                text("expected_name", expected_name.as_str()),
            ),
            Fault::AttrMaxSize { attr_name, type_label, actual_size, max_size } => with_four(
                ErrorName::DbobjectAttrMaxSizeViolated,
                text("attr_name", attr_name.as_str()),
                text(TYPE_ARGUMENT, type_label.as_str()),
                count("actual_size", *actual_size),
                count("max_size", *max_size as u64),
            ),
            Fault::ElementMaxSize { index, type_label, actual_size, max_size } => with_four(
                ErrorName::DbobjectElementMaxSizeViolated,
                signed("index", *index),
                text(TYPE_ARGUMENT, type_label.as_str()),
                count("actual_size", *actual_size),
                count("max_size", *max_size as u64),
            ),
            Fault::UnsupportedPythonType { py_type_name, db_type_name } => with_two(
                ErrorName::UnsupportedPythonTypeForDbType,
                text("py_type_name", py_type_name.as_str()),
                text("db_type_name", short_db_type_name(db_type_name.as_str()).as_str()),
            ),
            Fault::UnsupportedTypeSet { db_type_name } => with_one(
                ErrorName::UnsupportedTypeSet,
                text("db_type_name", short_db_type_name(db_type_name.as_str()).as_str()),
            ),
            Fault::NotSupported { .. } | Fault::Database(_) | Fault::Runtime(_) | Fault::TypeError(
                _,
            ) | Fault::NotImplemented(_) => {
                return None;
            },
        };
        Some(entry)
    }
}

/// The entry of a fault has one argument for each of its details, named after it and with its value.
pub proof fn law_entry_carries_the_details(f: FaultView)
    ensures
        f matches FaultView::Named(name) ==> (entry_of(f) matches Some(e) && e.name == name
            && e.arguments.len() == 0),
        f matches FaultView::DmlReturningDupBinds { name } ==> has_text(f, "name"@, name),
        f matches FaultView::InvalidObjectTypeName { name } ==> has_text(f, "name"@, name),
        f matches FaultView::DbTypeNotSupported { name, .. } ==> has_text(f, "name"@, name),
        f matches FaultView::IncorrectVarArraysize { var_arraysize, required_arraysize }
            ==> has_count(f, "var_arraysize"@, var_arraysize as u64) && has_count(
            f,
            "required_arraysize"@,
            required_arraysize as u64,
        ),
        f matches FaultView::LobOfWrongType { actual_type_name, expected_type_name } ==> has_text(
            f,
            "actual_type_name"@,
            actual_type_name,
        ) && has_text(f, "expected_type_name"@, expected_type_name),
        f matches FaultView::PythonValueNotSupported { type_label } ==> has_text(
            f,
            TYPE_ARGUMENT@,
            type_label,
        ),
        f matches FaultView::InconsistentDatatypes { input_type, output_type } ==> has_text(
            f,
            "input_type"@,
            input_type,
        ) && has_text(f, "output_type"@, output_type),
        f matches FaultView::CallTimeoutExceeded { timeout } ==> has_count(
            f,
            "timeout"@,
            timeout as u64,
        ),
        f matches FaultView::InvalidCollIndexGet { index } ==> has_index(f, "index"@, index),
        f matches FaultView::InvalidCollIndexSet { index, min_index, max_index } ==> has_index(
            f,
            "index"@,
            index,
        ) && has_index(f, "min_index"@, min_index) && has_index(f, "max_index"@, max_index),
        f matches FaultView::WrongObjectType {
            actual_schema,
            actual_name,
            expected_schema,
            expected_name,
        } ==> has_text(f, "actual_schema"@, actual_schema) && has_text(
            f,
            "actual_name"@,
            actual_name,
        ) && has_text(f, "expected_schema"@, expected_schema) && has_text(
            f,
            "expected_name"@,
            expected_name,
        ),
        f matches FaultView::AttrMaxSize { attr_name, type_label, actual_size, max_size }
            ==> has_text(f, "attr_name"@, attr_name) && has_text(f, TYPE_ARGUMENT@, type_label)
            && has_count(f, "actual_size"@, actual_size) && has_count(
            f,
            "max_size"@,
            max_size as u64,
        ),
        f matches FaultView::ElementMaxSize { index, type_label, actual_size, max_size }
            ==> has_index(f, "index"@, index) && has_text(f, TYPE_ARGUMENT@, type_label)
            && has_count(f, "actual_size"@, actual_size) && has_count(
            f,
            "max_size"@,
            max_size as u64,
        ),
        f matches FaultView::UnsupportedPythonType { py_type_name, .. } ==> has_text(
            f,
            "py_type_name"@,
            py_type_name,
        ),
{
}

/// The entry of the fault has the argument among its first four, and has no more.
pub open spec fn has_argument(f: FaultView, a: (Seq<char>, ArgumentView)) -> bool {
    entry_of(f) matches Some(e) && {
        let n = e.arguments.len();
        &&& n <= 4
        &&& {
            ||| n > 0 && e.arguments[0] == a
            ||| n > 1 && e.arguments[1] == a
            ||| n > 2 && e.arguments[2] == a
            ||| n > 3 && e.arguments[3] == a
        }
    }
}

/// The entry of the fault has this text as an argument.
pub open spec fn has_text(f: FaultView, name: Seq<char>, value: Seq<char>) -> bool {
    has_argument(f, (name, ArgumentView::Text(value)))
}

/// The entry of the fault has this count as an argument.
pub open spec fn has_count(f: FaultView, name: Seq<char>, value: u64) -> bool {
    has_argument(f, (name, ArgumentView::Unsigned(value)))
}

/// The entry of the fault has this index as an argument.
pub open spec fn has_index(f: FaultView, name: Seq<char>, value: i32) -> bool {
    has_argument(f, (name, ArgumentView::Signed(value as i64)))
}

/// Faults of different kinds are raised through different entries; a fault has none exactly where it
/// is an exception of its own.
pub proof fn law_faults_have_their_own_entries(f: FaultView)
    ensures
        entry_of(f) is None <==> f is NotSupported || f is Database || f is Runtime || f is TypeError
            || f is NotImplemented,
        !(f is Named) ==> (entry_of(f) matches Some(e) ==> {
            &&& f is DbTypeNotSupported <==> e.name == ErrorName::DbTypeNotSupported
            &&& f is ColumnTruncated <==> e.name == ErrorName::ColumnTruncated
            &&& f is DmlReturningDupBinds <==> e.name == ErrorName::DmlReturningDupBinds
            &&& f is IncorrectVarArraysize <==> e.name == ErrorName::IncorrectVarArraysize
            &&& f is LobOfWrongType <==> e.name == ErrorName::LobOfWrongType
            &&& f is PythonValueNotSupported <==> e.name == ErrorName::PythonValueNotSupported
            &&& f is PythonTypeNotSupported <==> e.name == ErrorName::PythonTypeNotSupported
            &&& f is InconsistentDatatypes <==> e.name == ErrorName::InconsistentDatatypes
            &&& f is CallTimeoutExceeded <==> e.name == ErrorName::CallTimeoutExceeded
            &&& f is InvalidObjectTypeName <==> e.name == ErrorName::InvalidObjectTypeName
            &&& f is InvalidCollIndexGet <==> e.name == ErrorName::InvalidCollIndexGet
            &&& f is InvalidCollIndexSet <==> e.name == ErrorName::InvalidCollIndexSet
            &&& f is WrongObjectType <==> e.name == ErrorName::WrongObjectType
            &&& f is AttrMaxSize <==> e.name == ErrorName::DbobjectAttrMaxSizeViolated
            &&& f is ElementMaxSize <==> e.name == ErrorName::DbobjectElementMaxSizeViolated
            &&& f is UnsupportedPythonType <==> e.name == ErrorName::UnsupportedPythonTypeForDbType
            &&& f is UnsupportedTypeSet <==> e.name == ErrorName::UnsupportedTypeSet
        }),
{
}

} // verus!
