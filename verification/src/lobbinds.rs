//! Binds that have to go through temporary LOBs.
use vstd::prelude::*;

use crate::text::same_text;
#[allow(unused_imports)]
use vstd::utf8::encode_utf8;
use crate::value::{BindValue, CsForm, OraType};

verus! {

/// The type of a temporary LOB.
#[derive(Clone, Copy, PartialEq, Eq, Structural, Debug)]
pub struct LobHint {
    pub ora_type: OraType,
    pub csfrm: CsForm,
}

/// How a returned value of a variable is fetched.
#[derive(Clone, Copy, PartialEq, Eq, Structural, Debug)]
pub enum ReturnKind {
    ClobAsLong,
    Plain,
}

pub open spec fn return_kind(name: Seq<char>) -> ReturnKind {
    if name == "DB_TYPE_CLOB"@ || name == "CLOB"@ || name == "DB_TYPE_NCLOB"@ || name == "NCLOB"@ {
        ReturnKind::ClobAsLong
    } else {
        ReturnKind::Plain
    }
}

pub fn return_kind_from_type_name(name: &str) -> (r: ReturnKind)
    ensures
        r == return_kind(name@),
{
    if same_text(name, "DB_TYPE_CLOB") || same_text(name, "CLOB") || same_text(
        name,
        "DB_TYPE_NCLOB",
    ) || same_text(name, "NCLOB") {
        ReturnKind::ClobAsLong
    } else {
        ReturnKind::Plain
    }
}

/// The LOB that a value bound through a variable of the named type becomes.
pub open spec fn hint_of(name: Seq<char>) -> Option<LobHint> {
    if name == "DB_TYPE_CLOB"@ || name == "CLOB"@ {
        Some(LobHint { ora_type: OraType::Clob, csfrm: CsForm::Implicit })
    } else if name == "DB_TYPE_NCLOB"@ || name == "NCLOB"@ {
        Some(LobHint { ora_type: OraType::Clob, csfrm: CsForm::Nchar })
    } else if name == "DB_TYPE_BLOB"@ || name == "BLOB"@ {
        Some(LobHint { ora_type: OraType::Blob, csfrm: CsForm::Unset })
    } else {
        None
    }
}

pub fn typed_lob_bind_hint_from_type_name(name: &str) -> (r: Option<LobHint>)
    ensures
        r == hint_of(name@),
{
    if same_text(name, "DB_TYPE_CLOB") || same_text(name, "CLOB") {
        Some(LobHint { ora_type: OraType::Clob, csfrm: CsForm::Implicit })
    } else if same_text(name, "DB_TYPE_NCLOB") || same_text(name, "NCLOB") {
        Some(LobHint { ora_type: OraType::Clob, csfrm: CsForm::Nchar })
    } else if same_text(name, "DB_TYPE_BLOB") || same_text(name, "BLOB") {
        Some(LobHint { ora_type: OraType::Blob, csfrm: CsForm::Unset })
    } else {
        None
    }
}

/// The hints of bind variables, by the names of their types.
pub fn typed_lob_bind_hints(names: &Vec<String>) -> (r: Vec<Option<LobHint>>)
    ensures
        r@.len() == names@.len(),
        forall|i: int| 0 <= i < names@.len() ==> #[trigger] r@[i] == hint_of(names@[i]@),
{
    let mut r: Vec<Option<LobHint>> = Vec::new();
    let mut i: usize = 0;
    while i < names.len()
        invariant
            i <= names@.len(),
            r@.len() == i,
            forall|j: int| 0 <= j < i ==> #[trigger] r@[j] == hint_of(names@[j]@),
        decreases names@.len() - i,
    {
        r.push(typed_lob_bind_hint_from_type_name(names[i].as_str()));
        i = i + 1;
    }
    r
}

/// The LOB that a value becomes because it is longer than a PL/SQL block can bind.
pub open spec fn long_hint(value: BindValue) -> Option<LobHint> {
    match value {
        BindValue::Text(t) => if encode_utf8(t@).len() > 32767 {
            Some(LobHint { ora_type: OraType::Clob, csfrm: CsForm::Implicit })
        } else {
            None
        },
        BindValue::Raw(b) => if b@.len() > 32767 {
            Some(LobHint { ora_type: OraType::Blob, csfrm: CsForm::Unset })
        } else {
            None
        },
        _ => None,
    }
}

pub fn plsql_long_bind_hint(value: &BindValue) -> (r: Option<LobHint>)
    ensures
        r == long_hint(*value),
{
    match value {
        BindValue::Text(t) => if t.as_str().as_bytes().len() > 32767 {
            Some(LobHint { ora_type: OraType::Clob, csfrm: CsForm::Implicit })
        } else {
            None
        },
        BindValue::Raw(b) => if b.len() > 32767 {
            Some(LobHint { ora_type: OraType::Blob, csfrm: CsForm::Unset })
        } else {
            None
        },
        _ => None,
    }
}

pub open spec fn hint_at(hints: Seq<Option<LobHint>>, i: int) -> Option<LobHint> {
    if 0 <= i < hints.len() {
        hints[i]
    } else {
        None
    }
}

pub open spec fn hints_promoted(
    is_plsql: bool,
    values: Seq<BindValue>,
    before: Seq<Option<LobHint>>,
    after: Seq<Option<LobHint>>,
) -> bool {
    if is_plsql {
        &&& after.len() == if before.len() < values.len() {
            values.len()
        } else {
            before.len()
        }
        &&& forall|i: int|
            0 <= i < after.len() ==> #[trigger] after[i] == if hint_at(before, i) is None && i
                < values.len() {
                long_hint(values[i])
            } else {
                hint_at(before, i)
            }
    } else {
        after == before
    }
}

/// Adds hints for the values that are too long for a PL/SQL block and have none.
pub fn promote_oversized_plsql_bind_hints(
    is_plsql: bool,
    values: &Vec<BindValue>,
    hints: &mut Vec<Option<LobHint>>,
)
    ensures
        hints_promoted(is_plsql, values@, old(hints)@, final(hints)@),
{
    if !is_plsql {
        return;
    }
    let ghost start = hints@;
    while hints.len() < values.len()
        invariant
            start.len() <= hints@.len(),
            start.len() >= values@.len() ==> hints@.len() == start.len(),
            start.len() < values@.len() ==> hints@.len() <= values@.len(),
            forall|i: int| 0 <= i < hints@.len() ==> #[trigger] hints@[i] == hint_at(start, i),
        decreases values@.len() - hints@.len(),
    {
        hints.push(None);
    }
    let mut i: usize = 0;
    while i < values.len()
        invariant
            i <= values@.len() <= hints@.len(),
            hints@.len() == if start.len() < values@.len() {
                values@.len()
            } else {
                start.len()
            },
            forall|j: int|
                0 <= j < hints@.len() ==> #[trigger] hints@[j] == if hint_at(start, j) is None && j
                    < i {
                    long_hint(values@[j])
                } else {
                    hint_at(start, j)
                },
        decreases values@.len() - i,
    {
        if hints[i].is_none() {
            hints.set(i, plsql_long_bind_hint(&values[i]));
        }
        i = i + 1;
    }
}

/// A bind value that is to be written to a temporary LOB.
#[derive(Clone, Copy, PartialEq, Eq, Structural, Debug)]
pub struct TempLob {
    pub hint: LobHint,
    /// The value holds something to write.
    pub writes: bool,
}

/// The temporary LOB of a value with a hint: texts and bytes go into one.
pub open spec fn temp_lob(value: BindValue, hint: Option<LobHint>) -> Option<TempLob> {
    match hint {
        Some(h) => match value {
            BindValue::Text(t) => Some(TempLob { hint: h, writes: t@.len() > 0 }),
            BindValue::Raw(b) => Some(TempLob { hint: h, writes: b@.len() > 0 }),
            _ => None,
        },
        None => None,
    }
}

pub fn temp_lob_for(value: &BindValue, hint: Option<LobHint>) -> (r: Option<TempLob>)
    ensures
        r == temp_lob(*value, hint),
{
    match hint {
        Some(h) => match value {
            BindValue::Text(t) => Some(TempLob { hint: h, writes: !t.as_str().is_empty() }),
            BindValue::Raw(b) => Some(TempLob { hint: h, writes: b.len() > 0 }),
            _ => None,
        },
        None => None,
    }
}

/// The temporary LOBs of a row of values by their hints.
pub fn materialize_typed_lob_bind_values(
    values: &Vec<BindValue>,
    hints: &Vec<Option<LobHint>>,
) -> (r: Vec<Option<TempLob>>)
    ensures
        r@.len() == values@.len(),
        forall|i: int|
            0 <= i < values@.len() ==> #[trigger] r@[i] == temp_lob(
                values@[i],
                hint_at(hints@, i),
            ),
{
    let mut r: Vec<Option<TempLob>> = Vec::new();
    let mut i: usize = 0;
    while i < values.len()
        invariant
            i <= values@.len(),
            r@.len() == i,
            forall|j: int|
                0 <= j < i ==> #[trigger] r@[j] == temp_lob(values@[j], hint_at(hints@, j)),
        decreases values@.len() - i,
    {
        let hint = if i < hints.len() {
            hints[i]
        } else {
            None
        };
        r.push(temp_lob_for(&values[i], hint));
        i = i + 1;
    }
    r
}

/// The temporary LOBs of the values of a PL/SQL block that are too long to be bound.
pub fn materialize_plsql_long_binds(values: &Vec<BindValue>) -> (r: Vec<Option<TempLob>>)
    ensures
        r@.len() == values@.len(),
        forall|i: int|
            0 <= i < values@.len() ==> #[trigger] r@[i] == temp_lob(
                values@[i],
                long_hint(values@[i]),
            ),
{
    let mut r: Vec<Option<TempLob>> = Vec::new();
    let mut i: usize = 0;
    while i < values.len()
        invariant
            i <= values@.len(),
            r@.len() == i,
            forall|j: int|
                0 <= j < i ==> #[trigger] r@[j] == temp_lob(values@[j], long_hint(values@[j])),
        decreases values@.len() - i,
    {
        let hint = plsql_long_bind_hint(&values[i]);
        r.push(temp_lob_for(&values[i], hint));
        i = i + 1;
    }
    r
}

pub open spec fn lob_bound(
    values: Seq<BindValue>,
    index: int,
    hint: LobHint,
    locator: Vec<u8>,
) -> Seq<BindValue> {
    values.update(
        index,
        BindValue::Lob { ora_type: hint.ora_type, csfrm: hint.csfrm, locator },
    )
}

/// Replaces a value by the temporary LOB that holds it.
pub fn bind_temp_lob(values: &mut Vec<BindValue>, index: usize, hint: LobHint, locator: Vec<u8>)
    requires
        index < old(values)@.len(),
    ensures
        final(values)@ == lob_bound(old(values)@, index as int, hint, locator),
{
    values.set(
        index,
        BindValue::Lob { ora_type: hint.ora_type, csfrm: hint.csfrm, locator },
    );
}

/// A value that went into a temporary LOB is not written again: no hint applies to it, nor is it too
/// long.
pub proof fn law_lob_is_written_once(
    hint: LobHint,
    locator: Vec<u8>,
    other: Option<LobHint>,
)
    ensures
        ({
            let v = BindValue::Lob { ora_type: hint.ora_type, csfrm: hint.csfrm, locator };
            temp_lob(v, other) is None && long_hint(v) is None
        }),
{
}

/// After hints were added for a PL/SQL block, every value that is too long for it goes into a LOB.
pub proof fn law_no_long_bind_is_left(value: BindValue, hint: Option<LobHint>)
    requires
        long_hint(value) is Some,
    ensures
        ({
            let promoted = if hint is None {
                long_hint(value)
            } else {
                hint
            };
            temp_lob(value, promoted) is Some
        }),
{
}

/// The name of a LOB type says what the LOB holds, whether it is written short or in full; any other
/// name is no LOB. What is returned of a character LOB comes as a long text.
pub proof fn law_lob_names_say_what_is_held(name: Seq<char>)
    ensures
        hint_of("CLOB"@) == hint_of("DB_TYPE_CLOB"@),
        hint_of("NCLOB"@) == hint_of("DB_TYPE_NCLOB"@),
        hint_of("BLOB"@) == hint_of("DB_TYPE_BLOB"@),
        hint_of("CLOB"@) matches Some(h) && h.ora_type == OraType::Clob && h.csfrm
            == CsForm::Implicit,
        hint_of("NCLOB"@) matches Some(h) && h.ora_type == OraType::Clob && h.csfrm
            == CsForm::Nchar,
        hint_of("BLOB"@) matches Some(h) && h.ora_type == OraType::Blob && h.csfrm
            == CsForm::Unset,
        hint_of(name) is Some ==> name == "CLOB"@ || name == "DB_TYPE_CLOB"@ || name == "NCLOB"@
            || name == "DB_TYPE_NCLOB"@ || name == "BLOB"@ || name == "DB_TYPE_BLOB"@,
        return_kind(name) == ReturnKind::ClobAsLong <==> (hint_of(name) matches Some(h)
            && h.ora_type == OraType::Clob),
{
    reveal_strlit("CLOB");
    reveal_strlit("DB_TYPE_CLOB");
    reveal_strlit("NCLOB");
    reveal_strlit("DB_TYPE_NCLOB");
    reveal_strlit("BLOB");
    reveal_strlit("DB_TYPE_BLOB");
    assert("CLOB"@[0] != "BLOB"@[0]);
    assert("DB_TYPE_CLOB"@[8] != "DB_TYPE_BLOB"@[8]);
    assert("CLOB"@.len() == 4 && "DB_TYPE_CLOB"@.len() == 12 && "NCLOB"@.len() == 5
        && "DB_TYPE_NCLOB"@.len() == 13);
}

/// A PL/SQL block binds texts and bytes of up to 32767 bytes; one byte more goes into a LOB of its
/// kind. No other value does.
pub proof fn law_long_values_need_a_lob(value: BindValue)
    ensures
        value matches BindValue::Text(t) ==> (long_hint(value) is Some <==> encode_utf8(t@).len()
            > 32767) && (long_hint(value) matches Some(h) ==> h.ora_type == OraType::Clob),
        value matches BindValue::Raw(b) ==> (long_hint(value) is Some <==> b@.len() > 32767) && (
        long_hint(value) matches Some(h) ==> h.ora_type == OraType::Blob),
        !(value is Text) && !(value is Raw) ==> long_hint(value) is None,
{
}

/// A hint makes a LOB of a text or of bytes, of its own type, and of nothing else. The LOB is
/// written exactly where the value is not empty.
pub proof fn law_hint_makes_a_lob(value: BindValue, hint: Option<LobHint>)
    ensures
        temp_lob(value, hint) is Some <==> hint is Some && (value is Text || value is Raw),
        temp_lob(value, hint) matches Some(l) ==> hint == Some(l.hint),
        temp_lob(value, hint) is Some && value is Text ==> (temp_lob(value, hint)->0.writes
            <==> value->Text_0@.len() > 0),
        temp_lob(value, hint) is Some && value is Raw ==> (temp_lob(value, hint)->0.writes
            <==> value->Raw_0@.len() > 0),
{
}

/// Hints are added for a PL/SQL block only, and only where there were none and the value is too
/// long. Hints that were there stay.
pub proof fn law_promotion_adds_what_is_missing(
    is_plsql: bool,
    values: Seq<BindValue>,
    before: Seq<Option<LobHint>>,
    after: Seq<Option<LobHint>>,
    i: int,
)
    requires
        hints_promoted(is_plsql, values, before, after),
        0 <= i,
    ensures
        !is_plsql ==> after == before,
        i < before.len() && before[i] is Some ==> i < after.len() && after[i] == before[i],
        is_plsql && i < values.len() && (i >= before.len() || before[i] is None) ==> i
            < after.len() && after[i] == long_hint(values[i]),
        i < before.len() ==> i < after.len(),
        i < after.len() ==> i < before.len() || i < values.len(),
{
}

/// A value that went into a temporary LOB is bound by the LOB's locator and type; the others stay.
pub proof fn law_lob_takes_the_place_of_its_value(
    values: Seq<BindValue>,
    index: int,
    hint: LobHint,
    locator: Vec<u8>,
    i: int,
)
    requires
        0 <= index < values.len(),
        0 <= i < values.len(),
    ensures
        lob_bound(values, index, hint, locator).len() == values.len(),
        i != index ==> lob_bound(values, index, hint, locator)[i] == values[i],
        lob_bound(values, index, hint, locator)[index] matches BindValue::Lob {
            ora_type,
            csfrm,
            locator: l,
        } && ora_type == hint.ora_type && csfrm == hint.csfrm && l == locator,
{
}

} // verus!
