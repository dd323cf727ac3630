//! The placeholders of a statement, and how names given by the caller refer to them.
//!
//! Whether two names mean the same placeholder is the SQL parser's decision. It comes in as rows of
//! booleans: one row per placeholder, one column per name that it was compared with.
use vstd::prelude::*;

use crate::decimal::u64_text;
#[allow(unused_imports)]
use crate::decimal::nat_text;
use crate::errors::{dpy_database_error, Fault};
#[allow(unused_imports)]
use crate::errors::{database_view, FaultView};
use crate::text::{chars_of, join3, same_text, same_text_ignoring_case, tail, text_of};
#[allow(unused_imports)]
use crate::text::same_ignoring_case;

verus! {

/// One distinct placeholder of a statement, in order of first appearance.
pub struct BindSlot {
    pub name: String,
    /// The placeholder stands behind `RETURNING ... INTO`.
    pub returning: bool,
    /// The placeholder is assigned to by a PL/SQL block.
    pub plsql_output: bool,
    /// The name is written in double quotes.
    pub quoted: bool,
    /// For each declared input size, whether its key names this placeholder.
    pub sizes_by_name: Vec<bool>,
    /// For each declared input size, whether its key is the position of this placeholder.
    pub sizes_by_position: Vec<bool>,
    /// For each placeholder of the previous execution, whether it has the same name.
    pub previous: Vec<bool>,
}

/// The input sizes that were declared: for each, whether it holds a variable or is a placeholder
/// for a type that the value decides.
pub struct InputSizes {
    pub is_var: Vec<bool>,
}

/// The keys of a mapping of named parameters.
pub struct ParameterKeys {
    pub keys: Vec<String>,
    /// For each placeholder, for each key, whether the key names the placeholder.
    pub matched: Vec<Vec<bool>>,
}

/// The first column of a row that is set.
pub open spec fn first_set(row: Seq<bool>, from: int) -> Option<int>
    decreases row.len() - from,
{
    if from < 0 || from >= row.len() {
        None
    } else if row[from] {
        Some(from)
    } else {
        first_set(row, from + 1)
    }
}

pub proof fn lemma_first_set_is(row: Seq<bool>, from: int, i: int)
    requires
        0 <= from <= i <= row.len(),
        forall|j: int| from <= j < i ==> !row[j],
        i < row.len() ==> row[i],
    ensures
        first_set(row, from) == if i < row.len() {
            Some(i)
        } else {
            None
        },
    decreases i - from,
{
    if from < i {
        assert(!row[from]);
        lemma_first_set_is(row, from + 1, i);
    }
}

pub fn find_first_set(row: &Vec<bool>) -> (r: Option<usize>)
    ensures
        match r {
            Some(i) => first_set(row@, 0) == Some(i as int) && i < row@.len(),
            None => first_set(row@, 0) is None,
        },
{
    let mut i: usize = 0;
    while i < row.len()
        invariant
            i <= row@.len(),
            forall|j: int| 0 <= j < i ==> !row@[j],
        decreases row@.len() - i,
    {
        if row[i] {
            proof {
                lemma_first_set_is(row@, 0, i as int);
            }
            return Some(i);
        }
        i = i + 1;
    }
    proof {
        lemma_first_set_is(row@, 0, i as int);
    }
    None
}

impl BindSlot {
    /// The placeholder takes a value from the caller and gives none back.
    pub open spec fn is_input(self) -> bool {
        !self.returning && !self.plsql_output
    }

    pub open spec fn named_size(self) -> Option<int> {
        first_set(self.sizes_by_name@, 0)
    }

    pub open spec fn positional_size(self) -> Option<int> {
        first_set(self.sizes_by_position@, 0)
    }

    /// The declared input size of the placeholder: by position if there is one, else by name.
    pub open spec fn any_size(self) -> Option<int> {
        match self.positional_size() {
            Some(i) => Some(i),
            None => self.named_size(),
        }
    }

    /// The rows of the placeholder have a column per name that was compared.
    pub open spec fn fits(self, sizes: InputSizes) -> bool {
        &&& self.sizes_by_name@.len() == sizes.is_var@.len()
        &&& self.sizes_by_position@.len() == sizes.is_var@.len()
    }

    pub fn input(&self) -> (r: bool)
        ensures
            r == self.is_input(),
    {
        !self.returning && !self.plsql_output
    }

    /// The first declared input size whose key names the placeholder.
    pub fn named_input_size_value(&self) -> (r: Option<usize>)
        ensures
            match r {
                Some(i) => self.named_size() == Some(i as int) && i < self.sizes_by_name@.len(),
                None => self.named_size() is None,
            },
    {
        find_first_set(&self.sizes_by_name)
    }

    /// The first declared input size whose key is the position of the placeholder.
    pub fn positional_input_size_value(&self) -> (r: Option<usize>)
        ensures
            match r {
                Some(i) => self.positional_size() == Some(i as int) && i
                    < self.sizes_by_position@.len(),
                None => self.positional_size() is None,
            },
    {
        find_first_set(&self.sizes_by_position)
    }

    /// The declared input size of the placeholder: by position if there is one, else by name.
    pub fn input_size_value_for_bind(&self) -> (r: Option<usize>)
        ensures
            match r {
                Some(i) => self.any_size() == Some(i as int),
                None => self.any_size() is None,
            },
    {
        match self.positional_input_size_value() {
            Some(i) => Some(i),
            None => self.named_input_size_value(),
        }
    }

    /// The variable bound to the same name by the previous execution, among `count` variables.
    pub open spec fn previous_var(self, count: int) -> Option<int> {
        match first_set(self.previous@, 0) {
            Some(i) => if i < count {
                Some(i)
            } else {
                None
            },
            None => None,
        }
    }

    pub fn previous_bind_var_by_name(&self, count: usize) -> (r: Option<usize>)
        ensures
            match r {
                Some(i) => self.previous_var(count as int) == Some(i as int),
                None => self.previous_var(count as int) is None,
            },
    {
        match find_first_set(&self.previous) {
            Some(i) => if i < count {
                Some(i)
            } else {
                None
            },
            None => None,
        }
    }
}

pub open spec fn slots_fit(slots: Seq<BindSlot>, sizes: InputSizes) -> bool {
    forall|i: int| 0 <= i < slots.len() ==> (#[trigger] slots[i]).fits(sizes)
}

/// The key without the colon that may stand in front of it.
pub open spec fn bare_key(key: Seq<char>) -> Seq<char> {
    if key.len() > 0 && key[0] == ':' {
        key.skip(1)
    } else {
        key
    }
}

/// The first key equal to the name.
pub open spec fn exact_key(keys: Seq<String>, name: Seq<char>, from: int) -> Option<int>
    decreases keys.len() - from,
{
    if from < 0 || from >= keys.len() {
        None
    } else if keys[from]@ == name {
        Some(from)
    } else {
        exact_key(keys, name, from + 1)
    }
}

/// The first key that is the name but for ASCII case and a colon in front.
pub open spec fn loose_key(keys: Seq<String>, name: Seq<char>, from: int) -> Option<int>
    decreases keys.len() - from,
{
    if from < 0 || from >= keys.len() {
        None
    } else if same_ignoring_case(bare_key(keys[from]@), name) {
        Some(from)
    } else {
        loose_key(keys, name, from + 1)
    }
}

/// The key under which a placeholder's value is found: the name itself, or for a name without
/// quotes the first key that differs from it in case or a leading colon only.
pub open spec fn lookup_key(keys: Seq<String>, slot: BindSlot) -> Option<int> {
    match exact_key(keys, slot.name@, 0) {
        Some(i) => Some(i),
        None => if slot.quoted {
            None
        } else {
            loose_key(keys, slot.name@, 0)
        },
    }
}

fn bare_key_text(key: &str) -> (r: String)
    ensures
        r@ == bare_key(key@),
{
    let v = chars_of(key);
    if v.len() > 0 && v[0] == ':' {
        text_of(&tail(&v, 1))
    } else {
        text_of(&v)
    }
}

/// Finds the value given for a placeholder in a mapping of named parameters.
pub fn get_named_bind_value(keys: &Vec<String>, slot: &BindSlot) -> (r: Option<usize>)
    ensures
        match r {
            Some(i) => lookup_key(keys@, *slot) == Some(i as int) && i < keys@.len(),
            None => lookup_key(keys@, *slot) is None,
        },
{
    let mut i: usize = 0;
    while i < keys.len()
        invariant
            i <= keys@.len(),
            exact_key(keys@, slot.name@, 0) == exact_key(keys@, slot.name@, i as int),
        decreases keys@.len() - i,
    {
        if same_text(keys[i].as_str(), slot.name.as_str()) {
            return Some(i);
        }
        i = i + 1;
    }
    if slot.quoted {
        return None;
    }
    let mut j: usize = 0;
    while j < keys.len()
        invariant
            j <= keys@.len(),
            !slot.quoted,
            exact_key(keys@, slot.name@, 0) is None,
            loose_key(keys@, slot.name@, 0) == loose_key(keys@, slot.name@, j as int),
        decreases keys@.len() - j,
    {
        let key = bare_key_text(keys[j].as_str());
        if same_text_ignoring_case(key.as_str(), slot.name.as_str()) {
            return Some(j);
        }
        j = j + 1;
    }
    None
}

/// A key that is a placeholder's name in other case finds the placeholder's value, unless an
/// earlier key does.
pub proof fn law_lookup_ignores_case(keys: Seq<String>, slot: BindSlot, k: int)
    requires
        0 <= k < keys.len(),
        !slot.quoted,
        same_ignoring_case(bare_key(keys[k]@), slot.name@),
    ensures
        lookup_key(keys, slot) is Some,
{
    lemma_loose_key_found(keys, slot.name@, 0, k);
}

proof fn lemma_loose_key_found(keys: Seq<String>, name: Seq<char>, from: int, k: int)
    requires
        0 <= from <= k < keys.len(),
        same_ignoring_case(bare_key(keys[k]@), name),
    ensures
        loose_key(keys, name, from) is Some,
    decreases k - from,
{
    if from < k && !same_ignoring_case(bare_key(keys[from]@), name) {
        lemma_loose_key_found(keys, name, from + 1, k);
    }
}

impl ParameterKeys {
    pub open spec fn fits(self, slots: int) -> bool {
        &&& self.matched@.len() == slots
        &&& forall|i: int|
            0 <= i < slots ==> (#[trigger] self.matched@[i])@.len() == self.keys@.len()
    }

    /// The key names one of the first `n` placeholders.
    pub open spec fn known_below(self, k: int, n: int) -> bool {
        exists|i: int| 0 <= i < n && #[trigger] self.matched@[i]@[k]
    }

    pub open spec fn known(self, k: int) -> bool {
        self.known_below(k, self.matched@.len() as int)
    }

    /// The first key at or after `from` that names no placeholder.
    pub open spec fn first_unknown(self, from: int) -> Option<int>
        decreases self.keys@.len() - from,
    {
        if from < 0 || from >= self.keys@.len() {
            None
        } else if !self.known(from) {
            Some(from)
        } else {
            self.first_unknown(from + 1)
        }
    }

    fn is_known(&self, k: usize) -> (r: bool)
        requires
            self.fits(self.matched@.len() as int),
            k < self.keys@.len(),
        ensures
            r == self.known(k as int),
    {
        let mut i: usize = 0;
        while i < self.matched.len()
            invariant
                self.fits(self.matched@.len() as int),
                k < self.keys@.len(),
                i <= self.matched@.len(),
                !self.known_below(k as int, i as int),
            decreases self.matched@.len() - i,
        {
            proof {
                assert(self.matched@[i as int]@.len() == self.keys@.len());
            }
            if self.matched[i][k] {
                return true;
            }
            i = i + 1;
        }
        false
    }

    /// Rejects a mapping with a key that names no placeholder of the statement.
    pub fn check_known(&self) -> (r: Option<Fault>)
        requires
            self.fits(self.matched@.len() as int),
        ensures
            match self.first_unknown(0) {
                Some(k) => r matches Some(f) && f@ == unknown_key_fault(self.keys@[k]@),
                None => r is None,
            },
    {
        let mut k: usize = 0;
        while k < self.keys.len()
            invariant
                self.fits(self.matched@.len() as int),
                k <= self.keys@.len(),
                self.first_unknown(0) == self.first_unknown(k as int),
            decreases self.keys@.len() - k,
        {
            if !self.is_known(k) {
                let m = join3(
                    "no bind placeholder named \":",
                    self.keys[k].as_str(),
                    "\" was found in the SQL text",
                );
                return Some(dpy_database_error("DPY-4008", m.as_str()));
            }
            k = k + 1;
        }
        None
    }
}

/// The error for a key that names no placeholder.
pub open spec fn unknown_key_fault(key: Seq<char>) -> FaultView {
    database_view(
        "DPY-4008"@ + ": "@ + ("no bind placeholder named \":"@ + key
            + "\" was found in the SQL text"@),
    )
}

/// The error for a placeholder that got no value.
pub open spec fn missing_value_fault(name: Seq<char>) -> FaultView {
    database_view(
        "DPY-4010"@ + ": "@ + ("a bind variable replacement value for placeholder \":"@ + name
            + "\" was not provided"@),
    )
}

pub fn missing_value(name: &str) -> (r: Fault)
    ensures
        r@ == missing_value_fault(name@),
{
    let m = join3(
        "a bind variable replacement value for placeholder \":",
        name,
        "\" was not provided",
    );
    dpy_database_error("DPY-4010", m.as_str())
}

/// The error for a wrong number of positional values.
pub open spec fn wrong_count_fault(required: int, provided: int) -> FaultView {
    database_view(
        "DPY-4009"@ + ": "@ + (nat_text(required as nat)
            + " positional bind values are required but "@ + nat_text(provided as nat)
            + " were provided"@),
    )
}

pub fn wrong_count(required: usize, provided: usize) -> (r: Fault)
    ensures
        r@ == wrong_count_fault(required as int, provided as int),
{
    let mut m = join3(
        u64_text(required as u64).as_str(),
        " positional bind values are required but ",
        u64_text(provided as u64).as_str(),
    );
    m.append(" were provided");
    dpy_database_error("DPY-4009", m.as_str())
}

/// A key means a placeholder: it is the name, or for a name without quotes the name in any case,
/// with or without a colon in front.
pub open spec fn key_means(key: Seq<char>, name: Seq<char>, quoted: bool) -> bool {
    ||| key == name
    ||| !quoted && key.len() > 0 && key[0] == ':' && same_ignoring_case(key.skip(1), name)
    ||| !quoted && !(key.len() > 0 && key[0] == ':') && same_ignoring_case(key, name)
}

/// A placeholder finds its value exactly where one of the keys means it. A key that is the name
/// letter by letter comes before one that differs in case; among equals the first is taken.
pub proof fn law_lookup_finds_the_key(keys: Seq<String>, slot: BindSlot, k: int)
    requires
        0 <= k < keys.len(),
    ensures
        lookup_key(keys, slot) matches Some(i) ==> {
            &&& 0 <= i < keys.len()
            &&& key_means(keys[i]@, slot.name@, slot.quoted)
            &&& keys[k]@ == slot.name@ ==> keys[i]@ == slot.name@ && i <= k
            &&& keys[i]@ != slot.name@ && key_means(keys[k]@, slot.name@, slot.quoted) ==> i <= k
        },
        key_means(keys[k]@, slot.name@, slot.quoted) ==> lookup_key(keys, slot) is Some,
{
    lemma_exact_is_first(keys, slot.name@, 0, k);
    lemma_loose_is_first(keys, slot.name@, 0, k);
}

pub proof fn law_lookup_needs_a_key(keys: Seq<String>, slot: BindSlot)
    ensures
        lookup_key(keys, slot) is Some ==> exists|k: int|
            0 <= k < keys.len() && key_means((#[trigger] keys[k])@, slot.name@, slot.quoted),
        lookup_key(keys, slot) matches Some(i) ==> 0 <= i < keys.len(),
{
    lemma_exact_is_first(keys, slot.name@, 0, 0);
    lemma_loose_is_first(keys, slot.name@, 0, 0);
    if lookup_key(keys, slot) is Some {
        let i = lookup_key(keys, slot)->0;
        assert(key_means(keys[i]@, slot.name@, slot.quoted));
    }
}

proof fn lemma_exact_is_first(keys: Seq<String>, name: Seq<char>, from: int, k: int)
    requires
        0 <= from,
    ensures
        match exact_key(keys, name, from) {
            Some(i) => from <= i < keys.len() && keys[i]@ == name && (from <= k < keys.len()
                && keys[k]@ == name ==> i <= k),
            None => from <= k < keys.len() ==> keys[k]@ != name,
        },
    decreases keys.len() - from,
{
    if from < keys.len() && keys[from]@ != name {
        lemma_exact_is_first(keys, name, from + 1, k);
    }
}

proof fn lemma_loose_is_first(keys: Seq<String>, name: Seq<char>, from: int, k: int)
    requires
        0 <= from,
    ensures
        match loose_key(keys, name, from) {
            Some(i) => from <= i < keys.len() && same_ignoring_case(bare_key(keys[i]@), name) && (
            from <= k < keys.len() && same_ignoring_case(bare_key(keys[k]@), name) ==> i <= k),
            None => from <= k < keys.len() ==> !same_ignoring_case(bare_key(keys[k]@), name),
        },
    decreases keys.len() - from,
{
    if from < keys.len() && !same_ignoring_case(bare_key(keys[from]@), name) {
        lemma_loose_is_first(keys, name, from + 1, k);
    }
}

/// The first column that is set is set, and none before it is; where none is found none is set.
pub proof fn law_first_set_is_the_first(row: Seq<bool>, from: int)
    requires
        0 <= from,
    ensures
        match first_set(row, from) {
            Some(i) => from <= i < row.len() && row[i] && forall|j: int|
                from <= j < i ==> !#[trigger] row[j],
            None => forall|j: int| from <= j < row.len() ==> !#[trigger] row[j],
        },
    decreases row.len() - from,
{
    if from < row.len() && !row[from] {
        law_first_set_is_the_first(row, from + 1);
    }
}

/// A mapping is refused exactly where one of its keys names no placeholder, and by the first such
/// key. `j` is any of the keys.
pub proof fn law_unknown_key_is_the_first(keys: ParameterKeys, from: int, j: int)
    requires
        0 <= from,
    ensures
        match keys.first_unknown(from) {
            Some(k) => {
                &&& from <= k < keys.keys@.len()
                &&& forall|p: int|
                    0 <= p < keys.matched@.len() ==> !(#[trigger] keys.matched@[p])@[k]
                &&& from <= j < k ==> exists|p: int|
                    0 <= p < keys.matched@.len() && #[trigger] keys.matched@[p]@[j]
            },
            None => from <= j < keys.keys@.len() ==> exists|p: int|
                0 <= p < keys.matched@.len() && #[trigger] keys.matched@[p]@[j],
        },
    decreases keys.keys@.len() - from,
{
    if from < keys.keys@.len() {
        if keys.known(from) {
            law_unknown_key_is_the_first(keys, from + 1, j);
        }
    }
}

/// The errors of binding name the placeholder, the key or the numbers that they are about: two
/// that are about different ones differ.
pub proof fn law_bind_errors_name_their_subject(a: Seq<char>, b: Seq<char>)
    ensures
        missing_value_fault(a) == missing_value_fault(b) ==> a == b,
        unknown_key_fault(a) == unknown_key_fault(b) ==> a == b,
{
    let p = "DPY-4010"@ + ": "@ + "a bind variable replacement value for placeholder \":"@;
    let s = "\" was not provided"@;
    assert(missing_value_fault(a)->Database_0.message =~= p + a + s);
    assert(missing_value_fault(b)->Database_0.message =~= p + b + s);
    if missing_value_fault(a) == missing_value_fault(b) {
        lemma_middle(p, a, b, s);
    }
    let q = "DPY-4008"@ + ": "@ + "no bind placeholder named \":"@;
    let t = "\" was found in the SQL text"@;
    assert(unknown_key_fault(a)->Database_0.message =~= q + a + t);
    assert(unknown_key_fault(b)->Database_0.message =~= q + b + t);
    if unknown_key_fault(a) == unknown_key_fault(b) {
        lemma_middle(q, a, b, t);
    }
}

proof fn lemma_middle(p: Seq<char>, a: Seq<char>, b: Seq<char>, s: Seq<char>)
    requires
        p + a + s == p + b + s,
    ensures
        a == b,
{
    assert((p + a + s).len() == p.len() + a.len() + s.len());
    assert((p + b + s).len() == p.len() + b.len() + s.len());
    assert forall|i: int| 0 <= i < a.len() implies a[i] == b[i] by {
        assert((p + a + s)[p.len() + i] == a[i]);
        assert((p + b + s)[p.len() + i] == b[i]);
    }
    assert(a =~= b);
}

} // verus!
