//! Reading and writing small pieces of SQL and of connect strings.
use vstd::prelude::*;

use crate::decimal::{read_signed, read_unsigned};
#[allow(unused_imports)]
use crate::decimal::{int_text, law_decimal_round_trip, parse_signed, parse_unsigned, within};
use crate::errors::{database_error, not_implemented, runtime_error, ErrorName, Fault};
#[allow(unused_imports)]
use crate::errors::{database_view, fault_of_message, lemma_ora_number, outcome, FaultView};
use crate::text::{
    chars_of, find_chars, head, is_ascii_letter_char, is_digit_char, is_space_char, join2,
    lower_chars, owned, same_text_ignoring_case, slice_text, tail, text_of, text_starts_with,
    to_upper, trim_both_of, trim_chars, trim_end_of, trim_start_chars,
};
#[allow(unused_imports)]
use crate::text::{
    back_cut, char_pred, find, find_from, front_run, is_ascii_letter, is_identifier_char, is_space,
    lemma_back_cut_is, lemma_find_from, lemma_find_from_is, lemma_find_from_none,
    lemma_front_run_bounds, lemma_front_run_is, lemma_same_ignoring_case_upper, lower, occurs_at,
    option_text, same_ignoring_case, space_pred, starts_with, text_views, trim, trim_char, trim_end_char, trim_start, upper,
};
use crate::value::text_from_utf8;
#[allow(unused_imports)]
use vstd::utf8::{decode_utf8, encode_utf8_decode_utf8, valid_utf8};

verus! {

/// A connect string without the protocol in front of it.
pub open spec fn without_protocol(dsn: Seq<char>) -> Seq<char> {
    match find(dsn, "://"@) {
        Some(i) => dsn.skip(i + 3),
        None => dsn,
    }
}

pub fn normalize_connect_string(dsn: String) -> (r: String)
    ensures
        r@ == without_protocol(dsn@),
{
    proof {
        reveal_strlit("://");
    }
    let v = chars_of(dsn.as_str());
    match find_chars(&v, &chars_of("://"), 0) {
        Some(i) => text_of(&tail(&v, i + 3)),
        None => dsn,
    }
}

/// The text names a user and a connect string, and no password.
pub open spec fn user_without_password(dsn: Seq<char>) -> bool {
    match find(dsn, "@"@) {
        Some(i) => {
            &&& 0 < i
            &&& find(dsn.take(i), "/"@) is None
            &&& find(dsn.take(i), ":"@) is None
            &&& i + 1 < dsn.len()
        },
        None => false,
    }
}

pub fn is_user_without_password_dsn(dsn: &str) -> (r: bool)
    ensures
        r == user_without_password(dsn@),
{
    proof {
        reveal_strlit("@");
    }
    let v = chars_of(dsn);
    match find_chars(&v, &chars_of("@"), 0) {
        Some(i) => {
            let credentials = head(&v, i);
            0 < i && find_chars(&credentials, &chars_of("/"), 0).is_none() && find_chars(
                &credentials,
                &chars_of(":"),
                0,
            ).is_none() && i + 1 < v.len()
        },
        None => false,
    }
}

pub open spec fn sdu_of(own: Option<u32>, descriptions: Seq<Option<u32>>) -> Option<u32> {
    if own is Some {
        own
    } else if descriptions.len() == 0 {
        None
    } else {
        descriptions[0]
    }
}

/// The session data unit to ask for: that of the connection, else that of the first description.
pub fn get_connect_sdu(own: Option<u32>, descriptions: &Vec<Option<u32>>) -> (r: Option<u32>)
    ensures
        r == sdu_of(own, descriptions@),
{
    if own.is_some() {
        own
    } else if descriptions.len() == 0 {
        None
    } else {
        descriptions[0]
    }
}

/// A text with each double quote written twice.
pub open spec fn doubled(s: Seq<char>) -> Seq<char>
    decreases s.len(),
{
    if s.len() == 0 {
        Seq::empty()
    } else if s.last() == '"' {
        doubled(s.drop_last()).push('"').push('"')
    } else {
        doubled(s.drop_last()).push(s.last())
    }
}

pub open spec fn quoted(s: Seq<char>) -> Seq<char> {
    seq!['"'] + doubled(s) + seq!['"']
}

/// The text between double quotes, with its own double quotes written twice.
pub fn quoted_oracle_string(value: &str) -> (r: String)
    ensures
        r@ == quoted(value@),
{
    let v = chars_of(value);
    let mut out: Vec<char> = Vec::new();
    out.push('"');
    let mut i: usize = 0;
    proof {
        assert(out@ =~= seq!['"'] + doubled(v@.take(0)));
    }
    while i < v.len()
        invariant
            i <= v@.len(),
            out@ == seq!['"'] + doubled(v@.take(i as int)),
        decreases v@.len() - i,
    {
        let c = v[i];
        let ghost longer = v@.take(i + 1);
        proof {
            assert(longer.drop_last() =~= v@.take(i as int));
            assert(longer.last() == c);
        }
        out.push(c);
        if c == '"' {
            out.push('"');
        }
        proof {
            assert(out@ =~= seq!['"'] + doubled(longer));
        }
        i = i + 1;
    }
    out.push('"');
    proof {
        assert(v@.take(v@.len() as int) =~= v@);
        assert(out@ =~= quoted(value@));
    }
    text_of(&out)
}

proof fn lemma_doubled_is_longer(s: Seq<char>)
    ensures
        doubled(s).len() >= s.len(),
    decreases s.len(),
{
    if s.len() > 0 {
        lemma_doubled_is_longer(s.drop_last());
    }
}

proof fn lemma_doubled_injective(a: Seq<char>, b: Seq<char>)
    requires
        doubled(a) == doubled(b),
    ensures
        a == b,
    decreases a.len(),
{
    lemma_doubled_is_longer(a);
    lemma_doubled_is_longer(b);
    if a.len() == 0 || b.len() == 0 {
        assert(a =~= b);
    } else {
        let x = a.drop_last();
        let y = b.drop_last();
        assert(doubled(a).last() == a.last());
        assert(doubled(b).last() == b.last());
        assert(doubled(a).drop_last() == doubled(b).drop_last());
        if a.last() == '"' {
            assert(doubled(a).drop_last().drop_last() =~= doubled(x));
            assert(doubled(b).drop_last().drop_last() =~= doubled(y));
        } else {
            assert(doubled(a).drop_last() =~= doubled(x));
            assert(doubled(b).drop_last() =~= doubled(y));
        }
        lemma_doubled_injective(x, y);
        assert(a =~= x.push(a.last()));
        assert(b =~= y.push(b.last()));
    }
}

/// Two different texts are never quoted alike.
pub proof fn law_quoting_is_injective(a: Seq<char>, b: Seq<char>)
    requires
        quoted(a) == quoted(b),
    ensures
        a == b,
{
    assert(quoted(a).subrange(1, quoted(a).len() - 1) =~= doubled(a));
    assert(quoted(b).subrange(1, quoted(b).len() - 1) =~= doubled(b));
    lemma_doubled_injective(a, b);
}

/// Only letters, digits, `_`, `$` and `#`.
pub open spec fn plain_identifier(s: Seq<char>) -> bool {
    forall|i: int| 0 <= i < s.len() ==> is_identifier_char(#[trigger] s[i])
}

fn is_plain_identifier(s: &str) -> (r: bool)
    ensures
        r == plain_identifier(s@),
{
    let v = chars_of(s);
    let mut i: usize = 0;
    while i < v.len()
        invariant
            i <= v@.len(),
            v@ == s@,
            forall|j: int| 0 <= j < i ==> is_identifier_char(#[trigger] v@[j]),
        decreases v@.len() - i,
    {
        let c = v[i];
        if !(is_ascii_letter_char(c) || is_digit_char(c) || c == '_' || c == '$' || c == '#') {
            assert(!is_identifier_char(v@[i as int]));
            return false;
        }
        i = i + 1;
    }
    true
}

pub open spec fn user_named(r: Result<String, Fault>, value: Seq<char>) -> bool {
    match r {
        Ok(s) => plain_identifier(value) && s@ == upper(value),
        Err(f) => !plain_identifier(value) && f@ == FaultView::NotImplemented(
            "quoted Oracle username"@
                + " is a Rust shim placeholder; M1+ must route this through the oracledb crate"@,
        ),
    }
}

pub open spec fn identifier_written(r: Result<String, Fault>, value: Seq<char>) -> bool {
    match r {
        Ok(s) => plain_identifier(value) && s@ == value,
        Err(f) => !plain_identifier(value) && f@ == FaultView::NotImplemented(
            "quoted Oracle identifier"@
                + " is a Rust shim placeholder; M1+ must route this through the oracledb crate"@,
        ),
    }
}

/// A user's name as the server spells it. A name that needs quotes is refused.
pub fn user_identifier(value: &str) -> (r: Result<String, Fault>)
    ensures
        user_named(r, value@),
{
    if is_plain_identifier(value) {
        Ok(to_upper(value))
    } else {
        Err(not_implemented("quoted Oracle username"))
    }
}

/// A name that may stand in a statement as it is. A name that needs quotes is refused.
pub fn sql_identifier(value: &str) -> (r: Result<String, Fault>)
    ensures
        identifier_written(r, value@),
{
    if is_plain_identifier(value) {
        Ok(owned(value))
    } else {
        Err(not_implemented("quoted Oracle identifier"))
    }
}

/// A value that a catalogue query fetched.
pub enum CatalogValue {
    Text(String),
    Rowid(String),
    Raw(Vec<u8>),
    BinaryDouble(String),
    Number(String),
    /// A value of another type.
    Other,
}

/// The text that a value can be read as.
pub open spec fn value_text(value: Option<CatalogValue>) -> Option<Seq<char>> {
    match value {
        Some(CatalogValue::Text(s)) => Some(s@),
        Some(CatalogValue::Rowid(s)) => Some(s@),
        Some(CatalogValue::BinaryDouble(s)) => Some(s@),
        Some(CatalogValue::Number(s)) => Some(s@),
        Some(CatalogValue::Raw(b)) => if valid_utf8(b@) {
            Some(decode_utf8(b@))
        } else {
            None
        },
        _ => None,
    }
}

pub fn query_value_to_string(value: &Option<CatalogValue>) -> (r: Option<String>)
    ensures
        match r {
            Some(s) => value_text(*value) == Some(s@),
            None => value_text(*value) is None,
        },
{
    match value {
        Some(CatalogValue::Text(s)) => Some(s.clone()),
        Some(CatalogValue::Rowid(s)) => Some(s.clone()),
        Some(CatalogValue::BinaryDouble(s)) => Some(s.clone()),
        Some(CatalogValue::Number(s)) => Some(s.clone()),
        Some(CatalogValue::Raw(b)) => {
            let bytes = b.clone();
            proof {
                assert(bytes@ =~= b@);
            }
            let r = text_from_utf8(bytes);
            proof {
                if r is Some {
                    encode_utf8_decode_utf8(r->0@);
                }
            }
            r
        },
        _ => None,
    }
}

/// The integer that a value can be read as, if it lies in the given range.
pub open spec fn value_int(value: Option<CatalogValue>, lo: int, hi: int) -> Option<int> {
    match value_text(value) {
        Some(t) => within(parse_signed(t), lo, hi),
        None => None,
    }
}

/// The number that a value can be read as, if it is not beyond the given one.
pub open spec fn value_nat(value: Option<CatalogValue>, hi: int) -> Option<int> {
    match value_text(value) {
        Some(t) => match parse_unsigned(t) {
            Some(n) => if n <= hi {
                Some(n as int)
            } else {
                None
            },
            None => None,
        },
        None => None,
    }
}

/// The message of the standard library's error for a text that is no 64-bit integer.
pub uninterp spec fn parse_failure(text: Seq<char>) -> Seq<char>;

/// The message of the error that `str::parse::<i64>` of the standard library gives. The message
/// depends on the text alone; what it says is not stated here.
#[verifier::external_body]
fn parse_error_message(text: &str) -> (r: String)
    ensures
        r@ == parse_failure(text@),
{
    text.parse::<i64>().map_or_else(|e| e.to_string(), |_| String::new())
}

/// What reading a value as an integer gives.
pub open spec fn integer_of(value: Option<CatalogValue>) -> Result<i64, FaultView> {
    match value_text(value) {
        None => Err(FaultView::Runtime("query returned NULL where integer was expected"@)),
        Some(t) => match within(parse_signed(t), i64::MIN as int, i64::MAX as int) {
            Some(n) => Ok(n as i64),
            None => Err(fault_of_message(parse_failure(t))),
        },
    }
}

pub fn query_value_to_i64(value: &Option<CatalogValue>) -> (r: Result<i64, Fault>)
    ensures
        outcome(r) == integer_of(*value),
{
    match query_value_to_string(value) {
        None => Err(Fault::Runtime(owned("query returned NULL where integer was expected"))),
        Some(s) => match read_signed(s.as_str(), i64::MIN, i64::MAX) {
            Some(n) => Ok(n),
            None => Err(runtime_error(parse_error_message(s.as_str()).as_str())),
        },
    }
}

pub fn query_value_to_u32(value: &Option<CatalogValue>) -> (r: Option<u32>)
    ensures
        match r {
            Some(n) => value_nat(*value, u32::MAX as int) == Some(n as int),
            None => value_nat(*value, u32::MAX as int) is None,
        },
{
    match query_value_to_string(value) {
        None => None,
        Some(s) => match read_unsigned(s.as_str(), u32::MAX as u64) {
            Some(n) => Some(n as u32),
            None => None,
        },
    }
}

pub fn query_value_to_i8(value: &Option<CatalogValue>) -> (r: Option<i8>)
    ensures
        match r {
            Some(n) => value_int(*value, i8::MIN as int, i8::MAX as int) == Some(n as int),
            None => value_int(*value, i8::MIN as int, i8::MAX as int) is None,
        },
{
    match query_value_to_string(value) {
        None => None,
        Some(s) => match read_signed(s.as_str(), -128, 127) {
            Some(n) => Some(n as i8),
            None => None,
        },
    }
}

pub open spec fn letter_pred() -> spec_fn(char) -> bool {
    |c: char| is_ascii_letter(c)
}

pub open spec fn word_pred() -> spec_fn(char) -> bool {
    |c: char| !is_space(c)
}

/// The letters that a statement starts with, in lower case.
pub open spec fn first_keyword(statement: Seq<char>) -> Seq<char> {
    let s = trim_start(statement);
    lower(s.take(front_run(s, letter_pred())))
}

pub fn first_sql_keyword(statement: &str) -> (r: String)
    ensures
        r@ == first_keyword(statement@),
{
    let v = trim_start_chars(&chars_of(statement));
    let mut i: usize = 0;
    while i < v.len() && is_ascii_letter_char(v[i])
        invariant
            i <= v@.len(),
            forall|j: int| 0 <= j < i ==> is_ascii_letter(#[trigger] v@[j]),
        decreases v@.len() - i,
    {
        i = i + 1;
    }
    proof {
        lemma_front_run_is(v@, letter_pred(), i as int);
    }
    text_of(&lower_chars(&head(&v, i)))
}

/// The value that an `ALTER SESSION SET` statement gives to a setting.
pub open spec fn alter_session_value(statement: Seq<char>, key: Seq<char>) -> Option<Seq<char>> {
    let trimmed = trim(trim_end_char(trim(statement), ';'));
    let prefix = "alter session set "@ + key;
    if !starts_with(lower(trimmed), prefix) {
        None
    } else {
        let after = trim_start(trimmed.skip(prefix.len() as int));
        let value = if after.len() > 0 && after[0] == '=' {
            trim_start(after.skip(1))
        } else {
            after
        };
        let word = trim_char(value.take(front_run(value, word_pred())), '"');
        if word.len() == 0 {
            None
        } else {
            Some(word)
        }
    }
}

pub fn parse_alter_session_value(statement: &str, key: &str) -> (r: Option<String>)
    ensures
        match r {
            Some(s) => alter_session_value(statement@, key@) == Some(s@),
            None => alter_session_value(statement@, key@) is None,
        },
{
    let trimmed = trim_chars(&trim_end_of(&trim_chars(&chars_of(statement)), ';'));
    let prefix = chars_of(join2("alter session set ", key).as_str());
    if !text_starts_with(&lower_chars(&trimmed), &prefix) {
        return None;
    }
    let after = trim_start_chars(&tail(&trimmed, prefix.len()));
    let value = if after.len() > 0 && after[0] == '=' {
        trim_start_chars(&tail(&after, 1))
    } else {
        after
    };
    let mut i: usize = 0;
    while i < value.len() && !is_space_char(value[i])
        invariant
            i <= value@.len(),
            forall|j: int| 0 <= j < i ==> !is_space(#[trigger] value@[j]),
        decreases value@.len() - i,
    {
        i = i + 1;
    }
    proof {
        lemma_front_run_is(value@, word_pred(), i as int);
    }
    let word = trim_both_of(&head(&value, i), '"');
    if word.len() == 0 {
        None
    } else {
        Some(text_of(&word))
    }
}

/// Blanks between the words of a PL/SQL block.
pub open spec fn is_blank(c: char) -> bool {
    c == ' ' || c == '\t' || c == '\n' || c == '\r' || c as u32 == 12
}

pub open spec fn blank_pred() -> spec_fn(char) -> bool {
    |c: char| is_blank(c)
}

/// The first position at or after `from` that is not blank.
pub open spec fn after_blanks(s: Seq<char>, from: int) -> int {
    from + front_run(s.skip(from), blank_pred())
}

/// Where the list of placeholders ends that starts at `from`: before ` from `, else before a
/// semicolon, else at the end.
pub open spec fn into_list_end(low: Seq<char>, from: int) -> int {
    match find_from(low, " from "@, from) {
        Some(e) => e,
        None => semicolon_or_end(low, from),
    }
}

pub open spec fn semicolon_or_end(s: Seq<char>, from: int) -> int {
    match find_from(s, ";"@, from) {
        Some(e) => e,
        None => s.len() as int,
    }
}

/// The texts behind each `into` that is followed by a placeholder.
pub open spec fn into_lists(s: Seq<char>, from: int) -> Seq<Seq<char>>
    decreases s.len() + 1 - from,
{
    if from < 0 || from > s.len() {
        Seq::empty()
    } else {
        match find_from(lower(s), "into"@, from) {
            None => Seq::empty(),
            Some(p) => {
                proof {
                    reveal_strlit("into");
                    lemma_find_from(lower(s), "into"@, from);
                    lemma_front_run_bounds(s.skip(p + 4), blank_pred());
                }
                let b = after_blanks(s, p + 4);
                if b < s.len() && s[b] == ':' {
                    seq![s.subrange(b, into_list_end(lower(s), b))] + into_lists(s, b + 1)
                } else {
                    into_lists(s, b + 1)
                }
            },
        }
    }
}

/// The texts behind the `into` of each `returning`.
pub open spec fn returning_lists(s: Seq<char>, from: int) -> Seq<Seq<char>>
    decreases s.len() + 1 - from,
{
    if from < 0 || from > s.len() {
        Seq::empty()
    } else {
        match find_from(lower(s), "returning"@, from) {
            None => Seq::empty(),
            Some(p) => match find_from(lower(s), "into"@, p) {
                None => Seq::empty(),
                Some(q) => {
                    proof {
                        reveal_strlit("into");
                        reveal_strlit(";");
                        lemma_find_from(lower(s), "returning"@, from);
                        lemma_find_from(lower(s), "into"@, p);
                        lemma_find_from(s, ";"@, q + 4);
                    }
                    let e = semicolon_or_end(s, q + 4);
                    seq![s.subrange(q + 4, e)] + returning_lists(s, e)
                },
            },
        }
    }
}

/// The texts of a PL/SQL block whose placeholders receive values.
pub open spec fn output_lists(s: Seq<char>) -> Seq<Seq<char>> {
    into_lists(s, 0) + returning_lists(s, 0)
}

fn push_text(out: &mut Vec<String>, t: String)
    ensures
        text_views(final(out)@) == text_views(old(out)@).push(t@),
{
    let ghost before = out@;
    let ghost text = t@;
    out.push(t);
    proof {
        assert(text_views(out@) =~= text_views(before).push(text));
    }
}

fn skip_blanks(v: &Vec<char>, from: usize) -> (r: usize)
    requires
        from <= v@.len(),
    ensures
        r == after_blanks(v@, from as int),
        from <= r <= v@.len(),
{
    let mut i: usize = from;
    while i < v.len() && (v[i] == ' ' || v[i] == '\t' || v[i] == '\n' || v[i] == '\r' || v[i] as u32
        == 12)
        invariant
            from <= i <= v@.len(),
            forall|j: int| from <= j < i ==> is_blank(#[trigger] v@[j]),
        decreases v@.len() - i,
    {
        i = i + 1;
    }
    proof {
        let rest = v@.skip(from as int);
        assert forall|j: int| 0 <= j < i - from implies blank_pred()(#[trigger] rest[j]) by {
            assert(rest[j] == v@[j + from]);
        }
        if i < v@.len() {
            assert(rest[i - from] == v@[i as int]);
        }
        lemma_front_run_is(rest, blank_pred(), i - from);
    }
    i
}

fn find_semicolon(v: &Vec<char>, from: usize) -> (r: usize)
    requires
        from <= v@.len(),
    ensures
        r == semicolon_or_end(v@, from as int),
        from <= r <= v@.len(),
{
    match find_chars(v, &chars_of(";"), from) {
        Some(e) => e,
        None => v.len(),
    }
}

/// The texts of a PL/SQL block whose placeholders receive values, besides those of assignments.
pub fn plsql_output_lists(statement: &str) -> (r: Vec<String>)
    ensures
        text_views(r@) == output_lists(statement@),
{
    proof {
        reveal_strlit("into");
        reveal_strlit("returning");
        reveal_strlit(" from ");
        reveal_strlit(";");
    }
    let v = chars_of(statement);
    let low = lower_chars(&v);
    let into = chars_of("into");
    let returning = chars_of("returning");
    let mut out: Vec<String> = Vec::new();
    let mut from: usize = 0;
    let mut more = true;
    proof {
        assert(text_views(out@) + into_lists(v@, 0) =~= into_lists(v@, 0));
    }
    while more && from <= v.len()
        invariant
            v@ == statement@,
            low@ == lower(v@),
            low@.len() == v@.len(),
            into@ == "into"@,
            into@.len() == 4,
            from <= v@.len() + 1,
            more ==> text_views(out@) + into_lists(v@, from as int) == into_lists(v@, 0),
            !more ==> text_views(out@) == into_lists(v@, 0),
        decreases
                v@.len() + 1 - from,
                (if more {
                    1int
                } else {
                    0int
                }),
    {
        match find_chars(&low, &into, from) {
            None => {
                proof {
                    assert(text_views(out@) + Seq::<Seq<char>>::empty() =~= text_views(out@));
                }
                more = false;
            },
            Some(p) => {
                let b = skip_blanks(&v, p + 4);
                if b < v.len() && v[b] == ':' {
                    let e = match find_chars(&low, &chars_of(" from "), b) {
                        Some(e) => e,
                        None => {
                            proof {
                                lemma_same_semicolon(v@, b as int);
                            }
                            find_semicolon(&v, b)
                        },
                    };
                    let ghost before = text_views(out@);
                    let piece = slice_text(&v, b, e);
                    let ghost text = piece@;
                    push_text(&mut out, piece);
                    proof {
                        assert(before + (seq![text] + into_lists(v@, b + 1)) =~= before.push(text)
                            + into_lists(v@, b + 1));
                    }
                }
                if b == v.len() {
                    proof {
                        assert(into_lists(v@, b + 1) =~= Seq::<Seq<char>>::empty());
                        assert(text_views(out@) + Seq::<Seq<char>>::empty() =~= text_views(out@));
                    }
                    more = false;
                } else {
                    from = b + 1;
                }
            },
        }
    }
    proof {
        if more {
            assert(into_lists(v@, from as int) =~= Seq::<Seq<char>>::empty());
            assert(text_views(out@) + Seq::<Seq<char>>::empty() =~= text_views(out@));
        }
        assert(text_views(out@) == into_lists(v@, 0));
    }
    let ghost first = text_views(out@);
    let mut at: usize = 0;
    let mut going = true;
    while going
        invariant
            v@ == statement@,
            low@ == lower(v@),
            low@.len() == v@.len(),
            into@ == "into"@,
            into@.len() == 4,
            returning@ == "returning"@,
            at <= v@.len(),
            first == into_lists(v@, 0),
            going ==> text_views(out@) + returning_lists(v@, at as int) == first
                + returning_lists(v@, 0),
            !going ==> text_views(out@) == first + returning_lists(v@, 0),
        decreases
                v@.len() + 1 - at,
                (if going {
                    1int
                } else {
                    0int
                }),
    {
        let found = match find_chars(&low, &returning, at) {
            None => None,
            Some(p) => find_chars(&low, &into, p),
        };
        match found {
            None => {
                proof {
                    assert(returning_lists(v@, at as int) =~= Seq::<Seq<char>>::empty());
                    assert(text_views(out@) + Seq::<Seq<char>>::empty() =~= text_views(out@));
                }
                going = false;
            },
            Some(q) => {
                let e = find_semicolon(&v, q + 4);
                let ghost before = text_views(out@);
                let piece = slice_text(&v, q + 4, e);
                let ghost text = piece@;
                push_text(&mut out, piece);
                proof {
                    assert(before + (seq![text] + returning_lists(v@, e as int)) =~= before.push(
                        text,
                    ) + returning_lists(v@, e as int));
                }
                at = e;
            },
        }
    }
    out
}

proof fn lemma_same_semicolon(s: Seq<char>, from: int)
    requires
        0 <= from <= s.len(),
    ensures
        semicolon_or_end(s, from) == semicolon_or_end(lower(s), from),
    decreases s.len() - from,
{
    reveal_strlit(";");
    lemma_semicolon_search(s, from);
}

proof fn lemma_semicolon_search(s: Seq<char>, from: int)
    requires
        0 <= from,
    ensures
        find_from(s, ";"@, from) == find_from(lower(s), ";"@, from),
    decreases s.len() + 1 - from,
{
    reveal_strlit(";");
    if from + 1 <= s.len() {
        assert(s.subrange(from, from + 1) =~= seq![s[from]]);
        assert(lower(s).subrange(from, from + 1) =~= seq![lower(s)[from]]);
        assert(";"@ =~= seq![';']);
        assert((s.subrange(from, from + 1) == ";"@) == (s[from] == ';')) by {
            if s.subrange(from, from + 1) == ";"@ {
                assert(s.subrange(from, from + 1)[0] == ";"@[0]);
            }
        }
        assert((lower(s).subrange(from, from + 1) == ";"@) == (lower(s)[from] == ';')) by {
            if lower(s).subrange(from, from + 1) == ";"@ {
                assert(lower(s).subrange(from, from + 1)[0] == ";"@[0]);
            }
        }
        lemma_semicolon_search(s, from + 1);
    }
}

/// Which of the scanned names are new. The first `known` names are there already; `same[k][j]`
/// says that scanned name `k` is the same as name `j`, the known names counted first.
pub open spec fn new_names(known: int, same: Seq<Vec<bool>>, n: int) -> Seq<int>
    decreases n,
{
    if n <= 0 {
        Seq::empty()
    } else {
        let before = new_names(known, same, n - 1);
        if is_repeated(known, same[n - 1]@, before) {
            before
        } else {
            before.push(n - 1)
        }
    }
}

/// The row marks a known name, or one of the scanned names that were kept.
pub open spec fn is_repeated(known: int, row: Seq<bool>, kept: Seq<int>) -> bool {
    ||| exists|j: int| 0 <= j < known && #[trigger] row[j]
    ||| exists|i: int| 0 <= i < kept.len() && row[known + #[trigger] kept[i]]
}

/// A row for each scanned name, which covers the known names and all scanned ones.
pub open spec fn rows_cover(known: int, same: Seq<Vec<bool>>) -> bool {
    forall|k: int| 0 <= k < same.len() ==> (#[trigger] same[k])@.len() == known + same.len()
}

pub open spec fn index_views(v: Seq<usize>) -> Seq<int> {
    v.map_values(|x: usize| x as int)
}

/// Adds scanned names to known ones, each once.
pub fn merge_output_names(known: usize, same: &Vec<Vec<bool>>) -> (r: Vec<usize>)
    requires
        rows_cover(known as int, same@),
    ensures
        index_views(r@) == new_names(known as int, same@, same@.len() as int),
{
    let mut kept: Vec<usize> = Vec::new();
    let mut k: usize = 0;
    proof {
        assert(index_views(kept@) =~= new_names(known as int, same@, 0));
    }
    while k < same.len()
        invariant
            k <= same@.len(),
            rows_cover(known as int, same@),
            index_views(kept@) == new_names(known as int, same@, k as int),
            forall|i: int| 0 <= i < kept@.len() ==> #[trigger] kept@[i] < k,
        decreases same@.len() - k,
    {
        let row = &same[k];
        let width: usize = row.len();
        let mut repeated = false;
        let mut j: usize = 0;
        while j < known
            invariant
                j <= known <= row@.len(),
                repeated == exists|x: int| 0 <= x < j && #[trigger] row@[x],
            decreases known - j,
        {
            if row[j] {
                repeated = true;
            }
            j = j + 1;
        }
        let ghost repeated_known = repeated;
        let mut i: usize = 0;
        while i < kept.len()
            invariant
                i <= kept@.len(),
                k < same@.len(),
                width == row@.len() == known + same@.len(),
                forall|y: int| 0 <= y < kept@.len() ==> #[trigger] kept@[y] < k,
                repeated == (repeated_known || exists|y: int|
                    0 <= y < i && row@[known + #[trigger] index_views(kept@)[y]]),
            decreases kept@.len() - i,
        {
            assert(index_views(kept@)[i as int] == kept@[i as int]);
            if row[known + kept[i]] {
                repeated = true;
            }
            i = i + 1;
        }
        proof {
            assert(repeated == is_repeated(known as int, row@, index_views(kept@)));
        }
        if !repeated {
            let ghost before = kept@;
            kept.push(k);
            proof {
                assert(index_views(kept@) =~= index_views(before).push(k as int));
            }
        }
        k = k + 1;
    }
    kept
}

/// A placeholder's name, and whether it is quoted.
pub struct ParsedName {
    pub name: String,
    pub quoted: bool,
}

pub open spec fn is_rowid_name(n: ParsedName) -> bool {
    !n.quoted && same_ignoring_case(n.name@, "ROWID"@)
}

pub open spec fn bind_names_checked(r: Option<Fault>, names: Seq<ParsedName>) -> bool {
    &&& r is Some == exists|i: int| 0 <= i < names.len() && is_rowid_name(#[trigger] names[i])
    &&& r matches Some(f) ==> f@ == database_view("ORA-01745: invalid host/bind variable name"@)
}

/// Refuses a statement with a placeholder named `ROWID`.
pub fn validate_parse_bind_names(names: &Vec<ParsedName>) -> (r: Option<Fault>)
    ensures
        bind_names_checked(r, names@),
{
    let mut i: usize = 0;
    while i < names.len()
        invariant
            i <= names@.len(),
            forall|j: int| 0 <= j < i ==> !is_rowid_name(#[trigger] names@[j]),
        decreases names@.len() - i,
    {
        if !names[i].quoted && same_text_ignoring_case(names[i].name.as_str(), "ROWID") {
            assert(is_rowid_name(names@[i as int]));
            return Some(database_error("ORA-01745: invalid host/bind variable name"));
        }
        i = i + 1;
    }
    None
}

pub open spec fn before_returning(statement: Seq<char>) -> Option<Seq<char>> {
    match find(lower(statement), "returning"@) {
        Some(i) => Some(statement.take(i)),
        None => None,
    }
}

/// The text before the first `returning`.
pub fn text_before_returning(statement: &str) -> (r: Option<String>)
    ensures
        option_text(r) == before_returning(statement@),
{
    let v = chars_of(statement);
    match find_chars(&lower_chars(&v), &chars_of("returning"), 0) {
        Some(i) => {
            let s = slice_text(&v, 0, i);
            proof {
                assert(v@.subrange(0, i as int) =~= v@.take(i as int));
            }
            Some(s)
        },
        None => None,
    }
}

/// A placeholder of a `RETURNING` clause: its public name, and with which of the placeholders in
/// front of the clause it is the same.
pub struct ReturningName {
    pub public_name: String,
    pub same_as: Vec<bool>,
}

pub open spec fn is_bound_before(n: ReturningName) -> bool {
    exists|j: int| 0 <= j < n.same_as@.len() && #[trigger] n.same_as@[j]
}

pub open spec fn returning_checked(
    r: Option<Fault>,
    is_plsql: bool,
    names: Seq<ReturningName>,
) -> bool {
    &&& r is Some == (!is_plsql && exists|i: int|
        0 <= i < names.len() && is_bound_before(#[trigger] names[i]))
    &&& r matches Some(f) ==> exists|i: int|
        0 <= i < names.len() && is_bound_before(#[trigger] names[i]) && (forall|k: int|
            0 <= k < i ==> !is_bound_before(#[trigger] names[k])) && f@ == (
        FaultView::DmlReturningDupBinds { name: names[i].public_name@ })
}

/// Refuses a statement that returns a value into a placeholder that it also reads.
pub fn validate_dml_returning_duplicate_binds(
    is_plsql: bool,
    names: &Vec<ReturningName>,
) -> (r: Option<Fault>)
    ensures
        returning_checked(r, is_plsql, names@),
{
    if is_plsql {
        return None;
    }
    let mut i: usize = 0;
    while i < names.len()
        invariant
            i <= names@.len(),
            !is_plsql,
            forall|k: int| 0 <= k < i ==> !is_bound_before(#[trigger] names@[k]),
        decreases names@.len() - i,
    {
        let row = &names[i].same_as;
        let mut bound = false;
        let mut j: usize = 0;
        while j < row.len()
            invariant
                j <= row@.len(),
                bound == exists|x: int| 0 <= x < j && #[trigger] row@[x],
            decreases row@.len() - j,
        {
            if row[j] {
                bound = true;
            }
            j = j + 1;
        }
        assert(bound == is_bound_before(names@[i as int]));
        if bound {
            return Some(Fault::DmlReturningDupBinds { name: names[i].public_name.clone() });
        }
        i = i + 1;
    }
    None
}

/// What is wrong with the text of a statement.
#[derive(Clone, Copy, PartialEq, Eq, Structural, Debug)]
pub enum SqlError {
    MissingEndingSingleQuote,
    MissingEndingDoubleQuote,
}

pub open spec fn unreadable(err: SqlError) -> ErrorName {
    match err {
        SqlError::MissingEndingSingleQuote => ErrorName::MissingEndingSingleQuote,
        SqlError::MissingEndingDoubleQuote => ErrorName::MissingEndingDoubleQuote,
    }
}

/// What a statement that cannot be read is refused with.
pub fn sql_parse_error(err: SqlError) -> (r: Fault)
    ensures
        r@ == FaultView::Named(unreadable(err)),
{
    match err {
        SqlError::MissingEndingSingleQuote => Fault::Named(ErrorName::MissingEndingSingleQuote),
        SqlError::MissingEndingDoubleQuote => Fault::Named(ErrorName::MissingEndingDoubleQuote),
    }
}

/// A search for one character finds the first place where it stands.
proof fn lemma_find_char(front: Seq<char>, c: char, back: Seq<char>, p: Seq<char>)
    requires
        p == seq![c],
        forall|i: int| 0 <= i < front.len() ==> #[trigger] front[i] != c,
    ensures
        find(front.push(c) + back, p) == Some(front.len() as int),
        find(front, p) is None,
{
    let s = front.push(c) + back;
    let n = front.len() as int;
    assert(s.subrange(n, n + 1) =~= p);
    assert forall|j: int| 0 <= j < n implies !occurs_at(s, p, j) by {
        if occurs_at(s, p, j) {
            assert(s.subrange(j, j + 1)[0] == p[0]);
            assert(s[j] == front[j]);
        }
    }
    lemma_find_from_is(s, p, 0, n);
    assert forall|j: int| 0 <= j implies !occurs_at(front, p, j) by {
        if occurs_at(front, p, j) {
            assert(front.subrange(j, j + 1)[0] == p[0]);
            assert(front[j] == c);
        }
    }
    lemma_find_from_none(front, p, 0);
}

/// A connect string begins behind the protocol; one without a protocol is taken whole.
pub proof fn law_protocol_is_taken_off(protocol: Seq<char>, rest: Seq<char>)
    requires
        forall|i: int| 0 <= i < protocol.len() ==> #[trigger] protocol[i] != ':',
    ensures
        without_protocol(protocol + "://"@ + rest) == rest,
        without_protocol(protocol) == protocol,
{
    reveal_strlit("://");
    let s = protocol + "://"@ + rest;
    let n = protocol.len() as int;
    assert(s.subrange(n, n + 3) =~= "://"@);
    assert forall|j: int| 0 <= j < n implies !occurs_at(s, "://"@, j) by {
        if occurs_at(s, "://"@, j) {
            assert(s.subrange(j, j + 3)[0] == "://"@[0]);
            assert(s[j] == protocol[j]);
        }
    }
    lemma_find_from_is(s, "://"@, 0, n);
    assert(s.skip(n + 3) =~= rest);
    assert forall|j: int| 0 <= j implies !occurs_at(protocol, "://"@, j) by {
        if occurs_at(protocol, "://"@, j) {
            assert(protocol.subrange(j, j + 3)[0] == "://"@[0]);
            assert(protocol[j] == ':');
        }
    }
    lemma_find_from_none(protocol, "://"@, 0);
}

/// A connect string names a user without a password exactly where a name without `/` and `:` stands
/// before its first `@`, and something behind it.
pub proof fn law_user_needs_a_password(user: Seq<char>, address: Seq<char>, i: int)
    requires
        forall|k: int| 0 <= k < user.len() ==> #[trigger] user[k] != '@',
    ensures
        !user_without_password(user),
        user.len() == 0 || address.len() == 0 ==> !user_without_password(user.push('@') + address),
        0 <= i < user.len() && (user[i] == '/' || user[i] == ':') ==> !user_without_password(
            user.push('@') + address,
        ),
        user.len() > 0 && address.len() > 0 && (forall|k: int|
            0 <= k < user.len() ==> #[trigger] user[k] != '/' && user[k] != ':')
            ==> user_without_password(user.push('@') + address),
{
    reveal_strlit("@");
    reveal_strlit("/");
    reveal_strlit(":");
    assert("@"@ =~= seq!['@']);
    assert("/"@ =~= seq!['/']);
    assert(":"@ =~= seq![':']);
    lemma_find_char(user, '@', address, "@"@);
    let s = user.push('@') + address;
    assert(s.take(user.len() as int) =~= user);
    if 0 <= i < user.len() && (user[i] == '/' || user[i] == ':') {
        let p = if user[i] == '/' {
            "/"@
        } else {
            ":"@
        };
        assert(user.subrange(i, i + 1) =~= p);
        lemma_find_from(user, p, 0);
        assert(occurs_at(user, p, i));
    }
    if forall|k: int| 0 <= k < user.len() ==> #[trigger] user[k] != '/' && user[k] != ':' {
        lemma_find_char(user, '/', address, "/"@);
        lemma_find_char(user, ':', address, ":"@);
    }
}

/// The connection's own data unit goes before that of the first description; no later one counts.
pub proof fn law_own_data_unit_goes_first(own: Option<u32>, descriptions: Seq<Option<u32>>)
    ensures
        own is Some ==> sdu_of(own, descriptions) == own,
        own is None && descriptions.len() > 0 ==> sdu_of(own, descriptions) == descriptions[0],
        own is None && descriptions.len() == 0 ==> sdu_of(own, descriptions) is None,
{
}

/// A quoted text stands between double quotes. It is itself where it has none; each of its own is
/// written twice, and texts are quoted piece by piece.
pub proof fn law_quotes_are_written_twice(s: Seq<char>, c: char)
    ensures
        quoted(s).len() >= 2 && quoted(s)[0] == '"' && quoted(s).last() == '"',
        quoted(s).subrange(1, quoted(s).len() - 1) == doubled(s),
        doubled(Seq::empty()).len() == 0,
        c != '"' ==> doubled(s.push(c)) == doubled(s).push(c),
        c == '"' ==> doubled(s.push(c)) == doubled(s).push('"').push('"'),
{
    assert(quoted(s).subrange(1, quoted(s).len() - 1) =~= doubled(s));
    assert(s.push(c).drop_last() =~= s);
}

/// A name stands in a statement as it is exactly where all its characters are letters, digits, `_`,
/// `$` or `#`. A user's name is spelled in upper case.
pub proof fn law_plain_names_stand_as_they_are(
    u: Result<String, Fault>,
    n: Result<String, Fault>,
    value: Seq<char>,
    i: int,
)
    requires
        user_named(u, value),
        identifier_written(n, value),
    ensures
        u is Ok <==> n is Ok,
        n matches Ok(s) ==> s@ == value,
        u matches Ok(s) ==> s@ == upper(value),
        0 <= i < value.len() && (value[i] == '"' || value[i] == ' ' || value[i] == ';' || value[i]
            == '.') ==> n is Err,
        n is Err ==> exists|k: int| 0 <= k < value.len() && !is_identifier_char(#[trigger] value[k]),
{
}

/// A value of the dictionary reads as the text it holds, and as a number where that text is one.
pub proof fn law_dictionary_value_reads_as_its_text(t: String, n: int)
    requires
        t@ == int_text(n),
    ensures
        value_text(Some(CatalogValue::Text(t))) == Some(t@),
        value_text(Some(CatalogValue::Rowid(t))) == Some(t@),
        value_text(Some(CatalogValue::Number(t))) == Some(t@),
        value_text(Some(CatalogValue::BinaryDouble(t))) == Some(t@),
        value_text(None) is None && value_text(Some(CatalogValue::Other)) is None,
        value_int(Some(CatalogValue::Number(t)), i8::MIN as int, i8::MAX as int) == if -128 <= n
            <= 127 {
            Some(n)
        } else {
            None
        },
        i64::MIN <= n <= i64::MAX ==> integer_of(Some(CatalogValue::Number(t))) == Ok::<
            i64,
            FaultView,
        >(n as i64),
        !(i64::MIN <= n <= i64::MAX) ==> integer_of(Some(CatalogValue::Number(t))) is Err,
        integer_of(None) is Err,
        0 <= n <= u32::MAX ==> value_nat(Some(CatalogValue::Number(t)), u32::MAX as int) == Some(n),
        n < 0 || n > u32::MAX ==> value_nat(Some(CatalogValue::Number(t)), u32::MAX as int) is None,
{
    law_decimal_round_trip(n);
    if n < 0 {
        assert(t@[0] == '-');
        assert(!crate::text::is_digit(t@[0]));
    } else {
        assert(parse_signed(t@) == Some(n));
        if t@.len() > 0 && t@[0] == '-' {
            assert(parse_signed(t@)->0 <= 0);
            assert(n == 0);
            assert(crate::decimal::nat_text(0)[0] == '0');
        }
    }
}

/// The keyword of a statement is its first word: neither space before it nor anything behind it
/// counts, nor does case.
pub proof fn law_keyword_is_the_first_word(space: Seq<char>, word: Seq<char>, rest: Seq<char>)
    requires
        forall|i: int| 0 <= i < space.len() ==> is_space(#[trigger] space[i]),
        forall|i: int| 0 <= i < word.len() ==> is_ascii_letter(#[trigger] word[i]),
        word.len() > 0,
        rest.len() == 0 || !is_ascii_letter(rest[0]),
    ensures
        first_keyword(space + word + rest) == lower(word),
        first_keyword(rest.skip(rest.len() as int)).len() == 0,
{
    let s = space + word + rest;
    let n = space.len() as int;
    assert forall|i: int| 0 <= i < n implies space_pred()(#[trigger] s[i]) by {
        assert(s[i] == space[i]);
    }
    assert(s[n] == word[0]);
    assert(is_ascii_letter(word[0]));
    lemma_front_run_is(s, space_pred(), n);
    let t = s.skip(n);
    assert(t =~= word + rest);
    assert forall|i: int| 0 <= i < word.len() implies letter_pred()(#[trigger] t[i]) by {
        assert(t[i] == word[i]);
    }
    if word.len() < t.len() {
        assert(t[word.len() as int] == rest[0]);
    }
    lemma_front_run_is(t, letter_pred(), word.len() as int);
    assert(t.take(word.len() as int) =~= word);
    let e = rest.skip(rest.len() as int);
    assert(e.len() == 0);
    lemma_front_run_bounds(e, space_pred());
    lemma_front_run_bounds(trim_start(e), letter_pred());
}

proof fn lemma_trim_nothing(s: Seq<char>)
    requires
        s.len() > 0,
        !is_space(s[0]),
        !is_space(s.last()),
    ensures
        trim(s) == s,
        trim_start(s) == s,
{
    lemma_front_run_is(s, space_pred(), 0);
    assert(s.skip(0) =~= s);
    lemma_back_cut_is(s, space_pred(), s.len() as int);
    assert(s.take(s.len() as int) =~= s);
}

/// The statement that sets a value is read back as that value.
pub proof fn law_session_value_is_read_back(key: Seq<char>, value: Seq<char>)
    requires
        plain_identifier(value),
        value.len() > 0,
        lower(key) == key,
        key.len() > 0,
    ensures
        alter_session_value("alter session set "@ + key + " = "@ + value, key) == Some(value),
{
    reveal_strlit("alter session set ");
    reveal_strlit(" = ");
    let head = "alter session set "@;
    let s = head + key + " = "@ + value;
    assert(s[0] == 'a');
    assert(s.last() == value.last());
    assert(is_identifier_char(value[value.len() - 1]));
    lemma_trim_nothing(s);
    lemma_back_cut_is(s, char_pred(';'), s.len() as int);
    assert(s.take(s.len() as int) =~= s);
    let prefix = head + key;
    let n = prefix.len() as int;
    assert(lower(head) =~= head) by {
        assert forall|i: int| 0 <= i < head.len() implies lower(head)[i] == head[i] by {}
    }
    assert(lower(s).take(n) =~= prefix) by {
        assert forall|i: int| 0 <= i < n implies lower(s)[i] == prefix[i] by {
            if i < head.len() {
                assert(s[i] == head[i]);
                assert(lower(head)[i] == head[i]);
            } else {
                assert(s[i] == key[i - head.len()]);
                assert(lower(key)[i - head.len()] == key[i - head.len()]);
            }
        }
    }
    let after = s.skip(n);
    assert(after =~= " = "@ + value);
    assert(after[0] == ' ' && after[1] == '=');
    lemma_front_run_is(after, space_pred(), 1);
    let assign = trim_start(after);
    assert(assign =~= seq!['=', ' '] + value);
    let behind = assign.skip(1);
    assert(behind =~= seq![' '] + value);
    assert(behind[1] == value[0]);
    assert(is_identifier_char(value[0]));
    lemma_front_run_is(behind, space_pred(), 1);
    assert(trim_start(behind) =~= value);
    assert forall|i: int| 0 <= i < value.len() implies word_pred()(#[trigger] value[i]) by {
        assert(is_identifier_char(value[i]));
    }
    lemma_front_run_is(value, word_pred(), value.len() as int);
    assert(value.take(value.len() as int) =~= value);
    lemma_front_run_is(value, char_pred('"'), 0);
    assert(value.skip(0) =~= value);
    lemma_back_cut_is(value, char_pred('"'), value.len() as int);
}

/// Each list behind an `into` begins with a placeholder and is a piece of the statement. A statement
/// without `into` has no such list.
pub proof fn law_output_lists_begin_with_a_placeholder(s: Seq<char>, from: int, k: int)
    requires
        0 <= from,
        0 <= k < into_lists(s, from).len(),
    ensures
        into_lists(s, from)[k].len() > 0,
        into_lists(s, from)[k][0] == ':',
        find_from(lower(s), "into"@, from) is Some,
    decreases s.len() + 1 - from,
{
    reveal_strlit("into");
    reveal_strlit(" from ");
    reveal_strlit(";");
    lemma_find_from(lower(s), "into"@, from);
    let p = find_from(lower(s), "into"@, from)->0;
    lemma_front_run_bounds(s.skip(p + 4), blank_pred());
    let b = after_blanks(s, p + 4);
    if b < s.len() && s[b] == ':' {
        if k == 0 {
            lemma_find_from(lower(s), " from "@, b);
            lemma_find_from(lower(s), ";"@, b);
            let e = into_list_end(lower(s), b);
            assert(lower(s)[b] == ':');
            if e == b {
                if find_from(lower(s), " from "@, b) is Some {
                    assert(lower(s).subrange(b, b + 6)[0] == " from "@[0]);
                } else {
                    assert(lower(s).subrange(b, b + 1)[0] == ";"@[0]);
                }
            }
            assert(b < e <= s.len());
            assert(into_lists(s, from)[0] == s.subrange(b, e));
        } else {
            assert(into_lists(s, from)[k] == into_lists(s, b + 1)[k - 1]);
            law_output_lists_begin_with_a_placeholder(s, b + 1, k - 1);
        }
    } else {
        law_output_lists_begin_with_a_placeholder(s, b + 1, k);
    }
}

/// The list behind an `into` ends before ` from `, and without that before the semicolon.
pub proof fn law_output_list_ends_in_front_of_from(s: Seq<char>, from: int, i: int)
    requires
        0 <= from <= s.len(),
    ensures
        from <= into_list_end(s, from) <= s.len(),
        find_from(s, " from "@, from) is Some ==> s.subrange(
            into_list_end(s, from),
            into_list_end(s, from) + 6,
        ) == " from "@,
        find_from(s, " from "@, from) is None && from <= i < into_list_end(s, from) ==> s[i] != ';',
        find_from(s, " from "@, from) is None && into_list_end(s, from) < s.len()
            ==> s[into_list_end(s, from)] == ';',
        from <= i < semicolon_or_end(s, from) ==> s[i] != ';',
{
    reveal_strlit(" from ");
    reveal_strlit(";");
    lemma_find_from(s, " from "@, from);
    lemma_find_from(s, ";"@, from);
    assert(";"@ =~= seq![';']);
    if from <= i < semicolon_or_end(s, from) && s[i] == ';' {
        assert(s.subrange(i, i + 1) =~= ";"@);
        assert(occurs_at(s, ";"@, i));
    }
    let e = semicolon_or_end(s, from);
    if find_from(s, ";"@, from) is Some {
        assert(s.subrange(e, e + 1)[0] == ";"@[0]);
    }
}

/// A statement that returns into placeholders has their list behind the `into` that follows
/// `returning`, up to the semicolon.
pub proof fn law_returning_list_stands_behind_into(s: Seq<char>, from: int, q: int)
    requires
        0 <= from <= s.len(),
        find_from(lower(s), "returning"@, from) is Some,
        find_from(lower(s), "into"@, find_from(lower(s), "returning"@, from)->0) == Some(q),
    ensures
        returning_lists(s, from).len() > 0,
        returning_lists(s, from)[0] == s.subrange(q + 4, semicolon_or_end(s, q + 4)),
        lower(s).subrange(q, q + 4) == "into"@,
{
    reveal_strlit("into");
    lemma_find_from(lower(s), "into"@, find_from(lower(s), "returning"@, from)->0);
    lemma_find_from(lower(s), "returning"@, from);
}

/// Both kinds of lists receive values: those behind `into`, then those of `returning`. A statement
/// with neither word has none.
pub proof fn law_statement_without_into_has_no_outputs(s: Seq<char>)
    ensures
        find(lower(s), "into"@) is None ==> output_lists(s).len() == 0,
        output_lists(s).len() == into_lists(s, 0).len() + returning_lists(s, 0).len(),
        find(lower(s), "returning"@) is None ==> output_lists(s) == into_lists(s, 0),
{
    if find(lower(s), "into"@) is None {
        lemma_find_from(lower(s), "into"@, 0);
        if find(lower(s), "returning"@) is Some {
            let p = find(lower(s), "returning"@)->0;
            lemma_find_from(lower(s), "returning"@, 0);
            assert forall|j: int| p <= j implies !occurs_at(lower(s), "into"@, j) by {}
            lemma_find_from_none(lower(s), "into"@, p);
        }
    }
    if find(lower(s), "returning"@) is None {
        assert(output_lists(s) =~= into_lists(s, 0));
    }
}

/// Scanned names are kept in their order, each once: one that is kept is no known name and none that
/// was kept before, and one that is not kept is one of these.
pub proof fn law_each_new_name_is_kept_once(known: int, same: Seq<Vec<bool>>, n: int, k: int)
    requires
        0 <= k < n <= same.len(),
        0 <= known,
    ensures
        forall|i: int|
            0 <= i < new_names(known, same, n).len() ==> 0 <= #[trigger] new_names(known, same, n)[i]
                < n,
        forall|i: int, j: int|
            0 <= i < j < new_names(known, same, n).len() ==> #[trigger] new_names(known, same, n)[i]
                < #[trigger] new_names(known, same, n)[j],
        new_names(known, same, n).contains(k) <==> !is_repeated(
            known,
            same[k]@,
            new_names(known, same, k),
        ),
        (exists|j: int| 0 <= j < known && #[trigger] same[k]@[j]) ==> !new_names(
            known,
            same,
            n,
        ).contains(k),
    decreases n,
{
    lemma_new_names_bounds(known, same, n);
    let before = new_names(known, same, n - 1);
    lemma_new_names_bounds(known, same, n - 1);
    let all = new_names(known, same, n);
    if k < n - 1 {
        law_each_new_name_is_kept_once(known, same, n - 1, k);
        assert(all.contains(k) <==> before.contains(k)) by {
            if before.contains(k) {
                let i = choose|i: int| 0 <= i < before.len() && before[i] == k;
                assert(all[i] == k);
            }
            if all.contains(k) {
                let i = choose|i: int| 0 <= i < all.len() && all[i] == k;
                assert(i < before.len());
                assert(before[i] == k);
            }
        }
    } else {
        if is_repeated(known, same[k]@, before) {
            if all.contains(k) {
                let i = choose|i: int| 0 <= i < all.len() && all[i] == k;
                assert(before[i] == k);
            }
        } else {
            assert(all.last() == k);
            assert(all[all.len() - 1] == k);
        }
    }
}

proof fn lemma_new_names_bounds(known: int, same: Seq<Vec<bool>>, n: int)
    requires
        n <= same.len(),
    ensures
        forall|i: int|
            0 <= i < new_names(known, same, n).len() ==> 0 <= #[trigger] new_names(known, same, n)[i]
                < n,
        forall|i: int, j: int|
            0 <= i < j < new_names(known, same, n).len() ==> #[trigger] new_names(known, same, n)[i]
                < #[trigger] new_names(known, same, n)[j],
    decreases n,
{
    if n > 0 {
        lemma_new_names_bounds(known, same, n - 1);
        let before = new_names(known, same, n - 1);
        let all = new_names(known, same, n);
        assert(all == before || all == before.push(n - 1));
        assert forall|i: int| 0 <= i < all.len() implies 0 <= #[trigger] all[i] < n by {
            if i < before.len() {
                assert(all[i] == before[i]);
            }
        }
        assert forall|i: int, j: int| 0 <= i < j < all.len() implies #[trigger] all[i]
            < #[trigger] all[j] by {
            assert(all[i] == before[i]);
            if j < before.len() {
                assert(all[j] == before[j]);
            }
        }
    } else {
        assert(new_names(known, same, n).len() == 0);
    }
}

/// A placeholder may have any name but `ROWID`, in any case; between quotes it may have that too.
pub proof fn law_rowid_is_no_placeholder(r: Option<Fault>, names: Seq<ParsedName>, i: int)
    requires
        bind_names_checked(r, names),
        0 <= i < names.len(),
    ensures
        !names[i].quoted && upper(names[i].name@) == "ROWID"@ ==> r is Some,
        (forall|k: int| 0 <= k < names.len() ==> (#[trigger] names[k]).quoted) ==> r is None,
        (forall|k: int| 0 <= k < names.len() ==> (#[trigger] names[k]).name@.len() != 5) ==> r
            is None,
{
    reveal_strlit("ROWID");
    assert(upper("ROWID"@) =~= "ROWID"@);
    lemma_same_ignoring_case_upper(names[i].name@, "ROWID"@);
    if !names[i].quoted && upper(names[i].name@) == "ROWID"@ {
        assert(is_rowid_name(names[i]));
    }
    assert forall|k: int| 0 <= k < names.len() && is_rowid_name(names[k]) implies
        names[k].name@.len() == 5 by {
        assert(lower(names[k].name@).len() == lower("ROWID"@).len());
    }
}

/// What stands before `returning` is the front of the statement up to the first such word, in any
/// case.
pub proof fn law_returning_is_cut_off(s: Seq<char>, j: int)
    ensures
        before_returning(s) matches Some(t) ==> {
            &&& t.len() + 9 <= s.len()
            &&& s.take(t.len() as int) == t
            &&& lower(s).subrange(t.len() as int, (t.len() + 9) as int) == "returning"@
            &&& 0 <= j < t.len() ==> lower(s).subrange(j, j + 9) != "returning"@
        },
        before_returning(s) is None && 0 <= j && j + 9 <= s.len() ==> lower(s).subrange(j, j + 9)
            != "returning"@,
{
    reveal_strlit("returning");
    lemma_find_from(lower(s), "returning"@, 0);
    if 0 <= j && j + 9 <= s.len() && lower(s).subrange(j, j + 9) == "returning"@ {
        assert(occurs_at(lower(s), "returning"@, j));
    }
}

/// A statement cannot return into a placeholder that it also reads; the first such is named. A
/// PL/SQL block can.
pub proof fn law_returned_placeholder_is_not_read(
    r: Option<Fault>,
    is_plsql: bool,
    names: Seq<ReturningName>,
    i: int,
    j: int,
)
    requires
        returning_checked(r, is_plsql, names),
        0 <= i < names.len(),
    ensures
        is_plsql ==> r is None,
        !is_plsql && 0 <= j < names[i].same_as@.len() && names[i].same_as@[j] ==> r is Some,
        r matches Some(f) ==> (f@ matches FaultView::DmlReturningDupBinds { name } && exists|k: int|
            0 <= k < names.len() && (#[trigger] names[k]).public_name@ == name),
        !is_plsql && i == 0 && 0 <= j < names[0].same_as@.len() && names[0].same_as@[j] ==> (
        r matches Some(f) && f@ == (FaultView::DmlReturningDupBinds {
            name: names[0].public_name@,
        })),
{
    if 0 <= j < names[i].same_as@.len() && names[i].same_as@[j] {
        assert(is_bound_before(names[i]));
    }
}

/// A quote that is not closed is named by its kind.
pub proof fn law_open_quote_is_named(a: SqlError, b: SqlError)
    ensures
        unreadable(a) == unreadable(b) <==> a == b,
        unreadable(a) == ErrorName::MissingEndingSingleQuote <==> a
            == SqlError::MissingEndingSingleQuote,
{
}

/// A placeholder that may not have its name is refused with error 1745.
pub proof fn law_refused_placeholder_has_its_number(r: Option<Fault>, names: Seq<ParsedName>)
    requires
        bind_names_checked(r, names),
    ensures
        r matches Some(f) ==> (f@ matches FaultView::Database(e) && e.code == Some(1745i64)),
{
    reveal_strlit("ORA-");
    reveal_strlit("ORA-01745: invalid host/bind variable name");
    let m = "ORA-01745: invalid host/bind variable name"@;
    assert(m.take(4) =~= "ORA-"@);
    lemma_ora_number(m, 0, 1, 7, 4, 5);
}

} // verus!
