//! Whole numbers as decimal text, and back.
use vstd::prelude::*;

use crate::text::{chars_of, is_digit_char, text_of};
#[allow(unused_imports)]
use crate::text::is_digit;

verus! {

pub open spec fn digit_char(d: int) -> char {
    ('0' as u32 + d) as char
}

pub open spec fn digit_value(c: char) -> nat {
    (c as u32 - '0' as u32) as nat
}

/// The decimal digits of a number, without leading zeros.
pub open spec fn nat_text(n: nat) -> Seq<char>
    decreases n,
{
    if n < 10 {
        seq![digit_char(n as int)]
    } else {
        nat_text(n / 10).push(digit_char((n % 10) as int))
    }
}

pub open spec fn int_text(n: int) -> Seq<char> {
    if n < 0 {
        seq!['-'] + nat_text((-n) as nat)
    } else {
        nat_text(n as nat)
    }
}

pub open spec fn all_digits(s: Seq<char>) -> bool {
    forall|i: int| 0 <= i < s.len() ==> is_digit(#[trigger] s[i])
}

/// The number that a run of decimal digits stands for.
pub open spec fn digits_value(s: Seq<char>) -> nat
    decreases s.len(),
{
    if s.len() == 0 {
        0
    } else {
        digits_value(s.drop_last()) * 10 + digit_value(s.last())
    }
}

/// The number written as decimal digits, with an optional `+` in front.
pub open spec fn parse_unsigned(s: Seq<char>) -> Option<nat> {
    let digits = if s.len() > 0 && s[0] == '+' {
        s.skip(1)
    } else {
        s
    };
    if digits.len() > 0 && all_digits(digits) {
        Some(digits_value(digits))
    } else {
        None
    }
}

/// The number written as decimal digits, with an optional sign in front.
pub open spec fn parse_signed(s: Seq<char>) -> Option<int> {
    if s.len() > 0 && s[0] == '-' {
        let digits = s.skip(1);
        if digits.len() > 0 && all_digits(digits) {
            Some(-(digits_value(digits) as int))
        } else {
            None
        }
    } else {
        match parse_unsigned(s) {
            Some(n) => Some(n as int),
            None => None,
        }
    }
}

/// A parsed number, if it lies in the given range.
pub open spec fn within(parsed: Option<int>, lo: int, hi: int) -> Option<int> {
    match parsed {
        Some(n) => if lo <= n <= hi {
            Some(n)
        } else {
            None
        },
        None => None,
    }
}

pub proof fn lemma_digit_round_trip(d: int)
    requires
        0 <= d < 10,
    ensures
        is_digit(digit_char(d)),
        digit_value(digit_char(d)) == d,
{
}

pub proof fn lemma_nat_text(n: nat)
    ensures
        nat_text(n).len() > 0,
        all_digits(nat_text(n)),
        digits_value(nat_text(n)) == n,
    decreases n,
{
    if n < 10 {
        lemma_digit_round_trip(n as int);
        let s = seq![digit_char(n as int)];
        assert(s.drop_last() =~= Seq::<char>::empty());
        assert(digits_value(s.drop_last()) == 0);
        assert(digits_value(s) == digits_value(s.drop_last()) * 10 + digit_value(s.last()));
    } else {
        lemma_nat_text(n / 10);
        lemma_digit_round_trip((n % 10) as int);
        let s = nat_text(n);
        assert(s.drop_last() =~= nat_text(n / 10));
    }
}

/// Reading back the decimal text of a number gives the number.
pub proof fn law_decimal_round_trip(n: int)
    ensures
        parse_signed(int_text(n)) == Some(n),
{
    if n < 0 {
        lemma_nat_text((-n) as nat);
        assert(int_text(n).skip(1) =~= nat_text((-n) as nat));
    } else {
        lemma_nat_text(n as nat);
        assert(is_digit(nat_text(n as nat)[0]));
    }
}

proof fn lemma_prefix_value(s: Seq<char>, k: int)
    requires
        0 <= k <= s.len(),
    ensures
        digits_value(s.take(k)) <= digits_value(s),
    decreases s.len() - k,
{
    if k < s.len() {
        lemma_prefix_value(s, k + 1);
        assert(s.take(k + 1).drop_last() =~= s.take(k));
    } else {
        assert(s.take(k) =~= s);
    }
}

/// The decimal text of a number.
pub fn u64_text(n: u64) -> (r: String)
    ensures
        r@ == nat_text(n as nat),
{
    text_of(&u64_digits(n))
}

fn u64_digits(n: u64) -> (v: Vec<char>)
    ensures
        v@ == nat_text(n as nat),
    decreases n,
{
    let mut v: Vec<char> = if n < 10 {
        Vec::new()
    } else {
        u64_digits(n / 10)
    };
    let d: u8 = (n % 10) as u8;
    v.push((48 + d) as char);
    proof {
        assert(v@ =~= nat_text(n as nat));
    }
    v
}

pub fn i64_text(n: i64) -> (r: String)
    ensures
        r@ == int_text(n as int),
{
    if n < 0 {
        let m: u64 = (-(n as i128)) as u64;
        let digits = u64_digits(m);
        let mut r = String::new();
        r.push('-');
        let t = text_of(&digits);
        r.append(t.as_str());
        proof {
            assert(r@ =~= int_text(n as int));
        }
        r
    } else {
        u64_text(n as u64)
    }
}

/// The value of the digits from position `from` on, if there are any and it fits.
fn digits_from(s: &Vec<char>, from: usize) -> (r: Option<u64>)
    requires
        from <= s@.len(),
    ensures
        ({
            let digits = s@.skip(from as int);
            let good = digits.len() > 0 && all_digits(digits) && digits_value(digits) <= u64::MAX;
            match r {
                Some(n) => good && n == digits_value(digits),
                None => !good,
            }
        }),
{
    let ghost digits = s@.skip(from as int);
    if from == s.len() {
        return None;
    }
    let mut acc: u64 = 0;
    let mut i: usize = from;
    proof {
        assert(digits.take(0) =~= Seq::<char>::empty());
    }
    while i < s.len()
        invariant
            from <= i <= s@.len(),
            digits == s@.skip(from as int),
            forall|j: int| 0 <= j < i - from ==> is_digit(#[trigger] digits[j]),
            acc == digits_value(digits.take(i - from)),
        decreases s@.len() - i,
    {
        proof {
            assert(digits[i - from] == s@[i as int]);
            assert(digits.take(i - from + 1).drop_last() =~= digits.take(i - from));
            lemma_prefix_value(digits, i - from + 1);
        }
        if !is_digit_char(s[i]) {
            return None;
        }
        let d: u64 = (s[i] as u32 - '0' as u32) as u64;
        if acc > (u64::MAX - d) / 10 {
            return None;
        }
        acc = acc * 10 + d;
        i = i + 1;
    }
    proof {
        assert(digits.take(digits.len() as int) =~= digits);
    }
    Some(acc)
}

/// Reads an unsigned number no larger than `hi`.
pub fn read_unsigned(s: &str, hi: u64) -> (r: Option<u64>)
    ensures
        match r {
            Some(n) => parse_unsigned(s@) == Some(n as nat) && n <= hi,
            None => parse_unsigned(s@) is None || parse_unsigned(s@)->0 > hi,
        },
{
    let v = chars_of(s);
    let from: usize = if v.len() > 0 && v[0] == '+' {
        1
    } else {
        0
    };
    proof {
        if from == 0 {
            assert(v@.skip(0) =~= v@);
        }
    }
    match digits_from(&v, from) {
        Some(n) => if n <= hi {
            Some(n)
        } else {
            None
        },
        None => None,
    }
}

/// Reads a signed number between `lo` and `hi`.
pub fn read_signed(s: &str, lo: i64, hi: i64) -> (r: Option<i64>)
    ensures
        match r {
            Some(n) => within(parse_signed(s@), lo as int, hi as int) == Some(n as int),
            None => within(parse_signed(s@), lo as int, hi as int) is None,
        },
{
    let v = chars_of(s);
    let negative = v.len() > 0 && v[0] == '-';
    let from: usize = if negative || (v.len() > 0 && v[0] == '+') {
        1
    } else {
        0
    };
    proof {
        if from == 0 {
            assert(v@.skip(0) =~= v@);
        }
    }
    match digits_from(&v, from) {
        Some(n) => {
            let value: i128 = if negative {
                -(n as i128)
            } else {
                n as i128
            };
            if lo as i128 <= value && value <= hi as i128 {
                Some(value as i64)
            } else {
                None
            }
        },
        None => None,
    }
}

/// Each further digit counts the digits before it ten times. A sign stands in front only: `+` changes
/// nothing, `-` the sign of the number, which an unsigned number cannot have.
pub proof fn law_digits_count_by_their_places(s: Seq<char>, d: char)
    requires
        s.len() > 0,
        all_digits(s),
        is_digit(d),
    ensures
        parse_unsigned(s) is Some,
        parse_unsigned(s.push(d)) == Some(
            (parse_unsigned(s)->0 * 10 + (d as u32 - '0' as u32)) as nat,
        ),
        parse_unsigned(seq!['+'] + s) == parse_unsigned(s),
        parse_unsigned(seq!['-'] + s) is None,
        parse_signed(s) == Some(parse_unsigned(s)->0 as int),
        parse_signed(seq!['-'] + s) == Some(-(parse_unsigned(s)->0 as int)),
{
    let t = s.push(d);
    assert(is_digit(s[0]));
    assert(t[0] == s[0]);
    assert forall|i: int| 0 <= i < t.len() implies is_digit(#[trigger] t[i]) by {
        if i < s.len() {
            assert(t[i] == s[i]);
        }
    }
    assert(t.drop_last() =~= s);
    assert((seq!['+'] + s).skip(1) =~= s);
    assert((seq!['-'] + s).skip(1) =~= s);
    let m = seq!['-'] + s;
    assert(!is_digit(m[0]));
}

/// A text with any other character, or without a digit, is no number.
pub proof fn law_other_characters_are_no_number(s: Seq<char>, i: int)
    requires
        0 <= i < s.len(),
        !is_digit(s[i]),
    ensures
        i > 0 ==> parse_unsigned(s) is None && parse_signed(s) is None,
        s[i] != '+' ==> parse_unsigned(s) is None,
        s[i] != '+' && s[i] != '-' ==> parse_signed(s) is None,
        s.len() == 1 ==> parse_unsigned(s) is None && parse_signed(s) is None,
        parse_unsigned(Seq::empty()) is None,
{
    if i > 0 {
        assert(s.skip(1)[i - 1] == s[i]);
    }
}

/// A number beyond its limits is none.
pub proof fn law_numbers_keep_their_limits(n: int, lo: int, hi: int)
    ensures
        within(Some(n), lo, hi) == Some(n) <==> lo <= n <= hi,
        within(Some(n), lo, hi) is None <==> n < lo || hi < n,
        within(None, lo, hi) is None,
{
}

} // verus!
