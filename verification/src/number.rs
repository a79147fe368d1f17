//! Whole numbers as decimal text.

use vstd::prelude::*;
use crate::text::{chars_of, string_of_char};

verus! {

/// The digit character of a value below ten.
pub open spec fn digit_char(d: nat) -> char {
    (48 + d) as char
}

/// Whether a character is an ASCII digit.
pub open spec fn digit(c: char) -> bool {
    '0' <= c && c <= '9'
}

/// The value of a digit character.
pub open spec fn digit_value(c: char) -> nat {
    (c as u32 - 48) as nat
}

/// The decimal notation of `n`.
pub open spec fn decimal(n: nat) -> Seq<char>
    decreases n,
{
    if n < 10 {
        seq![digit_char(n)]
    } else {
        decimal(n / 10).push(digit_char(n % 10))
    }
}

/// The decimal notation of a whole number that may be negative.
pub open spec fn signed_decimal(n: int) -> Seq<char> {
    if n < 0 {
        seq!['-'] + decimal((-n) as nat)
    } else {
        decimal(n as nat)
    }
}

/// Whether all characters are digits.
pub open spec fn all_digits(s: Seq<char>) -> bool {
    forall|i: int| 0 <= i < s.len() ==> digit(#[trigger] s[i])
}

/// The number that a sequence of digits stands for.
pub open spec fn value(s: Seq<char>) -> nat
    decreases s.len(),
{
    if s.len() == 0 {
        0
    } else {
        value(s.drop_last()) * 10 + digit_value(s.last())
    }
}

/// The digits that follow an optional plus sign.
pub open spec fn after_plus(s: Seq<char>) -> Seq<char> {
    if s.len() > 0 && s[0] == '+' {
        s.skip(1)
    } else {
        s
    }
}

/// The number that `s` denotes, where it is at most `max`: digits, with an optional plus sign.
pub open spec fn number_upto(s: Seq<char>, max: nat) -> Option<nat> {
    let d = after_plus(s);
    if d.len() > 0 && all_digits(d) && value(d) <= max {
        Some(value(d))
    } else {
        None
    }
}

/// The number that `s` denotes as a signed 64-bit value.
pub open spec fn signed_number(s: Seq<char>) -> Option<int> {
    if s.len() > 0 && s[0] == '-' {
        let d = s.skip(1);
        if d.len() > 0 && all_digits(d) && value(d) <= 0x8000_0000_0000_0000 {
            Some(-(value(d) as int))
        } else {
            None
        }
    } else {
        match number_upto(s, 0x7fff_ffff_ffff_ffff) {
            Some(n) => Some(n as int),
            None => None,
        }
    }
}

/// More digits never make a smaller number.
pub proof fn lemma_value_grows(s: Seq<char>, k: int)
    requires
        0 <= k <= s.len(),
    ensures
        value(s.take(k)) <= value(s),
    decreases s.len() - k,
{
    if k < s.len() {
        lemma_value_grows(s, k + 1);
        assert(s.take(k + 1).drop_last() =~= s.take(k));
    } else {
        assert(s.take(k) =~= s);
    }
}

/// Decimal notation is a non-empty run of digits that denotes the number.
pub proof fn lemma_decimal(n: nat)
    ensures
        decimal(n).len() > 0,
        all_digits(decimal(n)),
        value(decimal(n)) == n,
    decreases n,
{
    if n < 10 {
        assert(decimal(n).drop_last() =~= Seq::<char>::empty());
        assert(value(decimal(n).drop_last()) == 0);
        assert(decimal(n).last() == digit_char(n));
    } else {
        lemma_decimal(n / 10);
        let d = decimal(n / 10);
        assert(decimal(n).drop_last() =~= d);
        assert(decimal(n).last() == digit_char(n % 10));
        assert forall|i: int| 0 <= i < decimal(n).len() implies digit(#[trigger] decimal(n)[i]) by {
            if i < d.len() {
                assert(decimal(n)[i] == d[i]);
            }
        }
    }
}

/// A number written in decimal notation is read back unchanged.
pub proof fn law_decimal_reads_back(n: nat, max: nat)
    requires
        n <= max,
    ensures
        number_upto(decimal(n), max) == Some(n),
{
    lemma_decimal(n);
    assert(digit(decimal(n)[0]));
    assert(after_plus(decimal(n)) == decimal(n));
}

/// Different numbers have different notations.
pub proof fn law_decimal_injective(a: nat, b: nat)
    requires
        decimal(a) == decimal(b),
    ensures
        a == b,
{
    lemma_decimal(a);
    lemma_decimal(b);
}

/// Whether a character is an ASCII digit.
pub fn is_digit(c: char) -> (r: bool)
    ensures
        r == digit(c),
{
    '0' <= c && c <= '9'
}

/// The decimal notation of `n`.
pub fn u64_text(n: u64) -> (r: String)
    ensures
        r@ == decimal(n as nat),
    decreases n,
{
    if n < 10 {
        let c = ((48 + n) as u8) as char;
        string_of_char(c)
    } else {
        let mut s = u64_text(n / 10);
        s.push(((48 + n % 10) as u8) as char);
        s
    }
}

/// The decimal notation of `n`.
pub fn u128_text(n: u128) -> (r: String)
    ensures
        r@ == decimal(n as nat),
    decreases n,
{
    if n < 10 {
        let c = ((48 + n) as u8) as char;
        string_of_char(c)
    } else {
        let mut s = u128_text(n / 10);
        s.push(((48 + n % 10) as u8) as char);
        s
    }
}

/// The decimal notation of a signed number.
pub fn i64_text(n: i64) -> (r: String)
    ensures
        r@ == signed_decimal(n as int),
{
    if n < 0 {
        let m: u64 = if n == i64::MIN {
            0x8000_0000_0000_0000
        } else {
            (-n) as u64
        };
        let mut s = string_of_char('-');
        s.append(u64_text(m).as_str());
        s
    } else {
        u64_text(n as u64)
    }
}

/// The number that the characters `from..` of `v` denote, where they are digits and it is at most `max`.
fn digits_upto(v: &Vec<char>, from: usize, max: u64) -> (r: Option<u64>)
    requires
        from <= v@.len(),
    ensures
        match r {
            Some(n) => v@.len() > from && all_digits(v@.skip(from as int)) && value(
                v@.skip(from as int),
            ) == n && n <= max,
            None => !(v@.len() > from && all_digits(v@.skip(from as int)) && value(
                v@.skip(from as int),
            ) <= max),
        },
{
    if from == v.len() {
        return None;
    }
    let ghost d = v@.skip(from as int);
    let mut n: u64 = 0;
    let mut i: usize = from;
    assert(d.take(0) =~= Seq::<char>::empty());
    while i < v.len()
        invariant
            from <= i <= v@.len(),
            d == v@.skip(from as int),
            n == value(d.take(i - from)),
            n <= max,
            forall|j: int| 0 <= j < i - from ==> digit(#[trigger] d[j]),
        decreases v@.len() - i,
    {
        let c = v[i];
        assert(d[i - from] == c);
        if !is_digit(c) {
            return None;
        }
        let x: u64 = (c as u32 - 48) as u64;
        assert(d.take(i - from + 1).drop_last() =~= d.take(i - from));
        assert(d.take(i - from + 1).last() == c);
        proof {
            lemma_value_grows(d, i - from + 1);
        }
        match n.checked_mul(10) {
            None => {
                return None;
            },
            Some(t) => match t.checked_add(x) {
                None => {
                    return None;
                },
                Some(u) => {
                    if u > max {
                        return None;
                    }
                    n = u;
                },
            },
        }
        i = i + 1;
    }
    assert(d.take(d.len() as int) =~= d);
    Some(n)
}

/// The number that `s` denotes, where it is at most `max`.
pub fn parse_upto(s: &str, max: u64) -> (r: Option<u64>)
    ensures
        match r {
            Some(n) => number_upto(s@, max as nat) == Some(n as nat),
            None => number_upto(s@, max as nat) is None,
        },
{
    let v = chars_of(s);
    if v.len() > 0 && v[0] == '+' {
        digits_upto(&v, 1, max)
    } else {
        assert(v@.skip(0) =~= v@);
        digits_upto(&v, 0, max)
    }
}

/// The unsigned 64-bit number that `s` denotes.
pub fn parse_u64(s: &str) -> (r: Option<u64>)
    ensures
        match r {
            Some(n) => number_upto(s@, u64::MAX as nat) == Some(n as nat),
            None => number_upto(s@, u64::MAX as nat) is None,
        },
{
    parse_upto(s, u64::MAX)
}

/// The signed 64-bit number that `s` denotes.
pub fn parse_i64(s: &str) -> (r: Option<i64>)
    ensures
        match r {
            Some(n) => signed_number(s@) == Some(n as int),
            None => signed_number(s@) is None,
        },
{
    let v = chars_of(s);
    if v.len() > 0 && v[0] == '-' {
        match digits_upto(&v, 1, 0x8000_0000_0000_0000) {
            Some(n) => if n == 0x8000_0000_0000_0000 {
                Some(i64::MIN)
            } else {
                Some(-(n as i64))
            },
            None => None,
        }
    } else {
        match parse_upto(s, 0x7fff_ffff_ffff_ffff) {
            Some(n) => Some(n as i64),
            None => None,
        }
    }
}

/// A further digit makes ten times the number and the digit.
pub proof fn law_digits_count_by_tens(s: Seq<char>, c: char)
    requires
        '0' <= c <= '9',
    ensures
        value(s.push(c)) == 10 * value(s) + (c as int - '0' as int),
        value(Seq::<char>::empty()) == 0,
{
    assert(s.push(c).drop_last() =~= s);
}

/// A signed number written in decimal notation is read back unchanged.
pub proof fn law_signed_decimal_reads_back(n: i64)
    ensures
        signed_number(signed_decimal(n as int)) == Some(n as int),
{
    if n < 0 {
        let d = decimal((-n) as nat);
        lemma_decimal((-n) as nat);
        let s = signed_decimal(n as int);
        assert(s.skip(1) =~= d);
    } else {
        law_decimal_reads_back(n as nat, 0x7fff_ffff_ffff_ffff);
        lemma_decimal(n as nat);
        assert(digit(decimal(n as nat)[0]));
    }
}

/// Only digits make a number, with at most one plus sign before them, and none above the greatest is
/// read.
pub proof fn law_only_digits_make_numbers(s: Seq<char>, max: nat, i: int)
    ensures
        number_upto(s, max) matches Some(n) ==> n <= max,
        0 < i < s.len() && !('0' <= s[i] <= '9') ==> number_upto(s, max) is None && signed_number(s)
            is None,
        s.len() == 0 ==> number_upto(s, max) is None && signed_number(s) is None,
        s.len() > 0 && !('0' <= s[0] <= '9') && s[0] != '+' ==> number_upto(s, max) is None,
{
    if 0 < i < s.len() && !('0' <= s[i] <= '9') {
        let d = after_plus(s);
        if d.len() == s.len() {
            assert(!digit(d[i]));
        } else {
            assert(d[i - 1] == s[i]);
            assert(!digit(d[i - 1]));
        }
        assert(s.skip(1)[i - 1] == s[i]);
        assert(!digit(s.skip(1)[i - 1]));
    }
    if s.len() > 0 && !('0' <= s[0] <= '9') && s[0] != '+' {
        assert(after_plus(s) == s);
        assert(!digit(s[0]));
    }
}

} // verus!
