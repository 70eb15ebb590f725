//! Decimal notation: reading an integer from text and writing one as text.

use vstd::prelude::*;
use crate::text::{chars_of, push_char};

verus! {

/// Whether a character is one of `0` to `9`.
pub open spec fn is_digit(c: char) -> bool {
    0x30 <= c as u32 <= 0x39
}

/// The number a digit stands for.
pub open spec fn digit_value(c: char) -> int {
    c as u32 - 0x30
}

/// Whether a text is made of digits only.
pub open spec fn all_digits(s: Seq<char>) -> bool {
    forall|i: int| 0 <= i < s.len() ==> is_digit(#[trigger] s[i])
}

/// The number that a run of digits denotes in base ten; 0 for the empty run.
pub open spec fn digits_value(s: Seq<char>) -> int
    decreases s.len(),
{
    if s.len() == 0 {
        0
    } else {
        digits_value(s.drop_last()) * 10 + digit_value(s.last())
    }
}

/// The integer a text denotes: an optional sign, then one digit or more.
pub open spec fn parsed_int(s: Seq<char>) -> Option<int> {
    if s.len() == 0 {
        None
    } else if s[0] == '-' || s[0] == '+' {
        let d = s.drop_first();
        if d.len() > 0 && all_digits(d) {
            Some(if s[0] == '-' { -digits_value(d) } else { digits_value(d) })
        } else {
            None
        }
    } else if all_digits(s) {
        Some(digits_value(s))
    } else {
        None
    }
}

/// The integer a text denotes, where it fits in 64 bits.
pub open spec fn parsed_i64(s: Seq<char>) -> Option<i64> {
    match parsed_int(s) {
        Some(v) => if i64::MIN <= v <= i64::MAX {
            Some(v as i64)
        } else {
            None
        },
        None => None,
    }
}

/// A run of digits denotes no less than any of its prefixes.
pub proof fn lemma_digits_value_grows(s: Seq<char>, k: int)
    requires
        all_digits(s),
        0 <= k <= s.len(),
    ensures
        0 <= digits_value(s.subrange(0, k)) <= digits_value(s),
    decreases s.len() - k,
{
    if k == s.len() {
        assert(s.subrange(0, k) == s);
        lemma_digits_value_nonnegative(s);
    } else {
        lemma_digits_value_grows(s, k + 1);
        let t = s.subrange(0, k + 1);
        assert(t.drop_last() == s.subrange(0, k));
        assert(is_digit(s[k]));
        assert(t.last() == s[k]);
        lemma_digits_value_nonnegative(s.subrange(0, k));
    }
}

/// A run of digits denotes a natural number.
pub proof fn lemma_digits_value_nonnegative(s: Seq<char>)
    requires
        all_digits(s),
    ensures
        0 <= digits_value(s),
    decreases s.len(),
{
    if s.len() > 0 {
        assert(is_digit(s.last()));
        assert forall|i: int| 0 <= i < s.drop_last().len() implies is_digit(
            #[trigger] s.drop_last()[i],
        ) by {
            assert(s.drop_last()[i] == s[i]);
        }
        lemma_digits_value_nonnegative(s.drop_last());
    }
}

/// Reads the digits `v[from..]`: their value, or `None` where one of them is
/// no digit or the value exceeds `limit`.
fn read_digits(v: &Vec<char>, from: usize, limit: u64) -> (r: Option<u64>)
    requires
        from <= v.len(),
        9 <= limit,
    ensures
        r matches Some(n) ==> all_digits(v@.subrange(from as int, v.len() as int)) && n
            == digits_value(v@.subrange(from as int, v.len() as int)) && n <= limit,
        r is None ==> !all_digits(v@.subrange(from as int, v.len() as int)) || digits_value(
            v@.subrange(from as int, v.len() as int),
        ) > limit,
{
    let ghost whole = v@.subrange(from as int, v.len() as int);
    let mut acc: u64 = 0;
    let mut i: usize = from;
    while i < v.len()
        invariant
            from <= i <= v.len(),
            whole == v@.subrange(from as int, v.len() as int),
            all_digits(whole.subrange(0, i - from)),
            acc == digits_value(whole.subrange(0, i - from)),
            acc <= limit,
            9 <= limit,
        decreases v.len() - i,
    {
        let c = v[i];
        let ghost before = whole.subrange(0, i - from);
        let ghost after = whole.subrange(0, i - from + 1);
        proof {
            assert(after.drop_last() == before);
            assert(after.last() == c);
            assert(whole[i - from] == c);
        }
        let u: u32 = c as u32;
        if u < 0x30 || u > 0x39 {
            assert(!is_digit(whole[i - from]));
            return None;
        }
        let d: u64 = (u - 0x30) as u64;
        proof {
            assert forall|k: int| 0 <= k < after.len() implies is_digit(#[trigger] after[k]) by {
                if k < before.len() {
                    assert(after[k] == before[k]);
                }
            }
        }
        if acc > (limit - d) / 10 {
            proof {
                assert(digits_value(after) == acc * 10 + d);
                assert(digits_value(after) > limit);
                if all_digits(whole) {
                    lemma_digits_value_grows(whole, i - from + 1);
                }
            }
            return None;
        }
        acc = acc * 10 + d;
        i += 1;
    }
    proof {
        assert(whole.subrange(0, i - from) == whole);
    }
    Some(acc)
}

/// Reads a 64-bit integer in decimal notation: an optional sign, then one
/// digit or more. Anything else, or a value out of range, gives `None`.
pub fn parse_i64(s: &str) -> (r: Option<i64>)
    ensures
        r == parsed_i64(s@),
{
    let v = chars_of(s);
    if v.len() == 0 {
        return None;
    }
    let first = v[0];
    if first == '-' || first == '+' {
        proof {
            assert(v@.drop_first() == v@.subrange(1, v.len() as int));
        }
        if v.len() == 1 {
            return None;
        }
        if first == '-' {
            match read_digits(&v, 1, 0x8000_0000_0000_0000u64) {
                Some(n) => {
                    if n == 0x8000_0000_0000_0000u64 {
                        Some(i64::MIN)
                    } else {
                        Some(-(n as i64))
                    }
                },
                None => None,
            }
        } else {
            match read_digits(&v, 1, 0x7fff_ffff_ffff_ffffu64) {
                Some(n) => Some(n as i64),
                None => None,
            }
        }
    } else {
        proof {
            assert(v@.subrange(0, v.len() as int) == v@);
        }
        match read_digits(&v, 0, 0x7fff_ffff_ffff_ffffu64) {
            Some(n) => Some(n as i64),
            None => None,
        }
    }
}

/// The natural number a text denotes, where it fits in 64 bits: an optional
/// `+`, then one digit or more.
pub open spec fn parsed_u64(s: Seq<char>) -> Option<u64> {
    if s.len() > 0 && s[0] == '-' {
        None
    } else {
        match parsed_int(s) {
            Some(v) => if v <= u64::MAX {
                Some(v as u64)
            } else {
                None
            },
            None => None,
        }
    }
}

/// Reads a natural number of 64 bits in decimal notation: an optional `+`,
/// then one digit or more. Anything else, or a value out of range, gives
/// `None`.
pub fn parse_u64(s: &str) -> (r: Option<u64>)
    ensures
        r == parsed_u64(s@),
{
    let v = chars_of(s);
    if v.len() == 0 {
        return None;
    }
    let first = v[0];
    if first == '-' {
        None
    } else if first == '+' {
        proof {
            assert(v@.drop_first() == v@.subrange(1, v.len() as int));
        }
        if v.len() == 1 {
            return None;
        }
        let r = read_digits(&v, 1, u64::MAX);
        proof {
            if all_digits(v@.drop_first()) {
                lemma_digits_value_nonnegative(v@.drop_first());
            }
        }
        r
    } else {
        proof {
            assert(v@.subrange(0, v.len() as int) == v@);
            if all_digits(v@) {
                lemma_digits_value_nonnegative(v@);
            }
        }
        read_digits(&v, 0, u64::MAX)
    }
}

/// The character that writes a digit.
pub open spec fn digit_char(d: int) -> char
    recommends
        0 <= d <= 9,
{
    ((0x30 + d) as u8) as char
}

/// A natural number in decimal notation, without leading zeros.
pub open spec fn decimal_nat(n: nat) -> Seq<char>
    decreases n,
{
    if n < 10 {
        seq![digit_char(n as int)]
    } else {
        decimal_nat(n / 10).push(digit_char((n % 10) as int))
    }
}

/// An integer in decimal notation, with `-` before a negative one.
pub open spec fn decimal(n: int) -> Seq<char> {
    if n < 0 {
        seq!['-'] + decimal_nat((-n) as nat)
    } else {
        decimal_nat(n as nat)
    }
}

/// Appends a natural number in decimal notation.
pub fn push_decimal(s: &mut String, n: u128)
    ensures
        final(s)@ == old(s)@ + decimal_nat(n as nat),
    decreases n,
{
    if n >= 10 {
        push_decimal(s, n / 10);
    }
    let d: u8 = (n % 10) as u8;
    push_char(s, (0x30u8 + d) as char);
    proof {
        if n >= 10 {
            assert(old(s)@ + decimal_nat(n as nat) == (old(s)@ + decimal_nat((n / 10) as nat)).push(
                digit_char((n % 10) as int),
            ));
        } else {
            assert(old(s)@ + decimal_nat(n as nat) == old(s)@.push(digit_char(n as int)));
        }
    }
}

/// Writes an integer in decimal notation.
pub fn to_decimal(n: i128) -> (s: String)
    ensures
        s@ == decimal(n as int),
{
    let mut s = String::new();
    if n < 0 {
        push_char(&mut s, '-');
        let magnitude: u128 = ((-(n + 1)) as u128) + 1;
        push_decimal(&mut s, magnitude);
        assert(s@ == seq!['-'] + decimal_nat((-n) as nat));
    } else {
        push_decimal(&mut s, n as u128);
        assert(s@ == decimal_nat(n as nat));
    }
    s
}

} // verus!
