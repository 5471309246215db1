//! Reading decimal numerals: the unsigned and signed integers that arrive as
//! text, with the range checks of the fixed-width types they are stored in.

use vstd::prelude::*;
use crate::text::{chars_of, decimal, digit_char, signed_decimal};

verus! {

/// Whether `c` is one of the ten ASCII decimal digits.
pub open spec fn is_digit(c: char) -> bool {
    '0' <= c && c <= '9'
}

/// The value of the decimal digit `c`.
pub open spec fn digit_value(c: char) -> int {
    c as u32 as int - 48
}

/// Whether every character of `s` is a decimal digit.
pub open spec fn all_digits(s: Seq<char>) -> bool {
    forall|i: int| 0 <= i < s.len() ==> is_digit(#[trigger] s[i])
}

/// The number that the digit string `s` denotes in base ten.
pub open spec fn digits_value(s: Seq<char>) -> nat
    decreases s.len(),
{
    if s.len() == 0 {
        0
    } else {
        (digits_value(s.drop_last()) * 10 + digit_value(s.last())) as nat
    }
}

/// `s` without its leading sign character: a `+`, or a `-` where
/// `minus_allowed`.
pub open spec fn without_sign(s: Seq<char>, minus_allowed: bool) -> Seq<char> {
    if s.len() > 0 && (s[0] == '+' || (minus_allowed && s[0] == '-')) {
        s.skip(1)
    } else {
        s
    }
}

/// The value of an unsigned numeral: an optional `+`, then at least one
/// digit. `None` for any other text.
pub open spec fn unsigned_numeral(s: Seq<char>) -> Option<nat> {
    let body = without_sign(s, false);
    if body.len() > 0 && all_digits(body) {
        Some(digits_value(body))
    } else {
        None
    }
}

/// The value of a signed numeral: an optional `+` or `-`, then at least one
/// digit. `None` for any other text.
pub open spec fn signed_numeral(s: Seq<char>) -> Option<int> {
    let body = without_sign(s, true);
    if body.len() > 0 && all_digits(body) {
        if s[0] == '-' {
            Some(-(digits_value(body) as int))
        } else {
            Some(digits_value(body) as int)
        }
    } else {
        None
    }
}

/// What reading `s` as a `u32` gives: its value when `s` is an unsigned
/// numeral that fits, `None` otherwise.
pub open spec fn u32_of_text(s: Seq<char>) -> Option<u32> {
    match unsigned_numeral(s) {
        Some(v) => if v <= u32::MAX {
            Some(v as u32)
        } else {
            None
        },
        None => None,
    }
}

/// What reading `s` as an `i64` gives: its value when `s` is a signed
/// numeral that fits, `None` otherwise.
pub open spec fn i64_of_text(s: Seq<char>) -> Option<i64> {
    match signed_numeral(s) {
        Some(v) => if i64::MIN <= v <= i64::MAX {
            Some(v as i64)
        } else {
            None
        },
        None => None,
    }
}

/// A digit string is worth at least as much as any of its prefixes.
proof fn lemma_digits_value_prefix(s: Seq<char>, k: int)
    requires
        all_digits(s),
        0 <= k <= s.len(),
    ensures
        digits_value(s.take(k)) <= digits_value(s),
    decreases s.len() - k,
{
    if k == s.len() {
        assert(s.take(k) =~= s);
    } else {
        lemma_digits_value_prefix(s, k + 1);
        let longer = s.take(k + 1);
        assert(longer.drop_last() =~= s.take(k));
        assert(is_digit(s[k]));
        assert(longer.last() == s[k]);
    }
}

/// Whether `c` is a decimal digit.
pub fn is_ascii_digit(c: char) -> (b: bool)
    ensures
        b == is_digit(c),
{
    '0' <= c && c <= '9'
}

/// The value of the digit string `chars[start..]`, provided it is not empty,
/// holds digits only and is worth at most `cap`.
fn digits_up_to(chars: &Vec<char>, start: usize, cap: u64) -> (value: Option<u64>)
    requires
        start <= chars.len(),
    ensures
        value == ({
            let body = chars@.skip(start as int);
            if body.len() > 0 && all_digits(body) && digits_value(body) <= cap {
                Some(digits_value(body) as u64)
            } else {
                None::<u64>
            }
        }),
{
    let ghost body = chars@.skip(start as int);
    if start == chars.len() {
        return None;
    }
    let mut acc: u128 = 0;
    let mut i: usize = start;
    while i < chars.len()
        invariant
            start <= i <= chars.len(),
            body == chars@.skip(start as int),
            all_digits(body.take(i - start)),
            acc == digits_value(body.take(i - start)),
            acc <= cap,
        decreases chars.len() - i,
    {
        let c = chars[i];
        let ghost longer = body.take(i - start + 1);
        proof {
            assert(longer.drop_last() =~= body.take(i - start));
            assert(longer.last() == c);
        }
        if !is_ascii_digit(c) {
            proof {
                assert(body[i - start] == c);
            }
            return None;
        }
        let digit: u32 = c as u32 - 48;
        let next: u128 = acc * 10 + digit as u128;
        proof {
            assert forall|j: int| 0 <= j < longer.len() implies is_digit(#[trigger] longer[j]) by {
                if j < i - start {
                    assert(body.take(i - start)[j] == longer[j]);
                }
            }
            assert(next == digits_value(longer));
        }
        if next > cap as u128 {
            proof {
                if all_digits(body) {
                    lemma_digits_value_prefix(body, i - start + 1);
                }
            }
            return None;
        }
        acc = next;
        i += 1;
    }
    proof {
        assert(body.take(i - start) =~= body);
    }
    Some(acc as u64)
}

/// Reads `s` as a `u32`, as `str::parse::<u32>` does: digits with an
/// optional leading `+`, rejected when empty, malformed or out of range.
pub fn parse_u32(s: &str) -> (value: Option<u32>)
    ensures
        value == u32_of_text(s@),
{
    let chars = chars_of(s);
    let start: usize = if chars.len() > 0 && chars[0] == '+' {
        1
    } else {
        0
    };
    proof {
        if start == 0 {
            assert(chars@.skip(0) =~= chars@);
        }
    }
    match digits_up_to(&chars, start, 0xffff_ffff) {
        Some(v) => Some(v as u32),
        None => None,
    }
}

/// Reads `s` as an `i64`, as `str::parse::<i64>` does: digits with an
/// optional leading `+` or `-`, rejected when empty, malformed or out of
/// range.
pub fn parse_i64(s: &str) -> (value: Option<i64>)
    ensures
        value == i64_of_text(s@),
{
    let chars = chars_of(s);
    let negative = chars.len() > 0 && chars[0] == '-';
    let start: usize = if chars.len() > 0 && (chars[0] == '+' || chars[0] == '-') {
        1
    } else {
        0
    };
    proof {
        if start == 0 {
            assert(chars@.skip(0) =~= chars@);
        }
    }
    match digits_up_to(&chars, start, 0x8000_0000_0000_0000) {
        Some(v) => {
            if negative {
                if v == 0x8000_0000_0000_0000 {
                    Some(i64::MIN)
                } else {
                    Some(-(v as i64))
                }
            } else if v <= 0x7fff_ffff_ffff_ffff {
                Some(v as i64)
            } else {
                None
            }
        },
        None => None,
    }
}

/// The decimal numeral of a number is a digit string worth that number.
pub proof fn lemma_decimal_is_numeral(n: nat)
    ensures
        decimal(n).len() > 0,
        all_digits(decimal(n)),
        digits_value(decimal(n)) == n,
    decreases n,
{
    let last = digit_char((n % 10) as int);
    assert(is_digit(last) && digit_value(last) == n % 10);
    if n < 10 {
        assert(decimal(n).drop_last() =~= Seq::<char>::empty());
        assert(digits_value(decimal(n).drop_last()) == 0);
    } else {
        lemma_decimal_is_numeral(n / 10);
        assert(decimal(n).drop_last() =~= decimal(n / 10));
    }
}

/// Reading back the decimal numeral of an unsigned 32-bit number gives the
/// number.
pub proof fn lemma_u32_round_trip(n: u32)
    ensures
        u32_of_text(decimal(n as nat)) == Some(n),
{
    lemma_decimal_is_numeral(n as nat);
    assert(is_digit(decimal(n as nat)[0]));
}

/// Reading back the decimal numeral of a signed 64-bit number gives the
/// number.
pub proof fn lemma_i64_round_trip(n: i64)
    ensures
        i64_of_text(signed_decimal(n as int)) == Some(n),
{
    let text = signed_decimal(n as int);
    if n < 0 {
        lemma_decimal_is_numeral((-n) as nat);
        assert(text.skip(1) =~= decimal((-n) as nat));
    } else {
        lemma_decimal_is_numeral(n as nat);
        assert(is_digit(text[0]));
    }
}

} // verus!
