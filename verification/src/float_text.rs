//! The textual form of a floating-point number.
//!
//! A numeric signal value travels as text and is turned into a binary
//! floating-point number only where the time-series store is written. What
//! is decided here is whether a text is such a number at all:
//!
//! ```text
//! Float  ::= Sign? ( 'inf' | 'infinity' | 'nan' | Number )
//! Number ::= ( Digit+ | Digit+ '.' Digit* | Digit* '.' Digit+ ) Exp?
//! Exp    ::= 'e' Sign? Digit+
//! Sign   ::= [+-]
//! Digit  ::= [0-9]
//! ```
//!
//! with letters in either case. This is the grammar that `str::parse`
//! accepts for the standard floating-point types.

use vstd::prelude::*;
use crate::numeral::{all_digits, is_ascii_digit, is_digit, without_sign};
use crate::text::chars_of;

verus! {

/// Whether `c` is the letter given in its two cases.
pub open spec fn is_letter(c: char, lower: char, upper: char) -> bool {
    c == lower || c == upper
}

/// `Exp`: the letter `e`, an optional sign, then at least one digit.
pub open spec fn is_exponent(s: Seq<char>) -> bool {
    &&& s.len() > 0
    &&& is_letter(s[0], 'e', 'E')
    &&& without_sign(s.skip(1), true).len() > 0
    &&& all_digits(without_sign(s.skip(1), true))
}

/// Whether `s[..j]` is a mantissa whose integer digits end at `i`: digits up
/// to `i`, then either nothing or a dot and digits up to `j`, with at least
/// one digit on one side.
pub open spec fn is_mantissa_split(s: Seq<char>, i: int, j: int) -> bool {
    &&& 0 <= i <= j <= s.len()
    &&& all_digits(s.take(i))
    &&& (j == i || (s[i] == '.' && all_digits(s.subrange(i + 1, j))))
    &&& (i > 0 || j > i + 1)
}

/// `Number`: a mantissa, optionally followed by an exponent.
pub open spec fn is_number(s: Seq<char>) -> bool {
    exists|i: int, j: int|
        #[trigger] is_mantissa_split(s, i, j) && (j == s.len() || is_exponent(s.skip(j)))
}

/// `inf`, `infinity` or `nan`, in any mix of cases.
pub open spec fn is_special(s: Seq<char>) -> bool {
    ||| {
        &&& s.len() == 3
        &&& is_letter(s[0], 'i', 'I')
        &&& is_letter(s[1], 'n', 'N')
        &&& is_letter(s[2], 'f', 'F')
    }
    ||| {
        &&& s.len() == 3
        &&& is_letter(s[0], 'n', 'N')
        &&& is_letter(s[1], 'a', 'A')
        &&& is_letter(s[2], 'n', 'N')
    }
    ||| {
        &&& s.len() == 8
        &&& is_letter(s[0], 'i', 'I')
        &&& is_letter(s[1], 'n', 'N')
        &&& is_letter(s[2], 'f', 'F')
        &&& is_letter(s[3], 'i', 'I')
        &&& is_letter(s[4], 'n', 'N')
        &&& is_letter(s[5], 'i', 'I')
        &&& is_letter(s[6], 't', 'T')
        &&& is_letter(s[7], 'y', 'Y')
    }
}

/// `Float`: whether `s` is the text of a floating-point number.
pub open spec fn is_float_text(s: Seq<char>) -> bool {
    is_number(without_sign(s, true)) || is_special(without_sign(s, true))
}

/// Where a run of digits that starts at `from` ends is determined by the
/// text: two ends that both stop at a non-digit coincide.
proof fn lemma_digit_run_end(s: Seq<char>, from: int, a: int, b: int)
    requires
        0 <= from <= a <= s.len(),
        from <= b <= s.len(),
        all_digits(s.subrange(from, a)),
        all_digits(s.subrange(from, b)),
        a == s.len() || !is_digit(s[a]),
        b == s.len() || !is_digit(s[b]),
    ensures
        a == b,
{
    if a < b {
        assert(s.subrange(from, b)[a - from] == s[a]);
    } else if b < a {
        assert(s.subrange(from, a)[b - from] == s[b]);
    }
}

/// What a left-to-right scan finds in `s`: the integer digits end at `i0`,
/// and the fraction, if a dot follows, at `j0`.
spec fn scanned(s: Seq<char>, i0: int, j0: int) -> bool {
    &&& 0 <= i0 <= j0 <= s.len()
    &&& all_digits(s.take(i0))
    &&& (i0 == s.len() || !is_digit(s[i0]))
    &&& if i0 < s.len() && s[i0] == '.' {
        &&& i0 < j0
        &&& all_digits(s.subrange(i0 + 1, j0))
        &&& (j0 == s.len() || !is_digit(s[j0]))
    } else {
        j0 == i0
    }
}

/// A text has at most one way to be split into mantissa and exponent, and
/// the scan finds it.
proof fn lemma_split_unique(s: Seq<char>, i: int, j: int, i0: int, j0: int)
    requires
        is_mantissa_split(s, i, j),
        j == s.len() || is_exponent(s.skip(j)),
        scanned(s, i0, j0),
    ensures
        i == i0,
        j == j0,
{
    assert(j < s.len() ==> s.skip(j)[0] == s[j]);
    assert(s.take(i) =~= s.subrange(0, i));
    assert(s.take(i0) =~= s.subrange(0, i0));
    lemma_digit_run_end(s, 0, i, i0);
    if j > i {
        lemma_digit_run_end(s, i + 1, j, j0);
    }
}

/// The end of the run of digits that starts at `from`.
fn skip_digits(chars: &Vec<char>, from: usize) -> (to: usize)
    requires
        from <= chars.len(),
    ensures
        from <= to <= chars.len(),
        all_digits(chars@.subrange(from as int, to as int)),
        to == chars.len() || !is_digit(chars@[to as int]),
{
    let mut to: usize = from;
    while to < chars.len() && is_ascii_digit(chars[to])
        invariant
            from <= to <= chars.len(),
            all_digits(chars@.subrange(from as int, to as int)),
        decreases chars.len() - to,
    {
        proof {
            let longer = chars@.subrange(from as int, to + 1);
            assert forall|k: int| 0 <= k < longer.len() implies is_digit(#[trigger] longer[k]) by {
                if k < to - from {
                    assert(chars@.subrange(from as int, to as int)[k] == longer[k]);
                }
            }
        }
        to += 1;
    }
    to
}

/// Scans the mantissa of `chars[start..]`: returns where its integer digits
/// end and where its fraction ends.
fn scan_mantissa(chars: &Vec<char>, start: usize) -> (ends: (usize, usize))
    requires
        start <= chars.len(),
    ensures
        start <= ends.0 <= ends.1 <= chars.len(),
        scanned(chars@.skip(start as int), ends.0 - start, ends.1 - start),
{
    let ghost s = chars@.skip(start as int);
    let n = chars.len();
    let p1 = skip_digits(chars, start);
    proof {
        assert(s.take(p1 - start) =~= chars@.subrange(start as int, p1 as int));
    }
    if p1 < n && chars[p1] == '.' {
        let p2 = skip_digits(chars, p1 + 1);
        proof {
            assert(s.subrange(p1 - start + 1, p2 - start) =~= chars@.subrange(p1 + 1, p2 as int));
        }
        (p1, p2)
    } else {
        (p1, p1)
    }
}

/// Whether `chars[at..]` is an `Exp`.
fn exponent_at(chars: &Vec<char>, at: usize) -> (ok: bool)
    requires
        at <= chars.len(),
    ensures
        ok == is_exponent(chars@.skip(at as int)),
{
    let ghost tail = chars@.skip(at as int);
    let n = chars.len();
    if at == n {
        return false;
    }
    if !letter(chars[at], 'e', 'E') {
        return false;
    }
    let q: usize = if at + 1 < n && (chars[at + 1] == '+' || chars[at + 1] == '-') {
        at + 2
    } else {
        at + 1
    };
    let r = skip_digits(chars, q);
    proof {
        let after = tail.skip(1);
        assert(after =~= chars@.skip(at + 1));
        let digits = without_sign(after, true);
        assert(digits =~= chars@.skip(q as int));
        if r == n {
            assert(chars@.subrange(q as int, r as int) =~= digits);
        } else {
            assert(digits[r - q] == chars@[r as int]);
        }
    }
    r > q && r == n
}

/// Whether `chars[start..]` is a `Number`.
fn number_at(chars: &Vec<char>, start: usize) -> (ok: bool)
    requires
        start <= chars.len(),
    ensures
        ok == is_number(chars@.skip(start as int)),
{
    let ghost s = chars@.skip(start as int);
    let (p1, p2) = scan_mantissa(chars, start);
    let ghost i0 = p1 - start;
    let ghost j0 = p2 - start;
    let has_digit = p1 > start || p2 - p1 > 1;
    let ok = has_digit && (p2 == chars.len() || exponent_at(chars, p2));
    proof {
        assert(s.skip(j0) =~= chars@.skip(p2 as int));
        if ok {
            assert(is_mantissa_split(s, i0, j0));
        } else {
            assert forall|i: int, j: int|
                #[trigger] is_mantissa_split(s, i, j) && (j == s.len() || is_exponent(
                    s.skip(j),
                )) implies false by {
                lemma_split_unique(s, i, j, i0, j0);
            }
        }
    }
    ok
}

/// Whether `c` is the letter given in its two cases.
fn letter(c: char, lower: char, upper: char) -> (b: bool)
    ensures
        b == is_letter(c, lower, upper),
{
    c == lower || c == upper
}

/// Whether `chars[start..]` is `inf`, `infinity` or `nan` in any mix of
/// cases.
fn special_at(chars: &Vec<char>, start: usize) -> (ok: bool)
    requires
        start <= chars.len(),
    ensures
        ok == is_special(chars@.skip(start as int)),
{
    let n = chars.len() - start;
    if n == 3 {
        let a = chars[start];
        let b = chars[start + 1];
        let c = chars[start + 2];
        (letter(a, 'i', 'I') && letter(b, 'n', 'N') && letter(c, 'f', 'F')) || (letter(a, 'n', 'N')
            && letter(b, 'a', 'A') && letter(c, 'n', 'N'))
    } else if n == 8 {
        letter(chars[start], 'i', 'I') && letter(chars[start + 1], 'n', 'N') && letter(
            chars[start + 2],
            'f',
            'F',
        ) && letter(chars[start + 3], 'i', 'I') && letter(chars[start + 4], 'n', 'N') && letter(
            chars[start + 5],
            'i',
            'I',
        ) && letter(chars[start + 6], 't', 'T') && letter(chars[start + 7], 'y', 'Y')
    } else {
        false
    }
}

/// Decides whether `s` is the text of a floating-point number.
pub fn is_float_literal(s: &str) -> (ok: bool)
    ensures
        ok == is_float_text(s@),
{
    let chars = chars_of(s);
    let start: usize = if chars.len() > 0 && (chars[0] == '+' || chars[0] == '-') {
        1
    } else {
        0
    };
    proof {
        if start == 0 {
            assert(chars@.skip(0) =~= chars@);
        }
    }
    number_at(&chars, start) || special_at(&chars, start)
}

} // verus!
