//! Base-10 signed integers written as text.

use vstd::prelude::*;

verus! {

/// Whether `c` is one of the ASCII digits `0` to `9`.
pub open spec fn is_digit(c: char) -> bool {
    '0' <= c <= '9'
}

/// The number that the digit `c` stands for.
pub open spec fn digit_value(c: char) -> nat {
    if is_digit(c) {
        (c as u32 - '0' as u32) as nat
    } else {
        0
    }
}

/// Whether `s` holds ASCII digits only.
pub open spec fn all_digits(s: Seq<char>) -> bool {
    forall|i: int| 0 <= i < s.len() ==> is_digit(#[trigger] s[i])
}

/// The number that the digits of `s` write in base 10, most significant first.
pub open spec fn digits_value(s: Seq<char>) -> nat
    decreases s.len(),
{
    if s.len() == 0 {
        0
    } else {
        10 * digits_value(s.drop_last()) + digit_value(s.last())
    }
}

/// Whether `s` opens with a sign character.
pub open spec fn has_sign(s: Seq<char>) -> bool {
    s.len() > 0 && (s[0] == '-' || s[0] == '+')
}

/// The digits of `s`: what follows its sign, if it has one.
pub open spec fn magnitude_digits(s: Seq<char>) -> Seq<char> {
    if has_sign(s) {
        s.skip(1)
    } else {
        s
    }
}

/// The integer that `s` writes, whether or not it fits a machine word.
pub open spec fn signed_value(s: Seq<char>) -> int {
    if s.len() > 0 && s[0] == '-' {
        -(digits_value(magnitude_digits(s)) as int)
    } else {
        digits_value(magnitude_digits(s)) as int
    }
}

/// The `i32` that `s` writes: an optional `+` or `-`, then one or more ASCII digits whose
/// value lies within the range of `i32`. Anything else writes no integer.
pub open spec fn parse_int(s: Seq<char>) -> Option<i32> {
    let digits = magnitude_digits(s);
    if digits.len() > 0 && all_digits(digits) && i32::MIN <= signed_value(s) <= i32::MAX {
        Some(signed_value(s) as i32)
    } else {
        None
    }
}

/// A prefix of a digit string never writes a larger number than the whole string.
pub proof fn lemma_prefix_value_le(s: Seq<char>, n: int)
    requires
        0 <= n <= s.len(),
    ensures
        digits_value(s.take(n)) <= digits_value(s),
    decreases s.len(),
{
    if n == s.len() {
        assert(s.take(n) =~= s);
    } else {
        assert(s.drop_last().take(n) =~= s.take(n));
        lemma_prefix_value_le(s.drop_last(), n);
    }
}

/// Text that writes an integer holds a sign and digits only, so no `=`.
pub proof fn lemma_numeral_is_plain(s: Seq<char>)
    requires
        parse_int(s) is Some,
    ensures
        !s.contains('='),
{
    let digits = magnitude_digits(s);
    assert forall|i: int| 0 <= i < s.len() implies s[i] != '=' by {
        if has_sign(s) {
            if i > 0 {
                assert(is_digit(digits[i - 1]));
            }
        } else {
            assert(is_digit(digits[i]));
        }
    }
}

/// Reads `chars` from index `from` to its end as a base-10 `i32`.
pub(crate) fn parse_int_from(chars: &Vec<char>, from: usize) -> (r: Option<i32>)
    requires
        from <= chars.len(),
    ensures
        r == parse_int(chars@.skip(from as int)),
{
    let ghost text = chars@.skip(from as int);
    let len: usize = chars.len();
    let mut negative = false;
    let mut first: usize = from;
    if from < len {
        let c: char = chars[from];
        assert(c == text[0]);
        if c == '-' {
            negative = true;
            first = from + 1;
        } else if c == '+' {
            first = from + 1;
        }
    }
    let ghost digits = magnitude_digits(text);
    assert(digits =~= chars@.skip(first as int));
    assert(negative == (text.len() > 0 && text[0] == '-'));
    if first == len {
        return None;
    }
    let limit: i64 = 0x8000_0000;
    let mut acc: i64 = 0;
    let mut i: usize = first;
    while i < len
        invariant
            first <= i <= len,
            len == chars.len(),
            text == chars@.skip(from as int),
            digits == magnitude_digits(text),
            digits == chars@.skip(first as int),
            negative == (text.len() > 0 && text[0] == '-'),
            limit == 0x8000_0000,
            0 <= acc <= limit,
            acc == digits_value(digits.take(i - first)),
            all_digits(digits.take(i - first)),
        decreases len - i,
    {
        let c: char = chars[i];
        assert(c == digits[i - first]);
        if !('0' <= c && c <= '9') {
            return None;
        }
        let d: i64 = (c as u32 - '0' as u32) as i64;
        assert(digits.take(i - first + 1).drop_last() =~= digits.take(i - first));
        assert(digits.take(i - first + 1).last() == c);
        let next: i64 = acc * 10 + d;
        assert(next == digits_value(digits.take(i - first + 1)));
        if next > limit {
            proof {
                lemma_prefix_value_le(digits, i - first + 1);
            }
            return None;
        }
        acc = next;
        i = i + 1;
    }
    assert(digits.take(len - first) =~= digits);
    if negative {
        Some((-acc) as i32)
    } else if acc < limit {
        Some(acc as i32)
    } else {
        None
    }
}

} // verus!
