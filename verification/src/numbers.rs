//! Decimal numbers as text.

use vstd::prelude::*;
use crate::text::chars_of;

verus! {

/// `c` is one of the ten decimal digits.
pub open spec fn is_digit(c: char) -> bool {
    '0' <= c <= '9'
}

/// The number that the digit `c` stands for.
pub open spec fn digit_value(c: char) -> int {
    c as int - '0' as int
}

/// Every character of `text` is a decimal digit.
pub open spec fn all_digits(text: Seq<char>) -> bool {
    forall|i: int| 0 <= i < text.len() ==> is_digit(text[i])
}

/// The number that `digits` writes in base ten; leading zeros count for
/// nothing, and no digit at all writes zero.
pub open spec fn decimal_value(digits: Seq<char>) -> int
    decreases digits.len(),
{
    if digits.len() == 0 {
        0
    } else {
        decimal_value(digits.drop_last()) * 10 + digit_value(digits.last())
    }
}

/// The digits of a signed number: what follows one leading `+` or `-`.
pub open spec fn digits_behind_sign(text: Seq<char>) -> Seq<char> {
    if text.len() > 0 && (text[0] == '-' || text[0] == '+') {
        text.skip(1)
    } else {
        text
    }
}

/// The number that `text` writes: an optional `+` or `-`, then decimal digits.
pub open spec fn signed_value(text: Seq<char>) -> int {
    if text.len() > 0 && text[0] == '-' {
        -decimal_value(digits_behind_sign(text))
    } else {
        decimal_value(digits_behind_sign(text))
    }
}

/// The 32-bit signed integer that `text` writes in base ten, if it writes one:
/// an optional `+` or `-`, then at least one digit and nothing but digits, and
/// a value that fits.
pub open spec fn parsed_i32(text: Seq<char>) -> Option<i32> {
    let digits = digits_behind_sign(text);
    if digits.len() > 0 && all_digits(digits) && i32::MIN <= signed_value(text) <= i32::MAX {
        Some(signed_value(text) as i32)
    } else {
        None
    }
}

/// Reads a 32-bit signed integer written in base ten with an optional sign.
/// Anything else in the text, no digit at all, or a value out of range gives
/// `None`.
pub fn parse_i32(text: &str) -> (number: Option<i32>)
    ensures
        number == parsed_i32(text@),
{
    let chars = chars_of(text);
    let n = chars.len();
    if n == 0 {
        return None;
    }
    let negative = chars[0] == '-';
    let start: usize = if chars[0] == '-' || chars[0] == '+' {
        1
    } else {
        0
    };
    let ghost digits = digits_behind_sign(text@);
    if start == n {
        return None;
    }
    let limit: i64 = 2147483648;
    let mut value: i64 = 0;
    let mut beyond = false;
    let mut i: usize = start;
    while i < n
        invariant
            n == chars.len(),
            start <= i <= n,
            digits == chars@.skip(start as int),
            digits == digits_behind_sign(text@),
            limit == 2147483648,
            all_digits(digits.take(i - start)),
            !beyond ==> value == decimal_value(digits.take(i - start)) && 0 <= value <= limit,
            beyond ==> decimal_value(digits.take(i - start)) > limit,
        decreases n - i,
    {
        let c = chars[i];
        let ghost read = digits.take(i - start);
        let ghost next = digits.take(i - start + 1);
        assert(next.drop_last() =~= read);
        assert(next.last() == c);
        if !(c >= '0' && c <= '9') {
            return None;
        }
        assert forall|j: int| 0 <= j < next.len() implies is_digit(next[j]) by {
        }
        let digit: i64 = (c as u32 - '0' as u32) as i64;
        if !beyond {
            value = value * 10 + digit;
            if value > limit {
                beyond = true;
            }
        }
        i += 1;
    }
    assert(digits.take(n - start) =~= digits);
    if beyond {
        None
    } else if negative {
        Some((-value) as i32)
    } else if value == limit {
        None
    } else {
        Some(value as i32)
    }
}

} // verus!
