//! Whole numbers as decimal text.

use vstd::prelude::*;

use crate::text::to_chars;

verus! {

/// The digit for a number below ten.
pub open spec fn digit(n: int) -> char {
    (48 + n) as char
}

/// `n` in decimal digits.
pub open spec fn decimal(n: nat) -> Seq<char>
    decreases n,
{
    if n < 10 {
        seq![digit(n as int)]
    } else {
        decimal(n / 10).push(digit((n % 10) as int))
    }
}

/// A number in decimal digits.
pub fn decimal_string(n: u64) -> (res: String)
    ensures
        res@ == decimal(n as nat),
    decreases n,
{
    if n < 10 {
        let mut out = String::new();
        out.push((48 + n as u8) as char);
        proof {
            assert(out@ =~= decimal(n as nat));
        }
        out
    } else {
        let mut out = decimal_string(n / 10);
        out.push((48 + (n % 10) as u8) as char);
        out
    }
}

/// `n` in decimal digits, with a minus sign before them where it is negative.
pub open spec fn signed_decimal(n: int) -> Seq<char> {
    if n < 0 {
        seq!['-'] + decimal((-n) as nat)
    } else {
        decimal(n as nat)
    }
}

/// Is `c` an ASCII decimal digit?
pub open spec fn is_digit(c: char) -> bool {
    '0' <= c <= '9'
}

/// The number that `digits` write.
pub open spec fn digits_value(digits: Seq<char>) -> nat
    decreases digits.len(),
{
    if digits.len() == 0 {
        0
    } else {
        digits_value(digits.drop_last()) * 10 + (digits.last() as nat - '0' as nat) as nat
    }
}

/// `text` is one or more digits.
pub open spec fn all_digits(text: Seq<char>) -> bool {
    &&& text.len() > 0
    &&& forall|i: int| 0 <= i < text.len() ==> is_digit(#[trigger] text[i])
}

/// Does `text` start with a sign?
pub open spec fn has_sign(text: Seq<char>) -> bool {
    text.len() > 0 && (text[0] == '+' || text[0] == '-')
}

/// What follows the sign of `text`, which need not have one.
pub open spec fn magnitude(text: Seq<char>) -> Seq<char> {
    if has_sign(text) {
        text.skip(1)
    } else {
        text
    }
}

/// The number that `text` writes: digits after a plus sign, a minus sign or none.
pub open spec fn number_value(text: Seq<char>) -> int {
    let value = digits_value(magnitude(text)) as int;
    if text.len() > 0 && text[0] == '-' {
        -value
    } else {
        value
    }
}

/// The 64 bit number that `text` writes, if it writes one.
pub open spec fn parsed_i64(text: Seq<char>) -> Option<i64> {
    if all_digits(magnitude(text)) && i64::MIN <= number_value(text) <= i64::MAX {
        Some(number_value(text) as i64)
    } else {
        None
    }
}

proof fn lemma_digits_value_monotone(digits: Seq<char>, n: int)
    requires
        0 <= n <= digits.len(),
        forall|i: int| 0 <= i < digits.len() ==> is_digit(#[trigger] digits[i]),
    ensures
        digits_value(digits.take(n)) <= digits_value(digits),
    decreases digits.len() - n,
{
    if n < digits.len() {
        lemma_digits_value_monotone(digits, n + 1);
        assert(digits.take(n + 1).drop_last() =~= digits.take(n));
        assert(is_digit(digits[n]));
    } else {
        assert(digits.take(n) =~= digits);
    }
}

/// Reads a 64 bit number: one or more digits, after a plus sign, a minus sign or
/// none, and nothing else.
pub fn parse_i64(text: &str) -> (res: Option<i64>)
    ensures
        res == parsed_i64(text@),
{
    let chars = to_chars(text);
    let negative = chars.len() > 0 && chars[0] == '-';
    let start: usize = if chars.len() > 0 && (chars[0] == '-' || chars[0] == '+') {
        1
    } else {
        0
    };
    let ghost digits = magnitude(text@);
    proof {
        assert(digits =~= chars@.skip(start as int));
    }
    if chars.len() == start {
        return None;
    }
    let mut value: i128 = 0;
    let mut i: usize = start;
    while i < chars.len()
        invariant
            start <= i <= chars@.len(),
            digits == chars@.skip(start as int),
            forall|j: int| 0 <= j < i - start ==> is_digit(#[trigger] digits[j]),
            value == digits_value(digits.take(i - start)),
            value <= 0x8000_0000_0000_0000,
            chars@ == text@,
            digits == magnitude(text@),
            digits.len() > 0,
        decreases chars@.len() - i,
    {
        let c = chars[i];
        proof {
            assert(digits[i - start] == c);
        }
        if !('0' <= c && c <= '9') {
            return None;
        }
        proof {
            assert(digits.take(i - start + 1).drop_last() =~= digits.take(i - start));
        }
        value = value * 10 + (c as u8 - 48) as i128;
        i += 1;
        if value > 0x8000_0000_0000_0000 {
            proof {
                if all_digits(digits) {
                    lemma_digits_value_monotone(digits, i - start);
                }
            }
            return None;
        }
    }
    proof {
        assert(digits.take(i - start) =~= digits);
    }
    if negative {
        Some((-value) as i64)
    } else if value > 0x7fff_ffff_ffff_ffff {
        None
    } else {
        Some(value as i64)
    }
}

/// A 64 bit number in decimal digits.
pub fn signed_decimal_string(n: i64) -> (res: String)
    ensures
        res@ == signed_decimal(n as int),
{
    if n < 0 {
        let mut out = String::new();
        out.push('-');
        let digits = decimal_string((-(n as i128)) as u64);
        out.append(digits.as_str());
        proof {
            assert(out@ =~= signed_decimal(n as int));
        }
        out
    } else {
        decimal_string(n as u64)
    }
}

/// The decimal digits of a number are digits, the first of them no sign, and they
/// write that number.
pub proof fn lemma_decimal_value(n: nat)
    ensures
        all_digits(decimal(n)),
        digits_value(decimal(n)) == n,
    decreases n,
{
    let s = decimal(n);
    if n < 10 {
        assert(s.drop_last() =~= Seq::empty());
        assert(digits_value(s.drop_last()) == 0);
    } else {
        lemma_decimal_value(n / 10);
        assert(s.drop_last() =~= decimal(n / 10));
        assert forall|i: int| 0 <= i < s.len() implies is_digit(#[trigger] s[i]) by {
            if i < s.len() - 1 {
                assert(s[i] == decimal(n / 10)[i]);
            }
        }
    }
}

/// Every 64 bit number is read back from the decimal digits that it is written in.
pub proof fn law_number_round_trip(n: i64)
    ensures
        parsed_i64(signed_decimal(n as int)) == Some(n),
{
    let s = signed_decimal(n as int);
    if n < 0 {
        lemma_decimal_value((-n) as nat);
        assert(s.skip(1) =~= decimal((-n) as nat));
    } else {
        lemma_decimal_value(n as nat);
        assert(is_digit(s[0]));
    }
}

} // verus!
