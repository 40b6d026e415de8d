//! Small helpers on strings that the rest of the crate shares: equality of
//! slices, and unsigned numbers written in decimal or hexadecimal digits.

use vstd::prelude::*;

verus! {

/// Equality of two string slices, as `str`'s `==` of the standard library
/// decides it: the two hold the same characters in the same order.
#[verifier::external_body]
pub(crate) fn same_text(a: &str, b: &str) -> (same: bool)
    ensures
        same == (a@ == b@),
{
    a == b
}

/// What `c` is worth as a digit: `0` to `9`, then `a` to `f` in either case
/// from ten on. `None` where `c` is no such character.
pub open spec fn digit_value(c: char) -> Option<int> {
    if '0' <= c <= '9' {
        Some(c as int - '0' as int)
    } else if 'a' <= c <= 'f' {
        Some(c as int - 'a' as int + 10)
    } else if 'A' <= c <= 'F' {
        Some(c as int - 'A' as int + 10)
    } else {
        None
    }
}

/// `c` is a digit of the given radix.
pub open spec fn is_digit(c: char, radix: int) -> bool {
    match digit_value(c) {
        Some(value) => value < radix,
        None => false,
    }
}

/// Every character of `digits` is a digit of the given radix.
pub open spec fn all_digits(digits: Seq<char>, radix: int) -> bool {
    forall|i: int| 0 <= i < digits.len() ==> is_digit(#[trigger] digits[i], radix)
}

/// The number that `digits` write in the given radix, most significant digit
/// first; a character that is no digit counts as zero.
pub open spec fn digits_value(digits: Seq<char>, radix: int) -> int
    decreases digits.len(),
{
    if digits.len() == 0 {
        0
    } else {
        let last = match digit_value(digits.last()) {
            Some(value) => value,
            None => 0,
        };
        digits_value(digits.drop_last(), radix) * radix + last
    }
}

/// The 16-bit number that `digits` write: there is at least one digit, every
/// character is a digit of the radix, and the number is at most `0xFFFF`.
pub open spec fn number_u16(digits: Seq<char>, radix: int) -> Option<u16> {
    if digits.len() > 0 && all_digits(digits, radix) && digits_value(digits, radix) <= 0xFFFF {
        Some(digits_value(digits, radix) as u16)
    } else {
        None
    }
}

/// A number never shrinks when a digit is appended.
pub proof fn lemma_digits_value_grows(digits: Seq<char>, radix: int, len: int)
    requires
        radix >= 1,
        0 <= len <= digits.len(),
    ensures
        0 <= digits_value(digits.take(len), radix) <= digits_value(digits, radix),
    decreases digits.len(),
{
    if digits.len() == 0 {
        assert(digits.take(len) =~= digits);
    } else if len == digits.len() {
        assert(digits.take(len) =~= digits);
        lemma_digits_value_grows(digits.drop_last(), radix, digits.len() - 1);
        assert(digits.drop_last().take(digits.len() - 1) =~= digits.drop_last());
        let shorter = digits_value(digits.drop_last(), radix);
        assert(shorter * radix >= shorter) by (nonlinear_arith)
            requires
                shorter >= 0,
                radix >= 1,
        ;
    } else {
        lemma_digits_value_grows(digits.drop_last(), radix, len);
        assert(digits.drop_last().take(len) =~= digits.take(len));
        let shorter = digits_value(digits.drop_last(), radix);
        assert(shorter * radix >= shorter) by (nonlinear_arith)
            requires
                shorter >= 0,
                radix >= 1,
        ;
    }
}

/// What one character is worth as a digit of the radix.
pub fn digit_of(c: char, radix: u32) -> (digit: Option<u32>)
    requires
        radix == 10 || radix == 16,
    ensures
        digit is Some == is_digit(c, radix as int),
        digit matches Some(value) ==> digit_value(c) == Some(value as int),
{
    let value: u32 = if '0' <= c && c <= '9' {
        c as u32 - '0' as u32
    } else if 'a' <= c && c <= 'f' {
        c as u32 - 'a' as u32 + 10
    } else if 'A' <= c && c <= 'F' {
        c as u32 - 'A' as u32 + 10
    } else {
        return None;
    };
    if value < radix {
        Some(value)
    } else {
        None
    }
}

/// Reads the characters of `text` from position `start` on as one unsigned
/// 16-bit number in radix 10 or 16.
pub fn parse_number(text: &str, start: usize, radix: u32) -> (number: Option<u16>)
    requires
        radix == 10 || radix == 16,
        start <= text@.len(),
    ensures
        number == number_u16(text@.skip(start as int), radix as int),
{
    let len = text.unicode_len();
    let ghost digits = text@.skip(start as int);
    if start == len {
        return None;
    }
    let mut value: u32 = 0;
    let mut at: usize = start;
    while at < len
        invariant
            len == text@.len(),
            start <= at <= len,
            radix == 10 || radix == 16,
            digits == text@.skip(start as int),
            all_digits(digits.take(at - start), radix as int),
            value == digits_value(digits.take(at - start), radix as int),
            value <= 0xFFFF,
        decreases len - at,
    {
        let c = text.get_char(at);
        let ghost seen = digits.take(at - start);
        let ghost next = digits.take(at - start + 1);
        proof {
            assert(digits[at - start] == c);
            assert(next.drop_last() =~= seen);
            assert(next.last() == c);
        }
        match digit_of(c, radix) {
            None => {
                proof {
                    assert(!is_digit(digits[at - start], radix as int));
                }
                return None;
            },
            Some(digit) => {
                let larger: u32 = value * radix + digit;
                proof {
                    assert(larger == digits_value(next, radix as int));
                    assert forall|i: int| 0 <= i < next.len() implies is_digit(
                        #[trigger] next[i],
                        radix as int,
                    ) by {
                        if i < at - start {
                            assert(next[i] == seen[i]);
                        }
                    }
                }
                if larger > 0xFFFF {
                    proof {
                        lemma_digits_value_grows(digits, radix as int, at - start + 1);
                    }
                    return None;
                }
                value = larger;
                at = at + 1;
            },
        }
    }
    proof {
        assert(digits.take(at - start) =~= digits);
    }
    Some(value as u16)
}

} // verus!
