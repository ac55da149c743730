//! Decoding of a hexadecimal code point.

use crate::outside::{char_from_u32, is_scalar_value};
use vstd::prelude::*;

verus! {

/// The value of the hexadecimal digit `c`, in either case.
pub open spec fn hex_digit(c: char) -> Option<nat> {
    let u = c as u32;
    if '0' as u32 <= u <= '9' as u32 {
        Some((u - '0' as u32) as nat)
    } else if 'a' as u32 <= u <= 'f' as u32 {
        Some((u - 'a' as u32 + 10) as nat)
    } else if 'A' as u32 <= u <= 'F' as u32 {
        Some((u - 'A' as u32 + 10) as nat)
    } else {
        None
    }
}

/// The number that `digits` write in base sixteen, if all of them are
/// hexadecimal digits.
pub open spec fn hex_value(digits: Seq<char>) -> Option<nat>
    decreases digits.len(),
{
    if digits.len() == 0 {
        Some(0)
    } else {
        match (hex_value(digits.drop_last()), hex_digit(digits.last())) {
            (Some(v), Some(d)) => Some(v * 16 + d),
            _ => None,
        }
    }
}

/// The digits of a number: the text without one leading `+`.
pub open spec fn unsigned(text: Seq<char>) -> Seq<char> {
    if text.len() > 0 && text[0] == '+' {
        text.drop_first()
    } else {
        text
    }
}

/// The number of 32 bits that `text` writes in base sixteen: an optional
/// `+`, then at least one hexadecimal digit and nothing else, with a value
/// that fits.
pub open spec fn codepoint_number(text: Seq<char>) -> Option<u32> {
    let digits = unsigned(text);
    if digits.len() == 0 {
        None
    } else {
        match hex_value(digits) {
            Some(v) => if v <= u32::MAX {
                Some(v as u32)
            } else {
                None
            },
            None => None,
        }
    }
}

/// Why a code point cannot be decoded.
#[derive(Clone, Copy, Debug, PartialEq, Eq, Structural)]
pub enum CodepointError {
    /// The text is no hexadecimal number of 32 bits.
    Invalid,
    /// The number is no Unicode scalar value.
    Undecodable,
}

/// The character whose code point `text` writes in base sixteen.
pub open spec fn decoded_codepoint(text: Seq<char>) -> Result<char, CodepointError> {
    match codepoint_number(text) {
        None => Err(CodepointError::Invalid),
        Some(v) => if is_scalar_value(v) {
            Ok(v as char)
        } else {
            Err(CodepointError::Undecodable)
        },
    }
}

/// The value of a hexadecimal digit.
fn digit_value(c: char) -> (res: Option<u32>)
    ensures
        match res {
            Some(d) => hex_digit(c) == Some(d as nat) && d < 16,
            None => hex_digit(c) is None,
        },
{
    let u: u32 = c as u32;
    if '0' as u32 <= u && u <= '9' as u32 {
        Some(u - '0' as u32)
    } else if 'a' as u32 <= u && u <= 'f' as u32 {
        Some(u - 'a' as u32 + 10)
    } else if 'A' as u32 <= u && u <= 'F' as u32 {
        Some(u - 'A' as u32 + 10)
    } else {
        None
    }
}

/// Reads a number of 32 bits in base sixteen; see [`codepoint_number`].
pub fn parse_hex(text: &Vec<char>) -> (res: Option<u32>)
    ensures
        res == codepoint_number(text@),
{
    let n = text.len();
    let first: usize = if n > 0 && text[0] == '+' { 1 } else { 0 };
    let ghost digits = unsigned(text@);
    assert(digits =~= text@.subrange(first as int, n as int));
    if first == n {
        return None;
    }
    let mut value: u32 = 0;
    let mut too_large = false;
    let mut at: usize = first;
    let ghost mut exact: nat = 0;
    assert(digits.take(0) =~= Seq::<char>::empty());
    while at < n
        invariant
            first <= at <= n,
            n == text.len(),
            digits == text@.subrange(first as int, n as int),
            digits == unsigned(text@),
            hex_value(digits.take(at - first)) == Some(exact),
            !too_large ==> value == exact,
            too_large ==> exact > u32::MAX,
        decreases n - at,
    {
        assert(digits.take(at - first + 1).drop_last() =~= digits.take(at - first));
        assert(digits.take(at - first + 1).last() == text@[at as int]);
        match digit_value(text[at]) {
            None => {
                proof {
                    assert(hex_value(digits.take(at - first + 1)) is None);
                    lemma_hex_prefix(digits, at - first + 1);
                }
                return None;
            },
            Some(d) => {
                proof {
                    exact = exact * 16 + d as nat;
                }
                if !too_large {
                    if value > (u32::MAX - d) / 16 {
                        too_large = true;
                    } else {
                        value = value * 16 + d;
                    }
                }
            },
        }
        at += 1;
    }
    assert(digits.take(n - first) =~= digits);
    if too_large {
        None
    } else {
        Some(value)
    }
}

/// A text with a prefix that is no number is no number.
proof fn lemma_hex_prefix(digits: Seq<char>, k: int)
    requires
        0 <= k <= digits.len(),
        hex_value(digits.take(k)) is None,
    ensures
        hex_value(digits) is None,
    decreases digits.len() - k,
{
    if k < digits.len() {
        assert(digits.take(k + 1).drop_last() =~= digits.take(k));
        lemma_hex_prefix(digits, k + 1);
    } else {
        assert(digits.take(k) =~= digits);
    }
}

/// Decodes the character whose code point `text` writes in base sixteen.
pub fn decode_codepoint(text: &Vec<char>) -> (res: Result<char, CodepointError>)
    ensures
        res == decoded_codepoint(text@),
{
    match parse_hex(text) {
        None => Err(CodepointError::Invalid),
        Some(v) => match char_from_u32(v) {
            Some(c) => {
                proof {
                    vstd::utf8::char_u32_cast(c, v);
                }
                Ok(c)
            },
            None => Err(CodepointError::Undecodable),
        },
    }
}

} // verus!
