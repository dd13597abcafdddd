//! Hexadecimal text, and the decimal seed, as the command line carries them.

use vstd::prelude::*;

verus! {

/// The lower-case hexadecimal digit for a value below sixteen.
pub open spec fn hex_digit(v: nat) -> char {
    if v < 10 {
        ((0x30 + v) as u8) as char
    } else {
        ((0x61 + v - 10) as u8) as char
    }
}

/// The text of a byte string: two lower-case digits a byte, high digit
/// first, nothing before or between them.
pub open spec fn hex_string(bytes: Seq<u8>) -> Seq<char> {
    Seq::new(
        2 * bytes.len(),
        |i: int|
            if i % 2 == 0 {
                hex_digit((bytes[i / 2] / 16) as nat)
            } else {
                hex_digit((bytes[i / 2] % 16) as nat)
            },
    )
}

/// The value of a hexadecimal digit of either case, `None` for any other
/// character.
pub open spec fn hex_digit_value(c: char) -> Option<nat> {
    let n = c as nat;
    if 0x30 <= n <= 0x39 {
        Some((n - 0x30) as nat)
    } else if 0x61 <= n <= 0x66 {
        Some((n - 0x61 + 10) as nat)
    } else if 0x41 <= n <= 0x46 {
        Some((n - 0x41 + 10) as nat)
    } else {
        None
    }
}

/// The text without a leading `0x` or `0X`.
pub open spec fn hex_body(text: Seq<char>) -> Seq<char> {
    if text.len() >= 2 && text[0] == '0' && (text[1] == 'x' || text[1] == 'X') {
        text.skip(2)
    } else {
        text
    }
}

/// The bytes a text stands for: it must have an even number of characters
/// and, after an optional `0x`, hold only hexadecimal digits.
pub open spec fn hex_decoded(text: Seq<char>) -> Option<Seq<u8>> {
    let body = hex_body(text);
    if text.len() % 2 == 0 && (forall|i: int| 0 <= i < body.len() ==> hex_digit_value(#[trigger] body[i]) is Some) {
        Some(
            Seq::new(
                body.len() / 2,
                |i: int|
                    (16 * hex_digit_value(body[2 * i]).unwrap() + hex_digit_value(
                        body[2 * i + 1],
                    ).unwrap()) as u8,
            ),
        )
    } else {
        None
    }
}

/// Whether a character is a decimal digit.
pub open spec fn is_decimal_digit(c: char) -> bool {
    0x30 <= c as nat <= 0x39
}

/// The number that a run of decimal digits stands for.
pub open spec fn decimal_value(digits: Seq<char>) -> nat
    decreases digits.len(),
{
    if digits.len() == 0 {
        0
    } else {
        (10 * decimal_value(digits.drop_last()) + (digits.last() as nat - 0x30)) as nat
    }
}

/// The seed or count a text stands for: decimal digits, at least one, after
/// an optional `+`, for a number that fits 64 bits.
pub open spec fn u64_parsed(text: Seq<char>) -> Option<u64> {
    let digits = if text.len() > 0 && text[0] == '+' {
        text.skip(1)
    } else {
        text
    };
    if digits.len() > 0 && (forall|i: int| 0 <= i < digits.len() ==> is_decimal_digit(#[trigger] digits[i]))
        && decimal_value(digits) <= u64::MAX {
        Some(decimal_value(digits) as u64)
    } else {
        None
    }
}

/// `hex::encode` of `alloy`: two lower-case digits a byte, without prefix.
#[verifier::external_body]
pub(crate) fn hex_encode(bytes: &[u8]) -> (text: String)
    ensures
        text@ == hex_string(bytes@),
{
    alloy::hex::encode(bytes)
}

/// `hex::decode` of `alloy`: the bytes of a text of hexadecimal digits of
/// either case, with or without a leading `0x`; `None` where the outside
/// function reports an odd length or a character that is no digit.
#[verifier::external_body]
pub(crate) fn hex_decode(text: &str) -> (bytes: Option<Vec<u8>>)
    ensures
        bytes matches Some(b) ==> hex_decoded(text@) == Some(b@),
        bytes is None ==> hex_decoded(text@) is None,
{
    alloy::hex::decode(text).ok()
}

/// `str::parse::<u64>` of std: the number that decimal digits after an
/// optional `+` stand for, `None` for any other text and for a number that
/// does not fit.
#[verifier::external_body]
pub(crate) fn u64_from_str(text: &str) -> (r: Option<u64>)
    ensures
        r == u64_parsed(text@),
{
    text.parse::<u64>().ok()
}

} // verus!
