//! Universally unique identifiers as 128-bit numbers, and their text.

use crate::util::decimal::digit_char;
use vstd::prelude::*;

verus! {

/// The character of one hexadecimal digit, in lower case.
pub open spec fn hex_char(d: nat) -> char
    recommends
        d < 16,
{
    if d < 10 {
        digit_char(d)
    } else if d == 10 {
        'a'
    } else if d == 11 {
        'b'
    } else if d == 12 {
        'c'
    } else if d == 13 {
        'd'
    } else if d == 14 {
        'e'
    } else {
        'f'
    }
}

/// 16 to the power of `k`.
pub open spec fn pow16(k: nat) -> nat
    decreases k,
{
    if k == 0 {
        1
    } else {
        16 * pow16((k - 1) as nat)
    }
}

/// The hexadecimal digit of `value` at place `k` of 32, counted from the
/// most significant.
pub open spec fn hex_digit_at(value: u128, k: nat) -> nat
    recommends
        k < 32,
{
    (value as nat / pow16((31 - k) as nat)) % 16
}

/// The text of an identifier: its 32 hexadecimal digits in lower case, most
/// significant first, in groups of 8, 4, 4, 4 and 12 with a hyphen between.
pub open spec fn uuid_text(value: u128) -> Seq<char> {
    Seq::new(
        36,
        |i: int|
            if i == 8 || i == 13 || i == 18 || i == 23 {
                '-'
            } else {
                let k = if i < 8 {
                    i
                } else if i < 13 {
                    i - 1
                } else if i < 18 {
                    i - 2
                } else if i < 23 {
                    i - 3
                } else {
                    i - 4
                };
                hex_char(hex_digit_at(value, k as nat))
            },
    )
}

/// Writes an identifier as `uuid::Uuid` does: `Uuid::from_u128` takes the
/// number's bytes most significant first, and `Display` writes them as
/// lower-case hexadecimal digits in the hyphenated form.
#[verifier::external_body]
pub(crate) fn format_uuid(value: u128) -> (r: String)
    ensures
        r@ == uuid_text(value),
{
    uuid::Uuid::from_u128(value).to_string()
}

} // verus!
