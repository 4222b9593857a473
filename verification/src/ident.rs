//! Fresh identifiers for new users.

use vstd::prelude::*;
use vstd::string::*;
use crate::user_core::{has_random_layout, lemma_random_layout_not_nil, UserId};

verus! {

/// Calls `uuid::Uuid::new_v4` and reads the result with `Uuid::as_u128`.
///
/// `new_v4` draws 128 random bits, forces the version field to 4 and the
/// variant field to the standard one, and `as_u128` packs the sixteen bytes
/// most significant first. The contract claims only those fixed bits; the
/// other 122 are random and nothing is said of them. Where the operating
/// system cannot supply random bytes, `new_v4` panics.
#[verifier::external_body]
fn random_uuid_bits() -> (bits: u128)
    ensures
        has_random_layout(bits),
{
    uuid::Uuid::new_v4().as_u128()
}

/// The lower-case hexadecimal digit for a value below 16.
pub open spec fn hex_digit(value: u128) -> char {
    "0123456789abcdef"@[value as int]
}

/// The value of the hexadecimal digit of `bits` at `digit`, counted from 0
/// at the most significant of its 32 digits.
pub open spec fn nibble_at(bits: u128, digit: int) -> u128 {
    (bits >> ((4 * (31 - digit)) as u128)) & 0xf
}

/// Which of the 32 digits stands at `place` of the hyphenated text, for a
/// place that holds no hyphen.
pub open spec fn digit_at_place(place: int) -> int {
    if place < 8 {
        place
    } else if place < 13 {
        place - 1
    } else if place < 18 {
        place - 2
    } else if place < 23 {
        place - 3
    } else {
        place - 4
    }
}

/// The text of the UUID with the given bits in its usual form: its 32
/// lower-case hexadecimal digits, most significant first, in groups of 8, 4,
/// 4, 4 and 12 with a hyphen between two groups.
pub open spec fn hyphenated_text(bits: u128) -> Seq<char> {
    Seq::new(
        36,
        |place: int|
            if place == 8 || place == 13 || place == 18 || place == 23 {
                '-'
            } else {
                hex_digit(nibble_at(bits, digit_at_place(place)))
            },
    )
}

/// Calls `uuid::Uuid::from_u128`, then `Uuid::hyphenated` and `to_string`
/// on the result.
///
/// The contract claims the whole text: the formatter writes each of the
/// sixteen bytes, most significant first, as two lower-case hexadecimal
/// digits, and sets hyphens at the places 8, 13, 18 and 23.
#[verifier::external_body]
pub(crate) fn format_hyphenated(bits: u128) -> (text: String)
    ensures
        text@ == hyphenated_text(bits),
{
    uuid::Uuid::from_u128(bits).hyphenated().to_string()
}

/// A freshly generated identifier: random, of version 4, and so never nil.
///
/// The bits are drawn from the operating system's random source; where that
/// source gives no bytes, the draw panics.
pub fn fresh_user_id() -> (id: UserId)
    ensures
        has_random_layout(id.bits),
        id.bits != 0,
{
    let bits: u128 = random_uuid_bits();
    proof {
        lemma_random_layout_not_nil(bits);
    }
    UserId::from_u128(bits)
}

} // verus!
