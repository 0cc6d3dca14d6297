//! Identifiers of agents, channels, workers and branches.

use vstd::arithmetic::power::pow;
use vstd::prelude::*;

verus! {

/// Agent identifier.
pub type AgentId = String;

/// Channel identifier.
pub type ChannelId = String;

/// Worker identifier: the 128 bits of a UUID.
pub type WorkerId = u128;

/// Branch identifier: the 128 bits of a UUID.
pub type BranchId = u128;

/// A hexadecimal digit in lower case.
pub open spec fn hex_char(digit: int) -> char {
    if digit < 10 {
        (48 + digit) as char
    } else {
        (87 + digit) as char
    }
}

/// The hexadecimal digit at a position of a 128-bit number, from the most
/// significant on.
pub open spec fn hex_digit(id: u128, position: int) -> int {
    (id as int / pow(16, (31 - position) as nat)) % 16
}

/// The position of the digit that stands at an index of the hyphenated form.
pub open spec fn digit_position(index: int) -> int {
    if index < 8 {
        index
    } else if index < 13 {
        index - 1
    } else if index < 18 {
        index - 2
    } else if index < 23 {
        index - 3
    } else {
        index - 4
    }
}

/// The hyphenated form of a UUID: 32 hexadecimal digits in groups of 8, 4, 4, 4
/// and 12.
pub open spec fn uuid_form(id: u128) -> Seq<char> {
    Seq::new(
        36,
        |index: int|
            if index == 8 || index == 13 || index == 18 || index == 23 {
                '-'
            } else {
                hex_char(hex_digit(id, digit_position(index)))
            },
    )
}

/// Prints a UUID: `uuid::Uuid::from_u128` and `<uuid::Uuid as Display>::fmt`,
/// which writes the hyphenated form in lower case.
#[verifier::external_body]
pub(crate) fn uuid_text(id: u128) -> (text: String)
    ensures
        text@ == uuid_form(id),
{
    uuid::Uuid::from_u128(id).to_string()
}

} // verus!
