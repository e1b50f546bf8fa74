//! Process identifiers.

use vstd::arithmetic::power::pow;
use vstd::prelude::*;

verus! {

/// The identifier of a process: 128 bits, drawn at random when the process
/// is made.
pub type ProcessId = u128;

/// The bits of an identifier that say how it was made.
pub const FORM_MASK: u128 = 0xF000_C000_0000_0000_0000;

/// What those bits hold in an identifier drawn at random.
pub const RANDOM_FORM: u128 = 0x4000_8000_0000_0000_0000;

/// The `k`-th of the 32 hexadecimal digits of `id`, the most significant
/// first, in lower case.
pub open spec fn hex_digit(id: u128, k: int) -> char {
    let v = (id as int / pow(16, (31 - k) as nat)) % 16;
    if v < 10 {
        ((48 + v) as u8) as char
    } else {
        ((87 + v) as u8) as char
    }
}

/// The digit that stands in column `i` of the text of an identifier, for a
/// column that holds no hyphen.
pub open spec fn digit_of_column(i: int) -> int {
    if i < 8 {
        i
    } else if i < 13 {
        i - 1
    } else if i < 18 {
        i - 2
    } else if i < 23 {
        i - 3
    } else {
        i - 4
    }
}

/// The text of an identifier: its 32 hexadecimal digits in groups of 8, 4,
/// 4, 4 and 12 with a hyphen between groups.
pub open spec fn hyphenated(id: u128) -> Seq<char> {
    Seq::new(
        36,
        |i: int|
            if i == 8 || i == 13 || i == 18 || i == 23 {
                '-'
            } else {
                hex_digit(id, digit_of_column(i))
            },
    )
}

/// `Uuid::new_v4` of the uuid crate, read as a number by `Uuid::as_u128`: a
/// random identifier. Whatever is drawn, the version bits say 4 and the
/// variant bits say RFC 9562.
#[verifier::external_body]
pub(crate) fn random_id() -> (id: u128)
    ensures
        id & FORM_MASK == RANDOM_FORM,
{
    uuid::Uuid::new_v4().as_u128()
}

/// `Uuid::from_u128` and the `Display` of the uuid crate: the text of an
/// identifier, in lower case and with hyphens.
#[verifier::external_body]
pub(crate) fn id_text(id: u128) -> (r: String)
    ensures
        r@ == hyphenated(id),
{
    uuid::Uuid::from_u128(id).to_string()
}

} // verus!
