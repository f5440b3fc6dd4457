//! Identifiers. Workspace and root identities are UUIDs, held here as their
//! 128-bit big-endian value (`Uuid::as_u128`); zero is the nil UUID.
use vstd::prelude::*;

verus! {

/// The bits that `Uuid::new_v4` always sets: the version (4) and the RFC 4122 variant.
pub const V4_FIXED_BITS: u128 = 0x40008000000000000000u128;

/// Draws a random identifier with `uuid::Uuid::new_v4` and returns `Uuid::as_u128` of it.
/// The crate builds the value as `random & 0xFFFFFFFFFFFF4FFFBFFFFFFFFFFFFFFF | 0x40008000000000000000`,
/// so the contract claims only that those fixed bits are set; the rest is random and unstated.
/// The crate panics when the operating system cannot supply random bytes; no argument can
/// rule that out, and nothing here claims otherwise.
#[verifier::external_body]
pub(crate) fn new_v4_id() -> (id: u128)
    ensures
        id & V4_FIXED_BITS == V4_FIXED_BITS,
{
    uuid::Uuid::new_v4().as_u128()
}

/// A freshly drawn identifier is never the nil UUID.
pub proof fn lemma_v4_not_nil(id: u128)
    requires
        id & V4_FIXED_BITS == V4_FIXED_BITS,
    ensures
        id != 0,
{
    assert(id & 0x40008000000000000000u128 == 0x40008000000000000000u128 ==> id != 0)
        by (bit_vector);
}

/// Lower-case hexadecimal digit for `d` in `0..16`.
pub open spec fn hex_digit(d: u128) -> char {
    if d < 10 {
        (48 + d) as char
    } else {
        (87 + d) as char
    }
}

/// The `k`-th hexadecimal digit of `id`, counting from the most significant (`k` in `0..32`).
pub open spec fn nibble(id: u128, k: int) -> u128 {
    (id >> ((124 - 4 * k) as u128)) & 0xfu128
}

/// Number of hyphens before position `p` of the hyphenated form.
pub open spec fn hyphens_before(p: int) -> int {
    if p < 8 {
        0
    } else if p < 13 {
        1
    } else if p < 18 {
        2
    } else if p < 23 {
        3
    } else {
        4
    }
}

/// The hyphenated lower-case form `xxxxxxxx-xxxx-xxxx-xxxx-xxxxxxxxxxxx` of a UUID.
pub open spec fn uuid_hyphenated(id: u128) -> Seq<char> {
    Seq::new(
        36,
        |p: int|
            if p == 8 || p == 13 || p == 18 || p == 23 {
                '-'
            } else {
                hex_digit(nibble(id, p - hyphens_before(p)))
            },
    )
}

/// `Uuid::from_u128(id).to_string()`: the crate's `Display` writes the hyphenated
/// lower-case form of the big-endian bytes, which the contract states digit by digit.
#[verifier::external_body]
pub(crate) fn uuid_text(id: u128) -> (r: String)
    ensures
        r@ == uuid_hyphenated(id),
{
    uuid::Uuid::from_u128(id).to_string()
}

} // verus!
