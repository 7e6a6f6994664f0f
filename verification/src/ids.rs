//! Identifiers: UUIDs held as their 128-bit value.

use vstd::prelude::*;

verus! {

/// What `uuid::Uuid::parse_str` yields for a text, as the 128-bit value
/// (`None` where it reports an error).
pub uninterp spec fn uuid_from_text(s: Seq<char>) -> Option<u128>;

/// Lower-case hexadecimal digit for `d` (0..=15).
pub open spec fn hex_lower(d: int) -> char {
    if d < 10 {
        (48 + d) as char
    } else {
        (87 + d) as char
    }
}

/// Hex digit number `i` (0 = most significant) of the 32 digits of `x`.
pub open spec fn nibble(x: u128, i: int) -> int {
    ((x as int) / vstd::arithmetic::power2::pow2((4 * (31 - i)) as nat) as int) % 16
}

/// Position among the 32 hex digits of the character at `j` of the hyphenated form.
pub open spec fn hyphenated_digit_index(j: int) -> int {
    if j < 8 {
        j
    } else if j < 13 {
        j - 1
    } else if j < 18 {
        j - 2
    } else if j < 23 {
        j - 3
    } else {
        j - 4
    }
}

/// The hyphenated lower-case text of an identifier, as `Uuid`'s `Display`
/// writes it: 8-4-4-4-12 hex digits, most significant first.
pub open spec fn uuid_text(x: u128) -> Seq<char> {
    Seq::new(
        36,
        |j: int|
            if j == 8 || j == 13 || j == 18 || j == 23 {
                '-'
            } else {
                hex_lower(nibble(x, hyphenated_digit_index(j)))
            },
    )
}

/// A random identifier as `Uuid::new_v4` makes one: hex digit 12 (the
/// version) is 4, and hex digit 16 has its top two bits `10` (the RFC 4122
/// variant).
pub open spec fn is_v4_id(x: u128) -> bool {
    &&& nibble(x, 12) == 4
    &&& 8 <= nibble(x, 16) < 12
}

/// A fresh random (version 4) identifier.
///
/// Trusted: calls `uuid::Uuid::new_v4` and returns `as_u128` of it. `new_v4`
/// masks random bits and sets the version and variant bits, so the value is a
/// version-4 identifier; its other bits are random and nothing more is
/// promised of them.
#[verifier::external_body]
pub(crate) fn new_id() -> (id: u128)
    ensures
        is_v4_id(id),
{
    uuid::Uuid::new_v4().as_u128()
}

/// Parses an identifier from text.
///
/// Trusted: calls `uuid::Uuid::parse_str`. The result is named
/// `uuid_from_text`; the parser accepts the hyphenated form it writes, so the
/// hyphenated text of `x` parses back to `x`.
#[verifier::external_body]
pub(crate) fn parse_id(s: &str) -> (r: Option<u128>)
    ensures
        r == uuid_from_text(s@),
        forall|x: u128| s@ == uuid_text(x) ==> r == Some(x),
{
    uuid::Uuid::parse_str(s).ok().map(|u| u.as_u128())
}

/// The hyphenated text of an identifier.
///
/// Trusted: calls `to_string` on `uuid::Uuid::from_u128(x)`, whose `Display`
/// writes the lower-case hyphenated form that `uuid_text` spells out.
#[verifier::external_body]
pub(crate) fn id_to_string(x: u128) -> (s: String)
    ensures
        s@ == uuid_text(x),
{
    uuid::Uuid::from_u128(x).to_string()
}

} // verus!
