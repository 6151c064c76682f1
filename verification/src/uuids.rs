//! Identifiers used by the prefab format, and the calls into the `uuid` crate that turn them
//! into text and back.

use vstd::prelude::*;

verus! {

/// The identifier of a prefab.
pub type PrefabUuid = [u8; 16];

/// The identifier of an entity inside a prefab.
pub type EntityUuid = [u8; 16];

/// The identifier of a component type.
pub type ComponentTypeUuid = [u8; 16];

/// The value that `uuid::Uuid::parse_str` gives for a text: the bytes of the identifier it
/// reads, or `None` where it reports an error.
pub uninterp spec fn uuid_from_text(text: Seq<char>) -> Option<[u8; 16]>;

/// The lower-case hexadecimal digit for a value below 16.
pub open spec fn hex_digit(n: int) -> char {
    if n < 10 {
        (48 + n) as char
    } else {
        (87 + n) as char
    }
}

/// The number of hyphens that stand before position `i` of the hyphenated form.
pub open spec fn hyphens_before(i: int) -> int {
    if i < 8 {
        0
    } else if i < 13 {
        1
    } else if i < 18 {
        2
    } else if i < 23 {
        3
    } else {
        4
    }
}

/// The value of the `k`-th hexadecimal digit of `bytes`, high half of each byte first.
pub open spec fn nibble(bytes: [u8; 16], k: int) -> int {
    if k % 2 == 0 {
        bytes[k / 2] as int / 16
    } else {
        bytes[k / 2] as int % 16
    }
}

/// The hyphenated lower-case form of an identifier: 36 characters, hyphens at positions 8, 13,
/// 18 and 23, and between them the 32 hexadecimal digits of the bytes in order.
pub open spec fn hyphenated_text(bytes: [u8; 16]) -> Seq<char> {
    Seq::new(
        36,
        |i: int|
            if i == 8 || i == 13 || i == 18 || i == 23 {
                '-'
            } else {
                hex_digit(nibble(bytes, i - hyphens_before(i)))
            },
    )
}

/// Reads an identifier from its text with `uuid::Uuid::parse_str`.
///
/// Trusted: the result is `uuid_from_text` of the text; nothing more is stated of which texts
/// the `uuid` crate accepts.
#[verifier::external_body]
pub(crate) fn parse_uuid(text: &str) -> (res: Option<[u8; 16]>)
    ensures
        res == uuid_from_text(text@),
{
    match uuid::Uuid::parse_str(text) {
        Ok(u) => Some(*u.as_bytes()),
        Err(_) => None,
    }
}

/// Writes an identifier as text with `uuid::Uuid::from_bytes` and its `Display` impl (the
/// lower-case hyphenated form).
///
/// Trusted: the result is the hyphenated lower-case form of the bytes (the `Display` impl goes
/// through `LowerHex` to the hyphenated encoder), and `uuid::Uuid::parse_str`, which accepts the
/// hyphenated form and decodes each pair of hexadecimal digits to a byte, reads that text back
/// to the same bytes.
#[verifier::external_body]
pub(crate) fn uuid_to_text(bytes: &[u8; 16]) -> (res: String)
    ensures
        res@ == hyphenated_text(*bytes),
        uuid_from_text(res@) == Some(*bytes),
{
    uuid::Uuid::from_bytes(*bytes).to_string()
}

/// Creates a random identifier with `uuid::Uuid::new_v4`.
///
/// Trusted: the bytes are random; what holds of every outcome is that the version nibble
/// (high half of byte 6) is 4 and the variant bits (top two bits of byte 8) are `10`, which
/// `new_v4` sets on every identifier it makes. `new_v4` panics when the operating system gives
/// no random bytes; no `requires` can rule that out.
#[verifier::external_body]
pub(crate) fn new_random_uuid() -> (res: [u8; 16])
    ensures
        res[6] >> 4u8 == 4u8,
        res[8] >> 6u8 == 2u8,
{
    *uuid::Uuid::new_v4().as_bytes()
}

/// Compares two identifiers byte by byte.
pub fn uuid_eq(a: &[u8; 16], b: &[u8; 16]) -> (res: bool)
    ensures
        res == (*a == *b),
{
    let mut i: usize = 0;
    while i < 16
        invariant
            0 <= i <= 16,
            forall|j: int| 0 <= j < i ==> a[j] == b[j],
        decreases 16 - i,
    {
        if a[i] != b[i] {
            return false;
        }
        i = i + 1;
    }
    assert(*a =~= *b);
    true
}

} // verus!
