//! Cards and the reader: how a card's serial number becomes the identifier
//! that the mapping is keyed by, and which reader chips are accepted.

use vstd::prelude::*;

verus! {

/// The lower-case hexadecimal digit of a value below sixteen.
pub open spec fn hex_digit(n: int) -> char {
    seq!['0', '1', '2', '3', '4', '5', '6', '7', '8', '9', 'a', 'b', 'c', 'd', 'e', 'f'][n]
}

/// The text of a byte sequence in hexadecimal: two lower-case digits for
/// each byte, the high half first.
pub open spec fn hex_text(data: Seq<u8>) -> Seq<char> {
    Seq::new(
        2 * data.len(),
        |i: int|
            if i % 2 == 0 {
                hex_digit(data[i / 2] as int / 16)
            } else {
                hex_digit(data[i / 2] as int % 16)
            },
    )
}

/// The identifier of the card with serial number `uid`, by `hex::encode`.
/// Trusted: the result is the text that `hex_text` describes, two lower-case
/// hexadecimal digits for each byte, in the order of the bytes.
#[verifier::external_body]
pub(crate) fn card_identifier(uid: &[u8]) -> (id: String)
    ensures
        id@ == hex_text(uid@),
{
    hex::encode(uid)
}

/// The version numbers that the supported reader chips report.
pub open spec fn is_supported_version(version: u8) -> bool {
    version == 0x91 || version == 0x92
}

/// Whether a reader chip that reports `version` is one this player drives.
pub fn reader_supported(version: u8) -> (ok: bool)
    ensures
        ok == is_supported_version(version),
{
    version == 0x91 || version == 0x92
}

} // verus!
