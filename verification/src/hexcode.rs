//! Bytes written as hexadecimal digits.

use hex::FromHexError;
use vstd::prelude::*;
use vstd::string::*;

verus! {

/// The error of `hex`, with its three variants.
#[verifier::external_type_specification]
pub struct ExFromHexError(FromHexError);

/// The value of a hexadecimal digit in ASCII, of either case.
pub open spec fn hex_digit(b: u8) -> Option<int> {
    if 0x30 <= b <= 0x39 {
        Some(b - 0x30)
    } else if 0x61 <= b <= 0x66 {
        Some(b - 0x61 + 10)
    } else if 0x41 <= b <= 0x46 {
        Some(b - 0x41 + 10)
    } else {
        None
    }
}

/// The least index from `from` on whose byte is no hexadecimal digit.
pub open spec fn first_bad_digit(bytes: Seq<u8>, from: int) -> Option<int>
    decreases bytes.len() - from,
{
    if from < 0 || from >= bytes.len() {
        None
    } else if hex_digit(bytes[from]) is None {
        Some(from)
    } else {
        first_bad_digit(bytes, from + 1)
    }
}

/// The byte that two digits stand for.
pub open spec fn byte_of_digits(high: u8, low: u8) -> u8 {
    (hex_digit(high).unwrap() * 16 + hex_digit(low).unwrap()) as u8
}

/// What a text of digits decodes to. A text of odd length is refused as such;
/// otherwise the first byte that is no digit is reported with its place.
pub open spec fn hex_decoded(bytes: Seq<u8>) -> Result<Seq<u8>, FromHexError> {
    if bytes.len() % 2 != 0 {
        Err(FromHexError::OddLength)
    } else {
        match first_bad_digit(bytes, 0) {
            Some(index) => Err(
                FromHexError::InvalidHexCharacter { c: bytes[index] as char, index: index as usize },
            ),
            None => Ok(
                Seq::new(
                    (bytes.len() / 2) as nat,
                    |i: int| byte_of_digits(bytes[2 * i], bytes[2 * i + 1]),
                ),
            ),
        }
    }
}

/// The lower-case digit of a value under 16.
pub open spec fn hex_char(value: int) -> char {
    if value < 10 {
        (0x30 + value) as char
    } else {
        (0x61 + value - 10) as char
    }
}

/// Bytes as lower-case hexadecimal digits, two for each byte.
pub open spec fn hex_encoded(bytes: Seq<u8>) -> Seq<char> {
    Seq::new(
        2 * bytes.len(),
        |i: int|
            if i % 2 == 0 {
                hex_char(bytes[i / 2] as int / 16)
            } else {
                hex_char(bytes[i / 2] as int % 16)
            },
    )
}

/// Trusted: calls `hex::decode`, which reads the bytes of a text two by two
/// as hexadecimal digits of either case. The contract states the bytes that
/// come back, and for a text that is refused the error.
#[verifier::external_body]
pub(crate) fn hex_decode(text: &str) -> (res: Result<Vec<u8>, FromHexError>)
    ensures
        match res {
            Ok(bytes) => hex_decoded(text.spec_bytes()) == Ok::<Seq<u8>, FromHexError>(bytes@),
            Err(e) => hex_decoded(text.spec_bytes()) == Err::<Seq<u8>, FromHexError>(e),
        },
{
    hex::decode(text)
}

/// Trusted: calls `hex::encode`, which writes each byte as two lower-case
/// hexadecimal digits. The contract states the text that comes back.
#[verifier::external_body]
pub(crate) fn hex_encode(bytes: &[u8]) -> (text: String)
    ensures
        text@ == hex_encoded(bytes@),
{
    hex::encode(bytes)
}

} // verus!
