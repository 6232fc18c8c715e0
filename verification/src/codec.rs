//! Byte encodings and digests provided by outside crates (`sha2`, `hex`,
//! `base64`), each behind one trusted wrapper.

use vstd::prelude::*;
use vstd::utf8::encode_utf8;
use base64::Engine;
use sha2::Digest;

verus! {

/// The SHA-256 digest of `data`, as computed by the `sha2` crate.
pub uninterp spec fn spec_sha256(data: Seq<u8>) -> Seq<u8>;

/// `sha2::Sha256::digest`: the contract names the 32-byte result `spec_sha256(data)`.
#[verifier::external_body]
pub(crate) fn sha256(data: &[u8]) -> (r: [u8; 32])
    ensures
        r@ == spec_sha256(data@),
{
    sha2::Sha256::digest(data).into()
}

/// Upper-case hexadecimal digit for a nibble.
pub open spec fn hex_digit_upper(d: int) -> u8 {
    if d < 10 {
        (48 + d) as u8
    } else {
        (55 + d) as u8
    }
}

/// Upper-case hexadecimal encoding: two digits per byte, high nibble first.
pub open spec fn hex_upper(data: Seq<u8>) -> Seq<u8> {
    Seq::new(
        2 * data.len(),
        |i: int|
            if i % 2 == 0 {
                hex_digit_upper(data[i / 2] as int / 16)
            } else {
                hex_digit_upper(data[i / 2] as int % 16)
            },
    )
}

/// `hex::encode_upper`: its source maps each byte to the digits
/// `0123456789ABCDEF[byte >> 4]` then `[byte & 0x0F]`; the contract states exactly that,
/// over the ASCII bytes of the returned string.
#[verifier::external_body]
pub(crate) fn hex_encode_upper(data: &[u8]) -> (r: Vec<u8>)
    ensures
        r@ == hex_upper(data@),
{
    hex::encode_upper(data).into_bytes()
}

/// Lower-case hexadecimal digit for a nibble.
pub open spec fn hex_digit_lower(d: int) -> u8 {
    if d < 10 {
        (48 + d) as u8
    } else {
        (87 + d) as u8
    }
}

/// Lower-case hexadecimal encoding: two digits per byte, high nibble first.
pub open spec fn hex_lower(data: Seq<u8>) -> Seq<u8> {
    Seq::new(
        2 * data.len(),
        |i: int|
            if i % 2 == 0 {
                hex_digit_lower(data[i / 2] as int / 16)
            } else {
                hex_digit_lower(data[i / 2] as int % 16)
            },
    )
}

/// `hex::encode`: its source maps each byte to the digits
/// `0123456789abcdef[byte >> 4]` then `[byte & 0x0F]`; the contract states exactly
/// that, over the ASCII bytes of the returned string.
#[verifier::external_body]
pub(crate) fn hex_encode_lower(data: &[u8]) -> (r: String)
    ensures
        r.is_ascii(),
        encode_utf8(r@) == hex_lower(data@),
{
    hex::encode(data)
}

/// The value of a hexadecimal digit (either case), if the byte is one.
pub open spec fn hex_value(b: u8) -> Option<int> {
    if 48 <= b <= 57 {
        Some(b - 48)
    } else if 65 <= b <= 70 {
        Some(b - 55)
    } else if 97 <= b <= 102 {
        Some(b - 87)
    } else {
        None
    }
}

/// Hexadecimal decoding: an even number of hex digits (either case) gives one
/// byte per pair, high nibble first; anything else does not decode.
pub open spec fn spec_hex_decode(data: Seq<u8>) -> Option<Seq<u8>> {
    if data.len() % 2 == 0 && forall|i: int| 0 <= i < data.len() ==> (#[trigger] hex_value(data[i])) is Some {
        Some(
            Seq::new(
                data.len() / 2,
                |i: int| (16 * hex_value(data[2 * i])->0 + hex_value(data[2 * i + 1])->0) as u8,
            ),
        )
    } else {
        None
    }
}

/// `hex::decode`: its source rejects an odd length and any byte that is not a
/// hex digit, and otherwise combines each pair into a byte; the contract states
/// exactly that.
#[verifier::external_body]
pub(crate) fn hex_decode(data: &[u8]) -> (r: Option<Vec<u8>>)
    ensures
        r matches Some(v) ==> spec_hex_decode(data@) == Some(v@),
        r is None <==> spec_hex_decode(data@) is None,
{
    hex::decode(data).ok()
}

/// Standard base64 (with `=` padding) of `data`, as computed by the `base64` crate.
pub uninterp spec fn spec_base64_encode(data: Seq<u8>) -> Seq<char>;

/// The bytes that standard base64 text `text` decodes to, or the crate's
/// message when it is not valid.
pub uninterp spec fn spec_base64_decode(text: Seq<char>) -> Result<Seq<u8>, Seq<char>>;

/// The text `text` decodes to `data`.
pub open spec fn decodes_to(text: Seq<char>, data: Seq<u8>) -> bool {
    spec_base64_decode(text) == Ok::<Seq<u8>, Seq<char>>(data)
}

/// What a decode gave: the bytes, or the message.
pub open spec fn decode_outcome(r: Result<Vec<u8>, String>) -> Result<Seq<u8>, Seq<char>> {
    match r {
        Ok(v) => Ok(v@),
        Err(e) => Err(e@),
    }
}

/// A character of the standard base64 alphabet or the `=` pad.
pub open spec fn is_base64_char(c: char) -> bool {
    ('A' <= c <= 'Z') || ('a' <= c <= 'z') || ('0' <= c <= '9') || c == '+' || c == '/' || c == '='
}

/// `base64::engine::general_purpose::STANDARD.encode`: the result is named
/// `spec_base64_encode(data)`; the crate documents padded output of
/// `4 * ceil(len / 3)` characters from the standard alphabet. The crate panics
/// when that length overflows `usize`, which `requires` leaves out. Decoding
/// the encoded text with the same engine gives `data` back.
#[verifier::external_body]
pub(crate) fn base64_encode(data: &[u8]) -> (r: String)
    requires
        4 * ((data@.len() + 2) / 3) <= usize::MAX,
    ensures
        r@ == spec_base64_encode(data@),
        decodes_to(r@, data@),
        r@.len() == 4 * ((data@.len() + 2) / 3),
        forall|i: int| 0 <= i < r@.len() ==> is_base64_char(#[trigger] r@[i]),
{
    base64::engine::general_purpose::STANDARD.encode(data)
}

/// `base64::engine::general_purpose::STANDARD.decode`: `Ok` exactly when the text is
/// valid padded base64; the decoded bytes, or the error's message (the crate's
/// `Display` of `DecodeError`), are named `spec_base64_decode(text)`.
#[verifier::external_body]
pub(crate) fn base64_decode(text: &str) -> (r: Result<Vec<u8>, String>)
    ensures
        spec_base64_decode(text@) == decode_outcome(r),
{
    base64::engine::general_purpose::STANDARD.decode(text).map_err(|e| e.to_string())
}

} // verus!
