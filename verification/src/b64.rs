//! Base64 (standard alphabet, padded), behind trusted wrappers.

use vstd::prelude::*;
use base64::Engine;

verus! {

/// What base64's standard-alphabet encoder returns for a byte sequence:
/// a fixed function of the bytes alone.
pub uninterp spec fn b64_of(bytes: Seq<u8>) -> Seq<char>;

/// What base64's standard-alphabet decoder returns: the bytes, or nothing
/// when the text is not valid base64. A fixed function of the text alone.
pub uninterp spec fn b64_decoded(text: Seq<char>) -> Option<Seq<u8>>;

/// Relies on base64's STANDARD engine encode: four output characters for
/// every three input bytes, padded; decoding the result yields the input.
#[verifier::external_body]
pub fn b64_encode(bytes: &Vec<u8>) -> (r: String)
    ensures
        r@ == b64_of(bytes@),
        r@.len() == 4 * ((bytes@.len() + 2) / 3),
        b64_decoded(r@) == Some(bytes@),
{
    base64::engine::general_purpose::STANDARD.encode(bytes.as_slice())
}

/// Relies on base64's STANDARD engine decode: the encoded bytes, or
/// nothing when the text is rejected.
#[verifier::external_body]
pub fn b64_decode(text: &str) -> (r: Option<Vec<u8>>)
    ensures
        match (r, b64_decoded(text@)) {
            (Some(v), Some(s)) => v@ == s,
            (None, None) => true,
            _ => false,
        },
{
    match base64::engine::general_purpose::STANDARD.decode(text.as_bytes()) {
        Ok(v) => Some(v),
        Err(_) => None,
    }
}

} // verus!
