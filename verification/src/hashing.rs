//! SHA-256 and hex encoding, behind trusted wrappers.

use vstd::prelude::*;
use vstd::string::StringExecFns;
use sha2::Digest;

verus! {

/// What SHA-256 returns for a byte sequence. The digest is a fixed function
/// of the input bytes alone, so it can be given a name; nothing more is
/// assumed of it than its length.
pub uninterp spec fn sha256_of(bytes: Seq<u8>) -> Seq<u8>;

/// The lowercase hex digit for a value below 16.
pub open spec fn hex_digit_char(n: u8) -> char
    recommends
        n < 16,
{
    if n < 10 {
        (48 + n) as char
    } else {
        (87 + n) as char
    }
}

/// Hex encoding: two lowercase digits per byte, high nibble first.
pub open spec fn hex_of(bytes: Seq<u8>) -> Seq<char> {
    Seq::new(
        bytes.len() * 2,
        |i: int|
            if i % 2 == 0 {
                hex_digit_char(bytes[i / 2] / 16)
            } else {
                hex_digit_char(bytes[i / 2] % 16)
            },
    )
}

/// A lowercase hex digit.
pub open spec fn is_lower_hex(c: char) -> bool {
    (48 <= c as u32 && c as u32 <= 57) || (97 <= c as u32 && c as u32 <= 102)
}

pub proof fn lemma_hex_of_is_lower_hex(bytes: Seq<u8>)
    ensures
        hex_of(bytes).len() == bytes.len() * 2,
        forall|i: int|
            0 <= i < hex_of(bytes).len() ==> is_lower_hex(#[trigger] hex_of(bytes)[i]),
{
    assert forall|i: int| 0 <= i < hex_of(bytes).len() implies is_lower_hex(
        #[trigger] hex_of(bytes)[i],
    ) by {
        let b = bytes[i / 2];
        assert(b / 16 < 16);
        assert(b % 16 < 16);
    }
}

/// The `sha256:` prefix that tags every digest this crate renders.
pub open spec fn sha256_tag() -> Seq<char> {
    seq!['s', 'h', 'a', '2', '5', '6', ':']
}

/// Relies on sha2's Sha256: the 32-byte digest of the input bytes.
#[verifier::external_body]
pub fn sha256_digest(bytes: &Vec<u8>) -> (r: Vec<u8>)
    ensures
        r@ == sha256_of(bytes@),
        r@.len() == 32,
{
    sha2::Sha256::digest(bytes.as_slice()).to_vec()
}

/// Relies on hex::encode: two lowercase hex digits for each input byte,
/// in input order.
#[verifier::external_body]
pub fn hex_encode(bytes: &Vec<u8>) -> (r: String)
    ensures
        r@ == hex_of(bytes@),
{
    hex::encode(bytes.as_slice())
}

/// `sha256:` followed by the hex of the SHA-256 digest of `bytes`.
pub fn sha256_hex_tagged(bytes: &Vec<u8>) -> (r: String)
    ensures
        r@ == sha256_tag() + hex_of(sha256_of(bytes@)),
        r@.len() == 71,
        r@.subrange(0, 7) == sha256_tag(),
        forall|i: int| 7 <= i < 71 ==> is_lower_hex(#[trigger] r@[i]),
{
    let digest = sha256_digest(bytes);
    let hex = hex_encode(&digest);
    let mut r = String::new();
    r.append("sha256:");
    r.append(hex.as_str());
    proof {
        reveal_strlit("sha256:");
        assert("sha256:"@ =~= sha256_tag());
        assert(r@ =~= sha256_tag() + hex_of(sha256_of(bytes@)));
        lemma_hex_of_is_lower_hex(digest@);
        assert(r@.subrange(0, 7) =~= sha256_tag());
        assert forall|i: int| 7 <= i < 71 implies is_lower_hex(#[trigger] r@[i]) by {
            assert(r@[i] == hex_of(digest@)[i - 7]);
        }
    }
    r
}

} // verus!
