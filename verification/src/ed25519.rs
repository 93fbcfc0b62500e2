//! Ed25519 signing and verification over raw key bytes, behind trusted
//! wrappers. Secret and public keys are 32 bytes, signatures 64 bytes.

use vstd::prelude::*;
use ed25519_dalek::Signer;

verus! {

/// The public key derived from 32 secret bytes: a fixed function of them.
pub uninterp spec fn ed25519_pub_of(sk: Seq<u8>) -> Seq<u8>;

/// The signature over a message under 32 secret bytes. Ed25519 signing is
/// deterministic, so this is a fixed function of key and message.
pub uninterp spec fn ed25519_sig_of(sk: Seq<u8>, msg: Seq<u8>) -> Seq<u8>;

/// Whether strict verification accepts a signature over a message under
/// 32 public-key bytes; false when the bytes are not a valid public key.
pub uninterp spec fn ed25519_accepts(vk: Seq<u8>, msg: Seq<u8>, sig: Seq<u8>) -> bool;

/// Relies on ed25519_dalek's SigningKey::verifying_key: the 32-byte
/// public key belonging to the secret key. Every 32-byte string is a
/// valid secret key.
#[verifier::external_body]
pub fn ed25519_public_key(sk: &Vec<u8>) -> (r: Vec<u8>)
    requires
        sk@.len() == 32,
    ensures
        r@ == ed25519_pub_of(sk@),
        r@.len() == 32,
{
    let mut arr = [0u8; 32];
    arr.copy_from_slice(sk.as_slice());
    ed25519_dalek::SigningKey::from_bytes(&arr).verifying_key().to_bytes().to_vec()
}

/// Relies on ed25519_dalek's SigningKey::sign: the 64-byte deterministic
/// signature, which strict verification accepts under the key's own
/// public key.
#[verifier::external_body]
pub fn ed25519_sign(sk: &Vec<u8>, msg: &Vec<u8>) -> (r: Vec<u8>)
    requires
        sk@.len() == 32,
    ensures
        r@ == ed25519_sig_of(sk@, msg@),
        r@.len() == 64,
        ed25519_accepts(ed25519_pub_of(sk@), msg@, r@),
{
    let mut arr = [0u8; 32];
    arr.copy_from_slice(sk.as_slice());
    let key = ed25519_dalek::SigningKey::from_bytes(&arr);
    key.sign(msg.as_slice()).to_bytes().to_vec()
}

/// Relies on ed25519_dalek's VerifyingKey::from_bytes and verify_strict:
/// whether the signature strictly verifies; false when the 32 bytes are
/// not a valid public key.
#[verifier::external_body]
pub fn ed25519_verify(vk: &Vec<u8>, msg: &Vec<u8>, sig: &Vec<u8>) -> (r: bool)
    requires
        vk@.len() == 32,
        sig@.len() == 64,
    ensures
        r == ed25519_accepts(vk@, msg@, sig@),
{
    let mut ka = [0u8; 32];
    ka.copy_from_slice(vk.as_slice());
    let mut sa = [0u8; 64];
    sa.copy_from_slice(sig.as_slice());
    match ed25519_dalek::VerifyingKey::from_bytes(&ka) {
        Ok(key) => {
            let sig = ed25519_dalek::Signature::from_bytes(&sa);
            key.verify_strict(msg.as_slice(), &sig).is_ok()
        },
        Err(_) => false,
    }
}

} // verus!
