//! Canonical-JSON serialization and Ed25519 sign/verify over it.
//!
//! Keys are raw bytes: 32 for a secret or public key, 64 for a signature.

use vstd::prelude::*;
use vstd::string::StringExecFns;
use crate::json::{append_str_bytes, append_json_string, append_u32_dec};
use crate::b64::{b64_of, b64_decoded, b64_encode, b64_decode};
use crate::ed25519::{ed25519_sig_of, ed25519_accepts, ed25519_sign, ed25519_verify};
use crate::baseline::{Baseline, baseline_canon_bytes, append_devices_canon};

verus! {

/// What can go wrong when serializing or checking a signature.
#[derive(Debug)]
pub enum CryptoError {
    Ser(String),
    Sig(String),
}

/// The canonical JSON bytes of a baseline: object keys sorted, no
/// insignificant whitespace, optional fields absent when unset.
pub fn canonical_json_vec(value: &Baseline) -> (r: Result<Vec<u8>, CryptoError>)
    ensures
        r matches Ok(v) && v@ == baseline_canon_bytes(value),
{
    let mut out: Vec<u8> = Vec::new();
    append_str_bytes(&mut out, "{\"created_at\":");
    append_json_string(&mut out, value.created_at.as_str());
    append_str_bytes(&mut out, ",\"created_by\":");
    append_json_string(&mut out, value.created_by.as_str());
    append_str_bytes(&mut out, ",\"devices\":[");
    append_devices_canon(&mut out, &value.devices);
    append_str_bytes(&mut out, "]");
    match &value.signature {
        Some(s) => {
            append_str_bytes(&mut out, ",\"signature\":");
            append_json_string(&mut out, s.as_str());
        },
        None => {},
    }
    append_str_bytes(&mut out, ",\"version\":");
    append_u32_dec(&mut out, value.version);
    append_str_bytes(&mut out, "}");
    proof {
        assert(out@ =~= baseline_canon_bytes(value));
    }
    Ok(out)
}

/// The base64 Ed25519 signature over the canonical JSON of `value`, as
/// it stands (a set signature field is part of the signed bytes).
pub fn sign_canonical(signing_key: &Vec<u8>, value: &Baseline) -> (r: Result<String, CryptoError>)
    requires
        signing_key@.len() == 32,
    ensures
        r matches Ok(s) && s@ == b64_of(
            ed25519_sig_of(signing_key@, baseline_canon_bytes(value)),
        ),
{
    let msg = match canonical_json_vec(value) {
        Ok(m) => m,
        Err(e) => {
            return Err(e);
        },
    };
    let sig = ed25519_sign(signing_key, &msg);
    Ok(b64_encode(&sig))
}

/// Whether `b64sig` is a signature over the canonical JSON of `value`
/// under `verifying_key`; an error when it is not base64 of 64 bytes.
pub fn verify_canonical(
    verifying_key: &Vec<u8>,
    value: &Baseline,
    b64sig: &str,
) -> (r: Result<bool, CryptoError>)
    requires
        verifying_key@.len() == 32,
    ensures
        match b64_decoded(b64sig@) {
            None => r is Err,
            Some(d) => {
                &&& d.len() == 64 ==> r == Ok::<bool, CryptoError>(
                    ed25519_accepts(verifying_key@, baseline_canon_bytes(value), d),
                )
                &&& d.len() != 64 ==> r is Err
            },
        },
{
    let msg = match canonical_json_vec(value) {
        Ok(m) => m,
        Err(e) => {
            return Err(e);
        },
    };
    match b64_decode(b64sig) {
        None => Err(CryptoError::Sig(String::from_str("signature is not valid base64"))),
        Some(d) => {
            if d.len() != 64 {
                Err(CryptoError::Sig(String::from_str("signature has the wrong length")))
            } else {
                Ok(ed25519_verify(verifying_key, &msg, &d))
            }
        },
    }
}

} // verus!
