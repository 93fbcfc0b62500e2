//! Hash-chained audit entries and offline chain verification.
//!
//! Every entry hashes the previous entry's hash (when there is one)
//! followed by the JSON bytes of its own payload; the first entry has no
//! predecessor. A chain is valid when every stored hash is exactly the one
//! recomputed this way and every link names its predecessor's hash.

use vstd::prelude::*;
use vstd::utf8::encode_utf8;
use crate::hashing::{sha256_of, hex_of, sha256_tag, sha256_hex_tagged};
use crate::json::{
    json_string_bytes, dec_bytes, null_bytes, append_str_bytes, append_null, append_u32_dec,
    append_json_string,
};

verus! {

/// What one audit event records.
#[derive(Clone)]
pub struct AuditEntryPayload {
    pub timestamp: String,
    pub event_type: String,
    pub device_fingerprint: Option<String>,
    pub action: String,
    pub requester_uid: Option<u32>,
}

/// One line of the audit log: the payload, the previous entry's hash, and
/// this entry's hash.
#[derive(Clone)]
pub struct AuditEntry {
    pub payload: AuditEntryPayload,
    pub prev_hash: Option<String>,
    pub entry_hash: String,
}

/// The JSON bytes of a payload, fields in declaration order.
pub open spec fn payload_bytes(p: &AuditEntryPayload) -> Seq<u8> {
    encode_utf8("{\"timestamp\":"@) + json_string_bytes(p.timestamp@) + encode_utf8(
        ",\"event_type\":"@,
    ) + json_string_bytes(p.event_type@) + encode_utf8(",\"device_fingerprint\":"@) + (
    match p.device_fingerprint {
        Some(s) => json_string_bytes(s@),
        None => null_bytes(),
    }) + encode_utf8(",\"action\":"@) + json_string_bytes(p.action@) + encode_utf8(
        ",\"requester_uid\":"@,
    ) + (match p.requester_uid {
        Some(u) => dec_bytes(u as nat),
        None => null_bytes(),
    }) + encode_utf8("}"@)
}

/// The bytes that are hashed for an entry: the previous hash text (nothing
/// when there is none) followed by the payload JSON.
pub open spec fn hash_input(prev: Option<Seq<char>>, p: &AuditEntryPayload) -> Seq<u8> {
    (match prev {
        Some(s) => encode_utf8(s),
        None => Seq::empty(),
    }) + payload_bytes(p)
}

/// The hash text an entry must carry.
pub open spec fn entry_hash_of(prev: Option<Seq<char>>, p: &AuditEntryPayload) -> Seq<char> {
    sha256_tag() + hex_of(sha256_of(hash_input(prev, p)))
}

/// The JSON bytes of a whole entry, fields in declaration order.
pub open spec fn entry_bytes(e: &AuditEntry) -> Seq<u8> {
    encode_utf8("{\"payload\":"@) + payload_bytes(&e.payload) + encode_utf8(",\"prev_hash\":"@) + (
    match e.prev_hash {
        Some(s) => json_string_bytes(s@),
        None => null_bytes(),
    }) + encode_utf8(",\"entry_hash\":"@) + json_string_bytes(e.entry_hash@) + encode_utf8("}"@)
}

/// The JSON bytes of a payload.
pub fn payload_json(p: &AuditEntryPayload) -> (r: Vec<u8>)
    ensures
        r@ == payload_bytes(p),
{
    let mut out: Vec<u8> = Vec::new();
    append_str_bytes(&mut out, "{\"timestamp\":");
    append_json_string(&mut out, p.timestamp.as_str());
    append_str_bytes(&mut out, ",\"event_type\":");
    append_json_string(&mut out, p.event_type.as_str());
    append_str_bytes(&mut out, ",\"device_fingerprint\":");
    match &p.device_fingerprint {
        Some(s) => append_json_string(&mut out, s.as_str()),
        None => append_null(&mut out),
    }
    append_str_bytes(&mut out, ",\"action\":");
    append_json_string(&mut out, p.action.as_str());
    append_str_bytes(&mut out, ",\"requester_uid\":");
    match &p.requester_uid {
        Some(u) => append_u32_dec(&mut out, *u),
        None => append_null(&mut out),
    }
    append_str_bytes(&mut out, "}");
    proof {
        assert(out@ =~= payload_bytes(p));
    }
    out
}

/// The JSON bytes of a whole entry: one audit log line, without the
/// trailing newline.
pub fn entry_json(e: &AuditEntry) -> (r: Vec<u8>)
    ensures
        r@ == entry_bytes(e),
{
    let mut out: Vec<u8> = Vec::new();
    append_str_bytes(&mut out, "{\"payload\":");
    let mut pb = payload_json(&e.payload);
    out.append(&mut pb);
    append_str_bytes(&mut out, ",\"prev_hash\":");
    match &e.prev_hash {
        Some(s) => append_json_string(&mut out, s.as_str()),
        None => append_null(&mut out),
    }
    append_str_bytes(&mut out, ",\"entry_hash\":");
    append_json_string(&mut out, e.entry_hash.as_str());
    append_str_bytes(&mut out, "}");
    proof {
        assert(out@ =~= entry_bytes(e));
    }
    out
}

impl AuditEntry {
    /// The hash text for an entry with the given predecessor hash and
    /// payload.
    pub fn compute_hash(prev_hash: Option<&str>, payload: &AuditEntryPayload) -> (r: String)
        ensures
            r@ == entry_hash_of(
                match prev_hash {
                    Some(s) => Some(s@),
                    None => None,
                },
                payload,
            ),
    {
        let mut m: Vec<u8> = Vec::new();
        match prev_hash {
            Some(p) => append_str_bytes(&mut m, p),
            None => {},
        }
        let mut pb = payload_json(payload);
        m.append(&mut pb);
        proof {
            assert(m@ =~= hash_input(
                match prev_hash {
                    Some(s) => Some(s@),
                    None => None,
                },
                payload,
            ));
        }
        sha256_hex_tagged(&m)
    }

    /// A fresh entry over the given predecessor hash and payload.
    pub fn new(prev_hash: Option<String>, payload: AuditEntryPayload) -> (r: AuditEntry)
        ensures
            r.payload == payload,
            r.prev_hash == prev_hash,
            r.entry_hash@ == entry_hash_of(
                match prev_hash {
                    Some(s) => Some(s@),
                    None => None,
                },
                &payload,
            ),
    {
        let entry_hash = match &prev_hash {
            Some(p) => Self::compute_hash(Some(p.as_str()), &payload),
            None => Self::compute_hash(None, &payload),
        };
        AuditEntry { payload, prev_hash, entry_hash }
    }
}

/// The hash the entry at position `i` must chain from.
pub open spec fn prev_of(entries: Seq<AuditEntry>, i: int) -> Option<Seq<char>> {
    if i == 0 {
        None
    } else {
        Some(entries[i - 1].entry_hash@)
    }
}

/// The entry at position `i` carries the recomputed hash and names its
/// predecessor's hash (no predecessor for the first entry).
pub open spec fn entry_ok(entries: Seq<AuditEntry>, i: int) -> bool {
    entries[i].entry_hash@ == entry_hash_of(prev_of(entries, i), &entries[i].payload)
        && (if i == 0 {
        entries[i].prev_hash is None
    } else {
        match entries[i].prev_hash {
            Some(p) => p@ == entries[i - 1].entry_hash@,
            None => false,
        }
    })
}

/// The whole chain is intact.
pub open spec fn chain_valid(entries: Seq<AuditEntry>) -> bool {
    forall|i: int| 0 <= i < entries.len() ==> entry_ok(entries, i)
}

/// Whether the chain of entries is intact end to end.
pub fn verify_chain(entries: &Vec<AuditEntry>) -> (r: bool)
    ensures
        r == chain_valid(entries@),
{
    let mut i: usize = 0;
    while i < entries.len()
        invariant
            i <= entries@.len(),
            forall|j: int| 0 <= j < i ==> entry_ok(entries@, j),
        decreases entries@.len() - i,
    {
        let e = &entries[i];
        let expected = if i == 0 {
            AuditEntry::compute_hash(None, &e.payload)
        } else {
            AuditEntry::compute_hash(Some(entries[i - 1].entry_hash.as_str()), &e.payload)
        };
        if !(expected == e.entry_hash) {
            proof {
                assert(!entry_ok(entries@, i as int));
            }
            return false;
        }
        if i == 0 {
            match &e.prev_hash {
                Some(_) => {
                    proof {
                        assert(!entry_ok(entries@, i as int));
                    }
                    return false;
                },
                None => {},
            }
        } else {
            match &e.prev_hash {
                Some(p) => {
                    let link_ok: bool = *p == entries[i - 1].entry_hash;
                    if !link_ok {
                        proof {
                            assert(!entry_ok(entries@, i as int));
                        }
                        return false;
                    }
                },
                None => {
                    proof {
                        assert(!entry_ok(entries@, i as int));
                    }
                    return false;
                },
            }
        }
        proof {
            assert(entry_ok(entries@, i as int));
        }
        i = i + 1;
    }
    true
}

} // verus!
