//! The signed baseline: the only source of persistent policy.
//!
//! A baseline is signed over its canonical JSON form — object keys in
//! sorted order, no insignificant whitespace, optional fields absent
//! rather than null, and the signature field itself left out.

use vstd::prelude::*;
use vstd::string::StringExecFns;
use vstd::utf8::encode_utf8;
use crate::json::{
    json_string_bytes, dec_bytes, append_str_bytes, append_json_string, append_u32_dec,
};
use crate::b64::{b64_of, b64_decoded, b64_encode, b64_decode};
use crate::ed25519::{ed25519_pub_of, ed25519_sig_of, ed25519_accepts, ed25519_sign, ed25519_verify};

verus! {

/// One device allowed by a baseline.
#[derive(Clone)]
pub struct DeviceEntry {
    pub vendor_id: String,
    pub product_id: String,
    pub serial: Option<String>,
    pub bus_path: Option<String>,
    pub descriptors_hash: String,
    pub device_type: String,
    pub comment: Option<String>,
}

/// A signed list of allowed devices.
#[derive(Clone)]
pub struct Baseline {
    pub version: u32,
    pub created_by: String,
    pub created_at: String,
    pub devices: Vec<DeviceEntry>,
    pub signature: Option<String>,
}

/// Two device entries hold the same data.
pub open spec fn entry_views_eq(a: DeviceEntry, b: DeviceEntry) -> bool {
    &&& a.vendor_id@ == b.vendor_id@
    &&& a.product_id@ == b.product_id@
    &&& opt_view_eq(a.serial, b.serial)
    &&& opt_view_eq(a.bus_path, b.bus_path)
    &&& a.descriptors_hash@ == b.descriptors_hash@
    &&& a.device_type@ == b.device_type@
    &&& opt_view_eq(a.comment, b.comment)
}

pub open spec fn opt_view_eq(a: Option<String>, b: Option<String>) -> bool {
    match (a, b) {
        (Some(x), Some(y)) => x@ == y@,
        (None, None) => true,
        _ => false,
    }
}

/// The opening brace and the optional `bus_path` and `comment` fields of
/// one device entry.
pub open spec fn entry_head_bytes(d: DeviceEntry) -> Seq<u8> {
    encode_utf8("{"@) + (match d.bus_path {
        Some(p) => encode_utf8("\"bus_path\":"@) + json_string_bytes(p@) + encode_utf8(","@),
        None => Seq::empty(),
    }) + (match d.comment {
        Some(c) => encode_utf8("\"comment\":"@) + json_string_bytes(c@) + encode_utf8(","@),
        None => Seq::empty(),
    })
}

/// The optional `serial` field and the closing fields of one device entry.
pub open spec fn entry_tail_bytes(d: DeviceEntry) -> Seq<u8> {
    (match d.serial {
        Some(s) => encode_utf8(",\"serial\":"@) + json_string_bytes(s@),
        None => Seq::empty(),
    }) + encode_utf8(",\"vendor_id\":"@) + json_string_bytes(d.vendor_id@) + encode_utf8("}"@)
}

/// The canonical JSON bytes of one device entry: keys sorted, optional
/// fields present only when set.
pub open spec fn entry_canon_bytes(d: DeviceEntry) -> Seq<u8> {
    entry_head_bytes(d) + encode_utf8("\"descriptors_hash\":"@) + json_string_bytes(
        d.descriptors_hash@,
    ) + encode_utf8(",\"device_type\":"@) + json_string_bytes(d.device_type@) + encode_utf8(
        ",\"product_id\":"@,
    ) + json_string_bytes(d.product_id@) + entry_tail_bytes(d)
}

/// The canonical JSON bytes of a device list, comma separated.
pub open spec fn devices_canon_bytes(s: Seq<DeviceEntry>) -> Seq<u8>
    decreases s.len(),
{
    if s.len() == 0 {
        Seq::empty()
    } else {
        devices_canon_bytes(s.drop_last()) + (if s.len() == 1 {
            Seq::empty()
        } else {
            encode_utf8(","@)
        }) + entry_canon_bytes(s.last())
    }
}

/// The canonical JSON bytes of a baseline with the signature field left
/// out: the exact bytes that are signed and verified.
pub open spec fn unsigned_canon_bytes(b: &Baseline) -> Seq<u8> {
    encode_utf8("{\"created_at\":"@) + json_string_bytes(b.created_at@) + encode_utf8(
        ",\"created_by\":"@,
    ) + json_string_bytes(b.created_by@) + encode_utf8(",\"devices\":["@) + devices_canon_bytes(
        b.devices@,
    ) + encode_utf8("]"@) + encode_utf8(",\"version\":"@) + dec_bytes(b.version as nat)
        + encode_utf8("}"@)
}

/// The canonical JSON bytes of a baseline as it stands; the signature
/// field appears only when it is set.
pub open spec fn baseline_canon_bytes(b: &Baseline) -> Seq<u8> {
    encode_utf8("{\"created_at\":"@) + json_string_bytes(b.created_at@) + encode_utf8(
        ",\"created_by\":"@,
    ) + json_string_bytes(b.created_by@) + encode_utf8(",\"devices\":["@) + devices_canon_bytes(
        b.devices@,
    ) + encode_utf8("]"@) + (match b.signature {
        Some(s) => encode_utf8(",\"signature\":"@) + json_string_bytes(s@),
        None => Seq::empty(),
    }) + encode_utf8(",\"version\":"@) + dec_bytes(b.version as nat) + encode_utf8("}"@)
}

/// The signature on `b` is well-formed base64 of 64 bytes and strictly
/// verifies over the canonical unsigned form under the key `vk`.
pub open spec fn verify_ok(b: &Baseline, vk: Seq<u8>) -> bool {
    match b.signature {
        Some(s) => match b64_decoded(s@) {
            Some(d) => d.len() == 64 && ed25519_accepts(vk, unsigned_canon_bytes(b), d),
            None => false,
        },
        None => false,
    }
}

#[verifier::rlimit(100)]
fn append_entry_head(out: &mut Vec<u8>, d: &DeviceEntry)
    ensures
        final(out)@ == old(out)@ + entry_head_bytes(*d),
{
    append_str_bytes(out, "{");
    match &d.bus_path {
        Some(p) => {
            append_str_bytes(out, "\"bus_path\":");
            append_json_string(out, p.as_str());
            append_str_bytes(out, ",");
        },
        None => {},
    }
    match &d.comment {
        Some(c) => {
            append_str_bytes(out, "\"comment\":");
            append_json_string(out, c.as_str());
            append_str_bytes(out, ",");
        },
        None => {},
    }
    proof {
        assert(out@ =~= old(out)@ + entry_head_bytes(*d));
    }
}

#[verifier::rlimit(100)]
fn append_entry_tail(out: &mut Vec<u8>, d: &DeviceEntry)
    ensures
        final(out)@ == old(out)@ + entry_tail_bytes(*d),
{
    match &d.serial {
        Some(s) => {
            append_str_bytes(out, ",\"serial\":");
            append_json_string(out, s.as_str());
        },
        None => {},
    }
    append_str_bytes(out, ",\"vendor_id\":");
    append_json_string(out, d.vendor_id.as_str());
    append_str_bytes(out, "}");
    proof {
        assert(out@ =~= old(out)@ + entry_tail_bytes(*d));
    }
}

#[verifier::rlimit(100)]
fn append_entry_canon(out: &mut Vec<u8>, d: &DeviceEntry)
    ensures
        final(out)@ == old(out)@ + entry_canon_bytes(*d),
{
    append_entry_head(out, d);
    append_str_bytes(out, "\"descriptors_hash\":");
    append_json_string(out, d.descriptors_hash.as_str());
    append_str_bytes(out, ",\"device_type\":");
    append_json_string(out, d.device_type.as_str());
    append_str_bytes(out, ",\"product_id\":");
    append_json_string(out, d.product_id.as_str());
    append_entry_tail(out, d);
    proof {
        assert(out@ =~= old(out)@ + entry_canon_bytes(*d));
    }
}

pub(crate) fn append_devices_canon(out: &mut Vec<u8>, devices: &Vec<DeviceEntry>)
    ensures
        final(out)@ == old(out)@ + devices_canon_bytes(devices@),
{
    let ghost base = out@;
    let mut i: usize = 0;
    while i < devices.len()
        invariant
            i <= devices@.len(),
            out@ == base + devices_canon_bytes(devices@.take(i as int)),
        decreases devices@.len() - i,
    {
        if i > 0 {
            append_str_bytes(out, ",");
        }
        append_entry_canon(out, &devices[i]);
        proof {
            let pre = devices@.take(i as int + 1);
            assert(pre.drop_last() =~= devices@.take(i as int));
            assert(pre.last() == devices@[i as int]);
            assert(out@ =~= base + devices_canon_bytes(pre));
        }
        i = i + 1;
    }
    proof {
        assert(devices@.take(devices@.len() as int) =~= devices@);
    }
}

/// The canonical unsigned bytes of a baseline: what gets signed.
pub fn canonical_unsigned(b: &Baseline) -> (r: Vec<u8>)
    ensures
        r@ == unsigned_canon_bytes(b),
{
    let mut out: Vec<u8> = Vec::new();
    append_str_bytes(&mut out, "{\"created_at\":");
    append_json_string(&mut out, b.created_at.as_str());
    append_str_bytes(&mut out, ",\"created_by\":");
    append_json_string(&mut out, b.created_by.as_str());
    append_str_bytes(&mut out, ",\"devices\":[");
    append_devices_canon(&mut out, &b.devices);
    append_str_bytes(&mut out, "]");
    append_str_bytes(&mut out, ",\"version\":");
    append_u32_dec(&mut out, b.version);
    append_str_bytes(&mut out, "}");
    proof {
        assert(out@ =~= unsigned_canon_bytes(b));
    }
    out
}

fn dup_opt_string(o: &Option<String>) -> (r: Option<String>)
    ensures
        opt_view_eq(r, *o),
{
    match o {
        Some(s) => Some(s.clone()),
        None => None,
    }
}

proof fn lemma_devices_canon_congruent(a: Seq<DeviceEntry>, b: Seq<DeviceEntry>)
    requires
        a.len() == b.len(),
        forall|i: int| 0 <= i < a.len() ==> entry_views_eq(a[i], b[i]),
    ensures
        devices_canon_bytes(a) == devices_canon_bytes(b),
    decreases a.len(),
{
    if a.len() > 0 {
        lemma_devices_canon_congruent(a.drop_last(), b.drop_last());
        assert(entry_views_eq(a.last(), b.last()));
        assert(entry_canon_bytes(a.last()) == entry_canon_bytes(b.last()));
    }
}

impl Baseline {
    /// The same baseline data with the signature cleared.
    #[verifier::rlimit(60)]
    pub fn without_signature(&self) -> (r: Baseline)
        ensures
            r.version == self.version,
            r.created_by@ == self.created_by@,
            r.created_at@ == self.created_at@,
            r.devices@.len() == self.devices@.len(),
            forall|i: int|
                0 <= i < r.devices@.len() ==> entry_views_eq(r.devices@[i], self.devices@[i]),
            r.signature is None,
            unsigned_canon_bytes(&r) == unsigned_canon_bytes(self),
            baseline_canon_bytes(&r) == unsigned_canon_bytes(self),
    {
        let mut devices: Vec<DeviceEntry> = Vec::new();
        let mut i: usize = 0;
        while i < self.devices.len()
            invariant
                i <= self.devices@.len(),
                devices@.len() == i,
                forall|j: int|
                    0 <= j < i ==> entry_views_eq(devices@[j], self.devices@[j]),
            decreases self.devices@.len() - i,
        {
            let d = &self.devices[i];
            let nd = DeviceEntry {
                vendor_id: d.vendor_id.clone(),
                product_id: d.product_id.clone(),
                serial: dup_opt_string(&d.serial),
                bus_path: dup_opt_string(&d.bus_path),
                descriptors_hash: d.descriptors_hash.clone(),
                device_type: d.device_type.clone(),
                comment: dup_opt_string(&d.comment),
            };
            devices.push(nd);
            i = i + 1;
        }
        let r = Baseline {
            version: self.version,
            created_by: self.created_by.clone(),
            created_at: self.created_at.clone(),
            devices,
            signature: None,
        };
        proof {
            lemma_devices_canon_congruent(r.devices@, self.devices@);
            assert(devices_canon_bytes(r.devices@) == devices_canon_bytes(self.devices@));
            assert(unsigned_canon_bytes(&r) =~= unsigned_canon_bytes(self));
            assert(baseline_canon_bytes(&r) =~= unsigned_canon_bytes(self));
        }
        r
    }

    /// Signs the canonical unsigned form and stores the signature:
    /// afterwards the baseline verifies under the signer's public key
    /// (the sign-then-verify law).
    pub fn sign_attach(&mut self, signing_key: &Vec<u8>) -> (r: Result<(), String>)
        requires
            signing_key@.len() == 32,
        ensures
            r is Ok,
            final(self).version == old(self).version,
            final(self).created_by == old(self).created_by,
            final(self).created_at == old(self).created_at,
            final(self).devices == old(self).devices,
            match final(self).signature {
                Some(s) => s@ == b64_of(
                    ed25519_sig_of(signing_key@, unsigned_canon_bytes(old(self))),
                ),
                None => false,
            },
            verify_ok(final(self), ed25519_pub_of(signing_key@)),
    {
        let msg = canonical_unsigned(self);
        let sig = ed25519_sign(signing_key, &msg);
        let s = b64_encode(&sig);
        self.signature = Some(s);
        proof {
            assert(unsigned_canon_bytes(self) == unsigned_canon_bytes(old(self)));
        }
        Ok(())
    }

    /// Whether the stored signature verifies under `verifying_key`:
    /// `Ok(false)` when no signature is attached or it is rejected,
    /// an error when the signature is not base64 of 64 bytes.
    pub fn verify_signature(&self, verifying_key: &Vec<u8>) -> (r: Result<bool, String>)
        requires
            verifying_key@.len() == 32,
        ensures
            match self.signature {
                None => r == Ok::<bool, String>(false),
                Some(s) => match b64_decoded(s@) {
                    None => r is Err,
                    Some(d) => {
                        &&& d.len() == 64 ==> r == Ok::<bool, String>(
                            ed25519_accepts(verifying_key@, unsigned_canon_bytes(self), d),
                        )
                        &&& d.len() != 64 ==> r is Err
                    },
                },
            },
            (r == Ok::<bool, String>(true)) <==> verify_ok(self, verifying_key@),
    {
        match &self.signature {
            None => Ok(false),
            Some(s) => match b64_decode(s.as_str()) {
                None => Err(String::from_str("signature is not valid base64")),
                Some(d) => {
                    if d.len() != 64 {
                        Err(String::from_str("signature has the wrong length"))
                    } else {
                        let msg = canonical_unsigned(self);
                        Ok(ed25519_verify(verifying_key, &msg, &d))
                    }
                },
            },
        }
    }
}

} // verus!
