//! The policy daemon's state and request lifecycle.
//!
//! Every operation follows the same skeleton: validate, authorize (for
//! privileged operations; the caller resolves the authority's answer and
//! hands it in), execute, audit, reply. File and process work stays with
//! the caller: operations return what to write and record every decision
//! in the audit chain, whose lines the caller drains with
//! [`DaemonState::take_pending_audit`] and appends to the log file.

use vstd::prelude::*;
use vstd::string::{StrSliceExecFns, StringExecFns};
use vstd::utf8::is_ascii_chars;
use crate::audit::{AuditEntry, entry_bytes, chain_valid};
use crate::audit_log::AuditLogger;
use crate::backend::UsbBackend;
use crate::baseline::{Baseline, DeviceEntry, verify_ok};
use crate::grants::GrantMap;
use crate::keys::{any_verifies, key_file_name, decode_pub_key, sorted_pub_names, ends_with_pub,
    has_pub_ext, sorted_views, views_of};
use crate::b64::b64_decoded;
use crate::strutil::{push_char, str_chars};
use crate::types::{DeviceInfo, PolicyStatus, empty_device};

verus! {

/// A device id the daemon accepts: non-empty ASCII, at most 64 characters.
pub open spec fn valid_device_id(id: Seq<char>) -> bool {
    is_ascii_chars(id) && 0 < id.len() <= 64
}

/// A TTL the daemon accepts: between one second and one day.
pub open spec fn valid_ttl(ttl: u32) -> bool {
    1 <= ttl <= 86400
}

/// The path has a `..` component between separators or at either end.
pub open spec fn is_parent_seg(s: Seq<char>, i: int) -> bool {
    &&& 0 <= i
    &&& i + 2 <= s.len()
    &&& s[i] == '.'
    &&& s[i + 1] == '.'
    &&& (i == 0 || s[i - 1] == '/')
    &&& (i + 2 == s.len() || s[i + 2] == '/')
}

/// The path names a parent directory somewhere.
pub open spec fn has_parent_component(s: Seq<char>) -> bool {
    exists|i: int| is_parent_seg(s, i)
}

/// Whether the path holds a `..` component.
pub fn path_has_parent_component(path: &str) -> (r: bool)
    ensures
        r == has_parent_component(path@),
{
    let chars = str_chars(path);
    let n = chars.len();
    let mut i: usize = 0;
    while i < n
        invariant
            i <= n,
            n == chars@.len(),
            chars@ == path@,
            forall|j: int| j < i ==> !is_parent_seg(path@, j),
        decreases n - i,
    {
        if n >= 2 && i <= n - 2 && chars[i] == '.' && chars[i + 1] == '.' && (i == 0 || chars[i
            - 1] == '/') && (i + 2 == n || chars[i + 2] == '/') {
            proof {
                assert(is_parent_seg(path@, i as int));
            }
            return true;
        }
        proof {
            assert forall|j: int| j <= i implies !is_parent_seg(path@, j) by {
                if j < i {
                } else {
                    assert(j == i);
                }
            }
        }
        i = i + 1;
    }
    proof {
        assert forall|j: int| !is_parent_seg(path@, j) by {
            if j >= n {
            } else {
                assert(j < i);
            }
        }
    }
    false
}

/// The chain grew by one entry with the given payload fields.
pub open spec fn logged1(
    oldc: Seq<AuditEntry>,
    newc: Seq<AuditEntry>,
    et: Seq<char>,
    fp: Option<Seq<char>>,
    act: Seq<char>,
    uid: Option<u32>,
) -> bool {
    &&& newc.len() == oldc.len() + 1
    &&& newc.drop_last() == oldc
    &&& newc.last().payload.event_type@ == et
    &&& newc.last().payload.action@ == act
    &&& (match (newc.last().payload.device_fingerprint, fp) {
        (Some(a), Some(b)) => a@ == b,
        (None, None) => true,
        _ => false,
    })
    &&& newc.last().payload.requester_uid == uid
}

/// The pending lines grew exactly by the JSON of the entries the chain
/// grew by.
pub open spec fn lines_follow_chain(
    oldp: Seq<Seq<u8>>,
    newp: Seq<Seq<u8>>,
    oldc: Seq<AuditEntry>,
    newc: Seq<AuditEntry>,
) -> bool {
    &&& oldc.len() <= newc.len()
    &&& newc.take(oldc.len() as int) == oldc
    &&& newp.len() - oldp.len() == newc.len() - oldc.len()
    &&& newp.take(oldp.len() as int) == oldp
    &&& forall|k: int|
        oldp.len() <= k < newp.len() ==> #[trigger] newp[k] == entry_bytes(
            &newc[oldc.len() + k - oldp.len()],
        )
}

/// What a verified baseline application still has to do on disk: archive
/// the received bytes under the timestamped name, then install the rules.
pub struct ApplyPlan {
    pub archive_name: String,
    pub archive_bytes: Vec<u8>,
    pub rules_text: String,
}

/// The daemon's whole mutable state, plus its fixed paths.
pub struct DaemonState<B: UsbBackend> {
    deny_unknown: bool,
    ephemeral: GrantMap,
    audit: AuditLogger,
    pending: Vec<Vec<u8>>,
    /// The engine adapter.
    pub backend: B,
    /// Where applied baselines are archived.
    pub baselines_dir: String,
    /// Where trusted public keys live.
    pub trusted_pubkeys_dir: String,
    /// Where the audit log is written.
    pub audit_path: String,
}

impl<B: UsbBackend> DaemonState<B> {
    /// The ephemeral grants: device id to expiry, in seconds.
    pub closed spec fn grants(&self) -> Map<Seq<char>, u64> {
        self.ephemeral.view()
    }

    /// How many ephemeral grants are held.
    pub closed spec fn grant_count(&self) -> nat {
        self.ephemeral.count()
    }

    /// The audit chain produced so far.
    pub closed spec fn chain(&self) -> Seq<AuditEntry> {
        self.audit.chain()
    }

    /// The audit lines not yet written to disk.
    pub closed spec fn pending_lines(&self) -> Seq<Seq<u8>> {
        self.pending@.map_values(|v: Vec<u8>| v@)
    }

    /// Whether unknown devices are denied.
    pub closed spec fn denies_unknown(&self) -> bool {
        self.deny_unknown
    }

    /// Where the audit log will be written.
    pub closed spec fn audit_path_view(&self) -> Seq<char> {
        self.audit_path@
    }

    pub closed spec fn wf(&self) -> bool {
        self.ephemeral.wf() && self.audit.wf()
    }

    /// Every chain this daemon produces is valid.
    pub proof fn lemma_audit_chain_valid(&self)
        requires
            self.wf(),
        ensures
            chain_valid(self.chain()),
    {
        self.audit.lemma_chain_verifies();
    }

    /// A fresh daemon over `backend`, with the standard paths.
    pub fn new(backend: B) -> (r: DaemonState<B>)
        ensures
            r.wf(),
            r.denies_unknown(),
            r.grant_count() == 0,
            r.grants() == Map::<Seq<char>, u64>::empty(),
            r.chain().len() == 0,
            r.pending_lines().len() == 0,
    {
        Self::new_with_audit_path(backend, String::from_str("/var/log/lusby/audit.log"))
    }

    /// A fresh daemon over `backend` that will log to `audit_path`.
    pub fn new_with_audit_path(backend: B, audit_path: String) -> (r: DaemonState<B>)
        ensures
            r.wf(),
            r.denies_unknown(),
            r.grant_count() == 0,
            r.grants() == Map::<Seq<char>, u64>::empty(),
            r.chain().len() == 0,
            r.pending_lines().len() == 0,
            r.audit_path_view() == audit_path@,
    {
        let r = DaemonState {
            deny_unknown: true,
            ephemeral: GrantMap::new(),
            audit: AuditLogger::new(),
            pending: Vec::new(),
            backend,
            baselines_dir: String::from_str("/etc/lusby/baselines"),
            trusted_pubkeys_dir: String::from_str("/etc/lusby/trusted_pubkeys"),
            audit_path,
        };
        proof {
            assert(r.pending_lines() =~= Seq::<Seq<u8>>::empty());
        }
        r
    }

    /// Appends one audit entry and queues its line for the log file.
    fn note(
        &mut self,
        event_type: &str,
        device_fingerprint: Option<String>,
        action: &str,
        requester_uid: Option<u32>,
    )
        requires
            old(self).wf(),
        ensures
            final(self).wf(),
            final(self).denies_unknown() == old(self).denies_unknown(),
            final(self).grants() == old(self).grants(),
            final(self).grant_count() == old(self).grant_count(),
            final(self).chain().len() == old(self).chain().len() + 1,
            final(self).chain().drop_last() == old(self).chain(),
            final(self).chain().last().payload.event_type@ == event_type@,
            final(self).chain().last().payload.action@ == action@,
            final(self).chain().last().payload.device_fingerprint == device_fingerprint,
            final(self).chain().last().payload.requester_uid == requester_uid,
            lines_follow_chain(
                old(self).pending_lines(),
                final(self).pending_lines(),
                old(self).chain(),
                final(self).chain(),
            ),
    {
        let line = self.audit.log(event_type, device_fingerprint, action, requester_uid);
        let ghost oldp = self.pending_lines();
        self.pending.push(line);
        proof {
            assert(self.pending_lines() =~= oldp.push(self.pending@.last()@));
            assert(self.pending_lines().take(oldp.len() as int) =~= oldp);
            assert(self.chain().take(old(self).chain().len() as int) =~= old(self).chain());
        }
    }

    /// Hands over the audit lines that still need writing; the queue is
    /// empty afterwards. State and chain are untouched.
    pub fn take_pending_audit(&mut self) -> (r: Vec<Vec<u8>>)
        requires
            old(self).wf(),
        ensures
            final(self).wf(),
            final(self).denies_unknown() == old(self).denies_unknown(),
            final(self).grants() == old(self).grants(),
            final(self).chain() == old(self).chain(),
            final(self).pending_lines().len() == 0,
            r@.map_values(|v: Vec<u8>| v@) == old(self).pending_lines(),
    {
        let mut out: Vec<Vec<u8>> = Vec::new();
        core::mem::swap(&mut self.pending, &mut out);
        proof {
            assert(self.pending_lines() =~= Seq::<Seq<u8>>::empty());
        }
        out
    }

    /// The standing policy.
    pub fn get_policy_status(&self) -> (r: PolicyStatus)
        ensures
            r.deny_unknown == self.denies_unknown(),
    {
        PolicyStatus { deny_unknown: self.deny_unknown }
    }

    /// The standing policy, as text.
    pub fn get_policy_status_string(&self) -> (r: String)
        ensures
            self.denies_unknown() ==> r@ == "deny_unknown=true"@,
            !self.denies_unknown() ==> r@ == "deny_unknown=false"@,
    {
        if self.deny_unknown {
            String::from_str("deny_unknown=true")
        } else {
            String::from_str("deny_unknown=false")
        }
    }

    /// Every device the engine reports.
    pub fn list_devices(&self) -> Vec<DeviceInfo> {
        self.backend.list_devices()
    }

    /// The engine's record of one device; every field empty when the
    /// engine does not know the id.
    pub fn get_device_info(&self, device_id: &str) -> DeviceInfo {
        match self.backend.get_device(device_id) {
            Some(d) => d,
            None => empty_device(),
        }
    }

    /// How many ephemeral grants are held.
    pub fn ephemeral_count(&self) -> (r: usize)
        ensures
            r == self.grant_count(),
    {
        self.ephemeral.len()
    }

    /// The expiry recorded for an ephemeral grant, when one is held.
    pub fn grant_expiry(&self, device_id: &str) -> (r: Option<u64>)
        requires
            self.wf(),
        ensures
            match r {
                Some(v) => self.grants().contains_key(device_id@) && self.grants()[device_id@]
                    == v,
                None => !self.grants().contains_key(device_id@),
            },
    {
        self.ephemeral.get(device_id)
    }

    fn validate_id(device_id: &str) -> (r: bool)
        ensures
            r == valid_device_id(device_id@),
    {
        let ascii = device_id.is_ascii();
        let n = device_id.unicode_len();
        ascii && n > 0 && n <= 64
    }

    /// Grants a device temporary authorization: on valid arguments the
    /// engine is asked, and on its success the grant is recorded to
    /// expire `ttl` seconds from `now_secs`. Every outcome is audited.
    pub fn request_ephemeral_allow(
        &mut self,
        device_id: &str,
        ttl: u32,
        requester_uid: u32,
        now_secs: u64,
    ) -> (r: bool)
        requires
            old(self).wf(),
            now_secs <= u64::MAX - 86400,
        ensures
            final(self).wf(),
            final(self).denies_unknown() == old(self).denies_unknown(),
            lines_follow_chain(
                old(self).pending_lines(),
                final(self).pending_lines(),
                old(self).chain(),
                final(self).chain(),
            ),
            !(valid_device_id(device_id@) && valid_ttl(ttl) && requester_uid > 0) ==> {
                &&& r == false
                &&& final(self).grants() == old(self).grants()
                &&& logged1(
                    old(self).chain(),
                    final(self).chain(),
                    "ephemeral_allow_reject"@,
                    Some(device_id@),
                    "invalid_input"@,
                    Some(requester_uid),
                )
            },
            (valid_device_id(device_id@) && valid_ttl(ttl) && requester_uid > 0) ==> {
                &&& logged1(
                    old(self).chain(),
                    final(self).chain(),
                    "ephemeral_allow"@,
                    Some(device_id@),
                    if r {
                        "allow_ok"@
                    } else {
                        "allow_fail"@
                    },
                    Some(requester_uid),
                )
                &&& r ==> final(self).grants() == old(self).grants().insert(
                    device_id@,
                    (now_secs + ttl) as u64,
                )
                &&& r ==> final(self).grants()[device_id@] == now_secs + ttl
                &&& !r ==> final(self).grants() == old(self).grants()
            },
    {
        let valid_id = Self::validate_id(device_id);
        let valid_ttl_v = 1 <= ttl && ttl <= 86400;
        let valid_uid = requester_uid > 0;
        if !valid_id || !valid_ttl_v || !valid_uid {
            self.note(
                "ephemeral_allow_reject",
                Some(device_id.to_owned()),
                "invalid_input",
                Some(requester_uid),
            );
            return false;
        }
        let ok = self.backend.allow_ephemeral(device_id, ttl);
        self.note(
            "ephemeral_allow",
            Some(device_id.to_owned()),
            if ok {
                "allow_ok"
            } else {
                "allow_fail"
            },
            Some(requester_uid),
        );
        if ok {
            let expiry = now_secs + (ttl as u64);
            self.ephemeral.insert(device_id, expiry);
        }
        ok
    }

    /// Revokes a device: on a valid id the engine is asked and any
    /// ephemeral grant for the id is dropped. Every outcome is audited.
    pub fn revoke_device(&mut self, device_id: &str) -> (r: bool)
        requires
            old(self).wf(),
        ensures
            final(self).wf(),
            final(self).denies_unknown() == old(self).denies_unknown(),
            lines_follow_chain(
                old(self).pending_lines(),
                final(self).pending_lines(),
                old(self).chain(),
                final(self).chain(),
            ),
            !valid_device_id(device_id@) ==> {
                &&& r == false
                &&& final(self).grants() == old(self).grants()
                &&& logged1(
                    old(self).chain(),
                    final(self).chain(),
                    "revoke_reject"@,
                    Some(device_id@),
                    "invalid_input"@,
                    None,
                )
            },
            valid_device_id(device_id@) ==> {
                &&& final(self).grants() == old(self).grants().remove(device_id@)
                &&& logged1(
                    old(self).chain(),
                    final(self).chain(),
                    "revoke"@,
                    Some(device_id@),
                    if r {
                        "revoke_ok"@
                    } else {
                        "revoke_fail"@
                    },
                    None,
                )
            },
    {
        if !Self::validate_id(device_id) {
            self.note("revoke_reject", Some(device_id.to_owned()), "invalid_input", None);
            return false;
        }
        let ok = self.backend.revoke(device_id);
        self.ephemeral.remove(device_id);
        self.note(
            "revoke",
            Some(device_id.to_owned()),
            if ok {
                "revoke_ok"
            } else {
                "revoke_fail"
            },
            None,
        );
        ok
    }

    /// Revokes every ephemeral grant: the engine is asked for each id,
    /// each revocation is audited, and the table is cleared. All
    /// revocations are attempted even if some fail.
    pub fn revoke_all_ephemeral(&mut self)
        requires
            old(self).wf(),
        ensures
            final(self).wf(),
            final(self).denies_unknown() == old(self).denies_unknown(),
            final(self).grants() == Map::<Seq<char>, u64>::empty(),
            final(self).grant_count() == 0,
            final(self).chain().len() == old(self).chain().len() + old(self).grant_count(),
            lines_follow_chain(
                old(self).pending_lines(),
                final(self).pending_lines(),
                old(self).chain(),
                final(self).chain(),
            ),
            forall|t: int|
                old(self).chain().len() <= t < final(self).chain().len() ==> {
                    &&& (#[trigger] final(self).chain()[t]).payload.event_type@ == "auto_revoke"@
                    &&& final(self).chain()[t].payload.action@ == "revoke_on_lock_or_sleep"@
                    &&& final(self).chain()[t].payload.requester_uid is None
                    &&& match final(self).chain()[t].payload.device_fingerprint {
                        Some(f) => old(self).grants().contains_key(f@),
                        None => false,
                    }
                },
    {
        let ids = self.ephemeral.ids();
        proof {
            assert(self.chain().take(self.chain().len() as int) =~= self.chain());
            assert(self.pending_lines().take(self.pending_lines().len() as int)
                =~= self.pending_lines());
        }
        let mut i: usize = 0;
        while i < ids.len()
            invariant
                i <= ids@.len(),
                self.wf(),
                self.denies_unknown() == old(self).denies_unknown(),
                self.grants() == old(self).grants(),
                self.grant_count() == old(self).grant_count(),
                ids@.len() == old(self).grant_count(),
                forall|j: int|
                    0 <= j < ids@.len() ==> old(self).grants().contains_key(
                        (#[trigger] ids@[j])@,
                    ),
                self.chain().len() == old(self).chain().len() + i,
                lines_follow_chain(
                    old(self).pending_lines(),
                    self.pending_lines(),
                    old(self).chain(),
                    self.chain(),
                ),
                forall|t: int|
                    old(self).chain().len() <= t < self.chain().len() ==> {
                        &&& (#[trigger] self.chain()[t]).payload.event_type@ == "auto_revoke"@
                        &&& self.chain()[t].payload.action@ == "revoke_on_lock_or_sleep"@
                        &&& self.chain()[t].payload.requester_uid is None
                        &&& match self.chain()[t].payload.device_fingerprint {
                            Some(f) => old(self).grants().contains_key(f@),
                            None => false,
                        }
                    },
            decreases ids@.len() - i,
        {
            let ghost prevc = self.chain();
            let ghost prevp = self.pending_lines();
            let id = ids[i].clone();
            let _ = self.backend.revoke(id.as_str());
            self.note("auto_revoke", Some(id), "revoke_on_lock_or_sleep", None);
            proof {
                assert(self.chain().drop_last() == prevc);
                assert forall|t: int|
                    old(self).chain().len() <= t < self.chain().len() implies {
                    &&& (#[trigger] self.chain()[t]).payload.event_type@ == "auto_revoke"@
                    &&& self.chain()[t].payload.action@ == "revoke_on_lock_or_sleep"@
                    &&& self.chain()[t].payload.requester_uid is None
                    &&& match self.chain()[t].payload.device_fingerprint {
                        Some(f) => old(self).grants().contains_key(f@),
                        None => false,
                    }
                } by {
                    if t < self.chain().len() - 1 {
                        assert(self.chain()[t] == prevc[t]);
                    } else {
                        assert(self.chain()[t] == self.chain().last());
                        assert((ids@[i as int])@ == ids@[i as int]@);
                    }
                }
                assert(lines_follow_chain(
                    old(self).pending_lines(),
                    self.pending_lines(),
                    old(self).chain(),
                    self.chain(),
                )) by {
                    assert(self.chain().take(old(self).chain().len() as int) =~= prevc.take(
                        old(self).chain().len() as int,
                    ));
                    assert(self.pending_lines().take(old(self).pending_lines().len() as int)
                        =~= prevp.take(old(self).pending_lines().len() as int));
                    assert forall|k: int|
                        old(self).pending_lines().len() <= k < self.pending_lines().len() implies
                        #[trigger] self.pending_lines()[k] == entry_bytes(
                        &self.chain()[old(self).chain().len() + k - old(self).pending_lines().len()],
                    ) by {
                        if k < self.pending_lines().len() - 1 {
                            assert(self.pending_lines()[k] == prevp[k]);
                            let c = old(self).chain().len() + k - old(self).pending_lines().len();
                            assert(self.chain()[c] == prevc[c]);
                        }
                    }
                }
            }
            i = i + 1;
        }
        self.ephemeral.clear();
    }

    /// Starts a baseline application: the caller's authorization answer
    /// and the path are checked, refusals are audited, and only a `true`
    /// result allows the caller to read the file at all.
    pub fn apply_persistent_begin(&mut self, baseline_path: &str, authorized: bool) -> (r: bool)
        requires
            old(self).wf(),
        ensures
            final(self).wf(),
            final(self).denies_unknown() == old(self).denies_unknown(),
            final(self).grants() == old(self).grants(),
            lines_follow_chain(
                old(self).pending_lines(),
                final(self).pending_lines(),
                old(self).chain(),
                final(self).chain(),
            ),
            r == (authorized && !has_parent_component(baseline_path@)),
            !authorized ==> logged1(
                old(self).chain(),
                final(self).chain(),
                "policy_denied"@,
                None,
                "polkit_denied"@,
                None,
            ),
            authorized && has_parent_component(baseline_path@) ==> logged1(
                old(self).chain(),
                final(self).chain(),
                "security"@,
                None,
                "baseline_path_traversal_attempt"@,
                None,
            ),
            authorized && !has_parent_component(baseline_path@) ==> final(self).chain() == old(
                self,
            ).chain() && final(self).pending_lines() == old(self).pending_lines(),
    {
        if !authorized {
            self.note("policy_denied", None, "polkit_denied", None);
            return false;
        }
        if path_has_parent_component(baseline_path) {
            self.note("security", None, "baseline_path_traversal_attempt", None);
            return false;
        }
        proof {
            assert(self.chain().take(self.chain().len() as int) =~= self.chain());
            assert(self.pending_lines().take(self.pending_lines().len() as int)
                =~= self.pending_lines());
        }
        true
    }

    /// Records a security failure the caller hit while executing an
    /// operation (an unreadable baseline, an unwritable directory).
    pub fn audit_security(&mut self, action: &str)
        requires
            old(self).wf(),
        ensures
            final(self).wf(),
            final(self).denies_unknown() == old(self).denies_unknown(),
            final(self).grants() == old(self).grants(),
            lines_follow_chain(
                old(self).pending_lines(),
                final(self).pending_lines(),
                old(self).chain(),
                final(self).chain(),
            ),
            logged1(old(self).chain(), final(self).chain(), "security"@, None, action@, None),
    {
        self.note("security", None, action, None);
    }

    /// Checks a parsed baseline against the trusted keys and, when one
    /// of them verifies it, plans the disk work: archive the exact
    /// received bytes under a timestamped name, then install the
    /// deterministically generated rules.
    pub fn apply_verify_and_plan(
        &self,
        baseline: &Baseline,
        trusted_keys: &Vec<Vec<u8>>,
        data: &Vec<u8>,
        now_compact: &str,
    ) -> (r: Option<ApplyPlan>)
        ensures
            (r is Some) == exists|i: int|
                0 <= i < trusted_keys@.len() && (#[trigger] trusted_keys@[i])@.len() == 32
                    && verify_ok(baseline, trusted_keys@[i]@),
            match r {
                Some(p) => {
                    &&& p.archive_name@ == "baseline_"@ + now_compact@ + ".json"@
                    &&& p.archive_bytes@ == data@
                    &&& p.rules_text@ == rules_text_of(baseline)
                },
                None => true,
            },
    {
        if !any_verifies(baseline, trusted_keys) {
            return None;
        }
        let mut archive_name = String::from_str("baseline_");
        archive_name.append(now_compact);
        archive_name.append(".json");
        let mut archive_bytes: Vec<u8> = Vec::new();
        let mut dv = data.clone();
        archive_bytes.append(&mut dv);
        let rules_text = generate_rules_from_baseline(baseline);
        proof {
            assert(archive_bytes@ =~= data@);
        }
        Some(ApplyPlan { archive_name, archive_bytes, rules_text })
    }

    /// Records whether archiving the baseline succeeded, and passes the
    /// verdict through as the operation's reply.
    pub fn apply_record_result(&mut self, ok: bool) -> (r: bool)
        requires
            old(self).wf(),
        ensures
            final(self).wf(),
            final(self).denies_unknown() == old(self).denies_unknown(),
            final(self).grants() == old(self).grants(),
            lines_follow_chain(
                old(self).pending_lines(),
                final(self).pending_lines(),
                old(self).chain(),
                final(self).chain(),
            ),
            logged1(
                old(self).chain(),
                final(self).chain(),
                "persistent_allow"@,
                None,
                if ok {
                    "baseline_applied"@
                } else {
                    "baseline_apply_failed"@
                },
                None,
            ),
            r == ok,
    {
        self.note(
            "persistent_allow",
            None,
            if ok {
                "baseline_applied"
            } else {
                "baseline_apply_failed"
            },
            None,
        );
        ok
    }

    /// The stored key names, sorted; empty for an unauthorized caller.
    /// `names` is the directory listing the caller took.
    pub fn list_trusted_pubkeys(&self, names: &Vec<String>, authorized: bool) -> (r: Vec<String>)
        ensures
            !authorized ==> r@.len() == 0,
            authorized ==> sorted_views(views_of(r@)) && views_of(r@).to_multiset() == views_of(
                names@,
            ).filter(|v: Seq<char>| has_pub_ext(v)).to_multiset(),
    {
        if !authorized {
            return Vec::new();
        }
        sorted_pub_names(names)
    }

    /// What adding a trusted key would write: the file name and the raw
    /// 32 bytes; nothing for an unauthorized caller or a key that is not
    /// base64 of exactly 32 bytes. The caller must create the file
    /// exclusively, so an existing key is never overwritten.
    pub fn add_trusted_pubkey(&self, name: &str, key_b64: &str, authorized: bool) -> (r: Option<
        (String, Vec<u8>),
    >)
        ensures
            !authorized ==> r is None,
            authorized ==> match b64_decoded(key_b64@) {
                Some(d) => {
                    &&& d.len() == 32 ==> (r matches Some((f, v)) && v@ == d && f@ == (
                    if ends_with_pub(name@) {
                        name@
                    } else {
                        name@ + ".pub"@
                    }))
                    &&& d.len() != 32 ==> r is None
                },
                None => r is None,
            },
    {
        if !authorized {
            return None;
        }
        match decode_pub_key(key_b64) {
            Some(bytes) => Some((key_file_name(name), bytes)),
            None => None,
        }
    }

    /// The file name removing a trusted key unlinks; nothing for an
    /// unauthorized caller.
    pub fn remove_trusted_pubkey(&self, name: &str, authorized: bool) -> (r: Option<String>)
        ensures
            !authorized ==> r is None,
            authorized ==> (r matches Some(f) && f@ == (if ends_with_pub(name@) {
                name@
            } else {
                name@ + ".pub"@
            })),
    {
        if !authorized {
            return None;
        }
        Some(key_file_name(name))
    }
}

/// `0x` prefixes stripped, repeatedly, as the rule generator does.
pub open spec fn strip0x(v: Seq<char>) -> Seq<char>
    decreases v.len(),
{
    if v.len() >= 2 && v[0] == '0' && v[1] == 'x' {
        strip0x(v.skip(2))
    } else {
        v
    }
}

/// ASCII uppercase letters lowered; other characters unchanged.
pub open spec fn lower_char(c: char) -> char {
    if 'A' <= c && c <= 'Z' {
        ((c as u8) + 32) as char
    } else {
        c
    }
}

pub open spec fn ascii_lower(v: Seq<char>) -> Seq<char> {
    Seq::new(v.len(), |i: int| lower_char(v[i]))
}

/// Double quotes escaped with a backslash, as rule serials are written.
pub open spec fn esc_quotes(v: Seq<char>) -> Seq<char>
    decreases v.len(),
{
    if v.len() == 0 {
        Seq::empty()
    } else {
        esc_quotes(v.drop_last()) + (if v.last() == '"' {
            seq!['\\', '"']
        } else {
            seq![v.last()]
        })
    }
}

/// One rule line for one baseline entry.
pub open spec fn rule_line_of(d: DeviceEntry) -> Seq<char> {
    "allow id "@ + ascii_lower(strip0x(d.vendor_id@)) + ":"@ + ascii_lower(strip0x(d.product_id@))
        + (match d.serial {
        Some(s) => " serial \""@ + esc_quotes(s@) + "\""@,
        None => Seq::empty(),
    }) + "\n"@
}

/// The rule lines for a device list, in order.
pub open spec fn rules_lines_of(s: Seq<DeviceEntry>) -> Seq<char>
    decreases s.len(),
{
    if s.len() == 0 {
        Seq::empty()
    } else {
        rules_lines_of(s.drop_last()) + rule_line_of(s.last())
    }
}

/// The whole rule file for a baseline: its devices' lines, in order.
pub open spec fn rules_text_of(b: &Baseline) -> Seq<char> {
    rules_lines_of(b.devices@)
}

/// Appends the id, lowercased with `0x` prefixes stripped.
fn append_lower_stripped(out: &mut String, s: &str)
    ensures
        final(out)@ == old(out)@ + ascii_lower(strip0x(s@)),
{
    let chars = str_chars(s);
    let n = chars.len();
    proof {
        assert(s@.skip(0) =~= s@);
    }
    let mut idx: usize = 0;
    while n >= 2 && idx <= n - 2 && chars[idx] == '0' && chars[idx + 1] == 'x'
        invariant
            idx <= n,
            n == chars@.len(),
            chars@ == s@,
            strip0x(s@) == strip0x(s@.skip(idx as int)),
        decreases n - idx,
    {
        proof {
            assert(s@.skip(idx as int).len() >= 2);
            assert(s@.skip(idx as int)[0] == '0');
            assert(s@.skip(idx as int)[1] == 'x');
            assert(s@.skip(idx as int).skip(2) =~= s@.skip(idx as int + 2));
        }
        idx = idx + 2;
    }
    proof {
        assert(strip0x(s@.skip(idx as int)) == s@.skip(idx as int)) by {
            if s@.skip(idx as int).len() >= 2 && s@.skip(idx as int)[0] == '0' && s@.skip(
                idx as int,
            )[1] == 'x' {
                assert(n >= 2 && idx <= n - 2);
                assert(chars@[idx as int] == '0');
                assert(chars@[idx as int + 1] == 'x');
            }
        }
    }
    let ghost base = out@;
    let ghost tail = s@.skip(idx as int);
    proof {
        assert(base + ascii_lower(tail).take(0) =~= base);
    }
    let mut k: usize = idx;
    while k < n
        invariant
            idx <= k <= n,
            n == chars@.len(),
            chars@ == s@,
            tail == s@.skip(idx as int),
            out@ == base + ascii_lower(tail).take(k - idx),
        decreases n - k,
    {
        let c = chars[k];
        let lc = if 'A' <= c && c <= 'Z' {
            (((c as u8) + 32)) as char
        } else {
            c
        };
        push_char(out, lc);
        proof {
            assert(tail[k - idx] == s@[k as int]);
            assert(lc == lower_char(tail[k - idx]));
            assert(out@ =~= base + ascii_lower(tail).take(k - idx + 1));
        }
        k = k + 1;
    }
    proof {
        assert(ascii_lower(tail).take(n - idx) =~= ascii_lower(tail));
    }
}

/// Appends the serial with double quotes escaped.
fn append_escaped(out: &mut String, s: &str)
    ensures
        final(out)@ == old(out)@ + esc_quotes(s@),
{
    let chars = str_chars(s);
    let mut k: usize = 0;
    while k < chars.len()
        invariant
            k <= chars@.len(),
            chars@ == s@,
            out@ == old(out)@ + esc_quotes(s@.take(k as int)),
        decreases chars@.len() - k,
    {
        let c = chars[k];
        if c == '"' {
            push_char(out, '\\');
            push_char(out, '"');
        } else {
            push_char(out, c);
        }
        proof {
            assert(s@.take(k as int + 1).drop_last() =~= s@.take(k as int));
            assert(out@ =~= old(out)@ + esc_quotes(s@.take(k as int + 1)));
        }
        k = k + 1;
    }
    proof {
        assert(s@.take(s@.len() as int) =~= s@);
    }
}

/// The rule file content for a baseline: one `allow id <vid>:<pid>` line
/// per device, with the serial quoted when present, in device order.
pub fn generate_rules_from_baseline(b: &Baseline) -> (r: String)
    ensures
        r@ == rules_text_of(b),
{
    let mut out = String::new();
    let mut i: usize = 0;
    while i < b.devices.len()
        invariant
            i <= b.devices@.len(),
            out@ == rules_lines_of(b.devices@.take(i as int)),
        decreases b.devices@.len() - i,
    {
        let d = &b.devices[i];
        let ghost base = out@;
        out.append("allow id ");
        append_lower_stripped(&mut out, d.vendor_id.as_str());
        out.append(":");
        append_lower_stripped(&mut out, d.product_id.as_str());
        match &d.serial {
            Some(s) => {
                out.append(" serial \"");
                append_escaped(&mut out, s.as_str());
                out.append("\"");
            },
            None => {},
        }
        out.append("\n");
        proof {
            assert(out@ =~= base + rule_line_of(b.devices@[i as int]));
            assert(b.devices@.take(i as int + 1).drop_last() =~= b.devices@.take(i as int));
            assert(b.devices@.take(i as int + 1).last() == b.devices@[i as int]);
            assert(out@ =~= rules_lines_of(b.devices@.take(i as int + 1)));
        }
        i = i + 1;
    }
    proof {
        assert(b.devices@.take(b.devices@.len() as int) =~= b.devices@);
    }
    out
}

} // verus!
