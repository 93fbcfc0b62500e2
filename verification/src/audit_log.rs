//! The append-only audit logger.
//!
//! The logger holds the hash of the last entry it produced and, in ghost
//! state, the whole chain so far. Every chain it produces is valid: see
//! [`AuditLogger::lemma_chain_verifies`]. Writing the returned line to the
//! log file is the caller's business; a failed write does not fork the
//! chain, because the logger's state advances regardless.

use vstd::prelude::*;
use crate::audit::{
    AuditEntry, AuditEntryPayload, entry_hash_of, entry_bytes, entry_ok, prev_of, chain_valid,
    entry_json,
};
use crate::clock::utc_now_rfc3339;

verus! {

/// Produces hash-chained audit entries, one JSON line each.
pub struct AuditLogger {
    last_hash: Option<String>,
    history: Ghost<Seq<AuditEntry>>,
}

impl AuditLogger {
    /// The chain of entries produced so far.
    pub closed spec fn chain(&self) -> Seq<AuditEntry> {
        self.history@
    }

    /// The logger's hash state matches its chain, and the chain is valid.
    pub closed spec fn wf(&self) -> bool {
        &&& chain_valid(self.history@)
        &&& (match self.last_hash {
            None => self.history@.len() == 0,
            Some(h) => self.history@.len() > 0 && h@ == self.history@.last().entry_hash@,
        })
    }

    /// A fresh logger with an empty chain.
    pub fn new() -> (r: AuditLogger)
        ensures
            r.wf(),
            r.chain().len() == 0,
    {
        AuditLogger { last_hash: None, history: Ghost(Seq::empty()) }
    }

    /// Appends one event to the chain and returns its JSON line (without
    /// the trailing newline). The timestamp is the current time, so only
    /// the other payload fields are pinned down.
    pub fn log(
        &mut self,
        event_type: &str,
        device_fingerprint: Option<String>,
        action: &str,
        requester_uid: Option<u32>,
    ) -> (line: Vec<u8>)
        requires
            old(self).wf(),
        ensures
            final(self).wf(),
            final(self).chain().len() == old(self).chain().len() + 1,
            final(self).chain().drop_last() == old(self).chain(),
            final(self).chain().last().payload.event_type@ == event_type@,
            final(self).chain().last().payload.action@ == action@,
            final(self).chain().last().payload.device_fingerprint == device_fingerprint,
            final(self).chain().last().payload.requester_uid == requester_uid,
            line@ == entry_bytes(&final(self).chain().last()),
    {
        let timestamp = utc_now_rfc3339();
        let payload = AuditEntryPayload {
            timestamp,
            event_type: event_type.to_owned(),
            device_fingerprint,
            action: action.to_owned(),
            requester_uid,
        };
        let prev = match &self.last_hash {
            Some(h) => Some(h.clone()),
            None => None,
        };
        let entry = AuditEntry::new(prev, payload);
        self.last_hash = Some(entry.entry_hash.clone());
        let line = entry_json(&entry);
        proof {
            let oldc = self.history@;
            let newc = oldc.push(entry);
            assert(newc.drop_last() =~= oldc);
            assert forall|i: int| 0 <= i < newc.len() implies entry_ok(newc, i) by {
                if i < oldc.len() {
                    assert(entry_ok(oldc, i));
                    assert(newc[i] == oldc[i]);
                    if i > 0 {
                        assert(newc[i - 1] == oldc[i - 1]);
                    }
                    assert(prev_of(newc, i) == prev_of(oldc, i));
                } else {
                    assert(newc[i] == entry);
                    if oldc.len() > 0 {
                        assert(newc[i - 1] == oldc.last());
                    }
                }
            }
            self.history@ = newc;
        }
        line
    }

    /// Every chain this logger has produced passes verification: the law
    /// that ties the logger to `verify_chain`.
    pub proof fn lemma_chain_verifies(&self)
        requires
            self.wf(),
        ensures
            chain_valid(self.chain()),
    {
    }
}

} // verus!
