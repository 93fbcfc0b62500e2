//! Host-level USB access control: a verified policy core.
//!
//! The crate models the policy daemon's state and decisions, the signed
//! baseline trust chain, the hash-chained audit log, and the device
//! fingerprinting scheme. Calls into outside crates (hashing, signatures,
//! base64, the clock) stand behind small trusted wrappers; everything
//! around them is verified.

pub mod strutil;
pub mod hashing;
pub mod fingerprint;
pub mod json;
pub mod clock;
pub mod audit;
pub mod audit_log;
pub mod b64;
pub mod ed25519;
pub mod baseline;
pub mod crypto;
pub mod keys;
pub mod types;
pub mod backend;
pub mod mock;
pub mod grants;
pub mod daemon;
pub mod usbguard;
pub mod events;
pub mod config;
pub mod cli;
