//! Quiet Ledger: the on-ledger registries of a travel-rule disclosure
//! protocol for Stellar anchors, and the client-side encoding and decoding
//! of their calls.
//!
//! - `attestation_registry`: each anchor's current commitment and history.
//! - `threshold_attestation`: k-of-n co-signer attestations of statements.
//! - `travel_rule_envelope`: write-once hash pointers to off-chain payloads.
//! - `host`: what the ledger host gives an invocation (addresses, hashes,
//!   the ledger sequence, the authorizing addresses).
//! - `store`: the key/value storage the contracts keep their state in.
//! - `scval`, `strkey`, `sdk`: contract values, strkey texts, and the SDK's
//!   argument building and reply decoding.

pub mod host;
pub mod store;
pub mod attestation_registry;
pub mod travel_rule_envelope;
pub mod threshold_attestation;
pub mod scval;
pub mod strkey;
pub mod sdk;
