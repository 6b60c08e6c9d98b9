//! The inside-the-enclave logic of a transaction-scanning service: the state
//! that owns the ingress and egress keys, the bounded per-user counter
//! table, chunk preparation and the ingest rounds with their rotation rule.
//!
//! Elliptic-curve work, sealing and the attested channel are done by the
//! caller; this library decides and keeps state, on plain bytes.

pub mod build_info;
pub mod bytes;
pub mod enclave;
pub mod error;
pub mod ingest;
pub mod oram;
pub mod prepared;
pub mod rng_store;
