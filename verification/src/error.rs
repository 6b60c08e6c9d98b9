//! The errors that the enclave logic reports to its caller.

use vstd::prelude::*;

verus! {

/// Why a raw output could not be brought into its normalized form.
#[derive(Clone, Copy, Debug, PartialEq, Eq, Structural)]
pub enum FogTxOutError {
    /// The output carries no masked amount.
    MissingMaskedAmount,
}

/// Why an unsealed blob could not become the ingress key.
#[derive(Clone, Copy, Debug, PartialEq, Eq, Structural)]
pub enum SealedKeyError {
    /// The sealing primitive refused the blob.
    Unseal,
    /// The unsealed bytes are not a private key.
    InvalidKey,
}

/// An error of an enclave operation.
#[derive(Clone, Copy, Debug, PartialEq, Eq, Structural)]
pub enum Error {
    /// A chunk holds a malformed output; nothing of the chunk was processed.
    InvalidBlockData(FogTxOutError),
    /// The counter table overflowed on every attempt: the chunk's size, the
    /// retry bound, and the table's capacity.
    ChunkTooBig(usize, usize, usize),
    /// The peer session is not known to the attested channel.
    UnknownPeerSession,
    /// A sealed ingress key could not be restored.
    Sealing(SealedKeyError),
}

} // verus!
