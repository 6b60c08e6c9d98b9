//! Chunk preparation: every raw output of a chunk is brought into its
//! normalized form before any secret-dependent work starts, so that a
//! malformed output rejects the whole chunk up front.

use crate::bytes::copy_bytes;
use crate::error::{Error, FogTxOutError};
use vstd::prelude::*;

verus! {

/// A raw output as it arrives: the fields that ingest reads or carries.
#[derive(Clone, Debug, PartialEq, Eq)]
pub struct TxOut {
    /// The masked amount, absent in a malformed output.
    pub masked_amount: Option<Vec<u8>>,
    /// The one-time target key.
    pub target_key: Vec<u8>,
    /// The output's public key.
    pub public_key: Vec<u8>,
    /// The encrypted hint that names the recipient to the ingress key.
    pub e_fog_hint: Vec<u8>,
    /// The encrypted memo, if the output has one.
    pub e_memo: Option<Vec<u8>>,
}

/// A normalized output: what is stored for the recipient. It always has a
/// masked amount and no longer carries the hint.
#[derive(Clone, Debug, PartialEq, Eq)]
pub struct FogTxOut {
    pub target_key: Vec<u8>,
    pub public_key: Vec<u8>,
    pub masked_amount: Vec<u8>,
    pub e_memo: Option<Vec<u8>>,
}

/// The bytes of an optional byte string.
pub open spec fn opt_bytes(v: Option<Vec<u8>>) -> Option<Seq<u8>> {
    match v {
        Some(b) => Some(b@),
        None => None,
    }
}

/// `fog` is the normalized form of `raw`.
pub open spec fn normalized_from(fog: FogTxOut, raw: TxOut) -> bool {
    &&& raw.masked_amount.is_some()
    &&& fog.masked_amount@ == raw.masked_amount.unwrap()@
    &&& fog.target_key@ == raw.target_key@
    &&& fog.public_key@ == raw.public_key@
    &&& opt_bytes(fog.e_memo) == opt_bytes(raw.e_memo)
}

impl FogTxOut {
    /// Normalizes one raw output. Fails exactly when the masked amount is
    /// missing.
    pub fn try_from(raw: &TxOut) -> (res: Result<FogTxOut, FogTxOutError>)
        ensures
            res.is_ok() == raw.masked_amount.is_some(),
            res.is_ok() ==> normalized_from(res.unwrap(), *raw),
            res.is_err() ==> res.unwrap_err() == FogTxOutError::MissingMaskedAmount,
    {
        match &raw.masked_amount {
            None => Err(FogTxOutError::MissingMaskedAmount),
            Some(amount) => {
                let e_memo = match &raw.e_memo {
                    Some(memo) => Some(copy_bytes(memo)),
                    None => None,
                };
                Ok(
                    FogTxOut {
                        target_key: copy_bytes(&raw.target_key),
                        public_key: copy_bytes(&raw.public_key),
                        masked_amount: copy_bytes(amount),
                        e_memo,
                    },
                )
            },
        }
    }
}

/// A chunk of raw outputs of one block, as handed to the enclave.
#[derive(Clone, Debug, PartialEq, Eq)]
pub struct TxsForIngest {
    /// The index of the block that the outputs appeared in.
    pub block_index: u64,
    /// The number of outputs in the chain before this chunk.
    pub global_txo_index: u64,
    /// The outputs, in chain order.
    pub redacted_txs: Vec<TxOut>,
    /// The block's timestamp.
    pub timestamp: u64,
}

impl TxsForIngest {
    /// Every output of the chunk carries a masked amount.
    pub open spec fn all_amounts_present(&self) -> bool {
        forall|i: int|
            0 <= i < self.redacted_txs@.len() ==> (
            #[trigger] self.redacted_txs@[i]).masked_amount.is_some()
    }
}

/// A chunk after preparation: the raw outputs, each with its normalized
/// form at the same position.
#[derive(Clone, Debug, PartialEq, Eq)]
pub struct PreparedBlockData {
    /// The index of the block that the outputs appeared in.
    pub block_index: u64,
    /// The number of outputs in the chain before this chunk.
    pub global_txo_index: u64,
    /// The raw outputs, in chain order.
    pub tx_outs: Vec<TxOut>,
    /// The normalized outputs, in the same order.
    pub fog_tx_outs: Vec<FogTxOut>,
    /// The block's timestamp.
    pub timestamp: u64,
}

impl PreparedBlockData {
    /// Each raw output has its normalized form beside it.
    pub open spec fn wf(&self) -> bool {
        &&& self.fog_tx_outs@.len() == self.tx_outs@.len()
        &&& forall|i: int|
            0 <= i < self.tx_outs@.len() ==> normalized_from(
                #[trigger] self.fog_tx_outs@[i],
                self.tx_outs@[i],
            )
    }

    /// The global index of every output of the chunk fits in `u64`: the
    /// chunk is empty, or its last output's index does.
    pub open spec fn indices_fit(&self) -> bool {
        self.tx_outs@.len() == 0 || self.global_txo_index + self.tx_outs@.len() - 1 <= u64::MAX
    }

    /// The number of outputs in the chunk.
    pub fn len(&self) -> (n: usize)
        ensures
            n == self.tx_outs@.len(),
    {
        self.tx_outs.len()
    }

    /// Prepares a chunk. It succeeds exactly when every output carries a
    /// masked amount; the prepared chunk then holds the same raw outputs
    /// and block data. Otherwise the whole chunk is rejected.
    pub fn try_from(src: TxsForIngest) -> (res: Result<PreparedBlockData, Error>)
        ensures
            res.is_ok() == src.all_amounts_present(),
            res.is_err() ==> res.unwrap_err() == Error::InvalidBlockData(
                FogTxOutError::MissingMaskedAmount,
            ),
            res.is_ok() ==> {
                let p = res.unwrap();
                &&& p.wf()
                &&& p.tx_outs@ == src.redacted_txs@
                &&& p.block_index == src.block_index
                &&& p.global_txo_index == src.global_txo_index
                &&& p.timestamp == src.timestamp
            },
    {
        let mut fog_tx_outs: Vec<FogTxOut> = Vec::new();
        let mut i: usize = 0;
        while i < src.redacted_txs.len()
            invariant
                i <= src.redacted_txs.len(),
                fog_tx_outs@.len() == i,
                forall|j: int|
                    0 <= j < i ==> normalized_from(
                        #[trigger] fog_tx_outs@[j],
                        src.redacted_txs@[j],
                    ),
            decreases src.redacted_txs.len() - i,
        {
            match FogTxOut::try_from(&src.redacted_txs[i]) {
                Ok(fog) => {
                    fog_tx_outs.push(fog);
                },
                Err(err) => {
                    assert(src.redacted_txs@[i as int].masked_amount.is_none());
                    return Err(Error::InvalidBlockData(err));
                },
            }
            i += 1;
        }
        assert forall|j: int| 0 <= j < src.redacted_txs@.len() implies (
        #[trigger] src.redacted_txs@[j]).masked_amount.is_some() by {
            assert(normalized_from(fog_tx_outs@[j], src.redacted_txs@[j]));
        }
        Ok(
            PreparedBlockData {
                block_index: src.block_index,
                global_txo_index: src.global_txo_index,
                tx_outs: src.redacted_txs,
                fog_tx_outs,
                timestamp: src.timestamp,
            },
        )
    }
}

} // verus!
