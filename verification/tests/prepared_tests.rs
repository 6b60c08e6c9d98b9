use fog_ingest_enclave::bytes::{bytes_equal, copy_bytes};
use fog_ingest_enclave::error::{Error, FogTxOutError};
use fog_ingest_enclave::prepared::{FogTxOut, PreparedBlockData, TxOut, TxsForIngest};

fn tx_out(tag: u8, with_amount: bool) -> TxOut {
    TxOut {
        masked_amount: if with_amount { Some(vec![tag, 1, 2]) } else { None },
        target_key: vec![tag; 32],
        public_key: vec![tag.wrapping_add(1); 32],
        e_fog_hint: vec![tag.wrapping_add(2); 84],
        e_memo: if tag % 2 == 0 { Some(vec![tag; 66]) } else { None },
    }
}

#[test]
fn copy_bytes_copies() {
    assert_eq!(copy_bytes(&vec![1, 2, 3]), vec![1, 2, 3]);
    assert_eq!(copy_bytes(&Vec::new()), Vec::<u8>::new());
}

#[test]
fn bytes_equal_compares_length_and_content() {
    assert!(bytes_equal(&vec![1, 2, 3], &vec![1, 2, 3]));
    assert!(bytes_equal(&Vec::new(), &Vec::new()));
    assert!(!bytes_equal(&vec![1, 2, 3], &vec![1, 2, 4]));
    assert!(!bytes_equal(&vec![1, 2, 3], &vec![1, 2]));
    assert!(!bytes_equal(&vec![0], &Vec::new()));
}

#[test]
fn output_with_amount_is_normalized() {
    let raw = tx_out(4, true);
    let fog = FogTxOut::try_from(&raw).unwrap();
    assert_eq!(
        fog,
        FogTxOut {
            target_key: vec![4; 32],
            public_key: vec![5; 32],
            masked_amount: vec![4, 1, 2],
            e_memo: Some(vec![4; 66]),
        }
    );
    let raw = tx_out(3, true);
    assert_eq!(FogTxOut::try_from(&raw).unwrap().e_memo, None);
}

#[test]
fn output_without_amount_is_refused() {
    let raw = tx_out(4, false);
    assert_eq!(FogTxOut::try_from(&raw), Err(FogTxOutError::MissingMaskedAmount));
}

#[test]
fn chunk_is_prepared_in_order() {
    let src = TxsForIngest {
        block_index: 7,
        global_txo_index: 100,
        redacted_txs: vec![tx_out(1, true), tx_out(2, true), tx_out(3, true)],
        timestamp: 1234,
    };
    let prepared = PreparedBlockData::try_from(src.clone()).unwrap();
    assert_eq!(prepared.block_index, 7);
    assert_eq!(prepared.global_txo_index, 100);
    assert_eq!(prepared.timestamp, 1234);
    assert_eq!(prepared.len(), 3);
    assert_eq!(prepared.tx_outs, src.redacted_txs);
    assert_eq!(prepared.fog_tx_outs.len(), 3);
    for i in 0..3 {
        assert_eq!(prepared.fog_tx_outs[i], FogTxOut::try_from(&src.redacted_txs[i]).unwrap());
    }
}

#[test]
fn empty_chunk_is_prepared() {
    let src = TxsForIngest { block_index: 0, global_txo_index: 0, redacted_txs: vec![], timestamp: 0 };
    let prepared = PreparedBlockData::try_from(src).unwrap();
    assert_eq!(prepared.len(), 0);
    assert!(prepared.fog_tx_outs.is_empty());
}

#[test]
fn one_malformed_output_rejects_the_whole_chunk() {
    for bad in 0..3usize {
        let mut txs = vec![tx_out(1, true), tx_out(2, true), tx_out(3, true)];
        txs[bad].masked_amount = None;
        let src = TxsForIngest { block_index: 7, global_txo_index: 100, redacted_txs: txs, timestamp: 1 };
        assert_eq!(
            PreparedBlockData::try_from(src),
            Err(Error::InvalidBlockData(FogTxOutError::MissingMaskedAmount))
        );
    }
}
