use fog_ingest_enclave::enclave::{IngestSession, IngestStep, SgxIngestEnclave, MAX_CHUNK_RETRIES};
use fog_ingest_enclave::error::{Error, FogTxOutError, SealedKeyError};
use fog_ingest_enclave::ingest::{attempt_ingest_txs, Candidate, FogTxOutMetadata, PendingRecord};
use fog_ingest_enclave::prepared::{PreparedBlockData, TxOut, TxsForIngest};
use fog_ingest_enclave::rng_store::RngStore;

fn key(tag: u8) -> Vec<u8> {
    vec![tag; 32]
}

fn user(tag: u8) -> Candidate {
    Candidate::Recipient { shared_secret: vec![tag; 32] }
}

fn tx_out(tag: u8) -> TxOut {
    TxOut {
        masked_amount: Some(vec![tag; 8]),
        target_key: vec![tag; 32],
        public_key: vec![tag; 32],
        e_fog_hint: vec![tag; 84],
        e_memo: None,
    }
}

fn chunk(n: u8, block_index: u64, global_txo_index: u64, timestamp: u64) -> TxsForIngest {
    TxsForIngest {
        block_index,
        global_txo_index,
        redacted_txs: (0..n).map(tx_out).collect(),
        timestamp,
    }
}

fn record(tx_index: usize, counter: u64, global_index: u64, block_index: u64, timestamp: u64) -> PendingRecord {
    PendingRecord { tx_index, counter, meta: FogTxOutMetadata { global_index, block_index, timestamp } }
}

fn ready_enclave(capacity: usize) -> SgxIngestEnclave {
    let mut enclave = SgxIngestEnclave::new(key(1), key(2));
    assert_eq!(enclave.enclave_init(capacity, None), Ok(()));
    enclave
}

fn done(step: Result<IngestStep, Error>) -> (Vec<PendingRecord>, bool) {
    match step {
        Ok(IngestStep::Done { records, egress_key_rotated }) => (records, egress_key_rotated),
        other => panic!("the round did not finish: {:?}", other),
    }
}

#[test]
fn attempt_plans_one_record_per_decoded_candidate() {
    let prepared = PreparedBlockData::try_from(chunk(4, 9, 1000, 55)).unwrap();
    let candidates = vec![user(10), Candidate::Undecodable, user(11), user(10)];
    let mut store = RngStore::new(10);
    let records = attempt_ingest_txs(&prepared, &candidates, &mut store).unwrap();
    assert_eq!(
        records,
        vec![record(0, 0, 1000, 9, 55), record(2, 0, 1002, 9, 55), record(3, 1, 1003, 9, 55)]
    );
    assert_eq!(store.len(), 2);
}

#[test]
fn attempt_with_no_decodable_candidate_plans_nothing() {
    let prepared = PreparedBlockData::try_from(chunk(3, 1, 0, 0)).unwrap();
    let candidates = vec![Candidate::Undecodable, Candidate::Undecodable, Candidate::Undecodable];
    let mut store = RngStore::new(0);
    assert_eq!(attempt_ingest_txs(&prepared, &candidates, &mut store), Some(vec![]));
    assert_eq!(store.len(), 0);
}

#[test]
fn attempt_on_empty_chunk_plans_nothing() {
    let prepared = PreparedBlockData::try_from(chunk(0, 1, 0, 0)).unwrap();
    let mut store = RngStore::new(1);
    assert_eq!(attempt_ingest_txs(&prepared, &vec![], &mut store), Some(vec![]));
}

#[test]
fn attempt_continues_counters_of_known_users() {
    let prepared = PreparedBlockData::try_from(chunk(2, 1, 10, 0)).unwrap();
    let mut store = RngStore::new(2);
    let first = attempt_ingest_txs(&prepared, &vec![user(1), user(2)], &mut store).unwrap();
    assert_eq!(first, vec![record(0, 0, 10, 1, 0), record(1, 0, 11, 1, 0)]);
    let second = attempt_ingest_txs(&prepared, &vec![user(2), user(2)], &mut store).unwrap();
    assert_eq!(second, vec![record(0, 1, 10, 1, 0), record(1, 2, 11, 1, 0)]);
}

#[test]
fn attempt_stops_at_the_first_overflow() {
    let prepared = PreparedBlockData::try_from(chunk(4, 1, 0, 0)).unwrap();
    let candidates = vec![user(1), user(2), user(3), user(1)];
    let mut store = RngStore::new(2);
    assert_eq!(attempt_ingest_txs(&prepared, &candidates, &mut store), None);
    assert_eq!(store.len(), 2);
    assert_eq!(store.next_rng_output(&key(1)), (false, 1));
    assert_eq!(store.next_rng_output(&key(2)), (false, 1));
}

#[test]
fn last_global_index_may_be_the_top_of_u64() {
    let prepared = PreparedBlockData::try_from(chunk(2, 1, u64::MAX - 1, 0)).unwrap();
    let mut store = RngStore::new(2);
    let records = attempt_ingest_txs(&prepared, &vec![user(1), user(1)], &mut store).unwrap();
    assert_eq!(records[0].meta.global_index, u64::MAX - 1);
    assert_eq!(records[1].meta.global_index, u64::MAX);
    let single = PreparedBlockData::try_from(chunk(1, 1, u64::MAX, 0)).unwrap();
    let records = attempt_ingest_txs(&single, &vec![user(1)], &mut store).unwrap();
    assert_eq!(records[0].meta.global_index, u64::MAX);
}

#[test]
fn chunk_is_prepared_whatever_its_indices() {
    let prepared = PreparedBlockData::try_from(chunk(3, 1, u64::MAX, 0)).unwrap();
    assert_eq!(prepared.len(), 3);
    assert_eq!(prepared.global_txo_index, u64::MAX);
    let mut src = chunk(3, 1, u64::MAX, 0);
    src.redacted_txs[2].masked_amount = None;
    assert_eq!(
        PreparedBlockData::try_from(src),
        Err(Error::InvalidBlockData(FogTxOutError::MissingMaskedAmount))
    );
}

#[test]
fn snapshot_holds_what_the_table_holds() {
    let mut store = RngStore::new(3);
    store.next_rng_output(&key(1));
    store.next_rng_output(&key(1));
    store.next_rng_output(&key(2));
    let mut copy = store.snapshot();
    assert_eq!(copy.capacity(), 3);
    assert_eq!(copy.len(), 2);
    assert_eq!(copy.next_rng_output(&key(1)), (false, 2));
    assert_eq!(copy.next_rng_output(&key(2)), (false, 1));
    assert_eq!(copy.next_rng_output(&key(3)), (false, 0));
    assert_eq!(store.len(), 2);
    assert_eq!(store.next_rng_output(&key(1)), (false, 2));
    assert_eq!(store.next_rng_output(&key(2)), (false, 1));
}

#[test]
fn new_enclave_is_not_initialized() {
    let enclave = SgxIngestEnclave::new(key(1), key(2));
    assert!(!enclave.is_initialized());
    assert_eq!(enclave.ingress_private_key(), &key(1));
    assert_eq!(enclave.egress_private_key(), &key(2));
}

#[test]
fn init_without_sealed_key_keeps_the_ingress_key() {
    let mut enclave = SgxIngestEnclave::new(key(1), key(2));
    assert_eq!(enclave.enclave_init(7, None), Ok(()));
    assert!(enclave.is_initialized());
    assert_eq!(enclave.capacity(), 7);
    assert_eq!(enclave.kex_rng_algo_version(), 0);
    assert_eq!(enclave.ingress_private_key(), &key(1));
    assert_eq!(enclave.egress_private_key(), &key(2));
}

#[test]
fn init_with_restored_key_installs_it() {
    let mut enclave = SgxIngestEnclave::new(key(1), key(2));
    assert_eq!(enclave.enclave_init(7, Some(Ok(key(9)))), Ok(()));
    assert_eq!(enclave.ingress_private_key(), &key(9));
    assert_eq!(enclave.egress_private_key(), &key(2));
}

#[test]
fn init_with_sealing_failure_changes_nothing() {
    let mut enclave = SgxIngestEnclave::new(key(1), key(2));
    assert_eq!(
        enclave.enclave_init(7, Some(Err(SealedKeyError::Unseal))),
        Err(Error::Sealing(SealedKeyError::Unseal))
    );
    assert!(!enclave.is_initialized());
    assert_eq!(enclave.ingress_private_key(), &key(1));
    assert_eq!(
        enclave.enclave_init(7, Some(Err(SealedKeyError::InvalidKey))),
        Err(Error::Sealing(SealedKeyError::InvalidKey))
    );
    assert!(!enclave.is_initialized());
}

#[test]
fn exported_key_restores_the_same_ingress_key() {
    let first = ready_enclave(3);
    let exported = first.ingress_private_key().clone();
    let mut fresh = SgxIngestEnclave::new(key(50), key(51));
    assert_eq!(fresh.enclave_init(3, Some(Ok(exported))), Ok(()));
    assert_eq!(fresh.ingress_private_key(), first.ingress_private_key());
}

#[test]
fn ingress_key_goes_to_known_peers_only() {
    let enclave = ready_enclave(3);
    assert_eq!(enclave.get_ingress_private_key(true), Ok(key(1)));
    assert_eq!(enclave.get_ingress_private_key(false), Err(Error::UnknownPeerSession));
}

#[test]
fn importing_the_same_key_reports_no_change() {
    let mut enclave = ready_enclave(3);
    assert!(!enclave.set_ingress_private_key(key(1)));
    assert_eq!(enclave.ingress_private_key(), &key(1));
}

#[test]
fn importing_another_key_reports_the_change() {
    let mut enclave = ready_enclave(3);
    assert!(enclave.set_ingress_private_key(key(8)));
    assert_eq!(enclave.ingress_private_key(), &key(8));
    assert_eq!(enclave.egress_private_key(), &key(2));
    let mut nearly = key(8);
    nearly[0] = 9;
    assert!(enclave.set_ingress_private_key(nearly.clone()));
    assert_eq!(enclave.ingress_private_key(), &nearly);
    assert!(enclave.set_ingress_private_key(vec![9u8; 1]));
}

#[test]
fn malformed_chunk_is_rejected_before_any_round() {
    let mut enclave = ready_enclave(3);
    let mut src = chunk(3, 1, 0, 0);
    src.redacted_txs[1].masked_amount = None;
    match enclave.begin_ingest(src) {
        Err(err) => assert_eq!(err, Error::InvalidBlockData(FogTxOutError::MissingMaskedAmount)),
        Ok(_) => panic!("a malformed chunk was accepted"),
    }
    assert_eq!(enclave.egress_private_key(), &key(2));
}

#[test]
fn ingest_within_capacity_is_done_in_one_round() {
    let mut enclave = ready_enclave(4);
    let mut session: IngestSession = enclave.begin_ingest(chunk(3, 5, 40, 77)).unwrap();
    assert_eq!(session.rotations, 0);
    let candidates = vec![user(1), Candidate::Undecodable, user(2)];
    let (records, rotated) = done(enclave.ingest_round(&mut session, &candidates, key(3)));
    assert_eq!(records, vec![record(0, 0, 40, 5, 77), record(2, 0, 42, 5, 77)]);
    assert!(!rotated);
    assert_eq!(enclave.egress_private_key(), &key(2));
    assert_eq!(session.rotations, 0);
}

#[test]
fn same_chunk_on_two_fresh_enclaves_gives_the_same_records() {
    let candidates = vec![user(1), user(2), user(1), Candidate::Undecodable, user(2), user(1)];
    let mut results = Vec::new();
    for _ in 0..2 {
        let mut enclave = ready_enclave(4);
        let mut session = enclave.begin_ingest(chunk(6, 5, 40, 77)).unwrap();
        results.push(done(enclave.ingest_round(&mut session, &candidates, key(3))));
    }
    assert_eq!(results[0], results[1]);
    assert_eq!(results[0].0.iter().map(|r| r.counter).collect::<Vec<u64>>(), vec![0, 0, 1, 1, 2]);
}

#[test]
fn more_users_than_capacity_gives_up_after_the_retry_bound() {
    let mut enclave = ready_enclave(2);
    let mut earlier = enclave.begin_ingest(chunk(2, 1, 0, 0)).unwrap();
    let (records, _) = done(enclave.ingest_round(&mut earlier, &vec![user(9), user(9)], key(3)));
    assert_eq!(records, vec![record(0, 0, 0, 1, 0), record(1, 1, 1, 1, 0)]);

    let mut session = enclave.begin_ingest(chunk(3, 1, 2, 0)).unwrap();
    let candidates = vec![user(1), user(2), user(3)];
    assert_eq!(MAX_CHUNK_RETRIES, 10);
    for round in 0..MAX_CHUNK_RETRIES {
        let spare = key(100 + round as u8);
        let step = enclave.ingest_round(&mut session, &candidates, spare.clone());
        assert!(matches!(step, Ok(IngestStep::Retry)));
        assert_eq!(enclave.egress_private_key(), &spare);
        assert_eq!(session.rotations, round + 1);
    }
    let last = enclave.ingest_round(&mut session, &candidates, key(200));
    match last {
        Err(err) => assert_eq!(err, Error::ChunkTooBig(3, 10, 2)),
        Ok(step) => panic!("the chunk was not given up: {:?}", step),
    }
    assert_eq!(session.rotations, 10);
}

#[test]
fn chunk_that_is_given_up_leaves_the_enclave_as_it_was() {
    let mut enclave = ready_enclave(2);
    let mut earlier = enclave.begin_ingest(chunk(2, 1, 0, 0)).unwrap();
    done(enclave.ingest_round(&mut earlier, &vec![user(9), user(9)], key(3)));

    let mut session = enclave.begin_ingest(chunk(3, 1, 2, 0)).unwrap();
    let candidates = vec![user(1), user(2), user(3)];
    for round in 0..MAX_CHUNK_RETRIES {
        let step = enclave.ingest_round(&mut session, &candidates, key(100 + round as u8));
        assert!(matches!(step, Ok(IngestStep::Retry)));
    }
    assert!(enclave.ingest_round(&mut session, &candidates, key(200)).is_err());

    assert_eq!(enclave.egress_private_key(), &key(2));
    assert_eq!(enclave.ingress_private_key(), &key(1));
    assert_eq!(enclave.capacity(), 2);
    let mut later = enclave.begin_ingest(chunk(2, 2, 5, 0)).unwrap();
    let (records, rotated) = done(enclave.ingest_round(&mut later, &vec![user(9), user(8)], key(3)));
    assert_eq!(records, vec![record(0, 2, 5, 2, 0), record(1, 0, 6, 2, 0)]);
    assert!(!rotated);
}

#[test]
fn failed_attempt_leaves_no_user_behind() {
    let mut enclave = ready_enclave(1);
    let mut session = enclave.begin_ingest(chunk(2, 1, 0, 0)).unwrap();
    session.rotations = MAX_CHUNK_RETRIES;
    let step = enclave.ingest_round(&mut session, &vec![user(1), user(2)], key(3));
    match step {
        Err(err) => assert_eq!(err, Error::ChunkTooBig(2, 10, 1)),
        Ok(step) => panic!("the chunk was not given up: {:?}", step),
    }
    assert_eq!(enclave.egress_private_key(), &key(2));
    let mut later = enclave.begin_ingest(chunk(1, 1, 0, 0)).unwrap();
    let (records, _) = done(enclave.ingest_round(&mut later, &vec![user(2)], key(3)));
    assert_eq!(records, vec![record(0, 0, 0, 1, 0)]);
}

#[test]
fn overflow_rotates_the_egress_key_and_the_retry_starts_afresh() {
    let mut enclave = ready_enclave(3);
    let mut earlier = enclave.begin_ingest(chunk(2, 1, 0, 0)).unwrap();
    let (records, rotated) = done(enclave.ingest_round(&mut earlier, &vec![user(9), user(9)], key(3)));
    assert_eq!(records, vec![record(0, 0, 0, 1, 0), record(1, 1, 1, 1, 0)]);
    assert!(!rotated);

    let mut session = enclave.begin_ingest(chunk(3, 2, 2, 5)).unwrap();
    let stale = vec![user(1), user(2), user(3)];
    let step = enclave.ingest_round(&mut session, &stale, key(4));
    assert!(matches!(step, Ok(IngestStep::Retry)));
    assert_eq!(enclave.egress_private_key(), &key(4));
    assert_eq!(session.rotations, 1);

    let fresh = vec![user(21), user(22), user(23)];
    let (records, rotated) = done(enclave.ingest_round(&mut session, &fresh, key(5)));
    assert_eq!(records, vec![record(0, 0, 2, 2, 5), record(1, 0, 3, 2, 5), record(2, 0, 4, 2, 5)]);
    assert!(rotated);
    assert_eq!(enclave.egress_private_key(), &key(4));
}

#[test]
fn rotating_the_egress_key_restarts_the_counters() {
    let mut enclave = ready_enclave(3);
    let mut session = enclave.begin_ingest(chunk(3, 1, 0, 0)).unwrap();
    let candidates = vec![user(1), user(1), user(1)];
    let (records, _) = done(enclave.ingest_round(&mut session, &candidates, key(3)));
    assert_eq!(records.iter().map(|r| r.counter).collect::<Vec<u64>>(), vec![0, 1, 2]);

    enclave.new_egress_key(key(6));
    assert_eq!(enclave.egress_private_key(), &key(6));
    assert_eq!(enclave.ingress_private_key(), &key(1));
    assert_eq!(enclave.capacity(), 3);
    let mut again = enclave.begin_ingest(chunk(3, 1, 0, 0)).unwrap();
    let (records, rotated) = done(enclave.ingest_round(&mut again, &candidates, key(3)));
    assert_eq!(records.iter().map(|r| r.counter).collect::<Vec<u64>>(), vec![0, 1, 2]);
    assert!(!rotated);
}

#[test]
fn new_keys_replaces_both_keys_and_clears_the_table() {
    let mut enclave = ready_enclave(1);
    let mut session = enclave.begin_ingest(chunk(1, 1, 0, 0)).unwrap();
    done(enclave.ingest_round(&mut session, &vec![user(1)], key(3)));
    enclave.new_keys(key(30), key(31));
    assert_eq!(enclave.ingress_private_key(), &key(30));
    assert_eq!(enclave.egress_private_key(), &key(31));
    assert_eq!(enclave.capacity(), 1);
    let mut again = enclave.begin_ingest(chunk(1, 1, 0, 0)).unwrap();
    let (records, _) = done(enclave.ingest_round(&mut again, &vec![user(2)], key(3)));
    assert_eq!(records, vec![record(0, 0, 0, 1, 0)]);
}

#[test]
fn init_again_starts_with_an_empty_table() {
    let mut enclave = ready_enclave(1);
    let mut session = enclave.begin_ingest(chunk(1, 1, 0, 0)).unwrap();
    done(enclave.ingest_round(&mut session, &vec![user(1)], key(3)));
    assert_eq!(enclave.enclave_init(2, None), Ok(()));
    assert_eq!(enclave.capacity(), 2);
    let mut again = enclave.begin_ingest(chunk(2, 1, 0, 0)).unwrap();
    let (records, _) = done(enclave.ingest_round(&mut again, &vec![user(2), user(3)], key(3)));
    assert_eq!(records.len(), 2);
}
