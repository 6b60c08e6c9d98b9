use fog_ingest_enclave::rng_store::{RngStore, INITIAL_COUNTER, KEX_RNG_ALGO_VERSION};

fn secret(tag: u8) -> Vec<u8> {
    vec![tag; 32]
}

#[test]
fn new_store_is_empty_with_its_capacity() {
    let store = RngStore::new(5);
    assert_eq!(store.capacity(), 5);
    assert_eq!(store.len(), 0);
    assert_eq!(store.kex_rng_algo_version(), KEX_RNG_ALGO_VERSION);
}

#[test]
fn first_query_starts_from_initial_counter() {
    let mut store = RngStore::new(2);
    assert_eq!(store.next_rng_output(&secret(1)), (false, INITIAL_COUNTER));
    assert_eq!(INITIAL_COUNTER, 0);
    assert_eq!(store.len(), 1);
}

#[test]
fn counter_of_a_user_advances_by_one() {
    let mut store = RngStore::new(2);
    assert_eq!(store.next_rng_output(&secret(1)), (false, 0));
    assert_eq!(store.next_rng_output(&secret(1)), (false, 1));
    assert_eq!(store.next_rng_output(&secret(1)), (false, 2));
    assert_eq!(store.len(), 1);
}

#[test]
fn users_have_counters_of_their_own() {
    let mut store = RngStore::new(3);
    assert_eq!(store.next_rng_output(&secret(1)), (false, 0));
    assert_eq!(store.next_rng_output(&secret(2)), (false, 0));
    assert_eq!(store.next_rng_output(&secret(1)), (false, 1));
    assert_eq!(store.next_rng_output(&secret(2)), (false, 1));
    assert_eq!(store.next_rng_output(&secret(2)), (false, 2));
    assert_eq!(store.next_rng_output(&secret(1)), (false, 2));
    assert_eq!(store.len(), 2);
}

#[test]
fn secrets_that_differ_in_one_byte_are_different_users() {
    let mut store = RngStore::new(4);
    let a = vec![7u8; 32];
    let mut b = vec![7u8; 32];
    b[31] = 8;
    let mut c = vec![7u8; 32];
    c[0] = 6;
    assert_eq!(store.next_rng_output(&a), (false, 0));
    assert_eq!(store.next_rng_output(&b), (false, 0));
    assert_eq!(store.next_rng_output(&c), (false, 0));
    assert_eq!(store.next_rng_output(&a), (false, 1));
    assert_eq!(store.next_rng_output(&c), (false, 1));
    assert_eq!(store.len(), 3);
}

#[test]
fn counter_is_kept_across_byte_boundaries() {
    let mut store = RngStore::new(2);
    store.next_rng_output(&secret(2));
    for expected in 0..70000u64 {
        assert_eq!(store.next_rng_output(&secret(1)), (false, expected));
    }
    assert_eq!(store.next_rng_output(&secret(2)), (false, 1));
}

#[test]
fn secret_of_zero_bytes_is_not_found_in_an_empty_table() {
    let mut store = RngStore::new(2);
    assert_eq!(store.next_rng_output(&secret(0)), (false, 0));
    assert_eq!(store.next_rng_output(&secret(0)), (false, 1));
    store.clear();
    assert_eq!(store.next_rng_output(&secret(0)), (false, 0));
    assert_eq!(store.len(), 1);
}

#[test]
fn new_user_on_a_full_table_overflows_and_changes_nothing() {
    let mut store = RngStore::new(2);
    assert_eq!(store.next_rng_output(&secret(1)), (false, 0));
    assert_eq!(store.next_rng_output(&secret(2)), (false, 0));
    assert_eq!(store.next_rng_output(&secret(3)), (true, 0));
    assert_eq!(store.len(), 2);
    assert_eq!(store.capacity(), 2);
    assert_eq!(store.next_rng_output(&secret(3)), (true, 0));
    assert_eq!(store.next_rng_output(&secret(1)), (false, 1));
    assert_eq!(store.next_rng_output(&secret(2)), (false, 1));
}

#[test]
fn known_user_on_a_full_table_still_advances() {
    let mut store = RngStore::new(1);
    assert_eq!(store.next_rng_output(&secret(1)), (false, 0));
    assert_eq!(store.next_rng_output(&secret(2)), (true, 0));
    assert_eq!(store.next_rng_output(&secret(1)), (false, 1));
}

#[test]
fn table_without_room_overflows_at_once() {
    let mut store = RngStore::new(0);
    assert_eq!(store.next_rng_output(&secret(1)), (true, 0));
    assert_eq!(store.len(), 0);
}

#[test]
fn clear_forgets_every_user_and_keeps_the_capacity() {
    let mut store = RngStore::new(2);
    store.next_rng_output(&secret(1));
    store.next_rng_output(&secret(1));
    store.next_rng_output(&secret(2));
    store.clear();
    assert_eq!(store.len(), 0);
    assert_eq!(store.capacity(), 2);
    assert_eq!(store.next_rng_output(&secret(1)), (false, 0));
    assert_eq!(store.next_rng_output(&secret(3)), (false, 0));
    assert_eq!(store.next_rng_output(&secret(2)), (true, 0));
}
