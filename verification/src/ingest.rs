//! One attempt to ingest a prepared chunk against the counter table.
//!
//! The caller decrypts each output's hint into a candidate recipient and
//! does the key exchange with the egress key. The attempt takes what came
//! of that, one candidate per output, queries the table in chunk order and
//! plans one record for every candidate that decoded.

use crate::prepared::PreparedBlockData;
use crate::rng_store::{
    distinct_users, has_user, issued_counter, lemma_query_keeps_users, overflows,
    slots_after_query, users, RngStore, Slots, SECRET_LEN,
};
use vstd::prelude::*;

verus! {

/// What hint decryption and key exchange gave for one output.
#[derive(Clone, Debug, PartialEq, Eq)]
pub enum Candidate {
    /// The candidate identity did not decode to a public key: the output
    /// is passed over.
    Undecodable,
    /// The candidate decoded, and this is its key-exchange secret with the
    /// egress key. The candidate is a real recipient where the hint
    /// decrypted, and the random placeholder where it did not.
    Recipient { shared_secret: Vec<u8> },
}

/// Where an output stands in the chain.
#[derive(Clone, Copy, Debug, PartialEq, Eq, Structural)]
pub struct FogTxOutMetadata {
    /// The output's index among all outputs of the chain.
    pub global_index: u64,
    /// The index of the output's block.
    pub block_index: u64,
    /// The block's timestamp.
    pub timestamp: u64,
}

/// A record that the attempt planned. The caller derives the search key
/// from the recipient's secret and `counter`, and encrypts the normalized
/// output at `tx_index` with `meta` to the recipient.
#[derive(Clone, Copy, Debug, PartialEq, Eq, Structural)]
pub struct PendingRecord {
    /// The position in the chunk of the output that the record is for.
    pub tx_index: usize,
    /// The recipient's counter that the search key is derived from.
    pub counter: u64,
    /// The output's place in the chain.
    pub meta: FogTxOutMetadata,
}

/// How far an attempt has come.
pub struct AttemptState {
    /// The counter table.
    pub slots: Slots,
    /// Whether a query found the table full. Nothing changes after that.
    pub overflowed: bool,
    /// The records planned so far.
    pub records: Seq<PendingRecord>,
}

/// The secret of a candidate that decoded.
pub open spec fn secret_of(candidate: Candidate) -> Option<Seq<u8>> {
    match candidate {
        Candidate::Undecodable => None,
        Candidate::Recipient { shared_secret } => Some(shared_secret@),
    }
}

/// Every secret among the candidates has the fixed length.
pub open spec fn well_sized(candidates: Seq<Candidate>) -> bool {
    forall|i: int|
        0 <= i < candidates.len() ==> match #[trigger] candidates[i] {
            Candidate::Undecodable => true,
            Candidate::Recipient { shared_secret } => shared_secret@.len() == SECRET_LEN,
        }
}

/// The attempt after the first `n` outputs of `chunk`, started on `slots`
/// with room for `capacity` users.
pub open spec fn attempt_state(
    chunk: PreparedBlockData,
    candidates: Seq<Candidate>,
    slots: Slots,
    capacity: nat,
    n: nat,
) -> AttemptState
    decreases n,
{
    if n == 0 {
        AttemptState { slots, overflowed: false, records: Seq::empty() }
    } else {
        let before = attempt_state(chunk, candidates, slots, capacity, (n - 1) as nat);
        if before.overflowed {
            before
        } else {
            match candidates[n - 1] {
                Candidate::Undecodable => before,
                Candidate::Recipient { shared_secret } => {
                    if overflows(before.slots, capacity, shared_secret@) {
                        AttemptState { overflowed: true, ..before }
                    } else {
                        AttemptState {
                            slots: slots_after_query(before.slots, capacity, shared_secret@),
                            overflowed: false,
                            records: before.records.push(
                                PendingRecord {
                                    tx_index: (n - 1) as usize,
                                    counter: issued_counter(before.slots, shared_secret@),
                                    meta: FogTxOutMetadata {
                                        global_index: (chunk.global_txo_index + (n - 1)) as u64,
                                        block_index: chunk.block_index,
                                        timestamp: chunk.timestamp,
                                    },
                                },
                            ),
                        }
                    }
                },
            }
        }
    }
}

/// Runs one attempt over the whole chunk. It returns the planned records,
/// one for each candidate that decoded, in chunk order; or `None` as soon
/// as a query finds the table full. The table is left as the queries up to
/// that point made it.
pub fn attempt_ingest_txs(
    chunk: &PreparedBlockData,
    candidates: &Vec<Candidate>,
    rng_store: &mut RngStore,
) -> (res: Option<Vec<PendingRecord>>)
    requires
        chunk.wf(),
        chunk.indices_fit(),
        candidates@.len() == chunk.tx_outs@.len(),
        well_sized(candidates@),
        old(rng_store).wf(),
    ensures
        final(rng_store).wf(),
        final(rng_store).spec_capacity() == old(rng_store).spec_capacity(),
        ({
            let end = attempt_state(
                *chunk,
                candidates@,
                old(rng_store)@,
                old(rng_store).spec_capacity(),
                candidates@.len(),
            );
            &&& res.is_none() == end.overflowed
            &&& final(rng_store)@ == end.slots
            &&& res.is_some() ==> res.unwrap()@ == end.records
        }),
{
    let ghost start = rng_store@;
    let ghost capacity = rng_store.spec_capacity();
    let mut new_tx_rows: Vec<PendingRecord> = Vec::new();
    let mut index: usize = 0;
    while index < candidates.len()
        invariant
            index <= candidates@.len(),
            candidates@.len() == chunk.tx_outs@.len(),
            well_sized(candidates@),
            chunk.wf(),
            chunk.indices_fit(),
            rng_store.wf(),
            rng_store.spec_capacity() == capacity,
            start == old(rng_store)@,
            capacity == old(rng_store).spec_capacity(),
            ({
                let now = attempt_state(*chunk, candidates@, start, capacity, index as nat);
                &&& !now.overflowed
                &&& rng_store@ == now.slots
                &&& new_tx_rows@ == now.records
            }),
        decreases candidates.len() - index,
    {
        match &candidates[index] {
            Candidate::Undecodable => {},
            Candidate::Recipient { shared_secret } => {
                let (overflow, counter) = rng_store.next_rng_output(shared_secret);
                if overflow {
                    proof {
                        lemma_overflow_stays(
                            *chunk,
                            candidates@,
                            start,
                            capacity,
                            (index + 1) as nat,
                            candidates@.len(),
                        );
                    }
                    return None;
                }
                let offset: u64 = index as u64;
                let meta = FogTxOutMetadata {
                    global_index: chunk.global_txo_index + offset,
                    block_index: chunk.block_index,
                    timestamp: chunk.timestamp,
                };
                new_tx_rows.push(PendingRecord { tx_index: index, counter, meta });
            },
        }
        index += 1;
    }
    Some(new_tx_rows)
}

/// Once an attempt has overflowed, the outputs after that change nothing.
pub proof fn lemma_overflow_stays(
    chunk: PreparedBlockData,
    candidates: Seq<Candidate>,
    slots: Slots,
    capacity: nat,
    n: nat,
    m: nat,
)
    requires
        n <= m,
        attempt_state(chunk, candidates, slots, capacity, n).overflowed,
    ensures
        attempt_state(chunk, candidates, slots, capacity, m) == attempt_state(
            chunk,
            candidates,
            slots,
            capacity,
            n,
        ),
    decreases m,
{
    if n < m {
        lemma_overflow_stays(chunk, candidates, slots, capacity, n, (m - 1) as nat);
    }
}

/// The number of candidates that decoded among the first `n`.
pub open spec fn recipient_count(candidates: Seq<Candidate>, n: nat) -> nat
    decreases n,
{
    if n == 0 {
        0
    } else {
        recipient_count(candidates, (n - 1) as nat) + if secret_of(candidates[n - 1]).is_some() {
            1nat
        } else {
            0nat
        }
    }
}

/// The distinct secrets among the first `n` candidates.
pub open spec fn recipient_secrets(candidates: Seq<Candidate>, n: nat) -> Set<Seq<u8>> {
    Set::new(
        |s: Seq<u8>| exists|i: int| 0 <= i < n && #[trigger] secret_of(candidates[i]) == Some(s),
    )
}

/// An attempt that does not overflow plans exactly one record for each
/// output whose candidate decoded and none for the others, in chunk
/// order, and each record carries its output's place in the chain.
pub proof fn lemma_one_record_per_recipient(
    chunk: PreparedBlockData,
    candidates: Seq<Candidate>,
    slots: Slots,
    capacity: nat,
    n: nat,
)
    requires
        n <= candidates.len(),
        n <= usize::MAX,
        n == 0 || chunk.global_txo_index + n - 1 <= u64::MAX,
        !attempt_state(chunk, candidates, slots, capacity, n).overflowed,
    ensures
        ({
            let records = attempt_state(chunk, candidates, slots, capacity, n).records;
            &&& records.len() == recipient_count(candidates, n)
            &&& forall|k: int|
                0 <= k < records.len() ==> {
                    let i = (#[trigger] records[k]).tx_index;
                    &&& i < n
                    &&& secret_of(candidates[i as int]).is_some()
                    &&& records[k].meta.global_index == chunk.global_txo_index + i
                    &&& records[k].meta.block_index == chunk.block_index
                    &&& records[k].meta.timestamp == chunk.timestamp
                }
            &&& forall|k: int, l: int|
                0 <= k < l < records.len() ==> (#[trigger] records[k]).tx_index < (
                #[trigger] records[l]).tx_index
            &&& forall|i: int|
                0 <= i < n && (#[trigger] secret_of(candidates[i])).is_some() ==> exists|k: int|
                    0 <= k < records.len() && (#[trigger] records[k]).tx_index == i
        }),
    decreases n,
{
    if n > 0 {
        let before = attempt_state(chunk, candidates, slots, capacity, (n - 1) as nat);
        let now = attempt_state(chunk, candidates, slots, capacity, n);
        lemma_one_record_per_recipient(chunk, candidates, slots, capacity, (n - 1) as nat);
        let records = now.records;
        assert forall|i: int|
            0 <= i < n && (#[trigger] secret_of(candidates[i])).is_some() implies exists|k: int|
            0 <= k < records.len() && (#[trigger] records[k]).tx_index == i by {
            if i < n - 1 {
                let k = choose|k: int|
                    0 <= k < before.records.len() && (#[trigger] before.records[k]).tx_index == i;
                assert(records[k].tx_index == i);
            } else {
                assert(records[records.len() - 1].tx_index == i);
            }
        }
    }
}

/// An attempt keeps the table well formed, and while it has not
/// overflowed, every candidate that decoded is a user of the table.
pub proof fn lemma_attempt_registers_recipients(
    chunk: PreparedBlockData,
    candidates: Seq<Candidate>,
    slots: Slots,
    capacity: nat,
    n: nat,
)
    requires
        n <= candidates.len(),
        distinct_users(slots),
        slots.len() <= capacity,
    ensures
        ({
            let now = attempt_state(chunk, candidates, slots, capacity, n);
            &&& distinct_users(now.slots)
            &&& now.slots.len() <= capacity
            &&& forall|s: Seq<u8>| has_user(slots, s) ==> has_user(now.slots, s)
            &&& !now.overflowed ==> forall|s: Seq<u8>|
                recipient_secrets(candidates, n).contains(s) ==> has_user(now.slots, s)
        }),
    decreases n,
{
    if n > 0 {
        let before = attempt_state(chunk, candidates, slots, capacity, (n - 1) as nat);
        let now = attempt_state(chunk, candidates, slots, capacity, n);
        lemma_attempt_registers_recipients(chunk, candidates, slots, capacity, (n - 1) as nat);
        if !before.overflowed {
            match candidates[n - 1] {
                Candidate::Undecodable => {},
                Candidate::Recipient { shared_secret } => {
                    lemma_query_keeps_users(before.slots, capacity, shared_secret@);
                    crate::rng_store::lemma_query_keeps_wf(before.slots, capacity, shared_secret@);
                },
            }
        }
        if !now.overflowed {
            assert forall|s: Seq<u8>| recipient_secrets(candidates, n).contains(s) implies has_user(
                now.slots,
                s,
            ) by {
                let i = choose|i: int|
                    0 <= i < n && #[trigger] secret_of(candidates[i]) == Some(s);
                if i < n - 1 {
                    assert(recipient_secrets(candidates, (n - 1) as nat).contains(s));
                    assert(has_user(before.slots, s));
                }
                match candidates[n - 1] {
                    Candidate::Undecodable => {},
                    Candidate::Recipient { shared_secret } => {
                        lemma_query_keeps_users(before.slots, capacity, shared_secret@);
                    },
                }
            }
        }
    }
}

/// A chunk with more distinct users than the table has room for cannot be
/// ingested in one attempt: the attempt overflows, whatever the table held
/// before.
pub proof fn lemma_too_many_users_overflow(
    chunk: PreparedBlockData,
    candidates: Seq<Candidate>,
    slots: Slots,
    capacity: nat,
)
    requires
        distinct_users(slots),
        slots.len() <= capacity,
        recipient_secrets(candidates, candidates.len()).len() > capacity,
    ensures
        attempt_state(chunk, candidates, slots, capacity, candidates.len()).overflowed,
{
    let end = attempt_state(chunk, candidates, slots, capacity, candidates.len());
    lemma_attempt_registers_recipients(chunk, candidates, slots, capacity, candidates.len());
    if !end.overflowed {
        let keys = end.slots.map_values(|s: (Seq<u8>, u64)| s.0);
        let wanted = recipient_secrets(candidates, candidates.len());
        assert forall|s: Seq<u8>| wanted.contains(s) implies users(end.slots).contains(s) by {
            assert(has_user(end.slots, s));
            let i = crate::rng_store::slot_of(end.slots, s);
            assert(end.slots[i].0 == s);
            assert(keys[i] == s);
            assert(keys.contains(s));
        }
        keys.lemma_cardinality_of_set();
        vstd::seq_lib::seq_to_set_is_finite(keys);
        vstd::set_lib::lemma_len_subset(wanted, users(end.slots));
    }
}

/// The outcome of an attempt is fixed by the chunk, the candidates and
/// the table it starts on: two attempts that agree on these plan the same
/// records, with the same counters, and leave the same table.
pub proof fn lemma_attempt_is_replayable(
    chunk_a: PreparedBlockData,
    chunk_b: PreparedBlockData,
    candidates_a: Seq<Candidate>,
    candidates_b: Seq<Candidate>,
    slots: Slots,
    capacity: nat,
    n: nat,
)
    requires
        n <= candidates_a.len(),
        n <= candidates_b.len(),
        chunk_a.global_txo_index == chunk_b.global_txo_index,
        chunk_a.block_index == chunk_b.block_index,
        chunk_a.timestamp == chunk_b.timestamp,
        forall|i: int| 0 <= i < n ==> secret_of(candidates_a[i]) == secret_of(candidates_b[i]),
    ensures
        attempt_state(chunk_a, candidates_a, slots, capacity, n) == attempt_state(
            chunk_b,
            candidates_b,
            slots,
            capacity,
            n,
        ),
    decreases n,
{
    if n > 0 {
        lemma_attempt_is_replayable(
            chunk_a,
            chunk_b,
            candidates_a,
            candidates_b,
            slots,
            capacity,
            (n - 1) as nat,
        );
        assert(secret_of(candidates_a[n - 1]) == secret_of(candidates_b[n - 1]));
    }
}

/// Where the users of the table and the recipients of the chunk are,
/// taken together, no more than the table has room for, the attempt does
/// not overflow. `room` is any finite set of at most `capacity` secrets
/// that holds them all; the users of the table stay within it.
pub proof fn lemma_enough_room_no_overflow(
    chunk: PreparedBlockData,
    candidates: Seq<Candidate>,
    slots: Slots,
    capacity: nat,
    n: nat,
    room: Set<Seq<u8>>,
)
    requires
        n <= candidates.len(),
        distinct_users(slots),
        room.finite(),
        room.len() <= capacity,
        forall|s: Seq<u8>| has_user(slots, s) ==> room.contains(s),
        forall|s: Seq<u8>| recipient_secrets(candidates, n).contains(s) ==> room.contains(s),
    ensures
        ({
            let now = attempt_state(chunk, candidates, slots, capacity, n);
            &&& !now.overflowed
            &&& distinct_users(now.slots)
            &&& forall|s: Seq<u8>| has_user(now.slots, s) ==> room.contains(s)
        }),
    decreases n,
{
    if n == 0 {
    } else {
        let before = attempt_state(chunk, candidates, slots, capacity, (n - 1) as nat);
        let now = attempt_state(chunk, candidates, slots, capacity, n);
        assert forall|s: Seq<u8>|
            recipient_secrets(candidates, (n - 1) as nat).contains(s) implies room.contains(s) by {
            let i = choose|i: int|
                0 <= i < n - 1 && #[trigger] secret_of(candidates[i]) == Some(s);
            assert(recipient_secrets(candidates, n).contains(s));
        }
        lemma_enough_room_no_overflow(chunk, candidates, slots, capacity, (n - 1) as nat, room);
        match candidates[n - 1] {
            Candidate::Undecodable => {},
            Candidate::Recipient { shared_secret } => {
                let secret = shared_secret@;
                assert(secret_of(candidates[n - 1]) == Some(secret));
                assert(recipient_secrets(candidates, n).contains(secret));
                crate::rng_store::lemma_users_are_slots(before.slots);
                if !has_user(before.slots, secret) {
                    let rest = room.remove(secret);
                    assert(users(before.slots).subset_of(rest));
                    vstd::set_lib::lemma_len_subset(users(before.slots), rest);
                    assert(before.slots.len() < capacity);
                }
                assert(!overflows(before.slots, capacity, secret));
                assert(users(before.slots).subset_of(room));
                vstd::set_lib::lemma_len_subset(users(before.slots), room);
                crate::rng_store::lemma_query_keeps_wf(before.slots, capacity, secret);
                assert forall|s: Seq<u8>| has_user(now.slots, s) implies room.contains(s) by {
                    let j = crate::rng_store::slot_of(now.slots, s);
                    if s != secret {
                        if j < before.slots.len() {
                            assert(before.slots[j].0 == s);
                        }
                        assert(has_user(before.slots, s));
                    }
                }
            },
        }
    }
}

/// The users of the table during an attempt are those it started with
/// and the recipients met so far: nobody else comes in.
pub proof fn lemma_attempt_adds_only_recipients(
    chunk: PreparedBlockData,
    candidates: Seq<Candidate>,
    slots: Slots,
    capacity: nat,
    n: nat,
)
    requires
        n <= candidates.len(),
    ensures
        forall|s: Seq<u8>|
            has_user(attempt_state(chunk, candidates, slots, capacity, n).slots, s) ==> has_user(
                slots,
                s,
            ) || recipient_secrets(candidates, n).contains(s),
    decreases n,
{
    if n > 0 {
        let before = attempt_state(chunk, candidates, slots, capacity, (n - 1) as nat);
        let now = attempt_state(chunk, candidates, slots, capacity, n);
        lemma_attempt_adds_only_recipients(chunk, candidates, slots, capacity, (n - 1) as nat);
        assert forall|s: Seq<u8>| has_user(now.slots, s) implies has_user(slots, s)
            || recipient_secrets(candidates, n).contains(s) by {
            match candidates[n - 1] {
                Candidate::Undecodable => {},
                Candidate::Recipient { shared_secret } => {
                    crate::rng_store::lemma_query_adds_only_its_user(
                        before.slots,
                        capacity,
                        shared_secret@,
                    );
                    assert(secret_of(candidates[n - 1]) == Some(shared_secret@));
                },
            }
            if has_user(before.slots, s) && !has_user(slots, s) {
                let j = choose|j: int|
                    0 <= j < n - 1 && #[trigger] secret_of(candidates[j]) == Some(s);
                assert(secret_of(candidates[j]) == Some(s));
            }
        }
    }
}

/// A user whom the table did not hold when the attempt began is handed
/// `INITIAL_COUNTER` at the user's first output in the chunk. On the empty
/// table that a rotation leaves, this is so for every user: no counter
/// goes on from where it stood before the rotation.
pub proof fn lemma_first_record_starts_afresh(
    chunk: PreparedBlockData,
    candidates: Seq<Candidate>,
    slots: Slots,
    capacity: nat,
    n: nat,
    k: int,
)
    requires
        n <= candidates.len(),
        n <= usize::MAX,
        !attempt_state(chunk, candidates, slots, capacity, n).overflowed,
        0 <= k < attempt_state(chunk, candidates, slots, capacity, n).records.len(),
        ({
            let i = attempt_state(chunk, candidates, slots, capacity, n).records[k].tx_index;
            &&& i < n
            &&& secret_of(candidates[i as int]).is_some()
            &&& !has_user(slots, secret_of(candidates[i as int]).unwrap())
            &&& forall|j: int|
                0 <= j < i ==> #[trigger] secret_of(candidates[j]) != secret_of(
                    candidates[i as int],
                )
        }),
    ensures
        attempt_state(chunk, candidates, slots, capacity, n).records[k].counter
            == crate::rng_store::INITIAL_COUNTER,
    decreases n,
{
    if n > 0 {
        let before = attempt_state(chunk, candidates, slots, capacity, (n - 1) as nat);
        let now = attempt_state(chunk, candidates, slots, capacity, n);
        if k < before.records.len() {
            assert(now.records[k] == before.records[k]);
            lemma_one_record_per_recipient_index(chunk, candidates, slots, capacity, (n - 1) as nat);
            lemma_first_record_starts_afresh(chunk, candidates, slots, capacity, (n - 1) as nat, k);
        } else {
            let s = secret_of(candidates[n - 1]).unwrap();
            lemma_attempt_adds_only_recipients(
                chunk,
                candidates,
                slots,
                capacity,
                (n - 1) as nat,
            );
            if has_user(before.slots, s) {
                let j = choose|j: int|
                    0 <= j < n - 1 && #[trigger] secret_of(candidates[j]) == Some(s);
                assert(secret_of(candidates[j]) == secret_of(candidates[n - 1]));
            }
        }
    }
}

/// Every record of an attempt is for one of the outputs that it has
/// passed.
proof fn lemma_one_record_per_recipient_index(
    chunk: PreparedBlockData,
    candidates: Seq<Candidate>,
    slots: Slots,
    capacity: nat,
    n: nat,
)
    requires
        n <= candidates.len(),
        n <= usize::MAX,
    ensures
        forall|k: int|
            0 <= k < attempt_state(chunk, candidates, slots, capacity, n).records.len() ==> (
            #[trigger] attempt_state(chunk, candidates, slots, capacity, n).records[k]).tx_index
                < n,
    decreases n,
{
    if n > 0 {
        let before = attempt_state(chunk, candidates, slots, capacity, (n - 1) as nat);
        let now = attempt_state(chunk, candidates, slots, capacity, n);
        lemma_one_record_per_recipient_index(chunk, candidates, slots, capacity, (n - 1) as nat);
        assert forall|k: int| 0 <= k < now.records.len() implies (#[trigger] now.records[k]).tx_index
            < n by {
            if k < before.records.len() {
                assert(now.records[k] == before.records[k]);
            }
        }
    }
}

} // verus!
