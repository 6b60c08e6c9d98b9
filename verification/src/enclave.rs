//! The enclave's state: the ingress key, the egress key and the counter
//! table, and the operations that read and change them.
//!
//! The egress key and the counter table change together: every operation
//! that installs a new egress key also clears the table.

use crate::bytes::{bytes_equal, copy_bytes};
use crate::error::{Error, SealedKeyError};
use crate::ingest::{
    attempt_ingest_txs, attempt_state, lemma_enough_room_no_overflow,
    lemma_too_many_users_overflow, recipient_secrets, well_sized, Candidate, PendingRecord,
};
use crate::oram::MAX_BLOCKS;
use crate::prepared::{PreparedBlockData, TxsForIngest};
use crate::rng_store::{distinct_users, has_user, RngStore, Slots, KEX_RNG_ALGO_VERSION};
use vstd::prelude::*;

verus! {

/// How often a chunk is tried again, with a new egress key and an empty
/// table, before the enclave gives up on it.
pub const MAX_CHUNK_RETRIES: usize = 10;

/// The enclave's keys and counter table.
pub struct SgxIngestEnclave {
    ingress_key: Vec<u8>,
    egress_key: Vec<u8>,
    rng_store: Option<RngStore>,
}

/// A chunk that is being ingested: how often the egress key was rotated
/// for it, and the egress key and the counter table as they were when the
/// ingest began, to which the enclave goes back if the chunk is given up.
pub struct IngestSession {
    /// The prepared chunk.
    pub chunk: PreparedBlockData,
    /// The number of rotations that this chunk has caused so far.
    pub rotations: usize,
    /// The egress key that was in place when the ingest began.
    pub saved_egress_key: Vec<u8>,
    /// The counter table as it was when the ingest began.
    pub saved_store: RngStore,
}

impl IngestSession {
    /// The chunk and the saved table are well formed, and the retry bound
    /// was not passed.
    pub open spec fn wf(&self) -> bool {
        &&& self.chunk.wf()
        &&& self.rotations <= MAX_CHUNK_RETRIES
        &&& self.saved_store.wf()
    }
}

/// What the caller does after a round of ingest.
#[derive(Debug)]
pub enum IngestStep {
    /// The chunk is ingested. `egress_key_rotated` says whether the egress
    /// key changed on the way: its public key is then announced anew.
    Done { records: Vec<PendingRecord>, egress_key_rotated: bool },
    /// The table overflowed. The egress key was replaced and the table
    /// cleared: the caller computes the candidates again, under the new
    /// egress key, and runs another round.
    Retry,
}

impl SgxIngestEnclave {
    /// The bytes of the ingress private key.
    pub closed spec fn ingress(&self) -> Seq<u8> {
        self.ingress_key@
    }

    /// The bytes of the egress private key.
    pub closed spec fn egress(&self) -> Seq<u8> {
        self.egress_key@
    }

    /// Whether the counter table exists.
    pub closed spec fn initialized(&self) -> bool {
        self.rng_store.is_some()
    }

    /// The counter table, once the enclave is initialized.
    pub closed spec fn store(&self) -> RngStore {
        self.rng_store.unwrap()
    }

    /// The counter table, if there is one, is well formed.
    pub open spec fn wf(&self) -> bool {
        self.initialized() ==> self.store().wf()
    }

    /// A new enclave with the given keys and no counter table yet.
    pub fn new(ingress_key: Vec<u8>, egress_key: Vec<u8>) -> (enclave: SgxIngestEnclave)
        ensures
            enclave.wf(),
            !enclave.initialized(),
            enclave.ingress() == ingress_key@,
            enclave.egress() == egress_key@,
    {
        SgxIngestEnclave { ingress_key, egress_key, rng_store: None }
    }

    /// Initializes the enclave: installs the ingress key that was restored
    /// from a sealed blob, if one was given, and creates an empty counter
    /// table with room for `desired_capacity` users. Where the sealed key
    /// could not be restored, nothing changes and the failure is returned.
    pub fn enclave_init(
        &mut self,
        desired_capacity: usize,
        sealed_key: Option<Result<Vec<u8>, SealedKeyError>>,
    ) -> (res: Result<(), Error>)
        requires
            old(self).wf(),
            desired_capacity <= MAX_BLOCKS,
        ensures
            final(self).wf(),
            match sealed_key {
                Some(Err(failure)) => {
                    &&& res == Err::<(), Error>(Error::Sealing(failure))
                    &&& *final(self) == *old(self)
                },
                Some(Ok(key)) => {
                    &&& res.is_ok()
                    &&& final(self).ingress() == key@
                },
                None => {
                    &&& res.is_ok()
                    &&& final(self).ingress() == old(self).ingress()
                },
            },
            res.is_ok() ==> {
                &&& final(self).egress() == old(self).egress()
                &&& final(self).initialized()
                &&& final(self).store()@ == Slots::empty()
                &&& final(self).store().erased()
                &&& final(self).store().spec_capacity() == desired_capacity
            },
    {
        match sealed_key {
            Some(Err(failure)) => {
                return Err(Error::Sealing(failure));
            },
            Some(Ok(key)) => {
                self.ingress_key = key;
            },
            None => {},
        }
        self.rng_store = Some(RngStore::new(desired_capacity));
        Ok(())
    }

    /// The ingress private key.
    pub fn ingress_private_key(&self) -> (key: &Vec<u8>)
        ensures
            key@ == self.ingress(),
    {
        &self.ingress_key
    }

    /// The egress private key.
    pub fn egress_private_key(&self) -> (key: &Vec<u8>)
        ensures
            key@ == self.egress(),
    {
        &self.egress_key
    }

    /// Whether `enclave_init` has run.
    pub fn is_initialized(&self) -> (yes: bool)
        ensures
            yes == self.initialized(),
    {
        self.rng_store.is_some()
    }

    /// The ingress private key for a peer: a copy of it where the peer's
    /// session is known, the error for an unknown session where it is not.
    pub fn get_ingress_private_key(&self, peer_known: bool) -> (res: Result<Vec<u8>, Error>)
        ensures
            res.is_ok() == peer_known,
            res.is_ok() ==> res.unwrap()@ == self.ingress(),
            res.is_err() ==> res.unwrap_err() == Error::UnknownPeerSession,
    {
        if !peer_known {
            return Err(Error::UnknownPeerSession);
        }
        Ok(copy_bytes(&self.ingress_key))
    }

    /// Replaces the ingress key by one received from a peer, and says
    /// whether the key changed. The comparison takes constant time.
    pub fn set_ingress_private_key(&mut self, new_private_key: Vec<u8>) -> (did_private_key_change:
        bool)
        ensures
            did_private_key_change == (old(self).ingress() != new_private_key@),
            final(self).ingress() == new_private_key@,
            final(self).egress() == old(self).egress(),
            final(self).initialized() == old(self).initialized(),
            final(self).initialized() ==> final(self).store() == old(self).store(),
    {
        let same = bytes_equal(&self.ingress_key, &new_private_key);
        self.ingress_key = new_private_key;
        !same
    }

    /// The version of the counter scheme that goes with the egress public
    /// key.
    pub fn kex_rng_algo_version(&self) -> (version: u32)
        requires
            self.initialized(),
        ensures
            version == KEX_RNG_ALGO_VERSION,
    {
        match &self.rng_store {
            Some(store) => store.kex_rng_algo_version(),
            None => KEX_RNG_ALGO_VERSION,
        }
    }

    /// The capacity of the counter table.
    pub fn capacity(&self) -> (capacity: usize)
        requires
            self.initialized(),
        ensures
            capacity == self.store().spec_capacity(),
    {
        match &self.rng_store {
            Some(store) => store.capacity(),
            None => 0,
        }
    }

    /// Installs a new ingress key and a new egress key, and clears the
    /// counter table.
    pub fn new_keys(&mut self, ingress_key: Vec<u8>, egress_key: Vec<u8>)
        requires
            old(self).wf(),
            old(self).initialized(),
        ensures
            final(self).wf(),
            final(self).initialized(),
            final(self).ingress() == ingress_key@,
            final(self).egress() == egress_key@,
            final(self).store()@ == Slots::empty(),
            final(self).store().erased(),
            final(self).store().spec_capacity() == old(self).store().spec_capacity(),
    {
        self.ingress_key = ingress_key;
        self.new_egress_key(egress_key);
    }

    /// Installs a new egress key and clears the counter table.
    pub fn new_egress_key(&mut self, egress_key: Vec<u8>)
        requires
            old(self).wf(),
            old(self).initialized(),
        ensures
            final(self).wf(),
            final(self).initialized(),
            final(self).ingress() == old(self).ingress(),
            final(self).egress() == egress_key@,
            final(self).store()@ == Slots::empty(),
            final(self).store().erased(),
            final(self).store().spec_capacity() == old(self).store().spec_capacity(),
    {
        self.egress_key = egress_key;
        match &mut self.rng_store {
            Some(store) => {
                store.clear();
            },
            None => {},
        }
    }

    /// Starts the ingest of a chunk: prepares it, and rejects it as a
    /// whole where an output is malformed. For a chunk that is accepted,
    /// the session keeps the egress key and a copy of the counter table.
    /// The enclave holds afterwards what it held before.
    pub fn begin_ingest(&mut self, chunk: TxsForIngest) -> (res: Result<IngestSession, Error>)
        requires
            old(self).wf(),
            old(self).initialized(),
        ensures
            final(self).wf(),
            final(self).initialized(),
            final(self).ingress() == old(self).ingress(),
            final(self).egress() == old(self).egress(),
            final(self).store()@ == old(self).store()@,
            final(self).store().spec_capacity() == old(self).store().spec_capacity(),
            match res {
                Ok(session) => {
                    &&& chunk.all_amounts_present()
                    &&& session.wf()
                    &&& session.rotations == 0
                    &&& session.chunk.tx_outs@ == chunk.redacted_txs@
                    &&& session.chunk.block_index == chunk.block_index
                    &&& session.chunk.global_txo_index == chunk.global_txo_index
                    &&& session.chunk.timestamp == chunk.timestamp
                    &&& session.saved_egress_key@ == old(self).egress()
                    &&& session.saved_store@ == old(self).store()@
                    &&& session.saved_store.spec_capacity() == old(self).store().spec_capacity()
                },
                Err(err) => {
                    &&& !chunk.all_amounts_present()
                    &&& err == Error::InvalidBlockData(
                        crate::error::FogTxOutError::MissingMaskedAmount,
                    )
                },
            },
    {
        match PreparedBlockData::try_from(chunk) {
            Ok(prepared) => {
                let saved_egress_key = copy_bytes(&self.egress_key);
                match &mut self.rng_store {
                    Some(store) => {
                        let saved_store = store.snapshot();
                        Ok(
                            IngestSession {
                                chunk: prepared,
                                rotations: 0,
                                saved_egress_key,
                                saved_store,
                            },
                        )
                    },
                    None => vstd::pervasive::unreached(),
                }
            },
            Err(err) => Err(err),
        }
    }

    /// One round of ingest. `candidates` holds, for each output of the
    /// chunk, what hint decryption and key exchange under the current
    /// egress key gave; `spare_egress_key` is a new key, used only if the
    /// round rotates.
    ///
    /// The round runs one attempt over the whole chunk. Without overflow
    /// it is done, and hands out the records. On overflow it gives up
    /// with the chunk's size, the retry bound and the table's capacity if
    /// the chunk has already caused `MAX_CHUNK_RETRIES` rotations, and
    /// puts back the egress key and the table that the session saved: a
    /// chunk that is given up leaves the enclave as it was when its
    /// ingest began. Otherwise it installs the spare key, clears the
    /// table, counts the rotation and asks for another round.
    ///
    /// A round is one step of `ingest_outcome`: whatever candidates the
    /// other rounds are handed, the outcome of the whole ingest from this
    /// round on is this round's result, or that of the rounds after it.
    pub fn ingest_round(
        &mut self,
        session: &mut IngestSession,
        candidates: &Vec<Candidate>,
        spare_egress_key: Vec<u8>,
    ) -> (res: Result<IngestStep, Error>)
        requires
            old(self).wf(),
            old(self).initialized(),
            old(session).wf(),
            old(session).chunk.indices_fit(),
            old(session).saved_store.spec_capacity() == old(self).store().spec_capacity(),
            candidates@.len() == old(session).chunk.tx_outs@.len(),
            well_sized(candidates@),
        ensures
            final(self).wf(),
            final(self).initialized(),
            final(session).wf(),
            final(session).chunk == old(session).chunk,
            final(self).ingress() == old(self).ingress(),
            final(self).store().spec_capacity() == old(self).store().spec_capacity(),
            ({
                let end = attempt_state(
                    old(session).chunk,
                    candidates@,
                    old(self).store()@,
                    old(self).store().spec_capacity(),
                    candidates@.len(),
                );
                if !end.overflowed {
                    &&& res matches Ok(IngestStep::Done { records, egress_key_rotated })
                    &&& records@ == end.records
                    &&& egress_key_rotated == (old(session).rotations > 0)
                    &&& final(self).store()@ == end.slots
                    &&& final(self).egress() == old(self).egress()
                    &&& final(session).rotations == old(session).rotations
                    &&& final(session).saved_egress_key@ == old(session).saved_egress_key@
                    &&& final(session).saved_store == old(session).saved_store
                } else if old(session).rotations == MAX_CHUNK_RETRIES {
                    &&& res matches Err(err)
                    &&& err == Error::ChunkTooBig(
                        candidates@.len() as usize,
                        MAX_CHUNK_RETRIES,
                        old(self).store().spec_capacity() as usize,
                    )
                    &&& final(self).store()@ == old(session).saved_store@
                    &&& final(self).egress() == old(session).saved_egress_key@
                    &&& final(session).rotations == old(session).rotations
                } else {
                    &&& res matches Ok(IngestStep::Retry)
                    &&& final(self).store()@ == Slots::empty()
                    &&& final(self).store().erased()
                    &&& final(self).egress() == spare_egress_key@
                    &&& final(session).rotations == old(session).rotations + 1
                    &&& final(session).saved_egress_key@ == old(session).saved_egress_key@
                    &&& final(session).saved_store == old(session).saved_store
                }
            }),
            forall|rounds: Seq<Seq<Candidate>>| #[trigger]
                rounds[old(session).rotations as int] == candidates@ ==> {
                    let whole = ingest_outcome(
                        old(session).chunk,
                        rounds,
                        old(self).store()@,
                        old(self).store().spec_capacity(),
                        old(session).rotations as nat,
                    );
                    match res {
                        Ok(IngestStep::Done { records, .. }) => whole == (IngestOutcome::Done {
                            records: records@,
                            slots: final(self).store()@,
                            rotations: old(session).rotations as nat,
                        }),
                        Ok(IngestStep::Retry) => whole == ingest_outcome(
                            old(session).chunk,
                            rounds,
                            final(self).store()@,
                            old(self).store().spec_capacity(),
                            final(session).rotations as nat,
                        ),
                        Err(_) => whole == IngestOutcome::GaveUp,
                    }
                },
    {
        let attempt = match &mut self.rng_store {
            Some(store) => attempt_ingest_txs(&session.chunk, candidates, store),
            None => None,
        };
        match attempt {
            Some(records) => Ok(
                IngestStep::Done { records, egress_key_rotated: session.rotations > 0 },
            ),
            None => {
                if session.rotations >= MAX_CHUNK_RETRIES {
                    let capacity = self.capacity();
                    match &mut self.rng_store {
                        Some(store) => {
                            std::mem::swap(store, &mut session.saved_store);
                        },
                        None => {},
                    }
                    self.egress_key = copy_bytes(&session.saved_egress_key);
                    return Err(
                        Error::ChunkTooBig(session.chunk.len(), MAX_CHUNK_RETRIES, capacity),
                    );
                }
                session.rotations += 1;
                self.new_egress_key(spare_egress_key);
                Ok(IngestStep::Retry)
            },
        }
    }
}

/// What the ingest of a chunk comes to.
pub enum IngestOutcome {
    /// The chunk was ingested in the round numbered `rotations`, counted
    /// from 0: the records of that round, and the table after it.
    Done { records: Seq<PendingRecord>, slots: Slots, rotations: nat },
    /// Every round up to the retry bound overflowed.
    GaveUp,
}

/// What the rounds from round `k` on come to, where `slots` is the table
/// that round `k` starts on and `rounds[j]` are the candidates handed to
/// round `j`. Each step is one `ingest_round`: without overflow the ingest
/// is done; at the retry bound it is given up; otherwise the next round
/// starts on an empty table.
pub open spec fn ingest_outcome(
    chunk: PreparedBlockData,
    rounds: Seq<Seq<Candidate>>,
    slots: Slots,
    capacity: nat,
    k: nat,
) -> IngestOutcome
    decreases MAX_CHUNK_RETRIES - k,
{
    let end = attempt_state(chunk, rounds[k as int], slots, capacity, rounds[k as int].len());
    if !end.overflowed {
        IngestOutcome::Done { records: end.records, slots: end.slots, rotations: k }
    } else if k >= MAX_CHUNK_RETRIES {
        IngestOutcome::GaveUp
    } else {
        ingest_outcome(chunk, rounds, Slots::empty(), capacity, k + 1)
    }
}

/// Where the users of the table and the recipients of the chunk are,
/// taken together, no more than the table has room for, the ingest is
/// done in its first round, without a rotation, with the records of that
/// one attempt.
pub proof fn lemma_ingest_with_enough_room(
    chunk: PreparedBlockData,
    rounds: Seq<Seq<Candidate>>,
    slots: Slots,
    capacity: nat,
    room: Set<Seq<u8>>,
)
    requires
        rounds.len() > 0,
        distinct_users(slots),
        room.finite(),
        room.len() <= capacity,
        forall|s: Seq<u8>| has_user(slots, s) ==> room.contains(s),
        forall|s: Seq<u8>|
            recipient_secrets(rounds[0], rounds[0].len()).contains(s) ==> room.contains(s),
    ensures
        ingest_outcome(chunk, rounds, slots, capacity, 0) == (IngestOutcome::Done {
            records: attempt_state(chunk, rounds[0], slots, capacity, rounds[0].len()).records,
            slots: attempt_state(chunk, rounds[0], slots, capacity, rounds[0].len()).slots,
            rotations: 0,
        }),
{
    lemma_enough_room_no_overflow(chunk, rounds[0], slots, capacity, rounds[0].len(), room);
}

/// Where every round from `k` on meets more distinct users than the table
/// has room for, the ingest is given up, and only after the round at the
/// retry bound: no such chunk is ever ingested with users left out.
pub proof fn lemma_ingest_of_too_many_users(
    chunk: PreparedBlockData,
    rounds: Seq<Seq<Candidate>>,
    slots: Slots,
    capacity: nat,
    k: nat,
)
    requires
        k <= MAX_CHUNK_RETRIES < rounds.len(),
        distinct_users(slots),
        slots.len() <= capacity,
        forall|j: int|
            k <= j <= MAX_CHUNK_RETRIES ==> (#[trigger] recipient_secrets(
                rounds[j],
                rounds[j].len(),
            )).len() > capacity,
    ensures
        ingest_outcome(chunk, rounds, slots, capacity, k) == IngestOutcome::GaveUp,
    decreases MAX_CHUNK_RETRIES - k,
{
    assert(recipient_secrets(rounds[k as int], rounds[k as int].len()).len() > capacity);
    lemma_too_many_users_overflow(chunk, rounds[k as int], slots, capacity);
    if k < MAX_CHUNK_RETRIES {
        lemma_ingest_of_too_many_users(chunk, rounds, Slots::empty(), capacity, k + 1);
    }
}

/// An ingest that is done after a rotation hands out the records of an
/// attempt that started on an empty table, and every round before it
/// overflowed. An ingest that is done in round `k` itself hands out the
/// records of the attempt on `slots`.
pub proof fn lemma_ingest_done_after_rotation(
    chunk: PreparedBlockData,
    rounds: Seq<Seq<Candidate>>,
    slots: Slots,
    capacity: nat,
    k: nat,
)
    requires
        k <= MAX_CHUNK_RETRIES < rounds.len(),
    ensures
        match ingest_outcome(chunk, rounds, slots, capacity, k) {
            IngestOutcome::Done { records, slots: table, rotations } => {
                let first = attempt_state(
                    chunk,
                    rounds[k as int],
                    slots,
                    capacity,
                    rounds[k as int].len(),
                );
                let last = attempt_state(
                    chunk,
                    rounds[rotations as int],
                    Slots::empty(),
                    capacity,
                    rounds[rotations as int].len(),
                );
                &&& k <= rotations <= MAX_CHUNK_RETRIES
                &&& rotations == k ==> !first.overflowed && records == first.records && table
                    == first.slots
                &&& rotations > k ==> first.overflowed && !last.overflowed && records
                    == last.records && table == last.slots
            },
            IngestOutcome::GaveUp => attempt_state(
                chunk,
                rounds[k as int],
                slots,
                capacity,
                rounds[k as int].len(),
            ).overflowed,
        },
    decreases MAX_CHUNK_RETRIES - k,
{
    let first = attempt_state(chunk, rounds[k as int], slots, capacity, rounds[k as int].len());
    if first.overflowed && k < MAX_CHUNK_RETRIES {
        lemma_ingest_done_after_rotation(chunk, rounds, Slots::empty(), capacity, k + 1);
    }
}

} // verus!
