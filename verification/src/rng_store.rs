//! The counter table: one advancing counter per user, found by the user's
//! key-exchange secret, with a fixed capacity.
//!
//! The slots live in oblivious block storage, one block per user. Every
//! lookup reads all the blocks, compares secrets in constant time and
//! records a match by a conditional move, so neither the number of steps
//! nor the blocks touched depend on which slot holds the user.

use crate::bytes::{cmov_u64, ct_eq_bytes};
use crate::oram::{
    storage_blocks, storage_new, storage_read, storage_write, zero_block, BlockStorage, BLOCK_LEN,
    MAX_BLOCKS,
};
use vstd::prelude::*;
use vstd::slice::slice_subrange;

verus! {

/// The counter that a user starts from when first seen, and again after the
/// table was cleared.
pub const INITIAL_COUNTER: u64 = 0;

/// The version of the counter scheme that the table reports.
pub const KEX_RNG_ALGO_VERSION: u32 = 0;

/// The length of a user's secret in bytes.
pub const SECRET_LEN: usize = 32;

/// What the table holds, oldest user first: each user's secret and the
/// counter that the user is handed next.
pub type Slots = Seq<(Seq<u8>, u64)>;

/// Whether some slot of `slots` belongs to `secret`.
pub open spec fn has_user(slots: Slots, secret: Seq<u8>) -> bool {
    exists|i: int| 0 <= i < slots.len() && (#[trigger] slots[i]).0 == secret
}

/// The slot of `secret`, where `has_user` holds.
pub open spec fn slot_of(slots: Slots, secret: Seq<u8>) -> int {
    choose|i: int| 0 <= i < slots.len() && (#[trigger] slots[i]).0 == secret
}

/// No two slots belong to the same secret.
pub open spec fn distinct_users(slots: Slots) -> bool {
    forall|i: int, j: int|
        0 <= i < slots.len() && 0 <= j < slots.len() && i != j ==> (#[trigger] slots[i]).0 != (
        #[trigger] slots[j]).0
}

/// The counter after `counter`; it wraps round at the top of `u64`.
pub open spec fn next_counter(counter: u64) -> u64 {
    if counter == u64::MAX {
        0
    } else {
        (counter + 1) as u64
    }
}

/// Whether a query for `secret` finds the table full: the user is new and
/// no slot is free.
pub open spec fn overflows(slots: Slots, capacity: nat, secret: Seq<u8>) -> bool {
    !has_user(slots, secret) && slots.len() >= capacity
}

/// The counter that a query for `secret` is answered with, where it does
/// not overflow.
pub open spec fn issued_counter(slots: Slots, secret: Seq<u8>) -> u64 {
    if has_user(slots, secret) {
        slots[slot_of(slots, secret)].1
    } else {
        INITIAL_COUNTER
    }
}

/// The table after a query for `secret`: a known user's counter advances, a
/// new user takes the next free slot, and an overflow changes nothing.
pub open spec fn slots_after_query(slots: Slots, capacity: nat, secret: Seq<u8>) -> Slots {
    if has_user(slots, secret) {
        let i = slot_of(slots, secret);
        slots.update(i, (secret, next_counter(slots[i].1)))
    } else if slots.len() < capacity {
        slots.push((secret, next_counter(INITIAL_COUNTER)))
    } else {
        slots
    }
}

/// The secrets of the users in the table.
pub open spec fn users(slots: Slots) -> Set<Seq<u8>> {
    slots.map_values(|s: (Seq<u8>, u64)| s.0).to_set()
}

/// The number that eight bytes stand for, lowest byte first.
pub open spec fn le_u64(b: Seq<u8>) -> u64 {
    (b[0] as u64) | (b[1] as u64) << 8 | (b[2] as u64) << 16 | (b[3] as u64) << 24 | (b[4] as u64)
        << 32 | (b[5] as u64) << 40 | (b[6] as u64) << 48 | (b[7] as u64) << 56
}

/// The secret that a block holds: its first 32 bytes.
pub open spec fn block_secret(block: Seq<u8>) -> Seq<u8> {
    block.subrange(0, SECRET_LEN as int)
}

/// The counter that a block holds: the eight bytes after the secret.
pub open spec fn block_counter(block: Seq<u8>) -> u64 {
    le_u64(block.subrange(SECRET_LEN as int, SECRET_LEN + 8))
}

/// Splitting a number into its eight bytes and putting them together
/// again gives the number.
proof fn lemma_le_bytes(c: u64)
    ensures
        ((c & 0xff) | ((c >> 8) & 0xff) << 8 | ((c >> 16) & 0xff) << 16 | ((c >> 24) & 0xff) << 24
            | ((c >> 32) & 0xff) << 32 | ((c >> 40) & 0xff) << 40 | ((c >> 48) & 0xff) << 48 | ((c
            >> 56) & 0xff) << 56) == c,
        (c & 0xff) < 256,
        ((c >> 8) & 0xff) < 256,
        ((c >> 16) & 0xff) < 256,
        ((c >> 24) & 0xff) < 256,
        ((c >> 32) & 0xff) < 256,
        ((c >> 40) & 0xff) < 256,
        ((c >> 48) & 0xff) < 256,
        ((c >> 56) & 0xff) < 256,
{
    assert(((c & 0xff) | ((c >> 8) & 0xff) << 8 | ((c >> 16) & 0xff) << 16 | ((c >> 24) & 0xff)
        << 24 | ((c >> 32) & 0xff) << 32 | ((c >> 40) & 0xff) << 40 | ((c >> 48) & 0xff) << 48 | ((c
        >> 56) & 0xff) << 56) == c) by (bit_vector);
    assert((c & 0xff) < 256 && ((c >> 8) & 0xff) < 256 && ((c >> 16) & 0xff) < 256 && ((c >> 24)
        & 0xff) < 256 && ((c >> 32) & 0xff) < 256 && ((c >> 40) & 0xff) < 256 && ((c >> 48) & 0xff)
        < 256 && ((c >> 56) & 0xff) < 256) by (bit_vector);
}

/// The block that holds `secret` and `counter`: the secret, the counter
/// lowest byte first, and zeros up to the block's length.
fn encode_block(secret: &Vec<u8>, counter: u64) -> (block: Vec<u8>)
    requires
        secret@.len() == SECRET_LEN,
    ensures
        block@.len() == BLOCK_LEN,
        block_secret(block@) == secret@,
        block_counter(block@) == counter,
{
    let mut block: Vec<u8> = Vec::new();
    let mut i: usize = 0;
    while i < SECRET_LEN
        invariant
            i <= SECRET_LEN,
            secret@.len() == SECRET_LEN,
            block@ == secret@.subrange(0, i as int),
        decreases SECRET_LEN - i,
    {
        block.push(secret[i]);
        i += 1;
    }
    proof {
        lemma_le_bytes(counter);
    }
    block.push((counter & 0xff) as u8);
    block.push(((counter >> 8) & 0xff) as u8);
    block.push(((counter >> 16) & 0xff) as u8);
    block.push(((counter >> 24) & 0xff) as u8);
    block.push(((counter >> 32) & 0xff) as u8);
    block.push(((counter >> 40) & 0xff) as u8);
    block.push(((counter >> 48) & 0xff) as u8);
    block.push(((counter >> 56) & 0xff) as u8);
    let ghost filled = block@;
    while i < BLOCK_LEN - 8
        invariant
            SECRET_LEN <= i <= BLOCK_LEN - 8,
            block@.len() == i + 8,
            block@.subrange(0, SECRET_LEN + 8) == filled,
            filled.len() == SECRET_LEN + 8,
        decreases BLOCK_LEN - i,
    {
        block.push(0u8);
        i += 1;
    }
    assert(block_secret(block@) =~= secret@) by {
        assert(filled.subrange(0, SECRET_LEN as int) =~= secret@);
        assert(block@.subrange(0, SECRET_LEN as int) =~= block@.subrange(
            0,
            SECRET_LEN + 8,
        ).subrange(0, SECRET_LEN as int));
    }
    assert(block_counter(block@) == counter) by {
        let bytes = block@.subrange(SECRET_LEN as int, SECRET_LEN + 8);
        assert(bytes =~= filled.subrange(SECRET_LEN as int, SECRET_LEN + 8)) by {
            assert forall|k: int| 0 <= k < 8 implies bytes[k] == filled[SECRET_LEN + k] by {
                assert(block@.subrange(0, SECRET_LEN + 8)[SECRET_LEN + k] == block@[SECRET_LEN
                    + k]);
            }
        }
        assert(bytes[0] as u64 == counter & 0xff);
        assert(bytes[1] as u64 == (counter >> 8) & 0xff);
        assert(bytes[2] as u64 == (counter >> 16) & 0xff);
        assert(bytes[3] as u64 == (counter >> 24) & 0xff);
        assert(bytes[4] as u64 == (counter >> 32) & 0xff);
        assert(bytes[5] as u64 == (counter >> 40) & 0xff);
        assert(bytes[6] as u64 == (counter >> 48) & 0xff);
        assert(bytes[7] as u64 == (counter >> 56) & 0xff);
    }
    block
}

/// The counter that a block holds.
fn decode_counter(block: &Vec<u8>) -> (counter: u64)
    requires
        block@.len() == BLOCK_LEN,
    ensures
        counter == block_counter(block@),
{
    (block[32] as u64) | (block[33] as u64) << 8 | (block[34] as u64) << 16 | (block[35] as u64)
        << 24 | (block[36] as u64) << 32 | (block[37] as u64) << 40 | (block[38] as u64) << 48 | (
    block[39] as u64) << 56
}

/// The bounded counter table.
pub struct RngStore {
    capacity: usize,
    used: u64,
    storage: BlockStorage,
}

impl RngStore {
    /// The slots, oldest first: what the blocks in use hold.
    pub closed spec fn view(&self) -> Slots {
        Seq::new(
            self.used as nat,
            |i: int|
                (
                    block_secret(storage_blocks(self.storage)[i]),
                    block_counter(storage_blocks(self.storage)[i]),
                ),
        )
    }

    /// The number of users that the table has room for.
    pub closed spec fn spec_capacity(&self) -> nat {
        self.capacity as nat
    }

    /// The storage has one block of the right size for each slot, and the
    /// blocks in use are the first ones.
    pub closed spec fn storage_wf(&self) -> bool {
        &&& storage_blocks(self.storage).len() == self.capacity
        &&& self.capacity <= MAX_BLOCKS
        &&& self.used <= self.capacity
        &&& forall|i: int|
            0 <= i < self.capacity ==> (#[trigger] storage_blocks(self.storage)[i]).len()
                == BLOCK_LEN
    }

    /// Every block of the storage holds zeros only: nothing in it tells
    /// which users the table held before.
    pub closed spec fn erased(&self) -> bool {
        forall|i: int|
            0 <= i < storage_blocks(self.storage).len() ==> #[trigger] storage_blocks(
                self.storage,
            )[i] == zero_block()
    }

    /// The table holds no user twice, no more users than its capacity, and
    /// secrets of the fixed length only.
    pub open spec fn wf(&self) -> bool {
        &&& self.storage_wf()
        &&& distinct_users(self@)
        &&& self@.len() <= self.spec_capacity()
        &&& forall|i: int| 0 <= i < self@.len() ==> (#[trigger] self@[i]).0.len() == SECRET_LEN
    }

    /// An empty table with room for `capacity` users.
    pub fn new(capacity: usize) -> (store: RngStore)
        requires
            capacity <= MAX_BLOCKS,
        ensures
            store.wf(),
            store.erased(),
            store@ == Slots::empty(),
            store.spec_capacity() == capacity,
    {
        let size: u64 = capacity as u64;
        let store = RngStore { capacity, used: 0, storage: storage_new(size) };
        assert(store@ =~= Slots::empty());
        store
    }

    /// The number of users that the table has room for.
    pub fn capacity(&self) -> (capacity: usize)
        ensures
            capacity == self.spec_capacity(),
    {
        self.capacity
    }

    /// The number of users in the table.
    pub fn len(&self) -> (len: u64)
        ensures
            len == self@.len(),
    {
        self.used
    }

    /// The version of the counter scheme.
    pub fn kex_rng_algo_version(&self) -> (version: u32)
        ensures
            version == KEX_RNG_ALGO_VERSION,
    {
        KEX_RNG_ALGO_VERSION
    }

    /// The slot that belongs to `secret`, or the capacity if no slot does.
    /// Reads every block, and takes no branch on what the blocks hold.
    fn find(&mut self, secret: &Vec<u8>) -> (position: u64)
        requires
            old(self).wf(),
            secret@.len() == SECRET_LEN,
        ensures
            final(self).capacity == old(self).capacity,
            final(self).used == old(self).used,
            storage_blocks(final(self).storage) == storage_blocks(old(self).storage),
            position <= old(self).capacity,
            (position < old(self).capacity) == has_user(old(self)@, secret@),
            position < old(self).capacity ==> position == slot_of(old(self)@, secret@) && position
                < old(self)@.len(),
    {
        let size: u64 = self.capacity as u64;
        let mut position: u64 = size;
        let mut i: u64 = 0;
        while i < size
            invariant
                i <= size,
                size == self.capacity,
                self.capacity == old(self).capacity,
                self.used == old(self).used,
                storage_blocks(self.storage) == storage_blocks(old(self).storage),
                self.wf(),
                position <= size,
                position < size ==> position < i && position < self@.len() && self@[position as int].0
                    == secret@,
                position == size ==> forall|j: int|
                    0 <= j < i && j < self@.len() ==> (#[trigger] self@[j]).0 != secret@,
            decreases size - i,
        {
            let block = storage_read(&mut self.storage, i);
            let stored = slice_subrange(block.as_slice(), 0, SECRET_LEN);
            let same = ct_eq_bytes(stored, secret.as_slice());
            if i < self.used {
                proof {
                    if same && position < size {
                        assert(self@[position as int].0 == self@[i as int].0);
                    }
                }
                cmov_u64(same, i, &mut position);
            }
            i += 1;
        }
        proof {
            if position < size {
                assert(self@[position as int].0 == secret@);
                let k = slot_of(self@, secret@);
                assert(k == position);
            }
        }
        position
    }

    /// Hands out the next counter of the user with `secret`, and advances
    /// it. A user not seen before takes a free slot and starts from
    /// `INITIAL_COUNTER`. With no free slot left for a new user the table
    /// stays as it is and `overflow` is set; the counter returned is then
    /// `INITIAL_COUNTER` and stands for nothing.
    ///
    /// Unless it overflows, a query reads one block and writes one block,
    /// whether the user was known or not.
    pub fn next_rng_output(&mut self, secret: &Vec<u8>) -> (out: (bool, u64))
        requires
            old(self).wf(),
            secret@.len() == SECRET_LEN,
        ensures
            final(self).wf(),
            final(self).spec_capacity() == old(self).spec_capacity(),
            out.0 == overflows(old(self)@, old(self).spec_capacity(), secret@),
            out.1 == if out.0 {
                INITIAL_COUNTER
            } else {
                issued_counter(old(self)@, secret@)
            },
            final(self)@ == slots_after_query(old(self)@, old(self).spec_capacity(), secret@),
    {
        let size: u64 = self.capacity as u64;
        let position = self.find(secret);
        let known: bool = position < size;
        if self.used >= size {
            if !known {
                return (true, INITIAL_COUNTER);
            }
        }
        let mut target: u64 = self.used;
        cmov_u64(known, position, &mut target);
        let block = storage_read(&mut self.storage, target);
        let mut counter: u64 = INITIAL_COUNTER;
        cmov_u64(known, decode_counter(&block), &mut counter);
        let updated = encode_block(secret, counter.wrapping_add(1));
        storage_write(&mut self.storage, target, &updated);
        let mut used: u64 = self.used + 1;
        cmov_u64(known, self.used, &mut used);
        self.used = used;
        proof {
            if known {
                assert(self@ =~= old(self)@.update(
                    target as int,
                    (secret@, next_counter(counter)),
                ));
            } else {
                assert(self@ =~= old(self)@.push((secret@, next_counter(INITIAL_COUNTER))));
            }
            lemma_query_keeps_wf(old(self)@, old(self).spec_capacity(), secret@);
        }
        (false, counter)
    }

    /// A second table that holds what this one holds, block for block,
    /// with the same capacity. Every block is read once; this table is
    /// left as it was.
    pub fn snapshot(&mut self) -> (copy: RngStore)
        requires
            old(self).wf(),
        ensures
            final(self).wf(),
            final(self)@ == old(self)@,
            final(self).spec_capacity() == old(self).spec_capacity(),
            copy.wf(),
            copy@ == old(self)@,
            copy.spec_capacity() == old(self).spec_capacity(),
    {
        let size: u64 = self.capacity as u64;
        let mut storage = storage_new(size);
        let mut i: u64 = 0;
        while i < size
            invariant
                i <= size,
                size == self.capacity,
                self.capacity == old(self).capacity,
                self.used == old(self).used,
                storage_blocks(self.storage) == storage_blocks(old(self).storage),
                self.wf(),
                storage_blocks(storage).len() == size,
                forall|j: int|
                    0 <= j < size ==> (#[trigger] storage_blocks(storage)[j]).len() == BLOCK_LEN,
                forall|j: int|
                    0 <= j < i ==> #[trigger] storage_blocks(storage)[j] == storage_blocks(
                        self.storage,
                    )[j],
            decreases size - i,
        {
            let block = storage_read(&mut self.storage, i);
            storage_write(&mut storage, i, &block);
            i += 1;
        }
        let copy = RngStore { capacity: self.capacity, used: self.used, storage };
        assert(copy@ =~= self@);
        assert(self@ =~= old(self)@);
        copy
    }

    /// Forgets every user: every block is overwritten with zeros. The
    /// capacity stays.
    pub fn clear(&mut self)
        requires
            old(self).wf(),
        ensures
            final(self).wf(),
            final(self).erased(),
            final(self)@ == Slots::empty(),
            final(self).spec_capacity() == old(self).spec_capacity(),
    {
        let mut zeros: Vec<u8> = Vec::new();
        let mut k: usize = 0;
        while k < BLOCK_LEN
            invariant
                k <= BLOCK_LEN,
                zeros@.len() == k,
                forall|j: int| 0 <= j < k ==> zeros@[j] == 0u8,
            decreases BLOCK_LEN - k,
        {
            zeros.push(0u8);
            k += 1;
        }
        assert(zeros@ =~= zero_block());
        self.used = 0;
        let size: u64 = self.capacity as u64;
        let mut i: u64 = 0;
        while i < size
            invariant
                i <= size,
                size == self.capacity,
                zeros@ == zero_block(),
                self.storage_wf(),
                forall|j: int|
                    0 <= j < i ==> #[trigger] storage_blocks(self.storage)[j] == zero_block(),
                self.used == 0,
                self.capacity == old(self).capacity,
            decreases size - i,
        {
            storage_write(&mut self.storage, i, &zeros);
            i += 1;
        }
        assert(self@ =~= Slots::empty());
    }
}

/// A table that is well formed holds at most as many distinct users as its
/// capacity.
pub proof fn lemma_users_bounded(store: &RngStore)
    requires
        store.wf(),
    ensures
        users(store@).finite(),
        users(store@).len() <= store.spec_capacity(),
{
    let keys = store@.map_values(|s: (Seq<u8>, u64)| s.0);
    keys.lemma_cardinality_of_set();
}

/// A query that does not overflow leaves its user in the table, and keeps
/// every user that was there.
pub proof fn lemma_query_keeps_users(slots: Slots, capacity: nat, secret: Seq<u8>)
    ensures
        !overflows(slots, capacity, secret) ==> has_user(
            slots_after_query(slots, capacity, secret),
            secret,
        ),
        forall|other: Seq<u8>|
            has_user(slots, other) ==> has_user(slots_after_query(slots, capacity, secret), other),
{
    let after = slots_after_query(slots, capacity, secret);
    if has_user(slots, secret) {
        let i = slot_of(slots, secret);
        assert(after[i].0 == secret);
    } else if slots.len() < capacity {
        assert(after[slots.len() as int].0 == secret);
    }
    assert forall|other: Seq<u8>| has_user(slots, other) implies has_user(after, other) by {
        let j = slot_of(slots, other);
        assert(after[j].0 == other);
    }
}

/// A query keeps the table well formed: no user twice, and no more users
/// than the capacity.
pub proof fn lemma_query_keeps_wf(slots: Slots, capacity: nat, secret: Seq<u8>)
    requires
        distinct_users(slots),
        slots.len() <= capacity,
    ensures
        distinct_users(slots_after_query(slots, capacity, secret)),
        slots_after_query(slots, capacity, secret).len() <= capacity,
{
    let after = slots_after_query(slots, capacity, secret);
    assert forall|a: int, b: int|
        0 <= a < after.len() && 0 <= b < after.len() && a != b implies (#[trigger] after[a]).0 != (
    #[trigger] after[b]).0 by {
        if has_user(slots, secret) {
            assert(after[a].0 == slots[a].0);
            assert(after[b].0 == slots[b].0);
        } else if slots.len() < capacity {
            if a < slots.len() {
                assert(after[a] == slots[a]);
            }
            if b < slots.len() {
                assert(after[b] == slots[b]);
            }
        }
    }
}

/// In an empty table nobody is known: whoever is queried next starts from
/// `INITIAL_COUNTER`, whatever the counter was before the table was
/// cleared.
pub proof fn lemma_cleared_table_restarts(secret: Seq<u8>)
    ensures
        !has_user(Slots::empty(), secret),
        issued_counter(Slots::empty(), secret) == INITIAL_COUNTER,
{
}

/// A user known to the table is handed the stored counter, and finds the
/// next one stored afterwards: the counter of a user advances by one with
/// each query.
pub proof fn lemma_known_user_advances(slots: Slots, capacity: nat, secret: Seq<u8>)
    requires
        distinct_users(slots),
        has_user(slots, secret),
    ensures
        !overflows(slots, capacity, secret),
        has_user(slots_after_query(slots, capacity, secret), secret),
        issued_counter(slots_after_query(slots, capacity, secret), secret) == next_counter(
            issued_counter(slots, secret),
        ),
{
    let after = slots_after_query(slots, capacity, secret);
    let i = slot_of(slots, secret);
    assert(after[i].0 == secret);
    let j = slot_of(after, secret);
    assert(after[j].0 == secret);
    if j != i {
        assert(slots[j].0 == after[j].0);
        assert(slots[i].0 == secret);
    }
}

/// The users of a table are exactly the secrets that some slot belongs
/// to, and a table that holds no user twice has as many users as slots.
pub proof fn lemma_users_are_slots(slots: Slots)
    requires
        distinct_users(slots),
    ensures
        users(slots).finite(),
        users(slots).len() == slots.len(),
        forall|secret: Seq<u8>| users(slots).contains(secret) <==> has_user(slots, secret),
{
    let keys = slots.map_values(|s: (Seq<u8>, u64)| s.0);
    assert forall|secret: Seq<u8>| users(slots).contains(secret) <==> has_user(
        slots,
        secret,
    ) by {
        if users(slots).contains(secret) {
            let i = choose|i: int| 0 <= i < keys.len() && keys[i] == secret;
            assert(slots[i].0 == secret);
        }
        if has_user(slots, secret) {
            let i = slot_of(slots, secret);
            assert(keys[i] == secret);
        }
    }
    assert(keys.no_duplicates()) by {
        assert forall|i: int, j: int|
            0 <= i < keys.len() && 0 <= j < keys.len() && i != j implies keys[i] != keys[j] by {
            assert(slots[i].0 != slots[j].0);
        }
    }
    keys.unique_seq_to_set();
    vstd::seq_lib::seq_to_set_is_finite(keys);
}

/// A query brings no user into the table but its own.
pub proof fn lemma_query_adds_only_its_user(slots: Slots, capacity: nat, secret: Seq<u8>)
    ensures
        forall|other: Seq<u8>|
            has_user(slots_after_query(slots, capacity, secret), other) ==> has_user(slots, other)
                || other == secret,
{
    let after = slots_after_query(slots, capacity, secret);
    assert forall|other: Seq<u8>| has_user(after, other) implies has_user(slots, other) || other
        == secret by {
        let j = slot_of(after, other);
        if has_user(slots, secret) {
            let i = slot_of(slots, secret);
            if j != i {
                assert(slots[j].0 == other);
            }
        } else if slots.len() < capacity {
            if j < slots.len() {
                assert(slots[j].0 == other);
            }
        }
    }
}

} // verus!
