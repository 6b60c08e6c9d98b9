//! The oblivious backing storage of the counter table: a fixed number of
//! 64-byte blocks, read and written by index without the memory access
//! pattern telling which index was meant.
//!
//! The storage is `LinearScanningORAM` of `mc_oblivious_traits`. What this
//! module states about it is taken on trust; the counter table is proved
//! against these statements.

use mc_oblivious_traits::typenum::U64;
use mc_oblivious_traits::{A64Bytes, LinearScanningORAM, ORAM};
use vstd::prelude::*;

verus! {

/// The size of a block in bytes.
pub const BLOCK_LEN: usize = 64;

/// The largest number of blocks that a storage can be made with: that many
/// blocks still fit in the address space.
pub const MAX_BLOCKS: u64 = 0x00ff_ffff_ffff_ffff;

/// A block of zero bytes.
pub open spec fn zero_block() -> Seq<u8> {
    Seq::new(BLOCK_LEN as nat, |i: int| 0u8)
}

/// The block storage. It holds a `LinearScanningORAM` over 64-byte values.
#[verifier::external_body]
pub struct BlockStorage {
    oram: LinearScanningORAM<U64>,
}

/// The blocks that a storage holds, by index.
pub uninterp spec fn storage_blocks(storage: BlockStorage) -> Seq<Seq<u8>>;

/// Makes a storage with `LinearScanningORAM::new`. Taken on trust: it
/// holds `size` blocks, each of 64 zero bytes.
#[verifier::external_body]
pub(crate) fn storage_new(size: u64) -> (storage: BlockStorage)
    requires
        size <= MAX_BLOCKS,
    ensures
        storage_blocks(storage).len() == size,
        forall|i: int| 0 <= i < size ==> #[trigger] storage_blocks(storage)[i] == zero_block(),
{
    BlockStorage { oram: LinearScanningORAM::new(size) }
}

/// Reads one block with `ORAM::read`. Taken on trust: the result is the
/// block at `index`, 64 bytes long, and the storage holds what it held.
#[verifier::external_body]
pub(crate) fn storage_read(storage: &mut BlockStorage, index: u64) -> (block: Vec<u8>)
    requires
        index < storage_blocks(*old(storage)).len(),
    ensures
        storage_blocks(*final(storage)) == storage_blocks(*old(storage)),
        block@ == storage_blocks(*old(storage))[index as int],
        block@.len() == BLOCK_LEN,
{
    storage.oram.read(index).to_vec()
}

/// Writes one block with `ORAM::write`. Taken on trust: afterwards the
/// block at `index` is `block`, and every other block is as it was.
#[verifier::external_body]
pub(crate) fn storage_write(storage: &mut BlockStorage, index: u64, block: &Vec<u8>)
    requires
        index < storage_blocks(*old(storage)).len(),
        block@.len() == BLOCK_LEN,
    ensures
        storage_blocks(*final(storage)) == storage_blocks(*old(storage)).update(
            index as int,
            block@,
        ),
{
    let mut value: A64Bytes<U64> = Default::default();
    value.copy_from_slice(block.as_slice());
    storage.oram.write(index, &value);
}

} // verus!
