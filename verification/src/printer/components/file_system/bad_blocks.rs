//! The table of the blocks of the flash memory that can't be used.
use vstd::prelude::*;

use crate::printer::components::drivers::spi_flash_memory::FlashMemoryChip;
use crate::utils::bytes::{lemma_u16_le_roundtrip, spec_u16_from_le, spec_u16_to_le, u16_from_le_bytes, u16_to_le_bytes};

verus! {

/// The indices stored in `bytes`, as [`BadBlockTable::as_bytes`] writes them: after the first byte
/// (the number of indices), one index for every following pair of bytes, least significant byte
/// first.
pub open spec fn spec_indices_from_bytes(bytes: Seq<u8>) -> Seq<u16> {
    Seq::new(
        if bytes.len() >= 1 { ((bytes.len() - 1) / 2) as nat } else { 0 },
        |k: int| spec_u16_from_le(bytes[1 + 2 * k], bytes[2 + 2 * k]),
    )
}

/// The indices of the blocks that contain the bad block mark, in increasing order, where
/// `contains_bad_block_mark[i]` tells whether the block at index `i` contains it.
pub open spec fn spec_marked_blocks(contains_bad_block_mark: Seq<bool>) -> Seq<u16>
    decreases contains_bad_block_mark.len(),
{
    if contains_bad_block_mark.len() == 0 {
        Seq::empty()
    } else {
        let last = contains_bad_block_mark.len() - 1;
        spec_marked_blocks(contains_bad_block_mark.drop_last()) + if contains_bad_block_mark[last] {
            seq![last as u16]
        } else {
            Seq::empty()
        }
    }
}

/// The bytes produced by [`BadBlockTable::as_bytes`] for a table with the provided `indices`: the
/// number of indices (truncated to a byte), then the two bytes of every index, least significant
/// first.
pub open spec fn spec_table_bytes(indices: Seq<u16>) -> Seq<u8> {
    seq![indices.len() as u8] + Seq::new(
        2 * indices.len(),
        |j: int| spec_u16_to_le(indices[j / 2])[j % 2],
    )
}

/// A table converted to bytes is restored from them, when it has at most 255 indices (the number
/// of indices is written in a byte).
pub proof fn lemma_table_bytes_roundtrip(indices: Seq<u16>)
    requires
        indices.len() <= 255,
    ensures
        spec_indices_from_bytes(spec_table_bytes(indices)) == indices,
        spec_table_bytes(indices).len() == 1 + 2 * indices.len(),
        spec_table_bytes(indices)[0] == indices.len(),
{
    let bytes = spec_table_bytes(indices);
    let restored = spec_indices_from_bytes(bytes);
    assert(restored.len() == indices.len());
    assert forall|k: int| 0 <= k < indices.len() implies restored[k] == indices[k] by {
        assert(bytes[1 + 2 * k] == spec_u16_to_le(indices[k])[0]);
        assert(bytes[2 + 2 * k] == spec_u16_to_le(indices[k])[1]);
        lemma_u16_le_roundtrip(indices[k]);
    }
    assert(restored =~= indices);
}

/// The table after marking the block at `block_index` (see
/// [`BadBlockTable::mark_block_as_invalid`]).
pub open spec fn spec_marked(indices: Seq<u16>, block_index: u16) -> Seq<u16> {
    if indices.contains(block_index) {
        indices
    } else {
        indices.push(block_index)
    }
}

/// Marking a block puts it in the table once: a table without repeated indices stays so, and
/// then contains the block.
pub proof fn lemma_mark_keeps_indices_unique(indices: Seq<u16>, block_index: u16)
    requires
        indices.no_duplicates(),
    ensures
        spec_marked(indices, block_index).no_duplicates(),
        spec_marked(indices, block_index).contains(block_index),
{
    let marked = spec_marked(indices, block_index);
    if !indices.contains(block_index) {
        assert(marked[indices.len() as int] == block_index);
        assert forall|i: int, j: int| 0 <= i < marked.len() && 0 <= j < marked.len() && i != j implies marked[i] != marked[j] by {
            if i < indices.len() && j < indices.len() {
                assert(marked[i] == indices[i] && marked[j] == indices[j]);
            } else if i < indices.len() {
                assert(marked[i] == indices[i]);
            } else {
                assert(marked[j] == indices[j]);
            }
        }
    }
}

/// The indices of the blocks of the flash memory that can't be used.
pub struct BadBlockTable {
    bad_blocks_indices: Vec<u16>,
}

impl View for BadBlockTable {
    type V = Seq<u16>;

    closed spec fn view(&self) -> Seq<u16> {
        self.bad_blocks_indices@
    }
}

impl Default for BadBlockTable {
    fn default() -> (table: Self)
        ensures
            table@ == Seq::<u16>::empty(),
    {
        Self { bad_blocks_indices: Vec::new() }
    }
}

impl BadBlockTable {
    /// Creates a bad block table from the first power up of the flash memory, based on which
    /// blocks contain the bad block mark: `contains_bad_block_mark[i]` tells whether the block at
    /// index `i` contains it (see [`FlashMemoryChip::contains_bad_block_mark`]).
    ///
    /// Every block of the memory is checked; the table holds the indices of the blocks that
    /// contain the mark.
    pub fn from_first_powerup<Chip: FlashMemoryChip>(contains_bad_block_mark: &[bool]) -> (table: Self)
        requires
            contains_bad_block_mark@.len() == (Chip::MEMORY_SIZE / Chip::BLOCK_SIZE) as u16,
        ensures
            table@ == spec_marked_blocks(contains_bad_block_mark@),
    {
        let mut bad_blocks_indices: Vec<u16> = Vec::new();
        let count = contains_bad_block_mark.len();
        let mut block_index: usize = 0;
        while block_index < count
            invariant
                count == contains_bad_block_mark@.len(),
                count <= u16::MAX,
                block_index <= count,
                bad_blocks_indices@ == spec_marked_blocks(contains_bad_block_mark@.take(block_index as int)),
            decreases count - block_index,
        {
            assert(contains_bad_block_mark@.take(block_index + 1).drop_last()
                =~= contains_bad_block_mark@.take(block_index as int));
            if contains_bad_block_mark[block_index] {
                bad_blocks_indices.push(block_index as u16);
            }
            block_index = block_index + 1;
        }
        assert(contains_bad_block_mark@.take(count as int) =~= contains_bad_block_mark@);
        Self { bad_blocks_indices }
    }

    /// Restores the bad block table from a previous one you [`converted`] to bytes.
    ///
    /// [`converted`]: `BadBlockTable::as_bytes`
    pub fn from_bytes(bytes: &[u8]) -> (table: Self)
        ensures
            table@ == spec_indices_from_bytes(bytes@),
    {
        let mut bad_blocks_indices: Vec<u16> = Vec::new();
        let len = bytes.len();
        if len >= 1 {
            let count = (len - 1) / 2;
            let mut k: usize = 0;
            while k < count
                invariant
                    bytes@.len() >= 1,
                    len == bytes@.len(),
                    count == (bytes@.len() - 1) / 2,
                    k <= count,
                    bad_blocks_indices@ =~= spec_indices_from_bytes(bytes@).take(k as int),
                decreases count - k,
            {
                assert(2 * k + 2 <= bytes@.len() - 1) by (nonlinear_arith)
                    requires
                        k < count,
                        count == (bytes@.len() - 1) / 2,
                ;
                let low = bytes[2 * k + 1];
                let high = bytes[2 * k + 2];
                bad_blocks_indices.push(u16_from_le_bytes(low, high));
                k = k + 1;
            }
            assert(spec_indices_from_bytes(bytes@).take(k as int) =~= spec_indices_from_bytes(bytes@));
        }
        Self { bad_blocks_indices }
    }

    /// Adds the block at `block_index` to the table, unless it's already there.
    pub fn mark_block_as_invalid(&mut self, block_index: u16)
        ensures
            final(self)@ == spec_marked(old(self)@, block_index),
    {
        if !self.contains(block_index) {
            self.bad_blocks_indices.push(block_index);
        }
    }

    /// Returns `true` if the block at `block_index` can be used: it isn't in the table.
    pub fn is_block_valid(&self, block_index: u16) -> (valid: bool)
        ensures
            valid == !self@.contains(block_index),
    {
        !self.contains(block_index)
    }

    /// Returns `true` if the block at `block_index` is in the table.
    fn contains(&self, block_index: u16) -> (found: bool)
        ensures
            found == self@.contains(block_index),
    {
        let mut i: usize = 0;
        while i < self.bad_blocks_indices.len()
            invariant
                i <= self@.len(),
                forall|j: int| 0 <= j < i ==> self@[j] != block_index,
            decreases self@.len() - i,
        {
            if self.bad_blocks_indices[i] == block_index {
                return true;
            }
            i = i + 1;
        }
        false
    }

    /// Returns the bytes of the table (see [`spec_table_bytes`]), one at a time.
    pub fn as_bytes(&self) -> (bytes: BadBlockTableBytes<'_>)
        ensures
            bytes.spec_table()@ == self@,
            bytes.spec_position() == 0,
    {
        BadBlockTableBytes { bad_blocks_table: self, started: false, index: 0, high: false }
    }

    /// Returns the indices of the blocks in the table.
    pub fn indices(&self) -> (indices: &[u16])
        ensures
            indices@ == self@,
    {
        self.bad_blocks_indices.as_slice()
    }
}

/// The bytes of a [`BadBlockTable`], handed out one at a time by [`BadBlockTableBytes::next`].
pub struct BadBlockTableBytes<'a> {
    bad_blocks_table: &'a BadBlockTable,
    /// Whether the number of indices has been handed out.
    started: bool,
    /// The index whose bytes come next.
    index: usize,
    /// Whether the least significant byte of that index has been handed out.
    high: bool,
}

impl<'a> BadBlockTableBytes<'a> {
    /// The table whose bytes are handed out.
    pub closed spec fn spec_table(&self) -> &'a BadBlockTable {
        self.bad_blocks_table
    }

    /// The number of bytes handed out so far.
    pub closed spec fn spec_position(&self) -> nat {
        if !self.started {
            0
        } else {
            (1 + 2 * self.index + if self.high { 1int } else { 0 }) as nat
        }
    }

    /// Returns the next byte of the table, or `None` when all of them have been handed out.
    pub fn next(&mut self) -> (byte: Option<u8>)
        requires
            old(self).spec_position() <= spec_table_bytes(old(self).spec_table()@).len(),
        ensures
            final(self).spec_table() == old(self).spec_table(),
            old(self).spec_position() < spec_table_bytes(old(self).spec_table()@).len() ==> {
                &&& byte == Some(spec_table_bytes(old(self).spec_table()@)[old(self).spec_position() as int])
                &&& final(self).spec_position() == old(self).spec_position() + 1
            },
            old(self).spec_position() == spec_table_bytes(old(self).spec_table()@).len() ==> {
                &&& byte is None
                &&& final(self).spec_position() == old(self).spec_position()
            },
    {
        let indices = &self.bad_blocks_table.bad_blocks_indices;
        if !self.started {
            self.started = true;
            self.index = 0;
            self.high = false;
            assert(spec_table_bytes(indices@)[0] == #[verifier::truncate] (indices@.len() as u8));
            Some(#[verifier::truncate] (indices.len() as u8))
        } else if self.index < indices.len() {
            let bytes = u16_to_le_bytes(indices[self.index]);
            let ghost j = 2 * self.index;
            assert(j / 2 == self.index && j % 2 == 0 && (j + 1) / 2 == self.index && (j + 1) % 2 == 1);
            let ghost table = spec_table_bytes(indices@);
            assert(table[1 + j] == spec_u16_to_le(indices@[self.index as int])[0]);
            assert(table[2 + j] == spec_u16_to_le(indices@[self.index as int])[1]);
            if !self.high {
                self.high = true;
                Some(bytes[0])
            } else {
                self.high = false;
                self.index = self.index + 1;
                Some(bytes[1])
            }
        } else {
            None
        }
    }
}

} // verus!
