//! The region of the flash memory that stores the names and the data of the files.
pub mod file_reader;
pub mod file_writer;

pub use self::file_reader::{FileReader, ReadError, ReadNameError};
pub use self::file_writer::{FileWriter, WriteError, WriteSteps};

use std::marker::PhantomData;

use vstd::prelude::*;

use super::metadata::{FileMetadata, FileMetadataValidator};
use vstd::utf8::encode_utf8;
use crate::printer::components::drivers::spi_flash_memory::chip::{
    spec_address_of_block_index, spec_block_index_of_address, FlashMemoryChip, FlashMemoryChipExt,
};
use crate::printer::components::drivers::spi_flash_memory::{
    spec_erase_block_steps, spec_erase_blocks_steps, SpiFlashMemory, Step,
};
use crate::printer::components::drivers::spi_flash_memory::address::RowAddress;
use crate::printer::components::drivers::spi_flash_memory::commands::Command;

verus! {

/// The region that stores the names and the data of the files.
///
/// There are 2 assumptions used in all the methods of this struct that must be held:
/// - 2 files can't partially occupy the same block (basically the allocation unit size of the
///   file system is the size of 1 block of the flash memory).
/// - The pages within the ranges of the addresses where a write occurs are always erased and ready
///   to be programmed.
pub struct FilesRegion;

/// The bytes of the UTF-8 encoding of `name`.
pub open spec fn spec_name_bytes(name: String) -> Seq<u8> {
    encode_utf8(name@)
}

/// The first and the last block occupied by the file of `file_metadata`.
pub open spec fn spec_file_blocks<Chip: FlashMemoryChip>(file_metadata: FileMetadata) -> (u16, u16) {
    (
        spec_block_index_of_address::<Chip>(file_metadata.start_memory_address),
        spec_block_index_of_address::<Chip>(file_metadata.spec_end_memory_address() as u32),
    )
}

/// The steps that erase all the blocks occupied by the file of `file_metadata`.
pub open spec fn spec_delete_file_steps<Chip: FlashMemoryChip>(file_metadata: FileMetadata) -> Seq<Step<Chip>> {
    let blocks = spec_file_blocks::<Chip>(file_metadata);
    spec_erase_blocks_steps::<Chip>(blocks.0 as int, blocks.1 as int) + seq![Step::Send(Command::WriteDisable)]
}

/// The steps that erase the blocks from `start` to `end` are three per block, in the order of the
/// blocks.
proof fn lemma_erase_steps_of_block<Chip: FlashMemoryChip>(start: int, end: int, block: int, j: int)
    requires
        start <= block <= end,
        0 <= j < 3,
    ensures
        spec_erase_blocks_steps::<Chip>(start, end).len() == 3 * (end - start + 1),
        spec_erase_blocks_steps::<Chip>(start, end)[3 * (block - start) + j]
            == spec_erase_block_steps::<Chip>(block as u16)[j],
    decreases end - start,
{
    if block < end {
        lemma_erase_steps_of_block::<Chip>(start, end - 1, block, j);
    } else if start < end {
        lemma_erase_steps_of_block::<Chip>(start, end - 1, start, 0);
    }
    assert(spec_erase_blocks_steps::<Chip>(start, end - 1).len() == 3 * (end - 1 - start + 1));
    assert(spec_erase_blocks_steps::<Chip>(start, end) == spec_erase_blocks_steps::<Chip>(start, end - 1)
        + spec_erase_block_steps::<Chip>(end as u16));
}

/// Deleting a file erases every block it occupies: one erase per block, in order, from the block
/// that holds its first byte to the block that holds its end address (the address that follows
/// its name and its data), then a write disable.
pub proof fn lemma_delete_erases_every_block_of_the_file<Chip: FlashMemoryChip>(file_metadata: FileMetadata, block: int)
    requires
        file_metadata.spec_end_memory_address() <= u32::MAX,
        (u32::MAX as int) / (Chip::BLOCK_SIZE as int) <= u16::MAX,
        (file_metadata.start_memory_address as int) / (Chip::BLOCK_SIZE as int) <= block,
        block <= (file_metadata.start_memory_address + file_metadata.file_name_length
            + file_metadata.file_data_length) / (Chip::BLOCK_SIZE as int),
    ensures
        ({
            let steps = spec_delete_file_steps::<Chip>(file_metadata);
            let first = (file_metadata.start_memory_address as int) / (Chip::BLOCK_SIZE as int);
            let last = (file_metadata.start_memory_address + file_metadata.file_name_length
                + file_metadata.file_data_length) / (Chip::BLOCK_SIZE as int);
            &&& steps.len() == 3 * (last - first + 1) + 1
            &&& steps[3 * (block - first)] == Step::Send(Command::<Chip>::WriteEnable)
            &&& steps[3 * (block - first) + 1] == Step::Send(Command::<Chip>::BlockErase {
                row_address: RowAddress::spec_from_page_index(
                    ((block * Chip::BLOCK_SIZE) / Chip::PAGE_SIZE as int) as u32,
                ),
            })
            &&& steps[3 * (block - first) + 2] == Step::<Chip>::WaitForOperationToFinish
            &&& steps.last() == Step::Send(Command::<Chip>::WriteDisable)
        }),
{
    Chip::lemma_geometry();
    let b = Chip::BLOCK_SIZE as int;
    let start = file_metadata.start_memory_address as int;
    let end = file_metadata.spec_end_memory_address();
    vstd::arithmetic::div_mod::lemma_div_is_ordered(start, u32::MAX as int, b);
    vstd::arithmetic::div_mod::lemma_div_is_ordered(end, u32::MAX as int, b);
    vstd::arithmetic::div_mod::lemma_div_is_ordered(0, start, b);
    let blocks = spec_file_blocks::<Chip>(file_metadata);
    assert(blocks.0 as int == start / b);
    assert(blocks.1 as int == end / b);
    let erase = spec_erase_blocks_steps::<Chip>(blocks.0 as int, blocks.1 as int);
    lemma_erase_steps_of_block::<Chip>(blocks.0 as int, blocks.1 as int, block, 0);
    lemma_erase_steps_of_block::<Chip>(blocks.0 as int, blocks.1 as int, block, 1);
    lemma_erase_steps_of_block::<Chip>(blocks.0 as int, blocks.1 as int, block, 2);
    let steps = spec_delete_file_steps::<Chip>(file_metadata);
    assert(steps == erase + seq![Step::Send(Command::<Chip>::WriteDisable)]);
    assert(steps[3 * (block - blocks.0)] == erase[3 * (block - blocks.0)]);
    assert(steps[3 * (block - blocks.0) + 1] == erase[3 * (block - blocks.0) + 1]);
    assert(steps[3 * (block - blocks.0) + 2] == erase[3 * (block - blocks.0) + 2]);
    assert(spec_address_of_block_index::<Chip>(block as u16) == block * b);
}

impl FilesRegion {
    /// Returns the writer of a new file with the provided `name`, whose metadata is `file_metadata`
    /// with the length of the name (in bytes) as the length of the name of the file.
    pub fn create_file<Chip: FlashMemoryChip>(
        &self,
        file_metadata: FileMetadata,
        name: String,
        file_validator: FileMetadataValidator,
    ) -> (writer: FileWriter<Chip>)
        ensures
            writer.spec_metadata().file_name_length == spec_name_bytes(name).len() as u32,
            writer.spec_metadata().id == file_metadata.id,
            writer.spec_metadata().start_memory_address == file_metadata.start_memory_address,
            writer.spec_metadata().file_data_length == file_metadata.file_data_length,
            writer.spec_name() == Some(name),
            writer.spec_cursor() == 0,
            writer.spec_validator() == file_validator,
    {
        let mut file_metadata = file_metadata;
        file_metadata.file_name_length = name.as_str().as_bytes().len() as u32;
        FileWriter::new(file_metadata, name, file_validator)
    }

    /// Returns the reader of the file whose metadata is `file_metadata`, positioned at the start of
    /// the data of the file.
    pub fn open_file_for_read<Chip: FlashMemoryChip>(
        &self,
        file_metadata: FileMetadata,
        file_validator: FileMetadataValidator,
    ) -> (reader: FileReader<Chip>)
        ensures
            reader.spec_metadata() == file_metadata,
            reader.spec_cursor() == 0,
            reader.spec_validator() == file_validator,
    {
        FileReader::new(file_metadata, file_validator)
    }

    /// Returns the steps that erase all the blocks occupied by the file of `file_metadata`, from
    /// the one that contains its start to the one that contains its end.
    pub fn delete_file<Chip: FlashMemoryChip>(
        &self,
        file_metadata: FileMetadata,
        spi_flash_memory: &SpiFlashMemory<Chip>,
    ) -> (steps: Vec<Step<Chip>>)
        requires
            file_metadata.spec_end_memory_address() <= u32::MAX,
        ensures
            steps@ == spec_delete_file_steps::<Chip>(file_metadata),
    {
        proof {
            Chip::lemma_geometry();
        }
        let end_address = file_metadata.end_memory_address();
        let start_block_index = Chip::get_block_index_of_address(file_metadata.start_memory_address);
        let end_block_index = Chip::get_block_index_of_address(end_address);
        proof {
            let q = end_address / Chip::BLOCK_SIZE;
            assert(q as u16 <= q) by (bit_vector);
            assert(q * Chip::BLOCK_SIZE <= end_address) by (nonlinear_arith)
                requires
                    q == end_address / Chip::BLOCK_SIZE,
                    Chip::BLOCK_SIZE > 0,
            ;
            assert((q as u16) * Chip::BLOCK_SIZE <= q * Chip::BLOCK_SIZE) by (nonlinear_arith)
                requires
                    q as u16 <= q,
                    Chip::BLOCK_SIZE > 0,
            ;
        }
        spi_flash_memory.erase_blocks(start_block_index, end_block_index)
    }
}

} // verus!
