//! The regions of the flash memory used by the [`FileSystem`](super::FileSystem).
use std::ops::RangeInclusive;

use vstd::prelude::*;

use crate::printer::components::drivers::spi_flash_memory::chip::{spec_block_index_of_address, FlashMemoryChip};

pub mod data;
pub mod metadata;

verus! {

/// Returns the lower bound of `range`.
#[verifier::external_body]
pub(crate) fn range_start<T: Copy>(range: &RangeInclusive<T>) -> (start: T)
    ensures
        start == range@.start,
{
    *range.start()
}

/// Returns the upper bound of `range`.
#[verifier::external_body]
pub(crate) fn range_end<T: Copy>(range: &RangeInclusive<T>) -> (end: T)
    ensures
        end == range@.end,
{
    *range.end()
}

/// Configuration data of the regions of the [`FileSystem`](super::FileSystem).
pub struct RegionsConfig {
    /// The range of the indices of the flash memory's blocks used by the
    /// [`FilesMetadatasRegion`](metadata::FilesMetadatasRegion).
    pub metadata_block_range: RangeInclusive<u16>,
    /// The range of the indices of the flash memory's blocks used by the
    /// [`FilesRegion`](data::FilesRegion).
    pub data_block_range: RangeInclusive<u16>,
}

/// The range of the memory addresses from the first byte of the block `start` to the first byte of
/// the block `end`.
pub open spec fn spec_address_range<Chip: FlashMemoryChip>(start: u16, end: u16) -> (int, int) {
    (start * Chip::BLOCK_SIZE, end * Chip::BLOCK_SIZE)
}

impl RegionsConfig {
    /// The metadata region uses the first block, the data region all the blocks from the third one
    /// to the index of the block that contains the address `MEMORY_SIZE`.
    pub fn default<Chip: FlashMemoryChip>() -> (config: Self)
        ensures
            config.metadata_block_range@.start == 0,
            config.metadata_block_range@.end == 0,
            config.data_block_range@.start == 2,
            config.data_block_range@.end == spec_block_index_of_address::<Chip>(Chip::MEMORY_SIZE),
    {
        proof {
            Chip::lemma_geometry();
        }
        Self {
            metadata_block_range: RangeInclusive::new(0, 0),
            data_block_range: RangeInclusive::new(2, (Chip::MEMORY_SIZE / Chip::BLOCK_SIZE) as u16),
        }
    }

    /// Returns the memory address range used by the
    /// [`FilesMetadatasRegion`](metadata::FilesMetadatasRegion).
    ///
    /// # Examples
    /// ```
    /// # use firmware_core::printer::components::{file_system::regions::*, drivers::spi_flash_memory::*};
    /// #
    /// let start_metadata_block = 0;
    /// let end_metadata_block = 1;
    /// let start_metadata_address = start_metadata_block as u32 * MT29F2G01ABAGDWB::BLOCK_SIZE;
    /// let end_metadata_address = end_metadata_block as u32 * MT29F2G01ABAGDWB::BLOCK_SIZE;
    ///
    /// let regions_config = RegionsConfig
    /// {
    /// 	metadata_block_range: start_metadata_block..=end_metadata_block,
    /// 	..RegionsConfig::default::<MT29F2G01ABAGDWB>()
    /// };
    ///
    /// assert_eq!(regions_config.metadata_address_range::<MT29F2G01ABAGDWB>(), start_metadata_address..=end_metadata_address);
    /// ```
    pub fn metadata_address_range<Chip: FlashMemoryChip>(&self) -> (range: RangeInclusive<u32>)
        requires
            spec_address_range::<Chip>(self.metadata_block_range@.start, self.metadata_block_range@.end).1
                <= u32::MAX,
            spec_address_range::<Chip>(self.metadata_block_range@.start, self.metadata_block_range@.end).0
                <= u32::MAX,
        ensures
            (range@.start as int, range@.end as int) == spec_address_range::<Chip>(
                self.metadata_block_range@.start,
                self.metadata_block_range@.end,
            ),
            !range@.exhausted,
    {
        Self::block_range_to_address_range::<Chip>(&self.metadata_block_range)
    }

    /// Returns the memory address range used by the [`FilesRegion`](data::FilesRegion).
    ///
    /// # Examples
    /// ```
    /// # use firmware_core::printer::components::{file_system::regions::*, drivers::spi_flash_memory::*};
    /// #
    /// let start_data_block = 0;
    /// let end_data_block = 1;
    /// let start_data_address = start_data_block as u32 * MT29F2G01ABAGDWB::BLOCK_SIZE;
    /// let end_data_address = end_data_block as u32 * MT29F2G01ABAGDWB::BLOCK_SIZE;
    ///
    /// let regions_config = RegionsConfig
    /// {
    /// 	data_block_range: start_data_block..=end_data_block,
    /// 	..RegionsConfig::default::<MT29F2G01ABAGDWB>()
    /// };
    ///
    /// assert_eq!(regions_config.data_address_range::<MT29F2G01ABAGDWB>(), start_data_address..=end_data_address);
    /// ```
    pub fn data_address_range<Chip: FlashMemoryChip>(&self) -> (range: RangeInclusive<u32>)
        requires
            spec_address_range::<Chip>(self.data_block_range@.start, self.data_block_range@.end).1
                <= u32::MAX,
            spec_address_range::<Chip>(self.data_block_range@.start, self.data_block_range@.end).0
                <= u32::MAX,
        ensures
            (range@.start as int, range@.end as int) == spec_address_range::<Chip>(
                self.data_block_range@.start,
                self.data_block_range@.end,
            ),
            !range@.exhausted,
    {
        Self::block_range_to_address_range::<Chip>(&self.data_block_range)
    }

    fn block_range_to_address_range<Chip: FlashMemoryChip>(block_range: &RangeInclusive<u16>) -> (range: RangeInclusive<u32>)
        requires
            spec_address_range::<Chip>(block_range@.start, block_range@.end).0 <= u32::MAX,
            spec_address_range::<Chip>(block_range@.start, block_range@.end).1 <= u32::MAX,
        ensures
            (range@.start as int, range@.end as int) == spec_address_range::<Chip>(block_range@.start, block_range@.end),
            !range@.exhausted,
    {
        let start = range_start(block_range);
        let end = range_end(block_range);
        RangeInclusive::new(start as u32 * Chip::BLOCK_SIZE, end as u32 * Chip::BLOCK_SIZE)
    }
}

} // verus!
