//! Flash memory chips and their geometry.
use vstd::prelude::*;

verus! {

/// A type that represents a flash memory chip.
pub trait FlashMemoryChip {
    /// Number of LUNs contained in the chip.
    const LUNS_PER_DEVICE: u32;
    /// Number of planes contained in a LUN of the chip.
    const PLANES_PER_LUN: u32;
    /// Number of blocks contained in a plane of the chip.
    const BLOCKS_PER_PLANE: u32;
    /// Number of pages contained in a block of the chip.
    const PAGES_PER_BLOCK: u32;
    /// Size of the data area of a page.
    const PAGE_SIZE: u32;
    /// Size of the ECC area of a page.
    const PAGE_ECC_SIZE: u32;

    /// Size of the data area of a block (`PAGES_PER_BLOCK * PAGE_SIZE`).
    const BLOCK_SIZE: u32;
    /// Size of the data area of a plane (`BLOCKS_PER_PLANE * BLOCK_SIZE`).
    const PLANE_SIZE: u32;
    /// Size of the data area of a LUN (`PLANES_PER_LUN * PLANE_SIZE`).
    const LUN_SIZE: u32;
    /// Size of the data area of the chip (`LUNS_PER_DEVICE * LUN_SIZE`).
    const MEMORY_SIZE: u32;

    const MANUFACTURER_ID: u8;
    const DEVICE_ID: u8;

    /// The sizes of the chip are consistent with each other: every size is the product of the
    /// sizes it is made of, a page (with its ECC area) can be addressed by a column address, the
    /// blocks can be indexed by a `u16` and the pages by a row address of 24 bits.
    proof fn lemma_geometry()
        ensures
            Self::LUNS_PER_DEVICE > 0,
            Self::PLANES_PER_LUN > 0,
            Self::BLOCKS_PER_PLANE > 0,
            Self::PAGES_PER_BLOCK > 0,
            Self::PAGE_SIZE >= 2,
            Self::BLOCK_SIZE > 0,
            Self::BLOCK_SIZE == Self::PAGES_PER_BLOCK * Self::PAGE_SIZE,
            Self::PLANE_SIZE == Self::BLOCKS_PER_PLANE * Self::BLOCK_SIZE,
            Self::LUN_SIZE == Self::PLANES_PER_LUN * Self::PLANE_SIZE,
            Self::MEMORY_SIZE == Self::LUNS_PER_DEVICE * Self::LUN_SIZE,
            Self::MEMORY_SIZE < u32::MAX,
            Self::PAGE_SIZE + Self::PAGE_ECC_SIZE <= 0x1000,
            Self::MEMORY_SIZE / Self::BLOCK_SIZE < 0x1_0000,
            Self::MEMORY_SIZE / Self::PAGE_SIZE < 0x100_0000,
    ;

    /// Returns `true` if `first_ecc_byte`, the first byte of the ECC area of the first page of a
    /// block, says that the block contains the bad block mark.
    fn contains_bad_block_mark(first_ecc_byte: u8) -> (contains: bool);
}

/// The index of the block that contains `address`.
pub open spec fn spec_block_index_of_address<Chip: FlashMemoryChip + ?Sized>(address: u32) -> u16 {
    (address / Chip::BLOCK_SIZE) as u16
}

/// The memory address of the first byte of the block at `block_index`.
pub open spec fn spec_address_of_block_index<Chip: FlashMemoryChip + ?Sized>(block_index: u16) -> int {
    block_index * Chip::BLOCK_SIZE
}

/// Extra functionality provided automatically to every type that implements [`FlashMemoryChip`].
pub trait FlashMemoryChipExt: FlashMemoryChip {
    /// Returns the memory address of the first byte of the first page of the block at the provided
    /// `block_index`.
    fn get_address_of_block_index(block_index: u16) -> (address: u32)
        requires
            spec_address_of_block_index::<Self>(block_index) <= u32::MAX,
        ensures
            address == spec_address_of_block_index::<Self>(block_index),
    {
        block_index as u32 * Self::BLOCK_SIZE
    }

    /// Returns the index of the block that contains the provided `address`.
    fn get_block_index_of_address(address: u32) -> (block_index: u16)
        ensures
            block_index == spec_block_index_of_address::<Self>(address),
    {
        proof {
            Self::lemma_geometry();
        }
        let block_index = address / Self::BLOCK_SIZE;
        (#[verifier::truncate] (block_index as u16))
    }
}

impl<Chip: FlashMemoryChip> FlashMemoryChipExt for Chip {

}

/// 2Gbit 3.3V NAND SPI flash memory chip (Micron MT29F2G01ABAGDWB).
#[derive(Clone, Copy, PartialEq, Eq, Debug)]
pub struct MT29F2G01ABAGDWB;

impl FlashMemoryChip for MT29F2G01ABAGDWB {
    const LUNS_PER_DEVICE: u32 = 1;
    const PLANES_PER_LUN: u32 = 2;
    const BLOCKS_PER_PLANE: u32 = 1024;
    const PAGES_PER_BLOCK: u32 = 64;
    const PAGE_SIZE: u32 = 2048;
    const PAGE_ECC_SIZE: u32 = 128;

    const BLOCK_SIZE: u32 = 131072;
    const PLANE_SIZE: u32 = 134217728;
    const LUN_SIZE: u32 = 268435456;
    const MEMORY_SIZE: u32 = 268435456;

    const MANUFACTURER_ID: u8 = 0x2C;
    const DEVICE_ID: u8 = 0x24;

    proof fn lemma_geometry() {
    }

    /// The chip marks a bad block with a 0 byte at the start of the ECC area of its first page
    /// (the blocks that can be used hold `0xFF` there).
    fn contains_bad_block_mark(first_ecc_byte: u8) -> (contains: bool)
        ensures
            contains == (first_ecc_byte == 0),
    {
        first_ecc_byte == 0
    }
}

/// The geometry and the identifiers of the MT29F2G01ABAGDWB chip.
pub proof fn lemma_mt29f2g01abagdwb_geometry()
    ensures
        MT29F2G01ABAGDWB::LUNS_PER_DEVICE == 1,
        MT29F2G01ABAGDWB::PLANES_PER_LUN == 2,
        MT29F2G01ABAGDWB::BLOCKS_PER_PLANE == 1024,
        MT29F2G01ABAGDWB::PAGES_PER_BLOCK == 64,
        MT29F2G01ABAGDWB::PAGE_SIZE == 2048,
        MT29F2G01ABAGDWB::PAGE_ECC_SIZE == 128,
        MT29F2G01ABAGDWB::BLOCK_SIZE == 131072,
        MT29F2G01ABAGDWB::PLANE_SIZE == 134217728,
        MT29F2G01ABAGDWB::LUN_SIZE == 268435456,
        MT29F2G01ABAGDWB::MEMORY_SIZE == 268435456,
        MT29F2G01ABAGDWB::MANUFACTURER_ID == 0x2C,
        MT29F2G01ABAGDWB::DEVICE_ID == 0x24,
{
}

} // verus!
