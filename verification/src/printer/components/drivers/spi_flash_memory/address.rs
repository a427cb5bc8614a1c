//! The addresses used to access the pages of a flash memory, all stored in little endian.
use std::marker::PhantomData;

use vstd::prelude::*;

use super::chip::FlashMemoryChip;
use vstd::std_specs::cmp::PartialEqSpecImpl;

verus! {

/// The bytes of a column address: `column_address` with `plane_index` in bits 12 and above, least
/// significant byte first.
pub open spec fn spec_column_address_bytes(column_address: u16, plane_index: u8) -> Seq<u8> {
    let value = column_address | ((plane_index as u16) << 12u16);
    seq![(value & 0xff) as u8, (value >> 8u16) as u8]
}

/// Identifies the byte location within a page to be accessed in a flash memory.
#[derive(Clone, Copy, PartialEq, Eq, Debug)]
pub struct ColumnAddress([u8; 2]);

impl ColumnAddress {
    /// The bytes of the column address, as they are sent over SPI.
    pub closed spec fn spec_bytes(&self) -> Seq<u8> {
        self.0@
    }

    /// The column address of the byte at `column_address` within a page of the plane at
    /// `plane_index`.
    pub closed spec fn spec_new(column_address: u16, plane_index: u8) -> Self {
        let value = column_address | ((plane_index as u16) << 12u16);
        ColumnAddress([(value & 0xff) as u8, (value >> 8u16) as u8])
    }

    /// Returns a `ColumnAddress` from a `column_address` which represents the byte location
    /// within a page and a `plane_index` that represents which plane the page is in.
    pub fn new(column_address: u16, plane_index: u8) -> (address: Self)
        ensures
            address == Self::spec_new(column_address, plane_index),
            address.spec_bytes() == spec_column_address_bytes(column_address, plane_index),
    {
        let value = column_address | ((plane_index as u16) << 12);
        let bytes = [(value & 0xff) as u8, (value >> 8) as u8];
        assert(bytes@ =~= spec_column_address_bytes(column_address, plane_index));
        Self(bytes)
    }

    /// Returns the column address as bytes that can be sent over SPI.
    pub fn as_bytes(&self) -> (bytes: &[u8; 2])
        ensures
            bytes@ == self.spec_bytes(),
    {
        &self.0
    }
}

/// The index of the plane of the page at `page_index`.
pub open spec fn spec_plane_index<Chip: FlashMemoryChip>(page_index: u32) -> u8 {
    if Chip::PLANES_PER_LUN == 2 {
        if (page_index & Chip::PAGES_PER_BLOCK) > 0 {
            1
        } else {
            0
        }
    } else {
        ((page_index / Chip::PAGES_PER_BLOCK) % Chip::PLANES_PER_LUN) as u8
    }
}

/// Identifies the page, block and LUN to be accessed in a flash memory: the 24 least significant
/// bits of the index of the page, stored in little endian.
#[derive(Debug)]
pub struct RowAddress<Chip: FlashMemoryChip>([u8; 3], PhantomData<Chip>);

impl<Chip: FlashMemoryChip> RowAddress<Chip> {
    /// The index of the page identified by this address.
    pub closed spec fn spec_page_index(&self) -> u32 {
        ((self.0[2] as u32) << 16u32) | ((self.0[1] as u32) << 8u32) | (self.0[0] as u32)
    }

    /// The bytes of the row address, as they are sent over SPI.
    pub closed spec fn spec_bytes(&self) -> Seq<u8> {
        self.0@
    }

    /// Returns a [`RowAddress`] that identifies the page at `page_index` (only the 24 least
    /// significant bits of `page_index` are kept).
    pub fn from_page_index(page_index: u32) -> (address: Self)
        ensures
            address == Self::spec_from_page_index(page_index),
            address.spec_page_index() == page_index % 0x100_0000,
            address.spec_bytes() == seq![
                (page_index & 0xff) as u8,
                ((page_index >> 8u32) & 0xff) as u8,
                ((page_index >> 16u32) & 0xff) as u8,
            ],
    {
        let bytes = [(page_index & 0xff) as u8, ((page_index >> 8) & 0xff) as u8, ((page_index >> 16) & 0xff) as u8];
        let address = Self(bytes, PhantomData);
        assert(((((((page_index >> 16u32) & 0xff) as u8) as u32) << 16u32) | (((((page_index >> 8u32)
            & 0xff) as u8) as u32) << 8u32) | ((((page_index & 0xff) as u8) as u32))) == page_index
            % 0x100_0000) by (bit_vector);
        assert(address.spec_bytes() =~= seq![
            (page_index & 0xff) as u8,
            ((page_index >> 8u32) & 0xff) as u8,
            ((page_index >> 16u32) & 0xff) as u8,
        ]);
        address
    }

    /// Returns a [`RowAddress`] that identifies the page that contains the byte at `address`.
    ///
    /// It's the same as [`RowAddress::from_page_index`] with `address / Chip::PAGE_SIZE` as the
    /// index of the page.
    pub fn from_memory_address(address: u32) -> (row_address: Self)
        ensures
            row_address == Self::spec_from_page_index(address / Chip::PAGE_SIZE),
            row_address.spec_page_index() == (address / Chip::PAGE_SIZE) % 0x100_0000,
    {
        proof {
            Chip::lemma_geometry();
        }
        Self::from_page_index(address / Chip::PAGE_SIZE)
    }

    /// The [`RowAddress`] that identifies the page at `page_index`.
    pub closed spec fn spec_from_page_index(page_index: u32) -> Self {
        RowAddress(
            [(page_index & 0xff) as u8, ((page_index >> 8u32) & 0xff) as u8, ((page_index >> 16u32) & 0xff) as u8],
            PhantomData,
        )
    }

    /// Returns the row address as bytes that can be sent over SPI.
    pub fn as_bytes(&self) -> (bytes: &[u8; 3])
        ensures
            bytes@ == self.spec_bytes(),
    {
        &self.0
    }

    /// Returns the index of the page identified by this address.
    pub fn get_page_index(&self) -> (page_index: u32)
        ensures
            page_index == self.spec_page_index(),
            page_index < 0x100_0000,
    {
        let b0 = self.0[2];
        let b1 = self.0[1];
        let b2 = self.0[0];
        assert((((b0 as u32) << 16u32) | ((b1 as u32) << 8u32) | (b2 as u32)) < 0x100_0000) by (bit_vector);
        ((b0 as u32) << 16) | ((b1 as u32) << 8) | (b2 as u32)
    }

    /// Returns the index of the plane of the page identified by this address.
    pub fn get_plane_index(&self) -> (plane_index: u8)
        ensures
            plane_index == spec_plane_index::<Chip>(self.spec_page_index()),
    {
        proof {
            Chip::lemma_geometry();
        }
        let page_index = self.get_page_index();
        if Chip::PLANES_PER_LUN == 2 {
            if (page_index & Chip::PAGES_PER_BLOCK) > 0 {
                1
            } else {
                0
            }
        } else {
            let plane = (page_index / Chip::PAGES_PER_BLOCK) % Chip::PLANES_PER_LUN;
            (#[verifier::truncate] (plane as u8))
        }
    }
}

impl<Chip: FlashMemoryChip> Clone for RowAddress<Chip> {
    fn clone(&self) -> (clone: Self)
        ensures
            clone == *self,
    {
        Self(self.0, PhantomData)
    }
}

impl<Chip: FlashMemoryChip> Copy for RowAddress<Chip> {

}

impl<Chip: FlashMemoryChip> PartialEq for RowAddress<Chip> {
    fn eq(&self, other: &Self) -> (equal: bool) {
        let equal = self.0[0] == other.0[0] && self.0[1] == other.0[1] && self.0[2] == other.0[2];
        assert(equal ==> self.0@ =~= other.0@);
        equal
    }
}

impl<Chip: FlashMemoryChip> PartialEqSpecImpl for RowAddress<Chip> {
    open spec fn obeys_eq_spec() -> bool {
        true
    }

    open spec fn eq_spec(&self, other: &Self) -> bool {
        self.spec_bytes() == other.spec_bytes()
    }
}

impl<Chip: FlashMemoryChip> Eq for RowAddress<Chip> {

}


/// Getting the index of the page of the row address created from the index of a page gives
/// back the index (when it fits in the 24 bits of a row address).
pub proof fn lemma_row_address_roundtrip<Chip: FlashMemoryChip>(page_index: u32)
    requires
        page_index < 0x100_0000,
    ensures
        RowAddress::<Chip>::spec_from_page_index(page_index).spec_page_index() == page_index,
{
    assert(((((((page_index >> 16u32) & 0xff) as u8) as u32) << 16u32) | (((((page_index >> 8u32)
        & 0xff) as u8) as u32) << 8u32) | ((((page_index & 0xff) as u8) as u32))) == page_index) by (bit_vector)
        requires
            page_index < 0x100_0000,
    ;
}

} // verus!
