//! The metadata of a file.
use vstd::prelude::*;

use super::id::FileId;
use crate::utils::bytes::{lemma_u32_le_roundtrip, spec_u32_from_le_seq, spec_u32_to_le, u32_from_le_bytes, u32_to_le_bytes};

verus! {

/// Where a file is stored in the flash memory and how long it is.
///
/// The name of the file is stored at `start_memory_address` and it's `file_name_length` bytes
/// long, its data follows the name and it's `file_data_length` bytes long.
#[derive(PartialEq, Eq, Clone, Copy, Debug, Structural)]
pub struct FileMetadata {
    pub id: FileId,
    pub start_memory_address: u32,
    pub file_name_length: u32,
    pub file_data_length: u32,
}

/// The number of bytes of a [`FileMetadata`] converted to bytes.
pub const FILE_METADATA_SIZE: usize = 16;

impl FileMetadata {
    /// The bytes of the metadata: the identifier, the start memory address, the length of the name
    /// and the length of the data, each one least significant byte first.
    pub open spec fn spec_bytes(self) -> Seq<u8> {
        spec_u32_to_le(self.id@) + spec_u32_to_le(self.start_memory_address) + spec_u32_to_le(
            self.file_name_length,
        ) + spec_u32_to_le(self.file_data_length)
    }

    /// The metadata stored in the first [`FILE_METADATA_SIZE`] bytes of `bytes` (see
    /// [`FileMetadata::spec_bytes`]).
    pub open spec fn spec_from_bytes(bytes: Seq<u8>) -> FileMetadata {
        FileMetadata {
            id: FileId::spec_new(spec_u32_from_le_seq(bytes.subrange(0, 4))),
            start_memory_address: spec_u32_from_le_seq(bytes.subrange(4, 8)),
            file_name_length: spec_u32_from_le_seq(bytes.subrange(8, 12)),
            file_data_length: spec_u32_from_le_seq(bytes.subrange(12, 16)),
        }
    }

    /// The memory address right after the end of the data of the file.
    pub open spec fn spec_end_memory_address(self) -> int {
        self.start_memory_address + self.file_name_length + self.file_data_length
    }

    /// Returns the bytes of the metadata (see [`FileMetadata::spec_bytes`]).
    pub fn to_bytes(&self) -> (bytes: [u8; 16])
        ensures
            bytes@ == self.spec_bytes(),
    {
        let id = self.id.to_bytes();
        let start = u32_to_le_bytes(self.start_memory_address);
        let name = u32_to_le_bytes(self.file_name_length);
        let data = u32_to_le_bytes(self.file_data_length);
        let bytes = [
            id[0], id[1], id[2], id[3],
            start[0], start[1], start[2], start[3],
            name[0], name[1], name[2], name[3],
            data[0], data[1], data[2], data[3],
        ];
        assert(bytes@ =~= self.spec_bytes());
        bytes
    }

    /// Returns the metadata stored in the first [`FILE_METADATA_SIZE`] bytes of `bytes`.
    ///
    /// # Examples
    /// ```
    /// # use firmware_core::printer::components::file_system::regions::metadata::*;
    /// #
    /// let file_metadata = FileMetadata
    /// {
    ///     id: FileId::FIRST,
    ///     start_memory_address: 0x3000,
    ///     file_name_length: 20,
    ///     file_data_length: 500_000
    /// };
    ///
    /// assert_eq!(file_metadata, FileMetadata::from_bytes(&file_metadata.to_bytes()));
    /// ```
    pub fn from_bytes(bytes: &[u8]) -> (metadata: Self)
        requires
            bytes@.len() >= FILE_METADATA_SIZE,
        ensures
            metadata == Self::spec_from_bytes(bytes@),
    {
        let id = FileId::from_bytes([bytes[0], bytes[1], bytes[2], bytes[3]]);
        let start_memory_address = u32_from_le_bytes([bytes[4], bytes[5], bytes[6], bytes[7]]);
        let file_name_length = u32_from_le_bytes([bytes[8], bytes[9], bytes[10], bytes[11]]);
        let file_data_length = u32_from_le_bytes([bytes[12], bytes[13], bytes[14], bytes[15]]);
        Self { id, start_memory_address, file_name_length, file_data_length }
    }

    /// Returns the memory address right after the end of the data of the file.
    pub fn end_memory_address(&self) -> (address: u32)
        requires
            self.spec_end_memory_address() <= u32::MAX,
        ensures
            address == self.spec_end_memory_address(),
    {
        self.start_memory_address + self.file_name_length + self.file_data_length
    }

    /// The metadata restored from the bytes of a metadata is that metadata.
    pub proof fn lemma_bytes_roundtrip(metadata: FileMetadata)
        ensures
            Self::spec_from_bytes(metadata.spec_bytes()) == metadata,
    {
        let bytes = metadata.spec_bytes();
        lemma_u32_le_roundtrip(metadata.id@);
        lemma_u32_le_roundtrip(metadata.start_memory_address);
        lemma_u32_le_roundtrip(metadata.file_name_length);
        lemma_u32_le_roundtrip(metadata.file_data_length);
        assert(bytes.subrange(0, 4) =~= spec_u32_to_le(metadata.id@));
        assert(bytes.subrange(4, 8) =~= spec_u32_to_le(metadata.start_memory_address));
        assert(bytes.subrange(8, 12) =~= spec_u32_to_le(metadata.file_name_length));
        assert(bytes.subrange(12, 16) =~= spec_u32_to_le(metadata.file_data_length));
        let restored = Self::spec_from_bytes(bytes);
        FileId::lemma_spec_new(spec_u32_from_le_seq(bytes.subrange(0, 4)));
        FileId::lemma_view_injective(restored.id, metadata.id);
    }
}

} // verus!
