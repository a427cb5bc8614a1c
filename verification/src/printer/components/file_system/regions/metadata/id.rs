//! Identifiers of the files.
use vstd::prelude::*;

use crate::utils::bytes::{lemma_u32_le_roundtrip, spec_u32_from_le, spec_u32_from_le_seq, spec_u32_to_le, u32_from_le_bytes, u32_to_le_bytes};

verus! {

/// Unique identifier of a file for a 3D printer.
///
/// 2 files on the same printer can never have the same [`FileId`], even after one of them has been
/// deleted (the value of FileIds is never reused).
#[derive(Clone, Copy, PartialEq, Eq, Debug, Structural)]
pub struct FileId(u32);

impl View for FileId {
    type V = u32;

    closed spec fn view(&self) -> u32 {
        self.0
    }
}

impl FileId {
    /// [`FileId`] of the first file ever created in the file system.
    pub fn first() -> (id: FileId)
        ensures
            id@ == 0,
    {
        FileId(0)
    }

    /// [`FileId`] of a file that is currently being written. A newly created file is assigned this
    /// ID instead of a "normal one" until all its content has been written. This is because if for
    /// example the printer loses power while writing to a file, the file is invalid and all of the
    /// blocks occupied by it should be erased.
    pub fn writing_file() -> (id: FileId)
        ensures
            id@ == u32::MAX,
    {
        FileId(u32::MAX)
    }

    /// The identifier whose value is `value`.
    pub closed spec fn spec_new(value: u32) -> FileId {
        FileId(value)
    }

    /// The value of the identifier made from `value` is `value`.
    pub broadcast proof fn lemma_spec_new(value: u32)
        ensures
            (#[trigger] Self::spec_new(value))@ == value,
    {
    }

    /// Two identifiers are the same identifier when they have the same value.
    pub proof fn lemma_view_injective(a: FileId, b: FileId)
        ensures
            a@ == b@ <==> a == b,
    {
    }

    /// Returns the identifier that follows `other`.
    pub fn next(other: Self) -> (next: Self)
        requires
            other@ < u32::MAX,
        ensures
            next@ == other@ + 1,
    {
        Self(other.0 + 1)
    }

    /// Returns the identifier stored in `bytes` (least significant byte first).
    pub fn from_bytes(bytes: [u8; 4]) -> (id: Self)
        ensures
            id@ == spec_u32_from_le(bytes[0], bytes[1], bytes[2], bytes[3]),
            id == Self::spec_new(spec_u32_from_le(bytes[0], bytes[1], bytes[2], bytes[3])),
    {
        Self(u32_from_le_bytes(bytes))
    }

    /// Returns the bytes that store this identifier (least significant byte first).
    pub fn to_bytes(&self) -> (bytes: [u8; 4])
        ensures
            bytes@ == spec_u32_to_le(self@),
    {
        u32_to_le_bytes(self.0)
    }

    /// Restoring an identifier from its bytes gives back the identifier.
    pub proof fn lemma_bytes_roundtrip(id: FileId)
        ensures
            spec_u32_from_le_seq(spec_u32_to_le(id@)) == id@,
    {
        lemma_u32_le_roundtrip(id@);
    }
}

} // verus!
