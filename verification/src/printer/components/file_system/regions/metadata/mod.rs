//! The region of the flash memory that stores the metadatas of the files.
pub mod data_holes;
pub mod id;
pub mod metadata;
pub mod validator;

pub use self::data_holes::{DataHoles, FreeSpace};
pub use self::id::FileId;
pub use self::metadata::{FileMetadata, FILE_METADATA_SIZE};
pub use self::validator::{FileMetadataValidator, FileMetadataValidatorMaster};

use vstd::prelude::*;

use self::data_holes::{spec_data_holes, spec_data_holes_computable, spec_free_space, spec_free_space_computable};
use super::{range_end, range_start, spec_address_range, RegionsConfig};
use crate::printer::components::drivers::spi_flash_memory::chip::{spec_address_of_block_index, FlashMemoryChip};
use crate::printer::components::drivers::spi_flash_memory::{
    spec_erase_blocks_steps, spec_program_data_steps, SpiFlashMemory, Step,
};
use crate::printer::components::drivers::spi_flash_memory::commands::Command;
use crate::printer::components::file_system::bad_blocks::{
    lemma_table_bytes_roundtrip, spec_indices_from_bytes, spec_table_bytes, BadBlockTable,
};
use crate::utils::bytes::{
    lemma_u16_le_roundtrip, lemma_u32_le_roundtrip, spec_u16_from_be, spec_u16_to_be, spec_u16_to_le, spec_u32_from_le_seq,
    spec_u32_to_le,
    u16_to_le_bytes,
};
use vstd::slice::slice_subrange;

verus! {

/// The number of bytes read from the flash memory to restore the region (one page).
pub const READ_DATA_SIZE: usize = 2048;

/// The index of the first file of `files` whose identifier is `file_id`, or the number of files
/// when there isn't one.
pub open spec fn spec_position_of(files: Seq<FileMetadata>, file_id: FileId) -> int
    decreases files.len(),
{
    if files.len() == 0 {
        0
    } else {
        let k = spec_position_of(files.drop_last(), file_id);
        if k < files.len() - 1 {
            k
        } else if files.last().id == file_id {
            files.len() - 1
        } else {
            files.len() as int
        }
    }
}

/// A file of `files` has the identifier `file_id`.
pub open spec fn spec_contains_id(files: Seq<FileMetadata>, file_id: FileId) -> bool {
    exists|i: int| 0 <= i < files.len() && (#[trigger] files[i]).id == file_id
}

/// `files` after removing the element at `index`, replaced by the last one.
pub open spec fn spec_swap_remove<T>(files: Seq<T>, index: int) -> Seq<T> {
    files.update(index, files.last()).drop_last()
}

/// The first file of `files` whose identifier is `file_id` is at [`spec_position_of`].
pub proof fn lemma_position_of(files: Seq<FileMetadata>, file_id: FileId)
    ensures
        0 <= spec_position_of(files, file_id) <= files.len(),
        forall|j: int| 0 <= j < spec_position_of(files, file_id) ==> (#[trigger] files[j]).id != file_id,
        spec_position_of(files, file_id) < files.len() ==> files[spec_position_of(files, file_id)].id
            == file_id,
        spec_position_of(files, file_id) < files.len() <==> spec_contains_id(files, file_id),
    decreases files.len(),
{
    if files.len() > 0 {
        let rest = files.drop_last();
        lemma_position_of(rest, file_id);
        let k = spec_position_of(files, file_id);
        assert forall|j: int| 0 <= j < k implies (#[trigger] files[j]).id != file_id by {
            if j < files.len() - 1 {
                assert(rest[j] == files[j]);
            }
        }
        if spec_contains_id(files, file_id) {
            let i = choose|i: int| 0 <= i < files.len() && (#[trigger] files[i]).id == file_id;
            if i < files.len() - 1 {
                assert(rest[i] == files[i]);
            }
        }
    }
}

/// No two files of `files` share an identifier.
pub open spec fn spec_unique_ids(files: Seq<FileMetadata>) -> bool {
    forall|i: int, j: int| 0 <= i < j < files.len() ==> (#[trigger] files[i]).id != (#[trigger] files[j]).id
}

/// Every file of `files` has an identifier lower than `highest`.
pub open spec fn spec_ids_below(files: Seq<FileMetadata>, highest: FileId) -> bool {
    forall|i: int| 0 <= i < files.len() ==> (#[trigger] files[i]).id@ < highest@
}

/// A deleted file doesn't exist anymore: when no two files share an identifier, removing the
/// first file with `file_id` (as [`FilesMetadatasRegion::delete_file`] does) leaves no file with
/// that identifier, and keeps every other file.
pub proof fn lemma_deleted_file_doesnt_exist(files: Seq<FileMetadata>, file_id: FileId)
    requires
        spec_unique_ids(files),
        spec_contains_id(files, file_id),
    ensures
        !spec_contains_id(spec_swap_remove(files, spec_position_of(files, file_id)), file_id),
        forall|m: FileMetadata|
            files.contains(m) && m.id != file_id ==> #[trigger] spec_swap_remove(
                files,
                spec_position_of(files, file_id),
            ).contains(m),
        spec_unique_ids(spec_swap_remove(files, spec_position_of(files, file_id))),
{
    lemma_position_of(files, file_id);
    let p = spec_position_of(files, file_id);
    let remaining = spec_swap_remove(files, p);
    let last = files.len() - 1;
    assert forall|i: int| 0 <= i < remaining.len() implies (#[trigger] remaining[i]).id != file_id by {
        if i == p {
            assert(remaining[i] == files[last]);
            assert(files[p].id == file_id);
        } else {
            assert(remaining[i] == files[i]);
            if i < p {
                assert(files[i].id != file_id);
            } else {
                assert(files[p].id == file_id);
            }
        }
    }
    assert forall|m: FileMetadata| files.contains(m) && m.id != file_id implies #[trigger] remaining.contains(m) by {
        let i = choose|i: int| 0 <= i < files.len() && files[i] == m;
        if i == last {
            if p < last {
                assert(remaining[p] == m);
            }
        } else {
            assert(i != p);
            assert(remaining[i] == m);
        }
    }
    assert forall|i: int, j: int| 0 <= i < j < remaining.len() implies (#[trigger] remaining[i]).id != (#[trigger] remaining[j]).id by {
        let fi = if i == p { last } else { i };
        let fj = if j == p { last } else { j };
        assert(remaining[i] == files[fi]);
        assert(remaining[j] == files[fj]);
        assert(fi != fj);
        if fi < fj {
            assert(files[fi].id != files[fj].id);
        } else {
            assert(files[fj].id != files[fi].id);
        }
    }
}

/// The identifiers handed out are never used by two files: when the identifiers of the files are
/// all different and lower than the highest used identifier, adding the file created with the
/// highest used identifier (as [`FilesMetadatasRegion::create_file`] and then
/// [`FilesMetadatasRegion::start_writing_file`] do) keeps the identifiers all different and lower
/// than the next highest used identifier.
pub proof fn lemma_created_file_id_is_unique(
    files: Seq<FileMetadata>,
    highest: FileId,
    created: FileMetadata,
    next_highest: FileId,
)
    requires
        spec_unique_ids(files),
        spec_ids_below(files, highest),
        created.id == highest,
        next_highest@ == highest@ + 1,
    ensures
        spec_unique_ids(files.push(created)),
        spec_ids_below(files.push(created), next_highest),
        spec_contains_id(files.push(created), created.id),
{
    let added = files.push(created);
    assert(added[files.len() as int] == created);
    assert forall|i: int, j: int| 0 <= i < j < added.len() implies (#[trigger] added[i]).id != (#[trigger] added[j]).id by {
        assert(added[i] == files[i]);
        if j == files.len() {
            assert(files[i].id@ < highest@);
        } else {
            assert(added[j] == files[j]);
        }
    }
    assert forall|i: int| 0 <= i < added.len() implies (#[trigger] added[i]).id@ < next_highest@ by {
        if i < files.len() {
            assert(added[i] == files[i]);
        }
    }
}

/// The bytes of the metadatas of `files`, one after the other.
pub open spec fn spec_files_bytes(files: Seq<FileMetadata>) -> Seq<u8>
    decreases files.len(),
{
    if files.len() == 0 {
        Seq::empty()
    } else {
        spec_files_bytes(files.drop_last()) + files.last().spec_bytes()
    }
}

/// The files of `files` that are being written (`writing`), or the other ones.
pub open spec fn spec_files_being_written(files: Seq<FileMetadata>, writing: bool) -> Seq<FileMetadata>
    decreases files.len(),
{
    if files.len() == 0 {
        Seq::empty()
    } else {
        spec_files_being_written(files.drop_last(), writing) + if (files.last().id@ == u32::MAX)
            == writing {
            seq![files.last()]
        } else {
            Seq::empty()
        }
    }
}

/// The number of bad block indices whose bytes are in a stored `page`.
pub open spec fn spec_stored_bad_blocks_count(page: Seq<u8>) -> int {
    page[1] as int
}

/// The offset of the first stored metadata in a stored `page`.
pub open spec fn spec_stored_files_offset(page: Seq<u8>) -> int {
    8 + 2 * spec_stored_bad_blocks_count(page)
}

/// The number of metadatas stored in a stored `page`.
pub open spec fn spec_stored_files_count(page: Seq<u8>) -> u16 {
    let offset = 6 + 2 * spec_stored_bad_blocks_count(page);
    spec_u16_from_be(page[offset], page[offset + 1])
}

/// The metadatas stored in a stored `page`, one after the other after the header.
pub open spec fn spec_stored_files(page: Seq<u8>) -> Seq<FileMetadata> {
    let offset = spec_stored_files_offset(page);
    Seq::new(
        spec_stored_files_count(page) as nat,
        |j: int| FileMetadata::spec_from_bytes(page.subrange(offset + 16 * j, offset + 16 * j + 16)),
    )
}

/// The stored bytes of a region can be read from `bytes` (read from the start of the metadata
/// blocks): the memory is used for the first time (the first byte is `0xFF`), or `bytes` hold the
/// whole header and all the stored metadatas.
pub open spec fn spec_stored_page_readable(bytes: Seq<u8>) -> bool {
    &&& bytes.len() >= 1
    &&& bytes[0] != 0xFF ==> {
        &&& bytes.len() >= 2
        &&& bytes.len() >= spec_stored_files_offset(bytes)
        &&& bytes.len() >= spec_stored_files_offset(bytes) + 16 * spec_stored_files_count(bytes)
    }
}

/// The number of bytes of a stored region whose header is at the start of `bytes` (see
/// [`FilesMetadatasRegion::spec_stored_bytes`]).
pub open spec fn spec_stored_length(bytes: Seq<u8>) -> int {
    spec_stored_files_offset(bytes) + 16 * spec_stored_files_count(bytes)
}

/// The region that stores the metadatas of the files.
pub struct FilesMetadatasRegion {
    files_metadatas: Vec<FileMetadata>,
    highest_used_file_id: FileId,
    writing_to_files_with_id: Vec<FileId>,
    bad_block_table: BadBlockTable,
    metadata_validator_master: FileMetadataValidatorMaster,
}

/// The error returned when a file doesn't exist.
#[derive(Debug, PartialEq, Eq, Clone, Copy)]
pub struct FileDoesntExist;

/// The error returned when there's not enough space in the flash memory to store a file.
#[derive(Debug, PartialEq, Eq, Clone, Copy)]
pub struct NotEnoughSpaceAvailable;

/// The region, whose bytes are `stored_bytes_count`, can be stored in the metadata blocks of
/// `config`: the addresses of those blocks exist and the bytes can be counted with 32 bits.
pub open spec fn spec_storable<Chip: FlashMemoryChip>(stored_bytes_count: nat, config: &RegionsConfig) -> bool {
    &&& spec_address_range::<Chip>(config.metadata_block_range@.start, config.metadata_block_range@.end).0 <= u32::MAX
    &&& spec_address_range::<Chip>(config.metadata_block_range@.start, config.metadata_block_range@.end).1 <= u32::MAX
    &&& stored_bytes_count <= u32::MAX
}

/// The steps that store the `bytes` of the region in the metadata blocks of `config`: the blocks are
/// erased, then the bytes are programmed from the first address of the first block.
pub open spec fn spec_store_steps<Chip: FlashMemoryChip>(bytes: Seq<u8>, config: &RegionsConfig) -> Seq<Step<Chip>> {
    let start = config.metadata_block_range@.start;
    let end = config.metadata_block_range@.end;
    spec_erase_blocks_steps::<Chip>(start as int, end as int) + seq![Step::Send(Command::WriteDisable)]
        + spec_program_data_steps::<Chip>(bytes.len() as u32, spec_address_range::<Chip>(start, end).0 as u32)
}

impl FilesMetadatasRegion {
    /// The metadatas of the files stored in the region.
    pub closed spec fn spec_files(&self) -> Seq<FileMetadata> {
        self.files_metadatas@
    }

    /// The identifier given to the next file created.
    pub closed spec fn spec_highest_used_file_id(&self) -> FileId {
        self.highest_used_file_id
    }

    /// The identifiers of the files that are being written.
    pub closed spec fn spec_writing_files(&self) -> Seq<FileId> {
        self.writing_to_files_with_id@
    }

    /// The indices in the bad block table of the region.
    pub closed spec fn spec_bad_blocks(&self) -> Seq<u16> {
        self.bad_block_table@
    }

    /// The master of the validators handed out by this region.
    pub closed spec fn spec_validator_master(&self) -> FileMetadataValidatorMaster {
        self.metadata_validator_master
    }

    /// The bytes of the region stored in the flash memory, as [`Self::from_stored_page`] reads
    /// them: a 0 byte (the memory isn't used for the first time), the bytes of the bad block table
    /// (the number of bad blocks, then their indices), the highest used identifier, the number of
    /// files (most significant byte first) and the metadatas of the files.
    pub open spec fn spec_stored_bytes(&self) -> Seq<u8> {
        seq![0u8] + spec_table_bytes(self.spec_bad_blocks()) + spec_u32_to_le(
            self.spec_highest_used_file_id()@,
        ) + spec_u16_to_be(self.spec_files().len() as u16) + spec_files_bytes(self.spec_files())
    }

    /// The region of a flash memory used for the first time: no files, the identifiers start from
    /// [`FileId::first`] and the bad block table is the one made at the first power up.
    pub fn new(bad_block_table: BadBlockTable) -> (region: Self)
        ensures
            region.spec_files() == Seq::<FileMetadata>::empty(),
            region.spec_highest_used_file_id()@ == 0,
            region.spec_writing_files() == Seq::<FileId>::empty(),
            region.spec_bad_blocks() == bad_block_table@,
            region.spec_validator_master()@ == 0,
    {
        Self {
            files_metadatas: Vec::new(),
            highest_used_file_id: FileId::first(),
            writing_to_files_with_id: Vec::new(),
            bad_block_table,
            metadata_validator_master: FileMetadataValidatorMaster::new(),
        }
    }

    /// Returns whether the region can be restored from `page` with [`Self::from_stored_page`]:
    /// the memory is used for the first time, or `page` holds all the stored bytes of the region.
    pub fn is_stored_page_readable(page: &[u8]) -> (readable: bool)
        ensures
            readable == spec_stored_page_readable(page@),
    {
        if page.len() == 0 {
            return false;
        }
        if page[0] == 0xFF {
            return true;
        }
        match Self::stored_length(page) {
            Some(length) => page.len() >= length,
            None => false,
        }
    }

    /// Returns the number of bytes of the stored region whose header starts `bytes` (see
    /// [`spec_stored_length`]), or `None` if `bytes` don't hold the whole header.
    pub fn stored_length(bytes: &[u8]) -> (length: Option<usize>)
        ensures
            match length {
                Some(length) => bytes@.len() >= 2 && bytes@.len() >= spec_stored_files_offset(bytes@)
                    && length == spec_stored_length(bytes@),
                None => bytes@.len() < 2 || bytes@.len() < spec_stored_files_offset(bytes@),
            },
    {
        if bytes.len() < 2 {
            return None;
        }
        let bad_blocks_end = 2 + 2 * bytes[1] as usize;
        if bytes.len() < bad_blocks_end + 6 {
            return None;
        }
        let high = bytes[bad_blocks_end + 4];
        let low = bytes[bad_blocks_end + 5];
        let files_count = (high as u16) << 8 | low as u16;
        assert(files_count == ((low as u16) | ((high as u16) << 8u16))) by (bit_vector)
            requires
                files_count == (high as u16) << 8u16 | low as u16,
        ;
        Some(bad_blocks_end + 6 + 16 * files_count as usize)
    }

    /// Returns how many bytes, from the start of the metadata region, must be read to restore the
    /// region, given the `first_page` that was read there: the first page alone if the memory is
    /// used for the first time (its first byte is `0xFF`), else the whole stored region (at least
    /// the first page). Returns `None` if the first page is empty, or if it is in use and doesn't
    /// hold the whole header of the stored region.
    pub fn bytes_to_read(first_page: &[u8]) -> (count: Option<usize>)
        ensures
            match count {
                Some(count) => {
                    &&& first_page@.len() >= 1
                    &&& first_page@[0] == 0xFF ==> count == first_page@.len()
                    &&& first_page@[0] != 0xFF ==> {
                        &&& first_page@.len() >= 2
                        &&& first_page@.len() >= spec_stored_files_offset(first_page@)
                        &&& count == if spec_stored_length(first_page@) > first_page@.len() {
                            spec_stored_length(first_page@)
                        } else {
                            first_page@.len() as int
                        }
                    }
                },
                None => first_page@.len() == 0 || (first_page@[0] != 0xFF && (first_page@.len() < 2
                    || first_page@.len() < spec_stored_files_offset(first_page@))),
            },
            count matches Some(count) ==> forall|page: Seq<u8>|
                #![trigger spec_stored_page_readable(page)]
                page.len() == count && page.subrange(0, first_page@.len() as int) == first_page@
                    ==> spec_stored_page_readable(page),
    {
        proof {
            assert forall|page: Seq<u8>|
                #![trigger spec_stored_page_readable(page)]
                page.len() >= first_page@.len() && page.subrange(0, first_page@.len() as int) == first_page@
                    implies forall|i: int| 0 <= i < first_page@.len() ==> page[i] == #[trigger] first_page@[i] by {
                assert forall|i: int| 0 <= i < first_page@.len() implies page[i] == #[trigger] first_page@[i] by {
                    assert(page.subrange(0, first_page@.len() as int)[i] == page[i]);
                }
            }
        }
        if first_page.len() == 0 {
            return None;
        }
        if first_page[0] == 0xFF {
            return Some(first_page.len());
        }
        match Self::stored_length(first_page) {
            Some(length) => if length > first_page.len() {
                Some(length)
            } else {
                Some(first_page.len())
            },
            None => None,
        }
    }

    /// Restores the region from the `page` of bytes read from the start of the metadata region of
    /// the flash memory.
    ///
    /// Returns `None` if the first byte of the page is `0xFF`: the flash memory is used for the
    /// first time and the region must be created with [`Self::new`] (and then stored). Otherwise
    /// returns the region and the metadatas of the files that were being written, whose blocks must
    /// be erased (those files are invalid).
    pub fn from_stored_page(page: &[u8]) -> (result: Option<(Self, Vec<FileMetadata>)>)
        requires
            spec_stored_page_readable(page@),
        ensures
            page@[0] == 0xFF <==> result is None,
            result matches Some((region, corrupted)) ==> {
                let n = spec_stored_bad_blocks_count(page@);
                &&& region.spec_bad_blocks() == spec_indices_from_bytes(page@.subrange(1, 2 + 2 * n))
                &&& region.spec_highest_used_file_id()@ == spec_u32_from_le_seq(page@.subrange(2 + 2 * n, 6 + 2 * n))
                &&& region.spec_files() == spec_files_being_written(spec_stored_files(page@), false)
                &&& corrupted@ == spec_files_being_written(spec_stored_files(page@), true)
                &&& region.spec_writing_files() == Seq::<FileId>::empty()
                &&& region.spec_validator_master()@ == 0
            },
    {
        if page[0] == 0xFF {
            return None;
        }
        let bad_blocks_count = page[1] as usize;
        let bad_blocks_end = 2 + 2 * bad_blocks_count;
        let bad_block_table = BadBlockTable::from_bytes(slice_subrange(page, 1, bad_blocks_end));
        let highest_used_file_id = FileId::from_bytes(
            [page[bad_blocks_end], page[bad_blocks_end + 1], page[bad_blocks_end + 2], page[bad_blocks_end + 3]],
        );
        let high = page[bad_blocks_end + 4];
        let low = page[bad_blocks_end + 5];
        let files_count = (high as u16) << 8 | low as u16;
        assert(files_count == ((low as u16) | ((high as u16) << 8u16))) by (bit_vector)
            requires
                files_count == (high as u16) << 8u16 | low as u16,
        ;
        let ghost stored = spec_stored_files(page@);
        let mut files_metadatas: Vec<FileMetadata> = Vec::new();
        let mut corrupted: Vec<FileMetadata> = Vec::new();
        let offset = bad_blocks_end + 4 + 2;
        let mut j: u16 = 0;
        while j < files_count
            invariant
                page@.len() >= offset + 16 * files_count,
                stored == spec_stored_files(page@),
                files_count == stored.len(),
                offset == spec_stored_files_offset(page@),
                j <= files_count,
                files_metadatas@ == spec_files_being_written(stored.take(j as int), false),
                corrupted@ == spec_files_being_written(stored.take(j as int), true),
            decreases files_count - j,
        {
            let start = offset + 16 * j as usize;
            let file_metadata = FileMetadata::from_bytes(slice_subrange(page, start, start + 16));
            let writing_file = FileId::writing_file();
            proof {
                assert(file_metadata == stored[j as int]);
                assert(stored.take(j + 1).drop_last() =~= stored.take(j as int));
                assert(stored.take(j + 1).last() == stored[j as int]);
                FileId::lemma_view_injective(file_metadata.id, writing_file);
            }
            if file_metadata.id == writing_file {
                corrupted.push(file_metadata);
            } else {
                files_metadatas.push(file_metadata);
            }
            j = j + 1;
        }
        assert(stored.take(files_count as int) =~= stored);
        let region = Self {
            files_metadatas,
            highest_used_file_id,
            writing_to_files_with_id: Vec::new(),
            bad_block_table,
            metadata_validator_master: FileMetadataValidatorMaster::new(),
        };
        Some((region, corrupted))
    }

    /// Returns whether the region, grown by `extra_bytes` bytes, can be stored in the metadata
    /// blocks of `regions_config` (see [`spec_storable`]).
    pub fn can_be_stored<Chip: FlashMemoryChip>(&self, extra_bytes: u32, regions_config: &RegionsConfig) -> (storable: bool)
        ensures
            storable == spec_storable::<Chip>(
                self.spec_stored_bytes().len() + extra_bytes as nat,
                regions_config,
            ),
    {
        let start = range_start(&regions_config.metadata_block_range) as u64;
        let end = range_end(&regions_config.metadata_block_range) as u64;
        let block_size = Chip::BLOCK_SIZE as u64;
        assert(start * block_size <= 0xFFFF * 0xFFFF_FFFF) by (nonlinear_arith)
            requires
                start <= 0xFFFF,
                block_size <= 0xFFFF_FFFF,
        ;
        assert(end * block_size <= 0xFFFF * 0xFFFF_FFFF) by (nonlinear_arith)
            requires
                end <= 0xFFFF,
                block_size <= 0xFFFF_FFFF,
        ;
        let bytes_count = self.to_stored_bytes().len() as u64;
        start * block_size <= u32::MAX as u64 && end * block_size <= u32::MAX as u64 && bytes_count
            <= (u32::MAX - extra_bytes) as u64
    }

    /// Returns the bytes of the region to store in the flash memory (see
    /// [`Self::spec_stored_bytes`]).
    pub fn to_stored_bytes(&self) -> (bytes: Vec<u8>)
        ensures
            bytes@ == self.spec_stored_bytes(),
    {
        let mut bytes: Vec<u8> = Vec::new();
        bytes.push(0);
        let mut table_bytes = self.bad_block_table.as_bytes();
        let ghost table = spec_table_bytes(self.bad_block_table@);
        let ghost before = bytes@;
        loop
            invariant
                table_bytes.spec_table()@ == self.bad_block_table@,
                table == spec_table_bytes(self.bad_block_table@),
                table_bytes.spec_position() <= table.len(),
                bytes@ == before + table.take(table_bytes.spec_position() as int),
            ensures
                bytes@ == before + table,
            decreases table.len() - table_bytes.spec_position(),
        {
            let ghost position = table_bytes.spec_position();
            match table_bytes.next() {
                Some(byte) => {
                    assert(table.take(position + 1 as int) =~= table.take(position as int).push(byte));
                    bytes.push(byte);
                },
                None => {
                    assert(table.take(position as int) =~= table);
                    break;
                },
            }
        }
        let id_bytes = self.highest_used_file_id.to_bytes();
        push_all(&mut bytes, id_bytes.as_slice());
        let count = u16_to_le_bytes(#[verifier::truncate] (self.files_metadatas.len() as u16));
        bytes.push(count[1]);
        bytes.push(count[0]);
        let mut i: usize = 0;
        let ghost before_files = bytes@;
        while i < self.files_metadatas.len()
            invariant
                i <= self.files_metadatas@.len(),
                bytes@ == before_files + spec_files_bytes(self.files_metadatas@.take(i as int)),
            decreases self.files_metadatas@.len() - i,
        {
            let metadata_bytes = self.files_metadatas[i].to_bytes();
            proof {
                assert(self.files_metadatas@.take(i + 1).drop_last() =~= self.files_metadatas@.take(i as int));
            }
            push_all(&mut bytes, metadata_bytes.as_slice());
            i = i + 1;
        }
        assert(self.files_metadatas@.take(i as int) =~= self.files_metadatas@);
        assert(bytes@ =~= self.spec_stored_bytes());
        bytes
    }

    /// Returns the bytes of the region and the steps that store them in the metadata blocks of the
    /// flash memory (see [`spec_store_steps`]), so that the region can later be restored (even
    /// after shutting down the microcontroller) with [`Self::from_stored_page`].
    pub fn store_in_flash<Chip: FlashMemoryChip>(
        &self,
        spi_flash_memory: &SpiFlashMemory<Chip>,
        regions_config: &RegionsConfig,
    ) -> (stored: (Vec<u8>, Vec<Step<Chip>>))
        requires
            spec_storable::<Chip>(self.spec_stored_bytes().len(), regions_config),
        ensures
            stored.0@ == self.spec_stored_bytes(),
            stored.1@ == spec_store_steps::<Chip>(stored.0@, regions_config),
    {
        let start = range_start(&regions_config.metadata_block_range);
        let end = range_end(&regions_config.metadata_block_range);
        proof {
            Chip::lemma_geometry();
            assert(spec_address_of_block_index::<Chip>(end) == spec_address_range::<Chip>(start, end).1);
        }
        let mut steps = spi_flash_memory.erase_blocks(start, end);
        let bytes = self.to_stored_bytes();
        let address = range_start(&regions_config.metadata_address_range::<Chip>());
        let mut program_steps = spi_flash_memory.program(bytes.len() as u32, address);
        let ghost erase_steps = steps@;
        steps.append(&mut program_steps);
        assert(address == spec_address_range::<Chip>(start, end).0 as u32);
        assert(erase_steps == spec_erase_blocks_steps::<Chip>(start as int, end as int) + seq![Step::<Chip>::Send(Command::WriteDisable)]);
        assert(steps@ == spec_store_steps::<Chip>(bytes@, regions_config));
        (bytes, steps)
    }

    /// Finds a space large enough to store `bytes_count` bytes contiguously (see
    /// [`spec_free_space`]).
    ///
    /// Returns `Ok((new_file_id, new_file_start_address))` if the space has been found, otherwise
    /// returns `Err(NotEnoughSpaceAvailable)` (also when the space is available only after compacting
    /// the memory, which isn't implemented yet).
    ///
    /// # Warning
    /// This won't store the metadata of the newly created file in the flash memory, a call to
    /// [`Self::start_writing_file`] is required.
    pub fn create_file<Chip: FlashMemoryChip>(&mut self, bytes_count: u32, regions_config: &RegionsConfig) -> (result:
        Result<(FileId, u32), NotEnoughSpaceAvailable>)
        requires
            spec_data_holes_computable::<Chip>(
                old(self).spec_bad_blocks(),
                (regions_config.metadata_block_range@.start, regions_config.metadata_block_range@.end),
                old(self).spec_files(),
            ),
            spec_free_space_computable::<Chip>(
                spec_data_holes::<Chip>(
                    old(self).spec_bad_blocks(),
                    (regions_config.metadata_block_range@.start, regions_config.metadata_block_range@.end),
                    old(self).spec_files(),
                ),
                bytes_count,
            ),
            spec_free_space::<Chip>(
                spec_data_holes::<Chip>(
                    old(self).spec_bad_blocks(),
                    (regions_config.metadata_block_range@.start, regions_config.metadata_block_range@.end),
                    old(self).spec_files(),
                ),
                bytes_count,
            ) is Available ==> old(self).spec_highest_used_file_id()@ < u32::MAX,
        ensures
            final(self).spec_files() == old(self).spec_files(),
            final(self).spec_writing_files() == old(self).spec_writing_files(),
            final(self).spec_bad_blocks() == old(self).spec_bad_blocks(),
            final(self).spec_validator_master() == old(self).spec_validator_master(),
            match spec_free_space::<Chip>(
                spec_data_holes::<Chip>(
                    old(self).spec_bad_blocks(),
                    (regions_config.metadata_block_range@.start, regions_config.metadata_block_range@.end),
                    old(self).spec_files(),
                ),
                bytes_count,
            ) {
                FreeSpace::Available { start_address } => {
                    &&& result == Ok::<(FileId, u32), NotEnoughSpaceAvailable>(
                        (old(self).spec_highest_used_file_id(), start_address),
                    )
                    &&& final(self).spec_highest_used_file_id()@ == old(self).spec_highest_used_file_id()@ + 1
                },
                _ => {
                    &&& result == Err::<(FileId, u32), NotEnoughSpaceAvailable>(NotEnoughSpaceAvailable)
                    &&& final(self).spec_highest_used_file_id() == old(self).spec_highest_used_file_id()
                },
            },
    {
        let data_holes = DataHoles::<Chip>::from_metadatas_region(self, regions_config);
        match data_holes.find_space_for_new_data(bytes_count) {
            FreeSpace::NotAvailable => Err(NotEnoughSpaceAvailable),
            // Memory compaction is not implemented yet
            FreeSpace::AvailableButRequiresCompacting => Err(NotEnoughSpaceAvailable),
            FreeSpace::Available { start_address } => {
                let id = self.highest_used_file_id;
                self.highest_used_file_id = FileId::next(id);
                Ok((id, start_address))
            },
        }
    }

    /// Adds the metadata of a file that is going to be written to the region, and returns the bytes
    /// and the steps that store the region in the flash memory (see [`Self::store_in_flash`]).
    pub fn start_writing_file<Chip: FlashMemoryChip>(
        &mut self,
        file_metadata: FileMetadata,
        spi_flash_memory: &SpiFlashMemory<Chip>,
        regions_config: &RegionsConfig,
    ) -> (stored: (Vec<u8>, Vec<Step<Chip>>))
        requires
            spec_storable::<Chip>(old(self).spec_stored_bytes().len() + FILE_METADATA_SIZE as nat, regions_config),
        ensures
            final(self).spec_writing_files() == old(self).spec_writing_files().push(file_metadata.id),
            final(self).spec_files() == old(self).spec_files().push(file_metadata),
            final(self).spec_highest_used_file_id() == old(self).spec_highest_used_file_id(),
            final(self).spec_bad_blocks() == old(self).spec_bad_blocks(),
            final(self).spec_validator_master() == old(self).spec_validator_master(),
            stored.0@ == final(self).spec_stored_bytes(),
            stored.1@ == spec_store_steps::<Chip>(stored.0@, regions_config),
    {
        self.writing_to_files_with_id.push(file_metadata.id);
        self.files_metadatas.push(file_metadata);
        proof {
            assert(self.files_metadatas@.drop_last() =~= old(self).files_metadatas@);
            assert(self.spec_stored_bytes().len() == old(self).spec_stored_bytes().len() + FILE_METADATA_SIZE as nat);
        }
        self.store_in_flash(spi_flash_memory, regions_config)
    }

    /// Marks the file with the identifier `file_id` as completely written.
    ///
    /// Returns `None` if the file wasn't being written, otherwise the bytes and the steps that store
    /// the region in the flash memory (see [`Self::store_in_flash`]).
    pub fn finish_writing_file<Chip: FlashMemoryChip>(
        &mut self,
        file_id: FileId,
        spi_flash_memory: &SpiFlashMemory<Chip>,
        regions_config: &RegionsConfig,
    ) -> (stored: Option<(Vec<u8>, Vec<Step<Chip>>)>)
        requires
            spec_storable::<Chip>(old(self).spec_stored_bytes().len(), regions_config),
        ensures
            final(self).spec_files() == old(self).spec_files(),
            final(self).spec_highest_used_file_id() == old(self).spec_highest_used_file_id(),
            final(self).spec_bad_blocks() == old(self).spec_bad_blocks(),
            final(self).spec_validator_master() == old(self).spec_validator_master(),
            !old(self).spec_writing_files().contains(file_id) ==> {
                &&& stored is None
                &&& final(self).spec_writing_files() == old(self).spec_writing_files()
            },
            old(self).spec_writing_files().contains(file_id) ==> {
                let position = old(self).spec_writing_files().index_of_first(file_id).unwrap();
                &&& final(self).spec_writing_files() == spec_swap_remove(old(self).spec_writing_files(), position)
                &&& stored matches Some(stored) && stored.0@ == final(self).spec_stored_bytes()
                    && stored.1@ == spec_store_steps::<Chip>(stored.0@, regions_config)
            },
    {
        let mut position: usize = 0;
        let ghost writing = self.writing_to_files_with_id@;
        while position < self.writing_to_files_with_id.len()
            invariant
                *self == *old(self),
                spec_storable::<Chip>(self.spec_stored_bytes().len(), regions_config),
                writing == self.writing_to_files_with_id@,
                position <= writing.len(),
                forall|j: int| 0 <= j < position ==> writing[j] != file_id,
            decreases writing.len() - position,
        {
            if self.writing_to_files_with_id[position] == file_id {
                proof {
                    writing.index_of_first_ensures(file_id);
                    assert(writing[position as int] == file_id);
                    assert(writing.contains(file_id));
                    let first = writing.index_of_first(file_id).unwrap();
                    if first < position {
                        assert(writing[first] != file_id);
                    }
                    assert(first == position);
                }
                self.writing_to_files_with_id.swap_remove(position);
                return Some(self.store_in_flash(spi_flash_memory, regions_config));
            }
            position = position + 1;
        }
        None
    }

    /// If a file with the specified `file_id` is stored in this region, returns the metadata of the
    /// first one wrapped in `Some`. Otherwise returns `None`.
    pub fn get_file_metadata(&self, file_id: FileId) -> (metadata: Option<FileMetadata>)
        ensures
            spec_position_of(self.spec_files(), file_id) < self.spec_files().len() ==> metadata == Some(
                self.spec_files()[spec_position_of(self.spec_files(), file_id)],
            ),
            !spec_contains_id(self.spec_files(), file_id) <==> metadata is None,
    {
        let position = self.position_of(file_id);
        if position < self.files_metadatas.len() {
            Some(self.files_metadatas[position])
        } else {
            None
        }
    }

    /// Returns `true` if a file with the specified `file_id` is stored in this region, otherwise
    /// returns `false`.
    pub fn does_file_exist(&self, file_id: FileId) -> (exists: bool)
        ensures
            exists == spec_contains_id(self.spec_files(), file_id),
    {
        self.position_of(file_id) < self.files_metadatas.len()
    }

    /// Returns the index of the first file whose identifier is `file_id` (see
    /// [`spec_position_of`]).
    fn position_of(&self, file_id: FileId) -> (position: usize)
        ensures
            position == spec_position_of(self.spec_files(), file_id),
            position < self.spec_files().len() <==> spec_contains_id(self.spec_files(), file_id),
    {
        proof {
            lemma_position_of(self.files_metadatas@, file_id);
        }
        let ghost k = spec_position_of(self.files_metadatas@, file_id);
        let mut i: usize = 0;
        while i < self.files_metadatas.len()
            invariant
                i <= k,
                k == spec_position_of(self.files_metadatas@, file_id),
                0 <= k <= self.files_metadatas@.len(),
                k < self.files_metadatas@.len() ==> self.files_metadatas@[k].id == file_id,
                forall|j: int| 0 <= j < k ==> (#[trigger] self.files_metadatas@[j]).id != file_id,
            decreases self.files_metadatas@.len() - i,
        {
            if self.files_metadatas[i].id == file_id {
                return i;
            }
            i = i + 1;
        }
        i
    }

    /// Removes the first file with the specified `file_id` from the region (the last file takes its
    /// place) and returns its metadata; returns `Err(FileDoesntExist)` when there's no such file.
    ///
    /// # Warning
    /// A call to [`Self::store_in_flash`] is required after calling this method to actually store
    /// the modified region in the flash memory.
    pub fn delete_file(&mut self, file_id: FileId) -> (result: Result<FileMetadata, FileDoesntExist>)
        ensures
            final(self).spec_highest_used_file_id() == old(self).spec_highest_used_file_id(),
            final(self).spec_writing_files() == old(self).spec_writing_files(),
            final(self).spec_bad_blocks() == old(self).spec_bad_blocks(),
            final(self).spec_validator_master() == old(self).spec_validator_master(),
            !spec_contains_id(old(self).spec_files(), file_id) ==> {
                &&& result == Err::<FileMetadata, FileDoesntExist>(FileDoesntExist)
                &&& final(self).spec_files() == old(self).spec_files()
            },
            spec_contains_id(old(self).spec_files(), file_id) ==> {
                let position = spec_position_of(old(self).spec_files(), file_id);
                &&& result == Ok::<FileMetadata, FileDoesntExist>(old(self).spec_files()[position])
                &&& final(self).spec_files() == spec_swap_remove(old(self).spec_files(), position)
            },
    {
        let position = self.position_of(file_id);
        if position < self.files_metadatas.len() {
            let file_metadata = self.files_metadatas[position];
            self.files_metadatas.swap_remove(position);
            Ok(file_metadata)
        } else {
            Err(FileDoesntExist)
        }
    }

    /// Returns a reference to the metadatas of all the files stored in this region.
    pub fn get_files_metadatas(&self) -> (files: &[FileMetadata])
        ensures
            files@ == self.spec_files(),
    {
        self.files_metadatas.as_slice()
    }

    /// Returns the current file validator.
    pub fn get_file_validator(&self) -> (validator: FileMetadataValidator)
        ensures
            validator@ == self.spec_validator_master()@,
    {
        self.metadata_validator_master.create_validator()
    }

    pub(crate) fn get_validator_master_generation(&self) -> (generation: u32)
        ensures
            generation == self.spec_validator_master()@,
    {
        self.metadata_validator_master.generation()
    }

    pub(crate) fn bad_block_indices(&self) -> (indices: &[u16])
        ensures
            indices@ == self.spec_bad_blocks(),
    {
        self.bad_block_table.indices()
    }
}

/// The bytes of the `j`-th metadata of `files` are the `j`-th 16 bytes of their bytes.
proof fn lemma_files_bytes_at(files: Seq<FileMetadata>, j: int)
    requires
        0 <= j < files.len(),
    ensures
        spec_files_bytes(files).len() == 16 * files.len(),
        spec_files_bytes(files).subrange(16 * j, 16 * j + 16) == files[j].spec_bytes(),
    decreases files.len(),
{
    let shorter = files.drop_last();
    lemma_files_bytes_len(shorter);
    assert(files.last().spec_bytes().len() == 16);
    if j < files.len() - 1 {
        lemma_files_bytes_at(shorter, j);
        assert(shorter[j] == files[j]);
        assert(spec_files_bytes(files).subrange(16 * j, 16 * j + 16) =~= spec_files_bytes(shorter).subrange(
            16 * j,
            16 * j + 16,
        ));
    } else {
        assert(spec_files_bytes(files).subrange(16 * j, 16 * j + 16) =~= files.last().spec_bytes());
    }
}

/// Without files being written, all the files are kept and none is set aside.
proof fn lemma_no_files_being_written(files: Seq<FileMetadata>)
    requires
        forall|i: int| 0 <= i < files.len() ==> (#[trigger] files[i]).id@ != u32::MAX,
    ensures
        spec_files_being_written(files, false) == files,
        spec_files_being_written(files, true) == Seq::<FileMetadata>::empty(),
    decreases files.len(),
{
    if files.len() > 0 {
        let shorter = files.drop_last();
        assert forall|i: int| 0 <= i < shorter.len() implies (#[trigger] shorter[i]).id@ != u32::MAX by {
            assert(shorter[i] == files[i]);
        }
        lemma_no_files_being_written(shorter);
        assert(files.last() == files[files.len() - 1]);
        assert(shorter.push(files.last()) =~= files);
    }
}

/// What [`FilesMetadatasRegion::store_in_flash`] stores is read back by
/// [`FilesMetadatasRegion::from_stored_page`]: from a page that starts with the stored bytes of a
/// region, the region is restored with the same bad blocks, the same highest used identifier and
/// the same files, and no file is set aside as being written. The bad blocks are at most 255 and
/// the files at most 65535, as their numbers are stored in a byte and in two bytes, and no file has
/// the identifier of the files being written.
pub proof fn lemma_stored_region_is_read_back(region: FilesMetadatasRegion, page: Seq<u8>)
    requires
        region.spec_bad_blocks().len() <= 255,
        region.spec_files().len() <= u16::MAX,
        forall|i: int| 0 <= i < region.spec_files().len() ==> (#[trigger] region.spec_files()[i]).id@ != u32::MAX,
        region.spec_stored_bytes().len() <= page.len(),
        page.subrange(0, region.spec_stored_bytes().len() as int) == region.spec_stored_bytes(),
    ensures
        spec_stored_page_readable(page),
        spec_stored_length(page) == region.spec_stored_bytes().len(),
        page[0] != 0xFF,
        spec_stored_bad_blocks_count(page) == region.spec_bad_blocks().len(),
        spec_indices_from_bytes(page.subrange(1, 2 + 2 * spec_stored_bad_blocks_count(page)))
            == region.spec_bad_blocks(),
        spec_u32_from_le_seq(
            page.subrange(2 + 2 * spec_stored_bad_blocks_count(page), 6 + 2 * spec_stored_bad_blocks_count(page)),
        ) == region.spec_highest_used_file_id()@,
        spec_stored_files_count(page) == region.spec_files().len(),
        spec_files_being_written(spec_stored_files(page), false) == region.spec_files(),
        spec_files_being_written(spec_stored_files(page), true) == Seq::<FileMetadata>::empty(),
{
    let bad = region.spec_bad_blocks();
    let files = region.spec_files();
    let id = region.spec_highest_used_file_id()@;
    let n = bad.len() as int;
    let m = files.len();
    let table = spec_table_bytes(bad);
    let stored = region.spec_stored_bytes();
    lemma_table_bytes_roundtrip(bad);
    lemma_files_bytes_len(files);
    lemma_u32_le_roundtrip(id);
    lemma_u16_le_roundtrip(m as u16);
    assert(stored.len() == 8 + 2 * n + 16 * m);
    assert forall|k: int| 0 <= k < stored.len() implies page[k] == stored[k] by {
        assert(page.subrange(0, stored.len() as int)[k] == page[k]);
    }
    assert(page[0] == 0);
    assert(page[1] == table[0]);
    assert(page.subrange(1, 2 + 2 * n) =~= table);
    assert(page.subrange(2 + 2 * n, 6 + 2 * n) =~= spec_u32_to_le(id));
    assert(page[6 + 2 * n] == spec_u16_to_le(m as u16)[1]);
    assert(page[7 + 2 * n] == spec_u16_to_le(m as u16)[0]);
    let stored_files = spec_stored_files(page);
    assert(stored_files.len() == m);
    assert forall|j: int| 0 <= j < m implies #[trigger] stored_files[j] == files[j] by {
        lemma_files_bytes_at(files, j);
        let offset = 8 + 2 * n;
        assert(page.subrange(offset + 16 * j, offset + 16 * j + 16) =~= spec_files_bytes(files).subrange(
            16 * j,
            16 * j + 16,
        ));
        FileMetadata::lemma_bytes_roundtrip(files[j]);
    }
    assert(stored_files =~= files);
    lemma_no_files_being_written(files);
}

/// The bytes of the metadatas of `files` are 16 per file.
pub proof fn lemma_files_bytes_len(files: Seq<FileMetadata>)
    ensures
        spec_files_bytes(files).len() == 16 * files.len(),
    decreases files.len(),
{
    if files.len() > 0 {
        lemma_files_bytes_len(files.drop_last());
    }
}

/// Appends all the `bytes` at the end of `vec`.
fn push_all(vec: &mut Vec<u8>, bytes: &[u8])
    ensures
        final(vec)@ == old(vec)@ + bytes@,
{
    let mut i: usize = 0;
    while i < bytes.len()
        invariant
            i <= bytes@.len(),
            vec@ == old(vec)@ + bytes@.take(i as int),
        decreases bytes@.len() - i,
    {
        assert(bytes@.take(i + 1) =~= bytes@.take(i as int).push(bytes@[i as int]));
        vec.push(bytes[i]);
        i = i + 1;
    }
    assert(bytes@.take(i as int) =~= bytes@);
}

} // verus!
