//! A file system stored in a flash memory.
//!
//! The metadatas of the files (and the bad block table) are stored in the blocks of the metadata
//! region, the names and the data of the files in the other blocks. Every operation that touches
//! the flash memory is planned as [`Step`]s for the platform to execute.
pub mod bad_blocks;
pub mod regions;

use vstd::prelude::*;

use self::regions::data::{spec_delete_file_steps, spec_name_bytes, FileReader, FileWriter, FilesRegion};
use self::regions::metadata::data_holes::{spec_data_holes, spec_data_holes_computable, spec_free_space, spec_free_space_computable};
use self::regions::metadata::{
    lemma_files_bytes_len, spec_contains_id, spec_position_of, spec_store_steps, spec_storable, spec_swap_remove,
    FileDoesntExist, FileId, FileMetadata, FilesMetadatasRegion, FreeSpace, NotEnoughSpaceAvailable, FILE_METADATA_SIZE,
};
use self::regions::RegionsConfig;
use super::drivers::spi_flash_memory::chip::FlashMemoryChip;
use super::drivers::spi_flash_memory::{SpiFlashMemory, Step};

verus! {

/// A file system stored in a flash memory made of a `Chip`.
pub struct FileSystem<Chip: FlashMemoryChip> {
    spi_flash_memory: SpiFlashMemory<Chip>,
    regions_config: RegionsConfig,
    metadatas_region: FilesMetadatasRegion,
    files_region: FilesRegion,
}

/// An error returned from [`FileSystem::delete_file`].
#[derive(Debug)]
pub enum DeleteFileError<E> {
    /// The file you tried to delete doesn't exist in the file system.
    FileDoesntExist,
    /// It has been impossible to erase the data portion of the file from the flash memory.
    CantDeleteFile(E),
    /// It has been impossible to erase the metadata portion of the file from the flash memory.
    CantDeleteFileMetadata(E),
}

/// The arguments of [`FilesMetadatasRegion::create_file`] called by [`FileSystem::create_file`]
/// for a file whose name is `name_length` bytes long and whose data is `data_size` bytes long.
pub open spec fn spec_free_space_for_file<Chip: FlashMemoryChip>(
    region: FilesMetadatasRegion,
    config: RegionsConfig,
    name_length: nat,
    data_size: u32,
) -> FreeSpace {
    spec_free_space::<Chip>(
        spec_data_holes::<Chip>(
            region.spec_bad_blocks(),
            (config.metadata_block_range@.start, config.metadata_block_range@.end),
            region.spec_files(),
        ),
        ((name_length as u32) + data_size) as u32,
    )
}

impl<Chip: FlashMemoryChip> FileSystem<Chip> {
    /// The region of the metadatas of the files.
    pub closed spec fn spec_metadatas_region(&self) -> FilesMetadatasRegion {
        self.metadatas_region
    }

    /// The configuration of the regions.
    pub closed spec fn spec_regions_config(&self) -> RegionsConfig {
        self.regions_config
    }

    /// The flash memory.
    pub closed spec fn spec_spi_flash_memory(&self) -> SpiFlashMemory<Chip> {
        self.spi_flash_memory
    }

    /// Returns the file system stored in `spi_flash_memory` whose metadata region, restored from
    /// the memory (see [`FilesMetadatasRegion::from_stored_page`]), is `metadatas_region`.
    pub fn new(
        spi_flash_memory: SpiFlashMemory<Chip>,
        regions_config: RegionsConfig,
        metadatas_region: FilesMetadatasRegion,
    ) -> (file_system: Self)
        ensures
            file_system.spec_spi_flash_memory() == spi_flash_memory,
            file_system.spec_regions_config() == regions_config,
            file_system.spec_metadatas_region() == metadatas_region,
    {
        Self { spi_flash_memory, regions_config, metadatas_region, files_region: FilesRegion }
    }

    /// Returns `true` if you [`created`] a file before that had the provided `file_id` and you
    /// didn't [`delete`] it. Otherwise returns `false`.
    ///
    /// [`created`]: Self::create_file
    /// [`delete`]: Self::delete_file
    pub fn does_file_exist(&self, file_id: FileId) -> (exists: bool)
        ensures
            exists == spec_contains_id(self.spec_metadatas_region().spec_files(), file_id),
    {
        self.metadatas_region.does_file_exist(file_id)
    }

    /// Returns a slice of all the metadatas of all the files you [`created`] and didn't
    /// [`delete`].
    ///
    /// [`created`]: Self::create_file
    /// [`delete`]: Self::delete_file
    pub fn get_existing_files_metadatas(&self) -> (files: &[FileMetadata])
        ensures
            files@ == self.spec_metadatas_region().spec_files(),
    {
        self.metadatas_region.get_files_metadatas()
    }

    /// Opens the file with the provided `file_id` so that you can read it in the future.
    ///
    /// Returns `Err(FileDoesntExist)` if a file with the provided `file_id` isn't stored in the
    /// file system, otherwise returns `Ok(FileReader)` (check [`FileReader`] to understand how to
    /// read the file's content).
    pub fn read_file(&self, file_id: FileId) -> (result: Result<FileReader<Chip>, FileDoesntExist>)
        ensures
            !spec_contains_id(self.spec_metadatas_region().spec_files(), file_id) <==> result is Err,
            result matches Ok(reader) ==> {
                let files = self.spec_metadatas_region().spec_files();
                &&& reader.spec_metadata() == files[spec_position_of(files, file_id)]
                &&& reader.spec_metadata().id == file_id
                &&& reader.spec_cursor() == 0
                &&& reader.spec_validator()@ == self.spec_metadatas_region().spec_validator_master()@
            },
    {
        proof {
            regions::metadata::lemma_position_of(self.metadatas_region.spec_files(), file_id);
        }
        match self.metadatas_region.get_file_metadata(file_id) {
            Some(metadata) => Ok(
                self.files_region.open_file_for_read(metadata, self.metadatas_region.get_file_validator()),
            ),
            None => Err(FileDoesntExist),
        }
    }

    /// Creates a file with the name `file_name` and whose data will occupy `data_size` bytes.
    ///
    /// Returns `Err(NotEnoughSpaceAvailable)` if there's not enough space in the flash memory to
    /// store a file of the provided size. Otherwise returns `Ok(FileWriter)` (check [`FileWriter`]
    /// to understand how to write the file's content).
    pub fn create_file(&mut self, file_name: String, data_size: u32) -> (result: Result<FileWriter<Chip>, NotEnoughSpaceAvailable>)
        requires
            spec_name_bytes(file_name).len() as u32 + data_size <= u32::MAX,
            spec_data_holes_computable::<Chip>(
                old(self).spec_metadatas_region().spec_bad_blocks(),
                (old(self).spec_regions_config().metadata_block_range@.start, old(self).spec_regions_config().metadata_block_range@.end),
                old(self).spec_metadatas_region().spec_files(),
            ),
            spec_free_space_computable::<Chip>(
                spec_data_holes::<Chip>(
                    old(self).spec_metadatas_region().spec_bad_blocks(),
                    (old(self).spec_regions_config().metadata_block_range@.start, old(self).spec_regions_config().metadata_block_range@.end),
                    old(self).spec_metadatas_region().spec_files(),
                ),
                (spec_name_bytes(file_name).len() as u32 + data_size) as u32,
            ),
            spec_free_space_for_file::<Chip>(
                old(self).spec_metadatas_region(),
                old(self).spec_regions_config(),
                spec_name_bytes(file_name).len(),
                data_size,
            ) is Available ==> old(self).spec_metadatas_region().spec_highest_used_file_id()@ < u32::MAX,
        ensures
            final(self).spec_regions_config() == old(self).spec_regions_config(),
            final(self).spec_metadatas_region().spec_files() == old(self).spec_metadatas_region().spec_files(),
            final(self).spec_metadatas_region().spec_validator_master() == old(self).spec_metadatas_region().spec_validator_master(),
            match spec_free_space_for_file::<Chip>(
                old(self).spec_metadatas_region(),
                old(self).spec_regions_config(),
                spec_name_bytes(file_name).len(),
                data_size,
            ) {
                FreeSpace::Available { start_address } => result matches Ok(writer) && {
                    let id = old(self).spec_metadatas_region().spec_highest_used_file_id();
                    &&& writer.spec_metadata() == (FileMetadata {
                        id,
                        start_memory_address: start_address,
                        file_name_length: spec_name_bytes(file_name).len() as u32,
                        file_data_length: data_size,
                    })
                    &&& writer.spec_name() == Some(file_name)
                    &&& writer.spec_cursor() == 0
                    &&& writer.spec_validator()@ == old(self).spec_metadatas_region().spec_validator_master()@
                    &&& final(self).spec_metadatas_region().spec_highest_used_file_id()@ == id@ + 1
                },
                _ => {
                    &&& result is Err
                    &&& final(self).spec_metadatas_region().spec_highest_used_file_id()
                        == old(self).spec_metadatas_region().spec_highest_used_file_id()
                },
            },
    {
        let file_name_length = file_name.as_str().as_bytes().len() as u32;
        let (file_id, start_address) = match self.metadatas_region.create_file::<Chip>(
            file_name_length + data_size,
            &self.regions_config,
        ) {
            Ok(created) => created,
            Err(error) => return Err(error),
        };
        let file_metadata = FileMetadata {
            id: file_id,
            start_memory_address: start_address,
            file_name_length,
            file_data_length: data_size,
        };
        Ok(self.files_region.create_file(file_metadata, file_name, self.metadatas_region.get_file_validator()))
    }

    /// Deletes the file with the provided `file_id` from the file system.
    ///
    /// Returns `Err(DeleteFileError::FileDoesntExist)` if there's no such file. Otherwise the file
    /// is removed from the metadata region and the result holds the steps that erase the blocks of
    /// the file, then the bytes of the metadata region and the steps that store them (a failure of
    /// the former is a [`DeleteFileError::CantDeleteFile`], of the latter a
    /// [`DeleteFileError::CantDeleteFileMetadata`]).
    pub fn delete_file<E>(&mut self, file_id: FileId) -> (result: Result<(Vec<Step<Chip>>, Vec<u8>, Vec<Step<Chip>>), DeleteFileError<E>>)
        requires
            forall|i: int|
                0 <= i < old(self).spec_metadatas_region().spec_files().len() ==> (#[trigger] old(
                    self,
                ).spec_metadatas_region().spec_files()[i]).spec_end_memory_address() <= u32::MAX,
            spec_storable::<Chip>(
                old(self).spec_metadatas_region().spec_stored_bytes().len(),
                &old(self).spec_regions_config(),
            ),
        ensures
            final(self).spec_regions_config() == old(self).spec_regions_config(),
            ({
                let old_region = old(self).spec_metadatas_region();
                let region = final(self).spec_metadatas_region();
                if !spec_contains_id(old_region.spec_files(), file_id) {
                    &&& result matches Err(DeleteFileError::FileDoesntExist)
                    &&& region.spec_files() == old_region.spec_files()
                    &&& region.spec_highest_used_file_id() == old_region.spec_highest_used_file_id()
                    &&& region.spec_writing_files() == old_region.spec_writing_files()
                    &&& region.spec_bad_blocks() == old_region.spec_bad_blocks()
                    &&& region.spec_validator_master() == old_region.spec_validator_master()
                } else {
                    let position = spec_position_of(old_region.spec_files(), file_id);
                    &&& region.spec_files() == spec_swap_remove(old_region.spec_files(), position)
                    &&& region.spec_highest_used_file_id() == old_region.spec_highest_used_file_id()
                    &&& region.spec_writing_files() == old_region.spec_writing_files()
                    &&& region.spec_bad_blocks() == old_region.spec_bad_blocks()
                    &&& region.spec_validator_master() == old_region.spec_validator_master()
                    &&& result matches Ok((erase_file, bytes, store))
                        && erase_file@ == spec_delete_file_steps::<Chip>(old_region.spec_files()[position])
                        && bytes@ == region.spec_stored_bytes()
                        && store@ == spec_store_steps::<Chip>(bytes@, &old(self).spec_regions_config())
                }
            }),
    {
        let file_metadata = match self.metadatas_region.delete_file(file_id) {
            Ok(file_metadata) => file_metadata,
            Err(_) => return Err(DeleteFileError::FileDoesntExist),
        };
        proof {
            regions::metadata::lemma_position_of(old(self).metadatas_region.spec_files(), file_id);
            lemma_files_bytes_len(old(self).metadatas_region.spec_files());
            lemma_files_bytes_len(self.metadatas_region.spec_files());
        }
        let erase_file = self.files_region.delete_file(file_metadata, &self.spi_flash_memory);
        let (bytes, store) = self.metadatas_region.store_in_flash(&self.spi_flash_memory, &self.regions_config);
        Ok((erase_file, bytes, store))
    }

    /// Returns the flash memory of the file system.
    pub fn get_spi_flash_memory(&self) -> (spi_flash_memory: &SpiFlashMemory<Chip>)
        ensures
            *spi_flash_memory == self.spec_spi_flash_memory(),
    {
        &self.spi_flash_memory
    }

    /// Returns the configuration of the regions of the file system.
    pub fn get_regions_config(&self) -> (regions_config: &RegionsConfig)
        ensures
            *regions_config == self.spec_regions_config(),
    {
        &self.regions_config
    }

    /// Returns the region of the metadatas of the files.
    pub fn get_metadatas_region(&self) -> (region: &FilesMetadatasRegion)
        ensures
            *region == self.spec_metadatas_region(),
    {
        &self.metadatas_region
    }

    /// Adds the metadata of a file that is going to be written (see
    /// [`FilesMetadatasRegion::start_writing_file`]).
    pub(crate) fn start_writing_file(&mut self, file_metadata: FileMetadata) -> (stored: (Vec<u8>, Vec<Step<Chip>>))
        requires
            spec_storable::<Chip>(
                old(self).spec_metadatas_region().spec_stored_bytes().len() + FILE_METADATA_SIZE as nat,
                &old(self).spec_regions_config(),
            ),
        ensures
            final(self).spec_regions_config() == old(self).spec_regions_config(),
            final(self).spec_spi_flash_memory() == old(self).spec_spi_flash_memory(),
            final(self).spec_metadatas_region().spec_writing_files()
                == old(self).spec_metadatas_region().spec_writing_files().push(file_metadata.id),
            final(self).spec_metadatas_region().spec_files() == old(self).spec_metadatas_region().spec_files().push(
                file_metadata,
            ),
            final(self).spec_metadatas_region().spec_highest_used_file_id()
                == old(self).spec_metadatas_region().spec_highest_used_file_id(),
            final(self).spec_metadatas_region().spec_bad_blocks() == old(self).spec_metadatas_region().spec_bad_blocks(),
            final(self).spec_metadatas_region().spec_validator_master()
                == old(self).spec_metadatas_region().spec_validator_master(),
            stored.0@ == final(self).spec_metadatas_region().spec_stored_bytes(),
            stored.1@ == spec_store_steps::<Chip>(stored.0@, &old(self).spec_regions_config()),
    {
        self.metadatas_region.start_writing_file(file_metadata, &self.spi_flash_memory, &self.regions_config)
    }

    /// Marks the file with the identifier `file_id` as completely written (see
    /// [`FilesMetadatasRegion::finish_writing_file`]).
    pub(crate) fn finish_writing_file(&mut self, file_id: FileId) -> (stored: Option<(Vec<u8>, Vec<Step<Chip>>)>)
        requires
            spec_storable::<Chip>(
                old(self).spec_metadatas_region().spec_stored_bytes().len(),
                &old(self).spec_regions_config(),
            ),
        ensures
            final(self).spec_regions_config() == old(self).spec_regions_config(),
            final(self).spec_spi_flash_memory() == old(self).spec_spi_flash_memory(),
            final(self).spec_metadatas_region().spec_files() == old(self).spec_metadatas_region().spec_files(),
            final(self).spec_metadatas_region().spec_highest_used_file_id()
                == old(self).spec_metadatas_region().spec_highest_used_file_id(),
            final(self).spec_metadatas_region().spec_bad_blocks() == old(self).spec_metadatas_region().spec_bad_blocks(),
            final(self).spec_metadatas_region().spec_validator_master()
                == old(self).spec_metadatas_region().spec_validator_master(),
            !old(self).spec_metadatas_region().spec_writing_files().contains(file_id) ==> {
                &&& stored is None
                &&& final(self).spec_metadatas_region().spec_writing_files()
                    == old(self).spec_metadatas_region().spec_writing_files()
            },
            old(self).spec_metadatas_region().spec_writing_files().contains(file_id) ==> {
                let position = old(self).spec_metadatas_region().spec_writing_files().index_of_first(file_id).unwrap();
                &&& final(self).spec_metadatas_region().spec_writing_files() == spec_swap_remove(
                    old(self).spec_metadatas_region().spec_writing_files(),
                    position,
                )
                &&& stored matches Some(stored) && stored.0@ == final(self).spec_metadatas_region().spec_stored_bytes()
                    && stored.1@ == spec_store_steps::<Chip>(stored.0@, &old(self).spec_regions_config())
            },
    {
        self.metadatas_region.finish_writing_file(file_id, &self.spi_flash_memory, &self.regions_config)
    }
}

} // verus!
