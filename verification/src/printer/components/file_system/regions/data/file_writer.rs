//! Writing the files.
use std::marker::PhantomData;

use vstd::prelude::*;

use crate::printer::components::drivers::spi_flash_memory::chip::FlashMemoryChip;
use crate::printer::components::drivers::spi_flash_memory::{spec_program_data_steps, Step};
use crate::printer::components::file_system::regions::metadata::{
    spec_contains_id, spec_store_steps, spec_storable, spec_swap_remove, FileMetadata, FileMetadataValidator,
    FILE_METADATA_SIZE,
};
use crate::printer::components::file_system::FileSystem;

verus! {

/// The writer of a file: it writes the data of the file sequentially, from the start to the end.
///
/// Every write is planned by [`FileWriter::write_data`] as the steps that program the data in the
/// flash memory; once they have been executed, [`FileWriter::advance_cursor`] moves the position of
/// the writer after the data written. When all the data has been written,
/// [`FileWriter::finish_writing`] must be called.
pub struct FileWriter<Chip: FlashMemoryChip> {
    file_metadata: FileMetadata,
    name: Option<String>,
    cursor: u32,
    validator: FileMetadataValidator,
    _chip: PhantomData<Chip>,
}

/// The operations planned by [`FileWriter::write_data`], to execute in this order.
pub struct WriteSteps<Chip: FlashMemoryChip> {
    /// On the first write of the file: the bytes of the metadata region (which now contains the
    /// metadata of the file) and the steps that store them in the flash memory.
    pub metadatas_region: Option<(Vec<u8>, Vec<Step<Chip>>)>,
    /// On the first write of the file: its name and the steps that program the bytes of the name
    /// at the start of the file.
    pub name: Option<(String, Vec<Step<Chip>>)>,
    /// The steps that program the data in the file at the current position.
    pub data: Vec<Step<Chip>>,
}

/// An error returned by [`FileWriter::finish_writing`].
#[derive(Debug)]
pub enum WriteError<E> {
    /// An error during the communication with the flash memory chip.
    Spi(E),
    /// The file has been deleted from the file system.
    DoesntExistAnymore,
}

impl<Chip: FlashMemoryChip> FileWriter<Chip> {
    /// The metadata of the file written.
    pub closed spec fn spec_metadata(&self) -> FileMetadata {
        self.file_metadata
    }

    /// The name of the file, until it's written.
    pub closed spec fn spec_name(&self) -> Option<String> {
        self.name
    }

    /// The number of bytes of the data of the file written so far.
    pub closed spec fn spec_cursor(&self) -> u32 {
        self.cursor
    }

    /// The validator of the memory addresses of the file.
    pub closed spec fn spec_validator(&self) -> FileMetadataValidator {
        self.validator
    }

    /// The address of the next byte of data to write.
    pub open spec fn spec_next_address(&self) -> int {
        self.spec_metadata().start_memory_address + self.spec_metadata().file_name_length + self.spec_cursor()
    }

    pub(crate) fn new(file_metadata: FileMetadata, name: String, validator: FileMetadataValidator) -> (writer: Self)
        ensures
            writer.spec_metadata() == file_metadata,
            writer.spec_name() == Some(name),
            writer.spec_cursor() == 0,
            writer.spec_validator() == validator,
    {
        Self { file_metadata, name: Some(name), cursor: 0, validator, _chip: PhantomData }
    }

    /// Plans the write of `data_length` bytes of a buffer in the file at the current position.
    ///
    /// The first time, the metadata of the file is added to the metadata region of the file system
    /// (and the region is stored) and the name of the file is programmed at its start. After
    /// executing the steps, call [`Self::advance_cursor`] with `data_length`.
    pub fn write_data(&mut self, file_system: &mut FileSystem<Chip>, data_length: u32) -> (steps: WriteSteps<Chip>)
        requires
            old(self).spec_next_address() <= u32::MAX,
            old(self).spec_name() is Some ==> spec_storable::<Chip>(
                old(file_system).spec_metadatas_region().spec_stored_bytes().len() + FILE_METADATA_SIZE as nat,
                &old(file_system).spec_regions_config(),
            ),
        ensures
            final(self).spec_metadata() == old(self).spec_metadata(),
            final(self).spec_cursor() == old(self).spec_cursor(),
            final(self).spec_validator() == old(self).spec_validator(),
            final(self).spec_name() is None,
            final(file_system).spec_regions_config() == old(file_system).spec_regions_config(),
            steps.data@ == spec_program_data_steps::<Chip>(data_length, old(self).spec_next_address() as u32),
            old(self).spec_name() is None ==> {
                &&& *final(file_system) == *old(file_system)
                &&& steps.metadatas_region is None
                &&& steps.name is None
            },
            old(self).spec_name() matches Some(name) ==> {
                let region = final(file_system).spec_metadatas_region();
                let old_region = old(file_system).spec_metadatas_region();
                &&& region.spec_files() == old_region.spec_files().push(old(self).spec_metadata())
                &&& region.spec_writing_files() == old_region.spec_writing_files().push(old(self).spec_metadata().id)
                &&& region.spec_highest_used_file_id() == old_region.spec_highest_used_file_id()
                &&& region.spec_bad_blocks() == old_region.spec_bad_blocks()
                &&& region.spec_validator_master() == old_region.spec_validator_master()
                &&& steps.metadatas_region matches Some(stored) && stored.0@ == region.spec_stored_bytes()
                    && stored.1@ == spec_store_steps::<Chip>(stored.0@, &old(file_system).spec_regions_config())
                &&& steps.name matches Some(written) && written.0 == name && written.1@
                    == spec_program_data_steps::<Chip>(
                    old(self).spec_metadata().file_name_length,
                    old(self).spec_metadata().start_memory_address,
                )
            },
    {
        let mut metadatas_region = None;
        let mut name_steps = None;
        let name = self.name.take();
        match name {
            Some(name) => {
                metadatas_region = Some(file_system.start_writing_file(self.file_metadata));
                let steps = file_system.get_spi_flash_memory().program(
                    self.file_metadata.file_name_length,
                    self.file_metadata.start_memory_address,
                );
                name_steps = Some((name, steps));
            },
            None => {},
        }
        let address = self.file_metadata.start_memory_address + self.file_metadata.file_name_length + self.cursor;
        let data = file_system.get_spi_flash_memory().program(data_length, address);
        WriteSteps { metadatas_region, name: name_steps, data }
    }

    /// Returns the memory address of the next byte of data to write.
    pub fn next_address(&self) -> (address: u64)
        ensures
            address == self.spec_next_address(),
    {
        self.file_metadata.start_memory_address as u64 + self.file_metadata.file_name_length as u64
            + self.cursor as u64
    }

    /// Returns `true` until the name of the file has been planned to be written, by the first
    /// [`Self::write_data`].
    pub fn has_name_to_write(&self) -> (pending: bool)
        ensures
            pending == self.spec_name() is Some,
    {
        self.name.is_some()
    }

    /// Moves the position of the writer after the `written_bytes_count` bytes written by the steps
    /// planned by [`Self::write_data`].
    pub fn advance_cursor(&mut self, written_bytes_count: u32)
        requires
            old(self).spec_cursor() + written_bytes_count <= u32::MAX,
        ensures
            final(self).spec_cursor() == old(self).spec_cursor() + written_bytes_count,
            final(self).spec_metadata() == old(self).spec_metadata(),
            final(self).spec_name() == old(self).spec_name(),
            final(self).spec_validator() == old(self).spec_validator(),
    {
        self.cursor = self.cursor + written_bytes_count;
    }

    /// Marks the file as completely written in the metadata region of the file system.
    ///
    /// Returns `Err(WriteError::DoesntExistAnymore)` if the file has been deleted while its memory
    /// addresses are still valid. Otherwise returns, when the file was being written, the bytes of
    /// the metadata region and the steps that store them in the flash memory.
    pub fn finish_writing<E>(self, file_system: &mut FileSystem<Chip>) -> (result: Result<
        Option<(Vec<u8>, Vec<Step<Chip>>)>,
        WriteError<E>,
    >)
        requires
            spec_storable::<Chip>(
                old(file_system).spec_metadatas_region().spec_stored_bytes().len(),
                &old(file_system).spec_regions_config(),
            ),
        ensures
            final(file_system).spec_regions_config() == old(file_system).spec_regions_config(),
            ({
                let old_region = old(file_system).spec_metadatas_region();
                let region = final(file_system).spec_metadatas_region();
                let id = self.spec_metadata().id;
                if self.spec_validator()@ >= old_region.spec_validator_master()@ && !spec_contains_id(
                    old_region.spec_files(),
                    id,
                ) {
                    &&& result matches Err(WriteError::DoesntExistAnymore)
                    &&& *final(file_system) == *old(file_system)
                } else {
                    &&& region.spec_files() == old_region.spec_files()
                    &&& region.spec_highest_used_file_id() == old_region.spec_highest_used_file_id()
                    &&& region.spec_bad_blocks() == old_region.spec_bad_blocks()
                    &&& region.spec_validator_master() == old_region.spec_validator_master()
                    &&& !old_region.spec_writing_files().contains(id) ==> {
                        &&& result matches Ok(None)
                        &&& region.spec_writing_files() == old_region.spec_writing_files()
                    }
                    &&& old_region.spec_writing_files().contains(id) ==> {
                        let position = old_region.spec_writing_files().index_of_first(id).unwrap();
                        &&& region.spec_writing_files() == spec_swap_remove(old_region.spec_writing_files(), position)
                        &&& result matches Ok(Some(stored)) && stored.0@ == region.spec_stored_bytes()
                            && stored.1@ == spec_store_steps::<Chip>(stored.0@, &old(file_system).spec_regions_config())
                    }
                }
            }),
    {
        if self.validator.validate(file_system.get_metadatas_region()) && !file_system.does_file_exist(self.file_metadata.id) {
            return Err(WriteError::DoesntExistAnymore);
        }
        Ok(file_system.finish_writing_file(self.file_metadata.id))
    }
}

} // verus!
