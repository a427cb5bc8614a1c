//! Reading the files.
use std::marker::PhantomData;
use std::string::FromUtf8Error;

use vstd::prelude::*;
use vstd::utf8::{encode_utf8, valid_utf8};

use crate::printer::components::drivers::spi_flash_memory::chip::FlashMemoryChip;
use crate::printer::components::drivers::spi_flash_memory::{spec_read_data_steps, Step};
use crate::printer::components::file_system::regions::metadata::{spec_contains_id, FileMetadata, FileMetadataValidator};
use crate::printer::components::file_system::FileSystem;

verus! {

/// The standard error of a conversion of bytes that aren't UTF-8 to a `String`.
#[verifier::external_type_specification]
#[verifier::external_body]
pub struct ExFromUtf8Error(FromUtf8Error);

/// The string whose UTF-8 encoding is `bytes`, by `String::from_utf8`, whose documentation says
/// that it fails exactly when `bytes` aren't valid UTF-8, and that the string holds `bytes`.
#[verifier::external_body]
fn string_from_utf8(bytes: Vec<u8>) -> (string: Result<String, FromUtf8Error>)
    ensures
        string is Ok <==> valid_utf8(bytes@),
        string matches Ok(string) ==> encode_utf8(string@) == bytes@,
{
    String::from_utf8(bytes)
}

/// The reader of a file: it reads the data of the file sequentially, from the start to the end.
///
/// Every read is planned by [`FileReader::read_data`] as the steps that read the data from the
/// flash memory; once they have been executed, [`FileReader::advance_cursor`] moves the position of
/// the reader after the data read.
pub struct FileReader<Chip: FlashMemoryChip> {
    file_metadata: FileMetadata,
    cursor: u32,
    validator: FileMetadataValidator,
    _chip: PhantomData<Chip>,
}

/// An error returned by [`FileReader::read_data`].
#[derive(Debug)]
pub enum ReadError<E> {
    /// An error during the communication with the flash memory chip.
    Spi(E),
    /// The file has been deleted from the file system.
    DoesntExistAnymore,
    /// All the content of the file has been read and there's nothing else to read.
    EndOfFile,
}

/// An error returned by [`FileReader::read_name`].
#[derive(Debug)]
pub enum ReadNameError<E> {
    /// An error during the communication with the flash memory chip.
    Spi(E),
    /// The file has been deleted from the file system.
    DoesntExistAnymore,
    /// The name read isn't a valid UTF-8 string.
    InvalidUtf8String(FromUtf8Error),
}

impl<Chip: FlashMemoryChip> FileReader<Chip> {
    /// The position of the reader never goes beyond the end of the data.
    #[verifier::type_invariant]
    spec fn cursor_within_data(&self) -> bool {
        self.cursor <= self.file_metadata.file_data_length
    }

    /// The metadata of the file read.
    pub closed spec fn spec_metadata(&self) -> FileMetadata {
        self.file_metadata
    }

    /// The number of bytes of the data of the file read so far.
    pub closed spec fn spec_cursor(&self) -> u32 {
        self.cursor
    }

    /// The validator of the memory addresses of the file.
    pub closed spec fn spec_validator(&self) -> FileMetadataValidator {
        self.validator
    }

    /// The file still exists in `file_system` and its memory addresses are still valid.
    pub open spec fn spec_file_still_exists(&self, file_system: &FileSystem<Chip>) -> bool {
        &&& self.spec_validator()@ >= file_system.spec_metadatas_region().spec_validator_master()@
        &&& spec_contains_id(file_system.spec_metadatas_region().spec_files(), self.spec_metadata().id)
    }

    /// The address of the next byte of data to read.
    pub open spec fn spec_next_address(&self) -> int {
        self.spec_metadata().start_memory_address + self.spec_metadata().file_name_length + self.spec_cursor()
    }

    pub(crate) fn new(file_metadata: FileMetadata, validator: FileMetadataValidator) -> (reader: Self)
        ensures
            reader.spec_metadata() == file_metadata,
            reader.spec_cursor() == 0,
            reader.spec_validator() == validator,
    {
        Self { file_metadata, cursor: 0, validator, _chip: PhantomData }
    }

    /// Plans the read of at most `buffer_length` bytes of the file at the current position.
    ///
    /// Returns `Err(ReadError::DoesntExistAnymore)` if the file doesn't exist anymore (or its
    /// memory addresses aren't valid anymore), `Err(ReadError::EndOfFile)` if all the data has been
    /// read. Otherwise returns the number of bytes to read (the bytes left in the file, at most
    /// `buffer_length`) and the steps that read them from the flash memory into the start of the
    /// buffer; after executing them, call [`Self::advance_cursor`] with that number.
    pub fn read_data<E>(&self, file_system: &FileSystem<Chip>, buffer_length: usize) -> (result: Result<(u32, Vec<Step<Chip>>), ReadError<E>>)
        requires
            self.spec_next_address() <= u32::MAX,
        ensures
            !self.spec_file_still_exists(file_system) ==> result matches Err(ReadError::DoesntExistAnymore),
            self.spec_file_still_exists(file_system) && self.spec_cursor() == self.spec_metadata().file_data_length
                ==> result matches Err(ReadError::EndOfFile),
            self.spec_file_still_exists(file_system) && self.spec_cursor() != self.spec_metadata().file_data_length
                ==> (result matches Ok((count, steps)) && {
                let left = self.spec_metadata().file_data_length - self.spec_cursor();
                &&& count == (if buffer_length < left { buffer_length as int } else { left })
                &&& steps@ == spec_read_data_steps::<Chip>(self.spec_next_address() as u32, count)
            }),
    {
        proof {
            use_type_invariant(self);
        }
        if !self.validate_file_still_exists(file_system) {
            return Err(ReadError::DoesntExistAnymore);
        }
        if self.has_reached_end_of_file() {
            return Err(ReadError::EndOfFile);
        }
        let address = self.file_metadata.start_memory_address + self.file_metadata.file_name_length + self.cursor;
        let left = self.file_metadata.file_data_length - self.cursor;
        let read_bytes_count = if buffer_length < left as usize { buffer_length as u32 } else { left };
        let steps = file_system.get_spi_flash_memory().read(address, read_bytes_count);
        Ok((read_bytes_count, steps))
    }

    /// Moves the position of the reader after the `read_bytes_count` bytes read by the steps
    /// planned by [`Self::read_data`].
    pub fn advance_cursor(&mut self, read_bytes_count: u32)
        requires
            old(self).spec_cursor() + read_bytes_count <= old(self).spec_metadata().file_data_length,
        ensures
            final(self).spec_cursor() == old(self).spec_cursor() + read_bytes_count,
            final(self).spec_metadata() == old(self).spec_metadata(),
            final(self).spec_validator() == old(self).spec_validator(),
    {
        self.cursor = self.cursor + read_bytes_count;
    }

    /// Returns `true` if you have [`read`] all the data present in the file, otherwise returns
    /// `false`.
    ///
    /// [`read`]: `Self::read_data`
    pub fn has_reached_end_of_file(&self) -> (end: bool)
        ensures
            end == (self.spec_cursor() == self.spec_metadata().file_data_length),
    {
        self.cursor == self.file_metadata.file_data_length
    }

    /// Returns the number of bytes of the name of the file.
    pub fn name_length(&self) -> (length: u32)
        ensures
            length == self.spec_metadata().file_name_length,
    {
        self.file_metadata.file_name_length
    }

    /// Returns the memory address of the next byte of data to read.
    pub fn next_address(&self) -> (address: u64)
        ensures
            address == self.spec_next_address(),
    {
        self.file_metadata.start_memory_address as u64 + self.file_metadata.file_name_length as u64
            + self.cursor as u64
    }

    /// Plans the read of the name of the file (the `file_name` provided to
    /// [`FileSystem::create_file`]) from the flash memory.
    ///
    /// Returns `Err(ReadNameError::DoesntExistAnymore)` if the file doesn't exist anymore, otherwise
    /// returns the steps that read the `file_name_length` bytes of the name into a buffer (which
    /// [`Self::decode_name`] then converts to a string).
    pub fn read_name<E>(&self, file_system: &FileSystem<Chip>) -> (result: Result<Vec<Step<Chip>>, ReadNameError<E>>)
        ensures
            !self.spec_file_still_exists(file_system) ==> result matches Err(ReadNameError::DoesntExistAnymore),
            self.spec_file_still_exists(file_system) ==> (result matches Ok(steps) && steps@
                == spec_read_data_steps::<Chip>(
                self.spec_metadata().start_memory_address,
                self.spec_metadata().file_name_length,
            )),
    {
        if !self.validate_file_still_exists(file_system) {
            return Err(ReadNameError::DoesntExistAnymore);
        }
        Ok(
            file_system.get_spi_flash_memory().read(
                self.file_metadata.start_memory_address,
                self.file_metadata.file_name_length,
            ),
        )
    }

    /// Returns the name read by the steps of [`Self::read_name`] from its `bytes`, or
    /// `Err(ReadNameError::InvalidUtf8String(...))` if they aren't valid UTF-8.
    pub fn decode_name<E>(bytes: Vec<u8>) -> (name: Result<String, ReadNameError<E>>)
        ensures
            name is Ok <==> valid_utf8(bytes@),
            name matches Ok(name) ==> encode_utf8(name@) == bytes@,
            name is Err ==> name matches Err(ReadNameError::InvalidUtf8String(_)),
    {
        match string_from_utf8(bytes) {
            Ok(name) => Ok(name),
            Err(error) => Err(ReadNameError::InvalidUtf8String(error)),
        }
    }

    /// Returns true if the file read by this struct still exists and the memory address in the
    /// metadata is still valid.
    fn validate_file_still_exists(&self, file_system: &FileSystem<Chip>) -> (exists: bool)
        ensures
            exists == self.spec_file_still_exists(file_system),
    {
        self.validator.validate(file_system.get_metadatas_region()) && file_system.does_file_exist(
            self.file_metadata.id,
        )
    }
}

} // verus!
