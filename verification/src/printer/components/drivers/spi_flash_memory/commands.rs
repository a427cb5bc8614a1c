//! The commands understood by a SPI flash memory chip.
//!
//! A command is sent in a single SPI transaction: the bytes returned by [`Command::write_bytes`]
//! are written, then [`Command::read_length`] bytes are read.
use vstd::prelude::*;

use super::address::{ColumnAddress, RowAddress};
use super::chip::FlashMemoryChip;

verus! {

/// A command to send to a flash memory over SPI. The data a command writes to the chip, or the
/// place where the data it reads goes, is a range of the buffer of the operation the command is
/// part of.
pub enum Command<Chip: FlashMemoryChip> {
    Reset,
    WriteEnable,
    WriteDisable,
    PageRead { row_address: RowAddress<Chip> },
    ReadFromCache { column_address: ColumnAddress, output_start: usize, output_end: usize },
    BlockErase { row_address: RowAddress<Chip> },
    ProgramLoad { column_address: ColumnAddress, input_start: usize, input_end: usize },
    ProgramLoadRandomData { column_address: ColumnAddress, input_start: usize, input_end: usize },
    ProgramExecute { row_address: RowAddress<Chip> },
    ReadId,
    GetFeatures { features_address: u8 },
    SetFeatures { features_address: u8, features_value: u8 },
}

impl<Chip: FlashMemoryChip> Command<Chip> {
    /// The operation code of the command.
    pub open spec fn spec_op_code(&self) -> u8 {
        match self {
            Command::Reset => 0xFF,
            Command::WriteEnable => 0x06,
            Command::WriteDisable => 0x04,
            Command::PageRead { .. } => 0x13,
            Command::ReadFromCache { .. } => 0x03,
            Command::BlockErase { .. } => 0xD8,
            Command::ProgramLoad { .. } => 0x02,
            Command::ProgramLoadRandomData { .. } => 0x84,
            Command::ProgramExecute { .. } => 0x10,
            Command::ReadId => 0x9F,
            Command::GetFeatures { .. } => 0x0F,
            Command::SetFeatures { .. } => 0x1F,
        }
    }

    /// The ranges of the buffer of the operation the command reads or writes are within it.
    pub open spec fn spec_fits(&self, buffer_length: nat) -> bool {
        match self {
            Command::ReadFromCache { output_start, output_end, .. } => *output_start <= *output_end
                <= buffer_length,
            Command::ProgramLoad { input_start, input_end, .. } => *input_start <= *input_end
                <= buffer_length,
            Command::ProgramLoadRandomData { input_start, input_end, .. } => *input_start
                <= *input_end <= buffer_length,
            _ => true,
        }
    }

    /// The bytes written to the chip to send the command: the operation code, then the address
    /// (and a dummy byte for the reads from the cache and of the IDs), then the data to program or
    /// the value of the feature.
    pub open spec fn spec_write_bytes(&self, buffer: Seq<u8>) -> Seq<u8> {
        let op_code = seq![self.spec_op_code()];
        match self {
            Command::PageRead { row_address } => op_code + row_address.spec_bytes(),
            Command::ReadFromCache { column_address, .. } => op_code + column_address.spec_bytes()
                + seq![0u8],
            Command::BlockErase { row_address } => op_code + row_address.spec_bytes(),
            Command::ProgramLoad { column_address, input_start, input_end } => op_code
                + column_address.spec_bytes() + buffer.subrange(*input_start as int, *input_end as int),
            Command::ProgramLoadRandomData { column_address, input_start, input_end } => op_code
                + column_address.spec_bytes() + buffer.subrange(*input_start as int, *input_end as int),
            Command::ProgramExecute { row_address } => op_code + row_address.spec_bytes(),
            Command::ReadId => op_code + seq![0u8],
            Command::GetFeatures { features_address } => op_code + seq![*features_address],
            Command::SetFeatures { features_address, features_value } => op_code + seq![
                *features_address,
                *features_value,
            ],
            _ => op_code,
        }
    }

    /// The number of bytes read from the chip after the bytes of the command have been written.
    pub open spec fn spec_read_length(&self) -> nat {
        match self {
            Command::ReadFromCache { output_start, output_end, .. } => (*output_end - *output_start) as nat,
            Command::ReadId => 2,
            Command::GetFeatures { .. } => 1,
            _ => 0,
        }
    }

    /// Returns whether the data ranges of the command fit in a buffer of `buffer_length` bytes.
    pub fn fits(&self, buffer_length: usize) -> (fits: bool)
        ensures
            fits == self.spec_fits(buffer_length as nat),
    {
        match self {
            Command::ReadFromCache { output_start, output_end, .. } => *output_start <= *output_end
                && *output_end <= buffer_length,
            Command::ProgramLoad { input_start, input_end, .. } => *input_start <= *input_end
                && *input_end <= buffer_length,
            Command::ProgramLoadRandomData { input_start, input_end, .. } => *input_start
                <= *input_end && *input_end <= buffer_length,
            _ => true,
        }
    }

    /// Returns the operation code of the command.
    pub fn op_code(&self) -> (op_code: u8)
        ensures
            op_code == self.spec_op_code(),
    {
        match self {
            Command::Reset => 0xFF,
            Command::WriteEnable => 0x06,
            Command::WriteDisable => 0x04,
            Command::PageRead { .. } => 0x13,
            Command::ReadFromCache { .. } => 0x03,
            Command::BlockErase { .. } => 0xD8,
            Command::ProgramLoad { .. } => 0x02,
            Command::ProgramLoadRandomData { .. } => 0x84,
            Command::ProgramExecute { .. } => 0x10,
            Command::ReadId => 0x9F,
            Command::GetFeatures { .. } => 0x0F,
            Command::SetFeatures { .. } => 0x1F,
        }
    }

    /// Returns the bytes to write to the chip to send this command (see [`Self::spec_write_bytes`]),
    /// taking the data to program from `buffer`.
    pub fn write_bytes(&self, buffer: &[u8]) -> (bytes: Vec<u8>)
        requires
            self.spec_fits(buffer@.len()),
        ensures
            bytes@ == self.spec_write_bytes(buffer@),
    {
        let mut bytes: Vec<u8> = Vec::new();
        bytes.push(self.op_code());
        match self {
            Command::PageRead { row_address } => {
                let row = row_address.as_bytes();
                bytes.extend_from_slice(row.as_slice());
            },
            Command::ReadFromCache { column_address, .. } => {
                let column = column_address.as_bytes();
                bytes.extend_from_slice(column.as_slice());
                bytes.push(0);
            },
            Command::BlockErase { row_address } => {
                let row = row_address.as_bytes();
                bytes.extend_from_slice(row.as_slice());
            },
            Command::ProgramLoad { column_address, input_start, input_end } => {
                let column = column_address.as_bytes();
                bytes.extend_from_slice(column.as_slice());
                bytes.extend_from_slice(&buffer[*input_start..*input_end]);
            },
            Command::ProgramLoadRandomData { column_address, input_start, input_end } => {
                let column = column_address.as_bytes();
                bytes.extend_from_slice(column.as_slice());
                bytes.extend_from_slice(&buffer[*input_start..*input_end]);
            },
            Command::ProgramExecute { row_address } => {
                let row = row_address.as_bytes();
                bytes.extend_from_slice(row.as_slice());
            },
            Command::ReadId => {
                bytes.push(0);
            },
            Command::GetFeatures { features_address } => {
                bytes.push(*features_address);
            },
            Command::SetFeatures { features_address, features_value } => {
                bytes.push(*features_address);
                bytes.push(*features_value);
            },
            _ => {},
        }
        assert(bytes@ =~= self.spec_write_bytes(buffer@));
        bytes
    }

    /// Returns the number of bytes to read from the chip after the bytes of the command have been
    /// written.
    pub fn read_length(&self) -> (length: usize)
        requires
            self.spec_fits(usize::MAX as nat),
        ensures
            length == self.spec_read_length(),
    {
        match self {
            Command::ReadFromCache { output_start, output_end, .. } => *output_end - *output_start,
            Command::ReadId => 2,
            Command::GetFeatures { .. } => 1,
            _ => 0,
        }
    }
}

} // verus!
