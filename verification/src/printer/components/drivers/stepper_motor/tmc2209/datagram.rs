//! The datagrams exchanged with the TMC2209 chip through UART.
//!
//! A write access datagram is made of the sync byte, the address of the chip, the address of the
//! register (with the write bit), the 4 bytes of the data (most significant first) and a CRC.
//! A read access request is made of the sync byte, the address of the chip, the address of the
//! register and a CRC. A read access reply has the same layout of a write access datagram, with
//! the master address `0xFF` in place of the address of the chip.
use vstd::prelude::*;

use super::registers::{ReadableRegister, Register, WriteableRegister};
use super::slave_address::UARTAddress;
use crate::utils::bytes::{
    spec_u32_from_le, spec_u32_from_le_seq, spec_u32_to_be, u32_from_le_bytes, u32_to_be_bytes,
};

verus! {

/// The first byte of every datagram.
pub const SYNC_BYTE: u8 = 0b1010_1010;

/// One step of the CRC8 computation (polynomial `x^8 + x^2 + x + 1`), feeding the least
/// significant bit of `byte`.
pub open spec fn spec_crc_step(crc: u8, byte: u8) -> u8 {
    if ((crc >> 7u8) ^ (byte & 0x01u8)) == 1u8 {
        ((crc << 1u8) ^ 0x07u8) as u8
    } else {
        (crc << 1u8) as u8
    }
}

/// Feeds the `bits` least significant bits of `byte`, the least significant first, to `crc`.
pub open spec fn spec_crc_byte(crc: u8, byte: u8, bits: nat) -> u8
    decreases bits,
{
    if bits == 0 {
        crc
    } else {
        spec_crc_byte(spec_crc_step(crc, byte), byte >> 1u8, (bits - 1) as nat)
    }
}

/// The CRC of `bytes` as defined in the TMC2209 datasheet: every byte is fed to the CRC register
/// (which starts at 0), least significant bit first.
pub open spec fn spec_crc(bytes: Seq<u8>) -> u8
    decreases bytes.len(),
{
    if bytes.len() == 0 {
        0
    } else {
        spec_crc_byte(spec_crc(bytes.drop_last()), bytes.last(), 8)
    }
}

/// Returns the CRC of the provided bytes (see [`spec_crc`]).
pub fn calculate_crc(bytes: &[u8]) -> (crc: u8)
    ensures
        crc == spec_crc(bytes@),
{
    let mut crc: u8 = 0;
    let mut i: usize = 0;
    while i < bytes.len()
        invariant
            i <= bytes@.len(),
            crc == spec_crc(bytes@.take(i as int)),
        decreases bytes@.len() - i,
    {
        let mut current_byte = bytes[i];
        let ghost crc_before = crc;
        let mut bit: u8 = 0;
        while bit < 8
            invariant
                bit <= 8,
                spec_crc_byte(crc_before, bytes@[i as int], 8) == spec_crc_byte(
                    crc,
                    current_byte,
                    (8 - bit) as nat,
                ),
            decreases 8 - bit,
        {
            if ((crc >> 7) ^ (current_byte & 0x01)) == 1 {
                crc = (crc << 1) ^ 0x07;
            } else {
                crc = crc << 1;
            }
            current_byte = current_byte >> 1;
            bit = bit + 1;
        }
        assert(bytes@.take(i + 1).drop_last() =~= bytes@.take(i as int));
        i = i + 1;
    }
    assert(bytes@.take(bytes@.len() as int) =~= bytes@);
    crc
}

/// A datagram that writes a value to a register of the chip.
#[derive(Clone, Copy)]
pub struct WriteAccessDatagram {
    pub sync: u8,
    pub slave_address: u8,
    pub register_address: u8,
    pub data: u32,
    pub crc: u8,
}

/// The bytes sent on the wire for a datagram made of the provided fields.
pub open spec fn spec_data_datagram_bytes(sync: u8, address: u8, register_address: u8, data: u32, crc: u8) -> Seq<u8> {
    seq![sync, address, register_address] + spec_u32_to_be(data) + seq![crc]
}

impl WriteAccessDatagram {
    /// The bytes of the datagram, in the order they are sent.
    pub open spec fn spec_bytes(self) -> Seq<u8> {
        spec_data_datagram_bytes(self.sync, self.slave_address, self.register_address, self.data, self.crc)
    }

    /// The datagram that writes `data` to the register at `register_address` of the chip at
    /// `slave_address`: the datagram carries the write address of the register, its address plus
    /// `0x80`.
    pub open spec fn spec_new(slave_address: UARTAddress, register_address: u8, data: u32) -> Self {
        let without_crc = WriteAccessDatagram {
            sync: SYNC_BYTE,
            slave_address: slave_address.spec_value(),
            register_address: (register_address + 0x80) as u8,
            data,
            crc: 0,
        };
        WriteAccessDatagram { crc: spec_crc(without_crc.spec_bytes().take(7)), ..without_crc }
    }

    /// Returns the datagram that writes `data` to the register `R` of the chip at `slave_address`.
    pub fn new<R: WriteableRegister>(slave_address: UARTAddress, data: u32) -> (datagram: Self)
        ensures
            datagram.sync == SYNC_BYTE,
            datagram.slave_address == slave_address.spec_value(),
            datagram.register_address == R::spec_address() + 0x80,
            datagram.data == data,
            datagram.crc == spec_crc(datagram.spec_bytes().take(7)),
            datagram == Self::spec_new(slave_address, R::spec_address(), data),
    {
        let register_address = R::write_address();
        let mut self_ = Self {
            sync: SYNC_BYTE,
            slave_address: slave_address.as_u8(),
            register_address,
            data,
            crc: 0,
        };
        let bytes = self_.as_bytes();
        self_.crc = calculate_crc(&bytes[0..7]);
        proof {
            assert(bytes@.subrange(0, 7) =~= self_.spec_bytes().take(7));
            assert(self_.spec_bytes().take(7) =~= Self::spec_new(slave_address, R::spec_address(), data).spec_bytes().take(7));
        }
        self_
    }

    /// Returns the bytes of the datagram, in the order they are sent.
    pub fn as_bytes(&self) -> (bytes: [u8; 8])
        ensures
            bytes@ == self.spec_bytes(),
    {
        let data = u32_to_be_bytes(self.data);
        let bytes = [self.sync, self.slave_address, self.register_address, data[0], data[1], data[2], data[3], self.crc];
        assert(bytes@ =~= self.spec_bytes());
        bytes
    }
}

/// A datagram that asks the chip the value of a register.
#[derive(Clone, Copy)]
pub struct ReadAccessRequestDatagram {
    pub sync: u8,
    pub slave_address: u8,
    pub register_address: u8,
    pub crc: u8,
}

impl ReadAccessRequestDatagram {
    /// The bytes of the datagram, in the order they are sent.
    pub open spec fn spec_bytes(self) -> Seq<u8> {
        seq![self.sync, self.slave_address, self.register_address, self.crc]
    }

    /// Returns the datagram that asks the value of the register `R` to the chip at `slave_address`.
    pub fn new<R: ReadableRegister>(slave_address: UARTAddress) -> (datagram: Self)
        ensures
            datagram.sync == SYNC_BYTE,
            datagram.slave_address == slave_address.spec_value(),
            datagram.register_address == (R::spec_address() << 1u8) & 0b1111_1110u8,
            datagram.crc == spec_crc(datagram.spec_bytes().take(3)),
    {
        let mut self_ = Self {
            sync: SYNC_BYTE,
            slave_address: slave_address.as_u8(),
            register_address: (R::address() << 1) & 0b1111_1110,
            crc: 0,
        };
        let bytes = self_.as_bytes();
        self_.crc = calculate_crc(&bytes[0..3]);
        proof {
            assert(bytes@.subrange(0, 3) =~= self_.spec_bytes().take(3));
        }
        self_
    }

    /// Returns the bytes of the datagram, in the order they are sent.
    pub fn as_bytes(&self) -> (bytes: [u8; 4])
        ensures
            bytes@ == self.spec_bytes(),
    {
        let bytes = [self.sync, self.slave_address, self.register_address, self.crc];
        assert(bytes@ =~= self.spec_bytes());
        bytes
    }
}

/// A datagram received from the chip as a reply to a [`ReadAccessRequestDatagram`].
#[derive(Clone, Copy)]
pub struct ReadAccessReplyDatagram {
    pub sync: u8,
    pub master_address: u8,
    pub register_address: u8,
    pub data: u32,
    pub crc: u8,
}

impl ReadAccessReplyDatagram {
    /// The address the chip uses for the microcontroller.
    pub const MASTER_ADDRESS: u8 = 0xFF;

    /// The bytes of the datagram, in the order they are sent, assuming `data` holds the value of
    /// the register (that is, after [`Self::reverse_data_endianness`]).
    pub open spec fn spec_bytes(self) -> Seq<u8> {
        spec_data_datagram_bytes(self.sync, self.master_address, self.register_address, self.data, self.crc)
    }

    /// A reply is valid when its CRC matches, it's addressed to the master and it's not a write.
    pub open spec fn spec_is_valid(self) -> bool {
        &&& spec_crc(self.spec_bytes().take(7)) == self.crc
        &&& self.master_address == Self::MASTER_ADDRESS
        &&& (self.register_address & 0b0000_0001u8) == 0
    }

    /// Returns the datagram whose bytes, as they were received, are `bytes`. The 4 data bytes are
    /// stored in `data` least significant first, so [`Self::reverse_data_endianness`] must be called
    /// to get the value of the register.
    pub fn from_bytes(bytes: [u8; 8]) -> (datagram: Self)
        ensures
            datagram.sync == bytes[0],
            datagram.master_address == bytes[1],
            datagram.register_address == bytes[2],
            datagram.data == spec_u32_from_le(bytes[3], bytes[4], bytes[5], bytes[6]),
            datagram.crc == bytes[7],
    {
        Self {
            sync: bytes[0],
            master_address: bytes[1],
            register_address: bytes[2],
            data: u32_from_le_bytes([bytes[3], bytes[4], bytes[5], bytes[6]]),
            crc: bytes[7],
        }
    }

    /// Returns `true` if the CRC of the datagram matches, if it is addressed to the master and if it
    /// is not a write access.
    pub fn is_valid(&self) -> (valid: bool)
        ensures
            valid == self.spec_is_valid(),
    {
        let data = u32_to_be_bytes(self.data);
        let bytes = [self.sync, self.master_address, self.register_address, data[0], data[1], data[2], data[3]];
        let expected_crc = calculate_crc(&bytes);
        assert(bytes@ =~= self.spec_bytes().take(7));
        expected_crc == self.crc && self.master_address == Self::MASTER_ADDRESS && (self.register_address
            & 0b0000_0001) == 0
    }

    /// Swaps the order of the bytes of `data`.
    pub fn reverse_data_endianness(&mut self)
        ensures
            final(self).data == spec_u32_from_le_seq(spec_u32_to_be(old(self).data)),
            final(self).sync == old(self).sync,
            final(self).master_address == old(self).master_address,
            final(self).register_address == old(self).register_address,
            final(self).crc == old(self).crc,
    {
        let bytes = u32_to_be_bytes(self.data);
        self.data = u32_from_le_bytes(bytes);
    }

    /// Returns the data of the datagram.
    pub fn data(&self) -> (data: u32)
        ensures
            data == self.data,
    {
        self.data
    }
}

} // verus!
