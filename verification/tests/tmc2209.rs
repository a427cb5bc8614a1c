use firmware_core::printer::components::drivers::bl_touch::BLTouchCommand;
use firmware_core::printer::components::drivers::stepper_motor::tmc2209::datagram::{
    calculate_crc, ReadAccessReplyDatagram, WriteAccessDatagram, SYNC_BYTE,
};
use firmware_core::printer::components::drivers::stepper_motor::tmc2209::registers::{
    read_field_of_register, write_field_of_register, Registers, CHOPCONF, GCONF, IHOLD_IRUN,
};
use firmware_core::printer::components::drivers::stepper_motor::tmc2209::{
    receive_register, MicrostepsPerStep, ReadRegisterError, ReplyDelay, UARTAddress, TMC2209,
};
use firmware_core::printer::components::drivers::stepper_motor::RotationalDirection;

/// The CRC of the TMC2209 datasheet, written bit by bit.
fn reference_crc(bytes: &[u8]) -> u8 {
    let mut crc: u8 = 0;
    for &byte in bytes {
        let mut current = byte;
        for _ in 0..8 {
            if ((crc >> 7) ^ (current & 0x01)) != 0 {
                crc = (crc << 1) ^ 0x07;
            } else {
                crc <<= 1;
            }
            current >>= 1;
        }
    }
    crc
}

#[test]
fn crc_matches_the_datasheet_algorithm() {
    let samples: [&[u8]; 4] = [&[0x05, 0x00, 0x80], &[0x05, 0x03, 0x00, 0x00, 0x00, 0x00, 0x00], &[], &[0xFF; 7]];
    for sample in samples {
        assert_eq!(calculate_crc(sample), reference_crc(sample));
    }
}

#[test]
fn default_registers() {
    let registers = Registers::default();
    assert_eq!(registers.gconf, 0b01_0000_0001);
    assert_eq!(registers.chopconf, 0x1000_0053);
    assert_eq!(registers.pwm_conf, 0xC10D_0024);
    assert_eq!(registers.ihold_irun, 0x001F_1F10);
    assert_eq!(registers.slaveconf, 0);
}

#[test]
fn write_and_read_fields() {
    let mut register_value = 0;
    write_field_of_register(GCONF::pdn_disable, &mut register_value, 1);
    assert_eq!(register_value, 1 << 6);
    assert_eq!(read_field_of_register(GCONF::pdn_disable, register_value), 1);
    let mut chopconf = 0x1000_0053;
    write_field_of_register(CHOPCONF::MRES, &mut chopconf, 4);
    assert_eq!(read_field_of_register(CHOPCONF::MRES, chopconf), 4);
    assert_eq!(read_field_of_register(CHOPCONF::TOFF, chopconf), 3);
    assert_eq!(read_field_of_register(IHOLD_IRUN::IRUN, 0x001F_1F10), 31);
}

#[test]
fn microsteps_values() {
    assert_eq!(MicrostepsPerStep::MAX_RESOLUTION, MicrostepsPerStep::M256);
    let all = [
        MicrostepsPerStep::FULLSTEP,
        MicrostepsPerStep::M2,
        MicrostepsPerStep::M4,
        MicrostepsPerStep::M8,
        MicrostepsPerStep::M16,
        MicrostepsPerStep::M32,
        MicrostepsPerStep::M64,
        MicrostepsPerStep::M128,
        MicrostepsPerStep::M256,
    ];
    let values = [1, 2, 4, 8, 16, 32, 64, 128, 256];
    for (microsteps, value) in all.iter().zip(values) {
        assert_eq!(microsteps.as_value(), value);
        assert_eq!(microsteps.as_max_resolution_microsteps_count(), 256 / value);
        assert_eq!(MicrostepsPerStep::from_value_of_register(microsteps.as_value_of_register()), Some(*microsteps));
    }
    assert_eq!(MicrostepsPerStep::M256.as_value_of_register(), 0);
    assert_eq!(MicrostepsPerStep::FULLSTEP.as_value_of_register(), 8);
    assert_eq!(MicrostepsPerStep::from_value_of_register(9), None);
}

#[test]
fn uart_addresses() {
    assert_eq!(UARTAddress::from_ms_pins_state(false, false), UARTAddress::A0);
    assert_eq!(UARTAddress::from_ms_pins_state(true, false), UARTAddress::A1);
    assert_eq!(UARTAddress::from_ms_pins_state(false, true), UARTAddress::A2);
    assert_eq!(UARTAddress::from_ms_pins_state(true, true), UARTAddress::A3);
    assert_eq!(UARTAddress::A3.as_u8(), 3);
}

#[test]
fn rotational_direction() {
    assert_eq!(RotationalDirection::CW.opposite(), RotationalDirection::CCW);
    assert_eq!(RotationalDirection::CCW.opposite(), RotationalDirection::CW);
    assert_eq!(RotationalDirection::CW.as_sign(), 1);
    assert_eq!(RotationalDirection::CCW.as_sign(), -1);
}

#[test]
fn write_datagram_bytes() {
    let datagram = WriteAccessDatagram::new::<GCONF>(UARTAddress::A1, 0x0102_0304);
    let bytes = datagram.as_bytes();
    assert_eq!(bytes[0], SYNC_BYTE);
    assert_eq!(bytes[1], 1);
    assert_eq!(bytes[2], 0x80);
    assert_eq!(&bytes[3..7], &[0x01, 0x02, 0x03, 0x04]);
    assert_eq!(bytes[7], reference_crc(&bytes[..7]));
}

#[test]
fn new_using_uart_datagrams() {
    let (driver, datagrams) = TMC2209::new_using_uart(UARTAddress::A0, MicrostepsPerStep::M16);
    assert_eq!(datagrams.len(), 8);
    for datagram in &datagrams {
        let bytes = datagram.as_bytes();
        assert_eq!(bytes[7], reference_crc(&bytes[..7]));
    }
    assert_eq!(driver.get_microsteps_per_step(), MicrostepsPerStep::M16);
    // The driver is left disabled: the last datagram writes CHOPCONF (write address 0x6C + 0x80)
    // with its TOFF field at 0.
    let last = datagrams[7];
    assert_eq!(last.register_address, 0xEC);
    assert_eq!(read_field_of_register(CHOPCONF::TOFF, last.data), 0);
}

#[test]
fn microsteps_are_read_back() {
    let (mut driver, _) = TMC2209::new_using_uart(UARTAddress::A2, MicrostepsPerStep::M16);
    let datagram = driver.set_microsteps_per_step(MicrostepsPerStep::M64);
    assert_eq!(driver.get_microsteps_per_step(), MicrostepsPerStep::M64);
    assert_eq!(read_field_of_register(CHOPCONF::MRES, datagram.data), 2);
}

#[test]
fn current_scaling_fields() {
    let (mut driver, _) = TMC2209::new_using_uart(UARTAddress::A0, MicrostepsPerStep::M16);
    let datagram = driver.set_current_scaling(Some(20), Some(5));
    assert_eq!(datagram.register_address, 0x90);
    assert_eq!(read_field_of_register(IHOLD_IRUN::IRUN, datagram.data), 20);
    assert_eq!(read_field_of_register(IHOLD_IRUN::IHOLD, datagram.data), 5);
    let datagram = driver.set_current_scaling(None, Some(31));
    assert_eq!(read_field_of_register(IHOLD_IRUN::IRUN, datagram.data), 20);
    assert_eq!(read_field_of_register(IHOLD_IRUN::IHOLD, datagram.data), 31);
}

#[test]
fn reply_delay_values() {
    assert_eq!(ReplyDelay::BitTime5.as_u8(), 5);
    assert_eq!(ReplyDelay::BitTime15.as_u8(), 15);
}

fn reply_bytes(register_address: u8, value: u32) -> [u8; 8] {
    let mut bytes = [0x05, ReadAccessReplyDatagram::MASTER_ADDRESS, register_address, 0, 0, 0, 0, 0];
    bytes[3..7].copy_from_slice(&value.to_be_bytes());
    bytes[7] = reference_crc(&bytes[..7]);
    bytes
}

#[test]
fn receive_register_value() {
    let bytes = reply_bytes(0x06, 0xDEAD_BEEF);
    assert_eq!(receive_register::<()>(4, &bytes).ok(), Some(0xDEAD_BEEF));
}

#[test]
fn receive_register_errors() {
    let bytes = reply_bytes(0x06, 7);
    assert!(matches!(receive_register::<()>(3, &bytes), Err(ReadRegisterError::FlushEchoInvalidSize)));
    assert!(matches!(receive_register::<()>(4, &bytes[..7]), Err(ReadRegisterError::ReplyDatagramIncomplete)));
    let mut corrupted = bytes;
    corrupted[4] ^= 0x10;
    assert!(matches!(receive_register::<()>(4, &corrupted), Err(ReadRegisterError::ReplyDatagramInvaild)));
    let write = reply_bytes(0x07, 7);
    assert!(matches!(receive_register::<()>(4, &write), Err(ReadRegisterError::ReplyDatagramInvaild)));
}

#[test]
fn reply_datagram_endianness() {
    let mut reply = ReadAccessReplyDatagram::from_bytes(reply_bytes(0x06, 0x1122_3344));
    reply.reverse_data_endianness();
    assert_eq!(reply.data(), 0x1122_3344);
    assert!(reply.is_valid());
}

#[test]
fn bl_touch_command_delays() {
    assert_eq!(BLTouchCommand::Deploy.required_delay(), Some(750));
    assert_eq!(BLTouchCommand::Stow.required_delay(), Some(750));
    assert_eq!(BLTouchCommand::ModeStore.required_delay(), Some(150));
    assert_eq!(BLTouchCommand::V5Mode.required_delay(), Some(150));
    assert_eq!(BLTouchCommand::OdMode.required_delay(), Some(150));
    assert_eq!(BLTouchCommand::AlarmReleaseAndStow.required_delay(), Some(500));
    assert_eq!(BLTouchCommand::AlarmReleaseAndSwMode.required_delay(), None);
    assert_eq!(BLTouchCommand::SelfTest.required_delay(), None);
}
