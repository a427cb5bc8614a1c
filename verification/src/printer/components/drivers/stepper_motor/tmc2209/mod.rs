//! A driver for the TMC2209 stepper motor driver chip, controlled through UART.
//!
//! The driver keeps a copy of the registers of the chip. Every method that changes a setting
//! updates the copy and returns the datagram that has to be sent through UART to apply the
//! setting to the chip. Reading a register is done by sending the datagram returned by
//! [`TMC2209::register_read_request`] and by handing the bytes received back to
//! [`receive_register`].
pub mod datagram;
pub mod microstepping;
pub mod registers;
pub mod slave_address;

use vstd::prelude::*;

use self::datagram::{ReadAccessReplyDatagram, ReadAccessRequestDatagram, WriteAccessDatagram};
pub use self::microstepping::MicrostepsPerStep;
use self::registers::{
    lemma_read_after_write, lemma_write_keeps_other_fields, read_field_of_register, spec_read_field,
    spec_write_field, write_field_of_register, ReadableRegister, Register, RegisterWithFields,
    Registers, CHOPCONF, GCONF, IHOLD_IRUN, IOIN, PWMCONF, SLAVECONF,
};
pub use self::slave_address::UARTAddress;

verus! {

/// The value of `register` after writing `value` to `field`.
pub open spec fn spec_write<F: RegisterWithFields>(register: u32, field: F, value: u32) -> u32 {
    spec_write_field(register, field.spec_field().0, field.spec_field().1, value)
}

/// The value of the `GCONF` register after the settings that make the chip controlled through
/// UART have been written to it.
pub open spec fn spec_uart_gconf(gconf: u32) -> u32 {
    spec_write(
        spec_write(
            spec_write(spec_write(gconf, GCONF::I_scale_analog, 0), GCONF::pdn_disable, 1),
            GCONF::mstep_reg_select,
            1,
        ),
        GCONF::multistep_filt,
        1,
    )
}

/// `SpreadCycle` is bit 2 of `GCONF`: enabling `StealthChop` clears that bit, disabling it sets
/// that bit, and no other bit of the register changes.
pub proof fn lemma_stealth_chop_is_bit_2(gconf: u32)
    ensures
        spec_write(gconf, GCONF::en_SpreadCycle, 0) == gconf & !4u32,
        spec_write(gconf, GCONF::en_SpreadCycle, 1) == gconf | 4u32,
{
    assert((gconf & !((((1u32 << 1u32) - 1) as u32) << 2u32) as u32) | ((0u32 << 2u32) as u32) == gconf & !4u32)
        by (bit_vector);
    assert((gconf & !((((1u32 << 1u32) - 1) as u32) << 2u32) as u32) | ((1u32 << 2u32) as u32) == gconf | 4u32)
        by (bit_vector);
}

/// The settings for UART control clear bit 0 of `GCONF` (`I_scale_analog`: the current reference
/// is internal), set bits 6 (`pdn_disable`), 7 (`mstep_reg_select`) and 8 (`multistep_filt`), and
/// leave the other bits of the register unchanged.
pub proof fn lemma_uart_gconf_bits(gconf: u32)
    ensures
        spec_uart_gconf(gconf) == (gconf & !1u32) | 0x1C0u32,
{
    let mask = |start: u32| ((((1u32 << 1u32) - 1) as u32) << start) as u32;
    let g1 = (gconf & !mask(0)) | ((0u32 << 0u32) as u32);
    let g2 = (g1 & !mask(6)) | ((1u32 << 6u32) as u32);
    let g3 = (g2 & !mask(7)) | ((1u32 << 7u32) as u32);
    let g4 = (g3 & !mask(8)) | ((1u32 << 8u32) as u32);
    assert(g4 == (gconf & !1u32) | 0x1C0u32) by (bit_vector)
        requires
            g1 == (gconf & !((((1u32 << 1u32) - 1) as u32) << 0u32) as u32) | ((0u32 << 0u32) as u32),
            g2 == (g1 & !((((1u32 << 1u32) - 1) as u32) << 6u32) as u32) | ((1u32 << 6u32) as u32),
            g3 == (g2 & !((((1u32 << 1u32) - 1) as u32) << 7u32) as u32) | ((1u32 << 7u32) as u32),
            g4 == (g3 & !((((1u32 << 1u32) - 1) as u32) << 8u32) as u32) | ((1u32 << 8u32) as u32),
    ;
}

/// A driver to communicate with the TMC2209 chip (to control a stepper motor).
///
/// Only UART communication is supported. For further information on what each setting does,
/// check the datasheet of the TMC2209.
pub struct TMC2209 {
    address: UARTAddress,
    registers: Registers,
}

/// The value of the `MRES` field of the `CHOPCONF` register, which always selects a valid
/// microstep resolution.
pub open spec fn spec_mres(chopconf: u32) -> u32 {
    spec_read_field(chopconf, 24, 4)
}

impl TMC2209 {
    #[verifier::type_invariant]
    spec fn inv(self) -> bool {
        spec_mres(self.registers.chopconf) <= 8
    }

    /// The serial address of the chip.
    pub closed spec fn spec_address(&self) -> UARTAddress {
        self.address
    }

    /// The values of the registers of the chip, as this driver set them.
    pub closed spec fn spec_registers(&self) -> Registers {
        self.registers
    }

    /// The datagram that writes `value` to the register at `register_address` of this chip.
    pub open spec fn spec_datagram(&self, register_address: u8, value: u32) -> WriteAccessDatagram {
        WriteAccessDatagram::spec_new(self.spec_address(), register_address, value)
    }

    /// The registers of a chip after [`Self::new_using_uart`].
    pub open spec fn spec_initial_registers(microsteps_per_step: MicrostepsPerStep) -> Registers {
        let default = Registers::spec_default();
        let gconf = spec_uart_gconf(default.gconf);
        let ihold_irun = spec_write(default.ihold_irun, IHOLD_IRUN::IRUN, 31);
        let pwm_conf = spec_write(
            spec_write(default.pwm_conf, PWMCONF::PWM_AUTOSCALE, 1),
            PWMCONF::PWM_AUTOGRAD,
            1,
        );
        let chopconf = spec_write(
            spec_write(
                default.chopconf,
                CHOPCONF::MRES,
                microsteps_per_step.spec_value_of_register() as u32,
            ),
            CHOPCONF::TOFF,
            0,
        );
        Registers {
            gconf: spec_write(gconf, GCONF::en_SpreadCycle, 0),
            chopconf,
            pwm_conf,
            ihold_irun,
            slaveconf: spec_write(default.slaveconf, SLAVECONF::SENDDELAY, 5),
        }
    }

    /// Returns a [`TMC2209`] driver for the chip at `uart_address`, together with the datagrams
    /// that, sent in order, apply some default settings good for a 3D printer: UART control of the
    /// chip, 100% of the current when running, automatic current scaling and gradient adaptation,
    /// the provided `microsteps_per_step`, StealthChop and a reply delay of 5 bit times.
    ///
    /// The driver is left disabled (its power stage is off, see [`Self::disable`]): the last
    /// datagram switches the power stage off, so call [`Self::enable`] when the motor must be able
    /// to rotate.
    pub fn new_using_uart(
        uart_address: UARTAddress,
        microsteps_per_step: MicrostepsPerStep,
    ) -> (result: (Self, Vec<WriteAccessDatagram>))
        ensures
            result.0.spec_address() == uart_address,
            result.0.spec_registers() == Self::spec_initial_registers(microsteps_per_step),
            result.1@.len() == 8,
            ({
                let registers = Self::spec_initial_registers(microsteps_per_step);
                let default = Registers::spec_default();
                let datagram = |register_address: u8, value: u32|
                    WriteAccessDatagram::spec_new(uart_address, register_address, value);
                &&& result.1@[0] == datagram(0x00, spec_uart_gconf(default.gconf))
                &&& result.1@[1] == datagram(0x10, registers.ihold_irun)
                &&& result.1@[2] == datagram(0x70, spec_write(default.pwm_conf, PWMCONF::PWM_AUTOSCALE, 1))
                &&& result.1@[3] == datagram(0x70, registers.pwm_conf)
                &&& result.1@[4] == datagram(
                    0x6C,
                    spec_write(default.chopconf, CHOPCONF::MRES, microsteps_per_step.spec_value_of_register() as u32),
                )
                &&& result.1@[5] == datagram(0x00, registers.gconf)
                &&& result.1@[6] == datagram(0x03, registers.slaveconf)
                &&& result.1@[7] == datagram(0x6C, registers.chopconf)
            }),
    {
        let registers = Registers::default();
        proof {
            assert(spec_mres(0x10000053u32) == 0) by (bit_vector);
        }
        let mut self_ = Self { address: uart_address, registers };
        let mut datagrams: Vec<WriteAccessDatagram> = Vec::new();

        datagrams.push(self_.initialize_uart());
        datagrams.push(self_.set_current_scaling(Some(31), None));
        datagrams.push(self_.enable_automatic_current_scaling());
        datagrams.push(self_.enable_automatic_gradient_adaptation());
        datagrams.push(self_.set_microsteps_per_step(microsteps_per_step));
        datagrams.push(self_.enable_stealth_chop());
        datagrams.push(self_.set_reply_delay(ReplyDelay::BitTime5));
        datagrams.push(self_.disable());

        (self_, datagrams)
    }

    /// Writes `value` to `field` of the `CHOPCONF` register and returns the datagram that sends the
    /// new value of the register.
    fn write_chopconf(&mut self, field: CHOPCONF, value: u32) -> (datagram: WriteAccessDatagram)
        requires
            field == CHOPCONF::MRES ==> value <= 8,
            value < (1u32 << old(self).spec_registers_field_len(field)),
        ensures
            final(self).spec_address() == old(self).spec_address(),
            final(self).spec_registers() == (Registers {
                chopconf: spec_write(old(self).spec_registers().chopconf, field, value),
                ..old(self).spec_registers()
            }),
            datagram == final(self).spec_datagram(0x6C, final(self).spec_registers().chopconf),
    {
        proof {
            use_type_invariant(&*self);
        }
        let mut chopconf = self.registers.chopconf;
        write_field_of_register(field, &mut chopconf, value);
        proof {
            let (start, len) = field.spec_field();
            if field == CHOPCONF::MRES {
                lemma_read_after_write(self.registers.chopconf, start, len, value);
            } else {
                lemma_write_keeps_other_fields(self.registers.chopconf, start, len, value, 24, 4);
            }
        }
        self.registers.chopconf = chopconf;
        WriteAccessDatagram::new::<CHOPCONF>(self.address, chopconf)
    }

    /// The number of bits of a field of the `CHOPCONF` register.
    pub open spec fn spec_registers_field_len(&self, field: CHOPCONF) -> u32 {
        field.spec_field().1
    }

    /// Writes `value` to `field` of the `GCONF` register and returns the datagram that sends the
    /// new value of the register.
    fn write_gconf(&mut self, field: GCONF, value: u32) -> (datagram: WriteAccessDatagram)
        ensures
            final(self).spec_address() == old(self).spec_address(),
            final(self).spec_registers() == (Registers {
                gconf: spec_write(old(self).spec_registers().gconf, field, value),
                ..old(self).spec_registers()
            }),
            datagram == final(self).spec_datagram(0x00, final(self).spec_registers().gconf),
    {
        proof {
            use_type_invariant(&*self);
        }
        let mut gconf = self.registers.gconf;
        write_field_of_register(field, &mut gconf, value);
        self.registers.gconf = gconf;
        WriteAccessDatagram::new::<GCONF>(self.address, gconf)
    }

    /// Writes `value` to `field` of the `PWMCONF` register and returns the datagram that sends the
    /// new value of the register.
    fn write_pwm_conf(&mut self, field: PWMCONF, value: u32) -> (datagram: WriteAccessDatagram)
        ensures
            final(self).spec_address() == old(self).spec_address(),
            final(self).spec_registers() == (Registers {
                pwm_conf: spec_write(old(self).spec_registers().pwm_conf, field, value),
                ..old(self).spec_registers()
            }),
            datagram == final(self).spec_datagram(0x70, final(self).spec_registers().pwm_conf),
    {
        proof {
            use_type_invariant(&*self);
        }
        let mut pwm_conf = self.registers.pwm_conf;
        write_field_of_register(field, &mut pwm_conf, value);
        self.registers.pwm_conf = pwm_conf;
        WriteAccessDatagram::new::<PWMCONF>(self.address, pwm_conf)
    }

    /// Enables the chip if `enabled` is `true` (see [`Self::enable`]), otherwise disables it
    /// (see [`Self::disable`]).
    pub fn set_enabled(&mut self, enabled: bool) -> (datagram: WriteAccessDatagram)
        ensures
            final(self).spec_address() == old(self).spec_address(),
            final(self).spec_registers() == (Registers {
                chopconf: spec_write(
                    old(self).spec_registers().chopconf,
                    CHOPCONF::TOFF,
                    if enabled { 3 } else { 0 },
                ),
                ..old(self).spec_registers()
            }),
            datagram == final(self).spec_datagram(0x6C, final(self).spec_registers().chopconf),
    {
        match enabled {
            true => self.enable(),
            false => self.disable(),
        }
    }

    /// Enables the chip: this switches on its power stage, making the motor able to move.
    pub fn enable(&mut self) -> (datagram: WriteAccessDatagram)
        ensures
            final(self).spec_address() == old(self).spec_address(),
            final(self).spec_registers() == (Registers {
                chopconf: spec_write(old(self).spec_registers().chopconf, CHOPCONF::TOFF, 3),
                ..old(self).spec_registers()
            }),
            datagram == final(self).spec_datagram(0x6C, final(self).spec_registers().chopconf),
    {
        assert(3u32 < (1u32 << 4u32)) by (bit_vector);
        self.write_chopconf(CHOPCONF::TOFF, 3)
    }

    /// Disables the chip: this switches off its power stage, making all the motor outputs floating
    /// (the motor can't move).
    pub fn disable(&mut self) -> (datagram: WriteAccessDatagram)
        ensures
            final(self).spec_address() == old(self).spec_address(),
            final(self).spec_registers() == (Registers {
                chopconf: spec_write(old(self).spec_registers().chopconf, CHOPCONF::TOFF, 0),
                ..old(self).spec_registers()
            }),
            datagram == final(self).spec_datagram(0x6C, final(self).spec_registers().chopconf),
    {
        assert(0u32 < (1u32 << 4u32)) by (bit_vector);
        self.write_chopconf(CHOPCONF::TOFF, 0)
    }

    /// Enables `StealthChop`, disabling `SpreadCycle`.
    pub fn enable_stealth_chop(&mut self) -> (datagram: WriteAccessDatagram)
        ensures
            final(self).spec_address() == old(self).spec_address(),
            final(self).spec_registers() == (Registers {
                gconf: spec_write(old(self).spec_registers().gconf, GCONF::en_SpreadCycle, 0),
                ..old(self).spec_registers()
            }),
            datagram == final(self).spec_datagram(0x00, final(self).spec_registers().gconf),
    {
        self.write_gconf(GCONF::en_SpreadCycle, 0)
    }

    /// Disables `StealthChop`, enabling `SpreadCycle`.
    pub fn disable_stealth_chop(&mut self) -> (datagram: WriteAccessDatagram)
        ensures
            final(self).spec_address() == old(self).spec_address(),
            final(self).spec_registers() == (Registers {
                gconf: spec_write(old(self).spec_registers().gconf, GCONF::en_SpreadCycle, 1),
                ..old(self).spec_registers()
            }),
            datagram == final(self).spec_datagram(0x00, final(self).spec_registers().gconf),
    {
        self.write_gconf(GCONF::en_SpreadCycle, 1)
    }

    /// Sets the amount of microsteps the motor will take for each single step.
    pub fn set_microsteps_per_step(&mut self, microsteps_per_step: MicrostepsPerStep) -> (datagram:
        WriteAccessDatagram)
        ensures
            final(self).spec_address() == old(self).spec_address(),
            final(self).spec_registers() == (Registers {
                chopconf: spec_write(
                    old(self).spec_registers().chopconf,
                    CHOPCONF::MRES,
                    microsteps_per_step.spec_value_of_register() as u32,
                ),
                ..old(self).spec_registers()
            }),
            datagram == final(self).spec_datagram(0x6C, final(self).spec_registers().chopconf),
    {
        let value = microsteps_per_step.as_value_of_register() as u32;
        assert(value <= 8 ==> value < (1u32 << 4u32)) by (bit_vector);
        self.write_chopconf(CHOPCONF::MRES, value)
    }

    /// Returns the value you previously set using [`Self::set_microsteps_per_step`] (or the
    /// resolution the chip has when it's powered on, 256 microsteps, if you never set one).
    pub fn get_microsteps_per_step(&self) -> (microsteps_per_step: MicrostepsPerStep)
        ensures
            microsteps_per_step.spec_value_of_register() == spec_mres(self.spec_registers().chopconf),
    {
        proof {
            use_type_invariant(self);
        }
        let microsteps = read_field_of_register(CHOPCONF::MRES, self.registers.chopconf);
        match MicrostepsPerStep::from_value_of_register(microsteps as u8) {
            Some(microsteps_per_step) => microsteps_per_step,
            None => MicrostepsPerStep::M256,
        }
    }

    /// Returns the datagram that asks the chip the value of the register `R`.
    pub fn register_read_request<R: ReadableRegister>(&self) -> (datagram: ReadAccessRequestDatagram)
        ensures
            datagram.slave_address == self.spec_address().spec_value(),
            datagram.register_address == (R::spec_address() << 1u8) & 0b1111_1110u8,
    {
        ReadAccessRequestDatagram::new::<R>(self.address)
    }

    /// Returns the state of the physical pin `register_field` of the chip, given the bytes received
    /// from the chip after sending the datagram returned by `self.register_read_request::<IOIN>()`
    /// (see [`receive_register`]).
    pub fn read_pin_state<E>(
        &self,
        register_field: IOIN,
        echo_bytes_count: usize,
        reply_bytes: &[u8],
    ) -> (state: Result<u8, ReadRegisterError<E>>)
        ensures
            match (state, spec_receive_register(echo_bytes_count, reply_bytes@)) {
                (Ok(state), Ok(ioin)) => state == spec_read_field(
                    ioin,
                    register_field.spec_field().0,
                    register_field.spec_field().1,
                ),
                (Err(error), Err(expected)) => error.spec_same_variant(expected),
                _ => false,
            },
    {
        let ioin = receive_register::<E>(echo_bytes_count, reply_bytes)?;
        let value = read_field_of_register(register_field, ioin);
        proof {
            let (start, len) = register_field.spec_field();
            assert(((ioin >> start) & (((1u32 << len) - 1) as u32)) < 256) by (bit_vector)
                requires
                    1 <= len <= 8,
                    start + len <= 32,
            ;
        }
        Ok(value as u8)
    }

    /// Enables the automatic current control.
    pub fn enable_automatic_current_scaling(&mut self) -> (datagram: WriteAccessDatagram)
        ensures
            final(self).spec_address() == old(self).spec_address(),
            final(self).spec_registers() == (Registers {
                pwm_conf: spec_write(old(self).spec_registers().pwm_conf, PWMCONF::PWM_AUTOSCALE, 1),
                ..old(self).spec_registers()
            }),
            datagram == final(self).spec_datagram(0x70, final(self).spec_registers().pwm_conf),
    {
        self.write_pwm_conf(PWMCONF::PWM_AUTOSCALE, 1)
    }

    /// Disables the automatic current control.
    pub fn disable_automatic_current_scaling(&mut self) -> (datagram: WriteAccessDatagram)
        ensures
            final(self).spec_address() == old(self).spec_address(),
            final(self).spec_registers() == (Registers {
                pwm_conf: spec_write(old(self).spec_registers().pwm_conf, PWMCONF::PWM_AUTOSCALE, 0),
                ..old(self).spec_registers()
            }),
            datagram == final(self).spec_datagram(0x70, final(self).spec_registers().pwm_conf),
    {
        self.write_pwm_conf(PWMCONF::PWM_AUTOSCALE, 0)
    }

    /// Makes the chip automatically adjust the PWM gradient value.
    pub fn enable_automatic_gradient_adaptation(&mut self) -> (datagram: WriteAccessDatagram)
        ensures
            final(self).spec_address() == old(self).spec_address(),
            final(self).spec_registers() == (Registers {
                pwm_conf: spec_write(old(self).spec_registers().pwm_conf, PWMCONF::PWM_AUTOGRAD, 1),
                ..old(self).spec_registers()
            }),
            datagram == final(self).spec_datagram(0x70, final(self).spec_registers().pwm_conf),
    {
        self.write_pwm_conf(PWMCONF::PWM_AUTOGRAD, 1)
    }

    /// Stops the automatic adjustment of the PWM gradient value.
    pub fn disable_automatic_gradient_adaptation(&mut self) -> (datagram: WriteAccessDatagram)
        ensures
            final(self).spec_address() == old(self).spec_address(),
            final(self).spec_registers() == (Registers {
                pwm_conf: spec_write(old(self).spec_registers().pwm_conf, PWMCONF::PWM_AUTOGRAD, 0),
                ..old(self).spec_registers()
            }),
            datagram == final(self).spec_datagram(0x70, final(self).spec_registers().pwm_conf),
    {
        self.write_pwm_conf(PWMCONF::PWM_AUTOGRAD, 0)
    }

    /// Scales the current going to the motor: `on_run` is the scale (from 0 to 31) used when the
    /// motor is running, `on_hold` the one used when it's idle. `None` leaves the scale unchanged.
    pub fn set_current_scaling(&mut self, on_run: Option<u32>, on_hold: Option<u32>) -> (datagram:
        WriteAccessDatagram)
        requires
            on_run matches Some(scale) ==> scale <= 31,
            on_hold matches Some(scale) ==> scale <= 31,
        ensures
            final(self).spec_address() == old(self).spec_address(),
            final(self).spec_registers() == (Registers {
                ihold_irun: {
                    let after_run = match on_run {
                        Some(on_run) => spec_write(old(self).spec_registers().ihold_irun, IHOLD_IRUN::IRUN, on_run),
                        None => old(self).spec_registers().ihold_irun,
                    };
                    match on_hold {
                        Some(on_hold) => spec_write(after_run, IHOLD_IRUN::IHOLD, on_hold),
                        None => after_run,
                    }
                },
                ..old(self).spec_registers()
            }),
            datagram == final(self).spec_datagram(0x10, final(self).spec_registers().ihold_irun),
    {
        proof {
            use_type_invariant(&*self);
        }
        let mut ihold_irun = self.registers.ihold_irun;
        if let Some(on_run) = on_run {
            write_field_of_register(IHOLD_IRUN::IRUN, &mut ihold_irun, on_run);
        }
        if let Some(on_hold) = on_hold {
            write_field_of_register(IHOLD_IRUN::IHOLD, &mut ihold_irun, on_hold);
        }
        self.registers.ihold_irun = ihold_irun;
        WriteAccessDatagram::new::<IHOLD_IRUN>(self.address, ihold_irun)
    }

    /// Makes the chip use the voltage on the `VREF` pin as the reference for the current.
    pub fn enable_analog_scale_current(&mut self) -> (datagram: WriteAccessDatagram)
        ensures
            final(self).spec_address() == old(self).spec_address(),
            final(self).spec_registers() == (Registers {
                gconf: spec_write(old(self).spec_registers().gconf, GCONF::I_scale_analog, 1),
                ..old(self).spec_registers()
            }),
            datagram == final(self).spec_datagram(0x00, final(self).spec_registers().gconf),
    {
        self.write_gconf(GCONF::I_scale_analog, 1)
    }

    /// Makes the chip use its internal reference for the current.
    pub fn disable_analog_scale_current(&mut self) -> (datagram: WriteAccessDatagram)
        ensures
            final(self).spec_address() == old(self).spec_address(),
            final(self).spec_registers() == (Registers {
                gconf: spec_write(old(self).spec_registers().gconf, GCONF::I_scale_analog, 0),
                ..old(self).spec_registers()
            }),
            datagram == final(self).spec_datagram(0x00, final(self).spec_registers().gconf),
    {
        self.write_gconf(GCONF::I_scale_analog, 0)
    }

    /// The chip will extrapolate the microsteps per step you previously set to 256: the motor is
    /// less noisy at the cost of a small positional error.
    pub fn enable_microstep_interpolation(&mut self) -> (datagram: WriteAccessDatagram)
        ensures
            final(self).spec_address() == old(self).spec_address(),
            final(self).spec_registers() == (Registers {
                chopconf: spec_write(old(self).spec_registers().chopconf, CHOPCONF::INTPOL, 1),
                ..old(self).spec_registers()
            }),
            datagram == final(self).spec_datagram(0x6C, final(self).spec_registers().chopconf),
    {
        assert(1u32 < (1u32 << 1u32)) by (bit_vector);
        self.write_chopconf(CHOPCONF::INTPOL, 1)
    }

    /// Disables the microstep interpolation (see [`Self::enable_microstep_interpolation`]).
    pub fn disable_microstep_interpolation(&mut self) -> (datagram: WriteAccessDatagram)
        ensures
            final(self).spec_address() == old(self).spec_address(),
            final(self).spec_registers() == (Registers {
                chopconf: spec_write(old(self).spec_registers().chopconf, CHOPCONF::INTPOL, 0),
                ..old(self).spec_registers()
            }),
            datagram == final(self).spec_datagram(0x6C, final(self).spec_registers().chopconf),
    {
        assert(0u32 < (1u32 << 1u32)) by (bit_vector);
        self.write_chopconf(CHOPCONF::INTPOL, 0)
    }

    /// Sets the delay the chip waits before sending a reply to a read request.
    pub fn set_reply_delay(&mut self, delay: ReplyDelay) -> (datagram: WriteAccessDatagram)
        ensures
            final(self).spec_address() == old(self).spec_address(),
            final(self).spec_registers() == (Registers {
                slaveconf: spec_write(old(self).spec_registers().slaveconf, SLAVECONF::SENDDELAY, delay.spec_value() as u32),
                ..old(self).spec_registers()
            }),
            datagram == final(self).spec_datagram(0x03, final(self).spec_registers().slaveconf),
    {
        proof {
            use_type_invariant(&*self);
        }
        let mut slaveconf = self.registers.slaveconf;
        write_field_of_register(SLAVECONF::SENDDELAY, &mut slaveconf, delay.as_u8() as u32);
        self.registers.slaveconf = slaveconf;
        WriteAccessDatagram::new::<SLAVECONF>(self.address, slaveconf)
    }

    /// Sets the settings that make the chip controlled through UART.
    fn initialize_uart(&mut self) -> (datagram: WriteAccessDatagram)
        ensures
            final(self).spec_address() == old(self).spec_address(),
            final(self).spec_registers() == (Registers {
                gconf: spec_uart_gconf(old(self).spec_registers().gconf),
                ..old(self).spec_registers()
            }),
            datagram == final(self).spec_datagram(0x00, final(self).spec_registers().gconf),
    {
        proof {
            use_type_invariant(&*self);
        }
        let mut gconf = self.registers.gconf;
        write_field_of_register(GCONF::I_scale_analog, &mut gconf, 0);
        write_field_of_register(GCONF::pdn_disable, &mut gconf, 1);
        write_field_of_register(GCONF::mstep_reg_select, &mut gconf, 1);
        write_field_of_register(GCONF::multistep_filt, &mut gconf, 1);
        self.registers.gconf = gconf;
        WriteAccessDatagram::new::<GCONF>(self.address, gconf)
    }
}

/// The minimum number of bytes of the echo of a read request (on the single wire UART interface
/// the microcontroller receives what it sends).
pub open spec fn spec_echo_size() -> usize {
    4
}

/// The result of reading a register, given the number of bytes of the echo of the request and the
/// bytes of the reply received from the chip.
pub open spec fn spec_receive_register<E>(echo_bytes_count: usize, reply_bytes: Seq<u8>) -> Result<
    u32,
    ReadRegisterError<E>,
> {
    if echo_bytes_count < spec_echo_size() {
        Err(ReadRegisterError::FlushEchoInvalidSize)
    } else if reply_bytes.len() < 8 {
        Err(ReadRegisterError::ReplyDatagramIncomplete)
    } else {
        let reply = ReadAccessReplyDatagram {
            sync: reply_bytes[0],
            master_address: reply_bytes[1],
            register_address: reply_bytes[2],
            data: crate::utils::bytes::spec_u32_from_le(reply_bytes[6], reply_bytes[5], reply_bytes[4], reply_bytes[3]),
            crc: reply_bytes[7],
        };
        if !reply.spec_is_valid() {
            Err(ReadRegisterError::ReplyDatagramInvaild)
        } else {
            Ok(reply.data)
        }
    }
}

/// Returns the value of a register given the number of bytes of the echo of the read request and
/// the bytes of the reply received from the chip (the data of the reply is sent most significant
/// byte first).
///
/// Returns `Err(FlushEchoInvalidSize)` if the echo is shorter than a read request,
/// `Err(ReplyDatagramIncomplete)` if the reply is shorter than 8 bytes and `Err(ReplyDatagramInvaild)`
/// if the reply isn't [`valid`](ReadAccessReplyDatagram::is_valid).
pub fn receive_register<E>(echo_bytes_count: usize, reply_bytes: &[u8]) -> (value: Result<u32, ReadRegisterError<E>>)
    ensures
        match (value, spec_receive_register::<E>(echo_bytes_count, reply_bytes@)) {
            (Ok(value), Ok(expected)) => value == expected,
            (Err(error), Err(expected)) => error.spec_same_variant(expected),
            _ => false,
        },
{
    if echo_bytes_count < 4 {
        return Err(ReadRegisterError::FlushEchoInvalidSize);
    }
    if reply_bytes.len() < 8 {
        return Err(ReadRegisterError::ReplyDatagramIncomplete);
    }
    let mut reply = ReadAccessReplyDatagram::from_bytes(
        [
            reply_bytes[0],
            reply_bytes[1],
            reply_bytes[2],
            reply_bytes[3],
            reply_bytes[4],
            reply_bytes[5],
            reply_bytes[6],
            reply_bytes[7],
        ],
    );
    reply.reverse_data_endianness();
    proof {
        let b3 = reply_bytes@[3];
        let b4 = reply_bytes@[4];
        let b5 = reply_bytes@[5];
        let b6 = reply_bytes@[6];
        crate::utils::bytes::lemma_u32_le_roundtrip_bytes(b3, b4, b5, b6);
    }
    if !reply.is_valid() {
        return Err(ReadRegisterError::ReplyDatagramInvaild);
    }
    Ok(reply.data())
}

/// Error that occurred while trying to read a register of the TMC2209 chip.
pub enum ReadRegisterError<E> {
    UartError(E),
    FlushEchoInvalidSize,
    ReplyDatagramIncomplete,
    ReplyDatagramInvaild,
}

impl<E> ReadRegisterError<E> {
    /// `true` if `self` and `other` are the same variant (and, for `UartError`, hold the same
    /// error).
    pub open spec fn spec_same_variant(self, other: Self) -> bool {
        match (self, other) {
            (ReadRegisterError::UartError(a), ReadRegisterError::UartError(b)) => a == b,
            (ReadRegisterError::FlushEchoInvalidSize, ReadRegisterError::FlushEchoInvalidSize) => true,
            (ReadRegisterError::ReplyDatagramIncomplete, ReadRegisterError::ReplyDatagramIncomplete) => true,
            (ReadRegisterError::ReplyDatagramInvaild, ReadRegisterError::ReplyDatagramInvaild) => true,
            _ => false,
        }
    }
}

/// Delay, in bit times, the chip waits before sending a reply to a read request.
#[derive(Clone, Copy, PartialEq, Eq, Debug)]
pub enum ReplyDelay {
    BitTime1,
    BitTime3,
    BitTime5,
    BitTime7,
    BitTime9,
    BitTime11,
    BitTime13,
    BitTime15,
}

impl ReplyDelay {
    /// The number of bit times of the delay.
    pub open spec fn spec_value(self) -> u8 {
        match self {
            ReplyDelay::BitTime1 => 1,
            ReplyDelay::BitTime3 => 3,
            ReplyDelay::BitTime5 => 5,
            ReplyDelay::BitTime7 => 7,
            ReplyDelay::BitTime9 => 9,
            ReplyDelay::BitTime11 => 11,
            ReplyDelay::BitTime13 => 13,
            ReplyDelay::BitTime15 => 15,
        }
    }

    /// Returns the number of bit times of the delay.
    pub fn as_u8(&self) -> (value: u8)
        ensures
            value == self.spec_value(),
    {
        match self {
            ReplyDelay::BitTime1 => 1,
            ReplyDelay::BitTime3 => 3,
            ReplyDelay::BitTime5 => 5,
            ReplyDelay::BitTime7 => 7,
            ReplyDelay::BitTime9 => 9,
            ReplyDelay::BitTime11 => 11,
            ReplyDelay::BitTime13 => 13,
            ReplyDelay::BitTime15 => 15,
        }
    }
}

} // verus!
