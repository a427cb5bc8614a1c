//! The internal registers of the TMC2209 chip, with the bit fields that this driver uses.
#![allow(non_camel_case_types)]

use vstd::prelude::*;

verus! {

/// Mask that selects the `len` bits of a register starting at bit `start`.
pub open spec fn field_mask(start: u32, len: u32) -> u32 {
    ((((1u32 << len) - 1) as u32) << start) as u32
}

/// The value of a register after `value` has been written to the field of `len` bits that starts at
/// bit `start`: the bits of the field are cleared and then `value << start` is or-ed in (so the bits
/// of `value` that don't fit in the field are or-ed in as well).
pub open spec fn spec_write_field(register: u32, start: u32, len: u32, value: u32) -> u32 {
    (register & !field_mask(start, len)) | ((value << start) as u32)
}

/// The value stored in the field of `len` bits that starts at bit `start` of `register`.
pub open spec fn spec_read_field(register: u32, start: u32, len: u32) -> u32 {
    (register >> start) & (((1u32 << len) - 1) as u32)
}

/// A field is well formed when it has between 1 and 8 bits and it fits in a 32 bits register.
pub open spec fn field_fits(start: u32, len: u32) -> bool {
    1 <= len <= 8 && start + len <= 32
}

/// A register of the TMC2209 chip.
pub trait Register {
    spec fn spec_address() -> u8;

    /// Address of the register.
    fn address() -> (address: u8)
        ensures
            address == Self::spec_address(),
            address < 0x80,
    ;
}

/// A register that can be read through UART.
pub trait ReadableRegister: Register {

}

/// A register that can be written through UART.
pub trait WriteableRegister: Register + Sized {
    /// As stated in the TMC2209 datasheet, you can add 0x80 to an address of a register to get its
    /// write address.
    fn write_address() -> (address: u8)
        ensures
            address == Self::spec_address() + 0x80,
    {
        Self::address() + 0x80
    }
}

/// A field (a range of bits) of a register.
pub trait RegisterWithFields: Register + Sized {
    /// The first bit of the field and its number of bits.
    spec fn spec_field(self) -> (u32, u32);

    /// Returns the first and the last bit (both included) of the field.
    fn get_bits_range(self) -> (range: (u8, u8))
        ensures
            range.0 as u32 == self.spec_field().0,
            range.1 as u32 == self.spec_field().0 + self.spec_field().1 - 1,
            field_fits(self.spec_field().0, self.spec_field().1),
    ;
}

/// Write some bits to the specified field of a register.
///
/// The field is cleared and `value_to_write` shifted to the start of the field is or-ed in.
pub fn write_field_of_register<F: RegisterWithFields + WriteableRegister>(
    register_field: F,
    register_value: &mut u32,
    value_to_write: u32,
)
    ensures
        *final(register_value) == spec_write_field(
            *old(register_value),
            register_field.spec_field().0,
            register_field.spec_field().1,
            value_to_write,
        ),
{
    let (start, end) = register_field.get_bits_range();
    let start = start as u32;
    let len = (end - start as u8) as u32 + 1;
    assert(1u32 << len >= 1u32) by (bit_vector)
        requires
            len <= 8,
    ;
    let mask: u32 = ((1u32 << len) - 1) << start;
    let value = value_to_write << start;
    *register_value = (*register_value & !mask) | value;
}

/// Returns the value stored in the specified field of a register.
pub fn read_field_of_register<F: RegisterWithFields>(register_field: F, register_value: u32) -> (value: u32)
    ensures
        value == spec_read_field(
            register_value,
            register_field.spec_field().0,
            register_field.spec_field().1,
        ),
{
    let (start, end) = register_field.get_bits_range();
    let start = start as u32;
    let len = (end - start as u8) as u32 + 1;
    assert(1u32 << len >= 1u32) by (bit_vector)
        requires
            len <= 8,
    ;
    let mask: u32 = (1u32 << len) - 1;
    (register_value >> start) & mask
}

/// Reading a field after writing a value to it gives back the value, as long as the value fits in
/// the field.
pub proof fn lemma_read_after_write(register: u32, start: u32, len: u32, value: u32)
    requires
        field_fits(start, len),
        value < (1u32 << len),
    ensures
        spec_read_field(spec_write_field(register, start, len, value), start, len) == value,
{
    assert(((((register & !(((((1u32 << len) - 1) as u32) << start) as u32)) | ((value << start) as u32))
        >> start) & (((1u32 << len) - 1) as u32)) == value) by (bit_vector)
        requires
            1 <= len <= 8,
            start + len <= 32,
            value < (1u32 << len),
    ;
}

/// Writing a value (that fits) to a field doesn't change any other field that doesn't overlap it.
pub proof fn lemma_write_keeps_other_fields(
    register: u32,
    start: u32,
    len: u32,
    value: u32,
    other_start: u32,
    other_len: u32,
)
    requires
        field_fits(start, len),
        field_fits(other_start, other_len),
        value < (1u32 << len),
        other_start + other_len <= start || start + len <= other_start,
    ensures
        spec_read_field(spec_write_field(register, start, len, value), other_start, other_len)
            == spec_read_field(register, other_start, other_len),
{
    assert(((((register & !(((((1u32 << len) - 1) as u32) << start) as u32)) | ((value << start) as u32))
        >> other_start) & (((1u32 << other_len) - 1) as u32)) == ((register >> other_start) & (((1u32
        << other_len) - 1) as u32))) by (bit_vector)
        requires
            1 <= len <= 8,
            start + len <= 32,
            1 <= other_len <= 8,
            other_start + other_len <= 32,
            value < (1u32 << len),
            other_start + other_len <= start || start + len <= other_start,
    ;
}


/// Values of the internal registers of the TMC2209 chip cached in the microcontroller.
#[derive(Clone, Copy, PartialEq, Eq, Debug)]
pub struct Registers {
    pub gconf: u32,
    pub chopconf: u32,
    pub pwm_conf: u32,
    pub ihold_irun: u32,
    pub slaveconf: u32,
}

impl Registers {
    /// The values the TMC2209 chip sets in its registers when it's powered on.
    pub open spec fn spec_default() -> Self {
        Registers {
            gconf: 0b01_0000_0001,
            chopconf: 0x10000053,
            pwm_conf: 0xC10D0024,
            ihold_irun: spec_write_field(
                spec_write_field(spec_write_field(0, 0, 5, 16), 8, 5, 31),
                16,
                4,
                31,
            ),
            slaveconf: 0,
        }
    }
}

impl Default for Registers {
    /// Sets the values of the registers of the TMC2209 chip cached in the microcontroller to the
    /// default ones that the TMC2209 sets when it's powered on.
    fn default() -> (registers: Self)
        ensures
            registers == Registers::spec_default(),
            registers.ihold_irun == 0x001F_1F10,
    {
        let mut self_ = Self {
            gconf: 0b01_0000_0001,
            chopconf: 0x10000053,
            pwm_conf: 0xC10D0024,
            ihold_irun: 0,
            slaveconf: 0,
        };

        write_field_of_register(IHOLD_IRUN::IHOLD, &mut self_.ihold_irun, 16);
        write_field_of_register(IHOLD_IRUN::IRUN, &mut self_.ihold_irun, 31);
        write_field_of_register(IHOLD_IRUN::IHOLDDELAY, &mut self_.ihold_irun, 31);
        assert(spec_write_field(spec_write_field(spec_write_field(0, 0, 5, 16), 8, 5, 31), 16, 4, 31)
            == 0x001F_1F10) by (bit_vector);

        self_
    }
}

/// General configuration.
#[derive(Clone, Copy, PartialEq, Eq, Debug)]
pub enum GCONF {
    I_scale_analog,
    internal_Rsense,
    en_SpreadCycle,
    shaft,
    index_otpw,
    index_step,
    pdn_disable,
    mstep_reg_select,
    multistep_filt,
    test_mode,
}

impl Register for GCONF {
    open spec fn spec_address() -> u8 {
        0x00
    }

    fn address() -> (address: u8) {
        0x00
    }
}

impl ReadableRegister for GCONF {

}

impl WriteableRegister for GCONF {

}

impl RegisterWithFields for GCONF {
    open spec fn spec_field(self) -> (u32, u32) {
        match self {
            GCONF::I_scale_analog => (0, 1),
            GCONF::internal_Rsense => (1, 1),
            GCONF::en_SpreadCycle => (2, 1),
            GCONF::shaft => (3, 1),
            GCONF::index_otpw => (4, 1),
            GCONF::index_step => (5, 1),
            GCONF::pdn_disable => (6, 1),
            GCONF::mstep_reg_select => (7, 1),
            GCONF::multistep_filt => (8, 1),
            GCONF::test_mode => (9, 1),
        }
    }

    fn get_bits_range(self) -> (range: (u8, u8)) {
        match self {
            GCONF::I_scale_analog => (0, 0),
            GCONF::internal_Rsense => (1, 1),
            GCONF::en_SpreadCycle => (2, 2),
            GCONF::shaft => (3, 3),
            GCONF::index_otpw => (4, 4),
            GCONF::index_step => (5, 5),
            GCONF::pdn_disable => (6, 6),
            GCONF::mstep_reg_select => (7, 7),
            GCONF::multistep_filt => (8, 8),
            GCONF::test_mode => (9, 9),
        }
    }
}

/// The fields of `GCONF` in the order of the datasheet, from bit 0 to bit 9.
pub open spec fn spec_gconf_fields() -> Seq<GCONF> {
    seq![
        GCONF::I_scale_analog,
        GCONF::internal_Rsense,
        GCONF::en_SpreadCycle,
        GCONF::shaft,
        GCONF::index_otpw,
        GCONF::index_step,
        GCONF::pdn_disable,
        GCONF::mstep_reg_select,
        GCONF::multistep_filt,
        GCONF::test_mode,
    ]
}

/// Each field of `GCONF` is a single bit, the one at its position in the order of the datasheet:
/// `I_scale_analog` is bit 0, `internal_Rsense` bit 1, `en_SpreadCycle` bit 2, `shaft` bit 3 and
/// so on up to `test_mode`, bit 9. So no two fields share a bit.
pub proof fn lemma_gconf_fields_are_their_bits()
    ensures
        forall|i: int| 0 <= i < spec_gconf_fields().len() ==> (#[trigger] spec_gconf_fields()[i]).spec_field() == (i as u32, 1u32),
        spec_gconf_fields().len() == 10,
{
    let fields = spec_gconf_fields();
    assert(fields[0].spec_field() == (0u32, 1u32));
    assert(fields[1].spec_field() == (1u32, 1u32));
    assert(fields[2].spec_field() == (2u32, 1u32));
    assert(fields[3].spec_field() == (3u32, 1u32));
    assert(fields[4].spec_field() == (4u32, 1u32));
    assert(fields[5].spec_field() == (5u32, 1u32));
    assert(fields[6].spec_field() == (6u32, 1u32));
    assert(fields[7].spec_field() == (7u32, 1u32));
    assert(fields[8].spec_field() == (8u32, 1u32));
    assert(fields[9].spec_field() == (9u32, 1u32));
}

/// Global status flags.
#[derive(Clone, Copy, PartialEq, Eq, Debug)]
pub enum GSTAT {
    reset,
    drv_err,
    uv_cp,
}

impl Register for GSTAT {
    open spec fn spec_address() -> u8 {
        0x01
    }

    fn address() -> (address: u8) {
        0x01
    }
}

impl ReadableRegister for GSTAT {

}

impl WriteableRegister for GSTAT {

}

impl RegisterWithFields for GSTAT {
    open spec fn spec_field(self) -> (u32, u32) {
        match self {
            GSTAT::reset => (0, 1),
            GSTAT::drv_err => (1, 1),
            GSTAT::uv_cp => (2, 1),
        }
    }

    fn get_bits_range(self) -> (range: (u8, u8)) {
        match self {
            GSTAT::reset => (0, 0),
            GSTAT::drv_err => (1, 1),
            GSTAT::uv_cp => (2, 2),
        }
    }
}

/// Delay for the read access replies.
#[derive(Clone, Copy, PartialEq, Eq, Debug)]
pub enum SLAVECONF {
    SENDDELAY,
}

impl Register for SLAVECONF {
    open spec fn spec_address() -> u8 {
        0x03
    }

    fn address() -> (address: u8) {
        0x03
    }
}

impl WriteableRegister for SLAVECONF {

}

impl RegisterWithFields for SLAVECONF {
    open spec fn spec_field(self) -> (u32, u32) {
        match self {
            SLAVECONF::SENDDELAY => (8, 4),
        }
    }

    fn get_bits_range(self) -> (range: (u8, u8)) {
        match self {
            SLAVECONF::SENDDELAY => (8, 11),
        }
    }
}

/// State of the input pins.
#[derive(Clone, Copy, PartialEq, Eq, Debug)]
pub enum IOIN {
    ENN,
    MS1,
    MS2,
    DIAG,
    PDN_UART,
    STEP,
    SPREAD_EN,
    DIR,
    VERSION,
}

impl Register for IOIN {
    open spec fn spec_address() -> u8 {
        0x06
    }

    fn address() -> (address: u8) {
        0x06
    }
}

impl ReadableRegister for IOIN {

}

impl RegisterWithFields for IOIN {
    open spec fn spec_field(self) -> (u32, u32) {
        match self {
            IOIN::ENN => (0, 1),
            IOIN::MS1 => (2, 1),
            IOIN::MS2 => (3, 1),
            IOIN::DIAG => (4, 1),
            IOIN::PDN_UART => (6, 1),
            IOIN::STEP => (7, 1),
            IOIN::SPREAD_EN => (8, 1),
            IOIN::DIR => (9, 1),
            IOIN::VERSION => (24, 8),
        }
    }

    fn get_bits_range(self) -> (range: (u8, u8)) {
        match self {
            IOIN::ENN => (0, 0),
            IOIN::MS1 => (2, 2),
            IOIN::MS2 => (3, 3),
            IOIN::DIAG => (4, 4),
            IOIN::PDN_UART => (6, 6),
            IOIN::STEP => (7, 7),
            IOIN::SPREAD_EN => (8, 8),
            IOIN::DIR => (9, 9),
            IOIN::VERSION => (24, 31),
        }
    }
}

/// Driver current control.
#[derive(Clone, Copy, PartialEq, Eq, Debug)]
pub enum IHOLD_IRUN {
    IHOLD,
    IRUN,
    IHOLDDELAY,
}

impl Register for IHOLD_IRUN {
    open spec fn spec_address() -> u8 {
        0x10
    }

    fn address() -> (address: u8) {
        0x10
    }
}

impl WriteableRegister for IHOLD_IRUN {

}

impl RegisterWithFields for IHOLD_IRUN {
    open spec fn spec_field(self) -> (u32, u32) {
        match self {
            IHOLD_IRUN::IHOLD => (0, 5),
            IHOLD_IRUN::IRUN => (8, 5),
            IHOLD_IRUN::IHOLDDELAY => (16, 4),
        }
    }

    fn get_bits_range(self) -> (range: (u8, u8)) {
        match self {
            IHOLD_IRUN::IHOLD => (0, 4),
            IHOLD_IRUN::IRUN => (8, 12),
            IHOLD_IRUN::IHOLDDELAY => (16, 19),
        }
    }
}

/// Chopper configuration.
#[derive(Clone, Copy, PartialEq, Eq, Debug)]
pub enum CHOPCONF {
    TOFF,
    HSTRT,
    HEND,
    TBL,
    VSENSE,
    MRES,
    INTPOL,
    DEDGE,
    DISS2G,
    DISS2VS,
}

impl Register for CHOPCONF {
    open spec fn spec_address() -> u8 {
        0x6C
    }

    fn address() -> (address: u8) {
        0x6C
    }
}

impl ReadableRegister for CHOPCONF {

}

impl WriteableRegister for CHOPCONF {

}

impl RegisterWithFields for CHOPCONF {
    open spec fn spec_field(self) -> (u32, u32) {
        match self {
            CHOPCONF::TOFF => (0, 4),
            CHOPCONF::HSTRT => (4, 3),
            CHOPCONF::HEND => (7, 4),
            CHOPCONF::TBL => (15, 2),
            CHOPCONF::VSENSE => (17, 1),
            CHOPCONF::MRES => (24, 4),
            CHOPCONF::INTPOL => (28, 1),
            CHOPCONF::DEDGE => (29, 1),
            CHOPCONF::DISS2G => (30, 1),
            CHOPCONF::DISS2VS => (31, 1),
        }
    }

    fn get_bits_range(self) -> (range: (u8, u8)) {
        match self {
            CHOPCONF::TOFF => (0, 3),
            CHOPCONF::HSTRT => (4, 6),
            CHOPCONF::HEND => (7, 10),
            CHOPCONF::TBL => (15, 16),
            CHOPCONF::VSENSE => (17, 17),
            CHOPCONF::MRES => (24, 27),
            CHOPCONF::INTPOL => (28, 28),
            CHOPCONF::DEDGE => (29, 29),
            CHOPCONF::DISS2G => (30, 30),
            CHOPCONF::DISS2VS => (31, 31),
        }
    }
}

/// StealthChop PWM configuration.
#[derive(Clone, Copy, PartialEq, Eq, Debug)]
pub enum PWMCONF {
    PWM_OFS,
    PWM_GRAD,
    PWM_FREQ0,
    PWM_FREQ1,
    PWM_AUTOSCALE,
    PWM_AUTOGRAD,
    FREEWHEEL,
    PWM_REG,
    PWM_LIM,
}

impl Register for PWMCONF {
    open spec fn spec_address() -> u8 {
        0x70
    }

    fn address() -> (address: u8) {
        0x70
    }
}

impl ReadableRegister for PWMCONF {

}

impl WriteableRegister for PWMCONF {

}

impl RegisterWithFields for PWMCONF {
    open spec fn spec_field(self) -> (u32, u32) {
        match self {
            PWMCONF::PWM_OFS => (0, 8),
            PWMCONF::PWM_GRAD => (8, 8),
            PWMCONF::PWM_FREQ0 => (16, 1),
            PWMCONF::PWM_FREQ1 => (17, 1),
            PWMCONF::PWM_AUTOSCALE => (18, 1),
            PWMCONF::PWM_AUTOGRAD => (19, 1),
            PWMCONF::FREEWHEEL => (20, 2),
            PWMCONF::PWM_REG => (24, 4),
            PWMCONF::PWM_LIM => (28, 4),
        }
    }

    fn get_bits_range(self) -> (range: (u8, u8)) {
        match self {
            PWMCONF::PWM_OFS => (0, 7),
            PWMCONF::PWM_GRAD => (8, 15),
            PWMCONF::PWM_FREQ0 => (16, 16),
            PWMCONF::PWM_FREQ1 => (17, 17),
            PWMCONF::PWM_AUTOSCALE => (18, 18),
            PWMCONF::PWM_AUTOGRAD => (19, 19),
            PWMCONF::FREEWHEEL => (20, 21),
            PWMCONF::PWM_REG => (24, 27),
            PWMCONF::PWM_LIM => (28, 31),
        }
    }
}

/// Velocity of the motor when it's moved through UART.
pub struct VACTUAL;

impl Register for VACTUAL {
    open spec fn spec_address() -> u8 {
        0x22
    }

    fn address() -> (address: u8) {
        0x22
    }
}

impl WriteableRegister for VACTUAL {

}

/// The bits `first..=last` of a register that a field with `field` (its first bit and its number
/// of bits) covers are exactly `first..=last`.
pub open spec fn spec_covers(field: (u32, u32), first: int, last: int) -> bool {
    field.0 == first && field.0 + field.1 - 1 == last
}

/// The registers are at the addresses of the TMC2209 datasheet, and their fields cover the bits
/// that the datasheet gives them (both ends included).
pub proof fn lemma_registers_match_the_datasheet()
    ensures
        GCONF::spec_address() == 0x00,
        GSTAT::spec_address() == 0x01,
        SLAVECONF::spec_address() == 0x03,
        IOIN::spec_address() == 0x06,
        IHOLD_IRUN::spec_address() == 0x10,
        CHOPCONF::spec_address() == 0x6C,
        PWMCONF::spec_address() == 0x70,
        VACTUAL::spec_address() == 0x22,
        spec_covers(GSTAT::reset.spec_field(), 0, 0),
        spec_covers(GSTAT::drv_err.spec_field(), 1, 1),
        spec_covers(GSTAT::uv_cp.spec_field(), 2, 2),
        spec_covers(SLAVECONF::SENDDELAY.spec_field(), 8, 11),
        spec_covers(IOIN::ENN.spec_field(), 0, 0),
        spec_covers(IOIN::MS1.spec_field(), 2, 2),
        spec_covers(IOIN::MS2.spec_field(), 3, 3),
        spec_covers(IOIN::DIAG.spec_field(), 4, 4),
        spec_covers(IOIN::PDN_UART.spec_field(), 6, 6),
        spec_covers(IOIN::STEP.spec_field(), 7, 7),
        spec_covers(IOIN::SPREAD_EN.spec_field(), 8, 8),
        spec_covers(IOIN::DIR.spec_field(), 9, 9),
        spec_covers(IOIN::VERSION.spec_field(), 24, 31),
        spec_covers(IHOLD_IRUN::IHOLD.spec_field(), 0, 4),
        spec_covers(IHOLD_IRUN::IRUN.spec_field(), 8, 12),
        spec_covers(IHOLD_IRUN::IHOLDDELAY.spec_field(), 16, 19),
        spec_covers(CHOPCONF::TOFF.spec_field(), 0, 3),
        spec_covers(CHOPCONF::HSTRT.spec_field(), 4, 6),
        spec_covers(CHOPCONF::HEND.spec_field(), 7, 10),
        spec_covers(CHOPCONF::TBL.spec_field(), 15, 16),
        spec_covers(CHOPCONF::VSENSE.spec_field(), 17, 17),
        spec_covers(CHOPCONF::MRES.spec_field(), 24, 27),
        spec_covers(CHOPCONF::INTPOL.spec_field(), 28, 28),
        spec_covers(CHOPCONF::DEDGE.spec_field(), 29, 29),
        spec_covers(CHOPCONF::DISS2G.spec_field(), 30, 30),
        spec_covers(CHOPCONF::DISS2VS.spec_field(), 31, 31),
        spec_covers(PWMCONF::PWM_OFS.spec_field(), 0, 7),
        spec_covers(PWMCONF::PWM_GRAD.spec_field(), 8, 15),
        spec_covers(PWMCONF::PWM_FREQ0.spec_field(), 16, 16),
        spec_covers(PWMCONF::PWM_FREQ1.spec_field(), 17, 17),
        spec_covers(PWMCONF::PWM_AUTOSCALE.spec_field(), 18, 18),
        spec_covers(PWMCONF::PWM_AUTOGRAD.spec_field(), 19, 19),
        spec_covers(PWMCONF::FREEWHEEL.spec_field(), 20, 21),
        spec_covers(PWMCONF::PWM_REG.spec_field(), 24, 27),
        spec_covers(PWMCONF::PWM_LIM.spec_field(), 28, 31),
{
}

} // verus!
