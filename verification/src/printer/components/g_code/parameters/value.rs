//! A list of all the values in the parameters of a command supported by this firmware.
//!
//! Check the documentation of [`parameters`] for more details.
//!
//! [`parameters`]: super
use vstd::prelude::*;
use vstd::string::StringSliceAdditionalSpecFns;

verus! {

/// A type of value of a parameter supported by this firmware.
///
/// Check the [`module's`] documentation for more details.
///
/// [`module's`]: self
pub trait GCodeParameterValue: Sized {
    /// Returns the value written in `string`, or `Err(())` if `string` isn't a valid value.
    fn from_str(string: &str) -> (value: Result<Self, ()>);
}

/// A parameter without a value. This may be useful if you just want to know if a specific
/// identifier is present in the command.
#[derive(Clone, Copy, PartialEq, Eq, Debug, Hash, Structural)]
pub struct NoValue;

impl Default for NoValue {
    fn default() -> (value: Self) {
        NoValue
    }
}

impl GCodeParameterValue for NoValue {
    fn from_str(string: &str) -> (value: Result<NoValue, ()>)
        ensures
            value == Ok::<NoValue, ()>(NoValue),
    {
        Ok(NoValue)
    }
}

impl GCodeParameterValue for bool {
    /// # Examples
    /// ```
    /// # use firmware_core::printer::components::g_code::parameters::value::GCodeParameterValue;
    /// #
    /// assert_eq!(bool::from_str("1"), Ok(true));
    /// assert_eq!(bool::from_str("0"), Ok(false));
    /// assert_eq!(bool::from_str("HIGH"), Err(()));
    /// assert_eq!(bool::from_str("true"), Err(()));
    /// ```
    fn from_str(string: &str) -> (value: Result<bool, ()>)
        ensures
            value == (if string.spec_bytes() == seq![0x31u8] {
                Ok::<bool, ()>(true)
            } else if string.spec_bytes() == seq![0x30u8] {
                Ok(false)
            } else {
                Err(())
            }),
    {
        let bytes = string.as_bytes();
        if bytes.len() == 1 && bytes[0] == 0x31u8 {
            assert(bytes@ =~= seq![0x31u8]);
            Ok(true)
        } else if bytes.len() == 1 && bytes[0] == 0x30u8 {
            assert(bytes@ =~= seq![0x30u8]);
            Ok(false)
        } else {
            Err(())
        }
    }
}

/// `byte` is an ASCII decimal digit (from `'0'`, 0x30, to `'9'`, 0x39).
pub open spec fn spec_is_digit(byte: u8) -> bool {
    0x30u8 <= byte <= 0x39u8
}

/// The number written in decimal with the ASCII `digits`.
pub open spec fn spec_digits_value(digits: Seq<u8>) -> int
    decreases digits.len(),
{
    if digits.len() == 0 {
        0
    } else {
        spec_digits_value(digits.drop_last()) * 10 + (digits.last() - 0x30u8)
    }
}

/// `bytes` starts with a minus sign (`-`, 0x2D) and negative integers are allowed (`min` is
/// negative).
pub open spec fn spec_negative(bytes: Seq<u8>, min: int) -> bool {
    bytes.len() > 0 && bytes[0] == 0x2Du8 && min < 0
}

/// The digits after the optional sign of `bytes` (`+`, 0x2B, or `-` when `min` is negative).
pub open spec fn spec_digits(bytes: Seq<u8>, min: int) -> Seq<u8> {
    if bytes.len() > 0 && (bytes[0] == 0x2Bu8 || spec_negative(bytes, min)) {
        bytes.skip(1)
    } else {
        bytes
    }
}

/// All the bytes of `digits` are ASCII digits.
pub open spec fn spec_all_digits(digits: Seq<u8>) -> bool {
    forall|i: int| 0 <= i < digits.len() ==> spec_is_digit(#[trigger] digits[i])
}

/// The integer written in decimal in `bytes`, if it's between `min` and `max`: an optional sign
/// (`+`, or `-` when `min` is negative) followed by at least one ASCII digit, and nothing else.
pub open spec fn spec_parse_integer(bytes: Seq<u8>, min: int, max: int) -> Option<int> {
    let digits = spec_digits(bytes, min);
    let magnitude = spec_digits_value(digits);
    let value = if spec_negative(bytes, min) { -magnitude } else { magnitude };
    if digits.len() > 0 && spec_all_digits(digits) && min <= value <= max {
        Some(value)
    } else {
        None
    }
}

/// The digits value grows with the digits: with more digits it's at least as large.
proof fn lemma_digits_value_grows(digits: Seq<u8>, k: int)
    requires
        0 <= k <= digits.len(),
        forall|i: int| 0 <= i < digits.len() ==> spec_is_digit(#[trigger] digits[i]),
    ensures
        spec_digits_value(digits.take(k)) <= spec_digits_value(digits),
        0 <= spec_digits_value(digits.take(k)),
    decreases digits.len() - k,
{
    assert(digits.take(digits.len() as int) =~= digits);
    if k < digits.len() {
        lemma_digits_value_grows(digits, k + 1);
        assert(digits.take(k + 1).drop_last() =~= digits.take(k));
    } else {
        lemma_digits_value_nonnegative(digits);
    }
}

/// The value of digits is never negative.
proof fn lemma_digits_value_nonnegative(digits: Seq<u8>)
    requires
        forall|i: int| 0 <= i < digits.len() ==> spec_is_digit(#[trigger] digits[i]),
    ensures
        0 <= spec_digits_value(digits),
    decreases digits.len(),
{
    if digits.len() > 0 {
        let rest = digits.drop_last();
        assert forall|i: int| 0 <= i < rest.len() implies spec_is_digit(#[trigger] rest[i]) by {
            assert(rest[i] == digits[i]);
        }
        lemma_digits_value_nonnegative(rest);
        assert(spec_is_digit(digits[digits.len() - 1]));
    }
}

/// Returns the integer written in decimal in `bytes` (see [`spec_parse_integer`]).
fn parse_integer(bytes: &[u8], min: i128, max: i128) -> (value: Option<i128>)
    requires
        -0x1_0000_0000_0000_0000 <= min <= 0 <= max <= 0x1_0000_0000_0000_0000,
    ensures
        value == (match spec_parse_integer(bytes@, min as int, max as int) {
            Some(v) => Some(v as i128),
            None => None,
        }),
{
    let negative = bytes.len() > 0 && bytes[0] == 0x2Du8 && min < 0;
    let signed = bytes.len() > 0 && (bytes[0] == 0x2Bu8 || negative);
    let start: usize = if signed { 1 } else { 0 };
    let ghost digits = spec_digits(bytes@, min as int);
    let limit: i128 = if negative { -min } else { max };
    if bytes.len() <= start {
        return None;
    }
    let mut magnitude: i128 = 0;
    let mut i: usize = start;
    while i < bytes.len()
        invariant
            start <= i <= bytes@.len(),
            -0x1_0000_0000_0000_0000 <= min <= 0 <= max <= 0x1_0000_0000_0000_0000,
            negative == (bytes@.len() > 0 && bytes@[0] == 0x2Du8 && min < 0),
            signed == (bytes@.len() > 0 && (bytes@[0] == 0x2Bu8 || negative)),
            limit == (if negative { -min } else { max as int }),
            start == (if signed { 1int } else { 0 }),
            digits == spec_digits(bytes@, min as int),
            0 <= limit <= 0x1_0000_0000_0000_0000,
            forall|j: int| 0 <= j < i - start ==> spec_is_digit(#[trigger] digits[j]),
            magnitude == spec_digits_value(digits.take(i - start)),
            0 <= magnitude <= limit,
        decreases bytes@.len() - i,
    {
        let byte = bytes[i];
        assert(digits[i - start] == byte);
        if byte < 0x30u8 || byte > 0x39u8 {
            assert(!spec_is_digit(digits[i - start]));
            assert(0 <= i - start < digits.len());
            return None;
        }
        assert(digits.take(i - start + 1).drop_last() =~= digits.take(i - start));
        assert(digits.take(i - start + 1).last() == byte);
        magnitude = magnitude * 10 + (byte - 0x30u8) as i128;
        assert(magnitude == spec_digits_value(digits.take(i - start + 1)));
        if magnitude > limit {
            proof {
                assert forall|j: int| 0 <= j < i - start + 1 implies spec_is_digit(#[trigger] digits.take(i - start + 1)[j]) by {
                    assert(digits.take(i - start + 1)[j] == digits[j]);
                }
                if spec_all_digits(digits) {
                    lemma_digits_value_grows(digits, i - start + 1);
                }
            }
            return None;
        }
        i = i + 1;
    }
    assert(digits.take(i - start) =~= digits);
    if negative {
        Some(-magnitude)
    } else {
        Some(magnitude)
    }
}

impl GCodeParameterValue for u8 {
    fn from_str(string: &str) -> (value: Result<u8, ()>)
        ensures
            value == (match spec_parse_integer(string.spec_bytes(), u8::MIN as int, u8::MAX as int) {
                Some(v) => Ok::<u8, ()>(v as u8),
                None => Err(()),
            }),
    {
        match parse_integer(string.as_bytes(), 0, 0xFF) {
            Some(value) => Ok(value as u8),
            None => Err(()),
        }
    }
}

impl GCodeParameterValue for u16 {
    fn from_str(string: &str) -> (value: Result<u16, ()>)
        ensures
            value == (match spec_parse_integer(string.spec_bytes(), u16::MIN as int, u16::MAX as int) {
                Some(v) => Ok::<u16, ()>(v as u16),
                None => Err(()),
            }),
    {
        match parse_integer(string.as_bytes(), 0, 0xFFFF) {
            Some(value) => Ok(value as u16),
            None => Err(()),
        }
    }
}

impl GCodeParameterValue for u32 {
    fn from_str(string: &str) -> (value: Result<u32, ()>)
        ensures
            value == (match spec_parse_integer(string.spec_bytes(), u32::MIN as int, u32::MAX as int) {
                Some(v) => Ok::<u32, ()>(v as u32),
                None => Err(()),
            }),
    {
        match parse_integer(string.as_bytes(), 0, 0xFFFF_FFFF) {
            Some(value) => Ok(value as u32),
            None => Err(()),
        }
    }
}

impl GCodeParameterValue for usize {
    fn from_str(string: &str) -> (value: Result<usize, ()>)
        ensures
            value == (match spec_parse_integer(string.spec_bytes(), usize::MIN as int, usize::MAX as int) {
                Some(v) => Ok::<usize, ()>(v as usize),
                None => Err(()),
            }),
    {
        match parse_integer(string.as_bytes(), 0, usize::MAX as i128) {
            Some(value) => Ok(value as usize),
            None => Err(()),
        }
    }
}

impl GCodeParameterValue for i8 {
    fn from_str(string: &str) -> (value: Result<i8, ()>)
        ensures
            value == (match spec_parse_integer(string.spec_bytes(), i8::MIN as int, i8::MAX as int) {
                Some(v) => Ok::<i8, ()>(v as i8),
                None => Err(()),
            }),
    {
        match parse_integer(string.as_bytes(), -0x80, 0x7F) {
            Some(value) => Ok(value as i8),
            None => Err(()),
        }
    }
}

impl GCodeParameterValue for i16 {
    fn from_str(string: &str) -> (value: Result<i16, ()>)
        ensures
            value == (match spec_parse_integer(string.spec_bytes(), i16::MIN as int, i16::MAX as int) {
                Some(v) => Ok::<i16, ()>(v as i16),
                None => Err(()),
            }),
    {
        match parse_integer(string.as_bytes(), -0x8000, 0x7FFF) {
            Some(value) => Ok(value as i16),
            None => Err(()),
        }
    }
}

impl GCodeParameterValue for i32 {
    fn from_str(string: &str) -> (value: Result<i32, ()>)
        ensures
            value == (match spec_parse_integer(string.spec_bytes(), i32::MIN as int, i32::MAX as int) {
                Some(v) => Ok::<i32, ()>(v as i32),
                None => Err(()),
            }),
    {
        match parse_integer(string.as_bytes(), -0x8000_0000, 0x7FFF_FFFF) {
            Some(value) => Ok(value as i32),
            None => Err(()),
        }
    }
}

} // verus!
