use firmware_core::utils::bytes::{u16_from_le_bytes, u16_to_le_bytes, u32_from_le_bytes, u32_to_be_bytes, u32_to_le_bytes};
use firmware_core::utils::math::ceil_div;

#[test]
fn ceil_division() {
    assert_eq!(ceil_div(0, 5), 0);
    assert_eq!(ceil_div(10, 5), 2);
    assert_eq!(ceil_div(11, 5), 3);
    assert_eq!(ceil_div(u32::MAX, 2), 0x8000_0000);
    assert_eq!(ceil_div(u32::MAX, 1), u32::MAX);
}

#[test]
fn integer_bytes() {
    assert_eq!(u32_to_le_bytes(0x1234_5678), [0x78, 0x56, 0x34, 0x12]);
    assert_eq!(u32_to_be_bytes(0x1234_5678), [0x12, 0x34, 0x56, 0x78]);
    assert_eq!(u32_from_le_bytes([0x78, 0x56, 0x34, 0x12]), 0x1234_5678);
    assert_eq!(u16_to_le_bytes(0xABCD), [0xCD, 0xAB]);
    assert_eq!(u16_from_le_bytes(0xCD, 0xAB), 0xABCD);
    for value in [0u32, 1, 0xFF, 0x100, 0xDEAD_BEEF, u32::MAX] {
        assert_eq!(u32_from_le_bytes(u32_to_le_bytes(value)), value);
    }
}
