//! Narrowing and widening of bus values at each access width.

use psx_bus::access::AccessWidth;

#[test]
fn widths_in_bytes() {
    assert_eq!(AccessWidth::Byte.bytes(), 1);
    assert_eq!(AccessWidth::Halfword.bytes(), 2);
    assert_eq!(AccessWidth::Word.bytes(), 4);
}

#[test]
fn narrow_then_widen_masks_to_width() {
    let v: u32 = 0xdead_beef;
    assert_eq!(AccessWidth::Byte.as_u32(AccessWidth::Byte.from_u32(v)), 0xef);
    assert_eq!(AccessWidth::Halfword.as_u32(AccessWidth::Halfword.from_u32(v)), 0xbeef);
    assert_eq!(AccessWidth::Word.as_u32(AccessWidth::Word.from_u32(v)), 0xdead_beef);
}

#[test]
fn widen_then_narrow_keeps_in_range_values() {
    assert_eq!(AccessWidth::Byte.from_u32(AccessWidth::Byte.as_u32(0x7f)), 0x7f);
    assert_eq!(AccessWidth::Byte.from_u32(AccessWidth::Byte.as_u32(0xff)), 0xff);
    assert_eq!(AccessWidth::Halfword.from_u32(AccessWidth::Halfword.as_u32(0x1234)), 0x1234);
    assert_eq!(AccessWidth::Word.from_u32(AccessWidth::Word.as_u32(0xffff_ffff)), 0xffff_ffff);
}

#[test]
fn narrowing_discards_high_bits() {
    assert_eq!(AccessWidth::Byte.from_u32(0x123), 0x23);
    assert_eq!(AccessWidth::Halfword.from_u32(0x5_4321), 0x4321);
    assert_eq!(AccessWidth::Word.from_u32(0x8765_4321), 0x8765_4321);
}
