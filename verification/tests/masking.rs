//! Region masking: idempotence and the three mirrors of low RAM.

use psx_bus::memmap::{mask_region, Range};

#[test]
fn mask_region_is_idempotent_across_regions() {
    let samples: [u32; 12] = [
        0x0000_0000,
        0x0000_1234,
        0x001f_fffc,
        0x1f00_0000,
        0x1fc0_0000,
        0x7fff_ffff,
        0x8000_0000,
        0x8020_0000,
        0x9f00_0000,
        0xa000_0000,
        0xbfc0_0000,
        0xfffe_0130,
    ];
    for &a in samples.iter() {
        assert_eq!(mask_region(mask_region(a)), mask_region(a));
    }
}

#[test]
fn kuseg_low_is_untouched() {
    assert_eq!(mask_region(0x0000_0000), 0x0000_0000);
    assert_eq!(mask_region(0x0000_1000), 0x0000_1000);
    assert_eq!(mask_region(0x001f_fffc), 0x001f_fffc);
}

#[test]
fn kseg0_mirrors_low_ram() {
    assert_eq!(mask_region(0x8000_0000), 0x0000_0000);
    assert_eq!(mask_region(0x8000_1000), 0x0000_1000);
    assert_eq!(mask_region(0x801f_fffc), 0x001f_fffc);
}

#[test]
fn kseg1_mirrors_low_ram() {
    assert_eq!(mask_region(0xa000_0000), 0x0000_0000);
    assert_eq!(mask_region(0xa000_1000), 0x0000_1000);
    assert_eq!(mask_region(0xa01f_fffc), 0x001f_fffc);
}

#[test]
fn kseg2_is_untouched() {
    assert_eq!(mask_region(0xfffe_0130), 0xfffe_0130);
    assert_eq!(mask_region(0xc000_0000), 0xc000_0000);
}

#[test]
fn all_three_mirrors_reach_the_same_ram_offset() {
    let ram = Range { base: 0x0000_0000, length: 0x0020_0000 };
    assert_eq!(ram.contains(mask_region(0x0000_0100)), Some(0x100));
    assert_eq!(ram.contains(mask_region(0x8000_0100)), Some(0x100));
    assert_eq!(ram.contains(mask_region(0xa000_0100)), Some(0x100));
}

#[test]
fn range_lookup_hits_bounds_exactly() {
    let r = Range { base: 0x100, length: 0x10 };
    assert_eq!(r.contains(0x100), Some(0));
    assert_eq!(r.contains(0x10f), Some(0xf));
    assert_eq!(r.contains(0x110), None);
    assert_eq!(r.contains(0xff), None);
}

#[test]
fn range_lookup_on_real_map_entries() {
    let bios = psx_bus::memmap::bios();
    assert_eq!(bios.contains(0x1fc0_0000), Some(0));
    assert_eq!(bios.contains(0x1fc7_ffff), Some(0x7_ffff));
    assert_eq!(bios.contains(0x1fc8_0000), None);
    let cc = psx_bus::memmap::cache_control();
    assert_eq!(cc.contains(0xfffe_0130), Some(0));
    assert_eq!(cc.contains(0xfffe_0133), Some(3));
    assert_eq!(cc.contains(0xfffe_0134), None);
    assert_eq!(cc.contains(0xfffe_012f), None);
}
