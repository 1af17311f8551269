//! Load and store dispatch: RAM and ROM bytes, peripheral stubs, fatal
//! unmapped and width-constrained accesses.

use psx_bus::access::AccessWidth;
use psx_bus::fault::BusFault;
use psx_bus::interconnect::Interconnect;
use psx_bus::storage::Bios;
use psx_bus::video::VideoPort;

fn fresh_bus() -> Interconnect {
    let bios = Bios::new(vec![0u8; 0x8_0000]).unwrap();
    Interconnect::new(bios, VideoPort::new())
}

#[test]
fn bios_image_must_be_exactly_rom_sized() {
    assert!(Bios::new(vec![0u8; 0x8_0000]).is_some());
    assert!(Bios::new(vec![0u8; 0x7_ffff]).is_none());
    assert!(Bios::new(Vec::new()).is_none());
}

#[test]
fn fresh_ram_reads_zero() {
    let bus = fresh_bus();
    assert_eq!(bus.load(AccessWidth::Word, 0x0000_0000), Ok(0));
    assert_eq!(bus.load(AccessWidth::Byte, 0x001f_ffff), Ok(0));
}

#[test]
fn ram_stores_little_endian() {
    let mut bus = fresh_bus();
    assert_eq!(bus.store(AccessWidth::Word, 0x100, 0x1234_5678), Ok(()));
    assert_eq!(bus.load(AccessWidth::Word, 0x100), Ok(0x1234_5678));
    assert_eq!(bus.load(AccessWidth::Byte, 0x100), Ok(0x78));
    assert_eq!(bus.load(AccessWidth::Byte, 0x101), Ok(0x56));
    assert_eq!(bus.load(AccessWidth::Byte, 0x102), Ok(0x34));
    assert_eq!(bus.load(AccessWidth::Byte, 0x103), Ok(0x12));
    assert_eq!(bus.load(AccessWidth::Halfword, 0x100), Ok(0x5678));
    assert_eq!(bus.load(AccessWidth::Halfword, 0x102), Ok(0x1234));
}

#[test]
fn narrow_stores_touch_only_their_bytes() {
    let mut bus = fresh_bus();
    assert_eq!(bus.store(AccessWidth::Word, 0x200, 0xffff_ffff), Ok(()));
    assert_eq!(bus.store(AccessWidth::Byte, 0x201, 0xab), Ok(()));
    assert_eq!(bus.load(AccessWidth::Word, 0x200), Ok(0xffff_abff));
    assert_eq!(bus.store(AccessWidth::Halfword, 0x202, 0x1234), Ok(()));
    assert_eq!(bus.load(AccessWidth::Word, 0x200), Ok(0x1234_abff));
}

#[test]
fn stores_narrow_the_value_to_the_width() {
    let mut bus = fresh_bus();
    // Only the low byte of an over-wide byte store reaches RAM
    assert_eq!(bus.store(AccessWidth::Byte, 0x300, 0xdead_beef), Ok(()));
    assert_eq!(bus.load(AccessWidth::Word, 0x300), Ok(0xef));
}

#[test]
fn the_three_mirrors_reach_the_same_ram() {
    let mut bus = fresh_bus();
    assert_eq!(bus.store(AccessWidth::Word, 0x8000_0100, 0xcafe_f00d), Ok(()));
    assert_eq!(bus.load(AccessWidth::Word, 0x0000_0100), Ok(0xcafe_f00d));
    assert_eq!(bus.load(AccessWidth::Word, 0xa000_0100), Ok(0xcafe_f00d));
}

#[test]
fn bios_reads_its_image() {
    let mut image = vec![0u8; 0x8_0000];
    image[0] = 0x13;
    image[1] = 0x00;
    image[2] = 0xe0;
    image[3] = 0x3c;
    image[0x7_ffff] = 0x5a;
    let bus = Interconnect::new(Bios::new(image).unwrap(), VideoPort::new());
    assert_eq!(bus.load(AccessWidth::Word, 0x1fc0_0000), Ok(0x3ce0_0013));
    assert_eq!(bus.load(AccessWidth::Byte, 0x1fc7_ffff), Ok(0x5a));
    // And through the KSEG1 mirror, where the boot vector points
    assert_eq!(bus.load(AccessWidth::Word, 0xbfc0_0000), Ok(0x3ce0_0013));
}

#[test]
fn stub_peripherals_read_zero() {
    let bus = fresh_bus();
    assert_eq!(bus.load(AccessWidth::Word, 0x1f80_1070), Ok(0));  // IRQ control
    assert_eq!(bus.load(AccessWidth::Word, 0x1f80_1100), Ok(0));  // timers
    assert_eq!(bus.load(AccessWidth::Halfword, 0x1f80_1c00), Ok(0));  // SPU
    assert_eq!(bus.load(AccessWidth::Word, 0x1f80_1810), Ok(0));  // video window
}

#[test]
fn expansion_1_reads_all_ones_at_every_width() {
    let bus = fresh_bus();
    assert_eq!(bus.load(AccessWidth::Word, 0x1f00_0000), Ok(0xffff_ffff));
    assert_eq!(bus.load(AccessWidth::Halfword, 0x1f00_0084), Ok(0xffff));
    assert_eq!(bus.load(AccessWidth::Byte, 0x1f07_ffff), Ok(0xff));
}

#[test]
fn stub_peripherals_swallow_stores() {
    let mut bus = fresh_bus();
    assert_eq!(bus.store(AccessWidth::Word, 0x1f80_1070, 0xffff_ffff), Ok(()));  // IRQ
    assert_eq!(bus.store(AccessWidth::Halfword, 0x1f80_1100, 0x1234), Ok(()));  // timers
    assert_eq!(bus.store(AccessWidth::Halfword, 0x1f80_1c00, 0xaaaa), Ok(()));  // SPU
    assert_eq!(bus.store(AccessWidth::Word, 0x1f80_1060, 0x0000_0b88), Ok(()));  // RAM size
    assert_eq!(bus.store(AccessWidth::Byte, 0x1f80_2041, 0x42), Ok(()));  // expansion 2
}

#[test]
fn unmapped_loads_are_fatal_in_every_gap() {
    let bus = fresh_bus();
    for &addr in [
        0x0020_0000u32,  // just past RAM
        0x1f10_0000,     // past expansion 1, before the ROM
        0x1fc8_0000,     // just past the ROM
        0x1f80_1000,     // memory control is not a readable range
        0x1f80_1060,     // neither is the RAM-size register
        0x1f80_2000,     // nor expansion 2
        0x1f80_1130,     // just past the timers
        0xfffe_0130,     // cache control is write-only for the bus
        0xc000_0000,     // deep KSEG2
    ]
    .iter()
    {
        assert_eq!(bus.load(AccessWidth::Word, addr), Err(BusFault::UnmappedLoad { addr }));
    }
}

#[test]
fn unmapped_stores_are_fatal_in_every_gap() {
    let mut bus = fresh_bus();
    for &addr in [
        0x0020_0000u32,  // just past RAM
        0x1f00_0000,     // expansion 1 takes no stores
        0x1fc0_0000,     // the ROM takes no stores
        0x1f80_1130,     // just past the timers
        0xfffe_0134,     // just past cache control
        0xc000_0000,     // deep KSEG2
    ]
    .iter()
    {
        assert_eq!(
            bus.store(AccessWidth::Word, addr, 0),
            Err(BusFault::UnmappedStore { addr })
        );
    }
}

#[test]
fn cache_control_takes_word_stores_only() {
    let mut bus = fresh_bus();
    assert_eq!(
        bus.store(AccessWidth::Byte, 0xfffe_0130, 0x04),
        Err(BusFault::CacheControlWidth { width: AccessWidth::Byte })
    );
    assert_eq!(
        bus.store(AccessWidth::Halfword, 0xfffe_0130, 0x804),
        Err(BusFault::CacheControlWidth { width: AccessWidth::Halfword })
    );
    assert_eq!(bus.store(AccessWidth::Word, 0xfffe_0130, 0x804), Ok(()));
}

#[test]
fn cache_control_word_store_updates_both_flags() {
    let mut bus = fresh_bus();
    assert!(!bus.cache_control().icache_enabled());
    assert!(!bus.cache_control().tag_test_mode());
    assert_eq!(bus.store(AccessWidth::Word, 0xfffe_0130, 0x804), Ok(()));
    assert!(bus.cache_control().icache_enabled());
    assert!(bus.cache_control().tag_test_mode());
    assert_eq!(bus.store(AccessWidth::Word, 0xfffe_0130, 0x800), Ok(()));
    assert!(bus.cache_control().icache_enabled());
    assert!(!bus.cache_control().tag_test_mode());
    assert_eq!(bus.store(AccessWidth::Word, 0xfffe_0130, 0x004), Ok(()));
    assert!(!bus.cache_control().icache_enabled());
    assert!(bus.cache_control().tag_test_mode());
}

#[test]
fn memory_control_accepts_only_the_fixed_expansion_bases() {
    let mut bus = fresh_bus();
    assert_eq!(bus.store(AccessWidth::Word, 0x1f80_1000, 0x1f00_0000), Ok(()));
    assert_eq!(bus.store(AccessWidth::Word, 0x1f80_1004, 0x1f80_2000), Ok(()));
    assert_eq!(
        bus.store(AccessWidth::Word, 0x1f80_1000, 0xdead_beef),
        Err(BusFault::ExpansionBase { offset: 0, value: 0xdead_beef })
    );
    assert_eq!(
        bus.store(AccessWidth::Word, 0x1f80_1004, 0x1f00_0000),
        Err(BusFault::ExpansionBase { offset: 4, value: 0x1f00_0000 })
    );
    // Other memory-control registers swallow anything
    assert_eq!(bus.store(AccessWidth::Word, 0x1f80_1008, 0x0013_243f), Ok(()));
}

#[test]
fn video_window_narrows_stored_values() {
    let mut bus = fresh_bus();
    // A byte-wide store hands the port only the low byte
    assert_eq!(bus.store(AccessWidth::Byte, 0x1f80_1810, 0x1ff), Ok(()));
    assert_eq!(bus.video.intake, vec![0xff]);
    // The window stays a read stub whatever was stored
    assert_eq!(bus.load(AccessWidth::Word, 0x1f80_1810), Ok(0));
}

#[test]
fn video_window_stores_reach_the_port() {
    let mut bus = fresh_bus();
    assert_eq!(bus.store(AccessWidth::Word, 0x1f80_1810, 0x2800_0000), Ok(()));
    assert_eq!(bus.store(AccessWidth::Word, 0x1f80_1810, 0x0000_00ff), Ok(()));
    assert_eq!(bus.video.intake, vec![0x2800_0000, 0x0000_00ff]);
    assert_eq!(bus.store(AccessWidth::Word, 0x1f80_1814, 0x0800_0001), Ok(()));
    assert_eq!(bus.video.control, 0x0800_0001);
    assert_eq!(bus.video.intake.len(), 2);
}
