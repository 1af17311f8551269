//! The physical address map: a region-aliasing mask applied to every incoming
//! bus address, and the named address ranges that dispatch consults in a fixed
//! priority order.

use vstd::prelude::*;

verus! {

/// Main RAM size in bytes.
pub const RAM_LEN: u32 = 0x0020_0000;

/// Boot ROM size in bytes.
pub const BIOS_LEN: u32 = 0x0008_0000;

/// A named physical address range: `base` and `length` in bytes.
#[derive(Clone, Copy, PartialEq, Eq, Structural, Debug)]
pub struct Range {
    pub base: u32,
    pub length: u32,
}

impl Range {
    /// The zero-based offset of `addr` within the range, when
    /// `base <= addr < base + length`.
    pub open spec fn spec_contains(self, addr: u32) -> Option<u32> {
        if self.base <= addr && addr < self.base + self.length {
            Some((addr - self.base) as u32)
        } else {
            None
        }
    }

    /// Return `Some(offset)` if `addr` is contained in `self`.
    pub fn contains(self, addr: u32) -> (r: Option<u32>)
        ensures
            r == self.spec_contains(addr),
    {
        if addr >= self.base && addr - self.base < self.length {
            Some(addr - self.base)
        } else {
            None
        }
    }
}

/// Mask table entry for the region holding `addr`, selected by the three top
/// address bits, so each entry covers 512MB of the address space. KUSEG maps
/// physical memory directly, KSEG0 and KSEG1 are 512MB windows over the same
/// memory with the cache-attribute bits stripped, and KSEG2 is left untouched
/// since it shares nothing with the other regions.
pub open spec fn spec_region_mask(addr: u32) -> u32 {
    if addr >> 29 == 4 {
        0x7fff_ffff
    } else if addr >> 29 == 5 {
        0x1fff_ffff
    } else {
        0xffff_ffff
    }
}

/// The address with the region bits stripped.
pub open spec fn spec_mask_region(addr: u32) -> u32 {
    addr & spec_region_mask(addr)
}

/// Mask a CPU address to remove the region bits. Applied to every incoming
/// bus address before range lookup.
pub fn mask_region(addr: u32) -> (r: u32)
    ensures
        r == spec_mask_region(addr),
{
    // Index the mask table in 512MB chunks
    let mask: u32 = match addr >> 29 {
        0 | 1 | 2 | 3 => 0xffff_ffff,  // KUSEG: 2048MB
        4 => 0x7fff_ffff,              // KSEG0:  512MB
        5 => 0x1fff_ffff,              // KSEG1:  512MB
        _ => 0xffff_ffff,              // KSEG2: 1024MB
    };
    addr & mask
}

pub open spec fn spec_ram() -> Range {
    Range { base: 0x0000_0000, length: RAM_LEN }
}

/// Main RAM.
pub fn ram() -> (r: Range)
    ensures
        r == spec_ram(),
{
    Range { base: 0x0000_0000, length: RAM_LEN }
}

pub open spec fn spec_expansion_1() -> Range {
    Range { base: 0x1f00_0000, length: 0x0008_0000 }
}

/// Expansion region 1.
pub fn expansion_1() -> (r: Range)
    ensures
        r == spec_expansion_1(),
{
    Range { base: 0x1f00_0000, length: 0x0008_0000 }
}

pub open spec fn spec_bios() -> Range {
    Range { base: 0x1fc0_0000, length: BIOS_LEN }
}

/// Boot ROM.
pub fn bios() -> (r: Range)
    ensures
        r == spec_bios(),
{
    Range { base: 0x1fc0_0000, length: BIOS_LEN }
}

pub open spec fn spec_mem_control() -> Range {
    Range { base: 0x1f80_1000, length: 36 }
}

/// Memory latency and expansion mapping registers.
pub fn mem_control() -> (r: Range)
    ensures
        r == spec_mem_control(),
{
    Range { base: 0x1f80_1000, length: 36 }
}

pub open spec fn spec_ram_size() -> Range {
    Range { base: 0x1f80_1060, length: 4 }
}

/// Register that configures the RAM size, programmed by the boot ROM.
pub fn ram_size() -> (r: Range)
    ensures
        r == spec_ram_size(),
{
    Range { base: 0x1f80_1060, length: 4 }
}

pub open spec fn spec_irq_control() -> Range {
    Range { base: 0x1f80_1070, length: 8 }
}

/// Interrupt control registers (status and mask).
pub fn irq_control() -> (r: Range)
    ensures
        r == spec_irq_control(),
{
    Range { base: 0x1f80_1070, length: 8 }
}

pub open spec fn spec_dma() -> Range {
    Range { base: 0x1f80_1080, length: 0x80 }
}

/// Direct Memory Access registers.
pub fn dma() -> (r: Range)
    ensures
        r == spec_dma(),
{
    Range { base: 0x1f80_1080, length: 0x80 }
}

pub open spec fn spec_timers() -> Range {
    Range { base: 0x1f80_1100, length: 0x30 }
}

/// Timer registers.
pub fn timers() -> (r: Range)
    ensures
        r == spec_timers(),
{
    Range { base: 0x1f80_1100, length: 0x30 }
}

pub open spec fn spec_gpu() -> Range {
    Range { base: 0x1f80_1810, length: 8 }
}

/// Video-port register window.
pub fn gpu() -> (r: Range)
    ensures
        r == spec_gpu(),
{
    Range { base: 0x1f80_1810, length: 8 }
}

pub open spec fn spec_spu() -> Range {
    Range { base: 0x1f80_1c00, length: 640 }
}

/// Sound processor registers.
pub fn spu() -> (r: Range)
    ensures
        r == spec_spu(),
{
    Range { base: 0x1f80_1c00, length: 640 }
}

pub open spec fn spec_expansion_2() -> Range {
    Range { base: 0x1f80_2000, length: 66 }
}

/// Expansion region 2.
pub fn expansion_2() -> (r: Range)
    ensures
        r == spec_expansion_2(),
{
    Range { base: 0x1f80_2000, length: 66 }
}

pub open spec fn spec_cache_control() -> Range {
    Range { base: 0xfffe_0130, length: 4 }
}

/// Cache control register. Full address since it sits in KSEG2.
pub fn cache_control() -> (r: Range)
    ensures
        r == spec_cache_control(),
{
    Range { base: 0xfffe_0130, length: 4 }
}

/// Region masking is idempotent: stripping the region bits of an already
/// stripped address changes nothing, for every address.
pub proof fn lemma_mask_region_idempotent(addr: u32)
    ensures
        spec_mask_region(spec_mask_region(addr)) == spec_mask_region(addr),
{
    assert(spec_mask_region(spec_mask_region(addr)) == spec_mask_region(addr)) by (bit_vector);
}

/// Low KUSEG addresses are untouched by the region mask and land in main RAM
/// at their own offset.
pub proof fn lemma_kuseg_low_identity(addr: u32)
    requires
        addr < 0x0020_0000,
    ensures
        spec_mask_region(addr) == addr,
        spec_ram().spec_contains(spec_mask_region(addr)) == Some(addr),
{
    assert(spec_mask_region(addr) == addr) by (bit_vector)
        requires
            addr < 0x0020_0000u32,
    ;
}

/// The KSEG0 mirror of low RAM resolves to the same RAM offsets: masking
/// subtracts the KSEG0 base.
pub proof fn lemma_kseg0_mirror(addr: u32)
    requires
        0x8000_0000 <= addr < 0x8020_0000,
    ensures
        spec_mask_region(addr) == addr - 0x8000_0000,
        spec_ram().spec_contains(spec_mask_region(addr)) == Some((addr - 0x8000_0000) as u32),
{
    assert(spec_mask_region(addr) == addr - 0x8000_0000) by (bit_vector)
        requires
            0x8000_0000u32 <= addr < 0x8020_0000u32,
    ;
}

/// The KSEG1 mirror of low RAM resolves to the same RAM offsets: masking
/// subtracts the KSEG1 base.
pub proof fn lemma_kseg1_mirror(addr: u32)
    requires
        0xa000_0000 <= addr < 0xa020_0000,
    ensures
        spec_mask_region(addr) == addr - 0xa000_0000,
        spec_ram().spec_contains(spec_mask_region(addr)) == Some((addr - 0xa000_0000) as u32),
{
    assert(spec_mask_region(addr) == addr - 0xa000_0000) by (bit_vector)
        requires
            0xa000_0000u32 <= addr < 0xa020_0000u32,
    ;
}

/// Range lookup finds exactly the addresses from `base` to `base + length - 1`
/// and maps each to its zero-based offset; the addresses just outside the
/// range on either side are rejected.
pub proof fn lemma_range_lookup(r: Range)
    requires
        0 < r.length,
        r.base + r.length <= u32::MAX,
    ensures
        r.spec_contains(r.base) == Some(0u32),
        r.spec_contains((r.base + r.length - 1) as u32) == Some((r.length - 1) as u32),
        r.spec_contains((r.base + r.length) as u32) == None::<u32>,
        r.base > 0 ==> r.spec_contains((r.base - 1) as u32) == None::<u32>,
{
}

} // verus!
