//! Shared bit-level facts about the masks the bus and the transfer engine
//! apply to addresses and register words.

use vstd::prelude::*;

verus! {

/// Masking an address into the word-aligned RAM window keeps it below the
/// RAM size and word-aligned.
pub proof fn lemma_ram_window(a: u32)
    by (bit_vector)
    ensures
        a & 0x1f_fffc <= 0x1f_fffc,
        (a & 0x1f_fffc) % 4 == 0,
{
}

/// Masking into the RAM window is reduction modulo the window size, and for
/// word-aligned addresses the word-aligned window mask agrees with it.
pub proof fn lemma_window_mask_is_mod(a: u32)
    by (bit_vector)
    ensures
        a & 0x1f_ffff == a % 0x20_0000,
        a % 4 == 0 ==> a & 0x1f_fffc == a % 0x20_0000,
{
}

/// Reassembling the four little-endian bytes of a word gives the word back.
pub proof fn lemma_word_bytes_roundtrip(v: u32)
    by (bit_vector)
    ensures
        ((v as u8) as u32) | (((v >> 8) as u8) as u32) << 8 | (((v >> 16) as u8) as u32) << 16
            | (((v >> 24) as u8) as u32) << 24 == v,
{
}

/// Masking a word to its own width changes nothing.
pub proof fn lemma_word_mask_identity(v: u32)
    by (bit_vector)
    ensures
        v & 0xffff_ffff == v,
{
}

/// The cache control address sits in KSEG2, which the region mask leaves
/// untouched.
pub proof fn lemma_cache_control_addr()
    by (bit_vector)
    ensures
        0xfffe_0130u32 >> 29 == 7,
        0xfffe_0130u32 & 0xffff_ffff == 0xfffe_0130u32,
{
}

/// The major index of a DMA register offset fits the seven channels plus the
/// controller-wide slot.
pub proof fn lemma_dma_reg_split(offset: u32)
    by (bit_vector)
    ensures
        (offset & 0x70) >> 4 <= 7,
        offset & 0xf <= 0xf,
{
}

/// Clearing the enable and trigger bits of a channel control word keeps its
/// synchronization-mode bits.
pub proof fn lemma_done_keeps_sync(c: u32)
    by (bit_vector)
    ensures
        ((c & 0xeeff_ffff) >> 9) & 3 == (c >> 9) & 3,
        ((c & 0xeeff_ffff) >> 24) & 1 == 0,
        ((c & 0xeeff_ffff) >> 28) & 1 == 0,
{
}

} // verus!
