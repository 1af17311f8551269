//! Byte-addressable storage backends: main RAM and the boot ROM. Both are
//! little-endian byte arrays of fixed capacity, read and written one access
//! width at a time.

use vstd::prelude::*;
use vstd::pervasive::VecAdditionalExecFns;
use crate::access::AccessWidth;
use crate::memmap::{RAM_LEN, BIOS_LEN};

verus! {

/// The value an access of width `width` reads from `bytes` at `offset`,
/// assembled little-endian and zero-extended to 32 bits.
pub open spec fn le_read(bytes: Seq<u8>, offset: int, width: AccessWidth) -> u32
    recommends
        0 <= offset,
        offset + width.spec_bytes() <= bytes.len(),
{
    match width {
        AccessWidth::Byte => bytes[offset] as u32,
        AccessWidth::Halfword => (bytes[offset] as u32) | (bytes[offset + 1] as u32) << 8,
        AccessWidth::Word => (bytes[offset] as u32) | (bytes[offset + 1] as u32) << 8
            | (bytes[offset + 2] as u32) << 16 | (bytes[offset + 3] as u32) << 24,
    }
}

/// `bytes` after an access of width `width` stores the low bytes of `v` at
/// `offset`, little-endian.
pub open spec fn le_write(bytes: Seq<u8>, offset: int, width: AccessWidth, v: u32) -> Seq<u8>
    recommends
        0 <= offset,
        offset + width.spec_bytes() <= bytes.len(),
{
    match width {
        AccessWidth::Byte => bytes.update(offset, v as u8),
        AccessWidth::Halfword => bytes.update(offset, v as u8).update(offset + 1, (v >> 8) as u8),
        AccessWidth::Word => bytes.update(offset, v as u8).update(offset + 1, (v >> 8) as u8)
            .update(offset + 2, (v >> 16) as u8).update(offset + 3, (v >> 24) as u8),
    }
}

/// A write never changes the number of bytes stored.
pub proof fn lemma_le_write_len(bytes: Seq<u8>, offset: int, width: AccessWidth, v: u32)
    requires
        0 <= offset,
        offset + width.spec_bytes() <= bytes.len(),
    ensures
        le_write(bytes, offset, width, v).len() == bytes.len(),
{
}

/// Main RAM: a fixed-capacity little-endian byte store.
pub struct Ram {
    pub data: Vec<u8>,
}

impl View for Ram {
    type V = Seq<u8>;

    open spec fn view(&self) -> Seq<u8> {
        self.data@
    }
}

impl Ram {
    pub open spec fn wf(&self) -> bool {
        self.data@.len() == RAM_LEN
    }

    /// Fresh RAM, zero-filled.
    pub fn new() -> (r: Ram)
        ensures
            r.wf(),
            forall|i: int| 0 <= i < RAM_LEN ==> r@[i] == 0u8,
    {
        let mut data: Vec<u8> = Vec::new();
        while data.len() < RAM_LEN as usize
            invariant
                data@.len() <= RAM_LEN,
                forall|i: int| 0 <= i < data@.len() ==> data@[i] == 0u8,
            decreases RAM_LEN - data.len(),
        {
            data.push(0);
        }
        Ram { data }
    }

    /// Load the value of width `width` at `offset`.
    pub fn load(&self, width: AccessWidth, offset: u32) -> (r: u32)
        requires
            self.wf(),
            offset + width.spec_bytes() <= RAM_LEN,
        ensures
            r == le_read(self@, offset as int, width),
    {
        let o = offset as usize;
        match width {
            AccessWidth::Byte => self.data[o] as u32,
            AccessWidth::Halfword => (self.data[o] as u32) | (self.data[o + 1] as u32) << 8,
            AccessWidth::Word => (self.data[o] as u32) | (self.data[o + 1] as u32) << 8
                | (self.data[o + 2] as u32) << 16 | (self.data[o + 3] as u32) << 24,
        }
    }

    /// Store the low bytes of `v` at `offset`, one byte per width step.
    pub fn store(&mut self, width: AccessWidth, offset: u32, v: u32)
        requires
            old(self).wf(),
            offset + width.spec_bytes() <= RAM_LEN,
        ensures
            final(self).wf(),
            final(self)@ == le_write(old(self)@, offset as int, width, v),
    {
        let o = offset as usize;
        match width {
            AccessWidth::Byte => {
                self.data.set(o, #[verifier::truncate] (v as u8));
            }
            AccessWidth::Halfword => {
                self.data.set(o, #[verifier::truncate] (v as u8));
                self.data.set(o + 1, #[verifier::truncate] ((v >> 8) as u8));
            }
            AccessWidth::Word => {
                self.data.set(o, #[verifier::truncate] (v as u8));
                self.data.set(o + 1, #[verifier::truncate] ((v >> 8) as u8));
                self.data.set(o + 2, #[verifier::truncate] ((v >> 16) as u8));
                self.data.set(o + 3, #[verifier::truncate] ((v >> 24) as u8));
            }
        }
    }
}

/// Boot ROM image: a fixed-capacity read-only little-endian byte store.
pub struct Bios {
    pub data: Vec<u8>,
}

impl View for Bios {
    type V = Seq<u8>;

    open spec fn view(&self) -> Seq<u8> {
        self.data@
    }
}

impl Bios {
    pub open spec fn wf(&self) -> bool {
        self.data@.len() == BIOS_LEN
    }

    /// Wrap a ROM image; rejected unless it is exactly the ROM size.
    pub fn new(data: Vec<u8>) -> (r: Option<Bios>)
        ensures
            match r {
                Some(b) => data@.len() == BIOS_LEN && b@ == data@ && b.wf(),
                None => data@.len() != BIOS_LEN,
            },
    {
        if data.len() == BIOS_LEN as usize {
            Some(Bios { data })
        } else {
            None
        }
    }

    /// Load the value of width `width` at `offset`.
    pub fn load(&self, width: AccessWidth, offset: u32) -> (r: u32)
        requires
            self.wf(),
            offset + width.spec_bytes() <= BIOS_LEN,
        ensures
            r == le_read(self@, offset as int, width),
    {
        let o = offset as usize;
        match width {
            AccessWidth::Byte => self.data[o] as u32,
            AccessWidth::Halfword => (self.data[o] as u32) | (self.data[o + 1] as u32) << 8,
            AccessWidth::Word => (self.data[o] as u32) | (self.data[o + 1] as u32) << 8
                | (self.data[o + 2] as u32) << 16 | (self.data[o + 3] as u32) << 24,
        }
    }
}

} // verus!
