//! The three access widths the bus supports. Every load and store moves one
//! byte, one halfword or one word; a value of a narrower width travels on the
//! bus zero-extended to 32 bits, so narrowing keeps the low bits and widening
//! is the identity on in-range values.

use vstd::prelude::*;

verus! {

/// Width of a single bus access.
#[derive(Clone, Copy, PartialEq, Eq, Structural, Debug)]
pub enum AccessWidth {
    Byte,
    Halfword,
    Word,
}

impl AccessWidth {
    /// Number of bytes an access of this width moves.
    pub open spec fn spec_bytes(self) -> u32 {
        match self {
            AccessWidth::Byte => 1,
            AccessWidth::Halfword => 2,
            AccessWidth::Word => 4,
        }
    }

    /// Mask keeping exactly the bits a value of this width carries.
    pub open spec fn spec_mask(self) -> u32 {
        match self {
            AccessWidth::Byte => 0xff,
            AccessWidth::Halfword => 0xffff,
            AccessWidth::Word => 0xffff_ffff,
        }
    }

    pub fn bytes(self) -> (r: u32)
        ensures
            r == self.spec_bytes(),
    {
        match self {
            AccessWidth::Byte => 1,
            AccessWidth::Halfword => 2,
            AccessWidth::Word => 4,
        }
    }

    /// Narrow a raw 32-bit bus value to this width: the low bits are kept and
    /// the high bits are discarded.
    pub fn from_u32(self, v: u32) -> (r: u32)
        ensures
            r == (v & self.spec_mask()),
    {
        match self {
            AccessWidth::Byte => v & 0xff,
            AccessWidth::Halfword => v & 0xffff,
            AccessWidth::Word => v & 0xffff_ffff,
        }
    }

    /// Widen a value of this width back to 32 bits, zero-extended. A value
    /// already in range comes back unchanged.
    pub fn as_u32(self, v: u32) -> (r: u32)
        ensures
            r == (v & self.spec_mask()),
    {
        match self {
            AccessWidth::Byte => v & 0xff,
            AccessWidth::Halfword => v & 0xffff,
            AccessWidth::Word => v & 0xffff_ffff,
        }
    }
}

/// Masking to a width twice is the same as masking once.
proof fn lemma_mask_idempotent(v: u32)
    by (bit_vector)
    ensures
        (v & 0xffu32) & 0xff == v & 0xffu32,
        (v & 0xffffu32) & 0xffff == v & 0xffffu32,
        (v & 0xffff_ffffu32) & 0xffff_ffff == v & 0xffff_ffffu32,
{
}

/// Narrowing after widening returns any in-range value unchanged: for every
/// width, `from_u32(as_u32(x)) == x` whenever `x` carries no bits beyond the
/// width.
pub proof fn lemma_narrow_of_widen(w: AccessWidth, x: u32)
    requires
        x & w.spec_mask() == x,
    ensures
        (x & w.spec_mask()) & w.spec_mask() == x,
{
    lemma_mask_idempotent(x);
}

/// Widening after narrowing keeps exactly the in-width bits: for every width,
/// `as_u32(from_u32(v)) == v & mask` for an arbitrary 32-bit `v`.
pub proof fn lemma_widen_of_narrow(w: AccessWidth, v: u32)
    ensures
        (v & w.spec_mask()) & w.spec_mask() == v & w.spec_mask(),
{
    lemma_mask_idempotent(v);
}

} // verus!
