//! The cache control register: a single 32-bit word in KSEG2, written only by
//! word-width stores, exposing two derived flags.

use vstd::prelude::*;

verus! {

/// Cache control register value.
#[derive(Clone, Copy, PartialEq, Eq, Structural, Debug)]
pub struct CacheControl(pub u32);

impl CacheControl {
    pub open spec fn spec_icache_enabled(self) -> bool {
        self.0 & 0x800 != 0
    }

    pub open spec fn spec_tag_test_mode(self) -> bool {
        self.0 & 4 != 0
    }

    /// Return true if the instruction cache is enabled.
    pub fn icache_enabled(self) -> (r: bool)
        ensures
            r == self.spec_icache_enabled(),
    {
        self.0 & 0x800 != 0
    }

    /// Return true if the cache is in tag-test mode.
    pub fn tag_test_mode(self) -> (r: bool)
        ensures
            r == self.spec_tag_test_mode(),
    {
        self.0 & 4 != 0
    }
}

} // verus!
