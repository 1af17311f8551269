//! Fatal bus conditions. These states are structurally unreachable under
//! correctly emulated software; reaching one is a modeling bug, and the
//! machine must halt rather than guess. The bus reports them as a typed
//! error propagated to the top-level dispatch boundary, where the caller
//! halts with a diagnostic.

use vstd::prelude::*;
use crate::access::AccessWidth;
use crate::dma::Port;

verus! {

/// An unrecoverable bus condition, carrying what a diagnostic needs.
#[derive(Clone, Copy, PartialEq, Eq, Structural, Debug)]
pub enum BusFault {
    /// A load at an address no listed range covers.
    UnmappedLoad { addr: u32 },
    /// A store at an address no listed range covers.
    UnmappedStore { addr: u32 },
    /// A non-word access to the cache control register.
    CacheControlWidth { width: AccessWidth },
    /// A non-word access to a DMA register.
    DmaRegisterWidth { width: AccessWidth },
    /// A DMA register offset that names no register.
    DmaRegisterOffset { offset: u32 },
    /// A channel control write with the reserved synchronization-mode bits.
    UnknownSyncMode { bits: u32 },
    /// A linked-list transfer configured towards RAM.
    LinkedListToRam { port: Port },
    /// A linked-list transfer on a port other than the video port.
    LinkedListPort { port: Port },
    /// A block transfer out of RAM towards a port with no intake.
    BlockDestinationPort { port: Port },
    /// A block transfer into RAM from a port that yields no data.
    BlockSourcePort { port: Port },
    /// A block transfer whose size registers determine no size.
    UnknownTransferSize { port: Port },
    /// A write of the wrong base address to an expansion mapping register.
    ExpansionBase { offset: u32, value: u32 },
}

} // verus!
