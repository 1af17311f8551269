//! The DMA controller register model: seven per-port channels, each holding a
//! base address, block-size registers and a raw control word with derived
//! direction, step, synchronization mode and activity, plus the two
//! controller-wide registers.

use vstd::prelude::*;
use vstd::pervasive::VecAdditionalExecFns;
use crate::fault::BusFault;

verus! {

/// Reset value of the controller-wide control register (priority
/// configuration; stored and returned, not interpreted).
pub const DMA_CONTROL_RESET: u32 = 0x0765_4321;

/// The seven DMA ports, in register order.
#[derive(Clone, Copy, PartialEq, Eq, Structural, Debug)]
pub enum Port {
    /// Macroblock decoder input
    MdecIn,
    /// Macroblock decoder output
    MdecOut,
    /// Graphics processing unit
    Gpu,
    /// CD-ROM drive
    CdRom,
    /// Sound processing unit
    Spu,
    /// Extension port
    Pio,
    /// Used to clear the ordering table
    Otc,
}

impl Port {
    pub open spec fn spec_index(self) -> int {
        match self {
            Port::MdecIn => 0,
            Port::MdecOut => 1,
            Port::Gpu => 2,
            Port::CdRom => 3,
            Port::Spu => 4,
            Port::Pio => 5,
            Port::Otc => 6,
        }
    }

    pub fn index(self) -> (r: usize)
        ensures
            r == self.spec_index(),
    {
        match self {
            Port::MdecIn => 0,
            Port::MdecOut => 1,
            Port::Gpu => 2,
            Port::CdRom => 3,
            Port::Spu => 4,
            Port::Pio => 5,
            Port::Otc => 6,
        }
    }

    pub open spec fn spec_from_index(index: u32) -> Port {
        if index == 0 {
            Port::MdecIn
        } else if index == 1 {
            Port::MdecOut
        } else if index == 2 {
            Port::Gpu
        } else if index == 3 {
            Port::CdRom
        } else if index == 4 {
            Port::Spu
        } else if index == 5 {
            Port::Pio
        } else {
            Port::Otc
        }
    }

    /// The port whose channel registers sit at major register index `index`.
    pub fn from_index(index: u32) -> (r: Port)
        requires
            index < 7,
        ensures
            r == Port::spec_from_index(index),
            r.spec_index() == index,
    {
        match index {
            0 => Port::MdecIn,
            1 => Port::MdecOut,
            2 => Port::Gpu,
            3 => Port::CdRom,
            4 => Port::Spu,
            5 => Port::Pio,
            _ => Port::Otc,
        }
    }
}

/// Direction of a transfer, from the channel control word bit 0.
#[derive(Clone, Copy, PartialEq, Eq, Structural, Debug)]
pub enum Direction {
    ToRam,
    FromRam,
}

/// Per-word address step of a transfer, from the channel control word bit 1.
#[derive(Clone, Copy, PartialEq, Eq, Structural, Debug)]
pub enum Step {
    Increment,
    Decrement,
}

/// Synchronization mode of a transfer, from the channel control word
/// bits 9 and 10.
#[derive(Clone, Copy, PartialEq, Eq, Structural, Debug)]
pub enum SyncMode {
    /// Transfer starts when the CPU writes the trigger bit, runs at once.
    Manual,
    /// Transfer of blocks at the pace of peripheral requests.
    Request,
    /// Transfer walks a linked list of packets in RAM.
    LinkedList,
}

/// One DMA channel: base address, block-size registers, and the raw control
/// word. The derived fields below are read out of the raw bits on use.
#[derive(Clone, Copy, PartialEq, Eq, Structural, Debug)]
pub struct Channel {
    /// Transfer start address in RAM, masked to the RAM window on use.
    pub base: u32,
    /// Size in words of a block (low half of the block control register).
    pub block_size: u16,
    /// Number of blocks (high half of the block control register).
    pub block_count: u16,
    /// Raw control word.
    pub control: u32,
}

impl Channel {
    /// The reserved synchronization-mode encoding is never stored.
    pub open spec fn wf(self) -> bool {
        (self.control >> 9) & 3 != 3
    }

    pub open spec fn spec_reset() -> Channel {
        Channel { base: 0, block_size: 0, block_count: 0, control: 0 }
    }

    pub open spec fn spec_direction(self) -> Direction {
        if self.control & 1 != 0 {
            Direction::FromRam
        } else {
            Direction::ToRam
        }
    }

    pub open spec fn spec_step(self) -> Step {
        if (self.control >> 1) & 1 != 0 {
            Step::Decrement
        } else {
            Step::Increment
        }
    }

    pub open spec fn spec_sync(self) -> SyncMode {
        if (self.control >> 9) & 3 == 1 {
            SyncMode::Request
        } else if (self.control >> 9) & 3 == 2 {
            SyncMode::LinkedList
        } else {
            SyncMode::Manual
        }
    }

    pub open spec fn spec_trigger(self) -> bool {
        (self.control >> 28) & 1 != 0
    }

    pub open spec fn spec_enable(self) -> bool {
        (self.control >> 24) & 1 != 0
    }

    /// A channel is active exactly when it is enabled and, in manual mode,
    /// also triggered; in request and linked-list mode enabling suffices.
    pub open spec fn spec_active(self) -> bool {
        self.spec_enable() && match self.spec_sync() {
            SyncMode::Manual => self.spec_trigger(),
            _ => true,
        }
    }

    /// The block control register value: block count in the high half, block
    /// size in the low half.
    pub open spec fn spec_block_control(self) -> u32 {
        (self.block_count as u32) << 16 | (self.block_size as u32)
    }

    /// Words to move: the block size alone in manual mode, size times count
    /// in request mode; undefined in linked-list mode, where the transfer is
    /// list-driven.
    pub open spec fn spec_transfer_size(self) -> Option<u32> {
        match self.spec_sync() {
            SyncMode::Manual => Some(self.block_size as u32),
            SyncMode::Request => Some(((self.block_size as int) * (self.block_count as int)) as u32),
            SyncMode::LinkedList => None,
        }
    }

    /// The channel after a completed transfer: the enable and trigger bits
    /// are cleared, everything else is kept.
    pub open spec fn spec_done(self) -> Channel {
        Channel { control: self.control & 0xeeff_ffff, ..self }
    }

    /// Fresh channel with all-zero registers.
    pub fn new() -> (r: Channel)
        ensures
            r == Channel::spec_reset(),
    {
        Channel { base: 0, block_size: 0, block_count: 0, control: 0 }
    }

    pub fn base(self) -> (r: u32)
        ensures
            r == self.base,
    {
        self.base
    }

    /// Set the transfer start address.
    pub fn set_base(&mut self, val: u32)
        ensures
            *final(self) == (Channel { base: val, ..*old(self) }),
    {
        self.base = val;
    }

    pub fn block_control(self) -> (r: u32)
        ensures
            r == self.spec_block_control(),
    {
        (self.block_count as u32) << 16 | (self.block_size as u32)
    }

    /// Set block size (low half) and block count (high half) at once.
    pub fn set_block_control(&mut self, val: u32)
        ensures
            *final(self) == (Channel {
                block_size: (val & 0xffff) as u16,
                block_count: (val >> 16) as u16,
                ..*old(self)
            }),
    {
        self.block_size = #[verifier::truncate] ((val & 0xffff) as u16);
        self.block_count = #[verifier::truncate] ((val >> 16) as u16);
    }

    pub fn control(self) -> (r: u32)
        ensures
            r == self.control,
    {
        self.control
    }

    /// Set the raw control word. The reserved synchronization-mode encoding
    /// is fatal and leaves the channel unchanged.
    pub fn set_control(&mut self, val: u32) -> (r: Result<(), BusFault>)
        ensures
            (val >> 9) & 3 == 3 ==> r == Err::<(), BusFault>(
                BusFault::UnknownSyncMode { bits: (val >> 9) & 3 },
            ) && *final(self) == *old(self),
            (val >> 9) & 3 != 3 ==> r == Ok::<(), BusFault>(())
                && *final(self) == (Channel { control: val, ..*old(self) }),
    {
        let bits: u32 = (val >> 9) & 3;
        if bits == 3 {
            Err(BusFault::UnknownSyncMode { bits })
        } else {
            self.control = val;
            Ok(())
        }
    }

    pub fn direction(self) -> (r: Direction)
        ensures
            r == self.spec_direction(),
    {
        if self.control & 1 != 0 {
            Direction::FromRam
        } else {
            Direction::ToRam
        }
    }

    pub fn step(self) -> (r: Step)
        ensures
            r == self.spec_step(),
    {
        if (self.control >> 1) & 1 != 0 {
            Step::Decrement
        } else {
            Step::Increment
        }
    }

    pub fn sync(self) -> (r: SyncMode)
        ensures
            r == self.spec_sync(),
    {
        let bits: u32 = (self.control >> 9) & 3;
        if bits == 1 {
            SyncMode::Request
        } else if bits == 2 {
            SyncMode::LinkedList
        } else {
            SyncMode::Manual
        }
    }

    pub fn active(self) -> (r: bool)
        ensures
            r == self.spec_active(),
    {
        let enable: bool = (self.control >> 24) & 1 != 0;
        let trigger: bool = match self.sync() {
            SyncMode::Manual => (self.control >> 28) & 1 != 0,
            _ => true,
        };
        enable && trigger
    }

    pub fn transfer_size(self) -> (r: Option<u32>)
        ensures
            r == self.spec_transfer_size(),
    {
        match self.sync() {
            SyncMode::Manual => Some(self.block_size as u32),
            SyncMode::Request => {
                proof {
                    assert((self.block_size as int) * (self.block_count as int)
                        <= 0xffff * 0xffff) by (nonlinear_arith)
                        requires
                            self.block_size <= 0xffff,
                            self.block_count <= 0xffff,
                    ;
                }
                let size: u32 = (self.block_size as u32) * (self.block_count as u32);
                Some(size)
            }
            SyncMode::LinkedList => None,
        }
    }

    /// Mark the transfer finished: clear the enable and trigger bits.
    pub fn done(&mut self)
        ensures
            *final(self) == old(self).spec_done(),
            final(self).wf() == old(self).wf(),
    {
        proof {
            crate::bits::lemma_done_keeps_sync(self.control);
        }
        self.control = self.control & 0xeeff_ffff;
    }
}

/// Abstract state of the DMA controller.
pub struct DmaView {
    pub control: u32,
    pub interrupt: u32,
    pub channels: Seq<Channel>,
}

impl DmaView {
    pub open spec fn wf(self) -> bool {
        self.channels.len() == 7 && forall|i: int| 0 <= i < 7 ==> self.channels[i].wf()
    }

    /// The controller with channel `i` replaced.
    pub open spec fn with_channel(self, i: int, c: Channel) -> DmaView {
        DmaView { channels: self.channels.update(i, c), ..self }
    }

    pub open spec fn spec_reset() -> DmaView {
        DmaView {
            control: DMA_CONTROL_RESET,
            interrupt: 0,
            channels: Seq::new(7, |i: int| Channel::spec_reset()),
        }
    }
}

/// The DMA controller: one channel per port plus the two controller-wide
/// registers.
pub struct Dma {
    /// Priority configuration; stored and returned, not interpreted.
    pub control: u32,
    /// Raw interrupt register; read/write passthrough.
    pub interrupt: u32,
    /// The per-port channels, indexed by `Port::index`.
    pub channels: Vec<Channel>,
}

impl View for Dma {
    type V = DmaView;

    open spec fn view(&self) -> DmaView {
        DmaView { control: self.control, interrupt: self.interrupt, channels: self.channels@ }
    }
}

impl Dma {
    /// Reset controller: all channel registers zero, the priority register at
    /// its documented reset value.
    pub fn new() -> (r: Dma)
        ensures
            r@ == DmaView::spec_reset(),
            r@.wf(),
    {
        let mut channels: Vec<Channel> = Vec::new();
        while channels.len() < 7
            invariant
                channels@.len() <= 7,
                forall|i: int| 0 <= i < channels@.len() ==> channels@[i] == Channel::spec_reset(),
            decreases 7 - channels.len(),
        {
            channels.push(Channel::new());
        }
        let r = Dma { control: DMA_CONTROL_RESET, interrupt: 0, channels };
        proof {
            assert(r@.channels =~= DmaView::spec_reset().channels);
            assert((0u32 >> 9) & 3 != 3) by (bit_vector);
        }
        r
    }

    pub fn control(&self) -> (r: u32)
        ensures
            r == self@.control,
    {
        self.control
    }

    pub fn set_control(&mut self, val: u32)
        ensures
            final(self)@ == (DmaView { control: val, ..old(self)@ }),
    {
        self.control = val;
    }

    pub fn interrupt(&self) -> (r: u32)
        ensures
            r == self@.interrupt,
    {
        self.interrupt
    }

    pub fn set_interrupt(&mut self, val: u32)
        ensures
            final(self)@ == (DmaView { interrupt: val, ..old(self)@ }),
    {
        self.interrupt = val;
    }

    /// The channel of `port`, by value.
    pub fn channel(&self, port: Port) -> (r: Channel)
        requires
            self@.wf(),
        ensures
            r == self@.channels[port.spec_index()],
    {
        self.channels[port.index()]
    }

    /// Replace the channel of `port`.
    pub fn set_channel(&mut self, port: Port, c: Channel)
        requires
            old(self)@.wf(),
            c.wf(),
        ensures
            final(self)@ == old(self)@.with_channel(port.spec_index(), c),
            final(self)@.wf(),
    {
        self.channels.set(port.index(), c);
    }
}

} // verus!
