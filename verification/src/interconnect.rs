//! The top-level dispatcher. The interconnect owns main RAM, the boot ROM,
//! the DMA controller, the video-port handle and the cache control register,
//! routes every load and store by address range to the owning component, and
//! runs a DMA transfer to completion whenever a register write arms a
//! channel.

use vstd::prelude::*;
use crate::access::AccessWidth;
use crate::cache::CacheControl;
use crate::dma::{Channel, Dma, DmaView, Port};
use crate::fault::BusFault;
use crate::memmap;
use crate::memmap::{BIOS_LEN, RAM_LEN};
use crate::storage::{le_read, Bios, Ram};
use crate::video::{VideoPort, VideoView};

verus! {

/// Abstract state of the whole bus.
pub struct BusView {
    pub ram: Seq<u8>,
    pub bios: Seq<u8>,
    pub dma: DmaView,
    pub video: VideoView,
    pub cache_control: CacheControl,
}

impl BusView {
    pub open spec fn wf(self) -> bool {
        self.ram.len() == RAM_LEN && self.bios.len() == BIOS_LEN && self.dma.wf()
    }

    /// The bus with the DMA controller state replaced.
    pub open spec fn with_dma(self, d: DmaView) -> BusView {
        BusView { dma: d, ..self }
    }
}

/// The value a DMA register read returns: the register offset splits into a
/// major index selecting a channel (0 to 6) or the controller-wide registers
/// (7), and a minor index selecting the register. Word access only.
pub open spec fn spec_dma_reg(d: DmaView, width: AccessWidth, offset: u32) -> Result<u32, BusFault> {
    let major = (offset & 0x70) >> 4;
    let minor = offset & 0xf;
    if width != AccessWidth::Word {
        Err(BusFault::DmaRegisterWidth { width })
    } else if major <= 6 {
        let ch = d.channels[Port::spec_from_index(major).spec_index()];
        if minor == 0 {
            Ok(ch.base)
        } else if minor == 4 {
            Ok(ch.spec_block_control())
        } else if minor == 8 {
            Ok(ch.control)
        } else {
            Err(BusFault::DmaRegisterOffset { offset })
        }
    } else {
        if minor == 0 {
            Ok(d.control)
        } else if minor == 4 {
            Ok(d.interrupt)
        } else {
            Err(BusFault::DmaRegisterOffset { offset })
        }
    }
}

/// What a DMA register write does: the controller state afterwards, and the
/// port whose channel the write left active, if any. Word access only.
pub open spec fn spec_set_dma_reg(d: DmaView, width: AccessWidth, offset: u32, val: u32) -> Result<
    (DmaView, Option<Port>),
    BusFault,
> {
    let major = (offset & 0x70) >> 4;
    let minor = offset & 0xf;
    if width != AccessWidth::Word {
        Err(BusFault::DmaRegisterWidth { width })
    } else if major <= 6 {
        let port = Port::spec_from_index(major);
        let ch = d.channels[port.spec_index()];
        if minor == 0 {
            let c2 = Channel { base: val, ..ch };
            Ok((d.with_channel(port.spec_index(), c2), if c2.spec_active() {
                Some(port)
            } else {
                None
            }))
        } else if minor == 4 {
            let c2 = Channel {
                block_size: (val & 0xffff) as u16,
                block_count: (val >> 16) as u16,
                ..ch
            };
            Ok((d.with_channel(port.spec_index(), c2), if c2.spec_active() {
                Some(port)
            } else {
                None
            }))
        } else if minor == 8 {
            if (val >> 9) & 3 == 3 {
                Err(BusFault::UnknownSyncMode { bits: (val >> 9) & 3 })
            } else {
                let c2 = Channel { control: val, ..ch };
                Ok((d.with_channel(port.spec_index(), c2), if c2.spec_active() {
                    Some(port)
                } else {
                    None
                }))
            }
        } else {
            Err(BusFault::DmaRegisterOffset { offset })
        }
    } else {
        if minor == 0 {
            Ok((DmaView { control: val, ..d }, None))
        } else if minor == 4 {
            Ok((DmaView { interrupt: val, ..d }, None))
        } else {
            Err(BusFault::DmaRegisterOffset { offset })
        }
    }
}

/// The value a load returns, per region, in dispatch priority order: RAM and
/// the boot ROM read bytes little-endian; interrupt control, timers, the
/// sound processor and the video window are stubs reading as zero; the DMA
/// range reads its registers; expansion region 1 reads as all-ones ("no
/// expansion present"); anything else is an unmapped, fatal load.
pub open spec fn spec_load(s: BusView, width: AccessWidth, addr: u32) -> Result<u32, BusFault> {
    let m = memmap::spec_mask_region(addr);
    match memmap::spec_ram().spec_contains(m) {
        Some(o) => Ok(le_read(s.ram, o as int, width)),
        None => match memmap::spec_bios().spec_contains(m) {
            Some(o) => Ok(le_read(s.bios, o as int, width)),
            None => match memmap::spec_irq_control().spec_contains(m) {
                Some(_o) => Ok(0),
                None => match memmap::spec_dma().spec_contains(m) {
                    Some(o) => spec_dma_reg(s.dma, width, o),
                    None => match memmap::spec_gpu().spec_contains(m) {
                        Some(_o) => Ok(0),
                        None => match memmap::spec_timers().spec_contains(m) {
                            Some(_o) => Ok(0),
                            None => match memmap::spec_spu().spec_contains(m) {
                                Some(_o) => Ok(0),
                                None => match memmap::spec_expansion_1().spec_contains(m) {
                                    Some(_o) => Ok(0xffff_ffffu32 & width.spec_mask()),
                                    None => Err(BusFault::UnmappedLoad { addr }),
                                },
                            },
                        },
                    },
                },
            },
        },
    }
}

/// What machine limits force of a load: when the masked address lands in RAM
/// or the boot ROM, the whole access must fit inside the store. The CPU side
/// issues width-aligned accesses, which always satisfy this.
pub open spec fn load_in_bounds(width: AccessWidth, addr: u32) -> bool {
    let m = memmap::spec_mask_region(addr);
    (match memmap::spec_ram().spec_contains(m) {
        Some(o) => o + width.spec_bytes() <= RAM_LEN,
        None => true,
    }) && (match memmap::spec_bios().spec_contains(m) {
        Some(o) => o + width.spec_bytes() <= BIOS_LEN,
        None => true,
    })
}

/// What a store must satisfy before it runs: a store landing in RAM must fit
/// inside it (the CPU side issues width-aligned accesses, which always fit),
/// and a DMA register write that arms a linked-list transfer must find a
/// terminated list in RAM — the engine would otherwise walk it forever.
pub open spec fn store_safe(s: BusView, width: AccessWidth, addr: u32, val: u32) -> bool {
    let m = memmap::spec_mask_region(addr);
    (match memmap::spec_ram().spec_contains(m) {
        Some(o) => o + width.spec_bytes() <= RAM_LEN,
        None => true,
    }) && (match memmap::spec_dma().spec_contains(m) {
        Some(o) => match spec_set_dma_reg(s.dma, width, o, val) {
            Ok((d2, Some(p))) => crate::transfer::spec_dma_safe(s.with_dma(d2), p),
            _ => true,
        },
        None => true,
    })
}

/// What a store does, per region, in dispatch priority order: RAM takes the
/// low bytes of the value; interrupt control, timers, the sound processor,
/// the RAM-size register and expansion region 2 swallow the write; a DMA
/// register write updates the controller and, when it leaves a channel
/// active, runs that channel's whole transfer before returning; the video
/// window forwards to the port; the cache control register takes word-width
/// writes only; the memory control registers accept only the fixed expansion
/// base addresses; anything else is an unmapped, fatal store.
pub open spec fn spec_store_post(
    pre: BusView,
    post: BusView,
    width: AccessWidth,
    addr: u32,
    val: u32,
    r: Result<(), BusFault>,
) -> bool {
    let m = memmap::spec_mask_region(addr);
    let v = val & width.spec_mask();
    match memmap::spec_ram().spec_contains(m) {
        Some(o) => r == Ok::<(), BusFault>(()) && post == (BusView {
            ram: crate::storage::le_write(pre.ram, o as int, width, v),
            ..pre
        }),
        None => match memmap::spec_irq_control().spec_contains(m) {
            Some(_o) => r == Ok::<(), BusFault>(()) && post == pre,
            None => match memmap::spec_dma().spec_contains(m) {
                Some(o) => match spec_set_dma_reg(pre.dma, width, o, val) {
                    Err(e) => r == Err::<(), BusFault>(e) && post == pre,
                    Ok((d2, None)) => r == Ok::<(), BusFault>(()) && post == pre.with_dma(d2),
                    Ok((d2, Some(p))) => crate::transfer::spec_do_dma_post(
                        pre.with_dma(d2),
                        post,
                        p,
                        r,
                    ),
                },
                None => match memmap::spec_gpu().spec_contains(m) {
                    Some(o) => r == Ok::<(), BusFault>(()) && (if o == 0 {
                        post == (BusView {
                            video: VideoView {
                                intake: pre.video.intake.push(v),
                                control: pre.video.control,
                            },
                            ..pre
                        })
                    } else if o == 4 {
                        post == (BusView {
                            video: VideoView { intake: pre.video.intake, control: v },
                            ..pre
                        })
                    } else {
                        post == pre
                    }),
                    None => match memmap::spec_timers().spec_contains(m) {
                        Some(_o) => r == Ok::<(), BusFault>(()) && post == pre,
                        None => match memmap::spec_spu().spec_contains(m) {
                            Some(_o) => r == Ok::<(), BusFault>(()) && post == pre,
                            None => match memmap::spec_cache_control().spec_contains(m) {
                                Some(_o) => if width != AccessWidth::Word {
                                    r == Err::<(), BusFault>(
                                        BusFault::CacheControlWidth { width },
                                    ) && post == pre
                                } else {
                                    r == Ok::<(), BusFault>(()) && post == (BusView {
                                        cache_control: CacheControl(v),
                                        ..pre
                                    })
                                },
                                None => match memmap::spec_mem_control().spec_contains(m) {
                                    Some(o) => if o == 0 && v != 0x1f00_0000 {
                                        r == Err::<(), BusFault>(
                                            BusFault::ExpansionBase { offset: o, value: v },
                                        ) && post == pre
                                    } else if o == 4 && v != 0x1f80_2000 {
                                        r == Err::<(), BusFault>(
                                            BusFault::ExpansionBase { offset: o, value: v },
                                        ) && post == pre
                                    } else {
                                        r == Ok::<(), BusFault>(()) && post == pre
                                    },
                                    None => match memmap::spec_ram_size().spec_contains(m) {
                                        Some(_o) => r == Ok::<(), BusFault>(()) && post == pre,
                                        None => match memmap::spec_expansion_2().spec_contains(m) {
                                            Some(_o) => r == Ok::<(), BusFault>(()) && post == pre,
                                            None => r == Err::<(), BusFault>(
                                                BusFault::UnmappedStore { addr },
                                            ) && post == pre,
                                        },
                                    },
                                },
                            },
                        },
                    },
                },
            },
        },
    }
}

/// A word-width store to the cache control address always succeeds and sets
/// both derived flags from the stored value: the instruction cache is
/// enabled by bit 0x800 and tag-test mode by bit 4.
pub proof fn lemma_cache_store_sets_flags(
    pre: BusView,
    post: BusView,
    val: u32,
    r: Result<(), BusFault>,
)
    requires
        spec_store_post(pre, post, AccessWidth::Word, 0xfffe_0130, val, r),
    ensures
        r == Ok::<(), BusFault>(()),
        post.cache_control.spec_icache_enabled() == (val & 0x800 != 0),
        post.cache_control.spec_tag_test_mode() == (val & 4 != 0),
{
    crate::bits::lemma_cache_control_addr();
    crate::bits::lemma_word_mask_identity(val);
}

/// A store of any width other than word to the cache control address is
/// fatal and leaves the bus unchanged.
pub proof fn lemma_cache_store_width_fatal(
    pre: BusView,
    post: BusView,
    width: AccessWidth,
    val: u32,
    r: Result<(), BusFault>,
)
    requires
        width != AccessWidth::Word,
        spec_store_post(pre, post, width, 0xfffe_0130, val, r),
    ensures
        r == Err::<(), BusFault>(BusFault::CacheControlWidth { width }),
        post == pre,
{
    crate::bits::lemma_cache_control_addr();
}

/// Global interconnect.
pub struct Interconnect {
    /// Boot ROM image
    pub bios: Bios,
    /// Main RAM
    pub ram: Ram,
    /// DMA registers
    pub dma: Dma,
    /// Video-port handle
    pub video: VideoPort,
    /// Cache control register
    pub cache_control: CacheControl,
}

impl View for Interconnect {
    type V = BusView;

    open spec fn view(&self) -> BusView {
        BusView {
            ram: self.ram@,
            bios: self.bios@,
            dma: self.dma@,
            video: self.video@,
            cache_control: self.cache_control,
        }
    }
}

impl Interconnect {
    /// A fresh bus around a boot ROM and a video-port handle: RAM zeroed,
    /// DMA controller at reset, cache control cleared.
    pub fn new(bios: Bios, video: VideoPort) -> (r: Interconnect)
        requires
            bios.wf(),
        ensures
            r@.wf(),
            r@.bios == bios@,
            r@.video == video@,
            r@.dma == DmaView::spec_reset(),
            r@.cache_control == CacheControl(0),
            forall|i: int| 0 <= i < RAM_LEN ==> r@.ram[i] == 0u8,
    {
        Interconnect {
            bios,
            ram: Ram::new(),
            dma: Dma::new(),
            video,
            cache_control: CacheControl(0),
        }
    }

    /// The current cache control register value.
    pub fn cache_control(&self) -> (r: CacheControl)
        ensures
            r == self@.cache_control,
    {
        self.cache_control
    }

    /// DMA register read.
    pub fn dma_reg(&self, width: AccessWidth, offset: u32) -> (r: Result<u32, BusFault>)
        requires
            self@.wf(),
        ensures
            r == spec_dma_reg(self@.dma, width, offset),
    {
        if width != AccessWidth::Word {
            return Err(BusFault::DmaRegisterWidth { width });
        }
        let major: u32 = (offset & 0x70) >> 4;
        let minor: u32 = offset & 0xf;
        proof {
            crate::bits::lemma_dma_reg_split(offset);
        }
        if major <= 6 {
            let ch = self.dma.channel(Port::from_index(major));
            if minor == 0 {
                Ok(ch.base())
            } else if minor == 4 {
                Ok(ch.block_control())
            } else if minor == 8 {
                Ok(ch.control())
            } else {
                Err(BusFault::DmaRegisterOffset { offset })
            }
        } else {
            if minor == 0 {
                Ok(self.dma.control())
            } else if minor == 4 {
                Ok(self.dma.interrupt())
            } else {
                Err(BusFault::DmaRegisterOffset { offset })
            }
        }
    }

    /// DMA register write. Returns the port whose channel the write left
    /// active, if any; running that channel's transfer is the caller's
    /// separate, explicit step.
    pub fn set_dma_reg(&mut self, width: AccessWidth, offset: u32, val: u32) -> (r: Result<
        Option<Port>,
        BusFault,
    >)
        requires
            old(self)@.wf(),
        ensures
            final(self)@.wf(),
            match spec_set_dma_reg(old(self)@.dma, width, offset, val) {
                Err(e) => r == Err::<Option<Port>, BusFault>(e) && final(self)@ == old(self)@,
                Ok((d2, t)) => r == Ok::<Option<Port>, BusFault>(t) && final(self)@ == (old(
                    self,
                )@.with_dma(d2)),
            },
    {
        if width != AccessWidth::Word {
            return Err(BusFault::DmaRegisterWidth { width });
        }
        let major: u32 = (offset & 0x70) >> 4;
        let minor: u32 = offset & 0xf;
        proof {
            crate::bits::lemma_dma_reg_split(offset);
        }
        if major <= 6 {
            let port = Port::from_index(major);
            let mut c = self.dma.channel(port);
            if minor == 0 {
                c.set_base(val);
            } else if minor == 4 {
                c.set_block_control(val);
            } else if minor == 8 {
                match c.set_control(val) {
                    Ok(u) => u,
                    Err(e) => {
                        return Err(e);
                    }
                }
            } else {
                return Err(BusFault::DmaRegisterOffset { offset });
            }
            self.dma.set_channel(port, c);
            if c.active() {
                Ok(Some(port))
            } else {
                Ok(None)
            }
        } else {
            if minor == 0 {
                self.dma.set_control(val);
                Ok(None)
            } else if minor == 4 {
                self.dma.set_interrupt(val);
                Ok(None)
            } else {
                Err(BusFault::DmaRegisterOffset { offset })
            }
        }
    }

    /// Interconnect: load value at `addr`.
    pub fn load(&self, width: AccessWidth, addr: u32) -> (r: Result<u32, BusFault>)
        requires
            self@.wf(),
            load_in_bounds(width, addr),
        ensures
            r == spec_load(self@, width, addr),
    {
        let m: u32 = memmap::mask_region(addr);
        if let Some(offset) = memmap::ram().contains(m) {
            return Ok(self.ram.load(width, offset));
        }
        if let Some(offset) = memmap::bios().contains(m) {
            return Ok(self.bios.load(width, offset));
        }
        if let Some(_offset) = memmap::irq_control().contains(m) {
            // Interrupt control is not modeled: reads as zero
            return Ok(0);
        }
        if let Some(offset) = memmap::dma().contains(m) {
            return self.dma_reg(width, offset);
        }
        if let Some(offset) = memmap::gpu().contains(m) {
            return Ok(self.video.load(width, offset));
        }
        if let Some(_offset) = memmap::timers().contains(m) {
            // Timers are not modeled: reads as zero
            return Ok(0);
        }
        if let Some(_offset) = memmap::spu().contains(m) {
            // The sound processor is not modeled: reads as zero
            return Ok(0);
        }
        if let Some(_offset) = memmap::expansion_1().contains(m) {
            // No expansion is present: reads as all-ones at every width
            return Ok(width.from_u32(0xffff_ffff));
        }
        Err(BusFault::UnmappedLoad { addr })
    }

    /// Interconnect: store `val` into `addr`. A store that arms a DMA
    /// channel runs that channel's whole transfer before returning.
    pub fn store(&mut self, width: AccessWidth, addr: u32, val: u32) -> (r: Result<(), BusFault>)
        requires
            old(self)@.wf(),
            store_safe(old(self)@, width, addr, val),
        ensures
            final(self)@.wf(),
            spec_store_post(old(self)@, final(self)@, width, addr, val, r),
    {
        let m: u32 = memmap::mask_region(addr);
        let v: u32 = width.from_u32(val);
        if let Some(offset) = memmap::ram().contains(m) {
            self.ram.store(width, offset, v);
            return Ok(());
        }
        if let Some(_offset) = memmap::irq_control().contains(m) {
            // Interrupt control is not modeled: the write is swallowed
            return Ok(());
        }
        if let Some(offset) = memmap::dma().contains(m) {
            let t = match self.set_dma_reg(width, offset, val) {
                Ok(t) => t,
                Err(e) => {
                    return Err(e);
                }
            };
            match t {
                Some(p) => {
                    return self.do_dma(p);
                }
                None => {
                    return Ok(());
                }
            }
        }
        if let Some(offset) = memmap::gpu().contains(m) {
            self.video.store(width, offset, val);
            return Ok(());
        }
        if let Some(_offset) = memmap::timers().contains(m) {
            // Timers are not modeled: the write is swallowed
            return Ok(());
        }
        if let Some(_offset) = memmap::spu().contains(m) {
            // The sound processor is not modeled: the write is swallowed
            return Ok(());
        }
        if let Some(_offset) = memmap::cache_control().contains(m) {
            if width != AccessWidth::Word {
                return Err(BusFault::CacheControlWidth { width });
            }
            self.cache_control = CacheControl(v);
            return Ok(());
        }
        if let Some(offset) = memmap::mem_control().contains(m) {
            if offset == 0 {
                // Expansion 1 base address is fixed
                if v != 0x1f00_0000 {
                    return Err(BusFault::ExpansionBase { offset, value: v });
                }
            } else if offset == 4 {
                // Expansion 2 base address is fixed
                if v != 0x1f80_2000 {
                    return Err(BusFault::ExpansionBase { offset, value: v });
                }
            }
            return Ok(());
        }
        if let Some(_offset) = memmap::ram_size().contains(m) {
            // Writes to the RAM-size register are ignored
            return Ok(());
        }
        if let Some(_offset) = memmap::expansion_2().contains(m) {
            // Expansion region 2 is not modeled: the write is swallowed
            return Ok(());
        }
        Err(BusFault::UnmappedStore { addr })
    }
}

} // verus!
