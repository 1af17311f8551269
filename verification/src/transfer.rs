//! The DMA execution engine: once a channel is armed, the interconnect moves
//! the whole transfer in one burst. Block transfers step through RAM word by
//! word, forwarding to the video intake or synthesizing the clear-ordering
//! table; linked-list transfers walk a chain of packets in RAM and forward
//! every payload word to the video intake.

use vstd::prelude::*;
use crate::access::AccessWidth;
use crate::dma::{Direction, Port, Step, SyncMode};
use crate::fault::BusFault;
use crate::interconnect::{BusView, Interconnect};
use crate::storage::{le_read, le_write};
use crate::video::VideoView;

verus! {

/// The word stored little-endian in `ram` at address `a`.
pub open spec fn word_at(ram: Seq<u8>, a: u32) -> u32
    recommends
        a + 4 <= ram.len(),
{
    le_read(ram, a as int, AccessWidth::Word)
}

/// One address step of a block transfer: four bytes up or down, wrapping.
pub open spec fn spec_step_addr(a: u32, step: Step) -> u32 {
    match step {
        Step::Increment => a.wrapping_add(4),
        Step::Decrement => a.wrapping_sub(4),
    }
}

/// The unmasked running address of a block transfer before its `i`-th word.
pub open spec fn spec_block_addr(base: u32, step: Step, i: nat) -> u32
    decreases i,
{
    if i == 0 {
        base
    } else {
        spec_step_addr(spec_block_addr(base, step, (i - 1) as nat), step)
    }
}

/// The first `n` words a from-RAM block transfer reads: each running address
/// is masked into the word-aligned RAM window before the read.
pub open spec fn spec_block_words(ram: Seq<u8>, base: u32, step: Step, n: nat) -> Seq<u32>
    decreases n,
{
    if n == 0 {
        Seq::empty()
    } else {
        spec_block_words(ram, base, step, (n - 1) as nat).push(
            word_at(ram, spec_block_addr(base, step, (n - 1) as nat) & 0x1f_fffc),
        )
    }
}

/// The word the clear-ordering-table port yields with `remsz` words left to
/// write at running address `addr`: the end-of-table marker for the last
/// word, else a pointer to the previous table entry.
pub open spec fn spec_otc_value(addr: u32, remsz: u32) -> u32 {
    if remsz == 1 {
        0x00ff_ffff
    } else {
        addr.wrapping_sub(4) & 0x1f_ffff
    }
}

/// RAM after the clear-ordering-table port writes `remsz` words starting at
/// running address `addr`, stepping by `step`.
pub open spec fn spec_otc_ram(ram: Seq<u8>, addr: u32, remsz: u32, step: Step) -> Seq<u8>
    decreases remsz,
{
    if remsz == 0 {
        ram
    } else {
        spec_otc_ram(
            le_write(ram, (addr & 0x1f_fffc) as int, AccessWidth::Word, spec_otc_value(addr, remsz)),
            spec_step_addr(addr, step),
            (remsz - 1) as u32,
            step,
        )
    }
}

/// The payload words of one linked-list packet: `remsz` words following
/// word address `a`, the address advancing and re-masking into the RAM
/// window at each step.
pub open spec fn spec_packet_words(ram: Seq<u8>, a: u32, remsz: u32) -> Seq<u32>
    decreases remsz,
{
    if remsz == 0 {
        Seq::empty()
    } else {
        let a2 = a.wrapping_add(4) & 0x1f_fffc;
        seq![word_at(ram, a2)] + spec_packet_words(ram, a2, (remsz - 1) as u32)
    }
}

/// The linked list headed at `a` ends after exactly `n` more hops: every
/// earlier header lacks the end-of-table bit and the `n`-th carries it.
pub open spec fn spec_ll_ends(ram: Seq<u8>, a: u32, n: nat) -> bool
    decreases n,
{
    if n == 0 {
        word_at(ram, a) & 0x80_0000 != 0
    } else {
        word_at(ram, a) & 0x80_0000 == 0 && spec_ll_ends(
            ram,
            word_at(ram, a) & 0x1f_fffc,
            (n - 1) as nat,
        )
    }
}

/// The payload words of the `n + 1` packets of the linked list headed at
/// `a`, in list order: each header's high byte counts its payload words and
/// its low bits name the next node.
pub open spec fn spec_ll_words(ram: Seq<u8>, a: u32, n: nat) -> Seq<u32>
    decreases n,
{
    let h = word_at(ram, a);
    let pkt = spec_packet_words(ram, a, h >> 24);
    if n == 0 {
        pkt
    } else {
        pkt + spec_ll_words(ram, h & 0x1f_fffc, (n - 1) as nat)
    }
}

/// The linked list headed at `a` reaches a header with the end-of-table bit.
/// A list that never does would keep the transfer engine walking forever;
/// that hazard is the caller's to exclude.
pub open spec fn spec_ll_terminates(ram: Seq<u8>, a: u32) -> bool {
    exists|n: nat| spec_ll_ends(ram, a, n)
}

/// A linked list ends after exactly one hop count, so the hop count the
/// linked-list transfer contract quantifies over is determined by RAM and
/// the start address, and with it the forwarded words.
pub proof fn lemma_ll_ends_unique(ram: Seq<u8>, a: u32, n1: nat, n2: nat)
    requires
        spec_ll_ends(ram, a, n1),
        spec_ll_ends(ram, a, n2),
    ensures
        n1 == n2,
    decreases n1,
{
    if n1 > 0 && n2 > 0 {
        lemma_ll_ends_unique(ram, word_at(ram, a) & 0x1f_fffc, (n1 - 1) as nat, (n2 - 1) as nat);
    }
}

/// What a block transfer on `port` does: reject the malformed configurations
/// as fatal, else move the derived number of words and mark the channel done.
pub open spec fn spec_block_post(
    pre: BusView,
    post: BusView,
    port: Port,
    r: Result<(), BusFault>,
) -> bool {
    let ch = pre.dma.channels[port.spec_index()];
    match ch.spec_transfer_size() {
        None => r == Err::<(), BusFault>(BusFault::UnknownTransferSize { port }) && post == pre,
        Some(n) => if ch.spec_direction() == Direction::FromRam && port != Port::Gpu && n > 0 {
            r == Err::<(), BusFault>(BusFault::BlockDestinationPort { port }) && post == pre
        } else if ch.spec_direction() == Direction::ToRam && port != Port::Otc && n > 0 {
            r == Err::<(), BusFault>(BusFault::BlockSourcePort { port }) && post == pre
        } else if ch.spec_direction() == Direction::FromRam {
            r == Ok::<(), BusFault>(()) && post == (BusView {
                dma: pre.dma.with_channel(port.spec_index(), ch.spec_done()),
                video: VideoView {
                    intake: pre.video.intake + spec_block_words(
                        pre.ram,
                        ch.base,
                        ch.spec_step(),
                        n as nat,
                    ),
                    control: pre.video.control,
                },
                ..pre
            })
        } else {
            r == Ok::<(), BusFault>(()) && post == (BusView {
                dma: pre.dma.with_channel(port.spec_index(), ch.spec_done()),
                ram: spec_otc_ram(pre.ram, ch.base, n, ch.spec_step()),
                ..pre
            })
        },
    }
}

/// What a linked-list transfer on `port` does: only the video port may run
/// one and only out of RAM; the engine walks the list to its end marker,
/// forwards every payload word to the intake, and marks the channel done.
pub open spec fn spec_ll_post(
    pre: BusView,
    post: BusView,
    port: Port,
    r: Result<(), BusFault>,
) -> bool {
    let ch = pre.dma.channels[port.spec_index()];
    let start = ch.base & 0x1f_fffc;
    if ch.spec_direction() == Direction::ToRam {
        r == Err::<(), BusFault>(BusFault::LinkedListToRam { port }) && post == pre
    } else if port != Port::Gpu {
        r == Err::<(), BusFault>(BusFault::LinkedListPort { port }) && post == pre
    } else {
        r == Ok::<(), BusFault>(()) && exists|n: nat|
            spec_ll_ends(pre.ram, start, n) && post == (BusView {
                dma: pre.dma.with_channel(port.spec_index(), ch.spec_done()),
                video: VideoView {
                    intake: pre.video.intake + spec_ll_words(pre.ram, start, n),
                    control: pre.video.control,
                },
                ..pre
            })
    }
}

/// What running the transfer of an armed channel does, by its
/// synchronization mode.
pub open spec fn spec_do_dma_post(
    pre: BusView,
    post: BusView,
    port: Port,
    r: Result<(), BusFault>,
) -> bool {
    if pre.dma.channels[port.spec_index()].spec_sync() == SyncMode::LinkedList {
        spec_ll_post(pre, post, port, r)
    } else {
        spec_block_post(pre, post, port, r)
    }
}

/// What the transfer engine asks of the bus before running `port`: a
/// linked-list transfer that will actually walk must find its end marker.
pub open spec fn spec_dma_safe(s: BusView, port: Port) -> bool {
    let ch = s.dma.channels[port.spec_index()];
    (ch.spec_sync() == SyncMode::LinkedList && ch.spec_direction() == Direction::FromRam && port
        == Port::Gpu) ==> spec_ll_terminates(s.ram, ch.base & 0x1f_fffc)
}

impl Interconnect {
    /// Execute the DMA transfer of `port`, whole, by the channel's
    /// synchronization mode.
    pub fn do_dma(&mut self, port: Port) -> (r: Result<(), BusFault>)
        requires
            old(self)@.wf(),
            spec_dma_safe(old(self)@, port),
        ensures
            final(self)@.wf(),
            spec_do_dma_post(old(self)@, final(self)@, port, r),
    {
        match self.dma.channel(port).sync() {
            SyncMode::LinkedList => self.do_dma_linked_list(port),
            _ => self.do_dma_block(port),
        }
    }

    /// Run a transfer in manual or request synchronization mode: the derived
    /// word count moves in one burst, out of RAM into the video intake or
    /// into RAM from the clear-ordering-table port.
    pub fn do_dma_block(&mut self, port: Port) -> (r: Result<(), BusFault>)
        requires
            old(self)@.wf(),
        ensures
            final(self)@.wf(),
            spec_block_post(old(self)@, final(self)@, port, r),
    {
        let ghost pre: BusView = self@;
        let ch = self.dma.channel(port);
        let n: u32 = match ch.transfer_size() {
            Some(n) => n,
            None => {
                return Err(BusFault::UnknownTransferSize { port });
            }
        };
        let dir = ch.direction();
        if n > 0 && dir == Direction::FromRam && port != Port::Gpu {
            return Err(BusFault::BlockDestinationPort { port });
        }
        if n > 0 && dir == Direction::ToRam && port != Port::Otc {
            return Err(BusFault::BlockSourcePort { port });
        }
        let step = ch.step();
        let mut addr: u32 = ch.base();
        let mut remsz: u32 = n;
        match dir {
            Direction::FromRam => {
                while remsz > 0
                    invariant
                        self@.wf(),
                        pre.wf(),
                        remsz <= n,
                        ch == pre.dma.channels[port.spec_index()],
                        step == ch.spec_step(),
                        self@.ram == pre.ram,
                        self@.bios == pre.bios,
                        self@.dma == pre.dma,
                        self@.cache_control == pre.cache_control,
                        self@.video.control == pre.video.control,
                        addr == spec_block_addr(ch.base, ch.spec_step(), (n - remsz) as nat),
                        self@.video.intake == pre.video.intake + spec_block_words(
                            pre.ram,
                            ch.base,
                            ch.spec_step(),
                            (n - remsz) as nat,
                        ),
                    decreases remsz,
                {
                    let ghost i: nat = (n - remsz) as nat;
                    let cur: u32 = addr & 0x1f_fffc;
                    proof {
                        crate::bits::lemma_ram_window(addr);
                    }
                    let w: u32 = self.ram.load(AccessWidth::Word, cur);
                    self.video.gp0(w);
                    proof {
                        assert(spec_block_words(pre.ram, ch.base, ch.spec_step(), i + 1)
                            == spec_block_words(pre.ram, ch.base, ch.spec_step(), i).push(w));
                        assert(self@.video.intake =~= pre.video.intake + spec_block_words(
                            pre.ram,
                            ch.base,
                            ch.spec_step(),
                            i + 1,
                        ));
                    }
                    addr = match step {
                        Step::Increment => addr.wrapping_add(4),
                        Step::Decrement => addr.wrapping_sub(4),
                    };
                    remsz = remsz - 1;
                }
            }
            Direction::ToRam => {
                while remsz > 0
                    invariant
                        self@.wf(),
                        pre.wf(),
                        remsz <= n,
                        ch == pre.dma.channels[port.spec_index()],
                        step == ch.spec_step(),
                        self@.bios == pre.bios,
                        self@.dma == pre.dma,
                        self@.cache_control == pre.cache_control,
                        self@.video == pre.video,
                        spec_otc_ram(self@.ram, addr, remsz, ch.spec_step()) == spec_otc_ram(
                            pre.ram,
                            ch.base,
                            n,
                            ch.spec_step(),
                        ),
                    decreases remsz,
                {
                    let cur: u32 = addr & 0x1f_fffc;
                    proof {
                        crate::bits::lemma_ram_window(addr);
                    }
                    let v: u32 = if remsz == 1 {
                        0x00ff_ffff
                    } else {
                        addr.wrapping_sub(4) & 0x1f_ffff
                    };
                    self.ram.store(AccessWidth::Word, cur, v);
                    addr = match step {
                        Step::Increment => addr.wrapping_add(4),
                        Step::Decrement => addr.wrapping_sub(4),
                    };
                    remsz = remsz - 1;
                }
            }
        }
        let mut done_ch = self.dma.channel(port);
        done_ch.done();
        self.dma.set_channel(port, done_ch);
        Ok(())
    }

    /// Run a linked-list transfer: walk the chain of packets headed at the
    /// channel base, forwarding every payload word to the video intake, until
    /// a header carries the end-of-table bit.
    pub fn do_dma_linked_list(&mut self, port: Port) -> (r: Result<(), BusFault>)
        requires
            old(self)@.wf(),
            (old(self)@.dma.channels[port.spec_index()].spec_direction() == Direction::FromRam
                && port == Port::Gpu) ==> spec_ll_terminates(
                old(self)@.ram,
                old(self)@.dma.channels[port.spec_index()].base & 0x1f_fffc,
            ),
        ensures
            final(self)@.wf(),
            spec_ll_post(old(self)@, final(self)@, port, r),
    {
        let ghost pre: BusView = self@;
        let ch = self.dma.channel(port);
        let mut addr: u32 = ch.base() & 0x1f_fffc;
        let ghost start: u32 = addr;
        if ch.direction() == Direction::ToRam {
            return Err(BusFault::LinkedListToRam { port });
        }
        if port != Port::Gpu {
            return Err(BusFault::LinkedListPort { port });
        }
        proof {
            crate::bits::lemma_ram_window(ch.base);
        }
        let ghost total_n: nat = choose|nn: nat| spec_ll_ends(pre.ram, start, nn);
        let ghost mut k: nat = total_n;
        loop
            invariant_except_break
                self@.wf(),
                pre.wf(),
                ch == pre.dma.channels[port.spec_index()],
                self@.ram == pre.ram,
                self@.bios == pre.bios,
                self@.dma == pre.dma,
                self@.cache_control == pre.cache_control,
                self@.video.control == pre.video.control,
                addr <= 0x1f_fffc,
                spec_ll_ends(pre.ram, addr, k),
                pre.video.intake + spec_ll_words(pre.ram, start, total_n) == self@.video.intake
                    + spec_ll_words(pre.ram, addr, k),
            ensures
                self@.wf(),
                ch == pre.dma.channels[port.spec_index()],
                self@.ram == pre.ram,
                self@.bios == pre.bios,
                self@.dma == pre.dma,
                self@.cache_control == pre.cache_control,
                self@.video.control == pre.video.control,
                self@.video.intake == pre.video.intake + spec_ll_words(pre.ram, start, total_n),
            decreases k,
        {
            // Each list node starts with a header word: its high byte is the
            // number of payload words in the packet, its low bits name the
            // next node.
            let ghost node: u32 = addr;
            let ghost entry_intake: Seq<u32> = self@.video.intake;
            let header: u32 = self.ram.load(AccessWidth::Word, addr);
            let mut remsz: u32 = header >> 24;
            while remsz > 0
                invariant
                    self@.wf(),
                    pre.wf(),
                    self@.ram == pre.ram,
                    self@.bios == pre.bios,
                    self@.dma == pre.dma,
                    self@.cache_control == pre.cache_control,
                    self@.video.control == pre.video.control,
                    addr <= 0x1f_fffc,
                    entry_intake + spec_packet_words(pre.ram, node, header >> 24) == self@
                        .video.intake + spec_packet_words(pre.ram, addr, remsz),
                decreases remsz,
            {
                proof {
                    crate::bits::lemma_ram_window((addr + 4) as u32);
                }
                let ghost before: u32 = addr;
                addr = (addr + 4) & 0x1f_fffc;
                let w: u32 = self.ram.load(AccessWidth::Word, addr);
                self.video.gp0(w);
                proof {
                    assert(spec_packet_words(pre.ram, before, remsz) == seq![w]
                        + spec_packet_words(pre.ram, addr, (remsz - 1) as u32));
                    assert(entry_intake + spec_packet_words(pre.ram, node, header >> 24)
                        =~= self@.video.intake + spec_packet_words(
                        pre.ram,
                        addr,
                        (remsz - 1) as u32,
                    ));
                }
                remsz = remsz - 1;
            }
            proof {
                assert(spec_packet_words(pre.ram, addr, 0) == Seq::<u32>::empty());
                assert(self@.video.intake =~= entry_intake + spec_packet_words(
                    pre.ram,
                    node,
                    header >> 24,
                ));
            }
            // The end-of-table marker is only tested by the top bit of the
            // header's high bits: that bit is not part of any valid address.
            if header & 0x80_0000 != 0 {
                proof {
                    assert(k == 0);
                    assert(spec_ll_words(pre.ram, node, 0) == spec_packet_words(
                        pre.ram,
                        node,
                        header >> 24,
                    ));
                    assert(self@.video.intake =~= pre.video.intake + spec_ll_words(
                        pre.ram,
                        start,
                        total_n,
                    ));
                }
                break;
            }
            addr = header & 0x1f_fffc;
            proof {
                crate::bits::lemma_ram_window(header);
                assert(k > 0);
                assert(spec_ll_words(pre.ram, node, k) == spec_packet_words(
                    pre.ram,
                    node,
                    header >> 24,
                ) + spec_ll_words(pre.ram, addr, (k - 1) as nat));
                assert(pre.video.intake + spec_ll_words(pre.ram, start, total_n) =~= self@
                    .video.intake + spec_ll_words(pre.ram, addr, (k - 1) as nat));
                k = (k - 1) as nat;
            }
        }
        let mut done_ch = self.dma.channel(port);
        done_ch.done();
        self.dma.set_channel(port, done_ch);
        proof {
            assert(spec_ll_ends(pre.ram, start, total_n));
        }
        Ok(())
    }
}

/// The unmasked running address before the `i`-th word of a descending block
/// transfer from `base`.
pub open spec fn otc_addr(base: u32, i: nat) -> u32
    decreases i,
{
    if i == 0 {
        base
    } else {
        otc_addr(base, (i - 1) as nat).wrapping_sub(4)
    }
}

/// The RAM address the `i`-th word of a descending clear-ordering-table
/// transfer from `base` is written to.
pub open spec fn otc_entry(base: u32, i: nat) -> u32 {
    otc_addr(base, i) & 0x1f_fffc
}

/// Stepping a word-aligned address down by four keeps it word-aligned.
proof fn lemma_sub4_aligned(x: u32)
    requires
        x % 4 == 0,
    ensures
        x.wrapping_sub(4) % 4 == 0,
{
    if x >= 4 {
        vstd::arithmetic::div_mod::lemma_mod_sub_multiples_vanish(x as int, 4);
    }
}

/// Stepping down by four subtracts four, modulo the RAM window size.
proof fn lemma_wrapping_sub4_mod(x: u32)
    ensures
        (x.wrapping_sub(4)) as int % 0x20_0000 == ((x as int) - 4) % 0x20_0000,
{
    if x < 4 {
        vstd::arithmetic::div_mod::lemma_mod_multiples_vanish(
            0x800,
            (x as int) - 4,
            0x20_0000,
        );
        assert(0x20_0000 * 0x800 + ((x as int) - 4) == (x.wrapping_sub(4)) as int);
    }
}

/// The running addresses of a transfer from `base`, after the first, are the
/// running addresses of a transfer from one step below `base`.
proof fn lemma_otc_addr_shift(base: u32, i: nat)
    ensures
        otc_addr(base, i + 1) == otc_addr(base.wrapping_sub(4), i),
    decreases i,
{
    if i == 0 {
        assert(otc_addr(base, 1) == otc_addr(base, 0).wrapping_sub(4));
    } else {
        lemma_otc_addr_shift(base, (i - 1) as nat);
        assert(otc_addr(base, i + 1) == otc_addr(base, i).wrapping_sub(4));
        assert(otc_addr(base.wrapping_sub(4), i) == otc_addr(
            base.wrapping_sub(4),
            (i - 1) as nat,
        ).wrapping_sub(4));
    }
}

/// Every running address of a descending transfer from a word-aligned base
/// is word-aligned.
proof fn lemma_otc_addr_aligned(base: u32, i: nat)
    requires
        base % 4 == 0,
    ensures
        otc_addr(base, i) % 4 == 0,
    decreases i,
{
    if i > 0 {
        lemma_otc_addr_aligned(base, (i - 1) as nat);
        lemma_sub4_aligned(otc_addr(base, (i - 1) as nat));
    }
}

/// Inside the RAM window, the `i`-th running address of a descending
/// transfer sits four-times-`i` bytes below the base.
proof fn lemma_otc_addr_mod(base: u32, i: nat)
    ensures
        otc_addr(base, i) as int % 0x20_0000 == ((base as int) - 4 * i) % 0x20_0000,
    decreases i,
{
    if i > 0 {
        let y = otc_addr(base, (i - 1) as nat);
        lemma_otc_addr_mod(base, (i - 1) as nat);
        lemma_wrapping_sub4_mod(y);
        vstd::arithmetic::div_mod::lemma_mod_equivalence(
            y as int,
            (base as int) - 4 * (i - 1),
            0x20_0000,
        );
        vstd::arithmetic::div_mod::lemma_mod_equivalence(
            (y as int) - 4,
            (base as int) - 4 * i,
            0x20_0000,
        );
    }
}

/// Two distinct word-aligned addresses carry disjoint words.
proof fn lemma_aligned_distinct_disjoint(x: u32, y: u32)
    requires
        x % 4 == 0,
        y % 4 == 0,
        x != y,
    ensures
        x + 4 <= y || y + 4 <= x,
{
    let d = (x as int) - (y as int);
    vstd::arithmetic::div_mod::lemma_sub_mod_noop(x as int, y as int, 4);
    if 0 < d < 4 {
        vstd::arithmetic::div_mod::lemma_small_mod(d as nat, 4);
    }
    if -4 < d < 0 {
        vstd::arithmetic::div_mod::lemma_mod_add_multiples_vanish(d, 4);
        vstd::arithmetic::div_mod::lemma_small_mod((d + 4) as nat, 4);
    }
}

/// Reading a word back from where it was just written gives the word.
proof fn lemma_write_read_word(bytes: Seq<u8>, o: int, v: u32)
    requires
        0 <= o,
        o + 4 <= bytes.len(),
    ensures
        le_read(le_write(bytes, o, AccessWidth::Word, v), o, AccessWidth::Word) == v,
{
    crate::bits::lemma_word_bytes_roundtrip(v);
}

/// A clear-ordering-table transfer touches no byte outside its table
/// entries.
proof fn lemma_otc_frame(ram: Seq<u8>, addr: u32, m: u32, b: int)
    requires
        ram.len() == crate::memmap::RAM_LEN,
        0 <= b < ram.len(),
        forall|j: nat| j < m ==> b < otc_entry(addr, j) || b >= otc_entry(addr, j) + 4,
    ensures
        spec_otc_ram(ram, addr, m, Step::Decrement)[b] == ram[b],
    decreases m,
{
    if m > 0 {
        let cur = addr & 0x1f_fffc;
        assert(otc_entry(addr, 0) == cur);
        assert(b < otc_entry(addr, 0) || b >= otc_entry(addr, 0) + 4);
        let v = spec_otc_value(addr, m);
        let ram1 = le_write(ram, cur as int, AccessWidth::Word, v);
        crate::bits::lemma_ram_window(addr);
        crate::storage::lemma_le_write_len(ram, cur as int, AccessWidth::Word, v);
        assert(ram1[b] == ram[b]);
        let addr2 = addr.wrapping_sub(4);
        assert forall|j: nat| j < m - 1 implies b < otc_entry(addr2, j) || b >= otc_entry(
            addr2,
            j,
        ) + 4 by {
            lemma_otc_addr_shift(addr, j);
            assert(b < otc_entry(addr, j + 1) || b >= otc_entry(addr, j + 1) + 4);
        };
        lemma_otc_frame(ram1, addr2, (m - 1) as u32, b);
    }
}

/// A later table entry of a descending clear never lands on the first one,
/// as long as the transfer is shorter than the RAM window.
proof fn lemma_otc_entry_distinct(base: u32, i: nat)
    requires
        base % 4 == 0,
        0 < i,
        4 * i < 0x20_0000,
    ensures
        otc_entry(base, i) != otc_entry(base, 0),
{
    lemma_otc_addr_aligned(base, i);
    lemma_otc_addr_mod(base, i);
    crate::bits::lemma_window_mask_is_mod(otc_addr(base, i));
    crate::bits::lemma_window_mask_is_mod(base);
    if otc_entry(base, i) == otc_entry(base, 0) {
        vstd::arithmetic::div_mod::lemma_mod_equivalence(
            (base as int) - 4 * i,
            base as int,
            0x20_0000,
        );
        vstd::arithmetic::div_mod::lemma_mod_add_multiples_vanish(-4 * i, 0x20_0000);
        vstd::arithmetic::div_mod::lemma_small_mod((0x20_0000 - 4 * i) as nat, 0x20_0000);
        assert(false);
    }
}

/// Clearing an ordering table: a descending block transfer of `n` words from
/// the clear-ordering-table port leaves, at every table entry it wrote, a
/// pointer to the previous entry, and the end-of-table marker at the entry
/// written last. Holds for word-aligned bases and transfers no longer than
/// the RAM window; a longer transfer wraps and overwrites its own entries.
pub proof fn lemma_otc_clear_chain(ram: Seq<u8>, base: u32, n: u32)
    requires
        ram.len() == crate::memmap::RAM_LEN,
        base % 4 == 0,
        0 < n <= 0x8_0000,
    ensures
        forall|i: nat| i < n ==> word_at(
            spec_otc_ram(ram, base, n, Step::Decrement),
            #[trigger] otc_entry(base, i),
        ) == (if i == n - 1 {
            0x00ff_ffffu32
        } else {
            otc_entry(base, i).wrapping_sub(4) & 0x1f_ffff
        }),
    decreases n,
{
    let res = spec_otc_ram(ram, base, n, Step::Decrement);
    let cur = base & 0x1f_fffc;
    let v0 = spec_otc_value(base, n);
    let ram1 = le_write(ram, cur as int, AccessWidth::Word, v0);
    let base2 = base.wrapping_sub(4);
    crate::bits::lemma_ram_window(base);
    crate::storage::lemma_le_write_len(ram, cur as int, AccessWidth::Word, v0);
    lemma_sub4_aligned(base);
    assert(otc_entry(base, 0) == cur);
    assert(res == spec_otc_ram(ram1, base2, (n - 1) as u32, Step::Decrement));
    // The first entry survives the rest of the transfer: every later entry
    // is a distinct aligned word.
    assert forall|b: int| cur <= b < cur + 4 implies res[b] == ram1[b] by {
        assert forall|j: nat| j < n - 1 implies b < otc_entry(base2, j) || b >= otc_entry(
            base2,
            j,
        ) + 4 by {
            lemma_otc_addr_shift(base, j);
            lemma_otc_entry_distinct(base, j + 1);
            lemma_otc_addr_aligned(base, j + 1);
            crate::bits::lemma_ram_window(otc_addr(base, j + 1));
            lemma_aligned_distinct_disjoint(otc_entry(base, j + 1), cur);
        };
        lemma_otc_frame(ram1, base2, (n - 1) as u32, b);
    };
    lemma_write_read_word(ram, cur as int, v0);
    assert(word_at(res, cur) == v0);
    if n == 1 {
        assert(word_at(res, otc_entry(base, 0)) == 0x00ff_ffff);
    } else {
        // The first entry's pointer: computed from the unmasked base, but
        // equal to one step below the masked entry address, inside the
        // window.
        lemma_wrapping_sub4_mod(base);
        lemma_wrapping_sub4_mod(cur);
        crate::bits::lemma_window_mask_is_mod(base.wrapping_sub(4));
        crate::bits::lemma_window_mask_is_mod(cur.wrapping_sub(4));
        crate::bits::lemma_window_mask_is_mod(base);
        vstd::arithmetic::div_mod::lemma_small_mod(cur as nat, 0x20_0000);
        vstd::arithmetic::div_mod::lemma_mod_equivalence(base as int, cur as int, 0x20_0000);
        vstd::arithmetic::div_mod::lemma_mod_equivalence(
            (base as int) - 4,
            (cur as int) - 4,
            0x20_0000,
        );
        assert(base.wrapping_sub(4) & 0x1f_ffff == cur.wrapping_sub(4) & 0x1f_ffff);
        lemma_otc_clear_chain(ram1, base2, (n - 1) as u32);
        assert forall|i: nat| 1 <= i < n implies word_at(res, #[trigger] otc_entry(base, i)) == (
        if i == n - 1 {
            0x00ff_ffffu32
        } else {
            otc_entry(base, i).wrapping_sub(4) & 0x1f_ffff
        }) by {
            lemma_otc_addr_shift(base, (i - 1) as nat);
            assert(otc_entry(base2, (i - 1) as nat) == otc_entry(base, i));
            assert(word_at(
                spec_otc_ram(ram1, base2, (n - 1) as u32, Step::Decrement),
                otc_entry(base2, (i - 1) as nat),
            ) == (if i - 1 == n - 2 {
                0x00ff_ffffu32
            } else {
                otc_entry(base2, (i - 1) as nat).wrapping_sub(4) & 0x1f_ffff
            }));
        };
    }
}

} // verus!
