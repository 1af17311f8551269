//! The video-subsystem handle the bus talks to. The video device itself
//! (rasterization, display) is an external collaborator outside this core;
//! this port models exactly the interface the bus uses — an 8-byte register
//! window and the `gp0` command intake — by recording every command word it
//! receives, in order, and answering register reads with a benign zero.

use vstd::prelude::*;
use crate::access::AccessWidth;

verus! {

/// Abstract state of the video port: the command words received through the
/// intake so far, in order, and the last word stored to the control register.
pub struct VideoView {
    pub intake: Seq<u32>,
    pub control: u32,
}

/// Recording stand-in for the video subsystem.
pub struct VideoPort {
    /// Command words received through `gp0`, oldest first.
    pub intake: Vec<u32>,
    /// Last word stored to the control register (window offset 4).
    pub control: u32,
}

impl View for VideoPort {
    type V = VideoView;

    open spec fn view(&self) -> VideoView {
        VideoView { intake: self.intake@, control: self.control }
    }
}

impl VideoPort {
    /// Fresh port: nothing received yet.
    pub fn new() -> (r: VideoPort)
        ensures
            r@.intake == Seq::<u32>::empty(),
            r@.control == 0u32,
    {
        VideoPort { intake: Vec::new(), control: 0 }
    }

    /// Command intake: accept one 32-bit command word, fire-and-forget.
    pub fn gp0(&mut self, word: u32)
        ensures
            final(self)@.intake == old(self)@.intake.push(word),
            final(self)@.control == old(self)@.control,
    {
        self.intake.push(word);
    }

    /// Register read over the 8-byte window. The device is a recording stub,
    /// so every register reads as zero.
    pub fn load(&self, _width: AccessWidth, _offset: u32) -> (r: u32)
        ensures
            r == 0u32,
    {
        0
    }

    /// Register write over the 8-byte window: offset 0 is the command intake,
    /// offset 4 the control register; anything else is ignored.
    pub fn store(&mut self, width: AccessWidth, offset: u32, val: u32)
        ensures
            offset == 0 ==> final(self)@.intake == old(self)@.intake.push(val & width.spec_mask())
                && final(self)@.control == old(self)@.control,
            offset == 4 ==> final(self)@.intake == old(self)@.intake
                && final(self)@.control == (val & width.spec_mask()),
            offset != 0 && offset != 4 ==> final(self)@ == old(self)@,
    {
        let v = width.from_u32(val);
        if offset == 0 {
            self.gp0(v);
        } else if offset == 4 {
            self.control = v;
        }
    }
}

} // verus!
