//! Memory side of an emulated 32-bit console: the interconnect routes every
//! CPU load and store through a fixed physical address map to main RAM, the
//! boot ROM, the DMA controller, the video-port window and a handful of
//! stubbed peripherals, and runs the DMA block and linked-list transfer
//! engines when a register write arms a channel.

pub mod access;
pub mod bits;
pub mod cache;
pub mod dma;
pub mod fault;
pub mod interconnect;
pub mod memmap;
pub mod storage;
pub mod transfer;
pub mod video;
