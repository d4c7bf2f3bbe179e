//! Core of a verified emulator for the original monochrome handheld game
//! console (DMG). The library simulates the console's 8-bit CPU, the memory
//! map and MBC1 bank controller, the pixel-processing unit, the timer block,
//! and the joypad, all clocked in lockstep. A host program feeds it a ROM
//! image as plain bytes, drives `Cpu::docycle`, and reads the finished
//! 160x144 RGB framebuffer back out.

use vstd::prelude::*;

pub mod cartridge;
pub mod cpu;
pub mod joypad;
pub mod mmu;
pub mod ppu;
pub mod registers;
pub mod timer;
pub mod util;

verus! {

/// Top-level handle the host loop owns; `paused` suspends execution
/// between instructions.
pub struct Emulator {
    pub paused: bool,
}

impl Emulator {
    /// A fresh emulator starts running (not paused).
    pub fn new() -> (r: Self)
        ensures
            !r.paused,
    {
        Emulator { paused: false }
    }
}

} // verus!
