//! Joypad: an active-low button latch and the select register at FF00.
//! Bits 0-3 of the latch are the direction pad (right/left/up/down), bits
//! 4-7 the buttons (A/B/select/start); a clear bit means pressed.

use vstd::prelude::*;

verus! {

pub struct Joypad {
    pub interrupt: u8,
    pub buttons: u8,
    pub reg: u8,
}

/// Byte read from FF00: the select bits composed with the selected nibble
/// of the latch. Bit 4 clear selects the direction row, else bit 5 clear
/// selects the button row; with neither row selected the select register
/// reads back unchanged.
pub open spec fn joypad_rb_spec(j: Joypad) -> u8 {
    if j.reg & 0x10 == 0 {
        j.reg | (j.buttons & 0x0F)
    } else if j.reg & 0x20 == 0 {
        j.reg | (j.buttons >> 4)
    } else {
        j.reg
    }
}

impl Joypad {
    /// All keys released, no row selected.
    pub fn new() -> (r: Self)
        ensures
            r == (Joypad { interrupt: 0, buttons: 0xFF, reg: 0 }),
    {
        Joypad { interrupt: 0, buttons: 0xFF, reg: 0 }
    }

    /// Press the keys in `key`: clear their latch bits and raise the
    /// joypad interrupt.
    pub fn keydown(&mut self, key: u8)
        ensures
            *final(self) == (Joypad {
                buttons: old(self).buttons & !key,
                interrupt: old(self).interrupt | 0x10,
                ..*old(self)
            }),
    {
        self.buttons = self.buttons & !key;
        self.interrupt = self.interrupt | 0x10;
    }

    /// Release the keys in `key`: set their latch bits.
    pub fn keyup(&mut self, key: u8)
        ensures
            *final(self) == (Joypad { buttons: old(self).buttons | key, ..*old(self) }),
    {
        self.buttons = self.buttons | key;
    }

    pub fn rb(&self, _a: u16) -> (r: u8)
        ensures
            r == joypad_rb_spec(*self),
    {
        if (self.reg & 0b0001_0000) == 0 {
            return self.reg | (self.buttons & 0x0F);
        }
        if (self.reg & 0b0010_0000) == 0 {
            return self.reg | (self.buttons >> 4);
        }
        self.reg
    }

    pub fn wb(&mut self, _a: u16, v: u8)
        ensures
            *final(self) == (Joypad { reg: v, ..*old(self) }),
    {
        self.reg = v;
    }
}

} // verus!
