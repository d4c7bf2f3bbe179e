//! Timer block: the free-running divider behind DIV, the configurable
//! counter TIMA with its modulo TMA and control TAC, and the timer
//! interrupt raised when TIMA wraps.

use vstd::prelude::*;

verus! {

/// DIV is the high byte of the 16-bit `internaldiv`, which counts every
/// dot. While TAC bit 2 is set, `internalcnt` accumulates dots and TIMA
/// advances once per `timer_step(control)` of them; a wrap of TIMA reloads
/// it from TMA and sets bit 2 of `interrupt`.
pub struct Timer {
    pub internaldiv: u16,
    pub internalcnt: u32,
    pub counter: u8,
    pub modulo: u8,
    pub interrupt: u8,
    pub control: u8,
}

/// Byte read from a timer register.
pub open spec fn timer_rb_spec(t: Timer, a: u16) -> u8 {
    if a == 0xFF04 {
        (t.internaldiv / 256) as u8
    } else if a == 0xFF05 {
        t.counter
    } else if a == 0xFF06 {
        t.modulo
    } else {
        t.control
    }
}

/// Timer state after a register write; DIV resets whatever is written.
pub open spec fn timer_wb_spec(t: Timer, a: u16, v: u8) -> Timer {
    if a == 0xFF04 {
        Timer { internaldiv: 0, ..t }
    } else if a == 0xFF05 {
        Timer { counter: v, ..t }
    } else if a == 0xFF06 {
        Timer { modulo: v, ..t }
    } else {
        Timer { control: v, ..t }
    }
}

/// Dots per TIMA increment, from the low two bits of TAC.
pub open spec fn timer_step(control: u8) -> u32 {
    if control & 3 == 0 {
        1024
    } else if control & 3 == 1 {
        16
    } else if control & 3 == 2 {
        64
    } else {
        256
    }
}

/// TIMA after `k` increments: counting up, reloading from `modulo` on each
/// wrap of 0xFF.
pub open spec fn tima_after(counter: u8, modulo: u8, k: nat) -> u8
    decreases k,
{
    if k == 0 {
        counter
    } else {
        let p = tima_after(counter, modulo, (k - 1) as nat);
        if p == 0xFF {
            modulo
        } else {
            (p + 1) as u8
        }
    }
}

/// Whether any of `k` increments wraps TIMA past 0xFF.
pub open spec fn tima_wraps(counter: u8, modulo: u8, k: nat) -> bool
    decreases k,
{
    if k == 0 {
        false
    } else {
        tima_wraps(counter, modulo, (k - 1) as nat) || tima_after(counter, modulo, (k - 1) as nat)
            == 0xFF
    }
}

/// Timer state after advancing `c` dots: the divider wraps at 16 bits;
/// with TAC bit 2 set the accumulated dots convert into TIMA increments,
/// reloading TMA and raising the interrupt bit on a wrap.
pub open spec fn timer_after(t: Timer, c: u32) -> Timer {
    let div = ((t.internaldiv + c) % 0x10000) as u16;
    if t.control & 4 == 0 {
        Timer { internaldiv: div, ..t }
    } else {
        let total = t.internalcnt + c;
        let step = timer_step(t.control);
        let k = (total / step as int) as nat;
        Timer {
            internaldiv: div,
            internalcnt: (total % step as int) as u32,
            counter: tima_after(t.counter, t.modulo, k),
            interrupt: if tima_wraps(t.counter, t.modulo, k) {
                t.interrupt | 0x04
            } else {
                t.interrupt
            },
            ..t
        }
    }
}

impl Timer {
    /// The all-zero power-on timer.
    pub open spec fn default_spec() -> Timer {
        Timer { internaldiv: 0, internalcnt: 0, counter: 0, modulo: 0, interrupt: 0, control: 0 }
    }

    /// The dot accumulator never holds a full step of the slowest rate.
    pub open spec fn wf(&self) -> bool {
        self.internalcnt < 1024
    }

    pub fn default() -> (r: Timer)
        ensures
            r == (Timer {
                internaldiv: 0,
                internalcnt: 0,
                counter: 0,
                modulo: 0,
                interrupt: 0,
                control: 0,
            }),
            r.wf(),
    {
        Timer { internaldiv: 0, internalcnt: 0, counter: 0, modulo: 0, interrupt: 0, control: 0 }
    }

    /// Registers DIV (FF04), TIMA (FF05), TMA (FF06), TAC (FF07).
    pub fn rb(&self, a: u16) -> (r: u8)
        requires
            0xFF04 <= a <= 0xFF07,
        ensures
            r == timer_rb_spec(*self, a),
    {
        match a {
            0xFF04 => (self.internaldiv / 256) as u8,
            0xFF05 => self.counter,
            0xFF06 => self.modulo,
            _ => self.control,
        }
    }

    /// Writing DIV resets the whole divider regardless of the value.
    pub fn wb(&mut self, a: u16, v: u8)
        requires
            0xFF04 <= a <= 0xFF07,
        ensures
            *final(self) == timer_wb_spec(*old(self), a, v),
            old(self).wf() ==> final(self).wf(),
    {
        match a {
            0xFF04 => self.internaldiv = 0,
            0xFF05 => self.counter = v,
            0xFF06 => self.modulo = v,
            _ => self.control = v,
        }
    }

    /// Advance the block by `c` dots. The divider always counts, wrapping
    /// at 16 bits. While TAC enables the counter, TIMA gains one per step
    /// of dots; each wrap reloads TMA and raises the timer interrupt bit.
    pub fn do_cycle(&mut self, c: u32)
        requires
            old(self).wf(),
            c <= 0xFFFF_FC00,
        ensures
            final(self).wf(),
            *final(self) == timer_after(*old(self), c),
    {
        let cdiv: u16 = #[verifier::truncate] (c as u16);
        proof {
            let d = self.internaldiv;
            assert((d + (c as u16)) % 0x10000 == (d + c) % 0x10000) by (bit_vector);
        }
        self.internaldiv = self.internaldiv.wrapping_add(cdiv);

        if self.control & 0x4 != 0 {
            self.internalcnt = self.internalcnt + c;

            let step: u32 = if self.control & 0x3 == 0 {
                1024
            } else if self.control & 0x3 == 1 {
                16
            } else if self.control & 0x3 == 2 {
                64
            } else {
                256
            };

            let ghost total = old(self).internalcnt + c;
            let ghost k: nat = 0;

            while self.internalcnt >= step
                invariant
                    step == timer_step(old(self).control),
                    self.internaldiv == (old(self).internaldiv + c) % 0x10000,
                    self.modulo == old(self).modulo,
                    self.control == old(self).control,
                    self.internalcnt == total - k * step,
                    self.counter == tima_after(old(self).counter, old(self).modulo, k),
                    self.interrupt == (if tima_wraps(old(self).counter, old(self).modulo, k) {
                        old(self).interrupt | 0x04
                    } else {
                        old(self).interrupt
                    }),
                decreases self.internalcnt,
            {
                self.counter = self.counter.wrapping_add(1);

                if self.counter == 0 {
                    self.counter = self.modulo;
                    self.interrupt = self.interrupt | 0x04;
                }

                self.internalcnt = self.internalcnt - step;
                proof {
                    k = k + 1;
                    let i0 = old(self).interrupt;
                    assert(i0 | 0x04 | 0x04 == i0 | 0x04) by (bit_vector);
                }
            }
            proof {
                vstd::arithmetic::div_mod::lemma_fundamental_div_mod_converse(
                    total as int,
                    step as int,
                    k as int,
                    self.internalcnt as int,
                );
            }
        }
    }
}

} // verus!
