//! Memory management unit: the single router over the 16-bit address
//! space. It owns the cartridge, PPU, timer, joypad, the serial data
//! bytes, and the IE/IF interrupt latches, and it performs OAM DMA.

use crate::cartridge::{mbc_read_spec, mbc_write_spec, Cartridge, CartridgeView, Mbc};
use crate::joypad::{joypad_rb_spec, Joypad};
use crate::ppu::{ppu_new_spec, ppu_rb_spec, ppu_wb_spec, Ppu, PpuView};
use crate::registers::add_one_16;
use crate::timer::{timer_after, timer_rb_spec, timer_wb_spec, Timer};
use vstd::prelude::*;

verus! {

pub struct Mmu {
    pub cart: Cartridge,
    pub timer: Timer,
    pub ppu: Ppu,
    pub joypad: Joypad,
    pub serial_data: (u8, u8),
    pub inte: u8,
    pub intf: u8,
}

pub ghost struct MmuView {
    pub cart: CartridgeView,
    pub timer: Timer,
    pub ppu: PpuView,
    pub joypad: Joypad,
    pub serial_data: (u8, u8),
    pub inte: u8,
    pub intf: u8,
}

impl View for Mmu {
    type V = MmuView;

    open spec fn view(&self) -> MmuView {
        MmuView {
            cart: self.cart@,
            timer: self.timer,
            ppu: self.ppu@,
            joypad: self.joypad,
            serial_data: self.serial_data,
            inte: self.inte,
            intf: self.intf,
        }
    }
}

impl MmuView {
    pub open spec fn wf(&self) -> bool {
        &&& self.cart.wf()
        &&& self.ppu.wf()
        &&& self.timer.wf()
    }
}

/// Byte visible at address `a`: ROM and external RAM through the MBC,
/// VRAM/OAM and LCD registers through the PPU, WRAM and HRAM from the
/// cartridge block, the I/O registers by address, and 0 from the WRAM
/// echo, the unusable region and unhandled I/O.
pub open spec fn mmu_rb_spec(m: MmuView, a: u16) -> u8 {
    if a < 0x8000 {
        mbc_read_spec(m.cart.mbc, a)
    } else if a < 0xA000 {
        ppu_rb_spec(m.ppu, a)
    } else if a < 0xC000 {
        mbc_read_spec(m.cart.mbc, a)
    } else if a < 0xE000 {
        m.cart.wram[a - 0xC000]
    } else if a < 0xFE00 {
        0
    } else if a < 0xFEA0 {
        ppu_rb_spec(m.ppu, a)
    } else if a < 0xFF00 {
        0
    } else if a < 0xFF80 {
        if a == 0xFF00 {
            joypad_rb_spec(m.joypad)
        } else if a == 0xFF01 {
            m.serial_data.0
        } else if a == 0xFF02 {
            m.serial_data.1
        } else if 0xFF04 <= a <= 0xFF07 {
            timer_rb_spec(m.timer, a)
        } else if 0xFF40 <= a <= 0xFF4B {
            ppu_rb_spec(m.ppu, a)
        } else if a == 0xFF0F {
            m.intf
        } else {
            0
        }
    } else if a == 0xFFFF {
        m.inte
    } else {
        m.cart.hram[a - 0xFF80]
    }
}

/// State after the DMA copy has moved `i` bytes: byte `j` of the source
/// page lands in OAM slot `j`, through the ordinary read path of the
/// evolving state.
pub open spec fn dma_step(m: MmuView, base: u16, i: nat) -> MmuView
    decreases i,
{
    if i == 0 {
        m
    } else {
        let prev = dma_step(m, base, (i - 1) as nat);
        MmuView {
            ppu: ppu_wb_spec(
                prev.ppu,
                (0xFE00 + i - 1) as u16,
                mmu_rb_spec(prev, (base + i - 1) as u16),
            ),
            ..prev
        }
    }
}

/// OAM DMA triggered by writing `v` to FF46: 0xA0 bytes copied from page
/// `v << 8` into OAM, synchronously.
pub open spec fn dma_spec(m: MmuView, v: u8) -> MmuView {
    dma_step(m, (v * 256) as u16, 0xA0)
}

/// State after a byte write at `a`: routed like reads; FF46 starts DMA;
/// writes to the echo, unusable and unhandled I/O regions are dropped.
pub open spec fn mmu_wb_spec(m: MmuView, a: u16, v: u8) -> MmuView {
    if a < 0x8000 {
        MmuView { cart: CartridgeView { mbc: mbc_write_spec(m.cart.mbc, a, v), ..m.cart }, ..m }
    } else if a < 0xA000 {
        MmuView { ppu: ppu_wb_spec(m.ppu, a, v), ..m }
    } else if a < 0xC000 {
        MmuView { cart: CartridgeView { mbc: mbc_write_spec(m.cart.mbc, a, v), ..m.cart }, ..m }
    } else if a < 0xE000 {
        MmuView { cart: CartridgeView { wram: m.cart.wram.update(a - 0xC000, v), ..m.cart }, ..m }
    } else if a < 0xFE00 {
        m
    } else if a < 0xFEA0 {
        MmuView { ppu: ppu_wb_spec(m.ppu, a, v), ..m }
    } else if a < 0xFF00 {
        m
    } else if a == 0xFF46 {
        dma_spec(m, v)
    } else if a < 0xFF80 {
        if a == 0xFF00 {
            MmuView { joypad: Joypad { reg: v, ..m.joypad }, ..m }
        } else if a == 0xFF01 {
            MmuView { serial_data: (v, m.serial_data.1), ..m }
        } else if a == 0xFF02 {
            MmuView { serial_data: (m.serial_data.0, v), ..m }
        } else if 0xFF04 <= a <= 0xFF07 {
            MmuView { timer: timer_wb_spec(m.timer, a, v), ..m }
        } else if 0xFF40 <= a <= 0xFF4B {
            MmuView { ppu: ppu_wb_spec(m.ppu, a, v), ..m }
        } else if a == 0xFF0F {
            MmuView { intf: v, ..m }
        } else {
            m
        }
    } else if a == 0xFFFF {
        MmuView { inte: v, ..m }
    } else {
        MmuView { cart: CartridgeView { hram: m.cart.hram.update(a - 0xFF80, v), ..m.cart }, ..m }
    }
}

/// 16-bit read: low byte at `a`, high byte at `a+1` (wrapping).
pub open spec fn mmu_rw_spec(m: MmuView, a: u16) -> u16 {
    (mmu_rb_spec(m, a) + mmu_rb_spec(m, add_one_16(a)) * 256) as u16
}

/// 16-bit write: low byte to `a`, then high byte to `a+1` (wrapping).
pub open spec fn mmu_ww_spec(m: MmuView, a: u16, v: u16) -> MmuView {
    mmu_wb_spec(mmu_wb_spec(m, a, (v % 256) as u8), add_one_16(a), (v / 256) as u8)
}

impl Mmu {
    /// MMU with an empty cartridge slot and all peripherals at power-on.
    pub fn new() -> (r: Self)
        ensures
            r@.wf(),
            r@.cart.mbc.rom.len() == 0,
            r@.cart.wram =~= Seq::new(0x8000, |i: int| 0u8),
            r@.cart.hram =~= Seq::new(0x80, |i: int| 0xFFu8),
            r@.ppu == ppu_new_spec(),
            r@.timer == Timer::default_spec(),
            r@.joypad == (Joypad { interrupt: 0, buttons: 0xFF, reg: 0 }),
            r@.serial_data == (0u8, 0u8),
            r@.inte == 0,
            r@.intf == 0,
    {
        Mmu {
            cart: Cartridge::new(),
            serial_data: (0, 0),
            ppu: Ppu::new(),
            joypad: Joypad::new(),
            timer: Timer::default(),
            inte: 0,
            intf: 0,
        }
    }

    /// MMU over a freshly loaded ROM blob; everything else at power-on.
    pub fn from(data: Vec<u8>) -> (r: Self)
        requires
            data@.len() >= 0x150,
        ensures
            r@.wf(),
            r@.cart.mbc == Mbc::new_spec(data@),
            r@.cart.wram =~= Seq::new(0x8000, |i: int| 0u8),
            r@.cart.hram =~= Seq::new(0x80, |i: int| 0xFFu8),
            r@.ppu == ppu_new_spec(),
            r@.timer == Timer::default_spec(),
            r@.joypad == (Joypad { interrupt: 0, buttons: 0xFF, reg: 0 }),
            r@.serial_data == (0u8, 0u8),
            r@.inte == 0,
            r@.intf == 0,
    {
        Mmu {
            cart: Cartridge::from(data),
            serial_data: (0, 0),
            ppu: Ppu::new(),
            joypad: Joypad::new(),
            timer: Timer::default(),
            inte: 0,
            intf: 0,
        }
    }

    pub fn rb(&self, a: u16) -> (r: u8)
        requires
            self@.wf(),
        ensures
            r == mmu_rb_spec(self@, a),
    {
        if a < 0x8000 {
            self.cart.mbc.read(a)
        } else if a < 0xA000 {
            self.ppu.rb(a)
        } else if a < 0xC000 {
            self.cart.mbc.read(a)
        } else if a < 0xE000 {
            self.cart.wram_read(a)
        } else if a < 0xFE00 {
            0
        } else if a < 0xFEA0 {
            self.ppu.rb(a)
        } else if a < 0xFF00 {
            0
        } else if a < 0xFF80 {
            if a == 0xFF00 {
                self.joypad.rb(a)
            } else if a == 0xFF01 {
                self.serial_data.0
            } else if a == 0xFF02 {
                self.serial_data.1
            } else if 0xFF04 <= a && a <= 0xFF07 {
                self.timer.rb(a)
            } else if 0xFF40 <= a && a <= 0xFF4B {
                self.ppu.rb(a)
            } else if a == 0xFF0F {
                self.intf
            } else {
                0
            }
        } else if a == 0xFFFF {
            self.inte
        } else {
            self.cart.hram_read(a)
        }
    }

    pub fn wb(&mut self, a: u16, v: u8)
        requires
            old(self)@.wf(),
        ensures
            final(self)@ == mmu_wb_spec(old(self)@, a, v),
            final(self)@.wf(),
    {
        if a < 0x8000 {
            self.cart.mbc.write(a, v);
        } else if a < 0xA000 {
            self.ppu.wb(a, v);
        } else if a < 0xC000 {
            self.cart.mbc.write(a, v);
        } else if a < 0xE000 {
            self.cart.wram_write(a, v);
        } else if a < 0xFE00 {
        } else if a < 0xFEA0 {
            self.ppu.wb(a, v);
        } else if a < 0xFF00 {
        } else if a == 0xFF46 {
            self.dma(v);
        } else if a < 0xFF80 {
            if a == 0xFF00 {
                self.joypad.wb(a, v);
            } else if a == 0xFF01 {
                self.serial_data.0 = v;
            } else if a == 0xFF02 {
                self.serial_data.1 = v;
            } else if 0xFF04 <= a && a <= 0xFF07 {
                self.timer.wb(a, v);
            } else if 0xFF40 <= a && a <= 0xFF4B {
                self.ppu.wb(a, v);
            } else if a == 0xFF0F {
                self.intf = v;
            }
        } else if a == 0xFFFF {
            self.inte = v;
        } else {
            self.cart.hram_write(a, v);
        }
    }

    /// Copy 0xA0 bytes from page `value << 8` into OAM through the normal
    /// read path (so a DMA from OAM itself reads the evolving bytes).
    fn dma(&mut self, value: u8)
        requires
            old(self)@.wf(),
        ensures
            final(self)@ == dma_spec(old(self)@, value),
            final(self)@.wf(),
    {
        let base: u16 = value as u16 * 256;

        let mut i: u16 = 0;
        while i < 0xA0
            invariant
                self@ == dma_step(old(self)@, base, i as nat),
                self@.wf(),
                base == value as u16 * 256,
                i <= 0xA0,
            decreases 0xA0 - i,
        {
            let b = self.rb(base + i);
            self.ppu.wb(0xFE00 + i, b);
            i = i + 1;
        }
    }

    /// 16-bit read, low byte first.
    pub fn rw(&self, address: u16) -> (r: u16)
        requires
            self@.wf(),
        ensures
            r == mmu_rw_spec(self@, address),
    {
        let low = self.rb(address);
        let high = self.rb(address.wrapping_add(1));
        low as u16 + high as u16 * 256
    }

    /// 16-bit write, low byte first.
    pub fn ww(&mut self, a: u16, v: u16)
        requires
            old(self)@.wf(),
        ensures
            final(self)@ == mmu_ww_spec(old(self)@, a, v),
            final(self)@.wf(),
    {
        self.wb(a, (v % 256) as u8);
        self.wb(a.wrapping_add(1), (v / 256) as u8);
    }

    /// Advance the peripherals by `c` dot-clocks and collect the
    /// interrupts they raised into IF.
    pub fn tick(&mut self, c: u32)
        requires
            old(self)@.wf(),
            c <= 0xFFFF_FC00,
        ensures
            final(self)@.wf(),
            final(self)@.cart == old(self)@.cart,
            final(self).inte == old(self).inte,
            final(self).serial_data == old(self).serial_data,
            final(self).joypad == (Joypad { interrupt: 0, ..old(self).joypad }),
            final(self).timer == (Timer { interrupt: 0, ..timer_after(old(self).timer, c) }),
            final(self)@.ppu == (PpuView {
                buffer: final(self)@.ppu.buffer,
                bgprio: final(self)@.ppu.bgprio,
                interrupt: 0,
                ..crate::ppu::do_cycle_rest(old(self)@.ppu, c)
            }),
            final(self).intf == ((old(self).intf | timer_after(old(self).timer, c).interrupt)
                | crate::ppu::do_cycle_rest(old(self)@.ppu, c).interrupt) | old(
                self,
            ).joypad.interrupt,
            final(self).intf & old(self).intf == old(self).intf,
            old(self)@.ppu.ly >= 144 ==> final(self)@.ppu.buffer == old(self)@.ppu.buffer
                || final(self)@.ppu.ly < 144,
            ({
                let p = old(self)@.ppu;
                let q = final(self)@.ppu;
                let win_on = p.lcdc & crate::ppu::WIN_ON != 0 && p.wy_trigger && p.winx <= 166;
                let rendered = q.ly < 144 && q.clock < 81 && p.lcds & 3 != 0;
                let base = q.ly * 480;
                &&& (rendered && !win_on && p.lcdc & crate::ppu::SPRITE_ON == 0 && p.lcdc
                    & crate::ppu::BG_WIN_ENABLE != 0 ==> (forall|i: int|
                    base <= i < base + 480 ==> #[trigger] q.buffer[i] == p.palb[crate::ppu::bg_colnr(
                        p.vram,
                        p.lcdc,
                        p.scx,
                        p.scy,
                        q.ly,
                        (i - base) / 3,
                    ) as int]))
                &&& (rendered && !win_on && p.lcdc & crate::ppu::SPRITE_ON == 0 && p.lcdc
                    & crate::ppu::BG_WIN_ENABLE == 0 ==> (forall|i: int|
                    base <= i < base + 480 ==> #[trigger] q.buffer[i] == 0xFF))
            }),
    {
        self.timer.do_cycle(c);
        let ghost ti = self.timer.interrupt;
        self.intf = self.intf | self.timer.interrupt;
        self.timer.interrupt = 0;

        self.ppu.do_cycle(c);
        let ghost pi = self.ppu.interrupt;
        self.intf = self.intf | self.ppu.interrupt;
        self.ppu.interrupt = 0;

        let ghost ji = self.joypad.interrupt;
        self.intf = self.intf | self.joypad.interrupt;
        self.joypad.interrupt = 0;

        proof {
            lemma_or3_keeps(old(self).intf, ti, pi, ji);
        }
    }
}

/// ORing more bits into a byte keeps every bit it already had.
proof fn lemma_or3_keeps(x: u8, a: u8, b: u8, c: u8)
    by (bit_vector)
    ensures
        (((x | a) | b) | c) & x == x,
{
}

/// Both bytes of a word at `a` fall inside one plain RAM region (VRAM,
/// WRAM or HRAM), where reads and writes are simple array accesses.
pub open spec fn word_in_ram(a: u16) -> bool {
    (0x8000 <= a < 0x9FFF) || (0xC000 <= a < 0xDFFF) || (0xFF80 <= a < 0xFFFE)
}

/// Writing a word to VRAM, WRAM or HRAM and reading it back returns the
/// word, unchanged, with its bytes in low-high order.
pub proof fn lemma_word_round_trip(m: MmuView, a: u16, v: u16)
    requires
        m.wf(),
        word_in_ram(a),
    ensures
        mmu_rw_spec(mmu_ww_spec(m, a, v), a) == v,
{
    let m2 = mmu_ww_spec(m, a, v);
    assert(mmu_rb_spec(m2, a) == v % 256);
    assert(mmu_rb_spec(m2, add_one_16(a)) == v / 256);
}

} // verus!
