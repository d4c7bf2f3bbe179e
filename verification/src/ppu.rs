//! Pixel-processing unit: LCD register file, the per-line mode state
//! machine driven by a 456-dot line clock, and the scanline renderer that
//! fills the 160x144 RGB framebuffer (three equal bytes per pixel, one of
//! the four DMG shades 0x00, 0x60, 0xC0, 0xFF).

use crate::util::filled;
use vstd::prelude::*;

verus! {

pub const SCREEN_W: usize = 160;

pub const SCREEN_H: usize = 144;

// STAT (FF41) bits.
pub const LYC_INTE: u8 = 0x40;

pub const M2_INTE: u8 = 0x20;

pub const M1_INTE: u8 = 0x10;

pub const M0_INTE: u8 = 0x08;

// LCDC (FF40) bits.
pub const LCD_ON: u8 = 0x80;

pub const WIN_TILEMAP: u8 = 0x40;

pub const WIN_ON: u8 = 0x20;

pub const TILE_DATA: u8 = 0x10;

pub const BG_TILEMAP: u8 = 0x08;

pub const SPRITE_SIZE: u8 = 0x04;

pub const SPRITE_ON: u8 = 0x02;

pub const BG_WIN_ENABLE: u8 = 0x01;

/// Background priority of a pixel: whether the background colour index
/// there was 0 (sprites behind the background still show over it).
#[derive(Clone, Copy, PartialEq, Eq, Structural)]
pub enum Priority {
    Color0,
    Normal,
}

pub struct Ppu {
    pub lcds: u8,
    pub lcdc: u8,
    pub ly: u8,
    pub lyc: u8,
    pub scy: u8,
    pub scx: u8,
    pub winy: u8,
    pub winx: u8,
    pub clock: u32,
    pub wy_trigger: bool,
    pub wy_pos: i32,
    pub palbr: u8,
    pub pal0r: u8,
    pub pal1r: u8,
    pub palb: Vec<u8>,
    pub pal0: Vec<u8>,
    pub pal1: Vec<u8>,
    pub vram: Vec<u8>,
    pub voam: Vec<u8>,
    pub bgprio: Vec<Priority>,
    pub buffer: Vec<u8>,
    pub updated: bool,
    pub interrupt: u8,
}

pub ghost struct PpuView {
    pub lcds: u8,
    pub lcdc: u8,
    pub ly: u8,
    pub lyc: u8,
    pub scy: u8,
    pub scx: u8,
    pub winy: u8,
    pub winx: u8,
    pub clock: u32,
    pub wy_trigger: bool,
    pub wy_pos: i32,
    pub palbr: u8,
    pub pal0r: u8,
    pub pal1r: u8,
    pub palb: Seq<u8>,
    pub pal0: Seq<u8>,
    pub pal1: Seq<u8>,
    pub vram: Seq<u8>,
    pub voam: Seq<u8>,
    pub bgprio: Seq<Priority>,
    pub buffer: Seq<u8>,
    pub updated: bool,
    pub interrupt: u8,
}

impl View for Ppu {
    type V = PpuView;

    open spec fn view(&self) -> PpuView {
        PpuView {
            lcds: self.lcds,
            lcdc: self.lcdc,
            ly: self.ly,
            lyc: self.lyc,
            scy: self.scy,
            scx: self.scx,
            winy: self.winy,
            winx: self.winx,
            clock: self.clock,
            wy_trigger: self.wy_trigger,
            wy_pos: self.wy_pos,
            palbr: self.palbr,
            pal0r: self.pal0r,
            pal1r: self.pal1r,
            palb: self.palb@,
            pal0: self.pal0@,
            pal1: self.pal1@,
            vram: self.vram@,
            voam: self.voam@,
            bgprio: self.bgprio@,
            buffer: self.buffer@,
            updated: self.updated,
            interrupt: self.interrupt,
        }
    }
}

/// One of the four DMG luminance values.
pub open spec fn is_shade(b: u8) -> bool {
    b == 0x00 || b == 0x60 || b == 0xC0 || b == 0xFF
}

/// Shade for palette-register `value` at colour index `i`.
pub open spec fn pal_shade(value: u8, i: int) -> u8 {
    if (value >> (2 * i)) & 0x03 == 0 {
        0xFF
    } else if (value >> (2 * i)) & 0x03 == 1 {
        0xC0
    } else if (value >> (2 * i)) & 0x03 == 2 {
        0x60
    } else {
        0x00
    }
}

/// The mode the schedule assigns to a line clock value, for LY < 144:
/// HBlank in the last 81 dots, pixel transfer before that, OAM scan first.
pub open spec fn scheduled_mode(clock: u32) -> u8 {
    if clock < 81 {
        0
    } else if clock < 253 {
        3
    } else {
        2
    }
}

/// Whether the window draws on this line: window enabled, its Y trigger
/// latched, and WX on screen.
pub open spec fn window_active(p: PpuView) -> bool {
    p.lcdc & WIN_ON != 0 && p.wy_trigger && p.winx <= 166
}

/// 32-bit signed wrapping increment (the window line counter).
pub open spec fn wy_inc(w: i32) -> i32 {
    if w == i32::MAX {
        i32::MIN
    } else {
        (w + 1) as i32
    }
}

/// All state except the render targets (framebuffer, background priority
/// line, window line counter) is the same in `b` as in `a`.
pub open spec fn render_untouched(a: PpuView, b: PpuView) -> bool {
    b == (PpuView { buffer: b.buffer, bgprio: b.bgprio, wy_pos: b.wy_pos, ..a })
}

/// `b` is `a` with changes confined to framebuffer row `row`.
pub open spec fn row_frame(a: Seq<u8>, b: Seq<u8>, row: int) -> bool {
    &&& b.len() == a.len()
    &&& forall|i: int|
        0 <= i < a.len() && !(row * 480 <= i < (row + 1) * 480) ==> a[i] == #[trigger] b[i]
}

/// Register byte read from the PPU: VRAM, OAM, or one of the LCD
/// registers; anything else in its ranges reads 0xFF.
pub open spec fn ppu_rb_spec(p: PpuView, a: u16) -> u8 {
    if 0x8000 <= a < 0xA000 {
        p.vram[a - 0x8000]
    } else if 0xFE00 <= a < 0xFEA0 {
        p.voam[a - 0xFE00]
    } else if a == 0xFF40 {
        p.lcdc
    } else if a == 0xFF41 {
        p.lcds
    } else if a == 0xFF42 {
        p.scy
    } else if a == 0xFF43 {
        p.scx
    } else if a == 0xFF44 {
        p.ly
    } else if a == 0xFF45 {
        p.lyc
    } else if a == 0xFF47 {
        p.palbr
    } else if a == 0xFF48 {
        p.pal0r
    } else if a == 0xFF49 {
        p.pal1r
    } else if a == 0xFF4A {
        p.winy
    } else if a == 0xFF4B {
        p.winx
    } else {
        0xFF
    }
}

/// State after the LYC coincidence check: the STAT interrupt is requested
/// when LYC_INTE is set and LY equals LYC.
pub open spec fn coincidence_spec(p: PpuView) -> PpuView {
    if p.lcds & LYC_INTE != 0 && p.ly == p.lyc {
        PpuView { interrupt: p.interrupt | 0x02, ..p }
    } else {
        p
    }
}

/// State after the line-clock step of a PPU tick: on underflow the clock
/// reloads, LY steps with its coincidence check, and VBlank is entered at
/// LY 144 (frame flag, VBlank interrupt, window trigger cleared, STAT
/// interrupt when M1_INTE is set).
pub open spec fn do_cycle_reload(p: PpuView, ticks: u32) -> PpuView {
    if ticks > p.clock {
        let q = coincidence_spec(PpuView { clock: 456, ly: (((p.ly + 1) % 154) as u8), ..p });
        if q.ly >= 144 && q.lcds & 3 != 1 {
            PpuView {
                lcds: (q.lcds & !3) | 1,
                wy_trigger: false,
                updated: true,
                interrupt: if q.lcds & M1_INTE != 0 {
                    q.interrupt | 0x01 | 0x02
                } else {
                    q.interrupt | 0x01
                },
                ..q
            }
        } else {
            q
        }
    } else {
        PpuView { clock: (p.clock - ticks) as u32, ..p }
    }
}

/// Everything a PPU tick determines outside the two render targets (the
/// framebuffer and the background-priority line): the reload step above,
/// then the mode-schedule entry for visible lines with its STAT requests,
/// window latching and window-line advance.
pub open spec fn do_cycle_rest(p: PpuView, ticks: u32) -> PpuView {
    let q = do_cycle_reload(p, ticks);
    if q.ly < 144 && q.lcds & 3 != scheduled_mode(q.clock) {
        if scheduled_mode(q.clock) == 0 {
            PpuView {
                lcds: q.lcds & !3,
                interrupt: if q.lcds & M0_INTE != 0 {
                    q.interrupt | 0x02
                } else {
                    q.interrupt
                },
                wy_pos: if window_active(q) {
                    wy_inc(q.wy_pos)
                } else {
                    q.wy_pos
                },
                ..q
            }
        } else if scheduled_mode(q.clock) == 3 {
            PpuView {
                lcds: (q.lcds & !3) | 3,
                wy_trigger: q.wy_trigger || q.ly == q.winy,
                wy_pos: if !q.wy_trigger && q.ly == q.winy {
                    -1i32
                } else {
                    q.wy_pos
                },
                ..q
            }
        } else {
            PpuView {
                lcds: (q.lcds & !3) | 2,
                interrupt: if q.lcds & M2_INTE != 0 {
                    q.interrupt | 0x02
                } else {
                    q.interrupt
                },
                ..q
            }
        }
    } else {
        q
    }
}

/// The three palette lookup tables recomputed from their registers.
pub open spec fn update_pal_spec(p: PpuView) -> PpuView {
    PpuView {
        palb: Seq::new(4, |i: int| pal_shade(p.palbr, i)),
        pal0: Seq::new(4, |i: int| pal_shade(p.pal0r, i)),
        pal1: Seq::new(4, |i: int| pal_shade(p.pal1r, i)),
        ..p
    }
}

/// State after a write to LCDC: turning the LCD off resets the line state
/// and whites the framebuffer; turning it on enters OAM scan near the top
/// of a line.
pub open spec fn lcdc_write_spec(p: PpuView, v: u8) -> PpuView {
    let q = PpuView { lcdc: v, ..p };
    if p.lcdc & LCD_ON != 0 && v & LCD_ON == 0 {
        PpuView {
            clock: 456,
            ly: 0,
            lcds: p.lcds & !3,
            wy_trigger: false,
            buffer: Seq::new(p.buffer.len(), |i: int| 0xFFu8),
            updated: true,
            ..q
        }
    } else if p.lcdc & LCD_ON == 0 && v & LCD_ON != 0 {
        PpuView {
            lcds: (p.lcds & !3) | 2,
            interrupt: if p.lcds & M2_INTE != 0 {
                p.interrupt | 0x02
            } else {
                p.interrupt
            },
            clock: 452,
            ..q
        }
    } else {
        q
    }
}

/// State after a PPU register or memory write. LY (FF44) is read-only and
/// the write is dropped, as are writes to unhandled addresses.
pub open spec fn ppu_wb_spec(p: PpuView, a: u16, v: u8) -> PpuView {
    if 0x8000 <= a < 0xA000 {
        PpuView { vram: p.vram.update(a - 0x8000, v), ..p }
    } else if 0xFE00 <= a < 0xFEA0 {
        PpuView { voam: p.voam.update(a - 0xFE00, v), ..p }
    } else if a == 0xFF40 {
        lcdc_write_spec(p, v)
    } else if a == 0xFF41 {
        PpuView { lcds: v, ..p }
    } else if a == 0xFF42 {
        PpuView { scy: v, ..p }
    } else if a == 0xFF43 {
        PpuView { scx: v, ..p }
    } else if a == 0xFF45 {
        coincidence_spec(PpuView { lyc: v, ..p })
    } else if a == 0xFF47 {
        update_pal_spec(PpuView { palbr: v, ..p })
    } else if a == 0xFF48 {
        update_pal_spec(PpuView { pal0r: v, ..p })
    } else if a == 0xFF49 {
        update_pal_spec(PpuView { pal1r: v, ..p })
    } else if a == 0xFF4A {
        PpuView { winy: v, ..p }
    } else if a == 0xFF4B {
        PpuView { winx: v, ..p }
    } else {
        p
    }
}

/// Colour index of the background at screen pixel `x` of line `ly`: the
/// tile named by the selected tilemap under (SCX+x, SCY+ly), decoded at
/// that pixel from its two bit planes in VRAM.
pub open spec fn bg_colnr(vram: Seq<u8>, lcdc: u8, scx: u8, scy: u8, ly: u8, x: int) -> u8 {
    let bgy = vstd::wrapping::u8_specs::wrapping_add(scy, ly);
    let bgtiley = bgy as u16 / 8;
    let bgx = (scx + x) as u16;
    let bgtilex = (bgx / 8) & 31;
    let tilemapbase: u16 = if lcdc & BG_TILEMAP != 0 {
        0x9C00
    } else {
        0x9800
    };
    let tile_num = vram[tilemapbase + bgtiley * 32 + bgtilex - 0x8000];
    let tileaddress: u16 = if lcdc & TILE_DATA != 0 {
        (0x8000 + tile_num as u16 * 16) as u16
    } else {
        (0x8800 + vstd::wrapping::u8_specs::wrapping_add(tile_num, 128) as u16 * 16) as u16
    };
    let addr = (tileaddress + (bgy as u16 & 0b111) * 2) as u16;
    let b1 = vram[addr - 0x8000];
    let b2 = vram[addr + 1 - 0x8000];
    let bit = (7 - ((bgx & 0b111) as u8)) as u32;
    (((b2 >> bit) & 1) << 1u32) | ((b1 >> bit) & 1)
}

/// Colour index of the window at window-space coordinates (`wx`, `wy`):
/// the tile named by the selected window tilemap there, decoded at that
/// pixel from its two bit planes in VRAM.
pub open spec fn win_colnr(vram: Seq<u8>, lcdc: u8, wy: u16, wx: u16) -> u8 {
    let tilemapbase: u16 = if lcdc & WIN_TILEMAP != 0 {
        0x9C00
    } else {
        0x9800
    };
    let wintiley = (wy / 8) & 31;
    let tile_num = vram[tilemapbase + wintiley * 32 + wx / 8 - 0x8000];
    let tileaddress: u16 = if lcdc & TILE_DATA != 0 {
        (0x8000 + tile_num as u16 * 16) as u16
    } else {
        (0x8800 + vstd::wrapping::u8_specs::wrapping_add(tile_num, 128) as u16 * 16) as u16
    };
    let addr = (tileaddress + (wy & 0x07) * 2) as u16;
    let b1 = vram[addr - 0x8000];
    let b2 = vram[addr + 1 - 0x8000];
    let bit = (7 - ((wx as u8) & 0x07)) as u32;
    (((b2 >> bit) & 1) << 1u32) | ((b1 >> bit) & 1)
}

/// Setting the two mode bits leaves the rest of STAT and yields that mode.
proof fn lemma_setmode_bits(l: u8, m: u8)
    by (bit_vector)
    requires
        m < 4,
    ensures
        ((l & !3) | m) & 3 == m,
{
}

/// A 2-bit colour number assembled from two plane bits is below 4.
proof fn lemma_colnr_bound(b1: u8, b2: u8, bit: u8)
    by (bit_vector)
    ensures
        ((((b2 >> bit) & 1) << 1) | ((b1 >> bit) & 1)) < 4,
{
}

impl PpuView {
    /// Geometry of the fixed-size planes, the LY range, the line clock
    /// bound, and the shade discipline of the palettes and framebuffer.
    pub open spec fn wf(&self) -> bool {
        &&& self.palb.len() == 4
        &&& self.pal0.len() == 4
        &&& self.pal1.len() == 4
        &&& (forall|i: int| 0 <= i < 4 ==> is_shade(#[trigger] self.palb[i]))
        &&& (forall|i: int| 0 <= i < 4 ==> is_shade(#[trigger] self.pal0[i]))
        &&& (forall|i: int| 0 <= i < 4 ==> is_shade(#[trigger] self.pal1[i]))
        &&& self.vram.len() == 0x4000
        &&& self.voam.len() == 0xA0
        &&& self.bgprio.len() == 160
        &&& self.buffer.len() == 69120
        &&& (forall|i: int| 0 <= i < 69120 ==> is_shade(#[trigger] self.buffer[i]))
        &&& self.ly < 154
        &&& self.clock <= 456
    }
}

/// Power-on PPU state: LCD registers clear, line clock full, planes
/// zeroed (framebuffer black), no interrupt pending.
pub open spec fn ppu_new_spec() -> PpuView {
    PpuView {
        lcds: 0,
        lcdc: 0,
        ly: 0,
        lyc: 0,
        scy: 0,
        scx: 0,
        winy: 0,
        winx: 0,
        clock: 456,
        wy_trigger: false,
        wy_pos: -1i32,
        palbr: 0,
        pal0r: 0,
        pal1r: 1,
        palb: Seq::new(4, |i: int| 0u8),
        pal0: Seq::new(4, |i: int| 0u8),
        pal1: Seq::new(4, |i: int| 0u8),
        vram: Seq::new(0x4000, |i: int| 0u8),
        voam: Seq::new(0xA0, |i: int| 0u8),
        bgprio: Seq::new(160, |i: int| Priority::Normal),
        buffer: Seq::new(69120, |i: int| 0u8),
        updated: false,
        interrupt: 0,
    }
}

impl Ppu {
    /// Power-on PPU, as `ppu_new_spec` lays it out.
    pub fn new() -> (r: Ppu)
        ensures
            r@ == ppu_new_spec(),
            r@.wf(),
    {
        let r = Ppu {
            lcds: 0,
            lcdc: 0,
            clock: 456,
            ly: 0,
            lyc: 0,
            scy: 0,
            scx: 0,
            winy: 0,
            winx: 0,
            wy_trigger: false,
            wy_pos: -1,
            palbr: 0,
            pal0r: 0,
            pal1r: 1,
            palb: filled(4, 0u8),
            pal0: filled(4, 0u8),
            pal1: filled(4, 0u8),
            vram: filled(0x4000, 0u8),
            voam: filled(0xA0, 0u8),
            bgprio: filled(160, Priority::Normal),
            buffer: filled(SCREEN_W * SCREEN_H * 3, 0u8),
            updated: false,
            interrupt: 0,
        };
        proof {
            assert(r@.palb =~= Seq::new(4, |i: int| 0u8));
            assert(r@.pal0 =~= Seq::new(4, |i: int| 0u8));
            assert(r@.pal1 =~= Seq::new(4, |i: int| 0u8));
            assert(r@.vram =~= Seq::new(0x4000, |i: int| 0u8));
            assert(r@.voam =~= Seq::new(0xA0, |i: int| 0u8));
            assert(r@.bgprio =~= Seq::new(160, |i: int| Priority::Normal));
            assert(r@.buffer =~= Seq::new(69120, |i: int| 0u8));
        }
        r
    }

    /// Whether STAT holds all the bits in `bit`.
    pub fn lcds(&self, bit: u8) -> (r: bool)
        ensures
            r == (self.lcds & bit == bit),
    {
        self.lcds & bit == bit
    }

    /// Whether LCDC holds all the bits in `bit`.
    pub fn lcdc(&self, bit: u8) -> (r: bool)
        ensures
            r == (self.lcdc & bit == bit),
    {
        self.lcdc & bit == bit
    }

    /// The current mode, from the low two STAT bits.
    pub fn mode(&self) -> (r: u8)
        ensures
            r == self.lcds & 3,
            r < 4,
    {
        proof {
            let l = self.lcds;
            assert(l & 3 < 4) by (bit_vector);
        }
        self.lcds & 3
    }

    fn setmode(&mut self, mode: u8)
        requires
            mode < 4,
        ensures
            final(self)@ == (PpuView { lcds: (old(self).lcds & !3) | mode, ..old(self)@ }),
            final(self).lcds & 3 == mode,
    {
        self.lcds = (self.lcds & !3) | mode;
        proof {
            lemma_setmode_bits(old(self).lcds, mode);
        }
    }

    /// Run the LYC coincidence check after LY or LYC changed.
    fn coincidence(&mut self)
        ensures
            final(self)@ == coincidence_spec(old(self)@),
    {
        proof {
            let l = self.lcds;
            assert(l & LYC_INTE == LYC_INTE <==> l & LYC_INTE != 0) by (bit_vector);
        }
        if self.lcds(LYC_INTE) && self.ly == self.lyc {
            self.interrupt = self.interrupt | 0x02;
        }
    }

    pub fn rb(&self, a: u16) -> (r: u8)
        requires
            self@.wf(),
        ensures
            r == ppu_rb_spec(self@, a),
    {
        if 0x8000 <= a && a < 0xA000 {
            self.vram[(a - 0x8000) as usize]
        } else if 0xFE00 <= a && a < 0xFEA0 {
            self.voam[(a - 0xFE00) as usize]
        } else if a == 0xFF40 {
            self.lcdc
        } else if a == 0xFF41 {
            self.lcds
        } else if a == 0xFF42 {
            self.scy
        } else if a == 0xFF43 {
            self.scx
        } else if a == 0xFF44 {
            self.ly
        } else if a == 0xFF45 {
            self.lyc
        } else if a == 0xFF47 {
            self.palbr
        } else if a == 0xFF48 {
            self.pal0r
        } else if a == 0xFF49 {
            self.pal1r
        } else if a == 0xFF4A {
            self.winy
        } else if a == 0xFF4B {
            self.winx
        } else {
            0xFF
        }
    }

    /// Shade for palette register `value` at colour index `index`.
    pub fn get_monochrome_pal_val(value: u8, index: usize) -> (r: u8)
        requires
            index < 4,
        ensures
            r == pal_shade(value, index as int),
            is_shade(r),
    {
        let sel = (value >> (2 * index) as u32) & 0x03;
        if sel == 0 {
            0xFF
        } else if sel == 1 {
            0xC0
        } else if sel == 2 {
            0x60
        } else {
            0x00
        }
    }

    /// Recompute the three palette lookup tables from their registers.
    fn update_pal(&mut self)
        requires
            old(self)@.palb.len() == 4,
            old(self)@.pal0.len() == 4,
            old(self)@.pal1.len() == 4,
        ensures
            final(self)@ == update_pal_spec(old(self)@),
    {
        let mut i: usize = 0;
        while i < 4
            invariant
                i <= 4,
                self@ == (PpuView {
                    palb: self@.palb,
                    pal0: self@.pal0,
                    pal1: self@.pal1,
                    ..old(self)@
                }),
                self@.palb.len() == 4,
                self@.pal0.len() == 4,
                self@.pal1.len() == 4,
                forall|j: int|
                    0 <= j < i ==> #[trigger] self@.palb[j] == pal_shade(old(self)@.palbr, j),
                forall|j: int|
                    0 <= j < i ==> #[trigger] self@.pal0[j] == pal_shade(old(self)@.pal0r, j),
                forall|j: int|
                    0 <= j < i ==> #[trigger] self@.pal1[j] == pal_shade(old(self)@.pal1r, j),
                forall|j: int| i <= j < 4 ==> #[trigger] self@.palb[j] == old(self)@.palb[j],
                forall|j: int| i <= j < 4 ==> #[trigger] self@.pal0[j] == old(self)@.pal0[j],
                forall|j: int| i <= j < 4 ==> #[trigger] self@.pal1[j] == old(self)@.pal1[j],
            decreases 4 - i,
        {
            let vb = Ppu::get_monochrome_pal_val(self.palbr, i);
            self.palb.set(i, vb);
            let v0 = Ppu::get_monochrome_pal_val(self.pal0r, i);
            self.pal0.set(i, v0);
            let v1 = Ppu::get_monochrome_pal_val(self.pal1r, i);
            self.pal1.set(i, v1);
            i = i + 1;
        }
        proof {
            assert(self@.palb =~= Seq::new(4, |j: int| pal_shade(old(self)@.palbr, j)));
            assert(self@.pal0 =~= Seq::new(4, |j: int| pal_shade(old(self)@.pal0r, j)));
            assert(self@.pal1 =~= Seq::new(4, |j: int| pal_shade(old(self)@.pal1r, j)));
        }
    }

    /// White the whole framebuffer and mark it as a fresh frame.
    fn clear_screen(&mut self)
        requires
            old(self)@.buffer.len() == 69120,
        ensures
            final(self)@ == (PpuView {
                buffer: Seq::new(old(self)@.buffer.len(), |i: int| 0xFFu8),
                updated: true,
                ..old(self)@
            }),
    {
        let mut i: usize = 0;
        while i < 69120
            invariant
                i <= 69120,
                self@ == (PpuView { buffer: self@.buffer, ..old(self)@ }),
                self@.buffer.len() == 69120,
                forall|j: int| 0 <= j < i ==> #[trigger] self@.buffer[j] == 0xFF,
                forall|j: int| i <= j < 69120 ==> #[trigger] self@.buffer[j] == old(self)@.buffer[j],
            decreases 69120 - i,
        {
            self.buffer.set(i, 0xFF);
            i = i + 1;
        }
        self.updated = true;
        proof {
            assert(self@.buffer =~= Seq::new(old(self)@.buffer.len(), |i: int| 0xFFu8));
        }
    }

    /// Write the shade into all three bytes of pixel `x` of row LY.
    fn setcolor(&mut self, x: usize, color: u8)
        requires
            old(self)@.wf(),
            old(self).ly < 144,
            x < 160,
            is_shade(color),
        ensures
            final(self)@ == (PpuView {
                buffer: old(self)@.buffer.update(old(self).ly * 480 + x * 3, color).update(
                    old(self).ly * 480 + x * 3 + 1,
                    color,
                ).update(old(self).ly * 480 + x * 3 + 2, color),
                ..old(self)@
            }),
            final(self)@.wf(),
            row_frame(old(self)@.buffer, final(self)@.buffer, old(self).ly as int),
    {
        let base: usize = self.ly as usize * SCREEN_W * 3 + x * 3;
        self.buffer.set(base, color);
        self.buffer.set(base + 1, color);
        self.buffer.set(base + 2, color);
    }

    /// Mode-entry effects. Entering HBlank renders the line; entering
    /// VBlank raises the frame and the VBlank interrupt; entering pixel
    /// transfer latches the window trigger on the first line where LY
    /// meets WY.
    fn change_mode(&mut self, mode: u8)
        requires
            old(self)@.wf(),
            mode < 4,
            mode == 0 ==> old(self).ly < 144,
        ensures
            final(self)@.wf(),
            final(self).lcds == (old(self).lcds & !3) | mode,
            final(self).lcds & 3 == mode,
            mode == 1 ==> final(self)@ == (PpuView {
                lcds: (old(self).lcds & !3) | 1,
                wy_trigger: false,
                updated: true,
                interrupt: if old(self).lcds & M1_INTE != 0 {
                    old(self).interrupt | 0x01 | 0x02
                } else {
                    old(self).interrupt | 0x01
                },
                ..old(self)@
            }),
            mode == 2 ==> final(self)@ == (PpuView {
                lcds: (old(self).lcds & !3) | 2,
                interrupt: if old(self).lcds & M2_INTE != 0 {
                    old(self).interrupt | 0x02
                } else {
                    old(self).interrupt
                },
                ..old(self)@
            }),
            mode == 3 ==> final(self)@ == (PpuView {
                lcds: (old(self).lcds & !3) | 3,
                wy_trigger: old(self).wy_trigger || old(self).ly == old(self).winy,
                wy_pos: if !old(self).wy_trigger && old(self).ly == old(self).winy {
                    -1i32
                } else {
                    old(self).wy_pos
                },
                ..old(self)@
            }),
            mode == 0 ==> final(self)@ == (PpuView {
                lcds: (old(self).lcds & !3),
                buffer: final(self)@.buffer,
                bgprio: final(self)@.bgprio,
                wy_pos: final(self)@.wy_pos,
                interrupt: if old(self).lcds & M0_INTE != 0 {
                    old(self).interrupt | 0x02
                } else {
                    old(self).interrupt
                },
                ..old(self)@
            }),
            mode == 0 ==> row_frame(old(self)@.buffer, final(self)@.buffer, old(self).ly as int)
                && final(self)@.bgprio.len() == 160,
            mode == 0 ==> final(self).wy_pos == (if window_active(old(self)@) {
                wy_inc(old(self).wy_pos)
            } else {
                old(self).wy_pos
            }),
            mode == 0 && !window_active(old(self)@) && old(self).lcdc & SPRITE_ON == 0 && old(
                self,
            ).lcdc & BG_WIN_ENABLE != 0 ==> {
                let p = old(self)@;
                forall|i: int|
                    p.ly * 480 <= i < p.ly * 480 + 480 ==> #[trigger] final(self)@.buffer[i]
                        == p.palb[bg_colnr(p.vram, p.lcdc, p.scx, p.scy, p.ly, (i - p.ly * 480) / 3) as int]
            },
            mode == 0 && !window_active(old(self)@) && old(self).lcdc & SPRITE_ON == 0 && old(
                self,
            ).lcdc & BG_WIN_ENABLE == 0 ==> (forall|i: int|
                old(self).ly * 480 <= i < old(self).ly * 480 + 480
                    ==> #[trigger] final(self)@.buffer[i] == 0xFF),
    {
        self.setmode(mode);

        proof {
            let l = old(self).lcds;
            assert(((l & !3) | 0 == l & !3) && (((l & !3) | 1) & M1_INTE == l & M1_INTE)
                && (((l & !3) | 2) & M2_INTE == l & M2_INTE)
                && (((l & !3) | 0) & M0_INTE == l & M0_INTE)
                && (l & M1_INTE == M1_INTE <==> l & M1_INTE != 0)
                && (l & M2_INTE == M2_INTE <==> l & M2_INTE != 0)
                && (l & M0_INTE == M0_INTE <==> l & M0_INTE != 0)) by (bit_vector);
        }

        let lcd_interrupt: bool;
        if mode == 0 {
            self.renderscan();
            lcd_interrupt = self.lcds(M0_INTE);
        } else if mode == 1 {
            self.wy_trigger = false;
            self.interrupt = self.interrupt | 0x01;
            self.updated = true;
            lcd_interrupt = self.lcds(M1_INTE);
        } else if mode == 2 {
            lcd_interrupt = self.lcds(M2_INTE);
        } else {
            if !self.wy_trigger && self.ly == self.winy {
                self.wy_trigger = true;
                self.wy_pos = -1;
            }
            lcd_interrupt = false;
        }

        if lcd_interrupt {
            self.interrupt = self.interrupt | 0x02;
        }
    }

    /// PPU register or memory write; see `ppu_wb_spec`.
    pub fn wb(&mut self, a: u16, v: u8)
        requires
            old(self)@.wf(),
        ensures
            final(self)@ == ppu_wb_spec(old(self)@, a, v),
            final(self)@.wf(),
    {
        if 0x8000 <= a && a < 0xA000 {
            self.vram.set((a - 0x8000) as usize, v);
        } else if 0xFE00 <= a && a < 0xFEA0 {
            self.voam.set((a - 0xFE00) as usize, v);
        } else if a == 0xFF40 {
            let orig_lcd_on = self.lcdc(LCD_ON);
            self.lcdc = v;
            proof {
                let l = old(self).lcdc;
                assert((l & LCD_ON == LCD_ON <==> l & LCD_ON != 0) && (v & LCD_ON == LCD_ON
                    <==> v & LCD_ON != 0)) by (bit_vector);
            }
            if orig_lcd_on && !self.lcdc(LCD_ON) {
                self.clock = 456;
                self.ly = 0;
                self.setmode(0);
                proof {
                    let l = old(self).lcds;
                    assert((l & !3) | 0 == l & !3) by (bit_vector);
                }
                self.wy_trigger = false;
                self.clear_screen();
            } else if !orig_lcd_on && self.lcdc(LCD_ON) {
                self.change_mode(2);
                self.clock = 452;
            }
        } else if a == 0xFF41 {
            self.lcds = v;
        } else if a == 0xFF42 {
            self.scy = v;
        } else if a == 0xFF43 {
            self.scx = v;
        } else if a == 0xFF45 {
            self.lyc = v;
            self.coincidence();
        } else if a == 0xFF47 {
            self.palbr = v;
            self.update_pal();
        } else if a == 0xFF48 {
            self.pal0r = v;
            self.update_pal();
        } else if a == 0xFF49 {
            self.pal1r = v;
            self.update_pal();
        } else if a == 0xFF4A {
            self.winy = v;
        } else if a == 0xFF4B {
            self.winx = v;
        }
    }

    /// Advance the line clock by `ticks` dots. On underflow the clock
    /// reloads, LY steps (wrapping after line 153) with its coincidence
    /// check, and VBlank is entered at LY 144. Visible lines then follow
    /// the fixed mode schedule for the remaining-dot count.
    pub fn do_cycle(&mut self, ticks: u32)
        requires
            old(self)@.wf(),
        ensures
            final(self)@.wf(),
            final(self)@ == (PpuView {
                buffer: final(self)@.buffer,
                bgprio: final(self)@.bgprio,
                ..do_cycle_rest(old(self)@, ticks)
            }),
            final(self).ly < 144 ==> final(self).lcds & 3 == scheduled_mode(final(self).clock),
            final(self).ly < 144 ==> row_frame(
                old(self)@.buffer,
                final(self)@.buffer,
                final(self).ly as int,
            ),
            final(self).ly >= 144 ==> final(self)@.buffer == old(self)@.buffer,
            ({
                let p = old(self)@;
                let win_on = p.lcdc & WIN_ON != 0 && p.wy_trigger && p.winx <= 166;
                let rendered = final(self).ly < 144 && final(self).clock < 81 && p.lcds & 3 != 0;
                let base = final(self).ly * 480;
                &&& (rendered && !win_on && p.lcdc & SPRITE_ON == 0 && p.lcdc & BG_WIN_ENABLE != 0
                    ==> (forall|i: int|
                    base <= i < base + 480 ==> #[trigger] final(self)@.buffer[i] == p.palb[bg_colnr(
                        p.vram,
                        p.lcdc,
                        p.scx,
                        p.scy,
                        final(self).ly,
                        (i - base) / 3,
                    ) as int]))
                &&& (rendered && !win_on && p.lcdc & SPRITE_ON == 0 && p.lcdc & BG_WIN_ENABLE == 0
                    ==> (forall|i: int|
                    base <= i < base + 480 ==> #[trigger] final(self)@.buffer[i] == 0xFF))
            }),
    {
        let overflow = ticks > self.clock;
        if overflow {
            self.clock = 456;
            self.ly = (self.ly + 1) % 154;
            self.coincidence();

            if self.ly >= 144 && self.mode() != 1 {
                self.change_mode(1);
            }
        } else {
            self.clock = self.clock - ticks;
        }

        if self.ly < 144 {
            if self.clock < 81 {
                if self.mode() != 0 {
                    self.change_mode(0);
                }
            } else if self.clock < 253 {
                if self.mode() != 3 {
                    self.change_mode(3);
                }
            } else {
                if self.mode() != 2 {
                    self.change_mode(2);
                }
            }
        }
    }

    /// Render the current line: white it, then lay down background,
    /// window and sprites in that order.
    pub fn renderscan(&mut self)
        requires
            old(self)@.wf(),
            old(self).ly < 144,
        ensures
            final(self)@.wf(),
            render_untouched(old(self)@, final(self)@),
            row_frame(old(self)@.buffer, final(self)@.buffer, old(self).ly as int),
            final(self)@.bgprio.len() == 160,
            final(self).wy_pos == (if window_active(old(self)@) {
                wy_inc(old(self).wy_pos)
            } else {
                old(self).wy_pos
            }),
            !window_active(old(self)@) && old(self).lcdc & SPRITE_ON == 0 && old(self).lcdc
                & BG_WIN_ENABLE != 0 ==> {
                let p = old(self)@;
                forall|i: int|
                    p.ly * 480 <= i < p.ly * 480 + 480 ==> #[trigger] final(self)@.buffer[i]
                        == p.palb[bg_colnr(p.vram, p.lcdc, p.scx, p.scy, p.ly, (i - p.ly * 480) / 3) as int]
            },
            !window_active(old(self)@) && old(self).lcdc & SPRITE_ON == 0 && old(self).lcdc
                & BG_WIN_ENABLE == 0 ==> (forall|i: int|
                old(self).ly * 480 <= i < old(self).ly * 480 + 480
                    ==> #[trigger] final(self)@.buffer[i] == 0xFF),
    {
        let ghost row: int = old(self).ly as int * 480;
        let mut x: usize = 0;
        while x < 160
            invariant
                old(self)@.wf(),
                old(self).ly < 144,
                x <= 160,
                self@.wf(),
                render_untouched(old(self)@, self@),
                self@.wy_pos == old(self)@.wy_pos,
                row_frame(old(self)@.buffer, self@.buffer, old(self).ly as int),
                self@.bgprio.len() == 160,
                row == old(self).ly as int * 480,
                forall|i: int| row <= i < row + 3 * x ==> #[trigger] self@.buffer[i] == 0xFF,
            decreases 160 - x,
        {
            self.setcolor(x, 255);
            self.bgprio.set(x, Priority::Normal);
            x = x + 1;
        }

        self.draw_bg();
        self.draw_window();
        self.draw_sprites();
    }

    /// Background pass: for each of the 160 pixels, fetch the tile under
    /// (SCX+x, SCY+LY), decode its 2-bit colour, record background
    /// priority, and write the BGP shade.
    fn draw_bg(&mut self)
        requires
            old(self)@.wf(),
            old(self).ly < 144,
        ensures
            final(self)@.wf(),
            render_untouched(old(self)@, final(self)@),
            final(self).wy_pos == old(self).wy_pos,
            row_frame(old(self)@.buffer, final(self)@.buffer, old(self).ly as int),
            final(self)@.bgprio.len() == 160,
            old(self).lcdc & BG_WIN_ENABLE == 0 ==> final(self)@ == old(self)@,
            old(self).lcdc & BG_WIN_ENABLE != 0 ==> {
                let p = old(self)@;
                &&& (forall|j: int|
                    0 <= j < 160 ==> #[trigger] final(self)@.bgprio[j] == (
                    if bg_colnr(p.vram, p.lcdc, p.scx, p.scy, p.ly, j) == 0 {
                        Priority::Color0
                    } else {
                        Priority::Normal
                    }))
                &&& (forall|i: int|
                    p.ly * 480 <= i < p.ly * 480 + 480 ==> #[trigger] final(self)@.buffer[i]
                        == p.palb[bg_colnr(p.vram, p.lcdc, p.scx, p.scy, p.ly, (i - p.ly * 480) / 3) as int])
            },
    {
        proof {
            let l = self.lcdc;
            assert((l & BG_WIN_ENABLE == BG_WIN_ENABLE <==> l & BG_WIN_ENABLE != 0) && (l
                & BG_TILEMAP == BG_TILEMAP <==> l & BG_TILEMAP != 0) && (l & TILE_DATA == TILE_DATA
                <==> l & TILE_DATA != 0)) by (bit_vector);
        }
        if !self.lcdc(BG_WIN_ENABLE) {
            return ;
        }

        let bgy: u8 = self.scy.wrapping_add(self.ly);
        let bgtiley: u16 = bgy as u16 / 8;
        let ghost row: int = old(self).ly as int * 480;

        let mut x: usize = 0;
        while x < 160
            invariant
                old(self)@.wf(),
                old(self).ly < 144,
                old(self).lcdc & BG_WIN_ENABLE != 0,
                x <= 160,
                self@.wf(),
                render_untouched(old(self)@, self@),
                self@.wy_pos == old(self)@.wy_pos,
                row_frame(old(self)@.buffer, self@.buffer, old(self).ly as int),
                self@.bgprio.len() == 160,
                self.scy == old(self).scy,
                self.scx == old(self).scx,
                self.ly == old(self).ly,
                self.lcdc == old(self).lcdc,
                bgtiley < 32,
                bgy == vstd::wrapping::u8_specs::wrapping_add(old(self).scy, old(self).ly),
                bgtiley == bgy as u16 / 8,
                row == old(self).ly as int * 480,
                forall|j: int|
                    0 <= j < x ==> #[trigger] self@.bgprio[j] == (if bg_colnr(
                        old(self)@.vram,
                        old(self).lcdc,
                        old(self).scx,
                        old(self).scy,
                        old(self).ly,
                        j,
                    ) == 0 {
                        Priority::Color0
                    } else {
                        Priority::Normal
                    }),
                forall|j: int| x <= j < 160 ==> #[trigger] self@.bgprio[j] == old(self)@.bgprio[j],
                forall|i: int|
                    row <= i < row + 3 * x ==> #[trigger] self@.buffer[i] == old(self)@.palb[
                        bg_colnr(
                        old(self)@.vram,
                        old(self).lcdc,
                        old(self).scx,
                        old(self).scy,
                        old(self).ly,
                        (i - row) / 3,
                    ) as int],
                forall|i: int|
                    row + 3 * x <= i < row + 480 ==> #[trigger] self@.buffer[i] == old(
                        self,
                    )@.buffer[i],
            decreases 160 - x,
        {
            let bgx: u16 = self.scx as u16 + x as u16;
            let bgtilex: u16 = (bgx / 8) & 31;

            let tilemapbase: u16 = if self.lcdc(BG_TILEMAP) {
                0x9C00
            } else {
                0x9800
            };

            let pixely: u16 = bgy as u16 & 0b111;
            let pixelx: u8 = (bgx & 0b111) as u8;
            proof {
                let b = bgx;
                let by = bgy;
                let l = old(self).lcdc;
                assert((b / 8) & 31 < 32 && (b & 0b111) < 8 && (by as u16) & 0b111 < 8 && (l
                    & BG_TILEMAP == BG_TILEMAP <==> l & BG_TILEMAP != 0) && (l & TILE_DATA
                    == TILE_DATA <==> l & TILE_DATA != 0)) by (bit_vector);
            }

            let tile_num = self.rb(tilemapbase + bgtiley * 32 + bgtilex);

            let tileaddress: u16 = if self.lcdc(TILE_DATA) {
                0x8000 + tile_num as u16 * 16
            } else {
                0x8800 + tile_num.wrapping_add(128) as u16 * 16
            };

            let addr: u16 = tileaddress + pixely * 2;

            let b1 = self.rb(addr);
            let b2 = self.rb(addr + 1);

            let bit: u8 = 7 - pixelx;

            let lo: u8 = (b1 >> bit as u32) & 1;
            let hi: u8 = (b2 >> bit as u32) & 1;

            let colnr: u8 = (hi << 1u32) | lo;
            proof {
                lemma_colnr_bound(b1, b2, bit);
            }

            self.bgprio.set(
                x,
                if colnr == 0 {
                    Priority::Color0
                } else {
                    Priority::Normal
                },
            );

            proof {
                let p = old(self)@;
                assert(colnr == bg_colnr(p.vram, p.lcdc, p.scx, p.scy, p.ly, x as int));
            }

            let color = self.palb[colnr as usize];
            self.setcolor(x, color);
            x = x + 1;
        }
    }

    /// Window pass: when the window is active on this line, advance its
    /// private line counter and redraw every pixel at or right of WX-7
    /// from the window tilemap.
    fn draw_window(&mut self)
        requires
            old(self)@.wf(),
            old(self).ly < 144,
        ensures
            final(self)@.wf(),
            render_untouched(old(self)@, final(self)@),
            row_frame(old(self)@.buffer, final(self)@.buffer, old(self).ly as int),
            final(self)@.bgprio.len() == 160,
            final(self).wy_pos == (if window_active(old(self)@) {
                wy_inc(old(self).wy_pos)
            } else {
                old(self).wy_pos
            }),
            !window_active(old(self)@) ==> final(self)@ == old(self)@,
            window_active(old(self)@) && wy_inc(old(self).wy_pos) < 0 ==> final(self)@ == (PpuView {
                wy_pos: wy_inc(old(self).wy_pos),
                ..old(self)@
            }),
            window_active(old(self)@) && wy_inc(old(self).wy_pos) >= 0 ==> {
                let p = old(self)@;
                let wy16 = wy_inc(p.wy_pos) as u16;
                &&& (forall|j: int|
                    0 <= j < 160 && 7 - p.winx + j >= 0 ==> #[trigger] final(self)@.bgprio[j] == (
                    if win_colnr(p.vram, p.lcdc, wy16, (7 - p.winx + j) as u16) == 0 {
                        Priority::Color0
                    } else {
                        Priority::Normal
                    }))
                &&& (forall|j: int|
                    0 <= j < 160 && 7 - p.winx + j < 0 ==> #[trigger] final(self)@.bgprio[j]
                        == p.bgprio[j])
                &&& (forall|i: int|
                    p.ly * 480 <= i < p.ly * 480 + 480 && 7 - p.winx + (i - p.ly * 480) / 3 >= 0
                        ==> #[trigger] final(self)@.buffer[i] == p.palb[win_colnr(
                        p.vram,
                        p.lcdc,
                        wy16,
                        (7 - p.winx + (i - p.ly * 480) / 3) as u16,
                    ) as int])
                &&& (forall|i: int|
                    p.ly * 480 <= i < p.ly * 480 + 480 && 7 - p.winx + (i - p.ly * 480) / 3 < 0
                        ==> #[trigger] final(self)@.buffer[i] == p.buffer[i])
            },
    {
        let wx_trigger = self.winx <= 166;

        proof {
            let l = self.lcdc;
            assert(l & WIN_ON == WIN_ON <==> l & WIN_ON != 0) by (bit_vector);
        }
        if !(self.lcdc(WIN_ON) && self.wy_trigger && wx_trigger) {
            return ;
        }

        self.wy_pos = self.wy_pos.wrapping_add(1);
        let winy: i32 = self.wy_pos;

        if winy < 0 {
            return ;
        }

        let winy16: u16 = #[verifier::truncate] (winy as u16);
        let wintiley: u16 = (winy16 / 8) & 31;
        let pixely: u16 = winy16 & 0x07;
        proof {
            let w = winy16;
            assert((w / 8) & 31 < 32 && (w & 0x07) < 8) by (bit_vector);
        }

        let ghost row: int = old(self).ly as int * 480;
        let mut x: usize = 0;
        while x < 160
            invariant
                old(self)@.wf(),
                old(self).ly < 144,
                x <= 160,
                self@.wf(),
                render_untouched(old(self)@, self@),
                self@.wy_pos == wy_inc(old(self)@.wy_pos),
                row_frame(old(self)@.buffer, self@.buffer, old(self).ly as int),
                self@.bgprio.len() == 160,
                self.winx == old(self).winx,
                self.ly == old(self).ly,
                self.lcdc == old(self).lcdc,
                wintiley < 32,
                pixely < 8,
                0 <= wy_inc(old(self).wy_pos),
                winy16 == wy_inc(old(self).wy_pos) as u16,
                wintiley == (winy16 / 8) & 31,
                pixely == winy16 & 0x07,
                row == old(self).ly as int * 480,
                forall|j: int|
                    0 <= j < x && 7 - old(self).winx + j >= 0 ==> #[trigger] self@.bgprio[j] == (
                    if win_colnr(
                        old(self)@.vram,
                        old(self).lcdc,
                        winy16,
                        (7 - old(self).winx + j) as u16,
                    ) == 0 {
                        Priority::Color0
                    } else {
                        Priority::Normal
                    }),
                forall|j: int|
                    0 <= j < x && 7 - old(self).winx + j < 0 ==> #[trigger] self@.bgprio[j] == old(
                        self,
                    )@.bgprio[j],
                forall|j: int| x <= j < 160 ==> #[trigger] self@.bgprio[j] == old(self)@.bgprio[j],
                forall|i: int|
                    row <= i < row + 3 * x && 7 - old(self).winx + (i - row) / 3 >= 0
                        ==> #[trigger] self@.buffer[i] == old(self)@.palb[win_colnr(
                        old(self)@.vram,
                        old(self).lcdc,
                        winy16,
                        (7 - old(self).winx + (i - row) / 3) as u16,
                    ) as int],
                forall|i: int|
                    row <= i < row + 3 * x && 7 - old(self).winx + (i - row) / 3 < 0
                        ==> #[trigger] self@.buffer[i] == old(self)@.buffer[i],
                forall|i: int|
                    row + 3 * x <= i < row + 480 ==> #[trigger] self@.buffer[i] == old(
                        self,
                    )@.buffer[i],
            decreases 160 - x,
        {
            let winx: i32 = 7 - self.winx as i32 + x as i32;

            if winx >= 0 {
                let tilemapbase: u16 = if self.lcdc(WIN_TILEMAP) {
                    0x9C00
                } else {
                    0x9800
                };

                let tilex: u16 = winx as u16 / 8;
                let pixelx: u8 = winx as u8 & 0x07;
                proof {
                    let p = winx as u8;
                    let l = old(self).lcdc;
                    assert(p & 0x07 < 8 && (l & WIN_TILEMAP == WIN_TILEMAP <==> l & WIN_TILEMAP
                        != 0) && (l & TILE_DATA == TILE_DATA <==> l & TILE_DATA != 0))
                        by (bit_vector);
                }

                let tile_num = self.rb(tilemapbase + wintiley * 32 + tilex);

                let tileaddress: u16 = if self.lcdc(TILE_DATA) {
                    0x8000 + tile_num as u16 * 16
                } else {
                    0x8800 + tile_num.wrapping_add(128) as u16 * 16
                };

                let addr: u16 = tileaddress + pixely * 2;

                let b1 = self.rb(addr);
                let b2 = self.rb(addr + 1);

                let bit: u8 = 7 - pixelx;

                let lo: u8 = (b1 >> bit as u32) & 1;
                let hi: u8 = (b2 >> bit as u32) & 1;

                let colnr: u8 = (hi << 1u32) | lo;
                proof {
                    lemma_colnr_bound(b1, b2, bit);
                }

                self.bgprio.set(
                    x,
                    if colnr == 0 {
                        Priority::Color0
                    } else {
                        Priority::Normal
                    },
                );

                proof {
                    let p = old(self)@;
                    assert(colnr == win_colnr(p.vram, p.lcdc, winy16, (7 - p.winx + x) as u16));
                }

                let color = self.palb[colnr as usize];
                self.setcolor(x, color);
            }
            x = x + 1;
        }
    }

    /// Sprite pass: pick up to ten sprites covering this line from OAM,
    /// order them so the leftmost (lowest OAM index on ties) is written
    /// last, and blend their non-zero pixels over the line subject to the
    /// background-priority flag.
    fn draw_sprites(&mut self)
        requires
            old(self)@.wf(),
            old(self).ly < 144,
        ensures
            final(self)@.wf(),
            render_untouched(old(self)@, final(self)@),
            final(self).wy_pos == old(self).wy_pos,
            final(self)@.bgprio == old(self)@.bgprio,
            row_frame(old(self)@.buffer, final(self)@.buffer, old(self).ly as int),
            old(self).lcdc & SPRITE_ON == 0 ==> final(self)@ == old(self)@,
            old(self).lcdc & SPRITE_ON != 0 ==> ({
                let p = old(self)@;
                let size: int = if p.lcdc & SPRITE_SIZE != 0 {
                    16
                } else {
                    8
                };
                exists|s: Seq<(i32, i32, u8)>|
                    {
                        &&& (#[trigger] s.to_multiset()) == selected_sprites(
                            p.voam,
                            p.ly as int,
                            size,
                        ).to_multiset()
                        &&& (forall|k: int|
                            0 <= k < s.len() - 1 ==> sprite_le(#[trigger] s[k], s[k + 1]))
                        &&& (forall|i2: int|
                            p.ly * 480 <= i2 < p.ly * 480 + 480
                                ==> #[trigger] final(self)@.buffer[i2] == sprites_fold(
                                p.buffer[i2],
                                p,
                                size,
                                p.ly as int,
                                s,
                                (i2 - p.ly * 480) / 3,
                            ))
                    }
            }),
    {
        proof {
            let l = self.lcdc;
            assert((l & SPRITE_ON == SPRITE_ON <==> l & SPRITE_ON != 0) && (l & SPRITE_SIZE
                == SPRITE_SIZE <==> l & SPRITE_SIZE != 0)) by (bit_vector);
        }
        if !self.lcdc(SPRITE_ON) {
            return ;
        }

        let line: i32 = self.ly as i32;
        let sprite_size: i32 = if self.lcdc(SPRITE_SIZE) {
            16
        } else {
            8
        };

        let mut sprites_to_draw: Vec<(i32, i32, u8)> = Vec::new();

        let mut i: u16 = 0;
        while i < 40 && sprites_to_draw.len() < 10
            invariant
                self@ == old(self)@,
                self@.wf(),
                old(self).ly < 144,
                line == old(self).ly as i32,
                sprite_size == 8 || sprite_size == 16,
                i <= 40,
                sprites_to_draw@.len() <= 10,
                sprites_to_draw@ == sprite_scan(
                    old(self)@.voam,
                    line as int,
                    sprite_size as int,
                    i as nat,
                ),
                forall|k: int|
                    0 <= k < sprites_to_draw@.len() ==> sprite_ok(
                        #[trigger] sprites_to_draw@[k],
                        line as int,
                        sprite_size as int,
                    ),
            decreases 40 - i,
        {
            let spriteaddr: u16 = 0xFE00 + i * 4;
            let spritey: i32 = self.rb(spriteaddr) as i32 - 16;

            if !(line < spritey || line >= spritey + sprite_size) {
                let spritex: i32 = self.rb(spriteaddr + 1) as i32 - 8;
                sprites_to_draw.push((spritex, spritey, i as u8));
            }
            i = i + 1;
        }
        proof {
            let voam = old(self)@.voam;
            let li = line as int;
            let sz = sprite_size as int;
            if i == 40 {
                assert(sprites_to_draw@ == selected_sprites(voam, li, sz));
            } else {
                lemma_scan_prefix(voam, li, sz, i as nat, 40);
                let full = sprite_scan(voam, li, sz, 40);
                if full.len() <= 10 {
                    assert(full.take(sprites_to_draw@.len() as int) =~= full);
                } else {
                    assert(selected_sprites(voam, li, sz) == full.take(10));
                }
                assert(sprites_to_draw@ == selected_sprites(voam, li, sz));
            }
        }

        let ghost collected = sprites_to_draw@;
        sort_sprites(&mut sprites_to_draw);
        proof {
            assert forall|k: int| 0 <= k < sprites_to_draw@.len() implies sprite_ok(
                #[trigger] sprites_to_draw@[k],
                line as int,
                sprite_size as int,
            ) by {
                let e = sprites_to_draw@[k];
                assert(collected.contains(e));
                let j = choose|j: int| 0 <= j < collected.len() && collected[j] == e;
                assert(sprite_ok(collected[j], line as int, sprite_size as int));
            }
        }

        let ghost p0 = old(self)@;
        let ghost size: int = sprite_size as int;
        let ghost row: int = old(self).ly as int * 480;

        let mut s: usize = 0;
        while s < sprites_to_draw.len()
            invariant
                old(self)@.wf(),
                old(self).ly < 144,
                self@.wf(),
                render_untouched(old(self)@, self@),
                self@.wy_pos == old(self)@.wy_pos,
                self@.bgprio == old(self)@.bgprio,
                row_frame(old(self)@.buffer, self@.buffer, old(self).ly as int),
                self.ly == old(self).ly,
                line == old(self).ly as i32,
                sprite_size == 8 || sprite_size == 16,
                p0 == old(self)@,
                size == sprite_size as int,
                row == old(self).ly as int * 480,
                s <= sprites_to_draw@.len(),
                forall|k: int|
                    0 <= k < sprites_to_draw@.len() ==> sprite_ok(
                        #[trigger] sprites_to_draw@[k],
                        line as int,
                        sprite_size as int,
                    ),
                forall|i2: int|
                    row <= i2 < row + 480 ==> #[trigger] self@.buffer[i2] == sprites_fold(
                        p0.buffer[i2],
                        p0,
                        size,
                        line as int,
                        sprites_to_draw@.take(s as int),
                        (i2 - row) / 3,
                    ),
            decreases sprites_to_draw@.len() - s,
        {
            let (spritex, spritey, idx): (i32, i32, u8) = sprites_to_draw[s];
            let ghost e = sprites_to_draw@[s as int];
            let ghost pre = self@.buffer;
            proof {
                assert(sprites_to_draw@.take(s + 1).drop_last() =~= sprites_to_draw@.take(
                    s as int,
                ));
                assert(sprites_to_draw@.take(s + 1).last() == e);
            }

            if !(spritex < -7 || spritex >= 160) {
                let spriteaddr: u16 = 0xFE00 + idx as u16 * 4;
                let tilenum: u16 = (self.rb(spriteaddr + 2) & (if sprite_size == 16 {
                    0xFE
                } else {
                    0xFF
                })) as u16;
                let flags = self.rb(spriteaddr + 3);
                let usepal1: bool = flags & 0x10 != 0;
                let xflip: bool = flags & 0x20 != 0;
                let yflip: bool = flags & 0x40 != 0;
                let belowbg: bool = flags & 0x80 != 0;

                let tiley: u16 = if yflip {
                    (sprite_size - 1 - (line - spritey)) as u16
                } else {
                    (line - spritey) as u16
                };

                let tileaddress: u16 = 0x8000 + tilenum * 16 + tiley * 2;
                let b1 = self.rb(tileaddress);
                let b2 = self.rb(tileaddress + 1);

                let mut x: i32 = 0;
                while x < 8
                    invariant
                        old(self)@.wf(),
                        old(self).ly < 144,
                        self@.wf(),
                        render_untouched(old(self)@, self@),
                        self@.wy_pos == old(self)@.wy_pos,
                        self@.bgprio == old(self)@.bgprio,
                        row_frame(old(self)@.buffer, self@.buffer, old(self).ly as int),
                        self.ly == old(self).ly,
                        0 <= x <= 8,
                        p0 == old(self)@,
                        row == old(self).ly as int * 480,
                        line == old(self).ly as i32,
                        sprite_size == 8 || sprite_size == 16,
                        size == sprite_size as int,
                        sprite_ok(e, line as int, size),
                        e == (spritex, spritey, idx),
                        pre.len() == 69120,
                        flags == p0.voam[4 * e.2 + 3],
                        usepal1 == (flags & 0x10 != 0),
                        xflip == (flags & 0x20 != 0),
                        belowbg == (flags & 0x80 != 0),
                        tileaddress == sprite_row_addr(p0.voam, size, line as int, e),
                        b1 == p0.vram[tileaddress - 0x8000],
                        b2 == p0.vram[tileaddress + 1 - 0x8000],
                        forall|i2: int|
                            row <= i2 < row + 480 ==> #[trigger] self@.buffer[i2] == ({
                                let px = (i2 - row) / 3;
                                if e.0 <= px < e.0 + x && sprite_paints(p0, size, line as int, e, px) {
                                    sprite_shade(p0, size, line as int, e, px)
                                } else {
                                    pre[i2]
                                }
                            }),
                    decreases 8 - x,
                {
                    if !(spritex + x < 0 || spritex + x >= 160) {
                        let xbit: u8 = 1u8 << (if xflip {
                            x
                        } else {
                            7 - x
                        }) as u32;

                        let colnr: usize = (if b1 & xbit != 0 {
                            1
                        } else {
                            0
                        }) + (if b2 & xbit != 0 {
                            2
                        } else {
                            0
                        });
                        proof {
                            assert(colnr == sprite_colnr(
                                p0.vram,
                                p0.voam,
                                size,
                                line as int,
                                e,
                                spritex + x,
                            ));
                        }

                        if colnr != 0 {
                            let sx: usize = (spritex + x) as usize;
                            let prio_ok = !(belowbg && self.bgprio[sx] != Priority::Color0);
                            if prio_ok {
                                let color = if usepal1 {
                                    self.pal1[colnr]
                                } else {
                                    self.pal0[colnr]
                                };
                                proof {
                                    assert(sprite_paints(p0, size, line as int, e, spritex + x));
                                    assert(color == sprite_shade(p0, size, line as int, e, spritex + x));
                                }
                                self.setcolor(sx, color);
                            }
                        }
                    }
                    x = x + 1;
                }
            }
            proof {
                assert forall|i2: int| row <= i2 < row + 480 implies #[trigger] self@.buffer[i2]
                    == sprites_fold(
                    p0.buffer[i2],
                    p0,
                    size,
                    line as int,
                    sprites_to_draw@.take(s + 1),
                    (i2 - row) / 3,
                ) by {
                    let px = (i2 - row) / 3;
                    if spritex < -7 || spritex >= 160 {
                        assert(!(e.0 <= px < e.0 + 8));
                    }
                }
            }
            s = s + 1;
        }
        proof {
            assert(sprites_to_draw@.take(sprites_to_draw@.len() as int) =~= sprites_to_draw@);
            assert(sprites_to_draw@.to_multiset() == selected_sprites(
                p0.voam,
                p0.ly as int,
                size,
            ).to_multiset());
        }
    }
}

/// The sprites among OAM entries 0..i whose vertical span covers `line`,
/// in OAM order: (screen X, screen Y, OAM index), both coordinates after
/// the hardware's -8/-16 offsets.
pub open spec fn sprite_scan(voam: Seq<u8>, line: int, size: int, i: nat) -> Seq<(i32, i32, u8)>
    decreases i,
{
    if i == 0 {
        Seq::empty()
    } else {
        let prev = sprite_scan(voam, line, size, (i - 1) as nat);
        let sy = voam[4 * (i - 1)] - 16;
        if sy <= line < sy + size {
            prev.push((((voam[4 * (i - 1) + 1] - 8) as i32), (sy as i32), ((i - 1) as u8)))
        } else {
            prev
        }
    }
}

/// The up to ten sprites the hardware selects for a line: the first ten
/// OAM entries covering it.
pub open spec fn selected_sprites(voam: Seq<u8>, line: int, size: int) -> Seq<(i32, i32, u8)> {
    let all = sprite_scan(voam, line, size, 40);
    if all.len() <= 10 {
        all
    } else {
        all.take(10)
    }
}

/// A longer OAM scan extends a shorter one: the shorter is its prefix.
proof fn lemma_scan_prefix(voam: Seq<u8>, line: int, size: int, i: nat, j: nat)
    requires
        i <= j,
    ensures
        sprite_scan(voam, line, size, i).len() <= sprite_scan(voam, line, size, j).len(),
        sprite_scan(voam, line, size, j).take(sprite_scan(voam, line, size, i).len() as int)
            == sprite_scan(voam, line, size, i),
    decreases j - i,
{
    let si = sprite_scan(voam, line, size, i);
    if i < j {
        lemma_scan_prefix(voam, line, size, i, (j - 1) as nat);
        assert(sprite_scan(voam, line, size, j).take(si.len() as int) =~= si);
    } else {
        assert(sprite_scan(voam, line, size, j).take(si.len() as int) =~= si);
    }
}

/// Address of the first plane byte of sprite `e`'s tile row on `line`,
/// honouring the Y flip and the 8x16 tile-index mask.
pub open spec fn sprite_row_addr(voam: Seq<u8>, size: int, line: int, e: (i32, i32, u8)) -> u16 {
    let flags = voam[4 * e.2 + 3];
    let tilenum = (voam[4 * e.2 + 2] & (if size == 16 {
        0xFEu8
    } else {
        0xFFu8
    })) as u16;
    let tiley: u16 = if flags & 0x40 != 0 {
        (size - 1 - (line - e.1)) as u16
    } else {
        (line - e.1) as u16
    };
    (0x8000 + tilenum * 16 + tiley * 2) as u16
}

/// Colour index of sprite `e` at screen pixel `x` of `line`, honouring
/// the X flip; 0 where the sprite is transparent.
pub open spec fn sprite_colnr(
    vram: Seq<u8>,
    voam: Seq<u8>,
    size: int,
    line: int,
    e: (i32, i32, u8),
    x: int,
) -> u8 {
    let addr = sprite_row_addr(voam, size, line, e);
    let b1 = vram[addr - 0x8000];
    let b2 = vram[addr + 1 - 0x8000];
    let flags = voam[4 * e.2 + 3];
    let xbit: u8 = if flags & 0x20 != 0 {
        1u8 << ((x - e.0) as u32)
    } else {
        1u8 << ((7 - (x - e.0)) as u32)
    };
    ((if b1 & xbit != 0 {
        1u8
    } else {
        0u8
    }) + (if b2 & xbit != 0 {
        2u8
    } else {
        0u8
    })) as u8
}

/// Whether sprite `e` paints screen pixel `x`: it covers it, is opaque
/// there, and is not held behind non-zero background by its priority
/// flag.
pub open spec fn sprite_paints(p: PpuView, size: int, line: int, e: (i32, i32, u8), x: int) -> bool {
    &&& e.0 <= x < e.0 + 8
    &&& sprite_colnr(p.vram, p.voam, size, line, e, x) != 0
    &&& (p.voam[4 * e.2 + 3] & 0x80 != 0 ==> p.bgprio[x] == Priority::Color0)
}

/// The shade sprite `e` paints at `x`: its colour index through OBP1 or
/// OBP0, by its palette flag.
pub open spec fn sprite_shade(p: PpuView, size: int, line: int, e: (i32, i32, u8), x: int) -> u8 {
    if p.voam[4 * e.2 + 3] & 0x10 != 0 {
        p.pal1[sprite_colnr(p.vram, p.voam, size, line, e, x) as int]
    } else {
        p.pal0[sprite_colnr(p.vram, p.voam, size, line, e, x) as int]
    }
}

/// Shade left at pixel `x` after painting the sprites of `s` in order
/// over a base shade: the last sprite of `s` that paints `x` wins.
pub open spec fn sprites_fold(
    base: u8,
    p: PpuView,
    size: int,
    line: int,
    s: Seq<(i32, i32, u8)>,
    x: int,
) -> u8
    decreases s.len(),
{
    if s.len() == 0 {
        base
    } else {
        if sprite_paints(p, size, line, s.last(), x) {
            sprite_shade(p, size, line, s.last(), x)
        } else {
            sprites_fold(base, p, size, line, s.drop_last(), x)
        }
    }
}

/// A sprite candidate for the current line: on-screen-range X and Y and a
/// valid OAM index, with the line inside the sprite's vertical span.
pub open spec fn sprite_ok(e: (i32, i32, u8), line: int, size: int) -> bool {
    &&& -16 <= e.1 <= 239
    &&& -8 <= e.0 <= 247
    &&& e.2 < 40
    &&& e.1 <= line < e.1 + size
}

/// DMG sprite draw order: later-drawn sprites win, so sort by X
/// descending, ties by OAM index descending.
pub open spec fn sprite_le(a: (i32, i32, u8), b: (i32, i32, u8)) -> bool {
    b.0 < a.0 || (a.0 == b.0 && b.2 <= a.2)
}

/// Comparator form of `sprite_le`, as a sort key.
pub fn dmg_sprite_order(a: &(i32, i32, u8), b: &(i32, i32, u8)) -> (r: core::cmp::Ordering)
    ensures
        r == core::cmp::Ordering::Less <==> (b.0 < a.0 || (a.0 == b.0 && b.2 < a.2)),
        r == core::cmp::Ordering::Equal <==> (a.0 == b.0 && a.2 == b.2),
{
    if a.0 != b.0 {
        if b.0 < a.0 {
            core::cmp::Ordering::Less
        } else {
            core::cmp::Ordering::Greater
        }
    } else {
        if b.2 < a.2 {
            core::cmp::Ordering::Less
        } else if b.2 == a.2 {
            core::cmp::Ordering::Equal
        } else {
            core::cmp::Ordering::Greater
        }
    }
}

/// Whether `cur`, sitting after `prev`, must sink below it: `cur` comes
/// strictly earlier in the DMG sprite order.
fn sprite_sinks(cur: (i32, i32, u8), prev: (i32, i32, u8)) -> (r: bool)
    ensures
        r == (cur.0 > prev.0 || (cur.0 == prev.0 && cur.2 > prev.2)),
        !r ==> sprite_le(prev, cur),
{
    let o = dmg_sprite_order(&cur, &prev);
    matches!(o, core::cmp::Ordering::Less)
}

/// Insertion sort by the DMG sprite order: the result is a permutation
/// of the input (equal as multisets), sorted.
fn sort_sprites(v: &mut Vec<(i32, i32, u8)>)
    ensures
        final(v)@.len() == old(v)@.len(),
        final(v)@.to_multiset() == old(v)@.to_multiset(),
        forall|k: int| 0 <= k < final(v)@.len() ==> old(v)@.contains(#[trigger] final(v)@[k]),
        forall|k: int|
            0 <= k < final(v)@.len() - 1 ==> sprite_le(#[trigger] final(v)@[k], final(v)@[k + 1]),
{
    let ghost orig = v@;
    if v.len() == 0 {
        return ;
    }
    let mut n: usize = 1;
    while n < v.len()
        invariant
            v@.len() == orig.len(),
            v@.to_multiset() == orig.to_multiset(),
            1 <= n <= v@.len(),
            forall|k: int| 0 <= k < v@.len() ==> orig.contains(#[trigger] v@[k]),
            forall|k: int| 0 <= k < n - 1 ==> sprite_le(#[trigger] v@[k], v@[k + 1]),
        decreases v@.len() - n,
    {
        let mut m: usize = n;
        while m > 0 && sprite_sinks(v[m], v[m - 1])
            invariant
                v@.len() == orig.len(),
                v@.to_multiset() == orig.to_multiset(),
                1 <= n < v@.len(),
                m <= n,
                forall|k: int| 0 <= k < v@.len() ==> orig.contains(#[trigger] v@[k]),
                forall|k: int|
                    0 <= k <= n - 1 && k != m - 1 ==> sprite_le(#[trigger] v@[k], v@[k + 1]),
                m < n && m >= 1 ==> sprite_le(v@[m - 1], v@[m + 1]),
            decreases m,
        {
            let ghost before = v@;
            let tmp = v[m];
            let prev = v[m - 1];
            v.set(m, prev);
            v.set(m - 1, tmp);
            proof {
                broadcast use vstd::seq_lib::to_multiset_update;
                broadcast use vstd::seq_lib::group_to_multiset_ensures;

                assert(before.contains(before[m as int]));
                assert(v@.to_multiset() =~= before.to_multiset());
            }
            m = m - 1;
        }
        n = n + 1;
    }
}

} // verus!
