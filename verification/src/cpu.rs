//! CPU: fetch-decode-execute over the full DMG opcode table, the
//! interrupt dispatcher with its deferred-IME latch, and HALT. Every ALU
//! helper carries an exact contract for its value and for the flag vector
//! it leaves in F.

use crate::mmu::{mmu_rb_spec, mmu_rw_spec, mmu_wb_spec, mmu_ww_spec, Mmu, MmuView};
use crate::registers::{
    add_one_16, pair, sethl_h, sethl_l, set_flag_in, sub_one_16, Flag, Register, Registers,
};
use vstd::prelude::*;

verus! {

/// Branch conditions of the conditional jumps, calls and returns.
pub enum Condition {
    NZ,
    Z,
    NC,
    C,
}

pub struct Cpu {
    pub ime: bool,
    pub mmu: Mmu,
    pub setei: u8,
    pub setdi: u8,
    pub reg: Registers,
    pub halted: bool,
}

/// F built from the four flag bits.
pub open spec fn flags_u8(z: bool, n: bool, h: bool, c: bool) -> u8 {
    (if z {
        0x80u8
    } else {
        0u8
    }) | (if n {
        0x40u8
    } else {
        0u8
    }) | (if h {
        0x20u8
    } else {
        0u8
    }) | (if c {
        0x10u8
    } else {
        0u8
    })
}

/// The Z flag of `f`.
pub open spec fn zf(f: u8) -> bool {
    f & 0x80 != 0
}

/// The N flag of `f`.
pub open spec fn nf(f: u8) -> bool {
    f & 0x40 != 0
}

/// The H flag of `f`.
pub open spec fn hf(f: u8) -> bool {
    f & 0x20 != 0
}

/// The C flag of `f`.
pub open spec fn cf(f: u8) -> bool {
    f & 0x10 != 0
}

/// Setting Z, N, H and C in that order writes exactly the flag vector.
proof fn lemma_flags_znhc(f: u8, z: bool, n: bool, h: bool, c: bool)
    by (bit_vector)
    ensures
        set_flag_in(set_flag_in(set_flag_in(set_flag_in(f, 0x80, z), 0x40, n), 0x20, h), 0x10, c)
            == flags_u8(z, n, h, c),
{
}

/// Setting Z, N and H leaves C as it was in `f`.
proof fn lemma_flags_znh(f: u8, z: bool, n: bool, h: bool)
    by (bit_vector)
    ensures
        set_flag_in(set_flag_in(set_flag_in(f, 0x80, z), 0x40, n), 0x20, h) == flags_u8(
            z,
            n,
            h,
            f & 0x10 != 0,
        ),
{
}

/// Setting N, H and C leaves Z as it was in `f`.
proof fn lemma_flags_nhc(f: u8, n: bool, h: bool, c: bool)
    by (bit_vector)
    ensures
        set_flag_in(set_flag_in(set_flag_in(f, 0x40, n), 0x20, h), 0x10, c) == flags_u8(
            f & 0x80 != 0,
            n,
            h,
            c,
        ),
{
}

/// Setting C, H and Z (the DAA order) leaves N as it was in `f`.
proof fn lemma_flags_chz(f: u8, z: bool, h: bool, c: bool)
    by (bit_vector)
    ensures
        set_flag_in(set_flag_in(set_flag_in(f, 0x10, c), 0x20, h), 0x80, z) == flags_u8(
            z,
            f & 0x40 != 0,
            h,
            c,
        ),
{
}

// Shift and rotate results, one spec per CB operation.
pub open spec fn rlc_val(a: u8) -> u8 {
    (a << 1) | (if a & 0x80 == 0x80 {
        1u8
    } else {
        0u8
    })
}

pub open spec fn rrc_val(a: u8) -> u8 {
    (a >> 1) | (if a & 0x01 == 0x01 {
        0x80u8
    } else {
        0u8
    })
}

pub open spec fn rl_val(a: u8, c: bool) -> u8 {
    (a << 1) | (if c {
        1u8
    } else {
        0u8
    })
}

pub open spec fn rr_val(a: u8, c: bool) -> u8 {
    (a >> 1) | (if c {
        0x80u8
    } else {
        0u8
    })
}

pub open spec fn sla_val(a: u8) -> u8 {
    a << 1
}

pub open spec fn sra_val(a: u8) -> u8 {
    (a >> 1) | (a & 0x80)
}

pub open spec fn srl_val(a: u8) -> u8 {
    a >> 1
}

pub open spec fn swap_val(a: u8) -> u8 {
    (a << 4) | (a >> 4)
}

/// Value of CB shift/rotate operation `i` on `a` with carry-in `c`.
pub open spec fn shift_val(i: u8, a: u8, c: bool) -> u8 {
    if i == 0 {
        rlc_val(a)
    } else if i == 1 {
        rrc_val(a)
    } else if i == 2 {
        rl_val(a, c)
    } else if i == 3 {
        rr_val(a, c)
    } else if i == 4 {
        sla_val(a)
    } else if i == 5 {
        sra_val(a)
    } else if i == 6 {
        swap_val(a)
    } else {
        srl_val(a)
    }
}

/// Carry-out of CB shift/rotate operation `i` on `a`.
pub open spec fn shift_carry(i: u8, a: u8) -> bool {
    if i == 0 || i == 2 || i == 4 {
        a & 0x80 == 0x80
    } else if i == 6 {
        false
    } else {
        a & 0x01 == 0x01
    }
}

/// A swapped byte is zero exactly when the byte was zero.
proof fn lemma_swap_zero(a: u8)
    by (bit_vector)
    ensures
        (((a << 4) | (a >> 4)) == 0) <==> a == 0,
{
}

/// The DAA adjustment constant chosen from A and the N, H, C flags.
pub open spec fn daa_adjust(a: u8, n: bool, h: bool, c: bool) -> u8 {
    let base: u8 = if c {
        0x60u8
    } else {
        0u8
    };
    let with_h: u8 = if h {
        base | 0x06
    } else {
        base
    };
    if !n {
        let with_low: u8 = if a & 0x0F > 0x09 {
            with_h | 0x06
        } else {
            with_h
        };
        if a > 0x99 {
            with_low | 0x60
        } else {
            with_low
        }
    } else {
        with_h
    }
}

/// A after DAA.
pub open spec fn daa_val(a: u8, n: bool, h: bool, c: bool) -> u8 {
    if !n {
        vstd::wrapping::u8_specs::wrapping_add(a, daa_adjust(a, n, h, c))
    } else {
        vstd::wrapping::u8_specs::wrapping_sub(a, daa_adjust(a, n, h, c))
    }
}

/// Carry flag after DAA.
pub open spec fn daa_carry(a: u8, n: bool, h: bool, c: bool) -> bool {
    daa_adjust(a, n, h, c) >= 0x60
}

/// The value an operand register reads as (`Hlm`, `Hli` and `Hld` all read
/// HL; the post-increment and post-decrement are in `readreg_regs`).
pub open spec fn readreg_val(rg: Registers, reg: Register) -> u16 {
    match reg {
        Register::A => rg.a as u16,
        Register::B => rg.b as u16,
        Register::C => rg.c as u16,
        Register::D => rg.d as u16,
        Register::E => rg.e as u16,
        Register::H => rg.h as u16,
        Register::L => rg.l as u16,
        Register::AF => pair(rg.a, rg.f & 0xF0),
        Register::BC => pair(rg.b, rg.c),
        Register::DE => pair(rg.d, rg.e),
        Register::HL => pair(rg.h, rg.l),
        Register::Hlm => pair(rg.h, rg.l),
        Register::Hli => pair(rg.h, rg.l),
        Register::Hld => pair(rg.h, rg.l),
        Register::SP => rg.sp,
    }
}

/// The register file after reading an operand register: `Hli` and `Hld`
/// step HL, everything else leaves the file alone.
pub open spec fn readreg_regs(rg: Registers, reg: Register) -> Registers {
    match reg {
        Register::Hli => Registers {
            h: sethl_h(add_one_16(pair(rg.h, rg.l))),
            l: sethl_l(add_one_16(pair(rg.h, rg.l))),
            ..rg
        },
        Register::Hld => Registers {
            h: sethl_h(sub_one_16(pair(rg.h, rg.l))),
            l: sethl_l(sub_one_16(pair(rg.h, rg.l))),
            ..rg
        },
        _ => rg,
    }
}

/// The register file after writing `val` to an operand register. 8-bit
/// targets take the low byte; AF masks F to its high nibble.
pub open spec fn setreg_spec(rg: Registers, reg: Register, val: u16) -> Registers {
    match reg {
        Register::A => Registers { a: sethl_l(val), ..rg },
        Register::B => Registers { b: sethl_l(val), ..rg },
        Register::C => Registers { c: sethl_l(val), ..rg },
        Register::D => Registers { d: sethl_l(val), ..rg },
        Register::E => Registers { e: sethl_l(val), ..rg },
        Register::H => Registers { h: sethl_l(val), ..rg },
        Register::L => Registers { l: sethl_l(val), ..rg },
        Register::AF => Registers { a: sethl_h(val), f: (sethl_l(val) & 0xF0) as u8, ..rg },
        Register::BC => Registers { b: sethl_h(val), c: sethl_l(val), ..rg },
        Register::DE => Registers { d: sethl_h(val), e: sethl_l(val), ..rg },
        Register::HL => Registers { h: sethl_h(val), l: sethl_l(val), ..rg },
        Register::Hli => Registers { h: sethl_h(val), l: sethl_l(val), ..rg },
        Register::Hld => Registers { h: sethl_h(val), l: sethl_l(val), ..rg },
        Register::Hlm => rg,
        Register::SP => Registers { sp: val, ..rg },
    }
}

/// Whether `reg` is an 8-bit operand of the `r8` group, `(HL)` included.
pub open spec fn is_r8_operand(reg: Register) -> bool {
    match reg {
        Register::A => true,
        Register::B => true,
        Register::C => true,
        Register::D => true,
        Register::E => true,
        Register::H => true,
        Register::L => true,
        Register::Hlm => true,
        _ => false,
    }
}

/// Everything outside the register file is the same in `b` as in `a`.
pub open spec fn cpu_same_except_reg(a: Cpu, b: Cpu) -> bool {
    &&& b.mmu == a.mmu
    &&& b.ime == a.ime
    &&& b.setei == a.setei
    &&& b.setdi == a.setdi
    &&& b.halted == a.halted
}

/// Everything outside the register file and memory is the same in `b`.
pub open spec fn cpu_same_except_reg_mem(a: Cpu, b: Cpu) -> bool {
    &&& b.ime == a.ime
    &&& b.setei == a.setei
    &&& b.setdi == a.setdi
    &&& b.halted == a.halted
}

/// Index of the lowest set bit of a non-zero byte.
pub open spec fn lowest_bit(t: u8) -> u8 {
    if t & 0x01 != 0 {
        0
    } else if t & 0x02 != 0 {
        1
    } else if t & 0x04 != 0 {
        2
    } else if t & 0x08 != 0 {
        3
    } else if t & 0x10 != 0 {
        4
    } else if t & 0x20 != 0 {
        5
    } else if t & 0x40 != 0 {
        6
    } else {
        7
    }
}

/// IME after the deferred-latch tick at the head of a step.
pub open spec fn ime_after_latch(c: Cpu) -> bool {
    if c.setei == 1 {
        true
    } else if c.setdi == 1 {
        false
    } else {
        c.ime
    }
}

/// Whether this step vectors to an interrupt handler instead of fetching.
pub open spec fn step_dispatches(c: Cpu) -> bool {
    ime_after_latch(c) && c.mmu.inte & c.mmu.intf != 0
}

/// Whether this step stays halted (halted with nothing pending).
pub open spec fn step_stays_halted(c: Cpu) -> bool {
    !step_dispatches(c) && c.halted && c.mmu.inte & c.mmu.intf == 0
}

/// Whether this step fetches and executes an opcode.
pub open spec fn step_fetches(c: Cpu) -> bool {
    !step_dispatches(c) && !step_stays_halted(c)
}

/// Whether branch-condition field `cc` holds for flag byte `f`.
pub open spec fn cond_holds(cc: u8, f: u8) -> bool {
    decode_condition_spec(cc).holds(f)
}

/// Machine cycles of a CB-prefixed instruction, prefix included: BIT on
/// `(HL)` costs 3, the other `(HL)` forms 4, register forms 2.
pub open spec fn cb_cycles(cb: u8) -> u32 {
    let base: u32 = if cb >> 6 == 1 {
        if cb & 7 == 6 {
            3
        } else {
            2
        }
    } else {
        if cb & 7 == 6 {
            4
        } else {
            2
        }
    };
    (1 + base) as u32
}

/// Machine cycles of the instruction `op`, given the byte after it (`cb`,
/// read only when `op` is the CB prefix) and the flag byte `f` the
/// conditional jumps, calls and returns test.
pub open spec fn instr_cycles(op: u8, cb: u8, f: u8) -> u32 {
    let z = op & 7;
    let y = (op >> 3) & 7;
    let p = (op >> 4) & 3;
    if op >> 6 == 0 {
        if z == 0 {
            if y == 0 || y == 2 {
                1
            } else if y == 1 || y == 3 {
                3
            } else if cond_holds((op >> 3) & 3, f) {
                3
            } else {
                2
            }
        } else if z == 1 {
            if y & 1 == 0 {
                3
            } else {
                2
            }
        } else if z == 2 || z == 3 {
            2
        } else if z == 4 || z == 5 {
            if y == 6 {
                3
            } else {
                1
            }
        } else if z == 6 {
            if y == 6 {
                3
            } else {
                2
            }
        } else {
            1
        }
    } else if op >> 6 == 1 {
        if op == 0x76 {
            1
        } else if y == 6 || z == 6 {
            3
        } else {
            2
        }
    } else if op >> 6 == 2 {
        if z == 6 {
            3
        } else {
            2
        }
    } else {
        if z == 0 {
            if y < 4 {
                if cond_holds(y, f) {
                    5
                } else {
                    2
                }
            } else if y == 5 {
                4
            } else {
                3
            }
        } else if z == 1 {
            if y & 1 == 0 {
                3
            } else if p == 0 || p == 1 {
                4
            } else if p == 2 {
                1
            } else {
                2
            }
        } else if z == 2 {
            if y < 4 {
                if cond_holds(y, f) {
                    4
                } else {
                    3
                }
            } else if y == 4 || y == 6 {
                2
            } else {
                4
            }
        } else if z == 3 {
            if y == 0 {
                4
            } else if y == 1 {
                cb_cycles(cb)
            } else {
                1
            }
        } else if z == 4 {
            if cond_holds(y, f) {
                6
            } else {
                3
            }
        } else if z == 5 {
            if y & 1 == 0 {
                4
            } else {
                6
            }
        } else if z == 6 {
            2
        } else {
            4
        }
    }
}

/// The eleven encodings the DMG instruction set leaves undefined; the
/// decoder treats meeting one as a fatal programming error, so `fde`
/// requires the opcode at PC to be legal.
pub open spec fn is_legal_opcode(op: u8) -> bool {
    !(op == 0xD3 || op == 0xDB || op == 0xDD || op == 0xE3 || op == 0xE4 || op == 0xEB || op
        == 0xEC || op == 0xED || op == 0xF4 || op == 0xFC || op == 0xFD)
}

/// The power-on F (only Z set) has a clear low nibble.
proof fn lemma_power_on_f_wf()
    by (bit_vector)
    ensures
        0x80u8 & 0x0F == 0,
{
}

/// The power-on register file (post boot ROM).
pub open spec fn power_on_regs() -> Registers {
    Registers {
        pc: 0x100,
        sp: 0xFFFE,
        a: 0x1,
        f: 0x80,
        b: 0xFF,
        c: 0x13,
        d: 0x0,
        e: 0xC1,
        h: 0x84,
        l: 0x03,
    }
}

impl Condition {
    /// Which flag state the condition asks for.
    pub open spec fn holds(&self, f: u8) -> bool {
        match self {
            Condition::C => cf(f),
            Condition::NC => !cf(f),
            Condition::Z => zf(f),
            Condition::NZ => !zf(f),
        }
    }

    pub fn check(&self, context: &Cpu) -> (r: bool)
        ensures
            r == self.holds(context.reg.f),
    {
        let z = context.check_flag(Flag::Z);
        let c = context.check_flag(Flag::C);

        match self {
            Condition::C => c,
            Condition::NC => !c,
            Condition::Z => z,
            Condition::NZ => !z,
        }
    }
}

/// Branch condition from a 2-bit opcode field.
pub fn decode_condition(cond: u8) -> (r: Condition)
    requires
        cond < 4,
    ensures
        r == decode_condition_spec(cond),
{
    match cond {
        0 => Condition::NZ,
        1 => Condition::Z,
        2 => Condition::NC,
        _ => Condition::C,
    }
}

pub open spec fn decode_condition_spec(cond: u8) -> Condition {
    if cond == 0 {
        Condition::NZ
    } else if cond == 1 {
        Condition::Z
    } else if cond == 2 {
        Condition::NC
    } else {
        Condition::C
    }
}

impl Cpu {
    /// Flag-nibble discipline in F and the memory map's invariants.
    pub open spec fn wf(&self) -> bool {
        &&& self.reg.wf()
        &&& self.mmu@.wf()
    }

    /// The finished frame: 160x144 pixels, three bytes each, every byte
    /// one of the four DMG shades.
    pub fn get_gpu_data(&self) -> (r: &Vec<u8>)
        ensures
            r@ == self.mmu@.ppu.buffer,
            self.wf() ==> r@.len() == 69120,
            self.wf() ==> forall|i: int| 0 <= i < r@.len() ==> crate::ppu::is_shade(#[trigger] r@[i]),
    {
        &self.mmu.ppu.buffer
    }

    /// CPU over an empty cartridge slot, with the power-on register file.
    pub fn new() -> (r: Self)
        ensures
            r.wf(),
            r.reg == power_on_regs(),
            !r.ime,
            r.setei == 0,
            r.setdi == 0,
            !r.halted,
            r.mmu@.cart.mbc.rom.len() == 0,
            r.mmu@.inte == 0,
            r.mmu@.intf == 0,
            r.mmu@.ppu == crate::ppu::ppu_new_spec(),
    {
        let r = Cpu {
            mmu: Mmu::new(),
            reg: Registers {
                pc: 0x100,
                sp: 0xFFFE,
                a: 0x1,
                f: 0x80,
                b: 0xFF,
                c: 0x13,
                d: 0x0,
                e: 0xC1,
                h: 0x84,
                l: 0x03,
            },
            ime: false,
            setei: 0,
            setdi: 0,
            halted: false,
        };
        proof {
            lemma_power_on_f_wf();
        }
        r
    }

    /// Reset the CPU core to power-on; memory and peripherals are left to
    /// the caller (loading a ROM replaces the MMU).
    pub fn reset(&mut self)
        ensures
            final(self).reg == power_on_regs(),
            !final(self).ime,
            final(self).setei == 0,
            final(self).setdi == 0,
            !final(self).halted,
            final(self).mmu == old(self).mmu,
            final(self).reg.wf(),
    {
        self.reg = Registers {
            pc: 0x100,
            sp: 0xFFFE,
            a: 0x1,
            f: 0x80,
            b: 0xFF,
            c: 0x13,
            d: 0x0,
            e: 0xC1,
            h: 0x84,
            l: 0x03,
        };
        self.ime = false;
        self.setei = 0;
        self.setdi = 0;
        self.halted = false;
        proof {
            lemma_power_on_f_wf();
        }
    }

    pub fn check_flag(&self, flag: Flag) -> (r: bool)
        ensures
            r == (self.reg.f & crate::registers::flag_mask(flag) != 0),
    {
        self.reg.getflag(flag)
    }

    /// Tick the deferred EI/DI latches: a latch at 1 applies to IME now;
    /// a latch at 2 moves to 1 and applies on the next step.
    fn updateime(&mut self)
        ensures
            cpu_same_except_ime_latch(*old(self), *final(self)),
            final(self).ime == ime_after_latch(*old(self)),
            final(self).setdi == (if old(self).setdi == 2 {
                1u8
            } else {
                0u8
            }),
            final(self).setei == (if old(self).setei == 2 {
                1u8
            } else {
                0u8
            }),
    {
        if self.setdi == 2 {
            self.setdi = 1;
        } else if self.setdi == 1 {
            self.ime = false;
            self.setdi = 0;
        } else {
            self.setdi = 0;
        }

        if self.setei == 2 {
            self.setei = 1;
        } else if self.setei == 1 {
            self.ime = true;
            self.setei = 0;
        } else {
            self.setei = 0;
        }
    }

    fn popstack(&mut self) -> (r: u16)
        requires
            old(self).wf(),
        ensures
            r == mmu_rw_spec(old(self).mmu@, old(self).reg.sp),
            cpu_same_except_reg(*old(self), *final(self)),
            final(self).reg == (Registers {
                sp: old(self).reg.sp.wrapping_add(2),
                ..old(self).reg
            }),
            final(self).wf(),
    {
        let res = self.mmu.rw(self.reg.sp);
        self.reg.sp = self.reg.sp.wrapping_add(2);
        res
    }

    fn pushstack(&mut self, value: u16)
        requires
            old(self).wf(),
        ensures
            cpu_same_except_reg_mem(*old(self), *final(self)),
            final(self).reg == (Registers {
                sp: old(self).reg.sp.wrapping_sub(2),
                ..old(self).reg
            }),
            final(self).mmu@ == mmu_ww_spec(
                old(self).mmu@,
                old(self).reg.sp.wrapping_sub(2),
                value,
            ),
            final(self).wf(),
    {
        self.reg.sp = self.reg.sp.wrapping_sub(2);
        let sp = self.reg.sp;
        self.writew(sp, value);
    }

    /// Relative jump: sign-extend the displacement byte after the opcode
    /// and add it to the PC that already passed the displacement.
    fn jr(&mut self)
        requires
            old(self).wf(),
        ensures
            cpu_same_except_reg(*old(self), *final(self)),
            final(self).reg == (Registers {
                pc: old(self).reg.pc.wrapping_add(1).wrapping_add_signed(
                    mmu_rb_spec(old(self).mmu@, old(self).reg.pc) as i8 as i16,
                ),
                ..old(self).reg
            }),
            final(self).wf(),
    {
        let n = self.fetchb() as i8;
        self.reg.pc = self.reg.pc.wrapping_add_signed(n as i16);
    }

    fn writew(&mut self, a: u16, v: u16)
        requires
            old(self).wf(),
        ensures
            cpu_same_except_reg_mem(*old(self), *final(self)),
            final(self).reg == old(self).reg,
            final(self).mmu@ == mmu_ww_spec(old(self).mmu@, a, v),
            final(self).wf(),
    {
        self.mmu.ww(a, v)
    }

    fn writeb(&mut self, a: u16, v: u8)
        requires
            old(self).wf(),
        ensures
            cpu_same_except_reg_mem(*old(self), *final(self)),
            final(self).reg == old(self).reg,
            final(self).mmu@ == mmu_wb_spec(old(self).mmu@, a, v),
            final(self).wf(),
    {
        self.mmu.wb(a, v)
    }

    fn fetchw(&mut self) -> (r: u16)
        requires
            old(self).wf(),
        ensures
            r == mmu_rw_spec(old(self).mmu@, old(self).reg.pc),
            cpu_same_except_reg(*old(self), *final(self)),
            final(self).reg == (Registers {
                pc: old(self).reg.pc.wrapping_add(2),
                ..old(self).reg
            }),
            final(self).wf(),
    {
        let w = self.mmu.rw(self.reg.pc);
        self.reg.pc = self.reg.pc.wrapping_add(2);
        w
    }

    fn fetchb(&mut self) -> (r: u8)
        requires
            old(self).wf(),
        ensures
            r == mmu_rb_spec(old(self).mmu@, old(self).reg.pc),
            cpu_same_except_reg(*old(self), *final(self)),
            final(self).reg == (Registers {
                pc: old(self).reg.pc.wrapping_add(1),
                ..old(self).reg
            }),
            final(self).wf(),
    {
        let b = self.mmu.rb(self.reg.pc);
        self.reg.pc = self.reg.pc.wrapping_add(1);
        b
    }

    /// Attempt interrupt dispatch. Returns the cycles it consumed: 4 when
    /// it vectored, 0 otherwise. A pending interrupt always wakes HALT,
    /// but vectors only when IME is set; dispatch clears IME and the
    /// lowest pending IF bit, pushes PC, and jumps to 0x40 + 8 * bit.
    fn handle_interrupt(&mut self) -> (r: u32)
        requires
            old(self).wf(),
        ensures
            final(self).wf(),
            !old(self).ime && !old(self).halted ==> r == 0 && *final(self) == *old(self),
            (old(self).ime || old(self).halted) && old(self).mmu.inte & old(self).mmu.intf == 0
                ==> r == 0 && *final(self) == *old(self),
            !old(self).ime && old(self).halted && old(self).mmu.inte & old(self).mmu.intf != 0
                ==> r == 0 && *final(self) == (Cpu { halted: false, ..*old(self) }),
            old(self).ime && old(self).mmu.inte & old(self).mmu.intf != 0 ==> {
                let n = lowest_bit(old(self).mmu.inte & old(self).mmu.intf);
                &&& r == 4
                &&& !final(self).ime
                &&& !final(self).halted
                &&& final(self).setei == old(self).setei
                &&& final(self).setdi == old(self).setdi
                &&& final(self).reg == (Registers {
                    sp: old(self).reg.sp.wrapping_sub(2),
                    pc: (0x0040 + n * 8) as u16,
                    ..old(self).reg
                })
                &&& final(self).mmu@ == mmu_ww_spec(
                    MmuView { intf: old(self).mmu.intf & !(1u8 << n), ..old(self).mmu@ },
                    old(self).reg.sp.wrapping_sub(2),
                    old(self).reg.pc,
                )
            },
    {
        if !self.ime && !self.halted {
            return 0;
        }

        let triggered = self.mmu.inte & self.mmu.intf;

        if triggered == 0 {
            return 0;
        }

        self.halted = false;

        if !self.ime {
            return 0;
        }

        self.ime = false;

        let n = lowest_set_bit(triggered);

        self.mmu.intf = self.mmu.intf & !(1u8 << n as u32);

        let pc = self.reg.pc;

        self.pushstack(pc);

        self.reg.pc = 0x0040 + n as u16 * 8;

        4
    }

    fn alu_srflagupdate(&mut self, r: u8, c: bool)
        ensures
            cpu_same_except_reg(*old(self), *final(self)),
            final(self).reg == (Registers {
                f: flags_u8(r == 0, false, false, c),
                ..old(self).reg
            }),
            final(self).reg.wf(),
    {
        self.reg.flag(Flag::Z, r == 0);
        self.reg.flag(Flag::N, false);
        self.reg.flag(Flag::H, false);
        self.reg.flag(Flag::C, c);
        proof {
            lemma_flags_znhc(old(self).reg.f, r == 0, false, false, c);
        }
    }

    fn alu_rlc(&mut self, a: u8) -> (r: u8)
        ensures
            r == rlc_val(a),
            cpu_same_except_reg(*old(self), *final(self)),
            final(self).reg == (Registers {
                f: flags_u8(r == 0, false, false, shift_carry(0, a)),
                ..old(self).reg
            }),
            final(self).reg.wf(),
    {
        let c = a & 0x80 == 0x80;
        let r = (a << 1u32) | (if c {
            1
        } else {
            0
        });
        self.alu_srflagupdate(r, c);
        r
    }

    fn alu_rrc(&mut self, a: u8) -> (r: u8)
        ensures
            r == rrc_val(a),
            cpu_same_except_reg(*old(self), *final(self)),
            final(self).reg == (Registers {
                f: flags_u8(r == 0, false, false, shift_carry(1, a)),
                ..old(self).reg
            }),
            final(self).reg.wf(),
    {
        let c = a & 0x01 == 0x01;
        let r = (a >> 1u32) | (if c {
            0x80
        } else {
            0
        });
        self.alu_srflagupdate(r, c);
        r
    }

    fn alu_rl(&mut self, a: u8) -> (r: u8)
        ensures
            r == rl_val(a, cf(old(self).reg.f)),
            cpu_same_except_reg(*old(self), *final(self)),
            final(self).reg == (Registers {
                f: flags_u8(r == 0, false, false, shift_carry(2, a)),
                ..old(self).reg
            }),
            final(self).reg.wf(),
    {
        let c = a & 0x80 == 0x80;
        let r = (a << 1u32) | (if self.reg.getflag(Flag::C) {
            1
        } else {
            0
        });
        self.alu_srflagupdate(r, c);
        r
    }

    fn alu_rr(&mut self, a: u8) -> (r: u8)
        ensures
            r == rr_val(a, cf(old(self).reg.f)),
            cpu_same_except_reg(*old(self), *final(self)),
            final(self).reg == (Registers {
                f: flags_u8(r == 0, false, false, shift_carry(3, a)),
                ..old(self).reg
            }),
            final(self).reg.wf(),
    {
        let c = a & 0x01 == 0x01;
        let r = (a >> 1u32) | (if self.reg.getflag(Flag::C) {
            0x80
        } else {
            0
        });
        self.alu_srflagupdate(r, c);
        r
    }

    fn alu_sla(&mut self, a: u8) -> (r: u8)
        ensures
            r == sla_val(a),
            cpu_same_except_reg(*old(self), *final(self)),
            final(self).reg == (Registers {
                f: flags_u8(r == 0, false, false, shift_carry(4, a)),
                ..old(self).reg
            }),
            final(self).reg.wf(),
    {
        let c = a & 0x80 == 0x80;
        let r = a << 1u32;
        self.alu_srflagupdate(r, c);
        r
    }

    fn alu_sra(&mut self, a: u8) -> (r: u8)
        ensures
            r == sra_val(a),
            cpu_same_except_reg(*old(self), *final(self)),
            final(self).reg == (Registers {
                f: flags_u8(r == 0, false, false, shift_carry(5, a)),
                ..old(self).reg
            }),
            final(self).reg.wf(),
    {
        let c = a & 0x01 == 0x01;
        let r = (a >> 1u32) | (a & 0x80);
        self.alu_srflagupdate(r, c);
        r
    }

    fn alu_swap(&mut self, a: u8) -> (r: u8)
        ensures
            r == swap_val(a),
            cpu_same_except_reg(*old(self), *final(self)),
            final(self).reg == (Registers {
                f: flags_u8(r == 0, false, false, shift_carry(6, a)),
                ..old(self).reg
            }),
            final(self).reg.wf(),
    {
        let r = (a << 4u32) | (a >> 4u32);
        self.reg.flag(Flag::Z, a == 0);
        self.reg.flag(Flag::N, false);
        self.reg.flag(Flag::H, false);
        self.reg.flag(Flag::C, false);
        proof {
            lemma_flags_znhc(old(self).reg.f, a == 0, false, false, false);
            lemma_swap_zero(a);
        }
        r
    }

    fn alu_srl(&mut self, a: u8) -> (r: u8)
        ensures
            r == srl_val(a),
            cpu_same_except_reg(*old(self), *final(self)),
            final(self).reg == (Registers {
                f: flags_u8(r == 0, false, false, shift_carry(7, a)),
                ..old(self).reg
            }),
            final(self).reg.wf(),
    {
        let c = a & 0x01 == 0x01;
        let r = a >> 1u32;
        self.alu_srflagupdate(r, c);
        r
    }

    /// CB shift/rotate `i` applied to a byte; flags from the result and
    /// the operation's carry-out.
    fn alu_shift_apply(&mut self, i: u8, a: u8) -> (r: u8)
        requires
            i < 8,
        ensures
            r == shift_val(i, a, cf(old(self).reg.f)),
            cpu_same_except_reg(*old(self), *final(self)),
            final(self).reg == (Registers {
                f: flags_u8(r == 0, false, false, shift_carry(i, a)),
                ..old(self).reg
            }),
            final(self).reg.wf(),
    {
        if i == 0 {
            self.alu_rlc(a)
        } else if i == 1 {
            self.alu_rrc(a)
        } else if i == 2 {
            self.alu_rl(a)
        } else if i == 3 {
            self.alu_rr(a)
        } else if i == 4 {
            self.alu_sla(a)
        } else if i == 5 {
            self.alu_sra(a)
        } else if i == 6 {
            self.alu_swap(a)
        } else {
            self.alu_srl(a)
        }
    }

    /// CB shift/rotate `i` on operand `r`: in place for a register, read-
    /// modify-write through HL for `(HL)`.
    fn alu_shift(&mut self, i: u8, r: &Register)
        requires
            old(self).wf(),
            i < 8,
            is_r8_operand(*r),
        ensures
            final(self).wf(),
            cpu_same_except_reg_mem(*old(self), *final(self)),
            *r == Register::Hlm ==> {
                let hl = pair(old(self).reg.h, old(self).reg.l);
                let src = mmu_rb_spec(old(self).mmu@, hl);
                let res = shift_val(i, src, cf(old(self).reg.f));
                &&& final(self).mmu@ == mmu_wb_spec(old(self).mmu@, hl, res)
                &&& final(self).reg == (Registers {
                    f: flags_u8(res == 0, false, false, shift_carry(i, src)),
                    ..old(self).reg
                })
            },
            *r != Register::Hlm ==> {
                let src = r8_val(*old(self), *r);
                let res = shift_val(i, src, cf(old(self).reg.f));
                &&& final(self).mmu == old(self).mmu
                &&& final(self).reg == setreg_spec(
                    Registers {
                        f: flags_u8(res == 0, false, false, shift_carry(i, src)),
                        ..old(self).reg
                    },
                    *r,
                    res as u16,
                )
            },
    {
        if *r == Register::Hlm {
            let a = self.reg.hl();
            let val = self.mmu.rb(a);
            let res = self.alu_shift_apply(i, val);
            self.writeb(a, res);
        } else {
            let v = self.readr8reg(r);
            let res = self.alu_shift_apply(i, v);
            self.setreg(r, res as u16);
        }
    }

    /// Byte value of an `r8` operand: the register, or memory at HL.
    fn readr8reg(&self, r: &Register) -> (v: u8)
        requires
            self.wf(),
            is_r8_operand(*r),
        ensures
            v == r8_val(*self, *r),
    {
        match r {
            Register::A => self.reg.a,
            Register::B => self.reg.b,
            Register::C => self.reg.c,
            Register::D => self.reg.d,
            Register::E => self.reg.e,
            Register::H => self.reg.h,
            Register::L => self.reg.l,
            _ => self.mmu.rb(self.reg.hl()),
        }
    }

    fn readreg(&mut self, reg: &Register) -> (r: u16)
        ensures
            r == readreg_val(old(self).reg, *reg),
            cpu_same_except_reg(*old(self), *final(self)),
            final(self).reg == readreg_regs(old(self).reg, *reg),
    {
        match reg {
            Register::A => self.reg.a as u16,
            Register::B => self.reg.b as u16,
            Register::C => self.reg.c as u16,
            Register::D => self.reg.d as u16,
            Register::E => self.reg.e as u16,
            Register::H => self.reg.h as u16,
            Register::L => self.reg.l as u16,
            Register::AF => self.reg.af(),
            Register::HL => self.reg.hl(),
            Register::Hli => self.reg.hli(),
            Register::Hld => self.reg.hld(),
            Register::Hlm => self.reg.hl(),
            Register::BC => self.reg.bc(),
            Register::DE => self.reg.de(),
            Register::SP => self.reg.sp,
        }
    }

    fn setreg(&mut self, reg: &Register, val: u16)
        requires
            *reg != Register::Hlm,
        ensures
            cpu_same_except_reg(*old(self), *final(self)),
            final(self).reg == setreg_spec(old(self).reg, *reg, val),
            old(self).reg.wf() ==> final(self).reg.wf(),
    {
        match reg {
            Register::A => self.reg.a = (val % 256) as u8,
            Register::B => self.reg.b = (val % 256) as u8,
            Register::C => self.reg.c = (val % 256) as u8,
            Register::D => self.reg.d = (val % 256) as u8,
            Register::E => self.reg.e = (val % 256) as u8,
            Register::H => self.reg.h = (val % 256) as u8,
            Register::L => self.reg.l = (val % 256) as u8,
            Register::AF => self.reg.setaf(val),
            Register::BC => self.reg.setbc(val),
            Register::DE => self.reg.setde(val),
            Register::HL => self.reg.sethl(val),
            Register::Hli => self.reg.sethl(val),
            Register::Hld => self.reg.sethl(val),
            Register::SP => self.reg.sp = val,
            Register::Hlm => {
                proof {
                    assert(false);
                }
            },
        }
    }

    fn alu_inc(&mut self, a: u8) -> (r: u8)
        ensures
            r == a.wrapping_add(1),
            cpu_same_except_reg(*old(self), *final(self)),
            final(self).reg == (Registers {
                f: flags_u8(r == 0, false, (a & 0x0F) + 1 > 0x0F, cf(old(self).reg.f)),
                ..old(self).reg
            }),
            final(self).reg.wf(),
    {
        let r = a.wrapping_add(1);
        proof {
            assert(a & 0x0F < 16) by (bit_vector);
        }
        self.reg.flag(Flag::Z, r == 0);
        self.reg.flag(Flag::N, false);
        self.reg.flag(Flag::H, (a & 0x0F) + 1 > 0x0F);
        proof {
            lemma_flags_znh(old(self).reg.f, r == 0, false, (a & 0x0F) + 1 > 0x0F);
        }
        r
    }

    fn alu_dec(&mut self, a: u8) -> (r: u8)
        ensures
            r == a.wrapping_sub(1),
            cpu_same_except_reg(*old(self), *final(self)),
            final(self).reg == (Registers {
                f: flags_u8(r == 0, true, a & 0x0F == 0, cf(old(self).reg.f)),
                ..old(self).reg
            }),
            final(self).reg.wf(),
    {
        let r = a.wrapping_sub(1);
        self.reg.flag(Flag::Z, r == 0);
        self.reg.flag(Flag::N, true);
        self.reg.flag(Flag::H, a & 0x0F == 0);
        proof {
            lemma_flags_znh(old(self).reg.f, r == 0, true, a & 0x0F == 0);
        }
        r
    }

    /// ADD HL,rr: 16-bit add into HL; H is carry from bit 11, C from bit
    /// 15, Z preserved.
    fn alu_add16(&mut self, b: u16)
        ensures
            cpu_same_except_reg(*old(self), *final(self)),
            final(self).reg == ({
                let hl = pair(old(self).reg.h, old(self).reg.l);
                let r = hl.wrapping_add(b);
                Registers {
                    h: sethl_h(r),
                    l: sethl_l(r),
                    f: flags_u8(
                        zf(old(self).reg.f),
                        false,
                        (hl & 0x0FFF) + (b & 0x0FFF) > 0x0FFF,
                        hl > 0xFFFF - b,
                    ),
                    ..old(self).reg
                }
            }),
            final(self).reg.wf(),
    {
        let a = self.reg.hl();
        let r = a.wrapping_add(b);
        proof {
            assert(a & 0x0FFF < 0x1000 && b & 0x0FFF < 0x1000) by (bit_vector);
        }
        self.reg.flag(Flag::N, false);
        self.reg.flag(Flag::H, (a & 0x0FFF) + (b & 0x0FFF) > 0x0FFF);
        self.reg.flag(Flag::C, a > 0xFFFF - b);
        self.reg.sethl(r);
        proof {
            lemma_flags_nhc(
                old(self).reg.f,
                false,
                (a & 0x0FFF) + (b & 0x0FFF) > 0x0FFF,
                a > 0xFFFF - b,
            );
        }
    }

    fn alu_add(&mut self, b: u8, usec: bool)
        ensures
            cpu_same_except_reg(*old(self), *final(self)),
            final(self).reg == ({
                let cin = carry_in(usec, old(self).reg.f);
                let a = old(self).reg.a;
                let r = add_val(a, b, cin);
                Registers {
                    a: r,
                    f: flags_u8(
                        r == 0,
                        false,
                        (a & 0xF) + (b & 0xF) + cin > 0xF,
                        a + b + cin > 0xFF,
                    ),
                    ..old(self).reg
                }
            }),
            final(self).reg.wf(),
    {
        let c: u8 = if usec && self.reg.getflag(Flag::C) {
            1
        } else {
            0
        };
        let a = self.reg.a;
        proof {
            assert(a & 0xF < 16 && b & 0xF < 16 && a & 0x0F < 16 && b & 0x0F < 16) by (bit_vector);
        }
        let r = a.wrapping_add(b).wrapping_add(c);
        self.reg.flag(Flag::Z, r == 0);
        self.reg.flag(Flag::N, false);
        self.reg.flag(Flag::H, (a & 0xF) + (b & 0xF) + c > 0xF);
        self.reg.flag(Flag::C, (a as u16) + (b as u16) + (c as u16) > 0xFF);
        self.reg.a = r;
        proof {
            lemma_flags_znhc(
                old(self).reg.f,
                r == 0,
                false,
                (a & 0xF) + (b & 0xF) + c > 0xF,
                a + b + c > 0xFF,
            );
        }
    }

    fn alu_sub(&mut self, b: u8, usec: bool)
        ensures
            cpu_same_except_reg(*old(self), *final(self)),
            final(self).reg == ({
                let cin = carry_in(usec, old(self).reg.f);
                let a = old(self).reg.a;
                let r = sub_val(a, b, cin);
                Registers {
                    a: r,
                    f: flags_u8(r == 0, true, (a & 0x0F) < (b & 0x0F) + cin, a < b + cin),
                    ..old(self).reg
                }
            }),
            final(self).reg.wf(),
    {
        let c: u8 = if usec && self.reg.getflag(Flag::C) {
            1
        } else {
            0
        };
        let a = self.reg.a;
        proof {
            assert(a & 0x0F < 16 && b & 0x0F < 16) by (bit_vector);
        }
        let r = a.wrapping_sub(b).wrapping_sub(c);
        self.reg.flag(Flag::Z, r == 0);
        self.reg.flag(Flag::N, true);
        self.reg.flag(Flag::H, (a & 0x0F) < (b & 0x0F) + c);
        self.reg.flag(Flag::C, (a as u16) < (b as u16) + (c as u16));
        self.reg.a = r;
        proof {
            lemma_flags_znhc(
                old(self).reg.f,
                r == 0,
                true,
                (a & 0x0F) < (b & 0x0F) + c,
                a < b + c,
            );
        }
    }

    fn alu_and(&mut self, b: u8)
        ensures
            cpu_same_except_reg(*old(self), *final(self)),
            final(self).reg == (Registers {
                a: (old(self).reg.a & b) as u8,
                f: flags_u8(old(self).reg.a & b == 0, false, true, false),
                ..old(self).reg
            }),
            final(self).reg.wf(),
    {
        let r = self.reg.a & b;
        self.reg.flag(Flag::Z, r == 0);
        self.reg.flag(Flag::N, false);
        self.reg.flag(Flag::H, true);
        self.reg.flag(Flag::C, false);
        self.reg.a = r;
        proof {
            lemma_flags_znhc(old(self).reg.f, r == 0, false, true, false);
        }
    }

    fn alu_or(&mut self, b: u8)
        ensures
            cpu_same_except_reg(*old(self), *final(self)),
            final(self).reg == (Registers {
                a: (old(self).reg.a | b) as u8,
                f: flags_u8(old(self).reg.a | b == 0, false, false, false),
                ..old(self).reg
            }),
            final(self).reg.wf(),
    {
        let r = self.reg.a | b;
        self.reg.flag(Flag::Z, r == 0);
        self.reg.flag(Flag::N, false);
        self.reg.flag(Flag::H, false);
        self.reg.flag(Flag::C, false);
        self.reg.a = r;
        proof {
            lemma_flags_znhc(old(self).reg.f, r == 0, false, false, false);
        }
    }

    fn alu_xor(&mut self, b: u8)
        ensures
            cpu_same_except_reg(*old(self), *final(self)),
            final(self).reg == (Registers {
                a: (old(self).reg.a ^ b) as u8,
                f: flags_u8(old(self).reg.a ^ b == 0, false, false, false),
                ..old(self).reg
            }),
            final(self).reg.wf(),
    {
        let r = self.reg.a ^ b;
        self.reg.flag(Flag::Z, r == 0);
        self.reg.flag(Flag::N, false);
        self.reg.flag(Flag::H, false);
        self.reg.flag(Flag::C, false);
        self.reg.a = r;
        proof {
            lemma_flags_znhc(old(self).reg.f, r == 0, false, false, false);
        }
    }

    /// CP: compare by subtraction, discarding the difference.
    fn alu_cp(&mut self, b: u8)
        ensures
            cpu_same_except_reg(*old(self), *final(self)),
            final(self).reg == ({
                let a = old(self).reg.a;
                let r = sub_val(a, b, 0);
                Registers {
                    f: flags_u8(r == 0, true, (a & 0x0F) < (b & 0x0F), a < b),
                    ..old(self).reg
                }
            }),
            final(self).reg.wf(),
    {
        let r = self.reg.a;
        self.alu_sub(b, false);
        self.reg.a = r;
    }

    /// Adjust A after BCD arithmetic, per the N, H and C flags; C is set
    /// from the adjustment, H cleared, Z from the result, N preserved.
    fn alu_daa(&mut self)
        ensures
            cpu_same_except_reg(*old(self), *final(self)),
            final(self).reg == ({
                let f = old(self).reg.f;
                let a2 = daa_val(old(self).reg.a, nf(f), hf(f), cf(f));
                Registers {
                    a: a2,
                    f: flags_u8(a2 == 0, nf(f), false, daa_carry(old(self).reg.a, nf(f), hf(f), cf(f))),
                    ..old(self).reg
                }
            }),
            final(self).reg.wf(),
    {
        let mut a = self.reg.a;

        let mut adjust: u8 = if self.reg.getflag(Flag::C) {
            0x60
        } else {
            0x00
        };

        if self.reg.getflag(Flag::H) {
            adjust = adjust | 0x06;
        }

        if !self.reg.getflag(Flag::N) {
            if a & 0x0F > 0x09 {
                adjust = adjust | 0x06;
            }
            if a > 0x99 {
                adjust = adjust | 0x60;
            }
            a = a.wrapping_add(adjust);
        } else {
            a = a.wrapping_sub(adjust);
        }

        proof {
            let f0 = old(self).reg.f;
            assert(adjust == daa_adjust(old(self).reg.a, nf(f0), hf(f0), cf(f0)));
            assert(a == daa_val(old(self).reg.a, nf(f0), hf(f0), cf(f0)));
        }
        self.reg.flag(Flag::C, adjust >= 0x60);
        self.reg.flag(Flag::H, false);
        self.reg.flag(Flag::Z, a == 0);
        self.reg.a = a;
        proof {
            lemma_flags_chz(old(self).reg.f, a == 0, false, adjust >= 0x60);
        }
    }

    /// BIT b: Z set when the bit is clear; N cleared, H set, C preserved.
    fn alu_bit(&mut self, r: u8, b: u8)
        requires
            b < 8,
        ensures
            cpu_same_except_reg(*old(self), *final(self)),
            final(self).reg == (Registers {
                f: flags_u8(r & (1u8 << b) == 0, false, true, cf(old(self).reg.f)),
                ..old(self).reg
            }),
            final(self).reg.wf(),
    {
        let v = r & (1u8 << b as u32) == 0;
        self.reg.flag(Flag::Z, v);
        self.reg.flag(Flag::N, false);
        self.reg.flag(Flag::H, true);
        proof {
            lemma_flags_znh(old(self).reg.f, v, false, true);
        }
    }

    /// RES b: clear bit `b` of the operand, flags untouched.
    fn alu_res(&mut self, r: &Register, b: u8)
        requires
            old(self).wf(),
            b < 8,
            is_r8_operand(*r),
        ensures
            final(self).wf(),
            cpu_same_except_reg_mem(*old(self), *final(self)),
            *r == Register::Hlm ==> {
                let hl = pair(old(self).reg.h, old(self).reg.l);
                let res = mmu_rb_spec(old(self).mmu@, hl) & !(1u8 << b);
                &&& final(self).mmu@ == mmu_wb_spec(old(self).mmu@, hl, res)
                &&& final(self).reg == old(self).reg
            },
            *r != Register::Hlm ==> final(self).mmu == old(self).mmu && final(self).reg
                == setreg_spec(
                old(self).reg,
                *r,
                readreg_val(old(self).reg, *r) & !(1u16 << b),
            ),
    {
        let v = self.readreg(r);

        if *r == Register::Hlm {
            let res = self.mmu.rb(v);
            self.writeb(v, res & !(1u8 << b as u32));
        } else {
            self.setreg(r, v & !(1u16 << b as u32));
        }
    }

    /// One of the eight accumulator operations, by index:
    /// ADD, ADC, SUB, SBC, AND, XOR, OR, CP.
    fn alu_a(&mut self, i: u8, v: u8)
        requires
            i < 8,
        ensures
            cpu_same_except_reg(*old(self), *final(self)),
            final(self).reg == (Registers {
                a: final(self).reg.a,
                f: final(self).reg.f,
                ..old(self).reg
            }),
            final(self).reg.wf(),
            i == 0 ==> final(self).reg == alu_a_regs(old(self).reg, 0, v),
            i == 1 ==> final(self).reg == alu_a_regs(old(self).reg, 1, v),
            i == 2 ==> final(self).reg == alu_a_regs(old(self).reg, 2, v),
            i == 3 ==> final(self).reg == alu_a_regs(old(self).reg, 3, v),
            i == 4 ==> final(self).reg == alu_a_regs(old(self).reg, 4, v),
            i == 5 ==> final(self).reg == alu_a_regs(old(self).reg, 5, v),
            i == 6 ==> final(self).reg == alu_a_regs(old(self).reg, 6, v),
            i == 7 ==> final(self).reg == alu_a_regs(old(self).reg, 7, v),
    {
        if i == 0 {
            self.alu_add(v, false);
        } else if i == 1 {
            self.alu_add(v, true);
        } else if i == 2 {
            self.alu_sub(v, false);
        } else if i == 3 {
            self.alu_sub(v, true);
        } else if i == 4 {
            self.alu_and(v);
        } else if i == 5 {
            self.alu_xor(v);
        } else if i == 6 {
            self.alu_or(v);
        } else {
            self.alu_cp(v);
        }
    }

}

/// Carry-in of ADC/SBC: 1 when requested and C is set.
pub open spec fn carry_in(usec: bool, f: u8) -> u8 {
    if usec && f & 0x10 != 0 {
        1
    } else {
        0
    }
}

/// 8-bit sum with carry-in, wrapped.
pub open spec fn add_val(a: u8, b: u8, cin: u8) -> u8 {
    ((a + b + cin) % 256) as u8
}

/// 8-bit difference with borrow-in, wrapped.
pub open spec fn sub_val(a: u8, b: u8, cin: u8) -> u8 {
    ((a - b - cin + 512) % 256) as u8
}

/// Byte an `r8` operand reads as: the register, or memory at HL.
pub open spec fn r8_val(c: Cpu, reg: Register) -> u8 {
    match reg {
        Register::A => c.reg.a,
        Register::B => c.reg.b,
        Register::C => c.reg.c,
        Register::D => c.reg.d,
        Register::E => c.reg.e,
        Register::H => c.reg.h,
        Register::L => c.reg.l,
        _ => mmu_rb_spec(c.mmu@, pair(c.reg.h, c.reg.l)),
    }
}

/// Register file after accumulator operation `i` with operand `v`.
pub open spec fn alu_a_regs(rg: Registers, i: u8, v: u8) -> Registers {
    let a = rg.a;
    if i == 0 || i == 1 {
        let cin = carry_in(i == 1, rg.f);
        let r = add_val(a, v, cin);
        Registers {
            a: r,
            f: flags_u8(r == 0, false, (a & 0xF) + (v & 0xF) + cin > 0xF, a + v + cin > 0xFF),
            ..rg
        }
    } else if i == 2 || i == 3 {
        let cin = carry_in(i == 3, rg.f);
        let r = sub_val(a, v, cin);
        Registers {
            a: r,
            f: flags_u8(r == 0, true, (a & 0x0F) < (v & 0x0F) + cin, a < v + cin),
            ..rg
        }
    } else if i == 4 {
        Registers { a: (a & v) as u8, f: flags_u8(a & v == 0, false, true, false), ..rg }
    } else if i == 5 {
        Registers { a: (a ^ v) as u8, f: flags_u8(a ^ v == 0, false, false, false), ..rg }
    } else if i == 6 {
        Registers { a: (a | v) as u8, f: flags_u8(a | v == 0, false, false, false), ..rg }
    } else {
        let r = sub_val(a, v, 0);
        Registers { f: flags_u8(r == 0, true, (a & 0x0F) < (v & 0x0F), a < v), ..rg }
    }
}

/// Everything outside IME and its latches is the same in `b` as in `a`.
pub open spec fn cpu_same_except_ime_latch(a: Cpu, b: Cpu) -> bool {
    &&& b.mmu == a.mmu
    &&& b.reg == a.reg
    &&& b.halted == a.halted
}


impl Cpu {
    /// Fetch, decode and execute one instruction, returning its machine
    /// cycles. The opcode at PC must be one the DMG defines; meeting an
    /// undefined encoding is a fatal programming error, so it is excluded
    /// here.
    pub fn fde(&mut self) -> (r: u32)
        requires
            old(self).wf(),
            is_legal_opcode(mmu_rb_spec(old(self).mmu@, old(self).reg.pc)),
        ensures
            final(self).wf(),
            1 <= r <= 6,
            final(self).ime == old(self).ime,
            final(self).halted == (old(self).halted || mmu_rb_spec(
                old(self).mmu@,
                old(self).reg.pc,
            ) == 0x76),
            final(self).setei == ({
                let op = mmu_rb_spec(old(self).mmu@, old(self).reg.pc);
                if op == 0xFB {
                    2u8
                } else if op == 0xD9 {
                    1u8
                } else {
                    old(self).setei
                }
            }),
            final(self).setdi == (if mmu_rb_spec(old(self).mmu@, old(self).reg.pc) == 0xF3 {
                2u8
            } else {
                old(self).setdi
            }),
            r == instr_cycles(
                mmu_rb_spec(old(self).mmu@, old(self).reg.pc),
                mmu_rb_spec(old(self).mmu@, old(self).reg.pc.wrapping_add(1)),
                old(self).reg.f,
            ),
            mmu_rb_spec(old(self).mmu@, old(self).reg.pc) == 0xF1 ==> ({
                let v = mmu_rw_spec(old(self).mmu@, old(self).reg.sp);
                &&& final(self).mmu == old(self).mmu
                &&& final(self).reg == (Registers {
                    pc: old(self).reg.pc.wrapping_add(1),
                    sp: old(self).reg.sp.wrapping_add(2),
                    a: sethl_h((v & 0xFFF0) as u16),
                    f: (sethl_l((v & 0xFFF0) as u16) & 0xF0) as u8,
                    ..old(self).reg
                })
            }),
            mmu_rb_spec(old(self).mmu@, old(self).reg.pc) == 0xF5 ==> final(self).reg
                == (Registers {
                pc: old(self).reg.pc.wrapping_add(1),
                sp: old(self).reg.sp.wrapping_sub(2),
                ..old(self).reg
            }) && final(self).mmu@ == mmu_ww_spec(
                old(self).mmu@,
                old(self).reg.sp.wrapping_sub(2),
                pair(old(self).reg.a, old(self).reg.f & 0xF0),
            ),
            mmu_rb_spec(old(self).mmu@, old(self).reg.pc) == 0xD9 ==> final(self).mmu
                == old(self).mmu && final(self).reg == (Registers {
                pc: mmu_rw_spec(old(self).mmu@, old(self).reg.sp),
                sp: old(self).reg.sp.wrapping_add(2),
                ..old(self).reg
            }),
            mmu_rb_spec(old(self).mmu@, old(self).reg.pc) == 0xFB || mmu_rb_spec(
                old(self).mmu@,
                old(self).reg.pc,
            ) == 0xF3 ==> final(self).mmu == old(self).mmu && final(self).reg == (Registers {
                pc: old(self).reg.pc.wrapping_add(1),
                ..old(self).reg
            }),
    {
        let opcode = self.fetchb();
        let top = opcode >> 6u32;
        proof {
            assert((opcode >> 6u32 != 1 ==> opcode != 0x76) && (opcode >> 6u32 != 3 ==> (opcode
                != 0xFB && opcode != 0xF3 && opcode != 0xD9 && opcode != 0xF1 && opcode != 0xF5))
                && opcode >> 6u32 < 4) by (bit_vector);
        }

        if top == 0 {
            self.fde_x0(opcode)
        } else if top == 1 {
            if opcode == 0x76 {
                self.halted = true;
                1
            } else {
                self.fde_ld(opcode)
            }
        } else if top == 2 {
            let y = field_y(opcode);
            let z = field_z(opcode);
            let r = self.reg.decode_r8(z);
            let v = self.readr8reg(&r);
            self.alu_a(y, v);
            if r == Register::Hlm {
                3
            } else {
                2
            }
        } else {
            proof {
                assert(opcode >= 0xC0) by (bit_vector)
                    requires
                        opcode >> 6u32 != 0,
                        opcode >> 6u32 != 1,
                        opcode >> 6u32 != 2,
                ;
            }
            self.fde_x3(opcode)
        }
    }

    /// Opcodes 0x00-0x3F: loads, 16-bit arithmetic, relative jumps, and
    /// the accumulator rotates with DAA/CPL/SCF/CCF.
    #[verifier::rlimit(60)]
    fn fde_x0(&mut self, opcode: u8) -> (r: u32)
        requires
            old(self).wf(),
            opcode >> 6u32 == 0,
        ensures
            final(self).wf(),
            1 <= r <= 3,
            final(self).ime == old(self).ime,
            final(self).halted == old(self).halted,
            final(self).setei == old(self).setei,
            final(self).setdi == old(self).setdi,
            r == instr_cycles(opcode, 0, old(self).reg.f),
    {
        let z = field_z(opcode);
        let y = field_y(opcode);
        if z == 0 {
            if y == 0 {
                1
            } else if y == 1 {
                let v = self.fetchw();
                let sp = self.reg.sp;
                self.writew(v, sp);
                3
            } else if y == 2 {
                1
            } else if y == 3 {
                self.jr();
                3
            } else {
                let c = field_cc(opcode);
                if decode_condition(c).check(self) {
                    self.jr();
                    3
                } else {
                    self.reg.pc = self.reg.pc.wrapping_add(1);
                    2
                }
            }
        } else if z == 1 {
            let p = field_p(opcode);
            let rr = self.reg.decode_r16_g1(p);
            if y & 1 == 0 {
                let v = self.fetchw();
                self.setreg(&rr, v);
                3
            } else {
                let v = self.readreg(&rr);
                self.alu_add16(v);
                2
            }
        } else if z == 2 {
            let p = field_p(opcode);
            let rr = self.reg.decode_r16_g2(p);
            let a = self.readreg(&rr);
            if y & 1 == 0 {
                let v = self.reg.a;
                self.writeb(a, v);
                2
            } else {
                let v = self.mmu.rb(a);
                self.reg.a = v;
                2
            }
        } else if z == 3 {
            let p = field_p(opcode);
            let rr = self.reg.decode_r16_g1(p);
            let v = self.readreg(&rr);
            if y & 1 == 0 {
                self.setreg(&rr, v.wrapping_add(1));
            } else {
                self.setreg(&rr, v.wrapping_sub(1));
            }
            2
        } else if z == 4 {
            let r = self.reg.decode_r8(y);
            if r == Register::Hlm {
                let a = self.reg.hl();
                let v = self.mmu.rb(a);
                let v2 = self.alu_inc(v);
                self.writeb(a, v2);
                3
            } else {
                let a = self.readr8reg(&r);
                let v = self.alu_inc(a);
                self.setreg(&r, v as u16);
                1
            }
        } else if z == 5 {
            let r = self.reg.decode_r8(y);
            if r == Register::Hlm {
                let a = self.reg.hl();
                let v = self.mmu.rb(a);
                let v2 = self.alu_dec(v);
                self.writeb(a, v2);
                3
            } else {
                let a = self.readr8reg(&r);
                let v = self.alu_dec(a);
                self.setreg(&r, v as u16);
                1
            }
        } else if z == 6 {
            let r = self.reg.decode_r8(y);
            if r == Register::Hlm {
                let v = self.fetchb();
                let a = self.reg.hl();
                self.writeb(a, v);
                3
            } else {
                let v = self.fetchb();
                self.setreg(&r, v as u16);
                2
            }
        } else {
            if y == 0 {
                let a = self.reg.a;
                let v = self.alu_rlc(a);
                self.reg.a = v;
                self.reg.flag(Flag::Z, false);
                1
            } else if y == 1 {
                let a = self.reg.a;
                let v = self.alu_rrc(a);
                self.reg.a = v;
                self.reg.flag(Flag::Z, false);
                1
            } else if y == 2 {
                let a = self.reg.a;
                let v = self.alu_rl(a);
                self.reg.a = v;
                self.reg.flag(Flag::Z, false);
                1
            } else if y == 3 {
                let a = self.reg.a;
                let v = self.alu_rr(a);
                self.reg.a = v;
                self.reg.flag(Flag::Z, false);
                1
            } else if y == 4 {
                self.alu_daa();
                1
            } else if y == 5 {
                self.reg.a = !self.reg.a;
                self.reg.flag(Flag::H, true);
                self.reg.flag(Flag::N, true);
                1
            } else if y == 6 {
                self.reg.flag(Flag::N, false);
                self.reg.flag(Flag::H, false);
                self.reg.flag(Flag::C, true);
                1
            } else {
                let c = !self.reg.getflag(Flag::C);
                self.reg.flag(Flag::N, false);
                self.reg.flag(Flag::H, false);
                self.reg.flag(Flag::C, c);
                1
            }
        }
    }

    /// Opcodes 0x40-0x7F except HALT: the 8-bit register-to-register
    /// loads, with `(HL)` as source or destination.
    fn fde_ld(&mut self, opcode: u8) -> (r: u32)
        requires
            old(self).wf(),
            opcode >> 6u32 == 1,
            opcode != 0x76,
        ensures
            final(self).wf(),
            2 <= r <= 3,
            final(self).ime == old(self).ime,
            final(self).halted == old(self).halted,
            final(self).setei == old(self).setei,
            final(self).setdi == old(self).setdi,
            r == instr_cycles(opcode, 0, old(self).reg.f),
    {
        let y = field_y(opcode);
        let z = field_z(opcode);
        let d = self.reg.decode_r8(y);
        let s = self.reg.decode_r8(z);

        if d == Register::Hlm {
            let a = self.reg.hl();
            let v = self.readr8reg(&s);
            self.writeb(a, v);
            3
        } else if s == Register::Hlm {
            let a = self.reg.hl();
            let v = self.mmu.rb(a);
            self.setreg(&d, v as u16);
            3
        } else {
            let v = self.readreg(&s);
            self.setreg(&d, v);
            2
        }
    }

    /// Opcodes 0xC0-0xFF: stack, jumps, calls, returns, the 0xFF00 page
    /// loads, the CB prefix, DI/EI and RST.
    fn fde_x3(&mut self, opcode: u8) -> (r: u32)
        requires
            old(self).wf(),
            opcode >= 0xC0,
            opcode >> 6u32 == 3,
            is_legal_opcode(opcode),
        ensures
            final(self).wf(),
            1 <= r <= 6,
            final(self).ime == old(self).ime,
            final(self).halted == old(self).halted,
            final(self).setei == (if opcode == 0xFB {
                2u8
            } else if opcode == 0xD9 {
                1u8
            } else {
                old(self).setei
            }),
            final(self).setdi == (if opcode == 0xF3 {
                2u8
            } else {
                old(self).setdi
            }),
            opcode == 0xF1 ==> ({
                let v = mmu_rw_spec(old(self).mmu@, old(self).reg.sp);
                &&& final(self).mmu == old(self).mmu
                &&& final(self).reg == (Registers {
                    sp: old(self).reg.sp.wrapping_add(2),
                    a: sethl_h((v & 0xFFF0) as u16),
                    f: (sethl_l((v & 0xFFF0) as u16) & 0xF0) as u8,
                    ..old(self).reg
                })
            }),
            opcode == 0xF5 ==> final(self).reg == (Registers {
                sp: old(self).reg.sp.wrapping_sub(2),
                ..old(self).reg
            }) && final(self).mmu@ == mmu_ww_spec(
                old(self).mmu@,
                old(self).reg.sp.wrapping_sub(2),
                pair(old(self).reg.a, old(self).reg.f & 0xF0),
            ),
            opcode == 0xD9 ==> final(self).mmu == old(self).mmu && final(self).reg == (Registers {
                pc: mmu_rw_spec(old(self).mmu@, old(self).reg.sp),
                sp: old(self).reg.sp.wrapping_add(2),
                ..old(self).reg
            }),
            opcode == 0xFB || opcode == 0xF3 ==> final(self).mmu == old(self).mmu
                && final(self).reg == old(self).reg,
            r == instr_cycles(
                opcode,
                mmu_rb_spec(old(self).mmu@, old(self).reg.pc),
                old(self).reg.f,
            ),
    {
        let z = field_z(opcode);
        let y = field_y(opcode);
        let p = field_p(opcode);
        proof {
            assert((opcode == 0xFB <==> (opcode & 7 == 3 && (opcode >> 3) & 7 == 7)) && (opcode
                == 0xF3 <==> (opcode & 7 == 3 && (opcode >> 3) & 7 == 6)) && (opcode == 0xD9 <==> (
            opcode & 7 == 1 && ((opcode >> 3) & 7) & 1 != 0 && (opcode >> 4) & 3 == 1)) && (opcode
                == 0xF1 <==> (opcode & 7 == 1 && ((opcode >> 3) & 7) & 1 == 0 && (opcode >> 4) & 3
                == 3)) && (opcode == 0xF5 <==> (opcode & 7 == 5 && ((opcode >> 3) & 7) & 1 == 0 && (
            opcode >> 4) & 3 == 3))) by (bit_vector)
                requires
                    opcode >= 0xC0,
            ;
        }
        if z == 0 {
            if y < 4 {
                if decode_condition(y).check(self) {
                    let v = self.popstack();
                    self.reg.pc = v;
                    5
                } else {
                    2
                }
            } else if y == 4 {
                let n = self.fetchb();
                let a = 0xFF00 | n as u16;
                let v = self.reg.a;
                self.writeb(a, v);
                3
            } else if y == 5 {
                let n = self.fetchb();
                let b: u16 = if n < 0x80 {
                    n as u16
                } else {
                    0xFF00 | n as u16
                };
                let a = self.reg.sp;
                proof {
                    assert(a & 0x000F < 16 && b & 0x000F < 16 && a & 0x00FF < 256 && b & 0x00FF
                        < 256) by (bit_vector);
                }
                self.reg.flag(Flag::Z, false);
                self.reg.flag(Flag::N, false);
                self.reg.flag(Flag::H, (a & 0x000F) + (b & 0x000F) > 0x000F);
                self.reg.flag(Flag::C, (a & 0x00FF) + (b & 0x00FF) > 0x00FF);
                self.reg.sp = a.wrapping_add(b);
                4
            } else if y == 6 {
                let n = self.fetchb();
                let a = n as u16 | 0xFF00;
                let v = self.mmu.rb(a);
                self.reg.a = v;
                3
            } else {
                let n = self.fetchb();
                let v: u16 = if n < 0x80 {
                    n as u16
                } else {
                    0xFF00 | n as u16
                };
                let sp = self.reg.sp;
                proof {
                    assert(sp & 0x000F < 16 && v & 0x000F < 16 && sp & 0x00FF < 256 && v & 0x00FF
                        < 256) by (bit_vector);
                }
                self.reg.flag(Flag::Z, false);
                self.reg.flag(Flag::N, false);
                self.reg.flag(Flag::H, (sp & 0x000F) + (v & 0x000F) > 0x000F);
                self.reg.flag(Flag::C, (sp & 0x00FF) + (v & 0x00FF) > 0x00FF);
                self.reg.sethl(sp.wrapping_add(v));
                3
            }
        } else if z == 1 {
            if y & 1 == 0 {
                let rr = self.reg.decode_r16_g3(p);
                let mut v = self.popstack();
                if rr == Register::AF {
                    v = v & 0xFFF0;
                }
                self.setreg(&rr, v);
                3
            } else {
                if p == 0 {
                    let v = self.popstack();
                    self.reg.pc = v;
                    4
                } else if p == 1 {
                    self.setei = 1;
                    let v = self.popstack();
                    self.reg.pc = v;
                    4
                } else if p == 2 {
                    let v = self.reg.hl();
                    self.reg.pc = v;
                    1
                } else {
                    let v = self.reg.hl();
                    self.reg.sp = v;
                    2
                }
            }
        } else if z == 2 {
            if y < 4 {
                if decode_condition(y).check(self) {
                    let v = self.fetchw();
                    self.reg.pc = v;
                    4
                } else {
                    self.reg.pc = self.reg.pc.wrapping_add(2);
                    3
                }
            } else if y == 4 {
                let a = self.reg.c as u16 | 0xFF00;
                let v = self.reg.a;
                self.writeb(a, v);
                2
            } else if y == 5 {
                let a = self.fetchw();
                let v = self.reg.a;
                self.writeb(a, v);
                4
            } else if y == 6 {
                let a = self.reg.c as u16 | 0xFF00;
                let v = self.mmu.rb(a);
                self.reg.a = v;
                2
            } else {
                let a = self.fetchw();
                let v = self.mmu.rb(a);
                self.reg.a = v;
                4
            }
        } else if z == 3 {
            if y == 0 {
                let x = self.fetchw();
                self.reg.pc = x;
                4
            } else if y == 1 {
                self.fde_cb()
            } else if y == 6 {
                self.setdi = 2;
                1
            } else if y == 7 {
                self.setei = 2;
                1
            } else {
                proof {
                    assert(false) by (bit_vector)
                        requires
                            opcode >= 0xC0,
                            opcode & 7 == 3,
                            (opcode >> 3) & 7 >= 2,
                            (opcode >> 3) & 7 <= 5,
                            is_legal_opcode(opcode),
                    ;
                }
                1
            }
        } else if z == 4 {
            if y < 4 {
                let c = decode_condition(y);
                self.conditional_call(c)
            } else {
                proof {
                    assert(false) by (bit_vector)
                        requires
                            opcode >= 0xC0,
                            opcode & 7 == 4,
                            (opcode >> 3) & 7 >= 4,
                            is_legal_opcode(opcode),
                    ;
                }
                1
            }
        } else if z == 5 {
            if y & 1 == 0 {
                let rr = self.reg.decode_r16_g3(p);
                let v = self.readreg(&rr);
                self.pushstack(v);
                4
            } else if p == 0 {
                let pc2 = self.reg.pc.wrapping_add(2);
                self.pushstack(pc2);
                let v = self.fetchw();
                self.reg.pc = v;
                6
            } else {
                proof {
                    assert(false) by (bit_vector)
                        requires
                            opcode >= 0xC0,
                            opcode & 7 == 5,
                            ((opcode >> 3) & 7) & 1 != 0,
                            (opcode >> 4) & 3 != 0,
                            is_legal_opcode(opcode),
                    ;
                }
                1
            }
        } else if z == 6 {
            let v = self.fetchb();
            self.alu_a(y, v);
            2
        } else {
            let pc = self.reg.pc;
            self.pushstack(pc);
            self.reg.pc = y as u16 * 8;
            4
        }
    }

    /// The CB-prefixed table: shifts and rotates, BIT, RES and SET over
    /// the `r8` operands. Returns the full cost, prefix included.
    fn fde_cb(&mut self) -> (r: u32)
        requires
            old(self).wf(),
        ensures
            final(self).wf(),
            3 <= r <= 5,
            final(self).ime == old(self).ime,
            final(self).halted == old(self).halted,
            final(self).setei == old(self).setei,
            final(self).setdi == old(self).setdi,
            r == cb_cycles(mmu_rb_spec(old(self).mmu@, old(self).reg.pc)),
    {
        let opcode = self.fetchb();
        let top = opcode >> 6u32;
        let y = field_y(opcode);
        let z = field_z(opcode);
        let r = self.reg.decode_r8(z);

        let after: u32 = if top == 0 {
            self.alu_shift(y, &r);
            if r == Register::Hlm {
                4
            } else {
                2
            }
        } else if top == 1 {
            let v = self.readr8reg(&r);
            self.alu_bit(v, y);
            if r == Register::Hlm {
                3
            } else {
                2
            }
        } else if top == 2 {
            self.alu_res(&r, y);
            if r == Register::Hlm {
                4
            } else {
                2
            }
        } else {
            let v = self.readreg(&r);
            if r == Register::Hlm {
                let val = self.mmu.rb(v);
                self.writeb(v, val | (1u8 << y as u32));
                4
            } else {
                self.setreg(&r, v | (1u16 << y as u32));
                2
            }
        };

        1 + after
    }

    /// Conditional CALL: when the condition holds, push the return
    /// address and jump to the immediate word; otherwise skip it.
    fn conditional_call(&mut self, cond: Condition) -> (r: u32)
        requires
            old(self).wf(),
        ensures
            final(self).wf(),
            cpu_same_except_reg_mem(*old(self), *final(self)),
            cond.holds(old(self).reg.f) ==> {
                let sp2 = old(self).reg.sp.wrapping_sub(2);
                let m2 = mmu_ww_spec(old(self).mmu@, sp2, old(self).reg.pc.wrapping_add(2));
                &&& r == 6
                &&& final(self).mmu@ == m2
                &&& final(self).reg == (Registers {
                    sp: sp2,
                    pc: mmu_rw_spec(m2, old(self).reg.pc),
                    ..old(self).reg
                })
            },
            !cond.holds(old(self).reg.f) ==> r == 3 && final(self).mmu == old(self).mmu
                && final(self).reg == (Registers {
                pc: old(self).reg.pc.wrapping_add(2),
                ..old(self).reg
            }),
    {
        let taken = match cond {
            Condition::Z => self.reg.getflag(Flag::Z),
            Condition::NZ => !self.reg.getflag(Flag::Z),
            Condition::NC => !self.reg.getflag(Flag::C),
            Condition::C => self.reg.getflag(Flag::C),
        };

        if taken {
            let pc2 = self.reg.pc.wrapping_add(2);
            self.pushstack(pc2);
            let v = self.fetchw();
            self.reg.pc = v;
            6
        } else {
            self.reg.pc = self.reg.pc.wrapping_add(2);
            3
        }
    }

    /// One step: tick the IME latches, try interrupt dispatch, then stay
    /// halted or execute one instruction. Returns machine cycles.
    pub fn step(&mut self) -> (r: u32)
        requires
            old(self).wf(),
            step_fetches(*old(self)) ==> is_legal_opcode(
                mmu_rb_spec(old(self).mmu@, old(self).reg.pc),
            ),
        ensures
            final(self).wf(),
            1 <= r <= 6,
            step_fetches(*old(self)) ==> final(self).ime == ime_after_latch(*old(self)),
            step_fetches(*old(self)) ==> r == instr_cycles(
                mmu_rb_spec(old(self).mmu@, old(self).reg.pc),
                mmu_rb_spec(old(self).mmu@, old(self).reg.pc.wrapping_add(1)),
                old(self).reg.f,
            ),
            step_stays_halted(*old(self)) ==> r == 1 && *final(self) == (Cpu {
                ime: ime_after_latch(*old(self)),
                setei: if old(self).setei == 2 {
                    1u8
                } else {
                    0u8
                },
                setdi: if old(self).setdi == 2 {
                    1u8
                } else {
                    0u8
                },
                ..*old(self)
            }),
            step_dispatches(*old(self)) ==> {
                let pend = old(self).mmu.inte & old(self).mmu.intf;
                let n = lowest_bit(pend);
                &&& r == 4
                &&& !final(self).ime
                &&& !final(self).halted
                &&& final(self).reg == (Registers {
                    sp: old(self).reg.sp.wrapping_sub(2),
                    pc: (0x0040 + n * 8) as u16,
                    ..old(self).reg
                })
                &&& final(self).mmu@ == mmu_ww_spec(
                    MmuView { intf: old(self).mmu.intf & !(1u8 << n), ..old(self).mmu@ },
                    old(self).reg.sp.wrapping_sub(2),
                    old(self).reg.pc,
                )
            },
    {
        self.updateime();

        let n = self.handle_interrupt();
        if n != 0 {
            return n;
        }

        if self.halted {
            1
        } else {
            self.fde()
        }
    }

    /// One step plus the matching peripheral ticks: the PPU and timer
    /// advance by four dots per machine cycle, and the interrupts they
    /// raised land in IF with the peripheral latches drained.
    pub fn docycle(&mut self)
        requires
            old(self).wf(),
            step_fetches(*old(self)) ==> is_legal_opcode(
                mmu_rb_spec(old(self).mmu@, old(self).reg.pc),
            ),
        ensures
            final(self).wf(),
            final(self).mmu.timer.interrupt == 0,
            final(self).mmu@.ppu.interrupt == 0,
            final(self).mmu.joypad.interrupt == 0,
            final(self).ime == ime_after_latch(*old(self)) || !step_fetches(*old(self)),
    {
        let cycle = self.step() * 4;
        self.mmu.tick(cycle);
    }
}

// Opcode fields, named as in the usual x/y/z/p decomposition: y is bits
// 5-3, z bits 2-0, p bits 5-4, and cc the condition field in bits 4-3.
fn field_y(op: u8) -> (r: u8)
    ensures
        r == (op >> 3) & 7,
        r < 8,
{
    proof {
        assert((op >> 3) & 7 < 8) by (bit_vector);
    }
    (op >> 3u32) & 7
}

fn field_z(op: u8) -> (r: u8)
    ensures
        r == op & 7,
        r < 8,
{
    proof {
        assert(op & 7 < 8) by (bit_vector);
    }
    op & 7
}

fn field_p(op: u8) -> (r: u8)
    ensures
        r == (op >> 4) & 3,
        r < 4,
{
    proof {
        assert((op >> 4) & 3 < 4) by (bit_vector);
    }
    (op >> 4u32) & 3
}

fn field_cc(op: u8) -> (r: u8)
    ensures
        r == (op >> 3) & 3,
        r < 4,
{
    proof {
        assert((op >> 3) & 3 < 4) by (bit_vector);
    }
    (op >> 3u32) & 3
}

/// SWAP is an involution: applying it twice returns the byte.
pub proof fn lemma_swap_involutive(a: u8)
    by (bit_vector)
    ensures
        swap_val(swap_val(a)) == a,
{
}

/// RLC and RRC invert one another (flags aside).
pub proof fn lemma_rlc_rrc_roundtrip(a: u8)
    by (bit_vector)
    ensures
        rrc_val(rlc_val(a)) == a,
        rlc_val(rrc_val(a)) == a,
{
}

/// RL then RR with the carries they produce restores both the byte and
/// the carry flag, and symmetrically for RR then RL.
pub proof fn lemma_rl_rr_roundtrip(a: u8, c: bool)
    by (bit_vector)
    ensures
        rr_val(rl_val(a, c), shift_carry(2, a)) == a,
        shift_carry(3, rl_val(a, c)) == c,
        rl_val(rr_val(a, c), shift_carry(3, a)) == a,
        shift_carry(2, rr_val(a, c)) == c,
{
}

/// A word popped into AF and pushed back reads from memory with a zero
/// low nibble, whatever was popped: writing AF forces F's low nibble
/// clear, and AF reads it masked. The AF value here is the one `fde`'s
/// contract gives for the POP AF opcode, and the write is the one it
/// gives for PUSH AF.
pub proof fn lemma_pop_push_af_word(m: MmuView, sp: u16, sp2: u16)
    requires
        m.wf(),
        crate::mmu::word_in_ram(sp2),
    ensures
        ({
            let v = mmu_rw_spec(m, sp);
            let af = pair(sethl_h(v & 0xFFF0), sethl_l(v & 0xFFF0) & 0xF0);
            mmu_rw_spec(mmu_ww_spec(m, sp2, af), sp2) & 0x0F == 0
        }),
{
    let v = mmu_rw_spec(m, sp);
    let af = pair(sethl_h(v & 0xFFF0), sethl_l(v & 0xFFF0) & 0xF0);
    crate::registers::lemma_pair_low_nibble(sethl_h(v & 0xFFF0), sethl_l(v & 0xFFF0));
    crate::mmu::lemma_word_round_trip(m, sp2, af);
}

/// Index of the lowest set bit.
fn lowest_set_bit(t: u8) -> (r: u8)
    requires
        t != 0,
    ensures
        r == lowest_bit(t),
        r < 8,
{
    if t & 0x01 != 0 {
        0
    } else if t & 0x02 != 0 {
        1
    } else if t & 0x04 != 0 {
        2
    } else if t & 0x08 != 0 {
        3
    } else if t & 0x10 != 0 {
        4
    } else if t & 0x20 != 0 {
        5
    } else if t & 0x40 != 0 {
        6
    } else {
        7
    }
}

} // verus!
