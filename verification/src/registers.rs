//! CPU register file: eight 8-bit registers A, F, B, C, D, E, H, L (paired
//! as AF, BC, DE, HL) plus the 16-bit PC and SP. Only the high nibble of F
//! ever holds data: Z (bit 7), N (bit 6), H (bit 5), C (bit 4); the low
//! nibble is zero after every write that touches F.

use vstd::prelude::*;

verus! {

/// The four condition flags kept in the high nibble of F.
#[derive(Clone, Copy)]
pub enum Flag {
    Z,
    N,
    H,
    C,
}

/// Bit mask of a flag within F.
pub open spec fn flag_mask(f: Flag) -> u8 {
    match f {
        Flag::Z => 0x80,
        Flag::N => 0x40,
        Flag::H => 0x20,
        Flag::C => 0x10,
    }
}

/// Masking any byte to its high nibble leaves the low nibble clear.
pub proof fn lemma_high_nibble_clear(x: u8)
    by (bit_vector)
    ensures
        (x & 0xF0) & 0x0F == 0,
{
}

/// Register and pseudo-register operands of the instruction set. `Hlm` is
/// the memory cell addressed by HL; `Hli` and `Hld` are HL with
/// post-increment and post-decrement.
#[derive(Clone, Copy, PartialEq, Eq, Structural)]
pub enum Register {
    A,
    B,
    C,
    D,
    E,
    H,
    L,
    AF,
    BC,
    DE,
    HL,
    Hlm,
    Hli,
    Hld,
    SP,
}

pub struct Registers {
    pub a: u8,
    pub f: u8,
    pub b: u8,
    pub c: u8,
    pub d: u8,
    pub e: u8,
    pub h: u8,
    pub l: u8,
    pub pc: u16,
    pub sp: u16,
}

/// Value of a register pair: high byte then low byte.
pub open spec fn pair(hi: u8, lo: u8) -> u16 {
    (hi * 256 + lo) as u16
}

impl Registers {
    /// The register file is well formed when the low nibble of F is clear.
    pub open spec fn wf(&self) -> bool {
        self.f & 0x0F == 0
    }

    /// Operand for a 3-bit register field of an opcode
    /// (0=B 1=C 2=D 3=E 4=H 5=L 6=(HL) 7=A).
    pub fn decode_r8(&self, r: u8) -> (reg: Register)
        requires
            r < 8,
        ensures
            reg == decode_r8_spec(r),
    {
        match r {
            0 => Register::B,
            1 => Register::C,
            2 => Register::D,
            3 => Register::E,
            4 => Register::H,
            5 => Register::L,
            6 => Register::Hlm,
            _ => Register::A,
        }
    }

    /// 16-bit operand group BC/DE/HL/SP.
    pub fn decode_r16_g1(&self, r: u8) -> (reg: Register)
        requires
            r < 4,
        ensures
            reg == decode_r16_g1_spec(r),
    {
        match r {
            0 => Register::BC,
            1 => Register::DE,
            2 => Register::HL,
            _ => Register::SP,
        }
    }

    /// 16-bit operand group BC/DE/HL+/HL-.
    pub fn decode_r16_g2(&self, r: u8) -> (reg: Register)
        requires
            r < 4,
        ensures
            reg == decode_r16_g2_spec(r),
    {
        match r {
            0 => Register::BC,
            1 => Register::DE,
            2 => Register::Hli,
            _ => Register::Hld,
        }
    }

    /// 16-bit operand group BC/DE/HL/AF.
    pub fn decode_r16_g3(&self, r: u8) -> (reg: Register)
        requires
            r < 4,
        ensures
            reg == decode_r16_g3_spec(r),
    {
        match r {
            0 => Register::BC,
            1 => Register::DE,
            2 => Register::HL,
            _ => Register::AF,
        }
    }

    pub fn hl(&self) -> (r: u16)
        ensures
            r == pair(self.h, self.l),
    {
        self.h as u16 * 256 + self.l as u16
    }

    /// Read HL, then decrement it (the `(HL-)` operand).
    pub fn hld(&mut self) -> (r: u16)
        ensures
            r == pair(old(self).h, old(self).l),
            *final(self) == (Registers {
                h: sethl_h(sub_one_16(r)),
                l: sethl_l(sub_one_16(r)),
                ..*old(self)
            }),
    {
        let hl = self.hl();
        self.sethl(hl.wrapping_sub(1));
        hl
    }

    /// Read HL, then increment it (the `(HL+)` operand).
    pub fn hli(&mut self) -> (r: u16)
        ensures
            r == pair(old(self).h, old(self).l),
            *final(self) == (Registers {
                h: sethl_h(add_one_16(r)),
                l: sethl_l(add_one_16(r)),
                ..*old(self)
            }),
    {
        let hl = self.hl();
        self.sethl(hl.wrapping_add(1));
        hl
    }

    /// AF always reads with the low nibble of F clear.
    pub fn af(&self) -> (r: u16)
        ensures
            r == pair(self.a, self.f & 0xF0),
            r & 0x0F == 0,
    {
        let r = self.a as u16 * 256 + (self.f & 0xF0) as u16;
        proof {
            lemma_pair_low_nibble(self.a, self.f);
        }
        r
    }

    pub fn de(&self) -> (r: u16)
        ensures
            r == pair(self.d, self.e),
    {
        self.d as u16 * 256 + self.e as u16
    }

    pub fn bc(&self) -> (r: u16)
        ensures
            r == pair(self.b, self.c),
    {
        self.b as u16 * 256 + self.c as u16
    }

    pub fn sethl(&mut self, val: u16)
        ensures
            *final(self) == (Registers { h: sethl_h(val), l: sethl_l(val), ..*old(self) }),
    {
        self.h = (val / 256) as u8;
        self.l = (val % 256) as u8;
    }

    pub fn setbc(&mut self, val: u16)
        ensures
            *final(self) == (Registers { b: sethl_h(val), c: sethl_l(val), ..*old(self) }),
    {
        self.b = (val / 256) as u8;
        self.c = (val % 256) as u8;
    }

    pub fn setde(&mut self, val: u16)
        ensures
            *final(self) == (Registers { d: sethl_h(val), e: sethl_l(val), ..*old(self) }),
    {
        self.d = (val / 256) as u8;
        self.e = (val % 256) as u8;
    }

    /// Writing AF keeps only the high nibble of the low byte in F, so the
    /// register file stays well formed whatever `val` holds.
    pub fn setaf(&mut self, val: u16)
        ensures
            *final(self) == (Registers {
                a: sethl_h(val),
                f: (sethl_l(val) & 0xF0) as u8,
                ..*old(self)
            }),
            final(self).wf(),
    {
        self.a = (val / 256) as u8;
        self.f = (val % 256) as u8 & 0xF0;
        proof {
            lemma_high_nibble_clear((val % 256) as u8);
        }
    }

    pub fn getflag(&self, flag: Flag) -> (r: bool)
        ensures
            r == (self.f & flag_mask(flag) != 0),
    {
        let mask = match flag {
            Flag::Z => 0x80u8,
            Flag::N => 0x40u8,
            Flag::H => 0x20u8,
            Flag::C => 0x10u8,
        };
        self.f & mask > 0
    }

    /// Set or clear one flag. Every path re-masks F to its high nibble, so
    /// F's low nibble is zero after any flag write.
    pub fn flag(&mut self, flags: Flag, set: bool)
        ensures
            *final(self) == (Registers {
                f: set_flag_in(old(self).f, flag_mask(flags), set),
                ..*old(self)
            }),
            final(self).wf(),
    {
        let mask = match flags {
            Flag::Z => 0x80u8,
            Flag::N => 0x40u8,
            Flag::H => 0x20u8,
            Flag::C => 0x10u8,
        };
        match set {
            true => self.f |= mask,
            false => self.f &= !mask,
        }
        self.f &= 0xF0;
        proof {
            if set {
                lemma_high_nibble_clear(old(self).f | mask);
            } else {
                lemma_high_nibble_clear(old(self).f & !mask);
            }
        }
    }
}

/// F after setting or clearing `mask`, re-masked to the high nibble.
pub open spec fn set_flag_in(f: u8, mask: u8, set: bool) -> u8 {
    if set {
        (f | mask) & 0xF0
    } else {
        (f & !mask) & 0xF0
    }
}

pub open spec fn decode_r8_spec(r: u8) -> Register {
    match r {
        0u8 => Register::B,
        1u8 => Register::C,
        2u8 => Register::D,
        3u8 => Register::E,
        4u8 => Register::H,
        5u8 => Register::L,
        6u8 => Register::Hlm,
        _ => Register::A,
    }
}

pub open spec fn decode_r16_g1_spec(r: u8) -> Register {
    match r {
        0u8 => Register::BC,
        1u8 => Register::DE,
        2u8 => Register::HL,
        _ => Register::SP,
    }
}

pub open spec fn decode_r16_g2_spec(r: u8) -> Register {
    match r {
        0u8 => Register::BC,
        1u8 => Register::DE,
        2u8 => Register::Hli,
        _ => Register::Hld,
    }
}

pub open spec fn decode_r16_g3_spec(r: u8) -> Register {
    match r {
        0u8 => Register::BC,
        1u8 => Register::DE,
        2u8 => Register::HL,
        _ => Register::AF,
    }
}

/// High byte of a 16-bit value, as stored by the pair setters.
pub open spec fn sethl_h(val: u16) -> u8 {
    (val / 256) as u8
}

/// Low byte of a 16-bit value, as stored by the pair setters.
pub open spec fn sethl_l(val: u16) -> u8 {
    (val % 256) as u8
}

/// 16-bit wrapping increment.
pub open spec fn add_one_16(v: u16) -> u16 {
    if v == 0xFFFF {
        0
    } else {
        (v + 1) as u16
    }
}

/// 16-bit wrapping decrement.
pub open spec fn sub_one_16(v: u16) -> u16 {
    if v == 0 {
        0xFFFF
    } else {
        (v - 1) as u16
    }
}

/// A pair whose low byte has a clear low nibble has a clear low nibble.
pub proof fn lemma_pair_low_nibble(a: u8, f: u8)
    by (bit_vector)
    ensures
        ((a as u16) * 256 + ((f & 0xF0) as u16)) as u16 & 0x0F == 0,
{
}

} // verus!
