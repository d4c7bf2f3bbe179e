//! Cartridge side of the memory map: the MBC1 bank controller over the ROM
//! blob and 32 KiB of external RAM, plus the console's own WRAM and HRAM.

use crate::util::filled;
use vstd::prelude::*;

verus! {

/// MBC1 bank controller state as the contracts see it.
pub ghost struct MbcView {
    pub rom: Seq<u8>,
    pub rom_bank: u16,
    pub ram: Seq<u8>,
    pub ram_bank: u8,
    pub ram_enabled: bool,
    pub banking_mode: bool,
    pub secondary_banking: bool,
}

/// MBC1: routes reads across ROM bank 0, the switchable ROM bank and
/// external RAM, and decodes the write-only bank registers.
pub struct Mbc {
    pub rom: Vec<u8>,
    pub rom_bank: u16,
    pub ram: Vec<u8>,
    pub ram_bank: u8,
    pub ram_enabled: bool,
    pub banking_mode: bool,
    pub secondary_banking: bool,
}

impl View for Mbc {
    type V = MbcView;

    open spec fn view(&self) -> MbcView {
        MbcView {
            rom: self.rom@,
            rom_bank: self.rom_bank,
            ram: self.ram@,
            ram_bank: self.ram_bank,
            ram_enabled: self.ram_enabled,
            banking_mode: self.banking_mode,
            secondary_banking: self.secondary_banking,
        }
    }
}

impl MbcView {
    /// The selected ROM bank always has a non-zero low five bits (bank 0
    /// can never be mapped at 4000-7FFF) and fits in seven bits; the RAM
    /// bank selects one of four 8 KiB pages of the fixed 32 KiB RAM.
    pub open spec fn wf(&self) -> bool {
        &&& self.ram.len() == 0x8000
        &&& self.rom_bank & 0x1F != 0
        &&& self.rom_bank < 0x80
        &&& self.ram_bank < 4
    }
}

/// Byte returned by an MBC1 read. ROM reads outside the blob (a bank
/// register pointing past the end of a small ROM) read as open bus, 0xFF.
pub open spec fn mbc_read_spec(m: MbcView, a: u16) -> u8 {
    if a < 0x4000 {
        if a < m.rom.len() {
            m.rom[a as int]
        } else {
            0xFF
        }
    } else if a < 0x8000 {
        let idx = a % 0x4000 + m.rom_bank * 0x4000;
        if idx < m.rom.len() {
            m.rom[idx as int]
        } else {
            0xFF
        }
    } else if 0xA000 <= a && a < 0xC000 {
        if m.ram_enabled {
            m.ram[a - 0xA000 + m.ram_bank * 0x2000]
        } else {
            0xFF
        }
    } else {
        0xFF
    }
}

/// MBC1 state after a write: the four register ranges decode bank state;
/// A000-BFFF writes through to external RAM only while RAM is enabled;
/// everything else is dropped. A 2000-3FFF write replaces only the low
/// five bank bits (zero remapped to one); bits 5-6 set through 4000-5FFF
/// on a large ROM survive it.
pub open spec fn mbc_write_spec(m: MbcView, a: u16, v: u8) -> MbcView {
    if a < 0x2000 {
        MbcView { ram_enabled: v & 0x0F == 0x0A, ..m }
    } else if a < 0x4000 {
        let low5 = if v & 0x1F == 0 {
            1u16
        } else {
            (v & 0x1F) as u16
        };
        MbcView { rom_bank: (m.rom_bank & 0x60) | low5, ..m }
    } else if a < 0x6000 {
        if m.banking_mode && m.secondary_banking {
            MbcView { rom_bank: (m.rom_bank & 0x1F) | (((v & 3) as u16) << 5), ..m }
        } else {
            MbcView { ram_bank: v & 3, ..m }
        }
    } else if a < 0x8000 {
        MbcView { banking_mode: v & 1 == 1, ..m }
    } else if 0xA000 <= a && a < 0xC000 {
        if m.ram_enabled {
            MbcView { ram: m.ram.update(a - 0xA000 + m.ram_bank * 0x2000, v), ..m }
        } else {
            m
        }
    } else {
        m
    }
}

/// Replacing the low five bank bits keeps bits 5-6, leaves the low field
/// non-zero (given a non-zero replacement) and the whole under 0x80.
proof fn lemma_low_bank_bits(bank: u16, v: u8)
    by (bit_vector)
    ensures
        v & 0x1F != 0 ==> ((bank & 0x60) | ((v & 0x1F) as u16)) & 0x1F == (v & 0x1F) as u16 & 0x1F,
        v & 0x1F != 0 ==> ((bank & 0x60) | ((v & 0x1F) as u16)) & 0x1F != 0,
        ((bank & 0x60) | 1u16) & 0x1F != 0,
        bank < 0x80 ==> ((bank & 0x60) | ((v & 0x1F) as u16)) < 0x80 && ((bank & 0x60) | 1u16)
            < 0x80,
        ((bank & 0x60) | ((v & 0x1F) as u16)) & 0x60 == bank & 0x60,
        ((bank & 0x60) | 1u16) & 0x60 == bank & 0x60,
{
}

/// Placing two bank bits above the low five keeps those five unchanged and
/// the result under 0x80.
proof fn lemma_upper_bank_bits(bank: u16, v: u8)
    by (bit_vector)
    ensures
        ((bank & 0x1F) | (((v & 3) as u16) << 5)) & 0x1F == bank & 0x1F,
        ((bank & 0x1F) | (((v & 3) as u16) << 5)) < 0x80,
{
}

impl Mbc {
    /// Controller over a fresh ROM blob: bank 1 selected, RAM disabled and
    /// zeroed; blobs over 512 KiB get the secondary banking bits.
    pub fn new(data: Vec<u8>) -> (r: Self)
        ensures
            r@ == (MbcView {
                rom: data@,
                rom_bank: 1,
                ram: Seq::new(0x8000, |i: int| 0u8),
                ram_bank: 0,
                ram_enabled: false,
                banking_mode: false,
                secondary_banking: data@.len() > 0x80000,
            }),
            r@.wf(),
    {
        let secondary_banking = data.len() > 0x80000;
        let r = Mbc {
            rom: data,
            rom_bank: 1,
            ram: filled(0x8000, 0u8),
            ram_bank: 0,
            ram_enabled: false,
            banking_mode: false,
            secondary_banking,
        };
        proof {
            assert(r@.ram =~= Seq::new(0x8000, |i: int| 0u8));
            assert(1u16 & 0x1F != 0) by (bit_vector);
        }
        r
    }

    pub fn read(&self, a: u16) -> (r: u8)
        requires
            self@.wf(),
        ensures
            r == mbc_read_spec(self@, a),
    {
        if a < 0x4000 {
            if (a as usize) < self.rom.len() {
                self.rom[a as usize]
            } else {
                0xFF
            }
        } else if a < 0x8000 {
            let idx: usize = (a % 0x4000) as usize + self.rom_bank as usize * 0x4000;
            if idx < self.rom.len() {
                self.rom[idx]
            } else {
                0xFF
            }
        } else if 0xA000 <= a && a < 0xC000 {
            if !self.ram_enabled {
                return 0xFF;
            }
            let addr: usize = (a - 0xA000) as usize + self.ram_bank as usize * 0x2000;
            self.ram[addr]
        } else {
            0xFF
        }
    }

    pub fn write(&mut self, a: u16, v: u8)
        requires
            old(self)@.wf(),
        ensures
            final(self)@ == mbc_write_spec(old(self)@, a, v),
            final(self)@.wf(),
    {
        if a < 0x2000 {
            self.ram_enabled = (v & 0x0F) == 0x0A;
        } else if a < 0x4000 {
            let mut low5: u16 = (v & 0x1F) as u16;
            if low5 == 0 {
                low5 = 1;
            }
            self.rom_bank = (self.rom_bank & 0x60) | low5;
            proof {
                lemma_low_bank_bits(old(self).rom_bank, v);
            }
        } else if a < 0x6000 {
            if self.banking_mode && self.secondary_banking {
                self.rom_bank = (self.rom_bank & 0x1F) | (((v & 3) as u16) << 5);
                proof {
                    lemma_upper_bank_bits(old(self).rom_bank, v);
                    assert(old(self)@.rom_bank & 0x1F != 0);
                }
            } else {
                self.ram_bank = v & 3;
                proof {
                    assert(v & 3 < 4) by (bit_vector);
                }
            }
        } else if a < 0x8000 {
            self.banking_mode = v & 1 == 1;
        } else if 0xA000 <= a && a < 0xC000 {
            if self.ram_enabled {
                let addr: usize = (a - 0xA000) as usize + self.ram_bank as usize * 0x2000;
                self.ram.set(addr, v);
            }
        }
    }
}

/// Selecting a ROM bank whose low five bits are zero maps the low bank
/// field to 1, never 0: the upper bank bits survive, and every later
/// 4000-7FFF read comes from a bank whose low five bits are 1.
pub proof fn lemma_bank_zero_remap(m: MbcView, a: u16, v: u8, a2: u16)
    requires
        m.wf(),
        0x2000 <= a < 0x4000,
        v & 0x1F == 0,
        0x4000 <= a2 < 0x8000,
    ensures
        mbc_write_spec(m, a, v).rom_bank & 0x1F == 1,
        mbc_write_spec(m, a, v).rom_bank & 0x60 == m.rom_bank & 0x60,
        mbc_read_spec(mbc_write_spec(m, a, v), a2) == ({
            let bank = (m.rom_bank & 0x60) | 1u16;
            if a2 % 0x4000 + bank * 0x4000 < m.rom.len() {
                m.rom[a2 % 0x4000 + bank * 0x4000]
            } else {
                0xFF
            }
        }),
{
    let bank = m.rom_bank;
    assert(((bank & 0x60) | 1u16) & 0x1F == 1 && ((bank & 0x60) | 1u16) & 0x60 == bank & 0x60)
        by (bit_vector);
}

/// External RAM writes while the enable latch is off change nothing: after
/// enabling RAM, every RAM read returns the bytes held before the dropped
/// write.
pub proof fn lemma_ram_disabled_write_dropped(m: MbcView, a: u16, v: u8, e: u16, ev: u8, a2: u16)
    requires
        m.wf(),
        !m.ram_enabled,
        0xA000 <= a < 0xC000,
        e < 0x2000,
        ev & 0x0F == 0x0A,
        0xA000 <= a2 < 0xC000,
    ensures
        mbc_write_spec(m, a, v).ram == m.ram,
        mbc_read_spec(mbc_write_spec(mbc_write_spec(m, a, v), e, ev), a2) == m.ram[a2 - 0xA000
            + m.ram_bank * 0x2000],
{
}

/// WRAM, HRAM and the header checksum of the loaded cartridge, beside the
/// bank controller.
pub struct Cartridge {
    pub hram: Vec<u8>,
    pub wram: Vec<u8>,
    pub checksum: u8,
    pub mbc: Mbc,
}

pub ghost struct CartridgeView {
    pub hram: Seq<u8>,
    pub wram: Seq<u8>,
    pub checksum: u8,
    pub mbc: MbcView,
}

impl View for Cartridge {
    type V = CartridgeView;

    open spec fn view(&self) -> CartridgeView {
        CartridgeView { hram: self.hram@, wram: self.wram@, checksum: self.checksum, mbc: self.mbc@ }
    }
}

/// Header checksum over the first `n` bytes starting at 0x0134:
/// `chk = chk - rom[a] - 1` for each byte, in wrapping 8-bit arithmetic.
pub open spec fn header_checksum(rom: Seq<u8>, n: nat) -> u8
    decreases n,
{
    if n == 0 {
        0
    } else {
        sub8(sub8(header_checksum(rom, (n - 1) as nat), rom[0x134 + n - 1]), 1)
    }
}

/// 8-bit wrapping subtraction.
pub open spec fn sub8(a: u8, b: u8) -> u8 {
    if a >= b {
        (a - b) as u8
    } else {
        (a - b + 256) as u8
    }
}

impl CartridgeView {
    pub open spec fn wf(&self) -> bool {
        &&& self.hram.len() == 0x80
        &&& self.wram.len() == 0x8000
        &&& self.mbc.wf()
    }
}

impl Cartridge {
    /// Empty cartridge slot: no ROM, WRAM zeroed, HRAM filled with 0xFF.
    pub fn new() -> (r: Self)
        ensures
            r@.wf(),
            r@.mbc.rom.len() == 0,
            r@.wram =~= Seq::new(0x8000, |i: int| 0u8),
            r@.hram =~= Seq::new(0x80, |i: int| 0xFFu8),
            r@.checksum == 0,
    {
        let r = Cartridge {
            wram: filled(0x8000, 0u8),
            hram: filled(0x80, 0xFFu8),
            checksum: 0,
            mbc: Mbc::new(Vec::new()),
        };
        proof {
            assert(r@.wram =~= Seq::new(0x8000, |i: int| 0u8));
            assert(r@.hram =~= Seq::new(0x80, |i: int| 0xFFu8));
        }
        r
    }

    /// Cartridge loaded from a ROM blob. The header checksum is computed
    /// and stored; a mismatch with the header byte at 0x014D is for the
    /// host to warn about - emulation proceeds unconditionally.
    pub fn from(data: Vec<u8>) -> (r: Self)
        requires
            data@.len() >= 0x150,
        ensures
            r@.wf(),
            r@.mbc == (Mbc::new_spec(data@)),
            r@.wram =~= Seq::new(0x8000, |i: int| 0u8),
            r@.hram =~= Seq::new(0x80, |i: int| 0xFFu8),
            r@.checksum == header_checksum(data@, 0x19),
    {
        let mut cart = Cartridge::new();
        cart.mbc = Mbc::new(data);
        cart.checksum = cart.calculate_checksum();
        cart
    }

    /// The computed header checksum over 0x0134..=0x014C.
    pub fn calculate_checksum(&self) -> (r: u8)
        requires
            self@.mbc.rom.len() >= 0x150,
        ensures
            r == header_checksum(self@.mbc.rom, 0x19),
    {
        let mut checksum: u8 = 0;
        let mut address: usize = 0x0134;
        while address <= 0x014C
            invariant
                self@.mbc.rom.len() >= 0x150,
                0x0134 <= address <= 0x014D,
                checksum == header_checksum(self@.mbc.rom, (address - 0x134) as nat),
            decreases 0x014D - address,
        {
            checksum = checksum.wrapping_sub(self.mbc.rom[address]);
            checksum = checksum.wrapping_sub(1);
            address = address + 1;
        }
        checksum
    }

    /// Whether the stored checksum agrees with the header byte at 0x014D.
    pub fn checksum_matches(&self) -> (r: bool)
        requires
            self@.mbc.rom.len() >= 0x150,
        ensures
            r == (self@.checksum == self@.mbc.rom[0x14D]),
    {
        self.mbc.rom[0x14D] == self.checksum
    }

    pub fn wram_read(&self, address: u16) -> (r: u8)
        requires
            self@.wf(),
            0xC000 <= address < 0xE000,
        ensures
            r == self@.wram[address - 0xC000],
    {
        self.wram[(address - 0xC000) as usize]
    }

    pub fn hram_read(&self, address: u16) -> (r: u8)
        requires
            self@.wf(),
            0xFF80 <= address,
        ensures
            r == self@.hram[address - 0xFF80],
    {
        self.hram[(address - 0xFF80) as usize]
    }

    pub fn wram_write(&mut self, address: u16, value: u8)
        requires
            old(self)@.wf(),
            0xC000 <= address < 0xE000,
        ensures
            final(self)@ == (CartridgeView {
                wram: old(self)@.wram.update(address - 0xC000, value),
                ..old(self)@
            }),
            final(self)@.wf(),
    {
        self.wram.set((address - 0xC000) as usize, value);
    }

    pub fn hram_write(&mut self, address: u16, value: u8)
        requires
            old(self)@.wf(),
            0xFF80 <= address,
        ensures
            final(self)@ == (CartridgeView {
                hram: old(self)@.hram.update(address - 0xFF80, value),
                ..old(self)@
            }),
            final(self)@.wf(),
    {
        self.hram.set((address - 0xFF80) as usize, value);
    }
}

impl Mbc {
    /// The state `Mbc::new` builds from a blob.
    pub open spec fn new_spec(rom: Seq<u8>) -> MbcView {
        MbcView {
            rom: rom,
            rom_bank: 1,
            ram: Seq::new(0x8000, |i: int| 0u8),
            ram_bank: 0,
            ram_enabled: false,
            banking_mode: false,
            secondary_banking: rom.len() > 0x80000,
        }
    }
}

} // verus!
