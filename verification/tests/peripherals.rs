//! The memory map, bank controller, DMA, timer, joypad and PPU registers
//! as seen through the MMU.

use oxyboy::cartridge::Cartridge;
use oxyboy::cpu::Cpu;
use oxyboy::mmu::Mmu;

#[test]
fn oam_dma_copies_a_page_into_oam() {
    let mut cpu = Cpu::new();
    for i in 0..0xA0u16 {
        cpu.mmu.wb(0x8000 + i, i as u8);
    }
    cpu.mmu.wb(0xFF46, 0x80);
    for i in 0..0xA0u16 {
        assert_eq!(cpu.mmu.rb(0xFE00 + i), i as u8);
    }
}

#[test]
fn timer_overflow_reloads_tma_and_raises_interrupt() {
    let mut cpu = Cpu::new();
    cpu.mmu.wb(0xFF06, 0xAB);
    cpu.mmu.wb(0xFF05, 0xFF);
    cpu.mmu.wb(0xFF07, 0x05);
    cpu.mmu.tick(16);
    assert_eq!(cpu.mmu.rb(0xFF05), 0xAB);
    assert_eq!(cpu.mmu.intf & 0x04, 0x04);
}

#[test]
fn timer_div_write_resets_it() {
    let mut cpu = Cpu::new();
    for _ in 0..600 {
        cpu.mmu.tick(4);
    }
    assert_ne!(cpu.mmu.rb(0xFF04), 0);
    cpu.mmu.wb(0xFF04, 0x5A);
    assert_eq!(cpu.mmu.rb(0xFF04), 0);
}

#[test]
fn rom_bank_zero_write_maps_bank_one() {
    // Writing 0 (or any value with a zero low five bits) to the bank
    // register selects bank 1, so 0x4000 still reads bank 1.
    let mut data = vec![0u8; 0x10000];
    data[0x0000] = 0x99;
    data[0x4000] = 0x42;
    data[0x8000] = 0x77;
    let mut mmu = Mmu::from(data);
    mmu.wb(0x2000, 0x00);
    assert_eq!(mmu.rb(0x4000), 0x42);
    mmu.wb(0x2000, 0x20);
    assert_eq!(mmu.rb(0x4000), 0x42);
    mmu.wb(0x2000, 0x02);
    assert_eq!(mmu.rb(0x4000), 0x77);
}

#[test]
fn external_ram_latch_gates_reads_and_writes() {
    let mut cpu = Cpu::new();
    // Disabled: writes dropped, reads are open bus.
    cpu.mmu.wb(0xA000, 0x55);
    assert_eq!(cpu.mmu.rb(0xA000), 0xFF);
    // Enable: the dropped write left RAM untouched.
    cpu.mmu.wb(0x0000, 0x0A);
    assert_eq!(cpu.mmu.rb(0xA000), 0x00);
    cpu.mmu.wb(0xA000, 0x55);
    assert_eq!(cpu.mmu.rb(0xA000), 0x55);
    // Disable again: the byte is kept but unreadable.
    cpu.mmu.wb(0x0000, 0x00);
    assert_eq!(cpu.mmu.rb(0xA000), 0xFF);
    cpu.mmu.wb(0x0000, 0x0A);
    assert_eq!(cpu.mmu.rb(0xA000), 0x55);
}

#[test]
fn joypad_row_select_routing() {
    let mut cpu = Cpu::new();
    cpu.mmu.joypad.keydown(0x01);
    assert_eq!(cpu.mmu.joypad.interrupt & 0x10, 0x10);
    cpu.mmu.wb(0xFF00, 0x10);
    assert_eq!(cpu.mmu.rb(0xFF00), 0x10 | ((0xFEu8 >> 4) & 0x0F));
    cpu.mmu.wb(0xFF00, 0x20);
    assert_eq!(cpu.mmu.rb(0xFF00), 0x20 | (0xFEu8 & 0x0F));
    assert_eq!(cpu.mmu.rb(0xFF00) & 0x01, 0);
    // Neither row selected: the select register reads back.
    cpu.mmu.wb(0xFF00, 0x30);
    assert_eq!(cpu.mmu.rb(0xFF00), 0x30);
    cpu.mmu.joypad.keyup(0x01);
    cpu.mmu.wb(0xFF00, 0x20);
    assert_eq!(cpu.mmu.rb(0xFF00), 0x2F);
}

#[test]
fn word_round_trip_in_wram_vram_hram() {
    let mut cpu = Cpu::new();
    cpu.mmu.ww(0xC123, 0xBEEF);
    assert_eq!(cpu.mmu.rw(0xC123), 0xBEEF);
    cpu.mmu.ww(0x8010, 0x1234);
    assert_eq!(cpu.mmu.rw(0x8010), 0x1234);
    cpu.mmu.ww(0xFF80, 0xA55A);
    assert_eq!(cpu.mmu.rw(0xFF80), 0xA55A);
}

#[test]
fn echo_and_unusable_regions_read_zero() {
    let mut cpu = Cpu::new();
    cpu.mmu.wb(0xC000, 0x12);
    assert_eq!(cpu.mmu.rb(0xE000), 0);
    assert_eq!(cpu.mmu.rb(0xFEA0), 0);
    cpu.mmu.wb(0xE000, 0x34);
    assert_eq!(cpu.mmu.rb(0xC000), 0x12);
}

#[test]
fn serial_data_bytes_are_stored() {
    let mut cpu = Cpu::new();
    cpu.mmu.wb(0xFF01, 0x41);
    cpu.mmu.wb(0xFF02, 0x81);
    assert_eq!(cpu.mmu.rb(0xFF01), 0x41);
    assert_eq!(cpu.mmu.rb(0xFF02), 0x81);
}

#[test]
fn header_checksum_all_zero_header() {
    // 25 iterations of chk = chk - 0 - 1 from zero: 256 - 25.
    let mut data = vec![0u8; 0x150];
    data[0x14D] = 0xE7;
    let cart = Cartridge::from(data);
    assert_eq!(cart.checksum, 0xE7);
    assert!(cart.checksum_matches());
}

#[test]
fn header_checksum_detects_mismatch() {
    let mut data = vec![0u8; 0x150];
    data[0x134] = 0x02;
    let cart = Cartridge::from(data);
    assert_eq!(cart.checksum, 0xE5);
    assert!(!cart.checksum_matches());
}

#[test]
fn interrupt_enable_and_flag_latches() {
    let mut cpu = Cpu::new();
    cpu.mmu.wb(0xFFFF, 0x1F);
    cpu.mmu.wb(0xFF0F, 0x05);
    assert_eq!(cpu.mmu.rb(0xFFFF), 0x1F);
    assert_eq!(cpu.mmu.rb(0xFF0F), 0x05);
}

#[test]
fn secondary_banking_reaches_high_rom_banks() {
    // A ROM over 512 KiB takes bits 5-6 of the bank from the 4000-5FFF
    // register while banking mode 1 is selected.
    let mut data = vec![0u8; 0x100000];
    data[0x84000] = 0x5C;
    let mut mmu = Mmu::from(data);
    mmu.wb(0x6000, 0x01);
    mmu.wb(0x2000, 0x01);
    mmu.wb(0x4000, 0x01);
    assert_eq!(mmu.rb(0x4000), 0x5C);
}

#[test]
fn rom_bank_past_the_blob_reads_open_bus() {
    // A 32 KiB ROM has only banks 0 and 1; selecting bank 5 points past
    // the blob and reads as open bus.
    let mut data = vec![0u8; 0x8000];
    data[0x4000] = 0x11;
    let mut mmu = Mmu::from(data);
    mmu.wb(0x2000, 0x05);
    assert_eq!(mmu.rb(0x4000), 0xFF);
    mmu.wb(0x2000, 0x01);
    assert_eq!(mmu.rb(0x4000), 0x11);
}

#[test]
fn ram_banking_selects_the_page() {
    let mut data = vec![0u8; 0x8000];
    data[0x147] = 0x03;
    let mut mmu = Mmu::from(data);
    mmu.wb(0x0000, 0x0A);
    mmu.wb(0xA000, 0x21);
    // Switch to RAM bank 2 (banking mode 0 routes 4000-5FFF to RAM bank).
    mmu.wb(0x4000, 0x02);
    assert_eq!(mmu.rb(0xA000), 0x00);
    mmu.wb(0xA000, 0x22);
    mmu.wb(0x4000, 0x00);
    assert_eq!(mmu.rb(0xA000), 0x21);
    mmu.wb(0x4000, 0x02);
    assert_eq!(mmu.rb(0xA000), 0x22);
}

#[test]
fn low_bank_write_preserves_upper_bank_bits() {
    // On a large ROM with bits 5-6 set, a 2000-3FFF write replaces only
    // the low five bank bits.
    let mut data = vec![0u8; 0x100000];
    data[0x88000] = 0x7A;
    let mut mmu = Mmu::from(data);
    mmu.wb(0x6000, 0x01);
    mmu.wb(0x4000, 0x01);
    mmu.wb(0x2000, 0x02);
    // Bank 0x22 = upper bits 01, low field 2.
    assert_eq!(mmu.rb(0x4000), 0x7A);
}

#[test]
fn ram_bank_write_works_in_banking_mode_one_on_small_rom() {
    // Without the large-ROM secondary banking, a 4000-5FFF write selects
    // the RAM bank even in banking mode 1.
    let data = vec![0u8; 0x8000];
    let mut mmu = Mmu::from(data);
    mmu.wb(0x6000, 0x01);
    mmu.wb(0x0000, 0x0A);
    mmu.wb(0xA000, 0x31);
    mmu.wb(0x4000, 0x01);
    assert_eq!(mmu.rb(0xA000), 0x00);
    mmu.wb(0x4000, 0x00);
    assert_eq!(mmu.rb(0xA000), 0x31);
}
