//! PPU behaviour: the mode schedule, LY range, LCD on/off, palettes and
//! the framebuffer's shade discipline.

use oxyboy::cpu::Cpu;
use oxyboy::Emulator;
use oxyboy::ppu::{SCREEN_H, SCREEN_W};

#[test]
fn ly_stays_within_its_range() {
    let mut cpu = Cpu::new();
    for _ in 0..(154 * 4) {
        cpu.mmu.tick(456);
        assert!(cpu.mmu.ppu.ly <= 153);
    }
}

#[test]
fn mode_schedule_within_a_line() {
    let mut cpu = Cpu::new();
    // Fresh line: 456 dots remaining puts the PPU in OAM scan.
    cpu.mmu.tick(4);
    assert_eq!(cpu.mmu.ppu.lcds & 3, 2);
    // Down to 252 remaining: pixel transfer.
    cpu.mmu.tick(200);
    assert_eq!(cpu.mmu.ppu.lcds & 3, 3);
    // Down to 80 remaining: HBlank (the line renders here).
    cpu.mmu.tick(172);
    assert_eq!(cpu.mmu.ppu.lcds & 3, 0);
}

#[test]
fn vblank_raises_interrupt_and_frame_flag() {
    let mut cpu = Cpu::new();
    for _ in 0..145 {
        cpu.mmu.tick(456);
        cpu.mmu.tick(1);
    }
    assert!(cpu.mmu.ppu.ly >= 144);
    assert_eq!(cpu.mmu.ppu.lcds & 3, 1);
    assert!(cpu.mmu.ppu.updated);
    assert_eq!(cpu.mmu.intf & 0x01, 0x01);
}

#[test]
fn framebuffer_is_exactly_one_frame_of_shades() {
    let mut cpu = Cpu::new();
    // LCD and background on, unsigned tile data; a BGP covering all four
    // shades and a tile pattern that uses every colour index.
    cpu.mmu.wb(0xFF40, 0x91);
    cpu.mmu.wb(0xFF47, 0b1110_0100);
    for i in 0..16u16 {
        cpu.mmu.wb(0x8000 + i, if i % 3 == 0 { 0xA5 } else { 0x5A });
    }
    for _ in 0..(154 * 2) {
        cpu.mmu.tick(456);
        cpu.mmu.tick(4);
    }
    let data = cpu.get_gpu_data();
    assert_eq!(data.len(), SCREEN_W * SCREEN_H * 3);
    assert_eq!(data.len(), 69120);
    for &b in data.iter() {
        assert!(b == 0x00 || b == 0x60 || b == 0xC0 || b == 0xFF);
    }
}

#[test]
fn lcd_off_whites_the_screen_and_resets_the_line() {
    let mut cpu = Cpu::new();
    cpu.mmu.wb(0xFF40, 0x91);
    for _ in 0..40 {
        cpu.mmu.tick(456);
    }
    cpu.mmu.wb(0xFF40, 0x11);
    assert_eq!(cpu.mmu.ppu.ly, 0);
    assert!(cpu.mmu.ppu.updated);
    for &b in cpu.get_gpu_data().iter() {
        assert_eq!(b, 0xFF);
    }
}

#[test]
fn palette_registers_map_all_four_shades() {
    let mut cpu = Cpu::new();
    cpu.mmu.wb(0xFF47, 0b0001_1011);
    assert_eq!(cpu.mmu.ppu.palb, vec![0x00, 0x60, 0xC0, 0xFF]);
    assert_eq!(cpu.mmu.rb(0xFF47), 0b0001_1011);
}

#[test]
fn lyc_coincidence_requests_stat_interrupt() {
    let mut cpu = Cpu::new();
    cpu.mmu.wb(0xFF41, 0x40);
    cpu.mmu.wb(0xFF45, 3);
    for _ in 0..3 {
        cpu.mmu.tick(456);
        cpu.mmu.tick(1);
    }
    assert_eq!(cpu.mmu.ppu.ly, 3);
    assert_eq!(cpu.mmu.intf & 0x02, 0x02);
}

#[test]
fn vram_and_oam_read_back() {
    let mut cpu = Cpu::new();
    cpu.mmu.wb(0x9ABC, 0x5E);
    assert_eq!(cpu.mmu.rb(0x9ABC), 0x5E);
    cpu.mmu.wb(0xFE20, 0x91);
    assert_eq!(cpu.mmu.rb(0xFE20), 0x91);
}

#[test]
fn emulator_handle_starts_unpaused() {
    let emu = Emulator::new();
    assert!(!emu.paused);
}
