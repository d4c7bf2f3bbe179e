//! Pixel-exact rendering: known tiles through the background, window and
//! sprite passes, checked byte for byte in the framebuffer.

use oxyboy::cpu::Cpu;

/// Run the PPU through OAM scan and pixel transfer to the HBlank of
/// line 0, where the line renders.
fn render_line_zero(cpu: &mut Cpu) {
    cpu.mmu.tick(200);
    assert_eq!(cpu.mmu.ppu.lcds & 3, 3);
    cpu.mmu.tick(172);
    assert_eq!(cpu.mmu.ppu.lcds & 3, 0);
}

/// The three framebuffer bytes of pixel `x` of row 0, which must agree.
fn pixel(cpu: &Cpu, x: usize) -> u8 {
    let data = cpu.get_gpu_data();
    assert_eq!(data[x * 3], data[x * 3 + 1]);
    assert_eq!(data[x * 3], data[x * 3 + 2]);
    data[x * 3]
}

#[test]
fn background_tile_renders_all_four_shades() {
    let mut cpu = Cpu::new();
    // LCD on, background on, unsigned tile data; identity palette.
    cpu.mmu.wb(0xFF40, 0x91);
    cpu.mmu.wb(0xFF47, 0b1110_0100);
    // Tile 0: every row the planes 0b1010_1010 / 0b1100_1100, so the
    // colour indices run 3,2,1,0 twice across the tile.
    for row in 0..8u16 {
        cpu.mmu.wb(0x8000 + row * 2, 0b1010_1010);
        cpu.mmu.wb(0x8000 + row * 2 + 1, 0b1100_1100);
    }
    // The tilemap is already all zeroes: tile 0 everywhere.
    render_line_zero(&mut cpu);
    let shades = [0x00, 0x60, 0xC0, 0xFF];
    for x in 0..160 {
        assert_eq!(pixel(&cpu, x), shades[x % 4]);
    }
}

#[test]
fn scx_shifts_the_background() {
    let mut cpu = Cpu::new();
    cpu.mmu.wb(0xFF40, 0x91);
    cpu.mmu.wb(0xFF47, 0b1110_0100);
    for row in 0..8u16 {
        cpu.mmu.wb(0x8000 + row * 2, 0b1010_1010);
        cpu.mmu.wb(0x8000 + row * 2 + 1, 0b1100_1100);
    }
    cpu.mmu.wb(0xFF43, 1);
    render_line_zero(&mut cpu);
    let shades = [0x00, 0x60, 0xC0, 0xFF];
    for x in 0..159 {
        assert_eq!(pixel(&cpu, x), shades[(x + 1) % 4]);
    }
}

#[test]
fn sprite_draws_over_background() {
    let mut cpu = Cpu::new();
    // LCD, background and sprites on; identity BGP and OBP0.
    cpu.mmu.wb(0xFF40, 0x93);
    cpu.mmu.wb(0xFF47, 0b1110_0100);
    cpu.mmu.wb(0xFF48, 0b1110_0100);
    // Tile 1: solid colour index 1.
    for row in 0..8u16 {
        cpu.mmu.wb(0x8010 + row * 2, 0xFF);
        cpu.mmu.wb(0x8010 + row * 2 + 1, 0x00);
    }
    // Sprite 0 at screen (0,0), tile 1, no flips, above the background.
    cpu.mmu.wb(0xFE00, 16);
    cpu.mmu.wb(0xFE01, 8);
    cpu.mmu.wb(0xFE02, 1);
    cpu.mmu.wb(0xFE03, 0);
    render_line_zero(&mut cpu);
    for x in 0..8 {
        assert_eq!(pixel(&cpu, x), 0xC0);
    }
    // The background (tile 0, colour 0) shows beyond the sprite.
    assert_eq!(pixel(&cpu, 8), 0xFF);
}

#[test]
fn sprite_behind_background_respects_priority() {
    let mut cpu = Cpu::new();
    cpu.mmu.wb(0xFF40, 0x93);
    cpu.mmu.wb(0xFF47, 0b1110_0100);
    cpu.mmu.wb(0xFF48, 0b1110_0100);
    // Background tile 0: solid colour index 2 on every row.
    for row in 0..8u16 {
        cpu.mmu.wb(0x8000 + row * 2, 0x00);
        cpu.mmu.wb(0x8000 + row * 2 + 1, 0xFF);
    }
    // Sprite tile 1: solid colour 1; flag bit 7 puts it behind non-zero
    // background.
    for row in 0..8u16 {
        cpu.mmu.wb(0x8010 + row * 2, 0xFF);
        cpu.mmu.wb(0x8010 + row * 2 + 1, 0x00);
    }
    cpu.mmu.wb(0xFE00, 16);
    cpu.mmu.wb(0xFE01, 8);
    cpu.mmu.wb(0xFE02, 1);
    cpu.mmu.wb(0xFE03, 0x80);
    render_line_zero(&mut cpu);
    // The background colour (index 2) wins everywhere.
    for x in 0..8 {
        assert_eq!(pixel(&cpu, x), 0x60);
    }
}

#[test]
fn window_overlays_from_wx_minus_seven() {
    let mut cpu = Cpu::new();
    // LCD, background and window on; window tilemap at 0x9C00.
    cpu.mmu.wb(0xFF40, 0xF1);
    cpu.mmu.wb(0xFF47, 0b1110_0100);
    // Window tile 2: solid colour 3 (black).
    for row in 0..8u16 {
        cpu.mmu.wb(0x8020 + row * 2, 0xFF);
        cpu.mmu.wb(0x8020 + row * 2 + 1, 0xFF);
    }
    for i in 0..32u16 {
        cpu.mmu.wb(0x9C00 + i, 2);
    }
    // Window starts at screen x = WX - 7 = 80 on line WY = 0.
    cpu.mmu.wb(0xFF4A, 0);
    cpu.mmu.wb(0xFF4B, 87);
    render_line_zero(&mut cpu);
    // Left of the window: background (tile 0, colour 0) is white.
    assert_eq!(pixel(&cpu, 79), 0xFF);
    for x in 80..160 {
        assert_eq!(pixel(&cpu, x), 0x00);
    }
}

#[test]
fn x_flipped_sprite_mirrors_its_pixels() {
    let mut cpu = Cpu::new();
    cpu.mmu.wb(0xFF40, 0x93);
    cpu.mmu.wb(0xFF47, 0b1110_0100);
    cpu.mmu.wb(0xFF48, 0b1110_0100);
    // Tile 1: colour 1 in the leftmost pixel only, every row.
    for row in 0..8u16 {
        cpu.mmu.wb(0x8010 + row * 2, 0x80);
        cpu.mmu.wb(0x8010 + row * 2 + 1, 0x00);
    }
    cpu.mmu.wb(0xFE00, 16);
    cpu.mmu.wb(0xFE01, 8);
    cpu.mmu.wb(0xFE02, 1);
    cpu.mmu.wb(0xFE03, 0x20);
    render_line_zero(&mut cpu);
    // Flipped in X: the mark lands on pixel 7.
    assert_eq!(pixel(&cpu, 0), 0xFF);
    assert_eq!(pixel(&cpu, 7), 0xC0);
}

#[test]
fn leftmost_sprite_wins_overlap() {
    let mut cpu = Cpu::new();
    cpu.mmu.wb(0xFF40, 0x93);
    cpu.mmu.wb(0xFF47, 0b1110_0100);
    cpu.mmu.wb(0xFF48, 0b1110_0100);
    cpu.mmu.wb(0xFF49, 0b0000_1100);
    // Tiles 1 and 2: both solid colour 1; OBP0 maps 1 to 0xC0 and OBP1
    // maps 1 to 0x00.
    for row in 0..8u16 {
        cpu.mmu.wb(0x8010 + row * 2, 0xFF);
        cpu.mmu.wb(0x8010 + row * 2 + 1, 0x00);
        cpu.mmu.wb(0x8020 + row * 2, 0xFF);
        cpu.mmu.wb(0x8020 + row * 2 + 1, 0x00);
    }
    // Sprite 0 with OBP1 at x=12; sprite 1 with OBP0 at x=8: the sprite
    // with the smaller X shows where they overlap.
    cpu.mmu.wb(0xFE00, 16);
    cpu.mmu.wb(0xFE01, 12);
    cpu.mmu.wb(0xFE02, 1);
    cpu.mmu.wb(0xFE03, 0x10);
    cpu.mmu.wb(0xFE04, 16);
    cpu.mmu.wb(0xFE05, 8);
    cpu.mmu.wb(0xFE06, 2);
    cpu.mmu.wb(0xFE07, 0x00);
    render_line_zero(&mut cpu);
    // Overlap at pixels 4..8 (screen x): sprite at x=8-8=0 covers 0..8,
    // sprite at 12-8=4 covers 4..12; the x=0 sprite is drawn last.
    assert_eq!(pixel(&cpu, 4), 0xC0);
    assert_eq!(pixel(&cpu, 7), 0xC0);
    // Past the closer sprite, the farther one (on OBP1) shows.
    assert_eq!(pixel(&cpu, 8), 0x00);
}
