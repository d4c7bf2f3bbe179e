//! Instruction-level behaviour: programs are written into WRAM and run
//! from there, with the register file set up directly.

use oxyboy::cpu::Cpu;

/// A CPU about to execute `prog`, placed at 0xC000.
fn cpu_with_prog(prog: &[u8]) -> Cpu {
    let mut cpu = Cpu::new();
    let mut a: u16 = 0xC000;
    for &b in prog {
        cpu.mmu.wb(a, b);
        a += 1;
    }
    cpu.reg.pc = 0xC000;
    cpu
}

#[test]
fn daa_after_bcd_add() {
    // ADD A,B then DAA on BCD 45 + 38 gives BCD 83 with all flags clear.
    let mut cpu = cpu_with_prog(&[0x80, 0x27]);
    cpu.reg.a = 0x45;
    cpu.reg.b = 0x38;
    cpu.reg.f = 0x00;
    cpu.step();
    cpu.step();
    assert_eq!(cpu.reg.a, 0x83);
    assert_eq!(cpu.reg.f, 0x00);
}

#[test]
fn inc_half_carry() {
    // INC A on 0x0F: half-carry set, Z and N clear, C untouched.
    let mut cpu = cpu_with_prog(&[0x3C]);
    cpu.reg.a = 0x0F;
    cpu.reg.f = 0x10;
    cpu.step();
    assert_eq!(cpu.reg.a, 0x10);
    assert_eq!(cpu.reg.f, 0x30);
}

#[test]
fn interrupt_dispatch() {
    // IME set with VBlank pending: one step vectors to 0x0040 in 4
    // machine cycles, pushing PC and clearing IME and the IF bit.
    let mut cpu = Cpu::new();
    cpu.ime = true;
    cpu.mmu.inte = 0x01;
    cpu.mmu.intf = 0x01;
    cpu.reg.pc = 0x1234;
    cpu.reg.sp = 0xFFFE;
    let cycles = cpu.step();
    assert_eq!(cycles, 4);
    assert_eq!(cpu.reg.pc, 0x0040);
    assert_eq!(cpu.mmu.intf, 0x00);
    assert!(!cpu.ime);
    assert_eq!(cpu.reg.sp, 0xFFFC);
    assert_eq!(cpu.mmu.rb(0xFFFC), 0x34);
    assert_eq!(cpu.mmu.rb(0xFFFD), 0x12);
}

#[test]
fn pop_af_push_af_masks_low_nibble() {
    // POP AF; PUSH AF: the word re-read from the stack has a clear low
    // nibble whatever was there before.
    let mut cpu = cpu_with_prog(&[0xF1, 0xF5]);
    cpu.reg.sp = 0xC100;
    cpu.mmu.ww(0xC100, 0xCDEF);
    cpu.step();
    cpu.step();
    assert_eq!(cpu.reg.sp, 0xC100);
    assert_eq!(cpu.mmu.rw(0xC100), 0xCDE0);
    assert_eq!(cpu.mmu.rw(0xC100) & 0x000F, 0);
}

#[test]
fn swap_twice_is_identity() {
    // SWAP B twice restores B; one SWAP exchanges the nibbles.
    let mut cpu = cpu_with_prog(&[0xCB, 0x30, 0xCB, 0x30]);
    cpu.reg.b = 0x3C;
    cpu.step();
    assert_eq!(cpu.reg.b, 0xC3);
    cpu.step();
    assert_eq!(cpu.reg.b, 0x3C);
}

#[test]
fn rlc_then_rrc_is_identity() {
    // RLC B then RRC B restores B (flags aside).
    let mut cpu = cpu_with_prog(&[0xCB, 0x00, 0xCB, 0x08]);
    cpu.reg.b = 0x81;
    cpu.step();
    assert_eq!(cpu.reg.b, 0x03);
    assert_eq!(cpu.reg.f & 0x10, 0x10);
    cpu.step();
    assert_eq!(cpu.reg.b, 0x81);
}

#[test]
fn rl_then_rr_restores_byte_and_carry() {
    // RL B then RR B threads the carry through and restores both.
    let mut cpu = cpu_with_prog(&[0xCB, 0x10, 0xCB, 0x18]);
    cpu.reg.b = 0xA5;
    cpu.reg.f = 0x10;
    cpu.step();
    cpu.step();
    assert_eq!(cpu.reg.b, 0xA5);
    assert_eq!(cpu.reg.f & 0x10, 0x10);
}

#[test]
fn ei_takes_effect_after_next_instruction() {
    // EI; NOP; NOP: IME turns on only after the instruction after EI.
    let mut cpu = cpu_with_prog(&[0xFB, 0x00, 0x00]);
    assert!(!cpu.ime);
    cpu.step();
    assert!(!cpu.ime);
    cpu.step();
    assert!(!cpu.ime);
    cpu.step();
    assert!(cpu.ime);
}

#[test]
fn halt_wakes_without_vectoring_when_ime_clear() {
    // A pending interrupt with IME clear wakes HALT and execution
    // continues at PC without a vector.
    let mut cpu = cpu_with_prog(&[0x3C]);
    cpu.halted = true;
    cpu.ime = false;
    cpu.mmu.inte = 0x01;
    cpu.mmu.intf = 0x01;
    cpu.reg.a = 0x01;
    let cycles = cpu.step();
    assert!(!cpu.halted);
    assert_eq!(cycles, 1);
    assert_eq!(cpu.reg.a, 0x02);
    assert_eq!(cpu.reg.pc, 0xC001);
}

#[test]
fn ld_hli_stores_and_increments() {
    // LD (HL+),A writes A through HL and bumps HL.
    let mut cpu = cpu_with_prog(&[0x22]);
    cpu.reg.a = 0x77;
    cpu.reg.h = 0xC0;
    cpu.reg.l = 0x50;
    cpu.step();
    assert_eq!(cpu.mmu.rb(0xC050), 0x77);
    assert_eq!(cpu.reg.hl(), 0xC051);
}

#[test]
fn call_pushes_return_address_and_ret_pops_it() {
    let mut cpu = cpu_with_prog(&[0xCD, 0x10, 0xC0]);
    cpu.mmu.wb(0xC010, 0xC9);
    cpu.reg.sp = 0xD000;
    let c1 = cpu.step();
    assert_eq!(c1, 6);
    assert_eq!(cpu.reg.pc, 0xC010);
    assert_eq!(cpu.reg.sp, 0xCFFE);
    assert_eq!(cpu.mmu.rw(0xCFFE), 0xC003);
    let c2 = cpu.step();
    assert_eq!(c2, 4);
    assert_eq!(cpu.reg.pc, 0xC003);
    assert_eq!(cpu.reg.sp, 0xD000);
}

#[test]
fn jr_backwards_wraps_to_its_own_address() {
    // JR -2 lands back on the JR opcode itself.
    let mut cpu = cpu_with_prog(&[0x18, 0xFE]);
    cpu.step();
    assert_eq!(cpu.reg.pc, 0xC000);
}

#[test]
fn add_sp_signed_displacement() {
    // ADD SP,-8 with SP=0xFFF8 wraps to 0xFFF0.
    let mut cpu = cpu_with_prog(&[0xE8, 0xF8]);
    cpu.reg.sp = 0xFFF8;
    let c = cpu.step();
    assert_eq!(c, 4);
    assert_eq!(cpu.reg.sp, 0xFFF0);
    // Z and N forced clear.
    assert_eq!(cpu.reg.f & 0xC0, 0);
}

#[test]
fn sub_sets_n_and_borrow_flags() {
    // SUB A,B with 0x10 - 0x20 borrows: C set, N set, result wraps.
    let mut cpu = cpu_with_prog(&[0x90]);
    cpu.reg.a = 0x10;
    cpu.reg.b = 0x20;
    cpu.step();
    assert_eq!(cpu.reg.a, 0xF0);
    assert_eq!(cpu.reg.f, 0x50);
}

#[test]
fn setaf_always_clears_low_nibble_of_f() {
    let mut cpu = Cpu::new();
    cpu.reg.setaf(0xABCD);
    assert_eq!(cpu.reg.a, 0xAB);
    assert_eq!(cpu.reg.f, 0xC0);
    assert_eq!(cpu.reg.f & 0x0F, 0);
    cpu.reg.flag(oxyboy::registers::Flag::C, true);
    assert_eq!(cpu.reg.f & 0x0F, 0);
}

#[test]
fn bit_test_sets_z_on_clear_bit() {
    // BIT 7,B with bit 7 clear: Z set, H set, N clear.
    let mut cpu = cpu_with_prog(&[0xCB, 0x78]);
    cpu.reg.b = 0x7F;
    cpu.reg.f = 0x00;
    cpu.step();
    assert_eq!(cpu.reg.f & 0x80, 0x80);
    assert_eq!(cpu.reg.f & 0x20, 0x20);
    assert_eq!(cpu.reg.f & 0x40, 0);
}

#[test]
fn res_and_set_flip_memory_bits() {
    // RES 0,(HL) then SET 3,(HL).
    let mut cpu = cpu_with_prog(&[0xCB, 0x86, 0xCB, 0xDE]);
    cpu.reg.h = 0xC0;
    cpu.reg.l = 0x40;
    cpu.mmu.wb(0xC040, 0xFF);
    cpu.step();
    assert_eq!(cpu.mmu.rb(0xC040), 0xFE);
    cpu.step();
    assert_eq!(cpu.mmu.rb(0xC040), 0xFE);
    cpu.mmu.wb(0xC040, 0x00);
    cpu.reg.pc = 0xC002;
    cpu.step();
    assert_eq!(cpu.mmu.rb(0xC040), 0x08);
}

#[test]
fn ret_cc_costs_five_when_taken() {
    // RET NZ with Z clear: taken, five machine cycles.
    let mut cpu = cpu_with_prog(&[0xC0]);
    cpu.reg.f = 0x00;
    cpu.reg.sp = 0xD000;
    cpu.mmu.ww(0xD000, 0xC123);
    let c = cpu.step();
    assert_eq!(c, 5);
    assert_eq!(cpu.reg.pc, 0xC123);
}
