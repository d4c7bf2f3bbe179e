//! Flag formulas of the remaining ALU groups, and interrupt priority.

use oxyboy::cpu::Cpu;

fn cpu_with_prog(prog: &[u8]) -> Cpu {
    let mut cpu = Cpu::new();
    let mut a: u16 = 0xC000;
    for &b in prog {
        cpu.mmu.wb(a, b);
        a += 1;
    }
    cpu.reg.pc = 0xC000;
    cpu
}

#[test]
fn adc_carries_through() {
    // ADC A,0x00 with A=0xFF and C set: wraps to 0 with Z, H and C.
    let mut cpu = cpu_with_prog(&[0xCE, 0x00]);
    cpu.reg.a = 0xFF;
    cpu.reg.f = 0x10;
    cpu.step();
    assert_eq!(cpu.reg.a, 0x00);
    assert_eq!(cpu.reg.f, 0xB0);
}

#[test]
fn add_hl_sets_half_carry_from_bit_11() {
    // ADD HL,BC with HL=0x0FFF, BC=0x0001: H set, C clear, Z preserved.
    let mut cpu = cpu_with_prog(&[0x09]);
    cpu.reg.h = 0x0F;
    cpu.reg.l = 0xFF;
    cpu.reg.b = 0x00;
    cpu.reg.c = 0x01;
    cpu.reg.f = 0x80;
    cpu.step();
    assert_eq!(cpu.reg.hl(), 0x1000);
    assert_eq!(cpu.reg.f, 0xA0);
}

#[test]
fn daa_adjusts_after_bcd_subtract() {
    // SUB A,B on BCD 42 - 13 then DAA gives BCD 29.
    let mut cpu = cpu_with_prog(&[0x90, 0x27]);
    cpu.reg.a = 0x42;
    cpu.reg.b = 0x13;
    cpu.step();
    assert_eq!(cpu.reg.a, 0x2F);
    cpu.step();
    assert_eq!(cpu.reg.a, 0x29);
    // N survives DAA; C stays clear.
    assert_eq!(cpu.reg.f & 0x40, 0x40);
    assert_eq!(cpu.reg.f & 0x10, 0);
}

#[test]
fn rlca_forces_z_clear() {
    // RLCA on zero: result zero, but Z is forced clear (unlike CB RLC).
    let mut cpu = cpu_with_prog(&[0x07]);
    cpu.reg.a = 0x00;
    cpu.reg.f = 0x80;
    cpu.step();
    assert_eq!(cpu.reg.a, 0x00);
    assert_eq!(cpu.reg.f, 0x00);
}

#[test]
fn cb_rlc_sets_z_on_zero() {
    // CB RLC B on zero keeps Z set, unlike RLCA.
    let mut cpu = cpu_with_prog(&[0xCB, 0x00]);
    cpu.reg.b = 0x00;
    cpu.reg.f = 0x00;
    cpu.step();
    assert_eq!(cpu.reg.f, 0x80);
}

#[test]
fn scf_and_ccf_manage_carry() {
    // SCF sets C and clears N,H with Z preserved; CCF then flips C.
    let mut cpu = cpu_with_prog(&[0x37, 0x3F]);
    cpu.reg.f = 0x80;
    cpu.step();
    assert_eq!(cpu.reg.f, 0x90);
    cpu.step();
    assert_eq!(cpu.reg.f, 0x80);
}

#[test]
fn xor_a_clears_to_zero() {
    let mut cpu = cpu_with_prog(&[0xAF]);
    cpu.reg.a = 0x5A;
    cpu.reg.f = 0x70;
    cpu.step();
    assert_eq!(cpu.reg.a, 0x00);
    assert_eq!(cpu.reg.f, 0x80);
}

#[test]
fn and_sets_h_and_or_clears_it() {
    let mut cpu = cpu_with_prog(&[0xA0, 0xB0]);
    cpu.reg.a = 0x0F;
    cpu.reg.b = 0xF0;
    cpu.step();
    assert_eq!(cpu.reg.a, 0x00);
    assert_eq!(cpu.reg.f, 0xA0);
    cpu.reg.a = 0x0F;
    cpu.step();
    assert_eq!(cpu.reg.a, 0xFF);
    assert_eq!(cpu.reg.f, 0x00);
}

#[test]
fn cp_leaves_a_untouched() {
    let mut cpu = cpu_with_prog(&[0xB8]);
    cpu.reg.a = 0x33;
    cpu.reg.b = 0x33;
    cpu.step();
    assert_eq!(cpu.reg.a, 0x33);
    assert_eq!(cpu.reg.f, 0xC0);
}

#[test]
fn ld_hl_sp_displacement_flags() {
    // LD HL,SP+1 with SP=0x00FF: H and C from the low byte, Z forced 0.
    let mut cpu = cpu_with_prog(&[0xF8, 0x01]);
    cpu.reg.sp = 0x00FF;
    cpu.step();
    assert_eq!(cpu.reg.hl(), 0x0100);
    assert_eq!(cpu.reg.f, 0x30);
}

#[test]
fn stop_behaves_as_nop() {
    let mut cpu = cpu_with_prog(&[0x10]);
    let c = cpu.step();
    assert_eq!(c, 1);
    assert_eq!(cpu.reg.pc, 0xC001);
    assert!(!cpu.halted);
}

#[test]
fn ld_hld_stores_and_decrements() {
    let mut cpu = cpu_with_prog(&[0x32]);
    cpu.reg.a = 0x66;
    cpu.reg.h = 0xC0;
    cpu.reg.l = 0x50;
    cpu.step();
    assert_eq!(cpu.mmu.rb(0xC050), 0x66);
    assert_eq!(cpu.reg.hl(), 0xC04F);
}

#[test]
fn jp_hl_jumps_in_one_cycle() {
    let mut cpu = cpu_with_prog(&[0xE9]);
    cpu.reg.h = 0xC1;
    cpu.reg.l = 0x23;
    let c = cpu.step();
    assert_eq!(c, 1);
    assert_eq!(cpu.reg.pc, 0xC123);
}

#[test]
fn lowest_pending_interrupt_wins() {
    // VBlank (bit 0) and LCD STAT (bit 1) both pending: VBlank vectors
    // first and only its flag is cleared.
    let mut cpu = Cpu::new();
    cpu.ime = true;
    cpu.mmu.inte = 0x03;
    cpu.mmu.intf = 0x03;
    cpu.reg.sp = 0xFFFE;
    cpu.step();
    assert_eq!(cpu.reg.pc, 0x0040);
    assert_eq!(cpu.mmu.intf, 0x02);
}

#[test]
fn timer_slowest_rate_counts_every_1024_dots() {
    let mut cpu = Cpu::new();
    cpu.mmu.wb(0xFF07, 0x04);
    cpu.mmu.tick(1023);
    assert_eq!(cpu.mmu.rb(0xFF05), 0);
    cpu.mmu.tick(1);
    assert_eq!(cpu.mmu.rb(0xFF05), 1);
}

#[test]
fn reti_enables_interrupts_on_return() {
    // RETI at 0xC010, reached by CALL; IME is set right after RETI's own
    // latch tick.
    let mut cpu = cpu_with_prog(&[0xCD, 0x10, 0xC0, 0x00]);
    cpu.mmu.wb(0xC010, 0xD9);
    cpu.reg.sp = 0xD000;
    cpu.step();
    cpu.step();
    assert_eq!(cpu.reg.pc, 0xC003);
    assert!(!cpu.ime);
    cpu.step();
    assert!(cpu.ime);
}

#[test]
fn di_takes_effect_after_next_instruction() {
    // DI; NOP; NOP: like EI, DI is delayed one instruction, so the
    // instruction right after DI still runs with IME on.
    let mut cpu = cpu_with_prog(&[0xF3, 0x00, 0x00]);
    cpu.ime = true;
    cpu.step();
    assert!(cpu.ime);
    cpu.step();
    assert!(cpu.ime);
    cpu.step();
    assert!(!cpu.ime);
}
