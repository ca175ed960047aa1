use lib::lr35902::{
    addr16, imm16, imm8, Cpu, Instr, Registers, StepOutcome, CALLa16, INCe, JPnzr8, LDal, PopStack,
    PushStack, XORa,
};
use lib::mem::Mem;
use lib::rom::read_rom_from_file;

/// A 32 kB image holding `program` from 0x100 on and `extra` pieces elsewhere.
fn cpu_with(program: &[u8], extra: &[(usize, &[u8])]) -> Cpu {
    let mut bytes = vec![0u8; 0x8000];
    bytes[0x100..0x100 + program.len()].copy_from_slice(program);
    for (at, piece) in extra {
        bytes[*at..*at + piece.len()].copy_from_slice(piece);
    }
    let len = bytes.len();
    let mut cpu = Cpu::new(Mem::new(read_rom_from_file(&String::from("p.gb"), len, bytes)));
    cpu.reset();
    cpu
}

fn run(cpu: &mut Cpu, steps: usize) {
    for _ in 0..steps {
        assert!(cpu.can_step());
        cpu.step();
    }
}

fn zero_regs() -> Registers {
    Registers { A: 0, B: 0, D: 0, H: 0, F: 0, C: 0, E: 0, L: 0, PC: 0, SP: 0 }
}

#[test]
fn new_cpu_has_zeroed_registers_and_no_cycles() {
    let bytes = vec![0u8; 0x200];
    let cpu = Cpu::new(Mem::new(read_rom_from_file(&String::from("p.gb"), 0x200, bytes)));
    let r = cpu.regs();
    assert_eq!((r.A, r.B, r.C, r.D, r.E, r.F, r.H, r.L, r.PC, r.SP), (0, 0, 0, 0, 0, 0, 0, 0, 0, 0));
    assert_eq!(cpu.total_cycles(), 0);
}

#[test]
fn reset_moves_pc_to_0x100() {
    let cpu = cpu_with(&[], &[]);
    assert_eq!(cpu.regs().PC, 0x100);
}

#[test]
fn register_pairs_roundtrip() {
    let mut r = zero_regs();
    r.set_AF(0x12F0);
    r.set_BC(0x3456);
    r.set_DE(0x789A);
    r.set_HL(0xBCDE);
    r.set_SP(0xFFFE);
    r.set_PC(0x0150);
    assert_eq!(r.get_AF(), 0x12F0);
    assert_eq!(r.get_BC(), 0x3456);
    assert_eq!(r.get_DE(), 0x789A);
    assert_eq!(r.get_HL(), 0xBCDE);
    assert_eq!(r.get_SP(), 0xFFFE);
    assert_eq!(r.get_PC(), 0x0150);
    assert_eq!((r.A, r.F, r.B, r.C, r.D, r.E, r.H, r.L), (0x12, 0xF0, 0x34, 0x56, 0x78, 0x9A, 0xBC, 0xDE));
}

#[test]
fn flag_setters_set_the_high_bits() {
    let mut r = zero_regs();
    r.set_FZ();
    assert_eq!(r.F, 0x80);
    r.set_FN();
    assert_eq!(r.F, 0xC0);
    r.set_FH();
    assert_eq!(r.F, 0xE0);
    r.set_FC();
    assert_eq!(r.F, 0xF0);
    r.set_FC();
    assert_eq!(r.F, 0xF0);
}

#[test]
fn flag_getters_read_bit_zero() {
    let mut r = zero_regs();
    r.set_FZ();
    assert!(!r.get_FZ());
    assert!(!r.get_FN());
    r.F = 0x01;
    assert!(r.get_FZ());
    assert!(r.get_FN());
    assert!(r.get_FH());
    assert!(r.get_FC());
}

#[test]
fn immediate_operands_follow_the_opcode() {
    let mut cpu = cpu_with(&[0x21, 0x34, 0x12], &[]);
    assert_eq!(imm8(&mut cpu), 0x34);
    assert_eq!(imm16(&mut cpu), 0x1234);
    assert_eq!(addr16(&mut cpu), 0x1234);
    assert_eq!(cpu.regs().PC, 0x100);
}

#[test]
fn loads_and_xor() {
    // LD A,0x42 ; LD B,A ; LD C,0x07 ; XOR A ; LD HL,0x1234 ; LD A,H ; LD DE,0x5678 ; LD A,L
    let mut cpu = cpu_with(
        &[0x3E, 0x42, 0x47, 0x0E, 0x07, 0xAF, 0x21, 0x34, 0x12, 0x7C, 0x11, 0x78, 0x56, 0x7D],
        &[],
    );
    run(&mut cpu, 2);
    assert_eq!(cpu.regs().A, 0x42);
    assert_eq!(cpu.regs().B, 0x42);
    run(&mut cpu, 2);
    assert_eq!(cpu.regs().C, 0x07);
    assert_eq!(cpu.regs().A, 0);
    run(&mut cpu, 2);
    assert_eq!(cpu.regs().get_HL(), 0x1234);
    assert_eq!(cpu.regs().A, 0x12);
    run(&mut cpu, 2);
    assert_eq!(cpu.regs().get_DE(), 0x5678);
    assert_eq!(cpu.regs().A, 0x34);
    assert_eq!(cpu.regs().PC, 0x10E);
    // 8 + 4 + 8 + 4 + 13 + 4 + 12 + 4
    assert_eq!(cpu.total_cycles(), 57);
}

#[test]
fn inc_e_wraps() {
    let mut cpu = cpu_with(&[0x1C], &[]);
    for _ in 0..255 {
        INCe(&mut cpu);
    }
    assert_eq!(cpu.regs().E, 255);
    INCe(&mut cpu);
    assert_eq!(cpu.regs().E, 0);
    run(&mut cpu, 1);
    assert_eq!(cpu.regs().E, 1);
    assert_eq!(cpu.regs().PC, 0x101);
}

#[test]
fn xor_a_clears_a() {
    let mut cpu = cpu_with(&[0x3E, 0xFF], &[]);
    run(&mut cpu, 1);
    assert_eq!(cpu.regs().A, 0xFF);
    XORa(&mut cpu);
    assert_eq!(cpu.regs().A, 0);
    LDal(&mut cpu);
    assert_eq!(cpu.regs().A, 0);
}

#[test]
fn stores_through_de_hl_a8_and_a16() {
    // LD A,0x99 ; LD DE,0xC000 ; LD (DE),A ; LD HL,0xC001 ; LDD (HL),A ; LDH (0x80),A ; LD (0xC002),A ; LDI A,(HL)
    let mut cpu = cpu_with(
        &[0x3E, 0x99, 0x11, 0x00, 0xC0, 0x12, 0x21, 0x01, 0xC0, 0x32, 0xE0, 0x80, 0xEA, 0x02, 0xC0, 0x2A],
        &[],
    );
    run(&mut cpu, 7);
    assert_eq!(cpu.mem().read8(0xC000), 0x99);
    assert_eq!(cpu.mem().read8(0xC001), 0x99);
    assert_eq!(cpu.mem().read8(0xFF80), 0x99);
    assert_eq!(cpu.mem().read8(0xC002), 0x99);
    assert_eq!(cpu.regs().get_HL(), 0xC001);
    run(&mut cpu, 1);
    assert_eq!(cpu.regs().A, 0x99);
    assert_eq!(cpu.regs().PC, 0x110);
}

#[test]
fn jumps_do_not_advance_past_the_opcode() {
    // JP 0x0200 ; at 0x200: JR 0x10 ; at 0x210: NOP
    let mut cpu = cpu_with(&[0xC3, 0x00, 0x02], &[(0x200, &[0x18, 0x10]), (0x210, &[0x00])]);
    run(&mut cpu, 1);
    assert_eq!(cpu.regs().PC, 0x200);
    run(&mut cpu, 1);
    assert_eq!(cpu.regs().PC, 0x210);
    run(&mut cpu, 1);
    assert_eq!(cpu.regs().PC, 0x211);
    assert_eq!(cpu.total_cycles(), 16 + 12 + 4);
}

#[test]
fn jr_nz_follows_bit_zero_of_f() {
    let mut cpu = cpu_with(&[0x20, 0x05], &[]);
    JPnzr8(&mut cpu);
    assert_eq!(cpu.regs().PC, 0x105);

    let mut cpu = cpu_with(&[0x20, 0x05], &[]);
    cpu.step();
    assert_eq!(cpu.regs().PC, 0x105);
}

#[test]
fn push_then_pop_exchanges_the_bytes() {
    // LD SP,0x5000
    let mut cpu = cpu_with(&[0x31, 0x00, 0x50], &[]);
    run(&mut cpu, 1);
    assert_eq!(cpu.regs().SP, 0x5000);
    PushStack(&mut cpu, 0x1234);
    assert_eq!(cpu.regs().SP, 0x4FFE);
    assert_eq!(cpu.mem().read8(0x5000), 0);
    assert_eq!(cpu.mem().read16(0x5000), 0x3412);
    let v = PopStack(&mut cpu);
    assert_eq!(v, 0x3412);
    assert_eq!(cpu.regs().SP, 0x5000);
}

#[test]
fn call_then_ret_returns_to_the_byte_swapped_address() {
    // LD SP,0x5000 ; CALL 0x0200 ; at 0x200: RET
    let mut cpu = cpu_with(&[0x31, 0x00, 0x50, 0xCD, 0x00, 0x02], &[(0x200, &[0xC9])]);
    run(&mut cpu, 2);
    assert_eq!(cpu.regs().PC, 0x200);
    assert_eq!(cpu.regs().SP, 0x4FFE);
    run(&mut cpu, 1);
    assert_eq!(cpu.regs().SP, 0x5000);
    assert_eq!(cpu.regs().PC, 0x0601);
    assert_eq!(cpu.total_cycles(), 12 + 24 + 16);
}

#[test]
fn call_function_pushes_pc_plus_three() {
    let mut cpu = cpu_with(&[0x31, 0x00, 0x60, 0xCD, 0x34, 0x12], &[]);
    run(&mut cpu, 1);
    CALLa16(&mut cpu);
    assert_eq!(cpu.regs().PC, 0x1234);
    assert_eq!(cpu.regs().SP, 0x5FFE);
    assert_eq!(cpu.mem().read16(0x6000), 0x0601);
}

#[test]
fn unknown_opcode_is_reported_and_changes_nothing() {
    let mut cpu = cpu_with(&[0xD3], &[]);
    assert!(cpu.can_step());
    let out = cpu.step();
    match out {
        StepOutcome::UnknownInstruction { pc, code } => {
            assert_eq!(pc, 0x100);
            assert_eq!(code, 0xD3);
        }
        _ => panic!("expected an unknown instruction"),
    }
    assert_eq!(cpu.regs().PC, 0x100);
    assert_eq!(cpu.total_cycles(), 0);
}

#[test]
fn step_reports_the_opcode_it_ran() {
    let mut cpu = cpu_with(&[0xF3], &[]);
    match cpu.step() {
        StepOutcome::Executed { pc, code, opcode } => {
            assert_eq!(pc, 0x100);
            assert_eq!(code, 0xF3);
            assert_eq!(opcode.name, "DI");
            assert_eq!(opcode.len, 1);
            assert_eq!(opcode.cycles, 4);
            assert_eq!(opcode.execute, Instr::Di);
            assert!(!opcode.jump);
        }
        _ => panic!("expected DI to run"),
    }
    assert_eq!(cpu.regs().PC, 0x101);
}

#[test]
fn can_step_refuses_what_would_overflow_or_leave_memory() {
    // RET with SP = 1: SP + 2 = 3, and the word at 3 lies inside the image.
    let mut cpu = cpu_with(&[0x31, 0x01, 0x00, 0xC9], &[]);
    run(&mut cpu, 1);
    assert!(cpu.can_step());
    // CALL needs SP >= 2.
    let mut cpu = cpu_with(&[0x31, 0x01, 0x00, 0xCD, 0x00, 0x02], &[]);
    run(&mut cpu, 1);
    assert!(!cpu.can_step());
    // An image too short for the operand of LD HL,d16 at its end.
    let mut short = vec![0u8; 0x101];
    short[0x100] = 0x21;
    let mut cpu = Cpu::new(Mem::new(read_rom_from_file(&String::from("s.gb"), 0x101, short)));
    cpu.reset();
    assert!(!cpu.can_step());
}
