use vstd::prelude::*;
use crate::mem::{Mem, MemView};

verus! {

/// The register file of the CPU.
#[allow(non_snake_case)]
#[derive(Copy, Clone, Debug)]
pub struct Registers {
    pub A: u8,
    pub B: u8,
    pub D: u8,
    pub H: u8,
    pub F: u8,
    pub C: u8,
    pub E: u8,
    pub L: u8,
    pub PC: u16,
    pub SP: u16,
}

/// The 16-bit value of a register pair whose high byte is `hi` and low byte `lo`.
pub open spec fn pair(hi: u8, lo: u8) -> u16 {
    (hi as int * 256 + lo as int) as u16
}

/// The high byte of a 16-bit value.
pub open spec fn high(v: u16) -> u8 {
    (v / 256) as u8
}

/// The low byte of a 16-bit value.
pub open spec fn low(v: u16) -> u8 {
    (v % 256) as u8
}

proof fn lemma_pair_bits(hi: u8, lo: u8)
    ensures
        ((hi as u16) << 8u16) | ((lo as u16) & 0xFFu16) == pair(hi, lo),
{
    assert(((hi as u16) << 8u16) | ((lo as u16) & 0xFFu16) == hi as int * 256 + lo as int)
        by (bit_vector);
}

proof fn lemma_split_bits(v: u16)
    ensures
        ((v & 0xFF00u16) >> 8u16) as u8 == high(v),
        (v & 0xFFu16) as u8 == low(v),
{
    assert(((v & 0xFF00u16) >> 8u16) as u8 == v / 256) by (bit_vector);
    assert((v & 0xFFu16) as u8 == v % 256) by (bit_vector);
}

proof fn lemma_flag_bit(f: u8)
    ensures
        f & (0b1000_0000u8 >> 7u8) == f & 1u8,
        f & (0b0100_0000u8 >> 6u8) == f & 1u8,
        f & (0b0010_0000u8 >> 5u8) == f & 1u8,
        f & (0b0001_0000u8 >> 4u8) == f & 1u8,
{
    assert(f & (0b1000_0000u8 >> 7u8) == f & 1u8) by (bit_vector);
    assert(f & (0b0100_0000u8 >> 6u8) == f & 1u8) by (bit_vector);
    assert(f & (0b0010_0000u8 >> 5u8) == f & 1u8) by (bit_vector);
    assert(f & (0b0001_0000u8 >> 4u8) == f & 1u8) by (bit_vector);
}

/// Flag masks of `F`.
pub const FLAG_Z: u8 = 0b1000_0000;
pub const FLAG_N: u8 = 0b0100_0000;
pub const FLAG_H: u8 = 0b0010_0000;
pub const FLAG_C: u8 = 0b0001_0000;

#[allow(non_snake_case)]
impl Registers {
    /// All registers zero.
    pub open spec fn zeroed() -> Registers {
        Registers { A: 0, B: 0, D: 0, H: 0, F: 0, C: 0, E: 0, L: 0, PC: 0, SP: 0 }
    }

    pub open spec fn af(self) -> u16 {
        pair(self.A, self.F)
    }

    pub open spec fn bc(self) -> u16 {
        pair(self.B, self.C)
    }

    pub open spec fn de(self) -> u16 {
        pair(self.D, self.E)
    }

    pub open spec fn hl(self) -> u16 {
        pair(self.H, self.L)
    }

    pub open spec fn with_af(self, v: u16) -> Registers {
        Registers { A: high(v), F: low(v), ..self }
    }

    pub open spec fn with_bc(self, v: u16) -> Registers {
        Registers { B: high(v), C: low(v), ..self }
    }

    pub open spec fn with_de(self, v: u16) -> Registers {
        Registers { D: high(v), E: low(v), ..self }
    }

    pub open spec fn with_hl(self, v: u16) -> Registers {
        Registers { H: high(v), L: low(v), ..self }
    }

    /// What every flag getter reports: whether bit 0 of `F` is set.
    pub open spec fn flag_bit0(self) -> bool {
        self.F & 1u8 == 1u8
    }

    pub fn get_AF(self) -> (r: u16)
        ensures
            r == self.af(),
    {
        proof { lemma_pair_bits(self.A, self.F); }
        ((self.A as u16) << 8) | ((self.F as u16) & 0xFF)
    }

    pub fn set_AF(&mut self, v: u16)
        ensures
            *final(self) == old(self).with_af(v),
    {
        proof { lemma_split_bits(v); }
        self.A = ((v & 0xFF00) >> 8) as u8;
        self.F = (v & 0xFF) as u8;
    }

    pub fn get_BC(self) -> (r: u16)
        ensures
            r == self.bc(),
    {
        proof { lemma_pair_bits(self.B, self.C); }
        ((self.B as u16) << 8) | ((self.C as u16) & 0xFF)
    }

    pub fn set_BC(&mut self, v: u16)
        ensures
            *final(self) == old(self).with_bc(v),
    {
        proof { lemma_split_bits(v); }
        self.B = ((v & 0xFF00) >> 8) as u8;
        self.C = (v & 0xFF) as u8;
    }

    pub fn get_DE(self) -> (r: u16)
        ensures
            r == self.de(),
    {
        proof { lemma_pair_bits(self.D, self.E); }
        ((self.D as u16) << 8) | ((self.E as u16) & 0xFF)
    }

    pub fn set_DE(&mut self, v: u16)
        ensures
            *final(self) == old(self).with_de(v),
    {
        proof { lemma_split_bits(v); }
        self.D = ((v & 0xFF00) >> 8) as u8;
        self.E = (v & 0xFF) as u8;
    }

    pub fn get_HL(self) -> (r: u16)
        ensures
            r == self.hl(),
    {
        proof { lemma_pair_bits(self.H, self.L); }
        ((self.H as u16) << 8) | ((self.L as u16) & 0xFF)
    }

    pub fn set_HL(&mut self, v: u16)
        ensures
            *final(self) == old(self).with_hl(v),
    {
        proof { lemma_split_bits(v); }
        self.H = ((v & 0xFF00) >> 8) as u8;
        self.L = (v & 0xFF) as u8;
    }

    pub fn get_SP(self) -> (r: u16)
        ensures
            r == self.SP,
    {
        self.SP
    }

    pub fn set_SP(&mut self, v: u16)
        ensures
            *final(self) == (Registers { SP: v, ..*old(self) }),
    {
        self.SP = v;
    }

    pub fn get_PC(self) -> (r: u16)
        ensures
            r == self.PC,
    {
        self.PC
    }

    pub fn set_PC(&mut self, v: u16)
        ensures
            *final(self) == (Registers { PC: v, ..*old(self) }),
    {
        self.PC = v;
    }

    pub fn set_FZ(&mut self)
        ensures
            *final(self) == (Registers { F: old(self).F | FLAG_Z, ..*old(self) }),
    {
        self.F |= FLAG_Z
    }

    /// Reports bit 0 of `F`: the mask `0b1000_0000 >> 7` is applied.
    pub fn get_FZ(&mut self) -> (r: bool)
        ensures
            *final(self) == *old(self),
            r == old(self).flag_bit0(),
    {
        proof { lemma_flag_bit(self.F); }
        (self.F & (0b1000_0000 >> 7)) == 1
    }

    pub fn set_FN(&mut self)
        ensures
            *final(self) == (Registers { F: old(self).F | FLAG_N, ..*old(self) }),
    {
        self.F |= FLAG_N
    }

    /// Reports bit 0 of `F`: the mask `0b0100_0000 >> 6` is applied.
    pub fn get_FN(&mut self) -> (r: bool)
        ensures
            *final(self) == *old(self),
            r == old(self).flag_bit0(),
    {
        proof { lemma_flag_bit(self.F); }
        (self.F & (0b0100_0000 >> 6)) == 1
    }

    pub fn set_FH(&mut self)
        ensures
            *final(self) == (Registers { F: old(self).F | FLAG_H, ..*old(self) }),
    {
        self.F |= FLAG_H
    }

    /// Reports bit 0 of `F`: the mask `0b0010_0000 >> 5` is applied.
    pub fn get_FH(&mut self) -> (r: bool)
        ensures
            *final(self) == *old(self),
            r == old(self).flag_bit0(),
    {
        proof { lemma_flag_bit(self.F); }
        (self.F & (0b0010_0000 >> 5)) == 1
    }

    pub fn set_FC(&mut self)
        ensures
            *final(self) == (Registers { F: old(self).F | FLAG_C, ..*old(self) }),
    {
        self.F |= FLAG_C
    }

    /// Reports bit 0 of `F`: the mask `0b0001_0000 >> 4` is applied.
    pub fn get_FC(&mut self) -> (r: bool)
        ensures
            *final(self) == *old(self),
            r == old(self).flag_bit0(),
    {
        proof { lemma_flag_bit(self.F); }
        (self.F & (0b0001_0000 >> 4)) == 1
    }
}

/// Reading a register pair gives back what was last written to it, and
/// writing a pair the value it holds changes nothing.
pub proof fn lemma_register_pair_roundtrip(r: Registers, v: u16)
    ensures
        r.with_af(v).af() == v,
        r.with_bc(v).bc() == v,
        r.with_de(v).de() == v,
        r.with_hl(v).hl() == v,
        r.with_af(r.af()) == r,
        r.with_bc(r.bc()) == r,
        r.with_de(r.de()) == r,
        r.with_hl(r.hl()) == r,
{
}

/// Writing one register pair leaves the other pairs as they were.
pub proof fn lemma_register_pairs_independent(r: Registers, v: u16)
    ensures
        r.with_af(v).bc() == r.bc() && r.with_af(v).de() == r.de() && r.with_af(v).hl() == r.hl(),
        r.with_bc(v).af() == r.af() && r.with_bc(v).de() == r.de() && r.with_bc(v).hl() == r.hl(),
        r.with_de(v).af() == r.af() && r.with_de(v).bc() == r.bc() && r.with_de(v).hl() == r.hl(),
        r.with_hl(v).af() == r.af() && r.with_hl(v).bc() == r.bc() && r.with_hl(v).de() == r.de(),
{
}

/// Setting a flag is idempotent and sets its bit of `F`.
pub proof fn lemma_flag_set_idempotent(f: u8)
    ensures
        (f | FLAG_Z) | FLAG_Z == f | FLAG_Z,
        (f | FLAG_N) | FLAG_N == f | FLAG_N,
        (f | FLAG_H) | FLAG_H == f | FLAG_H,
        (f | FLAG_C) | FLAG_C == f | FLAG_C,
        (f | FLAG_Z) & FLAG_Z == FLAG_Z,
        (f | FLAG_N) & FLAG_N == FLAG_N,
        (f | FLAG_H) & FLAG_H == FLAG_H,
        (f | FLAG_C) & FLAG_C == FLAG_C,
{
    assert((f | 0x80u8) | 0x80u8 == f | 0x80u8) by (bit_vector);
    assert((f | 0x40u8) | 0x40u8 == f | 0x40u8) by (bit_vector);
    assert((f | 0x20u8) | 0x20u8 == f | 0x20u8) by (bit_vector);
    assert((f | 0x10u8) | 0x10u8 == f | 0x10u8) by (bit_vector);
    assert((f | 0x80u8) & 0x80u8 == 0x80u8) by (bit_vector);
    assert((f | 0x40u8) & 0x40u8 == 0x40u8) by (bit_vector);
    assert((f | 0x20u8) & 0x20u8 == 0x20u8) by (bit_vector);
    assert((f | 0x10u8) & 0x10u8 == 0x10u8) by (bit_vector);
}

/// A flag getter reports what the last flag setter set only where bit 0 of
/// `F` was already set: setters touch bits 4 to 7, getters read bit 0.
pub proof fn lemma_flag_get_after_set(r: Registers)
    requires
        r.flag_bit0(),
    ensures
        (Registers { F: r.F | FLAG_Z, ..r }).flag_bit0(),
        (Registers { F: r.F | FLAG_N, ..r }).flag_bit0(),
        (Registers { F: r.F | FLAG_H, ..r }).flag_bit0(),
        (Registers { F: r.F | FLAG_C, ..r }).flag_bit0(),
{
    let f = r.F;
    assert(f & 1u8 == 1u8 ==> (f | 0x80u8) & 1u8 == 1u8) by (bit_vector);
    assert(f & 1u8 == 1u8 ==> (f | 0x40u8) & 1u8 == 1u8) by (bit_vector);
    assert(f & 1u8 == 1u8 ==> (f | 0x20u8) & 1u8 == 1u8) by (bit_vector);
    assert(f & 1u8 == 1u8 ==> (f | 0x10u8) & 1u8 == 1u8) by (bit_vector);
}


/// The instructions that the CPU knows.
#[derive(Copy, Clone, Debug, PartialEq, Eq, Structural)]
pub enum Instr {
    Unk,
    Nop,
    XorA,
    IncE,
    LdHlD16,
    LdAHl,
    LdDeA,
    LdDeD16,
    LdSpD16,
    LddHlA,
    LdCD8,
    LdAD8,
    LdBD8,
    LdhA8A,
    LdA16A,
    LdAL,
    LdBA,
    LdAH,
    JpA16,
    JrR8,
    JpNzR8,
    CallA16,
    Ret,
    Di,
}

/// An entry of the instruction table: mnemonic, length in bytes, cycle
/// count, the instruction it runs, and whether it sets `PC` itself.
#[derive(Copy, Clone, Debug)]
pub struct Opcode {
    pub name: &'static str,
    pub len: u16,
    pub cycles: u32,
    pub execute: Instr,
    pub jump: bool,
}

/// The table entry of an opcode byte.
pub open spec fn opcode_table(code: u8) -> Opcode {
    match code {
        0x00 => Opcode { name: "NOP", len: 1, cycles: 4, execute: Instr::Nop, jump: false },
        0x06 => Opcode { name: "LD B,d8", len: 2, cycles: 8, execute: Instr::LdBD8, jump: false },
        0x0E => Opcode { name: "LD C, d8", len: 2, cycles: 8, execute: Instr::LdCD8, jump: false },
        0x11 => Opcode { name: "LD DE, d16", len: 3, cycles: 12, execute: Instr::LdDeD16, jump: false },
        0x12 => Opcode { name: "LD (DE), A", len: 1, cycles: 8, execute: Instr::LdDeA, jump: false },
        0x18 => Opcode { name: "JR r8", len: 2, cycles: 12, execute: Instr::JrR8, jump: true },
        0x1C => Opcode { name: "INC E", len: 1, cycles: 4, execute: Instr::IncE, jump: false },
        0x20 => Opcode { name: "JR NZ, r8", len: 2, cycles: 12, execute: Instr::JpNzR8, jump: true },
        0x21 => Opcode { name: "LD HL, d16", len: 3, cycles: 13, execute: Instr::LdHlD16, jump: false },
        0x2A => Opcode { name: "LDI A, (HL)", len: 1, cycles: 8, execute: Instr::LdAHl, jump: false },
        0x31 => Opcode { name: "LD SP, d16", len: 3, cycles: 12, execute: Instr::LdSpD16, jump: false },
        0x32 => Opcode { name: "LDD (HL), a", len: 1, cycles: 8, execute: Instr::LddHlA, jump: false },
        0x3E => Opcode { name: "LD A, d8", len: 2, cycles: 8, execute: Instr::LdAD8, jump: false },
        0x47 => Opcode { name: "LD B, A", len: 1, cycles: 4, execute: Instr::LdBA, jump: false },
        0x7C => Opcode { name: "LD A, H", len: 1, cycles: 4, execute: Instr::LdAH, jump: false },
        0x7D => Opcode { name: "LD A, L", len: 1, cycles: 4, execute: Instr::LdAL, jump: false },
        0xAF => Opcode { name: "XOR A", len: 1, cycles: 4, execute: Instr::XorA, jump: false },
        0xE0 => Opcode { name: "LDH (a8),A", len: 2, cycles: 12, execute: Instr::LdhA8A, jump: false },
        0xEA => Opcode { name: "LD (a16),A", len: 3, cycles: 16, execute: Instr::LdA16A, jump: false },
        0xF3 => Opcode { name: "DI", len: 1, cycles: 4, execute: Instr::Di, jump: false },
        0xC3 => Opcode { name: "JP a16", len: 3, cycles: 16, execute: Instr::JpA16, jump: true },
        0xC9 => Opcode { name: "RET", len: 1, cycles: 16, execute: Instr::Ret, jump: true },
        0xCD => Opcode { name: "CALL a16", len: 3, cycles: 24, execute: Instr::CallA16, jump: true },
        _ => Opcode { name: "UNK", len: 1, cycles: 4, execute: Instr::Unk, jump: false },
    }
}

/// The whole instruction table, indexed by opcode byte.
pub open spec fn opcode_table_seq() -> Seq<Opcode> {
    Seq::new(256, |i: int| opcode_table(i as u8))
}

/// The Sharp LR35902 CPU: memory, registers, the cycles spent so far and the
/// instruction table.
pub struct Cpu {
    mem: Mem,
    regs: Registers,
    total_cyles: u64,
    opcodes: Vec<Opcode>,
}

/// What a [`Cpu`] holds, as mathematical values.
pub struct CpuView {
    pub mem: MemView,
    pub regs: Registers,
    pub total_cycles: u64,
    pub opcodes: Seq<Opcode>,
}

impl View for Cpu {
    type V = CpuView;

    closed spec fn view(&self) -> CpuView {
        CpuView { mem: self.mem@, regs: self.regs, total_cycles: self.total_cyles, opcodes: self.opcodes@ }
    }
}

/// What one step of the CPU did.
#[derive(Copy, Clone, Debug)]
pub enum StepOutcome {
    /// The opcode `code` at `pc` ran.
    Executed { pc: u16, code: u8, opcode: Opcode },
    /// The byte `code` at `pc` is no known instruction; nothing changed.
    UnknownInstruction { pc: u16, code: u8 },
}

impl CpuView {
    /// Memory is well formed and the instruction table is the fixed one.
    pub open spec fn wf(self) -> bool {
        &&& self.mem.wf()
        &&& self.opcodes == opcode_table_seq()
    }

    pub open spec fn with_regs(self, regs: Registers) -> CpuView {
        CpuView { regs: regs, ..self }
    }

    pub open spec fn with_pc(self, pc: u16) -> CpuView {
        self.with_regs(Registers { PC: pc, ..self.regs })
    }

    pub open spec fn with_mem(self, mem: MemView) -> CpuView {
        CpuView { mem: mem, ..self }
    }

    /// The byte after the opcode can be read.
    pub open spec fn imm8_ok(self) -> bool {
        &&& self.regs.PC < 0xFFFF
        &&& self.mem.byte_ok((self.regs.PC + 1) as u16)
    }

    /// The byte after the opcode.
    pub open spec fn imm8(self) -> u8 {
        self.mem.read8((self.regs.PC + 1) as u16)
    }

    /// The two bytes after the opcode can be read.
    pub open spec fn imm16_ok(self) -> bool {
        &&& self.regs.PC < 0xFFFF
        &&& self.mem.read16_ok((self.regs.PC + 1) as u16)
    }

    /// The little-endian word after the opcode.
    pub open spec fn imm16(self) -> u16 {
        self.mem.read16((self.regs.PC + 1) as u16)
    }

    pub open spec fn push_ok(self) -> bool {
        &&& self.mem.write16_ok(self.regs.SP)
        &&& self.regs.SP >= 2
    }

    /// Writes `v` at `SP`, then moves `SP` down by two.
    pub open spec fn push(self, v: u16) -> CpuView {
        CpuView {
            mem: self.mem.write16(self.regs.SP, v),
            regs: Registers { SP: (self.regs.SP - 2) as u16, ..self.regs },
            ..self
        }
    }

    pub open spec fn pop_ok(self) -> bool {
        &&& self.regs.SP + 2 <= 0xFFFF
        &&& self.mem.read16_ok((self.regs.SP + 2) as u16)
    }

    /// Moves `SP` up by two, then reads the word there.
    pub open spec fn pop(self) -> (CpuView, u16) {
        let sp = (self.regs.SP + 2) as u16;
        (self.with_regs(Registers { SP: sp, ..self.regs }), self.mem.read16(sp))
    }

    /// The instruction can run on this state without an overflow or an
    /// access outside memory.
    pub open spec fn can_execute(self, instr: Instr) -> bool {
        let r = self.regs;
        match instr {
            Instr::Unk => false,
            Instr::Nop | Instr::Di | Instr::XorA | Instr::IncE | Instr::LdAL | Instr::LdBA
            | Instr::LdAH => true,
            Instr::LdHlD16 | Instr::LdDeD16 | Instr::LdSpD16 | Instr::JpA16 => self.imm16_ok(),
            Instr::LdAHl | Instr::LddHlA => self.mem.byte_ok(r.hl()),
            Instr::LdDeA => self.mem.byte_ok(r.de()),
            Instr::LdCD8 | Instr::LdAD8 | Instr::LdBD8 => self.imm8_ok(),
            Instr::LdhA8A => self.imm8_ok() && self.mem.byte_ok((0xFF00 + self.imm8()) as u16),
            Instr::LdA16A => self.imm16_ok() && self.mem.byte_ok(self.imm16()),
            Instr::JrR8 => self.imm8_ok() && r.PC + self.imm8() <= 0xFFFF,
            Instr::JpNzR8 => self.imm8_ok() && (!r.flag_bit0() ==> r.PC + self.imm8() <= 0xFFFF),
            Instr::CallA16 => self.imm16_ok() && r.PC + 3 <= 0xFFFF && self.push_ok(),
            Instr::Ret => self.pop_ok(),
        }
    }

    /// The state after the instruction ran.
    pub open spec fn execute(self, instr: Instr) -> CpuView {
        let r = self.regs;
        match instr {
            Instr::Unk | Instr::Nop | Instr::Di => self,
            Instr::XorA => self.with_regs(Registers { A: 0, ..r }),
            Instr::IncE => self.with_regs(Registers { E: ((r.E + 1) % 256) as u8, ..r }),
            Instr::LdHlD16 => self.with_regs(r.with_hl(self.imm16())),
            Instr::LdAHl => self.with_regs(Registers { A: self.mem.read8(r.hl()), ..r }),
            Instr::LdDeA => self.with_mem(self.mem.write8(r.de(), r.A)),
            Instr::LdDeD16 => self.with_regs(r.with_de(self.imm16())),
            Instr::LdSpD16 => self.with_regs(Registers { SP: self.imm16(), ..r }),
            Instr::LddHlA => self.with_mem(self.mem.write8(r.hl(), r.A)),
            Instr::LdCD8 => self.with_regs(Registers { C: self.imm8(), ..r }),
            Instr::LdAD8 => self.with_regs(Registers { A: self.imm8(), ..r }),
            Instr::LdBD8 => self.with_regs(Registers { B: self.imm8(), ..r }),
            Instr::LdhA8A => self.with_mem(self.mem.write8((0xFF00 + self.imm8()) as u16, r.A)),
            Instr::LdA16A => self.with_mem(self.mem.write8(self.imm16(), r.A)),
            Instr::LdAL => self.with_regs(Registers { A: r.L, ..r }),
            Instr::LdBA => self.with_regs(Registers { B: r.A, ..r }),
            Instr::LdAH => self.with_regs(Registers { A: r.H, ..r }),
            Instr::JpA16 => self.with_pc(self.imm16()),
            Instr::JrR8 => self.with_pc((r.PC + self.imm8()) as u16),
            Instr::JpNzR8 => if r.flag_bit0() {
                self
            } else {
                self.with_pc((r.PC + self.imm8()) as u16)
            },
            Instr::CallA16 => self.push((r.PC + 3) as u16).with_pc(self.imm16()),
            Instr::Ret => {
                let (s, addr) = self.pop();
                s.with_pc(addr)
            },
        }
    }

    /// The table entry of the opcode at `PC`.
    pub open spec fn current_opcode(self) -> Opcode {
        opcode_table(self.mem.read8(self.regs.PC))
    }

    /// One step can run without an overflow or an access outside memory.
    pub open spec fn step_ok(self) -> bool {
        let op = self.current_opcode();
        &&& self.mem.byte_ok(self.regs.PC)
        &&& op.execute !is Unk ==> {
            &&& self.can_execute(op.execute)
            &&& self.total_cycles + op.cycles <= u64::MAX
        }
    }

    /// The state after one step: the instruction at `PC` runs, its cycles are
    /// counted, and `PC` moves past it unless it jumped. An unknown opcode
    /// changes nothing.
    pub open spec fn step(self) -> CpuView {
        let op = self.current_opcode();
        if op.execute is Unk {
            self
        } else {
            let s = self.execute(op.execute);
            let regs = if op.jump {
                s.regs
            } else {
                Registers { PC: ((s.regs.PC + op.len) % 65536) as u16, ..s.regs }
            };
            CpuView { regs: regs, total_cycles: (s.total_cycles + op.cycles) as u64, ..s }
        }
    }

    /// What one step reports.
    pub open spec fn step_outcome(self) -> StepOutcome {
        let code = self.mem.read8(self.regs.PC);
        if opcode_table(code).execute is Unk {
            StepOutcome::UnknownInstruction { pc: self.regs.PC, code: code }
        } else {
            StepOutcome::Executed { pc: self.regs.PC, code: code, opcode: opcode_table(code) }
        }
    }
}


/// The word after the opcode, read as an address.
pub fn addr16(cpu: &mut Cpu) -> (r: u16)
    requires
        old(cpu)@.imm16_ok(),
    ensures
        r == old(cpu)@.imm16(),
        final(cpu)@ == old(cpu)@,
{
    let v = cpu.mem.read16(cpu.regs.get_PC() + 1);
    v
}

/// The word after the opcode, read as an immediate value.
pub fn imm16(cpu: &mut Cpu) -> (r: u16)
    requires
        old(cpu)@.imm16_ok(),
    ensures
        r == old(cpu)@.imm16(),
        final(cpu)@ == old(cpu)@,
{
    let v = cpu.mem.read16(cpu.regs.get_PC() + 1);
    v
}

/// The byte after the opcode.
pub fn imm8(cpu: &mut Cpu) -> (r: u8)
    requires
        old(cpu)@.imm8_ok(),
    ensures
        r == old(cpu)@.imm8(),
        final(cpu)@ == old(cpu)@,
{
    let v = cpu.mem.read8(cpu.regs.get_PC() + 1);
    v
}

/// NOP: does nothing.
pub fn NOP(_cpu: &mut Cpu)
    ensures
        final(_cpu)@ == old(_cpu)@.execute(Instr::Nop),
{
}

/// XOR A: A becomes `A ^ A`, which is 0.
pub fn XORa(cpu: &mut Cpu)
    ensures
        final(cpu)@ == old(cpu)@.execute(Instr::XorA),
{
    let a = cpu.regs.A;
    assert(a ^ a == 0u8) by (bit_vector);
    cpu.regs.A = cpu.regs.A ^ cpu.regs.A;
}

/// INC E: E goes up by one, wrapping at 256.
pub fn INCe(cpu: &mut Cpu)
    ensures
        final(cpu)@ == old(cpu)@.execute(Instr::IncE),
{
    cpu.regs.E = cpu.regs.E.wrapping_add(1);
}

/// LD HL, d16: HL takes the word after the opcode.
pub fn LDhld16(cpu: &mut Cpu)
    requires
        old(cpu)@.can_execute(Instr::LdHlD16),
    ensures
        final(cpu)@ == old(cpu)@.execute(Instr::LdHlD16),
{
    let imm = imm16(cpu);
    cpu.regs.set_HL(imm);
}

/// LDI A, (HL): A takes the byte at HL.
pub fn LDahl(cpu: &mut Cpu)
    requires
        old(cpu)@.can_execute(Instr::LdAHl),
    ensures
        final(cpu)@ == old(cpu)@.execute(Instr::LdAHl),
{
    cpu.regs.A = cpu.mem.read8(cpu.regs.get_HL());
}

/// LD (DE), A: the byte at DE takes A.
pub fn LDdea(cpu: &mut Cpu)
    requires
        old(cpu)@.can_execute(Instr::LdDeA),
    ensures
        final(cpu)@ == old(cpu)@.execute(Instr::LdDeA),
{
    let de = cpu.regs.get_DE();
    cpu.mem.write8(de, cpu.regs.A);
}

/// LD DE, d16: DE takes the word after the opcode.
pub fn LDded16(cpu: &mut Cpu)
    requires
        old(cpu)@.can_execute(Instr::LdDeD16),
    ensures
        final(cpu)@ == old(cpu)@.execute(Instr::LdDeD16),
{
    let imm = imm16(cpu);
    cpu.regs.set_DE(imm);
}

/// LD SP, d16: SP takes the word after the opcode.
pub fn LDspd16(cpu: &mut Cpu)
    requires
        old(cpu)@.can_execute(Instr::LdSpD16),
    ensures
        final(cpu)@ == old(cpu)@.execute(Instr::LdSpD16),
{
    let imm = imm16(cpu);
    cpu.regs.set_SP(imm);
}

/// LDD (HL), A: the byte at HL takes A.
pub fn LDDhla(cpu: &mut Cpu)
    requires
        old(cpu)@.can_execute(Instr::LddHlA),
    ensures
        final(cpu)@ == old(cpu)@.execute(Instr::LddHlA),
{
    let hl = cpu.regs.get_HL();
    cpu.mem.write8(hl, cpu.regs.A);
}

/// LD C, d8: C takes the byte after the opcode.
pub fn LDcd8(cpu: &mut Cpu)
    requires
        old(cpu)@.can_execute(Instr::LdCD8),
    ensures
        final(cpu)@ == old(cpu)@.execute(Instr::LdCD8),
{
    let imm = imm8(cpu);
    cpu.regs.C = imm;
}

/// LD A, d8: A takes the byte after the opcode.
pub fn LDad8(cpu: &mut Cpu)
    requires
        old(cpu)@.can_execute(Instr::LdAD8),
    ensures
        final(cpu)@ == old(cpu)@.execute(Instr::LdAD8),
{
    let imm = imm8(cpu);
    cpu.regs.A = imm;
}

/// LD B, d8: B takes the byte after the opcode.
pub fn LDbd8(cpu: &mut Cpu)
    requires
        old(cpu)@.can_execute(Instr::LdBD8),
    ensures
        final(cpu)@ == old(cpu)@.execute(Instr::LdBD8),
{
    let imm = imm8(cpu);
    cpu.regs.B = imm;
}

/// LDH (a8), A: the byte at `0xFF00 + a8` takes A.
pub fn LDha8a(cpu: &mut Cpu)
    requires
        old(cpu)@.can_execute(Instr::LdhA8A),
    ensures
        final(cpu)@ == old(cpu)@.execute(Instr::LdhA8A),
{
    let imm = imm8(cpu);
    cpu.mem.write8(0xFF00 + imm as u16, cpu.regs.A);
}

/// LD (a16), A: the byte at the word after the opcode takes A.
pub fn LDa16a(cpu: &mut Cpu)
    requires
        old(cpu)@.can_execute(Instr::LdA16A),
    ensures
        final(cpu)@ == old(cpu)@.execute(Instr::LdA16A),
{
    let imm = addr16(cpu);
    cpu.mem.write8(imm, cpu.regs.A);
}

/// LD A, L.
pub fn LDal(cpu: &mut Cpu)
    ensures
        final(cpu)@ == old(cpu)@.execute(Instr::LdAL),
{
    cpu.regs.A = cpu.regs.L;
}

/// LD B, A.
pub fn LDba(cpu: &mut Cpu)
    ensures
        final(cpu)@ == old(cpu)@.execute(Instr::LdBA),
{
    cpu.regs.B = cpu.regs.A;
}

/// LD A, H.
pub fn LDah(cpu: &mut Cpu)
    ensures
        final(cpu)@ == old(cpu)@.execute(Instr::LdAH),
{
    cpu.regs.A = cpu.regs.H;
}

/// JP a16: PC takes the word after the opcode.
pub fn JPa16(cpu: &mut Cpu)
    requires
        old(cpu)@.can_execute(Instr::JpA16),
    ensures
        final(cpu)@ == old(cpu)@.execute(Instr::JpA16),
{
    let addr = addr16(cpu);
    cpu.regs.PC = addr;
}

/// JR r8: PC moves forward by the byte after the opcode, read unsigned.
pub fn JRr8(cpu: &mut Cpu)
    requires
        old(cpu)@.can_execute(Instr::JrR8),
    ensures
        final(cpu)@ == old(cpu)@.execute(Instr::JrR8),
{
    let offset = imm8(cpu) as u16;
    cpu.regs.PC += offset;
}

/// JR NZ, r8: as JR r8 unless `get_FZ` reports set (bit 0 of F).
pub fn JPnzr8(cpu: &mut Cpu)
    requires
        old(cpu)@.can_execute(Instr::JpNzR8),
    ensures
        final(cpu)@ == old(cpu)@.execute(Instr::JpNzR8),
{
    let offset = cpu.regs.PC;
    let v = imm8(cpu) as u16;
    if cpu.regs.get_FZ() == false {
        cpu.regs.PC = offset + v;
    }
}

/// CALL a16: pushes `PC + 3`, then PC takes the word after the opcode.
pub fn CALLa16(cpu: &mut Cpu)
    requires
        old(cpu)@.can_execute(Instr::CallA16),
    ensures
        final(cpu)@ == old(cpu)@.execute(Instr::CallA16),
{
    let addr = addr16(cpu);
    let next = cpu.regs.PC + 3;
    PushStack(cpu, next);
    cpu.regs.PC = addr;
}

/// RET: PC takes the word popped from the stack.
pub fn RET(cpu: &mut Cpu)
    requires
        old(cpu)@.can_execute(Instr::Ret),
    ensures
        final(cpu)@ == old(cpu)@.execute(Instr::Ret),
{
    let addr = PopStack(cpu);
    cpu.regs.PC = addr;
}

/// DI: does nothing.
pub fn DI(_cpu: &mut Cpu)
    ensures
        final(_cpu)@ == old(_cpu)@.execute(Instr::Di),
{
}

/// Writes `v` at SP with `Mem::write16`, then moves SP down by two.
pub fn PushStack(cpu: &mut Cpu, v: u16)
    requires
        old(cpu)@.push_ok(),
    ensures
        final(cpu)@ == old(cpu)@.push(v),
{
    cpu.mem.write16(cpu.regs.SP, v);
    cpu.regs.SP -= 2
}

/// Moves SP up by two, then reads the word there with `Mem::read16`.
pub fn PopStack(cpu: &mut Cpu) -> (r: u16)
    requires
        old(cpu)@.pop_ok(),
    ensures
        (final(cpu)@, r) == old(cpu)@.pop(),
{
    cpu.regs.SP += 2;
    let addr = cpu.mem.read16(cpu.regs.SP);
    addr
}


/// Runs one instruction other than `Unk`.
fn execute_instr(cpu: &mut Cpu, instr: Instr)
    requires
        old(cpu)@.can_execute(instr),
    ensures
        final(cpu)@ == old(cpu)@.execute(instr),
{
    match instr {
        Instr::Unk => {},
        Instr::Nop => NOP(cpu),
        Instr::XorA => XORa(cpu),
        Instr::IncE => INCe(cpu),
        Instr::LdHlD16 => LDhld16(cpu),
        Instr::LdAHl => LDahl(cpu),
        Instr::LdDeA => LDdea(cpu),
        Instr::LdDeD16 => LDded16(cpu),
        Instr::LdSpD16 => LDspd16(cpu),
        Instr::LddHlA => LDDhla(cpu),
        Instr::LdCD8 => LDcd8(cpu),
        Instr::LdAD8 => LDad8(cpu),
        Instr::LdBD8 => LDbd8(cpu),
        Instr::LdhA8A => LDha8a(cpu),
        Instr::LdA16A => LDa16a(cpu),
        Instr::LdAL => LDal(cpu),
        Instr::LdBA => LDba(cpu),
        Instr::LdAH => LDah(cpu),
        Instr::JpA16 => JPa16(cpu),
        Instr::JrR8 => JRr8(cpu),
        Instr::JpNzR8 => JPnzr8(cpu),
        Instr::CallA16 => CALLa16(cpu),
        Instr::Ret => RET(cpu),
        Instr::Di => DI(cpu),
    }
}

impl Cpu {
    /// A CPU over `mem` with every register zero and the fixed instruction table.
    pub fn new(mem: Mem) -> (r: Cpu)
        ensures
            r@ == (CpuView {
                mem: mem@,
                regs: Registers::zeroed(),
                total_cycles: 0,
                opcodes: opcode_table_seq(),
            }),
    {
        let mut table: Vec<Opcode> = Vec::new();
        let mut i: usize = 0;
        while i < 256
            invariant
                i <= 256,
                table@.len() == i,
                forall|j: int| 0 <= j < i ==> table@[j] == opcode_table(0xFFu8),
            decreases 256 - i,
        {
            table.push(Opcode { name: "UNK", len: 1, cycles: 4, execute: Instr::Unk, jump: false });
            i = i + 1;
        }
        let mut cpu: Cpu;
        cpu = Cpu {
            regs: Registers { A: 0, B: 0, D: 0, H: 0, F: 0, C: 0, E: 0, L: 0, PC: 0, SP: 0 },
            mem: mem,
            total_cyles: 0,
            opcodes: table,
        };
        cpu.opcodes.set(0x00, Opcode {
            name: "NOP",
            len: 1,
            cycles: 4,
            execute: Instr::Nop,
            jump: false,
        });
        cpu.opcodes.set(0x06, Opcode {
            name: "LD B,d8",
            len: 2,
            cycles: 8,
            execute: Instr::LdBD8,
            jump: false,
        });
        cpu.opcodes.set(0x0E, Opcode {
            name: "LD C, d8",
            len: 2,
            cycles: 8,
            execute: Instr::LdCD8,
            jump: false,
        });
        cpu.opcodes.set(0x11, Opcode {
            name: "LD DE, d16",
            len: 3,
            cycles: 12,
            execute: Instr::LdDeD16,
            jump: false,
        });
        cpu.opcodes.set(0x12, Opcode {
            name: "LD (DE), A",
            len: 1,
            cycles: 8,
            execute: Instr::LdDeA,
            jump: false,
        });
        cpu.opcodes.set(0x18, Opcode {
            name: "JR r8",
            len: 2,
            cycles: 12,
            execute: Instr::JrR8,
            jump: true,
        });
        cpu.opcodes.set(0x1C, Opcode {
            name: "INC E",
            len: 1,
            cycles: 4,
            execute: Instr::IncE,
            jump: false,
        });
        cpu.opcodes.set(0x20, Opcode {
            name: "JR NZ, r8",
            len: 2,
            cycles: 12,
            execute: Instr::JpNzR8,
            jump: true,
        });
        cpu.opcodes.set(0x21, Opcode {
            name: "LD HL, d16",
            len: 3,
            cycles: 13,
            execute: Instr::LdHlD16,
            jump: false,
        });
        cpu.opcodes.set(0x2A, Opcode {
            name: "LDI A, (HL)",
            len: 1,
            cycles: 8,
            execute: Instr::LdAHl,
            jump: false,
        });
        cpu.opcodes.set(0x31, Opcode {
            name: "LD SP, d16",
            len: 3,
            cycles: 12,
            execute: Instr::LdSpD16,
            jump: false,
        });
        cpu.opcodes.set(0x32, Opcode {
            name: "LDD (HL), a",
            len: 1,
            cycles: 8,
            execute: Instr::LddHlA,
            jump: false,
        });
        cpu.opcodes.set(0x3E, Opcode {
            name: "LD A, d8",
            len: 2,
            cycles: 8,
            execute: Instr::LdAD8,
            jump: false,
        });
        cpu.opcodes.set(0x47, Opcode {
            name: "LD B, A",
            len: 1,
            cycles: 4,
            execute: Instr::LdBA,
            jump: false,
        });
        cpu.opcodes.set(0x7C, Opcode {
            name: "LD A, H",
            len: 1,
            cycles: 4,
            execute: Instr::LdAH,
            jump: false,
        });
        cpu.opcodes.set(0x7D, Opcode {
            name: "LD A, L",
            len: 1,
            cycles: 4,
            execute: Instr::LdAL,
            jump: false,
        });
        cpu.opcodes.set(0xAF, Opcode {
            name: "XOR A",
            len: 1,
            cycles: 4,
            execute: Instr::XorA,
            jump: false,
        });
        cpu.opcodes.set(0xE0, Opcode {
            name: "LDH (a8),A",
            len: 2,
            cycles: 12,
            execute: Instr::LdhA8A,
            jump: false,
        });
        cpu.opcodes.set(0xEA, Opcode {
            name: "LD (a16),A",
            len: 3,
            cycles: 16,
            execute: Instr::LdA16A,
            jump: false,
        });
        cpu.opcodes.set(0xF3, Opcode {
            name: "DI",
            len: 1,
            cycles: 4,
            execute: Instr::Di,
            jump: false,
        });
        cpu.opcodes.set(0xC3, Opcode {
            name: "JP a16",
            len: 3,
            cycles: 16,
            execute: Instr::JpA16,
            jump: true,
        });
        cpu.opcodes.set(0xC9, Opcode {
            name: "RET",
            len: 1,
            cycles: 16,
            execute: Instr::Ret,
            jump: true,
        });
        cpu.opcodes.set(0xCD, Opcode {
            name: "CALL a16",
            len: 3,
            cycles: 24,
            execute: Instr::CallA16,
            jump: true,
        });
        assert(cpu.opcodes@ =~= opcode_table_seq());
        cpu
    }

    /// Points PC at the cartridge entry point `0x100`.
    pub fn reset(&mut self)
        ensures
            final(self)@ == old(self)@.with_pc(0x100),
    {
        self.regs.PC = 0x100
    }

    /// Whether [`Cpu::step`] can run on this state.
    pub fn can_step(&self) -> (r: bool)
        requires
            self@.wf(),
        ensures
            r == self@.step_ok(),
    {
        let regs = self.regs;
        let pc = regs.PC;
        if !self.mem.byte_in_range(pc) {
            return false;
        }
        let code = self.mem.read8(pc);
        let op = self.opcodes[code as usize];
        let imm8_ok = pc < 0xFFFF && self.mem.byte_in_range(pc + 1);
        let imm16_ok = pc < 0xFFFF && self.mem.word_readable(pc + 1);
        let ok = match op.execute {
            Instr::Unk => return true,
            Instr::Nop | Instr::Di | Instr::XorA | Instr::IncE | Instr::LdAL | Instr::LdBA
            | Instr::LdAH => true,
            Instr::LdHlD16 | Instr::LdDeD16 | Instr::LdSpD16 | Instr::JpA16 => imm16_ok,
            Instr::LdAHl | Instr::LddHlA => self.mem.byte_in_range(regs.get_HL()),
            Instr::LdDeA => self.mem.byte_in_range(regs.get_DE()),
            Instr::LdCD8 | Instr::LdAD8 | Instr::LdBD8 => imm8_ok,
            Instr::LdhA8A => imm8_ok && self.mem.byte_in_range(
                0xFF00 + self.mem.read8(pc + 1) as u16,
            ),
            Instr::LdA16A => imm16_ok && self.mem.byte_in_range(self.mem.read16(pc + 1)),
            Instr::JrR8 => imm8_ok && (pc as u32) + (self.mem.read8(pc + 1) as u32) <= 0xFFFF,
            Instr::JpNzR8 => imm8_ok && (regs.F & 1 == 1 || (pc as u32) + (self.mem.read8(pc + 1) as u32) <= 0xFFFF),
            Instr::CallA16 => imm16_ok && (pc as u32) + 3 <= 0xFFFF && self.mem.word_writable(regs.SP)
                && regs.SP >= 2,
            Instr::Ret => (regs.SP as u32) + 2 <= 0xFFFF && self.mem.word_readable(regs.SP + 2),
        };
        ok && self.total_cyles <= u64::MAX - (op.cycles as u64)
    }

    /// Runs the instruction at `PC`, counts its cycles, and moves `PC` past it
    /// unless it jumped. An unknown opcode is reported and changes nothing.
    pub fn step(&mut self) -> (r: StepOutcome)
        requires
            old(self)@.wf(),
            old(self)@.step_ok(),
        ensures
            final(self)@ == old(self)@.step(),
            final(self)@.wf(),
            r == old(self)@.step_outcome(),
    {
        let pc = self.regs.PC;
        let code = self.mem.read8(pc);
        let opcode = self.opcodes[code as usize];
        if let Instr::Unk = opcode.execute {
            return StepOutcome::UnknownInstruction { pc: pc, code: code };
        }
        proof { lemma_execute_keeps_wf(self@, opcode.execute); }
        execute_instr(self, opcode.execute);
        self.total_cyles = self.total_cyles + opcode.cycles as u64;
        if !opcode.jump {
            self.regs.PC = self.regs.PC.wrapping_add(opcode.len);
        }
        StepOutcome::Executed { pc: pc, code: code, opcode: opcode }
    }

    /// The register file.
    pub fn regs(&self) -> (r: Registers)
        ensures
            r == self@.regs,
    {
        self.regs
    }

    /// The memory controller.
    pub fn mem(&self) -> (r: &Mem)
        ensures
            r@ == self@.mem,
    {
        &self.mem
    }

    /// The cycles spent so far.
    pub fn total_cycles(&self) -> (r: u64)
        ensures
            r == self@.total_cycles,
    {
        self.total_cyles
    }
}

/// Every instruction keeps the memory well formed and the instruction table
/// as it is.
pub proof fn lemma_execute_keeps_wf(s: CpuView, instr: Instr)
    requires
        s.wf(),
        s.can_execute(instr),
    ensures
        s.execute(instr).wf(),
{
}

/// One step keeps the state well formed.
pub proof fn lemma_step_keeps_wf(s: CpuView)
    requires
        s.wf(),
        s.step_ok(),
    ensures
        s.step().wf(),
{
    let op = s.current_opcode();
    if op.execute !is Unk {
        lemma_execute_keeps_wf(s, op.execute);
    }
}

/// A step counts the cycles of the opcode it ran, and moves `PC` past an
/// opcode that does not jump.
pub proof fn lemma_step_advances(s: CpuView)
    requires
        s.wf(),
        s.step_ok(),
        s.current_opcode().execute !is Unk,
    ensures
        s.step().total_cycles == s.total_cycles + s.current_opcode().cycles,
        !s.current_opcode().jump ==> s.step().regs.PC == (s.execute(s.current_opcode().execute).regs.PC
            + s.current_opcode().len) % 65536,
{
}

/// An opcode that does not jump leaves `PC` to the step, which moves it by the
/// opcode's length.
pub proof fn lemma_non_jump_advances_pc(s: CpuView)
    requires
        s.wf(),
        s.step_ok(),
        s.current_opcode().execute !is Unk,
        !s.current_opcode().jump,
    ensures
        s.step().regs.PC == (s.regs.PC + s.current_opcode().len) % 65536,
{
}

/// Popping right after a push below `0x8000` restores `SP` and returns the
/// pushed word with its bytes exchanged.
pub proof fn lemma_push_then_pop(s: CpuView, v: u16)
    requires
        s.push_ok(),
        s.regs.SP <= 0x7FFF,
    ensures
        s.push(v).pop_ok(),
        s.push(v).pop().0.regs == s.regs,
        s.push(v).pop().1 == crate::mem::swap_bytes(v),
{
    crate::mem::lemma_read16_after_write16(s.mem, s.regs.SP, v);
}

/// `CALL` followed by `RET` restores `SP` and jumps to the return address
/// `PC + 3` with its bytes exchanged.
pub proof fn lemma_call_then_ret(s: CpuView)
    requires
        s.can_execute(Instr::CallA16),
        s.regs.SP <= 0x7FFF,
    ensures
        s.execute(Instr::CallA16).can_execute(Instr::Ret),
        s.execute(Instr::CallA16).execute(Instr::Ret).regs.SP == s.regs.SP,
        s.execute(Instr::CallA16).execute(Instr::Ret).regs.PC == crate::mem::swap_bytes(
            (s.regs.PC + 3) as u16,
        ),
{
    lemma_push_then_pop(s, (s.regs.PC + 3) as u16);
}


/// NOP (0x00) moves PC by one and changes nothing else.
pub proof fn lemma_step_nop(s: CpuView)
    requires
        s.wf(),
        s.step_ok(),
        s.mem.read8(s.regs.PC) == 0x00,
    ensures
        ({
            let n = s.step();
            &&& n.regs.A == s.regs.A
            &&& n.regs.B == s.regs.B
            &&& n.regs.C == s.regs.C
            &&& n.regs.D == s.regs.D
            &&& n.regs.E == s.regs.E
            &&& n.regs.F == s.regs.F
            &&& n.regs.H == s.regs.H
            &&& n.regs.L == s.regs.L
            &&& n.regs.SP == s.regs.SP
            &&& n.regs.PC == (s.regs.PC + 1) % 65536
            &&& n.total_cycles == s.total_cycles + 4
            &&& n.opcodes == s.opcodes
            &&& n.mem == s.mem
        }),
{
}

/// LD B,d8 (0x06): B takes the byte after the opcode; PC moves by two.
pub proof fn lemma_step_ld_b_d8(s: CpuView)
    requires
        s.wf(),
        s.step_ok(),
        s.mem.read8(s.regs.PC) == 0x06,
    ensures
        ({
            let n = s.step();
            &&& n.regs.A == s.regs.A
            &&& n.regs.B == s.mem.read8((s.regs.PC + 1) as u16)
            &&& n.regs.C == s.regs.C
            &&& n.regs.D == s.regs.D
            &&& n.regs.E == s.regs.E
            &&& n.regs.F == s.regs.F
            &&& n.regs.H == s.regs.H
            &&& n.regs.L == s.regs.L
            &&& n.regs.SP == s.regs.SP
            &&& n.regs.PC == (s.regs.PC + 2) % 65536
            &&& n.total_cycles == s.total_cycles + 8
            &&& n.opcodes == s.opcodes
            &&& n.mem == s.mem
        }),
{
}

/// LD C,d8 (0x0E): C takes the byte after the opcode; PC moves by two.
pub proof fn lemma_step_ld_c_d8(s: CpuView)
    requires
        s.wf(),
        s.step_ok(),
        s.mem.read8(s.regs.PC) == 0x0E,
    ensures
        ({
            let n = s.step();
            &&& n.regs.A == s.regs.A
            &&& n.regs.B == s.regs.B
            &&& n.regs.C == s.mem.read8((s.regs.PC + 1) as u16)
            &&& n.regs.D == s.regs.D
            &&& n.regs.E == s.regs.E
            &&& n.regs.F == s.regs.F
            &&& n.regs.H == s.regs.H
            &&& n.regs.L == s.regs.L
            &&& n.regs.SP == s.regs.SP
            &&& n.regs.PC == (s.regs.PC + 2) % 65536
            &&& n.total_cycles == s.total_cycles + 8
            &&& n.opcodes == s.opcodes
            &&& n.mem == s.mem
        }),
{
}

/// LD A,d8 (0x3E): A takes the byte after the opcode; PC moves by two.
pub proof fn lemma_step_ld_a_d8(s: CpuView)
    requires
        s.wf(),
        s.step_ok(),
        s.mem.read8(s.regs.PC) == 0x3E,
    ensures
        ({
            let n = s.step();
            &&& n.regs.A == s.mem.read8((s.regs.PC + 1) as u16)
            &&& n.regs.B == s.regs.B
            &&& n.regs.C == s.regs.C
            &&& n.regs.D == s.regs.D
            &&& n.regs.E == s.regs.E
            &&& n.regs.F == s.regs.F
            &&& n.regs.H == s.regs.H
            &&& n.regs.L == s.regs.L
            &&& n.regs.SP == s.regs.SP
            &&& n.regs.PC == (s.regs.PC + 2) % 65536
            &&& n.total_cycles == s.total_cycles + 8
            &&& n.opcodes == s.opcodes
            &&& n.mem == s.mem
        }),
{
}

/// LD DE,d16 (0x11): D and E take the high and low byte of the little-endian word after the opcode; PC moves by three.
pub proof fn lemma_step_ld_de_d16(s: CpuView)
    requires
        s.wf(),
        s.step_ok(),
        s.mem.read8(s.regs.PC) == 0x11,
    ensures
        ({
            let n = s.step();
            &&& n.regs.A == s.regs.A
            &&& n.regs.B == s.regs.B
            &&& n.regs.C == s.regs.C
            &&& n.regs.D == s.mem.rom.buffer[s.regs.PC + 2]
            &&& n.regs.E == s.mem.rom.buffer[s.regs.PC + 1]
            &&& n.regs.F == s.regs.F
            &&& n.regs.H == s.regs.H
            &&& n.regs.L == s.regs.L
            &&& n.regs.SP == s.regs.SP
            &&& n.regs.PC == (s.regs.PC + 3) % 65536
            &&& n.total_cycles == s.total_cycles + 12
            &&& n.opcodes == s.opcodes
            &&& n.mem == s.mem
        }),
{
}

/// LD HL,d16 (0x21): H and L take the high and low byte of the little-endian word after the opcode; PC moves by three.
pub proof fn lemma_step_ld_hl_d16(s: CpuView)
    requires
        s.wf(),
        s.step_ok(),
        s.mem.read8(s.regs.PC) == 0x21,
    ensures
        ({
            let n = s.step();
            &&& n.regs.A == s.regs.A
            &&& n.regs.B == s.regs.B
            &&& n.regs.C == s.regs.C
            &&& n.regs.D == s.regs.D
            &&& n.regs.E == s.regs.E
            &&& n.regs.F == s.regs.F
            &&& n.regs.H == s.mem.rom.buffer[s.regs.PC + 2]
            &&& n.regs.L == s.mem.rom.buffer[s.regs.PC + 1]
            &&& n.regs.SP == s.regs.SP
            &&& n.regs.PC == (s.regs.PC + 3) % 65536
            &&& n.total_cycles == s.total_cycles + 13
            &&& n.opcodes == s.opcodes
            &&& n.mem == s.mem
        }),
{
}

/// LD SP,d16 (0x31): SP takes the little-endian word after the opcode; PC moves by three.
pub proof fn lemma_step_ld_sp_d16(s: CpuView)
    requires
        s.wf(),
        s.step_ok(),
        s.mem.read8(s.regs.PC) == 0x31,
    ensures
        ({
            let n = s.step();
            &&& n.regs.A == s.regs.A
            &&& n.regs.B == s.regs.B
            &&& n.regs.C == s.regs.C
            &&& n.regs.D == s.regs.D
            &&& n.regs.E == s.regs.E
            &&& n.regs.F == s.regs.F
            &&& n.regs.H == s.regs.H
            &&& n.regs.L == s.regs.L
            &&& n.regs.SP == (s.mem.rom.buffer[s.regs.PC + 2] * 256 + s.mem.rom.buffer[s.regs.PC + 1])
            &&& n.regs.PC == (s.regs.PC + 3) % 65536
            &&& n.total_cycles == s.total_cycles + 12
            &&& n.opcodes == s.opcodes
            &&& n.mem == s.mem
        }),
{
}

/// LD (DE),A (0x12): the byte at DE becomes A and no other byte changes; PC moves by one.
pub proof fn lemma_step_ld_de_a(s: CpuView)
    requires
        s.wf(),
        s.step_ok(),
        s.mem.read8(s.regs.PC) == 0x12,
    ensures
        ({
            let n = s.step();
            &&& n.regs.A == s.regs.A
            &&& n.regs.B == s.regs.B
            &&& n.regs.C == s.regs.C
            &&& n.regs.D == s.regs.D
            &&& n.regs.E == s.regs.E
            &&& n.regs.F == s.regs.F
            &&& n.regs.H == s.regs.H
            &&& n.regs.L == s.regs.L
            &&& n.regs.SP == s.regs.SP
            &&& n.regs.PC == (s.regs.PC + 1) % 65536
            &&& n.total_cycles == s.total_cycles + 8
            &&& n.opcodes == s.opcodes
            &&& n.mem.read8(((s.regs.D as int * 256 + s.regs.E) as u16)) == s.regs.A
            &&& forall|a: u16| a != ((s.regs.D as int * 256 + s.regs.E) as u16) && s.mem.byte_ok(a) ==> #[trigger] n.mem.read8(a) == s.mem.read8(a)
            &&& n.mem.rom.filename == s.mem.rom.filename && n.mem.rom.size == s.mem.rom.size
            &&& n.mem.wf()
        }),
{
}

/// LDD (HL),A (0x32): the byte at HL becomes A and no other byte changes; PC moves by one.
pub proof fn lemma_step_ldd_hl_a(s: CpuView)
    requires
        s.wf(),
        s.step_ok(),
        s.mem.read8(s.regs.PC) == 0x32,
    ensures
        ({
            let n = s.step();
            &&& n.regs.A == s.regs.A
            &&& n.regs.B == s.regs.B
            &&& n.regs.C == s.regs.C
            &&& n.regs.D == s.regs.D
            &&& n.regs.E == s.regs.E
            &&& n.regs.F == s.regs.F
            &&& n.regs.H == s.regs.H
            &&& n.regs.L == s.regs.L
            &&& n.regs.SP == s.regs.SP
            &&& n.regs.PC == (s.regs.PC + 1) % 65536
            &&& n.total_cycles == s.total_cycles + 8
            &&& n.opcodes == s.opcodes
            &&& n.mem.read8(((s.regs.H as int * 256 + s.regs.L) as u16)) == s.regs.A
            &&& forall|a: u16| a != ((s.regs.H as int * 256 + s.regs.L) as u16) && s.mem.byte_ok(a) ==> #[trigger] n.mem.read8(a) == s.mem.read8(a)
            &&& n.mem.rom.filename == s.mem.rom.filename && n.mem.rom.size == s.mem.rom.size
            &&& n.mem.wf()
        }),
{
}

/// LDI A,(HL) (0x2A): A takes the byte at HL; PC moves by one.
pub proof fn lemma_step_ldi_a_hl(s: CpuView)
    requires
        s.wf(),
        s.step_ok(),
        s.mem.read8(s.regs.PC) == 0x2A,
    ensures
        ({
            let n = s.step();
            &&& n.regs.A == s.mem.read8(((s.regs.H as int * 256 + s.regs.L) as u16))
            &&& n.regs.B == s.regs.B
            &&& n.regs.C == s.regs.C
            &&& n.regs.D == s.regs.D
            &&& n.regs.E == s.regs.E
            &&& n.regs.F == s.regs.F
            &&& n.regs.H == s.regs.H
            &&& n.regs.L == s.regs.L
            &&& n.regs.SP == s.regs.SP
            &&& n.regs.PC == (s.regs.PC + 1) % 65536
            &&& n.total_cycles == s.total_cycles + 8
            &&& n.opcodes == s.opcodes
            &&& n.mem == s.mem
        }),
{
}

/// LDH (a8),A (0xE0): the byte at 0xFF00 plus the byte after the opcode becomes A; PC moves by two.
pub proof fn lemma_step_ldh_a8_a(s: CpuView)
    requires
        s.wf(),
        s.step_ok(),
        s.mem.read8(s.regs.PC) == 0xE0,
    ensures
        ({
            let n = s.step();
            &&& n.regs.A == s.regs.A
            &&& n.regs.B == s.regs.B
            &&& n.regs.C == s.regs.C
            &&& n.regs.D == s.regs.D
            &&& n.regs.E == s.regs.E
            &&& n.regs.F == s.regs.F
            &&& n.regs.H == s.regs.H
            &&& n.regs.L == s.regs.L
            &&& n.regs.SP == s.regs.SP
            &&& n.regs.PC == (s.regs.PC + 2) % 65536
            &&& n.total_cycles == s.total_cycles + 12
            &&& n.opcodes == s.opcodes
            &&& n.mem.read8(((0xFF00 + s.mem.read8((s.regs.PC + 1) as u16)) as u16)) == s.regs.A
            &&& forall|a: u16| a != ((0xFF00 + s.mem.read8((s.regs.PC + 1) as u16)) as u16) && s.mem.byte_ok(a) ==> #[trigger] n.mem.read8(a) == s.mem.read8(a)
            &&& n.mem.rom.filename == s.mem.rom.filename && n.mem.rom.size == s.mem.rom.size
            &&& n.mem.wf()
        }),
{
}

/// LD (a16),A (0xEA): the byte at the little-endian word after the opcode becomes A; PC moves by three.
pub proof fn lemma_step_ld_a16_a(s: CpuView)
    requires
        s.wf(),
        s.step_ok(),
        s.mem.read8(s.regs.PC) == 0xEA,
    ensures
        ({
            let n = s.step();
            &&& n.regs.A == s.regs.A
            &&& n.regs.B == s.regs.B
            &&& n.regs.C == s.regs.C
            &&& n.regs.D == s.regs.D
            &&& n.regs.E == s.regs.E
            &&& n.regs.F == s.regs.F
            &&& n.regs.H == s.regs.H
            &&& n.regs.L == s.regs.L
            &&& n.regs.SP == s.regs.SP
            &&& n.regs.PC == (s.regs.PC + 3) % 65536
            &&& n.total_cycles == s.total_cycles + 16
            &&& n.opcodes == s.opcodes
            &&& n.mem.read8(((s.mem.rom.buffer[s.regs.PC + 2] * 256 + s.mem.rom.buffer[s.regs.PC + 1]) as u16)) == s.regs.A
            &&& forall|a: u16| a != ((s.mem.rom.buffer[s.regs.PC + 2] * 256 + s.mem.rom.buffer[s.regs.PC + 1]) as u16) && s.mem.byte_ok(a) ==> #[trigger] n.mem.read8(a) == s.mem.read8(a)
            &&& n.mem.rom.filename == s.mem.rom.filename && n.mem.rom.size == s.mem.rom.size
            &&& n.mem.wf()
        }),
{
}

/// LD B,A (0x47): B takes A; PC moves by one.
pub proof fn lemma_step_ld_b_a(s: CpuView)
    requires
        s.wf(),
        s.step_ok(),
        s.mem.read8(s.regs.PC) == 0x47,
    ensures
        ({
            let n = s.step();
            &&& n.regs.A == s.regs.A
            &&& n.regs.B == s.regs.A
            &&& n.regs.C == s.regs.C
            &&& n.regs.D == s.regs.D
            &&& n.regs.E == s.regs.E
            &&& n.regs.F == s.regs.F
            &&& n.regs.H == s.regs.H
            &&& n.regs.L == s.regs.L
            &&& n.regs.SP == s.regs.SP
            &&& n.regs.PC == (s.regs.PC + 1) % 65536
            &&& n.total_cycles == s.total_cycles + 4
            &&& n.opcodes == s.opcodes
            &&& n.mem == s.mem
        }),
{
}

/// LD A,H (0x7C): A takes H; PC moves by one.
pub proof fn lemma_step_ld_a_h(s: CpuView)
    requires
        s.wf(),
        s.step_ok(),
        s.mem.read8(s.regs.PC) == 0x7C,
    ensures
        ({
            let n = s.step();
            &&& n.regs.A == s.regs.H
            &&& n.regs.B == s.regs.B
            &&& n.regs.C == s.regs.C
            &&& n.regs.D == s.regs.D
            &&& n.regs.E == s.regs.E
            &&& n.regs.F == s.regs.F
            &&& n.regs.H == s.regs.H
            &&& n.regs.L == s.regs.L
            &&& n.regs.SP == s.regs.SP
            &&& n.regs.PC == (s.regs.PC + 1) % 65536
            &&& n.total_cycles == s.total_cycles + 4
            &&& n.opcodes == s.opcodes
            &&& n.mem == s.mem
        }),
{
}

/// LD A,L (0x7D): A takes L; PC moves by one.
pub proof fn lemma_step_ld_a_l(s: CpuView)
    requires
        s.wf(),
        s.step_ok(),
        s.mem.read8(s.regs.PC) == 0x7D,
    ensures
        ({
            let n = s.step();
            &&& n.regs.A == s.regs.L
            &&& n.regs.B == s.regs.B
            &&& n.regs.C == s.regs.C
            &&& n.regs.D == s.regs.D
            &&& n.regs.E == s.regs.E
            &&& n.regs.F == s.regs.F
            &&& n.regs.H == s.regs.H
            &&& n.regs.L == s.regs.L
            &&& n.regs.SP == s.regs.SP
            &&& n.regs.PC == (s.regs.PC + 1) % 65536
            &&& n.total_cycles == s.total_cycles + 4
            &&& n.opcodes == s.opcodes
            &&& n.mem == s.mem
        }),
{
}

/// XOR A (0xAF): A becomes 0; PC moves by one.
pub proof fn lemma_step_xor_a(s: CpuView)
    requires
        s.wf(),
        s.step_ok(),
        s.mem.read8(s.regs.PC) == 0xAF,
    ensures
        ({
            let n = s.step();
            &&& n.regs.A == 0
            &&& n.regs.B == s.regs.B
            &&& n.regs.C == s.regs.C
            &&& n.regs.D == s.regs.D
            &&& n.regs.E == s.regs.E
            &&& n.regs.F == s.regs.F
            &&& n.regs.H == s.regs.H
            &&& n.regs.L == s.regs.L
            &&& n.regs.SP == s.regs.SP
            &&& n.regs.PC == (s.regs.PC + 1) % 65536
            &&& n.total_cycles == s.total_cycles + 4
            &&& n.opcodes == s.opcodes
            &&& n.mem == s.mem
        }),
{
}

/// INC E (0x1C): E goes up by one modulo 256; PC moves by one.
pub proof fn lemma_step_inc_e(s: CpuView)
    requires
        s.wf(),
        s.step_ok(),
        s.mem.read8(s.regs.PC) == 0x1C,
    ensures
        ({
            let n = s.step();
            &&& n.regs.A == s.regs.A
            &&& n.regs.B == s.regs.B
            &&& n.regs.C == s.regs.C
            &&& n.regs.D == s.regs.D
            &&& n.regs.E == (s.regs.E + 1) % 256
            &&& n.regs.F == s.regs.F
            &&& n.regs.H == s.regs.H
            &&& n.regs.L == s.regs.L
            &&& n.regs.SP == s.regs.SP
            &&& n.regs.PC == (s.regs.PC + 1) % 65536
            &&& n.total_cycles == s.total_cycles + 4
            &&& n.opcodes == s.opcodes
            &&& n.mem == s.mem
        }),
{
}

/// DI (0xF3) moves PC by one and changes nothing else.
pub proof fn lemma_step_di(s: CpuView)
    requires
        s.wf(),
        s.step_ok(),
        s.mem.read8(s.regs.PC) == 0xF3,
    ensures
        ({
            let n = s.step();
            &&& n.regs.A == s.regs.A
            &&& n.regs.B == s.regs.B
            &&& n.regs.C == s.regs.C
            &&& n.regs.D == s.regs.D
            &&& n.regs.E == s.regs.E
            &&& n.regs.F == s.regs.F
            &&& n.regs.H == s.regs.H
            &&& n.regs.L == s.regs.L
            &&& n.regs.SP == s.regs.SP
            &&& n.regs.PC == (s.regs.PC + 1) % 65536
            &&& n.total_cycles == s.total_cycles + 4
            &&& n.opcodes == s.opcodes
            &&& n.mem == s.mem
        }),
{
}

/// JP a16 (0xC3): PC takes the little-endian word after the opcode.
pub proof fn lemma_step_jp_a16(s: CpuView)
    requires
        s.wf(),
        s.step_ok(),
        s.mem.read8(s.regs.PC) == 0xC3,
    ensures
        ({
            let n = s.step();
            &&& n.regs.A == s.regs.A
            &&& n.regs.B == s.regs.B
            &&& n.regs.C == s.regs.C
            &&& n.regs.D == s.regs.D
            &&& n.regs.E == s.regs.E
            &&& n.regs.F == s.regs.F
            &&& n.regs.H == s.regs.H
            &&& n.regs.L == s.regs.L
            &&& n.regs.SP == s.regs.SP
            &&& n.regs.PC == (s.mem.rom.buffer[s.regs.PC + 2] * 256 + s.mem.rom.buffer[s.regs.PC + 1])
            &&& n.total_cycles == s.total_cycles + 16
            &&& n.opcodes == s.opcodes
            &&& n.mem == s.mem
        }),
{
}

/// JR r8 (0x18): PC moves forward by the byte after the opcode, read unsigned.
pub proof fn lemma_step_jr_r8(s: CpuView)
    requires
        s.wf(),
        s.step_ok(),
        s.mem.read8(s.regs.PC) == 0x18,
    ensures
        ({
            let n = s.step();
            &&& n.regs.A == s.regs.A
            &&& n.regs.B == s.regs.B
            &&& n.regs.C == s.regs.C
            &&& n.regs.D == s.regs.D
            &&& n.regs.E == s.regs.E
            &&& n.regs.F == s.regs.F
            &&& n.regs.H == s.regs.H
            &&& n.regs.L == s.regs.L
            &&& n.regs.SP == s.regs.SP
            &&& n.regs.PC == s.regs.PC + s.mem.read8((s.regs.PC + 1) as u16)
            &&& n.total_cycles == s.total_cycles + 12
            &&& n.opcodes == s.opcodes
            &&& n.mem == s.mem
        }),
{
}

/// JR NZ,r8 (0x20): PC stays when bit 0 of F is set, and moves forward by the byte after the opcode otherwise.
pub proof fn lemma_step_jr_nz_r8(s: CpuView)
    requires
        s.wf(),
        s.step_ok(),
        s.mem.read8(s.regs.PC) == 0x20,
    ensures
        ({
            let n = s.step();
            &&& n.regs.A == s.regs.A
            &&& n.regs.B == s.regs.B
            &&& n.regs.C == s.regs.C
            &&& n.regs.D == s.regs.D
            &&& n.regs.E == s.regs.E
            &&& n.regs.F == s.regs.F
            &&& n.regs.H == s.regs.H
            &&& n.regs.L == s.regs.L
            &&& n.regs.SP == s.regs.SP
            &&& n.regs.PC == if s.regs.F % 2 == 1 { s.regs.PC as int } else { s.regs.PC + s.mem.read8((s.regs.PC + 1) as u16) }
            &&& n.total_cycles == s.total_cycles + 12
            &&& n.opcodes == s.opcodes
            &&& n.mem == s.mem
        }),
{
    let f = s.regs.F;
    assert((f & 1u8 == 1u8) == (f % 2 == 1)) by (bit_vector);
}

/// RET (0xC9): SP moves up by two and PC takes the little-endian word of the image at the new SP.
pub proof fn lemma_step_ret(s: CpuView)
    requires
        s.wf(),
        s.step_ok(),
        s.mem.read8(s.regs.PC) == 0xC9,
    ensures
        ({
            let n = s.step();
            &&& n.regs.A == s.regs.A
            &&& n.regs.B == s.regs.B
            &&& n.regs.C == s.regs.C
            &&& n.regs.D == s.regs.D
            &&& n.regs.E == s.regs.E
            &&& n.regs.F == s.regs.F
            &&& n.regs.H == s.regs.H
            &&& n.regs.L == s.regs.L
            &&& n.regs.SP == s.regs.SP + 2
            &&& n.regs.PC == s.mem.rom.buffer[s.regs.SP + 3] * 256 + s.mem.rom.buffer[s.regs.SP + 2]
            &&& n.total_cycles == s.total_cycles + 16
            &&& n.opcodes == s.opcodes
            &&& n.mem == s.mem
        }),
{
}

/// CALL a16 (0xCD): SP moves down by two whatever its address, PC takes the
/// little-endian word after the opcode, and below 0x8000 the image bytes at
/// the old SP and the one after it take the high and the low byte of
/// `PC + 3`; no other byte changes.
pub proof fn lemma_step_call_a16(s: CpuView)
    requires
        s.wf(),
        s.step_ok(),
        s.mem.read8(s.regs.PC) == 0xCD,
    ensures
        ({
            let n = s.step();
            let ret = s.regs.PC + 3;
            &&& n.regs.SP == s.regs.SP - 2
            &&& n.regs.PC == s.mem.rom.buffer[s.regs.PC + 2] * 256 + s.mem.rom.buffer[s.regs.PC + 1]
            &&& n.regs.A == s.regs.A && n.regs.B == s.regs.B && n.regs.C == s.regs.C
            &&& n.regs.D == s.regs.D && n.regs.E == s.regs.E && n.regs.F == s.regs.F
            &&& n.regs.H == s.regs.H && n.regs.L == s.regs.L
            &&& n.total_cycles == s.total_cycles + 24
            &&& n.mem.ram == s.mem.ram
            &&& n.mem.rom.buffer.len() == s.mem.rom.buffer.len()
            &&& s.regs.SP <= 0x7FFF ==> {
                &&& n.mem.rom.buffer[s.regs.SP as int] == ret / 256
                &&& n.mem.rom.buffer[s.regs.SP + 1] == ret % 256
                &&& forall|i: int| 0 <= i < s.mem.rom.buffer.len() && i != s.regs.SP && i != s.regs.SP + 1
                    ==> #[trigger] n.mem.rom.buffer[i] == s.mem.rom.buffer[i]
            }
            &&& s.regs.SP > 0x7FFF ==> n.mem == s.mem
        }),
{
}

/// A push moves SP down by two whatever the address of SP.
pub proof fn lemma_push_moves_sp(s: CpuView, v: u16)
    requires
        s.push_ok(),
    ensures
        s.push(v).regs.SP == s.regs.SP - 2,
        s.push(v).regs.PC == s.regs.PC,
{
}

/// An opcode byte outside the table changes nothing when stepped.
pub proof fn lemma_step_unknown(s: CpuView)
    requires
        s.wf(),
        s.step_ok(),
        ({
            let c = s.mem.read8(s.regs.PC);
            c != 0x00 && c != 0x06 && c != 0x0E && c != 0x11 && c != 0x12 && c != 0x18 && c != 0x1C
                && c != 0x20 && c != 0x21 && c != 0x2A && c != 0x31 && c != 0x32 && c != 0x3E && c != 0x47
                && c != 0x7C && c != 0x7D && c != 0xAF && c != 0xE0 && c != 0xEA && c != 0xF3 && c != 0xC3
                && c != 0xC9 && c != 0xCD
        }),
    ensures
        s.step() == s,
{
}

/// The length of every table entry is one plus the operand bytes that its
/// instruction reads: one byte for the d8/r8/a8 forms, two for d16/a16.
pub proof fn lemma_opcode_lengths(c: u8)
    ensures
        ({
            let op = opcode_table(c);
            &&& (op.execute == Instr::LdBD8 || op.execute == Instr::LdCD8 || op.execute == Instr::LdAD8
                || op.execute == Instr::LdhA8A || op.execute == Instr::JrR8 || op.execute == Instr::JpNzR8)
                ==> op.len == 2
            &&& (op.execute == Instr::LdHlD16 || op.execute == Instr::LdDeD16 || op.execute == Instr::LdSpD16
                || op.execute == Instr::LdA16A || op.execute == Instr::JpA16 || op.execute == Instr::CallA16)
                ==> op.len == 3
            &&& (op.execute == Instr::Nop || op.execute == Instr::XorA || op.execute == Instr::IncE
                || op.execute == Instr::LdAHl || op.execute == Instr::LdDeA || op.execute == Instr::LddHlA
                || op.execute == Instr::LdAL || op.execute == Instr::LdBA || op.execute == Instr::LdAH
                || op.execute == Instr::Ret || op.execute == Instr::Di || op.execute == Instr::Unk)
                ==> op.len == 1
            &&& (op.execute == Instr::JpA16 || op.execute == Instr::JrR8 || op.execute == Instr::JpNzR8
                || op.execute == Instr::CallA16 || op.execute == Instr::Ret) == op.jump
        }),
{
}


/// A register pair reads as its first register times 256 plus its second,
/// and writing a pair puts the high byte in the first register and the low
/// byte in the second.
pub proof fn lemma_register_pair_layout(r: Registers, v: u16)
    ensures
        r.af() == r.A * 256 + r.F,
        r.bc() == r.B * 256 + r.C,
        r.de() == r.D * 256 + r.E,
        r.hl() == r.H * 256 + r.L,
        r.with_af(v).A * 256 + r.with_af(v).F == v,
        r.with_bc(v).B * 256 + r.with_bc(v).C == v,
        r.with_de(v).D * 256 + r.with_de(v).E == v,
        r.with_hl(v).H * 256 + r.with_hl(v).L == v,
{
}

} // verus!
