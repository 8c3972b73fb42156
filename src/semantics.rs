use vstd::arithmetic::power2::*;
use vstd::prelude::*;

use crate::instruction::{arg_value, arg_values, ArgValue, ImplementationArg, Register, PC};
use crate::rv64_i::{
    arith_r_shift_i, bits_value, lemma_bits_value_bound, mem_read_value, mem_written, read,
    read_sext, sext, sext_n, sext_n_value, sext_value, signed, signed_lt, to_u64, valid_access,
    MEMORY_SIZE,
};

verus! {

/// The RV64I instructions this interpreter executes.
#[derive(Clone, Copy, Debug, PartialEq, Eq, Structural)]
pub enum Opcode {
    Lui,
    Auipc,
    Jal,
    Jalr,
    Beq,
    Bne,
    Blt,
    Bge,
    Bltu,
    Bgeu,
    Lb,
    Lh,
    Lw,
    Ld,
    Lbu,
    Lhu,
    Lwu,
    Sb,
    Sh,
    Sw,
    Sd,
    Addi,
    Slti,
    Sltiu,
    Xori,
    Ori,
    Andi,
    Addiw,
    Slli,
    Srli,
    Srai,
    Slliw,
    Srliw,
    Sraiw,
    Add,
    Sub,
    Sll,
    Slt,
    Sltu,
    Xor,
    Srl,
    Sra,
    Or,
    And,
    Addw,
    Subw,
    Sllw,
    Srlw,
    Sraw,
}

/// How an instruction's operands are written, in source order.
#[derive(Clone, Copy, Debug, PartialEq, Eq, Structural)]
pub enum Format {
    /// `rd, rs1, rs2`
    RegReg,
    /// `rd, rs1, imm`
    RegImm,
    /// `rd, rs1, shamt`
    Shift,
    /// `rd, offset(rs1)`
    Load,
    /// `rs2, offset(rs1)`
    Store,
    /// `rs1, rs2, offset`
    Branch,
    /// `rd, imm20`, the immediate being the upper 20 bits of a word
    Upper,
    /// `rd, imm20`, the immediate being a byte offset
    Jump,
}

pub open spec fn format_of(op: Opcode) -> Format {
    match op {
        Opcode::Lui | Opcode::Auipc => Format::Upper,
        Opcode::Jal => Format::Jump,
        Opcode::Beq | Opcode::Bne | Opcode::Blt | Opcode::Bge | Opcode::Bltu | Opcode::Bgeu => {
            Format::Branch
        },
        Opcode::Lb | Opcode::Lh | Opcode::Lw | Opcode::Ld | Opcode::Lbu | Opcode::Lhu
        | Opcode::Lwu => Format::Load,
        Opcode::Sb | Opcode::Sh | Opcode::Sw | Opcode::Sd => Format::Store,
        Opcode::Slli | Opcode::Srli | Opcode::Srai | Opcode::Slliw | Opcode::Srliw
        | Opcode::Sraiw => Format::Shift,
        Opcode::Jalr | Opcode::Addi | Opcode::Slti | Opcode::Sltiu | Opcode::Xori | Opcode::Ori
        | Opcode::Andi | Opcode::Addiw => Format::RegImm,
        _ => Format::RegReg,
    }
}

impl Opcode {
    pub fn format(&self) -> (r: Format)
        ensures
            r == format_of(*self),
    {
        match self {
            Opcode::Lui | Opcode::Auipc => Format::Upper,
            Opcode::Jal => Format::Jump,
            Opcode::Beq | Opcode::Bne | Opcode::Blt | Opcode::Bge | Opcode::Bltu | Opcode::Bgeu => {
                Format::Branch
            },
            Opcode::Lb | Opcode::Lh | Opcode::Lw | Opcode::Ld | Opcode::Lbu | Opcode::Lhu
            | Opcode::Lwu => Format::Load,
            Opcode::Sb | Opcode::Sh | Opcode::Sw | Opcode::Sd => Format::Store,
            Opcode::Slli | Opcode::Srli | Opcode::Srai | Opcode::Slliw | Opcode::Srliw
            | Opcode::Sraiw => Format::Shift,
            Opcode::Jalr | Opcode::Addi | Opcode::Slti | Opcode::Sltiu | Opcode::Xori
            | Opcode::Ori | Opcode::Andi | Opcode::Addiw => Format::RegImm,
            _ => Format::RegReg,
        }
    }
}

/// Width in bits of a load or store.
pub open spec fn width_of(op: Opcode) -> u32 {
    match op {
        Opcode::Lb | Opcode::Lbu | Opcode::Sb => 8,
        Opcode::Lh | Opcode::Lhu | Opcode::Sh => 16,
        Opcode::Lw | Opcode::Lwu | Opcode::Sw => 32,
        _ => 64,
    }
}

fn width(op: Opcode) -> (r: u32)
    ensures
        r == width_of(op),
{
    match op {
        Opcode::Lb | Opcode::Lbu | Opcode::Sb => 8,
        Opcode::Lh | Opcode::Lhu | Opcode::Sh => 16,
        Opcode::Lw | Opcode::Lwu | Opcode::Sw => 32,
        _ => 64,
    }
}

/// A word result sign-extended from its low 32 bits.
pub open spec fn sext32(x: u64) -> u64 {
    sext_n_value(x, 32)
}

/// Result of a register-register, register-immediate or shift instruction
/// on the operand values `a` (from `rs1`) and `b` (from `rs2`, the
/// immediate or the shift amount).
pub open spec fn alu_value(op: Opcode, a: u64, b: u64) -> u64 {
    match op {
        Opcode::Add | Opcode::Addi => a.wrapping_add(b),
        Opcode::Sub => a.wrapping_sub(b),
        Opcode::Sll | Opcode::Slli => a << (b % 64),
        Opcode::Slt | Opcode::Slti => if signed(a) < signed(b) {
            1
        } else {
            0
        },
        Opcode::Sltu | Opcode::Sltiu => if a < b {
            1
        } else {
            0
        },
        Opcode::Xor | Opcode::Xori => a ^ b,
        Opcode::Or | Opcode::Ori => a | b,
        Opcode::And | Opcode::Andi => a & b,
        Opcode::Srl | Opcode::Srli => a >> (b % 64),
        Opcode::Sra | Opcode::Srai => to_u64(signed(a) / pow2((b % 64) as nat) as int),
        Opcode::Addw | Opcode::Addiw => sext32(a.wrapping_add(b)),
        Opcode::Subw => sext32(a.wrapping_sub(b)),
        Opcode::Sllw | Opcode::Slliw => sext32(a << (b % 32)),
        Opcode::Srlw | Opcode::Srliw => sext32((a & 0xffff_ffff) >> (b % 32)),
        Opcode::Sraw | Opcode::Sraiw => to_u64(signed(sext32(a)) / pow2((b % 32) as nat) as int),
        _ => 0,
    }
}

/// Computes `alu_value`.
pub fn alu(op: Opcode, a: u64, b: u64) -> (r: u64)
    ensures
        r == alu_value(op, a, b),
{
    match op {
        Opcode::Add | Opcode::Addi => a.wrapping_add(b),
        Opcode::Sub => a.wrapping_sub(b),
        Opcode::Sll | Opcode::Slli => a << (b % 64),
        Opcode::Slt | Opcode::Slti => if signed_lt(Register { value: a }, Register { value: b }) {
            1
        } else {
            0
        },
        Opcode::Sltu | Opcode::Sltiu => if a < b {
            1
        } else {
            0
        },
        Opcode::Xor | Opcode::Xori => a ^ b,
        Opcode::Or | Opcode::Ori => a | b,
        Opcode::And | Opcode::Andi => a & b,
        Opcode::Srl | Opcode::Srli => a >> (b % 64),
        Opcode::Sra | Opcode::Srai => arith_r_shift_i(Register { value: a }, b).value,
        Opcode::Addw | Opcode::Addiw => sext_n(Register { value: a.wrapping_add(b) }, 32).value,
        Opcode::Subw => sext_n(Register { value: a.wrapping_sub(b) }, 32).value,
        Opcode::Sllw | Opcode::Slliw => sext_n(Register { value: a << (b % 32) }, 32).value,
        Opcode::Srlw | Opcode::Srliw => sext_n(Register { value: (a & 0xffff_ffff) >> (b % 32) }, 32).value,
        Opcode::Sraw | Opcode::Sraiw => {
            let w = sext_n(Register { value: a }, 32);
            arith_r_shift_i(w, b % 32).value
        },
        _ => 0,
    }
}

/// An instruction with its operands bound: register indices and the
/// immediate, already sign-extended (and shifted, for `lui` and `auipc`),
/// or the shift amount.
#[derive(Clone, Copy, Debug, PartialEq, Eq, Structural)]
pub struct Semantic {
    pub op: Opcode,
    pub rd: usize,
    pub rs1: usize,
    pub rs2: usize,
    pub imm: u64,
}

impl Semantic {
    pub open spec fn wf(&self) -> bool {
        self.rd < 32 && self.rs1 < 32 && self.rs2 < 32
    }
}

/// The 64-bit pattern of the `n`-bit two's-complement number whose
/// unsigned reading is `v`.
pub open spec fn sext_bits(v: nat, n: nat) -> u64 {
    if n >= 1 && v >= pow2((n - 1) as nat) {
        (v + pow2(64) - pow2(n)) as u64
    } else {
        v as u64
    }
}

proof fn lemma_sext_value_bits(s: Seq<bool>)
    requires
        1 <= s.len() <= 64,
    ensures
        sext_value(s) == sext_bits(bits_value(s), s.len()),
{
    lemma_bits_value_bound(s.drop_last());
    lemma_bits_value_bound(s);
    lemma_pow2_pos((s.len() - 1) as nat);
    lemma_pow2_unfold(s.len());
    if s.len() < 64 {
        lemma_pow2_strictly_increases(s.len(), 64);
    }
    let n = s.len();
    lemma2_to64();
    assert(bits_value(s) == bits_value(s.drop_last()) + if s.last() {
        pow2((n - 1) as nat)
    } else {
        0
    });
    if s.last() {
        assert(bits_value(s) >= pow2((n - 1) as nat));
    } else {
        assert(bits_value(s) < pow2((n - 1) as nat));
    }
}

pub open spec fn reg_arg(a: ArgValue) -> Option<usize> {
    match a {
        ArgValue::Register(r) => if r < 32 {
            Some(r as usize)
        } else {
            None
        },
        _ => None,
    }
}

pub open spec fn imm12_arg(a: ArgValue) -> Option<u64> {
    match a {
        ArgValue::Imm12(v) => Some(sext_bits(v, 12)),
        _ => None,
    }
}

pub open spec fn imm20_arg(a: ArgValue) -> Option<u64> {
    match a {
        ArgValue::Imm20(v) => Some(sext_bits(v, 20)),
        _ => None,
    }
}

pub open spec fn shamt_arg(a: ArgValue) -> Option<u64> {
    match a {
        ArgValue::Shamt(s) => Some(s),
        _ => None,
    }
}

fn reg_of(a: &ImplementationArg) -> (r: Option<usize>)
    ensures
        r == reg_arg(arg_value(*a)),
{
    match a {
        ImplementationArg::Register(r) => if *r < 32 {
            Some(*r)
        } else {
            None
        },
        _ => None,
    }
}

fn imm12_of(a: &ImplementationArg) -> (r: Option<u64>)
    ensures
        r == imm12_arg(arg_value(*a)),
{
    match a {
        ImplementationArg::Imm12(b) => {
            proof {
                lemma_sext_value_bits(b@);
            }
            Some(sext(*b).value)
        },
        _ => None,
    }
}

fn imm20_of(a: &ImplementationArg) -> (r: Option<u64>)
    ensures
        r == imm20_arg(arg_value(*a)),
{
    match a {
        ImplementationArg::Imm20(b) => {
            proof {
                lemma_sext_value_bits(b@);
            }
            Some(sext(*b).value)
        },
        _ => None,
    }
}

fn shamt_of(a: &ImplementationArg) -> (r: Option<u64>)
    ensures
        r == shamt_arg(arg_value(*a)),
{
    match a {
        ImplementationArg::Shamt(s) => Some(*s),
        _ => None,
    }
}

pub open spec fn sem(op: Opcode, rd: usize, rs1: usize, rs2: usize, imm: u64) -> Semantic {
    Semantic { op, rd, rs1, rs2, imm }
}

/// Binds parsed operands, in source order, to an instruction: `None` when
/// their number or kinds do not fit the instruction's format.
pub open spec fn bind_spec(op: Opcode, args: Seq<ArgValue>) -> Option<Semantic> {
    let f = format_of(op);
    if f == Format::Upper || f == Format::Jump {
        if args.len() == 2 && reg_arg(args[0]) is Some && imm20_arg(args[1]) is Some {
            let v = imm20_arg(args[1])->0;
            Some(sem(op, reg_arg(args[0])->0, 0, 0, if f == Format::Upper { v << 12u64 } else { v }))
        } else {
            None
        }
    } else if args.len() != 3 {
        None
    } else {
        let (a0, a1, a2) = (args[0], args[1], args[2]);
        match f {
            Format::RegReg => if reg_arg(a0) is Some && reg_arg(a1) is Some && reg_arg(a2) is Some {
                Some(sem(op, reg_arg(a0)->0, reg_arg(a1)->0, reg_arg(a2)->0, 0))
            } else {
                None
            },
            Format::RegImm => if reg_arg(a0) is Some && reg_arg(a1) is Some && imm12_arg(a2) is Some {
                Some(sem(op, reg_arg(a0)->0, reg_arg(a1)->0, 0, imm12_arg(a2)->0))
            } else {
                None
            },
            Format::Shift => if reg_arg(a0) is Some && reg_arg(a1) is Some && shamt_arg(a2) is Some {
                Some(sem(op, reg_arg(a0)->0, reg_arg(a1)->0, 0, shamt_arg(a2)->0))
            } else {
                None
            },
            Format::Load => if reg_arg(a0) is Some && imm12_arg(a1) is Some && reg_arg(a2) is Some {
                Some(sem(op, reg_arg(a0)->0, reg_arg(a2)->0, 0, imm12_arg(a1)->0))
            } else {
                None
            },
            Format::Store => if reg_arg(a0) is Some && imm12_arg(a1) is Some && reg_arg(a2) is Some {
                Some(sem(op, 0, reg_arg(a2)->0, reg_arg(a0)->0, imm12_arg(a1)->0))
            } else {
                None
            },
            _ => if reg_arg(a0) is Some && reg_arg(a1) is Some && imm12_arg(a2) is Some {
                Some(sem(op, 0, reg_arg(a0)->0, reg_arg(a1)->0, imm12_arg(a2)->0))
            } else {
                None
            },
        }
    }
}

/// Binds operands to an instruction; see `bind_spec`.
pub fn materialize(op: Opcode, args: &Vec<ImplementationArg>) -> (r: Option<Semantic>)
    ensures
        r == bind_spec(op, arg_values(args@)),
        r matches Some(s) ==> s.wf(),
{
    let ghost vals = arg_values(args@);
    let f = op.format();
    if matches!(f, Format::Upper) || matches!(f, Format::Jump) {
        if args.len() != 2 {
            return None;
        }
        assert(vals[0] == arg_value(args@[0]) && vals[1] == arg_value(args@[1]));
        let rd = match reg_of(&args[0]) {
            Some(r) => r,
            None => return None,
        };
        let v = match imm20_of(&args[1]) {
            Some(v) => v,
            None => return None,
        };
        let imm = if matches!(f, Format::Upper) {
            v << 12u64
        } else {
            v
        };
        return Some(Semantic { op, rd, rs1: 0, rs2: 0, imm });
    }
    if args.len() != 3 {
        return None;
    }
    let (a0, a1, a2) = (&args[0], &args[1], &args[2]);
    assert(vals[0] == arg_value(*a0) && vals[1] == arg_value(*a1) && vals[2] == arg_value(*a2));
    match f {
        Format::RegReg => match (reg_of(a0), reg_of(a1), reg_of(a2)) {
            (Some(rd), Some(rs1), Some(rs2)) => Some(Semantic { op, rd, rs1, rs2, imm: 0 }),
            _ => None,
        },
        Format::RegImm => match (reg_of(a0), reg_of(a1), imm12_of(a2)) {
            (Some(rd), Some(rs1), Some(imm)) => Some(Semantic { op, rd, rs1, rs2: 0, imm }),
            _ => None,
        },
        Format::Shift => match (reg_of(a0), reg_of(a1), shamt_of(a2)) {
            (Some(rd), Some(rs1), Some(imm)) => Some(Semantic { op, rd, rs1, rs2: 0, imm }),
            _ => None,
        },
        Format::Load => match (reg_of(a0), imm12_of(a1), reg_of(a2)) {
            (Some(rd), Some(imm), Some(rs1)) => Some(Semantic { op, rd, rs1, rs2: 0, imm }),
            _ => None,
        },
        Format::Store => match (reg_of(a0), imm12_of(a1), reg_of(a2)) {
            (Some(rs2), Some(imm), Some(rs1)) => Some(Semantic { op, rd: 0, rs1, rs2, imm }),
            _ => None,
        },
        _ => match (reg_of(a0), reg_of(a1), imm12_of(a2)) {
            (Some(rs1), Some(rs2), Some(imm)) => Some(Semantic { op, rd: 0, rs1, rs2, imm }),
            _ => None,
        },
    }
}

/// Whether a branch instruction's condition holds of its operand values.
pub open spec fn branch_taken(op: Opcode, a: u64, b: u64) -> bool {
    match op {
        Opcode::Beq => a == b,
        Opcode::Bne => a != b,
        Opcode::Blt => signed(a) < signed(b),
        Opcode::Bge => signed(a) >= signed(b),
        Opcode::Bltu => a < b,
        _ => a >= b,
    }
}

/// The address a load or store touches.
pub open spec fn access_addr(s: Semantic, regs: Seq<Register>) -> u64 {
    regs[s.rs1 as int].value.wrapping_add(s.imm)
}

/// The instruction may run: a load or store stays inside memory.
pub open spec fn accessible(s: Semantic, regs: Seq<Register>) -> bool {
    let f = format_of(s.op);
    (f == Format::Load || f == Format::Store) ==> valid_access(
        access_addr(s, regs),
        width_of(s.op),
    )
}

/// Machine state as seen by one instruction.
pub struct Outcome {
    pub regs: Seq<Register>,
    pub pc: u64,
    pub jumped: bool,
    pub mem: Seq<u8>,
}

pub open spec fn with_reg(regs: Seq<Register>, rd: usize, v: u64) -> Seq<Register> {
    regs.update(rd as int, Register { value: v })
}

/// What one instruction does to registers, PC and memory. `jumped` is set
/// by jumps and taken branches, which alone write the PC.
pub open spec fn effect(s: Semantic, regs: Seq<Register>, pc: u64, mem: Seq<u8>) -> Outcome {
    let a = regs[s.rs1 as int].value;
    let b = regs[s.rs2 as int].value;
    let same = Outcome { regs, pc, jumped: false, mem };
    match format_of(s.op) {
        Format::RegReg => Outcome { regs: with_reg(regs, s.rd, alu_value(s.op, a, b)), ..same },
        Format::Shift => Outcome { regs: with_reg(regs, s.rd, alu_value(s.op, a, s.imm)), ..same },
        Format::RegImm => if s.op == Opcode::Jalr {
            Outcome {
                regs: with_reg(regs, s.rd, pc.wrapping_add(4)),
                pc: a.wrapping_add(s.imm) & !1u64,
                jumped: true,
                mem,
            }
        } else {
            Outcome { regs: with_reg(regs, s.rd, alu_value(s.op, a, s.imm)), ..same }
        },
        Format::Upper => if s.op == Opcode::Lui {
            Outcome { regs: with_reg(regs, s.rd, s.imm), ..same }
        } else {
            Outcome { regs: with_reg(regs, s.rd, pc.wrapping_add(s.imm)), ..same }
        },
        Format::Jump => Outcome {
            regs: with_reg(regs, s.rd, pc.wrapping_add(4)),
            pc: pc.wrapping_add(s.imm),
            jumped: true,
            mem,
        },
        Format::Branch => if branch_taken(s.op, a, b) {
            Outcome { pc: pc.wrapping_add(s.imm), jumped: true, ..same }
        } else {
            same
        },
        Format::Load => {
            let raw = mem_read_value(mem, access_addr(s, regs), width_of(s.op)) as u64;
            let v = if s.op == Opcode::Lb || s.op == Opcode::Lh || s.op == Opcode::Lw {
                sext_n_value(raw, width_of(s.op) as u64)
            } else {
                raw
            };
            Outcome { regs: with_reg(regs, s.rd, v), ..same }
        },
        Format::Store => Outcome {
            mem: mem_written(mem, access_addr(s, regs), width_of(s.op), b),
            ..same
        },
    }
}

/// Runs one bound instruction. Only jumps and taken branches write the PC;
/// they also set its `changed` flag, which nothing else touches.
pub fn execute(
    s: &Semantic,
    regs: &mut [Register; 32],
    pc: &mut PC,
    mem: &mut [u8; MEMORY_SIZE],
)
    requires
        s.wf(),
        accessible(*s, old(regs)@),
    ensures
        ({
            let o = effect(*s, old(regs)@, old(pc)@, old(mem)@);
            &&& final(regs)@ == o.regs
            &&& final(pc)@ == o.pc
            &&& final(mem)@ == o.mem
            &&& final(pc).changed == (old(pc).changed || o.jumped)
        }),
{
    let a = regs[s.rs1].value;
    let b = regs[s.rs2].value;
    let here = pc.get().value;
    match s.op.format() {
        Format::RegReg => {
            regs[s.rd] = Register { value: alu(s.op, a, b) };
        },
        Format::Shift => {
            regs[s.rd] = Register { value: alu(s.op, a, s.imm) };
        },
        Format::RegImm => {
            if matches!(s.op, Opcode::Jalr) {
                let target = a.wrapping_add(s.imm) & !1u64;
                regs[s.rd] = Register { value: here.wrapping_add(4) };
                pc.set(Register { value: target });
            } else {
                regs[s.rd] = Register { value: alu(s.op, a, s.imm) };
            }
        },
        Format::Upper => {
            if matches!(s.op, Opcode::Lui) {
                regs[s.rd] = Register { value: s.imm };
            } else {
                regs[s.rd] = Register { value: here.wrapping_add(s.imm) };
            }
        },
        Format::Jump => {
            regs[s.rd] = Register { value: here.wrapping_add(4) };
            pc.inc(Register { value: s.imm });
        },
        Format::Branch => {
            let taken = match s.op {
                Opcode::Beq => a == b,
                Opcode::Bne => a != b,
                Opcode::Blt => signed_lt(Register { value: a }, Register { value: b }),
                Opcode::Bge => !signed_lt(Register { value: a }, Register { value: b }),
                Opcode::Bltu => a < b,
                _ => a >= b,
            };
            if taken {
                pc.inc(Register { value: s.imm });
            }
        },
        Format::Load => {
            let addr = Register { value: a.wrapping_add(s.imm) };
            let w = width(s.op);
            let v = if matches!(s.op, Opcode::Lb) || matches!(s.op, Opcode::Lh) || matches!(
                s.op,
                Opcode::Lw
            ) {
                read_sext(mem, addr, w)
            } else {
                read(mem, addr, w)
            };
            regs[s.rd] = v;
        },
        Format::Store => {
            let addr = Register { value: a.wrapping_add(s.imm) };
            crate::rv64_i::write(mem, addr, width(s.op), Register { value: b });
        },
    }
}

/// Whether `execute` may run the instruction on these registers; see
/// `accessible`.
pub fn can_execute(s: &Semantic, regs: &[Register; 32]) -> (r: bool)
    requires
        s.wf(),
    ensures
        r == accessible(*s, regs@),
{
    match s.op.format() {
        Format::Load | Format::Store => {
            let addr = regs[s.rs1].value.wrapping_add(s.imm);
            let w = width(s.op) as u64;
            addr <= MEMORY_SIZE as u64 && w / 8 <= MEMORY_SIZE as u64 - addr
        },
        _ => true,
    }
}

} // verus!
