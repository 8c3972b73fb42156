use vstd::prelude::*;

use crate::build_common::chars_of;
use crate::instruction::InstructionSource;
use crate::semantics::Opcode;

verus! {

fn entry(
    mnemonic: &'static str,
    expansion: &'static str,
    syntax: &'static str,
    description: &'static str,
    opcode: Opcode,
) -> (r: InstructionSource)
    ensures
        r.mnemonic == mnemonic,
        r.syntax == syntax,
        r.opcode == opcode,
{
    InstructionSource { mnemonic, expansion, syntax, description, opcode }
}

/// Mnemonic, syntax template and opcode of each catalog entry, in table
/// order.
pub open spec fn catalog_table() -> Seq<(Seq<char>, Seq<char>, Opcode)> {
    seq![
        ("lui"@, "lui rd, imm20"@, Opcode::Lui),
        ("auipc"@, "auipc rd, imm20"@, Opcode::Auipc),
        ("jal"@, "jal rd, imm20"@, Opcode::Jal),
        ("jalr"@, "jalr rd, rs1, imm"@, Opcode::Jalr),
        ("beq"@, "beq rs1, rs2, offset"@, Opcode::Beq),
        ("bne"@, "bne rs1, rs2, offset"@, Opcode::Bne),
        ("blt"@, "blt rs1, rs2, offset"@, Opcode::Blt),
        ("bge"@, "bge rs1, rs2, offset"@, Opcode::Bge),
        ("bltu"@, "bltu rs1, rs2, offset"@, Opcode::Bltu),
        ("bgeu"@, "bgeu rs1, rs2, offset"@, Opcode::Bgeu),
        ("lb"@, "lb rd, offset(rs1)"@, Opcode::Lb),
        ("lh"@, "lh rd, offset(rs1)"@, Opcode::Lh),
        ("lw"@, "lw rd, offset(rs1)"@, Opcode::Lw),
        ("ld"@, "ld rd, offset(rs1)"@, Opcode::Ld),
        ("lbu"@, "lbu rd, offset(rs1)"@, Opcode::Lbu),
        ("lhu"@, "lhu rd, offset(rs1)"@, Opcode::Lhu),
        ("lwu"@, "lwu rd, offset(rs1)"@, Opcode::Lwu),
        ("sb"@, "sb rs2, offset(rs1)"@, Opcode::Sb),
        ("sh"@, "sh rs2, offset(rs1)"@, Opcode::Sh),
        ("sw"@, "sw rs2, offset(rs1)"@, Opcode::Sw),
        ("sd"@, "sd rs2, offset(rs1)"@, Opcode::Sd),
        ("addi"@, "addi rd, rs1, imm"@, Opcode::Addi),
        ("slti"@, "slti rd, rs1, imm"@, Opcode::Slti),
        ("sltiu"@, "sltiu rd, rs1, imm"@, Opcode::Sltiu),
        ("xori"@, "xori rd, rs1, imm"@, Opcode::Xori),
        ("ori"@, "ori rd, rs1, imm"@, Opcode::Ori),
        ("andi"@, "andi rd, rs1, imm"@, Opcode::Andi),
        ("addiw"@, "addiw rd, rs1, imm"@, Opcode::Addiw),
        ("slli"@, "slli rd, rs1, shamt"@, Opcode::Slli),
        ("srli"@, "srli rd, rs1, shamt"@, Opcode::Srli),
        ("srai"@, "srai rd, rs1, shamt"@, Opcode::Srai),
        ("slliw"@, "slliw rd, rs1, shamt"@, Opcode::Slliw),
        ("srliw"@, "srliw rd, rs1, shamt"@, Opcode::Srliw),
        ("sraiw"@, "sraiw rd, rs1, shamt"@, Opcode::Sraiw),
        ("add"@, "add rd, rs1, rs2"@, Opcode::Add),
        ("sub"@, "sub rd, rs1, rs2"@, Opcode::Sub),
        ("sll"@, "sll rd, rs1, rs2"@, Opcode::Sll),
        ("slt"@, "slt rd, rs1, rs2"@, Opcode::Slt),
        ("sltu"@, "sltu rd, rs1, rs2"@, Opcode::Sltu),
        ("xor"@, "xor rd, rs1, rs2"@, Opcode::Xor),
        ("srl"@, "srl rd, rs1, rs2"@, Opcode::Srl),
        ("sra"@, "sra rd, rs1, rs2"@, Opcode::Sra),
        ("or"@, "or rd, rs1, rs2"@, Opcode::Or),
        ("and"@, "and rd, rs1, rs2"@, Opcode::And),
        ("addw"@, "addw rd, rs1, rs2"@, Opcode::Addw),
        ("subw"@, "subw rd, rs1, rs2"@, Opcode::Subw),
        ("sllw"@, "sllw rd, rs1, rs2"@, Opcode::Sllw),
        ("srlw"@, "srlw rd, rs1, rs2"@, Opcode::Srlw),
        ("sraw"@, "sraw rd, rs1, rs2"@, Opcode::Sraw),
    ]
}

/// The text fields and opcode of a catalog entry.
pub open spec fn entry_triple(e: InstructionSource) -> (Seq<char>, Seq<char>, Opcode) {
    (e.mnemonic@, e.syntax@, e.opcode)
}

/// A catalog holds exactly the entries of `catalog_table`, in order.
pub open spec fn catalog_ok(c: Seq<InstructionSource>) -> bool {
    &&& c.len() == catalog_table().len()
    &&& forall|i: int| 0 <= i < c.len() ==> entry_triple(#[trigger] c[i]) == catalog_table()[i]
}

/// Position of a mnemonic in the table, or -1.
pub open spec fn mnemonic_index(m: Seq<char>) -> int {
    if m.len() == 3 && m[0] == 'l' && m[1] == 'u' && m[2] == 'i' {
        0
    } else if m.len() == 5 && m[0] == 'a' && m[1] == 'u' && m[2] == 'i' && m[3] == 'p' && m[4] == 'c' {
        1
    } else if m.len() == 3 && m[0] == 'j' && m[1] == 'a' && m[2] == 'l' {
        2
    } else if m.len() == 4 && m[0] == 'j' && m[1] == 'a' && m[2] == 'l' && m[3] == 'r' {
        3
    } else if m.len() == 3 && m[0] == 'b' && m[1] == 'e' && m[2] == 'q' {
        4
    } else if m.len() == 3 && m[0] == 'b' && m[1] == 'n' && m[2] == 'e' {
        5
    } else if m.len() == 3 && m[0] == 'b' && m[1] == 'l' && m[2] == 't' {
        6
    } else if m.len() == 3 && m[0] == 'b' && m[1] == 'g' && m[2] == 'e' {
        7
    } else if m.len() == 4 && m[0] == 'b' && m[1] == 'l' && m[2] == 't' && m[3] == 'u' {
        8
    } else if m.len() == 4 && m[0] == 'b' && m[1] == 'g' && m[2] == 'e' && m[3] == 'u' {
        9
    } else if m.len() == 2 && m[0] == 'l' && m[1] == 'b' {
        10
    } else if m.len() == 2 && m[0] == 'l' && m[1] == 'h' {
        11
    } else if m.len() == 2 && m[0] == 'l' && m[1] == 'w' {
        12
    } else if m.len() == 2 && m[0] == 'l' && m[1] == 'd' {
        13
    } else if m.len() == 3 && m[0] == 'l' && m[1] == 'b' && m[2] == 'u' {
        14
    } else if m.len() == 3 && m[0] == 'l' && m[1] == 'h' && m[2] == 'u' {
        15
    } else if m.len() == 3 && m[0] == 'l' && m[1] == 'w' && m[2] == 'u' {
        16
    } else if m.len() == 2 && m[0] == 's' && m[1] == 'b' {
        17
    } else if m.len() == 2 && m[0] == 's' && m[1] == 'h' {
        18
    } else if m.len() == 2 && m[0] == 's' && m[1] == 'w' {
        19
    } else if m.len() == 2 && m[0] == 's' && m[1] == 'd' {
        20
    } else if m.len() == 4 && m[0] == 'a' && m[1] == 'd' && m[2] == 'd' && m[3] == 'i' {
        21
    } else if m.len() == 4 && m[0] == 's' && m[1] == 'l' && m[2] == 't' && m[3] == 'i' {
        22
    } else if m.len() == 5 && m[0] == 's' && m[1] == 'l' && m[2] == 't' && m[3] == 'i' && m[4] == 'u' {
        23
    } else if m.len() == 4 && m[0] == 'x' && m[1] == 'o' && m[2] == 'r' && m[3] == 'i' {
        24
    } else if m.len() == 3 && m[0] == 'o' && m[1] == 'r' && m[2] == 'i' {
        25
    } else if m.len() == 4 && m[0] == 'a' && m[1] == 'n' && m[2] == 'd' && m[3] == 'i' {
        26
    } else if m.len() == 5 && m[0] == 'a' && m[1] == 'd' && m[2] == 'd' && m[3] == 'i' && m[4] == 'w' {
        27
    } else if m.len() == 4 && m[0] == 's' && m[1] == 'l' && m[2] == 'l' && m[3] == 'i' {
        28
    } else if m.len() == 4 && m[0] == 's' && m[1] == 'r' && m[2] == 'l' && m[3] == 'i' {
        29
    } else if m.len() == 4 && m[0] == 's' && m[1] == 'r' && m[2] == 'a' && m[3] == 'i' {
        30
    } else if m.len() == 5 && m[0] == 's' && m[1] == 'l' && m[2] == 'l' && m[3] == 'i' && m[4] == 'w' {
        31
    } else if m.len() == 5 && m[0] == 's' && m[1] == 'r' && m[2] == 'l' && m[3] == 'i' && m[4] == 'w' {
        32
    } else if m.len() == 5 && m[0] == 's' && m[1] == 'r' && m[2] == 'a' && m[3] == 'i' && m[4] == 'w' {
        33
    } else if m.len() == 3 && m[0] == 'a' && m[1] == 'd' && m[2] == 'd' {
        34
    } else if m.len() == 3 && m[0] == 's' && m[1] == 'u' && m[2] == 'b' {
        35
    } else if m.len() == 3 && m[0] == 's' && m[1] == 'l' && m[2] == 'l' {
        36
    } else if m.len() == 3 && m[0] == 's' && m[1] == 'l' && m[2] == 't' {
        37
    } else if m.len() == 4 && m[0] == 's' && m[1] == 'l' && m[2] == 't' && m[3] == 'u' {
        38
    } else if m.len() == 3 && m[0] == 'x' && m[1] == 'o' && m[2] == 'r' {
        39
    } else if m.len() == 3 && m[0] == 's' && m[1] == 'r' && m[2] == 'l' {
        40
    } else if m.len() == 3 && m[0] == 's' && m[1] == 'r' && m[2] == 'a' {
        41
    } else if m.len() == 2 && m[0] == 'o' && m[1] == 'r' {
        42
    } else if m.len() == 3 && m[0] == 'a' && m[1] == 'n' && m[2] == 'd' {
        43
    } else if m.len() == 4 && m[0] == 'a' && m[1] == 'd' && m[2] == 'd' && m[3] == 'w' {
        44
    } else if m.len() == 4 && m[0] == 's' && m[1] == 'u' && m[2] == 'b' && m[3] == 'w' {
        45
    } else if m.len() == 4 && m[0] == 's' && m[1] == 'l' && m[2] == 'l' && m[3] == 'w' {
        46
    } else if m.len() == 4 && m[0] == 's' && m[1] == 'r' && m[2] == 'l' && m[3] == 'w' {
        47
    } else if m.len() == 4 && m[0] == 's' && m[1] == 'r' && m[2] == 'a' && m[3] == 'w' {
        48
    } else {
        -1
    }
}

/// No two entries of the table share a mnemonic.
#[verifier::rlimit(100)]
pub proof fn lemma_catalog_mnemonics_unique()
    ensures
        forall|i: int, j: int|
            0 <= i < catalog_table().len() && 0 <= j < catalog_table().len() && i != j
                ==> catalog_table()[i].0 != catalog_table()[j].0,
{
    reveal_strlit("lui");
    reveal_strlit("auipc");
    reveal_strlit("jal");
    reveal_strlit("jalr");
    reveal_strlit("beq");
    reveal_strlit("bne");
    reveal_strlit("blt");
    reveal_strlit("bge");
    reveal_strlit("bltu");
    reveal_strlit("bgeu");
    reveal_strlit("lb");
    reveal_strlit("lh");
    reveal_strlit("lw");
    reveal_strlit("ld");
    reveal_strlit("lbu");
    reveal_strlit("lhu");
    reveal_strlit("lwu");
    reveal_strlit("sb");
    reveal_strlit("sh");
    reveal_strlit("sw");
    reveal_strlit("sd");
    reveal_strlit("addi");
    reveal_strlit("slti");
    reveal_strlit("sltiu");
    reveal_strlit("xori");
    reveal_strlit("ori");
    reveal_strlit("andi");
    reveal_strlit("addiw");
    reveal_strlit("slli");
    reveal_strlit("srli");
    reveal_strlit("srai");
    reveal_strlit("slliw");
    reveal_strlit("srliw");
    reveal_strlit("sraiw");
    reveal_strlit("add");
    reveal_strlit("sub");
    reveal_strlit("sll");
    reveal_strlit("slt");
    reveal_strlit("sltu");
    reveal_strlit("xor");
    reveal_strlit("srl");
    reveal_strlit("sra");
    reveal_strlit("or");
    reveal_strlit("and");
    reveal_strlit("addw");
    reveal_strlit("subw");
    reveal_strlit("sllw");
    reveal_strlit("srlw");
    reveal_strlit("sraw");
    assert forall|i: int| 0 <= i < catalog_table().len() implies mnemonic_index(
        #[trigger] catalog_table()[i].0,
    ) == i by {
        if i == 0 {
        } else if i == 1 {
        } else if i == 2 {
        } else if i == 3 {
        } else if i == 4 {
        } else if i == 5 {
        } else if i == 6 {
        } else if i == 7 {
        } else if i == 8 {
        } else if i == 9 {
        } else if i == 10 {
        } else if i == 11 {
        } else if i == 12 {
        } else if i == 13 {
        } else if i == 14 {
        } else if i == 15 {
        } else if i == 16 {
        } else if i == 17 {
        } else if i == 18 {
        } else if i == 19 {
        } else if i == 20 {
        } else if i == 21 {
        } else if i == 22 {
        } else if i == 23 {
        } else if i == 24 {
        } else if i == 25 {
        } else if i == 26 {
        } else if i == 27 {
        } else if i == 28 {
        } else if i == 29 {
        } else if i == 30 {
        } else if i == 31 {
        } else if i == 32 {
        } else if i == 33 {
        } else if i == 34 {
        } else if i == 35 {
        } else if i == 36 {
        } else if i == 37 {
        } else if i == 38 {
        } else if i == 39 {
        } else if i == 40 {
        } else if i == 41 {
        } else if i == 42 {
        } else if i == 43 {
        } else if i == 44 {
        } else if i == 45 {
        } else if i == 46 {
        } else if i == 47 {
        } else if i == 48 {
        }
    }
}

/// The RV64I instruction catalog, in table order.
pub fn instructions() -> (r: Vec<InstructionSource>)
    ensures
        catalog_ok(r@),
        forall|i: int, j: int|
            0 <= i < r@.len() && 0 <= j < r@.len() && i != j ==> r@[i].mnemonic@ != r@[j].mnemonic@,
{
    let mut v: Vec<InstructionSource> = Vec::new();
    v.push(entry("lui", "rd = imm20 << 12", "lui rd, imm20", "Load upper immediate: the 20-bit immediate shifted left by 12, sign-extended from bit 31.", Opcode::Lui));
    v.push(entry("auipc", "rd = pc + (imm20 << 12)", "auipc rd, imm20", "Add upper immediate to PC.", Opcode::Auipc));
    v.push(entry("jal", "rd = pc + 4; pc += imm20", "jal rd, imm20", "Jump and link by a byte offset.", Opcode::Jal));
    v.push(entry("jalr", "rd = pc + 4; pc = (rs1 + imm) & !1", "jalr rd, rs1, imm", "Jump and link to a register plus offset.", Opcode::Jalr));
    v.push(entry("beq", "if rs1 == rs2 then pc += offset", "beq rs1, rs2, offset", "Branch if equal.", Opcode::Beq));
    v.push(entry("bne", "if rs1 != rs2 then pc += offset", "bne rs1, rs2, offset", "Branch if not equal.", Opcode::Bne));
    v.push(entry("blt", "if rs1 < rs2 then pc += offset", "blt rs1, rs2, offset", "Branch if less than, signed.", Opcode::Blt));
    v.push(entry("bge", "if rs1 >= rs2 then pc += offset", "bge rs1, rs2, offset", "Branch if greater or equal, signed.", Opcode::Bge));
    v.push(entry("bltu", "if rs1 < rs2 then pc += offset", "bltu rs1, rs2, offset", "Branch if less than, unsigned.", Opcode::Bltu));
    v.push(entry("bgeu", "if rs1 >= rs2 then pc += offset", "bgeu rs1, rs2, offset", "Branch if greater or equal, unsigned.", Opcode::Bgeu));
    v.push(entry("lb", "rd = sext(M[rs1 + offset][7:0])", "lb rd, offset(rs1)", "Load byte, sign-extended.", Opcode::Lb));
    v.push(entry("lh", "rd = sext(M[rs1 + offset][15:0])", "lh rd, offset(rs1)", "Load half word, sign-extended.", Opcode::Lh));
    v.push(entry("lw", "rd = sext(M[rs1 + offset][31:0])", "lw rd, offset(rs1)", "Load word, sign-extended.", Opcode::Lw));
    v.push(entry("ld", "rd = M[rs1 + offset][63:0]", "ld rd, offset(rs1)", "Load double word.", Opcode::Ld));
    v.push(entry("lbu", "rd = M[rs1 + offset][7:0]", "lbu rd, offset(rs1)", "Load byte, zero-extended.", Opcode::Lbu));
    v.push(entry("lhu", "rd = M[rs1 + offset][15:0]", "lhu rd, offset(rs1)", "Load half word, zero-extended.", Opcode::Lhu));
    v.push(entry("lwu", "rd = M[rs1 + offset][31:0]", "lwu rd, offset(rs1)", "Load word, zero-extended.", Opcode::Lwu));
    v.push(entry("sb", "M[rs1 + offset] = rs2[7:0]", "sb rs2, offset(rs1)", "Store byte.", Opcode::Sb));
    v.push(entry("sh", "M[rs1 + offset] = rs2[15:0]", "sh rs2, offset(rs1)", "Store half word.", Opcode::Sh));
    v.push(entry("sw", "M[rs1 + offset] = rs2[31:0]", "sw rs2, offset(rs1)", "Store word.", Opcode::Sw));
    v.push(entry("sd", "M[rs1 + offset] = rs2[63:0]", "sd rs2, offset(rs1)", "Store double word.", Opcode::Sd));
    v.push(entry("addi", "rd = rs1 + imm", "addi rd, rs1, imm", "Add immediate.", Opcode::Addi));
    v.push(entry("slti", "rd = rs1 < imm", "slti rd, rs1, imm", "Set if less than immediate, signed.", Opcode::Slti));
    v.push(entry("sltiu", "rd = rs1 < imm", "sltiu rd, rs1, imm", "Set if less than immediate, unsigned.", Opcode::Sltiu));
    v.push(entry("xori", "rd = rs1 ^ imm", "xori rd, rs1, imm", "Exclusive or with immediate.", Opcode::Xori));
    v.push(entry("ori", "rd = rs1 | imm", "ori rd, rs1, imm", "Or with immediate.", Opcode::Ori));
    v.push(entry("andi", "rd = rs1 & imm", "andi rd, rs1, imm", "And with immediate.", Opcode::Andi));
    v.push(entry("addiw", "rd = sext((rs1 + imm)[31:0])", "addiw rd, rs1, imm", "Add immediate, word.", Opcode::Addiw));
    v.push(entry("slli", "rd = rs1 << shamt", "slli rd, rs1, shamt", "Shift left logical by immediate.", Opcode::Slli));
    v.push(entry("srli", "rd = rs1 >> shamt", "srli rd, rs1, shamt", "Shift right logical by immediate.", Opcode::Srli));
    v.push(entry("srai", "rd = rs1 >> shamt", "srai rd, rs1, shamt", "Shift right arithmetic by immediate.", Opcode::Srai));
    v.push(entry("slliw", "rd = sext((rs1 << shamt)[31:0])", "slliw rd, rs1, shamt", "Shift left logical by immediate, word.", Opcode::Slliw));
    v.push(entry("srliw", "rd = sext(rs1[31:0] >> shamt)", "srliw rd, rs1, shamt", "Shift right logical by immediate, word.", Opcode::Srliw));
    v.push(entry("sraiw", "rd = sext(rs1[31:0]) >> shamt", "sraiw rd, rs1, shamt", "Shift right arithmetic by immediate, word.", Opcode::Sraiw));
    v.push(entry("add", "rd = rs1 + rs2", "add rd, rs1, rs2", "Add.", Opcode::Add));
    v.push(entry("sub", "rd = rs1 - rs2", "sub rd, rs1, rs2", "Subtract.", Opcode::Sub));
    v.push(entry("sll", "rd = rs1 << rs2", "sll rd, rs1, rs2", "Shift left logical.", Opcode::Sll));
    v.push(entry("slt", "rd = rs1 < rs2", "slt rd, rs1, rs2", "Set if less than, signed.", Opcode::Slt));
    v.push(entry("sltu", "rd = rs1 < rs2", "sltu rd, rs1, rs2", "Set if less than, unsigned.", Opcode::Sltu));
    v.push(entry("xor", "rd = rs1 ^ rs2", "xor rd, rs1, rs2", "Exclusive or.", Opcode::Xor));
    v.push(entry("srl", "rd = rs1 >> rs2", "srl rd, rs1, rs2", "Shift right logical.", Opcode::Srl));
    v.push(entry("sra", "rd = rs1 >> rs2", "sra rd, rs1, rs2", "Shift right arithmetic.", Opcode::Sra));
    v.push(entry("or", "rd = rs1 | rs2", "or rd, rs1, rs2", "Or.", Opcode::Or));
    v.push(entry("and", "rd = rs1 & rs2", "and rd, rs1, rs2", "And.", Opcode::And));
    v.push(entry("addw", "rd = sext((rs1 + rs2)[31:0])", "addw rd, rs1, rs2", "Add, word.", Opcode::Addw));
    v.push(entry("subw", "rd = sext((rs1 - rs2)[31:0])", "subw rd, rs1, rs2", "Subtract, word.", Opcode::Subw));
    v.push(entry("sllw", "rd = sext((rs1 << rs2)[31:0])", "sllw rd, rs1, rs2", "Shift left logical, word.", Opcode::Sllw));
    v.push(entry("srlw", "rd = sext(rs1[31:0] >> rs2)", "srlw rd, rs1, rs2", "Shift right logical, word.", Opcode::Srlw));
    v.push(entry("sraw", "rd = sext(rs1[31:0]) >> rs2", "sraw rd, rs1, rs2", "Shift right arithmetic, word.", Opcode::Sraw));
    proof {
        let triples = v@.map_values(|e: InstructionSource| entry_triple(e));
        assert(triples =~= catalog_table());
        assert forall|i: int| 0 <= i < v@.len() implies entry_triple(#[trigger] v@[i])
            == catalog_table()[i] by {
            assert(triples[i] == entry_triple(v@[i]));
        }
        lemma_catalog_mnemonics_unique();
        assert forall|i: int, j: int|
            0 <= i < v@.len() && 0 <= j < v@.len() && i != j implies v@[i].mnemonic@
            != v@[j].mnemonic@ by {
            assert(entry_triple(v@[i]) == catalog_table()[i]);
            assert(entry_triple(v@[j]) == catalog_table()[j]);
        }
    }
    v
}

/// Index of the first catalog entry whose mnemonic is `name`.
pub open spec fn lookup_spec(catalog: Seq<InstructionSource>, name: Seq<char>) -> Option<int>
    decreases catalog.len(),
{
    if catalog.len() == 0 {
        None
    } else {
        match lookup_spec(catalog.drop_last(), name) {
            Some(i) => Some(i),
            None => if catalog.last().mnemonic@ == name {
                Some(catalog.len() - 1)
            } else {
                None
            },
        }
    }
}

proof fn lemma_lookup_prefix(catalog: Seq<InstructionSource>, name: Seq<char>, k: int)
    requires
        0 <= k <= catalog.len(),
        lookup_spec(catalog.take(k), name) matches Some(i) && 0 <= i < k,
    ensures
        lookup_spec(catalog, name) == lookup_spec(catalog.take(k), name),
    decreases catalog.len() - k,
{
    if k < catalog.len() {
        assert(catalog.take(k + 1).drop_last() == catalog.take(k));
        lemma_lookup_prefix(catalog, name, k + 1);
    } else {
        assert(catalog.take(k) == catalog);
    }
}

/// A found index holds the mnemonic asked for.
pub proof fn lemma_lookup_found(catalog: Seq<InstructionSource>, name: Seq<char>)
    ensures
        lookup_spec(catalog, name) matches Some(i) ==> 0 <= i < catalog.len()
            && catalog[i].mnemonic@ == name,
    decreases catalog.len(),
{
    if catalog.len() > 0 {
        lemma_lookup_found(catalog.drop_last(), name);
    }
}

/// Finds the catalog entry for a mnemonic; see `lookup_spec`.
pub fn lookup(catalog: &Vec<InstructionSource>, name: &[char]) -> (r: Option<usize>)
    ensures
        match lookup_spec(catalog@, name@) {
            Some(i) => r == Some(i as usize),
            None => r is None,
        },
        r matches Some(i) ==> i < catalog@.len() && lookup_spec(catalog@, name@) == Some(i as int),
{
    proof {
        lemma_lookup_found(catalog@, name@);
    }
    let mut i: usize = 0;
    while i < catalog.len()
        invariant
            i <= catalog@.len(),
            lookup_spec(catalog@.take(i as int), name@) is None,
        decreases catalog.len() - i,
    {
        proof {
            assert(catalog@.take(i + 1).drop_last() == catalog@.take(i as int));
        }
        let m = chars_of(catalog[i].mnemonic);
        if same_chars(m.as_slice(), name) {
            proof {
                lemma_lookup_prefix(catalog@, name@, i + 1);
            }
            return Some(i);
        }
        i = i + 1;
    }
    proof {
        assert(catalog@.take(i as int) == catalog@);
    }
    None
}

/// Whether two character slices are equal.
pub fn same_chars(t: &[char], w: &[char]) -> (r: bool)
    ensures
        r == (t@ == w@),
{
    if t.len() != w.len() {
        return false;
    }
    let mut i: usize = 0;
    while i < t.len()
        invariant
            t@.len() == w@.len(),
            i <= t@.len(),
            forall|j: int| 0 <= j < i ==> t@[j] == w@[j],
        decreases t.len() - i,
    {
        if t[i] != w[i] {
            return false;
        }
        i = i + 1;
    }
    assert(t@ == w@);
    true
}

} // verus!
