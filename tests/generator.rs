use riscv_interpreter::generator::{parse_instruction, parse_org_table, Instruction};

const ROW: &str = "| addi | rd = rs1 + imm | addi rd, rs1, imm | Add immediate. | x[rd] = x[rs1] + sext(imm); |";

#[test]
fn row_cells_are_trimmed_and_tokenised() {
    let i = parse_instruction(ROW).unwrap();
    assert_eq!(i.mnemonic, "addi");
    assert_eq!(i.expansion, "rd = rs1 + imm");
    assert_eq!(i.syntax, vec!["addi", "rd", ",", "rs1", ",", "imm"]);
    assert_eq!(i.description, "Add immediate.");
    assert_eq!(i.implementation, "x[rd] = x[rs1] + sext(imm);");
}

#[test]
fn row_with_wrong_cell_count_is_rejected() {
    assert!(parse_instruction("| addi | a | b |").is_none());
    assert!(parse_instruction("no cells at all").is_none());
}

#[test]
fn bitwise_or_marker_is_unescaped() {
    let i = Instruction::parse(["or", "", "or rd, rs1, rs2", "", " x[rd] = x[rs1] BITWISE_OR x[rs2] "]).unwrap();
    assert_eq!(i.implementation, "x[rd] = x[rs1] | x[rs2]");
}

#[test]
fn operand_names_skip_the_mnemonic() {
    let i = parse_instruction("| sw | | sw rs2, offset(rs1) | | |").unwrap();
    assert_eq!(i.get_args(), vec!["rs2", "offset", "rs1"]);
    assert_eq!(Instruction::reg_or_imm(&String::from("offset")), "Imm12");
    assert_eq!(Instruction::reg_or_imm(&String::from("imm20")), "Imm20");
    assert_eq!(Instruction::reg_or_imm(&String::from("shamt")), "Shamt");
    assert_eq!(Instruction::reg_or_imm(&String::from("rd")), "Register");
}

#[test]
fn mnemonic_escaping() {
    let i = Instruction::parse(["fence.i", "", "fence.i", "", ""]).unwrap();
    assert_eq!(i.escaped_mnemonic(), "fence_i");
}

#[test]
fn implementation_source_text() {
    let i = parse_instruction("| slli | | slli rd, rs1, shamt | | x[rd] = x[rs1] << shamt; |").unwrap();
    assert_eq!(
        i.create_implementation_source(),
        "#[allow(unused_variables)]\nfn slli (args: Vec<ImplementationArg>) -> MachineInstruction {\nif let [ImplementationArg::Register(rd), ImplementationArg::Register(rs1), ImplementationArg::Shamt(shamt), ] = args[..] {\n\tBox::new(move |x: &mut [Register; 32], pc: &mut PC, mem: &mut [u8; crate::rv64_i::MEMORY_SIZE]| {\n\t\tx[rd] = x[rs1] << shamt;\n\t})\n} else {\n\tunreachable!(\"Wrong arg type\") }\n}\n\n"
    );
}

#[test]
fn entry_source_text() {
    let i = parse_instruction("| lui | rd = imm20 | lui rd, imm20 | Load upper. | x |").unwrap();
    assert_eq!(
        i.as_source(),
        "InstructionSource {\nmnemonic: \"lui\",\nexpansion: \"rd = imm20\",\nsyntax: &[\"lui\", \"rd\", \",\", \"imm20\"],\ndescription: r#\"Load upper.\"#,\nimplementation_str: \"x\",\nimplementation: lui\n}"
    );
}

#[test]
fn table_rows_after_header() {
    let table = "* Instructions\n| mnemonic | expansion | syntax | description | implementation |\n|----------+-----------+--------+-------------+----------------|\n| add | | add rd, rs1, rs2 | | a |\n| sub | | sub rd, rs1, rs2 | | b |\n";
    let rows = parse_org_table(table).unwrap();
    assert_eq!(rows.len(), 2);
    assert_eq!(rows[0].mnemonic, "add");
    assert_eq!(rows[1].implementation, "b");
    assert!(parse_org_table("| h | h |\n| add | x |").is_none());
    assert!(parse_org_table("no table").is_none());
}
