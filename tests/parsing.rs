use riscv_interpreter::build_common::{is_whitespace, tokenise};
use riscv_interpreter::catalog::{instructions, lookup};
use riscv_interpreter::instruction::{ImplementationArg, InstructionSource};
use riscv_interpreter::interpreter::Interpreter;
use riscv_interpreter::registers::register_number;
use riscv_interpreter::semantics::{materialize, Opcode};

fn chars(s: &str) -> Vec<char> {
    s.chars().collect()
}

fn source(mnemonic: &str) -> InstructionSource {
    let catalog = instructions();
    let i = lookup(&catalog, &chars(mnemonic)).unwrap();
    catalog[i]
}

#[test]
fn tokenise_splits_punctuation() {
    assert_eq!(tokenise("sw x1, 0(x0)"), vec!["sw", "x1", ",", "0", "(", "x0", ")"]);
    assert_eq!(tokenise("  addi\tx1 ,x0,5  "), vec!["addi", "x1", ",", "x0", ",", "5"]);
    assert_eq!(tokenise(""), Vec::<String>::new());
    assert_eq!(tokenise(" , "), vec![","]);
}

#[test]
fn register_names() {
    assert_eq!(register_number(&chars("x0")), Some(0));
    assert_eq!(register_number(&chars("x31")), Some(31));
    assert_eq!(register_number(&chars("x32")), None);
    assert_eq!(register_number(&chars("x01")), None);
    assert_eq!(register_number(&chars("zero")), Some(0));
    assert_eq!(register_number(&chars("ra")), Some(1));
    assert_eq!(register_number(&chars("sp")), Some(2));
    assert_eq!(register_number(&chars("t2")), Some(7));
    assert_eq!(register_number(&chars("t3")), Some(28));
    assert_eq!(register_number(&chars("s1")), Some(9));
    assert_eq!(register_number(&chars("s2")), Some(18));
    assert_eq!(register_number(&chars("a7")), Some(17));
    assert_eq!(register_number(&chars("a8")), None);
    assert_eq!(register_number(&chars("fp")), Some(8));
}

#[test]
fn catalog_mnemonics_are_unique_and_found() {
    let catalog = instructions();
    for (i, entry) in catalog.iter().enumerate() {
        assert_eq!(lookup(&catalog, &chars(entry.mnemonic)), Some(i));
    }
    assert_eq!(lookup(&catalog, &chars("mul")), None);
}

#[test]
fn operands_parse_in_template_order() {
    let args = source("sw").parse("sw x5, -4(sp)").unwrap();
    assert_eq!(args.len(), 3);
    assert!(matches!(args[0], ImplementationArg::Register(5)));
    assert!(matches!(args[1], ImplementationArg::Imm12(b) if b == [false, false, true, true, true, true, true, true, true, true, true, true]));
    assert!(matches!(args[2], ImplementationArg::Register(2)));
    let s = materialize(Opcode::Sw, &args).unwrap();
    assert_eq!((s.rd, s.rs1, s.rs2, s.imm), (0, 2, 5, (-4i64) as u64));
}

#[test]
fn template_literals_must_match() {
    let e = source("lw").parse("lw x1, 0[x2]").unwrap_err();
    assert_eq!(
        e,
        "Invalid instruction format. Instruction \"lw\" should have format \"lw rd , offset ( rs1 )\" but instead had \"lw x1 , 0[x2]\""
    );
}

#[test]
fn format_error_names_mnemonic_and_tokens() {
    let e = source("add").format_error(vec![String::from("add"), String::from("x1")]);
    assert_eq!(
        e,
        "Invalid instruction format. Instruction \"add\" should have format \"add rd , rs1 , rs2\" but instead had \"add x1\""
    );
}

#[test]
fn binding_rejects_wrong_operand_kinds() {
    let args = vec![ImplementationArg::Register(1), ImplementationArg::Shamt(3)];
    assert!(materialize(Opcode::Lui, &args).is_none());
    let args = vec![ImplementationArg::Register(1), ImplementationArg::Register(40), ImplementationArg::Register(2)];
    assert!(materialize(Opcode::Add, &args).is_none());
}

fn sample_operand(placeholder: &str) -> Option<&'static str> {
    match placeholder {
        "rd" | "rs1" | "rs2" => Some("x1"),
        "imm" | "offset" => Some("8"),
        "imm20" => Some("1"),
        "shamt" => Some("3"),
        _ => None,
    }
}

#[test]
fn every_catalog_entry_decodes_its_own_template() {
    for entry in instructions() {
        let line: Vec<String> = tokenise(entry.syntax)
            .iter()
            .map(|t| sample_operand(t).map(String::from).unwrap_or(t.clone()))
            .collect();
        let mut m = Interpreter::create_RiscV64_i(Vec::new());
        m.set_code(line.join(" "));
        assert!(m.errors().is_empty(), "{}: {:?}", entry.mnemonic, m.errors());
        assert_eq!(m.breakpoints(), vec![false], "{}", entry.mnemonic);
        let s = materialize(entry.opcode, &entry.parse(&line.join(" ")).unwrap()).unwrap();
        assert_eq!(s.op, entry.opcode);
    }
}

#[test]
fn whitespace_matches_std() {
    for code in 0..=0x10FFFFu32 {
        if let Some(c) = char::from_u32(code) {
            assert_eq!(is_whitespace(c), c.is_whitespace(), "U+{:04X}", code);
        }
    }
}

#[test]
fn tokenise_splits_on_unicode_whitespace() {
    assert_eq!(tokenise("\u{0C}addi\u{A0}x1,\u{3000}x0"), vec!["addi", "x1", ",", "x0"]);
}

#[test]
fn catalog_mnemonics_are_distinct() {
    let catalog = instructions();
    assert_eq!(catalog.len(), 49);
    for i in 0..catalog.len() {
        for j in 0..catalog.len() {
            if i != j {
                assert_ne!(catalog[i].mnemonic, catalog[j].mnemonic);
            }
        }
    }
}
