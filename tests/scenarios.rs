use riscv_interpreter::interpreter::rv64_i::RiscV64_i;
use riscv_interpreter::interpreter::{Interpreter, InterpreterTrait};

fn machine(code: &str) -> Interpreter {
    let mut m = Interpreter::create_RiscV64_i(Vec::new());
    m.set_code(String::from(code));
    m
}

#[test]
fn addi_add() {
    let mut m = machine("addi x1, x0, 5\nadd x2, x1, x1");
    m.run();
    assert_eq!(m.register(1), 5);
    assert_eq!(m.register(2), 10);
    assert_eq!(m.pc(), 8);
    assert!(!m.running());
}

#[test]
fn lui_addi() {
    let mut m = machine("lui x1, 0x12345\naddi x1, x1, 0x678");
    m.run();
    assert_eq!(m.register(1), 0x12345678);
}

#[test]
fn lui_sign_extends_from_bit_31() {
    let mut m = machine("lui x1, 0x80000");
    m.run();
    assert_eq!(m.register(1), 0xFFFF_FFFF_8000_0000);
}

#[test]
fn branch_taken() {
    let mut m = machine("addi x1, x0, 1\nbeq x1, x1, 8\naddi x2, x0, 7\naddi x3, x0, 9");
    m.run();
    assert_eq!(m.register(2), 0);
    assert_eq!(m.register(3), 9);
    assert_eq!(m.pc(), 16);
}

#[test]
fn branch_not_taken() {
    let mut m = machine("addi x1, x0, 1\nbne x1, x1, 8\naddi x2, x0, 7");
    m.run();
    assert_eq!(m.register(2), 7);
    assert_eq!(m.pc(), 12);
}

#[test]
fn sw_lw_round_trip() {
    let mut m = machine("addi x1, x0, 0x41\nsw x1, 0(x0)\nlw x2, 0(x0)");
    m.run();
    assert_eq!(m.register(2), 0x41);
    assert_eq!(
        [m.memory_byte(0), m.memory_byte(1), m.memory_byte(2), m.memory_byte(3)],
        [0x41, 0, 0, 0]
    );
}

#[test]
fn srai_sign_extending_shift() {
    let mut m = machine("addi x1, x0, -8\nsrai x2, x1, 1");
    m.run();
    assert_eq!(m.register(2), 0xFFFFFFFFFFFFFFFC);
}

#[test]
fn breakpoint_in_run() {
    let mut m = machine("addi x1, x0, 1\naddi x2, x0, 2\naddi x3, x0, 3");
    m.toggle_breakpoint(2);
    m.run();
    assert!(!m.running());
    assert_eq!(m.pc(), 4);
    assert_eq!(m.register(1), 1);
    assert_eq!(m.register(2), 0);
    assert_eq!(m.register(3), 0);
}

#[test]
fn step_from_a_breakpoint() {
    let mut m = machine("addi x1, x0, 1\naddi x2, x0, 2\naddi x3, x0, 3");
    m.toggle_breakpoint(2);
    m.run();
    m.set_running(true);
    m.step();
    assert_eq!(m.pc(), 8);
    assert_eq!(m.register(2), 2);
}

#[test]
fn x0_stays_zero() {
    let mut m = machine("addi x0, x0, 5\naddi x1, x0, 1");
    m.set_running(true);
    m.step();
    assert_eq!(m.register(0), 0);
    assert_eq!(m.pc(), 4);
    m.run();
    assert_eq!(m.register(0), 0);
    assert_eq!(m.register(1), 1);
}

#[test]
fn step_without_jump_advances_by_four() {
    let mut m = machine("addi x1, x0, 1\naddi x1, x1, 1");
    m.set_running(true);
    m.step();
    assert_eq!(m.pc(), 4);
    m.step();
    assert_eq!(m.pc(), 8);
    m.step();
    assert!(!m.running());
    assert_eq!(m.pc(), 8);
}

#[test]
fn step_does_nothing_when_stopped() {
    let mut m = machine("addi x1, x0, 1");
    m.step();
    assert_eq!(m.pc(), 0);
    assert_eq!(m.register(1), 0);
}

#[test]
fn jal_and_jalr_link() {
    let mut m = machine("jal x1, 8\naddi x2, x0, 1\njalr x3, x0, 16\naddi x4, x0, 1\naddi x5, x0, 5");
    m.run();
    assert_eq!(m.register(1), 4);
    assert_eq!(m.register(2), 0);
    assert_eq!(m.register(3), 12);
    assert_eq!(m.register(4), 0);
    assert_eq!(m.register(5), 5);
}

#[test]
fn word_operations_sign_extend() {
    let mut m = machine("lui x1, 0x7ffff\naddiw x2, x1, 2047\naddiw x3, x2, 2047\nslliw x4, x3, 1");
    m.run();
    assert_eq!(m.register(2), 0x7FFF_F7FF);
    assert_eq!(m.register(3), 0x7FFF_FFFE);
    assert_eq!(m.register(4), 0xFFFF_FFFF_FFFF_FFFC);
}

#[test]
fn register_aliases() {
    let mut m = machine("addi a0, zero, 3\naddi t6, a0, 1\naddi s11, t6, 1\naddi fp, s11, 1");
    m.run();
    assert_eq!(m.register(10), 3);
    assert_eq!(m.register(31), 4);
    assert_eq!(m.register(27), 5);
    assert_eq!(m.register(8), 6);
}

#[test]
fn comments_and_blank_lines_keep_line_numbers() {
    let mut m = machine("// start\n\naddi x1, x0, 1 // one\n   \naddi x2, x0, 2");
    m.toggle_breakpoint(5);
    assert_eq!(m.breakpoints(), vec![false, false, false, false, true]);
    assert_eq!(m.next_inst_line_num(), 2);
    m.run();
    assert_eq!(m.register(1), 1);
    assert_eq!(m.register(2), 0);
    assert_eq!(m.next_inst_line_num(), 4);
}

#[test]
fn breakpoints_follow_toggles() {
    let mut m = machine("addi x1, x0, 1\naddi x2, x0, 2");
    assert_eq!(m.breakpoints(), vec![false, false]);
    m.toggle_breakpoint(1);
    assert_eq!(m.breakpoints(), vec![true, false]);
    m.toggle_breakpoint(1);
    assert_eq!(m.breakpoints(), vec![false, false]);
    m.toggle_breakpoint(7);
    assert_eq!(m.breakpoints(), vec![false, false]);
}

#[test]
fn unknown_mnemonic_is_reported_and_skipped() {
    let m = machine("addi x1, x0, 1\nfoo x1, x2\naddi x2, x0, 2");
    assert_eq!(
        m.errors(),
        &vec![String::from("Invalid instruction on line 2: foo x1, x2")]
    );
    assert_eq!(m.breakpoints().len(), 3);
}

#[test]
fn malformed_operands_stop_parsing() {
    let mut m = machine("addi x1, x0, 1\naddi x1, x0\naddi x2, x0, 2");
    assert_eq!(
        m.errors(),
        &vec![String::from(
            "Invalid instruction format. Instruction \"addi\" should have format \"addi rd , rs1 , imm\" but instead had \"addi x1 , x0\""
        )]
    );
    m.run();
    assert_eq!(m.register(1), 1);
    assert_eq!(m.register(2), 0);
}

#[test]
fn out_of_range_immediate_is_rejected() {
    let m = machine("addi x1, x0, 4096");
    assert_eq!(m.errors().len(), 1);
    assert_eq!(m.breakpoints().len(), 0);
}

#[test]
fn unknown_register_is_rejected() {
    let m = machine("addi x32, x0, 1");
    assert_eq!(m.errors().len(), 1);
    assert!(m.errors()[0].starts_with("Invalid instruction format. Instruction \"addi\""));
}

#[test]
fn set_code_twice_parses_once() {
    let mut m = machine("addi x1, x0, 1\nfoo");
    assert_eq!(m.errors().len(), 1);
    m.toggle_breakpoint(1);
    m.set_code(String::from("addi x1, x0, 1\nfoo"));
    assert_eq!(m.errors().len(), 1);
    assert_eq!(m.breakpoints(), vec![true]);
    m.set_code(String::from("addi x1, x0, 2"));
    assert_eq!(m.errors().len(), 0);
    assert_eq!(m.breakpoints(), vec![false]);
}

#[test]
fn out_of_bounds_access_stops_the_machine() {
    let mut m = machine("addi x1, x0, 1\nlw x2, 2047(x0)\nlw x3, -1(x0)\naddi x4, x0, 4");
    m.run();
    assert!(!m.running());
    assert_eq!(m.pc(), 8);
    assert_eq!(m.register(4), 0);
    assert_eq!(
        m.errors(),
        &vec![String::from("Memory access out of bounds on line 3")]
    );
}

#[test]
fn store_and_load_widths() {
    let mut m = machine(
        "addi x1, x0, -1\nsd x1, 16(x0)\nlbu x2, 16(x0)\nlb x3, 16(x0)\nlhu x4, 16(x0)\nlwu x5, 16(x0)\nld x6, 16(x0)\nsb x0, 17(x0)\nlh x7, 16(x0)",
    );
    m.run();
    assert_eq!(m.register(2), 0xFF);
    assert_eq!(m.register(3), u64::MAX);
    assert_eq!(m.register(4), 0xFFFF);
    assert_eq!(m.register(5), 0xFFFF_FFFF);
    assert_eq!(m.register(6), u64::MAX);
    assert_eq!(m.register(7), 0xFF);
}

#[test]
fn comparisons_and_logic() {
    let mut m = machine(
        "addi x1, x0, -1\naddi x2, x0, 1\nslt x3, x1, x2\nsltu x4, x1, x2\nxori x5, x2, 3\nandi x6, x1, 12\nor x7, x2, x5\nsub x8, x2, x1\nsltiu x9, x2, -1",
    );
    m.run();
    assert_eq!(m.register(3), 1);
    assert_eq!(m.register(4), 0);
    assert_eq!(m.register(5), 2);
    assert_eq!(m.register(6), 12);
    assert_eq!(m.register(7), 3);
    assert_eq!(m.register(8), 2);
    assert_eq!(m.register(9), 1);
}

#[test]
fn shifts_use_low_bits_of_amount() {
    let mut m = machine("addi x1, x0, 1\nslli x2, x1, 65\naddi x3, x0, 64\nsll x4, x1, x3\nsrli x5, x2, 1");
    m.run();
    assert_eq!(m.register(2), 2);
    assert_eq!(m.register(4), 1);
    assert_eq!(m.register(5), 1);
}

#[test]
fn auipc_adds_pc() {
    let mut m = machine("addi x0, x0, 0\nauipc x1, 1");
    m.run();
    assert_eq!(m.register(1), 4 + 4096);
}

#[test]
fn initial_registers_are_loaded() {
    let regs = vec![String::from("5"), String::from("0x10"), String::from("0b11")];
    let m = Interpreter::create_RiscV64_i(regs);
    assert_eq!(m.register(0), 0);
    assert_eq!(m.register(1), 5);
    assert_eq!(m.register(2), 16);
    assert_eq!(m.register(3), 3);
    assert_eq!(m.register(4), 0);
    assert!(Interpreter::try_create_RiscV64_i(vec![String::from("x")]).is_none());
    assert!(Interpreter::try_create_RiscV64_i(vec![String::from("1"); 32]).is_none());
    assert!(Interpreter::try_create_RiscV64_i(vec![String::from("1"); 31]).is_some());
}

#[test]
fn reset_restores_initial_state() {
    let mut m = Interpreter::create_RiscV64_i(vec![String::from("7")]);
    m.set_code(String::from("addi x1, x0, 1\nsb x1, 0(x0)"));
    m.run();
    assert_eq!(m.register(1), 1);
    m.reset();
    assert_eq!(m.register(1), 7);
    assert_eq!(m.memory_byte(0), 0);
    assert_eq!(m.pc(), 0);
    assert_eq!(m.breakpoints().len(), 2);
}

#[test]
fn presentation_projections() {
    let mut m = machine("addi x1, x0, -2\naddi x2, x0, 0x41\nsb x2, 1(x0)\naddi x3, x0, 10\nsb x3, 2(x0)");
    m.run();
    let regs = m.registers_repr();
    assert_eq!(regs.len(), 32);
    assert_eq!(regs[2].0, "65");
    assert_eq!(regs[2].1, "0x0000000000000041");
    assert_eq!(
        regs[2].2,
        "0b0000000000000000000000000000000000000000000000000000000001000001"
    );
    assert_eq!(regs[1].0, "18446744073709551614");
    assert_eq!(regs[1].1, "0xFFFFFFFFFFFFFFFE");
    assert_eq!(m.memory_byte_repr(0, 3), vec!["00", "41", "0a"]);
    assert_eq!(m.memory_ascii_repr(0, 3), vec![String::from(".A.")]);
    assert_eq!(m.memory_size(), 4096);
    assert!(m.warnings().is_empty());
}

#[test]
fn frequency_is_kept() {
    let mut m = machine("");
    assert_eq!(m.get_frequency(), Some(0));
    m.set_frequency(None);
    assert_eq!(m.get_frequency(), None);
    m.set_frequency(Some(10));
    assert_eq!(m.get_frequency(), Some(10));
}

#[test]
fn stop_clears_running() {
    let mut m = machine("addi x1, x0, 1");
    m.set_running(true);
    m.stop();
    assert!(!m.running());
}

#[test]
fn trait_operations_drive_the_machine() {
    let mut m = <RiscV64_i as InterpreterTrait>::create(Vec::new());
    InterpreterTrait::set_code(&mut m, String::from("addi x1, x0, 3\nadd x2, x1, x1"));
    InterpreterTrait::run(&mut m);
    assert_eq!(m.register(2), 6);
    assert_eq!(InterpreterTrait::memory_size(&m), 4096);
    assert!(!InterpreterTrait::running(&m));
}

#[test]
fn form_feed_and_no_break_space_are_blanks() {
    let mut m = machine("\u{0C}addi x1, x0, 5\u{A0}\n\u{3000}add x2, x1, x1");
    assert!(m.errors().is_empty());
    m.run();
    assert_eq!(m.register(2), 10);
}

#[test]
fn unknown_mnemonic_then_parsing_goes_on() {
    let m = machine("foo x1\naddi x1, x0, 1");
    assert_eq!(m.errors(), &vec![String::from("Invalid instruction on line 1: foo x1")]);
    assert_eq!(m.breakpoints(), vec![false, false]);
    assert_eq!(m.next_inst_line_num(), 1);
}
