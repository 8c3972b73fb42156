use riscv_interpreter::instruction::{imm_bits, parse_imm, parse_unsigned};

/*
 * The imm arrays are LSB first, MSB last (the opposite of the way a binary
 * number is written). To make the tests easier to write, this function
 * reverses the array it is given.
 */
fn imm<const ARRLEN: usize>(input: [i32; ARRLEN]) -> [bool; ARRLEN] {
    let mut output = [false; ARRLEN];
    for i in 0..ARRLEN {
        assert!(input[i] == 0 || input[i] == 1);
        output[(ARRLEN - i) - 1] = input[i] == 1;
    }
    output
}

#[test]
fn parse_immediate_decimal_positive_in_range() {
    assert_eq!(parse_imm(String::from("10")).unwrap(), imm([1, 0, 1, 0]));
}

#[test]
fn parse_immediate_decimal_negative_in_range() {
    assert_eq!(parse_imm(String::from("-5")).unwrap(), imm([1, 0, 1, 1]));
}

#[test]
fn parse_immediate_decimal_positive_out_of_range() {
    assert_eq!(parse_imm::<4>(String::from("16")), None);
}

#[test]
fn parse_immediate_decimal_negative_out_of_range() {
    assert_eq!(parse_imm::<4>(String::from("-9")), None);
}

#[test]
fn parse_immediate_hex_in_range() {
    assert_eq!(parse_imm(String::from("0xa")).unwrap(), imm([1, 0, 1, 0]));
}

#[test]
fn parse_immediate_hex_out_of_range() {
    assert_eq!(parse_imm::<4>(String::from("0x10")), None);
}

#[test]
fn parse_immediate_binary_in_range() {
    assert_eq!(
        parse_imm(String::from("0b1010")).unwrap(),
        imm([1, 0, 1, 0])
    );
}

#[test]
fn parse_immediate_binary_out_of_range() {
    assert_eq!(parse_imm::<4>(String::from("0b10000")), None);
}

#[test]
fn parse_immediate_invalid_input_1() {
    assert_eq!(parse_imm::<4>(String::from("Not a number")), None);
}

#[test]
fn parse_immediate_invalid_input_2() {
    assert_eq!(parse_imm::<4>(String::from("10 Not a number")), None);
}

#[test]
fn parse_immediate_lowest_value_of_width() {
    assert_eq!(parse_imm(String::from("-8")).unwrap(), imm([1, 0, 0, 0]));
}

#[test]
fn parse_immediate_highest_value_of_width() {
    assert_eq!(parse_imm(String::from("15")).unwrap(), imm([1, 1, 1, 1]));
}

#[test]
fn imm_bits_encodes_twos_complement() {
    assert_eq!(imm_bits::<12>(-1), Some([true; 12]));
    assert_eq!(imm_bits::<12>(4096), None);
    assert_eq!(imm_bits::<12>(-2049), None);
    let b = imm_bits::<12>(0x678).unwrap();
    assert!(!b[0] && !b[1] && !b[2] && b[3] && b[4] && b[5] && b[6]);
}

#[test]
fn shift_amounts_are_unsigned() {
    assert_eq!(parse_unsigned("3"), Some(3));
    assert_eq!(parse_unsigned("0x10"), Some(16));
    assert_eq!(parse_unsigned("-3"), None);
    assert_eq!(parse_unsigned("three"), None);
}

#[test]
fn parse_immediate_two_minus_signs() {
    assert_eq!(parse_imm::<12>(String::from("-0x-80000000")), None);
    assert_eq!(parse_imm::<12>(String::from("--5")), None);
    assert_eq!(parse_imm::<12>(String::from("0x-5")).unwrap(), parse_imm::<12>(String::from("-5")).unwrap());
}
