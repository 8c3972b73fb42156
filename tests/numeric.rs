use riscv_interpreter::instruction::Register;
use riscv_interpreter::rv64_i::{
    arith_r_shift, arith_r_shift_i, read, read_sext, sext, sext_n, signed_lt, MEMORY_SIZE,
};

fn r(value: u64) -> Register {
    Register { value }
}

#[test]
fn sext_replicates_top_bit() {
    let mut bits = [false; 12];
    bits[11] = true;
    assert_eq!(sext(bits).value, 0xFFFF_FFFF_FFFF_F800);
    bits[11] = false;
    bits[0] = true;
    assert_eq!(sext(bits).value, 1);
}

#[test]
fn sext_n_negative_byte() {
    assert_eq!(sext_n(r(0x80), 8).value, 0xFFFF_FFFF_FFFF_FF80);
    assert_eq!(sext_n(r(0x1_7F), 8).value, 0x7F);
    assert_eq!(sext_n(r(0xFFFF_FFFF), 32).value, u64::MAX);
    assert_eq!(sext_n(r(0x1234), 64).value, 0x1234);
}

#[test]
fn sext_n_high_bits_copy_sign_bit() {
    for w in 1..=64u32 {
        let x = 0xA5A5_5A5A_F0F0_0F0Fu64;
        let v = sext_n(r(x), w).value;
        let sign = (x >> (w - 1)) & 1;
        let high = v >> (w - 1);
        if sign == 1 {
            assert_eq!(high, u64::MAX >> (w - 1));
        } else {
            assert_eq!(high, 0);
        }
    }
}

#[test]
fn signed_comparison() {
    assert!(signed_lt(r(u64::MAX), r(0)));
    assert!(!signed_lt(r(0), r(u64::MAX)));
    assert!(signed_lt(r(1), r(2)));
    assert!(!signed_lt(r(2), r(2)));
}

#[test]
fn arithmetic_shift_keeps_sign() {
    assert_eq!(arith_r_shift_i(r((-8i64) as u64), 1).value, (-4i64) as u64);
    assert_eq!(arith_r_shift_i(r((-1i64) as u64), 63).value, u64::MAX);
    assert_eq!(arith_r_shift_i(r(16), 2).value, 4);
    assert_eq!(arith_r_shift_i(r(16), 66).value, 4);
    assert_eq!(arith_r_shift(r((-7i64) as u64), r(1)).value, (-4i64) as u64);
}

#[test]
fn memory_write_read_round_trip() {
    let mut mem = [0u8; MEMORY_SIZE];
    riscv_interpreter::rv64_i::write(&mut mem, r(8), 32, r(0x1122_3344_5566_7788));
    assert_eq!(&mem[8..12], &[0x88, 0x77, 0x66, 0x55]);
    assert_eq!(mem[12], 0);
    assert_eq!(read(&mem, r(8), 32).value, 0x5566_7788);
    assert_eq!(read(&mem, r(8), 16).value, 0x7788);
    riscv_interpreter::rv64_i::write(&mut mem, r(MEMORY_SIZE as u64 - 8), 64, r(u64::MAX - 1));
    assert_eq!(read(&mem, r(MEMORY_SIZE as u64 - 8), 64).value, u64::MAX - 1);
}

#[test]
fn memory_sign_extending_read() {
    let mut mem = [0u8; MEMORY_SIZE];
    mem[0] = 0xFF;
    assert_eq!(read(&mem, r(0), 8).value, 0xFF);
    assert_eq!(read_sext(&mem, r(0), 8).value, u64::MAX);
    assert_eq!(read_sext(&mem, r(0), 16).value, 0xFF);
}
