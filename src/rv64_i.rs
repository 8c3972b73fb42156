use vstd::arithmetic::div_mod::*;
use vstd::arithmetic::power2::*;
use vstd::bits::*;
use vstd::prelude::*;

use crate::instruction::Register;

verus! {

/// Size in bytes of the flat, zero-initialised data memory.
pub const MEMORY_SIZE: usize = 4096;

/// Unsigned value of an LSB-first bit sequence.
pub open spec fn bits_value(s: Seq<bool>) -> nat
    decreases s.len(),
{
    if s.len() == 0 {
        0
    } else {
        bits_value(s.drop_last()) + if s.last() {
            pow2((s.len() - 1) as nat)
        } else {
            0
        }
    }
}

/// The 64-bit pattern of an LSB-first bit sequence whose last bit is
/// replicated into all higher positions.
pub open spec fn sext_value(s: Seq<bool>) -> nat
    recommends
        1 <= s.len() <= 64,
{
    if s.last() {
        (bits_value(s) + pow2(64) - pow2(s.len())) as nat
    } else {
        bits_value(s)
    }
}

pub proof fn lemma_bits_value_bound(s: Seq<bool>)
    ensures
        bits_value(s) < pow2(s.len()),
    decreases s.len(),
{
    if s.len() > 0 {
        lemma_bits_value_bound(s.drop_last());
        lemma_pow2_unfold(s.len());
    } else {
        lemma_pow2_pos(0);
        reveal(pow2);
    }
}

/// Sign-extends an LSB-first bit array to 64 bits.
pub fn sext<const ARRLEN: usize>(input: [bool; ARRLEN]) -> (r: Register)
    requires
        1 <= ARRLEN <= 64,
    ensures
        r.value as nat == sext_value(input@),
{
    let mut total: u64 = 0;
    let mut p: u64 = 1;
    let mut i: usize = 0;
    proof {
        lemma2_to64();
    }
    while i < ARRLEN
        invariant
            1 <= ARRLEN <= 64,
            0 <= i <= ARRLEN,
            total as nat == bits_value(input@.take(i as int)),
            i < 64 ==> p as nat == pow2(i as nat),
            i == 64 ==> p == 1,
            input@.len() == ARRLEN,
        decreases ARRLEN - i,
    {
        proof {
            lemma_bits_value_bound(input@.take(i as int));
            assert(input@.take(i as int + 1).drop_last() == input@.take(i as int));
            lemma_pow2_unfold((i + 1) as nat);
            lemma2_to64();
            if i + 1 < 64 {
                lemma_pow2_strictly_increases((i + 1) as nat, 64);
            }
            assert(total + p <= pow2(64));
        }
        if input[i] {
            total = total + p;
        }
        if i < 63 {
            p = p * 2;
        } else {
            p = 1;
        }
        i = i + 1;
    }
    proof {
        assert(input@.take(ARRLEN as int) == input@);
        lemma_bits_value_bound(input@);
        lemma2_to64();
    }
    if input[ARRLEN - 1] && ARRLEN < 64 {
        total = total + (u64::MAX - p + 1);
    }
    Register { value: total }
}

/// The two's-complement reading of a 64-bit pattern.
pub open spec fn signed(x: u64) -> int {
    if x < 0x8000_0000_0000_0000 {
        x as int
    } else {
        x - 0x1_0000_0000_0000_0000
    }
}

/// The 64-bit pattern of an integer in the signed range.
pub open spec fn to_u64(x: int) -> u64 {
    if x < 0 {
        (x + 0x1_0000_0000_0000_0000) as u64
    } else {
        x as u64
    }
}

/// Mask of the `n` lowest bits, for `n < 64`.
pub open spec fn low_mask(n: u64) -> u64 {
    ((1u64 << n) - 1) as u64
}

/// The low `n` bits of `x` with bit `n - 1` replicated into bits `n..63`.
pub open spec fn sext_n_value(x: u64, n: u64) -> u64 {
    if n >= 64 {
        x
    } else if (x >> (n - 1) as u64) & 1 == 1 {
        x | !low_mask(n)
    } else {
        x & low_mask(n)
    }
}

/// Treats the low `current_len` bits of `input` as a signed number and
/// sign-extends it to 64 bits.
pub fn sext_n(input: Register, current_len: u32) -> (r: Register)
    requires
        1 <= current_len <= 64,
    ensures
        r.value == sext_n_value(input.value, current_len as u64),
        // every bit from `current_len - 1` upwards is a copy of that bit of the input
        r.value >> (current_len - 1) as u64 == if (input.value >> (current_len - 1) as u64) & 1
            == 1 {
            u64::MAX >> (current_len - 1) as u64
        } else {
            0
        },
        current_len < 64 ==> r.value & low_mask(current_len as u64) == input.value & low_mask(
            current_len as u64,
        ),
{
    let x = input.value;
    let n = current_len as u64;
    if n == 64 {
        assert((x >> 63u64) & 1 == 1 ==> x >> 63u64 == u64::MAX >> 63u64) by (bit_vector);
        assert((x >> 63u64) & 1 != 1 ==> x >> 63u64 == 0) by (bit_vector);
        return input;
    }
    assert(1u64 << n >= 1) by (bit_vector)
        requires
            1 <= n < 64,
    ;
    let mask: u64 = (1u64 << n) - 1;
    let sh: u64 = n - 1;
    let r = if (x >> sh) & 1 == 1 {
        x | !mask
    } else {
        x & mask
    };
    assert(r >> sh == if (x >> sh) & 1 == 1 {
        u64::MAX >> sh
    } else {
        0
    } && r & mask == x & mask) by (bit_vector)
        requires
            1 <= n < 64,
            sh == n - 1,
            mask == (1u64 << n) - 1,
            r == if (x >> sh) & 1 == 1 {
                x | !mask
            } else {
                x & mask
            },
    ;
    Register { value: r }
}

/// Two's-complement less-than over 64-bit patterns.
pub fn signed_lt(left: Register, right: Register) -> (r: bool)
    ensures
        r == (signed(left.value) < signed(right.value)),
{
    let l_neg = left.value >= 0x8000_0000_0000_0000;
    let r_neg = right.value >= 0x8000_0000_0000_0000;
    if l_neg != r_neg {
        l_neg
    } else {
        left.value < right.value
    }
}

proof fn lemma_floor_div_negative(x: int, d: int)
    requires
        x < 0,
        d > 0,
    ensures
        x / d == -1 - (-x - 1) / d,
{
    let q = (-x - 1) / d;
    let r = (-x - 1) % d;
    lemma_fundamental_div_mod(-x - 1, d);
    lemma_mod_pos_bound(-x - 1, d);
    assert(x == (-q - 1) * d + (d - 1 - r)) by (nonlinear_arith)
        requires
            -x - 1 == d * q + r,
    ;
    lemma_fundamental_div_mod_converse_div(x, d, -q - 1, d - 1 - r);
}

/// Arithmetic right shift of the two's-complement reading of `val`; the
/// amount is taken modulo 64.
pub fn arith_r_shift_i(val: Register, offset: u64) -> (r: Register)
    ensures
        r.value == to_u64(signed(val.value) / pow2((offset % 64) as nat) as int),
{
    let s: u64 = offset % 64;
    let v = val.value;
    proof {
        lemma_pow2_pos(s as nat);
        lemma_u64_shr_is_div(v, s);
    }
    if v < 0x8000_0000_0000_0000 {
        proof {
            lemma_div_is_ordered(v as int, 0x8000_0000_0000_0000, pow2(s as nat) as int);
            lemma_div_pos_is_pos(v as int, pow2(s as nat) as int);
        }
        Register { value: v >> s }
    } else {
        let nv = !v;
        assert(nv == u64::MAX - v) by (bit_vector)
            requires
                nv == !v,
        ;
        let q = nv >> s;
        proof {
            lemma_u64_shr_is_div(nv, s);
            lemma_floor_div_negative(signed(v), pow2(s as nat) as int);
            lemma_div_pos_is_pos(nv as int, pow2(s as nat) as int);
            lemma_div_is_ordered_by_denominator(nv as int, 1, pow2(s as nat) as int);
        }
        let r = !q;
        assert(r == u64::MAX - q) by (bit_vector)
            requires
                r == !q,
        ;
        Register { value: r }
    }
}

/// Arithmetic right shift by the amount held in a register.
pub fn arith_r_shift(val: Register, offset: Register) -> (r: Register)
    ensures
        r.value == to_u64(signed(val.value) / pow2((offset.value % 64) as nat) as int),
{
    arith_r_shift_i(val, offset.value)
}

/// Unsigned little-endian value of a byte sequence.
pub open spec fn le_value(bytes: Seq<u8>) -> nat
    decreases bytes.len(),
{
    if bytes.len() == 0 {
        0
    } else {
        (bytes[0] + 256 * le_value(bytes.drop_first())) as nat
    }
}

/// The `n` low bytes of `v`, least significant first.
pub open spec fn le_bytes(v: nat, n: nat) -> Seq<u8>
    decreases n,
{
    if n == 0 {
        Seq::empty()
    } else {
        seq![(v % 256) as u8] + le_bytes(v / 256, (n - 1) as nat)
    }
}

/// An access of `length` bits at `addr` is allowed: the width is one of
/// 8, 16, 32, 64 and every byte lies inside memory.
pub open spec fn valid_access(addr: u64, length: u32) -> bool {
    &&& (length == 8 || length == 16 || length == 32 || length == 64)
    &&& addr + length / 8 <= MEMORY_SIZE
}

/// Value of the `length`-bit little-endian word at `addr`.
pub open spec fn mem_read_value(mem: Seq<u8>, addr: u64, length: u32) -> nat {
    le_value(mem.subrange(addr as int, addr + length / 8))
}

/// Memory after storing the low `length` bits of `v` at `addr`.
pub open spec fn mem_written(mem: Seq<u8>, addr: u64, length: u32, v: u64) -> Seq<u8> {
    mem.subrange(0, addr as int) + le_bytes(v as nat, (length / 8) as nat) + mem.subrange(
        addr + length / 8,
        mem.len() as int,
    )
}

proof fn lemma_le_value_bound(bytes: Seq<u8>)
    ensures
        le_value(bytes) < pow2(8 * bytes.len()),
    decreases bytes.len(),
{
    lemma2_to64();
    if bytes.len() == 0 {
    } else {
        lemma_le_value_bound(bytes.drop_first());
        lemma_pow2_adds(8, 8 * (bytes.len() - 1) as nat);
        assert(8 + 8 * (bytes.len() - 1) == 8 * bytes.len());
    }
}

proof fn lemma_le_bytes_len(v: nat, n: nat)
    ensures
        le_bytes(v, n).len() == n,
    decreases n,
{
    if n > 0 {
        lemma_le_bytes_len(v / 256, (n - 1) as nat);
    }
}

proof fn lemma_le_value_of_bytes(v: nat, n: nat)
    ensures
        le_value(le_bytes(v, n)) == v % pow2(8 * n),
    decreases n,
{
    lemma2_to64();
    if n == 0 {
        assert(v % 1 == 0);
    } else {
        lemma_le_value_of_bytes(v / 256, (n - 1) as nat);
        let b = le_bytes(v, n);
        assert(b.drop_first() == le_bytes(v / 256, (n - 1) as nat));
        lemma_pow2_adds(8, 8 * (n - 1) as nat);
        assert(8 + 8 * (n - 1) == 8 * n);
        lemma_pow2_pos(8 * (n - 1) as nat);
        lemma_mod_breakdown(v as int, 256, pow2(8 * (n - 1) as nat) as int);
    }
}

/// Reads a little-endian word of `length` bits (8, 16, 32 or 64) at
/// `address`.
pub fn read(mem: &[u8; MEMORY_SIZE], address: Register, length: u32) -> (r: Register)
    requires
        valid_access(address.value, length),
    ensures
        r.value as nat == mem_read_value(mem@, address.value, length),
{
    let n: usize = (length / 8) as usize;
    let a: usize = address.value as usize;
    let mut val: u64 = 0;
    let mut k: usize = n;
    proof {
        lemma2_to64();
    }
    while k > 0
        invariant
            valid_access(address.value, length),
            n == length / 8,
            a == address.value,
            0 <= k <= n,
            val as nat == le_value(mem@.subrange((a + k) as int, (a + n) as int)),
        decreases k,
    {
        proof {
            let sub = mem@.subrange((a + k) as int, (a + n) as int);
            lemma_le_value_bound(sub);
            assert(n <= 8);
            let e: nat = 8 * sub.len();
            assert(e <= 56);
            if e < 56 {
                lemma_pow2_strictly_increases(e, 56);
            }
            lemma2_to64_rest();
            assert(pow2(e) <= 0x100_0000_0000_0000);
            assert(val < 0x100_0000_0000_0000);
            assert(mem@.subrange((a + k - 1) as int, (a + n) as int).drop_first() == mem@.subrange(
                (a + k) as int,
                (a + n) as int,
            ));
        }
        k = k - 1;
        val = val * 256 + mem[a + k] as u64;
    }
    Register { value: val }
}

/// Reads a word as `read` does and sign-extends it from `length` bits.
pub fn read_sext(mem: &[u8; MEMORY_SIZE], address: Register, length: u32) -> (r: Register)
    requires
        valid_access(address.value, length),
    ensures
        r.value == sext_n_value(mem_read_value(mem@, address.value, length) as u64, length as u64),
{
    sext_n(read(mem, address, length), length)
}

/// Stores the low `length` bits of `val` little-endian at `address`.
pub fn write(mem: &mut [u8; MEMORY_SIZE], address: Register, length: u32, val: Register)
    requires
        valid_access(address.value, length),
    ensures
        final(mem)@ == mem_written(old(mem)@, address.value, length, val.value),
{
    let n: usize = (length / 8) as usize;
    let a: usize = address.value as usize;
    let ghost bytes = le_bytes(val.value as nat, n as nat);
    let mut rest: u64 = val.value;
    let mut i: usize = 0;
    proof {
        lemma_le_bytes_len(val.value as nat, n as nat);
    }
    while i < n
        invariant
            valid_access(address.value, length),
            n == length / 8,
            a == address.value,
            0 <= i <= n,
            bytes.len() == n,
            bytes == le_bytes(val.value as nat, n as nat),
            bytes.subrange(i as int, n as int) == le_bytes(rest as nat, (n - i) as nat),
            mem@.len() == MEMORY_SIZE,
            forall|j: int|
                0 <= j < MEMORY_SIZE ==> #[trigger] mem@[j] == if a <= j < a + i {
                    bytes[j - a]
                } else {
                    old(mem)@[j]
                },
        decreases n - i,
    {
        proof {
            let tail = bytes.subrange(i as int, n as int);
            assert(tail[0] == bytes[i as int]);
            assert(tail.drop_first() == bytes.subrange(i + 1, n as int));
        }
        mem[a + i] = (rest % 256) as u8;
        rest = rest / 256;
        i = i + 1;
    }
    proof {
        let w = mem_written(old(mem)@, address.value, length, val.value);
        assert(w.len() == MEMORY_SIZE);
        assert forall|j: int| 0 <= j < MEMORY_SIZE implies mem@[j] == w[j] by {
            if j < a {
            } else if j < a + n {
            } else {
            }
        }
        assert(mem@ == w);
    }
}

/// Storing a word and reading it back at the same place and width gives the
/// low `length` bits of the stored value.
pub proof fn lemma_write_read_round_trip(mem: Seq<u8>, addr: u64, length: u32, v: u64)
    requires
        mem.len() == MEMORY_SIZE,
        valid_access(addr, length),
    ensures
        mem_read_value(mem_written(mem, addr, length, v), addr, length) == v as nat % pow2(
            length as nat,
        ),
{
    let n = (length / 8) as nat;
    lemma_le_bytes_len(v as nat, n);
    let w = mem_written(mem, addr, length, v);
    assert(w.subrange(addr as int, addr + n) == le_bytes(v as nat, n));
    lemma_le_value_of_bytes(v as nat, n);
    assert(8 * n == length);
}

} // verus!
