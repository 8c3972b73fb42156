use vstd::arithmetic::div_mod::*;
use vstd::arithmetic::power2::*;
use vstd::prelude::*;

use crate::build_common::{chars_of, texts, tokenise, tokens};
use crate::catalog::same_chars;
use crate::registers::{register_index, register_number};
use crate::rv64_i::bits_value;
use crate::semantics::{Opcode, Semantic};

verus! {

/// The bit pattern held by one architectural 64-bit register.
#[derive(Clone, Copy, Debug, PartialEq, Eq, Structural)]
pub struct Register {
    pub value: u64,
}

/// The program counter: a byte offset into the program, and whether the
/// instruction being executed has written it.
pub struct PC {
    pub value: u64,
    pub changed: bool,
}

impl View for PC {
    type V = u64;

    open spec fn view(&self) -> u64 {
        self.value
    }
}

impl PC {
    pub fn new() -> (r: PC)
        ensures
            r@ == 0,
            !r.changed,
    {
        PC { value: 0, changed: false }
    }

    /// Jumps to an absolute address.
    pub fn set(&mut self, val: Register)
        ensures
            final(self)@ == val.value,
            final(self).changed,
    {
        self.value = val.value;
        self.changed = true;
    }

    pub fn get(&self) -> (r: Register)
        ensures
            r.value == self@,
    {
        Register { value: self.value }
    }

    /// Moves by a (wrapping) offset.
    pub fn inc(&mut self, val: Register)
        ensures
            final(self)@ == old(self)@.wrapping_add(val.value),
            final(self).changed,
    {
        self.value = self.value.wrapping_add(val.value);
        self.changed = true;
    }
}

/// One typed operand of an instruction, as the parser produced it.
#[derive(Clone, Copy, Debug)]
pub enum ImplementationArg {
    Register(usize),
    Imm12([bool; 12]),
    Imm20([bool; 20]),
    Shamt(u64),
}

/// Value of a digit in base 2, 10 or 16; hexadecimal letters may be of
/// either case.
pub open spec fn digit_in(c: char, base: nat) -> Option<nat> {
    if '0' <= c <= '9' && (c as nat) - ('0' as nat) < base {
        Some(((c as nat) - ('0' as nat)) as nat)
    } else if base == 16 && 'a' <= c <= 'f' {
        Some(((c as nat) - ('a' as nat) + 10) as nat)
    } else if base == 16 && 'A' <= c <= 'F' {
        Some(((c as nat) - ('A' as nat) + 10) as nat)
    } else {
        None
    }
}

/// Value of a non-empty string of digits in a base.
pub open spec fn digits_value(s: Seq<char>, base: nat) -> Option<nat>
    decreases s.len(),
{
    if s.len() == 0 {
        None
    } else {
        match digit_in(s.last(), base) {
            None => None,
            Some(d) => if s.len() == 1 {
                Some(d)
            } else {
                match digits_value(s.drop_last(), base) {
                    None => None,
                    Some(v) => Some(v * base + d),
                }
            },
        }
    }
}

/// Value of an unsigned literal written as `0x` and hexadecimal digits,
/// `0b` and binary digits, or decimal digits.
pub open spec fn plain_magnitude(s: Seq<char>) -> Option<nat> {
    if s.len() >= 2 && s[0] == '0' && s[1] == 'x' {
        digits_value(s.skip(2), 16)
    } else if s.len() >= 2 && s[0] == '0' && s[1] == 'b' {
        digits_value(s.skip(2), 2)
    } else {
        digits_value(s, 10)
    }
}

/// Value of a literal written as an optional `-` and a `plain_magnitude`.
pub open spec fn plain_literal(s: Seq<char>) -> Option<int> {
    if s.len() > 0 && s[0] == '-' {
        match plain_magnitude(s.drop_first()) {
            Some(m) => Some(-m),
            None => None,
        }
    } else {
        match plain_magnitude(s) {
            Some(m) => Some(m as int),
            None => None,
        }
    }
}

/// What `parse_int::parse::<i32>` returns for a text, `None` standing for
/// its error.
pub uninterp spec fn parsed_i32(s: Seq<char>) -> Option<i32>;

/// Relies on `parse_int::parse::<i32>`: reads a decimal, `0x` hexadecimal
/// or `0b` binary literal, optionally negative; the result depends on the
/// text alone. A text with two minus signs is kept out: the crate negates
/// the rest after a leading one, which overflows if the rest reads as
/// `i32::MIN` (as `0x-80000000` does). For a plain literal (see
/// `plain_literal`) the crate strips the `-`, reads the digits with
/// `i32::from_str_radix`, which fails above `i32::MAX`, and negates.
#[verifier::external_body]
fn parse_i32(s: &str) -> (r: Option<i32>)
    requires
        single_minus(s@),
    ensures
        r == parsed_i32(s@),
        match plain_literal(s@) {
            Some(v) => if -0x7fff_ffff <= v <= 0x7fff_ffff {
                r == Some(v as i32)
            } else {
                r is None
            },
            None => true,
        },
{
    parse_int::parse::<i32>(s).ok()
}

/// A text holds at most one minus sign.
pub open spec fn single_minus(s: Seq<char>) -> bool {
    forall|i: int, j: int| 0 <= i < j < s.len() && s[i] == '-' ==> s[j] != '-'
}

/// Whether a text holds at most one minus sign.
pub fn has_single_minus(s: &str) -> (r: bool)
    ensures
        r == single_minus(s@),
{
    let cs = chars_of(s);
    let mut seen: bool = false;
    let mut i: usize = 0;
    while i < cs.len()
        invariant
            cs@ == s@,
            i <= cs@.len(),
            single_minus(cs@.take(i as int)),
            seen == cs@.take(i as int).contains('-'),
        decreases cs.len() - i,
    {
        if cs[i] == '-' {
            if seen {
                let ghost w = choose|k: int| 0 <= k < i && cs@.take(i as int)[k] == '-';
                assert(cs@[w] == '-' && w < i);
                return false;
            }
            seen = true;
        }
        assert(cs@.take(i + 1).drop_last() == cs@.take(i as int));
        i = i + 1;
        assert(single_minus(cs@.take(i as int)));
        assert(seen == cs@.take(i as int).contains('-')) by {
            if cs@[i - 1] == '-' {
                assert(cs@.take(i as int)[i - 1] == '-');
            }
        }
    }
    assert(cs@.take(i as int) == cs@);
    true
}

/// A signed literal: `None` for a malformed one or one with two minus
/// signs; a plain literal (see `plain_literal`) gives its value when that
/// fits in `-i32::MAX ..= i32::MAX`.
pub open spec fn signed_value(s: Seq<char>) -> Option<i32> {
    if !single_minus(s) {
        None
    } else {
        match plain_literal(s) {
            Some(v) => if -0x7fff_ffff <= v <= 0x7fff_ffff {
                Some(v as i32)
            } else {
                None
            },
            None => parsed_i32(s),
        }
    }
}

/// Parses a signed literal; see `signed_value`.
pub fn parse_signed(s: &str) -> (r: Option<i32>)
    ensures
        r == signed_value(s@),
{
    if has_single_minus(s) {
        parse_i32(s)
    } else {
        None
    }
}

/// The value `v` fits an `n`-bit immediate field, read either as signed or
/// as unsigned.
pub open spec fn imm_in_range(v: int, n: nat) -> bool {
    -pow2((n - 1) as nat) <= v < pow2(n)
}

/// The `n`-bit LSB-first encoding of an in-range immediate, if it fits.
pub open spec fn imm_bits_spec(v: int, n: nat, r: Option<Seq<bool>>) -> bool {
    if imm_in_range(v, n) {
        r is Some && r->0.len() == n && bits_value(r->0) == v % pow2(n) as int
    } else {
        r is None
    }
}

/// Encodes `val` as an `ARRLEN`-bit LSB-first immediate, or `None` when
/// it lies outside `-2^(ARRLEN-1) ..= 2^ARRLEN - 1`.
pub fn imm_bits<const ARRLEN: usize>(val: i32) -> (r: Option<[bool; ARRLEN]>)
    requires
        1 <= ARRLEN <= 30,
    ensures
        imm_bits_spec(val as int, ARRLEN as nat, match r {
            Some(b) => Some(b@),
            None => None,
        }),
{
    proof {
        lemma2_to64();
        lemma_pow2_strictly_increases(ARRLEN as nat, 31);
        lemma_pow2_strictly_increases((ARRLEN - 1) as nat, ARRLEN as nat);
    }
    let mut p: u32 = 1;
    let mut j: usize = 0;
    while j < ARRLEN
        invariant
            1 <= ARRLEN <= 30,
            j <= ARRLEN,
            p as nat == pow2(j as nat),
        decreases ARRLEN - j,
    {
        proof {
            lemma_pow2_unfold((j + 1) as nat);
            lemma_pow2_strictly_increases((j + 1) as nat, 31);
            lemma2_to64();
        }
        p = p * 2;
        j = j + 1;
    }
    let upper: i32 = p as i32;
    let lower: i32 = -((p / 2) as i32);
    proof {
        lemma_pow2_unfold(ARRLEN as nat);
    }
    if val < lower || val >= upper {
        return None;
    }
    let mut d: u32 = if val < 0 {
        (val + upper) as u32
    } else {
        val as u32
    };
    let ghost d0 = d as int;
    proof {
        lemma_pow2_pos(ARRLEN as nat);
        if val < 0 {
            lemma_fundamental_div_mod_converse_mod(val as int, pow2(ARRLEN as nat) as int, -1, d0);
        } else {
            lemma_small_mod(val as nat, pow2(ARRLEN as nat));
        }
        assert(d0 == (val as int) % pow2(ARRLEN as nat) as int);
    }
    let mut bits: [bool; ARRLEN] = [false; ARRLEN];
    let mut i: usize = 0;
    let ghost mut scale: nat = 1;
    while i < ARRLEN
        invariant
            1 <= ARRLEN <= 30,
            i <= ARRLEN,
            scale == pow2(i as nat),
            bits@.len() == ARRLEN,
            bits_value(bits@.take(i as int)) + scale * d == d0,
        decreases ARRLEN - i,
    {
        let b = d % 2 == 1;
        proof {
            let t = bits@.take(i as int);
            let t2 = bits@.update(i as int, b).take(i as int + 1);
            assert(t2.drop_last() == t);
            lemma_pow2_unfold((i + 1) as nat);
            lemma_fundamental_div_mod(d as int, 2);
            assert(scale * d == scale * (2 * (d / 2)) + scale * (d % 2)) by (nonlinear_arith)
                requires
                    d == 2 * (d / 2) + d % 2,
            ;
            assert(scale * (2 * (d / 2)) == (2 * scale) * (d / 2)) by (nonlinear_arith);
        }
        bits[i] = b;
        d = d / 2;
        i = i + 1;
        proof {
            scale = scale * 2;
        }
    }
    proof {
        assert(bits@.take(ARRLEN as int) == bits@);
        crate::rv64_i::lemma_bits_value_bound(bits@);
        assert(d == 0) by (nonlinear_arith)
            requires
                bits_value(bits@) + scale * d == d0,
                d0 < scale,
                scale > 0,
                bits_value(bits@) >= 0,
        ;
    }
    Some(bits)
}

/// Parses an `ARRLEN`-bit immediate: a decimal, `0x` or `0b` literal `v`
/// with `-2^(ARRLEN-1) <= v < 2^ARRLEN`, stored LSB-first.
pub fn parse_imm<const ARRLEN: usize>(input: String) -> (r: Option<[bool; ARRLEN]>)
    requires
        1 <= ARRLEN <= 30,
    ensures
        match signed_value(input@) {
            None => r is None,
            Some(v) => imm_bits_spec(v as int, ARRLEN as nat, match r {
                Some(b) => Some(b@),
                None => None,
            }),
        },
{
    match parse_signed(input.as_str()) {
        None => None,
        Some(v) => imm_bits::<ARRLEN>(v),
    }
}

/// What `parse_int::parse::<u64>` returns for a text, `None` standing for
/// its error.
pub uninterp spec fn parsed_u64(s: Seq<char>) -> Option<u64>;

/// Relies on `parse_int::parse::<u64>`: reads a decimal, `0x` hexadecimal
/// or `0b` binary literal; the result depends on the text alone. A text
/// with a minus sign is kept out: the crate negates by subtracting from
/// zero, which overflows for unsigned types. For a plain literal (see
/// `plain_magnitude`) it reads the digits with `u64::from_str_radix`, which
/// fails above `u64::MAX`.
#[verifier::external_body]
pub(crate) fn parse_u64(s: &str) -> (r: Option<u64>)
    requires
        !s@.contains('-'),
    ensures
        r == parsed_u64(s@),
        match plain_magnitude(s@) {
            Some(m) => if m <= u64::MAX {
                r == Some(m as u64)
            } else {
                r is None
            },
            None => true,
        },
{
    parse_int::parse::<u64>(s).ok()
}

/// Whether a text holds a minus sign.
pub fn has_minus(s: &str) -> (r: bool)
    ensures
        r == s@.contains('-'),
{
    let cs = chars_of(s);
    let mut i: usize = 0;
    while i < cs.len()
        invariant
            cs@ == s@,
            i <= cs@.len(),
            forall|j: int| 0 <= j < i ==> cs@[j] != '-',
        decreases cs.len() - i,
    {
        if cs[i] == '-' {
            assert(s@[i as int] == '-');
            return true;
        }
        i = i + 1;
    }
    false
}

/// An unsigned literal (a shift amount, an initial register value): `None`
/// for a negative or malformed one; a plain literal (see
/// `plain_magnitude`) gives its value when that fits in a `u64`.
pub open spec fn unsigned_value(s: Seq<char>) -> Option<u64> {
    if s.contains('-') {
        None
    } else {
        match plain_magnitude(s) {
            Some(m) => if m <= u64::MAX {
                Some(m as u64)
            } else {
                None
            },
            None => parsed_u64(s),
        }
    }
}

/// Parses an unsigned literal; see `unsigned_value`.
pub fn parse_unsigned(s: &str) -> (r: Option<u64>)
    ensures
        r == unsigned_value(s@),
{
    if has_minus(s) {
        None
    } else {
        parse_u64(s)
    }
}

/// Operand kinds that a syntax template can ask for.
#[derive(Clone, Copy, Debug, PartialEq, Eq, Structural)]
pub enum Placeholder {
    Reg,
    Imm12,
    Imm20,
    Shamt,
}

/// The operand kind a template token stands for: `rd`, `rs1`, `rs2` are
/// registers, `imm` and `offset` 12-bit immediates, `imm20` a 20-bit
/// immediate, `shamt` a shift amount; anything else is literal text.
pub open spec fn placeholder_of(t: Seq<char>) -> Option<Placeholder> {
    if t == seq!['r', 'd'] || t == seq!['r', 's', '1'] || t == seq!['r', 's', '2'] {
        Some(Placeholder::Reg)
    } else if t == seq!['i', 'm', 'm'] || t == seq!['o', 'f', 'f', 's', 'e', 't'] {
        Some(Placeholder::Imm12)
    } else if t == seq!['i', 'm', 'm', '2', '0'] {
        Some(Placeholder::Imm20)
    } else if t == seq!['s', 'h', 'a', 'm', 't'] {
        Some(Placeholder::Shamt)
    } else {
        None
    }
}

/// Classifies a template token; see `placeholder_of`.
pub fn placeholder(t: &[char]) -> (r: Option<Placeholder>)
    ensures
        r == placeholder_of(t@),
{
    let rd = ['r', 'd'];
    let rs1 = ['r', 's', '1'];
    let rs2 = ['r', 's', '2'];
    let imm = ['i', 'm', 'm'];
    let offset = ['o', 'f', 'f', 's', 'e', 't'];
    let imm20 = ['i', 'm', 'm', '2', '0'];
    let shamt = ['s', 'h', 'a', 'm', 't'];
    assert(rd@ == seq!['r', 'd']);
    assert(rs1@ == seq!['r', 's', '1']);
    assert(rs2@ == seq!['r', 's', '2']);
    assert(imm@ == seq!['i', 'm', 'm']);
    assert(offset@ == seq!['o', 'f', 'f', 's', 'e', 't']);
    assert(imm20@ == seq!['i', 'm', 'm', '2', '0']);
    assert(shamt@ == seq!['s', 'h', 'a', 'm', 't']);
    if same_chars(t, &rd) || same_chars(t, &rs1) || same_chars(t, &rs2) {
        Some(Placeholder::Reg)
    } else if same_chars(t, &imm) || same_chars(t, &offset) {
        Some(Placeholder::Imm12)
    } else if same_chars(t, &imm20) {
        Some(Placeholder::Imm20)
    } else if same_chars(t, &shamt) {
        Some(Placeholder::Shamt)
    } else {
        None
    }
}

/// The value an operand carries: a register index, an immediate's
/// unsigned bit pattern, or a shift amount.
pub enum ArgValue {
    Register(nat),
    Imm12(nat),
    Imm20(nat),
    Shamt(u64),
}

pub open spec fn arg_value(a: ImplementationArg) -> ArgValue {
    match a {
        ImplementationArg::Register(r) => ArgValue::Register(r as nat),
        ImplementationArg::Imm12(b) => ArgValue::Imm12(bits_value(b@)),
        ImplementationArg::Imm20(b) => ArgValue::Imm20(bits_value(b@)),
        ImplementationArg::Shamt(s) => ArgValue::Shamt(s),
    }
}

pub open spec fn arg_values(v: Seq<ImplementationArg>) -> Seq<ArgValue> {
    v.map_values(|a: ImplementationArg| arg_value(a))
}

/// The operand a token gives for a placeholder, if it is well-formed.
pub open spec fn token_arg(tok: Seq<char>, p: Placeholder) -> Option<ArgValue> {
    match p {
        Placeholder::Reg => match register_index(tok) {
            Some(k) => Some(ArgValue::Register(k)),
            None => None,
        },
        Placeholder::Imm12 => match signed_value(tok) {
            Some(v) => if imm_in_range(v as int, 12) {
                Some(ArgValue::Imm12((v as int % pow2(12) as int) as nat))
            } else {
                None
            },
            None => None,
        },
        Placeholder::Imm20 => match signed_value(tok) {
            Some(v) => if imm_in_range(v as int, 20) {
                Some(ArgValue::Imm20((v as int % pow2(20) as int) as nat))
            } else {
                None
            },
            None => None,
        },
        Placeholder::Shamt => match unsigned_value(tok) {
            Some(v) => Some(ArgValue::Shamt(v)),
            None => None,
        },
    }
}

/// Operands of a tokenised line against a tokenised syntax template: the
/// counts must agree, each placeholder must get a well-formed operand and
/// each other template token must appear as it is.
pub open spec fn match_syntax(toks: Seq<Seq<char>>, syn: Seq<Seq<char>>) -> Option<
    Seq<ArgValue>,
>
    decreases toks.len(),
{
    if toks.len() != syn.len() {
        None
    } else if toks.len() == 0 {
        Some(Seq::empty())
    } else {
        match match_syntax(toks.drop_last(), syn.drop_last()) {
            None => None,
            Some(a) => match placeholder_of(syn.last()) {
                Some(p) => match token_arg(toks.last(), p) {
                    Some(v) => Some(a.push(v)),
                    None => None,
                },
                None => if toks.last() == syn.last() {
                    Some(a)
                } else {
                    None
                },
            },
        }
    }
}

proof fn lemma_match_syntax_fails_on(toks: Seq<Seq<char>>, syn: Seq<Seq<char>>, k: int)
    requires
        toks.len() == syn.len(),
        0 <= k <= toks.len(),
        match_syntax(toks.take(k), syn.take(k)) is None,
    ensures
        match_syntax(toks, syn) is None,
    decreases toks.len() - k,
{
    if k < toks.len() {
        let t2 = toks.take(k + 1);
        let s2 = syn.take(k + 1);
        assert(t2.drop_last() == toks.take(k));
        assert(s2.drop_last() == syn.take(k));
        lemma_match_syntax_fails_on(toks, syn, k + 1);
    } else {
        assert(toks.take(k) == toks);
        assert(syn.take(k) == syn);
    }
}

/// Words joined with single spaces.
pub open spec fn join_spaced(v: Seq<Seq<char>>) -> Seq<char>
    decreases v.len(),
{
    if v.len() == 0 {
        Seq::empty()
    } else if v.len() == 1 {
        v[0]
    } else {
        join_spaced(v.drop_last()) + seq![' '] + v.last()
    }
}

/// Joins strings with single spaces.
pub fn join_with_spaces(v: &Vec<String>) -> (r: String)
    ensures
        r@ == join_spaced(texts(v@)),
{
    let mut r = String::new();
    let mut i: usize = 0;
    while i < v.len()
        invariant
            i <= v@.len(),
            r@ == join_spaced(texts(v@.take(i as int))),
        decreases v.len() - i,
    {
        let ghost prev = texts(v@.take(i as int));
        let ghost next = texts(v@.take(i + 1));
        proof {
            reveal_strlit(" ");
            assert(next.drop_last() == prev);
            assert(next.last() == v@[i as int]@);
            assert(next.len() == i + 1);
        }
        if i > 0 {
            r.append(" ");
        }
        r.append(v[i].as_str());
        proof {
            if i == 0 {
                assert(r@ == next[0]);
            }
        }
        i = i + 1;
    }
    assert(v@.take(v@.len() as int) == v@);
    r
}

/// The static description of one instruction of the catalog.
#[derive(Clone, Copy, Debug)]
pub struct InstructionSource {
    pub mnemonic: &'static str,
    pub expansion: &'static str,
    /// The syntax template, e.g. `addi rd, rs1, imm`.
    pub syntax: &'static str,
    pub description: &'static str,
    pub opcode: Opcode,
}

/// An instruction of a program: its catalog entry, the 1-based source
/// line it came from, whether a breakpoint is set on it, and its bound
/// operands.
#[derive(Clone, Copy, Debug)]
pub struct Instruction {
    pub source: InstructionSource,
    pub line_num: u32,
    pub breakpoint: bool,
    pub implementation: Semantic,
}

/// Diagnostic for a line that does not fit an instruction's template.
pub open spec fn format_error_text(
    mnemonic: Seq<char>,
    syntax: Seq<Seq<char>>,
    toks: Seq<Seq<char>>,
) -> Seq<char> {
    "Invalid instruction format. Instruction \""@ + mnemonic + "\" should have format \""@
        + join_spaced(syntax) + "\" but instead had \""@ + join_spaced(toks) + "\""@
}

impl InstructionSource {
    /// The diagnostic for `tokens`, a line that does not fit this
    /// instruction's template.
    pub fn format_error(&self, tokens: Vec<String>) -> (r: String)
        ensures
            r@ == format_error_text(self.mnemonic@, crate::build_common::tokens(self.syntax@), texts(tokens@)),
    {
        let syntax = tokenise(self.syntax);
        let mut r = String::from_str("Invalid instruction format. Instruction \"");
        r.append(self.mnemonic);
        r.append("\" should have format \"");
        let s = join_with_spaces(&syntax);
        r.append(s.as_str());
        r.append("\" but instead had \"");
        let t = join_with_spaces(&tokens);
        r.append(t.as_str());
        r.append("\"");
        r
    }

    /// Reads the operands of a line written in this instruction's syntax,
    /// or gives the diagnostic `format_error` builds.
    pub fn parse(&self, code: &str) -> (r: Result<Vec<ImplementationArg>, String>)
        ensures
            match match_syntax(tokens(code@), tokens(self.syntax@)) {
                Some(a) => r matches Ok(v) && arg_values(v@) == a,
                None => r matches Err(e) && e@ == format_error_text(
                    self.mnemonic@,
                    tokens(self.syntax@),
                    tokens(code@),
                ),
            },
    {
        let toks: Vec<String> = tokenise(code);
        let syntax: Vec<String> = tokenise(self.syntax);
        let ghost tv = texts(toks@);
        let ghost sv = texts(syntax@);
        if toks.len() != syntax.len() {
            return Err(self.format_error(toks));
        }
        let mut arguments: Vec<ImplementationArg> = Vec::new();
        let mut i: usize = 0;
        proof {
            assert(tv.take(0) == Seq::<Seq<char>>::empty());
            assert(sv.take(0) == Seq::<Seq<char>>::empty());
            assert(arg_values(arguments@) == Seq::<ArgValue>::empty());
        }
        while i < toks.len()
            invariant
                tv == texts(toks@),
                sv == texts(syntax@),
                tv == tokens(code@),
                sv == tokens(self.syntax@),
                toks@.len() == syntax@.len(),
                i <= toks@.len(),
                match_syntax(tv.take(i as int), sv.take(i as int)) == Some(arg_values(arguments@)),
            decreases toks.len() - i,
        {
            let actual = &toks[i];
            let expected = &syntax[i];
            let ghost prev = arguments@;
            proof {
                assert(tv.take(i + 1).drop_last() == tv.take(i as int));
                assert(sv.take(i + 1).drop_last() == sv.take(i as int));
                assert(tv.take(i + 1).last() == actual@);
                assert(sv.take(i + 1).last() == expected@);
            }
            let expected_chars = chars_of(expected.as_str());
            let ok = match placeholder(expected_chars.as_slice()) {
                Some(Placeholder::Reg) => {
                    let name = chars_of(actual.as_str());
                    match register_number(name.as_slice()) {
                        Some(k) => {
                            arguments.push(ImplementationArg::Register(k));
                            true
                        },
                        None => false,
                    }
                },
                Some(Placeholder::Imm12) => {
                    match parse_imm::<12>(actual.clone()) {
                        Some(b) => {
                            proof {
                                vstd::arithmetic::power2::lemma2_to64();
                            }
                            arguments.push(ImplementationArg::Imm12(b));
                            true
                        },
                        None => false,
                    }
                },
                Some(Placeholder::Imm20) => {
                    match parse_imm::<20>(actual.clone()) {
                        Some(b) => {
                            proof {
                                vstd::arithmetic::power2::lemma2_to64();
                            }
                            arguments.push(ImplementationArg::Imm20(b));
                            true
                        },
                        None => false,
                    }
                },
                Some(Placeholder::Shamt) => {
                    match parse_unsigned(actual.as_str()) {
                        Some(v) => {
                            arguments.push(ImplementationArg::Shamt(v));
                            true
                        },
                        None => false,
                    }
                },
                None => *actual == *expected,
            };
            if !ok {
                proof {
                    lemma_match_syntax_fails_on(tv, sv, i + 1);
                }
                return Err(self.format_error(toks));
            }
            proof {
                assert(arg_values(arguments@) == arg_values(prev) + arg_values(arguments@.subrange(prev.len() as int, arguments@.len() as int)));
            }
            i = i + 1;
        }
        proof {
            assert(tv.take(i as int) == tv);
            assert(sv.take(i as int) == sv);
        }
        Ok(arguments)
    }
}

} // verus!
