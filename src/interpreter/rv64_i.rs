use vstd::prelude::*;

use crate::build_common::{chars_of, string_from_chars, texts, tokenise, tokens};
use crate::catalog::{catalog_ok, instructions, lookup, lookup_spec};
use crate::instruction::{
    arg_values, format_error_text, match_syntax, parse_unsigned, unsigned_value, Instruction,
    InstructionSource, Register, PC,
};
use crate::rv64_i::MEMORY_SIZE;
use crate::semantics::{accessible, bind_spec, can_execute, effect, execute, materialize};
use crate::text::{
    comment_free, decimal, first_word, first_word_of, fixed_digits, lines, push_decimal,
    push_digits, split_lines, strip_comment, trim, trimmed, views,
};

verus! {

/// Everything an RV64I machine holds, as mathematical values.
pub struct MachineView {
    pub catalog: Seq<InstructionSource>,
    pub code: Seq<char>,
    pub program: Seq<Instruction>,
    pub regs: Seq<Register>,
    pub initial: Seq<Register>,
    pub mem: Seq<u8>,
    pub pc: u64,
    pub errors: Seq<Seq<char>>,
    pub warnings: Seq<Seq<char>>,
    pub frequency: Option<u32>,
    pub running: bool,
}

impl MachineView {
    /// The catalog is the RV64I table, register and memory sizes are
    /// fixed, `x0` reads as zero, and every instruction names registers
    /// that exist and a line from 1 up.
    pub open spec fn wf(&self) -> bool {
        &&& catalog_ok(self.catalog)
        &&& self.regs.len() == 32
        &&& self.regs[0].value == 0
        &&& self.initial.len() == 32
        &&& self.mem.len() == MEMORY_SIZE
        &&& forall|i: int|
            0 <= i < self.program.len() ==> (#[trigger] self.program[i]).implementation.wf()
                && self.program[i].line_num >= 1
    }

    /// Index of the instruction the PC points at.
    pub open spec fn index(&self) -> int {
        self.pc as int / 4
    }

    /// The PC points past the last instruction.
    pub open spec fn at_end(&self) -> bool {
        self.index() >= self.program.len()
    }
}

/// Diagnostic for a line whose first word names no instruction.
pub open spec fn invalid_line_text(n: nat, text: Seq<char>) -> Seq<char> {
    "Invalid instruction on line "@ + decimal(n) + ": "@ + text
}

/// Diagnostic for an instruction that would access memory outside its
/// bounds; the machine stops in front of it.
pub open spec fn fault_text(n: nat) -> Seq<char> {
    "Memory access out of bounds on line "@ + decimal(n)
}

/// How one source line is read.
pub enum LineResult {
    /// Nothing but blanks and a comment.
    Blank,
    /// Its first word names no instruction; reading goes on.
    Unknown(Seq<char>),
    /// Its operands do not fit the instruction; reading stops.
    Rejected(Seq<char>),
    Decoded(Instruction),
}

/// Reads line number `n` against a catalog.
pub open spec fn line_result(catalog: Seq<InstructionSource>, line: Seq<char>, n: nat) -> LineResult {
    let text = trimmed(comment_free(line));
    if text.len() == 0 {
        LineResult::Blank
    } else {
        match lookup_spec(catalog, first_word(text)) {
            None => LineResult::Unknown(invalid_line_text(n, text)),
            Some(i) => {
                let src = catalog[i];
                let diagnostic = format_error_text(src.mnemonic@, tokens(src.syntax@), tokens(text));
                match match_syntax(tokens(text), tokens(src.syntax@)) {
                    None => LineResult::Rejected(diagnostic),
                    Some(vals) => match bind_spec(src.opcode, vals) {
                        None => LineResult::Rejected(diagnostic),
                        Some(s) => LineResult::Decoded(
                            Instruction {
                                source: src,
                                line_num: n as u32,
                                breakpoint: false,
                                implementation: s,
                            },
                        ),
                    },
                }
            },
        }
    }
}

/// The program and the diagnostics read from `lines`, the first being line
/// number `n`. Lines numbered beyond `u32::MAX` are not read.
pub open spec fn parse_from(catalog: Seq<InstructionSource>, lines: Seq<Seq<char>>, n: nat) -> (
    Seq<Instruction>,
    Seq<Seq<char>>,
)
    decreases lines.len(),
{
    if lines.len() == 0 || n > u32::MAX {
        (Seq::empty(), Seq::empty())
    } else {
        let rest = parse_from(catalog, lines.drop_first(), n + 1);
        match line_result(catalog, lines[0], n) {
            LineResult::Blank => rest,
            LineResult::Unknown(e) => (rest.0, seq![e] + rest.1),
            LineResult::Rejected(e) => (Seq::empty(), seq![e]),
            LineResult::Decoded(i) => (seq![i] + rest.0, rest.1),
        }
    }
}

/// The program and diagnostics of a source text.
pub open spec fn parse_code(catalog: Seq<InstructionSource>, code: Seq<char>) -> (
    Seq<Instruction>,
    Seq<Seq<char>>,
) {
    parse_from(catalog, lines(code), 1)
}

/// The machine after `set_code(code)`: unchanged if the text is the one it
/// holds, else holding the text, its program and its diagnostics.
pub open spec fn set_code_view(v: MachineView, code: Seq<char>) -> MachineView {
    if code == v.code {
        v
    } else {
        let p = parse_code(v.catalog, code);
        MachineView { code, program: p.0, errors: p.1, ..v }
    }
}

/// Setting the same text twice reads it at most once: the second call
/// leaves the machine, and its program, as the first left it.
pub proof fn lemma_set_code_idempotent(v: MachineView, code: Seq<char>)
    ensures
        set_code_view(set_code_view(v, code), code) == set_code_view(v, code),
        set_code_view(set_code_view(v, code), code).program == set_code_view(v, code).program,
{
}

/// The machine after one `step()`.
pub open spec fn step_view(v: MachineView) -> MachineView {
    if !v.running {
        v
    } else if v.at_end() {
        MachineView { running: false, ..v }
    } else {
        let inst = v.program[v.index()];
        let s = inst.implementation;
        if !accessible(s, v.regs) {
            MachineView {
                running: false,
                errors: v.errors.push(fault_text(inst.line_num as nat)),
                ..v
            }
        } else {
            let o = effect(s, v.regs, v.pc, v.mem);
            MachineView {
                regs: o.regs.update(0, Register { value: 0 }),
                pc: if o.jumped {
                    o.pc
                } else {
                    v.pc.wrapping_add(4)
                },
                mem: o.mem,
                ..v
            }
        }
    }
}

/// The PC points at an instruction with a breakpoint.
pub open spec fn at_breakpoint(v: MachineView) -> bool {
    !v.at_end() && v.program[v.index()].breakpoint
}

/// Steps while the machine runs, at most `fuel` times, stopping in front of
/// a breakpoint.
pub open spec fn run_from(v: MachineView, fuel: nat) -> MachineView
    decreases fuel,
{
    if fuel == 0 || !v.running {
        v
    } else if at_breakpoint(v) {
        MachineView { running: false, ..v }
    } else {
        run_from(step_view(v), (fuel - 1) as nat)
    }
}

/// Most steps one `run()` takes.
pub const RUN_LIMIT: u64 = 0xffff_ffff_ffff_ffff;

/// The machine after `run()`.
pub open spec fn run_view(v: MachineView) -> MachineView {
    run_from(MachineView { running: true, ..v }, RUN_LIMIT as nat)
}

/// The program with the breakpoint flipped on every instruction of line
/// `line`.
pub open spec fn toggled(program: Seq<Instruction>, line: u32) -> Seq<Instruction> {
    Seq::new(
        program.len(),
        |i: int|
            if program[i].line_num == line {
                Instruction { breakpoint: !program[i].breakpoint, ..program[i] }
            } else {
                program[i]
            },
    )
}

/// The largest source line of a program, or 0 for none.
pub open spec fn max_line(program: Seq<Instruction>) -> nat
    decreases program.len(),
{
    if program.len() == 0 {
        0
    } else {
        let m = max_line(program.drop_last());
        if program.last().line_num > m {
            program.last().line_num as nat
        } else {
            m
        }
    }
}

/// Some instruction of line `line` has a breakpoint.
pub open spec fn line_has_breakpoint(program: Seq<Instruction>, line: int) -> bool {
    exists|i: int| 0 <= i < program.len() && program[i].line_num == line && program[i].breakpoint
}

/// An RV64I machine: the source text and its program, 32 registers, the
/// PC, memory, diagnostics and the run state.
#[allow(non_camel_case_types)]
pub struct RiscV64_i {
    catalog: Vec<InstructionSource>,
    code: String,
    instructions: Vec<Instruction>,
    registers: [Register; 32],
    initial: [Register; 32],
    memory: [u8; MEMORY_SIZE],
    pc: PC,
    errors: Vec<String>,
    warnings: Vec<String>,
    /// `None` runs as fast as possible; `Some(hz)` paces the host.
    frequency: Option<u32>,
    running: bool,
}

impl View for RiscV64_i {
    type V = MachineView;

    closed spec fn view(&self) -> MachineView {
        MachineView {
            catalog: self.catalog@,
            code: self.code@,
            program: self.instructions@,
            regs: self.registers@,
            initial: self.initial@,
            mem: self.memory@,
            pc: self.pc@,
            errors: texts(self.errors@),
            warnings: texts(self.warnings@),
            frequency: self.frequency,
            running: self.running,
        }
    }
}

/// Register values given as text, one for each of `x1` up.
pub open spec fn initial_values_ok(v: Seq<Seq<char>>) -> bool {
    v.len() <= 31 && forall|i: int| 0 <= i < v.len() ==> (#[trigger] unsigned_value(v[i])) is Some
}

/// The register file those texts give: `x0` and registers without a text
/// are zero.
pub open spec fn initial_file(v: Seq<Seq<char>>) -> Seq<Register> {
    Seq::new(
        32,
        |i: int|
            if 1 <= i <= v.len() {
                Register { value: unsigned_value(v[i - 1])->0 }
            } else {
                Register { value: 0 }
            },
    )
}

/// A machine as `create` leaves it for these register texts: the RV64I
/// catalog, no text, program or diagnostics, the registers set, zeroed
/// memory, PC 0, stopped, single-step pacing.
pub open spec fn fresh(v: MachineView, initial_registers: Seq<Seq<char>>) -> bool {
    &&& v.wf()
    &&& v.regs == initial_file(initial_registers)
    &&& v.initial == initial_file(initial_registers)
    &&& v.code.len() == 0
    &&& v.program.len() == 0
    &&& v.errors.len() == 0
    &&& v.warnings.len() == 0
    &&& v.pc == 0
    &&& !v.running
    &&& v.frequency == Some(0u32)
    &&& forall|i: int| 0 <= i < MEMORY_SIZE ==> v.mem[i] == 0
}

/// Reads initial register values; `None` if there are more than 31 or
/// one is not an unsigned literal.
pub fn initial_registers(v: &Vec<String>) -> (r: Option<[Register; 32]>)
    ensures
        r is Some <==> initial_values_ok(texts(v@)),
        r matches Some(f) ==> f@ == initial_file(texts(v@)),
{
    if v.len() > 31 {
        return None;
    }
    let mut f: [Register; 32] = [Register { value: 0 }; 32];
    let mut i: usize = 0;
    while i < v.len()
        invariant
            v@.len() <= 31,
            i <= v@.len(),
            f@.len() == 32,
            forall|j: int| 0 <= j < i ==> (#[trigger] unsigned_value(texts(v@)[j])) is Some,
            forall|j: int|
                0 <= j < 32 ==> #[trigger] f@[j] == if 1 <= j <= i {
                    initial_file(texts(v@))[j]
                } else {
                    Register { value: 0 }
                },
        decreases v.len() - i,
    {
        assert(texts(v@)[i as int] == v@[i as int]@);
        match parse_unsigned(v[i].as_str()) {
            Some(x) => {
                f[i + 1] = Register { value: x };
            },
            None => {
                assert(!(unsigned_value(texts(v@)[i as int]) is Some));
                return None;
            },
        }
        i = i + 1;
    }
    assert(f@ == initial_file(texts(v@)));
    Some(f)
}

impl RiscV64_i {
    /// A machine with no code, the given register file (`x0` forced to
    /// zero), zeroed memory, PC 0, not running, single-step pacing.
    pub fn with_registers(initial: [Register; 32]) -> (r: Self)
        ensures
            r@.wf(),
            r@.regs == initial@.update(0, Register { value: 0 }),
            r@.initial == initial@,
            r@.code.len() == 0,
            r@.program.len() == 0,
            r@.errors.len() == 0,
            r@.warnings.len() == 0,
            r@.pc == 0,
            !r@.running,
            r@.frequency == Some(0u32),
            forall|i: int| 0 <= i < MEMORY_SIZE ==> r@.mem[i] == 0,
    {
        let mut registers = initial;
        registers[0] = Register { value: 0 };
        let r = RiscV64_i {
            catalog: instructions(),
            code: String::new(),
            instructions: Vec::new(),
            registers,
            initial,
            memory: [0u8; MEMORY_SIZE],
            pc: PC::new(),
            errors: Vec::new(),
            warnings: Vec::new(),
            frequency: Some(0),
            running: false,
        };
        assert(texts(r.errors@) == Seq::<Seq<char>>::empty());
        assert(texts(r.warnings@) == Seq::<Seq<char>>::empty());
        r
    }

    /// A machine whose registers `x1` up take the given values, read as
    /// decimal, `0x` or `0b` literals.
    pub fn create(initial_registers: Vec<String>) -> (r: Self)
        requires
            initial_values_ok(texts(initial_registers@)),
        ensures
            fresh(r@, texts(initial_registers@)),
    {
        let f = self::initial_registers(&initial_registers).unwrap();
        let r = Self::with_registers(f);
        assert(f@[0] == Register { value: 0 });
        assert(r@.regs == initial_file(texts(initial_registers@)));
        r
    }

    /// `create` for any texts: `None` when one is not an unsigned literal
    /// or there are more than 31.
    pub fn try_create(initial_registers: Vec<String>) -> (r: Option<Self>)
        ensures
            r is Some <==> initial_values_ok(texts(initial_registers@)),
            r matches Some(m) ==> fresh(m@, texts(initial_registers@)),
    {
        match self::initial_registers(&initial_registers) {
            Some(_) => Some(Self::create(initial_registers)),
            None => None,
        }
    }
}

/// The diagnostic `invalid_line_text`.
fn invalid_line_message(n: u32, text: &[char]) -> (r: String)
    ensures
        r@ == invalid_line_text(n as nat, text@),
{
    let mut digits: Vec<char> = Vec::new();
    push_decimal(n as u64, &mut digits);
    assert(digits@ == decimal(n as nat));
    let mut r = String::from_str("Invalid instruction on line ");
    let d = string_from_chars(digits.as_slice());
    r.append(d.as_str());
    r.append(": ");
    let t = string_from_chars(text);
    r.append(t.as_str());
    r
}

/// The diagnostic `fault_text`.
fn fault_message(n: u32) -> (r: String)
    ensures
        r@ == fault_text(n as nat),
{
    let mut digits: Vec<char> = Vec::new();
    push_decimal(n as u64, &mut digits);
    assert(digits@ == decimal(n as nat));
    let mut r = String::from_str("Memory access out of bounds on line ");
    let d = string_from_chars(digits.as_slice());
    r.append(d.as_str());
    r
}

/// Rendering of a byte as a character: printable ASCII as itself, anything
/// else as a dot.
pub open spec fn ascii_char(b: u8) -> char {
    if 32 <= b <= 126 {
        (b as u32) as char
    } else {
        '.'
    }
}

impl RiscV64_i {
    /// Rebuilds the program and the diagnostics from the held text.
    pub fn parse(&mut self)
        requires
            old(self)@.wf(),
        ensures
            final(self)@ == (MachineView {
                program: parse_code(old(self)@.catalog, old(self)@.code).0,
                errors: parse_code(old(self)@.catalog, old(self)@.code).1,
                ..old(self)@
            }),
            final(self)@.wf(),
    {
        let ghost cat = self.catalog@;
        let ghost target = parse_code(cat, self.code@);
        let chars = chars_of(self.code.as_str());
        let ls = split_lines(chars.as_slice());
        let ghost lv = views(ls@);
        let mut prog: Vec<Instruction> = Vec::new();
        let mut errs: Vec<String> = Vec::new();
        let mut k: usize = 0;
        let mut stopped = false;
        proof {
            assert(lv.skip(0) == lv);
            assert(prog@ + target.0 == target.0);
            assert(texts(errs@) + target.1 == target.1);
        }
        while k < ls.len() && !stopped
            invariant
                cat == self.catalog@,
                lv == views(ls@),
                lv == lines(self.code@),
                target == parse_code(cat, self.code@),
                k <= ls@.len(),
                !stopped ==> prog@ + parse_from(cat, lv.skip(k as int), (k + 1) as nat).0 == target.0,
                !stopped ==> texts(errs@) + parse_from(cat, lv.skip(k as int), (k + 1) as nat).1 == target.1,
                stopped ==> prog@ == target.0 && texts(errs@) == target.1,
                forall|i: int|
                    0 <= i < prog@.len() ==> (#[trigger] prog@[i]).implementation.wf()
                        && prog@[i].line_num >= 1,
            decreases (ls.len() - k) * 2 + if stopped {
                0int
            } else {
                1int
            },
        {
            let ghost rest = lv.skip(k as int);
            let ghost old_prog = prog@;
            let ghost old_errs = texts(errs@);
            proof {
                assert(rest[0] == lv[k as int]);
                assert(rest.drop_first() == lv.skip(k + 1));
                assert(lv[k as int] == ls@[k as int]@);
            }
            if k >= 0xffff_ffff {
                proof {
                    assert(prog@ + Seq::<Instruction>::empty() == prog@);
                    assert(texts(errs@) + Seq::<Seq<char>>::empty() == texts(errs@));
                }
                stopped = true;
            } else {
                let n: u32 = (k + 1) as u32;
                let stripped = strip_comment(ls[k].as_slice());
                let text = trim(stripped.as_slice());
                let ghost lr = line_result(cat, lv[k as int], (k + 1) as nat);
                let ghost next = parse_from(cat, lv.skip(k + 1), (k + 2) as nat);
                proof {
                    assert(parse_from(cat, rest, (k + 1) as nat) == match lr {
                        LineResult::Blank => next,
                        LineResult::Unknown(e) => (next.0, seq![e] + next.1),
                        LineResult::Rejected(e) => (Seq::empty(), seq![e]),
                        LineResult::Decoded(i) => (seq![i] + next.0, next.1),
                    });
                }
                if text.len() == 0 {
                    assert(lr == LineResult::Blank);
                }
                if text.len() > 0 {
                    let word = first_word_of(text.as_slice());
                    match lookup(&self.catalog, word.as_slice()) {
                        None => {
                            let e = invalid_line_message(n, text.as_slice());
                            errs.push(e);
                            proof {
                                assert(lr == LineResult::Unknown(e@));
                                assert(texts(errs@) == old_errs.push(e@));
                                assert(old_errs.push(e@) + parse_from(cat, lv.skip(k + 1), (k + 2) as nat).1
                                    == old_errs + (seq![e@] + parse_from(cat, lv.skip(k + 1), (k + 2) as nat).1));
                            }
                        },
                        Some(i) => {
                            assert(lookup_spec(cat, first_word(text@)) == Some(i as int));
                            let src = self.catalog[i];
                            let line = string_from_chars(text.as_slice());
                            match src.parse(line.as_str()) {
                                Err(e) => {
                                    errs.push(e);
                                    proof {
                                        assert(src == cat[i as int]);
                                        assert(line@ == text@);
                                        assert(match_syntax(tokens(text@), tokens(src.syntax@)) is None);
                                        assert(lr == LineResult::Rejected(e@));
                                        assert(texts(errs@) == old_errs.push(e@));
                                        assert(old_prog + Seq::<Instruction>::empty() == old_prog);
                                    }
                                    stopped = true;
                                },
                                Ok(args) => {
                                    match materialize(src.opcode, &args) {
                                        None => {
                                            let e = src.format_error(tokenise(line.as_str()));
                                            errs.push(e);
                                            proof {
                                                assert(src == cat[i as int]);
                                                assert(line@ == text@);
                                                assert(match_syntax(tokens(text@), tokens(src.syntax@)) == Some(arg_values(args@)));
                                                assert(lr == LineResult::Rejected(e@));
                                                assert(texts(errs@) == old_errs.push(e@));
                                                assert(old_prog + Seq::<Instruction>::empty()
                                                    == old_prog);
                                            }
                                            stopped = true;
                                        },
                                        Some(sem) => {
                                            let inst = Instruction {
                                                source: src,
                                                line_num: n,
                                                breakpoint: false,
                                                implementation: sem,
                                            };
                                            prog.push(inst);
                                            proof {
                                                assert(src == cat[i as int]);
                                                assert(lr == LineResult::Decoded(inst));
                                                assert(prog@ == old_prog.push(inst));
                                                assert(old_prog.push(inst) + parse_from(
                                                    cat,
                                                    lv.skip(k + 1),
                                                    (k + 2) as nat,
                                                ).0 == old_prog + (seq![inst] + parse_from(
                                                    cat,
                                                    lv.skip(k + 1),
                                                    (k + 2) as nat,
                                                ).0));
                                            }
                                        },
                                    }
                                },
                            }
                        },
                    }
                }
                k = k + 1;
            }
        }
        proof {
            if !stopped {
                assert(lv.skip(k as int) == Seq::<Seq<char>>::empty());
                assert(prog@ + Seq::<Instruction>::empty() == prog@);
                assert(texts(errs@) + Seq::<Seq<char>>::empty() == texts(errs@));
            }
        }
        self.instructions = prog;
        self.errors = errs;
    }

    /// Takes a new source text; when it differs from the held one, the
    /// program and the diagnostics are rebuilt from it.
    pub fn set_code(&mut self, code: String)
        requires
            old(self)@.wf(),
        ensures
            final(self)@ == set_code_view(old(self)@, code@),
            final(self)@.wf(),
    {
        if code != self.code {
            self.code = code;
            self.parse();
        }
    }

    /// Executes the instruction at the PC, if the machine runs: past the
    /// end of the program it stops instead, and in front of an access
    /// outside memory it stops with a diagnostic. The PC moves on by 4
    /// unless the instruction jumped, and `x0` is zero again afterwards.
    pub fn step(&mut self)
        requires
            old(self)@.wf(),
        ensures
            final(self)@ == step_view(old(self)@),
            final(self)@.wf(),
            final(self)@.regs[0].value == 0,
            ({
                let v = old(self)@;
                (v.running && !v.at_end() && accessible(v.program[v.index()].implementation, v.regs)
                    && !effect(v.program[v.index()].implementation, v.regs, v.pc, v.mem).jumped)
                    ==> final(self)@.pc == v.pc.wrapping_add(4)
            }),
    {
        if !self.running {
            return;
        }
        let idx = self.pc.get().value / 4;
        if idx >= self.instructions.len() as u64 {
            self.running = false;
            return;
        }
        let inst = self.instructions[idx as usize];
        if !can_execute(&inst.implementation, &self.registers) {
            self.running = false;
            let e = fault_message(inst.line_num);
            let ghost old_errs = texts(self.errors@);
            self.errors.push(e);
            assert(texts(self.errors@) == old_errs.push(e@));
            return;
        }
        self.pc.changed = false;
        execute(&inst.implementation, &mut self.registers, &mut self.pc, &mut self.memory);
        if !self.pc.changed {
            self.pc.inc(Register { value: 4 });
        }
        self.registers[0] = Register { value: 0 };
    }

    /// Runs until the machine stops: at the end of the program, in front of
    /// a breakpoint or a faulting access, or after `RUN_LIMIT` steps.
    pub fn run(&mut self)
        requires
            old(self)@.wf(),
        ensures
            final(self)@ == run_view(old(self)@),
            final(self)@.wf(),
    {
        self.running = true;
        let ghost target = run_view(old(self)@);
        let mut fuel: u64 = RUN_LIMIT;
        while self.running && fuel > 0
            invariant
                self@.wf(),
                run_from(self@, fuel as nat) == target,
            decreases fuel * 2 + if self.running {
                1int
            } else {
                0int
            },
        {
            let idx = self.pc.get().value / 4;
            if idx < self.instructions.len() as u64 && self.instructions[idx as usize].breakpoint {
                self.running = false;
            } else {
                self.step();
                fuel = fuel - 1;
            }
        }
    }

    /// Stops the machine between steps.
    pub fn stop(&mut self)
        ensures
            final(self)@ == (MachineView { running: false, ..old(self)@ }),
    {
        self.running = false;
    }

    /// Flips the breakpoint of every instruction of 1-based line
    /// `line_num`.
    pub fn toggle_breakpoint(&mut self, line_num: u32)
        requires
            old(self)@.wf(),
        ensures
            final(self)@ == (MachineView {
                program: toggled(old(self)@.program, line_num),
                ..old(self)@
            }),
            final(self)@.wf(),
    {
        let ghost start = self.instructions@;
        let mut i: usize = 0;
        while i < self.instructions.len()
            invariant
                self@ == (MachineView { program: self@.program, ..old(self)@ }),
                self.instructions@.len() == start.len(),
                i <= start.len(),
                forall|j: int|
                    0 <= j < start.len() ==> #[trigger] self.instructions@[j] == if j < i {
                        toggled(start, line_num)[j]
                    } else {
                        start[j]
                    },
            decreases start.len() - i,
        {
            let inst = self.instructions[i];
            if inst.line_num == line_num {
                let flipped = Instruction { breakpoint: !inst.breakpoint, ..inst };
                self.instructions.set(i, flipped);
            }
            i = i + 1;
        }
        assert(self.instructions@ == toggled(start, line_num));
    }

    /// For each source line from 1 to the last one holding an instruction,
    /// whether an instruction of that line has a breakpoint.
    pub fn breakpoints(&self) -> (r: Vec<bool>)
        requires
            self@.wf(),
        ensures
            r@.len() == max_line(self@.program),
            forall|j: int|
                0 <= j < r@.len() ==> r@[j] == line_has_breakpoint(self@.program, j + 1),
    {
        let ghost prog = self.instructions@;
        let mut m: u32 = 0;
        let mut i: usize = 0;
        while i < self.instructions.len()
            invariant
                prog == self.instructions@,
                i <= prog.len(),
                m as nat == max_line(prog.take(i as int)),
                forall|j: int| 0 <= j < i ==> (#[trigger] prog[j]).line_num <= m,
            decreases prog.len() - i,
        {
            assert(prog.take(i + 1).drop_last() == prog.take(i as int));
            if self.instructions[i].line_num > m {
                m = self.instructions[i].line_num;
            }
            i = i + 1;
        }
        assert(prog.take(prog.len() as int) == prog);
        let mut is_break: Vec<bool> = Vec::new();
        let mut c: u32 = 0;
        while c < m
            invariant
                c <= m,
                is_break@.len() == c,
                forall|j: int| 0 <= j < c ==> !is_break@[j],
            decreases m - c,
        {
            is_break.push(false);
            c = c + 1;
        }
        let mut i: usize = 0;
        while i < self.instructions.len()
            invariant
                self@.wf(),
                prog == self.instructions@,
                prog == self@.program,
                i <= prog.len(),
                is_break@.len() == m,
                forall|j: int| 0 <= j < prog.len() ==> (#[trigger] prog[j]).line_num <= m,
                forall|j: int|
                    0 <= j < m ==> #[trigger] is_break@[j] == exists|q: int|
                        0 <= q < i && prog[q].line_num == j + 1 && prog[q].breakpoint,
            decreases prog.len() - i,
        {
            let inst = self.instructions[i];
            let ghost before = is_break@;
            assert(inst.line_num >= 1);
            if inst.breakpoint {
                is_break.set((inst.line_num - 1) as usize, true);
            }
            assert forall|j: int| 0 <= j < m implies #[trigger] is_break@[j] == exists|q: int|
                0 <= q < i + 1 && prog[q].line_num == j + 1 && prog[q].breakpoint by {
                if prog[i as int].line_num == j + 1 && prog[i as int].breakpoint {
                    assert(0 <= i < i + 1 && prog[i as int].line_num == j + 1);
                } else {
                    assert(is_break@[j] == before[j]);
                    if exists|q: int| 0 <= q < i + 1 && prog[q].line_num == j + 1 && prog[q].breakpoint {
                        let q = choose|q: int| 0 <= q < i + 1 && prog[q].line_num == j + 1 && prog[q].breakpoint;
                        assert(q < i);
                    }
                }
            }
            i = i + 1;
        }
        is_break
    }

    /// The 0-based source line of the instruction at the PC, or 0 past the
    /// end of the program.
    pub fn next_inst_line_num(&self) -> (r: u32)
        requires
            self@.wf(),
        ensures
            r == if self@.at_end() {
                0
            } else {
                (self@.program[self@.index()].line_num - 1) as u32
            },
    {
        let idx = self.pc.get().value / 4;
        if idx < self.instructions.len() as u64 {
            self.instructions[idx as usize].line_num - 1
        } else {
            0
        }
    }

    /// Each register as decimal, as `0x` and 16 upper-case hexadecimal
    /// digits, and as `0b` and 64 binary digits.
    pub fn registers_repr(&self) -> (r: Vec<(String, String, String)>)
        ensures
            r@.len() == 32,
            forall|i: int|
                0 <= i < 32 ==> {
                    let v = self@.regs[i].value as nat;
                    &&& (#[trigger] r@[i]).0@ == decimal(v)
                    &&& r@[i].1@ == "0x"@ + fixed_digits(v, 16, 16, true)
                    &&& r@[i].2@ == "0b"@ + fixed_digits(v, 2, 64, false)
                },
    {
        let mut out: Vec<(String, String, String)> = Vec::new();
        let mut i: usize = 0;
        while i < 32
            invariant
                i <= 32,
                out@.len() == i,
                forall|k: int|
                    0 <= k < i ==> {
                        let v = self@.regs[k].value as nat;
                        &&& (#[trigger] out@[k]).0@ == decimal(v)
                        &&& out@[k].1@ == "0x"@ + fixed_digits(v, 16, 16, true)
                        &&& out@[k].2@ == "0b"@ + fixed_digits(v, 2, 64, false)
                    },
            decreases 32 - i,
        {
            let v = self.registers[i].value;
            let mut d: Vec<char> = Vec::new();
            push_decimal(v, &mut d);
            let mut h: Vec<char> = Vec::new();
            push_digits(v, 16, 16, true, &mut h);
            let mut b: Vec<char> = Vec::new();
            push_digits(v, 2, 64, false, &mut b);
            assert(d@ == decimal(v as nat));
            assert(h@ == fixed_digits(v as nat, 16, 16, true));
            assert(b@ == fixed_digits(v as nat, 2, 64, false));
            let dec = string_from_chars(d.as_slice());
            let mut hex = String::from_str("0x");
            let hs = string_from_chars(h.as_slice());
            hex.append(hs.as_str());
            let mut bin = String::from_str("0b");
            let bs = string_from_chars(b.as_slice());
            bin.append(bs.as_str());
            out.push((dec, hex, bin));
            i = i + 1;
        }
        out
    }

    /// Two lower-case hexadecimal digits for each byte of
    /// `start .. start + len`.
    pub fn memory_byte_repr(&self, start: usize, len: usize) -> (r: Vec<String>)
        requires
            start + len <= MEMORY_SIZE,
        ensures
            r@.len() == len,
            forall|i: int|
                0 <= i < len ==> (#[trigger] r@[i])@ == fixed_digits(
                    self@.mem[start + i] as nat,
                    16,
                    2,
                    false,
                ),
    {
        let mut out: Vec<String> = Vec::new();
        let mut i: usize = 0;
        while i < len
            invariant
                start + len <= MEMORY_SIZE,
                i <= len,
                out@.len() == i,
                forall|k: int|
                    0 <= k < i ==> (#[trigger] out@[k])@ == fixed_digits(
                        self@.mem[start + k] as nat,
                        16,
                        2,
                        false,
                    ),
            decreases len - i,
        {
            let mut h: Vec<char> = Vec::new();
            push_digits(self.memory[start + i] as u64, 16, 2, false, &mut h);
            assert(h@ == fixed_digits(self@.mem[start + i] as nat, 16, 2, false));
            out.push(string_from_chars(h.as_slice()));
            i = i + 1;
        }
        out
    }

    /// The bytes of `start .. start + len` as one string of characters,
    /// see `ascii_char`.
    pub fn memory_ascii_repr(&self, start: usize, len: usize) -> (r: Vec<String>)
        requires
            start + len <= MEMORY_SIZE,
        ensures
            r@.len() == 1,
            r@[0]@ == Seq::new(len as nat, |i: int| ascii_char(self@.mem[start + i])),
    {
        let mut cs: Vec<char> = Vec::new();
        let mut i: usize = 0;
        while i < len
            invariant
                start + len <= MEMORY_SIZE,
                i <= len,
                cs@ == Seq::new(i as nat, |k: int| ascii_char(self@.mem[start + k])),
            decreases len - i,
        {
            let b = self.memory[start + i];
            let c = if 32 <= b && b <= 126 {
                b as char
            } else {
                '.'
            };
            cs.push(c);
            i = i + 1;
            assert(cs@ == Seq::new(i as nat, |k: int| ascii_char(self@.mem[start + k])));
        }
        let mut out: Vec<String> = Vec::new();
        out.push(string_from_chars(cs.as_slice()));
        out
    }

    /// Puts registers, memory and the PC back as `create` left them and
    /// stops; the text, program and diagnostics stay.
    pub fn reset(&mut self)
        requires
            old(self)@.wf(),
        ensures
            final(self)@ == (MachineView {
                regs: old(self)@.initial.update(0, Register { value: 0 }),
                mem: Seq::new(MEMORY_SIZE as nat, |i: int| 0u8),
                pc: 0,
                running: false,
                ..old(self)@
            }),
            final(self)@.wf(),
    {
        let mut registers = self.initial;
        registers[0] = Register { value: 0 };
        self.registers = registers;
        self.memory = [0u8; MEMORY_SIZE];
        self.pc = PC::new();
        self.running = false;
        assert(self.memory@ == Seq::new(MEMORY_SIZE as nat, |i: int| 0u8));
    }

    pub fn memory_size(&self) -> (r: u32)
        ensures
            r == MEMORY_SIZE,
    {
        MEMORY_SIZE as u32
    }

    pub fn running(&self) -> (r: bool)
        ensures
            r == self@.running,
    {
        self.running
    }

    pub fn set_running(&mut self, running: bool)
        ensures
            final(self)@ == (MachineView { running, ..old(self)@ }),
    {
        self.running = running;
    }

    pub fn errors(&self) -> (r: &Vec<String>)
        ensures
            texts(r@) == self@.errors,
    {
        &self.errors
    }

    pub fn warnings(&self) -> (r: &Vec<String>)
        ensures
            texts(r@) == self@.warnings,
    {
        &self.warnings
    }

    pub fn set_frequency(&mut self, frequency: Option<u32>)
        ensures
            final(self)@ == (MachineView { frequency, ..old(self)@ }),
    {
        self.frequency = frequency;
    }

    pub fn get_frequency(&self) -> (r: Option<u32>)
        ensures
            r == self@.frequency,
    {
        self.frequency
    }

    /// The value of register `index`.
    pub fn register(&self, index: usize) -> (r: u64)
        requires
            index < 32,
        ensures
            r == self@.regs[index as int].value,
    {
        self.registers[index].value
    }

    pub fn pc(&self) -> (r: u64)
        ensures
            r == self@.pc,
    {
        self.pc.get().value
    }

    /// The byte at `address`.
    pub fn memory_byte(&self, address: usize) -> (r: u8)
        requires
            address < MEMORY_SIZE,
        ensures
            r == self@.mem[address as int],
    {
        self.memory[address]
    }
}

} // verus!
