use vstd::prelude::*;

pub mod rv64_i;

use crate::build_common::texts;
use crate::text::{decimal, fixed_digits};
use crate::rv64_i::MEMORY_SIZE;
use self::rv64_i::{
    ascii_char, fresh, initial_values_ok, line_has_breakpoint, max_line, run_view, set_code_view,
    step_view, toggled, MachineView, RiscV64_i,
};

verus! {

/// The operations a host drives an interpreter through, whatever the
/// architecture. Each is stated over `model`, the machine as values.
pub trait InterpreterTrait: Sized {
    /// The machine as mathematical values.
    spec fn model(&self) -> MachineView;

    fn create(initial_registers: Vec<String>) -> (r: Self)
        requires
            initial_values_ok(texts(initial_registers@)),
        ensures
            fresh(r.model(), texts(initial_registers@)),
    ;

    fn memory_size(&self) -> (r: u32)
        ensures
            r == MEMORY_SIZE,
    ;

    fn set_code(&mut self, code: String)
        requires
            old(self).model().wf(),
        ensures
            final(self).model() == set_code_view(old(self).model(), code@),
            final(self).model().wf(),
    ;

    fn running(&self) -> (r: bool)
        ensures
            r == self.model().running,
    ;

    fn set_running(&mut self, running: bool)
        ensures
            final(self).model() == (MachineView { running, ..old(self).model() }),
    ;

    fn errors(&self) -> (r: &Vec<String>)
        ensures
            texts(r@) == self.model().errors,
    ;

    fn warnings(&self) -> (r: &Vec<String>)
        ensures
            texts(r@) == self.model().warnings,
    ;

    fn registers_repr(&self) -> (r: Vec<(String, String, String)>)
        ensures
            r@.len() == 32,
            forall|i: int|
                0 <= i < 32 ==> {
                    let v = self.model().regs[i].value as nat;
                    &&& (#[trigger] r@[i]).0@ == decimal(v)
                    &&& r@[i].1@ == "0x"@ + fixed_digits(v, 16, 16, true)
                    &&& r@[i].2@ == "0b"@ + fixed_digits(v, 2, 64, false)
                },
    ;

    fn memory_byte_repr(&self, start: usize, len: usize) -> (r: Vec<String>)
        requires
            start + len <= MEMORY_SIZE,
        ensures
            r@.len() == len,
            forall|i: int|
                0 <= i < len ==> (#[trigger] r@[i])@ == fixed_digits(
                    self.model().mem[start + i] as nat,
                    16,
                    2,
                    false,
                ),
    ;

    fn memory_ascii_repr(&self, start: usize, len: usize) -> (r: Vec<String>)
        requires
            start + len <= MEMORY_SIZE,
        ensures
            r@.len() == 1,
            r@[0]@ == Seq::new(len as nat, |i: int| ascii_char(self.model().mem[start + i])),
    ;

    fn toggle_breakpoint(&mut self, line_num: u32)
        requires
            old(self).model().wf(),
        ensures
            final(self).model() == (MachineView {
                program: toggled(old(self).model().program, line_num),
                ..old(self).model()
            }),
            final(self).model().wf(),
    ;

    fn breakpoints(&self) -> (r: Vec<bool>)
        requires
            self.model().wf(),
        ensures
            r@.len() == max_line(self.model().program),
            forall|j: int|
                0 <= j < r@.len() ==> r@[j] == line_has_breakpoint(self.model().program, j + 1),
    ;

    fn set_frequency(&mut self, frequency: Option<u32>)
        ensures
            final(self).model() == (MachineView { frequency, ..old(self).model() }),
    ;

    fn get_frequency(&self) -> (r: Option<u32>)
        ensures
            r == self.model().frequency,
    ;

    fn next_inst_line_num(&self) -> (r: u32)
        requires
            self.model().wf(),
        ensures
            r == if self.model().at_end() {
                0
            } else {
                (self.model().program[self.model().index()].line_num - 1) as u32
            },
    ;

    fn run(&mut self)
        requires
            old(self).model().wf(),
        ensures
            final(self).model() == run_view(old(self).model()),
            final(self).model().wf(),
    ;

    fn step(&mut self)
        requires
            old(self).model().wf(),
        ensures
            final(self).model() == step_view(old(self).model()),
            final(self).model().wf(),
    ;

    fn stop(&mut self)
        ensures
            final(self).model() == (MachineView { running: false, ..old(self).model() }),
    ;
}

impl InterpreterTrait for RiscV64_i {
    open spec fn model(&self) -> MachineView {
        self@
    }

    fn create(initial_registers: Vec<String>) -> (r: Self) {
        RiscV64_i::create(initial_registers)
    }

    fn memory_size(&self) -> u32 {
        RiscV64_i::memory_size(self)
    }

    fn set_code(&mut self, code: String) {
        RiscV64_i::set_code(self, code)
    }

    fn running(&self) -> bool {
        RiscV64_i::running(self)
    }

    fn set_running(&mut self, running: bool) {
        RiscV64_i::set_running(self, running)
    }

    fn errors(&self) -> &Vec<String> {
        RiscV64_i::errors(self)
    }

    fn warnings(&self) -> &Vec<String> {
        RiscV64_i::warnings(self)
    }

    fn registers_repr(&self) -> Vec<(String, String, String)> {
        RiscV64_i::registers_repr(self)
    }

    fn memory_byte_repr(&self, start: usize, len: usize) -> Vec<String> {
        RiscV64_i::memory_byte_repr(self, start, len)
    }

    fn memory_ascii_repr(&self, start: usize, len: usize) -> Vec<String> {
        RiscV64_i::memory_ascii_repr(self, start, len)
    }

    fn toggle_breakpoint(&mut self, line_num: u32) {
        RiscV64_i::toggle_breakpoint(self, line_num)
    }

    fn breakpoints(&self) -> Vec<bool> {
        RiscV64_i::breakpoints(self)
    }

    fn set_frequency(&mut self, frequency: Option<u32>) {
        RiscV64_i::set_frequency(self, frequency)
    }

    fn get_frequency(&self) -> Option<u32> {
        RiscV64_i::get_frequency(self)
    }

    fn next_inst_line_num(&self) -> u32 {
        RiscV64_i::next_inst_line_num(self)
    }

    fn run(&mut self) {
        RiscV64_i::run(self)
    }

    fn step(&mut self) {
        RiscV64_i::step(self)
    }

    fn stop(&mut self) {
        RiscV64_i::stop(self)
    }
}

/// The machines an interpreter can hold.
#[allow(non_camel_case_types)]
pub enum Architecture {
    RiscV64_i(RiscV64_i),
}

/// An interpreter for one of the supported architectures; each operation
/// goes to the machine it holds.
pub struct Interpreter {
    architecture: Architecture,
}

impl View for Interpreter {
    type V = MachineView;

    closed spec fn view(&self) -> MachineView {
        match self.architecture {
            Architecture::RiscV64_i(m) => m@,
        }
    }
}

impl Interpreter {
    /// An RV64I interpreter; see `RiscV64_i::create`.
    #[allow(non_snake_case)]
    pub fn create_RiscV64_i(initial_registers: Vec<String>) -> (r: Self)
        requires
            initial_values_ok(texts(initial_registers@)),
        ensures
            fresh(r@, texts(initial_registers@)),
    {
        Interpreter { architecture: Architecture::RiscV64_i(RiscV64_i::create(initial_registers)) }
    }

    /// `create_RiscV64_i` for any texts: `None` when one is not an
    /// unsigned literal or there are more than 31.
    #[allow(non_snake_case)]
    pub fn try_create_RiscV64_i(initial_registers: Vec<String>) -> (r: Option<Self>)
        ensures
            r is Some <==> initial_values_ok(texts(initial_registers@)),
            r matches Some(m) ==> fresh(m@, texts(initial_registers@)),
    {
        match rv64_i::initial_registers(&initial_registers) {
            Some(_) => Some(Self::create_RiscV64_i(initial_registers)),
            None => None,
        }
    }

    /// Rebuilds the program and the diagnostics from the held text.
    pub fn parse(&mut self)
        requires
            old(self)@.wf(),
        ensures
            final(self)@ == (MachineView {
                program: rv64_i::parse_code(old(self)@.catalog, old(self)@.code).0,
                errors: rv64_i::parse_code(old(self)@.catalog, old(self)@.code).1,
                ..old(self)@
            }),
            final(self)@.wf(),
    {
        match &mut self.architecture {
            Architecture::RiscV64_i(m) => m.parse(),
        }
    }

    /// Takes a new source text; see `RiscV64_i::set_code`.
    pub fn set_code(&mut self, code: String)
        requires
            old(self)@.wf(),
        ensures
            final(self)@ == set_code_view(old(self)@, code@),
            final(self)@.wf(),
    {
        match &mut self.architecture {
            Architecture::RiscV64_i(m) => m.set_code(code),
        }
    }

    /// Executes one instruction; see `RiscV64_i::step`.
    pub fn step(&mut self)
        requires
            old(self)@.wf(),
        ensures
            final(self)@ == step_view(old(self)@),
            final(self)@.wf(),
    {
        match &mut self.architecture {
            Architecture::RiscV64_i(m) => m.step(),
        }
    }

    /// Runs until the machine stops; see `RiscV64_i::run`.
    pub fn run(&mut self)
        requires
            old(self)@.wf(),
        ensures
            final(self)@ == run_view(old(self)@),
            final(self)@.wf(),
    {
        match &mut self.architecture {
            Architecture::RiscV64_i(m) => m.run(),
        }
    }

    /// Stops the machine between steps.
    pub fn stop(&mut self)
        ensures
            final(self)@ == (MachineView { running: false, ..old(self)@ }),
    {
        match &mut self.architecture {
            Architecture::RiscV64_i(m) => m.stop(),
        }
    }

    /// Puts registers, memory and the PC back; see `RiscV64_i::reset`.
    pub fn reset(&mut self)
        requires
            old(self)@.wf(),
        ensures
            final(self)@ == (MachineView {
                regs: old(self)@.initial.update(0, crate::instruction::Register { value: 0 }),
                mem: Seq::new(MEMORY_SIZE as nat, |i: int| 0u8),
                pc: 0,
                running: false,
                ..old(self)@
            }),
            final(self)@.wf(),
    {
        match &mut self.architecture {
            Architecture::RiscV64_i(m) => m.reset(),
        }
    }

    /// Flips the breakpoints of a 1-based source line.
    pub fn toggle_breakpoint(&mut self, line_num: u32)
        requires
            old(self)@.wf(),
        ensures
            final(self)@ == (MachineView { program: toggled(old(self)@.program, line_num), ..old(self)@ }),
            final(self)@.wf(),
    {
        match &mut self.architecture {
            Architecture::RiscV64_i(m) => m.toggle_breakpoint(line_num),
        }
    }

    /// Whether each source line has a breakpoint; see `RiscV64_i::breakpoints`.
    pub fn breakpoints(&self) -> (r: Vec<bool>)
        requires
            self@.wf(),
        ensures
            r@.len() == max_line(self@.program),
            forall|j: int| 0 <= j < r@.len() ==> r@[j] == line_has_breakpoint(self@.program, j + 1),
    {
        match &self.architecture {
            Architecture::RiscV64_i(m) => m.breakpoints(),
        }
    }

    /// The 0-based source line of the instruction at the PC.
    pub fn next_inst_line_num(&self) -> (r: u32)
        requires
            self@.wf(),
        ensures
            r == if self@.at_end() {
                0
            } else {
                (self@.program[self@.index()].line_num - 1) as u32
            },
    {
        match &self.architecture {
            Architecture::RiscV64_i(m) => m.next_inst_line_num(),
        }
    }

    pub fn running(&self) -> (r: bool)
        ensures
            r == self@.running,
    {
        match &self.architecture {
            Architecture::RiscV64_i(m) => m.running(),
        }
    }

    pub fn set_running(&mut self, running: bool)
        ensures
            final(self)@ == (MachineView { running, ..old(self)@ }),
    {
        match &mut self.architecture {
            Architecture::RiscV64_i(m) => m.set_running(running),
        }
    }

    pub fn set_frequency(&mut self, frequency: Option<u32>)
        ensures
            final(self)@ == (MachineView { frequency, ..old(self)@ }),
    {
        match &mut self.architecture {
            Architecture::RiscV64_i(m) => m.set_frequency(frequency),
        }
    }

    pub fn get_frequency(&self) -> (r: Option<u32>)
        ensures
            r == self@.frequency,
    {
        match &self.architecture {
            Architecture::RiscV64_i(m) => m.get_frequency(),
        }
    }

    pub fn errors(&self) -> (r: &Vec<String>)
        ensures
            texts(r@) == self@.errors,
    {
        match &self.architecture {
            Architecture::RiscV64_i(m) => m.errors(),
        }
    }

    pub fn warnings(&self) -> (r: &Vec<String>)
        ensures
            texts(r@) == self@.warnings,
    {
        match &self.architecture {
            Architecture::RiscV64_i(m) => m.warnings(),
        }
    }

    pub fn memory_size(&self) -> (r: u32)
        ensures
            r == MEMORY_SIZE,
    {
        match &self.architecture {
            Architecture::RiscV64_i(m) => m.memory_size(),
        }
    }

    /// Decimal, hexadecimal and binary renderings of each register.
    pub fn registers_repr(&self) -> (r: Vec<(String, String, String)>)
        ensures
            r@.len() == 32,
            forall|i: int|
                0 <= i < 32 ==> {
                    let v = self@.regs[i].value as nat;
                    &&& (#[trigger] r@[i]).0@ == decimal(v)
                    &&& r@[i].1@ == "0x"@ + fixed_digits(v, 16, 16, true)
                    &&& r@[i].2@ == "0b"@ + fixed_digits(v, 2, 64, false)
                },
    {
        match &self.architecture {
            Architecture::RiscV64_i(m) => m.registers_repr(),
        }
    }

    /// Two hexadecimal digits for each byte of a memory range.
    pub fn memory_byte_repr(&self, start: usize, len: usize) -> (r: Vec<String>)
        requires
            start + len <= MEMORY_SIZE,
        ensures
            r@.len() == len,
            forall|i: int|
                0 <= i < len ==> (#[trigger] r@[i])@ == fixed_digits(
                    self@.mem[start + i] as nat,
                    16,
                    2,
                    false,
                ),
    {
        match &self.architecture {
            Architecture::RiscV64_i(m) => m.memory_byte_repr(start, len),
        }
    }

    /// A memory range as printable characters.
    pub fn memory_ascii_repr(&self, start: usize, len: usize) -> (r: Vec<String>)
        requires
            start + len <= MEMORY_SIZE,
        ensures
            r@.len() == 1,
            r@[0]@ == Seq::new(len as nat, |i: int| ascii_char(self@.mem[start + i])),
    {
        match &self.architecture {
            Architecture::RiscV64_i(m) => m.memory_ascii_repr(start, len),
        }
    }

    /// The value of register `index`.
    pub fn register(&self, index: usize) -> (r: u64)
        requires
            index < 32,
        ensures
            r == self@.regs[index as int].value,
    {
        match &self.architecture {
            Architecture::RiscV64_i(m) => m.register(index),
        }
    }

    pub fn pc(&self) -> (r: u64)
        ensures
            r == self@.pc,
    {
        match &self.architecture {
            Architecture::RiscV64_i(m) => m.pc(),
        }
    }

    /// The byte at `address`.
    pub fn memory_byte(&self, address: usize) -> (r: u8)
        requires
            address < MEMORY_SIZE,
        ensures
            r == self@.mem[address as int],
    {
        match &self.architecture {
            Architecture::RiscV64_i(m) => m.memory_byte(address),
        }
    }
}

} // verus!
