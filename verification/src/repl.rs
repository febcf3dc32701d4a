//! The command shell's decisions: what a line asks for, what it does to the
//! machine and what there is to show for it.
//!
//! Nothing here reads or prints. A line is handed in as text and what it
//! brought about is handed back as an `Output`.

use crate::assembler::instruction_parser::{
    spec_to_bytes, strings_view, AssemblerInstruction, EncodeError,
};
use crate::assembler::scan::{alphabetic_flags, chars_of, is_word};
use crate::assembler::{spec_parse_instruction, Assembler};
use crate::hex::{parse_hex, spec_parse_hex};
use crate::vm::{lemma_step_keeps_program, spec_step, Status, VmState, REGISTERS, VM};
use vstd::prelude::*;

verus! {

/// The shell: a machine and the lines that were recorded.
pub struct Repl {
    /// The lines that `execute_hex_command` was given, in their order.
    pub commands: Vec<String>,
    /// The machine that the lines act on.
    pub vm: VM,
}

/// The shell as a mathematical value.
#[verifier::ext_equal]
pub struct ReplState {
    pub commands: Seq<Seq<char>>,
    pub vm: VmState,
}

impl View for Repl {
    type V = ReplState;

    open spec fn view(&self) -> ReplState {
        ReplState { commands: strings_view(self.commands@), vm: self.vm@ }
    }
}

/// What one line brought about.
#[derive(Debug, PartialEq, Eq)]
pub enum Output {
    /// `.program`: the bytes of the program.
    Program(Vec<u8>),
    /// `.commands`: the lines recorded so far.
    Commands(Vec<String>),
    /// `.registers`: the register file.
    Registers([i32; REGISTERS]),
    /// `.equal_flag`: the comparison flag.
    EqualFlag(bool),
    /// `.quit`: the shell is to end.
    Quit,
    /// A directive that the shell does not know: nothing happens.
    Nothing,
    /// Bytes were appended to the program and one step was made, which ended
    /// with the status.
    Executed(Vec<u8>, Status),
    /// The line holds no instruction: the machine is untouched.
    Rejected,
    /// The line holds an instruction without an encoding: the machine is
    /// untouched.
    Unencodable(EncodeError),
    /// The line does not write bytes in hexadecimal: nothing was appended,
    /// and one step was made, which ended with the status.
    HexRejected(Status),
}

/// An output as a mathematical value.
#[verifier::ext_equal]
pub enum OutputView {
    Program(Seq<u8>),
    Commands(Seq<Seq<char>>),
    Registers(Seq<i32>),
    EqualFlag(bool),
    Quit,
    Nothing,
    Executed(Seq<u8>, Status),
    Rejected,
    Unencodable(EncodeError),
    HexRejected(Status),
}

impl View for Output {
    type V = OutputView;

    open spec fn view(&self) -> OutputView {
        match self {
            Output::Program(bytes) => OutputView::Program(bytes@),
            Output::Commands(commands) => OutputView::Commands(strings_view(commands@)),
            Output::Registers(registers) => OutputView::Registers(registers@),
            Output::EqualFlag(flag) => OutputView::EqualFlag(*flag),
            Output::Quit => OutputView::Quit,
            Output::Nothing => OutputView::Nothing,
            Output::Executed(bytes, status) => OutputView::Executed(bytes@, *status),
            Output::Rejected => OutputView::Rejected,
            Output::Unencodable(e) => OutputView::Unencodable(*e),
            Output::HexRejected(status) => OutputView::HexRejected(*status),
        }
    }
}

/// The view of each output.
pub open spec fn outputs_view(outputs: Seq<Output>) -> Seq<OutputView> {
    Seq::new(outputs.len(), |k: int| outputs[k]@)
}

/// The characters of each line.
pub open spec fn lines_view(lines: Seq<&str>) -> Seq<Seq<char>> {
    Seq::new(lines.len(), |k: int| lines[k]@)
}

/// A line is a directive if it begins with a dot.
pub open spec fn spec_is_directive(command: Seq<char>) -> bool {
    command.len() > 0 && command[0] == '.'
}

/// What a directive shows of the shell. A line that is none of the five
/// directives shows nothing.
pub open spec fn spec_run_directive(state: ReplState, command: Seq<char>) -> OutputView {
    if command == ".program"@ {
        OutputView::Program(state.vm.program)
    } else if command == ".commands"@ {
        OutputView::Commands(state.commands)
    } else if command == ".registers"@ {
        OutputView::Registers(state.vm.registers)
    } else if command == ".equal_flag"@ {
        OutputView::EqualFlag(state.vm.equal_flag)
    } else if command == ".quit"@ {
        OutputView::Quit
    } else {
        OutputView::Nothing
    }
}

/// The machine with `bytes` behind its program.
pub open spec fn with_bytes(vm: VmState, bytes: Seq<u8>) -> VmState {
    VmState { program: vm.program + bytes, ..vm }
}

/// The shell after bytes were appended to the program and one step was made,
/// and the output that says so.
pub open spec fn spec_append_and_step(state: ReplState, bytes: Seq<u8>) -> (
    ReplState,
    OutputView,
) {
    (
        ReplState { vm: spec_step(with_bytes(state.vm, bytes)).0, ..state },
        OutputView::Executed(bytes, spec_step(with_bytes(state.vm, bytes)).1),
    )
}

/// One line of assembly: the instruction that the line holds is encoded,
/// appended to the program, and one step is made. A line without an
/// instruction, or with one that has no encoding, leaves the shell as it is.
pub open spec fn spec_execute_command(state: ReplState, command: Seq<char>) -> (
    ReplState,
    OutputView,
) {
    match spec_parse_instruction(command, alphabetic_flags(command)) {
        None => (state, OutputView::Rejected),
        Some(instruction) => match spec_to_bytes(instruction) {
            Err(e) => (state, OutputView::Unencodable(e)),
            Ok(bytes) => spec_append_and_step(state, bytes),
        },
    }
}

/// One line of a program of assembly: a directive or an instruction.
pub open spec fn spec_run_line(state: ReplState, command: Seq<char>) -> (ReplState, OutputView) {
    if spec_is_directive(command) {
        (state, spec_run_directive(state, command))
    } else {
        spec_execute_command(state, command)
    }
}

/// One line of bytes in hexadecimal, or a directive. The line is recorded.
/// Bytes are appended to the program; a step is made whether the line wrote
/// bytes or not.
pub open spec fn spec_execute_hex_command(state: ReplState, command: Seq<char>) -> (
    ReplState,
    OutputView,
) {
    let recorded = ReplState { commands: state.commands.push(command), ..state };
    if spec_is_directive(command) {
        (recorded, spec_run_directive(recorded, command))
    } else {
        match spec_parse_hex(command) {
            Some(bytes) => spec_append_and_step(recorded, bytes),
            None => (
                ReplState { vm: spec_step(recorded.vm).0, ..recorded },
                OutputView::HexRejected(spec_step(recorded.vm).1),
            ),
        }
    }
}

/// The lines of a program, one after the other, up to the first that asks to
/// quit: the shell after them and their outputs. `hex` says whether the lines
/// write bytes in hexadecimal or instructions in assembly.
pub open spec fn spec_run_lines(state: ReplState, lines: Seq<Seq<char>>, hex: bool) -> (
    ReplState,
    Seq<OutputView>,
)
    decreases lines.len(),
{
    if lines.len() == 0 {
        (state, Seq::empty())
    } else {
        let first = if hex {
            spec_execute_hex_command(state, lines[0])
        } else {
            spec_run_line(state, lines[0])
        };
        if first.1 is Quit {
            (first.0, seq![first.1])
        } else {
            (
                spec_run_lines(first.0, lines.drop_first(), hex).0,
                seq![first.1] + spec_run_lines(first.0, lines.drop_first(), hex).1,
            )
        }
    }
}

/// A copy of bytes.
fn copy_bytes(bytes: &Vec<u8>) -> (copy: Vec<u8>)
    ensures
        copy@ == bytes@,
{
    let mut copy: Vec<u8> = Vec::new();
    let mut k: usize = 0;
    while k < bytes.len()
        invariant
            k <= bytes.len(),
            copy@ == bytes@.take(k as int),
        decreases bytes.len() - k,
    {
        copy.push(bytes[k]);
        k += 1;
    }
    copy
}

/// A copy of strings.
fn copy_strings(strings: &Vec<String>) -> (copy: Vec<String>)
    ensures
        strings_view(copy@) == strings_view(strings@),
{
    let mut copy: Vec<String> = Vec::new();
    let mut k: usize = 0;
    while k < strings.len()
        invariant
            k <= strings.len(),
            copy@.len() == k,
            forall|j: int| 0 <= j < k ==> copy@[j]@ == strings@[j]@,
        decreases strings.len() - k,
    {
        copy.push(strings[k].clone());
        k += 1;
    }
    copy
}

impl Repl {
    /// A shell with a new machine and no line recorded.
    pub fn new() -> (repl: Repl)
        ensures
            repl@.commands == Seq::<Seq<char>>::empty(),
            repl@.vm.registers == Seq::new(REGISTERS as nat, |i: int| 0i32),
            repl@.vm.pc == 0,
            repl@.vm.program == Seq::<u8>::empty(),
            repl@.vm.remainder == 0,
            !repl@.vm.equal_flag,
    {
        Repl { vm: VM::new(), commands: Vec::new() }
    }

    /// Runs the lines of a program of assembly, one after the other, up to
    /// the first that asks to quit. The result holds what each line brought
    /// about.
    pub fn run_program(&mut self, program: Vec<&str>) -> (outputs: Vec<Output>)
        ensures
            (final(self)@, outputs_view(outputs@)) == spec_run_lines(
                old(self)@,
                lines_view(program@),
                false,
            ),
    {
        let ghost lines = lines_view(program@);
        let mut outputs: Vec<Output> = Vec::new();
        let mut k: usize = 0;
        assert(lines.skip(0) == lines);
        while k < program.len()
            invariant
                k <= program.len(),
                lines == lines_view(program@),
                spec_run_lines(old(self)@, lines, false).0 == spec_run_lines(
                    self@,
                    lines.skip(k as int),
                    false,
                ).0,
                spec_run_lines(old(self)@, lines, false).1 == outputs_view(outputs@)
                    + spec_run_lines(self@, lines.skip(k as int), false).1,
            decreases program.len() - k,
        {
            let command = program[k];
            assert(lines.skip(k as int)[0] == command@);
            assert(lines.skip(k as int).drop_first() == lines.skip(k + 1));
            let ghost before = outputs@;
            let output = if self.is_directive(command) {
                self.run_directive(command)
            } else {
                self.execute_command(command)
            };
            let quit = matches!(output, Output::Quit);
            outputs.push(output);
            assert(outputs_view(outputs@) == outputs_view(before) + seq![output@]);
            if quit {
                return outputs;
            }
            assert(outputs_view(before) + (seq![output@] + spec_run_lines(
                self@,
                lines.skip(k + 1),
                false,
            ).1) == outputs_view(outputs@) + spec_run_lines(self@, lines.skip(k + 1), false).1);
            k += 1;
        }
        outputs
    }

    /// Runs one line of assembly: the instruction that the line holds is
    /// encoded and appended to the program, and the machine makes one step.
    pub fn execute_command(&mut self, command: &str) -> (output: Output)
        ensures
            (final(self)@, output@) == spec_execute_command(old(self)@, command@),
    {
        match Assembler::parse_instruction(command) {
            Ok(instruction) => self.execute_instruction(&instruction),
            Err(_) => Output::Rejected,
        }
    }

    /// Appends the encoding of an instruction to the program and lets the
    /// machine make one step. An instruction without an encoding leaves the
    /// shell as it is.
    pub fn execute_instruction(&mut self, instruction: &AssemblerInstruction) -> (output: Output)
        ensures
            match spec_to_bytes(instruction@) {
                Err(e) => final(self)@ == old(self)@ && output@ == OutputView::Unencodable(e),
                Ok(bytes) => (final(self)@, output@) == spec_append_and_step(old(self)@, bytes),
            },
    {
        match instruction.to_bytes() {
            Ok(bytes_command) => self.append_and_step(bytes_command),
            Err(e) => Output::Unencodable(e),
        }
    }

    /// Appends bytes to the program and lets the machine make one step.
    fn append_and_step(&mut self, bytes: Vec<u8>) -> (output: Output)
        ensures
            (final(self)@, output@) == spec_append_and_step(old(self)@, bytes@),
    {
        let mut k: usize = 0;
        while k < bytes.len()
            invariant
                k <= bytes.len(),
                self@ == (ReplState {
                    vm: with_bytes(old(self)@.vm, bytes@.take(k as int)),
                    ..old(self)@
                }),
            decreases bytes.len() - k,
        {
            self.vm.add_byte(bytes[k]);
            k += 1;
            assert(bytes@.take(k as int) == bytes@.take(k - 1).push(bytes@[k - 1]));
        }
        assert(bytes@.take(k as int) == bytes@);
        let status = self.vm.execute_instruction();
        Output::Executed(bytes, status)
    }

    /// Runs the lines of a program of bytes in hexadecimal, one after the
    /// other, up to the first that asks to quit. The result holds what each
    /// line brought about.
    pub fn run_hex_program(&mut self, hex_program: Vec<&str>) -> (outputs: Vec<Output>)
        ensures
            (final(self)@, outputs_view(outputs@)) == spec_run_lines(
                old(self)@,
                lines_view(hex_program@),
                true,
            ),
    {
        let ghost lines = lines_view(hex_program@);
        let mut outputs: Vec<Output> = Vec::new();
        let mut k: usize = 0;
        assert(lines.skip(0) == lines);
        while k < hex_program.len()
            invariant
                k <= hex_program.len(),
                lines == lines_view(hex_program@),
                spec_run_lines(old(self)@, lines, true).0 == spec_run_lines(
                    self@,
                    lines.skip(k as int),
                    true,
                ).0,
                spec_run_lines(old(self)@, lines, true).1 == outputs_view(outputs@)
                    + spec_run_lines(self@, lines.skip(k as int), true).1,
            decreases hex_program.len() - k,
        {
            let command = hex_program[k];
            assert(lines.skip(k as int)[0] == command@);
            assert(lines.skip(k as int).drop_first() == lines.skip(k + 1));
            let ghost before = outputs@;
            let output = self.execute_hex_command(command);
            let quit = matches!(output, Output::Quit);
            outputs.push(output);
            assert(outputs_view(outputs@) == outputs_view(before) + seq![output@]);
            if quit {
                return outputs;
            }
            assert(outputs_view(before) + (seq![output@] + spec_run_lines(
                self@,
                lines.skip(k + 1),
                true,
            ).1) == outputs_view(outputs@) + spec_run_lines(self@, lines.skip(k + 1), true).1);
            k += 1;
        }
        outputs
    }

    /// Runs one line of bytes in hexadecimal, or a directive. The line is
    /// recorded; bytes are appended to the program; the machine makes one
    /// step whether the line wrote bytes or not.
    pub fn execute_hex_command(&mut self, command: &str) -> (output: Output)
        ensures
            (final(self)@, output@) == spec_execute_hex_command(old(self)@, command@),
    {
        let ghost before = self.commands@;
        self.commands.push(command.to_string());
        assert(strings_view(self.commands@) == strings_view(before).push(command@));
        if self.is_directive(command) {
            self.run_directive(command)
        } else {
            match self.parse_hex(command) {
                Ok(bytes) => self.append_and_step(bytes),
                Err(_) => {
                    let status = self.vm.execute_instruction();
                    Output::HexRejected(status)
                },
            }
        }
    }

    /// Whether a line is a directive: it begins with a dot.
    pub fn is_directive(&self, command: &str) -> (b: bool)
        ensures
            b == spec_is_directive(command@),
    {
        let chars = chars_of(command);
        chars.len() > 0 && chars[0] == '.'
    }

    /// What a directive shows of the shell.
    pub fn run_directive(&self, command: &str) -> (output: Output)
        ensures
            output@ == spec_run_directive(self@, command@),
    {
        let chars = chars_of(command);
        let end = chars.len();
        assert(chars@.subrange(0, end as int) == command@);
        if is_word(&chars, 0, end, ".program") {
            Output::Program(copy_bytes(&self.vm.program))
        } else if is_word(&chars, 0, end, ".commands") {
            Output::Commands(copy_strings(&self.commands))
        } else if is_word(&chars, 0, end, ".registers") {
            Output::Registers(self.vm.registers)
        } else if is_word(&chars, 0, end, ".equal_flag") {
            Output::EqualFlag(self.vm.equal_flag)
        } else if is_word(&chars, 0, end, ".quit") {
            Output::Quit
        } else {
            Output::Nothing
        }
    }

    /// Reads a line of bytes written in hexadecimal, with one blank between
    /// each two, as in `00 01 03 E8`.
    pub fn parse_hex(&self, input: &str) -> (result: Result<Vec<u8>, ()>)
        ensures
            match spec_parse_hex(input@) {
                Some(bytes) => result is Ok && result.unwrap()@ == bytes,
                None => result is Err,
            },
    {
        parse_hex(input)
    }
}

/// Whatever a line does, it takes no byte out of the program and changes
/// none: the program after it begins with the program before it.
pub proof fn lemma_line_keeps_program(state: ReplState, command: Seq<char>, hex: bool)
    requires
        state.vm.registers.len() == REGISTERS,
    ensures
        ({
            let next = if hex {
                spec_execute_hex_command(state, command).0
            } else {
                spec_run_line(state, command).0
            };
            &&& state.vm.program.len() <= next.vm.program.len()
            &&& next.vm.program.take(state.vm.program.len() as int) == state.vm.program
            &&& next.vm.registers.len() == REGISTERS
        }),
{
    lemma_step_keeps_program(state.vm);
    if hex {
        if !spec_is_directive(command) {
            match spec_parse_hex(command) {
                Some(bytes) => {
                    lemma_step_keeps_program(with_bytes(state.vm, bytes));
                },
                None => {},
            }
        }
    } else if !spec_is_directive(command) {
        match spec_parse_instruction(command, alphabetic_flags(command)) {
            Some(instruction) => match spec_to_bytes(instruction) {
                Ok(bytes) => {
                    lemma_step_keeps_program(with_bytes(state.vm, bytes));
                },
                Err(_) => {},
            },
            None => {},
        }
    }
}

/// A line of assembly that holds no instruction, or one without an
/// encoding, leaves the shell as it is.
pub proof fn lemma_rejected_line_changes_nothing(state: ReplState, command: Seq<char>)
    requires
        spec_execute_command(state, command).1 is Rejected || spec_execute_command(
            state,
            command,
        ).1 is Unencodable,
    ensures
        spec_execute_command(state, command).0 == state,
{
}

} // verus!
