//! The instruction that one line of assembly stands for, its grammar and
//! its encoding as bytes.

use crate::assembler::directive_parser::{directive_at, spec_directive};
use crate::assembler::opcode_parser::{opcode_at, spec_opcode};
use crate::assembler::operand_parser::{
    lemma_optional_operand_shape, optional_operand_at, spec_optional_operand,
};
use crate::assembler::scan::{
    alpha_end, alphabetic_flags, chars_of, classify, is_space, lemma_alpha_end, lemma_run_end,
    rest_of, skip_spaces, skip_spaces_from,
};
use crate::assembler::token::{slot_view, Token, TokenView};
use crate::hex::{
    hex_of_byte, hex_of_bytes, hex_pair, join_with_blanks, lemma_hex_round_trip, spec_parse_hex,
};
use crate::instruction::{opcode_to_byte, Opcode};
use crate::vm::{is_register, spec_step, word_value, Status, VmState};
use vstd::prelude::*;

verus! {

/// One instruction as the assembler holds it: an opcode or a directive, and
/// up to three operands.
#[derive(Debug, PartialEq, Eq)]
pub struct AssemblerInstruction {
    pub opcode: Option<Token>,
    pub label: Option<Token>,
    pub directive: Option<Token>,
    pub operand1: Option<Token>,
    pub operand2: Option<Token>,
    pub operand3: Option<Token>,
}

/// An instruction as a mathematical value.
pub struct InstructionView {
    pub opcode: Option<TokenView>,
    pub label: Option<TokenView>,
    pub directive: Option<TokenView>,
    pub operand1: Option<TokenView>,
    pub operand2: Option<TokenView>,
    pub operand3: Option<TokenView>,
}

impl View for AssemblerInstruction {
    type V = InstructionView;

    open spec fn view(&self) -> InstructionView {
        InstructionView {
            opcode: slot_view(self.opcode),
            label: slot_view(self.label),
            directive: slot_view(self.directive),
            operand1: slot_view(self.operand1),
            operand2: slot_view(self.operand2),
            operand3: slot_view(self.operand3),
        }
    }
}

/// Why an instruction has no encoding.
#[derive(Debug, PartialEq, Eq, Clone, Copy, Structural)]
pub enum EncodeError {
    /// The opcode slot is empty or holds a token that is no operation.
    MissingOpcode,
    /// An operand slot holds a token that is neither a register nor a number.
    InvalidOperand,
}

/// The high byte of the 16 bits that encode a number.
pub open spec fn high_byte(value: i32) -> u8 {
    ((value as int / 256) % 256) as u8
}

/// The low byte of the 16 bits that encode a number.
pub open spec fn low_byte(value: i32) -> u8 {
    (value as int % 256) as u8
}

/// The bytes of one operand token: a register is one byte, a number is two,
/// the high byte first. Any other token has none.
pub open spec fn token_bytes(token: TokenView) -> Option<Seq<u8>> {
    match token {
        TokenView::Register { reg_num } => Some(seq![reg_num]),
        TokenView::Number { value } => Some(seq![high_byte(value), low_byte(value)]),
        _ => None,
    }
}

/// The bytes of an operand slot: an empty slot has no bytes.
pub open spec fn operand_bytes(slot: Option<TokenView>) -> Option<Seq<u8>> {
    match slot {
        Some(token) => token_bytes(token),
        None => Some(Seq::empty()),
    }
}

/// The encoding of an instruction: the code of its opcode, then the bytes of
/// its operands in their order.
pub open spec fn spec_to_bytes(instruction: InstructionView) -> Result<Seq<u8>, EncodeError> {
    match instruction.opcode {
        Some(TokenView::Op { code }) => {
            if operand_bytes(instruction.operand1) is Some && operand_bytes(instruction.operand2)
                is Some && operand_bytes(instruction.operand3) is Some {
                Ok(
                    seq![opcode_to_byte(code)] + operand_bytes(instruction.operand1).unwrap()
                        + operand_bytes(instruction.operand2).unwrap() + operand_bytes(
                        instruction.operand3,
                    ).unwrap(),
                )
            } else {
                Err(EncodeError::InvalidOperand)
            }
        },
        _ => Err(EncodeError::MissingOpcode),
    }
}

/// The sequence of characters of each string.
pub open spec fn strings_view(strings: Seq<String>) -> Seq<Seq<char>> {
    Seq::new(strings.len(), |k: int| strings[k]@)
}

impl AssemblerInstruction {
    /// The encoding written as hexadecimal, two lower-case digits for each
    /// byte.
    pub fn to_hex(&self) -> (result: Result<Vec<String>, EncodeError>)
        ensures
            match result {
                Ok(hex) => spec_to_bytes(self@) is Ok && hex@.len() == spec_to_bytes(
                    self@,
                ).unwrap().len() && forall|k: int|
                    0 <= k < hex@.len() ==> (#[trigger] hex@[k])@ == hex_pair(
                        spec_to_bytes(self@).unwrap()[k],
                    ),
                Err(e) => spec_to_bytes(self@) == Err::<Seq<u8>, EncodeError>(e),
            },
    {
        let mut results: Vec<String> = Vec::new();
        match &self.opcode {
            Some(Token::Op { code }) => {
                results.push(hex_of_byte(code.to_byte()));
            },
            _ => {
                return Err(EncodeError::MissingOpcode);
            },
        }
        assert(strings_view(results@) == hex_of_bytes(
            seq![opcode_to_byte(self@.opcode.unwrap()->code)],
        ));
        if let Some(token) = &self.operand1 {
            if self.extract_hex_operand(token, &mut results).is_err() {
                return Err(EncodeError::InvalidOperand);
            }
        }
        if let Some(token) = &self.operand2 {
            if self.extract_hex_operand(token, &mut results).is_err() {
                return Err(EncodeError::InvalidOperand);
            }
        }
        if let Some(token) = &self.operand3 {
            if self.extract_hex_operand(token, &mut results).is_err() {
                return Err(EncodeError::InvalidOperand);
            }
        }
        proof {
            let bytes = spec_to_bytes(self@).unwrap();
            assert(strings_view(results@) == hex_of_bytes(bytes));
            assert forall|k: int| 0 <= k < results@.len() implies (#[trigger] results@[k])@
                == hex_pair(bytes[k]) by {
                assert(strings_view(results@)[k] == hex_of_bytes(bytes)[k]);
            }
        }
        Ok(results)
    }

    /// The encoding: the code of the opcode, then each operand, a register
    /// as one byte and a number as two, the high byte first.
    pub fn to_bytes(&self) -> (result: Result<Vec<u8>, EncodeError>)
        ensures
            match result {
                Ok(bytes) => spec_to_bytes(self@) == Ok::<Seq<u8>, EncodeError>(bytes@),
                Err(e) => spec_to_bytes(self@) == Err::<Seq<u8>, EncodeError>(e),
            },
    {
        let mut results: Vec<u8> = Vec::new();
        match &self.opcode {
            Some(Token::Op { code }) => {
                results.push(code.to_byte());
            },
            _ => {
                return Err(EncodeError::MissingOpcode);
            },
        }
        assert(results@ == seq![opcode_to_byte(self@.opcode.unwrap()->code)]);
        if let Some(token) = &self.operand1 {
            if self.extract_operand(token, &mut results).is_err() {
                return Err(EncodeError::InvalidOperand);
            }
        }
        if let Some(token) = &self.operand2 {
            if self.extract_operand(token, &mut results).is_err() {
                return Err(EncodeError::InvalidOperand);
            }
        }
        if let Some(token) = &self.operand3 {
            if self.extract_operand(token, &mut results).is_err() {
                return Err(EncodeError::InvalidOperand);
            }
        }
        Ok(results)
    }

    /// Appends the hexadecimal digits of one operand.
    fn extract_hex_operand(&self, token: &Token, hex_results: &mut Vec<String>) -> (result:
        Result<(), EncodeError>)
        ensures
            match token_bytes(token@) {
                Some(bytes) => result is Ok && strings_view(final(hex_results)@) == strings_view(
                    old(hex_results)@,
                ) + hex_of_bytes(bytes),
                None => result == Err::<(), EncodeError>(EncodeError::InvalidOperand)
                    && final(hex_results)@ == old(hex_results)@,
            },
    {
        match token {
            Token::Register { reg_num } => {
                hex_results.push(hex_of_byte(*reg_num));
                assert(strings_view(hex_results@) =~= strings_view(old(hex_results)@)
                    + hex_of_bytes(seq![*reg_num]));
                Ok(())
            },
            Token::Number { value } => {
                let (high, low) = number_to_bytes(*value);
                hex_results.push(hex_of_byte(high));
                hex_results.push(hex_of_byte(low));
                assert(strings_view(hex_results@) =~= strings_view(old(hex_results)@)
                    + hex_of_bytes(seq![high, low]));
                Ok(())
            },
            _ => Err(EncodeError::InvalidOperand),
        }
    }

    /// Appends the bytes of one operand.
    fn extract_operand(&self, token: &Token, results: &mut Vec<u8>) -> (result: Result<
        (),
        EncodeError,
    >)
        ensures
            match token_bytes(token@) {
                Some(bytes) => result is Ok && final(results)@ == old(results)@ + bytes,
                None => result == Err::<(), EncodeError>(EncodeError::InvalidOperand)
                    && final(results)@ == old(results)@,
            },
    {
        match token {
            Token::Register { reg_num } => {
                results.push(*reg_num);
                assert(results@ =~= old(results)@ + seq![*reg_num]);
                Ok(())
            },
            Token::Number { value } => {
                let (high, low) = number_to_bytes(*value);
                results.push(high);
                results.push(low);
                assert(results@ =~= old(results)@ + seq![high, low]);
                Ok(())
            },
            _ => Err(EncodeError::InvalidOperand),
        }
    }
}

/// The two bytes that encode a number: the low 16 bits of the value, the
/// high byte first.
pub fn number_to_bytes(value: i32) -> (bytes: (u8, u8))
    ensures
        bytes.0 == high_byte(value),
        bytes.1 == low_byte(value),
{
    let high = #[verifier::truncate] ((value >> 8) as u8);
    let low = #[verifier::truncate] (value as u8);
    assert(((value >> 8) as u8) as int == (value as int / 256) % 256) by (bit_vector);
    assert((value as u8) as int == (value as int) % 256) by (bit_vector);
    (high, low)
}

/// The three operand slots of an instruction, read from `i` on, and the
/// position behind them and the white space that follows.
pub open spec fn spec_operands(s: Seq<char>, i: int) -> (
    Option<TokenView>,
    Option<TokenView>,
    Option<TokenView>,
    int,
) {
    let first = spec_optional_operand(s, i);
    let second = spec_optional_operand(s, first.1);
    let third = spec_optional_operand(s, second.1);
    (first.0, second.0, third.0, skip_spaces(s, third.1))
}

/// A plain instruction at `i`: a mnemonic and up to three operands.
pub open spec fn spec_instruction_pure(s: Seq<char>, letters: Seq<bool>, i: int) -> Option<
    (InstructionView, int),
> {
    match spec_opcode(s, letters, i) {
        Some((opcode, end)) => Some(
            (
                InstructionView {
                    opcode: Some(opcode),
                    label: None,
                    directive: None,
                    operand1: spec_operands(s, end).0,
                    operand2: spec_operands(s, end).1,
                    operand3: spec_operands(s, end).2,
                },
                spec_operands(s, end).3,
            ),
        ),
        None => None,
    }
}

/// An instruction at `i`: a plain instruction, or else a directive.
pub open spec fn spec_instruction(s: Seq<char>, letters: Seq<bool>, i: int) -> Option<
    (InstructionView, int),
> {
    match spec_instruction_pure(s, letters, i) {
        Some(found) => Some(found),
        None => spec_directive(s, letters, i),
    }
}

/// Reads up to three operands at `start` and the white space behind them.
pub(crate) fn operands_at(chars: &Vec<char>, start: usize) -> (result: (
    Option<Token>,
    Option<Token>,
    Option<Token>,
    usize,
))
    requires
        start <= chars.len(),
    ensures
        slot_view(result.0) == spec_operands(chars@, start as int).0,
        slot_view(result.1) == spec_operands(chars@, start as int).1,
        slot_view(result.2) == spec_operands(chars@, start as int).2,
        result.3 == spec_operands(chars@, start as int).3,
        start <= result.3 <= chars.len(),
{
    let (operand1, end1) = optional_operand_at(chars, start);
    let (operand2, end2) = optional_operand_at(chars, end1);
    let (operand3, end3) = optional_operand_at(chars, end2);
    (operand1, operand2, operand3, skip_spaces_from(chars, end3))
}

/// Reads a plain instruction at `start`.
pub(crate) fn instruction_pure_at(
    chars: &Vec<char>,
    letters: &Vec<bool>,
    start: usize,
) -> (result: Option<
    (AssemblerInstruction, usize),
>)
    requires
        start <= chars.len(),
    ensures
        match spec_instruction_pure(chars@, letters@, start as int) {
            Some((instruction, end)) => result is Some && result.unwrap().0@ == instruction
                && result.unwrap().1 == end && start < end <= chars.len(),
            None => result is None,
        },
{
    match opcode_at(chars, letters, start) {
        Some((opcode, end)) => {
            let (operand1, operand2, operand3, end) = operands_at(chars, end);
            Some(
                (
                    AssemblerInstruction {
                        opcode: Some(opcode),
                        label: None,
                        directive: None,
                        operand1,
                        operand2,
                        operand3,
                    },
                    end,
                ),
            )
        },
        None => None,
    }
}

/// Reads an instruction at `start`. `chars` holds the characters of `input`.
pub(crate) fn instruction_at(
    input: &str,
    chars: &Vec<char>,
    letters: &Vec<bool>,
    start: usize,
) -> (result: Option<
    (AssemblerInstruction, usize),
>)
    requires
        chars@ == input@,
        start <= chars.len(),
    ensures
        match spec_instruction(chars@, letters@, start as int) {
            Some((instruction, end)) => result is Some && result.unwrap().0@ == instruction
                && result.unwrap().1 == end && start < end <= chars.len(),
            None => result is None,
        },
{
    match instruction_pure_at(chars, letters, start) {
        Some(found) => Some(found),
        None => directive_at(input, chars, letters, start),
    }
}

/// Reads a plain instruction at the start of `input`: the instruction and
/// what follows it in `input`.
pub fn instruction_pure<'a>(input: &'a str) -> (result: Result<
    (&'a str, AssemblerInstruction),
    (),
>)
    ensures
        match spec_instruction_pure(input@, alphabetic_flags(input@), 0) {
            Some((instruction, end)) => result is Ok && result.unwrap().1@ == instruction
                && result.unwrap().0@ == input@.subrange(end, input@.len() as int),
            None => result is Err,
        },
{
    let chars = chars_of(input);
    let letters = classify(&chars);
    match instruction_pure_at(&chars, &letters, 0) {
        Some((instruction, end)) => Ok((rest_of(input, end), instruction)),
        None => Err(()),
    }
}

/// Reads an instruction at the start of `input`: the instruction and what
/// follows it in `input`.
pub fn instruction<'a>(input: &'a str) -> (result: Result<(&'a str, AssemblerInstruction), ()>)
    ensures
        match spec_instruction(input@, alphabetic_flags(input@), 0) {
            Some((instruction, end)) => result is Ok && result.unwrap().1@ == instruction
                && result.unwrap().0@ == input@.subrange(end, input@.len() as int),
            None => result is Err,
        },
{
    let chars = chars_of(input);
    let letters = classify(&chars);
    match instruction_at(input, &chars, &letters, 0) {
        Some((instruction, end)) => Ok((rest_of(input, end), instruction)),
        None => Err(()),
    }
}

/// Whether an operand slot is empty or holds a register or a number.
pub open spec fn is_operand_slot(slot: Option<TokenView>) -> bool {
    match slot {
        None => true,
        Some(token) => token is Register || token is Number,
    }
}

/// What every instruction that the grammar yields is like: it has an opcode
/// or a directive and not both, and no label; its operands are registers and
/// numbers and fill the slots from the first on; it ends behind its start and
/// within the line.
pub open spec fn is_well_formed(instruction: InstructionView) -> bool {
    &&& instruction.label is None
    &&& match (instruction.opcode, instruction.directive) {
        (Some(opcode), None) => opcode is Op,
        (None, Some(directive)) => directive is Directive,
        _ => false,
    }
    &&& is_operand_slot(instruction.operand1)
    &&& is_operand_slot(instruction.operand2)
    &&& is_operand_slot(instruction.operand3)
    &&& instruction.operand1 is None ==> instruction.operand2 is None
    &&& instruction.operand2 is None ==> instruction.operand3 is None
}

/// The operands that the grammar reads are registers and numbers and fill
/// the slots from the first on; they end within the line.
pub proof fn lemma_operands_shape(s: Seq<char>, i: int)
    requires
        0 <= i <= s.len(),
    ensures
        is_operand_slot(spec_operands(s, i).0),
        is_operand_slot(spec_operands(s, i).1),
        is_operand_slot(spec_operands(s, i).2),
        spec_operands(s, i).0 is None ==> spec_operands(s, i).1 is None,
        spec_operands(s, i).1 is None ==> spec_operands(s, i).2 is None,
        i <= spec_operands(s, i).3 <= s.len(),
{
    let first = spec_optional_operand(s, i);
    lemma_optional_operand_shape(s, i);
    let second = spec_optional_operand(s, first.1);
    lemma_optional_operand_shape(s, first.1);
    let third = spec_optional_operand(s, second.1);
    lemma_optional_operand_shape(s, second.1);
    lemma_run_end(s, third.1, |c: char| is_space(c));
}

/// Every instruction that the grammar yields is well formed, and ends behind
/// its start and within the line.
pub proof fn lemma_instruction_shape(s: Seq<char>, letters: Seq<bool>, i: int)
    requires
        0 <= i <= s.len(),
        spec_instruction(s, letters, i) is Some,
    ensures
        is_well_formed(spec_instruction(s, letters, i).unwrap().0),
        i < spec_instruction(s, letters, i).unwrap().1 <= s.len(),
{
    if spec_instruction_pure(s, letters, i) is Some {
        let end = alpha_end(s, letters, i);
        lemma_alpha_end(s, letters, i);
        lemma_operands_shape(s, end);
    } else {
        let at = skip_spaces(s, i);
        lemma_run_end(s, i, |c: char| is_space(c));
        let end = alpha_end(s, letters, at + 1);
        lemma_alpha_end(s, letters, at + 1);
        lemma_operands_shape(s, end);
    }
}

/// A plain instruction that the grammar yields has an encoding; a directive
/// has none.
pub proof fn lemma_parsed_instruction_encoding(s: Seq<char>, letters: Seq<bool>, i: int)
    requires
        0 <= i <= s.len(),
        spec_instruction(s, letters, i) is Some,
    ensures
        spec_instruction_pure(s, letters, i) is Some ==> spec_to_bytes(
            spec_instruction(s, letters, i).unwrap().0,
        ) is Ok,
        spec_instruction_pure(s, letters, i) is None ==> spec_to_bytes(
            spec_instruction(s, letters, i).unwrap().0,
        ) == Err::<Seq<u8>, EncodeError>(EncodeError::MissingOpcode),
{
    lemma_instruction_shape(s, letters, i);
}

/// Two instructions that are equal as values have the same encoding, and
/// fail alike where they have none.
pub proof fn lemma_encoding_is_deterministic(a: AssemblerInstruction, b: AssemblerInstruction)
    requires
        a@ == b@,
    ensures
        spec_to_bytes(a@) == spec_to_bytes(b@),
{
}

/// An encoding begins with the code of the opcode and has at most seven
/// bytes.
pub proof fn lemma_encoding_shape(instruction: InstructionView)
    requires
        spec_to_bytes(instruction) is Ok,
    ensures
        instruction.opcode matches Some(TokenView::Op { code }) && spec_to_bytes(
            instruction,
        ).unwrap()[0] == opcode_to_byte(code),
        1 <= spec_to_bytes(instruction).unwrap().len() <= 7,
{
}

/// The two bytes that encode a number hold its low 16 bits: read with the
/// high byte first, they give the number modulo 65536.
pub proof fn lemma_number_bytes_value(value: i32)
    ensures
        word_value(high_byte(value), low_byte(value)) == value as int % 0x1_0000,
{
    let v = value as int;
    assert((v / 256) % 256 * 256 + v % 256 == v % 0x1_0000) by (nonlinear_arith);
}

/// A number of 16 bits is encoded and read back without change.
pub proof fn lemma_number_round_trip(value: i32)
    requires
        0 <= value <= 0xffff,
    ensures
        word_value(high_byte(value), low_byte(value)) == value,
{
    lemma_number_bytes_value(value);
}

/// The hexadecimal form of an encoding, with a blank between each two
/// bytes, reads back as the bytes of the encoding.
pub proof fn lemma_hex_of_encoding_reads_back(instruction: InstructionView)
    requires
        spec_to_bytes(instruction) is Ok,
    ensures
        spec_parse_hex(join_with_blanks(hex_of_bytes(spec_to_bytes(instruction).unwrap()))) == Some(
            spec_to_bytes(instruction).unwrap(),
        ),
{
    lemma_encoding_shape(instruction);
    lemma_hex_round_trip(spec_to_bytes(instruction).unwrap());
}

/// The instruction `load` with a register of the machine and a number of
/// 16 bits.
pub open spec fn load_instruction(register: u8, value: i32) -> InstructionView {
    InstructionView {
        opcode: Some(TokenView::Op { code: Opcode::LOAD }),
        label: None,
        directive: None,
        operand1: Some(TokenView::Register { reg_num: register }),
        operand2: Some(TokenView::Number { value }),
        operand3: None,
    }
}

/// A machine that stands at the encoding of `load` with a register of its
/// own and a number of 16 bits puts the number into the register and moves
/// behind the four bytes.
pub proof fn lemma_load_is_executed(s: VmState, register: u8, value: i32)
    requires
        is_register(register),
        0 <= value <= 0xffff,
        0 <= s.pc,
        s.pc + 4 <= s.program.len(),
        s.program.subrange(s.pc, s.pc + 4) == spec_to_bytes(
            load_instruction(register, value),
        ).unwrap(),
    ensures
        spec_step(s) == (
            VmState { registers: s.registers.update(register as int, value), pc: s.pc + 4, ..s },
            Status::Continue,
        ),
{
    let bytes = spec_to_bytes(load_instruction(register, value)).unwrap();
    lemma_number_round_trip(value);
    assert(bytes =~= seq![0u8, register, high_byte(value), low_byte(value)]);
    assert(s.program[s.pc] == s.program.subrange(s.pc, s.pc + 4)[0]);
    assert(s.program[s.pc + 1] == s.program.subrange(s.pc, s.pc + 4)[1]);
    assert(s.program[s.pc + 2] == s.program.subrange(s.pc, s.pc + 4)[2]);
    assert(s.program[s.pc + 3] == s.program.subrange(s.pc, s.pc + 4)[3]);
}

} // verus!
