//! The assembler: one line of text to one instruction, and instructions to
//! bytes.

pub mod directive_parser;
pub mod instruction_parser;
pub mod opcode_parser;
pub mod operand_parser;
pub mod register_parser;
pub mod scan;
pub mod token;

use crate::assembler::instruction_parser::{
    instruction_at, is_well_formed, lemma_instruction_shape, spec_instruction, spec_to_bytes,
    AssemblerInstruction, EncodeError, InstructionView,
};
use crate::assembler::scan::{alphabetic_flags, chars_of, classify, rest_of};
use vstd::prelude::*;

verus! {

/// A program: instructions in their order.
#[derive(Debug, PartialEq, Eq)]
pub struct Assembler {
    pub instructions: Vec<AssemblerInstruction>,
}

/// The view of each instruction.
pub open spec fn instructions_view(instructions: Seq<AssemblerInstruction>) -> Seq<
    InstructionView,
> {
    Seq::new(instructions.len(), |k: int| instructions[k]@)
}

impl View for Assembler {
    type V = Seq<InstructionView>;

    open spec fn view(&self) -> Seq<InstructionView> {
        instructions_view(self.instructions@)
    }
}

/// The instruction that a whole line stands for: the line holds one
/// instruction and nothing behind it. `letters` says of each character of the
/// line whether it is alphabetic.
pub open spec fn spec_parse_instruction(line: Seq<char>, letters: Seq<bool>) -> Option<
    InstructionView,
> {
    match spec_instruction(line, letters, 0) {
        Some((instruction, end)) => if end == line.len() {
            Some(instruction)
        } else {
            None
        },
        None => None,
    }
}

/// The instructions that follow one another from `i` on, and the position
/// at which no further instruction begins.
pub open spec fn spec_instructions(s: Seq<char>, letters: Seq<bool>, i: int) -> (
    Seq<InstructionView>,
    int,
)
    decreases s.len() - i,
{
    match spec_instruction(s, letters, i) {
        Some((instruction, end)) => if i < end <= s.len() {
            (
                seq![instruction] + spec_instructions(s, letters, end).0,
                spec_instructions(s, letters, end).1,
            )
        } else {
            (Seq::empty(), i)
        },
        None => (Seq::empty(), i),
    }
}

/// A program at `i`: one instruction or more.
pub open spec fn spec_program(s: Seq<char>, letters: Seq<bool>, i: int) -> Option<
    (Seq<InstructionView>, int),
> {
    if spec_instruction(s, letters, i) is Some {
        Some(spec_instructions(s, letters, i))
    } else {
        None
    }
}

/// The encoding of a program: the encodings of its instructions, one after
/// the other. It fails as the first instruction without an encoding does.
pub open spec fn spec_program_bytes(program: Seq<InstructionView>) -> Result<Seq<u8>, EncodeError>
    decreases program.len(),
{
    if program.len() == 0 {
        Ok(Seq::empty())
    } else {
        match spec_program_bytes(program.drop_last()) {
            Ok(bytes) => match spec_to_bytes(program.last()) {
                Ok(more) => Ok(bytes + more),
                Err(e) => Err(e),
            },
            Err(e) => Err(e),
        }
    }
}

impl Assembler {
    /// The encoding of the program.
    pub fn to_bytes(&self) -> (result: Result<Vec<u8>, EncodeError>)
        ensures
            match result {
                Ok(bytes) => spec_program_bytes(self@) == Ok::<Seq<u8>, EncodeError>(bytes@),
                Err(e) => spec_program_bytes(self@) == Err::<Seq<u8>, EncodeError>(e),
            },
    {
        let mut program: Vec<u8> = Vec::new();
        let mut k: usize = 0;
        assert(self@.take(0) == Seq::<InstructionView>::empty());
        while k < self.instructions.len()
            invariant
                k <= self.instructions.len(),
                spec_program_bytes(self@.take(k as int)) == Ok::<Seq<u8>, EncodeError>(program@),
            decreases self.instructions.len() - k,
        {
            assert(self@.take(k + 1).drop_last() == self@.take(k as int));
            assert(self@.take(k + 1).last() == self.instructions[k as int]@);
            match self.instructions[k].to_bytes() {
                Ok(mut bytes) => {
                    program.append(&mut bytes);
                },
                Err(e) => {
                    proof {
                        lemma_program_bytes_fail(self@, k + 1);
                    }
                    return Err(e);
                },
            }
            k += 1;
        }
        assert(self@.take(k as int) == self@);
        Ok(program)
    }

    /// Reads the one instruction that a line holds. The line is rejected
    /// where it holds no instruction, or anything behind the instruction.
    pub fn parse_instruction(input_instruction: &str) -> (result: Result<AssemblerInstruction, ()>)
        ensures
            match spec_parse_instruction(
                input_instruction@,
                alphabetic_flags(input_instruction@),
            ) {
                Some(instruction) => result is Ok && result.unwrap()@ == instruction,
                None => result is Err,
            },
            result is Ok ==> is_well_formed(result.unwrap()@),
    {
        let chars = chars_of(input_instruction);
        let letters = classify(&chars);
        Assembler::parse_classified(input_instruction, &letters)
    }

    /// Reads the one instruction that a line holds, as `parse_instruction`
    /// does, with the alphabetic characters of the line given: `letters`
    /// says of each character whether it is one.
    pub fn parse_classified(input_instruction: &str, letters: &Vec<bool>) -> (result: Result<
        AssemblerInstruction,
        (),
    >)
        ensures
            match spec_parse_instruction(input_instruction@, letters@) {
                Some(instruction) => result is Ok && result.unwrap()@ == instruction,
                None => result is Err,
            },
            result is Ok ==> is_well_formed(result.unwrap()@),
    {
        let chars = chars_of(input_instruction);
        proof {
            if spec_instruction(chars@, letters@, 0) is Some {
                lemma_instruction_shape(chars@, letters@, 0);
            }
        }
        match instruction_at(input_instruction, &chars, letters, 0) {
            Some((instruction, end)) => {
                if end == chars.len() {
                    Ok(instruction)
                } else {
                    Err(())
                }
            },
            None => Err(()),
        }
    }
}

/// A program whose first instructions fail to encode fails as they do.
proof fn lemma_program_bytes_fail(program: Seq<InstructionView>, k: int)
    requires
        0 <= k <= program.len(),
        spec_program_bytes(program.take(k)) is Err,
    ensures
        spec_program_bytes(program) == spec_program_bytes(program.take(k)),
    decreases program.len() - k,
{
    if k < program.len() {
        assert(program.take(k + 1).drop_last() == program.take(k));
        lemma_program_bytes_fail(program, k + 1);
    } else {
        assert(program.take(k) == program);
    }
}

/// Reads a program at the start of `input`: one instruction or more, as many
/// as follow one another, and what follows them in `input`.
pub fn program<'a>(input: &'a str) -> (result: Result<(&'a str, Assembler), ()>)
    ensures
        match spec_program(input@, alphabetic_flags(input@), 0) {
            Some((instructions, end)) => result is Ok && result.unwrap().1@ == instructions
                && result.unwrap().0@ == input@.subrange(end, input@.len() as int),
            None => result is Err,
        },
{
    let chars = chars_of(input);
    let letters = classify(&chars);
    program_classified(input, &letters)
}

/// Reads a program at the start of `input`, as `program` does, with the
/// alphabetic characters of `input` given: `letters` says of each character
/// whether it is one.
pub fn program_classified<'a>(input: &'a str, letters: &Vec<bool>) -> (result: Result<
    (&'a str, Assembler),
    (),
>)
    ensures
        match spec_program(input@, letters@, 0) {
            Some((instructions, end)) => result is Ok && result.unwrap().1@ == instructions
                && result.unwrap().0@ == input@.subrange(end, input@.len() as int),
            None => result is Err,
        },
{
    let chars = chars_of(input);
    let ghost flags = letters@;
    let mut instructions: Vec<AssemblerInstruction> = Vec::new();
    let mut at: usize = 0;
    loop
        invariant
            chars@ == input@,
            flags == letters@,
            at <= chars.len(),
            spec_instructions(chars@, flags, 0).0 == instructions_view(instructions@)
                + spec_instructions(chars@, flags, at as int).0,
            spec_instructions(chars@, flags, 0).1 == spec_instructions(chars@, flags, at as int).1,
            instructions@.len() == 0 ==> at == 0,
        ensures
            at <= chars.len(),
            spec_instructions(chars@, flags, 0) == (instructions_view(instructions@), at as int),
            instructions@.len() == 0 <==> spec_instruction(chars@, flags, 0) is None,
        decreases chars.len() - at,
    {
        match instruction_at(input, &chars, letters, at) {
            Some((instruction, end)) => {
                let ghost before = instructions@;
                instructions.push(instruction);
                assert(instructions_view(instructions@) == instructions_view(before) + seq![
                    instruction@,
                ]);
                at = end;
            },
            None => {
                assert(instructions_view(instructions@) + Seq::<InstructionView>::empty()
                    == instructions_view(instructions@));
                break ;
            },
        }
    }
    if instructions.len() == 0 {
        Err(())
    } else {
        Ok((rest_of(input, at), Assembler { instructions }))
    }
}

} // verus!
