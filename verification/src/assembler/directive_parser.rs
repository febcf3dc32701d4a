//! Directives: a dot, a name and up to three operands.

use crate::assembler::instruction_parser::{
    operands_at, spec_operands, AssemblerInstruction, InstructionView,
};
use crate::assembler::scan::{
    alpha_end, alpha_end_from, alphabetic_flags, chars_of, classify, rest_of, skip_spaces,
    skip_spaces_from,
};
use crate::assembler::token::{Token, TokenView};
use vstd::prelude::*;
use vstd::string::*;

verus! {

/// The name of a directive at `i`: a dot and, right behind it, one
/// alphabetic character or more. The result is the name without the dot and
/// the position behind it.
pub open spec fn spec_directive_declaration(
    s: Seq<char>,
    letters: Seq<bool>,
    i: int,
) -> Option<(TokenView, int)> {
    if 0 <= i < s.len() && s[i] == '.' && i + 1 < alpha_end(s, letters, i + 1) {
        Some(
            (
                TokenView::Directive { name: s.subrange(i + 1, alpha_end(s, letters, i + 1)) },
                alpha_end(s, letters, i + 1),
            ),
        )
    } else {
        None
    }
}

/// A directive at `i`: white space, the name of a directive and up to three
/// operands.
pub open spec fn spec_directive(s: Seq<char>, letters: Seq<bool>, i: int) -> Option<
    (InstructionView, int),
> {
    match spec_directive_declaration(s, letters, skip_spaces(s, i)) {
        Some((name, end)) => Some(
            (
                InstructionView {
                    opcode: None,
                    label: None,
                    directive: Some(name),
                    operand1: spec_operands(s, end).0,
                    operand2: spec_operands(s, end).1,
                    operand3: spec_operands(s, end).2,
                },
                spec_operands(s, end).3,
            ),
        ),
        None => None,
    }
}

/// Reads the name of a directive at `start`. `chars` holds the characters
/// of `input`.
pub(crate) fn directive_declaration_at(
    input: &str,
    chars: &Vec<char>,
    letters: &Vec<bool>,
    start: usize,
) -> (result: Option<
    (Token, usize),
>)
    requires
        chars@ == input@,
        start <= chars.len(),
    ensures
        match spec_directive_declaration(chars@, letters@, start as int) {
            Some((token, end)) => result is Some && result.unwrap().0@ == token
                && result.unwrap().1 == end && start < end <= chars.len(),
            None => result is None,
        },
{
    if start >= chars.len() || chars[start] != '.' {
        return None;
    }
    let end = alpha_end_from(chars, letters, start + 1);
    if end == start + 1 {
        return None;
    }
    let name = input.substring_char(start + 1, end).to_string();
    Some((Token::Directive { name }, end))
}

/// Reads a directive at `start`. `chars` holds the characters of `input`.
pub(crate) fn directive_at(
    input: &str,
    chars: &Vec<char>,
    letters: &Vec<bool>,
    start: usize,
) -> (result: Option<
    (AssemblerInstruction, usize),
>)
    requires
        chars@ == input@,
        start <= chars.len(),
    ensures
        match spec_directive(chars@, letters@, start as int) {
            Some((instruction, end)) => result is Some && result.unwrap().0@ == instruction
                && result.unwrap().1 == end && start < end <= chars.len(),
            None => result is None,
        },
{
    let at = skip_spaces_from(chars, start);
    match directive_declaration_at(input, chars, letters, at) {
        Some((name, end)) => {
            let (operand1, operand2, operand3, end) = operands_at(chars, end);
            Some(
                (
                    AssemblerInstruction {
                        opcode: None,
                        label: None,
                        directive: Some(name),
                        operand1,
                        operand2,
                        operand3,
                    },
                    end,
                ),
            )
        },
        None => None,
    }
}

/// Reads the name of a directive at the start of `input`: the name and what
/// follows it in `input`.
pub fn directive_declaration<'a>(input: &'a str) -> (result: Result<(&'a str, Token), ()>)
    ensures
        match spec_directive_declaration(input@, alphabetic_flags(input@), 0) {
            Some((token, end)) => result is Ok && result.unwrap().1@ == token
                && result.unwrap().0@ == input@.subrange(end, input@.len() as int),
            None => result is Err,
        },
{
    let chars = chars_of(input);
    let letters = classify(&chars);
    match directive_declaration_at(input, &chars, &letters, 0) {
        Some((token, end)) => Ok((rest_of(input, end), token)),
        None => Err(()),
    }
}

/// Reads a directive at the start of `input`: the instruction and what
/// follows it in `input`.
pub fn directive<'a>(input: &'a str) -> (result: Result<(&'a str, AssemblerInstruction), ()>)
    ensures
        match spec_directive(input@, alphabetic_flags(input@), 0) {
            Some((instruction, end)) => result is Ok && result.unwrap().1@ == instruction
                && result.unwrap().0@ == input@.subrange(end, input@.len() as int),
            None => result is Err,
        },
{
    let chars = chars_of(input);
    let letters = classify(&chars);
    match directive_at(input, &chars, &letters, 0) {
        Some((instruction, end)) => Ok((rest_of(input, end), instruction)),
        None => Err(()),
    }
}

} // verus!
