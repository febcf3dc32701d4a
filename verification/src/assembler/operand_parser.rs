//! Integer operands, and the choice between the two kinds of operand.

use crate::assembler::register_parser::{register_at, spec_register};
use crate::assembler::scan::{
    chars_of, lemma_prefixed_number_bounds, prefixed_number, rest_of, spec_prefixed_number,
};
use crate::assembler::token::{Token, TokenView};
use vstd::prelude::*;

verus! {

/// An integer operand at `i`: white space, `#`, white space, digits that
/// write a number of at most 2147483647, white space. The result is the
/// number and the position behind the operand.
pub open spec fn spec_integer_operand(s: Seq<char>, i: int) -> Option<(TokenView, int)> {
    match spec_prefixed_number(s, i, '#', 0x7fff_ffff) {
        Some((value, end)) => Some((TokenView::Number { value: value as i32 }, end)),
        None => None,
    }
}

/// An operand at `i`: a register operand, or else an integer operand.
pub open spec fn spec_operand(s: Seq<char>, i: int) -> Option<(TokenView, int)> {
    match spec_register(s, i) {
        Some(found) => Some(found),
        None => spec_integer_operand(s, i),
    }
}

/// An operand that may be absent: where `s` holds no operand at `i`, the
/// slot is empty and the position stays.
pub open spec fn spec_optional_operand(s: Seq<char>, i: int) -> (Option<TokenView>, int) {
    match spec_operand(s, i) {
        Some((token, end)) => (Some(token), end),
        None => (None, i),
    }
}

/// An operand that the grammar reads is a register or a number; it ends
/// behind its start and within the line. Where there is none, the position
/// stays.
pub proof fn lemma_optional_operand_shape(s: Seq<char>, i: int)
    requires
        0 <= i <= s.len(),
    ensures
        match spec_optional_operand(s, i).0 {
            Some(token) => (token is Register || token is Number) && i < spec_optional_operand(
                s,
                i,
            ).1,
            None => spec_optional_operand(s, i).1 == i,
        },
        spec_optional_operand(s, i).1 <= s.len(),
{
    if spec_register(s, i) is Some {
        lemma_prefixed_number_bounds(s, i, '$', 255);
    } else if spec_integer_operand(s, i) is Some {
        lemma_prefixed_number_bounds(s, i, '#', 0x7fff_ffff);
    }
}

/// Reads an integer operand at `start`.
pub(crate) fn integer_operand_at(chars: &Vec<char>, start: usize) -> (result: Option<
    (Token, usize),
>)
    requires
        start <= chars.len(),
    ensures
        match spec_integer_operand(chars@, start as int) {
            Some((token, end)) => result is Some && result.unwrap().0@ == token
                && result.unwrap().1 == end && start < end <= chars.len(),
            None => result is None,
        },
{
    match prefixed_number(chars, start, '#', 0x7fff_ffff) {
        Some((value, end)) => Some((Token::Number { value: value as i32 }, end)),
        None => None,
    }
}

/// Reads an integer operand at the start of `input`: the number and what
/// follows the operand in `input`.
pub fn integer_operand<'a>(input: &'a str) -> (result: Result<(&'a str, Token), ()>)
    ensures
        match spec_integer_operand(input@, 0) {
            Some((token, end)) => result is Ok && result.unwrap().1@ == token
                && result.unwrap().0@ == input@.subrange(end, input@.len() as int),
            None => result is Err,
        },
{
    let chars = chars_of(input);
    match integer_operand_at(&chars, 0) {
        Some((token, end)) => Ok((rest_of(input, end), token)),
        None => Err(()),
    }
}

/// Reads the operand at `start`, if there is one.
pub(crate) fn optional_operand_at(chars: &Vec<char>, start: usize) -> (result: (
    Option<Token>,
    usize,
))
    requires
        start <= chars.len(),
    ensures
        crate::assembler::token::slot_view(result.0) == spec_optional_operand(
            chars@,
            start as int,
        ).0,
        result.1 == spec_optional_operand(chars@, start as int).1,
        start <= result.1 <= chars.len(),
{
    match register_at(chars, start) {
        Some((token, end)) => (Some(token), end),
        None => match integer_operand_at(chars, start) {
            Some((token, end)) => (Some(token), end),
            None => (None, start),
        },
    }
}

} // verus!
