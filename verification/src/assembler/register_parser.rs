//! Register operands: `$` and the number of a register.

use crate::assembler::scan::{chars_of, prefixed_number, rest_of, spec_prefixed_number};
use crate::assembler::token::{Token, TokenView};
use vstd::prelude::*;

verus! {

/// A register operand at `i`: white space, `$`, white space, digits that
/// write a number of at most 255, white space. The result is the register
/// and the position behind the operand.
pub open spec fn spec_register(s: Seq<char>, i: int) -> Option<(TokenView, int)> {
    match spec_prefixed_number(s, i, '$', 255) {
        Some((value, end)) => Some((TokenView::Register { reg_num: value as u8 }, end)),
        None => None,
    }
}

/// Reads a register operand at `start`.
pub(crate) fn register_at(chars: &Vec<char>, start: usize) -> (result: Option<(Token, usize)>)
    requires
        start <= chars.len(),
    ensures
        match spec_register(chars@, start as int) {
            Some((token, end)) => result is Some && result.unwrap().0@ == token
                && result.unwrap().1 == end && start < end <= chars.len(),
            None => result is None,
        },
{
    match prefixed_number(chars, start, '$', 255) {
        Some((value, end)) => Some((Token::Register { reg_num: value as u8 }, end)),
        None => None,
    }
}

/// Reads a register operand at the start of `input`: the register and what
/// follows the operand in `input`.
pub fn register<'a>(input: &'a str) -> (result: Result<(&'a str, Token), ()>)
    ensures
        match spec_register(input@, 0) {
            Some((token, end)) => result is Ok && result.unwrap().1@ == token
                && result.unwrap().0@ == input@.subrange(end, input@.len() as int),
            None => result is Err,
        },
{
    let chars = chars_of(input);
    match register_at(&chars, 0) {
        Some((token, end)) => Ok((rest_of(input, end), token)),
        None => Err(()),
    }
}

} // verus!
