//! Mnemonics: the names that the assembler reads as opcodes.

use crate::assembler::scan::{
    alpha_end, alpha_end_from, alphabetic_flags, chars_of, classify, is_word, rest_of,
};
use crate::assembler::token::{Token, TokenView};
use crate::instruction::Opcode;
use vstd::prelude::*;
use vstd::std_specs::convert::FromSpecImpl;

verus! {

/// The mnemonic of an opcode. `ALOC` and `IGL` have none.
pub open spec fn mnemonic(op: Opcode) -> Option<Seq<char>> {
    match op {
        Opcode::LOAD => Some("load"@),
        Opcode::ADD => Some("add"@),
        Opcode::SUB => Some("sub"@),
        Opcode::MUL => Some("mul"@),
        Opcode::DIV => Some("div"@),
        Opcode::HLT => Some("hlt"@),
        Opcode::JMP => Some("jmp"@),
        Opcode::JMPF => Some("jmpf"@),
        Opcode::JMPB => Some("jmpb"@),
        Opcode::EQ => Some("eq"@),
        Opcode::NEQ => Some("neq"@),
        Opcode::GT => Some("gt"@),
        Opcode::LT => Some("lt"@),
        Opcode::GTQ => Some("gtq"@),
        Opcode::LTQ => Some("ltq"@),
        Opcode::JEQ => Some("jeq"@),
        Opcode::ALOC | Opcode::IGL => None,
    }
}

/// The opcode that a name stands for: the opcode whose mnemonic it is, and
/// `IGL` where it is the mnemonic of none.
pub open spec fn mnemonic_opcode(name: Seq<char>) -> Opcode {
    if name == "load"@ {
        Opcode::LOAD
    } else if name == "add"@ {
        Opcode::ADD
    } else if name == "sub"@ {
        Opcode::SUB
    } else if name == "mul"@ {
        Opcode::MUL
    } else if name == "div"@ {
        Opcode::DIV
    } else if name == "hlt"@ {
        Opcode::HLT
    } else if name == "jmp"@ {
        Opcode::JMP
    } else if name == "jmpf"@ {
        Opcode::JMPF
    } else if name == "jmpb"@ {
        Opcode::JMPB
    } else if name == "eq"@ {
        Opcode::EQ
    } else if name == "neq"@ {
        Opcode::NEQ
    } else if name == "gtq"@ {
        Opcode::GTQ
    } else if name == "gt"@ {
        Opcode::GT
    } else if name == "ltq"@ {
        Opcode::LTQ
    } else if name == "lt"@ {
        Opcode::LT
    } else if name == "jeq"@ {
        Opcode::JEQ
    } else {
        Opcode::IGL
    }
}

/// A mnemonic at `i`: one alphabetic character or more. The result is the
/// opcode that the name stands for and the position behind the name.
pub open spec fn spec_opcode(s: Seq<char>, letters: Seq<bool>, i: int) -> Option<(TokenView, int)> {
    if 0 <= i < alpha_end(s, letters, i) {
        Some(
            (
                TokenView::Op { code: mnemonic_opcode(s.subrange(i, alpha_end(s, letters, i))) },
                alpha_end(s, letters, i),
            ),
        )
    } else {
        None
    }
}

/// The opcode that the characters from `start` to `end` stand for.
pub(crate) fn opcode_of(chars: &Vec<char>, start: usize, end: usize) -> (op: Opcode)
    requires
        start <= end <= chars.len(),
    ensures
        op == mnemonic_opcode(chars@.subrange(start as int, end as int)),
{
    if is_word(chars, start, end, "load") {
        Opcode::LOAD
    } else if is_word(chars, start, end, "add") {
        Opcode::ADD
    } else if is_word(chars, start, end, "sub") {
        Opcode::SUB
    } else if is_word(chars, start, end, "mul") {
        Opcode::MUL
    } else if is_word(chars, start, end, "div") {
        Opcode::DIV
    } else if is_word(chars, start, end, "hlt") {
        Opcode::HLT
    } else if is_word(chars, start, end, "jmp") {
        Opcode::JMP
    } else if is_word(chars, start, end, "jmpf") {
        Opcode::JMPF
    } else if is_word(chars, start, end, "jmpb") {
        Opcode::JMPB
    } else if is_word(chars, start, end, "eq") {
        Opcode::EQ
    } else if is_word(chars, start, end, "neq") {
        Opcode::NEQ
    } else if is_word(chars, start, end, "gtq") {
        Opcode::GTQ
    } else if is_word(chars, start, end, "gt") {
        Opcode::GT
    } else if is_word(chars, start, end, "ltq") {
        Opcode::LTQ
    } else if is_word(chars, start, end, "lt") {
        Opcode::LT
    } else if is_word(chars, start, end, "jeq") {
        Opcode::JEQ
    } else {
        Opcode::IGL
    }
}

impl<'a> From<&'a str> for Opcode {
    /// The opcode that a name stands for.
    fn from(v: &'a str) -> (op: Opcode) {
        let chars = chars_of(v);
        assert(chars@.subrange(0, chars@.len() as int) == v@);
        opcode_of(&chars, 0, chars.len())
    }
}

impl<'a> FromSpecImpl<&'a str> for Opcode {
    open spec fn obeys_from_spec() -> bool {
        true
    }

    open spec fn from_spec(v: &'a str) -> Opcode {
        mnemonic_opcode(v@)
    }
}

/// Reads a mnemonic at `start`.
pub(crate) fn opcode_at(chars: &Vec<char>, letters: &Vec<bool>, start: usize) -> (result: Option<
    (Token, usize),
>)
    requires
        start <= chars.len(),
    ensures
        match spec_opcode(chars@, letters@, start as int) {
            Some((token, end)) => result is Some && result.unwrap().0@ == token
                && result.unwrap().1 == end && start < end <= chars.len(),
            None => result is None,
        },
{
    let end = alpha_end_from(chars, letters, start);
    if end == start {
        None
    } else {
        Some((Token::Op { code: opcode_of(chars, start, end) }, end))
    }
}

/// Reads a mnemonic at the start of `input`: the opcode that it stands for
/// and what follows it in `input`.
pub fn opcode<'a>(input: &'a str) -> (result: Result<(&'a str, Token), ()>)
    ensures
        match spec_opcode(input@, alphabetic_flags(input@), 0) {
            Some((token, end)) => result is Ok && result.unwrap().1@ == token
                && result.unwrap().0@ == input@.subrange(end, input@.len() as int),
            None => result is Err,
        },
{
    let chars = chars_of(input);
    let letters = classify(&chars);
    match opcode_at(&chars, &letters, 0) {
        Some((token, end)) => Ok((rest_of(input, end), token)),
        None => Err(()),
    }
}

/// The name that is an opcode's mnemonic stands for that opcode.
pub proof fn lemma_mnemonic_round_trip(op: Opcode)
    requires
        mnemonic(op) is Some,
    ensures
        mnemonic_opcode(mnemonic(op).unwrap()) == op,
{
    reveal_strlit("load");
    reveal_strlit("add");
    reveal_strlit("sub");
    reveal_strlit("mul");
    reveal_strlit("div");
    reveal_strlit("hlt");
    reveal_strlit("jmp");
    reveal_strlit("jmpf");
    reveal_strlit("jmpb");
    reveal_strlit("eq");
    reveal_strlit("neq");
    reveal_strlit("gtq");
    reveal_strlit("gt");
    reveal_strlit("ltq");
    reveal_strlit("lt");
    reveal_strlit("jeq");
    assert("load"@.len() == 4 && "load"@[0] == 'l' && "load"@[1] == 'o'
        && "load"@[2] == 'a' && "load"@[3] == 'd');
    assert("add"@.len() == 3 && "add"@[0] == 'a' && "add"@[1] == 'd' && "add"@[2] == 'd');
    assert("sub"@.len() == 3 && "sub"@[0] == 's' && "sub"@[1] == 'u' && "sub"@[2] == 'b');
    assert("mul"@.len() == 3 && "mul"@[0] == 'm' && "mul"@[1] == 'u' && "mul"@[2] == 'l');
    assert("div"@.len() == 3 && "div"@[0] == 'd' && "div"@[1] == 'i' && "div"@[2] == 'v');
    assert("hlt"@.len() == 3 && "hlt"@[0] == 'h' && "hlt"@[1] == 'l' && "hlt"@[2] == 't');
    assert("jmp"@.len() == 3 && "jmp"@[0] == 'j' && "jmp"@[1] == 'm' && "jmp"@[2] == 'p');
    assert("jmpf"@.len() == 4 && "jmpf"@[0] == 'j' && "jmpf"@[1] == 'm'
        && "jmpf"@[2] == 'p' && "jmpf"@[3] == 'f');
    assert("jmpb"@.len() == 4 && "jmpb"@[0] == 'j' && "jmpb"@[1] == 'm'
        && "jmpb"@[2] == 'p' && "jmpb"@[3] == 'b');
    assert("eq"@.len() == 2 && "eq"@[0] == 'e' && "eq"@[1] == 'q');
    assert("neq"@.len() == 3 && "neq"@[0] == 'n' && "neq"@[1] == 'e' && "neq"@[2] == 'q');
    assert("gtq"@.len() == 3 && "gtq"@[0] == 'g' && "gtq"@[1] == 't' && "gtq"@[2] == 'q');
    assert("gt"@.len() == 2 && "gt"@[0] == 'g' && "gt"@[1] == 't');
    assert("ltq"@.len() == 3 && "ltq"@[0] == 'l' && "ltq"@[1] == 't' && "ltq"@[2] == 'q');
    assert("lt"@.len() == 2 && "lt"@[0] == 'l' && "lt"@[1] == 't');
    assert("jeq"@.len() == 3 && "jeq"@[0] == 'j' && "jeq"@[1] == 'e' && "jeq"@[2] == 'q');
}

/// A name that is the mnemonic of no opcode stands for `IGL`.
pub proof fn lemma_unknown_mnemonic_is_illegal(name: Seq<char>)
    requires
        forall|op: Opcode| mnemonic(op) != Some(name),
    ensures
        mnemonic_opcode(name) == Opcode::IGL,
{
    assert(mnemonic(Opcode::LOAD) != Some(name));
    assert(mnemonic(Opcode::ADD) != Some(name));
    assert(mnemonic(Opcode::SUB) != Some(name));
    assert(mnemonic(Opcode::MUL) != Some(name));
    assert(mnemonic(Opcode::DIV) != Some(name));
    assert(mnemonic(Opcode::HLT) != Some(name));
    assert(mnemonic(Opcode::JMP) != Some(name));
    assert(mnemonic(Opcode::JMPF) != Some(name));
    assert(mnemonic(Opcode::JMPB) != Some(name));
    assert(mnemonic(Opcode::EQ) != Some(name));
    assert(mnemonic(Opcode::NEQ) != Some(name));
    assert(mnemonic(Opcode::GT) != Some(name));
    assert(mnemonic(Opcode::LT) != Some(name));
    assert(mnemonic(Opcode::GTQ) != Some(name));
    assert(mnemonic(Opcode::LTQ) != Some(name));
    assert(mnemonic(Opcode::JEQ) != Some(name));
}

} // verus!
