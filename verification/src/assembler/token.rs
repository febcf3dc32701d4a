//! What the assembler reads from a line, piece by piece.

use crate::instruction::Opcode;
use vstd::prelude::*;

verus! {

/// One piece of a line. The grammar yields operations, registers, numbers
/// and directives; the two kinds of label are not read yet.
#[derive(Debug, PartialEq, Eq)]
pub enum Token {
    /// A mnemonic, as the opcode that it stands for.
    Op { code: Opcode },
    /// `$` and the number of a register.
    Register { reg_num: u8 },
    /// `#` and a number.
    Number { value: i32 },
    /// The declaration of a label.
    LabelDeclaration { name: String },
    /// The use of a label.
    LabelUsage { name: String },
    /// `.` and the name of a directive.
    Directive { name: String },
}

/// A token as a mathematical value: a name is the sequence of its
/// characters.
pub enum TokenView {
    Op { code: Opcode },
    Register { reg_num: u8 },
    Number { value: i32 },
    LabelDeclaration { name: Seq<char> },
    LabelUsage { name: Seq<char> },
    Directive { name: Seq<char> },
}

impl View for Token {
    type V = TokenView;

    open spec fn view(&self) -> TokenView {
        match self {
            Token::Op { code } => TokenView::Op { code: *code },
            Token::Register { reg_num } => TokenView::Register { reg_num: *reg_num },
            Token::Number { value } => TokenView::Number { value: *value },
            Token::LabelDeclaration { name } => TokenView::LabelDeclaration { name: name@ },
            Token::LabelUsage { name } => TokenView::LabelUsage { name: name@ },
            Token::Directive { name } => TokenView::Directive { name: name@ },
        }
    }
}

/// The view of a slot that may hold a token.
pub open spec fn slot_view(slot: Option<Token>) -> Option<TokenView> {
    match slot {
        Some(token) => Some(token@),
        None => None,
    }
}

} // verus!
