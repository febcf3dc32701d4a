//! The operation codes of the machine and their numeric encoding.

use vstd::prelude::*;
use vstd::std_specs::convert::FromSpecImpl;

verus! {

/// The operation selector of one instruction.
#[derive(Debug, PartialEq, Eq, Copy, Clone, Structural)]
pub enum Opcode {
    /// `load $0 #500`: puts the number into the register.
    LOAD,
    /// `add $0 $1 $2`: puts the sum of the first two registers into the third.
    ADD,
    /// `sub $0 $1 $2`: puts the first register less the second into the third.
    SUB,
    /// `mul $0 $1 $2`: puts the product of the first two registers into the
    /// third.
    MUL,
    /// `div $0 $1 $2`: puts the quotient of the first register by the second
    /// into the third, and keeps the remainder.
    DIV,
    /// `hlt`: stops the machine.
    HLT,
    /// `jmp $0`: goes on at the offset that the register holds.
    JMP,
    /// `jmpf $0`: goes forwards by what the register holds.
    JMPF,
    /// `jmpb $0`: goes backwards by what the register holds.
    JMPB,
    /// `eq $0 $1 $2`: sets the flag if the first two registers are equal.
    EQ,
    /// `neq $0 $1 $2`: sets the flag if the first two registers differ.
    NEQ,
    /// `gt $0 $1 $2`: sets the flag if the first register is above the second.
    GT,
    /// `lt $0 $1 $2`: sets the flag if the first register is below the second.
    LT,
    /// `gtq $0 $1 $2`: sets the flag if the first register is not below the
    /// second.
    GTQ,
    /// `ltq $0 $1 $2`: sets the flag if the first register is not above the
    /// second.
    LTQ,
    /// `jeq $0`: goes on at the offset that the register holds if the flag is
    /// set.
    JEQ,
    /// Reserved for the allocation of memory. It has a code and no mnemonic,
    /// and the machine does not execute it.
    ALOC,
    /// Illegal: what every unknown code and every unknown name stands for.
    IGL,
}

/// The variant that a numeric code selects: the defined codes are 0 to 16,
/// every other value selects `IGL`.
pub open spec fn byte_to_opcode(v: u8) -> Opcode {
    match v {
        0 => Opcode::LOAD,
        1 => Opcode::ADD,
        2 => Opcode::SUB,
        3 => Opcode::MUL,
        4 => Opcode::DIV,
        5 => Opcode::HLT,
        6 => Opcode::JMP,
        7 => Opcode::JMPF,
        8 => Opcode::JMPB,
        9 => Opcode::EQ,
        10 => Opcode::NEQ,
        11 => Opcode::GT,
        12 => Opcode::LT,
        13 => Opcode::GTQ,
        14 => Opcode::LTQ,
        15 => Opcode::JEQ,
        16 => Opcode::ALOC,
        _ => Opcode::IGL,
    }
}

/// The numeric code of a variant.
pub open spec fn opcode_to_byte(op: Opcode) -> u8 {
    match op {
        Opcode::LOAD => 0,
        Opcode::ADD => 1,
        Opcode::SUB => 2,
        Opcode::MUL => 3,
        Opcode::DIV => 4,
        Opcode::HLT => 5,
        Opcode::JMP => 6,
        Opcode::JMPF => 7,
        Opcode::JMPB => 8,
        Opcode::EQ => 9,
        Opcode::NEQ => 10,
        Opcode::GT => 11,
        Opcode::LT => 12,
        Opcode::GTQ => 13,
        Opcode::LTQ => 14,
        Opcode::JEQ => 15,
        Opcode::ALOC => 16,
        Opcode::IGL => 17,
    }
}

impl From<u8> for Opcode {
    /// The opcode that a numeric code selects.
    fn from(v: u8) -> (op: Opcode) {
        match v {
            0 => Opcode::LOAD,
            1 => Opcode::ADD,
            2 => Opcode::SUB,
            3 => Opcode::MUL,
            4 => Opcode::DIV,
            5 => Opcode::HLT,
            6 => Opcode::JMP,
            7 => Opcode::JMPF,
            8 => Opcode::JMPB,
            9 => Opcode::EQ,
            10 => Opcode::NEQ,
            11 => Opcode::GT,
            12 => Opcode::LT,
            13 => Opcode::GTQ,
            14 => Opcode::LTQ,
            15 => Opcode::JEQ,
            16 => Opcode::ALOC,
            _ => Opcode::IGL,
        }
    }
}

impl FromSpecImpl<u8> for Opcode {
    open spec fn obeys_from_spec() -> bool {
        true
    }

    open spec fn from_spec(v: u8) -> Opcode {
        byte_to_opcode(v)
    }
}

impl Opcode {
    /// The numeric code that stands for this opcode in a program.
    pub fn to_byte(self) -> (b: u8)
        ensures
            b == opcode_to_byte(self),
    {
        match self {
            Opcode::LOAD => 0,
            Opcode::ADD => 1,
            Opcode::SUB => 2,
            Opcode::MUL => 3,
            Opcode::DIV => 4,
            Opcode::HLT => 5,
            Opcode::JMP => 6,
            Opcode::JMPF => 7,
            Opcode::JMPB => 8,
            Opcode::EQ => 9,
            Opcode::NEQ => 10,
            Opcode::GT => 11,
            Opcode::LT => 12,
            Opcode::GTQ => 13,
            Opcode::LTQ => 14,
            Opcode::JEQ => 15,
            Opcode::ALOC => 16,
            Opcode::IGL => 17,
        }
    }
}

/// Converting an opcode to its code and back gives the same opcode.
pub proof fn lemma_opcode_round_trip(op: Opcode)
    ensures
        byte_to_opcode(opcode_to_byte(op)) == op,
{
}

/// Every code up to that of `IGL` is the code of the opcode it selects.
pub proof fn lemma_byte_round_trip(v: u8)
    requires
        v <= 17,
    ensures
        opcode_to_byte(byte_to_opcode(v)) == v,
{
}

/// A code above the defined ones selects `IGL`.
pub proof fn lemma_unmapped_byte_is_illegal(v: u8)
    requires
        v > 16,
    ensures
        byte_to_opcode(v) == Opcode::IGL,
{
}

/// Two opcodes with the same code are the same opcode.
pub proof fn lemma_opcode_code_is_injective(a: Opcode, b: Opcode)
    requires
        opcode_to_byte(a) == opcode_to_byte(b),
    ensures
        a == b,
{
}

/// One decoded instruction: its operation code.
#[derive(Debug, PartialEq, Eq)]
pub struct Instruction {
    pub opcode: Opcode,
}

impl Instruction {
    /// An instruction with this opcode.
    pub fn new(opcode: Opcode) -> (instruction: Instruction)
        ensures
            instruction.opcode == opcode,
    {
        Instruction { opcode }
    }
}

} // verus!
