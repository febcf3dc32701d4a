//! The virtual machine: a register file, a program of bytes and the
//! fetch, decode and execute step that runs it.
//!
//! An instruction is one opcode byte followed by its operand bytes. A step
//! either runs one whole instruction or, where the instruction cannot be run,
//! stops the machine and says why. A step that stops on a fault leaves the
//! whole machine as it found it; `HLT` and an opcode that the machine does not
//! execute leave the program counter behind the opcode byte.

use crate::instruction::{byte_to_opcode, Opcode};
use vstd::prelude::*;

verus! {

/// The number of registers of the machine.
pub const REGISTERS: usize = 6;

/// The machine: its registers, its program and where it stands in it.
pub struct VM {
    /// The register file.
    pub registers: [i32; REGISTERS],
    /// The offset in `program` of the next byte to fetch.
    pub pc: usize,
    /// The bytecode of the program.
    pub program: Vec<u8>,
    /// The remainder of the last `DIV`.
    pub remainder: u32,
    /// The result of the last comparison.
    pub equal_flag: bool,
}

/// How one step ended.
#[derive(Debug, PartialEq, Eq, Clone, Copy, Structural)]
pub enum Status {
    /// An instruction was executed and the machine goes on.
    Continue,
    /// The program counter stood at or behind the end of the program.
    EndOfProgram,
    /// `HLT` was executed.
    Halt,
    /// The opcode byte selects `IGL`, or `ALOC`, which the machine reserves
    /// and does not execute.
    IllegalOpcode,
    /// The program ends before the last operand byte of the instruction.
    TruncatedInstruction,
    /// An operand names a register that the machine does not have.
    InvalidRegister,
    /// `DIV` with a divisor of zero.
    DivisionByZero,
    /// The result of `ADD`, `SUB`, `MUL` or `DIV` does not fit a register.
    Overflow,
    /// A jump by or to a negative value, or to an offset that is below zero
    /// or above what a program counter can hold.
    InvalidJump,
}

/// The machine as a mathematical value.
#[verifier::ext_equal]
pub struct VmState {
    pub registers: Seq<i32>,
    pub pc: int,
    pub program: Seq<u8>,
    pub remainder: u32,
    pub equal_flag: bool,
}

impl View for VM {
    type V = VmState;

    open spec fn view(&self) -> VmState {
        VmState {
            registers: self.registers@,
            pc: self.pc as int,
            program: self.program@,
            remainder: self.remainder,
            equal_flag: self.equal_flag,
        }
    }
}

/// The 16-bit value of two bytes, the high byte first.
pub open spec fn word_value(high: u8, low: u8) -> int {
    high as int * 256 + low as int
}

/// The number of operand bytes that follow the opcode byte.
pub open spec fn operand_len(op: Opcode) -> int {
    match op {
        Opcode::HLT | Opcode::ALOC | Opcode::IGL => 0,
        Opcode::JMP | Opcode::JMPF | Opcode::JMPB | Opcode::JEQ => 1,
        _ => 3,
    }
}

/// The magnitude of an integer.
pub open spec fn magnitude(x: int) -> int {
    if x < 0 {
        -x
    } else {
        x
    }
}

/// The quotient of `a` by `b`, rounded towards zero.
pub open spec fn quotient(a: int, b: int) -> int
    recommends
        b != 0,
{
    if (a < 0) == (b < 0) {
        magnitude(a) / magnitude(b)
    } else {
        -(magnitude(a) / magnitude(b))
    }
}

/// What is left of `a` after the division by `b` that rounds towards zero: it
/// has the sign of `a`.
pub open spec fn rest(a: int, b: int) -> int
    recommends
        b != 0,
{
    a - b * quotient(a, b)
}

/// A signed 32-bit value read as an unsigned one, in two's complement.
pub open spec fn as_unsigned(x: int) -> int {
    if x < 0 {
        x + 0x1_0000_0000
    } else {
        x
    }
}

/// Whether the machine has a register of this index.
pub open spec fn is_register(index: u8) -> bool {
    (index as int) < REGISTERS as int
}

/// Whether a register can hold the value.
pub open spec fn fits_register(x: int) -> bool {
    i32::MIN <= x <= i32::MAX
}

/// The machine `s` with its program counter at `pc`.
pub open spec fn at_pc(s: VmState, pc: int) -> VmState {
    VmState { pc, ..s }
}

/// `LOAD reg, imm16`: the register takes the 16-bit value.
pub open spec fn spec_load(s: VmState) -> (VmState, Status) {
    let register = s.program[s.pc + 1];
    let number = word_value(s.program[s.pc + 2], s.program[s.pc + 3]);
    if !is_register(register) {
        (s, Status::InvalidRegister)
    } else {
        (
            VmState {
                registers: s.registers.update(register as int, number as i32),
                pc: s.pc + 4,
                ..s
            },
            Status::Continue,
        )
    }
}

/// The exact result of an arithmetic opcode on two register values.
pub open spec fn arithmetic_result(op: Opcode, x: int, y: int) -> int {
    match op {
        Opcode::ADD => x + y,
        Opcode::SUB => x - y,
        Opcode::MUL => x * y,
        _ => quotient(x, y),
    }
}

/// `ADD`, `SUB`, `MUL`, `DIV reg_a, reg_b, reg_dst`: the destination takes
/// the result; `DIV` also sets the remainder.
pub open spec fn spec_arithmetic(s: VmState, op: Opcode) -> (VmState, Status) {
    let a = s.program[s.pc + 1];
    let b = s.program[s.pc + 2];
    let destination = s.program[s.pc + 3];
    if !is_register(a) || !is_register(b) || !is_register(destination) {
        (s, Status::InvalidRegister)
    } else {
        let x = s.registers[a as int] as int;
        let y = s.registers[b as int] as int;
        if op == Opcode::DIV && y == 0 {
            (s, Status::DivisionByZero)
        } else if !fits_register(arithmetic_result(op, x, y)) {
            (s, Status::Overflow)
        } else {
            (
                VmState {
                    registers: s.registers.update(
                        destination as int,
                        arithmetic_result(op, x, y) as i32,
                    ),
                    pc: s.pc + 4,
                    remainder: if op == Opcode::DIV {
                        as_unsigned(rest(x, y)) as u32
                    } else {
                        s.remainder
                    },
                    ..s
                },
                Status::Continue,
            )
        }
    }
}

/// What a comparison opcode says of two register values.
pub open spec fn comparison_result(op: Opcode, x: int, y: int) -> bool {
    match op {
        Opcode::EQ => x == y,
        Opcode::NEQ => x != y,
        Opcode::GT => x > y,
        Opcode::LT => x < y,
        Opcode::GTQ => x >= y,
        _ => x <= y,
    }
}

/// `EQ`, `NEQ`, `GT`, `LT`, `GTQ`, `LTQ reg_a, reg_b, unused`: the flag takes
/// the result of the comparison. The third operand byte is passed over.
pub open spec fn spec_compare(s: VmState, op: Opcode) -> (VmState, Status) {
    let a = s.program[s.pc + 1];
    let b = s.program[s.pc + 2];
    if !is_register(a) || !is_register(b) {
        (s, Status::InvalidRegister)
    } else {
        (
            VmState {
                pc: s.pc + 4,
                equal_flag: comparison_result(
                    op,
                    s.registers[a as int] as int,
                    s.registers[b as int] as int,
                ),
                ..s
            },
            Status::Continue,
        )
    }
}

/// Where a jump opcode sends the program counter. `next` is the offset behind
/// the instruction and `value` the content of its register.
pub open spec fn jump_target(op: Opcode, next: int, value: int, equal_flag: bool) -> int {
    match op {
        Opcode::JMP => value,
        Opcode::JMPF => next + value,
        Opcode::JMPB => next - value,
        _ => if equal_flag {
            value
        } else {
            next
        },
    }
}

/// `JMP`, `JMPF`, `JMPB`, `JEQ reg`: the program counter moves to the value
/// of the register, forwards or backwards by it, or to it if the flag is set.
pub open spec fn spec_jump(s: VmState, op: Opcode) -> (VmState, Status) {
    let register = s.program[s.pc + 1];
    if !is_register(register) {
        (s, Status::InvalidRegister)
    } else {
        let value = s.registers[register as int] as int;
        let target = jump_target(op, s.pc + 2, value, s.equal_flag);
        if op == Opcode::JEQ && !s.equal_flag {
            (at_pc(s, s.pc + 2), Status::Continue)
        } else if value < 0 || target < 0 || target > usize::MAX {
            (s, Status::InvalidJump)
        } else {
            (at_pc(s, target), Status::Continue)
        }
    }
}

/// One step of the machine: the machine after it, and how it ended.
pub open spec fn spec_step(s: VmState) -> (VmState, Status) {
    if s.pc < 0 || s.pc >= s.program.len() {
        (s, Status::EndOfProgram)
    } else {
        let op = byte_to_opcode(s.program[s.pc]);
        match op {
            Opcode::HLT => (at_pc(s, s.pc + 1), Status::Halt),
            Opcode::IGL | Opcode::ALOC => (at_pc(s, s.pc + 1), Status::IllegalOpcode),
            _ => if s.pc + 1 + operand_len(op) > s.program.len() {
                (s, Status::TruncatedInstruction)
            } else {
                match op {
                    Opcode::LOAD => spec_load(s),
                    Opcode::ADD | Opcode::SUB | Opcode::MUL | Opcode::DIV => spec_arithmetic(
                        s,
                        op,
                    ),
                    Opcode::JMP | Opcode::JMPF | Opcode::JMPB | Opcode::JEQ => spec_jump(s, op),
                    _ => spec_compare(s, op),
                }
            },
        }
    }
}

/// The machine after steps from `s` until one ends otherwise than with
/// `Status::Continue`, or until `fuel` steps were made.
pub open spec fn spec_run(s: VmState, fuel: nat) -> VmState
    decreases fuel,
{
    if fuel == 0 {
        s
    } else if spec_step(s).1 != Status::Continue {
        spec_step(s).0
    } else {
        spec_run(spec_step(s).0, (fuel - 1) as nat)
    }
}

/// The quotient and the remainder of a division that rounds towards zero,
/// or `None` where the quotient does not fit a register.
fn divide(x: i32, y: i32) -> (result: Option<(i32, u32)>)
    requires
        y != 0,
    ensures
        result == if fits_register(quotient(x as int, y as int)) {
            Some(
                (
                    quotient(x as int, y as int) as i32,
                    as_unsigned(rest(x as int, y as int)) as u32,
                ),
            )
        } else {
            None
        },
{
    proof {
        lemma_quotient_and_rest(x as int, y as int);
    }
    match x.checked_div(y) {
        None => None,
        Some(q) => {
            match x.checked_rem(y) {
                None => {
                    assert(x == i32::MIN && y == -1);
                    assert(quotient(x as int, y as int) == 0x8000_0000) by (nonlinear_arith)
                        requires
                            x == -0x8000_0000,
                            y == -1,
                    ;
                    None
                },
                Some(r) => {
                    let unsigned = #[verifier::truncate] (r as u32);
                    assert((r as u32) as int == if r < 0 {
                        r + 0x1_0000_0000
                    } else {
                        r as int
                    }) by (bit_vector);
                    Some((q, unsigned))
                },
            }
        },
    }
}

/// The quotient that rounds towards zero, written over the four cases of the
/// signs, and the remainder that goes with it.
proof fn lemma_quotient_and_rest(x: int, d: int)
    requires
        d != 0,
    ensures
        x == 0 ==> quotient(x, d) == 0 && rest(x, d) == 0,
        x > 0 && d > 0 ==> quotient(x, d) == x / d && rest(x, d) == x % d,
        x < 0 && d < 0 ==> quotient(x, d) == (x * -1) / (d * -1) && rest(x, d) == ((x * -1) % (d
            * -1)) * -1,
        x < 0 && d > 0 ==> quotient(x, d) == ((x * -1) / d) * -1 && rest(x, d) == ((x * -1) % d)
            * -1,
        x > 0 && d < 0 ==> quotient(x, d) == (x / (d * -1)) * -1 && rest(x, d) == x % (d * -1),
        -0x8000_0000 <= x < 0x8000_0000 && -0x8000_0000 <= d < 0x8000_0000 ==> -0x8000_0000
            < rest(x, d) < 0x8000_0000,
{
    let a = magnitude(x);
    let b = magnitude(d);
    let q = a / b;
    vstd::arithmetic::div_mod::lemma_fundamental_div_mod(a, b);
    vstd::arithmetic::div_mod::lemma_mod_bound(a, b);
    assert(a == b * q + a % b);
    assert(d * q == if d < 0 {
        -(b * q)
    } else {
        b * q
    }) by (nonlinear_arith)
        requires
            b == magnitude(d),
    ;
    assert(d * (-q) == -(d * q)) by (nonlinear_arith);
    if x == 0 {
        vstd::arithmetic::div_mod::lemma_div_basics(b);
        assert(q == 0);
    }
}

impl VM {
    /// A machine with an empty program and every register at zero.
    pub fn new() -> (vm: VM)
        ensures
            vm@.registers == Seq::new(REGISTERS as nat, |i: int| 0i32),
            vm@.pc == 0,
            vm@.program == Seq::<u8>::empty(),
            vm@.remainder == 0,
            !vm@.equal_flag,
    {
        VM {
            registers: [0; REGISTERS],
            program: Vec::new(),
            pc: 0,
            remainder: 0,
            equal_flag: false,
        }
    }

    /// Reads the byte at the program counter as an opcode and moves the
    /// counter behind it. At or behind the end of the program there is
    /// nothing to read and the machine stays as it is.
    pub fn decode_opcode(&mut self) -> (opcode: Option<Opcode>)
        ensures
            match opcode {
                Some(opcode) => 0 <= old(self)@.pc < old(self)@.program.len() && opcode
                    == byte_to_opcode(old(self)@.program[old(self)@.pc]) && final(self)@ == at_pc(
                    old(self)@,
                    old(self)@.pc + 1,
                ),
                None => old(self)@.pc >= old(self)@.program.len() && final(self)@ == old(self)@,
            },
    {
        match self.next_8_bits() {
            Some(byte) => Some(Opcode::from(byte)),
            None => None,
        }
    }

    /// Reads the byte at the program counter and moves the counter behind it.
    /// At or behind the end of the program there is nothing to read and the
    /// machine stays as it is.
    pub fn next_8_bits(&mut self) -> (result: Option<u8>)
        ensures
            match result {
                Some(byte) => 0 <= old(self)@.pc < old(self)@.program.len() && byte == old(
                    self,
                )@.program[old(self)@.pc] && final(self)@ == at_pc(old(self)@, old(self)@.pc + 1),
                None => old(self)@.pc >= old(self)@.program.len() && final(self)@ == old(self)@,
            },
    {
        if self.pc >= self.program.len() {
            return None;
        }
        let result = self.program[self.pc];
        self.pc += 1;
        Some(result)
    }

    /// Reads the two bytes at the program counter as one value, the high
    /// byte first, and moves the counter behind them. Where the program holds
    /// fewer than two bytes from the counter on, nothing is read and the
    /// machine stays as it is.
    pub fn next_16_bits(&mut self) -> (result: Option<u16>)
        ensures
            match result {
                Some(word) => 0 <= old(self)@.pc && old(self)@.pc + 1 < old(self)@.program.len()
                    && word == word_value(
                    old(self)@.program[old(self)@.pc],
                    old(self)@.program[old(self)@.pc + 1],
                ) && final(self)@ == at_pc(old(self)@, old(self)@.pc + 2),
                None => old(self)@.pc + 1 >= old(self)@.program.len() && final(self)@ == old(
                    self,
                )@,
            },
    {
        if self.pc >= self.program.len() || self.program.len() - self.pc < 2 {
            return None;
        }
        let high = self.program[self.pc];
        let low = self.program[self.pc + 1];
        let result = ((high as u16) << 8) | (low as u16);
        assert((((high as u16) << 8) | (low as u16)) == high * 256 + low) by (bit_vector);
        self.pc += 2;
        Some(result)
    }

    /// Appends one byte to the program.
    pub fn add_byte(&mut self, byte: u8)
        ensures
            final(self)@ == (VmState { program: old(self)@.program.push(byte), ..old(self)@ }),
    {
        self.program.push(byte)
    }

    /// Appends bytes to the program, in their order, without executing any.
    pub fn append_bytes(&mut self, bytes: &[u8])
        ensures
            final(self)@ == (VmState { program: old(self)@.program + bytes@, ..old(self)@ }),
    {
        let mut i: usize = 0;
        while i < bytes.len()
            invariant
                i <= bytes.len(),
                self@ == (VmState {
                    program: old(self)@.program + bytes@.take(i as int),
                    ..old(self)@
                }),
            decreases bytes.len() - i,
        {
            self.add_byte(bytes[i]);
            i += 1;
            assert(bytes@.take(i as int) == bytes@.take(i - 1).push(bytes@[i - 1]));
        }
        assert(bytes@.take(i as int) == bytes@);
    }

    /// `ADD`, `SUB`, `MUL` or `DIV`, with the program counter behind the
    /// opcode byte of an instruction that began at `start`.
    fn execute_arithmetic(&mut self, opcode: Opcode, start: usize) -> (status: Status)
        requires
            opcode == Opcode::ADD || opcode == Opcode::SUB || opcode == Opcode::MUL || opcode
                == Opcode::DIV,
            old(self).pc == start + 1,
            start + 4 <= old(self).program.len(),
        ensures
            (final(self)@, status) == spec_arithmetic(at_pc(old(self)@, start as int), opcode),
    {
        let a = self.next_8_bits().unwrap() as usize;
        let b = self.next_8_bits().unwrap() as usize;
        let destination = self.next_8_bits().unwrap() as usize;
        if a >= REGISTERS || b >= REGISTERS || destination >= REGISTERS {
            self.pc = start;
            return Status::InvalidRegister;
        }
        let value1 = self.registers[a];
        let value2 = self.registers[b];
        match opcode {
            Opcode::DIV => {
                if value2 == 0 {
                    self.pc = start;
                    return Status::DivisionByZero;
                }
                match divide(value1, value2) {
                    None => {
                        self.pc = start;
                        Status::Overflow
                    },
                    Some((quotient, remainder)) => {
                        self.registers[destination] = quotient;
                        self.remainder = remainder;
                        Status::Continue
                    },
                }
            },
            _ => {
                let result = match opcode {
                    Opcode::ADD => value1.checked_add(value2),
                    Opcode::SUB => value1.checked_sub(value2),
                    _ => value1.checked_mul(value2),
                };
                match result {
                    None => {
                        self.pc = start;
                        Status::Overflow
                    },
                    Some(value) => {
                        self.registers[destination] = value;
                        Status::Continue
                    },
                }
            },
        }
    }

    /// `EQ`, `NEQ`, `GT`, `LT`, `GTQ` or `LTQ`, with the program counter
    /// behind the opcode byte of an instruction that began at `start`.
    fn execute_compare(&mut self, opcode: Opcode, start: usize) -> (status: Status)
        requires
            opcode == Opcode::EQ || opcode == Opcode::NEQ || opcode == Opcode::GT || opcode
                == Opcode::LT || opcode == Opcode::GTQ || opcode == Opcode::LTQ,
            old(self).pc == start + 1,
            start + 4 <= old(self).program.len(),
        ensures
            (final(self)@, status) == spec_compare(at_pc(old(self)@, start as int), opcode),
    {
        let a = self.next_8_bits().unwrap() as usize;
        let b = self.next_8_bits().unwrap() as usize;
        if a >= REGISTERS || b >= REGISTERS {
            self.pc = start;
            return Status::InvalidRegister;
        }
        let value1 = self.registers[a];
        let value2 = self.registers[b];
        self.equal_flag = match opcode {
            Opcode::EQ => value1 == value2,
            Opcode::NEQ => value1 != value2,
            Opcode::GT => value1 > value2,
            Opcode::LT => value1 < value2,
            Opcode::GTQ => value1 >= value2,
            _ => value1 <= value2,
        };
        let _ = self.next_8_bits();
        Status::Continue
    }

    /// `JMP`, `JMPF`, `JMPB` or `JEQ`, with the program counter behind the
    /// opcode byte of an instruction that began at `start`.
    fn execute_jump(&mut self, opcode: Opcode, start: usize) -> (status: Status)
        requires
            opcode == Opcode::JMP || opcode == Opcode::JMPF || opcode == Opcode::JMPB || opcode
                == Opcode::JEQ,
            old(self).pc == start + 1,
            start + 2 <= old(self).program.len(),
        ensures
            (final(self)@, status) == spec_jump(at_pc(old(self)@, start as int), opcode),
    {
        let register = self.next_8_bits().unwrap() as usize;
        if register >= REGISTERS {
            self.pc = start;
            return Status::InvalidRegister;
        }
        let value = self.registers[register];
        if opcode == Opcode::JEQ && !self.equal_flag {
            return Status::Continue;
        }
        if value < 0 {
            self.pc = start;
            return Status::InvalidJump;
        }
        let distance = value as usize;
        let target = match opcode {
            Opcode::JMPF => self.pc.checked_add(distance),
            Opcode::JMPB => self.pc.checked_sub(distance),
            _ => Some(distance),
        };
        match target {
            None => {
                self.pc = start;
                Status::InvalidJump
            },
            Some(target) => {
                self.pc = target;
                Status::Continue
            },
        }
    }

    /// Executes the instruction at the program counter and says how the step
    /// ended. Every status but `Status::Continue` stops the machine.
    pub fn execute_instruction(&mut self) -> (status: Status)
        ensures
            (final(self)@, status) == spec_step(old(self)@),
    {
        let start = self.pc;
        let opcode = match self.decode_opcode() {
            Some(opcode) => opcode,
            None => {
                return Status::EndOfProgram;
            },
        };
        let operands = self.program.len() - self.pc;
        match opcode {
            Opcode::HLT => Status::Halt,
            Opcode::IGL | Opcode::ALOC => Status::IllegalOpcode,
            Opcode::LOAD => {
                if operands < 3 {
                    self.pc = start;
                    return Status::TruncatedInstruction;
                }
                let register = self.next_8_bits().unwrap() as usize;
                let number = self.next_16_bits().unwrap();
                if register >= REGISTERS {
                    self.pc = start;
                    return Status::InvalidRegister;
                }
                self.registers[register] = number as i32;
                Status::Continue
            },
            Opcode::ADD | Opcode::SUB | Opcode::MUL | Opcode::DIV => {
                if operands < 3 {
                    self.pc = start;
                    return Status::TruncatedInstruction;
                }
                self.execute_arithmetic(opcode, start)
            },
            Opcode::JMP | Opcode::JMPF | Opcode::JMPB | Opcode::JEQ => {
                if operands < 1 {
                    self.pc = start;
                    return Status::TruncatedInstruction;
                }
                self.execute_jump(opcode, start)
            },
            Opcode::EQ | Opcode::NEQ | Opcode::GT | Opcode::LT | Opcode::GTQ | Opcode::LTQ => {
                if operands < 3 {
                    self.pc = start;
                    return Status::TruncatedInstruction;
                }
                self.execute_compare(opcode, start)
            },
        }
    }

    /// Executes one instruction. The result is `true` if the machine has
    /// stopped: at the end of the program, on `HLT`, or on a fault.
    pub fn run_once(&mut self) -> (finished: bool)
        ensures
            final(self)@ == spec_step(old(self)@).0,
            finished == (spec_step(old(self)@).1 != Status::Continue),
    {
        let status = self.execute_instruction();
        status != Status::Continue
    }

    /// Executes instructions until the machine stops. A program that has not
    /// stopped after `u64::MAX` steps is left where it stands.
    pub fn run(&mut self)
        ensures
            final(self)@ == spec_run(old(self)@, u64::MAX as nat),
    {
        let mut is_done = false;
        let mut steps: u64 = 0;
        while !is_done && steps < u64::MAX
            invariant
                spec_run(old(self)@, u64::MAX as nat) == if is_done {
                    self@
                } else {
                    spec_run(self@, (u64::MAX - steps) as nat)
                },
            decreases u64::MAX - steps + if is_done { 0int } else { 1int },
        {
            is_done = self.run_once();
            steps += 1;
        }
    }
}

/// A step with the program counter at or behind the end of the program
/// stops the machine and leaves it as it is.
pub proof fn lemma_step_at_end(s: VmState)
    requires
        s.pc >= s.program.len(),
    ensures
        spec_step(s) == (s, Status::EndOfProgram),
{
}

/// A step on an instruction whose operand bytes the program does not all
/// hold stops the machine and leaves it as it is.
pub proof fn lemma_step_on_truncated_instruction(s: VmState)
    requires
        0 <= s.pc < s.program.len(),
        s.pc + 1 + operand_len(byte_to_opcode(s.program[s.pc])) > s.program.len(),
    ensures
        spec_step(s) == (s, Status::TruncatedInstruction),
{
}

/// A step changes neither the program nor the number of registers.
pub proof fn lemma_step_keeps_program(s: VmState)
    requires
        s.registers.len() == REGISTERS,
    ensures
        spec_step(s).0.program == s.program,
        spec_step(s).0.registers.len() == s.registers.len(),
{
}

/// A step that stops the machine otherwise than on `HLT` or on an opcode
/// that the machine does not execute leaves the machine as it is.
pub proof fn lemma_fault_keeps_machine(s: VmState)
    ensures
        spec_step(s).1 != Status::Continue && spec_step(s).1 != Status::Halt && spec_step(s).1
            != Status::IllegalOpcode ==> spec_step(s).0 == s,
{
}

/// Running changes neither the program nor the number of registers.
pub proof fn lemma_run_keeps_program(s: VmState, fuel: nat)
    requires
        s.registers.len() == REGISTERS,
    ensures
        spec_run(s, fuel).program == s.program,
        spec_run(s, fuel).registers.len() == s.registers.len(),
    decreases fuel,
{
    if fuel > 0 {
        lemma_step_keeps_program(s);
        if spec_step(s).1 == Status::Continue {
            lemma_run_keeps_program(spec_step(s).0, (fuel - 1) as nat);
        }
    }
}

} // verus!
