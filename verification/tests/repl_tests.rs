use regvm::assembler::instruction_parser::{AssemblerInstruction, EncodeError};
use regvm::assembler::token::Token;
use regvm::instruction::Opcode;
use regvm::hex::parse_hex;
use regvm::repl::{Output, Repl};
use regvm::vm::Status;

#[test]
fn new_shell_is_empty() {
    let repl = Repl::new();
    assert_eq!(repl.commands, Vec::<String>::new());
    assert_eq!(repl.vm.program, Vec::<u8>::new());
    assert_eq!(repl.vm.registers, [0; 6]);
    assert_eq!(repl.vm.pc, 0);
}

#[test]
fn line_of_assembly_is_appended_and_stepped() {
    let mut repl = Repl::new();
    assert_eq!(
        repl.execute_command("load $1 #1000"),
        Output::Executed(vec![0, 1, 3, 232], Status::Continue)
    );
    assert_eq!(repl.vm.registers[1], 1000);
    assert_eq!(repl.vm.pc, 4);
    repl.vm.registers[0] = 999;
    assert_eq!(
        repl.execute_command("add $0 $1 $2"),
        Output::Executed(vec![1, 0, 1, 2], Status::Continue)
    );
    assert_eq!(repl.vm.registers[2], 1999);
    assert_eq!(repl.vm.program, vec![0, 1, 3, 232, 1, 0, 1, 2]);
    assert_eq!(repl.commands, Vec::<String>::new());
}

#[test]
fn line_without_an_instruction_leaves_the_machine() {
    let mut repl = Repl::new();
    assert_eq!(repl.execute_command("load $1 #"), Output::Rejected);
    assert_eq!(repl.execute_command(""), Output::Rejected);
    assert_eq!(repl.vm.program, Vec::<u8>::new());
    assert_eq!(repl.vm.pc, 0);
}

#[test]
fn directive_form_has_no_encoding() {
    let mut repl = Repl::new();
    assert_eq!(
        repl.execute_command(" .registers"),
        Output::Unencodable(EncodeError::MissingOpcode)
    );
    assert_eq!(repl.vm.program, Vec::<u8>::new());
    assert_eq!(repl.vm.pc, 0);
}

#[test]
fn program_of_assembly_runs_line_by_line() {
    let mut repl = Repl::new();
    let outputs = repl.run_program(vec![
        ".registers",
        ".program",
        "load $1 #1000",
        "load $0 #999",
        "add $0 $1 $2",
        "sub $1 $0 $1",
        "load $3 #4",
        "jmpf $3",
        "sub $2 $0 $2",
        "load $4 #4",
        "eq $3 $4 $4",
        ".equal_flag",
        ".registers",
        ".commands",
    ]);
    assert_eq!(
        outputs,
        vec![
            Output::Registers([0; 6]),
            Output::Program(vec![]),
            Output::Executed(vec![0, 1, 3, 232], Status::Continue),
            Output::Executed(vec![0, 0, 3, 231], Status::Continue),
            Output::Executed(vec![1, 0, 1, 2], Status::Continue),
            Output::Executed(vec![2, 1, 0, 1], Status::Continue),
            Output::Executed(vec![0, 3, 0, 4], Status::Continue),
            Output::Executed(vec![7, 3], Status::Continue),
            Output::Executed(vec![2, 2, 0, 2], Status::EndOfProgram),
            Output::Executed(vec![0, 4, 0, 4], Status::Continue),
            Output::Executed(vec![9, 3, 4, 4], Status::Continue),
            Output::EqualFlag(true),
            Output::Registers([999, 1, 1999, 4, 4, 0]),
            Output::Commands(vec![]),
        ]
    );
    assert_eq!(repl.vm.pc, 34);
    assert_eq!(repl.vm.program.len(), 34);
}

#[test]
fn quit_ends_the_program() {
    let mut repl = Repl::new();
    let outputs = repl.run_program(vec!["hlt", ".quit", "load $1 #5", ".registers"]);
    assert_eq!(outputs, vec![Output::Executed(vec![5], Status::Halt), Output::Quit]);
    assert_eq!(repl.vm.program, vec![5]);
    let mut repl = Repl::new();
    let outputs = repl.run_hex_program(vec!["05", ".quit", "00 01 00 05"]);
    assert_eq!(outputs, vec![Output::Executed(vec![5], Status::Halt), Output::Quit]);
    assert_eq!(repl.commands, vec!["05".to_string(), ".quit".to_string()]);
    assert_eq!(repl.run_program(vec![]), vec![]);
}

#[test]
fn program_of_hex_runs_line_by_line() {
    let mut repl = Repl::new();
    let outputs = repl.run_hex_program(vec![
        ".registers",
        ".program",
        "00 01 03 E8",
        ".registers",
        ".commands",
        ".program",
        ".nothing",
    ]);
    let lines = |n: usize| -> Vec<String> {
        [".registers", ".program", "00 01 03 E8", ".registers", ".commands"][..n]
            .iter()
            .map(|line| line.to_string())
            .collect()
    };
    assert_eq!(
        outputs,
        vec![
            Output::Registers([0; 6]),
            Output::Program(vec![]),
            Output::Executed(vec![0, 1, 3, 232], Status::Continue),
            Output::Registers([0, 1000, 0, 0, 0, 0]),
            Output::Commands(lines(5)),
            Output::Program(vec![0, 1, 3, 232]),
            Output::Nothing,
        ]
    );
    assert_eq!(repl.commands.len(), 7);
}

#[test]
fn line_that_is_not_hex_still_steps() {
    let mut repl = Repl::new();
    repl.vm.append_bytes(&[0, 2, 0, 9]);
    assert_eq!(repl.execute_hex_command("00 zz"), Output::HexRejected(Status::Continue));
    assert_eq!(repl.vm.registers[2], 9);
    assert_eq!(repl.vm.program, vec![0, 2, 0, 9]);
    assert_eq!(repl.execute_hex_command("load $1 #1"), Output::HexRejected(Status::EndOfProgram));
    assert_eq!(repl.commands, vec!["00 zz".to_string(), "load $1 #1".to_string()]);
}

#[test]
fn directives_are_told_by_their_dot() {
    let repl = Repl::new();
    assert_eq!(repl.is_directive(".registers"), true);
    assert_eq!(repl.is_directive("."), true);
    assert_eq!(repl.is_directive(".unknown thing"), true);
    assert_eq!(repl.is_directive(""), false);
    assert_eq!(repl.is_directive(" .registers"), false);
    assert_eq!(repl.is_directive("load .x"), false);
}

#[test]
fn directives_show_the_shell() {
    let mut repl = Repl::new();
    repl.vm.append_bytes(&[1, 2]);
    repl.vm.registers = [6, 5, 4, 3, 2, 1];
    repl.vm.equal_flag = true;
    repl.commands.push("one".to_string());
    assert_eq!(repl.run_directive(".program"), Output::Program(vec![1, 2]));
    assert_eq!(repl.run_directive(".commands"), Output::Commands(vec!["one".to_string()]));
    assert_eq!(repl.run_directive(".registers"), Output::Registers([6, 5, 4, 3, 2, 1]));
    assert_eq!(repl.run_directive(".equal_flag"), Output::EqualFlag(true));
    assert_eq!(repl.run_directive(".quit"), Output::Quit);
    for other in ["", ".", ".quit ", " .quit", ".QUIT", ".registers $1", "quit", ".programs"] {
        assert_eq!(repl.run_directive(other), Output::Nothing, "{:?}", other);
    }
}

#[test]
fn hex_lines_are_groups_with_one_blank_between() {
    assert_eq!(parse_hex("00 01 03 E8"), Ok(vec![0, 1, 3, 232]));
    assert_eq!(parse_hex("00 01 03 e8"), Ok(vec![0, 1, 3, 232]));
    assert_eq!(parse_hex("ff"), Ok(vec![255]));
    assert_eq!(parse_hex("F"), Ok(vec![15]));
    assert_eq!(parse_hex("0"), Ok(vec![0]));
    assert_eq!(parse_hex("000000ff 0000"), Ok(vec![255, 0]));
    assert_eq!(parse_hex("+a +0F"), Ok(vec![10, 15]));
    assert_eq!(Repl::new().parse_hex("aB Cd"), Ok(vec![0xab, 0xcd]));
    for line in [
        "", " ", "00 ", " 00", "00  01", "100", "fff", "0x10", "g", "-1", "+", "++1", "1+",
        "00\t01", "00\n", "1_0", "zz", "０",
    ] {
        assert_eq!(parse_hex(line), Err(()), "{:?}", line);
    }
}

#[test]
fn hex_parsing_agrees_with_the_standard_library() {
    let groups = [
        "0", "7", "a", "F", "10", "ff", "FF", "100", "0ff", "+1", "+", "", "-1", "g1", "1g",
        "00000000000000a1", "+00ff", "+100", "é",
    ];
    for group in groups {
        let expected = u8::from_str_radix(group, 16).map(|byte| vec![byte]).map_err(|_| ());
        assert_eq!(parse_hex(group), expected, "{:?}", group);
    }
}

#[test]
fn instruction_is_encoded_appended_and_stepped() {
    let mut repl = Repl::new();
    let load = AssemblerInstruction {
        opcode: Some(Token::Op { code: Opcode::LOAD }),
        label: None,
        directive: None,
        operand1: Some(Token::Register { reg_num: 5 }),
        operand2: Some(Token::Number { value: 258 }),
        operand3: None,
    };
    assert_eq!(repl.execute_instruction(&load), Output::Executed(vec![0, 5, 1, 2], Status::Continue));
    assert_eq!(repl.vm.registers[5], 258);
    let bad = AssemblerInstruction {
        opcode: Some(Token::Op { code: Opcode::LOAD }),
        label: None,
        directive: None,
        operand1: Some(Token::Op { code: Opcode::LOAD }),
        operand2: None,
        operand3: None,
    };
    assert_eq!(repl.execute_instruction(&bad), Output::Unencodable(EncodeError::InvalidOperand));
    assert_eq!(repl.vm.program, vec![0, 5, 1, 2]);
    assert_eq!(repl.vm.pc, 4);
}
