use regvm::assembler::directive_parser::directive;
use regvm::assembler::instruction_parser::{instruction, instruction_pure, AssemblerInstruction};
use regvm::assembler::opcode_parser::opcode;
use regvm::assembler::operand_parser::integer_operand;
use regvm::assembler::{program, program_classified};
use regvm::assembler::register_parser::register;
use regvm::assembler::token::Token;
use regvm::assembler::Assembler;
use regvm::instruction::Opcode;

fn plain(
    code: Opcode,
    operand1: Option<Token>,
    operand2: Option<Token>,
    operand3: Option<Token>,
) -> AssemblerInstruction {
    AssemblerInstruction {
        opcode: Some(Token::Op { code }),
        label: None,
        directive: None,
        operand1,
        operand2,
        operand3,
    }
}

fn named(
    name: &str,
    operand1: Option<Token>,
    operand2: Option<Token>,
    operand3: Option<Token>,
) -> AssemblerInstruction {
    AssemblerInstruction {
        opcode: None,
        label: None,
        directive: Some(Token::Directive { name: name.to_string() }),
        operand1,
        operand2,
        operand3,
    }
}

fn reg(reg_num: u8) -> Option<Token> {
    Some(Token::Register { reg_num })
}

fn num(value: i32) -> Option<Token> {
    Some(Token::Number { value })
}

#[test]
fn load_line_is_parsed() {
    assert_eq!(
        Assembler::parse_instruction("load $1 #1000"),
        Ok(plain(Opcode::LOAD, reg(1), num(1000), None))
    );
}

#[test]
fn add_line_is_parsed() {
    assert_eq!(
        Assembler::parse_instruction("add $0 $1 $2"),
        Ok(plain(Opcode::ADD, reg(0), reg(1), reg(2)))
    );
}

#[test]
fn hlt_line_has_no_operands() {
    assert_eq!(Assembler::parse_instruction("hlt\n"), Ok(plain(Opcode::HLT, None, None, None)));
    assert_eq!(Assembler::parse_instruction("hlt"), Ok(plain(Opcode::HLT, None, None, None)));
}

#[test]
fn unknown_mnemonic_is_the_illegal_opcode() {
    assert_eq!(Assembler::parse_instruction("frob $1"), Ok(plain(Opcode::IGL, reg(1), None, None)));
    assert_eq!(Assembler::parse_instruction("LOAD $1"), Ok(plain(Opcode::IGL, reg(1), None, None)));
    assert_eq!(Assembler::parse_instruction("aloc $1"), Ok(plain(Opcode::IGL, reg(1), None, None)));
    assert_eq!(Assembler::parse_instruction("ładuj"), Ok(plain(Opcode::IGL, None, None, None)));
}

#[test]
fn first_operand_may_be_a_number() {
    assert_eq!(
        Assembler::parse_instruction("jmp #5"),
        Ok(plain(Opcode::JMP, num(5), None, None))
    );
    assert_eq!(
        Assembler::parse_instruction("load #1 #2 #3"),
        Ok(plain(Opcode::LOAD, num(1), num(2), num(3)))
    );
}

#[test]
fn white_space_between_tokens_does_not_count() {
    let expected = plain(Opcode::LOAD, reg(1), num(1000), None);
    for line in [
        "load$1#1000",
        "load $1 #1000 ",
        "load\t$1\r\n#1000\n\n",
        "load   $  1   #  1000   ",
        "load\n$\n1\n#\n1000",
    ] {
        assert_eq!(Assembler::parse_instruction(line).as_ref(), Ok(&expected), "{:?}", line);
    }
}

#[test]
fn line_that_is_not_wholly_consumed_is_rejected() {
    for line in [
        "",
        " ",
        "\n",
        " load $1",
        "load $1 #2 $3 $4",
        "load $1 #2 $3 #4",
        "load $",
        "load #",
        "load $a",
        "load 5",
        "load $1 add",
        "load $1,",
        "load $-1",
        "load #-1",
        "load #+1",
        "1load",
        "$1",
        "#1",
        ".",
        ". registers",
        ".registers $1 $2 $3 $4",
        ".5",
        "load .registers",
        "load\u{a0}$1",
    ] {
        assert_eq!(Assembler::parse_instruction(line), Err(()), "{:?}", line);
    }
}

#[test]
fn register_number_is_at_most_255() {
    assert_eq!(register("$255"), Ok(("", Token::Register { reg_num: 255 })));
    assert_eq!(register("$0255"), Ok(("", Token::Register { reg_num: 255 })));
    assert_eq!(register("$000"), Ok(("", Token::Register { reg_num: 0 })));
    assert_eq!(register("$256"), Err(()));
    assert_eq!(register("$1000"), Err(()));
    assert_eq!(register("$99999999999999999999999999"), Err(()));
    assert_eq!(Assembler::parse_instruction("load $256"), Err(()));
}

#[test]
fn number_is_at_most_the_largest_i32() {
    assert_eq!(integer_operand("#2147483647"), Ok(("", Token::Number { value: 2147483647 })));
    assert_eq!(integer_operand("#0"), Ok(("", Token::Number { value: 0 })));
    assert_eq!(integer_operand("#2147483648"), Err(()));
    assert_eq!(integer_operand("#4294967296"), Err(()));
    assert_eq!(integer_operand("#99999999999999999999999999"), Err(()));
    assert_eq!(Assembler::parse_instruction("load $1 #2147483648"), Err(()));
}

#[test]
fn operand_parsers_hand_back_the_rest() {
    assert_eq!(register("  $ 7  rest"), Ok(("rest", Token::Register { reg_num: 7 })));
    assert_eq!(register("$7$8"), Ok(("$8", Token::Register { reg_num: 7 })));
    assert_eq!(integer_operand(" #12 #13"), Ok(("#13", Token::Number { value: 12 })));
    assert_eq!(integer_operand("#12x"), Ok(("x", Token::Number { value: 12 })));
    assert_eq!(register("#12"), Err(()));
    assert_eq!(integer_operand("$12"), Err(()));
    assert_eq!(register(""), Err(()));
    assert_eq!(integer_operand(""), Err(()));
}

#[test]
fn opcode_parser_takes_the_alphabetic_run() {
    assert_eq!(opcode("load$1"), Ok(("$1", Token::Op { code: Opcode::LOAD })));
    assert_eq!(opcode("jmpf 1"), Ok((" 1", Token::Op { code: Opcode::JMPF })));
    assert_eq!(opcode("gtq"), Ok(("", Token::Op { code: Opcode::GTQ })));
    assert_eq!(opcode("gt"), Ok(("", Token::Op { code: Opcode::GT })));
    assert_eq!(opcode("ltq"), Ok(("", Token::Op { code: Opcode::LTQ })));
    assert_eq!(opcode("lt"), Ok(("", Token::Op { code: Opcode::LT })));
    assert_eq!(opcode("éa1"), Ok(("1", Token::Op { code: Opcode::IGL })));
    assert_eq!(opcode("über jmp"), Ok((" jmp", Token::Op { code: Opcode::IGL })));
    assert_eq!(opcode(""), Err(()));
    assert_eq!(opcode("1"), Err(()));
    assert_eq!(opcode(" load"), Err(()));
    assert_eq!(opcode("_load"), Err(()));
    assert_eq!(opcode("+"), Err(()));
}

#[test]
fn directive_may_follow_white_space() {
    assert_eq!(directive("  .registers"), Ok(("", named("registers", None, None, None))));
    assert_eq!(
        directive("\n.asciiz  $1 #2 $3  tail"),
        Ok(("tail", named("asciiz", reg(1), num(2), reg(3))))
    );
    assert_eq!(
        Assembler::parse_instruction(" .word #7\n"),
        Ok(named("word", num(7), None, None))
    );
    assert_eq!(directive("registers"), Err(()));
    assert_eq!(directive(". registers"), Err(()));
    assert_eq!(directive(""), Err(()));
}

#[test]
fn plain_form_is_tried_before_the_directive() {
    assert_eq!(instruction("hlt .code"), Ok((".code", plain(Opcode::HLT, None, None, None))));
    assert_eq!(instruction(".code hlt"), Ok(("hlt", named("code", None, None, None))));
    assert_eq!(instruction_pure(".code"), Err(()));
    assert_eq!(instruction_pure("hlt  x"), Ok(("x", plain(Opcode::HLT, None, None, None))));
    assert_eq!(instruction("$1"), Err(()));
}

#[test]
fn program_is_one_instruction_or_more() {
    let (rest, parsed) = program("load $0 #100\nadd $0 $0 $1\n.end\nhlt\n#").unwrap();
    assert_eq!(rest, "#");
    assert_eq!(
        parsed.instructions,
        vec![
            plain(Opcode::LOAD, reg(0), num(100), None),
            plain(Opcode::ADD, reg(0), reg(0), reg(1)),
            named("end", None, None, None),
            plain(Opcode::HLT, None, None, None),
        ]
    );
    assert_eq!(program("").map(|found| found.0), Err(()));
    assert_eq!(program("#1 hlt").map(|found| found.0), Err(()));
    let (rest, parsed) = program("hlt").unwrap();
    assert_eq!(rest, "");
    assert_eq!(parsed.to_bytes(), Ok(vec![5]));
}

#[test]
fn names_are_what_the_classification_says() {
    let hlt = plain(Opcode::HLT, None, None, None);
    assert_eq!(Assembler::parse_classified("hlt", &vec![true, true, true]), Ok(hlt));
    assert_eq!(Assembler::parse_classified("hlt", &vec![false, false, false]), Err(()));
    assert_eq!(Assembler::parse_classified("hlt", &vec![true]), Err(()));
    assert_eq!(Assembler::parse_classified("hlt", &vec![]), Err(()));
    assert_eq!(
        Assembler::parse_classified("h1t", &vec![true, true, true, true, true]),
        Ok(plain(Opcode::IGL, None, None, None))
    );
    assert_eq!(
        Assembler::parse_classified("jmp$1", &vec![true, true, true, false, false]),
        Ok(plain(Opcode::JMP, reg(1), None, None))
    );
    assert_eq!(
        Assembler::parse_classified(".go #1", &vec![false, true, true, false, false, false]),
        Ok(named("go", num(1), None, None))
    );
    assert_eq!(
        Assembler::parse_classified(".go #1", &vec![false, true, false, false, false, false]),
        Err(())
    );
}

#[test]
fn alphabetic_is_what_the_standard_library_calls_alphabetic() {
    for line in [
        "load $1 #1000",
        "hlt\n",
        "ładuj $1",
        ".données #1",
        "٣",
        "a٣",
        "ǅ $0",
        "load_ $1",
        "ⅷ",
        "𝒳 #0",
        "hlt²",
        "",
    ] {
        let letters: Vec<bool> = line.chars().map(|c| c.is_alphabetic()).collect();
        assert_eq!(
            Assembler::parse_instruction(line),
            Assembler::parse_classified(line, &letters),
            "{:?}",
            line
        );
    }
    assert_eq!(
        Assembler::parse_instruction(".données #1"),
        Ok(named("données", num(1), None, None))
    );
    assert_eq!(Assembler::parse_instruction("hlt²"), Err(()));
    assert_eq!(Assembler::parse_instruction("hlt1"), Err(()));
}

#[test]
fn program_is_read_with_the_classification_given() {
    let text = "hlt\nhlt x";
    let letters: Vec<bool> = text.chars().map(|c| c.is_alphabetic()).collect();
    assert_eq!(program_classified(text, &letters), program(text));
    let (rest, parsed) = program_classified(text, &letters).unwrap();
    assert_eq!(rest, "");
    assert_eq!(parsed.instructions.len(), 3);
    let (rest, parsed) = program_classified(text, &vec![true, true, true]).unwrap();
    assert_eq!(rest, "hlt x");
    assert_eq!(parsed.instructions, vec![plain(Opcode::HLT, None, None, None)]);
    assert_eq!(program_classified(text, &vec![]).map(|found| found.0), Err(()));
}
