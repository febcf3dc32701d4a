use regvm::assembler::directive_parser::{directive, directive_declaration};
use regvm::assembler::instruction_parser::AssemblerInstruction;
use regvm::assembler::token::Token;

#[test]
fn test_parse_directive_declaration() {
    let result = directive_declaration(".directive");
    assert_eq!(
        result,
        Ok((
            "",
            Token::Directive {
                name: "directive".to_string()
            }
        )),
    );
}

#[test]
fn test_parse_directive() {
    let result = directive(".directive");
    assert_eq!(
        result,
        Ok((
            "",
            AssemblerInstruction {
                opcode: None,
                directive: Some(Token::Directive {
                    name: "directive".to_string()
                }),
                label: None,
                operand1: None,
                operand2: None,
                operand3: None,
            }
        ))
    );
}

#[test]
fn test_parse_directive_register() {
    let result = directive(".directive $0");
    assert_eq!(
        result,
        Ok((
            "",
            AssemblerInstruction {
                opcode: None,
                directive: Some(Token::Directive {
                    name: "directive".to_string()
                }),
                label: None,
                operand1: Some(Token::Register { reg_num: 0 }),
                operand2: None,
                operand3: None,
            }
        ))
    );
}

#[test]
fn test_parse_directive_integer_operand() {
    let result = directive(".directive #10");
    assert_eq!(
        result,
        Ok((
            "",
            AssemblerInstruction {
                opcode: None,
                directive: Some(Token::Directive {
                    name: "directive".to_string()
                }),
                label: None,
                operand1: Some(Token::Number { value: 10 }),
                operand2: None,
                operand3: None,
            }
        ))
    );
}

#[test]
fn test_parse_directive_register_register() {
    let result = directive(".directive $0 $1");
    assert_eq!(
        result,
        Ok((
            "",
            AssemblerInstruction {
                opcode: None,
                directive: Some(Token::Directive {
                    name: "directive".to_string()
                }),
                label: None,
                operand1: Some(Token::Register { reg_num: 0 }),
                operand2: Some(Token::Register { reg_num: 1 }),
                operand3: None,
            }
        ))
    );
}

#[test]
fn test_parse_directive_integer_operand_integer_operand() {
    let result = directive(".directive #10 #20");
    assert_eq!(
        result,
        Ok((
            "",
            AssemblerInstruction {
                opcode: None,
                directive: Some(Token::Directive {
                    name: "directive".to_string()
                }),
                label: None,
                operand1: Some(Token::Number { value: 10 }),
                operand2: Some(Token::Number { value: 20 }),
                operand3: None,
            }
        ))
    );
}

#[test]
fn test_parse_directive_register_register_integer_operand() {
    let result = directive(".directive $0 $1 #100");
    assert_eq!(
        result,
        Ok((
            "",
            AssemblerInstruction {
                opcode: None,
                directive: Some(Token::Directive {
                    name: "directive".to_string()
                }),
                label: None,
                operand1: Some(Token::Register { reg_num: 0 }),
                operand2: Some(Token::Register { reg_num: 1 }),
                operand3: Some(Token::Number { value: 100 }),
            }
        ))
    );
}

#[test]
fn test_parse_directive_integer_operand_integer_operand_register() {
    let result = directive(".directive #10 #20 $5");
    assert_eq!(
        result,
        Ok((
            "",
            AssemblerInstruction {
                opcode: None,
                directive: Some(Token::Directive {
                    name: "directive".to_string()
                }),
                label: None,
                operand1: Some(Token::Number { value: 10 }),
                operand2: Some(Token::Number { value: 20 }),
                operand3: Some(Token::Register { reg_num: 5 }),
            }
        ))
    );
}
