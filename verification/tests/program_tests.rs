use regvm::assembler::program;

#[test]
fn mod_test_parse_program() {
    let result = program("load $0 #100\n");
    assert_eq!(result.is_ok(), true);
    let (leftover, p) = result.unwrap();
    assert_eq!(leftover, "");
    assert_eq!(1, p.instructions.len());
}

#[test]
fn mod_test_program_to_bytes() {
    let result = program("load $0 #100\n");
    assert_eq!(result.is_ok(), true);
    let (_, program) = result.unwrap();
    let bytecode = program.to_bytes().unwrap();
    assert_eq!(bytecode.len(), 4);
}

#[test]
fn lexer_test_parse_program() {
    let result = program("load $0 #100\n");
    assert_eq!(result.is_ok(), true);
    let (leftover, p) = result.unwrap();
    assert_eq!(leftover, "");
    assert_eq!(1, p.instructions.len());
}

#[test]
fn lexer_test_program_to_bytes() {
    let result = program("load $0 #100\n");
    assert_eq!(result.is_ok(), true);
    let (_, program) = result.unwrap();
    let bytecode = program.to_bytes().unwrap();
    assert_eq!(bytecode.len(), 4);
    println!("{:?}", bytecode);
}
