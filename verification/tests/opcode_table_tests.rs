use regvm::instruction::Opcode;

const DEFINED: [(Opcode, u8, &str); 16] = [
    (Opcode::LOAD, 0, "load"),
    (Opcode::ADD, 1, "add"),
    (Opcode::SUB, 2, "sub"),
    (Opcode::MUL, 3, "mul"),
    (Opcode::DIV, 4, "div"),
    (Opcode::HLT, 5, "hlt"),
    (Opcode::JMP, 6, "jmp"),
    (Opcode::JMPF, 7, "jmpf"),
    (Opcode::JMPB, 8, "jmpb"),
    (Opcode::EQ, 9, "eq"),
    (Opcode::NEQ, 10, "neq"),
    (Opcode::GT, 11, "gt"),
    (Opcode::LT, 12, "lt"),
    (Opcode::GTQ, 13, "gtq"),
    (Opcode::LTQ, 14, "ltq"),
    (Opcode::JEQ, 15, "jeq"),
];

#[test]
fn every_opcode_has_its_code() {
    for (opcode, code, _) in DEFINED {
        assert_eq!(opcode.to_byte(), code);
        assert_eq!(Opcode::from(code), opcode);
    }
    assert_eq!(Opcode::ALOC.to_byte(), 16);
    assert_eq!(Opcode::from(16u8), Opcode::ALOC);
    assert_eq!(Opcode::IGL.to_byte(), 17);
}

#[test]
fn code_of_opcode_round_trips() {
    for code in 0..=17u8 {
        assert_eq!(Opcode::from(code).to_byte(), code);
    }
}

#[test]
fn unmapped_codes_are_illegal() {
    for code in 17..=255u8 {
        assert_eq!(Opcode::from(code), Opcode::IGL);
    }
}

#[test]
fn every_mnemonic_names_its_opcode() {
    for (opcode, code, name) in DEFINED {
        assert_eq!(Opcode::from(name), opcode);
        assert_eq!(Opcode::from(name).to_byte(), code);
    }
}

#[test]
fn unknown_names_are_illegal() {
    let names =
        ["", "aold", "LOAD", "Load", "loa", "loadd", "aloc", "igl", "gte", "l0ad", " load", "ładuj"];
    for name in names {
        assert_eq!(Opcode::from(name), Opcode::IGL, "{:?}", name);
    }
}
