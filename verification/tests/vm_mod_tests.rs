use regvm::vm::VM;

#[test]
fn mod_test_create_vm() {
    let test_vm = VM::new();
    assert_eq!(test_vm.registers[0], 0)
}

#[test]
fn mod_test_opcode_hlt() {
    let mut test_vm = VM::new();
    let test_bytes = vec![5, 0, 0, 0];
    test_vm.program = test_bytes;
    test_vm.run();
    assert_eq!(test_vm.pc, 1);
}

#[test]
fn mod_test_opcode_igl() {
    let mut test_vm = VM::new();
    let test_bytes = vec![200, 0, 0, 0];
    test_vm.program = test_bytes;
    test_vm.run();
    assert_eq!(test_vm.pc, 1);
}

#[test]
fn mod_test_load_opcode() {
    let mut test_vm = VM::new();
    test_vm.program = vec![0, 0, 1, 244]; // 1 << 8 + 244 = 2^8 + 244 = 500
    test_vm.run();
    assert_eq!(test_vm.registers[0], 500);
}

#[test]
fn mod_test_jmp_opcode() {
    let mut test_vm = VM::new();
    test_vm.registers[0] = 1;
    test_vm.program = vec![6, 0, 0, 0];
    test_vm.run_once();
    assert_eq!(test_vm.pc, 1);
}

#[test]
fn mod_test_jmpf_opcode() {
    let mut test_vm = VM::new();
    test_vm.registers[0] = 2;
    test_vm.program = vec![7, 0, 0, 0, 6, 0, 0, 0];
    test_vm.run_once();
    assert_eq!(test_vm.pc, 4);
}

#[test]
fn mod_test_jmpb_opcode() {
    let mut test_vm = VM::new();
    test_vm.registers[0] = 2;
    test_vm.pc = 4;
    test_vm.program = vec![6, 0, 0, 0, 8, 0, 0, 0];
    test_vm.run_once();
    assert_eq!(test_vm.pc, 4);
}

#[test]
fn mod_test_eq_opcode() {
    let mut test_vm = VM::new();
    test_vm.registers[0] = 10;
    test_vm.registers[1] = 10;
    test_vm.program = vec![9, 0, 1, 0, 9, 0, 1, 0];
    test_vm.run_once();
    assert_eq!(test_vm.equal_flag, true);
    test_vm.registers[1] = 20;
    test_vm.run_once();
    assert_eq!(test_vm.equal_flag, false);
}

#[test]
fn mod_test_neq_opcode() {
    let mut test_vm = VM::new();
    test_vm.registers[0] = 10;
    test_vm.registers[1] = 11;
    test_vm.program = vec![10, 0, 1, 0, 10, 0, 1, 0];
    test_vm.run_once();
    assert_eq!(test_vm.equal_flag, true);
    test_vm.registers[1] = 10;
    test_vm.run_once();
    assert_eq!(test_vm.equal_flag, false);
}

#[test]
fn mod_test_gt_opcode() {
    let mut test_vm = VM::new();
    test_vm.registers[0] = 15;
    test_vm.registers[1] = 11;
    test_vm.program = vec![11, 0, 1, 0, 11, 0, 1, 0];
    test_vm.run_once();
    assert_eq!(test_vm.equal_flag, true);
    test_vm.registers[1] = 20;
    test_vm.run_once();
    assert_eq!(test_vm.equal_flag, false);
}

#[test]
fn mod_test_lt_opcode() {
    let mut test_vm = VM::new();
    test_vm.registers[0] = 15;
    test_vm.registers[1] = 19;
    test_vm.program = vec![12, 0, 1, 0, 12, 0, 1, 0];
    test_vm.run_once();
    assert_eq!(test_vm.equal_flag, true);
    test_vm.registers[1] = 10;
    test_vm.run_once();
    assert_eq!(test_vm.equal_flag, false);
}

#[test]
fn mod_test_gtq_opcode() {
    let mut test_vm = VM::new();
    test_vm.registers[0] = 15;
    test_vm.registers[1] = 15;
    test_vm.program = vec![13, 0, 1, 0, 13, 0, 1, 0];
    test_vm.run_once();
    assert_eq!(test_vm.equal_flag, true);
    test_vm.registers[1] = 20;
    test_vm.run_once();
    assert_eq!(test_vm.equal_flag, false);
}

#[test]
fn mod_test_ltq_opcode() {
    let mut test_vm = VM::new();
    test_vm.registers[0] = 15;
    test_vm.registers[1] = 15;
    test_vm.program = vec![14, 0, 1, 0, 14, 0, 1, 0];
    test_vm.run_once();
    assert_eq!(test_vm.equal_flag, true);
    test_vm.registers[1] = 10;
    test_vm.run_once();
    assert_eq!(test_vm.equal_flag, false);
}

#[test]
fn mod_test_jeq_opcode() {
    let mut test_vm = VM::new();
    test_vm.registers[0] = 7;
    test_vm.equal_flag = true;
    test_vm.program = vec![15, 0, 0, 0, 17, 0, 0, 0, 17, 0, 0, 0];
    test_vm.run_once();
    assert_eq!(test_vm.pc, 7);
}
