use osvm::oasm::{assemble, AsmError, DiagnosticKind, OASM};
use osvm::opcode::OpcodeType;
use osvm::osvm::OSVM;
use osvm::word::Word;

#[test]
fn entry_defaults_to_zero() {
    let a = assemble(&"mov r0, #1\nhlt\n".to_string()).unwrap();
    assert_eq!(a.entry, 0);
    assert_eq!(a.program.len(), 2);
}

#[test]
fn entry_is_start_label() {
    let a = assemble(&"f: ret\n_start: hlt\n".to_string()).unwrap();
    assert_eq!(a.entry, 1);
}

#[test]
fn labels_resolve_to_addresses() {
    let a = assemble(&"_start: jmp end\nhlt\nend: hlt\n".to_string()).unwrap();
    assert_eq!(a.program[0].op_type, OpcodeType::Jmp);
    assert_eq!(a.program[0].op_operand, Some(Word::U64(2)));
    assert!(a.diagnostics.is_empty());
}

#[test]
fn register_branch_reads_register_then_target() {
    let a = assemble(&"top: jnz r3, top\njz r1, #0\n".to_string()).unwrap();
    assert_eq!(a.program[0].op_regs, vec!["r3".to_string()]);
    assert_eq!(a.program[0].op_operand, Some(Word::U64(0)));
    assert_eq!(a.program[1].op_operand, Some(Word::U64(0)));
}

#[test]
fn unknown_label_is_reported() {
    let a = assemble(&"call nowhere\nhlt\n".to_string()).unwrap();
    assert_eq!(a.program[0].op_operand, None);
    assert_eq!(a.diagnostics.len(), 1);
    assert_eq!(a.diagnostics[0].kind, DiagnosticKind::UnknownLabel);
    assert_eq!(a.diagnostics[0].text, "nowhere");
}

#[test]
fn wrong_operand_count_is_fatal() {
    let r = assemble(&"hlt\nadd r0, r1\n".to_string());
    assert_eq!(r.err(), Some(AsmError { line: 2 }));
    let r = assemble(&"mov r0,#1\n".to_string());
    assert_eq!(r.err(), Some(AsmError { line: 1 }));
}

#[test]
fn immediates_read_u64_then_i64_then_float() {
    let a = assemble(&"push #5\npush #-5\npush #3.14\npush #+7\n".to_string()).unwrap();
    assert_eq!(a.program[0].op_operand, Some(Word::U64(5)));
    assert_eq!(a.program[1].op_operand, Some(Word::I64(-5)));
    assert_eq!(a.program[2].op_operand, None);
    assert_eq!(a.program[3].op_operand, Some(Word::U64(7)));
    assert_eq!(a.float_literals.len(), 1);
    assert_eq!(a.float_literals[0].addr, 2);
    assert_eq!(a.float_literals[0].text, "3.14");
}

#[test]
fn largest_immediates() {
    let a = assemble(&"push #18446744073709551615\npush #-9223372036854775808\n".to_string()).unwrap();
    assert_eq!(a.program[0].op_operand, Some(Word::U64(u64::MAX)));
    assert_eq!(a.program[1].op_operand, Some(Word::I64(i64::MIN)));
    let b = assemble(&"push #18446744073709551616\n".to_string()).unwrap();
    assert_eq!(b.program[0].op_operand, None);
    assert_eq!(b.float_literals[0].text, "18446744073709551616");
}

#[test]
fn stack_depth_operand_becomes_movfs() {
    let a = assemble(&"mov r2, $3\nmov r1, r0\nmovfs r4, 1\n".to_string()).unwrap();
    assert_eq!(a.program[0].op_type, OpcodeType::Movfs);
    assert_eq!(a.program[0].op_operand, Some(Word::U64(3)));
    assert_eq!(a.program[1].op_regs, vec!["r1".to_string(), "r0".to_string()]);
    assert_eq!(a.program[2].op_operand, Some(Word::U64(1)));
}

#[test]
fn invalid_operand_and_instruction_are_reported() {
    let a = assemble(&"mov r0, x\nfoo r1\ndupl x\n".to_string()).unwrap();
    assert_eq!(a.program.len(), 2);
    assert_eq!(a.program[0].op_operand, None);
    assert_eq!(a.diagnostics[0].kind, DiagnosticKind::InvalidOperand);
    assert_eq!(a.diagnostics[0].line, 1);
    assert_eq!(a.diagnostics[1].kind, DiagnosticKind::InvalidInstruction);
    assert_eq!(a.diagnostics[1].text, "foo");
    assert_eq!(a.diagnostics[2].kind, DiagnosticKind::InvalidOperand);
}

#[test]
fn deprecated_phsr_is_reported() {
    let a = assemble(&"phsr r0\n".to_string()).unwrap();
    assert_eq!(a.program[0].op_type, OpcodeType::Phsr);
    assert_eq!(a.diagnostics[0].kind, DiagnosticKind::Deprecated);
}

#[test]
fn stack_and_register_forms() {
    let a = assemble(&"and\nxor r0, r1, r2\nnot r3, r4\npop\npop r5\nsysf\nsysf r1\n".to_string()).unwrap();
    assert!(a.program[0].op_regs.is_empty());
    assert_eq!(a.program[1].op_regs.len(), 3);
    assert_eq!(a.program[2].op_regs.len(), 2);
    assert!(a.program[3].op_regs.is_empty());
    assert_eq!(a.program[4].op_regs, vec!["r5".to_string()]);
    assert!(a.program[5].op_regs.is_empty());
    assert_eq!(a.program[6].op_regs.len(), 1);
}

#[test]
fn assembly_is_deterministic() {
    let src = "; a comment\n%define N #3\n_start: push N\ntop: dec r0\njnz r0, top\nhlt\n".to_string();
    let mut a = OSVM::init();
    let mut b = OSVM::init();
    let ra = a.translate_source(src.clone()).unwrap();
    let rb = b.translate_source(src).unwrap();
    assert_eq!(osvm::image::encode_program(&a.program), osvm::image::encode_program(&b.program));
    assert_eq!(a.pc(), b.pc());
    assert_eq!(ra.1.len(), rb.1.len());
    assert_eq!(a.program[0].op_operand, Some(Word::U64(3)));
}

#[test]
fn translate_source_sets_entry() {
    let mut vm = OSVM::init();
    vm.translate_source("f: ret\n_start: call f\nhlt\n".to_string()).unwrap();
    assert_eq!(vm.pc(), 1);
    assert_eq!(vm.program[1].op_operand, Some(Word::U64(0)));
}

#[test]
fn oasm_tables() {
    let mut t = OASM::init();
    t.labels_push("a", 3);
    t.labels_push("b", 5);
    t.labels_push("a", 9);
    t.deferred_operands_push("b", 0);
    assert_eq!(t.labels_contains("a"), Some(3));
    assert_eq!(t.labels_contains("b"), Some(5));
    assert_eq!(t.labels_contains("c"), None);
    assert_eq!(t.deferred_operands[0].addr, 0);
    assert_eq!(t.deferred_operands[0].label, "b");
}
