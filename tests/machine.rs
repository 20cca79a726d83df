use osvm::error::Error;
use osvm::machine::{FloatOp, FloatRequest, Outcome, SysFunction};
use osvm::opcode::{Opcode, OpcodeType};
use osvm::osvm::OSVM;
use osvm::word::Word;

fn op(t: OpcodeType, imm: Option<Word>, regs: &[&str]) -> Opcode {
    Opcode { op_type: t, op_operand: imm, op_regs: regs.iter().map(|s| s.to_string()).collect() }
}

fn vm_with(program: Vec<Opcode>) -> OSVM {
    let mut vm = OSVM::init();
    vm.init_default_sysf();
    vm.load_program_from_memory(program);
    vm
}

fn snapshot(vm: &OSVM) -> (Vec<Word>, Vec<Word>, usize, u8, usize) {
    ((0..17).map(|i| vm.register(i)).collect(), vm.stack.clone(), vm.pc(), vm.tsr, vm.rspc())
}

#[test]
fn fresh_machine_is_zeroed() {
    let vm = OSVM::init();
    for i in 0..17 {
        assert_eq!(vm.register(i), Word::U64(0));
    }
    assert_eq!(vm.pc(), 0);
    assert_eq!(vm.tsr, 0);
    assert!(vm.stack.is_empty());
    assert!(!vm.halted());
}

#[test]
fn div_by_zero_either_side() {
    for (a, b) in [(0u64, 4u64), (4, 0)] {
        let mut vm = vm_with(vec![op(OpcodeType::Div, None, &["r2", "r0", "r1"])]);
        vm.set_register(0, Word::U64(a));
        vm.set_register(1, Word::U64(b));
        let before = snapshot(&vm);
        assert_eq!(vm.execute_opcode(), Outcome::Trap(Error::DivByZero));
        assert_eq!(snapshot(&vm), before);
    }
}

#[test]
fn div_is_true_division() {
    let mut vm = vm_with(vec![op(OpcodeType::Div, None, &["r2", "r0", "r1"])]);
    vm.set_register(0, Word::I64(-7));
    vm.set_register(1, Word::I64(2));
    assert_eq!(vm.execute_opcode(), Outcome::Continue);
    assert_eq!(vm.register(2), Word::I64(-3));
    assert_eq!(vm.tsr, 1);
}

#[test]
fn divs_by_zero_float() {
    let mut vm = vm_with(vec![op(OpcodeType::Divs, None, &[])]);
    vm.stack.push(Word::F64(1.0f64.to_bits()));
    vm.stack.push(Word::F64((-0.0f64).to_bits()));
    assert_eq!(vm.execute_opcode(), Outcome::Trap(Error::DivByZero));
    assert_eq!(vm.stack.len(), 2);
}

#[test]
fn depth_past_stack_underflows() {
    for t in [OpcodeType::Dupl, OpcodeType::Swc] {
        let mut vm = vm_with(vec![op(t, Some(Word::U64(1)), &[])]);
        vm.stack.push(Word::U64(9));
        assert_eq!(vm.execute_opcode(), Outcome::Trap(Error::StackUnderflow));
    }
    let mut vm = vm_with(vec![op(OpcodeType::Movfs, Some(Word::U64(0)), &["r0"])]);
    assert_eq!(vm.execute_opcode(), Outcome::Trap(Error::StackUnderflow));
}

#[test]
fn dupl_and_swc_in_range() {
    let mut vm = vm_with(vec![
        op(OpcodeType::Dupl, Some(Word::U64(1)), &[]),
        op(OpcodeType::Swc, Some(Word::U64(2)), &[]),
    ]);
    vm.stack.push(Word::U64(1));
    vm.stack.push(Word::I64(2));
    assert_eq!(vm.execute_opcode(), Outcome::Continue);
    assert_eq!(vm.stack, vec![Word::U64(1), Word::I64(2), Word::U64(1)]);
    assert_eq!(vm.execute_opcode(), Outcome::Continue);
    assert_eq!(vm.stack, vec![Word::U64(1), Word::I64(2), Word::U64(1)]);
}

#[test]
fn sysf_needs_r7() {
    let mut vm = vm_with(vec![op(OpcodeType::Sysf, None, &[])]);
    assert_eq!(vm.execute_opcode(), Outcome::Trap(Error::InvalidSysFunction));
    assert_eq!(vm.pc(), 0);
}

#[test]
fn sysf_selects_from_the_end_of_the_table() {
    let mut vm = vm_with(vec![op(OpcodeType::Sysf, None, &["r3"]), op(OpcodeType::Sysf, None, &[])]);
    vm.set_register(7, Word::U64(3));
    assert_eq!(vm.execute_opcode(), Outcome::SysCall(SysFunction::PrintU64, Some(3)));
    assert_eq!(vm.pc(), 1);
    vm.set_register(7, Word::U64(7));
    assert_eq!(vm.execute_opcode(), Outcome::Trap(Error::InvalidSysFunction));
}

#[test]
fn pop_empty_and_pop_register() {
    let mut vm = vm_with(vec![op(OpcodeType::Pop, None, &[]), op(OpcodeType::Pop, None, &["r4"])]);
    assert_eq!(vm.execute_opcode(), Outcome::Trap(Error::StackUnderflow));
    vm.set_pc(1);
    vm.set_register(4, Word::I64(-8));
    vm.stack.push(Word::U64(3));
    assert_eq!(vm.execute_opcode(), Outcome::Continue);
    assert_eq!(vm.register(4), Word::U64(0));
    assert_eq!(vm.stack, vec![Word::U64(3)]);
}

#[test]
fn arity_traps_change_nothing() {
    let mut vm = vm_with(vec![
        op(OpcodeType::Add, None, &["r0", "r1"]),
        op(OpcodeType::Add, None, &["r0", "r1", "r2", "r3"]),
        op(OpcodeType::Mov, None, &["r0", "r99"]),
    ]);
    vm.stack.push(Word::U64(1));
    let before = snapshot(&vm);
    assert_eq!(vm.execute_opcode(), Outcome::Trap(Error::RegisterUnderflow));
    assert_eq!(snapshot(&vm), before);
    vm.set_pc(1);
    let before = snapshot(&vm);
    assert_eq!(vm.execute_opcode(), Outcome::Trap(Error::RegisterOverflow));
    assert_eq!(snapshot(&vm), before);
    vm.set_pc(2);
    assert_eq!(vm.execute_opcode(), Outcome::Trap(Error::InvalidRegister));
}

#[test]
fn tsr_follows_produced_value() {
    let mut vm = vm_with(vec![
        op(OpcodeType::Push, Some(Word::I64(-1)), &[]),
        op(OpcodeType::Mov, Some(Word::F64(2.0f64.to_bits())), &["r1"]),
        op(OpcodeType::Push, None, &["r0"]),
    ]);
    vm.execute_opcode();
    assert_eq!(vm.tsr, 1);
    vm.execute_opcode();
    assert_eq!(vm.tsr, 2);
    vm.execute_opcode();
    assert_eq!(vm.tsr, 0);
    assert_eq!(vm.pc(), 3);
}

#[test]
fn branches_and_the_stack() {
    let mut vm = vm_with(vec![
        op(OpcodeType::Jz, Some(Word::U64(2)), &["r0"]),
        op(OpcodeType::Hlt, None, &[]),
        op(OpcodeType::Equals, None, &[]),
        op(OpcodeType::Jts, Some(Word::U64(0)), &[]),
    ]);
    vm.stack.push(Word::U64(5));
    vm.stack.push(Word::U64(5));
    assert_eq!(vm.execute_opcode(), Outcome::Continue);
    assert_eq!(vm.pc(), 2);
    assert_eq!(vm.stack.len(), 2);
    assert_eq!(vm.execute_opcode(), Outcome::Continue);
    assert_eq!(vm.stack, vec![Word::U64(5), Word::U64(5), Word::U64(1)]);
    assert_eq!(vm.execute_opcode(), Outcome::Continue);
    assert_eq!(vm.pc(), 0);
    assert_eq!(vm.stack, vec![Word::U64(5), Word::U64(5)]);
}

#[test]
fn jts_on_empty_stack_underflows() {
    let mut vm = vm_with(vec![op(OpcodeType::Jnzs, Some(Word::U64(0)), &[])]);
    assert_eq!(vm.execute_opcode(), Outcome::Trap(Error::StackUnderflow));
}

#[test]
fn branch_without_target_traps() {
    let mut vm = vm_with(vec![op(OpcodeType::Jmp, None, &[])]);
    assert_eq!(vm.execute_opcode(), Outcome::Trap(Error::InvalidOperand));
}

#[test]
fn past_the_program_is_invalid_access() {
    let mut vm = vm_with(vec![]);
    assert_eq!(vm.execute_opcode(), Outcome::Trap(Error::InvalidOpcodeAccess));
}

#[test]
fn float_request_and_completion() {
    let mut vm = vm_with(vec![op(OpcodeType::Muls, None, &[])]);
    vm.stack.push(Word::F64(1.5f64.to_bits()));
    vm.stack.push(Word::F64(4.0f64.to_bits()));
    let o = vm.execute_opcode();
    assert_eq!(
        o,
        Outcome::Float(FloatRequest { op: FloatOp::Mul, lhs: 1.5f64.to_bits(), rhs: 4.0f64.to_bits() })
    );
    assert_eq!(vm.stack.len(), 2);
    assert_eq!(vm.complete_float(6.0f64.to_bits()), Outcome::Continue);
    assert_eq!(vm.stack, vec![Word::F64(6.0f64.to_bits())]);
    assert_eq!(vm.tsr, 2);
    assert_eq!(vm.pc(), 1);
}

#[test]
fn completion_without_request_traps() {
    let mut vm = vm_with(vec![op(OpcodeType::Hlt, None, &[])]);
    assert_eq!(vm.complete_float(0), Outcome::Trap(Error::InvalidOperand));
    assert!(!vm.halted());
}

#[test]
fn float_equality_is_ieee() {
    let mut vm = vm_with(vec![op(OpcodeType::Equal, None, &["r2", "r0", "r1"])]);
    vm.set_register(0, Word::F64(0.0f64.to_bits()));
    vm.set_register(1, Word::F64((-0.0f64).to_bits()));
    assert_eq!(vm.execute_opcode(), Outcome::Continue);
    assert_eq!(vm.register(2), Word::U64(1));
    let mut vm = vm_with(vec![op(OpcodeType::Equal, None, &["r2", "r0", "r0"])]);
    vm.set_register(0, Word::F64(f64::NAN.to_bits()));
    assert_eq!(vm.execute_opcode(), Outcome::Continue);
    assert_eq!(vm.register(2), Word::U64(0));
}

#[test]
fn bitwise_register_and_stack() {
    let mut vm = vm_with(vec![
        op(OpcodeType::And, None, &["r2", "r0", "r1"]),
        op(OpcodeType::Shr, None, &[]),
        op(OpcodeType::Not, None, &[]),
    ]);
    vm.set_register(0, Word::I64(0b1100));
    vm.set_register(1, Word::I64(0b1010));
    vm.stack.push(Word::I64(-16));
    vm.stack.push(Word::U64(2));
    assert_eq!(vm.execute_opcode(), Outcome::Continue);
    assert_eq!(vm.register(2), Word::I64(0b1000));
    assert_eq!(vm.execute_opcode(), Outcome::Continue);
    assert_eq!(vm.stack, vec![Word::I64(-4)]);
    assert_eq!(vm.execute_opcode(), Outcome::Continue);
    assert_eq!(vm.stack, vec![Word::I64(3)]);
}

#[test]
fn unsigned_arithmetic_wraps() {
    let mut vm = vm_with(vec![op(OpcodeType::Inc, None, &["r0"]), op(OpcodeType::Srg, None, &["r0", "r1"])]);
    vm.set_register(0, Word::U64(u64::MAX));
    vm.set_register(1, Word::I64(-2));
    assert_eq!(vm.execute_opcode(), Outcome::Continue);
    assert_eq!(vm.register(0), Word::U64(0));
    assert_eq!(vm.execute_opcode(), Outcome::Continue);
    assert_eq!(vm.register(0), Word::I64(-2));
    assert_eq!(vm.register(1), Word::U64(0));
}

#[test]
fn halt_stops_a_run() {
    let mut vm = vm_with(vec![op(OpcodeType::Hlt, None, &[]), op(OpcodeType::Nop, None, &[])]);
    assert_eq!(vm.execute_program(10), Outcome::Continue);
    assert!(vm.halted());
    assert_eq!(vm.pc(), 1);
}

#[test]
fn error_names() {
    assert_eq!(Error::NoError.as_string(), "None");
    assert_eq!(Error::DivByZero.as_string(), "DivByZero");
    assert_eq!(Error::IllegalMemoryAccess.as_string(), "IllegalMemoryAccess");
    assert_eq!(Error::InvalidSysFunction.as_string(), "InvalidSysFunction");
}

#[test]
fn word_payloads() {
    assert_eq!(Word::I64(-1).to_u64(), u64::MAX);
    assert_eq!(Word::U64(u64::MAX).to_i64(), -1);
    assert_eq!(Word::F64(1.0f64.to_bits()).tag(), 2);
    assert_eq!(Word::from_parts(3, 17), Word::Ptr(17));
    assert_eq!(Word::Ptr(12).to_usize(), 12);
}

#[test]
fn register_access_by_name() {
    let mut vm = OSVM::init();
    let o = op(OpcodeType::Mov, None, &["r16", "x9"]);
    vm.assign_register(&o, 0, Word::I64(-5));
    assert_eq!(vm.register(16), Word::I64(-5));
    assert_eq!(vm.find_register(&o, 0), Some(Word::I64(-5)));
    assert_eq!(vm.find_register(&o, 1), None);
    vm.assign_register(&o, 1, Word::U64(1));
    assert_eq!((0..17).filter(|i| vm.register(*i) != Word::U64(0)).count(), 1);
    vm.set_tsr(Word::Ptr(4));
    assert_eq!(vm.tsr, 3);
}
