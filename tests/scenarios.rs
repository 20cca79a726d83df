use osvm::image::{decode_program, encode_program};
use osvm::machine::{FloatOp, FloatRequest, Outcome};
use osvm::osvm::OSVM;
use osvm::word::Word;

fn float_result(r: FloatRequest) -> u64 {
    let a = f64::from_bits(r.lhs);
    let b = f64::from_bits(r.rhs);
    let v = match r.op {
        FloatOp::Add => a + b,
        FloatOp::Sub => a - b,
        FloatOp::Mul => a * b,
        FloatOp::Div => a / b,
    };
    v.to_bits()
}

fn assembled(src: &str) -> OSVM {
    let mut vm = OSVM::init();
    vm.init_default_sysf();
    let (floats, _) = vm.translate_source(src.to_string()).expect("source assembles");
    for f in floats {
        let v: f64 = f.text.parse().expect("binary64 literal");
        vm.program[f.addr].op_operand = Some(Word::F64(v.to_bits()));
    }
    vm
}

fn run(vm: &mut OSVM) -> Outcome {
    loop {
        match vm.execute_program(100_000) {
            Outcome::Float(req) => {
                let o = vm.complete_float(float_result(req));
                if o != Outcome::Continue {
                    return o;
                }
            }
            other => return other,
        }
    }
}

fn registers(vm: &OSVM) -> Vec<Word> {
    (0..17).map(|i| vm.register(i)).collect()
}

const ADD_U64: &str = "_start: mov r0, #2\nmov r1, #3\nadd r2, r0, r1\nhlt\n";

#[test]
fn add_u64() {
    let mut vm = assembled(ADD_U64);
    assert_eq!(run(&mut vm), Outcome::Continue);
    assert!(vm.halted());
    assert_eq!(vm.register(2), Word::U64(5));
    assert_eq!(vm.tsr, 0);
}

#[test]
fn loop_count_down() {
    let mut vm = assembled("_start: mov r0, #5\ntop: dec r0\njnz r0, top\nhlt\n");
    assert_eq!(run(&mut vm), Outcome::Continue);
    assert!(vm.halted());
    assert_eq!(vm.register(0), Word::U64(0));
}

#[test]
fn stack_arithmetic() {
    let mut vm = assembled("_start: push #10\npush #4\nsubs\nhlt\n");
    assert_eq!(run(&mut vm), Outcome::Continue);
    assert!(vm.halted());
    assert_eq!(vm.stack, vec![Word::U64(6)]);
}

#[test]
fn call_ret_one_deep() {
    let mut vm = assembled("_start: call f\nhlt\nf: mov r0, #42\nret\n");
    assert_eq!(run(&mut vm), Outcome::Continue);
    assert!(vm.halted());
    assert_eq!(vm.register(0), Word::U64(42));
    assert_eq!(vm.rspc(), 0);
}

#[test]
fn float_mov_add() {
    let mut vm = assembled("_start: mov r0, #1.5\nmov r1, #2.25\nadd r2, r0, r1\nhlt\n");
    assert_eq!(run(&mut vm), Outcome::Continue);
    assert!(vm.halted());
    assert_eq!(vm.register(2), Word::F64(3.75f64.to_bits()));
    assert_eq!(vm.tsr, 2);
}

#[test]
fn image_round_trip_run() {
    let mut direct = assembled(ADD_U64);
    let bytes = encode_program(&direct.program);
    let loaded = decode_program(&bytes).expect("image decodes");
    let mut fresh = OSVM::init();
    fresh.init_default_sysf();
    fresh.load_program_from_memory(loaded);
    assert_eq!(encode_program(&fresh.program), bytes);
    assert_eq!(run(&mut direct), Outcome::Continue);
    assert_eq!(run(&mut fresh), Outcome::Continue);
    assert_eq!(registers(&direct), registers(&fresh));
    assert_eq!(direct.stack, fresh.stack);
    assert_eq!(direct.tsr, fresh.tsr);
}

#[test]
fn image_round_trip_any_program_runs_alike() {
    let src = "_start: push #7\npush #-3\nadds\nmov r4, $0\nmov r5, #2.5\ninc r5\nclr r6\nhlt\n";
    let mut direct = assembled(src);
    let loaded = decode_program(&encode_program(&direct.program)).expect("image decodes");
    let mut fresh = OSVM::init();
    fresh.load_program_from_memory(loaded);
    fresh.set_pc(direct.pc());
    assert_eq!(run(&mut direct), Outcome::Continue);
    assert_eq!(run(&mut fresh), Outcome::Continue);
    assert_eq!(registers(&direct), registers(&fresh));
    assert_eq!(direct.stack, fresh.stack);
    assert_eq!(direct.register(5), Word::F64(3.5f64.to_bits()));
    assert_eq!(direct.register(4), Word::U64(4));
}
