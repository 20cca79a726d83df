use vstd::prelude::*;
use crate::word::{Word, TAG_U64, TAG_I64, TAG_F64};
use crate::error::Error;
use crate::opcode::{OpcodeType, OpcodeView};

verus! {

/// Number of general registers.
pub const REGISTER_COUNT: usize = 17;
/// Index of the register that selects a system function.
pub const SYSF_REGISTER: usize = 7;
/// Bit pattern of the binary64 value 1.0.
pub const F64_ONE_BITS: u64 = 0x3FF0_0000_0000_0000;
/// Every bit of a binary64 pattern but the sign.
pub const F64_MAGNITUDE_MASK: u64 = 0x7FFF_FFFF_FFFF_FFFF;
/// The exponent field of a binary64 pattern.
pub const F64_EXPONENT_MASK: u64 = 0x7FF0_0000_0000_0000;
/// The fraction field of a binary64 pattern.
pub const F64_FRACTION_MASK: u64 = 0x000F_FFFF_FFFF_FFFF;

/// The procedures that the host offers to `sysf`.
#[derive(Clone, Copy, Debug, PartialEq, Eq, Structural)]
pub enum SysFunction {
    PrintPtr,
    PrintF64,
    PrintI64,
    PrintU64,
    Free,
    Alloc,
}

/// A binary64 operation that the host carries out on bit patterns.
#[derive(Clone, Copy, Debug, PartialEq, Eq, Structural)]
pub enum FloatOp {
    Add,
    Sub,
    Mul,
    Div,
}

/// A binary64 operation asked of the host: `lhs op rhs`, as bit patterns.
#[derive(Clone, Copy, Debug, PartialEq, Eq, Structural)]
pub struct FloatRequest {
    pub op: FloatOp,
    pub lhs: u64,
    pub rhs: u64,
}

/// What one step of the machine ended with.
#[derive(Clone, Copy, Debug, PartialEq, Eq, Structural)]
pub enum Outcome {
    /// The instruction took effect.
    Continue,
    /// The instruction trapped; the machine is as it was before it.
    Trap(Error),
    /// The instruction took effect and asks the host to run a system
    /// function, on the given register or, with none, on the stack.
    SysCall(SysFunction, Option<usize>),
    /// The instruction needs a binary64 result from the host; the machine is
    /// as it was, and the step is finished by handing that result back.
    Float(FloatRequest),
}

/// Integer operations of the arithmetic instructions.
#[derive(Clone, Copy, Debug, PartialEq, Eq, Structural)]
pub enum ArithOp {
    Add,
    Sub,
    Mul,
    Div,
}

/// Bitwise operations.
#[derive(Clone, Copy, Debug, PartialEq, Eq, Structural)]
pub enum BitOp {
    And,
    Or,
    Xor,
    Shl,
    Shr,
}

/// When a conditional branch is taken.
#[derive(Clone, Copy, Debug, PartialEq, Eq, Structural)]
pub enum Cond {
    IsOne,
    IsZero,
    NonZero,
}

/// The state of the machine, as a mathematical value.
pub struct Machine {
    pub regs: Seq<Word>,
    pub tsr: u8,
    pub rspc: usize,
    pub pc: usize,
    pub stack: Seq<Word>,
    pub halt: bool,
    pub program: Seq<OpcodeView>,
    pub sys: Seq<SysFunction>,
}

/// The register that a name stands for: `r0` to `r16`.
pub open spec fn register_index(s: Seq<char>) -> Option<int> {
    if s.len() == 2 && s[0] == 'r' && 48 <= (s[1] as u32) <= 57 {
        Some(s[1] as u32 - 48)
    } else if s.len() == 3 && s[0] == 'r' && s[1] == '1' && 48 <= (s[2] as u32) <= 54 {
        Some(10 + (s[2] as u32 - 48))
    } else {
        None
    }
}

pub fn register_index_of(s: &str) -> (r: Option<usize>)
    ensures
        r is Some <==> register_index(s@) is Some,
        r is Some ==> r->0 as int == register_index(s@)->0 && r->0 < REGISTER_COUNT,
{
    let n = s.unicode_len();
    if n == 2 {
        let c0 = s.get_char(0);
        let d = s.get_char(1) as u32;
        if c0 == 'r' && 48 <= d && d <= 57 {
            return Some((d - 48) as usize);
        }
    } else if n == 3 {
        let c0 = s.get_char(0);
        let c1 = s.get_char(1);
        let d = s.get_char(2) as u32;
        if c0 == 'r' && c1 == '1' && 48 <= d && d <= 54 {
            return Some((10 + (d - 48)) as usize);
        }
    }
    None
}

/// Every register name of the instruction names a register.
pub open spec fn registers_valid(op: OpcodeView) -> bool {
    forall|k: int| 0 <= k < op.op_regs.len() ==> (#[trigger] register_index(op.op_regs[k])) is Some
}

/// The register named at position `k`.
pub open spec fn reg_at(op: OpcodeView, k: int) -> int {
    register_index(op.op_regs[k])->0
}

/// The arity check of an instruction that names exactly `n` registers.
pub open spec fn check_regs(op: OpcodeView, n: int) -> Option<Error> {
    if op.op_regs.len() < n {
        Some(Error::RegisterUnderflow)
    } else if op.op_regs.len() > n {
        Some(Error::RegisterOverflow)
    } else if !registers_valid(op) {
        Some(Error::InvalidRegister)
    } else {
        None
    }
}

/// The binary64 pattern is a zero of either sign.
pub open spec fn f64_is_zero(b: u64) -> bool {
    b & F64_MAGNITUDE_MASK == 0
}

/// The binary64 pattern is a NaN.
pub open spec fn f64_is_nan(b: u64) -> bool {
    b & F64_EXPONENT_MASK == F64_EXPONENT_MASK && b & F64_FRACTION_MASK != 0
}

/// IEEE-754 equality of two binary64 patterns.
pub open spec fn f64_eq(a: u64, b: u64) -> bool {
    !f64_is_nan(a) && !f64_is_nan(b) && (a == b || (f64_is_zero(a) && f64_is_zero(b)))
}

/// The payload reads as zero in the flavor of the tag.
pub open spec fn reads_zero(tag: u8, b: u64) -> bool {
    if tag == TAG_F64 {
        f64_is_zero(b)
    } else {
        b == 0
    }
}

/// Equality of two payloads in the flavor of the tag.
pub open spec fn flavor_eq(tag: u8, a: u64, b: u64) -> bool {
    if tag == TAG_F64 {
        f64_eq(a, b)
    } else {
        a == b
    }
}

/// Truncating signed division of two payloads, wrapping on overflow.
pub open spec fn signed_div(a: u64, b: u64) -> u64 {
    match (a as i64).checked_div(b as i64) {
        Some(q) => q as u64,
        None => a,
    }
}

/// The payload of an integer arithmetic result in the flavor of the tag;
/// arithmetic wraps, division truncates, and the pointer flavor computes as
/// unsigned (its results carry the pointer tag and mean nothing).
pub open spec fn int_arith_bits(op: ArithOp, tag: u8, a: u64, b: u64) -> u64 {
    match op {
        ArithOp::Add => a.wrapping_add(b),
        ArithOp::Sub => a.wrapping_sub(b),
        ArithOp::Mul => a.wrapping_mul(b),
        ArithOp::Div => if tag == TAG_I64 {
            signed_div(a, b)
        } else if b == 0 {
            0
        } else {
            a / b
        },
    }
}

/// The payload of a bitwise result in the flavor of the tag.
pub open spec fn bit_op_bits(op: BitOp, tag: u8, a: u64, b: u64) -> u64 {
    match op {
        BitOp::And => a & b,
        BitOp::Or => a | b,
        BitOp::Xor => a ^ b,
        BitOp::Shl => a.wrapping_shl(b as u32),
        BitOp::Shr => if tag == TAG_I64 {
            ((a as i64).wrapping_shr(b as u32)) as u64
        } else {
            a.wrapping_shr(b as u32)
        },
    }
}

pub open spec fn float_op_of(op: ArithOp) -> FloatOp {
    match op {
        ArithOp::Add => FloatOp::Add,
        ArithOp::Sub => FloatOp::Sub,
        ArithOp::Mul => FloatOp::Mul,
        ArithOp::Div => FloatOp::Div,
    }
}

pub open spec fn cond_holds(c: Cond, v: u64) -> bool {
    match c {
        Cond::IsOne => v == 1,
        Cond::IsZero => v == 0,
        Cond::NonZero => v != 0,
    }
}

/// The kinds whose effect may need a binary64 result from the host.
pub open spec fn float_capable(t: OpcodeType) -> bool {
    t == OpcodeType::Add || t == OpcodeType::Sub || t == OpcodeType::Mul || t == OpcodeType::Div
        || t == OpcodeType::Inc || t == OpcodeType::Dec || t == OpcodeType::Adds
        || t == OpcodeType::Subs || t == OpcodeType::Muls || t == OpcodeType::Divs
}

pub open spec fn trap(m: Machine, e: Error) -> (Machine, Outcome) {
    (m, Outcome::Trap(e))
}

pub open spec fn next(m: Machine) -> Machine {
    Machine { pc: (m.pc + 1) as usize, ..m }
}

pub open spec fn set_reg(m: Machine, i: int, w: Word) -> Machine {
    Machine { regs: m.regs.update(i, w), ..m }
}

pub open spec fn set_tsr(m: Machine, t: u8) -> Machine {
    Machine { tsr: t, ..m }
}

pub open spec fn set_stack(m: Machine, s: Seq<Word>) -> Machine {
    Machine { stack: s, ..m }
}

/// Writes `w` into register `i`, latches its tag and moves on.
pub open spec fn produce_reg(m: Machine, i: int, w: Word) -> (Machine, Outcome) {
    (next(set_tsr(set_reg(m, i, w), w.tag_spec())), Outcome::Continue)
}

/// The top two cells of the stack are replaced by `w`, whose tag is latched.
pub open spec fn produce_stack2(m: Machine, w: Word) -> (Machine, Outcome) {
    (
        next(set_tsr(set_stack(m, m.stack.drop_last().drop_last().push(w)), w.tag_spec())),
        Outcome::Continue,
    )
}

pub open spec fn mov_spec(m: Machine, op: OpcodeView) -> (Machine, Outcome) {
    match op.op_operand {
        None => match check_regs(op, 2) {
            Some(e) => trap(m, e),
            None => produce_reg(m, reg_at(op, 0), m.regs[reg_at(op, 1)]),
        },
        Some(w) => match check_regs(op, 1) {
            Some(e) => trap(m, e),
            None => produce_reg(m, reg_at(op, 0), w),
        },
    }
}

/// `movfs rD, k` and the deprecated `phsr rD` (which reads depth 0).
pub open spec fn movfs_spec(m: Machine, op: OpcodeView, depth: Option<Word>) -> (Machine, Outcome) {
    match check_regs(op, 1) {
        Some(e) => trap(m, e),
        None => match depth {
            None => trap(m, Error::InvalidOperand),
            Some(w) => if w.bits_spec() >= m.stack.len() {
                trap(m, Error::StackUnderflow)
            } else {
                produce_reg(m, reg_at(op, 0), m.stack[m.stack.len() - 1 - w.bits_spec()])
            },
        },
    }
}

pub open spec fn srg_spec(m: Machine, op: OpcodeView) -> (Machine, Outcome) {
    match check_regs(op, 2) {
        Some(e) => trap(m, e),
        None => {
            let a = m.regs[reg_at(op, 0)];
            let b = m.regs[reg_at(op, 1)];
            (
                next(
                    set_tsr(
                        Machine { regs: m.regs.update(reg_at(op, 0), b).update(reg_at(op, 1), a), ..m },
                        a.tag_spec(),
                    ),
                ),
                Outcome::Continue,
            )
        },
    }
}

/// `clr rD`, and `pop rD`, which writes zero and leaves the stack as it is.
pub open spec fn clr_spec(m: Machine, op: OpcodeView) -> (Machine, Outcome) {
    match check_regs(op, 1) {
        Some(e) => trap(m, e),
        None => produce_reg(m, reg_at(op, 0), Word::U64(0)),
    }
}

/// A two-operand arithmetic step on payloads `a` and `b` in flavor `t`: a trap
/// on division by zero, a request to the host in the binary64 flavor (or the
/// host's result `fr` written by `write`), or the integer result.
pub open spec fn arith_result(t: u8, aop: ArithOp, a: u64, b: u64, fr: Option<u64>) -> Result<Word, Outcome> {
    if aop == ArithOp::Div && (reads_zero(t, a) || reads_zero(t, b)) {
        Err(Outcome::Trap(Error::DivByZero))
    } else if t == TAG_F64 {
        match fr {
            None => Err(Outcome::Float(FloatRequest { op: float_op_of(aop), lhs: a, rhs: b })),
            Some(r) => Ok(Word::F64(r)),
        }
    } else {
        match fr {
            Some(_) => Err(Outcome::Trap(Error::InvalidOperand)),
            None => Ok(Word::from_parts_spec(t, int_arith_bits(aop, t, a, b))),
        }
    }
}

pub open spec fn arith3_spec(m: Machine, op: OpcodeView, aop: ArithOp, fr: Option<u64>) -> (Machine, Outcome) {
    match check_regs(op, 3) {
        Some(e) => trap(m, e),
        None => {
            let a = m.regs[reg_at(op, 1)];
            let b = m.regs[reg_at(op, 2)];
            match arith_result(a.tag_spec(), aop, a.bits_spec(), b.bits_spec(), fr) {
                Err(o) => (m, o),
                Ok(w) => produce_reg(m, reg_at(op, 0), w),
            }
        },
    }
}

pub open spec fn incdec_spec(m: Machine, op: OpcodeView, aop: ArithOp, fr: Option<u64>) -> (Machine, Outcome) {
    match check_regs(op, 1) {
        Some(e) => trap(m, e),
        None => {
            let a = m.regs[reg_at(op, 0)];
            let one = if a.tag_spec() == TAG_F64 { F64_ONE_BITS } else { 1u64 };
            match arith_result(a.tag_spec(), aop, a.bits_spec(), one, fr) {
                Err(o) => (m, o),
                Ok(w) => produce_reg(m, reg_at(op, 0), w),
            }
        },
    }
}

pub open spec fn arith_stack_spec(m: Machine, aop: ArithOp, fr: Option<u64>) -> (Machine, Outcome) {
    if m.stack.len() < 2 {
        trap(m, Error::StackUnderflow)
    } else {
        let a = m.stack[m.stack.len() - 1];
        let b = m.stack[m.stack.len() - 2];
        match arith_result(b.tag_spec(), aop, b.bits_spec(), a.bits_spec(), fr) {
            Err(o) => (m, o),
            Ok(w) => produce_stack2(m, w),
        }
    }
}

pub open spec fn equal_spec(m: Machine, op: OpcodeView) -> (Machine, Outcome) {
    match check_regs(op, 3) {
        Some(e) => trap(m, e),
        None => {
            let a = m.regs[reg_at(op, 1)];
            let b = m.regs[reg_at(op, 2)];
            let t = a.tag_spec();
            let w = Word::U64(if flavor_eq(t, a.bits_spec(), b.bits_spec()) { 1 } else { 0 });
            (next(set_tsr(set_reg(m, reg_at(op, 0), w), t)), Outcome::Continue)
        },
    }
}

/// `eqs`: compares the top two cells and pushes the result, popping nothing.
pub open spec fn equals_spec(m: Machine) -> (Machine, Outcome) {
    if m.stack.len() < 2 {
        trap(m, Error::StackUnderflow)
    } else {
        let a = m.stack[m.stack.len() - 1];
        let b = m.stack[m.stack.len() - 2];
        let t = b.tag_spec();
        let w = Word::U64(if flavor_eq(t, b.bits_spec(), a.bits_spec()) { 1 } else { 0 });
        (next(set_tsr(set_stack(m, m.stack.push(w)), t)), Outcome::Continue)
    }
}

pub open spec fn jump_to(m: Machine, target: Word) -> Machine {
    Machine { pc: target.bits_spec() as usize, ..m }
}

pub open spec fn branch_reg_spec(m: Machine, op: OpcodeView, c: Cond) -> (Machine, Outcome) {
    match check_regs(op, 1) {
        Some(e) => trap(m, e),
        None => match op.op_operand {
            None => trap(m, Error::InvalidOperand),
            Some(t) => if cond_holds(c, m.regs[reg_at(op, 0)].bits_spec()) {
                (jump_to(m, t), Outcome::Continue)
            } else {
                (next(m), Outcome::Continue)
            },
        },
    }
}

pub open spec fn branch_stack_spec(m: Machine, op: OpcodeView, c: Cond) -> (Machine, Outcome) {
    if m.stack.len() < 1 {
        trap(m, Error::StackUnderflow)
    } else {
        match op.op_operand {
            None => trap(m, Error::InvalidOperand),
            Some(t) => {
                let popped = set_stack(m, m.stack.drop_last());
                if cond_holds(c, m.stack.last().bits_spec()) {
                    (jump_to(popped, t), Outcome::Continue)
                } else {
                    (next(popped), Outcome::Continue)
                }
            },
        }
    }
}

pub open spec fn sysf_spec(m: Machine, op: OpcodeView) -> (Machine, Outcome) {
    if op.op_regs.len() > 1 {
        trap(m, Error::RegisterOverflow)
    } else if !registers_valid(op) {
        trap(m, Error::InvalidRegister)
    } else {
        let k = m.regs[SYSF_REGISTER as int].bits_spec();
        if k == 0 || k > m.sys.len() {
            trap(m, Error::InvalidSysFunction)
        } else {
            let f = m.sys[m.sys.len() - k];
            let r = if op.op_regs.len() == 1 { Some(reg_at(op, 0) as usize) } else { None };
            (next(m), Outcome::SysCall(f, r))
        }
    }
}

pub open spec fn push_word(m: Machine, w: Word) -> (Machine, Outcome) {
    (next(set_tsr(set_stack(m, m.stack.push(w)), w.tag_spec())), Outcome::Continue)
}

pub open spec fn push_spec(m: Machine, op: OpcodeView) -> (Machine, Outcome) {
    match op.op_operand {
        None => match check_regs(op, 1) {
            Some(e) => trap(m, e),
            None => push_word(m, m.regs[reg_at(op, 0)]),
        },
        Some(w) => match check_regs(op, 0) {
            Some(e) => trap(m, e),
            None => push_word(m, w),
        },
    }
}

pub open spec fn dupl_spec(m: Machine, op: OpcodeView) -> (Machine, Outcome) {
    match op.op_operand {
        None => trap(m, Error::InvalidOperand),
        Some(k) => if k.bits_spec() >= m.stack.len() {
            trap(m, Error::StackUnderflow)
        } else {
            push_word(m, m.stack[m.stack.len() - 1 - k.bits_spec()])
        },
    }
}

pub open spec fn swc_spec(m: Machine, op: OpcodeView) -> (Machine, Outcome) {
    match op.op_operand {
        None => trap(m, Error::InvalidOperand),
        Some(k) => if k.bits_spec() >= m.stack.len() {
            trap(m, Error::StackUnderflow)
        } else {
            let i = m.stack.len() - 1;
            let j = m.stack.len() - 1 - k.bits_spec();
            (
                next(set_stack(m, m.stack.update(i, m.stack[j]).update(j, m.stack[i]))),
                Outcome::Continue,
            )
        },
    }
}

pub open spec fn jmp_spec(m: Machine, op: OpcodeView) -> (Machine, Outcome) {
    match op.op_operand {
        None => trap(m, Error::InvalidOperand),
        Some(t) => (jump_to(m, t), Outcome::Continue),
    }
}

pub open spec fn call_spec(m: Machine, op: OpcodeView) -> (Machine, Outcome) {
    match op.op_operand {
        None => trap(m, Error::InvalidOperand),
        Some(t) => (jump_to(Machine { rspc: (m.pc + 1) as usize, ..m }, t), Outcome::Continue),
    }
}

pub open spec fn ret_spec(m: Machine) -> (Machine, Outcome) {
    (Machine { pc: m.rspc, rspc: 0, ..m }, Outcome::Continue)
}

/// `hlt` raises the halt flag; like every instruction that is no jump, it
/// moves `pc` on by one.
pub open spec fn hlt_spec(m: Machine) -> (Machine, Outcome) {
    (next(Machine { halt: true, ..m }), Outcome::Continue)
}

/// `and`, `or`, `xor`, `shl`, `shr`: on the top two cells with no register
/// named, else on registers; in the binary64 flavor only `tsr` changes.
/// Shift amounts are taken modulo 64, and `shr` is arithmetic when signed.
pub open spec fn bitwise_spec(m: Machine, op: OpcodeView, bop: BitOp) -> (Machine, Outcome) {
    if op.op_regs.len() == 0 {
        if m.stack.len() < 2 {
            trap(m, Error::StackUnderflow)
        } else {
            let a = m.stack[m.stack.len() - 1];
            let b = m.stack[m.stack.len() - 2];
            let t = b.tag_spec();
            if t == TAG_F64 {
                (next(set_tsr(m, t)), Outcome::Continue)
            } else {
                produce_stack2(m, Word::from_parts_spec(t, bit_op_bits(bop, t, b.bits_spec(), a.bits_spec())))
            }
        }
    } else {
        match check_regs(op, 3) {
            Some(e) => trap(m, e),
            None => {
                let a = m.regs[reg_at(op, 1)];
                let b = m.regs[reg_at(op, 2)];
                let t = a.tag_spec();
                if t == TAG_F64 {
                    (next(set_tsr(m, t)), Outcome::Continue)
                } else {
                    produce_reg(m, reg_at(op, 0), Word::from_parts_spec(t, bit_op_bits(bop, t, a.bits_spec(), b.bits_spec())))
                }
            },
        }
    }
}

pub open spec fn not_spec(m: Machine, op: OpcodeView) -> (Machine, Outcome) {
    if op.op_regs.len() == 0 {
        if m.stack.len() < 1 {
            trap(m, Error::StackUnderflow)
        } else {
            let a = m.stack.last();
            let t = a.tag_spec();
            if t == TAG_F64 {
                (next(set_tsr(m, t)), Outcome::Continue)
            } else {
                let w = Word::from_parts_spec(t, !a.bits_spec());
                (next(set_tsr(set_stack(m, m.stack.drop_last().push(w)), t)), Outcome::Continue)
            }
        }
    } else {
        match check_regs(op, 2) {
            Some(e) => trap(m, e),
            None => {
                let a = m.regs[reg_at(op, 1)];
                let t = a.tag_spec();
                if t == TAG_F64 {
                    (next(set_tsr(m, t)), Outcome::Continue)
                } else {
                    produce_reg(m, reg_at(op, 0), Word::from_parts_spec(t, !a.bits_spec()))
                }
            },
        }
    }
}

pub open spec fn pop_spec(m: Machine, op: OpcodeView) -> (Machine, Outcome) {
    if op.op_regs.len() == 0 {
        if m.stack.len() < 1 {
            trap(m, Error::StackUnderflow)
        } else {
            (next(set_stack(m, m.stack.drop_last())), Outcome::Continue)
        }
    } else {
        clr_spec(m, op)
    }
}

/// One step of the machine. `fr` is the host's binary64 result for the
/// current instruction, when it asked for one; with it, any instruction that
/// asked for none traps.
pub open spec fn exec_spec(m: Machine, fr: Option<u64>) -> (Machine, Outcome) {
    if m.pc >= m.program.len() {
        trap(m, Error::InvalidOpcodeAccess)
    } else {
        let op = m.program[m.pc as int];
        if fr is Some && !float_capable(op.op_type) {
            trap(m, Error::InvalidOperand)
        } else {
            match op.op_type {
                OpcodeType::Nop => trap(m, Error::InvalidOperand),
                OpcodeType::Mov => mov_spec(m, op),
                OpcodeType::Movfs => movfs_spec(m, op, op.op_operand),
                OpcodeType::Phsr => movfs_spec(m, op, Some(Word::U64(0))),
                OpcodeType::Srg => srg_spec(m, op),
                OpcodeType::Clr => clr_spec(m, op),
                OpcodeType::Add => arith3_spec(m, op, ArithOp::Add, fr),
                OpcodeType::Sub => arith3_spec(m, op, ArithOp::Sub, fr),
                OpcodeType::Mul => arith3_spec(m, op, ArithOp::Mul, fr),
                OpcodeType::Div => arith3_spec(m, op, ArithOp::Div, fr),
                OpcodeType::Dec => incdec_spec(m, op, ArithOp::Sub, fr),
                OpcodeType::Inc => incdec_spec(m, op, ArithOp::Add, fr),
                OpcodeType::Equal => equal_spec(m, op),
                OpcodeType::Jt => branch_reg_spec(m, op, Cond::IsOne),
                OpcodeType::Jz => branch_reg_spec(m, op, Cond::IsZero),
                OpcodeType::Jnz => branch_reg_spec(m, op, Cond::NonZero),
                OpcodeType::Sysf => sysf_spec(m, op),
                OpcodeType::Push => push_spec(m, op),
                OpcodeType::Dupl => dupl_spec(m, op),
                OpcodeType::Adds => arith_stack_spec(m, ArithOp::Add, fr),
                OpcodeType::Subs => arith_stack_spec(m, ArithOp::Sub, fr),
                OpcodeType::Muls => arith_stack_spec(m, ArithOp::Mul, fr),
                OpcodeType::Divs => arith_stack_spec(m, ArithOp::Div, fr),
                OpcodeType::Equals => equals_spec(m),
                OpcodeType::Jts => branch_stack_spec(m, op, Cond::IsOne),
                OpcodeType::Jzs => branch_stack_spec(m, op, Cond::IsZero),
                OpcodeType::Jnzs => branch_stack_spec(m, op, Cond::NonZero),
                OpcodeType::Swc => swc_spec(m, op),
                OpcodeType::Jmp => jmp_spec(m, op),
                OpcodeType::Call => call_spec(m, op),
                OpcodeType::And => bitwise_spec(m, op, BitOp::And),
                OpcodeType::Or => bitwise_spec(m, op, BitOp::Or),
                OpcodeType::Xor => bitwise_spec(m, op, BitOp::Xor),
                OpcodeType::Shl => bitwise_spec(m, op, BitOp::Shl),
                OpcodeType::Shr => bitwise_spec(m, op, BitOp::Shr),
                OpcodeType::Not => not_spec(m, op),
                OpcodeType::Pop => pop_spec(m, op),
                OpcodeType::Ret => ret_spec(m),
                OpcodeType::Hlt => hlt_spec(m),
            }
        }
    }
}

/// One step, with no binary64 result at hand.
pub open spec fn step_spec(m: Machine) -> (Machine, Outcome) {
    exec_spec(m, None)
}

/// Runs at most `fuel` steps, stopping at a halt or at the first step that
/// does not simply continue.
pub open spec fn run_spec(m: Machine, fuel: nat) -> (Machine, Outcome)
    decreases fuel,
{
    if fuel == 0 || m.halt {
        (m, Outcome::Continue)
    } else {
        let (m2, o) = step_spec(m);
        if o == Outcome::Continue {
            run_spec(m2, (fuel - 1) as nat)
        } else {
            (m2, o)
        }
    }
}

} // verus!
