use vstd::prelude::*;
use crate::word::{Word, TAG_U64, TAG_I64, TAG_F64};
use crate::error::Error;
use crate::opcode::{Opcode, OpcodeType, OpcodeView, program_view};
use crate::oasm::{assemble, assemble_spec, AsmError, FloatLiteral, Diagnostic, floats_view, diags_view};
use crate::preprocessor::{Preprocessor, process_source_spec};
use crate::machine::{
    ArithOp, BitOp, Cond, F64_EXPONENT_MASK, F64_FRACTION_MASK, F64_MAGNITUDE_MASK, F64_ONE_BITS, FloatOp, FloatRequest, Machine, Outcome, REGISTER_COUNT, SYSF_REGISTER, SysFunction, arith3_spec, arith_stack_spec, bit_op_bits, bitwise_spec, branch_reg_spec, branch_stack_spec, check_regs, clr_spec, cond_holds, dupl_spec, equal_spec, equals_spec, exec_spec, flavor_eq, float_capable, float_op_of, incdec_spec, int_arith_bits, mov_spec, movfs_spec, not_spec, pop_spec, produce_reg, produce_stack2, push_spec, push_word, reads_zero, reg_at, register_index, register_index_of, registers_valid, run_spec, set_reg, srg_spec, step_spec, swc_spec, sysf_spec, arith_result,
};

verus! {

/// The virtual machine: seventeen registers, the type-state register `tsr`,
/// a one-deep saved return address, the program counter, a value stack, the
/// program and the table of system functions.
pub struct OSVM {
    regs: Vec<Word>,
    pub tsr: u8,
    rspc: usize,
    pc: usize,
    pub stack: Vec<Word>,
    pub program: Vec<Opcode>,
    pub sys_functions: Vec<SysFunction>,
    halt: bool,
}

impl View for OSVM {
    type V = Machine;

    closed spec fn view(&self) -> Machine {
        Machine {
            regs: self.regs@,
            tsr: self.tsr,
            rspc: self.rspc,
            pc: self.pc,
            stack: self.stack@,
            halt: self.halt,
            program: program_view(self.program@),
            sys: self.sys_functions@,
        }
    }
}

/// The register file has its seventeen registers, and the program fits in
/// memory.
pub open spec fn machine_wf(m: Machine) -> bool {
    m.regs.len() == REGISTER_COUNT && m.program.len() <= usize::MAX
}

/// The machine that `OSVM::init` builds.
pub open spec fn initial_machine() -> Machine {
    Machine {
        regs: Seq::new(REGISTER_COUNT as nat, |i: int| Word::U64(0)),
        tsr: TAG_U64,
        rspc: 0,
        pc: 0,
        stack: Seq::empty(),
        halt: false,
        program: Seq::empty(),
        sys: Seq::empty(),
    }
}

/// The table that `init_default_sysf` installs; `sysf` with `r7 == k` runs
/// entry `len - k`, so `r7 == 1` allocates and `r7 == 6` prints a pointer.
pub open spec fn default_sys_functions() -> Seq<SysFunction> {
    seq![
        SysFunction::PrintPtr,
        SysFunction::PrintF64,
        SysFunction::PrintI64,
        SysFunction::PrintU64,
        SysFunction::Free,
        SysFunction::Alloc,
    ]
}

pub open spec fn cur_op(m: Machine) -> OpcodeView {
    m.program[m.pc as int]
}

/// The register names of an instruction, resolved ahead of its execution.
struct Decoded {
    nregs: usize,
    regs: Option<Vec<usize>>,
    operand: Option<Word>,
}

impl Decoded {
    spec fn matches(&self, op: OpcodeView) -> bool {
        &&& self.nregs == op.op_regs.len()
        &&& self.operand == op.op_operand
        &&& (self.regs is Some <==> registers_valid(op))
        &&& self.regs is Some ==> {
            &&& self.regs->0@.len() == op.op_regs.len()
            &&& forall|k: int|
                0 <= k < op.op_regs.len() ==> #[trigger] self.regs->0@[k] as int == reg_at(op, k)
                    && self.regs->0@[k] < REGISTER_COUNT
        }
    }
}

fn decode(op: &Opcode) -> (d: Decoded)
    ensures
        d.matches(op@),
{
    let mut out: Vec<usize> = Vec::new();
    let mut i: usize = 0;
    while i < op.op_regs.len()
        invariant
            i <= op.op_regs.len(),
            out@.len() == i,
            forall|k: int| 0 <= k < i ==> #[trigger] register_index(op@.op_regs[k]) is Some,
            forall|k: int|
                0 <= k < i ==> #[trigger] out@[k] as int == reg_at(op@, k) && out@[k] < REGISTER_COUNT,
        decreases op.op_regs.len() - i,
    {
        match register_index_of(op.op_regs[i].as_str()) {
            Some(r) => {
                out.push(r);
            },
            None => {
                assert(register_index(op@.op_regs[i as int]) is None);
                return Decoded { nregs: op.op_regs.len(), regs: None, operand: op.op_operand };
            },
        }
        i += 1;
    }
    Decoded { nregs: op.op_regs.len(), regs: Some(out), operand: op.op_operand }
}

fn arity(d: &Decoded, n: usize, Ghost(op): Ghost<OpcodeView>) -> (r: Option<Error>)
    requires
        d.matches(op),
    ensures
        r == check_regs(op, n as int),
{
    if d.nregs < n {
        Some(Error::RegisterUnderflow)
    } else if d.nregs > n {
        Some(Error::RegisterOverflow)
    } else if d.regs.is_none() {
        Some(Error::InvalidRegister)
    } else {
        None
    }
}

fn reads_zero_exec(t: u8, b: u64) -> (r: bool)
    ensures
        r == reads_zero(t, b),
{
    if t == TAG_F64 {
        b & F64_MAGNITUDE_MASK == 0
    } else {
        b == 0
    }
}

fn flavor_eq_exec(t: u8, a: u64, b: u64) -> (r: bool)
    ensures
        r == flavor_eq(t, a, b),
{
    if t == TAG_F64 {
        let a_nan = a & F64_EXPONENT_MASK == F64_EXPONENT_MASK && a & F64_FRACTION_MASK != 0;
        let b_nan = b & F64_EXPONENT_MASK == F64_EXPONENT_MASK && b & F64_FRACTION_MASK != 0;
        !a_nan && !b_nan && (a == b || (a & F64_MAGNITUDE_MASK == 0 && b & F64_MAGNITUDE_MASK == 0))
    } else {
        a == b
    }
}

fn int_arith_exec(op: ArithOp, t: u8, a: u64, b: u64) -> (r: u64)
    ensures
        r == int_arith_bits(op, t, a, b),
{
    match op {
        ArithOp::Add => a.wrapping_add(b),
        ArithOp::Sub => a.wrapping_sub(b),
        ArithOp::Mul => a.wrapping_mul(b),
        ArithOp::Div => {
            if t == TAG_I64 {
                match (a as i64).checked_div(b as i64) {
                    Some(q) => q as u64,
                    None => a,
                }
            } else if b == 0 {
                0
            } else {
                a / b
            }
        },
    }
}

fn bit_op_exec(op: BitOp, t: u8, a: u64, b: u64) -> (r: u64)
    ensures
        r == bit_op_bits(op, t, a, b),
{
    match op {
        BitOp::And => a & b,
        BitOp::Or => a | b,
        BitOp::Xor => a ^ b,
        BitOp::Shl => a.wrapping_shl(b as u32),
        BitOp::Shr => {
            if t == TAG_I64 {
                ((a as i64).wrapping_shr(b as u32)) as u64
            } else {
                a.wrapping_shr(b as u32)
            }
        },
    }
}

fn float_op_exec(op: ArithOp) -> (r: FloatOp)
    ensures
        r == float_op_of(op),
{
    match op {
        ArithOp::Add => FloatOp::Add,
        ArithOp::Sub => FloatOp::Sub,
        ArithOp::Mul => FloatOp::Mul,
        ArithOp::Div => FloatOp::Div,
    }
}

fn arith_exec(t: u8, aop: ArithOp, a: u64, b: u64, fr: Option<u64>) -> (r: Result<Word, Outcome>)
    ensures
        r == arith_result(t, aop, a, b, fr),
{
    if aop == ArithOp::Div && (reads_zero_exec(t, a) || reads_zero_exec(t, b)) {
        Err(Outcome::Trap(Error::DivByZero))
    } else if t == TAG_F64 {
        match fr {
            None => Err(Outcome::Float(FloatRequest { op: float_op_exec(aop), lhs: a, rhs: b })),
            Some(r) => Ok(Word::F64(r)),
        }
    } else {
        match fr {
            Some(_) => Err(Outcome::Trap(Error::InvalidOperand)),
            None => Ok(Word::from_parts(t, int_arith_exec(aop, t, a, b))),
        }
    }
}

fn cond_exec(c: Cond, v: u64) -> (r: bool)
    ensures
        r == cond_holds(c, v),
{
    match c {
        Cond::IsOne => v == 1,
        Cond::IsZero => v == 0,
        Cond::NonZero => v != 0,
    }
}

fn float_capable_exec(t: OpcodeType) -> (r: bool)
    ensures
        r == float_capable(t),
{
    match t {
        OpcodeType::Add | OpcodeType::Sub | OpcodeType::Mul | OpcodeType::Div | OpcodeType::Inc
        | OpcodeType::Dec | OpcodeType::Adds | OpcodeType::Subs | OpcodeType::Muls
        | OpcodeType::Divs => true,
        _ => false,
    }
}

impl OSVM {
    /// Whether the register file is complete.
    pub open spec fn wf(&self) -> bool {
        machine_wf(self@)
    }

    /// A machine with every register at `U64(0)`, `tsr`, `rspc` and `pc` at
    /// zero, and an empty stack, program and system-function table.
    pub fn init() -> (r: OSVM)
        ensures
            r.wf(),
            r@ == initial_machine(),
    {
        let mut regs: Vec<Word> = Vec::new();
        let mut i: usize = 0;
        while i < REGISTER_COUNT
            invariant
                i <= REGISTER_COUNT,
                regs@ == Seq::new(i as nat, |k: int| Word::U64(0)),
            decreases REGISTER_COUNT - i,
        {
            regs.push(Word::U64(0));
            i += 1;
            assert(regs@ =~= Seq::new(i as nat, |k: int| Word::U64(0)));
        }
        let r = OSVM {
            regs,
            tsr: TAG_U64,
            rspc: 0,
            pc: 0,
            stack: Vec::new(),
            program: Vec::new(),
            sys_functions: Vec::new(),
            halt: false,
        };
        assert(r@.program =~= Seq::<OpcodeView>::empty());
        r
    }

    /// Installs the bundled system functions.
    pub fn init_default_sysf(&mut self)
        ensures
            final(self)@ == (Machine { sys: default_sys_functions(), ..old(self)@ }),
    {
        self.sys_functions = vec![
            SysFunction::PrintPtr,
            SysFunction::PrintF64,
            SysFunction::PrintI64,
            SysFunction::PrintU64,
            SysFunction::Free,
            SysFunction::Alloc,
        ];
        assert(self.sys_functions@ =~= default_sys_functions());
    }

    /// Appends instructions to the program.
    pub fn load_program_from_memory(&mut self, program: Vec<Opcode>)
        ensures
            final(self)@ == (Machine {
                program: old(self)@.program + program_view(program@),
                ..old(self)@
            }),
    {
        let mut program = program;
        let ghost before = self.program@;
        let ghost added = program@;
        self.program.append(&mut program);
        assert(program_view(self.program@) =~= program_view(before) + program_view(added));
    }

    /// Preprocesses and assembles `source`, then makes the result the
    /// program, with `pc` at its entry point. Hands back the binary64
    /// literals left to the host and the assembler's reports; on a fatal
    /// error the machine is left as it was.
    pub fn translate_source(&mut self, source: String) -> (r: Result<
        (Vec<FloatLiteral>, Vec<Diagnostic>),
        AsmError,
    >)
        ensures
            match r {
                Ok((f, d)) => {
                    &&& assemble_spec(process_source_spec(source@)) is Ok
                    &&& final(self)@ == (Machine {
                        program: assemble_spec(process_source_spec(source@))->Ok_0.program,
                        pc: assemble_spec(process_source_spec(source@))->Ok_0.entry,
                        ..old(self)@
                    })
                    &&& floats_view(f@) == assemble_spec(process_source_spec(source@))->Ok_0.floats
                    &&& diags_view(d@) == assemble_spec(process_source_spec(source@))->Ok_0.diags
                },
                Err(e) => {
                    &&& assemble_spec(process_source_spec(source@)) == Err::<
                        crate::oasm::AssemblyView,
                        usize,
                    >(e.line)
                    &&& final(self)@ == old(self)@
                },
            },
    {
        let pre = Preprocessor {};
        let text = pre.process_source(source);
        match assemble(&text) {
            Err(e) => Err(e),
            Ok(a) => {
                self.program = a.program;
                self.pc = a.entry;
                Ok((a.float_literals, a.diagnostics))
            },
        }
    }

    /// Writes `new_value` into the register named at position `index` of
    /// the instruction; a name that is no register changes nothing.
    pub fn assign_register(&mut self, opcode: &Opcode, index: usize, new_value: Word)
        requires
            old(self).wf(),
            index < opcode.op_regs.len(),
        ensures
            final(self).wf(),
            final(self)@ == match register_index(opcode@.op_regs[index as int]) {
                Some(r) => set_reg(old(self)@, r, new_value),
                None => old(self)@,
            },
    {
        if let Some(r) = register_index_of(opcode.op_regs[index].as_str()) {
            self.regs.set(r, new_value);
        }
    }

    /// The value of the register named at position `index` of the
    /// instruction, if the name is a register.
    pub fn find_register(&self, opcode: &Opcode, index: usize) -> (r: Option<Word>)
        requires
            self.wf(),
            index < opcode.op_regs.len(),
        ensures
            r == match register_index(opcode@.op_regs[index as int]) {
                Some(i) => Some(self@.regs[i]),
                None => None,
            },
    {
        match register_index_of(opcode.op_regs[index].as_str()) {
            Some(i) => Some(self.regs[i]),
            None => None,
        }
    }

    /// Latches the tag of `value` in `tsr`.
    pub fn set_tsr(&mut self, value: Word)
        ensures
            final(self)@ == (Machine { tsr: value.tag_spec(), ..old(self)@ }),
    {
        self.tsr = value.tag();
    }

    pub fn register(&self, i: usize) -> (r: Word)
        requires
            self.wf(),
            i < REGISTER_COUNT,
        ensures
            r == self@.regs[i as int],
    {
        self.regs[i]
    }

    pub fn set_register(&mut self, i: usize, w: Word)
        requires
            old(self).wf(),
            i < REGISTER_COUNT,
        ensures
            final(self)@ == set_reg(old(self)@, i as int, w),
            final(self).wf(),
    {
        self.regs.set(i, w);
    }

    pub fn pc(&self) -> (r: usize)
        ensures
            r == self@.pc,
    {
        self.pc
    }

    /// Sets the program counter, as the entry point of a program does.
    pub fn set_pc(&mut self, pc: usize)
        ensures
            final(self)@ == (Machine { pc, ..old(self)@ }),
    {
        self.pc = pc;
    }

    pub fn rspc(&self) -> (r: usize)
        ensures
            r == self@.rspc,
    {
        self.rspc
    }

    pub fn halted(&self) -> (r: bool)
        ensures
            r == self@.halt,
    {
        self.halt
    }

    fn produce_reg_exec(&mut self, i: usize, w: Word) -> (r: Outcome)
        requires
            old(self).wf(),
            old(self).pc < old(self).program.len(),
            i < REGISTER_COUNT,
        ensures
            final(self).wf(),
            final(self).program == old(self).program,
            (final(self)@, r) == produce_reg(old(self)@, i as int, w),
    {
        self.regs.set(i, w);
        self.tsr = w.tag();
        self.pc = self.pc + 1;
        Outcome::Continue
    }

    fn produce_stack2_exec(&mut self, w: Word) -> (r: Outcome)
        requires
            old(self).wf(),
            old(self).pc < old(self).program.len(),
            old(self).stack.len() >= 2,
        ensures
            final(self).wf(),
            (final(self)@, r) == produce_stack2(old(self)@, w),
    {
        self.stack.pop();
        self.stack.pop();
        self.stack.push(w);
        self.tsr = w.tag();
        self.pc = self.pc + 1;
        Outcome::Continue
    }

    fn push_word_exec(&mut self, w: Word) -> (r: Outcome)
        requires
            old(self).wf(),
            old(self).pc < old(self).program.len(),
        ensures
            final(self).wf(),
            (final(self)@, r) == push_word(old(self)@, w),
    {
        self.stack.push(w);
        self.tsr = w.tag();
        self.pc = self.pc + 1;
        Outcome::Continue
    }

    fn exec_mov(&mut self, d: &Decoded) -> (r: Outcome)
        requires
            old(self).wf(),
            old(self).pc < old(self).program.len(),
            d.matches(cur_op(old(self)@)),
        ensures
            final(self).wf(),
            (final(self)@, r) == mov_spec(old(self)@, cur_op(old(self)@)),
    {
        let ghost op = cur_op(self@);
        match d.operand {
            None => {
                if let Some(e) = arity(d, 2, Ghost(op)) {
                    return Outcome::Trap(e);
                }
                let rs = d.regs.as_ref().unwrap();
                let v = self.regs[rs[1]];
                self.produce_reg_exec(rs[0], v)
            },
            Some(w) => {
                if let Some(e) = arity(d, 1, Ghost(op)) {
                    return Outcome::Trap(e);
                }
                let rs = d.regs.as_ref().unwrap();
                self.produce_reg_exec(rs[0], w)
            },
        }
    }

    fn exec_movfs(&mut self, d: &Decoded, depth: Option<Word>) -> (r: Outcome)
        requires
            old(self).wf(),
            old(self).pc < old(self).program.len(),
            d.matches(cur_op(old(self)@)),
        ensures
            final(self).wf(),
            (final(self)@, r) == movfs_spec(old(self)@, cur_op(old(self)@), depth),
    {
        let ghost op = cur_op(self@);
        if let Some(e) = arity(d, 1, Ghost(op)) {
            return Outcome::Trap(e);
        }
        match depth {
            None => Outcome::Trap(Error::InvalidOperand),
            Some(w) => {
                let k = w.to_u64();
                if k >= self.stack.len() as u64 {
                    return Outcome::Trap(Error::StackUnderflow);
                }
                let v = self.stack[self.stack.len() - 1 - k as usize];
                let rs = d.regs.as_ref().unwrap();
                self.produce_reg_exec(rs[0], v)
            },
        }
    }

    fn exec_srg(&mut self, d: &Decoded) -> (r: Outcome)
        requires
            old(self).wf(),
            old(self).pc < old(self).program.len(),
            d.matches(cur_op(old(self)@)),
        ensures
            final(self).wf(),
            (final(self)@, r) == srg_spec(old(self)@, cur_op(old(self)@)),
    {
        let ghost op = cur_op(self@);
        if let Some(e) = arity(d, 2, Ghost(op)) {
            return Outcome::Trap(e);
        }
        let rs = d.regs.as_ref().unwrap();
        let a = self.regs[rs[0]];
        let b = self.regs[rs[1]];
        self.regs.set(rs[0], b);
        self.regs.set(rs[1], a);
        self.tsr = a.tag();
        self.pc = self.pc + 1;
        Outcome::Continue
    }

    fn exec_clr(&mut self, d: &Decoded) -> (r: Outcome)
        requires
            old(self).wf(),
            old(self).pc < old(self).program.len(),
            d.matches(cur_op(old(self)@)),
        ensures
            final(self).wf(),
            (final(self)@, r) == clr_spec(old(self)@, cur_op(old(self)@)),
    {
        let ghost op = cur_op(self@);
        if let Some(e) = arity(d, 1, Ghost(op)) {
            return Outcome::Trap(e);
        }
        let rs = d.regs.as_ref().unwrap();
        self.produce_reg_exec(rs[0], Word::U64(0))
    }

    fn exec_arith3(&mut self, d: &Decoded, aop: ArithOp, fr: Option<u64>) -> (r: Outcome)
        requires
            old(self).wf(),
            old(self).pc < old(self).program.len(),
            d.matches(cur_op(old(self)@)),
        ensures
            final(self).wf(),
            (final(self)@, r) == arith3_spec(old(self)@, cur_op(old(self)@), aop, fr),
    {
        let ghost op = cur_op(self@);
        if let Some(e) = arity(d, 3, Ghost(op)) {
            return Outcome::Trap(e);
        }
        let rs = d.regs.as_ref().unwrap();
        let a = self.regs[rs[1]];
        let b = self.regs[rs[2]];
        match arith_exec(a.tag(), aop, a.to_u64(), b.to_u64(), fr) {
            Err(o) => o,
            Ok(w) => self.produce_reg_exec(rs[0], w),
        }
    }

    fn exec_incdec(&mut self, d: &Decoded, aop: ArithOp, fr: Option<u64>) -> (r: Outcome)
        requires
            old(self).wf(),
            old(self).pc < old(self).program.len(),
            d.matches(cur_op(old(self)@)),
        ensures
            final(self).wf(),
            (final(self)@, r) == incdec_spec(old(self)@, cur_op(old(self)@), aop, fr),
    {
        let ghost op = cur_op(self@);
        if let Some(e) = arity(d, 1, Ghost(op)) {
            return Outcome::Trap(e);
        }
        let rs = d.regs.as_ref().unwrap();
        let a = self.regs[rs[0]];
        let one: u64 = if a.tag() == TAG_F64 { F64_ONE_BITS } else { 1u64 };
        match arith_exec(a.tag(), aop, a.to_u64(), one, fr) {
            Err(o) => o,
            Ok(w) => self.produce_reg_exec(rs[0], w),
        }
    }

    fn exec_arith_stack(&mut self, aop: ArithOp, fr: Option<u64>) -> (r: Outcome)
        requires
            old(self).wf(),
            old(self).pc < old(self).program.len(),
        ensures
            final(self).wf(),
            (final(self)@, r) == arith_stack_spec(old(self)@, aop, fr),
    {
        let n = self.stack.len();
        if n < 2 {
            return Outcome::Trap(Error::StackUnderflow);
        }
        let a = self.stack[n - 1];
        let b = self.stack[n - 2];
        match arith_exec(b.tag(), aop, b.to_u64(), a.to_u64(), fr) {
            Err(o) => o,
            Ok(w) => self.produce_stack2_exec(w),
        }
    }

    fn exec_equal(&mut self, d: &Decoded) -> (r: Outcome)
        requires
            old(self).wf(),
            old(self).pc < old(self).program.len(),
            d.matches(cur_op(old(self)@)),
        ensures
            final(self).wf(),
            (final(self)@, r) == equal_spec(old(self)@, cur_op(old(self)@)),
    {
        let ghost op = cur_op(self@);
        if let Some(e) = arity(d, 3, Ghost(op)) {
            return Outcome::Trap(e);
        }
        let rs = d.regs.as_ref().unwrap();
        let a = self.regs[rs[1]];
        let b = self.regs[rs[2]];
        let t = a.tag();
        let w = Word::U64(if flavor_eq_exec(t, a.to_u64(), b.to_u64()) { 1 } else { 0 });
        self.regs.set(rs[0], w);
        self.tsr = t;
        self.pc = self.pc + 1;
        Outcome::Continue
    }

    fn exec_equals(&mut self) -> (r: Outcome)
        requires
            old(self).wf(),
            old(self).pc < old(self).program.len(),
        ensures
            final(self).wf(),
            (final(self)@, r) == equals_spec(old(self)@),
    {
        let n = self.stack.len();
        if n < 2 {
            return Outcome::Trap(Error::StackUnderflow);
        }
        let a = self.stack[n - 1];
        let b = self.stack[n - 2];
        let t = b.tag();
        let w = Word::U64(if flavor_eq_exec(t, b.to_u64(), a.to_u64()) { 1 } else { 0 });
        self.stack.push(w);
        self.tsr = t;
        self.pc = self.pc + 1;
        Outcome::Continue
    }

    fn exec_branch_reg(&mut self, d: &Decoded, c: Cond) -> (r: Outcome)
        requires
            old(self).wf(),
            old(self).pc < old(self).program.len(),
            d.matches(cur_op(old(self)@)),
        ensures
            final(self).wf(),
            (final(self)@, r) == branch_reg_spec(old(self)@, cur_op(old(self)@), c),
    {
        let ghost op = cur_op(self@);
        if let Some(e) = arity(d, 1, Ghost(op)) {
            return Outcome::Trap(e);
        }
        match d.operand {
            None => Outcome::Trap(Error::InvalidOperand),
            Some(t) => {
                let rs = d.regs.as_ref().unwrap();
                if cond_exec(c, self.regs[rs[0]].to_u64()) {
                    self.pc = t.to_usize();
                } else {
                    self.pc = self.pc + 1;
                }
                Outcome::Continue
            },
        }
    }

    fn exec_branch_stack(&mut self, d: &Decoded, c: Cond) -> (r: Outcome)
        requires
            old(self).wf(),
            old(self).pc < old(self).program.len(),
            d.matches(cur_op(old(self)@)),
        ensures
            final(self).wf(),
            (final(self)@, r) == branch_stack_spec(old(self)@, cur_op(old(self)@), c),
    {
        if self.stack.len() < 1 {
            return Outcome::Trap(Error::StackUnderflow);
        }
        match d.operand {
            None => Outcome::Trap(Error::InvalidOperand),
            Some(t) => {
                let a = self.stack.pop().unwrap();
                if cond_exec(c, a.to_u64()) {
                    self.pc = t.to_usize();
                } else {
                    self.pc = self.pc + 1;
                }
                Outcome::Continue
            },
        }
    }

    fn exec_sysf(&mut self, d: &Decoded) -> (r: Outcome)
        requires
            old(self).wf(),
            old(self).pc < old(self).program.len(),
            d.matches(cur_op(old(self)@)),
        ensures
            final(self).wf(),
            (final(self)@, r) == sysf_spec(old(self)@, cur_op(old(self)@)),
    {
        if d.nregs > 1 {
            return Outcome::Trap(Error::RegisterOverflow);
        }
        let rs = match d.regs.as_ref() {
            None => {
                return Outcome::Trap(Error::InvalidRegister);
            },
            Some(rs) => rs,
        };
        let k = self.regs[SYSF_REGISTER].to_u64();
        let n = self.sys_functions.len();
        if k == 0 || k > n as u64 {
            return Outcome::Trap(Error::InvalidSysFunction);
        }
        let f = self.sys_functions[n - k as usize];
        let target = if d.nregs == 1 { Some(rs[0]) } else { None };
        self.pc = self.pc + 1;
        Outcome::SysCall(f, target)
    }

    fn exec_push(&mut self, d: &Decoded) -> (r: Outcome)
        requires
            old(self).wf(),
            old(self).pc < old(self).program.len(),
            d.matches(cur_op(old(self)@)),
        ensures
            final(self).wf(),
            (final(self)@, r) == push_spec(old(self)@, cur_op(old(self)@)),
    {
        let ghost op = cur_op(self@);
        match d.operand {
            None => {
                if let Some(e) = arity(d, 1, Ghost(op)) {
                    return Outcome::Trap(e);
                }
                let rs = d.regs.as_ref().unwrap();
                let v = self.regs[rs[0]];
                self.push_word_exec(v)
            },
            Some(w) => {
                if let Some(e) = arity(d, 0, Ghost(op)) {
                    return Outcome::Trap(e);
                }
                self.push_word_exec(w)
            },
        }
    }

    fn exec_dupl(&mut self, d: &Decoded) -> (r: Outcome)
        requires
            old(self).wf(),
            old(self).pc < old(self).program.len(),
            d.matches(cur_op(old(self)@)),
        ensures
            final(self).wf(),
            (final(self)@, r) == dupl_spec(old(self)@, cur_op(old(self)@)),
    {
        match d.operand {
            None => Outcome::Trap(Error::InvalidOperand),
            Some(w) => {
                let k = w.to_u64();
                if k >= self.stack.len() as u64 {
                    return Outcome::Trap(Error::StackUnderflow);
                }
                let v = self.stack[self.stack.len() - 1 - k as usize];
                self.push_word_exec(v)
            },
        }
    }

    fn exec_swc(&mut self, d: &Decoded) -> (r: Outcome)
        requires
            old(self).wf(),
            old(self).pc < old(self).program.len(),
            d.matches(cur_op(old(self)@)),
        ensures
            final(self).wf(),
            (final(self)@, r) == swc_spec(old(self)@, cur_op(old(self)@)),
    {
        match d.operand {
            None => Outcome::Trap(Error::InvalidOperand),
            Some(w) => {
                let k = w.to_u64();
                if k >= self.stack.len() as u64 {
                    return Outcome::Trap(Error::StackUnderflow);
                }
                let i = self.stack.len() - 1;
                let j = i - k as usize;
                let x = self.stack[i];
                let y = self.stack[j];
                self.stack.set(i, y);
                self.stack.set(j, x);
                self.pc = self.pc + 1;
                Outcome::Continue
            },
        }
    }

    fn exec_bitwise(&mut self, d: &Decoded, bop: BitOp) -> (r: Outcome)
        requires
            old(self).wf(),
            old(self).pc < old(self).program.len(),
            d.matches(cur_op(old(self)@)),
        ensures
            final(self).wf(),
            (final(self)@, r) == bitwise_spec(old(self)@, cur_op(old(self)@), bop),
    {
        let ghost op = cur_op(self@);
        if d.nregs == 0 {
            let n = self.stack.len();
            if n < 2 {
                return Outcome::Trap(Error::StackUnderflow);
            }
            let a = self.stack[n - 1];
            let b = self.stack[n - 2];
            let t = b.tag();
            if t == TAG_F64 {
                self.tsr = t;
                self.pc = self.pc + 1;
                return Outcome::Continue;
            }
            self.produce_stack2_exec(Word::from_parts(t, bit_op_exec(bop, t, b.to_u64(), a.to_u64())))
        } else {
            if let Some(e) = arity(d, 3, Ghost(op)) {
                return Outcome::Trap(e);
            }
            let rs = d.regs.as_ref().unwrap();
            let a = self.regs[rs[1]];
            let b = self.regs[rs[2]];
            let t = a.tag();
            if t == TAG_F64 {
                self.tsr = t;
                self.pc = self.pc + 1;
                return Outcome::Continue;
            }
            self.produce_reg_exec(rs[0], Word::from_parts(t, bit_op_exec(bop, t, a.to_u64(), b.to_u64())))
        }
    }

    fn exec_not(&mut self, d: &Decoded) -> (r: Outcome)
        requires
            old(self).wf(),
            old(self).pc < old(self).program.len(),
            d.matches(cur_op(old(self)@)),
        ensures
            final(self).wf(),
            (final(self)@, r) == not_spec(old(self)@, cur_op(old(self)@)),
    {
        let ghost op = cur_op(self@);
        if d.nregs == 0 {
            let n = self.stack.len();
            if n < 1 {
                return Outcome::Trap(Error::StackUnderflow);
            }
            let a = self.stack[n - 1];
            let t = a.tag();
            if t == TAG_F64 {
                self.tsr = t;
                self.pc = self.pc + 1;
                return Outcome::Continue;
            }
            self.stack.pop();
            self.stack.push(Word::from_parts(t, !a.to_u64()));
            self.tsr = t;
            self.pc = self.pc + 1;
            Outcome::Continue
        } else {
            if let Some(e) = arity(d, 2, Ghost(op)) {
                return Outcome::Trap(e);
            }
            let rs = d.regs.as_ref().unwrap();
            let a = self.regs[rs[1]];
            let t = a.tag();
            if t == TAG_F64 {
                self.tsr = t;
                self.pc = self.pc + 1;
                return Outcome::Continue;
            }
            self.produce_reg_exec(rs[0], Word::from_parts(t, !a.to_u64()))
        }
    }

    fn exec_pop(&mut self, d: &Decoded) -> (r: Outcome)
        requires
            old(self).wf(),
            old(self).pc < old(self).program.len(),
            d.matches(cur_op(old(self)@)),
        ensures
            final(self).wf(),
            (final(self)@, r) == pop_spec(old(self)@, cur_op(old(self)@)),
    {
        if d.nregs == 0 {
            if self.stack.len() < 1 {
                return Outcome::Trap(Error::StackUnderflow);
            }
            self.stack.pop();
            self.pc = self.pc + 1;
            Outcome::Continue
        } else {
            self.exec_clr(d)
        }
    }

    fn execute(&mut self, fr: Option<u64>) -> (r: Outcome)
        requires
            old(self).wf(),
        ensures
            final(self).wf(),
            (final(self)@, r) == exec_spec(old(self)@, fr),
    {
        if self.pc >= self.program.len() {
            return Outcome::Trap(Error::InvalidOpcodeAccess);
        }
        let d = decode(&self.program[self.pc]);
        let kind = self.program[self.pc].op_type;
        proof {
            assert(cur_op(self@) == self.program@[self.pc as int]@);
        }
        if fr.is_some() && !float_capable_exec(kind) {
            return Outcome::Trap(Error::InvalidOperand);
        }
        match kind {
            OpcodeType::Nop => Outcome::Trap(Error::InvalidOperand),
            OpcodeType::Mov => self.exec_mov(&d),
            OpcodeType::Movfs => {
                let depth = d.operand;
                self.exec_movfs(&d, depth)
            },
            OpcodeType::Phsr => self.exec_movfs(&d, Some(Word::U64(0))),
            OpcodeType::Srg => self.exec_srg(&d),
            OpcodeType::Clr => self.exec_clr(&d),
            OpcodeType::Add => self.exec_arith3(&d, ArithOp::Add, fr),
            OpcodeType::Sub => self.exec_arith3(&d, ArithOp::Sub, fr),
            OpcodeType::Mul => self.exec_arith3(&d, ArithOp::Mul, fr),
            OpcodeType::Div => self.exec_arith3(&d, ArithOp::Div, fr),
            OpcodeType::Dec => self.exec_incdec(&d, ArithOp::Sub, fr),
            OpcodeType::Inc => self.exec_incdec(&d, ArithOp::Add, fr),
            OpcodeType::Equal => self.exec_equal(&d),
            OpcodeType::Jt => self.exec_branch_reg(&d, Cond::IsOne),
            OpcodeType::Jz => self.exec_branch_reg(&d, Cond::IsZero),
            OpcodeType::Jnz => self.exec_branch_reg(&d, Cond::NonZero),
            OpcodeType::Sysf => self.exec_sysf(&d),
            OpcodeType::Push => self.exec_push(&d),
            OpcodeType::Dupl => self.exec_dupl(&d),
            OpcodeType::Adds => self.exec_arith_stack(ArithOp::Add, fr),
            OpcodeType::Subs => self.exec_arith_stack(ArithOp::Sub, fr),
            OpcodeType::Muls => self.exec_arith_stack(ArithOp::Mul, fr),
            OpcodeType::Divs => self.exec_arith_stack(ArithOp::Div, fr),
            OpcodeType::Equals => self.exec_equals(),
            OpcodeType::Jts => self.exec_branch_stack(&d, Cond::IsOne),
            OpcodeType::Jzs => self.exec_branch_stack(&d, Cond::IsZero),
            OpcodeType::Jnzs => self.exec_branch_stack(&d, Cond::NonZero),
            OpcodeType::Swc => self.exec_swc(&d),
            OpcodeType::Jmp => match d.operand {
                None => Outcome::Trap(Error::InvalidOperand),
                Some(t) => {
                    self.pc = t.to_usize();
                    Outcome::Continue
                },
            },
            OpcodeType::Call => match d.operand {
                None => Outcome::Trap(Error::InvalidOperand),
                Some(t) => {
                    self.rspc = self.pc + 1;
                    self.pc = t.to_usize();
                    Outcome::Continue
                },
            },
            OpcodeType::And => self.exec_bitwise(&d, BitOp::And),
            OpcodeType::Or => self.exec_bitwise(&d, BitOp::Or),
            OpcodeType::Xor => self.exec_bitwise(&d, BitOp::Xor),
            OpcodeType::Shl => self.exec_bitwise(&d, BitOp::Shl),
            OpcodeType::Shr => self.exec_bitwise(&d, BitOp::Shr),
            OpcodeType::Not => self.exec_not(&d),
            OpcodeType::Pop => self.exec_pop(&d),
            OpcodeType::Ret => {
                self.pc = self.rspc;
                self.rspc = 0;
                Outcome::Continue
            },
            OpcodeType::Hlt => {
                self.halt = true;
                self.pc = self.pc + 1;
                Outcome::Continue
            },
        }
    }

    /// Executes the instruction at `pc`. A trap leaves the machine as it
    /// was; so does a request for a binary64 result, which the host answers
    /// through `complete_float`.
    pub fn execute_opcode(&mut self) -> (r: Outcome)
        requires
            old(self).wf(),
        ensures
            final(self).wf(),
            (final(self)@, r) == step_spec(old(self)@),
    {
        self.execute(None)
    }

    /// Finishes the instruction at `pc` with the host's binary64 `result`,
    /// after `execute_opcode` asked for it; any other instruction traps with
    /// `InvalidOperand` and leaves the machine as it was.
    pub fn complete_float(&mut self, result: u64) -> (r: Outcome)
        requires
            old(self).wf(),
        ensures
            final(self).wf(),
            (final(self)@, r) == exec_spec(old(self)@, Some(result)),
    {
        self.execute(Some(result))
    }

    /// Runs until the machine halts, an instruction does not simply continue
    /// (a trap, a system call or a binary64 request, which is returned), or
    /// `fuel` instructions have run.
    pub fn execute_program(&mut self, fuel: u64) -> (r: Outcome)
        requires
            old(self).wf(),
        ensures
            final(self).wf(),
            (final(self)@, r) == run_spec(old(self)@, fuel as nat),
    {
        let mut left = fuel;
        while left > 0 && !self.halt
            invariant
                self.wf(),
                run_spec(self@, left as nat) == run_spec(old(self)@, fuel as nat),
            decreases left,
        {
            let o = self.execute_opcode();
            if o != Outcome::Continue {
                return o;
            }
            left = left - 1;
        }
        Outcome::Continue
    }
}

} // verus!
