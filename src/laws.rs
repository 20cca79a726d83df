use vstd::prelude::*;
use crate::word::{Word, TAG_F64};
use crate::error::Error;
use crate::opcode::OpcodeType;
use crate::machine::{
    Machine, Outcome, exec_spec, step_spec, check_regs, reg_at, reads_zero, SYSF_REGISTER,
};
use crate::osvm::{cur_op, machine_wf};
use crate::machine::run_spec;
use crate::image::{encode_image, decode_image, image_fits, lemma_decode_encode};
use crate::opcode::OpcodeView;
use crate::text::lines_of;
use crate::preprocessor::process_source_spec;
use crate::oasm::{assemble_spec, pass1, line_spec, resolve, unresolved, lookup};

verus! {

/// A trap, and a request for a binary64 result, leave the whole machine as
/// it was: every check of an instruction, its arity check first, comes
/// before any of its effects.
pub proof fn law_no_effect_before_checks(m: Machine, fr: Option<u64>)
    ensures
        exec_spec(m, fr).1 is Trap ==> exec_spec(m, fr).0 == m,
        exec_spec(m, fr).1 is Float ==> exec_spec(m, fr).0 == m,
{
}

/// After a `mov`, `movfs`, `push` or arithmetic instruction takes effect,
/// `tsr` holds the tag of the value it produced.
pub proof fn law_tsr_latches_result(m: Machine, fr: Option<u64>)
    requires
        machine_wf(m),
        m.pc < m.program.len(),
        exec_spec(m, fr).1 == Outcome::Continue,
    ensures
        ({
            let m2 = exec_spec(m, fr).0;
            let t = cur_op(m).op_type;
            &&& (t == OpcodeType::Mov || t == OpcodeType::Movfs || t == OpcodeType::Add
                || t == OpcodeType::Sub || t == OpcodeType::Mul || t == OpcodeType::Div
                || t == OpcodeType::Inc || t == OpcodeType::Dec) ==> m2.tsr
                == m2.regs[reg_at(cur_op(m), 0)].tag_spec()
            &&& (t == OpcodeType::Push || t == OpcodeType::Adds || t == OpcodeType::Subs
                || t == OpcodeType::Muls || t == OpcodeType::Divs) ==> m2.tsr
                == m2.stack.last().tag_spec()
        }),
{
}

/// An instruction that takes effect moves `pc` on by one, unless it is a
/// jump, a branch, a call or a return.
pub proof fn law_pc_advances_by_one(m: Machine, fr: Option<u64>)
    requires
        machine_wf(m),
        m.pc < m.program.len(),
        exec_spec(m, fr).1 is Continue || exec_spec(m, fr).1 is SysCall,
        ({
            let t = cur_op(m).op_type;
            t != OpcodeType::Jmp && t != OpcodeType::Jt && t != OpcodeType::Jz && t
                != OpcodeType::Jnz && t != OpcodeType::Jts && t != OpcodeType::Jzs && t
                != OpcodeType::Jnzs && t != OpcodeType::Call && t != OpcodeType::Ret
        }),
    ensures
        exec_spec(m, fr).0.pc == m.pc + 1,
{
}

/// `jt`, `jz` and `jnz` never touch the stack; `jts`, `jzs` and `jnzs` pop
/// exactly one cell; `eqs` pushes one cell and pops none.
pub proof fn law_branch_stack_effects(m: Machine)
    requires
        m.pc < m.program.len(),
    ensures
        ({
            let (m2, o) = step_spec(m);
            let t = cur_op(m).op_type;
            &&& (t == OpcodeType::Jt || t == OpcodeType::Jz || t == OpcodeType::Jnz) ==> m2.stack
                == m.stack
            &&& ((t == OpcodeType::Jts || t == OpcodeType::Jzs || t == OpcodeType::Jnzs) && o
                == Outcome::Continue) ==> m2.stack == m.stack.drop_last()
            &&& (t == OpcodeType::Equals && o == Outcome::Continue) ==> (m2.stack.len()
                == m.stack.len() + 1 && m2.stack.drop_last() == m.stack)
        }),
{
}

/// `div` traps with `DivByZero` when either operand reads as zero in the
/// flavor of the first.
pub proof fn law_div_by_zero(m: Machine, fr: Option<u64>)
    requires
        machine_wf(m),
        m.pc < m.program.len(),
        cur_op(m).op_type == OpcodeType::Div,
        check_regs(cur_op(m), 3) is None,
        ({
            let a = m.regs[reg_at(cur_op(m), 1)];
            let b = m.regs[reg_at(cur_op(m), 2)];
            reads_zero(a.tag_spec(), a.bits_spec()) || reads_zero(a.tag_spec(), b.bits_spec())
        }),
    ensures
        exec_spec(m, fr) == (m, Outcome::Trap(Error::DivByZero)),
{
}

/// `divs` traps with `DivByZero` when either of the top two cells reads as
/// zero in the flavor of the second.
pub proof fn law_divs_by_zero(m: Machine, fr: Option<u64>)
    requires
        m.pc < m.program.len(),
        cur_op(m).op_type == OpcodeType::Divs,
        m.stack.len() >= 2,
        ({
            let a = m.stack[m.stack.len() - 1];
            let b = m.stack[m.stack.len() - 2];
            reads_zero(b.tag_spec(), b.bits_spec()) || reads_zero(b.tag_spec(), a.bits_spec())
        }),
    ensures
        exec_spec(m, fr) == (m, Outcome::Trap(Error::DivByZero)),
{
}

/// `dupl k`, `swc k` and `movfs rD, k` trap with `StackUnderflow` when `k` is
/// at least the depth of the stack.
pub proof fn law_depth_past_stack(m: Machine, k: Word)
    requires
        m.pc < m.program.len(),
        cur_op(m).op_operand == Some(k),
        k.bits_spec() >= m.stack.len(),
        cur_op(m).op_type == OpcodeType::Dupl || cur_op(m).op_type == OpcodeType::Swc || (cur_op(
            m,
        ).op_type == OpcodeType::Movfs && check_regs(cur_op(m), 1) is None),
    ensures
        step_spec(m) == (m, Outcome::Trap(Error::StackUnderflow)),
{
}

/// `sysf` with `r7` at zero traps with `InvalidSysFunction`.
pub proof fn law_sysf_needs_selection(m: Machine)
    requires
        machine_wf(m),
        m.pc < m.program.len(),
        cur_op(m).op_type == OpcodeType::Sysf,
        cur_op(m).op_regs.len() == 0,
        m.regs[SYSF_REGISTER as int].bits_spec() == 0,
    ensures
        step_spec(m) == (m, Outcome::Trap(Error::InvalidSysFunction)),
{
}

/// `pop` on an empty stack traps with `StackUnderflow`; `pop rD` always
/// takes effect and writes `U64(0)` into `rD`, leaving the stack as it is.
pub proof fn law_pop(m: Machine)
    requires
        machine_wf(m),
        m.pc < m.program.len(),
        cur_op(m).op_type == OpcodeType::Pop,
    ensures
        cur_op(m).op_regs.len() == 0 && m.stack.len() == 0 ==> step_spec(m) == (
            m,
            Outcome::Trap(Error::StackUnderflow),
        ),
        check_regs(cur_op(m), 1) is None ==> ({
            let (m2, o) = step_spec(m);
            &&& o == Outcome::Continue
            &&& m2.regs[reg_at(cur_op(m), 0)] == Word::U64(0)
            &&& m2.stack == m.stack
        }),
{
}

/// A binary64 result handed back for an arithmetic instruction is written
/// as an `F64` word, and `tsr` then reads as the binary64 tag.
pub proof fn law_float_result_tagged(m: Machine, r: u64)
    requires
        machine_wf(m),
        m.pc < m.program.len(),
        step_spec(m).1 is Float,
    ensures
        exec_spec(m, Some(r)).1 == Outcome::Continue,
        exec_spec(m, Some(r)).0.tsr == TAG_F64,
        exec_spec(m, Some(r)).0.pc == m.pc + 1,
{
}

/// A machine runs the same whether its program is the one assembled or the
/// one loaded back from that program's image.
pub proof fn law_image_run(m: Machine, fuel: nat)
    requires
        image_fits(m.program),
    ensures
        decode_image(encode_image(m.program)) == Some(m.program),
        run_spec((Machine { program: decode_image(encode_image(m.program))->0, ..m }), fuel)
            == run_spec(m, fuel),
{
    lemma_decode_encode(m.program);
    assert((Machine { program: m.program, ..m }) == m);
}

/// Preprocessing and assembling depend on the source text alone: the same
/// text gives the same program, entry point and reports.
pub proof fn law_assembly_deterministic(a: Seq<char>, b: Seq<char>)
    requires
        a == b,
    ensures
        assemble_spec(process_source_spec(a)) == assemble_spec(process_source_spec(b)),
{
}

/// Without a `_start` label a program is entered at instruction 0.
pub proof fn law_default_entry(src: Seq<char>)
    requires
        pass1(lines_of(src)) is Ok,
        lookup(pass1(lines_of(src))->Ok_0.labels, "_start"@) is None,
    ensures
        assemble_spec(src)->Ok_0.entry == 0,
{
}

proof fn lemma_deferred_has_op(line: Seq<char>)
    ensures
        line_spec(line) is Some && line_spec(line)->0.deferred is Some ==> line_spec(line)->0.op is Some,
{
}

proof fn lemma_pass1_deferred_in_range(ls: Seq<Seq<char>>)
    requires
        pass1(ls) is Ok,
    ensures
        forall|i: int|
            0 <= i < pass1(ls)->Ok_0.deferred.len() ==> (#[trigger] pass1(ls)->Ok_0.deferred[i]).0
                < pass1(ls)->Ok_0.program.len(),
        pass1(ls)->Ok_0.program.len() <= ls.len(),
    decreases ls.len(),
{
    if ls.len() > 0 {
        lemma_pass1_deferred_in_range(ls.drop_last());
        lemma_deferred_has_op(ls.last());
    }
}

proof fn lemma_resolve(program: Seq<OpcodeView>, labels: Seq<(Seq<char>, usize)>, deferred: Seq<(usize, Seq<char>)>)
    ensures
        resolve(program, labels, deferred).len() == program.len(),
        forall|i: int|
            0 <= i < deferred.len() && (#[trigger] deferred[i]).0 < program.len() && lookup(
                labels,
                deferred[i].1,
            ) is Some ==> resolve(program, labels, deferred)[deferred[i].0 as int].op_operand is Some,
    decreases deferred.len(),
{
    if deferred.len() > 0 {
        let init = deferred.drop_last();
        lemma_resolve(program, labels, init);
        assert forall|i: int|
            0 <= i < deferred.len() && (#[trigger] deferred[i]).0 < program.len() && lookup(
                labels,
                deferred[i].1,
            ) is Some implies resolve(program, labels, deferred)[deferred[i].0 as int].op_operand is Some by {
            if i < deferred.len() - 1 {
                assert(init[i] == deferred[i]);
            }
        }
    }
}

proof fn lemma_unresolved_none(labels: Seq<(Seq<char>, usize)>, deferred: Seq<(usize, Seq<char>)>)
    requires
        unresolved(labels, deferred).len() == 0,
    ensures
        forall|i: int| 0 <= i < deferred.len() ==> lookup(labels, (#[trigger] deferred[i]).1) is Some,
    decreases deferred.len(),
{
    if deferred.len() > 0 {
        let init = deferred.drop_last();
        lemma_unresolved_none(labels, init);
        assert forall|i: int| 0 <= i < deferred.len() implies lookup(labels, (#[trigger] deferred[i]).1)
            is Some by {
            if i < deferred.len() - 1 {
                assert(init[i] == deferred[i]);
            }
        }
    }
}

/// Label resolution is complete: every instruction that named a defined
/// label holds that label's address, so when no label is reported unknown,
/// no instruction that named a label is left without an immediate.
pub proof fn law_labels_resolved(src: Seq<char>)
    requires
        pass1(lines_of(src)) is Ok,
    ensures
        ({
            let st = pass1(lines_of(src))->Ok_0;
            let p = assemble_spec(src)->Ok_0.program;
            &&& forall|i: int|
                0 <= i < st.deferred.len() && lookup(st.labels, (#[trigger] st.deferred[i]).1) is Some
                    ==> p[st.deferred[i].0 as int].op_operand is Some
            &&& unresolved(st.labels, st.deferred).len() == 0 ==> forall|i: int|
                0 <= i < st.deferred.len() ==> p[(#[trigger] st.deferred[i]).0 as int].op_operand is Some
        }),
{
    let st = pass1(lines_of(src))->Ok_0;
    lemma_pass1_deferred_in_range(lines_of(src));
    lemma_resolve(st.program, st.labels, st.deferred);
    if unresolved(st.labels, st.deferred).len() == 0 {
        lemma_unresolved_none(st.labels, st.deferred);
    }
}

} // verus!
