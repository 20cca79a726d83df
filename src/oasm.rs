use vstd::prelude::*;
use crate::word::Word;
use crate::opcode::{Opcode, OpcodeType, OpcodeView, strings_view, program_view};
use crate::text::{
    trim, split_ws_once, lines_of, lines_view, chars_of, string_of, slice_of, trim_exec,
    split_ws_once_exec, lines_exec,
};
use crate::number::{parse_u64_spec, parse_i64_spec, parse_u64, parse_i64};

verus! {

/// A label and the index of the instruction it names.
#[derive(Clone, Debug)]
pub struct Label {
    pub name: String,
    pub addr: usize,
}

/// An instruction whose immediate is the address of a label, to be filled
/// in once every label is known.
#[derive(Clone, Debug)]
pub struct DeferredOperand {
    pub addr: usize,
    pub label: String,
}

/// The tables of the assembler: labels, and instructions waiting for one.
pub struct OASM {
    pub labels: Vec<Label>,
    pub deferred_operands: Vec<DeferredOperand>,
}

pub open spec fn labels_view(v: Seq<Label>) -> Seq<(Seq<char>, usize)> {
    v.map_values(|l: Label| (l.name@, l.addr))
}

pub open spec fn deferred_view(v: Seq<DeferredOperand>) -> Seq<(usize, Seq<char>)> {
    v.map_values(|d: DeferredOperand| (d.addr, d.label@))
}

/// The address of the first label of the given name, from the `i`-th on.
pub open spec fn lookup_from(labels: Seq<(Seq<char>, usize)>, name: Seq<char>, i: int) -> Option<usize>
    decreases labels.len() - i,
{
    if i < 0 || i >= labels.len() {
        None
    } else if labels[i].0 == name {
        Some(labels[i].1)
    } else {
        lookup_from(labels, name, i + 1)
    }
}

/// The address of the first label of the given name.
pub open spec fn lookup(labels: Seq<(Seq<char>, usize)>, name: Seq<char>) -> Option<usize> {
    lookup_from(labels, name, 0)
}

impl OASM {
    pub fn init() -> (r: OASM)
        ensures
            r.labels@.len() == 0,
            r.deferred_operands@.len() == 0,
    {
        OASM { labels: Vec::new(), deferred_operands: Vec::new() }
    }

    /// The address of the first label named `label_name`.
    pub fn labels_contains(&self, label_name: &str) -> (r: Option<usize>)
        ensures
            r == lookup(labels_view(self.labels@), label_name@),
    {
        let ghost lv = labels_view(self.labels@);
        let mut i: usize = 0;
        while i < self.labels.len()
            invariant
                i <= self.labels.len(),
                lv == labels_view(self.labels@),
                lookup(lv, label_name@) == lookup_from(lv, label_name@, i as int),
            decreases self.labels.len() - i,
        {
            if self.labels[i].name.as_str().unicode_len() == label_name.unicode_len() && same_text(
                self.labels[i].name.as_str(),
                label_name,
            ) {
                return Some(self.labels[i].addr);
            }
            i += 1;
        }
        None
    }

    pub fn labels_push(&mut self, label_name: &str, label_addr: usize)
        ensures
            labels_view(final(self).labels@) == labels_view(old(self).labels@).push(
                (label_name@, label_addr),
            ),
            final(self).deferred_operands@ == old(self).deferred_operands@,
    {
        let ghost before = labels_view(self.labels@);
        self.labels.push(Label { name: label_name.to_owned(), addr: label_addr });
        assert(labels_view(self.labels@) =~= before.push((label_name@, label_addr)));
    }

    pub fn deferred_operands_push(&mut self, label_name: &str, jump_addr: usize)
        ensures
            deferred_view(final(self).deferred_operands@) == deferred_view(
                old(self).deferred_operands@,
            ).push((jump_addr, label_name@)),
            final(self).labels@ == old(self).labels@,
    {
        let ghost before = deferred_view(self.deferred_operands@);
        self.deferred_operands.push(DeferredOperand { addr: jump_addr, label: label_name.to_owned() });
        assert(deferred_view(self.deferred_operands@) =~= before.push((jump_addr, label_name@)));
    }
}

/// Whether two texts are the same.
pub fn same_text(a: &str, b: &str) -> (r: bool)
    ensures
        r == (a@ == b@),
{
    let x = chars_of(a);
    let y = chars_of(b);
    same_chars(&x, &y)
}

fn same_chars(x: &Vec<char>, y: &Vec<char>) -> (r: bool)
    ensures
        r == (x@ == y@),
{
    if x.len() != y.len() {
        return false;
    }
    let mut i: usize = 0;
    while i < x.len()
        invariant
            i <= x.len() == y.len(),
            x@.take(i as int) == y@.take(i as int),
        decreases x.len() - i,
    {
        if x[i] != y[i] {
            return false;
        }
        i += 1;
        assert(x@.take(i as int) =~= y@.take(i as int));
    }
    assert(x@.take(i as int) =~= x@);
    assert(y@.take(i as int) =~= y@);
    true
}

/// Why the assembler could not go on: a line with the wrong number of
/// operands.
#[derive(Clone, Copy, Debug, PartialEq, Eq, Structural)]
pub struct AsmError {
    pub line: usize,
}

/// What the assembler reports and goes on after.
#[derive(Clone, Copy, Debug, PartialEq, Eq, Structural)]
pub enum DiagnosticKind {
    /// An operand that could not be read; the instruction has no immediate.
    InvalidOperand,
    /// A mnemonic that names no instruction; nothing is emitted.
    InvalidInstruction,
    /// A label that is not defined; the instruction keeps no immediate.
    UnknownLabel,
    /// A deprecated mnemonic.
    Deprecated,
}

/// A report of the assembler: its kind, its line (0 where no line
/// applies) and the text it is about.
pub struct Diagnostic {
    pub kind: DiagnosticKind,
    pub line: usize,
    pub text: String,
}

/// An immediate that reads as neither `u64` nor `i64`: the host reads it as
/// a binary64 number and writes it into instruction `addr`, or reports it.
pub struct FloatLiteral {
    pub addr: usize,
    pub text: String,
}

/// The assembled program, its entry point, and what is left to the host.
pub struct Assembly {
    pub program: Vec<Opcode>,
    pub entry: usize,
    pub float_literals: Vec<FloatLiteral>,
    pub diagnostics: Vec<Diagnostic>,
}

/// How the operands of a mnemonic are read.
#[derive(Clone, Copy, Debug, PartialEq, Eq, Structural)]
pub enum Class {
    /// `mov rD, rS | #imm | $k`.
    Move,
    /// `movfs rD, k`.
    MoveFromStack,
    /// `phsr rD`.
    Deprecated,
    /// Exactly this many registers.
    Regs(usize),
    /// `jt r, target` and its kin.
    RegTarget,
    /// `sysf` with or without a register.
    Sysf,
    /// `push rS | #imm`.
    Push,
    /// No operand.
    NoOps,
    /// A stack depth `k`.
    Depth,
    /// A target: a label or `#address`.
    Target,
    /// No operand (stack form) or exactly this many registers.
    StackOrRegs(usize),
}

/// The instruction kind and operand reading of a mnemonic.
pub open spec fn mnemonic_spec(s: Seq<char>) -> Option<(OpcodeType, Class)> {
    if s == "mov"@ { Some((OpcodeType::Mov, Class::Move)) }
    else if s == "movfs"@ { Some((OpcodeType::Movfs, Class::MoveFromStack)) }
    else if s == "phsr"@ { Some((OpcodeType::Phsr, Class::Deprecated)) }
    else if s == "srg"@ { Some((OpcodeType::Srg, Class::Regs(2))) }
    else if s == "clr"@ { Some((OpcodeType::Clr, Class::Regs(1))) }
    else if s == "add"@ { Some((OpcodeType::Add, Class::Regs(3))) }
    else if s == "sub"@ { Some((OpcodeType::Sub, Class::Regs(3))) }
    else if s == "mul"@ { Some((OpcodeType::Mul, Class::Regs(3))) }
    else if s == "div"@ { Some((OpcodeType::Div, Class::Regs(3))) }
    else if s == "dec"@ { Some((OpcodeType::Dec, Class::Regs(1))) }
    else if s == "inc"@ { Some((OpcodeType::Inc, Class::Regs(1))) }
    else if s == "eq"@ { Some((OpcodeType::Equal, Class::Regs(3))) }
    else if s == "jt"@ { Some((OpcodeType::Jt, Class::RegTarget)) }
    else if s == "jz"@ { Some((OpcodeType::Jz, Class::RegTarget)) }
    else if s == "jnz"@ { Some((OpcodeType::Jnz, Class::RegTarget)) }
    else if s == "sysf"@ { Some((OpcodeType::Sysf, Class::Sysf)) }
    else if s == "push"@ { Some((OpcodeType::Push, Class::Push)) }
    else if s == "dupl"@ { Some((OpcodeType::Dupl, Class::Depth)) }
    else if s == "adds"@ { Some((OpcodeType::Adds, Class::NoOps)) }
    else if s == "subs"@ { Some((OpcodeType::Subs, Class::NoOps)) }
    else if s == "muls"@ { Some((OpcodeType::Muls, Class::NoOps)) }
    else if s == "divs"@ { Some((OpcodeType::Divs, Class::NoOps)) }
    else if s == "eqs"@ { Some((OpcodeType::Equals, Class::NoOps)) }
    else if s == "jts"@ { Some((OpcodeType::Jts, Class::Target)) }
    else if s == "jzs"@ { Some((OpcodeType::Jzs, Class::Target)) }
    else if s == "jnzs"@ { Some((OpcodeType::Jnzs, Class::Target)) }
    else if s == "swc"@ { Some((OpcodeType::Swc, Class::Depth)) }
    else if s == "jmp"@ { Some((OpcodeType::Jmp, Class::Target)) }
    else if s == "call"@ { Some((OpcodeType::Call, Class::Target)) }
    else if s == "and"@ { Some((OpcodeType::And, Class::StackOrRegs(3))) }
    else if s == "or"@ { Some((OpcodeType::Or, Class::StackOrRegs(3))) }
    else if s == "xor"@ { Some((OpcodeType::Xor, Class::StackOrRegs(3))) }
    else if s == "shl"@ { Some((OpcodeType::Shl, Class::StackOrRegs(3))) }
    else if s == "shr"@ { Some((OpcodeType::Shr, Class::StackOrRegs(3))) }
    else if s == "not"@ { Some((OpcodeType::Not, Class::StackOrRegs(2))) }
    else if s == "pop"@ { Some((OpcodeType::Pop, Class::StackOrRegs(1))) }
    else if s == "ret"@ { Some((OpcodeType::Ret, Class::NoOps)) }
    else if s == "hlt"@ { Some((OpcodeType::Hlt, Class::NoOps)) }
    else { None }
}

/// What one line contributes.
pub struct LineOut {
    pub label: Option<Seq<char>>,
    pub op: Option<OpcodeView>,
    pub deferred: Option<Seq<char>>,
    pub float: Option<Seq<char>>,
    pub diag: Option<(DiagnosticKind, Seq<char>)>,
}

pub open spec fn nothing() -> LineOut {
    LineOut { label: None, op: None, deferred: None, float: None, diag: None }
}

pub open spec fn opv(t: OpcodeType, imm: Option<Word>, regs: Seq<Seq<char>>) -> OpcodeView {
    OpcodeView { op_type: t, op_operand: imm, op_regs: regs }
}

pub open spec fn emit(o: OpcodeView) -> LineOut {
    LineOut { op: Some(o), ..nothing() }
}

pub open spec fn emit_diag(o: OpcodeView, k: DiagnosticKind, text: Seq<char>) -> LineOut {
    LineOut { op: Some(o), diag: Some((k, text)), ..nothing() }
}

pub open spec fn first_is(s: Seq<char>, c: char) -> bool {
    s.len() > 0 && s[0] == c
}

/// An immediate after its `#`: `u64`, else `i64`, else left to the host as
/// a binary64 literal.
pub open spec fn imm_out(t: OpcodeType, regs: Seq<Seq<char>>, x: Seq<char>) -> LineOut {
    match parse_u64_spec(x) {
        Some(v) => emit(opv(t, Some(Word::U64(v)), regs)),
        None => match parse_i64_spec(x) {
            Some(v) => emit(opv(t, Some(Word::I64(v)), regs)),
            None => LineOut { op: Some(opv(t, None, regs)), float: Some(x), ..nothing() },
        },
    }
}

/// A branch target: `#address`, or a label to resolve later.
pub open spec fn target_out(t: OpcodeType, regs: Seq<Seq<char>>, x: Seq<char>) -> LineOut {
    if first_is(x, '#') {
        match parse_u64_spec(x.drop_first()) {
            Some(v) => emit(opv(t, Some(Word::U64(v)), regs)),
            None => emit_diag(opv(t, None, regs), DiagnosticKind::InvalidOperand, x),
        }
    } else {
        LineOut { op: Some(opv(t, None, regs)), deferred: Some(x), ..nothing() }
    }
}

/// A stack depth.
pub open spec fn depth_out(t: OpcodeType, regs: Seq<Seq<char>>, x: Seq<char>) -> LineOut {
    match parse_u64_spec(x) {
        Some(v) => emit(opv(t, Some(Word::U64(v)), regs)),
        None => emit_diag(opv(t, None, regs), DiagnosticKind::InvalidOperand, x),
    }
}

/// The instruction of a mnemonic with its operands, or `None` when their
/// number is wrong.
pub open spec fn encode_spec(t: OpcodeType, c: Class, ops: Seq<Seq<char>>) -> Option<LineOut> {
    let n = ops.len();
    let first = ops.subrange(0, 1);
    match c {
        Class::Move => if n != 2 {
            None
        } else {
            let x = ops[1];
            if first_is(x, 'r') {
                Some(emit(opv(t, None, ops)))
            } else if first_is(x, '#') {
                Some(imm_out(t, first, x.drop_first()))
            } else if first_is(x, '$') {
                Some(depth_out(OpcodeType::Movfs, first, x.drop_first()))
            } else {
                Some(emit_diag(opv(t, None, first), DiagnosticKind::InvalidOperand, x))
            }
        },
        Class::MoveFromStack => if n != 2 {
            None
        } else {
            let x = ops[1];
            Some(depth_out(t, first, if first_is(x, '$') { x.drop_first() } else { x }))
        },
        Class::Deprecated => if n != 1 {
            None
        } else {
            Some(emit_diag(opv(t, None, ops), DiagnosticKind::Deprecated, "phsr"@))
        },
        Class::Regs(k) => if n != k {
            None
        } else {
            Some(emit(opv(t, None, ops)))
        },
        Class::RegTarget => if n != 2 {
            None
        } else {
            Some(target_out(t, first, ops[1]))
        },
        Class::Sysf => if n > 1 {
            None
        } else {
            Some(emit(opv(t, None, ops)))
        },
        Class::Push => if n != 1 {
            None
        } else {
            let x = ops[0];
            if first_is(x, 'r') {
                Some(emit(opv(t, None, ops)))
            } else if first_is(x, '#') {
                Some(imm_out(t, Seq::empty(), x.drop_first()))
            } else {
                Some(emit_diag(opv(t, None, Seq::empty()), DiagnosticKind::InvalidOperand, x))
            }
        },
        Class::NoOps => if n != 0 {
            None
        } else {
            Some(emit(opv(t, None, ops)))
        },
        Class::Depth => if n != 1 {
            None
        } else {
            Some(depth_out(t, Seq::empty(), ops[0]))
        },
        Class::Target => if n != 1 {
            None
        } else {
            Some(target_out(t, Seq::empty(), ops[0]))
        },
        Class::StackOrRegs(k) => if n != 0 && n != k {
            None
        } else {
            Some(emit(opv(t, None, ops)))
        },
    }
}

/// The index of the first `, ` from position `j` on.
pub open spec fn first_sep_from(s: Seq<char>, j: int) -> Option<int>
    decreases s.len() - j,
{
    if j < 0 || j + 1 >= s.len() {
        None
    } else if s[j] == ',' && s[j + 1] == ' ' {
        Some(j)
    } else {
        first_sep_from(s, j + 1)
    }
}

/// The pieces of `s` from position `start` on, split at each `, `.
pub open spec fn split_sep_from(s: Seq<char>, start: int) -> Seq<Seq<char>>
    decreases s.len() - start,
{
    if start < 0 || start > s.len() {
        Seq::empty()
    } else {
        match first_sep_from(s, start) {
            Some(i) => if start <= i && i + 2 <= s.len() {
                seq![s.subrange(start, i)] + split_sep_from(s, i + 2)
            } else {
                Seq::empty()
            },
            None => seq![s.subrange(start, s.len() as int)],
        }
    }
}

/// An instruction line, trimmed: mnemonic, then operands separated by `, `.
pub open spec fn instruction_spec(s: Seq<char>) -> Option<LineOut> {
    let (mn, ops) = match split_ws_once(s) {
        None => (s, Seq::empty()),
        Some((a, b)) => (a, split_sep_from(trim(b), 0)),
    };
    match mnemonic_spec(mn) {
        None => Some(LineOut { diag: Some((DiagnosticKind::InvalidInstruction, mn)), ..nothing() }),
        Some((t, c)) => encode_spec(t, c, ops),
    }
}

/// The text without its `:` characters.
pub open spec fn without_colons(s: Seq<char>) -> Seq<char>
    decreases s.len(),
{
    if s.len() == 0 {
        s
    } else if s.last() == ':' {
        without_colons(s.drop_last())
    } else {
        without_colons(s.drop_last()).push(s.last())
    }
}

/// What one source line contributes, or `None` when its operands are of the
/// wrong number. A first word that ends with `:` defines a label.
pub open spec fn line_spec(line: Seq<char>) -> Option<LineOut> {
    let t = trim(line);
    if t.len() == 0 {
        Some(nothing())
    } else {
        let (first, rest) = match split_ws_once(t) {
            None => (t, None),
            Some((a, b)) => (a, Some(b)),
        };
        if first.len() > 0 && first.last() == ':' {
            let label = without_colons(first);
            match rest {
                None => Some(LineOut { label: Some(label), ..nothing() }),
                Some(r) => match instruction_spec(trim(r)) {
                    None => None,
                    Some(o) => Some(LineOut { label: Some(label), ..o }),
                },
            }
        } else {
            instruction_spec(t)
        }
    }
}

/// The assembler's tables after its first pass.
pub struct AsmState {
    pub program: Seq<OpcodeView>,
    pub labels: Seq<(Seq<char>, usize)>,
    pub deferred: Seq<(usize, Seq<char>)>,
    pub floats: Seq<(usize, Seq<char>)>,
    pub diags: Seq<(DiagnosticKind, usize, Seq<char>)>,
}

pub open spec fn empty_state() -> AsmState {
    AsmState {
        program: Seq::empty(),
        labels: Seq::empty(),
        deferred: Seq::empty(),
        floats: Seq::empty(),
        diags: Seq::empty(),
    }
}

/// Adds what line `ln` contributes at the current instruction index.
pub open spec fn apply_line(st: AsmState, o: LineOut, ln: usize) -> AsmState {
    let pc = st.program.len() as usize;
    AsmState {
        program: match o.op {
            Some(op) => st.program.push(op),
            None => st.program,
        },
        labels: match o.label {
            Some(l) => st.labels.push((l, pc)),
            None => st.labels,
        },
        deferred: match o.deferred {
            Some(l) => st.deferred.push((pc, l)),
            None => st.deferred,
        },
        floats: match o.float {
            Some(x) => st.floats.push((pc, x)),
            None => st.floats,
        },
        diags: match o.diag {
            Some((k, x)) => st.diags.push((k, ln, x)),
            None => st.diags,
        },
    }
}

/// The first pass over the lines, or the number of the first line whose
/// operands are of the wrong number.
pub open spec fn pass1(ls: Seq<Seq<char>>) -> Result<AsmState, usize>
    decreases ls.len(),
{
    if ls.len() == 0 {
        Ok(empty_state())
    } else {
        match pass1(ls.drop_last()) {
            Err(e) => Err(e),
            Ok(st) => match line_spec(ls.last()) {
                None => Err(ls.len() as usize),
                Some(o) => Ok(apply_line(st, o, ls.len() as usize)),
            },
        }
    }
}

/// The program with the address of each deferred label written in.
pub open spec fn resolve(
    program: Seq<OpcodeView>,
    labels: Seq<(Seq<char>, usize)>,
    deferred: Seq<(usize, Seq<char>)>,
) -> Seq<OpcodeView>
    decreases deferred.len(),
{
    if deferred.len() == 0 {
        program
    } else {
        let p = resolve(program, labels, deferred.drop_last());
        let (a, l) = deferred.last();
        match lookup(labels, l) {
            Some(x) => if a < p.len() {
                p.update(a as int, OpcodeView { op_operand: Some(Word::U64(x as u64)), ..p[a as int] })
            } else {
                p
            },
            None => p,
        }
    }
}

/// A report for each deferred label that is not defined.
pub open spec fn unresolved(labels: Seq<(Seq<char>, usize)>, deferred: Seq<(usize, Seq<char>)>) -> Seq<
    (DiagnosticKind, usize, Seq<char>),
>
    decreases deferred.len(),
{
    if deferred.len() == 0 {
        Seq::empty()
    } else {
        let d = unresolved(labels, deferred.drop_last());
        match lookup(labels, deferred.last().1) {
            Some(_) => d,
            None => d.push((DiagnosticKind::UnknownLabel, 0usize, deferred.last().1)),
        }
    }
}

/// What an assembly is, with texts as character sequences.
pub struct AssemblyView {
    pub program: Seq<OpcodeView>,
    pub entry: usize,
    pub floats: Seq<(usize, Seq<char>)>,
    pub diags: Seq<(DiagnosticKind, usize, Seq<char>)>,
}

/// Both passes: the program with its labels resolved, the entry point at
/// `_start` (or 0 without it), the binary64 literals and the reports.
pub open spec fn assemble_spec(src: Seq<char>) -> Result<AssemblyView, usize> {
    match pass1(lines_of(src)) {
        Err(e) => Err(e),
        Ok(st) => Ok(
            AssemblyView {
                program: resolve(st.program, st.labels, st.deferred),
                entry: match lookup(st.labels, "_start"@) {
                    Some(a) => a,
                    None => 0,
                },
                floats: st.floats,
                diags: st.diags + unresolved(st.labels, st.deferred),
            },
        ),
    }
}

pub open spec fn floats_view(v: Seq<FloatLiteral>) -> Seq<(usize, Seq<char>)> {
    v.map_values(|f: FloatLiteral| (f.addr, f.text@))
}

pub open spec fn diags_view(v: Seq<Diagnostic>) -> Seq<(DiagnosticKind, usize, Seq<char>)> {
    v.map_values(|d: Diagnostic| (d.kind, d.line, d.text@))
}

impl Assembly {
    pub open spec fn view_of(&self) -> AssemblyView {
        AssemblyView {
            program: program_view(self.program@),
            entry: self.entry,
            floats: floats_view(self.float_literals@),
            diags: diags_view(self.diagnostics@),
        }
    }
}

/// What one line contributes, as values.
struct LineOutExec {
    label: Option<Vec<char>>,
    op: Option<Opcode>,
    deferred: Option<Vec<char>>,
    float: Option<Vec<char>>,
    diag: Option<(DiagnosticKind, Vec<char>)>,
}

impl LineOutExec {
    spec fn view(&self) -> LineOut {
        LineOut {
            label: match self.label {
                Some(v) => Some(v@),
                None => None,
            },
            op: match self.op {
                Some(o) => Some(o@),
                None => None,
            },
            deferred: match self.deferred {
                Some(v) => Some(v@),
                None => None,
            },
            float: match self.float {
                Some(v) => Some(v@),
                None => None,
            },
            diag: match self.diag {
                Some((k, v)) => Some((k, v@)),
                None => None,
            },
        }
    }
}

fn mnemonic_exec(s: &Vec<char>) -> (r: Option<(OpcodeType, Class)>)
    ensures
        r == mnemonic_spec(s@),
{
    if same_chars(s, &chars_of("mov")) {
        return Some((OpcodeType::Mov, Class::Move));
    }
    if same_chars(s, &chars_of("movfs")) {
        return Some((OpcodeType::Movfs, Class::MoveFromStack));
    }
    if same_chars(s, &chars_of("phsr")) {
        return Some((OpcodeType::Phsr, Class::Deprecated));
    }
    if same_chars(s, &chars_of("srg")) {
        return Some((OpcodeType::Srg, Class::Regs(2)));
    }
    if same_chars(s, &chars_of("clr")) {
        return Some((OpcodeType::Clr, Class::Regs(1)));
    }
    if same_chars(s, &chars_of("add")) {
        return Some((OpcodeType::Add, Class::Regs(3)));
    }
    if same_chars(s, &chars_of("sub")) {
        return Some((OpcodeType::Sub, Class::Regs(3)));
    }
    if same_chars(s, &chars_of("mul")) {
        return Some((OpcodeType::Mul, Class::Regs(3)));
    }
    if same_chars(s, &chars_of("div")) {
        return Some((OpcodeType::Div, Class::Regs(3)));
    }
    if same_chars(s, &chars_of("dec")) {
        return Some((OpcodeType::Dec, Class::Regs(1)));
    }
    if same_chars(s, &chars_of("inc")) {
        return Some((OpcodeType::Inc, Class::Regs(1)));
    }
    if same_chars(s, &chars_of("eq")) {
        return Some((OpcodeType::Equal, Class::Regs(3)));
    }
    if same_chars(s, &chars_of("jt")) {
        return Some((OpcodeType::Jt, Class::RegTarget));
    }
    if same_chars(s, &chars_of("jz")) {
        return Some((OpcodeType::Jz, Class::RegTarget));
    }
    if same_chars(s, &chars_of("jnz")) {
        return Some((OpcodeType::Jnz, Class::RegTarget));
    }
    if same_chars(s, &chars_of("sysf")) {
        return Some((OpcodeType::Sysf, Class::Sysf));
    }
    if same_chars(s, &chars_of("push")) {
        return Some((OpcodeType::Push, Class::Push));
    }
    if same_chars(s, &chars_of("dupl")) {
        return Some((OpcodeType::Dupl, Class::Depth));
    }
    if same_chars(s, &chars_of("adds")) {
        return Some((OpcodeType::Adds, Class::NoOps));
    }
    if same_chars(s, &chars_of("subs")) {
        return Some((OpcodeType::Subs, Class::NoOps));
    }
    if same_chars(s, &chars_of("muls")) {
        return Some((OpcodeType::Muls, Class::NoOps));
    }
    if same_chars(s, &chars_of("divs")) {
        return Some((OpcodeType::Divs, Class::NoOps));
    }
    if same_chars(s, &chars_of("eqs")) {
        return Some((OpcodeType::Equals, Class::NoOps));
    }
    if same_chars(s, &chars_of("jts")) {
        return Some((OpcodeType::Jts, Class::Target));
    }
    if same_chars(s, &chars_of("jzs")) {
        return Some((OpcodeType::Jzs, Class::Target));
    }
    if same_chars(s, &chars_of("jnzs")) {
        return Some((OpcodeType::Jnzs, Class::Target));
    }
    if same_chars(s, &chars_of("swc")) {
        return Some((OpcodeType::Swc, Class::Depth));
    }
    if same_chars(s, &chars_of("jmp")) {
        return Some((OpcodeType::Jmp, Class::Target));
    }
    if same_chars(s, &chars_of("call")) {
        return Some((OpcodeType::Call, Class::Target));
    }
    if same_chars(s, &chars_of("and")) {
        return Some((OpcodeType::And, Class::StackOrRegs(3)));
    }
    if same_chars(s, &chars_of("or")) {
        return Some((OpcodeType::Or, Class::StackOrRegs(3)));
    }
    if same_chars(s, &chars_of("xor")) {
        return Some((OpcodeType::Xor, Class::StackOrRegs(3)));
    }
    if same_chars(s, &chars_of("shl")) {
        return Some((OpcodeType::Shl, Class::StackOrRegs(3)));
    }
    if same_chars(s, &chars_of("shr")) {
        return Some((OpcodeType::Shr, Class::StackOrRegs(3)));
    }
    if same_chars(s, &chars_of("not")) {
        return Some((OpcodeType::Not, Class::StackOrRegs(2)));
    }
    if same_chars(s, &chars_of("pop")) {
        return Some((OpcodeType::Pop, Class::StackOrRegs(1)));
    }
    if same_chars(s, &chars_of("ret")) {
        return Some((OpcodeType::Ret, Class::NoOps));
    }
    if same_chars(s, &chars_of("hlt")) {
        return Some((OpcodeType::Hlt, Class::NoOps));
    }
    None
}

fn strings_range(ops: &Vec<Vec<char>>, lo: usize, hi: usize) -> (r: Vec<String>)
    requires
        lo <= hi <= ops.len(),
    ensures
        strings_view(r@) == lines_view(ops@).subrange(lo as int, hi as int),
{
    let mut out: Vec<String> = Vec::new();
    let mut i = lo;
    while i < hi
        invariant
            lo <= i <= hi <= ops.len(),
            strings_view(out@) == lines_view(ops@).subrange(lo as int, i as int),
        decreases hi - i,
    {
        let ghost before = strings_view(out@);
        let s = string_of(&ops[i]);
        let ghost sv = s@;
        out.push(s);
        assert(strings_view(out@) =~= before.push(sv));
        assert(sv == lines_view(ops@)[i as int]);
        assert(strings_view(out@) =~= lines_view(ops@).subrange(lo as int, i + 1));
        i += 1;
    }
    out
}

fn no_regs() -> (r: Vec<String>)
    ensures
        strings_view(r@) == Seq::<Seq<char>>::empty(),
{
    let r: Vec<String> = Vec::new();
    assert(strings_view(r@) =~= Seq::<Seq<char>>::empty());
    r
}

fn tail(x: &Vec<char>) -> (r: Vec<char>)
    requires
        x.len() > 0,
    ensures
        r@ == x@.drop_first(),
{
    let r = slice_of(x, 1, x.len());
    assert(r@ =~= x@.drop_first());
    r
}

fn first_is_exec(x: &Vec<char>, c: char) -> (r: bool)
    ensures
        r == first_is(x@, c),
{
    x.len() > 0 && x[0] == c
}

fn emit_exec(op: Opcode) -> (r: LineOutExec)
    ensures
        r.view() == emit(op@),
{
    LineOutExec { label: None, op: Some(op), deferred: None, float: None, diag: None }
}

fn emit_diag_exec(op: Opcode, k: DiagnosticKind, text: Vec<char>) -> (r: LineOutExec)
    ensures
        r.view() == emit_diag(op@, k, text@),
{
    LineOutExec { label: None, op: Some(op), deferred: None, float: None, diag: Some((k, text)) }
}

fn copy_chars(x: &Vec<char>) -> (r: Vec<char>)
    ensures
        r@ == x@,
{
    let r = slice_of(x, 0, x.len());
    assert(r@ =~= x@);
    r
}

fn imm_exec(t: OpcodeType, regs: Vec<String>, x: &Vec<char>) -> (r: LineOutExec)
    ensures
        r.view() == imm_out(t, strings_view(regs@), x@),
{
    match parse_u64(x) {
        Some(v) => emit_exec(Opcode { op_type: t, op_operand: Some(Word::U64(v)), op_regs: regs }),
        None => match parse_i64(x) {
            Some(v) => emit_exec(Opcode { op_type: t, op_operand: Some(Word::I64(v)), op_regs: regs }),
            None => LineOutExec {
                label: None,
                op: Some(Opcode { op_type: t, op_operand: None, op_regs: regs }),
                deferred: None,
                float: Some(copy_chars(x)),
                diag: None,
            },
        },
    }
}

fn target_exec(t: OpcodeType, regs: Vec<String>, x: &Vec<char>) -> (r: LineOutExec)
    ensures
        r.view() == target_out(t, strings_view(regs@), x@),
{
    if first_is_exec(x, '#') {
        match parse_u64(&tail(x)) {
            Some(v) => emit_exec(Opcode { op_type: t, op_operand: Some(Word::U64(v)), op_regs: regs }),
            None => emit_diag_exec(
                Opcode { op_type: t, op_operand: None, op_regs: regs },
                DiagnosticKind::InvalidOperand,
                copy_chars(x),
            ),
        }
    } else {
        LineOutExec {
            label: None,
            op: Some(Opcode { op_type: t, op_operand: None, op_regs: regs }),
            deferred: Some(copy_chars(x)),
            float: None,
            diag: None,
        }
    }
}

fn depth_exec(t: OpcodeType, regs: Vec<String>, x: &Vec<char>) -> (r: LineOutExec)
    ensures
        r.view() == depth_out(t, strings_view(regs@), x@),
{
    match parse_u64(x) {
        Some(v) => emit_exec(Opcode { op_type: t, op_operand: Some(Word::U64(v)), op_regs: regs }),
        None => emit_diag_exec(
            Opcode { op_type: t, op_operand: None, op_regs: regs },
            DiagnosticKind::InvalidOperand,
            copy_chars(x),
        ),
    }
}

fn encode_exec(t: OpcodeType, c: Class, ops: &Vec<Vec<char>>) -> (r: Option<LineOutExec>)
    ensures
        match r {
            Some(o) => encode_spec(t, c, lines_view(ops@)) == Some(o.view()),
            None => encode_spec(t, c, lines_view(ops@)) is None,
        },
{
    let ghost ov = lines_view(ops@);
    let n = ops.len();
    assert(ov.subrange(0, n as int) =~= ov);
    match c {
        Class::Move => {
            if n != 2 {
                return None;
            }
            let x = &ops[1];
            if first_is_exec(x, 'r') {
                Some(emit_exec(Opcode { op_type: t, op_operand: None, op_regs: strings_range(ops, 0, n) }))
            } else if first_is_exec(x, '#') {
                Some(imm_exec(t, strings_range(ops, 0, 1), &tail(x)))
            } else if first_is_exec(x, '$') {
                Some(depth_exec(OpcodeType::Movfs, strings_range(ops, 0, 1), &tail(x)))
            } else {
                Some(emit_diag_exec(
                    Opcode { op_type: t, op_operand: None, op_regs: strings_range(ops, 0, 1) },
                    DiagnosticKind::InvalidOperand,
                    copy_chars(x),
                ))
            }
        },
        Class::MoveFromStack => {
            if n != 2 {
                return None;
            }
            let x = &ops[1];
            let k = if first_is_exec(x, '$') { tail(x) } else { copy_chars(x) };
            Some(depth_exec(t, strings_range(ops, 0, 1), &k))
        },
        Class::Deprecated => {
            if n != 1 {
                return None;
            }
            Some(emit_diag_exec(
                Opcode { op_type: t, op_operand: None, op_regs: strings_range(ops, 0, n) },
                DiagnosticKind::Deprecated,
                chars_of("phsr"),
            ))
        },
        Class::Regs(k) => {
            if n != k {
                return None;
            }
            Some(emit_exec(Opcode { op_type: t, op_operand: None, op_regs: strings_range(ops, 0, n) }))
        },
        Class::RegTarget => {
            if n != 2 {
                return None;
            }
            Some(target_exec(t, strings_range(ops, 0, 1), &ops[1]))
        },
        Class::Sysf => {
            if n > 1 {
                return None;
            }
            Some(emit_exec(Opcode { op_type: t, op_operand: None, op_regs: strings_range(ops, 0, n) }))
        },
        Class::Push => {
            if n != 1 {
                return None;
            }
            let x = &ops[0];
            if first_is_exec(x, 'r') {
                Some(emit_exec(Opcode { op_type: t, op_operand: None, op_regs: strings_range(ops, 0, n) }))
            } else if first_is_exec(x, '#') {
                Some(imm_exec(t, no_regs(), &tail(x)))
            } else {
                Some(emit_diag_exec(
                    Opcode { op_type: t, op_operand: None, op_regs: no_regs() },
                    DiagnosticKind::InvalidOperand,
                    copy_chars(x),
                ))
            }
        },
        Class::NoOps => {
            if n != 0 {
                return None;
            }
            Some(emit_exec(Opcode { op_type: t, op_operand: None, op_regs: strings_range(ops, 0, n) }))
        },
        Class::Depth => {
            if n != 1 {
                return None;
            }
            Some(depth_exec(t, no_regs(), &ops[0]))
        },
        Class::Target => {
            if n != 1 {
                return None;
            }
            Some(target_exec(t, no_regs(), &ops[0]))
        },
        Class::StackOrRegs(k) => {
            if n != 0 && n != k {
                return None;
            }
            Some(emit_exec(Opcode { op_type: t, op_operand: None, op_regs: strings_range(ops, 0, n) }))
        },
    }
}

proof fn lemma_first_sep(s: Seq<char>, j: int)
    requires
        first_sep_from(s, j) is Some,
    ensures
        ({
            let i = first_sep_from(s, j)->0;
            j <= i && i + 1 < s.len()
        }),
    decreases s.len() - j,
{
    if j >= 0 && j + 1 < s.len() && !(s[j] == ',' && s[j + 1] == ' ') {
        lemma_first_sep(s, j + 1);
    }
}

fn find_sep(v: &Vec<char>, from: usize) -> (r: Option<usize>)
    ensures
        match r {
            Some(i) => first_sep_from(v@, from as int) == Some(i as int),
            None => first_sep_from(v@, from as int) is None,
        },
{
    let mut j = from;
    while j < v.len() && v.len() - j > 1
        invariant
            from <= j,
            first_sep_from(v@, from as int) == first_sep_from(v@, j as int),
        decreases v.len() - j,
    {
        if v[j] == ',' && v[j + 1] == ' ' {
            return Some(j);
        }
        j += 1;
    }
    None
}

/// The pieces of `v`, split at each `, `.
fn split_sep_exec(v: &Vec<char>) -> (r: Vec<Vec<char>>)
    ensures
        lines_view(r@) == split_sep_from(v@, 0),
{
    let mut out: Vec<Vec<char>> = Vec::new();
    let mut start: usize = 0;
    loop
        invariant
            start <= v.len(),
            lines_view(out@) + split_sep_from(v@, start as int) == split_sep_from(v@, 0),
        decreases v.len() - start,
    {
        let ghost before = lines_view(out@);
        match find_sep(v, start) {
            None => {
                let piece = slice_of(v, start, v.len());
                out.push(piece);
                assert(lines_view(out@) =~= before + split_sep_from(v@, start as int));
                return out;
            },
            Some(i) => {
                proof {
                    lemma_first_sep(v@, start as int);
                }
                let piece = slice_of(v, start, i);
                out.push(piece);
                assert(before + split_sep_from(v@, start as int) =~= lines_view(out@) + split_sep_from(
                    v@,
                    i + 2,
                ));
                start = i + 2;
            },
        }
    }
}

fn without_colons_exec(v: &Vec<char>) -> (r: Vec<char>)
    ensures
        r@ == without_colons(v@),
{
    let mut out: Vec<char> = Vec::new();
    let mut i: usize = 0;
    while i < v.len()
        invariant
            i <= v.len(),
            out@ == without_colons(v@.take(i as int)),
        decreases v.len() - i,
    {
        assert(v@.take(i + 1).drop_last() =~= v@.take(i as int));
        if v[i] != ':' {
            out.push(v[i]);
        }
        i += 1;
    }
    assert(v@.take(i as int) =~= v@);
    out
}

fn instruction_exec(s: &Vec<char>) -> (r: Option<LineOutExec>)
    ensures
        match r {
            Some(o) => instruction_spec(s@) == Some(o.view()),
            None => instruction_spec(s@) is None,
        },
{
    let (mn, ops) = match split_ws_once_exec(s) {
        None => {
            let e: Vec<Vec<char>> = Vec::new();
            assert(lines_view(e@) =~= Seq::<Seq<char>>::empty());
            (copy_chars(s), e)
        },
        Some((a, b)) => (a, split_sep_exec(&trim_exec(&b))),
    };
    match mnemonic_exec(&mn) {
        None => Some(
            LineOutExec {
                label: None,
                op: None,
                deferred: None,
                float: None,
                diag: Some((DiagnosticKind::InvalidInstruction, mn)),
            },
        ),
        Some((t, c)) => encode_exec(t, c, &ops),
    }
}

fn line_exec(line: &Vec<char>) -> (r: Option<LineOutExec>)
    ensures
        match r {
            Some(o) => line_spec(line@) == Some(o.view()),
            None => line_spec(line@) is None,
        },
{
    let t = trim_exec(line);
    if t.len() == 0 {
        return Some(LineOutExec { label: None, op: None, deferred: None, float: None, diag: None });
    }
    let (first, rest) = match split_ws_once_exec(&t) {
        None => (copy_chars(&t), None),
        Some((a, b)) => (a, Some(b)),
    };
    if first.len() > 0 && first[first.len() - 1] == ':' {
        let label = without_colons_exec(&first);
        match rest {
            None => Some(LineOutExec { label: Some(label), op: None, deferred: None, float: None, diag: None }),
            Some(r) => match instruction_exec(&trim_exec(&r)) {
                None => None,
                Some(o) => Some(LineOutExec { label: Some(label), ..o }),
            },
        }
    } else {
        instruction_exec(&t)
    }
}

/// The first-pass tables held in the given vectors.
pub open spec fn state_of(
    program: Seq<Opcode>,
    labels: Seq<Label>,
    deferred: Seq<DeferredOperand>,
    floats: Seq<FloatLiteral>,
    diags: Seq<Diagnostic>,
) -> AsmState {
    AsmState {
        program: program_view(program),
        labels: labels_view(labels),
        deferred: deferred_view(deferred),
        floats: floats_view(floats),
        diags: diags_view(diags),
    }
}

fn apply_line_exec(
    program: &mut Vec<Opcode>,
    oasm: &mut OASM,
    floats: &mut Vec<FloatLiteral>,
    diags: &mut Vec<Diagnostic>,
    o: LineOutExec,
    ln: usize,
)
    ensures
        state_of(final(program)@, final(oasm).labels@, final(oasm).deferred_operands@, final(floats)@, final(diags)@)
            == apply_line(
            state_of(old(program)@, old(oasm).labels@, old(oasm).deferred_operands@, old(floats)@, old(diags)@),
            o.view(),
            ln,
        ),
        final(program)@.len() <= old(program)@.len() + 1,
{
    let pc = program.len();
    let LineOutExec { label, op, deferred, float, diag } = o;
    if let Some(l) = label {
        oasm.labels_push(string_of(&l).as_str(), pc);
    }
    if let Some(d) = deferred {
        oasm.deferred_operands_push(string_of(&d).as_str(), pc);
    }
    if let Some(x) = float {
        let ghost before = floats_view(floats@);
        let f = FloatLiteral { addr: pc, text: string_of(&x) };
        floats.push(f);
        assert(floats_view(floats@) =~= before.push((pc, x@)));
    }
    if let Some((k, x)) = diag {
        let ghost before = diags_view(diags@);
        let d = Diagnostic { kind: k, line: ln, text: string_of(&x) };
        diags.push(d);
        assert(diags_view(diags@) =~= before.push((k, ln, x@)));
    }
    if let Some(op) = op {
        let ghost before = program_view(program@);
        let ghost opv = op@;
        program.push(op);
        assert(program_view(program@) =~= before.push(opv));
    }
}

proof fn lemma_pass1_err(ls: Seq<Seq<char>>, j: int, e: usize)
    requires
        0 <= j <= ls.len(),
        pass1(ls.take(j)) == Err::<AsmState, usize>(e),
    ensures
        pass1(ls) == Err::<AsmState, usize>(e),
    decreases ls.len() - j,
{
    if j == ls.len() {
        assert(ls.take(j) =~= ls);
    } else {
        assert(ls.take(j + 1).drop_last() =~= ls.take(j));
        lemma_pass1_err(ls, j + 1, e);
    }
}

/// Assembles preprocessed source text in two passes: each line is encoded
/// and labels are recorded, then each deferred label is written in as the
/// address it names. Fails on the first line whose operands are of the
/// wrong number.
pub fn assemble(source: &String) -> (r: Result<Assembly, AsmError>)
    ensures
        match r {
            Ok(a) => assemble_spec(source@) == Ok::<AssemblyView, usize>(a.view_of()),
            Err(e) => assemble_spec(source@) == Err::<AssemblyView, usize>(e.line),
        },
{
    let ls = lines_exec(&chars_of(source.as_str()));
    let ghost lv = lines_view(ls@);
    let mut program: Vec<Opcode> = Vec::new();
    let mut oasm = OASM::init();
    let mut floats: Vec<FloatLiteral> = Vec::new();
    let mut diags: Vec<Diagnostic> = Vec::new();
    proof {
        assert(lv.take(0) =~= Seq::<Seq<char>>::empty());
        assert(program_view(program@) =~= Seq::<OpcodeView>::empty());
        assert(labels_view(oasm.labels@) =~= Seq::<(Seq<char>, usize)>::empty());
        assert(deferred_view(oasm.deferred_operands@) =~= Seq::<(usize, Seq<char>)>::empty());
        assert(floats_view(floats@) =~= Seq::<(usize, Seq<char>)>::empty());
        assert(diags_view(diags@) =~= Seq::<(DiagnosticKind, usize, Seq<char>)>::empty());
    }
    let mut i: usize = 0;
    while i < ls.len()
        invariant
            i <= ls.len(),
            lv == lines_view(ls@),
            lv == lines_of(source@),
            program@.len() <= i,
            pass1(lv.take(i as int)) == Ok::<AsmState, usize>(
                state_of(program@, oasm.labels@, oasm.deferred_operands@, floats@, diags@),
            ),
        decreases ls.len() - i,
    {
        assert(lv.take(i + 1).drop_last() =~= lv.take(i as int));
        let ln = i + 1;
        match line_exec(&ls[i]) {
            None => {
                proof {
                    lemma_pass1_err(lv, i + 1, ln);
                }
                return Err(AsmError { line: ln });
            },
            Some(o) => {
                apply_line_exec(&mut program, &mut oasm, &mut floats, &mut diags, o, ln);
            },
        }
        i += 1;
    }
    assert(lv.take(i as int) =~= lv);
    let ghost st = pass1(lv)->Ok_0;
    let ghost dv = deferred_view(oasm.deferred_operands@);
    let ghost lab = labels_view(oasm.labels@);
    assert(dv.take(0) =~= Seq::<(usize, Seq<char>)>::empty());
    assert(st.diags + Seq::<(DiagnosticKind, usize, Seq<char>)>::empty() =~= st.diags);
    let mut k: usize = 0;
    while k < oasm.deferred_operands.len()
        invariant
            k <= oasm.deferred_operands.len(),
            dv == deferred_view(oasm.deferred_operands@),
            lab == labels_view(oasm.labels@),
            program_view(program@) == resolve(st.program, lab, dv.take(k as int)),
            diags_view(diags@) == st.diags + unresolved(lab, dv.take(k as int)),
        decreases oasm.deferred_operands.len() - k,
    {
        assert(dv.take(k + 1).drop_last() =~= dv.take(k as int));
        assert(dv.take(k + 1).last() == dv[k as int]);
        let addr = oasm.deferred_operands[k].addr;
        match oasm.labels_contains(oasm.deferred_operands[k].label.as_str()) {
            Some(a) => {
                if addr < program.len() {
                    let ghost before = program_view(program@);
                    let mut op = program.remove(addr);
                    op.op_operand = Some(Word::U64(a as u64));
                    let ghost opv = op@;
                    program.insert(addr, op);
                    assert(program_view(program@) =~= before.update(addr as int, opv));
                }
            },
            None => {
                let ghost before = diags_view(diags@);
                let text = oasm.deferred_operands[k].label.as_str().to_owned();
                let ghost tv = text@;
                diags.push(Diagnostic { kind: DiagnosticKind::UnknownLabel, line: 0, text });
                assert(diags_view(diags@) =~= before.push((DiagnosticKind::UnknownLabel, 0usize, tv)));
                assert(st.diags + unresolved(lab, dv.take(k + 1)) =~= before.push(
                    (DiagnosticKind::UnknownLabel, 0usize, tv),
                ));
            },
        }
        k += 1;
    }
    assert(dv.take(k as int) =~= dv);
    let entry = match oasm.labels_contains("_start") {
        Some(a) => a,
        None => 0,
    };
    Ok(Assembly { program, entry, float_literals: floats, diagnostics: diags })
}

} // verus!
