use vstd::prelude::*;
use crate::word::Word;

verus! {

/// The kind of an instruction.
#[derive(Clone, Copy, Debug, PartialEq, Eq, Structural)]
pub enum OpcodeType {
    Nop,
    Mov,
    Movfs,
    Srg,
    Clr,
    Add,
    Sub,
    Mul,
    Div,
    Dec,
    Inc,
    Equal,
    Jt,
    Jz,
    Jnz,
    Sysf,
    Push,
    Dupl,
    Adds,
    Subs,
    Muls,
    Divs,
    Equals,
    Jts,
    Jzs,
    Jnzs,
    Swc,
    Jmp,
    Call,
    And,
    Or,
    Xor,
    Shl,
    Shr,
    Not,
    Pop,
    Ret,
    Hlt,
    Phsr,
}

/// Number of instruction kinds.
pub const OPCODE_KINDS: u32 = 39;

impl OpcodeType {
    /// The fixed small integer that stands for the kind in an image.
    pub open spec fn code_spec(self) -> u32 {
        match self {
            OpcodeType::Nop => 0,
            OpcodeType::Mov => 1,
            OpcodeType::Movfs => 2,
            OpcodeType::Srg => 3,
            OpcodeType::Clr => 4,
            OpcodeType::Add => 5,
            OpcodeType::Sub => 6,
            OpcodeType::Mul => 7,
            OpcodeType::Div => 8,
            OpcodeType::Dec => 9,
            OpcodeType::Inc => 10,
            OpcodeType::Equal => 11,
            OpcodeType::Jt => 12,
            OpcodeType::Jz => 13,
            OpcodeType::Jnz => 14,
            OpcodeType::Sysf => 15,
            OpcodeType::Push => 16,
            OpcodeType::Dupl => 17,
            OpcodeType::Adds => 18,
            OpcodeType::Subs => 19,
            OpcodeType::Muls => 20,
            OpcodeType::Divs => 21,
            OpcodeType::Equals => 22,
            OpcodeType::Jts => 23,
            OpcodeType::Jzs => 24,
            OpcodeType::Jnzs => 25,
            OpcodeType::Swc => 26,
            OpcodeType::Jmp => 27,
            OpcodeType::Call => 28,
            OpcodeType::And => 29,
            OpcodeType::Or => 30,
            OpcodeType::Xor => 31,
            OpcodeType::Shl => 32,
            OpcodeType::Shr => 33,
            OpcodeType::Not => 34,
            OpcodeType::Pop => 35,
            OpcodeType::Ret => 36,
            OpcodeType::Hlt => 37,
            OpcodeType::Phsr => 38,
        }
    }

    /// The kind that a code stands for.
    pub open spec fn from_code_spec(c: u32) -> Option<OpcodeType> {
        if c == 0 {
            Some(OpcodeType::Nop)
        } else if c == 1 {
            Some(OpcodeType::Mov)
        } else if c == 2 {
            Some(OpcodeType::Movfs)
        } else if c == 3 {
            Some(OpcodeType::Srg)
        } else if c == 4 {
            Some(OpcodeType::Clr)
        } else if c == 5 {
            Some(OpcodeType::Add)
        } else if c == 6 {
            Some(OpcodeType::Sub)
        } else if c == 7 {
            Some(OpcodeType::Mul)
        } else if c == 8 {
            Some(OpcodeType::Div)
        } else if c == 9 {
            Some(OpcodeType::Dec)
        } else if c == 10 {
            Some(OpcodeType::Inc)
        } else if c == 11 {
            Some(OpcodeType::Equal)
        } else if c == 12 {
            Some(OpcodeType::Jt)
        } else if c == 13 {
            Some(OpcodeType::Jz)
        } else if c == 14 {
            Some(OpcodeType::Jnz)
        } else if c == 15 {
            Some(OpcodeType::Sysf)
        } else if c == 16 {
            Some(OpcodeType::Push)
        } else if c == 17 {
            Some(OpcodeType::Dupl)
        } else if c == 18 {
            Some(OpcodeType::Adds)
        } else if c == 19 {
            Some(OpcodeType::Subs)
        } else if c == 20 {
            Some(OpcodeType::Muls)
        } else if c == 21 {
            Some(OpcodeType::Divs)
        } else if c == 22 {
            Some(OpcodeType::Equals)
        } else if c == 23 {
            Some(OpcodeType::Jts)
        } else if c == 24 {
            Some(OpcodeType::Jzs)
        } else if c == 25 {
            Some(OpcodeType::Jnzs)
        } else if c == 26 {
            Some(OpcodeType::Swc)
        } else if c == 27 {
            Some(OpcodeType::Jmp)
        } else if c == 28 {
            Some(OpcodeType::Call)
        } else if c == 29 {
            Some(OpcodeType::And)
        } else if c == 30 {
            Some(OpcodeType::Or)
        } else if c == 31 {
            Some(OpcodeType::Xor)
        } else if c == 32 {
            Some(OpcodeType::Shl)
        } else if c == 33 {
            Some(OpcodeType::Shr)
        } else if c == 34 {
            Some(OpcodeType::Not)
        } else if c == 35 {
            Some(OpcodeType::Pop)
        } else if c == 36 {
            Some(OpcodeType::Ret)
        } else if c == 37 {
            Some(OpcodeType::Hlt)
        } else if c == 38 {
            Some(OpcodeType::Phsr)
        } else {
            None
        }
    }

    pub fn code(&self) -> (r: u32)
        ensures
            r == self.code_spec(),
            r < OPCODE_KINDS,
    {
        match self {
            OpcodeType::Nop => 0,
            OpcodeType::Mov => 1,
            OpcodeType::Movfs => 2,
            OpcodeType::Srg => 3,
            OpcodeType::Clr => 4,
            OpcodeType::Add => 5,
            OpcodeType::Sub => 6,
            OpcodeType::Mul => 7,
            OpcodeType::Div => 8,
            OpcodeType::Dec => 9,
            OpcodeType::Inc => 10,
            OpcodeType::Equal => 11,
            OpcodeType::Jt => 12,
            OpcodeType::Jz => 13,
            OpcodeType::Jnz => 14,
            OpcodeType::Sysf => 15,
            OpcodeType::Push => 16,
            OpcodeType::Dupl => 17,
            OpcodeType::Adds => 18,
            OpcodeType::Subs => 19,
            OpcodeType::Muls => 20,
            OpcodeType::Divs => 21,
            OpcodeType::Equals => 22,
            OpcodeType::Jts => 23,
            OpcodeType::Jzs => 24,
            OpcodeType::Jnzs => 25,
            OpcodeType::Swc => 26,
            OpcodeType::Jmp => 27,
            OpcodeType::Call => 28,
            OpcodeType::And => 29,
            OpcodeType::Or => 30,
            OpcodeType::Xor => 31,
            OpcodeType::Shl => 32,
            OpcodeType::Shr => 33,
            OpcodeType::Not => 34,
            OpcodeType::Pop => 35,
            OpcodeType::Ret => 36,
            OpcodeType::Hlt => 37,
            OpcodeType::Phsr => 38,
        }
    }

    pub fn from_code(c: u32) -> (r: Option<OpcodeType>)
        ensures
            r == OpcodeType::from_code_spec(c),
    {
        if c == 0 {
            Some(OpcodeType::Nop)
        } else if c == 1 {
            Some(OpcodeType::Mov)
        } else if c == 2 {
            Some(OpcodeType::Movfs)
        } else if c == 3 {
            Some(OpcodeType::Srg)
        } else if c == 4 {
            Some(OpcodeType::Clr)
        } else if c == 5 {
            Some(OpcodeType::Add)
        } else if c == 6 {
            Some(OpcodeType::Sub)
        } else if c == 7 {
            Some(OpcodeType::Mul)
        } else if c == 8 {
            Some(OpcodeType::Div)
        } else if c == 9 {
            Some(OpcodeType::Dec)
        } else if c == 10 {
            Some(OpcodeType::Inc)
        } else if c == 11 {
            Some(OpcodeType::Equal)
        } else if c == 12 {
            Some(OpcodeType::Jt)
        } else if c == 13 {
            Some(OpcodeType::Jz)
        } else if c == 14 {
            Some(OpcodeType::Jnz)
        } else if c == 15 {
            Some(OpcodeType::Sysf)
        } else if c == 16 {
            Some(OpcodeType::Push)
        } else if c == 17 {
            Some(OpcodeType::Dupl)
        } else if c == 18 {
            Some(OpcodeType::Adds)
        } else if c == 19 {
            Some(OpcodeType::Subs)
        } else if c == 20 {
            Some(OpcodeType::Muls)
        } else if c == 21 {
            Some(OpcodeType::Divs)
        } else if c == 22 {
            Some(OpcodeType::Equals)
        } else if c == 23 {
            Some(OpcodeType::Jts)
        } else if c == 24 {
            Some(OpcodeType::Jzs)
        } else if c == 25 {
            Some(OpcodeType::Jnzs)
        } else if c == 26 {
            Some(OpcodeType::Swc)
        } else if c == 27 {
            Some(OpcodeType::Jmp)
        } else if c == 28 {
            Some(OpcodeType::Call)
        } else if c == 29 {
            Some(OpcodeType::And)
        } else if c == 30 {
            Some(OpcodeType::Or)
        } else if c == 31 {
            Some(OpcodeType::Xor)
        } else if c == 32 {
            Some(OpcodeType::Shl)
        } else if c == 33 {
            Some(OpcodeType::Shr)
        } else if c == 34 {
            Some(OpcodeType::Not)
        } else if c == 35 {
            Some(OpcodeType::Pop)
        } else if c == 36 {
            Some(OpcodeType::Ret)
        } else if c == 37 {
            Some(OpcodeType::Hlt)
        } else if c == 38 {
            Some(OpcodeType::Phsr)
        } else {
            None
        }
    }
}

/// Reading back the code of a kind gives the kind.
pub proof fn lemma_code_round_trip(t: OpcodeType)
    ensures
        OpcodeType::from_code_spec(t.code_spec()) == Some(t),
{
}

/// One instruction: its kind, an optional immediate word, and the names of
/// the registers it names, in order.
#[derive(Clone, Debug)]
pub struct Opcode {
    pub op_type: OpcodeType,
    pub op_operand: Option<Word>,
    pub op_regs: Vec<String>,
}

/// What an instruction is, with register names as character sequences.
pub struct OpcodeView {
    pub op_type: OpcodeType,
    pub op_operand: Option<Word>,
    pub op_regs: Seq<Seq<char>>,
}

/// The character sequences of a list of strings.
pub open spec fn strings_view(v: Seq<String>) -> Seq<Seq<char>> {
    v.map_values(|s: String| s@)
}

impl View for Opcode {
    type V = OpcodeView;

    open spec fn view(&self) -> OpcodeView {
        OpcodeView {
            op_type: self.op_type,
            op_operand: self.op_operand,
            op_regs: strings_view(self.op_regs@),
        }
    }
}

/// The views of a sequence of instructions.
pub open spec fn program_view(p: Seq<Opcode>) -> Seq<OpcodeView> {
    p.map_values(|o: Opcode| o@)
}

impl Opcode {
    /// An instruction of no effect with a zero immediate.
    pub fn init() -> (r: Opcode)
        ensures
            r@ == (OpcodeView {
                op_type: OpcodeType::Nop,
                op_operand: Some(Word::U64(0)),
                op_regs: Seq::empty(),
            }),
    {
        let r = Opcode { op_type: OpcodeType::Nop, op_operand: Some(Word::U64(0)), op_regs: Vec::new() };
        assert(r@.op_regs =~= Seq::<Seq<char>>::empty());
        r
    }
}

} // verus!
