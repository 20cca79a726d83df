use vstd::prelude::*;

verus! {

/// The error kinds that an instruction can report.
#[derive(Clone, Copy, Debug, PartialEq, Eq, Structural)]
pub enum Error {
    NoError,
    RegisterOverflow,
    RegisterUnderflow,
    StackOverflow,
    StackUnderflow,
    InvalidOpcodeAccess,
    InvalidOperand,
    InvalidRegister,
    InvalidSection,
    InvalidSysFunction,
    IllegalMemoryAccess,
    DivByZero,
}

impl Error {
    /// The name of the kind, as text.
    pub open spec fn name_spec(self) -> Seq<char> {
        match self {
            Error::NoError => "None"@,
            Error::RegisterOverflow => "RegisterOverflow"@,
            Error::RegisterUnderflow => "RegisterUnderflow"@,
            Error::StackOverflow => "StackOverflow"@,
            Error::StackUnderflow => "StackUnderflow"@,
            Error::InvalidOpcodeAccess => "InvalidOpcodeAccess"@,
            Error::InvalidOperand => "InvalidOperand"@,
            Error::InvalidRegister => "InvalidRegister"@,
            Error::InvalidSection => "InvalidSection"@,
            Error::InvalidSysFunction => "InvalidSysFunction"@,
            Error::IllegalMemoryAccess => "IllegalMemoryAccess"@,
            Error::DivByZero => "DivByZero"@,
        }
    }

    pub fn as_string(&self) -> (r: String)
        ensures
            r@ == self.name_spec(),
    {
        let s: &str = match self {
            Error::NoError => "None",
            Error::RegisterOverflow => "RegisterOverflow",
            Error::RegisterUnderflow => "RegisterUnderflow",
            Error::StackOverflow => "StackOverflow",
            Error::StackUnderflow => "StackUnderflow",
            Error::InvalidOpcodeAccess => "InvalidOpcodeAccess",
            Error::InvalidOperand => "InvalidOperand",
            Error::InvalidRegister => "InvalidRegister",
            Error::InvalidSection => "InvalidSection",
            Error::InvalidSysFunction => "InvalidSysFunction",
            Error::IllegalMemoryAccess => "IllegalMemoryAccess",
            Error::DivByZero => "DivByZero",
        };
        s.to_owned()
    }
}

} // verus!
