//! The errors of the emulator.

use vstd::prelude::*;
use vstd::string::*;

verus! {

/// What can go wrong in the emulator, by the component that reports it.
///
/// Every variant carries a short description of the failure.
#[derive(Copy, Clone, Debug, PartialEq, Eq)]
pub enum Error {
    /// An address that the bus cannot read or write.
    Bus(&'static str),
    /// An instruction that the datapath cannot execute.
    Cpu(&'static str),
    /// A value or text that is no instruction.
    Instruction(&'static str),
    /// A microprogram text that cannot be loaded.
    Parse(&'static str),
}

impl Error {
    /// The name of the component that reports the error, as a prefix.
    pub open spec fn prefix(self) -> Seq<char> {
        match self {
            Error::Bus(_) => "Bus error: "@,
            Error::Cpu(_) => "Cpu error: "@,
            Error::Instruction(_) => "Instruction error: "@,
            Error::Parse(_) => "Parse error: "@,
        }
    }

    /// The description that the error carries.
    pub open spec fn detail(self) -> Seq<char> {
        match self {
            Error::Bus(s) => s@,
            Error::Cpu(s) => s@,
            Error::Instruction(s) => s@,
            Error::Parse(s) => s@,
        }
    }

    /// The error as a line of text: its component, then its description.
    pub fn message(&self) -> (text: String)
        ensures
            text@ == self.prefix() + self.detail(),
    {
        match self {
            Error::Bus(s) => String::from_str("Bus error: ").concat(s),
            Error::Cpu(s) => String::from_str("Cpu error: ").concat(s),
            Error::Instruction(s) => String::from_str("Instruction error: ").concat(s),
            Error::Parse(s) => String::from_str("Parse error: ").concat(s),
        }
    }
}

} // verus!
