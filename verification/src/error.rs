//! The failure of resolving a numeric literal.

use vstd::prelude::*;
use vstd::string::StringExecFns;

verus! {

/// Why a numeric literal is invalid.
#[derive(Debug, Clone, Copy, PartialEq, Eq, Structural)]
pub enum ErrorKind {
    /// A base prefix with no digit behind it.
    Empty,
    /// A character that is no digit of the literal's base.
    InvalidDigit,
    /// A value beyond 64 bits.
    Overflow,
}

/// An invalid numeric literal, with the place of its token.
#[derive(Debug, Clone, Copy, PartialEq, Eq, Structural)]
pub struct LexError {
    pub kind: ErrorKind,
    pub line: usize,
    pub column: usize,
    pub index: usize,
}

/// The model of a `LexError`.
pub struct SpecLexError {
    pub kind: ErrorKind,
    pub line: nat,
    pub column: nat,
    pub index: nat,
}

impl View for LexError {
    type V = SpecLexError;

    open spec fn view(&self) -> SpecLexError {
        SpecLexError {
            kind: self.kind,
            line: self.line as nat,
            column: self.column as nat,
            index: self.index as nat,
        }
    }
}

impl ErrorKind {
    /// The words that describe this kind of failure.
    pub open spec fn description(self) -> Seq<char> {
        match self {
            ErrorKind::Empty => "cannot parse integer from empty string"@,
            ErrorKind::InvalidDigit => "invalid digit found in string"@,
            ErrorKind::Overflow => "number too large to fit in target type"@,
        }
    }
}

impl LexError {
    /// A message for the user.
    pub fn message(&self) -> (text: String)
        ensures
            text@ == self.kind.description(),
    {
        match self.kind {
            ErrorKind::Empty => String::from_str("cannot parse integer from empty string"),
            ErrorKind::InvalidDigit => String::from_str("invalid digit found in string"),
            ErrorKind::Overflow => String::from_str("number too large to fit in target type"),
        }
    }
}

} // verus!
