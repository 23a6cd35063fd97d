//! The one way in which lexing fails.

use vstd::prelude::*;
use vstd::string::StringExecFns;
use crate::text::{decimal, decimal_digits};

verus! {

/// No token starts at `index`, and the character there cannot be skipped.
#[derive(Debug, Clone, Copy, PartialEq, Eq, Structural)]
pub struct Error {
    pub index: usize,
}

impl Error {
    /// The message that describes the error.
    pub open spec fn message(&self) -> Seq<char> {
        "Lexer did not expect character at index "@ + decimal_digits(self.index as nat)
    }

    /// The message that describes the error.
    pub fn to_string(&self) -> (text: String)
        ensures
            text@ == self.message(),
    {
        String::from_str("Lexer did not expect character at index ").concat(
            decimal(self.index).as_str(),
        )
    }
}

} // verus!
