use vstd::prelude::*;

use crate::parser::text::{decimal, push_decimal};

verus! {

/// Why execution stopped, and at which line. Lines are counted from 0 here
/// and shown counted from 1.
#[derive(Debug, PartialEq)]
pub struct AsmrRuntimeError {
    pub line_number: usize,
    pub cause: String,
}

impl AsmrRuntimeError {
    /// An error at the line of the given index.
    pub fn from(line_number: usize, cause: &str) -> (error: Self)
        ensures
            error.line_number == line_number,
            error.cause@ == cause@,
    {
        AsmrRuntimeError { line_number, cause: String::from_str(cause) }
    }

    /// The error as it is shown to the user.
    pub open spec fn spec_to_string(&self) -> Seq<char> {
        "Error on line "@ + decimal(self.line_number + 1) + ": "@ + self.cause@
    }

    /// Computes [`spec_to_string`](Self::spec_to_string).
    pub fn to_string(&self) -> (shown: String)
        ensures
            shown@ == self.spec_to_string(),
    {
        let mut shown = String::from_str("Error on line ");
        push_decimal(&mut shown, self.line_number as i128 + 1);
        shown.append(": ");
        shown.append(self.cause.as_str());
        shown
    }
}

} // verus!
