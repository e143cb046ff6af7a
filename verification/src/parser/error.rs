use vstd::prelude::*;

use crate::parser::text::{decimal, push_decimal};

verus! {

/// Why a line could not be parsed, and which line it was.
#[derive(Debug, PartialEq)]
pub struct ParserError {
    pub line_number: i32,
    pub cause: String,
}

impl ParserError {
    /// The error as it is shown to the user.
    pub open spec fn spec_to_string(&self) -> Seq<char> {
        "Error on line "@ + decimal(self.line_number as int) + ": "@ + self.cause@
    }

    /// Computes [`spec_to_string`](Self::spec_to_string).
    pub fn to_string(&self) -> (shown: String)
        ensures
            shown@ == self.spec_to_string(),
    {
        let mut shown = String::from_str("Error on line ");
        push_decimal(&mut shown, self.line_number as i128);
        shown.append(": ");
        shown.append(self.cause.as_str());
        shown
    }
}

} // verus!
