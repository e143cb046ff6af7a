//! An interpreter for asmr, a small x86-flavoured assembly dialect.
//!
//! Source text is classified line by line by [`parser`], and the resulting
//! program is executed on the register machine of [`machine`] by [`interpreter`].

pub mod editor;
pub mod interpreter;
pub mod machine;
pub mod parser;

pub use interpreter::action::{Action, Event};
pub use interpreter::error::AsmrRuntimeError;
pub use interpreter::{resume, start, step};
pub use parser::{is_valid_identifier, parse_lines};
