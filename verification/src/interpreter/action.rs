use vstd::prelude::*;

use crate::interpreter::error::AsmrRuntimeError;
use crate::interpreter::semantics::{ActionView, EventView, Outcome};
use crate::machine::executing_context::MachineState;

verus! {

/// What the host has to do after a step.
///
/// The interpreter itself neither reads nor writes: where a program calls a
/// built-in, the step hands the request to the host, and the host hands the
/// matching [`Event`] back to [`resume`](crate::interpreter::resume).
#[derive(Debug, PartialEq)]
pub enum Action {
    /// Nothing: take the next step.
    Continue,
    /// Write the text to standard output and flush it, then resume with
    /// [`Event::Printed`].
    Print(String),
    /// Read one line from standard input, then resume with [`Event::Line`].
    ReadLine,
    /// The program has ended with this exit code.
    Exit(u8),
}

impl View for Action {
    type V = ActionView;

    open spec fn view(&self) -> ActionView {
        match self {
            Action::Continue => ActionView::Continue,
            Action::Print(text) => ActionView::Print(text@),
            Action::ReadLine => ActionView::ReadLine,
            Action::Exit(code) => ActionView::Exit(*code),
        }
    }
}

/// What the host hands back after it has done what a step asked for.
#[derive(Debug, PartialEq)]
pub enum Event {
    /// The text was written.
    Printed,
    /// The line that was read, with its line ending if it had one.
    Line(String),
}

impl View for Event {
    type V = EventView;

    open spec fn view(&self) -> EventView {
        match self {
            Event::Printed => EventView::Printed,
            Event::Line(line) => EventView::Line(line@),
        }
    }
}

/// Whether what a function returned and the state it left are what
/// `outcome` says. An error names the line that was being executed.
pub open spec fn agrees(
    result: Result<Action, AsmrRuntimeError>,
    state: MachineState,
    outcome: Outcome,
    line: usize,
) -> bool {
    &&& state == outcome.state
    &&& match result {
        Ok(action) => outcome.result == Ok::<ActionView, Seq<char>>(action@),
        Err(error) => outcome.result == Err::<ActionView, Seq<char>>(error.cause@)
            && error.line_number == line,
    }
}

} // verus!
