use vstd::prelude::*;

use crate::parser::instruction::Instruction;
use crate::parser::token::{Token, TokenView};

verus! {

/// How a variable definition lays out its memory.
#[derive(Clone, Copy, Debug, PartialEq, Eq, Structural)]
pub enum MemType {
    /// Bytes given in the definition.
    Db,
    /// A number of reserved bytes.
    Resb,
}

/// One classified line of source text.
#[derive(Debug, PartialEq)]
pub enum Line {
    Instruction { instruction: Instruction, params: Vec<Token> },
    Label(String),
    Variable { identifier: String, mem_type: MemType, params: Vec<Token> },
    Blank,
}

/// A [`Line`] as a mathematical value.
pub enum LineView {
    Instruction { instruction: Instruction, params: Seq<TokenView> },
    Label(Seq<char>),
    Variable { identifier: Seq<char>, mem_type: MemType, params: Seq<TokenView> },
    Blank,
}

impl View for Line {
    type V = LineView;

    open spec fn view(&self) -> LineView {
        match self {
            Line::Instruction { instruction, params } => LineView::Instruction {
                instruction: *instruction,
                params: params.deep_view(),
            },
            Line::Label(name) => LineView::Label(name@),
            Line::Variable { identifier, mem_type, params } => LineView::Variable {
                identifier: identifier@,
                mem_type: *mem_type,
                params: params.deep_view(),
            },
            Line::Blank => LineView::Blank,
        }
    }
}

impl DeepView for Line {
    type V = LineView;

    open spec fn deep_view(&self) -> LineView {
        self@
    }
}

} // verus!
