use vstd::prelude::*;

use crate::editor::{lines_of, split_lines};
use crate::machine::register::{RegisterName, REGISTER_COUNT};
use crate::parser::error::ParserError;
use crate::parser::instruction::{Instruction, INSTRUCTION_COUNT};
use crate::parser::line::{Line, LineView};
use crate::parser::{lines_agree, parse_lines, parse_lines_spec};

verus! {

/// The types of asmr completion items
#[derive(Debug, Eq, PartialEq, Clone, Copy, Structural)]
pub enum CompletionType {
    Variable,
    Function,
    Label,
    Register,
    Instruction,
}

/// Contains completion item information for an asmr token
#[derive(Debug, Eq, PartialEq, Clone)]
pub struct CompletionItem {
    pub token_name: String,
    pub token_type: CompletionType,
}

/// A [`CompletionItem`] as a mathematical value.
pub struct CompletionItemView {
    pub token_name: Seq<char>,
    pub token_type: CompletionType,
}

impl View for CompletionItem {
    type V = CompletionItemView;

    open spec fn view(&self) -> CompletionItemView {
        CompletionItemView { token_name: self.token_name@, token_type: self.token_type }
    }
}

impl DeepView for CompletionItem {
    type V = CompletionItemView;

    open spec fn deep_view(&self) -> CompletionItemView {
        self@
    }
}

impl CompletionItem {
    /// The name of the token.
    pub fn token_name(&self) -> (name: String)
        ensures
            name@ == self.token_name@,
    {
        self.token_name.clone()
    }
}

/// A completion item of the given name and type.
pub open spec fn item(token_name: Seq<char>, token_type: CompletionType) -> CompletionItemView {
    CompletionItemView { token_name, token_type }
}

/// The labels and the variables that the lines declare, in their order.
pub open spec fn declared(program: Seq<LineView>) -> Seq<CompletionItemView>
    decreases program.len(),
{
    if program.len() == 0 {
        Seq::empty()
    } else {
        let earlier = declared(program.drop_last());
        match program.last() {
            LineView::Label(name) => earlier.push(item(name, CompletionType::Label)),
            LineView::Variable { identifier, .. } => earlier.push(
                item(identifier, CompletionType::Variable),
            ),
            _ => earlier,
        }
    }
}

/// The built-in functions.
pub open spec fn builtins() -> Seq<CompletionItemView> {
    seq![
        item("asmr::io::print"@, CompletionType::Function),
        item("asmr::io::readln"@, CompletionType::Function),
    ]
}

/// Every register.
pub open spec fn registers() -> Seq<CompletionItemView> {
    Seq::new(
        REGISTER_COUNT as nat,
        |i: int| item(RegisterName::at(i).spec_name(), CompletionType::Register),
    )
}

/// Every opcode.
pub open spec fn instructions() -> Seq<CompletionItemView> {
    Seq::new(
        INSTRUCTION_COUNT as nat,
        |i: int| item(Instruction::at(i).spec_name(), CompletionType::Instruction),
    )
}

/// What to offer as a completion in a program: what it declares, then the
/// built-in functions, the registers and the opcodes.
pub open spec fn completions(program: Seq<LineView>) -> Seq<CompletionItemView> {
    declared(program) + builtins() + registers() + instructions()
}

/// Computes [`completions`].
pub fn completion_items(lines: &Vec<Line>) -> (items: Vec<CompletionItem>)
    ensures
        items.deep_view() == completions(lines.deep_view()),
{
    let ghost program = lines.deep_view();
    let mut items: Vec<CompletionItem> = Vec::new();
    let mut i: usize = 0;
    assert(program.take(0) == Seq::<LineView>::empty());
    assert(items.deep_view() =~= Seq::<CompletionItemView>::empty());
    while i < lines.len()
        invariant
            i <= lines.len(),
            program == lines.deep_view(),
            items.deep_view() == declared(program.take(i as int)),
        decreases lines.len() - i,
    {
        assert(program.take(i + 1).drop_last() == program.take(i as int));
        assert(program.take(i + 1).last() == lines[i as int]@);
        let ghost before = items.deep_view();
        match &lines[i] {
            Line::Label(label) => {
                let added = CompletionItem {
                    token_name: label.clone(),
                    token_type: CompletionType::Label,
                };
                items.push(added);
                assert(items.deep_view() =~= before.push(added@));
            },
            Line::Variable { identifier, .. } => {
                let added = CompletionItem {
                    token_name: identifier.clone(),
                    token_type: CompletionType::Variable,
                };
                items.push(added);
                assert(items.deep_view() =~= before.push(added@));
            },
            _ => {},
        }
        i += 1;
    }
    assert(program.take(lines.len() as int) == program);

    let ghost before = items.deep_view();
    let print = CompletionItem {
        token_name: String::from_str("asmr::io::print"),
        token_type: CompletionType::Function,
    };
    let readln = CompletionItem {
        token_name: String::from_str("asmr::io::readln"),
        token_type: CompletionType::Function,
    };
    items.push(print);
    items.push(readln);
    assert(items.deep_view() =~= before + builtins());

    let ghost before = items.deep_view();
    let names = RegisterName::all();
    let mut i: usize = 0;
    while i < names.len()
        invariant
            i <= names.len(),
            names.len() == REGISTER_COUNT,
            forall|k: int| 0 <= k < REGISTER_COUNT ==> names[k] == RegisterName::at(k),
            items.deep_view() == before + registers().take(i as int),
        decreases names.len() - i,
    {
        let ghost so_far = items.deep_view();
        let added = CompletionItem {
            token_name: String::from_str(names[i].name()),
            token_type: CompletionType::Register,
        };
        items.push(added);
        assert(items.deep_view() =~= so_far.push(added@));
        assert(registers().take(i + 1) =~= registers().take(i as int).push(added@));
        i += 1;
    }
    assert(registers().take(REGISTER_COUNT as int) == registers());

    let ghost before = items.deep_view();
    let opcodes = Instruction::all();
    let mut i: usize = 0;
    while i < opcodes.len()
        invariant
            i <= opcodes.len(),
            opcodes.len() == INSTRUCTION_COUNT,
            forall|k: int| 0 <= k < INSTRUCTION_COUNT ==> opcodes[k] == Instruction::at(k),
            items.deep_view() == before + instructions().take(i as int),
        decreases opcodes.len() - i,
    {
        let ghost so_far = items.deep_view();
        let added = CompletionItem {
            token_name: String::from_str(opcodes[i].name()),
            token_type: CompletionType::Instruction,
        };
        items.push(added);
        assert(items.deep_view() =~= so_far.push(added@));
        assert(instructions().take(i + 1) =~= instructions().take(i as int).push(added@));
        i += 1;
    }
    assert(instructions().take(INSTRUCTION_COUNT as int) == instructions());
    items
}

/// Parses an asmr file into the completion items for it; fails where the
/// file does not parse.
pub fn get_completion_items(file_contents: &str) -> (result: Result<
    Vec<CompletionItem>,
    ParserError,
>)
    ensures
        match result {
            Ok(items) => parse_lines_spec(lines_of(file_contents@)) matches Ok(program)
                && items.deep_view() == completions(program),
            Err(error) => lines_agree(
                Err(error),
                parse_lines_spec(lines_of(file_contents@)),
            ),
        },
{
    let source = split_lines(file_contents);
    match parse_lines(&source) {
        Ok(lines) => Ok(completion_items(&lines)),
        Err(error) => Err(error),
    }
}

} // verus!
