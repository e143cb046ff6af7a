use vstd::prelude::*;

use crate::editor::{lines_of, split_lines};
use crate::parser::error::ParserError;
use crate::parser::line::{Line, LineView};
use crate::parser::{
    lemma_parse_lines_length, lines_agree, parse_lines, parse_lines_spec, texts,
};

verus! {

/// The types of asmr document symbols
#[derive(Debug, Eq, PartialEq, Clone, Copy, Structural)]
pub enum SymbolType {
    Label,
    Variable,
}

impl SymbolType {
    /// The number by which editors know the kind of symbol.
    pub open spec fn spec_code(self) -> u32 {
        match self {
            SymbolType::Label => 11,
            SymbolType::Variable => 12,
        }
    }

    /// Computes [`spec_code`](Self::spec_code).
    #[verifier::when_used_as_spec(spec_code)]
    pub fn code(self) -> (code: u32)
        ensures
            code == self.spec_code(),
    {
        match self {
            SymbolType::Label => 11,
            SymbolType::Variable => 12,
        }
    }
}

/// Contains position information about a document symbol
#[derive(Debug, Eq, PartialEq, Clone, Copy, Structural)]
pub struct Range {
    pub line_start: usize,
    pub char_start: usize,
    pub line_end: usize,
    pub char_end: usize,
}

/// Contains document symbol information for asmr symbols
#[derive(Debug, Eq, PartialEq, Clone)]
pub struct DocumentSymbol {
    pub token_name: String,
    pub token_type: SymbolType,
    pub range: Range,
}

/// A [`DocumentSymbol`] as a mathematical value.
pub struct DocumentSymbolView {
    pub token_name: Seq<char>,
    pub token_type: SymbolType,
    pub range: Range,
}

impl View for DocumentSymbol {
    type V = DocumentSymbolView;

    open spec fn view(&self) -> DocumentSymbolView {
        DocumentSymbolView {
            token_name: self.token_name@,
            token_type: self.token_type,
            range: self.range,
        }
    }
}

impl DeepView for DocumentSymbol {
    type V = DocumentSymbolView;

    open spec fn deep_view(&self) -> DocumentSymbolView {
        self@
    }
}

impl DocumentSymbol {
    /// The name of the symbol.
    pub fn token_name(&self) -> (name: String)
        ensures
            name@ == self.token_name@,
    {
        self.token_name.clone()
    }
}

/// How long each line is in bytes of UTF-8.
pub open spec fn lengths(source: Seq<Seq<char>>) -> Seq<usize> {
    source.map_values(|line: Seq<char>| vstd::utf8::encode_utf8(line).len() as usize)
}

/// A symbol that spans whole lines, from the start of `line_start` to the
/// end of `line_end`.
pub open spec fn symbol(
    token_name: Seq<char>,
    token_type: SymbolType,
    line_start: int,
    line_end: int,
    lengths: Seq<usize>,
) -> DocumentSymbolView {
    DocumentSymbolView {
        token_name,
        token_type,
        range: Range {
            line_start: line_start as usize,
            char_start: 0,
            line_end: line_end as usize,
            char_end: lengths[line_end],
        },
    }
}

/// The symbols found so far, and the label that is still open with the
/// line where it stands.
pub struct Scan {
    pub symbols: Seq<DocumentSymbolView>,
    pub open: Option<(Seq<char>, int)>,
}

/// The scan of the lines of a program from the first to the last: a
/// variable is a symbol of its own line; a label opens at its line and
/// closes, as a symbol, on the line before the next label.
pub open spec fn scan(program: Seq<LineView>, lengths: Seq<usize>) -> Scan
    decreases program.len(),
{
    if program.len() == 0 {
        Scan { symbols: Seq::empty(), open: None }
    } else {
        let earlier = scan(program.drop_last(), lengths);
        let at = program.len() - 1;
        match program.last() {
            LineView::Label(name) => Scan {
                symbols: match earlier.open {
                    Some((open, start)) => earlier.symbols.push(
                        symbol(open, SymbolType::Label, start, at - 1, lengths),
                    ),
                    None => earlier.symbols,
                },
                open: Some((name, at)),
            },
            LineView::Variable { identifier, .. } => Scan {
                symbols: earlier.symbols.push(
                    symbol(identifier, SymbolType::Variable, at, at, lengths),
                ),
                open: earlier.open,
            },
            _ => earlier,
        }
    }
}

/// The symbols of a program: those of its scan, and the label that is
/// still open at the end, which closes on the last line.
pub open spec fn symbols(program: Seq<LineView>, lengths: Seq<usize>) -> Seq<DocumentSymbolView> {
    let scanned = scan(program, lengths);
    match scanned.open {
        Some((open, start)) => scanned.symbols.push(
            symbol(open, SymbolType::Label, start, program.len() - 1, lengths),
        ),
        None => scanned.symbols,
    }
}

/// A label that is open stands at a line of the program.
proof fn lemma_open_label(program: Seq<LineView>, lengths: Seq<usize>)
    ensures
        scan(program, lengths).open matches Some((_, start)) ==> 0 <= start < program.len(),
    decreases program.len(),
{
    if program.len() > 0 {
        lemma_open_label(program.drop_last(), lengths);
    }
}

fn make_symbol(
    token_name: &String,
    token_type: SymbolType,
    line_start: usize,
    line_end: usize,
    source: &Vec<String>,
) -> (made: DocumentSymbol)
    requires
        line_end < source.len(),
    ensures
        made@ == symbol(
            token_name@,
            token_type,
            line_start as int,
            line_end as int,
            lengths(texts(source@)),
        ),
{
    DocumentSymbol {
        token_name: token_name.clone(),
        token_type,
        range: Range {
            line_start,
            char_start: 0,
            line_end,
            char_end: source[line_end].as_str().len(),
        },
    }
}

/// Computes [`symbols`] for a program and the lines that it was parsed
/// from.
pub fn document_symbols(lines: &Vec<Line>, source: &Vec<String>) -> (found: Vec<DocumentSymbol>)
    requires
        lines.len() == source.len(),
    ensures
        found.deep_view() == symbols(lines.deep_view(), lengths(texts(source@))),
{
    let ghost program = lines.deep_view();
    let ghost sizes = lengths(texts(source@));
    let mut found: Vec<DocumentSymbol> = Vec::new();
    let mut open: Option<(String, usize)> = None;
    let mut i: usize = 0;
    assert(program.take(0) == Seq::<LineView>::empty());
    assert(found.deep_view() =~= Seq::<DocumentSymbolView>::empty());
    while i < lines.len()
        invariant
            i <= lines.len(),
            lines.len() == source.len(),
            program == lines.deep_view(),
            sizes == lengths(texts(source@)),
            found.deep_view() == scan(program.take(i as int), sizes).symbols,
            match open {
                Some((name, start)) => scan(program.take(i as int), sizes).open == Some(
                    (name@, start as int),
                ) && start < i,
                None => scan(program.take(i as int), sizes).open is None,
            },
        decreases lines.len() - i,
    {
        assert(program.take(i + 1).drop_last() == program.take(i as int));
        assert(program.take(i + 1).last() == lines[i as int]@);
        let ghost before = found.deep_view();
        match &lines[i] {
            Line::Label(label) => {
                match &open {
                    Some((name, start)) => {
                        let closed = make_symbol(name, SymbolType::Label, *start, i - 1, source);
                        found.push(closed);
                        assert(found.deep_view() =~= before.push(closed@));
                    },
                    None => {},
                }
                open = Some((label.clone(), i));
            },
            Line::Variable { identifier, .. } => {
                let added = make_symbol(identifier, SymbolType::Variable, i, i, source);
                found.push(added);
                assert(found.deep_view() =~= before.push(added@));
            },
            _ => {},
        }
        i += 1;
    }
    assert(program.take(lines.len() as int) == program);
    let ghost before = found.deep_view();
    match &open {
        Some((name, start)) => {
            let closed = make_symbol(name, SymbolType::Label, *start, lines.len() - 1, source);
            found.push(closed);
            assert(found.deep_view() =~= before.push(closed@));
        },
        None => {},
    }
    found
}

/// Parses an asmr file into the document symbols for it; fails where the
/// file does not parse.
pub fn get_document_symbols(file_contents: &str) -> (result: Result<
    Vec<DocumentSymbol>,
    ParserError,
>)
    ensures
        match result {
            Ok(found) => parse_lines_spec(lines_of(file_contents@)) matches Ok(program)
                && found.deep_view() == symbols(program, lengths(lines_of(file_contents@))),
            Err(error) => lines_agree(
                Err(error),
                parse_lines_spec(lines_of(file_contents@)),
            ),
        },
{
    let source = split_lines(file_contents);
    match parse_lines(&source) {
        Ok(lines) => {
            proof {
                lemma_parse_lines_length(texts(source@));
            }
            Ok(document_symbols(&lines, &source))
        },
        Err(error) => Err(error),
    }
}

} // verus!
