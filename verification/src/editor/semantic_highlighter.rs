use vstd::prelude::*;
use vstd::utf8::encode_utf8;

use crate::editor::{lines_of, split_lines};
use crate::parser::error::ParserError;
use crate::parser::line::{Line, LineView};
use crate::parser::text::{
    find, lemma_find_from_is_least, search, slice, spells, to_chars, to_text,
};
use crate::parser::token::{Token, TokenView};
use crate::parser::{
    lemma_parse_lines_length, lines_agree, parse_lines, parse_lines_spec, texts,
};

verus! {

/// The types of asmr semantic tokens
#[derive(Debug, Eq, PartialEq, Clone, Copy, Structural)]
pub enum SemanticTokenType {
    Variable,
    Function,
}

impl SemanticTokenType {
    /// The number that stands for the type in a [`SemanticToken`].
    pub open spec fn spec_code(self) -> u32 {
        match self {
            SemanticTokenType::Variable => 0,
            SemanticTokenType::Function => 1,
        }
    }

    /// Computes [`spec_code`](Self::spec_code).
    #[verifier::when_used_as_spec(spec_code)]
    pub fn code(self) -> (code: u32)
        ensures
            code == self.spec_code(),
    {
        match self {
            SemanticTokenType::Variable => 0,
            SemanticTokenType::Function => 1,
        }
    }
}

/// Contains semantic highlighting information for an asmr token
#[derive(Debug, Eq, PartialEq, Clone)]
pub struct SemanticToken {
    pub token_name: String,
    pub delta_line: u32,
    pub delta_start: u32,
    pub length: u32,
    pub token_type: u32,
}

/// A [`SemanticToken`] as a mathematical value.
pub struct SemanticTokenView {
    pub token_name: Seq<char>,
    pub delta_line: u32,
    pub delta_start: u32,
    pub length: u32,
    pub token_type: u32,
}

impl View for SemanticToken {
    type V = SemanticTokenView;

    open spec fn view(&self) -> SemanticTokenView {
        SemanticTokenView {
            token_name: self.token_name@,
            delta_line: self.delta_line,
            delta_start: self.delta_start,
            length: self.length,
            token_type: self.token_type,
        }
    }
}

impl DeepView for SemanticToken {
    type V = SemanticTokenView;

    open spec fn deep_view(&self) -> SemanticTokenView {
        self@
    }
}

impl SemanticToken {
    /// The name of the token.
    pub fn token_name(&self) -> (name: String)
        ensures
            name@ == self.token_name@,
    {
        self.token_name.clone()
    }
}

/// How many bytes of UTF-8 stand in `line` before the first place where
/// `name` stands; 0 where it stands nowhere.
pub open spec fn byte_offset(line: Seq<char>, name: Seq<char>) -> usize {
    match find(line, name) {
        Some(at) => encode_utf8(line.take(at)).len() as usize,
        None => 0,
    }
}

/// The token for the first occurrence of `name` in the line of the given
/// index. Where it stands and how long it is are counted in bytes of UTF-8
/// and kept in 32 bits, as the index of the line is.
pub open spec fn token(
    name: Seq<char>,
    line: Seq<char>,
    line_index: int,
    token_type: SemanticTokenType,
) -> SemanticTokenView {
    SemanticTokenView {
        token_name: name,
        delta_line: line_index as u32,
        delta_start: byte_offset(line, name) as u32,
        length: (encode_utf8(name).len() as usize) as u32,
        token_type: token_type.spec_code(),
    }
}

/// Whether `name` is that of a built-in function that there is.
pub open spec fn is_known_builtin(name: Seq<char>) -> bool {
    name == "asmr::io::print"@ || name == "asmr::io::readln"@
}

/// The tokens for the operands of a line: an identifier is a function where
/// it names a built-in, a variable where it is known, and nothing else.
pub open spec fn operand_tokens(
    params: Seq<TokenView>,
    line: Seq<char>,
    line_index: int,
    known: Seq<Seq<char>>,
) -> Seq<SemanticTokenView>
    decreases params.len(),
{
    if params.len() == 0 {
        Seq::empty()
    } else {
        let earlier = operand_tokens(params.drop_last(), line, line_index, known);
        match params.last() {
            TokenView::Identifier(name) => if is_known_builtin(name) {
                earlier.push(token(name, line, line_index, SemanticTokenType::Function))
            } else if known.contains(name) {
                earlier.push(token(name, line, line_index, SemanticTokenType::Variable))
            } else {
                earlier
            },
            _ => earlier,
        }
    }
}

/// The labels of a program, in their order.
pub open spec fn labels(program: Seq<LineView>) -> Seq<Seq<char>>
    decreases program.len(),
{
    if program.len() == 0 {
        Seq::empty()
    } else {
        let earlier = labels(program.drop_last());
        match program.last() {
            LineView::Label(name) => earlier.push(name),
            _ => earlier,
        }
    }
}

/// The tokens found so far and the identifiers that are known.
pub struct Highlight {
    pub tokens: Seq<SemanticTokenView>,
    pub known: Seq<Seq<char>>,
}

/// The tokens of the first `upto` lines of a program. Every label of the
/// program is known from the start; a variable becomes known at its
/// definition, before the operands of that line are looked at.
pub open spec fn highlight(program: Seq<LineView>, source: Seq<Seq<char>>, upto: int) -> Highlight
    decreases upto,
{
    if upto <= 0 {
        Highlight { tokens: Seq::empty(), known: labels(program) }
    } else {
        let earlier = highlight(program, source, upto - 1);
        let at = upto - 1;
        let line = source[at];
        match program[at] {
            LineView::Instruction { params, .. } => Highlight {
                tokens: earlier.tokens + operand_tokens(params, line, at, earlier.known),
                known: earlier.known,
            },
            LineView::Label(name) => Highlight {
                tokens: earlier.tokens.push(token(name, line, at, SemanticTokenType::Variable)),
                known: earlier.known.push(name),
            },
            LineView::Variable { identifier, params, .. } => {
                let known = earlier.known.push(identifier);
                Highlight {
                    tokens: earlier.tokens.push(
                        token(identifier, line, at, SemanticTokenType::Variable),
                    ) + operand_tokens(params, line, at, known),
                    known,
                }
            },
            LineView::Blank => earlier,
        }
    }
}

/// The semantic tokens of a program and the lines that it was parsed from.
pub open spec fn semantic_tokens(program: Seq<LineView>, source: Seq<Seq<char>>) -> Seq<
    SemanticTokenView,
> {
    highlight(program, source, program.len() as int).tokens
}

fn make_token(name: &String, line: &Vec<char>, line_index: usize, token_type: SemanticTokenType)
    -> (made: SemanticToken)
    ensures
        made@ == token(name@, line@, line_index as int, token_type),
{
    let pattern = to_chars(name.as_str());
    let offset: usize = match search(line, &pattern) {
        Some(at) => {
            proof {
                lemma_find_from_is_least(line@, pattern@, 0);
            }
            let before = slice(line, 0, at);
            assert(before@ == line@.take(at as int));
            to_text(&before).as_str().len()
        },
        None => 0,
    };
    SemanticToken {
        token_name: name.clone(),
        delta_line: #[verifier::truncate]
        (line_index as u32),
        delta_start: #[verifier::truncate]
        (offset as u32),
        length: #[verifier::truncate]
        (name.as_str().len() as u32),
        token_type: token_type.code(),
    }
}

fn is_known(name: &String, known: &Vec<String>) -> (found: bool)
    ensures
        found == texts(known@).contains(name@),
{
    let mut i: usize = 0;
    while i < known.len()
        invariant
            i <= known.len(),
            forall|k: int| 0 <= k < i ==> texts(known@)[k] != name@,
        decreases known.len() - i,
    {
        if known[i] == *name {
            assert(texts(known@)[i as int] == name@);
            return true;
        }
        i += 1;
    }
    false
}

/// Computes [`operand_tokens`] and appends them to `tokens`.
fn parse_params(
    params: &Vec<Token>,
    line: &Vec<char>,
    line_idx: usize,
    identifiers: &Vec<String>,
    tokens: &mut Vec<SemanticToken>,
)
    ensures
        final(tokens).deep_view() == old(tokens).deep_view() + operand_tokens(
            params.deep_view(),
            line@,
            line_idx as int,
            texts(identifiers@),
        ),
{
    let ghost operands = params.deep_view();
    let ghost known = texts(identifiers@);
    let ghost before = tokens.deep_view();
    let mut i: usize = 0;
    assert(operands.take(0) == Seq::<TokenView>::empty());
    assert(tokens.deep_view() =~= before + Seq::<SemanticTokenView>::empty());
    while i < params.len()
        invariant
            i <= params.len(),
            operands == params.deep_view(),
            known == texts(identifiers@),
            tokens.deep_view() == before + operand_tokens(
                operands.take(i as int),
                line@,
                line_idx as int,
                known,
            ),
        decreases params.len() - i,
    {
        assert(operands.take(i + 1).drop_last() == operands.take(i as int));
        assert(operands.take(i + 1).last() == params[i as int]@);
        let ghost so_far = tokens.deep_view();
        match &params[i] {
            Token::Identifier(identifier) => {
                let chars = to_chars(identifier.as_str());
                if spells(&chars, "asmr::io::print") || spells(&chars, "asmr::io::readln") {
                    let made = make_token(identifier, line, line_idx, SemanticTokenType::Function);
                    tokens.push(made);
                    assert(tokens.deep_view() =~= so_far.push(made@));
                } else if is_known(identifier, identifiers) {
                    let made = make_token(identifier, line, line_idx, SemanticTokenType::Variable);
                    tokens.push(made);
                    assert(tokens.deep_view() =~= so_far.push(made@));
                }
            },
            _ => {},
        }
        i += 1;
    }
    assert(operands.take(params.len() as int) == operands);
}

/// Computes [`semantic_tokens`] for a program and the lines that it was
/// parsed from.
pub fn semantic_tokens_of(lines: &Vec<Line>, source: &Vec<String>) -> (tokens: Vec<SemanticToken>)
    requires
        lines.len() == source.len(),
    ensures
        tokens.deep_view() == semantic_tokens(lines.deep_view(), texts(source@)),
{
    let ghost program = lines.deep_view();
    let ghost text = texts(source@);
    let mut identifiers: Vec<String> = Vec::new();
    let mut i: usize = 0;
    assert(program.take(0) == Seq::<LineView>::empty());
    assert(texts(identifiers@) =~= Seq::<Seq<char>>::empty());
    while i < lines.len()
        invariant
            i <= lines.len(),
            program == lines.deep_view(),
            texts(identifiers@) == labels(program.take(i as int)),
        decreases lines.len() - i,
    {
        assert(program.take(i + 1).drop_last() == program.take(i as int));
        assert(program.take(i + 1).last() == lines[i as int]@);
        let ghost before = texts(identifiers@);
        match &lines[i] {
            Line::Label(label) => {
                identifiers.push(label.clone());
                assert(texts(identifiers@) =~= before.push(label@));
            },
            _ => {},
        }
        i += 1;
    }
    assert(program.take(lines.len() as int) == program);

    let mut tokens: Vec<SemanticToken> = Vec::new();
    let mut i: usize = 0;
    assert(tokens.deep_view() =~= Seq::<SemanticTokenView>::empty());
    while i < lines.len()
        invariant
            i <= lines.len(),
            lines.len() == source.len(),
            program == lines.deep_view(),
            text == texts(source@),
            tokens.deep_view() == highlight(program, text, i as int).tokens,
            texts(identifiers@) == highlight(program, text, i as int).known,
        decreases lines.len() - i,
    {
        let line = to_chars(source[i].as_str());
        assert(line@ == text[i as int]);
        assert(program[i as int] == lines[i as int]@);
        let ghost before = tokens.deep_view();
        let ghost known = texts(identifiers@);
        match &lines[i] {
            Line::Instruction { params, .. } => {
                parse_params(params, &line, i, &identifiers, &mut tokens);
            },
            Line::Label(label) => {
                let made = make_token(label, &line, i, SemanticTokenType::Variable);
                tokens.push(made);
                assert(tokens.deep_view() =~= before.push(made@));
                identifiers.push(label.clone());
                assert(texts(identifiers@) =~= known.push(label@));
            },
            Line::Variable { identifier, params, .. } => {
                let made = make_token(identifier, &line, i, SemanticTokenType::Variable);
                tokens.push(made);
                assert(tokens.deep_view() =~= before.push(made@));
                identifiers.push(identifier.clone());
                assert(texts(identifiers@) =~= known.push(identifier@));
                parse_params(params, &line, i, &identifiers, &mut tokens);
            },
            Line::Blank => {},
        }
        i += 1;
    }
    tokens
}

/// Parses an asmr file into the semantic tokens for it; fails where the
/// file does not parse.
pub fn parse_file_tokens(file_contents: &str) -> (result: Result<Vec<SemanticToken>, ParserError>)
    ensures
        match result {
            Ok(tokens) => parse_lines_spec(lines_of(file_contents@)) matches Ok(program)
                && tokens.deep_view() == semantic_tokens(program, lines_of(file_contents@)),
            Err(error) => lines_agree(
                Err(error),
                parse_lines_spec(lines_of(file_contents@)),
            ),
        },
{
    let source = split_lines(file_contents);
    match parse_lines(&source) {
        Ok(lines) => {
            proof {
                lemma_parse_lines_length(texts(source@));
            }
            Ok(semantic_tokens_of(&lines, &source))
        },
        Err(error) => Err(error),
    }
}

} // verus!
