//! The line parser: classifies each line of source text.
//!
//! A line is blank, a label, an instruction with its operands, or a
//! variable definition. Text between quotation marks is never taken apart:
//! neither a `;` nor a `,` inside it ends anything.

pub mod comments;
pub mod error;
pub mod instruction;
pub mod laws;
pub mod line;
pub mod text;
pub mod token;

use vstd::prelude::*;

use crate::parser::error::ParserError;
use crate::parser::instruction::Instruction;
use crate::parser::line::{Line, LineView, MemType};
use crate::parser::text::{
    find, first_word, lemma_find_from_is_least, measure_word, search, slice, to_chars, to_text,
    trim, trimmed,
};
use crate::parser::token::{classify, Token, TokenView};

verus! {

// Identifiers

/// Whether an identifier may start with `c`.
pub open spec fn identifier_start(c: char) -> bool {
    ('a' <= c <= 'z') || ('A' <= c <= 'Z') || c == '_' || c == '.'
}

/// Whether an identifier may hold `c`.
pub open spec fn identifier_char(c: char) -> bool {
    ('a' <= c <= 'z') || ('A' <= c <= 'Z') || ('0' <= c <= '9') || c == '_' || c == '.' || c == ':'
}

/// Whether `text` is an identifier: it starts with an ASCII letter, `_` or
/// `.`, and is made of ASCII letters and digits, `_`, `.` and `:`. The
/// empty text is one.
pub open spec fn valid_identifier(text: Seq<char>) -> bool {
    &&& text.len() > 0 ==> identifier_start(text[0])
    &&& forall|i: int| 0 <= i < text.len() ==> identifier_char(#[trigger] text[i])
}

/// Computes [`valid_identifier`].
pub fn is_identifier(chars: &Vec<char>) -> (valid: bool)
    ensures
        valid == valid_identifier(chars@),
{
    if chars.len() > 0 {
        let c = chars[0];
        if !(('a' <= c && c <= 'z') || ('A' <= c && c <= 'Z') || c == '_' || c == '.') {
            return false;
        }
    }
    let mut i: usize = 0;
    while i < chars.len()
        invariant
            i <= chars.len(),
            forall|k: int| 0 <= k < i ==> identifier_char(#[trigger] chars@[k]),
        decreases chars.len() - i,
    {
        let c = chars[i];
        if !(('a' <= c && c <= 'z') || ('A' <= c && c <= 'Z') || ('0' <= c && c <= '9') || c == '_'
            || c == '.' || c == ':') {
            return false;
        }
        i += 1;
    }
    true
}

/// Checks whether a given string is a valid asmr identifier.
pub fn is_valid_identifier(s: &str) -> (valid: bool)
    ensures
        valid == valid_identifier(s@),
{
    let chars = to_chars(s);
    is_identifier(&chars)
}

// Splitting outside quotation marks

/// Whether a reader that has read `text` is inside a text literal: whether
/// `text` holds an odd number of quotation marks.
pub open spec fn in_quotes(text: Seq<char>) -> bool
    decreases text.len(),
{
    if text.len() == 0 {
        false
    } else {
        in_quotes(text.drop_last()) != (text.last() == '"')
    }
}

/// The segments of `text` between the occurrences of `pat` that stand
/// outside text literals. The quotation marks stay in the segments, the
/// occurrences of `pat` that split do not.
pub open spec fn split(text: Seq<char>, pat: char) -> Seq<Seq<char>>
    decreases text.len(),
{
    if text.len() == 0 {
        seq![Seq::empty()]
    } else {
        let before = split(text.drop_last(), pat);
        if text.last() == pat && !in_quotes(text.drop_last()) {
            before.push(Seq::empty())
        } else {
            before.update(before.len() - 1, before.last().push(text.last()))
        }
    }
}

/// There is always a segment.
pub proof fn lemma_split_is_not_empty(text: Seq<char>, pat: char)
    ensures
        split(text, pat).len() >= 1,
    decreases text.len(),
{
    if text.len() > 0 {
        lemma_split_is_not_empty(text.drop_last(), pat);
    }
}

/// The characters of each segment.
pub open spec fn views(segments: Seq<Vec<char>>) -> Seq<Seq<char>> {
    segments.map_values(|segment: Vec<char>| segment@)
}

/// Computes [`split`].
pub fn split_chars(chars: &Vec<char>, pat: char) -> (segments: Vec<Vec<char>>)
    requires
        pat != '"',
    ensures
        views(segments@) == split(chars@, pat),
        segments.len() >= 1,
{
    let mut segments: Vec<Vec<char>> = Vec::new();
    let mut is_quoted = false;
    let mut segment: Vec<char> = Vec::new();
    let mut i: usize = 0;
    assert(chars@.take(0) == Seq::<char>::empty());
    assert(views(segments@).push(segment@) == seq![Seq::<char>::empty()]);
    while i < chars.len()
        invariant
            i <= chars.len(),
            pat != '"',
            is_quoted == in_quotes(chars@.take(i as int)),
            views(segments@).push(segment@) == split(chars@.take(i as int), pat),
        decreases chars.len() - i,
    {
        let c = chars[i];
        let ghost seen = chars@.take(i as int);
        let ghost before = split(seen, pat);
        assert(chars@.take(i + 1).drop_last() == seen);
        assert(chars@.take(i + 1).last() == c);
        assert(before.len() == segments.len() + 1);
        assert(before.last() == segment@);
        if c == pat && !is_quoted {
            let ghost full = views(segments@);
            segments.push(segment);
            assert(views(segments@) == full.push(segment@));
            segment = Vec::new();
        } else {
            if c == '"' {
                is_quoted = !is_quoted;
            }
            segment.push(c);
            assert(views(segments@).push(segment@) == before.update(
                before.len() - 1,
                before.last().push(c),
            ));
        }
        i += 1;
    }
    assert(chars@.take(chars.len() as int) == chars@);
    let ghost full = views(segments@);
    segments.push(segment);
    assert(views(segments@) == full.push(segment@));
    segments
}

/// Splits a string by a pattern provided the pattern is not inside an asmr
/// string literal. Quotation marks are kept, the matched pattern is not.
pub fn string_literal_aware_split(s: &str, pat: char) -> (segments: Vec<String>)
    requires
        pat != '"',
    ensures
        segments.deep_view() == split(s@, pat),
{
    let chars = to_chars(s);
    let parts = split_chars(&chars, pat);
    let mut segments: Vec<String> = Vec::new();
    let mut i: usize = 0;
    while i < parts.len()
        invariant
            i <= parts.len(),
            segments.len() == i,
            forall|k: int| 0 <= k < i ==> (#[trigger] segments@[k])@ == parts@[k]@,
        decreases parts.len() - i,
    {
        segments.push(to_text(&parts[i]));
        i += 1;
    }
    assert(segments.deep_view() =~= views(parts@));
    segments
}

// Operands

/// What the lexemes are, each trimmed and classified; the first one that is
/// nothing fails the whole.
pub open spec fn tokens_of(lexemes: Seq<Seq<char>>) -> Result<Seq<TokenView>, Seq<char>>
    decreases lexemes.len(),
{
    if lexemes.len() == 0 {
        Ok(Seq::empty())
    } else {
        match tokens_of(lexemes.drop_last()) {
            Err(cause) => Err(cause),
            Ok(tokens) => match classify(trim(lexemes.last())) {
                Ok(token) => Ok(tokens.push(token)),
                Err(cause) => Err(cause),
            },
        }
    }
}

/// The operands that `text` lists: none where it is empty, and else what
/// its segments between commas are.
pub open spec fn operands_of(text: Seq<char>) -> Result<Seq<TokenView>, Seq<char>> {
    if text.len() == 0 {
        Ok(Seq::empty())
    } else {
        tokens_of(split(text, ','))
    }
}

/// Computes [`operands_of`].
fn read_operands(text: &Vec<char>) -> (result: Result<Vec<Token>, String>)
    ensures
        match result {
            Ok(tokens) => operands_of(text@) == Ok::<Seq<TokenView>, Seq<char>>(
                tokens.deep_view(),
            ),
            Err(cause) => operands_of(text@) == Err::<Seq<TokenView>, Seq<char>>(cause@),
        },
{
    let mut tokens: Vec<Token> = Vec::new();
    if text.len() == 0 {
        assert(tokens.deep_view() =~= Seq::<TokenView>::empty());
        return Ok(tokens);
    }
    let lexemes = split_chars(text, ',');
    let ghost all = views(lexemes@);
    let mut i: usize = 0;
    assert(all.take(0) == Seq::<Seq<char>>::empty());
    assert(tokens.deep_view() =~= Seq::<TokenView>::empty());
    while i < lexemes.len()
        invariant
            i <= lexemes.len(),
            text.len() > 0,
            all == views(lexemes@),
            all == split(text@, ','),
            tokens_of(all.take(i as int)) == Ok::<Seq<TokenView>, Seq<char>>(tokens.deep_view()),
        decreases lexemes.len() - i,
    {
        assert(all.take(i + 1).drop_last() == all.take(i as int));
        assert(all.take(i + 1).last() == lexemes@[i as int]@);
        let lexeme = trimmed(&lexemes[i]);
        match Token::from_chars(&lexeme) {
            Ok(token) => {
                let ghost before = tokens.deep_view();
                tokens.push(token);
                assert(tokens.deep_view() =~= before.push(token@));
            },
            Err(cause) => {
                proof {
                    assert(tokens_of(all.take(i + 1)) == Err::<Seq<TokenView>, Seq<char>>(cause@));
                    lemma_tokens_of_fails(all, i + 1);
                }
                return Err(cause);
            },
        }
        i += 1;
    }
    assert(all.take(lexemes.len() as int) == all);
    Ok(tokens)
}

/// Once the first lexemes have failed, more lexemes fail the same way.
proof fn lemma_tokens_of_fails(lexemes: Seq<Seq<char>>, k: int)
    requires
        0 <= k <= lexemes.len(),
        tokens_of(lexemes.take(k)) is Err,
    ensures
        tokens_of(lexemes) == tokens_of(lexemes.take(k)),
    decreases lexemes.len() - k,
{
    if k < lexemes.len() {
        assert(lexemes.take(k + 1).drop_last() == lexemes.take(k));
        lemma_tokens_of_fails(lexemes, k + 1);
    } else {
        assert(lexemes.take(k) == lexemes);
    }
}

// Lines

/// The message for a label that is no identifier.
pub open spec fn invalid_label(label: Seq<char>) -> Seq<char> {
    "Invalid label `"@ + label
        + "`. Identifiers must be strictly [a-z, A-Z, 0-9, _, ., :] and must start with [a-z, A-Z. _, .]."@
}

/// The message for a variable whose name is no identifier.
pub open spec fn invalid_identifier(identifier: Seq<char>) -> Seq<char> {
    "Invalid identifier `"@ + identifier
        + "`. Identifiers must be strictly [a-z, A-Z, 0-9, _, ., :] and must start with [a-z, A-Z. _, .]."@
}

/// The message for a definition without a name or without operands.
pub open spec fn invalid_definition() -> Seq<char> {
    "Invalid memory definition syntax."@
}

/// The message for a line that is nothing.
pub open spec fn unparsable() -> Seq<char> {
    "Could not parse the line. There is likely an uncaught syntax error."@
}

/// `text` up to its first `;` outside text literals, trimmed: the line
/// without its comment.
pub open spec fn code_of(text: Seq<char>) -> Seq<char> {
    trim(split(text, ';')[0])
}

/// An instruction line: the operands are what follows the opcode in the
/// code.
pub open spec fn instruction_line(instruction: Instruction, rest: Seq<char>) -> Result<
    LineView,
    Seq<char>,
> {
    match operands_of(trim(rest)) {
        Ok(params) => Ok(LineView::Instruction { instruction, params }),
        Err(cause) => Err(cause),
    }
}

/// A label line: `code` ends with a colon, and what stands before it is the
/// name.
pub open spec fn label_line(code: Seq<char>) -> Result<LineView, Seq<char>> {
    let label = trim(code.drop_last());
    if valid_identifier(label) {
        Ok(LineView::Label(label))
    } else {
        Err(invalid_label(label))
    }
}

/// A variable definition: the identifier stands before the keyword at
/// `at`, the operands after it, and neither is empty.
pub open spec fn variable_line(code: Seq<char>, at: int, keyword: Seq<char>, mem_type: MemType)
    -> Result<LineView, Seq<char>> {
    let identifier = trim(code.take(at));
    let operands = trim(code.skip(at + keyword.len()));
    if identifier.len() == 0 || operands.len() == 0 {
        Err(invalid_definition())
    } else if !valid_identifier(identifier) {
        Err(invalid_identifier(identifier))
    } else {
        match operands_of(operands) {
            Ok(params) => Ok(LineView::Variable { identifier, mem_type, params }),
            Err(cause) => Err(cause),
        }
    }
}

/// What code is, once the comment that followed it is gone, or why it is
/// nothing.
///
/// The first word decides: where it is an opcode the code is an
/// instruction, and what follows the word are its operands. Else the code
/// is a label where it ends with `:`, and a variable definition where it
/// holds `db` or, failing that, `resb`, split at the first place where that
/// keyword stands.
pub open spec fn statement_of(code: Seq<char>) -> Result<LineView, Seq<char>> {
    let opcode = first_word(code);
    if let Some(instruction) = Instruction::spec_from_name(opcode) {
        instruction_line(instruction, code.skip(opcode.len() as int))
    } else if code.len() > 0 && code.last() == ':' {
        label_line(code)
    } else if let Some(at) = find(code, "db"@) {
        variable_line(code, at, "db"@, MemType::Db)
    } else if let Some(at) = find(code, "resb"@) {
        variable_line(code, at, "resb"@, MemType::Resb)
    } else {
        Err(unparsable())
    }
}

/// What a trimmed line is, or why it is nothing.
///
/// A line that is empty, or that starts with `;`, is blank. Any other line
/// is what its code is: the line up to its comment.
pub open spec fn line_of(text: Seq<char>) -> Result<LineView, Seq<char>> {
    let first = first_word(text);
    if first.len() == 0 || first[0] == ';' {
        Ok(LineView::Blank)
    } else {
        statement_of(code_of(text))
    }
}

/// What a line of source text is, or why it is nothing: what it is once the
/// blanks around it are gone.
pub open spec fn parse_line_spec(line: Seq<char>) -> Result<LineView, Seq<char>> {
    line_of(trim(line))
}

/// Whether what a function returned is what `expected` says, for the line
/// of the given number.
pub open spec fn line_agrees(
    result: Result<Line, ParserError>,
    expected: Result<LineView, Seq<char>>,
    line_number: i32,
) -> bool {
    match result {
        Ok(line) => expected == Ok::<LineView, Seq<char>>(line@),
        Err(error) => expected == Err::<LineView, Seq<char>>(error.cause@) && error.line_number
            == line_number,
    }
}

/// `text` up to its first `;` outside text literals, trimmed.
fn strip_comment(text: &Vec<char>) -> (code: Vec<char>)
    ensures
        code@ == code_of(text@),
{
    let segments = split_chars(text, ';');
    assert(views(segments@)[0] == segments@[0]@);
    trimmed(&segments[0])
}

fn quoting(before: &str, name: &Vec<char>, after: &str) -> (cause: String)
    ensures
        cause@ == before@ + name@ + after@,
{
    let mut cause = String::from_str(before);
    cause.append(to_text(name).as_str());
    cause.append(after);
    cause
}

fn read_variable(
    code: &Vec<char>,
    at: usize,
    keyword: &Vec<char>,
    mem_type: MemType,
    line_number: i32,
) -> (result: Result<Line, ParserError>)
    requires
        at + keyword.len() <= code.len(),
    ensures
        line_agrees(result, variable_line(code@, at as int, keyword@, mem_type), line_number),
{
    let before = slice(code, 0, at);
    let after = slice(code, at + keyword.len(), code.len());
    let identifier = trimmed(&before);
    let operands = trimmed(&after);
    if identifier.len() == 0 || operands.len() == 0 {
        return Err(
            ParserError {
                line_number,
                cause: String::from_str("Invalid memory definition syntax."),
            },
        );
    }
    if !is_identifier(&identifier) {
        return Err(
            ParserError {
                line_number,
                cause: quoting(
                    "Invalid identifier `",
                    &identifier,
                    "`. Identifiers must be strictly [a-z, A-Z, 0-9, _, ., :] and must start with [a-z, A-Z. _, .].",
                ),
            },
        );
    }
    match read_operands(&operands) {
        Ok(params) => Ok(Line::Variable { identifier: to_text(&identifier), mem_type, params }),
        Err(cause) => Err(ParserError { line_number, cause }),
    }
}

/// Parses a line of asmr code into its corresponding representation as a
/// [`Line`]. An error carries `line_number`.
pub fn parse_line(line: &str, line_number: i32) -> (result: Result<Line, ParserError>)
    ensures
        line_agrees(result, parse_line_spec(line@), line_number),
{
    let chars = to_chars(line);
    let text = trimmed(&chars);
    let length = measure_word(&text);
    let first = slice(&text, 0, length);
    if length == 0 || first[0] == ';' {
        return Ok(Line::Blank);
    }
    let code = strip_comment(&text);
    let width = measure_word(&code);
    let opcode = slice(&code, 0, width);
    if let Some(instruction) = Instruction::from_chars(&opcode) {
        let rest = slice(&code, width, code.len());
        let operands = trimmed(&rest);
        return match read_operands(&operands) {
            Ok(params) => Ok(Line::Instruction { instruction, params }),
            Err(cause) => Err(ParserError { line_number, cause }),
        };
    }
    if code.len() > 0 && code[code.len() - 1] == ':' {
        let name = slice(&code, 0, code.len() - 1);
        let label = trimmed(&name);
        if !is_identifier(&label) {
            return Err(
                ParserError {
                    line_number,
                    cause: quoting(
                        "Invalid label `",
                        &label,
                        "`. Identifiers must be strictly [a-z, A-Z, 0-9, _, ., :] and must start with [a-z, A-Z. _, .].",
                    ),
                },
            );
        }
        return Ok(Line::Label(to_text(&label)));
    }
    let db = to_chars("db");
    if let Some(at) = search(&code, &db) {
        proof {
            lemma_find_from_is_least(code@, db@, 0);
        }
        return read_variable(&code, at, &db, MemType::Db, line_number);
    }
    let resb = to_chars("resb");
    if let Some(at) = search(&code, &resb) {
        proof {
            lemma_find_from_is_least(code@, resb@, 0);
        }
        return read_variable(&code, at, &resb, MemType::Resb, line_number);
    }
    Err(
        ParserError {
            line_number,
            cause: String::from_str(
                "Could not parse the line. There is likely an uncaught syntax error.",
            ),
        },
    )
}

/// What the lines of a program are: each line in turn, up to the first one
/// that is nothing, which fails the whole with its number, counted from 1.
pub open spec fn parse_lines_spec(lines: Seq<Seq<char>>) -> Result<
    Seq<LineView>,
    (int, Seq<char>),
>
    decreases lines.len(),
{
    if lines.len() == 0 {
        Ok(Seq::empty())
    } else {
        match parse_lines_spec(lines.drop_last()) {
            Err(failure) => Err(failure),
            Ok(parsed) => match parse_line_spec(lines.last()) {
                Ok(line) => Ok(parsed.push(line)),
                Err(cause) => Err((lines.len() as int, cause)),
            },
        }
    }
}

/// Once the first lines have failed, more lines fail the same way.
proof fn lemma_parse_lines_fails(lines: Seq<Seq<char>>, k: int)
    requires
        0 <= k <= lines.len(),
        parse_lines_spec(lines.take(k)) is Err,
    ensures
        parse_lines_spec(lines) == parse_lines_spec(lines.take(k)),
    decreases lines.len() - k,
{
    if k < lines.len() {
        assert(lines.take(k + 1).drop_last() == lines.take(k));
        lemma_parse_lines_fails(lines, k + 1);
    } else {
        assert(lines.take(k) == lines);
    }
}

/// A program has as many lines as its source.
pub proof fn lemma_parse_lines_length(lines: Seq<Seq<char>>)
    ensures
        parse_lines_spec(lines) matches Ok(parsed) ==> parsed.len() == lines.len(),
    decreases lines.len(),
{
    if lines.len() > 0 {
        lemma_parse_lines_length(lines.drop_last());
    }
}

/// Whether what a function returned is what `expected` says. The number of
/// the failing line is kept in 32 bits.
pub open spec fn lines_agree(
    result: Result<Vec<Line>, ParserError>,
    expected: Result<Seq<LineView>, (int, Seq<char>)>,
) -> bool {
    match result {
        Ok(parsed) => expected == Ok::<Seq<LineView>, (int, Seq<char>)>(parsed.deep_view()),
        Err(error) => expected is Err && expected->Err_0.1 == error.cause@ && error.line_number
            == expected->Err_0.0 as i32,
    }
}

/// The characters of each line.
pub open spec fn texts(lines: Seq<String>) -> Seq<Seq<char>> {
    lines.map_values(|line: String| line@)
}

/// Parses lines of asmr code into their corresponding representation as
/// [`Line`]s. The first line that is nothing fails the whole, with its
/// number, counted from 1.
pub fn parse_lines(lines: &Vec<String>) -> (result: Result<Vec<Line>, ParserError>)
    ensures
        lines_agree(result, parse_lines_spec(texts(lines@))),
{
    let ghost all = texts(lines@);
    let mut parsed: Vec<Line> = Vec::new();
    let mut line_number: i32 = 0;
    let mut i: usize = 0;
    assert(all.take(0) == Seq::<Seq<char>>::empty());
    assert(parsed.deep_view() =~= Seq::<LineView>::empty());
    while i < lines.len()
        invariant
            i <= lines.len(),
            all == texts(lines@),
            line_number == i as i32,
            parse_lines_spec(all.take(i as int)) == Ok::<Seq<LineView>, (int, Seq<char>)>(
                parsed.deep_view(),
            ),
        decreases lines.len() - i,
    {
        assert(all.take(i + 1).drop_last() == all.take(i as int));
        assert(all.take(i + 1).last() == lines@[i as int]@);
        line_number = line_number.wrapping_add(1);
        assert(line_number == (i + 1) as i32) by {
            lemma_count_in_32_bits(i);
        }
        match parse_line(lines[i].as_str(), line_number) {
            Ok(line) => {
                let ghost before = parsed.deep_view();
                parsed.push(line);
                assert(parsed.deep_view() =~= before.push(line@));
            },
            Err(error) => {
                proof {
                    assert(parse_lines_spec(all.take(i + 1)) == Err::<
                        Seq<LineView>,
                        (int, Seq<char>),
                    >((i + 1, error.cause@)));
                    lemma_parse_lines_fails(all, i + 1);
                }
                return Err(error);
            },
        }
        i += 1;
    }
    assert(all.take(lines.len() as int) == all);
    Ok(parsed)
}

/// Counting on by one in 32 bits, with wrapping, keeps the low 32 bits of
/// the count.
proof fn lemma_count_in_32_bits(i: usize)
    ensures
        (i as i32).wrapping_add(1) == (i + 1) as i32,
{
    let low = i as i32;
    let next = (i + 1) as i32;
    assert(low.wrapping_add(1) == next) by (bit_vector)
        requires
            low == i as i32,
            next == (i + 1) as i32,
    ;
}

} // verus!
