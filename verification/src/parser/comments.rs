//! The law of inline comments: a comment after a line does not change what
//! the line is.

use vstd::prelude::*;

use crate::machine::register::RegisterName;
use crate::parser::instruction::Instruction;
use crate::parser::laws::{
    all_whitespace, join, lemma_blank_lines, lemma_first_word_start, lemma_in_quotes_concat,
    lemma_split_laws, lemma_trim_end, lemma_trim_ignores_blanks_around, lemma_trim_start,
    lemma_trim_start_stops,
};
use crate::parser::line::MemType;
use crate::parser::text::{
    find, first_word, is_whitespace, lemma_find_from_is_least, lemma_word_length_bound, trim,
    trim_start,
};
use crate::parser::token::{classify, is_text_literal};
use crate::parser::{
    code_of, identifier_char, in_quotes, label_line, lemma_split_is_not_empty, line_of,
    operands_of, parse_line_spec, split, statement_of, tokens_of, valid_identifier,
    variable_line,
};

verus! {

/// Text without a quotation mark is outside text literals throughout.
pub proof fn lemma_no_quotes(text: Seq<char>)
    requires
        forall|i: int| 0 <= i < text.len() ==> #[trigger] text[i] != '"',
    ensures
        !in_quotes(text),
    decreases text.len(),
{
    if text.len() > 0 {
        assert(text[text.len() - 1] != '"');
        assert forall|i: int| 0 <= i < text.len() - 1 implies #[trigger] text.drop_last()[i]
            != '"' by {
            assert(text.drop_last()[i] == text[i]);
        }
        lemma_no_quotes(text.drop_last());
    }
}

/// A text is its trimmed form with blanks around it.
pub proof fn lemma_trim_parts(text: Seq<char>)
    ensures
        ({
            let gone = text.len() - trim_start(text).len();
            let kept = trim(text).len() as int;
            &&& 0 <= gone
            &&& gone + kept <= text.len()
            &&& all_whitespace(text.take(gone))
            &&& all_whitespace(text.skip(gone + kept))
            &&& text == text.take(gone) + trim(text) + text.skip(gone + kept)
        }),
{
    lemma_trim_start(text);
    let inner = trim_start(text);
    lemma_trim_end(inner);
    let gone = text.len() - inner.len();
    let kept = trim(text).len() as int;
    assert(inner.skip(kept) == text.skip(gone + kept));
    assert(text =~= text.take(gone) + trim(text) + text.skip(gone + kept));
}

/// Blanks hold no quotation marks: trimming does not change whether a text
/// ends inside a text literal.
pub proof fn lemma_in_quotes_of_trim(text: Seq<char>)
    ensures
        in_quotes(trim(text)) == in_quotes(text),
{
    lemma_trim_parts(text);
    let gone = text.len() - trim_start(text).len();
    let kept = trim(text).len() as int;
    let before = text.take(gone);
    let after = text.skip(gone + kept);
    lemma_blanks_hold_no_quotes(before);
    lemma_blanks_hold_no_quotes(after);
    lemma_in_quotes_concat(before, trim(text));
    lemma_in_quotes_concat(before + trim(text), after);
}

/// Blanks are neither quotation marks nor semicolons.
pub proof fn lemma_blanks_hold_no_quotes(blanks: Seq<char>)
    requires
        all_whitespace(blanks),
    ensures
        !in_quotes(blanks),
        forall|i: int| 0 <= i < blanks.len() ==> #[trigger] blanks[i] != ';',
{
    assert forall|i: int| 0 <= i < blanks.len() implies #[trigger] blanks[i] != '"' by {
        assert(is_whitespace(blanks[i]));
    }
    assert forall|i: int| 0 <= i < blanks.len() implies #[trigger] blanks[i] != ';' by {
        assert(is_whitespace(blanks[i]));
    }
    lemma_no_quotes(blanks);
}

/// A lexeme that is a token ends outside text literals.
pub proof fn lemma_token_closes_its_quotes(lexeme: Seq<char>)
    requires
        classify(lexeme) is Ok,
    ensures
        !in_quotes(lexeme),
{
    if let Some(register) = RegisterName::spec_from_name(lexeme) {
        RegisterName::lemma_from_name_is_name(lexeme);
        register.lemma_name_is_lower_case();
        lemma_no_quotes(lexeme);
    } else if lexeme.contains('"') {
        assert(is_text_literal(lexeme));
        let inner = lexeme.subrange(1, lexeme.len() - 1);
        let mark = seq!['"'];
        assert(lexeme =~= mark + inner + mark);
        assert forall|i: int| 0 <= i < inner.len() implies #[trigger] inner[i] != '"' by {
            if inner[i] == '"' {
                assert(inner.contains('"'));
            }
        }
        lemma_no_quotes(inner);
        assert(mark.drop_last() == Seq::<char>::empty());
        assert(!in_quotes(Seq::<char>::empty()));
        assert(mark.last() == '"');
        assert(in_quotes(mark));
        lemma_in_quotes_concat(mark, inner);
        lemma_in_quotes_concat(mark + inner, mark);
    } else {
        assert forall|i: int| 0 <= i < lexeme.len() implies #[trigger] lexeme[i] != '"' by {
            if lexeme[i] == '"' {
                assert(lexeme.contains('"'));
            }
        }
        lemma_no_quotes(lexeme);
    }
}

/// Where all lexemes are tokens, each of them is.
pub proof fn lemma_tokens_of_each(lexemes: Seq<Seq<char>>, k: int)
    requires
        tokens_of(lexemes) is Ok,
        0 <= k < lexemes.len(),
    ensures
        classify(trim(lexemes[k])) is Ok,
    decreases lexemes.len(),
{
    if k < lexemes.len() - 1 {
        lemma_tokens_of_each(lexemes.drop_last(), k);
    }
}

/// A list of operands ends outside text literals.
pub proof fn lemma_operands_close_their_quotes(text: Seq<char>)
    requires
        operands_of(text) is Ok,
    ensures
        !in_quotes(text),
{
    if text.len() > 0 {
        let lexemes = split(text, ',');
        lemma_split_laws(text, ',');
        let last = lexemes.last();
        lemma_tokens_of_each(lexemes, lexemes.len() - 1);
        lemma_token_closes_its_quotes(trim(last));
        lemma_in_quotes_of_trim(last);
    }
}

/// Once there is a second segment, the first one is settled: more text
/// does not change it.
pub proof fn lemma_first_segment_is_settled(text: Seq<char>, more: Seq<char>, pat: char)
    requires
        split(text, pat).len() > 1,
    ensures
        split(text + more, pat).len() > 1,
        split(text + more, pat)[0] == split(text, pat)[0],
    decreases more.len(),
{
    if more.len() == 0 {
        assert(text + more == text);
    } else {
        lemma_first_segment_is_settled(text, more.drop_last(), pat);
        assert((text + more).drop_last() == text + more.drop_last());
    }
}

/// Text that holds no `pat` stays in the segment that it is appended to.
pub proof fn lemma_split_grows_last(text: Seq<char>, more: Seq<char>, pat: char)
    requires
        forall|i: int| 0 <= i < more.len() ==> #[trigger] more[i] != pat,
    ensures
        split(text + more, pat).len() == split(text, pat).len(),
    decreases more.len(),
{
    if more.len() == 0 {
        assert(text + more == text);
    } else {
        assert forall|i: int| 0 <= i < more.len() - 1 implies #[trigger] more.drop_last()[i]
            != pat by {
            assert(more.drop_last()[i] == more[i]);
        }
        lemma_split_grows_last(text, more.drop_last(), pat);
        lemma_split_is_not_empty(text + more.drop_last(), pat);
        assert((text + more).drop_last() == text + more.drop_last());
        assert((text + more).last() == more[more.len() - 1]);
    }
}

/// A text of one segment is that segment.
pub proof fn lemma_single_segment(text: Seq<char>, pat: char)
    requires
        pat != '"',
        split(text, pat).len() == 1,
    ensures
        split(text, pat)[0] == text,
{
    lemma_split_laws(text, pat);
    assert(join(split(text, pat), pat) == split(text, pat)[0]);
}

/// A comment after code does not change the code, if the code itself holds
/// a comment or ends outside text literals. Blanks may stand between the
/// code and the comment.
pub proof fn lemma_code_ignores_comment(
    code: Seq<char>,
    blanks: Seq<char>,
    comment: Seq<char>,
)
    requires
        all_whitespace(blanks),
        split(code, ';').len() > 1 || !in_quotes(code),
    ensures
        code_of(code + blanks + seq![';'] + comment) == code_of(code),
{
    let whole = code + blanks + seq![';'] + comment;
    if split(code, ';').len() > 1 {
        assert(whole == code + (blanks + seq![';'] + comment));
        lemma_first_segment_is_settled(code, blanks + seq![';'] + comment, ';');
    } else {
        lemma_split_is_not_empty(code, ';');
        lemma_single_segment(code, ';');
        lemma_blanks_hold_no_quotes(blanks);
        lemma_split_grows_last(code, blanks, ';');
        let padded = code + blanks;
        lemma_single_segment(padded, ';');
        lemma_in_quotes_concat(code, blanks);
        let cut = padded.push(';');
        assert(cut.drop_last() == padded);
        assert(split(cut, ';') == split(padded, ';').push(Seq::<char>::empty()));
        assert(split(cut, ';')[0] == padded);
        lemma_first_segment_is_settled(cut, comment, ';');
        assert(whole == cut + comment);
        assert(split(whole, ';')[0] == padded);
        assert(padded == Seq::<char>::empty() + code + blanks);
        lemma_trim_ignores_blanks_around(Seq::empty(), code, blanks);
    }
}

/// Code that is an instruction ends outside text literals.
proof fn lemma_instruction_closes_its_quotes(code: Seq<char>)
    requires
        Instruction::spec_from_name(first_word(code)) is Some,
        statement_of(code) is Ok,
    ensures
        !in_quotes(code),
{
    let opcode = first_word(code);
    let rest = code.skip(opcode.len() as int);
    lemma_word_length_bound(code);
    assert(code =~= opcode + rest);
    Instruction::lemma_from_name_is_name(opcode);
    Instruction::spec_from_name(opcode).unwrap().lemma_name_is_lower_case();
    lemma_no_quotes(opcode);
    lemma_operands_close_their_quotes(trim(rest));
    lemma_in_quotes_of_trim(rest);
    lemma_in_quotes_concat(opcode, rest);
}

/// Code that is a label ends outside text literals.
proof fn lemma_label_closes_its_quotes(code: Seq<char>)
    requires
        code.len() > 0,
        code.last() == ':',
        label_line(code) is Ok,
    ensures
        !in_quotes(code),
{
    let name = code.drop_last();
    lemma_identifier_holds_no_quotes(trim(name));
    lemma_in_quotes_of_trim(name);
    assert(code == name.push(':'));
}

/// Code that is a variable definition ends outside text literals.
proof fn lemma_variable_closes_its_quotes(
    code: Seq<char>,
    at: int,
    keyword: Seq<char>,
    mem_type: MemType,
)
    requires
        keyword == "db"@ || keyword == "resb"@,
        find(code, keyword) == Some(at),
        variable_line(code, at, keyword, mem_type) is Ok,
    ensures
        !in_quotes(code),
{
    reveal_strlit("db");
    reveal_strlit("resb");
    lemma_find_from_is_least(code, keyword, 0);
    let before = code.take(at);
    let after = code.skip(at + keyword.len());
    assert(code =~= before + keyword + after);
    lemma_identifier_holds_no_quotes(trim(before));
    lemma_in_quotes_of_trim(before);
    lemma_operands_close_their_quotes(trim(after));
    lemma_in_quotes_of_trim(after);
    assert forall|i: int| 0 <= i < keyword.len() implies #[trigger] keyword[i] != '"' by {}
    lemma_no_quotes(keyword);
    lemma_in_quotes_concat(before, keyword);
    lemma_in_quotes_concat(before + keyword, after);
}

/// Code that is something ends outside text literals: an instruction, a
/// label and a variable definition each close the quotation marks that
/// they open.
pub proof fn lemma_statement_closes_its_quotes(code: Seq<char>)
    requires
        statement_of(code) is Ok,
    ensures
        !in_quotes(code),
{
    if Instruction::spec_from_name(first_word(code)) is Some {
        lemma_instruction_closes_its_quotes(code);
    } else if code.len() > 0 && code.last() == ':' {
        lemma_label_closes_its_quotes(code);
    } else if let Some(at) = find(code, "db"@) {
        lemma_variable_closes_its_quotes(code, at, "db"@, MemType::Db);
    } else if let Some(at) = find(code, "resb"@) {
        lemma_variable_closes_its_quotes(code, at, "resb"@, MemType::Resb);
    }
}

/// An identifier holds no quotation mark.
proof fn lemma_identifier_holds_no_quotes(identifier: Seq<char>)
    requires
        valid_identifier(identifier),
    ensures
        !in_quotes(identifier),
{
    assert forall|i: int| 0 <= i < identifier.len() implies #[trigger] identifier[i] != '"' by {
        assert(identifier_char(identifier[i]));
    }
    lemma_no_quotes(identifier);
}

/// The blanks that stand between a line and what is appended to it.
pub open spec fn blanks_after(line: Seq<char>) -> Seq<char> {
    trim_start(line).skip(trim(line).len() as int)
}

/// What is left of a comment once the line that it ends is trimmed.
pub open spec fn comment_kept(line: Seq<char>, comment: Seq<char>) -> Seq<char> {
    trim(line + seq![';'] + comment).skip(trim_start(line).len() as int + 1)
}

/// How a line with a comment after it is laid out once it is trimmed: the
/// trimmed line, the blanks that ended it, the `;`, and the comment without
/// the blanks that end it.
proof fn lemma_layout(line: Seq<char>, comment: Seq<char>)
    requires
        trim_start(line).len() > 0,
    ensures
        trim(line).len() > 0,
        !is_whitespace(trim(line)[0]),
        all_whitespace(blanks_after(line)),
        trim_start(line) == trim(line) + blanks_after(line),
        trim(line + seq![';'] + comment) == trim(line) + blanks_after(line) + seq![';']
            + comment_kept(line, comment),
{
    let longer = line + seq![';'] + comment;
    let tail = seq![';'] + comment;
    assert(longer == line + tail);
    assert(tail[0] == ';');
    lemma_trim_start(line);
    let started = trim_start(line);
    let gone = line.len() - started.len();
    let text = trim(line);
    assert(longer[gone] == started[0]);
    assert(longer.take(gone) == line.take(gone));
    lemma_trim_start_stops(longer, gone);
    assert(longer.skip(gone) == started + tail);
    let longer_started = started + tail;
    lemma_trim_end(started);
    lemma_trim_end(longer_started);
    let kept = text.len() as int;
    let longer_kept = trim(longer).len() as int;
    assert(kept >= 1) by {
        if kept == 0 {
            assert(started.skip(0) == started);
            assert(is_whitespace(started.skip(0)[0]));
        }
    }
    assert(longer_kept > started.len()) by {
        if longer_kept <= started.len() {
            assert(longer_started.skip(longer_kept)[started.len() - longer_kept]
                == longer_started[started.len() as int]);
            assert(is_whitespace(longer_started.skip(longer_kept)[started.len() - longer_kept]));
        }
    }
    assert(started == text + blanks_after(line));
    assert(text[0] == started[0]);
    assert(trim(longer) =~= text + blanks_after(line) + seq![';'] + comment_kept(line, comment));
}

/// A comment after a trimmed line that is something does not change what
/// it is.
proof fn lemma_comment_after_text(text: Seq<char>, blanks: Seq<char>, rest: Seq<char>)
    requires
        text.len() > 0,
        !is_whitespace(text[0]),
        all_whitespace(blanks),
        line_of(text) is Ok,
    ensures
        line_of(text + blanks + seq![';'] + rest) == line_of(text),
{
    let longer = text + blanks + seq![';'] + rest;
    assert(longer[0] == text[0]);
    lemma_first_word_start(text);
    lemma_first_word_start(longer);
    if text[0] != ';' {
        lemma_split_is_not_empty(text, ';');
        if split(text, ';').len() == 1 {
            lemma_single_segment(text, ';');
            lemma_statement_closes_its_quotes(code_of(text));
            lemma_in_quotes_of_trim(text);
        }
        lemma_code_ignores_comment(text, blanks, rest);
    }
}

/// A comment after a line does not change what the line is, for every line
/// that is something: the `;` may follow the line directly or after
/// blanks, and the comment may hold anything.
pub proof fn lemma_comment_after_a_line(line: Seq<char>, comment: Seq<char>)
    requires
        parse_line_spec(line) is Ok,
    ensures
        parse_line_spec(line + seq![';'] + comment) == parse_line_spec(line),
{
    let longer = line + seq![';'] + comment;
    lemma_trim_start(line);
    let started = trim_start(line);
    if started.len() == 0 {
        // Nothing but blanks before the comment.
        let gone = line.len() as int;
        assert(line.take(gone) == line);
        assert(longer.take(gone) == line);
        assert(longer[gone] == ';');
        lemma_trim_start_stops(longer, gone);
        lemma_blank_lines(line);
        lemma_blank_lines(longer);
    } else {
        lemma_layout(line, comment);
        lemma_comment_after_text(trim(line), blanks_after(line), comment_kept(line, comment));
    }
}

} // verus!
