//! What an editor needs to know of a source file: what to offer as a
//! completion, which symbols the file declares and where, and which
//! identifiers to highlight. Nothing here executes a program.

pub mod completion_provider;
pub mod document_symbol_provider;
pub mod semantic_highlighter;

use vstd::prelude::*;

use crate::parser::text::{to_chars, to_text};
use crate::parser::texts;

verus! {

/// The lines of `text`: what stands between its line feeds. A text has one
/// line more than it has line feeds.
pub open spec fn lines_of(text: Seq<char>) -> Seq<Seq<char>>
    decreases text.len(),
{
    if text.len() == 0 {
        seq![Seq::empty()]
    } else {
        let before = lines_of(text.drop_last());
        if text.last() == '\n' {
            before.push(Seq::empty())
        } else {
            before.update(before.len() - 1, before.last().push(text.last()))
        }
    }
}

/// Computes [`lines_of`].
pub fn split_lines(text: &str) -> (lines: Vec<String>)
    ensures
        texts(lines@) == lines_of(text@),
{
    let chars = to_chars(text);
    let mut lines: Vec<String> = Vec::new();
    let mut line: Vec<char> = Vec::new();
    let mut i: usize = 0;
    assert(chars@.take(0) == Seq::<char>::empty());
    assert(texts(lines@).push(line@) == seq![Seq::<char>::empty()]);
    while i < chars.len()
        invariant
            i <= chars.len(),
            texts(lines@).push(line@) == lines_of(chars@.take(i as int)),
        decreases chars.len() - i,
    {
        let c = chars[i];
        let ghost before = lines_of(chars@.take(i as int));
        assert(chars@.take(i + 1).drop_last() == chars@.take(i as int));
        assert(chars@.take(i + 1).last() == c);
        assert(before.len() == lines.len() + 1);
        assert(before.last() == line@);
        if c == '\n' {
            let ghost full = texts(lines@);
            lines.push(to_text(&line));
            assert(texts(lines@) == full.push(line@));
            line = Vec::new();
        } else {
            line.push(c);
            assert(texts(lines@).push(line@) == before.update(
                before.len() - 1,
                before.last().push(c),
            ));
        }
        i += 1;
    }
    assert(chars@.take(chars.len() as int) == chars@);
    let ghost full = texts(lines@);
    lines.push(to_text(&line));
    assert(texts(lines@) == full.push(line@));
    lines
}

} // verus!
