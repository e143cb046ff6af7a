//! Laws of the line parser, proved from the functions that state what it
//! does.

use vstd::prelude::*;

use crate::machine::register::RegisterName;
use crate::parser::line::LineView;
use crate::parser::text::{
    all_digits, decimal, decimal_digits, digit_char, digit_value, digits_value, first_word,
    is_whitespace, lemma_word_length_bound, parse_integer, trim, trim_end, trim_start,
    word_length,
};
use crate::parser::token::{classify, TokenView};
use crate::parser::{in_quotes, lemma_split_is_not_empty, parse_line_spec, split};

verus! {

// Blanks

/// Whether `text` is made of blanks only.
pub open spec fn all_whitespace(text: Seq<char>) -> bool {
    forall|i: int| 0 <= i < text.len() ==> is_whitespace(#[trigger] text[i])
}

/// What is left of `text` without its leading blanks is the end of `text`,
/// starts with no blank, and what went is blank.
pub proof fn lemma_trim_start(text: Seq<char>)
    ensures
        trim_start(text).len() <= text.len(),
        trim_start(text) == text.skip(text.len() - trim_start(text).len()),
        all_whitespace(text.take(text.len() - trim_start(text).len())),
        trim_start(text).len() > 0 ==> !is_whitespace(trim_start(text)[0]),
    decreases text.len(),
{
    if text.len() > 0 && is_whitespace(text[0]) {
        let rest = text.drop_first();
        lemma_trim_start(rest);
        let gone = text.len() - trim_start(text).len();
        assert(rest.skip(gone - 1) == text.skip(gone));
        assert forall|i: int| 0 <= i < gone implies is_whitespace(#[trigger] text.take(gone)[i]) by {
            if i > 0 {
                assert(text.take(gone)[i] == rest.take(gone - 1)[i - 1]);
            }
        }
    } else {
        assert(text.skip(0) == text);
    }
}

/// What is left of `text` without its trailing blanks is the start of
/// `text`, ends with no blank, and what went is blank.
pub proof fn lemma_trim_end(text: Seq<char>)
    ensures
        trim_end(text).len() <= text.len(),
        trim_end(text) == text.take(trim_end(text).len() as int),
        all_whitespace(text.skip(trim_end(text).len() as int)),
        trim_end(text).len() > 0 ==> !is_whitespace(trim_end(text).last()),
    decreases text.len(),
{
    if text.len() > 0 && is_whitespace(text.last()) {
        let rest = text.drop_last();
        lemma_trim_end(rest);
        let kept = trim_end(text).len() as int;
        assert(rest.take(kept) == text.take(kept));
        assert forall|i: int| 0 <= i < text.len() - kept implies is_whitespace(
            #[trigger] text.skip(kept)[i],
        ) by {
            if i < text.len() - kept - 1 {
                assert(text.skip(kept)[i] == rest.skip(kept)[i]);
            }
        }
    } else {
        assert(text.take(text.len() as int) == text);
    }
}

/// Trimming the end stops at the last character that is no blank.
pub proof fn lemma_trim_end_stops(text: Seq<char>, kept: int)
    requires
        0 < kept <= text.len(),
        !is_whitespace(text[kept - 1]),
        all_whitespace(text.skip(kept)),
    ensures
        trim_end(text) == text.take(kept),
    decreases text.len(),
{
    if kept == text.len() {
        assert(text.take(kept) == text);
    } else {
        assert(text.skip(kept)[text.len() - kept - 1] == text.last());
        let rest = text.drop_last();
        assert forall|i: int| 0 <= i < rest.len() - kept implies is_whitespace(
            #[trigger] rest.skip(kept)[i],
        ) by {
            assert(rest.skip(kept)[i] == text.skip(kept)[i]);
        }
        lemma_trim_end_stops(rest, kept);
        assert(rest.take(kept) == text.take(kept));
    }
}

/// Trimming the start stops at the first character that is no blank.
pub proof fn lemma_trim_start_stops(text: Seq<char>, gone: int)
    requires
        0 <= gone < text.len(),
        !is_whitespace(text[gone]),
        all_whitespace(text.take(gone)),
    ensures
        trim_start(text) == text.skip(gone),
    decreases gone,
{
    if gone == 0 {
        assert(text.skip(0) == text);
    } else {
        assert(text.take(gone)[0] == text[0]);
        let rest = text.drop_first();
        assert forall|i: int| 0 <= i < gone - 1 implies is_whitespace(
            #[trigger] rest.take(gone - 1)[i],
        ) by {
            assert(rest.take(gone - 1)[i] == text.take(gone)[i + 1]);
        }
        lemma_trim_start_stops(rest, gone - 1);
        assert(rest.skip(gone - 1) == text.skip(gone));
    }
}

/// A text of blanks trims to nothing.
pub proof fn lemma_trim_of_blanks(text: Seq<char>)
    requires
        all_whitespace(text),
    ensures
        trim_start(text) == Seq::<char>::empty(),
        trim_end(text) == Seq::<char>::empty(),
        trim(text) == Seq::<char>::empty(),
    decreases text.len(),
{
    if text.len() > 0 {
        assert(is_whitespace(text[0]));
        assert(is_whitespace(text[text.len() - 1]));
        assert forall|i: int| 0 <= i < text.len() - 1 implies is_whitespace(
            #[trigger] text.drop_first()[i],
        ) by {
            assert(text.drop_first()[i] == text[i + 1]);
        }
        assert forall|i: int| 0 <= i < text.len() - 1 implies is_whitespace(
            #[trigger] text.drop_last()[i],
        ) by {
            assert(text.drop_last()[i] == text[i]);
        }
        lemma_trim_of_blanks(text.drop_first());
        lemma_trim_of_blanks(text.drop_last());
    }
}

/// A trimmed text neither starts nor ends with a blank.
pub proof fn lemma_trim_has_no_blank_edge(text: Seq<char>)
    ensures
        trim(text).len() > 0 ==> !is_whitespace(trim(text)[0]) && !is_whitespace(
            trim(text).last(),
        ),
        trim(text).len() > 0 ==> trim_start(text).len() > 0 && trim(text)[0] == trim_start(
            text,
        )[0],
        trim_start(text).len() > 0 ==> trim(text).len() > 0,
{
    let inner = trim_start(text);
    lemma_trim_start(text);
    lemma_trim_end(inner);
    if inner.len() > 0 {
        assert(all_whitespace(inner.skip(0)) ==> is_whitespace(inner.skip(0)[0]));
        if trim_end(inner).len() == 0 {
            assert(inner.skip(0) == inner);
            assert(is_whitespace(inner[0]));
        }
        assert(trim_end(inner)[0] == inner[0]);
    }
}

/// Blanks around a text do not change what it trims to.
pub proof fn lemma_trim_ignores_blanks_around(before: Seq<char>, text: Seq<char>, after: Seq<char>)
    requires
        all_whitespace(before),
        all_whitespace(after),
    ensures
        trim(before + text + after) == trim(text),
{
    let whole = before + text + after;
    lemma_trim_start(text);
    let inner = trim_start(text);
    let gone = text.len() - inner.len();
    if inner.len() == 0 {
        // Nothing but blanks.
        assert(text.take(gone) == text);
        assert forall|i: int| 0 <= i < whole.len() implies is_whitespace(#[trigger] whole[i]) by {
            if i < before.len() {
                assert(whole[i] == before[i]);
            } else if i < before.len() + text.len() {
                assert(whole[i] == text[i - before.len()]);
            } else {
                assert(whole[i] == after[i - before.len() - text.len()]);
            }
        }
        lemma_trim_of_blanks(whole);
        lemma_trim_of_blanks(text);
    } else {
        let started = before.len() + gone;
        assert(whole[started] == inner[0]);
        assert forall|i: int| 0 <= i < started implies is_whitespace(
            #[trigger] whole.take(started)[i],
        ) by {
            if i < before.len() {
                assert(whole.take(started)[i] == before[i]);
            } else {
                assert(whole.take(started)[i] == text.take(gone)[i - before.len()]);
            }
        }
        lemma_trim_start_stops(whole, started);
        assert(whole.skip(started) == inner + after);
        lemma_trim_end(inner);
        lemma_trim_has_no_blank_edge(text);
        let kept = trim_end(inner).len() as int;
        let padded = inner + after;
        assert(padded[kept - 1] == inner[kept - 1]);
        assert(inner[kept - 1] == trim_end(inner).last());
        assert forall|i: int| 0 <= i < padded.len() - kept implies is_whitespace(
            #[trigger] padded.skip(kept)[i],
        ) by {
            if i < inner.len() - kept {
                assert(padded.skip(kept)[i] == inner.skip(kept)[i]);
            } else {
                assert(padded.skip(kept)[i] == after[i - (inner.len() - kept)]);
            }
        }
        lemma_trim_end_stops(padded, kept);
        assert(padded.take(kept) == inner.take(kept));
    }
}

/// A word that starts a text starts with the character that the text
/// starts with, if that is no blank.
pub proof fn lemma_first_word_start(text: Seq<char>)
    ensures
        word_length(text) <= text.len(),
        text.len() > 0 && !is_whitespace(text[0]) ==> first_word(text).len() > 0 && first_word(
            text,
        )[0] == text[0],
        text.len() == 0 || is_whitespace(text[0]) ==> first_word(text).len() == 0,
{
    lemma_word_length_bound(text);
}

/// A line that is empty but for blanks is blank, and so is a line whose
/// first character that is no blank is `;`.
pub proof fn lemma_blank_lines(line: Seq<char>)
    requires
        all_whitespace(line) || (trim_start(line).len() > 0 && trim_start(line)[0] == ';'),
    ensures
        parse_line_spec(line) == Ok::<LineView, Seq<char>>(LineView::Blank),
{
    let text = trim(line);
    if all_whitespace(line) {
        lemma_trim_of_blanks(line);
        lemma_first_word_start(text);
    } else {
        lemma_trim_has_no_blank_edge(line);
        lemma_first_word_start(text);
    }
}

/// Blanks before and after a line do not change what the line is.
pub proof fn lemma_blanks_around_a_line(before: Seq<char>, line: Seq<char>, after: Seq<char>)
    requires
        all_whitespace(before),
        all_whitespace(after),
    ensures
        parse_line_spec(before + line + after) == parse_line_spec(line),
{
    lemma_trim_ignores_blanks_around(before, line, after);
}

// Splitting outside quotation marks

/// The segments put together again, with `pat` between each two.
pub open spec fn join(segments: Seq<Seq<char>>, pat: char) -> Seq<char>
    decreases segments.len(),
{
    if segments.len() == 0 {
        Seq::empty()
    } else if segments.len() == 1 {
        segments[0]
    } else {
        join(segments.drop_last(), pat).push(pat) + segments.last()
    }
}

/// How many occurrences of `pat` in `text` stand outside text literals.
pub open spec fn split_points(text: Seq<char>, pat: char) -> nat
    decreases text.len(),
{
    if text.len() == 0 {
        0
    } else if text.last() == pat && !in_quotes(text.drop_last()) {
        split_points(text.drop_last(), pat) + 1
    } else {
        split_points(text.drop_last(), pat)
    }
}

/// How many characters the segments hold.
pub open spec fn total_length(segments: Seq<Seq<char>>) -> nat
    decreases segments.len(),
{
    if segments.len() == 0 {
        0
    } else {
        total_length(segments.drop_last()) + segments.last().len()
    }
}

/// Reading on through text that holds `pat` only inside text literals
/// never comes to a place where `pat` stands outside them.
pub open spec fn unbroken(segment: Seq<char>, pat: char) -> bool {
    forall|i: int|
        0 <= i < segment.len() && #[trigger] segment[i] == pat ==> in_quotes(segment.take(i))
}

/// Quotation marks add up: a reader is inside a text literal after two
/// texts in a row exactly where it is after one of them but not both.
pub proof fn lemma_in_quotes_concat(a: Seq<char>, b: Seq<char>)
    ensures
        in_quotes(a + b) == (in_quotes(a) != in_quotes(b)),
    decreases b.len(),
{
    if b.len() == 0 {
        assert(a + b == a);
    } else {
        assert((a + b).drop_last() == a + b.drop_last());
        assert((a + b).last() == b.last());
        lemma_in_quotes_concat(a, b.drop_last());
    }
}

/// The laws of the quote-aware splitter, for a `pat` that is no quotation
/// mark.
///
/// - There is one segment more than there are occurrences of `pat` outside
///   text literals: each of them is a boundary, and nothing else is.
/// - The segments, joined by `pat`, are the text: no character is lost or
///   added, and the text is as long as the segments and the boundaries
///   together.
/// - No segment holds `pat` outside a text literal, and every segment but
///   the last ends outside one: a text literal is never taken apart.
pub proof fn lemma_split_laws(text: Seq<char>, pat: char)
    requires
        pat != '"',
    ensures
        split(text, pat).len() == split_points(text, pat) + 1,
        join(split(text, pat), pat) == text,
        total_length(split(text, pat)) + split_points(text, pat) == text.len(),
        forall|k: int|
            0 <= k < split(text, pat).len() ==> unbroken(#[trigger] split(text, pat)[k], pat),
        forall|k: int|
            0 <= k < split(text, pat).len() - 1 ==> !in_quotes(#[trigger] split(text, pat)[k]),
        in_quotes(split(text, pat).last()) == in_quotes(text),
    decreases text.len(),
{
    let segments = split(text, pat);
    if text.len() == 0 {
        assert(segments.drop_last() == Seq::<Seq<char>>::empty());
        assert(total_length(segments) == 0) by {
            assert(total_length(segments.drop_last()) == 0);
        }
    } else {
        let shorter = text.drop_last();
        let before = split(shorter, pat);
        let c = text.last();
        lemma_split_laws(shorter, pat);
        assert(text == shorter.push(c));
        if c == pat && !in_quotes(shorter) {
            assert(segments == before.push(Seq::<char>::empty()));
            assert(segments.drop_last() == before);
            assert(join(segments, pat) == join(before, pat).push(pat) + Seq::<char>::empty());
            assert(join(segments, pat) == text);
            assert forall|k: int| 0 <= k < segments.len() implies unbroken(
                #[trigger] segments[k],
                pat,
            ) by {
                if k < before.len() {
                    assert(segments[k] == before[k]);
                }
            }
            assert forall|k: int| 0 <= k < segments.len() - 1 implies !in_quotes(
                #[trigger] segments[k],
            ) by {
                assert(segments[k] == before[k]);
            }
            assert(in_quotes(text) == false);
        } else {
            let last = before.last().push(c);
            assert(segments == before.update(before.len() - 1, last));
            assert(segments.drop_last() == before.drop_last());
            assert(segments.last() == last);
            // join
            if before.len() == 1 {
                assert(join(before, pat) == before[0]);
                assert(join(segments, pat) == last);
            } else {
                assert(join(before, pat) == join(before.drop_last(), pat).push(pat)
                    + before.last());
                assert(join(segments, pat) == join(before.drop_last(), pat).push(pat) + last);
                assert(join(before.drop_last(), pat).push(pat) + last == (join(
                    before.drop_last(),
                    pat,
                ).push(pat) + before.last()).push(c));
            }
            assert(join(segments, pat) == text);
            // length
            assert(total_length(before) == total_length(before.drop_last())
                + before.last().len());
            // unbroken
            assert(in_quotes(before.last()) == in_quotes(shorter));
            assert forall|k: int| 0 <= k < segments.len() implies unbroken(
                #[trigger] segments[k],
                pat,
            ) by {
                if k < before.len() - 1 {
                    assert(segments[k] == before[k]);
                } else {
                    assert(unbroken(before[k], pat));
                    assert forall|i: int| 0 <= i < last.len() && #[trigger] last[i]
                        == pat implies in_quotes(last.take(i)) by {
                        if i < before.last().len() {
                            assert(last[i] == before.last()[i]);
                            assert(last.take(i) == before.last().take(i));
                        } else {
                            assert(last.take(i) == before.last());
                        }
                    }
                }
            }
            assert forall|k: int| 0 <= k < segments.len() - 1 implies !in_quotes(
                #[trigger] segments[k],
            ) by {
                assert(segments[k] == before[k]);
            }
            assert(last.drop_last() == before.last());
            assert(in_quotes(last) == (in_quotes(before.last()) != (c == '"')));
        }
    }
}

/// Where in the text the boundary after segment `k` stands: behind that
/// segment, the segments before it, and the boundaries between them.
pub open spec fn boundary(segments: Seq<Seq<char>>, pat: char, k: int) -> int {
    join(segments.take(k + 1), pat).len() as int
}

/// Every boundary between two segments is an occurrence of `pat` outside
/// text literals: a character inside a text literal is never a place where
/// the text is split.
pub proof fn lemma_boundaries_are_outside_quotes(text: Seq<char>, pat: char, k: int)
    requires
        pat != '"',
        0 <= k < split(text, pat).len() - 1,
    ensures
        ({
            let at = boundary(split(text, pat), pat, k);
            &&& 0 <= at < text.len()
            &&& text[at] == pat
            &&& !in_quotes(text.take(at))
        }),
    decreases text.len(),
{
    let segments = split(text, pat);
    if text.len() > 0 {
        let shorter = text.drop_last();
        let before = split(shorter, pat);
        lemma_split_is_not_empty(shorter, pat);
        if text.last() == pat && !in_quotes(shorter) {
            if k == before.len() - 1 {
                lemma_split_laws(shorter, pat);
                assert(segments.take(k + 1) == before);
                assert(text.take(shorter.len() as int) == shorter);
            } else {
                lemma_boundaries_are_outside_quotes(shorter, pat, k);
                assert(segments.take(k + 1) == before.take(k + 1));
                let at = boundary(before, pat, k);
                assert(text.take(at) == shorter.take(at));
            }
        } else {
            lemma_boundaries_are_outside_quotes(shorter, pat, k);
            assert(segments.take(k + 1) == before.take(k + 1));
            let at = boundary(before, pat, k);
            assert(text.take(at) == shorter.take(at));
        }
    }
}

// Numbers

/// The decimal digits of a number are digits, and they write the number.
pub proof fn lemma_decimal_digits(n: nat)
    ensures
        decimal_digits(n).len() >= 1,
        forall|i: int|
            0 <= i < decimal_digits(n).len() ==> '0' <= #[trigger] decimal_digits(n)[i] <= '9',
        all_digits(decimal_digits(n), 10),
        digits_value(decimal_digits(n), 10) == n,
    decreases n,
{
    let digits = decimal_digits(n);
    if n < 10 {
        assert(digits.drop_last() == Seq::<char>::empty());
        assert(digits_value(digits.drop_last(), 10) == 0);
        assert(digits.last() == digit_char(n as int));
        assert(digit_value(digit_char(n as int), 10) == Some(n as int));
        assert forall|i: int| 0 <= i < digits.len() implies (#[trigger] digit_value(
            digits[i],
            10,
        )) is Some by {}
    } else {
        let earlier = decimal_digits(n / 10);
        lemma_decimal_digits(n / 10);
        let low = digit_char((n % 10) as int);
        assert(digits == earlier.push(low));
        assert(digits.drop_last() == earlier);
        assert(digits.last() == low);
        assert(digit_value(low, 10) == Some((n % 10) as int));
        assert forall|i: int| 0 <= i < digits.len() implies '0' <= #[trigger] digits[i]
            <= '9' by {
            if i < earlier.len() {
                assert(digits[i] == earlier[i]);
            }
        }
        assert forall|i: int| 0 <= i < digits.len() implies (#[trigger] digit_value(
            digits[i],
            10,
        )) is Some by {
            if i < earlier.len() {
                assert(digits[i] == earlier[i]);
                assert(digit_value(earlier[i], 10) is Some);
            }
        }
    }
}

/// A number that is written in decimal and classified is that number: the
/// token classifier reads back what [`decimal`] writes, for every number
/// that is not negative.
pub proof fn lemma_decimal_round_trip(n: i32)
    requires
        n >= 0,
    ensures
        classify(decimal(n as int)) == Ok::<TokenView, Seq<char>>(TokenView::Numeric(n)),
{
    let text = decimal(n as int);
    lemma_decimal_digits(n as nat);
    assert(text == decimal_digits(n as nat));
    if let Some(register) = RegisterName::spec_from_name(text) {
        RegisterName::lemma_from_name_is_name(text);
        register.lemma_name_is_lower_case();
        assert('a' <= register.spec_name()[0]);
    }
    assert(!text.contains('"'));
    reveal_strlit("0x");
    reveal_strlit("0b");
    assert(!"0x"@.is_prefix_of(text)) by {
        if "0x"@.is_prefix_of(text) {
            assert(text.subrange(0, 2)[1] == 'x');
        }
    }
    assert(!"0b"@.is_prefix_of(text)) by {
        if "0b"@.is_prefix_of(text) {
            assert(text.subrange(0, 2)[1] == 'b');
        }
    }
    assert(parse_integer(text, 10) == Some(n));
}

} // verus!
