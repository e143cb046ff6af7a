//! Character-level text handling: blanks, trimming, searching, and reading
//! and writing integers.
//!
//! Text is modelled as `Seq<char>`; the executable functions work on
//! `Vec<char>` so that every position is reached in constant time.

use vstd::prelude::*;

verus! {

/// `String::push` appends one character to the text.
pub assume_specification[ std::string::String::push ](text: &mut std::string::String, ch: char)
    ensures
        final(text)@ == old(text)@.push(ch),
;

/// The characters of `text`.
pub fn to_chars(text: &str) -> (chars: Vec<char>)
    ensures
        chars@ == text@,
{
    broadcast use vstd::string::group_string_axioms;

    let mut chars: Vec<char> = Vec::new();
    for c in it: text.chars()
        invariant
            it.seq() == text@,
            chars@ == text@.take(it.index() as int),
    {
        chars.push(c);
    }
    assert(chars@ == text@);
    chars
}

/// The text made of `chars`.
pub fn to_text(chars: &Vec<char>) -> (text: String)
    ensures
        text@ == chars@,
{
    let mut text = String::new();
    let mut i: usize = 0;
    while i < chars.len()
        invariant
            i <= chars.len(),
            text@ == chars@.take(i as int),
        decreases chars.len() - i,
    {
        text.push(chars[i]);
        i += 1;
    }
    assert(chars@.take(chars.len() as int) == chars@);
    text
}

/// The characters of `chars` from `from` up to, not including, `to`.
pub fn slice(chars: &Vec<char>, from: usize, to: usize) -> (part: Vec<char>)
    requires
        from <= to <= chars.len(),
    ensures
        part@ == chars@.subrange(from as int, to as int),
{
    let mut part: Vec<char> = Vec::new();
    let mut i: usize = from;
    while i < to
        invariant
            from <= i <= to <= chars.len(),
            part@ == chars@.subrange(from as int, i as int),
        decreases to - i,
    {
        part.push(chars[i]);
        i += 1;
    }
    part
}

/// Whether `chars` is exactly the text `literal`.
pub fn spells(chars: &Vec<char>, literal: &str) -> (same: bool)
    ensures
        same == (chars@ == literal@),
{
    let length = literal.unicode_len();
    if chars.len() != length {
        return false;
    }
    let mut i: usize = 0;
    while i < length
        invariant
            i <= length,
            length == chars.len(),
            length == literal@.len(),
            chars@.take(i as int) == literal@.take(i as int),
        decreases length - i,
    {
        if chars[i] != literal.get_char(i) {
            assert(chars@[i as int] != literal@[i as int]);
            return false;
        }
        assert(chars@.take(i + 1) == chars@.take(i as int).push(chars@[i as int]));
        assert(literal@.take(i + 1) == literal@.take(i as int).push(literal@[i as int]));
        i += 1;
    }
    assert(chars@.take(length as int) == chars@);
    assert(literal@.take(length as int) == literal@);
    true
}

/// Whether `chars` starts with the text `literal`.
pub fn begins_with(chars: &Vec<char>, literal: &str) -> (found: bool)
    ensures
        found == literal@.is_prefix_of(chars@),
{
    let length = literal.unicode_len();
    if chars.len() < length {
        return false;
    }
    let head = slice(chars, 0, length);
    spells(&head, literal)
}

/// Whether `c` is a blank: a character with the Unicode property White_Space.
pub open spec fn is_whitespace(c: char) -> bool {
    ||| '\u{9}' <= c <= '\u{d}'
    ||| c == ' '
    ||| c == '\u{85}'
    ||| c == '\u{a0}'
    ||| c == '\u{1680}'
    ||| '\u{2000}' <= c <= '\u{200a}'
    ||| c == '\u{2028}'
    ||| c == '\u{2029}'
    ||| c == '\u{202f}'
    ||| c == '\u{205f}'
    ||| c == '\u{3000}'
}

/// Computes [`is_whitespace`].
pub fn whitespace(c: char) -> (blank: bool)
    ensures
        blank == is_whitespace(c),
{
    ('\u{9}' <= c && c <= '\u{d}') || c == ' ' || c == '\u{85}' || c == '\u{a0}' || c == '\u{1680}'
        || ('\u{2000}' <= c && c <= '\u{200a}') || c == '\u{2028}' || c == '\u{2029}' || c
        == '\u{202f}' || c == '\u{205f}' || c == '\u{3000}'
}

/// `text` without the blanks it starts with.
pub open spec fn trim_start(text: Seq<char>) -> Seq<char>
    decreases text.len(),
{
    if text.len() > 0 && is_whitespace(text[0]) {
        trim_start(text.drop_first())
    } else {
        text
    }
}

/// `text` without the blanks it ends with.
pub open spec fn trim_end(text: Seq<char>) -> Seq<char>
    decreases text.len(),
{
    if text.len() > 0 && is_whitespace(text.last()) {
        trim_end(text.drop_last())
    } else {
        text
    }
}

/// `text` without the blanks around it.
pub open spec fn trim(text: Seq<char>) -> Seq<char> {
    trim_end(trim_start(text))
}

/// Computes [`trim`].
pub fn trimmed(chars: &Vec<char>) -> (inner: Vec<char>)
    ensures
        inner@ == trim(chars@),
{
    let mut start: usize = 0;
    assert(chars@.skip(0) == chars@);
    while start < chars.len() && whitespace(chars[start])
        invariant
            start <= chars.len(),
            trim_start(chars@) == trim_start(chars@.skip(start as int)),
        decreases chars.len() - start,
    {
        assert(chars@.skip(start as int).drop_first() == chars@.skip(start + 1));
        start += 1;
    }
    let mut end: usize = chars.len();
    assert(chars@.skip(start as int) == chars@.subrange(start as int, end as int));
    while end > start && whitespace(chars[end - 1])
        invariant
            start <= end <= chars.len(),
            trim(chars@) == trim_end(chars@.subrange(start as int, end as int)),
        decreases end - start,
    {
        assert(chars@.subrange(start as int, end as int).drop_last() == chars@.subrange(
            start as int,
            end - 1,
        ));
        end -= 1;
    }
    slice(chars, start, end)
}

/// How many characters stand before the first blank of `text`.
pub open spec fn word_length(text: Seq<char>) -> nat
    decreases text.len(),
{
    if text.len() == 0 || is_whitespace(text[0]) {
        0
    } else {
        1 + word_length(text.drop_first())
    }
}

/// The characters of `text` that stand before its first blank.
pub open spec fn first_word(text: Seq<char>) -> Seq<char> {
    text.take(word_length(text) as int)
}

/// A word is no longer than the text that it starts.
pub proof fn lemma_word_length_bound(text: Seq<char>)
    ensures
        word_length(text) <= text.len(),
    decreases text.len(),
{
    if text.len() > 0 && !is_whitespace(text[0]) {
        lemma_word_length_bound(text.drop_first());
    }
}

/// Computes [`word_length`].
pub fn measure_word(chars: &Vec<char>) -> (length: usize)
    ensures
        length == word_length(chars@),
        length <= chars.len(),
{
    let mut length: usize = 0;
    assert(chars@.skip(0) == chars@);
    while length < chars.len() && !whitespace(chars[length])
        invariant
            length <= chars.len(),
            word_length(chars@) == length + word_length(chars@.skip(length as int)),
        decreases chars.len() - length,
    {
        assert(chars@.skip(length as int).drop_first() == chars@.skip(length + 1));
        length += 1;
    }
    length
}

/// Whether `pattern` stands in `text` at position `at`.
pub open spec fn occurs_at(text: Seq<char>, pattern: Seq<char>, at: int) -> bool {
    &&& 0 <= at
    &&& at + pattern.len() <= text.len()
    &&& text.subrange(at, at + pattern.len()) == pattern
}

/// The first position at or after `from` where `pattern` stands in `text`.
pub open spec fn find_from(text: Seq<char>, pattern: Seq<char>, from: int) -> Option<int>
    decreases text.len() - pattern.len() - from + 1,
{
    if from < 0 || from + pattern.len() > text.len() {
        None
    } else if occurs_at(text, pattern, from) {
        Some(from)
    } else {
        find_from(text, pattern, from + 1)
    }
}

/// The first position where `pattern` stands in `text`.
pub open spec fn find(text: Seq<char>, pattern: Seq<char>) -> Option<int> {
    find_from(text, pattern, 0)
}

/// [`find_from`] gives the least position at or after `from` where the
/// pattern stands, and `None` exactly where there is no such position.
pub proof fn lemma_find_from_is_least(text: Seq<char>, pattern: Seq<char>, from: int)
    requires
        0 <= from,
    ensures
        match find_from(text, pattern, from) {
            Some(at) => from <= at && occurs_at(text, pattern, at) && forall|j: int|
                from <= j < at ==> !occurs_at(text, pattern, j),
            None => forall|j: int| from <= j ==> !occurs_at(text, pattern, j),
        },
    decreases text.len() - pattern.len() - from + 1,
{
    if from + pattern.len() > text.len() {
    } else if occurs_at(text, pattern, from) {
    } else {
        lemma_find_from_is_least(text, pattern, from + 1);
    }
}

/// Whether `pattern` stands in `chars` at position `at`.
fn matches_at(chars: &Vec<char>, pattern: &Vec<char>, at: usize) -> (found: bool)
    requires
        at + pattern.len() <= chars.len(),
    ensures
        found == occurs_at(chars@, pattern@, at as int),
{
    let mut k: usize = 0;
    while k < pattern.len()
        invariant
            k <= pattern.len(),
            at + pattern.len() <= chars.len(),
            chars@.subrange(at as int, at + k) == pattern@.take(k as int),
        decreases pattern.len() - k,
    {
        if chars[at + k] != pattern[k] {
            assert(chars@.subrange(at as int, at + pattern.len())[k as int] != pattern@[k as int]);
            return false;
        }
        assert(chars@.subrange(at as int, at + k + 1) == chars@.subrange(at as int, at + k).push(
            chars@[at + k],
        ));
        assert(pattern@.take(k + 1) == pattern@.take(k as int).push(pattern@[k as int]));
        k += 1;
    }
    assert(pattern@.take(pattern.len() as int) == pattern@);
    true
}

/// Computes [`find`].
pub fn search(chars: &Vec<char>, pattern: &Vec<char>) -> (position: Option<usize>)
    ensures
        match position {
            Some(at) => find(chars@, pattern@) == Some(at as int),
            None => find(chars@, pattern@) is None,
        },
{
    if pattern.len() > chars.len() {
        return None;
    }
    let last: usize = chars.len() - pattern.len();
    let mut at: usize = 0;
    loop
        invariant
            last == chars.len() - pattern.len(),
            at <= last,
            find(chars@, pattern@) == find_from(chars@, pattern@, at as int),
        decreases last - at,
    {
        if matches_at(chars, pattern, at) {
            return Some(at);
        }
        if at == last {
            assert(find_from(chars@, pattern@, at + 1) is None);
            return None;
        }
        at += 1;
    }
}

/// The value of `c` as a digit in base `radix`: `0`-`9`, then the letters
/// of either case from ten upwards.
pub open spec fn digit_value(c: char, radix: int) -> Option<int> {
    let value = if '0' <= c <= '9' {
        c as int - '0' as int
    } else if 'a' <= c <= 'z' {
        c as int - 'a' as int + 10
    } else if 'A' <= c <= 'Z' {
        c as int - 'A' as int + 10
    } else {
        radix
    };
    if value < radix {
        Some(value)
    } else {
        None
    }
}

/// Computes [`digit_value`].
pub fn digit_of(c: char, radix: u32) -> (digit: Option<u32>)
    ensures
        digit_value(c, radix as int) == match digit {
            Some(d) => Some(d as int),
            None => None,
        },
{
    let code: u32 = c as u32;
    let value: u32 = if '0' <= c && c <= '9' {
        code - ('0' as u32)
    } else if 'a' <= c && c <= 'z' {
        code - ('a' as u32) + 10
    } else if 'A' <= c && c <= 'Z' {
        code - ('A' as u32) + 10
    } else {
        radix
    };
    if value < radix {
        Some(value)
    } else {
        None
    }
}

/// Whether every character of `text` is a digit in base `radix`.
pub open spec fn all_digits(text: Seq<char>, radix: int) -> bool {
    forall|i: int| 0 <= i < text.len() ==> (#[trigger] digit_value(text[i], radix)) is Some
}

/// The number that the digits `text` write in base `radix`.
pub open spec fn digits_value(text: Seq<char>, radix: int) -> int
    decreases text.len(),
{
    if text.len() == 0 {
        0
    } else {
        digits_value(text.drop_last(), radix) * radix + digit_value(text.last(), radix).unwrap()
    }
}

/// The signed 32-bit integer that `text` writes in base `radix`: an optional
/// sign `+` or `-`, then one digit or more. `None` where `text` is not of
/// that form or the number does not fit.
pub open spec fn parse_integer(text: Seq<char>, radix: int) -> Option<i32> {
    let signed = text.len() > 0 && (text[0] == '+' || text[0] == '-');
    let digits = if signed {
        text.drop_first()
    } else {
        text
    };
    if digits.len() == 0 || !all_digits(digits, radix) {
        None
    } else {
        let size = digits_value(digits, radix);
        let number = if signed && text[0] == '-' {
            -size
        } else {
            size
        };
        if i32::MIN <= number <= i32::MAX {
            Some(number as i32)
        } else {
            None
        }
    }
}

/// The first digits of a number write no more than all of them.
proof fn lemma_digits_value_grows(text: Seq<char>, radix: int, k: int)
    requires
        radix >= 1,
        all_digits(text, radix),
        0 <= k <= text.len(),
    ensures
        0 <= digits_value(text.take(k), radix) <= digits_value(text, radix),
    decreases text.len() - k,
{
    lemma_digits_value_positive(text.take(k), radix);
    if k < text.len() {
        lemma_digits_value_grows(text, radix, k + 1);
        let next = text.take(k + 1);
        assert(next.drop_last() == text.take(k));
        assert(next.last() == text[k]);
        let low = digits_value(text.take(k), radix);
        assert(low * radix >= low) by (nonlinear_arith)
            requires
                low >= 0,
                radix >= 1,
        ;
    } else {
        assert(text.take(k) == text);
    }
}

/// Digits write a number that is not negative.
proof fn lemma_digits_value_positive(text: Seq<char>, radix: int)
    requires
        radix >= 1,
        all_digits(text, radix),
    ensures
        0 <= digits_value(text, radix),
    decreases text.len(),
{
    if text.len() > 0 {
        lemma_digits_value_positive(text.drop_last(), radix);
        let low = digits_value(text.drop_last(), radix);
        assert(low * radix >= 0) by (nonlinear_arith)
            requires
                low >= 0,
                radix >= 1,
        ;
        assert(digit_value(text[text.len() - 1], radix) is Some);
    }
}

/// Computes [`parse_integer`].
pub fn read_integer(chars: &Vec<char>, radix: u32) -> (number: Option<i32>)
    requires
        2 <= radix <= 36,
    ensures
        number == parse_integer(chars@, radix as int),
{
    let signed = chars.len() > 0 && (chars[0] == '+' || chars[0] == '-');
    let negative = signed && chars[0] == '-';
    let start: usize = if signed {
        1
    } else {
        0
    };
    let ghost digits = chars@.skip(start as int);
    assert(signed ==> digits == chars@.drop_first());
    assert(!signed ==> digits == chars@);
    if start == chars.len() {
        return None;
    }
    let mut size: i64 = 0;
    let mut i: usize = start;
    assert(digits.take(0) == Seq::<char>::empty());
    while i < chars.len()
        invariant
            2 <= radix <= 36,
            start <= i <= chars.len(),
            start < chars.len(),
            signed == (chars.len() > 0 && (chars[0] == '+' || chars[0] == '-')),
            negative == (signed && chars[0] == '-'),
            digits == chars@.skip(start as int),
            digits == (if signed {
                chars@.drop_first()
            } else {
                chars@
            }),
            all_digits(digits.take(i - start), radix as int),
            size == digits_value(digits.take(i - start), radix as int),
            0 <= size <= 0x8000_0000,
        decreases chars.len() - i,
    {
        let ghost seen = digits.take(i - start);
        let ghost more = digits.take(i - start + 1);
        assert(more.drop_last() == seen);
        assert(more.last() == chars@[i as int]);
        match digit_of(chars[i], radix) {
            None => {
                assert(digit_value(digits[i - start], radix as int) is None);
                return None;
            },
            Some(d) => {
                assert(size * radix <= 0x8000_0000 * 36) by (nonlinear_arith)
                    requires
                        0 <= size <= 0x8000_0000,
                        0 <= radix <= 36,
                ;
                size = size * (radix as i64) + (d as i64);
                assert forall|k: int| 0 <= k < more.len() implies (#[trigger] digit_value(
                    more[k],
                    radix as int,
                )) is Some by {
                    if k < seen.len() {
                        assert(more[k] == seen[k]);
                    }
                }
                if size > 0x8000_0000 {
                    proof {
                        if all_digits(digits, radix as int) {
                            lemma_digits_value_grows(digits, radix as int, i - start + 1);
                        }
                    }
                    return None;
                }
            },
        }
        i += 1;
    }
    assert(digits.take(chars.len() - start) == digits);
    if negative {
        Some((-size) as i32)
    } else if size > 0x7fff_ffff {
        None
    } else {
        Some(size as i32)
    }
}

/// The character that writes the digit `d`, for `d` below ten.
pub open spec fn digit_char(d: int) -> char {
    (d + '0' as int) as char
}

/// The decimal digits of a natural number, without leading zeros.
pub open spec fn decimal_digits(n: nat) -> Seq<char>
    decreases n,
{
    if n < 10 {
        seq![digit_char(n as int)]
    } else {
        decimal_digits(n / 10).push(digit_char((n % 10) as int))
    }
}

/// An integer in decimal, with `-` in front where it is negative.
pub open spec fn decimal(n: int) -> Seq<char> {
    if n < 0 {
        seq!['-'] + decimal_digits((-n) as nat)
    } else {
        decimal_digits(n as nat)
    }
}

/// Appends [`decimal`] of `n` to `text`.
pub fn push_decimal(text: &mut String, n: i128)
    requires
        n > i128::MIN,
    ensures
        final(text)@ == old(text)@ + decimal(n as int),
{
    let mut rest: u128 = if n < 0 {
        text.push('-');
        (-n) as u128
    } else {
        n as u128
    };
    let ghost size = rest as nat;
    let ghost head = text@;
    // The digits, the lowest first.
    let mut low: Vec<char> = Vec::new();
    while rest >= 10
        invariant
            decimal_digits(size) == decimal_digits(rest as nat) + low@.reverse(),
        decreases rest,
    {
        let d = (rest % 10) as u8;
        let ghost before = low@;
        low.push((d + 48u8) as char);
        proof {
            let c = digit_char((rest % 10) as int);
            assert(low@ == before.push(c));
            assert(low@.reverse() == seq![c] + before.reverse());
            assert(decimal_digits(rest as nat) == decimal_digits((rest / 10) as nat).push(c));
            assert(decimal_digits((rest / 10) as nat).push(c) + before.reverse() == decimal_digits(
                (rest / 10) as nat,
            ) + (seq![c] + before.reverse()));
        }
        rest = rest / 10;
    }
    let ghost before = low@;
    low.push(((rest as u8) + 48u8) as char);
    proof {
        let c = digit_char(rest as int);
        assert(low@ == before.push(c));
        assert(low@.reverse() == seq![c] + before.reverse());
        assert(decimal_digits(rest as nat) == seq![c]);
        assert(decimal_digits(size) == low@.reverse());
    }
    let mut i: usize = low.len();
    while i > 0
        invariant
            i <= low.len(),
            text@ == head + low@.reverse().take(low.len() - i),
        decreases i,
    {
        i -= 1;
        text.push(low[i]);
        assert(low@.reverse().take(low.len() - i) == low@.reverse().take(low.len() - i - 1).push(
            low@[i as int],
        ));
    }
    assert(low@.reverse().take(low.len() as int) == low@.reverse());
}

} // verus!
