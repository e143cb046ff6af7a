use vstd::prelude::*;

use crate::machine::register::RegisterName;
use crate::parser::text::{
    begins_with, parse_integer, read_integer, slice, to_chars, to_text,
};
use crate::parser::{is_identifier, valid_identifier};

verus! {

/// One classified operand.
#[derive(Debug, PartialEq)]
pub enum Token {
    Identifier(String),
    Numeric(i32),
    Register(RegisterName),
    String(String),
}

/// A [`Token`] as a mathematical value.
pub enum TokenView {
    Identifier(Seq<char>),
    Numeric(i32),
    Register(RegisterName),
    String(Seq<char>),
}

impl View for Token {
    type V = TokenView;

    open spec fn view(&self) -> TokenView {
        match self {
            Token::Identifier(name) => TokenView::Identifier(name@),
            Token::Numeric(number) => TokenView::Numeric(*number),
            Token::Register(register) => TokenView::Register(*register),
            Token::String(text) => TokenView::String(text@),
        }
    }
}

impl DeepView for Token {
    type V = TokenView;

    open spec fn deep_view(&self) -> TokenView {
        self@
    }
}

/// The message for a lexeme that could not be read as a `kind` value.
pub open spec fn not_a_value(lexeme: Seq<char>, kind: Seq<char>) -> Seq<char> {
    "Could not parse `"@ + lexeme + "` as a "@ + kind + " value."@
}

/// The message for a lexeme that is nothing the classifier knows.
pub open spec fn not_a_token(lexeme: Seq<char>) -> Seq<char> {
    "Could not parse token `"@ + lexeme
        + "`. Was this meant to be an identifier? Identifiers must be strictly [a-z, A-Z, 0-9, _, ., :] and must start with [a-z, A-Z. _, .]."@
}

/// Whether `lexeme` is a text literal: it starts and ends with a quotation
/// mark and holds no other one.
pub open spec fn is_text_literal(lexeme: Seq<char>) -> bool {
    &&& lexeme.len() >= 2
    &&& lexeme.first() == '"'
    &&& lexeme.last() == '"'
    &&& !lexeme.subrange(1, lexeme.len() - 1).contains('"')
}

/// The number that `lexeme` writes, or the message that says which kind of
/// number it failed to be.
pub open spec fn number_or(lexeme: Seq<char>, digits: Seq<char>, radix: int, kind: Seq<char>)
    -> Result<TokenView, Seq<char>> {
    match parse_integer(digits, radix) {
        Some(number) => Ok(TokenView::Numeric(number)),
        None => Err(not_a_value(lexeme, kind)),
    }
}

/// What a trimmed lexeme is. The kinds are tried in this order: a register
/// name; a text between quotation marks; a number in base 16 after `0x`, in
/// base 2 after `0b`, or in base 10 where the lexeme starts with a digit; an
/// identifier.
pub open spec fn classify(lexeme: Seq<char>) -> Result<TokenView, Seq<char>> {
    if let Some(register) = RegisterName::spec_from_name(lexeme) {
        Ok(TokenView::Register(register))
    } else if lexeme.contains('"') {
        if is_text_literal(lexeme) {
            Ok(TokenView::String(lexeme.subrange(1, lexeme.len() - 1)))
        } else {
            Err(not_a_value(lexeme, "string"@))
        }
    } else if "0x"@.is_prefix_of(lexeme) {
        number_or(lexeme, lexeme.skip(2), 16, "hexadecimal"@)
    } else if "0b"@.is_prefix_of(lexeme) {
        number_or(lexeme, lexeme.skip(2), 2, "binary"@)
    } else if lexeme.len() > 0 && '0' <= lexeme[0] <= '9' {
        number_or(lexeme, lexeme, 10, "decimal"@)
    } else if valid_identifier(lexeme) {
        Ok(TokenView::Identifier(lexeme))
    } else {
        Err(not_a_token(lexeme))
    }
}

/// Whether what a function returned is what `expected` says.
pub open spec fn token_agrees(
    result: Result<Token, String>,
    expected: Result<TokenView, Seq<char>>,
) -> bool {
    match result {
        Ok(token) => expected == Ok::<TokenView, Seq<char>>(token@),
        Err(cause) => expected == Err::<TokenView, Seq<char>>(cause@),
    }
}

fn value_error(lexeme: &Vec<char>, kind: &str) -> (cause: String)
    ensures
        cause@ == not_a_value(lexeme@, kind@),
{
    let mut cause = String::from_str("Could not parse `");
    cause.append(to_text(lexeme).as_str());
    cause.append("` as a ");
    cause.append(kind);
    cause.append(" value.");
    cause
}

fn number_token(lexeme: &Vec<char>, skipped: usize, radix: u32, kind: &str) -> (result: Result<
    Token,
    String,
>)
    requires
        skipped <= lexeme.len(),
        2 <= radix <= 36,
    ensures
        token_agrees(
            result,
            number_or(lexeme@, lexeme@.skip(skipped as int), radix as int, kind@),
        ),
{
    let digits = slice(lexeme, skipped, lexeme.len());
    match read_integer(&digits, radix) {
        Some(number) => Ok(Token::Numeric(number)),
        None => Err(value_error(lexeme, kind)),
    }
}

/// Whether `chars` holds a quotation mark from `from` up to, not including,
/// `to`.
fn holds_quote(chars: &Vec<char>, from: usize, to: usize) -> (found: bool)
    requires
        from <= to <= chars.len(),
    ensures
        found == chars@.subrange(from as int, to as int).contains('"'),
{
    let ghost part = chars@.subrange(from as int, to as int);
    let mut i: usize = from;
    while i < to
        invariant
            from <= i <= to <= chars.len(),
            part == chars@.subrange(from as int, to as int),
            forall|k: int| from <= k < i ==> chars@[k] != '"',
        decreases to - i,
    {
        if chars[i] == '"' {
            assert(part[i - from] == '"');
            return true;
        }
        i += 1;
    }
    assert forall|k: int| 0 <= k < part.len() implies part[k] != '"' by {
        assert(part[k] == chars@[from + k]);
    }
    false
}

impl Token {
    /// Classifies a lexeme given as characters.
    pub fn from_chars(lexeme: &Vec<char>) -> (result: Result<Token, String>)
        ensures
            token_agrees(result, classify(lexeme@)),
    {
        let length = lexeme.len();
        assert(lexeme@.subrange(0, length as int) == lexeme@);
        if let Some(register) = RegisterName::from_chars(lexeme) {
            Ok(Token::Register(register))
        } else if holds_quote(lexeme, 0, length) {
            if length >= 2 && lexeme[0] == '"' && lexeme[length - 1] == '"' && !holds_quote(
                lexeme,
                1,
                length - 1,
            ) {
                let inner = slice(lexeme, 1, length - 1);
                Ok(Token::String(to_text(&inner)))
            } else {
                Err(value_error(lexeme, "string"))
            }
        } else if begins_with(lexeme, "0x") {
            proof {
                reveal_strlit("0x");
            }
            number_token(lexeme, 2, 16, "hexadecimal")
        } else if begins_with(lexeme, "0b") {
            proof {
                reveal_strlit("0b");
            }
            number_token(lexeme, 2, 2, "binary")
        } else if length > 0 && '0' <= lexeme[0] && lexeme[0] <= '9' {
            assert(lexeme@.skip(0) == lexeme@);
            number_token(lexeme, 0, 10, "decimal")
        } else if is_identifier(lexeme) {
            Ok(Token::Identifier(to_text(lexeme)))
        } else {
            let mut cause = String::from_str("Could not parse token `");
            cause.append(to_text(lexeme).as_str());
            cause.append(
                "`. Was this meant to be an identifier? Identifiers must be strictly [a-z, A-Z, 0-9, _, ., :] and must start with [a-z, A-Z. _, .].",
            );
            Err(cause)
        }
    }

    /// Classifies a trimmed lexeme; the error says what it failed to be.
    pub fn from_str(s: &str) -> (result: Result<Token, String>)
        ensures
            token_agrees(result, classify(s@)),
    {
        let lexeme = to_chars(s);
        Self::from_chars(&lexeme)
    }
}

} // verus!
