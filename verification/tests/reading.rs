use assembl_really::parser::error::ParserError;
use assembl_really::parser::instruction::Instruction;
use assembl_really::parser::line::{Line, MemType};
use assembl_really::parser::token::Token;
use assembl_really::parser::{is_valid_identifier, parse_line};

const GRAMMAR: &str = "Identifiers must be strictly [a-z, A-Z, 0-9, _, ., :] and must start with [a-z, A-Z. _, .].";

/// The segments of `text` between the occurrences of `pat` outside
/// quotation marks.
fn segments(text: &str, pat: char) -> Vec<String> {
    let mut found = Vec::new();
    let mut quoted = false;
    let mut segment = String::new();
    for c in text.chars() {
        if c == pat && !quoted {
            found.push(segment);
            segment = String::new();
            continue;
        }
        if c == '"' {
            quoted = !quoted;
        }
        segment.push(c);
    }
    found.push(segment);
    found
}

fn operands(text: &str) -> Result<Vec<Token>, String> {
    let mut params = Vec::new();
    if !text.is_empty() {
        for lexeme in segments(text, ',') {
            params.push(Token::from_str(lexeme.trim())?);
        }
    }
    Ok(params)
}

/// What a line is, worked out with the string methods of the standard
/// library.
fn read(line: &str) -> Result<Line, String> {
    let trimmed = line.trim();
    if trimmed.is_empty() || trimmed.starts_with(';') {
        return Ok(Line::Blank);
    }
    let all = segments(trimmed, ';');
    let code = all[0].trim();
    let opcode = code.split_whitespace().next().unwrap_or("");

    if let Some(instruction) = Instruction::from_str(opcode) {
        let params = operands(code[opcode.len()..].trim())?;
        return Ok(Line::Instruction { instruction, params });
    }
    if code.ends_with(':') {
        let label = code[..code.len() - 1].trim();
        if !is_valid_identifier(label) {
            return Err(format!("Invalid label `{label}`. {GRAMMAR}"));
        }
        return Ok(Line::Label(label.to_string()));
    }
    let (keyword, mem_type) = if code.contains("db") {
        ("db", MemType::Db)
    } else if code.contains("resb") {
        ("resb", MemType::Resb)
    } else {
        return Err("Could not parse the line. There is likely an uncaught syntax error.".to_string());
    };
    let (identifier, rest) = code.split_once(keyword).unwrap();
    let (identifier, rest) = (identifier.trim(), rest.trim());
    if identifier.is_empty() || rest.is_empty() {
        return Err("Invalid memory definition syntax.".to_string());
    }
    if !is_valid_identifier(identifier) {
        return Err(format!("Invalid identifier `{identifier}`. {GRAMMAR}"));
    }
    Ok(Line::Variable { identifier: identifier.to_string(), mem_type, params: operands(rest)? })
}

fn check(line: &str) {
    let expected = read(line).map_err(|cause| ParserError { line_number: 11, cause });
    assert_eq!(parse_line(line, 11), expected, "{line:?}");
}

#[test]
fn lines_read_as_the_string_methods_read_them() {
    let parts = [
        "", " ", "\t", "\u{a0}", "nop", "mov", "call", "eax", "bp", ",", ";", "\"", ":", "db", "resb",
        "msg", ".loop", "0x1f", "0b2", "5", "é", "#",
    ];
    for a in parts {
        for b in parts {
            for c in parts {
                for d in parts {
                    check(&format!("{a}{b}{c}{d}"));
                }
            }
        }
    }
}

#[test]
fn longer_lines_read_as_the_string_methods_read_them() {
    let starts = ["", "  ", "nop", "push ", "mov eax, ", "main", "x db ", "buf resb ", "\"", "; "];
    let middles = ["", "\"a, b; c\"", "eax", "5, 0x10, 0b11", "asmr::io::print", "db", "\"", " : ", "é ü"];
    let ends = ["", " ", ":", ";", " ; note", "; \"", ", ", ",x", " ;db", "\u{3000}"];
    for start in starts {
        for first in middles {
            for second in middles {
                for end in ends {
                    check(&format!("{start}{first}{second}{end}"));
                    check(&format!("{start}{first}, {second}{end}"));
                    check(&format!("{start}{first} {second}{end}"));
                }
            }
        }
    }
}
