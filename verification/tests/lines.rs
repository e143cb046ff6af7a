use assembl_really::machine::register::RegisterName;
use assembl_really::parser::error::ParserError;
use assembl_really::parser::instruction::Instruction;
use assembl_really::parser::line::{Line, MemType};
use assembl_really::parser::token::Token;
use assembl_really::parser::{is_valid_identifier, parse_line, parse_lines};

fn lines(source: &[&str]) -> Vec<String> {
    source.iter().map(|line| line.to_string()).collect()
}

#[test]
fn parse_lines_parses_each_line() {
    let parsed = parse_lines(&lines(&["main:", "  mov eax, 7 ; seven", "", "x db \"a\""])).unwrap();
    assert_eq!(
        parsed,
        vec![
            Line::Label("main".to_string()),
            Line::Instruction {
                instruction: Instruction::Mov,
                params: vec![Token::Register(RegisterName::Eax), Token::Numeric(7)],
            },
            Line::Blank,
            Line::Variable {
                identifier: "x".to_string(),
                mem_type: MemType::Db,
                params: vec![Token::String("a".to_string())],
            },
        ]
    );
    assert_eq!(parse_lines(&lines(&[])), Ok(vec![]));
}

#[test]
fn parse_lines_stops_at_the_first_error() {
    let error = parse_lines(&lines(&["nop", "mov eax, 0xq", "#", "nop"])).unwrap_err();
    assert_eq!(
        error,
        ParserError {
            line_number: 2,
            cause: "Could not parse `0xq` as a hexadecimal value.".to_string(),
        }
    );
    assert_eq!(error.to_string(), "Error on line 2: Could not parse `0xq` as a hexadecimal value.");
    let first = parse_lines(&lines(&["#"])).unwrap_err();
    assert_eq!(first.line_number, 1);
}

#[test]
fn parser_errors_are_shown_with_their_line() {
    let error = ParserError { line_number: -3, cause: "x".to_string() };
    assert_eq!(error.to_string(), "Error on line -3: x");
    let error = ParserError { line_number: i32::MIN, cause: String::new() };
    assert_eq!(error.to_string(), "Error on line -2147483648: ");
}

#[test]
fn instructions_are_read_by_their_first_word() {
    for opcode in Instruction::all() {
        let name = opcode.name();
        assert_eq!(Instruction::from_str(name), Some(opcode));
        assert_eq!(
            parse_line(&format!("  {name}  "), 1),
            Ok(Line::Instruction { instruction: opcode, params: vec![] })
        );
        assert_eq!(Instruction::from_str(&name.to_uppercase()), None);
    }
    assert_eq!(Instruction::all().len(), 30);
    assert_eq!(Instruction::from_str("snake_case"), None);
    assert_eq!(Instruction::from_str("no"), None);
    assert_eq!(Instruction::from_str("nopp"), None);
    assert_eq!(Instruction::from_str(""), None);
}

#[test]
fn a_comment_may_follow_an_opcode_directly() {
    let nop = Ok(Line::Instruction { instruction: Instruction::Nop, params: vec![] });
    assert_eq!(parse_line("nop;done", 1), nop);
    assert_eq!(parse_line("nop;", 1), nop);
    assert_eq!(parse_line("nop ;", 1), nop);
    assert_eq!(parse_line("  nop;; nop", 1), nop);
    assert_eq!(
        parse_line("ret;\"", 1),
        Ok(Line::Instruction { instruction: Instruction::Ret, params: vec![] })
    );
    assert_eq!(
        parse_line("push eax;pop eax", 1),
        Ok(Line::Instruction {
            instruction: Instruction::Push,
            params: vec![Token::Register(RegisterName::Eax)],
        })
    );
    // Inside a text literal the `;` ends nothing.
    assert!(parse_line("nop\";\"", 1).is_err());
    assert_eq!(
        parse_line("push \";\";", 1),
        Ok(Line::Instruction {
            instruction: Instruction::Push,
            params: vec![Token::String(";".to_string())],
        })
    );
    // A line that starts with the `;` is blank, whatever follows.
    assert_eq!(parse_line(";nop", 1), Ok(Line::Blank));
    assert_eq!(parse_line("main:;nop", 1), Ok(Line::Label("main".to_string())));
    assert_eq!(
        parse_line("x db 1;2", 1),
        Ok(Line::Variable { identifier: "x".to_string(), mem_type: MemType::Db, params: vec![Token::Numeric(1)] })
    );
}

#[test]
fn operands_are_split_at_commas_outside_text() {
    assert_eq!(
        parse_line("push \"a, b\" , eax,0b11 , .x ; c, d", 1),
        Ok(Line::Instruction {
            instruction: Instruction::Push,
            params: vec![
                Token::String("a, b".to_string()),
                Token::Register(RegisterName::Eax),
                Token::Numeric(3),
                Token::Identifier(".x".to_string()),
            ],
        })
    );
    assert_eq!(
        parse_line("mov eax,", 1),
        Ok(Line::Instruction {
            instruction: Instruction::Mov,
            params: vec![Token::Register(RegisterName::Eax), Token::Identifier(String::new())],
        })
    );
    // The first operand that is nothing is the one that is reported.
    assert_eq!(
        parse_line("mov 0b2, 0xg", 5),
        Err(ParserError { line_number: 5, cause: "Could not parse `0b2` as a binary value.".to_string() })
    );
}

#[test]
fn variables_are_split_at_the_first_keyword() {
    assert_eq!(
        parse_line("dbx resb 4", 1),
        Err(ParserError { line_number: 1, cause: "Invalid memory definition syntax.".to_string() })
    );
    assert_eq!(
        parse_line("rdb resb 4", 1),
        Err(ParserError {
            line_number: 1,
            cause: "Could not parse token `resb 4`. Was this meant to be an identifier? Identifiers must be strictly [a-z, A-Z, 0-9, _, ., :] and must start with [a-z, A-Z. _, .].".to_string(),
        })
    );
    assert_eq!(
        parse_line("x resb 1, 2", 1),
        Ok(Line::Variable {
            identifier: "x".to_string(),
            mem_type: MemType::Resb,
            params: vec![Token::Numeric(1), Token::Numeric(2)],
        })
    );
    assert_eq!(
        parse_line("xdb1", 1),
        Ok(Line::Variable { identifier: "x".to_string(), mem_type: MemType::Db, params: vec![Token::Numeric(1)] })
    );
}

#[test]
fn labels_end_with_a_colon() {
    assert_eq!(parse_line(":", 1), Ok(Line::Label(String::new())));
    assert_eq!(parse_line("a:: ; c", 1), Ok(Line::Label("a:".to_string())));
    assert_eq!(parse_line("a : ", 1), Ok(Line::Label("a".to_string())));
    assert_eq!(
        parse_line("1a:", 9),
        Err(ParserError {
            line_number: 9,
            cause: "Invalid label `1a`. Identifiers must be strictly [a-z, A-Z, 0-9, _, ., :] and must start with [a-z, A-Z. _, .].".to_string(),
        })
    );
}

#[test]
fn identifiers_are_ascii() {
    for valid in ["", "a", "Z9", "_", ".", "_a.b:c", "a1", "asmr::io::print"] {
        assert!(is_valid_identifier(valid), "{valid:?}");
    }
    for invalid in ["1", ":", "9a", "a b", "a-b", "é", "aé", "a\"", " a", "Ωmega"] {
        assert!(!is_valid_identifier(invalid), "{invalid:?}");
    }
}

#[test]
fn tokens_are_classified_in_order() {
    assert_eq!(Token::from_str("flags"), Ok(Token::Register(RegisterName::Flags)));
    assert_eq!(Token::from_str("Eax"), Ok(Token::Identifier("Eax".to_string())));
    assert_eq!(Token::from_str("\"\""), Ok(Token::String(String::new())));
    assert_eq!(Token::from_str("\"0x10\""), Ok(Token::String("0x10".to_string())));
    assert_eq!(Token::from_str("\"").err(), Some("Could not parse `\"` as a string value.".to_string()));
    assert_eq!(Token::from_str("0x\"").err(), Some("Could not parse `0x\"` as a string value.".to_string()));
    assert_eq!(Token::from_str("\"a\"\"b\"").err(), Some("Could not parse `\"a\"\"b\"` as a string value.".to_string()));
    assert_eq!(Token::from_str("0x7fffffff"), Ok(Token::Numeric(i32::MAX)));
    assert_eq!(Token::from_str("0x-80000000"), Ok(Token::Numeric(i32::MIN)));
    assert_eq!(Token::from_str("0x+1F"), Ok(Token::Numeric(31)));
    assert_eq!(Token::from_str("0x80000000").err(), Some("Could not parse `0x80000000` as a hexadecimal value.".to_string()));
    assert_eq!(Token::from_str("0x0x1").err(), Some("Could not parse `0x0x1` as a hexadecimal value.".to_string()));
    assert_eq!(Token::from_str("0X10").err(), Some("Could not parse `0X10` as a decimal value.".to_string()));
    assert_eq!(Token::from_str("0b-101"), Ok(Token::Numeric(-5)));
    assert_eq!(Token::from_str("0b102").err(), Some("Could not parse `0b102` as a binary value.".to_string()));
    assert_eq!(Token::from_str("2147483647"), Ok(Token::Numeric(i32::MAX)));
    assert_eq!(Token::from_str("2147483648").err(), Some("Could not parse `2147483648` as a decimal value.".to_string()));
    assert_eq!(Token::from_str("007"), Ok(Token::Numeric(7)));
    assert_eq!(
        Token::from_str("-5").err(),
        Some("Could not parse token `-5`. Was this meant to be an identifier? Identifiers must be strictly [a-z, A-Z, 0-9, _, ., :] and must start with [a-z, A-Z. _, .].".to_string())
    );
    assert_eq!(Token::from_str(""), Ok(Token::Identifier(String::new())));
    assert_eq!(Token::from_str("0"), Ok(Token::Numeric(0)));
    assert_eq!(Token::from_str("10"), Ok(Token::Numeric(10)));
    assert_eq!(Token::from_str("0x1a35e"), Ok(Token::Numeric(107358)));
    assert_eq!(Token::from_str("0b11010110"), Ok(Token::Numeric(214)));
}
