use assembl_really::parser::line::Line;
use assembl_really::parser::{parse_line, string_literal_aware_split};

const BLANKS: [&str; 5] = ["", " ", "\t", "  \u{3000}", "\r\n"];

const LINES: [&str; 14] = [
    "",
    "; a comment \"with a quote",
    "nop",
    "mov eax, ecx",
    "push \"semicolon; in; string\"",
    "mov eax, \"a, b\", 5",
    ".loop:",
    "main :",
    "msg db \"my; message\", 0xa",
    "buffer resb 50",
    "call asmr::io::println",
    "mov edx, 0xq",
    "#this should never_compile",
    "db 35",
];

#[test]
fn blank_and_comment_lines_are_blank() {
    for line in ["", " ", "\t\t", "\u{a0}\u{2003}", ";", "; comment", "  ;c", ";\"", "\t; mov eax, 1", ";nop"] {
        assert_eq!(parse_line(line, 1), Ok(Line::Blank), "{line:?}");
    }
    for line in ["nop", "a:", "x db 1", "\"; \""] {
        assert_ne!(parse_line(line, 1), Ok(Line::Blank), "{line:?}");
    }
}

#[test]
fn blanks_around_a_line_change_nothing() {
    for line in LINES {
        let expected = parse_line(line, 3);
        for before in BLANKS {
            for after in BLANKS {
                let padded = format!("{before}{line}{after}");
                assert_eq!(parse_line(&padded, 3), expected, "{padded:?}");
            }
        }
    }
}

#[test]
fn a_comment_after_a_line_changes_nothing() {
    for line in LINES {
        let expected = parse_line(line, 3);
        if expected.is_err() {
            continue;
        }
        for blanks in BLANKS {
            for comment in ["", " note", "\"", " a; b ", "nop"] {
                let longer = format!("{line}{blanks};{comment}");
                assert_eq!(parse_line(&longer, 3), expected, "{longer:?}");
            }
        }
    }
}

/// How many times `pat` stands in `text` outside quotation marks.
fn split_points(text: &str, pat: char) -> usize {
    let mut quoted = false;
    let mut count = 0;
    for c in text.chars() {
        if c == '"' {
            quoted = !quoted;
        } else if c == pat && !quoted {
            count += 1;
        }
    }
    count
}

#[test]
fn split_keeps_every_character() {
    let texts = [
        "",
        ",",
        ",,",
        "a,b",
        "regular,list,of,words",
        "\"Hello, World!\"",
        "mov eax, \"Welcome, friend.\"",
        "\"a,b\",\"c,d\",e",
        "\",",
        "a,\"b,c",
        "\"\",\"\"",
        "é,ü",
    ];
    for text in texts {
        for pat in [',', ';', 'a'] {
            let segments = string_literal_aware_split(text, pat);
            assert_eq!(segments.join(&pat.to_string()), text, "{text:?}");
            assert_eq!(segments.len(), split_points(text, pat) + 1, "{text:?}");
            let sum: usize = segments.iter().map(|segment| segment.chars().count()).sum();
            assert_eq!(sum + segments.len() - 1, text.chars().count(), "{text:?}");
            for segment in &segments {
                assert_eq!(split_points(segment, pat), 0, "{text:?}");
            }
            for segment in &segments[..segments.len() - 1] {
                assert_eq!(segment.matches('"').count() % 2, 0, "{text:?}");
            }
        }
    }
    assert_eq!(string_literal_aware_split("\"a,b\",\"c,d\",e", ','), vec!["\"a,b\"", "\"c,d\"", "e"]);
    assert_eq!(string_literal_aware_split(",", ','), vec!["", ""]);
    assert_eq!(string_literal_aware_split("", ','), vec![""]);
    assert_eq!(string_literal_aware_split("a,\"b,c", ','), vec!["a", "\"b,c"]);
}

#[test]
fn a_number_written_in_decimal_is_read_back() {
    use_numbers(&[0, 1, 9, 10, 99, 100, 219_384, 1_000_000_007, i32::MAX]);
}

fn use_numbers(numbers: &[i32]) {
    for n in numbers {
        let written = n.to_string();
        assert_eq!(
            assembl_really::parser::token::Token::from_str(&written),
            Ok(assembl_really::parser::token::Token::Numeric(*n))
        );
    }
}
