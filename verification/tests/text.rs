use assembl_really::parser::text::{
    begins_with, digit_of, measure_word, push_decimal, read_integer, search, slice, spells,
    to_chars, to_text, trimmed, whitespace,
};

fn chars(text: &str) -> Vec<char> {
    text.chars().collect()
}

#[test]
fn whitespace_is_the_unicode_property() {
    for code in 0..=0x10ffffu32 {
        if let Some(c) = char::from_u32(code) {
            assert_eq!(whitespace(c), c.is_whitespace(), "U+{code:04X}");
        }
    }
}

#[test]
fn chars_and_text_convert_both_ways() {
    for text in ["", "a", "mov eax, \"é ü\"", "\u{10348}\t\u{3000}"] {
        assert_eq!(to_chars(text), chars(text));
        assert_eq!(to_text(&chars(text)), text);
    }
}

#[test]
fn slice_copies_a_range() {
    let text = chars("abcdef");
    assert_eq!(slice(&text, 0, 6), chars("abcdef"));
    assert_eq!(slice(&text, 2, 4), chars("cd"));
    assert_eq!(slice(&text, 3, 3), chars(""));
    assert_eq!(slice(&text, 6, 6), chars(""));
}

#[test]
fn spells_compares_whole_texts() {
    assert!(spells(&chars("nop"), "nop"));
    assert!(spells(&chars(""), ""));
    assert!(!spells(&chars("nop"), "no"));
    assert!(!spells(&chars("no"), "nop"));
    assert!(!spells(&chars("nop"), "nap"));
    assert!(!spells(&chars("Nop"), "nop"));
}

#[test]
fn begins_with_compares_the_start() {
    assert!(begins_with(&chars("asmr::io"), "asmr::"));
    assert!(begins_with(&chars("asmr::"), "asmr::"));
    assert!(begins_with(&chars("x"), ""));
    assert!(!begins_with(&chars("asmr:"), "asmr::"));
    assert!(!begins_with(&chars("xasmr::"), "asmr::"));
}

#[test]
fn trimmed_is_trim() {
    for text in [
        "",
        " ",
        "\t \r\n",
        "a",
        " a",
        "a ",
        "  a  b  ",
        "\u{a0}mov eax, 1\u{2003}\u{3000}",
        "\u{200b} x \u{200b}",
        "\u{85}\u{1680}x\u{2028}\u{2029}\u{202f}\u{205f}",
    ] {
        assert_eq!(trimmed(&chars(text)), chars(text.trim()), "{text:?}");
    }
}

#[test]
fn measure_word_stops_at_the_first_blank() {
    assert_eq!(measure_word(&chars("")), 0);
    assert_eq!(measure_word(&chars(" a")), 0);
    assert_eq!(measure_word(&chars("mov eax")), 3);
    assert_eq!(measure_word(&chars("nop")), 3);
    assert_eq!(measure_word(&chars("a\u{3000}b")), 1);
    for text in ["mov eax, 1", "x", ";c omment", "é\tb"] {
        let first = text.split_whitespace().next().unwrap();
        assert_eq!(measure_word(&chars(text)), first.chars().count());
    }
}

#[test]
fn search_finds_the_first_place() {
    let cases = [
        ("msg db 1", "db"),
        ("db", "db"),
        ("ddb db", "db"),
        ("d b", "db"),
        ("", "db"),
        ("d", "db"),
        ("buffer resb 50", "resb"),
        ("resresb", "resb"),
        ("é db", "db"),
        ("abc", ""),
        ("", ""),
    ];
    for (text, pattern) in cases {
        let expected = text.find(pattern).map(|at| text[..at].chars().count());
        assert_eq!(search(&chars(text), &chars(pattern)), expected, "{text:?} {pattern:?}");
    }
    assert_eq!(search(&chars("ddb db"), &chars("db")), Some(1));
    assert_eq!(search(&chars("é db"), &chars("db")), Some(2));
}

#[test]
fn digit_of_knows_digits_and_letters() {
    for radix in [2u32, 8, 10, 16, 36] {
        for code in 0..0x300u32 {
            let c = char::from_u32(code).unwrap();
            assert_eq!(digit_of(c, radix), c.to_digit(radix), "{c:?} in base {radix}");
        }
    }
    assert_eq!(digit_of('f', 16), Some(15));
    assert_eq!(digit_of('F', 16), Some(15));
    assert_eq!(digit_of('g', 16), None);
    assert_eq!(digit_of('2', 2), None);
    assert_eq!(digit_of('٣', 10), None);
}

#[test]
fn read_integer_reads_what_the_standard_library_reads() {
    let texts = [
        "", "0", "7", "10", "007", "+5", "-5", "+", "-", "+-5", "--5", "5-", " 5", "5 ", "1_000",
        "2147483647", "2147483648", "-2147483648", "-2147483649", "+2147483647", "99999999999",
        "999999999999999999999999999999", "-999999999999999999999999999999",
        "00000000000000000000000000000001", "7fffffff", "80000000", "-80000000", "-80000001",
        "ff", "FF", "fF", "g", "1a35e", "q4", "0x10", "11010110", "1010111010001001", "12",
        "1111111111111111111111111111111", "10000000000000000000000000000000",
        "-10000000000000000000000000000000", "zz", "Zz", "٣", "1.5", "é",
    ];
    for radix in [2u32, 10, 16, 36] {
        for text in texts {
            assert_eq!(
                read_integer(&chars(text), radix),
                i32::from_str_radix(text, radix).ok(),
                "{text:?} in base {radix}"
            );
        }
    }
    assert_eq!(read_integer(&chars("1a35e"), 16), Some(0x1a35e));
    assert_eq!(read_integer(&chars("-80000000"), 16), Some(i32::MIN));
}

fn decimal(n: i128) -> String {
    let mut text = String::from(">");
    push_decimal(&mut text, n);
    text
}

#[test]
fn push_decimal_writes_what_the_standard_library_writes() {
    let numbers = [
        0i128,
        1,
        9,
        10,
        11,
        99,
        100,
        219_384,
        -1,
        -10,
        i32::MAX as i128,
        i32::MIN as i128,
        u64::MAX as i128 + 1,
        i128::MAX,
        i128::MIN + 1,
    ];
    for n in numbers {
        assert_eq!(decimal(n), format!(">{n}"));
    }
    assert_eq!(decimal(-2147483648), ">-2147483648");
}
