use assembl_really::editor::completion_provider::{
    completion_items, get_completion_items, CompletionItem, CompletionType,
};
use assembl_really::editor::document_symbol_provider::{
    get_document_symbols, DocumentSymbol, Range, SymbolType,
};
use assembl_really::editor::semantic_highlighter::{
    parse_file_tokens, SemanticToken, SemanticTokenType,
};
use assembl_really::editor::split_lines;
use assembl_really::machine::register::RegisterName;
use assembl_really::parser::error::ParserError;
use assembl_really::parser::instruction::Instruction;

#[test]
fn split_lines_cuts_at_line_feeds() {
    assert_eq!(split_lines(""), vec![""]);
    assert_eq!(split_lines("a"), vec!["a"]);
    assert_eq!(split_lines("a\nb"), vec!["a", "b"]);
    assert_eq!(split_lines("a\n"), vec!["a", ""]);
    assert_eq!(split_lines("\n\"x\ny\"\n"), vec!["", "\"x", "y\"", ""]);
    for text in ["", "\n", "a\n\nb", "mov eax, 1\r\nret"] {
        let expected: Vec<&str> = text.split('\n').collect();
        assert_eq!(split_lines(text), expected);
    }
}

fn completion(name: &str, token_type: CompletionType) -> CompletionItem {
    CompletionItem { token_name: name.to_string(), token_type }
}

#[test]
fn completion_lists_declarations_then_the_language() {
    let items = get_completion_items("main:\nmsg db \"hi\"\nmov eax, msg\nmain:\nbuf resb 2").unwrap();
    assert_eq!(items.len(), 4 + 2 + 19 + 30);
    assert_eq!(
        items[..6],
        [
            completion("main", CompletionType::Label),
            completion("msg", CompletionType::Variable),
            completion("main", CompletionType::Label),
            completion("buf", CompletionType::Variable),
            completion("asmr::io::print", CompletionType::Function),
            completion("asmr::io::readln", CompletionType::Function),
        ]
    );
    let registers: Vec<CompletionItem> = RegisterName::all()
        .into_iter()
        .map(|name| completion(name.name(), CompletionType::Register))
        .collect();
    assert_eq!(items[6..25], registers[..]);
    assert_eq!(items[6], completion("eax", CompletionType::Register));
    assert_eq!(items[24], completion("flags", CompletionType::Register));
    let opcodes: Vec<CompletionItem> = Instruction::all()
        .into_iter()
        .map(|opcode| completion(opcode.name(), CompletionType::Instruction))
        .collect();
    assert_eq!(items[25..], opcodes[..]);
    assert_eq!(items[25], completion("nop", CompletionType::Instruction));
    assert_eq!(items[54], completion("ret", CompletionType::Instruction));
    assert_eq!(items[0].token_name(), "main");
}

#[test]
fn completion_of_an_empty_program() {
    assert_eq!(completion_items(&vec![]).len(), 51);
    assert_eq!(get_completion_items("").unwrap().len(), 51);
}

#[test]
fn tooling_fails_where_the_file_does_not_parse() {
    let error = ParserError {
        line_number: 2,
        cause: "Could not parse the line. There is likely an uncaught syntax error.".to_string(),
    };
    assert_eq!(get_completion_items("nop\n#\n#"), Err(ParserError { ..clone(&error) }));
    assert_eq!(get_document_symbols("nop\n#\n#"), Err(ParserError { ..clone(&error) }));
    assert_eq!(parse_file_tokens("nop\n#\n#"), Err(error));
}

fn clone(error: &ParserError) -> ParserError {
    ParserError { line_number: error.line_number, cause: error.cause.clone() }
}

fn symbol(name: &str, token_type: SymbolType, line_start: usize, line_end: usize, char_end: usize) -> DocumentSymbol {
    DocumentSymbol {
        token_name: name.to_string(),
        token_type,
        range: Range { line_start, char_start: 0, line_end, char_end },
    }
}

#[test]
fn symbols_group_lines_under_their_label() {
    let source = "msg db 1\nmain:\n  mov eax, 1\nbuf resb 2\n.loop:\njmp .loop\n; é";
    let symbols = get_document_symbols(source).unwrap();
    assert_eq!(
        symbols,
        vec![
            symbol("msg", SymbolType::Variable, 0, 0, 8),
            symbol("buf", SymbolType::Variable, 3, 3, 10),
            symbol("main", SymbolType::Label, 1, 3, 10),
            symbol(".loop", SymbolType::Label, 4, 6, 4),
        ]
    );
    assert_eq!(symbols[2].token_name(), "main");
    assert_eq!(SymbolType::Label.code(), 11);
    assert_eq!(SymbolType::Variable.code(), 12);
}

#[test]
fn symbols_of_a_file_without_declarations() {
    assert_eq!(get_document_symbols("nop\n\nret"), Ok(vec![]));
    assert_eq!(get_document_symbols(""), Ok(vec![]));
    assert_eq!(get_document_symbols("a:"), Ok(vec![symbol("a", SymbolType::Label, 0, 0, 2)]));
    assert_eq!(
        get_document_symbols("a:\nb:"),
        Ok(vec![symbol("a", SymbolType::Label, 0, 0, 2), symbol("b", SymbolType::Label, 1, 1, 2)])
    );
}

fn semantic(name: &str, line: u32, start: u32, token_type: SemanticTokenType) -> SemanticToken {
    SemanticToken {
        token_name: name.to_string(),
        delta_line: line,
        delta_start: start,
        length: name.len() as u32,
        token_type: token_type.code(),
    }
}

#[test]
fn tokens_mark_functions_and_known_identifiers() {
    let source = [
        "  mov eax, msg",       // msg is not yet known
        "msg db \"msg\", 1",
        "mov eax, msg",
        "call main",            // labels are known everywhere
        "call asmr::io::print",
        "call other",           // never declared
        "\u{a0}main:",
        "jmp main",
        "buf resb buf",
    ]
    .join("\n");
    let tokens = parse_file_tokens(&source).unwrap();
    assert_eq!(
        tokens,
        vec![
            semantic("msg", 1, 0, SemanticTokenType::Variable),
            semantic("msg", 2, 9, SemanticTokenType::Variable),
            semantic("main", 3, 5, SemanticTokenType::Variable),
            semantic("asmr::io::print", 4, 5, SemanticTokenType::Function),
            semantic("main", 6, 2, SemanticTokenType::Variable),
            semantic("main", 7, 4, SemanticTokenType::Variable),
            semantic("buf", 8, 0, SemanticTokenType::Variable),
            // The operand is found where the name first stands in the line.
            semantic("buf", 8, 0, SemanticTokenType::Variable),
        ]
    );
    assert_eq!(tokens[3].token_type, 1);
    assert_eq!(tokens[0].token_type, 0);
    assert_eq!(tokens[0].token_name(), "msg");
}

#[test]
fn tokens_of_a_file_without_identifiers() {
    assert_eq!(parse_file_tokens("mov eax, 1\n\n; call main"), Ok(vec![]));
    assert_eq!(parse_file_tokens(""), Ok(vec![]));
}
