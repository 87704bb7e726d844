use polyfont::parse::{
    byte_offset_to_position, byte_offset_to_position_safe, scope_from_highlights,
    tokens_from_highlights, HighlightEvent, OffsetEncoding, ParseError, TokenParser,
};

#[test]
fn test_byte_offset_to_position_single_line() {
    let text = "hello world";
    let pos = byte_offset_to_position(text, 5, OffsetEncoding::Utf8);
    assert_eq!(pos.line, 0);
    assert_eq!(pos.column, 5);
}

#[test]
fn test_byte_offset_to_position_multiline() {
    let text = "line1\nline2\nline3";
    let pos = byte_offset_to_position(text, 6, OffsetEncoding::Utf8);
    assert_eq!(pos.line, 1);
    assert_eq!(pos.column, 0);

    let pos = byte_offset_to_position(text, 12, OffsetEncoding::Utf8);
    assert_eq!(pos.line, 2);
    assert_eq!(pos.column, 0);
}

#[test]
fn test_byte_offset_to_position_utf16() {
    let text = "hello\nworld";
    let pos = byte_offset_to_position(text, 6, OffsetEncoding::Utf16);
    assert_eq!(pos.line, 1);
    assert_eq!(pos.column, 0);
}

#[test]
fn test_byte_offset_to_position_end_of_text() {
    let text = "abc";
    let pos = byte_offset_to_position(text, 3, OffsetEncoding::Utf8);
    assert_eq!(pos.line, 0);
    assert_eq!(pos.column, 3);
}

#[test]
fn test_byte_offset_to_position_empty_text() {
    let pos = byte_offset_to_position("", 0, OffsetEncoding::Utf8);
    assert_eq!(pos.line, 0);
    assert_eq!(pos.column, 0);
}

#[test]
fn test_byte_offset_to_position_safe_clamps() {
    let text = "abc";
    let pos = byte_offset_to_position_safe(text, 100, OffsetEncoding::Utf8);
    assert_eq!(pos.line, 0);
    assert_eq!(pos.column, 3);
}

#[test]
fn test_scope_from_highlights_single() {
    let scope = scope_from_highlights(&["keyword"]);
    assert_eq!(scope, "keyword");
}

#[test]
fn test_scope_from_highlights_multiple() {
    let scope = scope_from_highlights(&["keyword", "control"]);
    assert_eq!(scope, "keyword.control");
}

#[test]
fn test_scope_from_highlights_empty() {
    let scope = scope_from_highlights(&[]);
    assert_eq!(scope, "");
}

#[test]
fn test_scope_from_highlights_three_levels() {
    let scope = scope_from_highlights(&["entity", "name", "function"]);
    assert_eq!(scope, "entity.name.function");
}

#[test]
fn test_token_parser_no_features_by_default() {
    let parser = TokenParser::new();
    assert!(parser.supported_languages().is_empty());
}

#[test]
fn test_token_parser_unsupported_language() {
    let parser = TokenParser::new();
    let result = parser.parse_tokens("fn main() {}", "rust", OffsetEncoding::Utf8);
    assert!(result.is_err());
    match result.unwrap_err() {
        ParseError::UnsupportedLanguage(lang) => assert_eq!(lang, "rust"),
        other => panic!("expected UnsupportedLanguage, got {}", other.to_string()),
    }
}

#[test]
fn test_token_parser_empty_input() {
    let parser = TokenParser::new();
    let result = parser.parse_tokens("", "rust", OffsetEncoding::Utf8);
    assert!(result.is_err());
}

#[test]
fn test_token_parser_unknown_language_ids() {
    let parser = TokenParser::new();
    for id in &["brainfuck", "cobol", "fortran", "haskell", "zig"] {
        let result = parser.parse_tokens("", id, OffsetEncoding::Utf8);
        assert!(result.is_err());
    }
}

// Columns count bytes or UTF-16 code units.
#[test]
fn columns_by_encoding() {
    let text = "é😀x";
    let p8 = byte_offset_to_position(text, 6, OffsetEncoding::Utf8);
    let p16 = byte_offset_to_position(text, 6, OffsetEncoding::Utf16);
    assert_eq!(p8.column, 6);
    assert_eq!(p16.column, 3);
    let end = byte_offset_to_position(text, 7, OffsetEncoding::Utf16);
    assert_eq!(end.column, 4);
}

#[test]
fn parse_error_messages() {
    assert_eq!(
        ParseError::UnsupportedLanguage("zig".into()).to_string(),
        "unsupported language: zig"
    );
    assert_eq!(
        ParseError::ParseFailed { language: "rust".into(), message: "bad".into() }.to_string(),
        "tree-sitter parsing failed for language 'rust': bad"
    );
}

// Highlight events become tokens: each ended capture over a non-empty span
// gives one token, scoped by its capture name.
#[test]
fn highlight_events_to_tokens() {
    let text = "fn main() {}\nlet x";
    let names = ["keyword", "function"];
    let events = vec![
        HighlightEvent::Source { start: 0, end: 0 },
        HighlightEvent::HighlightStart(0),
        HighlightEvent::Source { start: 0, end: 2 },
        HighlightEvent::HighlightEnd,
        HighlightEvent::Source { start: 3, end: 3 },
        HighlightEvent::HighlightStart(1),
        HighlightEvent::Source { start: 3, end: 7 },
        HighlightEvent::HighlightEnd,
        HighlightEvent::Source { start: 13, end: 13 },
        HighlightEvent::HighlightStart(7),
        HighlightEvent::Source { start: 13, end: 16 },
        HighlightEvent::HighlightEnd,
        HighlightEvent::HighlightEnd,
    ];
    let tokens = tokens_from_highlights(text, &events, &names, OffsetEncoding::Utf8);
    assert_eq!(tokens.len(), 4);
    assert_eq!(tokens[0].text, "fn");
    assert_eq!(tokens[0].scope, "keyword");
    assert_eq!(tokens[1].text, "main");
    assert_eq!(tokens[1].scope, "function");
    assert_eq!(tokens[1].range.start.column, 3);
    assert_eq!(tokens[1].range.end.column, 7);
    assert_eq!(tokens[2].text, "let");
    assert_eq!(tokens[2].scope, "unknown");
    assert_eq!(tokens[2].range.start.line, 1);
    // An end with no open capture still closes the current span, unscoped.
    assert_eq!(tokens[3].text, "let");
    assert_eq!(tokens[3].scope, "");
}

// A span that does not fall on character boundaries gives no token.
#[test]
fn highlight_span_off_boundary_is_dropped() {
    let text = "é";
    let events = vec![
        HighlightEvent::HighlightStart(0),
        HighlightEvent::Source { start: 0, end: 1 },
        HighlightEvent::HighlightEnd,
    ];
    let tokens = tokens_from_highlights(text, &events, &["x"], OffsetEncoding::Utf8);
    assert!(tokens.is_empty());
}

// A newline at the offset belongs to the line it ends: the offset of the
// newline itself is still on that line, just past its last character.
#[test]
fn position_at_a_newline_stays_on_its_line() {
    let text = "ab\ncd";
    let pos = byte_offset_to_position(text, 2, OffsetEncoding::Utf8);
    assert_eq!((pos.line, pos.column), (0, 2));
    let pos = byte_offset_to_position(text, 3, OffsetEncoding::Utf8);
    assert_eq!((pos.line, pos.column), (1, 0));
    let pos = byte_offset_to_position("é\nx", 2, OffsetEncoding::Utf16);
    assert_eq!((pos.line, pos.column), (0, 1));
    let pos = byte_offset_to_position("\n\n", 1, OffsetEncoding::Utf8);
    assert_eq!((pos.line, pos.column), (1, 0));
}
