use polyfont::engine::ScopeMatchEngine;
use polyfont::font::{FontRule, FontSpec, FontStyle, FontWeight};
use polyfont::lsp::{
    build_assignment_entries, classify_line, default_style, default_weight, font_pairings,
    is_default_style, is_default_weight, language_id_from_uri, tokenize_document,
    tokenize_document_naive, FontInfo,
};
use polyfont::lsp::state::ServerState;
use polyfont::token::{Position, Range, TokenInfo};
use polyfont::config::{DefaultFontConfig, FontConfig, PolyfontConfig, RuleConfig};

#[test]
fn test_language_id_rust() {
    assert_eq!(language_id_from_uri("file:///home/user/src/main.rs"), "rust");
    assert_eq!(language_id_from_uri("main.rs"), "rust");
}

#[test]
fn test_language_id_typescript() {
    assert_eq!(language_id_from_uri("app.tsx"), "typescript");
    assert_eq!(language_id_from_uri("app.ts"), "typescript");
}

#[test]
fn test_language_id_javascript() {
    assert_eq!(language_id_from_uri("app.jsx"), "javascript");
    assert_eq!(language_id_from_uri("app.js"), "javascript");
}

#[test]
fn test_language_id_python() {
    assert_eq!(language_id_from_uri("script.py"), "python");
}

#[test]
fn test_language_id_go() {
    assert_eq!(language_id_from_uri("main.go"), "go");
}

#[test]
fn test_language_id_c_cpp() {
    assert_eq!(language_id_from_uri("main.c"), "c");
    assert_eq!(language_id_from_uri("main.cpp"), "cpp");
    assert_eq!(language_id_from_uri("header.hpp"), "cpp");
    assert_eq!(language_id_from_uri("header.h"), "cpp");
}

#[test]
fn test_language_id_config() {
    assert_eq!(language_id_from_uri("Cargo.toml"), "toml");
    assert_eq!(language_id_from_uri("data.json"), "json");
}

#[test]
fn test_language_id_lua() {
    assert_eq!(language_id_from_uri("init.lua"), "lua");
}

#[test]
fn test_language_id_unknown() {
    assert_eq!(language_id_from_uri("readme"), "unknown");
    assert_eq!(language_id_from_uri("file.xyz"), "unknown");
}

#[test]
fn test_classify_comment() {
    assert_eq!(classify_line("// hello"), "comment");
    assert_eq!(classify_line("/// doc comment"), "comment");
    assert_eq!(classify_line("# comment"), "comment");
}

#[test]
fn test_classify_string() {
    assert_eq!(classify_line("\"hello\""), "string");
    assert_eq!(classify_line("'c'"), "string");
    assert_eq!(classify_line("`template`"), "string");
}

#[test]
fn test_classify_function() {
    assert_eq!(classify_line("fn main()"), "entity.name.function");
    assert_eq!(classify_line("function foo()"), "entity.name.function");
    assert_eq!(classify_line("def bar()"), "entity.name.function");
    assert_eq!(classify_line("pub fn baz()"), "entity.name.function");
    assert_eq!(classify_line("async fn qux()"), "entity.name.function");
}

#[test]
fn test_classify_variable() {
    assert_eq!(classify_line("let x = 1"), "variable");
    assert_eq!(classify_line("const Y = 2"), "variable");
    assert_eq!(classify_line("var z = 3"), "variable");
    assert_eq!(classify_line("let mut a = 4"), "variable");
}

#[test]
fn test_classify_type() {
    assert_eq!(classify_line("struct Foo"), "entity.name.type");
    assert_eq!(classify_line("enum Bar"), "entity.name.type");
    assert_eq!(classify_line("class Baz"), "entity.name.type");
    assert_eq!(classify_line("interface Qux"), "entity.name.type");
    assert_eq!(classify_line("type Alias = i32"), "entity.name.type");
    assert_eq!(classify_line("impl Display"), "entity.name.type");
    assert_eq!(classify_line("trait Clone"), "entity.name.type");
}

#[test]
fn test_classify_keyword() {
    assert_eq!(classify_line("use std::io"), "keyword");
    assert_eq!(classify_line("import foo"), "keyword");
    assert_eq!(classify_line("from bar import baz"), "keyword");
    assert_eq!(classify_line("mod tests"), "keyword");
}

#[test]
fn test_classify_control_flow() {
    assert_eq!(classify_line("if x > 0"), "keyword.control");
    assert_eq!(classify_line("else"), "keyword.control");
    assert_eq!(classify_line("for i in 0..10"), "keyword.control");
    assert_eq!(classify_line("while true"), "keyword.control");
    assert_eq!(classify_line("return"), "keyword.control");
    assert_eq!(classify_line("break"), "keyword.control");
    assert_eq!(classify_line("continue"), "keyword.control");
}

#[test]
fn test_classify_source_fallback() {
    assert_eq!(classify_line("x + y"), "source");
    assert_eq!(classify_line("println!(\"hello\")"), "source");
}

#[test]
fn test_tokenize_naive_empty() {
    let tokens = tokenize_document_naive("");
    assert!(tokens.is_empty());
}

#[test]
fn test_tokenize_naive_blank_lines() {
    let tokens = tokenize_document_naive("\n\n  \n");
    assert!(tokens.is_empty());
}

#[test]
fn test_tokenize_naive_single_line() {
    let tokens = tokenize_document_naive("fn main()");
    assert_eq!(tokens.len(), 1);
    assert_eq!(tokens[0].scope, "entity.name.function");
    assert_eq!(tokens[0].range.start.line, 0);
    assert_eq!(tokens[0].range.start.column, 0);
}

#[test]
fn test_tokenize_naive_multiline() {
    let code = "fn foo()\nlet x = 1\n// comment\n";
    let tokens = tokenize_document_naive(code);
    assert_eq!(tokens.len(), 3);
    assert_eq!(tokens[0].scope, "entity.name.function");
    assert_eq!(tokens[1].scope, "variable");
    assert_eq!(tokens[2].scope, "comment");
    assert_eq!(tokens[0].range.start.line, 0);
    assert_eq!(tokens[1].range.start.line, 1);
    assert_eq!(tokens[2].range.start.line, 2);
}

#[test]
fn test_tokenize_naive_indentation_preserved() {
    let tokens = tokenize_document_naive("    let x = 1");
    assert_eq!(tokens.len(), 1);
    assert_eq!(tokens[0].range.start.column, 4);
    assert_eq!(tokens[0].text, "let x = 1");
}

#[test]
fn test_font_info_from_spec() {
    let spec = FontSpec {
        family: "Fira Code".to_string(),
        fallbacks: vec!["monospace".to_string()],
        weight: FontWeight::Bold,
        style: FontStyle::Italic,
        size: None,
        axes: vec![],
    };
    let info = FontInfo::from(&spec);
    assert_eq!(info.family, "Fira Code");
    assert_eq!(info.fallbacks, vec!["monospace"]);
    assert_eq!(info.weight, "bold");
    assert_eq!(info.style, "italic");
}

#[test]
fn test_build_assignment_entries_matching() {
    let engine = ScopeMatchEngine::from_rules(vec![FontRule {
        scope: "keyword".to_string(),
        font: FontSpec::default_font("Maple Mono"),
    }]);
    let tokens = vec![TokenInfo {
        text: "fn".to_string(),
        range: Range {
            start: Position { line: 0, column: 0 },
            end: Position { line: 0, column: 2 },
        },
        scope: "keyword".to_string(),
        modifiers: vec![],
    }];
    let entries = build_assignment_entries(&engine, &tokens);
    assert_eq!(entries.len(), 1);
    assert_eq!(entries[0].font.family, "Maple Mono");
    assert_eq!(entries[0].scope, "keyword");
    assert_eq!(entries[0].range.start.line, 0);
    assert_eq!(entries[0].range.start.character, 0);
}

#[test]
fn test_build_assignment_entries_no_match() {
    let engine = ScopeMatchEngine::from_rules(vec![]);
    let tokens = vec![TokenInfo {
        text: "x".to_string(),
        range: Range {
            start: Position { line: 0, column: 0 },
            end: Position { line: 0, column: 1 },
        },
        scope: "variable".to_string(),
        modifiers: vec![],
    }];
    let entries = build_assignment_entries(&engine, &tokens);
    assert!(entries.is_empty());
}

#[test]
fn test_font_pairings_not_empty() {
    let pairings = font_pairings();
    assert!(!pairings.is_empty());
    for (scope, family, reason, category) in &pairings {
        assert!(!scope.is_empty(), "scope should not be empty");
        assert!(!family.is_empty(), "family should not be empty");
        assert!(!reason.is_empty(), "reason should not be empty");
        assert!(!category.is_empty(), "category should not be empty");
    }
}

// Token columns count UTF-16 code units: the end column is the start plus
// the trimmed line's length in UTF-16, and a carriage return before a
// newline is not part of the line.
#[test]
fn tokenize_naive_utf16_columns_and_crlf() {
    let tokens = tokenize_document_naive("  let é = 1  \r\n\tfn x()\r\n");
    assert_eq!(tokens.len(), 2);
    assert_eq!(tokens[0].text, "let é = 1");
    assert_eq!(tokens[0].range.start.column, 2);
    assert_eq!(tokens[0].range.end.column, 2 + 9);
    assert_eq!(tokens[1].range.start.line, 1);
    assert_eq!(tokens[1].range.start.column, 1);
    assert_eq!(tokens[1].scope, "entity.name.function");
    let wide = tokenize_document_naive("\u{3000}// 😀");
    assert_eq!(wide[0].text, "// 😀");
    assert_eq!(wide[0].range.start.column, 1);
    assert_eq!(wide[0].range.end.column, 1 + 5);
    assert_eq!(wide[0].scope, "comment");
}

// With no grammar compiled in, every document gets the line tokens.
#[test]
fn tokenize_document_falls_back_to_lines() {
    let doc = "use x\n\nstruct S";
    let a = tokenize_document(doc, "file:///a/b.rs");
    let b = tokenize_document_naive(doc);
    assert_eq!(a.len(), b.len());
    for (x, y) in a.iter().zip(b.iter()) {
        assert_eq!(x.text, y.text);
        assert_eq!(x.scope, y.scope);
        assert_eq!(x.range, y.range);
    }
}

#[test]
fn language_id_uses_last_segment() {
    assert_eq!(language_id_from_uri("file:///dir.rs/readme"), "unknown");
    assert_eq!(language_id_from_uri("archive.tar.lua"), "lua");
    assert_eq!(language_id_from_uri("file:///x/.cc"), "cpp");
}

#[test]
fn default_weight_and_style() {
    assert_eq!(default_weight(), "regular");
    assert!(is_default_weight("regular"));
    assert!(!is_default_weight("bold"));
    assert_eq!(default_style(), "normal");
    assert!(is_default_style("normal"));
    assert!(!is_default_style("italic"));
}

#[test]
fn assignment_entries_skip_unmatched_tokens() {
    let engine = ScopeMatchEngine::from_rules(vec![FontRule {
        scope: "comment".to_string(),
        font: FontSpec::default_font("IBM Plex Mono"),
    }]);
    let tokens = tokenize_document_naive("// a\nx + y\n# b");
    let entries = build_assignment_entries(&engine, &tokens);
    assert_eq!(entries.len(), 2);
    assert_eq!(entries[1].range.start.line, 2);
    assert_eq!(entries[1].font.weight, "regular");
    assert_eq!(entries[1].font.style, "normal");
}

fn server_config() -> PolyfontConfig {
    PolyfontConfig {
        version: 1,
        default: Some(DefaultFontConfig {
            family: "Fira Code".to_string(),
            fallbacks: vec![],
            weight: FontWeight::default(),
            style: FontStyle::default(),
            size: None,
            axes: vec![],
        }),
        rules: vec![RuleConfig {
            scope: "comment".to_string(),
            font: FontConfig {
                family: "IBM Plex Mono".to_string(),
                fallbacks: vec![],
                weight: FontWeight::default(),
                style: FontStyle::Italic,
                size: None,
                axes: vec![],
            },
        }],
    }
}

// Without rules nothing is sent; once a configuration is in force an open
// document gets one assignment per line, and a closed one none.
#[test]
fn server_state_publishes_for_open_documents() {
    let mut state = ServerState::new();
    assert!(state.workspace_root().is_none());
    state.set_workspace_root("/start".to_string());
    assert_eq!(state.workspace_root(), Some("/start".to_string()));
    state.open_document("file:///a.rs", "rust", 1, "// note\nlet x = 1;\n".to_string());
    assert!(state.assignments_to_publish("file:///a.rs").is_none());
    assert!(state.requested_assignments("file:///a.rs").is_none());

    state.apply_config(server_config(), "/work".to_string());
    assert_eq!(state.workspace_root(), Some("/work".to_string()));
    let sent = state.assignments_to_publish("file:///a.rs").unwrap();
    assert_eq!(sent.uri, "file:///a.rs");
    assert_eq!(sent.assignments.len(), 2);
    assert_eq!(sent.assignments[0].scope, "comment");
    assert_eq!(sent.assignments[0].font.family, "IBM Plex Mono");
    assert_eq!(sent.assignments[0].font.style, "italic");
    assert_eq!(sent.assignments[1].scope, "variable");
    assert_eq!(sent.assignments[1].font.family, "Fira Code");
    assert_eq!(sent.assignments[1].range.start.line, 1);
    let asked = state.requested_assignments("file:///a.rs").unwrap();
    assert_eq!(asked.assignments.len(), 2);

    assert!(state.assignments_to_publish("file:///b.rs").is_none());
    state.close_document("file:///a.rs");
    assert!(state.assignments_to_publish("file:///a.rs").is_none());
    assert!(state.document_uris().is_empty());
}

// A change replaces the text of an open document and is ignored for a
// document that is not open.
#[test]
fn server_state_change_and_shutdown() {
    let mut state = ServerState::new();
    state.apply_config(server_config(), "/work".to_string());
    state.open_document("file:///a.rs", "rust", 1, "let x = 1;".to_string());
    state.change_document("file:///a.rs", 2, Some("// only a comment".to_string()));
    let sent = state.assignments_to_publish("file:///a.rs").unwrap();
    assert_eq!(sent.assignments.len(), 1);
    assert_eq!(sent.assignments[0].scope, "comment");
    state.change_document("file:///b.rs", 2, Some("let y = 2;".to_string()));
    assert_eq!(state.document_uris(), vec!["file:///a.rs".to_string()]);
    state.change_document("file:///a.rs", 3, None);
    assert_eq!(state.assignments_to_publish("file:///a.rs").unwrap().assignments[0].scope, "comment");

    state.shutdown();
    assert!(state.document_uris().is_empty());
    assert!(state.assignments_to_publish("file:///a.rs").is_none());
    assert_eq!(state.workspace_root(), Some("/work".to_string()));
}
