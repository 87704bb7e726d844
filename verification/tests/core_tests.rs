use polyfont::engine::{PolyfontEngine, ScopeMatchEngine};
use polyfont::error::PolyfontError;
use polyfont::font::{AxisValue, FontRule, FontSpec, FontStyle, FontWeight, NamedAxis};
use polyfont::token::{Position, Range, TokenInfo};

fn rule(scope: &str, family: &str) -> FontRule {
    FontRule {
        scope: scope.to_string(),
        font: FontSpec::default_font(family),
    }
}

fn token(text: &str, scope: &str, line: u32, column: u32) -> TokenInfo {
    TokenInfo {
        text: text.to_string(),
        range: Range {
            start: Position { line, column },
            end: Position {
                line,
                column: column + text.len() as u32,
            },
        },
        scope: scope.to_string(),
        modifiers: vec![],
    }
}

#[test]
fn test_specificity_single() {
    let rule = FontRule {
        scope: "keyword".to_string(),
        font: FontSpec::default_font("F"),
    };
    assert_eq!(rule.specificity(), 1);
}

#[test]
fn test_specificity_dotted() {
    let rule = FontRule {
        scope: "entity.name.function".to_string(),
        font: FontSpec::default_font("F"),
    };
    assert_eq!(rule.specificity(), 3);
}

#[test]
fn test_specificity_wildcard() {
    let rule = FontRule {
        scope: "*".to_string(),
        font: FontSpec::default_font("F"),
    };
    assert_eq!(rule.specificity(), 1);
}

#[test]
fn test_font_spec_default() {
    let spec = FontSpec::default_font("Test");
    assert_eq!(spec.family, "Test");
    assert!(spec.fallbacks.is_empty());
    assert_eq!(spec.weight, FontWeight::Regular);
    assert_eq!(spec.style, FontStyle::Normal);
    assert!(spec.size.is_none());
    assert!(spec.axes.is_empty());
}

#[test]
fn test_named_axis_tags() {
    assert_eq!(NamedAxis::Weight.tag(), "wght");
    assert_eq!(NamedAxis::Width.tag(), "wdth");
    assert_eq!(NamedAxis::Slant.tag(), "slnt");
    assert_eq!(NamedAxis::OpticalSize.tag(), "opsz");
    assert_eq!(NamedAxis::Italic.tag(), "ital");
}

#[test]
fn test_axis_value_custom() {
    let av = AxisValue::Custom {
        tag: "CASL".to_string(),
        value: 0.5f32.to_bits(),
    };
    assert_eq!(av.tag(), "CASL");
    assert!((f32::from_bits(av.value()) - 0.5).abs() < f32::EPSILON);
}

#[test]
fn test_font_weight_display() {
    assert_eq!(FontWeight::Thin.to_string(), "thin");
    assert_eq!(FontWeight::ExtraLight.to_string(), "extra-light");
    assert_eq!(FontWeight::Light.to_string(), "light");
    assert_eq!(FontWeight::Regular.to_string(), "regular");
    assert_eq!(FontWeight::Medium.to_string(), "medium");
    assert_eq!(FontWeight::SemiBold.to_string(), "semi-bold");
    assert_eq!(FontWeight::Bold.to_string(), "bold");
    assert_eq!(FontWeight::ExtraBold.to_string(), "extra-bold");
    assert_eq!(FontWeight::Black.to_string(), "black");
}

#[test]
fn test_font_style_display() {
    assert_eq!(FontStyle::Normal.to_string(), "normal");
    assert_eq!(FontStyle::Italic.to_string(), "italic");
    assert_eq!(FontStyle::Oblique.to_string(), "oblique");
}

#[test]
fn test_new_engine_has_no_rules() {
    let engine = ScopeMatchEngine::new();
    assert!(engine.rules().is_empty());
}

#[test]
fn test_add_rule() {
    let mut engine = ScopeMatchEngine::new();
    engine.add_rule(FontRule {
        scope: "keyword".to_string(),
        font: FontSpec::default_font("TestFont"),
    });
    assert_eq!(engine.rules().len(), 1);
}

#[test]
fn test_remove_rule() {
    let mut engine = ScopeMatchEngine::new();
    engine.add_rule(FontRule {
        scope: "keyword".to_string(),
        font: FontSpec::default_font("TestFont"),
    });
    engine.remove_rule("keyword");
    assert!(engine.rules().is_empty());
}

#[test]
fn test_scope_matches_exact() {
    assert!(ScopeMatchEngine::scope_matches("keyword", "keyword"));
}

#[test]
fn test_scope_matches_hierarchical() {
    assert!(ScopeMatchEngine::scope_matches("keyword.control", "keyword"));
    assert!(ScopeMatchEngine::scope_matches("entity.name.function", "entity"));
    assert!(ScopeMatchEngine::scope_matches("entity.name.function", "entity.name"));
}

#[test]
fn test_scope_matches_wildcard() {
    assert!(ScopeMatchEngine::scope_matches("anything", "*"));
    assert!(ScopeMatchEngine::scope_matches("keyword.control", "*"));
}

#[test]
fn test_scope_no_false_positive() {
    assert!(!ScopeMatchEngine::scope_matches("keyword", "keyword.control"));
    assert!(!ScopeMatchEngine::scope_matches("keywordx", "keyword"));
}

#[test]
fn test_resolve_token_most_specific_wins() {
    let mut engine = ScopeMatchEngine::new();
    engine.add_rule(FontRule {
        scope: "keyword".to_string(),
        font: FontSpec::default_font("FontA"),
    });
    engine.add_rule(FontRule {
        scope: "keyword.control".to_string(),
        font: FontSpec::default_font("FontB"),
    });
    let token = TokenInfo {
        text: "if".to_string(),
        range: Range {
            start: Position { line: 0, column: 0 },
            end: Position { line: 0, column: 2 },
        },
        scope: "keyword.control".to_string(),
        modifiers: vec![],
    };
    let result = engine.resolve_token(&token).unwrap();
    assert_eq!(result.font.family, "FontB");
}

#[test]
fn test_resolve_all() {
    let mut engine = ScopeMatchEngine::new();
    engine.add_rule(FontRule {
        scope: "keyword".to_string(),
        font: FontSpec::default_font("FontA"),
    });
    let tokens = vec![
        TokenInfo {
            text: "fn".to_string(),
            range: Range {
                start: Position { line: 0, column: 0 },
                end: Position { line: 0, column: 2 },
            },
            scope: "keyword".to_string(),
            modifiers: vec![],
        },
        TokenInfo {
            text: "x".to_string(),
            range: Range {
                start: Position { line: 0, column: 3 },
                end: Position { line: 0, column: 4 },
            },
            scope: "variable".to_string(),
            modifiers: vec![],
        },
    ];
    let results = engine.resolve_all(&tokens);
    let matched: Vec<_> = results.iter().flatten().collect();
    assert_eq!(matched.len(), 1);
    assert_eq!(matched[0].scope, "keyword");
}

#[test]
fn test_clear() {
    let mut engine = ScopeMatchEngine::new();
    engine.add_rule(FontRule {
        scope: "keyword".to_string(),
        font: FontSpec::default_font("FontA"),
    });
    engine.clear();
    assert!(engine.rules().is_empty());
}

// Rules stay ordered by specificity whatever order they are added in, and
// equally specific rules keep their order of addition.
#[test]
fn engine_keeps_rules_sorted_and_stable() {
    let mut engine = ScopeMatchEngine::new();
    engine.add_rule(rule("keyword", "A"));
    engine.add_rule(rule("entity.name.function", "B"));
    engine.add_rule(rule("string", "C"));
    engine.add_rule(rule("keyword.control", "D"));
    let families: Vec<&str> = engine.rules().iter().map(|r| r.font.family.as_str()).collect();
    assert_eq!(families, vec!["B", "D", "A", "C"]);
}

// The catch-all `*` is as specific as a one-segment scope, so among those
// the earlier rule stays first.
#[test]
fn engine_from_rules_sorts_like_adding() {
    let engine = ScopeMatchEngine::from_rules(vec![
        rule("*", "Z"),
        rule("comment", "C"),
        rule("comment.line.double-slash", "L"),
    ]);
    let scopes: Vec<&str> = engine.rules().iter().map(|r| r.scope.as_str()).collect();
    assert_eq!(scopes, vec!["comment.line.double-slash", "*", "comment"]);
}

#[test]
fn engine_resolution_reports_specificity_and_none() {
    let engine = ScopeMatchEngine::from_rules(vec![rule("comment", "C"), rule("comment.line", "L")]);
    let a = engine.resolve_token(&token("// x", "comment.line.double-slash", 0, 0)).unwrap();
    assert_eq!(a.font.family, "L");
    assert_eq!(a.specificity, 2);
    assert!(a.is_active);
    assert!(engine.resolve_token(&token("x", "variable", 0, 0)).is_none());
}

#[test]
fn engine_remove_rule_only_removes_exact_scope() {
    let mut engine = ScopeMatchEngine::from_rules(vec![rule("keyword", "A"), rule("keyword.control", "B")]);
    engine.remove_rule("keyword");
    assert_eq!(engine.rules().len(), 1);
    assert_eq!(engine.rules()[0].scope, "keyword.control");
}

#[test]
fn polyfont_error_messages() {
    assert_eq!(PolyfontError::Config("x".to_string()).to_string(), "Configuration error: x");
    assert_eq!(PolyfontError::FontNotFound("F".to_string()).to_string(), "Font not found: F");
    assert_eq!(PolyfontError::InvalidScope("s".to_string()).to_string(), "Invalid scope pattern: s");
    assert_eq!(PolyfontError::Io("e".to_string()).to_string(), "IO error: e");
    assert_eq!(PolyfontError::Parse("p".to_string()).to_string(), "Parse error: p");
}
