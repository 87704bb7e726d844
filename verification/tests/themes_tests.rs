use polyfont::config::{DefaultFontConfig, FontConfig, PolyfontConfig, RuleConfig};
use polyfont::font::{FontStyle, FontWeight};
use polyfont::themes::accessibility::{AccessibilityChecker, FontCategory};
use polyfont::themes::error::ThemeError;
use polyfont::themes::export::ThemeExporter;
use polyfont::themes::import::{JsonArrayField, ThemeImporter, ThemeJson, ThemeJsonItem};
use polyfont::themes::mapping::{build_config_from_entries, parse_font_style, FontMapping};
use polyfont::themes::registry::ThemeRegistry;

fn item(scope: Option<&str>, style: Option<&str>) -> ThemeJsonItem {
    ThemeJsonItem {
        scope: scope.map(|s| s.to_string()),
        font_style: style.map(|s| s.to_string()),
    }
}

#[test]
fn test_recommend_dyslexia_fonts_not_empty() {
    let recs = AccessibilityChecker::recommend_dyslexia_fonts();
    assert!(!recs.is_empty());
    assert!(recs.iter().any(|r| r.family == "OpenDyslexic"));
    assert!(recs.iter().any(|r| r.family == "Atkinson Hyperlegible"));
    assert!(recs.iter().any(|r| r.family == "Lexend"));
    assert!(recs.iter().any(|r| r.family == "Comic Neue"));
    assert!(recs.iter().any(|r| r.family == "Read Regular"));
}

#[test]
fn test_check_contrast_similar_fonts() {
    let result = AccessibilityChecker::check_contrast_between_fonts("Fira Code", "Fira Mono");
    assert!(result.fonts_similar);
    assert!(result.recommendation.is_some());
}

#[test]
fn test_check_contrast_different_fonts() {
    let result = AccessibilityChecker::check_contrast_between_fonts("Fira Code", "Comic Neue");
    assert!(!result.fonts_similar);
    assert!(result.recommendation.is_none());
}

#[test]
fn default_mapping_has_all_required_entries() {
    let m = FontMapping::default_mapping();
    let required = [
        "keyword",
        "comment",
        "string",
        "entity.name.function",
        "entity.name.type",
        "variable",
        "constant",
        "support.function",
        "storage.type",
    ];
    for scope in &required {
        assert!(m.contains_scope(scope), "missing scope: {scope}");
    }
    assert!(m.default_family.is_some());
}

#[test]
fn prefix_match_falls_back() {
    let m = FontMapping::default_mapping();
    assert_eq!(m.resolve_family("entity.name.function.decl"), "Monaspace Argon");
}

#[test]
fn default_used_for_unknown_scope() {
    let m = FontMapping::default_mapping();
    assert_eq!(m.resolve_family("unknown.scope"), "JetBrains Mono");
}

#[test]
fn parse_font_style_bold_italic() {
    let (w, s) = parse_font_style("bold italic");
    assert_eq!(w, FontWeight::Bold);
    assert_eq!(s, FontStyle::Italic);
}

#[test]
fn parse_font_style_empty() {
    let (w, s) = parse_font_style("");
    assert_eq!(w, FontWeight::Regular);
    assert_eq!(s, FontStyle::Normal);
}

#[test]
fn lists_all_five_themes() {
    let registry = ThemeRegistry;
    let themes = registry.list_themes();
    assert_eq!(themes.len(), 5);
    let names: Vec<&str> = themes.iter().map(|t| t.name.as_str()).collect();
    assert!(names.contains(&"monaspace"));
    assert!(names.contains(&"serif-mono"));
    assert!(names.contains(&"weight-differentiated"));
    assert!(names.contains(&"minimal"));
    assert!(names.contains(&"maximal"));
}

#[test]
fn get_theme_returns_correct_theme() {
    let registry = ThemeRegistry;
    let theme = registry.get_theme("monaspace").unwrap();
    assert_eq!(theme.name, "monaspace");
}

#[test]
fn get_theme_returns_none_for_unknown() {
    let registry = ThemeRegistry;
    assert!(registry.get_theme("nonexistent").is_none());
}

#[test]
fn all_builtin_themes_are_valid() {
    let registry = ThemeRegistry;
    for info in registry.list_themes() {
        let theme = registry.get_theme(&info.name).unwrap();
        assert!(theme.config.validate().is_ok(), "theme '{}' failed validation", info.name);
    }
}

#[test]
fn maximal_has_seventeen_plus_rules() {
    let registry = ThemeRegistry;
    let theme = registry.get_theme("maximal").unwrap();
    assert!(theme.config.rules.len() >= 17, "maximal theme has {} rules, expected >= 17", theme.config.rules.len());
}

#[test]
fn minimal_has_four_rules() {
    let registry = ThemeRegistry;
    let theme = registry.get_theme("minimal").unwrap();
    assert_eq!(theme.config.rules.len(), 4);
}

#[test]
fn import_vscode_theme_basic() {
    let json = r#"{
            "tokenColors": [
                { "scope": "keyword", "settings": { "fontStyle": "bold" } },
                { "scope": "comment", "settings": { "fontStyle": "italic" } },
                { "scope": "string", "settings": {} }
            ]
        }"#;
    let importer = ThemeImporter;
    let mapping = FontMapping::default_mapping();
    let config = importer.import_vscode_theme(json, &mapping).unwrap();
    assert_eq!(config.version, 1);
    assert!(config.default.is_some());
    assert_eq!(config.rules.len(), 3);
    assert_eq!(config.rules[0].scope, "keyword");
    assert_eq!(config.rules[0].font.family, "Maple Mono");
    assert_eq!(config.rules[0].font.weight, FontWeight::Bold);
    assert_eq!(config.rules[1].scope, "comment");
    assert_eq!(config.rules[1].font.style, FontStyle::Italic);
    assert_eq!(config.rules[2].scope, "string");
    assert_eq!(config.rules[2].font.family, "Source Code Pro");
}

#[test]
fn import_vscode_theme_multi_scope() {
    let json = r#"{
            "tokenColors": [
                { "scope": "keyword,storage", "settings": { "fontStyle": "bold" } }
            ]
        }"#;
    let importer = ThemeImporter;
    let mapping = FontMapping::default_mapping();
    let config = importer.import_vscode_theme(json, &mapping).unwrap();
    assert_eq!(config.rules.len(), 2);
    assert_eq!(config.rules[0].scope, "keyword");
    assert_eq!(config.rules[1].scope, "storage");
}

#[test]
fn import_vscode_theme_invalid_json() {
    let importer = ThemeImporter;
    let mapping = FontMapping::default_mapping();
    let result = importer.import_vscode_theme("not json", &mapping);
    assert!(result.is_err());
}

#[test]
fn import_vscode_theme_missing_token_colors() {
    let json = r#"{"name": "test"}"#;
    let importer = ThemeImporter;
    let mapping = FontMapping::default_mapping();
    let result = importer.import_vscode_theme(json, &mapping);
    assert!(result.is_err());
}

// The same document read from text and built by hand gives the same
// configuration; text that is not JSON is a JSON error, and a document whose
// token list is missing is a validation error.
#[test]
fn import_vscode_theme_from_text_and_document() {
    let mapping = FontMapping::default_mapping();
    let json = r#"{"settings": [ {"settings": {"fontStyle": "italic"}}, {"scope": " , variable ", "settings": {"fontStyle": 3}} ]}"#;
    let from_text = ThemeImporter.import_vscode_theme(json, &mapping).unwrap();
    let doc = ThemeJson {
        token_colors: JsonArrayField::Missing,
        settings: JsonArrayField::Items(vec![item(None, Some("italic")), item(Some(" , variable "), None)]),
    };
    let from_doc = ThemeImporter.import_vscode_document(&doc, &mapping).unwrap();
    assert_eq!(from_text.rules.len(), 2);
    assert_eq!(from_text.rules.len(), from_doc.rules.len());
    assert_eq!(from_text.rules[0].scope, "*");
    assert_eq!(from_text.rules[0].font.style, FontStyle::Italic);
    assert_eq!(from_text.rules[1].scope, from_doc.rules[1].scope);
    assert!(matches!(ThemeImporter.import_vscode_theme("{", &mapping), Err(ThemeError::Json(_))));
    match ThemeImporter.import_vscode_theme(r#"{"tokenColors": 5, "settings": []}"#, &mapping) {
        Err(ThemeError::Validation(m)) => assert_eq!(m, "missing tokenColors array"),
        _ => panic!("expected a validation error"),
    }
}

#[test]
fn import_textmate_theme_simple() {
    let xml = r#"<?xml version="1.0" encoding="UTF-8"?>
<plist version="1.0">
<dict>
    <key>settings</key>
    <array>
        <dict>
            <key>scope</key>
            <string>keyword</string>
            <key>settings</key>
            <dict>
                <key>fontStyle</key>
                <string>bold</string>
            </dict>
        </dict>
        <dict>
            <key>scope</key>
            <string>comment</string>
            <key>settings</key>
            <dict>
                <key>fontStyle</key>
                <string>italic</string>
            </dict>
        </dict>
    </array>
</dict>
</plist>"#;
    let importer = ThemeImporter;
    let mapping = FontMapping::default_mapping();
    let config = importer.import_textmate_theme(xml, &mapping).unwrap();
    assert_eq!(config.version, 1);
    assert!(config.default.is_some());
    assert_eq!(config.rules.len(), 2);
    assert_eq!(config.rules[0].scope, "keyword");
    assert_eq!(config.rules[0].font.weight, FontWeight::Bold);
    assert_eq!(config.rules[1].scope, "comment");
    assert_eq!(config.rules[1].font.style, FontStyle::Italic);
}

#[test]
fn import_vscode_theme_validates() {
    let json = r#"{
            "tokenColors": [
                { "scope": "keyword", "settings": { "fontStyle": "bold" } }
            ]
        }"#;
    let importer = ThemeImporter;
    let mapping = FontMapping::default_mapping();
    let config = importer.import_vscode_theme(json, &mapping).unwrap();
    assert!(config.validate().is_ok());
}

// The older `settings` member is used when `tokenColors` is absent, but not
// when `tokenColors` is present with the wrong type; an item without a
// scope stands for every scope.
#[test]
fn import_vscode_settings_fallback() {
    let mapping = FontMapping::default_mapping();
    let doc = ThemeJson {
        token_colors: JsonArrayField::Missing,
        settings: JsonArrayField::Items(vec![item(None, Some("italic")), item(Some(" , variable "), None)]),
    };
    let config = ThemeImporter.import_vscode_document(&doc, &mapping).unwrap();
    assert_eq!(config.rules.len(), 2);
    assert_eq!(config.rules[0].scope, "*");
    assert_eq!(config.rules[0].font.style, FontStyle::Italic);
    assert_eq!(config.rules[1].scope, "variable");
    let bad = ThemeJson { token_colors: JsonArrayField::NotArray, settings: JsonArrayField::Items(vec![]) };
    match ThemeImporter.import_vscode_document(&bad, &mapping) {
        Err(ThemeError::Validation(m)) => assert_eq!(m, "missing tokenColors array"),
        _ => panic!("expected a validation error"),
    }
}

// A TextMate scope with a blank value is skipped; a font style under the
// `<string>fontStyle</string>` spelling is read too.
#[test]
fn import_textmate_edge_cases() {
    let xml = "<key>scope</key><string>  </string><key>scope</key><string>string.quoted</string>\
               <string>fontStyle</string><string>italic bold</string><key>scope</key>";
    let config = ThemeImporter.import_textmate_theme(xml, &FontMapping::default_mapping()).unwrap();
    assert_eq!(config.rules.len(), 1);
    assert_eq!(config.rules[0].scope, "string.quoted");
    assert_eq!(config.rules[0].font.family, "Source Code Pro");
    assert_eq!(config.rules[0].font.weight, FontWeight::Bold);
    assert_eq!(config.rules[0].font.style, FontStyle::Italic);
}

#[test]
fn mapping_resolution_order() {
    let m = FontMapping {
        scope_fonts: vec![
            ("a.b".to_string(), "AB".to_string()),
            ("a".to_string(), "A".to_string()),
            ("a.b".to_string(), "Second".to_string()),
        ],
        default_family: None,
    };
    assert_eq!(m.resolve_family("a.b"), "AB");
    assert_eq!(m.resolve_family("a.b.c.d"), "AB");
    assert_eq!(m.resolve_family("a.x"), "A");
    assert_eq!(m.resolve_family("b"), "monospace");
    assert_eq!(m.find_prefix_match("a"), None);
}

#[test]
fn build_config_resolves_each_entry() {
    let m = FontMapping::default_mapping();
    let config = build_config_from_entries(
        vec![("keyword.control".to_string(), "oblique bold".to_string())],
        &m,
    );
    assert_eq!(config.rules[0].font.family, "Maple Mono");
    assert_eq!(config.rules[0].font.weight, FontWeight::Bold);
    assert_eq!(config.rules[0].font.style, FontStyle::Oblique);
    assert_eq!(config.default.as_ref().unwrap().family, "JetBrains Mono");
}

#[test]
fn export_font_style_values() {
    let font = FontConfig {
        family: "X".to_string(),
        fallbacks: vec![],
        weight: FontWeight::Bold,
        style: FontStyle::Italic,
        size: None,
        axes: vec![],
    };
    assert_eq!(ThemeExporter::font_style_values(&font), vec!["bold".to_string(), "italic".to_string()]);
    let plain = FontConfig { weight: FontWeight::Regular, style: FontStyle::Normal, ..font };
    assert!(ThemeExporter::font_style_values(&plain).is_empty());
    assert_eq!(ThemeExporter::config_document("a = 1\n"), "# polyfont config\na = 1\n");
}

#[test]
fn export_vscode_entries_per_rule() {
    let config = PolyfontConfig {
        version: 1,
        default: Some(DefaultFontConfig {
            family: "Fira Code".to_string(),
            fallbacks: vec![],
            weight: FontWeight::Regular,
            style: FontStyle::Normal,
            size: None,
            axes: vec![],
        }),
        rules: vec![RuleConfig {
            scope: "comment".to_string(),
            font: FontConfig {
                family: "IBM Plex Mono".to_string(),
                fallbacks: vec![],
                weight: FontWeight::Regular,
                style: FontStyle::Italic,
                size: None,
                axes: vec![],
            },
        }],
    };
    let entries = ThemeExporter::vscode_entries(&config);
    assert_eq!(entries, vec![("comment".to_string(), vec!["italic".to_string()])]);
}

#[test]
fn similarity_edge_cases() {
    // Generic words do not make fonts alike; distinctive ones do.
    assert!(!AccessibilityChecker::check_contrast_between_fonts("Alpha Mono", "Beta Mono").fonts_similar);
    assert!(AccessibilityChecker::check_contrast_between_fonts("Alpha Neon", "Beta Neon").fonts_similar);
    // Bases of four or more bytes agreeing on their first bytes.
    assert!(AccessibilityChecker::check_contrast_between_fonts("Consolas", "Consola Sans").fonts_similar);
    assert!(!AccessibilityChecker::check_contrast_between_fonts("Monaspace Argon", "Monaco").fonts_similar);
    // A base shorter than four bytes is not compared.
    assert!(!AccessibilityChecker::check_contrast_between_fonts("Inp", "Inputs").fonts_similar);
    // The advice names both fonts.
    assert_eq!(
        AccessibilityChecker::check_contrast_between_fonts("Fira Code", "FIRA CODE").recommendation.unwrap(),
        "Fonts 'Fira Code' and 'FIRA CODE' appear similar. Consider using more visually distinct fonts."
    );
    // A cut inside a character is reported rather than compared.
    assert!(AccessibilityChecker::try_check_contrast("abcdé", "abcdé x").is_some());
    assert!(AccessibilityChecker::try_check_contrast("abcdé1", "abcdx").is_none());
    assert!(AccessibilityChecker::try_check_contrast("Fira Code", "Comic Neue").is_some());
    assert_eq!(FontCategory::DyslexiaFriendly, FontCategory::DyslexiaFriendly);
}

#[test]
fn theme_error_messages() {
    assert_eq!(ThemeError::UnknownTheme("x".into()).to_string(), "unknown theme: x");
    assert_eq!(ThemeError::DownloadDisabled.to_string(), "download feature not enabled");
    assert_eq!(ThemeError::Validation("v".into()).to_string(), "invalid theme: v");
}

fn slots_config(default: Option<&str>, rules: &[&str]) -> PolyfontConfig {
    let font = |family: &str| FontConfig {
        family: family.to_string(),
        fallbacks: vec!["sans-serif".to_string()],
        weight: FontWeight::default(),
        style: FontStyle::default(),
        size: None,
        axes: vec![],
    };
    PolyfontConfig {
        version: 1,
        default: default.map(|d| DefaultFontConfig {
            family: d.to_string(),
            fallbacks: vec![],
            weight: FontWeight::default(),
            style: FontStyle::default(),
            size: None,
            axes: vec![],
        }),
        rules: rules
            .iter()
            .map(|f| RuleConfig { scope: f.to_lowercase(), font: font(f) })
            .collect(),
    }
}

// The families a configuration uses, each once, in order of first use.
#[test]
fn configured_families_in_order() {
    let config = slots_config(Some("Fira Code"), &["Maple Mono", "Fira Code", "IBM Plex Mono", "Maple Mono"]);
    assert_eq!(
        AccessibilityChecker::configured_families(&config),
        vec!["Fira Code", "Maple Mono", "IBM Plex Mono"]
    );
    assert!(AccessibilityChecker::configured_families(&slots_config(None, &[])).is_empty());
}

// More than six families is too many.
#[test]
fn too_many_fonts_over_six() {
    let seven: Vec<String> = ["A", "B", "C", "D", "E", "F", "G"].iter().map(|s| s.to_string()).collect();
    assert_eq!(AccessibilityChecker::too_many_fonts(&seven), Some(7));
    assert_eq!(AccessibilityChecker::too_many_fonts(&seven[..6].to_vec()), None);
}

// Alike pairs in order of the first name, then the second.
#[test]
fn similar_pairs_in_order() {
    let families: Vec<String> = ["Fira Code", "Comic Neue", "Fira Mono", "Monaspace Neon", "Monaspace Argon"]
        .iter()
        .map(|s| s.to_string())
        .collect();
    let pairs = AccessibilityChecker::similar_pairs(&families).unwrap();
    assert_eq!(
        pairs,
        vec![
            ("Fira Code".to_string(), "Fira Mono".to_string()),
            ("Monaspace Neon".to_string(), "Monaspace Argon".to_string()),
        ]
    );
    assert_eq!(AccessibilityChecker::similar_pairs(&vec![]), Some(vec![]));
}

// The default mapping is the built-in one.
#[test]
fn font_mapping_default_is_builtin() {
    let d = FontMapping::default();
    let b = FontMapping::default_mapping();
    assert_eq!(d.scope_fonts, b.scope_fonts);
    assert_eq!(d.default_family, Some("JetBrains Mono".to_string()));
    assert_eq!(d.scope_fonts.len(), 9);
    assert_eq!(d.scope_fonts[0], ("keyword".to_string(), "Maple Mono".to_string()));
}

// A font without fallbacks lacks them; one with any does not.
#[test]
fn missing_fallback_only_when_none() {
    assert!(AccessibilityChecker::missing_fallback(&[]));
    assert!(!AccessibilityChecker::missing_fallback(&["monospace".to_string()]));
}

// Likeness does not depend on the order of the two names.
#[test]
fn contrast_is_symmetric_and_reflexive() {
    for (a, b) in [("Fira Code", "Fira Mono"), ("Fira Code", "Comic Neue"), ("Consolas", "Consola Sans")] {
        let ab = AccessibilityChecker::check_contrast_between_fonts(a, b);
        let ba = AccessibilityChecker::check_contrast_between_fonts(b, a);
        assert_eq!(ab.fonts_similar, ba.fonts_similar);
        assert_eq!(ab.recommendation.is_some(), ab.fonts_similar);
        assert!(AccessibilityChecker::check_contrast_between_fonts(a, a).fonts_similar);
    }
}
