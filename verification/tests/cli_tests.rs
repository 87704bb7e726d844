use polyfont::cli::{
    config_families, dump_scopes, find_known_source, font_family_with_fallbacks, font_preview_svg,
    neovim_rule, style_label, weight_css, weight_label, VscodeRule,
};
use polyfont::config::{DefaultFontConfig, FontConfig, PolyfontConfig, RuleConfig};
use polyfont::download::FontDownloader;
use polyfont::font::{FontStyle, FontWeight};

fn rule(scope: &str, family: &str, fallbacks: &[&str], weight: FontWeight, style: FontStyle) -> RuleConfig {
    RuleConfig {
        scope: scope.to_string(),
        font: FontConfig {
            family: family.to_string(),
            fallbacks: fallbacks.iter().map(|s| s.to_string()).collect(),
            weight,
            style,
            size: None,
            axes: vec![],
        },
    }
}

#[test]
fn labels() {
    assert_eq!(weight_label(FontWeight::SemiBold), "semi-bold");
    assert_eq!(style_label(FontStyle::Oblique), "oblique");
    assert_eq!(weight_css(FontWeight::Regular), "normal");
    assert_eq!(weight_css(FontWeight::Bold), "bold");
    assert_eq!(weight_css(FontWeight::Black), "900");
}

#[test]
fn family_lists() {
    assert_eq!(font_family_with_fallbacks("Fira Code", &[]), "Fira Code");
    assert_eq!(
        font_family_with_fallbacks("Fira Code", &["JetBrains Mono".to_string(), "monospace".to_string()]),
        "Fira Code, JetBrains Mono, monospace"
    );
}

#[test]
fn editor_settings_per_rule() {
    let r = rule("comment", "IBM Plex Mono", &["monospace"], FontWeight::Light, FontStyle::Italic);
    let v = VscodeRule::of(&r);
    assert_eq!(v.scope, "comment");
    assert_eq!(v.font_family, "IBM Plex Mono, monospace");
    assert_eq!(v.font_weight, Some("300"));
    assert_eq!(v.font_style, Some("italic"));
    let plain = VscodeRule::of(&rule("x", "F", &[], FontWeight::Regular, FontStyle::Normal));
    assert_eq!(plain.font_weight, None);
    assert_eq!(plain.font_style, None);

    let (var, spec) = neovim_rule(&rule("entity.name.function", "Monaspace Argon", &[], FontWeight::Bold, FontStyle::Italic));
    assert_eq!(var, "entity_name_function");
    assert_eq!(spec, "Monaspace Argon:h:bold:italic");
    let (_, spec) = neovim_rule(&r);
    assert_eq!(spec, "IBM Plex Mono:h:light:italic");
}

#[test]
fn families_of_config_sorted_once() {
    let config = PolyfontConfig {
        version: 1,
        default: Some(DefaultFontConfig {
            family: "Fira Code".to_string(),
            fallbacks: vec!["monospace".to_string()],
            weight: FontWeight::Regular,
            style: FontStyle::Normal,
            size: None,
            axes: vec![],
        }),
        rules: vec![
            rule("a", "Maple Mono", &["Fira Code"], FontWeight::Bold, FontStyle::Normal),
            rule("b", "Fira Code", &[], FontWeight::Bold, FontStyle::Normal),
        ],
    };
    assert_eq!(
        config_families(&config),
        vec!["Fira Code".to_string(), "Maple Mono".to_string(), "monospace".to_string()]
    );
}

#[test]
fn dump_scope_list() {
    let scopes = dump_scopes();
    assert_eq!(scopes.len(), 21);
    assert_eq!(scopes[0], "keyword");
    assert_eq!(scopes[20], "support.function");
}

#[test]
fn known_source_lookup() {
    let known = FontDownloader::list_available_sources();
    assert_eq!(find_known_source(&known, "jetbrains mono"), Some(0));
    assert_eq!(find_known_source(&known, "JetBrainsMono"), Some(0));
    assert_eq!(find_known_source(&known, "SOURCE SERIF 4"), Some(7));
    assert_eq!(find_known_source(&known, "Comic Sans"), None);
}

// The width counts characters, not bytes.
#[test]
fn preview_svg_width_counts_characters() {
    let svg = font_preview_svg("F", "héllo");
    assert!(svg.contains("width=\"45\" height=\"30\" viewBox=\"0 0 45 30\""));
    assert!(svg.contains(">héllo</text>"));
}

#[test]
fn preview_svg() {
    assert!(font_preview_svg("F", "\"x\"").contains(">\"x\"</text>"));
    let svg = font_preview_svg("Fira Code", "a<b");
    assert_eq!(
        svg,
        "<?xml version=\"1.0\" encoding=\"UTF-8\"?>\n\
<svg xmlns=\"http://www.w3.org/2000/svg\" width=\"27\" height=\"30\" viewBox=\"0 0 27 30\">\n\
<rect width=\"100%\" height=\"100%\" fill=\"#1e1e2e\"/>\n\
<text x=\"4\" y=\"20\" font-family=\"Fira Code, monospace\" font-size=\"14\" fill=\"#cdd6f4\">a&lt;b</text>\n\
</svg>"
    );
}
