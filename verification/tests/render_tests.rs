use polyfont::engine::ScopeMatchEngine;
use polyfont::font::{FontRule, FontSpec};
use polyfont::render::bitmap_font::glyph_rows;
use polyfont::render::font_cache::FontCache;
use polyfont::render::{
    empty_svg, group_into_lines, line_families, parse_hex_color, xml_escape, RenderOutput, ScopeAnnotator,
};
use polyfont::token::{Position, Range, TokenInfo};

fn make_token(text: &str, line: u32, scope: &str) -> TokenInfo {
    let col = text.len() as u32;
    TokenInfo {
        text: text.to_string(),
        range: Range {
            start: Position { line, column: 0 },
            end: Position { line, column: col },
        },
        scope: scope.to_string(),
        modifiers: vec![],
    }
}

#[test]
fn test_xml_escape_basic() {
    assert_eq!(xml_escape("hello"), "hello");
}

#[test]
fn test_xml_escape_ampersand() {
    assert_eq!(xml_escape("a&b"), "a&amp;b");
}

#[test]
fn test_xml_escape_lt_gt() {
    assert_eq!(xml_escape("<tag>"), "&lt;tag&gt;");
}

#[test]
fn test_xml_escape_quotes() {
    assert_eq!(xml_escape("a\"b'c"), "a&quot;b&apos;c");
}

#[test]
fn test_render_output_svg_clone() {
    let output = RenderOutput::Svg("<svg/>".to_string());
    let cloned = output.clone();
    match cloned {
        RenderOutput::Svg(s) => assert_eq!(s, "<svg/>"),
        _ => panic!("expected SVG"),
    }
}

#[test]
fn test_render_output_png_clone() {
    let output = RenderOutput::Png {
        width: 10,
        height: 10,
        pixels: vec![0u8; 400],
    };
    let cloned = output.clone();
    match cloned {
        RenderOutput::Png { width, height, .. } => {
            assert_eq!(width, 10);
            assert_eq!(height, 10);
        }
        _ => panic!("expected Png"),
    }
}

#[test]
fn empty_svg_header() {
    assert_eq!(
        empty_svg(800, 600),
        "<svg xmlns=\"http://www.w3.org/2000/svg\" width=\"800\" height=\"600\" viewBox=\"0 0 800 600\">"
    );
}

// Tokens are grouped into runs of consecutive tokens on the same line; a
// line that comes back later starts a new run.
#[test]
fn group_into_lines_runs() {
    let tokens: Vec<(TokenInfo, Option<FontSpec>)> = vec![
        (make_token("a", 0, "x"), None),
        (make_token("b", 0, "x"), None),
        (make_token("c", 2, "x"), None),
        (make_token("d", 0, "x"), None),
    ];
    assert_eq!(group_into_lines(&tokens), vec![(0, 2), (2, 3), (3, 4)]);
    assert!(group_into_lines(&[]).is_empty());
}

#[test]
fn annotator_assigns_families() {
    let engine = ScopeMatchEngine::from_rules(vec![FontRule {
        scope: "keyword".to_string(),
        font: FontSpec::default_font("Maple Mono"),
    }]);
    let annotator = ScopeAnnotator::new(engine);
    assert_eq!(annotator.annotate(&make_token("if", 0, "keyword.control")), Some("Maple Mono".to_string()));
    assert_eq!(annotator.annotate(&make_token("x", 0, "variable")), None);
    let annotated = annotator.annotated_tokens(&[make_token("if", 0, "keyword"), make_token("x", 1, "variable")]);
    assert_eq!(annotated.len(), 2);
    assert_eq!(annotated[0].1.as_ref().unwrap().family, "Maple Mono");
    assert!(annotated[1].1.is_none());
    assert_eq!(annotated[1].0.text, "x");
}

// The distinct families of a line, in order of first use; tokens without a
// font count under the default family.
#[test]
fn line_families_in_first_use_order() {
    let tokens: Vec<(TokenInfo, Option<FontSpec>)> = vec![
        (make_token("a", 0, "x"), Some(FontSpec::default_font("Fira Code"))),
        (make_token("b", 0, "x"), None),
        (make_token("c", 0, "x"), Some(FontSpec::default_font("Fira Code"))),
        (make_token("d", 0, "x"), Some(FontSpec::default_font("Maple Mono"))),
        (make_token("e", 1, "x"), Some(FontSpec::default_font("IBM Plex Mono"))),
    ];
    assert_eq!(line_families(&tokens, 0, 4, "monospace"), vec!["Fira Code", "monospace", "Maple Mono"]);
    assert_eq!(line_families(&tokens, 4, 5, "monospace"), vec!["IBM Plex Mono"]);
    assert!(line_families(&tokens, 2, 2, "monospace").is_empty());
}

#[test]
fn test_bitmap_font_glyph_rows() {
    let rows = glyph_rows('A');
    assert!(rows.is_some());
    let r = rows.unwrap();
    assert_eq!(r.len(), 8);
}

#[test]
fn test_bitmap_font_non_ascii_returns_none() {
    assert!(glyph_rows('\u{00E9}').is_none());
}

// The rows of a few glyphs, and the edges of the covered range.
#[test]
fn glyph_rows_exact() {
    assert_eq!(glyph_rows('A'), Some([0x20, 0x50, 0x88, 0x88, 0xF8, 0x88, 0x88, 0x00]));
    assert_eq!(glyph_rows(' '), Some([0x00; 8]));
    assert_eq!(glyph_rows('~'), Some([0x00, 0x00, 0x00, 0x68, 0x90, 0x00, 0x00, 0x00]));
    assert!(glyph_rows('\u{7f}').is_none());
    assert!(glyph_rows('\n').is_none());
}

// Metrics as a renderer keeps them; the cache does not look inside.
#[derive(Debug, Clone, PartialEq)]
struct FontMetrics {
    family: String,
    ascent: f32,
    descent: f32,
    line_gap: f32,
    units_per_em: u16,
}

impl FontMetrics {
    fn monospace_fallback(family: &str) -> Self {
        FontMetrics { family: family.to_string(), ascent: 12.0, descent: 3.0, line_gap: 0.0, units_per_em: 16 }
    }
}

fn register_fallback(cache: &mut FontCache<FontMetrics>, family: &str) {
    cache.register_family_fallback(family, FontMetrics::monospace_fallback(family));
}

#[test]
fn test_font_cache_new() {
    let cache: FontCache<FontMetrics> = FontCache::new();
    assert!(cache.is_empty());
    assert_eq!(cache.len(), 0);
}

#[test]
fn test_font_cache_register_family() {
    let mut cache = FontCache::new();
    let m = FontMetrics::monospace_fallback("Test");
    cache.register_family("Test", m);
    assert_eq!(cache.len(), 1);
}

#[test]
fn test_font_cache_register_family_fallback() {
    let mut cache = FontCache::new();
    register_fallback(&mut cache, "Mono");
    assert!(cache.get("Mono").is_some());
}

#[test]
fn test_font_cache_register_duplicate() {
    let mut cache = FontCache::new();
    register_fallback(&mut cache, "A");
    register_fallback(&mut cache, "A");
    assert_eq!(cache.len(), 1);
}

#[test]
fn test_font_cache_get() {
    let mut cache = FontCache::new();
    register_fallback(&mut cache, "Found");
    assert!(cache.get("Found").is_some());
    assert!(cache.get("Missing").is_none());
}

#[test]
fn test_font_cache_families() {
    let mut cache = FontCache::new();
    register_fallback(&mut cache, "A");
    register_fallback(&mut cache, "B");
    let mut families = cache.families();
    families.sort();
    assert_eq!(families, vec!["A", "B"]);
}

#[test]
fn test_font_cache_clear() {
    let mut cache = FontCache::new();
    register_fallback(&mut cache, "X");
    cache.clear();
    assert!(cache.is_empty());
}

// Registering replaces a family's metrics; registering a fallback never
// does; other families keep theirs.
#[test]
fn font_cache_register_then_get() {
    let mut cache = FontCache::new();
    register_fallback(&mut cache, "Fira Code");
    let custom = FontMetrics { family: "Fira Code".to_string(), ascent: 900.0, descent: 300.0, line_gap: 0.0, units_per_em: 1000 };
    cache.register_family("Fira Code", custom.clone());
    assert_eq!(cache.get("Fira Code"), Some(&custom));
    register_fallback(&mut cache, "Fira Code");
    assert_eq!(cache.get("Fira Code"), Some(&custom));
    register_fallback(&mut cache, "Maple Mono");
    assert_eq!(cache.get("Maple Mono"), Some(&FontMetrics::monospace_fallback("Maple Mono")));
    assert_eq!(cache.get("Fira Code"), Some(&custom));
    assert_eq!(cache.len(), 2);
    assert!(cache.contains("Maple Mono"));
    assert!(!cache.contains("Iosevka"));
}

// Colors are read as hexadecimal numbers; anything unreadable is white.
#[test]
fn hex_colors() {
    assert_eq!(parse_hex_color("1e1e2e"), (0x1e, 0x1e, 0x2e));
    assert_eq!(parse_hex_color("CDD6F4"), (0xcd, 0xd6, 0xf4));
    assert_eq!(parse_hex_color("+ff"), (0, 0, 0xff));
    assert_eq!(parse_hex_color("12345678"), (0x34, 0x56, 0x78));
    assert_eq!(parse_hex_color(""), (0xff, 0xff, 0xff));
    assert_eq!(parse_hex_color("+"), (0xff, 0xff, 0xff));
    assert_eq!(parse_hex_color("#1e1e2e"), (0xff, 0xff, 0xff));
    assert_eq!(parse_hex_color("123456789"), (0xff, 0xff, 0xff));
    for text in ["1e1e2e", "0", "fFfFfFfF", "-1", "1 2", "100000000"] {
        let v = u32::from_str_radix(text, 16).unwrap_or(0x00FF_FFFF);
        assert_eq!(parse_hex_color(text), ((v >> 16) as u8, (v >> 8) as u8, v as u8));
    }
}
