//! What the command-line tool decides and prints, apart from the printing:
//! labels, editor settings derived from a configuration, and previews.
use vstd::prelude::*;

use crate::config::{decimal, decimal_s, digit_char, ConfigView, PolyfontConfig, RuleConfig};
use crate::download::{replace_spaces, FontSourceInfo};
use crate::font::{style_name, weight_name, weight_value, FontRuleView, FontStyle, FontWeight};
use crate::names::{chars_of_all, dedup_sorted, sort_names, strictly_sorted_names, strings_of};
use crate::text::{
    append, chars_of, copy_chars, eq_ignore_ascii_case, eq_ignore_ascii_case_s, join, join_s,
    owned, string_of,
};

verus! {

broadcast use {vstd::seq_lib::group_seq_properties, crate::lemma_chars_deep_view};

/// The name of a weight, as shown to the user.
pub fn weight_label(w: FontWeight) -> (r: &'static str)
    ensures
        r@ == weight_name(w),
{
    match w {
        FontWeight::Thin => "thin",
        FontWeight::ExtraLight => "extra-light",
        FontWeight::Light => "light",
        FontWeight::Regular => "regular",
        FontWeight::Medium => "medium",
        FontWeight::SemiBold => "semi-bold",
        FontWeight::Bold => "bold",
        FontWeight::ExtraBold => "extra-bold",
        FontWeight::Black => "black",
    }
}

/// The name of a style, as shown to the user.
pub fn style_label(s: FontStyle) -> (r: &'static str)
    ensures
        r@ == style_name(s),
{
    match s {
        FontStyle::Normal => "normal",
        FontStyle::Italic => "italic",
        FontStyle::Oblique => "oblique",
    }
}

/// The CSS `font-weight` value of a weight: keywords for regular and bold,
/// numbers otherwise.
pub open spec fn css_weight(w: FontWeight) -> Seq<char> {
    match w {
        FontWeight::Thin => "100"@,
        FontWeight::ExtraLight => "200"@,
        FontWeight::Light => "300"@,
        FontWeight::Regular => "normal"@,
        FontWeight::Medium => "500"@,
        FontWeight::SemiBold => "600"@,
        FontWeight::Bold => "bold"@,
        FontWeight::ExtraBold => "800"@,
        FontWeight::Black => "900"@,
    }
}

/// The CSS weight written for a weight is its numeric value in decimal,
/// except the keywords `normal` for the regular weight (400) and `bold` for
/// the bold one (700).
pub proof fn lemma_css_weight_numeric(w: FontWeight)
    ensures
        w != FontWeight::Regular && w != FontWeight::Bold ==> css_weight(w) == decimal_s(
            weight_value(w) as nat,
        ),
        w == FontWeight::Regular ==> css_weight(w) == "normal"@ && weight_value(w) == 400,
        w == FontWeight::Bold ==> css_weight(w) == "bold"@ && weight_value(w) == 700,
{
    let n = weight_value(w) as nat;
    assert(decimal_s(n) == seq![digit_char(n / 100), digit_char((n / 10) % 10), digit_char(n % 10)])
        by {
        assert(decimal_s(n / 100) == seq![digit_char(n / 100)]);
        assert(n / 10 / 10 == n / 100);
        assert(decimal_s(n / 10) == seq![digit_char(n / 100)].push(digit_char((n / 10) % 10)));
    }
    reveal_strlit("100");
    reveal_strlit("200");
    reveal_strlit("300");
    reveal_strlit("500");
    reveal_strlit("600");
    reveal_strlit("800");
    reveal_strlit("900");
    match w {
        FontWeight::Thin => assert(css_weight(w) =~= decimal_s(n)),
        FontWeight::ExtraLight => assert(css_weight(w) =~= decimal_s(n)),
        FontWeight::Light => assert(css_weight(w) =~= decimal_s(n)),
        FontWeight::Medium => assert(css_weight(w) =~= decimal_s(n)),
        FontWeight::SemiBold => assert(css_weight(w) =~= decimal_s(n)),
        FontWeight::ExtraBold => assert(css_weight(w) =~= decimal_s(n)),
        FontWeight::Black => assert(css_weight(w) =~= decimal_s(n)),
        _ => {},
    }
}

/// The CSS `font-weight` value of a weight.
pub fn weight_css(w: FontWeight) -> (r: &'static str)
    ensures
        r@ == css_weight(w),
{
    match w {
        FontWeight::Thin => "100",
        FontWeight::ExtraLight => "200",
        FontWeight::Light => "300",
        FontWeight::Regular => "normal",
        FontWeight::Medium => "500",
        FontWeight::SemiBold => "600",
        FontWeight::Bold => "bold",
        FontWeight::ExtraBold => "800",
        FontWeight::Black => "900",
    }
}

/// The views of a list of strings.
pub open spec fn string_views(v: Seq<String>) -> Seq<Seq<char>> {
    v.map_values(|s: String| s@)
}

/// A CSS font-family list: the family, then its fallbacks, separated by
/// commas.
pub fn font_family_with_fallbacks(family: &str, fallbacks: &[String]) -> (r: String)
    ensures
        r@ == join_s(seq![family@] + string_views(fallbacks@), ", "@),
{
    let mut parts: Vec<Vec<char>> = Vec::new();
    parts.push(chars_of(family));
    let mut i: usize = 0;
    while i < fallbacks.len()
        invariant
            i <= fallbacks@.len(),
            parts.deep_view() == seq![family@] + string_views(fallbacks@.take(i as int)),
        decreases fallbacks.len() - i,
    {
        let ghost prev = parts.deep_view();
        let c = chars_of(fallbacks[i].as_str());
        parts.push(c);
        assert(parts.deep_view() =~= prev.push(fallbacks@[i as int]@));
        assert(string_views(fallbacks@.take(i + 1)) =~= string_views(fallbacks@.take(i as int)).push(
            fallbacks@[i as int]@,
        ));
        assert(parts.deep_view() =~= seq![family@] + string_views(fallbacks@.take(i + 1)));
        i = i + 1;
    }
    assert(fallbacks@.take(fallbacks@.len() as int) =~= fallbacks@);
    let sep = chars_of(", ");
    string_of(join(&parts, sep.as_slice()).as_slice())
}

/// A font's family followed by its fallbacks.
pub open spec fn family_and_fallbacks(f: crate::font::FontSpecView) -> Seq<Seq<char>> {
    seq![f.family] + f.fallbacks
}

/// Every family a rule list names, rule by rule.
pub open spec fn rule_families(rules: Seq<FontRuleView>) -> Seq<Seq<char>>
    decreases rules.len(),
{
    if rules.len() == 0 {
        Seq::empty()
    } else {
        rule_families(rules.drop_last()) + family_and_fallbacks(rules.last().font)
    }
}

/// Every family a configuration names: the default font's and its
/// fallbacks, then each rule's.
pub open spec fn config_family_list(c: ConfigView) -> Seq<Seq<char>> {
    (match c.default {
        Some(d) => family_and_fallbacks(d),
        None => Seq::empty(),
    }) + rule_families(c.rules)
}

/// A font's family followed by its fallbacks.
fn push_families(out: &mut Vec<Vec<char>>, family: &String, fallbacks: &Vec<String>)
    ensures
        final(out).deep_view() == old(out).deep_view() + seq![family@] + fallbacks.deep_view(),
{
    out.push(chars_of(family.as_str()));
    let ghost base = out.deep_view();
    let mut i: usize = 0;
    while i < fallbacks.len()
        invariant
            i <= fallbacks@.len(),
            base == old(out).deep_view() + seq![family@],
            out.deep_view() == base + fallbacks.deep_view().take(i as int),
        decreases fallbacks.len() - i,
    {
        let ghost prev = out.deep_view();
        out.push(chars_of(fallbacks[i].as_str()));
        assert(out.deep_view() =~= prev.push(fallbacks.deep_view()[i as int]));
        assert(fallbacks.deep_view().take(i + 1) =~= fallbacks.deep_view().take(i as int).push(
            fallbacks.deep_view()[i as int],
        ));
        assert(out.deep_view() =~= base + fallbacks.deep_view().take(i + 1));
        i = i + 1;
    }
    assert(fallbacks.deep_view().take(fallbacks@.len() as int) =~= fallbacks.deep_view());
}

/// Every family a configuration names, each once, in code-point order.
pub fn config_families(config: &PolyfontConfig) -> (r: Vec<String>)
    ensures
        strictly_sorted_names(r.deep_view()),
        forall|x: Seq<char>| r.deep_view().contains(x) <==> config_family_list(config@).contains(x),
{
    let mut all: Vec<Vec<char>> = Vec::new();
    match &config.default {
        Some(d) => push_families(&mut all, &d.family, &d.fallbacks),
        None => {},
    }
    let ghost head = all.deep_view();
    assert(head =~= match config@.default {
        Some(d) => family_and_fallbacks(d),
        None => Seq::<Seq<char>>::empty(),
    });
    let ghost rules = config@.rules;
    let mut i: usize = 0;
    assert(rules.take(0) =~= Seq::<FontRuleView>::empty());
    while i < config.rules.len()
        invariant
            rules == config@.rules,
            rules.len() == config.rules@.len(),
            i <= rules.len(),
            all.deep_view() == head + rule_families(rules.take(i as int)),
        decreases config.rules.len() - i,
    {
        assert(rules.take(i + 1).drop_last() =~= rules.take(i as int));
        let font = &config.rules[i].font;
        assert(font@ == rules[i as int].font);
        push_families(&mut all, &font.family, &font.fallbacks);
        i = i + 1;
    }
    assert(rules.take(rules.len() as int) =~= rules);
    let sorted = sort_names(&all);
    proof {
        assert forall|x: Seq<char>| sorted.deep_view().contains(x) <==> all.deep_view().contains(x) by {
            sorted.deep_view().to_multiset_ensures();
            all.deep_view().to_multiset_ensures();
            assert(sorted.deep_view().to_multiset().count(x) == all.deep_view().to_multiset().count(x));
        }
    }
    let unique = dedup_sorted(&sorted);
    strings_of(&unique)
}

/// The editor settings for one rule: its scope, its font-family list, and
/// a weight and style only where they differ from regular and normal.
#[derive(Debug)]
pub struct VscodeRule {
    pub scope: String,
    pub font_family: String,
    pub font_weight: Option<&'static str>,
    pub font_style: Option<&'static str>,
}

impl VscodeRule {
    /// The editor settings for `rule`.
    pub fn of(rule: &RuleConfig) -> (r: VscodeRule)
        ensures
            r.scope@ == rule.scope@,
            r.font_family@ == join_s(seq![rule.font.family@] + string_views(rule.font.fallbacks@), ", "@),
            rule.font.weight == FontWeight::Regular ==> r.font_weight is None,
            rule.font.weight != FontWeight::Regular ==> (r.font_weight matches Some(w) && w@ == css_weight(rule.font.weight)),
            rule.font.style == FontStyle::Normal ==> r.font_style is None,
            rule.font.style != FontStyle::Normal ==> (r.font_style matches Some(s) && s@ == style_name(rule.font.style)),
    {
        VscodeRule {
            scope: rule.scope.clone(),
            font_family: font_family_with_fallbacks(rule.font.family.as_str(), rule.font.fallbacks.as_slice()),
            font_weight: if rule.font.weight != FontWeight::Regular {
                Some(weight_css(rule.font.weight))
            } else {
                None
            },
            font_style: if rule.font.style != FontStyle::Normal {
                Some(style_label(rule.font.style))
            } else {
                None
            },
        }
    }
}

/// `s` with each dot replaced by an underscore.
pub open spec fn dots_to_underscores(s: Seq<char>) -> Seq<char> {
    s.map_values(|c: char| if c == '.' { '_' } else { c })
}

/// The parts of a Neovim font specification for a font: the family, then
/// `h:` and the weight when not regular, then the style when not normal.
pub open spec fn neovim_parts(f: crate::font::FontSpecView) -> Seq<Seq<char>> {
    seq![f.family] + (if f.weight != FontWeight::Regular {
        seq!["h:"@ + weight_name(f.weight)]
    } else {
        Seq::empty()
    }) + (if f.style != FontStyle::Normal {
        seq![style_name(f.style)]
    } else {
        Seq::empty()
    })
}

/// The Neovim highlight group name for a rule's scope (dots become
/// underscores) and its font specification (parts joined by colons).
pub fn neovim_rule(rule: &RuleConfig) -> (r: (String, String))
    ensures
        r.0@ == dots_to_underscores(rule.scope@),
        r.1@ == join_s(neovim_parts(rule.font@), ":"@),
{
    let sc = chars_of(rule.scope.as_str());
    let mut var: Vec<char> = Vec::new();
    let mut i: usize = 0;
    while i < sc.len()
        invariant
            i <= sc@.len(),
            var@ == dots_to_underscores(sc@.take(i as int)),
        decreases sc.len() - i,
    {
        if sc[i] == '.' {
            var.push('_');
        } else {
            var.push(sc[i]);
        }
        assert(dots_to_underscores(sc@.take(i + 1)) =~= var@);
        i = i + 1;
    }
    assert(sc@.take(sc@.len() as int) =~= sc@);
    let mut parts: Vec<Vec<char>> = Vec::new();
    parts.push(chars_of(rule.font.family.as_str()));
    let ghost p1 = parts.deep_view();
    if rule.font.weight != FontWeight::Regular {
        let mut w = chars_of("h:");
        append(&mut w, chars_of(weight_label(rule.font.weight)).as_slice());
        parts.push(w);
    }
    let ghost p2 = parts.deep_view();
    if rule.font.style != FontStyle::Normal {
        parts.push(chars_of(style_label(rule.font.style)));
    }
    assert(parts.deep_view() =~= neovim_parts(rule.font@));
    let spec = join(&parts, chars_of(":").as_slice());
    (string_of(var.as_slice()), string_of(spec.as_slice()))
}

/// The scopes the `dump` command resolves, in order.
pub open spec fn dump_scope_list() -> Seq<&'static str> {
    seq![
        "keyword",
        "keyword.control",
        "keyword.operator",
        "comment",
        "comment.line",
        "comment.block",
        "string",
        "string.quoted",
        "string.quoted.double",
        "entity.name.function",
        "entity.name.type",
        "variable",
        "variable.other",
        "variable.parameter",
        "constant",
        "constant.numeric",
        "punctuation",
        "punctuation.separator",
        "entity.name.tag",
        "entity.other.attribute-name",
        "support.function",
    ]
}

/// The scopes the `dump` command resolves.
pub fn dump_scopes() -> (r: Vec<&'static str>)
    ensures
        r@ == dump_scope_list(),
{
    let r = vec![
        "keyword",
        "keyword.control",
        "keyword.operator",
        "comment",
        "comment.line",
        "comment.block",
        "string",
        "string.quoted",
        "string.quoted.double",
        "entity.name.function",
        "entity.name.type",
        "variable",
        "variable.other",
        "variable.parameter",
        "constant",
        "constant.numeric",
        "punctuation",
        "punctuation.separator",
        "entity.name.tag",
        "entity.other.attribute-name",
        "support.function",
    ];
    assert(r@ =~= dump_scope_list());
    r
}

/// Whether a known font answers a request for `family`: the names equal up
/// to ASCII case, with or without their spaces.
pub open spec fn source_matches(name: Seq<char>, family: Seq<char>) -> bool {
    eq_ignore_ascii_case_s(name, family) || eq_ignore_ascii_case_s(
        replace_spaces(name, Seq::empty()),
        replace_spaces(family, Seq::empty()),
    )
}

/// The index of the first known font answering a request for `family`.
pub fn find_known_source(known: &Vec<FontSourceInfo>, family: &str) -> (r: Option<usize>)
    ensures
        r matches Some(i) ==> i < known@.len() && source_matches(known@[i as int].name@, family@) && forall|j: int|
            0 <= j < i ==> !source_matches(#[trigger] known@[j].name@, family@),
        r is None ==> forall|j: int| 0 <= j < known@.len() ==> !source_matches(#[trigger] known@[j].name@, family@),
{
    let f = chars_of(family);
    let empty: Vec<char> = Vec::new();
    assert(empty@ =~= Seq::<char>::empty());
    let f_compact = crate::download::replace_space(f.as_slice(), empty.as_slice());
    let mut i: usize = 0;
    while i < known.len()
        invariant
            i <= known@.len(),
            f@ == family@,
            empty@ == Seq::<char>::empty(),
            f_compact@ == replace_spaces(family@, Seq::empty()),
            forall|j: int| 0 <= j < i ==> !source_matches(#[trigger] known@[j].name@, family@),
        decreases known.len() - i,
    {
        let n = chars_of(known[i].name.as_str());
        if eq_ignore_ascii_case(n.as_slice(), f.as_slice()) {
            return Some(i);
        }
        let n_compact = crate::download::replace_space(n.as_slice(), empty.as_slice());
        if eq_ignore_ascii_case(n_compact.as_slice(), f_compact.as_slice()) {
            return Some(i);
        }
        i = i + 1;
    }
    None
}

/// How one character of previewed text is written: `&`, `<` and `>` as
/// entities, anything else as itself.
pub open spec fn preview_char(c: char) -> Seq<char> {
    if c == '&' {
        "&amp;"@
    } else if c == '<' {
        "&lt;"@
    } else if c == '>' {
        "&gt;"@
    } else {
        seq![c]
    }
}

/// Previewed text with `&`, `<` and `>` escaped.
pub open spec fn preview_escape_s(s: Seq<char>) -> Seq<char>
    decreases s.len(),
{
    if s.len() == 0 {
        Seq::empty()
    } else {
        preview_escape_s(s.drop_last()) + preview_char(s.last())
    }
}

/// Previewed text with `&`, `<` and `>` escaped.
fn preview_escape(s: &str) -> (r: Vec<char>)
    ensures
        r@ == preview_escape_s(s@),
{
    let cs = chars_of(s);
    let mut out: Vec<char> = Vec::new();
    let mut i: usize = 0;
    assert(cs@.take(0) =~= Seq::<char>::empty());
    while i < cs.len()
        invariant
            i <= cs@.len(),
            out@ == preview_escape_s(cs@.take(i as int)),
        decreases cs.len() - i,
    {
        assert(cs@.take(i + 1).drop_last() =~= cs@.take(i as int));
        let c = cs[i];
        if c == '&' {
            append(&mut out, chars_of("&amp;").as_slice());
        } else if c == '<' {
            append(&mut out, chars_of("&lt;").as_slice());
        } else if c == '>' {
            append(&mut out, chars_of("&gt;").as_slice());
        } else {
            out.push(c);
        }
        i = i + 1;
    }
    assert(cs@.take(cs@.len() as int) =~= cs@);
    out
}

/// The SVG previewing `text` in `family`, `width` pixels wide and thirty
/// high.
pub open spec fn preview_svg(family: Seq<char>, text: Seq<char>, width: u32) -> Seq<char> {
    "<?xml version=\"1.0\" encoding=\"UTF-8\"?>\n"@ + "<svg xmlns=\"http://www.w3.org/2000/svg\" width=\""@
        + decimal_s(width as nat) + "\" height=\"30\" viewBox=\"0 0 "@ + decimal_s(width as nat)
        + " 30\">\n"@ + "<rect width=\"100%\" height=\"100%\" fill=\"#1e1e2e\"/>\n"@
        + "<text x=\"4\" y=\"20\" font-family=\""@ + family
        + ", monospace\" font-size=\"14\" fill=\"#cdd6f4\">"@ + preview_escape_s(text) + "</text>\n"@
        + "</svg>"@
}

/// The SVG previewing `text` in `family`: nine pixels per character of
/// text wide.
pub fn font_preview_svg(family: &str, text: &str) -> (r: String)
    requires
        (text@.len() as u32) * 9 <= u32::MAX,
    ensures
        r@ == preview_svg(family@, text@, ((text@.len() as u32) * 9) as u32),
{
    let cs = chars_of(text);
    let len = cs.len() as u32;
    let width = len * 9;
    let escaped = preview_escape(text);
    let mut v = chars_of("<?xml version=\"1.0\" encoding=\"UTF-8\"?>\n");
    append(&mut v, chars_of("<svg xmlns=\"http://www.w3.org/2000/svg\" width=\"").as_slice());
    append(&mut v, decimal(width as u64).as_slice());
    append(&mut v, chars_of("\" height=\"30\" viewBox=\"0 0 ").as_slice());
    append(&mut v, decimal(width as u64).as_slice());
    append(&mut v, chars_of(" 30\">\n").as_slice());
    append(&mut v, chars_of("<rect width=\"100%\" height=\"100%\" fill=\"#1e1e2e\"/>\n").as_slice());
    append(&mut v, chars_of("<text x=\"4\" y=\"20\" font-family=\"").as_slice());
    append(&mut v, chars_of(family).as_slice());
    append(&mut v, chars_of(", monospace\" font-size=\"14\" fill=\"#cdd6f4\">").as_slice());
    append(&mut v, escaped.as_slice());
    append(&mut v, chars_of("</text>\n").as_slice());
    append(&mut v, chars_of("</svg>").as_slice());
    string_of(v.as_slice())
}

} // verus!
