//! The built-in themes.
use vstd::prelude::*;

use crate::config::{
    blank, config_problem, first_bad_rule, ConfigView, DefaultFontConfig, FontConfig, PolyfontConfig,
    RuleConfig,
};
use crate::font::{FontRuleView, FontSpecView, FontStyle, FontWeight};
use crate::text::{owned, str_eq};
use crate::themes::mapping::plain_font;

verus! {

broadcast use {vstd::seq_lib::group_seq_properties, crate::lemma_chars_deep_view};

/// A theme's name and description.
#[derive(Debug)]
pub struct ThemeInfo {
    pub name: String,
    pub description: String,
}

/// The mathematical content of a [`ThemeInfo`].
pub struct ThemeInfoView {
    pub name: Seq<char>,
    pub description: Seq<char>,
}

impl View for ThemeInfo {
    type V = ThemeInfoView;

    open spec fn view(&self) -> ThemeInfoView {
        ThemeInfoView { name: self.name@, description: self.description@ }
    }
}

impl DeepView for ThemeInfo {
    type V = ThemeInfoView;

    open spec fn deep_view(&self) -> ThemeInfoView {
        self@
    }
}

/// A theme that ships with the library.
#[derive(Debug)]
pub struct BuiltinTheme {
    pub name: String,
    pub description: String,
    pub config: PolyfontConfig,
}

/// The mathematical content of a [`BuiltinTheme`].
pub struct BuiltinThemeView {
    pub name: Seq<char>,
    pub description: Seq<char>,
    pub config: ConfigView,
}

impl View for BuiltinTheme {
    type V = BuiltinThemeView;

    open spec fn view(&self) -> BuiltinThemeView {
        BuiltinThemeView { name: self.name@, description: self.description@, config: self.config@ }
    }
}

impl DeepView for BuiltinTheme {
    type V = BuiltinThemeView;

    open spec fn deep_view(&self) -> BuiltinThemeView {
        self@
    }
}

/// The rules of a theme table.
pub open spec fn table_rules(t: Seq<(&'static str, &'static str, FontWeight, FontStyle)>) -> Seq<FontRuleView> {
    t.map_values(
        |e: (&'static str, &'static str, FontWeight, FontStyle)|
            FontRuleView { scope: e.0@, font: plain_font(e.1@, e.2, e.3) },
    )
}

/// A theme with a plain default font of `family` (with the given
/// fallbacks) and the rules of table `t`.
pub open spec fn theme_view(
    name: Seq<char>,
    description: Seq<char>,
    family: Seq<char>,
    fallbacks: Seq<Seq<char>>,
    t: Seq<(&'static str, &'static str, FontWeight, FontStyle)>,
) -> BuiltinThemeView {
    BuiltinThemeView {
        name,
        description,
        config: ConfigView {
            version: 1,
            default: Some(
                FontSpecView {
                    family,
                    fallbacks,
                    weight: FontWeight::Regular,
                    style: FontStyle::Normal,
                    size: None,
                    axes: Seq::empty(),
                },
            ),
            rules: table_rules(t),
        },
    }
}

/// The rules of a theme table.
fn rules_from_table(t: &Vec<(&'static str, &'static str, FontWeight, FontStyle)>) -> (r: Vec<RuleConfig>)
    ensures
        r.deep_view() == table_rules(t@),
{
    let mut r: Vec<RuleConfig> = Vec::new();
    let mut i: usize = 0;
    while i < t.len()
        invariant
            i <= t@.len(),
            r.deep_view() == table_rules(t@).take(i as int),
        decreases t.len() - i,
    {
        let ghost prev = r.deep_view();
        let (scope, family, weight, style) = t[i];
        let rule = RuleConfig {
            scope: owned(scope),
            font: FontConfig {
                family: owned(family),
                fallbacks: Vec::new(),
                weight,
                style,
                size: None,
                axes: Vec::new(),
            },
        };
        let ghost rv = rule@;
        assert(rule.font.fallbacks.deep_view() =~= Seq::<Seq<char>>::empty());
        assert(rule.font.axes.deep_view() =~= Seq::<crate::font::AxisView>::empty());
        assert(rv == table_rules(t@)[i as int]);
        r.push(rule);
        assert(r.deep_view() =~= prev.push(rv));
        assert(table_rules(t@).take(i + 1) =~= table_rules(t@).take(i as int).push(rv));
        i = i + 1;
    }
    assert(table_rules(t@).take(t@.len() as int) =~= table_rules(t@));
    r
}

/// A theme with a plain default font of `family` and the rules of `t`.
fn make_theme(
    name: &str,
    description: &str,
    family: &str,
    monospace_fallback: bool,
    t: &Vec<(&'static str, &'static str, FontWeight, FontStyle)>,
) -> (r: BuiltinTheme)
    ensures
        r@ == theme_view(
            name@,
            description@,
            family@,
            if monospace_fallback {
                seq!["monospace"@]
            } else {
                Seq::empty()
            },
            t@,
        ),
{
    let fallbacks: Vec<String> = if monospace_fallback {
        vec![owned("monospace")]
    } else {
        Vec::new()
    };
    let default = DefaultFontConfig {
        family: owned(family),
        fallbacks,
        weight: FontWeight::Regular,
        style: FontStyle::Normal,
        size: None,
        axes: Vec::new(),
    };
    assert(default.axes.deep_view() =~= Seq::<crate::font::AxisView>::empty());
    assert(default.fallbacks.deep_view() =~= if monospace_fallback {
        seq!["monospace"@]
    } else {
        Seq::<Seq<char>>::empty()
    });
    BuiltinTheme {
        name: owned(name),
        description: owned(description),
        config: PolyfontConfig { version: 1, default: Some(default), rules: rules_from_table(t) },
    }
}

/// The rules of the `monaspace` theme: scope, family, weight, style.
pub open spec fn monaspace_table() -> Seq<(&'static str, &'static str, FontWeight, FontStyle)> {
    seq![
        ("keyword", "Monaspace Neon", FontWeight::Bold, FontStyle::Normal),
        ("comment", "Monaspace Argon", FontWeight::Light, FontStyle::Italic),
        ("string", "Monaspace Krypton", FontWeight::Regular, FontStyle::Normal),
        ("entity.name.function", "Monaspace Argon", FontWeight::SemiBold, FontStyle::Normal),
        ("entity.name.type", "Monaspace Neon", FontWeight::SemiBold, FontStyle::Normal),
        ("variable", "Monaspace Xenon", FontWeight::Regular, FontStyle::Normal),
        ("constant", "Monaspace Radon", FontWeight::Bold, FontStyle::Normal),
        ("support.function", "Monaspace Krypton", FontWeight::Medium, FontStyle::Normal),
        ("storage.type", "Monaspace Neon", FontWeight::Bold, FontStyle::Italic),
    ]
}

/// The rules of the `monaspace` theme.
fn monaspace_rules() -> (r: Vec<(&'static str, &'static str, FontWeight, FontStyle)>)
    ensures
        r@ == monaspace_table(),
{
    let r = vec![
        ("keyword", "Monaspace Neon", FontWeight::Bold, FontStyle::Normal),
        ("comment", "Monaspace Argon", FontWeight::Light, FontStyle::Italic),
        ("string", "Monaspace Krypton", FontWeight::Regular, FontStyle::Normal),
        ("entity.name.function", "Monaspace Argon", FontWeight::SemiBold, FontStyle::Normal),
        ("entity.name.type", "Monaspace Neon", FontWeight::SemiBold, FontStyle::Normal),
        ("variable", "Monaspace Xenon", FontWeight::Regular, FontStyle::Normal),
        ("constant", "Monaspace Radon", FontWeight::Bold, FontStyle::Normal),
        ("support.function", "Monaspace Krypton", FontWeight::Medium, FontStyle::Normal),
        ("storage.type", "Monaspace Neon", FontWeight::Bold, FontStyle::Italic),
    ];
    assert(r@ =~= monaspace_table());
    r
}

/// The rules of the `serif-mono` theme: scope, family, weight, style.
pub open spec fn serif_mono_table() -> Seq<(&'static str, &'static str, FontWeight, FontStyle)> {
    seq![
        ("comment", "Source Serif 4", FontWeight::Regular, FontStyle::Italic),
        ("comment.block.documentation", "Source Serif 4", FontWeight::Medium, FontStyle::Italic),
        ("keyword", "IBM Plex Mono", FontWeight::Bold, FontStyle::Normal),
        ("string", "IBM Plex Mono", FontWeight::Light, FontStyle::Normal),
        ("entity.name.function", "IBM Plex Mono", FontWeight::SemiBold, FontStyle::Normal),
        ("entity.name.type", "IBM Plex Mono", FontWeight::Medium, FontStyle::Normal),
        ("variable", "IBM Plex Mono", FontWeight::Regular, FontStyle::Normal),
        ("constant", "IBM Plex Mono", FontWeight::Bold, FontStyle::Normal),
        ("support.function", "IBM Plex Mono", FontWeight::Medium, FontStyle::Normal),
        ("storage.type", "IBM Plex Mono", FontWeight::Bold, FontStyle::Normal),
    ]
}

/// The rules of the `serif-mono` theme.
fn serif_mono_rules() -> (r: Vec<(&'static str, &'static str, FontWeight, FontStyle)>)
    ensures
        r@ == serif_mono_table(),
{
    let r = vec![
        ("comment", "Source Serif 4", FontWeight::Regular, FontStyle::Italic),
        ("comment.block.documentation", "Source Serif 4", FontWeight::Medium, FontStyle::Italic),
        ("keyword", "IBM Plex Mono", FontWeight::Bold, FontStyle::Normal),
        ("string", "IBM Plex Mono", FontWeight::Light, FontStyle::Normal),
        ("entity.name.function", "IBM Plex Mono", FontWeight::SemiBold, FontStyle::Normal),
        ("entity.name.type", "IBM Plex Mono", FontWeight::Medium, FontStyle::Normal),
        ("variable", "IBM Plex Mono", FontWeight::Regular, FontStyle::Normal),
        ("constant", "IBM Plex Mono", FontWeight::Bold, FontStyle::Normal),
        ("support.function", "IBM Plex Mono", FontWeight::Medium, FontStyle::Normal),
        ("storage.type", "IBM Plex Mono", FontWeight::Bold, FontStyle::Normal),
    ];
    assert(r@ =~= serif_mono_table());
    r
}

/// The rules of the `weight-differentiated` theme: scope, family, weight, style.
pub open spec fn weight_differentiated_table() -> Seq<(&'static str, &'static str, FontWeight, FontStyle)> {
    seq![
        ("keyword", "JetBrains Mono", FontWeight::Bold, FontStyle::Normal),
        ("comment", "JetBrains Mono", FontWeight::Light, FontStyle::Italic),
        ("string", "JetBrains Mono", FontWeight::Thin, FontStyle::Normal),
        ("entity.name.function", "JetBrains Mono", FontWeight::SemiBold, FontStyle::Normal),
        ("entity.name.type", "JetBrains Mono", FontWeight::Medium, FontStyle::Normal),
        ("variable", "JetBrains Mono", FontWeight::Regular, FontStyle::Normal),
        ("constant", "JetBrains Mono", FontWeight::ExtraBold, FontStyle::Normal),
        ("support.function", "JetBrains Mono", FontWeight::Medium, FontStyle::Normal),
        ("storage.type", "JetBrains Mono", FontWeight::Black, FontStyle::Normal),
    ]
}

/// The rules of the `weight-differentiated` theme.
fn weight_differentiated_rules() -> (r: Vec<(&'static str, &'static str, FontWeight, FontStyle)>)
    ensures
        r@ == weight_differentiated_table(),
{
    let r = vec![
        ("keyword", "JetBrains Mono", FontWeight::Bold, FontStyle::Normal),
        ("comment", "JetBrains Mono", FontWeight::Light, FontStyle::Italic),
        ("string", "JetBrains Mono", FontWeight::Thin, FontStyle::Normal),
        ("entity.name.function", "JetBrains Mono", FontWeight::SemiBold, FontStyle::Normal),
        ("entity.name.type", "JetBrains Mono", FontWeight::Medium, FontStyle::Normal),
        ("variable", "JetBrains Mono", FontWeight::Regular, FontStyle::Normal),
        ("constant", "JetBrains Mono", FontWeight::ExtraBold, FontStyle::Normal),
        ("support.function", "JetBrains Mono", FontWeight::Medium, FontStyle::Normal),
        ("storage.type", "JetBrains Mono", FontWeight::Black, FontStyle::Normal),
    ];
    assert(r@ =~= weight_differentiated_table());
    r
}

/// The rules of the `minimal` theme: scope, family, weight, style.
pub open spec fn minimal_table() -> Seq<(&'static str, &'static str, FontWeight, FontStyle)> {
    seq![
        ("keyword", "monospace", FontWeight::Bold, FontStyle::Normal),
        ("comment", "monospace", FontWeight::Regular, FontStyle::Italic),
        ("string", "monospace", FontWeight::Light, FontStyle::Normal),
        ("entity.name.function", "monospace", FontWeight::SemiBold, FontStyle::Normal),
    ]
}

/// The rules of the `minimal` theme.
fn minimal_rules() -> (r: Vec<(&'static str, &'static str, FontWeight, FontStyle)>)
    ensures
        r@ == minimal_table(),
{
    let r = vec![
        ("keyword", "monospace", FontWeight::Bold, FontStyle::Normal),
        ("comment", "monospace", FontWeight::Regular, FontStyle::Italic),
        ("string", "monospace", FontWeight::Light, FontStyle::Normal),
        ("entity.name.function", "monospace", FontWeight::SemiBold, FontStyle::Normal),
    ];
    assert(r@ =~= minimal_table());
    r
}

/// The rules of the `maximal` theme: scope, family, weight, style.
pub open spec fn maximal_table() -> Seq<(&'static str, &'static str, FontWeight, FontStyle)> {
    seq![
        ("keyword", "Maple Mono", FontWeight::Bold, FontStyle::Normal),
        ("keyword.control", "Maple Mono", FontWeight::ExtraBold, FontStyle::Normal),
        ("comment", "IBM Plex Mono", FontWeight::Regular, FontStyle::Italic),
        ("comment.block.documentation", "IBM Plex Mono", FontWeight::Medium, FontStyle::Italic),
        ("string", "Source Code Pro", FontWeight::Light, FontStyle::Normal),
        ("string.interpolated", "Source Code Pro", FontWeight::Medium, FontStyle::Normal),
        ("entity.name.function", "Monaspace Argon", FontWeight::SemiBold, FontStyle::Normal),
        ("entity.name.function.method", "Monaspace Argon", FontWeight::Bold, FontStyle::Normal),
        ("entity.name.type", "Monaspace Neon", FontWeight::SemiBold, FontStyle::Normal),
        ("entity.name.class", "Monaspace Neon", FontWeight::Bold, FontStyle::Normal),
        ("entity.name.struct", "Monaspace Neon", FontWeight::Bold, FontStyle::Normal),
        ("entity.name.enum", "Monaspace Neon", FontWeight::Bold, FontStyle::Normal),
        ("variable", "JetBrains Mono", FontWeight::Regular, FontStyle::Normal),
        ("variable.parameter", "JetBrains Mono", FontWeight::Light, FontStyle::Italic),
        ("constant", "Monaspace Radon", FontWeight::Bold, FontStyle::Normal),
        ("constant.numeric", "Monaspace Radon", FontWeight::ExtraBold, FontStyle::Normal),
        ("support.function", "Monaspace Krypton", FontWeight::Medium, FontStyle::Normal),
        ("storage.type", "Maple Mono", FontWeight::Bold, FontStyle::Italic),
        ("punctuation", "JetBrains Mono", FontWeight::Light, FontStyle::Normal),
        ("punctuation.bracket", "JetBrains Mono", FontWeight::Regular, FontStyle::Normal),
    ]
}

/// The rules of the `maximal` theme.
fn maximal_rules() -> (r: Vec<(&'static str, &'static str, FontWeight, FontStyle)>)
    ensures
        r@ == maximal_table(),
{
    let r = vec![
        ("keyword", "Maple Mono", FontWeight::Bold, FontStyle::Normal),
        ("keyword.control", "Maple Mono", FontWeight::ExtraBold, FontStyle::Normal),
        ("comment", "IBM Plex Mono", FontWeight::Regular, FontStyle::Italic),
        ("comment.block.documentation", "IBM Plex Mono", FontWeight::Medium, FontStyle::Italic),
        ("string", "Source Code Pro", FontWeight::Light, FontStyle::Normal),
        ("string.interpolated", "Source Code Pro", FontWeight::Medium, FontStyle::Normal),
        ("entity.name.function", "Monaspace Argon", FontWeight::SemiBold, FontStyle::Normal),
        ("entity.name.function.method", "Monaspace Argon", FontWeight::Bold, FontStyle::Normal),
        ("entity.name.type", "Monaspace Neon", FontWeight::SemiBold, FontStyle::Normal),
        ("entity.name.class", "Monaspace Neon", FontWeight::Bold, FontStyle::Normal),
        ("entity.name.struct", "Monaspace Neon", FontWeight::Bold, FontStyle::Normal),
        ("entity.name.enum", "Monaspace Neon", FontWeight::Bold, FontStyle::Normal),
        ("variable", "JetBrains Mono", FontWeight::Regular, FontStyle::Normal),
        ("variable.parameter", "JetBrains Mono", FontWeight::Light, FontStyle::Italic),
        ("constant", "Monaspace Radon", FontWeight::Bold, FontStyle::Normal),
        ("constant.numeric", "Monaspace Radon", FontWeight::ExtraBold, FontStyle::Normal),
        ("support.function", "Monaspace Krypton", FontWeight::Medium, FontStyle::Normal),
        ("storage.type", "Maple Mono", FontWeight::Bold, FontStyle::Italic),
        ("punctuation", "JetBrains Mono", FontWeight::Light, FontStyle::Normal),
        ("punctuation.bracket", "JetBrains Mono", FontWeight::Regular, FontStyle::Normal),
    ];
    assert(r@ =~= maximal_table());
    r
}

/// The built-in themes, in order.
pub open spec fn builtin_theme_views() -> Seq<BuiltinThemeView> {
    seq![
        theme_view("monaspace"@, "All Monaspace variants with weight differentiation"@, "Monaspace Xenon"@, seq!["monospace"@], monaspace_table()),
        theme_view("serif-mono"@, "Serif fonts for comments, sans-serif for code"@, "IBM Plex Mono"@, seq!["monospace"@], serif_mono_table()),
        theme_view("weight-differentiated"@, "Same font family, different weights per scope"@, "JetBrains Mono"@, seq!["monospace"@], weight_differentiated_table()),
        theme_view("minimal"@, "Only 4 rules: keyword, comment, string, function"@, "monospace"@, Seq::empty(), minimal_table()),
        theme_view("maximal"@, "17+ rules covering every common scope"@, "JetBrains Mono"@, seq!["monospace"@], maximal_table()),
    ]
}

/// The built-in themes.
pub fn builtin_themes() -> (r: Vec<BuiltinTheme>)
    ensures
        r.deep_view() == builtin_theme_views(),
{
    let t0 = make_theme("monaspace", "All Monaspace variants with weight differentiation", "Monaspace Xenon", true, &monaspace_rules());
    let t1 = make_theme("serif-mono", "Serif fonts for comments, sans-serif for code", "IBM Plex Mono", true, &serif_mono_rules());
    let t2 = make_theme("weight-differentiated", "Same font family, different weights per scope", "JetBrains Mono", true, &weight_differentiated_rules());
    let t3 = make_theme("minimal", "Only 4 rules: keyword, comment, string, function", "monospace", false, &minimal_rules());
    let t4 = make_theme("maximal", "17+ rules covering every common scope", "JetBrains Mono", true, &maximal_rules());
    let r = vec![t0, t1, t2, t3, t4];
    assert(r.deep_view() =~= builtin_theme_views());
    r
}

/// Every name a built-in theme uses as a scope or family is non-blank.
proof fn lemma_theme_literals()
    ensures
        !blank("IBM Plex Mono"@),
        !blank("JetBrains Mono"@),
        !blank("Maple Mono"@),
        !blank("Monaspace Argon"@),
        !blank("Monaspace Krypton"@),
        !blank("Monaspace Neon"@),
        !blank("Monaspace Radon"@),
        !blank("Monaspace Xenon"@),
        !blank("Source Code Pro"@),
        !blank("Source Serif 4"@),
        !blank("comment"@),
        !blank("comment.block.documentation"@),
        !blank("constant"@),
        !blank("constant.numeric"@),
        !blank("entity.name.class"@),
        !blank("entity.name.enum"@),
        !blank("entity.name.function"@),
        !blank("entity.name.function.method"@),
        !blank("entity.name.struct"@),
        !blank("entity.name.type"@),
        !blank("keyword"@),
        !blank("keyword.control"@),
        !blank("monospace"@),
        !blank("punctuation"@),
        !blank("punctuation.bracket"@),
        !blank("storage.type"@),
        !blank("string"@),
        !blank("string.interpolated"@),
        !blank("support.function"@),
        !blank("variable"@),
        !blank("variable.parameter"@),
{
    reveal_strlit("IBM Plex Mono");
    reveal_strlit("JetBrains Mono");
    reveal_strlit("Maple Mono");
    reveal_strlit("Monaspace Argon");
    reveal_strlit("Monaspace Krypton");
    reveal_strlit("Monaspace Neon");
    reveal_strlit("Monaspace Radon");
    reveal_strlit("Monaspace Xenon");
    reveal_strlit("Source Code Pro");
    reveal_strlit("Source Serif 4");
    reveal_strlit("comment");
    reveal_strlit("comment.block.documentation");
    reveal_strlit("constant");
    reveal_strlit("constant.numeric");
    reveal_strlit("entity.name.class");
    reveal_strlit("entity.name.enum");
    reveal_strlit("entity.name.function");
    reveal_strlit("entity.name.function.method");
    reveal_strlit("entity.name.struct");
    reveal_strlit("entity.name.type");
    reveal_strlit("keyword");
    reveal_strlit("keyword.control");
    reveal_strlit("monospace");
    reveal_strlit("punctuation");
    reveal_strlit("punctuation.bracket");
    reveal_strlit("storage.type");
    reveal_strlit("string");
    reveal_strlit("string.interpolated");
    reveal_strlit("support.function");
    reveal_strlit("variable");
    reveal_strlit("variable.parameter");
}

/// The first theme named `name`.
pub open spec fn find_theme(ts: Seq<BuiltinThemeView>, name: Seq<char>) -> Option<BuiltinThemeView>
    decreases ts.len(),
{
    if ts.len() == 0 {
        None
    } else if ts[0].name == name {
        Some(ts[0])
    } else {
        find_theme(ts.drop_first(), name)
    }
}

/// The name and description of a theme.
pub open spec fn info_of(t: BuiltinThemeView) -> ThemeInfoView {
    ThemeInfoView { name: t.name, description: t.description }
}

/// The catalogue of built-in themes.
pub struct ThemeRegistry;

impl ThemeRegistry {
    /// The name and description of each built-in theme, in order.
    pub fn list_themes(&self) -> (r: Vec<ThemeInfo>)
        ensures
            r.deep_view() == builtin_theme_views().map_values(|t: BuiltinThemeView| info_of(t)),
    {
        let themes = builtin_themes();
        let ghost tv = builtin_theme_views();
        let mut r: Vec<ThemeInfo> = Vec::new();
        let mut i: usize = 0;
        while i < themes.len()
            invariant
                tv == builtin_theme_views(),
                themes.deep_view() == tv,
                i <= tv.len(),
                r.deep_view() == tv.take(i as int).map_values(|t: BuiltinThemeView| info_of(t)),
            decreases themes.len() - i,
        {
            let ghost prev = r.deep_view();
            let info = ThemeInfo { name: themes[i].name.clone(), description: themes[i].description.clone() };
            let ghost iv = info@;
            assert(iv == info_of(tv[i as int]));
            r.push(info);
            assert(r.deep_view() =~= prev.push(iv));
            assert(tv.take(i + 1).map_values(|t: BuiltinThemeView| info_of(t)) =~= tv.take(i as int).map_values(
                |t: BuiltinThemeView| info_of(t),
            ).push(iv));
            i = i + 1;
        }
        assert(tv.take(tv.len() as int) =~= tv);
        r
    }

    /// The built-in theme named `name`, if there is one.
    pub fn get_theme(&self, name: &str) -> (r: Option<BuiltinTheme>)
        ensures
            r matches Some(t) ==> find_theme(builtin_theme_views(), name@) == Some(t@),
            r is None ==> find_theme(builtin_theme_views(), name@) is None,
    {
        let mut themes = builtin_themes();
        let ghost tv = builtin_theme_views();
        let mut i: usize = 0;
        assert(tv.skip(0) =~= tv);
        while i < themes.len()
            invariant
                tv == builtin_theme_views(),
                themes.deep_view() == tv,
                i <= tv.len(),
                find_theme(tv, name@) == find_theme(tv.skip(i as int), name@),
            decreases themes.len() - i,
        {
            assert(tv.skip(i as int)[0] == tv[i as int]);
            assert(tv.skip(i as int).drop_first() =~= tv.skip(i + 1));
            if str_eq(themes[i].name.as_str(), name) {
                let t = themes.remove(i);
                return Some(t);
            }
            i = i + 1;
        }
        None
    }
}

/// A list of rules none of which has a blank scope or family passes the
/// rule checks of validation.
proof fn lemma_rules_pass(rules: Seq<FontRuleView>, i: int)
    requires
        0 <= i,
        forall|j: int| 0 <= j < rules.len() ==> !blank(#[trigger] rules[j].scope) && !blank(rules[j].font.family),
    ensures
        first_bad_rule(rules, i) is None,
    decreases rules.len() - i,
{
    if i < rules.len() {
        lemma_rules_pass(rules, i + 1);
    }
}

/// A theme whose default family and rule names are all non-blank, and of
/// the current version, validates.
proof fn lemma_theme_valid(t: BuiltinThemeView)
    requires
        t.config.version == 1,
        t.config.default matches Some(d) && !blank(d.family),
        forall|j: int|
            0 <= j < t.config.rules.len() ==> !blank(#[trigger] t.config.rules[j].scope) && !blank(
                t.config.rules[j].font.family,
            ),
    ensures
        config_problem(t.config) is None,
{
    lemma_rules_pass(t.config.rules, 0);
}

/// Every built-in theme validates.
pub proof fn lemma_builtin_themes_valid()
    ensures
        forall|i: int|
            0 <= i < builtin_theme_views().len() ==> config_problem(#[trigger] builtin_theme_views()[i].config) is None,
{
    lemma_theme_literals();
    let ts = builtin_theme_views();
    assert forall|i: int| 0 <= i < ts.len() implies config_problem(#[trigger] ts[i].config) is None by {
        let t = ts[i];
        let rules = t.config.rules;
        assert forall|j: int| 0 <= j < rules.len() implies !blank(#[trigger] rules[j].scope) && !blank(
            rules[j].font.family,
        ) by {
            if i == 0 {
                assert(rules == table_rules(monaspace_table()));
            }
        }
        lemma_theme_valid(t);
    }
}

} // verus!
