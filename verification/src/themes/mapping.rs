//! Mapping scopes to font families, and building a configuration from
//! (scope, font style) entries such as an editor theme lists.
use vstd::prelude::*;

use crate::config::{ConfigView, DefaultFontConfig, FontConfig, PolyfontConfig, RuleConfig};
use crate::font::{FontRuleView, FontSpecView, FontStyle, FontWeight};
use crate::text::{append, chars_eq, chars_of, join_s, owned, split, split_s, str_eq, string_of, words, words_s};

verus! {

broadcast use {vstd::seq_lib::group_seq_properties, crate::lemma_chars_deep_view};

/// Which family each scope gets, and the family for everything else.
///
/// A scope listed more than once resolves to its first entry.
#[derive(Debug)]
pub struct FontMapping {
    pub scope_fonts: Vec<(String, String)>,
    pub default_family: Option<String>,
}

/// The mathematical content of a [`FontMapping`].
pub struct FontMappingView {
    pub scope_fonts: Seq<(Seq<char>, Seq<char>)>,
    pub default_family: Option<Seq<char>>,
}

impl View for FontMapping {
    type V = FontMappingView;

    open spec fn view(&self) -> FontMappingView {
        FontMappingView {
            scope_fonts: self.scope_fonts@.map_values(|p: (String, String)| (p.0@, p.1@)),
            default_family: match self.default_family {
                Some(f) => Some(f@),
                None => None,
            },
        }
    }
}

/// The family listed for exactly `scope`, the first entry winning.
pub open spec fn lookup(pairs: Seq<(Seq<char>, Seq<char>)>, scope: Seq<char>) -> Option<Seq<char>>
    decreases pairs.len(),
{
    if pairs.len() == 0 {
        None
    } else if pairs[0].0 == scope {
        Some(pairs[0].1)
    } else {
        lookup(pairs.drop_first(), scope)
    }
}

/// The family of the longest proper dotted prefix of a scope (of `k`
/// segments or fewer, at least one) that is listed.
pub open spec fn prefix_match(pairs: Seq<(Seq<char>, Seq<char>)>, parts: Seq<Seq<char>>, k: int) -> Option<
    Seq<char>,
>
    decreases k,
{
    if k < 1 {
        None
    } else {
        match lookup(pairs, join_s(parts.take(k), seq!['.'])) {
            Some(f) => Some(f),
            None => prefix_match(pairs, parts, k - 1),
        }
    }
}

/// The family for `scope`: its own entry, else that of its longest listed
/// dotted prefix, else the default family, else `monospace`.
pub open spec fn resolve_family_s(m: FontMappingView, scope: Seq<char>) -> Seq<char> {
    match lookup(m.scope_fonts, scope) {
        Some(f) => f,
        None => {
            let parts = split_s(scope, '.');
            match prefix_match(m.scope_fonts, parts, parts.len() - 1) {
                Some(f) => f,
                None => match m.default_family {
                    Some(d) => d,
                    None => "monospace"@,
                },
            }
        },
    }
}

/// The weight and style named by the words of a font style, later words
/// overriding earlier ones; other words are ignored.
pub open spec fn style_words(ws: Seq<Seq<char>>) -> (FontWeight, FontStyle)
    decreases ws.len(),
{
    if ws.len() == 0 {
        (FontWeight::Regular, FontStyle::Normal)
    } else {
        let (w, s) = style_words(ws.drop_last());
        let t = ws.last();
        if t == "bold"@ {
            (FontWeight::Bold, s)
        } else if t == "italic"@ {
            (w, FontStyle::Italic)
        } else if t == "oblique"@ {
            (w, FontStyle::Oblique)
        } else {
            (w, s)
        }
    }
}

/// The weight and style of a font style string such as `bold italic`.
pub open spec fn font_style_of(s: Seq<char>) -> (FontWeight, FontStyle) {
    style_words(words_s(s))
}

/// A plain font of `family` with the given weight and style.
pub open spec fn plain_font(family: Seq<char>, w: FontWeight, s: FontStyle) -> FontSpecView {
    FontSpecView { family, fallbacks: Seq::empty(), weight: w, style: s, size: None, axes: Seq::empty() }
}

/// The rule built from one (scope, font style) entry.
pub open spec fn entry_rule(m: FontMappingView, e: (Seq<char>, Seq<char>)) -> FontRuleView {
    FontRuleView {
        scope: e.0,
        font: plain_font(resolve_family_s(m, e.0), font_style_of(e.1).0, font_style_of(e.1).1),
    }
}

/// The configuration built from entries: a rule per entry, in order, and a
/// plain default font of the mapping's default family (or `monospace`).
pub open spec fn config_from_entries(m: FontMappingView, es: Seq<(Seq<char>, Seq<char>)>) -> ConfigView {
    ConfigView {
        version: 1,
        default: Some(
            plain_font(
                match m.default_family {
                    Some(d) => d,
                    None => "monospace"@,
                },
                FontWeight::Regular,
                FontStyle::Normal,
            ),
        ),
        rules: es.map_values(|e: (Seq<char>, Seq<char>)| entry_rule(m, e)),
    }
}

/// The scopes of the built-in mapping and their families.
pub open spec fn builtin_scope_fonts() -> Seq<(Seq<char>, Seq<char>)> {
    seq![
        ("keyword"@, "Maple Mono"@),
        ("comment"@, "IBM Plex Mono"@),
        ("string"@, "Source Code Pro"@),
        ("entity.name.function"@, "Monaspace Argon"@),
        ("entity.name.type"@, "Monaspace Neon"@),
        ("variable"@, "JetBrains Mono"@),
        ("constant"@, "Monaspace Radon"@),
        ("support.function"@, "Monaspace Krypton"@),
        ("storage.type"@, "Maple Mono"@),
    ]
}

impl Default for FontMapping {
    /// The built-in mapping (see [`FontMapping::default_mapping`]).
    fn default() -> (r: Self)
        ensures
            r@.scope_fonts == builtin_scope_fonts(),
            r@.default_family == Some("JetBrains Mono"@),
    {
        FontMapping::default_mapping()
    }
}

impl FontMapping {
    /// The built-in mapping of common scopes to coding fonts.
    pub fn default_mapping() -> (r: Self)
        ensures
            r@.scope_fonts == builtin_scope_fonts(),
            r@.default_family == Some("JetBrains Mono"@),
    {
        let scope_fonts = vec![
            (owned("keyword"), owned("Maple Mono")),
            (owned("comment"), owned("IBM Plex Mono")),
            (owned("string"), owned("Source Code Pro")),
            (owned("entity.name.function"), owned("Monaspace Argon")),
            (owned("entity.name.type"), owned("Monaspace Neon")),
            (owned("variable"), owned("JetBrains Mono")),
            (owned("constant"), owned("Monaspace Radon")),
            (owned("support.function"), owned("Monaspace Krypton")),
            (owned("storage.type"), owned("Maple Mono")),
        ];
        let r = FontMapping { scope_fonts, default_family: Some(owned("JetBrains Mono")) };
        assert(r@.scope_fonts =~= builtin_scope_fonts());
        r
    }

    /// Whether `scope` has an entry of its own.
    pub fn contains_scope(&self, scope: &str) -> (r: bool)
        ensures
            r == lookup(self@.scope_fonts, scope@) is Some,
    {
        let s = chars_of(scope);
        self.lookup_family(s.as_slice()).is_some()
    }

    /// The family of the first entry for exactly `scope`.
    fn lookup_family(&self, scope: &[char]) -> (r: Option<String>)
        ensures
            r matches Some(f) ==> lookup(self@.scope_fonts, scope@) == Some(f@),
            r is None ==> lookup(self@.scope_fonts, scope@) is None,
    {
        let ghost v = self@.scope_fonts;
        let mut i: usize = 0;
        assert(v.skip(0) =~= v);
        while i < self.scope_fonts.len()
            invariant
                v == self@.scope_fonts,
                v.len() == self.scope_fonts@.len(),
                i <= v.len(),
                lookup(v, scope@) == lookup(v.skip(i as int), scope@),
            decreases self.scope_fonts.len() - i,
        {
            assert(v.skip(i as int)[0] == v[i as int]);
            assert(v.skip(i as int).drop_first() =~= v.skip(i + 1));
            let key = chars_of(self.scope_fonts[i].0.as_str());
            if chars_eq(key.as_slice(), scope) {
                return Some(self.scope_fonts[i].1.clone());
            }
            i = i + 1;
        }
        None
    }

    /// The family of the longest proper dotted prefix of `scope` that has an
    /// entry.
    pub fn find_prefix_match(&self, scope: &str) -> (r: Option<String>)
        ensures
            r matches Some(f) ==> prefix_match(
                self@.scope_fonts,
                split_s(scope@, '.'),
                split_s(scope@, '.').len() - 1,
            ) == Some(f@),
            r is None ==> prefix_match(
                self@.scope_fonts,
                split_s(scope@, '.'),
                split_s(scope@, '.').len() - 1,
            ) is None,
    {
        let s = chars_of(scope);
        let parts = split(s.as_slice(), '.');
        let ghost pv = parts.deep_view();
        proof {
            crate::text::lemma_split_nonempty(s@, '.');
        }
        // joined[k - 1] is the first k segments joined by dots.
        let mut joined: Vec<Vec<char>> = Vec::new();
        let mut cur: Vec<char> = crate::text::copy_chars(&parts[0]);
        assert(join_s(pv.take(1), seq!['.']) == pv[0]);
        let mut k: usize = 1;
        while k < parts.len()
            invariant
                pv == parts.deep_view(),
                1 <= k <= pv.len(),
                joined@.len() == k - 1,
                cur@ == join_s(pv.take(k as int), seq!['.']),
                forall|j: int| 0 <= j < k - 1 ==> #[trigger] joined@[j]@ == join_s(pv.take(j + 1), seq!['.']),
            decreases parts.len() - k,
        {
            let next_cur = {
                let mut c = crate::text::copy_chars(&cur);
                c.push('.');
                append(&mut c, parts[k].as_slice());
                c
            };
            proof {
                assert(pv.take(k + 1).drop_last() =~= pv.take(k as int));
                assert(next_cur@ =~= join_s(pv.take(k as int), seq!['.']) + seq!['.'] + pv[k as int]);
            }
            joined.push(cur);
            cur = next_cur;
            k = k + 1;
        }
        let n = parts.len();
        let mut j = n - 1;
        assert(prefix_match(self@.scope_fonts, pv, (n - 1) as int) == prefix_match(
            self@.scope_fonts,
            pv,
            j as int,
        ));
        while j >= 1
            invariant
                pv == parts.deep_view(),
                pv == split_s(scope@, '.'),
                n == pv.len(),
                j <= n - 1,
                joined@.len() == n - 1,
                forall|i: int| 0 <= i < n - 1 ==> #[trigger] joined@[i]@ == join_s(pv.take(i + 1), seq!['.']),
                prefix_match(self@.scope_fonts, pv, (n - 1) as int) == prefix_match(
                    self@.scope_fonts,
                    pv,
                    j as int,
                ),
            decreases j,
        {
            assert(joined@[j - 1]@ == join_s(pv.take(j as int), seq!['.']));
            match self.lookup_family(joined[j - 1].as_slice()) {
                Some(f) => {
                    return Some(f);
                },
                None => {},
            }
            j = j - 1;
        }
        None
    }

    /// The family for `scope`: its own entry, else that of its longest
    /// listed dotted prefix, else the default family, else `monospace`.
    pub fn resolve_family(&self, scope: &str) -> (r: String)
        ensures
            r@ == resolve_family_s(self@, scope@),
    {
        let s = chars_of(scope);
        match self.lookup_family(s.as_slice()) {
            Some(f) => f,
            None => match self.find_prefix_match(scope) {
                Some(f) => f,
                None => match &self.default_family {
                    Some(d) => d.clone(),
                    None => owned("monospace"),
                },
            },
        }
    }
}

/// The weight and style named in a font style string such as
/// `bold italic`; unknown words are ignored.
pub fn parse_font_style(style_str: &str) -> (r: (FontWeight, FontStyle))
    ensures
        r == font_style_of(style_str@),
{
    let s = chars_of(style_str);
    let ws = words(s.as_slice());
    let ghost wv = ws.deep_view();
    let mut weight = FontWeight::Regular;
    let mut style = FontStyle::Normal;
    let mut i: usize = 0;
    assert(wv.take(0) =~= Seq::<Seq<char>>::empty());
    while i < ws.len()
        invariant
            wv == ws.deep_view(),
            i <= wv.len(),
            (weight, style) == style_words(wv.take(i as int)),
        decreases ws.len() - i,
    {
        assert(wv.take(i + 1).drop_last() =~= wv.take(i as int));
        let t = string_of(ws[i].as_slice());
        if str_eq(t.as_str(), "bold") {
            weight = FontWeight::Bold;
        } else if str_eq(t.as_str(), "italic") {
            style = FontStyle::Italic;
        } else if str_eq(t.as_str(), "oblique") {
            style = FontStyle::Oblique;
        }
        i = i + 1;
    }
    assert(wv.take(wv.len() as int) =~= wv);
    (weight, style)
}

/// The views of (scope, font style) entries.
pub open spec fn entry_views(es: Seq<(String, String)>) -> Seq<(Seq<char>, Seq<char>)> {
    es.map_values(|e: (String, String)| (e.0@, e.1@))
}

/// The configuration for a list of (scope, font style) entries: one rule
/// per entry, its family resolved through `mapping` and its weight and
/// style read from the font style, plus a plain default font.
pub fn build_config_from_entries(entries: Vec<(String, String)>, mapping: &FontMapping) -> (r:
    PolyfontConfig)
    ensures
        r@ == config_from_entries(mapping@, entry_views(entries@)),
{
    let ghost ev = entry_views(entries@);
    let ghost target = config_from_entries(mapping@, ev);
    let mut rules: Vec<RuleConfig> = Vec::new();
    let mut i: usize = 0;
    while i < entries.len()
        invariant
            ev == entry_views(entries@),
            target == config_from_entries(mapping@, ev),
            i <= entries@.len(),
            rules.deep_view() == target.rules.take(i as int),
        decreases entries.len() - i,
    {
        let ghost prev = rules.deep_view();
        let (weight, style) = parse_font_style(entries[i].1.as_str());
        let family = mapping.resolve_family(entries[i].0.as_str());
        let rule = RuleConfig {
            scope: entries[i].0.clone(),
            font: FontConfig {
                family,
                fallbacks: Vec::new(),
                weight,
                style,
                size: None,
                axes: Vec::new(),
            },
        };
        let ghost rv = rule@;
        assert(rule.font.fallbacks.deep_view() =~= Seq::<Seq<char>>::empty());
        assert(rule.font.axes.deep_view() =~= Seq::<crate::font::AxisView>::empty());
        assert(ev[i as int] == (entries@[i as int].0@, entries@[i as int].1@));
        assert(rv == entry_rule(mapping@, ev[i as int]));
        rules.push(rule);
        assert(rules.deep_view() =~= prev.push(rv));
        assert(target.rules.take(i + 1) =~= target.rules.take(i as int).push(rv));
        i = i + 1;
    }
    assert(target.rules.take(entries@.len() as int) =~= target.rules);
    let default_family = match &mapping.default_family {
        Some(d) => d.clone(),
        None => owned("monospace"),
    };
    let default = DefaultFontConfig {
        family: default_family,
        fallbacks: Vec::new(),
        weight: FontWeight::Regular,
        style: FontStyle::Normal,
        size: None,
        axes: Vec::new(),
    };
    assert(default.fallbacks.deep_view() =~= Seq::<Seq<char>>::empty());
    assert(default.axes.deep_view() =~= Seq::<crate::font::AxisView>::empty());
    PolyfontConfig { version: 1, default: Some(default), rules }
}

} // verus!
