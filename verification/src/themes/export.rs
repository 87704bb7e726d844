//! Writing configurations out for other tools.
use vstd::prelude::*;

use crate::config::{FontConfig, PolyfontConfig};
use crate::font::{style_name, weight_name, FontRuleView, FontSpecView, FontStyle, FontWeight};
use crate::text::{concat, owned};

verus! {

broadcast use {vstd::seq_lib::group_seq_properties, crate::lemma_chars_deep_view};

/// The `fontStyle` words an editor theme gets for a font: its weight when
/// not regular, then its style when not normal.
pub open spec fn font_style_names(f: FontSpecView) -> Seq<Seq<char>> {
    (if f.weight != FontWeight::Regular {
        seq![weight_name(f.weight)]
    } else {
        Seq::empty()
    }) + (if f.style != FontStyle::Normal {
        seq![style_name(f.style)]
    } else {
        Seq::empty()
    })
}

/// The (scope, font style words) entry of an editor theme for a rule.
pub open spec fn vscode_entry(r: FontRuleView) -> (Seq<char>, Seq<Seq<char>>) {
    (r.scope, font_style_names(r.font))
}

/// Writes configurations in other formats.
pub struct ThemeExporter;

impl ThemeExporter {
    /// The heading put before an exported configuration document.
    pub fn config_document(toml_text: &str) -> (r: String)
        ensures
            r@ == "# polyfont config\n"@ + toml_text@,
    {
        concat("# polyfont config\n", toml_text)
    }

    /// The `fontStyle` words for a rule's font.
    pub fn font_style_values(font: &FontConfig) -> (r: Vec<String>)
        ensures
            r.deep_view() == font_style_names(font@),
    {
        let mut r: Vec<String> = Vec::new();
        if font.weight != FontWeight::Regular {
            r.push(font.weight.to_string());
        }
        let ghost mid = r.deep_view();
        if font.style != FontStyle::Normal {
            r.push(font.style.to_string());
        }
        assert(r.deep_view() =~= font_style_names(font@));
        r
    }

    /// The editor-theme entries of a configuration: one per rule, in order,
    /// with the rule's scope and `fontStyle` words.
    pub fn vscode_entries(config: &PolyfontConfig) -> (r: Vec<(String, Vec<String>)>)
        ensures
            r@.map_values(|e: (String, Vec<String>)| (e.0@, e.1.deep_view())) == config@.rules.map_values(
                |x: FontRuleView| vscode_entry(x),
            ),
    {
        let ghost target = config@.rules.map_values(|x: FontRuleView| vscode_entry(x));
        let mut r: Vec<(String, Vec<String>)> = Vec::new();
        let mut i: usize = 0;
        while i < config.rules.len()
            invariant
                target == config@.rules.map_values(|x: FontRuleView| vscode_entry(x)),
                i <= config.rules@.len(),
                r@.map_values(|e: (String, Vec<String>)| (e.0@, e.1.deep_view())) == target.take(i as int),
            decreases config.rules.len() - i,
        {
            let rule = &config.rules[i];
            let e = (rule.scope.clone(), ThemeExporter::font_style_values(&rule.font));
            let ghost ev = (e.0@, e.1.deep_view());
            assert(ev == target[i as int]);
            let ghost prev = r@;
            r.push(e);
            assert(r@.map_values(|e: (String, Vec<String>)| (e.0@, e.1.deep_view())) =~= prev.map_values(
                |e: (String, Vec<String>)| (e.0@, e.1.deep_view()),
            ).push(ev));
            assert(target.take(i + 1) =~= target.take(i as int).push(ev));
            i = i + 1;
        }
        assert(target.take(config.rules@.len() as int) =~= target);
        r
    }
}

} // verus!
