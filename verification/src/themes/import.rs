//! Building font configurations from editor color themes.
//!
//! Only a theme's scopes and font styles matter here; colors are ignored.
use vstd::prelude::*;

use crate::config::PolyfontConfig;
use crate::text::{
    append, chars_of, find, find_s, lemma_find_some, occurs_at, owned, slice_range, split,
    split_s, str_eq, string_of, trim, trim_s, words, words_s,
};
use crate::themes::error::ThemeError;
use crate::themes::mapping::{build_config_from_entries, config_from_entries, entry_views, FontMapping};

verus! {

broadcast use {vstd::seq_lib::group_seq_properties, crate::lemma_chars_deep_view};

/// Where the value of a `<string>…</string>` element begins in `after`,
/// and how long it is, when `after` holds one.
pub open spec fn string_value(after: Seq<char>) -> Option<(int, int)> {
    match find_s(after, "<string>"@) {
        None => None,
        Some(ss) => {
            let vs = ss + "<string>"@.len();
            match find_s(after.skip(vs), "</string>"@) {
                None => None,
                Some(se) => Some((vs, se)),
            }
        },
    }
}

/// The text after the first font-style key of a dictionary (either
/// spelling is accepted, `<key>fontStyle</key>` first).
pub open spec fn font_style_region(rem: Seq<char>) -> Option<Seq<char>> {
    let p1 = "<key>fontStyle</key>"@;
    let p2 = "<string>fontStyle</string>"@;
    match find_s(rem, p1) {
        Some(p) => Some(rem.skip(p + p1.len())),
        None => match find_s(rem, p2) {
            Some(p) => Some(rem.skip(p + p2.len())),
            None => None,
        },
    }
}

/// The text of the first string element of `after`, or nothing.
pub open spec fn string_value_text(after: Seq<char>) -> Seq<char> {
    match string_value(after) {
        Some((vs, se)) => after.subrange(vs, vs + se),
        None => Seq::empty(),
    }
}

/// The weight and style words of a font-style value: `bold` and `italic`
/// when among its words; `None` when neither is.
pub open spec fn style_flags(val: Seq<char>) -> Option<(Seq<char>, Seq<char>)> {
    let ws = words_s(val);
    let weight = if ws.contains("bold"@) {
        "bold"@
    } else {
        Seq::empty()
    };
    let style = if ws.contains("italic"@) {
        "italic"@
    } else {
        Seq::empty()
    };
    if weight.len() == 0 && style.len() == 0 {
        None
    } else {
        Some((weight, style))
    }
}

/// The weight and style words of the font style of the dictionary at the
/// start of `rem`.
pub open spec fn dict_style(rem: Seq<char>) -> Option<(Seq<char>, Seq<char>)> {
    style_flags(
        match font_style_region(rem) {
            Some(a) => string_value_text(a),
            None => Seq::empty(),
        },
    )
}

/// The font style recorded for an entry whose dictionary follows.
pub open spec fn entry_style(after: Seq<char>) -> Seq<char> {
    match dict_style(after) {
        Some((w, s)) => trim_s(w + seq![' '] + s),
        None => Seq::empty(),
    }
}

/// The (scope, font style) entries of a property-list theme, from `rest`
/// on: each `<key>scope</key>` followed by a non-blank string value gives
/// an entry, with the font style of the dictionary after it.
pub open spec fn tm_scan(rest: Seq<char>) -> Seq<(Seq<char>, Seq<char>)>
    decreases rest.len(),
{
    let key = "<key>scope</key>"@;
    match find_s(rest, key) {
        None => Seq::empty(),
        Some(idx) => {
            proof {
                lemma_find_some(rest, key);
                reveal_strlit("<key>scope</key>");
            }
            let after = rest.skip(idx + key.len());
            match string_value(after) {
                None => tm_scan(after),
                Some((vs, se)) => {
                    proof {
                        lemma_find_some(after, "<string>"@);
                        lemma_find_some(after.skip(vs), "</string>"@);
                    }
                    let scope = trim_s(after.subrange(vs, vs + se));
                    let here = if scope.len() > 0 {
                        seq![(scope, entry_style(after))]
                    } else {
                        Seq::empty()
                    };
                    here + tm_scan(after.skip(vs + se))
                },
            }
        },
    }
}

/// The suffix of `v` from `a` on.
fn suffix(v: &Vec<char>, a: usize) -> (r: Vec<char>)
    requires
        a <= v@.len(),
    ensures
        r@ == v@.skip(a as int),
{
    let r = slice_range(v.as_slice(), a, v.len());
    assert(r@ =~= v@.skip(a as int));
    r
}

/// [`string_value`].
fn find_string_value(after: &Vec<char>) -> (r: Option<(usize, usize)>)
    ensures
        r matches Some((a, b)) ==> string_value(after@) == Some((a as int, b as int)) && a + b
            <= after@.len(),
        r is None ==> string_value(after@) is None,
{
    let open = chars_of("<string>");
    let close = chars_of("</string>");
    proof {
        lemma_find_some(after@, "<string>"@);
    }
    let alen = after.len();
    match find(after.as_slice(), open.as_slice()) {
        None => None,
        Some(ss) => {
            assert(occurs_at(after@, open@, ss as int));
            assert(ss + open@.len() <= alen);
            let vs = ss + open.len();
            let tail = suffix(after, vs);
            proof {
                lemma_find_some(tail@, "</string>"@);
            }
            match find(tail.as_slice(), close.as_slice()) {
                None => None,
                Some(se) => {
                    assert(occurs_at(tail@, close@, se as int));
                    assert(vs + se <= alen);
                    Some((vs, se))
                },
            }
        },
    }
}

/// [`font_style_region`].
fn find_font_style_region(rem: &Vec<char>) -> (r: Option<Vec<char>>)
    ensures
        match font_style_region(rem@) {
            None => r is None,
            Some(a) => r matches Some(ra) && ra@ == a,
        },
{
    let p1 = chars_of("<key>fontStyle</key>");
    let p2 = chars_of("<string>fontStyle</string>");
    proof {
        lemma_find_some(rem@, "<key>fontStyle</key>"@);
        lemma_find_some(rem@, "<string>fontStyle</string>"@);
    }
    let rlen = rem.len();
    match find(rem.as_slice(), p1.as_slice()) {
        Some(p) => {
            assert(occurs_at(rem@, p1@, p as int));
            assert(p + p1@.len() <= rlen);
            Some(suffix(rem, p + p1.len()))
        },
        None => match find(rem.as_slice(), p2.as_slice()) {
            Some(p) => {
                assert(occurs_at(rem@, p2@, p as int));
                assert(p + p2@.len() <= rlen);
                Some(suffix(rem, p + p2.len()))
            },
            None => None,
        },
    }
}

/// [`string_value_text`].
fn find_string_value_text(after: &Vec<char>) -> (r: Vec<char>)
    ensures
        r@ == string_value_text(after@),
{
    let alen = after.len();
    match find_string_value(after) {
        Some((vs, se)) => slice_range(after.as_slice(), vs, vs + se),
        None => Vec::new(),
    }
}

/// [`style_flags`].
#[verifier::spinoff_prover]
fn find_style_flags(val: &Vec<char>) -> (r: Option<(Vec<char>, Vec<char>)>)
    ensures
        match style_flags(val@) {
            None => r is None,
            Some((w, s)) => r matches Some((rw, rs)) && rw@ == w && rs@ == s,
        },
{
    let ws = words(val.as_slice());
    let ghost wv = ws.deep_view();
    let mut bold = false;
    let mut italic = false;
    let mut i: usize = 0;
    while i < ws.len()
        invariant
            wv == ws.deep_view(),
            i <= wv.len(),
            bold == wv.take(i as int).contains("bold"@),
            italic == wv.take(i as int).contains("italic"@),
        decreases ws.len() - i,
    {
        let t = string_of(ws[i].as_slice());
        proof {
            assert(wv.take(i + 1) =~= wv.take(i as int).push(wv[i as int]));
        }
        if str_eq(t.as_str(), "bold") {
            bold = true;
        }
        if str_eq(t.as_str(), "italic") {
            italic = true;
        }
        i = i + 1;
    }
    assert(wv.take(wv.len() as int) =~= wv);
    let weight = if bold {
        chars_of("bold")
    } else {
        Vec::new()
    };
    let style = if italic {
        chars_of("italic")
    } else {
        Vec::new()
    };
    if weight.len() == 0 && style.len() == 0 {
        None
    } else {
        Some((weight, style))
    }
}

/// The font style recorded for an entry whose dictionary starts `after`.
fn find_entry_style(after: &Vec<char>) -> (r: String)
    ensures
        r@ == entry_style(after@),
{
    let val = match find_font_style_region(after) {
        Some(a) => find_string_value_text(&a),
        None => Vec::new(),
    };
    match find_style_flags(&val) {
        Some((w, s)) => {
            let mut v = crate::text::copy_chars(&w);
            v.push(' ');
            append(&mut v, s.as_slice());
            assert(v@ =~= w@ + seq![' '] + s@);
            let t = trim(v.as_slice());
            string_of(t.as_slice())
        },
        None => String::new(),
    }
}

/// One step of the property-list scan: the entry found at the next scope
/// key (if any) and where scanning goes on, or `None` when no key is left.
fn scan_step(rest: &Vec<char>) -> (r: (Option<(String, String)>, Option<Vec<char>>))
    ensures
        match r.1 {
            None => tm_scan(rest@).len() == 0 && r.0 is None,
            Some(next) => next@.len() < rest@.len() && tm_scan(rest@) == (match r.0 {
                Some(e) => seq![(e.0@, e.1@)],
                None => Seq::empty(),
            }) + tm_scan(next@),
        },
{
    let key = chars_of("<key>scope</key>");
    proof {
        lemma_find_some(rest@, key@);
        reveal_strlit("<key>scope</key>");
    }
    let rlen = rest.len();
    match find(rest.as_slice(), key.as_slice()) {
        None => (None, None),
        Some(idx) => {
            assert(occurs_at(rest@, key@, idx as int));
            assert(idx + key@.len() <= rlen);
            let after = suffix(rest, idx + key.len());
            match find_string_value(&after) {
                None => (None, Some(after)),
                Some((vs, se)) => {
                    let raw = slice_range(after.as_slice(), vs, vs + se);
                    let scope = trim(raw.as_slice());
                    let next = suffix(&after, vs + se);
                    if scope.len() > 0 {
                        let style = find_entry_style(&after);
                        (Some((string_of(scope.as_slice()), style)), Some(next))
                    } else {
                        assert(seq![(scope@, entry_style(after@))].len() > 0);
                        (None, Some(next))
                    }
                },
            }
        },
    }
}

/// One item of a JSON color theme's token list: its `scope` and its
/// `settings.fontStyle`, each when present as a string.
#[derive(Debug)]
pub struct ThemeJsonItem {
    pub scope: Option<String>,
    pub font_style: Option<String>,
}

/// A member of a JSON object that should hold an array.
#[derive(Debug)]
pub enum JsonArrayField {
    /// The member is absent.
    Missing,
    /// The member is present but not an array.
    NotArray,
    /// The member's items.
    Items(Vec<ThemeJsonItem>),
}

/// What a JSON color theme says that matters here: its `tokenColors`
/// member, and its older `settings` member.
#[derive(Debug)]
pub struct ThemeJson {
    pub token_colors: JsonArrayField,
    pub settings: JsonArrayField,
}

/// The view of an optional string (`None` stays `None`).
pub open spec fn opt_view(o: Option<String>) -> Option<Seq<char>> {
    match o {
        Some(s) => Some(s@),
        None => None,
    }
}

/// The entries of one JSON theme item: its scope (or `*`) split at commas,
/// each piece trimmed and kept if not blank, paired with its font style (or
/// nothing).
pub open spec fn json_item_entries(scope: Option<Seq<char>>, style: Option<Seq<char>>) -> Seq<
    (Seq<char>, Seq<char>),
> {
    let sc = match scope {
        Some(s) => s,
        None => "*"@,
    };
    let fs = match style {
        Some(s) => s,
        None => Seq::empty(),
    };
    split_s(sc, ',').map_values(|p: Seq<char>| trim_s(p)).filter(|p: Seq<char>| p.len() > 0).map_values(
        |p: Seq<char>| (p, fs),
    )
}

/// The entries of the items `items`, in order.
pub open spec fn json_entries(items: Seq<(Option<Seq<char>>, Option<Seq<char>>)>) -> Seq<
    (Seq<char>, Seq<char>),
>
    decreases items.len(),
{
    if items.len() == 0 {
        Seq::empty()
    } else {
        json_entries(items.drop_last()) + json_item_entries(items.last().0, items.last().1)
    }
}

impl View for ThemeJsonItem {
    type V = (Option<Seq<char>>, Option<Seq<char>>);

    open spec fn view(&self) -> (Option<Seq<char>>, Option<Seq<char>>) {
        (opt_view(self.scope), opt_view(self.font_style))
    }
}

impl DeepView for ThemeJsonItem {
    type V = (Option<Seq<char>>, Option<Seq<char>>);

    open spec fn deep_view(&self) -> (Option<Seq<char>>, Option<Seq<char>>) {
        self@
    }
}

/// The mathematical content of a [`JsonArrayField`].
pub enum JsonArrayView {
    Missing,
    NotArray,
    Items(Seq<(Option<Seq<char>>, Option<Seq<char>>)>),
}

impl View for JsonArrayField {
    type V = JsonArrayView;

    open spec fn view(&self) -> JsonArrayView {
        match self {
            JsonArrayField::Missing => JsonArrayView::Missing,
            JsonArrayField::NotArray => JsonArrayView::NotArray,
            JsonArrayField::Items(v) => JsonArrayView::Items(v.deep_view()),
        }
    }
}

/// The mathematical content of a [`ThemeJson`].
pub struct ThemeJsonView {
    pub token_colors: JsonArrayView,
    pub settings: JsonArrayView,
}

impl View for ThemeJson {
    type V = ThemeJsonView;

    open spec fn view(&self) -> ThemeJsonView {
        ThemeJsonView { token_colors: self.token_colors@, settings: self.settings@ }
    }
}

/// The token list of a JSON theme: `tokenColors` when present, else
/// `settings`; `None` when the chosen member is absent or not an array.
pub open spec fn token_list(doc: ThemeJsonView) -> Option<Seq<(Option<Seq<char>>, Option<Seq<char>>)>> {
    let chosen = match doc.token_colors {
        JsonArrayView::Missing => doc.settings,
        other => other,
    };
    match chosen {
        JsonArrayView::Items(v) => Some(v),
        _ => None,
    }
}

/// What `serde_json` reads from the theme text `json` (see
/// [`parse_theme_json`]): the document's members that matter here, or the
/// message of the parse error.
pub uninterp spec fn theme_json_s(json: Seq<char>) -> Result<ThemeJsonView, Seq<char>>;

/// `serde_json::from_str` of `json` into a `serde_json::Value`, then, for
/// the members `tokenColors` and `settings`, whether each is absent, not an
/// array, or an array, and for each item of an array its `scope` and its
/// `settings.fontStyle` when they are strings (through `Value::get`,
/// `Value::as_array` and `Value::as_str`).  The contract claims that the
/// document, or the parse error's message as a JSON error, is
/// [`theme_json_s`] of `json` and depends on it alone; JSON itself is not
/// stated.
#[verifier::external_body]
fn parse_theme_json(json: &str) -> (r: Result<ThemeJson, ThemeError>)
    ensures
        match r {
            Ok(doc) => theme_json_s(json@) == Ok::<ThemeJsonView, Seq<char>>(doc@),
            Err(ThemeError::Json(m)) => theme_json_s(json@) == Err::<ThemeJsonView, Seq<char>>(m@),
            Err(_) => false,
        },
{
    let v: serde_json::Value = serde_json::from_str(json).map_err(|e| ThemeError::Json(e.to_string()))?;
    let s = |x: Option<&serde_json::Value>| Some(x?.as_str()?.to_string());
    let field = |k: &str| match v.get(k).map(|m| m.as_array()) {
        None => JsonArrayField::Missing,
        Some(None) => JsonArrayField::NotArray,
        Some(Some(a)) => JsonArrayField::Items(a.iter().map(|it| ThemeJsonItem {
            scope: s(it.get("scope")),
            font_style: s(it.get("settings").and_then(|x| x.get("fontStyle"))),
        }).collect()),
    };
    Ok(ThemeJson { token_colors: field("tokenColors"), settings: field("settings") })
}

/// Reads themes from editors into configurations.
pub struct ThemeImporter;

/// The entries of one JSON theme item.
fn item_entries(item: &ThemeJsonItem) -> (r: Vec<(String, String)>)
    ensures
        entry_views(r@) == json_item_entries(opt_view(item.scope), opt_view(item.font_style)),
{
    let sc: Vec<char> = match &item.scope {
        Some(s) => chars_of(s.as_str()),
        None => chars_of("*"),
    };
    let fs: String = match &item.font_style {
        Some(s) => s.clone(),
        None => String::new(),
    };
    let ghost fsv = fs@;
    let pieces = split(sc.as_slice(), ',');
    let ghost pv = pieces.deep_view();
    let ghost trimmed = pv.map_values(|p: Seq<char>| trim_s(p));
    let ghost kept = |p: Seq<char>| p.len() > 0;
    let ghost pair = |p: Seq<char>| (p, fsv);
    let mut out: Vec<(String, String)> = Vec::new();
    let mut i: usize = 0;
    assert(trimmed.take(0).filter(kept) =~= Seq::<Seq<char>>::empty()) by {
        reveal(Seq::filter);
    }
    assert(entry_views(out@) =~= Seq::<(Seq<char>, Seq<char>)>::empty());
    while i < pieces.len()
        invariant
            pv == pieces.deep_view(),
            trimmed == pv.map_values(|p: Seq<char>| trim_s(p)),
            kept == (|p: Seq<char>| p.len() > 0),
            pair == (|p: Seq<char>| (p, fsv)),
            fsv == fs@,
            i <= pv.len(),
            entry_views(out@) == trimmed.take(i as int).filter(kept).map_values(pair),
        decreases pieces.len() - i,
    {
        let ghost prev = entry_views(out@);
        assert(trimmed.take(i + 1).drop_last() =~= trimmed.take(i as int));
        assert(trimmed.take(i + 1).filter(kept) == if kept(trimmed[i as int]) {
            trimmed.take(i as int).filter(kept).push(trimmed[i as int])
        } else {
            trimmed.take(i as int).filter(kept)
        }) by {
            reveal(Seq::filter);
        }
        let t = trim(pieces[i].as_slice());
        assert(t@ == trimmed[i as int]);
        if t.len() > 0 {
            out.push((string_of(t.as_slice()), fs.clone()));
            assert(entry_views(out@) =~= prev.push((t@, fsv)));
        } else {
            assert(entry_views(out@) =~= prev);
        }
        i = i + 1;
    }
    assert(trimmed.take(pv.len() as int) =~= trimmed);
    assert(sc@ == match opt_view(item.scope) {
        Some(s) => s,
        None => "*"@,
    });
    out
}

impl ThemeImporter {
    /// The (scope, font style) entries of a JSON theme's token list, or an
    /// error when it has none.
    pub fn json_theme_entries(doc: &ThemeJson) -> (r: Result<Vec<(String, String)>, ThemeError>)
        ensures
            match token_list(doc@) {
                None => r matches Err(ThemeError::Validation(m)) && m@ == "missing tokenColors array"@,
                Some(items) => r matches Ok(es) && entry_views(es@) == json_entries(items),
            },
    {
        let chosen = match &doc.token_colors {
            JsonArrayField::Missing => &doc.settings,
            other => other,
        };
        let items = match chosen {
            JsonArrayField::Items(v) => v,
            _ => {
                return Err(ThemeError::Validation(owned("missing tokenColors array")));
            },
        };
        let ghost iv = items.deep_view();
        let mut out: Vec<(String, String)> = Vec::new();
        let mut i: usize = 0;
        assert(iv.take(0) =~= Seq::<(Option<Seq<char>>, Option<Seq<char>>)>::empty());
        assert(entry_views(out@) =~= Seq::<(Seq<char>, Seq<char>)>::empty());
        while i < items.len()
            invariant
                iv == items.deep_view(),
                i <= items@.len(),
                entry_views(out@) == json_entries(iv.take(i as int)),
            decreases items.len() - i,
        {
            let ghost prev = entry_views(out@);
            assert(iv.take(i + 1).drop_last() =~= iv.take(i as int));
            assert(iv[i as int] == items@[i as int]@);
            let mut more = item_entries(&items[i]);
            let ghost mv = entry_views(more@);
            out.append(&mut more);
            assert(entry_views(out@) =~= prev + mv);
            i = i + 1;
        }
        assert(iv.take(items@.len() as int) =~= iv);
        Ok(out)
    }

    /// The configuration for a JSON color theme, each scope's family
    /// resolved through `font_mapping`.
    pub fn import_vscode_document(&self, doc: &ThemeJson, font_mapping: &FontMapping) -> (r: Result<
        PolyfontConfig,
        ThemeError,
    >)
        ensures
            match token_list(doc@) {
                None => r matches Err(ThemeError::Validation(m)) && m@ == "missing tokenColors array"@,
                Some(items) => r matches Ok(c) && c@ == config_from_entries(font_mapping@, json_entries(items)),
            },
    {
        let entries = ThemeImporter::json_theme_entries(doc)?;
        Ok(build_config_from_entries(entries, font_mapping))
    }

    /// The configuration for a VSCode JSON color theme, each scope's family
    /// resolved through `font_mapping`: text that is not JSON is a JSON
    /// error with the parser's message; otherwise as
    /// [`ThemeImporter::import_vscode_document`] on the parsed document.
    pub fn import_vscode_theme(&self, json: &str, font_mapping: &FontMapping) -> (r: Result<
        PolyfontConfig,
        ThemeError,
    >)
        ensures
            match theme_json_s(json@) {
                Err(m) => r matches Err(ThemeError::Json(e)) && e@ == m,
                Ok(doc) => match token_list(doc) {
                    None => r matches Err(ThemeError::Validation(m)) && m@ == "missing tokenColors array"@,
                    Some(items) => r matches Ok(c) && c@ == config_from_entries(font_mapping@, json_entries(items)),
                },
            },
    {
        let doc = parse_theme_json(json)?;
        self.import_vscode_document(&doc, font_mapping)
    }

    /// The configuration for a TextMate property-list theme: each
    /// `<key>scope</key>` with a non-blank string value becomes a rule, with
    /// the weight and style of the `fontStyle` that follows it.
    pub fn import_textmate_theme(&self, xml: &str, font_mapping: &FontMapping) -> (r: Result<
        PolyfontConfig,
        ThemeError,
    >)
        ensures
            r matches Ok(c) && c@ == config_from_entries(font_mapping@, tm_scan(xml@)),
    {
        let mut rest = chars_of(xml);
        let mut entries: Vec<(String, String)> = Vec::new();
        assert(entry_views(entries@) =~= Seq::<(Seq<char>, Seq<char>)>::empty());
        loop
            invariant
                entry_views(entries@) + tm_scan(rest@) == tm_scan(xml@),
            ensures
                entry_views(entries@) == tm_scan(xml@),
            decreases rest@.len(),
        {
            let ghost prev = entry_views(entries@);
            let (entry, next) = scan_step(&rest);
            match next {
                None => {
                    assert(entry_views(entries@) =~= tm_scan(xml@));
                    break ;
                },
                Some(n) => {
                    match entry {
                        Some(e) => {
                            let ghost ev = (e.0@, e.1@);
                            entries.push(e);
                            assert(entry_views(entries@) =~= prev + seq![ev]);
                            assert(prev + seq![ev] + tm_scan(n@) =~= prev + (seq![ev] + tm_scan(n@)));
                        },
                        None => {
                            assert(Seq::<(Seq<char>, Seq<char>)>::empty() + tm_scan(n@) =~= tm_scan(n@));
                        },
                    }
                    rest = n;
                },
            }
        }
        Ok(build_config_from_entries(entries, font_mapping))
    }
}

} // verus!
