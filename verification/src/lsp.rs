//! The language server's logic: which language a document is in, naive
//! tokenization, and the font assignments sent to the editor.
use vstd::prelude::*;

pub mod state;

use crate::engine::{resolve_in, PolyfontEngine, ScopeMatchEngine};
use crate::font::{style_name, weight_name, FontAssignmentView, FontSpec, FontSpecView};
use crate::parse::{utf16_count, OffsetEncoding, TokenParser};
use crate::text::{
    chars_of, copy_strings, lemma_split_nonempty, lemma_utf8_subrange, lines, lines_s, owned,
    split, split_s, starts_with, starts_with_s, str_byte_len, str_eq, string_of, trim, trim_s,
    trim_start, trim_start_s, utf16_len, utf8_len, strip_cr,
};
use crate::token::{Position, Range, TokenInfo, TokenView};

verus! {

broadcast use {vstd::seq_lib::group_seq_properties, crate::lemma_chars_deep_view};

/// A position as the protocol writes it (zero-based line and character).
#[derive(Debug, Clone, Copy, PartialEq, Eq, Structural)]
pub struct LspPosition {
    pub line: u32,
    pub character: u32,
}

/// A range as the protocol writes it.
#[derive(Debug, Clone, Copy, PartialEq, Eq, Structural)]
pub struct LspRange {
    pub start: LspPosition,
    pub end: LspPosition,
}

/// The font of an assignment, as sent to the editor.
#[derive(Debug)]
pub struct FontInfo {
    pub family: String,
    pub fallbacks: Vec<String>,
    pub weight: String,
    pub style: String,
}

/// The mathematical content of a [`FontInfo`].
pub struct FontInfoView {
    pub family: Seq<char>,
    pub fallbacks: Seq<Seq<char>>,
    pub weight: Seq<char>,
    pub style: Seq<char>,
}

impl View for FontInfo {
    type V = FontInfoView;

    open spec fn view(&self) -> FontInfoView {
        FontInfoView {
            family: self.family@,
            fallbacks: self.fallbacks.deep_view(),
            weight: self.weight@,
            style: self.style@,
        }
    }
}

impl DeepView for FontInfo {
    type V = FontInfoView;

    open spec fn deep_view(&self) -> FontInfoView {
        self@
    }
}

/// The font information sent for a font specification: its family and
/// fallbacks, and the names of its weight and style.
pub open spec fn font_info_of(spec: FontSpecView) -> FontInfoView {
    FontInfoView {
        family: spec.family,
        fallbacks: spec.fallbacks,
        weight: weight_name(spec.weight),
        style: style_name(spec.style),
    }
}

impl FontInfo {
    /// The font information for `spec`.
    pub fn from(spec: &FontSpec) -> (r: FontInfo)
        ensures
            r@ == font_info_of(spec@),
    {
        FontInfo {
            family: spec.family.clone(),
            fallbacks: copy_strings(&spec.fallbacks),
            weight: spec.weight.to_string(),
            style: spec.style.to_string(),
        }
    }
}

/// The weight assumed when none is given.
pub fn default_weight() -> (r: String)
    ensures
        r@ == "regular"@,
{
    owned("regular")
}

/// Whether `s` is the weight assumed when none is given.
pub fn is_default_weight(s: &str) -> (r: bool)
    ensures
        r == (s@ == "regular"@),
{
    str_eq(s, "regular")
}

/// The style assumed when none is given.
pub fn default_style() -> (r: String)
    ensures
        r@ == "normal"@,
{
    owned("normal")
}

/// Whether `s` is the style assumed when none is given.
pub fn is_default_style(s: &str) -> (r: bool)
    ensures
        r == (s@ == "normal"@),
{
    str_eq(s, "normal")
}

/// One scope-to-font assignment within a document.
#[derive(Debug)]
pub struct FontAssignmentEntry {
    pub scope: String,
    pub range: LspRange,
    pub font: FontInfo,
}

/// The mathematical content of a [`FontAssignmentEntry`].
pub struct EntryView {
    pub scope: Seq<char>,
    pub range: LspRange,
    pub font: FontInfoView,
}

impl View for FontAssignmentEntry {
    type V = EntryView;

    open spec fn view(&self) -> EntryView {
        EntryView { scope: self.scope@, range: self.range, font: self.font@ }
    }
}

impl DeepView for FontAssignmentEntry {
    type V = EntryView;

    open spec fn deep_view(&self) -> EntryView {
        self@
    }
}

/// The notification sent when a document's font assignments change.
#[derive(Debug)]
pub struct FontAssignmentNotification {
    pub uri: String,
    pub assignments: Vec<FontAssignmentEntry>,
}

/// A token range in protocol form.
pub open spec fn lsp_range_of(r: Range) -> LspRange {
    LspRange {
        start: LspPosition { line: r.start.line, character: r.start.column },
        end: LspPosition { line: r.end.line, character: r.end.column },
    }
}

/// The entry for a token resolved to an assignment.
pub open spec fn entry_of(t: TokenView, a: FontAssignmentView) -> EntryView {
    EntryView { scope: a.scope, range: lsp_range_of(t.range), font: font_info_of(a.font) }
}

/// The entries for `toks` under the rules `rules`: one per token that some
/// rule resolves, in token order.
pub open spec fn entries_for(rules: Seq<crate::font::FontRuleView>, toks: Seq<TokenView>) -> Seq<EntryView>
    decreases toks.len(),
{
    if toks.len() == 0 {
        Seq::empty()
    } else {
        let prev = entries_for(rules, toks.drop_last());
        match resolve_in(rules, toks.last().scope) {
            Some(a) => prev.push(entry_of(toks.last(), a)),
            None => prev,
        }
    }
}

/// The font assignment entries for `tokens`.
pub fn build_assignment_entries(engine: &ScopeMatchEngine, tokens: &[TokenInfo]) -> (r: Vec<
    FontAssignmentEntry,
>)
    ensures
        r.deep_view() == entries_for(engine@, tokens@.map_values(|t: TokenInfo| t@)),
{
    let assignments = engine.resolve_all(tokens);
    let ghost tv = tokens@.map_values(|t: TokenInfo| t@);
    let mut out: Vec<FontAssignmentEntry> = Vec::new();
    let mut i: usize = 0;
    assert(tv.take(0) =~= Seq::<TokenView>::empty());
    assert(out.deep_view() =~= Seq::<EntryView>::empty());
    while i < tokens.len()
        invariant
            tv == tokens@.map_values(|t: TokenInfo| t@),
            assignments@.len() == tokens@.len(),
            forall|j: int|
                0 <= j < tokens@.len() ==> #[trigger] assignments@[j].deep_view() == resolve_in(
                    engine@,
                    tokens@[j].scope@,
                ),
            i <= tokens@.len(),
            out.deep_view() == entries_for(engine@, tv.take(i as int)),
        decreases tokens.len() - i,
    {
        assert(tv.take(i + 1).drop_last() =~= tv.take(i as int));
        assert(tv.take(i + 1).last() == tokens@[i as int]@);
        assert(assignments@[i as int].deep_view() == resolve_in(engine@, tokens@[i as int].scope@));
        let ghost prev = out.deep_view();
        match &assignments[i] {
            Some(a) => {
                let t = &tokens[i];
                let range = LspRange {
                    start: LspPosition { line: t.range.start.line, character: t.range.start.column },
                    end: LspPosition { line: t.range.end.line, character: t.range.end.column },
                };
                let entry = FontAssignmentEntry {
                    scope: a.scope.clone(),
                    range,
                    font: FontInfo::from(&a.font),
                };
                let ghost ev = entry@;
                assert(ev == entry_of(t@, a@));
                out.push(entry);
                assert(out.deep_view() =~= prev.push(ev));
            },
            None => {},
        }
        i = i + 1;
    }
    assert(tv.take(tokens@.len() as int) =~= tv);
    out
}

/// The extension of a document's file name: the text after the last dot of
/// the last path segment (all of it when there is no dot).
pub open spec fn uri_extension(uri: Seq<char>) -> Seq<char> {
    split_s(split_s(uri, '/').last(), '.').last()
}

/// The language of a document by its extension.
pub open spec fn language_of_extension(ext: Seq<char>) -> Seq<char> {
    if ext == "rs"@ {
        "rust"@
    } else if ext == "ts"@ || ext == "tsx"@ {
        "typescript"@
    } else if ext == "js"@ || ext == "jsx"@ {
        "javascript"@
    } else if ext == "py"@ {
        "python"@
    } else if ext == "go"@ {
        "go"@
    } else if ext == "c"@ {
        "c"@
    } else if ext == "cpp"@ || ext == "cc"@ || ext == "cxx"@ || ext == "h"@ || ext == "hpp"@ {
        "cpp"@
    } else if ext == "json"@ {
        "json"@
    } else if ext == "toml"@ {
        "toml"@
    } else if ext == "lua"@ {
        "lua"@
    } else {
        "unknown"@
    }
}

/// The language identifier of the document at `uri`, from its extension.
pub fn language_id_from_uri(uri: &str) -> (r: &'static str)
    ensures
        r@ == language_of_extension(uri_extension(uri@)),
{
    let u = chars_of(uri);
    let segs = split(u.as_slice(), '/');
    proof {
        lemma_split_nonempty(u@, '/');
    }
    let path = &segs[segs.len() - 1];
    let parts = split(path.as_slice(), '.');
    proof {
        lemma_split_nonempty(path@, '.');
    }
    let ext = string_of(parts[parts.len() - 1].as_slice());
    let e = ext.as_str();
    if str_eq(e, "rs") {
        "rust"
    } else if str_eq(e, "ts") || str_eq(e, "tsx") {
        "typescript"
    } else if str_eq(e, "js") || str_eq(e, "jsx") {
        "javascript"
    } else if str_eq(e, "py") {
        "python"
    } else if str_eq(e, "go") {
        "go"
    } else if str_eq(e, "c") {
        "c"
    } else if str_eq(e, "cpp") || str_eq(e, "cc") || str_eq(e, "cxx") || str_eq(e, "h") || str_eq(
        e,
        "hpp",
    ) {
        "cpp"
    } else if str_eq(e, "json") {
        "json"
    } else if str_eq(e, "toml") {
        "toml"
    } else if str_eq(e, "lua") {
        "lua"
    } else {
        "unknown"
    }
}

/// The scope a line gets from how it begins, after trimming.
pub open spec fn line_scope(line: Seq<char>) -> Seq<char> {
    let t = trim_s(line);
    if starts_with_s(t, "///"@) || starts_with_s(t, "//"@) || starts_with_s(t, "#"@) {
        "comment"@
    } else if starts_with_s(t, "\""@) || starts_with_s(t, "'"@) || starts_with_s(t, "`"@) {
        "string"@
    } else if starts_with_s(t, "fn "@) || starts_with_s(t, "function "@) || starts_with_s(t, "def "@)
        || starts_with_s(t, "pub fn "@) || starts_with_s(t, "async fn "@) {
        "entity.name.function"@
    } else if starts_with_s(t, "let "@) || starts_with_s(t, "const "@) || starts_with_s(t, "var "@)
        || starts_with_s(t, "mut "@) || starts_with_s(t, "let mut "@) {
        "variable"@
    } else if starts_with_s(t, "struct "@) || starts_with_s(t, "enum "@) || starts_with_s(
        t,
        "class "@,
    ) || starts_with_s(t, "interface "@) || starts_with_s(t, "type "@) || starts_with_s(t, "impl "@)
        || starts_with_s(t, "trait "@) {
        "entity.name.type"@
    } else if starts_with_s(t, "use "@) || starts_with_s(t, "import "@) || starts_with_s(t, "from "@)
        || starts_with_s(t, "mod "@) {
        "keyword"@
    } else if starts_with_s(t, "if "@) || starts_with_s(t, "else"@) || starts_with_s(t, "for "@)
        || starts_with_s(t, "while "@) || starts_with_s(t, "loop "@) || starts_with_s(t, "match "@)
        || starts_with_s(t, "switch "@) || starts_with_s(t, "return"@) || starts_with_s(
        t,
        "break"@,
    ) || starts_with_s(t, "continue"@) {
        "keyword.control"@
    } else {
        "source"@
    }
}

/// Whether `t` starts with the string `p`.
fn begins(t: &[char], p: &str) -> (r: bool)
    ensures
        r == starts_with_s(t@, p@),
{
    let pv = chars_of(p);
    starts_with(t, pv.as_slice())
}

/// The scope of a line by how it begins: comments, strings, function,
/// variable and type declarations, imports and control flow; anything else
/// is `source`.
pub fn classify_line(line: &str) -> (r: String)
    ensures
        r@ == line_scope(line@),
{
    let lv = chars_of(line);
    let tv = trim(lv.as_slice());
    let t = tv.as_slice();
    if begins(t, "///") || begins(t, "//") || begins(t, "#") {
        return owned("comment");
    }
    if begins(t, "\"") || begins(t, "'") || begins(t, "`") {
        return owned("string");
    }
    if begins(t, "fn ") || begins(t, "function ") || begins(t, "def ") || begins(t, "pub fn ")
        || begins(t, "async fn ") {
        return owned("entity.name.function");
    }
    if begins(t, "let ") || begins(t, "const ") || begins(t, "var ") || begins(t, "mut ") || begins(
        t,
        "let mut ",
    ) {
        return owned("variable");
    }
    if begins(t, "struct ") || begins(t, "enum ") || begins(t, "class ") || begins(t, "interface ")
        || begins(t, "type ") || begins(t, "impl ") || begins(t, "trait ") {
        return owned("entity.name.type");
    }
    if begins(t, "use ") || begins(t, "import ") || begins(t, "from ") || begins(t, "mod ") {
        return owned("keyword");
    }
    if begins(t, "if ") || begins(t, "else") || begins(t, "for ") || begins(t, "while ") || begins(
        t,
        "loop ",
    ) || begins(t, "match ") || begins(t, "switch ") || begins(t, "return") || begins(t, "break")
        || begins(t, "continue") {
        return owned("keyword.control");
    }
    owned("source")
}

/// The token for line number `idx` of a document, if the line is not blank:
/// the whole trimmed line, from its first to just past its last non-blank
/// character, columns counted in UTF-16 code units, scoped by
/// [`line_scope`].
pub open spec fn line_token(idx: int, line: Seq<char>) -> Seq<TokenView> {
    let trimmed = trim_s(line);
    let leading = utf16_len(line) - utf16_len(trim_start_s(line));
    if trimmed.len() == 0 {
        Seq::empty()
    } else {
        seq![
            TokenView {
                text: trimmed,
                range: Range {
                    start: Position { line: idx as u32, column: leading as u32 },
                    end: Position { line: idx as u32, column: (leading + utf16_len(trimmed)) as u32 },
                },
                scope: line_scope(trimmed),
                modifiers: Seq::empty(),
            },
        ]
    }
}

/// The tokens of the first `n` lines of `ls`.
pub open spec fn naive_tokens(ls: Seq<Seq<char>>) -> Seq<TokenView>
    decreases ls.len(),
{
    if ls.len() == 0 {
        Seq::empty()
    } else {
        naive_tokens(ls.drop_last()) + line_token(ls.len() - 1, ls.last())
    }
}

/// A line of a text is no longer in UTF-8 than the text.
proof fn lemma_line_len(s: Seq<char>, i: int)
    requires
        0 <= i < lines_s(s).len(),
    ensures
        utf8_len(lines_s(s)[i]) <= utf8_len(s),
{
    let p = split_s(s, '\n');
    lemma_split_nonempty(s, '\n');
    let body = p.drop_last().map_values(crate::text::strip_cr_fn());
    if i < body.len() {
        let piece = p[i];
        assert(lines_s(s)[i] == strip_cr(piece));
        if piece.len() > 0 && piece.last() == '\r' {
            lemma_utf8_subrange(piece, 0, piece.len() - 1);
            assert(piece.subrange(0, piece.len() - 1) =~= piece.drop_last());
        }
    } else {
        assert(lines_s(s)[i] == p.last());
    }
}

/// A trimmed line sits inside the line after its leading blanks, counted
/// in UTF-8 bytes or in UTF-16 code units.
proof fn lemma_trim_parts(line: Seq<char>)
    ensures
        utf8_len(trim_start_s(line)) <= utf8_len(line),
        utf8_len(trim_s(line)) <= utf8_len(line),
        utf16_len(trim_start_s(line)) <= utf16_len(line),
        utf16_len(line) - utf16_len(trim_start_s(line)) + utf16_len(trim_s(line)) <= utf16_len(line),
{
    let a = line.len() - trim_start_s(line).len();
    crate::text::lemma_trim_start_suffix(line);
    let ts = trim_start_s(line);
    crate::text::lemma_trim_end_prefix(ts);
    let tr = trim_s(line);
    crate::text::lemma_utf8_concat(line.take(a), ts);
    crate::text::lemma_utf16_concat(line.take(a), ts);
    assert(line.take(a) + ts =~= line);
    crate::text::lemma_utf8_concat(tr, ts.skip(tr.len() as int));
    crate::text::lemma_utf16_concat(tr, ts.skip(tr.len() as int));
    assert(tr + ts.skip(tr.len() as int) =~= ts);
}

/// One token per non-blank line of `text`: the trimmed line, its range on
/// that line in UTF-16 code units, and the scope [`classify_line`] gives it.
pub fn tokenize_document_naive(text: &str) -> (r: Vec<TokenInfo>)
    ensures
        r.deep_view() == naive_tokens(lines_s(text@)),
{
    let chars = chars_of(text);
    let total = str_byte_len(text);
    let ls = lines(chars.as_slice());
    let ghost lv = ls.deep_view();
    let mut tokens: Vec<TokenInfo> = Vec::new();
    let mut i: usize = 0;
    assert(lv.take(0) =~= Seq::<Seq<char>>::empty());
    assert(tokens.deep_view() =~= Seq::<TokenView>::empty());
    while i < ls.len()
        invariant
            lv == ls.deep_view(),
            lv == lines_s(text@),
            total == utf8_len(text@),
            i <= lv.len(),
            tokens.deep_view() == naive_tokens(lv.take(i as int)),
        decreases ls.len() - i,
    {
        assert(lv.take(i + 1).drop_last() =~= lv.take(i as int));
        let line = &ls[i];
        let ghost l = line@;
        assert(l == lv[i as int]);
        proof {
            lemma_line_len(text@, i as int);
            lemma_trim_parts(l);
        }
        let ts = trim_start(line.as_slice());
        let trimmed = trim(line.as_slice());
        let ghost prev = tokens.deep_view();
        if trimmed.len() == 0 {
            assert(line_token(i as int, l) =~= Seq::<TokenView>::empty());
            assert(tokens.deep_view() =~= prev + line_token(i as int, l));
        } else {
            let line_units = utf16_count(line.as_slice());
            let rest_units = utf16_count(ts.as_slice());
            let leading = line_units - rest_units;
            let trimmed_units = utf16_count(trimmed.as_slice());
            let end_char = #[verifier::truncate] ((leading + trimmed_units) as u32);
            let text_s = string_of(trimmed.as_slice());
            let scope = classify_line(text_s.as_str());
            let line_no = #[verifier::truncate] (i as u32);
            let tok = TokenInfo {
                text: text_s,
                range: Range {
                    start: Position { line: line_no, column: #[verifier::truncate] (leading as u32) },
                    end: Position { line: line_no, column: end_char },
                },
                scope,
                modifiers: Vec::new(),
            };
            let ghost tv = tok@;
            assert(tok.modifiers.deep_view() =~= Seq::<Seq<char>>::empty());
            assert(line_token(i as int, l) =~= seq![tv]);
            tokens.push(tok);
            assert(tokens.deep_view() =~= prev + line_token(i as int, l));
        }
        i = i + 1;
    }
    assert(lv.take(lv.len() as int) =~= lv);
    tokens
}

/// The tokens of a document in the language `language_id`: those of a
/// grammar for the language when one yields any, else one token per line.
pub fn tokenize_with_language(text: &str, language_id: &str) -> (r: Vec<TokenInfo>)
    ensures
        r.deep_view() == naive_tokens(lines_s(text@)),
{
    let parser = TokenParser::new();
    match parser.parse_tokens(text, language_id, OffsetEncoding::Utf16) {
        Ok(tokens) => {
            if tokens.len() > 0 {
                tokens
            } else {
                tokenize_document_naive(text)
            }
        },
        Err(_) => tokenize_document_naive(text),
    }
}

/// The tokens of a document, its language told by its URI (see
/// [`tokenize_with_language`]).
pub fn tokenize_document(text: &str, uri: &str) -> (r: Vec<TokenInfo>)
    ensures
        r.deep_view() == naive_tokens(lines_s(text@)),
{
    tokenize_with_language(text, language_id_from_uri(uri))
}

/// A suggested font for a scope category: (scope prefix, family, reason,
/// category).
pub open spec fn pairings_table() -> Seq<(&'static str, &'static str, &'static str, &'static str)> {
    seq![
        ("keyword", "Maple Mono", "Clear geometric mono with heavy weight for keywords", "geometric"),
        ("keyword.control", "Fira Code", "Ligature support for control flow operators", "ligature"),
        ("comment", "IBM Plex Mono", "Humanist design improves readability for prose comments", "humanist"),
        ("comment.doc", "Source Serif Pro", "Serif face signals documentation distinct from code", "serif"),
        ("string", "Source Code Pro", "Light weight creates visual contrast for string literals", "light"),
        ("string.regexp", "JetBrains Mono", "Dense information density suits regex patterns", "dense"),
        ("entity.name.function", "Monaspace Argon", "Distinctive x-height for function identification", "variable"),
        ("entity.name.type", "Monaspace Neon", "Wide stance for type names at a glance", "variable"),
        ("variable", "JetBrains Mono", "Balanced weight for the most common token type", "balanced"),
        ("variable.parameter", "MonoLisa", "Italic-friendly for parameter distinction", "humanist"),
        ("constant", "Monaspace Radon", "Heavy weight emphasizes constant values", "variable"),
        ("constant.numeric", "Input Mono", "Tabular figures for numeric alignment", "tabular"),
        ("support.function", "Monaspace Krypton", "Medium weight for built-in function calls", "variable"),
        ("punctuation", "Fira Code", "Ligature support for bracket pairs and arrows", "ligature"),
        ("operator", "Operator Mono", "Italic-style operators for visual separation", "stylish"),
        ("storage.type", "Maple Mono", "Bold weight for type annotations", "geometric"),
    ]
}

/// The curated font pairings offered as suggestions, by scope category.
pub fn font_pairings() -> (r: Vec<(&'static str, &'static str, &'static str, &'static str)>)
    ensures
        r@ == pairings_table(),
{
    let r = vec![
        ("keyword", "Maple Mono", "Clear geometric mono with heavy weight for keywords", "geometric"),
        ("keyword.control", "Fira Code", "Ligature support for control flow operators", "ligature"),
        ("comment", "IBM Plex Mono", "Humanist design improves readability for prose comments", "humanist"),
        ("comment.doc", "Source Serif Pro", "Serif face signals documentation distinct from code", "serif"),
        ("string", "Source Code Pro", "Light weight creates visual contrast for string literals", "light"),
        ("string.regexp", "JetBrains Mono", "Dense information density suits regex patterns", "dense"),
        ("entity.name.function", "Monaspace Argon", "Distinctive x-height for function identification", "variable"),
        ("entity.name.type", "Monaspace Neon", "Wide stance for type names at a glance", "variable"),
        ("variable", "JetBrains Mono", "Balanced weight for the most common token type", "balanced"),
        ("variable.parameter", "MonoLisa", "Italic-friendly for parameter distinction", "humanist"),
        ("constant", "Monaspace Radon", "Heavy weight emphasizes constant values", "variable"),
        ("constant.numeric", "Input Mono", "Tabular figures for numeric alignment", "tabular"),
        ("support.function", "Monaspace Krypton", "Medium weight for built-in function calls", "variable"),
        ("punctuation", "Fira Code", "Ligature support for bracket pairs and arrows", "ligature"),
        ("operator", "Operator Mono", "Italic-style operators for visual separation", "stylish"),
        ("storage.type", "Maple Mono", "Bold weight for type annotations", "geometric"),
    ];
    assert(r@ =~= pairings_table());
    r
}

} // verus!
