//! Accessibility advice on font choices: fonts for dyslexic readers,
//! whether two fonts are too alike to tell scopes apart, and which families
//! a configuration uses.
use vstd::prelude::*;

use crate::config::{ConfigView, PolyfontConfig};
use crate::font::FontRuleView;
use crate::names::{contains_name, dedup_names, dedup_s, strings_of};
use crate::parse::{boundary_index, char_index_at, is_boundary, lemma_boundary_unique};
use crate::text::{
    append, byte_len, chars_eq, chars_of, is_ascii_s, lemma_ascii_lower_ascii, lemma_ascii_utf8_len,
    lemma_split_ascii, lemma_split_nonempty, lemma_utf8_concat, lowercase_s,
    owned, slice_range, split, split_s, str_byte_len, str_eq, string_of, to_lowercase, utf8_len,
    words, words_s,
};

verus! {

broadcast use {vstd::seq_lib::group_seq_properties, crate::lemma_chars_deep_view};

/// Why a font is recommended.
#[derive(Debug, Clone, Copy, PartialEq, Eq, Structural)]
pub enum FontCategory {
    DyslexiaFriendly,
    HighLegibility,
    VariableWeight,
    Monospace,
}

/// A recommended font family and why.
#[derive(Debug)]
pub struct FontRecommendation {
    pub family: String,
    pub reason: String,
    pub category: FontCategory,
}

/// The mathematical content of a [`FontRecommendation`].
pub struct RecommendationView {
    pub family: Seq<char>,
    pub reason: Seq<char>,
    pub category: FontCategory,
}

impl View for FontRecommendation {
    type V = RecommendationView;

    open spec fn view(&self) -> RecommendationView {
        RecommendationView { family: self.family@, reason: self.reason@, category: self.category }
    }
}

impl DeepView for FontRecommendation {
    type V = RecommendationView;

    open spec fn deep_view(&self) -> RecommendationView {
        self@
    }
}

/// Whether two fonts are too alike, and what to do about it.
#[derive(Debug)]
pub struct ContrastResult {
    pub fonts_similar: bool,
    pub recommendation: Option<String>,
}

/// Accessibility checks on font choices.
pub struct AccessibilityChecker;

/// Words too common in font names to make two fonts alike.
pub open spec fn generic_word(w: Seq<char>) -> bool {
    w == "mono"@ || w == "code"@ || w == "font"@
}

/// Whether a word of `aw` other than a generic one is also a word of `bw`.
pub open spec fn shares_word(aw: Seq<Seq<char>>, bw: Seq<Seq<char>>) -> bool {
    exists|i: int| 0 <= i < aw.len() && bw.contains(#[trigger] aw[i]) && !generic_word(aw[i])
}

/// The first space-separated piece of a name.
pub open spec fn base_of(name: Seq<char>) -> Seq<char> {
    split_s(name, ' ')[0]
}

/// The number of leading bytes of the two bases that are compared: the
/// shorter base's length, at most five.
pub open spec fn prefix_bytes(ab: Seq<char>, bb: Seq<char>) -> int {
    let la = utf8_len(ab) as int;
    let lb = utf8_len(bb) as int;
    let m = if la < lb {
        la
    } else {
        lb
    };
    if m < 5 {
        m
    } else {
        5
    }
}

/// Whether both bases are long enough (four bytes) to be compared.
pub open spec fn bases_comparable(ab: Seq<char>, bb: Seq<char>) -> bool {
    utf8_len(ab) >= 4 && utf8_len(bb) >= 4
}

/// Whether two lower-cased names are alike: equal, sharing a distinctive
/// word, or with bases of at least four bytes agreeing on their first (up
/// to five) bytes.
pub open spec fn similar_lower(al: Seq<char>, bl: Seq<char>) -> bool {
    let ab = base_of(al);
    let bb = base_of(bl);
    let p = prefix_bytes(ab, bb);
    al == bl || shares_word(words_s(al), words_s(bl)) || (bases_comparable(ab, bb)
        && vstd::utf8::encode_utf8(ab).take(p) == vstd::utf8::encode_utf8(bb).take(p))
}

/// Whether the comparison of two lower-cased names is defined: when it
/// comes to comparing base prefixes, the cut falls between characters in
/// both.
pub open spec fn similarity_defined_lower(al: Seq<char>, bl: Seq<char>) -> bool {
    let ab = base_of(al);
    let bb = base_of(bl);
    let p = prefix_bytes(ab, bb);
    al == bl || shares_word(words_s(al), words_s(bl)) || !bases_comparable(ab, bb) || (is_boundary(
        ab,
        p,
    ) && is_boundary(bb, p))
}

/// Whether two font names are alike, compared in lower case.
pub open spec fn similar_s(a: Seq<char>, b: Seq<char>) -> bool {
    similar_lower(lowercase_s(a), lowercase_s(b))
}

/// Whether the comparison of two font names is defined.
pub open spec fn similarity_defined(a: Seq<char>, b: Seq<char>) -> bool {
    similarity_defined_lower(lowercase_s(a), lowercase_s(b))
}

/// Lower-cased ASCII names can always be compared: every byte offset of
/// ASCII text falls between characters.
proof fn lemma_ascii_defined(al: Seq<char>, bl: Seq<char>)
    requires
        is_ascii_s(al),
        is_ascii_s(bl),
    ensures
        similarity_defined_lower(al, bl),
{
    let ab = base_of(al);
    let bb = base_of(bl);
    lemma_split_nonempty(al, ' ');
    lemma_split_nonempty(bl, ' ');
    lemma_split_ascii(al, ' ');
    lemma_split_ascii(bl, ' ');
    assert(is_ascii_s(ab));
    assert(is_ascii_s(bb));
    lemma_ascii_utf8_len(ab);
    lemma_ascii_utf8_len(bb);
    let p = prefix_bytes(ab, bb);
    assert(utf8_len(ab.take(p)) == p);
    assert(utf8_len(bb.take(p)) == p);
    assert(is_boundary(ab, p));
    assert(is_boundary(bb, p));
}

/// Names that differ, share no words but `mono`, `code` and `font`, and
/// whose first space-separated pieces are too short (under four bytes) or
/// differ within their first bytes (up to five, the shorter piece's length)
/// are not alike: a shared generic word never makes two fonts similar.
pub proof fn lemma_generic_words_not_similar(al: Seq<char>, bl: Seq<char>)
    requires
        al != bl,
        forall|w: Seq<char>|
            #[trigger] words_s(al).contains(w) && words_s(bl).contains(w) ==> (w == "mono"@ || w
                == "code"@ || w == "font"@),
        ({
            let ab = split_s(al, ' ')[0];
            let bb = split_s(bl, ' ')[0];
            let la = utf8_len(ab) as int;
            let lb = utf8_len(bb) as int;
            let p = if la < lb && la < 5 {
                la
            } else if lb <= la && lb < 5 {
                lb
            } else {
                5
            };
            la < 4 || lb < 4 || vstd::utf8::encode_utf8(ab).take(p) != vstd::utf8::encode_utf8(bb).take(p)
        }),
    ensures
        !similar_lower(al, bl),
{
    let aw = words_s(al);
    let bw = words_s(bl);
    assert(!shares_word(aw, bw)) by {
        if shares_word(aw, bw) {
            let i = choose|i: int| 0 <= i < aw.len() && bw.contains(#[trigger] aw[i]) && !generic_word(aw[i]);
            assert(aw.contains(aw[i]));
        }
    }
}

/// Conversely, lower-cased names are alike when they are equal, when they
/// share a word other than `mono`, `code` and `font`, or when their first
/// space-separated pieces are both at least four bytes long and agree on
/// their first bytes (up to five, the shorter piece's length).
pub proof fn lemma_similar_when(al: Seq<char>, bl: Seq<char>)
    ensures
        al == bl ==> similar_lower(al, bl),
        (exists|w: Seq<char>|
            #[trigger] words_s(al).contains(w) && words_s(bl).contains(w) && w != "mono"@ && w
                != "code"@ && w != "font"@) ==> similar_lower(al, bl),
        ({
            let ab = split_s(al, ' ')[0];
            let bb = split_s(bl, ' ')[0];
            let la = utf8_len(ab) as int;
            let lb = utf8_len(bb) as int;
            let p = if la < lb && la < 5 {
                la
            } else if lb <= la && lb < 5 {
                lb
            } else {
                5
            };
            la >= 4 && lb >= 4 && vstd::utf8::encode_utf8(ab).take(p) == vstd::utf8::encode_utf8(bb).take(p)
        }) ==> similar_lower(al, bl),
{
    let aw = words_s(al);
    let bw = words_s(bl);
    if exists|w: Seq<char>|
        #[trigger] aw.contains(w) && bw.contains(w) && w != "mono"@ && w != "code"@ && w != "font"@ {
        let w = choose|w: Seq<char>|
            #[trigger] aw.contains(w) && bw.contains(w) && w != "mono"@ && w != "code"@ && w != "font"@;
        let i = choose|i: int| 0 <= i < aw.len() && aw[i] == w;
        assert(bw.contains(aw[i]) && !generic_word(aw[i]));
    }
}

/// The same, for the names before lower-casing: two fonts whose lower-cased
/// names share only generic words and have distinct bases are not similar.
pub proof fn lemma_generic_words_not_similar_names(a: Seq<char>, b: Seq<char>)
    requires
        lowercase_s(a) != lowercase_s(b),
        forall|w: Seq<char>|
            #[trigger] words_s(lowercase_s(a)).contains(w) && words_s(lowercase_s(b)).contains(w) ==> (w
                == "mono"@ || w == "code"@ || w == "font"@),
        ({
            let ab = split_s(lowercase_s(a), ' ')[0];
            let bb = split_s(lowercase_s(b), ' ')[0];
            let la = utf8_len(ab) as int;
            let lb = utf8_len(bb) as int;
            let p = if la < lb && la < 5 {
                la
            } else if lb <= la && lb < 5 {
                lb
            } else {
                5
            };
            la < 4 || lb < 4 || vstd::utf8::encode_utf8(ab).take(p) != vstd::utf8::encode_utf8(bb).take(p)
        }),
    ensures
        !similar_s(a, b),
{
    lemma_generic_words_not_similar(lowercase_s(a), lowercase_s(b));
}

/// Sharing a distinctive word does not depend on the order of the names.
proof fn lemma_shares_word_symmetric(aw: Seq<Seq<char>>, bw: Seq<Seq<char>>)
    ensures
        shares_word(aw, bw) == shares_word(bw, aw),
{
    if shares_word(aw, bw) {
        let i = choose|i: int| 0 <= i < aw.len() && bw.contains(#[trigger] aw[i]) && !generic_word(aw[i]);
        let j = choose|j: int| 0 <= j < bw.len() && bw[j] == aw[i];
        assert(aw.contains(bw[j]));
    }
    if shares_word(bw, aw) {
        let j = choose|j: int| 0 <= j < bw.len() && aw.contains(#[trigger] bw[j]) && !generic_word(bw[j]);
        let i = choose|i: int| 0 <= i < aw.len() && aw[i] == bw[j];
        assert(bw.contains(aw[i]));
    }
}

/// Two fonts are alike or not whichever is named first, and every font is
/// alike to itself; whether the comparison is defined does not depend on the
/// order either, and it is always defined for a font and itself.
pub proof fn lemma_similar_symmetric_reflexive(a: Seq<char>, b: Seq<char>)
    ensures
        similar_s(a, b) == similar_s(b, a),
        similarity_defined(a, b) == similarity_defined(b, a),
        similar_s(a, a),
        similarity_defined(a, a),
{
    lemma_shares_word_symmetric(words_s(lowercase_s(a)), words_s(lowercase_s(b)));
}

/// The UTF-8 bytes up to a character boundary are those of the characters
/// before it.
proof fn lemma_encode_prefix(s: Seq<char>, m: int)
    requires
        0 <= m <= s.len(),
    ensures
        vstd::utf8::encode_utf8(s).take(utf8_len(s.take(m)) as int) == vstd::utf8::encode_utf8(s.take(m)),
{
    lemma_utf8_concat(s.take(m), s.skip(m));
    assert(s.take(m) + s.skip(m) =~= s);
    let e1 = vstd::utf8::encode_utf8(s.take(m));
    let e2 = vstd::utf8::encode_utf8(s.skip(m));
    assert((e1 + e2).take(e1.len() as int) =~= e1);
}

/// Whether a distinctive word of `aw` is also in `bw`.
fn share_word(aw: &Vec<Vec<char>>, bw: &Vec<Vec<char>>) -> (r: bool)
    ensures
        r == shares_word(aw.deep_view(), bw.deep_view()),
{
    let ghost av = aw.deep_view();
    let ghost bv = bw.deep_view();
    let mut i: usize = 0;
    while i < aw.len()
        invariant
            av == aw.deep_view(),
            bv == bw.deep_view(),
            i <= av.len(),
            forall|j: int| 0 <= j < i ==> !(bv.contains(#[trigger] av[j]) && !generic_word(av[j])),
        decreases aw.len() - i,
    {
        let w = &aw[i];
        assert(w@ == av[i as int]);
        let ws = string_of(w.as_slice());
        let generic = str_eq(ws.as_str(), "mono") || str_eq(ws.as_str(), "code") || str_eq(
            ws.as_str(),
            "font",
        );
        if contains_name(bw, w.as_slice()) && !generic {
            assert(bv.contains(av[i as int]) && !generic_word(av[i as int]));
            return true;
        }
        i = i + 1;
    }
    false
}

/// Whether two font names are alike, or `None` where comparing their base
/// prefixes would cut a character.
pub fn similarity(a: &str, b: &str) -> (r: Option<bool>)
    ensures
        similarity_defined(a@, b@) ==> r == Some(similar_s(a@, b@)),
        !similarity_defined(a@, b@) ==> r is None,
        is_ascii_s(a@) && is_ascii_s(b@) ==> r == Some(similar_s(a@, b@)),
{
    let a_lower = to_lowercase(a);
    let b_lower = to_lowercase(b);
    proof {
        if is_ascii_s(a@) && is_ascii_s(b@) {
            lemma_ascii_lower_ascii(a@);
            lemma_ascii_lower_ascii(b@);
            lemma_ascii_defined(a_lower@, b_lower@);
        }
    }
    let al = chars_of(a_lower.as_str());
    let bl = chars_of(b_lower.as_str());
    if chars_eq(al.as_slice(), bl.as_slice()) {
        return Some(true);
    }
    let aw = words(al.as_slice());
    let bw = words(bl.as_slice());
    if share_word(&aw, &bw) {
        return Some(true);
    }
    let a_len = str_byte_len(a_lower.as_str());
    let b_len = str_byte_len(b_lower.as_str());
    let a_parts = split(al.as_slice(), ' ');
    let b_parts = split(bl.as_slice(), ' ');
    proof {
        lemma_split_nonempty(al@, ' ');
        lemma_split_nonempty(bl@, ' ');
    }
    let ab = &a_parts[0];
    let bb = &b_parts[0];
    assert(ab@ == base_of(al@));
    assert(bb@ == base_of(bl@));
    let la = byte_len(ab.as_slice());
    let lb = byte_len(bb.as_slice());
    if la < 4 || lb < 4 {
        return Some(false);
    }
    let m = if la < lb {
        la
    } else {
        lb
    };
    let p = if m < 5 {
        m
    } else {
        5
    };
    match (char_index_at(ab.as_slice(), p), char_index_at(bb.as_slice(), p)) {
        (Some(ia), Some(ib)) => {
            proof {
                lemma_boundary_unique(ab@, ia as int, p as int);
                lemma_boundary_unique(bb@, ib as int, p as int);
                lemma_encode_prefix(ab@, ia as int);
                lemma_encode_prefix(bb@, ib as int);
                vstd::utf8::encode_utf8_decode_utf8(ab@.take(ia as int));
                vstd::utf8::encode_utf8_decode_utf8(bb@.take(ib as int));
            }
            let pa = slice_range(ab.as_slice(), 0, ia);
            let pb = slice_range(bb.as_slice(), 0, ib);
            assert(pa@ =~= ab@.take(ia as int));
            assert(pb@ =~= bb@.take(ib as int));
            Some(chars_eq(pa.as_slice(), pb.as_slice()))
        },
        _ => None,
    }
}

/// Whether two font names are alike (see [`similar_s`]).
pub fn names_are_similar(a: &str, b: &str) -> (r: bool)
    requires
        similarity_defined(a@, b@) || (is_ascii_s(a@) && is_ascii_s(b@)),
    ensures
        r == similar_s(a@, b@),
{
    match similarity(a, b) {
        Some(s) => s,
        None => false,
    }
}

/// The advice given for two fonts found alike.
pub open spec fn contrast_advice(font1: Seq<char>, font2: Seq<char>) -> Seq<char> {
    "Fonts '"@ + font1 + "' and '"@ + font2 + "' appear similar. Consider using more visually distinct fonts."@
}

/// The recommended fonts for dyslexic readers, in order.
pub open spec fn dyslexia_fonts() -> Seq<RecommendationView> {
    seq![
        RecommendationView {
            family: "OpenDyslexic"@,
            reason: "Designed specifically for dyslexic readers with weighted bottoms"@,
            category: FontCategory::DyslexiaFriendly,
        },
        RecommendationView {
            family: "Atkinson Hyperlegible"@,
            reason: "Created by Braille Institute for maximum legibility"@,
            category: FontCategory::HighLegibility,
        },
        RecommendationView {
            family: "Lexend"@,
            reason: "Designed to improve reading proficiency with variable spacing"@,
            category: FontCategory::VariableWeight,
        },
        RecommendationView {
            family: "Comic Neue"@,
            reason: "Informal style reduces letter confusion for some dyslexic readers"@,
            category: FontCategory::DyslexiaFriendly,
        },
        RecommendationView {
            family: "Read Regular"@,
            reason: "Purpose-built for dyslexic readers with distinct letter shapes"@,
            category: FontCategory::DyslexiaFriendly,
        },
    ]
}

impl AccessibilityChecker {
    /// Fonts designed or known to help dyslexic readers.
    pub fn recommend_dyslexia_fonts() -> (r: Vec<FontRecommendation>)
        ensures
            r.deep_view() == dyslexia_fonts(),
    {
        let r = vec![
            FontRecommendation {
                family: owned("OpenDyslexic"),
                reason: owned("Designed specifically for dyslexic readers with weighted bottoms"),
                category: FontCategory::DyslexiaFriendly,
            },
            FontRecommendation {
                family: owned("Atkinson Hyperlegible"),
                reason: owned("Created by Braille Institute for maximum legibility"),
                category: FontCategory::HighLegibility,
            },
            FontRecommendation {
                family: owned("Lexend"),
                reason: owned("Designed to improve reading proficiency with variable spacing"),
                category: FontCategory::VariableWeight,
            },
            FontRecommendation {
                family: owned("Comic Neue"),
                reason: owned("Informal style reduces letter confusion for some dyslexic readers"),
                category: FontCategory::DyslexiaFriendly,
            },
            FontRecommendation {
                family: owned("Read Regular"),
                reason: owned("Purpose-built for dyslexic readers with distinct letter shapes"),
                category: FontCategory::DyslexiaFriendly,
            },
        ];
        assert(r.deep_view() =~= dyslexia_fonts());
        r
    }

    /// Whether two fonts are too alike to tell apart, with advice when they
    /// are.
    pub fn check_contrast_between_fonts(font1: &str, font2: &str) -> (r: ContrastResult)
        requires
            similarity_defined(font1@, font2@) || (is_ascii_s(font1@) && is_ascii_s(font2@)),
        ensures
            r.fonts_similar == similar_s(font1@, font2@),
            r.fonts_similar ==> (r.recommendation matches Some(m) && m@ == contrast_advice(font1@, font2@)),
            !r.fonts_similar ==> r.recommendation is None,
    {
        if names_are_similar(font1, font2) {
            let mut v = chars_of("Fonts '");
            let f1 = chars_of(font1);
            append(&mut v, f1.as_slice());
            let mid = chars_of("' and '");
            append(&mut v, mid.as_slice());
            let f2 = chars_of(font2);
            append(&mut v, f2.as_slice());
            let tail = chars_of("' appear similar. Consider using more visually distinct fonts.");
            append(&mut v, tail.as_slice());
            return ContrastResult { fonts_similar: true, recommendation: Some(string_of(v.as_slice())) };
        }
        ContrastResult { fonts_similar: false, recommendation: None }
    }

    /// [`check_contrast_between_fonts`](Self::check_contrast_between_fonts)
    /// where it is defined; `None` where comparing the names' base prefixes
    /// would cut a character.
    pub fn try_check_contrast(font1: &str, font2: &str) -> (r: Option<ContrastResult>)
        ensures
            similarity_defined(font1@, font2@) ==> (r matches Some(c) && c.fonts_similar == similar_s(
                font1@,
                font2@,
            )),
            !similarity_defined(font1@, font2@) ==> r is None,
    {
        match similarity(font1, font2) {
            Some(_) => Some(AccessibilityChecker::check_contrast_between_fonts(font1, font2)),
            None => None,
        }
    }
}

/// The most font families a configuration should use.
pub const MAX_FONT_FAMILIES: usize = 6;

/// The primary families of a configuration, slot by slot: the default
/// font's, then each rule's.
pub open spec fn slot_families(c: ConfigView) -> Seq<Seq<char>> {
    (match c.default {
        Some(d) => seq![d.family],
        None => Seq::empty(),
    }) + c.rules.map_values(|r: FontRuleView| r.font.family)
}

/// The alike pairs `(fams[i], fams[j])` for a fixed `i` and `i < j < n`,
/// by increasing `j`.
pub open spec fn pairs_with(fams: Seq<Seq<char>>, i: int, n: int) -> Seq<(Seq<char>, Seq<char>)>
    decreases n - i,
{
    if n <= i + 1 {
        Seq::empty()
    } else {
        let p = pairs_with(fams, i, n - 1);
        if similar_s(fams[i], fams[n - 1]) {
            p.push((fams[i], fams[n - 1]))
        } else {
            p
        }
    }
}

/// The alike pairs `(fams[i], fams[j])` with `i < m` and `i < j`, by
/// increasing `i`, then `j`.
pub open spec fn pairs_below(fams: Seq<Seq<char>>, m: int) -> Seq<(Seq<char>, Seq<char>)>
    decreases m,
{
    if m <= 0 {
        Seq::empty()
    } else {
        pairs_below(fams, m - 1) + pairs_with(fams, m - 1, fams.len() as int)
    }
}

/// Whether every two of the names can be compared.
pub open spec fn all_comparable(fams: Seq<Seq<char>>) -> bool {
    forall|i: int, j: int| 0 <= i < j < fams.len() ==> similarity_defined(#[trigger] fams[i], #[trigger] fams[j])
}

impl AccessibilityChecker {
    /// The distinct primary families a configuration uses, in order of
    /// first use: the default font's, then each rule's.
    pub fn configured_families(config: &PolyfontConfig) -> (r: Vec<String>)
        ensures
            r.deep_view() == dedup_s(slot_families(config@)),
    {
        let ghost all = slot_families(config@);
        let mut slots: Vec<Vec<char>> = Vec::new();
        match &config.default {
            Some(d) => slots.push(chars_of(d.family.as_str())),
            None => {},
        }
        let ghost head = slots.deep_view();
        let mut i: usize = 0;
        while i < config.rules.len()
            invariant
                all == slot_families(config@),
                head == (match config@.default {
                    Some(d) => seq![d.family],
                    None => Seq::<Seq<char>>::empty(),
                }),
                i <= config.rules@.len(),
                slots.deep_view() == head + config@.rules.take(i as int).map_values(
                    |r: FontRuleView| r.font.family,
                ),
            decreases config.rules.len() - i,
        {
            let ghost prev = slots.deep_view();
            let fam = chars_of(config.rules[i].font.family.as_str());
            assert(config@.rules[i as int] == config.rules@[i as int]@);
            assert(fam@ == config@.rules[i as int].font.family);
            slots.push(fam);
            assert(slots.deep_view() =~= prev.push(config@.rules[i as int].font.family));
            assert(config@.rules.take(i + 1) =~= config@.rules.take(i as int).push(config@.rules[i as int]));
            assert(config@.rules.take(i + 1).map_values(|r: FontRuleView| r.font.family) =~= config@.rules.take(
                i as int,
            ).map_values(|r: FontRuleView| r.font.family).push(config@.rules[i as int].font.family));
            assert(slots.deep_view() =~= head + config@.rules.take(i + 1).map_values(
                |r: FontRuleView| r.font.family,
            ));
            i = i + 1;
        }
        assert(config@.rules.take(config@.rules.len() as int) =~= config@.rules);
        assert(slots.deep_view() =~= all);
        let d = dedup_names(&slots);
        strings_of(&d)
    }

    /// Whether a font lacks fallbacks, which an accessible configuration
    /// should give it.
    pub fn missing_fallback(fallbacks: &[String]) -> (r: bool)
        ensures
            r == (fallbacks@.len() == 0),
    {
        fallbacks.len() == 0
    }

    /// The number of families, where it is more than a configuration should
    /// use.
    pub fn too_many_fonts(families: &Vec<String>) -> (r: Option<usize>)
        ensures
            r == (if families@.len() > MAX_FONT_FAMILIES {
                Some(families@.len() as usize)
            } else {
                None::<usize>
            }),
    {
        if families.len() > MAX_FONT_FAMILIES {
            Some(families.len())
        } else {
            None
        }
    }

    /// Every two families found alike, in order of the first and then the
    /// second; `None` where some two cannot be compared (see
    /// [`similarity`]).
    pub fn similar_pairs(families: &Vec<String>) -> (r: Option<Vec<(String, String)>>)
        ensures
            all_comparable(families.deep_view()) ==> (r matches Some(v) && v.deep_view() == pairs_below(
                families.deep_view(),
                families.deep_view().len() as int,
            )),
            !all_comparable(families.deep_view()) ==> r is None,
    {
        let ghost fams = families.deep_view();
        let n = families.len();
        let mut out: Vec<(String, String)> = Vec::new();
        let mut i: usize = 0;
        while i < n
            invariant
                fams == families.deep_view(),
                n == fams.len(),
                i <= n,
                out.deep_view() == pairs_below(fams, i as int),
                forall|a: int, b: int| 0 <= a < i && a < b < n ==> similarity_defined(#[trigger] fams[a], #[trigger] fams[b]),
            decreases n - i,
        {
            let ghost before = out.deep_view();
            let mut j: usize = i + 1;
            assert(pairs_with(fams, i as int, j as int) =~= Seq::<(Seq<char>, Seq<char>)>::empty());
            assert(before + pairs_with(fams, i as int, j as int) =~= before);
            while j < n
                invariant
                    fams == families.deep_view(),
                    n == fams.len(),
                    i < n,
                    i + 1 <= j <= n,
                    before == pairs_below(fams, i as int),
                    out.deep_view() == before + pairs_with(fams, i as int, j as int),
                    forall|b: int| i < b < j ==> similarity_defined(fams[i as int], #[trigger] fams[b]),
                decreases n - j,
            {
                let ghost prev = out.deep_view();
                assert(fams[i as int] == families@[i as int]@ && fams[j as int] == families@[j as int]@);
                match similarity(families[i].as_str(), families[j].as_str()) {
                    Some(alike) => {
                        if alike {
                            let pair = (families[i].clone(), families[j].clone());
                            out.push(pair);
                            assert(out.deep_view() =~= prev.push((fams[i as int], fams[j as int])));
                        }
                    },
                    None => {
                        assert(!similarity_defined(fams[i as int], fams[j as int]));
                        assert(!all_comparable(fams));
                        return None;
                    },
                }
                j = j + 1;
            }
            assert(out.deep_view() =~= pairs_below(fams, i + 1));
            i = i + 1;
        }
        Some(out)
    }
}

} // verus!
