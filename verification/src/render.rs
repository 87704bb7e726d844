//! The parts of rendering that do not measure glyphs: escaping text for
//! SVG, grouping tokens into lines, choosing each token's font, the bitmap
//! font and the cache of font metrics.
//!
//! Glyph metrics and positions are floating-point and are computed by the
//! caller.
use vstd::prelude::*;

pub mod bitmap_font;
pub mod font_cache;

use crate::config::{decimal, decimal_s};
use crate::engine::{resolve_in, PolyfontEngine, ScopeMatchEngine};
use crate::font::{default_font_view, FontSpec, FontSpecView};
use crate::names::{contains_name, dedup_s, lemma_dedup, strings_of};
use crate::text::{append, chars_of, string_of};
use crate::token::{TokenInfo, TokenView};

verus! {

broadcast use {vstd::seq_lib::group_seq_properties, crate::lemma_chars_deep_view};

/// How one character is written in XML text.
pub open spec fn xml_char(c: char) -> Seq<char> {
    if c == '&' {
        "&amp;"@
    } else if c == '<' {
        "&lt;"@
    } else if c == '>' {
        "&gt;"@
    } else if c == '"' {
        "&quot;"@
    } else if c == '\'' {
        "&apos;"@
    } else {
        seq![c]
    }
}

/// Text escaped for XML, character by character.
pub open spec fn xml_escape_s(s: Seq<char>) -> Seq<char>
    decreases s.len(),
{
    if s.len() == 0 {
        Seq::empty()
    } else {
        xml_escape_s(s.drop_last()) + xml_char(s.last())
    }
}

/// The value of a hexadecimal digit, either case.
pub open spec fn hex_digit_value(c: char) -> Option<nat> {
    if '0' <= c && c <= '9' {
        Some((c as nat - '0' as nat) as nat)
    } else if 'a' <= c && c <= 'f' {
        Some((c as nat - 'a' as nat + 10) as nat)
    } else if 'A' <= c && c <= 'F' {
        Some((c as nat - 'A' as nat + 10) as nat)
    } else {
        None
    }
}

/// The number the hexadecimal digits `s` spell, if they are all digits.
pub open spec fn hex_digits_value(s: Seq<char>) -> Option<nat>
    decreases s.len(),
{
    if s.len() == 0 {
        Some(0)
    } else {
        match (hex_digits_value(s.drop_last()), hex_digit_value(s.last())) {
            (Some(v), Some(d)) => Some(v * 16 + d),
            _ => None,
        }
    }
}

/// The digits of an unsigned number: the text after an optional `+`.
pub open spec fn unsigned_digits(s: Seq<char>) -> Seq<char> {
    if s.len() > 0 && s[0] == '+' {
        s.drop_first()
    } else {
        s
    }
}

/// What `u32::from_str_radix(s, 16)` gives: the value of the digits after
/// an optional `+`, when there is at least one digit, all are hexadecimal
/// and the value fits in 32 bits.
pub open spec fn hex_u32(s: Seq<char>) -> Option<u32> {
    let digits = unsigned_digits(s);
    if digits.len() == 0 {
        None
    } else {
        match hex_digits_value(digits) {
            Some(v) => if v <= u32::MAX {
                Some(v as u32)
            } else {
                None
            },
            None => None,
        }
    }
}

/// The red, green and blue bytes of a hexadecimal color such as
/// `"1e1e2e"`; white when it cannot be read.
pub open spec fn hex_color(s: Seq<char>) -> (u8, u8, u8) {
    let v: u32 = match hex_u32(s) {
        Some(v) => v,
        None => 0xFF_FFFF,
    };
    (((v / 0x1_0000) % 0x100) as u8, ((v / 0x100) % 0x100) as u8, (v % 0x100) as u8)
}

/// Digits keep their value from growing past a bound once they exceed it.
proof fn lemma_hex_digits_monotone(s: Seq<char>, k: int)
    requires
        0 <= k <= s.len(),
        hex_digits_value(s) is Some,
    ensures
        hex_digits_value(s.take(k)) is Some,
        hex_digits_value(s.take(k))->0 <= hex_digits_value(s)->0,
    decreases s.len(),
{
    if k < s.len() {
        assert(s.drop_last().take(k) =~= s.take(k));
        lemma_hex_digits_monotone(s.drop_last(), k);
    } else {
        assert(s.take(k) =~= s);
    }
}

/// The color written in hexadecimal as `hex` (as the background and
/// foreground of rendered images are given); white when it cannot be read.
pub fn parse_hex_color(hex: &str) -> (r: (u8, u8, u8))
    ensures
        r == hex_color(hex@),
{
    let cs = chars_of(hex);
    let start: usize = if cs.len() > 0 && cs[0] == '+' {
        1
    } else {
        0
    };
    let ghost digits = unsigned_digits(hex@);
    assert(cs@.skip(start as int) =~= digits);
    let mut value: u64 = 0;
    let mut ok = start < cs.len();
    let mut i: usize = start;
    while ok && i < cs.len()
        invariant
            start <= i <= cs@.len(),
            cs@ == hex@,
            digits == cs@.skip(start as int),
            digits == unsigned_digits(hex@),
            ok ==> hex_digits_value(digits.take(i - start)) == Some(value as nat),
            ok ==> value <= u32::MAX,
            ok ==> start < cs@.len(),
            !ok ==> hex_u32(hex@) is None,
        decreases cs.len() - i,
    {
        let c = cs[i];
        let d: u64 = if '0' <= c && c <= '9' {
            (c as u64) - ('0' as u64)
        } else if 'a' <= c && c <= 'f' {
            (c as u64) - ('a' as u64) + 10
        } else if 'A' <= c && c <= 'F' {
            (c as u64) - ('A' as u64) + 10
        } else {
            16
        };
        let ghost k = i - start;
        assert(digits.take(k + 1).drop_last() =~= digits.take(k));
        assert(digits.take(k + 1).last() == c);
        if d == 16 {
            proof {
                assert(hex_digit_value(c) is None);
                assert(hex_digits_value(digits.take(k + 1)) is None);
                if hex_digits_value(digits) is Some {
                    lemma_hex_digits_monotone(digits, k + 1);
                }
            }
            ok = false;
        } else {
            assert(hex_digit_value(c) == Some(d as nat));
            let next = value * 16 + d;
            if next > 0xFFFF_FFFF {
                proof {
                    assert(hex_digits_value(digits.take(k + 1)) == Some(next as nat));
                    if hex_digits_value(digits) is Some {
                        lemma_hex_digits_monotone(digits, k + 1);
                    }
                }
                ok = false;
            } else {
                value = next;
            }
        }
        i = i + 1;
    }
    let v: u32 = if ok {
        assert(digits.take(cs@.len() - start) =~= digits);
        value as u32
    } else {
        0xFF_FFFF
    };
    (((v / 0x1_0000) % 0x100) as u8, ((v / 0x100) % 0x100) as u8, (v % 0x100) as u8)
}

/// `s` escaped for use in SVG or XML text: `&`, `<`, `>`, `"` and `'` are
/// written as entities.
pub fn xml_escape(s: &str) -> (r: String)
    ensures
        r@ == xml_escape_s(s@),
{
    let cs = chars_of(s);
    let mut out: Vec<char> = Vec::new();
    let mut i: usize = 0;
    assert(cs@.take(0) =~= Seq::<char>::empty());
    while i < cs.len()
        invariant
            i <= cs@.len(),
            out@ == xml_escape_s(cs@.take(i as int)),
        decreases cs.len() - i,
    {
        assert(cs@.take(i + 1).drop_last() =~= cs@.take(i as int));
        let c = cs[i];
        if c == '&' {
            append(&mut out, chars_of("&amp;").as_slice());
        } else if c == '<' {
            append(&mut out, chars_of("&lt;").as_slice());
        } else if c == '>' {
            append(&mut out, chars_of("&gt;").as_slice());
        } else if c == '"' {
            append(&mut out, chars_of("&quot;").as_slice());
        } else if c == '\'' {
            append(&mut out, chars_of("&apos;").as_slice());
        } else {
            out.push(c);
        }
        i = i + 1;
    }
    assert(cs@.take(cs@.len() as int) =~= cs@);
    string_of(out.as_slice())
}

/// The opening tag of an SVG document of the given size.
pub open spec fn svg_open_s(width: u32, height: u32) -> Seq<char> {
    "<svg xmlns=\"http://www.w3.org/2000/svg\" width=\""@ + decimal_s(width as nat) + "\" height=\""@
        + decimal_s(height as nat) + "\" viewBox=\"0 0 "@ + decimal_s(width as nat) + " "@ + decimal_s(
        height as nat,
    ) + "\">"@
}

/// The SVG rendered for no tokens: an opening tag of the given size.
pub fn empty_svg(width: u32, height: u32) -> (r: String)
    ensures
        r@ == svg_open_s(width, height),
{
    let mut v = chars_of("<svg xmlns=\"http://www.w3.org/2000/svg\" width=\"");
    append(&mut v, decimal(width as u64).as_slice());
    append(&mut v, chars_of("\" height=\"").as_slice());
    append(&mut v, decimal(height as u64).as_slice());
    append(&mut v, chars_of("\" viewBox=\"0 0 ").as_slice());
    append(&mut v, decimal(width as u64).as_slice());
    append(&mut v, chars_of(" ").as_slice());
    append(&mut v, decimal(height as u64).as_slice());
    append(&mut v, chars_of("\">").as_slice());
    string_of(v.as_slice())
}

/// The spans `(start, end)` of the runs of equal consecutive line numbers
/// in `lines`, in order.
pub open spec fn line_spans(lines: Seq<u32>) -> Seq<(int, int)>
    decreases lines.len(),
{
    if lines.len() == 0 {
        Seq::empty()
    } else {
        let prev = line_spans(lines.drop_last());
        let n = lines.len() as int;
        if n >= 2 && lines[n - 2] == lines[n - 1] {
            prev.update(prev.len() - 1, (prev.last().0, n))
        } else {
            prev.push((n - 1, n))
        }
    }
}

/// Where span `k` starts.
pub open spec fn span_start(spans: Seq<(int, int)>, k: int) -> int {
    spans[k].0
}

/// Where span `k` ends.
pub open spec fn span_end(spans: Seq<(int, int)>, k: int) -> int {
    spans[k].1
}

/// The spans cover `0..n` in order without gaps, each non-empty.
pub open spec fn spans_cover(n: int, spans: Seq<(int, int)>) -> bool {
    &&& (n == 0 <==> spans.len() == 0)
    &&& spans.len() > 0 ==> spans[0].0 == 0 && spans.last().1 == n
    &&& forall|k: int| 0 <= k < spans.len() ==> 0 <= #[trigger] spans[k].0 < spans[k].1 <= n
    &&& forall|k: int| 0 <= k < spans.len() - 1 ==> #[trigger] span_end(spans, k) == span_start(spans, k + 1)
}

/// Each span lies on one line.
pub open spec fn spans_uniform(lines: Seq<u32>, spans: Seq<(int, int)>) -> bool {
    forall|k: int, i: int|
        #![trigger spans[k], lines[i]]
        0 <= k < spans.len() && spans[k].0 <= i < spans[k].1 ==> lines[i] == lines[spans[k].0]
}

/// Neighbouring spans are on different lines.
pub open spec fn spans_separated(lines: Seq<u32>, spans: Seq<(int, int)>) -> bool {
    forall|k: int| 0 <= k < spans.len() - 1 ==> lines[#[trigger] span_end(spans, k) - 1] != lines[span_end(spans, k)]
}

/// The line spans cover all tokens in order, without gaps.
proof fn lemma_spans_cover(lines: Seq<u32>)
    ensures
        spans_cover(lines.len() as int, line_spans(lines)),
    decreases lines.len(),
{
    if lines.len() > 0 {
        let p = lines.drop_last();
        lemma_spans_cover(p);
        let prev = line_spans(p);
        let s = line_spans(lines);
        let n = lines.len() as int;
        if n >= 2 && lines[n - 2] == lines[n - 1] {
            let last = prev.len() - 1;
            assert(s == prev.update(last, (prev[last].0, n)));
            assert forall|k: int| 0 <= k < s.len() implies 0 <= #[trigger] s[k].0 < s[k].1 <= n by {
                if k < last {
                    assert(s[k] == prev[k]);
                }
            }
            assert forall|k: int| 0 <= k < s.len() - 1 implies #[trigger] span_end(s, k) == span_start(
                s,
                k + 1,
            ) by {
                assert(s[k] == prev[k]);
                assert(span_end(prev, k) == span_start(prev, k + 1));
                assert(s[k + 1].0 == prev[k + 1].0);
            }
        } else {
            assert(s == prev.push((n - 1, n)));
            assert forall|k: int| 0 <= k < s.len() implies 0 <= #[trigger] s[k].0 < s[k].1 <= n by {
                if k < prev.len() {
                    assert(s[k] == prev[k]);
                }
            }
            assert forall|k: int| 0 <= k < s.len() - 1 implies #[trigger] span_end(s, k) == span_start(
                s,
                k + 1,
            ) by {
                assert(s[k] == prev[k]);
                if k < prev.len() - 1 {
                    assert(span_end(prev, k) == span_start(prev, k + 1));
                }
            }
        }
    }
}

/// Each line span lies on one line.
proof fn lemma_spans_uniform(lines: Seq<u32>)
    ensures
        spans_uniform(lines, line_spans(lines)),
    decreases lines.len(),
{
    if lines.len() > 0 {
        let p = lines.drop_last();
        lemma_spans_uniform(p);
        lemma_spans_cover(p);
        let prev = line_spans(p);
        let s = line_spans(lines);
        let n = lines.len() as int;
        if n >= 2 && lines[n - 2] == lines[n - 1] {
            let last = prev.len() - 1;
            assert(s == prev.update(last, (prev[last].0, n)));
            assert(prev[last].0 <= n - 2 < prev[last].1);
            assert(p[n - 2] == p[prev[last].0]);
            assert forall|k: int, i: int|
                #![trigger s[k], lines[i]]
                0 <= k < s.len() && s[k].0 <= i < s[k].1 implies lines[i] == lines[s[k].0] by {
                assert(s[k].0 == prev[k].0);
                assert(0 <= prev[k].0 < prev[k].1 <= n - 1);
                if k < last {
                    assert(s[k] == prev[k]);
                }
                if i < n - 1 {
                    assert(p[i] == p[prev[k].0]);
                    assert(p[i] == lines[i]);
                    assert(p[prev[k].0] == lines[prev[k].0]);
                } else {
                    assert(p[n - 2] == lines[n - 2]);
                    assert(p[prev[k].0] == lines[prev[k].0]);
                }
            }
        } else {
            assert(s == prev.push((n - 1, n)));
            assert forall|k: int, i: int|
                #![trigger s[k], lines[i]]
                0 <= k < s.len() && s[k].0 <= i < s[k].1 implies lines[i] == lines[s[k].0] by {
                if k < prev.len() {
                    assert(s[k] == prev[k]);
                    assert(0 <= prev[k].0 < prev[k].1 <= n - 1);
                    assert(p[i] == p[prev[k].0]);
                    assert(p[i] == lines[i]);
                    assert(p[prev[k].0] == lines[prev[k].0]);
                }
            }
        }
    }
}

/// Neighbouring line spans are on different lines.
proof fn lemma_spans_separated(lines: Seq<u32>)
    ensures
        spans_separated(lines, line_spans(lines)),
    decreases lines.len(),
{
    if lines.len() > 0 {
        let p = lines.drop_last();
        lemma_spans_separated(p);
        lemma_spans_cover(p);
        let prev = line_spans(p);
        let s = line_spans(lines);
        let n = lines.len() as int;
        if n >= 2 && lines[n - 2] == lines[n - 1] {
            let last = prev.len() - 1;
            assert(s == prev.update(last, (prev[last].0, n)));
            assert forall|k: int| 0 <= k < s.len() - 1 implies lines[#[trigger] span_end(s, k) - 1] != lines[span_end(
                s,
                k,
            )] by {
                assert(s[k] == prev[k]);
                assert(span_end(prev, k) == span_start(prev, k + 1));
                assert(0 <= prev[k + 1].0 < prev[k + 1].1 <= n - 1);
                assert(0 <= prev[k].0 < prev[k].1 <= n - 1);
                assert(p[span_end(prev, k) - 1] != p[span_end(prev, k)]);
                assert(p[span_end(prev, k) - 1] == lines[span_end(prev, k) - 1]);
                assert(p[span_end(prev, k)] == lines[span_end(prev, k)]);
            }
        } else {
            assert(s == prev.push((n - 1, n)));
            assert forall|k: int| 0 <= k < s.len() - 1 implies lines[#[trigger] span_end(s, k) - 1] != lines[span_end(
                s,
                k,
            )] by {
                assert(s[k] == prev[k]);
                if k < prev.len() - 1 {
                    assert(span_end(prev, k) == span_start(prev, k + 1));
                    assert(0 <= prev[k + 1].0 < prev[k + 1].1 <= n - 1);
                    assert(0 <= prev[k].0 < prev[k].1 <= n - 1);
                    assert(p[span_end(prev, k) - 1] != p[span_end(prev, k)]);
                    assert(p[span_end(prev, k) - 1] == lines[span_end(prev, k) - 1]);
                    assert(p[span_end(prev, k)] == lines[span_end(prev, k)]);
                } else {
                    assert(prev[k].1 == n - 1);
                    assert(n >= 2);
                }
            }
        }
    }
}

/// Grouping tokens into lines splits them into consecutive runs on one line
/// each, covering every token once, neighbouring runs on different lines.
pub proof fn lemma_line_spans_partition(lines: Seq<u32>)
    ensures
        spans_cover(lines.len() as int, line_spans(lines)),
        spans_uniform(lines, line_spans(lines)),
        spans_separated(lines, line_spans(lines)),
{
    lemma_spans_cover(lines);
    lemma_spans_uniform(lines);
    lemma_spans_separated(lines);
}

/// The line spans of tokens by their start lines: each span is a run of
/// consecutive tokens starting on the same line.
pub fn group_into_lines(tokens: &[(TokenInfo, Option<FontSpec>)]) -> (r: Vec<(usize, usize)>)
    ensures
        r@.map_values(|p: (usize, usize)| (p.0 as int, p.1 as int)) == line_spans(
            tokens@.map_values(|t: (TokenInfo, Option<FontSpec>)| t.0.range.start.line),
        ),
{
    let ghost lines = tokens@.map_values(|t: (TokenInfo, Option<FontSpec>)| t.0.range.start.line);
    let mut spans: Vec<(usize, usize)> = Vec::new();
    let mut i: usize = 0;
    assert(lines.take(0) =~= Seq::<u32>::empty());
    assert(spans@.map_values(|p: (usize, usize)| (p.0 as int, p.1 as int)) =~= Seq::<(int, int)>::empty());
    while i < tokens.len()
        invariant
            lines == tokens@.map_values(|t: (TokenInfo, Option<FontSpec>)| t.0.range.start.line),
            i <= tokens@.len(),
            spans@.map_values(|p: (usize, usize)| (p.0 as int, p.1 as int)) == line_spans(lines.take(i as int)),
            forall|k: int| 0 <= k < spans@.len() ==> #[trigger] spans@[k].1 <= i,
            i > 0 ==> spans@.len() > 0,
        decreases tokens.len() - i,
    {
        let ghost prev = spans@;
        let ghost t = lines.take(i + 1);
        assert(t.drop_last() =~= lines.take(i as int));
        if i > 0 && tokens[i - 1].0.range.start.line == tokens[i].0.range.start.line {
            let k = spans.len() - 1;
            let (s, _) = spans[k];
            spans.set(k, (s, i + 1));
            assert(spans@.map_values(|p: (usize, usize)| (p.0 as int, p.1 as int)) =~= line_spans(t));
        } else {
            spans.push((i, i + 1));
            assert(spans@.map_values(|p: (usize, usize)| (p.0 as int, p.1 as int)) =~= line_spans(t));
        }
        i = i + 1;
    }
    assert(lines.take(tokens@.len() as int) =~= lines);
    spans
}

/// The family a token is drawn in: that of its font, else the default.
pub open spec fn token_family(entry: (TokenInfo, Option<FontSpec>), default_family: Seq<char>) -> Seq<char> {
    match entry.1 {
        Some(spec) => spec.family@,
        None => default_family,
    }
}

/// The families of the tokens `start..end`, one per token.
pub open spec fn span_families(
    tokens: Seq<(TokenInfo, Option<FontSpec>)>,
    start: int,
    end: int,
    default_family: Seq<char>,
) -> Seq<Seq<char>> {
    tokens.subrange(start, end).map_values(|e: (TokenInfo, Option<FontSpec>)| token_family(e, default_family))
}

/// The distinct families used by the tokens `start..end`, in the order in
/// which they are first used.
pub fn line_families(
    tokens: &[(TokenInfo, Option<FontSpec>)],
    start: usize,
    end: usize,
    default_family: &str,
) -> (r: Vec<String>)
    requires
        start <= end <= tokens@.len(),
    ensures
        r.deep_view() == dedup_s(span_families(tokens@, start as int, end as int, default_family@)),
{
    let ghost all = span_families(tokens@, start as int, end as int, default_family@);
    let mut seen: Vec<Vec<char>> = Vec::new();
    let mut i: usize = start;
    assert(all.take(0) =~= Seq::<Seq<char>>::empty());
    while i < end
        invariant
            start <= i <= end <= tokens@.len(),
            all == span_families(tokens@, start as int, end as int, default_family@),
            seen.deep_view() == dedup_s(all.take(i - start)),
        decreases end - i,
    {
        let ghost prev = seen.deep_view();
        let ghost k = i - start;
        assert(all.take(k + 1).drop_last() =~= all.take(k));
        let family = match &tokens[i].1 {
            Some(spec) => chars_of(spec.family.as_str()),
            None => chars_of(default_family),
        };
        assert(family@ == all[k]);
        proof {
            lemma_dedup(all.take(k));
        }
        if !contains_name(&seen, family.as_slice()) {
            seen.push(family);
            assert(seen.deep_view() =~= prev.push(all[k]));
        }
        i = i + 1;
    }
    assert(all.take(end - start) =~= all);
    strings_of(&seen)
}

/// The result of rendering.
#[derive(Debug)]
pub enum RenderOutput {
    /// An SVG document.
    Svg(String),
    /// An RGBA pixel buffer of the given size.
    Png { width: u32, height: u32, pixels: Vec<u8> },
}

impl Clone for RenderOutput {
    fn clone(&self) -> (r: Self)
        ensures
            match (self, r) {
                (RenderOutput::Svg(a), RenderOutput::Svg(b)) => a@ == b@,
                (
                    RenderOutput::Png { width: w1, height: h1, pixels: p1 },
                    RenderOutput::Png { width: w2, height: h2, pixels: p2 },
                ) => w1 == w2 && h1 == h2 && p1@ == p2@,
                _ => false,
            },
    {
        match self {
            RenderOutput::Svg(s) => RenderOutput::Svg(s.clone()),
            RenderOutput::Png { width, height, pixels } => {
                let mut p: Vec<u8> = Vec::new();
                let mut i: usize = 0;
                while i < pixels.len()
                    invariant
                        i <= pixels@.len(),
                        p@ == pixels@.take(i as int),
                    decreases pixels.len() - i,
                {
                    p.push(pixels[i]);
                    assert(pixels@.take(i + 1) =~= pixels@.take(i as int).push(pixels@[i as int]));
                    i = i + 1;
                }
                assert(pixels@.take(pixels@.len() as int) =~= pixels@);
                RenderOutput::Png { width: *width, height: *height, pixels: p }
            },
        }
    }
}

/// Chooses each token's font family through a scope matching engine.
pub struct ScopeAnnotator {
    engine: ScopeMatchEngine,
}

impl View for ScopeAnnotator {
    type V = Seq<crate::font::FontRuleView>;

    closed spec fn view(&self) -> Seq<crate::font::FontRuleView> {
        self.engine@
    }
}

/// Whether `e` is `tok` paired with the font its scope is assigned under
/// `rules` (a plain font of the assigned family), or with none.
pub open spec fn annotated_entry(
    rules: Seq<crate::font::FontRuleView>,
    tok: TokenInfo,
    e: (TokenInfo, Option<FontSpec>),
) -> bool {
    &&& e.0@ == tok@
    &&& match annotation(rules, tok.scope@) {
        Some(f) => e.1 matches Some(s) && s@ == default_font_view(f),
        None => e.1 is None,
    }
}

/// The family the engine's rules give a token of scope `scope`.
pub open spec fn annotation(rules: Seq<crate::font::FontRuleView>, scope: Seq<char>) -> Option<Seq<char>> {
    match resolve_in(rules, scope) {
        Some(a) => Some(a.font.family),
        None => None,
    }
}

impl ScopeAnnotator {
    /// An annotator using `engine`'s rules.
    pub fn new(engine: ScopeMatchEngine) -> (r: Self)
        ensures
            r@ == engine@,
    {
        ScopeAnnotator { engine }
    }

    /// The font family assigned to `token`, if a rule matches its scope.
    pub fn annotate(&self, token: &TokenInfo) -> (r: Option<String>)
        ensures
            r matches Some(f) ==> annotation(self@, token.scope@) == Some(f@),
            r is None ==> annotation(self@, token.scope@) is None,
    {
        match self.engine.resolve_token(token) {
            Some(a) => Some(a.font.family),
            None => None,
        }
    }

    /// Each token paired with a plain font of its assigned family, or with
    /// no font when no rule matches.
    pub fn annotated_tokens(&self, tokens: &[TokenInfo]) -> (r: Vec<(TokenInfo, Option<FontSpec>)>)
        ensures
            r@.len() == tokens@.len(),
            forall|i: int| 0 <= i < tokens@.len() ==> annotated_entry(self@, tokens@[i], #[trigger] r@[i]),
    {
        let mut r: Vec<(TokenInfo, Option<FontSpec>)> = Vec::new();
        let mut i: usize = 0;
        while i < tokens.len()
            invariant
                i <= tokens@.len(),
                r@.len() == i,
                forall|j: int| 0 <= j < i ==> annotated_entry(self@, tokens@[j], #[trigger] r@[j]),
            decreases tokens.len() - i,
        {
            let family = self.annotate(&tokens[i]);
            let spec = match family {
                Some(f) => Some(FontSpec::default_font(f.as_str())),
                None => None,
            };
            let t = tokens[i].clone();
            assert(t@ == tokens@[i as int]@);
            let ghost prev = r@;
            assert(annotated_entry(self@, tokens@[i as int], (t, spec)));
            r.push((t, spec));
            assert(r@ == prev.push((t, spec)));
            i = i + 1;
        }
        r
    }
}

} // verus!
