//! Turning source text into scoped tokens: byte offsets to positions,
//! highlight captures to scopes, and the per-language parser registry.
use vstd::prelude::*;

use crate::names::{chars_of_all, sort_names, sorted_names, strings_of};
use crate::text::{
    byte_len, chars_of, concat, count_char, join_s, owned, slice_range, str_byte_len, str_eq,
    string_of, utf16_len, utf8_len, utf8_width, char_width, lemma_utf8_push, lemma_utf8_subrange,
    lemma_utf8_concat,
};
use crate::token::{Position, Range, TokenInfo};

verus! {

broadcast use {vstd::seq_lib::group_seq_properties, crate::lemma_chars_deep_view};

/// How columns are counted.
#[derive(Debug, Clone, Copy, PartialEq, Eq, Structural)]
pub enum OffsetEncoding {
    /// Bytes of UTF-8.
    Utf8,
    /// UTF-16 code units, as most editors count.
    Utf16,
}

/// Errors from token parsing.
#[derive(Debug)]
pub enum ParseError {
    UnsupportedLanguage(String),
    ParseFailed { language: String, message: String },
}

impl ParseError {
    /// The message describing this error.
    pub fn to_string(&self) -> (r: String)
        ensures
            r@ == match self {
                ParseError::UnsupportedLanguage(l) => "unsupported language: "@ + l@,
                ParseError::ParseFailed { language, message } => "tree-sitter parsing failed for language '"@
                    + language@ + "': "@ + message@,
            },
    {
        match self {
            ParseError::UnsupportedLanguage(l) => concat("unsupported language: ", l.as_str()),
            ParseError::ParseFailed { language, message } => {
                let a = concat("tree-sitter parsing failed for language '", language.as_str());
                let b = concat(a.as_str(), "': ");
                concat(b.as_str(), message.as_str())
            },
        }
    }
}

/// Tokenization for one language.
pub trait LanguageSupport {
    /// The language's display name.
    fn language_name(&self) -> &str;

    /// The language's identifier, such as `rust`.
    fn language_id(&self) -> &str;

    /// The scoped tokens of `text`, positions counted in `offset_encoding`.
    fn parse(&self, text: &str, offset_encoding: OffsetEncoding) -> Result<Vec<TokenInfo>, ParseError>;
}

/// Whether byte offset `k` of the UTF-8 form of `s` falls between two
/// characters (or at either end).
pub open spec fn is_boundary(s: Seq<char>, k: int) -> bool {
    exists|m: int| 0 <= m <= s.len() && utf8_len(s.take(m)) == k
}

/// The number of characters before byte offset `k`, when `k` is a boundary.
pub open spec fn boundary_index(s: Seq<char>, k: int) -> int {
    choose|m: int| 0 <= m <= s.len() && utf8_len(s.take(m)) == k
}

/// The index just after the last newline of `t`, or 0 when it has none.
pub open spec fn after_last_newline(t: Seq<char>) -> int
    decreases t.len(),
{
    if t.len() == 0 {
        0
    } else if t.last() == '\n' {
        t.len() as int
    } else {
        after_last_newline(t.drop_last())
    }
}

/// The offset `off` clamped to the byte length of `s`.
pub open spec fn clamp_offset(s: Seq<char>, off: int) -> int {
    if off < utf8_len(s) {
        off
    } else {
        utf8_len(s) as int
    }
}

/// The position of byte offset `off` (clamped to the text): the line is the
/// number of newlines before the offset, and the column is the length, in
/// `enc`, of the text between the start of that line (just after the last
/// newline before the offset) and the offset.
pub open spec fn position_of(s: Seq<char>, off: int, enc: OffsetEncoding) -> Position {
    let m = boundary_index(s, clamp_offset(s, off));
    let before = s.take(m);
    let ls = after_last_newline(before);
    let lt = if ls <= m {
        s.subrange(ls, m)
    } else {
        Seq::<char>::empty()
    };
    let col: nat = match enc {
        OffsetEncoding::Utf8 => utf8_len(lt),
        OffsetEncoding::Utf16 => utf16_len(lt),
    };
    Position { line: count_char(before, '\n') as u32, column: col as u32 }
}

/// UTF-8 lengths of prefixes grow strictly with the prefix.
pub proof fn lemma_utf8_take_increasing(s: Seq<char>, a: int, b: int)
    requires
        0 <= a < b <= s.len(),
    ensures
        utf8_len(s.take(a)) < utf8_len(s.take(b)),
{
    let mid = s.subrange(a, b - 1);
    lemma_utf8_push(mid, s[b - 1]);
    assert(mid.push(s[b - 1]) =~= s.subrange(a, b));
    lemma_utf8_concat(s.take(a), s.subrange(a, b));
    assert(s.take(a) + s.subrange(a, b) =~= s.take(b));
}

/// At most one prefix has a given UTF-8 length.
pub proof fn lemma_boundary_unique(s: Seq<char>, m: int, k: int)
    requires
        0 <= m <= s.len(),
        utf8_len(s.take(m)) == k,
    ensures
        is_boundary(s, k),
        boundary_index(s, k) == m,
{
    assert(is_boundary(s, k));
    let w = boundary_index(s, k);
    if w < m {
        lemma_utf8_take_increasing(s, w, m);
    } else if w > m {
        lemma_utf8_take_increasing(s, m, w);
    }
}

/// Newline counts of prefixes grow with the prefix.
pub proof fn lemma_count_prefix(s: Seq<char>, a: int, b: int, c: char)
    requires
        0 <= a <= b <= s.len(),
    ensures
        count_char(s.take(a), c) <= count_char(s.take(b), c),
    decreases b - a,
{
    if a < b {
        lemma_count_prefix(s, a, b - 1, c);
        assert(s.take(b).drop_last() =~= s.take(b - 1));
    }
}

/// A text has no more UTF-16 code units than UTF-8 bytes.
pub proof fn lemma_utf16_le_utf8(s: Seq<char>)
    ensures
        utf16_len(s) <= utf8_len(s),
    decreases s.len(),
{
    if s.len() > 0 {
        lemma_utf16_le_utf8(s.drop_last());
        lemma_utf8_push(s.drop_last(), s.last());
        assert(s.drop_last().push(s.last()) =~= s);
    }
}

/// The number of UTF-16 code units of `s`.
pub fn utf16_count(s: &[char]) -> (n: usize)
    requires
        utf8_len(s@) <= usize::MAX,
    ensures
        n == utf16_len(s@),
{
    let mut n: usize = 0;
    let mut i: usize = 0;
    assert(s@.take(0) =~= Seq::<char>::empty());
    while i < s.len()
        invariant
            i <= s@.len(),
            utf8_len(s@) <= usize::MAX,
            n == utf16_len(s@.take(i as int)),
        decreases s.len() - i,
    {
        proof {
            assert(s@.take(i + 1).drop_last() =~= s@.take(i as int));
            lemma_utf16_le_utf8(s@.take(i + 1));
            lemma_utf8_subrange(s@, 0, i + 1);
            assert(s@.subrange(0, i + 1) =~= s@.take(i + 1));
        }
        if (s[i] as u32) < 0x10000 {
            n = n + 1;
        } else {
            n = n + 2;
        }
        i = i + 1;
    }
    assert(s@.take(s@.len() as int) =~= s@);
    n
}

/// The line and column of byte offset `byte_offset` in `text`.  An offset
/// past the end counts as the end.
pub fn byte_offset_to_position(text: &str, byte_offset: usize, offset_encoding: OffsetEncoding) -> (r:
    Position)
    requires
        is_boundary(text@, clamp_offset(text@, byte_offset as int)),
        count_char(text@.take(boundary_index(text@, clamp_offset(text@, byte_offset as int))), '\n')
            <= u32::MAX,
    ensures
        r == position_of(text@, byte_offset as int, offset_encoding),
{
    let chars = chars_of(text);
    let ghost s = chars@;
    let total = str_byte_len(text);
    let off = if byte_offset < total {
        byte_offset
    } else {
        total
    };
    let ghost m = boundary_index(s, off as int);
    assert(0 <= m <= s.len() && utf8_len(s.take(m)) == off);
    let mut pos: usize = 0;
    let mut k: usize = 0;
    let mut line: u32 = 0;
    let mut ls: usize = 0;
    assert(s.take(0) =~= Seq::<char>::empty());
    assert(utf8_len(Seq::<char>::empty()) == 0) by {
        assert(vstd::utf8::encode_utf8(Seq::<char>::empty()) =~= Seq::<u8>::empty());
    }
    while k < chars.len() && pos < off
        invariant
            s == chars@,
            s == text@,
            0 <= m <= s.len(),
            utf8_len(s.take(m)) == off,
            off <= total,
            total == utf8_len(s),
            k <= s.len(),
            pos == utf8_len(s.take(k as int)),
            pos <= off,
            k <= m,
            line == count_char(s.take(k as int), '\n'),
            ls == after_last_newline(s.take(k as int)),
            count_char(s.take(m), '\n') <= u32::MAX,
        decreases s.len() - k,
    {
        proof {
            if k == m {
                assert(pos == off);
            }
            assert(k < m);
            assert(s.take(k + 1).drop_last() =~= s.take(k as int));
            lemma_count_prefix(s, k + 1, m, '\n');
            lemma_utf8_push(s.take(k as int), s[k as int]);
            assert(s.take(k as int).push(s[k as int]) =~= s.take(k + 1));
            lemma_utf8_subrange(s, 0, k + 1);
            assert(s.subrange(0, k + 1) =~= s.take(k + 1));
        }
        proof {
            if k + 1 < m {
                lemma_utf8_take_increasing(s, k + 1, m);
            }
        }
        if chars[k] == '\n' {
            line = line + 1;
            ls = k + 1;
        }
        pos = pos + char_width(chars[k]);
        k = k + 1;
    }
    proof {
        if pos < off {
            assert(k == s.len());
            assert(s.take(k as int) =~= s);
        }
        assert(pos == off);
        if k < m {
            lemma_utf8_take_increasing(s, k as int, m);
        }
        assert(k == m);
        lemma_boundary_unique(s, m, off as int);
    }
    let line_text = if ls <= k {
        slice_range(chars.as_slice(), ls, k)
    } else {
        Vec::new()
    };
    let ghost lt = line_text@;
    proof {
        if ls <= k {
            lemma_utf8_subrange(s, ls as int, k as int);
        } else {
            assert(lt =~= Seq::<char>::empty());
        }
        assert(utf8_len(lt) <= utf8_len(s)) by {
            if ls > k {
                assert(utf8_len(lt) == 0) by {
                    assert(vstd::utf8::encode_utf8(lt) =~= Seq::<u8>::empty());
                }
            }
        }
    }
    let column = match offset_encoding {
        OffsetEncoding::Utf8 => #[verifier::truncate] (byte_len(line_text.as_slice()) as u32),
        OffsetEncoding::Utf16 => #[verifier::truncate] (utf16_count(line_text.as_slice()) as u32),
    };
    Position { line, column }
}

/// [`byte_offset_to_position`] with offsets past the end of the text
/// replaced by the end.
pub fn byte_offset_to_position_safe(text: &str, byte_offset: usize, offset_encoding: OffsetEncoding) -> (r:
    Position)
    requires
        is_boundary(text@, clamp_offset(text@, byte_offset as int)),
        count_char(text@.take(boundary_index(text@, clamp_offset(text@, byte_offset as int))), '\n')
            <= u32::MAX,
    ensures
        r == position_of(text@, byte_offset as int, offset_encoding),
{
    let len = str_byte_len(text);
    if byte_offset <= len {
        byte_offset_to_position(text, byte_offset, offset_encoding)
    } else {
        assert(clamp_offset(text@, len as int) == clamp_offset(text@, byte_offset as int));
        byte_offset_to_position(text, len, offset_encoding)
    }
}

/// The character index of byte offset `k`, when `k` is a boundary.
pub(crate) fn char_index_at(chars: &[char], k: usize) -> (r: Option<usize>)
    requires
        utf8_len(chars@) <= usize::MAX,
    ensures
        r matches Some(m) ==> m <= chars@.len() && utf8_len(chars@.take(m as int)) == k,
        r is None ==> !is_boundary(chars@, k as int),
{
    let ghost s = chars@;
    let mut pos: usize = 0;
    let mut i: usize = 0;
    assert(s.take(0) =~= Seq::<char>::empty());
    assert(utf8_len(Seq::<char>::empty()) == 0) by {
        assert(vstd::utf8::encode_utf8(Seq::<char>::empty()) =~= Seq::<u8>::empty());
    }
    while i < chars.len() && pos < k
        invariant
            s == chars@,
            utf8_len(s) <= usize::MAX,
            i <= s.len(),
            pos == utf8_len(s.take(i as int)),
            i > 0 ==> utf8_len(s.take(i - 1)) < k,
        decreases s.len() - i,
    {
        proof {
            lemma_utf8_push(s.take(i as int), s[i as int]);
            assert(s.take(i as int).push(s[i as int]) =~= s.take(i + 1));
            lemma_utf8_subrange(s, 0, i + 1);
            assert(s.subrange(0, i + 1) =~= s.take(i + 1));
            assert(s.take(i + 1 - 1) =~= s.take(i as int));
        }
        pos = pos + char_width(chars[i]);
        i = i + 1;
    }
    if pos == k {
        Some(i)
    } else {
        proof {
            if is_boundary(s, k as int) {
                let m = boundary_index(s, k as int);
                if m < i {
                    if m < i - 1 {
                        lemma_utf8_take_increasing(s, m, i - 1);
                    }
                } else if m > i {
                    lemma_utf8_take_increasing(s, i as int, m);
                }
            }
        }
        None
    }
}

/// One event of a syntax highlighter's output.
pub enum HighlightEvent {
    /// The bytes `start..end` of the source are being highlighted.
    Source { start: usize, end: usize },
    /// A capture, by its index among the capture names, begins.
    HighlightStart(usize),
    /// The innermost open capture ends.
    HighlightEnd,
}

/// What the token builder tracks between highlight events.
pub struct HighlightState {
    /// Names of the open captures, innermost last.
    pub scopes: Seq<Seq<char>>,
    /// Byte offsets at which the open captures began.
    pub starts: Seq<usize>,
    /// Bounds of the current source span.
    pub cur_start: usize,
    pub cur_end: usize,
    /// Tokens emitted so far.
    pub tokens: Seq<crate::token::TokenView>,
}

/// The token that a capture over the bytes `bs..be` of `text` yields, if
/// any: the span is clamped to the text and must be non-empty and fall on
/// character boundaries.
pub open spec fn capture_token(
    text: Seq<char>,
    scope: Seq<char>,
    bs: int,
    be: int,
    enc: OffsetEncoding,
) -> Option<crate::token::TokenView> {
    let ss = clamp_offset(text, bs);
    let se = clamp_offset(text, be);
    if be > bs && se > ss && is_boundary(text, ss) && is_boundary(text, se) {
        Some(
            crate::token::TokenView {
                text: text.subrange(boundary_index(text, ss), boundary_index(text, se)),
                range: Range { start: position_of(text, ss, enc), end: position_of(text, se, enc) },
                scope: scope,
                modifiers: Seq::empty(),
            },
        )
    } else {
        None
    }
}

/// The effect of one highlight event.
pub open spec fn highlight_step(
    st: HighlightState,
    text: Seq<char>,
    names: Seq<Seq<char>>,
    enc: OffsetEncoding,
    ev: HighlightEvent,
) -> HighlightState {
    match ev {
        HighlightEvent::Source { start, end } => HighlightState { cur_start: start, cur_end: end, ..st },
        HighlightEvent::HighlightStart(i) => {
            let name = if i < names.len() {
                names[i as int]
            } else {
                "unknown"@
            };
            HighlightState { scopes: st.scopes.push(name), starts: st.starts.push(st.cur_start), ..st }
        },
        HighlightEvent::HighlightEnd => {
            let scope = if st.scopes.len() > 0 {
                st.scopes.last()
            } else {
                Seq::empty()
            };
            let bs = if st.starts.len() > 0 {
                st.starts.last()
            } else {
                st.cur_start
            };
            HighlightState {
                scopes: if st.scopes.len() > 0 {
                    st.scopes.drop_last()
                } else {
                    st.scopes
                },
                starts: if st.starts.len() > 0 {
                    st.starts.drop_last()
                } else {
                    st.starts
                },
                tokens: match capture_token(text, scope, bs as int, st.cur_end as int, enc) {
                    Some(t) => st.tokens.push(t),
                    None => st.tokens,
                },
                ..st
            }
        },
    }
}

/// The state after a stream of highlight events, from the empty state.
pub open spec fn highlight_run(
    text: Seq<char>,
    names: Seq<Seq<char>>,
    enc: OffsetEncoding,
    evs: Seq<HighlightEvent>,
) -> HighlightState
    decreases evs.len(),
{
    if evs.len() == 0 {
        HighlightState {
            scopes: Seq::empty(),
            starts: Seq::empty(),
            cur_start: 0,
            cur_end: 0,
            tokens: Seq::empty(),
        }
    } else {
        highlight_step(highlight_run(text, names, enc, evs.drop_last()), text, names, enc, evs.last())
    }
}

/// Whether `t` is the text between two character boundaries `ss < se` of
/// `text`, with the positions of those offsets as its range and no
/// modifiers.
pub open spec fn span_token(text: Seq<char>, enc: OffsetEncoding, t: crate::token::TokenView) -> bool {
    exists|ss: int, se: int|
        #![trigger is_boundary(text, ss), is_boundary(text, se)]
        0 <= ss < se <= utf8_len(text) && is_boundary(text, ss) && is_boundary(text, se) && t.text
            == text.subrange(boundary_index(text, ss), boundary_index(text, se)) && t.range.start
            == position_of(text, ss, enc) && t.range.end == position_of(text, se, enc)
            && t.modifiers.len() == 0
}

/// Every token that highlighter events give is the text between two
/// character boundaries, positioned at those offsets.
pub proof fn lemma_highlight_tokens_are_spans(
    text: Seq<char>,
    names: Seq<Seq<char>>,
    enc: OffsetEncoding,
    evs: Seq<HighlightEvent>,
)
    ensures
        forall|i: int|
            0 <= i < highlight_run(text, names, enc, evs).tokens.len() ==> span_token(
                text,
                enc,
                #[trigger] highlight_run(text, names, enc, evs).tokens[i],
            ),
    decreases evs.len(),
{
    if evs.len() > 0 {
        let prev = highlight_run(text, names, enc, evs.drop_last());
        lemma_highlight_tokens_are_spans(text, names, enc, evs.drop_last());
        let cur = highlight_run(text, names, enc, evs);
        match evs.last() {
            HighlightEvent::HighlightEnd => {
                let scope = if prev.scopes.len() > 0 {
                    prev.scopes.last()
                } else {
                    Seq::empty()
                };
                let bs = if prev.starts.len() > 0 {
                    prev.starts.last()
                } else {
                    prev.cur_start
                };
                match capture_token(text, scope, bs as int, prev.cur_end as int, enc) {
                    Some(t) => {
                        let ss = clamp_offset(text, bs as int);
                        let se = clamp_offset(text, prev.cur_end as int);
                        assert(cur.tokens == prev.tokens.push(t));
                        assert(is_boundary(text, ss) && is_boundary(text, se));
                        assert(span_token(text, enc, t));
                        assert forall|i: int| 0 <= i < cur.tokens.len() implies span_token(
                            text,
                            enc,
                            #[trigger] cur.tokens[i],
                        ) by {
                            if i < prev.tokens.len() {
                                assert(cur.tokens[i] == prev.tokens[i]);
                            }
                        }
                    },
                    None => {},
                }
            },
            _ => {},
        }
    }
}

/// The names of the captures still open after the events `evs`, innermost
/// last: each capture start opens the capture of that name (`unknown` for an
/// index past the names), and each capture end closes the innermost open one.
pub open spec fn open_captures(names: Seq<Seq<char>>, evs: Seq<HighlightEvent>) -> Seq<Seq<char>>
    decreases evs.len(),
{
    if evs.len() == 0 {
        Seq::empty()
    } else {
        let prev = open_captures(names, evs.drop_last());
        match evs.last() {
            HighlightEvent::HighlightStart(i) => prev.push(
                if i < names.len() {
                    names[i as int]
                } else {
                    "unknown"@
                },
            ),
            HighlightEvent::HighlightEnd => if prev.len() > 0 {
                prev.drop_last()
            } else {
                prev
            },
            HighlightEvent::Source { .. } => prev,
        }
    }
}

/// The token builder's stack holds exactly the open captures.
proof fn lemma_highlight_scopes(
    text: Seq<char>,
    names: Seq<Seq<char>>,
    enc: OffsetEncoding,
    evs: Seq<HighlightEvent>,
)
    ensures
        highlight_run(text, names, enc, evs).scopes == open_captures(names, evs),
    decreases evs.len(),
{
    if evs.len() > 0 {
        lemma_highlight_scopes(text, names, enc, evs.drop_last());
    }
}

/// Tokens are only ever added, one at a time, and only when a capture ends;
/// the token a capture end adds is scoped by the innermost open capture,
/// the one its matching start opened, so nested captures keep their own
/// names.
pub proof fn lemma_end_token_scope(
    text: Seq<char>,
    names: Seq<Seq<char>>,
    enc: OffsetEncoding,
    evs: Seq<HighlightEvent>,
    ev: HighlightEvent,
)
    ensures
        ({
            let pre = highlight_run(text, names, enc, evs).tokens;
            let post = highlight_run(text, names, enc, evs.push(ev)).tokens;
            let open = open_captures(names, evs);
            &&& post.len() <= pre.len() + 1
            &&& post.take(pre.len() as int) == pre
            &&& !(ev is HighlightEnd) ==> post == pre
            &&& post.len() == pre.len() + 1 ==> post.last().scope == (if open.len() > 0 {
                open.last()
            } else {
                Seq::<char>::empty()
            })
        }),
{
    lemma_highlight_scopes(text, names, enc, evs);
    assert(evs.push(ev).drop_last() =~= evs);
    let pre = highlight_run(text, names, enc, evs).tokens;
    let post = highlight_run(text, names, enc, evs.push(ev)).tokens;
    assert(pre.push(post.last()).take(pre.len() as int) =~= pre);
    assert(pre.take(pre.len() as int) =~= pre);
}

/// The tokens a highlighter's event stream describes: each ended capture
/// over a non-empty span of the text becomes a token scoped by the
/// capture's name.
pub fn tokens_from_highlights(
    text: &str,
    events: &[HighlightEvent],
    capture_names: &[&str],
    offset_encoding: OffsetEncoding,
) -> (r: Vec<TokenInfo>)
    requires
        count_char(text@, '\n') <= u32::MAX,
    ensures
        r.deep_view() == highlight_run(text@, str_views(capture_names@), offset_encoding, events@).tokens,
{
    let chars = chars_of(text);
    let ghost tv = text@;
    let ghost names = str_views(capture_names@);
    let len = str_byte_len(text);
    let mut scopes: Vec<String> = Vec::new();
    let mut starts: Vec<usize> = Vec::new();
    let mut cur_start: usize = 0;
    let mut cur_end: usize = 0;
    let mut tokens: Vec<TokenInfo> = Vec::new();
    let mut i: usize = 0;
    assert(events@.take(0) =~= Seq::<HighlightEvent>::empty());
    while i < events.len()
        invariant
            chars@ == tv,
            tv == text@,
            len == utf8_len(tv),
            count_char(tv, '\n') <= u32::MAX,
            names == str_views(capture_names@),
            i <= events@.len(),
            ({
                let st = highlight_run(tv, names, offset_encoding, events@.take(i as int));
                &&& scopes.deep_view() == st.scopes
                &&& starts@ == st.starts
                &&& cur_start == st.cur_start
                &&& cur_end == st.cur_end
                &&& tokens.deep_view() == st.tokens
            }),
        decreases events.len() - i,
    {
        assert(events@.take(i + 1).drop_last() =~= events@.take(i as int));
        assert(events@.take(i + 1).last() == events@[i as int]);
        match &events[i] {
            HighlightEvent::Source { start, end } => {
                cur_start = *start;
                cur_end = *end;
            },
            HighlightEvent::HighlightStart(c) => {
                let name = if *c < capture_names.len() {
                    capture_names[*c]
                } else {
                    "unknown"
                };
                let ghost prev = scopes.deep_view();
                scopes.push(owned(name));
                assert(scopes.deep_view() =~= prev.push(name@));
                starts.push(cur_start);
            },
            HighlightEvent::HighlightEnd => {
                let ghost prev = scopes.deep_view();
                let scope = match scopes.pop() {
                    Some(sc) => sc,
                    None => String::new(),
                };
                proof {
                    if prev.len() > 0 {
                        assert(scopes.deep_view() =~= prev.drop_last());
                    }
                }
                let bs = match starts.pop() {
                    Some(b) => b,
                    None => cur_start,
                };
                let be = cur_end;
                if be > bs {
                    let ss = if bs < len { bs } else { len };
                    let se = if be < len { be } else { len };
                    if se > ss {
                        let a = char_index_at(chars.as_slice(), ss);
                        let b = char_index_at(chars.as_slice(), se);
                        match (a, b) {
                            (Some(ma), Some(mb)) => {
                                proof {
                                    lemma_boundary_unique(tv, ma as int, ss as int);
                                    lemma_boundary_unique(tv, mb as int, se as int);
                                    if ma > mb {
                                        lemma_utf8_take_increasing(tv, mb as int, ma as int);
                                    }
                                    lemma_count_before(tv, ma as int);
                                    lemma_count_before(tv, mb as int);
                                }
                                let piece = slice_range(chars.as_slice(), ma, mb);
                                let start_pos = byte_offset_to_position_safe(text, ss, offset_encoding);
                                let end_pos = byte_offset_to_position_safe(text, se, offset_encoding);
                                let ghost prevt = tokens.deep_view();
                                let tok = TokenInfo {
                                    text: string_of(piece.as_slice()),
                                    range: Range { start: start_pos, end: end_pos },
                                    scope,
                                    modifiers: Vec::new(),
                                };
                                let ghost tokv = tok@;
                                assert(tok.modifiers.deep_view() =~= Seq::<Seq<char>>::empty());
                                tokens.push(tok);
                                assert(tokens.deep_view() =~= prevt.push(tokv));
                            },
                            _ => {},
                        }
                    }
                }
            },
        }
        i = i + 1;
    }
    assert(events@.take(events@.len() as int) =~= events@);
    tokens
}

/// The newlines before any boundary are among the text's newlines.
proof fn lemma_count_before(s: Seq<char>, m: int)
    requires
        0 <= m <= s.len(),
    ensures
        count_char(s.take(m), '\n') <= count_char(s, '\n'),
{
    assert(s.take(s.len() as int) =~= s);
    lemma_count_prefix(s, m, s.len() as int, '\n');
}

/// The views of a list of string slices.
pub open spec fn str_views(v: Seq<&str>) -> Seq<Seq<char>> {
    v.map_values(|s: &str| s@)
}

/// The scope named by nested highlight captures: the names joined by dots.
pub fn scope_from_highlights(highlight_names: &[&str]) -> (r: String)
    ensures
        r@ == join_s(str_views(highlight_names@), seq!['.']),
{
    let ghost v = str_views(highlight_names@);
    let mut out: Vec<char> = Vec::new();
    let mut i: usize = 0;
    while i < highlight_names.len()
        invariant
            v == str_views(highlight_names@),
            i <= v.len(),
            out@ == join_s(v.take(i as int), seq!['.']),
        decreases highlight_names.len() - i,
    {
        let ghost prev = out@;
        assert(v.take(i + 1).drop_last() =~= v.take(i as int));
        assert(v.take(i + 1).last() == highlight_names@[i as int]@);
        if i > 0 {
            out.push('.');
        }
        let w = chars_of(highlight_names[i]);
        crate::text::append(&mut out, w.as_slice());
        proof {
            if i == 0 {
                assert(out@ =~= v.take(1)[0]);
            } else {
                assert(out@ =~= prev + seq!['.'] + w@);
            }
        }
        i = i + 1;
    }
    assert(v.take(v.len() as int) =~= v);
    string_of(out.as_slice())
}

/// Tokenization for several languages, each found by its identifier.
///
/// Languages are contributed by grammar support compiled into the parser;
/// without any, every request is answered with
/// [`ParseError::UnsupportedLanguage`].
pub struct TokenParser {
    ids: Vec<String>,
    supports: Vec<Box<dyn LanguageSupport>>,
}

impl View for TokenParser {
    type V = Seq<Seq<char>>;

    /// The identifiers of the registered languages.
    closed spec fn view(&self) -> Seq<Seq<char>> {
        self.ids.deep_view()
    }
}

impl TokenParser {
    #[verifier::type_invariant]
    spec fn paired(self) -> bool {
        self.ids@.len() == self.supports@.len()
    }

    /// A parser with the languages whose grammars were compiled in: none in
    /// this build.
    pub fn new() -> (r: Self)
        ensures
            r@.len() == 0,
    {
        let r = TokenParser { ids: Vec::new(), supports: Vec::new() };
        assert(r@ =~= Seq::<Seq<char>>::empty());
        r
    }

    /// The identifiers of the supported languages, in code-point order.
    pub fn supported_languages(&self) -> (r: Vec<String>)
        ensures
            sorted_names(r.deep_view()),
            r.deep_view().to_multiset() == self@.to_multiset(),
    {
        let all = chars_of_all(&self.ids);
        let sorted = sort_names(&all);
        strings_of(&sorted)
    }

    /// The tokens of `text` in the language `language_id`; an unknown
    /// language is an error naming it.
    pub fn parse_tokens(&self, text: &str, language_id: &str, offset_encoding: OffsetEncoding) -> (r:
        Result<Vec<TokenInfo>, ParseError>)
        ensures
            !self@.contains(language_id@) ==> (r matches Err(ParseError::UnsupportedLanguage(l))
                && l@ == language_id@),
    {
        proof {
            use_type_invariant(self);
        }
        let mut i: usize = 0;
        while i < self.ids.len()
            invariant
                i <= self@.len(),
                self@.len() == self.ids@.len(),
                self.ids@.len() == self.supports@.len(),
                forall|j: int| 0 <= j < i ==> self@[j] != language_id@,
            decreases self.ids.len() - i,
        {
            if str_eq(self.ids[i].as_str(), language_id) {
                assert(self@[i as int] == language_id@);
                return self.supports[i].parse(text, offset_encoding);
            }
            i = i + 1;
        }
        assert(!self@.contains(language_id@)) by {
            if self@.contains(language_id@) {
                let k = self@.index_of(language_id@);
                assert(self@[k] == language_id@);
            }
        }
        Err(ParseError::UnsupportedLanguage(owned(language_id)))
    }
}

} // verus!
