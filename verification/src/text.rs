//! Character-sequence helpers used throughout the crate.
//!
//! Text is handled as sequences of Unicode scalar values (`char`), which is
//! what the view of `str` and `String` is.  The helpers below give the
//! splitting, trimming and searching operations of `str` a precise meaning
//! over those sequences.
use vstd::prelude::*;

verus! {

broadcast use {vstd::seq_lib::group_seq_properties, crate::lemma_chars_deep_view};

/// `char::is_whitespace`: the Unicode `White_Space` property.
pub open spec fn is_ws(c: char) -> bool {
    c == '\t' || c == '\n' || c == '\x0B' || c == '\x0C' || c == '\r' || c == ' ' || c
        == '\u{85}' || c == '\u{A0}' || c == '\u{1680}' || ('\u{2000}' <= c && c <= '\u{200A}')
        || c == '\u{2028}' || c == '\u{2029}' || c == '\u{202F}' || c == '\u{205F}' || c
        == '\u{3000}'
}

/// Whether `c` is a Unicode whitespace character.
pub fn is_whitespace(c: char) -> (r: bool)
    ensures
        r == is_ws(c),
{
    c == '\t' || c == '\n' || c == '\x0B' || c == '\x0C' || c == '\r' || c == ' ' || c
        == '\u{85}' || c == '\u{A0}' || c == '\u{1680}' || ('\u{2000}' <= c && c <= '\u{200A}')
        || c == '\u{2028}' || c == '\u{2029}' || c == '\u{202F}' || c == '\u{205F}' || c
        == '\u{3000}'
}

/// The sequence with leading whitespace removed (`str::trim_start`).
pub open spec fn trim_start_s(s: Seq<char>) -> Seq<char>
    decreases s.len(),
{
    if s.len() > 0 && is_ws(s[0]) {
        trim_start_s(s.drop_first())
    } else {
        s
    }
}

/// The sequence with trailing whitespace removed (`str::trim_end`).
pub open spec fn trim_end_s(s: Seq<char>) -> Seq<char>
    decreases s.len(),
{
    if s.len() > 0 && is_ws(s.last()) {
        trim_end_s(s.drop_last())
    } else {
        s
    }
}

/// The sequence with leading and trailing whitespace removed (`str::trim`).
pub open spec fn trim_s(s: Seq<char>) -> Seq<char> {
    trim_end_s(trim_start_s(s))
}

/// Pieces of `s` between the characters satisfying `sep`, in order, empty
/// pieces included (`str::split` with a character predicate).  There is always
/// at least one piece.
pub open spec fn split_by(s: Seq<char>, sep: spec_fn(char) -> bool) -> Seq<Seq<char>>
    decreases s.len(),
{
    if s.len() == 0 {
        seq![Seq::<char>::empty()]
    } else {
        let prev = split_by(s.drop_last(), sep);
        if sep(s.last()) {
            prev.push(Seq::<char>::empty())
        } else {
            prev.update(prev.len() - 1, prev.last().push(s.last()))
        }
    }
}

/// The predicate "is the character `sep`".
pub open spec fn is_char(sep: char) -> spec_fn(char) -> bool {
    |c: char| c == sep
}

/// The predicate "is whitespace".
pub open spec fn ws_pred() -> spec_fn(char) -> bool {
    |c: char| is_ws(c)
}

/// The predicate "is not empty".
pub open spec fn nonempty() -> spec_fn(Seq<char>) -> bool {
    |w: Seq<char>| w.len() > 0
}

/// `str::split` with a single separator character.
pub open spec fn split_s(s: Seq<char>, sep: char) -> Seq<Seq<char>> {
    split_by(s, is_char(sep))
}

/// `str::split_whitespace`: the non-empty pieces between whitespace.
pub open spec fn words_s(s: Seq<char>) -> Seq<Seq<char>> {
    split_by(s, ws_pred()).filter(nonempty())
}

/// The pieces joined with `sep` between them (`[String]::join`).
pub open spec fn join_s(parts: Seq<Seq<char>>, sep: Seq<char>) -> Seq<char>
    decreases parts.len(),
{
    if parts.len() == 0 {
        Seq::<char>::empty()
    } else if parts.len() == 1 {
        parts[0]
    } else {
        join_s(parts.drop_last(), sep) + sep + parts.last()
    }
}

/// Whether `p` is a prefix of `s`.
pub open spec fn starts_with_s(s: Seq<char>, p: Seq<char>) -> bool {
    p.len() <= s.len() && s.take(p.len() as int) == p
}

/// Whether `p` is a suffix of `s`.
pub open spec fn ends_with_s(s: Seq<char>, p: Seq<char>) -> bool {
    p.len() <= s.len() && s.skip(s.len() - p.len()) == p
}

/// Whether `p` occurs in `s` at position `i`.
pub open spec fn occurs_at(s: Seq<char>, p: Seq<char>, i: int) -> bool {
    0 <= i && i + p.len() <= s.len() && s.subrange(i, i + p.len()) == p
}

/// Whether `p` occurs anywhere in `s` (`str::contains`).
pub open spec fn contains_s(s: Seq<char>, p: Seq<char>) -> bool {
    exists|i: int| occurs_at(s, p, i)
}

/// The position of the first occurrence of `p` in `s` (`str::find`).
#[verifier::opaque]
pub open spec fn find_s(s: Seq<char>, p: Seq<char>) -> Option<int> {
    if contains_s(s, p) {
        Some(choose|i: int| occurs_at(s, p, i) && forall|j: int| 0 <= j < i ==> !occurs_at(s, p, j))
    } else {
        None
    }
}

/// An occurrence of `p` in `s` has a first occurrence at or before it.
proof fn lemma_first_occurrence(s: Seq<char>, p: Seq<char>, k: int)
    requires
        occurs_at(s, p, k),
    ensures
        exists|i: int| occurs_at(s, p, i) && forall|j: int| 0 <= j < i ==> !occurs_at(s, p, j),
    decreases k,
{
    if exists|j: int| 0 <= j < k && occurs_at(s, p, j) {
        let j = choose|j: int| 0 <= j < k && occurs_at(s, p, j);
        lemma_first_occurrence(s, p, j);
    } else {
        assert(occurs_at(s, p, k) && forall|j: int| 0 <= j < k ==> !occurs_at(s, p, j));
    }
}

/// What [`find_s`] finds is the first occurrence.
pub proof fn lemma_find_some(s: Seq<char>, p: Seq<char>)
    ensures
        find_s(s, p) matches Some(i) ==> occurs_at(s, p, i) && forall|j: int|
            0 <= j < i ==> !occurs_at(s, p, j),
{
    reveal(find_s);
    if contains_s(s, p) {
        let k = choose|k: int| occurs_at(s, p, k);
        lemma_first_occurrence(s, p, k);
    }
}

/// The number of occurrences of `c` in `s`.
pub open spec fn count_char(s: Seq<char>, c: char) -> nat
    decreases s.len(),
{
    if s.len() == 0 {
        0
    } else {
        count_char(s.drop_last(), c) + if s.last() == c {
            1nat
        } else {
            0nat
        }
    }
}

/// Number of bytes of `c` in UTF-8.
pub open spec fn utf8_width(c: char) -> nat {
    if (c as u32) < 0x80 {
        1
    } else if (c as u32) < 0x800 {
        2
    } else if (c as u32) < 0x10000 {
        3
    } else {
        4
    }
}

/// Number of bytes of `s` in UTF-8 (`str::len`).
pub open spec fn utf8_len(s: Seq<char>) -> nat {
    vstd::utf8::encode_utf8(s).len()
}

proof fn lemma_scalar_width(c: char)
    ensures
        vstd::utf8::encode_scalar(c as u32).len() == utf8_width(c),
{
    vstd::utf8::char_is_scalar(c);
}

/// UTF-8 encoding distributes over concatenation.
pub proof fn lemma_utf8_concat(a: Seq<char>, b: Seq<char>)
    ensures
        vstd::utf8::encode_utf8(a + b) == vstd::utf8::encode_utf8(a) + vstd::utf8::encode_utf8(b),
        utf8_len(a + b) == utf8_len(a) + utf8_len(b),
    decreases a.len(),
{
    if a.len() == 0 {
        assert(a + b =~= b);
        assert(vstd::utf8::encode_utf8(a) =~= Seq::<u8>::empty());
        assert(vstd::utf8::encode_utf8(a) + vstd::utf8::encode_utf8(b) =~= vstd::utf8::encode_utf8(b));
    } else {
        lemma_utf8_concat(a.drop_first(), b);
        assert((a + b).drop_first() =~= a.drop_first() + b);
        assert((a + b)[0] == a[0]);
        let e = vstd::utf8::encode_scalar(a[0] as u32);
        assert(vstd::utf8::encode_utf8(a + b) =~= e + (vstd::utf8::encode_utf8(a.drop_first())
            + vstd::utf8::encode_utf8(b)));
    }
}

/// Appending a character adds its width to the UTF-8 length.
pub proof fn lemma_utf8_push(s: Seq<char>, c: char)
    ensures
        utf8_len(s.push(c)) == utf8_len(s) + utf8_width(c),
{
    lemma_utf8_concat(s, seq![c]);
    assert(s + seq![c] =~= s.push(c));
    lemma_scalar_width(c);
    assert(seq![c].drop_first() =~= Seq::<char>::empty());
    assert(vstd::utf8::encode_utf8(Seq::<char>::empty()) =~= Seq::<u8>::empty());
    assert(seq![c][0] == c);
    assert(vstd::utf8::encode_utf8(seq![c]) =~= vstd::utf8::encode_scalar(c as u32));
}

/// A piece of a sequence is no longer in UTF-8 than the whole.
pub proof fn lemma_utf8_subrange(s: Seq<char>, a: int, b: int)
    requires
        0 <= a <= b <= s.len(),
    ensures
        utf8_len(s.subrange(a, b)) <= utf8_len(s),
{
    lemma_utf8_concat(s.take(a), s.subrange(a, b));
    lemma_utf8_concat(s.take(a) + s.subrange(a, b), s.skip(b));
    assert(s.take(a) + s.subrange(a, b) + s.skip(b) =~= s);
}

/// The UTF-8 length of a string is its byte length, which fits in `usize`.
pub fn str_byte_len(s: &str) -> (n: usize)
    ensures
        n == utf8_len(s@),
{
    let b = s.as_bytes();
    b.len()
}

/// Number of bytes of `c` in UTF-8.
pub fn char_width(c: char) -> (w: usize)
    ensures
        w == utf8_width(c),
{
    let u = c as u32;
    if u < 0x80 {
        1
    } else if u < 0x800 {
        2
    } else if u < 0x10000 {
        3
    } else {
        4
    }
}

/// Number of bytes of `s` in UTF-8.
pub fn byte_len(s: &[char]) -> (n: usize)
    requires
        utf8_len(s@) <= usize::MAX,
    ensures
        n == utf8_len(s@),
{
    let mut n: usize = 0;
    let mut i: usize = 0;
    assert(s@.take(0) =~= Seq::<char>::empty());
    assert(vstd::utf8::encode_utf8(Seq::<char>::empty()) =~= Seq::<u8>::empty());
    while i < s.len()
        invariant
            i <= s@.len(),
            n == utf8_len(s@.take(i as int)),
            utf8_len(s@) <= usize::MAX,
        decreases s.len() - i,
    {
        proof {
            assert(s@.take(i + 1) =~= s@.take(i as int).push(s@[i as int]));
            lemma_utf8_push(s@.take(i as int), s@[i as int]);
            lemma_utf8_subrange(s@, 0, i + 1);
            assert(s@.subrange(0, i + 1) =~= s@.take(i + 1));
        }
        n = n + char_width(s[i]);
        i = i + 1;
    }
    assert(s@.take(s@.len() as int) =~= s@);
    n
}

/// Number of UTF-16 code units of `s` (`str::encode_utf16().count()`).
pub open spec fn utf16_len(s: Seq<char>) -> nat
    decreases s.len(),
{
    if s.len() == 0 {
        0
    } else {
        utf16_len(s.drop_last()) + if (s.last() as u32) < 0x10000 {
            1nat
        } else {
            2nat
        }
    }
}

/// The UTF-16 length of two texts put together is the sum of theirs.
pub proof fn lemma_utf16_concat(a: Seq<char>, b: Seq<char>)
    ensures
        utf16_len(a + b) == utf16_len(a) + utf16_len(b),
    decreases b.len(),
{
    if b.len() == 0 {
        assert(a + b =~= a);
    } else {
        lemma_utf16_concat(a, b.drop_last());
        assert((a + b).drop_last() =~= a + b.drop_last());
    }
}

/// ASCII case folding of one character.
pub open spec fn ascii_lower(c: char) -> char {
    if 'A' <= c && c <= 'Z' {
        ((c as u32) + 32) as char
    } else {
        c
    }
}

/// `str::eq_ignore_ascii_case`.
pub open spec fn eq_ignore_ascii_case_s(a: Seq<char>, b: Seq<char>) -> bool {
    a.len() == b.len() && forall|i: int| 0 <= i < a.len() ==> ascii_lower(a[i]) == ascii_lower(b[i])
}

/// A line without the carriage return of a `\r\n` ending.
pub open spec fn strip_cr(l: Seq<char>) -> Seq<char> {
    if l.len() > 0 && l.last() == '\r' {
        l.drop_last()
    } else {
        l
    }
}

/// The function [`strip_cr`].
pub open spec fn strip_cr_fn() -> spec_fn(Seq<char>) -> Seq<char> {
    |l: Seq<char>| strip_cr(l)
}

/// `str::lines`: the pieces between `\n` characters, each stripped of a
/// carriage return before its `\n`; a final empty piece (after a trailing
/// line ending, or of an empty string) is not a line.
pub open spec fn lines_s(s: Seq<char>) -> Seq<Seq<char>> {
    let p = split_s(s, '\n');
    let body = p.drop_last().map_values(strip_cr_fn());
    if p.last().len() == 0 {
        body
    } else {
        body.push(p.last())
    }
}

/// The lines of `s` (`str::lines`).
pub fn lines(s: &[char]) -> (r: Vec<Vec<char>>)
    ensures
        r.deep_view() == lines_s(s@),
{
    let parts = split(s, '\n');
    let ghost pv = parts.deep_view();
    proof {
        lemma_split_nonempty(s@, '\n');
    }
    let mut out: Vec<Vec<char>> = Vec::new();
    let n = parts.len();
    assert(pv.len() == n);
    let mut i: usize = 0;
    while i + 1 < n
        invariant
            n == parts@.len(),
            n >= 1,
            i < n,
            pv == parts.deep_view(),
            pv.len() == n,
            out@.len() == i,
            out.deep_view() == pv.drop_last().take(i as int).map_values(strip_cr_fn()),
        decreases n - i,
    {
        let p = &parts[i];
        let mut l = copy_chars(p);
        if l.len() > 0 && l[l.len() - 1] == '\r' {
            l.pop();
        }
        let ghost prev = out.deep_view();
        let ghost lv = l@;
        assert(lv == strip_cr(pv[i as int]));
        out.push(l);
        proof {
            let target = pv.drop_last().take(i + 1).map_values(strip_cr_fn());
            let now = out.deep_view();
            assert(now.len() == target.len());
            assert forall|j: int| 0 <= j < target.len() implies now[j] == target[j] by {
                if j < i {
                    assert(now[j] == out@[j].deep_view());
                    assert(prev[j] == pv.drop_last().take(i as int).map_values(strip_cr_fn())[j]);
                } else {
                    assert(now[j] == lv);
                }
            }
            assert(now =~= target);
        }
        i = i + 1;
    }
    assert(pv.drop_last().take(i as int) =~= pv.drop_last());
    if parts[n - 1].len() > 0 {
        let ghost prev = out.deep_view();
        let last = copy_chars(&parts[n - 1]);
        let ghost lv = last@;
        out.push(last);
        assert(out.deep_view() =~= prev.push(lv));
    }
    out
}

/// Joining the pieces of `s` split at `sep` with `sep` gives `s` back, so
/// different texts split into different pieces.
pub proof fn lemma_join_split(s: Seq<char>, sep: char)
    ensures
        join_s(split_s(s, sep), seq![sep]) == s,
    decreases s.len(),
{
    lemma_split_nonempty(s, sep);
    if s.len() == 0 {
        assert(split_s(s, sep) =~= seq![Seq::<char>::empty()]);
    } else {
        let d = s.drop_last();
        let c = s.last();
        lemma_join_split(d, sep);
        lemma_split_nonempty(d, sep);
        let prev = split_s(d, sep);
        let res = split_s(s, sep);
        assert(d.push(c) =~= s);
        if c == sep {
            assert(res == prev.push(Seq::<char>::empty()));
            assert(res.drop_last() =~= prev);
            assert(join_s(res, seq![sep]) =~= s);
        } else {
            assert(res == prev.update(prev.len() - 1, prev.last().push(c)));
            if prev.len() == 1 {
                assert(join_s(res, seq![sep]) =~= s);
            } else {
                assert(res.drop_last() =~= prev.drop_last());
                assert(join_s(res, seq![sep]) =~= s);
            }
        }
    }
}

/// Texts that split into the same pieces are equal.
pub proof fn lemma_split_injective(a: Seq<char>, b: Seq<char>, sep: char)
    requires
        split_s(a, sep) == split_s(b, sep),
    ensures
        a == b,
{
    lemma_join_split(a, sep);
    lemma_join_split(b, sep);
}

/// `str::split` always yields at least one piece, and no piece is longer in
/// UTF-8 than the whole.
pub proof fn lemma_split_nonempty(s: Seq<char>, sep: char)
    ensures
        split_s(s, sep).len() >= 1,
        forall|i: int| 0 <= i < split_s(s, sep).len() ==> utf8_len(#[trigger] split_s(s, sep)[i]) <= utf8_len(s),
    decreases s.len(),
{
    if s.len() > 0 {
        lemma_split_nonempty(s.drop_last(), sep);
        lemma_utf8_push(s.drop_last(), s.last());
        assert(s.drop_last().push(s.last()) =~= s);
        let prev = split_s(s.drop_last(), sep);
        if s.last() != sep {
            lemma_utf8_push(prev.last(), s.last());
        }
        assert forall|i: int| 0 <= i < split_s(s, sep).len() implies utf8_len(
            #[trigger] split_s(s, sep)[i],
        ) <= utf8_len(s) by {
            if i < prev.len() - 1 {
                assert(split_s(s, sep)[i] == prev[i]);
            }
        }
    } else {
        assert(utf8_len(Seq::<char>::empty()) == 0) by {
            assert(vstd::utf8::encode_utf8(Seq::<char>::empty()) =~= Seq::<u8>::empty());
        }
    }
}

/// The characters of `s`, in order.
pub fn chars_of(s: &str) -> (v: Vec<char>)
    ensures
        v@ == s@,
{
    let mut v: Vec<char> = Vec::new();
    for c in it: s.chars()
        invariant
            v@ == it.seq().take(it.index() as int),
    {
        v.push(c);
    }
    v
}

/// `String::push`: appends the character `c` to `s`; the contract claims
/// that afterwards `s` holds its former characters followed by `c`.
#[verifier::external_body]
fn push_char(s: &mut String, c: char)
    ensures
        final(s)@ == old(s)@.push(c),
{
    s.push(c);
}

/// A `String` holding exactly the characters of `v`.
pub fn string_of(v: &[char]) -> (s: String)
    ensures
        s@ == v@,
{
    let mut s = String::new();
    let mut i: usize = 0;
    while i < v.len()
        invariant
            i <= v.len(),
            s@ == v@.take(i as int),
        decreases v.len() - i,
    {
        push_char(&mut s, v[i]);
        i = i + 1;
    }
    s
}

/// A `String` holding the characters of `s`.
pub fn owned(s: &str) -> (r: String)
    ensures
        r@ == s@,
{
    s.to_owned()
}

/// The string `a` followed by the string `b`.
pub fn concat(a: &str, b: &str) -> (r: String)
    ensures
        r@ == a@ + b@,
{
    let mut v = chars_of(a);
    let w = chars_of(b);
    append(&mut v, w.as_slice());
    string_of(v.as_slice())
}

/// Characters `lo..hi` of `v`.
pub fn slice_range(v: &[char], lo: usize, hi: usize) -> (r: Vec<char>)
    requires
        lo <= hi <= v@.len(),
    ensures
        r@ == v@.subrange(lo as int, hi as int),
{
    let mut r: Vec<char> = Vec::new();
    let mut i = lo;
    while i < hi
        invariant
            lo <= i <= hi <= v@.len(),
            r@ == v@.subrange(lo as int, i as int),
        decreases hi - i,
    {
        r.push(v[i]);
        i = i + 1;
    }
    r
}

/// Whether two character sequences are equal.
pub fn chars_eq(a: &[char], b: &[char]) -> (r: bool)
    ensures
        r == (a@ == b@),
{
    if a.len() != b.len() {
        return false;
    }
    let mut i: usize = 0;
    while i < a.len()
        invariant
            a@.len() == b@.len(),
            i <= a@.len(),
            forall|j: int| 0 <= j < i ==> a@[j] == b@[j],
        decreases a.len() - i,
    {
        if a[i] != b[i] {
            return false;
        }
        i = i + 1;
    }
    assert(a@ =~= b@);
    true
}

/// Whether two strings hold the same characters.
pub fn str_eq(a: &str, b: &str) -> (r: bool)
    ensures
        r == (a@ == b@),
{
    let x = chars_of(a);
    let y = chars_of(b);
    chars_eq(x.as_slice(), y.as_slice())
}

/// Whether `p` is a prefix of `s`.
pub fn starts_with(s: &[char], p: &[char]) -> (r: bool)
    ensures
        r == starts_with_s(s@, p@),
{
    if p.len() > s.len() {
        return false;
    }
    let mut i: usize = 0;
    while i < p.len()
        invariant
            p@.len() <= s@.len(),
            i <= p@.len(),
            forall|j: int| 0 <= j < i ==> s@[j] == p@[j],
        decreases p.len() - i,
    {
        if s[i] != p[i] {
            assert(s@.take(p@.len() as int)[i as int] != p@[i as int]);
            return false;
        }
        i = i + 1;
    }
    assert(s@.take(p@.len() as int) =~= p@);
    true
}

/// Whether `p` is a suffix of `s`.
pub fn ends_with(s: &[char], p: &[char]) -> (r: bool)
    ensures
        r == ends_with_s(s@, p@),
{
    if p.len() > s.len() {
        return false;
    }
    let off = s.len() - p.len();
    let mut i: usize = 0;
    while i < p.len()
        invariant
            p@.len() <= s@.len(),
            s@.len() == s.len(),
            off == s@.len() - p@.len(),
            i <= p@.len(),
            forall|j: int| 0 <= j < i ==> s@[off + j] == p@[j],
        decreases p.len() - i,
    {
        if s[off + i] != p[i] {
            assert(s@.skip(off as int)[i as int] != p@[i as int]);
            return false;
        }
        i = i + 1;
    }
    assert(s@.skip(off as int) =~= p@);
    true
}

/// Whether `p` occurs in `s` at position `i`.
pub fn matches_at(s: &[char], p: &[char], i: usize) -> (r: bool)
    ensures
        r == occurs_at(s@, p@, i as int),
{
    if i > s.len() || p.len() > s.len() - i {
        return false;
    }
    let mut j: usize = 0;
    while j < p.len()
        invariant
            i + p@.len() <= s@.len(),
            s@.len() == s.len(),
            j <= p@.len(),
            forall|k: int| 0 <= k < j ==> s@[i + k] == p@[k],
        decreases p.len() - j,
    {
        if s[i + j] != p[j] {
            assert(s@.subrange(i as int, i + p@.len())[j as int] != p@[j as int]);
            return false;
        }
        j = j + 1;
    }
    assert(s@.subrange(i as int, i + p@.len()) =~= p@);
    true
}

/// Position of the first occurrence of `p` in `s`, searching from `from`.
pub fn find_from(s: &[char], p: &[char], from: usize) -> (r: Option<usize>)
    ensures
        match r {
            Some(i) => from <= i && occurs_at(s@, p@, i as int) && forall|j: int|
                from <= j < i ==> !occurs_at(s@, p@, j),
            None => forall|j: int| from <= j ==> !occurs_at(s@, p@, j),
        },
{
    let mut i = from;
    while i < s.len()
        invariant
            from <= i,
            forall|j: int| from <= j < i ==> !occurs_at(s@, p@, j),
        decreases s.len() - i,
    {
        if matches_at(s, p, i) {
            return Some(i);
        }
        i = i + 1;
    }
    if matches_at(s, p, i) {
        return Some(i);
    }
    assert forall|j: int| from <= j implies !occurs_at(s@, p@, j) by {
        if j > i as int {
            assert(j > s@.len());
        }
    }
    None
}

/// Position of the first occurrence of `p` in `s` (`str::find`).
pub fn find(s: &[char], p: &[char]) -> (r: Option<usize>)
    ensures
        r matches Some(i) ==> find_s(s@, p@) == Some(i as int) && occurs_at(s@, p@, i as int),
        r is None ==> find_s(s@, p@) is None,
{
    reveal(find_s);
    let r = find_from(s, p, 0);
    match r {
        Some(i) => {
            assert(contains_s(s@, p@));
            let ghost w = choose|k: int|
                occurs_at(s@, p@, k) && forall|j: int| 0 <= j < k ==> !occurs_at(s@, p@, j);
            assert(occurs_at(s@, p@, w) && forall|j: int| 0 <= j < w ==> !occurs_at(s@, p@, j));
            proof {
                if w < i as int {
                } else if w > i as int {
                    assert(!occurs_at(s@, p@, i as int));
                }
            }
        },
        None => {
            assert(!contains_s(s@, p@)) by {
                if contains_s(s@, p@) {
                    let k = choose|k: int| occurs_at(s@, p@, k);
                    assert(0 <= k);
                }
            }
        },
    }
    r
}

/// Whether `p` occurs anywhere in `s` (`str::contains`).
pub fn contains(s: &[char], p: &[char]) -> (r: bool)
    ensures
        r == contains_s(s@, p@),
{
    match find_from(s, p, 0) {
        Some(i) => true,
        None => {
            assert(!contains_s(s@, p@)) by {
                if contains_s(s@, p@) {
                    let k = choose|k: int| occurs_at(s@, p@, k);
                    assert(0 <= k);
                }
            }
            false
        },
    }
}

/// Trimming the start leaves a suffix.
pub proof fn lemma_trim_start_suffix(s: Seq<char>)
    ensures
        trim_start_s(s).len() <= s.len(),
        trim_start_s(s) == s.skip(s.len() - trim_start_s(s).len()),
    decreases s.len(),
{
    if s.len() > 0 && is_ws(s[0]) {
        let t = s.drop_first();
        lemma_trim_start_suffix(t);
        assert(t.skip(t.len() - trim_start_s(t).len()) =~= s.skip(s.len() - trim_start_s(t).len()));
    } else {
        assert(s.skip(0) =~= s);
    }
}

/// Trimming the end leaves a prefix.
pub proof fn lemma_trim_end_prefix(s: Seq<char>)
    ensures
        trim_end_s(s).len() <= s.len(),
        trim_end_s(s) == s.take(trim_end_s(s).len() as int),
    decreases s.len(),
{
    if s.len() > 0 && is_ws(s.last()) {
        let t = s.drop_last();
        lemma_trim_end_prefix(t);
        assert(t.take(trim_end_s(t).len() as int) =~= s.take(trim_end_s(t).len() as int));
    } else {
        assert(s.take(s.len() as int) =~= s);
    }
}

proof fn lemma_trim_start_skip(s: Seq<char>, k: int)
    requires
        0 <= k <= s.len(),
        forall|i: int| 0 <= i < k ==> is_ws(#[trigger] s[i]),
        k == s.len() || !is_ws(s[k]),
    ensures
        trim_start_s(s) == s.skip(k),
    decreases k,
{
    if k == 0 {
        assert(s.skip(0) =~= s);
    } else {
        assert(is_ws(s[0]));
        let t = s.drop_first();
        assert forall|i: int| 0 <= i < k - 1 implies is_ws(#[trigger] t[i]) by {
            assert(t[i] == s[i + 1]);
        }
        lemma_trim_start_skip(t, k - 1);
        assert(t.skip(k - 1) =~= s.skip(k));
    }
}

proof fn lemma_trim_end_take(s: Seq<char>, k: int)
    requires
        0 <= k <= s.len(),
        forall|i: int| k <= i < s.len() ==> is_ws(#[trigger] s[i]),
        k == 0 || !is_ws(s[k - 1]),
    ensures
        trim_end_s(s) == s.take(k),
    decreases s.len() - k,
{
    if k == s.len() {
        assert(s.take(k) =~= s);
    } else {
        assert(is_ws(s.last()));
        let t = s.drop_last();
        assert forall|i: int| k <= i < t.len() implies is_ws(#[trigger] t[i]) by {
            assert(t[i] == s[i]);
        }
        lemma_trim_end_take(t, k);
        assert(t.take(k) =~= s.take(k));
    }
}

proof fn lemma_trim_end_range(s: Seq<char>, a: int, b: int)
    requires
        0 <= a <= b <= s.len(),
        forall|i: int| b <= i < s.len() ==> is_ws(#[trigger] s[i]),
        b == a || !is_ws(s[b - 1]),
    ensures
        trim_end_s(s.skip(a)) == s.subrange(a, b),
{
    let t = s.skip(a);
    assert forall|i: int| b - a <= i < t.len() implies is_ws(#[trigger] t[i]) by {
        assert(t[i] == s[a + i]);
    }
    if b > a {
        assert(t[b - a - 1] == s[b - 1]);
    }
    lemma_trim_end_take(t, b - a);
    assert(t.take(b - a) =~= s.subrange(a, b));
}

/// Index of the first non-whitespace character of `s` (or its length).
pub fn leading_ws(s: &[char]) -> (k: usize)
    ensures
        k <= s@.len(),
        k == s@.len() || !is_ws(s@[k as int]),
        trim_start_s(s@) == s@.skip(k as int),
{
    let mut k: usize = 0;
    while k < s.len() && is_whitespace(s[k])
        invariant
            k <= s@.len(),
            forall|i: int| 0 <= i < k ==> is_ws(#[trigger] s@[i]),
        decreases s.len() - k,
    {
        k = k + 1;
    }
    proof {
        lemma_trim_start_skip(s@, k as int);
    }
    k
}

/// The characters of `s` with leading and trailing whitespace removed.
pub fn trim(s: &[char]) -> (r: Vec<char>)
    ensures
        r@ == trim_s(s@),
{
    let a = leading_ws(s);
    let mut b = s.len();
    while b > a && is_whitespace(s[b - 1])
        invariant
            a <= b <= s@.len(),
            a == s@.len() || !is_ws(s@[a as int]),
            forall|i: int| b <= i < s@.len() ==> is_ws(#[trigger] s@[i]),
        decreases b,
    {
        b = b - 1;
    }
    proof {
        lemma_trim_end_range(s@, a as int, b as int);
        assert(trim_s(s@) == trim_end_s(trim_start_s(s@)));
    }
    slice_range(s, a, b)
}

/// The characters of `s` with leading whitespace removed.
pub fn trim_start(s: &[char]) -> (r: Vec<char>)
    ensures
        r@ == trim_start_s(s@),
{
    let a = leading_ws(s);
    assert(s@.skip(a as int) =~= s@.subrange(a as int, s@.len() as int));
    slice_range(s, a, s.len())
}

/// The characters of a string with leading and trailing whitespace removed.
pub fn trim_str(s: &str) -> (r: Vec<char>)
    ensures
        r@ == trim_s(s@),
{
    let v = chars_of(s);
    trim(v.as_slice())
}

/// Pieces of `s` between occurrences of `sep` (`str::split`).
pub fn split(s: &[char], sep: char) -> (r: Vec<Vec<char>>)
    ensures
        r.deep_view() == split_s(s@, sep),
{
    let ghost f = is_char(sep);
    let mut out: Vec<Vec<char>> = Vec::new();
    let mut cur: Vec<char> = Vec::new();
    let mut i: usize = 0;
    assert(s@.take(0) =~= Seq::<char>::empty());
    assert(out.deep_view().push(cur@) =~= seq![Seq::<char>::empty()]);
    while i < s.len()
        invariant
            i <= s@.len(),
            f == is_char(sep),
            split_by(s@.take(i as int), f) == out.deep_view().push(cur@),
        decreases s.len() - i,
    {
        let c = s[i];
        let ghost prev = out.deep_view();
        let ghost old_cur = cur@;
        assert(s@.take(i + 1).drop_last() =~= s@.take(i as int));
        if c == sep {
            out.push(cur);
            cur = Vec::new();
            assert(out.deep_view() =~= prev.push(old_cur));
            assert(split_by(s@.take(i + 1), f) =~= out.deep_view().push(cur@));
        } else {
            cur.push(c);
            assert(split_by(s@.take(i + 1), f) =~= out.deep_view().push(cur@));
        }
        i = i + 1;
    }
    assert(s@.take(s@.len() as int) =~= s@);
    let ghost prev = out.deep_view();
    let ghost last = cur@;
    out.push(cur);
    assert(out.deep_view() =~= prev.push(last));
    out
}

/// Pieces of `s` between whitespace characters, empty pieces included.
fn split_at_ws(s: &[char]) -> (r: Vec<Vec<char>>)
    ensures
        r.deep_view() == split_by(s@, ws_pred()),
{
    let ghost f = ws_pred();
    let mut out: Vec<Vec<char>> = Vec::new();
    let mut cur: Vec<char> = Vec::new();
    let mut i: usize = 0;
    assert(s@.take(0) =~= Seq::<char>::empty());
    assert(out.deep_view().push(cur@) =~= seq![Seq::<char>::empty()]);
    while i < s.len()
        invariant
            i <= s@.len(),
            f == ws_pred(),
            split_by(s@.take(i as int), f) == out.deep_view().push(cur@),
        decreases s.len() - i,
    {
        let c = s[i];
        let ghost prev = out.deep_view();
        let ghost old_cur = cur@;
        assert(s@.take(i + 1).drop_last() =~= s@.take(i as int));
        if is_whitespace(c) {
            out.push(cur);
            cur = Vec::new();
            assert(out.deep_view() =~= prev.push(old_cur));
            assert(split_by(s@.take(i + 1), f) =~= out.deep_view().push(cur@));
        } else {
            cur.push(c);
            assert(split_by(s@.take(i + 1), f) =~= out.deep_view().push(cur@));
        }
        i = i + 1;
    }
    assert(s@.take(s@.len() as int) =~= s@);
    let ghost prev = out.deep_view();
    let ghost last = cur@;
    out.push(cur);
    assert(out.deep_view() =~= prev.push(last));
    out
}

/// The non-empty pieces of `s` between whitespace (`str::split_whitespace`).
pub fn words(s: &[char]) -> (r: Vec<Vec<char>>)
    ensures
        r.deep_view() == words_s(s@),
{
    let parts = split_at_ws(s);
    let ghost pv = parts.deep_view();
    let ghost keep = nonempty();
    let mut out: Vec<Vec<char>> = Vec::new();
    let mut i: usize = 0;
    assert(pv.take(0) =~= Seq::<Seq<char>>::empty());
    assert(pv.take(0).filter(keep) =~= Seq::<Seq<char>>::empty()) by {
        reveal(Seq::filter);
    }
    while i < parts.len()
        invariant
            i <= parts@.len(),
            pv == parts.deep_view(),
            keep == nonempty(),
            out.deep_view() == pv.take(i as int).filter(keep),
        decreases parts.len() - i,
    {
        let ghost prev = out.deep_view();
        assert(pv.take(i + 1).drop_last() =~= pv.take(i as int));
        assert(pv.take(i + 1).filter(keep) == if keep(pv[i as int]) {
            prev.push(pv[i as int])
        } else {
            prev
        }) by {
            reveal(Seq::filter);
        }
        if parts[i].len() > 0 {
            out.push(copy_chars(&parts[i]));
            assert(out.deep_view() =~= prev.push(pv[i as int]));
        }
        i = i + 1;
    }
    assert(pv.take(pv.len() as int) =~= pv);
    out
}

/// A copy of `v`.
pub fn copy_chars(v: &Vec<char>) -> (r: Vec<char>)
    ensures
        r@ == v@,
{
    let mut r: Vec<char> = Vec::new();
    let mut i: usize = 0;
    while i < v.len()
        invariant
            i <= v@.len(),
            r@ == v@.take(i as int),
        decreases v.len() - i,
    {
        r.push(v[i]);
        i = i + 1;
    }
    assert(v@.take(v@.len() as int) =~= v@);
    r
}

/// A copy of a list of strings.
pub fn copy_strings(v: &Vec<String>) -> (r: Vec<String>)
    ensures
        r.deep_view() == v.deep_view(),
{
    let mut r: Vec<String> = Vec::new();
    let mut i: usize = 0;
    while i < v.len()
        invariant
            i <= v@.len(),
            r.deep_view() == v.deep_view().take(i as int),
            r@.len() == i,
        decreases v.len() - i,
    {
        let ghost prev = r@;
        let ghost prev_d = r.deep_view();
        let c = v[i].clone();
        assert(c@ == v.deep_view()[i as int]);
        r.push(c);
        assert(r@ == prev.push(c));
        assert forall|j: int| 0 <= j < i + 1 implies r.deep_view()[j] == v.deep_view()[j] by {
            if j < i {
                assert(r@[j] == prev[j]);
                assert(prev_d[j] == prev[j]@);
            }
        }
        assert(r.deep_view() =~= v.deep_view().take(i + 1));
        i = i + 1;
    }
    assert(v.deep_view().take(v@.len() as int) =~= v.deep_view());
    r
}

/// `parts` joined with `sep` between consecutive pieces.
pub fn join(parts: &Vec<Vec<char>>, sep: &[char]) -> (r: Vec<char>)
    ensures
        r@ == join_s(parts.deep_view(), sep@),
{
    let ghost pv = parts.deep_view();
    let mut out: Vec<char> = Vec::new();
    let mut i: usize = 0;
    while i < parts.len()
        invariant
            i <= parts@.len(),
            pv == parts.deep_view(),
            out@ == join_s(pv.take(i as int), sep@),
        decreases parts.len() - i,
    {
        assert(pv.take(i + 1).drop_last() =~= pv.take(i as int));
        if i > 0 {
            append(&mut out, sep);
        }
        append(&mut out, parts[i].as_slice());
        proof {
            if i == 0 {
                assert(pv.take(1) =~= seq![pv[0]]);
                assert(out@ =~= pv[0]);
            } else {
                assert(out@ =~= join_s(pv.take(i as int), sep@) + sep@ + pv[i as int]);
            }
        }
        i = i + 1;
    }
    assert(pv.take(pv.len() as int) =~= pv);
    out
}

/// Append `extra` to `v`.
pub fn append(v: &mut Vec<char>, extra: &[char])
    ensures
        final(v)@ == old(v)@ + extra@,
{
    let mut i: usize = 0;
    while i < extra.len()
        invariant
            i <= extra@.len(),
            v@ == old(v)@ + extra@.take(i as int),
        decreases extra.len() - i,
    {
        v.push(extra[i]);
        assert(extra@.take(i + 1) =~= extra@.take(i as int).push(extra@[i as int]));
        i = i + 1;
    }
    assert(extra@.take(extra@.len() as int) =~= extra@);
}

/// Number of occurrences of `c` in `s`.
pub fn count(s: &[char], c: char) -> (n: usize)
    ensures
        n == count_char(s@, c),
{
    let mut n: usize = 0;
    let mut i: usize = 0;
    while i < s.len()
        invariant
            i <= s@.len(),
            n == count_char(s@.take(i as int), c),
            n <= i,
        decreases s.len() - i,
    {
        assert(s@.take(i + 1).drop_last() =~= s@.take(i as int));
        if s[i] == c {
            n = n + 1;
        }
        i = i + 1;
    }
    assert(s@.take(s@.len() as int) =~= s@);
    n
}

/// Lower-case the ASCII letters of one character.
pub fn to_ascii_lower(c: char) -> (r: char)
    ensures
        r == ascii_lower(c),
{
    if 'A' <= c && c <= 'Z' {
        let b: u8 = ((c as u32) + 32) as u8;
        b as char
    } else {
        c
    }
}

/// Whether every character of `s` is ASCII.
pub open spec fn is_ascii_s(s: Seq<char>) -> bool {
    forall|i: int| 0 <= i < s.len() ==> (#[trigger] s[i] as u32) < 0x80
}

/// ASCII text is one byte per character in UTF-8.
pub proof fn lemma_ascii_utf8_len(s: Seq<char>)
    requires
        is_ascii_s(s),
    ensures
        utf8_len(s) == s.len(),
        forall|m: int| 0 <= m <= s.len() ==> utf8_len(#[trigger] s.take(m)) == m,
    decreases s.len(),
{
    if s.len() == 0 {
        assert(vstd::utf8::encode_utf8(s) =~= Seq::<u8>::empty());
        assert(s.take(0) =~= s);
    } else {
        let d = s.drop_last();
        assert(is_ascii_s(d)) by {
            assert forall|i: int| 0 <= i < d.len() implies (#[trigger] d[i] as u32) < 0x80 by {
                assert(d[i] == s[i]);
            }
        }
        lemma_ascii_utf8_len(d);
        lemma_utf8_push(d, s.last());
        assert(d.push(s.last()) =~= s);
        assert((s[s.len() - 1] as u32) < 0x80);
        assert forall|m: int| 0 <= m <= s.len() implies utf8_len(#[trigger] s.take(m)) == m by {
            if m < s.len() {
                assert(s.take(m) =~= d.take(m));
            } else {
                assert(s.take(m) =~= s);
            }
        }
    }
}

/// The pieces of ASCII text split at a character are ASCII.
pub proof fn lemma_split_ascii(s: Seq<char>, sep: char)
    requires
        is_ascii_s(s),
    ensures
        forall|i: int| 0 <= i < split_s(s, sep).len() ==> is_ascii_s(#[trigger] split_s(s, sep)[i]),
    decreases s.len(),
{
    if s.len() > 0 {
        let d = s.drop_last();
        assert(is_ascii_s(d)) by {
            assert forall|i: int| 0 <= i < d.len() implies (#[trigger] d[i] as u32) < 0x80 by {
                assert(d[i] == s[i]);
            }
        }
        lemma_split_ascii(d, sep);
        lemma_split_nonempty(d, sep);
        let prev = split_s(d, sep);
        assert((s[s.len() - 1] as u32) < 0x80);
        assert forall|i: int| 0 <= i < split_s(s, sep).len() implies is_ascii_s(#[trigger] split_s(s, sep)[i]) by {
            if s.last() != sep && i == prev.len() - 1 {
                let piece = prev.last().push(s.last());
                assert(split_s(s, sep)[i] == piece);
                assert forall|k: int| 0 <= k < piece.len() implies (#[trigger] piece[k] as u32) < 0x80 by {
                    if k < prev.last().len() {
                        assert(piece[k] == prev[prev.len() - 1][k]);
                    }
                }
            } else if i < prev.len() {
                assert(split_s(s, sep)[i] == prev[i]);
            } else {
                assert(split_s(s, sep)[i] =~= Seq::<char>::empty());
            }
        }
    } else {
        assert(split_s(s, sep) =~= seq![Seq::<char>::empty()]);
    }
}

/// ASCII text lowered letter by letter stays ASCII.
pub proof fn lemma_ascii_lower_ascii(s: Seq<char>)
    requires
        is_ascii_s(s),
    ensures
        is_ascii_s(s.map_values(|c: char| ascii_lower(c))),
{
    let t = s.map_values(|c: char| ascii_lower(c));
    assert forall|i: int| 0 <= i < t.len() implies (#[trigger] t[i] as u32) < 0x80 by {
        let c = s[i];
        assert((c as u32) < 0x80);
        if 'A' <= c && c <= 'Z' {
            assert(((c as u32) + 32) as char as u32 == (c as u32) + 32);
        }
    }
}

/// What `str::to_lowercase` gives for `s` (full Unicode lower-casing).
pub uninterp spec fn lowercase_s(s: Seq<char>) -> Seq<char>;

/// `str::to_lowercase`: the Unicode lower-case mapping of `s`.  The
/// contract claims that the result is [`lowercase_s`] of `s`, which depends
/// on `s` alone, and that text of ASCII characters only is lowered letter
/// by letter, `A`-`Z` to `a`-`z` and every other character kept (the
/// Unicode lower-case mapping of the ASCII range, which `to_lowercase`
/// applies as `to_ascii_lowercase` does); the mapping beyond ASCII is not
/// stated.
#[verifier::external_body]
pub(crate) fn to_lowercase(s: &str) -> (r: String)
    ensures
        r@ == lowercase_s(s@),
        is_ascii_s(s@) ==> r@ == s@.map_values(|c: char| ascii_lower(c)),
{
    s.to_lowercase()
}

/// `str::eq_ignore_ascii_case`.
pub fn eq_ignore_ascii_case(a: &[char], b: &[char]) -> (r: bool)
    ensures
        r == eq_ignore_ascii_case_s(a@, b@),
{
    if a.len() != b.len() {
        return false;
    }
    let mut i: usize = 0;
    while i < a.len()
        invariant
            a@.len() == b@.len(),
            i <= a@.len(),
            forall|j: int| 0 <= j < i ==> ascii_lower(a@[j]) == ascii_lower(b@[j]),
        decreases a.len() - i,
    {
        if to_ascii_lower(a[i]) != to_ascii_lower(b[i]) {
            return false;
        }
        i = i + 1;
    }
    true
}

} // verus!
