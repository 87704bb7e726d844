//! TextMate scope selectors: patterns with wildcards, comma-separated
//! alternatives, exclusions, and specificity-based rule resolution.
use vstd::prelude::*;

use crate::font::{FontAssignment, FontAssignmentView, FontRule, FontRuleView};
use crate::text::{chars_eq, chars_of, split, split_s, string_of, trim, trim_s};

verus! {

broadcast use crate::lemma_chars_deep_view;

pub const SCOPE_KEYWORD: &'static str = "keyword";

pub const SCOPE_COMMENT: &'static str = "comment";

pub const SCOPE_STRING: &'static str = "string";

pub const SCOPE_FUNCTION: &'static str = "entity.name.function";

pub const SCOPE_VARIABLE: &'static str = "variable";

pub const SCOPE_CONSTANT: &'static str = "constant";

pub const SCOPE_TYPE: &'static str = "entity.name.type";

pub const SCOPE_NUMBER: &'static str = "constant.numeric";

pub const SCOPE_OPERATOR: &'static str = "keyword.operator";

pub const SCOPE_PUNCTUATION: &'static str = "punctuation";

pub const SCOPE_TAG: &'static str = "entity.name.tag";

pub const SCOPE_ATTRIBUTE: &'static str = "entity.other.attribute-name";

/// Errors from parsing scope patterns and selectors.
#[derive(Debug)]
pub enum ScopeError {
    EmptyPattern,
    InvalidPattern(String),
}

impl ScopeError {
    /// The message describing this error.
    pub fn to_string(&self) -> (r: String)
        ensures
            r@ == match self {
                ScopeError::EmptyPattern => "empty scope pattern"@,
                ScopeError::InvalidPattern(p) => "invalid scope pattern: "@ + p@,
            },
    {
        match self {
            ScopeError::EmptyPattern => crate::text::owned("empty scope pattern"),
            ScopeError::InvalidPattern(p) => crate::text::concat("invalid scope pattern: ", p.as_str()),
        }
    }
}

/// One dot-separated segment of a scope pattern.
#[derive(Debug)]
enum PatternSegment {
    Literal(String),
    Wildcard,
}

/// The content of a pattern segment.
pub enum SegmentView {
    Literal(Seq<char>),
    Wildcard,
}

/// The content of a [`ScopePattern`].
pub struct PatternView {
    pub segments: Seq<SegmentView>,
    pub negated: bool,
}

/// The segment a piece of a pattern denotes: `*` is a wildcard.
pub open spec fn segment_of(piece: Seq<char>) -> SegmentView {
    if piece == seq!['*'] {
        SegmentView::Wildcard
    } else {
        SegmentView::Literal(piece)
    }
}

/// Parse a pattern: trimmed, an optional leading `-` (negation, followed by
/// more trimming), then dot-separated segments.  `None` when nothing is left.
pub open spec fn parse_pattern(p: Seq<char>) -> Option<PatternView> {
    let t = trim_s(p);
    if t.len() == 0 {
        None
    } else {
        let negated = t[0] == '-';
        let inner = if negated {
            trim_s(t.drop_first())
        } else {
            t
        };
        if inner.len() == 0 {
            None
        } else {
            Some(
                PatternView {
                    segments: split_s(inner, '.').map_values(|x: Seq<char>| segment_of(x)),
                    negated,
                },
            )
        }
    }
}

/// Whether a pattern matches a scope: the scope has at least as many segments,
/// and each pattern segment is a wildcard or equals the scope's segment at the
/// same position.
pub open spec fn pattern_matches(p: PatternView, scope: Seq<char>) -> bool {
    let parts = split_s(scope, '.');
    parts.len() >= p.segments.len() && forall|i: int|
        0 <= i < p.segments.len() ==> match #[trigger] p.segments[i] {
            SegmentView::Wildcard => true,
            SegmentView::Literal(l) => parts[i] == l,
        }
}

/// Number of literal (non-wildcard) segments among the first `n`.
pub open spec fn literal_count(segs: Seq<SegmentView>) -> nat
    decreases segs.len(),
{
    if segs.len() == 0 {
        0
    } else {
        literal_count(segs.drop_last()) + match segs.last() {
            SegmentView::Wildcard => 0nat,
            SegmentView::Literal(_) => 1nat,
        }
    }
}

/// The specificity of a pattern: its number of literal segments.
pub open spec fn pattern_specificity(p: PatternView) -> nat {
    literal_count(p.segments)
}

/// A parsed scope pattern, such as `entity.name.*` or `-keyword.operator`.
#[derive(Debug)]
pub struct ScopePattern {
    segments: Vec<PatternSegment>,
    negated: bool,
}

impl View for PatternSegment {
    type V = SegmentView;

    closed spec fn view(&self) -> SegmentView {
        match self {
            PatternSegment::Literal(s) => SegmentView::Literal(s@),
            PatternSegment::Wildcard => SegmentView::Wildcard,
        }
    }
}

impl DeepView for PatternSegment {
    type V = SegmentView;

    open spec fn deep_view(&self) -> SegmentView {
        self@
    }
}

impl View for ScopePattern {
    type V = PatternView;

    closed spec fn view(&self) -> PatternView {
        PatternView { segments: self.segments.deep_view(), negated: self.negated }
    }
}

impl DeepView for ScopePattern {
    type V = PatternView;

    open spec fn deep_view(&self) -> PatternView {
        self@
    }
}

impl ScopePattern {
    /// Parse a pattern.  Fails with `EmptyPattern` when the pattern is blank,
    /// or is a `-` with nothing after it.
    pub fn parse(pattern: &str) -> (r: Result<Self, ScopeError>)
        ensures
            match parse_pattern(pattern@) {
                Some(v) => r matches Ok(p) && p@ == v,
                None => r == Err::<Self, ScopeError>(ScopeError::EmptyPattern),
            },
    {
        let p = chars_of(pattern);
        let t = trim(p.as_slice());
        if t.len() == 0 {
            return Err(ScopeError::EmptyPattern);
        }
        let negated = t[0] == '-';
        let inner = if negated {
            let rest = crate::text::slice_range(t.as_slice(), 1, t.len());
            assert(rest@ =~= t@.drop_first());
            trim(rest.as_slice())
        } else {
            t
        };
        if inner.len() == 0 {
            return Err(ScopeError::EmptyPattern);
        }
        let pieces = split(inner.as_slice(), '.');
        let ghost pv = pieces.deep_view();
        let mut segments: Vec<PatternSegment> = Vec::new();
        let mut i: usize = 0;
        while i < pieces.len()
            invariant
                i <= pieces@.len(),
                pv == pieces.deep_view(),
                segments@.len() == i,
                forall|j: int|
                    0 <= j < i ==> #[trigger] segments.deep_view()[j] == segment_of(pv[j]),
            decreases pieces.len() - i,
        {
            let piece = &pieces[i];
            let seg = if piece.len() == 1 && piece[0] == '*' {
                assert(piece@ =~= seq!['*']);
                PatternSegment::Wildcard
            } else {
                assert(piece@ != seq!['*']) by {
                    if piece@ == seq!['*'] {
                        assert(piece@.len() == 1 && piece@[0] == '*');
                    }
                }
                PatternSegment::Literal(string_of(piece.as_slice()))
            };
            let ghost prev = segments.deep_view();
            segments.push(seg);
            assert(segments.deep_view()[i as int] == segment_of(pv[i as int]));
            assert forall|j: int| 0 <= j < i + 1 implies #[trigger] segments.deep_view()[j]
                == segment_of(pv[j]) by {
                if j < i {
                    assert(segments.deep_view()[j] == prev[j]);
                }
            }
            i = i + 1;
        }
        let r = ScopePattern { segments, negated };
        assert(r@.segments =~= pv.map_values(|x: Seq<char>| segment_of(x)));
        Ok(r)
    }

    /// Whether this pattern matches `scope`; the pattern's negation is not
    /// considered here.
    pub fn matches_scope(&self, scope: &str) -> (r: bool)
        ensures
            r == pattern_matches(self@, scope@),
    {
        self.matches_raw(scope)
    }

    /// Whether this pattern's segments match `scope`.
    pub fn matches_raw(&self, scope: &str) -> (r: bool)
        ensures
            r == pattern_matches(self@, scope@),
    {
        let s = chars_of(scope);
        let parts = split(s.as_slice(), '.');
        let ghost pv = parts.deep_view();
        if parts.len() < self.segments.len() {
            return false;
        }
        let mut i: usize = 0;
        while i < self.segments.len()
            invariant
                i <= self.segments@.len(),
                pv == parts.deep_view(),
                pv == split_s(scope@, '.'),
                parts@.len() >= self.segments@.len(),
                self@.segments == self.segments.deep_view(),
                forall|j: int|
                    0 <= j < i ==> match #[trigger] self@.segments[j] {
                        SegmentView::Wildcard => true,
                        SegmentView::Literal(l) => pv[j] == l,
                    },
            decreases self.segments.len() - i,
        {
            match &self.segments[i] {
                PatternSegment::Wildcard => {},
                PatternSegment::Literal(lit) => {
                    let l = chars_of(lit.as_str());
                    if !chars_eq(parts[i].as_slice(), l.as_slice()) {
                        assert(!pattern_matches(self@, scope@)) by {
                            assert(self@.segments[i as int] == SegmentView::Literal(lit@));
                        }
                        return false;
                    }
                },
            }
            i = i + 1;
        }
        true
    }

    /// The number of literal (non-wildcard) segments.
    pub fn specificity(&self) -> (r: usize)
        ensures
            r == pattern_specificity(self@),
    {
        let ghost sv = self.segments.deep_view();
        let mut n: usize = 0;
        let mut i: usize = 0;
        while i < self.segments.len()
            invariant
                i <= self.segments@.len(),
                sv == self.segments.deep_view(),
                sv == self@.segments,
                n == literal_count(sv.take(i as int)),
                n <= i,
            decreases self.segments.len() - i,
        {
            assert(sv.take(i + 1).drop_last() =~= sv.take(i as int));
            match &self.segments[i] {
                PatternSegment::Wildcard => {},
                PatternSegment::Literal(_) => {
                    n = n + 1;
                },
            }
            i = i + 1;
        }
        assert(sv.take(sv.len() as int) =~= sv);
        n
    }

    /// Whether this pattern excludes what it matches (written with a leading `-`).
    pub fn is_negated(&self) -> (r: bool)
        ensures
            r == self@.negated,
    {
        self.negated
    }
}

/// Parse the pieces of a selector in order: blank pieces are skipped, and the
/// whole fails as soon as one piece fails to parse.
pub open spec fn parse_pieces(pieces: Seq<Seq<char>>) -> Option<Seq<PatternView>>
    decreases pieces.len(),
{
    if pieces.len() == 0 {
        Some(Seq::empty())
    } else {
        match parse_pieces(pieces.drop_last()) {
            None => None,
            Some(v) => {
                let t = trim_s(pieces.last());
                if t.len() == 0 {
                    Some(v)
                } else {
                    match parse_pattern(t) {
                        None => None,
                        Some(p) => Some(v.push(p)),
                    }
                }
            },
        }
    }
}

/// Parse a comma-separated selector; `None` when a piece is invalid or no
/// pattern is left.
pub open spec fn parse_selector(s: Seq<char>) -> Option<Seq<PatternView>> {
    match parse_pieces(split_s(s, ',')) {
        None => None,
        Some(v) => if v.len() == 0 {
            None
        } else {
            Some(v)
        },
    }
}

/// A selector matches a scope when no exclusion matches it and, if the
/// selector has inclusions, one of them matches it.
pub open spec fn selector_matches(ps: Seq<PatternView>, scope: Seq<char>) -> bool {
    let has_pos = exists|i: int| 0 <= i < ps.len() && !(#[trigger] ps[i]).negated;
    let has_neg = exists|i: int| 0 <= i < ps.len() && (#[trigger] ps[i]).negated;
    if exists|i: int|
        0 <= i < ps.len() && (#[trigger] ps[i]).negated && pattern_matches(ps[i], scope) {
        false
    } else if !has_pos && has_neg {
        true
    } else {
        exists|i: int| 0 <= i < ps.len() && !(#[trigger] ps[i]).negated && pattern_matches(ps[i], scope)
    }
}

/// The specificity of a selector: the largest specificity among its inclusions
/// (0 when it has none).
pub open spec fn selector_specificity(ps: Seq<PatternView>) -> nat
    decreases ps.len(),
{
    if ps.len() == 0 {
        0
    } else {
        let prev = selector_specificity(ps.drop_last());
        let here = if ps.last().negated {
            0
        } else {
            pattern_specificity(ps.last())
        };
        if here > prev {
            here
        } else {
            prev
        }
    }
}

/// A selector made only of exclusions matches exactly the scopes that none
/// of its patterns match; a matching exclusion always rejects a scope; and a
/// selector with inclusions matches exactly when one of its inclusions does
/// and none of its exclusions does.
pub proof fn lemma_selector_matches(ps: Seq<PatternView>, scope: Seq<char>)
    ensures
        ps.len() > 0 && (forall|i: int| 0 <= i < ps.len() ==> (#[trigger] ps[i]).negated) ==> (
        selector_matches(ps, scope) <==> !exists|i: int|
            0 <= i < ps.len() && pattern_matches(#[trigger] ps[i], scope)),
        (exists|i: int| 0 <= i < ps.len() && (#[trigger] ps[i]).negated && pattern_matches(ps[i], scope))
            ==> !selector_matches(ps, scope),
        (exists|i: int| 0 <= i < ps.len() && !(#[trigger] ps[i]).negated) ==> (selector_matches(
            ps,
            scope,
        ) <==> (exists|i: int|
            0 <= i < ps.len() && !(#[trigger] ps[i]).negated && pattern_matches(ps[i], scope))
            && !exists|i: int|
            0 <= i < ps.len() && (#[trigger] ps[i]).negated && pattern_matches(ps[i], scope)),
{
    if ps.len() > 0 && (forall|i: int| 0 <= i < ps.len() ==> (#[trigger] ps[i]).negated) {
        assert(ps[0].negated);
        assert(!exists|i: int| 0 <= i < ps.len() && !(#[trigger] ps[i]).negated);
    }
}

/// A selector's specificity is the largest specificity among its
/// inclusions, or 0 when it has none: exclusions never count, so adding one
/// leaves it unchanged.
pub proof fn lemma_selector_specificity(ps: Seq<PatternView>, ex: PatternView)
    requires
        ex.negated,
    ensures
        forall|i: int|
            0 <= i < ps.len() && !(#[trigger] ps[i]).negated ==> pattern_specificity(ps[i])
                <= selector_specificity(ps),
        selector_specificity(ps) == 0 || exists|i: int|
            0 <= i < ps.len() && !(#[trigger] ps[i]).negated && pattern_specificity(ps[i])
                == selector_specificity(ps),
        selector_specificity(ps.push(ex)) == selector_specificity(ps),
    decreases ps.len(),
{
    assert(ps.push(ex).drop_last() =~= ps);
    if ps.len() > 0 {
        let d = ps.drop_last();
        lemma_selector_specificity(d, ex);
        assert forall|i: int|
            0 <= i < ps.len() && !(#[trigger] ps[i]).negated implies pattern_specificity(ps[i])
                <= selector_specificity(ps) by {
            if i < d.len() {
                assert(ps[i] == d[i]);
            }
        }
        if selector_specificity(ps) != 0 {
            if selector_specificity(ps) == selector_specificity(d) {
                let i = choose|i: int|
                    0 <= i < d.len() && !(#[trigger] d[i]).negated && pattern_specificity(d[i])
                        == selector_specificity(d);
                assert(ps[i] == d[i]);
            } else {
                assert(!ps[ps.len() - 1].negated);
            }
        }
    }
}

/// A comma-separated list of scope patterns.
#[derive(Debug)]
pub struct ScopeSelector {
    patterns: Vec<ScopePattern>,
}

impl View for ScopeSelector {
    type V = Seq<PatternView>;

    closed spec fn view(&self) -> Seq<PatternView> {
        self.patterns.deep_view()
    }
}

impl ScopeSelector {
    /// Parse a comma-separated selector.  Fails with `EmptyPattern` when a
    /// non-blank piece is an empty pattern, or when no pattern is given.
    pub fn parse(selector: &str) -> (r: Result<Self, ScopeError>)
        ensures
            match parse_selector(selector@) {
                Some(v) => r matches Ok(s) && s@ == v,
                None => r == Err::<Self, ScopeError>(ScopeError::EmptyPattern),
            },
    {
        let s = chars_of(selector);
        let pieces = split(s.as_slice(), ',');
        let ghost pv = pieces.deep_view();
        let mut patterns: Vec<ScopePattern> = Vec::new();
        let mut i: usize = 0;
        assert(pv.take(0) =~= Seq::<Seq<char>>::empty());
        while i < pieces.len()
            invariant
                i <= pieces@.len(),
                pv == pieces.deep_view(),
                pv == split_s(selector@, ','),
                parse_pieces(pv.take(i as int)) == Some(patterns.deep_view()),
            decreases pieces.len() - i,
        {
            assert(pv.take(i + 1).drop_last() =~= pv.take(i as int));
            let t = trim(pieces[i].as_slice());
            if t.len() > 0 {
                let ts = string_of(t.as_slice());
                match ScopePattern::parse(ts.as_str()) {
                    Ok(p) => {
                        let ghost prev = patterns.deep_view();
                        patterns.push(p);
                        assert(patterns.deep_view() =~= prev.push(p@));
                    },
                    Err(e) => {
                        proof {
                            lemma_parse_pieces_fail(pv, i as int);
                        }
                        return Err(e);
                    },
                }
            }
            i = i + 1;
        }
        assert(pv.take(pv.len() as int) =~= pv);
        if patterns.len() == 0 {
            return Err(ScopeError::EmptyPattern);
        }
        Ok(ScopeSelector { patterns })
    }

    /// Whether the selector matches `scope`.
    pub fn matches(&self, scope: &str) -> (r: bool)
        ensures
            r == selector_matches(self@, scope@),
    {
        let ghost ps = self@;
        let mut has_pos = false;
        let mut has_neg = false;
        let mut pos_match = false;
        let mut i: usize = 0;
        while i < self.patterns.len()
            invariant
                i <= self.patterns@.len(),
                ps == self@,
                ps == self.patterns.deep_view(),
                has_pos == exists|j: int| 0 <= j < i && !(#[trigger] ps[j]).negated,
                has_neg == exists|j: int| 0 <= j < i && (#[trigger] ps[j]).negated,
                pos_match == exists|j: int|
                    0 <= j < i && !(#[trigger] ps[j]).negated && pattern_matches(ps[j], scope@),
                forall|j: int|
                    0 <= j < i && (#[trigger] ps[j]).negated ==> !pattern_matches(ps[j], scope@),
            decreases self.patterns.len() - i,
        {
            let p = &self.patterns[i];
            assert(p@ == ps[i as int]);
            if p.negated {
                has_neg = true;
                if p.matches_raw(scope) {
                    return false;
                }
            } else {
                has_pos = true;
                if p.matches_scope(scope) {
                    pos_match = true;
                }
            }
            i = i + 1;
        }
        if !has_pos && has_neg {
            return true;
        }
        pos_match
    }

    /// The largest specificity among the selector's inclusions, or 0.
    pub fn specificity(&self) -> (r: usize)
        ensures
            r == selector_specificity(self@),
    {
        let ghost ps = self@;
        let mut best: usize = 0;
        let mut i: usize = 0;
        assert(ps.take(0) =~= Seq::<PatternView>::empty());
        while i < self.patterns.len()
            invariant
                i <= self.patterns@.len(),
                ps == self@,
                ps == self.patterns.deep_view(),
                best == selector_specificity(ps.take(i as int)),
            decreases self.patterns.len() - i,
        {
            assert(ps.take(i + 1).drop_last() =~= ps.take(i as int));
            let p = &self.patterns[i];
            assert(p@ == ps[i as int]);
            if !p.negated {
                let s = p.specificity();
                if s > best {
                    best = s;
                }
            }
            i = i + 1;
        }
        assert(ps.take(ps.len() as int) =~= ps);
        best
    }
}

proof fn lemma_parse_pieces_fail(pv: Seq<Seq<char>>, i: int)
    requires
        0 <= i < pv.len(),
        parse_pieces(pv.take(i)) is Some,
        trim_s(pv[i]).len() > 0,
        parse_pattern(trim_s(pv[i])) is None,
    ensures
        parse_selector_pieces_fail(pv),
{
    assert(pv.take(i + 1).drop_last() =~= pv.take(i));
    lemma_parse_pieces_none_extends(pv, i + 1);
}

/// Parsing every piece fails.
pub open spec fn parse_selector_pieces_fail(pv: Seq<Seq<char>>) -> bool {
    parse_pieces(pv) is None
}

proof fn lemma_parse_pieces_none_extends(pv: Seq<Seq<char>>, n: int)
    requires
        0 <= n <= pv.len(),
        parse_pieces(pv.take(n)) is None,
    ensures
        parse_pieces(pv) is None,
    decreases pv.len() - n,
{
    if n == pv.len() {
        assert(pv.take(n) =~= pv);
    } else {
        assert(pv.take(n + 1).drop_last() =~= pv.take(n));
        lemma_parse_pieces_none_extends(pv, n + 1);
    }
}

/// The outcome of matching `scope` against each selector in turn: an error
/// for the first selector that fails to parse before a match is found, `true`
/// once one matches, `false` if none does.
pub open spec fn matches_any_spec(scope: Seq<char>, selectors: Seq<Seq<char>>) -> Result<bool, ()>
    decreases selectors.len(),
{
    if selectors.len() == 0 {
        Ok(false)
    } else {
        match parse_selector(selectors[0]) {
            None => Err(()),
            Some(ps) => if selector_matches(ps, scope) {
                Ok(true)
            } else {
                matches_any_spec(scope, selectors.drop_first())
            },
        }
    }
}

/// Convenience entry points for one-off matching.
pub struct ScopeMatcher;

impl ScopeMatcher {
    /// Whether `scope` matches `selector`, or the selector's parse error.
    pub fn matches(scope: &str, selector: &str) -> (r: Result<bool, ScopeError>)
        ensures
            match parse_selector(selector@) {
                Some(ps) => r == Ok::<bool, ScopeError>(selector_matches(ps, scope@)),
                None => r == Err::<bool, ScopeError>(ScopeError::EmptyPattern),
            },
    {
        let sel = ScopeSelector::parse(selector)?;
        Ok(sel.matches(scope))
    }

    /// Whether `scope` matches any of `selectors`, tried in order; a selector
    /// that fails to parse before a match is found is an error.
    pub fn matches_any(scope: &str, selectors: &[&str]) -> (r: Result<bool, ScopeError>)
        ensures
            match matches_any_spec(scope@, selectors@.map_values(|s: &str| s@)) {
                Ok(b) => r == Ok::<bool, ScopeError>(b),
                Err(_) => r == Err::<bool, ScopeError>(ScopeError::EmptyPattern),
            },
    {
        let ghost all = selectors@.map_values(|s: &str| s@);
        let mut i: usize = 0;
        assert(all.skip(0) =~= all);
        while i < selectors.len()
            invariant
                i <= selectors@.len(),
                all == selectors@.map_values(|s: &str| s@),
                matches_any_spec(scope@, all) == matches_any_spec(scope@, all.skip(i as int)),
            decreases selectors.len() - i,
        {
            let ghost rest = all.skip(i as int);
            assert(rest[0] == selectors@[i as int]@);
            assert(rest.drop_first() =~= all.skip(i + 1));
            let sel = ScopeSelector::parse(selectors[i])?;
            if sel.matches(scope) {
                return Ok(true);
            }
            i = i + 1;
        }
        Ok(false)
    }
}

/// The specificity of a rule under selector parsing, when its scope parses
/// and matches `scope`.
pub open spec fn rule_candidate(r: FontRuleView, scope: Seq<char>) -> Option<nat> {
    match parse_selector(r.scope) {
        Some(ps) => if selector_matches(ps, scope) {
            Some(selector_specificity(ps))
        } else {
            None
        },
        None => None,
    }
}

/// The best rule for `scope` among `rules`, as (index, specificity): the
/// highest specificity wins, and among equals the earliest rule.
pub open spec fn best_rule(rules: Seq<FontRuleView>, scope: Seq<char>) -> Option<(int, nat)>
    decreases rules.len(),
{
    if rules.len() == 0 {
        None
    } else {
        let prev = best_rule(rules.drop_last(), scope);
        match rule_candidate(rules.last(), scope) {
            None => prev,
            Some(k) => match prev {
                None => Some((rules.len() - 1, k)),
                Some((bi, bk)) => if k > bk {
                    Some((rules.len() - 1, k))
                } else {
                    prev
                },
            },
        }
    }
}

/// The rule chosen for a scope is a matching rule of the highest
/// specificity, the earliest among equally specific ones; there is none only
/// when no rule matches.
pub proof fn lemma_best_rule(rules: Seq<FontRuleView>, scope: Seq<char>)
    ensures
        best_rule(rules, scope) is None <==> forall|j: int|
            0 <= j < rules.len() ==> rule_candidate(#[trigger] rules[j], scope) is None,
        best_rule(rules, scope) matches Some((i, k)) ==> {
            &&& 0 <= i < rules.len()
            &&& rule_candidate(rules[i], scope) == Some(k)
            &&& forall|j: int|
                0 <= j < rules.len() ==> (rule_candidate(#[trigger] rules[j], scope) matches Some(kj)
                    ==> kj < k || (kj == k && i <= j))
        },
    decreases rules.len(),
{
    if rules.len() > 0 {
        let d = rules.drop_last();
        lemma_best_rule(d, scope);
        assert forall|j: int| 0 <= j < d.len() implies #[trigger] rules[j] == d[j] by {}
        let n = rules.len() - 1;
        if best_rule(d, scope) is None {
            assert forall|j: int| 0 <= j < d.len() implies rule_candidate(#[trigger] rules[j], scope)
                is None by {
                assert(rules[j] == d[j]);
            }
        }
        if let Some((bi, bk)) = best_rule(d, scope) {
            assert(rules[bi] == d[bi]);
        }
        if best_rule(rules, scope) is None {
            assert forall|j: int| 0 <= j < rules.len() implies rule_candidate(#[trigger] rules[j], scope)
                is None by {
                if j < n {
                    assert(rules[j] == d[j]);
                }
            }
        }
    }
}

/// The outcome of resolving a scope: the assignment and the index of the rule
/// that produced it.
#[derive(Debug)]
pub struct ResolvedScope {
    pub assignment: FontAssignment,
    pub rule_index: usize,
}

/// The content of a [`ResolvedScope`].
pub struct ResolvedScopeView {
    pub assignment: FontAssignmentView,
    pub rule_index: usize,
}

impl View for ResolvedScope {
    type V = ResolvedScopeView;

    open spec fn view(&self) -> ResolvedScopeView {
        ResolvedScopeView { assignment: self.assignment@, rule_index: self.rule_index }
    }
}

impl DeepView for ResolvedScope {
    type V = ResolvedScopeView;

    open spec fn deep_view(&self) -> ResolvedScopeView {
        self@
    }
}

/// The resolution of `scope` against `rules`.
pub open spec fn resolve_spec(rules: Seq<FontRuleView>, scope: Seq<char>) -> Option<
    ResolvedScopeView,
> {
    match best_rule(rules, scope) {
        None => None,
        Some((i, k)) => Some(
            ResolvedScopeView {
                assignment: FontAssignmentView {
                    scope,
                    font: rules[i].font,
                    specificity: k as usize,
                    is_active: true,
                },
                rule_index: i as usize,
            },
        ),
    }
}

/// Resolves scopes against rules written as selectors, by specificity, with
/// ties going to the earlier rule.
pub struct ScopeResolver {
    rules: Vec<(FontRule, usize)>,
}

impl View for ScopeResolver {
    type V = Seq<FontRuleView>;

    closed spec fn view(&self) -> Seq<FontRuleView> {
        Seq::new(self.rules@.len(), |i: int| self.rules@[i].0@)
    }
}

impl ScopeResolver {
    #[verifier::type_invariant]
    spec fn indexed(self) -> bool {
        forall|i: int| 0 <= i < self.rules@.len() ==> (#[trigger] self.rules@[i]).1 == i
    }

    /// A resolver with no rules.
    pub fn new() -> (r: Self)
        ensures
            r@ == Seq::<FontRuleView>::empty(),
    {
        let r = ScopeResolver { rules: Vec::new() };
        assert(r@ =~= Seq::<FontRuleView>::empty());
        r
    }

    /// A resolver holding `rules`, numbered in order.
    pub fn from_rules(rules: Vec<FontRule>) -> (r: Self)
        ensures
            r@ == rules.deep_view(),
    {
        let mut out: Vec<(FontRule, usize)> = Vec::new();
        let mut i: usize = 0;
        while i < rules.len()
            invariant
                i <= rules@.len(),
                out@.len() == i,
                forall|j: int| 0 <= j < i ==> (#[trigger] out@[j]).1 == j && out@[j].0@ == rules@[j]@,
            decreases rules.len() - i,
        {
            out.push((rules[i].clone(), i));
            i = i + 1;
        }
        let r = ScopeResolver { rules: out };
        assert(r@ =~= rules.deep_view());
        r
    }

    /// Append a rule; it gets the next index.
    pub fn add_rule(&mut self, rule: FontRule)
        ensures
            final(self)@ == old(self)@.push(rule@),
    {
        proof {
            use_type_invariant(&*self);
        }
        let mut rules: Vec<(FontRule, usize)> = Vec::new();
        std::mem::swap(&mut rules, &mut self.rules);
        let index = rules.len();
        let ghost prev = rules@;
        rules.push((rule, index));
        assert(forall|i: int| 0 <= i < rules@.len() ==> (#[trigger] rules@[i]).1 == i) by {
            assert forall|i: int| 0 <= i < rules@.len() implies (#[trigger] rules@[i]).1 == i by {
                if i < prev.len() {
                    assert(rules@[i] == prev[i]);
                }
            }
        }
        self.rules = rules;
        assert(self@ =~= old(self)@.push(rule@)) by {
            assert forall|i: int| 0 <= i < prev.len() implies self@[i] == old(self)@[i] by {
                assert(self.rules@[i] == prev[i]);
            }
        }
    }

    /// The best rule for `scope`: the matching rule whose selector is most
    /// specific, and among equally specific ones the earliest.
    pub fn resolve(&self, scope: &str) -> (r: Option<ResolvedScope>)
        ensures
            r.deep_view() == resolve_spec(self@, scope@),
    {
        proof {
            use_type_invariant(self);
        }
        let ghost rs = self@;
        let mut best: Option<(usize, usize)> = None;
        let mut i: usize = 0;
        assert(rs.take(0) =~= Seq::<FontRuleView>::empty());
        while i < self.rules.len()
            invariant
                i <= self.rules@.len(),
                rs == self@,
                rs.len() == self.rules@.len(),
                forall|j: int| 0 <= j < self.rules@.len() ==> (#[trigger] self.rules@[j]).1 == j,
                forall|j: int| 0 <= j < self.rules@.len() ==> #[trigger] rs[j] == self.rules@[j].0@,
                match best_rule(rs.take(i as int), scope@) {
                    None => best is None,
                    Some((bi, bk)) => best == Some((bi as usize, bk as usize)) && 0 <= bi < i && bk
                        <= usize::MAX,
                },
            decreases self.rules.len() - i,
        {
            assert(rs.take(i + 1).drop_last() =~= rs.take(i as int));
            assert(rs.take(i + 1).last() == rs[i as int]);
            let rule = &self.rules[i].0;
            let rule_index = self.rules[i].1;
            assert(rule@ == rs[i as int]);
            let cand: Option<usize> = match ScopeSelector::parse(rule.scope.as_str()) {
                Ok(selector) => {
                    if selector.matches(scope) {
                        Some(selector.specificity())
                    } else {
                        None
                    }
                },
                Err(_) => None,
            };
            assert(match cand {
                Some(k) => rule_candidate(rs[i as int], scope@) == Some(k as nat),
                None => rule_candidate(rs[i as int], scope@) is None,
            });
            if let Some(specificity) = cand {
                let should_replace = match best {
                    None => true,
                    Some((bi, bs)) => specificity > bs || (specificity == bs && rule_index < bi),
                };
                if should_replace {
                    best = Some((rule_index, specificity));
                }
            }
            i = i + 1;
        }
        assert(rs.take(rs.len() as int) =~= rs);
        match best {
            None => None,
            Some((bi, bk)) => {
                let rule = &self.rules[bi].0;
                Some(
                    ResolvedScope {
                        assignment: FontAssignment {
                            scope: crate::text::owned(scope),
                            font: rule.font.clone(),
                            specificity: bk,
                            is_active: true,
                        },
                        rule_index: bi,
                    },
                )
            },
        }
    }

    /// Resolve each scope independently.
    pub fn resolve_all(&self, scopes: &[&str]) -> (r: Vec<Option<ResolvedScope>>)
        ensures
            r@.len() == scopes@.len(),
            forall|i: int|
                0 <= i < scopes@.len() ==> #[trigger] r@[i].deep_view() == resolve_spec(
                    self@,
                    scopes@[i]@,
                ),
    {
        let mut out: Vec<Option<ResolvedScope>> = Vec::new();
        let mut i: usize = 0;
        while i < scopes.len()
            invariant
                i <= scopes@.len(),
                out@.len() == i,
                forall|j: int|
                    0 <= j < i ==> #[trigger] out@[j].deep_view() == resolve_spec(self@, scopes@[j]@),
            decreases scopes.len() - i,
        {
            out.push(self.resolve(scopes[i]));
            i = i + 1;
        }
        out
    }

    /// Remove every rule.
    pub fn clear(&mut self)
        ensures
            final(self)@ == Seq::<FontRuleView>::empty(),
    {
        self.rules = Vec::new();
        assert(self@ =~= Seq::<FontRuleView>::empty());
    }

    /// The number of rules.
    pub fn rule_count(&self) -> (r: usize)
        ensures
            r == self@.len(),
    {
        self.rules.len()
    }
}

} // verus!
