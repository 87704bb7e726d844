//! Scope-to-font resolution over rules kept in specificity order.
use vstd::prelude::*;

use crate::font::{FontAssignment, FontAssignmentView, FontRule, FontRuleView, scope_specificity};
use crate::text::{chars_eq, chars_of, starts_with, starts_with_s};
use crate::token::TokenInfo;

verus! {

broadcast use crate::lemma_chars_deep_view;

/// Hierarchical TextMate scope matching: `"*"` matches every scope; otherwise
/// the pattern matches the identical scope, or a scope that continues the
/// pattern with a `.` separator.
pub open spec fn scope_matches_spec(scope: Seq<char>, pattern: Seq<char>) -> bool {
    pattern == seq!['*'] || scope == pattern || (scope.len() > pattern.len() && scope[pattern.len() as int]
        == '.' && starts_with_s(scope, pattern))
}

/// The specificity of a rule.
pub open spec fn rule_spec(r: FontRuleView) -> nat {
    scope_specificity(r.scope)
}

/// Rules in descending specificity order.
pub open spec fn sorted_desc(s: Seq<FontRuleView>) -> bool {
    forall|i: int, j: int| 0 <= i < j < s.len() ==> rule_spec(#[trigger] s[i]) >= rule_spec(#[trigger] s[j])
}

/// The index before the first rule whose specificity is below `k`.
pub open spec fn insert_pos(s: Seq<FontRuleView>, k: nat) -> nat
    decreases s.len(),
{
    if s.len() == 0 {
        0
    } else if rule_spec(s[0]) >= k {
        1 + insert_pos(s.drop_first(), k)
    } else {
        0
    }
}

/// `r` inserted after every rule at least as specific as it.
pub open spec fn insert_sorted(s: Seq<FontRuleView>, r: FontRuleView) -> Seq<FontRuleView> {
    s.insert(insert_pos(s, rule_spec(r)) as int, r)
}

/// The stable sort of `s` by descending specificity (what `sort_by_key` with
/// a reversed key produces): each rule is placed after all earlier rules that
/// are at least as specific.
pub open spec fn stable_sort(s: Seq<FontRuleView>) -> Seq<FontRuleView>
    decreases s.len(),
{
    if s.len() == 0 {
        s
    } else {
        insert_sorted(stable_sort(s.drop_last()), s.last())
    }
}

/// The assignment a rule gives to a token scope.
pub open spec fn assignment_for(scope: Seq<char>, r: FontRuleView) -> FontAssignmentView {
    FontAssignmentView {
        scope,
        font: r.font,
        specificity: rule_spec(r) as usize,
        is_active: true,
    }
}

/// The assignment of the first rule, in order, whose scope matches `scope`.
pub open spec fn resolve_in(rules: Seq<FontRuleView>, scope: Seq<char>) -> Option<
    FontAssignmentView,
>
    decreases rules.len(),
{
    if rules.len() == 0 {
        None
    } else if scope_matches_spec(scope, rules[0].scope) {
        Some(assignment_for(scope, rules[0]))
    } else {
        resolve_in(rules.drop_first(), scope)
    }
}

/// Rules whose scope is not exactly `scope`.
pub open spec fn scope_is_not(scope: Seq<char>) -> spec_fn(FontRuleView) -> bool {
    |r: FontRuleView| r.scope != scope
}

proof fn lemma_insert_pos(s: Seq<FontRuleView>, k: nat)
    ensures
        insert_pos(s, k) <= s.len(),
        forall|i: int| 0 <= i < insert_pos(s, k) ==> rule_spec(#[trigger] s[i]) >= k,
        insert_pos(s, k) < s.len() ==> rule_spec(s[insert_pos(s, k) as int]) < k,
    decreases s.len(),
{
    if s.len() > 0 && rule_spec(s[0]) >= k {
        lemma_insert_pos(s.drop_first(), k);
        assert forall|i: int| 0 <= i < insert_pos(s, k) implies rule_spec(#[trigger] s[i]) >= k by {
            if i > 0 {
                assert(s[i] == s.drop_first()[i - 1]);
            }
        }
    }
}

proof fn lemma_insert_pos_all(s: Seq<FontRuleView>, k: nat)
    requires
        forall|i: int| 0 <= i < s.len() ==> rule_spec(#[trigger] s[i]) >= k,
    ensures
        insert_pos(s, k) == s.len(),
    decreases s.len(),
{
    if s.len() > 0 {
        let t = s.drop_first();
        assert forall|i: int| 0 <= i < t.len() implies rule_spec(#[trigger] t[i]) >= k by {
            assert(t[i] == s[i + 1]);
        }
        lemma_insert_pos_all(t, k);
    }
}

proof fn lemma_insert_sorted(s: Seq<FontRuleView>, r: FontRuleView)
    requires
        sorted_desc(s),
    ensures
        sorted_desc(insert_sorted(s, r)),
        insert_sorted(s, r).len() == s.len() + 1,
        insert_sorted(s, r).to_multiset() == s.to_multiset().insert(r),
{
    let k = rule_spec(r);
    let p = insert_pos(s, k) as int;
    lemma_insert_pos(s, k);
    let t = insert_sorted(s, r);
    assert(t =~= s.take(p) + seq![r] + s.skip(p));
    assert forall|i: int, j: int| 0 <= i < j < t.len() implies rule_spec(#[trigger] t[i]) >= rule_spec(
        #[trigger] t[j],
    ) by {
        if j < p {
            assert(t[i] == s[i] && t[j] == s[j]);
        } else if j == p {
            assert(t[i] == s[i]);
        } else if i < p {
            assert(t[i] == s[i] && t[j] == s[j - 1]);
        } else if i == p {
            assert(t[j] == s[j - 1]);
            assert(rule_spec(s[p]) < k);
            if j - 1 > p {
                assert(rule_spec(s[p]) >= rule_spec(s[j - 1]));
            }
        } else {
            assert(t[i] == s[i - 1] && t[j] == s[j - 1]);
        }
    }
    s.insert_ensures(p, r);
    vstd::seq_lib::lemma_multiset_commutative(s.take(p) + seq![r], s.skip(p));
    vstd::seq_lib::lemma_multiset_commutative(s.take(p), seq![r]);
    vstd::seq_lib::lemma_multiset_commutative(s.take(p), s.skip(p));
    assert(s.take(p) + s.skip(p) =~= s);
    assert(seq![r].to_multiset() =~= vstd::multiset::Multiset::empty().insert(r)) by {
        assert(seq![r] =~= Seq::<FontRuleView>::empty().push(r));
        Seq::<FontRuleView>::empty().to_multiset_ensures();
        Seq::<FontRuleView>::empty().push(r).to_multiset_ensures();
    }
    assert(t.to_multiset() =~= s.to_multiset().insert(r));
}

/// The stable sort is in descending specificity order and is a permutation of
/// its input.
pub proof fn lemma_stable_sort(s: Seq<FontRuleView>)
    ensures
        sorted_desc(stable_sort(s)),
        stable_sort(s).len() == s.len(),
        stable_sort(s).to_multiset() == s.to_multiset(),
    decreases s.len(),
{
    if s.len() > 0 {
        lemma_stable_sort(s.drop_last());
        lemma_insert_sorted(stable_sort(s.drop_last()), s.last());
        s.drop_last().to_multiset_ensures();
        assert(s =~= s.drop_last().push(s.last()));
        s.drop_last().push(s.last()).to_multiset_ensures();
    }
}

/// Sorting rules that are already in specificity order leaves them unchanged.
pub proof fn lemma_stable_sort_sorted(s: Seq<FontRuleView>)
    requires
        sorted_desc(s),
    ensures
        stable_sort(s) == s,
    decreases s.len(),
{
    if s.len() > 0 {
        let d = s.drop_last();
        assert(sorted_desc(d)) by {
            assert forall|i: int, j: int| 0 <= i < j < d.len() implies rule_spec(#[trigger] d[i])
                >= rule_spec(#[trigger] d[j]) by {
                assert(d[i] == s[i] && d[j] == s[j]);
            }
        }
        lemma_stable_sort_sorted(d);
        assert forall|i: int| 0 <= i < d.len() implies rule_spec(#[trigger] d[i]) >= rule_spec(
            s.last(),
        ) by {
            assert(d[i] == s[i]);
        }
        lemma_insert_pos_all(d, rule_spec(s.last()));
        assert(d.insert(d.len() as int, s.last()) =~= s);
    }
}

/// Adding a rule to rules in specificity order and re-sorting inserts it
/// after every rule at least as specific as it.
pub proof fn lemma_sort_after_push(s: Seq<FontRuleView>, r: FontRuleView)
    requires
        sorted_desc(s),
    ensures
        stable_sort(s.push(r)) == insert_sorted(s, r),
{
    lemma_stable_sort_sorted(s);
    assert(s.push(r).drop_last() =~= s);
}

proof fn lemma_filter_sorted(s: Seq<FontRuleView>, p: spec_fn(FontRuleView) -> bool)
    requires
        sorted_desc(s),
    ensures
        sorted_desc(s.filter(p)),
    decreases s.len(),
{
    reveal(Seq::filter);
    if s.len() > 0 {
        let d = s.drop_last();
        assert(sorted_desc(d)) by {
            assert forall|i: int, j: int| 0 <= i < j < d.len() implies rule_spec(#[trigger] d[i])
                >= rule_spec(#[trigger] d[j]) by {
                assert(d[i] == s[i] && d[j] == s[j]);
            }
        }
        lemma_filter_sorted(d, p);
        let f = d.filter(p);
        if p(s.last()) {
            assert forall|i: int| 0 <= i < f.len() implies rule_spec(#[trigger] f[i]) >= rule_spec(
                s.last(),
            ) by {
                d.lemma_filter_contains_rev(p, f[i]);
                assert(d.filter(p).contains(f[i]));
                let k = choose|k: int| 0 <= k < d.len() && d[k] == f[i];
                assert(s[k] == d[k]);
            }
            let t = f.push(s.last());
            assert forall|i: int, j: int| 0 <= i < j < t.len() implies rule_spec(#[trigger] t[i])
                >= rule_spec(#[trigger] t[j]) by {
                if j < f.len() {
                    assert(t[i] == f[i] && t[j] == f[j]);
                } else {
                    assert(t[i] == f[i]);
                }
            }
        }
    }
}

proof fn lemma_resolve_in(rules: Seq<FontRuleView>, scope: Seq<char>)
    ensures
        resolve_in(rules, scope) is None <==> forall|i: int|
            0 <= i < rules.len() ==> !scope_matches_spec(scope, #[trigger] rules[i].scope),
        resolve_in(rules, scope) matches Some(a) ==> exists|i: int|
            0 <= i < rules.len() && scope_matches_spec(scope, #[trigger] rules[i].scope) && a
                == assignment_for(scope, rules[i]) && forall|j: int|
                0 <= j < i ==> !scope_matches_spec(scope, #[trigger] rules[j].scope),
    decreases rules.len(),
{
    if rules.len() > 0 {
        let d = rules.drop_first();
        lemma_resolve_in(d, scope);
        if !scope_matches_spec(scope, rules[0].scope) {
            if resolve_in(d, scope) is None {
                assert forall|i: int| 0 <= i < rules.len() implies !scope_matches_spec(
                    scope,
                    #[trigger] rules[i].scope,
                ) by {
                    if i > 0 {
                        assert(rules[i] == d[i - 1]);
                    }
                }
            } else {
                let a = resolve_in(d, scope).unwrap();
                let i = choose|i: int|
                    0 <= i < d.len() && scope_matches_spec(scope, #[trigger] d[i].scope) && a
                        == assignment_for(scope, d[i]) && forall|j: int|
                        0 <= j < i ==> !scope_matches_spec(scope, #[trigger] d[j].scope);
                assert(rules[i + 1] == d[i]);
                assert forall|j: int| 0 <= j < i + 1 implies !scope_matches_spec(
                    scope,
                    #[trigger] rules[j].scope,
                ) by {
                    if j > 0 {
                        assert(rules[j] == d[j - 1]);
                    }
                }
                assert(!(forall|k: int|
                    0 <= k < rules.len() ==> !scope_matches_spec(scope, #[trigger] rules[k].scope)));
            }
        } else {
            assert(!(forall|k: int|
                0 <= k < rules.len() ==> !scope_matches_spec(scope, #[trigger] rules[k].scope)));
        }
    }
}

/// Over rules in specificity order, the resolved assignment comes from a
/// rule at least as specific as every rule whose scope matches.
pub proof fn lemma_resolve_most_specific(rules: Seq<FontRuleView>, scope: Seq<char>, i: int)
    requires
        sorted_desc(rules),
        0 <= i < rules.len(),
        scope_matches_spec(scope, rules[i].scope),
    ensures
        exists|k: int|
            0 <= k < rules.len() && resolve_in(rules, scope) == Some(
                assignment_for(scope, #[trigger] rules[k]),
            ) && rule_spec(rules[k]) >= rule_spec(rules[i]),
{
    lemma_resolve_in(rules, scope);
    let a = resolve_in(rules, scope).unwrap();
    let k = choose|k: int|
        0 <= k < rules.len() && scope_matches_spec(scope, #[trigger] rules[k].scope) && a
            == assignment_for(scope, rules[k]) && forall|j: int|
            0 <= j < k ==> !scope_matches_spec(scope, #[trigger] rules[j].scope);
    assert(k <= i);
    if k < i {
        assert(rule_spec(rules[k]) >= rule_spec(rules[i]));
    }
    assert(resolve_in(rules, scope) == Some(assignment_for(scope, rules[k])));
}

/// Whether `scope` matches `pattern` under hierarchical scope matching.
pub fn scope_matches_chars(scope: &[char], pattern: &[char]) -> (r: bool)
    ensures
        r == scope_matches_spec(scope@, pattern@),
{
    if pattern.len() == 1 && pattern[0] == '*' {
        assert(pattern@ =~= seq!['*']);
        return true;
    }
    assert(pattern@ != seq!['*']) by {
        if pattern@ == seq!['*'] {
            assert(pattern@.len() == 1 && pattern@[0] == '*');
        }
    }
    if chars_eq(scope, pattern) {
        return true;
    }
    scope.len() > pattern.len() && scope[pattern.len()] == '.' && starts_with(scope, pattern)
}

/// Number of leading rules at least as specific as `k`.
fn find_insert_pos(rules: &Vec<FontRule>, k: usize) -> (p: usize)
    ensures
        p == insert_pos(rules.deep_view(), k as nat),
        p <= rules@.len(),
{
    let ghost s = rules.deep_view();
    let mut i: usize = 0;
    assert(s.skip(0) =~= s);
    proof {
        lemma_insert_pos(s, k as nat);
    }
    while i < rules.len() && rules[i].specificity() >= k
        invariant
            i <= rules@.len(),
            s == rules.deep_view(),
            insert_pos(s, k as nat) == i + insert_pos(s.skip(i as int), k as nat),
        decreases rules.len() - i,
    {
        let ghost t = s.skip(i as int);
        assert(t.drop_first() =~= s.skip(i + 1));
        assert(t[0] == s[i as int]);
        i = i + 1;
    }
    if i < rules.len() {
        assert(s.skip(i as int)[0] == s[i as int]);
    }
    i
}

/// Core trait for scope-to-font resolution engines.
///
/// Implementations map token scopes to font assignments using an ordered set
/// of font rules, most specific first.
pub trait PolyfontEngine {
    /// Add a rule and re-sort by specificity.
    fn add_rule(&mut self, rule: FontRule);

    /// Remove all rules whose scope exactly matches `scope`.
    fn remove_rule(&mut self, scope: &str);

    /// The current rules in specificity order (most specific first).
    fn rules(&self) -> &[FontRule];

    /// Resolve a single token to a font assignment, or `None` when no rule's
    /// scope pattern matches the token.
    fn resolve_token(&self, token: &TokenInfo) -> Option<FontAssignment>;

    /// Resolve each token independently.
    fn resolve_all(&self, tokens: &[TokenInfo]) -> Vec<Option<FontAssignment>>;

    /// Remove all rules, leaving the engine empty.
    fn clear(&mut self);
}

/// Scope matching engine that resolves TextMate scopes to font assignments.
///
/// Rules are kept in descending specificity order, so the first matching rule
/// during resolution is always the most specific one.
pub struct ScopeMatchEngine {
    rules: Vec<FontRule>,
}

impl View for ScopeMatchEngine {
    type V = Seq<FontRuleView>;

    closed spec fn view(&self) -> Seq<FontRuleView> {
        self.rules.deep_view()
    }
}

impl ScopeMatchEngine {
    #[verifier::type_invariant]
    spec fn sorted(self) -> bool {
        sorted_desc(self.rules.deep_view())
    }

    /// An engine with no rules.
    pub fn new() -> (r: Self)
        ensures
            r@ == Seq::<FontRuleView>::empty(),
    {
        let r = ScopeMatchEngine { rules: Vec::new() };
        assert(r@ =~= Seq::<FontRuleView>::empty());
        r
    }

    /// An engine holding `rules`, stably sorted by descending specificity.
    pub fn from_rules(rules: Vec<FontRule>) -> (r: Self)
        ensures
            r@ == stable_sort(rules.deep_view()),
    {
        let ghost src = rules.deep_view();
        let mut out: Vec<FontRule> = Vec::new();
        let mut i: usize = 0;
        assert(src.take(0) =~= Seq::<FontRuleView>::empty());
        while i < rules.len()
            invariant
                i <= rules@.len(),
                src == rules.deep_view(),
                out.deep_view() == stable_sort(src.take(i as int)),
                sorted_desc(out.deep_view()),
            decreases rules.len() - i,
        {
            let rule = rules[i].clone();
            let p = find_insert_pos(&out, rule.specificity());
            proof {
                assert(src.take(i + 1).drop_last() =~= src.take(i as int));
                lemma_insert_sorted(out.deep_view(), rule@);
            }
            let ghost prev = out.deep_view();
            out.insert(p, rule);
            assert(out.deep_view() =~= insert_sorted(prev, src[i as int]));
            i = i + 1;
        }
        assert(src.take(src.len() as int) =~= src);
        ScopeMatchEngine { rules: out }
    }

    /// Check if `scope` matches `pattern`.
    ///
    /// A `"*"` pattern matches any scope. Otherwise the pattern matches when it
    /// is either identical to `scope` or is a prefix followed by a `.`
    /// separator (hierarchical TextMate scope matching).
    pub fn scope_matches(scope: &str, pattern: &str) -> (r: bool)
        ensures
            r == scope_matches_spec(scope@, pattern@),
    {
        let s = chars_of(scope);
        let p = chars_of(pattern);
        scope_matches_chars(s.as_slice(), p.as_slice())
    }

    /// The rules, in specificity order.
    pub fn rule_list(&self) -> (r: &[FontRule])
        ensures
            r@.len() == self@.len(),
            forall|i: int| 0 <= i < self@.len() ==> #[trigger] r@[i]@ == self@[i],
            sorted_desc(self@),
    {
        proof {
            use_type_invariant(self);
        }
        self.rules.as_slice()
    }
}

impl PolyfontEngine for ScopeMatchEngine {
    fn add_rule(&mut self, rule: FontRule)
        ensures
            final(self)@ == stable_sort(old(self)@.push(rule@)),
            sorted_desc(final(self)@),
    {
        proof {
            use_type_invariant(&*self);
        }
        let mut rules: Vec<FontRule> = Vec::new();
        std::mem::swap(&mut rules, &mut self.rules);
        let p = find_insert_pos(&rules, rule.specificity());
        proof {
            lemma_insert_sorted(rules.deep_view(), rule@);
            lemma_sort_after_push(rules.deep_view(), rule@);
        }
        let ghost prev = rules.deep_view();
        let ghost rv = rule@;
        rules.insert(p, rule);
        assert(rules.deep_view() =~= insert_sorted(prev, rv));
        self.rules = rules;
    }

    fn remove_rule(&mut self, scope: &str)
        ensures
            final(self)@ == old(self)@.filter(scope_is_not(scope@)),
            sorted_desc(final(self)@),
    {
        proof {
            use_type_invariant(&*self);
        }
        let ghost s = self.rules.deep_view();
        let ghost keep = scope_is_not(scope@);
        let mut kept: Vec<FontRule> = Vec::new();
        let mut i: usize = 0;
        assert(s.take(0).filter(keep) =~= Seq::<FontRuleView>::empty()) by {
            reveal(Seq::filter);
        }
        while i < self.rules.len()
            invariant
                i <= self.rules@.len(),
                s == self.rules.deep_view(),
                keep == scope_is_not(scope@),
                kept.deep_view() == s.take(i as int).filter(keep),
            decreases self.rules.len() - i,
        {
            let ghost prev = kept.deep_view();
            assert(s.take(i + 1).drop_last() =~= s.take(i as int));
            assert(s.take(i + 1).filter(keep) == if keep(s[i as int]) {
                prev.push(s[i as int])
            } else {
                prev
            }) by {
                reveal(Seq::filter);
            }
            if !crate::text::str_eq(self.rules[i].scope.as_str(), scope) {
                let r = self.rules[i].clone();
                kept.push(r);
                assert(kept.deep_view() =~= prev.push(s[i as int]));
            }
            i = i + 1;
        }
        assert(s.take(s.len() as int) =~= s);
        proof {
            lemma_filter_sorted(s, keep);
        }
        self.rules = kept;
    }

    fn rules(&self) -> (r: &[FontRule])
        ensures
            r@.len() == self@.len(),
            forall|i: int| 0 <= i < self@.len() ==> #[trigger] r@[i]@ == self@[i],
            sorted_desc(self@),
    {
        self.rule_list()
    }

    fn resolve_token(&self, token: &TokenInfo) -> (r: Option<FontAssignment>)
        ensures
            r.deep_view() == resolve_in(self@, token.scope@),
            r is None <==> forall|i: int|
                0 <= i < self@.len() ==> !scope_matches_spec(token.scope@, #[trigger] self@[i].scope),
            forall|i: int|
                0 <= i < self@.len() && scope_matches_spec(token.scope@, #[trigger] self@[i].scope)
                    ==> (r matches Some(a) && rule_spec(self@[i]) <= a.specificity),
    {
        proof {
            use_type_invariant(self);
            lemma_resolve_in(self@, token.scope@);
        }
        let ghost s = self.rules.deep_view();
        let scope = chars_of(token.scope.as_str());
        assert(s == self@);
        let mut i: usize = 0;
        assert(s.skip(0) =~= s);
        while i < self.rules.len()
            invariant
                i <= self.rules@.len(),
                s == self.rules.deep_view(),
                s == self@,
                sorted_desc(s),
                scope@ == token.scope@,
                resolve_in(s, scope@) == resolve_in(s.skip(i as int), scope@),
                forall|j: int| 0 <= j < i ==> !scope_matches_spec(scope@, #[trigger] s[j].scope),
            decreases self.rules.len() - i,
        {
            let pat = chars_of(self.rules[i].scope.as_str());
            let ghost t = s.skip(i as int);
            assert(t[0] == s[i as int]);
            if scope_matches_chars(scope.as_slice(), pat.as_slice()) {
                let spec_count = self.rules[i].specificity();
                let a = FontAssignment {
                    scope: token.scope.clone(),
                    font: self.rules[i].font.clone(),
                    specificity: spec_count,
                    is_active: true,
                };
                proof {
                    assert forall|j: int|
                        0 <= j < s.len() && scope_matches_spec(token.scope@, #[trigger] s[j].scope)
                            implies rule_spec(s[j]) <= spec_count by {
                        if j > i {
                            assert(rule_spec(s[i as int]) >= rule_spec(s[j]));
                        }
                    }
                }
                return Some(a);
            }
            assert(t.drop_first() =~= s.skip(i + 1));
            i = i + 1;
        }
        assert(s.skip(i as int).len() == 0);
        None
    }

    fn resolve_all(&self, tokens: &[TokenInfo]) -> (r: Vec<Option<FontAssignment>>)
        ensures
            r@.len() == tokens@.len(),
            forall|i: int|
                0 <= i < tokens@.len() ==> #[trigger] r@[i].deep_view() == resolve_in(
                    self@,
                    tokens@[i].scope@,
                ),
    {
        let mut out: Vec<Option<FontAssignment>> = Vec::new();
        let mut i: usize = 0;
        while i < tokens.len()
            invariant
                i <= tokens@.len(),
                out@.len() == i,
                forall|j: int|
                    0 <= j < i ==> #[trigger] out@[j].deep_view() == resolve_in(
                        self@,
                        tokens@[j].scope@,
                    ),
            decreases tokens.len() - i,
        {
            let a = self.resolve_token(&tokens[i]);
            out.push(a);
            i = i + 1;
        }
        out
    }

    fn clear(&mut self)
        ensures
            final(self)@ == Seq::<FontRuleView>::empty(),
    {
        self.rules = Vec::new();
        assert(self.rules.deep_view() =~= Seq::<FontRuleView>::empty());
    }
}

} // verus!
