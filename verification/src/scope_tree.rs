//! A set of dotted scope names, kept in hierarchical (depth-first) order.
//!
//! A scope such as `entity.name.function` is stored as its path of segments
//! `["entity", "name", "function"]`.  The tree holds each stored path once,
//! ordered lexicographically segment by segment, with a path before every
//! path that extends it; that is the order in which a depth-first walk of a
//! trie with ordered children visits its terminal nodes.
use vstd::prelude::*;

use crate::text::{chars_eq, chars_of, copy_chars, join_s, split, split_s, string_of};

verus! {

broadcast use crate::lemma_chars_deep_view;

/// Code-point lexicographic order on strings.  This is the order of
/// `String`'s `Ord`: UTF-8 byte order and code-point order agree.
pub open spec fn str_lt(a: Seq<char>, b: Seq<char>) -> bool
    decreases a.len(),
{
    if a.len() == 0 {
        b.len() > 0
    } else if b.len() == 0 {
        false
    } else if a[0] != b[0] {
        a[0] < b[0]
    } else {
        str_lt(a.drop_first(), b.drop_first())
    }
}

/// Lexicographic order on segment paths, segments compared by [`str_lt`];
/// a path comes before each of its proper extensions.
pub open spec fn path_lt(a: Seq<Seq<char>>, b: Seq<Seq<char>>) -> bool
    decreases a.len(),
{
    if a.len() == 0 {
        b.len() > 0
    } else if b.len() == 0 {
        false
    } else if a[0] != b[0] {
        str_lt(a[0], b[0])
    } else {
        path_lt(a.drop_first(), b.drop_first())
    }
}

/// The segments of a dotted scope name.
pub open spec fn scope_path(s: Seq<char>) -> Seq<Seq<char>> {
    split_s(s, '.')
}

/// Whether `q` is a prefix of the path `p`.
pub open spec fn path_has_prefix(p: Seq<Seq<char>>, q: Seq<Seq<char>>) -> bool {
    q.len() <= p.len() && p.take(q.len() as int) == q
}

/// The predicate "has the prefix `q`".
pub open spec fn has_prefix_fn(q: Seq<Seq<char>>) -> spec_fn(Seq<Seq<char>>) -> bool {
    |p: Seq<Seq<char>>| path_has_prefix(p, q)
}

/// Strictly increasing in [`path_lt`]: sorted, with no path twice.
pub open spec fn sorted_paths(s: Seq<Seq<Seq<char>>>) -> bool {
    forall|i: int, j: int| 0 <= i < j < s.len() ==> path_lt(#[trigger] s[i], #[trigger] s[j])
}

/// One step down a path when spelling it: the first segment is written as
/// it is, each later one after a dot.
pub open spec fn join_step(cur: Seq<char>, seg: Seq<char>) -> Seq<char> {
    if cur.len() == 0 {
        seg
    } else {
        cur + seq!['.'] + seg
    }
}

/// `cur` extended by each of `segs` in turn with [`join_step`].
pub open spec fn join_from(cur: Seq<char>, segs: Seq<Seq<char>>) -> Seq<char>
    decreases segs.len(),
{
    if segs.len() == 0 {
        cur
    } else {
        join_from(join_step(cur, segs[0]), segs.drop_first())
    }
}

/// How a stored path below the prefix `prefix` (of `k` segments) is spelled
/// in the answer to a prefix query.
pub open spec fn spell_fn(prefix: Seq<char>, k: int) -> spec_fn(Seq<Seq<char>>) -> Seq<char> {
    |p: Seq<Seq<char>>| join_from(prefix, p.skip(k))
}

/// [`str_lt`] is irreflexive.
pub proof fn lemma_str_lt_irreflexive(a: Seq<char>)
    ensures
        !str_lt(a, a),
    decreases a.len(),
{
    if a.len() > 0 {
        lemma_str_lt_irreflexive(a.drop_first());
    }
}

/// [`str_lt`] is transitive.
pub proof fn lemma_str_lt_transitive(a: Seq<char>, b: Seq<char>, c: Seq<char>)
    requires
        str_lt(a, b),
        str_lt(b, c),
    ensures
        str_lt(a, c),
    decreases a.len(),
{
    if a.len() > 0 && b.len() > 0 && c.len() > 0 && a[0] == b[0] && b[0] == c[0] {
        lemma_str_lt_transitive(a.drop_first(), b.drop_first(), c.drop_first());
    }
}

/// Two different strings are ordered one way or the other.
pub proof fn lemma_str_lt_total(a: Seq<char>, b: Seq<char>)
    requires
        a != b,
    ensures
        str_lt(a, b) || str_lt(b, a),
    decreases a.len(),
{
    if a.len() == 0 && b.len() == 0 {
        assert(a =~= b);
    } else if a.len() > 0 && b.len() > 0 && a[0] == b[0] {
        if a.drop_first() == b.drop_first() {
            assert(a.drop_first().len() == b.drop_first().len());
            assert(a.len() == b.len());
            assert forall|i: int| 0 <= i < a.len() implies a[i] == b[i] by {
                if i > 0 {
                    assert(a[i] == a.drop_first()[i - 1]);
                    assert(b[i] == b.drop_first()[i - 1]);
                }
            }
            assert(a =~= b);
        }
        lemma_str_lt_total(a.drop_first(), b.drop_first());
    }
}

/// [`path_lt`] is irreflexive.
pub proof fn lemma_path_lt_irreflexive(a: Seq<Seq<char>>)
    ensures
        !path_lt(a, a),
    decreases a.len(),
{
    if a.len() > 0 {
        lemma_path_lt_irreflexive(a.drop_first());
    }
}

/// [`path_lt`] is transitive.
pub proof fn lemma_path_lt_transitive(a: Seq<Seq<char>>, b: Seq<Seq<char>>, c: Seq<Seq<char>>)
    requires
        path_lt(a, b),
        path_lt(b, c),
    ensures
        path_lt(a, c),
    decreases a.len(),
{
    if a.len() > 0 && b.len() > 0 && c.len() > 0 {
        if a[0] == b[0] && b[0] == c[0] {
            lemma_path_lt_transitive(a.drop_first(), b.drop_first(), c.drop_first());
        } else if a[0] != b[0] && b[0] != c[0] {
            lemma_str_lt_transitive(a[0], b[0], c[0]);
            if a[0] == c[0] {
                lemma_str_lt_irreflexive(a[0]);
            }
        }
    }
}

/// Two different paths are ordered one way or the other.
pub proof fn lemma_path_lt_total(a: Seq<Seq<char>>, b: Seq<Seq<char>>)
    requires
        a != b,
    ensures
        path_lt(a, b) || path_lt(b, a),
    decreases a.len(),
{
    if a.len() == 0 && b.len() == 0 {
        assert(a =~= b);
    } else if a.len() > 0 && b.len() > 0 {
        if a[0] == b[0] {
            if a.drop_first() == b.drop_first() {
                assert(a.drop_first().len() == b.drop_first().len());
                assert(a.len() == b.len());
                assert forall|i: int| 0 <= i < a.len() implies a[i] == b[i] by {
                    if i > 0 {
                        assert(a[i] == a.drop_first()[i - 1]);
                        assert(b[i] == b.drop_first()[i - 1]);
                    }
                }
                assert(a =~= b);
            }
            lemma_path_lt_total(a.drop_first(), b.drop_first());
        } else {
            lemma_str_lt_total(a[0], b[0]);
        }
    }
}

/// Whether `a` comes before `b` in code-point order.
pub fn str_less(a: &[char], b: &[char]) -> (r: bool)
    ensures
        r == str_lt(a@, b@),
{
    let mut i: usize = 0;
    assert(a@.skip(0) =~= a@);
    assert(b@.skip(0) =~= b@);
    while i < a.len() && i < b.len() && a[i] == b[i]
        invariant
            i <= a@.len(),
            i <= b@.len(),
            str_lt(a@, b@) == str_lt(a@.skip(i as int), b@.skip(i as int)),
        decreases a.len() - i,
    {
        assert(a@.skip(i as int).drop_first() =~= a@.skip(i + 1));
        assert(b@.skip(i as int).drop_first() =~= b@.skip(i + 1));
        i = i + 1;
    }
    if i == a.len() {
        i < b.len()
    } else if i == b.len() {
        false
    } else {
        assert(a@.skip(i as int)[0] == a@[i as int]);
        assert(b@.skip(i as int)[0] == b@[i as int]);
        a[i] < b[i]
    }
}

/// Whether the path `a` comes before the path `b`.
fn path_less(a: &Vec<Vec<char>>, b: &Vec<Vec<char>>) -> (r: bool)
    ensures
        r == path_lt(a.deep_view(), b.deep_view()),
{
    let ghost av = a.deep_view();
    let ghost bv = b.deep_view();
    let mut i: usize = 0;
    assert(av.skip(0) =~= av);
    assert(bv.skip(0) =~= bv);
    while i < a.len() && i < b.len() && chars_eq(&a[i], &b[i])
        invariant
            av == a.deep_view(),
            bv == b.deep_view(),
            i <= av.len(),
            i <= bv.len(),
            path_lt(av, bv) == path_lt(av.skip(i as int), bv.skip(i as int)),
        decreases a.len() - i,
    {
        assert(av.skip(i as int).drop_first() =~= av.skip(i + 1));
        assert(bv.skip(i as int).drop_first() =~= bv.skip(i + 1));
        i = i + 1;
    }
    if i == a.len() {
        i < b.len()
    } else if i == b.len() {
        false
    } else {
        assert(av.skip(i as int)[0] == a@[i as int]@);
        assert(bv.skip(i as int)[0] == b@[i as int]@);
        str_less(&a[i], &b[i])
    }
}

/// Whether two paths are equal.
fn path_eq(a: &Vec<Vec<char>>, b: &Vec<Vec<char>>) -> (r: bool)
    ensures
        r == (a.deep_view() == b.deep_view()),
{
    if a.len() != b.len() {
        assert(a.deep_view().len() != b.deep_view().len());
        return false;
    }
    let mut i: usize = 0;
    while i < a.len()
        invariant
            a@.len() == b@.len(),
            i <= a@.len(),
            forall|j: int| 0 <= j < i ==> a.deep_view()[j] == b.deep_view()[j],
        decreases a.len() - i,
    {
        if !chars_eq(&a[i], &b[i]) {
            assert(a.deep_view()[i as int] != b.deep_view()[i as int]);
            return false;
        }
        i = i + 1;
    }
    assert(a.deep_view() =~= b.deep_view());
    true
}

/// Whether the path `p` starts with the path `q`.
fn path_starts_with(p: &Vec<Vec<char>>, q: &Vec<Vec<char>>) -> (r: bool)
    ensures
        r == path_has_prefix(p.deep_view(), q.deep_view()),
{
    if q.len() > p.len() {
        return false;
    }
    let ghost pv = p.deep_view();
    let ghost qv = q.deep_view();
    let mut i: usize = 0;
    while i < q.len()
        invariant
            pv == p.deep_view(),
            qv == q.deep_view(),
            q@.len() <= p@.len(),
            i <= q@.len(),
            forall|j: int| 0 <= j < i ==> pv[j] == qv[j],
        decreases q.len() - i,
    {
        if !chars_eq(&p[i], &q[i]) {
            assert(pv.take(qv.len() as int)[i as int] != qv[i as int]);
            return false;
        }
        i = i + 1;
    }
    assert(pv.take(qv.len() as int) =~= qv);
    true
}

/// A scope stored in a [`ScopeTree`]: its dot-separated segments.
pub struct ScopeTreeNode {
    segments: Vec<Vec<char>>,
}

impl View for ScopeTreeNode {
    type V = Seq<Seq<char>>;

    closed spec fn view(&self) -> Seq<Seq<char>> {
        self.segments.deep_view()
    }
}

impl DeepView for ScopeTreeNode {
    type V = Seq<Seq<char>>;

    open spec fn deep_view(&self) -> Seq<Seq<char>> {
        self@
    }
}

/// The paths of a list of scopes, in order.
pub open spec fn scope_paths(scopes: Seq<Seq<char>>) -> Seq<Seq<Seq<char>>> {
    scopes.map_values(|sc: Seq<char>| scope_path(sc))
}

/// Whether the stored paths `v` are exactly those of `scopes`, each once and
/// sorted: what a new tree holds after inserting `scopes` in turn (see
/// [`lemma_insert_holds`]).
pub open spec fn holds_scopes(v: Seq<Seq<Seq<char>>>, scopes: Seq<Seq<char>>) -> bool {
    sorted_paths(v) && v.to_set() == scope_paths(scopes).to_set()
}

/// A new tree holds no scopes, and inserting a scope into a tree that holds
/// `scopes` gives one that holds `scopes` and the new scope.
pub proof fn lemma_insert_holds(
    before: Seq<Seq<Seq<char>>>,
    after: Seq<Seq<Seq<char>>>,
    scopes: Seq<Seq<char>>,
    scope: Seq<char>,
)
    requires
        holds_scopes(before, scopes),
        sorted_paths(after),
        after.to_set() == before.to_set().insert(scope_path(scope)),
    ensures
        holds_scopes(Seq::empty(), Seq::empty()),
        holds_scopes(after, scopes.push(scope)),
{
    broadcast use vstd::seq_lib::group_seq_properties;

    assert(Seq::<Seq<Seq<char>>>::empty().to_set() =~= Set::empty());
    assert(scope_paths(Seq::<Seq<char>>::empty()).to_set() =~= Set::empty());
    assert(scope_paths(scopes.push(scope)) =~= scope_paths(scopes).push(scope_path(scope)));
    scope_paths(scopes).lemma_push_to_set_commute(scope_path(scope));
}

/// Filtering sorted paths keeps them sorted.
proof fn lemma_filter_sorted_paths(v: Seq<Seq<Seq<char>>>, f: spec_fn(Seq<Seq<char>>) -> bool)
    requires
        sorted_paths(v),
    ensures
        sorted_paths(v.filter(f)),
    decreases v.len(),
{
    reveal(Seq::filter);
    if v.len() > 0 {
        let d = v.drop_last();
        assert(sorted_paths(d)) by {
            assert forall|i: int, j: int| 0 <= i < j < d.len() implies path_lt(#[trigger] d[i], #[trigger] d[j]) by {
                assert(d[i] == v[i] && d[j] == v[j]);
            }
        }
        lemma_filter_sorted_paths(d, f);
        let g = d.filter(f);
        if f(v.last()) {
            assert forall|i: int| 0 <= i < g.len() implies path_lt(#[trigger] g[i], v.last()) by {
                d.lemma_filter_contains_rev(f, g[i]);
                assert(d.filter(f).contains(g[i]));
                let k = choose|k: int| 0 <= k < d.len() && d[k] == g[i];
                assert(v[k] == d[k]);
            }
            let t = g.push(v.last());
            assert forall|i: int, j: int| 0 <= i < j < t.len() implies path_lt(#[trigger] t[i], #[trigger] t[j]) by {
                if j < g.len() {
                    assert(t[i] == g[i] && t[j] == g[j]);
                } else {
                    assert(t[i] == g[i]);
                }
            }
            assert(v.filter(f) == t);
        } else {
            assert(v.filter(f) == g);
        }
    }
}

/// What a tree holding `scopes` answers: its length is the number of
/// different scopes inserted; it has a scope under the prefix path `q`
/// exactly when one of the inserted scopes is under it; and the stored
/// paths under `q` (those a prefix query spells out) are exactly the
/// inserted ones under `q`, each once, in sorted order.
pub proof fn lemma_tree_of_scopes(v: Seq<Seq<Seq<char>>>, scopes: Seq<Seq<char>>, q: Seq<Seq<char>>)
    requires
        holds_scopes(v, scopes),
    ensures
        v.len() == scopes.to_set().len(),
        (exists|i: int| 0 <= i < v.len() && path_has_prefix(#[trigger] v[i], q)) <==> (exists|j: int|
            0 <= j < scopes.len() && path_has_prefix(scope_path(#[trigger] scopes[j]), q)),
        sorted_paths(v.filter(has_prefix_fn(q))),
        forall|p: Seq<Seq<char>>|
            #[trigger] v.filter(has_prefix_fn(q)).contains(p) <==> (path_has_prefix(p, q) && exists|j: int|
                0 <= j < scopes.len() && p == scope_path(#[trigger] scopes[j])),
{
    broadcast use vstd::seq_lib::group_seq_properties;
    broadcast use vstd::set::group_set_axioms;

    let sp = scope_paths(scopes);
    assert(v.no_duplicates()) by {
        assert forall|i: int, j: int| 0 <= i < v.len() && 0 <= j < v.len() && i != j implies v[i] != v[j] by {
            if v[i] == v[j] {
                lemma_path_lt_irreflexive(v[i]);
                if i < j {
                    assert(path_lt(v[i], v[j]));
                } else {
                    assert(path_lt(v[j], v[i]));
                }
            }
        }
    }
    v.unique_seq_to_set();
    let f = |sc: Seq<char>| scope_path(sc);
    scopes.lemma_to_set_map_commutes(f);
    assert(sp == scopes.map_values(f));
    assert(vstd::relations::injective_on(f, scopes.to_set())) by {
        assert forall|a: Seq<char>, b: Seq<char>|
            scopes.to_set().contains(a) && scopes.to_set().contains(b) && #[trigger] f(a) == #[trigger] f(b) implies a == b by {
            crate::text::lemma_split_injective(a, b, '.');
        }
    }
    vstd::set_lib::lemma_map_size(scopes.to_set(), sp.to_set(), f);
    assert forall|p: Seq<Seq<char>>| v.contains(p) <==> (exists|j: int| 0 <= j < scopes.len() && p == scope_path(#[trigger] scopes[j])) by {
        assert(v.to_set().contains(p) == v.contains(p));
        assert(sp.to_set().contains(p) == sp.contains(p));
        if sp.contains(p) {
            let k = choose|k: int| 0 <= k < sp.len() && sp[k] == p;
            assert(p == scope_path(scopes[k]));
        }
        if exists|j: int| 0 <= j < scopes.len() && p == scope_path(#[trigger] scopes[j]) {
            let j = choose|j: int| 0 <= j < scopes.len() && p == scope_path(#[trigger] scopes[j]);
            assert(sp[j] == p);
        }
    }
    if exists|i: int| 0 <= i < v.len() && path_has_prefix(#[trigger] v[i], q) {
        let i = choose|i: int| 0 <= i < v.len() && path_has_prefix(#[trigger] v[i], q);
        assert(v.contains(v[i]));
        let j = choose|j: int| 0 <= j < scopes.len() && v[i] == scope_path(#[trigger] scopes[j]);
        assert(path_has_prefix(scope_path(scopes[j]), q));
    }
    if exists|j: int| 0 <= j < scopes.len() && path_has_prefix(scope_path(#[trigger] scopes[j]), q) {
        let j = choose|j: int| 0 <= j < scopes.len() && path_has_prefix(scope_path(#[trigger] scopes[j]), q);
        assert(v.contains(scope_path(scopes[j])));
        let i = choose|i: int| 0 <= i < v.len() && v[i] == scope_path(scopes[j]);
        assert(path_has_prefix(v[i], q));
    }
    lemma_filter_sorted_paths(v, has_prefix_fn(q));
    assert forall|p: Seq<Seq<char>>|
        #[trigger] v.filter(has_prefix_fn(q)).contains(p) <==> (path_has_prefix(p, q) && exists|j: int|
            0 <= j < scopes.len() && p == scope_path(#[trigger] scopes[j])) by {
        if v.filter(has_prefix_fn(q)).contains(p) {
            v.lemma_filter_contains_rev(has_prefix_fn(q), p);
            let k = choose|k: int| 0 <= k < v.filter(has_prefix_fn(q)).len() && v.filter(has_prefix_fn(q))[k] == p;
            assert(has_prefix_fn(q)(v.filter(has_prefix_fn(q))[k]));
        }
        if path_has_prefix(p, q) && v.contains(p) {
            let i = choose|i: int| 0 <= i < v.len() && v[i] == p;
            v.lemma_filter_contains(has_prefix_fn(q), i);
        }
    }
}

/// The segments `segs`, each written after a dot.
pub open spec fn dot_tail(segs: Seq<Seq<char>>) -> Seq<char>
    decreases segs.len(),
{
    if segs.len() == 0 {
        Seq::empty()
    } else {
        dot_tail(segs.drop_last()) + seq!['.'] + segs.last()
    }
}

/// [`dot_tail`] unfolds from the front too.
proof fn lemma_dot_tail_front(segs: Seq<Seq<char>>)
    requires
        segs.len() > 0,
    ensures
        dot_tail(segs) == seq!['.'] + segs[0] + dot_tail(segs.drop_first()),
    decreases segs.len(),
{
    if segs.len() > 1 {
        let d = segs.drop_last();
        lemma_dot_tail_front(d);
        assert(d.drop_first() =~= segs.drop_first().drop_last());
        assert(segs.drop_first().last() == segs.last());
        assert(d[0] == segs[0]);
    } else {
        assert(segs.drop_last() =~= Seq::<Seq<char>>::empty());
        assert(segs.drop_first() =~= Seq::<Seq<char>>::empty());
    }
}

/// Spelling from a non-empty start writes each segment after a dot.
proof fn lemma_join_from_nonempty(cur: Seq<char>, segs: Seq<Seq<char>>)
    requires
        cur.len() > 0,
    ensures
        join_from(cur, segs) == cur + dot_tail(segs),
    decreases segs.len(),
{
    if segs.len() == 0 {
        assert(cur + dot_tail(segs) =~= cur);
    } else {
        lemma_join_from_nonempty(join_step(cur, segs[0]), segs.drop_first());
        lemma_dot_tail_front(segs);
        assert(join_step(cur, segs[0]) + dot_tail(segs.drop_first()) =~= cur + (seq!['.'] + segs[0]
            + dot_tail(segs.drop_first())));
    }
}

/// Joining with dots a non-empty path followed by more segments.
proof fn lemma_join_append(a: Seq<Seq<char>>, b: Seq<Seq<char>>)
    requires
        a.len() > 0,
    ensures
        join_s(a + b, seq!['.']) == join_s(a, seq!['.']) + dot_tail(b),
    decreases b.len(),
{
    if b.len() == 0 {
        assert(a + b =~= a);
        assert(join_s(a, seq!['.']) + dot_tail(b) =~= join_s(a, seq!['.']));
    } else {
        lemma_join_append(a, b.drop_last());
        assert((a + b).drop_last() =~= a + b.drop_last());
        assert((a + b).last() == b.last());
        assert(join_s(a, seq!['.']) + dot_tail(b.drop_last()) + seq!['.'] + b.last() =~= join_s(
            a,
            seq!['.'],
        ) + dot_tail(b));
    }
}

/// A scope at or below a non-empty prefix is spelled, in the answer to a
/// prefix query, as the scope itself.
proof fn lemma_spell_scope(prefix: Seq<char>, s: Seq<char>)
    requires
        prefix.len() > 0,
        path_has_prefix(scope_path(s), scope_path(prefix)),
    ensures
        spell_fn(prefix, scope_path(prefix).len() as int)(scope_path(s)) == s,
{
    let p = scope_path(s);
    let q = scope_path(prefix);
    let k = q.len() as int;
    crate::text::lemma_split_nonempty(prefix, '.');
    crate::text::lemma_join_split(s, '.');
    crate::text::lemma_join_split(prefix, '.');
    assert(p =~= q + p.skip(k));
    lemma_join_append(q, p.skip(k));
    lemma_join_from_nonempty(prefix, p.skip(k));
}

/// What a prefix query on a tree into which `scopes` were inserted answers:
/// exactly the inserted scopes at or below `prefix`, each once, in
/// hierarchical order (segment by segment, a scope before those below it).
pub open spec fn prefix_answer(r: Seq<Seq<char>>, scopes: Seq<Seq<char>>, prefix: Seq<char>) -> bool {
    &&& forall|x: Seq<char>|
        #![trigger r.contains(x)]
        #![trigger scopes.contains(x)]
        r.contains(x) <==> (scopes.contains(x) && path_has_prefix(scope_path(x), scope_path(prefix)))
    &&& r.no_duplicates()
    &&& forall|i: int, j: int|
        0 <= i < j < r.len() ==> path_lt(scope_path(#[trigger] r[i]), scope_path(#[trigger] r[j]))
}

/// The answer that a prefix query spells out from stored paths holding
/// `scopes`, for a non-empty prefix, is [`prefix_answer`].
pub proof fn lemma_prefix_answer(v: Seq<Seq<Seq<char>>>, scopes: Seq<Seq<char>>, prefix: Seq<char>)
    requires
        holds_scopes(v, scopes),
        prefix.len() > 0,
    ensures
        prefix_answer(
            v.filter(has_prefix_fn(scope_path(prefix))).map_values(
                spell_fn(prefix, scope_path(prefix).len() as int),
            ),
            scopes,
            prefix,
        ),
{
    let q = scope_path(prefix);
    let f = v.filter(has_prefix_fn(q));
    let spell = spell_fn(prefix, q.len() as int);
    let r = f.map_values(spell);
    lemma_tree_of_scopes(v, scopes, q);
    assert forall|i: int| 0 <= i < r.len() implies scopes.contains(#[trigger] r[i]) && scope_path(r[i]) == f[i]
        && path_has_prefix(f[i], q) by {
        assert(f.contains(f[i]));
        let j = choose|j: int| 0 <= j < scopes.len() && f[i] == scope_path(#[trigger] scopes[j]);
        lemma_spell_scope(prefix, scopes[j]);
        assert(r[i] == scopes[j]);
    }
    assert forall|x: Seq<char>|
        #![trigger r.contains(x)]
        #![trigger scopes.contains(x)]
        r.contains(x) <==> (scopes.contains(x) && path_has_prefix(scope_path(x), q)) by {
        if r.contains(x) {
            let i = choose|i: int| 0 <= i < r.len() && r[i] == x;
            assert(scopes.contains(r[i]));
        }
        if scopes.contains(x) && path_has_prefix(scope_path(x), q) {
            let j = choose|j: int| 0 <= j < scopes.len() && scopes[j] == x;
            assert(f.contains(scope_path(scopes[j])));
            let i = choose|i: int| 0 <= i < f.len() && f[i] == scope_path(x);
            lemma_spell_scope(prefix, x);
            assert(r[i] == x);
        }
    }
    assert forall|i: int, j: int| 0 <= i < j < r.len() implies path_lt(
        scope_path(#[trigger] r[i]),
        scope_path(#[trigger] r[j]),
    ) by {
        assert(scope_path(r[i]) == f[i] && scope_path(r[j]) == f[j]);
    }
    assert forall|i: int, j: int| 0 <= i < r.len() && 0 <= j < r.len() && i != j implies r[i] != r[j] by {
        assert(scope_path(r[i]) == f[i] && scope_path(r[j]) == f[j]);
        lemma_path_lt_irreflexive(f[i]);
        if i < j {
            assert(path_lt(f[i], f[j]));
        } else {
            assert(path_lt(f[j], f[i]));
        }
    }
}

/// Hierarchical set of scope names supporting exact and prefix queries.
///
/// Its view is the sequence of stored paths, strictly increasing in
/// [`path_lt`], so every stored scope appears exactly once.
pub struct ScopeTree {
    nodes: Vec<ScopeTreeNode>,
    inserted: Ghost<Seq<Seq<char>>>,
}

impl View for ScopeTree {
    type V = Seq<Seq<Seq<char>>>;

    closed spec fn view(&self) -> Seq<Seq<Seq<char>>> {
        self.nodes.deep_view()
    }
}

impl ScopeTree {
    #[verifier::type_invariant]
    spec fn well_ordered(self) -> bool {
        holds_scopes(self.nodes.deep_view(), self.inserted@)
    }

    /// The scopes inserted into this tree so far, in order of insertion.
    pub closed spec fn scopes(&self) -> Seq<Seq<char>> {
        self.inserted@
    }

    /// An empty tree.
    pub fn new() -> (r: Self)
        ensures
            r@ == Seq::<Seq<Seq<char>>>::empty(),
            sorted_paths(r@),
            r.scopes() == Seq::<Seq<char>>::empty(),
    {
        assert(Seq::<Seq<Seq<char>>>::empty().to_set() =~= scope_paths(Seq::<Seq<char>>::empty()).to_set());
        let nodes: Vec<ScopeTreeNode> = Vec::new();
        assert(nodes.deep_view() =~= Seq::<Seq<Seq<char>>>::empty());
        let r = ScopeTree { nodes, inserted: Ghost(Seq::empty()) };
        assert(r@ =~= Seq::<Seq<Seq<char>>>::empty());
        r
    }

    /// Add the scope `scope`; adding a scope that is already there changes
    /// nothing.
    pub fn insert(&mut self, scope: &str)
        ensures
            final(self)@.to_set() == old(self)@.to_set().insert(scope_path(scope@)),
            sorted_paths(final(self)@),
            old(self)@.contains(scope_path(scope@)) ==> final(self)@ == old(self)@,
            !old(self)@.contains(scope_path(scope@)) ==> final(self)@.len() == old(self)@.len() + 1,
            final(self).scopes() == old(self).scopes().push(scope@),
    {
        proof {
            use_type_invariant(&*self);
        }
        let chars = chars_of(scope);
        let segments = split(chars.as_slice(), '.');
        let ghost p = segments.deep_view();
        assert(p == scope_path(scope@));
        let mut taken = ScopeTree::new();
        std::mem::swap(&mut taken, self);
        let ScopeTree { nodes: mut nodes, inserted } = taken;
        let ghost scopes = inserted@;
        let ghost old_v = nodes.deep_view();
        let mut i: usize = 0;
        while i < nodes.len() && path_less(&nodes[i].segments, &segments)
            invariant
                old_v == nodes.deep_view(),
                sorted_paths(old_v),
                p == segments.deep_view(),
                i <= old_v.len(),
                forall|j: int| 0 <= j < i ==> path_lt(#[trigger] old_v[j], p),
            decreases nodes.len() - i,
        {
            i = i + 1;
        }
        if i < nodes.len() && path_eq(&nodes[i].segments, &segments) {
            assert(old_v[i as int] == p);
            assert(old_v.contains(p));
            assert(old_v.to_set().insert(p) =~= old_v.to_set());
            proof {
                lemma_insert_holds(old_v, old_v, scopes, scope@);
            }
            *self = ScopeTree { nodes, inserted: Ghost(scopes.push(scope@)) };
            return;
        }
        proof {
            assert forall|j: int| i <= j < old_v.len() implies path_lt(p, #[trigger] old_v[j]) by {
                if !path_lt(p, old_v[i as int]) {
                    lemma_path_lt_total(p, old_v[i as int]);
                }
                if j > i {
                    lemma_path_lt_transitive(p, old_v[i as int], old_v[j]);
                }
            }
            assert(!old_v.contains(p)) by {
                if old_v.contains(p) {
                    let k = old_v.index_of(p);
                    lemma_path_lt_irreflexive(p);
                    assert(old_v[k] == p);
                }
            }
        }
        let node = ScopeTreeNode { segments };
        nodes.insert(i, node);
        let ghost new_v = old_v.insert(i as int, p);
        assert(nodes.deep_view() =~= new_v);
        proof {
            assert forall|a: int, b: int| 0 <= a < b < new_v.len() implies path_lt(
                #[trigger] new_v[a],
                #[trigger] new_v[b],
            ) by {
                if a < i && b > i {
                    lemma_path_lt_transitive(new_v[a], p, new_v[b]);
                }
            }
            assert(new_v.to_set() =~= old_v.to_set().insert(p)) by {
                assert forall|x| new_v.to_set().contains(x) <==> old_v.to_set().insert(p).contains(x) by {
                    if new_v.contains(x) {
                        let k = new_v.index_of(x);
                        if k < i {
                            assert(old_v[k] == x);
                        } else if k > i {
                            assert(old_v[k - 1] == x);
                        }
                    }
                    if old_v.contains(x) {
                        let k = old_v.index_of(x);
                        if k < i {
                            assert(new_v[k] == x);
                        } else {
                            assert(new_v[k + 1] == x);
                        }
                    }
                    if x == p {
                        assert(new_v[i as int] == p);
                    }
                }
            }
            lemma_insert_holds(old_v, new_v, scopes, scope@);
        }
        *self = ScopeTree { nodes, inserted: Ghost(scopes.push(scope@)) };
    }

    /// Whether `scope` itself was stored (not merely a longer scope below it).
    pub fn contains(&self, scope: &str) -> (r: bool)
        ensures
            r == self@.contains(scope_path(scope@)),
    {
        let chars = chars_of(scope);
        let segments = split(chars.as_slice(), '.');
        let ghost v = self@;
        let mut i: usize = 0;
        while i < self.nodes.len()
            invariant
                v == self@,
                v == self.nodes.deep_view(),
                segments.deep_view() == scope_path(scope@),
                i <= v.len(),
                forall|j: int| 0 <= j < i ==> v[j] != scope_path(scope@),
            decreases self.nodes.len() - i,
        {
            if path_eq(&self.nodes[i].segments, &segments) {
                assert(v[i as int] == scope_path(scope@));
                return true;
            }
            i = i + 1;
        }
        assert(!v.contains(scope_path(scope@))) by {
            if v.contains(scope_path(scope@)) {
                let k = v.index_of(scope_path(scope@));
                assert(v[k] == scope_path(scope@));
            }
        }
        false
    }

    /// Whether some stored scope lies at or below the scope `prefix`: that
    /// is, whether some inserted scope does.
    pub fn has_prefix(&self, prefix: &str) -> (r: bool)
        ensures
            r == exists|i: int|
                0 <= i < self@.len() && path_has_prefix(#[trigger] self@[i], scope_path(prefix@)),
            r == exists|j: int|
                0 <= j < self.scopes().len() && path_has_prefix(
                    scope_path(#[trigger] self.scopes()[j]),
                    scope_path(prefix@),
                ),
    {
        proof {
            use_type_invariant(self);
            lemma_tree_of_scopes(self@, self.scopes(), scope_path(prefix@));
        }
        let found = self.stores_under(prefix);
        found
    }

    /// Whether some stored path lies at or below the scope `prefix`.
    fn stores_under(&self, prefix: &str) -> (r: bool)
        ensures
            r == exists|i: int|
                0 <= i < self@.len() && path_has_prefix(#[trigger] self@[i], scope_path(prefix@)),
    {
        let chars = chars_of(prefix);
        let q = split(chars.as_slice(), '.');
        let ghost v = self@;
        let mut i: usize = 0;
        while i < self.nodes.len()
            invariant
                v == self@,
                v == self.nodes.deep_view(),
                q.deep_view() == scope_path(prefix@),
                i <= v.len(),
                forall|j: int| 0 <= j < i ==> !path_has_prefix(#[trigger] v[j], scope_path(prefix@)),
            decreases self.nodes.len() - i,
        {
            if path_starts_with(&self.nodes[i].segments, &q) {
                assert(path_has_prefix(v[i as int], scope_path(prefix@)));
                return true;
            }
            i = i + 1;
        }
        false
    }

    /// Every stored scope at or below the scope `prefix`, in hierarchical
    /// order, each spelled as `prefix` followed by the remaining segments.
    /// For a non-empty prefix these are exactly the inserted scopes at or
    /// below it, each once, in hierarchical order.
    pub fn query_prefix(&self, prefix: &str) -> (r: Vec<String>)
        ensures
            r.deep_view() == self@.filter(has_prefix_fn(scope_path(prefix@))).map_values(
                spell_fn(prefix@, scope_path(prefix@).len() as int),
            ),
            prefix@.len() > 0 ==> prefix_answer(r.deep_view(), self.scopes(), prefix@),
    {
        proof {
            use_type_invariant(self);
            if prefix@.len() > 0 {
                lemma_prefix_answer(self@, self.scopes(), prefix@);
            }
        }
        let chars = chars_of(prefix);
        let q = split(chars.as_slice(), '.');
        let ghost qv = scope_path(prefix@);
        let ghost v = self@;
        let ghost keep = has_prefix_fn(qv);
        let ghost spell = spell_fn(prefix@, qv.len() as int);
        let mut out: Vec<String> = Vec::new();
        let mut i: usize = 0;
        while i < self.nodes.len()
            invariant
                v == self@,
                v == self.nodes.deep_view(),
                q.deep_view() == qv,
                chars@ == prefix@,
                keep == has_prefix_fn(qv),
                spell == spell_fn(prefix@, qv.len() as int),
                i <= v.len(),
                out.deep_view() == v.take(i as int).filter(keep).map_values(spell),
            decreases self.nodes.len() - i,
        {
            let ghost prev = out.deep_view();
            assert(v.take(i + 1).drop_last() =~= v.take(i as int));
            assert(v.take(i + 1).filter(keep) == if keep(v[i as int]) {
                v.take(i as int).filter(keep).push(v[i as int])
            } else {
                v.take(i as int).filter(keep)
            }) by {
                reveal(Seq::filter);
            }
            if path_starts_with(&self.nodes[i].segments, &q) {
                let s = spell_path(&chars, &self.nodes[i].segments, q.len());
                assert(self.nodes[i as int].segments.deep_view() == v[i as int]);
                assert(q@.len() == qv.len());
                assert(s@ == spell(v[i as int]));
                out.push(s);
                assert(out.deep_view() =~= prev.push(s@));
                assert(out.deep_view() =~= v.take(i + 1).filter(keep).map_values(spell));
            } else {
                assert(out.deep_view() =~= v.take(i + 1).filter(keep).map_values(spell));
            }
            i = i + 1;
        }
        assert(v.take(v.len() as int) =~= v);
        out
    }

    /// The number of stored scopes: the number of different scopes
    /// inserted.
    pub fn len(&self) -> (r: usize)
        ensures
            r == self@.len(),
            r == self.scopes().to_set().len(),
    {
        proof {
            use_type_invariant(self);
            lemma_tree_of_scopes(self@, self.scopes(), Seq::empty());
        }
        self.nodes.len()
    }

    /// Whether no scope is stored: whether none was inserted.
    pub fn is_empty(&self) -> (r: bool)
        ensures
            r == (self@.len() == 0),
            r == (self.scopes().len() == 0),
    {
        proof {
            use_type_invariant(self);
            lemma_tree_of_scopes(self@, self.scopes(), Seq::empty());
            if self.scopes().len() > 0 {
                vstd::seq_lib::seq_to_set_is_finite(self.scopes());
                assert(self.scopes().to_set().contains(self.scopes()[0]));
                vstd::set::axiom_set_contains_len(self.scopes().to_set(), self.scopes()[0]);
            } else {
                assert(self.scopes().to_set() =~= Set::<Seq<char>>::empty());
            }
        }
        self.nodes.len() == 0
    }
}

/// The spelling of `path` below a prefix of `k` segments spelled `prefix`.
fn spell_path(prefix: &Vec<char>, path: &Vec<Vec<char>>, k: usize) -> (s: String)
    requires
        k <= path@.len(),
    ensures
        s@ == join_from(prefix@, path.deep_view().skip(k as int)),
{
    let ghost pv = path.deep_view();
    let mut cur = copy_chars(prefix);
    let mut i = k;
    assert(pv.skip(k as int).skip(0) =~= pv.skip(k as int));
    while i < path.len()
        invariant
            pv == path.deep_view(),
            k <= i <= pv.len(),
            join_from(prefix@, pv.skip(k as int)) == join_from(cur@, pv.skip(i as int)),
        decreases path.len() - i,
    {
        let ghost before = cur@;
        let seg = &path[i];
        if cur.len() > 0 {
            cur.push('.');
        }
        let mut j: usize = 0;
        let ghost mid = cur@;
        while j < seg.len()
            invariant
                j <= seg@.len(),
                cur@ == mid + seg@.take(j as int),
            decreases seg.len() - j,
        {
            cur.push(seg[j]);
            assert(seg@.take(j + 1) =~= seg@.take(j as int).push(seg@[j as int]));
            j = j + 1;
        }
        assert(seg@.take(seg@.len() as int) =~= seg@);
        assert(pv.skip(i as int)[0] == seg@);
        assert(pv.skip(i as int).drop_first() =~= pv.skip(i + 1));
        assert(cur@ =~= join_step(before, seg@));
        i = i + 1;
    }
    assert(pv.skip(i as int).len() == 0);
    string_of(cur.as_slice())
}

} // verus!
