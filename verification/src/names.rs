//! Lists of names: de-duplication, ordering, conversion to `String`s.
use vstd::prelude::*;

use crate::scope_tree::{lemma_str_lt_irreflexive, lemma_str_lt_total, lemma_str_lt_transitive, str_less, str_lt};
use crate::text::{chars_eq, chars_of, copy_chars, string_of};

verus! {

broadcast use {vstd::seq_lib::group_seq_properties, crate::lemma_chars_deep_view};

/// `s` with every repeated name dropped, keeping first occurrences in order.
pub open spec fn dedup_s(s: Seq<Seq<char>>) -> Seq<Seq<char>>
    decreases s.len(),
{
    if s.len() == 0 {
        s
    } else {
        let d = dedup_s(s.drop_last());
        if s.drop_last().contains(s.last()) {
            d
        } else {
            d.push(s.last())
        }
    }
}

/// In code-point order (equal names may sit next to each other).
pub open spec fn sorted_names(s: Seq<Seq<char>>) -> bool {
    forall|i: int, j: int| 0 <= i < j < s.len() ==> !str_lt(#[trigger] s[j], #[trigger] s[i])
}

/// In strictly increasing code-point order: sorted, no name twice.
pub open spec fn strictly_sorted_names(s: Seq<Seq<char>>) -> bool {
    forall|i: int, j: int| 0 <= i < j < s.len() ==> str_lt(#[trigger] s[i], #[trigger] s[j])
}

/// De-duplication keeps exactly the names of `s`, each once.
pub proof fn lemma_dedup(s: Seq<Seq<char>>)
    ensures
        forall|x: Seq<char>| dedup_s(s).contains(x) <==> s.contains(x),
        dedup_s(s).no_duplicates(),
    decreases s.len(),
{
    if s.len() > 0 {
        let p = s.drop_last();
        lemma_dedup(p);
        assert(p.push(s.last()) =~= s);
        assert forall|x: Seq<char>| dedup_s(s).contains(x) <==> s.contains(x) by {
            if s.contains(x) && x != s.last() {
                let k = s.index_of(x);
                assert(p[k] == x);
            }
            if p.contains(x) {
                let k = p.index_of(x);
                assert(s[k] == x);
            }
        }
    }
}

/// Inserting `x` at `k` adds one `x` to the multiset of names.
proof fn lemma_insert_multiset(s: Seq<Seq<char>>, k: int, x: Seq<char>)
    requires
        0 <= k <= s.len(),
    ensures
        s.insert(k, x).to_multiset() == s.to_multiset().insert(x),
{
    let t = s.insert(k, x);
    assert(t =~= s.take(k) + seq![x] + s.skip(k));
    vstd::seq_lib::lemma_multiset_commutative(s.take(k) + seq![x], s.skip(k));
    vstd::seq_lib::lemma_multiset_commutative(s.take(k), seq![x]);
    vstd::seq_lib::lemma_multiset_commutative(s.take(k), s.skip(k));
    assert(s.take(k) + s.skip(k) =~= s);
    assert(seq![x].to_multiset() =~= vstd::multiset::Multiset::empty().insert(x)) by {
        assert(seq![x] =~= Seq::<Seq<char>>::empty().push(x));
        Seq::<Seq<char>>::empty().to_multiset_ensures();
        Seq::<Seq<char>>::empty().push(x).to_multiset_ensures();
    }
    assert(t.to_multiset() =~= s.to_multiset().insert(x));
}

/// Whether `x` is one of the names in `v`.
pub fn contains_name(v: &Vec<Vec<char>>, x: &[char]) -> (r: bool)
    ensures
        r == v.deep_view().contains(x@),
{
    let ghost vv = v.deep_view();
    let mut i: usize = 0;
    while i < v.len()
        invariant
            vv == v.deep_view(),
            i <= vv.len(),
            forall|j: int| 0 <= j < i ==> vv[j] != x@,
        decreases v.len() - i,
    {
        if chars_eq(&v[i], x) {
            assert(vv[i as int] == x@);
            return true;
        }
        i = i + 1;
    }
    assert(!vv.contains(x@)) by {
        if vv.contains(x@) {
            let k = vv.index_of(x@);
            assert(vv[k] == x@);
        }
    }
    false
}

/// The names of `v` as `String`s.
pub fn strings_of(v: &Vec<Vec<char>>) -> (r: Vec<String>)
    ensures
        r.deep_view() == v.deep_view(),
{
    let ghost vv = v.deep_view();
    let mut r: Vec<String> = Vec::new();
    let mut i: usize = 0;
    while i < v.len()
        invariant
            vv == v.deep_view(),
            i <= vv.len(),
            r.deep_view() == vv.take(i as int),
        decreases v.len() - i,
    {
        let ghost prev = r.deep_view();
        let s = string_of(v[i].as_slice());
        r.push(s);
        assert(r.deep_view() =~= prev.push(vv[i as int]));
        assert(vv.take(i + 1) =~= vv.take(i as int).push(vv[i as int]));
        i = i + 1;
    }
    assert(vv.take(vv.len() as int) =~= vv);
    r
}

/// The characters of each string of `v`.
pub fn chars_of_all(v: &Vec<String>) -> (r: Vec<Vec<char>>)
    ensures
        r.deep_view() == v.deep_view(),
{
    let ghost vv = v.deep_view();
    let mut r: Vec<Vec<char>> = Vec::new();
    let mut i: usize = 0;
    while i < v.len()
        invariant
            vv == v.deep_view(),
            i <= vv.len(),
            r.deep_view() == vv.take(i as int),
        decreases v.len() - i,
    {
        let ghost prev = r.deep_view();
        let c = chars_of(v[i].as_str());
        assert(c@ == vv[i as int]);
        r.push(c);
        assert(r.deep_view() =~= prev.push(vv[i as int]));
        assert(vv.take(i + 1) =~= vv.take(i as int).push(vv[i as int]));
        i = i + 1;
    }
    assert(vv.take(vv.len() as int) =~= vv);
    r
}

/// `v` without repeated names, first occurrences kept in order.
pub fn dedup_names(v: &Vec<Vec<char>>) -> (r: Vec<Vec<char>>)
    ensures
        r.deep_view() == dedup_s(v.deep_view()),
{
    let ghost vv = v.deep_view();
    let mut r: Vec<Vec<char>> = Vec::new();
    let mut i: usize = 0;
    assert(vv.take(0) =~= Seq::<Seq<char>>::empty());
    while i < v.len()
        invariant
            vv == v.deep_view(),
            i <= vv.len(),
            r.deep_view() == dedup_s(vv.take(i as int)),
        decreases v.len() - i,
    {
        let ghost prev = r.deep_view();
        assert(vv.take(i + 1).drop_last() =~= vv.take(i as int));
        proof {
            lemma_dedup(vv.take(i as int));
        }
        if !contains_name(&r, v[i].as_slice()) {
            r.push(copy_chars(&v[i]));
            assert(r.deep_view() =~= prev.push(vv[i as int]));
        }
        i = i + 1;
    }
    assert(vv.take(vv.len() as int) =~= vv);
    r
}

/// `v` in code-point order.
pub fn sort_names(v: &Vec<Vec<char>>) -> (r: Vec<Vec<char>>)
    ensures
        sorted_names(r.deep_view()),
        r.deep_view().to_multiset() == v.deep_view().to_multiset(),
{
    let ghost vv = v.deep_view();
    let mut r: Vec<Vec<char>> = Vec::new();
    let mut i: usize = 0;
    proof {
        assert(vv.take(0) =~= Seq::<Seq<char>>::empty());
        assert(r.deep_view() =~= Seq::<Seq<char>>::empty());
    }
    while i < v.len()
        invariant
            vv == v.deep_view(),
            i <= vv.len(),
            sorted_names(r.deep_view()),
            r.deep_view().to_multiset() == vv.take(i as int).to_multiset(),
        decreases v.len() - i,
    {
        let x = copy_chars(&v[i]);
        let ghost rv = r.deep_view();
        let ghost xv = x@;
        let mut p: usize = 0;
        while p < r.len() && str_less(r[p].as_slice(), x.as_slice())
            invariant
                rv == r.deep_view(),
                xv == x@,
                p <= rv.len(),
                forall|k: int| 0 <= k < p ==> str_lt(#[trigger] rv[k], xv),
            decreases r.len() - p,
        {
            p = p + 1;
        }
        proof {
            let t = rv.insert(p as int, xv);
            assert forall|a: int, b: int| 0 <= a < b < t.len() implies !str_lt(
                #[trigger] t[b],
                #[trigger] t[a],
            ) by {
                if b == p {
                    assert(t[a] == rv[a]);
                    if str_lt(xv, rv[a]) {
                        lemma_str_lt_transitive(xv, rv[a], xv);
                        lemma_str_lt_irreflexive(xv);
                    }
                } else if a == p {
                    assert(t[b] == rv[b - 1]);
                    let q = rv[p as int];
                    if str_lt(rv[b - 1], xv) {
                        assert(!str_lt(xv, xv)) by {
                            lemma_str_lt_irreflexive(xv);
                        }
                        if b - 1 > p {
                            assert(!str_lt(rv[b - 1], q));
                        }
                        if xv != q {
                            lemma_str_lt_total(xv, q);
                            lemma_str_lt_transitive(rv[b - 1], xv, q);
                        }
                    }
                } else if a < p && b > p {
                    assert(t[a] == rv[a] && t[b] == rv[b - 1]);
                } else if b < p {
                    assert(t[a] == rv[a] && t[b] == rv[b]);
                } else {
                    assert(t[a] == rv[a - 1] && t[b] == rv[b - 1]);
                }
            }
            lemma_insert_multiset(rv, p as int, xv);
            assert(vv.take(i + 1) =~= vv.take(i as int).push(vv[i as int]));
            vv.take(i as int).to_multiset_ensures();
        }
        r.insert(p, x);
        assert(r.deep_view() =~= rv.insert(p as int, xv));
        i = i + 1;
    }
    assert(vv.take(vv.len() as int) =~= vv);
    r
}

/// The names of a sorted list, each once, in strictly increasing order.
pub fn dedup_sorted(v: &Vec<Vec<char>>) -> (r: Vec<Vec<char>>)
    requires
        sorted_names(v.deep_view()),
    ensures
        strictly_sorted_names(r.deep_view()),
        forall|x: Seq<char>| r.deep_view().contains(x) <==> v.deep_view().contains(x),
{
    let ghost vv = v.deep_view();
    let mut r: Vec<Vec<char>> = Vec::new();
    let mut i: usize = 0;
    while i < v.len()
        invariant
            vv == v.deep_view(),
            sorted_names(vv),
            i <= vv.len(),
            strictly_sorted_names(r.deep_view()),
            forall|x: Seq<char>| r.deep_view().contains(x) <==> vv.take(i as int).contains(x),
            i > 0 ==> r.deep_view().len() > 0 && r.deep_view().last() == vv[i - 1],
            i == 0 ==> r.deep_view().len() == 0,
        decreases v.len() - i,
    {
        let ghost rv = r.deep_view();
        assert(vv.take(i + 1) =~= vv.take(i as int).push(vv[i as int]));
        let fresh = r.len() == 0 || !chars_eq(r[r.len() - 1].as_slice(), v[i].as_slice());
        if fresh {
            proof {
                if i > 0 {
                    let last = vv[i - 1];
                    let x = vv[i as int];
                    assert(!str_lt(x, last));
                    lemma_str_lt_total(last, x);
                    assert forall|a: int| 0 <= a < rv.len() implies str_lt(#[trigger] rv[a], x) by {
                        if a < rv.len() - 1 {
                            lemma_str_lt_transitive(rv[a], last, x);
                        }
                    }
                }
            }
            r.push(copy_chars(&v[i]));
            assert(r.deep_view() =~= rv.push(vv[i as int]));
        } else {
            assert(vv.take(i as int).contains(vv[i as int])) by {
                assert(vv.take(i as int)[i - 1] == vv[i as int]);
            }
        }
        i = i + 1;
    }
    assert(vv.take(vv.len() as int) =~= vv);
    r
}

} // verus!
