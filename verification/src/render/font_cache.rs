//! Font metrics kept by family name, one entry per family.
//!
//! The cache does not look inside the metrics it keeps, so it is generic in
//! their type.
use vstd::prelude::*;

use crate::name_map::NameMap;

verus! {

/// Metrics of type `M` by font family.
pub struct FontCache<M> {
    metrics: NameMap<M>,
}

impl<M> View for FontCache<M> {
    type V = Map<Seq<char>, M>;

    /// Each registered family with its metrics.
    closed spec fn view(&self) -> Map<Seq<char>, M> {
        self.metrics@
    }
}

impl<M> FontCache<M> {
    /// An empty cache.
    pub fn new() -> (r: Self)
        ensures
            r@ == Map::<Seq<char>, M>::empty(),
    {
        FontCache { metrics: NameMap::new() }
    }

    /// Keeps `metrics` for `family`, replacing what it had.
    pub fn register_family(&mut self, family: &str, metrics: M)
        ensures
            final(self)@ == old(self)@.insert(family@, metrics),
    {
        self.metrics.insert(family, metrics);
    }

    /// Keeps `fallback` for `family` unless the family already has metrics.
    pub fn register_family_fallback(&mut self, family: &str, fallback: M)
        ensures
            old(self)@.dom().contains(family@) ==> final(self)@ == old(self)@,
            !old(self)@.dom().contains(family@) ==> final(self)@ == old(self)@.insert(family@, fallback),
    {
        if !self.metrics.contains_key(family) {
            self.metrics.insert(family, fallback);
        }
    }

    /// Whether `family` has metrics.
    pub fn contains(&self, family: &str) -> (r: bool)
        ensures
            r == self@.dom().contains(family@),
    {
        self.metrics.contains_key(family)
    }

    /// The metrics kept for `family`, if any.
    pub fn get(&self, family: &str) -> (r: Option<&M>)
        ensures
            self@.dom().contains(family@) ==> (r matches Some(m) && *m == self@[family@]),
            !self@.dom().contains(family@) ==> r is None,
    {
        self.metrics.get(family)
    }

    /// The registered families, each once, in no particular order.
    pub fn families(&self) -> (r: Vec<String>)
        ensures
            r.deep_view().no_duplicates(),
            forall|k: Seq<char>| r.deep_view().contains(k) <==> self@.dom().contains(k),
    {
        self.metrics.keys()
    }

    /// The number of registered families.
    pub fn len(&self) -> (r: usize)
        ensures
            r == self@.dom().len(),
    {
        self.metrics.len()
    }

    /// Whether no family is registered.
    pub fn is_empty(&self) -> (r: bool)
        ensures
            r == (self@.dom().len() == 0),
    {
        self.metrics.len() == 0
    }

    /// Forgets every family.
    pub fn clear(&mut self)
        ensures
            final(self)@ == Map::<Seq<char>, M>::empty(),
    {
        self.metrics.clear();
    }
}

/// Registering metrics for a family makes them the family's metrics and
/// leaves every other family as it was: the cache after
/// [`FontCache::register_family`] answers [`FontCache::get`] so.
pub proof fn lemma_register_then_get<M>(before: Map<Seq<char>, M>, family: Seq<char>, m: M, other: Seq<char>)
    ensures
        before.insert(family, m).dom().contains(family),
        before.insert(family, m)[family] == m,
        other != family ==> (before.insert(family, m).dom().contains(other) <==> before.dom().contains(other)),
        other != family && before.dom().contains(other) ==> before.insert(family, m)[other] == before[other],
{
}

} // verus!
