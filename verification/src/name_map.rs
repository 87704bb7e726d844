//! A map from names to values, kept as a list of entries with one entry
//! per name.
use vstd::prelude::*;

use crate::text::{owned, str_eq};

verus! {

broadcast use vstd::seq_lib::group_seq_properties;

/// The names of a list of entries, in order.
pub open spec fn keys_of<M>(s: Seq<(String, M)>) -> Seq<Seq<char>> {
    s.map_values(|e: (String, M)| e.0@)
}

/// The map a list of entries describes, later entries overriding earlier
/// ones.
pub open spec fn map_of<M>(s: Seq<(String, M)>) -> Map<Seq<char>, M>
    decreases s.len(),
{
    if s.len() == 0 {
        Map::empty()
    } else {
        map_of(s.drop_last()).insert(s.last().0@, s.last().1)
    }
}

/// The map's keys are the entries' names, and there are finitely many.
proof fn lemma_map_of_dom<M>(s: Seq<(String, M)>)
    ensures
        map_of(s).dom().finite(),
        forall|k: Seq<char>| map_of(s).dom().contains(k) <==> keys_of(s).contains(k),
    decreases s.len(),
{
    if s.len() > 0 {
        let p = s.drop_last();
        lemma_map_of_dom(p);
        assert(keys_of(s) =~= keys_of(p).push(s.last().0@));
    }
}

/// Without repeated names, an entry's name maps to its value.
proof fn lemma_map_of_value<M>(s: Seq<(String, M)>, i: int)
    requires
        keys_of(s).no_duplicates(),
        0 <= i < s.len(),
    ensures
        map_of(s)[s[i].0@] == s[i].1,
    decreases s.len(),
{
    let p = s.drop_last();
    if i < s.len() - 1 {
        assert(keys_of(p) =~= keys_of(s).drop_last());
        assert(keys_of(s)[i] != keys_of(s)[s.len() - 1]);
        lemma_map_of_value(p, i);
    }
}

/// Without repeated names, the map has one key per entry.
proof fn lemma_map_of_len<M>(s: Seq<(String, M)>)
    requires
        keys_of(s).no_duplicates(),
    ensures
        map_of(s).dom().len() == s.len(),
    decreases s.len(),
{
    if s.len() > 0 {
        let p = s.drop_last();
        assert(keys_of(p) =~= keys_of(s).drop_last());
        lemma_map_of_len(p);
        lemma_map_of_dom(p);
        assert(!keys_of(p).contains(s.last().0@)) by {
            if keys_of(p).contains(s.last().0@) {
                let j = keys_of(p).index_of(s.last().0@);
                assert(keys_of(s)[j] == keys_of(s)[s.len() - 1]);
            }
        }
    }
}

/// Without repeated names, replacing one entry's value replaces it in the
/// map.
proof fn lemma_map_of_update<M>(s: Seq<(String, M)>, i: int, key: String, m: M)
    requires
        keys_of(s).no_duplicates(),
        0 <= i < s.len(),
        key@ == s[i].0@,
    ensures
        map_of(s.update(i, (key, m))) == map_of(s).insert(key@, m),
    decreases s.len(),
{
    let u = s.update(i, (key, m));
    let p = s.drop_last();
    if i == s.len() - 1 {
        assert(u.drop_last() =~= p);
        assert(map_of(u) =~= map_of(s).insert(key@, m));
    } else {
        assert(u.drop_last() =~= p.update(i, (key, m)));
        assert(keys_of(p) =~= keys_of(s).drop_last());
        lemma_map_of_update(p, i, key, m);
        assert(keys_of(s)[i] != keys_of(s)[s.len() - 1]);
        assert(map_of(u) =~= map_of(s).insert(key@, m));
    }
}

/// Without repeated names, dropping one entry drops its name from the map.
proof fn lemma_map_of_remove<M>(s: Seq<(String, M)>, i: int)
    requires
        keys_of(s).no_duplicates(),
        0 <= i < s.len(),
    ensures
        map_of(s.remove(i)) == map_of(s).remove(s[i].0@),
    decreases s.len(),
{
    let u = s.remove(i);
    let p = s.drop_last();
    lemma_map_of_dom(p);
    assert(keys_of(p) =~= keys_of(s).drop_last());
    if i == s.len() - 1 {
        assert(u =~= p);
        assert(!keys_of(p).contains(s[i].0@)) by {
            if keys_of(p).contains(s[i].0@) {
                let j = keys_of(p).index_of(s[i].0@);
                assert(keys_of(s)[j] == keys_of(s)[i]);
            }
        }
        assert(map_of(u) =~= map_of(s).remove(s[i].0@));
    } else {
        assert(u.drop_last() =~= p.remove(i));
        assert(u.last() == s.last());
        lemma_map_of_remove(p, i);
        assert(keys_of(s)[i] != keys_of(s)[s.len() - 1]);
        assert(map_of(u) =~= map_of(s).remove(s[i].0@));
    }
}

/// Values by name, each name at most once.
pub struct NameMap<M> {
    entries: Vec<(String, M)>,
}

impl<M> View for NameMap<M> {
    type V = Map<Seq<char>, M>;

    /// Each name with its value.
    closed spec fn view(&self) -> Map<Seq<char>, M> {
        map_of(self.entries@)
    }
}

impl<M> NameMap<M> {
    #[verifier::type_invariant]
    spec fn one_entry_per_name(self) -> bool {
        keys_of(self.entries@).no_duplicates()
    }

    /// Where `name` is among the entries, if it is.
    fn position(&self, name: &str) -> (r: Option<usize>)
        ensures
            r matches Some(i) ==> i < self.entries@.len() && self.entries@[i as int].0@ == name@,
            r is None ==> !keys_of(self.entries@).contains(name@),
    {
        let mut i: usize = 0;
        while i < self.entries.len()
            invariant
                i <= self.entries@.len(),
                forall|j: int| 0 <= j < i ==> keys_of(self.entries@)[j] != name@,
            decreases self.entries.len() - i,
        {
            if str_eq(self.entries[i].0.as_str(), name) {
                return Some(i);
            }
            i = i + 1;
        }
        assert(!keys_of(self.entries@).contains(name@)) by {
            if keys_of(self.entries@).contains(name@) {
                let j = keys_of(self.entries@).index_of(name@);
                assert(keys_of(self.entries@)[j] == name@);
            }
        }
        None
    }

    /// An empty map.
    pub fn new() -> (r: Self)
        ensures
            r@ == Map::<Seq<char>, M>::empty(),
    {
        let r = NameMap { entries: Vec::new() };
        assert(r@ =~= Map::<Seq<char>, M>::empty());
        r
    }

    /// Maps `name` to `value`, replacing what it had.
    pub fn insert(&mut self, name: &str, value: M)
        ensures
            final(self)@ == old(self)@.insert(name@, value),
    {
        proof {
            use_type_invariant(&*self);
        }
        let found = self.position(name);
        let mut entries: Vec<(String, M)> = Vec::new();
        std::mem::swap(&mut entries, &mut self.entries);
        let ghost s = entries@;
        let key = owned(name);
        match found {
            Some(i) => {
                entries.set(i, (key, value));
                proof {
                    lemma_map_of_update(s, i as int, key, value);
                    assert(keys_of(entries@) =~= keys_of(s));
                }
            },
            None => {
                entries.push((key, value));
                assert(entries@.drop_last() =~= s);
                assert(keys_of(entries@) =~= keys_of(s).push(name@));
            },
        }
        self.entries = entries;
    }

    /// Drops `name` and its value, if it has one.
    pub fn remove(&mut self, name: &str)
        ensures
            final(self)@ == old(self)@.remove(name@),
    {
        proof {
            use_type_invariant(&*self);
            lemma_map_of_dom(self.entries@);
        }
        match self.position(name) {
            Some(i) => {
                let mut entries: Vec<(String, M)> = Vec::new();
                std::mem::swap(&mut entries, &mut self.entries);
                let ghost s = entries@;
                let _ = entries.remove(i);
                proof {
                    lemma_map_of_remove(s, i as int);
                    assert(keys_of(entries@) =~= keys_of(s).remove(i as int));
                }
                self.entries = entries;
            },
            None => {
                assert(old(self)@.remove(name@) =~= old(self)@);
            },
        }
    }

    /// Whether `name` has a value.
    pub fn contains_key(&self, name: &str) -> (r: bool)
        ensures
            r == self@.dom().contains(name@),
    {
        proof {
            lemma_map_of_dom(self.entries@);
        }
        match self.position(name) {
            Some(i) => {
                assert(keys_of(self.entries@)[i as int] == name@);
                assert(keys_of(self.entries@).contains(name@));
                true
            },
            None => false,
        }
    }

    /// The value of `name`, if it has one.
    pub fn get(&self, name: &str) -> (r: Option<&M>)
        ensures
            self@.dom().contains(name@) ==> (r matches Some(m) && *m == self@[name@]),
            !self@.dom().contains(name@) ==> r is None,
    {
        proof {
            use_type_invariant(self);
            lemma_map_of_dom(self.entries@);
        }
        match self.position(name) {
            Some(i) => {
                proof {
                    lemma_map_of_value(self.entries@, i as int);
                    assert(keys_of(self.entries@)[i as int] == name@);
                    assert(keys_of(self.entries@).contains(name@));
                }
                Some(&self.entries[i].1)
            },
            None => None,
        }
    }

    /// The names, each once, in no particular order.
    pub fn keys(&self) -> (r: Vec<String>)
        ensures
            r.deep_view().no_duplicates(),
            forall|k: Seq<char>| r.deep_view().contains(k) <==> self@.dom().contains(k),
    {
        proof {
            use_type_invariant(self);
            lemma_map_of_dom(self.entries@);
        }
        let ghost keys = keys_of(self.entries@);
        let mut r: Vec<String> = Vec::new();
        let mut i: usize = 0;
        while i < self.entries.len()
            invariant
                keys == keys_of(self.entries@),
                i <= self.entries@.len(),
                r.deep_view() == keys.take(i as int),
            decreases self.entries.len() - i,
        {
            let ghost prev = r.deep_view();
            let name = owned(self.entries[i].0.as_str());
            r.push(name);
            assert(r.deep_view() =~= prev.push(keys[i as int]));
            assert(keys.take(i + 1) =~= keys.take(i as int).push(keys[i as int]));
            i = i + 1;
        }
        assert(keys.take(keys.len() as int) =~= keys);
        r
    }

    /// The number of names.
    pub fn len(&self) -> (r: usize)
        ensures
            r == self@.dom().len(),
    {
        proof {
            use_type_invariant(self);
            lemma_map_of_len(self.entries@);
        }
        self.entries.len()
    }

    /// Forgets every name.
    pub fn clear(&mut self)
        ensures
            final(self)@ == Map::<Seq<char>, M>::empty(),
    {
        self.entries = Vec::new();
        assert(map_of(self.entries@) =~= Map::<Seq<char>, M>::empty());
    }
}

} // verus!
