//! The cache a metadata batch keeps of the assets it has looked up, so that
//! each asset is fetched at most once per run.

use vstd::prelude::*;
use crate::text::str_eq;

verus! {

/// The map that a list of (key, asset) entries holds: each key with the
/// asset of its last entry.
pub open spec fn entries_map<A>(s: Seq<(Seq<char>, A)>) -> Map<Seq<char>, A>
    decreases s.len(),
{
    if s.len() == 0 {
        Map::empty()
    } else {
        entries_map(s.drop_last()).insert(s.last().0, s.last().1)
    }
}

/// No key occurs twice in `s`.
pub open spec fn distinct_keys<A>(s: Seq<(Seq<char>, A)>) -> bool {
    forall|i: int, j: int| 0 <= i < j < s.len() ==> (#[trigger] s[i]).0 != (#[trigger] s[j]).0
}

proof fn lemma_entries_dom<A>(s: Seq<(Seq<char>, A)>, k: Seq<char>)
    ensures
        entries_map(s).contains_key(k) <==> exists|i: int| 0 <= i < s.len() && (#[trigger] s[i]).0 == k,
    decreases s.len(),
{
    if s.len() > 0 {
        lemma_entries_dom(s.drop_last(), k);
        if entries_map(s.drop_last()).contains_key(k) {
            let i = choose|i: int| 0 <= i < s.drop_last().len() && (#[trigger] s.drop_last()[i]).0 == k;
            assert(s[i].0 == k);
        }
        if exists|i: int| 0 <= i < s.len() && (#[trigger] s[i]).0 == k {
            let i = choose|i: int| 0 <= i < s.len() && (#[trigger] s[i]).0 == k;
            if i < s.len() - 1 {
                assert(s.drop_last()[i].0 == k);
            }
        }
    }
}

proof fn lemma_entries_at<A>(s: Seq<(Seq<char>, A)>, i: int)
    requires
        distinct_keys(s),
        0 <= i < s.len(),
    ensures
        entries_map(s).contains_key(s[i].0),
        entries_map(s)[s[i].0] == s[i].1,
    decreases s.len(),
{
    if i < s.len() - 1 {
        assert(s.drop_last()[i] == s[i]);
        lemma_entries_at(s.drop_last(), i);
        assert(s[i].0 != s.last().0);
    }
}

proof fn lemma_entries_update<A>(s: Seq<(Seq<char>, A)>, i: int, a: A)
    requires
        distinct_keys(s),
        0 <= i < s.len(),
    ensures
        entries_map(s.update(i, (s[i].0, a))) == entries_map(s).insert(s[i].0, a),
    decreases s.len(),
{
    let k = s[i].0;
    let t = s.update(i, (k, a));
    if i == s.len() - 1 {
        assert(t.drop_last() =~= s.drop_last());
        assert(entries_map(t) =~= entries_map(s).insert(k, a));
    } else {
        assert(t.drop_last() =~= s.drop_last().update(i, (k, a)));
        assert(s.drop_last()[i] == s[i]);
        lemma_entries_update(s.drop_last(), i, a);
        assert(s.last().0 != k);
        assert(entries_map(t) =~= entries_map(s).insert(k, a));
    }
}

/// Assets already looked up during a batch, by the key they were looked up
/// under.
pub struct AssetMetadataCache<A> {
    entries: Vec<(String, A)>,
}

/// The entries of a cache as (key text, asset) pairs.
pub open spec fn entry_views<A>(v: Seq<(String, A)>) -> Seq<(Seq<char>, A)> {
    v.map_values(|e: (String, A)| (e.0@, e.1))
}

impl<A> View for AssetMetadataCache<A> {
    type V = Map<Seq<char>, A>;

    closed spec fn view(&self) -> Map<Seq<char>, A> {
        entries_map(entry_views(self.entries@))
    }
}

impl<A> AssetMetadataCache<A> {
    #[verifier::type_invariant]
    closed spec fn well_formed(self) -> bool {
        distinct_keys(entry_views(self.entries@))
    }

    /// An empty cache.
    pub fn new() -> (c: Self)
        ensures
            c@ == Map::<Seq<char>, A>::empty(),
    {
        let c = AssetMetadataCache { entries: Vec::new() };
        assert(entry_views(c.entries@) =~= Seq::<(Seq<char>, A)>::empty());
        c
    }

    /// The position of `key`'s entry, if it has one.
    fn position(&self, key: &str) -> (r: Option<usize>)
        ensures
            match r {
                Some(i) => i < self.entries@.len() && entry_views(self.entries@)[i as int].0 == key@,
                None => forall|j: int|
                    0 <= j < self.entries@.len() ==> (#[trigger] entry_views(self.entries@)[j]).0 != key@,
            },
    {
        let n = self.entries.len();
        for i in 0..n
            invariant
                n == self.entries@.len(),
                forall|j: int| 0 <= j < i ==> (#[trigger] entry_views(self.entries@)[j]).0 != key@,
        {
            if str_eq(self.entries[i].0.as_str(), key) {
                return Some(i);
            }
        }
        None
    }

    /// The asset cached under `key`, if any.
    pub fn get(&self, key: &str) -> (r: Option<&A>)
        ensures
            match r {
                Some(a) => self@.contains_key(key@) && self@[key@] == *a,
                None => !self@.contains_key(key@),
            },
    {
        proof {
            use_type_invariant(self);
        }
        let ghost s = entry_views(self.entries@);
        match self.position(key) {
            Some(i) => {
                proof {
                    lemma_entries_at(s, i as int);
                }
                Some(&self.entries[i].1)
            },
            None => {
                proof {
                    lemma_entries_dom(s, key@);
                }
                None
            },
        }
    }

    /// Cache `asset` under `key`, in place of any asset cached under it.
    pub fn insert(&mut self, key: String, asset: A)
        ensures
            final(self)@ == old(self)@.insert(key@, asset),
    {
        proof {
            use_type_invariant(&*self);
        }
        let ghost s = entry_views(self.entries@);
        let ghost k = key@;
        match self.position(key.as_str()) {
            Some(i) => {
                proof {
                    lemma_entries_update(s, i as int, asset);
                }
                let mut entries = Vec::new();
                std::mem::swap(&mut entries, &mut self.entries);
                entries.set(i, (key, asset));
                assert(entry_views(entries@) =~= s.update(i as int, (k, asset)));
                assert(distinct_keys(entry_views(entries@)));
                self.entries = entries;
            },
            None => {
                let mut entries = Vec::new();
                std::mem::swap(&mut entries, &mut self.entries);
                entries.push((key, asset));
                assert(entry_views(entries@) =~= s.push((k, asset)));
                assert(entry_views(entries@).drop_last() =~= s);
                assert(distinct_keys(entry_views(entries@)));
                self.entries = entries;
            },
        }
    }
}

} // verus!
