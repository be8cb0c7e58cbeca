//! Lists of keyed items in which a key is found by its first occurrence.

use vstd::prelude::*;
use crate::text::{chars_of, str_eq};

verus! {

/// `i` is the first position of `s` whose item satisfies `p`.
pub open spec fn is_first<T>(s: Seq<T>, p: spec_fn(T) -> bool, i: int) -> bool {
    &&& 0 <= i < s.len()
    &&& p(s[i])
    &&& forall|j: int| 0 <= j < i ==> !p(#[trigger] s[j])
}

/// The first position of `s` whose item satisfies `p`, or -1 when none does.
pub open spec fn first_where<T>(s: Seq<T>, p: spec_fn(T) -> bool) -> int {
    if exists|i: int| is_first(s, p, i) {
        choose|i: int| is_first(s, p, i)
    } else {
        -1
    }
}

pub proof fn lemma_first_found<T>(s: Seq<T>, p: spec_fn(T) -> bool, i: int)
    requires
        is_first(s, p, i),
    ensures
        first_where(s, p) == i,
{
    let k = choose|k: int| is_first(s, p, k);
    assert(is_first(s, p, k));
    if k < i {
        assert(!p(s[k]));
    } else if i < k {
        assert(!p(s[i]));
    }
}

pub proof fn lemma_first_absent<T>(s: Seq<T>, p: spec_fn(T) -> bool)
    requires
        forall|j: int| 0 <= j < s.len() ==> !p(#[trigger] s[j]),
    ensures
        first_where(s, p) == -1,
{
    if exists|i: int| is_first(s, p, i) {
        let k = choose|k: int| is_first(s, p, k);
        assert(p(s[k]));
    }
}

pub open spec fn key_is<V>(k: Seq<char>) -> spec_fn((Seq<char>, V)) -> bool {
    |e: (Seq<char>, V)| e.0 == k
}

/// `s` with the value under `k` set to `v`: replaced where `k` already
/// occurs, appended where it does not.
pub open spec fn put_field(s: Seq<(Seq<char>, Seq<char>)>, k: Seq<char>, v: Seq<char>) -> Seq<
    (Seq<char>, Seq<char>),
> {
    let i = first_where(s, key_is::<Seq<char>>(k));
    if i >= 0 {
        s.update(i, (k, v))
    } else {
        s.push((k, v))
    }
}

/// The value under `k` in `s`, if `k` occurs.
pub open spec fn field_value(s: Seq<(Seq<char>, Seq<char>)>, k: Seq<char>) -> Option<Seq<char>> {
    let i = first_where(s, key_is::<Seq<char>>(k));
    if i >= 0 {
        Some(s[i].1)
    } else {
        None
    }
}

/// No key occurs twice in `s`.
pub open spec fn keys_distinct<V>(s: Seq<(Seq<char>, V)>) -> bool {
    forall|i: int, j: int| 0 <= i < j < s.len() ==> (#[trigger] s[i]).0 != (#[trigger] s[j]).0
}

/// Setting a field keeps every key once.
pub proof fn lemma_put_field_distinct(s: Seq<(Seq<char>, Seq<char>)>, k: Seq<char>, v: Seq<char>)
    requires
        keys_distinct(s),
    ensures
        keys_distinct(put_field(s, k, v)),
{
    let i = first_where(s, key_is::<Seq<char>>(k));
    if i < 0 {
        assert forall|j: int| 0 <= j < s.len() implies (#[trigger] s[j]).0 != k by {
            if s[j].0 == k {
                assert(key_is::<Seq<char>>(k)(s[j]));
                if !exists|m: int| is_first(s, key_is::<Seq<char>>(k), m) {
                    lemma_first_exists(s, key_is::<Seq<char>>(k), j);
                }
            }
        }
    } else {
        assert(is_first(s, key_is::<Seq<char>>(k), i));
    }
}

/// Some position satisfying `p` means there is a first one.
pub proof fn lemma_first_exists<T>(s: Seq<T>, p: spec_fn(T) -> bool, j: int)
    requires
        0 <= j < s.len(),
        p(s[j]),
    ensures
        exists|i: int| is_first(s, p, i),
    decreases j,
{
    if forall|m: int| 0 <= m < j ==> !p(#[trigger] s[m]) {
        assert(is_first(s, p, j));
    } else {
        let m = choose|m: int| 0 <= m < j && p(s[m]);
        lemma_first_exists(s, p, m);
    }
}

/// Reading a field just set gives back what was set, and setting a field
/// leaves every other field as it was.
pub proof fn lemma_read_after_set(s: Seq<(Seq<char>, Seq<char>)>, k: Seq<char>, v: Seq<char>, other: Seq<char>)
    requires
        keys_distinct(s),
        other != k,
    ensures
        field_value(put_field(s, k, v), k) == Some(v),
        field_value(put_field(s, k, v), other) == field_value(s, other),
{
    let t = put_field(s, k, v);
    lemma_put_field_distinct(s, k, v);
    let i = first_where(s, key_is::<Seq<char>>(k));
    let pos = if i >= 0 {
        assert(is_first(s, key_is::<Seq<char>>(k), choose|m: int| is_first(s, key_is::<Seq<char>>(k), m)));
        i
    } else {
        s.len() as int
    };
    if i < 0 {
        assert forall|j: int| 0 <= j < s.len() implies !key_is::<Seq<char>>(k)(#[trigger] s[j]) by {
            if key_is::<Seq<char>>(k)(s[j]) {
                lemma_first_exists(s, key_is::<Seq<char>>(k), j);
            }
        }
    }
    assert(t[pos] == (k, v));
    assert(is_first(t, key_is::<Seq<char>>(k), pos)) by {
        assert forall|j: int| 0 <= j < pos implies !key_is::<Seq<char>>(k)(#[trigger] t[j]) by {
            assert(t[j] == s[j]);
            assert(t[j].0 != t[pos].0);
        }
    }
    lemma_first_found(t, key_is::<Seq<char>>(k), pos);
    // The other key sits where it sat before, if anywhere.
    let o = first_where(s, key_is::<Seq<char>>(other));
    if o >= 0 {
        assert(is_first(s, key_is::<Seq<char>>(other), choose|m: int| is_first(s, key_is::<Seq<char>>(other), m)));
        assert(o != pos);
        assert(is_first(t, key_is::<Seq<char>>(other), o)) by {
            assert(t[o] == s[o]);
            assert forall|j: int| 0 <= j < o implies !key_is::<Seq<char>>(other)(#[trigger] t[j]) by {
                if j == pos {
                    assert(t[j].0 == k);
                } else {
                    assert(t[j] == s[j]);
                }
            }
        }
        lemma_first_found(t, key_is::<Seq<char>>(other), o);
    } else {
        assert forall|j: int| 0 <= j < s.len() implies !key_is::<Seq<char>>(other)(#[trigger] s[j]) by {
            if key_is::<Seq<char>>(other)(s[j]) {
                lemma_first_exists(s, key_is::<Seq<char>>(other), j);
            }
        }
        assert forall|j: int| 0 <= j < t.len() implies !key_is::<Seq<char>>(other)(#[trigger] t[j]) by {
            if j == pos {
                assert(t[j].0 == k);
            } else {
                assert(t[j] == s[j]);
            }
        }
        lemma_first_absent(t, key_is::<Seq<char>>(other));
    }
}

/// Metadata field names and their values, each name once.
#[derive(Debug, Clone)]
pub struct FieldMap {
    pairs: Vec<(String, String)>,
}

pub open spec fn pair_views(v: Seq<(String, String)>) -> Seq<(Seq<char>, Seq<char>)> {
    v.map_values(|p: (String, String)| (p.0@, p.1@))
}

impl View for FieldMap {
    type V = Seq<(Seq<char>, Seq<char>)>;

    closed spec fn view(&self) -> Seq<(Seq<char>, Seq<char>)> {
        pair_views(self.pairs@)
    }
}

impl FieldMap {
    pub fn new() -> (m: FieldMap)
        ensures
            m@ == Seq::<(Seq<char>, Seq<char>)>::empty(),
            keys_distinct(m@),
    {
        let m = FieldMap { pairs: Vec::new() };
        assert(m@ =~= Seq::<(Seq<char>, Seq<char>)>::empty());
        m
    }

    /// The position of `key`, found by its first occurrence.
    fn position(&self, key: &str) -> (r: Option<usize>)
        ensures
            match r {
                Some(i) => i < self@.len() && first_where(self@, key_is::<Seq<char>>(key@)) == i,
                None => first_where(self@, key_is::<Seq<char>>(key@)) == -1,
            },
    {
        let n = self.pairs.len();
        for i in 0..n
            invariant
                n == self.pairs.len(),
                self@ == pair_views(self.pairs@),
                forall|j: int| 0 <= j < i ==> !key_is::<Seq<char>>(key@)(#[trigger] self@[j]),
        {
            if str_eq(self.pairs[i].0.as_str(), key) {
                proof {
                    assert(is_first(self@, key_is::<Seq<char>>(key@), i as int));
                    lemma_first_found(self@, key_is::<Seq<char>>(key@), i as int);
                }
                return Some(i);
            }
        }
        proof {
            lemma_first_absent(self@, key_is::<Seq<char>>(key@));
        }
        None
    }

    /// Set `key` to `value`, replacing any value it had.
    pub fn insert(&mut self, key: String, value: String)
        ensures
            final(self)@ == put_field(old(self)@, key@, value@),
            keys_distinct(old(self)@) ==> keys_distinct(final(self)@),
    {
        proof {
            if keys_distinct(self@) {
                lemma_put_field_distinct(self@, key@, value@);
            }
        }
        match self.position(key.as_str()) {
            Some(i) => {
                let ghost k = key@;
                let ghost v = value@;
                self.pairs.set(i, (key, value));
                assert(self@ =~= put_field(old(self)@, k, v));
            },
            None => {
                let ghost k = key@;
                let ghost v = value@;
                self.pairs.push((key, value));
                assert(self@ =~= put_field(old(self)@, k, v));
            },
        }
    }

    /// The value under `key`, if any.
    pub fn get(&self, key: &str) -> (r: Option<&String>)
        ensures
            match r {
                Some(v) => field_value(self@, key@) == Some(v@),
                None => field_value(self@, key@) is None,
            },
    {
        match self.position(key) {
            Some(i) => Some(&self.pairs[i].1),
            None => None,
        }
    }

    pub fn contains_key(&self, key: &str) -> (r: bool)
        ensures
            r == (field_value(self@, key@) is Some),
    {
        self.position(key).is_some()
    }

    /// How many fields there are.
    pub fn len(&self) -> (r: usize)
        ensures
            r == self@.len(),
    {
        self.pairs.len()
    }

    pub fn is_empty(&self) -> (r: bool)
        ensures
            r == (self@.len() == 0),
    {
        self.pairs.len() == 0
    }

    /// A copy holding the same fields in the same order.
    pub fn duplicate(&self) -> (r: FieldMap)
        ensures
            r@ == self@,
    {
        let mut pairs: Vec<(String, String)> = Vec::new();
        let n = self.pairs.len();
        for i in 0..n
            invariant
                n == self.pairs.len(),
                pair_views(pairs@) == pair_views(self.pairs@).take(i as int),
        {
            let k = self.pairs[i].0.clone();
            let v = self.pairs[i].1.clone();
            let ghost kv = (k@, v@);
            assert(pair_views(self.pairs@)[i as int] == kv);
            let ghost before = pair_views(pairs@);
            pairs.push((k, v));
            assert(pair_views(pairs@) =~= before.push(kv));
            assert(pair_views(pairs@) =~= pair_views(self.pairs@).take(i + 1));
        }
        assert(pair_views(self.pairs@).take(n as int) =~= pair_views(self.pairs@));
        FieldMap { pairs }
    }

    /// The fields in the order they were first set.
    pub fn pairs(&self) -> (r: &Vec<(String, String)>)
        ensures
            pair_views(r@) == self@,
    {
        &self.pairs
    }
}

} // verus!
