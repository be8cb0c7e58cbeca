//! Keeping each (reference, candidate) match pair once.

use vstd::prelude::*;
use std::collections::BTreeMap;
use vstd::std_specs::iter::IteratorSpec;

verus! {

broadcast use vstd::std_specs::btree::group_btree_axioms, vstd::laws_cmp::group_laws_cmp;

/// The key two assets share as a pair, whichever of them was searched: the
/// smaller UUID first.
pub open spec fn pair_key(reference: u128, candidate: u128) -> (u128, u128) {
    if reference < candidate {
        (reference, candidate)
    } else {
        (candidate, reference)
    }
}

/// The pair map after recording a match of `candidate` found by searching
/// `reference`: a pair seen for the first time is stored as searched; a pair
/// already stored is replaced only by its canonical direction (reference
/// sorting first) when the stored record is not canonical.
pub open spec fn spec_record_pair<T>(
    m: Map<(u128, u128), (bool, T)>,
    reference: u128,
    candidate: u128,
    record: T,
) -> Map<(u128, u128), (bool, T)> {
    let canonical = reference < candidate;
    let key = pair_key(reference, candidate);
    if !m.contains_key(key) || (canonical && !m[key].0) {
        m.insert(key, (canonical, record))
    } else {
        m
    }
}

/// Record one symmetric (reference, candidate) pair in a deduplicating map.
///
/// `(A,B)` and `(B,A)` share a key, so a pair searched from both ends is stored
/// once, and when both directions are seen the one whose reference sorts first
/// is kept, whatever order they came in. A record is stored only as it was
/// searched; the flag beside it says whether that was the canonical direction.
pub fn record_unique_pair<T>(
    deduped: &mut BTreeMap<(u128, u128), (bool, T)>,
    reference_uuid: u128,
    candidate_uuid: u128,
    record: T,
)
    ensures
        final(deduped)@ == spec_record_pair(old(deduped)@, reference_uuid, candidate_uuid, record),
{
    let is_canonical = reference_uuid < candidate_uuid;
    let key = if is_canonical {
        (reference_uuid, candidate_uuid)
    } else {
        (candidate_uuid, reference_uuid)
    };
    let replace = match deduped.get(&key) {
        None => true,
        Some(stored) => is_canonical && !stored.0,
    };
    if replace {
        deduped.insert(key, (is_canonical, record));
    }
}

/// Two records of different pairs, or of the same pair found from opposite
/// ends, leave the same map whichever is recorded first.
pub proof fn lemma_record_order_irrelevant<T>(
    m: Map<(u128, u128), (bool, T)>,
    r1: u128,
    c1: u128,
    x1: T,
    r2: u128,
    c2: u128,
    x2: T,
)
    requires
        r1 != c1,
        r2 != c2,
        !(r1 == r2 && c1 == c2),
    ensures
        spec_record_pair(spec_record_pair(m, r1, c1, x1), r2, c2, x2) == spec_record_pair(
            spec_record_pair(m, r2, c2, x2),
            r1,
            c1,
            x1,
        ),
{
    let a = spec_record_pair(spec_record_pair(m, r1, c1, x1), r2, c2, x2);
    let b = spec_record_pair(spec_record_pair(m, r2, c2, x2), r1, c1, x1);
    assert(a =~= b);
}

/// A pair searched from both ends keeps the canonical record, whichever end
/// was searched first.
pub proof fn lemma_canonical_record_survives<T>(
    m: Map<(u128, u128), (bool, T)>,
    low: u128,
    high: u128,
    forward: T,
    backward: T,
)
    requires
        low < high,
        !m.contains_key((low, high)),
    ensures
        spec_record_pair(spec_record_pair(m, low, high, forward), high, low, backward)[(low, high)] == (
        true, forward),
        spec_record_pair(spec_record_pair(m, high, low, backward), low, high, forward)[(low, high)] == (
        true, forward),
        spec_record_pair(spec_record_pair(m, low, high, forward), high, low, backward).dom() == m.dom().insert(
            (low, high),
        ),
{
    assert(spec_record_pair(spec_record_pair(m, low, high, forward), high, low, backward).dom()
        =~= m.dom().insert((low, high)));
}

/// The pair map after recording each of `calls` in turn, each a
/// (reference, candidate, record) as found.
pub open spec fn spec_record_all<T>(
    m: Map<(u128, u128), (bool, T)>,
    calls: Seq<(u128, u128, T)>,
) -> Map<(u128, u128), (bool, T)>
    decreases calls.len(),
{
    if calls.len() == 0 {
        m
    } else {
        let c = calls.last();
        spec_record_pair(spec_record_all(m, calls.drop_last()), c.0, c.1, c.2)
    }
}

/// No call pairs an asset with itself, and no (reference, candidate) pair is
/// searched twice in the same direction.
pub open spec fn distinct_directed<T>(calls: Seq<(u128, u128, T)>) -> bool {
    &&& forall|i: int| 0 <= i < calls.len() ==> (#[trigger] calls[i]).0 != calls[i].1
    &&& forall|i: int, j: int|
        0 <= i < j < calls.len() ==> !((#[trigger] calls[i]).0 == (#[trigger] calls[j]).0 && calls[i].1
            == calls[j].1)
}

/// Whether the set holds at most one record for each (reference, candidate).
pub open spec fn one_per_direction<T>(s: Set<(u128, u128, T)>) -> bool {
    forall|a: (u128, u128, T), b: (u128, u128, T)|
        #![trigger s.contains(a), s.contains(b)]
        s.contains(a) && s.contains(b) && a.0 == b.0 && a.1 == b.1 ==> a == b
}

/// Whether `s` holds a record found by searching `r` for `c`.
pub open spec fn found<T>(s: Set<(u128, u128, T)>, r: u128, c: u128) -> bool {
    exists|x: T| #[trigger] s.contains((r, c, x))
}

/// The record `s` holds for searching `r` for `c`.
pub open spec fn found_record<T>(s: Set<(u128, u128, T)>, r: u128, c: u128) -> T {
    choose|x: T| #[trigger] s.contains((r, c, x))
}

/// The deduplicated pairs of a set of found records: one key per pair of
/// assets, holding the record found from the asset that sorts first when
/// there is one (flagged canonical), and otherwise the one found from the
/// other end.
pub open spec fn expected_pairs<T>(s: Set<(u128, u128, T)>) -> Map<(u128, u128), (bool, T)> {
    Map::new(
        |k: (u128, u128)| k.0 < k.1 && (found(s, k.0, k.1) || found(s, k.1, k.0)),
        |k: (u128, u128)|
            if found(s, k.0, k.1) {
                (true, found_record(s, k.0, k.1))
            } else {
                (false, found_record(s, k.1, k.0))
            },
    )
}

proof fn lemma_found_record_is<T>(s: Set<(u128, u128, T)>, r: u128, c: u128, x: T)
    requires
        one_per_direction(s),
        s.contains((r, c, x)),
    ensures
        found(s, r, c),
        found_record(s, r, c) == x,
{
    let y = found_record(s, r, c);
    assert(s.contains((r, c, y)));
}

/// Recording a call whose direction the set does not hold yet.
proof fn lemma_expected_pairs_step<T>(s0: Set<(u128, u128, T)>, c: (u128, u128, T))
    requires
        one_per_direction(s0),
        c.0 != c.1,
        !found(s0, c.0, c.1),
        forall|e: (u128, u128, T)| #[trigger] s0.contains(e) ==> e.0 != e.1,
    ensures
        one_per_direction(s0.insert(c)),
        spec_record_pair(expected_pairs(s0), c.0, c.1, c.2) == expected_pairs(s0.insert(c)),
{
    let s1 = s0.insert(c);
    assert forall|a: (u128, u128, T), b: (u128, u128, T)|
        s1.contains(a) && s1.contains(b) && a.0 == b.0 && a.1 == b.1 implies a == b by {
        if a != c && b != c {
            assert(s0.contains(a) && s0.contains(b));
        } else if a == c && b != c {
            assert(s0.contains(b));
            assert(s0.contains((c.0, c.1, b.2)));
        } else if b == c && a != c {
            assert(s0.contains(a));
            assert(s0.contains((c.0, c.1, a.2)));
        }
    }
    lemma_found_record_is(s1, c.0, c.1, c.2);
    let e0 = expected_pairs(s0);
    let e1 = expected_pairs(s1);
    let r = spec_record_pair(e0, c.0, c.1, c.2);
    let key = pair_key(c.0, c.1);
    assert forall|k: (u128, u128)| #![trigger e0.contains_key(k)] #![trigger e1.contains_key(k)] #![trigger e1[k]] k != key implies (e1.contains_key(k) == e0.contains_key(k) && (
    e0.contains_key(k) ==> e1[k] == e0[k])) by {
        if k.0 < k.1 {
            assert forall|x: T| s1.contains((k.0, k.1, x)) implies s0.contains((k.0, k.1, x)) by {}
            assert forall|x: T| s1.contains((k.1, k.0, x)) implies s0.contains((k.1, k.0, x)) by {}
            if found(s1, k.0, k.1) {
                let x = choose|x: T| s1.contains((k.0, k.1, x));
                assert(s0.contains((k.0, k.1, x)));
                lemma_found_record_is(s0, k.0, k.1, x);
                lemma_found_record_is(s1, k.0, k.1, x);
            }
            if found(s1, k.1, k.0) {
                let x = choose|x: T| s1.contains((k.1, k.0, x));
                assert(s0.contains((k.1, k.0, x)));
                lemma_found_record_is(s0, k.1, k.0, x);
                lemma_found_record_is(s1, k.1, k.0, x);
            }
            if found(s0, k.0, k.1) {
                let x = choose|x: T| s0.contains((k.0, k.1, x));
                assert(s1.contains((k.0, k.1, x)));
            }
            if found(s0, k.1, k.0) {
                let x = choose|x: T| s0.contains((k.1, k.0, x));
                assert(s1.contains((k.1, k.0, x)));
            }
        }
    }
    // the key of the new call
    let (lo, hi) = key;
    assert(lo < hi);
    assert(e1.contains_key(key));
    if c.0 < c.1 {
        assert(r[key] == (true, c.2));
        assert(e1[key] == (true, c.2));
    } else {
        // found from the other end: the canonical direction, if held, stays
        assert(!found(s1, lo, hi) <==> !found(s0, lo, hi)) by {
            assert forall|x: T| s1.contains((lo, hi, x)) implies s0.contains((lo, hi, x)) by {}
            if found(s0, lo, hi) {
                let x = choose|x: T| s0.contains((lo, hi, x));
                assert(s1.contains((lo, hi, x)));
            }
        }
        if found(s0, lo, hi) {
            let x = choose|x: T| s0.contains((lo, hi, x));
            lemma_found_record_is(s0, lo, hi, x);
            assert(s1.contains((lo, hi, x)));
            lemma_found_record_is(s1, lo, hi, x);
            assert(e0.contains_key(key));
            assert(e0[key] == (true, x));
            assert(r[key] == e0[key]);
        } else {
            if found(s0, hi, lo) {
                let x = choose|x: T| s0.contains((hi, lo, x));
                assert(false);
            }
            assert(!e0.contains_key(key));
            assert(r[key] == (false, c.2));
            assert(e1[key] == (false, c.2));
        }
    }
    assert(r.contains_key(key) && r[key] == e1[key]);
    assert forall|k: (u128, u128)| #![auto] r.contains_key(k) == e1.contains_key(k) by {
        if k != key {
            assert(r.contains_key(k) == e0.contains_key(k));
        }
    }
    assert forall|k: (u128, u128)| #![auto] r.contains_key(k) implies r[k] == e1[k] by {
        if k != key {
            assert(r[k] == e0[k]);
        }
    }
    assert(r =~= e1);
}

/// Recording found pairs one by one, whatever their order, leaves the
/// deduplicated pairs of the set of calls: each pair of assets once, holding
/// the record found from the asset that sorts first when that end was
/// searched, and otherwise the record found from the other end.
pub proof fn lemma_record_all_is_expected<T>(calls: Seq<(u128, u128, T)>)
    requires
        distinct_directed(calls),
    ensures
        one_per_direction(calls.to_set()),
        spec_record_all(Map::empty(), calls) == expected_pairs(calls.to_set()),
    decreases calls.len(),
{
    if calls.len() == 0 {
        assert(calls.to_set() =~= Set::<(u128, u128, T)>::empty());
        assert(expected_pairs(calls.to_set()) =~= Map::<(u128, u128), (bool, T)>::empty());
    } else {
        let pre = calls.drop_last();
        let c = calls.last();
        assert forall|i: int| 0 <= i < pre.len() implies (#[trigger] pre[i]).0 != pre[i].1 by {
            assert(pre[i] == calls[i]);
        }
        assert forall|i: int, j: int| 0 <= i < j < pre.len() implies !((#[trigger] pre[i]).0 == (
        #[trigger] pre[j]).0 && pre[i].1 == pre[j].1) by {
            assert(pre[i] == calls[i] && pre[j] == calls[j]);
        }
        lemma_record_all_is_expected(pre);
        let s0 = pre.to_set();
        assert(calls.to_set() =~= s0.insert(c)) by {
            assert(calls =~= pre.push(c));
            assert forall|a: (u128, u128, T)| calls.to_set().contains(a) implies s0.insert(c).contains(a) by {
                let i = choose|i: int| 0 <= i < calls.len() && calls[i] == a;
                if i < pre.len() {
                    assert(pre[i] == a);
                }
            }
            assert forall|a: (u128, u128, T)| s0.insert(c).contains(a) implies calls.to_set().contains(a) by {
                if a == c {
                    assert(calls[calls.len() - 1] == a);
                } else {
                    let i = choose|i: int| 0 <= i < pre.len() && pre[i] == a;
                    assert(calls[i] == a);
                }
            }
        }
        assert(c.0 != c.1) by {
            assert(calls[calls.len() - 1] == c);
        }
        assert forall|e: (u128, u128, T)| #[trigger] s0.contains(e) implies e.0 != e.1 by {
            let i = choose|i: int| 0 <= i < pre.len() && pre[i] == e;
            assert(pre[i] == e);
        }
        if found(s0, c.0, c.1) {
            let x = choose|x: T| s0.contains((c.0, c.1, x));
            let i = choose|i: int| 0 <= i < pre.len() && pre[i] == (c.0, c.1, x);
            assert(calls[i] == pre[i]);
            assert(calls[calls.len() - 1] == c);
            assert(false);
        }
        lemma_expected_pairs_step(s0, c);
    }
}

/// Found pairs recorded in any order leave the same map: two call lists that
/// hold the same calls give the same deduplicated pairs.
pub proof fn lemma_record_any_order<T>(calls: Seq<(u128, u128, T)>, reordered: Seq<(u128, u128, T)>)
    requires
        distinct_directed(calls),
        distinct_directed(reordered),
        calls.to_set() == reordered.to_set(),
    ensures
        spec_record_all(Map::empty(), calls) == spec_record_all(Map::empty(), reordered),
{
    lemma_record_all_is_expected(calls);
    lemma_record_all_is_expected(reordered);
}

/// Pair keys compare as a total order, as `BTreeMap` needs.
pub open spec fn pair_keys_ordered() -> bool {
    vstd::laws_cmp::obeys_cmp::<(u128, u128)>()
}

/// Pair keys are ordered as `BTreeMap` needs.
proof fn lemma_pair_keys_are_ordered()
    ensures
        vstd::std_specs::btree::key_obeys_cmp_spec::<(u128, u128)>(),
        pair_keys_ordered(),
{
    assert(vstd::laws_cmp::obeys_cmp::<(u128, u128)>());
}

/// The keys a `BTreeMap` of pairs yields come in increasing order.
proof fn lemma_keys_in_order(ks: Seq<&(u128, u128)>)
    requires
        vstd::std_specs::btree::increasing_seq(ks),
    ensures
        keys_ascending(ks.unref()),
{
    assert(vstd::laws_cmp::obeys_cmp::<&(u128, u128)>());
    let u = ks.unref();
    assert forall|i: int, j: int| 0 <= i < j < u.len() implies (#[trigger] u[i]).0 < (#[trigger] u[j]).0 || (
    u[i].0 == u[j].0 && u[i].1 < u[j].1) by {
        assert(vstd::std_specs::cmp::OrdSpec::cmp_spec(&ks[i], &ks[j]) is Less);
    }
}

/// Keys in increasing order: by the first asset, then the second.
pub open spec fn keys_ascending(keys: Seq<(u128, u128)>) -> bool {
    forall|i: int, j: int|
        0 <= i < j < keys.len() ==> (#[trigger] keys[i]).0 < (#[trigger] keys[j]).0 || (keys[i].0
            == keys[j].0 && keys[i].1 < keys[j].1)
}

/// The records of the deduplicated pairs, in the order of their keys.
pub open spec fn records_by_key<T>(m: Map<(u128, u128), (bool, T)>, keys: Seq<(u128, u128)>) -> Seq<T> {
    keys.map_values(|k: (u128, u128)| m[k].1)
}

/// `records` are the records of `m`, one per key, in increasing key order.
pub open spec fn in_key_order<T>(m: Map<(u128, u128), (bool, T)>, records: Seq<T>) -> bool {
    exists|keys: Seq<(u128, u128)>|
        {
            &&& keys_ascending(keys)
            &&& keys.no_duplicates()
            &&& keys.to_set() == m.dom()
            &&& records == records_by_key(m, keys)
        }
}

/// The records kept, one per pair of assets, in the order of the pairs'
/// keys: so a report lists its pairs the same way whatever order the
/// searches finished in.
pub fn records_in_key_order<T>(deduped: BTreeMap<(u128, u128), (bool, T)>) -> (r: Vec<T>)
    ensures
        in_key_order(deduped@, r@),
{
    let ghost start = deduped@;
    let mut m = deduped;
    let mut keys: Vec<(u128, u128)> = Vec::new();
    proof {
        lemma_pair_keys_are_ordered();
    }
    let iter = m.keys();
    let ghost ks = vstd::std_specs::btree::spec_keys_iter(&m).remaining();
    assert(iter == vstd::std_specs::btree::spec_keys_iter(&m));
    for k in it: iter
        invariant
            it.seq() == ks,
            keys@ == ks.take(it.index()).map_values(|p: &(u128, u128)| *p),
    {
        keys.push(*k);
    }
    assert(keys@ == ks.map_values(|p: &(u128, u128)| *p));
    assert(keys@ =~= ks.unref());
    proof {
        lemma_keys_in_order(ks);
    }
    assert(keys@.to_set() == start.dom());
    assert(keys_ascending(keys@));
    let mut out: Vec<T> = Vec::new();
    let n = keys.len();
    for i in 0..n
        invariant
            n == keys.len(),
            keys@.no_duplicates(),
            keys@.to_set() == start.dom(),
            pair_keys_ordered(),
            m@ == start.remove_keys(keys@.take(i as int).to_set()),
            out@ == records_by_key(start, keys@.take(i as int)),
    {
        let k = keys[i];
        proof {
            assert(keys@.take(i + 1) =~= keys@.take(i as int).push(k));
            assert(keys@.to_set().contains(k));
            assert(!keys@.take(i as int).to_set().contains(k)) by {
                if keys@.take(i as int).contains(k) {
                    let j = choose|j: int| 0 <= j < i && keys@.take(i as int)[j] == k;
                    assert(keys@[j] == keys@[i as int]);
                }
            }
            keys@.take(i as int).lemma_push_to_set_commute(k);
            assert(keys@.take(i + 1).to_set() =~= keys@.take(i as int).to_set().insert(k));
        }
        match m.remove(&k) {
            Some(v) => {
                out.push(v.1);
            },
            None => {},
        }
        assert(m@ =~= start.remove_keys(keys@.take(i + 1).to_set()));
        assert(out@ =~= records_by_key(start, keys@.take(i + 1)));
    }
    assert(keys@.take(n as int) =~= keys@);
    out
}

/// Recording two lists of calls one after the other is recording the two
/// lists joined.
pub proof fn lemma_record_all_append<T>(
    m: Map<(u128, u128), (bool, T)>,
    a: Seq<(u128, u128, T)>,
    b: Seq<(u128, u128, T)>,
)
    ensures
        spec_record_all(m, a + b) == spec_record_all(spec_record_all(m, a), b),
    decreases b.len(),
{
    if b.len() == 0 {
        assert(a + b =~= a);
    } else {
        lemma_record_all_append(m, a, b.drop_last());
        assert((a + b).drop_last() =~= a + b.drop_last());
        assert((a + b).last() == b.last());
    }
}

} // verus!
