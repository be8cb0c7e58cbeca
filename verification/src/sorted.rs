//! Code-point order on strings, and sorted sets of strings built with it.
//!
//! Rust orders `String`s by their UTF-8 bytes, which is the same as ordering
//! them character by character by code point: that is the order stated here.

use vstd::prelude::*;
use crate::text::{chars_of, views};

verus! {

/// `a` sorts strictly before `b`, comparing characters by code point and a
/// proper prefix before any of its extensions.
pub open spec fn lex_lt(a: Seq<char>, b: Seq<char>) -> bool
    decreases a.len(),
{
    if a.len() == 0 {
        b.len() > 0
    } else if b.len() == 0 {
        false
    } else if a[0] != b[0] {
        a[0] < b[0]
    } else {
        lex_lt(a.drop_first(), b.drop_first())
    }
}

pub proof fn lemma_lex_irreflexive(a: Seq<char>)
    ensures
        !lex_lt(a, a),
    decreases a.len(),
{
    if a.len() > 0 {
        lemma_lex_irreflexive(a.drop_first());
    }
}

pub proof fn lemma_lex_transitive(a: Seq<char>, b: Seq<char>, c: Seq<char>)
    requires
        lex_lt(a, b),
        lex_lt(b, c),
    ensures
        lex_lt(a, c),
    decreases a.len(),
{
    if a.len() > 0 && b.len() > 0 && c.len() > 0 {
        if a[0] == b[0] && b[0] == c[0] {
            lemma_lex_transitive(a.drop_first(), b.drop_first(), c.drop_first());
        }
    }
}

pub proof fn lemma_lex_total(a: Seq<char>, b: Seq<char>)
    ensures
        a == b || lex_lt(a, b) || lex_lt(b, a),
    decreases a.len(),
{
    if a.len() > 0 && b.len() > 0 {
        if a[0] == b[0] {
            lemma_lex_total(a.drop_first(), b.drop_first());
            if a.drop_first() == b.drop_first() {
                assert(a =~= seq![a[0]] + a.drop_first());
                assert(b =~= seq![b[0]] + b.drop_first());
            }
        } else {
        }
    } else if a.len() == 0 && b.len() == 0 {
        assert(a =~= b);
    }
}

proof fn lemma_lex_skip_step(a: Seq<char>, b: Seq<char>, i: int)
    requires
        0 <= i < a.len(),
        i < b.len(),
        a[i] == b[i],
    ensures
        lex_lt(a.skip(i), b.skip(i)) == lex_lt(a.skip(i + 1), b.skip(i + 1)),
{
    assert(a.skip(i).drop_first() =~= a.skip(i + 1));
    assert(b.skip(i).drop_first() =~= b.skip(i + 1));
}

/// Whether `a` sorts strictly before `b` in code-point order, as `a < b`
/// does on `str`.
pub fn str_less(a: &str, b: &str) -> (r: bool)
    ensures
        r == lex_lt(a@, b@),
{
    let va = chars_of(a);
    let vb = chars_of(b);
    let mut i: usize = 0;
    assert(va@.skip(0) =~= va@);
    assert(vb@.skip(0) =~= vb@);
    while i < va.len() && i < vb.len() && va[i] == vb[i]
        invariant
            i <= va.len(),
            i <= vb.len(),
            va@ == a@,
            vb@ == b@,
            lex_lt(a@, b@) == lex_lt(va@.skip(i as int), vb@.skip(i as int)),
        decreases va.len() - i,
    {
        proof {
            lemma_lex_skip_step(va@, vb@, i as int);
        }
        i = i + 1;
    }
    if i == va.len() {
        i < vb.len()
    } else if i == vb.len() {
        false
    } else {
        assert(va@.skip(i as int)[0] == va@[i as int]);
        assert(vb@.skip(i as int)[0] == vb@[i as int]);
        va[i] < vb[i]
    }
}

/// Every item of `s` sorts strictly before every later one: sorted, and no
/// item twice.
pub open spec fn strictly_sorted(s: Seq<Seq<char>>) -> bool {
    forall|i: int, j: int| 0 <= i < j < s.len() ==> lex_lt(#[trigger] s[i], #[trigger] s[j])
}

/// Add `x` to the sorted set `v`, keeping it sorted and free of repeats.
pub fn insert_sorted_unique(v: &mut Vec<String>, x: String)
    requires
        strictly_sorted(views(old(v)@)),
    ensures
        strictly_sorted(views(final(v)@)),
        views(final(v)@).to_set() == views(old(v)@).to_set().insert(x@),
{
    let ghost old_views = views(v@);
    let n = v.len();
    let mut k: usize = 0;
    while k < n && str_less(v[k].as_str(), x.as_str())
        invariant
            n == v.len(),
            k <= n,
            views(v@) == old_views,
            forall|i: int| 0 <= i < k ==> lex_lt(#[trigger] views(v@)[i], x@),
        decreases n - k,
    {
        k = k + 1;
    }
    if k < n && v[k] == x {
        assert(views(v@).to_set() =~= views(v@).to_set().insert(x@)) by {
            assert(views(v@)[k as int] == x@);
        }
        return;
    }
    proof {
        if k < n {
            lemma_lex_total(views(v@)[k as int], x@);
            assert(lex_lt(x@, views(v@)[k as int]));
            assert forall|j: int| k <= j < n implies lex_lt(x@, #[trigger] views(v@)[j]) by {
                if j > k {
                    lemma_lex_transitive(x@, views(v@)[k as int], views(v@)[j]);
                }
            }
        }
    }
    v.insert(k, x);
    let ghost nv = views(v@);
    assert(nv =~= old_views.insert(k as int, x@));
    assert forall|i: int, j: int| 0 <= i < j < nv.len() implies lex_lt(#[trigger] nv[i], #[trigger] nv[j]) by {
        if j < k {
            assert(nv[i] == old_views[i] && nv[j] == old_views[j]);
        } else if j == k {
            assert(nv[i] == old_views[i]);
        } else if i == k {
            assert(nv[j] == old_views[j - 1]);
        } else if i < k {
            assert(nv[i] == old_views[i] && nv[j] == old_views[j - 1]);
            assert(lex_lt(old_views[i], x@));
            assert(lex_lt(x@, old_views[j - 1]));
            lemma_lex_transitive(old_views[i], x@, old_views[j - 1]);
        } else {
            assert(nv[i] == old_views[i - 1] && nv[j] == old_views[j - 1]);
        }
    }
    assert forall|s: Seq<char>| nv.to_set().contains(s) <==> old_views.to_set().insert(x@).contains(s) by {
        if nv.to_set().contains(s) {
            let i = choose|i: int| 0 <= i < nv.len() && nv[i] == s;
            if i < k {
                assert(old_views[i] == s);
            } else if i > k {
                assert(old_views[i - 1] == s);
            }
        }
        if old_views.to_set().contains(s) && s != x@ {
            let i = choose|i: int| 0 <= i < old_views.len() && old_views[i] == s;
            if i < k {
                assert(nv[i] == s);
            } else {
                assert(nv[i + 1] == s);
            }
        }
        if s == x@ {
            assert(nv[k as int] == s);
        }
    }
    assert(nv.to_set() =~= old_views.to_set().insert(x@));
}

/// The distinct strings of `list` in code-point order, as sorting and then
/// removing adjacent repeats does.
pub fn sorted_unique(list: &Vec<String>) -> (r: Vec<String>)
    ensures
        strictly_sorted(views(r@)),
        views(r@).to_set() == views(list@).to_set(),
{
    let mut out: Vec<String> = Vec::new();
    let n = list.len();
    assert(views(out@).to_set() =~= views(list@).take(0).to_set());
    for i in 0..n
        invariant
            n == list.len(),
            strictly_sorted(views(out@)),
            views(out@).to_set() == views(list@).take(i as int).to_set(),
    {
        let item = list[i].clone();
        insert_sorted_unique(&mut out, item);
        assert(views(list@).take(i + 1) =~= views(list@).take(i as int).push(list@[i as int]@));
        proof {
            views(list@).take(i as int).lemma_push_to_set_commute(list@[i as int]@);
        }
    }
    assert(views(list@).take(n as int) =~= views(list@));
    out
}

} // verus!
