//! Physna folder and asset paths.
//!
//! A path is a list of names separated by `/`. Empty names (from repeated,
//! leading or trailing slashes) carry no meaning, and a first name of `Home`,
//! in any case, is how Physna shows the root folder, so it names the root too.

use vstd::prelude::*;
use crate::text::{
    chars_of, string_of, eq_ignore_ascii_case_chars, spec_eq_ignore_ascii_case, seq_join, views,
    join,
};

verus! {

/// The names finished so far and the name being read, after reading `s`.
pub open spec fn split_state(s: Seq<char>) -> (Seq<Seq<char>>, Seq<char>)
    decreases s.len(),
{
    if s.len() == 0 {
        (seq![], seq![])
    } else {
        let (done, cur) = split_state(s.drop_last());
        if s.last() == '/' {
            if cur.len() > 0 {
                (done.push(cur), seq![])
            } else {
                (done, seq![])
            }
        } else {
            (done, cur.push(s.last()))
        }
    }
}

/// The non-empty names of `s` between slashes, in order.
pub open spec fn names_of(s: Seq<char>) -> Seq<Seq<char>> {
    let (done, cur) = split_state(s);
    if cur.len() > 0 {
        done.push(cur)
    } else {
        done
    }
}

pub open spec fn home_name() -> Seq<char> {
    seq!['h', 'o', 'm', 'e']
}

/// The names of the folders and asset that `s` leads to from the root.
pub open spec fn path_names(s: Seq<char>) -> Seq<Seq<char>> {
    let names = names_of(s);
    if names.len() > 0 && spec_eq_ignore_ascii_case(names[0], home_name()) {
        names.drop_first()
    } else {
        names
    }
}

/// The normal form of a path: `/`, then its names joined by `/`.
pub open spec fn spec_normalize_path(s: Seq<char>) -> Seq<char> {
    "/"@ + seq_join(path_names(s), "/"@)
}

/// The form a batch file's asset path is looked up by: the normal form
/// without its leading slash.
pub open spec fn spec_batch_asset_path(s: Seq<char>) -> Seq<char> {
    seq_join(path_names(s), "/"@)
}

/// Whether `s` names the root folder.
pub open spec fn spec_is_root(s: Seq<char>) -> bool {
    path_names(s).len() == 0
}

/// The names of `path`, with a leading `Home` dropped.
fn path_name_list(path: &str) -> (r: Vec<String>)
    ensures
        views(r@) == path_names(path@),
{
    let v = chars_of(path);
    let n = v.len();
    let mut done: Vec<String> = Vec::new();
    let mut cur: Vec<char> = Vec::new();
    for i in 0..n
        invariant
            n == v.len(),
            v@ == path@,
            (views(done@), cur@) == split_state(v@.take(i as int)),
    {
        assert(v@.take(i + 1).drop_last() =~= v@.take(i as int));
        if v[i] == '/' {
            if cur.len() > 0 {
                let name = string_of(cur.as_slice());
                done.push(name);
                assert(views(done@) =~= split_state(v@.take(i as int)).0.push(cur@));
                cur = Vec::new();
            }
        } else {
            cur.push(v[i]);
        }
    }
    assert(v@.take(n as int) =~= v@);
    if cur.len() > 0 {
        let name = string_of(cur.as_slice());
        done.push(name);
        assert(views(done@) =~= split_state(v@).0.push(cur@));
    }
    let ghost names = views(done@);
    assert(names == names_of(path@));
    if done.len() > 0 {
        let first = chars_of(done[0].as_str());
        let home: [char; 4] = ['h', 'o', 'm', 'e'];
        assert(home@ =~= home_name());
        if eq_ignore_ascii_case_chars(first.as_slice(), home.as_slice()) {
            done.remove(0);
            assert(views(done@) =~= names.drop_first());
        }
    }
    done
}

/// The normal form of `path`: a leading `/`, the names joined by single
/// slashes, no trailing slash, and a leading `Home` taken as the root.
pub fn normalize_path(path: &str) -> (r: String)
    ensures
        r@ == spec_normalize_path(path@),
{
    let names = path_name_list(path);
    let mut out = String::from_str("/");
    let joined = join(&names, "/");
    out.append(joined.as_str());
    out
}

/// The path a batch row's asset is looked up by: `/Home/NX/1.prt`,
/// `/NX/1.prt` and `NX/1.prt` all become `NX/1.prt`.
pub fn normalize_batch_asset_path(raw: &str) -> (r: String)
    ensures
        r@ == spec_batch_asset_path(raw@),
{
    let names = path_name_list(raw);
    join(&names, "/")
}

/// Whether `path` names the root folder (`/`, `/Home`, `//` and the like).
pub fn is_root_path(path: &str) -> (r: bool)
    ensures
        r == spec_is_root(path@),
{
    path_name_list(path).len() == 0
}

/// A name as a path holds it: not empty, and without a slash.
pub open spec fn is_name(w: Seq<char>) -> bool {
    w.len() > 0 && forall|i: int| 0 <= i < w.len() ==> w[i] != '/'
}

proof fn lemma_split_state_names(s: Seq<char>)
    ensures
        forall|i: int| 0 <= i < split_state(s).0.len() ==> is_name(#[trigger] split_state(s).0[i]),
        forall|i: int| 0 <= i < split_state(s).1.len() ==> split_state(s).1[i] != '/',
    decreases s.len(),
{
    if s.len() > 0 {
        lemma_split_state_names(s.drop_last());
        let (done, cur) = split_state(s.drop_last());
        if s.last() != '/' {
            assert forall|i: int| 0 <= i < cur.push(s.last()).len() implies cur.push(s.last())[i] != '/' by {
                if i < cur.len() {
                    assert(cur.push(s.last())[i] == cur[i]);
                }
            }
        }
    }
}

proof fn lemma_path_names_are_names(s: Seq<char>)
    ensures
        forall|i: int| 0 <= i < path_names(s).len() ==> is_name(#[trigger] path_names(s)[i]),
{
    lemma_split_state_names(s);
    let (done, cur) = split_state(s);
    let names = names_of(s);
    assert forall|i: int| 0 <= i < names.len() implies is_name(#[trigger] names[i]) by {
        if i < done.len() {
            assert(names[i] == done[i]);
        }
    }
    if names.len() > 0 && spec_eq_ignore_ascii_case(names[0], home_name()) {
        assert forall|i: int| 0 <= i < names.drop_first().len() implies is_name(
            #[trigger] names.drop_first()[i],
        ) by {
            assert(names.drop_first()[i] == names[i + 1]);
        }
    }
}

proof fn lemma_split_word(p: Seq<char>, w: Seq<char>)
    requires
        split_state(p).1.len() == 0,
        forall|i: int| 0 <= i < w.len() ==> w[i] != '/',
    ensures
        split_state(p + w) == (split_state(p).0, w),
    decreases w.len(),
{
    if w.len() == 0 {
        assert(p + w =~= p);
    } else {
        lemma_split_word(p, w.drop_last());
        assert((p + w).drop_last() =~= p + w.drop_last());
        assert((p + w).last() == w.last());
        assert(w.drop_last().push(w.last()) =~= w);
    }
}

proof fn lemma_split_slash(p: Seq<char>)
    ensures
        split_state(p + seq!['/']) == (names_of(p), Seq::<char>::empty()),
{
    assert((p + seq!['/']).drop_last() =~= p);
}

proof fn lemma_split_root()
    ensures
        split_state(seq!['/']) == (Seq::<Seq<char>>::empty(), Seq::<char>::empty()),
{
    let e = Seq::<char>::empty();
    assert(split_state(e) == (Seq::<Seq<char>>::empty(), Seq::<char>::empty()));
    assert(seq!['/'].drop_last() =~= e);
    assert(seq!['/'].last() == '/');
}

proof fn lemma_split_joined(ns: Seq<Seq<char>>)
    requires
        ns.len() > 0,
        forall|i: int| 0 <= i < ns.len() ==> is_name(#[trigger] ns[i]),
    ensures
        split_state(seq!['/'] + seq_join(ns, "/"@)) == (ns.drop_last(), ns.last()),
    decreases ns.len(),
{
    reveal_strlit("/");
    lemma_split_root();
    if ns.len() == 1 {
        assert(is_name(ns[0]));
        lemma_split_word(seq!['/'], ns[0]);
        assert(ns.drop_last() =~= Seq::<Seq<char>>::empty());
    } else {
        let dl = ns.drop_last();
        assert forall|i: int| 0 <= i < dl.len() implies is_name(#[trigger] dl[i]) by {
            assert(dl[i] == ns[i]);
        }
        lemma_split_joined(dl);
        let prefix = seq!['/'] + seq_join(dl, "/"@);
        assert(names_of(prefix) =~= dl) by {
            assert(is_name(dl.last()));
            assert(dl.drop_last().push(dl.last()) =~= dl);
        }
        lemma_split_slash(prefix);
        assert(is_name(ns.last()));
        lemma_split_word(prefix + seq!['/'], ns.last());
        assert(seq!['/'] + seq_join(ns, "/"@) =~= (prefix + seq!['/']) + ns.last());
    }
}

proof fn lemma_names_of_normal(ns: Seq<Seq<char>>)
    requires
        forall|i: int| 0 <= i < ns.len() ==> is_name(#[trigger] ns[i]),
    ensures
        names_of("/"@ + seq_join(ns, "/"@)) == ns,
{
    reveal_strlit("/");
    assert("/"@ =~= seq!['/']);
    if ns.len() == 0 {
        assert("/"@ + seq_join(ns, "/"@) =~= seq!['/']);
        lemma_split_root();
    } else {
        lemma_split_joined(ns);
        assert(is_name(ns.last()));
        assert(ns.drop_last().push(ns.last()) =~= ns);
    }
}

/// A path already in normal form stays as it is: normalizing twice is
/// normalizing once, unless the first name left is itself `Home`, which the
/// second pass would read as the root.
pub proof fn lemma_normalize_is_idempotent(s: Seq<char>)
    requires
        !(path_names(s).len() > 0 && spec_eq_ignore_ascii_case(path_names(s)[0], home_name())),
    ensures
        spec_normalize_path(spec_normalize_path(s)) == spec_normalize_path(s),
{
    lemma_path_names_are_names(s);
    lemma_names_of_normal(path_names(s));
}

} // verus!
