//! The `api` passthrough command: the request it sends for what was typed,
//! and the pages of a listing it walks through.

use vstd::prelude::*;
use crate::errors::CliError;
use crate::ids::{uuid_text, uuid_string};
use crate::text::{chars_of, string_of, spec_starts_with, decimal, u64_text, seq_join, views, join, upper, to_upper};

verus! {

/// `s` with every occurrence of `pattern`, from the left and not
/// overlapping, replaced by `with`.
pub open spec fn replace_all(s: Seq<char>, pattern: Seq<char>, with: Seq<char>) -> Seq<char>
    recommends
        pattern.len() > 0,
    decreases s.len(),
{
    if pattern.len() == 0 || s.len() < pattern.len() {
        s
    } else if s.take(pattern.len() as int) == pattern {
        with + replace_all(s.skip(pattern.len() as int), pattern, with)
    } else {
        seq![s[0]] + replace_all(s.skip(1), pattern, with)
    }
}

/// Whether `pattern` occurs in `v` at position `at`.
fn occurs_at(v: &Vec<char>, pattern: &Vec<char>, at: usize) -> (r: bool)
    requires
        at + pattern.len() <= v.len(),
    ensures
        r == (v@.subrange(at as int, at + pattern.len()) == pattern@),
{
    let m = pattern.len();
    let mut k: usize = 0;
    while k < m
        invariant
            k <= m == pattern.len(),
            at + m <= v.len(),
            forall|j: int| 0 <= j < k ==> v@[at + j] == pattern@[j],
        decreases m - k,
    {
        if v[at + k] != pattern[k] {
            assert(v@.subrange(at as int, at + m)[k as int] != pattern@[k as int]);
            return false;
        }
        k = k + 1;
    }
    assert(v@.subrange(at as int, at + m) =~= pattern@);
    true
}

/// `s` with every occurrence of `pattern` replaced by `with`.
fn replace_text(s: &str, pattern: &str, with: &str) -> (r: String)
    requires
        pattern@.len() > 0,
    ensures
        r@ == replace_all(s@, pattern@, with@),
{
    let v = chars_of(s);
    let p = chars_of(pattern);
    let n = v.len();
    let m = p.len();
    let mut out: Vec<char> = Vec::new();
    let mut i: usize = 0;
    let ghost w = with@;
    let wv = chars_of(with);
    assert(v@.skip(0) =~= v@);
    while i < n
        invariant
            n == v@.len(),
            m == p@.len() > 0,
            v@ == s@,
            p@ == pattern@,
            wv@ == w,
            w == with@,
            i <= n,
            out@ + replace_all(v@.skip(i as int), p@, w) == replace_all(v@, p@, w),
        decreases n - i,
    {
        let ghost rest = v@.skip(i as int);
        if m <= n - i && occurs_at(&v, &p, i) {
            assert(rest.take(m as int) =~= v@.subrange(i as int, i + m));
            assert(rest.skip(m as int) =~= v@.skip(i + m));
            let ghost before = out@;
            let mut k: usize = 0;
            while k < wv.len()
                invariant
                    k <= wv@.len(),
                    out@ == before + wv@.take(k as int),
                decreases wv@.len() - k,
            {
                out.push(wv[k]);
                assert(out@ =~= before + wv@.take(k + 1));
                k = k + 1;
            }
            assert(wv@.take(wv@.len() as int) =~= wv@);
            assert(before + (w + replace_all(rest.skip(m as int), p@, w)) =~= out@ + replace_all(
                v@.skip(i + m),
                p@,
                w,
            ));
            i = i + m;
        } else {
            if m <= n - i {
                assert(rest.take(m as int) =~= v@.subrange(i as int, i + m));
            }
            assert(rest.skip(1) =~= v@.skip(i + 1));
            assert(rest[0] == v@[i as int]);
            let ghost before = out@;
            out.push(v[i]);
            assert(before + (seq![v@[i as int]] + replace_all(rest.skip(1), p@, w)) =~= out@ + replace_all(
                v@.skip(i + 1),
                p@,
                w,
            ));
            i = i + 1;
        }
    }
    assert(v@.skip(n as int) =~= Seq::<char>::empty());
    assert(out@ + replace_all(v@.skip(n as int), p@, w) =~= out@);
    string_of(out.as_slice())
}

/// The path a request goes to: `{tenantId}`, wherever it occurs, stands for
/// the tenant's UUID.
pub fn tenant_path(raw_path: &str, tenant: u128) -> (r: String)
    ensures
        r@ == replace_all(raw_path@, "{tenantId}"@, uuid_text(tenant)),
{
    let id = uuid_string(tenant);
    proof {
        reveal_strlit("{tenantId}");
    }
    replace_text(raw_path, "{tenantId}", id.as_str())
}

/// The method a request is sent with: the one given, in upper case; without
/// one, `POST` when there is a body and `GET` otherwise.
pub fn request_method(method: Option<&str>, has_body: bool) -> (r: String)
    ensures
        r@ == match method {
            Some(m) => upper(m@),
            None => if has_body {
                "POST"@
            } else {
                "GET"@
            },
        },
{
    match method {
        Some(m) => to_upper(m),
        None => if has_body {
            String::from_str("POST")
        } else {
            String::from_str("GET")
        },
    }
}

/// A `-f`/`-F` field split at its first `=` into key and value; a field
/// without one is refused.
pub open spec fn spec_field_assignment(field: Seq<char>) -> Option<(Seq<char>, Seq<char>)> {
    if exists|i: int| 0 <= i < field.len() && field[i] == '=' {
        let i = choose|i: int|
            0 <= i < field.len() && field[i] == '=' && forall|j: int| 0 <= j < i ==> field[j] != '=';
        Some((field.take(i), field.skip(i + 1)))
    } else {
        None
    }
}

pub fn field_assignment(field: &str) -> (r: Result<(String, String), CliError>)
    ensures
        match spec_field_assignment(field@) {
            Some((k, v)) => r matches Ok((a, b)) && a@ == k && b@ == v,
            None => r matches Err(CliError::MissingRequiredArgument(m)) && m@ == "'"@ + field@
                + "' is not KEY=VALUE"@,
        },
{
    let v = chars_of(field);
    let n = v.len();
    let mut i: usize = 0;
    while i < n && v[i] != '='
        invariant
            i <= n == v@.len(),
            v@ == field@,
            forall|j: int| 0 <= j < i ==> v@[j] != '=',
        decreases n - i,
    {
        i = i + 1;
    }
    if i == n {
        let mut m = String::from_str("'");
        m.append(field);
        m.append("' is not KEY=VALUE");
        Err(CliError::MissingRequiredArgument(m))
    } else {
        proof {
            let c = choose|c: int|
                0 <= c < field@.len() && field@[c] == '=' && forall|j: int| 0 <= j < c ==> field@[j] != '=';
            assert(0 <= i < field@.len() && field@[i as int] == '=' && forall|j: int|
                0 <= j < i ==> field@[j] != '=');
            assert(c == i) by {
                if c < i {
                    assert(field@[c] != '=');
                } else if c > i {
                    assert(field@[i as int] != '=');
                }
            }
        }
        let key = string_of(&v.as_slice()[0..i]);
        let value = string_of(&v.as_slice()[i + 1..n]);
        assert(key@ =~= field@.take(i as int));
        assert(value@ =~= field@.skip(i + 1));
        Ok((key, value))
    }
}

/// Whether a query parameter is passed on to every page: not empty, and not
/// the page number, which the walk sets itself.
pub open spec fn kept_param(p: Seq<char>) -> bool {
    p.len() > 0 && !spec_starts_with(p, "page="@)
}

/// The parameters kept so far and the one being read, after reading `q`.
pub open spec fn query_state(q: Seq<char>) -> (Seq<Seq<char>>, Seq<char>)
    decreases q.len(),
{
    if q.len() == 0 {
        (seq![], seq![])
    } else {
        let (kept, cur) = query_state(q.drop_last());
        if q.last() == '&' {
            (if kept_param(cur) {
                kept.push(cur)
            } else {
                kept
            }, seq![])
        } else {
            (kept, cur.push(q.last()))
        }
    }
}

/// The parameters of a query between `&`, in order, without empty ones and
/// without the page number.
pub open spec fn query_params(q: Seq<char>) -> Seq<Seq<char>> {
    let (kept, cur) = query_state(q);
    if kept_param(cur) {
        kept.push(cur)
    } else {
        kept
    }
}

/// A listing path split for paging: the part before the first `?`, and
/// the parameters after it.
pub open spec fn spec_paging_split(path: Seq<char>) -> (Seq<char>, Seq<Seq<char>>) {
    if exists|i: int| 0 <= i < path.len() && path[i] == '?' {
        let i = choose|i: int|
            0 <= i < path.len() && path[i] == '?' && forall|j: int| 0 <= j < i ==> path[j] != '?';
        (path.take(i), query_params(path.skip(i + 1)))
    } else {
        (path, seq![])
    }
}

fn starts_with_page(v: &Vec<char>) -> (r: bool)
    ensures
        r == spec_starts_with(v@, "page="@),
{
    proof {
        reveal_strlit("page=");
    }
    if v.len() < 5 {
        return false;
    }
    let r = v[0] == 'p' && v[1] == 'a' && v[2] == 'g' && v[3] == 'e' && v[4] == '=';
    assert(r == (v@.take(5) =~= "page="@)) by {
        if r {
            assert(v@.take(5) =~= "page="@);
        } else {
            assert(v@.take(5) != "page="@) by {
                if v@.take(5) == "page="@ {
                    assert(v@.take(5)[0] == 'p');
                    assert(v@.take(5)[1] == 'a');
                    assert(v@.take(5)[2] == 'g');
                    assert(v@.take(5)[3] == 'e');
                    assert(v@.take(5)[4] == '=');
                }
            }
        }
    }
    r
}

/// Split a listing path for paging into its base and the parameters to pass
/// on to every page.
pub fn paging_split(path: &str) -> (r: (String, Vec<String>))
    ensures
        (r.0@, views(r.1@)) == spec_paging_split(path@),
{
    let v = chars_of(path);
    let n = v.len();
    let mut q: usize = 0;
    while q < n && v[q] != '?'
        invariant
            q <= n == v@.len(),
            v@ == path@,
            forall|j: int| 0 <= j < q ==> v@[j] != '?',
        decreases n - q,
    {
        q = q + 1;
    }
    if q == n {
        assert(!exists|i: int| 0 <= i < path@.len() && path@[i] == '?');
        return (String::from_str(path), Vec::new());
    }
    proof {
        let c = choose|c: int|
            0 <= c < path@.len() && path@[c] == '?' && forall|j: int| 0 <= j < c ==> path@[j] != '?';
        assert(0 <= q < path@.len() && path@[q as int] == '?' && forall|j: int| 0 <= j < q ==> path@[j] != '?');
        assert(c == q) by {
            if c < q {
                assert(path@[c] != '?');
            } else if c > q {
                assert(path@[q as int] != '?');
            }
        }
    }
    let base = string_of(&v.as_slice()[0..q]);
    assert(base@ =~= path@.take(q as int));
    let ghost query = path@.skip(q + 1);
    let mut kept: Vec<String> = Vec::new();
    let mut cur: Vec<char> = Vec::new();
    let mut i: usize = q + 1;
    while i < n
        invariant
            q < i <= n == v@.len(),
            v@ == path@,
            query == path@.skip(q + 1),
            (views(kept@), cur@) == query_state(query.take(i - q - 1)),
        decreases n - i,
    {
        let ghost k = i - q - 1;
        assert(query.take(k + 1).drop_last() =~= query.take(k));
        assert(query.take(k + 1).last() == v@[i as int]);
        if v[i] == '&' {
            if cur.len() > 0 && !starts_with_page(&cur) {
                let piece = string_of(cur.as_slice());
                let ghost before = views(kept@);
                kept.push(piece);
                assert(views(kept@) =~= before.push(cur@));
            }
            cur = Vec::new();
        } else {
            cur.push(v[i]);
        }
        i = i + 1;
    }
    assert(query.take(n - q - 1) =~= query);
    if cur.len() > 0 && !starts_with_page(&cur) {
        let piece = string_of(cur.as_slice());
        let ghost before = views(kept@);
        kept.push(piece);
        assert(views(kept@) =~= before.push(cur@));
    }
    (base, kept)
}

/// The address of one page of a listing: the base, `?`, and the kept
/// parameters followed by `page=<n>`, joined by `&`.
pub fn page_url(base: &str, params: &Vec<String>, page: u64) -> (r: String)
    ensures
        r@ == base@ + "?"@ + seq_join(views(params@).push("page="@ + decimal(page as nat)), "&"@),
{
    let mut all: Vec<String> = Vec::new();
    let n = params.len();
    for i in 0..n
        invariant
            n == params@.len(),
            views(all@) == views(params@).take(i as int),
    {
        let ghost before = views(all@);
        let item = params[i].clone();
        assert(views(params@)[i as int] == params@[i as int]@);
        all.push(item);
        assert(views(all@) =~= before.push(views(params@)[i as int]));
        assert(views(all@) =~= views(params@).take(i + 1));
    }
    assert(views(params@).take(n as int) =~= views(params@));
    let mut page_param = String::from_str("page=");
    let number = u64_text(page);
    page_param.append(number.as_str());
    let ghost before = views(all@);
    all.push(page_param);
    assert(views(all@) =~= before.push("page="@ + decimal(page as nat)));
    let mut url = String::from_str(base);
    url.append("?");
    let joined = join(&all, "&");
    url.append(joined.as_str());
    url
}

} // verus!
