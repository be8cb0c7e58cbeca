//! The decisions of a folder match run that surround its searches: how many
//! searches may run at once, which matches a run keeps, where a match's
//! comparison page is, and what the finished report says of itself.

use vstd::prelude::*;
use crate::errors::CliError;
use crate::pairs::{record_unique_pair, records_in_key_order, spec_record_all, in_key_order, lemma_record_all_append};
use crate::search::{
    SearchFailure, SearchOutcomes, IncompleteSearch, Tally, tally_run, spec_summary, tally_materially_incomplete,
    finish_search_outcomes, lemma_tally_counts_every_search,
};
use std::collections::BTreeMap;
use crate::ids::{uuid_text, uuid_string};
use crate::paths::{normalize_path, spec_normalize_path, is_root_path, spec_is_root};
use crate::text::{
    chars_of, string_of, str_eq, starts_with, spec_starts_with, decimal, u64_text, group_thousands,
    human_count, drop_trailing, views, is_slash,
};

verus! {

/// The most searches a run may have in flight at once.
pub const MAX_CONCURRENT_SEARCHES: usize = 10;

/// The number of searches to run at once: one unless asked otherwise, and
/// only a number from 1 to 10 may be asked for.
pub fn validate_concurrency(requested: Option<usize>) -> (r: Result<usize, CliError>)
    ensures
        match requested {
            None => r == Ok::<usize, CliError>(1),
            Some(v) => if 1 <= v <= MAX_CONCURRENT_SEARCHES {
                r == Ok::<usize, CliError>(v)
            } else {
                r matches Err(CliError::MissingRequiredArgument(m))
                    && m@ == "Invalid value for '--concurrent': must be between 1 and 10, got "@ + decimal(v as nat)
            },
        },
{
    match requested {
        None => Ok(1),
        Some(v) => {
            if 1 <= v && v <= MAX_CONCURRENT_SEARCHES {
                Ok(v)
            } else {
                let mut m = String::from_str("Invalid value for '--concurrent': must be between 1 and 10, got ");
                let n = u64_text(v as u64);
                m.append(n.as_str());
                Err(CliError::MissingRequiredArgument(m))
            }
        },
    }
}

/// The position of the first path that names the tenant root, if any. The
/// root has no UUID, and naming it means the search is not limited to any
/// folder: the folders before it are resolved, and then the filter is dropped.
pub fn first_root_path(folder_paths: &Vec<String>) -> (r: Option<usize>)
    ensures
        match r {
            Some(i) => i < folder_paths@.len() && spec_is_root(folder_paths@[i as int]@) && forall|j: int|
                0 <= j < i ==> !spec_is_root(#[trigger] folder_paths@[j]@),
            None => forall|j: int| 0 <= j < folder_paths@.len() ==> !spec_is_root(#[trigger] folder_paths@[j]@),
        },
{
    let n = folder_paths.len();
    for i in 0..n
        invariant
            n == folder_paths@.len(),
            forall|j: int| 0 <= j < i ==> !spec_is_root(#[trigger] folder_paths@[j]@),
    {
        if is_root_path(folder_paths[i].as_str()) {
            return Some(i);
        }
    }
    None
}

/// Whether the normalized `path` lies in the normalized `folder`: everything
/// lies in the root, and otherwise the path is the folder or below it.
pub open spec fn spec_within_folder(path: Seq<char>, folder: Seq<char>) -> bool {
    folder == "/"@ || path == folder || spec_starts_with(path, folder + "/"@)
}

/// Whether `path` lies in one of `folders`, both taken in normal form.
pub open spec fn in_any_folder(path: Seq<char>, folders: Seq<Seq<char>>) -> bool {
    exists|i: int| 0 <= i < folders.len() && spec_within_folder(spec_normalize_path(path), spec_normalize_path(#[trigger] folders[i]))
}

/// Whether a run keeps the match of `candidate` found for `reference`: never
/// an asset's match with itself, and with `exclusive` only a match whose two
/// assets both lie in the folders the run was given.
pub open spec fn spec_keep_match(
    reference: u128,
    candidate: u128,
    exclusive: bool,
    folders: Seq<Seq<char>>,
    reference_path: Seq<char>,
    candidate_path: Seq<char>,
) -> bool {
    reference != candidate && (!exclusive || (in_any_folder(candidate_path, folders) && in_any_folder(
        reference_path,
        folders,
    )))
}

fn within_folder(path: &String, folder: &String) -> (r: bool)
    ensures
        r == spec_within_folder(path@, folder@),
{
    if str_eq(folder.as_str(), "/") || str_eq(path.as_str(), folder.as_str()) {
        proof {
            reveal_strlit("/");
        }
        return true;
    }
    let mut below = folder.clone();
    below.append("/");
    starts_with(path.as_str(), below.as_str())
}

/// Whether `path` lies in one of `folder_paths`.
fn lies_in_any(path: &str, folder_paths: &Vec<String>) -> (r: bool)
    ensures
        r == in_any_folder(path@, views(folder_paths@)),
{
    let p = normalize_path(path);
    let n = folder_paths.len();
    for i in 0..n
        invariant
            n == folder_paths@.len(),
            p@ == spec_normalize_path(path@),
            forall|j: int| 0 <= j < i ==> !spec_within_folder(p@, spec_normalize_path(#[trigger] views(folder_paths@)[j])),
    {
        let f = normalize_path(folder_paths[i].as_str());
        assert(views(folder_paths@)[i as int] == folder_paths@[i as int]@);
        if within_folder(&p, &f) {
            return true;
        }
    }
    false
}

/// Whether a run keeps the match of `candidate` found for `reference`.
pub fn keep_match(
    reference: u128,
    candidate: u128,
    exclusive: bool,
    folder_paths: &Vec<String>,
    reference_path: &str,
    candidate_path: &str,
) -> (r: bool)
    ensures
        r == spec_keep_match(reference, candidate, exclusive, views(folder_paths@), reference_path@, candidate_path@),
{
    if reference == candidate {
        return false;
    }
    if !exclusive {
        return true;
    }
    lies_in_any(candidate_path, folder_paths) && lies_in_any(reference_path, folder_paths)
}

/// The address of the page comparing `reference` with `candidate`: under the
/// UI's base address without trailing slashes, `/tenants/` (or just `/` when
/// the base already ends in `/tenants`), the tenant's name, `/compare`, and the
/// two assets and the tenant as query parameters, followed by `search`.
pub open spec fn spec_comparison_url(
    ui_base_url: Seq<char>,
    tenant_name: Seq<char>,
    tenant: u128,
    reference: u128,
    candidate: u128,
    search: Seq<char>,
) -> Seq<char> {
    let base = drop_trailing(ui_base_url, is_slash());
    let tenants = if base.len() >= 8 && base.skip(base.len() - 8) == "/tenants"@ {
        base + "/"@
    } else {
        base + "/tenants/"@
    };
    tenants + tenant_name + "/compare?asset1Id="@ + uuid_text(reference) + "&asset2Id="@ + uuid_text(candidate)
        + "&tenant1Id="@ + uuid_text(tenant) + "&tenant2Id="@ + uuid_text(tenant) + "&"@ + search
}

/// The length of `v` without the slashes at its end.
pub fn without_trailing_slashes(v: &Vec<char>) -> (r: usize)
    ensures
        r <= v.len(),
        v@.take(r as int) == drop_trailing(v@, is_slash()),
{
    let mut j: usize = v.len();
    assert(v@.take(j as int) =~= v@);
    while j > 0 && v[j - 1] == '/'
        invariant
            j <= v.len(),
            drop_trailing(v@, is_slash()) == drop_trailing(v@.take(j as int), is_slash()),
        decreases j,
    {
        assert(v@.take(j as int).drop_last() =~= v@.take(j - 1));
        j = j - 1;
    }
    let ghost t = v@.take(j as int);
    assert(drop_trailing(t, is_slash()) == t) by {
        if t.len() > 0 {
            assert(t.last() == v@[j - 1]);
        }
    }
    j
}

/// The address of the page comparing two matched assets; `search` is the
/// query that says which search found the match (such as
/// `searchType=visual`).
pub fn comparison_url(
    ui_base_url: &str,
    tenant_name: &str,
    tenant: u128,
    reference: u128,
    candidate: u128,
    search: &str,
) -> (r: String)
    ensures
        r@ == spec_comparison_url(ui_base_url@, tenant_name@, tenant, reference, candidate, search@),
{
    let chars = chars_of(ui_base_url);
    let end = without_trailing_slashes(&chars);
    let base_chars = chars.as_slice();
    let mut url = string_of(&base_chars[0..end]);
    assert(url@ == drop_trailing(ui_base_url@, is_slash()));
    let ghost base = url@;
    let suffix = ['/', 't', 'e', 'n', 'a', 'n', 't', 's'];
    let mut ends = end >= 8;
    if ends {
        let mut k: usize = 0;
        while k < 8
            invariant
                end >= 8,
                end <= chars@.len(),
                k <= 8,
                base == chars@.take(end as int),
                ends <==> forall|m: int| 0 <= m < k ==> base[end - 8 + m] == suffix@[m],
            decreases 8 - k,
        {
            if chars[end - 8 + k] != suffix[k] {
                ends = false;
            }
            k = k + 1;
        }
        proof {
            reveal_strlit("/tenants");
            if ends {
                assert(base.skip(base.len() - 8) =~= "/tenants"@);
            } else {
                let m = choose|m: int| 0 <= m < 8 && base[end - 8 + m] != suffix@[m];
                assert(base.skip(base.len() - 8)[m] != "/tenants"@[m]);
            }
        }
    }
    if ends {
        url.append("/");
    } else {
        url.append("/tenants/");
    }
    url.append(tenant_name);
    url.append("/compare?asset1Id=");
    let a = uuid_string(reference);
    url.append(a.as_str());
    url.append("&asset2Id=");
    let b = uuid_string(candidate);
    url.append(b.as_str());
    url.append("&tenant1Id=");
    let t = uuid_string(tenant);
    url.append(t.as_str());
    url.append("&tenant2Id=");
    url.append(t.as_str());
    url.append("&");
    url.append(search);
    url
}

/// The closing line of a finished report.
pub fn report_summary(rows: usize) -> (r: String)
    ensures
        r@ == "Built report of "@ + group_thousands(decimal(rows as nat)) + " row(s)"@,
{
    let mut s = String::from_str("Built report of ");
    let n = human_count(rows as u64);
    s.append(n.as_str());
    s.append(" row(s)");
    s
}

/// A run never keeps an asset's match with itself, whatever the folders.
pub proof fn lemma_never_keeps_a_self_match(
    asset: u128,
    exclusive: bool,
    folders: Seq<Seq<char>>,
    reference_path: Seq<char>,
    candidate_path: Seq<char>,
)
    ensures
        !spec_keep_match(asset, asset, exclusive, folders, reference_path, candidate_path),
{
}

/// Every path lies in the root, however the root is written: a run given a
/// root path keeps every match of two different assets, exclusive or not.
pub proof fn lemma_the_root_holds_everything(folders: Seq<Seq<char>>, i: int, path: Seq<char>)
    requires
        0 <= i < folders.len(),
        spec_is_root(folders[i]),
    ensures
        in_any_folder(path, folders),
{
    reveal_strlit("/");
    assert(spec_normalize_path(folders[i]) =~= "/"@);
    assert(spec_within_folder(spec_normalize_path(path), spec_normalize_path(folders[i])));
}

/// What one asset's search gave: the asset searched from, the matches kept
/// (each a candidate and its row), and how the search failed, if it did.
pub type SearchResult<T> = (u128, Vec<(u128, T)>, Option<SearchFailure>);

/// How each search of a run failed, if it did, in order.
pub open spec fn failures_of<T>(results: Seq<SearchResult<T>>) -> Seq<Option<SearchFailure>> {
    results.map_values(|r: SearchResult<T>| r.2)
}

/// The pairs one search found, as (reference, candidate, row) calls.
pub open spec fn row_calls<T>(r: SearchResult<T>) -> Seq<(u128, u128, T)> {
    r.1@.map_values(|p: (u128, T)| (r.0, p.0, p.1))
}

/// The pairs all searches found, in the order the results came in.
pub open spec fn calls_of<T>(results: Seq<SearchResult<T>>) -> Seq<(u128, u128, T)>
    decreases results.len(),
{
    if results.len() == 0 {
        seq![]
    } else {
        calls_of(results.drop_last()) + row_calls(results.last())
    }
}

/// The empty tally.
pub open spec fn no_searches() -> Tally {
    Tally { attempted: 0, not_searchable: 0, operational: 0, aborted: 0 }
}

/// Gather a folder match run's search results: count each search under how
/// it failed, keep each pair of assets once, and say what the run reports.
/// A clean run gives its rows; a degraded run gives its rows with the warning
/// to show; a materially incomplete run gives the error to report instead.
/// The rows come in the order of their pair's key, whatever order the
/// results came in.
pub fn aggregate_folder_results<T>(results: Vec<SearchResult<T>>) -> (r: Result<(Option<String>, Vec<T>), IncompleteSearch>)
    requires
        results.len() < usize::MAX,
    ensures
        ({
            let t = tally_run(no_searches(), failures_of(results@));
            let m = spec_record_all(Map::empty(), calls_of(results@));
            match spec_summary(t) {
                None => r matches Ok((None, rows)) && in_key_order(m, rows@),
                Some(s) => if tally_materially_incomplete(t) {
                    r matches Err(e) && e.message@ == s + " - the report would be incomplete"@
                } else {
                    r matches Ok((Some(w), rows)) && w@ == s && in_key_order(m, rows@)
                },
            }
        }),
{
    let ghost rs = results@;
    let mut outcomes = SearchOutcomes::new();
    let mut deduped: BTreeMap<(u128, u128), (bool, T)> = BTreeMap::new();
    assert(failures_of(rs.take(0)) =~= Seq::<Option<SearchFailure>>::empty());
    assert(calls_of(rs.take(0)) =~= Seq::<(u128, u128, T)>::empty());
    for item in it: results
        invariant
            it.seq() == rs,
            rs.len() < usize::MAX,
            outcomes@ == tally_run(no_searches(), failures_of(rs.take(it.index()))),
            deduped@ == spec_record_all(Map::empty(), calls_of(rs.take(it.index()))),
    {
        let ghost i = it.index();
        proof {
            assert(rs.take(i + 1).drop_last() =~= rs.take(i));
            assert(rs.take(i + 1).last() == rs[i]);
            assert(failures_of(rs.take(i + 1)).drop_last() =~= failures_of(rs.take(i)));
            lemma_tally_counts_every_search(failures_of(rs.take(i)));
        }
        let (reference, found, failure) = item;
        outcomes.record(failure);
        let ghost m0 = deduped@;
        let ghost rc = row_calls(rs[i]);
        assert(rc.take(0) =~= Seq::<(u128, u128, T)>::empty());
        for pair in it2: found
            invariant
                it2.seq() == rs[i].1@,
                rc == row_calls(rs[i]),
                reference == rs[i].0,
                deduped@ == spec_record_all(m0, rc.take(it2.index())),
        {
            let ghost j = it2.index();
            proof {
                assert(rc.take(j + 1).drop_last() =~= rc.take(j));
                assert(rc.take(j + 1).last() == rc[j]);
            }
            let (candidate, row) = pair;
            record_unique_pair(&mut deduped, reference, candidate, row);
        }
        proof {
            assert(rc.take(rc.len() as int) =~= rc);
            lemma_record_all_append(Map::empty(), calls_of(rs.take(i)), rc);
        }
    }
    proof {
        assert(rs.take(rs.len() as int) =~= rs);
    }
    match finish_search_outcomes(&outcomes) {
        Err(e) => Err(e),
        Ok(warning) => Ok((warning, records_in_key_order(deduped))),
    }
}

} // verus!
