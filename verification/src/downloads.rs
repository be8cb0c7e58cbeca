//! Folder downloads: the directory a download goes to, which assets have a
//! file to download, where each one lands, and what the run reports.

use vstd::prelude::*;
use crate::errors::{ApiError, CliActionError, CliError, spec_api_message, spec_cli_message};
use crate::folders::{join_relative, download_error_text};
use crate::sorted::{lex_lt, str_less, lemma_lex_irreflexive, lemma_lex_transitive, lemma_lex_total};
use crate::text::{chars_of, string_of, spec_trim, trim, str_eq, contains, spec_contains, decimal, u64_text, views};

verus! {

/// The last non-empty `/`-separated part of `path`, if any.
pub open spec fn last_name(path: Seq<char>) -> Option<Seq<char>> {
    if path.len() == 0 {
        None
    } else {
        let (done, cur) = name_state(path);
        if cur.len() > 0 {
            Some(cur)
        } else {
            done
        }
    }
}

/// The last name finished so far and the name being read, after reading `s`.
pub open spec fn name_state(s: Seq<char>) -> (Option<Seq<char>>, Seq<char>)
    decreases s.len(),
{
    if s.len() == 0 {
        (None, seq![])
    } else {
        let (done, cur) = name_state(s.drop_last());
        if s.last() == '/' {
            (if cur.len() > 0 {
                Some(cur)
            } else {
                done
            }, seq![])
        } else {
            (done, cur.push(s.last()))
        }
    }
}

fn last_name_of(path: &str) -> (r: Option<String>)
    ensures
        match r {
            Some(n) => last_name(path@) == Some(n@),
            None => last_name(path@) is None,
        },
{
    let v = chars_of(path);
    let n = v.len();
    let mut done: Option<Vec<char>> = None;
    let mut cur: Vec<char> = Vec::new();
    for i in 0..n
        invariant
            n == v@.len(),
            v@ == path@,
            (match done {
                Some(d) => Some(d@),
                None => None,
            }, cur@) == name_state(v@.take(i as int)),
    {
        assert(v@.take(i + 1).drop_last() =~= v@.take(i as int));
        if v[i] == '/' {
            if cur.len() > 0 {
                done = Some(cur);
            }
            cur = Vec::new();
        } else {
            cur.push(v[i]);
        }
    }
    assert(v@.take(n as int) =~= v@);
    if n == 0 {
        return None;
    }
    if cur.len() > 0 {
        Some(string_of(cur.as_slice()))
    } else {
        match done {
            Some(d) => Some(string_of(d.as_slice())),
            None => None,
        }
    }
}

/// The name a folder download is saved under by default: the tenant's name
/// for the root; the last name of the folder path given; otherwise the
/// folder record's name, or the tenant's name when that is blank.
pub open spec fn spec_default_folder_name(
    is_root: bool,
    folder_path: Option<Seq<char>>,
    tenant_name: Seq<char>,
    record_name: Seq<char>,
) -> Seq<char> {
    if is_root {
        tenant_name
    } else {
        match folder_path {
            Some(p) => match last_name(p) {
                Some(n) => n,
                None => "untitled"@,
            },
            None => if spec_trim(record_name).len() == 0 {
                tenant_name
            } else {
                record_name
            },
        }
    }
}

/// The default name of a folder download's directory. `record_name` is the
/// folder record's name, which is only read for a folder named by UUID.
pub fn default_folder_name(is_root: bool, folder_path: Option<&str>, tenant_name: &str, record_name: &str) -> (r:
    String)
    ensures
        r@ == spec_default_folder_name(
            is_root,
            match folder_path {
                Some(p) => Some(p@),
                None => None,
            },
            tenant_name@,
            record_name@,
        ),
{
    if is_root {
        return String::from_str(tenant_name);
    }
    match folder_path {
        Some(p) => match last_name_of(p) {
            Some(n) => n,
            None => String::from_str("untitled"),
        },
        None => {
            let t = trim(record_name);
            if t.as_str().is_empty() {
                String::from_str(tenant_name)
            } else {
                String::from_str(record_name)
            }
        },
    }
}

/// The processing state an asset is taken to be in: its own, or `unknown`.
pub open spec fn state_or_unknown(state: Option<Seq<char>>) -> Seq<char> {
    match state {
        Some(s) => s,
        None => "unknown"@,
    }
}

/// Whether an asset in a state has a file to download: `finished`, or an
/// assembly waiting for a missing part (`missing-dependencies`).
pub fn downloadable_state(state: Option<&str>) -> (r: (bool, String))
    ensures
        r.1@ == state_or_unknown(match state {
            Some(s) => Some(s@),
            None => None,
        }),
        r.0 == (r.1@ == "finished"@ || r.1@ == "missing-dependencies"@),
{
    let s = match state {
        Some(s) => String::from_str(s),
        None => String::from_str("unknown"),
    };
    let ok = str_eq(s.as_str(), "finished") || str_eq(s.as_str(), "missing-dependencies");
    (ok, s)
}

/// The line of the error list for an asset whose download failed.
pub fn download_failure_message(asset_name: &str, physna_path: &str, error: &CliError) -> (r: String)
    ensures
        r@ == "⚠️  Failed to download asset '"@ + asset_name@ + "' (Physna path: "@ + physna_path@ + "): "@
            + match *error {
            CliError::PhysnaExtendedApiError(e) => spec_api_message(e),
            other => spec_cli_message(other),
        },
{
    let mut m = String::from_str("⚠️  Failed to download asset '");
    m.append(asset_name);
    m.append("' (Physna path: ");
    m.append(physna_path);
    m.append("): ");
    let text = download_error_text(error);
    m.append(text.as_str());
    m
}

/// The line of the error list for an asset whose thumbnail download failed.
pub fn thumbnail_failure_message(asset_name: &str, physna_path: &str, error: &CliError) -> (r: String)
    ensures
        r@ == "⚠️  Failed to download thumbnail for asset '"@ + asset_name@ + "' (Physna path: "@ + physna_path@
            + "): "@ + match *error {
            CliError::PhysnaExtendedApiError(e) => spec_api_message(e),
            other => spec_cli_message(other),
        },
{
    let mut m = String::from_str("⚠️  Failed to download thumbnail for asset '");
    m.append(asset_name);
    m.append("' (Physna path: ");
    m.append(physna_path);
    m.append("): ");
    let text = download_error_text(error);
    m.append(text.as_str());
    m
}

/// Whether a failed thumbnail download means the asset has no thumbnail,
/// which is no failure.
pub fn thumbnail_missing(error: &ApiError) -> (r: bool)
    ensures
        r == (error matches ApiError::NotFoundError(m) && spec_contains(m@, "Asset thumbnail not found"@)),
{
    match error {
        ApiError::NotFoundError(m) => contains(m.as_str(), "Asset thumbnail not found"),
        _ => false,
    }
}

/// What `std::path::Path::file_stem` makes of a file name.
pub uninterp spec fn file_stem(name: Seq<char>) -> Option<Seq<char>>;

/// The stem of a file name, by `Path::file_stem` (the name without its last
/// extension, a leading dot not counting as one). The contract claims only
/// that the result is the named function of the name.
#[verifier::external_body]
fn stem_of(name: &str) -> (r: Option<String>)
    ensures
        match r {
            Some(s) => file_stem(name@) == Some(s@),
            None => file_stem(name@) is None,
        },
{
    std::path::Path::new(name).file_stem().map(|stem| stem.to_string_lossy().into_owned())
}

/// Where an asset's thumbnail lands under the download directory: its
/// directory, then its name's stem (or the whole name) with `.png`.
pub fn thumbnail_relative_path(directory: &str, asset_name: &str) -> (r: String)
    ensures
        r@ == ({
            let file = match file_stem(asset_name@) {
                Some(s) => s,
                None => asset_name@,
            } + ".png"@;
            if directory@.len() == 0 {
                file
            } else {
                directory@ + "/"@ + file
            }
        }),
{
    let mut file = match stem_of(asset_name) {
        Some(s) => s,
        None => String::from_str(asset_name),
    };
    file.append(".png");
    join_relative(directory, file.as_str())
}

/// The statistics printed after a folder download.
pub open spec fn spec_download_summary(
    done: nat,
    skipped: nat,
    failed: nat,
    not_attempted: nat,
    not_downloadable: nat,
    total: nat,
) -> Seq<Seq<char>> {
    seq![
        "\n📊 Download Statistics Report"@,
        "==========================="@,
        "✅ Successfully downloaded: "@ + decimal(done),
        "⏭️  Skipped (already existed): "@ + decimal(skipped),
        "❌ Failed downloads: "@ + decimal(failed),
    ] + (if not_attempted > 0 {
        seq!["⏹️  Not attempted (stopped after the first failure): "@ + decimal(not_attempted)]
    } else {
        seq![]
    }) + (if not_downloadable > 0 {
        seq!["⏭️  Not downloaded (not processed yet, or processing failed): "@ + decimal(not_downloadable)]
    } else {
        seq![]
    }) + seq![
        "📁 Total assets processed: "@ + decimal(total),
        if failed > 0 || not_attempted > 0 {
            "⏳ Operation completed with errors!"@
        } else {
            "⏳ Operation completed successfully!"@
        },
    ]
}

fn counted(label: &str, n: usize) -> (r: String)
    ensures
        r@ == label@ + decimal(n as nat),
{
    let mut s = String::from_str(label);
    let t = u64_text(n as u64);
    s.append(t.as_str());
    s
}

/// The statistics printed after a folder download, before the destination.
pub fn download_summary_lines(
    done: usize,
    skipped: usize,
    failed: usize,
    not_attempted: usize,
    not_downloadable: usize,
    total: usize,
) -> (r: Vec<String>)
    ensures
        views(r@) == spec_download_summary(
            done as nat,
            skipped as nat,
            failed as nat,
            not_attempted as nat,
            not_downloadable as nat,
            total as nat,
        ),
{
    let mut lines: Vec<String> = Vec::new();
    lines.push(String::from_str("\n📊 Download Statistics Report"));
    lines.push(String::from_str("==========================="));
    lines.push(counted("✅ Successfully downloaded: ", done));
    lines.push(counted("⏭️  Skipped (already existed): ", skipped));
    lines.push(counted("❌ Failed downloads: ", failed));
    if not_attempted > 0 {
        lines.push(counted("⏹️  Not attempted (stopped after the first failure): ", not_attempted));
    }
    if not_downloadable > 0 {
        lines.push(counted("⏭️  Not downloaded (not processed yet, or processing failed): ", not_downloadable));
    }
    lines.push(counted("📁 Total assets processed: ", total));
    if failed > 0 || not_attempted > 0 {
        lines.push(String::from_str("⏳ Operation completed with errors!"));
    } else {
        lines.push(String::from_str("⏳ Operation completed successfully!"));
    }
    assert(views(lines@) =~= spec_download_summary(
        done as nat,
        skipped as nat,
        failed as nat,
        not_attempted as nat,
        not_downloadable as nat,
        total as nat,
    ));
    lines
}

/// The statistics printed after a folder thumbnail download.
pub open spec fn spec_thumbnail_summary(done: nat, unavailable: nat, failed: nat, not_attempted: nat, total: nat) -> Seq<
    Seq<char>,
> {
    seq![
        "\n📊 Thumbnail Download Statistics Report"@,
        "====================================="@,
        "✅ Successfully downloaded: "@ + decimal(done),
        "⏭️  No thumbnail available: "@ + decimal(unavailable),
        "❌ Failed downloads: "@ + decimal(failed),
    ] + (if not_attempted > 0 {
        seq!["⏹️  Not attempted (stopped after the first failure): "@ + decimal(not_attempted)]
    } else {
        seq![]
    }) + seq![
        "📁 Total assets processed: "@ + decimal(total),
        if failed > 0 || not_attempted > 0 {
            "⏳ Operation completed with errors!"@
        } else {
            "⏳ Operation completed successfully!"@
        },
    ]
}

/// The statistics printed after a folder thumbnail download, before the
/// destination.
pub fn thumbnail_summary_lines(done: usize, unavailable: usize, failed: usize, not_attempted: usize, total: usize) -> (r:
    Vec<String>)
    ensures
        views(r@) == spec_thumbnail_summary(
            done as nat,
            unavailable as nat,
            failed as nat,
            not_attempted as nat,
            total as nat,
        ),
{
    let mut lines: Vec<String> = Vec::new();
    lines.push(String::from_str("\n📊 Thumbnail Download Statistics Report"));
    lines.push(String::from_str("====================================="));
    lines.push(counted("✅ Successfully downloaded: ", done));
    lines.push(counted("⏭️  No thumbnail available: ", unavailable));
    lines.push(counted("❌ Failed downloads: ", failed));
    if not_attempted > 0 {
        lines.push(counted("⏹️  Not attempted (stopped after the first failure): ", not_attempted));
    }
    lines.push(counted("📁 Total assets processed: ", total));
    if failed > 0 || not_attempted > 0 {
        lines.push(String::from_str("⏳ Operation completed with errors!"));
    } else {
        lines.push(String::from_str("⏳ Operation completed successfully!"));
    }
    assert(views(lines@) =~= spec_thumbnail_summary(
        done as nat,
        unavailable as nat,
        failed as nat,
        not_attempted as nat,
        total as nat,
    ));
    lines
}

/// The refusal of a folder name that cannot be a local directory name.
pub fn unsafe_folder_name_error(folder_name: &str) -> (r: CliError)
    ensures
        r matches CliError::ActionError(CliActionError::BusinessLogicError(m)) && m@ == "The folder's name '"@
            + folder_name@ + "' is not a safe local directory name; choose one with -o/--output"@,
{
    let mut m = String::from_str("The folder's name '");
    m.append(folder_name);
    m.append("' is not a safe local directory name; choose one with -o/--output");
    CliError::ActionError(CliActionError::BusinessLogicError(m))
}

/// The refusal of a server-provided name that would leave the download
/// directory.
pub fn escaping_path_error(relative_path: &str) -> (r: CliError)
    ensures
        r matches CliError::ActionError(CliActionError::BusinessLogicError(m)) && m@ == "refusing to write '"@
            + relative_path@ + "': the server-provided name would escape the output directory"@,
{
    let mut m = String::from_str("refusing to write '");
    m.append(relative_path);
    m.append("': the server-provided name would escape the output directory");
    CliError::ActionError(CliActionError::BusinessLogicError(m))
}

/// `a` sorts strictly before `b`: by directory, then by name, each in
/// code-point order.
pub open spec fn loc_lt(a: (Seq<char>, Seq<char>), b: (Seq<char>, Seq<char>)) -> bool {
    lex_lt(a.0, b.0) || (a.0 == b.0 && lex_lt(a.1, b.1))
}

proof fn lemma_loc_order(a: (Seq<char>, Seq<char>), b: (Seq<char>, Seq<char>), c: (Seq<char>, Seq<char>))
    ensures
        !loc_lt(a, a),
        loc_lt(a, b) && loc_lt(b, c) ==> loc_lt(a, c),
        a == b || loc_lt(a, b) || loc_lt(b, a),
{
    lemma_lex_irreflexive(a.0);
    lemma_lex_irreflexive(a.1);
    lemma_lex_total(a.0, b.0);
    lemma_lex_total(a.1, b.1);
    if lex_lt(a.0, b.0) && lex_lt(b.0, c.0) {
        lemma_lex_transitive(a.0, b.0, c.0);
    }
    if lex_lt(a.1, b.1) && lex_lt(b.1, c.1) {
        lemma_lex_transitive(a.1, b.1, c.1);
    }
    if lex_lt(a.0, b.0) && lex_lt(b.0, a.0) {
        lemma_lex_transitive(a.0, b.0, a.0);
    }
}

/// The (directory, name) keys of a list of items, as views.
pub open spec fn key_views(keys: Seq<(String, String)>) -> Seq<(Seq<char>, Seq<char>)> {
    keys.map_values(|k: (String, String)| (k.0@, k.1@))
}

/// `order` lists each of the `n` positions exactly once, ordered by key, and
/// positions with equal keys in their own order.
pub open spec fn stable_order(keys: Seq<(Seq<char>, Seq<char>)>, order: Seq<usize>, n: nat) -> bool {
    &&& order.len() == n
    &&& forall|i: int| 0 <= i < order.len() ==> #[trigger] order[i] < n
    &&& forall|i: int, j: int| 0 <= i < j < order.len() ==> #[trigger] order[i] != #[trigger] order[j]
    &&& forall|i: int, j: int|
        0 <= i < j < order.len() ==> !loc_lt(keys[#[trigger] order[j] as int], keys[#[trigger] order[i] as int])
    &&& forall|i: int, j: int|
        0 <= i < j < order.len() && keys[#[trigger] order[i] as int] == keys[#[trigger] order[j] as int]
            ==> order[i] < order[j]
}

fn key_less(a: &(String, String), b: &(String, String)) -> (r: bool)
    ensures
        r == loc_lt((a.0@, a.1@), (b.0@, b.1@)),
{
    if str_less(a.0.as_str(), b.0.as_str()) {
        true
    } else if str_eq(a.0.as_str(), b.0.as_str()) {
        str_less(a.1.as_str(), b.1.as_str())
    } else {
        false
    }
}

/// The order a folder download fetches its assets in: by directory, then by
/// name, assets with the same directory and name in the order they were
/// listed. The result lists positions of `keys`.
pub fn download_order(keys: &Vec<(String, String)>) -> (r: Vec<usize>)
    ensures
        stable_order(key_views(keys@), r@, keys@.len()),
{
    let ghost ks = key_views(keys@);
    let n = keys.len();
    let mut order: Vec<usize> = Vec::new();
    for i in 0..n
        invariant
            n == keys@.len(),
            ks == key_views(keys@),
            stable_order(ks, order@, i as nat),
    {
        assert(ks[i as int] == (keys@[i as int].0@, keys@[i as int].1@));
        let m = order.len();
        let mut p: usize = 0;
        while p < m && !key_less(&keys[i], &keys[order[p]])
            invariant
                p <= m == order@.len() == i,
                n == keys@.len(),
                i < n,
                ks == key_views(keys@),
                ks[i as int] == (keys@[i as int].0@, keys@[i as int].1@),
                stable_order(ks, order@, i as nat),
                forall|q: int| 0 <= q < p ==> !loc_lt(ks[i as int], ks[#[trigger] order@[q] as int]),
            decreases m - p,
        {
            assert(ks[order@[p as int] as int] == (keys@[order@[p as int] as int].0@, keys@[order@[p as int] as int].1@));
            p = p + 1;
        }
        if p < m {
            assert(ks[order@[p as int] as int] == (keys@[order@[p as int] as int].0@, keys@[order@[p as int] as int].1@));
        }
        let ghost old_order = order@;
        order.insert(p, i);
        proof {
            old_order.insert_ensures(p as int, i);
            let o = order@;
            assert forall|a: int| 0 <= a < o.len() implies #[trigger] o[a] < i + 1 by {
                if a < p {
                    assert(o[a] == old_order[a]);
                } else if a > p {
                    assert(o[a] == old_order[a - 1]);
                }
            }
            assert forall|a: int, b: int| 0 <= a < b < o.len() implies #[trigger] o[a] != #[trigger] o[b] by {
                if a < p && b < p {
                    assert(o[a] == old_order[a] && o[b] == old_order[b]);
                } else if a < p && b == p {
                    assert(o[a] == old_order[a]);
                } else if a < p && b > p {
                    assert(o[a] == old_order[a] && o[b] == old_order[b - 1]);
                } else if a == p {
                    assert(o[b] == old_order[b - 1]);
                } else {
                    assert(o[a] == old_order[a - 1] && o[b] == old_order[b - 1]);
                }
            }
            assert forall|a: int, b: int| 0 <= a < b < o.len() implies !loc_lt(
                ks[#[trigger] o[b] as int],
                ks[#[trigger] o[a] as int],
            ) && (ks[o[a] as int] == ks[o[b] as int] ==> o[a] < o[b]) by {
                let ki = ks[i as int];
                if a < p && b < p {
                    assert(o[a] == old_order[a] && o[b] == old_order[b]);
                } else if a < p && b == p {
                    assert(o[a] == old_order[a]);
                    assert(!loc_lt(ki, ks[old_order[a] as int]));
                    assert(old_order[a] < i);
                } else if a < p && b > p {
                    assert(o[a] == old_order[a] && o[b] == old_order[b - 1]);
                } else if a == p {
                    let ob = old_order[b - 1];
                    assert(o[b] == ob);
                    let op = old_order[p as int];
                    assert(loc_lt(ki, ks[op as int]));
                    if b - 1 > p {
                        assert(!loc_lt(ks[ob as int], ks[op as int]));
                        lemma_loc_order(ks[op as int], ks[ob as int], ks[ob as int]);
                        lemma_loc_order(ki, ks[op as int], ks[ob as int]);
                    }
                    lemma_loc_order(ki, ks[ob as int], ki);
                    lemma_loc_order(ks[ob as int], ki, ks[ob as int]);
                } else {
                    assert(o[a] == old_order[a - 1] && o[b] == old_order[b - 1]);
                }
            }
        }
    }
    order
}

/// Reading a name of no slashes after a slash (or at the start) extends the
/// name being read by exactly that name.
proof fn lemma_name_state_reads_name(x: Seq<char>, name: Seq<char>)
    requires
        forall|i: int| 0 <= i < name.len() ==> name[i] != '/',
    ensures
        name_state(x + name).0 == name_state(x).0,
        name_state(x + name).1 == name_state(x).1 + name,
    decreases name.len(),
{
    if name.len() == 0 {
        assert(x + name =~= x);
        assert(name_state(x).1 + name =~= name_state(x).1);
    } else {
        lemma_name_state_reads_name(x, name.drop_last());
        assert((x + name).drop_last() =~= x + name.drop_last());
        assert((x + name).last() == name.last());
        assert(name_state(x).1 + name =~= (name_state(x).1 + name.drop_last()).push(name.last()));
    }
}

/// Slashes after a name finish it: the name is then the last one read.
proof fn lemma_name_state_slashes(y: Seq<char>, slashes: Seq<char>)
    requires
        name_state(y).1.len() > 0,
        slashes.len() > 0,
        forall|i: int| 0 <= i < slashes.len() ==> slashes[i] == '/',
    ensures
        name_state(y + slashes) == (Some(name_state(y).1), Seq::<char>::empty()),
    decreases slashes.len(),
{
    assert((y + slashes).drop_last() =~= y + slashes.drop_last());
    assert((y + slashes).last() == '/');
    if slashes.len() > 1 {
        lemma_name_state_slashes(y, slashes.drop_last());
    } else {
        assert(slashes.drop_last().len() == 0);
        assert(y + slashes.drop_last() =~= y);
    }
}

proof fn lemma_name_state_after_slash(x: Seq<char>)
    requires
        x.len() == 0 || x.last() == '/',
    ensures
        name_state(x).1 == Seq::<char>::empty(),
{
}

/// The last name of a path is its last non-empty `/`-separated part: for a
/// path made of anything that ends in a slash (or nothing), then a name
/// without slashes, then any number of slashes, it is that name.
pub proof fn lemma_last_name_is_last_part(before: Seq<char>, name: Seq<char>, slashes: Seq<char>)
    requires
        before.len() == 0 || before.last() == '/',
        name.len() > 0,
        forall|i: int| 0 <= i < name.len() ==> name[i] != '/',
        forall|i: int| 0 <= i < slashes.len() ==> slashes[i] == '/',
    ensures
        last_name(before + name + slashes) == Some(name),
{
    lemma_name_state_after_slash(before);
    lemma_name_state_reads_name(before, name);
    assert(name_state(before).1 + name =~= name);
    let y = before + name;
    if slashes.len() == 0 {
        assert(y + slashes =~= y);
    } else {
        lemma_name_state_slashes(y, slashes);
    }
}

/// A path with no name in it, only slashes, has no last name.
pub proof fn lemma_only_slashes_have_no_name(path: Seq<char>)
    requires
        forall|i: int| 0 <= i < path.len() ==> path[i] == '/',
    ensures
        last_name(path) is None,
{
    lemma_no_name_read(path);
}

proof fn lemma_no_name_read(path: Seq<char>)
    requires
        forall|i: int| 0 <= i < path.len() ==> path[i] == '/',
    ensures
        name_state(path) == (None::<Seq<char>>, Seq::<char>::empty()),
    decreases path.len(),
{
    if path.len() > 0 {
        lemma_no_name_read(path.drop_last());
    }
}

/// A folder download named by its path goes, by default, to a directory
/// named after the path's last non-empty part, whether or not the path ends
/// in a slash; the root goes to the tenant's name.
pub proof fn lemma_download_named_after_last_part(
    before: Seq<char>,
    name: Seq<char>,
    slashes: Seq<char>,
    tenant_name: Seq<char>,
    record_name: Seq<char>,
)
    requires
        before.len() == 0 || before.last() == '/',
        name.len() > 0,
        forall|i: int| 0 <= i < name.len() ==> name[i] != '/',
        forall|i: int| 0 <= i < slashes.len() ==> slashes[i] == '/',
    ensures
        spec_default_folder_name(false, Some(before + name + slashes), tenant_name, record_name) == name,
        spec_default_folder_name(true, Some(before + name + slashes), tenant_name, record_name) == tenant_name,
{
    lemma_last_name_is_last_part(before, name, slashes);
}

/// A folder download named by UUID goes, by default, to a directory named
/// after the folder's own name, or after the tenant when that name is blank;
/// a folder path with no name in it, only slashes, gives `untitled`.
pub proof fn lemma_download_named_without_a_path(
    slashes: Seq<char>,
    tenant_name: Seq<char>,
    record_name: Seq<char>,
)
    requires
        forall|i: int| 0 <= i < slashes.len() ==> slashes[i] == '/',
    ensures
        spec_trim(record_name).len() > 0 ==> spec_default_folder_name(false, None, tenant_name, record_name)
            == record_name,
        spec_trim(record_name).len() == 0 ==> spec_default_folder_name(false, None, tenant_name, record_name)
            == tenant_name,
        spec_default_folder_name(false, Some(slashes), tenant_name, record_name) == "untitled"@,
{
    lemma_only_slashes_have_no_name(slashes);
}

} // verus!
