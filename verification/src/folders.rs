//! Folder commands: which folder an argument names, folder descriptions, and
//! the paths assets are written under.

use vstd::prelude::*;
use crate::errors::{CliError, CliActionError, spec_api_message, spec_cli_message};
use crate::paths::{is_root_path, spec_is_root, normalize_path, spec_normalize_path};
use crate::ids::{uuid_text, uuid_string};
use crate::text::{is_slash, str_eq, trim, spec_trim, chars_of, string_of, decimal, u64_text, seq_join, views, join, drop_leading, drop_trailing, trim_slashes, spec_trim_slashes};

verus! {

/// A folder a command works on: the tenant's root, which has no folder
/// record and no UUID, or an ordinary folder.
#[derive(Debug, Clone, Copy, PartialEq, Eq, Structural)]
pub enum FolderTarget {
    Root,
    Folder(u128),
}

impl FolderTarget {
    /// The folder's UUID; `None` for the root, which is how the listing
    /// endpoints spell "no parent folder".
    pub fn uuid(&self) -> (r: Option<u128>)
        ensures
            r == match *self {
                FolderTarget::Root => None::<u128>,
                FolderTarget::Folder(u) => Some(u),
            },
    {
        match self {
            FolderTarget::Root => None,
            FolderTarget::Folder(uuid) => Some(*uuid),
        }
    }
}

/// How `--folder-uuid` / `--folder-path` resolve to a folder: known at once,
/// or by looking the path up.
#[derive(Debug, Clone, PartialEq, Eq)]
pub enum FolderResolution {
    Known(FolderTarget),
    LookUpPath(String),
}

/// Resolve `--folder-uuid` / `--folder-path` as far as it goes without the
/// API: a UUID names its folder, `/` and `/Home` the root, and any other path
/// must be looked up.
pub fn plan_folder_target(folder_uuid: Option<u128>, folder_path: Option<&str>) -> (r: Result<FolderResolution, CliError>)
    ensures
        match (folder_uuid, folder_path) {
            (Some(u), _) => r == Ok::<FolderResolution, CliError>(FolderResolution::Known(FolderTarget::Folder(u))),
            (None, Some(p)) => if spec_is_root(p@) {
                r == Ok::<FolderResolution, CliError>(FolderResolution::Known(FolderTarget::Root))
            } else {
                r matches Ok(FolderResolution::LookUpPath(q)) && q@ == p@
            },
            (None, None) => r matches Err(CliError::MissingRequiredArgument(m))
                && m@ == "Either folder UUID or path must be provided"@,
        },
{
    match (folder_uuid, folder_path) {
        (Some(uuid), _) => Ok(FolderResolution::Known(FolderTarget::Folder(uuid))),
        (None, Some(path)) => {
            if is_root_path(path) {
                Ok(FolderResolution::Known(FolderTarget::Root))
            } else {
                Ok(FolderResolution::LookUpPath(String::from_str(path)))
            }
        },
        (None, None) => Err(
            CliError::MissingRequiredArgument(
                String::from_str("Either folder UUID or path must be provided"),
            ),
        ),
    }
}

/// The text added to "folder not found": nothing without suggestions, the
/// one suggestion, or each suggestion on a bulleted line of its own.
pub open spec fn suggestion_text(suggestions: Seq<Seq<char>>) -> Seq<char> {
    if suggestions.len() == 0 {
        seq![]
    } else if suggestions.len() == 1 {
        "\n\nDid you mean: "@ + suggestions[0]
    } else {
        "\n\nDid you mean one of:\n  "@ + seq_join(
            suggestions.map_values(|s: Seq<char>| "• "@ + s),
            "\n  "@,
        )
    }
}

/// "Folder not found" for `path`, with the closest existing paths as
/// suggestions.
pub fn folder_not_found(path: &str, suggestions: &Vec<String>) -> (r: CliError)
    ensures
        r matches CliError::FolderNotFound(p, m) && p@ == path@ && m@ == suggestion_text(views(suggestions@)),
{
    let n = suggestions.len();
    let message = if n == 0 {
        String::new()
    } else if n == 1 {
        let mut m = String::from_str("\n\nDid you mean: ");
        m.append(suggestions[0].as_str());
        m
    } else {
        let mut bulleted: Vec<String> = Vec::new();
        for i in 0..n
            invariant
                n == suggestions.len(),
                views(bulleted@) == views(suggestions@).take(i as int).map_values(|s: Seq<char>| "• "@ + s),
        {
            let mut line = String::from_str("• ");
            line.append(suggestions[i].as_str());
            let ghost before = views(bulleted@);
            assert(views(suggestions@)[i as int] == suggestions@[i as int]@);
            bulleted.push(line);
            assert(views(bulleted@) =~= before.push("• "@ + views(suggestions@)[i as int]));
            assert(views(bulleted@) =~= views(suggestions@).take(i + 1).map_values(|s: Seq<char>| "• "@ + s));
        }
        assert(views(suggestions@).take(n as int) =~= views(suggestions@));
        let mut m = String::from_str("\n\nDid you mean one of:\n  ");
        let listed = join(&bulleted, "\n  ");
        m.append(listed.as_str());
        m
    };
    CliError::FolderNotFound(String::from_str(path), message)
}

/// The longest description the API accepts, in characters.
pub const MAX_FOLDER_DESCRIPTION_CHARS: usize = 255;

/// A folder description as given: trimmed, not empty (clearing is a command
/// of its own), and at most 255 characters, counted as characters, not bytes.
pub fn folder_description(text: &str) -> (r: Result<String, CliError>)
    ensures
        spec_trim(text@).len() == 0 ==> (r matches Err(CliError::InvalidArgument(m))
            && m@ == "The description is empty; 'pcli2 folder description clear' removes one"@),
        spec_trim(text@).len() > MAX_FOLDER_DESCRIPTION_CHARS ==> (r matches Err(CliError::InvalidArgument(m))
            && m@ == "The description is "@ + decimal(spec_trim(text@).len()) + " characters long; at most 255 are allowed"@),
        0 < spec_trim(text@).len() <= MAX_FOLDER_DESCRIPTION_CHARS ==> (r matches Ok(d) && d@ == spec_trim(text@)),
{
    let trimmed = trim(text);
    let chars = chars_of(trimmed.as_str());
    let length = chars.len();
    if length == 0 {
        return Err(
            CliError::InvalidArgument(
                String::from_str("The description is empty; 'pcli2 folder description clear' removes one"),
            ),
        );
    }
    if length > MAX_FOLDER_DESCRIPTION_CHARS {
        let mut m = String::from_str("The description is ");
        let count = u64_text(length as u64);
        m.append(count.as_str());
        m.append(" characters long; at most 255 are allowed");
        return Err(CliError::InvalidArgument(m));
    }
    Ok(trimmed)
}

/// A file's path under the download root: its name, or its directory, `/`
/// and its name.
pub fn join_relative(directory: &str, name: &str) -> (r: String)
    ensures
        r@ == if directory@.len() == 0 {
            name@
        } else {
            directory@ + "/"@ + name@
        },
{
    if directory.is_empty() {
        String::from_str(name)
    } else {
        let mut r = String::from_str(directory);
        r.append("/");
        r.append(name);
        r
    }
}

/// A folder's directory relative to the folder a download starts from: its
/// path without that folder's path in front, and without slashes at either end.
pub open spec fn spec_relative_directory(path: Seq<char>, base: Seq<char>) -> Seq<char> {
    let rest = if base.len() <= path.len() && path.take(base.len() as int) == base {
        path.skip(base.len() as int)
    } else {
        path
    };
    drop_trailing(drop_leading(rest, is_slash()), is_slash())
}

pub fn relative_directory(path: &str, base: &str) -> (r: String)
    ensures
        r@ == spec_relative_directory(path@, base@),
{
    let vp = chars_of(path);
    let vb = chars_of(base);
    let mut start: usize = 0;
    if vb.len() <= vp.len() {
        let mut same = true;
        let m = vb.len();
        for i in 0..m
            invariant
                m == vb.len() <= vp.len(),
                same ==> forall|j: int| 0 <= j < i ==> vp@[j] == vb@[j],
                !same ==> vp@.take(m as int) != vb@,
        {
            if same && vp[i] != vb[i] {
                same = false;
                assert(vp@.take(m as int)[i as int] != vb@[i as int]);
            }
        }
        if same {
            assert(vp@.take(m as int) =~= vb@);
            start = m;
        }
    }
    let rest: Vec<char> = {
        let mut out: Vec<char> = Vec::new();
        let n = vp.len();
        for i in start..n
            invariant
                start <= n == vp.len(),
                out@ == vp@.subrange(start as int, i as int),
        {
            out.push(vp[i]);
            assert(out@ =~= vp@.subrange(start as int, i + 1));
        }
        out
    };
    assert(rest@ =~= if vb@.len() <= vp@.len() && vp@.take(vb@.len() as int) == vb@ {
        vp@.skip(vb@.len() as int)
    } else {
        vp@
    });
    let (a, b) = slash_bounds(&rest);
    string_of(&rest.as_slice()[a..b])
}

fn slash_bounds(v: &Vec<char>) -> (r: (usize, usize))
    ensures
        r.0 <= r.1 <= v.len(),
        v@.subrange(r.0 as int, r.1 as int) == drop_trailing(drop_leading(v@, is_slash()), is_slash()),
{
    let n = v.len();
    let mut i: usize = 0;
    assert(v@.subrange(0, n as int) =~= v@);
    while i < n && v[i] == '/'
        invariant
            i <= n == v.len(),
            drop_leading(v@, is_slash()) == drop_leading(v@.subrange(i as int, n as int), is_slash()),
        decreases n - i,
    {
        assert(v@.subrange(i as int, n as int).drop_first() =~= v@.subrange(i + 1, n as int));
        i = i + 1;
    }
    let ghost lead = v@.subrange(i as int, n as int);
    assert(drop_leading(lead, is_slash()) == lead) by {
        if lead.len() > 0 {
            assert(lead[0] == v@[i as int]);
        }
    }
    let mut j: usize = n;
    assert(lead.subrange(0, (n - i) as int) =~= lead);
    while j > i && v[j - 1] == '/'
        invariant
            i <= j <= n == v.len(),
            lead == v@.subrange(i as int, n as int),
            drop_trailing(lead, is_slash()) == drop_trailing(v@.subrange(i as int, j as int), is_slash()),
        decreases j - i,
    {
        assert(v@.subrange(i as int, j as int).drop_last() =~= v@.subrange(i as int, j - 1));
        j = j - 1;
    }
    let ghost t = v@.subrange(i as int, j as int);
    assert(drop_trailing(t, is_slash()) == t) by {
        if t.len() > 0 {
            assert(t.last() == v@[j - 1]);
        }
    }
    (i, j)
}

/// Refuse two arguments of which only one may be given.
pub fn at_most_one(first_given: bool, second_given: bool, first: &str, second: &str) -> (r: Result<(), CliError>)
    ensures
        first_given && second_given ==> (r matches Err(CliError::MissingRequiredArgument(m))
            && m@ == "Only one of "@ + first@ + " or "@ + second@ + " can be specified, not both"@),
        !(first_given && second_given) ==> r is Ok,
{
    if first_given && second_given {
        let mut m = String::from_str("Only one of ");
        m.append(first);
        m.append(" or ");
        m.append(second);
        m.append(" can be specified, not both");
        return Err(CliError::MissingRequiredArgument(m));
    }
    Ok(())
}

/// Where a folder goes when it is created or moved: under the folder a UUID
/// names; at the root for no parent, `/` or `/Home`; otherwise under the
/// folder its path names once looked up.
pub fn plan_parent_folder(parent_uuid: Option<u128>, parent_path: Option<&str>) -> (r: FolderResolution)
    ensures
        match (parent_uuid, parent_path) {
            (Some(u), _) => r == FolderResolution::Known(FolderTarget::Folder(u)),
            (None, Some(p)) => if spec_is_root(p@) {
                r == FolderResolution::Known(FolderTarget::Root)
            } else {
                r matches FolderResolution::LookUpPath(q) && q@ == p@
            },
            (None, None) => r == FolderResolution::Known(FolderTarget::Root),
        },
{
    match (parent_uuid, parent_path) {
        (Some(uuid), _) => FolderResolution::Known(FolderTarget::Folder(uuid)),
        (None, Some(path)) => {
            if is_root_path(path) {
                FolderResolution::Known(FolderTarget::Root)
            } else {
                FolderResolution::LookUpPath(String::from_str(path))
            }
        },
        (None, None) => FolderResolution::Known(FolderTarget::Root),
    }
}

/// What a failed folder deletion means: a not-found answer for a folder that
/// was just resolved, without `--force`, means it is not empty.
pub fn deletion_failure(not_found: bool, force: bool) -> (r: Option<CliError>)
    ensures
        (not_found && !force) ==> (r matches Some(CliError::ActionError(CliActionError::BusinessLogicError(m)))
            && m@ == "Folder is not empty. Use --force flag to delete the folder and all its contents recursively."@),
        !(not_found && !force) ==> r is None,
{
    if not_found && !force {
        Some(
            CliError::ActionError(
                CliActionError::BusinessLogicError(
                    String::from_str(
                        "Folder is not empty. Use --force flag to delete the folder and all its contents recursively.",
                    ),
                ),
            ),
        )
    } else {
        None
    }
}

/// The text of a failed download for the error list: the API's own message
/// for an API error, rather than the "API error: ..." wrapper; what any other
/// error says otherwise.
pub fn download_error_text(error: &CliError) -> (r: String)
    ensures
        r@ == match *error {
            CliError::PhysnaExtendedApiError(e) => spec_api_message(e),
            other => spec_cli_message(other),
        },
{
    match error {
        CliError::PhysnaExtendedApiError(e) => e.message(),
        other => other.message(),
    }
}

/// The names of the files whose target path is already taken, in order.
pub open spec fn clash_names(files: Seq<(Seq<char>, Seq<char>)>, existing: Seq<Seq<char>>) -> Seq<Seq<char>>
    decreases files.len(),
{
    if files.len() == 0 {
        seq![]
    } else {
        let rest = clash_names(files.drop_last(), existing);
        if existing.contains(files.last().1) {
            rest.push(files.last().0)
        } else {
            rest
        }
    }
}

/// Whether `target` is one of `existing`.
fn is_taken(target: &String, existing: &Vec<String>) -> (r: bool)
    ensures
        r == views(existing@).contains(target@),
{
    let n = existing.len();
    for i in 0..n
        invariant
            n == existing@.len(),
            forall|j: int| 0 <= j < i ==> (#[trigger] views(existing@)[j]) != target@,
    {
        if str_eq(existing[i].as_str(), target.as_str()) {
            assert(views(existing@)[i as int] == target@);
            return true;
        }
    }
    false
}

/// The pairs of a file list as (name, target path) views.
pub open spec fn file_views(files: Seq<(String, String)>) -> Seq<(Seq<char>, Seq<char>)> {
    files.map_values(|f: (String, String)| (f.0@, f.1@))
}

/// Which files of a folder upload already exist: for each (name, target
/// path), whether the target is among the `existing` asset paths. Without
/// `skip_existing`, any such file refuses the whole upload, naming them all.
pub fn upload_clashes(files: &Vec<(String, String)>, existing: &Vec<String>, skip_existing: bool) -> (r: Result<
    Vec<bool>,
    CliError,
>)
    ensures
        ({
            let clashes = clash_names(file_views(files@), views(existing@));
            if !skip_existing && clashes.len() > 0 {
                r matches Err(CliError::ActionError(CliActionError::BusinessLogicError(m))) && m@
                    == "Asset already exists: "@ + seq_join(clashes, ", "@)
                    + ". Use --skip-existing to skip existing assets."@
            } else {
                r matches Ok(flags) && flags@ == file_views(files@).map_values(
                    |f: (Seq<char>, Seq<char>)| views(existing@).contains(f.1),
                )
            }
        }),
{
    let ghost fs = file_views(files@);
    let ghost ex = views(existing@);
    let mut flags: Vec<bool> = Vec::new();
    let mut clashes: Vec<String> = Vec::new();
    let n = files.len();
    for i in 0..n
        invariant
            n == files@.len(),
            fs == file_views(files@),
            ex == views(existing@),
            flags@ == fs.take(i as int).map_values(|f: (Seq<char>, Seq<char>)| ex.contains(f.1)),
            views(clashes@) == clash_names(fs.take(i as int), ex),
    {
        let taken = is_taken(&files[i].1, existing);
        assert(fs[i as int] == (files@[i as int].0@, files@[i as int].1@));
        assert(fs.take(i + 1).drop_last() =~= fs.take(i as int));
        if taken {
            let ghost before = views(clashes@);
            clashes.push(files[i].0.clone());
            assert(views(clashes@) =~= before.push(fs[i as int].0));
        }
        flags.push(taken);
        assert(flags@ =~= fs.take(i + 1).map_values(|f: (Seq<char>, Seq<char>)| ex.contains(f.1)));
    }
    assert(fs.take(n as int) =~= fs);
    if !skip_existing && clashes.len() > 0 {
        let mut m = String::from_str("Asset already exists: ");
        let listed = join(&clashes, ", ");
        m.append(listed.as_str());
        m.append(". Use --skip-existing to skip existing assets.");
        Err(CliError::ActionError(CliActionError::BusinessLogicError(m)))
    } else {
        Ok(flags)
    }
}

/// Where `asset move` sends an asset, and how the destination is shown: a
/// UUID names its folder (shown as the UUID); a root path the root (shown as
/// `/`); any other path a folder to look up (shown in normal form).
pub fn plan_move_destination(folder_uuid: Option<u128>, folder_path: Option<&str>) -> (r: Result<
    (FolderResolution, String),
    CliError,
>)
    ensures
        match (folder_uuid, folder_path) {
            (Some(u), _) => r matches Ok((res, label)) && res == FolderResolution::Known(FolderTarget::Folder(u))
                && label@ == uuid_text(u),
            (None, Some(p)) => if spec_is_root(p@) {
                r matches Ok((res, label)) && res == FolderResolution::Known(FolderTarget::Root) && label@ == "/"@
            } else {
                r matches Ok((FolderResolution::LookUpPath(q), label)) && q@ == p@ && label@ == spec_normalize_path(
                    p@,
                )
            },
            (None, None) => r matches Err(CliError::MissingRequiredArgument(m))
                && m@ == "Either --folder-uuid or --folder-path must be provided"@,
        },
{
    match (folder_uuid, folder_path) {
        (Some(uuid), _) => Ok((FolderResolution::Known(FolderTarget::Folder(uuid)), uuid_string(uuid))),
        (None, Some(path)) => {
            if is_root_path(path) {
                Ok((FolderResolution::Known(FolderTarget::Root), String::from_str("/")))
            } else {
                Ok((FolderResolution::LookUpPath(String::from_str(path)), normalize_path(path)))
            }
        },
        (None, None) => Err(
            CliError::MissingRequiredArgument(String::from_str("Either --folder-uuid or --folder-path must be provided")),
        ),
    }
}

/// The root folder has no record to rename: renaming a folder given by a
/// root path is refused before anything is asked of the API.
pub fn check_renamable(folder_path: Option<&str>) -> (r: Result<(), CliError>)
    ensures
        (folder_path matches Some(p) && spec_is_root(p@)) ==> (r matches Err(CliError::MissingRequiredArgument(m))
            && m@ == "Cannot rename the root folder"@),
        !(folder_path matches Some(p) && spec_is_root(p@)) ==> r is Ok,
{
    match folder_path {
        Some(p) => if is_root_path(p) {
            Err(CliError::MissingRequiredArgument(String::from_str("Cannot rename the root folder")))
        } else {
            Ok(())
        },
        None => Ok(()),
    }
}

/// The path a file uploaded into a folder gets: the destination without its
/// slashes at either end, `/` and the file's name, or the name alone where
/// nothing of the destination is left.
pub fn upload_asset_path(destination: &str, file_name: &str) -> (r: String)
    ensures
        r@ == if spec_trim_slashes(destination@).len() == 0 {
            file_name@
        } else {
            spec_trim_slashes(destination@) + "/"@ + file_name@
        },
{
    let parent = trim_slashes(destination);
    if parent.as_str().is_empty() {
        String::from_str(file_name)
    } else {
        let mut r = parent;
        r.append("/");
        r.append(file_name);
        r
    }
}

} // verus!
