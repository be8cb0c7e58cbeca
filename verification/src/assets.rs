//! Asset commands: what a failed-asset lookup means, where an upload goes,
//! which metadata an entry deletes and sets, when the token may run out
//! during a batch, and how a downloaded assembly bundle is told apart and
//! unpacked.

use vstd::prelude::*;
use crate::errors::CliError;
use crate::ids::{uuid_text, uuid_string};
use crate::assoc::{FieldMap, pair_views};
use crate::text::{contains, spec_contains, views, decimal};

verus! {

/// Why the server may have found no failure record, given the asset's state.
pub open spec fn spec_not_found_note(state: Option<Seq<char>>) -> Seq<char> {
    match state {
        Some(s) => if s == "failed"@ {
            "No failure record found: the log entry has aged out of retention, or the failure was not logged. Reprocessing the asset produces a fresh one if it fails again."@
        } else {
            "No failure record found: the asset is `"@ + s + "`, not `failed`, so there is nothing to diagnose."@
        },
        None => "No failure record found, and the asset reports no processing state."@,
    }
}

pub open spec fn opt_str_view(o: Option<&str>) -> Option<Seq<char>> {
    match o {
        Some(s) => Some(s@),
        None => None,
    }
}

/// Why the server may have found no failure record for an asset in `state`.
pub fn not_found_note(state: Option<&str>) -> (r: String)
    ensures
        r@ == spec_not_found_note(opt_str_view(state)),
{
    match state {
        Some(s) => {
            if crate::text::str_eq(s, "failed") {
                String::from_str(
                    "No failure record found: the log entry has aged out of retention, or the failure was not logged. Reprocessing the asset produces a fresh one if it fails again.",
                )
            } else {
                let mut m = String::from_str("No failure record found: the asset is `");
                m.append(s);
                m.append("`, not `failed`, so there is nothing to diagnose.");
                m
            }
        },
        None => String::from_str("No failure record found, and the asset reports no processing state."),
    }
}

/// The path an uploaded file gets in a folder: its name at the root, or the
/// folder's path, `/` and its name.
pub fn asset_path_in_folder(folder_path: &str, file_name: &str) -> (r: String)
    ensures
        r@ == if folder_path@.len() == 0 || folder_path@ == "/"@ {
            file_name@
        } else {
            folder_path@ + "/"@ + file_name@
        },
{
    if folder_path.is_empty() || crate::text::str_eq(folder_path, "/") {
        String::from_str(file_name)
    } else {
        let mut r = String::from_str(folder_path);
        r.append("/");
        r.append(file_name);
        r
    }
}

/// Retries after a conflict while re-uploading over a deleted asset.
pub const OVERRIDE_MAX_RETRIES: u32 = 5;

/// The first retry's wait, in milliseconds; each later one doubles it.
pub const OVERRIDE_INITIAL_DELAY_MS: u64 = 500;

pub open spec fn pow2(n: nat) -> nat
    decreases n,
{
    if n == 0 {
        1
    } else {
        2 * pow2((n - 1) as nat)
    }
}

/// After a conflict on upload attempt `attempt` (from 0), how long to wait
/// before trying again, or `None` when the attempts are used up.
pub fn override_retry_delay(attempt: u32) -> (r: Option<u64>)
    ensures
        attempt < OVERRIDE_MAX_RETRIES ==> r == Some((OVERRIDE_INITIAL_DELAY_MS * pow2(attempt as nat)) as u64),
        attempt >= OVERRIDE_MAX_RETRIES ==> r is None,
{
    if attempt >= OVERRIDE_MAX_RETRIES {
        return None;
    }
    let mut delay: u64 = OVERRIDE_INITIAL_DELAY_MS;
    let mut i: u32 = 0;
    while i < attempt
        invariant
            i <= attempt < OVERRIDE_MAX_RETRIES,
            delay == OVERRIDE_INITIAL_DELAY_MS * pow2(i as nat),
        decreases attempt - i,
    {
        proof {
            reveal_with_fuel(pow2, 5);
            assert(i == 0 || i == 1 || i == 2 || i == 3);
            assert(pow2(i as nat) <= 8);
        }
        delay = delay * 2;
        i = i + 1;
        assert(pow2(i as nat) == 2 * pow2((i - 1) as nat));
    }
    Some(delay)
}

/// The changes one batch entry makes: fields to delete (an empty value) and
/// fields to set, each in the entry's order.
pub open spec fn split_changes(fields: Seq<(Seq<char>, Seq<char>)>) -> (Seq<Seq<char>>, Seq<(Seq<char>, Seq<char>)>)
    decreases fields.len(),
{
    if fields.len() == 0 {
        (seq![], seq![])
    } else {
        let (del, set) = split_changes(fields.drop_last());
        let f = fields.last();
        if f.1.len() == 0 {
            (del.push(f.0), set)
        } else {
            (del, set.push(f))
        }
    }
}

/// Split a batch entry's metadata into the fields to delete (empty values,
/// which only occur when empty values delete) and the fields to set.
pub fn split_metadata_changes(metadata: &FieldMap) -> (r: (Vec<String>, Vec<(String, String)>))
    ensures
        (views(r.0@), pair_views(r.1@)) == split_changes(metadata@),
{
    let pairs = metadata.pairs();
    let mut deletes: Vec<String> = Vec::new();
    let mut sets: Vec<(String, String)> = Vec::new();
    let n = pairs.len();
    for i in 0..n
        invariant
            n == pairs.len(),
            pair_views(pairs@) == metadata@,
            (views(deletes@), pair_views(sets@)) == split_changes(metadata@.take(i as int)),
    {
        assert(metadata@.take(i + 1).drop_last() =~= metadata@.take(i as int));
        assert(metadata@.take(i + 1).last() == metadata@[i as int]);
        let name = pairs[i].0.clone();
        let value = pairs[i].1.clone();
        assert((name@, value@) == metadata@[i as int]);
        if value.as_str().is_empty() {
            let ghost before = views(deletes@);
            deletes.push(name);
            assert(views(deletes@) =~= before.push(metadata@[i as int].0));
        } else {
            let ghost before = pair_views(sets@);
            let ghost pv = (name@, value@);
            sets.push((name, value));
            assert(pair_views(sets@) =~= before.push(pv));
        }
    }
    assert(metadata@.take(n as int) =~= metadata@);
    (deletes, sets)
}

/// Whether an update error's text says the value does not fit the field's
/// registered type.
pub fn is_type_conflict(error_text: &str) -> (r: bool)
    ensures
        r == (spec_contains(error_text@, "must be a"@) || spec_contains(error_text@, "Metadata type mismatch"@)),
{
    contains(error_text, "must be a") || contains(error_text, "Metadata type mismatch")
}

/// Seconds a batch metadata run is expected to spend per asset.
pub const TIME_PER_ASSET_SECONDS: u64 = 5;

/// Margin kept between a batch run's expected end and the token's expiry.
pub const SAFETY_MARGIN_SECONDS: u64 = 300;

/// Whether to warn before a batch metadata run that the token expires before
/// the run is expected to end; with the minutes left and the minutes needed
/// (at least one).
pub fn token_expiry_warning(time_remaining: i64, entries: u64) -> (r: Option<(i64, u64)>)
    requires
        entries * TIME_PER_ASSET_SECONDS + SAFETY_MARGIN_SECONDS <= u64::MAX,
    ensures
        (time_remaining > 0 && time_remaining < entries * TIME_PER_ASSET_SECONDS + SAFETY_MARGIN_SECONDS)
            ==> r == Some(((time_remaining / 60) as i64, if (entries * TIME_PER_ASSET_SECONDS) / 60 > 1 {
            ((entries * TIME_PER_ASSET_SECONDS) / 60) as u64
        } else {
            1u64
        })),
        !(time_remaining > 0 && time_remaining < entries * TIME_PER_ASSET_SECONDS + SAFETY_MARGIN_SECONDS)
            ==> r is None,
{
    let needed = entries * TIME_PER_ASSET_SECONDS;
    if time_remaining > 0 && (time_remaining as u64) < needed + SAFETY_MARGIN_SECONDS {
        let minutes = needed / 60;
        Some((time_remaining / 60, if minutes > 1 {
            minutes
        } else {
            1
        }))
    } else {
        None
    }
}

/// Whether bytes start with a ZIP signature: a local file header, or the
/// end-of-central-directory record of an empty archive.
pub fn is_zip_signature(prefix: &[u8]) -> (r: bool)
    ensures
        r == (prefix@.len() == 4 && prefix@[0] == 0x50u8 && prefix@[1] == 0x4Bu8 && ((prefix@[2] == 3u8
            && prefix@[3] == 4u8) || (prefix@[2] == 5u8 && prefix@[3] == 6u8))),
{
    prefix.len() == 4 && prefix[0] == 0x50 && prefix[1] == 0x4B && ((prefix[2] == 3 && prefix[3] == 4) || (prefix[2]
        == 5 && prefix[3] == 6))
}

/// The extension an assembly download is first saved under, so a bundle
/// never collides with the file it holds: `asm` becomes `asm.zip`, and no
/// extension becomes `zip`.
pub fn bundle_extension(extension: Option<&str>) -> (r: String)
    ensures
        r@ == match extension {
            Some(e) => e@ + ".zip"@,
            None => "zip"@,
        },
{
    match extension {
        Some(e) => {
            let mut r = String::from_str(e);
            r.append(".zip");
            r
        },
        None => String::from_str("zip"),
    }
}

/// The order extracted files are moved into place: every other file first,
/// in extraction order, and the assembly file itself last, so its presence
/// means the bundle is complete.
pub open spec fn move_order(extracted: Seq<Seq<char>>, last: Seq<char>) -> Seq<Seq<char>> {
    extracted.filter(|p: Seq<char>| p != last) + extracted.filter(|p: Seq<char>| p == last)
}

pub fn order_for_moving(extracted: Vec<String>, last: &str) -> (r: Vec<String>)
    ensures
        views(r@) == move_order(views(extracted@), last@),
{
    let ghost xs = views(extracted@);
    let mut others: Vec<String> = Vec::new();
    let mut lasts: Vec<String> = Vec::new();
    let n = extracted.len();
    for i in 0..n
        invariant
            n == extracted.len(),
            xs == views(extracted@),
            views(others@) == xs.take(i as int).filter(|p: Seq<char>| p != last@),
            views(lasts@) == xs.take(i as int).filter(|p: Seq<char>| p == last@),
    {
        proof {
            assert(xs.take(i + 1).drop_last() =~= xs.take(i as int));
            reveal_with_fuel(Seq::<_>::filter, 1);
        }
        let item = extracted[i].clone();
        if crate::text::str_eq(item.as_str(), last) {
            let ghost before = views(lasts@);
            lasts.push(item);
            assert(views(lasts@) =~= before.push(xs[i as int]));
        } else {
            let ghost before = views(others@);
            others.push(item);
            assert(views(others@) =~= before.push(xs[i as int]));
        }
    }
    assert(xs.take(n as int) =~= xs);
    let ghost o = views(others@);
    others.append(&mut lasts);
    assert(views(others@) =~= o + xs.filter(|p: Seq<char>| p == last@));
    others
}

/// What an assembly download left on disk.
#[derive(Debug, Clone, PartialEq, Eq)]
pub enum AssemblyDownload {
    /// The server sent the dependency bundle: it was extracted next to
    /// `archive` and the archive itself was removed.
    Extracted { archive: String },
    /// The server had no bundle for the assembly and sent the raw source file
    /// instead. It is at `file`, under the asset's own name.
    RawFile { file: String },
}

/// What becomes of a downloaded assembly body saved at `archive`, from its
/// first bytes: a ZIP is a bundle to extract; anything else is the raw source
/// file, moved to `output`.
pub fn assembly_download(prefix: &[u8], archive: String, output: String) -> (r: AssemblyDownload)
    ensures
        (prefix@.len() == 4 && prefix@[0] == 0x50u8 && prefix@[1] == 0x4Bu8 && ((prefix@[2] == 3u8 && prefix@[3]
            == 4u8) || (prefix@[2] == 5u8 && prefix@[3] == 6u8))) ==> r == (AssemblyDownload::Extracted {
            archive,
        }),
        !(prefix@.len() == 4 && prefix@[0] == 0x50u8 && prefix@[1] == 0x4Bu8 && ((prefix@[2] == 3u8
            && prefix@[3] == 4u8) || (prefix@[2] == 5u8 && prefix@[3] == 6u8))) ==> r == (AssemblyDownload::RawFile {
            file: output,
        }),
{
    if is_zip_signature(prefix) {
        AssemblyDownload::Extracted { archive }
    } else {
        AssemblyDownload::RawFile { file: output }
    }
}

/// What `asset delete` asks before deleting: the asset as given, by its
/// path, or otherwise by its UUID.
pub fn deletion_prompt(asset_path: Option<&str>, asset: u128) -> (r: String)
    ensures
        r@ == "Delete asset '"@ + match asset_path {
            Some(p) => p@,
            None => uuid_text(asset),
        } + "'?"@,
{
    let mut m = String::from_str("Delete asset '");
    match asset_path {
        Some(p) => m.append(p),
        None => {
            let id = uuid_string(asset);
            m.append(id.as_str());
        },
    }
    m.append("'?");
    m
}

/// A recursive listing needs a folder to start from.
pub fn check_recursive_listing(recursive: bool, folder_path_given: bool) -> (r: Result<(), CliError>)
    ensures
        (recursive && !folder_path_given) ==> (r matches Err(CliError::MissingRequiredArgument(m)) && m@
            == "Folder path must be specified when using --recursive flag"@),
        !(recursive && !folder_path_given) ==> r is Ok,
{
    if recursive && !folder_path_given {
        Err(CliError::MissingRequiredArgument(String::from_str("Folder path must be specified when using --recursive flag")))
    } else {
        Ok(())
    }
}

} // verus!
