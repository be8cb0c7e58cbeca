//! Metadata inference: copying chosen metadata fields of a reference asset
//! to the assets that match it geometrically.

use vstd::prelude::*;
use crate::assoc::{FieldMap, field_value, put_field, keys_distinct, lemma_put_field_distinct};
use crate::errors::{CliActionError, CliError};
use crate::text::{chars_of, string_of, views};

verus! {

/// The folder part of an asset path: everything before its last `/`, or
/// nothing for a path without one.
pub open spec fn spec_parent_folder(path: Seq<char>) -> Seq<char>
    decreases path.len(),
{
    if path.len() == 0 {
        seq![]
    } else if path.last() == '/' {
        path.drop_last()
    } else {
        spec_parent_folder(path.drop_last())
    }
}

/// The folder part of an asset path: everything before its last `/`.
pub fn parent_folder(path: &str) -> (r: String)
    ensures
        r@ == spec_parent_folder(path@),
{
    let v = chars_of(path);
    let mut j: usize = v.len();
    assert(v@.take(j as int) =~= v@);
    while j > 0 && v[j - 1] != '/'
        invariant
            j <= v.len(),
            v@ == path@,
            spec_parent_folder(path@) == spec_parent_folder(v@.take(j as int)),
        decreases j,
    {
        assert(v@.take(j as int).drop_last() =~= v@.take(j - 1));
        j = j - 1;
    }
    if j == 0 {
        String::new()
    } else {
        assert(v@.take(j as int).drop_last() =~= v@.take(j - 1));
        string_of(&v.as_slice()[0..j - 1])
    }
}

/// The names among `names` under which the reference has a value, in the
/// order given.
pub open spec fn available_fields(reference: Seq<(Seq<char>, Seq<char>)>, names: Seq<Seq<char>>) -> Seq<
    Seq<char>,
>
    decreases names.len(),
{
    if names.len() == 0 {
        seq![]
    } else {
        let rest = available_fields(reference, names.drop_last());
        if field_value(reference, names.last()) is Some {
            rest.push(names.last())
        } else {
            rest
        }
    }
}

/// The fields to copy from the reference: those of `names` it has a value for.
/// None at all is an error that names the reference and what was asked for.
pub fn inference_fields(reference: &FieldMap, reference_path: &str, names: &Vec<String>) -> (r: Result<
    Vec<String>,
    CliError,
>)
    ensures
        available_fields(reference@, views(names@)).len() == 0 ==> (r matches Err(
            CliError::ActionError(CliActionError::MissingRequiredArgument(m)),
        ) && m@ == "Reference asset '"@ + reference_path@ + "' has no metadata fields matching: "@ + debug_list(
            views(names@),
        )),
        available_fields(reference@, views(names@)).len() > 0 ==> (r matches Ok(fields) && views(fields@)
            == available_fields(reference@, views(names@))),
{
    let ghost ns = views(names@);
    let mut fields: Vec<String> = Vec::new();
    let n = names.len();
    for i in 0..n
        invariant
            n == names@.len(),
            ns == views(names@),
            views(fields@) == available_fields(reference@, ns.take(i as int)),
    {
        assert(ns.take(i + 1).drop_last() =~= ns.take(i as int));
        assert(ns[i as int] == names@[i as int]@);
        if reference.contains_key(names[i].as_str()) {
            let ghost before = views(fields@);
            fields.push(names[i].clone());
            assert(views(fields@) =~= before.push(ns[i as int]));
        }
    }
    assert(ns.take(n as int) =~= ns);
    if fields.len() == 0 {
        let mut m = String::from_str("Reference asset '");
        m.append(reference_path);
        m.append("' has no metadata fields matching: ");
        let listed = debug_text(names);
        m.append(listed.as_str());
        Err(CliError::ActionError(CliActionError::MissingRequiredArgument(m)))
    } else {
        Ok(fields)
    }
}

/// What `{:?}` writes for a list of strings: each quoted with Rust's
/// escapes, separated by `, `, in square brackets.
pub uninterp spec fn debug_list(items: Seq<Seq<char>>) -> Seq<char>;

/// The debug text of a list of strings, by `Vec<String>`'s `Debug`. The
/// contract claims only that it is the named function of the items.
#[verifier::external_body]
fn debug_text(items: &Vec<String>) -> (r: String)
    ensures
        r@ == debug_list(views(items@)),
{
    format!("{:?}", items)
}

/// Whether metadata is copied to a match: always, or with `exclusive` only to
/// a match in the reference's own folder.
pub fn copies_to(exclusive: bool, reference_path: &str, candidate_path: &str) -> (r: bool)
    ensures
        r == (!exclusive || spec_parent_folder(candidate_path@) == spec_parent_folder(reference_path@)),
{
    if !exclusive {
        return true;
    }
    let a = parent_folder(candidate_path);
    let b = parent_folder(reference_path);
    crate::text::str_eq(a.as_str(), b.as_str())
}

/// The fields as the reference has them, set one after another.
pub open spec fn copied_fields(
    reference: Seq<(Seq<char>, Seq<char>)>,
    fields: Seq<Seq<char>>,
) -> Seq<(Seq<char>, Seq<char>)>
    decreases fields.len(),
{
    if fields.len() == 0 {
        seq![]
    } else {
        let rest = copied_fields(reference, fields.drop_last());
        match field_value(reference, fields.last()) {
            Some(v) => put_field(rest, fields.last(), v),
            None => rest,
        }
    }
}

/// The metadata written to each match: every chosen field with the
/// reference's value.
pub fn inferred_metadata(reference: &FieldMap, fields: &Vec<String>) -> (r: FieldMap)
    ensures
        r@ == copied_fields(reference@, views(fields@)),
        keys_distinct(r@),
{
    let ghost fs = views(fields@);
    let mut out = FieldMap::new();
    let n = fields.len();
    for i in 0..n
        invariant
            n == fields@.len(),
            fs == views(fields@),
            out@ == copied_fields(reference@, fs.take(i as int)),
            keys_distinct(out@),
    {
        assert(fs.take(i + 1).drop_last() =~= fs.take(i as int));
        assert(fs[i as int] == fields@[i as int]@);
        match reference.get(fields[i].as_str()) {
            Some(v) => {
                proof {
                    lemma_put_field_distinct(out@, fs[i as int], v@);
                }
                out.insert(fields[i].clone(), v.clone());
            },
            None => {},
        }
    }
    assert(fs.take(n as int) =~= fs);
    out
}

} // verus!
