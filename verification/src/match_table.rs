//! Match reports: the (reference, candidate) pairs of a folder match run, and
//! the table their CSV and spreadsheet outputs share.

use vstd::prelude::*;
use crate::assoc::{FieldMap, pair_views, field_value};
use crate::ids::{uuid_text, uuid_string};
use crate::sorted::{strictly_sorted, sorted_unique};
use crate::batch_csv::{sorted_set, lemma_sorted_set_is};
use crate::text::{views, chars_of, spec_starts_with, upper, to_upper};
use crate::errors::{CliActionError, CliError};

verus! {

/// An asset as a match report shows it.
#[derive(Debug)]
pub struct AssetRow {
    pub uuid: u128,
    pub path: String,
    /// Metadata by field name, each value already written as a report cell.
    pub metadata: FieldMap,
}

pub struct SpecAsset {
    pub uuid: u128,
    pub path: Seq<char>,
    pub metadata: Seq<(Seq<char>, Seq<char>)>,
}

impl View for AssetRow {
    type V = SpecAsset;

    open spec fn view(&self) -> SpecAsset {
        SpecAsset { uuid: self.uuid, path: self.path@, metadata: self.metadata@ }
    }
}

impl AssetRow {
    /// A copy of the row.
    pub fn duplicate(&self) -> (r: AssetRow)
        ensures
            r@ == self@,
    {
        AssetRow { uuid: self.uuid, path: self.path.clone(), metadata: self.metadata.duplicate() }
    }
}

/// A copy of an optional text.
pub fn duplicate_text(o: &Option<String>) -> (r: Option<String>)
    ensures
        opt_text(r) == opt_text(*o),
{
    match o {
        Some(s) => Some(s.clone()),
        None => None,
    }
}

/// One geometric match of a reference asset.
#[derive(Debug)]
pub struct GeometricMatch {
    pub asset: AssetRow,
    /// The match percentage as the report writes it.
    pub match_percentage: String,
    pub comparison_url: Option<String>,
}

pub struct SpecMatch {
    pub asset: SpecAsset,
    pub percentage: Seq<char>,
    pub url: Option<Seq<char>>,
}

pub open spec fn opt_text(o: Option<String>) -> Option<Seq<char>> {
    match o {
        Some(s) => Some(s@),
        None => None,
    }
}

impl View for GeometricMatch {
    type V = SpecMatch;

    open spec fn view(&self) -> SpecMatch {
        SpecMatch { asset: self.asset@, percentage: self.match_percentage@, url: opt_text(self.comparison_url) }
    }
}

/// A reference asset with the matches its search found.
#[derive(Debug)]
pub struct GeometricSearchResult {
    pub reference_asset: AssetRow,
    pub matches: Vec<GeometricMatch>,
}

pub struct SpecResult {
    pub reference: SpecAsset,
    pub matches: Seq<SpecMatch>,
}

pub open spec fn match_views(v: Seq<GeometricMatch>) -> Seq<SpecMatch> {
    v.map_values(|m: GeometricMatch| m@)
}

impl View for GeometricSearchResult {
    type V = SpecResult;

    open spec fn view(&self) -> SpecResult {
        SpecResult { reference: self.reference_asset@, matches: match_views(self.matches@) }
    }
}

pub open spec fn result_views(v: Seq<GeometricSearchResult>) -> Seq<SpecResult> {
    v.map_values(|r: GeometricSearchResult| r@)
}

/// Every (reference, match) pair, response by response and match by match.
pub open spec fn flat_pairs(results: Seq<SpecResult>) -> Seq<(SpecAsset, SpecMatch)>
    decreases results.len(),
{
    if results.len() == 0 {
        seq![]
    } else {
        let last = results.last();
        flat_pairs(results.drop_last()) + last.matches.map_values(|m: SpecMatch| (last.reference, m))
    }
}

/// The field names of a metadata list, in order.
pub open spec fn field_names(m: Seq<(Seq<char>, Seq<char>)>) -> Seq<Seq<char>> {
    m.map_values(|p: (Seq<char>, Seq<char>)| p.0)
}

/// The field names of both sides of every pair, in order, repeats included.
pub open spec fn pair_field_names(pairs: Seq<(SpecAsset, SpecMatch)>) -> Seq<Seq<char>>
    decreases pairs.len(),
{
    if pairs.len() == 0 {
        seq![]
    } else {
        let p = pairs.last();
        pair_field_names(pairs.drop_last()) + field_names(p.0.metadata) + field_names(p.1.asset.metadata)
    }
}

/// The report's columns before the metadata ones.
pub open spec fn base_headers() -> Seq<Seq<char>> {
    seq![
        "REFERENCE_ASSET_PATH"@,
        "CANDIDATE_ASSET_PATH"@,
        "MATCH_PERCENTAGE"@,
        "REFERENCE_ASSET_UUID"@,
        "CANDIDATE_ASSET_UUID"@,
    ]
}

/// The paired `REF_<FIELD>` and `CAN_<FIELD>` columns of each field.
pub open spec fn metadata_headers(keys: Seq<Seq<char>>) -> Seq<Seq<char>>
    decreases keys.len(),
{
    if keys.len() == 0 {
        seq![]
    } else {
        metadata_headers(keys.drop_last()) + seq![
            "REF_"@ + upper(keys.last()),
            "CAN_"@ + upper(keys.last()),
        ]
    }
}

/// A value, or an empty cell.
pub open spec fn cell_or_empty(v: Option<Seq<char>>) -> Seq<char> {
    match v {
        Some(s) => s,
        None => seq![],
    }
}

/// Each field's reference value and candidate value, in field order.
pub open spec fn metadata_cells(
    reference: SpecAsset,
    candidate: SpecAsset,
    keys: Seq<Seq<char>>,
) -> Seq<Seq<char>>
    decreases keys.len(),
{
    if keys.len() == 0 {
        seq![]
    } else {
        metadata_cells(reference, candidate, keys.drop_last()) + seq![
            cell_or_empty(field_value(reference.metadata, keys.last())),
            cell_or_empty(field_value(candidate.metadata, keys.last())),
        ]
    }
}

/// One pair's row, in the order of the headers.
pub open spec fn table_row(p: (SpecAsset, SpecMatch), keys: Seq<Seq<char>>) -> Seq<Seq<char>> {
    seq![p.0.path, p.1.asset.path, p.1.percentage, uuid_text(p.0.uuid), uuid_text(p.1.asset.uuid)]
        + metadata_cells(p.0, p.1.asset, keys) + seq![cell_or_empty(p.1.url)]
}

/// The metadata fields the table has columns for: none without metadata,
/// otherwise every field of either side of any pair, sorted, each once.
pub open spec fn table_keys(results: Seq<SpecResult>, with_metadata: bool) -> Seq<Seq<char>> {
    if with_metadata {
        sorted_set(pair_field_names(flat_pairs(results)))
    } else {
        seq![]
    }
}

/// The match-report table: headers, then one row per (reference, candidate)
/// pair. The columns are the base ones, then the paired metadata columns, and
/// `COMPARISON_URL` last.
pub open spec fn spec_match_table(results: Seq<SpecResult>, with_metadata: bool) -> (Seq<Seq<char>>, Seq<Seq<Seq<char>>>) {
    let keys = table_keys(results, with_metadata);
    (
        base_headers() + metadata_headers(keys) + seq!["COMPARISON_URL"@],
        flat_pairs(results).map_values(|p: (SpecAsset, SpecMatch)| table_row(p, keys)),
    )
}

pub open spec fn row_views(rows: Seq<Vec<String>>) -> Seq<Seq<Seq<char>>> {
    rows.map_values(|r: Vec<String>| views(r@))
}

proof fn lemma_flat_pairs_step(results: Seq<SpecResult>, i: int, j: int)
    requires
        0 <= i < results.len(),
        0 <= j < results[i].matches.len(),
    ensures
        flat_pairs(results.take(i)) + results[i].matches.take(j + 1).map_values(
            |m: SpecMatch| (results[i].reference, m),
        ) == (flat_pairs(results.take(i)) + results[i].matches.take(j).map_values(
            |m: SpecMatch| (results[i].reference, m),
        )).push((results[i].reference, results[i].matches[j])),
{
    let r = results[i];
    assert(r.matches.take(j + 1).map_values(|m: SpecMatch| (r.reference, m)) =~= r.matches.take(j).map_values(
        |m: SpecMatch| (r.reference, m),
    ).push((r.reference, r.matches[j])));
}

proof fn lemma_flat_pairs_next(results: Seq<SpecResult>, i: int)
    requires
        0 <= i < results.len(),
    ensures
        flat_pairs(results.take(i + 1)) == flat_pairs(results.take(i)) + results[i].matches.take(
            results[i].matches.len() as int,
        ).map_values(|m: SpecMatch| (results[i].reference, m)),
{
    assert(results.take(i + 1).drop_last() =~= results.take(i));
    assert(results[i].matches.take(results[i].matches.len() as int) =~= results[i].matches);
}

proof fn lemma_pair_names_push(pairs: Seq<(SpecAsset, SpecMatch)>, p: (SpecAsset, SpecMatch))
    ensures
        pair_field_names(pairs.push(p)) == pair_field_names(pairs) + field_names(p.0.metadata)
            + field_names(p.1.asset.metadata),
{
    assert(pairs.push(p).drop_last() =~= pairs);
}

/// Append every field name of `m` to `out`.
pub(crate) fn push_field_names(out: &mut Vec<String>, m: &FieldMap)
    ensures
        views(final(out)@) == views(old(out)@) + field_names(m@),
{
    let pairs = m.pairs();
    let n = pairs.len();
    let ghost start = views(out@);
    for k in 0..n
        invariant
            n == pairs.len(),
            pair_views(pairs@) == m@,
            views(out@) == start + field_names(m@).take(k as int),
    {
        let name = pairs[k].0.clone();
        assert(name@ == pair_views(pairs@)[k as int].0);
        assert(field_names(m@)[k as int] == name@);
        let ghost before = views(out@);
        out.push(name);
        assert(views(out@) =~= before.push(name@));
        assert(field_names(m@).take(k + 1) =~= field_names(m@).take(k as int).push(name@));
    }
    assert(field_names(m@).take(n as int) =~= field_names(m@));
}

/// The value of `key` in `m`, or an empty cell.
fn cell_for(m: &FieldMap, key: &String) -> (r: String)
    ensures
        r@ == cell_or_empty(field_value(m@, key@)),
{
    match m.get(key.as_str()) {
        Some(v) => v.clone(),
        None => String::new(),
    }
}

/// The field names of every pair, in order, repeats included.
fn all_field_names(results: &Vec<GeometricSearchResult>) -> (r: Vec<String>)
    ensures
        views(r@) == pair_field_names(flat_pairs(result_views(results@))),
{
    let ghost rs = result_views(results@);
    let mut names: Vec<String> = Vec::new();
    let n = results.len();
    assert(flat_pairs(rs.take(0)) =~= Seq::<(SpecAsset, SpecMatch)>::empty());
    for i in 0..n
        invariant
            n == results.len(),
            rs == result_views(results@),
            views(names@) == pair_field_names(flat_pairs(rs.take(i as int))),
    {
        let result = &results[i];
        assert(result@ == rs[i as int]);
        let m = result.matches.len();
        for j in 0..m
            invariant
                n == results.len(),
                rs == result_views(results@),
                0 <= i < n,
                result@ == rs[i as int],
                m == result.matches.len(),
                views(names@) == pair_field_names(
                    flat_pairs(rs.take(i as int)) + rs[i as int].matches.take(j as int).map_values(
                        |x: SpecMatch| (rs[i as int].reference, x),
                    ),
                ),
        {
            proof {
                lemma_flat_pairs_step(rs, i as int, j as int);
                lemma_pair_names_push(
                    flat_pairs(rs.take(i as int)) + rs[i as int].matches.take(j as int).map_values(
                        |x: SpecMatch| (rs[i as int].reference, x),
                    ),
                    (rs[i as int].reference, rs[i as int].matches[j as int]),
                );
            }
            push_field_names(&mut names, &result.reference_asset.metadata);
            push_field_names(&mut names, &result.matches[j].asset.metadata);
        }
        proof {
            lemma_flat_pairs_next(rs, i as int);
            assert(rs[i as int].matches.len() == m);
        }
    }
    assert(rs.take(n as int) =~= rs);
    names
}

/// Append the `REF_<FIELD>` and `CAN_<FIELD>` headers of every key, in order.
pub(crate) fn push_metadata_headers(headers: &mut Vec<String>, keys: &Vec<String>)
    ensures
        views(final(headers)@) == views(old(headers)@) + metadata_headers(views(keys@)),
{
    let ghost start = views(headers@);
    let ghost ks = views(keys@);
    let nk = keys.len();
    assert(ks.take(0) =~= Seq::<Seq<char>>::empty());
    assert(views(headers@) =~= start + metadata_headers(ks.take(0)));
    for k in 0..nk
        invariant
            nk == keys.len(),
            views(keys@) == ks,
            views(headers@) == start + metadata_headers(ks.take(k as int)),
    {
        let upper_key = to_upper(keys[k].as_str());
        let mut r = String::from_str("REF_");
        r.append(upper_key.as_str());
        let mut c = String::from_str("CAN_");
        c.append(upper_key.as_str());
        let ghost before = views(headers@);
        headers.push(r);
        headers.push(c);
        assert(ks.take(k + 1).drop_last() =~= ks.take(k as int));
        assert(ks.take(k + 1).last() == keys@[k as int]@);
        assert(views(headers@) =~= before + seq!["REF_"@ + upper(keys@[k as int]@), "CAN_"@ + upper(keys@[k as int]@)]);
        assert(views(headers@) =~= start + metadata_headers(ks.take(k + 1)));
    }
    assert(ks.take(nk as int) =~= ks);
}

/// Append each key's reference value and candidate value, in key order.
pub(crate) fn push_metadata_cells(values: &mut Vec<String>, keys: &Vec<String>, reference: &AssetRow, candidate: &AssetRow)
    ensures
        views(final(values)@) == views(old(values)@) + metadata_cells(reference@, candidate@, views(keys@)),
{
    let ghost start = views(values@);
    let ghost ks = views(keys@);
    let nk = keys.len();
    assert(ks.take(0) =~= Seq::<Seq<char>>::empty());
    assert(views(values@) =~= start + metadata_cells(reference@, candidate@, ks.take(0)));
    for k in 0..nk
        invariant
            nk == keys.len(),
            views(keys@) == ks,
            views(values@) == start + metadata_cells(reference@, candidate@, ks.take(k as int)),
    {
        let ref_value = cell_for(&reference.metadata, &keys[k]);
        let can_value = cell_for(&candidate.metadata, &keys[k]);
        let ghost before = views(values@);
        values.push(ref_value);
        values.push(can_value);
        assert(ks.take(k + 1).drop_last() =~= ks.take(k as int));
        assert(ks.take(k + 1).last() == keys@[k as int]@);
        assert(views(values@) =~= before + seq![ref_value@, can_value@]);
        assert(views(values@) =~= start + metadata_cells(reference@, candidate@, ks.take(k + 1)));
    }
    assert(ks.take(nk as int) =~= ks);
}

/// Build the match-report table (headers and rows) that the CSV and Excel
/// outputs of a folder geometric match share, so that the two are always
/// column for column the same. The columns are the base columns, then with
/// `with_metadata` a `REF_<FIELD>` and a `CAN_<FIELD>` column for each field
/// found on either side of any pair (sorted, each once), and `COMPARISON_URL`
/// last; a missing value or URL is an empty cell.
pub fn build_geometric_match_table(
    all_matches: &Vec<GeometricSearchResult>,
    with_metadata: bool,
) -> (r: (Vec<String>, Vec<Vec<String>>))
    ensures
        (views(r.0@), row_views(r.1@)) == spec_match_table(result_views(all_matches@), with_metadata),
{
    let ghost rs = result_views(all_matches@);
    let keys: Vec<String> = if with_metadata {
        let names = all_field_names(all_matches);
        let sorted = sorted_unique(&names);
        proof {
            lemma_sorted_set_is(views(names@), views(sorted@));
        }
        sorted
    } else {
        Vec::new()
    };
    let ghost ks = table_keys(rs, with_metadata);
    assert(views(keys@) =~= ks);
    let mut headers: Vec<String> = Vec::new();
    headers.push(String::from_str("REFERENCE_ASSET_PATH"));
    headers.push(String::from_str("CANDIDATE_ASSET_PATH"));
    headers.push(String::from_str("MATCH_PERCENTAGE"));
    headers.push(String::from_str("REFERENCE_ASSET_UUID"));
    headers.push(String::from_str("CANDIDATE_ASSET_UUID"));
    assert(views(headers@) =~= base_headers());
    let nk = keys.len();
    for k in 0..nk
        invariant
            nk == keys.len(),
            views(keys@) == ks,
            views(headers@) == base_headers() + metadata_headers(ks.take(k as int)),
    {
        let upper_key = to_upper(keys[k].as_str());
        let mut r = String::from_str("REF_");
        r.append(upper_key.as_str());
        let mut c = String::from_str("CAN_");
        c.append(upper_key.as_str());
        let ghost before = views(headers@);
        headers.push(r);
        headers.push(c);
        assert(ks.take(k + 1).drop_last() =~= ks.take(k as int));
        assert(ks.take(k + 1).last() == keys@[k as int]@);
        assert(views(headers@) =~= before + seq!["REF_"@ + upper(keys@[k as int]@), "CAN_"@ + upper(keys@[k as int]@)]);
        assert(views(headers@) =~= base_headers() + metadata_headers(ks.take(k + 1)));
    }
    assert(ks.take(nk as int) =~= ks);
    headers.push(String::from_str("COMPARISON_URL"));
    let mut rows: Vec<Vec<String>> = Vec::new();
    let n = all_matches.len();
    let ghost row_of = |p: (SpecAsset, SpecMatch)| table_row(p, ks);
    assert(flat_pairs(rs.take(0)) =~= Seq::<(SpecAsset, SpecMatch)>::empty());
    assert(row_views(rows@) =~= flat_pairs(rs.take(0)).map_values(row_of));
    for i in 0..n
        invariant
            n == all_matches.len(),
            rs == result_views(all_matches@),
            nk == keys.len(),
            views(keys@) == ks,
            row_of == (|p: (SpecAsset, SpecMatch)| table_row(p, ks)),
            row_views(rows@) == flat_pairs(rs.take(i as int)).map_values(row_of),
    {
        let result = &all_matches[i];
        assert(result@ == rs[i as int]);
        let m = result.matches.len();
        for j in 0..m
            invariant
                n == all_matches.len(),
                rs == result_views(all_matches@),
                nk == keys.len(),
                views(keys@) == ks,
                row_of == (|p: (SpecAsset, SpecMatch)| table_row(p, ks)),
                0 <= i < n,
                result@ == rs[i as int],
                m == result.matches.len(),
                row_views(rows@) == (flat_pairs(rs.take(i as int)) + rs[i as int].matches.take(
                    j as int,
                ).map_values(|x: SpecMatch| (rs[i as int].reference, x))).map_values(row_of),
        {
            let reference = &result.reference_asset;
            let candidate = &result.matches[j];
            assert(candidate@ == rs[i as int].matches[j as int]);
            let mut values: Vec<String> = Vec::new();
            values.push(reference.path.clone());
            values.push(candidate.asset.path.clone());
            values.push(candidate.match_percentage.clone());
            values.push(uuid_string(reference.uuid));
            values.push(uuid_string(candidate.asset.uuid));
            let ghost p = (reference@, candidate@);
            assert(views(values@) =~= seq![p.0.path, p.1.asset.path, p.1.percentage, uuid_text(p.0.uuid), uuid_text(p.1.asset.uuid)]);
            for k in 0..nk
                invariant
                    nk == keys.len(),
                    views(keys@) == ks,
                    views(values@) == seq![p.0.path, p.1.asset.path, p.1.percentage, uuid_text(p.0.uuid), uuid_text(p.1.asset.uuid)]
                        + metadata_cells(p.0, p.1.asset, ks.take(k as int)),
                    p == (reference@, candidate@),
            {
                let ref_value = cell_for(&reference.metadata, &keys[k]);
                let can_value = cell_for(&candidate.asset.metadata, &keys[k]);
                let ghost before = views(values@);
                values.push(ref_value);
                values.push(can_value);
                assert(ks.take(k + 1).drop_last() =~= ks.take(k as int));
                assert(ks.take(k + 1).last() == keys@[k as int]@);
                assert(views(values@) =~= before + seq![ref_value@, can_value@]);
                assert(views(values@) =~= seq![p.0.path, p.1.asset.path, p.1.percentage, uuid_text(p.0.uuid), uuid_text(p.1.asset.uuid)]
                    + metadata_cells(p.0, p.1.asset, ks.take(k + 1)));
            }
            assert(ks.take(nk as int) =~= ks);
            let url = match &candidate.comparison_url {
                Some(u) => u.clone(),
                None => String::new(),
            };
            values.push(url);
            assert(views(values@) =~= table_row(p, ks));
            proof {
                lemma_flat_pairs_step(rs, i as int, j as int);
            }
            let ghost before = row_views(rows@);
            rows.push(values);
            assert(row_views(rows@) =~= before.push(table_row(p, ks)));
            assert(row_views(rows@) =~= (flat_pairs(rs.take(i as int)) + rs[i as int].matches.take(
                j + 1,
            ).map_values(|x: SpecMatch| (rs[i as int].reference, x))).map_values(row_of));
        }
        proof {
            lemma_flat_pairs_next(rs, i as int);
        }
    }
    assert(rs.take(n as int) =~= rs);
    let ghost hv = views(headers@);
    assert(hv =~= base_headers() + metadata_headers(ks) + seq!["COMPARISON_URL"@]);
    (headers, rows)
}


impl GeometricMatch {
    /// A copy of the match.
    pub fn duplicate(&self) -> (r: GeometricMatch)
        ensures
            r@ == self@,
    {
        GeometricMatch {
            asset: self.asset.duplicate(),
            match_percentage: self.match_percentage.clone(),
            comparison_url: duplicate_text(&self.comparison_url),
        }
    }
}

/// One (reference, candidate) row of a geometric match report.
#[derive(Debug)]
pub struct GeometricMatchPair {
    pub reference_asset: AssetRow,
    pub candidate: GeometricMatch,
}

pub open spec fn geometric_pair_views(v: Seq<GeometricMatchPair>) -> Seq<(SpecAsset, SpecMatch)> {
    v.map_values(|p: GeometricMatchPair| (p.reference_asset@, p.candidate@))
}

/// Flatten every (reference, candidate) match into the row model of the JSON
/// output: one pair per match, response by response.
pub fn flatten_geometric_matches(all_matches: Vec<GeometricSearchResult>) -> (r: Vec<GeometricMatchPair>)
    ensures
        geometric_pair_views(r@) == flat_pairs(result_views(all_matches@)),
{
    let ghost rs = result_views(all_matches@);
    let mut flattened: Vec<GeometricMatchPair> = Vec::new();
    let n = all_matches.len();
    assert(geometric_pair_views(flattened@) =~= flat_pairs(rs.take(0)));
    for i in 0..n
        invariant
            n == all_matches.len(),
            rs == result_views(all_matches@),
            geometric_pair_views(flattened@) == flat_pairs(rs.take(i as int)),
    {
        let result = &all_matches[i];
        assert(result@ == rs[i as int]);
        let m = result.matches.len();
        for j in 0..m
            invariant
                n == all_matches.len(),
                rs == result_views(all_matches@),
                0 <= i < n,
                result@ == rs[i as int],
                m == result.matches.len(),
                geometric_pair_views(flattened@) == flat_pairs(rs.take(i as int)) + rs[i as int].matches.take(
                    j as int,
                ).map_values(|x: SpecMatch| (rs[i as int].reference, x)),
        {
            proof {
                lemma_flat_pairs_step(rs, i as int, j as int);
            }
            let pair = GeometricMatchPair {
                reference_asset: result.reference_asset.duplicate(),
                candidate: result.matches[j].duplicate(),
            };
            let ghost before = geometric_pair_views(flattened@);
            flattened.push(pair);
            assert(geometric_pair_views(flattened@) =~= before.push((rs[i as int].reference, rs[i as int].matches[j as int])));
        }
        proof {
            lemma_flat_pairs_next(rs, i as int);
        }
    }
    assert(rs.take(n as int) =~= rs);
    flattened
}

#[verifier::external_type_specification]
#[verifier::external_body]
pub struct ExIoError(std::io::Error);

/// The text of an I/O error, by `std::io::Error`'s `Display`. It carries the
/// operating system's own description of the failure, so nothing is claimed
/// of it.
#[verifier::external_body]
fn io_error_text(error: &std::io::Error) -> String {
    error.to_string()
}

/// The error a report ends with when writing its CSV stream to stdout failed:
/// a formatting error saying so, followed by what the I/O error said.
pub fn csv_stream_error(error: std::io::Error) -> (r: CliError)
    ensures
        r matches CliError::ActionError(CliActionError::FormattingError(m))
            && spec_starts_with(m@, "failed writing CSV to stdout: "@),
{
    let text = io_error_text(&error);
    let prefix = "failed writing CSV to stdout: ";
    let mut m = String::from_str(prefix);
    m.append(text.as_str());
    assert(m@.take(prefix@.len() as int) =~= prefix@);
    CliError::ActionError(CliActionError::FormattingError(m))
}

/// The error a report ends with when writing its JSON document to stdout
/// failed: a formatting error carrying what the I/O error said.
pub fn json_stream_error(error: std::io::Error) -> (r: CliError)
    ensures
        r is ActionError,
        r->ActionError_0 is FormattingError,
{
    let text = io_error_text(&error);
    CliError::ActionError(CliActionError::FormattingError(text))
}

/// Each key adds two headers and two cells.
pub proof fn lemma_metadata_widths(reference: SpecAsset, candidate: SpecAsset, keys: Seq<Seq<char>>)
    ensures
        metadata_headers(keys).len() == 2 * keys.len(),
        metadata_cells(reference, candidate, keys).len() == 2 * keys.len(),
    decreases keys.len(),
{
    if keys.len() > 0 {
        lemma_metadata_widths(reference, candidate, keys.drop_last());
    }
}

/// Every row of a geometric match table is as wide as its header row,
/// whatever the matches and their metadata: absent values are empty cells,
/// never missing ones.
pub proof fn lemma_geometric_rows_fit_headers(results: Seq<SpecResult>, with_metadata: bool)
    ensures
        forall|i: int|
            0 <= i < spec_match_table(results, with_metadata).1.len() ==> (#[trigger] spec_match_table(
                results,
                with_metadata,
            ).1[i]).len() == spec_match_table(results, with_metadata).0.len(),
{
    let keys = table_keys(results, with_metadata);
    let t = spec_match_table(results, with_metadata);
    assert forall|i: int| 0 <= i < t.1.len() implies (#[trigger] t.1[i]).len() == t.0.len() by {
        let p = flat_pairs(results)[i];
        lemma_metadata_widths(p.0, p.1.asset, keys);
    }
}

/// The paired columns of field `keys[k]`: the header `REF_<FIELD>` over the
/// reference asset's value of the field, and `CAN_<FIELD>` over the
/// candidate's, an absent value as an empty cell.
pub proof fn lemma_metadata_columns_at(reference: SpecAsset, candidate: SpecAsset, keys: Seq<Seq<char>>, k: int)
    requires
        0 <= k < keys.len(),
    ensures
        metadata_headers(keys)[2 * k] == "REF_"@ + upper(keys[k]),
        metadata_headers(keys)[2 * k + 1] == "CAN_"@ + upper(keys[k]),
        metadata_cells(reference, candidate, keys)[2 * k] == cell_or_empty(field_value(reference.metadata, keys[k])),
        metadata_cells(reference, candidate, keys)[2 * k + 1] == cell_or_empty(
            field_value(candidate.metadata, keys[k]),
        ),
    decreases keys.len(),
{
    lemma_metadata_widths(reference, candidate, keys.drop_last());
    if k < keys.len() - 1 {
        lemma_metadata_columns_at(reference, candidate, keys.drop_last(), k);
        assert(keys.drop_last()[k] == keys[k]);
    }
}

/// In the geometric match table, every row holds its reference asset's path
/// and UUID and its candidate's, in the columns named for them; under each
/// field's `REF_` column the reference asset's value of that field and under
/// its `CAN_` column the candidate's; and the comparison address last.
pub proof fn lemma_geometric_columns_hold_their_side(results: Seq<SpecResult>, with_metadata: bool, i: int, k: int)
    requires
        0 <= i < flat_pairs(results).len(),
        0 <= k < table_keys(results, with_metadata).len(),
    ensures
        ({
            let t = spec_match_table(results, with_metadata);
            let keys = table_keys(results, with_metadata);
            let p = flat_pairs(results)[i];
            let row = t.1[i];
            &&& t.0[0] == "REFERENCE_ASSET_PATH"@ && row[0] == p.0.path
            &&& t.0[1] == "CANDIDATE_ASSET_PATH"@ && row[1] == p.1.asset.path
            &&& t.0[2] == "MATCH_PERCENTAGE"@ && row[2] == p.1.percentage
            &&& t.0[3] == "REFERENCE_ASSET_UUID"@ && row[3] == uuid_text(p.0.uuid)
            &&& t.0[4] == "CANDIDATE_ASSET_UUID"@ && row[4] == uuid_text(p.1.asset.uuid)
            &&& t.0[5 + 2 * k] == "REF_"@ + upper(keys[k])
            &&& row[5 + 2 * k] == cell_or_empty(field_value(p.0.metadata, keys[k]))
            &&& t.0[6 + 2 * k] == "CAN_"@ + upper(keys[k])
            &&& row[6 + 2 * k] == cell_or_empty(field_value(p.1.asset.metadata, keys[k]))
            &&& t.0[t.0.len() - 1] == "COMPARISON_URL"@ && row[row.len() - 1] == cell_or_empty(p.1.url)
        }),
{
    let keys = table_keys(results, with_metadata);
    let p = flat_pairs(results)[i];
    lemma_metadata_widths(p.0, p.1.asset, keys);
    lemma_metadata_columns_at(p.0, p.1.asset, keys, k);
}

} // verus!
