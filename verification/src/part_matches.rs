//! Part and visual match reports: each reference asset with the matches its
//! search found, flattened into one row per (reference, candidate) pair.

use vstd::prelude::*;
use crate::match_table::{
    AssetRow, SpecAsset, opt_text, duplicate_text, field_names, metadata_headers, metadata_cells, cell_or_empty,
    push_field_names, push_metadata_headers, push_metadata_cells, row_views, lemma_metadata_widths,
    lemma_metadata_columns_at,
};
use crate::batch_csv::{sorted_set, lemma_sorted_set_is};
use crate::ids::{uuid_text, uuid_string};
use crate::sorted::sorted_unique;
use crate::text::{views, upper};
use crate::assoc::field_value;

verus! {

/// One part match of a reference asset. Percentages are held as the report
/// writes them.
#[derive(Debug)]
pub struct PartMatch {
    pub asset: AssetRow,
    pub forward_match_percentage: Option<String>,
    pub reverse_match_percentage: Option<String>,
    pub comparison_url: Option<String>,
}

pub struct SpecPartMatch {
    pub asset: SpecAsset,
    pub forward: Option<Seq<char>>,
    pub reverse: Option<Seq<char>>,
    pub url: Option<Seq<char>>,
}

impl View for PartMatch {
    type V = SpecPartMatch;

    open spec fn view(&self) -> SpecPartMatch {
        SpecPartMatch {
            asset: self.asset@,
            forward: opt_text(self.forward_match_percentage),
            reverse: opt_text(self.reverse_match_percentage),
            url: opt_text(self.comparison_url),
        }
    }
}

/// A reference asset with the part (or visual) matches its search found.
#[derive(Debug)]
pub struct PartSearchResult {
    pub reference_asset: AssetRow,
    pub matches: Vec<PartMatch>,
}

pub struct SpecPartResult {
    pub reference: SpecAsset,
    pub matches: Seq<SpecPartMatch>,
}

/// The views of a list of matches.
pub open spec fn part_match_views(v: Seq<PartMatch>) -> Seq<SpecPartMatch> {
    v.map_values(|m: PartMatch| m@)
}

impl View for PartSearchResult {
    type V = SpecPartResult;

    open spec fn view(&self) -> SpecPartResult {
        SpecPartResult { reference: self.reference_asset@, matches: part_match_views(self.matches@) }
    }
}

/// The views of a list of search results.
pub open spec fn part_result_views(v: Seq<PartSearchResult>) -> Seq<SpecPartResult> {
    v.map_values(|r: PartSearchResult| r@)
}

/// Every (reference, match) pair, response by response and match by match.
pub open spec fn flat_part_pairs(results: Seq<SpecPartResult>) -> Seq<(SpecAsset, SpecPartMatch)>
    decreases results.len(),
{
    if results.len() == 0 {
        seq![]
    } else {
        let last = results.last();
        flat_part_pairs(results.drop_last()) + last.matches.map_values(|m: SpecPartMatch| (last.reference, m))
    }
}

/// One (reference, candidate) row of a part match report.
#[derive(Debug)]
pub struct PartMatchPair {
    pub reference_asset: AssetRow,
    pub candidate_asset: AssetRow,
    pub forward_match_percentage: Option<String>,
    pub reverse_match_percentage: Option<String>,
    pub comparison_url: Option<String>,
}

/// The views of a list of part rows.
pub open spec fn part_pair_views(v: Seq<PartMatchPair>) -> Seq<(SpecAsset, SpecPartMatch)> {
    v.map_values(
        |p: PartMatchPair|
            (
                p.reference_asset@,
                SpecPartMatch {
                    asset: p.candidate_asset@,
                    forward: opt_text(p.forward_match_percentage),
                    reverse: opt_text(p.reverse_match_percentage),
                    url: opt_text(p.comparison_url),
                },
            ),
    )
}

/// One (reference, candidate) row of a visual match report.
#[derive(Debug)]
pub struct VisualMatchPair {
    pub reference_asset: AssetRow,
    pub candidate_asset: AssetRow,
    pub comparison_url: Option<String>,
}

/// The views of a list of visual rows: reference, candidate and URL.
pub open spec fn visual_pair_views(v: Seq<VisualMatchPair>) -> Seq<(SpecAsset, SpecAsset, Option<Seq<char>>)> {
    v.map_values(|p: VisualMatchPair| (p.reference_asset@, p.candidate_asset@, opt_text(p.comparison_url)))
}

/// The visual row of a (reference, match) pair.
pub open spec fn visual_row(p: (SpecAsset, SpecPartMatch)) -> (SpecAsset, SpecAsset, Option<Seq<char>>) {
    (p.0, p.1.asset, p.1.url)
}

proof fn lemma_flat_step(results: Seq<SpecPartResult>, i: int, j: int)
    requires
        0 <= i < results.len(),
        0 <= j < results[i].matches.len(),
    ensures
        flat_part_pairs(results.take(i)) + results[i].matches.take(j + 1).map_values(
            |m: SpecPartMatch| (results[i].reference, m),
        ) == (flat_part_pairs(results.take(i)) + results[i].matches.take(j).map_values(
            |m: SpecPartMatch| (results[i].reference, m),
        )).push((results[i].reference, results[i].matches[j])),
{
    let r = results[i];
    assert(r.matches.take(j + 1).map_values(|m: SpecPartMatch| (r.reference, m)) =~= r.matches.take(
        j,
    ).map_values(|m: SpecPartMatch| (r.reference, m)).push((r.reference, r.matches[j])));
}

proof fn lemma_flat_next(results: Seq<SpecPartResult>, i: int)
    requires
        0 <= i < results.len(),
    ensures
        flat_part_pairs(results.take(i + 1)) == flat_part_pairs(results.take(i)) + results[i].matches.take(
            results[i].matches.len() as int,
        ).map_values(|m: SpecPartMatch| (results[i].reference, m)),
{
    assert(results.take(i + 1).drop_last() =~= results.take(i));
    assert(results[i].matches.take(results[i].matches.len() as int) =~= results[i].matches);
}

/// Flatten part matches into the row model shared by the JSON and CSV
/// outputs: one row per match, response by response, each with its
/// reference asset, candidate asset, both percentages and comparison URL.
pub fn flatten_part_matches(all_matches: Vec<PartSearchResult>) -> (r: Vec<PartMatchPair>)
    ensures
        part_pair_views(r@) == flat_part_pairs(part_result_views(all_matches@)),
{
    let ghost rs = part_result_views(all_matches@);
    let mut flattened: Vec<PartMatchPair> = Vec::new();
    let n = all_matches.len();
    assert(part_pair_views(flattened@) =~= flat_part_pairs(rs.take(0)));
    for i in 0..n
        invariant
            n == all_matches.len(),
            rs == part_result_views(all_matches@),
            part_pair_views(flattened@) == flat_part_pairs(rs.take(i as int)),
    {
        let result = &all_matches[i];
        assert(result@ == rs[i as int]);
        let m = result.matches.len();
        for j in 0..m
            invariant
                n == all_matches.len(),
                rs == part_result_views(all_matches@),
                0 <= i < n,
                result@ == rs[i as int],
                m == result.matches.len(),
                part_pair_views(flattened@) == flat_part_pairs(rs.take(i as int)) + rs[i as int].matches.take(
                    j as int,
                ).map_values(|x: SpecPartMatch| (rs[i as int].reference, x)),
        {
            proof {
                lemma_flat_step(rs, i as int, j as int);
            }
            let found = &result.matches[j];
            assert(found@ == rs[i as int].matches[j as int]);
            let pair = PartMatchPair {
                reference_asset: result.reference_asset.duplicate(),
                candidate_asset: found.asset.duplicate(),
                forward_match_percentage: duplicate_text(&found.forward_match_percentage),
                reverse_match_percentage: duplicate_text(&found.reverse_match_percentage),
                comparison_url: duplicate_text(&found.comparison_url),
            };
            let ghost before = part_pair_views(flattened@);
            flattened.push(pair);
            assert(part_pair_views(flattened@) =~= before.push((rs[i as int].reference, rs[i as int].matches[j as int])));
        }
        proof {
            lemma_flat_next(rs, i as int);
        }
    }
    assert(rs.take(n as int) =~= rs);
    flattened
}

/// Flatten visual matches into the row model of the JSON and CSV outputs:
/// reference, candidate and comparison URL of each match, response by
/// response.
pub fn flatten_visual_matches(all_matches: Vec<PartSearchResult>) -> (r: Vec<VisualMatchPair>)
    ensures
        visual_pair_views(r@) == flat_part_pairs(part_result_views(all_matches@)).map_values(
            |p: (SpecAsset, SpecPartMatch)| visual_row(p),
        ),
{
    let ghost rs = part_result_views(all_matches@);
    let mut flattened: Vec<VisualMatchPair> = Vec::new();
    let n = all_matches.len();
    assert(visual_pair_views(flattened@) =~= flat_part_pairs(rs.take(0)).map_values(
        |p: (SpecAsset, SpecPartMatch)| visual_row(p),
    ));
    for i in 0..n
        invariant
            n == all_matches.len(),
            rs == part_result_views(all_matches@),
            visual_pair_views(flattened@) == flat_part_pairs(rs.take(i as int)).map_values(
                |p: (SpecAsset, SpecPartMatch)| visual_row(p),
            ),
    {
        let result = &all_matches[i];
        assert(result@ == rs[i as int]);
        let m = result.matches.len();
        for j in 0..m
            invariant
                n == all_matches.len(),
                rs == part_result_views(all_matches@),
                0 <= i < n,
                result@ == rs[i as int],
                m == result.matches.len(),
                visual_pair_views(flattened@) == (flat_part_pairs(rs.take(i as int)) + rs[i as int].matches.take(
                    j as int,
                ).map_values(|x: SpecPartMatch| (rs[i as int].reference, x))).map_values(
                    |p: (SpecAsset, SpecPartMatch)| visual_row(p),
                ),
        {
            proof {
                lemma_flat_step(rs, i as int, j as int);
            }
            let found = &result.matches[j];
            assert(found@ == rs[i as int].matches[j as int]);
            let pair = VisualMatchPair {
                reference_asset: result.reference_asset.duplicate(),
                candidate_asset: found.asset.duplicate(),
                comparison_url: duplicate_text(&found.comparison_url),
            };
            let ghost prefix = flat_part_pairs(rs.take(i as int)) + rs[i as int].matches.take(j as int).map_values(
                |x: SpecPartMatch| (rs[i as int].reference, x),
            );
            let ghost before = visual_pair_views(flattened@);
            flattened.push(pair);
            assert(visual_pair_views(flattened@) =~= before.push(
                visual_row((rs[i as int].reference, rs[i as int].matches[j as int])),
            ));
            assert(prefix.push((rs[i as int].reference, rs[i as int].matches[j as int])).map_values(
                |p: (SpecAsset, SpecPartMatch)| visual_row(p),
            ) =~= prefix.map_values(|p: (SpecAsset, SpecPartMatch)| visual_row(p)).push(
                visual_row((rs[i as int].reference, rs[i as int].matches[j as int])),
            ));
        }
        proof {
            lemma_flat_next(rs, i as int);
        }
    }
    assert(rs.take(n as int) =~= rs);
    flattened
}

/// The field names of both assets of every pair, in order, repeats included.
pub open spec fn side_names(pairs: Seq<(SpecAsset, SpecAsset)>) -> Seq<Seq<char>>
    decreases pairs.len(),
{
    if pairs.len() == 0 {
        seq![]
    } else {
        let p = pairs.last();
        side_names(pairs.drop_last()) + field_names(p.0.metadata) + field_names(p.1.metadata)
    }
}

/// The metadata fields a table has columns for: none without metadata,
/// otherwise every field of either asset of any pair, sorted, each once.
pub open spec fn side_keys(pairs: Seq<(SpecAsset, SpecAsset)>, with_metadata: bool) -> Seq<Seq<char>> {
    if with_metadata {
        sorted_set(side_names(pairs))
    } else {
        seq![]
    }
}

/// A percentage as a part report writes it: as given, or `0.0`.
pub open spec fn percentage_cell(p: Option<Seq<char>>) -> Seq<char> {
    match p {
        Some(t) => t,
        None => "0.0"@,
    }
}

/// The columns of a part match table before the metadata ones.
pub open spec fn part_base_headers() -> Seq<Seq<char>> {
    seq![
        "REFERENCE_ASSET_PATH"@,
        "CANDIDATE_ASSET_PATH"@,
        "FORWARD_MATCH_PERCENTAGE"@,
        "REVERSE_MATCH_PERCENTAGE"@,
        "REFERENCE_ASSET_UUID"@,
        "CANDIDATE_ASSET_UUID"@,
        "COMPARISON_URL"@,
    ]
}

/// A part pair's cells before the metadata ones.
pub open spec fn part_base_cells(p: (SpecAsset, SpecPartMatch)) -> Seq<Seq<char>> {
    seq![
        p.0.path,
        p.1.asset.path,
        percentage_cell(p.1.forward),
        percentage_cell(p.1.reverse),
        uuid_text(p.0.uuid),
        uuid_text(p.1.asset.uuid),
        cell_or_empty(p.1.url),
    ]
}

/// The part match table: headers, then one row per pair, with the paired
/// metadata columns after the base ones.
pub open spec fn spec_part_table(pairs: Seq<(SpecAsset, SpecPartMatch)>, with_metadata: bool) -> (
    Seq<Seq<char>>,
    Seq<Seq<Seq<char>>>,
) {
    let keys = side_keys(pairs.map_values(|p: (SpecAsset, SpecPartMatch)| (p.0, p.1.asset)), with_metadata);
    (
        part_base_headers() + metadata_headers(keys),
        pairs.map_values(|p: (SpecAsset, SpecPartMatch)| part_base_cells(p) + metadata_cells(p.0, p.1.asset, keys)),
    )
}

/// The columns of a visual match table before the metadata ones.
pub open spec fn visual_base_headers() -> Seq<Seq<char>> {
    seq![
        "REFERENCE_ASSET_PATH"@,
        "CANDIDATE_ASSET_PATH"@,
        "REFERENCE_ASSET_UUID"@,
        "CANDIDATE_ASSET_UUID"@,
        "COMPARISON_URL"@,
    ]
}

/// A visual pair's cells before the metadata ones.
pub open spec fn visual_base_cells(p: (SpecAsset, SpecAsset, Option<Seq<char>>)) -> Seq<Seq<char>> {
    seq![p.0.path, p.1.path, uuid_text(p.0.uuid), uuid_text(p.1.uuid), cell_or_empty(p.2)]
}

/// The visual match table: headers, then one row per pair, with the paired
/// metadata columns after the base ones.
pub open spec fn spec_visual_table(pairs: Seq<(SpecAsset, SpecAsset, Option<Seq<char>>)>, with_metadata: bool) -> (
    Seq<Seq<char>>,
    Seq<Seq<Seq<char>>>,
) {
    let keys = side_keys(
        pairs.map_values(|p: (SpecAsset, SpecAsset, Option<Seq<char>>)| (p.0, p.1)),
        with_metadata,
    );
    (
        visual_base_headers() + metadata_headers(keys),
        pairs.map_values(
            |p: (SpecAsset, SpecAsset, Option<Seq<char>>)| visual_base_cells(p) + metadata_cells(p.0, p.1, keys),
        ),
    )
}

proof fn lemma_side_names_push(pairs: Seq<(SpecAsset, SpecAsset)>, p: (SpecAsset, SpecAsset))
    ensures
        side_names(pairs.push(p)) == side_names(pairs) + field_names(p.0.metadata) + field_names(p.1.metadata),
{
    assert(pairs.push(p).drop_last() =~= pairs);
}

/// The text of an optional value, or an empty cell.
fn text_or_empty(o: &Option<String>) -> (r: String)
    ensures
        r@ == cell_or_empty(opt_text(*o)),
{
    match o {
        Some(t) => t.clone(),
        None => String::new(),
    }
}

/// The sorted keys of the part pairs' metadata, or none.
fn part_keys(pairs: &Vec<PartMatchPair>, with_metadata: bool) -> (r: Vec<String>)
    ensures
        views(r@) == side_keys(
            part_pair_views(pairs@).map_values(|p: (SpecAsset, SpecPartMatch)| (p.0, p.1.asset)),
            with_metadata,
        ),
{
    if !with_metadata {
        return Vec::new();
    }
    let ghost sides = part_pair_views(pairs@).map_values(|p: (SpecAsset, SpecPartMatch)| (p.0, p.1.asset));
    let mut names: Vec<String> = Vec::new();
    let n = pairs.len();
    assert(sides.take(0) =~= Seq::<(SpecAsset, SpecAsset)>::empty());
    for i in 0..n
        invariant
            n == pairs@.len(),
            sides == part_pair_views(pairs@).map_values(|p: (SpecAsset, SpecPartMatch)| (p.0, p.1.asset)),
            views(names@) == side_names(sides.take(i as int)),
    {
        proof {
            assert(sides.take(i + 1) =~= sides.take(i as int).push(sides[i as int]));
            lemma_side_names_push(sides.take(i as int), sides[i as int]);
        }
        assert(sides[i as int] == (pairs@[i as int].reference_asset@, pairs@[i as int].candidate_asset@));
        push_field_names(&mut names, &pairs[i].reference_asset.metadata);
        push_field_names(&mut names, &pairs[i].candidate_asset.metadata);
    }
    assert(sides.take(n as int) =~= sides);
    let sorted = sorted_unique(&names);
    proof {
        lemma_sorted_set_is(views(names@), views(sorted@));
    }
    sorted
}

/// Build the part match table (headers and rows) the CSV output writes: the
/// base columns, comparison URL included, then with `with_metadata` a
/// `REF_<FIELD>` and a `CAN_<FIELD>` column for each field found on either
/// asset of any pair (sorted, each once); a missing percentage reads `0.0`
/// and a missing value or URL is an empty cell.
pub fn build_part_match_table(pairs: &Vec<PartMatchPair>, with_metadata: bool) -> (r: (Vec<String>, Vec<Vec<String>>))
    ensures
        (views(r.0@), row_views(r.1@)) == spec_part_table(part_pair_views(pairs@), with_metadata),
{
    let ghost ps = part_pair_views(pairs@);
    let keys = part_keys(pairs, with_metadata);
    let ghost ks = views(keys@);
    let mut headers: Vec<String> = Vec::new();
    headers.push(String::from_str("REFERENCE_ASSET_PATH"));
    headers.push(String::from_str("CANDIDATE_ASSET_PATH"));
    headers.push(String::from_str("FORWARD_MATCH_PERCENTAGE"));
    headers.push(String::from_str("REVERSE_MATCH_PERCENTAGE"));
    headers.push(String::from_str("REFERENCE_ASSET_UUID"));
    headers.push(String::from_str("CANDIDATE_ASSET_UUID"));
    headers.push(String::from_str("COMPARISON_URL"));
    assert(views(headers@) =~= part_base_headers());
    push_metadata_headers(&mut headers, &keys);
    let ghost row_of = |p: (SpecAsset, SpecPartMatch)| part_base_cells(p) + metadata_cells(p.0, p.1.asset, ks);
    let mut rows: Vec<Vec<String>> = Vec::new();
    let n = pairs.len();
    assert(row_views(rows@) =~= ps.take(0).map_values(row_of));
    for i in 0..n
        invariant
            n == pairs@.len(),
            ps == part_pair_views(pairs@),
            views(keys@) == ks,
            row_of == (|p: (SpecAsset, SpecPartMatch)| part_base_cells(p) + metadata_cells(p.0, p.1.asset, ks)),
            row_views(rows@) == ps.take(i as int).map_values(row_of),
    {
        let pair = &pairs[i];
        let ghost p = ps[i as int];
        assert(p.0 == pair.reference_asset@ && p.1.asset == pair.candidate_asset@);
        let mut values: Vec<String> = Vec::new();
        values.push(pair.reference_asset.path.clone());
        values.push(pair.candidate_asset.path.clone());
        let forward = match &pair.forward_match_percentage {
            Some(t) => t.clone(),
            None => String::from_str("0.0"),
        };
        let reverse = match &pair.reverse_match_percentage {
            Some(t) => t.clone(),
            None => String::from_str("0.0"),
        };
        values.push(forward);
        values.push(reverse);
        values.push(uuid_string(pair.reference_asset.uuid));
        values.push(uuid_string(pair.candidate_asset.uuid));
        values.push(text_or_empty(&pair.comparison_url));
        assert(views(values@) =~= part_base_cells(p));
        push_metadata_cells(&mut values, &keys, &pair.reference_asset, &pair.candidate_asset);
        let ghost before = row_views(rows@);
        rows.push(values);
        assert(row_views(rows@) =~= before.push(row_of(p)));
        assert(ps.take(i + 1) =~= ps.take(i as int).push(p));
        assert(row_views(rows@) =~= ps.take(i + 1).map_values(row_of));
    }
    assert(ps.take(n as int) =~= ps);
    (headers, rows)
}

/// The sorted keys of the visual pairs' metadata, or none.
fn visual_keys(pairs: &Vec<VisualMatchPair>, with_metadata: bool) -> (r: Vec<String>)
    ensures
        views(r@) == side_keys(
            visual_pair_views(pairs@).map_values(|p: (SpecAsset, SpecAsset, Option<Seq<char>>)| (p.0, p.1)),
            with_metadata,
        ),
{
    if !with_metadata {
        return Vec::new();
    }
    let ghost sides = visual_pair_views(pairs@).map_values(|p: (SpecAsset, SpecAsset, Option<Seq<char>>)| (p.0, p.1));
    let mut names: Vec<String> = Vec::new();
    let n = pairs.len();
    assert(sides.take(0) =~= Seq::<(SpecAsset, SpecAsset)>::empty());
    for i in 0..n
        invariant
            n == pairs@.len(),
            sides == visual_pair_views(pairs@).map_values(|p: (SpecAsset, SpecAsset, Option<Seq<char>>)| (p.0, p.1)),
            views(names@) == side_names(sides.take(i as int)),
    {
        proof {
            assert(sides.take(i + 1) =~= sides.take(i as int).push(sides[i as int]));
            lemma_side_names_push(sides.take(i as int), sides[i as int]);
        }
        assert(sides[i as int] == (pairs@[i as int].reference_asset@, pairs@[i as int].candidate_asset@));
        push_field_names(&mut names, &pairs[i].reference_asset.metadata);
        push_field_names(&mut names, &pairs[i].candidate_asset.metadata);
    }
    assert(sides.take(n as int) =~= sides);
    let sorted = sorted_unique(&names);
    proof {
        lemma_sorted_set_is(views(names@), views(sorted@));
    }
    sorted
}

/// Build the visual match table (headers and rows) the CSV output writes:
/// the base columns, comparison URL included, then with `with_metadata` a
/// `REF_<FIELD>` and a `CAN_<FIELD>` column for each field found on either
/// asset of any pair (sorted, each once); a missing value or URL is an empty
/// cell.
pub fn build_visual_match_table(pairs: &Vec<VisualMatchPair>, with_metadata: bool) -> (r: (
    Vec<String>,
    Vec<Vec<String>>,
))
    ensures
        (views(r.0@), row_views(r.1@)) == spec_visual_table(visual_pair_views(pairs@), with_metadata),
{
    let ghost ps = visual_pair_views(pairs@);
    let keys = visual_keys(pairs, with_metadata);
    let ghost ks = views(keys@);
    let mut headers: Vec<String> = Vec::new();
    headers.push(String::from_str("REFERENCE_ASSET_PATH"));
    headers.push(String::from_str("CANDIDATE_ASSET_PATH"));
    headers.push(String::from_str("REFERENCE_ASSET_UUID"));
    headers.push(String::from_str("CANDIDATE_ASSET_UUID"));
    headers.push(String::from_str("COMPARISON_URL"));
    assert(views(headers@) =~= visual_base_headers());
    push_metadata_headers(&mut headers, &keys);
    let ghost row_of = |p: (SpecAsset, SpecAsset, Option<Seq<char>>)| visual_base_cells(p) + metadata_cells(
        p.0,
        p.1,
        ks,
    );
    let mut rows: Vec<Vec<String>> = Vec::new();
    let n = pairs.len();
    assert(row_views(rows@) =~= ps.take(0).map_values(row_of));
    for i in 0..n
        invariant
            n == pairs@.len(),
            ps == visual_pair_views(pairs@),
            views(keys@) == ks,
            row_of == (|p: (SpecAsset, SpecAsset, Option<Seq<char>>)| visual_base_cells(p) + metadata_cells(
                p.0,
                p.1,
                ks,
            )),
            row_views(rows@) == ps.take(i as int).map_values(row_of),
    {
        let pair = &pairs[i];
        let ghost p = ps[i as int];
        assert(p.0 == pair.reference_asset@ && p.1 == pair.candidate_asset@);
        let mut values: Vec<String> = Vec::new();
        values.push(pair.reference_asset.path.clone());
        values.push(pair.candidate_asset.path.clone());
        values.push(uuid_string(pair.reference_asset.uuid));
        values.push(uuid_string(pair.candidate_asset.uuid));
        values.push(text_or_empty(&pair.comparison_url));
        assert(views(values@) =~= visual_base_cells(p));
        push_metadata_cells(&mut values, &keys, &pair.reference_asset, &pair.candidate_asset);
        let ghost before = row_views(rows@);
        rows.push(values);
        assert(row_views(rows@) =~= before.push(row_of(p)));
        assert(ps.take(i + 1) =~= ps.take(i as int).push(p));
        assert(row_views(rows@) =~= ps.take(i + 1).map_values(row_of));
    }
    assert(ps.take(n as int) =~= ps);
    (headers, rows)
}

/// Every row of a part match table is as wide as its header row.
pub proof fn lemma_part_rows_fit_headers(pairs: Seq<(SpecAsset, SpecPartMatch)>, with_metadata: bool)
    ensures
        forall|i: int|
            0 <= i < spec_part_table(pairs, with_metadata).1.len() ==> (#[trigger] spec_part_table(
                pairs,
                with_metadata,
            ).1[i]).len() == spec_part_table(pairs, with_metadata).0.len(),
{
    let keys = side_keys(pairs.map_values(|p: (SpecAsset, SpecPartMatch)| (p.0, p.1.asset)), with_metadata);
    let t = spec_part_table(pairs, with_metadata);
    assert forall|i: int| 0 <= i < t.1.len() implies (#[trigger] t.1[i]).len() == t.0.len() by {
        lemma_metadata_widths(pairs[i].0, pairs[i].1.asset, keys);
    }
}

/// Every row of a visual match table is as wide as its header row.
pub proof fn lemma_visual_rows_fit_headers(pairs: Seq<(SpecAsset, SpecAsset, Option<Seq<char>>)>, with_metadata: bool)
    ensures
        forall|i: int|
            0 <= i < spec_visual_table(pairs, with_metadata).1.len() ==> (#[trigger] spec_visual_table(
                pairs,
                with_metadata,
            ).1[i]).len() == spec_visual_table(pairs, with_metadata).0.len(),
{
    let keys = side_keys(
        pairs.map_values(|p: (SpecAsset, SpecAsset, Option<Seq<char>>)| (p.0, p.1)),
        with_metadata,
    );
    let t = spec_visual_table(pairs, with_metadata);
    assert forall|i: int| 0 <= i < t.1.len() implies (#[trigger] t.1[i]).len() == t.0.len() by {
        lemma_metadata_widths(pairs[i].0, pairs[i].1, keys);
    }
}

/// In the part match table, every row holds its reference asset's path and
/// UUID and its candidate's, and both percentages, in the columns named for
/// them; under each field's `REF_` column the reference asset's value of that
/// field and under its `CAN_` column the candidate's.
pub proof fn lemma_part_columns_hold_their_side(
    pairs: Seq<(SpecAsset, SpecPartMatch)>,
    with_metadata: bool,
    i: int,
    k: int,
)
    requires
        0 <= i < pairs.len(),
        0 <= k < side_keys(pairs.map_values(|p: (SpecAsset, SpecPartMatch)| (p.0, p.1.asset)), with_metadata).len(),
    ensures
        ({
            let t = spec_part_table(pairs, with_metadata);
            let keys = side_keys(pairs.map_values(|p: (SpecAsset, SpecPartMatch)| (p.0, p.1.asset)), with_metadata);
            let p = pairs[i];
            let row = t.1[i];
            &&& t.0[0] == "REFERENCE_ASSET_PATH"@ && row[0] == p.0.path
            &&& t.0[1] == "CANDIDATE_ASSET_PATH"@ && row[1] == p.1.asset.path
            &&& t.0[2] == "FORWARD_MATCH_PERCENTAGE"@ && row[2] == percentage_cell(p.1.forward)
            &&& t.0[3] == "REVERSE_MATCH_PERCENTAGE"@ && row[3] == percentage_cell(p.1.reverse)
            &&& t.0[4] == "REFERENCE_ASSET_UUID"@ && row[4] == uuid_text(p.0.uuid)
            &&& t.0[5] == "CANDIDATE_ASSET_UUID"@ && row[5] == uuid_text(p.1.asset.uuid)
            &&& t.0[6] == "COMPARISON_URL"@ && row[6] == cell_or_empty(p.1.url)
            &&& t.0[7 + 2 * k] == "REF_"@ + upper(keys[k])
            &&& row[7 + 2 * k] == cell_or_empty(field_value(p.0.metadata, keys[k]))
            &&& t.0[8 + 2 * k] == "CAN_"@ + upper(keys[k])
            &&& row[8 + 2 * k] == cell_or_empty(field_value(p.1.asset.metadata, keys[k]))
        }),
{
    let keys = side_keys(pairs.map_values(|p: (SpecAsset, SpecPartMatch)| (p.0, p.1.asset)), with_metadata);
    let p = pairs[i];
    lemma_metadata_widths(p.0, p.1.asset, keys);
    lemma_metadata_columns_at(p.0, p.1.asset, keys, k);
}

/// In the visual match table, every row holds its reference asset's path and
/// UUID and its candidate's in the columns named for them; under each field's
/// `REF_` column the reference asset's value of that field and under its
/// `CAN_` column the candidate's.
pub proof fn lemma_visual_columns_hold_their_side(
    pairs: Seq<(SpecAsset, SpecAsset, Option<Seq<char>>)>,
    with_metadata: bool,
    i: int,
    k: int,
)
    requires
        0 <= i < pairs.len(),
        0 <= k < side_keys(
            pairs.map_values(|p: (SpecAsset, SpecAsset, Option<Seq<char>>)| (p.0, p.1)),
            with_metadata,
        ).len(),
    ensures
        ({
            let t = spec_visual_table(pairs, with_metadata);
            let keys = side_keys(
                pairs.map_values(|p: (SpecAsset, SpecAsset, Option<Seq<char>>)| (p.0, p.1)),
                with_metadata,
            );
            let p = pairs[i];
            let row = t.1[i];
            &&& t.0[0] == "REFERENCE_ASSET_PATH"@ && row[0] == p.0.path
            &&& t.0[1] == "CANDIDATE_ASSET_PATH"@ && row[1] == p.1.path
            &&& t.0[2] == "REFERENCE_ASSET_UUID"@ && row[2] == uuid_text(p.0.uuid)
            &&& t.0[3] == "CANDIDATE_ASSET_UUID"@ && row[3] == uuid_text(p.1.uuid)
            &&& t.0[4] == "COMPARISON_URL"@ && row[4] == cell_or_empty(p.2)
            &&& t.0[5 + 2 * k] == "REF_"@ + upper(keys[k])
            &&& row[5 + 2 * k] == cell_or_empty(field_value(p.0.metadata, keys[k]))
            &&& t.0[6 + 2 * k] == "CAN_"@ + upper(keys[k])
            &&& row[6 + 2 * k] == cell_or_empty(field_value(p.1.metadata, keys[k]))
        }),
{
    let keys = side_keys(
        pairs.map_values(|p: (SpecAsset, SpecAsset, Option<Seq<char>>)| (p.0, p.1)),
        with_metadata,
    );
    let p = pairs[i];
    lemma_metadata_widths(p.0, p.1, keys);
    lemma_metadata_columns_at(p.0, p.1, keys, k);
}

} // verus!
