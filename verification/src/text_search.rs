//! Text search: the query sent for what the user typed, and the addresses
//! and names its results are shown with.

use vstd::prelude::*;
use crate::folder_match::without_trailing_slashes;
use crate::ids::{uuid_text, uuid_string};
use crate::assoc::field_value;
use crate::batch_csv::{sorted_set, lemma_sorted_set_is};
use crate::match_table::{AssetRow, SpecAsset, cell_or_empty, field_names, opt_text, push_field_names, row_views};
use crate::sorted::sorted_unique;
use crate::text::{chars_of, string_of, drop_trailing, is_slash, upper, to_upper, views};

verus! {

/// The query sent to the search: the text as typed for a fuzzy search,
/// otherwise the text in double quotes, which asks for the exact phrase.
pub fn search_query(text: &str, fuzzy: bool) -> (r: String)
    ensures
        r@ == if fuzzy {
            text@
        } else {
            "\""@ + text@ + "\""@
        },
{
    if fuzzy {
        String::from_str(text)
    } else {
        let mut q = String::from_str("\"");
        q.append(text);
        q.append("\"");
        q
    }
}

/// The address of an asset's page in the UI: the base address without
/// trailing slashes, `/tenants/`, the tenant's name, `/asset/` and the UUID.
pub fn asset_url(ui_base_url: &str, tenant_name: &str, asset: u128) -> (r: String)
    ensures
        r@ == drop_trailing(ui_base_url@, is_slash()) + "/tenants/"@ + tenant_name@ + "/asset/"@ + uuid_text(
            asset,
        ),
{
    let chars = chars_of(ui_base_url);
    let end = without_trailing_slashes(&chars);
    let mut url = string_of(&chars.as_slice()[0..end]);
    url.append("/tenants/");
    url.append(tenant_name);
    url.append("/asset/");
    let id = uuid_string(asset);
    url.append(id.as_str());
    url
}

/// An asset's name as a result row shows it: what follows the last `/` of its
/// path, or the whole path when it has none.
pub open spec fn spec_asset_name(path: Seq<char>) -> Seq<char> {
    if exists|i: int| 0 <= i < path.len() && path[i] == '/' {
        let i = choose|i: int|
            0 <= i < path.len() && path[i] == '/' && forall|j: int| i < j < path.len() ==> path[j] != '/';
        path.skip(i + 1)
    } else {
        path
    }
}

pub fn asset_name(path: &str) -> (r: String)
    ensures
        r@ == spec_asset_name(path@),
{
    let v = chars_of(path);
    let n = v.len();
    let mut j: usize = n;
    while j > 0 && v[j - 1] != '/'
        invariant
            j <= n == v.len(),
            v@ == path@,
            forall|k: int| j <= k < n ==> v@[k] != '/',
        decreases j,
    {
        j = j - 1;
    }
    if j == 0 {
        assert(!exists|i: int| 0 <= i < path@.len() && path@[i] == '/');
        String::from_str(path)
    } else {
        let ghost i = j - 1;
        assert(0 <= i < path@.len() && path@[i] == '/' && forall|k: int| i < k < path@.len() ==> path@[k] != '/');
        proof {
            let c = choose|c: int|
                0 <= c < path@.len() && path@[c] == '/' && forall|k: int| c < k < path@.len() ==> path@[k] != '/';
            assert(c == i) by {
                if c < i {
                    assert(path@[i] != '/');
                } else if c > i {
                    assert(path@[c] != '/');
                }
            }
        }
        let r = string_of(&v.as_slice()[j..n]);
        assert(r@ =~= path@.skip(j as int));
        r
    }
}

/// One result of a text search.
#[derive(Debug)]
pub struct TextMatch {
    pub asset: AssetRow,
    pub asset_type: String,
    pub state: String,
    pub is_assembly: bool,
    /// The relevance score as the report writes it.
    pub relevance_score: Option<String>,
    /// The address of the asset's page.
    pub asset_url: Option<String>,
}

pub struct SpecTextMatch {
    pub asset: SpecAsset,
    pub asset_type: Seq<char>,
    pub state: Seq<char>,
    pub is_assembly: bool,
    pub score: Option<Seq<char>>,
    pub url: Option<Seq<char>>,
}

impl View for TextMatch {
    type V = SpecTextMatch;

    open spec fn view(&self) -> SpecTextMatch {
        SpecTextMatch {
            asset: self.asset@,
            asset_type: self.asset_type@,
            state: self.state@,
            is_assembly: self.is_assembly,
            score: opt_text(self.relevance_score),
            url: opt_text(self.asset_url),
        }
    }
}

/// The views of a list of results.
pub open spec fn text_match_views(v: Seq<TextMatch>) -> Seq<SpecTextMatch> {
    v.map_values(|m: TextMatch| m@)
}

/// The field names of every result's asset, in order, repeats included.
pub open spec fn text_names(ms: Seq<SpecTextMatch>) -> Seq<Seq<char>>
    decreases ms.len(),
{
    if ms.len() == 0 {
        seq![]
    } else {
        text_names(ms.drop_last()) + field_names(ms.last().asset.metadata)
    }
}

/// The columns of a text search table before the metadata ones.
pub open spec fn text_base_headers() -> Seq<Seq<char>> {
    seq![
        "ASSET_NAME"@,
        "ASSET_PATH"@,
        "TYPE"@,
        "STATE"@,
        "IS_ASSEMBLY"@,
        "RELEVANCE_SCORE"@,
        "ASSET_UUID"@,
        "ASSET_URL"@,
    ]
}

/// A result's cells before the metadata ones.
pub open spec fn text_base_cells(m: SpecTextMatch) -> Seq<Seq<char>> {
    seq![
        spec_asset_name(m.asset.path),
        m.asset.path,
        m.asset_type,
        m.state,
        if m.is_assembly {
            "true"@
        } else {
            "false"@
        },
        match m.score {
            Some(s) => s,
            None => "0"@,
        },
        uuid_text(m.asset.uuid),
        cell_or_empty(m.url),
    ]
}

/// The text search table with metadata: the base columns, then an
/// `ASSET_<FIELD>` column for each field of any result's asset (sorted, each
/// once), and one row per result.
pub open spec fn spec_text_table(ms: Seq<SpecTextMatch>) -> (Seq<Seq<char>>, Seq<Seq<Seq<char>>>) {
    let keys = sorted_set(text_names(ms));
    (
        text_base_headers() + keys.map_values(|k: Seq<char>| "ASSET_"@ + upper(k)),
        ms.map_values(
            |m: SpecTextMatch|
                text_base_cells(m) + keys.map_values(|k: Seq<char>| cell_or_empty(field_value(m.asset.metadata, k))),
        ),
    )
}

/// Build the table the CSV output of a text search writes with metadata.
pub fn build_text_match_table(matches: &Vec<TextMatch>) -> (r: (Vec<String>, Vec<Vec<String>>))
    ensures
        (views(r.0@), row_views(r.1@)) == spec_text_table(text_match_views(matches@)),
{
    let ghost ms = text_match_views(matches@);
    let mut names: Vec<String> = Vec::new();
    let n = matches.len();
    assert(ms.take(0) =~= Seq::<SpecTextMatch>::empty());
    for i in 0..n
        invariant
            n == matches@.len(),
            ms == text_match_views(matches@),
            views(names@) == text_names(ms.take(i as int)),
    {
        assert(ms.take(i + 1).drop_last() =~= ms.take(i as int));
        assert(ms.take(i + 1).last() == matches@[i as int]@);
        push_field_names(&mut names, &matches[i].asset.metadata);
    }
    assert(ms.take(n as int) =~= ms);
    let keys = sorted_unique(&names);
    proof {
        lemma_sorted_set_is(views(names@), views(keys@));
    }
    let ghost ks = views(keys@);
    let mut headers: Vec<String> = Vec::new();
    headers.push(String::from_str("ASSET_NAME"));
    headers.push(String::from_str("ASSET_PATH"));
    headers.push(String::from_str("TYPE"));
    headers.push(String::from_str("STATE"));
    headers.push(String::from_str("IS_ASSEMBLY"));
    headers.push(String::from_str("RELEVANCE_SCORE"));
    headers.push(String::from_str("ASSET_UUID"));
    headers.push(String::from_str("ASSET_URL"));
    assert(views(headers@) =~= text_base_headers());
    let nk = keys.len();
    for k in 0..nk
        invariant
            nk == keys@.len(),
            views(keys@) == ks,
            views(headers@) == text_base_headers() + ks.take(k as int).map_values(|x: Seq<char>| "ASSET_"@ + upper(x)),
    {
        let up = to_upper(keys[k].as_str());
        let mut h = String::from_str("ASSET_");
        h.append(up.as_str());
        let ghost before = views(headers@);
        headers.push(h);
        assert(ks[k as int] == keys@[k as int]@);
        assert(views(headers@) =~= before.push("ASSET_"@ + upper(ks[k as int])));
        assert(ks.take(k + 1) =~= ks.take(k as int).push(ks[k as int]));
        assert(ks.take(k + 1).map_values(|x: Seq<char>| "ASSET_"@ + upper(x)) =~= ks.take(k as int).map_values(
            |x: Seq<char>| "ASSET_"@ + upper(x),
        ).push("ASSET_"@ + upper(ks[k as int])));
        assert(views(headers@) =~= text_base_headers() + ks.take(k + 1).map_values(|x: Seq<char>| "ASSET_"@ + upper(x)));
    }
    assert(ks.take(nk as int) =~= ks);
    let ghost row_of = |m: SpecTextMatch|
        text_base_cells(m) + ks.map_values(|x: Seq<char>| cell_or_empty(field_value(m.asset.metadata, x)));
    let mut rows: Vec<Vec<String>> = Vec::new();
    assert(row_views(rows@) =~= ms.take(0).map_values(row_of));
    for i in 0..n
        invariant
            n == matches@.len(),
            ms == text_match_views(matches@),
            nk == keys@.len(),
            views(keys@) == ks,
            row_of == (|m: SpecTextMatch|
                text_base_cells(m) + ks.map_values(|x: Seq<char>| cell_or_empty(field_value(m.asset.metadata, x)))),
            row_views(rows@) == ms.take(i as int).map_values(row_of),
    {
        let found = &matches[i];
        let ghost m = ms[i as int];
        assert(m == found@);
        let mut values: Vec<String> = Vec::new();
        values.push(asset_name(found.asset.path.as_str()));
        values.push(found.asset.path.clone());
        values.push(found.asset_type.clone());
        values.push(found.state.clone());
        values.push(if found.is_assembly {
            String::from_str("true")
        } else {
            String::from_str("false")
        });
        values.push(match &found.relevance_score {
            Some(t) => t.clone(),
            None => String::from_str("0"),
        });
        values.push(uuid_string(found.asset.uuid));
        values.push(match &found.asset_url {
            Some(u) => u.clone(),
            None => String::new(),
        });
        assert(views(values@) =~= text_base_cells(m));
        for k in 0..nk
            invariant
                nk == keys@.len(),
                views(keys@) == ks,
                m == found@,
                views(values@) == text_base_cells(m) + ks.take(k as int).map_values(
                    |x: Seq<char>| cell_or_empty(field_value(m.asset.metadata, x)),
                ),
        {
            let cell = match found.asset.metadata.get(keys[k].as_str()) {
                Some(v) => v.clone(),
                None => String::new(),
            };
            let ghost before = views(values@);
            assert(ks[k as int] == keys@[k as int]@);
            assert(cell@ == cell_or_empty(field_value(m.asset.metadata, ks[k as int])));
            values.push(cell);
            assert(views(values@) =~= before.push(cell_or_empty(field_value(m.asset.metadata, ks[k as int]))));
            assert(ks.take(k + 1) =~= ks.take(k as int).push(ks[k as int]));
            assert(ks.take(k + 1).map_values(|x: Seq<char>| cell_or_empty(field_value(m.asset.metadata, x)))
                =~= ks.take(k as int).map_values(|x: Seq<char>| cell_or_empty(field_value(m.asset.metadata, x))).push(
                cell_or_empty(field_value(m.asset.metadata, ks[k as int])),
            ));
            assert(views(values@) =~= text_base_cells(m) + ks.take(k + 1).map_values(
                |x: Seq<char>| cell_or_empty(field_value(m.asset.metadata, x)),
            ));
        }
        assert(ks.take(nk as int) =~= ks);
        let ghost before = row_views(rows@);
        rows.push(values);
        assert(row_views(rows@) =~= before.push(row_of(m)));
        assert(ms.take(i + 1) =~= ms.take(i as int).push(m));
        assert(row_views(rows@) =~= ms.take(i + 1).map_values(row_of));
    }
    assert(ms.take(n as int) =~= ms);
    (headers, rows)
}

/// Every row of a text search table is as wide as its header row.
pub proof fn lemma_text_rows_fit_headers(ms: Seq<SpecTextMatch>)
    ensures
        forall|i: int|
            0 <= i < spec_text_table(ms).1.len() ==> (#[trigger] spec_text_table(ms).1[i]).len()
                == spec_text_table(ms).0.len(),
{
}

} // verus!
