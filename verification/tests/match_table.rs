use pcli2::assoc::FieldMap;
use pcli2::match_table::{
    build_geometric_match_table, flatten_geometric_matches, AssetRow, GeometricMatch,
    GeometricSearchResult,
};

const REF_UUID: &str = "9ebd8801-388a-4fb8-a4fd-dd77d91e7cac";
const CAN_A_UUID: &str = "02c37ef8-caad-4a16-a992-6abbdda852f9";
const CAN_B_UUID: &str = "f16e93ca-bc0b-41c1-a98f-d1eeef01e4c1";

fn asset(path: &str, uuid: &str, metadata: &[(&str, &str)]) -> AssetRow {
    let mut fields = FieldMap::new();
    for (k, v) in metadata {
        fields.insert(k.to_string(), v.to_string());
    }
    AssetRow {
        uuid: uuid::Uuid::parse_str(uuid).expect("valid uuid").as_u128(),
        path: path.to_string(),
        metadata: fields,
    }
}

fn geometric_match(candidate: AssetRow, percentage: &str, url: Option<&str>) -> GeometricMatch {
    GeometricMatch {
        asset: candidate,
        match_percentage: percentage.to_string(),
        comparison_url: url.map(|u| u.to_string()),
    }
}

fn sample() -> Vec<GeometricSearchResult> {
    vec![GeometricSearchResult {
        reference_asset: asset("/a/ref.prt", REF_UUID, &[("material", "steel")]),
        matches: vec![
            geometric_match(
                asset("/b/one.prt", CAN_A_UUID, &[("material", "alu")]),
                "100",
                Some("https://example.com/compare?a=1"),
            ),
            geometric_match(
                asset("/c/two.prt", CAN_B_UUID, &[("finish", "anodized")]),
                "81.5",
                None,
            ),
        ],
    }]
}

#[test]
fn table_without_metadata_has_base_columns_and_url_last() {
    let (headers, rows) = build_geometric_match_table(&sample(), false);

    assert_eq!(headers.last().map(String::as_str), Some("COMPARISON_URL"));
    assert!(!headers.iter().any(|h| h.starts_with("REF_")));

    assert_eq!(rows.len(), 2, "one row per match, not per response");
    assert_eq!(
        rows[0],
        vec![
            "/a/ref.prt".to_string(),
            "/b/one.prt".to_string(),
            "100".to_string(),
            REF_UUID.to_string(),
            CAN_A_UUID.to_string(),
            "https://example.com/compare?a=1".to_string(),
        ]
    );
    assert_eq!(rows[1].len(), headers.len());
    assert_eq!(rows[1][2], "81.5");
    assert_eq!(rows[1].last().map(String::as_str), Some(""));
}

#[test]
fn table_with_metadata_pairs_the_sorted_key_union() {
    let (headers, rows) = build_geometric_match_table(&sample(), true);

    let metadata_headers: Vec<&str> = headers
        .iter()
        .filter(|h| h.starts_with("REF_") || h.starts_with("CAN_"))
        .map(String::as_str)
        .collect();
    assert_eq!(
        metadata_headers,
        vec!["REF_FINISH", "CAN_FINISH", "REF_MATERIAL", "CAN_MATERIAL"]
    );
    assert_eq!(headers.last().map(String::as_str), Some("COMPARISON_URL"));

    let finish_ref = headers.iter().position(|h| h == "REF_FINISH").unwrap();
    let material_ref = headers.iter().position(|h| h == "REF_MATERIAL").unwrap();
    let material_can = headers.iter().position(|h| h == "CAN_MATERIAL").unwrap();
    assert_eq!(rows[0][finish_ref], "");
    assert_eq!(rows[0][material_ref], "steel");
    assert_eq!(rows[0][material_can], "alu");

    for row in &rows {
        assert_eq!(row.len(), headers.len(), "every row matches the header width");
    }
}

#[test]
fn empty_input_produces_headers_but_no_rows() {
    let (headers, rows) = build_geometric_match_table(&Vec::new(), false);
    assert!(!headers.is_empty());
    assert!(rows.is_empty());
}

#[test]
fn the_base_headers_come_in_report_order() {
    let (headers, _) = build_geometric_match_table(&Vec::new(), true);
    assert_eq!(
        headers,
        vec![
            "REFERENCE_ASSET_PATH",
            "CANDIDATE_ASSET_PATH",
            "MATCH_PERCENTAGE",
            "REFERENCE_ASSET_UUID",
            "CANDIDATE_ASSET_UUID",
            "COMPARISON_URL",
        ]
    );
}

#[test]
fn flattening_gives_one_pair_per_match_in_order() {
    let mut results = sample();
    results.push(GeometricSearchResult {
        reference_asset: asset("/d/other.prt", CAN_B_UUID, &[]),
        matches: vec![geometric_match(asset("/a/ref.prt", REF_UUID, &[]), "90", None)],
    });
    let pairs = flatten_geometric_matches(results);
    assert_eq!(pairs.len(), 3);
    assert_eq!(pairs[0].reference_asset.path, "/a/ref.prt");
    assert_eq!(pairs[0].candidate.asset.path, "/b/one.prt");
    assert_eq!(pairs[1].candidate.asset.path, "/c/two.prt");
    assert_eq!(pairs[1].candidate.match_percentage, "81.5");
    assert_eq!(pairs[2].reference_asset.path, "/d/other.prt");
    assert_eq!(pairs[2].candidate.asset.path, "/a/ref.prt");
    assert_eq!(
        pairs[0].reference_asset.metadata.get("material").map(String::as_str),
        Some("steel")
    );
}
