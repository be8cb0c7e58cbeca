use pcli2::assoc::FieldMap;
use pcli2::match_table::{csv_stream_error, json_stream_error, AssetRow};
use pcli2::part_matches::{
    build_part_match_table, build_visual_match_table, flatten_part_matches, flatten_visual_matches,
    PartMatch, PartSearchResult,
};
use pcli2::errors::{CliActionError, CliError, PcliExitCode};

fn row(uuid: u128, path: &str) -> AssetRow {
    AssetRow { uuid, path: path.to_string(), metadata: FieldMap::new() }
}

fn part(uuid: u128, path: &str, forward: &str, url: Option<&str>) -> PartMatch {
    PartMatch {
        asset: row(uuid, path),
        forward_match_percentage: Some(forward.to_string()),
        reverse_match_percentage: None,
        comparison_url: url.map(String::from),
    }
}

fn sample() -> Vec<PartSearchResult> {
    vec![
        PartSearchResult {
            reference_asset: row(1, "/r1.prt"),
            matches: vec![part(2, "/c2.prt", "95", Some("u2")), part(3, "/c3.prt", "80.5", None)],
        },
        PartSearchResult { reference_asset: row(4, "/r4.prt"), matches: vec![] },
        PartSearchResult {
            reference_asset: row(5, "/r5.prt"),
            matches: vec![part(1, "/r1.prt", "70", Some("u1"))],
        },
    ]
}

#[test]
fn part_matches_flatten_to_one_row_per_match() {
    let rows = flatten_part_matches(sample());
    assert_eq!(rows.len(), 3);
    assert_eq!(rows[0].reference_asset.path, "/r1.prt");
    assert_eq!(rows[0].candidate_asset.path, "/c2.prt");
    assert_eq!(rows[0].forward_match_percentage.as_deref(), Some("95"));
    assert_eq!(rows[0].reverse_match_percentage, None);
    assert_eq!(rows[1].forward_match_percentage.as_deref(), Some("80.5"));
    assert_eq!(rows[2].reference_asset.uuid, 5);
    assert_eq!(rows[2].comparison_url.as_deref(), Some("u1"));
}

#[test]
fn visual_matches_keep_assets_and_url() {
    let rows = flatten_visual_matches(sample());
    assert_eq!(rows.len(), 3);
    assert_eq!(rows[1].candidate_asset.uuid, 3);
    assert_eq!(rows[1].comparison_url, None);
    assert_eq!(rows[2].reference_asset.path, "/r5.prt");
}

#[test]
fn a_failed_stream_is_a_formatting_error() {
    let e = csv_stream_error(std::io::Error::new(std::io::ErrorKind::BrokenPipe, "pipe closed"));
    match &e {
        CliError::ActionError(CliActionError::FormattingError(m)) => {
            assert_eq!(m, "failed writing CSV to stdout: pipe closed")
        }
        other => panic!("unexpected {:?}", other),
    }
    assert_eq!(e.exit_code(), PcliExitCode::DataError);
    let j = json_stream_error(std::io::Error::new(std::io::ErrorKind::Other, "disk full"));
    assert_eq!(j.message(), "disk full");
}

fn with_meta(uuid: u128, path: &str, fields: &[(&str, &str)]) -> AssetRow {
    let mut metadata = FieldMap::new();
    for (k, v) in fields {
        metadata.insert(k.to_string(), v.to_string());
    }
    AssetRow { uuid, path: path.to_string(), metadata }
}

#[test]
fn a_part_table_has_both_percentages_and_the_sorted_metadata_columns() {
    let results = vec![PartSearchResult {
        reference_asset: with_meta(1, "/r.prt", &[("material", "steel")]),
        matches: vec![
            PartMatch {
                asset: with_meta(2, "/c.prt", &[("finish", "matte")]),
                forward_match_percentage: Some("97.5".into()),
                reverse_match_percentage: None,
                comparison_url: Some("u".into()),
            },
        ],
    }];
    let pairs = flatten_part_matches(results);
    let (headers, rows) = build_part_match_table(&pairs, true);
    assert_eq!(
        headers,
        vec![
            "REFERENCE_ASSET_PATH",
            "CANDIDATE_ASSET_PATH",
            "FORWARD_MATCH_PERCENTAGE",
            "REVERSE_MATCH_PERCENTAGE",
            "REFERENCE_ASSET_UUID",
            "CANDIDATE_ASSET_UUID",
            "COMPARISON_URL",
            "REF_FINISH",
            "CAN_FINISH",
            "REF_MATERIAL",
            "CAN_MATERIAL",
        ]
    );
    assert_eq!(
        rows[0],
        vec![
            "/r.prt",
            "/c.prt",
            "97.5",
            "0.0",
            "00000000-0000-0000-0000-000000000001",
            "00000000-0000-0000-0000-000000000002",
            "u",
            "",
            "matte",
            "steel",
            "",
        ]
    );
    let (plain, plain_rows) = build_part_match_table(&pairs, false);
    assert_eq!(plain.len(), 7);
    assert_eq!(plain_rows[0].len(), 7);
}

#[test]
fn a_visual_table_has_the_url_before_the_metadata() {
    let pairs = flatten_visual_matches(sample());
    let (headers, rows) = build_visual_match_table(&pairs, false);
    assert_eq!(
        headers,
        vec![
            "REFERENCE_ASSET_PATH",
            "CANDIDATE_ASSET_PATH",
            "REFERENCE_ASSET_UUID",
            "CANDIDATE_ASSET_UUID",
            "COMPARISON_URL",
        ]
    );
    assert_eq!(rows.len(), 3);
    assert_eq!(rows[1][4], "");
    assert_eq!(rows[0][4], "u2");
    let (with_meta_headers, _) = build_visual_match_table(&pairs, true);
    assert_eq!(with_meta_headers.len(), 5);
}
