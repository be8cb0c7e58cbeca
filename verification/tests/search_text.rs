use pcli2::assoc::FieldMap;
use pcli2::match_table::AssetRow;
use pcli2::text_search::{asset_name, asset_url, build_text_match_table, search_query, TextMatch};

#[test]
fn an_exact_search_quotes_the_phrase() {
    assert_eq!(search_query("gear box", false), "\"gear box\"");
    assert_eq!(search_query("gear box", true), "gear box");
}

#[test]
fn a_result_links_to_its_asset_page() {
    let id = uuid::Uuid::parse_str("00000000-0000-0000-0000-00000000000a").unwrap();
    assert_eq!(
        asset_url("https://ui.example/", "acme", id.as_u128()),
        "https://ui.example/tenants/acme/asset/00000000-0000-0000-0000-00000000000a"
    );
}

#[test]
fn a_result_is_named_by_its_last_path_part() {
    assert_eq!(asset_name("/a/b/gear.prt"), "gear.prt");
    assert_eq!(asset_name("gear.prt"), "gear.prt");
    assert_eq!(asset_name("/a/"), "");
}

fn found(uuid: u128, path: &str, fields: &[(&str, &str)], score: Option<&str>) -> TextMatch {
    let mut metadata = FieldMap::new();
    for (k, v) in fields {
        metadata.insert(k.to_string(), v.to_string());
    }
    TextMatch {
        asset: AssetRow { uuid, path: path.to_string(), metadata },
        asset_type: "part".to_string(),
        state: "finished".to_string(),
        is_assembly: false,
        relevance_score: score.map(String::from),
        asset_url: Some("https://ui/x".to_string()),
    }
}

#[test]
fn a_text_table_with_metadata_adds_a_column_per_field() {
    let matches = vec![
        found(1, "/a/gear.prt", &[("Material", "steel")], Some("12.5")),
        found(2, "bolt.prt", &[("Color", "red"), ("Material", "alu")], None),
    ];
    let (headers, rows) = build_text_match_table(&matches);
    assert_eq!(
        headers,
        vec![
            "ASSET_NAME",
            "ASSET_PATH",
            "TYPE",
            "STATE",
            "IS_ASSEMBLY",
            "RELEVANCE_SCORE",
            "ASSET_UUID",
            "ASSET_URL",
            "ASSET_COLOR",
            "ASSET_MATERIAL",
        ]
    );
    assert_eq!(
        rows[0],
        vec![
            "gear.prt",
            "/a/gear.prt",
            "part",
            "finished",
            "false",
            "12.5",
            "00000000-0000-0000-0000-000000000001",
            "https://ui/x",
            "",
            "steel",
        ]
    );
    assert_eq!(rows[1][5], "0");
    assert_eq!(rows[1][8], "red");
}
