use pcli2::folder_match::{
    aggregate_folder_results, comparison_url, first_root_path, keep_match, report_summary,
    validate_concurrency,
};
use pcli2::search::SearchFailure;

const TENANT: &str = "11111111-2222-3333-4444-555555555555";
const A: &str = "00000000-0000-0000-0000-00000000000a";
const B: &str = "00000000-0000-0000-0000-00000000000b";

fn id(text: &str) -> u128 {
    uuid::Uuid::parse_str(text).unwrap().as_u128()
}

#[test]
fn concurrency_is_one_to_ten() {
    assert_eq!(validate_concurrency(None).unwrap(), 1);
    assert_eq!(validate_concurrency(Some(1)).unwrap(), 1);
    assert_eq!(validate_concurrency(Some(10)).unwrap(), 10);
    let e = validate_concurrency(Some(11)).unwrap_err();
    assert_eq!(
        e.message(),
        "Missing required argument: Invalid value for '--concurrent': must be between 1 and 10, got 11"
    );
    assert!(validate_concurrency(Some(0)).is_err());
}

#[test]
fn a_root_path_drops_the_folder_filter() {
    let paths = vec!["/a".to_string(), "/Home/".to_string(), "/".to_string()];
    assert_eq!(first_root_path(&paths), Some(1));
    assert_eq!(first_root_path(&vec!["/a".to_string()]), None);
}

#[test]
fn a_run_never_keeps_an_asset_matched_with_itself() {
    assert!(!keep_match(1, 1, false, &vec![], "/a/x", "/a/x"));
    assert!(keep_match(1, 2, false, &vec![], "/a/x", "/b/y"));
}

#[test]
fn an_exclusive_run_keeps_only_matches_inside_its_folders() {
    let folders = vec!["/Home/a".to_string(), "b/".to_string()];
    assert!(keep_match(1, 2, true, &folders, "/a/x.prt", "/b/sub/y.prt"));
    assert!(!keep_match(1, 2, true, &folders, "/a/x.prt", "/c/y.prt"));
    assert!(!keep_match(1, 2, true, &folders, "/ab/x.prt", "/b/y.prt"));
    assert!(keep_match(1, 2, true, &vec!["/".to_string()], "/q/x.prt", "/r/y.prt"));
}

#[test]
fn the_comparison_page_lives_under_the_tenant() {
    let expected = format!(
        "https://ui.example/tenants/acme/compare?asset1Id={}&asset2Id={}&tenant1Id={}&tenant2Id={}&searchType=visual",
        A, B, TENANT, TENANT
    );
    assert_eq!(
        comparison_url("https://ui.example//", "acme", id(TENANT), id(A), id(B), "searchType=visual"),
        expected
    );
    assert_eq!(
        comparison_url("https://ui.example/tenants/", "acme", id(TENANT), id(A), id(B), "searchType=visual"),
        expected
    );
    assert_eq!(
        comparison_url("https://ui.example/tenants", "acme", id(TENANT), id(A), id(B), "searchType=visual"),
        expected
    );
}

#[test]
fn a_finished_report_counts_its_rows() {
    assert_eq!(report_summary(1_234_567), "Built report of 1,234,567 row(s)");
    assert_eq!(report_summary(0), "Built report of 0 row(s)");
}

#[test]
fn a_clean_run_keeps_each_pair_once_in_key_order() {
    let results = vec![
        (3u128, vec![(1u128, "c-a"), (2u128, "c-b")], None),
        (1u128, vec![(3u128, "a-c"), (2u128, "a-b")], None),
        (2u128, vec![(1u128, "b-a")], None),
    ];
    let (warning, rows) = aggregate_folder_results(results).ok().unwrap();
    assert_eq!(warning, None);
    assert_eq!(rows, vec!["a-b", "a-c", "c-b"]);
}

#[test]
fn a_degraded_run_keeps_its_rows_and_warns() {
    let mut results = vec![(1u128, vec![(2u128, "a-b")], None)];
    for k in 0..9u128 {
        results.push((10 + k, Vec::new(), None));
    }
    results.push((99u128, Vec::new(), Some(SearchFailure::Operational)));
    let (warning, rows) = aggregate_folder_results(results).ok().unwrap();
    assert_eq!(warning.unwrap(), "Searched 10 of 11 asset(s): 1 failed");
    assert_eq!(rows, vec!["a-b"]);
}

#[test]
fn a_run_that_gave_up_reports_an_error_instead_of_rows() {
    let results = vec![
        (1u128, vec![(2u128, "a-b")], None),
        (2u128, Vec::new(), Some(SearchFailure::Aborted)),
    ];
    let error = aggregate_folder_results(results).err().unwrap();
    assert_eq!(
        error.message,
        "Searched 1 of 2 asset(s): 1 not attempted - the report would be incomplete"
    );
}
