use pcli2::paths::{is_root_path, normalize_batch_asset_path, normalize_path};
use pcli2::sorted::{sorted_unique, str_less};
use pcli2::text::{ascii_lowercase, contains, eq_ignore_ascii_case, join, starts_with, trim};

#[test]
fn a_path_has_one_normal_form() {
    assert_eq!(normalize_path("a//b/"), "/a/b");
    assert_eq!(normalize_path("/Home/NX/1.prt"), "/NX/1.prt");
    assert_eq!(normalize_path("home"), "/");
    assert_eq!(normalize_path(""), "/");
    assert_eq!(normalize_batch_asset_path("/Home/NX/1.prt"), "NX/1.prt");
    assert_eq!(normalize_batch_asset_path("NX/1.prt"), "NX/1.prt");
    assert!(is_root_path("/"));
    assert!(is_root_path("/HOME/"));
    assert!(!is_root_path("/Homes"));
}

#[test]
fn text_helpers_work_on_characters() {
    assert_eq!(trim(" \t a b \n"), "a b");
    assert_eq!(ascii_lowercase("MetaDATA:É"), "metadata:É");
    assert!(eq_ignore_ascii_case("PATH", "path"));
    assert!(!eq_ignore_ascii_case("PATH", "paths"));
    assert!(starts_with("metadata:x", "metadata:"));
    assert!(contains("HTTP 401 Unauthorized", "401"));
    assert!(!contains("40", "401"));
    assert_eq!(join(&vec!["a".to_string(), "b".to_string()], ", "), "a, b");
    assert_eq!(join(&vec![], ", "), "");
}

#[test]
fn sorting_keeps_each_string_once_in_order() {
    let v = vec!["b".to_string(), "a".to_string(), "b".to_string(), "C".to_string()];
    assert_eq!(sorted_unique(&v), vec!["C", "a", "b"]);
    assert!(str_less("a", "b"));
    assert!(str_less("a", "ab"));
    assert!(!str_less("b", "b"));
}
