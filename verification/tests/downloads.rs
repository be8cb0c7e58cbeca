use pcli2::downloads::{
    default_folder_name, download_failure_message, download_order, download_summary_lines,
    downloadable_state, escaping_path_error, thumbnail_failure_message, thumbnail_missing,
    thumbnail_relative_path, thumbnail_summary_lines, unsafe_folder_name_error,
};
use pcli2::errors::{ApiError, CliError};

#[test]
fn a_download_directory_is_named_after_its_folder() {
    assert_eq!(default_folder_name(true, Some("/x"), "acme", "rec"), "acme");
    assert_eq!(default_folder_name(false, Some("/parts/gears/"), "acme", ""), "gears");
    assert_eq!(default_folder_name(false, Some("///"), "acme", ""), "untitled");
    assert_eq!(default_folder_name(false, None, "acme", "Gears"), "Gears");
    assert_eq!(default_folder_name(false, None, "acme", "  "), "acme");
}

#[test]
fn only_processed_assets_have_a_file_to_download() {
    assert_eq!(downloadable_state(Some("finished")), (true, "finished".to_string()));
    assert_eq!(
        downloadable_state(Some("missing-dependencies")),
        (true, "missing-dependencies".to_string())
    );
    assert_eq!(downloadable_state(Some("indexing")), (false, "indexing".to_string()));
    assert_eq!(downloadable_state(None), (false, "unknown".to_string()));
}

#[test]
fn a_failed_download_names_the_asset_and_what_went_wrong() {
    let e = CliError::PhysnaExtendedApiError(ApiError::HttpStatus {
        status: 500,
        message: "boom".into(),
    });
    assert_eq!(
        download_failure_message("a.prt", "/F/a.prt", &e),
        "⚠️  Failed to download asset 'a.prt' (Physna path: /F/a.prt): HTTP 500: boom"
    );
    assert_eq!(
        thumbnail_failure_message("a.prt", "/F/a.prt", &e),
        "⚠️  Failed to download thumbnail for asset 'a.prt' (Physna path: /F/a.prt): HTTP 500: boom"
    );
}

#[test]
fn a_missing_thumbnail_is_no_failure() {
    assert!(thumbnail_missing(&ApiError::NotFoundError(
        "Asset thumbnail not found for x".into()
    )));
    assert!(!thumbnail_missing(&ApiError::NotFoundError("Asset not found".into())));
    assert!(!thumbnail_missing(&ApiError::InvalidToken));
}

#[test]
fn a_thumbnail_is_saved_under_the_asset_stem() {
    assert_eq!(thumbnail_relative_path("", "gear.prt"), "gear.png");
    assert_eq!(thumbnail_relative_path("sub", "a.tar.gz"), "sub/a.tar.png");
    assert_eq!(thumbnail_relative_path("sub", ".hidden"), "sub/.hidden.png");
    assert_eq!(thumbnail_relative_path("", "noext"), "noext.png");
}

#[test]
fn the_download_summary_counts_everything() {
    let lines = download_summary_lines(3, 1, 0, 0, 2, 4);
    assert_eq!(
        lines,
        vec![
            "\n📊 Download Statistics Report",
            "===========================",
            "✅ Successfully downloaded: 3",
            "⏭️  Skipped (already existed): 1",
            "❌ Failed downloads: 0",
            "⏭️  Not downloaded (not processed yet, or processing failed): 2",
            "📁 Total assets processed: 4",
            "⏳ Operation completed successfully!",
        ]
    );
    let failed = download_summary_lines(1, 0, 1, 2, 0, 4);
    assert!(failed.contains(&"⏹️  Not attempted (stopped after the first failure): 2".to_string()));
    assert_eq!(failed.last().unwrap(), "⏳ Operation completed with errors!");
    let thumbs = thumbnail_summary_lines(2, 1, 0, 0, 3);
    assert_eq!(thumbs[3], "⏭️  No thumbnail available: 1");
    assert_eq!(thumbs.last().unwrap(), "⏳ Operation completed successfully!");
}

#[test]
fn unsafe_names_are_refused() {
    assert_eq!(
        unsafe_folder_name_error("..").message(),
        "The folder's name '..' is not a safe local directory name; choose one with -o/--output"
    );
    assert_eq!(
        escaping_path_error("../x").message(),
        "refusing to write '../x': the server-provided name would escape the output directory"
    );
}

#[test]
fn assets_are_fetched_by_directory_then_name() {
    let keys: Vec<(String, String)> = vec![
        ("b", "z.prt"),
        ("", "y.prt"),
        ("a", "x.prt"),
        ("b", "a.prt"),
        ("a", "x.prt"),
    ]
    .into_iter()
    .map(|(d, n)| (d.to_string(), n.to_string()))
    .collect();
    assert_eq!(download_order(&keys), vec![1, 2, 4, 3, 0]);
    assert!(download_order(&vec![]).is_empty());
}
