use pcli2::errors::{ApiError, CliActionError, CliError, PcliExitCode};
use pcli2::folders::{
    at_most_one, check_renamable, deletion_failure, download_error_text, folder_description, folder_not_found,
    join_relative, plan_folder_target, plan_move_destination, plan_parent_folder, relative_directory,
    upload_asset_path, upload_clashes,
    FolderResolution, FolderTarget,
};

#[test]
fn surrounding_spaces_go_and_the_limit_counts_characters() {
    assert_eq!(folder_description("  Rail parts  ").unwrap(), "Rail parts");
    assert_eq!(
        folder_description(&"é".repeat(255)).unwrap().chars().count(),
        255
    );
    let too_long = folder_description(&"x".repeat(256)).unwrap_err();
    assert!(
        too_long.message().contains("256 characters"),
        "{}",
        too_long.message()
    );
    assert_eq!(too_long.exit_code(), PcliExitCode::UsageError);
}

#[test]
fn an_empty_description_points_at_clear() {
    for text in ["", "   ", "\t\n"] {
        let error = folder_description(text).unwrap_err();
        assert!(
            error.message().contains("folder description clear"),
            "{}",
            error.message()
        );
    }
}

#[test]
fn a_too_long_description_says_how_long_it_is() {
    let error = folder_description(&"x".repeat(300)).unwrap_err();
    assert_eq!(
        error.message(),
        "The description is 300 characters long; at most 255 are allowed"
    );
}

#[test]
fn a_folder_argument_resolves_without_the_api_where_it_can() {
    assert_eq!(
        plan_folder_target(Some(7), Some("/ignored")).unwrap(),
        FolderResolution::Known(FolderTarget::Folder(7))
    );
    assert_eq!(
        plan_folder_target(None, Some("/Home")).unwrap(),
        FolderResolution::Known(FolderTarget::Root)
    );
    assert_eq!(
        plan_folder_target(None, Some("/")).unwrap(),
        FolderResolution::Known(FolderTarget::Root)
    );
    assert_eq!(
        plan_folder_target(None, Some("/a/b")).unwrap(),
        FolderResolution::LookUpPath("/a/b".to_string())
    );
    let missing = plan_folder_target(None, None).unwrap_err();
    assert_eq!(
        missing.message(),
        "Missing required argument: Either folder UUID or path must be provided"
    );
    assert_eq!(missing.exit_code(), PcliExitCode::UsageError);
    assert_eq!(FolderTarget::Root.uuid(), None);
    assert_eq!(FolderTarget::Folder(3).uuid(), Some(3));
}

#[test]
fn a_new_folder_goes_under_its_parent() {
    assert_eq!(
        plan_parent_folder(None, None),
        FolderResolution::Known(FolderTarget::Root)
    );
    assert_eq!(
        plan_parent_folder(None, Some("/home/")),
        FolderResolution::Known(FolderTarget::Root)
    );
    assert_eq!(
        plan_parent_folder(Some(5), None),
        FolderResolution::Known(FolderTarget::Folder(5))
    );
    assert_eq!(
        plan_parent_folder(None, Some("parts")),
        FolderResolution::LookUpPath("parts".to_string())
    );
}

#[test]
fn folder_not_found_suggests_the_closest_paths() {
    match folder_not_found("/a", &vec![]) {
        CliError::FolderNotFound(path, text) => {
            assert_eq!(path, "/a");
            assert_eq!(text, "");
        }
        other => panic!("unexpected {:?}", other),
    }
    match folder_not_found("/a", &vec!["/ab".to_string()]) {
        CliError::FolderNotFound(_, text) => assert_eq!(text, "\n\nDid you mean: /ab"),
        other => panic!("unexpected {:?}", other),
    }
    let e = folder_not_found("/a", &vec!["/ab".to_string(), "/ac".to_string()]);
    match &e {
        CliError::FolderNotFound(_, text) => {
            assert_eq!(text, "\n\nDid you mean one of:\n  • /ab\n  • /ac")
        }
        other => panic!("unexpected {:?}", other),
    }
    assert_eq!(e.exit_code(), PcliExitCode::NotFound);
}

#[test]
fn download_paths_are_relative_to_the_folder_downloaded() {
    assert_eq!(join_relative("", "a.prt"), "a.prt");
    assert_eq!(join_relative("x/y", "a.prt"), "x/y/a.prt");
    assert_eq!(relative_directory("/Root/sub/deeper", "/Root"), "sub/deeper");
    assert_eq!(relative_directory("/Root", "/Root"), "");
    assert_eq!(relative_directory("/Other/x/", "/Root"), "Other/x");
}

#[test]
fn exclusive_arguments_are_refused_together() {
    assert!(at_most_one(true, false, "--a", "--b").is_ok());
    assert!(at_most_one(false, false, "--a", "--b").is_ok());
    let e = at_most_one(true, true, "--a", "--b").unwrap_err();
    assert_eq!(
        e.message(),
        "Missing required argument: Only one of --a or --b can be specified, not both"
    );
}

#[test]
fn a_folder_that_is_not_empty_needs_force() {
    let e = deletion_failure(true, false).unwrap();
    assert!(e.message().starts_with("Folder is not empty"));
    assert_eq!(e.exit_code(), PcliExitCode::UsageError);
    assert!(deletion_failure(true, true).is_none());
    assert!(deletion_failure(false, false).is_none());
}

#[test]
fn a_download_error_shows_the_api_message_alone() {
    let api = CliError::PhysnaExtendedApiError(ApiError::NotFoundError("no such asset".into()));
    assert_eq!(download_error_text(&api), "Not found: no such asset");
    assert_eq!(api.message(), "API error: Not found: no such asset");
    let other = CliError::ActionError(CliActionError::ZipError("bad archive".into()));
    assert_eq!(download_error_text(&other), "ZIP error: bad archive");
}

#[test]
fn an_upload_over_existing_assets_is_refused_unless_skipping() {
    let files = vec![
        ("a.prt".to_string(), "F/a.prt".to_string()),
        ("b.prt".to_string(), "F/b.prt".to_string()),
        ("c.prt".to_string(), "F/c.prt".to_string()),
    ];
    let existing = vec!["F/c.prt".to_string(), "F/a.prt".to_string()];
    let e = upload_clashes(&files, &existing, false).unwrap_err();
    assert_eq!(
        e.message(),
        "Asset already exists: a.prt, c.prt. Use --skip-existing to skip existing assets."
    );
    assert_eq!(
        upload_clashes(&files, &existing, true).unwrap(),
        vec![true, false, true]
    );
    assert_eq!(
        upload_clashes(&files, &vec![], false).unwrap(),
        vec![false, false, false]
    );
}

#[test]
fn a_move_destination_is_shown_as_given() {
    let (res, label) = plan_move_destination(None, Some("Home//a/b/")).unwrap();
    assert_eq!(res, FolderResolution::LookUpPath("Home//a/b/".to_string()));
    assert_eq!(label, "/a/b");
    let (res, label) = plan_move_destination(None, Some("/home")).unwrap();
    assert_eq!(res, FolderResolution::Known(FolderTarget::Root));
    assert_eq!(label, "/");
    let u = uuid::Uuid::parse_str("00000000-0000-0000-0000-00000000000a").unwrap();
    let (res, label) = plan_move_destination(Some(u.as_u128()), Some("/ignored")).unwrap();
    assert_eq!(res, FolderResolution::Known(FolderTarget::Folder(u.as_u128())));
    assert_eq!(label, "00000000-0000-0000-0000-00000000000a");
    assert_eq!(
        plan_move_destination(None, None).unwrap_err().message(),
        "Missing required argument: Either --folder-uuid or --folder-path must be provided"
    );
}

#[test]
fn the_root_cannot_be_renamed() {
    assert_eq!(
        check_renamable(Some("/Home/")).unwrap_err().message(),
        "Missing required argument: Cannot rename the root folder"
    );
    assert!(check_renamable(Some("/a")).is_ok());
    assert!(check_renamable(None).is_ok());
}

#[test]
fn an_uploaded_file_goes_under_the_destination_without_its_outer_slashes() {
    assert_eq!(upload_asset_path("/Parts/Rail/", "a.stl"), "Parts/Rail/a.stl");
    assert_eq!(upload_asset_path("Parts", "a.stl"), "Parts/a.stl");
    assert_eq!(upload_asset_path("/", "a.stl"), "a.stl");
    assert_eq!(upload_asset_path("", "a.stl"), "a.stl");
    assert_eq!(upload_asset_path("//A//B//", "x"), "A//B/x");
}
