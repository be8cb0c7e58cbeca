use pcli2::assets::{
    asset_path_in_folder, assembly_download, bundle_extension, check_recursive_listing,
    deletion_prompt, AssemblyDownload, is_type_conflict, is_zip_signature,
    not_found_note, order_for_moving, override_retry_delay,
    split_metadata_changes, token_expiry_warning,
};
use pcli2::assoc::FieldMap;

#[test]
fn the_note_names_the_state_that_makes_a_lookup_pointless() {
    let note = not_found_note(Some("finished"));
    assert!(note.contains("`finished`, not `failed`"));
}

#[test]
fn the_note_explains_a_failed_asset_without_a_record() {
    let note = not_found_note(Some("failed"));
    assert!(note.contains("aged out"));
    assert!(note.contains("Reprocessing"));
}

#[test]
fn the_note_copes_with_a_missing_state() {
    assert!(not_found_note(None).contains("no processing state"));
}

#[test]
fn an_uploaded_file_lands_under_its_folder() {
    assert_eq!(asset_path_in_folder("", "a.stl"), "a.stl");
    assert_eq!(asset_path_in_folder("/", "a.stl"), "a.stl");
    assert_eq!(asset_path_in_folder("F/G", "a.stl"), "F/G/a.stl");
}

#[test]
fn conflict_retries_double_their_wait_and_run_out() {
    assert_eq!(override_retry_delay(0), Some(500));
    assert_eq!(override_retry_delay(1), Some(1000));
    assert_eq!(override_retry_delay(4), Some(8000));
    assert_eq!(override_retry_delay(5), None);
    assert_eq!(override_retry_delay(u32::MAX), None);
}

#[test]
fn empty_values_delete_and_the_rest_set() {
    let mut m = FieldMap::new();
    m.insert("Material".to_string(), "Steel".to_string());
    m.insert("Color".to_string(), "".to_string());
    m.insert("Weight".to_string(), "2kg".to_string());
    let (deletes, sets) = split_metadata_changes(&m);
    assert_eq!(deletes, vec!["Color".to_string()]);
    assert_eq!(
        sets,
        vec![
            ("Material".to_string(), "Steel".to_string()),
            ("Weight".to_string(), "2kg".to_string())
        ]
    );
}

#[test]
fn a_type_conflict_is_recognized_by_its_text() {
    assert!(is_type_conflict("value must be a number"));
    assert!(is_type_conflict("Metadata type mismatch for field Qty"));
    assert!(!is_type_conflict("HTTP 500"));
}

#[test]
fn a_token_expiring_before_the_run_ends_is_warned_about() {
    // 100 entries need 500 s plus a 300 s margin.
    assert_eq!(token_expiry_warning(600, 100), Some((10, 8)));
    assert_eq!(token_expiry_warning(800, 100), None);
    assert_eq!(token_expiry_warning(0, 100), None);
    assert_eq!(token_expiry_warning(100, 1), Some((1, 1)));
}

#[test]
fn a_zip_is_known_by_its_signature() {
    assert!(is_zip_signature(&[0x50, 0x4B, 3, 4]));
    assert!(is_zip_signature(&[0x50, 0x4B, 5, 6]));
    assert!(!is_zip_signature(&[0x50, 0x4B, 7, 8]));
    assert!(!is_zip_signature(&[0x50, 0x4B, 3]));
}

#[test]
fn a_bundle_never_takes_the_assembly_file_name() {
    assert_eq!(bundle_extension(Some("asm")), "asm.zip");
    assert_eq!(bundle_extension(None), "zip");
}

#[test]
fn the_assembly_file_is_moved_last() {
    let order = order_for_moving(
        vec!["top.asm".to_string(), "a.prt".to_string(), "b.prt".to_string()],
        "top.asm",
    );
    assert_eq!(order, vec!["a.prt", "b.prt", "top.asm"]);
}

#[test]
fn a_bundle_is_extracted_and_anything_else_kept_as_the_assembly() {
    assert_eq!(
        assembly_download(b"PK\x03\x04", "a.asm.zip".into(), "a.asm".into()),
        AssemblyDownload::Extracted { archive: "a.asm.zip".into() }
    );
    assert_eq!(
        assembly_download(b"ISO-", "a.asm.zip".into(), "a.asm".into()),
        AssemblyDownload::RawFile { file: "a.asm".into() }
    );
}

#[test]
fn deleting_asks_about_the_asset_as_given() {
    assert_eq!(deletion_prompt(Some("/F/a.prt"), 10), "Delete asset '/F/a.prt'?");
    assert_eq!(
        deletion_prompt(None, 10),
        "Delete asset '00000000-0000-0000-0000-00000000000a'?"
    );
}

#[test]
fn a_recursive_listing_needs_a_folder() {
    assert!(check_recursive_listing(true, false).is_err());
    assert!(check_recursive_listing(true, true).is_ok());
    assert!(check_recursive_listing(false, false).is_ok());
}
