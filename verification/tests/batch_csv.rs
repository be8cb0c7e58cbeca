use pcli2::batch_csv::{parse_batch_csv, BatchAssetRef, BatchCsvFormat, ParsedBatch};
use pcli2::errors::CliActionError;

fn parse(content: &str, format: BatchCsvFormat) -> Result<ParsedBatch, CliActionError> {
    parse_batch_csv(content.as_bytes(), format, false)
}

fn parse_delete_if_empty(
    content: &str,
    format: BatchCsvFormat,
) -> Result<ParsedBatch, CliActionError> {
    parse_batch_csv(content.as_bytes(), format, true)
}

#[test]
fn auto_detects_classic_format() {
    let csv = "ASSET_PATH,NAME,VALUE\n\
               folder/a.stl,Material,Steel\n\
               folder/a.stl,Weight,15.5 kg\n\
               /folder/b.stl,Material,Aluminum\n";
    let parsed = parse(csv, BatchCsvFormat::Auto).unwrap();
    assert_eq!(parsed.format, BatchCsvFormat::Classic);
    assert_eq!(parsed.entries.len(), 2);
    let a = &parsed.entries[0];
    assert_eq!(a.asset, BatchAssetRef::Path("folder/a.stl".to_string()));
    assert_eq!(a.metadata.get("Material").unwrap(), "Steel");
    assert_eq!(a.metadata.get("Weight").unwrap(), "15.5 kg");
    let b = &parsed.entries[1];
    assert_eq!(b.asset, BatchAssetRef::Path("folder/b.stl".to_string()));
}

#[test]
fn classic_home_prefix_normalizes_to_root() {
    let csv = "ASSET_PATH,NAME,VALUE\n\
               /Home/NX/1.prt,Qty,1\n\
               /NX/1.prt,Color,Blue\n\
               NX/1.prt,Material,Steel\n\
               /home/NX/2.prt,Qty,2\n";
    let parsed = parse(csv, BatchCsvFormat::Auto).unwrap();
    assert_eq!(parsed.entries.len(), 2);
    let a = &parsed.entries[0];
    assert_eq!(a.asset, BatchAssetRef::Path("NX/1.prt".to_string()));
    assert_eq!(a.metadata.len(), 3);
    let b = &parsed.entries[1];
    assert_eq!(b.asset, BatchAssetRef::Path("NX/2.prt".to_string()));
}

#[test]
fn ui_home_prefix_normalizes_to_root() {
    let csv = "path,id,metadata:Material\n\
               /Home/NX/1.prt,,Steel\n\
               NX/1.prt,,Aluminum\n";
    let parsed = parse(csv, BatchCsvFormat::Auto).unwrap();
    assert_eq!(parsed.entries.len(), 1);
    assert_eq!(
        parsed.entries[0].asset,
        BatchAssetRef::Path("NX/1.prt".to_string())
    );
    assert_eq!(
        parsed.entries[0].metadata.get("Material").unwrap(),
        "Aluminum"
    );
}

#[test]
fn classic_reads_optional_type_column() {
    let csv = "ASSET_PATH,NAME,VALUE,TYPE\n\
               NX/1.prt,Inventory Qty,18,number\n\
               NX/1.prt,Supplier Link,https://x.com/,url\n\
               NX/1.prt,Description,A part,\n\
               NX/1.prt,Material,Steel\n";
    let parsed = parse(csv, BatchCsvFormat::Auto).unwrap();
    assert_eq!(parsed.format, BatchCsvFormat::Classic);
    let entry = &parsed.entries[0];
    assert_eq!(entry.metadata.get("Inventory Qty").unwrap(), "18");
    assert_eq!(entry.types.get("Inventory Qty").unwrap(), "number");
    assert_eq!(entry.types.get("Supplier Link").unwrap(), "url");
    assert!(!entry.types.contains_key("Description"));
    assert!(!entry.types.contains_key("Material"));
}

#[test]
fn classic_type_column_is_case_insensitive() {
    let csv = "ASSET_PATH,NAME,VALUE,TYPE\n\
               NX/1.prt,Qty,18,NUMBER\n";
    let parsed = parse(csv, BatchCsvFormat::Auto).unwrap();
    assert_eq!(parsed.entries[0].types.get("Qty").unwrap(), "number");
}

#[test]
fn classic_unknown_type_is_warned_and_ignored() {
    let csv = "ASSET_PATH,NAME,VALUE,TYPE\n\
               NX/1.prt,Qty,18,integer\n";
    let parsed = parse(csv, BatchCsvFormat::Auto).unwrap();
    assert_eq!(parsed.entries[0].metadata.get("Qty").unwrap(), "18");
    assert!(!parsed.entries[0].types.contains_key("Qty"));
    assert!(parsed
        .warnings
        .iter()
        .any(|w| w.contains("unrecognized TYPE") && w.contains("integer")));
}

#[test]
fn classic_skips_empty_values_by_default() {
    let csv = "ASSET_PATH,NAME,VALUE\n\
               folder/a.stl,Material,\n\
               folder/a.stl,Weight,15.5 kg\n";
    let parsed = parse(csv, BatchCsvFormat::Auto).unwrap();
    assert_eq!(parsed.entries.len(), 1);
    let entry = &parsed.entries[0];
    assert_eq!(entry.metadata.len(), 1);
    assert_eq!(entry.metadata.get("Weight").unwrap(), "15.5 kg");
    assert!(parsed.warnings.iter().any(|w| w.contains("--delete-if-empty")));
}

#[test]
fn classic_row_with_only_empty_values_produces_no_entry() {
    let csv = "ASSET_PATH,NAME,VALUE\n\
               folder/a.stl,Material,\n";
    let parsed = parse(csv, BatchCsvFormat::Auto).unwrap();
    assert!(parsed.entries.is_empty());
}

#[test]
fn classic_keeps_empty_values_with_delete_if_empty() {
    let csv = "ASSET_PATH,NAME,VALUE\n\
               folder/a.stl,Material,\n";
    let parsed = parse_delete_if_empty(csv, BatchCsvFormat::Auto).unwrap();
    assert_eq!(parsed.entries[0].metadata.get("Material").unwrap(), "");
    assert!(parsed.warnings.is_empty());
}

#[test]
fn auto_detects_ui_format() {
    let csv = "\"path\",\"id\",\"metadata:Material\",\"metadata:Color\"\n\
               \"/domain/part1.sldprt\",\"\",\"Steel\",\"Blue\"\n";
    let parsed = parse(csv, BatchCsvFormat::Auto).unwrap();
    assert_eq!(parsed.format, BatchCsvFormat::Ui);
    assert_eq!(parsed.entries.len(), 1);
    let entry = &parsed.entries[0];
    assert_eq!(
        entry.asset,
        BatchAssetRef::Path("domain/part1.sldprt".to_string())
    );
    assert_eq!(entry.metadata.get("Material").unwrap(), "Steel");
    assert_eq!(entry.metadata.get("Color").unwrap(), "Blue");
}

#[test]
fn ui_uuid_takes_precedence_over_path() {
    let uuid = "123e4567-e89b-12d3-a456-426614174000";
    let csv = format!(
        "path,id,metadata:Material\n\
         /domain/part1.sldprt,{},Steel\n",
        uuid
    );
    let parsed = parse(&csv, BatchCsvFormat::Auto).unwrap();
    assert_eq!(
        parsed.entries[0].asset,
        BatchAssetRef::Uuid(uuid::Uuid::parse_str(uuid).unwrap().as_u128())
    );
}

#[test]
fn ui_invalid_uuid_is_an_error() {
    let csv = "path,id,metadata:Material\n\
               /domain/part1.sldprt,12345-67890,Steel\n";
    let error = parse(csv, BatchCsvFormat::Auto).unwrap_err();
    let message = error.message();
    assert!(message.contains("invalid UUID"), "got: {}", message);
    assert!(message.contains("Line 2"), "got: {}", message);
}

#[test]
fn ui_empty_cells_are_skipped_by_default() {
    let csv = "path,id,metadata:Material,metadata:Color,metadata:Weight\n\
               /domain/assembly.sldasm,,Mixed,,\n";
    let parsed = parse(csv, BatchCsvFormat::Auto).unwrap();
    let entry = &parsed.entries[0];
    assert_eq!(entry.metadata.len(), 1);
    assert_eq!(entry.metadata.get("Material").unwrap(), "Mixed");
}

#[test]
fn ui_empty_cells_are_kept_with_delete_if_empty() {
    let csv = "path,id,metadata:Material,metadata:Color,metadata:Weight\n\
               /domain/assembly.sldasm,,Mixed,,\n";
    let parsed = parse_delete_if_empty(csv, BatchCsvFormat::Auto).unwrap();
    let entry = &parsed.entries[0];
    assert_eq!(entry.metadata.len(), 3);
    assert_eq!(entry.metadata.get("Material").unwrap(), "Mixed");
    assert_eq!(entry.metadata.get("Color").unwrap(), "");
    assert_eq!(entry.metadata.get("Weight").unwrap(), "");
}

#[test]
fn ui_row_with_all_empty_cells_is_kept_with_delete_if_empty() {
    let csv = "path,id,metadata:Material\n\
               /domain/part1.sldprt,,\n";
    let parsed = parse_delete_if_empty(csv, BatchCsvFormat::Auto).unwrap();
    assert_eq!(parsed.entries.len(), 1);
    assert_eq!(parsed.entries[0].metadata.get("Material").unwrap(), "");
    assert!(parsed.warnings.is_empty());
}

#[test]
fn ui_row_with_no_identifier_is_an_error() {
    let csv = "path,id,metadata:Material\n\
               ,,Steel\n";
    let error = parse(csv, BatchCsvFormat::Auto).unwrap_err();
    assert!(error.message().contains("neither an 'id' nor a 'path'"));
}

#[test]
fn ui_unknown_columns_are_warned_and_ignored() {
    let csv = "path,id,name,metadata:Material\n\
               /domain/part1.sldprt,,Part One,Steel\n";
    let parsed = parse(csv, BatchCsvFormat::Auto).unwrap();
    assert!(parsed
        .warnings
        .iter()
        .any(|w| w.contains("unrecognized column") && w.contains("name")));
    let entry = &parsed.entries[0];
    assert_eq!(entry.metadata.len(), 1);
    assert!(entry.metadata.contains_key("Material"));
}

#[test]
fn ui_without_identifier_column_is_an_error() {
    let csv = "metadata:Material\nSteel\n";
    let error = parse(csv, BatchCsvFormat::Auto).unwrap_err();
    assert!(error.message().contains("'path' or 'id' column"));
}

#[test]
fn forced_ui_without_metadata_columns_is_an_error() {
    let csv = "path,id\n/domain/part1.sldprt,\n";
    let error = parse(csv, BatchCsvFormat::Ui).unwrap_err();
    assert!(error.message().contains("at least one metadata column"));
}

#[test]
fn forced_classic_ignores_metadata_prefix() {
    let csv = "ASSET_PATH,NAME,metadata:VALUE\n\
               folder/a.stl,Material,Steel\n";
    let parsed = parse(csv, BatchCsvFormat::Classic).unwrap();
    assert_eq!(parsed.format, BatchCsvFormat::Classic);
    assert_eq!(parsed.entries[0].metadata.get("Material").unwrap(), "Steel");
}

#[test]
fn ui_duplicate_asset_rows_are_merged() {
    let csv = "path,id,metadata:Material,metadata:Color\n\
               /domain/part1.sldprt,,Steel,\n\
               /domain/part1.sldprt,,,Blue\n";
    let parsed = parse(csv, BatchCsvFormat::Auto).unwrap();
    assert_eq!(parsed.entries.len(), 1);
    let entry = &parsed.entries[0];
    assert_eq!(entry.metadata.get("Material").unwrap(), "Steel");
    assert_eq!(entry.metadata.get("Color").unwrap(), "Blue");
}

#[test]
fn multibyte_utf8_header_does_not_panic() {
    let csv = "ASSET_PATH,NAME,metadataé\n\
               folder/a.stl,Material,Steel\n";
    let parsed = parse(csv, BatchCsvFormat::Auto).unwrap();
    assert_eq!(parsed.format, BatchCsvFormat::Classic);
}

#[test]
fn ui_metadata_prefix_is_case_insensitive() {
    let csv = "path,id,Metadata:Material\n\
               /domain/part1.sldprt,,Steel\n";
    let parsed = parse(csv, BatchCsvFormat::Auto).unwrap();
    assert_eq!(parsed.format, BatchCsvFormat::Ui);
    assert!(parsed.entries[0].metadata.contains_key("Material"));
}

#[test]
fn ui_row_with_all_empty_metadata_warns_and_skips() {
    let csv = "path,id,metadata:Material\n\
               /domain/part1.sldprt,,\n";
    let parsed = parse(csv, BatchCsvFormat::Auto).unwrap();
    assert!(parsed.entries.is_empty());
    assert!(parsed.warnings.iter().any(|w| w.contains("row skipped")));
}

#[test]
fn sample_template_file_shape_parses() {
    let csv = "\"path\",\"id\",\"metadata:Material\",\"metadata:Color\",\"metadata:Weight\"\n\
               \"/domain/assets/part1.sldprt\",\"123e4567-e89b-12d3-a456-426614174000\",\"Steel\",\"Blue\",\"2.5kg\"\n\
               \"/domain/assets/part2.step\",\"\",\"Aluminum\",\"Red\",\"1.2kg\"\n\
               \"/domain/assets/assembly.sldasm\",\"\",\"Mixed\",\"\",\"\"\n";
    let parsed = parse(csv, BatchCsvFormat::Auto).unwrap();
    assert_eq!(parsed.entries.len(), 3);
    assert!(matches!(parsed.entries[0].asset, BatchAssetRef::Uuid(_)));
    assert_eq!(
        parsed.entries[1].asset,
        BatchAssetRef::Path("domain/assets/part2.step".to_string())
    );
    assert_eq!(parsed.entries[2].metadata.len(), 1);
}

#[test]
fn the_format_argument_names_a_layout() {
    assert_eq!(BatchCsvFormat::from_arg("classic"), BatchCsvFormat::Classic);
    assert_eq!(BatchCsvFormat::from_arg("ui"), BatchCsvFormat::Ui);
    assert_eq!(BatchCsvFormat::from_arg("auto"), BatchCsvFormat::Auto);
    assert_eq!(BatchCsvFormat::from_arg("UI"), BatchCsvFormat::Auto);
}

#[test]
fn an_unreadable_csv_is_a_csv_error() {
    // A record that is not UTF-8 is refused by the reader.
    let csv: &[u8] = b"ASSET_PATH,NAME,VALUE\nfolder/a.stl,Material,\xff\xfe\n";
    let error = parse_batch_csv(csv, BatchCsvFormat::Classic, false).unwrap_err();
    assert!(matches!(error, CliActionError::CsvError(_)));
    assert_eq!(error.exit_code(), pcli2::errors::PcliExitCode::DataError);
}

#[test]
fn an_asset_reference_displays_as_its_uuid_or_path() {
    let u = uuid::Uuid::parse_str("123e4567-e89b-12d3-a456-426614174000").unwrap();
    assert_eq!(
        BatchAssetRef::Uuid(u.as_u128()).display(),
        "123e4567-e89b-12d3-a456-426614174000"
    );
    assert_eq!(BatchAssetRef::Path("NX/1.prt".to_string()).display(), "NX/1.prt");
}

#[test]
fn the_unknown_type_warning_lists_each_value_once_sorted() {
    let csv = "ASSET_PATH,NAME,VALUE,TYPE\n\
               NX/1.prt,A,1,zeta\n\
               NX/1.prt,B,2,alpha\n\
               NX/1.prt,C,3,zeta\n";
    let parsed = parse(csv, BatchCsvFormat::Auto).unwrap();
    assert_eq!(parsed.warnings.len(), 1);
    assert!(parsed.warnings[0].starts_with("Ignoring unrecognized TYPE value(s): alpha, zeta ("));
}

#[test]
fn ui_skipped_empty_cells_are_warned() {
    let csv = "path,metadata:a,metadata:b\n\
               x,v,\n";
    let parsed = parse(csv, BatchCsvFormat::Auto).unwrap();
    assert_eq!(parsed.entries.len(), 1);
    assert_eq!(parsed.entries[0].metadata.len(), 1);
    assert_eq!(
        parsed.warnings,
        vec![
            "Line 2: empty value(s) for b of asset 'x' skipped; pass --delete-if-empty to delete those metadata fields instead"
                .to_string()
        ]
    );
}

#[test]
fn ui_each_skipped_field_is_named_in_the_warning() {
    let csv = "path,id,metadata:Material,metadata:Color,metadata:Weight\n\
               /domain/assembly.sldasm,,Mixed,,\n";
    let parsed = parse(csv, BatchCsvFormat::Auto).unwrap();
    assert_eq!(parsed.warnings.len(), 1);
    assert!(parsed.warnings[0].contains("empty value(s) for Color, Weight of asset 'domain/assembly.sldasm' skipped"));
}

#[test]
fn ui_no_skip_warning_when_empty_values_delete() {
    let csv = "path,metadata:a,metadata:b\n\
               x,v,\n";
    let parsed = parse_delete_if_empty(csv, BatchCsvFormat::Auto).unwrap();
    assert!(parsed.warnings.is_empty());
    assert_eq!(parsed.entries[0].metadata.len(), 2);
}

#[test]
fn deleting_changes_only_the_empty_values() {
    let csv = "path,metadata:a,metadata:b,metadata:c\n\
               x,1,,3\n\
               y,,,\n";
    let kept = parse(csv, BatchCsvFormat::Auto).unwrap();
    let deleting = parse_delete_if_empty(csv, BatchCsvFormat::Auto).unwrap();
    assert_eq!(kept.entries.len(), 1);
    assert_eq!(kept.entries[0].metadata.get("a").unwrap(), "1");
    assert_eq!(kept.entries[0].metadata.get("c").unwrap(), "3");
    assert!(kept.entries[0].metadata.get("b").is_none());
    assert_eq!(kept.warnings.len(), 2);
    assert_eq!(deleting.entries.len(), 2);
    assert_eq!(deleting.entries[0].metadata.get("a").unwrap(), "1");
    assert_eq!(deleting.entries[0].metadata.get("b").unwrap(), "");
    assert_eq!(deleting.entries[0].metadata.get("c").unwrap(), "3");
    assert_eq!(deleting.entries[1].metadata.get("a").unwrap(), "");
    assert!(deleting.warnings.is_empty());
}
