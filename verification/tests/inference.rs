use pcli2::assoc::FieldMap;
use pcli2::inference::{copies_to, inference_fields, inferred_metadata, parent_folder};

fn reference() -> FieldMap {
    let mut m = FieldMap::new();
    m.insert("Material".to_string(), "Steel".to_string());
    m.insert("Finish".to_string(), "Matte".to_string());
    m
}

#[test]
fn only_fields_the_reference_has_are_copied() {
    let names = vec!["Finish".to_string(), "Color".to_string(), "Material".to_string()];
    let fields = inference_fields(&reference(), "/a/ref.prt", &names).unwrap();
    assert_eq!(fields, vec!["Finish".to_string(), "Material".to_string()]);
    let copied = inferred_metadata(&reference(), &fields);
    assert_eq!(copied.len(), 2);
    assert_eq!(copied.get("Finish").unwrap(), "Matte");
    assert_eq!(copied.get("Material").unwrap(), "Steel");
}

#[test]
fn no_matching_field_is_an_error_naming_what_was_asked() {
    let names = vec!["Color".to_string()];
    let e = inference_fields(&reference(), "/a/ref.prt", &names).unwrap_err();
    assert_eq!(
        e.message(),
        "Missing required argument: Reference asset '/a/ref.prt' has no metadata fields matching: [\"Color\"]"
    );
}

#[test]
fn an_exclusive_inference_stays_in_the_reference_folder() {
    assert_eq!(parent_folder("/a/b/c.prt"), "/a/b");
    assert_eq!(parent_folder("c.prt"), "");
    assert_eq!(parent_folder("/c.prt"), "");
    assert!(copies_to(true, "/a/x.prt", "/a/y.prt"));
    assert!(!copies_to(true, "/a/x.prt", "/b/y.prt"));
    assert!(copies_to(false, "/a/x.prt", "/b/y.prt"));
}
