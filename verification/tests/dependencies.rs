use pcli2::dependencies::{
    extract_all_dependencies_from_tree, find_missing_dependency, tag_with_assembly, AssemblyAsset,
    AssemblyNode, AssemblyTree,
};

fn node(uuid: u128, name: &str, children: Vec<AssemblyNode>) -> AssemblyNode {
    AssemblyNode {
        asset: AssemblyAsset {
            uuid,
            name: name.to_string(),
            path: format!("/parts/{}", name),
            file_type: if uuid % 2 == 0 { Some("prt".to_string()) } else { None },
            created_at: None,
            updated_at: Some("2024-01-01".to_string()),
            processing_status: if uuid == 3 { Some("finished".to_string()) } else { None },
        },
        children,
    }
}

#[test]
fn every_dependency_is_listed_depth_first_with_its_assembly_path() {
    let tree = AssemblyTree {
        root: node(
            1,
            "top.asm",
            vec![
                node(2, "sub.asm", vec![node(3, "bolt.prt", vec![])]),
                node(4, "plate.prt", vec![]),
            ],
        ),
    };
    let deps = extract_all_dependencies_from_tree(&tree);
    let paths: Vec<&str> = deps.iter().map(|d| d.assembly_path.as_str()).collect();
    assert_eq!(
        paths,
        vec!["top.asm/sub.asm", "top.asm/sub.asm/bolt.prt", "top.asm/plate.prt"]
    );
    assert_eq!(deps[0].uuid, 2);
    assert!(deps[0].has_dependencies);
    assert!(!deps[1].has_dependencies);
    assert_eq!(deps[1].path, "/parts/bolt.prt");
    assert_eq!(deps[1].asset_type, "unknown");
    assert_eq!(deps[1].state, "finished");
    assert_eq!(deps[0].state, "missing");
    assert_eq!(deps[0].created_at, "");
    assert_eq!(deps[0].updated_at, "2024-01-01");
    assert_eq!(deps[2].asset_type, "prt");
    assert!(deps.iter().all(|d| d.occurrences == 1 && d.original_asset_path.is_none()));
}

#[test]
fn a_part_has_no_dependencies() {
    let tree = AssemblyTree { root: node(9, "lonely.prt", vec![]) };
    assert!(extract_all_dependencies_from_tree(&tree).is_empty());
}

#[test]
fn an_unnamed_assembly_lists_its_children_by_name() {
    let tree = AssemblyTree { root: node(1, "", vec![node(2, "a.prt", vec![])]) };
    let deps = extract_all_dependencies_from_tree(&tree);
    assert_eq!(deps[0].assembly_path, "a.prt");
}

#[test]
fn dependencies_from_several_assemblies_say_where_they_came_from() {
    let tree = AssemblyTree { root: node(1, "top.asm", vec![node(2, "a.prt", vec![])]) };
    let tagged = tag_with_assembly(extract_all_dependencies_from_tree(&tree), "/F/top.asm");
    assert_eq!(tagged.len(), 1);
    assert_eq!(tagged[0].original_asset_path.as_deref(), Some("/F/top.asm"));
    assert_eq!(tagged[0].assembly_path, "top.asm/a.prt");
}

#[test]
fn a_missing_dependency_is_matched_however_it_is_rooted() {
    let missing = vec!["/F/bolt.prt".to_string(), "F/nut.prt".to_string()];
    assert_eq!(find_missing_dependency(&missing, "F/bolt.prt", "/F/top.asm").unwrap(), "/F/bolt.prt");
    assert_eq!(find_missing_dependency(&missing, "//F/nut.prt", "/F/top.asm").unwrap(), "F/nut.prt");
    let e = find_missing_dependency(&missing, "F/washer.prt", "/F/top.asm").unwrap_err();
    assert_eq!(
        e.message(),
        "'F/washer.prt' is not a missing dependency of '/F/top.asm'. The missing dependencies of '/F/top.asm' are:\n  /F/bolt.prt\n  F/nut.prt"
    );
    let none = find_missing_dependency(&vec![], "x", "/A").unwrap_err();
    assert_eq!(
        none.message(),
        "'x' is not a missing dependency of '/A'. '/A' has no missing dependencies."
    );
}
