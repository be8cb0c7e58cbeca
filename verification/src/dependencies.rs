//! An assembly's dependencies: every part and sub-assembly in its tree, with
//! the path through the assembly that leads to it.

use vstd::prelude::*;
use crate::errors::{CliActionError, CliError};
use crate::text::{chars_of, string_of, str_eq, drop_leading, seq_join, views, join, is_slash};

verus! {

/// An asset as an assembly tree holds it.
#[derive(Debug)]
pub struct AssemblyAsset {
    pub uuid: u128,
    pub name: String,
    pub path: String,
    pub file_type: Option<String>,
    pub created_at: Option<String>,
    pub updated_at: Option<String>,
    pub processing_status: Option<String>,
}

/// A node of an assembly tree: an asset and the assets it references.
#[derive(Debug)]
pub struct AssemblyNode {
    pub asset: AssemblyAsset,
    pub children: Vec<AssemblyNode>,
}

/// An assembly and everything it references.
#[derive(Debug)]
pub struct AssemblyTree {
    pub root: AssemblyNode,
}

/// One dependency of an assembly.
#[derive(Debug)]
pub struct AssetDependency {
    pub path: String,
    pub uuid: u128,
    /// The asset's file type, or `unknown`.
    pub asset_type: String,
    pub created_at: String,
    pub updated_at: String,
    /// The asset's processing state, or `missing`.
    pub state: String,
    pub occurrences: u64,
    /// Whether the dependency references assets of its own.
    pub has_dependencies: bool,
    /// The names from the assembly down to this asset, joined by `/`.
    pub assembly_path: String,
    /// The path of the asset whose tree this came from, when several trees are combined.
    pub original_asset_path: Option<String>,
}

/// A dependency as the contracts see it: the asset it is, whether it has
/// dependencies of its own, and its assembly path.
pub struct SpecDependency {
    pub uuid: u128,
    pub path: Seq<char>,
    pub asset_type: Seq<char>,
    pub created_at: Seq<char>,
    pub updated_at: Seq<char>,
    pub state: Seq<char>,
    pub occurrences: u64,
    pub has_dependencies: bool,
    pub assembly_path: Seq<char>,
    pub original_asset_path: Option<Seq<char>>,
}

impl View for AssetDependency {
    type V = SpecDependency;

    open spec fn view(&self) -> SpecDependency {
        SpecDependency {
            uuid: self.uuid,
            path: self.path@,
            asset_type: self.asset_type@,
            created_at: self.created_at@,
            updated_at: self.updated_at@,
            state: self.state@,
            occurrences: self.occurrences,
            has_dependencies: self.has_dependencies,
            assembly_path: self.assembly_path@,
            original_asset_path: match self.original_asset_path {
                Some(p) => Some(p@),
                None => None,
            },
        }
    }
}

/// The views of a list of dependencies.
pub open spec fn dependency_views(v: Seq<AssetDependency>) -> Seq<SpecDependency> {
    v.map_values(|d: AssetDependency| d@)
}

/// A child's assembly path: its name under its parent's path.
pub open spec fn child_path(parent: Seq<char>, name: Seq<char>) -> Seq<char> {
    if parent.len() == 0 {
        name
    } else {
        parent + "/"@ + name
    }
}

/// An optional text, or the given default where it is absent.
pub open spec fn text_or_default(o: Option<String>, default: Seq<char>) -> Seq<char> {
    match o {
        Some(s) => s@,
        None => default,
    }
}

/// The dependency that a node of the tree stands for, found at `assembly_path`.
pub open spec fn dependency_of(node: AssemblyNode, assembly_path: Seq<char>) -> SpecDependency {
    SpecDependency {
        uuid: node.asset.uuid,
        path: node.asset.path@,
        asset_type: text_or_default(node.asset.file_type, "unknown"@),
        created_at: text_or_default(node.asset.created_at, ""@),
        updated_at: text_or_default(node.asset.updated_at, ""@),
        state: text_or_default(node.asset.processing_status, "missing"@),
        occurrences: 1,
        has_dependencies: node.children@.len() > 0,
        assembly_path,
        original_asset_path: None,
    }
}

/// The dependencies below children `i..` of `node`, in depth-first order:
/// each child, then everything below it, then the next child.
pub open spec fn dependencies_from(node: AssemblyNode, parent: Seq<char>, i: int) -> Seq<SpecDependency>
    decreases node, node.children@.len() - i,
{
    if i < 0 || i >= node.children@.len() {
        seq![]
    } else {
        let child = node.children@[i];
        let p = child_path(parent, child.asset.name@);
        seq![dependency_of(child, p)] + dependencies_from(child, p, 0) + dependencies_from(node, parent, i + 1)
    }
}

fn text_or(o: &Option<String>, default: &str) -> (r: String)
    ensures
        r@ == text_or_default(*o, default@),
{
    match o {
        Some(s) => s.clone(),
        None => String::from_str(default),
    }
}

fn collect_dependencies_recursive(node: &AssemblyNode, dependencies: &mut Vec<AssetDependency>, parent: &String)
    ensures
        dependency_views(final(dependencies)@) == dependency_views(old(dependencies)@) + dependencies_from(*node, parent@, 0),
    decreases node,
{
    let ghost start = dependency_views(dependencies@);
    let n = node.children.len();
    for i in 0..n
        invariant
            n == node.children@.len(),
            dependency_views(dependencies@) + dependencies_from(*node, parent@, i as int) == start + dependencies_from(
                *node,
                parent@,
                0,
            ),
    {
        let child = &node.children[i];
        let current = if parent.as_str().is_empty() {
            child.asset.name.clone()
        } else {
            let mut p = parent.clone();
            p.append("/");
            p.append(child.asset.name.as_str());
            p
        };
        assert(current@ == child_path(parent@, child.asset.name@));
        let dependency = AssetDependency {
            path: child.asset.path.clone(),
            uuid: child.asset.uuid,
            asset_type: text_or(&child.asset.file_type, "unknown"),
            created_at: text_or(&child.asset.created_at, ""),
            updated_at: text_or(&child.asset.updated_at, ""),
            state: text_or(&child.asset.processing_status, "missing"),
            occurrences: 1,
            has_dependencies: child.children.len() > 0,
            assembly_path: current.clone(),
            original_asset_path: None,
        };
        let ghost before = dependency_views(dependencies@);
        dependencies.push(dependency);
        assert(dependency_views(dependencies@) =~= before.push(dependency_of(*child, current@)));
        let ghost mid = dependency_views(dependencies@);
        collect_dependencies_recursive(child, dependencies, &current);
        assert(dependencies_from(*node, parent@, i as int) =~= seq![dependency_of(*child, current@)]
            + dependencies_from(*child, current@, 0) + dependencies_from(*node, parent@, i + 1));
        assert(dependency_views(dependencies@) + dependencies_from(*node, parent@, i + 1) =~= before
            + dependencies_from(*node, parent@, i as int));
    }
}

/// Every dependency in an assembly tree, depth first, each with its path
/// through the assembly starting at the assembly's own name.
pub fn extract_all_dependencies_from_tree(assembly_tree: &AssemblyTree) -> (r: Vec<AssetDependency>)
    ensures
        dependency_views(r@) == dependencies_from(assembly_tree.root, assembly_tree.root.asset.name@, 0),
{
    let mut all_dependencies: Vec<AssetDependency> = Vec::new();
    let root_name = assembly_tree.root.asset.name.clone();
    collect_dependencies_recursive(&assembly_tree.root, &mut all_dependencies, &root_name);
    assert(dependency_views(all_dependencies@) =~= dependencies_from(assembly_tree.root, root_name@, 0));
    all_dependencies
}

/// The dependencies of one assembly among several: each marked with the
/// path of the assembly whose tree it came from.
pub fn tag_with_assembly(dependencies: Vec<AssetDependency>, assembly_path: &str) -> (r: Vec<AssetDependency>)
    ensures
        r@.len() == dependencies@.len(),
        forall|i: int|
            0 <= i < r@.len() ==> (#[trigger] r@[i])@ == (SpecDependency {
                original_asset_path: Some(assembly_path@),
                ..dependencies@[i]@
            }),
{
    let mut out: Vec<AssetDependency> = Vec::new();
    let mut rest = dependencies;
    let ghost all = rest@;
    let n = rest.len();
    assert(all.skip(0) =~= all);
    while rest.len() > 0
        invariant
            n == all.len(),
            rest@ == all.skip(out@.len() as int),
            out@.len() <= n,
            forall|i: int|
                0 <= i < out@.len() ==> (#[trigger] out@[i])@ == (SpecDependency {
                    original_asset_path: Some(assembly_path@),
                    ..all[i]@
                }),
        decreases rest@.len(),
    {
        let ghost k = out@.len() as int;
        let mut d = rest.remove(0);
        assert(d == all[k]);
        assert(rest@ =~= all.skip(k + 1));
        d.original_asset_path = Some(String::from_str(assembly_path));
        out.push(d);
    }
    out
}

/// The spelling of a dependency path that is compared: without leading
/// slashes.
pub open spec fn unrooted(p: Seq<char>) -> Seq<char> {
    drop_leading(p, is_slash())
}

/// Why a dependency cannot be resolved: it is not one of the assembly's
/// missing dependencies, which are listed, if it has any.
pub open spec fn not_missing_message(dependency: Seq<char>, assembly_path: Seq<char>, missing: Seq<Seq<char>>) -> Seq<
    char,
> {
    "'"@ + dependency + "' is not a missing dependency of '"@ + assembly_path + "'. "@ + if missing.len() == 0 {
        "'"@ + assembly_path + "' has no missing dependencies."@
    } else {
        "The missing dependencies of '"@ + assembly_path + "' are:\n  "@ + seq_join(missing, "\n  "@)
    }
}

fn unrooted_text(p: &str) -> (r: String)
    ensures
        r@ == unrooted(p@),
{
    let v = chars_of(p);
    let n = v.len();
    let mut i: usize = 0;
    assert(v@.skip(0) =~= v@);
    while i < n && v[i] == '/'
        invariant
            i <= n == v@.len(),
            v@ == p@,
            drop_leading(p@, is_slash()) == drop_leading(v@.skip(i as int), is_slash()),
        decreases n - i,
    {
        assert(v@.skip(i as int).drop_first() =~= v@.skip(i + 1));
        i = i + 1;
    }
    let rest = string_of(&v.as_slice()[i..n]);
    assert(rest@ =~= v@.skip(i as int));
    assert(drop_leading(rest@, is_slash()) == rest@) by {
        if rest@.len() > 0 {
            assert(rest@[0] == v@[i as int]);
        }
    }
    rest
}

/// The missing dependency of an assembly that `dependency` names, spelled as
/// the API lists it: the first whose path, without leading slashes, is the
/// given one without leading slashes.
pub fn find_missing_dependency(missing: &Vec<String>, dependency: &str, assembly_path: &str) -> (r: Result<
    String,
    CliError,
>)
    ensures
        match r {
            Ok(p) => exists|i: int|
                0 <= i < missing@.len() && missing@[i]@ == p@ && unrooted(p@) == unrooted(dependency@) && forall|
                    j: int,
                | 0 <= j < i ==> unrooted(#[trigger] missing@[j]@) != unrooted(dependency@),
            Err(e) => {
                &&& forall|j: int| 0 <= j < missing@.len() ==> unrooted(#[trigger] missing@[j]@) != unrooted(dependency@)
                &&& e matches CliError::ActionError(CliActionError::BusinessLogicError(m)) && m@ == not_missing_message(
                    dependency@,
                    assembly_path@,
                    views(missing@),
                )
            },
        },
{
    let wanted = unrooted_text(dependency);
    let n = missing.len();
    for i in 0..n
        invariant
            n == missing@.len(),
            wanted@ == unrooted(dependency@),
            forall|j: int| 0 <= j < i ==> unrooted(#[trigger] missing@[j]@) != unrooted(dependency@),
    {
        let candidate = unrooted_text(missing[i].as_str());
        if str_eq(candidate.as_str(), wanted.as_str()) {
            return Ok(missing[i].clone());
        }
    }
    let mut m = String::from_str("'");
    m.append(dependency);
    m.append("' is not a missing dependency of '");
    m.append(assembly_path);
    m.append("'. ");
    if n == 0 {
        m.append("'");
        m.append(assembly_path);
        m.append("' has no missing dependencies.");
    } else {
        m.append("The missing dependencies of '");
        m.append(assembly_path);
        m.append("' are:\n  ");
        let listed = join(missing, "\n  ");
        m.append(listed.as_str());
    }
    Err(CliError::ActionError(CliActionError::BusinessLogicError(m)))
}

} // verus!
