//! What a mod JAR declares about itself.
use vstd::prelude::*;

use crate::text::str_eq;

verus! {

/// Whether a dependency must be there.
#[derive(Debug, Clone, Copy, PartialEq, Eq, Structural)]
pub enum DependencyKind {
    Required,
    Optional,
}

/// One dependency that a mod declares.
#[derive(Debug, Clone)]
pub struct NormalizedDependency {
    /// The mod ID that is needed.
    pub mod_id: String,
    pub kind: DependencyKind,
    /// The version constraint, as it was written.
    pub version_requirement: Option<String>,
}

impl NormalizedDependency {
    /// A copy.
    pub fn copied(&self) -> (r: Self)
        ensures
            r == *self,
    {
        NormalizedDependency {
            mod_id: self.mod_id.clone(),
            kind: self.kind,
            version_requirement: self.version_requirement.clone(),
        }
    }
}

/// The identity and the dependencies that a JAR declares.
#[derive(Debug, Clone)]
pub struct JarMetadata {
    /// All mod IDs, in the order of their declaration.
    pub mod_ids: Vec<String>,
    pub dependencies: Vec<NormalizedDependency>,
}

/// A copy of a list of dependencies.
pub fn copy_dependencies(v: &Vec<NormalizedDependency>) -> (r: Vec<NormalizedDependency>)
    ensures
        r@ == v@,
{
    let mut out: Vec<NormalizedDependency> = Vec::new();
    let mut i: usize = 0;
    while i < v.len()
        invariant
            i <= v.len(),
            out@ == v@.take(i as int),
        decreases v.len() - i,
    {
        out.push(v[i].copied());
        assert(v@.take(i as int + 1) =~= v@.take(i as int).push(v[i as int]));
        i = i + 1;
    }
    assert(v@.take(v@.len() as int) =~= v@);
    out
}

/// Whether an ID names what mods run on, which no mod provides: the game, the
/// loaders and Java.
pub open spec fn platform_id(id: Seq<char>) -> bool {
    id == "java"@ || id == "minecraft"@ || id == "forge"@ || id == "neoforge"@ || id == "fabric"@
        || id == "fabricloader"@
}

/// Whether an ID names what mods run on.
pub fn is_platform_id(id: &str) -> (r: bool)
    ensures
        r == platform_id(id@),
{
    str_eq(id, "java") || str_eq(id, "minecraft") || str_eq(id, "forge") || str_eq(id, "neoforge")
        || str_eq(id, "fabric") || str_eq(id, "fabricloader")
}

} // verus!
