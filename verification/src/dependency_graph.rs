//! The dependency graph of a set of mod JARs, and the plan of which of them a
//! server build keeps.
//!
//! Classification and dependencies are separate things: a mod's classification
//! is taken as it was given and never follows from the mods around it.
use vstd::prelude::*;

use crate::jar_metadata::{copy_dependencies, DependencyKind, JarMetadata, NormalizedDependency};
use crate::mod_compat::{CompatibilityConfidence, ModCompatibility, ServerCompatibility};
use crate::text;
use crate::text_laws;
use crate::text::{clone_strings, contains_str, debug_str, str_eq};

verus! {

broadcast use vstd::seq_lib::group_seq_properties;

/// One mod JAR: its identity, its classification and what it depends on.
#[derive(Debug, Clone)]
pub struct ModNode {
    /// File path of the JAR.
    pub path: String,
    /// All mod IDs that the JAR declares; empty if none could be found.
    pub mod_ids: Vec<String>,
    /// The first declared mod ID, for display.
    pub mod_id: Option<String>,
    /// Classification of the JAR.
    pub compatibility: ModCompatibility,
    /// What the mod depends on.
    pub dependencies: Vec<NormalizedDependency>,
}

impl ModNode {
    /// Whether the JAR declares the mod ID.
    pub open spec fn declares(self, id: Seq<char>) -> bool {
        text::has_str(self.mod_ids@, id)
    }

    /// Whether the mod lists the mod ID among its dependencies, of either kind.
    pub open spec fn depends_on(self, id: Seq<char>) -> bool {
        exists|k: int|
            0 <= k < self.dependencies@.len() && (#[trigger] self.dependencies@[k]).mod_id@ == id
    }

    /// Whether the mod lists the mod ID among its required dependencies.
    pub open spec fn requires_mod(self, id: Seq<char>) -> bool {
        exists|k: int|
            0 <= k < self.dependencies@.len() && (#[trigger] self.dependencies@[k]).mod_id@ == id
                && self.dependencies@[k].kind == DependencyKind::Required
    }

    /// Computes [`ModNode::requires_mod`].
    pub fn requires_dependency(&self, id: &str) -> (r: bool)
        ensures
            r == self.requires_mod(id@),
    {
        let mut i: usize = 0;
        while i < self.dependencies.len()
            invariant
                i <= self.dependencies.len(),
                forall|k: int|
                    0 <= k < i ==> !((#[trigger] self.dependencies@[k]).mod_id@ == id@
                        && self.dependencies@[k].kind == DependencyKind::Required),
            decreases self.dependencies.len() - i,
        {
            if str_eq(self.dependencies[i].mod_id.as_str(), id) && self.dependencies[i].kind
                == DependencyKind::Required {
                return true;
            }
            i = i + 1;
        }
        false
    }

    /// Whether the plan leaves the JAR out.
    pub open spec fn excluded(self) -> bool {
        self.compatibility.excluded_by_metadata()
    }

    /// The mod ID shown for the JAR.
    pub open spec fn display_id(self) -> Option<Seq<char>> {
        text::opt_view(self.mod_id)
    }
}

/// The positions, below `n`, of the nodes that declare a mod ID.
pub open spec fn providers_below(nodes: Seq<ModNode>, id: Seq<char>, n: int) -> Seq<int>
    decreases n,
{
    if n <= 0 {
        seq![]
    } else if nodes[n - 1].declares(id) {
        providers_below(nodes, id, n - 1).push(n - 1)
    } else {
        providers_below(nodes, id, n - 1)
    }
}

/// The positions of the nodes that declare a mod ID, in the graph's order.
pub open spec fn providers(nodes: Seq<ModNode>, id: Seq<char>) -> Seq<int> {
    providers_below(nodes, id, nodes.len() as int)
}

/// Whether different files declare a mod ID.
pub open spec fn ambiguous(nodes: Seq<ModNode>, id: Seq<char>) -> bool {
    exists|i: int, j: int|
        0 <= i < nodes.len() && 0 <= j < nodes.len() && #[trigger] nodes[i].declares(id)
            && #[trigger] nodes[j].declares(id) && nodes[i].path@ != nodes[j].path@
}

/// The last position below `n` of a JAR with this path, or -1.
pub open spec fn path_index(nodes: Seq<ModNode>, path: Seq<char>, n: int) -> int
    decreases n,
{
    if n <= 0 {
        -1
    } else if nodes[n - 1].path@ == path {
        n - 1
    } else {
        path_index(nodes, path, n - 1)
    }
}

/// The JARs below `n` that satisfy a condition, in order.
pub open spec fn nodes_below(nodes: Seq<ModNode>, keep: spec_fn(ModNode) -> bool, n: int) -> Seq<
    ModNode,
>
    decreases n,
{
    if n <= 0 {
        seq![]
    } else if keep(nodes[n - 1]) {
        nodes_below(nodes, keep, n - 1).push(nodes[n - 1])
    } else {
        nodes_below(nodes, keep, n - 1)
    }
}

/// The mods that list `id` as a dependency.
pub open spec fn dependents(nodes: Seq<ModNode>, id: Seq<char>) -> Seq<ModNode> {
    nodes_below(nodes, |n: ModNode| n.depends_on(id), nodes.len() as int)
}

/// The mods that list `id` as a dependency and are not client-only.
pub open spec fn retained_dependents(nodes: Seq<ModNode>, id: Seq<char>) -> Seq<ModNode> {
    nodes_below(
        nodes,
        |n: ModNode|
            n.compatibility.compatibility != ServerCompatibility::ClientOnly && n.depends_on(id),
        nodes.len() as int,
    )
}

/// The nodes behind a list of references.
pub open spec fn deref_nodes(v: Seq<&ModNode>) -> Seq<ModNode> {
    v.map_values(|n: &ModNode| *n)
}

/// A dependency graph built from a set of mod JARs.
///
/// A JAR that declares several mod IDs is one node and is found under each of
/// them. A mod ID that different files declare is ambiguous; one file that was
/// given twice is still one file.
#[derive(Debug, Clone)]
pub struct DependencyGraph {
    /// All nodes, in the order in which the JARs were given.
    pub nodes: Vec<ModNode>,
}

/// What the graph keeps of one JAR.
pub open spec fn node_matches(n: ModNode, e: (String, ModCompatibility, JarMetadata)) -> bool {
    &&& n.path == e.0
    &&& n.compatibility == e.1
    &&& n.mod_ids@ == e.2.mod_ids@
    &&& n.dependencies@ == e.2.dependencies@
    &&& n.mod_id == (if e.2.mod_ids@.len() > 0 {
        Some(e.2.mod_ids@[0])
    } else {
        None
    })
}

impl DependencyGraph {
    /// Builds the graph of classified JARs. Each entry is a path, the
    /// classification of the JAR, and what the JAR declares. The
    /// classifications are taken as they are.
    pub fn build(entries: &[(String, ModCompatibility, JarMetadata)]) -> (r: Self)
        ensures
            r.nodes@.len() == entries@.len(),
            forall|i: int|
                0 <= i < entries@.len() ==> node_matches(#[trigger] r.nodes@[i], entries@[i]),
    {
        let mut nodes: Vec<ModNode> = Vec::new();
        let mut i: usize = 0;
        while i < entries.len()
            invariant
                i <= entries.len(),
                nodes@.len() == i,
                forall|k: int| 0 <= k < i ==> node_matches(#[trigger] nodes@[k], entries@[k]),
            decreases entries.len() - i,
        {
            let (path, compatibility, meta) = &entries[i];
            let mod_id: Option<String> = if meta.mod_ids.len() > 0 {
                Some(meta.mod_ids[0].clone())
            } else {
                None
            };
            nodes.push(
                ModNode {
                    path: path.clone(),
                    mod_ids: clone_strings(&meta.mod_ids),
                    mod_id,
                    compatibility: compatibility.copied(),
                    dependencies: copy_dependencies(&meta.dependencies),
                },
            );
            i = i + 1;
        }
        DependencyGraph { nodes }
    }

    /// The positions of all nodes that declare the mod ID.
    fn provider_indices(&self, mod_id: &str) -> (r: Vec<usize>)
        ensures
            r@.map_values(|i: usize| i as int) == providers(self.nodes@, mod_id@),
            forall|k: int|
                0 <= k < r@.len() ==> 0 <= #[trigger] r@[k] < self.nodes@.len()
                    && self.nodes@[r@[k] as int].declares(mod_id@),
    {
        let mut out: Vec<usize> = Vec::new();
        let mut i: usize = 0;
        assert(out@.map_values(|i: usize| i as int) =~= seq![]);
        while i < self.nodes.len()
            invariant
                i <= self.nodes.len(),
                out@.map_values(|i: usize| i as int) == providers_below(
                    self.nodes@,
                    mod_id@,
                    i as int,
                ),
                forall|k: int|
                    0 <= k < out@.len() ==> 0 <= #[trigger] out@[k] < self.nodes@.len()
                        && self.nodes@[out@[k] as int].declares(mod_id@),
            decreases self.nodes.len() - i,
        {
            if contains_str(&self.nodes[i].mod_ids, mod_id) {
                let ghost before = out@;
                out.push(i);
                assert(out@.map_values(|i: usize| i as int) =~= before.map_values(
                    |i: usize| i as int,
                ).push(i as int));
            }
            i = i + 1;
        }
        out
    }

    /// The node that declares the mod ID, if exactly one file does; where that
    /// file was given several times, the node given last.
    pub fn find_by_mod_id(&self, mod_id: &str) -> (r: Option<&ModNode>)
        ensures
            r is Some <==> providers(self.nodes@, mod_id@).len() > 0 && !ambiguous(
                self.nodes@,
                mod_id@,
            ),
            r is Some ==> *r->0 == self.nodes@[providers(self.nodes@, mod_id@).last()],
            r is Some ==> r->0.declares(mod_id@),
    {
        let idx = self.provider_indices(mod_id);
        assert(idx@.len() == providers(self.nodes@, mod_id@).len());
        if idx.len() > 0 && !self.is_ambiguous(mod_id) {
            let last: usize = idx.len() - 1;
            assert(idx@.map_values(|i: usize| i as int)[last as int] == idx@[last as int]);
            Some(&self.nodes[idx[last]])
        } else {
            None
        }
    }

    /// All nodes that declare the mod ID, in order.
    pub fn find_all_by_mod_id(&self, mod_id: &str) -> (r: Vec<&ModNode>)
        ensures
            r@.len() == providers(self.nodes@, mod_id@).len(),
            forall|k: int|
                0 <= k < r@.len() ==> *(#[trigger] r@[k]) == self.nodes@[providers(
                    self.nodes@,
                    mod_id@,
                )[k]],
    {
        let idx = self.provider_indices(mod_id);
        let ghost p = providers(self.nodes@, mod_id@);
        assert(idx@.len() == p.len());
        assert forall|k: int| 0 <= k < idx@.len() implies #[trigger] idx@[k] == p[k] by {
            assert(idx@.map_values(|i: usize| i as int)[k] == idx@[k]);
        }
        let mut out: Vec<&ModNode> = Vec::new();
        let mut i: usize = 0;
        while i < idx.len()
            invariant
                i <= idx.len(),
                out@.len() == i,
                idx@.len() == p.len(),
                forall|k: int| 0 <= k < idx@.len() ==> #[trigger] idx@[k] == p[k],
                forall|k: int|
                    0 <= k < idx@.len() ==> 0 <= #[trigger] idx@[k] < self.nodes@.len(),
                forall|k: int| 0 <= k < i ==> *(#[trigger] out@[k]) == self.nodes@[p[k]],
            decreases idx.len() - i,
        {
            out.push(&self.nodes[idx[i]]);
            i = i + 1;
        }
        out
    }

    /// Whether different files declare the mod ID.
    pub fn is_ambiguous(&self, mod_id: &str) -> (r: bool)
        ensures
            r == ambiguous(self.nodes@, mod_id@),
    {
        let idx = self.provider_indices(mod_id);
        let ghost p = providers(self.nodes@, mod_id@);
        let mut i: usize = 1;
        while i < idx.len()
            invariant
                1 <= i,
                i <= idx.len() || idx.len() == 0,
                forall|k: int|
                    0 <= k < idx@.len() ==> 0 <= #[trigger] idx@[k] < self.nodes@.len()
                        && self.nodes@[idx@[k] as int].declares(mod_id@),
                forall|k: int|
                    0 <= k < i && k < idx@.len() ==> self.nodes@[(#[trigger] idx@[k]) as int].path@
                        == self.nodes@[idx@[0] as int].path@,
            decreases idx.len() - i,
        {
            if !str_eq(self.nodes[idx[i]].path.as_str(), self.nodes[idx[0]].path.as_str()) {
                return true;
            }
            i = i + 1;
        }
        proof {
            lemma_providers(self.nodes@, mod_id@, self.nodes@.len() as int);
            assert(idx@.len() == p.len());
            assert forall|n: int|
                0 <= n < self.nodes@.len() && #[trigger] self.nodes@[n].declares(mod_id@) implies
                idx@.len() > 0 && self.nodes@[n].path@ == self.nodes@[idx@[0] as int].path@ by {
                assert(p.contains(n));
                let k = choose|k: int| 0 <= k < p.len() && p[k] == n;
                assert(idx@.map_values(|i: usize| i as int)[k] == idx@[k]);
            }
        }
        false
    }

    /// All mod IDs that different files declare, each once.
    pub fn ambiguous_ids(&self) -> (r: Vec<String>)
        ensures
            forall|id: Seq<char>| #[trigger]
                text::has_str(r@, id) <==> ambiguous(self.nodes@, id),
            forall|i: int, j: int| 0 <= i < j < r@.len() ==> (#[trigger] r@[i])@ != (
            #[trigger] r@[j])@,
    {
        let mut out: Vec<String> = Vec::new();
        let mut i: usize = 0;
        while i < self.nodes.len()
            invariant
                i <= self.nodes.len(),
                forall|k: int|
                    0 <= k < out@.len() ==> ambiguous(self.nodes@, (#[trigger] out@[k])@),
                forall|a: int, b: int| 0 <= a < b < out@.len() ==> (#[trigger] out@[a])@ != (
                #[trigger] out@[b])@,
                forall|n: int, m: int|
                    0 <= n < i && 0 <= m < self.nodes@[n].mod_ids@.len() && ambiguous(
                        self.nodes@,
                        (#[trigger] self.nodes@[n].mod_ids@[m])@,
                    ) ==> text::has_str(out@, self.nodes@[n].mod_ids@[m]@),
            decreases self.nodes.len() - i,
        {
            let mut j: usize = 0;
            while j < self.nodes[i].mod_ids.len()
                invariant
                    i < self.nodes.len(),
                    j <= self.nodes@[i as int].mod_ids@.len(),
                    forall|k: int|
                        0 <= k < out@.len() ==> ambiguous(self.nodes@, (#[trigger] out@[k])@),
                    forall|a: int, b: int| 0 <= a < b < out@.len() ==> (#[trigger] out@[a])@ != (
                    #[trigger] out@[b])@,
                    forall|n: int, m: int|
                        0 <= n < i && 0 <= m < self.nodes@[n].mod_ids@.len() && ambiguous(
                            self.nodes@,
                            (#[trigger] self.nodes@[n].mod_ids@[m])@,
                        ) ==> text::has_str(out@, self.nodes@[n].mod_ids@[m]@),
                    forall|m: int|
                        0 <= m < j && ambiguous(
                            self.nodes@,
                            (#[trigger] self.nodes@[i as int].mod_ids@[m])@,
                        ) ==> text::has_str(
                            out@,
                            self.nodes@[i as int].mod_ids@[m]@,
                        ),
                decreases self.nodes@[i as int].mod_ids@.len() - j,
            {
                let id: &String = &self.nodes[i].mod_ids[j];
                if self.is_ambiguous(id.as_str()) && !contains_str(&out, id.as_str()) {
                    let ghost before = out@;
                    out.push(id.clone());
                    proof {
                        assert(out@.last()@ == id@);
                        assert forall|x: Seq<char>|
                            text::has_str(before, x) implies text::has_str(
                            out@,
                            x,
                        ) by {
                            let k = choose|k: int| 0 <= k < before.len() && before[k]@ == x;
                            assert(out@[k]@ == x);
                        }
                        assert(text::has_str(out@, id@)) by {
                            assert(out@[before.len() as int]@ == id@);
                        }
                    }
                }
                j = j + 1;
            }
            i = i + 1;
        }
        proof {
            assert forall|id: Seq<char>| #[trigger]
                text::has_str(out@, id) <==> ambiguous(self.nodes@, id) by {
                if ambiguous(self.nodes@, id) {
                    let (n, _other) = choose|i: int, j: int|
                        0 <= i < self.nodes@.len() && 0 <= j < self.nodes@.len()
                            && #[trigger] self.nodes@[i].declares(id)
                            && #[trigger] self.nodes@[j].declares(id) && self.nodes@[i].path@
                            != self.nodes@[j].path@;
                    assert(self.nodes@[n].declares(id));
                    let m = choose|m: int|
                        0 <= m < self.nodes@[n].mod_ids@.len() && (
                        #[trigger] self.nodes@[n].mod_ids@[m])@ == id;
                    assert(text::has_str(out@, self.nodes@[n].mod_ids@[m]@));
                }
                if text::has_str(out@, id) {
                    let k = choose|k: int| 0 <= k < out@.len() && (#[trigger] out@[k])@ == id;
                    assert(ambiguous(self.nodes@, out@[k]@));
                }
            }
        }
        out
    }

    /// The node with this file path; of several, the one given last.
    pub fn find_by_path(&self, path: &str) -> (r: Option<&ModNode>)
        ensures
            r is Some <==> path_index(self.nodes@, path@, self.nodes@.len() as int) >= 0,
            r is Some ==> *r->0 == self.nodes@[path_index(
                self.nodes@,
                path@,
                self.nodes@.len() as int,
            )],
    {
        let mut i: usize = self.nodes.len();
        while i > 0
            invariant
                i <= self.nodes.len(),
                path_index(self.nodes@, path@, self.nodes@.len() as int) == path_index(
                    self.nodes@,
                    path@,
                    i as int,
                ),
            decreases i,
        {
            if str_eq(self.nodes[i - 1].path.as_str(), path) {
                return Some(&self.nodes[i - 1]);
            }
            i = i - 1;
        }
        None
    }

    /// Whether a node lists the mod ID as a dependency.
    fn lists(node: &ModNode, mod_id: &str) -> (r: bool)
        ensures
            r == node.depends_on(mod_id@),
    {
        let mut i: usize = 0;
        while i < node.dependencies.len()
            invariant
                i <= node.dependencies.len(),
                forall|k: int| 0 <= k < i ==> (#[trigger] node.dependencies@[k]).mod_id@ != mod_id@,
            decreases node.dependencies.len() - i,
        {
            if str_eq(node.dependencies[i].mod_id.as_str(), mod_id) {
                return true;
            }
            i = i + 1;
        }
        false
    }

    /// The mods that list `mod_id` as a dependency.
    pub fn dependents_of(&self, mod_id: &str) -> (r: Vec<&ModNode>)
        ensures
            deref_nodes(r@) == dependents(self.nodes@, mod_id@),
    {
        let ghost keep = |n: ModNode| n.depends_on(mod_id@);
        let mut out: Vec<&ModNode> = Vec::new();
        let mut i: usize = 0;
        assert(deref_nodes(out@) =~= seq![]);
        while i < self.nodes.len()
            invariant
                i <= self.nodes.len(),
                keep == (|n: ModNode| n.depends_on(mod_id@)),
                deref_nodes(out@) == nodes_below(self.nodes@, keep, i as int),
            decreases self.nodes.len() - i,
        {
            if Self::lists(&self.nodes[i], mod_id) {
                let ghost before = out@;
                out.push(&self.nodes[i]);
                assert(deref_nodes(out@) =~= deref_nodes(before).push(self.nodes@[i as int]));
            }
            i = i + 1;
        }
        out
    }

    /// The mods that list `mod_id` as a dependency and are not client-only.
    pub fn retained_dependents_of(&self, mod_id: &str) -> (r: Vec<&ModNode>)
        ensures
            deref_nodes(r@) == retained_dependents(self.nodes@, mod_id@),
    {
        let ghost keep = |n: ModNode|
            n.compatibility.compatibility != ServerCompatibility::ClientOnly && n.depends_on(
                mod_id@,
            );
        let mut out: Vec<&ModNode> = Vec::new();
        let mut i: usize = 0;
        assert(deref_nodes(out@) =~= seq![]);
        while i < self.nodes.len()
            invariant
                i <= self.nodes.len(),
                keep == (|n: ModNode|
                    n.compatibility.compatibility != ServerCompatibility::ClientOnly
                        && n.depends_on(mod_id@)),
                deref_nodes(out@) == nodes_below(self.nodes@, keep, i as int),
            decreases self.nodes.len() - i,
        {
            if self.nodes[i].compatibility.compatibility != ServerCompatibility::ClientOnly
                && Self::lists(&self.nodes[i], mod_id) {
                let ghost before = out@;
                out.push(&self.nodes[i]);
                assert(deref_nodes(out@) =~= deref_nodes(before).push(self.nodes@[i as int]));
            }
            i = i + 1;
        }
        out
    }
}

/// Every listed provider is a JAR of the graph that declares the mod ID; the
/// positions rise, and every such JAR is listed.
pub proof fn lemma_providers(nodes: Seq<ModNode>, id: Seq<char>, n: int)
    requires
        0 <= n <= nodes.len(),
    ensures
        forall|k: int|
            0 <= k < providers_below(nodes, id, n).len() ==> 0 <= #[trigger] providers_below(
                nodes,
                id,
                n,
            )[k] < n && nodes[providers_below(nodes, id, n)[k]].declares(id),
        forall|i: int| 0 <= i < n && #[trigger] nodes[i].declares(id) ==> providers_below(
            nodes,
            id,
            n,
        ).contains(i),
    decreases n,
{
    if n > 0 {
        lemma_providers(nodes, id, n - 1);
        let prev = providers_below(nodes, id, n - 1);
        assert forall|i: int| 0 <= i < n && #[trigger] nodes[i].declares(id) implies providers_below(
            nodes,
            id,
            n,
        ).contains(i) by {
            if i < n - 1 {
                assert(prev.contains(i));
                let k = choose|k: int| 0 <= k < prev.len() && prev[k] == i;
                assert(providers_below(nodes, id, n)[k] == i);
            } else {
                assert(providers_below(nodes, id, n)[prev.len() as int] == i);
            }
        }
    }
}

// ---------------------------------------------------------------------
// The exclusion plan
// ---------------------------------------------------------------------

/// A conflict: a retained mod requires a mod that is left out.
#[derive(Debug, Clone)]
pub struct CompatibilityConflict {
    /// Mod ID of the mod that needs the dependency.
    pub dependent_mod_id: Option<String>,
    /// Mod ID of the excluded dependency.
    pub dependency_mod_id: String,
    /// File path of the mod that needs the dependency.
    pub dependent_path: String,
    /// File path of the excluded dependency, if known.
    pub dependency_path: Option<String>,
    /// Explanation for people.
    pub reason: String,
}

/// A required dependency that no JAR of the build declares.
#[derive(Debug, Clone)]
pub struct MissingDependency {
    /// Mod ID of the mod that needs the dependency.
    pub dependent_mod_id: Option<String>,
    /// Mod ID of the missing dependency.
    pub dependency_mod_id: String,
    /// File path of the mod that needs the dependency.
    pub dependent_path: String,
    /// Version constraint, if any.
    pub version_requirement: Option<String>,
}

/// A required dependency that different files declare. No winner is picked.
#[derive(Debug, Clone)]
pub struct AmbiguousDependency {
    /// Mod ID of the mod that needs the dependency.
    pub dependent_mod_id: Option<String>,
    /// Mod ID of the ambiguous dependency.
    pub dependency_mod_id: String,
    /// File path of the mod that needs the dependency.
    pub dependent_path: String,
    /// File paths of all JARs that declare the mod ID.
    pub provider_paths: Vec<String>,
    /// Version constraint, if any.
    pub version_requirement: Option<String>,
}

/// Which mods a server build leaves out and keeps, and what that breaks.
#[derive(Debug, Clone)]
pub struct DependencyPlan {
    /// Paths of the mods to leave out.
    pub exclude: Vec<String>,
    /// Paths of the mods to keep.
    pub retain: Vec<String>,
    /// A retained mod requires an excluded one.
    pub conflicts: Vec<CompatibilityConflict>,
    /// A retained mod requires one that is not there.
    pub missing: Vec<MissingDependency>,
    /// A retained mod requires one that different files declare.
    pub ambiguous: Vec<AmbiguousDependency>,
}

/// The text of a [`CompatibilityConflict`].
pub struct ConflictView {
    pub dependent_mod_id: Option<Seq<char>>,
    pub dependency_mod_id: Seq<char>,
    pub dependent_path: Seq<char>,
    pub dependency_path: Option<Seq<char>>,
    pub reason: Seq<char>,
}

/// The text of a [`MissingDependency`].
pub struct MissingView {
    pub dependent_mod_id: Option<Seq<char>>,
    pub dependency_mod_id: Seq<char>,
    pub dependent_path: Seq<char>,
    pub version_requirement: Option<Seq<char>>,
}

/// The text of an [`AmbiguousDependency`].
pub struct AmbiguousView {
    pub dependent_mod_id: Option<Seq<char>>,
    pub dependency_mod_id: Seq<char>,
    pub dependent_path: Seq<char>,
    pub provider_paths: Seq<Seq<char>>,
    pub version_requirement: Option<Seq<char>>,
}

impl View for CompatibilityConflict {
    type V = ConflictView;

    open spec fn view(&self) -> ConflictView {
        ConflictView {
            dependent_mod_id: text::opt_view(self.dependent_mod_id),
            dependency_mod_id: self.dependency_mod_id@,
            dependent_path: self.dependent_path@,
            dependency_path: text::opt_view(self.dependency_path),
            reason: self.reason@,
        }
    }
}

impl View for MissingDependency {
    type V = MissingView;

    open spec fn view(&self) -> MissingView {
        MissingView {
            dependent_mod_id: text::opt_view(self.dependent_mod_id),
            dependency_mod_id: self.dependency_mod_id@,
            dependent_path: self.dependent_path@,
            version_requirement: text::opt_view(self.version_requirement),
        }
    }
}

impl View for AmbiguousDependency {
    type V = AmbiguousView;

    open spec fn view(&self) -> AmbiguousView {
        AmbiguousView {
            dependent_mod_id: text::opt_view(self.dependent_mod_id),
            dependency_mod_id: self.dependency_mod_id@,
            dependent_path: self.dependent_path@,
            provider_paths: text::views(self.provider_paths@),
            version_requirement: text::opt_view(self.version_requirement),
        }
    }
}

/// What a dependency of a retained mod amounts to.
pub enum Finding {
    /// Optional, or declared by one retained file.
    Fine,
    /// Different files declare it.
    Ambiguous,
    /// Its one file is left out.
    Conflict,
    /// No JAR declares it.
    Missing,
}

/// Whether a JAR that is left out declares the mod ID.
pub open spec fn excluded_id(nodes: Seq<ModNode>, id: Seq<char>) -> bool {
    exists|i: int|
        0 <= i < nodes.len() && (#[trigger] nodes[i]).excluded() && nodes[path_index(
            nodes,
            nodes[i].path@,
            nodes.len() as int,
        )].declares(id)
}

/// The verdict on one dependency of a retained mod.
pub open spec fn finding(nodes: Seq<ModNode>, dep: NormalizedDependency) -> Finding {
    if dep.kind == DependencyKind::Optional {
        Finding::Fine
    } else if ambiguous(nodes, dep.mod_id@) {
        Finding::Ambiguous
    } else if excluded_id(nodes, dep.mod_id@) {
        Finding::Conflict
    } else if providers(nodes, dep.mod_id@).len() == 0 {
        Finding::Missing
    } else {
        Finding::Fine
    }
}

/// The paths, below `n`, of the JARs that are left out (or that stay).
pub open spec fn paths_below(nodes: Seq<ModNode>, out: bool, n: int) -> Seq<Seq<char>>
    decreases n,
{
    if n <= 0 {
        seq![]
    } else if nodes[n - 1].excluded() == out {
        paths_below(nodes, out, n - 1).push(nodes[n - 1].path@)
    } else {
        paths_below(nodes, out, n - 1)
    }
}

/// The explanation of a conflict.
pub open spec fn conflict_reason(node: ModNode, dep: NormalizedDependency) -> Seq<char> {
    "Mod "@ + text::debug_quoted(
        match node.mod_id {
            Some(id) => id@,
            None => "unknown"@,
        },
    ) + " requires dependency '"@ + dep.mod_id@
        + "' which is classified as ClientOnly/Explicit"@
}

/// The entry for a dependency on an excluded mod.
pub open spec fn conflict_entry(
    nodes: Seq<ModNode>,
    node: ModNode,
    dep: NormalizedDependency,
) -> ConflictView {
    let p = providers(nodes, dep.mod_id@);
    ConflictView {
        dependent_mod_id: node.display_id(),
        dependency_mod_id: dep.mod_id@,
        dependent_path: node.path@,
        dependency_path: if p.len() > 0 {
            Some(nodes[p.last()].path@)
        } else {
            None
        },
        reason: conflict_reason(node, dep),
    }
}

/// The entry for a dependency that is not there.
pub open spec fn missing_entry(node: ModNode, dep: NormalizedDependency) -> MissingView {
    MissingView {
        dependent_mod_id: node.display_id(),
        dependency_mod_id: dep.mod_id@,
        dependent_path: node.path@,
        version_requirement: text::opt_view(dep.version_requirement),
    }
}

/// The entry for a dependency that different files declare.
pub open spec fn ambiguous_entry(
    nodes: Seq<ModNode>,
    node: ModNode,
    dep: NormalizedDependency,
) -> AmbiguousView {
    AmbiguousView {
        dependent_mod_id: node.display_id(),
        dependency_mod_id: dep.mod_id@,
        dependent_path: node.path@,
        provider_paths: providers(nodes, dep.mod_id@).map_values(|i: int| nodes[i].path@),
        version_requirement: text::opt_view(dep.version_requirement),
    }
}

/// The conflicts among the first `d` dependencies of a node.
pub open spec fn conflicts_of(nodes: Seq<ModNode>, node: ModNode, d: int) -> Seq<ConflictView>
    decreases d,
{
    if d <= 0 {
        seq![]
    } else if finding(nodes, node.dependencies@[d - 1]) is Conflict {
        conflicts_of(nodes, node, d - 1).push(
            conflict_entry(nodes, node, node.dependencies@[d - 1]),
        )
    } else {
        conflicts_of(nodes, node, d - 1)
    }
}

/// The missing ones among the first `d` dependencies of a node.
pub open spec fn missing_of(nodes: Seq<ModNode>, node: ModNode, d: int) -> Seq<MissingView>
    decreases d,
{
    if d <= 0 {
        seq![]
    } else if finding(nodes, node.dependencies@[d - 1]) is Missing {
        missing_of(nodes, node, d - 1).push(missing_entry(node, node.dependencies@[d - 1]))
    } else {
        missing_of(nodes, node, d - 1)
    }
}

/// The ambiguous ones among the first `d` dependencies of a node.
pub open spec fn ambiguous_of(nodes: Seq<ModNode>, node: ModNode, d: int) -> Seq<AmbiguousView>
    decreases d,
{
    if d <= 0 {
        seq![]
    } else if finding(nodes, node.dependencies@[d - 1]) is Ambiguous {
        ambiguous_of(nodes, node, d - 1).push(
            ambiguous_entry(nodes, node, node.dependencies@[d - 1]),
        )
    } else {
        ambiguous_of(nodes, node, d - 1)
    }
}

/// The conflicts of the retained nodes below `n`.
pub open spec fn conflicts_below(nodes: Seq<ModNode>, n: int) -> Seq<ConflictView>
    decreases n,
{
    if n <= 0 {
        seq![]
    } else if nodes[n - 1].excluded() {
        conflicts_below(nodes, n - 1)
    } else {
        conflicts_below(nodes, n - 1) + conflicts_of(
            nodes,
            nodes[n - 1],
            nodes[n - 1].dependencies@.len() as int,
        )
    }
}

/// The missing dependencies of the retained nodes below `n`.
pub open spec fn missing_below(nodes: Seq<ModNode>, n: int) -> Seq<MissingView>
    decreases n,
{
    if n <= 0 {
        seq![]
    } else if nodes[n - 1].excluded() {
        missing_below(nodes, n - 1)
    } else {
        missing_below(nodes, n - 1) + missing_of(
            nodes,
            nodes[n - 1],
            nodes[n - 1].dependencies@.len() as int,
        )
    }
}

/// The ambiguous dependencies of the retained nodes below `n`.
pub open spec fn ambiguous_below(nodes: Seq<ModNode>, n: int) -> Seq<AmbiguousView>
    decreases n,
{
    if n <= 0 {
        seq![]
    } else if nodes[n - 1].excluded() {
        ambiguous_below(nodes, n - 1)
    } else {
        ambiguous_below(nodes, n - 1) + ambiguous_of(
            nodes,
            nodes[n - 1],
            nodes[n - 1].dependencies@.len() as int,
        )
    }
}

/// The texts of a list of conflicts.
pub open spec fn conflict_views(v: Seq<CompatibilityConflict>) -> Seq<ConflictView> {
    v.map_values(|c: CompatibilityConflict| c@)
}

/// The texts of a list of missing dependencies.
pub open spec fn missing_views(v: Seq<MissingDependency>) -> Seq<MissingView> {
    v.map_values(|c: MissingDependency| c@)
}

/// The texts of a list of ambiguous dependencies.
pub open spec fn ambiguous_views(v: Seq<AmbiguousDependency>) -> Seq<AmbiguousView> {
    v.map_values(|c: AmbiguousDependency| c@)
}

impl DependencyGraph {
    /// Whether a JAR that is left out declares the mod ID.
    fn is_excluded_id(&self, mod_id: &str) -> (r: bool)
        ensures
            r == excluded_id(self.nodes@, mod_id@),
    {
        let mut i: usize = 0;
        while i < self.nodes.len()
            invariant
                i <= self.nodes.len(),
                forall|k: int|
                    0 <= k < i && (#[trigger] self.nodes@[k]).excluded()
                        ==> !self.nodes@[path_index(
                        self.nodes@,
                        self.nodes@[k].path@,
                        self.nodes@.len() as int,
                    )].declares(mod_id@),
            decreases self.nodes.len() - i,
        {
            if self.nodes[i].compatibility.is_excluded() {
                proof {
                    lemma_path_index(self.nodes@, i as int, self.nodes@.len() as int);
                }
                match self.find_by_path(self.nodes[i].path.as_str()) {
                    Some(node) => {
                        if contains_str(&node.mod_ids, mod_id) {
                            return true;
                        }
                    },
                    None => {},
                }
            }
            i = i + 1;
        }
        false
    }

    /// The paths of all JARs that declare the mod ID.
    fn provider_paths(&self, mod_id: &str) -> (r: Vec<String>)
        ensures
            text::views(r@) == providers(self.nodes@, mod_id@).map_values(|i: int| self.nodes@[i].path@),
    {
        let all = self.find_all_by_mod_id(mod_id);
        let ghost p = providers(self.nodes@, mod_id@);
        let mut out: Vec<String> = Vec::new();
        let mut i: usize = 0;
        while i < all.len()
            invariant
                i <= all.len(),
                out@.len() == i,
                p == providers(self.nodes@, mod_id@),
                all@.len() == p.len(),
                forall|k: int| 0 <= k < all@.len() ==> *(#[trigger] all@[k]) == self.nodes@[p[k]],
                forall|k: int| 0 <= k < i ==> (#[trigger] out@[k])@ == self.nodes@[p[k]].path@,
            decreases all.len() - i,
        {
            out.push(all[i].path.clone());
            i = i + 1;
        }
        assert(text::views(out@) =~= p.map_values(|i: int| self.nodes@[i].path@));
        out
    }

    /// The plan: explicitly client-only mods are left out, all others stay. A
    /// required dependency of a retained mod is reported where its provider is
    /// left out, where it is not there, or where different files declare it; an
    /// optional one never is.
    pub fn create_plan(&self) -> (r: DependencyPlan)
        ensures
            text::views(r.exclude@) == paths_below(self.nodes@, true, self.nodes@.len() as int),
            text::views(r.retain@) == paths_below(self.nodes@, false, self.nodes@.len() as int),
            conflict_views(r.conflicts@) == conflicts_below(
                self.nodes@,
                self.nodes@.len() as int,
            ),
            missing_views(r.missing@) == missing_below(self.nodes@, self.nodes@.len() as int),
            ambiguous_views(r.ambiguous@) == ambiguous_below(
                self.nodes@,
                self.nodes@.len() as int,
            ),
    {
        let mut exclude: Vec<String> = Vec::new();
        let mut retain: Vec<String> = Vec::new();
        let mut plan_conflicts: Vec<CompatibilityConflict> = Vec::new();
        let mut plan_missing: Vec<MissingDependency> = Vec::new();
        let mut plan_ambiguous: Vec<AmbiguousDependency> = Vec::new();
        assert(text::views(exclude@) =~= seq![]);
        assert(conflict_views(plan_conflicts@) =~= seq![]);
        assert(missing_views(plan_missing@) =~= seq![]);
        assert(ambiguous_views(plan_ambiguous@) =~= seq![]);
        let mut i: usize = 0;
        while i < self.nodes.len()
            invariant
                i <= self.nodes.len(),
                text::views(exclude@) == paths_below(self.nodes@, true, i as int),
                text::views(retain@) == paths_below(self.nodes@, false, i as int),
                conflict_views(plan_conflicts@) == conflicts_below(self.nodes@, i as int),
                missing_views(plan_missing@) == missing_below(self.nodes@, i as int),
                ambiguous_views(plan_ambiguous@) == ambiguous_below(self.nodes@, i as int),
            decreases self.nodes.len() - i,
        {
            let node = &self.nodes[i];
            if node.compatibility.is_excluded() {
                let ghost before = exclude@;
                exclude.push(node.path.clone());
                assert(text::views(exclude@) =~= text::views(before).push(node.path@));
            } else {
                let ghost before = retain@;
                retain.push(node.path.clone());
                assert(text::views(retain@) =~= text::views(before).push(node.path@));
                self.check_node(
                    node,
                    &mut plan_conflicts,
                    &mut plan_missing,
                    &mut plan_ambiguous,
                );
            }
            i = i + 1;
        }
        DependencyPlan {
            exclude,
            retain,
            conflicts: plan_conflicts,
            missing: plan_missing,
            ambiguous: plan_ambiguous,
        }
    }

    /// Adds what the dependencies of a retained node amount to.
    fn check_node(
        &self,
        node: &ModNode,
        plan_conflicts: &mut Vec<CompatibilityConflict>,
        plan_missing: &mut Vec<MissingDependency>,
        plan_ambiguous: &mut Vec<AmbiguousDependency>,
    )
        ensures
            conflict_views(final(plan_conflicts)@) == conflict_views(old(plan_conflicts)@)
                + conflicts_of(self.nodes@, *node, node.dependencies@.len() as int),
            missing_views(final(plan_missing)@) == missing_views(old(plan_missing)@) + missing_of(
                self.nodes@,
                *node,
                node.dependencies@.len() as int,
            ),
            ambiguous_views(final(plan_ambiguous)@) == ambiguous_views(old(plan_ambiguous)@)
                + ambiguous_of(self.nodes@, *node, node.dependencies@.len() as int),
    {
        let mut d: usize = 0;
        while d < node.dependencies.len()
            invariant
                d <= node.dependencies.len(),
                conflict_views(plan_conflicts@) == conflict_views(old(plan_conflicts)@)
                    + conflicts_of(self.nodes@, *node, d as int),
                missing_views(plan_missing@) == missing_views(old(plan_missing)@) + missing_of(
                    self.nodes@,
                    *node,
                    d as int,
                ),
                ambiguous_views(plan_ambiguous@) == ambiguous_views(old(plan_ambiguous)@)
                    + ambiguous_of(self.nodes@, *node, d as int),
            decreases node.dependencies.len() - d,
        {
            let dep = &node.dependencies[d];
            let ghost c0 = plan_conflicts@;
            let ghost m0 = plan_missing@;
            let ghost a0 = plan_ambiguous@;
            if dep.kind == DependencyKind::Required {
                let provider = self.find_by_mod_id(dep.mod_id.as_str());
                if self.is_ambiguous(dep.mod_id.as_str()) {
                    let entry = AmbiguousDependency {
                        dependent_mod_id: node.mod_id.clone(),
                        dependency_mod_id: dep.mod_id.clone(),
                        dependent_path: node.path.clone(),
                        provider_paths: self.provider_paths(dep.mod_id.as_str()),
                        version_requirement: dep.version_requirement.clone(),
                    };
                    assert(entry@ == ambiguous_entry(self.nodes@, *node, *dep));
                    plan_ambiguous.push(entry);
                    assert(ambiguous_views(plan_ambiguous@) =~= ambiguous_views(a0).push(entry@));
                } else if self.is_excluded_id(dep.mod_id.as_str()) {
                    let dependency_path: Option<String> = match provider {
                        Some(n) => Some(n.path.clone()),
                        None => None,
                    };
                    let shown: &str = match &node.mod_id {
                        Some(id) => id.as_str(),
                        None => "unknown",
                    };
                    let mut reason = String::from_str("Mod ");
                    reason.append(debug_str(shown).as_str());
                    reason.append(" requires dependency '");
                    reason.append(dep.mod_id.as_str());
                    reason.append("' which is classified as ClientOnly/Explicit");
                    let entry = CompatibilityConflict {
                        dependent_mod_id: node.mod_id.clone(),
                        dependency_mod_id: dep.mod_id.clone(),
                        dependent_path: node.path.clone(),
                        dependency_path,
                        reason,
                    };
                    assert(entry@ == conflict_entry(self.nodes@, *node, *dep));
                    plan_conflicts.push(entry);
                    assert(conflict_views(plan_conflicts@) =~= conflict_views(c0).push(entry@));
                } else if self.find_all_by_mod_id(dep.mod_id.as_str()).len() == 0 {
                    let entry = MissingDependency {
                        dependent_mod_id: node.mod_id.clone(),
                        dependency_mod_id: dep.mod_id.clone(),
                        dependent_path: node.path.clone(),
                        version_requirement: dep.version_requirement.clone(),
                    };
                    assert(entry@ == missing_entry(*node, *dep));
                    plan_missing.push(entry);
                    assert(missing_views(plan_missing@) =~= missing_views(m0).push(entry@));
                }
            }
            d = d + 1;
            proof {
                let f = finding(self.nodes@, *dep);
                assert(conflict_views(plan_conflicts@) =~= conflict_views(old(plan_conflicts)@)
                    + conflicts_of(self.nodes@, *node, d as int));
                assert(missing_views(plan_missing@) =~= missing_views(old(plan_missing)@)
                    + missing_of(self.nodes@, *node, d as int));
                assert(ambiguous_views(plan_ambiguous@) =~= ambiguous_views(old(plan_ambiguous)@)
                    + ambiguous_of(self.nodes@, *node, d as int));
            }
        }
    }
}

/// A JAR of the graph is found under its own path.
pub proof fn lemma_path_index(nodes: Seq<ModNode>, i: int, n: int)
    requires
        0 <= i < n <= nodes.len(),
    ensures
        i <= path_index(nodes, nodes[i].path@, n) < n,
        nodes[path_index(nodes, nodes[i].path@, n)].path@ == nodes[i].path@,
    decreases n,
{
    if nodes[n - 1].path@ != nodes[i].path@ {
        lemma_path_index(nodes, i, n - 1);
    }
}

// ---------------------------------------------------------------------
// Laws of the plan
// ---------------------------------------------------------------------

/// A mod ID of an excluded JAR has a provider.
proof fn lemma_excluded_id_has_provider(nodes: Seq<ModNode>, id: Seq<char>)
    requires
        excluded_id(nodes, id),
    ensures
        providers(nodes, id).len() >= 1,
{
    let i = choose|i: int|
        0 <= i < nodes.len() && (#[trigger] nodes[i]).excluded() && nodes[path_index(
            nodes,
            nodes[i].path@,
            nodes.len() as int,
        )].declares(id);
    lemma_path_index(nodes, i, nodes.len() as int);
    lemma_providers(nodes, id, nodes.len() as int);
    let j = path_index(nodes, nodes[i].path@, nodes.len() as int);
    assert(nodes[j].declares(id));
    assert(providers(nodes, id).contains(j));
}

/// Every JAR is in exactly one of the two lists of the plan: what is left out
/// and what stays have together as many entries as there are JARs, and each
/// JAR's path stands in the list that its classification names.
pub proof fn law_plan_partitions(nodes: Seq<ModNode>, n: int)
    requires
        0 <= n <= nodes.len(),
    ensures
        paths_below(nodes, true, n).len() + paths_below(nodes, false, n).len() == n,
        forall|i: int|
            0 <= i < n ==> paths_below(nodes, (#[trigger] nodes[i]).excluded(), n).contains(
                nodes[i].path@,
            ),
    decreases n,
{
    if n > 0 {
        law_plan_partitions(nodes, n - 1);
        assert forall|i: int| 0 <= i < n implies paths_below(
            nodes,
            (#[trigger] nodes[i]).excluded(),
            n,
        ).contains(nodes[i].path@) by {
            let now = paths_below(nodes, nodes[i].excluded(), n);
            if i < n - 1 {
                let prev = paths_below(nodes, nodes[i].excluded(), n - 1);
                assert(prev.contains(nodes[i].path@));
                let k = choose|k: int| 0 <= k < prev.len() && prev[k] == nodes[i].path@;
                assert(now[k] == nodes[i].path@);
            } else {
                assert(now.last() == nodes[i].path@);
            }
        }
    }
}

/// Whether a retained JAR with this path requires the mod ID.
pub open spec fn needed_by(nodes: Seq<ModNode>, path: Seq<char>, id: Seq<char>) -> bool {
    exists|i: int|
        0 <= i < nodes.len() && !(#[trigger] nodes[i]).excluded() && nodes[i].path@ == path
            && nodes[i].requires_mod(id)
}

proof fn lemma_missing_of(nodes: Seq<ModNode>, node: ModNode, d: int)
    requires
        0 <= d <= node.dependencies@.len(),
    ensures
        forall|k: int|
            0 <= k < missing_of(nodes, node, d).len() ==> {
                let m = #[trigger] missing_of(nodes, node, d)[k];
                providers(nodes, m.dependency_mod_id).len() == 0 && m.dependent_path == node.path@
                    && node.requires_mod(m.dependency_mod_id)
            },
    decreases d,
{
    if d > 0 {
        lemma_missing_of(nodes, node, d - 1);
    }
}

/// What the plan calls missing is required by a retained mod, and no JAR of
/// the build declares it.
pub proof fn law_missing_is_absent(nodes: Seq<ModNode>, n: int)
    requires
        0 <= n <= nodes.len(),
    ensures
        forall|k: int|
            0 <= k < missing_below(nodes, n).len() ==> {
                let m = #[trigger] missing_below(nodes, n)[k];
                providers(nodes, m.dependency_mod_id).len() == 0 && needed_by(
                    nodes,
                    m.dependent_path,
                    m.dependency_mod_id,
                )
            },
    decreases n,
{
    if n > 0 {
        law_missing_is_absent(nodes, n - 1);
        lemma_missing_of(nodes, nodes[n - 1], nodes[n - 1].dependencies@.len() as int);
    }
}

/// Whether a path is that of the one file which declares a mod ID.
pub open spec fn one_file(nodes: Seq<ModNode>, id: Seq<char>, path: Option<Seq<char>>) -> bool {
    &&& path is Some
    &&& exists|i: int| 0 <= i < nodes.len() && #[trigger] nodes[i].declares(id)
    &&& forall|i: int|
        0 <= i < nodes.len() && #[trigger] nodes[i].declares(id) ==> nodes[i].path@ == path->0
}

proof fn lemma_conflicts_of(nodes: Seq<ModNode>, node: ModNode, d: int)
    requires
        0 <= d <= node.dependencies@.len(),
    ensures
        forall|k: int|
            0 <= k < conflicts_of(nodes, node, d).len() ==> {
                let c = #[trigger] conflicts_of(nodes, node, d)[k];
                one_file(nodes, c.dependency_mod_id, c.dependency_path) && excluded_id(
                    nodes,
                    c.dependency_mod_id,
                ) && c.dependent_path == node.path@ && node.requires_mod(c.dependency_mod_id)
            },
    decreases d,
{
    if d > 0 {
        lemma_conflicts_of(nodes, node, d - 1);
        let dep = node.dependencies@[d - 1];
        if finding(nodes, dep) is Conflict {
            lemma_excluded_id_has_provider(nodes, dep.mod_id@);
            lemma_providers(nodes, dep.mod_id@, nodes.len() as int);
            let p = providers(nodes, dep.mod_id@);
            assert(nodes[p[p.len() - 1]].declares(dep.mod_id@));
        }
    }
}

/// What the plan calls a conflict is required by a retained mod, exactly one
/// file declares it, that file's path is given, and the mod ID is one that a JAR
/// left out declares.
pub proof fn law_conflict_has_one_provider(nodes: Seq<ModNode>, n: int)
    requires
        0 <= n <= nodes.len(),
    ensures
        forall|k: int|
            0 <= k < conflicts_below(nodes, n).len() ==> {
                let c = #[trigger] conflicts_below(nodes, n)[k];
                one_file(nodes, c.dependency_mod_id, c.dependency_path) && excluded_id(
                    nodes,
                    c.dependency_mod_id,
                ) && needed_by(nodes, c.dependent_path, c.dependency_mod_id)
            },
    decreases n,
{
    if n > 0 {
        law_conflict_has_one_provider(nodes, n - 1);
        lemma_conflicts_of(nodes, nodes[n - 1], nodes[n - 1].dependencies@.len() as int);
    }
}

proof fn lemma_ambiguous_of(nodes: Seq<ModNode>, node: ModNode, d: int)
    requires
        0 <= d <= node.dependencies@.len(),
    ensures
        forall|k: int|
            0 <= k < ambiguous_of(nodes, node, d).len() ==> {
                let a = #[trigger] ambiguous_of(nodes, node, d)[k];
                ambiguous(nodes, a.dependency_mod_id) && a.provider_paths == providers(
                    nodes,
                    a.dependency_mod_id,
                ).map_values(|i: int| nodes[i].path@) && a.dependent_path == node.path@
                    && node.requires_mod(a.dependency_mod_id)
            },
    decreases d,
{
    if d > 0 {
        lemma_ambiguous_of(nodes, node, d - 1);
    }
}

/// What the plan calls ambiguous is required by a retained mod, different files
/// declare it, and all of them are listed: none is picked.
pub proof fn law_ambiguous_picks_none(nodes: Seq<ModNode>, n: int)
    requires
        0 <= n <= nodes.len(),
    ensures
        forall|k: int|
            0 <= k < ambiguous_below(nodes, n).len() ==> {
                let a = #[trigger] ambiguous_below(nodes, n)[k];
                ambiguous(nodes, a.dependency_mod_id) && a.provider_paths == providers(
                    nodes,
                    a.dependency_mod_id,
                ).map_values(|i: int| nodes[i].path@) && needed_by(
                    nodes,
                    a.dependent_path,
                    a.dependency_mod_id,
                )
            },
    decreases n,
{
    if n > 0 {
        law_ambiguous_picks_none(nodes, n - 1);
        lemma_ambiguous_of(nodes, nodes[n - 1], nodes[n - 1].dependencies@.len() as int);
    }
}

/// No mod ID is in two of the three lists of problems at once.
pub proof fn law_problem_lists_disjoint(nodes: Seq<ModNode>, id: Seq<char>)
    ensures
        ({
            let n = nodes.len() as int;
            let in_missing = exists|k: int|
                0 <= k < missing_below(nodes, n).len() && (#[trigger] missing_below(
                    nodes,
                    n,
                )[k]).dependency_mod_id == id;
            let in_conflicts = exists|k: int|
                0 <= k < conflicts_below(nodes, n).len() && (#[trigger] conflicts_below(
                    nodes,
                    n,
                )[k]).dependency_mod_id == id;
            let in_ambiguous = exists|k: int|
                0 <= k < ambiguous_below(nodes, n).len() && (#[trigger] ambiguous_below(
                    nodes,
                    n,
                )[k]).dependency_mod_id == id;
            !(in_missing && in_conflicts) && !(in_missing && in_ambiguous) && !(in_conflicts
                && in_ambiguous)
        }),
{
    let n = nodes.len() as int;
    law_missing_is_absent(nodes, n);
    law_conflict_has_one_provider(nodes, n);
    law_ambiguous_picks_none(nodes, n);
    lemma_providers(nodes, id, n);
}

/// A mod ID that one file alone declares is not ambiguous, however many mod IDs
/// that file declares and however often it was given.
pub proof fn law_one_file_is_not_ambiguous(nodes: Seq<ModNode>, id: Seq<char>, path: Seq<char>)
    requires
        forall|i: int|
            0 <= i < nodes.len() && #[trigger] nodes[i].declares(id) ==> nodes[i].path@ == path,
    ensures
        !ambiguous(nodes, id),
{
}

proof fn lemma_missing_of_complete(nodes: Seq<ModNode>, node: ModNode, d: int, k: int)
    requires
        0 <= k < d <= node.dependencies@.len(),
        finding(nodes, node.dependencies@[k]) is Missing,
    ensures
        missing_of(nodes, node, d).contains(missing_entry(node, node.dependencies@[k])),
    decreases d,
{
    let e = missing_entry(node, node.dependencies@[k]);
    if k == d - 1 {
        assert(missing_of(nodes, node, d).last() == e);
    } else {
        lemma_missing_of_complete(nodes, node, d - 1, k);
        let prev = missing_of(nodes, node, d - 1);
        let j = choose|j: int| 0 <= j < prev.len() && prev[j] == e;
        assert(missing_of(nodes, node, d)[j] == e);
    }
}

/// Every required dependency of a retained mod that no JAR declares is
/// reported as missing.
pub proof fn law_missing_complete(nodes: Seq<ModNode>, n: int, i: int, k: int)
    requires
        0 <= i < n <= nodes.len(),
        !nodes[i].excluded(),
        0 <= k < nodes[i].dependencies@.len(),
        nodes[i].dependencies@[k].kind == DependencyKind::Required,
        providers(nodes, nodes[i].dependencies@[k].mod_id@).len() == 0,
    ensures
        missing_below(nodes, n).contains(missing_entry(nodes[i], nodes[i].dependencies@[k])),
    decreases n,
{
    let dep = nodes[i].dependencies@[k];
    let e = missing_entry(nodes[i], dep);
    lemma_providers(nodes, dep.mod_id@, nodes.len() as int);
    if excluded_id(nodes, dep.mod_id@) {
        lemma_excluded_id_has_provider(nodes, dep.mod_id@);
    }
    if i == n - 1 {
        lemma_missing_of_complete(nodes, nodes[i], nodes[i].dependencies@.len() as int, k);
        let part = missing_of(nodes, nodes[i], nodes[i].dependencies@.len() as int);
        let j = choose|j: int| 0 <= j < part.len() && part[j] == e;
        let prev = missing_below(nodes, n - 1);
        assert((prev + part)[prev.len() + j] == e);
    } else {
        law_missing_complete(nodes, n - 1, i, k);
        let prev = missing_below(nodes, n - 1);
        let j = choose|j: int| 0 <= j < prev.len() && prev[j] == e;
        assert(missing_below(nodes, n)[j] == e);
    }
}

/// A plan is made from the classifications alone: two graphs whose JARs have
/// the same paths and classifications leave out the same JARs, whatever their
/// dependencies are.
pub proof fn law_classification_does_not_propagate(a: Seq<ModNode>, b: Seq<ModNode>, out: bool, n: int)
    requires
        a.len() == b.len(),
        0 <= n <= a.len(),
        forall|i: int|
            0 <= i < a.len() ==> (#[trigger] a[i]).path@ == b[i].path@ && a[i].compatibility
                == b[i].compatibility,
    ensures
        paths_below(a, out, n) == paths_below(b, out, n),
    decreases n,
{
    if n > 0 {
        law_classification_does_not_propagate(a, b, out, n - 1);
        assert(a[n - 1].path@ == b[n - 1].path@);
    }
}

// ---------------------------------------------------------------------
// What the plan says of each JAR and of each dependency
// ---------------------------------------------------------------------

/// Whether a JAR's own metadata says that it runs on clients only.
pub open spec fn marked_client_only(n: ModNode) -> bool {
    n.compatibility.compatibility == ServerCompatibility::ClientOnly && n.compatibility.confidence
        == CompatibilityConfidence::Explicit
}

/// Whether dependency `k` of JAR `i` is one that the plan must look at: the JAR
/// stays, and needs what it names.
pub open spec fn needs(nodes: Seq<ModNode>, i: int, k: int) -> bool {
    &&& 0 <= i < nodes.len()
    &&& !marked_client_only(nodes[i])
    &&& 0 <= k < nodes[i].dependencies@.len()
    &&& nodes[i].dependencies@[k].kind == DependencyKind::Required
}

/// Whether a JAR lists a mod ID among those that it declares.
pub open spec fn lists_id(n: ModNode, id: Seq<char>) -> bool {
    exists|m: int| 0 <= m < n.mod_ids@.len() && (#[trigger] n.mod_ids@[m])@ == id
}

/// Whether a path is that of a JAR that is so marked, or is not.
pub open spec fn path_of_some(nodes: Seq<ModNode>, marked: bool, path: Seq<char>) -> bool {
    exists|i: int|
        0 <= i < nodes.len() && marked_client_only(#[trigger] nodes[i]) == marked && nodes[i].path@
            == path
}

/// A JAR is left out if and only if its own metadata says that it runs on
/// clients only: a JAR so marked is listed among those to leave out, any other
/// among those to keep, and the two lists have no other paths. What depends on
/// what plays no part.
pub proof fn law_only_marked_jars_are_left_out(nodes: Seq<ModNode>)
    ensures
        ({
            let exclude = paths_below(nodes, true, nodes.len() as int);
            let retain = paths_below(nodes, false, nodes.len() as int);
            &&& exclude.len() + retain.len() == nodes.len()
            &&& forall|i: int|
                0 <= i < nodes.len() ==> if marked_client_only(#[trigger] nodes[i]) {
                    exclude.contains(nodes[i].path@)
                } else {
                    retain.contains(nodes[i].path@)
                }
            &&& forall|k: int|
                0 <= k < exclude.len() ==> path_of_some(nodes, true, #[trigger] exclude[k])
            &&& forall|k: int|
                0 <= k < retain.len() ==> path_of_some(nodes, false, #[trigger] retain[k])
        }),
{
    law_plan_partitions(nodes, nodes.len() as int);
    lemma_listed_path(nodes, true, nodes.len() as int);
    lemma_listed_path(nodes, false, nodes.len() as int);
    let exclude = paths_below(nodes, true, nodes.len() as int);
    let retain = paths_below(nodes, false, nodes.len() as int);
    assert forall|i: int| 0 <= i < nodes.len() implies if marked_client_only(#[trigger] nodes[i]) {
        exclude.contains(nodes[i].path@)
    } else {
        retain.contains(nodes[i].path@)
    } by {
        assert(nodes[i].excluded() == marked_client_only(nodes[i]));
        assert(paths_below(nodes, nodes[i].excluded(), nodes.len() as int).contains(
            nodes[i].path@,
        ));
    }
}

proof fn lemma_listed_path(nodes: Seq<ModNode>, out: bool, n: int)
    requires
        0 <= n <= nodes.len(),
    ensures
        forall|k: int|
            0 <= k < paths_below(nodes, out, n).len() ==> path_of_some(
                nodes,
                out,
                #[trigger] paths_below(nodes, out, n)[k],
            ),
    decreases n,
{
    if n > 0 {
        lemma_listed_path(nodes, out, n - 1);
        let prev = paths_below(nodes, out, n - 1);
        let now = paths_below(nodes, out, n);
        assert forall|k: int| 0 <= k < now.len() implies path_of_some(
            nodes,
            out,
            #[trigger] now[k],
        ) by {
            if k < prev.len() {
                assert(now[k] == prev[k]);
            } else {
                assert(nodes[n - 1].path@ == now[k]);
            }
        }
    }
}

/// The JARs to leave out, and those to keep, are listed in the order in which
/// they were given.
pub proof fn law_lists_keep_the_order(nodes: Seq<ModNode>, i: int, j: int)
    requires
        0 <= i < j < nodes.len(),
        marked_client_only(nodes[i]) == marked_client_only(nodes[j]),
    ensures
        ({
            let list = paths_below(nodes, marked_client_only(nodes[i]), nodes.len() as int);
            exists|a: int, b: int|
                0 <= a < b < list.len() && #[trigger] list[a] == nodes[i].path@
                    && #[trigger] list[b] == nodes[j].path@
        }),
{
    let out = marked_client_only(nodes[i]);
    let n = nodes.len() as int;
    lemma_path_place(nodes, out, n, i);
    lemma_path_place(nodes, out, n, j);
    lemma_path_place(nodes, out, j, i);
    let list = paths_below(nodes, out, n);
    let a = paths_below(nodes, out, i).len() as int;
    let b = paths_below(nodes, out, j).len() as int;
    assert(list[a] == nodes[i].path@ && list[b] == nodes[j].path@);
}

proof fn lemma_path_place(nodes: Seq<ModNode>, out: bool, n: int, i: int)
    requires
        0 <= i < n <= nodes.len(),
        marked_client_only(nodes[i]) == out,
    ensures
        paths_below(nodes, out, i).len() < paths_below(nodes, out, n).len(),
        paths_below(nodes, out, n)[paths_below(nodes, out, i).len() as int] == nodes[i].path@,
    decreases n,
{
    if i < n - 1 {
        lemma_path_place(nodes, out, n - 1, i);
    }
}

/// A mod ID that a JAR lists is one that it declares, and no other is.
proof fn lemma_lists_id(n: ModNode, id: Seq<char>)
    ensures
        n.declares(id) == lists_id(n, id),
{
}

proof fn lemma_conflicts_place(nodes: Seq<ModNode>, n: int, i: int, k: int)
    requires
        0 <= i < n <= nodes.len(),
        needs(nodes, i, k),
        finding(nodes, nodes[i].dependencies@[k]) is Conflict,
    ensures
        ({
            let at = conflicts_below(nodes, i).len() + conflicts_of(nodes, nodes[i], k).len();
            at < conflicts_below(nodes, n).len() && conflicts_below(nodes, n)[at as int] == conflict_entry(nodes, nodes[i], nodes[i].dependencies@[k])
        }),
    decreases n,
{
    let of = conflicts_of(nodes, nodes[i], nodes[i].dependencies@.len() as int);
    if i == n - 1 {
        lemma_conflicts_of_place(nodes, nodes[i], nodes[i].dependencies@.len() as int, k);
        let prev = conflicts_below(nodes, i);
        assert((prev + of)[prev.len() as int + conflicts_of(nodes, nodes[i], k).len()] == of[conflicts_of(
            nodes,
            nodes[i],
            k,
        ).len() as int]);
    } else {
        lemma_conflicts_place(nodes, n - 1, i, k);
    }
}

proof fn lemma_conflicts_of_place(nodes: Seq<ModNode>, node: ModNode, d: int, k: int)
    requires
        0 <= k < d <= node.dependencies@.len(),
        finding(nodes, node.dependencies@[k]) is Conflict,
    ensures
        conflicts_of(nodes, node, k).len() < conflicts_of(nodes, node, d).len(),
        conflicts_of(nodes, node, d)[conflicts_of(nodes, node, k).len() as int] == conflict_entry(nodes, node, node.dependencies@[k]),
    decreases d,
{
    if k < d - 1 {
        lemma_conflicts_of_place(nodes, node, d - 1, k);
    }
}

proof fn lemma_ambiguous_place(nodes: Seq<ModNode>, n: int, i: int, k: int)
    requires
        0 <= i < n <= nodes.len(),
        needs(nodes, i, k),
        finding(nodes, nodes[i].dependencies@[k]) is Ambiguous,
    ensures
        ({
            let at = ambiguous_below(nodes, i).len() + ambiguous_of(nodes, nodes[i], k).len();
            at < ambiguous_below(nodes, n).len() && ambiguous_below(nodes, n)[at as int] == ambiguous_entry(nodes, nodes[i], nodes[i].dependencies@[k])
        }),
    decreases n,
{
    let of = ambiguous_of(nodes, nodes[i], nodes[i].dependencies@.len() as int);
    if i == n - 1 {
        lemma_ambiguous_of_place(nodes, nodes[i], nodes[i].dependencies@.len() as int, k);
        let prev = ambiguous_below(nodes, i);
        assert((prev + of)[prev.len() as int + ambiguous_of(nodes, nodes[i], k).len()] == of[ambiguous_of(
            nodes,
            nodes[i],
            k,
        ).len() as int]);
    } else {
        lemma_ambiguous_place(nodes, n - 1, i, k);
    }
}

proof fn lemma_ambiguous_of_place(nodes: Seq<ModNode>, node: ModNode, d: int, k: int)
    requires
        0 <= k < d <= node.dependencies@.len(),
        finding(nodes, node.dependencies@[k]) is Ambiguous,
    ensures
        ambiguous_of(nodes, node, k).len() < ambiguous_of(nodes, node, d).len(),
        ambiguous_of(nodes, node, d)[ambiguous_of(nodes, node, k).len() as int] == ambiguous_entry(nodes, node, node.dependencies@[k]),
    decreases d,
{
    if k < d - 1 {
        lemma_ambiguous_of_place(nodes, node, d - 1, k);
    }
}

proof fn lemma_missing_place(nodes: Seq<ModNode>, n: int, i: int, k: int)
    requires
        0 <= i < n <= nodes.len(),
        needs(nodes, i, k),
        finding(nodes, nodes[i].dependencies@[k]) is Missing,
    ensures
        ({
            let at = missing_below(nodes, i).len() + missing_of(nodes, nodes[i], k).len();
            at < missing_below(nodes, n).len() && missing_below(nodes, n)[at as int] == missing_entry(nodes[i], nodes[i].dependencies@[k])
        }),
    decreases n,
{
    let of = missing_of(nodes, nodes[i], nodes[i].dependencies@.len() as int);
    if i == n - 1 {
        lemma_missing_of_place(nodes, nodes[i], nodes[i].dependencies@.len() as int, k);
        let prev = missing_below(nodes, i);
        assert((prev + of)[prev.len() as int + missing_of(nodes, nodes[i], k).len()] == of[missing_of(
            nodes,
            nodes[i],
            k,
        ).len() as int]);
    } else {
        lemma_missing_place(nodes, n - 1, i, k);
    }
}

proof fn lemma_missing_of_place(nodes: Seq<ModNode>, node: ModNode, d: int, k: int)
    requires
        0 <= k < d <= node.dependencies@.len(),
        finding(nodes, node.dependencies@[k]) is Missing,
    ensures
        missing_of(nodes, node, k).len() < missing_of(nodes, node, d).len(),
        missing_of(nodes, node, d)[missing_of(nodes, node, k).len() as int] == missing_entry(node, node.dependencies@[k]),
    decreases d,
{
    if k < d - 1 {
        lemma_missing_of_place(nodes, node, d - 1, k);
    }
}

/// Whether an entry of the plan is about dependency `k` of JAR `i`.
pub open spec fn conflict_about(c: ConflictView, nodes: Seq<ModNode>, i: int, k: int) -> bool {
    &&& c.dependent_path == nodes[i].path@
    &&& c.dependent_mod_id == text::opt_view(nodes[i].mod_id)
    &&& c.dependency_mod_id == nodes[i].dependencies@[k].mod_id@
}

/// Whether an entry of the plan is about dependency `k` of JAR `i`.
pub open spec fn missing_about(c: MissingView, nodes: Seq<ModNode>, i: int, k: int) -> bool {
    &&& c.dependent_path == nodes[i].path@
    &&& c.dependent_mod_id == text::opt_view(nodes[i].mod_id)
    &&& c.dependency_mod_id == nodes[i].dependencies@[k].mod_id@
    &&& c.version_requirement == text::opt_view(nodes[i].dependencies@[k].version_requirement)
}

/// Whether an entry of the plan is about dependency `k` of JAR `i`.
pub open spec fn ambiguous_about(c: AmbiguousView, nodes: Seq<ModNode>, i: int, k: int) -> bool {
    &&& c.dependent_path == nodes[i].path@
    &&& c.dependent_mod_id == text::opt_view(nodes[i].mod_id)
    &&& c.dependency_mod_id == nodes[i].dependencies@[k].mod_id@
    &&& c.version_requirement == text::opt_view(nodes[i].dependencies@[k].version_requirement)
}

/// Whether an entry is about some required dependency of a mod that stays.
pub open spec fn some_conflict(c: ConflictView, nodes: Seq<ModNode>) -> bool {
    exists|i: int, k: int| #[trigger] needs(nodes, i, k) && conflict_about(c, nodes, i, k)
}

/// Whether an entry is about some required dependency of a mod that stays.
pub open spec fn some_missing(c: MissingView, nodes: Seq<ModNode>) -> bool {
    exists|i: int, k: int| #[trigger] needs(nodes, i, k) && missing_about(c, nodes, i, k)
}

/// Whether an entry is about some required dependency of a mod that stays.
pub open spec fn some_ambiguous(c: AmbiguousView, nodes: Seq<ModNode>) -> bool {
    exists|i: int, k: int| #[trigger] needs(nodes, i, k) && ambiguous_about(c, nodes, i, k)
}

/// Every required dependency of a mod that stays is reported as a conflict where
/// a JAR that is left out declares it and no JAR at another path does: each of
/// them, however many a mod has, with the path of the JAR that is left out.
pub proof fn law_every_conflict_is_reported(nodes: Seq<ModNode>, i: int, k: int, j: int)
    requires
        needs(nodes, i, k),
        0 <= j < nodes.len(),
        marked_client_only(nodes[j]),
        forall|x: int|
            0 <= x < nodes.len() ==> lists_id(
                #[trigger] nodes[x],
                nodes[i].dependencies@[k].mod_id@,
            ) == (nodes[x].path@ == nodes[j].path@),
    ensures
        exists|c: int|
            0 <= c < conflicts_below(nodes, nodes.len() as int).len() && conflict_about(
                #[trigger] conflicts_below(nodes, nodes.len() as int)[c],
                nodes,
                i,
                k,
            ) && conflicts_below(nodes, nodes.len() as int)[c].dependency_path == Some(
                nodes[j].path@,
            ),
{
    let n = nodes.len() as int;
    let id = nodes[i].dependencies@[k].mod_id@;
    assert forall|x: int| 0 <= x < n implies (#[trigger] nodes[x]).declares(id) == (nodes[x].path@
        == nodes[j].path@) by {
        lemma_lists_id(nodes[x], id);
    }
    lemma_path_index(nodes, j, n);
    assert(nodes[j].excluded());
    assert(excluded_id(nodes, id));
    lemma_excluded_id_has_provider(nodes, id);
    lemma_providers(nodes, id, n);
    let p = providers(nodes, id);
    assert(nodes[p[p.len() - 1]].declares(id));
    lemma_conflicts_place(nodes, n, i, k);
    let at = conflicts_below(nodes, i).len() + conflicts_of(nodes, nodes[i], k).len();
    assert(conflict_about(conflicts_below(nodes, n)[at as int], nodes, i, k));
}

/// Every required dependency of a mod that stays is reported as ambiguous where
/// JARs at two paths declare it, with both paths among those that are listed.
pub proof fn law_every_ambiguity_is_reported(nodes: Seq<ModNode>, i: int, k: int, a: int, b: int)
    requires
        needs(nodes, i, k),
        0 <= a < nodes.len(),
        0 <= b < nodes.len(),
        nodes[a].path@ != nodes[b].path@,
        lists_id(nodes[a], nodes[i].dependencies@[k].mod_id@),
        lists_id(nodes[b], nodes[i].dependencies@[k].mod_id@),
    ensures
        exists|c: int|
            0 <= c < ambiguous_below(nodes, nodes.len() as int).len() && ambiguous_about(
                #[trigger] ambiguous_below(nodes, nodes.len() as int)[c],
                nodes,
                i,
                k,
            ) && ambiguous_below(nodes, nodes.len() as int)[c].provider_paths.contains(
                nodes[a].path@,
            ) && ambiguous_below(nodes, nodes.len() as int)[c].provider_paths.contains(
                nodes[b].path@,
            ),
{
    let n = nodes.len() as int;
    let id = nodes[i].dependencies@[k].mod_id@;
    lemma_lists_id(nodes[a], id);
    lemma_lists_id(nodes[b], id);
    assert(nodes[a].declares(id) && nodes[b].declares(id));
    lemma_providers(nodes, id, n);
    let p = providers(nodes, id);
    let paths = p.map_values(|x: int| nodes[x].path@);
    let x = choose|x: int| 0 <= x < p.len() && p[x] == a;
    let y = choose|y: int| 0 <= y < p.len() && p[y] == b;
    assert(paths[x] == nodes[a].path@ && paths[y] == nodes[b].path@);
    lemma_ambiguous_place(nodes, n, i, k);
    let at = ambiguous_below(nodes, i).len() + ambiguous_of(nodes, nodes[i], k).len();
    assert(ambiguous_about(ambiguous_below(nodes, n)[at as int], nodes, i, k));
}

/// Every required dependency of a mod that stays is reported as missing where no
/// JAR declares it.
pub proof fn law_every_lack_is_reported(nodes: Seq<ModNode>, i: int, k: int)
    requires
        needs(nodes, i, k),
        forall|x: int|
            0 <= x < nodes.len() ==> !lists_id(
                #[trigger] nodes[x],
                nodes[i].dependencies@[k].mod_id@,
            ),
    ensures
        exists|c: int|
            0 <= c < missing_below(nodes, nodes.len() as int).len() && missing_about(
                #[trigger] missing_below(nodes, nodes.len() as int)[c],
                nodes,
                i,
                k,
            ),
{
    let n = nodes.len() as int;
    let id = nodes[i].dependencies@[k].mod_id@;
    assert forall|x: int| 0 <= x < n implies !(#[trigger] nodes[x]).declares(id) by {
        lemma_lists_id(nodes[x], id);
    }
    lemma_providers(nodes, id, n);
    let p = providers(nodes, id);
    if p.len() > 0 {
        assert(nodes[p[0]].declares(id));
    }
    if excluded_id(nodes, id) {
        lemma_excluded_id_has_provider(nodes, id);
    }
    lemma_missing_place(nodes, n, i, k);
    let at = missing_below(nodes, i).len() + missing_of(nodes, nodes[i], k).len();
    assert(missing_about(missing_below(nodes, n)[at as int], nodes, i, k));
}

/// What stands where in the lists of problems: nothing else than required
/// dependencies of mods that stay.
proof fn lemma_problem_sources(nodes: Seq<ModNode>, n: int)
    requires
        0 <= n <= nodes.len(),
    ensures
        forall|c: int|
            0 <= c < conflicts_below(nodes, n).len() ==> some_conflict(
                #[trigger] conflicts_below(nodes, n)[c],
                nodes,
            ),
        forall|c: int|
            0 <= c < missing_below(nodes, n).len() ==> some_missing(
                #[trigger] missing_below(nodes, n)[c],
                nodes,
            ),
        forall|c: int|
            0 <= c < ambiguous_below(nodes, n).len() ==> some_ambiguous(
                #[trigger] ambiguous_below(nodes, n)[c],
                nodes,
            ),
    decreases n,
{
    if n > 0 {
        lemma_problem_sources(nodes, n - 1);
        if !nodes[n - 1].excluded() {
            lemma_node_sources(nodes, n - 1, nodes[n - 1].dependencies@.len() as int);
            let d = nodes[n - 1].dependencies@.len() as int;
            let c0 = conflicts_below(nodes, n - 1);
            let m0 = missing_below(nodes, n - 1);
            let a0 = ambiguous_below(nodes, n - 1);
            assert forall|c: int| 0 <= c < conflicts_below(nodes, n).len() implies some_conflict(
                #[trigger] conflicts_below(nodes, n)[c],
                nodes,
            ) by {
                if c < c0.len() {
                    assert(conflicts_below(nodes, n)[c] == c0[c]);
                } else {
                    assert(conflicts_below(nodes, n)[c] == conflicts_of(nodes, nodes[n - 1], d)[c
                        - c0.len()]);
                }
            }
            assert forall|c: int| 0 <= c < missing_below(nodes, n).len() implies some_missing(
                #[trigger] missing_below(nodes, n)[c],
                nodes,
            ) by {
                if c < m0.len() {
                    assert(missing_below(nodes, n)[c] == m0[c]);
                } else {
                    assert(missing_below(nodes, n)[c] == missing_of(nodes, nodes[n - 1], d)[c
                        - m0.len()]);
                }
            }
            assert forall|c: int| 0 <= c < ambiguous_below(nodes, n).len() implies some_ambiguous(
                #[trigger] ambiguous_below(nodes, n)[c],
                nodes,
            ) by {
                if c < a0.len() {
                    assert(ambiguous_below(nodes, n)[c] == a0[c]);
                } else {
                    assert(ambiguous_below(nodes, n)[c] == ambiguous_of(nodes, nodes[n - 1], d)[c
                        - a0.len()]);
                }
            }
        } else {
            assert(conflicts_below(nodes, n) == conflicts_below(nodes, n - 1));
            assert(missing_below(nodes, n) == missing_below(nodes, n - 1));
            assert(ambiguous_below(nodes, n) == ambiguous_below(nodes, n - 1));
        }
    } else {
        assert(conflicts_below(nodes, n).len() == 0);
        assert(missing_below(nodes, n).len() == 0);
        assert(ambiguous_below(nodes, n).len() == 0);
    }
}

proof fn lemma_node_sources(nodes: Seq<ModNode>, i: int, d: int)
    requires
        0 <= i < nodes.len(),
        !nodes[i].excluded(),
        0 <= d <= nodes[i].dependencies@.len(),
    ensures
        forall|c: int|
            0 <= c < conflicts_of(nodes, nodes[i], d).len() ==> some_conflict(
                #[trigger] conflicts_of(nodes, nodes[i], d)[c],
                nodes,
            ),
        forall|c: int|
            0 <= c < missing_of(nodes, nodes[i], d).len() ==> some_missing(
                #[trigger] missing_of(nodes, nodes[i], d)[c],
                nodes,
            ),
        forall|c: int|
            0 <= c < ambiguous_of(nodes, nodes[i], d).len() ==> some_ambiguous(
                #[trigger] ambiguous_of(nodes, nodes[i], d)[c],
                nodes,
            ),
    decreases d,
{
    if d > 0 {
        lemma_node_sources(nodes, i, d - 1);
        let f = finding(nodes, nodes[i].dependencies@[d - 1]);
        if !(f is Fine) {
            assert(nodes[i].dependencies@[d - 1].kind == DependencyKind::Required);
            assert(needs(nodes, i, d - 1));
        }
        let dep = nodes[i].dependencies@[d - 1];
        assert(f is Conflict ==> some_conflict(conflict_entry(nodes, nodes[i], dep), nodes));
        assert(f is Missing ==> some_missing(missing_entry(nodes[i], dep), nodes));
        assert(f is Ambiguous ==> some_ambiguous(ambiguous_entry(nodes, nodes[i], dep), nodes));
        let c0 = conflicts_of(nodes, nodes[i], d - 1);
        let c1 = conflicts_of(nodes, nodes[i], d);
        assert forall|c: int| 0 <= c < c1.len() implies some_conflict(#[trigger] c1[c], nodes) by {
            if c < c0.len() {
                assert(c1[c] == c0[c]);
            }
        }
        let m0 = missing_of(nodes, nodes[i], d - 1);
        let m1 = missing_of(nodes, nodes[i], d);
        assert forall|c: int| 0 <= c < m1.len() implies some_missing(#[trigger] m1[c], nodes) by {
            if c < m0.len() {
                assert(m1[c] == m0[c]);
            }
        }
        let a0 = ambiguous_of(nodes, nodes[i], d - 1);
        let a1 = ambiguous_of(nodes, nodes[i], d);
        assert forall|c: int| 0 <= c < a1.len() implies some_ambiguous(#[trigger] a1[c], nodes) by {
            if c < a0.len() {
                assert(a1[c] == a0[c]);
            }
        }
    }
}

/// Whether some JAR at a path lists a mod ID.
pub open spec fn listed_at(nodes: Seq<ModNode>, id: Seq<char>, path: Seq<char>) -> bool {
    exists|x: int|
        0 <= x < nodes.len() && lists_id(#[trigger] nodes[x], id) && nodes[x].path@ == path
}

/// Whether a conflict is a true one: it is about a required dependency of a mod
/// that stays, a JAR at the path given declares it, and at that path a JAR is left
/// out.
pub open spec fn true_conflict(c: ConflictView, nodes: Seq<ModNode>) -> bool {
    &&& some_conflict(c, nodes)
    &&& c.dependency_path is Some
    &&& listed_at(nodes, c.dependency_mod_id, c.dependency_path->0)
    &&& path_of_some(nodes, true, c.dependency_path->0)
}

/// Whether a lack is a true one: it is about a required dependency of a mod that
/// stays, and no JAR declares it.
pub open spec fn true_lack(c: MissingView, nodes: Seq<ModNode>) -> bool {
    &&& some_missing(c, nodes)
    &&& forall|x: int|
        0 <= x < nodes.len() ==> !lists_id(#[trigger] nodes[x], c.dependency_mod_id)
}

/// Whether an ambiguity is a true one: it is about a required dependency of a mod
/// that stays, the paths listed are those of JARs that declare it, and two of them
/// differ.
pub open spec fn true_ambiguity(c: AmbiguousView, nodes: Seq<ModNode>) -> bool {
    &&& some_ambiguous(c, nodes)
    &&& forall|q: int|
        0 <= q < c.provider_paths.len() ==> listed_at(
            nodes,
            c.dependency_mod_id,
            #[trigger] c.provider_paths[q],
        )
    &&& exists|x: int, y: int|
        0 <= x < c.provider_paths.len() && 0 <= y < c.provider_paths.len()
            && #[trigger] c.provider_paths[x] != #[trigger] c.provider_paths[y]
}

/// Nothing is reported but what is true: every conflict, every lack and every
/// ambiguity of a plan is one.
pub proof fn law_nothing_else_is_reported(nodes: Seq<ModNode>)
    ensures
        ({
            let n = nodes.len() as int;
            &&& forall|c: int|
                0 <= c < conflicts_below(nodes, n).len() ==> true_conflict(
                    #[trigger] conflicts_below(nodes, n)[c],
                    nodes,
                )
            &&& forall|c: int|
                0 <= c < missing_below(nodes, n).len() ==> true_lack(
                    #[trigger] missing_below(nodes, n)[c],
                    nodes,
                )
            &&& forall|c: int|
                0 <= c < ambiguous_below(nodes, n).len() ==> true_ambiguity(
                    #[trigger] ambiguous_below(nodes, n)[c],
                    nodes,
                )
        }),
{
    let n = nodes.len() as int;
    lemma_problem_sources(nodes, n);
    law_conflict_has_one_provider(nodes, n);
    law_missing_is_absent(nodes, n);
    law_ambiguous_picks_none(nodes, n);
    let conflicts = conflicts_below(nodes, n);
    let missing = missing_below(nodes, n);
    let ambiguities = ambiguous_below(nodes, n);
    assert forall|c: int| 0 <= c < conflicts.len() implies true_conflict(
        #[trigger] conflicts[c],
        nodes,
    ) by {
        let id = conflicts[c].dependency_mod_id;
        assert(one_file(nodes, id, conflicts[c].dependency_path) && excluded_id(nodes, id));
        let j = choose|j: int|
            0 <= j < n && (#[trigger] nodes[j]).excluded() && nodes[path_index(
                nodes,
                nodes[j].path@,
                n,
            )].declares(id);
        lemma_path_index(nodes, j, n);
        let x = path_index(nodes, nodes[j].path@, n);
        lemma_lists_id(nodes[x], id);
        assert(nodes[x].declares(id));
        assert(lists_id(nodes[x], id));
        assert(marked_client_only(nodes[j]));
    }
    assert forall|c: int| 0 <= c < missing.len() implies true_lack(
        #[trigger] missing[c],
        nodes,
    ) by {
        let id = missing[c].dependency_mod_id;
        assert(providers(nodes, id).len() == 0);
        lemma_providers(nodes, id, n);
        assert forall|x: int| 0 <= x < nodes.len() implies !lists_id(#[trigger] nodes[x], id) by {
            lemma_lists_id(nodes[x], id);
            if nodes[x].declares(id) {
                assert(providers(nodes, id).contains(x));
            }
        }
    }
    assert forall|c: int| 0 <= c < ambiguities.len() implies true_ambiguity(
        #[trigger] ambiguities[c],
        nodes,
    ) by {
        let id = ambiguities[c].dependency_mod_id;
        let paths = ambiguities[c].provider_paths;
        assert(ambiguous(nodes, id));
        let (x, y) = choose|x: int, y: int|
            0 <= x < nodes.len() && 0 <= y < nodes.len() && #[trigger] nodes[x].declares(id)
                && #[trigger] nodes[y].declares(id) && nodes[x].path@ != nodes[y].path@;
        lemma_providers(nodes, id, n);
        let p = providers(nodes, id);
        assert(p.contains(x) && p.contains(y));
        let a = choose|a: int| 0 <= a < p.len() && p[a] == x;
        let b = choose|b: int| 0 <= b < p.len() && p[b] == y;
        assert(paths[a] == nodes[x].path@ && paths[b] == nodes[y].path@);
        assert forall|q: int| 0 <= q < paths.len() implies listed_at(
            nodes,
            id,
            #[trigger] paths[q],
        ) by {
            lemma_lists_id(nodes[p[q]], id);
            assert(nodes[p[q]].declares(id));
            assert(lists_id(nodes[p[q]], id));
            assert(paths[q] == nodes[p[q]].path@);
        }
    }
}

/// How many required dependencies the mods below `n` that stay have.
pub open spec fn needs_below(nodes: Seq<ModNode>, n: int) -> nat
    decreases n,
{
    if n <= 0 {
        0
    } else if marked_client_only(nodes[n - 1]) {
        needs_below(nodes, n - 1)
    } else {
        needs_below(nodes, n - 1) + required_count(nodes[n - 1].dependencies@)
    }
}

/// How many of the dependencies are required.
pub open spec fn required_count(deps: Seq<NormalizedDependency>) -> nat
    decreases deps.len(),
{
    if deps.len() == 0 {
        0
    } else if deps.last().kind == DependencyKind::Required {
        required_count(deps.drop_last()) + 1
    } else {
        required_count(deps.drop_last())
    }
}

/// No dependency is reported twice: there are at most as many problems as
/// required dependencies of mods that stay.
pub proof fn law_each_problem_once(nodes: Seq<ModNode>, n: int)
    requires
        0 <= n <= nodes.len(),
    ensures
        conflicts_below(nodes, n).len() + missing_below(nodes, n).len() + ambiguous_below(
            nodes,
            n,
        ).len() <= needs_below(nodes, n),
    decreases n,
{
    if n > 0 {
        law_each_problem_once(nodes, n - 1);
        let d = nodes[n - 1].dependencies@.len() as int;
        lemma_problems_of(nodes, nodes[n - 1], d);
        assert(nodes[n - 1].dependencies@.take(d) =~= nodes[n - 1].dependencies@);
    }
}

proof fn lemma_problems_of(nodes: Seq<ModNode>, node: ModNode, d: int)
    requires
        0 <= d <= node.dependencies@.len(),
    ensures
        conflicts_of(nodes, node, d).len() + missing_of(nodes, node, d).len() + ambiguous_of(
            nodes,
            node,
            d,
        ).len() <= required_count(node.dependencies@.take(d)),
    decreases d,
{
    if d > 0 {
        lemma_problems_of(nodes, node, d - 1);
        assert(node.dependencies@.take(d).drop_last() =~= node.dependencies@.take(d - 1));
        assert(node.dependencies@.take(d).last() == node.dependencies@[d - 1]);
    }
}

/// Conflicts are reported in the order of the JARs and of their dependencies,
/// each in a place of its own.
pub proof fn law_conflicts_keep_the_order(
    nodes: Seq<ModNode>,
    i: int,
    k: int,
    i2: int,
    k2: int,
)
    requires
        needs(nodes, i, k),
        needs(nodes, i2, k2),
        i < i2 || (i == i2 && k < k2),
        finding(nodes, nodes[i].dependencies@[k]) is Conflict,
        finding(nodes, nodes[i2].dependencies@[k2]) is Conflict,
    ensures
        exists|a: int, b: int|
            0 <= a < b < conflicts_below(nodes, nodes.len() as int).len() && conflict_about(
                #[trigger] conflicts_below(nodes, nodes.len() as int)[a],
                nodes,
                i,
                k,
            ) && conflict_about(
                #[trigger] conflicts_below(nodes, nodes.len() as int)[b],
                nodes,
                i2,
                k2,
            ),
{
    let n = nodes.len() as int;
    lemma_conflicts_place(nodes, n, i, k);
    lemma_conflicts_place(nodes, n, i2, k2);
    let a = (conflicts_below(nodes, i).len() + conflicts_of(nodes, nodes[i], k).len()) as int;
    let b = (conflicts_below(nodes, i2).len() + conflicts_of(nodes, nodes[i2], k2).len()) as int;
    if i < i2 {
        lemma_conflicts_place(nodes, i2, i, k);
    } else {
        lemma_conflicts_of_place(nodes, nodes[i], k2, k);
    }
    assert(conflict_about(conflicts_below(nodes, n)[a], nodes, i, k));
    assert(conflict_about(conflicts_below(nodes, n)[b], nodes, i2, k2));
}

/// The mods that depend on a mod are all that list it, required or optional, and
/// no others; of these the retained ones are all that are not for clients only.
pub proof fn law_dependents_are_those_that_list_it(nodes: Seq<ModNode>, id: Seq<char>, node: ModNode)
    ensures
        dependents(nodes, id).contains(node) <==> nodes.contains(node) && exists|k: int|
            0 <= k < node.dependencies@.len() && (#[trigger] node.dependencies@[k]).mod_id@ == id,
        retained_dependents(nodes, id).contains(node) <==> nodes.contains(node)
            && node.compatibility.compatibility != ServerCompatibility::ClientOnly && exists|k: int|
            0 <= k < node.dependencies@.len() && (#[trigger] node.dependencies@[k]).mod_id@ == id,
{
    let n = nodes.len() as int;
    lemma_nodes_below(nodes, |x: ModNode| x.depends_on(id), n, node);
    lemma_nodes_below(
        nodes,
        |x: ModNode|
            x.compatibility.compatibility != ServerCompatibility::ClientOnly && x.depends_on(id),
        n,
        node,
    );
    assert(nodes.take(n) =~= nodes);
}

proof fn lemma_nodes_below(nodes: Seq<ModNode>, keep: spec_fn(ModNode) -> bool, n: int, node: ModNode)
    requires
        0 <= n <= nodes.len(),
    ensures
        nodes_below(nodes, keep, n).contains(node) <==> nodes.take(n).contains(node) && keep(node),
    decreases n,
{
    if n > 0 {
        lemma_nodes_below(nodes, keep, n - 1, node);
        let prev = nodes_below(nodes, keep, n - 1);
        let now = nodes_below(nodes, keep, n);
        let a = nodes.take(n - 1);
        let b = nodes.take(n);
        assert(b =~= a.push(nodes[n - 1]));
        if a.contains(node) {
            let x = choose|x: int| 0 <= x < a.len() && a[x] == node;
            assert(b[x] == node);
        }
        if b.contains(node) && node != nodes[n - 1] {
            let x = choose|x: int| 0 <= x < b.len() && b[x] == node;
            assert(a[x] == node);
        }
        if prev.contains(node) {
            let x = choose|x: int| 0 <= x < prev.len() && prev[x] == node;
            assert(now[x] == node);
        }
        if now.contains(node) && node != nodes[n - 1] {
            let x = choose|x: int| 0 <= x < now.len() && now[x] == node;
            assert(prev[x] == node);
        }
        if node == nodes[n - 1] {
            assert(b[n - 1] == node);
            if keep(node) {
                assert(now.last() == node);
            } else if now.contains(node) {
                assert(prev.contains(node));
            }
        }
    }
}

/// A mod ID leads to the JAR that lists it, where JARs at one path alone do, and
/// to none where JARs at two paths do or none does.
pub proof fn law_lookup_by_mod_id(nodes: Seq<ModNode>, id: Seq<char>, i: int)
    requires
        0 <= i < nodes.len(),
        lists_id(nodes[i], id),
    ensures
        providers(nodes, id).len() > 0,
        0 <= providers(nodes, id).last() < nodes.len(),
        lists_id(nodes[providers(nodes, id).last()], id),
        i <= providers(nodes, id).last(),
        !ambiguous(nodes, id) <==> forall|x: int|
            0 <= x < nodes.len() && lists_id(#[trigger] nodes[x], id) ==> nodes[x].path@
                == nodes[i].path@,
{
    let n = nodes.len() as int;
    lemma_lists_id(nodes[i], id);
    assert(nodes[i].declares(id));
    lemma_providers(nodes, id, n);
    lemma_last_provider(nodes, id, n, i);
    let p = providers(nodes, id);
    assert(nodes[p[p.len() - 1]].declares(id));
    lemma_lists_id(nodes[p.last()], id);
    if !ambiguous(nodes, id) {
        assert forall|x: int| 0 <= x < nodes.len() && lists_id(#[trigger] nodes[x], id) implies
            nodes[x].path@ == nodes[i].path@ by {
            lemma_lists_id(nodes[x], id);
            assert(nodes[x].declares(id));
        }
    }
    if forall|x: int|
        0 <= x < nodes.len() && lists_id(#[trigger] nodes[x], id) ==> nodes[x].path@
            == nodes[i].path@ {
        assert forall|x: int| 0 <= x < nodes.len() && #[trigger] nodes[x].declares(id) implies
            nodes[x].path@ == nodes[i].path@ by {
            lemma_lists_id(nodes[x], id);
        }
    }
}

proof fn lemma_last_provider(nodes: Seq<ModNode>, id: Seq<char>, n: int, i: int)
    requires
        0 <= i < n <= nodes.len(),
        nodes[i].declares(id),
    ensures
        providers_below(nodes, id, n).len() > 0,
        i <= providers_below(nodes, id, n).last(),
    decreases n,
{
    if i < n - 1 {
        lemma_last_provider(nodes, id, n - 1, i);
    }
}

/// A path leads to the JAR that was given last with it, and to none that has
/// another.
pub proof fn law_lookup_by_path(nodes: Seq<ModNode>, path: Seq<char>, n: int)
    requires
        0 <= n <= nodes.len(),
    ensures
        ({
            let at = path_index(nodes, path, n);
            &&& -1 <= at < n
            &&& at >= 0 ==> nodes[at].path@ == path
            &&& forall|x: int| at < x < n && x >= 0 ==> (#[trigger] nodes[x]).path@ != path
        }),
    decreases n,
{
    if n > 0 && nodes[n - 1].path@ != path {
        law_lookup_by_path(nodes, path, n - 1);
    }
}

/// Each JAR is a node of the graph as it was given: under its path, with its
/// classification, all its mod IDs and all its dependencies, and shown by the first
/// of its IDs.
pub proof fn law_nodes_are_the_jars(n: ModNode, e: (String, ModCompatibility, JarMetadata))
    requires
        node_matches(n, e),
    ensures
        n.path@ == e.0@,
        n.compatibility.compatibility == e.1.compatibility,
        n.compatibility.confidence == e.1.confidence,
        n.mod_ids@ == e.2.mod_ids@,
        n.dependencies@ == e.2.dependencies@,
        n.display_id() == (if e.2.mod_ids@.len() > 0 {
            Some(e.2.mod_ids@[0]@)
        } else {
            None
        }),
{
}

/// The explanation of a conflict names the mod that is needed.
pub proof fn law_reason_names_the_dependency(node: ModNode, dep: NormalizedDependency)
    ensures
        text::contains(conflict_reason(node, dep), "'"@ + dep.mod_id@ + "'"@),
{
    reveal_strlit(" requires dependency '");
    reveal_strlit(" requires dependency ");
    reveal_strlit("'");
    reveal_strlit("' which is classified as ClientOnly/Explicit");
    reveal_strlit(" which is classified as ClientOnly/Explicit");
    let q = text::debug_quoted(
        match node.mod_id {
            Some(id) => id@,
            None => "unknown"@,
        },
    );
    let a = "Mod "@ + q + " requires dependency "@;
    let m = "'"@ + dep.mod_id@ + "'"@;
    let z = " which is classified as ClientOnly/Explicit"@;
    assert(" requires dependency '"@ =~= " requires dependency "@ + "'"@);
    assert("' which is classified as ClientOnly/Explicit"@ =~= "'"@ + z);
    text_laws::law_contains_what_was_put_in(a, m, z);
    assert(a + m + z =~= conflict_reason(node, dep));
}

} // verus!
