//! Why a server did not boot, and the repair of a missing dependency.
//!
//! The log is read for the loaders' own messages about missing mods. An
//! attribution by itself repairs nothing: it must be confirmed by the
//! dependency graph or by the relations of the requesting mod's file.
use vstd::hash_map::StringHashMap;
use vstd::prelude::*;

use std::collections::HashMap;

use crate::dependency_graph;
use crate::dependency_graph::{DependencyGraph, MissingDependency};
use crate::dependency_resolver::relation_type;
use crate::dependency_resolver::{CurseDependency, ProjectModMapping};
use crate::jar_metadata::DependencyKind;
use crate::text;
use crate::text::{
    after_last, clone_strings, find_stop, find_str, fold_chars, from_chars, has_prefix,
    has_sub, is_whitespace, part, split_lines, str_eq, to_chars, trimmed, trimmed_char,
    trimmed_start_char, trimmed_start_str,
};
use crate::text_laws;

verus! {

broadcast use {vstd::std_specs::hash::group_hash_axioms, vstd::hash_map::group_hash_map_axioms};

/// How many rounds of repair there are after a failed boot.
pub const MAX_BOOT_REPAIR_ROUNDS: u8 = 2;

/// How many unknown required projects are tried for one missing mod.
pub const MAX_RUNTIME_RELATION_CANDIDATES: usize = 5;

/// The cause of a failed boot.
#[derive(Debug, Clone)]
pub enum BootAttribution {
    /// A mod is missing.
    MissingDependency(BootMissingDependency),
    /// The Java version is wrong.
    WrongJavaVersion,
    /// Memory ran out.
    OutOfMemory,
    /// The loader failed for another reason.
    LoaderFailure(String),
    /// The log does not say.
    Unknown,
}

/// A missing mod that a loader named.
#[derive(Debug, Clone)]
pub struct BootMissingDependency {
    /// The mod that needs it, if the log says.
    pub requesting_mod_id: Option<String>,
    /// The missing mod.
    pub missing_mod_id: String,
    /// The version that is needed, if the log says.
    pub version_requirement: Option<String>,
    /// Whose message it was.
    pub source: BootAttributionSource,
    /// How sure it is.
    pub confidence: AttributionConfidence,
}

/// Whose message names the missing mod.
#[derive(Debug, Clone, Copy, PartialEq, Eq, Structural)]
pub enum BootAttributionSource {
    /// Forge or NeoForge.
    ForgeLoader,
    /// Fabric.
    FabricLoader,
    /// Quilt.
    QuiltLoader,
}

/// How sure an attribution is.
#[derive(Debug, Clone, Copy, PartialEq, Eq, PartialOrd, Ord, Structural)]
pub enum AttributionConfidence {
    /// Vague: never repaired.
    Low,
    /// A loader's message, but the mod ID is uncertain.
    Medium,
    /// A loader's message that names the mod. Only this is repaired.
    High,
}

/// What confirms an attribution.
#[derive(Debug, Clone, Copy, PartialEq, Eq, Structural)]
pub enum VerificationSource {
    /// The JARs' metadata.
    JarMetadataGraph,
    /// A required relation of the requesting mod's file.
    CurseForgeRequiredRelation,
    /// The requesting mod's file requires projects that are not installed; one
    /// of them may be the missing mod.
    RuntimeRelationCandidatesExist,
    /// Both the metadata and the relations.
    Both,
}

/// What is known of an installed file.
#[derive(Debug, Clone)]
pub struct InstalledFileInfo {
    pub project_id: u64,
    pub file_id: u64,
    pub mod_ids: Vec<String>,
    pub dependencies: Vec<CurseDependency>,
}

/// All installed files, by mod ID and by project.
pub struct InstalledFileRegistry {
    pub by_mod_id: StringHashMap<InstalledFileInfo>,
    pub by_project_id: HashMap<u64, InstalledFileInfo>,
}

/// Whether two descriptions of a file say the same.
pub open spec fn same_info(a: InstalledFileInfo, b: InstalledFileInfo) -> bool {
    a.project_id == b.project_id && a.file_id == b.file_id && a.mod_ids@ == b.mod_ids@
        && a.dependencies@ == b.dependencies@
}

impl InstalledFileInfo {
    fn copied(&self) -> (r: Self)
        ensures
            same_info(r, *self),
    {
        let mut dependencies: Vec<CurseDependency> = Vec::new();
        let mut i: usize = 0;
        while i < self.dependencies.len()
            invariant
                i <= self.dependencies.len(),
                dependencies@ == self.dependencies@.take(i as int),
            decreases self.dependencies.len() - i,
        {
            dependencies.push(self.dependencies[i]);
            assert(self.dependencies@.take(i as int + 1) =~= self.dependencies@.take(
                i as int,
            ).push(self.dependencies@[i as int]));
            i = i + 1;
        }
        assert(dependencies@ =~= self.dependencies@);
        InstalledFileInfo {
            project_id: self.project_id,
            file_id: self.file_id,
            mod_ids: clone_strings(&self.mod_ids),
            dependencies,
        }
    }
}

impl InstalledFileRegistry {
    /// An empty registry.
    pub fn new() -> (r: Self)
        ensures
            r.by_mod_id@ == Map::<Seq<char>, InstalledFileInfo>::empty(),
            r.by_project_id@ == Map::<u64, InstalledFileInfo>::empty(),
    {
        InstalledFileRegistry { by_mod_id: StringHashMap::new(), by_project_id: HashMap::new() }
    }

    /// Notes an installed file under each of its mod IDs and under its project.
    /// What else is known stays.
    pub fn register(
        &mut self,
        project_id: u64,
        file_id: u64,
        mod_ids: Vec<String>,
        dependencies: Vec<CurseDependency>,
    )
        ensures
            ({
                let info = InstalledFileInfo { project_id, file_id, mod_ids, dependencies };
                &&& forall|id: Seq<char>| #[trigger]
                    final(self).by_mod_id@.contains_key(id) <==> text::has_str(mod_ids@, id)
                        || old(self).by_mod_id@.contains_key(id)
                &&& forall|id: Seq<char>|
                    text::has_str(mod_ids@, id) ==> same_info(
                        #[trigger] final(self).by_mod_id@[id],
                        info,
                    )
                &&& forall|id: Seq<char>|
                    !text::has_str(mod_ids@, id) && old(self).by_mod_id@.contains_key(id)
                        ==> #[trigger] final(self).by_mod_id@[id] == old(self).by_mod_id@[id]
                &&& final(self).by_project_id@ == old(self).by_project_id@.insert(project_id, info)
            }),
    {
        let info = InstalledFileInfo { project_id, file_id, mod_ids, dependencies };
        let mut i: usize = 0;
        while i < info.mod_ids.len()
            invariant
                i <= info.mod_ids.len(),
                self.by_project_id@ == old(self).by_project_id@,
                forall|id: Seq<char>| #[trigger]
                    self.by_mod_id@.contains_key(id) <==> text::has_str(
                        info.mod_ids@.take(i as int),
                        id,
                    ) || old(self).by_mod_id@.contains_key(id),
                forall|id: Seq<char>|
                    text::has_str(info.mod_ids@.take(i as int), id) ==> same_info(
                        #[trigger] self.by_mod_id@[id],
                        info,
                    ),
                forall|id: Seq<char>|
                    !text::has_str(info.mod_ids@.take(i as int), id) && old(
                        self,
                    ).by_mod_id@.contains_key(id) ==> #[trigger] self.by_mod_id@[id] == old(
                        self,
                    ).by_mod_id@[id],
            decreases info.mod_ids.len() - i,
        {
            proof {
                let prev = info.mod_ids@.take(i as int);
                let now = info.mod_ids@.take(i as int + 1);
                assert forall|id: Seq<char>| #[trigger]
                    text::has_str(now, id) <==> text::has_str(prev, id) || id
                        == info.mod_ids@[i as int]@ by {
                    if text::has_str(prev, id) {
                        let k = choose|k: int| 0 <= k < prev.len() && (#[trigger] prev[k])@ == id;
                        assert(now[k]@ == id);
                    }
                    if id == info.mod_ids@[i as int]@ {
                        assert(now[i as int]@ == id);
                    }
                    if text::has_str(now, id) {
                        let k = choose|k: int| 0 <= k < now.len() && (#[trigger] now[k])@ == id;
                        if k < i {
                            assert(prev[k]@ == id);
                        }
                    }
                }
            }
            self.by_mod_id.insert(info.mod_ids[i].clone(), info.copied());
            i = i + 1;
        }
        assert(info.mod_ids@.take(info.mod_ids@.len() as int) =~= info.mod_ids@);
        self.by_project_id.insert(project_id, info);
    }

    /// The file that provides a mod ID.
    pub fn get_by_mod_id(&self, mod_id: &str) -> (r: Option<&InstalledFileInfo>)
        ensures
            r is Some <==> self.by_mod_id@.contains_key(mod_id@),
            r is Some ==> *r->0 == self.by_mod_id@[mod_id@],
    {
        self.by_mod_id.get(mod_id)
    }

    /// The file of a project.
    pub fn get_by_project_id(&self, project_id: u64) -> (r: Option<&InstalledFileInfo>)
        ensures
            r is Some <==> self.by_project_id@.contains_key(project_id),
            r is Some ==> *r->0 == self.by_project_id@[project_id],
    {
        self.by_project_id.get(&project_id)
    }
}

// ---------------------------------------------------------------------
// Reading the log
// ---------------------------------------------------------------------

/// A missing mod as a line of the log names it.
#[derive(Debug, Clone)]
pub struct ParsedMissingDep {
    pub requesting_mod_id: Option<String>,
    pub missing_mod_id: String,
    pub version_requirement: Option<String>,
    pub source: BootAttributionSource,
}

/// The text of a [`ParsedMissingDep`].
pub struct ParsedView {
    pub requesting_mod_id: Option<Seq<char>>,
    pub missing_mod_id: Seq<char>,
    pub version_requirement: Option<Seq<char>>,
    pub source: BootAttributionSource,
}

impl View for ParsedMissingDep {
    type V = ParsedView;

    open spec fn view(&self) -> ParsedView {
        ParsedView {
            requesting_mod_id: text::opt_view(self.requesting_mod_id),
            missing_mod_id: self.missing_mod_id@,
            version_requirement: text::opt_view(self.version_requirement),
            source: self.source,
        }
    }
}

/// The text of an optional [`ParsedMissingDep`].
pub open spec fn parsed_view(o: Option<ParsedMissingDep>) -> Option<ParsedView> {
    match o {
        Some(x) => Some(x@),
        None => None,
    }
}

/// The version inside the first pair of round brackets, without the comparison
/// signs before it.
pub open spec fn version_constraint(s: Seq<char>) -> Option<Seq<char>> {
    let start = text::stop_index(s, false, "("@, 0);
    let end = text::stop_index(s, false, ")"@, start);
    if start >= s.len() || end >= s.len() {
        None
    } else {
        let inside = text::trim(s.subrange(start + 1, end));
        let bare = text::trim_start_char(
            text::trim_start_char(
                text::trim_start_char(
                    text::trim_start_str(text::trim_start_str(inside, ">="@), "<="@),
                    '>',
                ),
                '<',
            ),
            '=',
        );
        if inside.len() == 0 || text::trim(bare).len() == 0 {
            None
        } else {
            Some(text::trim(bare))
        }
    }
}

/// Reads [`version_constraint`].
fn version_constraint_of(s: &[char]) -> (r: Option<String>)
    ensures
        text::opt_view(r) == version_constraint(s@),
{
    let start = find_stop(s, false, "(", 0);
    if start >= s.len() {
        return None;
    }
    let end = find_stop(s, false, ")", start);
    if end >= s.len() {
        return None;
    }
    proof {
        reveal_strlit("(");
        reveal_strlit(")");
        lemma_stop_hit(s@, false, "("@, 0);
        lemma_stop_hit(s@, false, ")"@, start as int);
    }
    let inside = trimmed(part(s, start + 1, end));
    if inside.len() == 0 {
        return None;
    }
    let a = trimmed_start_str(inside, ">=");
    let b = trimmed_start_str(a, "<=");
    let c = trimmed_start_char(b, '>');
    let d = trimmed_start_char(c, '<');
    let e = trimmed_start_char(d, '=');
    let cleaned = trimmed(e);
    if cleaned.len() == 0 {
        None
    } else {
        Some(from_chars(cleaned))
    }
}

/// What [`text::stop_index`] stops at is a character of the set.
proof fn lemma_stop_hit(s: Seq<char>, ws: bool, set: Seq<char>, i: int)
    requires
        0 <= i <= s.len(),
    ensures
        i <= text::stop_index(s, ws, set, i) <= s.len(),
        text::stop_index(s, ws, set, i) < s.len() ==> (ws && text::is_ws(
            s[text::stop_index(s, ws, set, i)],
        )) || set.contains(s[text::stop_index(s, ws, set, i)]),
    decreases s.len() - i,
{
    if i < s.len() && !((ws && text::is_ws(s[i])) || set.contains(s[i])) {
        lemma_stop_hit(s, ws, set, i + 1);
    }
}

/// The version inside the first pair of round brackets, without the comparison
/// signs before it.
pub fn extract_version_constraint(s: &str) -> (r: Option<String>)
    ensures
        text::opt_view(r) == version_constraint(s@),
{
    let chars = to_chars(s);
    version_constraint_of(&chars)
}

/// `... 'X' requires mod 'Y' ...`: X is what stands between the last quote
/// before and the marker, Y what stands up to the next quote.
pub open spec fn quoted_requires(line: Seq<char>, source: BootAttributionSource) -> Option<
    ParsedView,
> {
    let marker = "' requires mod '"@;
    match text::find(line, marker) {
        None => None,
        Some(pos) => {
            let before = line.subrange(0, pos);
            let after = line.subrange(pos + marker.len(), line.len() as int);
            let end = text::stop_index(after, false, "'"@, 0);
            if end >= after.len() || end == 0 {
                None
            } else {
                Some(
                    ParsedView {
                        requesting_mod_id: Some(
                            before.subrange(
                                text::last_index(before, '\'', before.len() as int) + 1,
                                before.len() as int,
                            ),
                        ),
                        missing_mod_id: after.subrange(0, end),
                        version_requirement: version_constraint(
                            after.subrange(end, after.len() as int),
                        ),
                        source,
                    },
                )
            }
        },
    }
}

/// Reads [`quoted_requires`].
fn parse_quoted_requires(line: &[char], source: BootAttributionSource) -> (r: Option<
    ParsedMissingDep,
>)
    ensures
        parsed_view(r) == quoted_requires(line@, source),
{
    let marker = "' requires mod '";
    let m = to_chars(marker);
    match find_str(line, marker) {
        None => None,
        Some(pos) => {
            let before = part(line, 0, pos);
            let after = part(line, pos + m.len(), line.len());
            let end = find_stop(after, false, "'", 0);
            if end >= after.len() || end == 0 {
                return None;
            }
            let from = after_last(before, '\'');
            Some(
                ParsedMissingDep {
                    requesting_mod_id: Some(from_chars(part(before, from, before.len()))),
                    missing_mod_id: from_chars(part(after, 0, end)),
                    version_requirement: version_constraint_of(part(after, end, after.len())),
                    source,
                },
            )
        },
    }
}

/// A text without the single quotes, and then the double quotes, at its ends.
pub open spec fn unquote(s: Seq<char>) -> Seq<char> {
    text::trim_char(text::trim_char(s, '\''), '"')
}

/// `Mod X requires mod Y`, in any case: X is what stands between `Mod ` (or
/// `mod `) at the start of the line and the marker, Y the word after it.
pub open spec fn unquoted_requires(line: Seq<char>, source: BootAttributionSource) -> Option<
    ParsedView,
> {
    let marker = "requires mod"@;
    match text::find(text::folded(line), marker) {
        None => None,
        Some(pos) => {
            let before = text::trim(line.subrange(0, pos));
            let after = text::trim(line.subrange(pos + marker.len(), line.len() as int));
            let missing = unquote(after.subrange(0, text::stop_index(after, true, "(,"@, 0)));
            let named = text::starts_with(before, "Mod "@) || text::starts_with(before, "mod "@);
            let requesting = unquote(text::trim(before.subrange(4, before.len() as int)));
            if missing.len() == 0 {
                None
            } else {
                Some(
                    ParsedView {
                        requesting_mod_id: if named && requesting.len() > 0 {
                            Some(requesting)
                        } else {
                            None
                        },
                        missing_mod_id: missing,
                        version_requirement: version_constraint(after),
                        source,
                    },
                )
            }
        },
    }
}

/// Reads [`unquoted_requires`].
fn parse_unquoted_requires(line: &[char], source: BootAttributionSource) -> (r: Option<
    ParsedMissingDep,
>)
    ensures
        parsed_view(r) == unquoted_requires(line@, source),
{
    let marker = "requires mod";
    let m = to_chars(marker);
    let lower = fold_chars(line);
    match find_str(&lower, marker) {
        None => None,
        Some(pos) => {
            let before = trimmed(part(line, 0, pos));
            let after = trimmed(part(line, pos + m.len(), line.len()));
            let end = find_stop(after, true, "(,", 0);
            let missing = trimmed_char(trimmed_char(part(after, 0, end), '\''), '"');
            if missing.len() == 0 {
                return None;
            }
            proof {
                reveal_strlit("Mod ");
                reveal_strlit("mod ");
            }
            let mut requesting: Option<String> = None;
            if has_prefix(before, "Mod ") || has_prefix(before, "mod ") {
                let rest = trimmed(part(before, 4, before.len()));
                let bare = trimmed_char(trimmed_char(rest, '\''), '"');
                if bare.len() > 0 {
                    requesting = Some(from_chars(bare));
                }
            }
            Some(
                ParsedMissingDep {
                    requesting_mod_id: requesting,
                    missing_mod_id: from_chars(missing),
                    version_requirement: version_constraint_of(after),
                    source,
                },
            )
        },
    }
}

/// Either form of `requires mod`, the quoted one first.
pub open spec fn requires_mod(line: Seq<char>, source: BootAttributionSource) -> Option<
    ParsedView,
> {
    match quoted_requires(line, source) {
        Some(p) => Some(p),
        None => unquoted_requires(line, source),
    }
}

/// Reads [`requires_mod`].
fn parse_requires_mod(line: &[char], source: BootAttributionSource) -> (r: Option<
    ParsedMissingDep,
>)
    ensures
        parsed_view(r) == requires_mod(line@, source),
{
    match parse_quoted_requires(line, source) {
        Some(p) => Some(p),
        None => parse_unquoted_requires(line, source),
    }
}

/// Whether a line mentions a text, in any case. The text is given in lower
/// case.
pub open spec fn mentions(line: Seq<char>, p: Seq<char>) -> bool {
    text::contains(text::folded(line), p)
}

/// Forge and NeoForge: `Mod X requires mod Y`.
pub open spec fn forge_requires(line: Seq<char>) -> Option<ParsedView> {
    if mentions(line, "requires mod"@) {
        requires_mod(line, BootAttributionSource::ForgeLoader)
    } else {
        None
    }
}

/// Reads [`forge_requires`].
pub fn parse_forge_requires(line: &[char]) -> (r: Option<ParsedMissingDep>)
    ensures
        parsed_view(r) == forge_requires(line@),
{
    let lower = fold_chars(line);
    if has_sub(&lower, "requires mod") {
        parse_requires_mod(line, BootAttributionSource::ForgeLoader)
    } else {
        None
    }
}

/// A mod ID at the start of a text: in quotes of either kind, or up to white
/// space, a bracket or a comma.
pub open spec fn leading_id(s: Seq<char>) -> Option<Seq<char>> {
    if s.len() > 0 && (s[0] == '\'' || s[0] == '"') {
        let rest = s.subrange(1, s.len() as int);
        let end = text::stop_index(rest, false, seq![s[0]], 0);
        if end < rest.len() {
            Some(rest.subrange(0, end))
        } else {
            None
        }
    } else {
        Some(s.subrange(0, text::stop_index(s, true, "(,"@, 0)))
    }
}

/// Reads [`leading_id`].
fn leading_id_of(s: &[char]) -> (r: Option<&[char]>)
    ensures
        r is Some <==> leading_id(s@) is Some,
        r is Some ==> leading_id(s@) == Some(r->0@),
{
    if s.len() > 0 && (s[0] == '\'' || s[0] == '"') {
        let rest = part(s, 1, s.len());
        proof {
            reveal_strlit("'");
            reveal_strlit("\"");
            assert("'"@ =~= seq!['\'']);
            assert("\""@ =~= seq!['"']);
        }
        let end = if s[0] == '\'' {
            find_stop(rest, false, "'", 0)
        } else {
            find_stop(rest, false, "\"", 0)
        };
        if end < rest.len() {
            Some(part(rest, 0, end))
        } else {
            None
        }
    } else {
        let end = find_stop(s, true, "(,", 0);
        Some(part(s, 0, end))
    }
}

/// Forge and NeoForge: `Missing mandatory dependency Y`.
pub open spec fn forge_missing_mandatory(line: Seq<char>) -> Option<ParsedView> {
    let marker = "missing mandatory dependency"@;
    match text::find(text::folded(line), marker) {
        None => None,
        Some(pos) => {
            let after = text::trim(line.subrange(pos + marker.len(), line.len() as int));
            match leading_id(after) {
                None => None,
                Some(id) => if id.len() == 0 {
                    None
                } else {
                    Some(
                        ParsedView {
                            requesting_mod_id: None,
                            missing_mod_id: id,
                            version_requirement: None,
                            source: BootAttributionSource::ForgeLoader,
                        },
                    )
                },
            }
        },
    }
}

/// Reads [`forge_missing_mandatory`].
pub fn parse_forge_missing_mandatory(line: &[char]) -> (r: Option<ParsedMissingDep>)
    ensures
        parsed_view(r) == forge_missing_mandatory(line@),
{
    let marker = "missing mandatory dependency";
    let m = to_chars(marker);
    let lower = fold_chars(line);
    match find_str(&lower, marker) {
        None => None,
        Some(pos) => {
            let after = trimmed(part(line, pos + m.len(), line.len()));
            match leading_id_of(after) {
                None => None,
                Some(id) => {
                    if id.len() == 0 {
                        None
                    } else {
                        Some(
                            ParsedMissingDep {
                                requesting_mod_id: None,
                                missing_mod_id: from_chars(id),
                                version_requirement: None,
                                source: BootAttributionSource::ForgeLoader,
                            },
                        )
                    }
                },
            }
        },
    }
}

/// Where the word that ends at `e` begins.
pub open spec fn word_start(s: Seq<char>, e: int) -> int
    decreases e,
{
    if 0 < e <= s.len() && !text::is_ws(s[e - 1]) {
        word_start(s, e - 1)
    } else {
        e
    }
}

/// The last word of a text; empty where there is none.
pub open spec fn last_word(s: Seq<char>) -> Seq<char> {
    let e = text::back(s, true, ' ', 0, s.len() as int);
    s.subrange(word_start(s, e), e)
}

/// Reads [`last_word`].
fn last_word_of(s: &[char]) -> (r: &[char])
    ensures
        r@ == last_word(s@),
{
    let mut e: usize = s.len();
    while e > 0 && is_whitespace(s[e - 1])
        invariant
            e <= s.len(),
            text::back(s@, true, ' ', 0, s@.len() as int) == text::back(s@, true, ' ', 0, e as int),
        decreases e,
    {
        e = e - 1;
    }
    let mut a: usize = e;
    while a > 0 && !is_whitespace(s[a - 1])
        invariant
            a <= e <= s.len(),
            word_start(s@, e as int) == word_start(s@, a as int),
        decreases a,
    {
        a = a - 1;
    }
    part(s, a, e)
}

/// Forge and NeoForge: `requires Y version X`.
pub open spec fn forge_requires_version(line: Seq<char>) -> Option<ParsedView> {
    let low = text::folded(line);
    let req = text::find(low, "requires"@);
    let ver = text::find(low, "version"@);
    if req is None || ver is None || req->0 >= ver->0 {
        None
    } else {
        let between = text::trim(line.subrange(req->0 + 8, ver->0));
        let missing = last_word(unquote(between));
        let after = text::trim(line.subrange(ver->0 + 7, line.len() as int));
        let version = after.subrange(0, text::stop_index(after, true, ",)"@, 0));
        if missing.len() == 0 {
            None
        } else {
            Some(
                ParsedView {
                    requesting_mod_id: None,
                    missing_mod_id: missing,
                    version_requirement: if version.len() == 0 {
                        None
                    } else {
                        Some(version)
                    },
                    source: BootAttributionSource::ForgeLoader,
                },
            )
        }
    }
}

/// The words `requires` and `version` cannot overlap.
proof fn lemma_words_apart(low: Seq<char>, r: int, v: int)
    requires
        text::occurs_at(low, "requires"@, r),
        text::occurs_at(low, "version"@, v),
        r < v,
    ensures
        r + 8 <= v,
        v + 7 <= low.len(),
{
    reveal_strlit("requires");
    reveal_strlit("version");
    if v < r + 8 {
        assert(low.subrange(v, v + 7)[0] == 'v');
        assert(low.subrange(r, r + 8)[v - r] == low[v]);
    }
}

/// Reads [`forge_requires_version`].
pub fn parse_forge_requires_version(line: &[char]) -> (r: Option<ParsedMissingDep>)
    ensures
        parsed_view(r) == forge_requires_version(line@),
{
    let lower = fold_chars(line);
    let req = find_str(&lower, "requires");
    let ver = find_str(&lower, "version");
    match (req, ver) {
        (Some(r), Some(v)) => {
            if r >= v {
                return None;
            }
            proof {
                text::lemma_find_from(lower@, "requires"@, 0);
                text::lemma_find_from(lower@, "version"@, 0);
                lemma_words_apart(lower@, r as int, v as int);
            }
            let between = trimmed(part(line, r + 8, v));
            let missing = last_word_of(trimmed_char(trimmed_char(between, '\''), '"'));
            if missing.len() == 0 {
                return None;
            }
            let after = trimmed(part(line, v + 7, line.len()));
            let end = find_stop(after, true, ",)", 0);
            let version = part(after, 0, end);
            Some(
                ParsedMissingDep {
                    requesting_mod_id: None,
                    missing_mod_id: from_chars(missing),
                    version_requirement: if version.len() == 0 {
                        None
                    } else {
                        Some(from_chars(version))
                    },
                    source: BootAttributionSource::ForgeLoader,
                },
            )
        },
        _ => None,
    }
}

/// Fabric: a `ModResolutionException` that names the mods.
pub open spec fn fabric_resolution(line: Seq<char>) -> Option<ParsedView> {
    if mentions(line, "modresolutionexception"@) {
        requires_mod(line, BootAttributionSource::FabricLoader)
    } else {
        None
    }
}

/// Reads [`fabric_resolution`].
pub fn parse_fabric_mod_resolution(line: &[char]) -> (r: Option<ParsedMissingDep>)
    ensures
        parsed_view(r) == fabric_resolution(line@),
{
    let lower = fold_chars(line);
    if has_sub(&lower, "modresolutionexception") {
        parse_requires_mod(line, BootAttributionSource::FabricLoader)
    } else {
        None
    }
}

/// Quilt: a line that mentions Quilt and a requirement.
pub open spec fn quilt_resolution(line: Seq<char>) -> Option<ParsedView> {
    if mentions(line, "quilt"@) && (mentions(line, "modresolutionexception"@) || mentions(
        line,
        "requires"@,
    )) {
        requires_mod(line, BootAttributionSource::QuiltLoader)
    } else {
        None
    }
}

/// Reads [`quilt_resolution`].
pub fn parse_quilt_mod_resolution(line: &[char]) -> (r: Option<ParsedMissingDep>)
    ensures
        parsed_view(r) == quilt_resolution(line@),
{
    let lower = fold_chars(line);
    if has_sub(&lower, "quilt") && (has_sub(&lower, "modresolutionexception") || has_sub(
        &lower,
        "requires",
    )) {
        parse_requires_mod(line, BootAttributionSource::QuiltLoader)
    } else {
        None
    }
}

/// What one line says. The loaders use the same words, so the patterns are asked
/// from the narrowest on: Quilt's, which names Quilt besides, then Fabric's,
/// then Forge's.
pub open spec fn parse_line(line: Seq<char>) -> Option<ParsedView> {
    if quilt_resolution(line) is Some {
        quilt_resolution(line)
    } else if fabric_resolution(line) is Some {
        fabric_resolution(line)
    } else if forge_requires(line) is Some {
        forge_requires(line)
    } else if forge_missing_mandatory(line) is Some {
        forge_missing_mandatory(line)
    } else {
        forge_requires_version(line)
    }
}

/// Reads [`parse_line`].
fn parse_log_line(line: &[char]) -> (r: Option<ParsedMissingDep>)
    ensures
        parsed_view(r) == parse_line(line@),
{
    let quilt = parse_quilt_mod_resolution(line);
    if quilt.is_some() {
        return quilt;
    }
    let fabric = parse_fabric_mod_resolution(line);
    if fabric.is_some() {
        return fabric;
    }
    let forge = parse_forge_requires(line);
    if forge.is_some() {
        return forge;
    }
    let mandatory = parse_forge_missing_mandatory(line);
    if mandatory.is_some() {
        return mandatory;
    }
    parse_forge_requires_version(line)
}

/// What the first line from `i` on that says anything says.
pub open spec fn first_parse(lines: Seq<Seq<char>>, i: int) -> Option<ParsedView>
    decreases lines.len() - i,
{
    if i < 0 || i >= lines.len() {
        None
    } else if parse_line(lines[i]) is Some {
        parse_line(lines[i])
    } else {
        first_parse(lines, i + 1)
    }
}

/// The missing mod that the first telling line of a log names.
pub fn parse_boot_log_for_missing_deps(log: &str) -> (r: Option<ParsedMissingDep>)
    ensures
        parsed_view(r) == first_parse(text::lines(log@), 0),
{
    let chars = to_chars(log);
    let list = split_lines(&chars);
    let ghost all = text::lines(log@);
    let mut i: usize = 0;
    while i < list.len()
        invariant
            i <= list.len(),
            all == text::lines(log@),
            text::slices(list@) == all,
            first_parse(all, 0) == first_parse(all, i as int),
        decreases list.len() - i,
    {
        assert(text::slices(list@)[i as int] == list@[i as int]@);
        let parsed = parse_log_line(list[i]);
        if parsed.is_some() {
            return parsed;
        }
        i = i + 1;
    }
    assert(text::slices(list@).len() == list@.len());
    None
}

/// Whether a log says that memory ran out.
pub open spec fn tells_oom(log: Seq<char>) -> bool {
    mentions(log, "outofmemoryerror"@) || mentions(log, "out of memory"@) || mentions(
        log,
        "java.lang.outofmemoryerror"@,
    )
}

/// Whether a log says that the Java version is wrong.
pub open spec fn tells_wrong_java(log: Seq<char>) -> bool {
    mentions(log, "unsupportedclassversionerror"@) || mentions(log, "class file version"@)
        || mentions(log, "java.lang.unsupportedclassversionerror"@)
}

/// Whether a log says that memory ran out.
pub fn is_oom_log(log: &str) -> (r: bool)
    ensures
        r == tells_oom(log@),
{
    let chars = to_chars(log);
    let lower = fold_chars(&chars);
    has_sub(&lower, "outofmemoryerror") || has_sub(&lower, "out of memory") || has_sub(
        &lower,
        "java.lang.outofmemoryerror",
    )
}

/// Whether a log says that the Java version is wrong.
pub fn is_wrong_java_log(log: &str) -> (r: bool)
    ensures
        r == tells_wrong_java(log@),
{
    let chars = to_chars(log);
    let lower = fold_chars(&chars);
    has_sub(&lower, "unsupportedclassversionerror") || has_sub(&lower, "class file version")
        || has_sub(&lower, "java.lang.unsupportedclassversionerror")
}

/// The text of a [`BootMissingDependency`].
pub struct BootMissingView {
    pub requesting_mod_id: Option<Seq<char>>,
    pub missing_mod_id: Seq<char>,
    pub version_requirement: Option<Seq<char>>,
    pub source: BootAttributionSource,
    pub confidence: AttributionConfidence,
}

impl View for BootMissingDependency {
    type V = BootMissingView;

    open spec fn view(&self) -> BootMissingView {
        BootMissingView {
            requesting_mod_id: text::opt_view(self.requesting_mod_id),
            missing_mod_id: self.missing_mod_id@,
            version_requirement: text::opt_view(self.version_requirement),
            source: self.source,
            confidence: self.confidence,
        }
    }
}

/// The text of a [`BootAttribution`].
pub enum AttributionView {
    MissingDependency(BootMissingView),
    WrongJavaVersion,
    OutOfMemory,
    LoaderFailure(Seq<char>),
    Unknown,
}

impl View for BootAttribution {
    type V = AttributionView;

    open spec fn view(&self) -> AttributionView {
        match *self {
            BootAttribution::MissingDependency(m) => AttributionView::MissingDependency(m@),
            BootAttribution::WrongJavaVersion => AttributionView::WrongJavaVersion,
            BootAttribution::OutOfMemory => AttributionView::OutOfMemory,
            BootAttribution::LoaderFailure(s) => AttributionView::LoaderFailure(s@),
            BootAttribution::Unknown => AttributionView::Unknown,
        }
    }
}

/// The cause that a log names: lack of memory first, then the Java version,
/// then a missing mod, of which a loader's message is always sure.
pub open spec fn attribution(log: Seq<char>) -> AttributionView {
    if tells_oom(log) {
        AttributionView::OutOfMemory
    } else if tells_wrong_java(log) {
        AttributionView::WrongJavaVersion
    } else {
        match first_parse(text::lines(log), 0) {
            None => AttributionView::Unknown,
            Some(p) => AttributionView::MissingDependency(
                BootMissingView {
                    requesting_mod_id: p.requesting_mod_id,
                    missing_mod_id: p.missing_mod_id,
                    version_requirement: p.version_requirement,
                    source: p.source,
                    confidence: AttributionConfidence::High,
                },
            ),
        }
    }
}

/// The cause of a failed boot, from the end of its log. The graph plays no part
/// here: confirming the cause is [`verify_attribution`]'s.
pub fn analyze_boot_failure(log_tail: &str, _graph: &DependencyGraph) -> (r: BootAttribution)
    ensures
        r@ == attribution(log_tail@),
{
    if is_oom_log(log_tail) {
        return BootAttribution::OutOfMemory;
    }
    if is_wrong_java_log(log_tail) {
        return BootAttribution::WrongJavaVersion;
    }
    match parse_boot_log_for_missing_deps(log_tail) {
        None => BootAttribution::Unknown,
        Some(p) => BootAttribution::MissingDependency(
            BootMissingDependency {
                requesting_mod_id: p.requesting_mod_id,
                missing_mod_id: p.missing_mod_id,
                version_requirement: p.version_requirement,
                source: p.source,
                confidence: AttributionConfidence::High,
            },
        ),
    }
}

// ---------------------------------------------------------------------
// Confirming an attribution
// ---------------------------------------------------------------------

/// The projects among the first `n` relations that are required and not
/// installed.
pub open spec fn unknown_below(
    deps: Seq<CurseDependency>,
    installed: Map<u64, InstalledFileInfo>,
    n: int,
) -> Seq<u64>
    decreases n,
{
    if n <= 0 {
        seq![]
    } else if deps[n - 1].relation_type == relation_type::REQUIRED && !installed.contains_key(
        deps[n - 1].mod_id,
    ) {
        unknown_below(deps, installed, n - 1).push(deps[n - 1].mod_id)
    } else {
        unknown_below(deps, installed, n - 1)
    }
}

/// The required projects of the requesting mod's file that are not installed.
pub open spec fn unknown_required(
    requesting: Option<Seq<char>>,
    installed: InstalledFileRegistry,
) -> Seq<u64> {
    match requesting {
        None => seq![],
        Some(id) => if installed.by_mod_id@.contains_key(id) {
            let deps = installed.by_mod_id@[id].dependencies@;
            unknown_below(deps, installed.by_project_id@, deps.len() as int)
        } else {
            seq![]
        },
    }
}

/// The required projects of the requesting mod's file that are not installed:
/// the missing mod may be one of them.
pub fn enumerate_unknown_required_projects(
    attribution: &BootMissingDependency,
    installed_files: &InstalledFileRegistry,
) -> (r: Vec<u64>)
    ensures
        r@ == unknown_required(attribution@.requesting_mod_id, *installed_files),
{
    let mut out: Vec<u64> = Vec::new();
    match &attribution.requesting_mod_id {
        None => out,
        Some(requesting) => {
            match installed_files.get_by_mod_id(requesting.as_str()) {
                None => out,
                Some(info) => {
                    let mut i: usize = 0;
                    while i < info.dependencies.len()
                        invariant
                            i <= info.dependencies.len(),
                            out@ == unknown_below(
                                info.dependencies@,
                                installed_files.by_project_id@,
                                i as int,
                            ),
                        decreases info.dependencies.len() - i,
                    {
                        let dep = info.dependencies[i];
                        if dep.relation_type == relation_type::REQUIRED
                            && !installed_files.by_project_id.contains_key(&dep.mod_id) {
                            out.push(dep.mod_id);
                        }
                        i = i + 1;
                    }
                    out
                },
            }
        },
    }
}

/// Whether the JARs' metadata confirms that a mod is missing: the requesting
/// mod's JAR requires it, or, where no mod is named, the plan lists it.
pub open spec fn graph_confirms(
    attribution: BootMissingView,
    nodes: Seq<dependency_graph::ModNode>,
) -> bool {
    match attribution.requesting_mod_id {
        Some(id) => {
            let p = dependency_graph::providers(nodes, id);
            p.len() > 0 && !dependency_graph::ambiguous(nodes, id)
                && nodes[p.last()].requires_mod(attribution.missing_mod_id)
        },
        None => exists|k: int|
            0 <= k < dependency_graph::missing_below(nodes, nodes.len() as int).len() && (
            #[trigger] dependency_graph::missing_below(
                nodes,
                nodes.len() as int,
            )[k]).dependency_mod_id == attribution.missing_mod_id,
    }
}

/// What confirms an attribution.
pub open spec fn verification(
    attribution: BootMissingView,
    nodes: Seq<dependency_graph::ModNode>,
    installed: InstalledFileRegistry,
) -> Seq<VerificationSource> {
    let graph = graph_confirms(attribution, nodes);
    let relations = unknown_required(attribution.requesting_mod_id, installed).len() > 0;
    if graph && relations {
        seq![VerificationSource::Both]
    } else if graph {
        seq![VerificationSource::JarMetadataGraph]
    } else if relations {
        seq![VerificationSource::RuntimeRelationCandidatesExist]
    } else {
        seq![]
    }
}

/// Whether the JARs' metadata confirms that a mod is missing.
fn confirmed_by_graph(attribution: &BootMissingDependency, graph: &DependencyGraph) -> (r: bool)
    ensures
        r == graph_confirms(attribution@, graph.nodes@),
{
    match &attribution.requesting_mod_id {
        Some(requesting) => {
            match graph.find_by_mod_id(requesting.as_str()) {
                Some(node) => node.requires_dependency(attribution.missing_mod_id.as_str()),
                None => false,
            }
        },
        None => {
            let plan = graph.create_plan();
            let ghost all = dependency_graph::missing_below(
                graph.nodes@,
                graph.nodes@.len() as int,
            );
            assert(plan.missing@.len() == all.len());
            let mut i: usize = 0;
            while i < plan.missing.len()
                invariant
                    i <= plan.missing.len(),
                    plan.missing@.len() == all.len(),
                    dependency_graph::missing_views(plan.missing@) == all,
                    all == dependency_graph::missing_below(
                        graph.nodes@,
                        graph.nodes@.len() as int,
                    ),
                    attribution.requesting_mod_id is None,
                    forall|k: int|
                        0 <= k < i ==> (#[trigger] all[k]).dependency_mod_id
                            != attribution.missing_mod_id@,
                decreases plan.missing.len() - i,
            {
                assert(dependency_graph::missing_views(plan.missing@)[i as int]
                    == plan.missing@[i as int]@);
                if str_eq(
                    plan.missing[i].dependency_mod_id.as_str(),
                    attribution.missing_mod_id.as_str(),
                ) {
                    assert(all[i as int].dependency_mod_id == attribution.missing_mod_id@);
                    return true;
                }
                i = i + 1;
            }
            false
        },
    }
}

/// What confirms an attribution: the JARs' metadata, the requesting mod's
/// relations, or both. That projects are mapped to mod IDs confirms nothing.
pub fn verify_attribution(
    attribution: &BootMissingDependency,
    graph: &DependencyGraph,
    _project_map: &ProjectModMapping,
    installed_files: &InstalledFileRegistry,
) -> (r: Vec<VerificationSource>)
    ensures
        r@ == verification(attribution@, graph.nodes@, *installed_files),
{
    let graph_says = confirmed_by_graph(attribution, graph);
    let unknown = enumerate_unknown_required_projects(attribution, installed_files);
    let mut sources: Vec<VerificationSource> = Vec::new();
    if graph_says && unknown.len() > 0 {
        sources.push(VerificationSource::Both);
    } else if graph_says {
        sources.push(VerificationSource::JarMetadataGraph);
    } else if unknown.len() > 0 {
        sources.push(VerificationSource::RuntimeRelationCandidatesExist);
    }
    assert(sources@ =~= verification(attribution@, graph.nodes@, *installed_files));
    sources
}

/// A line is put down to Quilt just where Quilt's pattern reads it, and to
/// Fabric just where Fabric's does and Quilt's does not.
pub proof fn law_each_loader_has_its_lines(line: Seq<char>)
    ensures
        quilt_resolution(line) is Some ==> parse_line(line) == quilt_resolution(line),
        (parse_line(line) is Some && parse_line(line)->0.source
            == BootAttributionSource::QuiltLoader) <==> quilt_resolution(line) is Some,
        (parse_line(line) is Some && parse_line(line)->0.source
            == BootAttributionSource::FabricLoader) <==> fabric_resolution(line) is Some
            && quilt_resolution(line) is None,
{
}

/// Only required relations to projects that are not installed count, each
/// comes from the requesting mod's file, and none of them is left out.
pub proof fn law_unknown_required(
    deps: Seq<CurseDependency>,
    installed: Map<u64, InstalledFileInfo>,
    n: int,
    p: u64,
)
    requires
        0 <= n <= deps.len(),
    ensures
        unknown_below(deps, installed, n).contains(p) <==> !installed.contains_key(p) && exists|
            k: int,
        |
            0 <= k < n && (#[trigger] deps[k]).mod_id == p && deps[k].relation_type
                == relation_type::REQUIRED,
    decreases n,
{
    if n > 0 {
        law_unknown_required(deps, installed, n - 1, p);
        let prev = unknown_below(deps, installed, n - 1);
        let now = unknown_below(deps, installed, n);
        if prev.contains(p) {
            let k = choose|k: int| 0 <= k < prev.len() && prev[k] == p;
            assert(now[k] == p);
        }
        if now.contains(p) {
            let k = choose|k: int| 0 <= k < now.len() && now[k] == p;
            if k < prev.len() {
                assert(prev[k] == p);
            }
        }
        if deps[n - 1].relation_type == relation_type::REQUIRED && !installed.contains_key(
            deps[n - 1].mod_id,
        ) {
            assert(now[prev.len() as int] == deps[n - 1].mod_id);
        }
    }
}

/// What the log says is not enough for a repair: with a graph that knows no
/// mods and a registry that knows no files nothing confirms it.
pub proof fn law_log_alone_confirms_nothing(
    attribution: BootMissingView,
    installed: InstalledFileRegistry,
)
    requires
        installed.by_mod_id@ == Map::<Seq<char>, InstalledFileInfo>::empty(),
    ensures
        verification(attribution, seq![], installed).len() == 0,
{
}

// ---------------------------------------------------------------------
// What logs tell
// ---------------------------------------------------------------------

/// A text is folded part by part.
proof fn lemma_folded_parts(a: Seq<char>, w: Seq<char>, b: Seq<char>)
    ensures
        text::folded(a + w + b) == text::folded(a) + text::folded(w) + text::folded(b),
{
    assert(text::folded(a + w + b) =~= text::folded(a) + text::folded(w) + text::folded(b));
}

/// What stands in a log, in whatever case, is mentioned there.
proof fn lemma_mentioned(a: Seq<char>, w: Seq<char>, b: Seq<char>)
    ensures
        mentions(a + w + b, text::folded(w)),
{
    lemma_folded_parts(a, w, b);
    text_laws::law_contains_what_was_put_in(text::folded(a), text::folded(w), text::folded(b));
}

/// What is mentioned in a log still is when the log has more before and after it.
proof fn lemma_mentions_grows(a: Seq<char>, log: Seq<char>, b: Seq<char>, p: Seq<char>)
    requires
        mentions(log, p),
    ensures
        mentions(a + log + b, p),
{
    lemma_folded_parts(a, log, b);
    text_laws::law_contains_grows(text::folded(a), text::folded(log), text::folded(b), p);
}

proof fn lemma_tail_of_mention(log: Seq<char>, w: Seq<char>, head: Seq<char>, tail: Seq<char>)
    requires
        w == head + tail,
        mentions(log, w),
    ensures
        mentions(log, tail),
{
    let low = text::folded(log);
    text::lemma_contains(low, w);
    let i = choose|i: int| text::occurs_at(low, w, i);
    let n = head.len() as int;
    assert(low.subrange(i + n, i + n + tail.len()) =~= low.subrange(i, i + w.len()).subrange(
        n,
        n + tail.len(),
    ));
    assert(w.subrange(n, n + tail.len()) =~= tail);
    assert(text::occurs_at(low, tail, i + n));
    text::lemma_contains(low, tail);
}

proof fn lemma_long_names(log: Seq<char>)
    ensures
        mentions(log, "java.lang.outofmemoryerror"@) ==> mentions(log, "outofmemoryerror"@),
        mentions(log, "java.lang.unsupportedclassversionerror"@) ==> mentions(
            log,
            "unsupportedclassversionerror"@,
        ),
{
    reveal_strlit("java.lang.");
    reveal_strlit("outofmemoryerror");
    reveal_strlit("java.lang.outofmemoryerror");
    reveal_strlit("unsupportedclassversionerror");
    reveal_strlit("java.lang.unsupportedclassversionerror");
    assert("java.lang.outofmemoryerror"@ =~= "java.lang."@ + "outofmemoryerror"@);
    assert("java.lang.unsupportedclassversionerror"@ =~= "java.lang."@
        + "unsupportedclassversionerror"@);
    if mentions(log, "java.lang.outofmemoryerror"@) {
        lemma_tail_of_mention(
            log,
            "java.lang.outofmemoryerror"@,
            "java.lang."@,
            "outofmemoryerror"@,
        );
    }
    if mentions(log, "java.lang.unsupportedclassversionerror"@) {
        lemma_tail_of_mention(
            log,
            "java.lang.unsupportedclassversionerror"@,
            "java.lang."@,
            "unsupportedclassversionerror"@,
        );
    }
}

/// Whether a log has no sign of a lack of memory.
pub open spec fn no_sign_of_oom(log: Seq<char>) -> bool {
    !text::contains(text::folded(log), "outofmemoryerror"@) && !text::contains(
        text::folded(log),
        "out of memory"@,
    )
}

/// Whether a log has no sign of a wrong Java version.
pub open spec fn no_sign_of_wrong_java(log: Seq<char>) -> bool {
    !text::contains(text::folded(log), "unsupportedclassversionerror"@) && !text::contains(
        text::folded(log),
        "class file version"@,
    )
}

/// A log in which `OutOfMemoryError` or `out of memory` stands anywhere, in
/// whatever case, is put down to a lack of memory, whatever else it says.
pub proof fn law_lack_of_memory_is_told(a: Seq<char>, w: Seq<char>, b: Seq<char>)
    requires
        text::folded(w) == "outofmemoryerror"@ || text::folded(w) == "out of memory"@,
    ensures
        attribution(a + w + b) == AttributionView::OutOfMemory,
{
    lemma_mentioned(a, w, b);
}

/// A log in which `UnsupportedClassVersionError` or `class file version` stands
/// anywhere, in whatever case, and that has no sign of a lack of memory, is put
/// down to a wrong Java version, whatever else it says.
pub proof fn law_wrong_java_is_told(a: Seq<char>, w: Seq<char>, b: Seq<char>)
    requires
        text::folded(w) == "unsupportedclassversionerror"@ || text::folded(w)
            == "class file version"@,
        no_sign_of_oom(a + w + b),
    ensures
        attribution(a + w + b) == AttributionView::WrongJavaVersion,
{
    lemma_mentioned(a, w, b);
    lemma_long_names(a + w + b);
}

/// More text before or after a log takes no sign away: what tells of a lack of
/// memory, or of a wrong Java version, still does.
pub proof fn law_more_log_takes_nothing_away(a: Seq<char>, log: Seq<char>, b: Seq<char>)
    ensures
        attribution(log) == AttributionView::OutOfMemory ==> attribution(a + log + b)
            == AttributionView::OutOfMemory,
        attribution(log) == AttributionView::WrongJavaVersion && no_sign_of_oom(a + log + b)
            ==> attribution(a + log + b) == AttributionView::WrongJavaVersion,
{
    if attribution(log) == AttributionView::OutOfMemory {
        lemma_long_names(log);
        if mentions(log, "outofmemoryerror"@) {
            lemma_mentions_grows(a, log, b, "outofmemoryerror"@);
        } else {
            lemma_mentions_grows(a, log, b, "out of memory"@);
        }
    }
    if attribution(log) == AttributionView::WrongJavaVersion {
        lemma_long_names(log);
        lemma_long_names(a + log + b);
        if mentions(log, "unsupportedclassversionerror"@) {
            lemma_mentions_grows(a, log, b, "unsupportedclassversionerror"@);
        } else {
            lemma_mentions_grows(a, log, b, "class file version"@);
        }
    }
}

/// A log without these signs is put down to neither, and one without a line that
/// requires anything and without a missing mandatory dependency to nothing.
pub proof fn law_no_sign_no_cause(log: Seq<char>)
    requires
        no_sign_of_oom(log),
        no_sign_of_wrong_java(log),
    ensures
        attribution(log) is Unknown || attribution(log) is MissingDependency,
        (forall|n: int|
            0 <= n < text::lines(log).len() ==> says_nothing(#[trigger] text::lines(log)[n]))
            ==> attribution(log) is Unknown,
{
    lemma_long_names(log);
    if forall|n: int|
        0 <= n < text::lines(log).len() ==> says_nothing(#[trigger] text::lines(log)[n]) {
        lemma_first_telling(text::lines(log), 0, text::lines(log).len() as int);
    }
}

/// Whether a line has none of the words by which a loader says what is missing.
pub open spec fn says_nothing(line: Seq<char>) -> bool {
    !text::contains(text::folded(line), "requires"@) && !text::contains(
        text::folded(line),
        "missing mandatory dependency"@,
    )
}

proof fn lemma_says_nothing(line: Seq<char>)
    requires
        says_nothing(line),
    ensures
        parse_line(line) is None,
{
    reveal_strlit("requires");
    reveal_strlit(" mod");
    reveal_strlit("requires mod");
    reveal_strlit("' ");
    reveal_strlit("' requires mod '");
    let low = text::folded(line);
    text::lemma_contains(low, "requires"@);
    if text::contains(low, "requires mod"@) {
        text::lemma_contains(low, "requires mod"@);
        let i = choose|i: int| text::occurs_at(low, "requires mod"@, i);
        let w = "requires mod"@;
        assert(low.subrange(i, i + 8) =~= low.subrange(i, i + w.len()).subrange(0, 8));
        assert(w.subrange(0, 8) =~= "requires"@);
        assert(text::occurs_at(low, "requires"@, i));
    }
    let q = "' requires mod '"@;
    text::lemma_find_from(line, q, 0);
    if text::find(line, q) is Some {
        let i = text::find(line, q)->0;
        assert forall|k: int| 0 <= k < 8 implies low[i + 2 + k] == "requires"@[k] by {
            text_laws::lemma_occurs_char(line, q, i, 2 + k);
            assert(low[i + 2 + k] == text::fold(line[i + 2 + k]));
            assert(k == 0 || k == 1 || k == 2 || k == 3 || k == 4 || k == 5 || k == 6 || k == 7);
        }
        assert(low.subrange(i + 2, i + 10) =~= "requires"@);
        assert(text::occurs_at(low, "requires"@, i + 2));
    }
}

/// The first line that says anything is what counts.
proof fn lemma_first_telling(lines: Seq<Seq<char>>, i: int, k: int)
    requires
        0 <= i <= k <= lines.len(),
        forall|n: int| i <= n < k ==> says_nothing(#[trigger] lines[n]),
    ensures
        k == lines.len() ==> first_parse(lines, i) is None,
        k < lines.len() && parse_line(lines[k]) is Some ==> first_parse(lines, i) == parse_line(
            lines[k],
        ),
    decreases k - i,
{
    if i < k {
        lemma_says_nothing(lines[i]);
        lemma_first_telling(lines, i + 1, k);
    }
}

/// What stands up to a marker that does not stand earlier, in whatever case.
pub open spec fn marked_in(
    line: Seq<char>,
    a: Seq<char>,
    marker: Seq<char>,
    b: Seq<char>,
    low: Seq<char>,
) -> bool {
    &&& line == a + marker + b
    &&& text::folded(marker) == low
    &&& forall|i: int| 0 <= i < a.len() ==> !text::occurs_at(text::folded(line), low, i)
}

proof fn lemma_marked_in(line: Seq<char>, a: Seq<char>, marker: Seq<char>, b: Seq<char>, low: Seq<char>)
    requires
        marked_in(line, a, marker, b, low),
    ensures
        text::find(text::folded(line), low) == Some(a.len() as int),
        mentions(line, low),
        low.len() == marker.len(),
        line.subrange(0, a.len() as int) == a,
        line.subrange(a.len() as int + low.len(), line.len() as int) == b,
{
    lemma_folded_parts(a, marker, b);
    text_laws::lemma_find_at(text::folded(a), low, text::folded(b));
    assert(line.subrange(0, a.len() as int) =~= a);
    assert(line.subrange(a.len() as int + low.len(), line.len() as int) =~= b);
}

/// Whether a text is one word: not empty, without white space, brackets, commas
/// and quotes.
pub open spec fn is_word(s: Seq<char>) -> bool {
    &&& s.len() > 0
    &&& forall|k: int|
        0 <= k < s.len() ==> !text::is_ws(#[trigger] s[k]) && s[k] != '(' && s[k] != ')' && s[k]
            != ',' && s[k] != '\'' && s[k] != '"'
}

/// Whether what follows a word ends it: nothing, or white space, a bracket or a
/// comma first.
pub open spec fn ends_word(s: Seq<char>) -> bool {
    s.len() == 0 || text::is_ws(s[0]) || s[0] == '(' || s[0] == ','
}

proof fn lemma_word_end(w: Seq<char>, rest: Seq<char>, ws: bool, set: Seq<char>, i: int)
    requires
        0 <= i <= w.len(),
        forall|k: int|
            0 <= k < w.len() ==> !((ws && text::is_ws(#[trigger] w[k])) || set.contains(w[k])),
        rest.len() > 0 ==> (ws && text::is_ws(rest[0])) || set.contains(rest[0]),
    ensures
        text::stop_index(w + rest, ws, set, i) == w.len(),
    decreases w.len() - i,
{
    let s = w + rest;
    if i < w.len() {
        assert(s[i] == w[i]);
        assert(!((ws && text::is_ws(w[i])) || set.contains(w[i])));
        lemma_word_end(w, rest, ws, set, i + 1);
    } else if rest.len() > 0 {
        assert(s[i] == rest[0]);
    }
}

proof fn lemma_unquoted(s: Seq<char>)
    requires
        is_word(s),
    ensures
        unquote(s) == s,
        text::trim(s) == s,
{
    assert(!text::is_ws(s[0]) && !text::is_ws(s[s.len() - 1]));
    text_laws::lemma_trim_plain(s);
    assert(s[0] != '\'' && s[s.len() - 1] != '\'' && s[0] != '"' && s[s.len() - 1] != '"');
    assert(text::skip(s, false, '\'', 0) == 0);
    assert(text::back(s, false, '\'', 0, s.len() as int) == s.len());
    assert(s.subrange(0, s.len() as int) =~= s);
    assert(text::trim_char(s, '\'') == s);
    assert(text::skip(s, false, '"', 0) == 0);
    assert(text::back(s, false, '"', 0, s.len() as int) == s.len());
}

proof fn lemma_first_word(l: Seq<char>, y: Seq<char>, tail: Seq<char>)
    requires
        text_laws::is_blank(l),
        is_word(y),
        ends_word(tail),
    ensures
        ({
            let after = text::trim(l + y + tail);
            let e = text::stop_index(after, true, "(,"@, 0);
            after.len() >= y.len() && e == y.len() && after.subrange(0, e) == y && after[0] == y[0]
        }),
{
    reveal_strlit("(,");
    let s = l + y + tail;
    let set = "(,"@;
    assert(set[0] == '(' && set[1] == ',');
    assert(set.contains('(') && set.contains(','));
    text_laws::law_trim_leaves_a_core(tail);
    let core = text::trim(tail);
    let (tl, tr) = choose|tl: Seq<char>, tr: Seq<char>|
        text_laws::is_blank(tl) && text_laws::is_blank(tr) && tail == #[trigger] text_laws::around(
            tl,
            core,
            tr,
        );
    assert(!text::is_ws(y[0]) && !text::is_ws(y[y.len() - 1]));
    let rest = if core.len() == 0 {
        Seq::<char>::empty()
    } else {
        tl + core
    };
    let whole = y + rest;
    if core.len() == 0 {
        assert(text_laws::is_blank(tail)) by {
            assert forall|k: int| 0 <= k < tail.len() implies text::is_ws(#[trigger] tail[k]) by {
                if k < tl.len() {
                    assert(tail[k] == tl[k]);
                } else {
                    assert(tail[k] == tr[k - tl.len()]);
                }
            }
        }
        assert(whole =~= y);
        text_laws::law_trim(l, whole, tail);
    } else {
        assert(whole.last() == core.last());
        assert(whole[0] == y[0]);
        text_laws::law_trim(l, whole, tr);
        assert(l + whole + tr =~= s);
        if tl.len() > 0 {
            assert(rest[0] == tl[0]);
            assert(text::is_ws(tl[0]));
        } else {
            assert(rest[0] == core[0]);
            assert(tail[0] == core[0]);
        }
    }
    assert(text::trim(s) == whole);
    assert forall|k: int| 0 <= k < y.len() implies !((true && text::is_ws(#[trigger] y[k]))
        || set.contains(y[k])) by {
        if set.contains(y[k]) {
            let q = choose|q: int| 0 <= q < set.len() && set[q] == y[k];
            assert(q == 0 || q == 1);
        }
    }
    lemma_word_end(y, rest, true, set, 0);
    assert(whole.subrange(0, y.len() as int) =~= y);
}

/// A line `'X' requires mod 'Y'`, with whatever around it, says that X needs Y.
pub proof fn law_quoted_requirement_is_read(
    line: Seq<char>,
    pre: Seq<char>,
    x: Seq<char>,
    y: Seq<char>,
    post: Seq<char>,
    source: BootAttributionSource,
)
    requires
        line == pre + seq!['\''] + x + "' requires mod '"@ + y + seq!['\''] + post,
        forall|k: int| 0 <= k < x.len() ==> x[k] != '\'',
        y.len() > 0,
        forall|k: int| 0 <= k < y.len() ==> y[k] != '\'',
        forall|i: int|
            0 <= i < pre.len() + 1 + x.len() ==> !text::occurs_at(line, "' requires mod '"@, i),
    ensures
        requires_mod(line, source) is Some,
        requires_mod(line, source)->0.requesting_mod_id == Some(x),
        requires_mod(line, source)->0.missing_mod_id == y,
        requires_mod(line, source)->0.source == source,
        requires_mod(line, source)->0.version_requirement == version_constraint(
            seq!['\''] + post,
        ),
{
    reveal_strlit("'");
    let marker = "' requires mod '"@;
    let a = pre + seq!['\''] + x;
    let b = y + seq!['\''] + post;
    assert(line =~= a + marker + b);
    text_laws::lemma_find_at(a, marker, b);
    let before = line.subrange(0, a.len() as int);
    let after = line.subrange(a.len() as int + marker.len(), line.len() as int);
    assert(before =~= a);
    assert(after =~= b);
    lemma_last_quote(pre, x, x.len() as int);
    assert(a.subrange(pre.len() as int + 1, a.len() as int) =~= x);
    assert forall|k: int| 0 <= k < y.len() implies !((false && text::is_ws(#[trigger] y[k]))
        || "'"@.contains(y[k])) by {
        if "'"@.contains(y[k]) {
            let q = choose|q: int| 0 <= q < "'"@.len() && "'"@[q] == y[k];
            assert(q == 0);
        }
    }
    let rest = seq!['\''] + post;
    assert("'"@[0] == '\'');
    assert("'"@.contains(rest[0]));
    lemma_word_end(y, rest, false, "'"@, 0);
    assert(b =~= y + rest);
    assert(after.subrange(0, y.len() as int) =~= y);
    assert(after.subrange(y.len() as int, after.len() as int) =~= rest);
}

proof fn lemma_last_quote(pre: Seq<char>, x: Seq<char>, n: int)
    requires
        0 <= n <= x.len(),
        forall|k: int| 0 <= k < x.len() ==> x[k] != '\'',
    ensures
        text::last_index(pre + seq!['\''] + x, '\'', pre.len() as int + 1 + n) == pre.len(),
    decreases n,
{
    let s = pre + seq!['\''] + x;
    if n > 0 {
        assert(s[pre.len() as int + n] == x[n - 1]);
        lemma_last_quote(pre, x, n - 1);
    } else {
        assert(s[pre.len() as int] == '\'');
    }
}

/// A line `Mod X requires mod Y`, in whatever case, with whatever after the name
/// Y, says that X needs Y.
pub proof fn law_plain_requirement_is_read(
    line: Seq<char>,
    x: Seq<char>,
    marker: Seq<char>,
    y: Seq<char>,
    tail: Seq<char>,
    source: BootAttributionSource,
)
    requires
        is_word(x),
        is_word(y),
        ends_word(tail),
        marked_in(line, "Mod "@ + x + seq![' '], marker, seq![' '] + y + tail, "requires mod"@),
        !text::contains(line, "' requires mod '"@),
    ensures
        requires_mod(line, source) is Some,
        requires_mod(line, source)->0.requesting_mod_id == Some(x),
        requires_mod(line, source)->0.missing_mod_id == y,
        requires_mod(line, source)->0.source == source,
{
    reveal_strlit("Mod ");
    let a = "Mod "@ + x + seq![' '];
    let b = seq![' '] + y + tail;
    lemma_marked_in(line, a, marker, b, "requires mod"@);
    let named = "Mod "@ + x;
    assert(!text::is_ws(x[0]) && !text::is_ws(x[x.len() - 1]));
    assert(named.last() == x.last());
    assert(text_laws::is_blank(seq![' ']));
    assert(text_laws::is_blank(Seq::<char>::empty()));
    text_laws::law_trim(seq![], named, seq![' ']);
    assert(Seq::<char>::empty() + named + seq![' '] =~= a);
    text_laws::law_ends("Mod "@, x);
    assert(named.subrange(4, named.len() as int) =~= x);
    lemma_unquoted(x);
    lemma_first_word(seq![' '], y, tail);
    lemma_unquoted(y);
}

/// A line `Missing mandatory dependency Y`, in whatever case, with whatever
/// around it, says that Y is missing.
pub proof fn law_missing_mandatory_is_read(
    line: Seq<char>,
    a: Seq<char>,
    marker: Seq<char>,
    l: Seq<char>,
    y: Seq<char>,
    tail: Seq<char>,
)
    requires
        text_laws::is_blank(l),
        is_word(y),
        ends_word(tail),
        marked_in(line, a, marker, l + y + tail, "missing mandatory dependency"@),
    ensures
        forge_missing_mandatory(line) == Some(
            ParsedView {
                requesting_mod_id: None,
                missing_mod_id: y,
                version_requirement: None,
                source: BootAttributionSource::ForgeLoader,
            },
        ),
{
    lemma_marked_in(line, a, marker, l + y + tail, "missing mandatory dependency"@);
    lemma_first_word(l, y, tail);
    assert(y[0] != '\'' && y[0] != '"');
}

/// Whose message it is follows from whom the line mentions: Quilt where it
/// mentions Quilt, Fabric where it mentions a `ModResolutionException` and not
/// Quilt, and Forge otherwise.
pub proof fn law_requirement_is_put_down_to_its_loader(line: Seq<char>)
    requires
        text::contains(text::folded(line), "requires mod"@),
        forall|s: BootAttributionSource| (#[trigger] requires_mod(line, s)) is Some,
    ensures
        parse_line(line) is Some,
        parse_line(line)->0.source == (if text::contains(text::folded(line), "quilt"@) {
            BootAttributionSource::QuiltLoader
        } else if text::contains(text::folded(line), "modresolutionexception"@) {
            BootAttributionSource::FabricLoader
        } else {
            BootAttributionSource::ForgeLoader
        }),
        parse_line(line) == requires_mod(line, parse_line(line)->0.source),
{
    reveal_strlit("requires");
    reveal_strlit("requires mod");
    let low = text::folded(line);
    text::lemma_contains(low, "requires mod"@);
    let i = choose|i: int| text::occurs_at(low, "requires mod"@, i);
    let w = "requires mod"@;
    assert(low.subrange(i, i + 8) =~= low.subrange(i, i + w.len()).subrange(0, 8));
    assert(w.subrange(0, 8) =~= "requires"@);
    assert(text::occurs_at(low, "requires"@, i));
    text::lemma_contains(low, "requires"@);
    let q = BootAttributionSource::QuiltLoader;
    let f = BootAttributionSource::FabricLoader;
    let g = BootAttributionSource::ForgeLoader;
    assert(requires_mod(line, q) is Some && requires_mod(line, f) is Some && requires_mod(line, g)
        is Some);
    lemma_source_kept(line, q);
    lemma_source_kept(line, f);
    lemma_source_kept(line, g);
}

proof fn lemma_source_kept(line: Seq<char>, s: BootAttributionSource)
    ensures
        requires_mod(line, s) is Some ==> requires_mod(line, s)->0.source == s,
{
}

/// In a log without a sign of a lack of memory or a wrong Java version, the first
/// line that says what is missing is the cause, and surely; the lines before it
/// say nothing, and those after it do not matter.
pub proof fn law_first_requirement_is_the_cause(log: Seq<char>, k: int)
    requires
        no_sign_of_oom(log),
        no_sign_of_wrong_java(log),
        0 <= k < text::lines(log).len(),
        forall|n: int| 0 <= n < k ==> says_nothing(#[trigger] text::lines(log)[n]),
        parse_line(text::lines(log)[k]) is Some,
    ensures
        ({
            let p = parse_line(text::lines(log)[k])->0;
            attribution(log) == AttributionView::MissingDependency(
                BootMissingView {
                    requesting_mod_id: p.requesting_mod_id,
                    missing_mod_id: p.missing_mod_id,
                    version_requirement: p.version_requirement,
                    source: p.source,
                    confidence: AttributionConfidence::High,
                },
            )
        }),
{
    lemma_long_names(log);
    lemma_first_telling(text::lines(log), 0, k);
}

/// A log one line of which is `Mod 'X' requires mod 'Y'`, while the lines before
/// it say nothing and nothing tells of memory or Java, is put down to Y missing,
/// which X needs.
pub proof fn law_missing_mod_is_told(
    log: Seq<char>,
    k: int,
    pre: Seq<char>,
    x: Seq<char>,
    y: Seq<char>,
    post: Seq<char>,
)
    requires
        no_sign_of_oom(log),
        no_sign_of_wrong_java(log),
        0 <= k < text::lines(log).len(),
        forall|n: int| 0 <= n < k ==> says_nothing(#[trigger] text::lines(log)[n]),
        text::lines(log)[k] == pre + seq!['\''] + x + "' requires mod '"@ + y + seq!['\''] + post,
        text::contains(text::folded(text::lines(log)[k]), "requires mod"@),
        forall|q: int| 0 <= q < x.len() ==> x[q] != '\'',
        y.len() > 0,
        forall|q: int| 0 <= q < y.len() ==> y[q] != '\'',
        forall|i: int|
            0 <= i < pre.len() + 1 + x.len() ==> !text::occurs_at(
                text::lines(log)[k],
                "' requires mod '"@,
                i,
            ),
    ensures
        attribution(log) is MissingDependency,
        attribution(log)->MissingDependency_0.missing_mod_id == y,
        attribution(log)->MissingDependency_0.requesting_mod_id == Some(x),
        attribution(log)->MissingDependency_0.confidence == AttributionConfidence::High,
{
    let line = text::lines(log)[k];
    assert forall|s: BootAttributionSource| (#[trigger] requires_mod(line, s)) is Some by {
        law_quoted_requirement_is_read(line, pre, x, y, post, s);
    }
    law_requirement_is_put_down_to_its_loader(line);
    law_quoted_requirement_is_read(line, pre, x, y, post, parse_line(line)->0.source);
    law_first_requirement_is_the_cause(log, k);
}

// ---------------------------------------------------------------------
// What confirms a cause
// ---------------------------------------------------------------------

/// The metadata of a JAR that alone lists the requesting mod confirms the cause
/// where that JAR requires the missing mod, and does not where it does not.
pub proof fn law_requesting_jar_confirms(
    m: BootMissingView,
    nodes: Seq<dependency_graph::ModNode>,
    i: int,
)
    requires
        m.requesting_mod_id is Some,
        0 <= i < nodes.len(),
        forall|x: int|
            0 <= x < nodes.len() ==> dependency_graph::lists_id(
                #[trigger] nodes[x],
                m.requesting_mod_id->0,
            ) == (x == i),
    ensures
        graph_confirms(m, nodes) <==> exists|k: int|
            0 <= k < nodes[i].dependencies@.len() && (#[trigger] nodes[i].dependencies@[k]).mod_id@
                == m.missing_mod_id && nodes[i].dependencies@[k].kind
                == DependencyKind::Required,
{
    let id = m.requesting_mod_id->0;
    assert(dependency_graph::lists_id(nodes[i], id));
    dependency_graph::law_lookup_by_mod_id(nodes, id, i);
    let last = dependency_graph::providers(nodes, id).last();
    assert(dependency_graph::lists_id(nodes[last], id));
    assert(last == i);
}

/// A cause is confirmed by the metadata, by relations of the requesting mod's
/// file to required projects that are not installed, by both, or not at all; and
/// what is said to confirm it is just what does.
pub proof fn law_what_confirms_is_said(
    m: BootMissingView,
    nodes: Seq<dependency_graph::ModNode>,
    installed: InstalledFileRegistry,
)
    ensures
        ({
            let v = verification(m, nodes, installed);
            let by_relation = exists|k: int|
                m.requesting_mod_id is Some && installed.by_mod_id@.contains_key(
                    m.requesting_mod_id->0,
                ) && 0 <= k
                    < installed.by_mod_id@[m.requesting_mod_id->0].dependencies@.len() && (
                #[trigger] installed.by_mod_id@[m.requesting_mod_id->0].dependencies@[k]).relation_type
                    == 3 && !installed.by_project_id@.contains_key(
                    installed.by_mod_id@[m.requesting_mod_id->0].dependencies@[k].mod_id,
                );
            &&& v.len() <= 1
            &&& v.contains(VerificationSource::Both) <==> graph_confirms(m, nodes) && by_relation
            &&& v.contains(VerificationSource::JarMetadataGraph) <==> graph_confirms(m, nodes)
                && !by_relation
            &&& v.contains(VerificationSource::RuntimeRelationCandidatesExist)
                <==> !graph_confirms(m, nodes) && by_relation
            &&& v.len() == 0 <==> !graph_confirms(m, nodes) && !by_relation
        }),
{
    let v = verification(m, nodes, installed);
    if v.len() == 1 {
        assert(v[0] == v[0]);
        assert(v.contains(v[0]));
    }
    if m.requesting_mod_id is Some && installed.by_mod_id@.contains_key(m.requesting_mod_id->0) {
        let deps = installed.by_mod_id@[m.requesting_mod_id->0].dependencies@;
        let known = installed.by_project_id@;
        let n = deps.len() as int;
        let found = unknown_below(deps, known, n);
        if found.len() > 0 {
            law_unknown_required(deps, known, n, found[0]);
            assert(found.contains(found[0]));
        }
        assert forall|k: int|
            0 <= k < n && (#[trigger] deps[k]).relation_type == 3 && !known.contains_key(
                deps[k].mod_id,
            ) implies found.len() > 0 by {
            law_unknown_required(deps, known, n, deps[k].mod_id);
        }
    }
}

/// A version in round brackets is read without the comparison before it.
pub proof fn law_version_in_brackets(a: Seq<char>, op: Seq<char>, v: Seq<char>, b: Seq<char>)
    requires
        forall|k: int| 0 <= k < a.len() ==> a[k] != '(',
        op == Seq::<char>::empty() || op == ">="@ || op == "<="@,
        v.len() > 0,
        '0' <= v[0] <= '9',
        !text::is_ws(v.last()),
        forall|k: int| 0 <= k < v.len() ==> v[k] != ')' && v[k] != '(',
    ensures
        version_constraint(a + seq!['('] + (op + v) + seq![')'] + b) == Some(v),
{
    reveal_strlit("(");
    reveal_strlit(")");
    reveal_strlit(">=");
    reveal_strlit("<=");
    let s = a + seq!['('] + (op + v) + seq![')'] + b;
    let inner = op + v;
    let start = a.len() as int;
    let stop = start + 1 + inner.len();
    assert(s[start] == '(');
    assert(s[stop] == ')');
    assert("("@ =~= seq!['(']);
    assert(")"@ =~= seq![')']);
    assert forall|k: int| 0 <= k < start implies s[k] != '(' by {
        assert(s[k] == a[k]);
    }
    text_laws::lemma_stop_skips(s, '(', 0, start);
    assert forall|k: int| start <= k < stop implies s[k] != ')' by {
        if k > start {
            let q = k - start - 1;
            assert(s[k] == inner[q]);
            if q < op.len() {
                assert(inner[q] == op[q]);
                assert(q == 0 || q == 1);
            } else {
                assert(inner[q] == v[q - op.len()]);
            }
        }
    }
    text_laws::lemma_stop_skips(s, ')', start, stop);
    assert(s.subrange(start + 1, stop) =~= inner);
    assert(inner.last() == v.last());
    assert(!text::is_ws(v[0]));
    assert(!text::is_ws(inner[0])) by {
        if op.len() > 0 {
            assert(inner[0] == op[0]);
        } else {
            assert(inner[0] == v[0]);
        }
    }
    text_laws::lemma_trim_plain(inner);
    lemma_no_sign(v, ">="@);
    lemma_no_sign(v, "<="@);
    assert(v.subrange(0, v.len() as int) =~= v);
    if op == ">="@ {
        assert(text::occurs_at(inner, ">="@, 0)) by {
            assert(inner.subrange(0, 2) =~= ">="@);
        }
        lemma_skip_sign(inner, ">="@, v);
        assert(text::trim_start_str(inner, ">="@) =~= v);
    } else if op == "<="@ {
        if text::occurs_at(inner, ">="@, 0) {
            text_laws::lemma_occurs_char(inner, ">="@, 0, 0);
            assert(inner[0] == op[0]);
        }
        assert(text::skip_str(inner, ">="@, 0) == 0);
        assert(inner.subrange(0, inner.len() as int) =~= inner);
        assert(text::trim_start_str(inner, ">="@) == inner);
        lemma_skip_sign(inner, "<="@, v);
        assert(text::trim_start_str(inner, "<="@) =~= v);
    } else {
        assert(inner =~= v);
    }
    let w = text::trim_start_str(text::trim_start_str(inner, ">="@), "<="@);
    assert(w == v);
    assert(text::trim_start_char(v, '>') == v);
    assert(text::trim_start_char(v, '<') == v);
    assert(text::trim_start_char(v, '=') == v);
    text_laws::lemma_trim_plain(v);
}

proof fn lemma_no_sign(v: Seq<char>, op: Seq<char>)
    requires
        v.len() > 0,
        '0' <= v[0] <= '9',
        op == ">="@ || op == "<="@,
    ensures
        text::skip_str(v, op, 0) == 0,
        text::trim_start_str(v, op) == v,
{
    reveal_strlit(">=");
    reveal_strlit("<=");
    if text::occurs_at(v, op, 0) {
        text_laws::lemma_occurs_char(v, op, 0, 0);
    }
    assert(v.subrange(0, v.len() as int) =~= v);
}

proof fn lemma_skip_sign(s: Seq<char>, op: Seq<char>, v: Seq<char>)
    requires
        s == op + v,
        op == ">="@ || op == "<="@,
        v.len() > 0,
        '0' <= v[0] <= '9',
    ensures
        text::skip_str(s, op, 0) == op.len(),
        s.subrange(op.len() as int, s.len() as int) == v,
{
    reveal_strlit(">=");
    reveal_strlit("<=");
    let n = op.len() as int;
    assert(s.subrange(0, n) =~= op);
    assert(text::occurs_at(s, op, 0));
    if text::occurs_at(s, op, n) {
        text_laws::lemma_occurs_char(s, op, n, 0);
        assert(s[n] == v[0]);
    }
    assert(text::skip_str(s, op, n) == n);
    assert(s.subrange(n, s.len() as int) =~= v);
}

/// A line `requires Y version X`, in whatever case, says that Y is missing, and in
/// which version.
pub proof fn law_required_version_is_read(
    line: Seq<char>,
    a: Seq<char>,
    req: Seq<char>,
    y: Seq<char>,
    ver: Seq<char>,
    x: Seq<char>,
)
    requires
        line == a + req + seq![' '] + y + seq![' '] + ver + seq![' '] + x,
        text::folded(req) == "requires"@,
        text::folded(ver) == "version"@,
        is_word(y),
        is_word(x),
        forall|i: int|
            0 <= i < a.len() ==> !text::occurs_at(text::folded(line), "requires"@, i),
        forall|i: int|
            0 <= i < a.len() + req.len() + 1 + y.len() + 1 ==> !text::occurs_at(
                text::folded(line),
                "version"@,
                i,
            ),
    ensures
        forge_requires_version(line) == Some(
            ParsedView {
                requesting_mod_id: None,
                missing_mod_id: y,
                version_requirement: Some(x),
                source: BootAttributionSource::ForgeLoader,
            },
        ),
{
    reveal_strlit("requires");
    reveal_strlit("version");
    let sp = seq![' '];
    let low = text::folded(line);
    assert(text::folded(req).len() == req.len());
    assert(text::folded(ver).len() == ver.len());
    let tail1 = sp + y + sp + ver + sp + x;
    assert(line =~= a + req + tail1);
    lemma_folded_parts(a, req, tail1);
    assert(text::folded(a).len() == a.len());
    text_laws::lemma_find_at(text::folded(a), "requires"@, text::folded(tail1));
    let head = a + req + sp + y + sp;
    let tail2 = sp + x;
    assert(line =~= head + ver + tail2);
    lemma_folded_parts(head, ver, tail2);
    assert(text::folded(head).len() == head.len());
    text_laws::lemma_find_at(text::folded(head), "version"@, text::folded(tail2));
    let r = a.len() as int;
    let v = head.len() as int;
    assert(line.subrange(r + 8, v) =~= sp + y + sp);
    assert(text_laws::is_blank(sp));
    assert(!text::is_ws(y[0]) && !text::is_ws(y[y.len() - 1]));
    text_laws::law_trim(sp, y, sp);
    lemma_unquoted(y);
    lemma_last_word(y);
    assert(line.subrange(v + 7, line.len() as int) =~= sp + x);
    assert(text_laws::is_blank(Seq::<char>::empty()));
    assert(!text::is_ws(x[0]) && !text::is_ws(x[x.len() - 1]));
    text_laws::law_trim(sp, x, seq![]);
    assert(sp + x + Seq::<char>::empty() =~= sp + x);
    reveal_strlit(",)");
    let set = ",)"@;
    assert(set[0] == ',' && set[1] == ')');
    assert forall|k: int| 0 <= k < x.len() implies !((true && text::is_ws(#[trigger] x[k]))
        || set.contains(x[k])) by {
        if set.contains(x[k]) {
            let q = choose|q: int| 0 <= q < set.len() && set[q] == x[k];
            assert(q == 0 || q == 1);
        }
    }
    lemma_word_end(x, seq![], true, set, 0);
    assert(x + Seq::<char>::empty() =~= x);
    assert(x.subrange(0, x.len() as int) =~= x);
}

proof fn lemma_last_word(y: Seq<char>)
    requires
        is_word(y),
    ensures
        last_word(y) == y,
{
    let n = y.len() as int;
    assert(!text::is_ws(y[n - 1]));
    assert(text::back(y, true, ' ', 0, n) == n);
    lemma_word_start(y, n);
    assert(y.subrange(0, n) =~= y);
}

proof fn lemma_word_start(y: Seq<char>, e: int)
    requires
        is_word(y),
        0 <= e <= y.len(),
    ensures
        word_start(y, e) == 0,
    decreases e,
{
    if e > 0 {
        assert(!text::is_ws(y[e - 1]));
        lemma_word_start(y, e - 1);
    }
}

proof fn lemma_part(s: Seq<char>, a: int, b: int)
    requires
        0 <= a <= b <= s.len(),
    ensures
        text::contains(s, s.subrange(a, b)),
{
    text_laws::law_contains_what_was_put_in(s.take(a), s.subrange(a, b), s.skip(b));
    assert(s.take(a) + s.subrange(a, b) + s.skip(b) =~= s);
}

proof fn lemma_within(s: Seq<char>, p: Seq<char>, q: Seq<char>)
    requires
        text::contains(s, p),
        text::contains(p, q),
    ensures
        text::contains(s, q),
{
    text_laws::law_contains_is_a_cut(s, p);
    let (a, b) = choose|a: Seq<char>, b: Seq<char>| s == #[trigger] text_laws::around(a, p, b);
    text_laws::law_contains_grows(a, p, b, q);
}

proof fn lemma_trim_part(s: Seq<char>)
    ensures
        text::contains(s, text::trim(s)),
{
    text_laws::law_trim_leaves_a_core(s);
    let core = text::trim(s);
    let (l, r) = choose|l: Seq<char>, r: Seq<char>|
        text_laws::is_blank(l) && text_laws::is_blank(r) && s == #[trigger] text_laws::around(
            l,
            core,
            r,
        );
    text_laws::law_contains_what_was_put_in(l, core, r);
}

proof fn lemma_skip_within(s: Seq<char>, ws: bool, c: char, i: int)
    requires
        0 <= i <= s.len(),
    ensures
        i <= text::skip(s, ws, c, i) <= s.len(),
    decreases s.len() - i,
{
    if i < s.len() && text::trims(ws, c, s[i]) {
        lemma_skip_within(s, ws, c, i + 1);
    }
}

proof fn lemma_back_within(s: Seq<char>, ws: bool, c: char, lo: int, hi: int)
    requires
        0 <= lo <= hi <= s.len(),
    ensures
        lo <= text::back(s, ws, c, lo, hi) <= hi,
    decreases hi - lo,
{
    if lo < hi && text::trims(ws, c, s[hi - 1]) {
        lemma_back_within(s, ws, c, lo, hi - 1);
    }
}

proof fn lemma_unquote_part(s: Seq<char>)
    ensures
        text::contains(s, unquote(s)),
{
    let a = text::skip(s, false, '\'', 0);
    lemma_skip_within(s, false, '\'', 0);
    lemma_back_within(s, false, '\'', a, s.len() as int);
    lemma_part(s, a, text::back(s, false, '\'', a, s.len() as int));
    let t = text::trim_char(s, '\'');
    let b = text::skip(t, false, '"', 0);
    lemma_skip_within(t, false, '"', 0);
    lemma_back_within(t, false, '"', b, t.len() as int);
    lemma_part(t, b, text::back(t, false, '"', b, t.len() as int));
    lemma_within(s, t, unquote(s));
}

proof fn lemma_word_start_within(s: Seq<char>, e: int)
    requires
        0 <= e <= s.len(),
    ensures
        0 <= word_start(s, e) <= e,
    decreases e,
{
    if e > 0 && !text::is_ws(s[e - 1]) {
        lemma_word_start_within(s, e - 1);
    }
}

/// What a line is read to say is missing is not empty, and stands in the line.
pub proof fn law_missing_mod_stands_in_the_line(line: Seq<char>)
    ensures
        parse_line(line) is Some ==> parse_line(line)->0.missing_mod_id.len() > 0
            && text::contains(line, parse_line(line)->0.missing_mod_id),
{
    lemma_requires_mod_part(line, BootAttributionSource::QuiltLoader);
    lemma_requires_mod_part(line, BootAttributionSource::FabricLoader);
    lemma_requires_mod_part(line, BootAttributionSource::ForgeLoader);
    lemma_mandatory_part(line);
    lemma_version_part(line);
}

proof fn lemma_requires_mod_part(line: Seq<char>, source: BootAttributionSource)
    ensures
        requires_mod(line, source) is Some ==> requires_mod(line, source)->0.missing_mod_id.len()
            > 0 && text::contains(line, requires_mod(line, source)->0.missing_mod_id),
{
    let q = "' requires mod '"@;
    text::lemma_find_from(line, q, 0);
    if text::find(line, q) is Some {
        let pos = text::find(line, q)->0;
        let from = pos + q.len();
        let after = line.subrange(from, line.len() as int);
        lemma_part(line, from, line.len() as int);
        lemma_stop_hit(after, false, "'"@, 0);
        let e = text::stop_index(after, false, "'"@, 0);
        lemma_part(after, 0, e);
        lemma_within(line, after, after.subrange(0, e));
    }
    let m = "requires mod"@;
    let low = text::folded(line);
    text::lemma_find_from(low, m, 0);
    if text::find(low, m) is Some {
        let pos = text::find(low, m)->0;
        let from = pos + m.len();
        assert(low.len() == line.len());
        let raw = line.subrange(from, line.len() as int);
        lemma_part(line, from, line.len() as int);
        lemma_trim_part(raw);
        let after = text::trim(raw);
        lemma_within(line, raw, after);
        lemma_stop_hit(after, true, "(,"@, 0);
        let e = text::stop_index(after, true, "(,"@, 0);
        let w = after.subrange(0, e);
        lemma_part(after, 0, e);
        lemma_within(line, after, w);
        lemma_unquote_part(w);
        lemma_within(line, w, unquote(w));
    }
}

proof fn lemma_mandatory_part(line: Seq<char>)
    ensures
        forge_missing_mandatory(line) is Some ==> forge_missing_mandatory(
            line,
        )->0.missing_mod_id.len() > 0 && text::contains(
            line,
            forge_missing_mandatory(line)->0.missing_mod_id,
        ),
{
    let m = "missing mandatory dependency"@;
    let low = text::folded(line);
    text::lemma_find_from(low, m, 0);
    if text::find(low, m) is Some {
        let pos = text::find(low, m)->0;
        let from = pos + m.len();
        assert(low.len() == line.len());
        let raw = line.subrange(from, line.len() as int);
        lemma_part(line, from, line.len() as int);
        lemma_trim_part(raw);
        let after = text::trim(raw);
        lemma_within(line, raw, after);
        if after.len() > 0 && (after[0] == '\'' || after[0] == '"') {
            let rest = after.subrange(1, after.len() as int);
            lemma_part(after, 1, after.len() as int);
            lemma_within(line, after, rest);
            lemma_stop_hit(rest, false, seq![after[0]], 0);
            let e = text::stop_index(rest, false, seq![after[0]], 0);
            lemma_part(rest, 0, e);
            lemma_within(line, rest, rest.subrange(0, e));
        } else {
            lemma_stop_hit(after, true, "(,"@, 0);
            let e = text::stop_index(after, true, "(,"@, 0);
            lemma_part(after, 0, e);
            lemma_within(line, after, after.subrange(0, e));
        }
    }
}

proof fn lemma_version_part(line: Seq<char>)
    ensures
        forge_requires_version(line) is Some ==> forge_requires_version(
            line,
        )->0.missing_mod_id.len() > 0 && text::contains(
            line,
            forge_requires_version(line)->0.missing_mod_id,
        ),
{
    let low = text::folded(line);
    text::lemma_find_from(low, "requires"@, 0);
    text::lemma_find_from(low, "version"@, 0);
    let req = text::find(low, "requires"@);
    let ver = text::find(low, "version"@);
    if req is Some && ver is Some && req->0 < ver->0 {
        lemma_words_apart(low, req->0, ver->0);
        assert(low.len() == line.len());
        let raw = line.subrange(req->0 + 8, ver->0);
        lemma_part(line, req->0 + 8, ver->0);
        lemma_trim_part(raw);
        let between = text::trim(raw);
        lemma_within(line, raw, between);
        let u = unquote(between);
        lemma_unquote_part(between);
        lemma_within(line, between, u);
        let e = text::back(u, true, ' ', 0, u.len() as int);
        lemma_back_within(u, true, ' ', 0, u.len() as int);
        lemma_word_start_within(u, e);
        lemma_part(u, word_start(u, e), e);
        lemma_within(line, u, last_word(u));
    }
}

/// Where no requesting mod is named, the metadata confirms the cause just where a
/// mod that stays requires what is missing and no JAR declares it.
pub proof fn law_plan_confirms_without_a_name(
    m: BootMissingView,
    nodes: Seq<dependency_graph::ModNode>,
)
    requires
        m.requesting_mod_id is None,
    ensures
        graph_confirms(m, nodes) <==> (exists|i: int, k: int| #[trigger]
            dependency_graph::needs(nodes, i, k) && nodes[i].dependencies@[k].mod_id@
                == m.missing_mod_id) && (forall|x: int|
            0 <= x < nodes.len() ==> !dependency_graph::lists_id(
                #[trigger] nodes[x],
                m.missing_mod_id,
            )),
{
    let n = nodes.len() as int;
    let missing = dependency_graph::missing_below(nodes, n);
    dependency_graph::law_nothing_else_is_reported(nodes);
    if graph_confirms(m, nodes) {
        let c = choose|c: int|
            0 <= c < missing.len() && (#[trigger] missing[c]).dependency_mod_id
                == m.missing_mod_id;
        assert(dependency_graph::true_lack(missing[c], nodes));
        let (i, k) = choose|i: int, k: int| #[trigger]
            dependency_graph::needs(nodes, i, k) && dependency_graph::missing_about(
                missing[c],
                nodes,
                i,
                k,
            );
        assert(dependency_graph::needs(nodes, i, k) && nodes[i].dependencies@[k].mod_id@
            == m.missing_mod_id);
    }
    if (exists|i: int, k: int| #[trigger]
        dependency_graph::needs(nodes, i, k) && nodes[i].dependencies@[k].mod_id@
            == m.missing_mod_id) && (forall|x: int|
        0 <= x < nodes.len() ==> !dependency_graph::lists_id(
            #[trigger] nodes[x],
            m.missing_mod_id,
        )) {
        let (i, k) = choose|i: int, k: int| #[trigger]
            dependency_graph::needs(nodes, i, k) && nodes[i].dependencies@[k].mod_id@
                == m.missing_mod_id;
        dependency_graph::law_every_lack_is_reported(nodes, i, k);
        let c = choose|c: int|
            0 <= c < missing.len() && dependency_graph::missing_about(
                #[trigger] missing[c],
                nodes,
                i,
                k,
            );
        assert(missing[c].dependency_mod_id == m.missing_mod_id);
    }
}

/// A requesting mod that no JAR lists, or that JARs at two paths list, confirms
/// nothing by metadata.
pub proof fn law_unknown_requester_confirms_nothing(
    m: BootMissingView,
    nodes: Seq<dependency_graph::ModNode>,
    a: int,
    b: int,
)
    requires
        m.requesting_mod_id is Some,
        (forall|x: int|
            0 <= x < nodes.len() ==> !dependency_graph::lists_id(
                #[trigger] nodes[x],
                m.requesting_mod_id->0,
            )) || (0 <= a < nodes.len() && 0 <= b < nodes.len() && nodes[a].path@ != nodes[b].path@
            && dependency_graph::lists_id(nodes[a], m.requesting_mod_id->0)
            && dependency_graph::lists_id(nodes[b], m.requesting_mod_id->0)),
    ensures
        !graph_confirms(m, nodes),
{
    let id = m.requesting_mod_id->0;
    let n = nodes.len() as int;
    if 0 <= a < n && dependency_graph::lists_id(nodes[a], id) {
        dependency_graph::law_lookup_by_mod_id(nodes, id, a);
        assert(dependency_graph::lists_id(nodes[b], id));
    } else {
        dependency_graph::lemma_providers(nodes, id, n);
        let p = dependency_graph::providers(nodes, id);
        if p.len() > 0 {
            assert(nodes[p[0]].declares(id));
            assert(dependency_graph::lists_id(nodes[p[0]], id));
        }
    }
}

proof fn lemma_no_quoted_marker(line: Seq<char>)
    requires
        !text::contains(text::folded(line), "requires mod"@),
    ensures
        forall|s: BootAttributionSource| (#[trigger] requires_mod(line, s)) is None,
{
    reveal_strlit("requires mod");
    reveal_strlit("' requires mod '");
    let low = text::folded(line);
    let q = "' requires mod '"@;
    let m = "requires mod"@;
    text::lemma_find_from(line, q, 0);
    if text::find(line, q) is Some {
        let i = text::find(line, q)->0;
        assert forall|k: int| 0 <= k < 12 implies low[i + 2 + k] == m[k] by {
            text_laws::lemma_occurs_char(line, q, i, 2 + k);
            assert(low[i + 2 + k] == text::fold(line[i + 2 + k]));
            assert(k == 0 || k == 1 || k == 2 || k == 3 || k == 4 || k == 5 || k == 6 || k == 7
                || k == 8 || k == 9 || k == 10 || k == 11);
        }
        assert(low.subrange(i + 2, i + 14) =~= m);
        assert(text::occurs_at(low, m, i + 2));
        text::lemma_contains(low, m);
    }
}

/// A line that says which mandatory dependency is missing, and nothing of what
/// requires which mod, is read so, whatever else it says.
pub proof fn law_missing_mandatory_line_is_told(
    line: Seq<char>,
    a: Seq<char>,
    marker: Seq<char>,
    l: Seq<char>,
    y: Seq<char>,
    tail: Seq<char>,
)
    requires
        text_laws::is_blank(l),
        is_word(y),
        ends_word(tail),
        marked_in(line, a, marker, l + y + tail, "missing mandatory dependency"@),
        !text::contains(text::folded(line), "requires mod"@),
    ensures
        parse_line(line) == Some(
            ParsedView {
                requesting_mod_id: None,
                missing_mod_id: y,
                version_requirement: None,
                source: BootAttributionSource::ForgeLoader,
            },
        ),
{
    law_missing_mandatory_is_read(line, a, marker, l, y, tail);
    lemma_no_quoted_marker(line);
    assert(requires_mod(line, BootAttributionSource::QuiltLoader) is None);
    assert(requires_mod(line, BootAttributionSource::FabricLoader) is None);
}

/// A line `requires Y version X` that says nothing else of what is missing is read
/// so.
pub proof fn law_required_version_line_is_told(
    line: Seq<char>,
    a: Seq<char>,
    req: Seq<char>,
    y: Seq<char>,
    ver: Seq<char>,
    x: Seq<char>,
)
    requires
        line == a + req + seq![' '] + y + seq![' '] + ver + seq![' '] + x,
        text::folded(req) == "requires"@,
        text::folded(ver) == "version"@,
        is_word(y),
        is_word(x),
        forall|i: int|
            0 <= i < a.len() ==> !text::occurs_at(text::folded(line), "requires"@, i),
        forall|i: int|
            0 <= i < a.len() + req.len() + 1 + y.len() + 1 ==> !text::occurs_at(
                text::folded(line),
                "version"@,
                i,
            ),
        !text::contains(text::folded(line), "requires mod"@),
        !text::contains(text::folded(line), "missing mandatory dependency"@),
    ensures
        parse_line(line) == Some(
            ParsedView {
                requesting_mod_id: None,
                missing_mod_id: y,
                version_requirement: Some(x),
                source: BootAttributionSource::ForgeLoader,
            },
        ),
{
    law_required_version_is_read(line, a, req, y, ver, x);
    lemma_no_quoted_marker(line);
    assert(requires_mod(line, BootAttributionSource::QuiltLoader) is None);
    assert(requires_mod(line, BootAttributionSource::FabricLoader) is None);
}

/// A line `Mod X requires mod Y`, without quotes, is put down to its loader and says
/// that X needs Y.
pub proof fn law_plain_requirement_line_is_told(
    line: Seq<char>,
    x: Seq<char>,
    marker: Seq<char>,
    y: Seq<char>,
    tail: Seq<char>,
)
    requires
        is_word(x),
        is_word(y),
        ends_word(tail),
        marked_in(line, "Mod "@ + x + seq![' '], marker, seq![' '] + y + tail, "requires mod"@),
        !text::contains(line, "' requires mod '"@),
    ensures
        parse_line(line) is Some,
        parse_line(line)->0.missing_mod_id == y,
        parse_line(line)->0.requesting_mod_id == Some(x),
{
    lemma_marked_in(
        line,
        "Mod "@ + x + seq![' '],
        marker,
        seq![' '] + y + tail,
        "requires mod"@,
    );
    assert forall|s: BootAttributionSource| (#[trigger] requires_mod(line, s)) is Some by {
        law_plain_requirement_is_read(line, x, marker, y, tail, s);
    }
    law_requirement_is_put_down_to_its_loader(line);
    law_plain_requirement_is_read(line, x, marker, y, tail, parse_line(line)->0.source);
}

} // verus!
