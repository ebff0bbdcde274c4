//! Finding a file for a missing required dependency.
//!
//! Only a project that is known, from a JAR's own metadata, to provide the mod
//! ID is used; nothing is searched for by name. Whatever is ambiguous or cannot
//! be verified stops the repair.
use vstd::hash_map::StringHashMap;
use vstd::hash_set::StringHashSet;
use vstd::prelude::*;

use std::collections::{HashMap, HashSet};

use crate::dependency_graph::MissingDependency;
use crate::jar_metadata::JarMetadata;
use crate::mod_services::CurseFileEntry;
use crate::text;
use crate::text_laws;
use crate::text::{
    clone_strings, contains_str, dec_string, fold_chars, from_chars, str_eq, to_chars, trimmed,
};

pub mod relation_type;

verus! {

broadcast use {vstd::std_specs::hash::group_hash_axioms, vstd::hash_map::group_hash_map_axioms};

/// How many rounds of repair there are before boot.
pub const MAX_REPAIR_ROUNDS: u8 = 1;

/// One dependency relation of a CurseForge file.
#[derive(Debug, Clone, Copy, PartialEq, Eq, Structural)]
pub struct CurseDependency {
    /// The project that is depended on.
    pub mod_id: u64,
    /// The relation: one of the constants of [`relation_type`].
    pub relation_type: u8,
}

/// What became of the search for a file.
#[derive(Debug, Clone)]
pub enum DependencyResolution {
    /// Exactly one compatible file.
    Resolved(ResolvedDependency),
    /// Found by trying the required projects of the requesting mod; the file
    /// is already downloaded and its identity verified.
    RuntimeResolved(RuntimeResolvedDependency),
    /// Several equally good files or projects.
    Ambiguous(Vec<ResolutionCandidate>),
    /// Nothing was found.
    NotFound,
    /// There are files, but none satisfies the constraints.
    Incompatible(Vec<ResolutionCandidate>),
    /// The dependency cannot be resolved, with the reason.
    Unsupported(String),
    /// The file found is for clients only.
    ResolvedDependencyIsClientOnly,
    /// The dependency was already dealt with.
    AlreadyProvided,
    /// The downloaded JAR declares other mod IDs.
    IdentityMismatch { expected_mod_id: String, actual_mod_ids: Vec<String> },
    /// The downloaded JAR declares no mod ID.
    IdentityUnverifiable,
}

/// A file that was picked for download.
#[derive(Debug, Clone)]
pub struct ResolvedDependency {
    pub project_id: u64,
    pub file_id: u64,
    pub mod_id: Option<String>,
    pub download_url: Option<String>,
    pub file_name: String,
    pub file_length: u64,
    pub minecraft_version: String,
    pub version: Option<String>,
    pub reason: ResolutionReason,
}

/// A file that was picked, downloaded and verified.
#[derive(Debug, Clone)]
pub struct RuntimeResolvedDependency {
    pub resolved: ResolvedDependency,
    pub jar_path: String,
}

/// Why a file was picked.
#[derive(Debug, Clone, Copy, PartialEq, Eq, Structural)]
pub enum ResolutionReason {
    /// A known project provides the mod ID, and one file of it fits.
    CurseForgeRelation,
    /// Only one file fits.
    SoleCompatibleFile,
}

/// A file that could have been picked.
#[derive(Debug, Clone)]
pub struct ResolutionCandidate {
    pub project_id: u64,
    pub file_id: u64,
    pub file_name: String,
    pub game_versions: Vec<String>,
}

/// One line of the audit trail.
#[derive(Debug, Clone)]
pub struct RepairRecord {
    pub round: u8,
    pub requesting_mod: Option<String>,
    pub dependency_mod_id: String,
    pub project_id: Option<u64>,
    pub file_id: Option<u64>,
    pub action: RepairAction,
    pub result: RepairResult,
}

/// What was done.
#[derive(Debug, Clone, Copy, PartialEq, Eq, Structural)]
pub enum RepairAction {
    Resolved,
    Skipped,
    Downloaded,
    RebuildGraph,
    IdentityVerified,
    IdentityRejected,
}

/// How it ended.
#[derive(Debug, Clone)]
pub enum RepairResult {
    Success(String),
    Failed(String),
    Skipped(String),
}

// ---------------------------------------------------------------------
// Which project provides a mod ID
// ---------------------------------------------------------------------

/// Which CurseForge projects provide which mod IDs, as their JARs declare.
/// Where several projects claim a mod ID, all are kept.
pub struct ProjectModMapping {
    /// The mod IDs that a project's JARs declare, each once.
    pub project_to_mod_ids: HashMap<u64, Vec<String>>,
    /// The projects that claim a mod ID, each once, in the order of their
    /// registration.
    pub mod_id_to_projects: StringHashMap<Vec<u64>>,
}

/// The answer to which project provides a mod ID.
#[derive(Debug, Clone)]
pub enum ModIdLookup {
    /// Exactly one project does.
    Authoritative(u64),
    /// Several projects claim it.
    Ambiguous(Vec<u64>),
    /// None is known to.
    NotMapped,
}

/// A list of projects with one more, unless it is there already.
pub open spec fn add_once(s: Seq<u64>, p: u64) -> Seq<u64> {
    if s.contains(p) {
        s
    } else {
        s.push(p)
    }
}

impl ProjectModMapping {
    /// The projects that claim a mod ID.
    pub open spec fn claims(self, id: Seq<char>) -> Seq<u64> {
        if self.mod_id_to_projects@.contains_key(id) {
            self.mod_id_to_projects@[id]@
        } else {
            seq![]
        }
    }

    /// The mod IDs that a project's JARs declare, each once.
    pub open spec fn declared(self, project_id: u64) -> Seq<Seq<char>> {
        if self.project_to_mod_ids@.contains_key(project_id) {
            text::views(self.project_to_mod_ids@[project_id]@)
        } else {
            seq![]
        }
    }

    /// The mapping that knows nothing.
    pub fn new() -> (r: Self)
        ensures
            forall|id: Seq<char>| #[trigger] r.claims(id) == Seq::<u64>::empty(),
            forall|p: u64| #[trigger] r.declared(p) == Seq::<Seq<char>>::empty(),
            r.project_to_mod_ids@ == Map::<u64, Vec<String>>::empty(),
    {
        ProjectModMapping {
            project_to_mod_ids: HashMap::new(),
            mod_id_to_projects: StringHashMap::new(),
        }
    }

    /// Notes that a project's JAR declares these mod IDs. What is known stays,
    /// of other projects and of other JARs of this one.
    pub fn register(&mut self, project_id: u64, mod_ids: Vec<String>)
        ensures
            forall|id: Seq<char>| #[trigger]
                final(self).claims(id) == (if text::has_str(mod_ids@, id) {
                    add_once(old(self).claims(id), project_id)
                } else {
                    old(self).claims(id)
                }),
            forall|p: u64| #[trigger]
                final(self).declared(p) == (if p == project_id {
                    with_ids(old(self).declared(p), mod_ids@, mod_ids@.len() as int)
                } else {
                    old(self).declared(p)
                }),
            final(self).project_to_mod_ids@.dom() == old(self).project_to_mod_ids@.dom().insert(
                project_id,
            ),
    {
        let mut i: usize = 0;
        while i < mod_ids.len()
            invariant
                i <= mod_ids.len(),
                self.project_to_mod_ids@ == old(self).project_to_mod_ids@,
                forall|id: Seq<char>| #[trigger]
                    self.claims(id) == (if text::has_str(mod_ids@.take(i as int), id) {
                        add_once(old(self).claims(id), project_id)
                    } else {
                        old(self).claims(id)
                    }),
            decreases mod_ids.len() - i,
        {
            let ghost before = *self;
            self.add_claim(&mod_ids[i], project_id);
            proof {
                let now = mod_ids@.take(i as int + 1);
                let prev = mod_ids@.take(i as int);
                assert forall|id: Seq<char>| #[trigger] self.claims(id) == (if text::has_str(
                    now,
                    id,
                ) {
                    add_once(old(self).claims(id), project_id)
                } else {
                    old(self).claims(id)
                }) by {
                    let x = before.claims(id);
                    if text::has_str(prev, id) {
                        let k = choose|k: int| 0 <= k < prev.len() && (#[trigger] prev[k])@ == id;
                        assert(now[k]@ == id);
                        lemma_add_once(old(self).claims(id), project_id);
                    }
                    if id == mod_ids@[i as int]@ {
                        assert(now[i as int]@ == id);
                    } else if text::has_str(now, id) {
                        let k = choose|k: int| 0 <= k < now.len() && (#[trigger] now[k])@ == id;
                        assert(prev[k]@ == id);
                    }
                }
            }
            i = i + 1;
        }
        assert(mod_ids@.take(mod_ids@.len() as int) =~= mod_ids@);
        let ghost noted = *self;
        let mut ids: Vec<String> = match self.project_to_mod_ids.get(&project_id) {
            Some(known) => clone_strings(known),
            None => Vec::new(),
        };
        assert(text::views(ids@) =~= old(self).declared(project_id));
        let mut k: usize = 0;
        while k < mod_ids.len()
            invariant
                k <= mod_ids.len(),
                *self == noted,
                text::views(ids@) == with_ids(
                    old(self).declared(project_id),
                    mod_ids@,
                    k as int,
                ),
            decreases mod_ids.len() - k,
        {
            let ghost before = ids@;
            proof {
                lemma_views_contain(before, mod_ids@[k as int]@);
            }
            if !contains_str(&ids, mod_ids[k].as_str()) {
                ids.push(mod_ids[k].clone());
                assert(text::views(ids@) =~= text::views(before).push(mod_ids@[k as int]@));
            }
            k = k + 1;
        }
        self.project_to_mod_ids.insert(project_id, ids);
        assert forall|id: Seq<char>| #[trigger] self.claims(id) == noted.claims(id) by {}
    }

    /// Notes that a project claims one mod ID.
    fn add_claim(&mut self, id: &String, project_id: u64)
        ensures
            forall|x: Seq<char>| #[trigger]
                final(self).claims(x) == (if x == id@ {
                    add_once(old(self).claims(x), project_id)
                } else {
                    old(self).claims(x)
                }),
            final(self).project_to_mod_ids@ == old(self).project_to_mod_ids@,
    {
        let mut list: Vec<u64> = match self.mod_id_to_projects.get(id.as_str()) {
            Some(v) => v.clone(),
            None => Vec::new(),
        };
        assert(list@ =~= old(self).claims(id@));
        if !contains_id(&list, project_id) {
            list.push(project_id);
        }
        assert(list@ == add_once(old(self).claims(id@), project_id));
        self.mod_id_to_projects.insert(id.clone(), list);
    }

    /// Which project provides a mod ID.
    pub fn project_for_mod_id(&self, mod_id: &str) -> (r: ModIdLookup)
        ensures
            r is NotMapped <==> self.claims(mod_id@).len() == 0,
            r is Authoritative <==> self.claims(mod_id@).len() == 1,
            r is Authoritative ==> r->Authoritative_0 == self.claims(mod_id@)[0],
            r is Ambiguous ==> r->Ambiguous_0@ == self.claims(mod_id@),
    {
        match self.mod_id_to_projects.get(mod_id) {
            None => ModIdLookup::NotMapped,
            Some(projects) => {
                if projects.len() == 0 {
                    ModIdLookup::NotMapped
                } else if projects.len() == 1 {
                    ModIdLookup::Authoritative(projects[0])
                } else {
                    ModIdLookup::Ambiguous(projects.clone())
                }
            },
        }
    }
}

/// A list of mod IDs with the first `n` of others at its end, as far as they are
/// not in it.
pub open spec fn with_ids(known: Seq<Seq<char>>, ids: Seq<String>, n: int) -> Seq<Seq<char>>
    decreases n,
{
    if n <= 0 {
        known
    } else {
        let before = with_ids(known, ids, n - 1);
        if before.contains(ids[n - 1]@) {
            before
        } else {
            before.push(ids[n - 1]@)
        }
    }
}

/// A list of texts has a text just where the list of its views does.
proof fn lemma_views_contain(list: Seq<String>, id: Seq<char>)
    ensures
        text::views(list).contains(id) <==> text::has_str(list, id),
{
    if text::views(list).contains(id) {
        let k = choose|k: int| 0 <= k < list.len() && text::views(list)[k] == id;
        assert(list[k]@ == id);
    }
    if text::has_str(list, id) {
        let k = choose|k: int| 0 <= k < list.len() && (#[trigger] list[k])@ == id;
        assert(text::views(list)[k] == id);
    }
}

/// What is known of a project is never lost by noting more of it: its mod IDs
/// are then those that were known and those that came, each once.
pub proof fn law_nothing_known_is_lost(
    known: Seq<Seq<char>>,
    ids: Seq<String>,
    n: int,
    id: Seq<char>,
)
    requires
        0 <= n <= ids.len(),
        known.no_duplicates(),
    ensures
        known.is_prefix_of(with_ids(known, ids, n)),
        with_ids(known, ids, n).no_duplicates(),
        with_ids(known, ids, n).contains(id) <==> known.contains(id) || text::has_str(
            ids.take(n),
            id,
        ),
    decreases n,
{
    if n > 0 {
        law_nothing_known_is_lost(known, ids, n - 1, id);
        let before = with_ids(known, ids, n - 1);
        let after = with_ids(known, ids, n);
        if before.contains(id) {
            let k = choose|k: int| 0 <= k < before.len() && before[k] == id;
            assert(after[k] == id);
        }
        if text::has_str(ids.take(n), id) {
            let k = choose|k: int| 0 <= k < n && (#[trigger] ids.take(n)[k])@ == id;
            if k < n - 1 {
                assert(ids.take(n - 1)[k]@ == id);
            } else if !before.contains(id) {
                assert(after[before.len() as int] == id);
            }
        }
        if text::has_str(ids.take(n - 1), id) {
            let k = choose|k: int| 0 <= k < n - 1 && (#[trigger] ids.take(n - 1)[k])@ == id;
            assert(ids.take(n)[k]@ == id);
        }
        if after.contains(id) && !before.contains(id) {
            assert(ids.take(n)[n - 1]@ == id);
        }
    }
}

proof fn lemma_add_once(s: Seq<u64>, p: u64)
    ensures
        add_once(add_once(s, p), p) == add_once(s, p),
{
    if !s.contains(p) {
        assert(s.push(p)[s.len() as int] == p);
        assert(s.push(p).contains(p));
    }
}

/// Registering a project that nobody contested makes it the authority for its
/// mod IDs, and registering it again changes nothing; a second project makes
/// them ambiguous, and both stay listed.
pub proof fn law_claims(old_claims: Seq<u64>, p: u64, q: u64)
    requires
        p != q,
    ensures
        old_claims.len() == 0 ==> add_once(old_claims, p) == seq![p],
        old_claims.len() == 0 ==> add_once(add_once(old_claims, p), q) == seq![p, q],
        add_once(add_once(old_claims, p), p) == add_once(old_claims, p),
        old_claims.is_prefix_of(add_once(old_claims, p)),
{
    lemma_add_once(old_claims, p);
    if old_claims.len() == 0 {
        assert(add_once(old_claims, p) =~= seq![p]);
        assert(!seq![p].contains(q)) by {
            assert(seq![p][0] == p);
        }
        assert(add_once(seq![p], q) =~= seq![p, q]);
    }
}

/// Whether a number is in the list.
pub fn contains_id(v: &Vec<u64>, x: u64) -> (r: bool)
    ensures
        r == v@.contains(x),
{
    let mut i: usize = 0;
    while i < v.len()
        invariant
            i <= v.len(),
            forall|k: int| 0 <= k < i ==> v[k] != x,
        decreases v.len() - i,
    {
        if v[i] == x {
            assert(v@[i as int] == x);
            return true;
        }
        i = i + 1;
    }
    false
}

// ---------------------------------------------------------------------
// Views of the results
// ---------------------------------------------------------------------

/// The text of a [`ResolutionCandidate`].
pub struct CandidateView {
    pub project_id: u64,
    pub file_id: u64,
    pub file_name: Seq<char>,
    pub game_versions: Seq<Seq<char>>,
}

/// The text of a [`ResolvedDependency`].
pub struct ResolvedView {
    pub project_id: u64,
    pub file_id: u64,
    pub mod_id: Option<Seq<char>>,
    pub download_url: Option<Seq<char>>,
    pub file_name: Seq<char>,
    pub file_length: u64,
    pub minecraft_version: Seq<char>,
    pub version: Option<Seq<char>>,
    pub reason: ResolutionReason,
}

/// The text of a [`DependencyResolution`].
pub enum ResolutionView {
    Resolved(ResolvedView),
    RuntimeResolved(ResolvedView, Seq<char>),
    Ambiguous(Seq<CandidateView>),
    NotFound,
    Incompatible(Seq<CandidateView>),
    Unsupported(Seq<char>),
    ResolvedDependencyIsClientOnly,
    AlreadyProvided,
    IdentityMismatch(Seq<char>, Seq<Seq<char>>),
    IdentityUnverifiable,
}

/// The text of a [`RepairResult`].
pub enum ResultView {
    Success(Seq<char>),
    Failed(Seq<char>),
    Skipped(Seq<char>),
}

/// The text of a [`RepairRecord`].
pub struct RecordView {
    pub round: u8,
    pub requesting_mod: Option<Seq<char>>,
    pub dependency_mod_id: Seq<char>,
    pub project_id: Option<u64>,
    pub file_id: Option<u64>,
    pub action: RepairAction,
    pub result: ResultView,
}

impl View for ResolutionCandidate {
    type V = CandidateView;

    open spec fn view(&self) -> CandidateView {
        CandidateView {
            project_id: self.project_id,
            file_id: self.file_id,
            file_name: self.file_name@,
            game_versions: text::views(self.game_versions@),
        }
    }
}

impl View for ResolvedDependency {
    type V = ResolvedView;

    open spec fn view(&self) -> ResolvedView {
        ResolvedView {
            project_id: self.project_id,
            file_id: self.file_id,
            mod_id: text::opt_view(self.mod_id),
            download_url: text::opt_view(self.download_url),
            file_name: self.file_name@,
            file_length: self.file_length,
            minecraft_version: self.minecraft_version@,
            version: text::opt_view(self.version),
            reason: self.reason,
        }
    }
}

/// The texts of a list of candidates.
pub open spec fn candidate_views(v: Seq<ResolutionCandidate>) -> Seq<CandidateView> {
    v.map_values(|c: ResolutionCandidate| c@)
}

impl View for DependencyResolution {
    type V = ResolutionView;

    open spec fn view(&self) -> ResolutionView {
        match *self {
            DependencyResolution::Resolved(r) => ResolutionView::Resolved(r@),
            DependencyResolution::RuntimeResolved(r) => ResolutionView::RuntimeResolved(
                r.resolved@,
                r.jar_path@,
            ),
            DependencyResolution::Ambiguous(c) => ResolutionView::Ambiguous(candidate_views(c@)),
            DependencyResolution::NotFound => ResolutionView::NotFound,
            DependencyResolution::Incompatible(c) => ResolutionView::Incompatible(
                candidate_views(c@),
            ),
            DependencyResolution::Unsupported(s) => ResolutionView::Unsupported(s@),
            DependencyResolution::ResolvedDependencyIsClientOnly =>
                ResolutionView::ResolvedDependencyIsClientOnly,
            DependencyResolution::AlreadyProvided => ResolutionView::AlreadyProvided,
            DependencyResolution::IdentityMismatch { expected_mod_id, actual_mod_ids } =>
                ResolutionView::IdentityMismatch(expected_mod_id@, text::views(actual_mod_ids@)),
            DependencyResolution::IdentityUnverifiable => ResolutionView::IdentityUnverifiable,
        }
    }
}

impl View for RepairResult {
    type V = ResultView;

    open spec fn view(&self) -> ResultView {
        match *self {
            RepairResult::Success(s) => ResultView::Success(s@),
            RepairResult::Failed(s) => ResultView::Failed(s@),
            RepairResult::Skipped(s) => ResultView::Skipped(s@),
        }
    }
}

impl View for RepairRecord {
    type V = RecordView;

    open spec fn view(&self) -> RecordView {
        RecordView {
            round: self.round,
            requesting_mod: text::opt_view(self.requesting_mod),
            dependency_mod_id: self.dependency_mod_id@,
            project_id: self.project_id,
            file_id: self.file_id,
            action: self.action,
            result: self.result@,
        }
    }
}

/// The texts of an audit trail.
pub open spec fn record_views(v: Seq<RepairRecord>) -> Seq<RecordView> {
    v.map_values(|r: RepairRecord| r@)
}

/// What `Debug` formatting writes for a candidate.
pub open spec fn debug_candidate(c: CandidateView) -> Seq<char> {
    "ResolutionCandidate { project_id: "@ + text::dec(c.project_id as nat) + ", file_id: "@
        + text::dec(c.file_id as nat) + ", file_name: "@ + text::debug_quoted(c.file_name)
        + ", game_versions: "@ + text::debug_strings(c.game_versions) + " }"@
}

/// What `Debug` formatting writes for a list of candidates.
pub open spec fn debug_candidates(v: Seq<CandidateView>) -> Seq<char> {
    text::debug_list(v.map_values(|c: CandidateView| debug_candidate(c)))
}

/// What `Debug` formatting writes for a resolution that found no file.
pub open spec fn debug_unresolved(r: ResolutionView) -> Seq<char> {
    match r {
        ResolutionView::Ambiguous(c) => "Ambiguous("@ + debug_candidates(c) + ")"@,
        ResolutionView::NotFound => "NotFound"@,
        ResolutionView::Incompatible(c) => "Incompatible("@ + debug_candidates(c) + ")"@,
        ResolutionView::Unsupported(s) => "Unsupported("@ + text::debug_quoted(s) + ")"@,
        ResolutionView::ResolvedDependencyIsClientOnly => "ResolvedDependencyIsClientOnly"@,
        ResolutionView::AlreadyProvided => "AlreadyProvided"@,
        ResolutionView::IdentityMismatch(expected, actual) =>
            "IdentityMismatch { expected_mod_id: "@ + text::debug_quoted(expected)
                + ", actual_mod_ids: "@ + text::debug_strings(actual) + " }"@,
        _ => "IdentityUnverifiable"@,
    }
}

fn debug_candidate_list(v: &Vec<ResolutionCandidate>) -> (r: String)
    ensures
        r@ == debug_candidates(candidate_views(v@)),
{
    let mut items: Vec<String> = Vec::new();
    let mut i: usize = 0;
    while i < v.len()
        invariant
            i <= v.len(),
            items@.len() == i,
            forall|k: int| 0 <= k < i ==> (#[trigger] items@[k])@ == debug_candidate(v@[k]@),
        decreases v.len() - i,
    {
        let c = &v[i];
        let mut s = String::from_str("ResolutionCandidate { project_id: ");
        s.append(dec_string(c.project_id).as_str());
        s.append(", file_id: ");
        s.append(dec_string(c.file_id).as_str());
        s.append(", file_name: ");
        s.append(text::debug_str(c.file_name.as_str()).as_str());
        s.append(", game_versions: ");
        s.append(text::debug_string_list(&c.game_versions).as_str());
        s.append(" }");
        items.push(s);
        i = i + 1;
    }
    assert(text::views(items@) =~= candidate_views(v@).map_values(
        |c: CandidateView| debug_candidate(c),
    ));
    let mut r = String::from_str("[");
    r.append(text::join(&items, ", ").as_str());
    r.append("]");
    r
}

impl DependencyResolution {
    /// Writes a resolution that found no file as `Debug` formatting does.
    pub fn describe_unresolved(&self) -> (r: String)
        requires
            !(self is Resolved),
            !(self is RuntimeResolved),
        ensures
            r@ == debug_unresolved(self@),
    {
        match self {
            DependencyResolution::Ambiguous(c) => {
                let mut s = String::from_str("Ambiguous(");
                s.append(debug_candidate_list(c).as_str());
                s.append(")");
                s
            },
            DependencyResolution::NotFound => "NotFound".to_string(),
            DependencyResolution::Incompatible(c) => {
                let mut s = String::from_str("Incompatible(");
                s.append(debug_candidate_list(c).as_str());
                s.append(")");
                s
            },
            DependencyResolution::Unsupported(why) => {
                let mut s = String::from_str("Unsupported(");
                s.append(text::debug_str(why.as_str()).as_str());
                s.append(")");
                s
            },
            DependencyResolution::ResolvedDependencyIsClientOnly =>
                "ResolvedDependencyIsClientOnly".to_string(),
            DependencyResolution::AlreadyProvided => "AlreadyProvided".to_string(),
            DependencyResolution::IdentityMismatch { expected_mod_id, actual_mod_ids } => {
                let mut s = String::from_str("IdentityMismatch { expected_mod_id: ");
                s.append(text::debug_str(expected_mod_id.as_str()).as_str());
                s.append(", actual_mod_ids: ");
                s.append(text::debug_string_list(actual_mod_ids).as_str());
                s.append(" }");
                s
            },
            _ => "IdentityUnverifiable".to_string(),
        }
    }
}

// ---------------------------------------------------------------------
// The resolver
// ---------------------------------------------------------------------

/// The state of the search for missing dependencies: which projects provide
/// which mod IDs, what was tried, and the audit trail. Asking the service is
/// left to the caller.
pub struct DependencyResolver {
    /// Known from downloaded mods.
    pub project_map: ProjectModMapping,
    /// Projects that were tried.
    pub attempted_projects: HashSet<u64>,
    /// Mod IDs that were tried.
    pub attempted_mod_ids: StringHashSet,
    /// The audit trail.
    pub records: Vec<RepairRecord>,
}

/// What to do about a missing dependency.
#[derive(Debug, Clone)]
pub enum ResolveStep {
    /// It is settled.
    Done(DependencyResolution),
    /// Ask for the files of this project, and hand the answer to
    /// [`DependencyResolver::resolve_from_project`].
    FetchFiles(u64),
}

/// Whether the service is asked about a mod ID: it was not tried before, and
/// the one project that claims it was not either.
pub open spec fn asks(
    mod_ids: Set<Seq<char>>,
    projects: Set<u64>,
    claims: Seq<u64>,
    id: Seq<char>,
) -> bool {
    !mod_ids.contains(id) && claims.len() == 1 && !projects.contains(claims[0])
}

/// The text that says that no project is known for a mod ID.
pub open spec fn not_mapped_text(id: Seq<char>) -> Seq<char> {
    "No authoritative project mapping for mod_id '"@ + id + "'"@
}

/// A record that nothing was done about a dependency.
pub open spec fn skipped_record(
    missing: MissingDependency,
    id: Seq<char>,
    project_id: Option<u64>,
    result: ResultView,
) -> RecordView {
    RecordView {
        round: 0,
        requesting_mod: text::opt_view(missing.dependent_mod_id),
        dependency_mod_id: id,
        project_id,
        file_id: None,
        action: RepairAction::Skipped,
        result,
    }
}

/// A file as a candidate.
pub open spec fn candidate_of(project_id: u64, f: CurseFileEntry) -> CandidateView {
    CandidateView {
        project_id,
        file_id: f.id as u64,
        file_name: f.file_name@,
        game_versions: text::views(f.game_versions@),
    }
}

/// All files as candidates.
pub open spec fn candidates_of(project_id: u64, files: Seq<CurseFileEntry>) -> Seq<CandidateView> {
    files.map_values(|f: CurseFileEntry| candidate_of(project_id, f))
}

/// Whether a constraint leaves every version open: there is none, or it is
/// blank, `*` or `any`. Any other cannot be checked, since the service does not
/// say which version of a mod a file holds.
pub open spec fn unconstrained(constraint: Option<String>) -> bool {
    match constraint {
        None => true,
        Some(req) => {
            let t = text::trim(req@);
            t.len() == 0 || t == "*"@ || t == "any"@
        },
    }
}

/// The text that says that a version constraint cannot be checked.
pub open spec fn uncheckable_text(requirement: Seq<char>) -> Seq<char> {
    "Version constraint '"@ + requirement + "' cannot be verified"@
}

/// The file that was picked.
pub open spec fn picked(
    project_id: u64,
    id: Seq<char>,
    minecraft_version: Seq<char>,
    f: CurseFileEntry,
) -> ResolvedView {
    ResolvedView {
        project_id,
        file_id: f.id as u64,
        mod_id: Some(id),
        download_url: text::opt_view(f.download_url),
        file_name: f.file_name@,
        file_length: f.file_length,
        minecraft_version,
        version: None,
        reason: ResolutionReason::CurseForgeRelation,
    }
}

/// What the files of a project make of a missing dependency.
pub open spec fn resolution_from(
    project_id: u64,
    id: Seq<char>,
    missing: MissingDependency,
    minecraft_version: Seq<char>,
    files: Result<Vec<CurseFileEntry>, String>,
) -> ResolutionView {
    match files {
        Err(_) => ResolutionView::NotFound,
        Ok(files) => if files@.len() == 0 {
            ResolutionView::Incompatible(seq![])
        } else if !unconstrained(missing.version_requirement) {
            ResolutionView::Unsupported(uncheckable_text(missing.version_requirement->0@))
        } else if files@.len() > 1 {
            ResolutionView::Ambiguous(candidates_of(project_id, files@))
        } else {
            ResolutionView::Resolved(picked(project_id, id, minecraft_version, files@[0]))
        },
    }
}

/// What is written into the audit trail about it.
pub open spec fn resolution_records(
    project_id: u64,
    id: Seq<char>,
    missing: MissingDependency,
    files: Result<Vec<CurseFileEntry>, String>,
) -> Seq<RecordView> {
    match files {
        Err(e) => seq![
            skipped_record(
                missing,
                id,
                Some(project_id),
                ResultView::Failed("API error: "@ + e@),
            ),
        ],
        Ok(files) => if files@.len() == 0 {
            seq![
                skipped_record(
                    missing,
                    id,
                    Some(project_id),
                    ResultView::Failed("No compatible files found"@),
                ),
            ]
        } else if !unconstrained(missing.version_requirement) || files@.len() > 1 {
            seq![]
        } else {
            seq![
                RecordView {
                    round: 0,
                    requesting_mod: text::opt_view(missing.dependent_mod_id),
                    dependency_mod_id: id,
                    project_id: Some(project_id),
                    file_id: Some(files@[0].id as u64),
                    action: RepairAction::Resolved,
                    result: ResultView::Success(
                        "Resolved: "@ + files@[0].file_name@ + " (file "@ + text::dec_signed(
                            files@[0].id as int,
                        ) + ")"@,
                    ),
                },
            ]
        },
    }
}

impl DependencyResolver {
    /// A resolver that knows no project and has tried nothing.
    pub fn new() -> (r: Self)
        ensures
            forall|id: Seq<char>| #[trigger] r.project_map.claims(id) == Seq::<u64>::empty(),
            r.attempted_projects@ == Set::<u64>::empty(),
            r.attempted_mod_ids@ == Set::<Seq<char>>::empty(),
            r.records@ == Seq::<RepairRecord>::empty(),
    {
        DependencyResolver {
            project_map: ProjectModMapping::new(),
            attempted_projects: HashSet::new(),
            attempted_mod_ids: StringHashSet::new(),
            records: Vec::new(),
        }
    }

    /// Notes which mod IDs a project's JAR declares.
    pub fn register_project(&mut self, project_id: u64, mod_ids: Vec<String>)
        ensures
            forall|id: Seq<char>| #[trigger]
                final(self).project_map.claims(id) == (if text::has_str(mod_ids@, id) {
                    add_once(old(self).project_map.claims(id), project_id)
                } else {
                    old(self).project_map.claims(id)
                }),
            final(self).attempted_projects@ == old(self).attempted_projects@,
            final(self).attempted_mod_ids@ == old(self).attempted_mod_ids@,
            final(self).records@ == old(self).records@,
    {
        self.project_map.register(project_id, mod_ids);
    }

    fn skip(
        &mut self,
        missing: &MissingDependency,
        id: &str,
        project_id: Option<u64>,
        result: RepairResult,
    )
        ensures
            record_views(final(self).records@) == record_views(old(self).records@).push(
                skipped_record(*missing, id@, project_id, result@),
            ),
            final(self).project_map == old(self).project_map,
            final(self).attempted_projects == old(self).attempted_projects,
            final(self).attempted_mod_ids == old(self).attempted_mod_ids,
    {
        let ghost before = self.records@;
        let record = RepairRecord {
            round: 0,
            requesting_mod: missing.dependent_mod_id.clone(),
            dependency_mod_id: id.to_string(),
            project_id,
            file_id: None,
            action: RepairAction::Skipped,
            result,
        };
        assert(record@ == skipped_record(*missing, id@, project_id, result@));
        self.records.push(record);
        assert(record_views(self.records@) =~= record_views(before).push(record@));
    }

    /// Starts on a missing dependency. A mod ID is tried once; only a project
    /// that alone is known to provide it, and that was not tried, is asked.
    pub fn resolve(&mut self, missing: &MissingDependency) -> (r: ResolveStep)
        ensures
            ({
                let id = missing.dependency_mod_id@;
                let claims = old(self).project_map.claims(id);
                let seen = old(self).attempted_mod_ids@.contains(id);
                let log = record_views(old(self).records@);
                &&& final(self).attempted_mod_ids@ == old(self).attempted_mod_ids@.insert(id)
                &&& final(self).attempted_projects@ == old(self).attempted_projects@
                &&& final(self).project_map == old(self).project_map
                &&& r is FetchFiles <==> asks(
                    old(self).attempted_mod_ids@,
                    old(self).attempted_projects@,
                    claims,
                    id,
                )
                &&& r is FetchFiles ==> r->FetchFiles_0 == claims[0]
                &&& r is Done ==> r->Done_0@ == (if seen || claims.len() == 1 {
                    ResolutionView::AlreadyProvided
                } else if claims.len() == 0 {
                    ResolutionView::Unsupported(not_mapped_text(id))
                } else {
                    ResolutionView::Ambiguous(seq![])
                })
                &&& record_views(final(self).records@) == (if seen || claims.len() == 1 {
                    log
                } else if claims.len() == 0 {
                    log.push(
                        skipped_record(
                            *missing,
                            id,
                            None,
                            ResultView::Skipped(not_mapped_text(id)),
                        ),
                    )
                } else {
                    log.push(
                        skipped_record(
                            *missing,
                            id,
                            None,
                            ResultView::Skipped(
                                "Ambiguous: "@ + text::dec(claims.len()) + " projects claim mod_id '"@
                                    + id + "'"@,
                            ),
                        ),
                    )
                })
            }),
    {
        let id: &String = &missing.dependency_mod_id;
        if self.attempted_mod_ids.contains(id.as_str()) {
            assert(self.attempted_mod_ids@.insert(id@) =~= self.attempted_mod_ids@);
            return ResolveStep::Done(DependencyResolution::AlreadyProvided);
        }
        self.attempted_mod_ids.insert(id.clone());
        match self.project_map.project_for_mod_id(id.as_str()) {
            ModIdLookup::Authoritative(project_id) => {
                if self.attempted_projects.contains(&project_id) {
                    ResolveStep::Done(DependencyResolution::AlreadyProvided)
                } else {
                    ResolveStep::FetchFiles(project_id)
                }
            },
            ModIdLookup::Ambiguous(claimed) => {
                let mut why = String::from_str("Ambiguous: ");
                why.append(dec_string(claimed.len() as u64).as_str());
                why.append(" projects claim mod_id '");
                why.append(id.as_str());
                why.append("'");
                self.skip(missing, id.as_str(), None, RepairResult::Skipped(why));
                let none: Vec<ResolutionCandidate> = Vec::new();
                assert(candidate_views(none@) =~= seq![]);
                ResolveStep::Done(DependencyResolution::Ambiguous(none))
            },
            ModIdLookup::NotMapped => {
                let mut why = String::from_str("No authoritative project mapping for mod_id '");
                why.append(id.as_str());
                why.append("'");
                self.skip(missing, id.as_str(), None, RepairResult::Skipped(why.clone()));
                ResolveStep::Done(DependencyResolution::Unsupported(why))
            },
        }
    }

    /// Settles a missing dependency by the files of a project, as the service
    /// answered for the game version and the loader.
    pub fn resolve_from_project(
        &mut self,
        project_id: u64,
        dep_mod_id: &str,
        missing: &MissingDependency,
        minecraft_version: &str,
        files: &Result<Vec<CurseFileEntry>, String>,
    ) -> (r: DependencyResolution)
        ensures
            r@ == resolution_from(
                project_id,
                dep_mod_id@,
                *missing,
                minecraft_version@,
                *files,
            ),
            record_views(final(self).records@) == record_views(old(self).records@)
                + resolution_records(project_id, dep_mod_id@, *missing, *files),
            final(self).attempted_projects@ == old(self).attempted_projects@.insert(project_id),
            final(self).attempted_mod_ids@ == old(self).attempted_mod_ids@,
            final(self).project_map == old(self).project_map,
    {
        self.attempted_projects.insert(project_id);
        let ghost log = record_views(self.records@);
        match files {
            Err(e) => {
                let mut why = String::from_str("API error: ");
                why.append(e.as_str());
                self.skip(missing, dep_mod_id, Some(project_id), RepairResult::Failed(why));
                assert(record_views(self.records@) =~= log + resolution_records(
                    project_id,
                    dep_mod_id@,
                    *missing,
                    *files,
                ));
                DependencyResolution::NotFound
            },
            Ok(list) => {
                if list.len() == 0 {
                    self.skip(
                        missing,
                        dep_mod_id,
                        Some(project_id),
                        RepairResult::Failed("No compatible files found".to_string()),
                    );
                    assert(record_views(self.records@) =~= log + resolution_records(
                        project_id,
                        dep_mod_id@,
                        *missing,
                        *files,
                    ));
                    let none: Vec<ResolutionCandidate> = Vec::new();
                    assert(candidate_views(none@) =~= seq![]);
                    return DependencyResolution::Incompatible(none);
                }
                let fitting = self.apply_version_constraint(
                    list.as_slice(),
                    &missing.version_requirement,
                );
                if fitting.len() == 0 {
                    let mut why = String::from_str("Version constraint '");
                    match &missing.version_requirement {
                        Some(requirement) => why.append(requirement.as_str()),
                        None => {},
                    }
                    why.append("' cannot be verified");
                    assert(record_views(self.records@) =~= log + resolution_records(
                        project_id,
                        dep_mod_id@,
                        *missing,
                        *files,
                    ));
                    return DependencyResolution::Unsupported(why);
                }
                if fitting.len() > 1 {
                    assert(log + resolution_records(project_id, dep_mod_id@, *missing, *files)
                        =~= log);
                    return DependencyResolution::Ambiguous(candidates(project_id, list));
                }
                let file = &list[0];
                let resolved = ResolvedDependency {
                    project_id,
                    file_id: #[verifier::truncate] (file.id as u64),
                    mod_id: Some(dep_mod_id.to_string()),
                    download_url: file.download_url.clone(),
                    file_name: file.file_name.clone(),
                    file_length: file.file_length,
                    minecraft_version: minecraft_version.to_string(),
                    version: None,
                    reason: ResolutionReason::CurseForgeRelation,
                };
                let mut why = String::from_str("Resolved: ");
                why.append(file.file_name.as_str());
                why.append(" (file ");
                why.append(text::dec_signed_string(file.id).as_str());
                why.append(")");
                let record = RepairRecord {
                    round: 0,
                    requesting_mod: missing.dependent_mod_id.clone(),
                    dependency_mod_id: dep_mod_id.to_string(),
                    project_id: Some(project_id),
                    file_id: Some(#[verifier::truncate] (file.id as u64)),
                    action: RepairAction::Resolved,
                    result: RepairResult::Success(why),
                };
                let ghost before = self.records@;
                self.records.push(record);
                proof {
                    assert(record_views(self.records@) =~= record_views(before).push(record@));
                    assert(seq![record@] =~= resolution_records(
                        project_id,
                        dep_mod_id@,
                        *missing,
                        *files,
                    ));
                    assert(log.push(record@) =~= log + seq![record@]);
                }
                DependencyResolution::Resolved(resolved)
            },
        }
    }

    /// The files that a version constraint admits: all of them where it leaves
    /// every version open, else none.
    pub fn apply_version_constraint<'a>(
        &self,
        files: &'a [CurseFileEntry],
        constraint: &Option<String>,
    ) -> (r: Vec<&'a CurseFileEntry>)
        ensures
            !unconstrained(*constraint) ==> r@.len() == 0,
            unconstrained(*constraint) ==> r@.len() == files@.len(),
            forall|i: int| 0 <= i < r@.len() ==> *(#[trigger] r@[i]) == files@[i],
    {
        let mut out: Vec<&'a CurseFileEntry> = Vec::new();
        match constraint {
            Some(req) => {
                let chars = to_chars(req.as_str());
                let t = from_chars(trimmed(&chars));
                if !(t.as_str().is_empty() || str_eq(t.as_str(), "*") || str_eq(
                    t.as_str(),
                    "any",
                )) {
                    return out;
                }
            },
            None => {},
        }
        let mut i: usize = 0;
        while i < files.len()
            invariant
                i <= files.len(),
                out@.len() == i,
                forall|k: int| 0 <= k < i ==> *(#[trigger] out@[k]) == files@[k],
            decreases files.len() - i,
        {
            out.push(&files[i]);
            i = i + 1;
        }
        out
    }
}

/// All files as candidates.
fn candidates(project_id: u64, files: &Vec<CurseFileEntry>) -> (r: Vec<ResolutionCandidate>)
    ensures
        candidate_views(r@) == candidates_of(project_id, files@),
{
    let mut out: Vec<ResolutionCandidate> = Vec::new();
    let mut i: usize = 0;
    while i < files.len()
        invariant
            i <= files.len(),
            out@.len() == i,
            forall|k: int|
                0 <= k < i ==> (#[trigger] out@[k])@ == candidate_of(project_id, files@[k]),
        decreases files.len() - i,
    {
        let f = &files[i];
        out.push(
            ResolutionCandidate {
                project_id,
                file_id: #[verifier::truncate] (f.id as u64),
                file_name: f.file_name.clone(),
                game_versions: clone_strings(&f.game_versions),
            },
        );
        i = i + 1;
    }
    assert(candidate_views(out@) =~= candidates_of(project_id, files@));
    out
}

// ---------------------------------------------------------------------
// Asking for files, and checking what comes
// ---------------------------------------------------------------------

/// The address that lists a project's files for a game version and a loader.
pub open spec fn files_url(project_id: u64, minecraft_version: Seq<char>, loader: Seq<char>) -> Seq<
    char,
> {
    "https://api.curseforge.com/v1/mods/"@ + text::dec(project_id as nat) + "/files?gameVersion="@
        + minecraft_version + "&modLoaderType="@ + text::dec(loader_id(loader) as nat)
}

/// Computes [`files_url`].
pub fn compatible_files_url(project_id: u64, minecraft_version: &str, loader_type: &str) -> (r:
    String)
    ensures
        r@ == files_url(project_id, minecraft_version@, loader_type@),
{
    let mut url = String::from_str("https://api.curseforge.com/v1/mods/");
    url.append(dec_string(project_id).as_str());
    url.append("/files?gameVersion=");
    url.append(minecraft_version);
    url.append("&modLoaderType=");
    url.append(dec_string(loader_id_from_name(loader_type) as u64).as_str());
    url
}

/// Whether a file is marked for a game version.
pub open spec fn is_for(f: CurseFileEntry, minecraft_version: Seq<char>) -> bool {
    text::has_str(f.game_versions@, minecraft_version)
}

/// The files among the first `n` that are marked for a game version.
pub open spec fn files_for(files: Seq<CurseFileEntry>, minecraft_version: Seq<char>, n: int) -> Seq<
    CurseFileEntry,
>
    decreases n,
{
    if n <= 0 {
        seq![]
    } else if is_for(files[n - 1], minecraft_version) {
        files_for(files, minecraft_version, n - 1).push(files[n - 1])
    } else {
        files_for(files, minecraft_version, n - 1)
    }
}

/// Keeps the files that are marked for a game version, in order.
pub fn fetch_compatible_files(files: Vec<CurseFileEntry>, minecraft_version: &str) -> (r: Vec<
    CurseFileEntry,
>)
    ensures
        r@ == files_for(files@, minecraft_version@, files@.len() as int),
{
    let ghost all = files@;
    let mut rest: Vec<CurseFileEntry> = files;
    let mut kept: Vec<CurseFileEntry> = Vec::new();
    let mut n: usize = rest.len();
    assert(rest@ =~= all.take(n as int));
    assert(kept@.reverse() =~= seq![]);
    assert(files_for(all, minecraft_version@, n as int) + kept@.reverse() =~= files_for(
        all,
        minecraft_version@,
        n as int,
    ));
    while n > 0
        invariant
            n <= all.len(),
            rest@ == all.take(n as int),
            files_for(all, minecraft_version@, n as int) + kept@.reverse() == files_for(
                all,
                minecraft_version@,
                all.len() as int,
            ),
        decreases n,
    {
        let ghost k0 = kept@;
        match rest.pop() {
            Some(f) => {
                if contains_str(&f.game_versions, minecraft_version) {
                    kept.push(f);
                    proof {
                        assert(kept@.reverse() =~= seq![f] + k0.reverse());
                        let below = files_for(all, minecraft_version@, n - 1);
                        assert(below.push(f) + k0.reverse() =~= below + (seq![f] + k0.reverse()));
                    }
                }
            },
            None => {},
        }
        assert(rest@ =~= all.take(n - 1));
        n = n - 1;
    }
    let ghost k = kept@;
    assert(files_for(all, minecraft_version@, 0) + k.reverse() =~= k.reverse());
    let mut out: Vec<CurseFileEntry> = Vec::new();
    let mut left: usize = kept.len();
    while left > 0
        invariant
            left <= k.len(),
            kept@ == k.take(left as int),
            out@ == k.reverse().take(k.len() - left),
        decreases left,
    {
        match kept.pop() {
            Some(f) => {
                out.push(f);
            },
            None => {},
        }
        proof {
            assert(kept@ =~= k.take(left - 1));
            assert(k.reverse().take(k.len() - left + 1) =~= k.reverse().take(k.len() - left).push(
                k[left - 1],
            ));
        }
        left = left - 1;
    }
    assert(out@ =~= k.reverse());
    out
}

/// The text of an error answer: the status, and the start of what came.
pub fn files_error(status: &str, body: &str) -> (r: String)
    requires
        vstd::utf8::encode_utf8(body@).len() <= usize::MAX,
        vstd::utf8::encode_utf8(body@).len() > 200 ==> vstd::utf8::is_char_boundary(
            vstd::utf8::encode_utf8(body@),
            200,
        ),
    ensures
        r@ == "CF files error ("@ + status@ + "): "@ + truncated(body@, 200),
{
    let mut s = String::from_str("CF files error (");
    s.append(status);
    s.append("): ");
    s.append(truncate(body, 200).as_str());
    s
}

/// The answer to whether bytes are a JAR by their first four.
pub open spec fn jar_check(data: Seq<u8>) -> Option<Seq<char>> {
    if data.len() < 4 {
        Some("Downloaded file is too small to be a valid JAR"@)
    } else if data.take(4) != seq![0x50u8, 0x4B, 0x03, 0x04] {
        Some("Downloaded file is not a valid ZIP/JAR (bad magic bytes)"@)
    } else {
        None
    }
}

/// Checks that downloaded bytes begin as a ZIP file does.
pub fn check_jar_bytes(data: &[u8]) -> (r: Result<(), String>)
    ensures
        r is Ok <==> jar_check(data@) is None,
        r is Err ==> jar_check(data@) == Some(r->Err_0@),
{
    if data.len() < 4 {
        return Err("Downloaded file is too small to be a valid JAR".to_string());
    }
    if data[0] != 0x50 || data[1] != 0x4B || data[2] != 0x03 || data[3] != 0x04 {
        assert(data@.take(4)[0] == data@[0] && data@.take(4)[1] == data@[1] && data@.take(4)[2]
            == data@[2] && data@.take(4)[3] == data@[3]);
        return Err("Downloaded file is not a valid ZIP/JAR (bad magic bytes)".to_string());
    }
    assert(data@.take(4) =~= seq![0x50u8, 0x4B, 0x03, 0x04]);
    Ok(())
}

/// The entry under which a picked file is downloaded.
pub fn download_entry(resolved: &ResolvedDependency) -> (r: CurseFileEntry)
    ensures
        r.id == resolved.file_id as i64,
        r.file_name == resolved.file_name,
        r.file_length == resolved.file_length,
        r.download_url == resolved.download_url,
        r.server_pack_file_id is None,
        !r.is_server_pack,
        r.parent_project_file_id is None,
        text::views(r.game_versions@) == seq![resolved.minecraft_version@],
        r.dependencies@.len() == 0,
{
    let mut game_versions: Vec<String> = Vec::new();
    game_versions.push(resolved.minecraft_version.clone());
    assert(text::views(game_versions@) =~= seq![resolved.minecraft_version@]);
    CurseFileEntry {
        id: #[verifier::truncate] (resolved.file_id as i64),
        file_name: resolved.file_name.clone(),
        file_length: resolved.file_length,
        download_url: resolved.download_url.clone(),
        server_pack_file_id: None,
        is_server_pack: false,
        parent_project_file_id: None,
        game_versions,
        dependencies: Vec::new(),
    }
}

/// Whether a downloaded JAR is the mod that was asked for: it must declare the
/// mod ID. A JAR that declares none cannot be verified.
pub fn verify_download_identity(metadata: &JarMetadata, expected_mod_id: &str) -> (r: Result<
    (),
    DependencyResolution,
>)
    ensures
        r is Ok <==> text::has_str(metadata.mod_ids@, expected_mod_id@),
        r is Err ==> r->Err_0@ == (if metadata.mod_ids@.len() == 0 {
            ResolutionView::IdentityUnverifiable
        } else {
            ResolutionView::IdentityMismatch(
                expected_mod_id@,
                text::views(metadata.mod_ids@),
            )
        }),
{
    if metadata.mod_ids.len() == 0 {
        return Err(DependencyResolution::IdentityUnverifiable);
    }
    if !contains_str(&metadata.mod_ids, expected_mod_id) {
        return Err(
            DependencyResolution::IdentityMismatch {
                expected_mod_id: expected_mod_id.to_string(),
                actual_mod_ids: clone_strings(&metadata.mod_ids),
            },
        );
    }
    Ok(())
}

/// The characters whose encoding is the first `max` bytes.
pub open spec fn byte_prefix(s: Seq<char>, max: int) -> Seq<char> {
    vstd::utf8::decode_utf8(vstd::utf8::encode_utf8(s).subrange(0, max))
}

/// A text cut to `max` bytes, with dots where something was cut off.
pub open spec fn truncated(s: Seq<char>, max: int) -> Seq<char> {
    if vstd::utf8::encode_utf8(s).len() <= max {
        s
    } else {
        byte_prefix(s, max) + "..."@
    }
}

/// Cuts a text to `max` bytes.
pub fn truncate(s: &str, max: usize) -> (r: String)
    requires
        vstd::utf8::encode_utf8(s@).len() <= usize::MAX,
        vstd::utf8::encode_utf8(s@).len() > max ==> vstd::utf8::is_char_boundary(
            vstd::utf8::encode_utf8(s@),
            max as int,
        ),
    ensures
        r@ == truncated(s@, max as int),
{
    if s.len() <= max {
        s.to_string()
    } else {
        let (head, _tail) = s.split_at(max);
        proof {
            vstd::utf8::encode_utf8_decode_utf8(head@);
        }
        let mut r = head.to_string();
        r.append("...");
        r
    }
}

/// The service's number for a loader, by its name in any case; 0 is any.
pub open spec fn loader_id(name: Seq<char>) -> u8 {
    let n = text::folded(name);
    if n == "forge"@ {
        1
    } else if n == "cauldron"@ {
        2
    } else if n == "liteloader"@ {
        3
    } else if n == "fabric"@ {
        4
    } else if n == "quilt"@ {
        5
    } else if n == "neoforge"@ {
        6
    } else {
        0
    }
}

/// Computes [`loader_id`].
pub fn loader_id_from_name(name: &str) -> (r: u8)
    ensures
        r == loader_id(name@),
{
    let chars = to_chars(name);
    let folded = from_chars(&fold_chars(&chars));
    let n: &str = folded.as_str();
    if str_eq(n, "forge") {
        1
    } else if str_eq(n, "cauldron") {
        2
    } else if str_eq(n, "liteloader") {
        3
    } else if str_eq(n, "fabric") {
        4
    } else if str_eq(n, "quilt") {
        5
    } else if str_eq(n, "neoforge") {
        6
    } else {
        0
    }
}

/// A mod ID is asked for at most once: the set of tried mod IDs only grows, and
/// with the mod ID in it the service is not asked, whatever is known by then.
pub proof fn law_asked_once(
    mod_ids: Set<Seq<char>>,
    more: Set<Seq<char>>,
    projects: Set<u64>,
    claims: Seq<u64>,
    id: Seq<char>,
)
    ensures
        !asks(mod_ids.insert(id).union(more), projects, claims, id),
{
}

/// Nothing is ever picked from a project on an uncheckable constraint, on an
/// error, or where there is a choice; an uncheckable constraint is reported as
/// unsupported.
pub proof fn law_picks_only_the_sole_file(
    project_id: u64,
    id: Seq<char>,
    missing: MissingDependency,
    minecraft_version: Seq<char>,
    files: Result<Vec<CurseFileEntry>, String>,
)
    ensures
        resolution_from(project_id, id, missing, minecraft_version, files) is Resolved
            <==> files is Ok && files->Ok_0@.len() == 1 && unconstrained(
            missing.version_requirement,
        ),
        resolution_from(project_id, id, missing, minecraft_version, files) is Unsupported
            <==> files is Ok && files->Ok_0@.len() > 0 && !unconstrained(
            missing.version_requirement,
        ),
{
}

// ---------------------------------------------------------------------
// What is picked, and what is said of it
// ---------------------------------------------------------------------

/// A constraint leaves every version open where there is none, where it is blank,
/// and where it is `*` or `any` with blanks around it; no other does.
pub proof fn law_open_constraints(c: Option<String>, l: Seq<char>, r: Seq<char>)
    requires
        text_laws::is_blank(l),
        text_laws::is_blank(r),
    ensures
        c is None ==> unconstrained(c),
        c is Some && text_laws::is_blank(c->0@) ==> unconstrained(c),
        c is Some && (c->0@ == l + "*"@ + r || c->0@ == l + "any"@ + r) ==> unconstrained(c),
        c is Some && unconstrained(c) ==> text_laws::is_blank(c->0@) || exists|
            a: Seq<char>,
            b: Seq<char>,
        |
            #![trigger text_laws::around(a, "*"@, b)]
            #![trigger text_laws::around(a, "any"@, b)]
            text_laws::is_blank(a) && text_laws::is_blank(b) && (c->0@ == text_laws::around(
                a,
                "*"@,
                b,
            ) || c->0@ == text_laws::around(a, "any"@, b)),
{
    reveal_strlit("*");
    reveal_strlit("any");
    assert(!text::is_ws('*') && !text::is_ws('a') && !text::is_ws('y'));
    if c is Some {
        let s = c->0@;
        text_laws::law_trim(l, "*"@, r);
        text_laws::law_trim(l, "any"@, r);
        if text_laws::is_blank(s) {
            text_laws::law_trim(s, seq![], seq![]);
            assert(s + Seq::<char>::empty() + Seq::<char>::empty() =~= s);
        }
        text_laws::law_trim_leaves_a_core(s);
        let t = text::trim(s);
        let (a, b) = choose|a: Seq<char>, b: Seq<char>|
            text_laws::is_blank(a) && text_laws::is_blank(b) && s == #[trigger] text_laws::around(
                a,
                t,
                b,
            );
        if t.len() == 0 {
            assert forall|k: int| 0 <= k < s.len() implies text::is_ws(#[trigger] s[k]) by {
                if k < a.len() {
                    assert(s[k] == a[k]);
                } else {
                    assert(s[k] == b[k - a.len()]);
                }
            }
        } else if t == "*"@ {
            assert(s == text_laws::around(a, "*"@, b));
        } else if t == "any"@ {
            assert(s == text_laws::around(a, "any"@, b));
        }
    }
}

/// The one file of a project, where every version will do, is picked as it is:
/// under the project and the mod ID that were asked for, with its own number, name,
/// length and address, for the game version that was asked for.
pub proof fn law_sole_file_is_picked(
    project_id: u64,
    id: Seq<char>,
    missing: MissingDependency,
    minecraft_version: Seq<char>,
    files: Vec<CurseFileEntry>,
)
    requires
        files@.len() == 1,
        missing.version_requirement is None,
    ensures
        ({
            let r = resolution_from(project_id, id, missing, minecraft_version, Ok(files));
            let f = files@[0];
            &&& r matches ResolutionView::Resolved(p)
            &&& p.project_id == project_id
            &&& p.file_id == f.id as u64
            &&& p.mod_id == Some(id)
            &&& p.download_url == text::opt_view(f.download_url)
            &&& p.file_name == f.file_name@
            &&& p.file_length == f.file_length
            &&& p.minecraft_version == minecraft_version
        }),
{
}

/// An error of the service means that nothing was found, no files that none fit,
/// and several that each of them is listed, in order, and none is picked.
pub proof fn law_no_guess_between_files(
    project_id: u64,
    id: Seq<char>,
    missing: MissingDependency,
    minecraft_version: Seq<char>,
    files: Result<Vec<CurseFileEntry>, String>,
)
    requires
        missing.version_requirement is None,
    ensures
        ({
            let r = resolution_from(project_id, id, missing, minecraft_version, files);
            &&& files is Err ==> r is NotFound
            &&& files is Ok && files->Ok_0@.len() == 0 ==> r == ResolutionView::Incompatible(
                seq![],
            )
            &&& files is Ok && files->Ok_0@.len() >= 2 ==> {
                &&& r matches ResolutionView::Ambiguous(c)
                &&& c.len() == files->Ok_0@.len()
                &&& forall|k: int|
                    0 <= k < c.len() ==> (#[trigger] c[k]).project_id == project_id && c[k].file_id
                        == files->Ok_0@[k].id as u64 && c[k].file_name
                        == files->Ok_0@[k].file_name@
            }
        }),
{
}

/// The audit trail says of each project that was asked what came of it: why the
/// service failed, that no file fits, or which file was picked; always for the
/// dependency and the mod that were asked about, and under the project.
pub proof fn law_trail_says_what_came_of_it(
    project_id: u64,
    id: Seq<char>,
    missing: MissingDependency,
    files: Result<Vec<CurseFileEntry>, String>,
)
    ensures
        ({
            let r = resolution_records(project_id, id, missing, files);
            &&& r.len() <= 1
            &&& r.len() == 1 ==> {
                &&& r[0].dependency_mod_id == id
                &&& r[0].project_id == Some(project_id)
                &&& r[0].requesting_mod == text::opt_view(missing.dependent_mod_id)
            }
            &&& files is Err ==> r.len() == 1 && r[0].action == RepairAction::Skipped
                && r[0].file_id is None && r[0].result is Failed && text::ends_with(
                r[0].result->Failed_0,
                files->Err_0@,
            )
            &&& files is Ok && files->Ok_0@.len() == 0 ==> r.len() == 1 && r[0].action
                == RepairAction::Skipped && r[0].result is Failed
            &&& files is Ok && files->Ok_0@.len() == 1 && missing.version_requirement is None ==> {
                &&& r.len() == 1
                &&& r[0].action == RepairAction::Resolved
                &&& r[0].file_id == Some(files->Ok_0@[0].id as u64)
                &&& r[0].result is Success
                &&& text::contains(r[0].result->Success_0, files->Ok_0@[0].file_name@)
            }
            &&& files is Ok && files->Ok_0@.len() >= 2 ==> r.len() == 0
        }),
{
    match files {
        Err(e) => {
            text_laws::law_ends("API error: "@, e@);
        },
        Ok(f) => {
            if f@.len() == 1 {
                let a = "Resolved: "@;
                let n = f@[0].file_name@;
                let b = " (file "@;
                let d = text::dec_signed(f@[0].id as int);
                text_laws::law_contains_what_was_put_in(a, n, b + d + ")"@);
                assert(a + n + (b + d + ")"@) =~= a + n + b + d + ")"@);
            }
        },
    }
}

/// Of a project's files those stay that are marked for the game version: all of
/// them, no others, and in their order.
pub proof fn law_files_for_the_game_version(
    files: Seq<CurseFileEntry>,
    version: Seq<char>,
    n: int,
    i: int,
)
    requires
        0 <= n <= files.len(),
        0 <= i < n,
    ensures
        (exists|k: int|
            0 <= k < files[i].game_versions@.len() && (#[trigger] files[i].game_versions@[k])@
                == version) ==> files_for(files, version, n).contains(files[i]),
        files_for(files, version, n).len() <= n,
        forall|k: int|
            0 <= k < files_for(files, version, n).len() ==> files.contains(
                #[trigger] files_for(files, version, n)[k],
            ) && marked_for(files_for(files, version, n)[k], version),
    decreases n,
{
    lemma_files_for(files, version, n);
    if exists|k: int|
        0 <= k < files[i].game_versions@.len() && (#[trigger] files[i].game_versions@[k])@
            == version {
        assert(is_for(files[i], version));
        lemma_file_stays(files, version, n, i);
    }
}

/// Whether one of a file's marks is this game version.
pub open spec fn marked_for(f: CurseFileEntry, version: Seq<char>) -> bool {
    exists|k: int|
        0 <= k < f.game_versions@.len() && (#[trigger] f.game_versions@[k])@ == version
}

proof fn lemma_file_stays(files: Seq<CurseFileEntry>, version: Seq<char>, n: int, i: int)
    requires
        0 <= i < n <= files.len(),
        is_for(files[i], version),
    ensures
        files_for(files, version, i).len() < files_for(files, version, n).len(),
        files_for(files, version, n)[files_for(files, version, i).len() as int] == files[i],
        files_for(files, version, n).contains(files[i]),
    decreases n,
{
    if i < n - 1 {
        lemma_file_stays(files, version, n - 1, i);
    }
    let all = files_for(files, version, n);
    assert(all[files_for(files, version, i).len() as int] == files[i]);
}

/// Two files that stay keep their order.
pub proof fn law_files_keep_their_order(
    files: Seq<CurseFileEntry>,
    version: Seq<char>,
    i: int,
    j: int,
)
    requires
        0 <= i < j < files.len(),
        marked_for(files[i], version),
        marked_for(files[j], version),
    ensures
        exists|a: int, b: int|
            0 <= a < b < files_for(files, version, files.len() as int).len()
                && #[trigger] files_for(files, version, files.len() as int)[a] == files[i]
                && #[trigger] files_for(files, version, files.len() as int)[b] == files[j],
{
    let n = files.len() as int;
    assert(is_for(files[i], version) && is_for(files[j], version));
    lemma_file_stays(files, version, n, i);
    lemma_file_stays(files, version, n, j);
    lemma_file_stays(files, version, j, i);
    let a = files_for(files, version, i).len() as int;
    let b = files_for(files, version, j).len() as int;
    assert(files_for(files, version, n)[a] == files[i]);
    assert(files_for(files, version, n)[b] == files[j]);
}

proof fn lemma_files_for(files: Seq<CurseFileEntry>, version: Seq<char>, n: int)
    requires
        0 <= n <= files.len(),
    ensures
        files_for(files, version, n).len() <= n,
        forall|k: int|
            0 <= k < files_for(files, version, n).len() ==> files.contains(
                #[trigger] files_for(files, version, n)[k],
            ) && marked_for(files_for(files, version, n)[k], version),
    decreases n,
{
    if n > 0 {
        lemma_files_for(files, version, n - 1);
        let prev = files_for(files, version, n - 1);
        let now = files_for(files, version, n);
        assert forall|k: int| 0 <= k < now.len() implies files.contains(#[trigger] now[k])
            && marked_for(now[k], version) by {
            if k < prev.len() {
                assert(now[k] == prev[k]);
            } else {
                assert(now[k] == files[n - 1]);
            }
        }
    }
}

/// Bytes pass for a JAR if and only if they begin with the four of a ZIP file.
pub proof fn law_jar_begins_as_a_zip(data: Seq<u8>)
    ensures
        jar_check(data) is None <==> data.len() >= 4 && data[0] == 0x50 && data[1] == 0x4B
            && data[2] == 0x03 && data[3] == 0x04,
{
    let magic = seq![0x50u8, 0x4B, 0x03, 0x04];
    if data.len() >= 4 {
        let head = data.take(4);
        if data[0] == 0x50 && data[1] == 0x4B && data[2] == 0x03 && data[3] == 0x04 {
            assert(head =~= magic);
        }
        if head == magic {
            assert(head[0] == magic[0] && head[1] == magic[1] && head[2] == magic[2] && head[3]
                == magic[3]);
        }
    }
}

/// The service's number for each loader, whatever case its name is written in;
/// any other name stands for all loaders.
pub proof fn law_loader_numbers(name: Seq<char>)
    ensures
        text::folded(name) == "forge"@ ==> loader_id(name) == 1,
        text::folded(name) == "cauldron"@ ==> loader_id(name) == 2,
        text::folded(name) == "liteloader"@ ==> loader_id(name) == 3,
        text::folded(name) == "fabric"@ ==> loader_id(name) == 4,
        text::folded(name) == "quilt"@ ==> loader_id(name) == 5,
        text::folded(name) == "neoforge"@ ==> loader_id(name) == 6,
        loader_id(name) != 0 ==> text::folded(name) == "forge"@ || text::folded(name)
            == "cauldron"@ || text::folded(name) == "liteloader"@ || text::folded(name)
            == "fabric"@ || text::folded(name) == "quilt"@ || text::folded(name) == "neoforge"@,
{
    reveal_strlit("forge");
    reveal_strlit("cauldron");
    reveal_strlit("liteloader");
    reveal_strlit("fabric");
    reveal_strlit("quilt");
    reveal_strlit("neoforge");
    assert("forge"@[0] == 'f' && "quilt"@[0] == 'q' && "cauldron"@[0] == 'c' && "neoforge"@[0]
        == 'n');
    assert("fabric"@.len() == 6 && "forge"@.len() == 5 && "cauldron"@.len() == 8);
    assert("liteloader"@.len() == 10 && "neoforge"@.len() == 8);
}

/// The address asks for the project, the game version and the loader, each where
/// the service expects it.
pub proof fn law_address_asks_for_all_three(project_id: u64, version: Seq<char>, loader: Seq<char>)
    ensures
        ({
            let url = files_url(project_id, version, loader);
            &&& text::starts_with(
                url,
                "https://api.curseforge.com/v1/mods/"@ + text::dec(project_id as nat) + "/files?"@,
            )
            &&& text::contains(url, "gameVersion="@ + version + "&"@)
            &&& text::ends_with(url, "&modLoaderType="@ + text::dec(loader_id(loader) as nat))
        }),
{
    reveal_strlit("/files?gameVersion=");
    reveal_strlit("/files?");
    reveal_strlit("gameVersion=");
    reveal_strlit("&modLoaderType=");
    reveal_strlit("&");
    reveal_strlit("modLoaderType=");
    let base = "https://api.curseforge.com/v1/mods/"@;
    let p = text::dec(project_id as nat);
    let n = text::dec(loader_id(loader) as nat);
    let url = files_url(project_id, version, loader);
    assert("/files?gameVersion="@ =~= "/files?"@ + "gameVersion="@);
    assert("&modLoaderType="@ =~= "&"@ + "modLoaderType="@);
    let head = base + p + "/files?"@;
    let ask = "gameVersion="@ + version + "&"@;
    let rest = "modLoaderType="@ + n;
    assert(url =~= head + (ask + rest));
    text_laws::law_ends(head, ask + rest);
    assert(url =~= head + ask + rest);
    text_laws::law_contains_what_was_put_in(head, ask, rest);
    let tail = "&modLoaderType="@ + n;
    let front = base + p + "/files?gameVersion="@ + version;
    assert(url =~= front + tail);
    text_laws::law_ends(front, tail);
}

/// The service is asked about a mod ID just where it was not tried before, one
/// project alone claims it, and that project was not tried either.
pub proof fn law_when_the_service_is_asked(
    mod_ids: Set<Seq<char>>,
    projects: Set<u64>,
    claims: Seq<u64>,
    id: Seq<char>,
)
    ensures
        mod_ids.contains(id) ==> !asks(mod_ids, projects, claims, id),
        claims.len() != 1 ==> !asks(mod_ids, projects, claims, id),
        claims.len() == 1 && projects.contains(claims[0]) ==> !asks(mod_ids, projects, claims, id),
        claims.len() == 1 && !projects.contains(claims[0]) && !mod_ids.contains(id) ==> asks(
            mod_ids,
            projects,
            claims,
            id,
        ),
        MAX_REPAIR_ROUNDS == 1,
{
}

/// What is said of a mod without a project, and of a constraint that cannot be
/// checked, names the one or the other.
pub proof fn law_texts_name_what_they_are_about(id: Seq<char>, requirement: Seq<char>)
    ensures
        text::contains(not_mapped_text(id), id),
        text::contains(uncheckable_text(requirement), requirement),
{
    text_laws::law_contains_what_was_put_in(
        "No authoritative project mapping for mod_id '"@,
        id,
        "'"@,
    );
    text_laws::law_contains_what_was_put_in(
        "Version constraint '"@,
        requirement,
        "' cannot be verified"@,
    );
}

/// A constraint that cannot be checked is never taken for met: nothing is picked,
/// and the answer names the constraint.
pub proof fn law_uncheckable_constraints_pick_nothing(
    project_id: u64,
    id: Seq<char>,
    missing: MissingDependency,
    minecraft_version: Seq<char>,
    files: Vec<CurseFileEntry>,
)
    requires
        files@.len() > 0,
        missing.version_requirement is Some,
        !unconstrained(missing.version_requirement),
    ensures
        ({
            let r = resolution_from(project_id, id, missing, minecraft_version, Ok(files));
            &&& r is Unsupported
            &&& text::contains(r->Unsupported_0, missing.version_requirement->0@)
        }),
{
    law_texts_name_what_they_are_about(id, missing.version_requirement->0@);
}

/// What is written of a resolution that found no file names what it is about.
pub proof fn law_unresolved_is_described(r: ResolutionView)
    ensures
        r is NotFound ==> debug_unresolved(r) == "NotFound"@,
        r is AlreadyProvided ==> debug_unresolved(r) == "AlreadyProvided"@,
        r is ResolvedDependencyIsClientOnly ==> debug_unresolved(r)
            == "ResolvedDependencyIsClientOnly"@,
        r is IdentityUnverifiable ==> debug_unresolved(r) == "IdentityUnverifiable"@,
        r matches ResolutionView::Unsupported(s) ==> debug_unresolved(r) == "Unsupported("@
            + text::debug_quoted(s) + ")"@,
        r matches ResolutionView::Ambiguous(c) ==> debug_unresolved(r) == "Ambiguous("@
            + debug_candidates(c) + ")"@,
        r matches ResolutionView::Incompatible(c) ==> debug_unresolved(r) == "Incompatible("@
            + debug_candidates(c) + ")"@,
        r matches ResolutionView::IdentityMismatch(e, a) ==> debug_unresolved(r)
            == "IdentityMismatch { expected_mod_id: "@ + text::debug_quoted(e)
            + ", actual_mod_ids: "@ + text::debug_strings(a) + " }"@,
{
}

/// A candidate is written with its project, its file, the file's name and the
/// versions of the game that it is for.
pub proof fn law_candidates_are_described(c: CandidateView)
    ensures
        debug_candidate(c) == "ResolutionCandidate { project_id: "@ + text::dec(
            c.project_id as nat,
        ) + ", file_id: "@ + text::dec(c.file_id as nat) + ", file_name: "@ + text::debug_quoted(
            c.file_name,
        ) + ", game_versions: "@ + text::debug_strings(c.game_versions) + " }"@,
{
}

} // verus!
