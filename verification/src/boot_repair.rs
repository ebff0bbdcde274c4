//! The rounds of repair after a failed boot, as decisions: each step takes what
//! the outside work brought and says what to do next. Asking the service,
//! downloading and reading JARs is the caller's.
use vstd::hash_set::StringHashSet;
use vstd::prelude::*;

use crate::boot_failure_analyzer;
use crate::boot_failure_analyzer::{
    analyze_boot_failure, enumerate_unknown_required_projects, verify_attribution,
    AttributionConfidence, AttributionView, BootAttribution, BootAttributionSource,
    BootMissingDependency, BootMissingView, InstalledFileRegistry, VerificationSource,
    MAX_RUNTIME_RELATION_CANDIDATES,
};
use crate::dependency_graph;
use crate::dependency_graph::{DependencyGraph, MissingDependency, MissingView};
use crate::dependency_resolver;
use crate::dependency_resolver::{
    verify_download_identity, DependencyResolution, ModIdLookup, ProjectModMapping,
    ResolutionView, ResolvedDependency, RuntimeResolvedDependency,
};
use crate::jar_metadata::JarMetadata;
use crate::text;
use crate::text_laws;
use crate::text::{contains_str, debug_str, debug_string_list};

verus! {

/// One attempt at a repair.
#[derive(Debug, Clone)]
pub struct BootRepairRecord {
    /// The round, counted from 1.
    pub boot_attempt: u8,
    pub attribution: BootMissingDependency,
    pub verification_sources: Vec<VerificationSource>,
    pub repair_result: BootRepairResult,
}

/// How an attempt ended.
#[derive(Debug, Clone)]
pub enum BootRepairResult {
    /// The mod was downloaded and its identity verified.
    Repaired { project_id: u64, file_id: u64, file_name: String },
    /// Nothing confirms the cause, or no file could be had.
    Failed(String),
    /// Not tried.
    Skipped(String),
}

/// The result of all rounds.
#[derive(Debug)]
pub struct BootRepairOutcome {
    /// Whether at least one dependency was repaired.
    pub repaired: bool,
    /// All attempts, in order.
    pub records: Vec<BootRepairRecord>,
    /// The cause that was left at the end.
    pub final_attribution: BootAttribution,
}

/// The text of a [`BootRepairResult`].
pub enum BootResultView {
    Repaired(u64, u64, Seq<char>),
    Failed(Seq<char>),
    Skipped(Seq<char>),
}

/// The text of a [`BootRepairRecord`].
pub struct BootRecordView {
    pub boot_attempt: u8,
    pub attribution: BootMissingView,
    pub verification_sources: Seq<VerificationSource>,
    pub repair_result: BootResultView,
}

impl View for BootRepairResult {
    type V = BootResultView;

    open spec fn view(&self) -> BootResultView {
        match *self {
            BootRepairResult::Repaired { project_id, file_id, file_name } =>
                BootResultView::Repaired(project_id, file_id, file_name@),
            BootRepairResult::Failed(s) => BootResultView::Failed(s@),
            BootRepairResult::Skipped(s) => BootResultView::Skipped(s@),
        }
    }
}

impl View for BootRepairRecord {
    type V = BootRecordView;

    open spec fn view(&self) -> BootRecordView {
        BootRecordView {
            boot_attempt: self.boot_attempt,
            attribution: self.attribution@,
            verification_sources: self.verification_sources@,
            repair_result: self.repair_result@,
        }
    }
}

/// The texts of a list of attempts.
pub open spec fn record_views(v: Seq<BootRepairRecord>) -> Seq<BootRecordView> {
    v.map_values(|r: BootRepairRecord| r@)
}

/// Whether some attempt repaired a dependency.
pub open spec fn any_repaired(v: Seq<BootRepairRecord>) -> bool {
    exists|k: int| 0 <= k < v.len() && (#[trigger] v[k]).repair_result is Repaired
}

/// A copy of a list of confirmations.
fn copy_sources(v: &Vec<VerificationSource>) -> (r: Vec<VerificationSource>)
    ensures
        r@ == v@,
{
    let mut out: Vec<VerificationSource> = Vec::new();
    let mut i: usize = 0;
    while i < v.len()
        invariant
            i <= v.len(),
            out@ == v@.take(i as int),
        decreases v.len() - i,
    {
        out.push(v[i]);
        assert(v@.take(i as int + 1) =~= v@.take(i as int).push(v@[i as int]));
        i = i + 1;
    }
    assert(out@ =~= v@);
    out
}

/// A copy of an attribution.
fn copy_missing(m: &BootMissingDependency) -> (r: BootMissingDependency)
    ensures
        r == *m,
{
    BootMissingDependency {
        requesting_mod_id: m.requesting_mod_id.clone(),
        missing_mod_id: m.missing_mod_id.clone(),
        version_requirement: m.version_requirement.clone(),
        source: m.source,
        confidence: m.confidence,
    }
}

/// What `Debug` formatting writes for a cause that is no missing dependency.
pub open spec fn debug_other_cause(a: AttributionView) -> Seq<char> {
    match a {
        AttributionView::WrongJavaVersion => "WrongJavaVersion"@,
        AttributionView::OutOfMemory => "OutOfMemory"@,
        AttributionView::LoaderFailure(s) => "LoaderFailure("@ + text::debug_quoted(s) + ")"@,
        _ => "Unknown"@,
    }
}

/// The attribution that is recorded where no mod is missing.
pub open spec fn no_attribution() -> BootMissingView {
    BootMissingView {
        requesting_mod_id: None,
        missing_mod_id: seq![],
        version_requirement: None,
        source: BootAttributionSource::ForgeLoader,
        confidence: AttributionConfidence::Low,
    }
}

/// What the start of a round comes to.
pub enum RoundView {
    /// Stop, with this record.
    Stop(BootMissingView, BootResultView),
    /// Look for the missing mod.
    Resolve(BootMissingView, Seq<VerificationSource>),
}

/// The decision at the start of a round: only a missing mod that a loader named
/// for sure, that was not tried before and that the graph or the relations
/// confirm, is looked for.
pub open spec fn judged(
    cause: AttributionView,
    attempted: Set<Seq<char>>,
    nodes: Seq<dependency_graph::ModNode>,
    installed: InstalledFileRegistry,
) -> RoundView {
    match cause {
        AttributionView::MissingDependency(m) => {
            let sources = boot_failure_analyzer::verification(m, nodes, installed);
            if m.confidence != AttributionConfidence::High {
                RoundView::Stop(
                    m,
                    BootResultView::Skipped("Attribution confidence not High — skipping repair"@),
                )
            } else if attempted.contains(m.missing_mod_id) {
                RoundView::Stop(
                    m,
                    BootResultView::Skipped(
                        "Already attempted repair for '"@ + m.missing_mod_id
                            + "' — stopping loop"@,
                    ),
                )
            } else if sources.len() == 0 {
                RoundView::Stop(
                    m,
                    BootResultView::Failed(
                        "Attribution unverified — neither graph nor CF relation confirms"@,
                    ),
                )
            } else {
                RoundView::Resolve(m, sources)
            }
        },
        _ => RoundView::Stop(
            no_attribution(),
            BootResultView::Skipped("Not a missing dependency: "@ + debug_other_cause(cause)),
        ),
    }
}

/// What is asked of the resolver about a missing mod.
pub open spec fn question(m: BootMissingView, mods_dir: Seq<char>) -> MissingView {
    MissingView {
        dependent_mod_id: m.requesting_mod_id,
        dependency_mod_id: m.missing_mod_id,
        dependent_path: mods_dir,
        version_requirement: m.version_requirement,
    }
}

/// What to do at the start of a round.
#[derive(Debug, Clone)]
pub enum RoundStart {
    /// It is over, with this cause left.
    Finished(BootAttribution),
    /// Look for the missing mod.
    Resolve {
        attribution: BootMissingDependency,
        verification: Vec<VerificationSource>,
        missing: MissingDependency,
    },
}

/// What to do with the resolver's answer.
#[derive(Debug, Clone)]
pub enum Conclusion {
    /// The file is there: note the mod IDs of this JAR under this project, and
    /// go on with the next round.
    Register { project_id: u64, jar_path: String },
    /// Download this file, and hand what it declares to
    /// [`BootRepairSession::after_download`].
    Download(ResolvedDependency),
    /// It is over, with this cause left.
    Finished(BootAttribution),
}

/// What to do with a downloaded file.
#[derive(Debug, Clone)]
pub enum DownloadStep {
    /// Keep it: note the mod IDs under this project, and go on with the next
    /// round.
    Register { project_id: u64, mod_ids: Vec<String> },
    /// It is over, with this cause left; a file that was downloaded goes.
    Finished { remove_file: bool, left: BootAttribution },
}

/// The state of the repair: the rounds begun, the mods that were tried, and the
/// attempts.
pub struct BootRepairSession {
    pub max_rounds: u8,
    pub rounds: u8,
    pub attempted_mod_ids: StringHashSet,
    pub records: Vec<BootRepairRecord>,
}

/// Whether an attempt repaired a mod.
pub open spec fn repairs(r: BootRepairRecord, id: Seq<char>) -> bool {
    r.repair_result is Repaired && r.attribution@.missing_mod_id == id
}

/// Whether no two attempts repaired the same mod.
pub open spec fn repaired_once(records: Seq<BootRepairRecord>) -> bool {
    forall|i: int, j: int|
        #![trigger records[i], records[j]]
        0 <= i < j < records.len() && records[i].repair_result is Repaired
            && records[j].repair_result is Repaired ==> records[i].attribution@.missing_mod_id
            != records[j].attribution@.missing_mod_id
}

impl BootRepairSession {
    /// No more rounds are begun than are allowed; every round but the last has
    /// one attempt, and the last has at most one; the attempts are numbered by
    /// their rounds. What was repaired was attempted, and no mod was repaired
    /// twice.
    pub open spec fn valid(self) -> bool {
        &&& self.rounds <= self.max_rounds
        &&& self.records@.len() <= self.rounds <= self.records@.len() + 1
        &&& forall|i: int|
            0 <= i < self.records@.len() ==> (#[trigger] self.records@[i]).boot_attempt == i + 1
        &&& forall|i: int|
            0 <= i < self.records@.len() && (#[trigger] self.records@[i]).repair_result is Repaired
                ==> self.attempted_mod_ids@.contains(self.records@[i].attribution@.missing_mod_id)
        &&& repaired_once(self.records@)
    }

    /// Whether the last round that was begun is on a mod: it has no attempt yet,
    /// and the mod was not repaired before.
    pub open spec fn awaits(self, id: Seq<char>) -> bool {
        &&& self.open_round()
        &&& self.attempted_mod_ids@.contains(id)
        &&& forall|i: int|
            0 <= i < self.records@.len() ==> !repairs(#[trigger] self.records@[i], id)
    }

    /// Whether the last round that was begun has no attempt yet.
    pub open spec fn open_round(self) -> bool {
        self.records@.len() < self.rounds
    }

    /// Nothing tried yet.
    pub fn new(max_rounds: u8) -> (r: Self)
        ensures
            r.valid(),
            !r.open_round(),
            r.max_rounds == max_rounds,
            r.rounds == 0,
            r.attempted_mod_ids@ == Set::<Seq<char>>::empty(),
            r.records@ == Seq::<BootRepairRecord>::empty(),
    {
        BootRepairSession {
            max_rounds,
            rounds: 0,
            attempted_mod_ids: StringHashSet::new(),
            records: Vec::new(),
        }
    }

    /// Adds an attempt of the current round.
    fn record(
        &mut self,
        attribution: BootMissingDependency,
        sources: Vec<VerificationSource>,
        result: BootRepairResult,
    )
        requires
            old(self).valid(),
            old(self).open_round(),
            result is Repaired ==> old(self).awaits(attribution@.missing_mod_id),
        ensures
            final(self).valid(),
            !final(self).open_round(),
            record_views(final(self).records@) == record_views(old(self).records@).push(
                BootRecordView {
                    boot_attempt: old(self).rounds,
                    attribution: attribution@,
                    verification_sources: sources@,
                    repair_result: result@,
                },
            ),
            final(self).records@.len() == old(self).records@.len() + 1,
            final(self).records@.drop_last() == old(self).records@,
            final(self).records@.last().repair_result == result,
            final(self).rounds == old(self).rounds,
            final(self).max_rounds == old(self).max_rounds,
            final(self).attempted_mod_ids == old(self).attempted_mod_ids,
    {
        let ghost before = self.records@;
        let r = BootRepairRecord {
            boot_attempt: self.rounds,
            attribution,
            verification_sources: sources,
            repair_result: result,
        };
        self.records.push(r);
        proof {
            assert(record_views(self.records@) =~= record_views(before).push(r@));
            assert(self.records@.drop_last() =~= before);
        }
    }

    /// Begins the next round on the cause that the log names. The log is read
    /// anew in each round.
    pub fn begin_round(
        &mut self,
        log_tail: &str,
        graph: &DependencyGraph,
        project_map: &ProjectModMapping,
        installed_files: &InstalledFileRegistry,
        mods_dir: &str,
    ) -> (r: RoundStart)
        requires
            old(self).valid(),
            !old(self).open_round(),
        ensures
            final(self).valid(),
            final(self).open_round() == r is Resolve,
            r matches RoundStart::Resolve { attribution, .. } ==> final(self).awaits(
                attribution@.missing_mod_id,
            ),
            final(self).max_rounds == old(self).max_rounds,
            old(self).rounds == old(self).max_rounds ==> {
                &&& r matches RoundStart::Finished(a)
                &&& a@ == AttributionView::Unknown
                &&& final(self).rounds == old(self).rounds
                &&& final(self).attempted_mod_ids@ == old(self).attempted_mod_ids@
                &&& final(self).records@ == old(self).records@
            },
            old(self).rounds < old(self).max_rounds ==> final(self).rounds == old(self).rounds + 1
                && round_result(
                *old(self),
                *final(self),
                r,
                boot_failure_analyzer::attribution(log_tail@),
                graph.nodes@,
                *installed_files,
                mods_dir@,
            ),
    {
        if self.rounds >= self.max_rounds {
            return RoundStart::Finished(BootAttribution::Unknown);
        }
        let cause = analyze_boot_failure(log_tail, graph);
        self.judge(cause, graph, project_map, installed_files, mods_dir)
    }

    /// Begins a round on a given cause.
    pub fn judge(
        &mut self,
        cause: BootAttribution,
        graph: &DependencyGraph,
        project_map: &ProjectModMapping,
        installed_files: &InstalledFileRegistry,
        mods_dir: &str,
    ) -> (r: RoundStart)
        requires
            old(self).valid(),
            !old(self).open_round(),
            old(self).rounds < old(self).max_rounds,
        ensures
            final(self).valid(),
            final(self).open_round() == r is Resolve,
            r matches RoundStart::Resolve { attribution, .. } ==> final(self).awaits(
                attribution@.missing_mod_id,
            ),
            final(self).max_rounds == old(self).max_rounds,
            final(self).rounds == old(self).rounds + 1,
            round_result(
                *old(self),
                *final(self),
                r,
                cause@,
                graph.nodes@,
                *installed_files,
                mods_dir@,
            ),
    {
        self.rounds = self.rounds + 1;
        match cause {
            BootAttribution::MissingDependency(m) => {
                if m.confidence != AttributionConfidence::High {
                    self.record(
                        copy_missing(&m),
                        Vec::new(),
                        BootRepairResult::Skipped(
                            "Attribution confidence not High — skipping repair".to_string(),
                        ),
                    );
                    return RoundStart::Finished(BootAttribution::MissingDependency(m));
                }
                if self.attempted_mod_ids.contains(m.missing_mod_id.as_str()) {
                    let mut why = String::from_str("Already attempted repair for '");
                    why.append(m.missing_mod_id.as_str());
                    why.append("' — stopping loop");
                    self.record(copy_missing(&m), Vec::new(), BootRepairResult::Skipped(why));
                    return RoundStart::Finished(BootAttribution::MissingDependency(m));
                }
                let sources = verify_attribution(&m, graph, project_map, installed_files);
                if sources.len() == 0 {
                    self.record(
                        copy_missing(&m),
                        Vec::new(),
                        BootRepairResult::Failed(
                            "Attribution unverified — neither graph nor CF relation confirms".to_string(),
                        ),
                    );
                    return RoundStart::Finished(BootAttribution::MissingDependency(m));
                }
                self.attempted_mod_ids.insert(m.missing_mod_id.clone());
                let missing = MissingDependency {
                    dependent_mod_id: m.requesting_mod_id.clone(),
                    dependency_mod_id: m.missing_mod_id.clone(),
                    dependent_path: mods_dir.to_string(),
                    version_requirement: m.version_requirement.clone(),
                };
                RoundStart::Resolve { attribution: m, verification: sources, missing }
            },
            other => {
                let mut why = String::from_str("Not a missing dependency: ");
                match &other {
                    BootAttribution::WrongJavaVersion => why.append("WrongJavaVersion"),
                    BootAttribution::OutOfMemory => why.append("OutOfMemory"),
                    BootAttribution::LoaderFailure(s) => {
                        let mut shown = String::from_str("LoaderFailure(");
                        shown.append(debug_str(s.as_str()).as_str());
                        shown.append(")");
                        why.append(shown.as_str());
                    },
                    _ => why.append("Unknown"),
                }
                let nothing = BootMissingDependency {
                    requesting_mod_id: None,
                    missing_mod_id: String::new(),
                    version_requirement: None,
                    source: BootAttributionSource::ForgeLoader,
                    confidence: AttributionConfidence::Low,
                };
                assert(nothing@ == no_attribution());
                self.record(nothing, Vec::new(), BootRepairResult::Skipped(why));
                RoundStart::Finished(other)
            },
        }
    }

    /// Acts on the resolver's answer about the current round's missing mod.
    pub fn conclude(
        &mut self,
        attribution: &BootMissingDependency,
        verification: &Vec<VerificationSource>,
        resolution: DependencyResolution,
    ) -> (r: Conclusion)
        requires
            old(self).valid(),
            old(self).awaits(attribution@.missing_mod_id),
        ensures
            final(self).valid(),
            final(self).open_round() == r is Download,
            final(self).rounds == old(self).rounds,
            final(self).max_rounds == old(self).max_rounds,
            final(self).attempted_mod_ids@ == old(self).attempted_mod_ids@,
            match resolution {
                DependencyResolution::RuntimeResolved(rt) => {
                    &&& r matches Conclusion::Register { project_id, jar_path }
                    &&& project_id == rt.resolved.project_id
                    &&& jar_path@ == rt.jar_path@
                    &&& record_views(final(self).records@) == record_views(
                        old(self).records@,
                    ).push(
                        entry(
                            *old(self),
                            *attribution,
                            verification@,
                            BootResultView::Repaired(
                                rt.resolved.project_id,
                                rt.resolved.file_id,
                                rt.resolved.file_name@,
                            ),
                        ),
                    )
                },
                DependencyResolution::Resolved(file) => {
                    &&& r matches Conclusion::Download(d)
                    &&& d == file
                    &&& final(self).records@ == old(self).records@
                },
                other => {
                    &&& r matches Conclusion::Finished(left)
                    &&& left@ == AttributionView::MissingDependency(attribution@)
                    &&& record_views(final(self).records@) == record_views(
                        old(self).records@,
                    ).push(
                        entry(
                            *old(self),
                            *attribution,
                            verification@,
                            BootResultView::Failed(
                                "Resolver returned: "@ + dependency_resolver::debug_unresolved(
                                    other@,
                                ),
                            ),
                        ),
                    )
                },
            },
    {
        match resolution {
            DependencyResolution::RuntimeResolved(rt) => {
                self.record(
                    copy_missing(attribution),
                    copy_sources(verification),
                    BootRepairResult::Repaired {
                        project_id: rt.resolved.project_id,
                        file_id: rt.resolved.file_id,
                        file_name: rt.resolved.file_name.clone(),
                    },
                );
                Conclusion::Register { project_id: rt.resolved.project_id, jar_path: rt.jar_path }
            },
            DependencyResolution::Resolved(file) => Conclusion::Download(file),
            other => {
                let mut why = String::from_str("Resolver returned: ");
                why.append(other.describe_unresolved().as_str());
                self.record(
                    copy_missing(attribution),
                    copy_sources(verification),
                    BootRepairResult::Failed(why),
                );
                Conclusion::Finished(BootAttribution::MissingDependency(copy_missing(attribution)))
            },
        }
    }

    /// Acts on the download of the picked file: the JAR must declare the
    /// missing mod ID.
    pub fn after_download(
        &mut self,
        attribution: &BootMissingDependency,
        verification: &Vec<VerificationSource>,
        resolved: &ResolvedDependency,
        downloaded: Result<JarMetadata, String>,
    ) -> (r: DownloadStep)
        requires
            old(self).valid(),
            old(self).awaits(attribution@.missing_mod_id),
        ensures
            final(self).valid(),
            !final(self).open_round(),
            final(self).rounds == old(self).rounds,
            final(self).max_rounds == old(self).max_rounds,
            final(self).attempted_mod_ids@ == old(self).attempted_mod_ids@,
            record_views(final(self).records@) == record_views(old(self).records@).push(
                entry(
                    *old(self),
                    *attribution,
                    verification@,
                    download_result(attribution@.missing_mod_id, *resolved, downloaded),
                ),
            ),
            download_result(attribution@.missing_mod_id, *resolved, downloaded) is Repaired ==> {
                &&& r matches DownloadStep::Register { project_id, mod_ids }
                &&& project_id == resolved.project_id
                &&& mod_ids@ == downloaded->Ok_0.mod_ids@
            },
            !(download_result(attribution@.missing_mod_id, *resolved, downloaded) is Repaired)
                ==> {
                &&& r matches DownloadStep::Finished { remove_file, left }
                &&& remove_file == downloaded is Ok
                &&& left@ == AttributionView::MissingDependency(attribution@)
            },
    {
        let result: BootRepairResult;
        let step: DownloadStep;
        match downloaded {
            Ok(meta) => {
                match verify_download_identity(&meta, attribution.missing_mod_id.as_str()) {
                    Ok(()) => {
                        result =
                        BootRepairResult::Repaired {
                            project_id: resolved.project_id,
                            file_id: resolved.file_id,
                            file_name: resolved.file_name.clone(),
                        };
                        step =
                        DownloadStep::Register {
                            project_id: resolved.project_id,
                            mod_ids: meta.mod_ids,
                        };
                    },
                    Err(e) => {
                        let mut why = String::new();
                        match e {
                            DependencyResolution::IdentityMismatch {
                                expected_mod_id,
                                actual_mod_ids,
                            } => {
                                why.append("Identity mismatch: expected '");
                                why.append(expected_mod_id.as_str());
                                why.append("', got ");
                                why.append(debug_string_list(&actual_mod_ids).as_str());
                                assert(why@ =~= mismatch_text(
                                    attribution@.missing_mod_id,
                                    text::views(meta.mod_ids@),
                                ));
                            },
                            _ => {
                                why.append("Identity unverifiable");
                                assert(why@ =~= "Identity unverifiable"@);
                            },
                        }
                        result = BootRepairResult::Failed(why);
                        step =
                        DownloadStep::Finished {
                            remove_file: true,
                            left: BootAttribution::MissingDependency(copy_missing(attribution)),
                        };
                    },
                }
            },
            Err(e) => {
                let mut why = String::from_str("Download failed: ");
                why.append(e.as_str());
                result = BootRepairResult::Failed(why);
                step =
                DownloadStep::Finished {
                    remove_file: false,
                    left: BootAttribution::MissingDependency(copy_missing(attribution)),
                };
            },
        }
        self.record(copy_missing(attribution), copy_sources(verification), result);
        step
    }

    /// Ends the repair. No mod is repaired twice.
    pub fn outcome(self, final_attribution: BootAttribution) -> (r: BootRepairOutcome)
        requires
            self.valid(),
        ensures
            r.repaired == any_repaired(self.records@),
            r.records == self.records,
            repaired_once(r.records@),
            r.final_attribution == final_attribution,
    {
        let mut repaired = false;
        let mut i: usize = 0;
        while i < self.records.len()
            invariant
                i <= self.records.len(),
                repaired == any_repaired(self.records@.take(i as int)),
            decreases self.records.len() - i,
        {
            let ghost prev = self.records@.take(i as int);
            let ghost now = self.records@.take(i as int + 1);
            let this = match &self.records[i].repair_result {
                BootRepairResult::Repaired { .. } => true,
                _ => false,
            };
            proof {
                assert(now =~= prev.push(self.records@[i as int]));
                if any_repaired(prev) {
                    let k = choose|k: int|
                        0 <= k < prev.len() && (#[trigger] prev[k]).repair_result is Repaired;
                    assert(now[k].repair_result is Repaired);
                }
                if this {
                    assert(now[i as int].repair_result is Repaired);
                }
                if any_repaired(now) && !this {
                    let k = choose|k: int|
                        0 <= k < now.len() && (#[trigger] now[k]).repair_result is Repaired;
                    assert(prev[k].repair_result is Repaired);
                }
            }
            repaired = repaired || this;
            i = i + 1;
        }
        assert(self.records@.take(self.records@.len() as int) =~= self.records@);
        BootRepairOutcome { repaired, records: self.records, final_attribution }
    }
}

/// An attempt of the current round.
pub open spec fn entry(
    s: BootRepairSession,
    attribution: BootMissingDependency,
    sources: Seq<VerificationSource>,
    result: BootResultView,
) -> BootRecordView {
    BootRecordView {
        boot_attempt: s.rounds,
        attribution: attribution@,
        verification_sources: sources,
        repair_result: result,
    }
}

/// The text for a JAR that declares other mods.
pub open spec fn mismatch_text(expected: Seq<char>, actual: Seq<Seq<char>>) -> Seq<char> {
    "Identity mismatch: expected '"@ + expected + "', got "@ + text::debug_strings(actual)
}

/// What the download of a picked file amounts to.
pub open spec fn download_result(
    missing: Seq<char>,
    resolved: ResolvedDependency,
    downloaded: Result<JarMetadata, String>,
) -> BootResultView {
    match downloaded {
        Err(e) => BootResultView::Failed("Download failed: "@ + e@),
        Ok(meta) => if text::has_str(meta.mod_ids@, missing) {
            BootResultView::Repaired(resolved.project_id, resolved.file_id, resolved.file_name@)
        } else if meta.mod_ids@.len() == 0 {
            BootResultView::Failed("Identity unverifiable"@)
        } else {
            BootResultView::Failed(mismatch_text(missing, text::views(meta.mod_ids@)))
        },
    }
}

/// How a round's start changes the state, and what it asks for.
pub open spec fn round_result(
    before: BootRepairSession,
    after: BootRepairSession,
    r: RoundStart,
    cause: AttributionView,
    nodes: Seq<dependency_graph::ModNode>,
    installed: InstalledFileRegistry,
    mods_dir: Seq<char>,
) -> bool {
    match judged(cause, before.attempted_mod_ids@, nodes, installed) {
        RoundView::Stop(m, result) => {
            &&& r matches RoundStart::Finished(left)
            &&& left@ == cause
            &&& after.attempted_mod_ids@ == before.attempted_mod_ids@
            &&& record_views(after.records@) == record_views(before.records@).push(
                BootRecordView {
                    boot_attempt: (before.rounds + 1) as u8,
                    attribution: m,
                    verification_sources: seq![],
                    repair_result: result,
                },
            )
        },
        RoundView::Resolve(m, sources) => {
            &&& r matches RoundStart::Resolve { attribution, verification, missing }
            &&& attribution@ == m
            &&& verification@ == sources
            &&& missing@ == question(m, mods_dir)
            &&& after.attempted_mod_ids@ == before.attempted_mod_ids@.insert(m.missing_mod_id)
            &&& after.records@ == before.records@
        },
    }
}

// ---------------------------------------------------------------------
// Trying the required projects of the requesting mod
// ---------------------------------------------------------------------

/// Whether the resolver was at a loss for a project: none is known for the mod,
/// or the one that is could not be asked. A project whose files cannot be
/// checked against the version asked for is no reason to try others.
pub open spec fn lacks_project(
    resolution: DependencyResolution,
    project_map: ProjectModMapping,
    missing: Seq<char>,
) -> bool {
    resolution is NotFound || (resolution is Unsupported && project_map.claims(missing).len() == 0)
}

/// The projects to try where the resolver was at a loss for one: the unknown
/// required ones of the requesting mod's file, if there are any.
pub fn runtime_candidates(
    resolution: &DependencyResolution,
    attribution: &BootMissingDependency,
    project_map: &ProjectModMapping,
    installed_files: &InstalledFileRegistry,
) -> (r: Option<Vec<u64>>)
    ensures
        r is Some <==> lacks_project(*resolution, *project_map, attribution@.missing_mod_id)
            && boot_failure_analyzer::unknown_required(
            attribution@.requesting_mod_id,
            *installed_files,
        ).len() > 0,
        r is Some ==> r->0@ == boot_failure_analyzer::unknown_required(
            attribution@.requesting_mod_id,
            *installed_files,
        ),
{
    let open = match resolution {
        DependencyResolution::Unsupported(_) => match project_map.project_for_mod_id(
            attribution.missing_mod_id.as_str(),
        ) {
            ModIdLookup::NotMapped => true,
            _ => false,
        },
        DependencyResolution::NotFound => true,
        _ => false,
    };
    if !open {
        return None;
    }
    let unknown = enumerate_unknown_required_projects(attribution, installed_files);
    if unknown.len() == 0 {
        None
    } else {
        Some(unknown)
    }
}

/// What became of one project that was tried.
pub enum Trial {
    /// No file, or the download failed.
    NoFile,
    /// A file that does not declare the missing mod.
    OtherMod,
    /// A file that does.
    Match(ResolvedDependency, String),
}

/// The trials among the first `n` that matched.
pub open spec fn matches_below(trials: Seq<Trial>, n: int) -> Seq<Trial>
    decreases n,
{
    if n <= 0 {
        seq![]
    } else if trials[n - 1] is Match {
        matches_below(trials, n - 1).push(trials[n - 1])
    } else {
        matches_below(trials, n - 1)
    }
}

/// The trial of projects one by one: the trials so far, and the file that
/// matched, if one did. A second match ends it.
pub struct RuntimeProbe {
    pub candidates: Vec<u64>,
    pub next: usize,
    pub matched: Option<RuntimeResolvedDependency>,
    pub ambiguous: bool,
    pub trials: Ghost<Seq<Trial>>,
}

/// What to do with a downloaded candidate.
#[derive(Debug, Clone)]
pub enum ProbeStep {
    /// Keep the file, and go on.
    Keep,
    /// Remove the file, and go on.
    Remove,
    /// A second file matched: remove it and this one, and stop.
    RemoveBoth(String),
}

impl RuntimeProbe {
    /// The probe's memory agrees with the trials.
    pub open spec fn valid(self) -> bool {
        let m = matches_below(self.trials@, self.trials@.len() as int);
        &&& self.next <= self.candidates@.len()
        &&& self.candidates@.len() <= MAX_RUNTIME_RELATION_CANDIDATES
        &&& self.trials@.len() == self.next
        &&& self.ambiguous == (m.len() > 1)
        &&& self.matched is Some <==> m.len() == 1
        &&& self.matched is Some ==> m[0] == Trial::Match(
            self.matched->0.resolved,
            self.matched->0.jar_path,
        )
    }

    /// Starts on the projects; too many are not tried at all.
    pub fn new(candidates: Vec<u64>) -> (r: Result<Self, DependencyResolution>)
        ensures
            r is Ok <==> candidates@.len() <= MAX_RUNTIME_RELATION_CANDIDATES,
            r is Ok ==> r->Ok_0.valid() && r->Ok_0.candidates@ == candidates@ && r->Ok_0.next == 0,
            r is Err ==> r->Err_0@ == ResolutionView::NotFound,
    {
        if candidates.len() > MAX_RUNTIME_RELATION_CANDIDATES {
            return Err(DependencyResolution::NotFound);
        }
        let trials: Ghost<Seq<Trial>> = Ghost(Seq::<Trial>::empty());
        Ok(
            RuntimeProbe {
                candidates,
                next: 0,
                matched: None,
                ambiguous: false,
                trials,
            },
        )
    }

    /// The next project to try, unless it is over.
    pub fn next_project(&self) -> (r: Option<u64>)
        requires
            self.valid(),
        ensures
            r is Some <==> !self.ambiguous && self.next < self.candidates@.len(),
            r is Some ==> r->0 == self.candidates@[self.next as int],
    {
        if !self.ambiguous && self.next < self.candidates.len() {
            Some(self.candidates[self.next])
        } else {
            None
        }
    }

    /// The project had no file, or its download failed.
    pub fn no_file(&mut self)
        requires
            old(self).valid(),
            old(self).next < old(self).candidates@.len(),
        ensures
            final(self).valid(),
            final(self).candidates@ == old(self).candidates@,
            final(self).trials@ == old(self).trials@.push(Trial::NoFile),
    {
        self.next = self.next + 1;
        let ghost prev = self.trials@;
        self.trials = Ghost(self.trials@.push(Trial::NoFile));
        proof {
            lemma_matches_prefix(prev, Trial::NoFile, prev.len() as int);
        }
    }

    /// The project's file was downloaded and declares these mod IDs.
    pub fn downloaded(
        &mut self,
        resolved: ResolvedDependency,
        jar_path: String,
        metadata: &JarMetadata,
        missing_mod_id: &str,
    ) -> (r: ProbeStep)
        requires
            old(self).valid(),
            !old(self).ambiguous,
            old(self).next < old(self).candidates@.len(),
        ensures
            final(self).valid(),
            final(self).candidates@ == old(self).candidates@,
            final(self).trials@ == old(self).trials@.push(
                if text::has_str(metadata.mod_ids@, missing_mod_id@) {
                    Trial::Match(resolved, jar_path)
                } else {
                    Trial::OtherMod
                },
            ),
            r is Remove <==> !text::has_str(metadata.mod_ids@, missing_mod_id@),
            r is RemoveBoth <==> text::has_str(metadata.mod_ids@, missing_mod_id@) && old(
                self,
            ).matched is Some,
            r is RemoveBoth ==> r->RemoveBoth_0@ == old(self).matched->0.jar_path@,
    {
        self.next = self.next + 1;
        let ghost prev = self.trials@;
        if !contains_str(&metadata.mod_ids, missing_mod_id) {
            self.trials = Ghost(self.trials@.push(Trial::OtherMod));
            proof {
                lemma_matches_prefix(prev, Trial::OtherMod, prev.len() as int);
            }
            return ProbeStep::Remove;
        }
        let ghost t = Trial::Match(resolved, jar_path);
        self.trials = Ghost(self.trials@.push(t));
        proof {
            lemma_matches_prefix(prev, t, prev.len() as int);
        }
        match self.matched.take() {
            Some(first) => {
                self.ambiguous = true;
                ProbeStep::RemoveBoth(first.jar_path)
            },
            None => {
                self.matched = Some(RuntimeResolvedDependency { resolved, jar_path });
                ProbeStep::Keep
            },
        }
    }

    /// The result: the one file that matched; nothing, or an ambiguity, else.
    pub fn finish(self) -> (r: DependencyResolution)
        requires
            self.valid(),
        ensures
            ({
                let m = matches_below(self.trials@, self.trials@.len() as int);
                r@ == (if m.len() == 0 {
                    ResolutionView::NotFound
                } else if m.len() == 1 {
                    ResolutionView::RuntimeResolved(m[0]->Match_0@, m[0]->Match_1@)
                } else {
                    ResolutionView::Ambiguous(seq![])
                })
            }),
    {
        if self.ambiguous {
            let none: Vec<dependency_resolver::ResolutionCandidate> = Vec::new();
            assert(dependency_resolver::candidate_views(none@) =~= seq![]);
            return DependencyResolution::Ambiguous(none);
        }
        match self.matched {
            Some(rt) => DependencyResolution::RuntimeResolved(rt),
            None => DependencyResolution::NotFound,
        }
    }
}

/// What matched before does not depend on what is tried later.
proof fn lemma_matches_prefix(trials: Seq<Trial>, t: Trial, n: int)
    requires
        0 <= n <= trials.len(),
    ensures
        matches_below(trials.push(t), n) == matches_below(trials, n),
    decreases n,
{
    if n > 0 {
        lemma_matches_prefix(trials, t, n - 1);
    }
}

/// A round never looks for a mod that an earlier round looked for, so that no
/// mod is tried twice; and with a log that stays the same, the round after a
/// repair stops.
pub proof fn law_no_mod_tried_twice(
    cause: AttributionView,
    attempted: Set<Seq<char>>,
    nodes: Seq<dependency_graph::ModNode>,
    installed: InstalledFileRegistry,
)
    ensures
        judged(cause, attempted, nodes, installed) matches RoundView::Resolve(m, _)
            ==> !attempted.contains(m.missing_mod_id) && judged(
            cause,
            attempted.insert(m.missing_mod_id),
            nodes,
            installed,
        ) is Stop,
{
}

/// Only a missing mod that is attributed for sure and confirmed is looked for.
pub proof fn law_only_confirmed_is_repaired(
    cause: AttributionView,
    attempted: Set<Seq<char>>,
    nodes: Seq<dependency_graph::ModNode>,
    installed: InstalledFileRegistry,
)
    ensures
        judged(cause, attempted, nodes, installed) matches RoundView::Resolve(m, sources)
            ==> cause == AttributionView::MissingDependency(m) && m.confidence
            == AttributionConfidence::High && sources.len() > 0 && sources
            == boot_failure_analyzer::verification(m, nodes, installed),
{
}

/// A missing mod that is attributed for sure, that was not tried before and that
/// something confirms is looked for: that very mod, with what confirms it. Any
/// other cause ends the repair, and what is recorded is about that mod and says
/// that it was not repaired.
pub proof fn law_confirmed_is_looked_for(
    cause: AttributionView,
    attempted: Set<Seq<char>>,
    nodes: Seq<dependency_graph::ModNode>,
    installed: InstalledFileRegistry,
)
    ensures
        ({
            let j = judged(cause, attempted, nodes, installed);
            &&& !(cause is MissingDependency) ==> j is Stop && j->Stop_1 is Skipped
            &&& cause matches AttributionView::MissingDependency(m) ==> {
                let v = boot_failure_analyzer::verification(m, nodes, installed);
                let sure = m.confidence == AttributionConfidence::High;
                let tried = attempted.contains(m.missing_mod_id);
                &&& sure && !tried && v.len() > 0 ==> j == RoundView::Resolve(m, v)
                &&& sure && !tried && v.len() == 0 ==> j is Stop && j->Stop_0 == m && j->Stop_1
                    is Failed
                &&& !sure || tried ==> j is Stop && j->Stop_0 == m && j->Stop_1 is Skipped
                &&& sure && tried ==> text::contains(j->Stop_1->Skipped_0, m.missing_mod_id)
            }
        }),
{
    if let AttributionView::MissingDependency(m) = cause {
        text_laws::law_contains_what_was_put_in(
            "Already attempted repair for '"@,
            m.missing_mod_id,
            "' — stopping loop"@,
        );
    }
}

/// The resolver is asked about the mod that is missing, for the mod that needs it
/// and with the version that it needs.
pub proof fn law_the_missing_mod_is_asked_for(m: BootMissingView, mods_dir: Seq<char>)
    ensures
        question(m, mods_dir).dependency_mod_id == m.missing_mod_id,
        question(m, mods_dir).dependent_mod_id == m.requesting_mod_id,
        question(m, mods_dir).version_requirement == m.version_requirement,
        question(m, mods_dir).dependent_path == mods_dir,
{
}

/// A download repairs a mod if and only if the JAR that came declares the mod ID
/// that is missing; what is recorded then is the file that was picked. A download
/// that failed is recorded with its reason.
pub proof fn law_only_the_right_jar_repairs(
    missing: Seq<char>,
    resolved: ResolvedDependency,
    downloaded: Result<JarMetadata, String>,
)
    ensures
        ({
            let r = download_result(missing, resolved, downloaded);
            &&& r is Repaired <==> downloaded is Ok && exists|k: int|
                0 <= k < downloaded->Ok_0.mod_ids@.len() && (
                #[trigger] downloaded->Ok_0.mod_ids@[k])@ == missing
            &&& r is Repaired ==> r == BootResultView::Repaired(
                resolved.project_id,
                resolved.file_id,
                resolved.file_name@,
            )
            &&& !(r is Repaired) ==> r is Failed
            &&& downloaded is Err ==> text::ends_with(r->Failed_0, downloaded->Err_0@)
            &&& downloaded is Ok && downloaded->Ok_0.mod_ids@.len() > 0 && r is Failed
                ==> text::contains(r->Failed_0, missing)
        }),
{
    match downloaded {
        Err(e) => {
            text_laws::law_ends("Download failed: "@, e@);
        },
        Ok(meta) => {
            let ids = text::debug_strings(text::views(meta.mod_ids@));
            let a = "Identity mismatch: expected '"@;
            let b = "', got "@;
            text_laws::law_contains_what_was_put_in(a, missing, b + ids);
            assert(a + missing + (b + ids) =~= mismatch_text(missing, text::views(meta.mod_ids@)));
        },
    }
}

/// The required projects of the requesting mod are tried only where no project is
/// known for the missing mod, or the one that is could not be asked; not where
/// there was a choice, nothing that fits, or a constraint that cannot be checked.
pub proof fn law_when_others_are_tried(
    resolution: DependencyResolution,
    project_map: ProjectModMapping,
    missing: Seq<char>,
)
    ensures
        resolution is NotFound ==> lacks_project(resolution, project_map, missing),
        resolution is Unsupported && project_map.claims(missing).len() == 0 ==> lacks_project(
            resolution,
            project_map,
            missing,
        ),
        resolution is Unsupported && project_map.claims(missing).len() > 0 ==> !lacks_project(
            resolution,
            project_map,
            missing,
        ),
        !(resolution is NotFound) && !(resolution is Unsupported) ==> !lacks_project(
            resolution,
            project_map,
            missing,
        ),
        boot_failure_analyzer::MAX_RUNTIME_RELATION_CANDIDATES == 5,
        boot_failure_analyzer::MAX_BOOT_REPAIR_ROUNDS == 2,
{
}

/// What matched is every trial that did, in order, and nothing else.
pub proof fn law_matches_are_those_that_matched(trials: Seq<Trial>, n: int, i: int)
    requires
        0 <= i < n <= trials.len(),
    ensures
        trials[i] is Match ==> {
            let at = matches_below(trials, i).len() as int;
            at < matches_below(trials, n).len() && matches_below(trials, n)[at] == trials[i]
        },
        matches_below(trials, n).len() <= n,
        forall|k: int|
            0 <= k < matches_below(trials, n).len() ==> (#[trigger] matches_below(trials, n)[k])
                is Match && trials.contains(matches_below(trials, n)[k]),
    decreases n,
{
    let now = matches_below(trials, n);
    let prev = matches_below(trials, n - 1);
    if i < n - 1 {
        law_matches_are_those_that_matched(trials, n - 1, i);
    } else if n > 1 {
        law_matches_are_those_that_matched(trials, n - 1, 0);
    } else {
        assert(prev.len() == 0);
    }
    assert forall|k: int| 0 <= k < now.len() implies (#[trigger] now[k]) is Match
        && trials.contains(now[k]) by {
        if k < prev.len() {
            assert(now[k] == prev[k]);
        } else {
            assert(now[k] == trials[n - 1]);
        }
    }
}

/// How a round begins: where a mod is looked for, it counts as tried from then on,
/// nothing is recorded yet, and the resolver is asked about that very mod; where
/// the repair ends, just one attempt is recorded, with the number of the round, and
/// nothing more counts as tried.
pub proof fn law_how_a_round_begins(
    before: BootRepairSession,
    after: BootRepairSession,
    r: RoundStart,
    cause: AttributionView,
    nodes: Seq<dependency_graph::ModNode>,
    installed: InstalledFileRegistry,
    mods_dir: Seq<char>,
)
    requires
        round_result(before, after, r, cause, nodes, installed, mods_dir),
        before.rounds < 255,
    ensures
        r matches RoundStart::Resolve { attribution, verification, missing } ==> {
            &&& cause == AttributionView::MissingDependency(attribution@)
            &&& attribution@.confidence == AttributionConfidence::High
            &&& !before.attempted_mod_ids@.contains(attribution@.missing_mod_id)
            &&& after.attempted_mod_ids@ == before.attempted_mod_ids@.insert(
                attribution@.missing_mod_id,
            )
            &&& after.records@ == before.records@
            &&& verification@ == boot_failure_analyzer::verification(
                attribution@,
                nodes,
                installed,
            )
            &&& verification@.len() > 0
            &&& missing@.dependency_mod_id == attribution@.missing_mod_id
            &&& missing@.dependent_mod_id == attribution@.requesting_mod_id
        },
        r matches RoundStart::Finished(left) ==> {
            let old_ones = record_views(before.records@);
            let new_ones = record_views(after.records@);
            &&& left@ == cause
            &&& after.attempted_mod_ids@ == before.attempted_mod_ids@
            &&& new_ones.len() == old_ones.len() + 1
            &&& new_ones.drop_last() == old_ones
            &&& new_ones.last().boot_attempt == before.rounds + 1
            &&& !(new_ones.last().repair_result is Repaired)
            &&& new_ones.last().verification_sources.len() == 0
            &&& cause matches AttributionView::MissingDependency(m) ==> new_ones.last().attribution
                == m
        },
{
    law_confirmed_is_looked_for(cause, before.attempted_mod_ids@, nodes, installed);
    if r is Finished {
        let old_ones = record_views(before.records@);
        let new_ones = record_views(after.records@);
        assert(new_ones.drop_last() =~= old_ones);
    }
}

/// Attempts that repaired are for different mods, and a repair counts as one where
/// any attempt repaired.
pub proof fn law_repairs_are_of_different_mods(records: Seq<BootRepairRecord>, i: int, j: int)
    requires
        repaired_once(records),
        0 <= i < records.len(),
        0 <= j < records.len(),
        i != j,
        records[i].repair_result is Repaired,
        records[j].repair_result is Repaired,
    ensures
        records[i].attribution@.missing_mod_id != records[j].attribution@.missing_mod_id,
        any_repaired(records),
{
    if i < j {
        assert(records[i].attribution@.missing_mod_id != records[j].attribution@.missing_mod_id);
    } else {
        assert(records[j].attribution@.missing_mod_id != records[i].attribution@.missing_mod_id);
    }
}

} // verus!
