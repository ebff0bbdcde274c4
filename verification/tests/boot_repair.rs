//! The rounds of repair after a failed boot.
use lbby_core::boot_failure_analyzer::{
    AttributionConfidence, BootAttribution, BootAttributionSource, BootMissingDependency,
    InstalledFileRegistry, VerificationSource,
};
use lbby_core::boot_repair::{
    runtime_candidates, BootRepairResult, BootRepairSession, Conclusion, DownloadStep, ProbeStep,
    RoundStart, RuntimeProbe,
};
use lbby_core::dependency_graph::DependencyGraph;
use lbby_core::dependency_resolver::relation_type;
use lbby_core::dependency_resolver::{
    CurseDependency, DependencyResolution, ProjectModMapping, ResolutionReason, ResolvedDependency,
    RuntimeResolvedDependency,
};
use lbby_core::jar_metadata::{DependencyKind, JarMetadata, NormalizedDependency};
use lbby_core::mod_compat::{
    CompatibilityConfidence, CompatibilitySource, ModCompatibility, ServerCompatibility,
};

const LOG: &str = "Mod 'create' requires mod 'flywheel'";

fn metadata(ids: &[&str]) -> JarMetadata {
    JarMetadata {
        mod_ids: ids.iter().map(|s| s.to_string()).collect(),
        dependencies: Vec::new(),
    }
}

/// A graph in which `create` requires `flywheel`.
fn graph() -> DependencyGraph {
    let mut meta = metadata(&["create"]);
    meta.dependencies.push(NormalizedDependency {
        mod_id: "flywheel".to_string(),
        kind: DependencyKind::Required,
        version_requirement: Some("[1,)".to_string()),
    });
    let unknown = ModCompatibility {
        compatibility: ServerCompatibility::Unknown,
        confidence: CompatibilityConfidence::NoEvidence,
        source: CompatibilitySource::NoSource,
        reason: String::new(),
    };
    DependencyGraph::build(&[("create.jar".to_string(), unknown, meta)])
}

fn attribution(confidence: AttributionConfidence) -> BootMissingDependency {
    BootMissingDependency {
        requesting_mod_id: Some("create".to_string()),
        missing_mod_id: "flywheel".to_string(),
        version_requirement: None,
        source: BootAttributionSource::ForgeLoader,
        confidence,
    }
}

fn file(project_id: u64) -> ResolvedDependency {
    ResolvedDependency {
        project_id,
        file_id: 70,
        mod_id: Some("flywheel".to_string()),
        download_url: None,
        file_name: "flywheel.jar".to_string(),
        file_length: 1,
        minecraft_version: "1.20.1".to_string(),
        version: None,
        reason: ResolutionReason::SoleCompatibleFile,
    }
}

fn judge(session: &mut BootRepairSession, cause: BootAttribution) -> RoundStart {
    let map = ProjectModMapping::new();
    let registry = InstalledFileRegistry::new();
    session.judge(cause, &graph(), &map, &registry, "/mods")
}

fn started(session: &mut BootRepairSession) -> (BootMissingDependency, Vec<VerificationSource>) {
    match judge(
        session,
        BootAttribution::MissingDependency(attribution(AttributionConfidence::High)),
    ) {
        RoundStart::Resolve { attribution, verification, missing } => {
            assert_eq!(missing.dependency_mod_id, "flywheel");
            assert_eq!(missing.dependent_mod_id.as_deref(), Some("create"));
            assert_eq!(missing.dependent_path, "/mods");
            (attribution, verification)
        }
        other => panic!("Expected Resolve, got {:?}", other),
    }
}

fn failure(session: &BootRepairSession) -> String {
    match &session.records.last().unwrap().repair_result {
        BootRepairResult::Failed(s) | BootRepairResult::Skipped(s) => s.clone(),
        other => panic!("Expected a failure, got {:?}", other),
    }
}

#[test]
fn logs_begin_rounds() {
    let mut session = BootRepairSession::new(1);
    let map = ProjectModMapping::new();
    let registry = InstalledFileRegistry::new();
    let first = session.begin_round(LOG, &graph(), &map, &registry, "/mods");
    let (missing, sources) = match first {
        RoundStart::Resolve { attribution, verification, .. } => (attribution, verification),
        other => panic!("Expected Resolve, got {:?}", other),
    };
    assert!(session.records.is_empty());
    session.after_download(&missing, &sources, &file(7), Ok(metadata(&["flywheel"])));
    let second = session.begin_round(LOG, &graph(), &map, &registry, "/mods");
    assert!(matches!(second, RoundStart::Finished(BootAttribution::Unknown)));
    assert_eq!(session.records.len(), 1);
    assert_eq!(session.records[0].boot_attempt, 1);
}

#[test]
fn no_mod_is_tried_twice() {
    let mut session = BootRepairSession::new(3);
    let (missing, sources) = started(&mut session);
    session.after_download(&missing, &sources, &file(7), Ok(metadata(&["flywheel"])));
    let cause = BootAttribution::MissingDependency(attribution(AttributionConfidence::High));
    assert!(matches!(judge(&mut session, cause), RoundStart::Finished(_)));
    assert_eq!(failure(&session), "Already attempted repair for 'flywheel' — stopping loop");
    assert_eq!(session.records.len(), 2);
    assert_eq!(session.records[0].boot_attempt, 1);
    assert_eq!(session.records[1].boot_attempt, 2);
    let outcome = session.outcome(BootAttribution::Unknown);
    let repaired = outcome
        .records
        .iter()
        .filter(|r| matches!(r.repair_result, BootRepairResult::Repaired { .. }))
        .count();
    assert_eq!(repaired, 1);
}

#[test]
fn unsure_causes_are_not_repaired() {
    let mut session = BootRepairSession::new(3);
    let cause = BootAttribution::MissingDependency(attribution(AttributionConfidence::Low));
    assert!(matches!(judge(&mut session, cause), RoundStart::Finished(_)));
    assert_eq!(failure(&session), "Attribution confidence not High — skipping repair");
    assert!(matches!(judge(&mut session, BootAttribution::OutOfMemory), RoundStart::Finished(_)));
    assert_eq!(failure(&session), "Not a missing dependency: OutOfMemory");
    judge(&mut session, BootAttribution::LoaderFailure("a \"b\"".to_string()));
    assert_eq!(failure(&session), "Not a missing dependency: LoaderFailure(\"a \\\"b\\\"\")");
    assert!(!session.outcome(BootAttribution::Unknown).repaired);
}

#[test]
fn unconfirmed_causes_are_not_repaired() {
    let mut session = BootRepairSession::new(3);
    let mut other = attribution(AttributionConfidence::High);
    other.missing_mod_id = "unknown".to_string();
    let cause = BootAttribution::MissingDependency(other);
    assert!(matches!(judge(&mut session, cause), RoundStart::Finished(_)));
    assert_eq!(
        failure(&session),
        "Attribution unverified — neither graph nor CF relation confirms"
    );
}

#[test]
fn a_verified_download_repairs() {
    let mut session = BootRepairSession::new(3);
    let (missing, sources) = started(&mut session);
    let picked = match session.conclude(&missing, &sources, DependencyResolution::Resolved(file(7))) {
        Conclusion::Download(picked) => picked,
        other => panic!("Expected Download, got {:?}", other),
    };
    let step = session.after_download(&missing, &sources, &picked, Ok(metadata(&["flywheel"])));
    assert!(matches!(step, DownloadStep::Register { project_id: 7, mod_ids } if mod_ids == vec!["flywheel"]));
    let outcome = session.outcome(BootAttribution::Unknown);
    assert!(outcome.repaired);
    assert_eq!(outcome.records.len(), 1);
    assert!(matches!(
        &outcome.records[0].repair_result,
        BootRepairResult::Repaired { project_id: 7, file_id: 70, file_name } if file_name == "flywheel.jar"
    ));
}

#[test]
fn other_downloads_are_removed() {
    let mut session = BootRepairSession::new(3);
    let (missing, sources) = started(&mut session);
    let step = session.after_download(&missing, &sources, &file(7), Ok(metadata(&["a", "b"])));
    assert!(matches!(step, DownloadStep::Finished { remove_file: true, .. }));
    assert_eq!(failure(&session), "Identity mismatch: expected 'flywheel', got [\"a\", \"b\"]");
    let mut session = BootRepairSession::new(3);
    let (missing, sources) = started(&mut session);
    session.after_download(&missing, &sources, &file(7), Ok(metadata(&[])));
    assert_eq!(failure(&session), "Identity unverifiable");
    let mut session = BootRepairSession::new(3);
    let (missing, sources) = started(&mut session);
    let step = session.after_download(&missing, &sources, &file(7), Err("no net".to_string()));
    assert!(matches!(step, DownloadStep::Finished { remove_file: false, .. }));
    assert_eq!(failure(&session), "Download failed: no net");
}

#[test]
fn what_the_resolver_does_not_know_is_recorded() {
    let mut session = BootRepairSession::new(3);
    let (missing, sources) = started(&mut session);
    let end = session.conclude(&missing, &sources, DependencyResolution::NotFound);
    assert!(matches!(end, Conclusion::Finished(BootAttribution::MissingDependency(_))));
    assert_eq!(failure(&session), "Resolver returned: NotFound");
    let mut session = BootRepairSession::new(3);
    let (missing, sources) = started(&mut session);
    let found = RuntimeResolvedDependency { resolved: file(7), jar_path: "/mods/f.jar".to_string() };
    let end = session.conclude(&missing, &sources, DependencyResolution::RuntimeResolved(found));
    assert!(matches!(end, Conclusion::Register { project_id: 7, jar_path } if jar_path == "/mods/f.jar"));
}

#[test]
fn required_projects_are_candidates() {
    let mut registry = InstalledFileRegistry::new();
    registry.register(
        1,
        2,
        vec!["create".to_string()],
        vec![CurseDependency { mod_id: 99, relation_type: relation_type::REQUIRED }],
    );
    let missing = attribution(AttributionConfidence::High);
    let mut map = ProjectModMapping::new();
    let why = DependencyResolution::Unsupported("why".to_string());
    assert_eq!(
        runtime_candidates(&DependencyResolution::NotFound, &missing, &map, &registry),
        Some(vec![99])
    );
    assert_eq!(runtime_candidates(&why, &missing, &map, &registry), Some(vec![99]));
    assert_eq!(
        runtime_candidates(&DependencyResolution::Resolved(file(7)), &missing, &map, &registry),
        None
    );
    assert_eq!(
        runtime_candidates(
            &DependencyResolution::NotFound,
            &missing,
            &map,
            &InstalledFileRegistry::new()
        ),
        None
    );
    map.register(7, vec!["flywheel".to_string()]);
    assert_eq!(runtime_candidates(&why, &missing, &map, &registry), None);
}

#[test]
fn one_matching_project_is_picked() {
    let mut probe = RuntimeProbe::new(vec![1, 2, 3]).ok().unwrap();
    assert_eq!(probe.next_project(), Some(1));
    probe.no_file();
    let step = probe.downloaded(file(2), "/mods/b.jar".to_string(), &metadata(&["x"]), "flywheel");
    assert!(matches!(step, ProbeStep::Remove));
    let step =
        probe.downloaded(file(3), "/mods/c.jar".to_string(), &metadata(&["flywheel"]), "flywheel");
    assert!(matches!(step, ProbeStep::Keep));
    assert_eq!(probe.next_project(), None);
    assert!(matches!(
        probe.finish(),
        DependencyResolution::RuntimeResolved(rt) if rt.resolved.project_id == 3 && rt.jar_path == "/mods/c.jar"
    ));
}

#[test]
fn two_matching_projects_are_ambiguous() {
    let mut probe = RuntimeProbe::new(vec![1, 2, 3]).ok().unwrap();
    let meta = metadata(&["flywheel"]);
    probe.downloaded(file(1), "/mods/a.jar".to_string(), &meta, "flywheel");
    let step = probe.downloaded(file(2), "/mods/b.jar".to_string(), &meta, "flywheel");
    assert!(matches!(step, ProbeStep::RemoveBoth(first) if first == "/mods/a.jar"));
    assert_eq!(probe.next_project(), None);
    assert!(matches!(probe.finish(), DependencyResolution::Ambiguous(c) if c.is_empty()));
}

#[test]
fn too_many_projects_are_not_tried() {
    assert!(matches!(
        RuntimeProbe::new((0..100).collect()),
        Err(DependencyResolution::NotFound)
    ));
    let none = RuntimeProbe::new(Vec::new()).ok().unwrap();
    assert!(matches!(none.finish(), DependencyResolution::NotFound));
}
