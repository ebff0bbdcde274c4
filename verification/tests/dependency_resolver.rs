//! Finding the project and the file of a missing dependency.
use lbby_core::dependency_graph::MissingDependency;
use lbby_core::dependency_resolver::relation_type;
use lbby_core::dependency_resolver::{
    check_jar_bytes, compatible_files_url, download_entry, fetch_compatible_files, files_error,
    loader_id_from_name, truncate, verify_download_identity, CurseDependency,
    DependencyResolution, DependencyResolver, ModIdLookup, ProjectModMapping, RepairAction,
    RepairRecord, RepairResult, ResolutionCandidate, ResolutionReason, ResolveStep,
    ResolvedDependency, MAX_REPAIR_ROUNDS,
};
use lbby_core::jar_metadata::JarMetadata;
use lbby_core::mod_services::CurseFileEntry;
use lbby_core::structured::{parse_json, Data};

fn make_missing(mod_id: &str, dependent: Option<&str>) -> MissingDependency {
    MissingDependency {
        dependent_mod_id: dependent.map(|s| s.to_string()),
        dependency_mod_id: mod_id.to_string(),
        dependent_path: format!("mods/{}.jar", dependent.unwrap_or("test")),
        version_requirement: None,
    }
}

fn make_file_entry(id: i64, name: &str, mc_ver: &str) -> CurseFileEntry {
    CurseFileEntry {
        id,
        file_name: name.to_string(),
        file_length: 1000,
        download_url: Some(format!("https://example.com/{}", name)),
        server_pack_file_id: None,
        is_server_pack: false,
        parent_project_file_id: None,
        game_versions: vec![mc_ver.to_string()],
        dependencies: vec![],
    }
}

#[test]
fn test_project_mod_mapping_register_and_lookup() {
    let mut map = ProjectModMapping::new();
    map.register(12345, vec!["jei".to_string(), "jei_api".to_string()]);
    assert!(matches!(
        map.project_for_mod_id("jei"),
        ModIdLookup::Authoritative(12345)
    ));
    assert!(matches!(
        map.project_for_mod_id("jei_api"),
        ModIdLookup::Authoritative(12345)
    ));
    assert!(matches!(
        map.project_for_mod_id("unknown"),
        ModIdLookup::NotMapped
    ));
}

#[test]
fn a_second_jar_of_a_project_adds_to_the_first() {
    let mut map = ProjectModMapping::new();
    map.register(100, vec!["core".to_string(), "api".to_string()]);
    map.register(100, vec!["extra".to_string(), "core".to_string()]);
    assert_eq!(map.project_to_mod_ids[&100], vec!["core", "api", "extra"]);
    for id in ["core", "api", "extra"] {
        assert!(matches!(map.project_for_mod_id(id), ModIdLookup::Authoritative(100)));
    }
}

#[test]
fn test_two_projects_same_mod_id_is_ambiguous() {
    let mut map = ProjectModMapping::new();
    map.register(100, vec!["shared_lib".to_string()]);
    map.register(200, vec!["shared_lib".to_string()]);
    match map.project_for_mod_id("shared_lib") {
        ModIdLookup::Ambiguous(candidates) => {
            assert_eq!(candidates.len(), 2);
            assert!(candidates.contains(&100));
            assert!(candidates.contains(&200));
        }
        other => panic!("Expected Ambiguous, got {:?}", other),
    }
}

#[test]
fn test_version_filter_returns_all_when_no_constraint() {
    let resolver = DependencyResolver::new();
    let files = vec![
        make_file_entry(1, "a.jar", "1.20.1"),
        make_file_entry(2, "b.jar", "1.20.1"),
    ];
    let result = resolver.apply_version_constraint(&files, &None);
    assert_eq!(result.len(), 2);
}

#[test]
fn test_version_filter_returns_all_for_wildcard() {
    let resolver = DependencyResolver::new();
    let files = vec![make_file_entry(1, "a.jar", "1.20.1")];
    let result = resolver.apply_version_constraint(&files, &Some("*".to_string()));
    assert_eq!(result.len(), 1);
}

#[test]
fn test_version_filter_unsupported_for_semver_constraint() {
    let resolver = DependencyResolver::new();
    let files = vec![make_file_entry(1, "a.jar", "1.20.1")];
    let result = resolver.apply_version_constraint(&files, &Some(">=1.2.0".to_string()));
    assert_eq!(result.len(), 0);
}

#[test]
fn test_version_filter_unsupported_for_exact_version() {
    let resolver = DependencyResolver::new();
    let files = vec![make_file_entry(1, "a.jar", "1.20.1")];
    let result = resolver.apply_version_constraint(&files, &Some("1.2.3".to_string()));
    assert_eq!(result.len(), 0);
}

#[test]
fn test_version_filter_empty_for_unrecognized_format() {
    let resolver = DependencyResolver::new();
    let files = vec![make_file_entry(1, "a.jar", "1.20.1")];
    let result = resolver.apply_version_constraint(&files, &Some("foobar".to_string()));
    assert_eq!(result.len(), 0);
}

#[test]
fn test_cycle_prevention_mod_id() {
    let mut resolver = DependencyResolver::new();
    resolver
        .attempted_mod_ids
        .insert("already_done".to_string());
    assert!(resolver.attempted_mod_ids.contains("already_done"));
}

#[test]
fn test_loader_id_mapping() {
    assert_eq!(loader_id_from_name("forge"), 1);
    assert_eq!(loader_id_from_name("Forge"), 1);
    assert_eq!(loader_id_from_name("fabric"), 4);
    assert_eq!(loader_id_from_name("neoforge"), 6);
    assert_eq!(loader_id_from_name("unknown"), 0);
}

#[test]
fn test_truncate_short_string() {
    assert_eq!(truncate("hello", 10), "hello");
}

#[test]
fn test_truncate_long_string() {
    let result = truncate("hello world this is long", 5);
    assert_eq!(result, "hello...");
}

#[test]
fn test_resolution_types_clone() {
    let resolved = DependencyResolution::Resolved(ResolvedDependency {
        project_id: 123,
        file_id: 456,
        mod_id: Some("test".to_string()),
        download_url: None,
        file_name: "test.jar".to_string(),
        file_length: 100,
        minecraft_version: "1.20.1".to_string(),
        version: None,
        reason: ResolutionReason::CurseForgeRelation,
    });
    let debug = format!("{:?}", resolved);
    assert!(debug.contains("123"));
}

#[test]
fn test_empty_files_returns_incompatible() {
    let candidates: Vec<ResolutionCandidate> = vec![];
    assert!(candidates.is_empty());
}

#[test]
fn test_multiple_candidates_is_ambiguous() {
    let candidates = vec![
        ResolutionCandidate {
            project_id: 1,
            file_id: 10,
            file_name: "a.jar".to_string(),
            game_versions: vec!["1.20.1".to_string()],
        },
        ResolutionCandidate {
            project_id: 1,
            file_id: 20,
            file_name: "b.jar".to_string(),
            game_versions: vec!["1.20.1".to_string()],
        },
    ];
    assert_eq!(candidates.len(), 2);
}

#[test]
fn test_repair_record_audit() {
    let record = RepairRecord {
        round: 1,
        requesting_mod: Some("appleskin".to_string()),
        dependency_mod_id: "commonnetworking".to_string(),
        project_id: Some(999),
        file_id: Some(888),
        action: RepairAction::Resolved,
        result: RepairResult::Success("Downloaded commonnetworking-1.0.jar".to_string()),
    };
    let json = format!("{:?}", record);
    assert!(json.contains("commonnetworking"));
    assert!(json.contains("999"));
}

#[test]
fn test_curse_dependency_deserialize() {
    let json = r#"{"modId": 12345, "relationType": 3}"#;
    let value = parse_json(json).unwrap();
    let number = |key: &str| match value.get(key) {
        Some(Data::Scalar(s)) => s.parse::<u64>().unwrap(),
        other => panic!("Expected a number, got {:?}", other),
    };
    let dep = CurseDependency {
        mod_id: number("modId"),
        relation_type: number("relationType") as u8,
    };
    assert_eq!(dep.mod_id, 12345);
    assert_eq!(dep.relation_type, relation_type::REQUIRED);
}

#[test]
fn test_max_repair_rounds_constant() {
    assert_eq!(MAX_REPAIR_ROUNDS, 1);
}

#[test]
fn test_wrong_loader_returns_empty_files() {
    let resolver = DependencyResolver::new();
    let files = vec![make_file_entry(1, "fabric-only.jar", "1.20.1")];
    let result = resolver.apply_version_constraint(&files, &None);
    assert_eq!(result.len(), 1);
}

#[test]
fn test_optional_dependency_not_in_plan_missing() {
    assert!(
        true,
        "Graph filters Optional deps — verified in dependency_graph.rs"
    );
}

#[test]
fn test_a_authoritative_required_relation_success() {
    let mut map = ProjectModMapping::new();
    map.register(200, vec!["lib_b".to_string()]);
    match map.project_for_mod_id("lib_b") {
        ModIdLookup::Authoritative(id) => assert_eq!(id, 200),
        other => panic!("Expected Authoritative, got {:?}", other),
    }
}

#[test]
fn test_b_text_search_not_authoritative() {
    let map = ProjectModMapping::new();
    match map.project_for_mod_id("commonnetworking") {
        ModIdLookup::NotMapped => {}
        other => panic!("Expected NotMapped, got {:?}", other),
    }
}

#[test]
fn test_c_identity_mismatch_rejects() {
    let jar_mod_ids = vec!["other_mod".to_string()];
    let expected = "architectury";
    let has_match = jar_mod_ids.iter().any(|id| id == expected);
    assert!(!has_match, "Identity mismatch must reject");
    let metadata = JarMetadata { mod_ids: jar_mod_ids, dependencies: vec![] };
    match verify_download_identity(&metadata, expected) {
        Err(DependencyResolution::IdentityMismatch { expected_mod_id, actual_mod_ids }) => {
            assert_eq!(expected_mod_id, "architectury");
            assert_eq!(actual_mod_ids, vec!["other_mod".to_string()]);
        }
        other => panic!("Expected IdentityMismatch, got {:?}", other),
    }
}

#[test]
fn test_d_duplicate_project_mapping_ambiguous() {
    let mut map = ProjectModMapping::new();
    map.register(100, vec!["shared".to_string()]);
    map.register(200, vec!["shared".to_string()]);
    match map.project_for_mod_id("shared") {
        ModIdLookup::Ambiguous(candidates) => {
            assert_eq!(candidates.len(), 2);
        }
        other => panic!("Expected Ambiguous, got {:?}", other),
    }
}

#[test]
fn test_e_optional_relation_no_repair() {
    let dep = CurseDependency {
        mod_id: 12345,
        relation_type: relation_type::OPTIONAL,
    };
    assert_ne!(dep.relation_type, relation_type::REQUIRED);
}

#[test]
fn test_f_unverifiable_version_constraint() {
    let resolver = DependencyResolver::new();
    let files = vec![make_file_entry(1, "a.jar", "1.20.1")];
    let result = resolver.apply_version_constraint(&files, &Some(">=2.0.0".to_string()));
    assert_eq!(result.len(), 0);
    let result = resolver.apply_version_constraint(&files, &Some("1.5.0".to_string()));
    assert_eq!(result.len(), 0);
    let result = resolver.apply_version_constraint(&files, &None);
    assert_eq!(result.len(), 1);
    let result = resolver.apply_version_constraint(&files, &Some("*".to_string()));
    assert_eq!(result.len(), 1);
}

#[test]
fn test_g_empty_mod_ids_unverifiable() {
    let jar_mod_ids: Vec<String> = vec![];
    let expected = "some_mod";
    if jar_mod_ids.is_empty() {
        assert!(true, "Empty mod_ids = unverifiable");
    } else {
        panic!("Expected empty mod_ids");
    }
    let metadata = JarMetadata { mod_ids: jar_mod_ids, dependencies: vec![] };
    assert!(matches!(
        verify_download_identity(&metadata, expected),
        Err(DependencyResolution::IdentityUnverifiable)
    ));
}

#[test]
fn test_h_search_cannot_produce_resolved() {
    let map = ProjectModMapping::new();
    match map.project_for_mod_id("architectury") {
        ModIdLookup::NotMapped => {}
        other => panic!("Expected NotMapped, got {:?}", other),
    }
}

#[test]
fn unmapped_dependency_is_not_found_and_recorded() {
    let mut resolver = DependencyResolver::new();
    let missing = make_missing("architectury", Some("create"));
    match resolver.resolve(&missing) {
        ResolveStep::Done(DependencyResolution::NotFound) => {}
        other => panic!("Expected NotFound, got {:?}", other),
    }
    assert!(resolver.attempted_mod_ids.contains("architectury"));
}

#[test]
fn second_attempt_asks_nothing() {
    let mut resolver = DependencyResolver::new();
    resolver.register_project(200, vec!["lib_b".to_string()]);
    let missing = make_missing("lib_b", None);
    assert!(matches!(resolver.resolve(&missing), ResolveStep::FetchFiles(200)));
    assert!(!matches!(resolver.resolve(&missing), ResolveStep::FetchFiles(_)));
}

#[test]
fn two_projects_are_never_asked() {
    let mut resolver = DependencyResolver::new();
    resolver.register_project(100, vec!["shared".to_string()]);
    resolver.register_project(200, vec!["shared".to_string()]);
    match resolver.resolve(&make_missing("shared", None)) {
        ResolveStep::Done(DependencyResolution::Ambiguous(c)) => assert_eq!(c.len(), 2),
        other => panic!("Expected Ambiguous, got {:?}", other),
    }
}

#[test]
fn sole_file_is_picked() {
    let mut resolver = DependencyResolver::new();
    let missing = make_missing("lib_b", None);
    let files = Ok(vec![make_file_entry(7, "lib_b.jar", "1.20.1")]);
    match resolver.resolve_from_project(200, "lib_b", &missing, "1.20.1", &files) {
        DependencyResolution::Resolved(r) => {
            assert_eq!(r.project_id, 200);
            assert_eq!(r.file_id, 7);
            assert_eq!(r.file_name, "lib_b.jar");
            assert_eq!(r.file_length, 1000);
        }
        other => panic!("Expected Resolved, got {:?}", other),
    }
}

#[test]
fn several_files_are_ambiguous() {
    let mut resolver = DependencyResolver::new();
    let missing = make_missing("lib_b", None);
    let files = Ok(vec![
        make_file_entry(7, "a.jar", "1.20.1"),
        make_file_entry(8, "b.jar", "1.20.1"),
    ]);
    match resolver.resolve_from_project(200, "lib_b", &missing, "1.20.1", &files) {
        DependencyResolution::Ambiguous(c) => {
            assert_eq!(c.len(), 2);
            assert_eq!(c[0].file_id, 7);
            assert_eq!(c[1].file_name, "b.jar");
        }
        other => panic!("Expected Ambiguous, got {:?}", other),
    }
}

#[test]
fn no_file_is_incompatible() {
    let mut resolver = DependencyResolver::new();
    let missing = make_missing("lib_b", None);
    let files: Result<Vec<CurseFileEntry>, String> = Ok(vec![]);
    match resolver.resolve_from_project(200, "lib_b", &missing, "1.20.1", &files) {
        DependencyResolution::Incompatible(c) => assert!(c.is_empty()),
        other => panic!("Expected Incompatible, got {:?}", other),
    }
}

#[test]
fn an_uncheckable_constraint_is_unsupported() {
    for constraint in [">=1.2.0", "1.2.3", "foobar"] {
        let mut resolver = DependencyResolver::new();
        let mut missing = make_missing("lib_b", None);
        missing.version_requirement = Some(constraint.to_string());
        let files = Ok(vec![make_file_entry(7, "a.jar", "1.20.1")]);
        let why = format!("Version constraint '{}' cannot be verified", constraint);
        match resolver.resolve_from_project(200, "lib_b", &missing, "1.20.1", &files) {
            DependencyResolution::Unsupported(said) => assert_eq!(said, why),
            other => panic!("Expected Unsupported, got {:?}", other),
        }
        assert!(resolver.records.is_empty());
    }
}

#[test]
fn files_are_filtered_by_game_version() {
    let files = vec![
        make_file_entry(1, "old.jar", "1.19.2"),
        make_file_entry(2, "new.jar", "1.20.1"),
    ];
    let kept = fetch_compatible_files(files, "1.20.1");
    assert_eq!(kept.len(), 1);
    assert_eq!(kept[0].file_name, "new.jar");
}

#[test]
fn url_names_project_version_and_loader() {
    let url = compatible_files_url(306612, "1.20.1", "fabric");
    assert!(url.contains("306612"));
    assert!(url.contains("1.20.1"));
    assert!(url.contains("modLoaderType=4"));
}

#[test]
fn service_errors_are_shortened() {
    let long = "x".repeat(1000);
    let text = files_error("500 Internal Server Error", &long);
    assert!(text.contains("500 Internal Server Error"));
    assert!(text.len() < 1000);
}

#[test]
fn bytes_that_are_no_archive_are_refused() {
    assert!(check_jar_bytes(b"PK\x03\x04rest").is_ok());
    assert!(check_jar_bytes(b"<html>").is_err());
    assert!(check_jar_bytes(b"PK").is_err());
    assert!(check_jar_bytes(b"").is_err());
}

#[test]
fn downloaded_identity_is_accepted_when_declared() {
    let metadata = JarMetadata {
        mod_ids: vec!["flywheel".to_string(), "other".to_string()],
        dependencies: vec![],
    };
    assert!(verify_download_identity(&metadata, "flywheel").is_ok());
}

#[test]
fn download_entry_keeps_file_and_length() {
    let resolved = ResolvedDependency {
        project_id: 123,
        file_id: 456,
        mod_id: Some("test".to_string()),
        download_url: Some("https://example.com/test.jar".to_string()),
        file_name: "test.jar".to_string(),
        file_length: 100,
        minecraft_version: "1.20.1".to_string(),
        version: None,
        reason: ResolutionReason::SoleCompatibleFile,
    };
    let entry = download_entry(&resolved);
    assert_eq!(entry.id, 456);
    assert_eq!(entry.file_name, "test.jar");
    assert_eq!(entry.file_length, 100);
    assert_eq!(entry.download_url.as_deref(), Some("https://example.com/test.jar"));
}

#[test]
fn unresolved_outcomes_are_described() {
    assert!(!DependencyResolution::NotFound.describe_unresolved().is_empty());
    assert!(!DependencyResolution::Unsupported("why".to_string())
        .describe_unresolved()
        .is_empty());
}
