//! Reading boot logs, and what confirms that a mod is missing.
use std::collections::HashSet;
use std::io::Write;

use lbby_core::boot_failure_analyzer::{
    analyze_boot_failure, enumerate_unknown_required_projects, extract_version_constraint,
    is_oom_log, is_wrong_java_log, parse_boot_log_for_missing_deps, verify_attribution,
    AttributionConfidence, BootAttribution, BootAttributionSource, BootMissingDependency,
    InstalledFileRegistry, VerificationSource, MAX_BOOT_REPAIR_ROUNDS,
};
use lbby_core::dependency_graph::DependencyGraph;
use lbby_core::dependency_resolver::relation_type;
use lbby_core::dependency_resolver::{CurseDependency, ModIdLookup, ProjectModMapping};
use lbby_core::jar_metadata::{is_platform_id, DependencyKind, JarMetadata, NormalizedDependency};
use lbby_core::mod_compat::{
    CompatibilityConfidence, CompatibilitySource, ModCompatibility, ServerCompatibility,
};
use lbby_core::mod_reader::{read_all_forge_mod_ids, read_zip_text};
use lbby_core::structured::{parse_json, parse_toml, Data};

struct TestJar {
    path: String,
    bytes: Vec<u8>,
}

fn make_jar(path: &str, entries: &[(&str, &[u8])]) -> TestJar {
    let mut zip = zip::ZipWriter::new(std::io::Cursor::new(Vec::new()));
    let options = zip::write::SimpleFileOptions::default()
        .compression_method(zip::CompressionMethod::Stored);
    for (name, content) in entries {
        zip.start_file(*name, options).unwrap();
        zip.write_all(content).unwrap();
    }
    TestJar { path: path.to_string(), bytes: zip.finish().unwrap().into_inner() }
}

fn text_field(value: &Data, key: &str) -> Option<String> {
    value.get(key).and_then(|d| d.as_str()).map(|s| s.to_string())
}

fn push_dependency(out: &mut Vec<NormalizedDependency>, id: &str, required: bool, range: Option<String>) {
    if !is_platform_id(id) {
        out.push(NormalizedDependency {
            mod_id: id.to_string(),
            kind: if required { DependencyKind::Required } else { DependencyKind::Optional },
            version_requirement: range,
        });
    }
}

/// The IDs and dependencies that a JAR declares.
fn declared(jar: &TestJar) -> JarMetadata {
    let mut mod_ids = Vec::new();
    let mut dependencies = Vec::new();
    if let Some(value) = read_zip_text(&jar.bytes, "fabric.mod.json").and_then(|t| parse_json(&t)) {
        if let Some(id) = text_field(&value, "id") {
            mod_ids.push(id);
        }
        for (key, required) in [("depends", true), ("suggests", false), ("recommends", false)] {
            if let Some(Data::Table(entries)) = value.get(key) {
                for (id, range) in entries {
                    push_dependency(
                        &mut dependencies,
                        id,
                        required,
                        range.as_str().map(|s| s.to_string()),
                    );
                }
            }
        }
    }
    mod_ids.extend(read_all_forge_mod_ids(&jar.bytes));
    let toml = read_zip_text(&jar.bytes, "META-INF/mods.toml").and_then(|t| parse_toml(&t));
    if let Some(Data::Table(owners)) = toml.as_ref().and_then(|v| v.get("dependencies")) {
        for (_, list) in owners {
            if let Data::List(items) = list {
                for item in items {
                    let required = !matches!(item.get("mandatory"), Some(Data::Bool(false)));
                    if let Some(id) = text_field(item, "modId") {
                        let range = text_field(item, "versionRange");
                        push_dependency(&mut dependencies, &id, required, range);
                    }
                }
            }
        }
    }
    JarMetadata { mod_ids, dependencies }
}

/// How a JAR's own metadata classifies it.
fn classified(jar: &TestJar) -> ModCompatibility {
    let fabric = read_zip_text(&jar.bytes, "fabric.mod.json").and_then(|t| parse_json(&t));
    let environment = fabric.as_ref().and_then(|v| text_field(v, "environment"));
    let (compatibility, confidence, source) = match environment.as_deref() {
        Some("client") => (
            ServerCompatibility::ClientOnly,
            CompatibilityConfidence::Explicit,
            CompatibilitySource::FabricMetadata,
        ),
        Some("server") => (
            ServerCompatibility::ServerOk,
            CompatibilityConfidence::Explicit,
            CompatibilitySource::FabricMetadata,
        ),
        Some("*") => (
            ServerCompatibility::Both,
            CompatibilityConfidence::Explicit,
            CompatibilitySource::FabricMetadata,
        ),
        _ => (
            ServerCompatibility::Unknown,
            CompatibilityConfidence::NoEvidence,
            CompatibilitySource::NoSource,
        ),
    };
    ModCompatibility { compatibility, confidence, source, reason: String::new() }
}

fn entry(jar: &TestJar) -> (String, ModCompatibility, JarMetadata) {
    (jar.path.clone(), classified(jar), declared(jar))
}

fn forge_jar(name: &str, mod_id: &str, deps: &[(&str, bool)]) -> TestJar {
    let mut toml = format!(
        "modLoader=\"javafml\"\nloaderVersion=\"[47,)\"\n\n[[mods]]\nmodId=\"{}\"\n",
        mod_id
    );
    for (dep_id, required) in deps {
        toml.push_str(&format!(
            "\n[[dependencies.{}]]\nmodId=\"{}\"\nmandatory={}\nversionRange=\"[1,)\"\n",
            mod_id, dep_id, required
        ));
    }
    make_jar(name, &[("META-INF/mods.toml", toml.as_bytes())])
}

fn fabric_jar(name: &str, env: Option<&str>, mod_id: &str) -> TestJar {
    let json = format!(
        "{{\"schemaVersion\":1,\"id\":\"{}\",\"environment\":\"{}\"}}",
        mod_id,
        env.unwrap_or("*")
    );
    make_jar(name, &[("fabric.mod.json", json.as_bytes())])
}

#[test]
fn test_forge_requires_quoted() {
    let log = "[12:34:56] [main/ERROR]: Mod 'create' requires mod 'flywheel' (>= 0.6.0)";
    let parsed = parse_boot_log_for_missing_deps(log).unwrap();
    assert_eq!(parsed.requesting_mod_id.as_deref(), Some("create"));
    assert_eq!(parsed.missing_mod_id, "flywheel");
    assert_eq!(parsed.version_requirement.as_deref(), Some("0.6.0"));
    assert_eq!(parsed.source, BootAttributionSource::ForgeLoader);
}

#[test]
fn test_forge_requires_unquoted() {
    let log = "Mod architectury requires mod fabric-api";
    let parsed = parse_boot_log_for_missing_deps(log).unwrap();
    assert_eq!(parsed.requesting_mod_id.as_deref(), Some("architectury"));
    assert_eq!(parsed.missing_mod_id, "fabric-api");
}

#[test]
fn test_forge_missing_mandatory() {
    let log = "[12:34:56] [main/ERROR]: Missing mandatory dependency 'flywheel'";
    let parsed = parse_boot_log_for_missing_deps(log).unwrap();
    assert_eq!(parsed.requesting_mod_id, None);
    assert_eq!(parsed.missing_mod_id, "flywheel");
}

#[test]
fn test_forge_requires_version() {
    let log = "[12:34:56] [main/ERROR]: requires flywheel version 0.6.0 or above";
    let parsed = parse_boot_log_for_missing_deps(log).unwrap();
    assert_eq!(parsed.missing_mod_id, "flywheel");
    assert_eq!(parsed.version_requirement.as_deref(), Some("0.6.0"));
}

#[test]
fn test_fabric_requires_quoted() {
    let log = "ModResolutionException: Mod 'X' requires mod 'Y' (>= 1.0.0)";
    let parsed = parse_boot_log_for_missing_deps(log).unwrap();
    assert_eq!(parsed.source, BootAttributionSource::FabricLoader);
    assert_eq!(parsed.missing_mod_id, "Y");
}

#[test]
fn quilt_lines_are_quilts() {
    let log = "[Quilt] ModResolutionException: Mod 'a' requires mod 'b'";
    match analyze_boot_failure(log, &DependencyGraph::build(&[])) {
        BootAttribution::MissingDependency(m) => {
            assert_eq!(m.requesting_mod_id.as_deref(), Some("a"));
            assert_eq!(m.missing_mod_id, "b");
            assert_eq!(m.version_requirement, None);
            assert_eq!(m.source, BootAttributionSource::QuiltLoader);
            assert_eq!(m.confidence, AttributionConfidence::High);
        }
        other => panic!("Expected MissingDependency, got {:?}", other),
    }
}

#[test]
fn test_no_pattern_found() {
    let log = "[12:34:56] [main/INFO]: Server started successfully";
    assert!(parse_boot_log_for_missing_deps(log).is_none());
}

#[test]
fn test_oom_detection() {
    let log = "java.lang.OutOfMemoryError: Java heap space";
    assert!(is_oom_log(log));
    assert!(!is_wrong_java_log(log));
}

#[test]
fn test_wrong_java_detection() {
    let log = "java.lang.UnsupportedClassVersionError: mod/X has been compiled by a more recent version of the Java Runtime";
    assert!(is_wrong_java_log(log));
    assert!(!is_oom_log(log));
}

#[test]
fn test_version_constraint_extraction() {
    assert_eq!(
        extract_version_constraint("(>= 1.0.0)"),
        Some("1.0.0".to_string())
    );
    assert_eq!(
        extract_version_constraint("(1.0.0)"),
        Some("1.0.0".to_string())
    );
    assert_eq!(extract_version_constraint("()"), None);
    assert_eq!(extract_version_constraint("no parens"), None);
}

#[test]
fn test_oom_attribution() {
    let graph = DependencyGraph::build(&[]);
    let attr = analyze_boot_failure("java.lang.OutOfMemoryError", &graph);
    assert!(matches!(attr, BootAttribution::OutOfMemory));
}

#[test]
fn test_wrong_java_attribution() {
    let graph = DependencyGraph::build(&[]);
    let attr = analyze_boot_failure("UnsupportedClassVersionError", &graph);
    assert!(matches!(attr, BootAttribution::WrongJavaVersion));
}

#[test]
fn test_unknown_attribution() {
    let graph = DependencyGraph::build(&[]);
    let attr = analyze_boot_failure("Some random error", &graph);
    assert!(matches!(attr, BootAttribution::Unknown));
}

#[test]
fn test_loop_prevention() {
    let mut attempted = HashSet::new();
    attempted.insert("flywheel".to_string());
    assert!(attempted.contains("flywheel"));
    assert!(!attempted.contains("create"));
}

#[test]
fn test_confidence_ordering() {
    assert!(AttributionConfidence::High > AttributionConfidence::Medium);
    assert!(AttributionConfidence::Medium > AttributionConfidence::Low);
}

#[test]
fn test_generic_process_exited_not_attributed() {
    let log = "Process exited with code 1";
    assert!(parse_boot_log_for_missing_deps(log).is_none());
}

#[test]
fn test_wrong_java_not_repaired() {
    let graph = DependencyGraph::build(&[]);
    let attr = analyze_boot_failure("UnsupportedClassVersionError: SomeMod", &graph);
    assert!(matches!(attr, BootAttribution::WrongJavaVersion));
}

#[test]
fn test_oom_not_repaired() {
    let graph = DependencyGraph::build(&[]);
    let attr = analyze_boot_failure(
        "java.lang.OutOfMemoryError: GC overhead limit exceeded",
        &graph,
    );
    assert!(matches!(attr, BootAttribution::OutOfMemory));
}

#[test]
fn test_forge_neoforge_style() {
    let log =
        "[12:34:56] [main/ERROR]: Mod 'neoforge_core' requires mod 'neoforge_api' (>= 21.0.0)";
    let parsed = parse_boot_log_for_missing_deps(log).unwrap();
    assert_eq!(parsed.requesting_mod_id.as_deref(), Some("neoforge_core"));
    assert_eq!(parsed.missing_mod_id, "neoforge_api");
    assert_eq!(parsed.version_requirement.as_deref(), Some("21.0.0"));
}

#[test]
fn test_forge_missing_mandatory_double_quotes() {
    let log = "[12:34:56] [main/ERROR]: Missing mandatory dependency \"flywheel\"";
    let parsed = parse_boot_log_for_missing_deps(log).unwrap();
    assert_eq!(parsed.missing_mod_id, "flywheel");
}

#[test]
fn test_multiline_log_first_pattern_wins() {
    let log = "[12:34:56] [main/INFO]: Loading mods...\n\
               [12:34:57] [main/ERROR]: Mod 'A' requires mod 'B'\n\
               [12:34:58] [main/ERROR]: Mod 'C' requires mod 'D'";
    let parsed = parse_boot_log_for_missing_deps(log).unwrap();
    assert_eq!(parsed.missing_mod_id, "B");
}

#[test]
fn test_oom_in_multiline_log() {
    let log = "[12:34:56] [main/INFO]: Loading...\n\
               java.lang.OutOfMemoryError: Java heap space";
    assert!(is_oom_log(log));
}

#[test]
fn test_graph_disagrees_but_confidence_stays_high() {
    let log = "Mod 'create' requires mod 'flywheel' (>= 0.6.0)";
    let graph = DependencyGraph::build(&[]);
    let attr = analyze_boot_failure(log, &graph);
    let map = ProjectModMapping::new();
    let reg = InstalledFileRegistry::new();
    match &attr {
        BootAttribution::MissingDependency(dep) => {
            assert_eq!(dep.confidence, AttributionConfidence::High);
            assert_eq!(dep.missing_mod_id, "flywheel");
            let sources = verify_attribution(dep, &graph, &map, &reg);
            assert!(
                sources.is_empty(),
                "Empty graph + empty registry → no verification"
            );
        }
        _ => panic!("Expected MissingDependency"),
    }
}

#[test]
fn test_verify_attribution_empty_graph_returns_empty() {
    let attr = BootMissingDependency {
        requesting_mod_id: Some("create".to_string()),
        missing_mod_id: "flywheel".to_string(),
        version_requirement: None,
        source: BootAttributionSource::ForgeLoader,
        confidence: AttributionConfidence::High,
    };
    let graph = DependencyGraph::build(&[]);
    let map = ProjectModMapping::new();
    let sources = verify_attribution(&attr, &graph, &map, &InstalledFileRegistry::new());
    assert!(
        sources.is_empty(),
        "Expected no verification sources for empty graph"
    );
}

#[test]
fn test_verify_attribution_graph_confirms() {
    let jar =
        forge_jar("create.jar", "create", &[("flywheel", true)]);
    let analysis = vec![entry(&jar)];
    let graph = DependencyGraph::build(&analysis);
    let attr = BootMissingDependency {
        requesting_mod_id: Some("create".to_string()),
        missing_mod_id: "flywheel".to_string(),
        version_requirement: None,
        source: BootAttributionSource::ForgeLoader,
        confidence: AttributionConfidence::High,
    };
    let map = ProjectModMapping::new();
    let sources = verify_attribution(&attr, &graph, &map, &InstalledFileRegistry::new());
    assert!(
        sources.contains(&VerificationSource::JarMetadataGraph),
        "Expected JarMetadataGraph verification, got {:?}",
        sources
    );
}

#[test]
fn test_oom_attribution_not_repairable() {
    let graph = DependencyGraph::build(&[]);
    let attr = analyze_boot_failure("OutOfMemoryError: Java heap space", &graph);
    assert!(matches!(attr, BootAttribution::OutOfMemory));
    assert!(!matches!(attr, BootAttribution::MissingDependency(_)));
}

#[test]
fn test_wrong_java_not_repairable() {
    let graph = DependencyGraph::build(&[]);
    let attr = analyze_boot_failure("UnsupportedClassVersionError", &graph);
    assert!(matches!(attr, BootAttribution::WrongJavaVersion));
    assert!(!matches!(attr, BootAttribution::MissingDependency(_)));
}

#[test]
fn test_generic_process_exited_is_unknown() {
    let graph = DependencyGraph::build(&[]);
    let attr = analyze_boot_failure("Process exited with code 1", &graph);
    assert!(matches!(attr, BootAttribution::Unknown));
}

#[test]
fn test_clientonly_existing_dep_not_repaired() {
    let jar = fabric_jar("iris.jar", Some("client"), "iris");
    let analysis = vec![entry(&jar)];
    let graph = DependencyGraph::build(&analysis);
    let node = graph.find_by_mod_id("iris");
    assert!(node.is_some(), "iris should be in graph");
    let log = "Mod 'sodium' requires mod 'iris'";
    let attr = analyze_boot_failure(log, &graph);
    match attr {
        BootAttribution::MissingDependency(dep) => {
            assert_eq!(dep.confidence, AttributionConfidence::High);
        }
        _ => panic!("Expected MissingDependency"),
    }
}

#[test]
fn test_ambiguous_existing_provider_no_repair() {
    let jar_a = fabric_jar("lib-a.jar", None, "shared_lib");
    let jar_b = fabric_jar("lib-b.jar", None, "shared_lib");
    let analysis = vec![
        entry(&jar_a),
        entry(&jar_b),
    ];
    let graph = DependencyGraph::build(&analysis);
    assert!(graph.nodes.len() == 2);
    let log = "Mod 'create' requires mod 'shared_lib'";
    let attr = analyze_boot_failure(log, &graph);
    match attr {
        BootAttribution::MissingDependency(dep) => {
            assert_eq!(dep.confidence, AttributionConfidence::High);
        }
        _ => panic!("Expected MissingDependency"),
    }
}

#[test]
fn test_version_constraint_propagated_to_attribution() {
    let log = "Mod 'create' requires mod 'flywheel' (>= 2.0.0)";
    let graph = DependencyGraph::build(&[]);
    let attr = analyze_boot_failure(log, &graph);
    match attr {
        BootAttribution::MissingDependency(dep) => {
            assert_eq!(dep.version_requirement.as_deref(), Some("2.0.0"));
            assert_eq!(dep.missing_mod_id, "flywheel");
        }
        _ => panic!("Expected MissingDependency"),
    }
}

#[test]
fn test_max_boot_repair_rounds_constant() {
    assert_eq!(MAX_BOOT_REPAIR_ROUNDS, 2);
}

#[test]
fn test_graph_confirmed_required_dep_high_confidence() {
    let jar =
        forge_jar("create.jar", "create", &[("flywheel", true)]);
    let analysis = vec![entry(&jar)];
    let graph = DependencyGraph::build(&analysis);
    let log = "Mod 'create' requires mod 'flywheel' (>= 0.6.0)";
    let attr = analyze_boot_failure(log, &graph);
    match &attr {
        BootAttribution::MissingDependency(dep) => {
            assert_eq!(dep.confidence, AttributionConfidence::High);
            assert_eq!(dep.missing_mod_id, "flywheel");
            let map = ProjectModMapping::new();
            let reg = InstalledFileRegistry::new();
            let sources = verify_attribution(dep, &graph, &map, &reg);
            assert!(
                sources.contains(&VerificationSource::JarMetadataGraph),
                "Graph Required dep should verify, got {:?}",
                sources
            );
        }
        _ => panic!("Expected MissingDependency"),
    }
}

#[test]
fn test_graph_optional_dep_no_verification() {
    let jar = forge_jar("create.jar", "create", &[("jei", false)]);
    let analysis = vec![entry(&jar)];
    let graph = DependencyGraph::build(&analysis);
    let log = "Mod 'create' requires mod 'jei'";
    let attr = analyze_boot_failure(log, &graph);
    match &attr {
        BootAttribution::MissingDependency(dep) => {
            let map = ProjectModMapping::new();
            let reg = InstalledFileRegistry::new();
            let sources = verify_attribution(dep, &graph, &map, &reg);
            assert!(
                !sources.contains(&VerificationSource::JarMetadataGraph),
                "Optional dep should NOT verify via graph, got {:?}",
                sources
            );
        }
        _ => panic!("Expected MissingDependency"),
    }
}

#[test]
fn test_runtime_only_cf_required_relation_allows_repair() {
    let graph = DependencyGraph::build(&[]);
    let mut reg = InstalledFileRegistry::new();
    reg.register(
        5000,
        10001,
        vec!["create".to_string()],
        vec![CurseDependency {
            mod_id: 6000,
            relation_type: relation_type::REQUIRED,
        }],
    );
    let map = ProjectModMapping::new();
    let attr = BootMissingDependency {
        requesting_mod_id: Some("create".to_string()),
        missing_mod_id: "flywheel".to_string(),
        version_requirement: None,
        source: BootAttributionSource::ForgeLoader,
        confidence: AttributionConfidence::High,
    };
    let sources = verify_attribution(&attr, &graph, &map, &reg);
    assert!(
        sources.contains(&VerificationSource::RuntimeRelationCandidatesExist),
        "CF runtime relation candidates should exist, got {:?}",
        sources
    );
}

#[test]
fn test_runtime_only_cf_optional_relation_no_repair() {
    let graph = DependencyGraph::build(&[]);
    let mut reg = InstalledFileRegistry::new();
    reg.register(
        5000,
        10001,
        vec!["create".to_string()],
        vec![CurseDependency {
            mod_id: 6000,
            relation_type: relation_type::OPTIONAL,
        }],
    );
    let map = ProjectModMapping::new();
    let attr = BootMissingDependency {
        requesting_mod_id: Some("create".to_string()),
        missing_mod_id: "flywheel".to_string(),
        version_requirement: None,
        source: BootAttributionSource::ForgeLoader,
        confidence: AttributionConfidence::High,
    };
    let sources = verify_attribution(&attr, &graph, &map, &reg);
    assert!(
        !sources.contains(&VerificationSource::RuntimeRelationCandidatesExist),
        "CF OPTIONAL should NOT verify, got {:?}",
        sources
    );
    assert!(
        sources.is_empty(),
        "No source should verify for OPTIONAL relation"
    );
}

#[test]
fn test_both_mapped_but_no_relation_no_cf_verification() {
    let graph = DependencyGraph::build(&[]);
    let mut reg = InstalledFileRegistry::new();
    reg.register(
        5000,
        10001,
        vec!["create".to_string()],
        vec![],
    );
    reg.register(6000, 10002, vec!["flywheel".to_string()], vec![]);
    let mut map = ProjectModMapping::new();
    map.register(5000, vec!["create".to_string()]);
    map.register(6000, vec!["flywheel".to_string()]);
    let attr = BootMissingDependency {
        requesting_mod_id: Some("create".to_string()),
        missing_mod_id: "flywheel".to_string(),
        version_requirement: None,
        source: BootAttributionSource::ForgeLoader,
        confidence: AttributionConfidence::High,
    };
    let sources = verify_attribution(&attr, &graph, &map, &reg);
    assert!(
        !sources.contains(&VerificationSource::RuntimeRelationCandidatesExist),
        "Two project mappings with NO relation must NOT verify via CF, got {:?}",
        sources
    );
}

#[test]
fn test_unknown_required_project_confirms_cf_verification() {
    let graph = DependencyGraph::build(&[]);
    let mut reg = InstalledFileRegistry::new();
    reg.register(
        5000,
        10001,
        vec!["create".to_string()],
        vec![CurseDependency {
            mod_id: 6000,
            relation_type: relation_type::REQUIRED,
        }],
    );
    let map = ProjectModMapping::new();
    let attr = BootMissingDependency {
        requesting_mod_id: Some("create".to_string()),
        missing_mod_id: "flywheel".to_string(),
        version_requirement: None,
        source: BootAttributionSource::ForgeLoader,
        confidence: AttributionConfidence::High,
    };
    let sources = verify_attribution(&attr, &graph, &map, &reg);
    assert!(
        sources.contains(&VerificationSource::RuntimeRelationCandidatesExist),
        "Unknown REQUIRED project should have runtime candidates, got {:?}",
        sources
    );
}

#[test]
fn test_installed_file_registry_preserves_identity() {
    let mut reg = InstalledFileRegistry::new();
    reg.register(
        5000,
        10001,
        vec!["create".to_string()],
        vec![
            CurseDependency {
                mod_id: 6000,
                relation_type: relation_type::REQUIRED,
            },
            CurseDependency {
                mod_id: 7000,
                relation_type: relation_type::OPTIONAL,
            },
        ],
    );
    let info = reg
        .get_by_mod_id("create")
        .expect("create should be registered");
    assert_eq!(info.project_id, 5000);
    assert_eq!(info.file_id, 10001);
    assert_eq!(info.dependencies.len(), 2);
    assert_eq!(info.dependencies[0].mod_id, 6000);
    assert_eq!(info.dependencies[0].relation_type, relation_type::REQUIRED);
    let info2 = reg
        .get_by_project_id(5000)
        .expect("project 5000 should be registered");
    assert_eq!(info2.mod_ids, vec!["create".to_string()]);
}

#[test]
fn test_duplicate_mod_id_ambiguity_no_verification() {
    let graph = DependencyGraph::build(&[]);
    let mut reg = InstalledFileRegistry::new();
    reg.register(
        5000,
        10001,
        vec!["create".to_string()],
        vec![CurseDependency {
            mod_id: 6000,
            relation_type: relation_type::REQUIRED,
        }],
    );
    let mut map = ProjectModMapping::new();
    map.register(5000, vec!["shared_lib".to_string()]);
    map.register(6000, vec!["shared_lib".to_string()]);
    let attr = BootMissingDependency {
        requesting_mod_id: Some("create".to_string()),
        missing_mod_id: "shared_lib".to_string(),
        version_requirement: None,
        source: BootAttributionSource::ForgeLoader,
        confidence: AttributionConfidence::High,
    };
    let sources = verify_attribution(&attr, &graph, &map, &reg);
    assert!(
        sources.contains(&VerificationSource::RuntimeRelationCandidatesExist),
        "Unknown REQUIRED project has runtime candidates even with ambiguous map, got {:?}",
        sources
    );
}

#[test]
fn test_runtime_only_missing_dep_without_existing_mapping() {
    let graph = DependencyGraph::build(&[]);
    let mut reg = InstalledFileRegistry::new();
    reg.register(
        5000,
        10001,
        vec!["create".to_string()],
        vec![CurseDependency {
            mod_id: 12345,
            relation_type: relation_type::REQUIRED,
        }],
    );
    let map = ProjectModMapping::new();
    assert!(
        reg.get_by_mod_id("flywheel").is_none(),
        "flywheel must NOT be in InstalledFileRegistry"
    );
    assert!(
        matches!(
            map.project_for_mod_id("flywheel"),
            ModIdLookup::NotMapped
        ),
        "flywheel must NOT be in ProjectModMapping"
    );
    let attr = BootMissingDependency {
        requesting_mod_id: Some("create".to_string()),
        missing_mod_id: "flywheel".to_string(),
        version_requirement: None,
        source: BootAttributionSource::ForgeLoader,
        confidence: AttributionConfidence::High,
    };
    let unknown = enumerate_unknown_required_projects(&attr, &reg);
    assert_eq!(
        unknown,
        vec![12345],
        "Should enumerate project 12345 as unknown REQUIRED candidate"
    );
    let sources = verify_attribution(&attr, &graph, &map, &reg);
    assert!(
        sources.contains(&VerificationSource::RuntimeRelationCandidatesExist),
        "Runtime-only with unknown REQUIRED project should have candidates, got {:?}",
        sources
    );
}

#[test]
fn test_runtime_only_wrong_jar_identity_enumerates_candidates() {
    let graph = DependencyGraph::build(&[]);
    let mut reg = InstalledFileRegistry::new();
    reg.register(
        5000,
        10001,
        vec!["create".to_string()],
        vec![CurseDependency {
            mod_id: 12345,
            relation_type: relation_type::REQUIRED,
        }],
    );
    let map = ProjectModMapping::new();
    let attr = BootMissingDependency {
        requesting_mod_id: Some("create".to_string()),
        missing_mod_id: "flywheel".to_string(),
        version_requirement: None,
        source: BootAttributionSource::ForgeLoader,
        confidence: AttributionConfidence::High,
    };
    let sources = verify_attribution(&attr, &graph, &map, &reg);
    assert!(sources.contains(&VerificationSource::RuntimeRelationCandidatesExist));
}

#[test]
fn test_runtime_only_two_required_projects_enumerate_both() {
    let graph = DependencyGraph::build(&[]);
    let mut reg = InstalledFileRegistry::new();
    reg.register(
        5000,
        10001,
        vec!["create".to_string()],
        vec![
            CurseDependency {
                mod_id: 12345,
                relation_type: relation_type::REQUIRED,
            },
            CurseDependency {
                mod_id: 67890,
                relation_type: relation_type::REQUIRED,
            },
        ],
    );
    let map = ProjectModMapping::new();
    let attr = BootMissingDependency {
        requesting_mod_id: Some("create".to_string()),
        missing_mod_id: "flywheel".to_string(),
        version_requirement: None,
        source: BootAttributionSource::ForgeLoader,
        confidence: AttributionConfidence::High,
    };
    let unknown = enumerate_unknown_required_projects(&attr, &reg);
    assert_eq!(
        unknown.len(),
        2,
        "Should enumerate both unknown REQUIRED projects"
    );
    assert!(unknown.contains(&12345));
    assert!(unknown.contains(&67890));
}

#[test]
fn test_runtime_only_optional_not_enumerated() {
    let graph = DependencyGraph::build(&[]);
    let mut reg = InstalledFileRegistry::new();
    reg.register(
        5000,
        10001,
        vec!["create".to_string()],
        vec![CurseDependency {
            mod_id: 12345,
            relation_type: relation_type::OPTIONAL,
        }],
    );
    let map = ProjectModMapping::new();
    let attr = BootMissingDependency {
        requesting_mod_id: Some("create".to_string()),
        missing_mod_id: "flywheel".to_string(),
        version_requirement: None,
        source: BootAttributionSource::ForgeLoader,
        confidence: AttributionConfidence::High,
    };
    let unknown = enumerate_unknown_required_projects(&attr, &reg);
    assert!(
        unknown.is_empty(),
        "OPTIONAL relations should NOT be enumerated"
    );
    let sources = verify_attribution(&attr, &graph, &map, &reg);
    assert!(
        !sources.contains(&VerificationSource::RuntimeRelationCandidatesExist),
        "OPTIONAL should NOT have runtime candidates, got {:?}",
        sources
    );
}

#[test]
fn test_runtime_only_all_required_already_installed() {
    let graph = DependencyGraph::build(&[]);
    let mut reg = InstalledFileRegistry::new();
    reg.register(
        5000,
        10001,
        vec!["create".to_string()],
        vec![CurseDependency {
            mod_id: 12345,
            relation_type: relation_type::REQUIRED,
        }],
    );
    reg.register(12345, 20001, vec!["flywheel".to_string()], vec![]);
    let map = ProjectModMapping::new();
    let attr = BootMissingDependency {
        requesting_mod_id: Some("create".to_string()),
        missing_mod_id: "flywheel".to_string(),
        version_requirement: None,
        source: BootAttributionSource::ForgeLoader,
        confidence: AttributionConfidence::High,
    };
    let unknown = enumerate_unknown_required_projects(&attr, &reg);
    assert!(
        unknown.is_empty(),
        "All REQUIRED projects already installed → no unknown candidates"
    );
}
