//! Which mod a crash is attributed to.
use std::io::Write;

use lbby_core::crash_attribution::{
    analyze_crash, CrashAttributionConfidence, CrashAttributionContext, CrashAttributionStatus,
    CrashRecommendation, LoaderFamily, MAX_CRASH_CANDIDATES, MAX_EVIDENCE_PER_CANDIDATE,
};
use lbby_core::jar_index::ScannedJar;
use lbby_core::jar_metadata::{is_platform_id, DependencyKind, JarMetadata, NormalizedDependency};
use lbby_core::mod_compat::{
    CompatibilityConfidence, CompatibilitySource, ModCompatibility, ServerCompatibility,
};
use lbby_core::mod_reader::{read_all_forge_mod_ids, read_zip_text};
use lbby_core::structured::{parse_json, parse_toml, Data};

struct TestJar {
    path: String,
    bytes: Vec<u8>,
}

fn make_jar(path: &str, entries: &[(&str, &[u8])]) -> TestJar {
    let mut zip = zip::ZipWriter::new(std::io::Cursor::new(Vec::new()));
    let options = zip::write::SimpleFileOptions::default()
        .compression_method(zip::CompressionMethod::Stored);
    for (name, content) in entries {
        zip.start_file(*name, options).unwrap();
        zip.write_all(content).unwrap();
    }
    TestJar { path: path.to_string(), bytes: zip.finish().unwrap().into_inner() }
}

fn text_field(value: &Data, key: &str) -> Option<String> {
    value.get(key).and_then(|d| d.as_str()).map(|s| s.to_string())
}

fn push_dependency(out: &mut Vec<NormalizedDependency>, id: &str, required: bool, range: Option<String>) {
    if !is_platform_id(id) {
        out.push(NormalizedDependency {
            mod_id: id.to_string(),
            kind: if required { DependencyKind::Required } else { DependencyKind::Optional },
            version_requirement: range,
        });
    }
}

/// The IDs and dependencies that a JAR declares.
fn declared(jar: &TestJar) -> JarMetadata {
    let mut mod_ids = Vec::new();
    let mut dependencies = Vec::new();
    if let Some(value) = read_zip_text(&jar.bytes, "fabric.mod.json").and_then(|t| parse_json(&t)) {
        if let Some(id) = text_field(&value, "id") {
            mod_ids.push(id);
        }
        for (key, required) in [("depends", true), ("suggests", false), ("recommends", false)] {
            if let Some(Data::Table(entries)) = value.get(key) {
                for (id, range) in entries {
                    push_dependency(
                        &mut dependencies,
                        id,
                        required,
                        range.as_str().map(|s| s.to_string()),
                    );
                }
            }
        }
    }
    mod_ids.extend(read_all_forge_mod_ids(&jar.bytes));
    let toml = read_zip_text(&jar.bytes, "META-INF/mods.toml").and_then(|t| parse_toml(&t));
    if let Some(Data::Table(owners)) = toml.as_ref().and_then(|v| v.get("dependencies")) {
        for (_, list) in owners {
            if let Data::List(items) = list {
                for item in items {
                    let required = !matches!(item.get("mandatory"), Some(Data::Bool(false)));
                    if let Some(id) = text_field(item, "modId") {
                        let range = text_field(item, "versionRange");
                        push_dependency(&mut dependencies, &id, required, range);
                    }
                }
            }
        }
    }
    JarMetadata { mod_ids, dependencies }
}

/// How a JAR's own metadata classifies it.
fn classified(jar: &TestJar) -> ModCompatibility {
    let fabric = read_zip_text(&jar.bytes, "fabric.mod.json").and_then(|t| parse_json(&t));
    let environment = fabric.as_ref().and_then(|v| text_field(v, "environment"));
    let (compatibility, confidence, source) = match environment.as_deref() {
        Some("client") => (
            ServerCompatibility::ClientOnly,
            CompatibilityConfidence::Explicit,
            CompatibilitySource::FabricMetadata,
        ),
        Some("server") => (
            ServerCompatibility::ServerOk,
            CompatibilityConfidence::Explicit,
            CompatibilitySource::FabricMetadata,
        ),
        Some("*") => (
            ServerCompatibility::Both,
            CompatibilityConfidence::Explicit,
            CompatibilitySource::FabricMetadata,
        ),
        _ => (
            ServerCompatibility::Unknown,
            CompatibilityConfidence::NoEvidence,
            CompatibilitySource::NoSource,
        ),
    };
    ModCompatibility { compatibility, confidence, source, reason: String::new() }
}

fn add_bytes(mods: &mut Vec<ScannedJar>, name: &str, bytes: Vec<u8>) -> String {
    let path = format!("/srv/mods/{}", name);
    let jar = TestJar { path: path.clone(), bytes };
    let metadata = declared(&jar);
    let compatibility = classified(&jar);
    mods.push(ScannedJar::scan(
        path.clone(),
        Some(&jar.bytes),
        metadata.mod_ids,
        compatibility,
    ));
    path
}

fn add_jar(mods: &mut Vec<ScannedJar>, name: &str, entries: &[(&str, &[u8])]) -> String {
    let jar = make_jar(name, entries);
    add_bytes(mods, name, jar.bytes)
}

fn create_test_jar(mods: &mut Vec<ScannedJar>, name: &str, mod_ids: &[&str]) -> String {
    if mod_ids.is_empty() {
        return add_jar(mods, name, &[]);
    }
    let json = format!(
        "{{\"id\":\"{}\",\"version\":\"1.0.0\",\"name\":\"{}\"}}",
        mod_ids[0], mod_ids[0]
    );
    add_jar(mods, name, &[("fabric.mod.json", json.as_bytes())])
}

fn test_context(mods: &[ScannedJar]) -> CrashAttributionContext<'_> {
    CrashAttributionContext {
        staging_mods: mods,
        loader_family: LoaderFamily::Forge,
        recently_repaired: &[],
        installed_registry: None,
    }
}

#[test]
fn test_explicit_forge_mod_id() {
    let mut mods: Vec<ScannedJar> = Vec::new();
    create_test_jar(&mut mods, "create-0.5.1.jar", &["create"]);
    let log = "Mod ID: create\nFailure message: Mod create has failed to load correctly\njava.lang.RuntimeException: ...";
    let ctx = test_context(&mods);
    let report = analyze_crash(log, &ctx);
    assert_eq!(report.status, CrashAttributionStatus::Attributed);
    assert_eq!(report.confidence, CrashAttributionConfidence::High);
    assert!(report.primary_candidate.is_some());
    let primary = report.primary_candidate.as_ref().unwrap();
    assert_eq!(primary.mod_id.as_deref(), Some("create"));
}

#[test]
fn test_explicit_jar_path_resolves_to_mod_id() {
    let mut mods: Vec<ScannedJar> = Vec::new();
    let jar = create_test_jar(&mut mods, "example.jar", &["examplemod"]);
    let log = format!(
        "File: {}\njava.lang.NoClassDefFoundError: com/example/Main",
        jar
    );
    let ctx = test_context(&mods);
    let report = analyze_crash(&log, &ctx);
    assert_eq!(report.status, CrashAttributionStatus::Attributed);
    assert_eq!(report.confidence, CrashAttributionConfidence::High);
    let primary = report.primary_candidate.as_ref().unwrap();
    assert_eq!(primary.mod_id.as_deref(), Some("examplemod"));
}

#[test]
fn test_conflicting_explicit_evidence() {
    let mut mods: Vec<ScannedJar> = Vec::new();
    create_test_jar(&mut mods, "b.jar", &["B"]);
    let log = "Mod ID: A\nMod File: b.jar\nModLoadingException: ...";
    let ctx = test_context(&mods);
    let report = analyze_crash(log, &ctx);
    assert_eq!(report.status, CrashAttributionStatus::Ambiguous);
    assert!(report.primary_candidate.is_none());
}

#[test]
fn test_fabric_entrypoint_attribution() {
    let mut mods: Vec<ScannedJar> = Vec::new();
    create_test_jar(&mut mods, "foo.jar", &["foo"]);
    let log = "Could not execute entrypoint stage 'main' due to errors, provided by 'foo'\njava.lang.RuntimeException: ...";
    let ctx = test_context(&mods);
    let report = analyze_crash(log, &ctx);
    assert_eq!(report.status, CrashAttributionStatus::Attributed);
    assert_eq!(report.confidence, CrashAttributionConfidence::High);
    assert_eq!(
        report.primary_candidate.as_ref().unwrap().mod_id.as_deref(),
        Some("foo")
    );
}

#[test]
fn test_mixin_unique_owner() {
    let mut mods: Vec<ScannedJar> = Vec::new();
    add_jar(
        &mut mods,
        "mymod.jar",
        &[
            ("fabric.mod.json", b"{\"id\":\"mymod\",\"version\":\"1.0.0\"}"),
            ("mymod.mixins.json", b"{}"),
        ],
    );
    let log = "MixinApplyError: Failed to apply mixin config mymod.mixins.json\njava.lang.RuntimeException: ...";
    let ctx = test_context(&mods);
    let report = analyze_crash(log, &ctx);
    assert!(
        report.confidence == CrashAttributionConfidence::Medium
            || report.confidence == CrashAttributionConfidence::High,
        "Expected Medium or High, got {:?}",
        report.confidence
    );
    assert!(report.primary_candidate.is_some());
}

#[test]
fn test_mixin_ambiguous_owner() {
    let mut mods: Vec<ScannedJar> = Vec::new();
    for name in &["mod_a.jar", "mod_b.jar"] {
        let mod_id = if name.contains("a") { "moda" } else { "modb" };
        let json = format!("{{\"id\":\"{}\",\"version\":\"1.0.0\"}}", mod_id);
        add_jar(
            &mut mods,
            name,
            &[("fabric.mod.json", json.as_bytes()), ("shared.mixins.json", b"{}")],
        );
    }
    let log = "MixinApplyError: Failed to apply mixin config shared.mixins.json\njava.lang.RuntimeException: ...";
    let ctx = test_context(&mods);
    let report = analyze_crash(log, &ctx);
    assert_eq!(report.status, CrashAttributionStatus::Ambiguous);
    assert!(report.primary_candidate.is_none());
}

#[test]
fn test_generic_no_class_def_found() {
    let mods: Vec<ScannedJar> = Vec::new();
    let log = "java.lang.NoClassDefFoundError: com/foo/bar/Baz\n\tat com.unknown.SomeClass.main(SomeClass.java:10)";
    let ctx = test_context(&mods);
    let report = analyze_crash(log, &ctx);
    assert_eq!(report.status, CrashAttributionStatus::Unknown);
    assert_eq!(report.confidence, CrashAttributionConfidence::Low);
    assert!(report.primary_candidate.is_none());
}

#[test]
fn test_missing_dependency_not_stolen() {
    let mods: Vec<ScannedJar> = Vec::new();
    let log = "Mod B requires mod C\njava.lang.NoClassDefFoundError: net/example/C";
    let ctx = test_context(&mods);
    let report = analyze_crash(log, &ctx);
    assert_ne!(
        report.status,
        CrashAttributionStatus::Attributed,
        "Should not confidently attribute a missing-dependency scenario"
    );
}

#[test]
fn test_loader_mismatch_not_overridden() {
    let mods: Vec<ScannedJar> = Vec::new();
    let log = "Unsupported mod loader: fabric\nMod 'foo' requires fabric loader 0.15+\njava.lang.RuntimeException at com.example.Mod.init";
    let ctx = test_context(&mods);
    let report = analyze_crash(log, &ctx);
    assert!(report.summary.len() > 0);
}

#[test]
fn test_wrong_java_not_attributed() {
    let mods: Vec<ScannedJar> = Vec::new();
    let log = "UnsupportedClassVersionError: class file version 65.0\n\tat com.example.Mod.init(Mod.java:10)";
    let ctx = test_context(&mods);
    let report = analyze_crash(log, &ctx);
    assert_ne!(
        report.confidence,
        CrashAttributionConfidence::High,
        "WrongJava scenario should not get High confidence from crash attribution"
    );
}

#[test]
fn test_oom_not_attributed() {
    let mods: Vec<ScannedJar> = Vec::new();
    let log =
        "java.lang.OutOfMemoryError: Java heap space\n\tat com.example.Mod.init(Mod.java:10)";
    let ctx = test_context(&mods);
    let report = analyze_crash(log, &ctx);
    assert_ne!(
        report.confidence,
        CrashAttributionConfidence::High,
        "OOM should not get High confidence"
    );
}

#[test]
fn test_client_only_invariant_violation() {
    let mut mods: Vec<ScannedJar> = Vec::new();
    let json = b"{\"id\":\"clientmod\",\"version\":\"1.0.0\",\"environment\":\"client\"}";
    add_jar(&mut mods, "clientmod.jar", &[("fabric.mod.json", json)]);
    let log = "Mod ID: clientmod\njava.lang.RuntimeException: client mod crashed";
    let ctx = test_context(&mods);
    let report = analyze_crash(log, &ctx);
    assert!(matches!(
        report.recommendation,
        CrashRecommendation::UnexpectedClientOnlyPresent { .. }
    ));
}

#[test]
fn test_unknown_mod_explicit_culprit() {
    let mut mods: Vec<ScannedJar> = Vec::new();
    add_jar(&mut mods, "unknown.jar", &[("com/example/Mod.class", b"\xCA\xFE\xBA\xBE")]);
    let log = "Mod ID: unknown\nMod File: unknown.jar\nModLoadingException: ...";
    let ctx = test_context(&mods);
    let report = analyze_crash(log, &ctx);
    assert_eq!(report.status, CrashAttributionStatus::Attributed);
    assert_eq!(report.confidence, CrashAttributionConfidence::High);
    assert!(matches!(
        report.recommendation,
        CrashRecommendation::ReviewMod { .. }
    ));
    let by_file = report.candidates.iter().find(|c| c.jar_path.is_some()).unwrap();
    assert!(by_file.is_unknown_compat);
}

#[test]
fn scores_count_all_evidence() {
    let mut mods: Vec<ScannedJar> = Vec::new();
    create_test_jar(&mut mods, "mod.jar", &["mod"]);
    let log = vec!["Mod ID: mod"; 20].join("\n");
    let report = analyze_crash(&log, &test_context(&mods));
    assert_eq!(report.candidates.len(), 1);
    assert_eq!(report.candidates[0].score, 2000);
    assert_eq!(report.candidates[0].evidence.len(), MAX_EVIDENCE_PER_CANDIDATE);
}

#[test]
fn test_recent_repair_not_biased() {
    let mut mods: Vec<ScannedJar> = Vec::new();
    create_test_jar(&mut mods, "a.jar", &["modA"]);
    create_test_jar(&mut mods, "b.jar", &["modB"]);
    let log = "Mod ID: modA\njava.lang.RuntimeException: modA crashed";
    let recently_repaired = vec!["modB".to_string()];
    let ctx = CrashAttributionContext {
        staging_mods: &mods,
        loader_family: LoaderFamily::Forge,
        recently_repaired: &recently_repaired,
        installed_registry: None,
    };
    let report = analyze_crash(log, &ctx);
    assert_eq!(report.status, CrashAttributionStatus::Attributed);
    let primary = report.primary_candidate.as_ref().unwrap();
    assert_eq!(
        primary.mod_id.as_deref(),
        Some("modA"),
        "modA should be primary, not modB"
    );
}

#[test]
fn test_no_evidence_unknown() {
    let mods: Vec<ScannedJar> = Vec::new();
    let log = "Process exited with code 1";
    let ctx = test_context(&mods);
    let report = analyze_crash(log, &ctx);
    assert_eq!(report.status, CrashAttributionStatus::Unknown);
    assert!(report.primary_candidate.is_none());
    assert!(matches!(
        report.recommendation,
        CrashRecommendation::NoSafeRecommendation
    ));
}

#[test]
fn test_crash_attribution_no_mutation() {
    let mut mods: Vec<ScannedJar> = Vec::new();
    create_test_jar(&mut mods, "a.jar", &["modA"]);
    let log = "Mod ID: modA\njava.lang.RuntimeException: modA crashed";
    let ctx = test_context(&mods);
    let report = analyze_crash(log, &ctx);
    assert_eq!(report.status, CrashAttributionStatus::Attributed);
    assert!(report.primary_candidate.is_some());
    assert_eq!(mods.len(), 1);
    assert_eq!(mods[0].path, "/srv/mods/a.jar");
}

#[test]
fn test_empty_log() {
    let mods: Vec<ScannedJar> = Vec::new();
    let ctx = test_context(&mods);
    let report = analyze_crash("", &ctx);
    assert_eq!(report.status, CrashAttributionStatus::Unknown);
    assert!(report.primary_candidate.is_none());
}

#[test]
fn test_binary_like_text() {
    let mods: Vec<ScannedJar> = Vec::new();
    let ctx = test_context(&mods);
    let log = "\x00\x01\x02\x03\x04\x05binary data";
    let report = analyze_crash(log, &ctx);
    assert_eq!(report.status, CrashAttributionStatus::Unknown);
}

#[test]
fn test_huge_single_line() {
    let mods: Vec<ScannedJar> = Vec::new();
    let ctx = test_context(&mods);
    let huge_line = "A".repeat(100_000);
    let report = analyze_crash(&huge_line, &ctx);
    assert_eq!(report.status, CrashAttributionStatus::Unknown);
}

#[test]
fn test_truncated_mod_loading_exception() {
    let mods: Vec<ScannedJar> = Vec::new();
    let ctx = test_context(&mods);
    let log = "ModLoadingException: Mod 'example' encountered an error\nMod ID:";
    let report = analyze_crash(log, &ctx);
    assert!(report.summary.len() > 0);
}

#[test]
fn test_weird_quotes() {
    let mods: Vec<ScannedJar> = Vec::new();
    let ctx = test_context(&mods);
    let log = "Mod ID: \"create'\nProvided by 'foo\"";
    let report = analyze_crash(log, &ctx);
    assert!(report.summary.len() > 0);
}

#[test]
fn test_missing_closing_parenthesis() {
    let mods: Vec<ScannedJar> = Vec::new();
    let ctx = test_context(&mods);
    let log = "at com.example.Mod.init(Mod.java:10\n\tat com.example.Main.main(Main.java:5";
    let report = analyze_crash(log, &ctx);
    assert!(report.summary.len() > 0);
}

#[test]
fn test_path_traversal_rejected() {
    let mods: Vec<ScannedJar> = Vec::new();
    let ctx = test_context(&mods);
    let log = "File: ../../etc/passwd\njava.lang.RuntimeException";
    let report = analyze_crash(log, &ctx);
    assert_eq!(report.status, CrashAttributionStatus::Unknown);
}

#[test]
fn test_windows_system_path_rejected() {
    let mods: Vec<ScannedJar> = Vec::new();
    let ctx = test_context(&mods);
    let log = "File: C:\\Windows\\System32\\kernel32.dll.jar\njava.lang.RuntimeException";
    let report = analyze_crash(log, &ctx);
    assert_eq!(report.status, CrashAttributionStatus::Unknown);
}

#[test]
fn test_candidate_count_bounded() {
    let mut mods: Vec<ScannedJar> = Vec::new();
    for i in 0..20 {
        create_test_jar(
            &mut mods,
            &format!("mod{}.jar", i),
            &[&format!("mod{}", i)],
        );
    }
    let mut log_lines: Vec<String> = Vec::new();
    for i in 0..20 {
        log_lines.push(format!("Mod ID: mod{}", i));
    }
    let log = log_lines.join("\n");
    let ctx = test_context(&mods);
    let report = analyze_crash(&log, &ctx);
    assert!(report.candidates.len() <= MAX_CRASH_CANDIDATES);
}

#[test]
fn test_evidence_per_candidate_bounded() {
    let mut mods: Vec<ScannedJar> = Vec::new();
    create_test_jar(&mut mods, "mod.jar", &["mod"]);
    let mut log_lines: Vec<String> = Vec::new();
    for _ in 0..20 {
        log_lines.push("Mod ID: mod".to_string());
    }
    let log = log_lines.join("\n");
    let ctx = test_context(&mods);
    let report = analyze_crash(&log, &ctx);
    if let Some(primary) = &report.primary_candidate {
        assert!(primary.evidence.len() <= MAX_EVIDENCE_PER_CANDIDATE);
    }
}

#[test]
fn test_multi_mod_jar_ambiguous() {
    let mut mods: Vec<ScannedJar> = Vec::new();
    let jar_path = add_jar(
        &mut mods,
        "multi.jar",
        &[
            ("fabric.mod.json", b"{\"id\":\"modA\",\"version\":\"1.0.0\"}"),
            ("META-INF/mods.toml", b"[[mods]]\nmodId=\"modB\"\nversion=\"1.0.0\"\n"),
        ],
    );
    let log = format!("File: {}\njava.lang.RuntimeException", jar_path);
    let ctx = test_context(&mods);
    let report = analyze_crash(&log, &ctx);
    assert_eq!(report.status, CrashAttributionStatus::Ambiguous);
}

#[test]
fn test_duplicate_mod_id_providers() {
    let mut mods: Vec<ScannedJar> = Vec::new();
    create_test_jar(&mut mods, "a.jar", &["dupmod"]);
    create_test_jar(&mut mods, "b.jar", &["dupmod"]);
    let log = "Mod ID: dupmod\njava.lang.RuntimeException";
    let ctx = test_context(&mods);
    let report = analyze_crash(log, &ctx);
    assert_eq!(report.status, CrashAttributionStatus::Ambiguous);
}

#[test]
fn test_missing_jar_on_disk() {
    let mods: Vec<ScannedJar> = Vec::new();
    let log = "File: /nonexistent/path/mod.jar\njava.lang.RuntimeException";
    let ctx = test_context(&mods);
    let report = analyze_crash(log, &ctx);
    assert!(report.summary.len() > 0);
    assert_ne!(report.confidence, CrashAttributionConfidence::High);
    assert_eq!(report.status, CrashAttributionStatus::Unknown);
    assert!(report.primary_candidate.is_none());
    assert_eq!(report.candidates[0].score, 90);
}

#[test]
fn test_corrupt_jar_metadata() {
    let mut mods: Vec<ScannedJar> = Vec::new();
    let jar_path = add_bytes(&mut mods, "corrupt.jar", b"not a valid zip file".to_vec());
    let log = format!("File: {}\njava.lang.RuntimeException", jar_path);
    let ctx = test_context(&mods);
    let report = analyze_crash(&log, &ctx);
    assert!(report.summary.len() > 0);
}

#[test]
fn test_fabric_crashed_on_startup() {
    let mut mods: Vec<ScannedJar> = Vec::new();
    create_test_jar(&mut mods, "crasher.jar", &["crasher"]);
    let log = "A mod crashed on startup: crasher\njava.lang.RuntimeException: boom";
    let ctx = test_context(&mods);
    let report = analyze_crash(log, &ctx);
    assert_eq!(report.status, CrashAttributionStatus::Attributed);
    assert_eq!(report.confidence, CrashAttributionConfidence::High);
    assert_eq!(
        report.primary_candidate.as_ref().unwrap().mod_id.as_deref(),
        Some("crasher")
    );
}

#[test]
fn test_forge_mod_failed_to_load() {
    let mut mods: Vec<ScannedJar> = Vec::new();
    create_test_jar(&mut mods, "broken.jar", &["broken"]);
    let log = "Mod broken has failed to load correctly\njava.lang.RuntimeException: ...";
    let ctx = test_context(&mods);
    let report = analyze_crash(log, &ctx);
    assert_eq!(report.status, CrashAttributionStatus::Attributed);
    assert_eq!(report.confidence, CrashAttributionConfidence::High);
    assert_eq!(
        report.primary_candidate.as_ref().unwrap().mod_id.as_deref(),
        Some("broken")
    );
}

#[test]
fn test_generic_stacktrace_only() {
    let mut mods: Vec<ScannedJar> = Vec::new();
    create_test_jar(&mut mods, "create.jar", &["create"]);
    let log = "java.lang.NullPointerException\n\tat com.simibubi.create.SomeClass.method(SomeClass.java:42)\n\tat net.minecraft.server.MinecraftServer.run(MinecraftServer.java:100)";
    let ctx = test_context(&mods);
    let report = analyze_crash(log, &ctx);
    assert_ne!(
        report.confidence,
        CrashAttributionConfidence::High,
        "Stack frame only should not be High"
    );
}

#[test]
fn entries_of_an_archive_are_listed() {
    let mut mods: Vec<ScannedJar> = Vec::new();
    add_jar(&mut mods, "a.jar", &[("one.txt", b"1"), ("dir/two.txt", b"2")]);
    add_bytes(&mut mods, "b.jar", b"no archive".to_vec());
    assert_eq!(mods[0].entries, vec!["one.txt", "dir/two.txt"]);
    assert!(mods[1].entries.is_empty());
}

#[test]
fn primary_candidate_is_the_strongest() {
    let mut mods: Vec<ScannedJar> = Vec::new();
    create_test_jar(&mut mods, "a.jar", &["alpha"]);
    create_test_jar(&mut mods, "b.jar", &["beta"]);
    let log = "Mod ID: alpha\n\tat com.beta.Thing.run(Thing.java:1)";
    let report = analyze_crash(log, &test_context(&mods));
    assert_eq!(report.status, CrashAttributionStatus::Attributed);
    let primary = report.primary_candidate.as_ref().unwrap();
    assert_eq!(primary.mod_id.as_deref(), Some("alpha"));
    for c in &report.candidates {
        assert!(c.score <= primary.score);
    }
}
