//! The graph of mods and their dependencies, and the plan for a server.
use std::io::Write;

use lbby_core::dependency_graph::DependencyGraph;
use lbby_core::jar_metadata::{is_platform_id, DependencyKind, JarMetadata, NormalizedDependency};
use lbby_core::mod_compat::{
    CompatibilityConfidence, CompatibilitySource, ModCompatibility, ServerCompatibility,
};
use lbby_core::mod_reader::{read_all_forge_mod_ids, read_zip_text};
use lbby_core::structured::{parse_json, parse_toml, Data};

struct TestJar {
    path: String,
    bytes: Vec<u8>,
}

fn make_jar(path: &str, entries: &[(&str, &[u8])]) -> TestJar {
    let mut zip = zip::ZipWriter::new(std::io::Cursor::new(Vec::new()));
    let options = zip::write::SimpleFileOptions::default()
        .compression_method(zip::CompressionMethod::Stored);
    for (name, content) in entries {
        zip.start_file(*name, options).unwrap();
        zip.write_all(content).unwrap();
    }
    TestJar { path: path.to_string(), bytes: zip.finish().unwrap().into_inner() }
}

fn text_field(value: &Data, key: &str) -> Option<String> {
    value.get(key).and_then(|d| d.as_str()).map(|s| s.to_string())
}

fn push_dependency(out: &mut Vec<NormalizedDependency>, id: &str, required: bool, range: Option<String>) {
    if !is_platform_id(id) {
        out.push(NormalizedDependency {
            mod_id: id.to_string(),
            kind: if required { DependencyKind::Required } else { DependencyKind::Optional },
            version_requirement: range,
        });
    }
}

/// The IDs and dependencies that a JAR declares.
fn declared(jar: &TestJar) -> JarMetadata {
    let mut mod_ids = Vec::new();
    let mut dependencies = Vec::new();
    if let Some(value) = read_zip_text(&jar.bytes, "fabric.mod.json").and_then(|t| parse_json(&t)) {
        if let Some(id) = text_field(&value, "id") {
            mod_ids.push(id);
        }
        for (key, required) in [("depends", true), ("suggests", false), ("recommends", false)] {
            if let Some(Data::Table(entries)) = value.get(key) {
                for (id, range) in entries {
                    push_dependency(
                        &mut dependencies,
                        id,
                        required,
                        range.as_str().map(|s| s.to_string()),
                    );
                }
            }
        }
    }
    mod_ids.extend(read_all_forge_mod_ids(&jar.bytes));
    let toml = read_zip_text(&jar.bytes, "META-INF/mods.toml").and_then(|t| parse_toml(&t));
    if let Some(Data::Table(owners)) = toml.as_ref().and_then(|v| v.get("dependencies")) {
        for (_, list) in owners {
            if let Data::List(items) = list {
                for item in items {
                    let required = !matches!(item.get("mandatory"), Some(Data::Bool(false)));
                    if let Some(id) = text_field(item, "modId") {
                        let range = text_field(item, "versionRange");
                        push_dependency(&mut dependencies, &id, required, range);
                    }
                }
            }
        }
    }
    JarMetadata { mod_ids, dependencies }
}

/// How a JAR's own metadata classifies it.
fn classified(jar: &TestJar) -> ModCompatibility {
    let fabric = read_zip_text(&jar.bytes, "fabric.mod.json").and_then(|t| parse_json(&t));
    let environment = fabric.as_ref().and_then(|v| text_field(v, "environment"));
    let (compatibility, confidence, source) = match environment.as_deref() {
        Some("client") => (
            ServerCompatibility::ClientOnly,
            CompatibilityConfidence::Explicit,
            CompatibilitySource::FabricMetadata,
        ),
        Some("server") => (
            ServerCompatibility::ServerOk,
            CompatibilityConfidence::Explicit,
            CompatibilitySource::FabricMetadata,
        ),
        Some("*") => (
            ServerCompatibility::Both,
            CompatibilityConfidence::Explicit,
            CompatibilitySource::FabricMetadata,
        ),
        _ => (
            ServerCompatibility::Unknown,
            CompatibilityConfidence::NoEvidence,
            CompatibilitySource::NoSource,
        ),
    };
    ModCompatibility { compatibility, confidence, source, reason: String::new() }
}

fn make_compat(compatibility: ServerCompatibility) -> ModCompatibility {
    ModCompatibility {
        compatibility,
        confidence: CompatibilityConfidence::Explicit,
        source: CompatibilitySource::FabricMetadata,
        reason: "test".to_string(),
    }
}

fn make_unknown_compat() -> ModCompatibility {
    ModCompatibility {
        compatibility: ServerCompatibility::Unknown,
        confidence: CompatibilityConfidence::NoEvidence,
        source: CompatibilitySource::NoSource,
        reason: "test".to_string(),
    }
}

fn entry(jar: &TestJar, compat: ModCompatibility) -> (String, ModCompatibility, JarMetadata) {
    (jar.path.clone(), compat, declared(jar))
}

fn create_fabric_jar(name: &str, env: Option<&str>, mod_id: &str) -> TestJar {
    let json = format!(
        "{{\"schemaVersion\":1,\"id\":\"{}\",\"environment\":\"{}\"}}",
        mod_id,
        env.unwrap_or("*")
    );
    make_jar(&format!("mods/{}", name), &[("fabric.mod.json", json.as_bytes())])
}

fn create_fabric_jar_with_deps(
    name: &str,
    env: Option<&str>,
    mod_id: &str,
    deps: &[(&str, bool)],
) -> TestJar {
    let mut dep_map = String::from("{");
    for (i, (dep_id, _required)) in deps.iter().enumerate() {
        if i > 0 {
            dep_map.push(',');
        }
        dep_map.push_str(&format!("\"{}\":\"1.0\"", dep_id));
    }
    dep_map.push('}');
    let json = format!(
        "{{\"schemaVersion\":1,\"id\":\"{}\",\"environment\":\"{}\",\"depends\":{}}}",
        mod_id,
        env.unwrap_or("*"),
        dep_map
    );
    make_jar(&format!("mods/{}", name), &[("fabric.mod.json", json.as_bytes())])
}

fn create_forge_jar(name: &str, mod_id: &str) -> TestJar {
    let toml = format!(
        "modLoader=\"javafml\"\nloaderVersion=\"[47,)\"\n\n[[mods]]\nmodId=\"{}\"\n",
        mod_id
    );
    make_jar(&format!("mods/{}", name), &[("META-INF/mods.toml", toml.as_bytes())])
}

#[test]
fn forge_multiple_mod_ids_all_resolve_to_same_node() {
    let toml = b"modLoader=\"javafml\"\nloaderVersion=\"[47,)\"\n\n[[mods]]\nmodId=\"core\"\n\n[[mods]]\nmodId=\"api\"\n";
    let jar = make_jar("mods/jar.jar", &[("META-INF/mods.toml", toml)]);
    let graph = DependencyGraph::build(&[entry(&jar, make_unknown_compat())]);
    let core = graph.find_by_mod_id("core");
    let api = graph.find_by_mod_id("api");
    assert!(core.is_some());
    assert!(api.is_some());
    assert_eq!(core.unwrap().path, api.unwrap().path);
    assert_eq!(graph.nodes.len(), 1);
    assert_eq!(graph.nodes[0].mod_ids.len(), 2);
}

#[test]
fn dependency_on_any_multi_id_resolves() {
    let dep_jar = make_jar("mods/dep_jar.jar", &[(
        "META-INF/mods.toml",
        b"modLoader=\"javafml\"\nloaderVersion=\"[47,)\"\n\n[[mods]]\nmodId=\"core\"\n\n[[mods]]\nmodId=\"api\"\n",
    )]);
    let consumer_jar = make_jar("mods/consumer_jar.jar", &[(
        "fabric.mod.json",
        b"{\"schemaVersion\":1,\"id\":\"consumer\",\"environment\":\"*\",\"depends\":{\"api\":\"1.0\"}}",
    )]);
    let graph = DependencyGraph::build(&[
        entry(&dep_jar, make_unknown_compat()),
        entry(&consumer_jar, make_compat(ServerCompatibility::Both)),
    ]);
    let consumer = graph.find_by_mod_id("consumer").unwrap();
    assert_eq!(consumer.dependencies.len(), 1);
    assert_eq!(consumer.dependencies[0].mod_id, "api");
    let resolved = graph.find_by_mod_id("api");
    assert!(resolved.is_some());
    assert_eq!(resolved.unwrap().mod_ids, vec!["core", "api"]);
}

#[test]
fn multi_id_jar_appears_once_in_nodes() {
    let toml = b"modLoader=\"javafml\"\nloaderVersion=\"[47,)\"\n\n[[mods]]\nmodId=\"a\"\n\n[[mods]]\nmodId=\"b\"\n\n[[mods]]\nmodId=\"c\"\n";
    let jar = make_jar("mods/jar.jar", &[("META-INF/mods.toml", toml)]);
    let graph = DependencyGraph::build(&[entry(&jar, make_unknown_compat())]);
    assert_eq!(graph.nodes.len(), 1);
    assert_eq!(graph.nodes[0].mod_ids, vec!["a", "b", "c"]);
    assert!(graph.find_by_mod_id("a").is_some());
    assert!(graph.find_by_mod_id("b").is_some());
    assert!(graph.find_by_mod_id("c").is_some());
}

#[test]
fn shared_library_retained_when_used_by_both_sides() {
    let lib_jar = make_jar("mods/lib_jar.jar", &[(
        "fabric.mod.json",
        b"{\"schemaVersion\":1,\"id\":\"shared_lib\",\"environment\":\"*\",\"depends\":{}}",
    )]);
    let client_jar = make_jar("mods/client_jar.jar", &[(
        "fabric.mod.json",
        b"{\"schemaVersion\":1,\"id\":\"client_mod\",\"environment\":\"client\",\"depends\":{\"shared_lib\":\"1.0\"}}",
    )]);
    let server_jar = make_jar("mods/server_jar.jar", &[(
        "fabric.mod.json",
        b"{\"schemaVersion\":1,\"id\":\"server_mod\",\"environment\":\"server\",\"depends\":{\"shared_lib\":\"1.0\"}}",
    )]);
    let graph = DependencyGraph::build(&[
        entry(&lib_jar, make_compat(ServerCompatibility::Both)),
        entry(&client_jar, make_compat(ServerCompatibility::ClientOnly)),
        entry(&server_jar, make_compat(ServerCompatibility::ServerOk)),
    ]);
    let plan = graph.create_plan();
    assert!(plan.retain.contains(&lib_jar.path));
    assert!(plan.exclude.contains(&client_jar.path));
    assert!(plan.retain.contains(&server_jar.path));
}

#[test]
fn client_dependency_does_not_propagate_classification() {
    let shared_jar = make_jar("mods/shared_jar.jar", &[(
        "fabric.mod.json",
        b"{\"schemaVersion\":1,\"id\":\"shared\",\"environment\":\"*\"}",
    )]);
    let client_jar = make_jar("mods/client_jar.jar", &[(
        "fabric.mod.json",
        b"{\"schemaVersion\":1,\"id\":\"client\",\"environment\":\"client\",\"depends\":{\"shared\":\"1.0\"}}",
    )]);
    let graph = DependencyGraph::build(&[
        entry(&shared_jar, make_compat(ServerCompatibility::Both)),
        entry(&client_jar, make_compat(ServerCompatibility::ClientOnly)),
    ]);
    let shared = graph.find_by_mod_id("shared").unwrap();
    assert_eq!(
        shared.compatibility.compatibility,
        ServerCompatibility::Both
    );
}

#[test]
fn server_requires_client_only_dependency_records_conflict() {
    let dep_jar = make_jar("mods/dep_jar.jar", &[(
        "fabric.mod.json",
        b"{\"schemaVersion\":1,\"id\":\"client_dep\",\"environment\":\"client\"}",
    )]);
    let server_jar = make_jar("mods/server_jar.jar", &[(
        "fabric.mod.json",
        b"{\"schemaVersion\":1,\"id\":\"server_mod\",\"environment\":\"server\",\"depends\":{\"client_dep\":\"1.0\"}}",
    )]);
    let graph = DependencyGraph::build(&[
        entry(&dep_jar, make_compat(ServerCompatibility::ClientOnly)),
        entry(&server_jar, make_compat(ServerCompatibility::ServerOk)),
    ]);
    let plan = graph.create_plan();
    assert!(plan.exclude.contains(&dep_jar.path));
    assert!(plan.retain.contains(&server_jar.path));
    assert_eq!(plan.conflicts.len(), 1);
    assert_eq!(plan.conflicts[0].dependency_mod_id, "client_dep");
}

#[test]
fn optional_client_dependency_no_blocking_conflict() {
    let dep_jar = make_jar("mods/dep_jar.jar", &[(
        "fabric.mod.json",
        b"{\"schemaVersion\":1,\"id\":\"opt_dep\",\"environment\":\"client\"}",
    )]);
    let server_jar = make_jar("mods/server_jar.jar", &[(
        "fabric.mod.json",
        b"{\"schemaVersion\":1,\"id\":\"server_mod\",\"environment\":\"server\",\"suggests\":{\"opt_dep\":\"1.0\"}}",
    )]);
    let graph = DependencyGraph::build(&[
        entry(&dep_jar, make_compat(ServerCompatibility::ClientOnly)),
        entry(&server_jar, make_compat(ServerCompatibility::ServerOk)),
    ]);
    let plan = graph.create_plan();
    assert!(plan.exclude.contains(&dep_jar.path));
    assert!(plan.conflicts.is_empty());
}

#[test]
fn missing_required_dependency_recorded() {
    let jar = make_jar("mods/jar.jar", &[(
        "fabric.mod.json",
        b"{\"schemaVersion\":1,\"id\":\"test\",\"environment\":\"*\",\"depends\":{\"nonexistent_mod\":\"1.0\"}}",
    )]);
    let graph = DependencyGraph::build(&[entry(&jar, make_compat(ServerCompatibility::Both))]);
    let plan = graph.create_plan();
    assert_eq!(plan.missing.len(), 1);
    assert_eq!(plan.missing[0].dependency_mod_id, "nonexistent_mod");
}

#[test]
fn circular_dependency_no_stack_overflow() {
    let jar_a = make_jar("mods/jar_a.jar", &[(
        "fabric.mod.json",
        b"{\"schemaVersion\":1,\"id\":\"mod_a\",\"environment\":\"*\",\"depends\":{\"mod_b\":\"1.0\"}}",
    )]);
    let jar_b = make_jar("mods/jar_b.jar", &[(
        "fabric.mod.json",
        b"{\"schemaVersion\":1,\"id\":\"mod_b\",\"environment\":\"*\",\"depends\":{\"mod_a\":\"1.0\"}}",
    )]);
    let graph = DependencyGraph::build(&[
        entry(&jar_a, make_compat(ServerCompatibility::Both)),
        entry(&jar_b, make_compat(ServerCompatibility::Both)),
    ]);
    let plan = graph.create_plan();
    assert_eq!(plan.retain.len(), 2);
    assert!(plan.conflicts.is_empty());
}

#[test]
fn unknown_mod_id_represented_safely() {
    let jar = make_jar("mods/jar.jar", &[("dummy.txt", b"no metadata here")]);
    let graph = DependencyGraph::build(&[entry(&jar, make_unknown_compat())]);
    assert_eq!(graph.nodes.len(), 1);
    assert!(graph.nodes[0].mod_id.is_none());
    assert!(graph.nodes[0].mod_ids.is_empty());
    assert!(graph.find_by_path(&jar.path).is_some());
}

#[test]
fn filename_not_used_as_identity() {
    let mut jar = make_jar("mods/jar.jar", &[("dummy.txt", b"no metadata")]);
    jar.path = "mods/my-cool-mod-1.0.jar".to_string();
    let graph = DependencyGraph::build(&[entry(&jar, make_unknown_compat())]);
    assert!(graph.nodes[0].mod_id.is_none());
    assert!(graph.find_by_mod_id("my-cool-mod").is_none());
}

#[test]
fn dependency_used_by_multiple_retained_mods() {
    let lib_jar = make_jar("mods/lib_jar.jar", &[(
        "fabric.mod.json",
        b"{\"schemaVersion\":1,\"id\":\"lib\",\"environment\":\"*\"}",
    )]);
    let mod_a = make_jar("mods/mod_a.jar", &[(
        "fabric.mod.json",
        b"{\"schemaVersion\":1,\"id\":\"mod_a\",\"environment\":\"*\",\"depends\":{\"lib\":\"1.0\"}}",
    )]);
    let mod_b = make_jar("mods/mod_b.jar", &[(
        "fabric.mod.json",
        b"{\"schemaVersion\":1,\"id\":\"mod_b\",\"environment\":\"*\",\"depends\":{\"lib\":\"1.0\"}}",
    )]);
    let graph = DependencyGraph::build(&[
        entry(&lib_jar, make_compat(ServerCompatibility::Both)),
        entry(&mod_a, make_compat(ServerCompatibility::Both)),
        entry(&mod_b, make_compat(ServerCompatibility::Both)),
    ]);
    let dependents = graph.dependents_of("lib");
    assert_eq!(dependents.len(), 2);
}

#[test]
fn forge_required_and_optional_dependencies() {
    let toml = b"modLoader=\"javafml\"\nloaderVersion=\"[47,)\"\n\n[[mods]]\nmodId=\"test\"\n\n[[dependencies.test]]\nmodId=\"req_dep\"\nversionRange=\"[1.0,)\"\nmandatory=true\n\n[[dependencies.test]]\nmodId=\"opt_dep\"\nversionRange=\"[2.0,)\"\nmandatory=false\n";
    let jar = make_jar("mods/jar.jar", &[("META-INF/mods.toml", toml)]);
    let graph = DependencyGraph::build(&[entry(&jar, make_unknown_compat())]);
    let node = &graph.nodes[0];
    assert_eq!(node.dependencies.len(), 2);
    let req = node
        .dependencies
        .iter()
        .find(|d| d.mod_id == "req_dep")
        .unwrap();
    assert_eq!(req.kind, DependencyKind::Required);
    assert_eq!(req.version_requirement.as_deref(), Some("[1.0,)"));
    let opt = node
        .dependencies
        .iter()
        .find(|d| d.mod_id == "opt_dep")
        .unwrap();
    assert_eq!(opt.kind, DependencyKind::Optional);
}

#[test]
fn fabric_suggests_are_optional() {
    let json = b"{\"schemaVersion\":1,\"id\":\"test\",\"environment\":\"*\",\"depends\":{\"req\":\"1.0\"},\"suggests\":{\"opt\":\"2.0\"}}";
    let jar = make_jar("mods/jar.jar", &[("fabric.mod.json", json)]);
    let graph = DependencyGraph::build(&[entry(&jar, make_unknown_compat())]);
    let node = &graph.nodes[0];
    assert_eq!(node.dependencies.len(), 2);
    let req = node
        .dependencies
        .iter()
        .find(|d| d.mod_id == "req")
        .unwrap();
    assert_eq!(req.kind, DependencyKind::Required);
    let opt = node
        .dependencies
        .iter()
        .find(|d| d.mod_id == "opt")
        .unwrap();
    assert_eq!(opt.kind, DependencyKind::Optional);
}

#[test]
fn missing_and_excluded_are_distinct() {
    let excluded_jar = make_jar("mods/excluded_jar.jar", &[(
        "fabric.mod.json",
        b"{\"schemaVersion\":1,\"id\":\"excluded_mod\",\"environment\":\"client\"}",
    )]);
    let consumer_jar = make_jar("mods/consumer_jar.jar", &[(
        "fabric.mod.json",
        b"{\"schemaVersion\":1,\"id\":\"consumer\",\"environment\":\"*\",\"depends\":{\"excluded_mod\":\"1.0\",\"ghost_mod\":\"1.0\"}}",
    )]);
    let graph = DependencyGraph::build(&[
        entry(&excluded_jar, make_compat(ServerCompatibility::ClientOnly)),
        entry(&consumer_jar, make_compat(ServerCompatibility::Both)),
    ]);
    let plan = graph.create_plan();
    assert_eq!(plan.conflicts.len(), 1);
    assert_eq!(plan.conflicts[0].dependency_mod_id, "excluded_mod");
    assert_eq!(plan.missing.len(), 1);
    assert_eq!(plan.missing[0].dependency_mod_id, "ghost_mod");
}

#[test]
fn platform_ids_not_included_as_dependencies() {
    let json = b"{\"schemaVersion\":1,\"id\":\"test\",\"environment\":\"*\",\"depends\":{\"fabricloader\":\">=0.14\",\"fabric\":\"*\",\"minecraft\":\"1.20.1\",\"real_dep\":\"1.0\"}}";
    let jar = make_jar("mods/jar.jar", &[("fabric.mod.json", json)]);
    let graph = DependencyGraph::build(&[entry(&jar, make_unknown_compat())]);
    let node = &graph.nodes[0];
    assert_eq!(node.dependencies.len(), 1);
    assert_eq!(node.dependencies[0].mod_id, "real_dep");
}

#[test]
fn forge_platform_ids_not_included() {
    let toml = b"modLoader=\"javafml\"\nloaderVersion=\"[47,)\"\n\n[[mods]]\nmodId=\"test\"\n\n[[dependencies.test]]\nmodId=\"forge\"\nversionRange=\"[47,)\"\nmandatory=true\n\n[[dependencies.test]]\nmodId=\"minecraft\"\nversionRange=\"[1.20.1,1.21)\"\nmandatory=true\n\n[[dependencies.test]]\nmodId=\"neoforge\"\nversionRange=\"[20.4,)\"\nmandatory=true\n";
    let jar = make_jar("mods/jar.jar", &[("META-INF/mods.toml", toml)]);
    let graph = DependencyGraph::build(&[entry(&jar, make_unknown_compat())]);
    assert!(graph.nodes[0].dependencies.is_empty());
}

#[test]
fn retained_dependents_excludes_client_only() {
    let lib_jar = make_jar("mods/lib_jar.jar", &[(
        "fabric.mod.json",
        b"{\"schemaVersion\":1,\"id\":\"shared_lib\",\"environment\":\"*\"}",
    )]);
    let client_jar = make_jar("mods/client_jar.jar", &[(
        "fabric.mod.json",
        b"{\"schemaVersion\":1,\"id\":\"client\",\"environment\":\"client\",\"depends\":{\"shared_lib\":\"1.0\"}}",
    )]);
    let server_jar = make_jar("mods/server_jar.jar", &[(
        "fabric.mod.json",
        b"{\"schemaVersion\":1,\"id\":\"server\",\"environment\":\"server\",\"depends\":{\"shared_lib\":\"1.0\"}}",
    )]);
    let graph = DependencyGraph::build(&[
        entry(&lib_jar, make_compat(ServerCompatibility::Both)),
        entry(&client_jar, make_compat(ServerCompatibility::ClientOnly)),
        entry(&server_jar, make_compat(ServerCompatibility::ServerOk)),
    ]);
    let all_deps = graph.dependents_of("shared_lib");
    assert_eq!(all_deps.len(), 2);
    let retained_deps = graph.retained_dependents_of("shared_lib");
    assert_eq!(retained_deps.len(), 1);
    assert_eq!(retained_deps[0].mod_id, Some("server".to_string()));
}

#[test]
fn version_requirements_preserved_in_graph() {
    let json = b"{\"schemaVersion\":1,\"id\":\"test\",\"environment\":\"*\",\"depends\":{\"dep_a\":\">=1.0\",\"dep_b\":\"[2.0,3.0)\"}}";
    let jar = make_jar("mods/jar.jar", &[("fabric.mod.json", json)]);
    let graph = DependencyGraph::build(&[entry(&jar, make_unknown_compat())]);
    let node = &graph.nodes[0];
    let dep_a = node
        .dependencies
        .iter()
        .find(|d| d.mod_id == "dep_a")
        .unwrap();
    assert_eq!(dep_a.version_requirement.as_deref(), Some(">=1.0"));
    let dep_b = node
        .dependencies
        .iter()
        .find(|d| d.mod_id == "dep_b")
        .unwrap();
    assert_eq!(dep_b.version_requirement.as_deref(), Some("[2.0,3.0)"));
}

#[test]
fn duplicate_mod_id_across_two_jars_is_detectable() {
    let jar_a = make_jar("mods/jar_a.jar", &[(
        "fabric.mod.json",
        b"{\"schemaVersion\":1,\"id\":\"foo\",\"environment\":\"*\"}",
    )]);
    let jar_b = make_jar("mods/jar_b.jar", &[(
        "fabric.mod.json",
        b"{\"schemaVersion\":1,\"id\":\"foo\",\"environment\":\"*\"}",
    )]);
    let graph = DependencyGraph::build(&[
        entry(&jar_a, make_compat(ServerCompatibility::Both)),
        entry(&jar_b, make_compat(ServerCompatibility::Both)),
    ]);
    assert!(graph.is_ambiguous("foo"));
    assert_eq!(graph.ambiguous_ids().len(), 1);
    assert_eq!(graph.ambiguous_ids()[0], "foo");
    assert!(graph.find_by_mod_id("foo").is_none());
    let all = graph.find_all_by_mod_id("foo");
    assert_eq!(all.len(), 2);
    assert_eq!(graph.nodes.len(), 2);
}

#[test]
fn one_file_given_twice_is_not_ambiguous() {
    let lib = make_jar("mods/lib.jar", &[(
        "fabric.mod.json",
        b"{\"schemaVersion\":1,\"id\":\"lib\",\"environment\":\"*\"}",
    )]);
    let consumer = make_jar("mods/consumer.jar", &[(
        "fabric.mod.json",
        b"{\"schemaVersion\":1,\"id\":\"consumer\",\"environment\":\"*\",\"depends\":{\"lib\":\"1.0\"}}",
    )]);
    let graph = DependencyGraph::build(&[
        entry(&lib, make_compat(ServerCompatibility::Both)),
        entry(&lib, make_compat(ServerCompatibility::Both)),
        entry(&consumer, make_compat(ServerCompatibility::Both)),
    ]);
    assert!(!graph.is_ambiguous("lib"));
    assert!(graph.ambiguous_ids().is_empty());
    assert_eq!(graph.find_by_mod_id("lib").unwrap().path, "mods/lib.jar");
    let plan = graph.create_plan();
    assert!(plan.ambiguous.is_empty());
    assert!(plan.missing.is_empty());
    assert!(plan.conflicts.is_empty());
}

#[test]
fn ambiguous_dependency_recorded_in_plan() {
    let dep_a = make_jar("mods/dep_a.jar", &[(
        "fabric.mod.json",
        b"{\"schemaVersion\":1,\"id\":\"lib\",\"environment\":\"*\"}",
    )]);
    let dep_b = make_jar("mods/dep_b.jar", &[(
        "fabric.mod.json",
        b"{\"schemaVersion\":1,\"id\":\"lib\",\"environment\":\"*\"}",
    )]);
    let consumer = make_jar("mods/consumer.jar", &[(
        "fabric.mod.json",
        b"{\"schemaVersion\":1,\"id\":\"consumer\",\"environment\":\"*\",\"depends\":{\"lib\":\"1.0\"}}",
    )]);
    let graph = DependencyGraph::build(&[
        entry(&dep_a, make_compat(ServerCompatibility::Both)),
        entry(&dep_b, make_compat(ServerCompatibility::Both)),
        entry(&consumer, make_compat(ServerCompatibility::Both)),
    ]);
    let plan = graph.create_plan();
    assert_eq!(plan.ambiguous.len(), 1);
    assert_eq!(plan.ambiguous[0].dependency_mod_id, "lib");
    assert_eq!(plan.ambiguous[0].provider_paths.len(), 2);
    assert_eq!(plan.retain.len(), 3);
    assert!(plan.exclude.is_empty());
}

#[test]
fn multi_id_same_jar_not_ambiguous() {
    let toml = b"modLoader=\"javafml\"\nloaderVersion=\"[47,)\"\n\n[[mods]]\nmodId=\"core\"\n\n[[mods]]\nmodId=\"api\"\n";
    let jar = make_jar("mods/jar.jar", &[("META-INF/mods.toml", toml)]);
    let graph = DependencyGraph::build(&[entry(&jar, make_unknown_compat())]);
    assert!(!graph.is_ambiguous("core"));
    assert!(!graph.is_ambiguous("api"));
    assert!(graph.ambiguous_ids().is_empty());
    assert!(graph.find_by_mod_id("core").is_some());
    assert!(graph.find_by_mod_id("api").is_some());
}

#[test]
fn phase3c_confirmed_client_mod_quarantined() {
    let client_jar = create_fabric_jar("client-ui.jar", Some("client"), "client-ui");
    let analysis = vec![entry(&client_jar, classified(&client_jar))];
    assert_eq!(analysis[0].1.compatibility, ServerCompatibility::ClientOnly);
    assert_eq!(analysis[0].1.confidence, CompatibilityConfidence::Explicit);
    let graph = DependencyGraph::build(&analysis);
    let plan = graph.create_plan();
    assert_eq!(plan.exclude.len(), 1);
    assert_eq!(plan.exclude[0], client_jar.path);
}

#[test]
fn phase3c_unknown_mod_kept() {
    let unknown_jar = create_forge_jar("mystery.jar", "mystery");
    let compat = classified(&unknown_jar);
    assert_eq!(compat.compatibility, ServerCompatibility::Unknown);
    let analysis = vec![entry(&unknown_jar, compat)];
    let graph = DependencyGraph::build(&analysis);
    let plan = graph.create_plan();
    assert!(plan.exclude.is_empty());
}

#[test]
fn phase3c_misleading_filename_kept() {
    let misleading_jar = create_forge_jar("super-client-library.jar", "super-lib");
    let compat = classified(&misleading_jar);
    assert_eq!(compat.compatibility, ServerCompatibility::Unknown);
    let analysis = vec![entry(&misleading_jar, compat)];
    let graph = DependencyGraph::build(&analysis);
    let plan = graph.create_plan();
    assert!(plan.exclude.is_empty());
}

#[test]
fn phase3c_shared_library_kept_when_partially_needed() {
    let jar_a = create_fabric_jar_with_deps("client-a.jar",
        Some("client"),
        "client-a",
        &[("shared-lib", true)],
    );
    let jar_b = create_fabric_jar("shared-lib.jar", None, "shared-lib");
    let jar_c = create_fabric_jar_with_deps("server-c.jar",
        None,
        "server-c",
        &[("shared-lib", true)],
    );
    let analysis = vec![
        entry(&jar_a, classified(&jar_a)),
        entry(&jar_b, classified(&jar_b)),
        entry(&jar_c, classified(&jar_c)),
    ];
    let graph = DependencyGraph::build(&analysis);
    let plan = graph.create_plan();
    assert_eq!(plan.exclude.len(), 1);
    assert_eq!(plan.exclude[0], jar_a.path);
    assert!(!plan.exclude.contains(&jar_b.path));
    assert!(!plan.exclude.contains(&jar_c.path));
    assert!(plan.conflicts.is_empty());
}

#[test]
fn phase3c_server_requires_client_only_dependency() {
    let jar_d = create_fabric_jar("client-dep.jar", Some("client"), "client-dep");
    let jar_c = create_fabric_jar_with_deps("server-mod.jar",
        None,
        "server-mod",
        &[("client-dep", true)],
    );
    let analysis = vec![
        entry(&jar_d, classified(&jar_d)),
        entry(&jar_c, classified(&jar_c)),
    ];
    let graph = DependencyGraph::build(&analysis);
    let plan = graph.create_plan();
    assert_eq!(plan.exclude.len(), 1);
    assert_eq!(plan.exclude[0], jar_d.path);
    assert!(!plan.exclude.contains(&jar_c.path));
    assert_eq!(plan.conflicts.len(), 1);
    assert_eq!(plan.conflicts[0].dependency_mod_id, "client-dep");
}

#[test]
fn phase3c_missing_dependency_diagnostic() {
    let jar_c = create_fabric_jar_with_deps("server-mod.jar",
        None,
        "server-mod",
        &[("nonexistent", true)],
    );
    let analysis = vec![entry(&jar_c, classified(&jar_c))];
    let graph = DependencyGraph::build(&analysis);
    let plan = graph.create_plan();
    assert!(plan.exclude.is_empty());
    assert_eq!(plan.missing.len(), 1);
    assert_eq!(plan.missing[0].dependency_mod_id, "nonexistent");
}

#[test]
fn phase3c_duplicate_provider_no_arbitrary_winner() {
    let jar_1 = create_forge_jar("foo-v1.jar", "foo");
    let jar_2 = create_forge_jar("foo-v2.jar", "foo");
    let jar_3 = create_fabric_jar_with_deps("consumer.jar",
        None,
        "consumer",
        &[("foo", true)],
    );
    let analysis = vec![
        entry(&jar_1, classified(&jar_1)),
        entry(&jar_2, classified(&jar_2)),
        entry(&jar_3, classified(&jar_3)),
    ];
    let graph = DependencyGraph::build(&analysis);
    let plan = graph.create_plan();
    assert!(graph.is_ambiguous("foo"));
    assert_eq!(graph.ambiguous_ids().len(), 1);
    assert!(plan.exclude.is_empty());
    assert_eq!(plan.ambiguous.len(), 1);
    assert_eq!(plan.ambiguous[0].dependency_mod_id, "foo");
    assert_eq!(plan.ambiguous[0].provider_paths.len(), 2);
}

#[test]
fn phase3c_corrupt_jar_kept() {
    let corrupt = TestJar {
        path: "mods/corrupt.jar".to_string(),
        bytes: b"this is not a valid zip".to_vec(),
    };
    let compat = classified(&corrupt);
    assert_eq!(compat.compatibility, ServerCompatibility::Unknown);
    let analysis = vec![entry(&corrupt, compat)];
    let graph = DependencyGraph::build(&analysis);
    let plan = graph.create_plan();
    assert!(plan.exclude.is_empty());
    assert_eq!(plan.retain, vec!["mods/corrupt.jar"]);
}

#[test]
fn phase3c_hard_delete_regression() {
    let jar_a = create_fabric_jar("client-a.jar", Some("client"), "client-a");
    let jar_b = create_fabric_jar("client-b.jar", Some("client"), "client-b");
    let jar_c = create_fabric_jar("universal-c.jar", None, "universal-c");
    let analysis = vec![
        entry(&jar_a, classified(&jar_a)),
        entry(&jar_b, classified(&jar_b)),
        entry(&jar_c, classified(&jar_c)),
    ];
    let graph = DependencyGraph::build(&analysis);
    let plan = graph.create_plan();
    assert_eq!(plan.exclude.len(), 2);
    assert_eq!(plan.retain, vec!["mods/universal-c.jar"]);
}

#[test]
fn an_id_declared_twice_by_one_jar_is_not_ambiguous() {
    let metadata = JarMetadata {
        mod_ids: vec!["core".to_string(), "core".to_string()],
        dependencies: vec![],
    };
    let graph = DependencyGraph::build(&[(
        "mods/core.jar".to_string(),
        make_unknown_compat(),
        metadata,
    )]);
    assert!(!graph.is_ambiguous("core"));
    assert!(graph.ambiguous_ids().is_empty());
    assert!(graph.find_by_mod_id("core").is_some());
    assert!(graph.find_by_mod_id("other").is_none());
}

#[test]
fn every_jar_is_excluded_or_retained() {
    let a = create_fabric_jar("a.jar", Some("client"), "a");
    let b = create_fabric_jar("b.jar", Some("server"), "b");
    let c = create_forge_jar("c.jar", "c");
    let graph = DependencyGraph::build(&[
        entry(&a, classified(&a)),
        entry(&b, classified(&b)),
        entry(&c, classified(&c)),
    ]);
    let plan = graph.create_plan();
    assert_eq!(plan.exclude, vec!["mods/a.jar"]);
    assert_eq!(plan.retain, vec!["mods/b.jar", "mods/c.jar"]);
}
