//! The parts that the rest is made of.
use std::io::Write;

use lbby_core::identifiers::{fresh_id, short_uuid, shortened};
use lbby_core::jar_index::{basename_of, is_jar_path, JarOwnershipIndex, ScannedJar};
use lbby_core::mod_compat::{
    CompatibilityConfidence, CompatibilitySource, ModCompatibility, ServerCompatibility,
};
use lbby_core::sorting::{is_before, sorted_strings};
use lbby_core::text::{
    clipped, dec_signed_string, dec_string, file_name_of, is_alphanumeric, is_whitespace, join,
    join_path, split_lines, to_chars, trimmed,
};

fn strings(v: &[&str]) -> Vec<String> {
    v.iter().map(|s| s.to_string()).collect()
}

fn text(v: &[char]) -> String {
    v.iter().collect()
}

fn jar(path: &str, ids: &[&str], entries: &[&str]) -> ScannedJar {
    let mut w = zip::ZipWriter::new(std::io::Cursor::new(Vec::new()));
    let options = zip::write::SimpleFileOptions::default()
        .compression_method(zip::CompressionMethod::Stored);
    for name in entries {
        w.start_file(*name, options).unwrap();
        w.write_all(b"{}").unwrap();
    }
    let bytes = w.finish().unwrap().into_inner();
    let unknown = ModCompatibility {
        compatibility: ServerCompatibility::Unknown,
        confidence: CompatibilityConfidence::NoEvidence,
        source: CompatibilitySource::NoSource,
        reason: String::new(),
    };
    ScannedJar::scan(path.to_string(), Some(&bytes), strings(ids), unknown)
}

#[test]
fn identifiers_are_hexadecimal() {
    let id = fresh_id();
    assert_eq!(id.len(), 32);
    assert!(id.chars().all(|c| matches!(c, '0'..='9' | 'a'..='f')));
    assert_eq!(short_uuid().len(), 8);
    assert_eq!(shortened("0123456789"), "01234567");
}

#[test]
fn texts_are_ordered_by_characters() {
    assert!(is_before(&to_chars("a"), &to_chars("b")));
    assert!(is_before(&to_chars("a"), &to_chars("aa")));
    assert!(!is_before(&to_chars("b"), &to_chars("aa")));
    assert!(is_before(&to_chars("Z"), &to_chars("a")));
    assert_eq!(sorted_strings(&strings(&["c", "a", "b", "a"])), vec!["a", "a", "b", "c"]);
}

#[test]
fn archives_are_indexed() {
    let jars = [
        jar("/mods/a.jar", &["a", "api"], &["a.mixins.json", "x/a.class", "cfg/mixin.a.json"]),
        jar("/mods/b.jar", &["b", "api"], &["sub/a.mixins.json"]),
        jar("/mods/readme.txt", &["c"], &[]),
    ];
    assert_eq!(jars[0].entries, vec!["a.mixins.json", "x/a.class", "cfg/mixin.a.json"]);
    let index = JarOwnershipIndex::build(&jars);
    assert_eq!(index.jars.len(), 2);
    assert_eq!(index.jars[0].resources, vec!["a.mixins.json", "mixin.a.json"]);
    assert_eq!(index.owners("api"), vec![0, 1]);
    assert_eq!(index.owners("c"), Vec::<usize>::new());
    assert_eq!(index.holders("a.mixins.json"), vec![0, 1]);
    assert_eq!(index.with_path("/mods/b.jar").unwrap().path, "/mods/b.jar");
    assert_eq!(index.find_jar("elsewhere/b.jar").unwrap().path, "/mods/b.jar");
    assert!(index.find_jar("c.jar").is_none());
}

#[test]
fn bytes_that_are_no_archive_have_no_entries() {
    let template = jar("/mods/a.jar", &[], &[]);
    let bad = ScannedJar::scan(
        "x.jar".to_string(),
        Some(b"no archive"),
        Vec::new(),
        template.compatibility.clone(),
    );
    assert!(bad.entries.is_empty());
    let gone = ScannedJar::scan("x.jar".to_string(), None, Vec::new(), template.compatibility);
    assert!(gone.entries.is_empty());
}

#[test]
fn jar_paths_are_recognised() {
    assert!(is_jar_path("mods/a.jar"));
    assert!(!is_jar_path("mods/.jar"));
    assert!(!is_jar_path("mods/a.txt"));
    assert_eq!(basename_of(&to_chars("x/y.json")), "y.json");
    assert_eq!(basename_of(&to_chars("..")), "");
}

#[test]
fn texts_are_taken_apart() {
    assert_eq!(text(trimmed(&to_chars(" \u{a0}x y\u{3000}"))), "x y");
    assert!(is_whitespace('\u{2003}') && !is_whitespace('\u{200b}'));
    assert!(is_alphanumeric('\u{e9}') && is_alphanumeric('7') && !is_alphanumeric('-'));
    let lines = to_chars("a\r\nb\n\nc\n");
    let parts: Vec<String> = split_lines(&lines).iter().map(|l| text(l)).collect();
    assert_eq!(parts, vec!["a", "b", "", "c"]);
    assert_eq!(join(&strings(&["a", "b"]), ", "), "a, b");
    assert_eq!(clipped(&to_chars("a\u{e9}b"), 2), "a...");
    assert_eq!(clipped(&to_chars("ab"), 2), "ab");
}

#[test]
fn numbers_are_written() {
    assert_eq!(dec_string(0), "0");
    assert_eq!(dec_string(u64::MAX), u64::MAX.to_string());
    assert_eq!(dec_signed_string(i64::MIN), i64::MIN.to_string());
    assert_eq!(dec_signed_string(-7), "-7");
}

#[test]
fn paths_are_joined() {
    assert_eq!(join_path("/srv", "mods"), "/srv/mods");
    assert_eq!(join_path("/srv/", "mods"), "/srv/mods");
    assert_eq!(file_name_of(&to_chars("/srv/mods/")).map(text).as_deref(), Some("mods"));
    assert!(file_name_of(&to_chars("/")).is_none());
}
