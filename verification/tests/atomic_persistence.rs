//! Writing and reading state that must survive a crash.
use lbby_core::atomic_persistence::{
    check_schema_version, is_atomic_tmp_file, read_json_file, read_versioned_json, AtomicWrite,
    HasSchemaVersion, JsonSource, WriteStage, CURRENT_SCHEMA_VERSION,
};

#[derive(Debug, PartialEq)]
struct TestRecord {
    name: String,
    value: u32,
}

#[derive(Debug, PartialEq)]
struct Versioned(u32);

impl HasSchemaVersion for Versioned {
    fn schema_version(&self) -> u32 {
        self.0
    }
}

fn record(name: &str, value: u32) -> TestRecord {
    TestRecord { name: name.to_string(), value }
}

/// Runs a write over a target; the stage that fails, if any.
fn write(target: &mut Option<u32>, value: u32, fails: Option<WriteStage>) -> (Result<(), String>, bool) {
    let mut run = AtomicWrite::begin();
    let mut tmp: Option<u32> = None;
    while run.stage != WriteStage::Finished {
        if fails == Some(run.stage) {
            run.step(Some("disk full"));
            continue;
        }
        match run.stage {
            WriteStage::Creating => tmp = Some(0),
            WriteStage::Writing => tmp = Some(value),
            WriteStage::Renaming => *target = tmp.take(),
            WriteStage::Removing => tmp = None,
            _ => {}
        }
        run.step(None);
    }
    (run.outcome(), tmp.is_some())
}

#[test]
fn atomic_write_creates_file() {
    let mut target = None;
    assert!(write(&mut target, 42, None).0.is_ok());
    assert_eq!(target, Some(42));
}

#[test]
fn atomic_write_no_tmp_left_behind() {
    let mut target = None;
    assert!(!write(&mut target, 42, None).1, "tmp file should not exist after successful write");
}

#[test]
fn atomic_write_overwrites_existing() {
    let mut target = None;
    write(&mut target, 1, None).0.unwrap();
    write(&mut target, 2, None).0.unwrap();
    assert_eq!(target, Some(2));
}

#[test]
fn what_is_written_is_read() {
    let source = |target: Option<u32>| match target {
        Some(n) => JsonSource::Parsed(n),
        None => JsonSource::Missing,
    };
    for before in [None, Some(1)] {
        let mut target = before;
        assert_eq!(write(&mut target, 7, None), (Ok(()), false));
        assert_eq!(read_json_file("/state.json", source(target)), Ok(Some(7)));
        let mut target = before;
        assert!(write(&mut target, 7, Some(WriteStage::Flushing)).0.is_err());
        assert_eq!(read_json_file("/state.json", source(target)), Ok(before));
    }
}

#[test]
fn a_failed_write_leaves_the_target() {
    for (stage, text) in [
        (WriteStage::Creating, "Failed to create temp file: disk full"),
        (WriteStage::Writing, "Failed to write temp file: disk full"),
        (WriteStage::Flushing, "Failed to flush temp file: disk full"),
        (WriteStage::Renaming, "Failed to rename temp → target: disk full"),
    ] {
        let mut target = Some(1);
        let (result, left_over) = write(&mut target, 2, Some(stage));
        assert_eq!(result.unwrap_err(), text);
        assert_eq!(target, Some(1));
        assert!(!left_over);
    }
}

#[test]
fn read_json_file_missing_returns_none() {
    let result: Result<Option<TestRecord>, String> =
        read_json_file("nonexistent.json", JsonSource::Missing);
    assert!(result.unwrap().is_none());
}

#[test]
fn read_json_file_corrupt_returns_err() {
    let result: Result<Option<TestRecord>, String> =
        read_json_file("corrupt.json", JsonSource::Corrupt("expected ident".to_string()));
    assert_eq!(result.unwrap_err(), "Failed to parse corrupt.json: expected ident");
    let result: Result<Option<TestRecord>, String> =
        read_json_file("a.json", JsonSource::Unreadable("denied".to_string()));
    assert_eq!(result.unwrap_err(), "Failed to read a.json: denied");
}

#[test]
fn is_atomic_tmp_file_recognizes_pattern() {
    assert!(is_atomic_tmp_file("transaction.json.tmp"));
    assert!(is_atomic_tmp_file("/some/dir/pending_recovery.json.tmp"));
    assert!(!is_atomic_tmp_file("transaction.json"));
    assert!(!is_atomic_tmp_file("some_file.tmp"));
    assert!(!is_atomic_tmp_file("quarantine_metadata.json"));
}

#[test]
fn legacy_unversioned_json_parses_with_default_schema() {
    let result = read_json_file("legacy.json", JsonSource::Parsed(record("legacy", 99))).unwrap();
    assert!(result.is_some());
    assert_eq!(result.unwrap().name, "legacy");
}

#[test]
fn newer_schema_is_refused() {
    let ok = read_versioned_json("a.json", JsonSource::Parsed(Versioned(CURRENT_SCHEMA_VERSION)));
    assert_eq!(ok.unwrap(), Some(Versioned(1)));
    let refused = read_versioned_json("a.json", JsonSource::Parsed(Versioned(2)));
    assert_eq!(
        refused.unwrap_err(),
        "Unsupported schema version 2 (max supported: 1) in a.json"
    );
    assert!(check_schema_version(0, "a.json").is_ok());
}

#[test]
fn leftovers_are_never_read() {
    let result = read_versioned_json("a.json.tmp", JsonSource::Parsed(Versioned(1)));
    assert_eq!(result.unwrap(), None);
}
