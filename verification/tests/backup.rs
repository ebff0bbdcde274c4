//! Backups: what goes in, what comes out, and taking the old place.
use std::collections::HashMap;

use lbby_core::backup::{
    backup_entry, backup_filename, check_backup_file, check_server_path, default_backup_filename,
    restore_entry, should_skip, timestamp_ddmmyyyy_hhmmss, EntryAction, EntryKind, RestoreAction,
    RestoreOutcome, RestoreStep, TransactionalRestore, WalkState,
};

/// Runs a restore of an archive with that many files; the step of that number
/// fails, if one is given.
fn restore(
    dirs: &mut HashMap<String, &'static str>,
    files: u64,
    fails: &[usize],
) -> Result<u64, String> {
    let (mut run, mut step) = TransactionalRestore::begin("/srv", "20260909");
    let mut count = 0;
    loop {
        let failing = fails.contains(&count);
        count += 1;
        let outcome = match &step {
            RestoreStep::Done(result) => return result.clone(),
            RestoreStep::Extract(dir) => {
                dirs.insert(dir.clone(), "archive");
                if failing {
                    RestoreOutcome::Failed("bad zip".to_string())
                } else {
                    RestoreOutcome::Fine(files)
                }
            }
            _ if failing => RestoreOutcome::Failed("denied".to_string()),
            RestoreStep::LookForServer => {
                RestoreOutcome::Fine(if dirs.contains_key("/srv") { 1 } else { 0 })
            }
            RestoreStep::Rename { from, to } => {
                let held = dirs.remove(from).unwrap();
                dirs.insert(to.clone(), held);
                RestoreOutcome::Fine(0)
            }
            RestoreStep::Remove(dir) => {
                dirs.remove(dir);
                RestoreOutcome::Fine(0)
            }
        };
        step = run.step(&outcome);
    }
}

fn with_server() -> HashMap<String, &'static str> {
    HashMap::from([("/srv".to_string(), "old")])
}

/// A text with `0` for each digit.
fn shape(s: &str) -> String {
    s.chars().map(|c| if c.is_ascii_digit() { '0' } else { c }).collect()
}

#[test]
fn names_hold_the_time() {
    assert_eq!(backup_filename("09-09-2026-101112"), "[Backup]-09-09-2026-101112.zip");
    let now = default_backup_filename();
    assert!(now.starts_with("[Backup]-") && now.ends_with(".zip"));
    assert_eq!(shape(&now), "[Backup]-00-00-0000-000000.zip");
    assert_eq!(shape(&timestamp_ddmmyyyy_hhmmss()), "00-00-0000-000000");
}

#[test]
fn some_names_are_left_out() {
    assert!(should_skip("session.lock", false, true));
    assert!(should_skip(".git", true, true));
    assert!(!should_skip(".git", false, true));
    assert!(should_skip("logs", true, false));
    assert!(!should_skip("logs", true, true));
    assert!(!should_skip("logs", false, false));
    assert!(!should_skip("world", true, false));
}

#[test]
fn entries_are_named_below_their_directory() {
    match backup_entry("world/region", "r.0.mca", EntryKind::File, false, false) {
        EntryAction::AddFile(name) => assert_eq!(name, "world/region/r.0.mca"),
        other => panic!("Expected AddFile, got {:?}", other),
    }
    match backup_entry("", "world", EntryKind::Directory, true, false) {
        EntryAction::AddDirectory(name) => assert_eq!(name, "world"),
        other => panic!("Expected AddDirectory, got {:?}", other),
    }
    match backup_entry("a", "b\\c", EntryKind::File, false, false) {
        EntryAction::AddFile(name) => assert_eq!(name, "a/b/c"),
        other => panic!("Expected AddFile, got {:?}", other),
    }
    assert!(matches!(
        backup_entry("", "link", EntryKind::Symlink, true, false),
        EntryAction::Skip
    ));
    assert!(matches!(
        backup_entry("", "Thumbs.db", EntryKind::File, true, false),
        EntryAction::Skip
    ));
}

#[test]
fn progress_is_reported_now_and_then() {
    let mut state = WalkState::new();
    state.wrote(10);
    state.wrote(5);
    assert!(!state.finished_file(0));
    assert!(state.finished_file(250));
    for _ in 0..29 {
        assert!(!state.finished_file(0));
    }
    assert!(state.finished_file(0));
    let p = state.progress("x");
    assert_eq!((p.files, p.bytes, p.current.as_str()), (32, 15, "x"));
}

#[test]
fn paths_are_checked_first() {
    assert!(check_server_path("/srv", true, true).is_ok());
    assert_eq!(
        check_server_path("/srv", false, false).unwrap_err(),
        "Server path does not exist: /srv"
    );
    assert_eq!(
        check_server_path("/srv", true, false).unwrap_err(),
        "Server path is not a directory: /srv"
    );
    assert!(check_backup_file("/b.zip", true).is_ok());
    assert_eq!(
        check_backup_file("/b.zip", false).unwrap_err(),
        "Backup file does not exist: /b.zip"
    );
}

#[test]
fn entries_that_escape_are_not_restored() {
    assert!(matches!(restore_entry("/srv", None, false), RestoreAction::Skip));
    assert!(
        matches!(restore_entry("/srv", Some("a"), true), RestoreAction::MakeDirectory(p) if p == "/srv/a")
    );
    assert!(
        matches!(restore_entry("/srv", Some("a/b"), false), RestoreAction::WriteFile(p) if p == "/srv/a/b")
    );
}

#[test]
fn restore_replaces_the_server() {
    let mut dirs = with_server();
    assert_eq!(restore(&mut dirs, 3, &[]), Ok(3));
    assert_eq!(dirs, HashMap::from([("/srv".to_string(), "archive")]));
}

#[test]
fn restore_without_a_server_makes_one() {
    let mut dirs = HashMap::new();
    assert_eq!(restore(&mut dirs, 1, &[]), Ok(1));
    assert_eq!(dirs, HashMap::from([("/srv".to_string(), "archive")]));
}

#[test]
fn failed_restores_leave_the_server() {
    for (fails, files, text) in [
        (vec![0], 3, "Staging extraction failed: bad zip"),
        (vec![], 0, "Backup archive contained no files"),
        (vec![2], 3, "Failed to rename original to rollback: denied"),
        (vec![3], 3, "Failed to rename staging to live: denied"),
    ] {
        let mut dirs = with_server();
        assert_eq!(restore(&mut dirs, files, &fails).unwrap_err(), text);
        assert_eq!(dirs, with_server());
    }
}

#[test]
fn a_restore_that_cannot_go_back_says_where_the_data_is() {
    let mut dirs = with_server();
    assert_eq!(
        restore(&mut dirs, 3, &[3, 4]).unwrap_err(),
        "CRITICAL: staging→live failed (denied), rollback also failed (denied). Rollback data at: /srv.restore-rollback-20260909"
    );
    assert_eq!(dirs["/srv.restore-rollback-20260909"], "old");
}

#[test]
fn restores_are_named_by_the_time() {
    let (run, _) = TransactionalRestore::begin_now("/srv");
    assert!(run.staging_dir.starts_with("/srv.restore-staging-"));
    assert!(run.rollback_dir.starts_with("/srv.restore-rollback-"));
    assert_eq!(
        run.staging_dir.trim_start_matches("/srv.restore-staging-"),
        run.rollback_dir.trim_start_matches("/srv.restore-rollback-")
    );
    assert_eq!(shape(&run.staging_dir), "/srv.restore-staging-00000000000000000");
}
