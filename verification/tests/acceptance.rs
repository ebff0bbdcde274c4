//! Acceptance runs: what is written down.
use lbby_core::acceptance::{
    check_residue, count_jars, count_mods, find_staging_dir, kill_server_process,
    override_server_port, read_pid, wait_status, EndStep,
    wait_for_server_running, InstallReport, Residue, SeenStatus, Settled, SmokePack, SmokeResult,
};
use lbby_core::structured::parse_json;

fn strings(v: &[&str]) -> Vec<String> {
    v.iter().map(|s| s.to_string()).collect()
}

#[test]
fn a_run_that_succeeds_is_written_down() {
    let mut r = SmokeResult::begin(SmokePack::CurseForgeForge, "17", 4242);
    assert_eq!(r.pack_name, "The Afterlife (Forge)");
    assert_eq!(r.loader, "Forge");
    assert_eq!(r.install_result, "?");
    assert!(r.record_install(&InstallReport::Success { minecraft_version: "1.20.1".to_string() }));
    r.record_start(&Ok(Settled { name: "Running".to_string(), running: true, detail: None }));
    r.finish(4, "CLEAN".to_string(), 1500);
    assert_eq!(r.install_result, "SUCCESS");
    assert_eq!(r.commit_result, "SUCCESS (auto)");
    assert_eq!(r.production_start, "Running");
    assert_eq!(r.boot_result, "?");
    assert_eq!((r.mod_count, r.duration_millis, r.port_used), (4, 1500, 4242));
}

#[test]
fn runs_that_fail_are_written_down() {
    let mut r = SmokeResult::begin(SmokePack::CurseForgeFabric, "17", 1);
    assert!(!r.record_install(&InstallReport::Failed("no net".to_string())));
    assert_eq!(r.install_result, "FAIL: no net");
    assert_eq!(r.final_status, "Error");
    assert!(!r.record_install(&InstallReport::TimedOut));
    assert_eq!(r.install_result, "TIMEOUT");
    assert!(!r.record_install(&InstallReport::UserActionRequired {
        mod_id: "oculus".to_string(),
        crash_summary: "crash".to_string(),
        confidence: "High".to_string(),
    }));
    assert_eq!(r.install_result, "UserActionRequired — mod=oculus, crash=crash, confidence=High");
    assert_eq!(r.commit_result, "PAUSED");
    r.record_reject("fp", None);
    assert_eq!(r.boot_result, "Reject: OK (fingerprint=fp)");
    r.record_reject("fp", Some("gone"));
    assert_eq!(r.boot_result, "Reject: FAIL (gone)");
    r.record_start(&Err("no java".to_string()));
    assert_eq!(r.production_start, "FAIL: no java");
    r.record_start(&Ok(Settled {
        name: "Error".to_string(),
        running: false,
        detail: Some("boom".to_string()),
    }));
    assert_eq!(r.production_start, "Error: boom");
    assert_eq!(r.boot_result, "boom");
}

#[test]
fn searches_give_an_address() {
    let mut r = SmokeResult::begin(SmokePack::Modrinth, "17", 1);
    assert_eq!(r.record_search(&Err("no net".to_string())), None);
    assert_eq!(r.install_result, "FAIL: search: no net");
    assert_eq!(r.record_search(&Ok(vec![])), None);
    assert_eq!(r.install_result, "FAIL: no search results");
    let found = Ok(vec![("Simply Optimized".to_string(), "sop".to_string())]);
    assert_eq!(
        r.record_search(&found).as_deref(),
        Some("https://modrinth.com/modpack/sop")
    );
    assert_eq!(r.pack_name, "Simply Optimized (Modrinth)");
    assert_eq!(r.source, "modrinth:sop");
}

#[test]
fn waits_end_when_the_server_settles() {
    let look = |s, ms| wait_for_server_running(s, "X", Some("why"), ms, 300_000);
    assert!(look(SeenStatus::Changing, 1_000).is_none());
    assert!(look(SeenStatus::Stopped, 30_000).is_none());
    assert_eq!(look(SeenStatus::Stopped, 30_001).unwrap().detail.as_deref(), Some("why"));
    let running = look(SeenStatus::Running, 1).unwrap();
    assert!(running.running && running.detail.is_none());
    assert!(look(SeenStatus::Changing, 300_001).is_some());
    let failed = wait_for_server_running(SeenStatus::Error, "Error", None, 1, 300_000).unwrap();
    assert_eq!(failed.detail.as_deref(), Some(""));
}

#[test]
fn mods_are_counted() {
    assert_eq!(count_mods(&strings(&["a.jar", "B.JAR", "c.tmod", "d.txt", "jar"])), 3);
    assert_eq!(count_jars(&strings(&["a.jar", "B.JAR", "c.tmod", ".jar", "x/d.jar"])), 2);
}

#[test]
fn residue_is_named() {
    let clean = Residue {
        staging: false,
        pending_recovery: false,
        retry_state: false,
        transaction: false,
    };
    assert_eq!(check_residue(&clean), "CLEAN");
    let left = Residue { staging: true, transaction: true, ..clean };
    assert_eq!(check_residue(&left), "staging/ has entries; transaction.json present");
    let rest = Residue { pending_recovery: true, retry_state: true, ..clean };
    assert_eq!(check_residue(&rest), "pending-recovery/ has entries; retry-state.json present");
}

#[test]
fn ports_are_overridden_once() {
    assert_eq!(
        override_server_port("motd=x\nserver-port=25565\nserver-port=1\n", 4242),
        "motd=x\nserver-port=4242\nserver-port=1\n"
    );
    assert_eq!(override_server_port("motd=x", 4242), "motd=x\nserver-port=4242\n");
    assert_eq!(override_server_port("", 1), "server-port=1\n");
}

#[test]
fn staging_directories_are_found_by_transaction() {
    let dirs = vec![
        ("a".to_string(), None),
        ("b".to_string(), parse_json(r#"{"transaction_id":"t2"}"#)),
        ("c".to_string(), parse_json(r#"{"transaction_id":"t1"}"#)),
    ];
    assert_eq!(find_staging_dir(&dirs, "t1").as_deref(), Some("c"));
    assert_eq!(find_staging_dir(&dirs, "t3"), None);
}

#[test]
fn waits_that_take_too_long_have_failed() {
    assert_eq!(wait_status(SeenStatus::Changing, 1, 300_000), None);
    assert_eq!(wait_status(SeenStatus::Stopped, 30_000, 300_000), None);
    assert_eq!(wait_status(SeenStatus::Stopped, 30_001, 300_000), Some(SeenStatus::Stopped));
    assert_eq!(wait_status(SeenStatus::Running, 1, 300_000), Some(SeenStatus::Running));
    assert_eq!(wait_status(SeenStatus::Running, 300_001, 300_000), Some(SeenStatus::Error));
}

#[test]
fn processes_are_ended_by_and_by() {
    assert_eq!(read_pid(" 4242\n"), Some(4242));
    assert_eq!(read_pid("4294967296"), None);
    assert_eq!(read_pid("x"), None);
    assert_eq!(kill_server_process(true, 0, 30_000), EndStep::Wait);
    assert_eq!(kill_server_process(false, 29_999, 30_000), EndStep::Gone);
    assert_eq!(kill_server_process(true, 30_000, 30_000), EndStep::Kill);
}
