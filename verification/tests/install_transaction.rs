//! Putting a new build in place, or leaving everything as it was.
use std::collections::HashMap;

use lbby_core::install_transaction::{
    copy_persistent_state, detect_world_name, Commit, CommitAction, InstallTransaction,
    StepOutcome, TransactionMeta, TransactionPhase,
};

/// Directories by path, each with what it holds.
type Dirs = HashMap<String, String>;

fn begin(name: &str) -> InstallTransaction {
    InstallTransaction::begin(&format!("/servers/{}", name), Some("/servers"), "test").unwrap()
}

/// Runs a commit. The action of that number fails, if one is given.
fn commit(
    txn: InstallTransaction,
    dirs: &mut Dirs,
    fails: Option<usize>,
) -> (Result<TransactionMeta, String>, Vec<String>) {
    let mut written = Vec::new();
    let (mut commit, mut action) = Commit::begin(txn, Some("/servers".to_string()));
    let mut count = 0;
    loop {
        let failing = fails == Some(count);
        count += 1;
        let outcome = match &action {
            CommitAction::Done(result) => return (result.clone(), written),
            _ if failing => StepOutcome::Failed("disk full".to_string()),
            CommitAction::SaveMarker => StepOutcome::Fine(true),
            CommitAction::LookForLive => {
                StepOutcome::Fine(dirs.contains_key(&commit.meta.live_path))
            }
            CommitAction::Rename { from, to } => {
                let held = dirs.remove(from).unwrap();
                dirs.insert(to.clone(), held);
                StepOutcome::Fine(true)
            }
            CommitAction::WriteLiveMarker(path) => {
                written.push(path.clone());
                StepOutcome::Fine(true)
            }
            CommitAction::RemoveMarker(path) => {
                written.push(format!("-{}", path));
                StepOutcome::Fine(true)
            }
        };
        action = commit.step(&outcome);
    }
}

#[test]
fn fresh_install_creates_staging() {
    let txn = InstallTransaction::begin(
        "/servers/my-server",
        Some("/servers"),
        "curseforge-manifest",
    )
    .unwrap();
    assert!(txn.staging_path().starts_with("/servers/.lbby-staging/my-server-"));
    assert_eq!(txn.live_path(), "/servers/my-server");
    assert_eq!(txn.meta().phase, TransactionPhase::Building);
    assert_eq!(txn.meta().source, "curseforge-manifest");
    assert_eq!(txn.meta().transaction_id.len(), 12);
}

#[test]
fn staging_path_is_sibling_of_live() {
    let txn = begin("server-a");
    assert!(txn.staging_path().starts_with("/servers/.lbby-staging"));
    assert!(!txn.staging_path().starts_with("/servers/server-a"));
}

#[test]
fn transaction_marker_persists() {
    let txn = begin("srv");
    assert_eq!(
        txn.meta().marker_path(),
        format!("{}/transaction.json", txn.staging_path())
    );
    assert_eq!(txn.meta().phase, TransactionPhase::Building);
}

#[test]
fn commit_swaps_staging_to_live() {
    let txn = begin("srv");
    let staging = txn.staging_path().to_string();
    let mut dirs = Dirs::new();
    dirs.insert("/servers/srv".to_string(), "old data".to_string());
    dirs.insert(staging.clone(), "new data".to_string());
    let (result, _) = commit(txn, &mut dirs, None);
    let meta = result.unwrap();
    assert_eq!(dirs["/servers/srv"], "new data");
    assert!(!dirs.contains_key(&staging));
    assert_eq!(meta.phase, TransactionPhase::Committed);
    let backup = meta.backup_path.unwrap();
    assert_eq!(dirs[&backup], "old data");
}

#[test]
fn fresh_install_commit_no_backup() {
    let txn = begin("new-server");
    let mut dirs = Dirs::new();
    dirs.insert(txn.staging_path().to_string(), "data".to_string());
    let (result, _) = commit(txn, &mut dirs, None);
    let meta = result.unwrap();
    assert_eq!(dirs["/servers/new-server"], "data");
    assert!(meta.backup_path.is_none());
}

#[test]
fn failed_commit_leaves_the_old_build() {
    for failing in 0..4 {
        let txn = begin("srv");
        let mut dirs = Dirs::new();
        dirs.insert("/servers/srv".to_string(), "old data".to_string());
        dirs.insert(txn.staging_path().to_string(), "new data".to_string());
        let (result, _) = commit(txn, &mut dirs, Some(failing));
        if result.is_err() {
            assert_eq!(dirs["/servers/srv"], "old data");
            assert!(result.unwrap_err().contains("disk full"));
        } else {
            assert_eq!(dirs["/servers/srv"], "new data");
        }
    }
}

#[test]
fn rollback_before_commit_preserves_live() {
    let txn = begin("srv");
    let plan = txn.rollback(true, false, true);
    assert!(plan.remove_staging);
    assert!(plan.restore.is_none());
}

#[test]
fn rollback_during_commit_restores_live() {
    let txn = begin("srv");
    let backup = format!(
        "/servers/.lbby-staging/{}-{}-backup",
        txn.meta().server_id,
        txn.meta().transaction_id
    );
    let mut meta = txn.meta().clone();
    meta.phase = TransactionPhase::Committing;
    meta.backup_path = Some(backup.clone());
    let txn2 = InstallTransaction { meta };
    let plan = txn2.rollback(true, true, false);
    assert_eq!(plan.restore, Some((backup, "/servers/srv".to_string())));
    assert!(txn2.rollback(true, true, true).restore.is_none());
}

#[test]
fn persistent_state_preserved_on_update() {
    let (dirs, files) = copy_persistent_state(None);
    assert_eq!(dirs, vec!["world", "world_nether", "world_the_end"]);
    for name in ["server.properties", "ops.json", "whitelist.json"] {
        assert!(files.contains(&name.to_string()));
    }
    let (dirs, _) = copy_persistent_state(Some("level-name=mine\n"));
    assert_eq!(dirs[0], "mine");
}

#[test]
fn pack_managed_config_updated_on_commit() {
    let (dirs, files) = copy_persistent_state(None);
    assert!(!dirs.contains(&"config".to_string()));
    assert!(!files.contains(&"config".to_string()));
}

#[test]
fn duplicate_transactions_no_collision() {
    let txn1 = begin("srv");
    let txn2 = begin("srv");
    assert_ne!(txn1.meta().transaction_id, txn2.meta().transaction_id);
    assert_ne!(txn1.staging_path(), txn2.staging_path());
}

#[test]
fn stale_transaction_detection() {
    let meta = TransactionMeta {
        server_id: "srv".to_string(),
        transaction_id: "deadbeef1234".to_string(),
        source: "test".to_string(),
        created_at: "2026-09-09T00:00:00Z".to_string(),
        phase: TransactionPhase::Building,
        live_path: "/servers/srv".to_string(),
        staging_path: "/servers/.lbby-staging/srv-deadbeef1234".to_string(),
        backup_path: None,
    };
    let mut finished = meta.clone();
    finished.phase = TransactionPhase::Committed;
    let mut neighbour = meta.clone();
    neighbour.transaction_id = "0123456789ab".to_string();
    neighbour.live_path = "/servers/other".to_string();
    neighbour.staging_path = "/servers/.lbby-staging/other-0123456789ab".to_string();
    let found = vec![
        ("/servers/.lbby-staging/srv-deadbeef1234".to_string(), meta),
        ("/servers/.lbby-staging/other-0123456789ab".to_string(), neighbour),
        ("/servers/.lbby-staging/other".to_string(), finished),
    ];
    let (other, _) = InstallTransaction::find_stale("/servers/other", found.clone());
    assert_eq!(other.len(), 1);
    assert_eq!(other[0].transaction_id, "0123456789ab");
    let (stale, done) = InstallTransaction::find_stale("/servers/srv", found);
    assert_eq!(stale.len(), 1);
    assert_eq!(stale[0].transaction_id, "deadbeef1234");
    assert_eq!(stale[0].phase, TransactionPhase::Building);
    assert_eq!(done, vec!["/servers/.lbby-staging/other"]);
}

#[test]
fn world_name_detection() {
    assert_eq!(detect_world_name(None), "world");
    assert_eq!(detect_world_name(Some("level-name=my_world\nmotd=test\n")), "my_world");
    assert_eq!(detect_world_name(Some("# comment\nlevel-name=custom_world\n")), "custom_world");
}

#[test]
fn commit_marker_in_live_dir() {
    let txn = begin("srv");
    let mut dirs = Dirs::new();
    dirs.insert(txn.staging_path().to_string(), "data".to_string());
    let (result, written) = commit(txn, &mut dirs, None);
    assert_eq!(
        written,
        vec!["/servers/srv/.lbby-transaction.json", "-/servers/srv/transaction.json"]
    );
    assert_eq!(result.unwrap().phase, TransactionPhase::Committed);
}

#[test]
fn a_staging_marker_that_stays_is_reported() {
    let txn = begin("srv");
    let mut dirs = Dirs::new();
    dirs.insert(txn.staging_path().to_string(), "data".to_string());
    let (result, written) = commit(txn, &mut dirs, Some(4));
    assert_eq!(written, vec!["/servers/srv/.lbby-transaction.json"]);
    assert_eq!(result.err().unwrap(), "Failed to remove staging marker: disk full");
    assert_eq!(dirs["/servers/srv"], "data");
}

#[test]
fn paused_transaction_can_be_resumed() {
    let txn = begin("srv");
    assert!(txn.rolls_back_when_dropped());
    let meta = txn.pause();
    assert_eq!(meta.phase, TransactionPhase::PendingUserAction);
    assert!(InstallTransaction::resume(meta.clone(), true, true).is_ok());
    assert_eq!(
        InstallTransaction::resume(meta.clone(), false, true).err().unwrap(),
        "Staging directory no longer exists"
    );
    assert_eq!(
        InstallTransaction::resume(meta.clone(), true, false).err().unwrap(),
        "Transaction marker no longer exists"
    );
    let mut building = meta;
    building.phase = TransactionPhase::Building;
    assert!(InstallTransaction::resume(building, true, true)
        .err()
        .unwrap()
        .starts_with("Cannot resume transaction in "));
}

#[test]
fn a_path_without_a_parent_is_refused() {
    assert_eq!(
        InstallTransaction::begin("/", None, "test").err().unwrap(),
        "Cannot determine parent of /"
    );
}

#[test]
fn fresh_begin_can_be_fixed() {
    let txn = InstallTransaction::begin_as(
        "/servers/srv",
        Some("/servers"),
        "test",
        "0123456789ab",
        "2026-09-09T00:00:00Z",
    )
    .unwrap();
    assert_eq!(txn.staging_path(), "/servers/.lbby-staging/srv-0123456789ab");
    assert_eq!(txn.meta().created_at, "2026-09-09T00:00:00Z");
}
