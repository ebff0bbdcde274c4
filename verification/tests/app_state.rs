//! The shared state: one operation at a time, and bounded memories.
use lbby_core::app_state::{
    AppState, ModInfo, ModStatus, OperationGuard, OperationKind, OperationSlot,
    PluginCandidateHashes, PluginInfo, PluginPlatform, PluginStatus, PluginUpdateStatus,
    PregenState, ReleaseChannel, StatusReport, UpdateStatus, CONSOLE_BUFFER_CAP,
    RECENT_PLAYERS_CAP,
};

fn at_rest() -> StatusReport {
    StatusReport { at_rest: true, name: "Stopped".to_string() }
}

fn running() -> StatusReport {
    StatusReport { at_rest: false, name: "Running".to_string() }
}

#[test]
fn operation_guard_rejects_overlap_and_resets_on_drop() {
    let mut operation = OperationSlot::new();
    let guard = OperationGuard::acquire(&mut operation, OperationKind::Starting).unwrap();
    assert!(OperationGuard::acquire(&mut operation, OperationKind::BackingUp).is_err());
    guard.release(&mut operation);
    assert!(OperationGuard::acquire(&mut operation, OperationKind::BackingUp).is_ok());
}

#[test]
fn mod_mutation_conflicts_with_installing() {
    let mut operation = OperationSlot::new();
    let _guard = OperationGuard::acquire(&mut operation, OperationKind::Installing).unwrap();
    assert!(
        OperationGuard::acquire(&mut operation, OperationKind::ModMutation).is_err(),
        "ModMutation must be rejected while Installing is held"
    );
}

#[test]
fn installing_conflicts_with_mod_mutation() {
    let mut operation = OperationSlot::new();
    let _guard = OperationGuard::acquire(&mut operation, OperationKind::ModMutation).unwrap();
    assert!(
        OperationGuard::acquire(&mut operation, OperationKind::Installing).is_err(),
        "Installing must be rejected while ModMutation is held"
    );
}

#[test]
fn mod_mutation_conflicts_with_restoring() {
    let mut operation = OperationSlot::new();
    let _guard = OperationGuard::acquire(&mut operation, OperationKind::Restoring).unwrap();
    assert!(
        OperationGuard::acquire(&mut operation, OperationKind::ModMutation).is_err(),
        "ModMutation must be rejected while Restoring is held"
    );
}

#[test]
fn mod_mutation_allows_after_drop() {
    let mut operation = OperationSlot::new();
    let guard = OperationGuard::acquire(&mut operation, OperationKind::ModMutation).unwrap();
    assert!(OperationGuard::acquire(&mut operation, OperationKind::ModMutation).is_err());
    guard.release(&mut operation);
    assert!(
        OperationGuard::acquire(&mut operation, OperationKind::ModMutation).is_ok(),
        "ModMutation must be acquirable after previous guard is dropped"
    );
}

#[test]
fn plugin_mutation_rejected_while_running() {
    let mut state = AppState::new();
    let result = state.require_plugin_mutation_ready(&running(), &running());
    match result {
        Ok(_) => panic!("require_plugin_mutation_ready must reject while server is Running"),
        Err(e) => {
            let msg = e.to_lowercase();
            assert!(
                msg.contains("running"),
                "Error must mention the Running state, got: {msg}"
            );
        }
    }
}

#[test]
fn mutation_guard_takes_the_slot() {
    let mut state = AppState::new();
    let guard = state.require_mod_mutation_ready(&at_rest(), &at_rest()).unwrap();
    assert_eq!(guard.kind, OperationKind::ModMutation);
    let refused = state.require_plugin_mutation_ready(&at_rest(), &at_rest()).unwrap_err();
    assert_eq!(refused, "Another operation is already in progress");
    guard.release(&mut state.current_operation);
    assert!(state.require_plugin_mutation_ready(&at_rest(), &at_rest()).is_ok());
}

#[test]
fn mutation_is_given_up_when_the_server_starts_meanwhile() {
    let mut state = AppState::new();
    let refused = state.require_mod_mutation_ready(&at_rest(), &running()).unwrap_err();
    assert_eq!(refused, "Server state changed during mod operation setup: Running");
    assert_eq!(state.current_operation, OperationSlot::new());
    let refused = state.require_mod_mutation_ready(&running(), &running()).unwrap_err();
    assert_eq!(refused, "Cannot modify mods while server is Running. Stop the server first.");
}

#[test]
fn a_slot_that_was_set_otherwise_is_named() {
    let mut operation = OperationSlot { held: false, kind: OperationKind::BackingUp };
    let refused = OperationGuard::acquire(&mut operation, OperationKind::Starting).unwrap_err();
    assert_eq!(refused, "Another operation is already in progress: BackingUp");
}

#[test]
fn console_keeps_the_newest_lines() {
    let mut state = AppState::new();
    for i in 0..CONSOLE_BUFFER_CAP + 3 {
        state.push_console_line(format!("line {}", i));
    }
    assert_eq!(state.console_buffer.len(), CONSOLE_BUFFER_CAP);
    assert_eq!(state.console_buffer.front().unwrap(), "line 3");
    assert_eq!(
        state.console_buffer.back().unwrap(),
        &format!("line {}", CONSOLE_BUFFER_CAP + 2)
    );
}

#[test]
fn joins_keep_the_latest_players() {
    let mut state = AppState::new();
    for i in 0..RECENT_PLAYERS_CAP + 2 {
        state.record_player_join_at(format!("player{}", i), format!("t{}", i));
    }
    assert_eq!(state.recent_players.len(), RECENT_PLAYERS_CAP);
    assert_eq!(state.recent_players[0], ("player51".to_string(), "t51".to_string()));
    assert_eq!(state.recent_players[RECENT_PLAYERS_CAP - 1].0, "player2");
    state.record_player_join("now".to_string());
    assert_eq!(state.recent_players[0].0, "now");
    assert!(state.recent_players[0].1.contains('T'));
}

#[test]
fn defaults_know_nothing() {
    let info = ModInfo::default();
    assert_eq!(info.status, ModStatus::Readable);
    assert!(info.mod_id.is_none() && info.authors.is_empty());
    assert_eq!(PluginInfo::default().status, PluginStatus::UnknownMetadata);
    assert_eq!(UpdateStatus::default(), UpdateStatus::UpToDate);
    assert_eq!(PluginPlatform::default(), PluginPlatform::Unknown);
    assert_eq!(OperationKind::default(), OperationKind::NoOperation);
    assert!(!PregenState::default().running);
    assert_eq!(ReleaseChannel::default(), ReleaseChannel::Release);
}

#[test]
fn finished_releases_outrank_early_ones() {
    assert!(ReleaseChannel::Release > ReleaseChannel::Beta);
    assert!(ReleaseChannel::Beta > ReleaseChannel::Alpha);
    assert!(ReleaseChannel::Release > ReleaseChannel::Alpha);
    assert!(!(ReleaseChannel::Beta > ReleaseChannel::Beta));
}

#[test]
fn update_targets_are_read() {
    let status = PluginUpdateStatus::UpdateAvailable {
        current_version: Some("1".to_string()),
        target_version: Some("2".to_string()),
        target_filename: "plugin-2.jar".to_string(),
        download_url: "https://example.com/plugin-2.jar".to_string(),
        hashes: PluginCandidateHashes::default(),
        platforms: vec![PluginPlatform::Paper],
        game_versions: vec!["1.20.1".to_string()],
        release_channel: None,
    };
    assert_eq!(status.clone_target_version().as_deref(), Some("2"));
    assert_eq!(status.clone_target_filename().as_deref(), Some("plugin-2.jar"));
    assert_eq!(PluginUpdateStatus::UpToDate.clone_target_version(), None);
    assert_eq!(PluginUpdateStatus::UpToDate.clone_target_filename(), None);
}

#[test]
fn joins_are_stamped_in_utc() {
    let mut state = AppState::new();
    state.record_player_join("Steve".to_string());
    let (name, time) = state.recent_players[0].clone();
    assert_eq!(name, "Steve");
    let shape: String =
        time.chars().map(|c| if c.is_ascii_digit() { '0' } else { c }).collect();
    assert!(shape.starts_with("0000-00-00T00:00:00"), "{}", time);
    let rest = &shape["0000-00-00T00:00:00".len()..];
    assert!(["", ".000", ".000000", ".000000000"].contains(&rest.trim_end_matches("+00:00")));
    assert!(time.ends_with("+00:00"), "{}", time);
}
