//! What the dashboard is sent, and what its reply means.
use lbby_core::config::{Game, ProfileSummary, ProfilesState, ServerType};
use lbby_core::heartbeat::{
    authorization, beat_interval, build_snapshots, get_hostname, heartbeat_url, license_update,
    tier_changed, wait_after_beat, HeartbeatResponse, LiveStats, RETRY_SECS,
};

fn profile(id: &str, active: bool, game: Game) -> ProfileSummary {
    ProfileSummary {
        id: id.to_string(),
        name: format!("Server {}", id),
        active,
        minecraft_version: "1.20.1".to_string(),
        terraria_version: "1.4.4".to_string(),
        server_type: ServerType::NeoForge,
        server_path: String::new(),
        setup_complete: true,
        game,
    }
}

fn state() -> ProfilesState {
    ProfilesState {
        active_id: "a".to_string(),
        profiles: vec![profile("a", true, Game::Minecraft), profile("b", false, Game::Terraria)],
        active_game: Game::Minecraft,
    }
}

fn stats() -> LiveStats<f32> {
    LiveStats { players_online: 3, players_max: 20, tps: Some(19.5), ram_used_mb: 512, ram_max_mb: 0 }
}

#[test]
fn the_running_profile_is_measured() {
    let sent = build_snapshots(&state(), Some("running"), Some(&stats()));
    assert_eq!(sent.len(), 2);
    assert_eq!(sent[0].local_id, "a");
    assert_eq!(sent[0].server_type, "neoforge");
    assert_eq!(sent[0].status, "running");
    assert_eq!(sent[0].player_count, 3);
    assert_eq!(sent[0].max_players, 20);
    assert_eq!(sent[0].tps, Some(19.5));
    assert_eq!(sent[0].memory_used_mb, Some(512));
    assert_eq!(sent[0].memory_max_mb, None);
}

#[test]
fn other_profiles_are_stopped() {
    let sent = build_snapshots(&state(), Some("running"), Some(&stats()));
    assert_eq!(sent[1].status, "stopped");
    assert_eq!(sent[1].minecraft_version, "1.4.4");
    assert_eq!(sent[1].player_count, 0);
    assert_eq!(sent[1].tps, None);
}

#[test]
fn a_server_that_does_not_run_is_not_measured() {
    let sent = build_snapshots(&state(), Some("starting"), Some(&stats()));
    assert_eq!(sent[0].status, "starting");
    assert_eq!(sent[0].player_count, 0);
    let sent = build_snapshots(&state(), Some(""), Some(&stats()));
    assert_eq!(sent[0].status, "stopped");
    let sent: Vec<_> = build_snapshots::<f32>(&state(), None, None);
    assert_eq!(sent[0].status, "stopped");
    let sent: Vec<_> = build_snapshots::<f32>(&state(), Some("running"), None);
    assert_eq!((sent[0].player_count, sent[0].tps), (0, None));
}

#[test]
fn requests_are_addressed() {
    assert_eq!(heartbeat_url("https://web.lbby.net//"), "https://web.lbby.net/api/app/heartbeat");
    assert_eq!(authorization("tok").as_deref(), Some("Bearer tok"));
    assert_eq!(authorization(""), None);
}

#[test]
fn intervals_are_bounded() {
    assert_eq!(beat_interval(0), None);
    assert_eq!(beat_interval(1), Some(30));
    assert_eq!(beat_interval(300), Some(300));
    assert_eq!(wait_after_beat(true, 300), 300);
    assert_eq!(wait_after_beat(false, 300), RETRY_SECS);
    assert_eq!(wait_after_beat(false, 30), 30);
}

#[test]
fn replies_change_the_license() {
    let reply = HeartbeatResponse { license_token: Some("jwt".to_string()), revoked: Some(true) };
    let update = license_update(&reply);
    assert_eq!(update.activate.as_deref(), Some("jwt"));
    assert!(update.deactivate);
    assert!(tier_changed(&update, true, false));
    assert!(tier_changed(&update, false, true));
    assert!(!tier_changed(&update, false, false));
    let nothing = license_update(&HeartbeatResponse { license_token: None, revoked: Some(false) });
    assert!(!tier_changed(&nothing, true, true));
}

#[test]
fn hostnames_are_looked_for_in_order() {
    assert_eq!(get_hostname(Some("h"), Some("c"), Some("p")), "h");
    assert_eq!(get_hostname(Some(""), Some("c"), Some("p")), "c");
    assert_eq!(get_hostname(None, None, Some(" p \n")), "p");
    assert_eq!(get_hostname(None, Some(""), Some(" \n")), "unknown");
    assert_eq!(get_hostname(None, None, None), "unknown");
}
