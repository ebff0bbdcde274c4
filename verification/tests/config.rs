//! Profiles: loading, migrating, changing, and keeping their directories apart.
use lbby_core::config::{
    config_path, create_profile, default_profile_name, default_profiles_file, delete_profile,
    generate_remote_token, isolated_server_path, load_config, load_config_checked,
    load_profile_config, load_profiles_file, normalize_path, profiles_path, profiles_state,
    rename_profile, resolve_world_dirs, resolve_world_name, save_config, set_active_profile,
    validate_server_path_ownership, CanonicalPaths, Game, ProfilesFile, ProfilesSource,
    ServerConfig, ServerProfile, ServerType, PROFILES_SCHEMA_VERSION,
};

fn test_profiles(schema_version: u32, active_id: &str, profile_id: &str, name: &str) -> ProfilesFile {
    let mut config = ServerConfig::default();
    config.server_path = "/tmp/test".to_string();
    ProfilesFile {
        schema_version,
        active_id: active_id.to_string(),
        profiles: vec![ServerProfile {
            id: profile_id.to_string(),
            name: name.to_string(),
            config,
        }],
    }
}

fn defaults() -> ProfilesFile {
    default_profiles_file(None, "fresh".to_string())
}

fn nowhere(n: usize) -> CanonicalPaths {
    CanonicalPaths { own: None, profiles: vec![None; n] }
}

#[test]
fn legacy_unversioned_profiles_migrate_to_v1() {
    let source = ProfilesSource::Parsed(test_profiles(0, "abc123", "abc123", "Test Server"));
    let loaded = load_profiles_file(source, defaults());
    assert_eq!(load_config(&loaded).server_path, "/tmp/test");
    assert_eq!(loaded.unwrap().schema_version, 1);
}

#[test]
fn profile_migration_idempotent() {
    let source = ProfilesSource::Parsed(test_profiles(0, "abc123", "abc123", "Test"));
    let first = load_profiles_file(source, defaults()).unwrap();
    assert_eq!(first.schema_version, 1);
    let second = load_profiles_file(ProfilesSource::Parsed(first.clone()), defaults()).unwrap();
    assert_eq!(second.schema_version, 1);
    assert_eq!(format!("{:?}", first), format!("{:?}", second));
}

#[test]
fn future_profile_schema_rejected() {
    let source = ProfilesSource::Parsed(test_profiles(99, "abc123", "abc123", "Test"));
    let result = load_profiles_file(source, defaults());
    assert!(result.is_err(), "expected error for future schema");
    let err = result.unwrap_err();
    assert!(err.contains("99"), "error should mention the version: {}", err);
    assert!(err.contains("does not support"), "error should say unsupported: {}", err);
}

#[test]
fn corrupt_profiles_preserved_not_reset() {
    let source = ProfilesSource::Corrupt {
        error: "expected value".to_string(),
        backup: "/cfg/profiles.json.corrupted".to_string(),
    };
    let result = load_profiles_file(source, defaults());
    assert!(result.is_err(), "expected error for corrupt profiles");
    let err = result.unwrap_err();
    assert!(err.contains("corrupt"), "error should mention corrupt");
    assert!(err.contains("/cfg/profiles.json.corrupted"));
}

#[test]
fn default_profiles_have_schema_version() {
    let result = load_profiles_file(ProfilesSource::Missing, defaults());
    assert!(result.is_ok());
    assert_eq!(result.unwrap().schema_version, PROFILES_SCHEMA_VERSION);
    assert_eq!(PROFILES_SCHEMA_VERSION, 1);
}

#[test]
fn a_failed_load_gives_a_default_config() {
    let failed: Result<ProfilesFile, String> = Err("corrupt".to_string());
    assert_eq!(load_config(&failed).server_path, ServerConfig::default().server_path);
    assert_eq!(load_config_checked(&failed).err().unwrap(), "corrupt");
    assert!(load_profile_config(&failed, "abc").is_none());
}

#[test]
fn only_terraria_profiles_show_its_version() {
    let mut file = test_profiles(1, "abc123", "abc123", "Test");
    file.profiles[0].config.terraria_version = "1.4.4.9".to_string();
    let state = profiles_state(&Ok(file.clone()));
    assert_eq!(state.profiles[0].terraria_version, "");
    file.profiles[0].config.server_type = ServerType::TModLoader;
    let state = profiles_state(&Ok(file));
    assert_eq!(state.profiles[0].terraria_version, "1.4.4.9");
}

#[test]
fn a_file_without_profiles_is_refused() {
    let mut empty = test_profiles(1, "abc123", "abc123", "Test");
    empty.profiles.clear();
    let mut blank = test_profiles(1, "abc123", "abc123", "Test");
    blank.profiles[0].id = "  ".to_string();
    for file in [empty, blank] {
        assert_eq!(
            load_profiles_file(ProfilesSource::Parsed(file), defaults()).unwrap_err(),
            "profiles.json holds no profile with an ID. Repair or delete the file and restart."
        );
    }
}

#[test]
fn blank_profiles_are_dropped() {
    let mut file = test_profiles(1, "abc123", "abc123", "Test");
    file.profiles.push(ServerProfile {
        id: "  ".to_string(),
        name: "blank".to_string(),
        config: ServerConfig::default(),
    });
    let loaded = load_profiles_file(ProfilesSource::Parsed(file), defaults()).unwrap();
    assert_eq!(loaded.profiles.len(), 1);
}

#[test]
fn profiles_are_created_renamed_activated_and_deleted() {
    let mut file = test_profiles(1, "abc123", "abc123", "Test");
    let state = create_profile(
        &mut file,
        "Second",
        false,
        true,
        Some(Game::Minecraft),
        "def456".to_string(),
        "/data/def456/server".to_string(),
        &nowhere(1),
    )
    .unwrap();
    assert_eq!(state.active_id, "def456");
    assert_eq!(state.profiles.len(), 2);
    assert_eq!(file.profiles[1].config.server_path, "/data/def456/server");
    let state = rename_profile(&mut file, "def456", "Renamed").unwrap();
    assert_eq!(state.profiles[1].name, "Renamed");
    assert!(rename_profile(&mut file, "missing", "x").is_err());
    let cfg = set_active_profile(&mut file, "abc123".to_string()).unwrap();
    assert_eq!(cfg.server_path, "/tmp/test");
    assert!(set_active_profile(&mut file, "missing".to_string()).is_err());
    let state = delete_profile(&mut file, "def456").unwrap();
    assert_eq!(state.profiles.len(), 1);
    assert!(delete_profile(&mut file, "abc123").is_err());
}

#[test]
fn a_taken_server_directory_is_refused() {
    let file = test_profiles(1, "abc123", "abc123", "Test");
    let clash = validate_server_path_ownership(&file, "other", "/tmp/test", &nowhere(1));
    assert!(clash.is_err());
    assert!(validate_server_path_ownership(&file, "abc123", "/tmp/test", &nowhere(1)).is_ok());
    assert!(validate_server_path_ownership(&file, "other", "/tmp/else", &nowhere(1)).is_ok());
    assert!(validate_server_path_ownership(&file, "other", "", &nowhere(1)).is_ok());
    let linked = CanonicalPaths {
        own: Some("/real".to_string()),
        profiles: vec![Some("/real".to_string())],
    };
    assert!(validate_server_path_ownership(&file, "other", "/tmp/link", &linked).is_err());
}

#[test]
fn saving_keeps_the_server_directory() {
    let mut file = test_profiles(1, "abc123", "abc123", "Test");
    let mut cfg = file.profiles[0].config.clone();
    cfg.server_name = "Changed".to_string();
    save_config(&mut file, &cfg, "unused".to_string());
    assert_eq!(file.profiles.len(), 1);
    assert_eq!(file.profiles[0].config.server_name, "Changed");
    assert_eq!(file.profiles[0].config.server_path, "/tmp/test");
}

#[test]
fn paths_are_put_together() {
    assert_eq!(config_path("/cfg"), "/cfg/config.json");
    assert_eq!(profiles_path("/cfg"), "/cfg/profiles.json");
    assert_eq!(isolated_server_path("/cfg", "abc"), "/cfg/profiles/abc/server");
    assert_eq!(normalize_path("/a/b/", &None), normalize_path("/a/b", &None));
    assert_eq!(normalize_path("/x", &Some("/real".to_string())), "/real");
}

#[test]
fn world_names_stay_in_the_server_directory() {
    assert_eq!(resolve_world_name(Some("level-name=mine\n")), "mine");
    assert_eq!(resolve_world_name(None), "world");
    assert_eq!(resolve_world_name(Some("level-name=../escape\n")), "world");
    let existing = vec!["mine".to_string(), "mine_nether".to_string()];
    let (world, nether, end) =
        resolve_world_dirs("/srv", Some("level-name=mine\n"), &existing);
    assert_eq!(world, "/srv/mine");
    assert_eq!(nether.as_deref(), Some("/srv/mine_nether"));
    assert_eq!(end, None);
}

#[test]
fn server_types_tell_their_game() {
    assert_eq!(ServerType::TModLoader.label(), "tModLoader");
    assert_eq!(ServerType::TModLoader.name(), "TModLoader");
    assert_eq!(ServerType::TModLoader.key(), "tmodloader");
    assert!(ServerType::Terraria.game().is_terraria());
    assert!(ServerType::Paper.is_plugin_platform());
    assert!(!ServerType::Forge.is_plugin_platform());
}

#[test]
fn tokens_are_fresh() {
    let a = generate_remote_token();
    let b = generate_remote_token();
    assert_eq!(a.len(), 32);
    assert!(a.chars().all(|c| c.is_ascii_hexdigit()));
    assert_ne!(a, b);
}

#[test]
fn profiles_are_summarised() {
    let loaded = Ok(test_profiles(1, "abc123", "abc123", "Test"));
    let state = profiles_state(&loaded);
    assert_eq!(state.active_id, "abc123");
    assert!(state.profiles[0].active);
    assert!(!default_profile_name(&ServerConfig::default()).is_empty());
}

#[test]
fn an_unreadable_file_is_reported() {
    let source = ProfilesSource::Unreadable {
        path: "/cfg/profiles.json".to_string(),
        error: "denied".to_string(),
    };
    let default = default_profiles_file(None, "fresh".to_string());
    assert_eq!(
        load_profiles_file(source, default).unwrap_err(),
        "Failed to read /cfg/profiles.json: denied"
    );
}

#[test]
fn what_is_saved_is_loaded() {
    let mut file = default_profiles_file(None, "a".to_string());
    file.profiles[0].config.server_path = "/srv".to_string();
    let mut cfg = file.profiles[0].config.clone();
    cfg.server_path = "/elsewhere".to_string();
    cfg.server_name = "Mine".to_string();
    save_config(&mut file, &cfg, "unused".to_string());
    let loaded = load_config(&Ok(file));
    assert_eq!(loaded.server_name, "Mine");
    assert_eq!(loaded.server_path, "/srv");
}

#[test]
fn deleting_spares_the_others() {
    let mut file = test_profiles(PROFILES_SCHEMA_VERSION, "a", "a", "First");
    let mut second = file.profiles[0].clone();
    second.id = "b".to_string();
    second.config.server_path = "/tmp/second".to_string();
    file.profiles.push(second);
    delete_profile(&mut file, "a").unwrap();
    assert_eq!(file.active_id, "b");
    let loaded = Ok(file);
    assert!(load_profile_config(&loaded, "a").is_none());
    assert_eq!(load_profile_config(&loaded, "b").unwrap().server_path, "/tmp/second");
}
