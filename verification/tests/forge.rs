//! What launches a server of the Forge family.
use lbby_core::forge::{
    detect_modloader_launch, launch_paths, LaunchFiles, ModLoaderKind, ModLoaderLaunch,
};

fn files(script: bool, args_file: bool, jar: bool, universal_jar: bool) -> LaunchFiles {
    LaunchFiles { script, args_file, jar, universal_jar }
}

#[test]
fn accepts_modern_forge_without_server_jar() {
    let launch = detect_modloader_launch(
        "/srv",
        ModLoaderKind::Forge,
        "1.20.1-47.4.10",
        false,
        files(true, true, false, false),
        &vec![],
    );
    assert_eq!(launch, Ok(ModLoaderLaunch::Script("/srv/run.sh".to_string())));
}

#[test]
fn accepts_legacy_forge_jar() {
    let launch = detect_modloader_launch(
        "/srv",
        ModLoaderKind::Forge,
        "1.16.5-36.2.39",
        false,
        files(false, false, true, false),
        &vec![],
    );
    assert_eq!(
        launch,
        Ok(ModLoaderLaunch::LegacyJar("/srv/forge-1.16.5-36.2.39.jar".to_string()))
    );
}

#[test]
fn rejects_partial_modern_layout() {
    let found = vec!["run.sh".to_string(), "eula.txt".to_string()];
    let launch = detect_modloader_launch(
        "/srv",
        ModLoaderKind::Forge,
        "1.20.1-47.4.10",
        false,
        files(true, false, false, false),
        &found,
    );
    assert_eq!(
        launch.unwrap_err(),
        "forge installation is incomplete: expected run.sh with /srv/libraries/net/minecraftforge/forge/1.20.1-47.4.10/unix_args.txt or a legacy launcher jar in /srv. Files found: [\"eula.txt\", \"run.sh\"]"
    );
}

#[test]
fn universal_jar_is_the_last_resort() {
    let launch = detect_modloader_launch(
        "/srv",
        ModLoaderKind::NeoForge,
        "21.1.0",
        true,
        files(false, true, false, true),
        &vec![],
    );
    assert_eq!(
        launch,
        Ok(ModLoaderLaunch::LegacyJar("/srv/neoforge-21.1.0-universal.jar".to_string()))
    );
}

#[test]
fn windows_has_other_names() {
    let paths = launch_paths("C:/srv", ModLoaderKind::NeoForge, "21.1.0", true);
    assert_eq!(paths.script, "C:/srv/run.bat");
    assert_eq!(paths.args_file, "C:/srv/libraries/net/neoforged/neoforge/21.1.0/win_args.txt");
    assert_eq!(ModLoaderKind::NeoForge.prefix(), "neoforge");
}
