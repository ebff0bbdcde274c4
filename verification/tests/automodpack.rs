//! AutoModpack: what fits, what is installed, and the pack for players.
use lbby_core::automodpack::{
    check_installable, client_pack_readme, find_all_installed, find_compatible_asset,
    find_installed,
    installed_status, loader_supported, loader_token, matches_asset, mods_dir, status,
    worth_looking, AutoModpackStatus, GhAsset, GhRelease,
};
use lbby_core::config::ServerType;

fn asset(name: &str) -> GhAsset {
    GhAsset { name: name.to_string(), browser_download_url: format!("https://example.com/{}", name) }
}

fn release(tag: &str, prerelease: bool, draft: bool, names: &[&str]) -> GhRelease {
    GhRelease {
        tag_name: tag.to_string(),
        prerelease,
        draft,
        assets: names.iter().map(|n| asset(n)).collect(),
    }
}

#[test]
fn loaders_are_supported_or_not() {
    for t in [ServerType::Forge, ServerType::NeoForge, ServerType::Fabric, ServerType::SpongeForge] {
        assert!(loader_supported(&t));
        assert!(loader_token(&t).is_some());
    }
    assert!(!loader_supported(&ServerType::Paper));
    assert_eq!(loader_token(&ServerType::Paper), None);
}

#[test]
fn assets_are_told_apart() {
    let forge = "automodpack-mod-4.0.0-beta3+mc1.20.1-forge.jar";
    let neo = "automodpack-mod-4.0.0-beta3+mc1.20.1-neoforge.jar";
    assert!(matches_asset(forge, "1.20.1", "forge"));
    assert!(!matches_asset(neo, "1.20.1", "forge"));
    assert!(matches_asset(neo, "1.20.1", "neoforge"));
    assert!(!matches_asset(forge, "1.21", "forge"));
    assert!(!matches_asset("automodpack+mc1.20.1-forge.zip", "1.20.1", "forge"));
    assert!(matches_asset("AutoModpack-MC1.20.1-Fabric.JAR", "1.20.1", "fabric"));
    assert!(matches_asset("automodpack-4-mc1-20-1-fabric.jar", "1.20.1", "fabric"));
}

#[test]
fn finished_releases_come_first() {
    let releases = vec![
        release("draft", false, true, &["a+mc1.20.1-fabric.jar"]),
        release("beta", true, false, &["b+mc1.20.1-fabric.jar", "b+mc1.21-fabric.jar"]),
        release("old", false, false, &["x+mc1.20.1-forge.jar", "c+mc1.20.1-fabric.jar"]),
    ];
    let (tag, a) = find_compatible_asset("1.20.1", &ServerType::Fabric, &releases).unwrap();
    assert_eq!((tag.as_str(), a.name.as_str()), ("old", "c+mc1.20.1-fabric.jar"));
    assert_eq!(a.browser_download_url, "https://example.com/c+mc1.20.1-fabric.jar");
    let (tag, _) = find_compatible_asset("1.21", &ServerType::Fabric, &releases).unwrap();
    assert_eq!(tag, "beta");
    assert!(find_compatible_asset("1.19", &ServerType::Fabric, &releases)
        .unwrap_err()
        .starts_with("No AutoModpack release found for Minecraft 1.19 on fabric."));
    assert_eq!(
        find_compatible_asset("1.20.1", &ServerType::Paper, &releases).unwrap_err(),
        "AutoModpack doesn't support Paper servers (Forge, NeoForge, and Fabric only)."
    );
}

#[test]
fn the_installed_file_is_found() {
    let names = vec![
        "create.jar".to_string(),
        "automodpack.txt".to_string(),
        "AutoModpack-mod-4.jar".to_string(),
    ];
    assert_eq!(find_installed(&names).as_deref(), Some("AutoModpack-mod-4.jar"));
    assert_eq!(find_installed(&vec!["create.jar".to_string()]), None);
    let two: Vec<String> = ["automodpack-1.jar", "create.jar", "automodpack-2.JAR", "automodpack.txt"]
        .iter()
        .map(|n| n.to_string())
        .collect();
    assert_eq!(find_all_installed(&two), vec!["automodpack-1.jar", "automodpack-2.JAR"]);
}

#[test]
fn servers_are_checked_first() {
    assert_eq!(mods_dir("/srv").unwrap(), "/srv/mods");
    assert_eq!(mods_dir("  ").unwrap_err(), "Choose a server folder first.");
    assert!(check_installable(&ServerType::Forge, "1.20.1").is_ok());
    assert_eq!(
        check_installable(&ServerType::Forge, " ").unwrap_err(),
        "Pick a Minecraft version first."
    );
    assert_eq!(
        check_installable(&ServerType::Vanilla, "1.20.1").unwrap_err(),
        "AutoModpack supports Forge, NeoForge, and Fabric servers only. Current server type: Vanilla."
    );
    assert!(worth_looking(&ServerType::Fabric, "1.20.1"));
    assert!(!worth_looking(&ServerType::Fabric, ""));
}

#[test]
fn statuses_tell_what_is_there() {
    let s = status(
        &ServerType::Fabric,
        Some("a.jar".to_string()),
        Some(("v1".to_string(), asset("b.jar"))),
    );
    assert!(s.installed && s.loader_supported);
    assert_eq!(s.installed_file.as_deref(), Some("a.jar"));
    assert_eq!(s.latest_compatible.as_deref(), Some("v1"));
    assert_eq!(s.latest_asset_name.as_deref(), Some("b.jar"));
    let none = status(&ServerType::Paper, None, None);
    assert!(!none.installed && !none.loader_supported && none.latest_compatible.is_none());
    let done = installed_status("v2".to_string(), "c.jar".to_string());
    assert_eq!(done.installed_file.as_deref(), Some("c.jar"));
    assert!(!AutoModpackStatus::default().installed);
}

#[test]
fn players_are_told_how_to_join() {
    let text = client_pack_readme(
        "My Server",
        Some("abc.playit.gg"),
        "1.20.1",
        &ServerType::Fabric,
        Some("0.15"),
        "automodpack.jar",
    );
    assert!(text.starts_with("How to join My Server\n================================\n\n    Server address:  abc.playit.gg\n\nMinecraft version:  1.20.1\nLoader:             Fabric 0.15\n"));
    assert!(text.contains("Copy `automodpack.jar` into your Minecraft `mods/` folder."));
    assert!(text.ends_with("— Generated by Lbby\n"));
    let bare = client_pack_readme(" ", None, "1.20.1", &ServerType::Forge, None, "a.jar");
    assert!(bare.starts_with("How to join this server\n"));
    assert!(bare.contains("<ask your host>"));
    assert!(bare.contains("Forge (latest)"));
}
