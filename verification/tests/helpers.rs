//! Checksums, addresses, console text, player names and unpacking.
use std::io::Write;

use lbby_core::helpers::{
    check_checksum, check_containment, default_downloads_dir, default_server_path_value,
    downloads_dir_of, extract_target, has_absolute_or_traversal_components,
    is_private_or_local_host, is_public_tunnel_address, is_valid_player_name, parse_octet,
    port_in_use, server_path_below, sha256_hex_string, strip_ansi_codes, verify_download,
};

/// Where the entries of an archive would go.
fn targets(entries: &[&str], prefix: &str) -> Result<Vec<String>, String> {
    let mut w = zip::ZipWriter::new(std::io::Cursor::new(Vec::new()));
    let opts = zip::write::SimpleFileOptions::default()
        .compression_method(zip::CompressionMethod::Stored);
    for name in entries {
        if name.ends_with('/') {
            w.add_directory(*name, opts).unwrap();
        } else {
            w.start_file(*name, opts).unwrap();
            w.write_all(b"payload").unwrap();
        }
    }
    let mut za = zip::ZipArchive::new(w.finish().unwrap()).unwrap();
    let mut out = Vec::new();
    for i in 0..za.len() {
        let entry = za.by_index(i).unwrap();
        let enclosed = entry.enclosed_name().map(|p| p.to_string_lossy().to_string());
        out.push(extract_target(entry.name(), enclosed.as_deref(), "/dest", prefix)?);
    }
    Ok(out)
}

#[test]
fn rejects_dot_dot_traversal() {
    assert!(targets(&["../evil.jar"], "").is_err(), "Must reject ../ traversal");
}

#[test]
fn rejects_deep_dot_dot_traversal() {
    assert!(targets(&["../../evil.jar"], "").is_err(), "Must reject ../../ traversal");
}

#[test]
fn rejects_unix_absolute_path() {
    assert!(targets(&["/evil.jar"], "").is_err(), "Must reject /evil.jar absolute path");
}

#[test]
fn rejects_windows_drive_path() {
    assert!(targets(&["C:/evil.jar"], "").is_err(), "Must reject C:/evil.jar drive path");
}

#[test]
fn rejects_windows_backslash_drive_path() {
    assert!(
        targets(&["C:\\evil.jar"], "").is_err(),
        "Must reject C:\\evil.jar backslash drive path"
    );
}

#[test]
fn rejects_unc_path() {
    assert!(
        targets(&["\\\\server\\share\\evil.jar"], "").is_err(),
        "Must reject \\\\server\\share\\evil.jar UNC path"
    );
}

#[test]
fn rejects_embedded_dot_dot() {
    assert!(
        targets(&["safe/../../evil.jar"], "").is_err(),
        "Must reject embedded ../../ traversal"
    );
}

#[test]
fn safe_relative_entry_extracts_normally() {
    assert_eq!(
        targets(&["mods/example.jar", "config/settings.toml"], "").unwrap(),
        vec!["/dest/mods/example.jar", "/dest/config/settings.toml"]
    );
}

#[test]
fn safe_nested_entry_extracts_normally() {
    assert_eq!(
        targets(&["nested/valid/deep/file.txt"], "").unwrap(),
        vec!["/dest/nested/valid/deep/file.txt"]
    );
}

#[test]
fn prefix_stripping_works_for_safe_entries() {
    assert_eq!(
        targets(&["overrides/mods/example.jar"], "overrides").unwrap(),
        vec!["/dest/mods/example.jar"]
    );
    assert_eq!(
        targets(&["other/mods/example.jar"], "overrides").unwrap(),
        vec!["/dest/other/mods/example.jar"]
    );
}

#[test]
fn prefix_stripping_still_rejects_traversal() {
    assert!(
        targets(&["overrides/../../evil.jar"], "overrides").is_err(),
        "Must reject traversal even with prefix stripping"
    );
}

#[test]
fn directory_entries_extracts_safely() {
    let places = targets(&["mods/", "mods/example.jar"], "").unwrap();
    assert_eq!(places.len(), 2);
    assert_eq!(places[1], "/dest/mods/example.jar");
}

#[test]
fn refusals_name_the_entry() {
    assert_eq!(
        extract_target("../x", None, "/dest", "").unwrap_err(),
        "Zip entry rejected by enclosed_name(): ../x"
    );
    assert_eq!(
        extract_target("a/../x", Some("a/../x"), "/dest", "").unwrap_err(),
        "Zip entry rejected as unsafe path: a/../x"
    );
}

#[test]
fn unsafe_names_are_recognised() {
    for name in [
        "/a",
        "C:",
        "c:\\x",
        "C:/evil.jar",
        "\\\\server\\share",
        "\\evil.jar",
        "a\\b",
        "a\\\\b",
        "a\\..\\b",
        "trailing\\",
        "a/../b",
        "..",
    ] {
        assert!(has_absolute_or_traversal_components(name), "{}", name);
    }
    for name in ["a", "a/b", "a..b", "a..b/c.txt", "nested/valid/deep/file.txt", "C:x"] {
        assert!(!has_absolute_or_traversal_components(name), "{}", name);
    }
}

#[test]
fn entries_must_stay_inside() {
    assert!(check_containment("x", "/dest/mods/x", "/dest").is_ok());
    assert!(check_containment("x", "/dest", "/dest").is_ok());
    assert!(check_containment("x", "/destination/x", "/dest").is_err());
    assert_eq!(
        check_containment("x", "/etc/x", "/dest").unwrap_err(),
        "Zip entry escapes destination: x -> /etc/x"
    );
}

#[test]
fn sha256_is_the_standard_one() {
    assert_eq!(
        sha256_hex_string(b"abc"),
        "ba7816bf8f01cfea414140de5dae2223b00361a396177a9cb410ff61f20015ad"
    );
}

#[test]
fn downloads_are_held_to_their_checksum() {
    let right = "ba7816bf8f01cfea414140de5dae2223b00361a396177a9cb410ff61f20015ad";
    assert!(verify_download("pack", Some(right), b"abc").is_ok());
    assert!(verify_download("pack", None, b"abc").is_ok());
    assert!(verify_download("pack", Some(""), b"abc").is_ok());
    assert_eq!(
        verify_download("pack", Some("00"), b"abc").unwrap_err(),
        format!("pack checksum mismatch: expected 00, got {}", right)
    );
    assert!(check_checksum("pack", Some("a"), "b").is_err());
}

#[test]
fn default_places() {
    assert_eq!(server_path_below(Some("terraria"), Some("/home/u")), "/home/u/terraria-server");
    assert_eq!(server_path_below(None, None), "./minecraft-server");
    assert!(default_server_path_value(Some("minecraft")).ends_with("minecraft-server"));
    assert_eq!(downloads_dir_of(Some("/dl"), Some("/home/u")), "/dl");
    assert_eq!(downloads_dir_of(None, Some("/home/u")), "/home/u");
    assert_eq!(downloads_dir_of(None, None), ".");
    assert!(!default_downloads_dir().is_empty());
}

#[test]
fn private_hosts_are_recognised() {
    for host in [
        "localhost", "LOCALHOST.", "[::1]", "10.0.0.1", "127.0.0.1", "169.254.1.1", "172.16.0.1",
        "172.31.255.255", "192.168.1.5", "10", "+10.1.2.3",
    ] {
        assert!(is_private_or_local_host(host), "{}", host);
    }
    for host in ["8.8.8.8", "172.15.0.1", "172.32.0.1", "example.com", "192.169.0.1", "", "10.x"] {
        assert!(!is_private_or_local_host(host), "{}", host);
    }
}

#[test]
fn octets_are_at_most_255() {
    let parse = |s: &str| parse_octet(&s.chars().collect::<Vec<char>>());
    assert_eq!(parse("0"), Some(0));
    assert_eq!(parse("255"), Some(255));
    assert_eq!(parse("00010"), Some(10));
    assert_eq!(parse("256"), None);
    assert_eq!(parse("99999999999999999999"), None);
    assert_eq!(parse(""), None);
    assert_eq!(parse("+"), None);
    assert_eq!(parse("-1"), None);
}

#[test]
fn tunnel_addresses_are_recognised() {
    assert!(is_public_tunnel_address("abc.playit.gg"));
    assert!(is_public_tunnel_address("abc.playit.cloud"));
    assert!(!is_public_tunnel_address("example.com"));
    assert!(is_public_tunnel_address("example.com:25565"));
    assert!(!is_public_tunnel_address("192.168.0.2:25565"));
    assert!(!is_public_tunnel_address("[::1]:25565"));
}

#[test]
fn taken_ports_are_reported() {
    assert_eq!(
        port_in_use(25565, "Address in use"),
        "Port 25565 is already in use (Address in use). Close the other application or change the port in Settings."
    );
}

#[test]
fn escape_sequences_are_stripped() {
    assert_eq!(strip_ansi_codes("\x1b[31mred\x1b[0m plain"), "red plain");
    assert_eq!(strip_ansi_codes("\x1b]0;title\x07text"), "text");
    assert_eq!(strip_ansi_codes("\x1b]0;title\x1b\\text"), "\\text");
    assert_eq!(strip_ansi_codes("a\x1bb"), "ab");
    assert_eq!(strip_ansi_codes("cut \x1b[12"), "cut ");
    assert_eq!(strip_ansi_codes("plain"), "plain");
    for text in ["\x1b[31mred\x1b[0m", "\x1b\x1b[1mx", "\x1b]0;t\x1b[1m"] {
        let once = strip_ansi_codes(text);
        assert_eq!(strip_ansi_codes(&once), once);
    }
}

#[test]
fn player_names_are_checked() {
    for name in ["ab", "Player_1", "ABCDEFGHIJKLMNOP"] {
        assert!(is_valid_player_name(name), "{}", name);
    }
    for name in ["a", "ABCDEFGHIJKLMNOPQ", "with space", "dash-ed", "é2", ""] {
        assert!(!is_valid_player_name(name), "{}", name);
    }
}
