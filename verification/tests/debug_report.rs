//! The report for troubleshooting.
use lbby_core::config::ServerConfig;
use lbby_core::debug_report::{
    app_info_at, build_app_info, build_system_info, crash_entry_name, debug_filename,
    default_debug_filename, export_debug_report, log_entry_name, logs_for_report, redact_secret,
    timestamp_ddmmyyyy, DiskFacts, EntryContent, ServerFiles, SystemFacts,
};
use lbby_core::file_cache::FileStamp;

fn at(secs: i64) -> Option<FileStamp> {
    Some(FileStamp { secs, nanos: 0 })
}

/// A text with `0` for each digit.
fn shape(s: &str) -> String {
    s.chars().map(|c| if c.is_ascii_digit() { '0' } else { c }).collect()
}

#[test]
fn reports_are_named_by_the_day() {
    assert_eq!(debug_filename("09-09-2026"), "debug-report-09-09-2026.zip");
    let today = default_debug_filename();
    assert_eq!(shape(&today), "debug-report-00-00-0000.zip");
    assert_eq!(shape(&timestamp_ddmmyyyy()), "00-00-0000");
    assert_eq!(log_entry_name("latest.log"), "logs/latest.log");
    assert_eq!(crash_entry_name("c.txt"), "crash-reports/c.txt");
}

#[test]
fn secrets_are_blacked_out() {
    let toml = "agent = 1\n  secret_key = \"abc\"\nsecret_key=\"def\"\nother = \"secret_key\"\n";
    assert_eq!(
        redact_secret(toml),
        "agent = 1\nsecret_key = \"<REDACTED>\"\nsecret_key = \"<REDACTED>\"\nother = \"secret_key\""
    );
    assert_eq!(redact_secret(""), "");
}

#[test]
fn the_application_is_described() {
    let mut cfg = ServerConfig::default();
    cfg.server_path = "/srv".to_string();
    cfg.loader_version = None;
    let text = app_info_at(&cfg, "2026-09-09 10:00:00 +0000", "0.1.0", "linux", "unix", "x86_64");
    assert!(text.starts_with("Lbby Debug Report\n========================\nGenerated: 2026-09-09 10:00:00 +0000\nApp version: 0.1.0\nOS: linux (unix / x86_64)\n\n=== Server Config ===\nserver_type: Vanilla\n"));
    assert!(text.contains("\nloader_version: (none)\n"));
    assert!(text.contains("\nsetup_complete: false\n"));
    assert!(text.contains("\nserver_path: /srv\n"));
    let now = shape(&build_app_info(&cfg, "0.1.0", "linux", "unix", "x86_64"));
    let made = now.lines().find_map(|l| l.strip_prefix("Generated: ")).unwrap();
    assert_eq!(made.replace("+0000", "-0000"), "0000-00-00 00:00:00 -0000");
}

#[test]
fn the_machine_is_described() {
    let facts = SystemFacts {
        hostname: Some("box".to_string()),
        os_long: None,
        kernel: Some("6.1".to_string()),
        cpu_brand: None,
        physical_cores: 4,
        logical_cores: 8,
        total_memory: 8 * 1024 * 1024 * 1024,
        used_memory: 3 * 1024 * 1024,
        available_memory: 1024,
        disks: vec![DiskFacts {
            name: "sda".to_string(),
            mount_point: "/".to_string(),
            available_space: 5 * 1024 * 1024,
            total_space: 10 * 1024 * 1024,
        }],
    };
    assert_eq!(
        build_system_info(&facts),
        "=== System Info ===\nHostname: box\nOS: unknown\nKernel: 6.1\nCPU: unknown\nCPU cores (physical): 4\nCPU cores (logical): 8\nTotal RAM: 8192 MB\nUsed RAM: 3 MB\nFree RAM: 0 MB\n\n=== Disks ===\n  - sda mounted at / (5 MB free / 10 MB total)\n"
    );
}

#[test]
fn the_newest_logs_go_in() {
    let files: Vec<(String, Option<FileStamp>)> = vec![
        ("a".to_string(), at(1)),
        ("b".to_string(), at(7)),
        ("unknown".to_string(), None),
        ("c".to_string(), at(3)),
        ("d".to_string(), at(7)),
        ("e".to_string(), at(2)),
        ("f".to_string(), at(9)),
    ];
    let names: Vec<String> = logs_for_report(&files).into_iter().map(|f| f.0).collect();
    assert_eq!(names, vec!["f", "d", "b", "c", "e"]);
}

#[test]
fn reports_hold_what_was_found() {
    let found = ServerFiles {
        properties: Some("motd=x".to_string()),
        jvm_args: None,
        logs: vec![("old.log".to_string(), at(1)), ("latest.log".to_string(), at(2))],
        crash_reports: vec!["crash.txt".to_string()],
    };
    let entries = export_debug_report(
        "app".to_string(),
        "system".to_string(),
        &Some(found),
        Some("secret_key = 1"),
    );
    let names: Vec<&str> = entries.iter().map(|e| e.name.as_str()).collect();
    assert_eq!(
        names,
        vec![
            "app-info.txt",
            "system-info.txt",
            "server.properties",
            "logs/latest.log",
            "logs/old.log",
            "crash-reports/crash.txt",
            "playit.toml-redacted"
        ]
    );
    assert!(matches!(&entries[0].content, EntryContent::Text(t) if t == "app"));
    assert!(matches!(&entries[3].content, EntryContent::Log(n) if n == "latest.log"));
    assert!(matches!(&entries[5].content, EntryContent::CrashReport(n) if n == "crash.txt"));
    assert!(matches!(&entries[6].content, EntryContent::Text(t) if t == "secret_key = \"<REDACTED>\""));
    let bare = export_debug_report("app".to_string(), "system".to_string(), &None, None);
    assert_eq!(bare.len(), 2);
}
