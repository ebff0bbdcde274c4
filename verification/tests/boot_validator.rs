//! Trial boots: what may start, what counts as ready, and what must be gone
//! afterwards.
use lbby_core::boot_validator::{
    build_launch_spec, cleanup_outcome, cleanup_validation_world, crash_reports_to_keep,
    diagnostic_json, diagnostic_log, diagnostics_dir, is_oom_line, is_ready_signal,
    is_validation_world, verify_validation_cleanup, BootFailure, BootFailureReason, BootResult,
    BootSuccess, BootTimeout, BootValidator, BootWatch, CappedLog, LaunchCommand, OutputEvent,
    ReadStep, WatchStep, DEFAULT_TIMEOUT, OUTPUT_CAP_BYTES, READ_TIMEOUT,
};
use lbby_core::config::ServerConfig;
use lbby_core::node_api::MinecraftSpec;
use lbby_core::server_properties::{
    extract_prop, restore_server_properties, validation_properties, write_validation_properties,
    write_validation_properties_with_backup, PropertiesFiles,
};

fn line(text: &str) -> OutputEvent {
    OutputEvent::Line(text.to_string())
}

fn launch_command() -> LaunchCommand {
    LaunchCommand {
        executable: "/usr/bin/java".to_string(),
        args: vec!["-jar".to_string(), "server.jar".to_string(), "nogui".to_string()],
        env_set: vec![("JAVA_HOME".to_string(), "/usr".to_string())],
        env_remove: vec![
            "DYLD_LIBRARY_PATH".to_string(),
            "DYLD_FALLBACK_LIBRARY_PATH".to_string(),
        ],
    }
}

fn failed(log_tail: &str) -> BootResult {
    BootResult::Failed(BootFailure {
        exit_code: Some(1),
        reason: BootFailureReason::ProcessExited,
        log_tail: log_tail.to_string(),
    })
}

#[test]
fn eula_not_accepted_returns_failure() {
    let validator = BootValidator::new();
    match validator.preflight(None, Some(25565)) {
        Err(BootResult::Failed(f)) => assert_eq!(f.reason, BootFailureReason::EulaNotAccepted),
        _ => panic!("Expected EulaNotAccepted failure"),
    }
}

#[test]
fn eula_false_returns_failure() {
    let validator = BootValidator::new();
    match validator.preflight(Some("eula=false\n"), Some(25565)) {
        Err(BootResult::Failed(f)) => assert_eq!(f.reason, BootFailureReason::EulaNotAccepted),
        _ => panic!("Expected EulaNotAccepted failure"),
    }
}

#[test]
fn eula_consent_false_prevents_eula_write() {
    let spec = MinecraftSpec::default();
    assert!(!spec.eula_accepted, "MinecraftSpec.eula_accepted must default to false");
}

#[test]
fn eula_consent_true_permits_eula_write() {
    let mut spec = MinecraftSpec::default();
    spec.eula_accepted = true;
    assert!(spec.eula_accepted);
}

#[test]
fn server_config_eula_consent_defaults_false() {
    let cfg = ServerConfig::default();
    assert!(!cfg.eula_accepted, "ServerConfig.eula_accepted must default to false");
}

#[test]
fn boot_validation_cannot_bypass_eula_state() {
    let mut cfg = ServerConfig::default();
    cfg.eula_accepted = true;
    let validator = BootValidator::new();
    match validator.preflight(None, Some(25565)) {
        Err(BootResult::Failed(f)) => assert_eq!(f.reason, BootFailureReason::EulaNotAccepted),
        _ => panic!("Expected EulaNotAccepted even with cfg.eula_accepted=true"),
    }
}

#[test]
fn preflight_needs_a_port() {
    let validator = BootValidator::new();
    assert!(matches!(validator.preflight(Some("eula=true\n"), Some(4242)), Ok(4242)));
    match validator.preflight(Some("eula=true\n"), None) {
        Err(BootResult::Failed(f)) => assert_eq!(f.reason, BootFailureReason::PortUnavailable),
        _ => panic!("Expected PortUnavailable"),
    }
}

#[test]
fn detects_standard_ready_signal() {
    let line = "[15:30:45] [Server thread/INFO] [net.minecraft.server.MinecraftServer]: Done (3.456s)! For help, type \"help\"";
    assert!(is_ready_signal(line));
}

#[test]
fn detects_ready_with_type_help() {
    let line = "[15:30:45] [Server thread/INFO] [net.minecraft.server.MinecraftServer]: Done (1.234s)! For help, type \"help\"";
    assert!(is_ready_signal(line));
}

#[test]
fn rejects_non_ready_line() {
    assert!(!is_ready_signal("[Server thread/INFO]: Loading properties"));
    assert!(!is_ready_signal("[Server thread/INFO]: Preparing spawn area"));
}

#[test]
fn detects_oom_error() {
    assert!(is_oom_line("java.lang.OutOfMemoryError: Java heap space"));
}

#[test]
fn capped_log_respects_size_limit() {
    let mut log = CappedLog::new(100);
    for i in 0..200 {
        log.push_line(&format!("line {}", i));
    }
    let output = log.to_string();
    assert!(output.len() <= 200);
    assert!(output.contains("line 199"));
    assert!(!output.contains("line 0"));
}

#[test]
fn capped_log_keeps_the_longest_end_that_fits() {
    let mut log = CappedLog::new(12);
    for line in ["one", "two", "three", "four"] {
        log.push_line(line);
    }
    assert_eq!(log.to_string(), "three\nfour");
    log.push_line("longer than the limit");
    assert_eq!(log.to_string(), "longer than the limit");
}

#[test]
fn capped_log_preserves_order() {
    let mut log = CappedLog::new(1000);
    log.push_line("first");
    log.push_line("second");
    log.push_line("third");
    let output = log.to_string();
    let first_pos = output.find("first").unwrap();
    let second_pos = output.find("second").unwrap();
    let third_pos = output.find("third").unwrap();
    assert!(first_pos < second_pos);
    assert!(second_pos < third_pos);
}

#[test]
fn validation_properties_override_port_and_world() {
    let mut files = PropertiesFiles {
        properties: Some("server-port=25565\nlevel-name=myworld\nmotd=Hello\n".to_string()),
        original: None,
    };
    write_validation_properties(&mut files, 12345, ".lbby-validation-test");
    let content = files.properties.unwrap();
    assert!(content.contains("server-port=12345"));
    assert!(content.contains("level-name=.lbby-validation-test"));
    assert!(content.contains("server-ip=127.0.0.1"));
    assert!(content.contains("enable-rcon=false"));
    assert!(content.contains("motd=Hello"));
}

#[test]
fn validation_properties_add_missing_keys() {
    let mut files = PropertiesFiles { properties: None, original: None };
    write_validation_properties(&mut files, 9999, ".lbby-validation-test");
    let content = files.properties.unwrap();
    assert!(content.contains("server-port=9999"));
    assert!(content.contains("level-name=.lbby-validation-test"));
    assert!(content.contains("server-ip=127.0.0.1"));
}

#[test]
fn validation_properties_preserves_online_mode() {
    let content = validation_properties(
        "online-mode=false\nserver-port=25565\n",
        12345,
        ".lbby-validation-test",
    );
    assert!(content.contains("online-mode=false"));
}

#[test]
fn cleanup_removes_validation_world() {
    let entries = vec![
        (".lbby-validation-world-abc123".to_string(), true),
        ("myworld".to_string(), true),
    ];
    assert_eq!(cleanup_validation_world(&entries), vec![".lbby-validation-world-abc123"]);
}

#[test]
fn cleanup_preserves_normal_worlds() {
    let entries = vec![
        ("world".to_string(), true),
        ("world_nether".to_string(), true),
        ("myworld".to_string(), true),
        (".lbby-validation-world-xyz".to_string(), true),
        (".lbby-validation-world-file".to_string(), false),
    ];
    assert_eq!(cleanup_validation_world(&entries), vec![".lbby-validation-world-xyz"]);
}

#[test]
fn restore_server_properties_recovers_original() {
    let original = "server-port=25565\nlevel-name=myworld\nmotd=Hello\n";
    let mut files =
        PropertiesFiles { properties: Some(original.to_string()), original: None };
    write_validation_properties_with_backup(&mut files, 12345, ".lbby-validation-test");
    assert!(files.properties.as_ref().unwrap().contains("server-port=12345"));
    restore_server_properties(&mut files);
    assert_eq!(files.properties.unwrap(), original);
}

#[test]
fn restore_removes_temp_file_when_no_original() {
    let mut files = PropertiesFiles { properties: None, original: None };
    write_validation_properties(&mut files, 12345, ".lbby-validation-test");
    assert!(files.properties.is_some());
    restore_server_properties(&mut files);
    assert!(files.properties.is_none());
}

#[test]
fn launch_spec_fabric_uses_server_jar() {
    let spec = build_launch_spec(17, Some(Ok(launch_command()))).unwrap();
    assert!(spec.args.contains(&"server.jar".to_string()));
    assert!(spec.args.contains(&"nogui".to_string()));
    assert_eq!(spec.executable, "/usr/bin/java");
    assert_eq!(spec.env, vec![("JAVA_HOME".to_string(), "/usr".to_string())]);
    assert!(spec.env_remove.contains(&"DYLD_LIBRARY_PATH".to_string()));
}

#[test]
fn launch_spec_forge_requires_version() {
    let result = build_launch_spec(17, Some(Err("No Forge version selected".to_string())));
    assert!(result.is_err());
    assert!(result.unwrap_err().contains("No Forge version"));
}

#[test]
fn launch_spec_needs_java() {
    assert_eq!(build_launch_spec(21, None).unwrap_err(), "Java 21 not found");
}

#[test]
fn simulated_successful_boot() {
    let mut watch = BootWatch::new(&BootValidator::with_timeout(10_000));
    assert!(matches!(watch.next_read(0), ReadStep::Read { wait: READ_TIMEOUT }));
    let ready = line("[Server thread/INFO]: Done (1.234s)! For help, type \"help\"");
    assert!(matches!(watch.on_event(&ready), WatchStep::Ready));
    match watch.succeeded(1_500, true) {
        BootResult::Success(s) => {
            assert!(s.elapsed < 10_000);
            assert!(s.graceful_shutdown);
            assert!(s.log_tail.contains("Done (1.234s)!"));
        }
        other => panic!("Expected Success, got: {:?}", other),
    }
}

#[test]
fn simulated_process_exits_before_ready() {
    let mut watch = BootWatch::new(&BootValidator::with_timeout(10_000));
    assert!(matches!(watch.on_event(&line("Loading...")), WatchStep::Continue));
    match watch.on_event(&OutputEvent::Closed { exit_code: Some(1) }) {
        WatchStep::Finished { kill: false, result: BootResult::Failed(f) } => {
            assert_eq!(f.reason, BootFailureReason::ProcessExited);
            assert_eq!(f.exit_code, Some(1));
        }
        other => panic!("Expected Failed(ProcessExited), got: {:?}", other),
    }
}

#[test]
fn simulated_timeout() {
    let mut watch = BootWatch::new(&BootValidator::with_timeout(3_000));
    watch.on_event(&line("Preparing spawn area: 0%"));
    assert!(matches!(watch.next_read(2_500), ReadStep::Read { wait: 500 }));
    match watch.next_read(3_000) {
        ReadStep::TimedOut(BootResult::Timeout(t)) => {
            assert!(t.waited >= 2_000);
            assert!(t.log_tail.contains("Preparing spawn area"));
        }
        other => panic!("Expected Timeout, got: {:?}", other),
    }
}

#[test]
fn simulated_output_cap_no_oom() {
    let mut watch = BootWatch::new(&BootValidator::with_timeout(30_000));
    for i in 0..10_000 {
        let spam = format!("Spam line {}: {}", i, "x".repeat(200));
        assert!(matches!(watch.on_event(&line(&spam)), WatchStep::Continue));
    }
    let ready = line("[Server thread/INFO]: Done (0.5s)! For help, type \"help\"");
    assert!(matches!(watch.on_event(&ready), WatchStep::Ready));
    match watch.succeeded(5_000, true) {
        BootResult::Success(s) => assert!(s.log_tail.len() <= OUTPUT_CAP_BYTES * 2),
        other => panic!("Expected Success, got: {:?}", other),
    }
}

#[test]
fn simulated_oom_detection() {
    let mut watch = BootWatch::new(&BootValidator::with_timeout(10_000));
    watch.on_event(&line("Loading some stuff..."));
    match watch.on_event(&line("java.lang.OutOfMemoryError: Java heap space")) {
        WatchStep::Finished { kill: true, result: BootResult::Failed(f) } => {
            assert_eq!(f.reason, BootFailureReason::OutOfMemory)
        }
        other => panic!("Expected Failed(OutOfMemory), got: {:?}", other),
    }
}

#[test]
fn errors_of_the_process_end_the_watch() {
    let mut watch = BootWatch::new(&BootValidator::new());
    assert!(matches!(watch.on_event(&OutputEvent::StillRunning), WatchStep::Continue));
    match watch.on_event(&OutputEvent::ReadError("broken pipe".to_string())) {
        WatchStep::Finished { kill: true, result: BootResult::Failed(f) } => assert_eq!(
            f.reason,
            BootFailureReason::Unknown("stdout read error: broken pipe".to_string())
        ),
        other => panic!("Expected Failed, got: {:?}", other),
    }
    match watch.on_event(&OutputEvent::WaitError("no child".to_string())) {
        WatchStep::Finished { kill: true, result: BootResult::Failed(f) } => assert_eq!(
            f.reason,
            BootFailureReason::Unknown("try_wait error: no child".to_string())
        ),
        other => panic!("Expected Failed, got: {:?}", other),
    }
    assert!(matches!(
        watch.on_event(&OutputEvent::Exited { exit_code: None }),
        WatchStep::Finished { kill: false, result: BootResult::Failed(_) }
    ));
}

#[test]
fn early_failure_restores_server_properties() {
    let original = "server-port=25565\nlevel-name=myworld\n";
    let mut files =
        PropertiesFiles { properties: Some(original.to_string()), original: None };
    write_validation_properties_with_backup(&mut files, 12345, ".lbby-validation-test");
    assert!(files.properties.as_ref().unwrap().contains("server-port=12345"));
    restore_server_properties(&mut files);
    let restored = files.properties.unwrap();
    assert!(restored.contains("server-port=25565"));
    assert!(restored.contains("level-name=myworld"));
    assert!(files.original.is_none());
}

#[test]
fn early_failure_removes_validation_world() {
    let entries = vec![
        (".lbby-validation-world-abc123".to_string(), true),
        ("myworld".to_string(), true),
    ];
    let doomed = cleanup_validation_world(&entries);
    assert!(doomed.contains(&".lbby-validation-world-abc123".to_string()));
    assert!(!doomed.contains(&"myworld".to_string()));
}

#[test]
fn cleanup_residue_blocks_commit() {
    let names = vec![".lbby-validation-world-residue".to_string()];
    let result = verify_validation_cleanup(&names, false, None);
    assert!(result.is_err());
    assert!(result.unwrap_err().contains("residue"));
}

#[test]
fn backup_marker_removed_after_cleanup() {
    let mut files = PropertiesFiles {
        properties: Some("server-port=25565\n".to_string()),
        original: None,
    };
    write_validation_properties_with_backup(&mut files, 12345, ".lbby-validation-test");
    assert!(files.original.is_some());
    restore_server_properties(&mut files);
    assert!(files.original.is_none());
}

#[test]
fn production_custom_world_untouched() {
    let mut files = PropertiesFiles {
        properties: Some("level-name=MyCustomWorld\nserver-port=25565\n".to_string()),
        original: None,
    };
    write_validation_properties_with_backup(&mut files, 12345, ".lbby-validation-temp");
    assert!(files.properties.as_ref().unwrap().contains("level-name=.lbby-validation-temp"));
    restore_server_properties(&mut files);
    assert!(files.properties.unwrap().contains("level-name=MyCustomWorld"));
    assert!(!is_validation_world("MyCustomWorld"));
}

#[test]
fn ready_vanilla_format() {
    assert!(is_ready_signal("[Server thread/INFO]: Done (3.456s)! For help, type \"help\""));
}

#[test]
fn ready_forge_format() {
    assert!(is_ready_signal(
        "[Server thread/INFO] [net.minecraft.server.MinecraftServer]: Done (12.345s)! For help, type \"help\""
    ));
}

#[test]
fn reject_server_started() {
    assert!(!is_ready_signal("[Server thread/INFO]: Server started"));
    assert!(!is_ready_signal("Server started"));
}

#[test]
fn reject_preparing_spawn() {
    assert!(!is_ready_signal("[Server thread/INFO]: Preparing spawn area: 42%"));
}

#[test]
fn failed_validation_diagnostics_saved_outside_live() {
    let dir = diagnostics_dir(
        Some("/data/servers"),
        "/data/servers/.lbby-staging/test-server-txn-123",
        "test-server",
        "txn-123",
    );
    assert_eq!(dir, "/data/servers/.lbby-diagnostics/test-server/txn-123");
    assert_eq!(diagnostic_log(&failed("test log tail")).as_deref(), Some("test log tail"));
    assert!(diagnostic_json(&failed("test log tail"), "0").is_some());
    let names = vec!["crash-2026-09-09.txt".to_string()];
    assert_eq!(crash_reports_to_keep(&names), vec!["crash-2026-09-09.txt"]);
}

#[test]
fn diagnostics_without_a_parent_stand_in_staging() {
    assert_eq!(
        diagnostics_dir(None, "/staging", "s", "t"),
        "/staging/.lbby-diagnostics/s/t"
    );
}

#[test]
fn diagnostics_keep_the_last_lines() {
    let lines: Vec<String> = (0..300).map(|i| format!("line {}", i)).collect();
    let kept = diagnostic_log(&failed(&lines.join("\n"))).unwrap();
    assert_eq!(kept.lines().count(), 200);
    assert!(kept.starts_with("line 100\n"));
    assert!(kept.ends_with("line 299"));
}

#[test]
fn nothing_is_kept_of_a_success() {
    let success = BootResult::Success(BootSuccess {
        elapsed: 1,
        graceful_shutdown: true,
        log_tail: "log".to_string(),
    });
    assert!(diagnostic_log(&success).is_none());
    assert!(diagnostic_json(&success, "0").is_none());
    let timeout = BootResult::Timeout(BootTimeout { waited: 1_000, log_tail: "t".to_string() });
    assert_eq!(
        diagnostic_json(&timeout, "1").as_deref(),
        Some("{\"status\":\"timeout\",\"waited_secs\":1}")
    );
}

#[test]
fn diagnostics_are_json() {
    let failure = |reason, exit_code| {
        BootResult::Failed(BootFailure { exit_code, reason, log_tail: String::new() })
    };
    assert_eq!(
        diagnostic_json(&failure(BootFailureReason::ProcessExited, Some(-1)), "0").unwrap(),
        "{\"status\":\"failed\",\"reason\":\"ProcessExited\",\"exit_code\":-1}"
    );
    let odd = BootFailureReason::Unknown("a \"b\"\n\u{1}\\".to_string());
    let text = diagnostic_json(&failure(odd.clone(), None), "0").unwrap();
    let value: serde_json::Value = serde_json::from_str(&text).unwrap();
    assert_eq!(value["reason"].as_str(), Some(odd.name().as_str()));
    assert!(value["exit_code"].is_null());
}

#[test]
fn newest_crash_reports_are_kept() {
    let mut names: Vec<String> = (1..8).map(|i| format!("crash-{}.txt", i)).collect();
    names.push("notes.md".to_string());
    assert_eq!(
        crash_reports_to_keep(&names),
        vec!["crash-7.txt", "crash-6.txt", "crash-5.txt", "crash-4.txt", "crash-3.txt"]
    );
}

#[test]
fn verify_validation_cleanup_passes_on_clean_staging() {
    let names = vec!["server.properties".to_string(), "myworld".to_string()];
    let result = verify_validation_cleanup(
        &names,
        false,
        Some("server-port=25565\nlevel-name=myworld\n"),
    );
    assert!(result.is_ok(), "Clean staging should pass: {:?}", result.err());
}

#[test]
fn verify_validation_cleanup_finds_backup_marker() {
    let names = vec![".lbby-original-server.properties".to_string()];
    let result = verify_validation_cleanup(&names, true, None);
    assert!(result.is_err());
    assert!(result.unwrap_err().contains("backup marker"));
}

#[test]
fn verify_validation_cleanup_finds_contaminated_level_name() {
    let names = vec!["server.properties".to_string()];
    let result = verify_validation_cleanup(
        &names,
        false,
        Some("level-name=.lbby-validation-world-abc123\n"),
    );
    assert!(result.is_err());
    assert!(result.unwrap_err().contains("level-name"));
}

#[test]
fn cleanup_failures_are_reported_together() {
    assert!(cleanup_outcome(Ok(()), Ok(())).is_ok());
    assert_eq!(
        cleanup_outcome(Err("a".to_string()), Err("b".to_string())).unwrap_err(),
        "world cleanup: a; properties restore: b"
    );
    assert!(cleanup_outcome(Err("a".to_string()), Ok(())).is_err());
    assert!(cleanup_outcome(Ok(()), Err("b".to_string())).is_err());
}

#[test]
fn a_failed_cleanup_spoils_a_success() {
    let validator = BootValidator::new();
    assert_eq!(validator.timeout, DEFAULT_TIMEOUT);
    let success = BootResult::Success(BootSuccess {
        elapsed: 1,
        graceful_shutdown: true,
        log_tail: String::new(),
    });
    assert!(!matches!(
        validator.after_cleanup(success.clone(), Err("residue".to_string())),
        BootResult::Success(_)
    ));
    assert!(matches!(validator.after_cleanup(success, Ok(())), BootResult::Success(_)));
    assert!(matches!(validator.overlay_failed("e"), BootResult::Failed(_)));
    assert!(matches!(validator.launch_spec_failed("e".to_string()), BootResult::Failed(_)));
    assert!(matches!(validator.spawn_failed("e"), BootResult::Failed(_)));
}

#[test]
fn trial_worlds_are_recognised_by_name() {
    let name = BootValidator::new().world_name("abc123");
    assert!(is_validation_world(&name));
    assert!(name.contains("abc123"));
}

#[test]
fn properties_are_read_by_key() {
    let content = "# level-name=commented\nlevel-name = spaced \nserver-port=25565\n";
    assert_eq!(extract_prop(content, "server-port").as_deref(), Some("25565"));
    assert_eq!(extract_prop(content, "motd"), None);
}

#[test]
fn reasons_have_texts() {
    assert!(!BootFailureReason::OutOfMemory.message().is_empty());
    assert_eq!(BootFailureReason::Unknown("x".to_string()).message().contains('x'), true);
}
