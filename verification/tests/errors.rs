//! Errors with codes that stay the same.
use lbby_core::errors::SafetyError;
use lbby_core::structured::Data;

fn s(x: &str) -> String {
    x.to_string()
}

fn all() -> Vec<(SafetyError, &'static str, &'static str)> {
    vec![
        (
            SafetyError::ServerRunning { status: s("Running"), operation: s("restore") },
            "SERVER_RUNNING",
            "Cannot restore while server is Running. Stop the server and wait for shutdown to complete.",
        ),
        (
            SafetyError::ServerStarting { operation: s("import") },
            "SERVER_STARTING",
            "Cannot import while server is starting. Wait for startup to complete or fail.",
        ),
        (
            SafetyError::RestartPending { operation: s("import"), profile_id: s("p1") },
            "RESTART_PENDING",
            "Cannot import while a restart is pending for profile 'p1'. Cancel the restart first.",
        ),
        (
            SafetyError::ConflictingOperation { current: s("backup"), requested: s("restore") },
            "CONFLICTING_OPERATION",
            "Cannot restore while backup is in progress. Wait for it to complete.",
        ),
        (
            SafetyError::UnsafeArchiveEntry { entry_path: s("../x"), reason: s("leads up") },
            "UNSAFE_ARCHIVE_ENTRY",
            "Unsafe archive entry '../x': leads up",
        ),
        (
            SafetyError::InvalidArchive { reason: s("no zip") },
            "INVALID_ARCHIVE",
            "Invalid archive: no zip",
        ),
        (
            SafetyError::RestoreValidationFailed { reason: s("empty") },
            "RESTORE_VALIDATION_FAILED",
            "Restore validation failed: empty",
        ),
        (
            SafetyError::RestoreRollbackFailed { reason: s("denied"), rollback_path: Some(s("/r")) },
            "RESTORE_ROLLBACK_FAILED",
            "Restore rollback failed at '/r': denied. Original data may be partially restored.",
        ),
        (
            SafetyError::RestoreRollbackFailed { reason: s("denied"), rollback_path: None },
            "RESTORE_ROLLBACK_FAILED",
            "Restore rollback failed: denied. Original data may be partially restored.",
        ),
        (
            SafetyError::SecretAccessForbidden,
            "SECRET_ACCESS_FORBIDDEN",
            "Access to raw secrets is not allowed. Use safe diagnostic endpoints instead.",
        ),
        (
            SafetyError::PathOwnershipViolation { path: s("/p"), reason: s("taken") },
            "PATH_OWNERSHIP_VIOLATION",
            "Path ownership violation at '/p': taken",
        ),
        (
            SafetyError::OperationCancelled { operation: s("import"), reason: s("user") },
            "OPERATION_CANCELLED",
            "Operation 'import' cancelled: user",
        ),
        (
            SafetyError::CrashLoopBlocked { attempts: 3, window_secs: 600 },
            "CRASH_LOOP_BLOCKED",
            "Auto-restart disabled — server crashed 3+ times in 600 seconds. Fix the issue and start manually.",
        ),
    ]
}

#[test]
fn errors_have_codes_and_texts() {
    for (error, code, text) in all() {
        assert_eq!(error.error_code(), code);
        assert_eq!(error.message(), text);
    }
}

#[test]
fn errors_become_tables() {
    for (error, code, text) in all() {
        let table = error.to_json();
        assert_eq!(table.get("code").and_then(|d| d.as_str()), Some(code));
        assert_eq!(table.get("message").and_then(|d| d.as_str()), Some(text));
        assert!(matches!(table, Data::Table(entries) if entries.len() == 2));
    }
}
