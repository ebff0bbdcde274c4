//! Errors of operations that must not do harm, each with a code that stays the
//! same and a text for the user.
use vstd::prelude::*;

use crate::structured;
use crate::structured::{Data, DataView};
use crate::text;
use crate::text_laws;
use crate::text::dec_string;

verus! {

/// Why an operation that must not do harm was refused or failed.
#[derive(Debug, Clone)]
pub enum SafetyError {
    /// The server runs.
    ServerRunning { status: String, operation: String },
    /// The server starts.
    ServerStarting { operation: String },
    /// A restart is due.
    RestartPending { operation: String, profile_id: String },
    /// Another operation is under way.
    ConflictingOperation { current: String, requested: String },
    /// An archive holds a name that must not be used.
    UnsafeArchiveEntry { entry_path: String, reason: String },
    /// An archive cannot be read.
    InvalidArchive { reason: String },
    /// A restore was given up before anything changed.
    RestoreValidationFailed { reason: String },
    /// A restore failed, and could not be taken back.
    RestoreRollbackFailed { reason: String, rollback_path: Option<String> },
    /// A secret was asked for.
    SecretAccessForbidden,
    /// A path belongs to another profile.
    PathOwnershipViolation { path: String, reason: String },
    /// An operation was given up.
    OperationCancelled { operation: String, reason: String },
    /// The server crashed too often.
    CrashLoopBlocked { attempts: usize, window_secs: u64 },
}

/// The code of an error.
pub open spec fn code_of(e: SafetyError) -> Seq<char> {
    match e {
        SafetyError::ServerRunning { .. } => "SERVER_RUNNING"@,
        SafetyError::ServerStarting { .. } => "SERVER_STARTING"@,
        SafetyError::RestartPending { .. } => "RESTART_PENDING"@,
        SafetyError::ConflictingOperation { .. } => "CONFLICTING_OPERATION"@,
        SafetyError::UnsafeArchiveEntry { .. } => "UNSAFE_ARCHIVE_ENTRY"@,
        SafetyError::InvalidArchive { .. } => "INVALID_ARCHIVE"@,
        SafetyError::RestoreValidationFailed { .. } => "RESTORE_VALIDATION_FAILED"@,
        SafetyError::RestoreRollbackFailed { .. } => "RESTORE_ROLLBACK_FAILED"@,
        SafetyError::SecretAccessForbidden => "SECRET_ACCESS_FORBIDDEN"@,
        SafetyError::PathOwnershipViolation { .. } => "PATH_OWNERSHIP_VIOLATION"@,
        SafetyError::OperationCancelled { .. } => "OPERATION_CANCELLED"@,
        SafetyError::CrashLoopBlocked { .. } => "CRASH_LOOP_BLOCKED"@,
    }
}

/// The text of an error.
pub open spec fn message_of(e: SafetyError) -> Seq<char> {
    match e {
        SafetyError::ServerRunning { status, operation } =>
            "Cannot "@ + operation@ + " while server is "@ + status@
                + ". Stop the server and wait for shutdown to complete."@,
        SafetyError::ServerStarting { operation } =>
            "Cannot "@ + operation@
                + " while server is starting. Wait for startup to complete or fail."@,
        SafetyError::RestartPending { operation, profile_id } =>
            "Cannot "@ + operation@ + " while a restart is pending for profile '"@ + profile_id@
                + "'. Cancel the restart first."@,
        SafetyError::ConflictingOperation { current, requested } =>
            "Cannot "@ + requested@ + " while "@ + current@
                + " is in progress. Wait for it to complete."@,
        SafetyError::UnsafeArchiveEntry { entry_path, reason } =>
            "Unsafe archive entry '"@ + entry_path@ + "': "@ + reason@,
        SafetyError::InvalidArchive { reason } => "Invalid archive: "@ + reason@,
        SafetyError::RestoreValidationFailed { reason } => "Restore validation failed: "@ + reason@,
        SafetyError::RestoreRollbackFailed { reason, rollback_path } => match rollback_path {
            Some(p) => "Restore rollback failed at '"@ + p@ + "': "@ + reason@
                + ". Original data may be partially restored."@,
            None => "Restore rollback failed: "@ + reason@
                + ". Original data may be partially restored."@,
        },
        SafetyError::SecretAccessForbidden =>
            "Access to raw secrets is not allowed. Use safe diagnostic endpoints instead."@,
        SafetyError::PathOwnershipViolation { path, reason } =>
            "Path ownership violation at '"@ + path@ + "': "@ + reason@,
        SafetyError::OperationCancelled { operation, reason } =>
            "Operation '"@ + operation@ + "' cancelled: "@ + reason@,
        SafetyError::CrashLoopBlocked { attempts, window_secs } =>
            "Auto-restart disabled — server crashed "@ + text::dec(attempts as nat)
                + "+ times in "@ + text::dec(window_secs as nat)
                + " seconds. Fix the issue and start manually."@,
    }
}

impl SafetyError {
    /// The code of the error.
    pub fn error_code(&self) -> (r: &'static str)
        ensures
            r@ == code_of(*self),
    {
        match self {
            SafetyError::ServerRunning { .. } => "SERVER_RUNNING",
            SafetyError::ServerStarting { .. } => "SERVER_STARTING",
            SafetyError::RestartPending { .. } => "RESTART_PENDING",
            SafetyError::ConflictingOperation { .. } => "CONFLICTING_OPERATION",
            SafetyError::UnsafeArchiveEntry { .. } => "UNSAFE_ARCHIVE_ENTRY",
            SafetyError::InvalidArchive { .. } => "INVALID_ARCHIVE",
            SafetyError::RestoreValidationFailed { .. } => "RESTORE_VALIDATION_FAILED",
            SafetyError::RestoreRollbackFailed { .. } => "RESTORE_ROLLBACK_FAILED",
            SafetyError::SecretAccessForbidden => "SECRET_ACCESS_FORBIDDEN",
            SafetyError::PathOwnershipViolation { .. } => "PATH_OWNERSHIP_VIOLATION",
            SafetyError::OperationCancelled { .. } => "OPERATION_CANCELLED",
            SafetyError::CrashLoopBlocked { .. } => "CRASH_LOOP_BLOCKED",
        }
    }

    /// The text of the error.
    pub fn message(&self) -> (r: String)
        ensures
            r@ == message_of(*self),
    {
        match self {
            SafetyError::ServerRunning { status, operation } => {
                let mut s = String::from_str("Cannot ");
                s.append(operation.as_str());
                s.append(" while server is ");
                s.append(status.as_str());
                s.append(". Stop the server and wait for shutdown to complete.");
                s
            },
            SafetyError::ServerStarting { operation } => {
                let mut s = String::from_str("Cannot ");
                s.append(operation.as_str());
                s.append(" while server is starting. Wait for startup to complete or fail.");
                s
            },
            SafetyError::RestartPending { operation, profile_id } => {
                let mut s = String::from_str("Cannot ");
                s.append(operation.as_str());
                s.append(" while a restart is pending for profile '");
                s.append(profile_id.as_str());
                s.append("'. Cancel the restart first.");
                s
            },
            SafetyError::ConflictingOperation { current, requested } => {
                let mut s = String::from_str("Cannot ");
                s.append(requested.as_str());
                s.append(" while ");
                s.append(current.as_str());
                s.append(" is in progress. Wait for it to complete.");
                s
            },
            SafetyError::UnsafeArchiveEntry { entry_path, reason } => {
                let mut s = String::from_str("Unsafe archive entry '");
                s.append(entry_path.as_str());
                s.append("': ");
                s.append(reason.as_str());
                s
            },
            SafetyError::InvalidArchive { reason } => {
                let mut s = String::from_str("Invalid archive: ");
                s.append(reason.as_str());
                s
            },
            SafetyError::RestoreValidationFailed { reason } => {
                let mut s = String::from_str("Restore validation failed: ");
                s.append(reason.as_str());
                s
            },
            SafetyError::RestoreRollbackFailed { reason, rollback_path } => match rollback_path {
                Some(p) => {
                    let mut s = String::from_str("Restore rollback failed at '");
                    s.append(p.as_str());
                    s.append("': ");
                    s.append(reason.as_str());
                    s.append(". Original data may be partially restored.");
                    s
                },
                None => {
                    let mut s = String::from_str("Restore rollback failed: ");
                    s.append(reason.as_str());
                    s.append(". Original data may be partially restored.");
                    s
                },
            },
            SafetyError::SecretAccessForbidden => {
                let s = String::from_str("Access to raw secrets is not allowed. Use safe diagnostic endpoints instead.");
                s
            },
            SafetyError::PathOwnershipViolation { path, reason } => {
                let mut s = String::from_str("Path ownership violation at '");
                s.append(path.as_str());
                s.append("': ");
                s.append(reason.as_str());
                s
            },
            SafetyError::OperationCancelled { operation, reason } => {
                let mut s = String::from_str("Operation '");
                s.append(operation.as_str());
                s.append("' cancelled: ");
                s.append(reason.as_str());
                s
            },
            SafetyError::CrashLoopBlocked { attempts, window_secs } => {
                let mut s = String::from_str("Auto-restart disabled — server crashed ");
                s.append(dec_string(*attempts as u64).as_str());
                s.append("+ times in ");
                s.append(dec_string(*window_secs as u64).as_str());
                s.append(" seconds. Fix the issue and start manually.");
                s
            },
        }
    }

    /// The error as a table with its code and its text.
    pub fn to_json(&self) -> (r: Data)
        ensures
            r@ == DataView::Table(
                seq![
                    ("code"@, DataView::Text(code_of(*self))),
                    ("message"@, DataView::Text(message_of(*self))),
                ],
            ),
    {
        let code = String::from_str(self.error_code());
        let message = self.message();
        let mut entries: Vec<(String, Data)> = Vec::new();
        entries.push((String::from_str("code"), Data::Text(code)));
        entries.push((String::from_str("message"), Data::Text(message)));
        let r = Data::Table(entries);
        proof {
            reveal_with_fuel(structured::shape, 3);
        }
        assert(r@->Table_0 =~= seq![
            ("code"@, DataView::Text(code_of(*self))),
            ("message"@, DataView::Text(message_of(*self))),
        ]);
        r
    }
}

/// Which variant an error is.
pub open spec fn variant_of(e: SafetyError) -> int {
    match e {
        SafetyError::ServerRunning { .. } => 0,
        SafetyError::ServerStarting { .. } => 1,
        SafetyError::RestartPending { .. } => 2,
        SafetyError::ConflictingOperation { .. } => 3,
        SafetyError::UnsafeArchiveEntry { .. } => 4,
        SafetyError::InvalidArchive { .. } => 5,
        SafetyError::RestoreValidationFailed { .. } => 6,
        SafetyError::RestoreRollbackFailed { .. } => 7,
        SafetyError::SecretAccessForbidden => 8,
        SafetyError::PathOwnershipViolation { .. } => 9,
        SafetyError::OperationCancelled { .. } => 10,
        SafetyError::CrashLoopBlocked { .. } => 11,
    }
}

/// Errors of different kinds have different codes.
pub proof fn law_codes_tell_errors_apart(a: SafetyError, b: SafetyError)
    requires
        code_of(a) == code_of(b),
    ensures
        variant_of(a) == variant_of(b),
{
    reveal_strlit("SERVER_RUNNING");
    assert("SERVER_RUNNING"@.len() == 14);
    reveal_strlit("SERVER_STARTING");
    assert("SERVER_STARTING"@.len() == 15);
    reveal_strlit("RESTART_PENDING");
    assert("RESTART_PENDING"@.len() == 15);
    reveal_strlit("CONFLICTING_OPERATION");
    assert("CONFLICTING_OPERATION"@.len() == 21);
    reveal_strlit("UNSAFE_ARCHIVE_ENTRY");
    assert("UNSAFE_ARCHIVE_ENTRY"@.len() == 20);
    reveal_strlit("INVALID_ARCHIVE");
    assert("INVALID_ARCHIVE"@.len() == 15);
    reveal_strlit("RESTORE_VALIDATION_FAILED");
    assert("RESTORE_VALIDATION_FAILED"@.len() == 25);
    reveal_strlit("RESTORE_ROLLBACK_FAILED");
    assert("RESTORE_ROLLBACK_FAILED"@.len() == 23);
    reveal_strlit("SECRET_ACCESS_FORBIDDEN");
    assert("SECRET_ACCESS_FORBIDDEN"@.len() == 23);
    reveal_strlit("PATH_OWNERSHIP_VIOLATION");
    assert("PATH_OWNERSHIP_VIOLATION"@.len() == 24);
    reveal_strlit("OPERATION_CANCELLED");
    assert("OPERATION_CANCELLED"@.len() == 19);
    reveal_strlit("CRASH_LOOP_BLOCKED");
    assert("CRASH_LOOP_BLOCKED"@.len() == 18);
    assert(code_of(a).len() == code_of(b).len());
    assert(code_of(a)[0] == code_of(b)[0]);
    assert("SERVER_STARTING"@[0] == 'S');
    assert("RESTART_PENDING"@[0] == 'R');
    assert("INVALID_ARCHIVE"@[0] == 'I');
    assert("RESTORE_ROLLBACK_FAILED"@[0] == 'R');
    assert("SECRET_ACCESS_FORBIDDEN"@[0] == 'S');
}

/// The text of each error says what is in the way of what, or what is wrong and
/// where.
pub proof fn law_messages_say_what_is_wrong(e: SafetyError)
    ensures
        e matches SafetyError::ServerRunning { status, operation } ==> text::contains(
            message_of(e),
            status@,
        ) && text::starts_with(message_of(e), "Cannot "@ + operation@),
        e matches SafetyError::ServerStarting { operation } ==> text::starts_with(
            message_of(e),
            "Cannot "@ + operation@,
        ),
        e matches SafetyError::RestartPending { operation, profile_id } ==> text::contains(
            message_of(e),
            profile_id@,
        ) && text::starts_with(message_of(e), "Cannot "@ + operation@),
        e matches SafetyError::ConflictingOperation { current, requested } ==> text::contains(
            message_of(e),
            current@,
        ) && text::starts_with(message_of(e), "Cannot "@ + requested@),
        e matches SafetyError::UnsafeArchiveEntry { entry_path, reason } ==> text::contains(
            message_of(e),
            entry_path@,
        ) && text::ends_with(message_of(e), reason@),
        e matches SafetyError::InvalidArchive { reason } ==> text::ends_with(
            message_of(e),
            reason@,
        ),
        e matches SafetyError::RestoreValidationFailed { reason } ==> text::ends_with(
            message_of(e),
            reason@,
        ),
        e matches SafetyError::RestoreRollbackFailed { reason, rollback_path } ==> text::contains(
            message_of(e),
            reason@,
        ) && (rollback_path is Some ==> text::contains(message_of(e), rollback_path->0@)),
        e matches SafetyError::PathOwnershipViolation { path, reason } ==> text::contains(
            message_of(e),
            path@,
        ) && text::ends_with(message_of(e), reason@),
        e matches SafetyError::OperationCancelled { operation, reason } ==> text::contains(
            message_of(e),
            operation@,
        ) && text::ends_with(message_of(e), reason@),
        e matches SafetyError::CrashLoopBlocked { attempts, window_secs } ==> text::contains(
            message_of(e),
            text::dec(attempts as nat),
        ) && text::contains(message_of(e), text::dec(window_secs as nat)),
{
    match e {
        SafetyError::ServerRunning { status, operation } => {
            let a = "Cannot "@ + operation@;
            let b = " while server is "@;
            let c = ". Stop the server and wait for shutdown to complete."@;
            text_laws::law_contains_what_was_put_in(a + b, status@, c);
            text_laws::law_ends(a, b + status@ + c);
            assert(a + (b + status@ + c) =~= message_of(e));
        },
        SafetyError::ServerStarting { operation } => {
            text_laws::law_ends(
                "Cannot "@ + operation@,
                " while server is starting. Wait for startup to complete or fail."@,
            );
        },
        SafetyError::RestartPending { operation, profile_id } => {
            let a = "Cannot "@ + operation@;
            let b = " while a restart is pending for profile '"@;
            let c = "'. Cancel the restart first."@;
            text_laws::law_contains_what_was_put_in(a + b, profile_id@, c);
            text_laws::law_ends(a, b + profile_id@ + c);
            assert(a + (b + profile_id@ + c) =~= message_of(e));
        },
        SafetyError::ConflictingOperation { current, requested } => {
            let a = "Cannot "@ + requested@;
            let b = " while "@;
            let c = " is in progress. Wait for it to complete."@;
            text_laws::law_contains_what_was_put_in(a + b, current@, c);
            text_laws::law_ends(a, b + current@ + c);
            assert(a + (b + current@ + c) =~= message_of(e));
        },
        SafetyError::UnsafeArchiveEntry { entry_path, reason } => {
            let a = "Unsafe archive entry '"@;
            let b = "': "@;
            text_laws::law_contains_what_was_put_in(a, entry_path@, b + reason@);
            assert(a + entry_path@ + (b + reason@) =~= message_of(e));
            text_laws::law_ends(a + entry_path@ + b, reason@);
        },
        SafetyError::InvalidArchive { reason } => {
            text_laws::law_ends("Invalid archive: "@, reason@);
        },
        SafetyError::RestoreValidationFailed { reason } => {
            text_laws::law_ends("Restore validation failed: "@, reason@);
        },
        SafetyError::RestoreRollbackFailed { reason, rollback_path } => {
            let c = ". Original data may be partially restored."@;
            match rollback_path {
                Some(p) => {
                    let a = "Restore rollback failed at '"@;
                    let b = "': "@;
                    text_laws::law_contains_what_was_put_in(a, p@, b + reason@ + c);
                    assert(a + p@ + (b + reason@ + c) =~= message_of(e));
                    text_laws::law_contains_what_was_put_in(a + p@ + b, reason@, c);
                },
                None => {
                    text_laws::law_contains_what_was_put_in(
                        "Restore rollback failed: "@,
                        reason@,
                        c,
                    );
                },
            }
        },
        SafetyError::SecretAccessForbidden => {},
        SafetyError::PathOwnershipViolation { path, reason } => {
            let a = "Path ownership violation at '"@;
            let b = "': "@;
            text_laws::law_contains_what_was_put_in(a, path@, b + reason@);
            assert(a + path@ + (b + reason@) =~= message_of(e));
            text_laws::law_ends(a + path@ + b, reason@);
        },
        SafetyError::OperationCancelled { operation, reason } => {
            let a = "Operation '"@;
            let b = "' cancelled: "@;
            text_laws::law_contains_what_was_put_in(a, operation@, b + reason@);
            assert(a + operation@ + (b + reason@) =~= message_of(e));
            text_laws::law_ends(a + operation@ + b, reason@);
        },
        SafetyError::CrashLoopBlocked { attempts, window_secs } => {
            let a = "Auto-restart disabled — server crashed "@;
            let n = text::dec(attempts as nat);
            let b = "+ times in "@;
            let w = text::dec(window_secs as nat);
            let c = " seconds. Fix the issue and start manually."@;
            text_laws::law_contains_what_was_put_in(a, n, b + w + c);
            assert(a + n + (b + w + c) =~= message_of(e));
            text_laws::law_contains_what_was_put_in(a + n + b, w, c);
        },
    }
}

/// Each kind of error has the code that callers know it by.
pub proof fn law_codes(e: SafetyError)
    ensures
        e is ServerRunning <==> code_of(e) == "SERVER_RUNNING"@,
        e is ServerStarting <==> code_of(e) == "SERVER_STARTING"@,
        e is RestartPending <==> code_of(e) == "RESTART_PENDING"@,
        e is ConflictingOperation <==> code_of(e) == "CONFLICTING_OPERATION"@,
        e is UnsafeArchiveEntry <==> code_of(e) == "UNSAFE_ARCHIVE_ENTRY"@,
        e is InvalidArchive <==> code_of(e) == "INVALID_ARCHIVE"@,
        e is RestoreValidationFailed <==> code_of(e) == "RESTORE_VALIDATION_FAILED"@,
        e is RestoreRollbackFailed <==> code_of(e) == "RESTORE_ROLLBACK_FAILED"@,
        e is SecretAccessForbidden <==> code_of(e) == "SECRET_ACCESS_FORBIDDEN"@,
        e is PathOwnershipViolation <==> code_of(e) == "PATH_OWNERSHIP_VIOLATION"@,
        e is OperationCancelled <==> code_of(e) == "OPERATION_CANCELLED"@,
        e is CrashLoopBlocked <==> code_of(e) == "CRASH_LOOP_BLOCKED"@,
{
    reveal_strlit("SERVER_RUNNING");
    reveal_strlit("SERVER_STARTING");
    reveal_strlit("RESTART_PENDING");
    reveal_strlit("CONFLICTING_OPERATION");
    reveal_strlit("UNSAFE_ARCHIVE_ENTRY");
    reveal_strlit("INVALID_ARCHIVE");
    reveal_strlit("RESTORE_VALIDATION_FAILED");
    reveal_strlit("RESTORE_ROLLBACK_FAILED");
    reveal_strlit("SECRET_ACCESS_FORBIDDEN");
    reveal_strlit("PATH_OWNERSHIP_VIOLATION");
    reveal_strlit("OPERATION_CANCELLED");
    reveal_strlit("CRASH_LOOP_BLOCKED");
    assert("SERVER_RUNNING"@.len() == 14 && "SERVER_STARTING"@.len() == 15);
    assert("RESTART_PENDING"@.len() == 15 && "CONFLICTING_OPERATION"@.len() == 21);
    assert("UNSAFE_ARCHIVE_ENTRY"@.len() == 20 && "INVALID_ARCHIVE"@.len() == 15);
    assert("RESTORE_VALIDATION_FAILED"@.len() == 25 && "RESTORE_ROLLBACK_FAILED"@.len() == 23);
    assert("SECRET_ACCESS_FORBIDDEN"@.len() == 23 && "PATH_OWNERSHIP_VIOLATION"@.len() == 24);
    assert("OPERATION_CANCELLED"@.len() == 19 && "CRASH_LOOP_BLOCKED"@.len() == 18);
    assert("SERVER_STARTING"@[0] == 'S' && "RESTART_PENDING"@[0] == 'R' && "INVALID_ARCHIVE"@[0]
        == 'I');
    assert("RESTORE_ROLLBACK_FAILED"@[0] == 'R' && "SECRET_ACCESS_FORBIDDEN"@[0] == 'S');
}

} // verus!
