//! Backups of a server directory: what goes into the archive, what comes out of
//! it, and how a restored directory takes the place of the old one. Reading and
//! writing is the caller's.
use vstd::prelude::*;

use crate::clock;
use crate::text;
use crate::text::{join_path, str_eq, to_chars};
use crate::text_laws;

verus! {

/// How often progress is reported: after this many files,
pub const PROGRESS_FILES: u64 = 32;

/// or after this many milliseconds.
pub const PROGRESS_MILLIS: u64 = 250;

/// How far a backup or a restore is.
#[derive(Debug, Clone)]
pub struct BackupProgress {
    pub files: u64,
    pub bytes: u64,
    pub current: String,
}

/// The time, as it stands in the names of backups: day, month, year and time of
/// day.
pub fn timestamp_ddmmyyyy_hhmmss() -> (r: String)
    ensures
        clock::is_backup_time(r@),
{
    clock::local_time(clock::BACKUP_FORMAT)
}

/// The name of a backup made at a time.
pub open spec fn backup_name(timestamp: Seq<char>) -> Seq<char> {
    "[Backup]-"@ + timestamp + ".zip"@
}

/// The name of a backup made now.
pub fn default_backup_filename() -> (r: String)
    ensures
        exists|t: Seq<char>| #[trigger] clock::is_backup_time(t) && r@ == backup_name(t),
{
    let t = timestamp_ddmmyyyy_hhmmss();
    backup_filename(t.as_str())
}

/// The name of a backup made at a time.
pub fn backup_filename(timestamp: &str) -> (r: String)
    ensures
        r@ == backup_name(timestamp@),
{
    let mut s = String::from_str("[Backup]-");
    s.append(timestamp);
    s.append(".zip");
    s
}

// ---------------------------------------------------------------------
// Making a backup
// ---------------------------------------------------------------------

/// Whether a name is left out wherever it stands: files of the system, and the
/// lock of a world in use.
pub open spec fn skipped_anywhere(name: Seq<char>) -> bool {
    name == ".DS_Store"@ || name == "session.lock"@ || name == "Thumbs.db"@
}

/// Whether a name is left out in the server directory itself.
pub open spec fn skipped_at_top(name: Seq<char>, include_logs: bool) -> bool {
    name == ".git"@ || name == "node_modules"@ || name == "target"@ || (!include_logs && name
        == "logs"@) || name == "forge-installer.jar.log"@
}

/// Whether an entry is left out.
pub open spec fn skipped(name: Seq<char>, is_top_level: bool, include_logs: bool) -> bool {
    skipped_anywhere(name) || (is_top_level && skipped_at_top(name, include_logs))
}

/// Whether an entry is left out.
pub fn should_skip(name: &str, is_top_level: bool, include_logs: bool) -> (r: bool)
    ensures
        r == skipped(name@, is_top_level, include_logs),
{
    str_eq(name, ".DS_Store") || str_eq(name, "session.lock") || str_eq(name, "Thumbs.db") || (
    is_top_level && (str_eq(name, ".git") || str_eq(name, "node_modules") || str_eq(name, "target")
        || (!include_logs && str_eq(name, "logs")) || str_eq(name, "forge-installer.jar.log")))
}

/// What an entry of a directory is.
#[derive(Debug, Clone, Copy, PartialEq, Eq, Structural)]
pub enum EntryKind {
    Directory,
    File,
    Symlink,
    Other,
}

/// What is done with an entry of a directory.
#[derive(Debug, Clone)]
pub enum EntryAction {
    /// Leave it out.
    Skip,
    /// Add a directory of this name to the archive, and go on below it.
    AddDirectory(String),
    /// Add a file of this name to the archive.
    AddFile(String),
}

/// The character with which a backslash is replaced.
pub open spec fn slashed(s: Seq<char>) -> Seq<char> {
    s.map_values(
        |c: char|
            if c == '\\' {
                '/'
            } else {
                c
            },
    )
}

/// The name of an entry in the archive.
pub open spec fn zip_name(rel: Seq<char>, name: Seq<char>) -> Seq<char> {
    slashed(text::under(rel, name))
}

/// The name of an entry in the archive.
fn zip_name_of(rel: &str, name: &str) -> (r: String)
    ensures
        r@ == zip_name(rel@, name@),
{
    let path = join_path(rel, name);
    let chars = to_chars(path.as_str());
    let mut out = String::new();
    let mut i: usize = 0;
    while i < chars.len()
        invariant
            i <= chars.len(),
            out@ == slashed(chars@).take(i as int),
        decreases chars.len() - i,
    {
        let c = if chars[i] == '\\' {
            '/'
        } else {
            chars[i]
        };
        out.push(c);
        assert(slashed(chars@).take(i as int + 1) =~= slashed(chars@).take(i as int).push(c));
        i = i + 1;
    }
    assert(slashed(chars@).take(chars@.len() as int) =~= slashed(chars@));
    out
}

/// What is done with an entry of the directory `rel` below the server
/// directory. Links are not followed, so that nothing outside gets in.
pub fn backup_entry(
    rel: &str,
    name: &str,
    kind: EntryKind,
    is_top_level: bool,
    include_logs: bool,
) -> (r: EntryAction)
    ensures
        match r {
            EntryAction::Skip => skipped(name@, is_top_level, include_logs) || kind
                == EntryKind::Symlink || kind == EntryKind::Other,
            EntryAction::AddDirectory(z) => !skipped(name@, is_top_level, include_logs) && kind
                == EntryKind::Directory && z@ == zip_name(rel@, name@),
            EntryAction::AddFile(z) => !skipped(name@, is_top_level, include_logs) && kind
                == EntryKind::File && z@ == zip_name(rel@, name@),
        },
{
    if should_skip(name, is_top_level, include_logs) {
        return EntryAction::Skip;
    }
    match kind {
        EntryKind::Directory => EntryAction::AddDirectory(zip_name_of(rel, name)),
        EntryKind::File => EntryAction::AddFile(zip_name_of(rel, name)),
        _ => EntryAction::Skip,
    }
}

/// What was written so far.
#[derive(Debug, Clone, Copy, PartialEq, Eq, Structural)]
pub struct WalkState {
    pub files: u64,
    pub bytes: u64,
}

impl WalkState {
    /// Nothing yet.
    pub fn new() -> (r: Self)
        ensures
            r.files == 0,
            r.bytes == 0,
    {
        WalkState { files: 0, bytes: 0 }
    }

    /// A piece of a file was written.
    pub fn wrote(&mut self, n: u64)
        requires
            old(self).bytes + n <= u64::MAX,
        ensures
            final(self).bytes == old(self).bytes + n,
            final(self).files == old(self).files,
    {
        self.bytes = self.bytes + n;
    }

    /// A file is done. Says whether it is time to report, given how long ago
    /// that was done.
    pub fn finished_file(&mut self, millis_since_report: u64) -> (r: bool)
        requires
            old(self).files < u64::MAX,
        ensures
            final(self).files == old(self).files + 1,
            final(self).bytes == old(self).bytes,
            r == (millis_since_report >= PROGRESS_MILLIS || final(self).files % PROGRESS_FILES
                == 0),
    {
        self.files = self.files + 1;
        millis_since_report >= PROGRESS_MILLIS || self.files % PROGRESS_FILES == 0
    }

    /// What is reported.
    pub fn progress(&self, current: &str) -> (r: BackupProgress)
        ensures
            r.files == self.files,
            r.bytes == self.bytes,
            r.current@ == current@,
    {
        BackupProgress { files: self.files, bytes: self.bytes, current: current.to_string() }
    }
}

/// Whether a server directory can be backed up.
pub fn check_server_path(path: &str, exists: bool, is_dir: bool) -> (r: Result<(), String>)
    ensures
        r is Ok <==> exists && is_dir,
        r is Err ==> r->Err_0@ == (if !exists {
            "Server path does not exist: "@ + path@
        } else {
            "Server path is not a directory: "@ + path@
        }),
{
    if !exists {
        let mut s = String::from_str("Server path does not exist: ");
        s.append(path);
        return Err(s);
    }
    if !is_dir {
        let mut s = String::from_str("Server path is not a directory: ");
        s.append(path);
        return Err(s);
    }
    Ok(())
}

// ---------------------------------------------------------------------
// Restoring a backup
// ---------------------------------------------------------------------

/// Whether a backup can be restored.
pub fn check_backup_file(path: &str, exists: bool) -> (r: Result<(), String>)
    ensures
        r is Ok <==> exists,
        r is Err ==> r->Err_0@ == "Backup file does not exist: "@ + path@,
{
    if exists {
        Ok(())
    } else {
        let mut s = String::from_str("Backup file does not exist: ");
        s.append(path);
        Err(s)
    }
}

/// What is done with an entry of an archive.
#[derive(Debug, Clone)]
pub enum RestoreAction {
    /// Leave it out.
    Skip,
    /// Make this directory.
    MakeDirectory(String),
    /// Write this file.
    WriteFile(String),
}

/// What is done with an entry of an archive. `enclosed` is its path, if that
/// stays inside of the directory; an entry whose path does not is left out.
pub fn restore_entry(server_path: &str, enclosed: Option<&str>, is_dir: bool) -> (r: RestoreAction)
    ensures
        match r {
            RestoreAction::Skip => enclosed is None,
            RestoreAction::MakeDirectory(p) => enclosed is Some && is_dir && p@ == text::under(
                server_path@,
                enclosed->0@,
            ),
            RestoreAction::WriteFile(p) => enclosed is Some && !is_dir && p@ == text::under(
                server_path@,
                enclosed->0@,
            ),
        },
{
    match enclosed {
        None => RestoreAction::Skip,
        Some(rel) => {
            let path = join_path(server_path, rel);
            if is_dir {
                RestoreAction::MakeDirectory(path)
            } else {
                RestoreAction::WriteFile(path)
            }
        },
    }
}

// ---------------------------------------------------------------------
// Restoring as a whole or not at all
// ---------------------------------------------------------------------

/// Which step of a restore is under way.
#[derive(Debug, Clone, Copy, PartialEq, Eq, Structural)]
pub enum RestoreStage {
    /// The archive is unpacked into the staging directory.
    Extracting,
    /// The server directory is looked for.
    Looking,
    /// The server directory is moved to the rollback directory.
    MovingOriginal,
    /// The staging directory is moved to the server directory.
    MovingStaging,
    /// The rollback directory is moved back, after something failed.
    MovingBack,
    /// The staging directory is removed, after something failed.
    RemovingStaging,
    /// The rollback directory is removed.
    RemovingRollback,
    /// It is over.
    Finished,
}

/// How the last action ended.
#[derive(Debug, Clone)]
pub enum RestoreOutcome {
    /// It worked. For the unpacking, how many files there are; for the look, 1
    /// where the directory is there and else 0.
    Fine(u64),
    /// It did not, for this reason.
    Failed(String),
}

/// What to do next.
#[derive(Debug)]
pub enum RestoreStep {
    /// Unpack the archive into this directory.
    Extract(String),
    /// Say whether the server directory is there.
    LookForServer,
    /// Rename one directory to another.
    Rename { from: String, to: String },
    /// Remove this directory; it does not matter whether that works.
    Remove(String),
    /// It is over: the number of files, or why not.
    Done(Result<u64, String>),
}

/// A restore under way.
#[derive(Debug)]
pub struct TransactionalRestore {
    pub server_path: String,
    pub staging_dir: String,
    pub rollback_dir: String,
    pub stage: RestoreStage,
    /// Whether the server directory was moved.
    pub moved: bool,
    pub count: u64,
    pub error: Option<String>,
}

/// What the state of a restore comes down to.
pub struct RestoreView {
    pub stage: RestoreStage,
    pub moved: bool,
    pub count: u64,
    pub error: Option<Seq<char>>,
}

impl View for TransactionalRestore {
    type V = RestoreView;

    open spec fn view(&self) -> RestoreView {
        RestoreView {
            stage: self.stage,
            moved: self.moved,
            count: self.count,
            error: text::opt_view(self.error),
        }
    }
}

/// The state after a failure.
pub open spec fn failed_restore(v: RestoreView, stage: RestoreStage, why: Seq<char>) -> RestoreView {
    RestoreView { stage, error: Some(why), ..v }
}

/// The text for the case that even the move back failed.
pub open spec fn critical_text(first: Seq<char>, second: Seq<char>, rollback: Seq<char>) -> Seq<
    char,
> {
    "CRITICAL: staging→live failed ("@ + first + "), rollback also failed ("@ + second
        + "). Rollback data at: "@ + rollback
}

/// The text for a move that failed and was taken back.
pub open spec fn swap_failed_text(v: RestoreView) -> Seq<char> {
    "Failed to rename staging to live: "@ + (match v.error {
        Some(f) => f,
        None => seq![],
    })
}

/// The next state of a restore, given how its last action ended.
pub open spec fn restored_next(
    v: RestoreView,
    outcome: RestoreOutcome,
    rollback_dir: Seq<char>,
) -> RestoreView {
    match v.stage {
        RestoreStage::Extracting => match outcome {
            RestoreOutcome::Fine(n) => if n == 0 {
                failed_restore(
                    v,
                    RestoreStage::RemovingStaging,
                    "Backup archive contained no files"@,
                )
            } else {
                RestoreView { stage: RestoreStage::Looking, count: n, ..v }
            },
            RestoreOutcome::Failed(e) => failed_restore(
                v,
                RestoreStage::RemovingStaging,
                "Staging extraction failed: "@ + e@,
            ),
        },
        RestoreStage::Looking => match outcome {
            RestoreOutcome::Fine(n) => RestoreView {
                stage: if n == 0 {
                    RestoreStage::MovingStaging
                } else {
                    RestoreStage::MovingOriginal
                },
                ..v
            },
            RestoreOutcome::Failed(e) => failed_restore(v, RestoreStage::RemovingStaging, e@),
        },
        RestoreStage::MovingOriginal => match outcome {
            RestoreOutcome::Fine(_) => RestoreView {
                stage: RestoreStage::MovingStaging,
                moved: true,
                ..v
            },
            RestoreOutcome::Failed(e) => failed_restore(
                v,
                RestoreStage::RemovingStaging,
                "Failed to rename original to rollback: "@ + e@,
            ),
        },
        RestoreStage::MovingStaging => match outcome {
            RestoreOutcome::Fine(_) => RestoreView {
                stage: if v.moved {
                    RestoreStage::RemovingRollback
                } else {
                    RestoreStage::Finished
                },
                ..v
            },
            RestoreOutcome::Failed(e) => if v.moved {
                failed_restore(v, RestoreStage::MovingBack, e@)
            } else {
                failed_restore(
                    v,
                    RestoreStage::RemovingStaging,
                    "Failed to rename staging to live: "@ + e@,
                )
            },
        },
        RestoreStage::MovingBack => match outcome {
            RestoreOutcome::Fine(_) => failed_restore(
                v,
                RestoreStage::RemovingStaging,
                swap_failed_text(v),
            ),
            RestoreOutcome::Failed(e) => RestoreView {
                stage: RestoreStage::Finished,
                error: Some(
                    critical_text(
                        match v.error {
                            Some(f) => f,
                            None => seq![],
                        },
                        e@,
                        rollback_dir,
                    ),
                ),
                ..v
            },
        },
        RestoreStage::RemovingStaging => RestoreView { stage: RestoreStage::Finished, ..v },
        RestoreStage::RemovingRollback => RestoreView { stage: RestoreStage::Finished, ..v },
        RestoreStage::Finished => v,
    }
}

/// What is done in a stage.
pub open spec fn step_of(t: TransactionalRestore, s: RestoreStep) -> bool {
    match t.stage {
        RestoreStage::Extracting => s matches RestoreStep::Extract(d) && d@ == t.staging_dir@,
        RestoreStage::Looking => s is LookForServer,
        RestoreStage::MovingOriginal => s matches RestoreStep::Rename { from, to } && from@
            == t.server_path@ && to@ == t.rollback_dir@,
        RestoreStage::MovingStaging => s matches RestoreStep::Rename { from, to } && from@
            == t.staging_dir@ && to@ == t.server_path@,
        RestoreStage::MovingBack => s matches RestoreStep::Rename { from, to } && from@
            == t.rollback_dir@ && to@ == t.server_path@,
        RestoreStage::RemovingStaging => s matches RestoreStep::Remove(d) && d@ == t.staging_dir@,
        RestoreStage::RemovingRollback => s matches RestoreStep::Remove(d) && d@
            == t.rollback_dir@,
        RestoreStage::Finished => s matches RestoreStep::Done(r) && (match t.error {
            Some(e) => r is Err && r->Err_0@ == e@,
            None => r == Ok::<u64, String>(t.count),
        }),
    }
}

impl TransactionalRestore {
    /// Begins a restore now.
    pub fn begin_now(server_path: &str) -> (r: (Self, RestoreStep))
        ensures
            r.0.server_path@ == server_path@,
            exists|t: Seq<char>| #[trigger]
                clock::is_restore_time(t) && r.0.staging_dir@ == server_path@
                    + ".restore-staging-"@ + t && r.0.rollback_dir@ == server_path@
                    + ".restore-rollback-"@ + t,
            r.0@ == (RestoreView {
                stage: RestoreStage::Extracting,
                moved: false,
                count: 0,
                error: None,
            }),
            step_of(r.0, r.1),
    {
        let t = clock::local_time(clock::RESTORE_FORMAT);
        Self::begin(server_path, t.as_str())
    }

    /// Begins a restore. The time is part of the names of the two directories
    /// beside the server directory.
    pub fn begin(server_path: &str, timestamp: &str) -> (r: (Self, RestoreStep))
        ensures
            r.0.server_path@ == server_path@,
            r.0.staging_dir@ == server_path@ + ".restore-staging-"@ + timestamp@,
            r.0.rollback_dir@ == server_path@ + ".restore-rollback-"@ + timestamp@,
            r.0@ == (RestoreView {
                stage: RestoreStage::Extracting,
                moved: false,
                count: 0,
                error: None,
            }),
            step_of(r.0, r.1),
    {
        let mut staging_dir = server_path.to_string();
        staging_dir.append(".restore-staging-");
        staging_dir.append(timestamp);
        let mut rollback_dir = server_path.to_string();
        rollback_dir.append(".restore-rollback-");
        rollback_dir.append(timestamp);
        let first = staging_dir.clone();
        let t = TransactionalRestore {
            server_path: server_path.to_string(),
            staging_dir,
            rollback_dir,
            stage: RestoreStage::Extracting,
            moved: false,
            count: 0,
            error: None,
        };
        (t, RestoreStep::Extract(first))
    }

    fn fail(&mut self, stage: RestoreStage, before: &str, why: &str)
        ensures
            final(self)@ == failed_restore(old(self)@, stage, before@ + why@),
            final(self).server_path == old(self).server_path,
            final(self).staging_dir == old(self).staging_dir,
            final(self).rollback_dir == old(self).rollback_dir,
    {
        let mut s = before.to_string();
        s.append(why);
        self.stage = stage;
        self.error = Some(s);
    }

    /// Takes how the last action ended, and says what is next.
    pub fn step(&mut self, outcome: &RestoreOutcome) -> (r: RestoreStep)
        ensures
            final(self)@ == restored_next(old(self)@, *outcome, old(self).rollback_dir@),
            final(self).server_path == old(self).server_path,
            final(self).staging_dir == old(self).staging_dir,
            final(self).rollback_dir == old(self).rollback_dir,
            step_of(*final(self), r),
    {
        let none = String::new();
        match self.stage {
            RestoreStage::Extracting => match outcome {
                RestoreOutcome::Fine(n) => {
                    if *n == 0 {
                        let why = "Backup archive contained no files";
                        self.fail(RestoreStage::RemovingStaging, none.as_str(), why);
                        assert(none@ + why@ =~= why@);
                    } else {
                        self.stage = RestoreStage::Looking;
                        self.count = *n;
                    }
                },
                RestoreOutcome::Failed(e) => {
                    self.fail(
                        RestoreStage::RemovingStaging,
                        "Staging extraction failed: ",
                        e.as_str(),
                    );
                },
            },
            RestoreStage::Looking => match outcome {
                RestoreOutcome::Fine(n) => {
                    self.stage = if *n == 0 {
                        RestoreStage::MovingStaging
                    } else {
                        RestoreStage::MovingOriginal
                    };
                },
                RestoreOutcome::Failed(e) => {
                    self.fail(RestoreStage::RemovingStaging, none.as_str(), e.as_str());
                    assert(none@ + e@ =~= e@);
                },
            },
            RestoreStage::MovingOriginal => match outcome {
                RestoreOutcome::Fine(_) => {
                    self.stage = RestoreStage::MovingStaging;
                    self.moved = true;
                },
                RestoreOutcome::Failed(e) => {
                    self.fail(
                        RestoreStage::RemovingStaging,
                        "Failed to rename original to rollback: ",
                        e.as_str(),
                    );
                },
            },
            RestoreStage::MovingStaging => match outcome {
                RestoreOutcome::Fine(_) => {
                    self.stage = if self.moved {
                        RestoreStage::RemovingRollback
                    } else {
                        RestoreStage::Finished
                    };
                },
                RestoreOutcome::Failed(e) => {
                    if self.moved {
                        self.fail(RestoreStage::MovingBack, none.as_str(), e.as_str());
                        assert(none@ + e@ =~= e@);
                    } else {
                        self.fail(
                            RestoreStage::RemovingStaging,
                            "Failed to rename staging to live: ",
                            e.as_str(),
                        );
                    }
                },
            },
            RestoreStage::MovingBack => match outcome {
                RestoreOutcome::Fine(_) => {
                    let first = match &self.error {
                        Some(f) => f.clone(),
                        None => String::new(),
                    };
                    self.fail(
                        RestoreStage::RemovingStaging,
                        "Failed to rename staging to live: ",
                        first.as_str(),
                    );
                },
                RestoreOutcome::Failed(e) => {
                    let mut s = String::from_str("CRITICAL: staging→live failed (");
                    match &self.error {
                        Some(f) => {
                            s.append(f.as_str());
                        },
                        None => {
                            s.append(none.as_str());
                        },
                    }
                    s.append("), rollback also failed (");
                    s.append(e.as_str());
                    s.append("). Rollback data at: ");
                    s.append(self.rollback_dir.as_str());
                    self.stage = RestoreStage::Finished;
                    self.error = Some(s);
                },
            },
            RestoreStage::RemovingStaging => {
                self.stage = RestoreStage::Finished;
            },
            RestoreStage::RemovingRollback => {
                self.stage = RestoreStage::Finished;
            },
            RestoreStage::Finished => {},
        }
        self.action()
    }

    /// What is done in the current stage.
    fn action(&self) -> (r: RestoreStep)
        ensures
            step_of(*self, r),
    {
        match self.stage {
            RestoreStage::Extracting => RestoreStep::Extract(self.staging_dir.clone()),
            RestoreStage::Looking => RestoreStep::LookForServer,
            RestoreStage::MovingOriginal => RestoreStep::Rename {
                from: self.server_path.clone(),
                to: self.rollback_dir.clone(),
            },
            RestoreStage::MovingStaging => RestoreStep::Rename {
                from: self.staging_dir.clone(),
                to: self.server_path.clone(),
            },
            RestoreStage::MovingBack => RestoreStep::Rename {
                from: self.rollback_dir.clone(),
                to: self.server_path.clone(),
            },
            RestoreStage::RemovingStaging => RestoreStep::Remove(self.staging_dir.clone()),
            RestoreStage::RemovingRollback => RestoreStep::Remove(self.rollback_dir.clone()),
            RestoreStage::Finished => match &self.error {
                Some(e) => RestoreStep::Done(Err(e.clone())),
                None => RestoreStep::Done(Ok(self.count)),
            },
        }
    }
}

/// What the three directories hold: what was in the server directory and what
/// was in the archive each have a number; a directory that is not there is
/// `None`.
pub struct Contents {
    pub server: Option<int>,
    pub staging: Option<int>,
    pub rollback: Option<int>,
}

/// What the directories hold after a stage's action ended. Unpacking fills the
/// staging directory; a removal may fail or not.
pub open spec fn contents_after(
    c: Contents,
    stage: RestoreStage,
    outcome: RestoreOutcome,
    archive: int,
) -> Contents {
    if stage == RestoreStage::Extracting {
        Contents { staging: Some(archive), ..c }
    } else if outcome is Failed {
        c
    } else {
        match stage {
            RestoreStage::MovingOriginal => Contents { server: None, rollback: c.server, ..c },
            RestoreStage::MovingStaging => Contents { server: c.staging, staging: None, ..c },
            RestoreStage::MovingBack => Contents { server: c.rollback, rollback: None, ..c },
            RestoreStage::RemovingStaging => Contents { staging: None, ..c },
            RestoreStage::RemovingRollback => Contents { rollback: None, ..c },
            _ => c,
        }
    }
}

/// What else has failed in a restore.
pub struct RestoreFaults {
    /// The removal of a directory.
    pub removal: bool,
    /// The move of the rollback directory back to its place.
    pub move_back: bool,
}

/// What else has failed after a stage's action ended.
pub open spec fn faults_after(
    f: RestoreFaults,
    stage: RestoreStage,
    outcome: RestoreOutcome,
) -> RestoreFaults {
    RestoreFaults {
        removal: f.removal || (outcome is Failed && (stage == RestoreStage::RemovingStaging
            || stage == RestoreStage::RemovingRollback)),
        move_back: f.move_back || (outcome is Failed && stage == RestoreStage::MovingBack),
    }
}

/// What the directories hold when a stage begins, given what was in the server
/// directory before, and what else has failed.
pub open spec fn restore_in_step(
    v: RestoreView,
    c: Contents,
    before: Option<int>,
    archive: int,
    faults: RestoreFaults,
) -> bool {
    &&& v.stage != RestoreStage::Finished ==> !faults.removal && !faults.move_back
    &&& match v.stage {
        RestoreStage::Extracting => c.server == before && c.rollback is None && v.error is None
            && !v.moved,
        RestoreStage::Looking => c.server == before && c.staging == Some(archive) && c.rollback
            is None && v.error is None && !v.moved,
        RestoreStage::MovingOriginal => c.server == before && c.staging == Some(archive)
            && c.rollback is None && before is Some && v.error is None && !v.moved,
        RestoreStage::MovingStaging => c.server is None && c.staging == Some(archive) && c.rollback
            == before && v.error is None && v.moved == before is Some,
        RestoreStage::MovingBack => c.server is None && c.staging == Some(archive) && c.rollback
            == before && before is Some && v.error is Some,
        RestoreStage::RemovingStaging => c.server == before && c.rollback is None && v.error
            is Some,
        RestoreStage::RemovingRollback => c.server == Some(archive) && c.staging is None
            && v.error is None,
        RestoreStage::Finished => if v.error is Some {
            if faults.move_back {
                stranded(c, before, archive)
            } else {
                undone(c, before, faults)
            }
        } else {
            put_in_place(c, archive, faults)
        },
    }
}

/// Whether the archive is in the server directory and, unless a removal failed,
/// nothing else is left.
pub open spec fn put_in_place(c: Contents, archive: int, faults: RestoreFaults) -> bool {
    &&& c.server == Some(archive)
    &&& c.staging is None
    &&& !faults.removal ==> c.rollback is None
}

/// Whether the server directory is as it was and, unless a removal failed,
/// nothing else is left.
pub open spec fn undone(c: Contents, before: Option<int>, faults: RestoreFaults) -> bool {
    &&& c.server == before
    &&& c.rollback is None
    &&& !faults.removal ==> c.staging is None
}

/// Whether what was in the server directory is in the rollback directory, and the
/// archive still in the staging directory.
pub open spec fn stranded(c: Contents, before: Option<int>, archive: int) -> bool {
    &&& c.server is None
    &&& before is Some
    &&& c.rollback == before
    &&& c.staging == Some(archive)
}

/// Each step of a restore leaves the directories as the next stage expects
/// them, where a look says truly whether the server directory is there.
pub proof fn law_restore_step(
    v: RestoreView,
    c: Contents,
    outcome: RestoreOutcome,
    rollback_dir: Seq<char>,
    before: Option<int>,
    archive: int,
    faults: RestoreFaults,
)
    requires
        restore_in_step(v, c, before, archive, faults),
        v.stage == RestoreStage::Looking && outcome is Fine ==> (outcome->Fine_0 != 0)
            == c.server is Some,
    ensures
        restore_in_step(
            restored_next(v, outcome, rollback_dir),
            contents_after(c, v.stage, outcome, archive),
            before,
            archive,
            faults_after(faults, v.stage, outcome),
        ),
{
}

/// No failure but the one that ends a restore.
pub open spec fn no_faults() -> RestoreFaults {
    RestoreFaults { removal: false, move_back: false }
}

/// How far a restore is after its actions ended one after another, what the
/// directories then hold, and what else has failed.
pub open spec fn restore_run(
    v: RestoreView,
    c: Contents,
    outcomes: Seq<RestoreOutcome>,
    rollback_dir: Seq<char>,
    archive: int,
) -> (RestoreView, Contents, RestoreFaults)
    decreases outcomes.len(),
{
    if outcomes.len() == 0 {
        (v, c, no_faults())
    } else {
        let (w, d, f) = restore_run(v, c, outcomes.drop_last(), rollback_dir, archive);
        (
            restored_next(w, outcomes.last(), rollback_dir),
            contents_after(d, w.stage, outcomes.last(), archive),
            faults_after(f, w.stage, outcomes.last()),
        )
    }
}

/// Whether every look in a run says truly whether the server directory is there.
pub open spec fn looks_truly(
    v: RestoreView,
    c: Contents,
    outcomes: Seq<RestoreOutcome>,
    rollback_dir: Seq<char>,
    archive: int,
) -> bool {
    forall|n: int|
        0 <= n < outcomes.len() ==> look_is_true(
            restore_run(v, c, #[trigger] outcomes.take(n), rollback_dir, archive),
            outcomes[n],
        )
}

/// Whether an action, where it is a look, says truly whether the server directory
/// is there.
pub open spec fn look_is_true(
    at: (RestoreView, Contents, RestoreFaults),
    outcome: RestoreOutcome,
) -> bool {
    at.0.stage == RestoreStage::Looking && outcome is Fine ==> (outcome->Fine_0 != 0)
        == at.1.server is Some
}

proof fn lemma_run_is_in_step(
    v: RestoreView,
    c: Contents,
    outcomes: Seq<RestoreOutcome>,
    rollback_dir: Seq<char>,
    before: Option<int>,
    archive: int,
)
    requires
        restore_in_step(v, c, before, archive, no_faults()),
        looks_truly(v, c, outcomes, rollback_dir, archive),
    ensures
        ({
            let (w, d, f) = restore_run(v, c, outcomes, rollback_dir, archive);
            restore_in_step(w, d, before, archive, f)
        }),
    decreases outcomes.len(),
{
    if outcomes.len() > 0 {
        let front = outcomes.drop_last();
        let n = outcomes.len() - 1;
        assert(outcomes.take(n) =~= front);
        assert forall|k: int| 0 <= k < front.len() implies look_is_true(
            restore_run(v, c, #[trigger] front.take(k), rollback_dir, archive),
            front[k],
        ) by {
            assert(front.take(k) =~= outcomes.take(k));
        }
        lemma_run_is_in_step(v, c, front, rollback_dir, before, archive);
        let (w, d, f) = restore_run(v, c, front, rollback_dir, archive);
        assert(look_is_true((w, d, f), outcomes[n]));
        law_restore_step(w, d, outcomes.last(), rollback_dir, before, archive, f);
    }
}

/// A restore that ends well has put the archive in place, and nothing is left of
/// the staging and rollback directories. One that fails leaves the server
/// directory as it was, and nothing is left of the two; only where the move back
/// fails too is what was there in the rollback directory, and the archive in the
/// staging directory. A directory whose removal fails stays.
pub proof fn law_restore_all_or_nothing(
    v: RestoreView,
    c: Contents,
    outcomes: Seq<RestoreOutcome>,
    rollback_dir: Seq<char>,
    archive: int,
)
    requires
        v == (RestoreView {
            stage: RestoreStage::Extracting,
            moved: false,
            count: 0,
            error: None,
        }),
        c.staging is None,
        c.rollback is None,
        looks_truly(v, c, outcomes, rollback_dir, archive),
    ensures
        ({
            let (w, d, f) = restore_run(v, c, outcomes, rollback_dir, archive);
            w.stage == RestoreStage::Finished ==> if w.error is None {
                put_in_place(d, archive, f)
            } else if f.move_back {
                stranded(d, c.server, archive)
            } else {
                undone(d, c.server, f)
            }
        }),
{
    lemma_run_is_in_step(v, c, outcomes, rollback_dir, c.server, archive);
}

// ---------------------------------------------------------------------
// What is in a backup
// ---------------------------------------------------------------------

/// Whether a name is one of the few that are left out below the server directory.
pub open spec fn is_system_file(name: Seq<char>) -> bool {
    ||| name == ".DS_Store"@
    ||| name == "session.lock"@
    ||| name == "Thumbs.db"@
}

/// Exactly these are left out: files of the system and the lock of a world
/// anywhere; in the server directory itself also what tools leave there and, where
/// they are not asked for, the logs. Any other name is in the backup.
pub proof fn law_what_is_left_out(name: Seq<char>, include_logs: bool)
    ensures
        skipped(name, false, include_logs) <==> is_system_file(name),
        skipped(name, true, include_logs) <==> is_system_file(name) || name == ".git"@ || name
            == "node_modules"@ || name == "target"@ || name == "forge-installer.jar.log"@ || (name
            == "logs"@ && !include_logs),
{
}

/// The logs are in the backup where they are asked for, and asking for them
/// changes nothing else; what is left out deeper down is left out at the top too.
pub proof fn law_logs_on_demand(name: Seq<char>, is_top_level: bool)
    ensures
        !skipped("logs"@, is_top_level, true),
        skipped("logs"@, true, false),
        name != "logs"@ ==> skipped(name, is_top_level, true) == skipped(
            name,
            is_top_level,
            false,
        ),
        skipped(name, is_top_level, true) ==> skipped(name, is_top_level, false),
        skipped(name, false, false) ==> skipped(name, true, true),
{
    reveal_strlit("logs");
    reveal_strlit(".DS_Store");
    reveal_strlit("session.lock");
    reveal_strlit("Thumbs.db");
    reveal_strlit(".git");
    reveal_strlit("node_modules");
    reveal_strlit("target");
    reveal_strlit("forge-installer.jar.log");
    assert("logs"@[0] == 'l' && ".git"@[0] == '.');
}

/// The worlds, mods, plugins and settings of a server are in every backup: at the
/// top and below it, with or without the logs.
pub proof fn law_the_server_is_in_the_backup(is_top_level: bool, include_logs: bool)
    ensures
        !skipped("mods"@, is_top_level, include_logs),
        !skipped("plugins"@, is_top_level, include_logs),
        !skipped("config"@, is_top_level, include_logs),
        !skipped("world"@, is_top_level, include_logs),
        !skipped("world_nether"@, is_top_level, include_logs),
        !skipped("world_the_end"@, is_top_level, include_logs),
        !skipped("server.properties"@, is_top_level, include_logs),
        !skipped("server.jar"@, is_top_level, include_logs),
        !skipped("eula.txt"@, is_top_level, include_logs),
        !skipped("ops.json"@, is_top_level, include_logs),
        !skipped("whitelist.json"@, is_top_level, include_logs),
{
    reveal_strlit("logs");
    reveal_strlit(".DS_Store");
    reveal_strlit("session.lock");
    reveal_strlit("Thumbs.db");
    reveal_strlit(".git");
    reveal_strlit("node_modules");
    reveal_strlit("target");
    reveal_strlit("forge-installer.jar.log");
    reveal_strlit("mods");
    reveal_strlit("plugins");
    reveal_strlit("config");
    reveal_strlit("world");
    reveal_strlit("world_nether");
    reveal_strlit("world_the_end");
    reveal_strlit("server.properties");
    reveal_strlit("server.jar");
    reveal_strlit("eula.txt");
    reveal_strlit("ops.json");
    reveal_strlit("whitelist.json");
    assert("logs"@[0] == 'l' && ".git"@[0] == '.' && ".DS_Store"@[0] == '.');
    assert("session.lock"@[0] == 's' && "node_modules"@[0] == 'n' && "target"@[0] == 't');
    assert("Thumbs.db"@[0] == 'T' && "forge-installer.jar.log"@[0] == 'f');
    assert("mods"@[0] == 'm' && "plugins"@[0] == 'p' && "config"@[0] == 'c');
    assert("world"@[0] == 'w' && "world_nether"@[0] == 'w' && "world_the_end"@[0] == 'w');
    assert("server.properties"@.len() == 17 && "session.lock"@.len() == 12);
    assert("server.jar"@.len() == 10 && "eula.txt"@[0] == 'e' && "ops.json"@[0] == 'o');
    assert("whitelist.json"@[0] == 'w');
}

/// The name of an entry in the archive is the path below the server directory,
/// with slashes alone: the name at the top, and `rel/name` below it.
pub proof fn law_entry_names(rel: Seq<char>, name: Seq<char>)
    requires
        name.len() > 0,
        name[0] != '/',
        rel.len() > 0 ==> rel.last() != '/',
        forall|k: int| 0 <= k < rel.len() ==> rel[k] != '\\',
        forall|k: int| 0 <= k < name.len() ==> name[k] != '\\',
    ensures
        zip_name(seq![], name) == name,
        rel.len() > 0 ==> zip_name(rel, name) == rel + "/"@ + name,
{
    reveal_strlit("/");
    assert(slashed(Seq::<char>::empty() + name) =~= name);
    if rel.len() > 0 {
        assert(slashed(rel + seq!['/'] + name) =~= rel + seq!['/'] + name);
        assert("/"@ =~= seq!['/']);
    }
}

/// No entry of an archive has a backslash in its name.
pub proof fn law_no_backslash_in_names(rel: Seq<char>, name: Seq<char>, k: int)
    requires
        0 <= k < zip_name(rel, name).len(),
    ensures
        zip_name(rel, name)[k] != '\\',
        zip_name(rel, name).len() == text::under(rel, name).len(),
        zip_name(rel, name)[k] == text::under(rel, name)[k] || (text::under(rel, name)[k] == '\\'
            && zip_name(rel, name)[k] == '/'),
{
}

/// Progress is told after 32 files, or after a quarter of a second.
pub proof fn law_progress()
    ensures
        PROGRESS_FILES == 32,
        PROGRESS_MILLIS == 250,
{
}

/// A restore all of whose actions succeed takes unpacking, a look, the moves and
/// the removal, ends well, and says how many files there were.
pub proof fn law_good_restore_ends_well(
    v: RestoreView,
    c: Contents,
    n: u64,
    there: bool,
    a: u64,
    b: u64,
    d: u64,
    rollback_dir: Seq<char>,
    archive: int,
)
    requires
        v == (RestoreView {
            stage: RestoreStage::Extracting,
            moved: false,
            count: 0,
            error: None,
        }),
        n > 0,
    ensures
        ({
            let look = RestoreOutcome::Fine(
                if there {
                    1
                } else {
                    0
                },
            );
            let v1 = restored_next(v, RestoreOutcome::Fine(n), rollback_dir);
            let v2 = restored_next(v1, look, rollback_dir);
            let v3 = restored_next(v2, RestoreOutcome::Fine(a), rollback_dir);
            let v4 = restored_next(v3, RestoreOutcome::Fine(b), rollback_dir);
            let v5 = restored_next(v4, RestoreOutcome::Fine(d), rollback_dir);
            let last = if there {
                v5
            } else {
                v3
            };
            &&& v1.stage == RestoreStage::Looking
            &&& v2.stage == (if there {
                RestoreStage::MovingOriginal
            } else {
                RestoreStage::MovingStaging
            })
            &&& there ==> v3.stage == RestoreStage::MovingStaging && v4.stage
                == RestoreStage::RemovingRollback
            &&& last.stage == RestoreStage::Finished
            &&& last.error is None
            &&& last.count == n
        }),
{
}

/// Whatever action fails before the new server is in place, the restore fails, and
/// says why in the words that it was given; an archive without files fails too. A
/// restore that has failed never ends well.
pub proof fn law_failed_restore_says_why(
    v: RestoreView,
    e: String,
    outcome: RestoreOutcome,
    rollback_dir: Seq<char>,
)
    ensures
        v.stage == RestoreStage::Extracting || v.stage == RestoreStage::Looking || v.stage
            == RestoreStage::MovingOriginal || v.stage == RestoreStage::MovingStaging ==> {
            let w = restored_next(v, RestoreOutcome::Failed(e), rollback_dir);
            &&& w.error is Some
            &&& text::ends_with(w.error->0, e@)
            &&& w.stage == RestoreStage::RemovingStaging || w.stage == RestoreStage::MovingBack
        },
        v.stage == RestoreStage::MovingBack && v.error is Some ==> {
            let w = restored_next(v, RestoreOutcome::Failed(e), rollback_dir);
            &&& w.stage == RestoreStage::Finished
            &&& w.error is Some
            &&& text::contains(w.error->0, v.error->0)
            &&& text::contains(w.error->0, e@)
            &&& text::ends_with(w.error->0, rollback_dir)
        },
        v.stage == RestoreStage::Extracting ==> restored_next(
            v,
            RestoreOutcome::Fine(0),
            rollback_dir,
        ).error is Some,
        v.error is Some && v.stage != RestoreStage::Extracting ==> restored_next(
            v,
            outcome,
            rollback_dir,
        ).error is Some,
{
    text_laws::law_ends("Staging extraction failed: "@, e@);
    text_laws::law_ends("Failed to rename original to rollback: "@, e@);
    text_laws::law_ends("Failed to rename staging to live: "@, e@);
    text_laws::law_ends(Seq::<char>::empty(), e@);
    assert(Seq::<char>::empty() + e@ =~= e@);
    if v.error is Some {
        let f = v.error->0;
        let p = "CRITICAL: staging→live failed ("@;
        let q = "), rollback also failed ("@;
        let r = "). Rollback data at: "@;
        let all = critical_text(f, e@, rollback_dir);
        text_laws::law_contains_what_was_put_in(p, f, q + e@ + r + rollback_dir);
        assert(p + f + (q + e@ + r + rollback_dir) =~= all);
        text_laws::law_contains_what_was_put_in(p + f + q, e@, r + rollback_dir);
        assert(p + f + q + e@ + (r + rollback_dir) =~= all);
        text_laws::law_ends(p + f + q + e@ + r, rollback_dir);
    }
}

/// A restore touches three directories alone, and the server directory only by
/// moving it: it is moved to the rollback directory and back, the staging directory
/// is moved in its place, and what is removed is one of the other two.
pub proof fn law_what_a_restore_touches(t: TransactionalRestore, s: RestoreStep)
    requires
        step_of(t, s),
    ensures
        s matches RestoreStep::Remove(d) ==> d@ == t.staging_dir@ || d@ == t.rollback_dir@,
        s matches RestoreStep::Extract(d) ==> d@ == t.staging_dir@,
        s matches RestoreStep::Rename { from, to } ==> (from@ == t.server_path@ && to@
            == t.rollback_dir@) || (from@ == t.staging_dir@ && to@ == t.server_path@) || (from@
            == t.rollback_dir@ && to@ == t.server_path@),
        s is Done <==> t.stage == RestoreStage::Finished,
        s matches RestoreStep::Done(r) ==> (r is Ok <==> t.error is None) && (r matches Ok(n) ==> n
            == t.count) && (r matches Err(e) ==> Some(e@) == text::opt_view(t.error)),
        t.stage == RestoreStage::MovingStaging ==> s is Rename && s->from@ == t.staging_dir@,
        t.stage == RestoreStage::MovingOriginal ==> s is Rename && s->from@ == t.server_path@,
        t.stage == RestoreStage::MovingBack ==> s is Rename && s->from@ == t.rollback_dir@,
        t.stage == RestoreStage::RemovingStaging ==> s is Remove && s->Remove_0@ == t.staging_dir@,
        t.stage == RestoreStage::RemovingRollback ==> s is Remove && s->Remove_0@
            == t.rollback_dir@,
{
}

/// The name of a backup is `[Backup]-`, the time and `.zip`, so that two made at
/// different times have different names.
pub proof fn law_backup_names(a: Seq<char>, b: Seq<char>)
    ensures
        text::starts_with(backup_name(a), "[Backup]-"@),
        text::ends_with(backup_name(a), ".zip"@),
        text::contains(backup_name(a), a),
        backup_name(a) == backup_name(b) ==> a == b,
{
    let p = "[Backup]-"@;
    let z = ".zip"@;
    text_laws::law_ends(p, a + z);
    assert(p + (a + z) =~= backup_name(a));
    text_laws::law_ends(p + a, z);
    text_laws::law_contains_what_was_put_in(p, a, z);
    if backup_name(a) == backup_name(b) {
        let n = p.len() as int;
        let s = backup_name(a);
        assert(s.len() == n + a.len() + z.len());
        assert(s.subrange(n, n + a.len()) =~= a);
        assert(s.subrange(n, n + b.len()) =~= b);
    }
}

} // verus!
