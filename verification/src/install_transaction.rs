//! Putting a new server build in place of the old one, or leaving everything as
//! it was. The build is made in a staging directory; the live directory changes
//! only by renames. The renames themselves are the caller's: each step says
//! which one is next, and takes how the last one ended.
use vstd::prelude::*;

use crate::clock;
use crate::identifiers;
use crate::text;
use crate::text_laws;
use crate::text::{
    file_name_of, from_chars, has_prefix, join_path, part, split_lines, str_eq, to_chars,
    trimmed,
};

verus! {

/// How far a transaction is.
#[derive(Debug, Clone, Copy, PartialEq, Eq, Structural)]
pub enum TransactionPhase {
    /// The build is made.
    Building,
    /// The user has to decide something.
    PendingUserAction,
    /// The directories are being renamed.
    Committing,
    /// The build is in place.
    Committed,
}

/// The name of a phase.
pub open spec fn phase_name(p: TransactionPhase) -> Seq<char> {
    match p {
        TransactionPhase::Building => "Building"@,
        TransactionPhase::PendingUserAction => "PendingUserAction"@,
        TransactionPhase::Committing => "Committing"@,
        TransactionPhase::Committed => "Committed"@,
    }
}

impl TransactionPhase {
    /// The name of a phase.
    pub fn name(&self) -> (r: &'static str)
        ensures
            r@ == phase_name(*self),
    {
        match self {
            TransactionPhase::Building => "Building",
            TransactionPhase::PendingUserAction => "PendingUserAction",
            TransactionPhase::Committing => "Committing",
            TransactionPhase::Committed => "Committed",
        }
    }
}

/// What is known of a transaction; kept in a file in the staging directory.
#[derive(Debug, Clone)]
pub struct TransactionMeta {
    pub server_id: String,
    pub transaction_id: String,
    pub source: String,
    pub created_at: String,
    pub phase: TransactionPhase,
    pub live_path: String,
    pub staging_path: String,
    pub backup_path: Option<String>,
}

/// Where a transaction's file is.
pub open spec fn marker_of(m: TransactionMeta) -> Seq<char> {
    text::under(m.staging_path@, "transaction.json"@)
}

/// Where the transaction's file is once the build that holds it was moved.
pub open spec fn moved_marker_of(m: TransactionMeta) -> Seq<char> {
    text::under(m.live_path@, "transaction.json"@)
}

/// Where the file of a finished transaction is.
pub open spec fn live_marker_of(m: TransactionMeta) -> Seq<char> {
    text::under(m.live_path@, ".lbby-transaction.json"@)
}

impl TransactionMeta {
    /// Where the transaction's file is.
    pub fn marker_path(&self) -> (r: String)
        ensures
            r@ == marker_of(*self),
    {
        join_path(self.staging_path.as_str(), "transaction.json")
    }

    /// Where the transaction's file is once the build that holds it was moved.
    pub fn moved_marker_path(&self) -> (r: String)
        ensures
            r@ == moved_marker_of(*self),
    {
        join_path(self.live_path.as_str(), "transaction.json")
    }

    /// Where the file of the finished transaction is.
    pub fn live_marker_path(&self) -> (r: String)
        ensures
            r@ == live_marker_of(*self),
    {
        join_path(self.live_path.as_str(), ".lbby-transaction.json")
    }

    /// A copy.
    pub fn copied(&self) -> (r: Self)
        ensures
            r == *self,
    {
        TransactionMeta {
            server_id: self.server_id.clone(),
            transaction_id: self.transaction_id.clone(),
            source: self.source.clone(),
            created_at: self.created_at.clone(),
            phase: self.phase,
            live_path: self.live_path.clone(),
            staging_path: self.staging_path.clone(),
            backup_path: self.backup_path.clone(),
        }
    }
}

/// A fresh identifier for a transaction.
pub fn generate_txn_id() -> (r: String)
    ensures
        identifiers::is_hex_text(r@, 12),
{
    let id = identifiers::fresh_id();
    let chars = to_chars(id.as_str());
    from_chars(part(&chars, 0, 12))
}

// ---------------------------------------------------------------------
// Beginning
// ---------------------------------------------------------------------

/// A transaction.
#[derive(Debug)]
pub struct InstallTransaction {
    pub meta: TransactionMeta,
}

/// The directory for staging, beside the live directory.
pub open spec fn staging_root(parent: Seq<char>) -> Seq<char> {
    text::under(parent, ".lbby-staging"@)
}

/// The name of a server: that of its directory.
pub open spec fn server_name(live_path: Seq<char>) -> Seq<char> {
    match text::file_name(live_path) {
        Some(n) => n,
        None => "server"@,
    }
}

impl InstallTransaction {
    /// Begins a transaction for a live directory now, under a fresh identifier.
    pub fn begin(live_path: &str, parent: Option<&str>, source: &str) -> (r: Result<Self, String>)
        ensures
            r is Ok <==> parent is Some,
            r is Err ==> r->Err_0@ == "Cannot determine parent of "@ + live_path@,
            r is Ok ==> ({
                let m = r->Ok_0.meta;
                &&& m.server_id@ == server_name(live_path@)
                &&& identifiers::is_hex_text(m.transaction_id@, 12)
                &&& m.source@ == source@
                &&& clock::is_utc_stamp(m.created_at@)
                &&& m.phase == TransactionPhase::Building
                &&& m.live_path@ == live_path@
                &&& m.staging_path@ == text::under(
                    staging_root(parent->0@),
                    server_name(live_path@) + "-"@ + m.transaction_id@,
                )
                &&& m.backup_path is None
            }),
    {
        let txn_id = generate_txn_id();
        let created_at = clock::utc_time();
        Self::begin_as(live_path, parent, source, txn_id.as_str(), created_at.as_str())
    }

    /// Begins a transaction for a live directory, given the directory that holds
    /// it. The staging directory is beside it.
    pub fn begin_as(
        live_path: &str,
        parent: Option<&str>,
        source: &str,
        txn_id: &str,
        created_at: &str,
    ) -> (r: Result<Self, String>)
        ensures
            r is Ok <==> parent is Some,
            r is Err ==> r->Err_0@ == "Cannot determine parent of "@ + live_path@,
            r is Ok ==> ({
                let m = r->Ok_0.meta;
                &&& m.server_id@ == server_name(live_path@)
                &&& m.transaction_id@ == txn_id@
                &&& m.source@ == source@
                &&& m.created_at@ == created_at@
                &&& m.phase == TransactionPhase::Building
                &&& m.live_path@ == live_path@
                &&& m.staging_path@ == text::under(
                    staging_root(parent->0@),
                    server_name(live_path@) + "-"@ + txn_id@,
                )
                &&& m.backup_path is None
            }),
    {
        let chars = to_chars(live_path);
        let name = match file_name_of(&chars) {
            Some(n) => from_chars(n),
            None => "server".to_string(),
        };
        match parent {
            None => {
                let mut s = String::from_str("Cannot determine parent of ");
                s.append(live_path);
                Err(s)
            },
            Some(p) => {
                let root = join_path(p, ".lbby-staging");
                let mut dir = name.clone();
                dir.append("-");
                dir.append(txn_id);
                let staging_path = join_path(root.as_str(), dir.as_str());
                Ok(
                    InstallTransaction {
                        meta: TransactionMeta {
                            server_id: name,
                            transaction_id: txn_id.to_string(),
                            source: source.to_string(),
                            created_at: created_at.to_string(),
                            phase: TransactionPhase::Building,
                            live_path: live_path.to_string(),
                            staging_path,
                            backup_path: None,
                        },
                    },
                )
            },
        }
    }

    /// Where the build is made.
    pub fn staging_path(&self) -> (r: &str)
        ensures
            r@ == self.meta.staging_path@,
    {
        self.meta.staging_path.as_str()
    }

    /// Where the build goes.
    pub fn live_path(&self) -> (r: &str)
        ensures
            r@ == self.meta.live_path@,
    {
        self.meta.live_path.as_str()
    }

    /// What is known of the transaction.
    pub fn meta(&self) -> (r: &TransactionMeta)
        ensures
            *r == self.meta,
    {
        &self.meta
    }

    /// Whether a transaction that is given up is rolled back: only while the
    /// build is made.
    pub fn rolls_back_when_dropped(&self) -> (r: bool)
        ensures
            r == (self.meta.phase == TransactionPhase::Building),
    {
        self.meta.phase == TransactionPhase::Building
    }

    /// Lets the transaction wait for the user.
    pub fn pause(self) -> (r: TransactionMeta)
        ensures
            r == (TransactionMeta { phase: TransactionPhase::PendingUserAction, ..self.meta }),
    {
        let mut meta = self.meta;
        meta.phase = TransactionPhase::PendingUserAction;
        meta
    }

    /// Goes on with a transaction that waited, if its directory and its file
    /// are still there.
    pub fn resume(meta: TransactionMeta, staging_exists: bool, marker_exists: bool) -> (r: Result<
        Self,
        String,
    >)
        ensures
            r is Ok <==> meta.phase == TransactionPhase::PendingUserAction && staging_exists
                && marker_exists,
            r is Ok ==> r->Ok_0.meta == meta,
            r is Err ==> r->Err_0@ == (if meta.phase != TransactionPhase::PendingUserAction {
                "Cannot resume transaction in "@ + phase_name(meta.phase) + " phase"@
            } else if !staging_exists {
                "Staging directory no longer exists"@
            } else {
                "Transaction marker no longer exists"@
            }),
    {
        if meta.phase != TransactionPhase::PendingUserAction {
            let mut s = String::from_str("Cannot resume transaction in ");
            s.append(meta.phase.name());
            s.append(" phase");
            return Err(s);
        }
        if !staging_exists {
            return Err("Staging directory no longer exists".to_string());
        }
        if !marker_exists {
            return Err("Transaction marker no longer exists".to_string());
        }
        Ok(InstallTransaction { meta })
    }
}

/// A transaction that was paused can be resumed as it was, as long as its
/// directory and file are there.
pub proof fn law_pause_then_resume(before: TransactionMeta, paused: TransactionMeta)
    requires
        paused == (TransactionMeta { phase: TransactionPhase::PendingUserAction, ..before }),
    ensures
        paused.phase == TransactionPhase::PendingUserAction,
        paused.live_path == before.live_path,
        paused.staging_path == before.staging_path,
        paused.transaction_id == before.transaction_id,
        marker_of(paused) == marker_of(before),
{
}

// ---------------------------------------------------------------------
// What is taken over from the live server
// ---------------------------------------------------------------------

/// The world that the first line from `i` on names: `level-name=` at the start
/// of the line, and something behind it.
pub open spec fn named_world(lines: Seq<Seq<char>>, i: int) -> Option<Seq<char>>
    decreases lines.len() - i,
{
    if i < 0 || i >= lines.len() {
        None
    } else {
        let line = text::trim(lines[i]);
        let p = "level-name="@;
        let name = text::trim(line.subrange(p.len() as int, line.len() as int));
        if text::starts_with(line, p) && name.len() > 0 {
            Some(name)
        } else {
            named_world(lines, i + 1)
        }
    }
}

/// The world of a server.
pub open spec fn detected_world(properties: Option<Seq<char>>) -> Seq<char> {
    let named = match properties {
        Some(c) => named_world(text::lines(c), 0),
        None => None,
    };
    match named {
        Some(n) => n,
        None => "world"@,
    }
}

/// The world of a server, from the content of `server.properties`.
pub fn detect_world_name(properties: Option<&str>) -> (r: String)
    ensures
        r@ == detected_world(
            text::str_view(properties),
        ),
{
    if let Some(c) = properties {
        let chars = to_chars(c);
        let list = split_lines(&chars);
        let ghost l = text::lines(c@);
        let prefix = to_chars("level-name=");
        assert(list@.len() == l.len());
        let mut i: usize = 0;
        while i < list.len()
            invariant
                i <= list.len(),
                list@.len() == l.len(),
                text::slices(list@) == l,
                l == text::lines(c@),
                prefix@ == "level-name="@,
                properties is Some,
                properties->0@ == c@,
                named_world(l, 0) == named_world(l, i as int),
            decreases list.len() - i,
        {
            assert(text::slices(list@)[i as int] == list@[i as int]@);
            let line = trimmed(list[i]);
            if has_prefix(line, "level-name=") {
                let name = trimmed(part(line, prefix.len(), line.len()));
                if name.len() > 0 {
                    return from_chars(name);
                }
            }
            i = i + 1;
        }
    }
    "world".to_string()
}

/// The directories that a new build takes over, where they are there: the
/// worlds.
pub open spec fn kept_dirs(properties: Option<Seq<char>>) -> Seq<Seq<char>> {
    let w = detected_world(properties);
    seq![w, w + "_nether"@, w + "_the_end"@]
}

/// The files that a new build takes over, where they are there.
pub open spec fn kept_files() -> Seq<Seq<char>> {
    seq![
        "server.properties"@,
        "ops.json"@,
        "whitelist.json"@,
        "banned-players.json"@,
        "banned-ips.json"@,
        "usercache.json"@,
    ]
}

/// What a new build takes over from the live server: the worlds, the settings
/// and the lists of players.
pub fn copy_persistent_state(properties: Option<&str>) -> (r: (Vec<String>, Vec<String>))
    ensures
        text::views(r.0@) == kept_dirs(
            text::str_view(properties),
        ),
        text::views(r.1@) == kept_files(),
{
    let world = detect_world_name(properties);
    let mut nether = world.clone();
    nether.append("_nether");
    let mut end = world.clone();
    end.append("_the_end");
    let ghost w = world@;
    let mut dirs: Vec<String> = Vec::new();
    dirs.push(world);
    dirs.push(nether);
    dirs.push(end);
    let mut files: Vec<String> = Vec::new();
    files.push("server.properties".to_string());
    files.push("ops.json".to_string());
    files.push("whitelist.json".to_string());
    files.push("banned-players.json".to_string());
    files.push("banned-ips.json".to_string());
    files.push("usercache.json".to_string());
    assert(text::views(dirs@) =~= seq![w, w + "_nether"@, w + "_the_end"@]);
    assert(text::views(files@) =~= kept_files());
    (dirs, files)
}

// ---------------------------------------------------------------------
// Commit
// ---------------------------------------------------------------------

/// Which step of a commit is under way.
#[derive(Debug, Clone, Copy, PartialEq, Eq, Structural)]
pub enum CommitStage {
    /// The phase is noted in the transaction's file.
    Marking,
    /// The live directory is looked for.
    Looking,
    /// The live directory is moved to the backup.
    MovingLive,
    /// The backup is noted in the transaction's file.
    NotingBackup,
    /// The staging directory is moved to the live one.
    MovingStaging,
    /// The backup is moved back, after something failed.
    Restoring,
    /// The phase is set back in the transaction's file, after something failed.
    Unmarking,
    /// The finished transaction is noted in the live directory.
    Sealing,
    /// The transaction's file, which came along with the build, is removed.
    Cleaning,
    /// It is over.
    Finished,
}

/// What to do next in a commit.
#[derive(Debug)]
pub enum CommitAction {
    /// Write the transaction's file.
    SaveMarker,
    /// Say whether the live directory is there.
    LookForLive,
    /// Rename one directory to another.
    Rename { from: String, to: String },
    /// Write the transaction to this file in the live directory.
    WriteLiveMarker(String),
    /// Remove this file of the live directory.
    RemoveMarker(String),
    /// It is over.
    Done(Result<TransactionMeta, String>),
}

/// How the last action ended.
#[derive(Debug, Clone)]
pub enum StepOutcome {
    /// It worked; for a look, whether the directory is there.
    Fine(bool),
    /// It did not, for this reason.
    Failed(String),
}

/// A commit under way.
#[derive(Debug)]
pub struct Commit {
    pub meta: TransactionMeta,
    /// The directory that holds the live one.
    pub parent: Option<String>,
    pub stage: CommitStage,
    pub error: Option<String>,
}

/// What the state of a commit comes down to.
pub struct CommitView {
    pub stage: CommitStage,
    pub phase: TransactionPhase,
    pub backup: Option<Seq<char>>,
    pub error: Option<Seq<char>>,
}

impl View for Commit {
    type V = CommitView;

    open spec fn view(&self) -> CommitView {
        CommitView {
            stage: self.stage,
            phase: self.meta.phase,
            backup: text::opt_view(self.meta.backup_path),
            error: text::opt_view(self.error),
        }
    }
}

/// Where the old build is kept.
pub open spec fn backup_of(m: TransactionMeta, parent: Seq<char>) -> Seq<char> {
    text::under(
        staging_root(parent),
        m.server_id@ + "-"@ + m.transaction_id@ + "-backup"@,
    )
}

/// The state after a failure, with nothing moved: the phase is set back.
pub open spec fn gave_up(v: CommitView, stage: CommitStage, why: Seq<char>) -> CommitView {
    CommitView { stage, phase: TransactionPhase::Building, error: Some(why), ..v }
}

/// The next state of a commit, given how its last action ended. Where the
/// backup is, if one is needed, is given too.
pub open spec fn committed_next(
    v: CommitView,
    outcome: StepOutcome,
    backup: Option<Seq<char>>,
) -> CommitView {
    match v.stage {
        CommitStage::Marking => match outcome {
            StepOutcome::Fine(_) => CommitView { stage: CommitStage::Looking, ..v },
            StepOutcome::Failed(e) => gave_up(v, CommitStage::Finished, e@),
        },
        CommitStage::Looking => match outcome {
            StepOutcome::Fine(true) => match backup {
                Some(_) => CommitView { stage: CommitStage::MovingLive, ..v },
                None => gave_up(
                    v,
                    CommitStage::Unmarking,
                    "Cannot determine parent for backup"@,
                ),
            },
            StepOutcome::Fine(false) => CommitView { stage: CommitStage::MovingStaging, ..v },
            StepOutcome::Failed(e) => gave_up(v, CommitStage::Unmarking, e@),
        },
        CommitStage::MovingLive => match outcome {
            StepOutcome::Fine(_) => CommitView {
                stage: CommitStage::NotingBackup,
                backup,
                ..v
            },
            StepOutcome::Failed(e) => gave_up(
                v,
                CommitStage::Unmarking,
                "Failed to rename live → backup: "@ + e@,
            ),
        },
        CommitStage::NotingBackup => match outcome {
            StepOutcome::Fine(_) => CommitView { stage: CommitStage::MovingStaging, ..v },
            StepOutcome::Failed(e) => gave_up(v, CommitStage::Restoring, e@),
        },
        CommitStage::MovingStaging => match outcome {
            StepOutcome::Fine(_) => CommitView {
                stage: CommitStage::Sealing,
                phase: TransactionPhase::Committed,
                ..v
            },
            StepOutcome::Failed(e) => gave_up(
                v,
                if v.backup is Some {
                    CommitStage::Restoring
                } else {
                    CommitStage::Unmarking
                },
                "Failed to rename staging → live: "@ + e@,
            ),
        },
        CommitStage::Restoring => CommitView { stage: CommitStage::Unmarking, ..v },
        CommitStage::Unmarking => CommitView { stage: CommitStage::Finished, ..v },
        CommitStage::Sealing => match outcome {
            StepOutcome::Fine(_) => CommitView { stage: CommitStage::Cleaning, ..v },
            StepOutcome::Failed(e) => CommitView {
                stage: CommitStage::Finished,
                error: Some("Failed to write commit marker: "@ + e@),
                ..v
            },
        },
        CommitStage::Cleaning => match outcome {
            StepOutcome::Fine(_) => CommitView { stage: CommitStage::Finished, ..v },
            StepOutcome::Failed(e) => CommitView {
                stage: CommitStage::Finished,
                error: Some("Failed to remove staging marker: "@ + e@),
                ..v
            },
        },
        CommitStage::Finished => v,
    }
}

/// What is done in a stage.
pub open spec fn action_of(c: Commit, a: CommitAction) -> bool {
    let backup = match c.parent {
        Some(p) => backup_of(c.meta, p@),
        None => seq![],
    };
    match c.stage {
        CommitStage::Marking => a is SaveMarker,
        CommitStage::Looking => a is LookForLive,
        CommitStage::MovingLive => a matches CommitAction::Rename { from, to } && from@
            == c.meta.live_path@ && to@ == backup,
        CommitStage::NotingBackup => a is SaveMarker,
        CommitStage::MovingStaging => a matches CommitAction::Rename { from, to } && from@
            == c.meta.staging_path@ && to@ == c.meta.live_path@,
        CommitStage::Restoring => a matches CommitAction::Rename { from, to } && text::opt_view(
            c.meta.backup_path,
        ) == Some(from@) && to@ == c.meta.live_path@,
        CommitStage::Unmarking => a is SaveMarker,
        CommitStage::Sealing => a matches CommitAction::WriteLiveMarker(p) && p@ == live_marker_of(
            c.meta,
        ),
        CommitStage::Cleaning => a matches CommitAction::RemoveMarker(p) && p@ == moved_marker_of(
            c.meta,
        ),
        CommitStage::Finished => a matches CommitAction::Done(r) && (match c.error {
            Some(e) => r is Err && r->Err_0@ == e@,
            None => r is Ok && r->Ok_0 == c.meta,
        }),
    }
}

impl Commit {
    /// The backup is noted once the live directory was moved, and only then.
    pub open spec fn valid(self) -> bool {
        &&& self.stage == CommitStage::MovingLive ==> self.parent is Some
        &&& self.stage == CommitStage::Restoring ==> self.meta.backup_path is Some
        &&& self.stage == CommitStage::NotingBackup ==> self.meta.backup_path is Some
    }

    /// Begins the commit of a transaction.
    pub fn begin(txn: InstallTransaction, parent: Option<String>) -> (r: (Self, CommitAction))
        ensures
            r.0.valid(),
            r.0.meta == (TransactionMeta { phase: TransactionPhase::Committing, ..txn.meta }),
            r.0.parent == parent,
            r.0.stage == CommitStage::Marking,
            r.0.error is None,
            action_of(r.0, r.1),
    {
        let mut meta = txn.meta;
        meta.phase = TransactionPhase::Committing;
        let c = Commit { meta, parent, stage: CommitStage::Marking, error: None };
        (c, CommitAction::SaveMarker)
    }

    /// Where the old build is kept.
    fn backup_path(&self) -> (r: Option<String>)
        ensures
            r is Some <==> self.parent is Some,
            r is Some ==> r->0@ == backup_of(self.meta, self.parent->0@),
    {
        match &self.parent {
            None => None,
            Some(p) => {
                let root = join_path(p.as_str(), ".lbby-staging");
                let mut name = self.meta.server_id.clone();
                name.append("-");
                name.append(self.meta.transaction_id.as_str());
                name.append("-backup");
                Some(join_path(root.as_str(), name.as_str()))
            },
        }
    }

    fn give_up(&mut self, stage: CommitStage, before: &str, why: &str)
        ensures
            final(self)@ == gave_up(old(self)@, stage, before@ + why@),
            final(self).parent == old(self).parent,
            final(self).meta == (TransactionMeta {
                phase: TransactionPhase::Building,
                ..old(self).meta
            }),
            final(self).stage == stage,
    {
        let mut s = before.to_string();
        s.append(why);
        self.stage = stage;
        self.meta.phase = TransactionPhase::Building;
        self.error = Some(s);
    }

    /// Takes how the last action ended, and says what is next.
    pub fn step(&mut self, outcome: &StepOutcome) -> (r: CommitAction)
        requires
            old(self).valid(),
        ensures
            final(self).valid(),
            final(self).parent == old(self).parent,
            final(self)@ == committed_next(
                old(self)@,
                *outcome,
                match old(self).parent {
                    Some(p) => Some(backup_of(old(self).meta, p@)),
                    None => None,
                },
            ),
            final(self).meta == (TransactionMeta {
                phase: final(self).meta.phase,
                backup_path: final(self).meta.backup_path,
                ..old(self).meta
            }),
            action_of(*final(self), r),
    {
        let none = String::new();
        assert(none@ + Seq::<char>::empty() =~= Seq::<char>::empty());
        match self.stage {
            CommitStage::Marking => match outcome {
                StepOutcome::Fine(_) => {
                    self.stage = CommitStage::Looking;
                },
                StepOutcome::Failed(e) => {
                    self.give_up(CommitStage::Finished, none.as_str(), e.as_str());
                    assert(none@ + e@ =~= e@);
                },
            },
            CommitStage::Looking => match outcome {
                StepOutcome::Fine(there) => {
                    if !*there {
                        self.stage = CommitStage::MovingStaging;
                    } else if self.parent.is_some() {
                        self.stage = CommitStage::MovingLive;
                    } else {
                        let why = "Cannot determine parent for backup";
                        self.give_up(CommitStage::Unmarking, none.as_str(), why);
                        assert(none@ + why@ =~= why@);
                    }
                },
                StepOutcome::Failed(e) => {
                    self.give_up(CommitStage::Unmarking, none.as_str(), e.as_str());
                    assert(none@ + e@ =~= e@);
                },
            },
            CommitStage::MovingLive => match outcome {
                StepOutcome::Fine(_) => {
                    self.stage = CommitStage::NotingBackup;
                    self.meta.backup_path = self.backup_path();
                },
                StepOutcome::Failed(e) => {
                    self.give_up(
                        CommitStage::Unmarking,
                        "Failed to rename live → backup: ",
                        e.as_str(),
                    );
                },
            },
            CommitStage::NotingBackup => match outcome {
                StepOutcome::Fine(_) => {
                    self.stage = CommitStage::MovingStaging;
                },
                StepOutcome::Failed(e) => {
                    self.give_up(CommitStage::Restoring, none.as_str(), e.as_str());
                    assert(none@ + e@ =~= e@);
                },
            },
            CommitStage::MovingStaging => match outcome {
                StepOutcome::Fine(_) => {
                    self.stage = CommitStage::Sealing;
                    self.meta.phase = TransactionPhase::Committed;
                },
                StepOutcome::Failed(e) => {
                    let stage = if self.meta.backup_path.is_some() {
                        CommitStage::Restoring
                    } else {
                        CommitStage::Unmarking
                    };
                    self.give_up(stage, "Failed to rename staging → live: ", e.as_str());
                },
            },
            CommitStage::Restoring => {
                self.stage = CommitStage::Unmarking;
            },
            CommitStage::Unmarking => {
                self.stage = CommitStage::Finished;
            },
            CommitStage::Sealing => match outcome {
                StepOutcome::Fine(_) => {
                    self.stage = CommitStage::Cleaning;
                },
                StepOutcome::Failed(e) => {
                    self.stage = CommitStage::Finished;
                    let mut s = String::from_str("Failed to write commit marker: ");
                    s.append(e.as_str());
                    self.error = Some(s);
                },
            },
            CommitStage::Cleaning => {
                self.stage = CommitStage::Finished;
                if let StepOutcome::Failed(e) = outcome {
                    let mut s = String::from_str("Failed to remove staging marker: ");
                    s.append(e.as_str());
                    self.error = Some(s);
                }
            },
            CommitStage::Finished => {},
        }
        self.action()
    }

    /// What is done in the current stage.
    fn action(&self) -> (r: CommitAction)
        requires
            self.valid(),
        ensures
            action_of(*self, r),
    {
        match self.stage {
            CommitStage::Marking => CommitAction::SaveMarker,
            CommitStage::Looking => CommitAction::LookForLive,
            CommitStage::MovingLive => {
                let to = match self.backup_path() {
                    Some(b) => b,
                    None => String::new(),
                };
                CommitAction::Rename { from: self.meta.live_path.clone(), to }
            },
            CommitStage::NotingBackup => CommitAction::SaveMarker,
            CommitStage::MovingStaging => CommitAction::Rename {
                from: self.meta.staging_path.clone(),
                to: self.meta.live_path.clone(),
            },
            CommitStage::Restoring => {
                let from = match &self.meta.backup_path {
                    Some(b) => b.clone(),
                    None => String::new(),
                };
                CommitAction::Rename { from, to: self.meta.live_path.clone() }
            },
            CommitStage::Unmarking => CommitAction::SaveMarker,
            CommitStage::Sealing => CommitAction::WriteLiveMarker(self.meta.live_marker_path()),
            CommitStage::Cleaning => CommitAction::RemoveMarker(self.meta.moved_marker_path()),
            CommitStage::Finished => match &self.error {
                Some(e) => CommitAction::Done(Err(e.clone())),
                None => CommitAction::Done(Ok(self.meta.copied())),
            },
        }
    }
}

/// What the three directories hold: a build has a number, and a directory that
/// is not there is `None`.
pub struct Builds {
    pub live: Option<int>,
    pub staging: Option<int>,
    pub backup: Option<int>,
    /// Whether the new build holds the transaction's file.
    pub marker: bool,
}

/// What the directories hold after a stage's action ended. An action that fails
/// changes nothing. The transaction's file is written into the staging directory
/// and moves with it.
pub open spec fn moved(b: Builds, stage: CommitStage, outcome: StepOutcome) -> Builds {
    if outcome is Failed {
        b
    } else {
        match stage {
            CommitStage::MovingLive => Builds { live: None, backup: b.live, ..b },
            CommitStage::MovingStaging => Builds { live: b.staging, staging: None, ..b },
            CommitStage::Restoring => Builds { live: b.backup, backup: None, ..b },
            CommitStage::Marking => Builds { marker: true, ..b },
            CommitStage::NotingBackup => Builds { marker: true, ..b },
            CommitStage::Unmarking => Builds { marker: true, ..b },
            CommitStage::Cleaning => Builds { marker: false, ..b },
            _ => b,
        }
    }
}

/// What the directories hold when a stage begins, given what was there before:
/// the old build is in its place, in the backup, or was replaced by the new one
/// and is in the backup.
pub open spec fn in_step(v: CommitView, b: Builds, old_build: Option<int>, new_build: int) -> bool {
    let before = b.live == old_build && b.staging == Some(new_build) && b.backup is None;
    let between = b.live is None && b.staging == Some(new_build) && b.backup == old_build;
    let after = b.live == Some(new_build) && b.staging is None && b.backup == old_build;
    match v.stage {
        CommitStage::Marking => before && v.error is None && v.backup is None,
        CommitStage::Looking => before && v.error is None && v.backup is None,
        CommitStage::MovingLive => before && v.error is None && old_build is Some && v.backup
            is None,
        CommitStage::NotingBackup => between && v.error is None && v.backup is Some && old_build
            is Some,
        CommitStage::MovingStaging => between && v.error is None && (v.backup is Some
            <==> old_build is Some),
        CommitStage::Restoring => between && v.error is Some && old_build is Some,
        CommitStage::Unmarking => v.error is Some && b.staging == Some(new_build) && (b.live
            == old_build || (b.live is None && b.backup == old_build)),
        CommitStage::Sealing => after && v.error is None && v.phase == TransactionPhase::Committed
            && (v.backup is Some <==> old_build is Some),
        CommitStage::Cleaning => after && v.error is None && v.phase == TransactionPhase::Committed
            && (v.backup is Some <==> old_build is Some),
        CommitStage::Finished => {
            ||| after && v.phase == TransactionPhase::Committed && (v.backup is Some <==> old_build
                is Some) && (v.error is None ==> !b.marker)
            ||| v.error is Some && b.staging == Some(new_build) && (b.live == old_build || (b.live
                is None && b.backup == old_build))
        },
    }
}

/// Each step of a commit leaves the directories as the next stage expects them,
/// where a look says truly whether the live directory is there.
pub proof fn law_commit_step(
    v: CommitView,
    b: Builds,
    outcome: StepOutcome,
    backup: Option<Seq<char>>,
    old_build: Option<int>,
    new_build: int,
)
    requires
        in_step(v, b, old_build, new_build),
        v.stage == CommitStage::Looking && outcome is Fine ==> outcome->Fine_0 == b.live is Some,
        v.stage == CommitStage::MovingLive ==> backup is Some,
    ensures
        in_step(
            committed_next(v, outcome, backup),
            moved(b, v.stage, outcome),
            old_build,
            new_build,
        ),
{
}

/// A commit that ends well has put the new build in place, without the file that
/// noted the transaction in it while it was staged, has kept the old build, if
/// there was one, as the backup, and says that the transaction is over. One that ends with an error has either done so too, or the old build is in
/// its place, or, where the move back failed as well, in the backup. The two
/// builds are never mixed.
pub proof fn law_commit_ends_whole(v: CommitView, b: Builds, old_build: Option<int>, new_build: int)
    requires
        v.stage == CommitStage::Finished,
        in_step(v, b, old_build, new_build),
    ensures
        v.error is None ==> b.live == Some(new_build) && !b.marker && b.staging is None && b.backup
            == old_build && (v.backup is Some <==> old_build is Some) && v.phase
            == TransactionPhase::Committed,
        b.live == Some(new_build) || b.live == old_build || (b.live is None && b.backup
            == old_build),
{
}

/// A commit whose move fails, and whose move back works, leaves the old build in
/// its place.
pub proof fn law_failed_commit_restores(
    v: CommitView,
    b: Builds,
    failed: StepOutcome,
    back: StepOutcome,
    backup: Option<Seq<char>>,
    old_build: int,
    new_build: int,
)
    requires
        v.stage == CommitStage::MovingStaging || v.stage == CommitStage::NotingBackup,
        in_step(v, b, Some(old_build), new_build),
        failed is Failed,
        back is Fine,
    ensures
        ({
            let v1 = committed_next(v, failed, backup);
            let b1 = moved(b, v.stage, failed);
            let b2 = moved(b1, v1.stage, back);
            v1.error is Some && v1.phase == TransactionPhase::Building && b2.live == Some(old_build)
        }),
{
}

// ---------------------------------------------------------------------
// Rollback, and what is left of transactions
// ---------------------------------------------------------------------

/// What a rollback does, in this order.
#[derive(Debug, Clone)]
pub struct RollbackPlan {
    /// Remove the staging directory.
    pub remove_staging: bool,
    /// Rename the backup to the live directory.
    pub restore: Option<(String, String)>,
}

impl InstallTransaction {
    /// What a rollback does: the staging directory goes, and where the live
    /// directory was already moved, the backup goes back to its place.
    pub fn rollback(&self, staging_exists: bool, backup_exists: bool, live_exists: bool) -> (r:
        RollbackPlan)
        ensures
            r.remove_staging == staging_exists,
            r.restore is Some <==> self.meta.phase == TransactionPhase::Committing
                && self.meta.backup_path is Some && backup_exists && !live_exists,
            r.restore is Some ==> (r.restore->0).0 == self.meta.backup_path->0 && (
            r.restore->0).1 == self.meta.live_path,
    {
        let mut restore: Option<(String, String)> = None;
        if self.meta.phase == TransactionPhase::Committing {
            if let Some(b) = &self.meta.backup_path {
                if backup_exists && !live_exists {
                    restore = Some((b.clone(), self.meta.live_path.clone()));
                }
            }
        }
        RollbackPlan { remove_staging: staging_exists, restore }
    }

    /// Which of the transactions found in the staging directories are the
    /// unfinished ones of the server at `live_path`, and which directories are
    /// those of finished ones and go. The unfinished ones of other servers are
    /// left alone.
    pub fn find_stale(live_path: &str, found: Vec<(String, TransactionMeta)>) -> (r: (
        Vec<TransactionMeta>,
        Vec<String>,
    ))
        ensures
            r.0@ == stale_below(live_path@, found@, found@.len() as int),
            r.1@ == finished_below(found@, found@.len() as int),
    {
        let mut stale: Vec<TransactionMeta> = Vec::new();
        let mut finished: Vec<String> = Vec::new();
        let mut i: usize = 0;
        while i < found.len()
            invariant
                i <= found.len(),
                stale@ == stale_below(live_path@, found@, i as int),
                finished@ == finished_below(found@, i as int),
            decreases found.len() - i,
        {
            let (dir, meta) = &found[i];
            if meta.phase == TransactionPhase::Committed {
                finished.push(dir.clone());
            } else if str_eq(meta.live_path.as_str(), live_path) {
                stale.push(meta.copied());
            }
            i = i + 1;
        }
        (stale, finished)
    }

    /// What goes with the file of a finished transaction in the live directory:
    /// the file, and the backup it names. An unfinished one stays.
    pub fn finished_leftovers(meta: &TransactionMeta) -> (r: Option<(String, Option<String>)>)
        ensures
            r is Some <==> meta.phase == TransactionPhase::Committed,
            r is Some ==> (r->0).0@ == live_marker_of(*meta) && (r->0).1 == meta.backup_path,
    {
        if meta.phase == TransactionPhase::Committed {
            Some((meta.live_marker_path(), meta.backup_path.clone()))
        } else {
            None
        }
    }

    /// What goes when the backup of a finished transaction is no longer needed:
    /// the backup, and the file in the live directory.
    pub fn cleanup_backup(meta: &TransactionMeta) -> (r: (Option<String>, String))
        ensures
            r.0 == meta.backup_path,
            r.1@ == live_marker_of(*meta),
    {
        (meta.backup_path.clone(), meta.live_marker_path())
    }
}

/// Whether a transaction is an unfinished one of the server at `live_path`.
pub open spec fn is_stale(live_path: Seq<char>, m: TransactionMeta) -> bool {
    m.phase != TransactionPhase::Committed && m.live_path@ == live_path
}

/// The unfinished ones of a server among the first `n` transactions.
pub open spec fn stale_below(
    live_path: Seq<char>,
    found: Seq<(String, TransactionMeta)>,
    n: int,
) -> Seq<TransactionMeta>
    decreases n,
{
    if n <= 0 {
        seq![]
    } else if is_stale(live_path, found[n - 1].1) {
        stale_below(live_path, found, n - 1).push(found[n - 1].1)
    } else {
        stale_below(live_path, found, n - 1)
    }
}

/// The directories of the finished ones among the first `n` transactions.
pub open spec fn finished_below(found: Seq<(String, TransactionMeta)>, n: int) -> Seq<String>
    decreases n,
{
    if n <= 0 {
        seq![]
    } else if found[n - 1].1.phase == TransactionPhase::Committed {
        finished_below(found, n - 1).push(found[n - 1].0)
    } else {
        finished_below(found, n - 1)
    }
}

/// Whether a directory is that of a finished one among the first `n`
/// transactions.
pub open spec fn holds_finished(
    found: Seq<(String, TransactionMeta)>,
    n: int,
    dir: String,
) -> bool {
    exists|k: int|
        0 <= k < n && (#[trigger] found[k]).1.phase == TransactionPhase::Committed && found[k].0
            == dir
}

/// A transaction that was found is reported just where it is unfinished and the
/// server's own, and its directory goes just where it is finished; nothing else
/// is reported or goes.
pub proof fn law_stale_or_finished(
    live_path: Seq<char>,
    found: Seq<(String, TransactionMeta)>,
    n: int,
)
    requires
        0 <= n <= found.len(),
    ensures
        forall|k: int|
            0 <= k < n && is_stale(live_path, (#[trigger] found[k]).1) ==> stale_below(
                live_path,
                found,
                n,
            ).contains(found[k].1),
        forall|k: int|
            0 <= k < n && (#[trigger] found[k]).1.phase == TransactionPhase::Committed
                ==> finished_below(found, n).contains(found[k].0),
        forall|j: int|
            0 <= j < stale_below(live_path, found, n).len() ==> is_stale(
                live_path,
                #[trigger] stale_below(live_path, found, n)[j],
            ) && exists|k: int|
                0 <= k < n && (#[trigger] found[k]).1 == stale_below(live_path, found, n)[j],
        forall|j: int|
            0 <= j < finished_below(found, n).len() ==> holds_finished(
                found,
                n,
                #[trigger] finished_below(found, n)[j],
            ),
    decreases n,
{
    if n > 0 {
        law_stale_or_finished(live_path, found, n - 1);
        let s0 = stale_below(live_path, found, n - 1);
        let f0 = finished_below(found, n - 1);
        let s1 = stale_below(live_path, found, n);
        let f1 = finished_below(found, n);
        assert forall|k: int| 0 <= k < n && is_stale(live_path, (#[trigger] found[k]).1) implies
            s1.contains(found[k].1) by {
            if k == n - 1 {
                assert(s1[s0.len() as int] == found[k].1);
            } else {
                let j = choose|j: int| 0 <= j < s0.len() && s0[j] == found[k].1;
                assert(s1[j] == found[k].1);
            }
        }
        assert forall|k: int|
            0 <= k < n && (#[trigger] found[k]).1.phase == TransactionPhase::Committed implies
            f1.contains(found[k].0) by {
            if k == n - 1 {
                assert(f1[f0.len() as int] == found[k].0);
            } else {
                let j = choose|j: int| 0 <= j < f0.len() && f0[j] == found[k].0;
                assert(f1[j] == found[k].0);
            }
        }
        assert forall|j: int| 0 <= j < s1.len() implies is_stale(live_path, #[trigger] s1[j])
            && exists|k: int| 0 <= k < n && (#[trigger] found[k]).1 == s1[j] by {
            if j < s0.len() {
                assert(s1[j] == s0[j]);
                let k = choose|k: int| 0 <= k < n - 1 && (#[trigger] found[k]).1 == s0[j];
                assert(found[k].1 == s1[j]);
            } else {
                assert(found[n - 1].1 == s1[j]);
            }
        }
        assert forall|j: int| 0 <= j < f1.len() implies holds_finished(
            found,
            n,
            #[trigger] f1[j],
        ) by {
            if j < f0.len() {
                assert(f1[j] == f0[j]);
                let k = choose|k: int|
                    0 <= k < n - 1 && (#[trigger] found[k]).1.phase == TransactionPhase::Committed
                        && found[k].0 == f0[j];
                assert(found[k].0 == f1[j]);
            } else {
                assert(found[n - 1].0 == f1[j]);
            }
        }
    }
}

// ---------------------------------------------------------------------
// What a commit comes to, and what a build takes over
// ---------------------------------------------------------------------

/// A commit all of whose actions succeed marks the transaction, looks, moves the
/// live build away where there is one and notes that, moves the staged build into
/// place, seals it and cleans up; it then is committed, and knows the backup.
pub proof fn law_good_commit_is_committed(
    v: CommitView,
    live: bool,
    a: bool,
    b: bool,
    c: bool,
    d: bool,
    e: bool,
    backup: Seq<char>,
)
    requires
        v == (CommitView {
            stage: CommitStage::Marking,
            phase: TransactionPhase::Committing,
            backup: None,
            error: None,
        }),
    ensures
        ({
            let place = Some(backup);
            let v1 = committed_next(v, StepOutcome::Fine(a), place);
            let v2 = committed_next(v1, StepOutcome::Fine(live), place);
            let m1 = committed_next(v2, StepOutcome::Fine(b), place);
            let m2 = committed_next(m1, StepOutcome::Fine(b), place);
            let v3 = if live {
                m2
            } else {
                v2
            };
            let v4 = committed_next(v3, StepOutcome::Fine(c), place);
            let v5 = committed_next(v4, StepOutcome::Fine(d), place);
            let v6 = committed_next(v5, StepOutcome::Fine(e), place);
            &&& v1.stage == CommitStage::Looking
            &&& live ==> v2.stage == CommitStage::MovingLive && m1.stage
                == CommitStage::NotingBackup && m1.backup == place
            &&& v3.stage == CommitStage::MovingStaging
            &&& v4.stage == CommitStage::Sealing
            &&& v5.stage == CommitStage::Cleaning
            &&& v6.stage == CommitStage::Finished
            &&& v6.phase == TransactionPhase::Committed
            &&& v6.error is None
            &&& v6.backup == (if live {
                place
            } else {
                None
            })
        }),
{
}

/// Whatever action fails, the commit ends with an error that says why; until the
/// new build is in place the transaction is then one that is still being built,
/// and after that it stays committed. Where the old build was moved away it is
/// moved back first.
pub proof fn law_failed_commit_says_why(v: CommitView, e: String, backup: Option<Seq<char>>)
    requires
        v.error is None,
    ensures
        ({
            let w = committed_next(v, StepOutcome::Failed(e), backup);
            let early = v.stage == CommitStage::Marking || v.stage == CommitStage::Looking
                || v.stage == CommitStage::MovingLive || v.stage == CommitStage::NotingBackup
                || v.stage == CommitStage::MovingStaging;
            let late = v.stage == CommitStage::Sealing || v.stage == CommitStage::Cleaning;
            &&& early || late ==> w.error is Some && text::ends_with(w.error->0, e@)
            &&& early ==> w.phase == TransactionPhase::Building
            &&& late ==> w.phase == v.phase && w.stage == CommitStage::Finished
            &&& v.stage == CommitStage::NotingBackup ==> w.stage == CommitStage::Restoring
            &&& v.stage == CommitStage::MovingStaging && v.backup is Some ==> w.stage
                == CommitStage::Restoring
            &&& v.stage == CommitStage::MovingStaging && v.backup is None ==> w.stage
                == CommitStage::Unmarking
            &&& v.stage == CommitStage::MovingLive ==> w.stage == CommitStage::Unmarking
        }),
{
    text_laws::law_ends(Seq::<char>::empty(), e@);
    assert(Seq::<char>::empty() + e@ =~= e@);
    text_laws::law_ends("Failed to rename live → backup: "@, e@);
    text_laws::law_ends("Failed to rename staging → live: "@, e@);
    text_laws::law_ends("Failed to write commit marker: "@, e@);
    text_laws::law_ends("Failed to remove staging marker: "@, e@);
}

/// A commit that has failed never ends well: its error stays.
pub proof fn law_error_of_a_commit_stays(
    v: CommitView,
    outcome: StepOutcome,
    backup: Option<Seq<char>>,
)
    requires
        v.error is Some,
        v.stage == CommitStage::Restoring || v.stage == CommitStage::Unmarking || v.stage
            == CommitStage::Finished,
    ensures
        committed_next(v, outcome, backup).error == v.error,
        v.stage == CommitStage::Restoring ==> committed_next(v, outcome, backup).stage
            == CommitStage::Unmarking,
        v.stage != CommitStage::Restoring ==> committed_next(v, outcome, backup).stage
            == CommitStage::Finished,
{
}

/// A new build takes over the three worlds of the live server under their names,
/// its settings, and its lists of players; and no other files.
pub proof fn law_what_a_build_takes_over(properties: Option<Seq<char>>, f: Seq<char>)
    ensures
        ({
            let w = detected_world(properties);
            &&& kept_dirs(properties).len() == 3
            &&& kept_dirs(properties).contains(w)
            &&& kept_dirs(properties).contains(w + "_nether"@)
            &&& kept_dirs(properties).contains(w + "_the_end"@)
        }),
        kept_files().contains(f) <==> f == "server.properties"@ || f == "ops.json"@ || f
            == "whitelist.json"@ || f == "banned-players.json"@ || f == "banned-ips.json"@ || f
            == "usercache.json"@,
{
    let d = kept_dirs(properties);
    assert(d[0] == detected_world(properties));
    assert(d[1] == detected_world(properties) + "_nether"@);
    assert(d[2] == detected_world(properties) + "_the_end"@);
    let k = kept_files();
    assert(k[0] == "server.properties"@ && k[1] == "ops.json"@ && k[2] == "whitelist.json"@ && k[3]
        == "banned-players.json"@ && k[4] == "banned-ips.json"@ && k[5] == "usercache.json"@);
    if k.contains(f) {
        let i = choose|i: int| 0 <= i < k.len() && k[i] == f;
        assert(i == 0 || i == 1 || i == 2 || i == 3 || i == 4 || i == 5);
    }
}

/// Whether a line names a world: `level-name=` at its start, blanks aside, and
/// something behind it.
pub open spec fn names_world(line: Seq<char>, name: Seq<char>) -> bool {
    exists|r: Seq<char>| #[trigger] world_line(text::trim(line), r, name)
}

/// Whether a line is `level-name=`, blanks and a name.
pub open spec fn world_line(line: Seq<char>, blanks: Seq<char>, name: Seq<char>) -> bool {
    line == "level-name="@ + blanks + name && text_laws::is_blank(blanks) && text_laws::is_core(
        name,
    )
}

/// The world is the one that the first line names that names any; where none does,
/// it is `world`.
pub proof fn law_world_is_the_one_that_is_named(content: Seq<char>, k: int, name: Seq<char>)
    ensures
        0 <= k < text::lines(content).len() && names_world(text::lines(content)[k], name) && (
        forall|n: int|
            0 <= n < k ==> !text::starts_with(
                text::trim(#[trigger] text::lines(content)[n]),
                "level-name="@,
            )) ==> detected_world(Some(content)) == name,
        (forall|n: int|
            0 <= n < text::lines(content).len() ==> !text::starts_with(
                text::trim(#[trigger] text::lines(content)[n]),
                "level-name="@,
            )) ==> detected_world(Some(content)) == "world"@,
        detected_world(None) == "world"@,
{
    let ls = text::lines(content);
    if 0 <= k < ls.len() && names_world(ls[k], name) && (forall|n: int|
        0 <= n < k ==> !text::starts_with(text::trim(#[trigger] ls[n]), "level-name="@)) {
        let line = text::trim(ls[k]);
        let r = choose|r: Seq<char>| #[trigger] world_line(line, r, name);
        let p = "level-name="@;
        assert(line =~= p + (r + name));
        text_laws::law_ends(p, r + name);
        assert(line.subrange(p.len() as int, line.len() as int) =~= r + name);
        assert(text_laws::is_blank(Seq::<char>::empty()));
        text_laws::law_trim(r, name, seq![]);
        assert(r + name + Seq::<char>::empty() =~= r + name);
        lemma_named_world(ls, 0, k);
    }
    if forall|n: int|
        0 <= n < ls.len() ==> !text::starts_with(text::trim(#[trigger] ls[n]), "level-name="@) {
        lemma_named_world(ls, 0, ls.len() as int);
    }
}

proof fn lemma_named_world(ls: Seq<Seq<char>>, i: int, k: int)
    requires
        0 <= i <= k <= ls.len(),
        forall|n: int|
            i <= n < k ==> !text::starts_with(text::trim(#[trigger] ls[n]), "level-name="@),
    ensures
        named_world(ls, i) == named_world(ls, k),
        named_world(ls, ls.len() as int) is None,
    decreases k - i,
{
    if i < k {
        lemma_named_world(ls, i + 1, k);
    }
}

/// The staging directory, the backup and the files of a transaction have their
/// places beside and in the live directory, and none is another's.
pub proof fn law_places(m: TransactionMeta, parent: Seq<char>)
    requires
        parent.len() > 0,
        parent.last() != '/',
        m.server_id@.len() > 0,
        m.server_id@[0] != '/',
        m.live_path@.len() > 0,
        m.live_path@.last() != '/',
        m.staging_path@.len() > 0,
        m.staging_path@.last() != '/',
    ensures
        staging_root(parent) == parent + "/.lbby-staging"@,
        backup_of(m, parent) == parent + "/.lbby-staging/"@ + m.server_id@ + "-"@
            + m.transaction_id@ + "-backup"@,
        marker_of(m) == m.staging_path@ + "/transaction.json"@,
        moved_marker_of(m) == m.live_path@ + "/transaction.json"@,
        live_marker_of(m) == m.live_path@ + "/.lbby-transaction.json"@,
{
    lemma_staging_root(parent);
    let name = m.server_id@ + "-"@ + m.transaction_id@ + "-backup"@;
    assert(backup_of(m, parent) == parent + "/.lbby-staging/"@ + m.server_id@ + "-"@
        + m.transaction_id@ + "-backup"@) by {
        let root = staging_root(parent);
        assert(name[0] == m.server_id@[0]);
        text_laws::law_under(root, name);
        let r2 = parent + "/.lbby-staging/"@;
        assert(r2 + name =~= r2 + m.server_id@ + "-"@ + m.transaction_id@ + "-backup"@);
    }
    lemma_markers(m.staging_path@);
    lemma_markers(m.live_path@);
}

proof fn lemma_staging_root(parent: Seq<char>)
    requires
        parent.len() > 0,
        parent.last() != '/',
    ensures
        staging_root(parent) == parent + "/.lbby-staging"@,
        staging_root(parent).len() > 0,
        staging_root(parent).last() != '/',
        staging_root(parent) + seq!['/'] == parent + "/.lbby-staging/"@,
{
    reveal_strlit(".lbby-staging");
    reveal_strlit("/.lbby-staging");
    reveal_strlit("/.lbby-staging/");
    let s = ".lbby-staging"@;
    text_laws::law_under(parent, s);
    assert("/.lbby-staging"@ =~= seq!['/'] + s);
    assert("/.lbby-staging/"@ =~= seq!['/'] + s + seq!['/']);
    assert(staging_root(parent) =~= parent + "/.lbby-staging"@);
    assert(staging_root(parent).last() == s.last());
    assert(staging_root(parent) + seq!['/'] =~= parent + "/.lbby-staging/"@);
}

proof fn lemma_markers(dir: Seq<char>)
    requires
        dir.len() > 0,
        dir.last() != '/',
    ensures
        text::under(dir, "transaction.json"@) == dir + "/transaction.json"@,
        text::under(dir, ".lbby-transaction.json"@) == dir + "/.lbby-transaction.json"@,
{
    reveal_strlit("transaction.json");
    reveal_strlit("/transaction.json");
    reveal_strlit(".lbby-transaction.json");
    reveal_strlit("/.lbby-transaction.json");
    text_laws::law_under(dir, "transaction.json"@);
    text_laws::law_under(dir, ".lbby-transaction.json"@);
    assert("/transaction.json"@ =~= seq!['/'] + "transaction.json"@);
    assert("/.lbby-transaction.json"@ =~= seq!['/'] + ".lbby-transaction.json"@);
    assert(dir + seq!['/'] + "transaction.json"@ =~= dir + "/transaction.json"@);
    assert(dir + seq!['/'] + ".lbby-transaction.json"@ =~= dir + "/.lbby-transaction.json"@);
}

/// The name of a server is the last part of the path of its directory.
pub proof fn law_server_is_named_by_its_directory(dir: Seq<char>, name: Seq<char>)
    requires
        name.len() > 0,
        forall|k: int| 0 <= k < name.len() ==> name[k] != '/',
        name != seq!['.'],
        name != seq!['.', '.'],
    ensures
        server_name(dir + seq!['/'] + name) == name,
{
    text_laws::law_file_name(dir, name);
}

/// Phases are told apart by their names, and a transaction is stale just where it
/// is of this server and not committed.
pub proof fn law_phases(p: TransactionPhase, q: TransactionPhase, live: Seq<char>, m: TransactionMeta)
    ensures
        p != q ==> phase_name(p) != phase_name(q),
        m.live_path@ != live ==> !is_stale(live, m),
        m.live_path@ == live && m.phase == TransactionPhase::Committed ==> !is_stale(live, m),
        m.live_path@ == live && (m.phase == TransactionPhase::Building || m.phase
            == TransactionPhase::PendingUserAction || m.phase == TransactionPhase::Committing)
            ==> is_stale(live, m),
{
    reveal_strlit("Building");
    reveal_strlit("PendingUserAction");
    reveal_strlit("Committing");
    reveal_strlit("Committed");
    assert("Building"@.len() == 8 && "PendingUserAction"@.len() == 17 && "Committing"@.len() == 10
        && "Committed"@.len() == 9);
}

/// A commit moves three directories alone: the live one to the backup and back, and
/// the staged one in its place; what it writes and removes besides is the files
/// that note the transaction.
pub proof fn law_what_a_commit_touches(c: Commit, a: CommitAction)
    requires
        action_of(c, a),
        c.valid(),
    ensures
        a matches CommitAction::Rename { from, to } ==> (from@ == c.meta.live_path@ && c.parent
            is Some && to@ == backup_of(c.meta, c.parent->0@)) || (from@ == c.meta.staging_path@
            && to@ == c.meta.live_path@) || (Some(from@) == text::opt_view(c.meta.backup_path)
            && to@ == c.meta.live_path@),
        a matches CommitAction::WriteLiveMarker(p) ==> p@ == live_marker_of(c.meta),
        a matches CommitAction::RemoveMarker(p) ==> p@ == moved_marker_of(c.meta),
        a is Done <==> c.stage == CommitStage::Finished,
        a matches CommitAction::Done(r) ==> (r is Ok <==> c.error is None) && (r matches Ok(m)
            ==> m == c.meta) && (r matches Err(e) ==> Some(e@) == text::opt_view(c.error)),
        c.stage == CommitStage::MovingLive ==> a is Rename && a->from@ == c.meta.live_path@,
        c.stage == CommitStage::MovingStaging ==> a is Rename && a->from@ == c.meta.staging_path@
            && a->to@ == c.meta.live_path@,
        c.stage == CommitStage::Restoring ==> a is Rename && a->to@ == c.meta.live_path@,
        c.stage == CommitStage::Looking ==> a is LookForLive,
        c.stage == CommitStage::Marking || c.stage == CommitStage::NotingBackup || c.stage
            == CommitStage::Unmarking ==> a is SaveMarker,
{
}

} // verus!
