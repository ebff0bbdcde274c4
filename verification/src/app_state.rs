//! The state that the parts of the application share, and the records that they
//! exchange about mods and plugins.
use std::cmp::Ordering;
use std::collections::VecDeque;

use vstd::prelude::*;

use crate::clock;
use crate::structured::Data;
use crate::text;
use crate::text_laws;

verus! {

/// How many console lines are kept.
pub const CONSOLE_BUFFER_CAP: usize = 2000;

/// How many joins of players are kept.
pub const RECENT_PLAYERS_CAP: usize = 50;

/// Which operation that must not overlap another is under way.
#[derive(Debug, Clone, Copy, PartialEq, Eq, Structural)]
pub enum OperationKind {
    /// None is.
    NoOperation,
    Starting,
    Stopping,
    Recovering,
    Restoring,
    Importing,
    Exporting,
    Installing,
    BackingUp,
    Resetting,
    DeletingProfile,
    ModMutation,
    PluginMutation,
}

impl Default for OperationKind {
    fn default() -> (r: Self)
        ensures
            r == OperationKind::NoOperation,
    {
        OperationKind::NoOperation
    }
}

/// The name of a kind of operation in messages.
pub open spec fn operation_name(k: OperationKind) -> Seq<char> {
    match k {
        OperationKind::NoOperation => "None"@,
        OperationKind::Starting => "Starting"@,
        OperationKind::Stopping => "Stopping"@,
        OperationKind::Recovering => "Recovering"@,
        OperationKind::Restoring => "Restoring"@,
        OperationKind::Importing => "Importing"@,
        OperationKind::Exporting => "Exporting"@,
        OperationKind::Installing => "Installing"@,
        OperationKind::BackingUp => "BackingUp"@,
        OperationKind::Resetting => "Resetting"@,
        OperationKind::DeletingProfile => "DeletingProfile"@,
        OperationKind::ModMutation => "ModMutation"@,
        OperationKind::PluginMutation => "PluginMutation"@,
    }
}

impl OperationKind {
    /// The name of the kind in messages.
    pub fn name(self) -> (r: &'static str)
        ensures
            r@ == operation_name(self),
    {
        match self {
            OperationKind::NoOperation => "None",
            OperationKind::Starting => "Starting",
            OperationKind::Stopping => "Stopping",
            OperationKind::Recovering => "Recovering",
            OperationKind::Restoring => "Restoring",
            OperationKind::Importing => "Importing",
            OperationKind::Exporting => "Exporting",
            OperationKind::Installing => "Installing",
            OperationKind::BackingUp => "BackingUp",
            OperationKind::Resetting => "Resetting",
            OperationKind::DeletingProfile => "DeletingProfile",
            OperationKind::ModMutation => "ModMutation",
            OperationKind::PluginMutation => "PluginMutation",
        }
    }
}

/// What all users of the server share about the operation under way.
#[derive(Debug, Clone, Copy, PartialEq, Eq, Structural)]
pub struct OperationSlot {
    /// Whether a guard is out.
    pub held: bool,
    pub kind: OperationKind,
}

/// Whether an operation may begin.
pub open spec fn slot_free(s: OperationSlot) -> bool {
    !s.held && s.kind == OperationKind::NoOperation
}

/// What is said to one who cannot begin.
pub open spec fn slot_refusal(s: OperationSlot) -> Seq<char> {
    if s.held {
        "Another operation is already in progress"@
    } else {
        "Another operation is already in progress: "@ + operation_name(s.kind)
    }
}

/// The slot while an operation is under way.
pub open spec fn slot_taken(kind: OperationKind) -> OperationSlot {
    OperationSlot { held: true, kind }
}

/// The slot while none is.
pub open spec fn empty_slot() -> OperationSlot {
    OperationSlot { held: false, kind: OperationKind::NoOperation }
}

impl OperationSlot {
    /// No operation is under way.
    pub fn new() -> (r: Self)
        ensures
            r == empty_slot(),
    {
        OperationSlot { held: false, kind: OperationKind::NoOperation }
    }
}

/// The right to run an operation. There is at most one for a slot, and it goes
/// back when the operation ends, however it ends.
#[derive(Debug, PartialEq, Eq, Structural)]
pub struct OperationGuard {
    pub kind: OperationKind,
}

impl OperationGuard {
    /// Takes the slot for an operation, at once or not at all.
    pub fn acquire(operation: &mut OperationSlot, kind: OperationKind) -> (r: Result<Self, String>)
        ensures
            slot_free(*old(operation)) <==> r is Ok,
            r is Ok ==> r->Ok_0.kind == kind && *final(operation) == slot_taken(kind),
            r is Err ==> *final(operation) == *old(operation) && r->Err_0@ == slot_refusal(
                *old(operation),
            ),
    {
        if operation.held {
            return Err(String::from_str("Another operation is already in progress"));
        }
        if operation.kind != OperationKind::NoOperation {
            let mut s = String::from_str("Another operation is already in progress: ");
            s.append(operation.kind.name());
            return Err(s);
        }
        operation.held = true;
        operation.kind = kind;
        Ok(OperationGuard { kind })
    }

    /// Gives the slot back.
    pub fn release(self, operation: &mut OperationSlot)
        ensures
            *final(operation) == empty_slot(),
    {
        operation.held = false;
        operation.kind = OperationKind::NoOperation;
    }
}

/// While an operation has the slot nobody else gets it, whatever the other
/// operation is; once it is given back the next one does.
pub proof fn law_one_operation_at_a_time(kind: OperationKind)
    ensures
        !slot_free(slot_taken(kind)),
        slot_free(empty_slot()),
{
}

/// What is changed on the server.
#[derive(Debug, Clone, Copy, PartialEq, Eq, Structural)]
pub enum MutationTarget {
    Mods,
    Plugins,
}

/// A status of the server, as far as changes go.
#[derive(Debug, Clone)]
pub struct StatusReport {
    /// Whether the server is stopped or has failed.
    pub at_rest: bool,
    /// The status in words.
    pub name: String,
}

/// The operation that a change is.
pub open spec fn mutation_kind(t: MutationTarget) -> OperationKind {
    match t {
        MutationTarget::Mods => OperationKind::ModMutation,
        MutationTarget::Plugins => OperationKind::PluginMutation,
    }
}

/// What is said where the server runs.
pub open spec fn running_refusal(t: MutationTarget, status: Seq<char>) -> Seq<char> {
    "Cannot modify "@ + (match t {
        MutationTarget::Mods => "mods"@,
        MutationTarget::Plugins => "plugins"@,
    }) + " while server is "@ + status + ". Stop the server first."@
}

/// What is said where the server started to run meanwhile.
pub open spec fn changed_refusal(t: MutationTarget, status: Seq<char>) -> Seq<char> {
    "Server state changed during "@ + (match t {
        MutationTarget::Mods => "mod"@,
        MutationTarget::Plugins => "plugin"@,
    }) + " operation setup: "@ + status
}

/// Takes the slot for a change to the server's content. `before` is the status
/// of the server at first, `under_guard` the one seen once the slot is taken:
/// where the server is no longer at rest by then, the slot goes back.
fn require_mutation_ready(
    operation: &mut OperationSlot,
    target: MutationTarget,
    before: &StatusReport,
    under_guard: &StatusReport,
) -> (r: Result<OperationGuard, String>)
    ensures
        r is Ok <==> before.at_rest && slot_free(*old(operation)) && under_guard.at_rest,
        r is Ok ==> r->Ok_0.kind == mutation_kind(target) && *final(operation) == slot_taken(
            mutation_kind(target),
        ),
        r is Err ==> *final(operation) == *old(operation),
        r is Err ==> r->Err_0@ == (if !before.at_rest {
            running_refusal(target, before.name@)
        } else if !slot_free(*old(operation)) {
            slot_refusal(*old(operation))
        } else {
            changed_refusal(target, under_guard.name@)
        }),
{
    if !before.at_rest {
        let mut s = String::from_str("Cannot modify ");
        match target {
            MutationTarget::Mods => {
                s.append("mods");
            },
            MutationTarget::Plugins => {
                s.append("plugins");
            },
        }
        s.append(" while server is ");
        s.append(before.name.as_str());
        s.append(". Stop the server first.");
        return Err(s);
    }
    let kind = match target {
        MutationTarget::Mods => OperationKind::ModMutation,
        MutationTarget::Plugins => OperationKind::PluginMutation,
    };
    let guard = match OperationGuard::acquire(operation, kind) {
        Ok(g) => g,
        Err(e) => {
            return Err(e);
        },
    };
    if !under_guard.at_rest {
        guard.release(operation);
        let mut s = String::from_str("Server state changed during ");
        match target {
            MutationTarget::Mods => {
                s.append("mod");
            },
            MutationTarget::Plugins => {
                s.append("plugin");
            },
        }
        s.append(" operation setup: ");
        s.append(under_guard.name.as_str());
        return Err(s);
    }
    Ok(guard)
}

/// The part of the shared state that is a plain value: the operation under way,
/// the console and the players who joined.
#[derive(Debug)]
pub struct AppState {
    pub current_operation: OperationSlot,
    pub console_buffer: VecDeque<String>,
    /// Names with the times of their joins, the latest first.
    pub recent_players: VecDeque<(String, String)>,
}

/// What is kept of a console that grew by a line.
pub open spec fn console_with(lines: Seq<String>, line: String) -> Seq<String> {
    (if lines.len() >= CONSOLE_BUFFER_CAP {
        lines.skip(1)
    } else {
        lines
    }).push(line)
}

/// What is kept of the joins after another one.
pub open spec fn joins_with(joins: Seq<(String, String)>, join: (String, String)) -> Seq<
    (String, String),
> {
    let all = seq![join] + joins;
    if all.len() > RECENT_PLAYERS_CAP {
        all.take(RECENT_PLAYERS_CAP as int)
    } else {
        all
    }
}

impl AppState {
    /// Nothing has happened yet.
    pub fn new() -> (r: Self)
        ensures
            r.current_operation == empty_slot(),
            r.console_buffer@.len() == 0,
            r.recent_players@.len() == 0,
    {
        AppState {
            current_operation: OperationSlot::new(),
            console_buffer: VecDeque::new(),
            recent_players: VecDeque::new(),
        }
    }

    /// Adds a line to the console, which forgets its oldest line where it is full.
    pub fn push_console_line(&mut self, line: String)
        requires
            old(self).console_buffer@.len() < usize::MAX,
        ensures
            final(self).console_buffer@ == console_with(old(self).console_buffer@, line),
            final(self).current_operation == old(self).current_operation,
            final(self).recent_players == old(self).recent_players,
    {
        if self.console_buffer.len() >= CONSOLE_BUFFER_CAP {
            let _ = self.console_buffer.pop_front();
            assert(self.console_buffer@ =~= old(self).console_buffer@.skip(1));
        }
        self.console_buffer.push_back(line);
    }

    /// Notes that a player joined now.
    pub fn record_player_join(&mut self, name: String)
        requires
            old(self).recent_players@.len() < usize::MAX,
        ensures
            exists|timestamp: String|
                clock::is_utc_stamp(timestamp@) && final(self).recent_players@
                    == #[trigger] joins_with(old(self).recent_players@, (name, timestamp)),
            final(self).current_operation == old(self).current_operation,
            final(self).console_buffer == old(self).console_buffer,
    {
        let timestamp = clock::utc_time();
        self.record_player_join_at(name, timestamp);
    }

    /// Notes that a player joined at a time.
    pub fn record_player_join_at(&mut self, name: String, timestamp: String)
        requires
            old(self).recent_players@.len() < usize::MAX,
        ensures
            final(self).recent_players@ == joins_with(
                old(self).recent_players@,
                (name, timestamp),
            ),
            final(self).current_operation == old(self).current_operation,
            final(self).console_buffer == old(self).console_buffer,
    {
        let ghost all = seq![(name, timestamp)] + self.recent_players@;
        self.recent_players.push_front((name, timestamp));
        assert(self.recent_players@ =~= all);
        while self.recent_players.len() > RECENT_PLAYERS_CAP
            invariant
                self.current_operation == old(self).current_operation,
                self.console_buffer == old(self).console_buffer,
                self.recent_players@.len() <= all.len(),
                self.recent_players@ == all.take(self.recent_players@.len() as int),
                all.len() > RECENT_PLAYERS_CAP ==> self.recent_players@.len()
                    >= RECENT_PLAYERS_CAP,
                all.len() <= RECENT_PLAYERS_CAP ==> self.recent_players@ == all,
            decreases self.recent_players@.len(),
        {
            let ghost before = self.recent_players@;
            let _ = self.recent_players.pop_back();
            assert(self.recent_players@ =~= before.take(before.len() - 1));
            assert(self.recent_players@ =~= all.take(before.len() - 1));
        }
    }

    /// Takes the slot for a change to the mods.
    pub fn require_mod_mutation_ready(
        &mut self,
        before: &StatusReport,
        under_guard: &StatusReport,
    ) -> (r: Result<OperationGuard, String>)
        ensures
            r is Ok <==> before.at_rest && slot_free(old(self).current_operation)
                && under_guard.at_rest,
            r is Ok ==> r->Ok_0.kind == OperationKind::ModMutation
                && final(self).current_operation == slot_taken(OperationKind::ModMutation),
            r is Err ==> final(self).current_operation == old(self).current_operation,
            r is Err ==> r->Err_0@ == (if !before.at_rest {
                running_refusal(MutationTarget::Mods, before.name@)
            } else if !slot_free(old(self).current_operation) {
                slot_refusal(old(self).current_operation)
            } else {
                changed_refusal(MutationTarget::Mods, under_guard.name@)
            }),
            final(self).console_buffer == old(self).console_buffer,
            final(self).recent_players == old(self).recent_players,
    {
        require_mutation_ready(
            &mut self.current_operation,
            MutationTarget::Mods,
            before,
            under_guard,
        )
    }

    /// Takes the slot for a change to the plugins. A change to the mods is in
    /// its way too, since both change what the server owns.
    pub fn require_plugin_mutation_ready(
        &mut self,
        before: &StatusReport,
        under_guard: &StatusReport,
    ) -> (r: Result<OperationGuard, String>)
        ensures
            r is Ok <==> before.at_rest && slot_free(old(self).current_operation)
                && under_guard.at_rest,
            r is Ok ==> r->Ok_0.kind == OperationKind::PluginMutation
                && final(self).current_operation == slot_taken(OperationKind::PluginMutation),
            r is Err ==> final(self).current_operation == old(self).current_operation,
            r is Err ==> r->Err_0@ == (if !before.at_rest {
                running_refusal(MutationTarget::Plugins, before.name@)
            } else if !slot_free(old(self).current_operation) {
                slot_refusal(old(self).current_operation)
            } else {
                changed_refusal(MutationTarget::Plugins, under_guard.name@)
            }),
            final(self).console_buffer == old(self).console_buffer,
            final(self).recent_players == old(self).recent_players,
    {
        require_mutation_ready(
            &mut self.current_operation,
            MutationTarget::Plugins,
            before,
            under_guard,
        )
    }
}

/// A console within its bound stays within it and ends in the new line.
pub proof fn law_console_bounded(lines: Seq<String>, line: String)
    requires
        lines.len() <= CONSOLE_BUFFER_CAP,
    ensures
        console_with(lines, line).len() <= CONSOLE_BUFFER_CAP,
        console_with(lines, line).last() == line,
        lines.len() < CONSOLE_BUFFER_CAP ==> console_with(lines, line) == lines.push(line),
{
}

/// The joins never exceed their bound, begin with the latest one, and keep the
/// order of the others.
pub proof fn law_joins_bounded(joins: Seq<(String, String)>, join: (String, String))
    ensures
        joins_with(joins, join).len() <= RECENT_PLAYERS_CAP,
        joins_with(joins, join)[0] == join,
        forall|i: int|
            1 <= i < joins_with(joins, join).len() ==> #[trigger] joins_with(joins, join)[i]
                == joins[i - 1],
{
}

/// How far the making of chunks in advance is.
#[derive(Debug, Clone, Copy, PartialEq, Eq, Structural)]
pub struct PregenState {
    pub running: bool,
    pub total: u32,
    pub completed: u32,
    pub cancel_requested: bool,
}

impl Default for PregenState {
    fn default() -> (r: Self)
        ensures
            r == (PregenState { running: false, total: 0, completed: 0, cancel_requested: false }),
    {
        PregenState { running: false, total: 0, completed: 0, cancel_requested: false }
    }
}

/// What still runs when the application closes.
#[derive(Debug, Clone, Copy, PartialEq, Eq, Structural)]
pub struct ShutdownStatus {
    pub server_running: bool,
    pub playit_running: bool,
    pub cloudflare_running: bool,
    pub remote_control_running: bool,
    pub any_running: bool,
}

impl Default for ShutdownStatus {
    fn default() -> (r: Self)
        ensures
            r == (ShutdownStatus {
                server_running: false,
                playit_running: false,
                cloudflare_running: false,
                remote_control_running: false,
                any_running: false,
            }),
    {
        ShutdownStatus {
            server_running: false,
            playit_running: false,
            cloudflare_running: false,
            remote_control_running: false,
            any_running: false,
        }
    }
}

/// A player who may not join.
#[derive(Debug, Clone)]
pub struct BannedPlayer {
    pub name: String,
    pub uuid: String,
    pub created: String,
    pub source: String,
    pub expires: String,
    pub reason: String,
}

/// A player who may join where not everyone may.
#[derive(Debug, Clone)]
pub struct WhitelistEntry {
    pub name: String,
    pub uuid: String,
}

/// An address that may not join.
#[derive(Debug, Clone)]
pub struct BannedIp {
    pub ip: String,
    pub name: String,
    pub created: String,
    pub source: String,
    pub expires: String,
    pub reason: String,
}

/// Who delivered a mod.
#[derive(Debug, Clone, Copy, PartialEq, Eq, Structural)]
pub enum ModProvider {
    Modrinth,
    CurseForge,
    Manual,
    Unknown,
}

impl Default for ModProvider {
    fn default() -> (r: Self)
        ensures
            r == ModProvider::Unknown,
    {
        ModProvider::Unknown
    }
}

/// The loader that a JAR's own metadata is for.
#[derive(Debug, Clone, Copy, PartialEq, Eq, Structural)]
pub enum DetectedLoader {
    Fabric,
    Quilt,
    Forge,
    NeoForge,
    MultiLoader,
    Unknown,
}

impl Default for DetectedLoader {
    fn default() -> (r: Self)
        ensures
            r == DetectedLoader::Unknown,
    {
        DetectedLoader::Unknown
    }
}

/// Whether a mod's file can be read.
#[derive(Debug, Clone, Copy, PartialEq, Eq, Structural)]
pub enum ModStatus {
    Readable,
    Unreadable,
}

impl Default for ModStatus {
    fn default() -> (r: Self)
        ensures
            r == ModStatus::Readable,
    {
        ModStatus::Readable
    }
}

/// What a look for an update of a mod found.
#[derive(Debug, Clone, Copy, PartialEq, Eq, Structural)]
pub enum UpdateStatus {
    /// The provider has nothing newer.
    UpToDate,
    /// The provider has something newer that fits.
    UpdateAvailable,
    /// Nobody knows where the mod came from.
    ProviderUnknown,
    /// The provider could not be asked.
    ProviderUnavailable,
    /// The provider has nothing that fits.
    NoCompatibleUpdate,
    /// The mod's file cannot be read.
    Unreadable,
    /// Something is in the way, such as another loader.
    Conflict,
}

impl Default for UpdateStatus {
    fn default() -> (r: Self)
        ensures
            r == UpdateStatus::UpToDate,
    {
        UpdateStatus::UpToDate
    }
}

/// How the update of one mod ended.
#[derive(Debug, Clone, Copy, PartialEq, Eq, Structural)]
pub enum UpdateOutcome {
    Updated,
    /// The mod is new, but where it came from was not noted.
    UpdatedUntracked,
    Skipped,
    Failed,
    UpToDate,
    Conflict,
    ProviderUnavailable,
}

impl Default for UpdateOutcome {
    fn default() -> (r: Self)
        ensures
            r == UpdateOutcome::UpToDate,
    {
        UpdateOutcome::UpToDate
    }
}

/// How the update of one mod among many ended.
#[derive(Debug, Clone)]
pub struct UpdateItemResult {
    pub file_name: String,
    pub display_name: String,
    pub outcome: UpdateOutcome,
    pub detail: String,
}

/// How the update of all mods ended.
#[derive(Debug, Clone)]
pub struct UpdateAllResult {
    pub mods: Vec<ModInfo>,
    pub results: Vec<UpdateItemResult>,
    pub warning: Option<String>,
}

/// A mod that needs another one.
#[derive(Debug, Clone)]
pub struct DependentInfo {
    pub file_name: String,
    pub display_name: String,
    pub mod_id: String,
    pub kind: String,
}

/// How the removal of a mod ended.
#[derive(Debug, Clone)]
pub struct RemoveResult {
    pub success: bool,
    pub dependents: Vec<DependentInfo>,
    pub warning: Option<String>,
}

/// Where a mod belongs.
#[derive(Debug, Clone, Copy, PartialEq, Eq, Structural)]
pub enum ModCompatibility {
    ServerOk,
    ClientOnly,
    Both,
    Unknown,
}

impl Default for ModCompatibility {
    fn default() -> (r: Self)
        ensures
            r == ModCompatibility::Unknown,
    {
        ModCompatibility::Unknown
    }
}

/// How sure that is.
#[derive(Debug, Clone, Copy, PartialEq, Eq, Structural)]
pub enum ModCompatConfidence {
    Explicit,
    /// Nothing says so.
    NoEvidence,
}

impl Default for ModCompatConfidence {
    fn default() -> (r: Self)
        ensures
            r == ModCompatConfidence::NoEvidence,
    {
        ModCompatConfidence::NoEvidence
    }
}

/// What says so.
#[derive(Debug, Clone, Copy, PartialEq, Eq, Structural)]
pub enum ModCompatSource {
    FabricMetadata,
    QuiltMetadata,
    ForgeMetadata,
    NeoForgeMetadata,
    ConflictingMetadata,
    /// Nothing does.
    NoSource,
}

impl Default for ModCompatSource {
    fn default() -> (r: Self)
        ensures
            r == ModCompatSource::NoSource,
    {
        ModCompatSource::NoSource
    }
}

/// A dependency of a mod, for display.
#[derive(Debug, Clone)]
pub struct InventoryDependency {
    pub mod_id: String,
    pub kind: String,
    pub version_requirement: Option<String>,
}

/// What is known of an installed mod.
#[derive(Debug, Clone)]
pub struct ModInfo {
    pub file_name: String,
    pub display_name: String,
    pub version: String,
    pub authors: Vec<String>,
    pub description: String,
    pub icon_data_url: Option<String>,
    /// Names the mod within its profile; no path.
    pub inventory_id: String,
    /// The ID that the mod declares.
    pub mod_id: Option<String>,
    pub loader: DetectedLoader,
    pub provider: ModProvider,
    /// The project at the provider.
    pub project_id: Option<String>,
    /// The version at the provider.
    pub file_version_id: Option<String>,
    /// The SHA-512 of the file.
    pub hash: Option<String>,
    pub compatibility: ModCompatibility,
    pub compatibility_confidence: ModCompatConfidence,
    pub compatibility_source: ModCompatSource,
    pub compatibility_reason: String,
    pub dependency_metadata: Vec<InventoryDependency>,
    pub status: ModStatus,
}

/// Whether nothing is known of where a mod came from, what it is and what it
/// needs.
pub open spec fn identity_unknown(m: ModInfo) -> bool {
    &&& m.inventory_id@.len() == 0
    &&& m.mod_id is None
    &&& m.loader == DetectedLoader::Unknown
    &&& m.provider == ModProvider::Unknown
    &&& m.project_id is None
    &&& m.file_version_id is None
    &&& m.hash is None
    &&& m.compatibility == ModCompatibility::Unknown
    &&& m.compatibility_confidence == ModCompatConfidence::NoEvidence
    &&& m.compatibility_source == ModCompatSource::NoSource
    &&& m.compatibility_reason@.len() == 0
    &&& m.dependency_metadata@.len() == 0
}

/// Whether nothing is known of a mod but that its file can be read.
pub open spec fn nothing_known(m: ModInfo) -> bool {
    &&& identity_unknown(m)
    &&& m.file_name@.len() == 0
    &&& m.display_name@.len() == 0
    &&& m.version@.len() == 0
    &&& m.authors@.len() == 0
    &&& m.description@.len() == 0
    &&& m.icon_data_url is None
    &&& m.status == ModStatus::Readable
}

impl Default for ModInfo {
    fn default() -> (r: Self)
        ensures
            nothing_known(r),
    {
        ModInfo {
            file_name: String::new(),
            display_name: String::new(),
            version: String::new(),
            authors: Vec::new(),
            description: String::new(),
            icon_data_url: None,
            inventory_id: String::new(),
            mod_id: None,
            loader: DetectedLoader::Unknown,
            provider: ModProvider::Unknown,
            project_id: None,
            file_version_id: None,
            hash: None,
            compatibility: ModCompatibility::Unknown,
            compatibility_confidence: ModCompatConfidence::NoEvidence,
            compatibility_source: ModCompatSource::NoSource,
            compatibility_reason: String::new(),
            dependency_metadata: Vec::new(),
            status: ModStatus::Readable,
        }
    }
}

/// How the installation of mods ended. A warning says that they are installed,
/// but that where they came from was not noted.
#[derive(Debug, Clone)]
pub struct InstallResult {
    pub mods: Vec<ModInfo>,
    pub warning: Option<String>,
}

/// How an action that the dashboard asked for ended.
#[derive(Debug)]
pub struct ActionResult {
    pub action_id: String,
    pub result: Option<Data>,
    pub error: Option<String>,
}

/// The kind of server that a plugin is for.
#[derive(Debug, Clone, Copy, PartialEq, Eq, Hash, Structural)]
pub enum PluginPlatform {
    Bukkit,
    Spigot,
    Paper,
    Purpur,
    Folia,
    Velocity,
    Waterfall,
    BungeeCord,
    Unknown,
}

impl Default for PluginPlatform {
    fn default() -> (r: Self)
        ensures
            r == PluginPlatform::Unknown,
    {
        PluginPlatform::Unknown
    }
}

/// Whether a plugin's file can be read.
#[derive(Debug, Clone, Copy, PartialEq, Eq, Structural)]
pub enum PluginStatus {
    Readable,
    Unreadable,
    UnknownMetadata,
}

impl Default for PluginStatus {
    fn default() -> (r: Self)
        ensures
            r == PluginStatus::UnknownMetadata,
    {
        PluginStatus::UnknownMetadata
    }
}

/// Whether a plugin fits the server.
#[derive(Debug, Clone, Copy, PartialEq, Eq, Structural)]
pub enum PluginCompatibility {
    Compatible,
    PlatformMismatch,
    VersionUnknown,
    FoliaUnknown,
    FoliaCompatible,
    FoliaIncompatible,
    ProxyPlugin,
    /// It is for a proxy, and the server is none.
    ProxyMismatch,
    /// It is for another version of the game.
    MinecraftVersionMismatch,
    /// Another plugin claims to be the same.
    IdentityConflict,
    Unknown,
    Unreadable,
}

impl Default for PluginCompatibility {
    fn default() -> (r: Self)
        ensures
            r == PluginCompatibility::Unknown,
    {
        PluginCompatibility::Unknown
    }
}

/// Who delivered a plugin.
#[derive(Debug, Clone, Copy, PartialEq, Eq, Structural)]
pub enum PluginProvider {
    Modrinth,
    Hangar,
    SpigotMC,
    CurseForge,
    Manual,
    Unknown,
}

impl Default for PluginProvider {
    fn default() -> (r: Self)
        ensures
            r == PluginProvider::Unknown,
    {
        PluginProvider::Unknown
    }
}

/// A plugin that another one names.
#[derive(Debug, Clone)]
pub struct PluginDependency {
    pub name: String,
    /// Whether it must be there.
    pub required: bool,
    /// Whether it is to be loaded later.
    pub load_before: bool,
}

/// What is known of an installed plugin.
#[derive(Debug, Clone)]
pub struct PluginInfo {
    pub inventory_id: String,
    pub file_name: String,
    pub display_name: Option<String>,
    pub plugin_name: Option<String>,
    pub version: Option<String>,
    pub main_class: Option<String>,
    pub authors: Vec<String>,
    pub description: Option<String>,
    pub website: Option<String>,
    pub api_version: Option<String>,
    pub platforms: Vec<PluginPlatform>,
    pub provider: Option<PluginProvider>,
    pub project_id: Option<String>,
    pub file_version_id: Option<String>,
    pub artifact_hash: Option<String>,
    pub status: PluginStatus,
    pub dependencies: Vec<PluginDependency>,
    pub folia_supported: Option<bool>,
}

/// Whether nothing is known of a plugin.
pub open spec fn nothing_known_of_plugin(m: PluginInfo) -> bool {
    &&& m.inventory_id@.len() == 0
    &&& m.file_name@.len() == 0
    &&& m.display_name is None
    &&& m.plugin_name is None
    &&& m.version is None
    &&& m.main_class is None
    &&& m.authors@.len() == 0
    &&& m.description is None
    &&& m.website is None
    &&& m.api_version is None
    &&& m.platforms@.len() == 0
    &&& m.provider is None
    &&& m.project_id is None
    &&& m.file_version_id is None
    &&& m.artifact_hash is None
    &&& m.status == PluginStatus::UnknownMetadata
    &&& m.dependencies@.len() == 0
    &&& m.folia_supported is None
}

impl Default for PluginInfo {
    fn default() -> (r: Self)
        ensures
            nothing_known_of_plugin(r),
    {
        PluginInfo {
            inventory_id: String::new(),
            file_name: String::new(),
            display_name: None,
            plugin_name: None,
            version: None,
            main_class: None,
            authors: Vec::new(),
            description: None,
            website: None,
            api_version: None,
            platforms: Vec::new(),
            provider: None,
            project_id: None,
            file_version_id: None,
            artifact_hash: None,
            status: PluginStatus::UnknownMetadata,
            dependencies: Vec::new(),
            folia_supported: None,
        }
    }
}

/// Where an installed plugin came from.
#[derive(Debug, Clone)]
pub struct PluginReceipt {
    pub schema_version: u32,
    pub provider: PluginProvider,
    pub project_id: String,
    pub file_version_id: Option<String>,
    pub filename: String,
    pub artifact_hash: String,
    pub platforms: Vec<PluginPlatform>,
    pub mc_version: Option<String>,
}

/// Whether a plugin fits, and why.
#[derive(Debug, Clone)]
pub struct PluginCompatResult {
    pub compatible: PluginCompatibility,
    pub source: String,
    pub reason: String,
}

/// How finished a release is. A finished one outranks one in testing, and that
/// one an early one.
#[derive(Debug, Clone, Copy, PartialEq, Eq, Structural)]
pub enum ReleaseChannel {
    Alpha,
    Beta,
    Release,
}

impl Default for ReleaseChannel {
    fn default() -> (r: Self)
        ensures
            r == ReleaseChannel::Release,
    {
        ReleaseChannel::Release
    }
}

/// How high a channel ranks.
pub open spec fn channel_rank(c: ReleaseChannel) -> int {
    match c {
        ReleaseChannel::Release => 2,
        ReleaseChannel::Beta => 1,
        ReleaseChannel::Alpha => 0,
    }
}

/// How two numbers compare.
pub open spec fn channel_order(a: int, b: int) -> Option<Ordering> {
    if a < b {
        Some(Ordering::Less)
    } else if a == b {
        Some(Ordering::Equal)
    } else {
        Some(Ordering::Greater)
    }
}

impl PartialOrd for ReleaseChannel {
    fn partial_cmp(&self, other: &Self) -> (r: Option<Ordering>) {
        match (*self, *other) {
            (ReleaseChannel::Release, ReleaseChannel::Release) => Some(Ordering::Equal),
            (ReleaseChannel::Release, _) => Some(Ordering::Greater),
            (_, ReleaseChannel::Release) => Some(Ordering::Less),
            (ReleaseChannel::Beta, ReleaseChannel::Beta) => Some(Ordering::Equal),
            (ReleaseChannel::Beta, _) => Some(Ordering::Greater),
            (_, ReleaseChannel::Beta) => Some(Ordering::Less),
            _ => Some(Ordering::Equal),
        }
    }
}

impl vstd::std_specs::cmp::PartialOrdSpecImpl for ReleaseChannel {
    open spec fn obeys_partial_cmp_spec() -> bool {
        true
    }

    open spec fn partial_cmp_spec(&self, other: &Self) -> Option<Ordering> {
        channel_order(channel_rank(*self), channel_rank(*other))
    }
}

/// A plugin that a provider offers.
#[derive(Debug, Clone)]
pub struct PluginCandidate {
    pub provider: PluginProvider,
    pub project_id: String,
    pub file_version_id: Option<String>,
    pub title: String,
    pub description: Option<String>,
    pub authors: Vec<String>,
    pub download_url: String,
    pub filename: String,
    pub hashes: PluginCandidateHashes,
    pub game_versions: Vec<String>,
    pub platforms: Vec<PluginPlatform>,
    pub release_channel: ReleaseChannel,
    pub published_at: Option<String>,
    pub icon_url: Option<String>,
    /// Whether it fits the server, where that is known.
    pub compatibility: Option<PluginCompatibility>,
}

/// The hashes that a provider gives, the strongest first.
#[derive(Debug, Clone, PartialEq)]
pub struct PluginCandidateHashes {
    pub sha512: Option<String>,
    pub sha256: Option<String>,
    pub sha1: Option<String>,
}

impl Default for PluginCandidateHashes {
    fn default() -> (r: Self)
        ensures
            r.sha512 is None,
            r.sha256 is None,
            r.sha1 is None,
    {
        PluginCandidateHashes { sha512: None, sha256: None, sha1: None }
    }
}

/// How the installation of a plugin ended.
#[derive(Debug, Clone)]
pub enum PluginInstallResult {
    Installed(PluginInfo),
    AlreadyInstalled,
    Conflict(String),
    Incompatible(PluginCompatResult),
    InstalledUntracked(PluginInfo),
    ProviderUnavailable(String),
}

/// What a provider can do.
#[derive(Debug, Clone, Copy, PartialEq, Eq, Structural)]
pub struct PluginProviderCapabilities {
    pub provider: PluginProvider,
    pub search: bool,
    pub project_lookup: bool,
    pub version_resolution: bool,
    pub direct_download: bool,
    pub hash_verification: bool,
    pub platform_filtering: bool,
    pub mc_version_filtering: bool,
}

/// What a search at a provider found.
#[derive(Debug, Clone)]
pub struct PluginSearchResult {
    pub candidates: Vec<PluginCandidate>,
    pub provider: PluginProvider,
    pub has_more: bool,
    pub total_hits: Option<u32>,
}

/// What a look for an update of a plugin found.
#[derive(Debug, Clone, PartialEq)]
pub enum PluginUpdateStatus {
    /// There is something newer that fits.
    UpdateAvailable {
        current_version: Option<String>,
        target_version: Option<String>,
        target_filename: String,
        download_url: String,
        hashes: PluginCandidateHashes,
        platforms: Vec<PluginPlatform>,
        game_versions: Vec<String>,
        release_channel: Option<String>,
    },
    /// There is nothing newer.
    UpToDate,
    /// The provider could not be asked.
    ProviderUnavailable(String),
    /// The provider gives no answer that can be trusted.
    ProviderUnknown,
    /// The provider has nothing that fits.
    NoCompatibleUpdate,
    /// It is not known whether anything fits.
    CompatibilityUnknown,
    /// Another plugin claims to be the same.
    Conflict(String),
    /// The plugin's file cannot be read.
    Unreadable,
}

impl PluginUpdateStatus {
    /// The version that could be installed.
    pub fn clone_target_version(&self) -> (r: Option<String>)
        ensures
            match *self {
                PluginUpdateStatus::UpdateAvailable { target_version, .. } => r == target_version,
                _ => r is None,
            },
    {
        match self {
            PluginUpdateStatus::UpdateAvailable { target_version, .. } => target_version.clone(),
            _ => None,
        }
    }

    /// The file that could be installed.
    pub fn clone_target_filename(&self) -> (r: Option<String>)
        ensures
            match *self {
                PluginUpdateStatus::UpdateAvailable { target_filename, .. } => r == Some(
                    target_filename,
                ),
                _ => r is None,
            },
    {
        match self {
            PluginUpdateStatus::UpdateAvailable { target_filename, .. } => Some(
                target_filename.clone(),
            ),
            _ => None,
        }
    }
}

/// How the update of one plugin ended.
#[derive(Debug, Clone)]
pub enum PluginUpdateOutcome {
    Updated(PluginInfo),
    /// The plugin is new, but where it came from was not noted.
    UpdatedUntracked(PluginInfo),
    Skipped,
    /// The old plugin is still there.
    Failed(String),
    UpToDate,
    Conflict(String),
    ProviderUnavailable(String),
    Incompatible(PluginCompatResult),
}

/// How the removal of one plugin ended.
#[derive(Debug, Clone)]
pub enum PluginRemoveOutcome {
    Removed,
    /// The plugin is gone, but its receipt is not.
    RemovedUntracked,
    /// Others need it.
    BlockedByDependents { dependents: Vec<String> },
    Conflict(String),
    NotFound,
}

/// How the update of many plugins ended.
#[derive(Debug, Clone)]
pub struct PluginBatchUpdateResult {
    pub items: Vec<(String, PluginUpdateOutcome)>,
    pub updated_count: u32,
    pub failed_count: u32,
    pub skipped_count: u32,
}

/// Whether an installed plugin fits the server as it is set up now.
#[derive(Debug, Clone, Copy, PartialEq, Eq, Structural)]
pub enum PluginRuntimeCompatibility {
    Compatible,
    PlatformMismatch,
    FoliaUnknown,
    FoliaCompatible,
    FoliaIncompatible,
    ProxyPlugin,
    ProxyMismatch,
    MinecraftVersionMismatch,
    Unknown,
    Unreadable,
    Ambiguous,
}

/// What a look for an update of an installed plugin found.
#[derive(Debug, Clone)]
pub struct PluginUpdateCheckResult {
    pub inventory_id: String,
    pub plugin_name: Option<String>,
    pub current_version: Option<String>,
    pub status: PluginUpdateStatus,
    pub provider: PluginProvider,
}

/// What an installed plugin needs.
#[derive(Debug, Clone)]
pub struct PluginDependencyNode {
    pub inventory_id: String,
    pub plugin_name: Option<String>,
    pub hard_dependencies: Vec<String>,
    pub soft_dependencies: Vec<String>,
    pub load_before: Vec<String>,
}

/// What the installed plugins need.
#[derive(Debug, Clone)]
pub struct PluginDependencyGraph {
    pub nodes: Vec<PluginDependencyNode>,
    pub conflicts: Vec<String>,
}

/// An installed plugin, and whether it fits.
#[derive(Debug, Clone)]
pub struct PluginInventoryEntry {
    pub info: PluginInfo,
    pub runtime_compat: PluginRuntimeCompatibility,
    pub update_status: Option<PluginUpdateStatus>,
}

/// The console keeps the last 2000 lines and the list of joins the last 50: what is
/// forgotten is the oldest, one at a time, and the others keep their order.
pub proof fn law_the_oldest_is_forgotten(
    lines: Seq<String>,
    line: String,
    joins: Seq<(String, String)>,
    join: (String, String),
)
    ensures
        lines.len() == 2000 ==> console_with(lines, line) == lines.skip(1).push(line),
        lines.len() < 2000 ==> console_with(lines, line) == lines.push(line),
        joins.len() < 50 ==> joins_with(joins, join) == seq![join] + joins,
        joins.len() == 50 ==> joins_with(joins, join) == seq![join] + joins.take(49),
{
    if joins.len() == 50 {
        assert((seq![join] + joins).take(50) =~= seq![join] + joins.take(49));
    }
}

/// What is said to one who must wait names what is in the way: the operation, or
/// the state of the server.
pub proof fn law_refusals_say_what_is_in_the_way(s: OperationSlot, t: MutationTarget, status: Seq<char>)
    ensures
        !s.held ==> text::ends_with(slot_refusal(s), operation_name(s.kind)),
        text::contains(running_refusal(t, status), status),
        text::ends_with(changed_refusal(t, status), status),
        mutation_kind(MutationTarget::Mods) == OperationKind::ModMutation,
        mutation_kind(MutationTarget::Plugins) == OperationKind::PluginMutation,
{
    text_laws::law_ends("Another operation is already in progress: "@, operation_name(s.kind));
    let w = match t {
        MutationTarget::Mods => "mods"@,
        MutationTarget::Plugins => "plugins"@,
    };
    let x = match t {
        MutationTarget::Mods => "mod"@,
        MutationTarget::Plugins => "plugin"@,
    };
    text_laws::law_contains_what_was_put_in(
        "Cannot modify "@ + w + " while server is "@,
        status,
        ". Stop the server first."@,
    );
    text_laws::law_ends("Server state changed during "@ + x + " operation setup: "@, status);
}

/// The slot is free just where nobody holds it and no operation is named.
pub proof fn law_when_the_slot_is_free(s: OperationSlot)
    ensures
        s.held ==> !slot_free(s),
        s.kind != OperationKind::NoOperation ==> !slot_free(s),
        !s.held && s.kind == OperationKind::NoOperation ==> slot_free(s),
        slot_taken(s.kind).held && slot_taken(s.kind).kind == s.kind,
        !empty_slot().held && empty_slot().kind == OperationKind::NoOperation,
{
}

/// A finished release ranks above a beta, and that above an alpha.
pub proof fn law_channels_rank()
    ensures
        channel_rank(ReleaseChannel::Release) > channel_rank(ReleaseChannel::Beta),
        channel_rank(ReleaseChannel::Beta) > channel_rank(ReleaseChannel::Alpha),
{
}

} // verus!
