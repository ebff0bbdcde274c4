//! Server profiles: the settings of each server, which one is active, and the
//! file that holds them. Reading and writing the file is the caller's.
use vstd::prelude::*;

use crate::identifiers;
use crate::server_properties;
use crate::text;
use crate::text_laws;
use crate::text::{
    dec_string, from_chars, has_prefix, has_sub, join, join_path, split_char,
    split_lines, str_eq, to_chars, trimmed,
};

verus! {

/// The version of the file that this program writes.
pub const PROFILES_SCHEMA_VERSION: u32 = 1;

/// The game that a profile is for.
#[derive(Debug, Clone, Copy, PartialEq, Eq, Hash, Structural)]
pub enum Game {
    Minecraft,
    Terraria,
}

impl Default for Game {
    fn default() -> (r: Self)
        ensures
            r == Game::Minecraft,
    {
        Game::Minecraft
    }
}

/// The port on which a game's servers listen.
pub open spec fn game_port(g: Game) -> u16 {
    match g {
        Game::Minecraft => 25565,
        Game::Terraria => 7777,
    }
}

/// The name of a game.
pub open spec fn game_name(g: Game) -> Seq<char> {
    match g {
        Game::Minecraft => "Minecraft"@,
        Game::Terraria => "Terraria"@,
    }
}

impl Game {
    pub fn is_minecraft(&self) -> (r: bool)
        ensures
            r == (*self == Game::Minecraft),
    {
        *self == Game::Minecraft
    }

    pub fn is_terraria(&self) -> (r: bool)
        ensures
            r == (*self == Game::Terraria),
    {
        *self == Game::Terraria
    }

    /// The port on which the game's servers listen.
    pub fn default_port(&self) -> (r: u16)
        ensures
            r == game_port(*self),
    {
        match self {
            Game::Minecraft => 25565,
            Game::Terraria => 7777,
        }
    }

    /// The name of the game.
    pub fn display_name(&self) -> (r: &'static str)
        ensures
            r@ == game_name(*self),
    {
        match self {
            Game::Minecraft => "Minecraft",
            Game::Terraria => "Terraria",
        }
    }
}

/// The kind of server.
#[derive(Debug, Clone, Copy, PartialEq, Eq, Structural)]
pub enum ServerType {
    Vanilla,
    Paper,
    Forge,
    Fabric,
    NeoForge,
    Bukkit,
    Spigot,
    Folia,
    Purpur,
    SpongeVanilla,
    SpongeForge,
    /// Terraria without mods.
    Terraria,
    /// Terraria with mods.
    TModLoader,
}

impl Default for ServerType {
    fn default() -> (r: Self)
        ensures
            r == ServerType::Vanilla,
    {
        ServerType::Vanilla
    }
}

/// The name of a kind of server in messages.
pub open spec fn type_word(t: ServerType) -> Seq<char> {
    match t {
        ServerType::Vanilla => "Vanilla"@,
        ServerType::Paper => "Paper"@,
        ServerType::Forge => "Forge"@,
        ServerType::Fabric => "Fabric"@,
        ServerType::NeoForge => "NeoForge"@,
        ServerType::Bukkit => "Bukkit"@,
        ServerType::Spigot => "Spigot"@,
        ServerType::Folia => "Folia"@,
        ServerType::Purpur => "Purpur"@,
        ServerType::SpongeVanilla => "SpongeVanilla"@,
        ServerType::SpongeForge => "SpongeForge"@,
        ServerType::Terraria => "Terraria"@,
        ServerType::TModLoader => "TModLoader"@,
    }
}

/// The key of a kind of server in stored and sent data.
pub open spec fn type_key(t: ServerType) -> Seq<char> {
    match t {
        ServerType::Vanilla => "vanilla"@,
        ServerType::Paper => "paper"@,
        ServerType::Forge => "forge"@,
        ServerType::Fabric => "fabric"@,
        ServerType::NeoForge => "neoforge"@,
        ServerType::Bukkit => "bukkit"@,
        ServerType::Spigot => "spigot"@,
        ServerType::Folia => "folia"@,
        ServerType::Purpur => "purpur"@,
        ServerType::SpongeVanilla => "spongevanilla"@,
        ServerType::SpongeForge => "spongeforge"@,
        ServerType::Terraria => "terraria"@,
        ServerType::TModLoader => "tmodloader"@,
    }
}

/// The label of a kind of server.
pub open spec fn type_label(t: ServerType) -> Seq<char> {
    match t {
        ServerType::Vanilla => "Vanilla"@,
        ServerType::Paper => "Paper"@,
        ServerType::Forge => "Forge"@,
        ServerType::Fabric => "Fabric"@,
        ServerType::NeoForge => "NeoForge"@,
        ServerType::Bukkit => "Bukkit"@,
        ServerType::Spigot => "Spigot"@,
        ServerType::Folia => "Folia"@,
        ServerType::Purpur => "Purpur"@,
        ServerType::SpongeVanilla => "SpongeVanilla"@,
        ServerType::SpongeForge => "SpongeForge"@,
        ServerType::Terraria => "Terraria"@,
        ServerType::TModLoader => "tModLoader"@,
    }
}

/// The game of a kind of server.
pub open spec fn type_game(t: ServerType) -> Game {
    if t == ServerType::Terraria || t == ServerType::TModLoader {
        Game::Terraria
    } else {
        Game::Minecraft
    }
}

/// Whether a kind of server loads plugins from a directory `plugins`.
pub open spec fn type_has_plugins(t: ServerType) -> bool {
    t == ServerType::Paper || t == ServerType::Bukkit || t == ServerType::Spigot || t
        == ServerType::Folia || t == ServerType::Purpur || t == ServerType::SpongeVanilla || t
        == ServerType::SpongeForge
}

impl ServerType {
    /// The name in messages.
    pub fn name(&self) -> (r: &'static str)
        ensures
            r@ == type_word(*self),
    {
        match self {
            ServerType::Vanilla => "Vanilla",
            ServerType::Paper => "Paper",
            ServerType::Forge => "Forge",
            ServerType::Fabric => "Fabric",
            ServerType::NeoForge => "NeoForge",
            ServerType::Bukkit => "Bukkit",
            ServerType::Spigot => "Spigot",
            ServerType::Folia => "Folia",
            ServerType::Purpur => "Purpur",
            ServerType::SpongeVanilla => "SpongeVanilla",
            ServerType::SpongeForge => "SpongeForge",
            ServerType::Terraria => "Terraria",
            ServerType::TModLoader => "TModLoader",
        }
    }

    /// The key in stored and sent data.
    pub fn key(&self) -> (r: &'static str)
        ensures
            r@ == type_key(*self),
    {
        match self {
            ServerType::Vanilla => "vanilla",
            ServerType::Paper => "paper",
            ServerType::Forge => "forge",
            ServerType::Fabric => "fabric",
            ServerType::NeoForge => "neoforge",
            ServerType::Bukkit => "bukkit",
            ServerType::Spigot => "spigot",
            ServerType::Folia => "folia",
            ServerType::Purpur => "purpur",
            ServerType::SpongeVanilla => "spongevanilla",
            ServerType::SpongeForge => "spongeforge",
            ServerType::Terraria => "terraria",
            ServerType::TModLoader => "tmodloader",
        }
    }

    /// The label for display.
    pub fn label(&self) -> (r: &'static str)
        ensures
            r@ == type_label(*self),
    {
        match self {
            ServerType::Vanilla => "Vanilla",
            ServerType::Paper => "Paper",
            ServerType::Forge => "Forge",
            ServerType::Fabric => "Fabric",
            ServerType::NeoForge => "NeoForge",
            ServerType::Bukkit => "Bukkit",
            ServerType::Spigot => "Spigot",
            ServerType::Folia => "Folia",
            ServerType::Purpur => "Purpur",
            ServerType::SpongeVanilla => "SpongeVanilla",
            ServerType::SpongeForge => "SpongeForge",
            ServerType::Terraria => "Terraria",
            ServerType::TModLoader => "tModLoader",
        }
    }

    /// The game.
    pub fn game(&self) -> (r: Game)
        ensures
            r == type_game(*self),
    {
        match self {
            ServerType::Terraria => Game::Terraria,
            ServerType::TModLoader => Game::Terraria,
            _ => Game::Minecraft,
        }
    }

    /// Whether the server runs on Java: all of Minecraft's do.
    pub fn needs_java(&self) -> (r: bool)
        ensures
            r == (type_game(*self) == Game::Minecraft),
    {
        self.game().is_minecraft()
    }

    /// Whether the server takes mods or plugins: all but the two plain ones do.
    pub fn supports_mods(&self) -> (r: bool)
        ensures
            r == (*self != ServerType::Vanilla && *self != ServerType::Terraria),
    {
        !(*self == ServerType::Vanilla || *self == ServerType::Terraria)
    }

    /// Whether the server loads plugins.
    pub fn is_plugin_platform(&self) -> (r: bool)
        ensures
            r == type_has_plugins(*self),
    {
        *self == ServerType::Paper || *self == ServerType::Bukkit || *self == ServerType::Spigot
            || *self == ServerType::Folia || *self == ServerType::Purpur || *self
            == ServerType::SpongeVanilla || *self == ServerType::SpongeForge
    }
}

/// The settings of a server.
#[derive(Debug, Clone)]
pub struct ServerConfig {
    pub server_path: String,
    pub java_path: String,
    pub minecraft_version: String,
    pub server_type: ServerType,
    pub curseforge_api_key: Option<String>,
    /// Version of the mod loader, or build number of the server.
    pub loader_version: Option<String>,
    pub ram_mb: u32,
    pub max_players: u32,
    pub server_name: String,
    /// World seed; empty is random.
    pub minecraft_seed: String,
    pub setup_complete: bool,
    /// Start the server again when it exits by itself.
    pub auto_restart: bool,
    /// Hours between restarts; 0 is never.
    pub scheduled_restart_hours: u32,
    /// Minutes between backups; 0 is never.
    pub backup_interval_minutes: u32,
    /// Where backups go; empty is the downloads folder.
    pub backup_dir: String,
    /// Whether backups hold the logs.
    pub backup_include_logs: bool,
    /// Use flags that suit the game.
    pub optimized_jvm_flags: bool,
    /// The preset that was chosen.
    pub performance_preset: String,
    /// Whether the server can be controlled from the network.
    pub remote_control_enabled: bool,
    pub remote_control_port: u16,
    /// The token that this needs.
    pub remote_control_token: String,
    /// Where it is reached from outside.
    pub remote_control_public_url: String,
    /// Whether a tunnel starts with the program.
    pub cloudflare_remote_enabled: bool,
    pub terraria_version: String,
    pub tmodloader_version: String,
    /// 0 classic, 1 expert, 2 master, 3 journey.
    pub terraria_difficulty: u8,
    /// 1 small, 2 medium, 3 large.
    pub terraria_world_size: u8,
    /// World seed; empty is random.
    pub terraria_seed: String,
    /// 0 random, 1 corruption, 2 crimson.
    pub terraria_evil: u8,
    /// Empty is none.
    pub terraria_password: String,
    /// Empty is the usual directory.
    pub tmod_modpath: String,
    /// Empty is the list of enabled mods.
    pub tmod_modpack: String,
    /// Where the state of the server is reported.
    pub dashboard_url: String,
    /// The token for that.
    pub app_token: String,
    /// Whether players are authenticated; as the file says where it is not given.
    pub online_mode: Option<bool>,
    /// Seconds between reports; 0 is never.
    pub heartbeat_interval_secs: u64,
    /// Whether the user accepted the licence.
    pub eula_accepted: bool,
}

/// The settings that nobody made: everything empty, zero or off.
pub open spec fn is_default_config(c: ServerConfig) -> bool {
    &&& c.server_path@.len() == 0
    &&& c.java_path@.len() == 0
    &&& c.minecraft_version@.len() == 0
    &&& c.server_type == ServerType::Vanilla
    &&& c.curseforge_api_key is None
    &&& c.loader_version is None
    &&& c.ram_mb == 0
    &&& c.max_players == 0
    &&& c.server_name@.len() == 0
    &&& c.minecraft_seed@.len() == 0
    &&& !c.setup_complete
    &&& !c.auto_restart
    &&& c.scheduled_restart_hours == 0
    &&& c.backup_interval_minutes == 0
    &&& c.backup_dir@.len() == 0
    &&& !c.backup_include_logs
    &&& !c.optimized_jvm_flags
    &&& c.performance_preset@.len() == 0
    &&& !c.remote_control_enabled
    &&& c.remote_control_port == 0
    &&& c.remote_control_token@.len() == 0
    &&& c.remote_control_public_url@.len() == 0
    &&& !c.cloudflare_remote_enabled
    &&& c.terraria_version@.len() == 0
    &&& c.tmodloader_version@.len() == 0
    &&& c.terraria_difficulty == 0
    &&& c.terraria_world_size == 0
    &&& c.terraria_seed@.len() == 0
    &&& c.terraria_evil == 0
    &&& c.terraria_password@.len() == 0
    &&& c.tmod_modpath@.len() == 0
    &&& c.tmod_modpack@.len() == 0
    &&& c.dashboard_url@.len() == 0
    &&& c.app_token@.len() == 0
    &&& c.online_mode is None
    &&& c.heartbeat_interval_secs == 0
    &&& !c.eula_accepted
}

impl Default for ServerConfig {
    fn default() -> (r: Self)
        ensures
            is_default_config(r),
    {
        ServerConfig {
            server_path: String::new(),
            java_path: String::new(),
            minecraft_version: String::new(),
            server_type: ServerType::Vanilla,
            curseforge_api_key: None,
            loader_version: None,
            ram_mb: 0,
            max_players: 0,
            server_name: String::new(),
            minecraft_seed: String::new(),
            setup_complete: false,
            auto_restart: false,
            scheduled_restart_hours: 0,
            backup_interval_minutes: 0,
            backup_dir: String::new(),
            backup_include_logs: false,
            optimized_jvm_flags: false,
            performance_preset: String::new(),
            remote_control_enabled: false,
            remote_control_port: 0,
            remote_control_token: String::new(),
            remote_control_public_url: String::new(),
            cloudflare_remote_enabled: false,
            terraria_version: String::new(),
            tmodloader_version: String::new(),
            terraria_difficulty: 0,
            terraria_world_size: 0,
            terraria_seed: String::new(),
            terraria_evil: 0,
            terraria_password: String::new(),
            tmod_modpath: String::new(),
            tmod_modpack: String::new(),
            dashboard_url: String::new(),
            app_token: String::new(),
            online_mode: None,
            heartbeat_interval_secs: 0,
            eula_accepted: false,
        }
    }
}

impl ServerConfig {
    /// A copy.
    pub fn copied(&self) -> (r: Self)
        ensures
            r == *self,
    {
        ServerConfig {
            server_path: self.server_path.clone(),
            java_path: self.java_path.clone(),
            minecraft_version: self.minecraft_version.clone(),
            server_type: self.server_type,
            curseforge_api_key: self.curseforge_api_key.clone(),
            loader_version: self.loader_version.clone(),
            ram_mb: self.ram_mb,
            max_players: self.max_players,
            server_name: self.server_name.clone(),
            minecraft_seed: self.minecraft_seed.clone(),
            setup_complete: self.setup_complete,
            auto_restart: self.auto_restart,
            scheduled_restart_hours: self.scheduled_restart_hours,
            backup_interval_minutes: self.backup_interval_minutes,
            backup_dir: self.backup_dir.clone(),
            backup_include_logs: self.backup_include_logs,
            optimized_jvm_flags: self.optimized_jvm_flags,
            performance_preset: self.performance_preset.clone(),
            remote_control_enabled: self.remote_control_enabled,
            remote_control_port: self.remote_control_port,
            remote_control_token: self.remote_control_token.clone(),
            remote_control_public_url: self.remote_control_public_url.clone(),
            cloudflare_remote_enabled: self.cloudflare_remote_enabled,
            terraria_version: self.terraria_version.clone(),
            tmodloader_version: self.tmodloader_version.clone(),
            terraria_difficulty: self.terraria_difficulty,
            terraria_world_size: self.terraria_world_size,
            terraria_seed: self.terraria_seed.clone(),
            terraria_evil: self.terraria_evil,
            terraria_password: self.terraria_password.clone(),
            tmod_modpath: self.tmod_modpath.clone(),
            tmod_modpack: self.tmod_modpack.clone(),
            dashboard_url: self.dashboard_url.clone(),
            app_token: self.app_token.clone(),
            online_mode: self.online_mode,
            heartbeat_interval_secs: self.heartbeat_interval_secs,
            eula_accepted: self.eula_accepted,
        }
    }

    /// The game that the settings are for.
    pub fn game(&self) -> (r: Game)
        ensures
            r == type_game(self.server_type),
    {
        self.server_type.game()
    }

    pub fn is_terraria(&self) -> (r: bool)
        ensures
            r == (type_game(self.server_type) == Game::Terraria),
    {
        self.game().is_terraria()
    }

    pub fn is_minecraft(&self) -> (r: bool)
        ensures
            r == (type_game(self.server_type) == Game::Minecraft),
    {
        self.game().is_minecraft()
    }

    /// The port on which the game's servers listen.
    pub fn default_port(&self) -> (r: u16)
        ensures
            r == game_port(type_game(self.server_type)),
    {
        self.game().default_port()
    }
}

/// A server with a name.
#[derive(Debug, Clone)]
pub struct ServerProfile {
    pub id: String,
    pub name: String,
    pub config: ServerConfig,
}

/// What is shown of a profile.
#[derive(Debug, Clone)]
pub struct ProfileSummary {
    pub id: String,
    pub name: String,
    pub active: bool,
    pub minecraft_version: String,
    pub terraria_version: String,
    pub server_type: ServerType,
    pub server_path: String,
    pub setup_complete: bool,
    pub game: Game,
}

/// What is shown of all profiles.
#[derive(Debug, Clone)]
pub struct ProfilesState {
    pub active_id: String,
    pub profiles: Vec<ProfileSummary>,
    /// The game of the active profile.
    pub active_game: Game,
}

/// The content of the profiles file. Files from before versions have 0.
#[derive(Debug, Clone)]
pub struct ProfilesFile {
    pub schema_version: u32,
    pub active_id: String,
    pub profiles: Vec<ServerProfile>,
}

/// The first position from `i` on of a profile with this ID; the number of
/// profiles where there is none.
pub open spec fn profile_index(profiles: Seq<ServerProfile>, id: Seq<char>, i: int) -> int
    decreases profiles.len() - i,
{
    if i < 0 || i >= profiles.len() {
        profiles.len() as int
    } else if profiles[i].id@ == id {
        i
    } else {
        profile_index(profiles, id, i + 1)
    }
}

/// Whether there is a profile with this ID.
pub open spec fn has_profile(profiles: Seq<ServerProfile>, id: Seq<char>) -> bool {
    profile_index(profiles, id, 0) < profiles.len()
}

/// What holds of the profile that is found under an ID.
pub proof fn lemma_profile_index(profiles: Seq<ServerProfile>, id: Seq<char>, i: int)
    requires
        0 <= i <= profiles.len(),
    ensures
        i <= profile_index(profiles, id, i) <= profiles.len(),
        profile_index(profiles, id, i) < profiles.len() ==> profiles[profile_index(
            profiles,
            id,
            i,
        )].id@ == id,
        forall|k: int|
            i <= k < profile_index(profiles, id, i) ==> (#[trigger] profiles[k]).id@ != id,
    decreases profiles.len() - i,
{
    if i < profiles.len() && profiles[i].id@ != id {
        lemma_profile_index(profiles, id, i + 1);
    }
}

impl ProfilesFile {
    /// The file is of this program's version, no ID in it is blank, and the
    /// active profile is one of it.
    pub open spec fn valid(self) -> bool {
        &&& self.schema_version == PROFILES_SCHEMA_VERSION
        &&& has_profile(self.profiles@, self.active_id@)
        &&& forall|k: int|
            0 <= k < self.profiles@.len() ==> text::trim((#[trigger] self.profiles@[k]).id@).len()
                > 0
    }
}

/// Finds a profile by its ID.
fn find_profile(profiles: &Vec<ServerProfile>, id: &str) -> (r: Option<usize>)
    ensures
        r is Some <==> has_profile(profiles@, id@),
        r is Some ==> r->0 == profile_index(profiles@, id@, 0) && r->0 < profiles@.len(),
{
    let mut i: usize = 0;
    while i < profiles.len()
        invariant
            i <= profiles.len(),
            profile_index(profiles@, id@, 0) == profile_index(profiles@, id@, i as int),
        decreases profiles.len() - i,
    {
        if str_eq(profiles[i].id.as_str(), id) {
            return Some(i);
        }
        i = i + 1;
    }
    None
}

// ---------------------------------------------------------------------
// Names and paths
// ---------------------------------------------------------------------

/// The preset for new profiles.
pub fn default_performance_preset() -> (r: String)
    ensures
        r@ == "balanced"@,
{
    "balanced".to_string()
}

/// A fresh token for remote control.
pub fn generate_remote_token() -> (r: String)
    ensures
        identifiers::is_hex_text(r@, 32),
{
    identifiers::fresh_id()
}

/// Where the settings of the active server are kept for older programs.
pub fn config_path(base_dir: &str) -> (r: String)
    ensures
        r@ == text::under(base_dir@, "config.json"@),
{
    join_path(base_dir, "config.json")
}

/// Where the profiles are kept.
pub fn profiles_path(base_dir: &str) -> (r: String)
    ensures
        r@ == text::under(base_dir@, "profiles.json"@),
{
    join_path(base_dir, "profiles.json")
}

/// The directory of a profile's own server.
pub open spec fn own_server_path(base_dir: Seq<char>, id: Seq<char>) -> Seq<char> {
    text::under(text::under(text::under(base_dir, "profiles"@), id), "server"@)
}

/// The directory of a profile's own server.
pub fn isolated_server_path(base_dir: &str, id: &str) -> (r: String)
    ensures
        r@ == own_server_path(base_dir@, id@),
{
    let a = join_path(base_dir, "profiles");
    let b = join_path(a.as_str(), id);
    join_path(b.as_str(), "server")
}

/// A name without blanks around it, or another where it is blank.
pub open spec fn name_or(name: Seq<char>, other: Seq<char>) -> Seq<char> {
    if text::trim(name).len() > 0 {
        text::trim(name)
    } else {
        other
    }
}

fn name_or_default(name: &str, other: &str) -> (r: String)
    ensures
        r@ == name_or(name@, other@),
{
    let chars = to_chars(name);
    let t = trimmed(&chars);
    if t.len() > 0 {
        from_chars(t)
    } else {
        other.to_string()
    }
}

/// The name of a profile that has none.
pub fn default_profile_name(cfg: &ServerConfig) -> (r: String)
    ensures
        r@ == name_or(cfg.server_name@, "Default Server"@),
{
    name_or_default(cfg.server_name.as_str(), "Default Server")
}

/// A file with one profile, which is active. The settings are those that an
/// older program left.
pub fn default_profiles_file(cfg: Option<ServerConfig>, id: String) -> (r: ProfilesFile)
    ensures
        r.schema_version == PROFILES_SCHEMA_VERSION,
        r.active_id@ == id@,
        r.profiles@.len() == 1,
        r.profiles@[0].id == id,
        cfg is Some ==> r.profiles@[0].config == cfg->0,
        cfg is None ==> is_default_config(r.profiles@[0].config),
        r.profiles@[0].name@ == name_or(
            r.profiles@[0].config.server_name@,
            "Default Server"@,
        ),
        text::trim(id@).len() > 0 ==> r.valid(),
{
    let config: ServerConfig = match cfg {
        Some(c) => c,
        None => ServerConfig::default(),
    };
    let active_id = id.clone();
    let name = default_profile_name(&config);
    let mut profiles: Vec<ServerProfile> = Vec::new();
    profiles.push(ServerProfile { id, name, config });
    assert(profile_index(profiles@, active_id@, 0) == 0);
    ProfilesFile { schema_version: PROFILES_SCHEMA_VERSION, active_id, profiles }
}

// ---------------------------------------------------------------------
// Loading
// ---------------------------------------------------------------------

/// What was found in place of the profiles file.
#[derive(Debug, Clone)]
pub enum ProfilesSource {
    /// No file.
    Missing,
    /// A file that cannot be read.
    Unreadable { path: String, error: String },
    /// A file that holds something else; it was moved away.
    Corrupt { error: String, backup: String },
    /// A file.
    Parsed(ProfilesFile),
}

/// The profiles among the first `n` whose ID is not blank.
pub open spec fn named_profiles(profiles: Seq<ServerProfile>, n: int) -> Seq<ServerProfile>
    decreases n,
{
    if n <= 0 {
        seq![]
    } else if text::trim(profiles[n - 1].id@).len() > 0 {
        named_profiles(profiles, n - 1).push(profiles[n - 1])
    } else {
        named_profiles(profiles, n - 1)
    }
}

/// The text about a file of a version that this program does not know.
pub open spec fn future_text(version: u32) -> Seq<char> {
    "profiles.json uses schema version "@ + text::dec(version as nat)
        + " which this build (up to v"@ + text::dec(PROFILES_SCHEMA_VERSION as nat)
        + ") does not support. Upgrade Lbby or manually downgrade the file."@
}

/// The text about a file that cannot be read.
pub open spec fn corrupt_text(error: Seq<char>, backup: Seq<char>) -> Seq<char> {
    "profiles.json is corrupt ("@ + error + "). Original saved to "@ + backup
        + ". Repair or delete the file and restart."@
}

/// The text about a file without profiles.
pub open spec fn no_profiles_text() -> Seq<char> {
    "profiles.json holds no profile with an ID. Repair or delete the file and restart."@
}

/// Whether a file has a profile with an ID.
pub open spec fn has_named(file: ProfilesFile) -> bool {
    named_profiles(file.profiles@, file.profiles@.len() as int).len() > 0
}

/// What loading makes of a file that has a profile with an ID: profiles without
/// one go, and where the active one is not there, the first one is active.
pub open spec fn loaded_from(file: ProfilesFile, r: ProfilesFile) -> bool {
    let kept = named_profiles(file.profiles@, file.profiles@.len() as int);
    &&& r.schema_version == PROFILES_SCHEMA_VERSION
    &&& r.profiles@ == kept
    &&& r.active_id@ == (if has_profile(kept, file.active_id@) {
        file.active_id@
    } else {
        kept[0].id@
    })
}

/// Makes the profiles of what was found. A file that cannot be read, that a
/// later program wrote or that has no profile with an ID is an error and never
/// replaced; only where there is no file is a new one made.
pub fn load_profiles_file(source: ProfilesSource, default: ProfilesFile) -> (r: Result<
    ProfilesFile,
    String,
>)
    requires
        default.valid(),
    ensures
        r is Ok ==> r->Ok_0.valid(),
        match source {
            ProfilesSource::Missing => r is Ok && r->Ok_0 == default,
            ProfilesSource::Unreadable { path, error } => r is Err && r->Err_0@
                == "Failed to read "@ + path@ + ": "@ + error@,
            ProfilesSource::Corrupt { error, backup } => r is Err && r->Err_0@ == corrupt_text(
                error@,
                backup@,
            ),
            ProfilesSource::Parsed(file) => {
                &&& r is Err <==> file.schema_version > PROFILES_SCHEMA_VERSION || !has_named(file)
                &&& r is Err ==> r->Err_0@ == (if file.schema_version > PROFILES_SCHEMA_VERSION {
                    future_text(file.schema_version)
                } else {
                    no_profiles_text()
                })
                &&& r is Ok ==> loaded_from(file, r->Ok_0)
            },
        },
{
    match source {
        ProfilesSource::Missing => Ok(default),
        ProfilesSource::Unreadable { path, error } => {
            let mut s = String::from_str("Failed to read ");
            s.append(path.as_str());
            s.append(": ");
            s.append(error.as_str());
            Err(s)
        },
        ProfilesSource::Corrupt { error, backup } => {
            let mut s = String::from_str("profiles.json is corrupt (");
            s.append(error.as_str());
            s.append("). Original saved to ");
            s.append(backup.as_str());
            s.append(". Repair or delete the file and restart.");
            Err(s)
        },
        ProfilesSource::Parsed(file) => {
            if file.schema_version > PROFILES_SCHEMA_VERSION {
                let mut s = String::from_str("profiles.json uses schema version ");
                s.append(dec_string(file.schema_version as u64).as_str());
                s.append(" which this build (up to v");
                s.append(dec_string(PROFILES_SCHEMA_VERSION as u64).as_str());
                s.append(") does not support. Upgrade Lbby or manually downgrade the file.");
                return Err(s);
            }
            let profiles = drop_blank(&file.profiles);
            if profiles.len() == 0 {
                return Err(
                    "profiles.json holds no profile with an ID. Repair or delete the file and restart.".to_string(),
                );
            }
            let active_id = match find_profile(&profiles, file.active_id.as_str()) {
                Some(_) => file.active_id,
                None => {
                    assert(profile_index(profiles@, profiles@[0].id@, 0) == 0);
                    profiles[0].id.clone()
                },
            };
            Ok(ProfilesFile { schema_version: PROFILES_SCHEMA_VERSION, active_id, profiles })
        },
    }
}

impl ServerProfile {
    /// A copy.
    pub fn copied(&self) -> (r: Self)
        ensures
            r == *self,
    {
        ServerProfile {
            id: self.id.clone(),
            name: self.name.clone(),
            config: self.config.copied(),
        }
    }
}

/// The profiles whose ID is not blank.
fn drop_blank(profiles: &Vec<ServerProfile>) -> (r: Vec<ServerProfile>)
    ensures
        r@ == named_profiles(profiles@, profiles@.len() as int),
        forall|k: int| 0 <= k < r@.len() ==> text::trim((#[trigger] r@[k]).id@).len() > 0,
{
    let mut out: Vec<ServerProfile> = Vec::new();
    let mut i: usize = 0;
    while i < profiles.len()
        invariant
            i <= profiles.len(),
            out@ == named_profiles(profiles@, i as int),
            forall|k: int| 0 <= k < out@.len() ==> text::trim((#[trigger] out@[k]).id@).len() > 0,
        decreases profiles.len() - i,
    {
        let id = to_chars(profiles[i].id.as_str());
        if trimmed(&id).len() > 0 {
            out.push(profiles[i].copied());
        }
        i = i + 1;
    }
    out
}

proof fn lemma_named_is_all(profiles: Seq<ServerProfile>, n: int)
    requires
        0 <= n <= profiles.len(),
        forall|k: int|
            0 <= k < profiles.len() ==> text::trim((#[trigger] profiles[k]).id@).len() > 0,
    ensures
        named_profiles(profiles, n) == profiles.take(n),
    decreases n,
{
    if n > 0 {
        lemma_named_is_all(profiles, n - 1);
        assert(profiles.take(n) =~= profiles.take(n - 1).push(profiles[n - 1]));
    } else {
        assert(profiles.take(0) =~= seq![]);
    }
}

/// Loading what was loaded and written changes nothing: the active profile, the
/// profiles and the version stay.
pub proof fn law_loading_is_idempotent(file: ProfilesFile, again: ProfilesFile)
    requires
        file.valid(),
        loaded_from(file, again),
    ensures
        has_named(file),
        again.schema_version == file.schema_version,
        again.active_id@ == file.active_id@,
        again.profiles@ == file.profiles@,
{
    lemma_named_is_all(file.profiles@, file.profiles@.len() as int);
    assert(file.profiles@.take(file.profiles@.len() as int) =~= file.profiles@);
    lemma_profile_index(file.profiles@, file.active_id@, 0);
}

// ---------------------------------------------------------------------
// Reading
// ---------------------------------------------------------------------

/// Whether settings are those of a profile, or nobody's where there is none.
pub open spec fn config_of(file: ProfilesFile, id: Seq<char>, c: ServerConfig) -> bool {
    if has_profile(file.profiles@, id) {
        c == file.profiles@[profile_index(file.profiles@, id, 0)].config
    } else {
        is_default_config(c)
    }
}

/// The settings of the active profile.
fn active_config(file: &ProfilesFile) -> (r: ServerConfig)
    ensures
        config_of(*file, file.active_id@, r),
{
    match find_profile(&file.profiles, file.active_id.as_str()) {
        Some(i) => file.profiles[i].config.copied(),
        None => ServerConfig::default(),
    }
}

/// The settings of the active profile; nobody's where the profiles cannot be
/// loaded.
pub fn load_config(loaded: &Result<ProfilesFile, String>) -> (r: ServerConfig)
    ensures
        loaded is Ok ==> config_of(loaded->Ok_0, loaded->Ok_0.active_id@, r),
        loaded is Err ==> is_default_config(r),
{
    match loaded {
        Ok(file) => active_config(file),
        Err(_) => ServerConfig::default(),
    }
}

/// The settings of the active profile, or why the profiles cannot be loaded.
pub fn load_config_checked(loaded: &Result<ProfilesFile, String>) -> (r: Result<
    ServerConfig,
    String,
>)
    ensures
        r is Ok <==> loaded is Ok,
        r is Ok ==> config_of(loaded->Ok_0, loaded->Ok_0.active_id@, r->Ok_0),
        r is Err ==> r->Err_0 == loaded->Err_0,
{
    match loaded {
        Ok(file) => Ok(active_config(file)),
        Err(e) => Err(e.clone()),
    }
}

/// The ID of the active profile; empty where the profiles cannot be loaded.
pub fn active_profile_id(loaded: &Result<ProfilesFile, String>) -> (r: String)
    ensures
        loaded is Ok ==> r@ == loaded->Ok_0.active_id@,
        loaded is Err ==> r@.len() == 0,
{
    match loaded {
        Ok(file) => file.active_id.clone(),
        Err(_) => String::new(),
    }
}

/// The ID of the active profile, or why the profiles cannot be loaded.
pub fn active_profile_id_checked(loaded: &Result<ProfilesFile, String>) -> (r: Result<
    String,
    String,
>)
    ensures
        r is Ok <==> loaded is Ok,
        r is Ok ==> r->Ok_0 == loaded->Ok_0.active_id,
        r is Err ==> r->Err_0 == loaded->Err_0,
{
    match loaded {
        Ok(file) => Ok(file.active_id.clone()),
        Err(e) => Err(e.clone()),
    }
}

/// The settings of a profile; none where it is not there or the profiles cannot
/// be loaded.
pub fn load_profile_config(loaded: &Result<ProfilesFile, String>, profile_id: &str) -> (r: Option<
    ServerConfig,
>)
    ensures
        r is Some <==> loaded is Ok && has_profile(loaded->Ok_0.profiles@, profile_id@),
        r is Some ==> config_of(loaded->Ok_0, profile_id@, r->0),
{
    match loaded {
        Ok(file) => match find_profile(&file.profiles, profile_id) {
            Some(i) => Some(file.profiles[i].config.copied()),
            None => None,
        },
        Err(_) => None,
    }
}

/// The settings of a profile, none where it is not there, or why the profiles
/// cannot be loaded.
pub fn load_profile_config_checked(
    loaded: &Result<ProfilesFile, String>,
    profile_id: &str,
) -> (r: Result<Option<ServerConfig>, String>)
    ensures
        r is Ok <==> loaded is Ok,
        r is Ok ==> (r->Ok_0 is Some <==> has_profile(loaded->Ok_0.profiles@, profile_id@)),
        r is Ok && r->Ok_0 is Some ==> config_of(loaded->Ok_0, profile_id@, r->Ok_0->0),
        r is Err ==> r->Err_0 == loaded->Err_0,
{
    match loaded {
        Ok(_) => Ok(load_profile_config(loaded, profile_id)),
        Err(e) => Err(e.clone()),
    }
}

/// Whether a summary is that of a profile.
pub open spec fn summarises(s: ProfileSummary, p: ServerProfile, active_id: Seq<char>) -> bool {
    &&& s.id == p.id
    &&& s.name == p.name
    &&& s.active == (p.id@ == active_id)
    &&& s.minecraft_version == p.config.minecraft_version
    &&& s.terraria_version@ == (if type_game(p.config.server_type) == Game::Terraria {
        p.config.terraria_version@
    } else {
        seq![]
    })
    &&& s.server_type == p.config.server_type
    &&& s.server_path == p.config.server_path
    &&& s.setup_complete == p.config.setup_complete
    &&& s.game == type_game(p.config.server_type)
}

/// What is shown of a profile. It has a version of Terraria only where it is for
/// that game.
pub fn profile_summary(profile: &ServerProfile, active_id: &str) -> (r: ProfileSummary)
    ensures
        summarises(r, *profile, active_id@),
{
    let terraria_version = if profile.config.is_terraria() {
        profile.config.terraria_version.clone()
    } else {
        String::new()
    };
    ProfileSummary {
        id: profile.id.clone(),
        name: profile.name.clone(),
        active: str_eq(profile.id.as_str(), active_id),
        minecraft_version: profile.config.minecraft_version.clone(),
        terraria_version,
        server_type: profile.config.server_type,
        server_path: profile.config.server_path.clone(),
        setup_complete: profile.config.setup_complete,
        game: profile.config.game(),
    }
}

/// Whether a state is that of a file.
pub open spec fn state_of(s: ProfilesState, file: ProfilesFile) -> bool {
    &&& s.active_id@ == file.active_id@
    &&& s.profiles@.len() == file.profiles@.len()
    &&& forall|k: int|
        0 <= k < s.profiles@.len() ==> summarises(
            #[trigger] s.profiles@[k],
            file.profiles@[k],
            file.active_id@,
        )
    &&& s.active_game == (if has_profile(file.profiles@, file.active_id@) {
        type_game(
            file.profiles@[profile_index(
                file.profiles@,
                file.active_id@,
                0,
            )].config.server_type,
        )
    } else {
        Game::Minecraft
    })
}

/// What is shown of the profiles of a file.
fn file_state(file: &ProfilesFile) -> (r: ProfilesState)
    ensures
        state_of(r, *file),
{
    let active_game: Game = match find_profile(&file.profiles, file.active_id.as_str()) {
        Some(i) => file.profiles[i].config.game(),
        None => Game::Minecraft,
    };
    let mut profiles: Vec<ProfileSummary> = Vec::new();
    let mut i: usize = 0;
    while i < file.profiles.len()
        invariant
            i <= file.profiles.len(),
            profiles@.len() == i,
            forall|k: int|
                0 <= k < i ==> summarises(
                    #[trigger] profiles@[k],
                    file.profiles@[k],
                    file.active_id@,
                ),
        decreases file.profiles.len() - i,
    {
        profiles.push(profile_summary(&file.profiles[i], file.active_id.as_str()));
        i = i + 1;
    }
    ProfilesState { active_id: file.active_id.clone(), profiles, active_game }
}

/// What is shown of the profiles; nothing where they cannot be loaded.
pub fn profiles_state(loaded: &Result<ProfilesFile, String>) -> (r: ProfilesState)
    ensures
        loaded is Ok ==> state_of(r, loaded->Ok_0),
        loaded is Err ==> r.active_id@.len() == 0 && r.profiles@.len() == 0 && r.active_game
            == Game::Minecraft,
{
    match loaded {
        Ok(file) => file_state(file),
        Err(_) => ProfilesState {
            active_id: String::new(),
            profiles: Vec::new(),
            active_game: Game::Minecraft,
        },
    }
}

// ---------------------------------------------------------------------
// Changing
// ---------------------------------------------------------------------

/// Changing a profile's name and settings, and not its ID, keeps what is found.
proof fn lemma_same_ids(a: Seq<ServerProfile>, b: Seq<ServerProfile>, id: Seq<char>, i: int)
    requires
        a.len() == b.len(),
        forall|k: int| 0 <= k < a.len() ==> (#[trigger] a[k]).id@ == b[k].id@,
        0 <= i <= a.len(),
    ensures
        profile_index(a, id, i) == profile_index(b, id, i),
    decreases a.len() - i,
{
    if i < a.len() && a[i].id@ != id {
        lemma_same_ids(a, b, id, i + 1);
    }
}

/// A profile at the end changes nothing of what is found before it.
proof fn lemma_push_profile(a: Seq<ServerProfile>, p: ServerProfile, id: Seq<char>, i: int)
    requires
        0 <= i <= a.len(),
    ensures
        profile_index(a.push(p), id, i) == (if profile_index(a, id, i) < a.len() || p.id@ == id {
            profile_index(a, id, i)
        } else {
            (a.len() + 1) as int
        }),
    decreases a.len() - i,
{
    if i < a.len() && a[i].id@ != id {
        lemma_push_profile(a, p, id, i + 1);
    } else if i == a.len() {
        assert(profile_index(a.push(p), id, i + 1) == a.len() + 1);
    }
}

/// The settings of a profile after new ones were saved: its server directory
/// stays, unless it had none.
pub open spec fn saved_config(before: ServerConfig, cfg: ServerConfig) -> ServerConfig {
    if before.server_path@.len() > 0 {
        ServerConfig { server_path: before.server_path, ..cfg }
    } else {
        cfg
    }
}

/// How a file changes when settings are saved: in the active profile or, where
/// there is none, in a new one. A profile keeps its own server directory, and
/// its name unless that is blank.
pub open spec fn saves(
    before: ProfilesFile,
    cfg: ServerConfig,
    fresh_id: Seq<char>,
    after: ProfilesFile,
) -> bool {
    let k = profile_index(before.profiles@, before.active_id@, 0);
    let old_ones = before.profiles@;
    let new_ones = after.profiles@;
    if has_profile(old_ones, before.active_id@) {
        &&& after.active_id@ == before.active_id@
        &&& new_ones.len() == old_ones.len()
        &&& forall|j: int|
            0 <= j < old_ones.len() && j != k ==> #[trigger] new_ones[j] == old_ones[j]
        &&& new_ones[k].id == old_ones[k].id
        &&& new_ones[k].config == saved_config(old_ones[k].config, cfg)
        &&& new_ones[k].name@ == (if text::trim(old_ones[k].name@).len() > 0 {
            old_ones[k].name@
        } else {
            name_or(cfg.server_name@, "Default Server"@)
        })
    } else {
        &&& after.active_id@ == fresh_id
        &&& new_ones.len() == old_ones.len() + 1
        &&& forall|j: int| 0 <= j < old_ones.len() ==> #[trigger] new_ones[j] == old_ones[j]
        &&& new_ones.last().id@ == fresh_id
        &&& new_ones.last().config == cfg
        &&& new_ones.last().name@ == name_or(cfg.server_name@, "Default Server"@)
    }
}

/// Saves settings in the active profile; where there is none, in a new one with
/// the given ID.
pub fn save_config(file: &mut ProfilesFile, cfg: &ServerConfig, fresh_id: String)
    ensures
        saves(*old(file), *cfg, fresh_id@, *final(file)),
        final(file).schema_version == old(file).schema_version,
        old(file).valid() ==> final(file).valid(),
{
    match find_profile(&file.profiles, file.active_id.as_str()) {
        Some(k) => {
            let before = &file.profiles[k];
            let mut config = cfg.copied();
            if !before.config.server_path.as_str().is_empty() {
                config.server_path = before.config.server_path.clone();
            }
            let old_name = to_chars(before.name.as_str());
            let name = if trimmed(&old_name).len() > 0 {
                before.name.clone()
            } else {
                default_profile_name(cfg)
            };
            let p = ServerProfile { id: before.id.clone(), name, config };
            file.profiles.set(k, p);
            proof {
                lemma_same_ids(old(file).profiles@, file.profiles@, file.active_id@, 0);
            }
        },
        None => {
            let name = default_profile_name(cfg);
            file.active_id = fresh_id.clone();
            file.profiles.push(ServerProfile { id: fresh_id, name, config: cfg.copied() });
        },
    }
}

/// Whatever settings are saved, a profile that has a server directory keeps it.
pub proof fn law_server_path_is_kept(before: ServerConfig, cfg: ServerConfig)
    requires
        before.server_path@.len() > 0,
    ensures
        saved_config(before, cfg).server_path == before.server_path,
{
}

/// What is saved is what is loaded: the settings of the active profile are then
/// those that were saved, but for the server directory that it had; and those of
/// every other profile stay.
pub proof fn law_saved_config_is_loaded(
    before: ProfilesFile,
    cfg: ServerConfig,
    fresh_id: Seq<char>,
    after: ProfilesFile,
    loaded: ServerConfig,
)
    requires
        saves(before, cfg, fresh_id, after),
        has_profile(before.profiles@, before.active_id@) || !has_profile(before.profiles@, fresh_id),
        config_of(after, after.active_id@, loaded),
    ensures
        has_profile(after.profiles@, after.active_id@),
        has_profile(before.profiles@, before.active_id@) ==> loaded == saved_config(
            before.profiles@[profile_index(before.profiles@, before.active_id@, 0)].config,
            cfg,
        ),
        !has_profile(before.profiles@, before.active_id@) ==> loaded == cfg,
        forall|id: Seq<char>, c: ServerConfig|
            has_profile(before.profiles@, id) && id != after.active_id@ ==> (
            #[trigger] config_of(after, id, c) <==> config_of(before, id, c)),
{
    let a = before.profiles@;
    let b = after.profiles@;
    if has_profile(a, before.active_id@) {
        let k = profile_index(a, before.active_id@, 0);
        lemma_profile_index(a, before.active_id@, 0);
        assert forall|j: int| 0 <= j < a.len() implies (#[trigger] a[j]).id@ == b[j].id@ by {
            if j != k {
                assert(b[j] == a[j]);
            }
        }
        lemma_same_ids(a, b, before.active_id@, 0);
        assert forall|id: Seq<char>, c: ServerConfig|
            has_profile(a, id) && id != after.active_id@ implies (#[trigger] config_of(
            after,
            id,
            c,
        ) <==> config_of(before, id, c)) by {
            lemma_same_ids(a, b, id, 0);
            lemma_profile_index(a, id, 0);
        }
    } else {
        assert(b =~= a.push(b.last()));
        lemma_push_profile(a, b.last(), fresh_id, 0);
        lemma_profile_index(a, fresh_id, 0);
        assert forall|id: Seq<char>, c: ServerConfig|
            has_profile(a, id) && id != after.active_id@ implies (#[trigger] config_of(
            after,
            id,
            c,
        ) <==> config_of(before, id, c)) by {
            lemma_push_profile(a, b.last(), id, 0);
            lemma_profile_index(a, id, 0);
        }
    }
}

/// Gives a profile a name.
pub fn rename_profile(file: &mut ProfilesFile, id: &str, name: &str) -> (r: Result<
    ProfilesState,
    String,
>)
    ensures
        ({
            let before = old(file).profiles@;
            let after = final(file).profiles@;
            let k = profile_index(before, id@, 0);
            &&& r is Ok <==> text::trim(name@).len() > 0 && has_profile(before, id@)
            &&& r is Err ==> *final(file) == *old(file)
            &&& r is Err ==> r->Err_0@ == (if text::trim(name@).len() == 0 {
                "Profile name cannot be empty"@
            } else {
                "Profile not found"@
            })
            &&& r is Ok ==> state_of(r->Ok_0, *final(file)) && after.len() == before.len()
            &&& r is Ok ==> after[k].name@ == text::trim(name@) && after[k].id == before[k].id
                && after[k].config == before[k].config
            &&& r is Ok ==> forall|j: int|
                0 <= j < before.len() && j != k ==> #[trigger] after[j] == before[j]
        }),
        final(file).active_id@ == old(file).active_id@,
        final(file).schema_version == old(file).schema_version,
        old(file).valid() ==> final(file).valid(),
{
    let chars = to_chars(name);
    let clean = trimmed(&chars);
    if clean.len() == 0 {
        return Err("Profile name cannot be empty".to_string());
    }
    match find_profile(&file.profiles, id) {
        None => Err("Profile not found".to_string()),
        Some(k) => {
            let before = &file.profiles[k];
            let p = ServerProfile {
                id: before.id.clone(),
                name: from_chars(clean),
                config: before.config.copied(),
            };
            file.profiles.set(k, p);
            proof {
                lemma_same_ids(old(file).profiles@, file.profiles@, file.active_id@, 0);
            }
            Ok(file_state(file))
        },
    }
}

/// The profiles among the first `n` with another ID.
pub open spec fn without(profiles: Seq<ServerProfile>, id: Seq<char>, n: int) -> Seq<ServerProfile>
    decreases n,
{
    if n <= 0 {
        seq![]
    } else if profiles[n - 1].id@ != id {
        without(profiles, id, n - 1).push(profiles[n - 1])
    } else {
        without(profiles, id, n - 1)
    }
}

proof fn lemma_without(profiles: Seq<ServerProfile>, id: Seq<char>, n: int)
    requires
        0 <= n <= profiles.len(),
    ensures
        without(profiles, id, n).len() <= n,
        without(profiles, id, n).len() == n <==> (forall|k: int|
            0 <= k < n ==> (#[trigger] profiles[k]).id@ != id),
        forall|k: int|
            0 <= k < without(profiles, id, n).len() ==> (#[trigger] without(
                profiles,
                id,
                n,
            )[k]).id@ != id,
        forall|k: int|
            0 <= k < without(profiles, id, n).len() ==> profiles.contains(
                #[trigger] without(profiles, id, n)[k],
            ),
        forall|k: int|
            0 <= k < n && (#[trigger] profiles[k]).id@ != id ==> without(
                profiles,
                id,
                n,
            ).contains(profiles[k]),
    decreases n,
{
    if n > 0 {
        lemma_without(profiles, id, n - 1);
        let prev = without(profiles, id, n - 1);
        let now = without(profiles, id, n);
        assert forall|k: int| 0 <= k < n && (#[trigger] profiles[k]).id@ != id implies now.contains(
            profiles[k],
        ) by {
            if k < n - 1 {
                assert(prev.contains(profiles[k]));
                let j = choose|j: int| 0 <= j < prev.len() && prev[j] == profiles[k];
                assert(now[j] == profiles[k]);
            } else {
                assert(now.last() == profiles[k]);
            }
        }
        if now.len() == n {
            assert forall|k: int| 0 <= k < n implies (#[trigger] profiles[k]).id@ != id by {
                assert(profiles[n - 1].id@ != id);
            }
        }
        if forall|k: int| 0 <= k < n ==> (#[trigger] profiles[k]).id@ != id {
            assert(profiles[n - 1].id@ != id);
        }
    }
}

/// Removes a profile. The only one stays; where the active one goes, the first
/// one becomes active.
pub fn delete_profile(file: &mut ProfilesFile, id: &str) -> (r: Result<ProfilesState, String>)
    requires
        old(file).profiles@.len() > 1 && old(file).active_id@ == id@ ==> exists|k: int|
            0 <= k < old(file).profiles@.len() && (#[trigger] old(file).profiles@[k]).id@ != id@,
    ensures
        ({
            let before = old(file).profiles@;
            &&& r is Ok <==> before.len() > 1 && has_profile(before, id@)
            &&& r is Err ==> *final(file) == *old(file)
            &&& r is Err ==> r->Err_0@ == (if before.len() <= 1 {
                "Cannot delete the only profile"@
            } else {
                "Profile not found"@
            })
            &&& r is Ok ==> state_of(r->Ok_0, *final(file))
            &&& r is Ok ==> final(file).profiles@ == without(before, id@, before.len() as int)
            &&& r is Ok ==> final(file).active_id@ == (if old(file).active_id@ == id@ {
                final(file).profiles@[0].id@
            } else {
                old(file).active_id@
            })
        }),
        final(file).schema_version == old(file).schema_version,
        old(file).valid() ==> final(file).valid(),
{
    let ghost before = file.profiles@;
    proof {
        lemma_without(before, id@, before.len() as int);
        lemma_profile_index(before, id@, 0);
    }
    if file.profiles.len() <= 1 {
        return Err("Cannot delete the only profile".to_string());
    }
    if find_profile(&file.profiles, id).is_none() {
        return Err("Profile not found".to_string());
    }
    let mut rest: Vec<ServerProfile> = Vec::new();
    let mut i: usize = 0;
    while i < file.profiles.len()
        invariant
            i <= file.profiles.len(),
            *file == *old(file),
            before == file.profiles@,
            rest@ == without(before, id@, i as int),
        decreases file.profiles.len() - i,
    {
        if !str_eq(file.profiles[i].id.as_str(), id) {
            rest.push(file.profiles[i].copied());
        }
        i = i + 1;
    }
    assert(old(file).active_id@ == id@ ==> rest@.len() > 0) by {
        if old(file).active_id@ == id@ {
            let k = choose|k: int|
                0 <= k < old(file).profiles@.len() && (#[trigger] old(file).profiles@[k]).id@
                    != id@;
            assert(without(before, id@, before.len() as int).contains(before[k]));
        }
    }
    if str_eq(file.active_id.as_str(), id) {
        file.active_id = rest[0].id.clone();
    }
    file.profiles = rest;
    proof {
        if old(file).valid() {
            assert(has_profile(file.profiles@, file.active_id@)) by {
                if old(file).active_id@ == id@ {
                    assert(profile_index(file.profiles@, file.active_id@, 0) == 0);
                } else {
                    lemma_profile_index(before, old(file).active_id@, 0);
                    let k = profile_index(before, old(file).active_id@, 0);
                    assert(file.profiles@.contains(before[k]));
                    let j = choose|j: int|
                        0 <= j < file.profiles@.len() && file.profiles@[j] == before[k];
                    lemma_profile_index(file.profiles@, file.active_id@, 0);
                }
            }
            assert forall|k: int| 0 <= k < file.profiles@.len() implies text::trim(
                (#[trigger] file.profiles@[k]).id@,
            ).len() > 0 by {
                assert(before.contains(file.profiles@[k]));
                let j = choose|j: int| 0 <= j < before.len() && before[j] == file.profiles@[k];
                assert(text::trim(before[j].id@).len() > 0);
            }
        }
    }
    Ok(file_state(file))
}

proof fn lemma_found_without(profiles: Seq<ServerProfile>, id: Seq<char>, other: Seq<char>, n: int)
    requires
        id != other,
        0 <= n <= profiles.len(),
    ensures
        ({
            let k = profile_index(profiles, other, 0);
            let w = without(profiles, id, n);
            let j = profile_index(w, other, 0);
            &&& k < n ==> 0 <= j < w.len() && w[j] == profiles[k]
            &&& k >= n ==> j == w.len()
        }),
    decreases n,
{
    lemma_profile_index(profiles, other, 0);
    if n > 0 {
        lemma_found_without(profiles, id, other, n - 1);
        let w = without(profiles, id, n - 1);
        lemma_profile_index(w, other, 0);
        if profiles[n - 1].id@ != id {
            lemma_push_profile(w, profiles[n - 1], other, 0);
        }
    }
}

/// Deleting a profile leaves the settings of every other one as they were.
pub proof fn law_deletion_spares_the_others(
    before: ProfilesFile,
    after: ProfilesFile,
    id: Seq<char>,
    other: Seq<char>,
    c: ServerConfig,
)
    requires
        after.profiles@ == without(before.profiles@, id, before.profiles@.len() as int),
        id != other,
    ensures
        has_profile(after.profiles@, other) == has_profile(before.profiles@, other),
        config_of(after, other, c) == config_of(before, other, c),
        !has_profile(after.profiles@, id),
{
    lemma_found_without(before.profiles@, id, other, before.profiles@.len() as int);
    lemma_profile_index(before.profiles@, other, 0);
    lemma_without(before.profiles@, id, before.profiles@.len() as int);
    lemma_profile_index(after.profiles@, id, 0);
}

/// Makes a profile the active one, and gives its settings.
pub fn set_active_profile(file: &mut ProfilesFile, id: String) -> (r: Result<ServerConfig, String>)
    ensures
        r is Ok <==> has_profile(old(file).profiles@, id@),
        r is Ok ==> config_of(*old(file), id@, r->Ok_0) && final(file).active_id == id,
        r is Err ==> r->Err_0@ == "Profile not found"@ && final(file).active_id@ == old(file).active_id@,
        final(file).profiles@ == old(file).profiles@,
        final(file).schema_version == old(file).schema_version,
        old(file).valid() ==> final(file).valid(),
{
    match find_profile(&file.profiles, id.as_str()) {
        None => Err("Profile not found".to_string()),
        Some(k) => {
            let cfg = file.profiles[k].config.copied();
            file.active_id = id;
            Ok(cfg)
        },
    }
}

/// The server directory to copy for a duplicate of the active profile.
pub fn duplication_source(file: &ProfilesFile, duplicate_current: bool) -> (r: Option<String>)
    ensures
        r is Some <==> duplicate_current && has_profile(file.profiles@, file.active_id@),
        r is Some ==> r->0 == file.profiles@[profile_index(
            file.profiles@,
            file.active_id@,
            0,
        )].config.server_path,
{
    if !duplicate_current {
        return None;
    }
    match find_profile(&file.profiles, file.active_id.as_str()) {
        Some(k) => Some(file.profiles[k].config.server_path.clone()),
        None => None,
    }
}

/// Whether settings are those of a new profile, but for the server directory: a
/// duplicate of the active profile's that must be set up anew, or fresh ones
/// for the game.
pub open spec fn is_new_config(
    c: ServerConfig,
    file: ProfilesFile,
    duplicate_current: bool,
    game: Option<Game>,
) -> bool {
    if duplicate_current {
        exists|src: ServerConfig| #[trigger]
            config_of(file, file.active_id@, src) && c == (ServerConfig {
                setup_complete: false,
                server_path: c.server_path,
                ..src
            })
    } else {
        &&& c.auto_restart
        &&& c.optimized_jvm_flags
        &&& c.performance_preset@ == "balanced"@
        &&& c.server_type == (if game == Some(Game::Terraria) {
            ServerType::Terraria
        } else {
            ServerType::Vanilla
        })
        &&& exists|d: ServerConfig| #[trigger]
            is_default_config(d) && c == (ServerConfig {
                auto_restart: true,
                optimized_jvm_flags: true,
                performance_preset: c.performance_preset,
                server_type: c.server_type,
                server_path: c.server_path,
                ..d
            })
    }
}

/// Adds a profile with its own server directory, and makes it active where that
/// is wanted. Nothing changes where another profile has that directory.
pub fn create_profile(
    file: &mut ProfilesFile,
    name: &str,
    duplicate_current: bool,
    activate: bool,
    game: Option<Game>,
    id: String,
    isolated_path: String,
    canonical: &CanonicalPaths,
) -> (r: Result<ProfilesState, String>)
    ensures
        ({
            let before = old(file).profiles@;
            let after = final(file).profiles@;
            let clash = collision(*old(file), id@, isolated_path@, *canonical);
            &&& r is Ok <==> clash is None
            &&& r is Err ==> *final(file) == *old(file) && clash == Some(r->Err_0@)
            &&& r is Ok ==> {
                &&& state_of(r->Ok_0, *final(file))
                &&& after.len() == before.len() + 1
                &&& forall|k: int| 0 <= k < before.len() ==> #[trigger] after[k] == before[k]
                &&& after.last().id == id
                &&& after.last().name@ == name_or(name@, "New Server"@)
                &&& after.last().config.server_path == isolated_path
                &&& is_new_config(after.last().config, *old(file), duplicate_current, game)
                &&& final(file).active_id@ == (if activate {
                    id@
                } else {
                    old(file).active_id@
                })
            }
        }),
        final(file).schema_version == old(file).schema_version,
        old(file).valid() && text::trim(id@).len() > 0 ==> final(file).valid(),
{
    let mut cfg: ServerConfig;
    if duplicate_current {
        let src = active_config(file);
        cfg = src.copied();
        cfg.setup_complete = false;
        proof {
            assert(config_of(*old(file), old(file).active_id@, src));
        }
    } else {
        let d = ServerConfig::default();
        cfg = d.copied();
        if let Some(g) = game {
            cfg.server_type = match g {
                Game::Terraria => ServerType::Terraria,
                Game::Minecraft => ServerType::Vanilla,
            };
        }
        cfg.auto_restart = true;
        cfg.optimized_jvm_flags = true;
        cfg.performance_preset = default_performance_preset();
        proof {
            assert(is_default_config(d));
        }
    }
    cfg.server_path = isolated_path.clone();
    match validate_server_path_ownership(file, id.as_str(), isolated_path.as_str(), canonical) {
        Err(e) => {
            return Err(e);
        },
        Ok(()) => {},
    }
    let shown = name_or_default(name, "New Server");
    let ghost new_id = id@;
    if activate {
        file.active_id = id.clone();
    }
    let p = ServerProfile { id, name: shown, config: cfg };
    file.profiles.push(p);
    proof {
        let before = old(file).profiles@;
        assert(file.profiles@ =~= before.push(p));
        if old(file).valid() {
            lemma_profile_index(before, file.active_id@, 0);
            lemma_push_profile(before, p, file.active_id@, 0);
        }
    }
    Ok(file_state(file))
}

// ---------------------------------------------------------------------
// Two profiles must not share a directory
// ---------------------------------------------------------------------

/// What the file system says the true paths of directories are, where they are
/// there: that of the directory in question, and those of the profiles' servers.
#[derive(Debug, Clone)]
pub struct CanonicalPaths {
    pub own: Option<String>,
    pub profiles: Vec<Option<String>>,
}

/// The true path of a profile's server directory, where it is there.
pub open spec fn canonical_at(c: CanonicalPaths, i: int) -> Option<Seq<char>> {
    if 0 <= i < c.profiles@.len() {
        text::opt_view(c.profiles@[i])
    } else {
        None
    }
}

/// The parts of a path among its first `n` pieces: `.` and empty pieces do not
/// count, and `..` takes the part before it away. A leading slash is a part.
pub open spec fn path_parts(pieces: Seq<Seq<char>>, n: int) -> Seq<Seq<char>>
    decreases n,
{
    if n <= 0 {
        seq![]
    } else {
        let prev = path_parts(pieces, n - 1);
        let p = pieces[n - 1];
        if p == ".."@ {
            if prev.len() > 0 {
                prev.drop_last()
            } else {
                prev
            }
        } else if p == "."@ {
            prev
        } else if p.len() == 0 {
            if n == 1 && pieces.len() > 1 {
                prev.push("/"@)
            } else {
                prev
            }
        } else {
            prev.push(p)
        }
    }
}

/// A path by which two directories are compared: the true one, where it is
/// known, else the parts of the path with slashes between them.
pub open spec fn normalized(path: Seq<char>, canonical: Option<Seq<char>>) -> Seq<char> {
    match canonical {
        Some(c) => c,
        None => {
            let pieces = text::split(path, '/');
            text::joined(path_parts(pieces, pieces.len() as int), "/"@)
        },
    }
}

/// Computes [`normalized`].
pub fn normalize_path(path: &str, canonical: &Option<String>) -> (r: String)
    ensures
        r@ == normalized(path@, text::opt_view(*canonical)),
{
    if let Some(c) = canonical {
        return c.clone();
    }
    let chars = to_chars(path);
    let pieces = split_char(&chars, '/');
    let ghost all = text::split(path@, '/');
    assert(pieces@.len() == all.len());
    let mut parts: Vec<String> = Vec::new();
    assert(text::views(parts@) =~= seq![]);
    let mut i: usize = 0;
    while i < pieces.len()
        invariant
            i <= pieces.len(),
            pieces@.len() == all.len(),
            text::slices(pieces@) == all,
            text::views(parts@) == path_parts(all, i as int),
        decreases pieces.len() - i,
    {
        assert(text::slices(pieces@)[i as int] == pieces@[i as int]@);
        let p = from_chars(pieces[i]);
        let ghost before = parts@;
        proof {
            reveal_strlit("..");
            reveal_strlit(".");
        }
        if str_eq(p.as_str(), "..") {
            if parts.len() > 0 {
                parts.pop();
                assert(text::views(parts@) =~= text::views(before).drop_last());
            }
        } else if str_eq(p.as_str(), ".") {
        } else if p.as_str().is_empty() {
            if i == 0 && pieces.len() > 1 {
                let root = "/".to_string();
                parts.push(root);
                assert(text::views(parts@) =~= text::views(before).push("/"@));
            }
        } else {
            parts.push(p);
            assert(text::views(parts@) =~= text::views(before).push(p@));
        }
        i = i + 1;
    }
    join(&parts, "/")
}

/// The first position from `i` on of another profile with the same directory.
pub open spec fn clash_index(
    file: ProfilesFile,
    exclude: Seq<char>,
    path: Seq<char>,
    canonical: CanonicalPaths,
    i: int,
) -> int
    decreases file.profiles@.len() - i,
{
    if i < 0 || i >= file.profiles@.len() {
        file.profiles@.len() as int
    } else if file.profiles@[i].id@ != exclude && normalized(
        file.profiles@[i].config.server_path@,
        canonical_at(canonical, i),
    ) == normalized(path, text::opt_view(canonical.own)) {
        i
    } else {
        clash_index(file, exclude, path, canonical, i + 1)
    }
}

/// The text about another profile that has a directory; none where no other
/// does, or where the directory is not given.
pub open spec fn collision(
    file: ProfilesFile,
    exclude: Seq<char>,
    path: Seq<char>,
    canonical: CanonicalPaths,
) -> Option<Seq<char>> {
    let k = clash_index(file, exclude, path, canonical, 0);
    if path.len() > 0 && k < file.profiles@.len() {
        Some(
            "Server path collision: profile '"@ + exclude + "' and profile '"@
                + file.profiles@[k].id@ + "' both use '"@ + path + "'"@,
        )
    } else {
        None
    }
}

/// Checks that no other profile has a server directory.
pub fn validate_server_path_ownership(
    file: &ProfilesFile,
    exclude_profile_id: &str,
    server_path: &str,
    canonical: &CanonicalPaths,
) -> (r: Result<(), String>)
    ensures
        r is Ok <==> collision(*file, exclude_profile_id@, server_path@, *canonical) is None,
        r is Err ==> collision(*file, exclude_profile_id@, server_path@, *canonical) == Some(
            r->Err_0@,
        ),
{
    if server_path.is_empty() {
        return Ok(());
    }
    let own = normalize_path(server_path, &canonical.own);
    let mut i: usize = 0;
    while i < file.profiles.len()
        invariant
            i <= file.profiles.len(),
            server_path@.len() > 0,
            own@ == normalized(server_path@, text::opt_view(canonical.own)),
            clash_index(*file, exclude_profile_id@, server_path@, *canonical, 0) == clash_index(
                *file,
                exclude_profile_id@,
                server_path@,
                *canonical,
                i as int,
            ),
        decreases file.profiles.len() - i,
    {
        let p = &file.profiles[i];
        if !str_eq(p.id.as_str(), exclude_profile_id) {
            let known: Option<String> = if i < canonical.profiles.len() {
                canonical.profiles[i].clone()
            } else {
                None
            };
            let other = normalize_path(p.config.server_path.as_str(), &known);
            if str_eq(own.as_str(), other.as_str()) {
                let mut s = String::from_str("Server path collision: profile '");
                s.append(exclude_profile_id);
                s.append("' and profile '");
                s.append(p.id.as_str());
                s.append("' both use '");
                s.append(server_path);
                s.append("'");
                return Err(s);
            }
        }
        i = i + 1;
    }
    Ok(())
}

// ---------------------------------------------------------------------
// Worlds
// ---------------------------------------------------------------------

/// Whether a world's name is refused: it must be a plain name of a directory
/// that is not hidden.
pub open spec fn refused_world(name: Seq<char>) -> bool {
    name.len() == 0 || text::contains(name, ".."@) || text::contains(name, "/"@) || text::contains(
        name,
        "\\"@,
    ) || text::starts_with(name, "."@) || (name.len() >= 2 && name[0] as u32 <= 0x7f && name[1]
        == ':')
}

/// The value of the first line from `i` on that sets `level-name`. Comments do
/// not count, also where they are indented.
pub open spec fn level_name_from(lines: Seq<Seq<char>>, i: int) -> Option<Seq<char>>
    decreases lines.len() - i,
{
    if i < 0 || i >= lines.len() {
        None
    } else {
        let line = text::trim(lines[i]);
        if line.len() > 0 && !text::starts_with(line, "#"@) && server_properties::key_of(line)
            == Some("level-name"@) {
            Some(server_properties::value_of(line))
        } else {
            level_name_from(lines, i + 1)
        }
    }
}

/// The name of a server's world: what `server.properties` says, unless that is
/// refused or it says nothing.
pub open spec fn world_name(content: Option<Seq<char>>) -> Seq<char> {
    let set = match content {
        Some(c) => level_name_from(text::lines(c), 0),
        None => None,
    };
    if set is Some && !refused_world(set->0) {
        set->0
    } else {
        "world"@
    }
}

/// The name of a server's world, from the content of `server.properties`.
pub fn resolve_world_name(content: Option<&str>) -> (r: String)
    ensures
        r@ == world_name(
            text::str_view(content),
        ),
{
    if let Some(c) = content {
        let chars = to_chars(c);
        let list = split_lines(&chars);
        let ghost l = text::lines(c@);
        assert(list@.len() == l.len());
        let mut i: usize = 0;
        while i < list.len()
            invariant
                i <= list.len(),
                list@.len() == l.len(),
                text::slices(list@) == l,
                l == text::lines(c@),
                content is Some,
                content->0@ == c@,
                level_name_from(l, 0) == level_name_from(l, i as int),
            decreases list.len() - i,
        {
            assert(text::slices(list@)[i as int] == list@[i as int]@);
            let line = trimmed(list[i]);
            if line.len() > 0 && !has_prefix(line, "#") {
                if let Some((key, value)) = server_properties::key_and_value(line) {
                    if str_eq(key.as_str(), "level-name") {
                        let v = to_chars(value.as_str());
                        if is_refused_world(&v) {
                            return "world".to_string();
                        }
                        return value;
                    }
                }
            }
            i = i + 1;
        }
    }
    "world".to_string()
}

fn is_refused_world(name: &[char]) -> (r: bool)
    ensures
        r == refused_world(name@),
{
    name.len() == 0 || has_sub(name, "..") || has_sub(name, "/") || has_sub(name, "\\")
        || has_prefix(name, ".") || (name.len() >= 2 && name[0] as u32 <= 0x7f && name[1] == ':')
}

/// Whatever the file says, the world is a plain name: it leads nowhere else.
pub proof fn law_world_name_is_safe(content: Option<Seq<char>>)
    ensures
        !refused_world(world_name(content)),
{
    reveal_strlit("world");
    reveal_strlit("..");
    reveal_strlit("/");
    reveal_strlit("\\");
    reveal_strlit(".");
    let w = "world"@;
    lemma_lacks(w, ".."@, '.');
    lemma_lacks(w, "/"@, '/');
    lemma_lacks(w, "\\"@, '\\');
    assert(w[0] == 'w');
    assert(!text::starts_with(w, "."@)) by {
        assert(w.subrange(0, 1)[0] == 'w');
    }
}

/// A text without a character does not contain a pattern that begins with it.
proof fn lemma_lacks(s: Seq<char>, p: Seq<char>, c: char)
    requires
        p.len() > 0,
        p[0] == c,
        forall|k: int| 0 <= k < s.len() ==> s[k] != c,
    ensures
        !text::contains(s, p),
{
    text::lemma_contains(s, p);
    assert forall|i: int| !text::occurs_at(s, p, i) by {
        if text::occurs_at(s, p, i) {
            assert(s.subrange(i, i + p.len())[0] == s[i]);
        }
    }
}

/// The directories of a server's worlds. `existing` are the names in the
/// server's directory; the second and third world are given where they are
/// there.
pub fn resolve_world_dirs(server_dir: &str, content: Option<&str>, existing: &Vec<String>) -> (r: (
    String,
    Option<String>,
    Option<String>,
))
    ensures
        ({
            let w = world_name(
                text::str_view(content),
            );
            &&& r.0@ == text::under(server_dir@, w)
            &&& text::opt_view(r.1) == (if text::has_str(existing@, w + "_nether"@) {
                Some(text::under(server_dir@, w + "_nether"@))
            } else {
                None
            })
            &&& text::opt_view(r.2) == (if text::has_str(existing@, w + "_the_end"@) {
                Some(text::under(server_dir@, w + "_the_end"@))
            } else {
                None
            })
        }),
{
    let w = resolve_world_name(content);
    let mut nether = w.clone();
    nether.append("_nether");
    let mut end = w.clone();
    end.append("_the_end");
    let second = if text::contains_str(existing, nether.as_str()) {
        Some(join_path(server_dir, nether.as_str()))
    } else {
        None
    };
    let third = if text::contains_str(existing, end.as_str()) {
        Some(join_path(server_dir, end.as_str()))
    } else {
        None
    };
    (join_path(server_dir, w.as_str()), second, third)
}

// ---------------------------------------------------------------------
// What holds of kinds of servers, profiles and worlds
// ---------------------------------------------------------------------

/// Terraria's two kinds of servers are for that game, all others for Minecraft;
/// each game has its own port and name.
pub proof fn law_games(t: ServerType)
    ensures
        type_game(t) == Game::Terraria <==> t == ServerType::Terraria || t
            == ServerType::TModLoader,
        game_port(Game::Minecraft) == 25565,
        game_port(Game::Terraria) == 7777,
        game_name(Game::Minecraft) == "Minecraft"@,
        game_name(Game::Terraria) == "Terraria"@,
        PROFILES_SCHEMA_VERSION == 1,
{
}

/// The key of a kind of server is its name in small letters.
pub proof fn law_keys_are_names_in_small_letters(t: ServerType)
    ensures
        type_key(t) == text::lowered(type_word(t)),
        text::lowered(type_label(t)) == type_key(t),
        t != ServerType::TModLoader ==> type_label(t) == type_word(t),
{
    reveal_strlit("Vanilla");
    reveal_strlit("vanilla");
    reveal_strlit("Paper");
    reveal_strlit("paper");
    reveal_strlit("Forge");
    reveal_strlit("forge");
    reveal_strlit("Fabric");
    reveal_strlit("fabric");
    reveal_strlit("NeoForge");
    reveal_strlit("neoforge");
    reveal_strlit("Bukkit");
    reveal_strlit("bukkit");
    reveal_strlit("Spigot");
    reveal_strlit("spigot");
    reveal_strlit("Folia");
    reveal_strlit("folia");
    reveal_strlit("Purpur");
    reveal_strlit("purpur");
    reveal_strlit("SpongeVanilla");
    reveal_strlit("spongevanilla");
    reveal_strlit("SpongeForge");
    reveal_strlit("spongeforge");
    reveal_strlit("Terraria");
    reveal_strlit("terraria");
    reveal_strlit("TModLoader");
    reveal_strlit("tModLoader");
    reveal_strlit("tmodloader");
    assert(text::lowered(type_word(t)) =~= type_key(t));
    assert(text::lowered(type_label(t)) =~= type_key(t));
}

/// Plugins are loaded by Paper, its relatives and Sponge; not by the plain servers,
/// by mod loaders or by Terraria's.
pub proof fn law_plugin_platforms(t: ServerType)
    ensures
        t == ServerType::Paper || t == ServerType::Bukkit || t == ServerType::Spigot || t
            == ServerType::Folia || t == ServerType::Purpur || t == ServerType::SpongeVanilla || t
            == ServerType::SpongeForge ==> type_has_plugins(t),
        t == ServerType::Vanilla || t == ServerType::Forge || t == ServerType::Fabric || t
            == ServerType::NeoForge || t == ServerType::Terraria || t == ServerType::TModLoader
            ==> !type_has_plugins(t),
        type_has_plugins(t) ==> type_game(t) == Game::Minecraft,
{
}

/// A profile is there if and only if some profile has its ID, and the first of
/// them is the one that is meant.
pub proof fn law_profiles_are_found_by_id(profiles: Seq<ServerProfile>, id: Seq<char>, k: int)
    ensures
        0 <= k < profiles.len() && profiles[k].id@ == id ==> has_profile(profiles, id)
            && profile_index(profiles, id, 0) <= k,
        has_profile(profiles, id) ==> 0 <= profile_index(profiles, id, 0) && profiles[profile_index(
            profiles,
            id,
            0,
        )].id@ == id,
{
    lemma_profile_index(profiles, id, 0);
}

/// Loading keeps every profile whose ID is not blank, as it is and in order, and
/// no other.
pub proof fn law_profiles_with_an_id_stay(profiles: Seq<ServerProfile>, n: int, i: int, j: int)
    requires
        0 <= i < n <= profiles.len(),
    ensures
        !text_laws::is_blank(profiles[i].id@) ==> {
            let at = named_profiles(profiles, i).len() as int;
            at < named_profiles(profiles, n).len() && named_profiles(profiles, n)[at] == profiles[i]
        },
        0 <= j < named_profiles(profiles, n).len() ==> !text_laws::is_blank(
            named_profiles(profiles, n)[j].id@,
        ) && profiles.contains(named_profiles(profiles, n)[j]),
        named_profiles(profiles, n).len() <= n,
    decreases n,
{
    let p = profiles[n - 1];
    lemma_blank(p.id@);
    let now = named_profiles(profiles, n);
    let prev = named_profiles(profiles, n - 1);
    if n > 1 {
        let i2 = if i < n - 1 {
            i
        } else {
            0
        };
        law_profiles_with_an_id_stay(profiles, n - 1, i2, j);
    } else {
        assert(prev.len() == 0);
    }
    if i < n - 1 {
        let at = named_profiles(profiles, i).len() as int;
        if !text_laws::is_blank(profiles[i].id@) {
            assert(prev[at] == profiles[i]);
            assert(now[at] == profiles[i]);
        }
    }
    if 0 <= j < now.len() {
        if j < prev.len() {
            assert(now[j] == prev[j]);
        } else {
            assert(now[j] == p);
        }
    }
}

proof fn lemma_blank(s: Seq<char>)
    ensures
        text::trim(s).len() == 0 <==> text_laws::is_blank(s),
{
    text_laws::law_trim_leaves_a_core(s);
    let core = text::trim(s);
    let (l, r) = choose|l: Seq<char>, r: Seq<char>|
        text_laws::is_blank(l) && text_laws::is_blank(r) && s == #[trigger] text_laws::around(
            l,
            core,
            r,
        );
    if core.len() == 0 {
        assert forall|k: int| 0 <= k < s.len() implies text::is_ws(#[trigger] s[k]) by {
            if k < l.len() {
                assert(s[k] == l[k]);
            } else {
                assert(s[k] == r[k - l.len()]);
            }
        }
    }
    if text_laws::is_blank(s) {
        text_laws::law_trim(s, seq![], seq![]);
        assert(s + Seq::<char>::empty() + Seq::<char>::empty() =~= s);
    }
}

/// A name is given without the blanks around it; one that is blank is replaced.
pub proof fn law_names(l: Seq<char>, name: Seq<char>, r: Seq<char>, other: Seq<char>)
    requires
        text_laws::is_blank(l),
        text_laws::is_blank(r),
        text_laws::is_core(name),
    ensures
        name_or(l + name + r, other) == name,
        name_or(l, other) == other,
{
    text_laws::law_trim(l, name, r);
    lemma_blank(l);
}

/// Saving settings changes all of a profile's settings to the new ones, but for a
/// server directory that it has.
pub proof fn law_all_settings_are_saved(before: ServerConfig, cfg: ServerConfig)
    ensures
        before.server_path@.len() == 0 ==> saved_config(before, cfg) == cfg,
        before.server_path@.len() > 0 ==> saved_config(before, cfg) == (ServerConfig {
            server_path: before.server_path,
            ..cfg
        }),
{
}

/// Deleting a profile takes those with its ID, and leaves all others as they are
/// and in order.
pub proof fn law_only_the_profile_goes(
    profiles: Seq<ServerProfile>,
    id: Seq<char>,
    n: int,
    i: int,
    j: int,
)
    requires
        0 <= i < n <= profiles.len(),
    ensures
        profiles[i].id@ != id ==> {
            let at = without(profiles, id, i).len() as int;
            at < without(profiles, id, n).len() && without(profiles, id, n)[at] == profiles[i]
        },
        0 <= j < without(profiles, id, n).len() ==> without(profiles, id, n)[j].id@ != id
            && profiles.contains(without(profiles, id, n)[j]),
        without(profiles, id, n).len() <= n,
    decreases n,
{
    let now = without(profiles, id, n);
    let prev = without(profiles, id, n - 1);
    if n > 1 {
        let i2 = if i < n - 1 {
            i
        } else {
            0
        };
        law_only_the_profile_goes(profiles, id, n - 1, i2, j);
    } else {
        assert(prev.len() == 0);
    }
    if i < n - 1 && profiles[i].id@ != id {
        let at = without(profiles, id, i).len() as int;
        assert(prev[at] == profiles[i]);
        assert(now[at] == profiles[i]);
    }
    if 0 <= j < now.len() {
        if j < prev.len() {
            assert(now[j] == prev[j]);
        } else {
            assert(now[j] == profiles[n - 1]);
        }
    }
}

/// A new profile must be set up. A duplicate has the settings of the active one; a
/// fresh one is for the game that was asked for, restarts by itself and is
/// balanced, and has nothing else set.
pub proof fn law_new_profiles(
    c: ServerConfig,
    file: ProfilesFile,
    duplicate: bool,
    game: Option<Game>,
    src: ServerConfig,
)
    requires
        is_new_config(c, file, duplicate, game),
        has_profile(file.profiles@, file.active_id@),
        config_of(file, file.active_id@, src),
    ensures
        !c.setup_complete,
        duplicate ==> c.server_type == src.server_type && c.minecraft_version
            == src.minecraft_version && c.ram_mb == src.ram_mb && c.server_name == src.server_name
            && c.loader_version == src.loader_version && c.java_path == src.java_path,
        !duplicate ==> {
            &&& c.server_type == (if game == Some(Game::Terraria) {
                ServerType::Terraria
            } else {
                ServerType::Vanilla
            })
            &&& c.auto_restart
            &&& c.optimized_jvm_flags
            &&& c.performance_preset@ == "balanced"@
            &&& !c.eula_accepted
            &&& !c.remote_control_enabled
            &&& c.remote_control_token@.len() == 0
            &&& c.curseforge_api_key is None
            &&& c.minecraft_version@.len() == 0
            &&& c.ram_mb == 0
        },
{
    if !duplicate {
        let d = choose|d: ServerConfig| #[trigger]
            is_default_config(d) && c == (ServerConfig {
                auto_restart: true,
                optimized_jvm_flags: true,
                performance_preset: c.performance_preset,
                server_type: c.server_type,
                server_path: c.server_path,
                ..d
            });
        assert(is_default_config(d));
    }
}

/// Two profiles never share a server directory: a directory that another profile
/// has is refused, and what is said names both profiles; one that no other has is
/// not, nor is one's own.
pub proof fn law_directories_are_not_shared(
    file: ProfilesFile,
    own: Seq<char>,
    path: Seq<char>,
    canonical: CanonicalPaths,
    k: int,
)
    requires
        path.len() > 0,
    ensures
        0 <= k < file.profiles@.len() && file.profiles@[k].id@ != own && normalized(
            file.profiles@[k].config.server_path@,
            canonical_at(canonical, k),
        ) == normalized(path, text::opt_view(canonical.own)) ==> {
            let c = collision(file, own, path, canonical);
            &&& c is Some
            &&& text::contains(c->0, own)
            &&& text::contains(c->0, path)
        },
        (forall|x: int|
            0 <= x < file.profiles@.len() && (#[trigger] file.profiles@[x]).id@ != own
                ==> normalized(
                file.profiles@[x].config.server_path@,
                canonical_at(canonical, x),
            ) != normalized(path, text::opt_view(canonical.own))) ==> collision(
            file,
            own,
            path,
            canonical,
        ) is None,
{
    let at = clash_index(file, own, path, canonical, 0);
    lemma_clash(file, own, path, canonical, 0, k);
    if at < file.profiles@.len() {
        let a = "Server path collision: profile '"@;
        let b = "' and profile '"@;
        let other = file.profiles@[at].id@;
        let d = "' both use '"@;
        let e = "'"@;
        let all = a + own + b + other + d + path + e;
        text_laws::law_contains_what_was_put_in(a, own, b + other + d + path + e);
        assert(a + own + (b + other + d + path + e) =~= all);
        text_laws::law_contains_what_was_put_in(a + own + b + other + d, path, e);
    }
}

proof fn lemma_clash(
    file: ProfilesFile,
    own: Seq<char>,
    path: Seq<char>,
    canonical: CanonicalPaths,
    i: int,
    k: int,
)
    requires
        0 <= i <= file.profiles@.len(),
    ensures
        ({
            let at = clash_index(file, own, path, canonical, i);
            &&& i <= at <= file.profiles@.len()
            &&& at < file.profiles@.len() ==> file.profiles@[at].id@ != own && normalized(
                file.profiles@[at].config.server_path@,
                canonical_at(canonical, at),
            ) == normalized(path, text::opt_view(canonical.own))
            &&& i <= k < file.profiles@.len() && file.profiles@[k].id@ != own && normalized(
                file.profiles@[k].config.server_path@,
                canonical_at(canonical, k),
            ) == normalized(path, text::opt_view(canonical.own)) ==> at <= k
        }),
    decreases file.profiles@.len() - i,
{
    if i < file.profiles@.len() && !(file.profiles@[i].id@ != own && normalized(
        file.profiles@[i].config.server_path@,
        canonical_at(canonical, i),
    ) == normalized(path, text::opt_view(canonical.own))) {
        lemma_clash(file, own, path, canonical, i + 1, k);
    }
}

proof fn lemma_parts_prefix(a: Seq<Seq<char>>, b: Seq<Seq<char>>, n: int)
    requires
        0 <= n <= a.len(),
        a.len() > 1,
    ensures
        path_parts(a + b, n) == path_parts(a, n),
    decreases n,
{
    if n > 0 {
        lemma_parts_prefix(a, b, n - 1);
        assert((a + b)[n - 1] == a[n - 1]);
    }
}

/// Two ways to write a directory are the same directory: a slash or `/.` at its
/// end changes nothing, and a name and `..` behind it neither.
pub proof fn law_same_directory(path: Seq<char>, name: Seq<char>)
    requires
        text::split(path, '/').len() > 1,
        name.len() > 0,
        forall|k: int| 0 <= k < name.len() ==> name[k] != '/',
        name != "."@,
        name != ".."@,
    ensures
        normalized(path + seq!['/'] + seq![], None) == normalized(path, None),
        normalized(path + seq!['/'] + "."@, None) == normalized(path, None),
        normalized(path + seq!['/'] + name + seq!['/'] + ".."@, None) == normalized(path, None),
        normalized(path, Some(name)) == name,
{
    reveal_strlit(".");
    reveal_strlit("..");
    let p = text::split(path, '/');
    let n = p.len() as int;
    let e = Seq::<char>::empty();
    text_laws::law_split_of_parts(path, '/', e);
    text_laws::law_split_of_parts(e, '/', e);
    lemma_parts_prefix(p, seq![e], n);
    assert((p + seq![e])[n] == e);
    text_laws::law_split_of_parts(path, '/', "."@);
    text_laws::law_split_of_parts("."@, '/', e);
    lemma_parts_prefix(p, seq!["."@], n);
    assert((p + seq!["."@])[n] == "."@);
    text_laws::law_split_of_parts(path, '/', name);
    text_laws::law_split_of_parts(name, '/', e);
    let q = p + seq![name];
    text_laws::law_split_of_parts(path + seq!['/'] + name, '/', ".."@);
    text_laws::law_split_of_parts(".."@, '/', e);
    lemma_parts_prefix(p, seq![name], n);
    lemma_parts_prefix(q, seq![".."@], n + 1);
    assert(q[n] == name);
    assert((q + seq![".."@])[n + 1] == ".."@);
    let a = path_parts(p, n);
    assert(a.push(name).drop_last() =~= a);
}

/// The name of a world is refused where it is empty, hidden, leads elsewhere or
/// names a drive; any other plain name is taken.
pub proof fn law_refused_worlds(a: Seq<char>, b: Seq<char>, name: Seq<char>)
    ensures
        refused_world(seq![]),
        refused_world(a + seq!['/'] + b),
        refused_world(a + seq!['\\'] + b),
        refused_world(a + ".."@ + b),
        refused_world(seq!['.'] + a),
        refused_world(seq!['C', ':'] + a),
        name.len() > 0 && name[0] != '.' && !text::contains(name, ".."@) && (forall|k: int|
            0 <= k < name.len() ==> name[k] != '/' && name[k] != '\\' && name[k] != ':')
            ==> !refused_world(name),
{
    reveal_strlit("/");
    reveal_strlit("\\");
    reveal_strlit(".");
    assert("/"@ =~= seq!['/']);
    assert("\\"@ =~= seq!['\\']);
    assert("."@ =~= seq!['.']);
    text_laws::law_contains_what_was_put_in(a, "/"@, b);
    text_laws::law_contains_what_was_put_in(a, "\\"@, b);
    text_laws::law_contains_what_was_put_in(a, ".."@, b);
    text_laws::law_ends("."@, a);
    let d = seq!['C', ':'] + a;
    assert(d[0] == 'C' && d[1] == ':');
    if name.len() > 0 && name[0] != '.' && !text::contains(name, ".."@) && (forall|k: int|
        0 <= k < name.len() ==> name[k] != '/' && name[k] != '\\' && name[k] != ':') {
        text_laws::lemma_lacks(name, "/"@, 0);
        text_laws::lemma_lacks(name, "\\"@, 0);
        if text::starts_with(name, "."@) {
            text_laws::lemma_occurs_char(name, "."@, 0, 0);
        }
    }
}

/// Whether a line sets the name of the world, and is no comment.
pub open spec fn sets_world(line: Seq<char>) -> bool {
    let t = text::trim(line);
    t.len() > 0 && t[0] != '#' && server_properties::key_of(t) == Some("level-name"@)
}

/// The world is the one that the first line sets which is no comment, unless that
/// is refused; where no line sets it, it is `world`.
pub proof fn law_world_is_the_one_that_is_set(content: Seq<char>, k: int)
    ensures
        0 <= k < text::lines(content).len() && sets_world(text::lines(content)[k]) && (forall|
            n: int,
        |
            0 <= n < k ==> !sets_world(#[trigger] text::lines(content)[n])) ==> world_name(
            Some(content),
        ) == ({
            let v = server_properties::value_of(text::trim(text::lines(content)[k]));
            if refused_world(v) {
                "world"@
            } else {
                v
            }
        }),
        (forall|n: int|
            0 <= n < text::lines(content).len() ==> !sets_world(#[trigger] text::lines(content)[n]))
            ==> world_name(Some(content)) == "world"@,
        world_name(None) == "world"@,
{
    let ls = text::lines(content);
    if 0 <= k < ls.len() && sets_world(ls[k]) && (forall|n: int|
        0 <= n < k ==> !sets_world(#[trigger] ls[n])) {
        lemma_level_name(ls, 0, k);
    }
    if forall|n: int| 0 <= n < ls.len() ==> !sets_world(#[trigger] ls[n]) {
        lemma_level_name(ls, 0, ls.len() as int);
    }
}

proof fn lemma_level_name(ls: Seq<Seq<char>>, i: int, k: int)
    requires
        0 <= i <= k <= ls.len(),
        forall|n: int| i <= n < k ==> !sets_world(#[trigger] ls[n]),
        k < ls.len() ==> sets_world(ls[k]),
    ensures
        k == ls.len() ==> level_name_from(ls, i) is None,
        k < ls.len() ==> level_name_from(ls, i) == Some(
            server_properties::value_of(text::trim(ls[k])),
        ),
    decreases k - i,
{
    reveal_strlit("#");
    if i < ls.len() {
        let t = text::trim(ls[i]);
        if text::starts_with(t, "#"@) {
            text_laws::lemma_occurs_char(t, "#"@, 0, 0);
        } else if t.len() > 0 && t[0] == '#' {
            assert(t.subrange(0, 1) =~= "#"@);
        }
        if i < k {
            lemma_level_name(ls, i + 1, k);
        }
    }
}

/// A profile's own server stands in a directory of its own below the program's.
pub proof fn law_own_directory(base: Seq<char>, id: Seq<char>)
    requires
        base.len() > 0,
        base.last() != '/',
        id.len() > 0,
        id[0] != '/',
        id.last() != '/',
    ensures
        own_server_path(base, id) == base + "/profiles/"@ + id + "/server"@,
{
    reveal_strlit("profiles");
    reveal_strlit("/profiles/");
    reveal_strlit("server");
    reveal_strlit("/server");
    text_laws::law_under(base, "profiles"@);
    let a = text::under(base, "profiles"@);
    assert(a.last() == "profiles"@.last());
    text_laws::law_under(a, id);
    let b = text::under(a, id);
    assert(b.last() == id.last());
    text_laws::law_under(b, "server"@);
    assert(own_server_path(base, id) =~= base + "/profiles/"@ + id + "/server"@);
}

/// What is said of a file that cannot be used says why: the version that it has,
/// or the fault and where the original is kept.
pub proof fn law_unusable_files_are_explained(version: u32, error: Seq<char>, backup: Seq<char>)
    ensures
        text::contains(future_text(version), text::dec(version as nat)),
        text::contains(corrupt_text(error, backup), error),
        text::contains(corrupt_text(error, backup), backup),
{
    let a = "profiles.json uses schema version "@;
    let v = text::dec(version as nat);
    let b = " which this build (up to v"@;
    let m = text::dec(PROFILES_SCHEMA_VERSION as nat);
    let c = ") does not support. Upgrade Lbby or manually downgrade the file."@;
    text_laws::law_contains_what_was_put_in(a, v, b + m + c);
    assert(a + v + (b + m + c) =~= a + v + b + m + c);
    let d = "profiles.json is corrupt ("@;
    let e = "). Original saved to "@;
    let f = ". Repair or delete the file and restart."@;
    text_laws::law_contains_what_was_put_in(d, error, e + backup + f);
    assert(d + error + (e + backup + f) =~= d + error + e + backup + f);
    text_laws::law_contains_what_was_put_in(d + error + e, backup, f);
}

/// What is shown of a profile is its own: its ID, name, kind and directory, whether
/// it is the active one, and the version of the game that it is for.
pub proof fn law_summaries(s: ProfileSummary, p: ServerProfile, active: Seq<char>)
    requires
        summarises(s, p, active),
    ensures
        s.id@ == p.id@,
        s.name@ == p.name@,
        s.active <==> p.id@ == active,
        s.server_type == p.config.server_type,
        s.server_path@ == p.config.server_path@,
        s.setup_complete == p.config.setup_complete,
        s.game == Game::Terraria <==> p.config.server_type == ServerType::Terraria
            || p.config.server_type == ServerType::TModLoader,
        s.game == Game::Terraria ==> s.terraria_version@ == p.config.terraria_version@,
        s.game == Game::Minecraft ==> s.terraria_version@.len() == 0,
        s.minecraft_version@ == p.config.minecraft_version@,
{
}

/// What is shown of the profiles is each of them, in order, which is active, and
/// the game of the active one.
pub proof fn law_states(s: ProfilesState, file: ProfilesFile, k: int)
    requires
        state_of(s, file),
        0 <= k < file.profiles@.len(),
    ensures
        s.profiles@.len() == file.profiles@.len(),
        s.active_id@ == file.active_id@,
        s.profiles@[k].id@ == file.profiles@[k].id@,
        s.profiles@[k].active <==> file.profiles@[k].id@ == file.active_id@,
        file.profiles@[k].id@ == file.active_id@ && (forall|n: int|
            0 <= n < k ==> (#[trigger] file.profiles@[n]).id@ != file.active_id@)
            ==> s.active_game == type_game(file.profiles@[k].config.server_type),
{
    assert(summarises(s.profiles@[k], file.profiles@[k], file.active_id@));
    lemma_profile_index(file.profiles@, file.active_id@, 0);
}

/// The settings of a profile are those of the first with its ID; where there is
/// none, nobody's.
pub proof fn law_settings_of_a_profile(file: ProfilesFile, id: Seq<char>, k: int, c: ServerConfig)
    ensures
        0 <= k < file.profiles@.len() && file.profiles@[k].id@ == id && (forall|n: int|
            0 <= n < k ==> (#[trigger] file.profiles@[n]).id@ != id) ==> (config_of(file, id, c)
            <==> c == file.profiles@[k].config),
        (forall|n: int| 0 <= n < file.profiles@.len() ==> (#[trigger] file.profiles@[n]).id@ != id)
            ==> (config_of(file, id, c) <==> is_default_config(c)),
{
    lemma_profile_index(file.profiles@, id, 0);
}

/// Loading a file keeps the active profile where it is there, and takes the first
/// otherwise; a file without profiles with an ID is none.
pub proof fn law_active_profile_after_loading(file: ProfilesFile, r: ProfilesFile, k: int)
    requires
        loaded_from(file, r),
        0 <= k < file.profiles@.len(),
        !text_laws::is_blank(file.profiles@[k].id@),
    ensures
        has_named(file),
        r.profiles@.len() > 0,
        file.profiles@[k].id@ == file.active_id@ ==> r.active_id@ == file.active_id@,
        (forall|n: int|
            0 <= n < file.profiles@.len() ==> (#[trigger] file.profiles@[n]).id@
                != file.active_id@) ==> r.active_id@ == r.profiles@[0].id@,
        r.schema_version == 1,
{
    let n = file.profiles@.len() as int;
    let kept = named_profiles(file.profiles@, n);
    law_profiles_with_an_id_stay(file.profiles@, n, k, 0);
    let at = named_profiles(file.profiles@, k).len() as int;
    assert(kept[at] == file.profiles@[k]);
    law_profiles_are_found_by_id(kept, file.active_id@, at);
    if forall|m: int|
        0 <= m < file.profiles@.len() ==> (#[trigger] file.profiles@[m]).id@ != file.active_id@ {
        if has_profile(kept, file.active_id@) {
            let i = profile_index(kept, file.active_id@, 0);
            law_profiles_with_an_id_stay(file.profiles@, n, k, i);
            assert(file.profiles@.contains(kept[i]));
            let m = choose|m: int|
                0 <= m < file.profiles@.len() && file.profiles@[m] == kept[i];
            assert(file.profiles@[m].id@ == file.active_id@);
        }
    }
}

} // verus!
