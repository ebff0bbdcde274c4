//! Keeping the dashboard in step: what is sent at each beat, what the reply
//! means, and how long to wait.
use vstd::prelude::*;

use crate::config;
use crate::config::{Game, ProfileSummary, ProfilesState};
use crate::text;
use crate::text_laws;
use crate::text::{from_chars, str_eq, to_chars, trimmed, trimmed_end_char};

verus! {

/// How long to wait at most after a beat that failed, and how long while beats
/// are switched off, in seconds.
pub const RETRY_SECS: u64 = 60;

/// The shortest time between two beats, in seconds.
pub const MIN_INTERVAL_SECS: u64 = 30;

// ---------------------------------------------------------------------
// What is sent
// ---------------------------------------------------------------------

/// A profile as the dashboard sees it. `T` is the number that tells how fast
/// the server ticks.
#[derive(Debug, Clone)]
pub struct AppServerSnapshot<T> {
    /// The ID of the profile.
    pub local_id: String,
    pub name: String,
    pub server_type: String,
    pub minecraft_version: String,
    /// `running`, `starting`, `stopping` or `stopped`.
    pub status: String,
    pub player_count: u32,
    pub max_players: u32,
    pub tps: Option<T>,
    pub memory_used_mb: Option<u64>,
    pub memory_max_mb: Option<u32>,
}

/// What is measured of the running server. The tick rate is there only where it
/// is above zero.
#[derive(Debug, Clone)]
pub struct LiveStats<T> {
    pub players_online: u32,
    pub players_max: u32,
    pub tps: Option<T>,
    pub ram_used_mb: u64,
    pub ram_max_mb: u32,
}

/// What a snapshot comes down to.
pub struct SnapshotView<T> {
    pub local_id: Seq<char>,
    pub name: Seq<char>,
    pub server_type: Seq<char>,
    pub minecraft_version: Seq<char>,
    pub status: Seq<char>,
    pub player_count: u32,
    pub max_players: u32,
    pub tps: Option<T>,
    pub memory_used_mb: Option<u64>,
    pub memory_max_mb: Option<u32>,
}

impl<T> View for AppServerSnapshot<T> {
    type V = SnapshotView<T>;

    open spec fn view(&self) -> SnapshotView<T> {
        SnapshotView {
            local_id: self.local_id@,
            name: self.name@,
            server_type: self.server_type@,
            minecraft_version: self.minecraft_version@,
            status: self.status@,
            player_count: self.player_count,
            max_players: self.max_players,
            tps: self.tps,
            memory_used_mb: self.memory_used_mb,
            memory_max_mb: self.memory_max_mb,
        }
    }
}

/// The version of the game that a profile runs.
pub open spec fn game_version(p: ProfileSummary) -> Seq<char> {
    if p.game == Game::Terraria {
        p.terraria_version@
    } else {
        p.minecraft_version@
    }
}

/// The status that is sent for a profile. Only the active one can be anything
/// but stopped.
pub open spec fn sent_status(active: bool, live: Option<Seq<char>>) -> Seq<char> {
    if active && live is Some && live->0.len() > 0 {
        live->0
    } else {
        "stopped"@
    }
}

/// A profile as the dashboard sees it: what is measured counts only for the
/// active profile, and only while it runs.
pub open spec fn snapshot_of<T>(
    p: ProfileSummary,
    live: Option<Seq<char>>,
    stats: Option<LiveStats<T>>,
) -> SnapshotView<T> {
    let status = sent_status(p.active, live);
    let measured = p.active && status == "running"@ && stats is Some;
    let s = stats->0;
    SnapshotView {
        local_id: p.id@,
        name: p.name@,
        server_type: config::type_key(p.server_type),
        minecraft_version: game_version(p),
        status,
        player_count: if measured {
            s.players_online
        } else {
            0
        },
        max_players: if measured {
            s.players_max
        } else {
            0
        },
        tps: if measured {
            s.tps
        } else {
            None
        },
        memory_used_mb: if measured && s.ram_used_mb > 0 {
            Some(s.ram_used_mb)
        } else {
            None
        },
        memory_max_mb: if measured && s.ram_max_mb > 0 {
            Some(s.ram_max_mb)
        } else {
            None
        },
    }
}

/// A profile as the dashboard sees it.
pub fn build_snapshot<T: Copy>(
    p: &ProfileSummary,
    live: Option<&str>,
    stats: Option<&LiveStats<T>>,
) -> (r: AppServerSnapshot<T>)
    ensures
        r@ == snapshot_of(
            *p,
            text::str_view(live),
            match stats {
                Some(s) => Some(*s),
                None => None,
            },
        ),
{
    let status = match live {
        Some(s) => {
            let chars = to_chars(s);
            if p.active && chars.len() > 0 {
                s.to_string()
            } else {
                String::from_str("stopped")
            }
        },
        None => String::from_str("stopped"),
    };
    let running = p.active && str_eq(status.as_str(), "running");
    let version = if p.game.is_terraria() {
        p.terraria_version.clone()
    } else {
        p.minecraft_version.clone()
    };
    let mut snapshot = AppServerSnapshot {
        local_id: p.id.clone(),
        name: p.name.clone(),
        server_type: String::from_str(p.server_type.key()),
        minecraft_version: version,
        status,
        player_count: 0,
        max_players: 0,
        tps: None,
        memory_used_mb: None,
        memory_max_mb: None,
    };
    match stats {
        Some(s) => {
            if running {
                snapshot.player_count = s.players_online;
                snapshot.max_players = s.players_max;
                snapshot.tps = s.tps;
                if s.ram_used_mb > 0 {
                    snapshot.memory_used_mb = Some(s.ram_used_mb);
                }
                if s.ram_max_mb > 0 {
                    snapshot.memory_max_mb = Some(s.ram_max_mb);
                }
            }
        },
        None => {},
    }
    snapshot
}

/// All profiles as the dashboard sees them.
pub open spec fn snapshots_of<T>(
    profiles: Seq<ProfileSummary>,
    live: Option<Seq<char>>,
    stats: Option<LiveStats<T>>,
) -> Seq<SnapshotView<T>> {
    profiles.map_values(|p: ProfileSummary| snapshot_of(p, live, stats))
}

/// What a list of snapshots comes down to.
pub open spec fn snapshot_views<T>(v: Seq<AppServerSnapshot<T>>) -> Seq<SnapshotView<T>> {
    v.map_values(|s: AppServerSnapshot<T>| s@)
}

/// All profiles as the dashboard sees them. `live` is the status of the server
/// and `stats` what is measured of it, where either could be had at once.
pub fn build_snapshots<T: Copy>(
    profiles: &ProfilesState,
    live: Option<&str>,
    stats: Option<&LiveStats<T>>,
) -> (r: Vec<AppServerSnapshot<T>>)
    ensures
        snapshot_views(r@) == snapshots_of(
            profiles.profiles@,
            text::str_view(live),
            match stats {
                Some(s) => Some(*s),
                None => None,
            },
        ),
{
    let ghost l = text::str_view(live);
    let ghost st = match stats {
        Some(s) => Some(*s),
        None => None,
    };
    let ghost all = snapshots_of(profiles.profiles@, l, st);
    let mut out: Vec<AppServerSnapshot<T>> = Vec::new();
    let mut i: usize = 0;
    assert(snapshot_views(out@) =~= all.take(0));
    while i < profiles.profiles.len()
        invariant
            i <= profiles.profiles.len(),
            l == (text::str_view(live)),
            st == (match stats {
                Some(s) => Some(*s),
                None => None,
            }),
            all == snapshots_of(profiles.profiles@, l, st),
            snapshot_views(out@) == all.take(i as int),
        decreases profiles.profiles.len() - i,
    {
        let ghost before = out@;
        let s = build_snapshot(&profiles.profiles[i], live, stats);
        out.push(s);
        assert(all[i as int] == s@);
        assert(snapshot_views(out@) =~= snapshot_views(before).push(s@));
        assert(all.take(i + 1) =~= all.take(i as int).push(s@));
        i = i + 1;
    }
    assert(all.take(all.len() as int) =~= all);
    out
}

/// A profile that is not active is sent as stopped, without anything measured,
/// whatever runs.
pub proof fn law_idle_profiles_are_stopped<T>(
    p: ProfileSummary,
    live: Option<Seq<char>>,
    stats: Option<LiveStats<T>>,
)
    requires
        !p.active,
    ensures
        snapshot_of(p, live, stats).status == "stopped"@,
        snapshot_of(p, live, stats).player_count == 0,
        snapshot_of(p, live, stats).max_players == 0,
        snapshot_of(p, live, stats).tps is None,
        snapshot_of(p, live, stats).memory_used_mb is None,
        snapshot_of(p, live, stats).memory_max_mb is None,
{
}

/// Where beats are sent.
pub fn heartbeat_url(dashboard_url: &str) -> (r: String)
    ensures
        r@ == text::trim_end_char(dashboard_url@, '/') + "/api/app/heartbeat"@,
{
    let chars = to_chars(dashboard_url);
    let mut s = from_chars(trimmed_end_char(&chars, '/'));
    s.append("/api/app/heartbeat");
    s
}

/// What a beat shows to be let in, where there is anything.
pub fn authorization(app_token: &str) -> (r: Option<String>)
    ensures
        text::opt_view(r) == (if app_token@.len() == 0 {
            None
        } else {
            Some("Bearer "@ + app_token@)
        }),
{
    let chars = to_chars(app_token);
    if chars.len() == 0 {
        None
    } else {
        let mut s = String::from_str("Bearer ");
        s.append(app_token);
        Some(s)
    }
}

/// The name of the machine: what either of two variables says, or else what a
/// command printed.
pub open spec fn chosen_hostname(
    hostname: Option<Seq<char>>,
    computer_name: Option<Seq<char>>,
    printed: Option<Seq<char>>,
) -> Seq<char> {
    if hostname is Some && hostname->0.len() > 0 {
        hostname->0
    } else if computer_name is Some && computer_name->0.len() > 0 {
        computer_name->0
    } else if printed is Some && text::trim(printed->0).len() > 0 {
        text::trim(printed->0)
    } else {
        "unknown"@
    }
}

/// The name of the machine.
pub fn get_hostname(hostname: Option<&str>, computer_name: Option<&str>, printed: Option<&str>) -> (r:
    String)
    ensures
        r@ == chosen_hostname(
            text::str_view(hostname),
            text::str_view(computer_name),
            text::str_view(printed),
        ),
{
    match hostname {
        Some(h) => {
            let chars = to_chars(h);
            if chars.len() > 0 {
                return h.to_string();
            }
        },
        None => {},
    }
    match computer_name {
        Some(h) => {
            let chars = to_chars(h);
            if chars.len() > 0 {
                return h.to_string();
            }
        },
        None => {},
    }
    match printed {
        Some(h) => {
            let chars = to_chars(h);
            let name = trimmed(&chars);
            if name.len() > 0 {
                return from_chars(name);
            }
        },
        None => {},
    }
    String::from_str("unknown")
}

// ---------------------------------------------------------------------
// What the reply means
// ---------------------------------------------------------------------

/// The reply to a beat.
#[derive(Debug, Clone)]
pub struct HeartbeatResponse {
    /// A new license.
    pub license_token: Option<String>,
    /// Whether the license was taken back.
    pub revoked: Option<bool>,
}

/// How long to wait between two beats, in seconds; nothing where beats are
/// switched off.
pub fn beat_interval(configured_secs: u64) -> (r: Option<u64>)
    ensures
        configured_secs == 0 <==> r is None,
        r is Some ==> r->0 == (if configured_secs < MIN_INTERVAL_SECS {
            MIN_INTERVAL_SECS
        } else {
            configured_secs
        }),
{
    if configured_secs == 0 {
        None
    } else if configured_secs < MIN_INTERVAL_SECS {
        Some(MIN_INTERVAL_SECS)
    } else {
        Some(configured_secs)
    }
}

/// What to do about a reply.
#[derive(Debug, Clone)]
pub struct LicenseUpdate {
    /// Take this license into use.
    pub activate: Option<String>,
    /// Give up the license, after that.
    pub deactivate: bool,
}

/// What to do about a reply.
pub fn license_update(reply: &HeartbeatResponse) -> (r: LicenseUpdate)
    ensures
        r.activate == reply.license_token,
        r.deactivate == (reply.revoked == Some(true)),
{
    let deactivate = match reply.revoked {
        Some(b) => b,
        None => false,
    };
    LicenseUpdate { activate: reply.license_token.clone(), deactivate }
}

/// Whether the user's rights changed, given what worked of what was to be done.
pub fn tier_changed(update: &LicenseUpdate, activated: bool, deactivated: bool) -> (r: bool)
    ensures
        r == ((update.activate is Some && activated) || (update.deactivate && deactivated)),
{
    (update.activate.is_some() && activated) || (update.deactivate && deactivated)
}

/// How long to wait after a beat, in seconds. One that failed is tried again
/// sooner, and never later than the next one is due.
pub fn wait_after_beat(sent: bool, interval: u64) -> (r: u64)
    ensures
        r == (if sent || interval < RETRY_SECS {
            interval
        } else {
            RETRY_SECS
        }),
        r <= interval,
{
    if sent || interval < RETRY_SECS {
        interval
    } else {
        RETRY_SECS
    }
}

/// The active profile is sent with the status of the server, and while that is
/// `running`, with what is measured of it; in any other state nothing measured is
/// sent.
pub proof fn law_running_profile_is_measured<T>(
    p: ProfileSummary,
    live: Seq<char>,
    stats: LiveStats<T>,
)
    requires
        p.active,
        live.len() > 0,
    ensures
        ({
            let s = snapshot_of(p, Some(live), Some(stats));
            &&& s.status == live
            &&& live == "running"@ ==> {
                &&& s.player_count == stats.players_online
                &&& s.max_players == stats.players_max
                &&& s.tps == stats.tps
                &&& stats.ram_used_mb > 0 ==> s.memory_used_mb == Some(stats.ram_used_mb)
                &&& stats.ram_max_mb > 0 ==> s.memory_max_mb == Some(stats.ram_max_mb)
            }
            &&& live != "running"@ ==> {
                &&& s.player_count == 0
                &&& s.max_players == 0
                &&& s.tps is None
                &&& s.memory_used_mb is None
                &&& s.memory_max_mb is None
            }
        }),
        snapshot_of(p, None, Some(stats)).status == "stopped"@,
{
    reveal_strlit("stopped");
    reveal_strlit("running");
    assert("stopped"@[0] == 's' && "running"@[0] == 'r');
}

/// Every profile is sent under its own ID, name and kind, with the version of the
/// game that it is for; each once, and in order.
pub proof fn law_every_profile_is_sent<T>(
    profiles: Seq<ProfileSummary>,
    live: Option<Seq<char>>,
    stats: Option<LiveStats<T>>,
    k: int,
)
    requires
        0 <= k < profiles.len(),
    ensures
        snapshots_of(profiles, live, stats).len() == profiles.len(),
        ({
            let s = snapshots_of(profiles, live, stats)[k];
            let p = profiles[k];
            &&& s.local_id == p.id@
            &&& s.name == p.name@
            &&& s.server_type == config::type_key(p.server_type)
            &&& p.game == Game::Terraria ==> s.minecraft_version == p.terraria_version@
            &&& p.game == Game::Minecraft ==> s.minecraft_version == p.minecraft_version@
        }),
        RETRY_SECS == 60,
        MIN_INTERVAL_SECS == 30,
{
}

/// The machine is called by the first of the names that are given and not empty.
pub proof fn law_hostname(h: Seq<char>, c: Option<Seq<char>>, p: Option<Seq<char>>)
    ensures
        h.len() > 0 ==> chosen_hostname(Some(h), c, p) == h,
        h.len() > 0 ==> chosen_hostname(None, Some(h), p) == h && chosen_hostname(
            Some(seq![]),
            Some(h),
            p,
        ) == h,
        text_laws::is_core(h) ==> chosen_hostname(None, None, Some(h)) == h,
        chosen_hostname(None, None, None) == "unknown"@,
{
    if text_laws::is_core(h) {
        text_laws::lemma_trim_plain(h);
    }
}

} // verus!
