//! Acceptance runs: a modpack is installed, the server started, and what
//! happened written down. The installing and starting is the caller's.
use vstd::prelude::*;

use crate::helpers;
use crate::helpers::parse_number;
use crate::structured;
use crate::structured::Data;
use crate::text;
use crate::text_laws;
use crate::text::{
    after_last, dec_string, file_name_of, from_chars, has_prefix, has_suffix, join, part,
    split_lines, str_eq, to_chars, to_lowercase, trimmed,
};

verus! {

/// How long a stopped server is given to start, in milliseconds.
pub const START_GRACE_MILLIS: u64 = 30000;

// ---------------------------------------------------------------------
// The record
// ---------------------------------------------------------------------

/// What is written down of a run. What is not known yet is a question mark.
#[derive(Debug, Clone)]
pub struct SmokeResult {
    pub pack_name: String,
    pub source: String,
    pub minecraft_version: String,
    pub loader: String,
    pub java_version: String,
    pub mod_count: usize,
    pub install_result: String,
    pub boot_result: String,
    pub commit_result: String,
    pub production_start: String,
    pub final_status: String,
    pub residue_audit: String,
    pub duration_millis: u64,
    pub port_used: u16,
}

/// What a record comes down to.
pub struct SmokeView {
    pub pack_name: Seq<char>,
    pub source: Seq<char>,
    pub minecraft_version: Seq<char>,
    pub loader: Seq<char>,
    pub java_version: Seq<char>,
    pub mod_count: usize,
    pub install_result: Seq<char>,
    pub boot_result: Seq<char>,
    pub commit_result: Seq<char>,
    pub production_start: Seq<char>,
    pub final_status: Seq<char>,
    pub residue_audit: Seq<char>,
    pub duration_millis: u64,
    pub port_used: u16,
}

impl View for SmokeResult {
    type V = SmokeView;

    open spec fn view(&self) -> SmokeView {
        SmokeView {
            pack_name: self.pack_name@,
            source: self.source@,
            minecraft_version: self.minecraft_version@,
            loader: self.loader@,
            java_version: self.java_version@,
            mod_count: self.mod_count,
            install_result: self.install_result@,
            boot_result: self.boot_result@,
            commit_result: self.commit_result@,
            production_start: self.production_start@,
            final_status: self.final_status@,
            residue_audit: self.residue_audit@,
            duration_millis: self.duration_millis,
            port_used: self.port_used,
        }
    }
}

/// The packs that are tried.
#[derive(Debug, Clone, Copy, PartialEq, Eq, Structural)]
pub enum SmokePack {
    CurseForgeForge,
    CurseForgeFabric,
    Modrinth,
}

/// The name of a pack, as far as it is known before the run.
pub open spec fn pack_name(p: SmokePack) -> Seq<char> {
    match p {
        SmokePack::CurseForgeForge => "The Afterlife (Forge)"@,
        SmokePack::CurseForgeFabric => "Cobblemon Fabric"@,
        SmokePack::Modrinth => "Modrinth Pack"@,
    }
}

/// Where a pack comes from, as far as it is known before the run.
pub open spec fn pack_source(p: SmokePack) -> Seq<char> {
    match p {
        SmokePack::CurseForgeForge =>
            "https://www.curseforge.com/minecraft/modpacks/the-afterlife"@,
        SmokePack::CurseForgeFabric =>
            "https://www.curseforge.com/minecraft/modpacks/cobblemon-fabric"@,
        SmokePack::Modrinth => "?"@,
    }
}

/// The loader of a pack.
pub open spec fn pack_loader(p: SmokePack) -> Seq<char> {
    match p {
        SmokePack::CurseForgeForge => "Forge"@,
        _ => "Fabric"@,
    }
}

/// How an installation ended.
#[derive(Debug, Clone)]
pub enum InstallReport {
    /// The server is in place.
    Success { minecraft_version: String },
    /// The server crashed, and the user has to decide about a mod.
    UserActionRequired { mod_id: String, crash_summary: String, confidence: String },
    /// It failed, for this reason.
    Failed(String),
    /// It took too long.
    TimedOut,
}

/// A record after the installation.
pub open spec fn installed_record(v: SmokeView, report: InstallReport) -> SmokeView {
    match report {
        InstallReport::Success { minecraft_version } => SmokeView {
            minecraft_version: minecraft_version@,
            install_result: "SUCCESS"@,
            commit_result: "SUCCESS (auto)"@,
            ..v
        },
        InstallReport::UserActionRequired { mod_id, crash_summary, confidence } => SmokeView {
            install_result: "UserActionRequired — mod="@ + mod_id@ + ", crash="@ + crash_summary@
                + ", confidence="@ + confidence@,
            commit_result: "PAUSED"@,
            production_start: "N/A (paused)"@,
            final_status: "UserActionRequired"@,
            ..v
        },
        InstallReport::Failed(e) => SmokeView {
            install_result: "FAIL: "@ + e@,
            production_start: "N/A"@,
            final_status: "Error"@,
            ..v
        },
        InstallReport::TimedOut => SmokeView {
            install_result: "TIMEOUT"@,
            production_start: "N/A"@,
            final_status: "Timeout"@,
            ..v
        },
    }
}

/// A status that a server settled in.
#[derive(Debug, Clone)]
pub struct Settled {
    /// The status in words.
    pub name: String,
    pub running: bool,
    pub detail: Option<String>,
}

/// A record after the start of the server.
pub open spec fn started_record(v: SmokeView, start: Result<Settled, String>) -> SmokeView {
    match start {
        Ok(s) => SmokeView {
            production_start: if s.detail is Some && !s.running {
                s.name@ + ": "@ + s.detail->0@
            } else {
                s.name@
            },
            final_status: s.name@,
            boot_result: match s.detail {
                Some(d) => d@,
                None => v.boot_result,
            },
            ..v
        },
        Err(e) => SmokeView {
            production_start: "FAIL: "@ + e@,
            final_status: "Error"@,
            ..v
        },
    }
}

impl SmokeResult {
    /// The record of a run that begins.
    pub fn begin(pack: SmokePack, java_version: &str, port: u16) -> (r: Self)
        ensures
            r@ == (SmokeView {
                pack_name: pack_name(pack),
                source: pack_source(pack),
                minecraft_version: "?"@,
                loader: pack_loader(pack),
                java_version: java_version@,
                mod_count: 0,
                install_result: "?"@,
                boot_result: "?"@,
                commit_result: "?"@,
                production_start: "?"@,
                final_status: "?"@,
                residue_audit: "?"@,
                duration_millis: 0,
                port_used: port,
            }),
    {
        let (name, source, loader) = match pack {
            SmokePack::CurseForgeForge => (
                "The Afterlife (Forge)",
                "https://www.curseforge.com/minecraft/modpacks/the-afterlife",
                "Forge",
            ),
            SmokePack::CurseForgeFabric => (
                "Cobblemon Fabric",
                "https://www.curseforge.com/minecraft/modpacks/cobblemon-fabric",
                "Fabric",
            ),
            SmokePack::Modrinth => ("Modrinth Pack", "?", "Fabric"),
        };
        SmokeResult {
            pack_name: String::from_str(name),
            source: String::from_str(source),
            minecraft_version: String::from_str("?"),
            loader: String::from_str(loader),
            java_version: java_version.to_string(),
            mod_count: 0,
            install_result: String::from_str("?"),
            boot_result: String::from_str("?"),
            commit_result: String::from_str("?"),
            production_start: String::from_str("?"),
            final_status: String::from_str("?"),
            residue_audit: String::from_str("?"),
            duration_millis: 0,
            port_used: port,
        }
    }

    /// Notes what a search for a pack found: titles with their keys, the best
    /// first. Gives the address of the pack to install, if there is one.
    pub fn record_search(&mut self, found: &Result<Vec<(String, String)>, String>) -> (r: Option<
        String,
    >)
        ensures
            match *found {
                Err(e) => r is None && final(self)@ == (SmokeView {
                    install_result: "FAIL: search: "@ + e@,
                    ..old(self)@
                }),
                Ok(list) => if list@.len() == 0 {
                    r is None && final(self)@ == (SmokeView {
                        install_result: "FAIL: no search results"@,
                        ..old(self)@
                    })
                } else {
                    r is Some && r->0@ == "https://modrinth.com/modpack/"@ + list@[0].1@
                        && final(self)@ == (SmokeView {
                        pack_name: list@[0].0@ + " (Modrinth)"@,
                        source: "modrinth:"@ + list@[0].1@,
                        ..old(self)@
                    })
                },
            },
    {
        match found {
            Err(e) => {
                let mut s = String::from_str("FAIL: search: ");
                s.append(e.as_str());
                self.install_result = s;
                None
            },
            Ok(list) => {
                if list.len() == 0 {
                    self.install_result = String::from_str("FAIL: no search results");
                    return None;
                }
                let mut name = list[0].0.clone();
                name.append(" (Modrinth)");
                self.pack_name = name;
                let mut source = String::from_str("modrinth:");
                source.append(list[0].1.as_str());
                self.source = source;
                let mut url = String::from_str("https://modrinth.com/modpack/");
                url.append(list[0].1.as_str());
                Some(url)
            },
        }
    }

    /// Notes how the installation ended. Says whether the server is to be
    /// started.
    pub fn record_install(&mut self, report: &InstallReport) -> (r: bool)
        ensures
            final(self)@ == installed_record(old(self)@, *report),
            r == report is Success,
    {
        match report {
            InstallReport::Success { minecraft_version } => {
                self.minecraft_version = minecraft_version.clone();
                self.install_result = String::from_str("SUCCESS");
                self.commit_result = String::from_str("SUCCESS (auto)");
                true
            },
            InstallReport::UserActionRequired { mod_id, crash_summary, confidence } => {
                let mut s = String::from_str("UserActionRequired — mod=");
                s.append(mod_id.as_str());
                s.append(", crash=");
                s.append(crash_summary.as_str());
                s.append(", confidence=");
                s.append(confidence.as_str());
                self.install_result = s;
                self.commit_result = String::from_str("PAUSED");
                self.production_start = String::from_str("N/A (paused)");
                self.final_status = String::from_str("UserActionRequired");
                false
            },
            InstallReport::Failed(e) => {
                let mut s = String::from_str("FAIL: ");
                s.append(e.as_str());
                self.install_result = s;
                self.production_start = String::from_str("N/A");
                self.final_status = String::from_str("Error");
                false
            },
            InstallReport::TimedOut => {
                self.install_result = String::from_str("TIMEOUT");
                self.production_start = String::from_str("N/A");
                self.final_status = String::from_str("Timeout");
                false
            },
        }
    }

    /// Notes how the start of the server ended.
    pub fn record_start(&mut self, start: &Result<Settled, String>)
        ensures
            final(self)@ == started_record(old(self)@, *start),
    {
        match start {
            Ok(s) => {
                let mut shown = s.name.clone();
                match &s.detail {
                    Some(d) => {
                        self.boot_result = d.clone();
                        if !s.running {
                            shown.append(": ");
                            shown.append(d.as_str());
                        }
                    },
                    None => {},
                }
                self.production_start = shown;
                self.final_status = s.name.clone();
            },
            Err(e) => {
                let mut s = String::from_str("FAIL: ");
                s.append(e.as_str());
                self.production_start = s;
                self.final_status = String::from_str("Error");
            },
        }
    }

    /// Notes how the refusal of a recovery ended.
    pub fn record_reject(&mut self, fingerprint: &str, failure: Option<&str>)
        ensures
            final(self)@ == (SmokeView {
                boot_result: match failure {
                    None => "Reject: OK (fingerprint="@ + fingerprint@ + ")"@,
                    Some(e) => "Reject: FAIL ("@ + e@ + ")"@,
                },
                ..old(self)@
            }),
    {
        let s = match failure {
            None => {
                let mut s = String::from_str("Reject: OK (fingerprint=");
                s.append(fingerprint);
                s.append(")");
                s
            },
            Some(e) => {
                let mut s = String::from_str("Reject: FAIL (");
                s.append(e);
                s.append(")");
                s
            },
        };
        self.boot_result = s;
    }

    /// Closes the record.
    pub fn finish(&mut self, mod_count: usize, residue: String, duration_millis: u64)
        ensures
            final(self)@ == (SmokeView {
                mod_count,
                residue_audit: residue@,
                duration_millis,
                ..old(self)@
            }),
    {
        self.mod_count = mod_count;
        self.residue_audit = residue;
        self.duration_millis = duration_millis;
    }
}

/// Only an installation that succeeded is written down as such.
pub proof fn law_only_success_is_committed(v: SmokeView, report: InstallReport)
    ensures
        report is Success <==> installed_record(v, report).install_result == "SUCCESS"@
            && installed_record(v, report).commit_result == "SUCCESS (auto)"@,
{
    reveal_strlit("SUCCESS");
    reveal_strlit("SUCCESS (auto)");
    reveal_strlit("PAUSED");
    reveal_strlit("FAIL: ");
    reveal_strlit("TIMEOUT");
    reveal_strlit("UserActionRequired — mod=");
    assert("SUCCESS"@[0] == 'S');
    assert("TIMEOUT"@[0] == 'T');
    assert("PAUSED"@.len() != "SUCCESS (auto)"@.len());
    match report {
        InstallReport::Failed(e) => {
            assert(("FAIL: "@ + e@)[0] == 'F');
        },
        _ => {},
    }
}

// ---------------------------------------------------------------------
// Waiting
// ---------------------------------------------------------------------

/// The status of a server, as far as a wait goes.
#[derive(Debug, Clone, Copy, PartialEq, Eq, Structural)]
pub enum SeenStatus {
    Running,
    Error,
    Stopped,
    /// On its way from one to another.
    Changing,
}

/// Whether a wait is over. A server that is stopped counts as settled only once
/// it had the time to start.
pub open spec fn wait_over(
    status: SeenStatus,
    elapsed_millis: u64,
    timeout_millis: u64,
) -> bool {
    elapsed_millis > timeout_millis || match status {
        SeenStatus::Running => true,
        SeenStatus::Error => true,
        SeenStatus::Stopped => elapsed_millis > START_GRACE_MILLIS,
        SeenStatus::Changing => false,
    }
}

/// What is reported beside the status: nothing of a server that runs, and
/// something, be it empty, of one that failed.
pub open spec fn wait_detail(
    status: SeenStatus,
    detail: Option<Seq<char>>,
    timed_out: bool,
) -> Option<Seq<char>> {
    if timed_out {
        detail
    } else {
        match status {
            SeenStatus::Running => None,
            SeenStatus::Error => Some(
                match detail {
                    Some(d) => d,
                    None => Seq::empty(),
                },
            ),
            _ => detail,
        }
    }
}

/// One look at a server that was started: its status, if the wait is over.
pub fn wait_for_server_running(
    status: SeenStatus,
    name: &str,
    detail: Option<&str>,
    elapsed_millis: u64,
    timeout_millis: u64,
) -> (r: Option<Settled>)
    ensures
        r is Some <==> wait_over(status, elapsed_millis, timeout_millis),
        r is Some ==> {
            &&& r->0.name@ == name@
            &&& r->0.running == (status == SeenStatus::Running)
            &&& text::opt_view(r->0.detail) == wait_detail(
                status,
                text::str_view(detail),
                elapsed_millis > timeout_millis,
            )
        },
{
    let running = status == SeenStatus::Running;
    let given = match detail {
        Some(d) => Some(d.to_string()),
        None => None,
    };
    if elapsed_millis > timeout_millis {
        return Some(Settled { name: name.to_string(), running, detail: given });
    }
    match status {
        SeenStatus::Running => Some(Settled { name: name.to_string(), running, detail: None }),
        SeenStatus::Error => {
            let d = match given {
                Some(d) => d,
                None => {
                    let e = String::new();
                    assert(e@ =~= Seq::<char>::empty());
                    e
                },
            };
            Some(Settled { name: name.to_string(), running, detail: Some(d) })
        },
        SeenStatus::Stopped => {
            if elapsed_millis > START_GRACE_MILLIS {
                Some(Settled { name: name.to_string(), running, detail: given })
            } else {
                None
            }
        },
        SeenStatus::Changing => None,
    }
}

/// The status that a wait ends with, where one that took too long is a failure.
pub open spec fn final_status(
    status: SeenStatus,
    elapsed_millis: u64,
    timeout_millis: u64,
) -> SeenStatus {
    if elapsed_millis > timeout_millis {
        SeenStatus::Error
    } else {
        status
    }
}

/// One look at a server that was started: how it ended up, if the wait is over.
pub fn wait_status(status: SeenStatus, elapsed_millis: u64, timeout_millis: u64) -> (r: Option<
    SeenStatus,
>)
    ensures
        r is Some <==> wait_over(status, elapsed_millis, timeout_millis),
        r is Some ==> r->0 == final_status(status, elapsed_millis, timeout_millis),
{
    if elapsed_millis > timeout_millis {
        return Some(SeenStatus::Error);
    }
    match status {
        SeenStatus::Running => Some(status),
        SeenStatus::Error => Some(status),
        SeenStatus::Stopped => if elapsed_millis > START_GRACE_MILLIS {
            Some(status)
        } else {
            None
        },
        SeenStatus::Changing => None,
    }
}

// ---------------------------------------------------------------------
// Ending a server that is still there
// ---------------------------------------------------------------------

/// The process that a file names.
pub fn read_pid(content: &str) -> (r: Option<u32>)
    ensures
        match r {
            Some(pid) => helpers::number_within(text::trim(content@), u32::MAX as int) == Some(
                pid as int,
            ),
            None => helpers::number_within(text::trim(content@), u32::MAX as int) is None,
        },
{
    let chars = to_chars(content);
    parse_number(trimmed(&chars), u32::MAX)
}

/// What to do about a process that was asked to end.
#[derive(Debug, Clone, Copy, PartialEq, Eq, Structural)]
pub enum EndStep {
    /// It is gone.
    Gone,
    /// Look again in a while.
    Wait,
    /// It had its time: end it by force.
    Kill,
}

/// One look at a process that was asked to end.
pub fn kill_server_process(alive: bool, elapsed_millis: u64, grace_millis: u64) -> (r: EndStep)
    ensures
        r == EndStep::Kill <==> elapsed_millis >= grace_millis,
        r == EndStep::Gone <==> elapsed_millis < grace_millis && !alive,
{
    if elapsed_millis >= grace_millis {
        EndStep::Kill
    } else if !alive {
        EndStep::Gone
    } else {
        EndStep::Wait
    }
}

// ---------------------------------------------------------------------
// Looks at the server directory
// ---------------------------------------------------------------------

/// Whether a file is a mod.
pub open spec fn is_mod_file(name: Seq<char>) -> bool {
    text::ends_with(text::lowercased(name), ".jar"@) || text::ends_with(
        text::lowercased(name),
        ".tmod"@,
    )
}

/// How many of the first `n` files are mods.
pub open spec fn mods_among(names: Seq<String>, n: int) -> nat
    decreases n,
{
    if n <= 0 {
        0
    } else {
        mods_among(names, n - 1) + if is_mod_file(names[n - 1]@) {
            1nat
        } else {
            0nat
        }
    }
}

/// How many files are mods.
pub fn count_mods(names: &Vec<String>) -> (r: usize)
    ensures
        r == mods_among(names@, names@.len() as int),
{
    let mut count: usize = 0;
    let mut i: usize = 0;
    while i < names.len()
        invariant
            i <= names.len(),
            count <= i,
            count == mods_among(names@, i as int),
        decreases names.len() - i,
    {
        let lower = to_lowercase(names[i].as_str());
        let chars = to_chars(lower.as_str());
        if has_suffix(&chars, ".jar") || has_suffix(&chars, ".tmod") {
            count = count + 1;
        }
        i = i + 1;
    }
    count
}

/// Whether a file's extension is exactly that of a JAR.
pub open spec fn has_jar_extension(path: Seq<char>) -> bool {
    match text::file_name(path) {
        Some(n) => {
            let dot = text::last_index(n, '.', n.len() as int);
            dot > 0 && n.skip(dot + 1) == "jar"@
        },
        None => false,
    }
}

/// How many of the first `n` files are JARs.
pub open spec fn jars_among(names: Seq<String>, n: int) -> nat
    decreases n,
{
    if n <= 0 {
        0
    } else {
        jars_among(names, n - 1) + if has_jar_extension(names[n - 1]@) {
            1nat
        } else {
            0nat
        }
    }
}

/// How many files are JARs.
pub fn count_jars(names: &Vec<String>) -> (r: usize)
    ensures
        r == jars_among(names@, names@.len() as int),
{
    let mut count: usize = 0;
    let mut i: usize = 0;
    while i < names.len()
        invariant
            i <= names.len(),
            count <= i,
            count == jars_among(names@, i as int),
        decreases names.len() - i,
    {
        let chars = to_chars(names[i].as_str());
        match file_name_of(&chars) {
            Some(n) => {
                let after = after_last(n, '.');
                if after >= 2 {
                    let ext = part(n, after, n.len());
                    assert(ext@ =~= n@.skip(after as int));
                    let e = from_chars(ext);
                    if str_eq(e.as_str(), "jar") {
                        count = count + 1;
                    }
                }
            },
            None => {},
        }
        i = i + 1;
    }
    count
}

/// What an installation left behind.
#[derive(Debug, Clone, Copy, PartialEq, Eq, Structural)]
pub struct Residue {
    /// Whether `staging` is there and holds something.
    pub staging: bool,
    /// Whether `pending-recovery` is there and holds something.
    pub pending_recovery: bool,
    /// Whether `retry-state.json` is there.
    pub retry_state: bool,
    /// Whether `transaction.json` is there.
    pub transaction: bool,
}

/// What is said of a thing that was left behind.
pub open spec fn if_left(left: bool, what: Seq<char>) -> Seq<Seq<char>> {
    if left {
        seq![what]
    } else {
        seq![]
    }
}

/// What is said of what was left behind.
pub open spec fn residue_issues(r: Residue) -> Seq<Seq<char>> {
    if_left(r.staging, "staging/ has entries"@) + if_left(
        r.pending_recovery,
        "pending-recovery/ has entries"@,
    ) + if_left(r.retry_state, "retry-state.json present"@) + if_left(
        r.transaction,
        "transaction.json present"@,
    )
}

fn note_if(issues: &mut Vec<String>, left: bool, what: &str)
    ensures
        text::views(final(issues)@) == text::views(old(issues)@) + if_left(left, what@),
{
    let ghost before = issues@;
    if left {
        issues.push(what.to_string());
        assert(text::views(issues@) =~= text::views(before) + seq![what@]);
    } else {
        assert(text::views(before) + Seq::<Seq<char>>::empty() =~= text::views(before));
    }
}

/// Says whether an installation left anything behind, and what.
pub fn check_residue(residue: &Residue) -> (r: String)
    ensures
        r@ == (if residue_issues(*residue).len() == 0 {
            "CLEAN"@
        } else {
            text::joined(residue_issues(*residue), "; "@)
        }),
{
    let mut issues: Vec<String> = Vec::new();
    assert(text::views(issues@) =~= Seq::<Seq<char>>::empty());
    note_if(&mut issues, residue.staging, "staging/ has entries");
    assert(text::views(issues@) =~= if_left(residue.staging, "staging/ has entries"@));
    note_if(&mut issues, residue.pending_recovery, "pending-recovery/ has entries");
    note_if(&mut issues, residue.retry_state, "retry-state.json present");
    note_if(&mut issues, residue.transaction, "transaction.json present");
    assert(text::views(issues@) == residue_issues(*residue));
    assert(text::views(issues@).len() == issues@.len());
    if issues.len() == 0 {
        String::from_str("CLEAN")
    } else {
        join(&issues, "; ")
    }
}

/// The line that sets the port.
pub open spec fn port_line(port: u16) -> Seq<char> {
    "server-port="@ + text::dec(port as nat)
}

/// The first line from `i` on that sets the port, or the number of lines.
pub open spec fn port_index(lines: Seq<Seq<char>>, i: int) -> int
    decreases lines.len() - i,
{
    if i < 0 || i >= lines.len() || text::starts_with(lines[i], "server-port="@) {
        i
    } else {
        port_index(lines, i + 1)
    }
}

/// Lines with the port set: in the first line that sets it, or else in a new one.
pub open spec fn with_port(lines: Seq<Seq<char>>, port: u16) -> Seq<Seq<char>> {
    let k = port_index(lines, 0);
    if k < lines.len() {
        lines.update(k, port_line(port))
    } else {
        lines.push(port_line(port))
    }
}

/// The server's settings with another port.
pub fn override_server_port(content: &str, port: u16) -> (r: String)
    ensures
        r@ == text::joined(with_port(text::lines(content@), port), "\n"@) + "\n"@,
{
    let chars = to_chars(content);
    let lines = split_lines(&chars);
    let ghost all = text::lines(content@);
    let mut setting = String::from_str("server-port=");
    setting.append(dec_string(port as u64).as_str());
    let mut out: Vec<String> = Vec::new();
    let mut found = false;
    let mut i: usize = 0;
    assert(text::views(out@) =~= all.take(0));
    while i < lines.len()
        invariant
            i <= lines.len(),
            text::slices(lines@) == all,
            all == text::lines(content@),
            setting@ == port_line(port),
            out@.len() == i,
            !found ==> port_index(all, 0) == port_index(all, i as int) && text::views(out@)
                == all.take(i as int),
            found ==> 0 <= port_index(all, 0) < i && text::views(out@) == all.update(
                port_index(all, 0),
                port_line(port),
            ).take(i as int),
        decreases lines.len() - i,
    {
        let ghost before = out@;
        let l: &[char] = lines[i];
        assert(text::slices(lines@)[i as int] == l@);
        if !found && has_prefix(l, "server-port=") {
            found = true;
            out.push(setting.clone());
            assert(text::views(out@) =~= text::views(before).push(port_line(port)));
            assert(text::views(out@) =~= all.update(i as int, port_line(port)).take(i + 1));
        } else {
            let s = from_chars(l);
            out.push(s);
            assert(text::views(out@) =~= text::views(before).push(l@));
            if found {
                assert(text::views(out@) =~= all.update(port_index(all, 0), port_line(port)).take(
                    i + 1,
                ));
            } else {
                assert(text::views(out@) =~= all.take(i + 1));
            }
        }
        i = i + 1;
    }
    assert(text::slices(lines@).len() == all.len());
    if !found {
        let ghost before = out@;
        assert(all.take(all.len() as int) =~= all);
        out.push(setting);
        assert(text::views(out@) =~= text::views(before).push(port_line(port)));
    } else {
        let ghost u = all.update(port_index(all, 0), port_line(port));
        assert(u.take(u.len() as int) =~= u);
    }
    assert(text::views(out@) == with_port(all, port));
    let mut r = join(&out, "\n");
    r.append("\n");
    r
}

proof fn lemma_port_index(lines: Seq<Seq<char>>, i: int)
    requires
        0 <= i <= lines.len(),
    ensures
        i <= port_index(lines, i) <= lines.len(),
    decreases lines.len() - i,
{
    if i < lines.len() && !text::starts_with(lines[i], "server-port="@) {
        lemma_port_index(lines, i + 1);
    }
}

/// The port is set in one line, and no other line changes.
pub proof fn law_port_is_set(lines: Seq<Seq<char>>, port: u16)
    ensures
        with_port(lines, port).contains(port_line(port)),
        forall|k: int|
            0 <= k < lines.len() && k != port_index(lines, 0) ==> #[trigger] with_port(
                lines,
                port,
            )[k] == lines[k],
{
    lemma_port_index(lines, 0);
    assert(with_port(lines, port)[port_index(lines, 0)] == port_line(port));
}

/// Whether what a staging directory says of its transaction names this one.
pub open spec fn names_transaction(meta: Option<structured::DataView>, id: Seq<char>) -> bool {
    meta is Some && structured::text_of(structured::field(meta->0, "transaction_id"@)) == Some(id)
}

/// What a list of staging directories comes down to.
pub open spec fn meta_view(d: Option<Data>) -> Option<structured::DataView> {
    match d {
        Some(x) => Some(x@),
        None => None,
    }
}

/// The first staging directory of a transaction, given what each directory says
/// of its own.
pub fn find_staging_dir(dirs: &Vec<(String, Option<Data>)>, txn_id: &str) -> (r: Option<String>)
    ensures
        match r {
            Some(p) => exists|i: int|
                {
                    &&& 0 <= i < dirs@.len()
                    &&& (#[trigger] dirs@[i]).0 == p
                    &&& names_transaction(meta_view(dirs@[i].1), txn_id@)
                    &&& forall|k: int|
                        0 <= k < i ==> !names_transaction(
                            meta_view((#[trigger] dirs@[k]).1),
                            txn_id@,
                        )
                },
            None => forall|k: int|
                0 <= k < dirs@.len() ==> !names_transaction(
                    meta_view((#[trigger] dirs@[k]).1),
                    txn_id@,
                ),
        },
{
    let mut i: usize = 0;
    while i < dirs.len()
        invariant
            i <= dirs.len(),
            forall|k: int|
                0 <= k < i ==> !names_transaction(meta_view((#[trigger] dirs@[k]).1), txn_id@),
        decreases dirs.len() - i,
    {
        let named = match &dirs[i].1 {
            Some(meta) => match meta.get("transaction_id") {
                Some(d) => match d.as_str() {
                    Some(s) => str_eq(s, txn_id),
                    None => false,
                },
                None => false,
            },
            None => false,
        };
        assert(named == names_transaction(meta_view(dirs@[i as int].1), txn_id@));
        if named {
            let p = dirs[i].0.clone();
            assert(dirs@[i as int].0 == p);
            return Some(p);
        }
        i = i + 1;
    }
    None
}

/// A wait is over as soon as the server runs or has failed, or the time is up; a
/// server that is stopped gets half a minute to start, and one that changes is
/// waited for.
pub proof fn law_when_a_wait_is_over(status: SeenStatus, elapsed: u64, timeout: u64)
    ensures
        elapsed > timeout ==> wait_over(status, elapsed, timeout) && final_status(
            status,
            elapsed,
            timeout,
        ) == SeenStatus::Error,
        status == SeenStatus::Running || status == SeenStatus::Error ==> wait_over(
            status,
            elapsed,
            timeout,
        ),
        elapsed <= timeout ==> final_status(status, elapsed, timeout) == status,
        elapsed <= timeout && status == SeenStatus::Changing ==> !wait_over(
            status,
            elapsed,
            timeout,
        ),
        elapsed <= timeout && status == SeenStatus::Stopped ==> (wait_over(
            status,
            elapsed,
            timeout,
        ) <==> elapsed > 30 * 1000),
{
}

/// What is written down of an installation says how it ended: which mod stopped
/// it, why it failed, or that it took too long.
pub proof fn law_record_says_how_it_ended(v: SmokeView, report: InstallReport)
    ensures
        ({
            let r = installed_record(v, report);
            &&& report matches InstallReport::Success { minecraft_version } ==> r.minecraft_version
                == minecraft_version@ && r.install_result == "SUCCESS"@
            &&& report matches InstallReport::UserActionRequired { mod_id, .. } ==> text::contains(
                r.install_result,
                mod_id@,
            ) && r.commit_result == "PAUSED"@
            &&& report matches InstallReport::Failed(e) ==> text::ends_with(r.install_result, e@)
                && r.final_status == "Error"@
            &&& report is TimedOut ==> r.install_result == "TIMEOUT"@
            &&& !(report is Success) ==> r.minecraft_version == v.minecraft_version
            &&& r.pack_name == v.pack_name && r.source == v.source && r.port_used == v.port_used
        }),
{
    match report {
        InstallReport::UserActionRequired { mod_id, crash_summary, confidence } => {
            let a = "UserActionRequired — mod="@;
            let b = ", crash="@ + crash_summary@ + ", confidence="@ + confidence@;
            text_laws::law_contains_what_was_put_in(a, mod_id@, b);
            assert(a + mod_id@ + b =~= installed_record(v, report).install_result);
        },
        InstallReport::Failed(e) => {
            text_laws::law_ends("FAIL: "@, e@);
        },
        _ => {},
    }
}

/// What is written down of a start says the state that it ended in and why.
pub proof fn law_record_says_how_it_started(v: SmokeView, start: Result<Settled, String>)
    ensures
        ({
            let r = started_record(v, start);
            &&& start matches Ok(s) ==> r.final_status == s.name@ && text::starts_with(
                r.production_start,
                s.name@,
            ) && (s.detail is Some ==> r.boot_result == s.detail->0@)
            &&& start matches Err(e) ==> r.final_status == "Error"@ && text::ends_with(
                r.production_start,
                e@,
            )
            &&& r.install_result == v.install_result && r.commit_result == v.commit_result
        }),
{
    match start {
        Ok(s) => {
            text_laws::law_ends(s.name@, seq![]);
            assert(s.name@ + Seq::<char>::empty() =~= s.name@);
            if let Some(d) = s.detail {
                text_laws::law_ends(s.name@, ": "@ + d@);
                assert(s.name@ + (": "@ + d@) =~= s.name@ + ": "@ + d@);
            }
        },
        Err(e) => {
            text_laws::law_ends("FAIL: "@, e@);
        },
    }
}

/// Mods are counted one by one: files in order add up, and each counts once where
/// its name, in small letters, ends in `.jar` or `.tmod`.
pub proof fn law_mods_are_counted(names: Seq<String>, n: int)
    requires
        0 < n <= names.len(),
    ensures
        mods_among(names, n) == mods_among(names, n - 1) + (if text::ends_with(
            text::lowercased(names[n - 1]@),
            ".jar"@,
        ) || text::ends_with(text::lowercased(names[n - 1]@), ".tmod"@) {
            1nat
        } else {
            0nat
        }),
        mods_among(names, 0) == 0,
        jars_among(names, 0) == 0,
        jars_among(names, n) == jars_among(names, n - 1) + (if has_jar_extension(names[n - 1]@) {
            1nat
        } else {
            0nat
        }),
{
}

/// A file `name.jar`, in whatever directory, has the extension of a JAR; one with
/// another extension has not.
pub proof fn law_jar_extension(dir: Seq<char>, name: Seq<char>, extension: Seq<char>)
    requires
        name.len() > 0,
        forall|k: int| 0 <= k < name.len() ==> name[k] != '/',
        forall|k: int| 0 <= k < extension.len() ==> extension[k] != '/' && extension[k] != '.',
        extension.len() > 0,
    ensures
        has_jar_extension(dir + seq!['/'] + (name + seq!['.'] + extension)) <==> extension
            == "jar"@,
{
    let file = name + seq!['.'] + extension;
    assert forall|k: int| 0 <= k < file.len() implies file[k] != '/' by {
        if k < name.len() {
            assert(file[k] == name[k]);
        } else if k > name.len() {
            assert(file[k] == extension[k - name.len() - 1]);
        }
    }
    assert(file.len() >= 3);
    text_laws::law_file_name(dir, file);
    lemma_last_dot(name, extension, extension.len() as int);
    assert(file.skip(name.len() as int + 1) =~= extension);
}

proof fn lemma_last_dot(st: Seq<char>, extension: Seq<char>, n: int)
    requires
        0 <= n <= extension.len(),
        forall|k: int| 0 <= k < extension.len() ==> extension[k] != '.',
    ensures
        text::last_index(st + seq!['.'] + extension, '.', st.len() as int + 1 + n) == st.len(),
    decreases n,
{
    let s = st + seq!['.'] + extension;
    if n > 0 {
        assert(s[st.len() as int + n] == extension[n - 1]);
        lemma_last_dot(st, extension, n - 1);
    } else {
        assert(s[st.len() as int] == '.');
    }
}

/// Everything that was left behind is said, and nothing else: an installation is
/// clean just where nothing was.
pub proof fn law_residue_is_said(r: Residue)
    ensures
        residue_issues(r).len() == 0 <==> !r.staging && !r.pending_recovery && !r.retry_state
            && !r.transaction,
        r.staging ==> residue_issues(r).contains("staging/ has entries"@),
        r.pending_recovery ==> residue_issues(r).contains("pending-recovery/ has entries"@),
        r.retry_state ==> residue_issues(r).contains("retry-state.json present"@),
        r.transaction ==> residue_issues(r).contains("transaction.json present"@),
{
    let a = if_left(r.staging, "staging/ has entries"@);
    let b = if_left(r.pending_recovery, "pending-recovery/ has entries"@);
    let c = if_left(r.retry_state, "retry-state.json present"@);
    let d = if_left(r.transaction, "transaction.json present"@);
    let all = a + b + c + d;
    if r.staging {
        assert(all[0] == a[0]);
    }
    if r.pending_recovery {
        assert(all[a.len() as int] == b[0]);
    }
    if r.retry_state {
        assert(all[(a + b).len() as int] == c[0]);
    }
    if r.transaction {
        assert(all[(a + b + c).len() as int] == d[0]);
    }
}

/// The port stands in the settings once they were written: in the line that set it,
/// or in a new one at the end, and as the number that was asked for.
pub proof fn law_port_line(lines: Seq<Seq<char>>, port: u16)
    ensures
        port_line(port) == "server-port="@ + text::dec(port as nat),
        with_port(lines, port).len() == lines.len() || with_port(lines, port).len() == lines.len()
            + 1,
        (forall|k: int|
            0 <= k < lines.len() ==> !text::starts_with(#[trigger] lines[k], "server-port="@))
            ==> with_port(lines, port) == lines.push(port_line(port)),
{
    lemma_port_index(lines, 0);
    if forall|k: int|
        0 <= k < lines.len() ==> !text::starts_with(#[trigger] lines[k], "server-port="@) {
        lemma_no_port(lines, 0);
    }
}

proof fn lemma_no_port(lines: Seq<Seq<char>>, i: int)
    requires
        0 <= i <= lines.len(),
        forall|k: int|
            0 <= k < lines.len() ==> !text::starts_with(#[trigger] lines[k], "server-port="@),
    ensures
        port_index(lines, i) == lines.len(),
    decreases lines.len() - i,
{
    if i < lines.len() {
        lemma_no_port(lines, i + 1);
    }
}

/// What is told beside the state: nothing of a server that runs, something of one
/// that failed, and what is known of one that took too long.
pub proof fn law_what_is_told_beside_the_state(detail: Option<Seq<char>>, status: SeenStatus)
    ensures
        wait_detail(SeenStatus::Running, detail, false) is None,
        wait_detail(SeenStatus::Error, detail, false) is Some,
        detail is Some ==> wait_detail(SeenStatus::Error, detail, false) == detail,
        wait_detail(status, detail, true) == detail,
        wait_detail(SeenStatus::Stopped, detail, false) == detail,
{
}

/// A staging directory is a transaction's where its file says so, and not where it
/// says another or nothing.
pub proof fn law_staging_directories_are_told_apart(v: structured::DataView, id: Seq<char>, other: Seq<char>)
    requires
        id != other,
        structured::field(v, "transaction_id"@) == Some(structured::DataView::Text(other)),
    ensures
        names_transaction(Some(v), other),
        !names_transaction(Some(v), id),
        !names_transaction(None, id),
{
}

} // verus!
