//! The report for troubleshooting: its texts, which files go into it, and what
//! is blacked out.
use vstd::prelude::*;

use crate::clock;
use crate::config;
use crate::config::ServerConfig;
use crate::file_cache::FileStamp;
use crate::sorting;
use crate::text;
use crate::text_laws;
use crate::text::{dec_string, from_chars, has_prefix, join, split_lines, to_chars, trimmed};

verus! {

/// How many of the server's logs go into the report.
pub const REPORT_LOGS: usize = 5;

/// The day, as it stands in the names of reports: day, month and year.
pub fn timestamp_ddmmyyyy() -> (r: String)
    ensures
        clock::is_day(r@),
{
    clock::local_time(clock::DAY_FORMAT)
}

/// The name of a report made on a day.
pub open spec fn report_name(date: Seq<char>) -> Seq<char> {
    "debug-report-"@ + date + ".zip"@
}

/// The name of a report made today.
pub fn default_debug_filename() -> (r: String)
    ensures
        exists|t: Seq<char>| #[trigger] clock::is_day(t) && r@ == report_name(t),
{
    let t = timestamp_ddmmyyyy();
    debug_filename(t.as_str())
}

/// The name of a report made on a day.
pub fn debug_filename(date: &str) -> (r: String)
    ensures
        r@ == report_name(date@),
{
    let mut s = String::from_str("debug-report-");
    s.append(date);
    s.append(".zip");
    s
}

// ---------------------------------------------------------------------
// Secrets
// ---------------------------------------------------------------------

/// Whether a line sets the secret.
pub open spec fn sets_secret(line: Seq<char>) -> bool {
    text::starts_with(text::trim(line), "secret_key"@)
}

/// What stands in the place of the secret.
pub open spec fn blacked_out() -> Seq<char> {
    "secret_key = \"<REDACTED>\""@
}

/// A line without the secret.
pub open spec fn redacted_line(line: Seq<char>) -> Seq<char> {
    if sets_secret(line) {
        blacked_out()
    } else {
        line
    }
}

/// Lines without the secret.
pub open spec fn redacted_lines(lines: Seq<Seq<char>>) -> Seq<Seq<char>> {
    lines.map_values(|l: Seq<char>| redacted_line(l))
}

/// A text without the secret.
pub open spec fn redacted(toml: Seq<char>) -> Seq<char> {
    text::joined(redacted_lines(text::lines(toml)), "\n"@)
}

/// A text without the secret.
pub fn redact_secret(toml: &str) -> (r: String)
    ensures
        r@ == redacted(toml@),
{
    let chars = to_chars(toml);
    let lines = split_lines(&chars);
    let ghost all = redacted_lines(text::lines(toml@));
    let mut out: Vec<String> = Vec::new();
    let mut i: usize = 0;
    assert(text::views(out@) =~= all.take(0));
    while i < lines.len()
        invariant
            i <= lines.len(),
            text::slices(lines@) == text::lines(toml@),
            all == redacted_lines(text::lines(toml@)),
            text::views(out@) == all.take(i as int),
        decreases lines.len() - i,
    {
        let ghost before = out@;
        let l: &[char] = lines[i];
        assert(text::slices(lines@)[i as int] == l@);
        let s = if has_prefix(trimmed(l), "secret_key") {
            String::from_str("secret_key = \"<REDACTED>\"")
        } else {
            from_chars(l)
        };
        assert(all[i as int] == s@);
        out.push(s);
        assert(text::views(out@) =~= text::views(before).push(s@));
        assert(all.take(i + 1) =~= all.take(i as int).push(s@));
        i = i + 1;
    }
    assert(text::slices(lines@).len() == text::lines(toml@).len());
    assert(all.take(all.len() as int) =~= all);
    join(&out, "\n")
}

/// No line that sets the secret is left but the one in its place, and all other
/// lines are.
pub proof fn law_secret_is_blacked_out(lines: Seq<Seq<char>>)
    ensures
        redacted_lines(lines).len() == lines.len(),
        forall|i: int|
            0 <= i < lines.len() ==> (sets_secret(#[trigger] redacted_lines(lines)[i])
                ==> redacted_lines(lines)[i] == blacked_out()),
        forall|i: int|
            0 <= i < lines.len() && !sets_secret(lines[i]) ==> #[trigger] redacted_lines(lines)[i]
                == lines[i],
{
}

// ---------------------------------------------------------------------
// Texts
// ---------------------------------------------------------------------

/// How a truth value is written.
pub open spec fn bool_text(b: bool) -> Seq<char> {
    if b {
        "true"@
    } else {
        "false"@
    }
}

fn bool_word(b: bool) -> (r: &'static str)
    ensures
        r@ == bool_text(b),
{
    if b {
        "true"
    } else {
        "false"
    }
}

/// What the report says of the application and the server. The configuration is
/// shown without what is secret in it.
pub open spec fn app_info_text(
    cfg: ServerConfig,
    when: Seq<char>,
    version: Seq<char>,
    os: Seq<char>,
    family: Seq<char>,
    arch: Seq<char>,
) -> Seq<char> {
    "Lbby Debug Report\n========================\nGenerated: "@
        + when
        + "\nApp version: "@
        + version
        + "\nOS: "@
        + os
        + " ("@
        + family
        + " / "@
        + arch
        + ")\n\n=== Server Config ===\nserver_type: "@
        + config::type_word(cfg.server_type)
        + "\nminecraft_version: "@
        + cfg.minecraft_version@
        + "\nloader_version: "@
        + (match cfg.loader_version {
            Some(v) => v@,
            None => "(none)"@,
        })
        + "\nram_mb: "@
        + text::dec(cfg.ram_mb as nat)
        + "\nmax_players: "@
        + text::dec(cfg.max_players as nat)
        + "\nserver_name: "@
        + cfg.server_name@
        + "\nsetup_complete: "@
        + bool_text(cfg.setup_complete)
        + "\nserver_path: "@
        + cfg.server_path@
        + "\njava_path: "@
        + cfg.java_path@
        + "\n"@
}

/// What a report made now says of the application and the server.
pub fn build_app_info(cfg: &ServerConfig, version: &str, os: &str, family: &str, arch: &str) -> (r:
    String)
    ensures
        exists|t: Seq<char>| #[trigger]
            clock::is_report_time(t) && r@ == app_info_text(
                *cfg,
                t,
                version@,
                os@,
                family@,
                arch@,
            ),
{
    let when = clock::local_time(clock::REPORT_FORMAT);
    app_info_at(cfg, when.as_str(), version, os, family, arch)
}

/// What a report made at a time says of the application and the server.
pub fn app_info_at(
    cfg: &ServerConfig,
    when: &str,
    version: &str,
    os: &str,
    family: &str,
    arch: &str,
) -> (r: String)
    ensures
        r@ == app_info_text(*cfg, when@, version@, os@, family@, arch@),
{
    let loader = match &cfg.loader_version {
        Some(v) => v.as_str(),
        None => "(none)",
    };
    let mut s = String::from_str("Lbby Debug Report\n========================\nGenerated: ");
    s.append(when);
    s.append("\nApp version: ");
    s.append(version);
    s.append("\nOS: ");
    s.append(os);
    s.append(" (");
    s.append(family);
    s.append(" / ");
    s.append(arch);
    s.append(")\n\n=== Server Config ===\nserver_type: ");
    s.append(cfg.server_type.name());
    s.append("\nminecraft_version: ");
    s.append(cfg.minecraft_version.as_str());
    s.append("\nloader_version: ");
    s.append(loader);
    s.append("\nram_mb: ");
    s.append(dec_string(cfg.ram_mb as u64).as_str());
    s.append("\nmax_players: ");
    s.append(dec_string(cfg.max_players as u64).as_str());
    s.append("\nserver_name: ");
    s.append(cfg.server_name.as_str());
    s.append("\nsetup_complete: ");
    s.append(bool_word(cfg.setup_complete));
    s.append("\nserver_path: ");
    s.append(cfg.server_path.as_str());
    s.append("\njava_path: ");
    s.append(cfg.java_path.as_str());
    s.append("\n");
    s
}

/// A disk.
#[derive(Debug, Clone)]
pub struct DiskFacts {
    pub name: String,
    pub mount_point: String,
    pub available_space: u64,
    pub total_space: u64,
}

/// What is known of the machine. Sizes are in bytes.
#[derive(Debug, Clone)]
pub struct SystemFacts {
    pub hostname: Option<String>,
    pub os_long: Option<String>,
    pub kernel: Option<String>,
    pub cpu_brand: Option<String>,
    pub physical_cores: u64,
    pub logical_cores: u64,
    pub total_memory: u64,
    pub used_memory: u64,
    pub available_memory: u64,
    pub disks: Vec<DiskFacts>,
}

/// A size in whole megabytes.
pub open spec fn megabytes(bytes: u64) -> nat {
    (bytes / 1024 / 1024) as nat
}

/// A text, or that it is not known.
pub open spec fn or_unknown(s: Option<Seq<char>>) -> Seq<char> {
    match s {
        Some(x) => x,
        None => "unknown"@,
    }
}

fn known(s: &Option<String>) -> (r: &str)
    ensures
        r@ == or_unknown(text::opt_view(*s)),
{
    match s {
        Some(x) => x.as_str(),
        None => "unknown",
    }
}

/// The line for a disk.
pub open spec fn disk_line(d: DiskFacts) -> Seq<char> {
    "  - "@ + d.name@ + " mounted at "@ + d.mount_point@ + " ("@ + text::dec(
        megabytes(d.available_space),
    ) + " MB free / "@ + text::dec(megabytes(d.total_space)) + " MB total)"@
}

/// The lines for the disks.
pub open spec fn disk_lines(disks: Seq<DiskFacts>) -> Seq<Seq<char>> {
    disks.map_values(|d: DiskFacts| disk_line(d))
}

/// What the report says of the machine.
pub open spec fn system_info_text(f: SystemFacts) -> Seq<char> {
    "=== System Info ===\nHostname: "@
        + or_unknown(text::opt_view(f.hostname))
        + "\nOS: "@
        + or_unknown(text::opt_view(f.os_long))
        + "\nKernel: "@
        + or_unknown(text::opt_view(f.kernel))
        + "\nCPU: "@
        + or_unknown(text::opt_view(f.cpu_brand))
        + "\nCPU cores (physical): "@
        + text::dec(f.physical_cores as nat)
        + "\nCPU cores (logical): "@
        + text::dec(f.logical_cores as nat)
        + "\nTotal RAM: "@
        + text::dec(megabytes(f.total_memory))
        + " MB\nUsed RAM: "@
        + text::dec(megabytes(f.used_memory))
        + " MB\nFree RAM: "@
        + text::dec(megabytes(f.available_memory))
        + " MB\n\n=== Disks ===\n"@
        + text::joined(disk_lines(f.disks@), "\n"@)
        + "\n"@
}

fn write_disks(disks: &Vec<DiskFacts>) -> (r: String)
    ensures
        r@ == text::joined(disk_lines(disks@), "\n"@),
{
    let ghost all = disk_lines(disks@);
    let mut out: Vec<String> = Vec::new();
    let mut i: usize = 0;
    assert(text::views(out@) =~= all.take(0));
    while i < disks.len()
        invariant
            i <= disks.len(),
            all == disk_lines(disks@),
            text::views(out@) == all.take(i as int),
        decreases disks.len() - i,
    {
        let ghost before = out@;
        let d = &disks[i];
        let mut s = String::from_str("  - ");
        s.append(d.name.as_str());
        s.append(" mounted at ");
        s.append(d.mount_point.as_str());
        s.append(" (");
        s.append(dec_string(d.available_space / 1024 / 1024).as_str());
        s.append(" MB free / ");
        s.append(dec_string(d.total_space / 1024 / 1024).as_str());
        s.append(" MB total)");
        assert(all[i as int] == s@);
        out.push(s);
        assert(text::views(out@) =~= text::views(before).push(s@));
        assert(all.take(i + 1) =~= all.take(i as int).push(s@));
        i = i + 1;
    }
    assert(all.take(all.len() as int) =~= all);
    join(&out, "\n")
}

/// What the report says of the machine.
pub fn build_system_info(f: &SystemFacts) -> (r: String)
    ensures
        r@ == system_info_text(*f),
{
    let disks = write_disks(&f.disks);
    let mut s = String::from_str("=== System Info ===\nHostname: ");
    s.append(known(&f.hostname));
    s.append("\nOS: ");
    s.append(known(&f.os_long));
    s.append("\nKernel: ");
    s.append(known(&f.kernel));
    s.append("\nCPU: ");
    s.append(known(&f.cpu_brand));
    s.append("\nCPU cores (physical): ");
    s.append(dec_string(f.physical_cores).as_str());
    s.append("\nCPU cores (logical): ");
    s.append(dec_string(f.logical_cores).as_str());
    s.append("\nTotal RAM: ");
    s.append(dec_string(f.total_memory / 1024 / 1024).as_str());
    s.append(" MB\nUsed RAM: ");
    s.append(dec_string(f.used_memory / 1024 / 1024).as_str());
    s.append(" MB\nFree RAM: ");
    s.append(dec_string(f.available_memory / 1024 / 1024).as_str());
    s.append(" MB\n\n=== Disks ===\n");
    s.append(disks.as_str());
    s.append("\n");
    s
}

// ---------------------------------------------------------------------
// Files
// ---------------------------------------------------------------------

/// Whether a time is not after another one. One that is not known is before all
/// others.
pub open spec fn not_after(a: Option<FileStamp>, b: Option<FileStamp>) -> bool {
    match (a, b) {
        (None, _) => true,
        (Some(_), None) => false,
        (Some(x), Some(y)) => x.secs < y.secs || (x.secs == y.secs && x.nanos <= y.nanos),
    }
}

fn is_not_after(a: &Option<FileStamp>, b: &Option<FileStamp>) -> (r: bool)
    ensures
        r == not_after(*a, *b),
{
    match (a, b) {
        (None, _) => true,
        (Some(_), None) => false,
        (Some(x), Some(y)) => x.secs < y.secs || (x.secs == y.secs && x.nanos <= y.nanos),
    }
}

/// The first place from `i` on in a list of times that holds none after a time.
pub open spec fn stamp_place(
    s: Seq<(String, Option<FileStamp>)>,
    t: Option<FileStamp>,
    i: int,
) -> int
    decreases s.len() - i,
{
    if 0 <= i < s.len() && !not_after(s[i].1, t) {
        stamp_place(s, t, i + 1)
    } else {
        i
    }
}

/// The first `n` files, the newest first; of files of the same age, the one that
/// came later.
pub open spec fn newest_first(files: Seq<(String, Option<FileStamp>)>, n: int) -> Seq<
    (String, Option<FileStamp>),
>
    decreases n,
{
    if n <= 0 {
        Seq::empty()
    } else {
        let s = newest_first(files, n - 1);
        s.insert(stamp_place(s, files[n - 1].1, 0), files[n - 1])
    }
}

/// The logs that go into the report: the newest ones.
pub open spec fn report_logs(files: Seq<(String, Option<FileStamp>)>) -> Seq<
    (String, Option<FileStamp>),
> {
    let s = newest_first(files, files.len() as int);
    if s.len() > REPORT_LOGS {
        s.take(REPORT_LOGS as int)
    } else {
        s
    }
}

proof fn lemma_stamp_place(
    s: Seq<(String, Option<FileStamp>)>,
    t: Option<FileStamp>,
    i: int,
)
    requires
        0 <= i <= s.len(),
    ensures
        i <= stamp_place(s, t, i) <= s.len(),
        forall|k: int| i <= k < stamp_place(s, t, i) ==> !not_after((#[trigger] s[k]).1, t),
        stamp_place(s, t, i) < s.len() ==> not_after(s[stamp_place(s, t, i)].1, t),
    decreases s.len() - i,
{
    if i < s.len() && !not_after(s[i].1, t) {
        lemma_stamp_place(s, t, i + 1);
    }
}

/// The logs that go into the report: the newest ones, given when each was last
/// changed.
pub fn logs_for_report(files: &Vec<(String, Option<FileStamp>)>) -> (r: Vec<
    (String, Option<FileStamp>),
>)
    ensures
        r@ == report_logs(files@),
{
    let mut sorted: Vec<(String, Option<FileStamp>)> = Vec::new();
    let mut i: usize = 0;
    while i < files.len()
        invariant
            i <= files.len(),
            sorted@ == newest_first(files@, i as int),
        decreases files.len() - i,
    {
        let ghost s = sorted@;
        let mut p: usize = 0;
        while p < sorted.len() && !is_not_after(&sorted[p].1, &files[i].1)
            invariant
                i < files.len(),
                p <= sorted.len(),
                sorted@ == s,
                stamp_place(s, files@[i as int].1, 0) == stamp_place(
                    s,
                    files@[i as int].1,
                    p as int,
                ),
            decreases sorted.len() - p,
        {
            p = p + 1;
        }
        let copy = (files[i].0.clone(), files[i].1);
        sorted.insert(p, copy);
        i = i + 1;
    }
    if sorted.len() > REPORT_LOGS {
        sorted.truncate(REPORT_LOGS);
        assert(sorted@ =~= newest_first(files@, files@.len() as int).take(REPORT_LOGS as int));
    }
    sorted
}

/// The logs stand in order, the newest first, and none is lost or doubled: what
/// is left out of a report is not after what goes in.
pub proof fn law_logs_newest_first(files: Seq<(String, Option<FileStamp>)>, n: int)
    requires
        0 <= n <= files.len(),
    ensures
        newest_first(files, n).len() == n,
        newest_first(files, n).to_multiset() == files.take(n).to_multiset(),
        forall|i: int, j: int|
            0 <= i <= j < n ==> not_after(
                (#[trigger] newest_first(files, n)[j]).1,
                (#[trigger] newest_first(files, n)[i]).1,
            ),
    decreases n,
{
    if n > 0 {
        law_logs_newest_first(files, n - 1);
        let s = newest_first(files, n - 1);
        let x = files[n - 1];
        let p = stamp_place(s, x.1, 0);
        lemma_stamp_place(s, x.1, 0);
        let t = s.insert(p, x);
        sorting::lemma_insert(s, p, x);
        files.take(n - 1).to_multiset_ensures();
        assert(files.take(n) =~= files.take(n - 1).push(x));
        assert forall|i: int, j: int| 0 <= i <= j < n implies not_after(
            (#[trigger] t[j]).1,
            (#[trigger] t[i]).1,
        ) by {
            if i < p && j > p {
                assert(not_after(s[j - 1].1, s[i].1));
            } else if i == p && j > p {
                assert(not_after(s[j - 1].1, s[p].1));
            } else if j < p {
                assert(not_after(s[j].1, s[i].1));
            } else if i > p {
                assert(not_after(s[j - 1].1, s[i - 1].1));
            }
        }
    } else {
        assert(newest_first(files, n) =~= files.take(n));
    }
}

/// The name of a log in the report.
pub fn log_entry_name(name: &str) -> (r: String)
    ensures
        r@ == "logs/"@ + name@,
{
    let mut s = String::from_str("logs/");
    s.append(name);
    s
}

/// The name of a crash report in the report.
pub fn crash_entry_name(name: &str) -> (r: String)
    ensures
        r@ == "crash-reports/"@ + name@,
{
    let mut s = String::from_str("crash-reports/");
    s.append(name);
    s
}

// ---------------------------------------------------------------------
// The report
// ---------------------------------------------------------------------

/// What was found in the server's directory.
#[derive(Debug, Clone)]
pub struct ServerFiles {
    /// `server.properties`, where it could be read.
    pub properties: Option<String>,
    /// `user_jvm_args.txt`, where it could be read.
    pub jvm_args: Option<String>,
    /// The logs, with when each was last changed.
    pub logs: Vec<(String, Option<FileStamp>)>,
    pub crash_reports: Vec<String>,
}

/// What an entry of the report holds.
#[derive(Debug, Clone)]
pub enum EntryContent {
    /// This text. The report fails where it cannot be written.
    Text(String),
    /// The log of this name. It is left out where it cannot be read.
    Log(String),
    /// The crash report of this name. It is left out where it cannot be read.
    CrashReport(String),
}

/// An entry of the report.
#[derive(Debug, Clone)]
pub struct ReportEntry {
    pub name: String,
    pub content: EntryContent,
}

/// The text of an [`EntryContent`].
pub enum ContentView {
    Text(Seq<char>),
    Log(Seq<char>),
    CrashReport(Seq<char>),
}

impl View for ReportEntry {
    type V = (Seq<char>, ContentView);

    open spec fn view(&self) -> (Seq<char>, ContentView) {
        (
            self.name@,
            match self.content {
                EntryContent::Text(t) => ContentView::Text(t@),
                EntryContent::Log(n) => ContentView::Log(n@),
                EntryContent::CrashReport(n) => ContentView::CrashReport(n@),
            },
        )
    }
}

/// The texts of a list of entries.
pub open spec fn entry_views(v: Seq<ReportEntry>) -> Seq<(Seq<char>, ContentView)> {
    v.map_values(|e: ReportEntry| e@)
}

/// The entry for a text that may not be there.
pub open spec fn text_entry(name: Seq<char>, t: Option<Seq<char>>) -> Seq<
    (Seq<char>, ContentView),
> {
    match t {
        Some(c) => seq![(name, ContentView::Text(c))],
        None => Seq::empty(),
    }
}

/// The entries for the first `n` logs.
pub open spec fn log_entries(logs: Seq<(String, Option<FileStamp>)>, n: int) -> Seq<
    (Seq<char>, ContentView),
>
    decreases n,
{
    if n <= 0 {
        Seq::empty()
    } else {
        log_entries(logs, n - 1).push(
            ("logs/"@ + logs[n - 1].0@, ContentView::Log(logs[n - 1].0@)),
        )
    }
}

/// The entries for the first `n` crash reports.
pub open spec fn crash_entries(names: Seq<String>, n: int) -> Seq<(Seq<char>, ContentView)>
    decreases n,
{
    if n <= 0 {
        Seq::empty()
    } else {
        crash_entries(names, n - 1).push(
            ("crash-reports/"@ + names[n - 1]@, ContentView::CrashReport(names[n - 1]@)),
        )
    }
}

/// The entries for what the server's directory holds.
pub open spec fn server_entries(f: ServerFiles) -> Seq<(Seq<char>, ContentView)> {
    let logs = report_logs(f.logs@);
    text_entry("server.properties"@, text::opt_view(f.properties)) + text_entry(
        "user_jvm_args.txt"@,
        text::opt_view(f.jvm_args),
    ) + log_entries(logs, logs.len() as int) + crash_entries(
        f.crash_reports@,
        f.crash_reports@.len() as int,
    )
}

/// The entries of a report, in their order: what is known of the application and
/// of the machine, what the server's directory holds, and the tunnel's settings
/// with the secret blacked out.
pub open spec fn report_entries(
    app_info: Seq<char>,
    system_info: Seq<char>,
    server: Option<ServerFiles>,
    tunnel: Option<Seq<char>>,
) -> Seq<(Seq<char>, ContentView)> {
    seq![
        ("app-info.txt"@, ContentView::Text(app_info)),
        ("system-info.txt"@, ContentView::Text(system_info)),
    ] + match server {
        Some(f) => server_entries(f),
        None => Seq::empty(),
    } + text_entry(
        "playit.toml-redacted"@,
        match tunnel {
            Some(t) => Some(redacted(t)),
            None => None,
        },
    )
}

fn add_entry(out: &mut Vec<ReportEntry>, name: &str, content: EntryContent)
    ensures
        ({
            let e = ReportEntry { name: final(out)@.last().name, content };
            &&& e.name@ == name@
            &&& final(out)@ == old(out)@.push(e)
            &&& entry_views(final(out)@) == entry_views(old(out)@).push(e@)
        }),
{
    let ghost before = out@;
    let e = ReportEntry { name: name.to_string(), content };
    out.push(e);
    assert(entry_views(out@) =~= entry_views(before).push(e@));
}

fn add_text(out: &mut Vec<ReportEntry>, name: &str, t: &Option<String>)
    ensures
        entry_views(final(out)@) == entry_views(old(out)@) + text_entry(name@, text::opt_view(*t)),
{
    match t {
        Some(c) => {
            add_entry(out, name, EntryContent::Text(c.clone()));
        },
        None => {},
    }
    assert(entry_views(out@) =~= entry_views(old(out)@) + text_entry(name@, text::opt_view(*t)));
}

/// What goes into a report, in this order.
pub fn export_debug_report(
    app_info: String,
    system_info: String,
    server: &Option<ServerFiles>,
    tunnel: Option<&str>,
) -> (r: Vec<ReportEntry>)
    ensures
        entry_views(r@) == report_entries(app_info@, system_info@, *server, text::str_view(tunnel)),
{
    let mut out: Vec<ReportEntry> = Vec::new();
    assert(entry_views(out@) =~= Seq::<(Seq<char>, ContentView)>::empty());
    add_entry(&mut out, "app-info.txt", EntryContent::Text(app_info));
    add_entry(&mut out, "system-info.txt", EntryContent::Text(system_info));
    let ghost head = seq![
        ("app-info.txt"@, ContentView::Text(app_info@)),
        ("system-info.txt"@, ContentView::Text(system_info@)),
    ];
    assert(entry_views(out@) =~= head);
    if let Some(f) = server {
        add_text(&mut out, "server.properties", &f.properties);
        add_text(&mut out, "user_jvm_args.txt", &f.jvm_args);
        let ghost texts = entry_views(out@);
        let logs = logs_for_report(&f.logs);
        let mut i: usize = 0;
        assert(texts + log_entries(logs@, 0) =~= texts);
        while i < logs.len()
            invariant
                i <= logs.len(),
                entry_views(out@) == texts + log_entries(logs@, i as int),
            decreases logs.len() - i,
        {
            let name = logs[i].0.clone();
            let entry = log_entry_name(name.as_str());
            add_entry(&mut out, entry.as_str(), EntryContent::Log(name));
            assert(entry_views(out@) =~= texts + log_entries(logs@, i + 1));
            i = i + 1;
        }
        let ghost with_logs = entry_views(out@);
        let mut k: usize = 0;
        assert(with_logs + crash_entries(f.crash_reports@, 0) =~= with_logs);
        while k < f.crash_reports.len()
            invariant
                k <= f.crash_reports.len(),
                entry_views(out@) == with_logs + crash_entries(f.crash_reports@, k as int),
            decreases f.crash_reports.len() - k,
        {
            let name = f.crash_reports[k].clone();
            let entry = crash_entry_name(name.as_str());
            add_entry(&mut out, entry.as_str(), EntryContent::CrashReport(name));
            assert(entry_views(out@) =~= with_logs + crash_entries(f.crash_reports@, k + 1));
            k = k + 1;
        }
        assert(entry_views(out@) =~= head + server_entries(*f));
    }
    let redacted_tunnel = match tunnel {
        Some(t) => Some(redact_secret(t)),
        None => None,
    };
    add_text(&mut out, "playit.toml-redacted", &redacted_tunnel);
    assert(entry_views(out@) =~= report_entries(
        app_info@,
        system_info@,
        *server,
        text::str_view(tunnel),
    ));
    out
}

/// A line that sets the secret, whatever it is set to and however it is indented,
/// is replaced by one that says nothing of it.
pub proof fn law_no_secret_gets_out(l: Seq<char>, rest: Seq<char>)
    requires
        text_laws::is_blank(l),
        text_laws::is_core("secret_key"@ + rest),
    ensures
        redacted_line(l + ("secret_key"@ + rest)) == "secret_key = \"<REDACTED>\""@,
{
    assert(text_laws::is_blank(Seq::<char>::empty()));
    text_laws::law_trim(l, "secret_key"@ + rest, seq![]);
    assert(l + ("secret_key"@ + rest) + Seq::<char>::empty() =~= l + ("secret_key"@ + rest));
    text_laws::law_ends("secret_key"@, rest);
}

/// Of the tunnel's settings the report holds the lines as they are, but for those
/// that set the secret.
pub proof fn law_redacted_text(toml: Seq<char>, k: int)
    requires
        0 <= k < text::lines(toml).len(),
    ensures
        redacted(toml) == text::joined(redacted_lines(text::lines(toml)), "\n"@),
        redacted_lines(text::lines(toml)).len() == text::lines(toml).len(),
        !text::starts_with(text::trim(text::lines(toml)[k]), "secret_key"@) ==> redacted_lines(
            text::lines(toml),
        )[k] == text::lines(toml)[k],
        text::starts_with(text::trim(text::lines(toml)[k]), "secret_key"@) ==> redacted_lines(
            text::lines(toml),
        )[k] == "secret_key = \"<REDACTED>\""@,
{
}

/// What the report says of the settings does not depend on any secret in them: two
/// configurations that differ in keys, tokens and passwords alone are described in
/// the same words.
pub proof fn law_report_tells_no_secrets(
    a: ServerConfig,
    b: ServerConfig,
    when: Seq<char>,
    version: Seq<char>,
    os: Seq<char>,
    family: Seq<char>,
    arch: Seq<char>,
)
    requires
        b == (ServerConfig {
            curseforge_api_key: b.curseforge_api_key,
            remote_control_token: b.remote_control_token,
            remote_control_public_url: b.remote_control_public_url,
            terraria_password: b.terraria_password,
            app_token: b.app_token,
            dashboard_url: b.dashboard_url,
            ..a
        }),
    ensures
        app_info_text(a, when, version, os, family, arch) == app_info_text(
            b,
            when,
            version,
            os,
            family,
            arch,
        ),
{
}

/// The report names when it was made and the version of the program, the version
/// of the game, and where the server and Java are.
pub proof fn law_report_names_what_matters(
    c: ServerConfig,
    when: Seq<char>,
    version: Seq<char>,
    os: Seq<char>,
    family: Seq<char>,
    arch: Seq<char>,
)
    ensures
        ({
            let t = app_info_text(c, when, version, os, family, arch);
            &&& text::contains(t, when)
            &&& text::contains(t, version)
            &&& text::contains(t, c.minecraft_version@)
            &&& text::contains(t, c.server_name@)
            &&& text::contains(t, c.server_path@)
            &&& text::contains(t, c.java_path@)
        }),
{
    let t = app_info_text(c, when, version, os, family, arch);
    let p1 = "Lbby Debug Report\n========================\nGenerated: "@ + when;
    let p2 = p1 + "\nApp version: "@ + version;
    let p3 = p2 + "\nOS: "@ + os;
    let p4 = p3 + " ("@ + family;
    let p5 = p4 + " / "@ + arch;
    let p6 = p5 + ")\n\n=== Server Config ===\nserver_type: "@ + config::type_word(c.server_type);
    let p7 = p6 + "\nminecraft_version: "@ + c.minecraft_version@;
    let p8 = p7 + "\nloader_version: "@ + (match c.loader_version {
        Some(v) => v@,
        None => "(none)"@,
    });
    let p9 = p8 + "\nram_mb: "@ + text::dec(c.ram_mb as nat);
    let p10 = p9 + "\nmax_players: "@ + text::dec(c.max_players as nat);
    let p11 = p10 + "\nserver_name: "@ + c.server_name@;
    let p12 = p11 + "\nsetup_complete: "@ + bool_text(c.setup_complete);
    let p13 = p12 + "\nserver_path: "@ + c.server_path@;
    let p14 = p13 + "\njava_path: "@ + c.java_path@;
    assert(t == p14 + "\n"@);
    lemma_more(p14, "\n"@, seq![], c.java_path@);
    assert(p14 + "\n"@ + Seq::<char>::empty() =~= t);
    lemma_last(p13 + "\njava_path: "@, c.java_path@);
    lemma_last(p12 + "\nserver_path: "@, c.server_path@);
    lemma_last(p10 + "\nserver_name: "@, c.server_name@);
    lemma_last(p6 + "\nminecraft_version: "@, c.minecraft_version@);
    lemma_last(p1 + "\nApp version: "@, version);
    lemma_last("Lbby Debug Report\n========================\nGenerated: "@, when);
    lemma_more(p1, "\nApp version: "@, version, when);
    lemma_more(p2, "\nOS: "@, os, when);
    lemma_more(p2, "\nOS: "@, os, version);
    lemma_more(p3, " ("@, family, when);
    lemma_more(p3, " ("@, family, version);
    lemma_more(p4, " / "@, arch, when);
    lemma_more(p4, " / "@, arch, version);
    let w = config::type_word(c.server_type);
    lemma_more(p5, ")\n\n=== Server Config ===\nserver_type: "@, w, when);
    lemma_more(p5, ")\n\n=== Server Config ===\nserver_type: "@, w, version);
    lemma_more(p6, "\nminecraft_version: "@, c.minecraft_version@, when);
    lemma_more(p6, "\nminecraft_version: "@, c.minecraft_version@, version);
    lemma_to_the_end(c, p7, t, when);
    lemma_to_the_end(c, p7, t, version);
    lemma_to_the_end(c, p7, t, c.minecraft_version@);
    lemma_more(p11, "\nsetup_complete: "@, bool_text(c.setup_complete), c.server_name@);
    lemma_more(p12, "\nserver_path: "@, c.server_path@, c.server_name@);
    lemma_more(p13, "\njava_path: "@, c.java_path@, c.server_name@);
    lemma_more(p14, "\n"@, seq![], c.server_name@);
    lemma_more(p13, "\njava_path: "@, c.java_path@, c.server_path@);
    lemma_more(p14, "\n"@, seq![], c.server_path@);
}

proof fn lemma_to_the_end(c: ServerConfig, p7: Seq<char>, t: Seq<char>, x: Seq<char>)
    requires
        text::contains(p7, x),
        t == p7 + "\nloader_version: "@ + (match c.loader_version {
            Some(v) => v@,
            None => "(none)"@,
        }) + "\nram_mb: "@ + text::dec(c.ram_mb as nat) + "\nmax_players: "@ + text::dec(
            c.max_players as nat,
        ) + "\nserver_name: "@ + c.server_name@ + "\nsetup_complete: "@ + bool_text(
            c.setup_complete,
        ) + "\nserver_path: "@ + c.server_path@ + "\njava_path: "@ + c.java_path@ + "\n"@,
    ensures
        text::contains(t, x),
{
    let lv = match c.loader_version {
        Some(v) => v@,
        None => "(none)"@,
    };
    let p8 = p7 + "\nloader_version: "@ + lv;
    let p9 = p8 + "\nram_mb: "@ + text::dec(c.ram_mb as nat);
    let p10 = p9 + "\nmax_players: "@ + text::dec(c.max_players as nat);
    let p11 = p10 + "\nserver_name: "@ + c.server_name@;
    let p12 = p11 + "\nsetup_complete: "@ + bool_text(c.setup_complete);
    let p13 = p12 + "\nserver_path: "@ + c.server_path@;
    let p14 = p13 + "\njava_path: "@ + c.java_path@;
    lemma_more(p7, "\nloader_version: "@, lv, x);
    lemma_more(p8, "\nram_mb: "@, text::dec(c.ram_mb as nat), x);
    lemma_more(p9, "\nmax_players: "@, text::dec(c.max_players as nat), x);
    lemma_more(p10, "\nserver_name: "@, c.server_name@, x);
    lemma_more(p11, "\nsetup_complete: "@, bool_text(c.setup_complete), x);
    lemma_more(p12, "\nserver_path: "@, c.server_path@, x);
    lemma_more(p13, "\njava_path: "@, c.java_path@, x);
    lemma_more(p14, "\n"@, seq![], x);
    assert(p14 + "\n"@ + Seq::<char>::empty() =~= t);
}

proof fn lemma_last(p: Seq<char>, x: Seq<char>)
    ensures
        text::contains(p + x, x),
{
    text_laws::law_contains_what_was_put_in(p, x, seq![]);
    assert(p + x + Seq::<char>::empty() =~= p + x);
}

proof fn lemma_more(p: Seq<char>, a: Seq<char>, b: Seq<char>, x: Seq<char>)
    ensures
        text::contains(p, x) ==> text::contains(p + a + b, x),
{
    if text::contains(p, x) {
        text_laws::law_contains_grows(seq![], p, a + b, x);
        assert(Seq::<char>::empty() + p + (a + b) =~= p + a + b);
    }
}

/// A report holds what is known of the program and the machine, the settings, the
/// newest five logs and all crash reports of the server, and of the tunnel only
/// what has no secret in it.
pub proof fn law_what_is_in_a_report(
    app_info: Seq<char>,
    system_info: Seq<char>,
    server: ServerFiles,
    tunnel: Option<Seq<char>>,
    k: int,
)
    ensures
        ({
            let r = report_entries(app_info, system_info, Some(server), tunnel);
            let logs = report_logs(server.logs@);
            &&& r[0] == ("app-info.txt"@, ContentView::Text(app_info))
            &&& r[1] == ("system-info.txt"@, ContentView::Text(system_info))
            &&& tunnel is Some ==> r.last() == (
                "playit.toml-redacted"@,
                ContentView::Text(redacted(tunnel->0)),
            )
            &&& server.properties is Some ==> r.contains(
                ("server.properties"@, ContentView::Text(server.properties->0@)),
            )
            &&& 0 <= k < server.crash_reports@.len() ==> r.contains(
                (
                    "crash-reports/"@ + server.crash_reports@[k]@,
                    ContentView::CrashReport(server.crash_reports@[k]@),
                ),
            )
            &&& 0 <= k < logs.len() ==> r.contains(
                ("logs/"@ + logs[k].0@, ContentView::Log(logs[k].0@)),
            )
            &&& logs.len() <= 5
        }),
{
    let r = report_entries(app_info, system_info, Some(server), tunnel);
    let logs = report_logs(server.logs@);
    let head = seq![
        ("app-info.txt"@, ContentView::Text(app_info)),
        ("system-info.txt"@, ContentView::Text(system_info)),
    ];
    let a = text_entry("server.properties"@, text::opt_view(server.properties));
    let b = text_entry("user_jvm_args.txt"@, text::opt_view(server.jvm_args));
    let c = log_entries(logs, logs.len() as int);
    let d = crash_entries(server.crash_reports@, server.crash_reports@.len() as int);
    let e = text_entry(
        "playit.toml-redacted"@,
        match tunnel {
            Some(t) => Some(redacted(t)),
            None => None,
        },
    );
    assert(r =~= head + a + b + c + d + e);
    assert(r[0] == head[0] && r[1] == head[1]);
    if server.properties is Some {
        assert(r[2] == a[0]);
    }
    if 0 <= k < logs.len() {
        lemma_log_entries(logs, logs.len() as int, k);
        let at = (head + a + b).len() + k;
        assert(r[at] == c[k]);
    }
    if 0 <= k < server.crash_reports@.len() {
        lemma_crash_entries(server.crash_reports@, server.crash_reports@.len() as int, k);
        let at = (head + a + b + c).len() + k;
        assert(r[at] == d[k]);
    }
    assert(REPORT_LOGS == 5);
}

proof fn lemma_log_entries(logs: Seq<(String, Option<FileStamp>)>, n: int, k: int)
    requires
        0 <= k < n <= logs.len(),
    ensures
        log_entries(logs, n).len() == n,
        log_entries(logs, n)[k] == ("logs/"@ + logs[k].0@, ContentView::Log(logs[k].0@)),
    decreases n,
{
    if n > 1 {
        lemma_log_entries(
            logs,
            n - 1,
            if k < n - 1 {
                k
            } else {
                0
            },
        );
    } else {
        assert(log_entries(logs, 0).len() == 0);
    }
}

proof fn lemma_crash_entries(names: Seq<String>, n: int, k: int)
    requires
        0 <= k < n <= names.len(),
    ensures
        crash_entries(names, n).len() == n,
        crash_entries(names, n)[k] == (
            "crash-reports/"@ + names[k]@,
            ContentView::CrashReport(names[k]@),
        ),
    decreases n,
{
    if n > 1 {
        lemma_crash_entries(
            names,
            n - 1,
            if k < n - 1 {
                k
            } else {
                0
            },
        );
    } else {
        assert(crash_entries(names, 0).len() == 0);
    }
}

/// Of two logs the one that was changed later stands first, and one whose time is
/// not known last; sizes are told in whole mebibytes.
pub proof fn law_times_and_sizes(x: FileStamp, y: FileStamp, n: u64)
    ensures
        not_after(None, Some(x)),
        !not_after(Some(x), None),
        x.secs < y.secs ==> not_after(Some(x), Some(y)) && !not_after(Some(y), Some(x)),
        x.secs == y.secs && x.nanos < y.nanos ==> not_after(Some(x), Some(y)) && !not_after(
            Some(y),
            Some(x),
        ),
        not_after(Some(x), Some(x)),
        megabytes(n) * 1048576 <= n,
        n < (megabytes(n) + 1) * 1048576,
{
    let m = n / 1024 / 1024;
    assert(m * 1048576 <= n && n < (m + 1) * 1048576) by (nonlinear_arith)
        requires
            m == n / 1024 / 1024,
    ;
}

/// The name of a report is `debug-report-`, the day and `.zip`.
pub proof fn law_report_names(day: Seq<char>)
    ensures
        text::starts_with(report_name(day), "debug-report-"@),
        text::ends_with(report_name(day), day + ".zip"@),
{
    let p = "debug-report-"@;
    text_laws::law_ends(p, day + ".zip"@);
    assert(p + (day + ".zip"@) =~= report_name(day));
}

} // verus!
