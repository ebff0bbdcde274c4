//! Trying out whether a staged server build boots: what stops a trial before it
//! starts, what the server's output means, what is left behind, and what is
//! kept of a failure. Starting the process and touching files is the caller's.
//!
//! Times are in milliseconds.
use vstd::prelude::*;

use std::collections::VecDeque;

use crate::server_properties;
use crate::server_properties::key_and_value;
use crate::sorting;
use crate::text;
use crate::text::{
    dec_signed_string, debug_str, has_prefix, has_sub, has_suffix, join, join_path, json_str,
    split_lines, str_eq, to_chars,
};
use crate::text_laws;

verus! {

/// How long a trial may take, if nothing else is said.
pub const DEFAULT_TIMEOUT: u64 = 300_000;

/// How long the server may take to stop.
pub const GRACEFUL_SHUTDOWN_TIMEOUT: u64 = 30_000;

/// How long one read of the output may take.
pub const READ_TIMEOUT: u64 = 2_000;

/// How many bytes of output are kept.
pub const OUTPUT_CAP_BYTES: usize = 262_144;

/// How often a free port is looked for.
pub const PORT_RETRY_ATTEMPTS: u32 = 5;

/// How many lines of output are kept of a failure.
pub const DIAGNOSTIC_LINES: usize = 200;

/// How many crash reports are kept of a failure.
pub const DIAGNOSTIC_REPORTS: usize = 5;

/// How a trial ended.
#[derive(Debug, Clone)]
pub enum BootResult {
    Success(BootSuccess),
    Failed(BootFailure),
    Timeout(BootTimeout),
}

/// The server booted.
#[derive(Debug, Clone)]
pub struct BootSuccess {
    /// How long it took.
    pub elapsed: u64,
    /// Whether it stopped when it was told to.
    pub graceful_shutdown: bool,
    pub log_tail: String,
}

/// The server did not boot.
#[derive(Debug, Clone)]
pub struct BootFailure {
    pub exit_code: Option<i32>,
    pub reason: BootFailureReason,
    pub log_tail: String,
}

/// The server took too long.
#[derive(Debug, Clone)]
pub struct BootTimeout {
    pub waited: u64,
    pub log_tail: String,
}

/// Why the server did not boot.
#[derive(Debug, Clone, PartialEq, Eq)]
pub enum BootFailureReason {
    ProcessExited,
    JavaNotFound,
    LaunchFailure,
    EulaNotAccepted,
    OutOfMemory,
    PortUnavailable,
    ReadyThenStopFailed,
    WrongJavaVersion,
    Unknown(String),
}

/// How to start a server.
#[derive(Debug, Clone)]
pub struct LaunchSpec {
    pub executable: String,
    pub args: Vec<String>,
    /// Variables to set.
    pub env: Vec<(String, String)>,
    /// Variables to remove.
    pub env_remove: Vec<String>,
}

/// A command line that starts a server.
#[derive(Debug, Clone)]
pub struct LaunchCommand {
    pub executable: String,
    pub args: Vec<String>,
    pub env_set: Vec<(String, String)>,
    pub env_remove: Vec<String>,
}

/// The text of a [`BootFailureReason`].
pub enum ReasonView {
    ProcessExited,
    JavaNotFound,
    LaunchFailure,
    EulaNotAccepted,
    OutOfMemory,
    PortUnavailable,
    ReadyThenStopFailed,
    WrongJavaVersion,
    Unknown(Seq<char>),
}

/// The text of a [`BootFailure`].
pub struct FailureView {
    pub exit_code: Option<i32>,
    pub reason: ReasonView,
    pub log_tail: Seq<char>,
}

/// The text of a [`BootResult`].
pub enum ResultView {
    Success { elapsed: u64, graceful_shutdown: bool, log_tail: Seq<char> },
    Failed(FailureView),
    Timeout { waited: u64, log_tail: Seq<char> },
}

impl View for BootFailureReason {
    type V = ReasonView;

    open spec fn view(&self) -> ReasonView {
        match *self {
            BootFailureReason::ProcessExited => ReasonView::ProcessExited,
            BootFailureReason::JavaNotFound => ReasonView::JavaNotFound,
            BootFailureReason::LaunchFailure => ReasonView::LaunchFailure,
            BootFailureReason::EulaNotAccepted => ReasonView::EulaNotAccepted,
            BootFailureReason::OutOfMemory => ReasonView::OutOfMemory,
            BootFailureReason::PortUnavailable => ReasonView::PortUnavailable,
            BootFailureReason::ReadyThenStopFailed => ReasonView::ReadyThenStopFailed,
            BootFailureReason::WrongJavaVersion => ReasonView::WrongJavaVersion,
            BootFailureReason::Unknown(s) => ReasonView::Unknown(s@),
        }
    }
}

impl View for BootFailure {
    type V = FailureView;

    open spec fn view(&self) -> FailureView {
        FailureView {
            exit_code: self.exit_code,
            reason: self.reason@,
            log_tail: self.log_tail@,
        }
    }
}

impl View for BootResult {
    type V = ResultView;

    open spec fn view(&self) -> ResultView {
        match *self {
            BootResult::Success(s) => ResultView::Success {
                elapsed: s.elapsed,
                graceful_shutdown: s.graceful_shutdown,
                log_tail: s.log_tail@,
            },
            BootResult::Failed(f) => ResultView::Failed(f@),
            BootResult::Timeout(t) => ResultView::Timeout {
                waited: t.waited,
                log_tail: t.log_tail@,
            },
        }
    }
}

/// A failure without an exit code.
pub open spec fn failed(reason: ReasonView, log_tail: Seq<char>) -> FailureView {
    FailureView { exit_code: None, reason, log_tail }
}

/// The sentence for a reason.
pub open spec fn reason_text(r: ReasonView) -> Seq<char> {
    match r {
        ReasonView::ProcessExited => "Server process exited before reaching ready state"@,
        ReasonView::JavaNotFound => "Java executable not found"@,
        ReasonView::LaunchFailure => "Failed to launch server process"@,
        ReasonView::EulaNotAccepted => "Minecraft EULA has not been accepted"@,
        ReasonView::OutOfMemory => "Server ran out of memory during startup"@,
        ReasonView::PortUnavailable => "Could not bind a validation port"@,
        ReasonView::ReadyThenStopFailed =>
            "Server reached ready state but failed to shut down cleanly"@,
        ReasonView::WrongJavaVersion => "Wrong Java version for this server"@,
        ReasonView::Unknown(msg) => "Unknown failure: "@ + msg,
    }
}

/// What `Debug` formatting writes for a reason.
pub open spec fn reason_name(r: ReasonView) -> Seq<char> {
    match r {
        ReasonView::ProcessExited => "ProcessExited"@,
        ReasonView::JavaNotFound => "JavaNotFound"@,
        ReasonView::LaunchFailure => "LaunchFailure"@,
        ReasonView::EulaNotAccepted => "EulaNotAccepted"@,
        ReasonView::OutOfMemory => "OutOfMemory"@,
        ReasonView::PortUnavailable => "PortUnavailable"@,
        ReasonView::ReadyThenStopFailed => "ReadyThenStopFailed"@,
        ReasonView::WrongJavaVersion => "WrongJavaVersion"@,
        ReasonView::Unknown(msg) => "Unknown("@ + text::debug_quoted(msg) + ")"@,
    }
}

impl BootFailureReason {
    /// The sentence for a reason.
    pub fn message(&self) -> (r: String)
        ensures
            r@ == reason_text(self@),
    {
        match self {
            BootFailureReason::ProcessExited =>
                "Server process exited before reaching ready state".to_string(),
            BootFailureReason::JavaNotFound => "Java executable not found".to_string(),
            BootFailureReason::LaunchFailure => "Failed to launch server process".to_string(),
            BootFailureReason::EulaNotAccepted =>
                "Minecraft EULA has not been accepted".to_string(),
            BootFailureReason::OutOfMemory =>
                "Server ran out of memory during startup".to_string(),
            BootFailureReason::PortUnavailable => "Could not bind a validation port".to_string(),
            BootFailureReason::ReadyThenStopFailed =>
                "Server reached ready state but failed to shut down cleanly".to_string(),
            BootFailureReason::WrongJavaVersion =>
                "Wrong Java version for this server".to_string(),
            BootFailureReason::Unknown(msg) => {
                let mut s = String::from_str("Unknown failure: ");
                s.append(msg.as_str());
                s
            },
        }
    }

    /// The name of a reason.
    pub fn name(&self) -> (r: String)
        ensures
            r@ == reason_name(self@),
    {
        match self {
            BootFailureReason::ProcessExited => "ProcessExited".to_string(),
            BootFailureReason::JavaNotFound => "JavaNotFound".to_string(),
            BootFailureReason::LaunchFailure => "LaunchFailure".to_string(),
            BootFailureReason::EulaNotAccepted => "EulaNotAccepted".to_string(),
            BootFailureReason::OutOfMemory => "OutOfMemory".to_string(),
            BootFailureReason::PortUnavailable => "PortUnavailable".to_string(),
            BootFailureReason::ReadyThenStopFailed => "ReadyThenStopFailed".to_string(),
            BootFailureReason::WrongJavaVersion => "WrongJavaVersion".to_string(),
            BootFailureReason::Unknown(msg) => {
                let mut s = String::from_str("Unknown(");
                s.append(debug_str(msg.as_str()).as_str());
                s.append(")");
                s
            },
        }
    }
}

// ---------------------------------------------------------------------
// The output that is kept
// ---------------------------------------------------------------------

/// How many bytes lines take, each with a line feed.
pub open spec fn lines_size(lines: Seq<Seq<char>>) -> nat
    decreases lines.len(),
{
    if lines.len() == 0 {
        0
    } else {
        lines_size(lines.drop_last()) + vstd::utf8::encode_utf8(lines.last()).len() + 1
    }
}

/// Lines without the oldest ones, as many as must go for the rest to fit; the
/// last one always stays.
pub open spec fn evicted(lines: Seq<Seq<char>>, cap: nat) -> Seq<Seq<char>>
    decreases lines.len(),
{
    if lines.len() > 1 && lines_size(lines) > cap {
        evicted(lines.drop_first(), cap)
    } else {
        lines
    }
}

proof fn lemma_size_front(lines: Seq<Seq<char>>)
    requires
        lines.len() > 0,
    ensures
        lines_size(lines) == vstd::utf8::encode_utf8(lines[0]).len() + 1 + lines_size(
            lines.drop_first(),
        ),
    decreases lines.len(),
{
    if lines.len() > 1 {
        lemma_size_front(lines.drop_last());
        assert(lines.drop_last().drop_first() =~= lines.drop_first().drop_last());
        assert(lines.drop_first().last() == lines.last());
    } else {
        assert(lines.drop_last() =~= seq![]);
        assert(lines.drop_first() =~= seq![]);
    }
}

/// Whether each of the lines fits in a string.
pub open spec fn fit_in_strings(lines: Seq<Seq<char>>) -> bool {
    forall|k: int|
        0 <= k < lines.len() ==> vstd::utf8::encode_utf8(#[trigger] lines[k]).len() <= usize::MAX
}

proof fn lemma_size_bound(lines: Seq<Seq<char>>)
    requires
        fit_in_strings(lines),
        lines.len() <= usize::MAX,
    ensures
        lines_size(lines) <= lines.len() * (usize::MAX + 1),
        lines_size(lines) <= u128::MAX,
    decreases lines.len(),
{
    let n = lines.len() as int;
    if n > 0 {
        lemma_size_bound(lines.drop_last());
        assert(n * (usize::MAX + 1) == (n - 1) * (usize::MAX + 1) + (usize::MAX + 1))
            by (nonlinear_arith);
    }
    assert(n * (usize::MAX + 1) <= u64::MAX * (u64::MAX + 1)) by (nonlinear_arith)
        requires
            0 <= n <= usize::MAX,
            usize::MAX <= u64::MAX,
    ;
}

/// The last lines of the output, up to a number of bytes.
pub struct CappedLog {
    pub lines: VecDeque<String>,
    pub total_bytes: u128,
    pub cap: usize,
}

impl View for CappedLog {
    type V = Seq<Seq<char>>;

    open spec fn view(&self) -> Seq<Seq<char>> {
        text::views(self.lines@)
    }
}

impl CappedLog {
    /// The count of bytes is right, and no line is longer than a string can be.
    pub open spec fn valid(self) -> bool {
        self.total_bytes == lines_size(self@) && fit_in_strings(self@)
    }

    /// No lines yet.
    pub fn new(cap: usize) -> (r: Self)
        ensures
            r.valid(),
            r.cap == cap,
            r@ == Seq::<Seq<char>>::empty(),
    {
        let lines: VecDeque<String> = VecDeque::new();
        assert(text::views(lines@) =~= seq![]);
        CappedLog { lines, total_bytes: 0, cap }
    }

    /// Adds a line, and lets the oldest go while there are too many bytes.
    pub fn push_line(&mut self, line: &str)
        requires
            old(self).valid(),
        ensures
            final(self).valid(),
            final(self).cap == old(self).cap,
            final(self)@ == evicted(old(self)@.push(line@), old(self).cap as nat),
    {
        let ghost before = self.lines@;
        let ghost all = self@.push(line@);
        let size: usize = line.as_bytes().len();
        self.lines.push_back(line.to_string());
        proof {
            assert(text::views(self.lines@) =~= all);
            assert(all.drop_last() =~= text::views(before));
            assert(self.lines.len() == all.len());
            lemma_size_bound(all);
        }
        self.total_bytes = self.total_bytes + size as u128 + 1;
        while self.total_bytes > self.cap as u128 && self.lines.len() > 1
            invariant
                self.valid(),
                self.cap == old(self).cap,
                evicted(self@, self.cap as nat) == evicted(all, old(self).cap as nat),
            decreases self.lines@.len(),
        {
            let ghost now = self.lines@;
            let ghost v = self@;
            proof {
                lemma_size_front(v);
                assert(v[0] == now[0]@);
            }
            match self.lines.pop_front() {
                Some(oldest) => {
                    let gone: usize = oldest.as_str().as_bytes().len();
                    self.total_bytes = self.total_bytes - (gone as u128 + 1);
                },
                None => {},
            }
            assert(text::views(self.lines@) =~= v.drop_first());
        }
        assert(self@.len() == self.lines@.len());
    }

    /// The lines as one text.
    pub fn to_string(&self) -> (r: String)
        ensures
            r@ == text::joined(self@, "\n"@),
    {
        let mut list: Vec<String> = Vec::new();
        let mut i: usize = 0;
        while i < self.lines.len()
            invariant
                i <= self.lines@.len(),
                list@ == self.lines@.take(i as int),
            decreases self.lines@.len() - i,
        {
            list.push(self.lines[i].clone());
            assert(self.lines@.take(i as int + 1) =~= self.lines@.take(i as int).push(
                self.lines@[i as int],
            ));
            i = i + 1;
        }
        assert(list@ =~= self.lines@);
        join(&list, "\n")
    }
}

/// What is kept are the last lines, in order, with the newest among them; they
/// fit, unless the newest alone is too long.
pub proof fn law_log_keeps_the_newest(lines: Seq<Seq<char>>, cap: nat)
    requires
        lines.len() > 0,
    ensures
        ({
            let kept = evicted(lines, cap);
            &&& 1 <= kept.len() <= lines.len()
            &&& kept == lines.skip(lines.len() - kept.len())
            &&& kept.last() == lines.last()
            &&& kept.len() > 1 ==> lines_size(kept) <= cap
        }),
    decreases lines.len(),
{
    if lines.len() > 1 && lines_size(lines) > cap {
        law_log_keeps_the_newest(lines.drop_first(), cap);
        let kept = evicted(lines, cap);
        let rest = lines.drop_first();
        assert(rest.skip(rest.len() - kept.len()) =~= lines.skip(lines.len() - kept.len()));
    } else {
        assert(lines.skip(0) =~= lines);
    }
}

/// What a log holds after lines were pushed one by one.
pub open spec fn after_pushes(lines: Seq<Seq<char>>, cap: nat) -> Seq<Seq<char>>
    decreases lines.len(),
{
    if lines.len() == 0 {
        seq![]
    } else {
        evicted(after_pushes(lines.drop_last(), cap).push(lines.last()), cap)
    }
}

/// What goes before a line is pushed would go afterwards too.
proof fn lemma_evicted_early(lines: Seq<Seq<char>>, line: Seq<char>, cap: nat)
    ensures
        evicted(evicted(lines, cap).push(line), cap) == evicted(lines.push(line), cap),
    decreases lines.len(),
{
    if lines.len() > 1 && lines_size(lines) > cap {
        lemma_evicted_early(lines.drop_first(), line, cap);
        assert(lines.push(line).drop_last() =~= lines);
        assert(lines.push(line).drop_first() =~= lines.drop_first().push(line));
    }
}

/// Every longer end of the lines than the one that is kept is too long.
proof fn lemma_longer_is_too_long(lines: Seq<Seq<char>>, cap: nat, j: int)
    requires
        0 <= j < lines.len() - evicted(lines, cap).len(),
    ensures
        lines_size(lines.skip(j)) > cap,
    decreases lines.len(),
{
    if lines.len() > 1 && lines_size(lines) > cap {
        if j == 0 {
            assert(lines.skip(0) =~= lines);
        } else {
            lemma_longer_is_too_long(lines.drop_first(), cap, j - 1);
            assert(lines.drop_first().skip(j - 1) =~= lines.skip(j));
        }
    }
}

/// After any run of pushes a log holds the longest end of all the lines that
/// fits, and the newest line alone where not even that fits.
pub proof fn law_log_is_the_longest_end(lines: Seq<Seq<char>>, cap: nat)
    requires
        lines.len() > 0,
    ensures
        ({
            let kept = after_pushes(lines, cap);
            &&& 1 <= kept.len() <= lines.len()
            &&& kept == lines.skip(lines.len() - kept.len())
            &&& kept.len() > 1 ==> lines_size(kept) <= cap
            &&& forall|j: int|
                0 <= j < lines.len() - kept.len() ==> #[trigger] lines_size(lines.skip(j)) > cap
        }),
{
    assert(after_pushes(lines, cap) == evicted(lines, cap)) by {
        lemma_after_pushes(lines, cap);
    }
    law_log_keeps_the_newest(lines, cap);
    assert forall|j: int| 0 <= j < lines.len() - evicted(lines, cap).len() implies
        #[trigger] lines_size(lines.skip(j)) > cap by {
        lemma_longer_is_too_long(lines, cap, j);
    }
}

/// Pushing lines one by one comes to the same as letting the oldest go at the
/// end.
proof fn lemma_after_pushes(lines: Seq<Seq<char>>, cap: nat)
    ensures
        after_pushes(lines, cap) == evicted(lines, cap),
    decreases lines.len(),
{
    if lines.len() > 0 {
        lemma_after_pushes(lines.drop_last(), cap);
        lemma_evicted_early(lines.drop_last(), lines.last(), cap);
        assert(lines.drop_last().push(lines.last()) =~= lines);
    } else {
        assert(lines =~= seq![]);
    }
}

// ---------------------------------------------------------------------
// What a line of output means
// ---------------------------------------------------------------------

/// Whether a line says that the server is ready.
pub open spec fn tells_ready(line: Seq<char>) -> bool {
    text::contains(line, "Done"@) && (text::contains(line, "For help"@) || text::contains(
        line,
        "type \"help\""@,
    ))
}

/// Whether a line says that memory ran out.
pub open spec fn tells_oom(line: Seq<char>) -> bool {
    text::contains(line, "java.lang.OutOfMemoryError"@)
}

/// Whether a line says that the server is ready.
pub fn is_ready_signal(line: &str) -> (r: bool)
    ensures
        r == tells_ready(line@),
{
    let l = to_chars(line);
    has_sub(&l, "Done") && (has_sub(&l, "For help") || has_sub(&l, "type \"help\""))
}

/// Whether a line says that memory ran out.
pub fn is_oom_line(line: &str) -> (r: bool)
    ensures
        r == tells_oom(line@),
{
    let l = to_chars(line);
    has_sub(&l, "java.lang.OutOfMemoryError")
}

// ---------------------------------------------------------------------
// Before the process starts
// ---------------------------------------------------------------------

/// How long a trial may take.
#[derive(Debug, Clone)]
pub struct BootValidator {
    pub timeout: u64,
}

/// Whether a file `eula.txt` accepts the licence.
pub open spec fn accepts_eula(eula: Option<Seq<char>>) -> bool {
    eula is Some && text::contains(eula->0, "eula=true"@)
}

/// The name of the world for a trial.
pub open spec fn trial_world(tag: Seq<char>) -> Seq<char> {
    ".lbby-validation-world-"@ + tag
}

impl BootValidator {
    /// Trials of the usual length.
    pub fn new() -> (r: Self)
        ensures
            r.timeout == DEFAULT_TIMEOUT,
    {
        BootValidator { timeout: DEFAULT_TIMEOUT }
    }

    /// Trials of a given length.
    pub fn with_timeout(timeout: u64) -> (r: Self)
        ensures
            r.timeout == timeout,
    {
        BootValidator { timeout }
    }

    /// Whether a trial can start, and at which port: the licence must be
    /// accepted in the build's own file, and a port must be free.
    pub fn preflight(&self, eula: Option<&str>, port: Option<u16>) -> (r: Result<u16, BootResult>)
        ensures
            ({
                let e = text::str_view(eula);
                &&& r is Ok <==> accepts_eula(e) && port is Some
                &&& r is Ok ==> r->Ok_0 == port->0
                &&& r is Err ==> r->Err_0@ == ResultView::Failed(
                    failed(
                        if accepts_eula(e) {
                            ReasonView::PortUnavailable
                        } else {
                            ReasonView::EulaNotAccepted
                        },
                        seq![],
                    ),
                )
            }),
    {
        let accepted = match eula {
            Some(content) => {
                let c = to_chars(content);
                has_sub(&c, "eula=true")
            },
            None => false,
        };
        if !accepted {
            return Err(early_failure(BootFailureReason::EulaNotAccepted, String::new()));
        }
        match port {
            Some(p) => Ok(p),
            None => Err(early_failure(BootFailureReason::PortUnavailable, String::new())),
        }
    }

    /// The name of the world for a trial.
    pub fn world_name(&self, tag: &str) -> (r: String)
        ensures
            r@ == trial_world(tag@),
    {
        let mut s = String::from_str(".lbby-validation-world-");
        s.append(tag);
        s
    }

    /// The settings for the trial could not be written.
    pub fn overlay_failed(&self, error: &str) -> (r: BootResult)
        ensures
            r@ == ResultView::Failed(
                failed(
                    ReasonView::Unknown(
                        "Failed to write validation server.properties: "@ + error@,
                    ),
                    seq![],
                ),
            ),
    {
        let mut why = String::from_str("Failed to write validation server.properties: ");
        why.append(error);
        early_failure(BootFailureReason::Unknown(why), String::new())
    }

    /// There is no way to start the server.
    pub fn launch_spec_failed(&self, error: String) -> (r: BootResult)
        ensures
            r@ == ResultView::Failed(failed(ReasonView::JavaNotFound, error@)),
    {
        early_failure(BootFailureReason::JavaNotFound, error)
    }

    /// The process could not be started.
    pub fn spawn_failed(&self, error: &str) -> (r: BootResult)
        ensures
            r@ == ResultView::Failed(
                failed(ReasonView::LaunchFailure, "Failed to spawn process: "@ + error@),
            ),
    {
        let mut why = String::from_str("Failed to spawn process: ");
        why.append(error);
        early_failure(BootFailureReason::LaunchFailure, why)
    }

    /// The result after the clean-up: a build that booted but could not be
    /// cleaned up has failed. The clean-up after a failure changes nothing.
    pub fn after_cleanup(&self, result: BootResult, cleanup: Result<(), String>) -> (r: BootResult)
        ensures
            r@ == (if result is Success && cleanup is Err {
                ResultView::Failed(
                    failed(
                        ReasonView::Unknown(
                            "Post-validation cleanup failed: "@ + cleanup->Err_0@,
                        ),
                        seq![],
                    ),
                )
            } else {
                result@
            }),
    {
        match (&result, cleanup) {
            (BootResult::Success(_), Err(e)) => {
                let mut why = String::from_str("Post-validation cleanup failed: ");
                why.append(e.as_str());
                early_failure(BootFailureReason::Unknown(why), String::new())
            },
            _ => result,
        }
    }
}

fn early_failure(reason: BootFailureReason, log_tail: String) -> (r: BootResult)
    ensures
        r@ == ResultView::Failed(failed(reason@, log_tail@)),
{
    BootResult::Failed(BootFailure { exit_code: None, reason, log_tail })
}

/// What went wrong in a clean-up: the removal of the world, the restoring of
/// the properties, or both.
pub fn cleanup_outcome(world: Result<(), String>, properties: Result<(), String>) -> (r: Result<
    (),
    String,
>)
    ensures
        r is Ok <==> world is Ok && properties is Ok,
        r is Err ==> r->Err_0@ == (if properties is Ok {
            "world cleanup: "@ + world->Err_0@
        } else if world is Ok {
            "properties restore: "@ + properties->Err_0@
        } else {
            "world cleanup: "@ + world->Err_0@ + "; properties restore: "@ + properties->Err_0@
        }),
{
    match (world, properties) {
        (Ok(()), Ok(())) => Ok(()),
        (Err(e), Ok(())) => {
            let mut s = String::from_str("world cleanup: ");
            s.append(e.as_str());
            Err(s)
        },
        (Ok(()), Err(e)) => {
            let mut s = String::from_str("properties restore: ");
            s.append(e.as_str());
            Err(s)
        },
        (Err(e1), Err(e2)) => {
            let mut s = String::from_str("world cleanup: ");
            s.append(e1.as_str());
            s.append("; properties restore: ");
            s.append(e2.as_str());
            Err(s)
        },
    }
}

/// How to start a server, from the command line that was made with the Java
/// that was found; none where no Java was.
pub fn build_launch_spec(required_major: u32, command: Option<Result<LaunchCommand, String>>) -> (r:
    Result<LaunchSpec, String>)
    ensures
        r is Ok <==> command is Some && command->0 is Ok,
        r is Ok ==> ({
            let c = command->0->Ok_0;
            let s = r->Ok_0;
            s.executable == c.executable && s.args == c.args && s.env == c.env_set && s.env_remove
                == c.env_remove
        }),
        r is Err ==> r->Err_0@ == (match command {
            None => "Java "@ + text::dec(required_major as nat) + " not found"@,
            Some(c) => c->Err_0@,
        }),
{
    match command {
        None => {
            let mut s = String::from_str("Java ");
            s.append(text::dec_string(required_major as u64).as_str());
            s.append(" not found");
            Err(s)
        },
        Some(Err(e)) => Err(e),
        Some(Ok(c)) => Ok(
            LaunchSpec {
                executable: c.executable,
                args: c.args,
                env: c.env_set,
                env_remove: c.env_remove,
            },
        ),
    }
}

// ---------------------------------------------------------------------
// While the process runs
// ---------------------------------------------------------------------

/// What came from the process.
#[derive(Debug, Clone)]
pub enum OutputEvent {
    /// A line of output.
    Line(String),
    /// The output ended; the process is gone.
    Closed { exit_code: Option<i32> },
    /// The output could not be read.
    ReadError(String),
    /// Nothing came, and the process is gone.
    Exited { exit_code: Option<i32> },
    /// Nothing came, and the process runs.
    StillRunning,
    /// Nothing came, and the process cannot be asked.
    WaitError(String),
}

/// What to do next.
#[derive(Debug, Clone)]
pub enum WatchStep {
    /// Read on.
    Continue,
    /// The server is ready: stop it.
    Ready,
    /// It is over; the process is killed where it may still run.
    Finished { kill: bool, result: BootResult },
}

/// How long to wait for output, or that it is over.
#[derive(Debug, Clone)]
pub enum ReadStep {
    Read { wait: u64 },
    /// The process is killed.
    TimedOut(BootResult),
}

/// What an event means.
pub enum StepView {
    Continue,
    Ready,
    Finished(bool, ResultView),
}

impl View for WatchStep {
    type V = StepView;

    open spec fn view(&self) -> StepView {
        match *self {
            WatchStep::Continue => StepView::Continue,
            WatchStep::Ready => StepView::Ready,
            WatchStep::Finished { kill, result } => StepView::Finished(kill, result@),
        }
    }
}

/// The log after an event.
pub open spec fn log_after(log: Seq<Seq<char>>, cap: nat, event: OutputEvent) -> Seq<Seq<char>> {
    match event {
        OutputEvent::Line(l) => evicted(log.push(l@), cap),
        _ => log,
    }
}

/// What an event means, given the log after it.
pub open spec fn meaning(event: OutputEvent, log: Seq<Seq<char>>) -> StepView {
    let tail = text::joined(log, "\n"@);
    match event {
        OutputEvent::Line(l) => if tells_ready(l@) {
            StepView::Ready
        } else if tells_oom(l@) {
            StepView::Finished(true, ResultView::Failed(failed(ReasonView::OutOfMemory, tail)))
        } else {
            StepView::Continue
        },
        OutputEvent::Closed { exit_code } => StepView::Finished(
            false,
            ResultView::Failed(
                FailureView { exit_code, reason: ReasonView::ProcessExited, log_tail: tail },
            ),
        ),
        OutputEvent::Exited { exit_code } => StepView::Finished(
            false,
            ResultView::Failed(
                FailureView { exit_code, reason: ReasonView::ProcessExited, log_tail: tail },
            ),
        ),
        OutputEvent::ReadError(e) => StepView::Finished(
            true,
            ResultView::Failed(failed(ReasonView::Unknown("stdout read error: "@ + e@), tail)),
        ),
        OutputEvent::StillRunning => StepView::Continue,
        OutputEvent::WaitError(e) => StepView::Finished(
            true,
            ResultView::Failed(failed(ReasonView::Unknown("try_wait error: "@ + e@), tail)),
        ),
    }
}

/// The watch over a process that was started: its output, and how long it may
/// take.
pub struct BootWatch {
    pub timeout: u64,
    pub log: CappedLog,
}

impl BootWatch {
    /// The log is in order.
    pub open spec fn valid(self) -> bool {
        self.log.valid() && self.log.cap == OUTPUT_CAP_BYTES
    }

    /// The watch begins.
    pub fn new(validator: &BootValidator) -> (r: Self)
        ensures
            r.valid(),
            r.timeout == validator.timeout,
            r.log@ == Seq::<Seq<char>>::empty(),
    {
        BootWatch { timeout: validator.timeout, log: CappedLog::new(OUTPUT_CAP_BYTES) }
    }

    /// How long to wait for output: what is left, but not more than two
    /// seconds. When the time is over, the trial is.
    pub fn next_read(&self, elapsed: u64) -> (r: ReadStep)
        ensures
            r is TimedOut <==> elapsed >= self.timeout,
            r is TimedOut ==> r->TimedOut_0@ == (ResultView::Timeout {
                waited: elapsed,
                log_tail: text::joined(self.log@, "\n"@),
            }),
            r is Read ==> r->wait == (if self.timeout - elapsed < READ_TIMEOUT {
                self.timeout - elapsed
            } else {
                READ_TIMEOUT as int
            }),
    {
        if elapsed >= self.timeout {
            return ReadStep::TimedOut(
                BootResult::Timeout(
                    BootTimeout { waited: elapsed, log_tail: self.log.to_string() },
                ),
            );
        }
        let left = self.timeout - elapsed;
        ReadStep::Read {
            wait: if left < READ_TIMEOUT {
                left
            } else {
                READ_TIMEOUT
            },
        }
    }

    /// Acts on what came from the process.
    pub fn on_event(&mut self, event: &OutputEvent) -> (r: WatchStep)
        requires
            old(self).valid(),
        ensures
            final(self).valid(),
            final(self).timeout == old(self).timeout,
            final(self).log@ == log_after(old(self).log@, OUTPUT_CAP_BYTES as nat, *event),
            r@ == meaning(*event, final(self).log@),
    {
        match event {
            OutputEvent::Line(line) => {
                self.log.push_line(line.as_str());
                if is_ready_signal(line.as_str()) {
                    return WatchStep::Ready;
                }
                if is_oom_line(line.as_str()) {
                    return WatchStep::Finished {
                        kill: true,
                        result: early_failure(
                            BootFailureReason::OutOfMemory,
                            self.log.to_string(),
                        ),
                    };
                }
                WatchStep::Continue
            },
            OutputEvent::Closed { exit_code } => WatchStep::Finished {
                kill: false,
                result: self.exited(*exit_code),
            },
            OutputEvent::Exited { exit_code } => WatchStep::Finished {
                kill: false,
                result: self.exited(*exit_code),
            },
            OutputEvent::ReadError(e) => {
                let mut why = String::from_str("stdout read error: ");
                why.append(e.as_str());
                WatchStep::Finished {
                    kill: true,
                    result: early_failure(
                        BootFailureReason::Unknown(why),
                        self.log.to_string(),
                    ),
                }
            },
            OutputEvent::StillRunning => WatchStep::Continue,
            OutputEvent::WaitError(e) => {
                let mut why = String::from_str("try_wait error: ");
                why.append(e.as_str());
                WatchStep::Finished {
                    kill: true,
                    result: early_failure(
                        BootFailureReason::Unknown(why),
                        self.log.to_string(),
                    ),
                }
            },
        }
    }

    /// The process is gone before it was ready.
    pub fn exited(&self, exit_code: Option<i32>) -> (r: BootResult)
        ensures
            r@ == ResultView::Failed(
                FailureView {
                    exit_code,
                    reason: ReasonView::ProcessExited,
                    log_tail: text::joined(self.log@, "\n"@),
                },
            ),
    {
        BootResult::Failed(
            BootFailure {
                exit_code,
                reason: BootFailureReason::ProcessExited,
                log_tail: self.log.to_string(),
            },
        )
    }

    /// The server was ready and has stopped.
    pub fn succeeded(&self, elapsed: u64, graceful_shutdown: bool) -> (r: BootResult)
        ensures
            r@ == (ResultView::Success {
                elapsed,
                graceful_shutdown,
                log_tail: text::joined(self.log@, "\n"@),
            }),
    {
        BootResult::Success(
            BootSuccess { elapsed, graceful_shutdown, log_tail: self.log.to_string() },
        )
    }
}

/// A trial goes on to success only on a line that says that the server is
/// ready; whatever else ends it is a failure. A process that may still run is
/// killed.
pub proof fn law_only_the_ready_line_succeeds(event: OutputEvent, log: Seq<Seq<char>>)
    ensures
        meaning(event, log) is Ready <==> (event is Line && tells_ready(event->Line_0@)),
        meaning(event, log) matches StepView::Finished(kill, result) ==> result is Failed && kill
            == !(event is Closed || event is Exited),
{
}

// ---------------------------------------------------------------------
// What is left behind
// ---------------------------------------------------------------------

/// Whether a name is that of a world for a trial.
pub open spec fn is_trial_world(name: Seq<char>) -> bool {
    text::starts_with(name, ".lbby-validation-world-"@)
}

/// Whether a name is that of a world for a trial. These directories, and no
/// others, are removed after it.
pub fn is_validation_world(name: &str) -> (r: bool)
    ensures
        r == is_trial_world(name@),
{
    let n = to_chars(name);
    has_prefix(&n, ".lbby-validation-world-")
}

/// The directories that the clean-up removes, among the first `n` entries. Each
/// entry is a name and whether it is a directory.
pub open spec fn doomed_below(entries: Seq<(String, bool)>, n: int) -> Seq<Seq<char>>
    decreases n,
{
    if n <= 0 {
        seq![]
    } else if entries[n - 1].1 && is_trial_world(entries[n - 1].0@) {
        doomed_below(entries, n - 1).push(entries[n - 1].0@)
    } else {
        doomed_below(entries, n - 1)
    }
}

/// The directories that the clean-up removes.
pub fn cleanup_validation_world(entries: &[(String, bool)]) -> (r: Vec<String>)
    ensures
        text::views(r@) == doomed_below(entries@, entries@.len() as int),
{
    let mut out: Vec<String> = Vec::new();
    assert(text::views(out@) =~= seq![]);
    let mut i: usize = 0;
    while i < entries.len()
        invariant
            i <= entries.len(),
            text::views(out@) == doomed_below(entries@, i as int),
        decreases entries.len() - i,
    {
        if entries[i].1 && is_validation_world(entries[i].0.as_str()) {
            let ghost before = out@;
            out.push(entries[i].0.clone());
            assert(text::views(out@) =~= text::views(before).push(entries@[i as int].0@));
        }
        i = i + 1;
    }
    out
}

/// The first position from `i` on of a world for a trial.
pub open spec fn first_residue(names: Seq<String>, i: int) -> int
    decreases names.len() - i,
{
    if i < 0 || i >= names.len() {
        names.len() as int
    } else if is_trial_world(names[i]@) {
        i
    } else {
        first_residue(names, i + 1)
    }
}

/// The value of the first line from `i` on that sets the world to one for a
/// trial.
pub open spec fn trial_level(lines: Seq<Seq<char>>, i: int) -> Option<Seq<char>>
    decreases lines.len() - i,
{
    if i < 0 || i >= lines.len() {
        None
    } else if server_properties::key_of(lines[i]) == Some("level-name"@) && is_trial_world(
        server_properties::value_of(lines[i]),
    ) {
        Some(server_properties::value_of(lines[i]))
    } else {
        trial_level(lines, i + 1)
    }
}

/// What a trial left behind in the staging directory, if anything: a world, the
/// copy of the properties, or its world in the properties.
pub open spec fn residue(
    names: Seq<String>,
    marker_exists: bool,
    properties: Option<Seq<char>>,
) -> Option<Seq<char>> {
    let w = first_residue(names, 0);
    let level = match properties {
        Some(c) => trial_level(text::lines(c), 0),
        None => None,
    };
    if w < names.len() {
        Some("Validation world residue found: "@ + names[w]@)
    } else if marker_exists {
        Some("Validation backup marker .lbby-original-server.properties still exists"@)
    } else {
        match level {
            Some(v) => Some("server.properties level-name still set to validation world: "@ + v),
            None => None,
        }
    }
}

/// Checks that a trial left nothing behind, before the build is put in place. An
/// address of `127.0.0.1` by itself may be the user's own choice and does not
/// count.
pub fn verify_validation_cleanup(
    names: &Vec<String>,
    marker_exists: bool,
    properties: Option<&str>,
) -> (r: Result<(), String>)
    ensures
        ({
            let p = text::str_view(properties);
            &&& r is Ok <==> residue(names@, marker_exists, p) is None
            &&& r is Err ==> residue(names@, marker_exists, p) == Some(r->Err_0@)
        }),
{
    let mut i: usize = 0;
    while i < names.len()
        invariant
            i <= names.len(),
            first_residue(names@, 0) == first_residue(names@, i as int),
        decreases names.len() - i,
    {
        if is_validation_world(names[i].as_str()) {
            let mut s = String::from_str("Validation world residue found: ");
            s.append(names[i].as_str());
            return Err(s);
        }
        i = i + 1;
    }
    if marker_exists {
        return Err(
            "Validation backup marker .lbby-original-server.properties still exists".to_string(),
        );
    }
    if let Some(content) = properties {
        let chars = to_chars(content);
        let list = split_lines(&chars);
        let ghost l = text::lines(content@);
        assert(list@.len() == l.len());
        let mut k: usize = 0;
        while k < list.len()
            invariant
                k <= list.len(),
                list@.len() == l.len(),
                text::slices(list@) == l,
                l == text::lines(content@),
                first_residue(names@, 0) >= names@.len(),
                !marker_exists,
                properties is Some,
                properties->0@ == content@,
                trial_level(l, 0) == trial_level(l, k as int),
            decreases list.len() - k,
        {
            assert(text::slices(list@)[k as int] == list@[k as int]@);
            if let Some((key, value)) = key_and_value(list[k]) {
                if str_eq(key.as_str(), "level-name") && is_validation_world(value.as_str()) {
                    let mut s = String::from_str(
                        "server.properties level-name still set to validation world: ",
                    );
                    s.append(value.as_str());
                    return Err(s);
                }
            }
            k = k + 1;
        }
    }
    Ok(())
}

/// The clean-up removes every world for a trial that is a directory, and
/// nothing else.
pub proof fn law_cleanup_removes_trial_worlds_only(
    entries: Seq<(String, bool)>,
    n: int,
    name: Seq<char>,
)
    requires
        0 <= n <= entries.len(),
    ensures
        doomed_below(entries, n).contains(name) <==> is_trial_world(name) && exists|i: int|
            0 <= i < n && (#[trigger] entries[i]).0@ == name && entries[i].1,
    decreases n,
{
    if n > 0 {
        law_cleanup_removes_trial_worlds_only(entries, n - 1, name);
        let prev = doomed_below(entries, n - 1);
        let now = doomed_below(entries, n);
        if prev.contains(name) {
            let k = choose|k: int| 0 <= k < prev.len() && prev[k] == name;
            assert(now[k] == name);
        }
        if now.contains(name) {
            let k = choose|k: int| 0 <= k < now.len() && now[k] == name;
            if k < prev.len() {
                assert(prev[k] == name);
            } else {
                assert(entries[n - 1].0@ == name);
            }
        }
        if entries[n - 1].1 && is_trial_world(entries[n - 1].0@) {
            assert(now[prev.len() as int] == entries[n - 1].0@);
        }
    }
}

/// The world that a trial uses is one that the clean-up knows.
pub proof fn law_trial_world_is_recognised(tag: Seq<char>)
    ensures
        is_trial_world(trial_world(tag)),
{
    let p = ".lbby-validation-world-"@;
    assert(trial_world(tag).subrange(0, p.len() as int) =~= p);
}

proof fn lemma_first_residue(names: Seq<String>, i: int)
    requires
        0 <= i <= names.len(),
    ensures
        i <= first_residue(names, i) <= names.len(),
        first_residue(names, i) == names.len() <==> (forall|k: int|
            i <= k < names.len() ==> !is_trial_world((#[trigger] names[k])@)),
    decreases names.len() - i,
{
    if i < names.len() && !is_trial_world(names[i]@) {
        lemma_first_residue(names, i + 1);
    }
}

/// A build that was cleaned up passes: once the worlds for the trial are removed
/// and the properties restored, nothing is left behind. What was there before,
/// and what else the server made, does not matter, unless it looks like a trial.
pub proof fn law_cleaned_build_passes(
    files: server_properties::FilesView,
    port: u16,
    world: Seq<char>,
    entries: Seq<(String, bool)>,
    left: Seq<String>,
)
    requires
        files.original is None,
        residue(seq![], false, files.properties) is None,
        forall|i: int|
            0 <= i < entries.len() && is_trial_world((#[trigger] entries[i]).0@) ==> entries[i].1,
        forall|k: int|
            0 <= k < left.len() ==> !doomed_below(entries, entries.len() as int).contains(
                (#[trigger] left[k])@,
            ),
        forall|k: int|
            0 <= k < left.len() ==> exists|i: int|
                0 <= i < entries.len() && (#[trigger] entries[i]).0@ == (#[trigger] left[k])@,
    ensures
        ({
            let after = server_properties::restored(
                server_properties::overlaid_with_backup(files, port, world),
            );
            residue(left, after.original is Some, after.properties) is None
        }),
{
    server_properties::law_restore_undoes_the_trial(files, port, world);
    assert forall|k: int| 0 <= k < left.len() implies !is_trial_world((#[trigger] left[k])@) by {
        let i = choose|i: int|
            0 <= i < entries.len() && (#[trigger] entries[i]).0@ == left[k]@;
        law_cleanup_removes_trial_worlds_only(entries, entries.len() as int, left[k]@);
    }
    lemma_first_residue(left, 0);
}

/// A trial that was not cleaned up is caught: by its world, by the copy of the
/// properties, or by the world that they still name.
pub proof fn law_trial_left_behind_is_caught(
    names: Seq<String>,
    marker_exists: bool,
    properties: Option<Seq<char>>,
)
    ensures
        residue(names, marker_exists, properties) is Some <==> marker_exists || (exists|k: int|
            0 <= k < names.len() && is_trial_world((#[trigger] names[k])@)) || (properties is Some
            && trial_level(text::lines(properties->0), 0) is Some),
{
    lemma_first_residue(names, 0);
}

// ---------------------------------------------------------------------
// What is kept of a failure
// ---------------------------------------------------------------------

/// The directory for what is kept: outside of the live server, below the
/// directory two levels above the staging directory, where there is one.
pub open spec fn diagnostics_path(
    servers_parent: Option<Seq<char>>,
    staging: Seq<char>,
    server_id: Seq<char>,
    txn_id: Seq<char>,
) -> Seq<char> {
    let base = match servers_parent {
        Some(p) => p,
        None => staging,
    };
    text::under(text::under(text::under(base, ".lbby-diagnostics"@), server_id), txn_id)
}

/// The directory for what is kept of a failure.
pub fn diagnostics_dir(
    servers_parent: Option<&str>,
    staging: &str,
    server_id: &str,
    txn_id: &str,
) -> (r: String)
    ensures
        r@ == diagnostics_path(
            text::str_view(servers_parent),
            staging@,
            server_id@,
            txn_id@,
        ),
{
    let base: &str = match servers_parent {
        Some(p) => p,
        None => staging,
    };
    let a = join_path(base, ".lbby-diagnostics");
    let b = join_path(a.as_str(), server_id);
    join_path(b.as_str(), txn_id)
}

/// A text without all but its last lines.
pub open spec fn last_lines(s: Seq<char>, max: int) -> Seq<char> {
    let l = text::lines(s);
    if l.len() <= max {
        s
    } else {
        text::joined(l.skip(l.len() - max), "\n"@)
    }
}

/// What is kept of the output of a trial that failed or took too long: its last
/// lines. Nothing is kept of one that succeeded.
pub fn diagnostic_log(result: &BootResult) -> (r: Option<String>)
    ensures
        text::opt_view(r) == (match result@ {
            ResultView::Success { .. } => None,
            ResultView::Failed(f) => Some(last_lines(f.log_tail, DIAGNOSTIC_LINES as int)),
            ResultView::Timeout { waited, log_tail } => Some(
                last_lines(log_tail, DIAGNOSTIC_LINES as int),
            ),
        }),
{
    match result {
        BootResult::Success(_) => None,
        BootResult::Failed(f) => Some(tail(f.log_tail.as_str(), DIAGNOSTIC_LINES)),
        BootResult::Timeout(t) => Some(tail(t.log_tail.as_str(), DIAGNOSTIC_LINES)),
    }
}

/// A text without all but its last lines.
fn tail(s: &str, max: usize) -> (r: String)
    ensures
        r@ == last_lines(s@, max as int),
{
    let chars = to_chars(s);
    let list = split_lines(&chars);
    let ghost l = text::lines(s@);
    assert(list@.len() == l.len());
    if list.len() <= max {
        return s.to_string();
    }
    let from: usize = list.len() - max;
    let mut kept: Vec<String> = Vec::new();
    let mut i: usize = from;
    while i < list.len()
        invariant
            from <= i <= list.len(),
            list@.len() == l.len(),
            text::slices(list@) == l,
            kept@.len() == i - from,
            forall|k: int| 0 <= k < kept@.len() ==> (#[trigger] kept@[k])@ == l[from + k],
        decreases list.len() - i,
    {
        assert(text::slices(list@)[i as int] == list@[i as int]@);
        kept.push(text::from_chars(list[i]));
        i = i + 1;
    }
    assert(text::views(kept@) =~= l.skip(from as int));
    join(&kept, "\n")
}

/// An exit code in JSON: a number, or `null` where there is none.
pub open spec fn exit_code_text(code: Option<i32>) -> Seq<char> {
    match code {
        Some(c) => text::dec_signed(c as int),
        None => "null"@,
    }
}

/// What is noted of a trial that failed or took too long, as an object of JSON.
/// The seconds waited are given as a number of JSON.
pub fn diagnostic_json(result: &BootResult, waited_secs: &str) -> (r: Option<String>)
    ensures
        text::opt_view(r) == (match result@ {
            ResultView::Success { .. } => None,
            ResultView::Failed(f) => Some(
                "{\"status\":\"failed\",\"reason\":"@ + text::json_quoted(reason_name(f.reason))
                    + ",\"exit_code\":"@ + exit_code_text(f.exit_code) + "}"@,
            ),
            ResultView::Timeout { .. } => Some(
                "{\"status\":\"timeout\",\"waited_secs\":"@ + waited_secs@ + "}"@,
            ),
        }),
{
    match result {
        BootResult::Success(_) => None,
        BootResult::Failed(f) => {
            let mut s = String::from_str("{\"status\":\"failed\",\"reason\":");
            s.append(json_str(f.reason.name().as_str()).as_str());
            s.append(",\"exit_code\":");
            let code = match f.exit_code {
                Some(c) => dec_signed_string(c as i64),
                None => "null".to_string(),
            };
            s.append(code.as_str());
            s.append("}");
            Some(s)
        },
        BootResult::Timeout(_) => {
            let mut s = String::from_str("{\"status\":\"timeout\",\"waited_secs\":");
            s.append(waited_secs);
            s.append("}");
            Some(s)
        },
    }
}

/// The names among the first `n` that end in `.txt`, the last in order first.
pub open spec fn reports_below(names: Seq<String>, n: int) -> Seq<Seq<char>>
    decreases n,
{
    if n <= 0 {
        seq![]
    } else if text::ends_with(names[n - 1]@, ".txt"@) {
        let s = reports_below(names, n - 1);
        s.insert(sorting::place(s, names[n - 1]@, 0), names[n - 1]@)
    } else {
        reports_below(names, n - 1)
    }
}

/// The names of the crash reports to keep: those that end in `.txt`, the last
/// five in the order of their names, which hold the time.
pub open spec fn reports_kept(names: Seq<String>) -> Seq<Seq<char>> {
    let s = reports_below(names, names.len() as int);
    if s.len() > DIAGNOSTIC_REPORTS {
        s.take(DIAGNOSTIC_REPORTS as int)
    } else {
        s
    }
}

/// The names of the crash reports to keep.
pub fn crash_reports_to_keep(names: &Vec<String>) -> (r: Vec<String>)
    ensures
        text::views(r@) == reports_kept(names@),
{
    let mut sorted: Vec<String> = Vec::new();
    assert(text::views(sorted@) =~= seq![]);
    let mut i: usize = 0;
    while i < names.len()
        invariant
            i <= names.len(),
            text::views(sorted@) == reports_below(names@, i as int),
        decreases names.len() - i,
    {
        let name = to_chars(names[i].as_str());
        if has_suffix(&name, ".txt") {
            let ghost s = text::views(sorted@);
            let mut p: usize = 0;
            while p < sorted.len()
                invariant_except_break
                    p <= sorted.len(),
                invariant
                    p <= sorted.len(),
                    s == text::views(sorted@),
                    sorting::place(s, name@, 0) == sorting::place(s, name@, p as int),
                ensures
                    p == sorting::place(s, name@, 0),
                decreases sorted.len() - p,
            {
                assert(s[p as int] == sorted@[p as int]@);
                let other = to_chars(sorted[p].as_str());
                if sorting::is_before(&other, &name) {
                    break;
                }
                p = p + 1;
            }
            let copy = names[i].clone();
            sorted.insert(p, copy);
            assert(text::views(sorted@) =~= s.insert(p as int, name@));
        }
        i = i + 1;
    }
    if sorted.len() > DIAGNOSTIC_REPORTS {
        let ghost s = sorted@;
        sorted.truncate(DIAGNOSTIC_REPORTS);
        assert(text::views(sorted@) =~= text::views(s).take(DIAGNOSTIC_REPORTS as int));
    }
    sorted
}

/// The reports stand in order, the last one first: what is cut off stands
/// before what is kept.
pub proof fn law_reports_in_order(names: Seq<String>, n: int)
    requires
        0 <= n <= names.len(),
    ensures
        forall|i: int, j: int|
            0 <= i <= j < reports_below(names, n).len() ==> !sorting::before(
                #[trigger] reports_below(names, n)[i],
                #[trigger] reports_below(names, n)[j],
            ),
    decreases n,
{
    if n > 0 {
        law_reports_in_order(names, n - 1);
        let s = reports_below(names, n - 1);
        let x = names[n - 1]@;
        let p = sorting::place(s, x, 0);
        sorting::lemma_place(s, x, 0);
        let t = s.insert(p, x);
        assert forall|i: int, j: int| 0 <= i <= j < t.len() implies !sorting::before(
            #[trigger] t[i],
            #[trigger] t[j],
        ) by {
            sorting::lemma_before_trans(x, x, x, 0);
            if i < p && j > p {
                assert(!sorting::before(s[i], s[j - 1]));
            } else if i == p && j > p {
                assert(!sorting::before(s[p], s[j - 1]));
                sorting::lemma_before_trans(s[p], x, s[p], 0);
                sorting::lemma_before_trans(x, s[p], s[j - 1], 0);
            } else if i < p && j < p {
                assert(!sorting::before(s[i], s[j]));
            } else if i > p {
                assert(!sorting::before(s[i - 1], s[j - 1]));
            }
        }
    }
}

// ---------------------------------------------------------------------
// What output means, by what stands in it
// ---------------------------------------------------------------------

/// Whether a text stands nowhere in a line.
pub open spec fn stands_nowhere(line: Seq<char>, p: Seq<char>) -> bool {
    forall|i: int|
        0 <= i <= line.len() - p.len() ==> #[trigger] line.subrange(i, i + p.len()) != p
}

proof fn lemma_nowhere(line: Seq<char>, p: Seq<char>)
    requires
        stands_nowhere(line, p),
    ensures
        !text::contains(line, p),
{
    text::lemma_contains(line, p);
    if text::contains(line, p) {
        let i = choose|i: int| text::occurs_at(line, p, i);
        assert(line.subrange(i, i + p.len()) == p);
    }
}

/// A line in which `Done` stands, and `For help` or `type "help"` too, means that
/// the server is ready, wherever in the line they stand and whatever else it says.
pub proof fn law_ready_line_is_ready(
    l: String,
    log: Seq<Seq<char>>,
    a: Seq<char>,
    b: Seq<char>,
    hint: Seq<char>,
    c: Seq<char>,
    d: Seq<char>,
)
    requires
        l@ == a + "Done"@ + b,
        l@ == c + hint + d,
        hint == "For help"@ || hint == "type \"help\""@,
    ensures
        meaning(OutputEvent::Line(l), log) is Ready,
{
    text_laws::law_contains_what_was_put_in(a, "Done"@, b);
    text_laws::law_contains_what_was_put_in(c, hint, d);
}

/// A line in which `Done` stands nowhere, or neither `For help` nor `type "help"`
/// does, does not mean that the server is ready; nor does anything but a line.
pub proof fn law_no_other_line_is_ready(event: OutputEvent, log: Seq<Seq<char>>)
    ensures
        !(event is Line) ==> !(meaning(event, log) is Ready),
        event is Line && stands_nowhere(event->Line_0@, "Done"@) ==> !(meaning(event, log)
            is Ready),
        event is Line && stands_nowhere(event->Line_0@, "For help"@) && stands_nowhere(
            event->Line_0@,
            "type \"help\""@,
        ) ==> !(meaning(event, log) is Ready),
{
    if event is Line {
        let line = event->Line_0@;
        if stands_nowhere(line, "Done"@) {
            lemma_nowhere(line, "Done"@);
        }
        if stands_nowhere(line, "For help"@) && stands_nowhere(line, "type \"help\""@) {
            lemma_nowhere(line, "For help"@);
            lemma_nowhere(line, "type \"help\""@);
        }
    }
}

/// A line in which `java.lang.OutOfMemoryError` stands, and `Done` does not, ends
/// the trial as out of memory, and the process is killed; a line with neither
/// changes nothing.
pub proof fn law_out_of_memory_line_ends_the_trial(
    l: String,
    log: Seq<Seq<char>>,
    a: Seq<char>,
    b: Seq<char>,
)
    requires
        stands_nowhere(l@, "Done"@),
    ensures
        l@ == a + "java.lang.OutOfMemoryError"@ + b ==> meaning(OutputEvent::Line(l), log)
            == StepView::Finished(
            true,
            ResultView::Failed(
                FailureView {
                    exit_code: None,
                    reason: ReasonView::OutOfMemory,
                    log_tail: text::joined(log, "\n"@),
                },
            ),
        ),
        stands_nowhere(l@, "java.lang.OutOfMemoryError"@) ==> meaning(OutputEvent::Line(l), log)
            is Continue,
{
    lemma_nowhere(l@, "Done"@);
    if l@ == a + "java.lang.OutOfMemoryError"@ + b {
        text_laws::law_contains_what_was_put_in(a, "java.lang.OutOfMemoryError"@, b);
    }
    if stands_nowhere(l@, "java.lang.OutOfMemoryError"@) {
        lemma_nowhere(l@, "java.lang.OutOfMemoryError"@);
    }
}

/// A process that is gone before it was ready has failed, with its exit code and
/// the end of its output; one whose output or state cannot be had has failed too,
/// with the reason; one that still runs is waited for.
pub proof fn law_what_ends_a_trial(event: OutputEvent, log: Seq<Seq<char>>)
    ensures
        ({
            let tail = text::joined(log, "\n"@);
            &&& event is StillRunning ==> meaning(event, log) is Continue
            &&& event matches OutputEvent::Closed { exit_code } ==> meaning(event, log)
                == StepView::Finished(
                false,
                ResultView::Failed(
                    FailureView { exit_code, reason: ReasonView::ProcessExited, log_tail: tail },
                ),
            )
            &&& event matches OutputEvent::Exited { exit_code } ==> meaning(event, log)
                == StepView::Finished(
                false,
                ResultView::Failed(
                    FailureView { exit_code, reason: ReasonView::ProcessExited, log_tail: tail },
                ),
            )
            &&& event is ReadError || event is WaitError ==> {
                let e = match event {
                    OutputEvent::ReadError(e) => e@,
                    OutputEvent::WaitError(e) => e@,
                    _ => seq![],
                };
                let m = meaning(event, log);
                &&& m matches StepView::Finished(kill, r)
                &&& kill
                &&& r matches ResultView::Failed(f)
                &&& f.log_tail == tail
                &&& f.exit_code is None
                &&& f.reason matches ReasonView::Unknown(why)
                &&& text::ends_with(why, e)
            }
        }),
{
    match event {
        OutputEvent::ReadError(e) => {
            text_laws::law_ends("stdout read error: "@, e@);
        },
        OutputEvent::WaitError(e) => {
            text_laws::law_ends("try_wait error: "@, e@);
        },
        _ => {},
    }
}

/// What a line of output does to the log, and nothing else does: it is the newest
/// line there.
pub proof fn law_only_lines_are_logged(log: Seq<Seq<char>>, cap: nat, event: OutputEvent)
    ensures
        !(event is Line) ==> log_after(log, cap, event) == log,
        event is Line ==> log_after(log, cap, event).len() > 0 && log_after(log, cap, event).last()
            == event->Line_0@,
{
    if event is Line {
        law_log_keeps_the_newest(log.push(event->Line_0@), cap);
    }
}

/// How much lines take adds up, and a line takes its bytes and one for the line
/// feed.
pub proof fn law_sizes_add_up(a: Seq<Seq<char>>, b: Seq<Seq<char>>, line: Seq<char>)
    ensures
        lines_size(a + b) == lines_size(a) + lines_size(b),
        lines_size(seq![line]) == vstd::utf8::encode_utf8(line).len() + 1,
    decreases b.len(),
{
    let one = seq![line];
    assert(one.drop_last() =~= Seq::<Seq<char>>::empty());
    assert(lines_size(Seq::<Seq<char>>::empty()) == 0);
    if b.len() > 0 {
        law_sizes_add_up(a, b.drop_last(), line);
        assert((a + b).drop_last() =~= a + b.drop_last());
        assert((a + b).last() == b.last());
    } else {
        assert(a + b =~= a);
    }
}

/// The limits: five minutes for a trial, half a minute for the server to stop, two
/// seconds for a read, 256 KiB of output, 200 lines and five reports that are
/// kept.
pub proof fn law_limits()
    ensures
        DEFAULT_TIMEOUT == 5 * 60 * 1000,
        GRACEFUL_SHUTDOWN_TIMEOUT == 30 * 1000,
        READ_TIMEOUT == 2 * 1000,
        OUTPUT_CAP_BYTES == 256 * 1024,
        DIAGNOSTIC_LINES == 200,
        DIAGNOSTIC_REPORTS == 5,
{
}

/// The licence is accepted where `eula=true` stands in the file, and not where it
/// does not or there is no file.
pub proof fn law_licence(a: Seq<char>, b: Seq<char>, other: Seq<char>)
    ensures
        accepts_eula(Some(a + "eula=true"@ + b)),
        stands_nowhere(other, "eula=true"@) ==> !accepts_eula(Some(other)),
        !accepts_eula(None),
{
    text_laws::law_contains_what_was_put_in(a, "eula=true"@, b);
    if stands_nowhere(other, "eula=true"@) {
        lemma_nowhere(other, "eula=true"@);
    }
}

/// A world is one for a trial if and only if its name is the prefix that those
/// have and a tag.
pub proof fn law_trial_worlds_have_the_prefix(name: Seq<char>)
    ensures
        is_trial_world(name) <==> exists|tag: Seq<char>|
            name == ".lbby-validation-world-"@ + tag,
        is_trial_world(name) ==> name == trial_world(
            name.skip(".lbby-validation-world-"@.len() as int),
        ),
{
    let p = ".lbby-validation-world-"@;
    if is_trial_world(name) {
        text_laws::law_ends_are_cuts(name, p);
        assert(name == p + name.skip(p.len() as int));
    }
    if exists|tag: Seq<char>| name == p + tag {
        let tag = choose|tag: Seq<char>| name == p + tag;
        text_laws::law_ends(p, tag);
    }
}

/// Properties that set the world to one for a trial are caught, in whatever line
/// they do.
pub proof fn law_trial_world_in_properties_is_caught(
    names: Seq<String>,
    marker_exists: bool,
    properties: Seq<char>,
    k: int,
)
    requires
        0 <= k < text::lines(properties).len(),
        server_properties::key_of(text::lines(properties)[k]) == Some("level-name"@),
        text::starts_with(
            server_properties::value_of(text::lines(properties)[k]),
            ".lbby-validation-world-"@,
        ),
    ensures
        residue(names, marker_exists, Some(properties)) is Some,
{
    lemma_trial_level(text::lines(properties), 0, k);
}

proof fn lemma_trial_level(lines: Seq<Seq<char>>, i: int, k: int)
    requires
        0 <= i <= k < lines.len(),
        server_properties::key_of(lines[k]) == Some("level-name"@),
        is_trial_world(server_properties::value_of(lines[k])),
    ensures
        trial_level(lines, i) is Some,
    decreases k - i,
{
    if i < k {
        lemma_trial_level(lines, i + 1, k);
    }
}

/// A build with a world for a trial, or with the copy of the properties, is
/// caught.
pub proof fn law_residue_is_caught(
    names: Seq<String>,
    marker_exists: bool,
    properties: Option<Seq<char>>,
    k: int,
    tag: Seq<char>,
)
    requires
        marker_exists || (0 <= k < names.len() && names[k]@ == ".lbby-validation-world-"@ + tag),
    ensures
        residue(names, marker_exists, properties) is Some,
{
    law_trial_left_behind_is_caught(names, marker_exists, properties);
    if !marker_exists {
        text_laws::law_ends(".lbby-validation-world-"@, tag);
        assert(is_trial_world(names[k]@));
    }
}

/// What is kept of a failure is outside of the staging directory where the
/// servers' own directory is known, in a place of its own for each server and
/// transaction.
pub proof fn law_diagnostics_have_their_place(
    parent: Seq<char>,
    staging: Seq<char>,
    server_id: Seq<char>,
    txn_id: Seq<char>,
)
    requires
        parent.len() > 0,
        parent.last() != '/',
        server_id.len() > 0,
        server_id[0] != '/',
        server_id.last() != '/',
        txn_id.len() > 0,
        txn_id[0] != '/',
    ensures
        diagnostics_path(Some(parent), staging, server_id, txn_id) == parent
            + "/.lbby-diagnostics/"@ + server_id + "/"@ + txn_id,
{
    reveal_strlit("/.lbby-diagnostics/");
    reveal_strlit(".lbby-diagnostics");
    reveal_strlit("/");
    let d = ".lbby-diagnostics"@;
    let a = text::under(parent, d);
    assert(a =~= parent + seq!['/'] + d);
    assert(a.last() == d.last());
    let b = text::under(a, server_id);
    assert(b =~= a + seq!['/'] + server_id);
    assert(b.last() == server_id.last());
    assert("/.lbby-diagnostics/"@ =~= seq!['/'] + d + seq!['/']);
    assert("/"@ =~= seq!['/']);
    assert(diagnostics_path(Some(parent), staging, server_id, txn_id) =~= parent
        + "/.lbby-diagnostics/"@ + server_id + "/"@ + txn_id);
}

/// What is kept of a long output is its end: whole lines, the last one among
/// them, and as many as are asked for; a short one is kept as it is.
pub proof fn law_the_end_is_kept(s: Seq<char>, max: int)
    requires
        max > 0,
    ensures
        text::lines(s).len() <= max ==> last_lines(s, max) == s,
        text::lines(s).len() > max ==> exists|kept: Seq<Seq<char>>|
            kept.len() == max && last_lines(s, max) == #[trigger] text::joined(kept, "\n"@)
                && forall|k: int|
                0 <= k < max ==> #[trigger] kept[k] == text::lines(s)[text::lines(s).len() - max
                    + k],
{
    let l = text::lines(s);
    if l.len() > max {
        let kept = l.skip(l.len() - max);
        assert(last_lines(s, max) == text::joined(kept, "\n"@));
    }
}

/// The crash reports that are kept are names that end in `.txt`, at most five, and
/// all of them where there are no more.
pub proof fn law_reports_kept(names: Seq<String>)
    ensures
        reports_kept(names).len() <= 5,
        forall|k: int|
            0 <= k < reports_kept(names).len() ==> {
                &&& text::ends_with(#[trigger] reports_kept(names)[k], ".txt"@)
                &&& text::has_str(names, reports_kept(names)[k])
            },
        forall|i: int|
            0 <= i < names.len() && text::ends_with((#[trigger] names[i])@, ".txt"@)
                && reports_kept(names).len() < 5 ==> reports_kept(names).contains(names[i]@),
{
    lemma_reports_below(names, names.len() as int);
}

proof fn lemma_reports_below(names: Seq<String>, n: int)
    requires
        0 <= n <= names.len(),
    ensures
        forall|k: int|
            0 <= k < reports_below(names, n).len() ==> {
                &&& text::ends_with(#[trigger] reports_below(names, n)[k], ".txt"@)
                &&& text::has_str(names, reports_below(names, n)[k])
            },
        forall|i: int|
            0 <= i < n && text::ends_with((#[trigger] names[i])@, ".txt"@) ==> reports_below(
                names,
                n,
            ).contains(names[i]@),
    decreases n,
{
    if n > 0 {
        lemma_reports_below(names, n - 1);
        let s = reports_below(names, n - 1);
        let now = reports_below(names, n);
        let name = names[n - 1]@;
        if text::ends_with(name, ".txt"@) {
            let p = sorting::place(s, name, 0);
            sorting::lemma_place(s, name, 0);
            assert forall|k: int| 0 <= k < now.len() implies {
                &&& text::ends_with(#[trigger] now[k], ".txt"@)
                &&& text::has_str(names, now[k])
            } by {
                if k < p {
                    assert(now[k] == s[k]);
                } else if k > p {
                    assert(now[k] == s[k - 1]);
                } else {
                    assert(now[k] == name);
                    assert(names[n - 1]@ == name);
                }
            }
            assert forall|i: int| 0 <= i < n && text::ends_with(
                (#[trigger] names[i])@,
                ".txt"@,
            ) implies now.contains(names[i]@) by {
                if i < n - 1 {
                    assert(s.contains(names[i]@));
                    let k = choose|k: int| 0 <= k < s.len() && s[k] == names[i]@;
                    if k < p {
                        assert(now[k] == names[i]@);
                    } else {
                        assert(now[k + 1] == names[i]@);
                    }
                } else {
                    assert(now[p] == name);
                }
            }
        }
    }
}

/// The sentence for each reason says what happened.
pub proof fn law_reasons_say_what_happened(msg: Seq<char>)
    ensures
        text::contains(reason_text(ReasonView::ProcessExited), "exited"@),
        text::contains(reason_text(ReasonView::JavaNotFound), "Java executable not found"@),
        text::contains(reason_text(ReasonView::LaunchFailure), "launch"@),
        text::contains(reason_text(ReasonView::EulaNotAccepted), "EULA"@),
        text::contains(reason_text(ReasonView::OutOfMemory), "out of memory"@),
        text::contains(reason_text(ReasonView::PortUnavailable), "port"@),
        text::contains(reason_text(ReasonView::ReadyThenStopFailed), "failed to shut down"@),
        text::contains(reason_text(ReasonView::WrongJavaVersion), "Wrong Java"@),
        text::ends_with(reason_text(ReasonView::Unknown(msg)), msg),
{
    reveal_strlit("Server process exited before reaching ready state");
    reveal_strlit("exited");
    assert(text::occurs_at(reason_text(ReasonView::ProcessExited), "exited"@, 15)) by {
        assert(reason_text(ReasonView::ProcessExited).subrange(15, 21) =~= "exited"@);
    }
    text::lemma_contains(reason_text(ReasonView::ProcessExited), "exited"@);
    let j = "Java executable not found"@;
    assert(j.subrange(0, j.len() as int) =~= j);
    assert(text::occurs_at(j, j, 0));
    text::lemma_contains(j, j);
    reveal_strlit("Failed to launch server process");
    reveal_strlit("launch");
    assert(reason_text(ReasonView::LaunchFailure).subrange(10, 16) =~= "launch"@);
    assert(text::occurs_at(reason_text(ReasonView::LaunchFailure), "launch"@, 10));
    text::lemma_contains(reason_text(ReasonView::LaunchFailure), "launch"@);
    reveal_strlit("Minecraft EULA has not been accepted");
    reveal_strlit("EULA");
    assert(reason_text(ReasonView::EulaNotAccepted).subrange(10, 14) =~= "EULA"@);
    assert(text::occurs_at(reason_text(ReasonView::EulaNotAccepted), "EULA"@, 10));
    text::lemma_contains(reason_text(ReasonView::EulaNotAccepted), "EULA"@);
    reveal_strlit("Server ran out of memory during startup");
    reveal_strlit("out of memory");
    assert(reason_text(ReasonView::OutOfMemory).subrange(11, 24) =~= "out of memory"@);
    assert(text::occurs_at(reason_text(ReasonView::OutOfMemory), "out of memory"@, 11));
    text::lemma_contains(reason_text(ReasonView::OutOfMemory), "out of memory"@);
    reveal_strlit("Could not bind a validation port");
    reveal_strlit("port");
    assert(reason_text(ReasonView::PortUnavailable).subrange(28, 32) =~= "port"@);
    assert(text::occurs_at(reason_text(ReasonView::PortUnavailable), "port"@, 28));
    text::lemma_contains(reason_text(ReasonView::PortUnavailable), "port"@);
    reveal_strlit("Server reached ready state but failed to shut down cleanly");
    reveal_strlit("failed to shut down");
    assert(reason_text(ReasonView::ReadyThenStopFailed).subrange(31, 50)
        =~= "failed to shut down"@);
    assert(text::occurs_at(
        reason_text(ReasonView::ReadyThenStopFailed),
        "failed to shut down"@,
        31,
    ));
    text::lemma_contains(reason_text(ReasonView::ReadyThenStopFailed), "failed to shut down"@);
    reveal_strlit("Wrong Java version for this server");
    reveal_strlit("Wrong Java");
    assert(reason_text(ReasonView::WrongJavaVersion).subrange(0, 10) =~= "Wrong Java"@);
    assert(text::occurs_at(reason_text(ReasonView::WrongJavaVersion), "Wrong Java"@, 0));
    text::lemma_contains(reason_text(ReasonView::WrongJavaVersion), "Wrong Java"@);
    text_laws::law_ends("Unknown failure: "@, msg);
}

/// Each reason has the name by which it is noted, and what is not known is noted
/// with its message.
pub proof fn law_reasons_are_noted_by_name(r: ReasonView)
    ensures
        r is ProcessExited ==> reason_name(r) == "ProcessExited"@,
        r is JavaNotFound ==> reason_name(r) == "JavaNotFound"@,
        r is LaunchFailure ==> reason_name(r) == "LaunchFailure"@,
        r is EulaNotAccepted ==> reason_name(r) == "EulaNotAccepted"@,
        r is OutOfMemory ==> reason_name(r) == "OutOfMemory"@,
        r is PortUnavailable ==> reason_name(r) == "PortUnavailable"@,
        r is ReadyThenStopFailed ==> reason_name(r) == "ReadyThenStopFailed"@,
        r is WrongJavaVersion ==> reason_name(r) == "WrongJavaVersion"@,
        r matches ReasonView::Unknown(msg) ==> text::contains(
            reason_name(r),
            text::debug_quoted(msg),
        ),
        exit_code_text(None) == "null"@,
{
    if let ReasonView::Unknown(msg) = r {
        text_laws::law_contains_what_was_put_in("Unknown("@, text::debug_quoted(msg), ")"@);
    }
}

/// The world that is caught in the properties is the one that they name.
pub proof fn law_caught_world_is_named(properties: Seq<char>, names: Seq<String>)
    ensures
        trial_level(text::lines(properties), 0) is Some ==> text::starts_with(
            trial_level(text::lines(properties), 0)->0,
            ".lbby-validation-world-"@,
        ),
        names.len() == 0 && trial_level(text::lines(properties), 0) is Some ==> text::ends_with(
            residue(names, false, Some(properties))->0,
            trial_level(text::lines(properties), 0)->0,
        ),
        names.len() == 0 && (forall|k: int|
            0 <= k < text::lines(properties).len() ==> server_properties::key_of(
                #[trigger] text::lines(properties)[k],
            ) != Some("level-name"@)) ==> residue(names, false, Some(properties)) is None,
{
    let ls = text::lines(properties);
    lemma_level_is_trial(ls, 0);
    if trial_level(ls, 0) is Some {
        text_laws::law_ends(
            "server.properties level-name still set to validation world: "@,
            trial_level(ls, 0)->0,
        );
    }
}

proof fn lemma_level_is_trial(ls: Seq<Seq<char>>, i: int)
    requires
        0 <= i <= ls.len(),
    ensures
        trial_level(ls, i) is Some ==> is_trial_world(trial_level(ls, i)->0),
        (forall|k: int|
            0 <= k < ls.len() ==> server_properties::key_of(#[trigger] ls[k]) != Some(
                "level-name"@,
            )) ==> trial_level(ls, i) is None,
    decreases ls.len() - i,
{
    if i < ls.len() {
        lemma_level_is_trial(ls, i + 1);
    }
}

} // verus!
