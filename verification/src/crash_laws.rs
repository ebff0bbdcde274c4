//! What holds of crash attribution: which lines of a log speak of which mod, and
//! what is said about a crash whose log speaks of one mod.
use vstd::prelude::*;

use crate::crash_attribution;
use crate::crash_attribution::{
    CandidateView, CrashAttributionConfidence, CrashAttributionStatus, RecommendationView,
    ReportView,
};
use crate::crash_evidence;
use crate::crash_evidence::{CrashEvidenceSource, EvidenceView};
use crate::jar_index;
use crate::jar_index::JarView;
use crate::mod_compat::ServerCompatibility;
use crate::text;
use crate::text_laws;

verus! {

// ---------------------------------------------------------------------
// Lines that speak of a mod
// ---------------------------------------------------------------------

/// Whether a piece of evidence is of a kind, from a line, and leads to a mod or to
/// a JAR.
pub open spec fn is_told(
    e: EvidenceView,
    source: CrashEvidenceSource,
    line: Seq<char>,
    mod_id: Option<Seq<char>>,
    jar: Option<Seq<char>>,
) -> bool {
    e.source == source && e.matched_text == line && e.mod_id == mod_id && e.jar_path == jar
}

/// Whether such a piece is among the evidence.
pub open spec fn told(
    found: Seq<EvidenceView>,
    source: CrashEvidenceSource,
    line: Seq<char>,
    mod_id: Option<Seq<char>>,
    jar: Option<Seq<char>>,
) -> bool {
    exists|k: int| 0 <= k < found.len() && is_told(#[trigger] found[k], source, line, mod_id, jar)
}

/// Whether a line is something, a marker that does not stand in it earlier, and a
/// rest.
pub open spec fn marked(line: Seq<char>, a: Seq<char>, marker: Seq<char>, rest: Seq<char>) -> bool {
    &&& line == a + marker + rest
    &&& forall|i: int| 0 <= i < a.len() ==> !text::occurs_at(line, marker, i)
}

/// Whether a rest is a name with white space around it.
pub open spec fn names(rest: Seq<char>, id: Seq<char>) -> bool {
    text_laws::is_core(id) && exists|l: Seq<char>, r: Seq<char>|
        text_laws::is_blank(l) && text_laws::is_blank(r) && rest == #[trigger] text_laws::around(
            l,
            id,
            r,
        )
}

proof fn lemma_named_after(line: Seq<char>, a: Seq<char>, marker: Seq<char>, rest: Seq<char>, id: Seq<char>)
    requires
        marked(line, a, marker, rest),
        names(rest, id),
    ensures
        crash_evidence::after_prefix(line, marker) == Some(id),
{
    text_laws::lemma_find_at(a, marker, rest);
    let at = a.len() + marker.len();
    assert(line.subrange(at as int, line.len() as int) =~= rest);
    let (l, r) = choose|l: Seq<char>, r: Seq<char>|
        text_laws::is_blank(l) && text_laws::is_blank(r) && rest == #[trigger] text_laws::around(
            l,
            id,
            r,
        );
    text_laws::law_trim(l, id, r);
}

proof fn lemma_no_marker(line: Seq<char>, marker: Seq<char>)
    requires
        !text::contains(line, marker),
    ensures
        crash_evidence::after_prefix(line, marker) is None,
        forall|end: Seq<char>| (#[trigger] crash_evidence::between(line, marker, end)) is None,
{
}

proof fn lemma_named_between(
    line: Seq<char>,
    a: Seq<char>,
    start: Seq<char>,
    id: Seq<char>,
    end: Seq<char>,
    b: Seq<char>,
)
    requires
        marked(line, a, start, id + end + b),
        id.len() > 0,
        forall|i: int| 0 <= i < id.len() ==> !text::occurs_at(id + end + b, end, i),
    ensures
        crash_evidence::between(line, start, end) == Some(id),
{
    let rest = id + end + b;
    text_laws::lemma_find_at(a, start, rest);
    let at = a.len() + start.len();
    assert(line.subrange(at as int, line.len() as int) =~= rest);
    text_laws::lemma_find_at(id, end, b);
    assert(rest.subrange(0, id.len() as int) =~= id);
}

proof fn lemma_no_end(line: Seq<char>, start: Seq<char>, end: Seq<char>)
    requires
        !text::contains(line, end),
    ensures
        crash_evidence::between(line, start, end) is None,
{
    text::lemma_find_from(line, start, 0);
    match text::find(line, start) {
        None => {},
        Some(pos) => {
            let at = pos + start.len();
            let rest = line.subrange(at, line.len() as int);
            if text::contains(rest, end) {
                let head = line.take(at);
                text_laws::law_contains_grows(head, rest, seq![], end);
                assert(head + rest + Seq::<char>::empty() =~= line);
            }
        },
    }
}

proof fn lemma_gathered(
    lines: Seq<Seq<char>>,
    f: spec_fn(Seq<char>) -> Seq<EvidenceView>,
    n: int,
    k: int,
    x: int,
)
    requires
        0 <= k < n <= lines.len(),
        0 <= x < f(lines[k]).len(),
    ensures
        exists|y: int|
            0 <= y < crash_evidence::gathered(lines, f, n).len()
                && #[trigger] crash_evidence::gathered(lines, f, n)[y] == f(lines[k])[x],
    decreases n,
{
    let prev = crash_evidence::gathered(lines, f, n - 1);
    let now = crash_evidence::gathered(lines, f, n);
    if k == n - 1 {
        assert(now[prev.len() + x] == f(lines[k])[x]);
    } else {
        lemma_gathered(lines, f, n - 1, k, x);
        let y = choose|y: int|
            0 <= y < prev.len() && #[trigger] prev[y] == f(lines[k])[x];
        assert(now[y] == f(lines[k])[x]);
    }
}

proof fn lemma_told_in_log(
    log: Seq<char>,
    line: Seq<char>,
    source: CrashEvidenceSource,
    id: Seq<char>,
)
    requires
        text_laws::stands_as_line(log, line),
        text_laws::can_be_line(line),
        told(crash_evidence::explicit_mod(line), source, line, Some(id), None),
    ensures
        told(crash_evidence::explicit_mods(log), source, line, Some(id), None),
{
    text_laws::law_line_is_found(log, line);
    let l = text::lines(log);
    let n = l.len() as int;
    let k = choose|k: int| 0 <= k < l.len() && l[k] == line;
    let f = |line: Seq<char>| crash_evidence::explicit_mod(line);
    let one = crash_evidence::explicit_mod(line);
    assert(f(l[k]) == one);
    let x = choose|x: int|
        0 <= x < one.len() && is_told(#[trigger] one[x], source, line, Some(id), None);
    let all = crash_evidence::gathered(l, f, n);
    lemma_gathered(l, f, n, k, x);
    let y = choose|y: int| 0 <= y < all.len() && #[trigger] all[y] == one[x];
    assert(is_told(all[y], source, line, Some(id), None));
    assert(all == crash_evidence::explicit_mods(log));
}

/// A line with `Mod ID:` and a name after it is a message of the loader about
/// that mod, in whatever log it stands.
pub proof fn law_mod_id_line_names_the_mod(
    log: Seq<char>,
    line: Seq<char>,
    a: Seq<char>,
    rest: Seq<char>,
    id: Seq<char>,
)
    requires
        text_laws::stands_as_line(log, line),
        text_laws::can_be_line(line),
        marked(line, a, "Mod ID:"@, rest),
        names(rest, id),
    ensures
        told(
            crash_evidence::explicit_mods(log),
            CrashEvidenceSource::LoaderDiagnostic,
            line,
            Some(id),
            None,
        ),
{
    lemma_named_after(line, a, "Mod ID:"@, rest, id);
    assert(is_told(
        crash_evidence::explicit_mod(line)[0],
        CrashEvidenceSource::LoaderDiagnostic,
        line,
        Some(id),
        None,
    ));
    lemma_told_in_log(log, line, CrashEvidenceSource::LoaderDiagnostic, id);
}

/// A line that says of a mod that it has failed is a message of the loader about
/// that mod, in whatever log it stands.
pub proof fn law_has_failed_line_names_the_mod(
    log: Seq<char>,
    line: Seq<char>,
    a: Seq<char>,
    id: Seq<char>,
    b: Seq<char>,
)
    requires
        text_laws::stands_as_line(log, line),
        text_laws::can_be_line(line),
        marked(line, a, "Mod "@, id + " has failed"@ + b),
        id.len() > 0,
        forall|i: int|
            0 <= i < id.len() ==> !text::occurs_at(id + " has failed"@ + b, " has failed"@, i),
        !text::contains(line, "Mod ID:"@),
    ensures
        told(
            crash_evidence::explicit_mods(log),
            CrashEvidenceSource::LoaderDiagnostic,
            line,
            Some(id),
            None,
        ),
{
    lemma_no_marker(line, "Mod ID:"@);
    lemma_named_between(line, a, "Mod "@, id, " has failed"@, b);
    assert(is_told(
        crash_evidence::explicit_mod(line)[0],
        CrashEvidenceSource::LoaderDiagnostic,
        line,
        Some(id),
        None,
    ));
    lemma_told_in_log(log, line, CrashEvidenceSource::LoaderDiagnostic, id);
}

/// A line with `Failed to load mod:` and a name after it is a message of the
/// loader about that mod, in whatever log it stands.
pub proof fn law_failed_to_load_line_names_the_mod(
    log: Seq<char>,
    line: Seq<char>,
    a: Seq<char>,
    rest: Seq<char>,
    id: Seq<char>,
)
    requires
        text_laws::stands_as_line(log, line),
        text_laws::can_be_line(line),
        marked(line, a, "Failed to load mod:"@, rest),
        names(rest, id),
        !text::contains(line, "Mod ID:"@),
        !text::contains(line, " has failed"@),
    ensures
        told(
            crash_evidence::explicit_mods(log),
            CrashEvidenceSource::LoaderDiagnostic,
            line,
            Some(id),
            None,
        ),
{
    lemma_no_marker(line, "Mod ID:"@);
    lemma_no_end(line, "Mod "@, " has failed"@);
    lemma_named_after(line, a, "Failed to load mod:"@, rest, id);
    assert(is_told(
        crash_evidence::explicit_mod(line)[0],
        CrashEvidenceSource::LoaderDiagnostic,
        line,
        Some(id),
        None,
    ));
    lemma_told_in_log(log, line, CrashEvidenceSource::LoaderDiagnostic, id);
}

/// A line that says of an entry point that it could not be executed, and who
/// provides it, is about the provider, in whatever log it stands.
pub proof fn law_entrypoint_line_names_the_mod(
    log: Seq<char>,
    line: Seq<char>,
    a: Seq<char>,
    id: Seq<char>,
    b: Seq<char>,
)
    requires
        text_laws::stands_as_line(log, line),
        text_laws::can_be_line(line),
        text::contains(line, "Could not execute entrypoint"@),
        marked(line, a, "provided by '"@, id + "'"@ + b),
        id.len() > 0,
        forall|k: int| 0 <= k < id.len() ==> id[k] != '\'',
        !text::contains(line, "Mod ID:"@),
        !text::contains(line, " has failed"@),
        !text::contains(line, "Failed to load mod:"@),
    ensures
        told(
            crash_evidence::explicit_mods(log),
            CrashEvidenceSource::EntrypointCrash,
            line,
            Some(id),
            None,
        ),
{
    lemma_no_marker(line, "Mod ID:"@);
    lemma_no_marker(line, "Failed to load mod:"@);
    lemma_no_end(line, "Mod "@, " has failed"@);
    lemma_no_quote(id, b);
    lemma_named_between(line, a, "provided by '"@, id, "'"@, b);
    assert(is_told(
        crash_evidence::explicit_mod(line)[0],
        CrashEvidenceSource::EntrypointCrash,
        line,
        Some(id),
        None,
    ));
    lemma_told_in_log(log, line, CrashEvidenceSource::EntrypointCrash, id);
}

proof fn lemma_no_quote(id: Seq<char>, b: Seq<char>)
    requires
        forall|k: int| 0 <= k < id.len() ==> id[k] != '\'',
    ensures
        forall|i: int| 0 <= i < id.len() ==> !text::occurs_at(id + "'"@ + b, "'"@, i),
{
    reveal_strlit("'");
    let s = id + "'"@ + b;
    assert forall|i: int| 0 <= i < id.len() implies !text::occurs_at(s, "'"@, i) by {
        if text::occurs_at(s, "'"@, i) {
            text_laws::lemma_occurs_char(s, "'"@, i, 0);
            assert(s[i] == id[i]);
        }
    }
}

/// A line with `A mod crashed on startup:` and a name after it is about that mod,
/// in whatever log it stands.
pub proof fn law_startup_line_names_the_mod(
    log: Seq<char>,
    line: Seq<char>,
    a: Seq<char>,
    rest: Seq<char>,
    id: Seq<char>,
)
    requires
        text_laws::stands_as_line(log, line),
        text_laws::can_be_line(line),
        marked(line, a, "A mod crashed on startup:"@, rest),
        names(rest, id),
        !text::contains(line, "Mod ID:"@),
        !text::contains(line, " has failed"@),
        !text::contains(line, "Failed to load mod:"@),
        !text::contains(line, "Could not execute entrypoint"@),
    ensures
        told(
            crash_evidence::explicit_mods(log),
            CrashEvidenceSource::EntrypointCrash,
            line,
            Some(id),
            None,
        ),
{
    lemma_no_marker(line, "Mod ID:"@);
    lemma_no_marker(line, "Failed to load mod:"@);
    lemma_no_end(line, "Mod "@, " has failed"@);
    lemma_named_after(line, a, "A mod crashed on startup:"@, rest, id);
    assert(is_told(
        crash_evidence::explicit_mod(line)[0],
        CrashEvidenceSource::EntrypointCrash,
        line,
        Some(id),
        None,
    ));
    lemma_told_in_log(log, line, CrashEvidenceSource::EntrypointCrash, id);
}

/// Whether a line has one of the markers by which a mod is named outright.
pub open spec fn has_marker(line: Seq<char>) -> bool {
    ||| text::contains(line, "Mod ID:"@)
    ||| text::contains(line, "Mod "@) && text::contains(line, " has failed"@)
    ||| text::contains(line, "Failed to load mod:"@)
    ||| text::contains(line, "provided by '"@) && text::contains(
        line,
        "Could not execute entrypoint"@,
    )
    ||| text::contains(line, "A mod crashed on startup:"@)
}

/// A line without any of the markers names no mod outright; one with some names
/// one at most, and that name stands in the line.
pub proof fn law_no_marker_no_mod(line: Seq<char>)
    ensures
        !has_marker(line) ==> crash_evidence::explicit_mod(line).len() == 0,
        crash_evidence::explicit_mod(line).len() <= 1,
        crash_evidence::explicit_mod(line).len() == 1 ==> ({
            let e = crash_evidence::explicit_mod(line)[0];
            &&& e.matched_text == line
            &&& e.jar_path is None
            &&& e.mod_id is Some
            &&& e.mod_id->0.len() > 0
            &&& text::contains(line, e.mod_id->0)
            &&& e.source == CrashEvidenceSource::LoaderDiagnostic || e.source
                == CrashEvidenceSource::EntrypointCrash
        }),
{
    if !has_marker(line) {
        lemma_no_marker(line, "Mod ID:"@);
        lemma_no_marker(line, "Failed to load mod:"@);
        lemma_no_marker(line, "A mod crashed on startup:"@);
        if !text::contains(line, "Mod "@) {
            lemma_no_marker(line, "Mod "@);
        } else {
            lemma_no_end(line, "Mod "@, " has failed"@);
        }
        if !text::contains(line, "provided by '"@) {
            lemma_no_marker(line, "provided by '"@);
        }
    }
    lemma_after_is_part(line, "Mod ID:"@);
    lemma_after_is_part(line, "Failed to load mod:"@);
    lemma_after_is_part(line, "A mod crashed on startup:"@);
    lemma_between_is_part(line, "Mod "@, " has failed"@);
    lemma_between_is_part(line, "provided by '"@, "'"@);
}

proof fn lemma_after_is_part(line: Seq<char>, marker: Seq<char>)
    ensures
        crash_evidence::after_prefix(line, marker) is Some ==> crash_evidence::after_prefix(
            line,
            marker,
        )->0.len() > 0 && text::contains(line, crash_evidence::after_prefix(line, marker)->0),
{
    text::lemma_find_from(line, marker, 0);
    match text::find(line, marker) {
        None => {},
        Some(pos) => {
            let at = pos + marker.len();
            let rest = line.subrange(at, line.len() as int);
            let core = text::trim(rest);
            text_laws::law_trim_leaves_a_core(rest);
            let (l, r) = choose|l: Seq<char>, r: Seq<char>|
                text_laws::is_blank(l) && text_laws::is_blank(r) && rest
                    == #[trigger] text_laws::around(l, core, r);
            text_laws::law_contains_what_was_put_in(line.take(at) + l, core, r);
            assert(line.take(at) + l + core + r =~= line.take(at) + rest);
            assert(line.take(at) + rest =~= line);
        },
    }
}

proof fn lemma_between_is_part(line: Seq<char>, start: Seq<char>, end: Seq<char>)
    ensures
        crash_evidence::between(line, start, end) is Some ==> crash_evidence::between(
            line,
            start,
            end,
        )->0.len() > 0 && text::contains(line, crash_evidence::between(line, start, end)->0),
{
    text::lemma_find_from(line, start, 0);
    match text::find(line, start) {
        None => {},
        Some(pos) => {
            let at = pos + start.len();
            let rest = line.subrange(at, line.len() as int);
            text::lemma_find_from(rest, end, 0);
            match text::find(rest, end) {
                None => {},
                Some(e) => {
                    let id = rest.subrange(0, e);
                    text_laws::law_contains_what_was_put_in(line.take(at), id, rest.skip(e));
                    assert(line.take(at) + id + rest.skip(e) =~= line);
                },
            }
        },
    }
}

// ---------------------------------------------------------------------
// Logs that speak of one mod
// ---------------------------------------------------------------------

/// Whether a line says nothing of JARs, mixins or stack frames.
pub open spec fn is_plain(line: Seq<char>) -> bool {
    &&& !text::contains(line, ".jar"@)
    &&& !text::contains(text::folded(text::trim(line)), "mixin config"@)
    &&& !text::contains(line, "InvalidMixinException"@)
    &&& !text::contains(line, "MixinApplyError"@)
    &&& !text::starts_with(text::trim(line), "at "@)
}

/// Whether a line has none of the markers by which mods and files are named.
pub open spec fn is_silent(line: Seq<char>) -> bool {
    &&& !text::contains(line, "Mod ID:"@)
    &&& !text::contains(line, "Mod File:"@)
    &&& !text::contains(line, " has failed"@)
    &&& !text::contains(line, "Failed to load mod:"@)
    &&& !text::contains(line, "provided by '"@)
    &&& !text::contains(line, "A mod crashed on startup:"@)
}

/// Whether a line names a mod after a marker.
pub open spec fn says_after(line: Seq<char>, marker: Seq<char>, id: Seq<char>) -> bool {
    exists|a: Seq<char>, rest: Seq<char>| #[trigger]
        marked(line, a, marker, rest) && names(rest, id)
}

/// Whether a line names a mod between two markers.
pub open spec fn says_between(
    line: Seq<char>,
    start: Seq<char>,
    id: Seq<char>,
    end: Seq<char>,
) -> bool {
    exists|a: Seq<char>, b: Seq<char>| #[trigger] names_between(line, a, start, id, end, b)
}

/// Whether a line is something, a marker, a name, another marker and a rest.
pub open spec fn names_between(
    line: Seq<char>,
    a: Seq<char>,
    start: Seq<char>,
    id: Seq<char>,
    end: Seq<char>,
    b: Seq<char>,
) -> bool {
    &&& marked(line, a, start, id + end + b)
    &&& id.len() > 0
    &&& forall|i: int| 0 <= i < id.len() ==> !text::occurs_at(id + end + b, end, i)
}

/// Whether a line names a mod, and nothing else: it has one of the markers, and
/// the mod's name is where the marker says.
pub open spec fn says(line: Seq<char>, id: Seq<char>) -> bool {
    &&& text_laws::is_core(line)
    &&& !text::contains(line, "Mod File:"@)
    &&& {
        ||| says_after(line, "Mod ID:"@, id) && !text::contains(line, "provided by '"@)
            && !text::contains(line, "A mod crashed on startup:"@)
        ||| says_between(line, "Mod "@, id, " has failed"@) && !text::contains(line, "Mod ID:"@)
            && !text::contains(line, "provided by '"@) && !text::contains(
            line,
            "A mod crashed on startup:"@,
        )
        ||| says_after(line, "Failed to load mod:"@, id) && !text::contains(line, "Mod ID:"@)
            && !text::contains(line, " has failed"@) && !text::contains(line, "provided by '"@)
            && !text::contains(line, "A mod crashed on startup:"@)
        ||| says_between(line, "provided by '"@, id, "'"@) && text::contains(
            line,
            "Could not execute entrypoint"@,
        ) && !text::contains(line, "Mod ID:"@) && !text::contains(line, " has failed"@)
            && !text::contains(line, "Failed to load mod:"@) && !text::contains(
            line,
            "A mod crashed on startup:"@,
        )
        ||| says_after(line, "A mod crashed on startup:"@, id) && !text::contains(line, "Mod ID:"@)
            && !text::contains(line, " has failed"@) && !text::contains(
            line,
            "Failed to load mod:"@,
        ) && !text::contains(line, "provided by '"@)
    }
}

/// Whether evidence names this mod outright, and no JAR.
pub open spec fn is_for(e: EvidenceView, id: Seq<char>) -> bool {
    &&& e.mod_id == Some(id)
    &&& e.jar_path is None
    &&& e.source == CrashEvidenceSource::LoaderDiagnostic || e.source
        == CrashEvidenceSource::EntrypointCrash || e.source
        == CrashEvidenceSource::ModLoadingException
}

/// Whether all evidence names this mod outright, and no JAR.
pub open spec fn all_for(found: Seq<EvidenceView>, id: Seq<char>) -> bool {
    forall|k: int| 0 <= k < found.len() ==> is_for(#[trigger] found[k], id)
}

proof fn lemma_trim_contains(s: Seq<char>, p: Seq<char>)
    requires
        !text::contains(s, p),
    ensures
        !text::contains(text::trim(s), p),
{
    text_laws::law_trim_leaves_a_core(s);
    let core = text::trim(s);
    let (l, r) = choose|l: Seq<char>, r: Seq<char>|
        text_laws::is_blank(l) && text_laws::is_blank(r) && s == #[trigger] text_laws::around(
            l,
            core,
            r,
        );
    if text::contains(core, p) {
        text_laws::law_contains_grows(l, core, r, p);
    }
}

proof fn lemma_trim_core(line: Seq<char>)
    requires
        text_laws::is_core(line),
    ensures
        text::trim(line) == line,
{
    text_laws::lemma_trim_plain(line);
}

proof fn lemma_said_after(line: Seq<char>, marker: Seq<char>, id: Seq<char>)
    requires
        says_after(line, marker, id),
    ensures
        crash_evidence::after_prefix(line, marker) == Some(id),
{
    let (a, rest) = choose|a: Seq<char>, rest: Seq<char>| #[trigger]
        marked(line, a, marker, rest) && names(rest, id);
    lemma_named_after(line, a, marker, rest, id);
}

proof fn lemma_said_between(line: Seq<char>, start: Seq<char>, id: Seq<char>, end: Seq<char>)
    requires
        says_between(line, start, id, end),
    ensures
        crash_evidence::between(line, start, end) == Some(id),
{
    let (a, b) = choose|a: Seq<char>, b: Seq<char>| #[trigger]
        names_between(line, a, start, id, end, b);
    lemma_named_between(line, a, start, id, end, b);
}

/// What the parsers make of a line that names a mod.
proof fn lemma_says(line: Seq<char>, id: Seq<char>)
    requires
        says(line, id),
    ensures
        crash_evidence::explicit_mod(line).len() == 1,
        all_for(crash_evidence::explicit_mod(line), id),
        crash_evidence::after_prefix(text::trim(line), "Mod ID:"@) is Some
            ==> crash_evidence::after_prefix(text::trim(line), "Mod ID:"@) == Some(id),
        crash_evidence::after_prefix(text::trim(line), "Mod File:"@) is None,
        crash_evidence::between(text::trim(line), "provided by '"@, "'"@) is Some
            ==> crash_evidence::between(text::trim(line), "provided by '"@, "'"@) == Some(id),
        crash_evidence::after_prefix(text::trim(line), "A mod crashed on startup:"@) is Some
            ==> crash_evidence::after_prefix(text::trim(line), "A mod crashed on startup:"@)
            == Some(id),
{
    lemma_trim_core(line);
    lemma_no_marker(line, "Mod File:"@);
    if !text::contains(line, "Mod ID:"@) {
        lemma_no_marker(line, "Mod ID:"@);
    }
    if !text::contains(line, "provided by '"@) {
        lemma_no_marker(line, "provided by '"@);
    }
    if !text::contains(line, "Failed to load mod:"@) {
        lemma_no_marker(line, "Failed to load mod:"@);
    }
    if !text::contains(line, "A mod crashed on startup:"@) {
        lemma_no_marker(line, "A mod crashed on startup:"@);
    }
    if !text::contains(line, " has failed"@) {
        lemma_no_end(line, "Mod "@, " has failed"@);
    }
    if says_after(line, "Mod ID:"@, id) {
        lemma_said_after(line, "Mod ID:"@, id);
    }
    if says_after(line, "Failed to load mod:"@, id) {
        lemma_said_after(line, "Failed to load mod:"@, id);
    }
    if says_after(line, "A mod crashed on startup:"@, id) {
        lemma_said_after(line, "A mod crashed on startup:"@, id);
    }
    if says_between(line, "Mod "@, id, " has failed"@) {
        lemma_said_between(line, "Mod "@, id, " has failed"@);
    }
    if says_between(line, "provided by '"@, id, "'"@) {
        lemma_said_between(line, "provided by '"@, id, "'"@);
    }
}

/// What the parsers make of a line that is silent.
proof fn lemma_silent(line: Seq<char>)
    requires
        is_silent(line),
    ensures
        crash_evidence::explicit_mod(line).len() == 0,
        crash_evidence::after_prefix(text::trim(line), "Mod ID:"@) is None,
        crash_evidence::after_prefix(text::trim(line), "Mod File:"@) is None,
        crash_evidence::between(text::trim(line), "provided by '"@, "'"@) is None,
        crash_evidence::after_prefix(text::trim(line), "A mod crashed on startup:"@) is None,
{
    let t = text::trim(line);
    lemma_trim_contains(line, "Mod ID:"@);
    lemma_trim_contains(line, "Mod File:"@);
    lemma_trim_contains(line, "provided by '"@);
    lemma_trim_contains(line, "A mod crashed on startup:"@);
    lemma_no_marker(t, "Mod ID:"@);
    lemma_no_marker(t, "Mod File:"@);
    lemma_no_marker(t, "provided by '"@);
    lemma_no_marker(t, "A mod crashed on startup:"@);
    lemma_no_marker(line, "Mod ID:"@);
    lemma_no_marker(line, "Failed to load mod:"@);
    lemma_no_marker(line, "provided by '"@);
    lemma_no_marker(line, "A mod crashed on startup:"@);
    lemma_no_end(line, "Mod "@, " has failed"@);
}

/// What the parsers make of a plain line.
proof fn lemma_plain(line: Seq<char>, jars: Seq<JarView>, seen: Set<Seq<char>>)
    requires
        is_plain(line),
    ensures
        crash_evidence::jar_line(line).len() == 0,
        crash_evidence::mixin_line(jars, line).len() == 0,
        crash_evidence::frame_owner(text::trim(line), seen, jars) is None,
{
    lemma_trim_contains(line, ".jar"@);
    lemma_trim_contains(line, "InvalidMixinException"@);
    lemma_trim_contains(line, "MixinApplyError"@);
}

/// Whether each line is plain, and is silent or names this mod.
pub open spec fn lines_speak_of(lines: Seq<Seq<char>>, id: Seq<char>) -> bool {
    forall|n: int|
        0 <= n < lines.len() ==> is_plain(#[trigger] lines[n]) && (is_silent(lines[n]) || says(
            lines[n],
            id,
        ))
}

proof fn lemma_gathered_for(
    lines: Seq<Seq<char>>,
    f: spec_fn(Seq<char>) -> Seq<EvidenceView>,
    id: Seq<char>,
    n: int,
)
    requires
        0 <= n <= lines.len(),
        forall|k: int| 0 <= k < lines.len() ==> all_for(f(#[trigger] lines[k]), id),
    ensures
        all_for(crash_evidence::gathered(lines, f, n), id),
    decreases n,
{
    if n > 0 {
        lemma_gathered_for(lines, f, id, n - 1);
        let prev = crash_evidence::gathered(lines, f, n - 1);
        let more = f(lines[n - 1]);
        assert(all_for(more, id));
        assert forall|k: int| 0 <= k < (prev + more).len() implies is_for(
            #[trigger] (prev + more)[k],
            id,
        ) by {
            if k < prev.len() {
                assert((prev + more)[k] == prev[k]);
            } else {
                assert((prev + more)[k] == more[k - prev.len()]);
            }
        }
    }
}

proof fn lemma_joined_for(a: Seq<EvidenceView>, b: Seq<EvidenceView>, id: Seq<char>)
    requires
        all_for(a, id),
        all_for(b, id),
    ensures
        all_for(a + b, id),
{
    assert forall|k: int| 0 <= k < (a + b).len() implies is_for(#[trigger] (a + b)[k], id) by {
        if k < a.len() {
            assert((a + b)[k] == a[k]);
        } else {
            assert((a + b)[k] == b[k - a.len()]);
        }
    }
}

proof fn lemma_id_before(lines: Seq<Seq<char>>, id: Seq<char>, j: int, i: int)
    requires
        lines_speak_of(lines, id),
        0 <= j,
        i <= lines.len(),
    ensures
        crash_evidence::id_before(lines, j, i) is Some ==> crash_evidence::id_before(lines, j, i)
            == Some(id),
    decreases i - j,
{
    if j < i {
        if is_silent(lines[j]) {
            lemma_silent(lines[j]);
        } else {
            lemma_says(lines[j], id);
        }
        lemma_id_before(lines, id, j + 1, i);
    }
}

proof fn lemma_loading_for(lines: Seq<Seq<char>>, id: Seq<char>, n: int)
    requires
        lines_speak_of(lines, id),
        0 <= n <= lines.len(),
    ensures
        all_for(crash_evidence::loading_below(lines, n), id),
    decreases n,
{
    if n > 0 {
        lemma_loading_for(lines, id, n - 1);
        let i = n - 1;
        if is_silent(lines[i]) {
            lemma_silent(lines[i]);
        } else {
            lemma_says(lines[i], id);
        }
        let from = if i >= 5 {
            i - 5
        } else {
            0
        };
        lemma_id_before(lines, id, from, i);
        let line = text::trim(lines[i]);
        let source = CrashEvidenceSource::ModLoadingException;
        let p1 = crash_evidence::at_most_one(
            source,
            line,
            crash_evidence::after_prefix(line, "Mod ID:"@),
        );
        let p3 = if text::starts_with(line, "Failure message:"@) {
            crash_evidence::at_most_one(source, line, crash_evidence::id_before(lines, from, i))
        } else {
            seq![]
        };
        assert(all_for(p1, id) && all_for(p3, id));
        lemma_joined_for(p1, p3, id);
        assert(p1 + Seq::<EvidenceView>::empty() + p3 =~= p1 + p3);
        lemma_joined_for(crash_evidence::loading_below(lines, n - 1), p1 + p3, id);
    }
}

proof fn lemma_entrypoint_for(lines: Seq<Seq<char>>, id: Seq<char>, n: int)
    requires
        lines_speak_of(lines, id),
        0 <= n <= lines.len(),
    ensures
        all_for(crash_evidence::entrypoint_below(lines, n), id),
    decreases n,
{
    if n > 0 {
        lemma_entrypoint_for(lines, id, n - 1);
        if is_silent(lines[n - 1]) {
            lemma_silent(lines[n - 1]);
        } else {
            lemma_says(lines[n - 1], id);
        }
        let line = text::trim(lines[n - 1]);
        let source = CrashEvidenceSource::EntrypointCrash;
        let found = crash_evidence::entrypoint_below(lines, n - 1);
        let p = crash_evidence::at_most_one(
            source,
            line,
            crash_evidence::between(line, "provided by '"@, "'"@),
        );
        let q = crash_evidence::at_most_one(
            source,
            line,
            crash_evidence::after_prefix(line, "A mod crashed on startup:"@),
        );
        assert(all_for(p, id) && all_for(q, id));
        lemma_joined_for(found, p, id);
        lemma_joined_for(found, q, id);
        lemma_joined_for(found + p, q, id);
        lemma_joined_for(found + q, p, id);
        lemma_joined_for(found + p + q, p, id);
    }
}

proof fn lemma_no_frames(lines: Seq<Seq<char>>, id: Seq<char>, jars: Seq<JarView>, n: int)
    requires
        lines_speak_of(lines, id),
        0 <= n <= lines.len(),
    ensures
        crash_evidence::frames_below(lines, jars, n).len() == 0,
    decreases n,
{
    if n > 0 {
        lemma_no_frames(lines, id, jars, n - 1);
        lemma_plain(lines[n - 1], jars, crash_evidence::seen_below(lines, jars, n - 1));
    }
}

/// All evidence of a log that speaks of one mod is for that mod, and there is
/// some where a line names it.
proof fn lemma_evidence_for(log: Seq<char>, jars: Seq<JarView>, id: Seq<char>, k: int)
    requires
        lines_speak_of(text::lines(log), id),
        0 <= k < text::lines(log).len(),
        says(text::lines(log)[k], id),
    ensures
        all_for(crash_attribution::all_evidence(log, jars), id),
        crash_attribution::all_evidence(log, jars).len() > 0,
{
    let l = text::lines(log);
    let n = l.len() as int;
    let f = |line: Seq<char>| crash_evidence::explicit_mod(line);
    let g = |line: Seq<char>| crash_evidence::jar_line(line);
    let h = |line: Seq<char>| crash_evidence::mixin_line(jars, line);
    assert forall|x: int| 0 <= x < l.len() implies all_for(f(#[trigger] l[x]), id) && all_for(
        g(l[x]),
        id,
    ) && all_for(h(l[x]), id) by {
        lemma_plain(l[x], jars, Set::empty());
        if is_silent(l[x]) {
            lemma_silent(l[x]);
        } else {
            lemma_says(l[x], id);
        }
    }
    lemma_gathered_for(l, f, id, n);
    lemma_gathered_for(l, g, id, n);
    lemma_gathered_for(l, h, id, n);
    lemma_loading_for(l, id, n);
    lemma_entrypoint_for(l, id, n);
    lemma_no_frames(l, id, jars, n);
    lemma_says(l[k], id);
    assert(f(l[k]) == crash_evidence::explicit_mod(l[k]));
    lemma_gathered(l, f, n, k, 0);
    let a = crash_evidence::explicit_mods(log);
    let b = crash_evidence::explicit_jars(log);
    let c = crash_evidence::loading_errors(log);
    let d = crash_evidence::entrypoint_crashes(log);
    let e = crash_evidence::mixin_errors(log, jars);
    let s = crash_evidence::stack_frames(log, jars);
    assert(a == crash_evidence::gathered(l, f, n));
    assert(b == crash_evidence::gathered(l, g, n));
    assert(e == crash_evidence::gathered(l, h, n));
    lemma_joined_for(a, b, id);
    lemma_joined_for(a + b, c, id);
    lemma_joined_for(a + b + c, d, id);
    lemma_joined_for(a + b + c + d, e, id);
    lemma_joined_for(a + b + c + d + e, s, id);
}

/// Whether this JAR, and no other, declares the mod.
pub open spec fn declares_alone(jars: Seq<JarView>, id: Seq<char>, j: int) -> bool {
    &&& 0 <= j < jars.len()
    &&& exists|m: int| 0 <= m < jars[j].mod_ids.len() && #[trigger] jars[j].mod_ids[m] == id
    &&& forall|x: int, m: int|
        0 <= x < jars.len() && 0 <= m < jars[x].mod_ids.len()
            && #[trigger] jars[x].mod_ids[m] == id ==> x == j
}

proof fn lemma_sole_owner(jars: Seq<JarView>, id: Seq<char>, j: int, n: int)
    requires
        declares_alone(jars, id, j),
        0 <= n <= jars.len(),
    ensures
        jar_index::owners_below(jars, id, n) == (if j < n {
            seq![j]
        } else {
            Seq::<int>::empty()
        }),
    decreases n,
{
    if n > 0 {
        lemma_sole_owner(jars, id, j, n - 1);
        let m = choose|m: int|
            0 <= m < jars[j].mod_ids.len() && #[trigger] jars[j].mod_ids[m] == id;
        if jars[n - 1].mod_ids.contains(id) {
            let ids = jars[n - 1].mod_ids;
            let y = choose|y: int| 0 <= y < ids.len() && ids[y] == id;
            assert(jars[n - 1].mod_ids[y] == id);
        }
        assert(jars[j].mod_ids.contains(id));
        assert(Seq::<int>::empty().push(j) =~= seq![j]);
    }
}

/// Evidence that names one mod outright, which one JAR declares, makes one
/// candidate: that mod, in that JAR.
proof fn lemma_one_candidate(
    evidence: Seq<EvidenceView>,
    jars: Seq<JarView>,
    id: Seq<char>,
    j: int,
    n: int,
)
    requires
        all_for(evidence, id),
        declares_alone(jars, id, j),
        0 < n <= evidence.len(),
    ensures
        ({
            let m = crash_attribution::merged(evidence, jars, n);
            &&& m.len() == 1
            &&& m[0].mod_id == Some(id)
            &&& m[0].jar_path == Some(jars[j].path)
            &&& m[0].evidence.len() > 0
            &&& m[0].evidence[0] == evidence[0]
            &&& forall|k: int|
                0 <= k < m[0].evidence.len() ==> is_for(#[trigger] m[0].evidence[k], id)
            &&& m[0].is_client_only == crash_attribution::fresh(
                jars,
                Some(id),
                Some(jars[j].path),
            ).is_client_only
        }),
    decreases n,
{
    let e = evidence[n - 1];
    assert(is_for(e, id));
    lemma_sole_owner(jars, id, j, jars.len() as int);
    assert(crash_attribution::evidence_jar(jars, e) == Some(jars[j].path));
    assert(crash_attribution::evidence_mod(jars, e) == Some(id));
    if n > 1 {
        lemma_one_candidate(evidence, jars, id, j, n - 1);
    } else {
        assert(crash_attribution::merged(evidence, jars, 0).len() == 0);
    }
}

proof fn lemma_jar_at(jars: Seq<JarView>, j: int, i: int)
    requires
        0 <= i <= j < jars.len(),
        forall|x: int| 0 <= x < jars.len() && x != j ==> (#[trigger] jars[x]).path != jars[j].path,
    ensures
        jar_index::jar_index(jars, jars[j].path, i) == j,
    decreases j - i,
{
    if i < j {
        lemma_jar_at(jars, j, i + 1);
    }
}

/// Whether a report identifies a mod in a JAR, and is sure of it.
pub open spec fn identifies(r: ReportView, id: Seq<char>, path: Seq<char>) -> bool {
    &&& r.status == CrashAttributionStatus::Attributed
    &&& r.confidence == CrashAttributionConfidence::High
    &&& r.primary_candidate is Some
    &&& r.primary_candidate->0.mod_id == Some(id)
    &&& r.primary_candidate->0.jar_path == Some(path)
    &&& r.candidates == seq![r.primary_candidate->0]
}

/// A crash whose log names one mod outright, by any of the loaders' messages and
/// among whatever silent lines, is attributed to that mod, and surely, where one
/// JAR declares it; the advice is to look at that mod or, where the JAR is for
/// clients only, that it must not be there.
pub proof fn law_named_mod_is_identified(
    log: Seq<char>,
    jars: Seq<JarView>,
    id: Seq<char>,
    k: int,
    j: int,
)
    requires
        lines_speak_of(text::lines(log), id),
        0 <= k < text::lines(log).len(),
        says(text::lines(log)[k], id),
        declares_alone(jars, id, j),
        forall|x: int| 0 <= x < jars.len() && x != j ==> (#[trigger] jars[x]).path != jars[j].path,
    ensures
        identifies(crash_attribution::report(log, jars), id, jars[j].path),
        crash_attribution::report(log, jars).recommendation == (if jars[j].compatibility
            == ServerCompatibility::ClientOnly {
            RecommendationView::UnexpectedClientOnlyPresent(Some(id), Some(jars[j].path))
        } else {
            RecommendationView::ReviewMod(id, Some(jars[j].path))
        }),
{
    let ev = crash_attribution::all_evidence(log, jars);
    lemma_evidence_for(log, jars, id, k);
    lemma_one_candidate(ev, jars, id, j, ev.len() as int);
    lemma_sole_owner(jars, id, j, jars.len() as int);
    lemma_jar_at(jars, j, 0);
    let m = crash_attribution::merged(ev, jars, ev.len() as int);
    assert(crash_attribution::ranked(m, 0).len() == 0);
    assert(crash_attribution::ranked(m, 1) =~= seq![m[0]]);
    let cands = crash_attribution::candidates_for(ev, jars);
    assert(cands =~= seq![m[0]]);
    assert(is_for(m[0].evidence[0], id));
    assert(crash_attribution::has_explicit_mod(m[0]));
    assert forall|x: int| 0 <= x < m[0].evidence.len() implies !crash_attribution::names_jar(
        #[trigger] m[0].evidence[x],
    ) by {
        assert(is_for(m[0].evidence[x], id));
    }
    assert(!crash_attribution::contradicts_itself(m[0], jars));
    assert(!crash_attribution::strong_ones_disagree(cands));
}

/// A crash whose log says nothing of mods, JARs, mixins or stack frames is
/// attributed to nothing.
pub proof fn law_silence_identifies_nothing(log: Seq<char>, jars: Seq<JarView>)
    requires
        forall|n: int|
            0 <= n < text::lines(log).len() ==> is_plain(#[trigger] text::lines(log)[n])
                && is_silent(text::lines(log)[n]),
    ensures
        ({
            let r = crash_attribution::report(log, jars);
            &&& r.status == CrashAttributionStatus::Unknown
            &&& r.confidence == CrashAttributionConfidence::Low
            &&& r.candidates.len() == 0
            &&& r.primary_candidate is None
            &&& r.recommendation == RecommendationView::NoSafeRecommendation
        }),
{
    let l = text::lines(log);
    let ev = crash_attribution::all_evidence(log, jars);
    let x = seq!['x'];
    let y = seq!['y'];
    lemma_evidence_of_silence(log, jars, x);
    lemma_evidence_of_silence(log, jars, y);
    if ev.len() > 0 {
        assert(is_for(ev[0], x) && is_for(ev[0], y));
        assert(x[0] != y[0]);
    }
    assert(crash_attribution::merged(ev, jars, 0).len() == 0);
    assert(crash_attribution::candidates_for(ev, jars).len() == 0);
}

proof fn lemma_evidence_of_silence(log: Seq<char>, jars: Seq<JarView>, id: Seq<char>)
    requires
        forall|n: int|
            0 <= n < text::lines(log).len() ==> is_plain(#[trigger] text::lines(log)[n])
                && is_silent(text::lines(log)[n]),
    ensures
        all_for(crash_attribution::all_evidence(log, jars), id),
{
    let l = text::lines(log);
    let n = l.len() as int;
    let f = |line: Seq<char>| crash_evidence::explicit_mod(line);
    let g = |line: Seq<char>| crash_evidence::jar_line(line);
    let h = |line: Seq<char>| crash_evidence::mixin_line(jars, line);
    assert forall|x: int| 0 <= x < l.len() implies all_for(f(#[trigger] l[x]), id) && all_for(
        g(l[x]),
        id,
    ) && all_for(h(l[x]), id) by {
        lemma_plain(l[x], jars, Set::empty());
        lemma_silent(l[x]);
    }
    lemma_gathered_for(l, f, id, n);
    lemma_gathered_for(l, g, id, n);
    lemma_gathered_for(l, h, id, n);
    lemma_loading_for(l, id, n);
    lemma_entrypoint_for(l, id, n);
    lemma_no_frames(l, id, jars, n);
    let a = crash_evidence::explicit_mods(log);
    let b = crash_evidence::explicit_jars(log);
    let c = crash_evidence::loading_errors(log);
    let d = crash_evidence::entrypoint_crashes(log);
    let e = crash_evidence::mixin_errors(log, jars);
    let s = crash_evidence::stack_frames(log, jars);
    assert(a == crash_evidence::gathered(l, f, n));
    assert(b == crash_evidence::gathered(l, g, n));
    assert(e == crash_evidence::gathered(l, h, n));
    lemma_joined_for(a, b, id);
    lemma_joined_for(a + b, c, id);
    lemma_joined_for(a + b + c, d, id);
    lemma_joined_for(a + b + c + d, e, id);
    lemma_joined_for(a + b + c + d + e, s, id);
}

// ---------------------------------------------------------------------
// Loading errors
// ---------------------------------------------------------------------

proof fn lemma_loading_told(lines: Seq<Seq<char>>, n: int, k: int, x: int)
    requires
        0 <= k < n <= lines.len(),
        0 <= x < crash_evidence::loading_line(lines, k).len(),
    ensures
        exists|y: int|
            0 <= y < crash_evidence::loading_below(lines, n).len()
                && #[trigger] crash_evidence::loading_below(lines, n)[y]
                == crash_evidence::loading_line(lines, k)[x],
    decreases n,
{
    let prev = crash_evidence::loading_below(lines, n - 1);
    let now = crash_evidence::loading_below(lines, n);
    let e = crash_evidence::loading_line(lines, k)[x];
    if k == n - 1 {
        assert(now[prev.len() + x] == e);
    } else {
        lemma_loading_told(lines, n - 1, k, x);
        let y = choose|y: int| 0 <= y < prev.len() && #[trigger] prev[y] == e;
        assert(now[y] == e);
    }
}

/// In a log with a loading error, a line with `Mod ID:` names the mod and a line
/// with `Mod File:` the file; in a log without one no line does so in this way.
pub proof fn law_loading_error_names_mod_and_file(
    log: Seq<char>,
    k: int,
    a: Seq<char>,
    rest: Seq<char>,
    name: Seq<char>,
)
    requires
        0 <= k < text::lines(log).len(),
        names(rest, name),
    ensures
        text::contains(log, "ModLoading"@) && marked(
            text::trim(text::lines(log)[k]),
            a,
            "Mod ID:"@,
            rest,
        ) ==> told(
            crash_evidence::loading_errors(log),
            CrashEvidenceSource::ModLoadingException,
            text::trim(text::lines(log)[k]),
            Some(name),
            None,
        ),
        text::contains(log, "ModLoading"@) && marked(
            text::trim(text::lines(log)[k]),
            a,
            "Mod File:"@,
            rest,
        ) ==> told(
            crash_evidence::loading_errors(log),
            CrashEvidenceSource::ModLoadingException,
            text::trim(text::lines(log)[k]),
            None,
            Some(name),
        ),
        !text::contains(log, "ModLoading"@) ==> crash_evidence::loading_errors(log).len() == 0,
{
    let l = text::lines(log);
    let n = l.len() as int;
    let line = text::trim(l[k]);
    let source = CrashEvidenceSource::ModLoadingException;
    let all = crash_evidence::loading_below(l, n);
    let own = crash_evidence::loading_line(l, k);
    if marked(line, a, "Mod ID:"@, rest) {
        lemma_named_after(line, a, "Mod ID:"@, rest, name);
        assert(own[0] == crash_evidence::evidence(source, line, Some(name), None));
        lemma_loading_told(l, n, k, 0);
        let y = choose|y: int| 0 <= y < all.len() && #[trigger] all[y] == own[0];
        assert(is_told(all[y], source, line, Some(name), None));
    }
    if marked(line, a, "Mod File:"@, rest) {
        lemma_named_after(line, a, "Mod File:"@, rest, name);
        let first = crash_evidence::at_most_one(
            source,
            line,
            crash_evidence::after_prefix(line, "Mod ID:"@),
        );
        let x = first.len() as int;
        assert(own[x] == crash_evidence::evidence(source, line, None, Some(name)));
        lemma_loading_told(l, n, k, x);
        let y = choose|y: int| 0 <= y < all.len() && #[trigger] all[y] == own[x];
        assert(is_told(all[y], source, line, None, Some(name)));
    }
    if !text::contains(log, "ModLoading"@) {
        if text::contains(log, "ModLoadingException"@) {
            reveal_strlit("ModLoading");
            reveal_strlit("Exception");
            reveal_strlit("ModLoadingException");
            assert("ModLoadingException"@ =~= "ModLoading"@ + "Exception"@);
            text::lemma_contains(log, "ModLoadingException"@);
            let i = choose|i: int| text::occurs_at(log, "ModLoadingException"@, i);
            let w = "ModLoadingException"@;
            assert(log.subrange(i, i + 10) =~= log.subrange(i, i + w.len()).subrange(0, 10));
            assert(w.subrange(0, 10) =~= "ModLoading"@);
            assert(text::occurs_at(log, "ModLoading"@, i));
            text::lemma_contains(log, "ModLoading"@);
        }
    }
}

// ---------------------------------------------------------------------
// JARs that a log names
// ---------------------------------------------------------------------

/// Whether a character ends a path in a log: white space, a quote or a round
/// bracket.
pub open spec fn parts_words(c: char) -> bool {
    text::is_ws(c) || c == '"' || c == '\'' || c == '(' || c == ')'
}

/// Whether a line holds the path of a JAR, as `dir`, a slash, `name` and `.jar`,
/// after `pre` and before `post`: the path is a word of its own, and the first of
/// its kind.
pub open spec fn holds_path(
    line: Seq<char>,
    pre: Seq<char>,
    dir: Seq<char>,
    name: Seq<char>,
    post: Seq<char>,
) -> bool {
    &&& line == pre + dir + seq!['/'] + name + ".jar"@ + post
    &&& pre.len() > 0 ==> parts_words(pre.last())
    &&& forall|k: int| 0 <= k < dir.len() ==> !parts_words(#[trigger] dir[k])
    &&& name.len() > 0
    &&& forall|k: int| 0 <= k < name.len() ==> #[trigger] name[k] != '/' && name[k] != '\\'
    &&& post.len() > 0 ==> !text::is_alnum(post[0]) && post[0] != '_' && post[0] != '-'
    &&& forall|i: int|
        0 <= i < pre.len() + dir.len() + 1 + name.len() ==> !text::occurs_at(line, ".jar"@, i)
    &&& !text::contains(pre + dir, "File:"@)
    &&& !text::contains(pre + dir, "mods/"@)
    &&& !text::contains(dir + seq!['/'] + name + ".jar"@, ".."@)
    &&& dir.len() >= 2 ==> dir[1] != ':'
    &&& dir.len() == 1 ==> !text::is_ascii_letter(dir[0])
}

proof fn lemma_last_stop_at(s: Seq<char>, ws: bool, set: Seq<char>, end: int, at: int)
    requires
        -1 <= at < end <= s.len(),
        at >= 0 ==> (ws && text::is_ws(s[at])) || set.contains(s[at]),
        forall|k: int|
            at < k < end ==> !((ws && text::is_ws(#[trigger] s[k])) || set.contains(s[k])),
    ensures
        text::last_stop(s, ws, set, end) == at,
    decreases end - at,
{
    if end - 1 > at {
        assert(!((ws && text::is_ws(s[end - 1])) || set.contains(s[end - 1])));
        if at == -1 && end - 1 == 0 {
            assert(text::last_stop(s, ws, set, 0) == -1);
        } else {
            lemma_last_stop_at(s, ws, set, end - 1, at);
        }
    }
}

proof fn lemma_rfind_none(s: Seq<char>, p: Seq<char>, end: int)
    requires
        !text::contains(s, p),
    ensures
        text::rfind_before(s, p, end) == -1,
    decreases end,
{
    if end > 0 {
        text::lemma_contains(s, p);
        assert(!text::occurs_at(s, p, end - 1));
        lemma_rfind_none(s, p, end - 1);
    }
}

/// The path of a JAR that a line holds is read from it whole, whatever stands
/// before and after it.
pub proof fn law_jar_path_is_read(
    line: Seq<char>,
    pre: Seq<char>,
    dir: Seq<char>,
    name: Seq<char>,
    post: Seq<char>,
)
    requires
        holds_path(line, pre, dir, name, post),
        text_laws::is_core(dir + seq!['/'] + name + ".jar"@),
    ensures
        crash_evidence::jar_path_in(line) == Some(dir + seq!['/'] + name + ".jar"@),
{
    reveal_strlit(".jar");
    reveal_strlit("/\\");
    reveal_strlit("\"'()");
    let path = dir + seq!['/'] + name + ".jar"@;
    let head = pre + dir + seq!['/'] + name;
    let slash = (pre.len() + dir.len()) as int;
    let pos = head.len() as int;
    let stop = pos + 4;
    assert(line =~= head + ".jar"@ + post);
    text_laws::lemma_find_at(head, ".jar"@, post);
    let set = "/\\"@;
    assert(set[0] == '/' && set[1] == '\\');
    assert(line[slash] == '/');
    assert(set.contains('/'));
    assert forall|k: int| slash < k < stop implies !((false && text::is_ws(#[trigger] line[k]))
        || set.contains(line[k])) by {
        if k < pos {
            assert(line[k] == name[k - slash - 1]);
        } else {
            assert(line[k] == ".jar"@[k - pos]);
        }
        if set.contains(line[k]) {
            let q = choose|q: int| 0 <= q < set.len() && set[q] == line[k];
            assert(q == 0 || q == 1);
        }
    }
    lemma_last_stop_at(line, false, set, stop, slash);
    let before = line.subrange(0, slash);
    assert(before =~= pre + dir);
    lemma_rfind_none(before, "File:"@, before.len() as int + 1);
    lemma_rfind_none(before, "mods/"@, before.len() as int + 1);
    let quotes = "\"'()"@;
    let at = pre.len() - 1;
    assert(quotes[0] == '"' && quotes[1] == '\'' && quotes[2] == '(' && quotes[3] == ')');
    assert forall|k: int| at < k < slash implies !((true && text::is_ws(#[trigger] before[k]))
        || quotes.contains(before[k])) by {
        assert(before[k] == dir[k - pre.len()]);
        if quotes.contains(before[k]) {
            let q = choose|q: int| 0 <= q < quotes.len() && quotes[q] == before[k];
            assert(q == 0 || q == 1 || q == 2 || q == 3);
        }
    }
    if at >= 0 {
        assert(before[at] == pre.last());
        assert(quotes.contains('"') && quotes.contains('\'') && quotes.contains('(')
            && quotes.contains(')'));
    }
    if slash > 0 {
        lemma_last_stop_at(before, true, quotes, slash, at);
    } else {
        assert(text::last_stop(before, true, quotes, slash) == -1);
    }
    assert(line.subrange(pre.len() as int, stop) =~= path);
    text_laws::lemma_trim_plain(path);
    if post.len() > 0 {
        assert(line[stop] == post[0]);
    }
    assert(path.len() >= 2);
    if dir.len() >= 2 {
        assert(path[1] == dir[1]);
    } else if dir.len() == 1 {
        assert(path[0] == dir[0]);
    } else {
        assert(path[0] == '/');
    }
}

/// A line of a log that holds the path of a JAR is evidence against that path.
pub proof fn law_jar_line_is_evidence(
    log: Seq<char>,
    k: int,
    pre: Seq<char>,
    dir: Seq<char>,
    name: Seq<char>,
    post: Seq<char>,
)
    requires
        0 <= k < text::lines(log).len(),
        holds_path(text::trim(text::lines(log)[k]), pre, dir, name, post),
        text_laws::is_core(dir + seq!['/'] + name + ".jar"@),
    ensures
        told(
            crash_evidence::explicit_jars(log),
            CrashEvidenceSource::ExplicitJarPath,
            text::trim(text::lines(log)[k]),
            None,
            Some(dir + seq!['/'] + name + ".jar"@),
        ),
{
    let l = text::lines(log);
    let n = l.len() as int;
    let line = text::trim(l[k]);
    let path = dir + seq!['/'] + name + ".jar"@;
    law_jar_path_is_read(line, pre, dir, name, post);
    let f = |raw: Seq<char>| crash_evidence::jar_line(raw);
    assert(f(l[k]) == crash_evidence::jar_line(l[k]));
    lemma_gathered(l, f, n, k, 0);
    let all = crash_evidence::gathered(l, f, n);
    let y = choose|y: int| 0 <= y < all.len() && #[trigger] all[y] == f(l[k])[0];
    assert(is_told(all[y], CrashEvidenceSource::ExplicitJarPath, line, None, Some(path)));
    assert(all == crash_evidence::explicit_jars(log));
}

/// A line without `.jar`, or without a slash or backslash before it, names no
/// JAR; nor is a path taken that goes up.
pub proof fn law_no_jar_without_a_path(line: Seq<char>)
    ensures
        !text::contains(line, ".jar"@) ==> crash_evidence::jar_path_in(line) is None,
        (forall|k: int| 0 <= k < line.len() ==> #[trigger] line[k] != '/' && line[k] != '\\')
            ==> crash_evidence::jar_path_in(line) is None,
        crash_evidence::jar_path_in(line) is Some ==> !text::contains(
            crash_evidence::jar_path_in(line)->0,
            ".."@,
        ) && text_laws::is_core(crash_evidence::jar_path_in(line)->0),
{
    reveal_strlit(".jar");
    reveal_strlit("/\\");
    text::lemma_find_from(line, ".jar"@, 0);
    match text::find(line, ".jar"@) {
        None => {},
        Some(pos) => {
            let stop = pos + 4;
            let set = "/\\"@;
            if forall|k: int| 0 <= k < line.len() ==> #[trigger] line[k] != '/' && line[k] != '\\' {
                assert forall|k: int| -1 < k < stop implies !((false && text::is_ws(
                    #[trigger] line[k],
                )) || set.contains(line[k])) by {
                    if set.contains(line[k]) {
                        let q = choose|q: int| 0 <= q < set.len() && set[q] == line[k];
                        assert(q == 0 || q == 1);
                    }
                }
                lemma_last_stop_at(line, false, set, stop, -1);
            }
            let slash = text::last_stop(line, false, "/\\"@, stop);
            text_laws::law_trim_leaves_a_core(
                line.subrange(crash_evidence::path_start(line, slash), stop),
            );
        },
    }
}

// ---------------------------------------------------------------------
// Where evidence leads
// ---------------------------------------------------------------------

/// Evidence that names a mod leads to that mod; and to the JAR that declares it,
/// where one alone does, and to none where none or two do.
pub proof fn law_named_mod_leads_to_its_jar(jars: Seq<JarView>, e: EvidenceView, id: Seq<char>, j: int)
    requires
        e.mod_id == Some(id),
        e.jar_path is None,
    ensures
        crash_attribution::evidence_mod(jars, e) == Some(id),
        declares_alone(jars, id, j) ==> crash_attribution::evidence_jar(jars, e) == Some(
            jars[j].path,
        ),
        (forall|x: int, m: int|
            0 <= x < jars.len() && 0 <= m < jars[x].mod_ids.len() ==> #[trigger] jars[x].mod_ids[m]
                != id) ==> crash_attribution::evidence_jar(jars, e) is None,
{
    if declares_alone(jars, id, j) {
        lemma_sole_owner(jars, id, j, jars.len() as int);
    }
    if forall|x: int, m: int|
        0 <= x < jars.len() && 0 <= m < jars[x].mod_ids.len() ==> #[trigger] jars[x].mod_ids[m]
            != id {
        lemma_no_owner(jars, id, jars.len() as int);
    }
}

proof fn lemma_no_owner(jars: Seq<JarView>, id: Seq<char>, n: int)
    requires
        0 <= n <= jars.len(),
        forall|x: int, m: int|
            0 <= x < jars.len() && 0 <= m < jars[x].mod_ids.len() ==> #[trigger] jars[x].mod_ids[m]
                != id,
    ensures
        jar_index::owners_below(jars, id, n).len() == 0,
    decreases n,
{
    if n > 0 {
        lemma_no_owner(jars, id, n - 1);
        let ids = jars[n - 1].mod_ids;
        if ids.contains(id) {
            let y = choose|y: int| 0 <= y < ids.len() && ids[y] == id;
            assert(jars[n - 1].mod_ids[y] == id);
        }
    }
}

proof fn lemma_two_owners(jars: Seq<JarView>, id: Seq<char>, a: int, b: int, n: int)
    requires
        0 <= a < b < jars.len(),
        jars[a].mod_ids.contains(id),
        jars[b].mod_ids.contains(id),
        0 <= n <= jars.len(),
    ensures
        n > a ==> jar_index::owners_below(jars, id, n).len() >= 1,
        n > b ==> jar_index::owners_below(jars, id, n).len() >= 2,
    decreases n,
{
    if n > 0 {
        lemma_two_owners(jars, id, a, b, n - 1);
    }
}

/// Evidence that names a JAR leads to the JAR at that path and, where it declares
/// one mod alone and the evidence names none, to that mod.
pub proof fn law_named_jar_leads_to_its_mod(jars: Seq<JarView>, e: EvidenceView, j: int)
    requires
        0 <= j < jars.len(),
        e.jar_path == Some(jars[j].path),
        forall|x: int| 0 <= x < jars.len() && x != j ==> (#[trigger] jars[x]).path != jars[j].path,
    ensures
        crash_attribution::evidence_jar(jars, e) == Some(jars[j].path),
        e.mod_id is None && jars[j].mod_ids.len() == 1 ==> crash_attribution::evidence_mod(jars, e)
            == Some(jars[j].mod_ids[0]),
        e.mod_id is None && jars[j].mod_ids.len() != 1 ==> crash_attribution::evidence_mod(jars, e)
            is None,
        e.mod_id is Some ==> crash_attribution::evidence_mod(jars, e) == e.mod_id,
{
    lemma_jar_at(jars, j, 0);
}

/// Evidence that names a JAR of which only the file name is known here leads to
/// the JAR with that file name.
pub proof fn law_file_name_leads_to_the_jar(jars: Seq<JarView>, e: EvidenceView, name: Seq<char>, j: int)
    requires
        0 <= j < jars.len(),
        e.jar_path is Some,
        text::file_name(e.jar_path->0) == Some(name),
        text::file_name(jars[j].path) == Some(name),
        forall|x: int| 0 <= x < jars.len() ==> (#[trigger] jars[x]).path != e.jar_path->0,
        forall|x: int|
            0 <= x < jars.len() && x != j ==> text::file_name((#[trigger] jars[x]).path) != Some(
                name,
            ),
    ensures
        crash_attribution::evidence_jar(jars, e) == Some(jars[j].path),
{
    lemma_no_such_path(jars, e.jar_path->0, 0);
    lemma_named_at(jars, name, j, 0);
}

proof fn lemma_no_such_path(jars: Seq<JarView>, path: Seq<char>, i: int)
    requires
        0 <= i <= jars.len(),
        forall|x: int| 0 <= x < jars.len() ==> (#[trigger] jars[x]).path != path,
    ensures
        jar_index::jar_index(jars, path, i) == jars.len(),
    decreases jars.len() - i,
{
    if i < jars.len() {
        lemma_no_such_path(jars, path, i + 1);
    }
}

proof fn lemma_named_at(jars: Seq<JarView>, name: Seq<char>, j: int, i: int)
    requires
        0 <= i <= j < jars.len(),
        text::file_name(jars[j].path) == Some(name),
        forall|x: int|
            0 <= x < jars.len() && x != j ==> text::file_name((#[trigger] jars[x]).path) != Some(
                name,
            ),
    ensures
        jar_index::named_index(jars, name, i) == j,
    decreases j - i,
{
    if i < j {
        lemma_named_at(jars, name, j, i + 1);
    }
}

// ---------------------------------------------------------------------
// How strong evidence is, and what it decides
// ---------------------------------------------------------------------

/// Messages that name a mod outright weigh the most and all the same; a path of a
/// JAR less, but still enough by itself; mixins, stack frames and context less and
/// less, and none of them is enough by itself.
pub proof fn law_weights(e: CrashEvidenceSource)
    ensures
        crash_attribution::weight(CrashEvidenceSource::LoaderDiagnostic) == 100,
        e == CrashEvidenceSource::ModLoadingException || e == CrashEvidenceSource::EntrypointCrash
            ==> crash_attribution::weight(e) == crash_attribution::weight(
            CrashEvidenceSource::LoaderDiagnostic,
        ),
        crash_attribution::weight(e) <= crash_attribution::weight(
            CrashEvidenceSource::LoaderDiagnostic,
        ),
        crash_attribution::weight(CrashEvidenceSource::ExplicitJarPath) == 90,
        crash_attribution::weight(CrashEvidenceSource::MixinTarget) == 70,
        crash_attribution::weight(CrashEvidenceSource::StackFrame) == 30,
        crash_attribution::weight(CrashEvidenceSource::DependencyContext) == 20,
{
}

/// Where two candidates that are each strong enough by themselves are different
/// mods, none is identified.
pub proof fn law_two_strong_mods_are_ambiguous(
    cands: Seq<CandidateView>,
    jars: Seq<JarView>,
    a: int,
    b: int,
)
    requires
        0 <= a < cands.len(),
        0 <= b < cands.len(),
        cands[a].score >= 90,
        cands[b].score >= 90,
        cands[a].mod_id is Some,
        cands[b].mod_id is Some,
        cands[a].mod_id->0 != cands[b].mod_id->0,
    ensures
        crash_attribution::verdict(cands, jars).status == CrashAttributionStatus::Ambiguous,
        crash_attribution::verdict(cands, jars).primary is None,
{
    assert(crash_attribution::strong_ones_disagree(cands));
}

/// Where two JARs declare the mod of the strongest candidate, none is identified.
pub proof fn law_two_jars_of_a_mod_are_ambiguous(
    cands: Seq<CandidateView>,
    jars: Seq<JarView>,
    a: int,
    b: int,
)
    requires
        cands.len() > 0,
        cands[0].mod_id is Some,
        0 <= a < b < jars.len(),
        jars[a].mod_ids.contains(cands[0].mod_id->0),
        jars[b].mod_ids.contains(cands[0].mod_id->0),
    ensures
        crash_attribution::verdict(cands, jars).status == CrashAttributionStatus::Ambiguous,
        crash_attribution::verdict(cands, jars).primary is None,
{
    lemma_two_owners(jars, cands[0].mod_id->0, a, b, jars.len() as int);
}

/// A mod and a JAR that are named outright in the evidence against one candidate,
/// where the JAR declares other mods alone, contradict each other: nothing is
/// identified.
pub proof fn law_contradiction_is_ambiguous(
    cands: Seq<CandidateView>,
    jars: Seq<JarView>,
    c: int,
    x: int,
    y: int,
    j: int,
)
    requires
        0 <= c < cands.len(),
        0 <= x < cands[c].evidence.len(),
        0 <= y < cands[c].evidence.len(),
        cands[c].evidence[x].source == CrashEvidenceSource::LoaderDiagnostic,
        cands[c].evidence[x].mod_id is Some,
        cands[c].evidence[y].source == CrashEvidenceSource::ExplicitJarPath,
        cands[c].evidence[y].jar_path is Some,
        cands[c].mod_id is Some,
        0 <= j < jars.len(),
        cands[c].jar_path == Some(jars[j].path),
        forall|z: int| 0 <= z < jars.len() && z != j ==> (#[trigger] jars[z]).path != jars[j].path,
        jars[j].mod_ids.len() > 0,
        forall|m: int|
            0 <= m < jars[j].mod_ids.len() ==> #[trigger] jars[j].mod_ids[m] != cands[c].mod_id->0,
    ensures
        crash_attribution::verdict(cands, jars).status == CrashAttributionStatus::Ambiguous,
        crash_attribution::verdict(cands, jars).primary is None,
{
    lemma_jar_at(jars, j, 0);
    assert(crash_attribution::names_mod(cands[c].evidence[x]));
    assert(crash_attribution::names_jar(cands[c].evidence[y]));
    assert(crash_attribution::contradicts_itself(cands[c], jars));
}

/// A JAR that is named outright and declares several mods leaves open which of
/// them it was: nothing is identified.
pub proof fn law_jar_of_several_mods_is_ambiguous(
    cands: Seq<CandidateView>,
    jars: Seq<JarView>,
    j: int,
)
    requires
        cands.len() > 0,
        0 <= j < jars.len(),
        cands[0].mod_id is None,
        cands[0].jar_path == Some(jars[j].path),
        forall|z: int| 0 <= z < jars.len() && z != j ==> (#[trigger] jars[z]).path != jars[j].path,
        jars[j].mod_ids.len() > 1,
    ensures
        crash_attribution::verdict(cands, jars).status == CrashAttributionStatus::Ambiguous,
        crash_attribution::verdict(cands, jars).primary is None,
{
    lemma_jar_at(jars, j, 0);
}

/// One candidate alone, a mod that one JAR declares and against which there is a
/// path of that JAR, is identified, and surely.
pub proof fn law_sole_jar_is_identified(c: CandidateView, jars: Seq<JarView>, j: int, x: int)
    requires
        0 <= j < jars.len(),
        c.jar_path == Some(jars[j].path),
        jars[j].mod_ids.len() == 1,
        c.mod_id == Some(jars[j].mod_ids[0]),
        declares_alone(jars, jars[j].mod_ids[0], j),
        forall|z: int| 0 <= z < jars.len() && z != j ==> (#[trigger] jars[z]).path != jars[j].path,
        0 <= x < c.evidence.len(),
        c.evidence[x].source == CrashEvidenceSource::ExplicitJarPath,
        c.evidence[x].jar_path is Some,
    ensures
        ({
            let v = crash_attribution::verdict(seq![c], jars);
            &&& v.status == CrashAttributionStatus::Attributed
            &&& v.confidence == CrashAttributionConfidence::High
            &&& v.primary == Some(c)
        }),
{
    lemma_jar_at(jars, j, 0);
    lemma_sole_owner(jars, jars[j].mod_ids[0], j, jars.len() as int);
    assert(crash_attribution::names_jar(c.evidence[x]));
    assert(crash_attribution::has_explicit_jar(c));
    assert(jars[j].mod_ids.contains(jars[j].mod_ids[0]));
    assert(!crash_attribution::contradicts_itself(c, jars));
    assert(!crash_attribution::strong_ones_disagree(seq![c]));
    assert forall|k: int| 0 <= k < seq![c].len() implies !crash_attribution::contradicts_itself(
        #[trigger] seq![c][k],
        jars,
    ) by {
        assert(seq![c][k] == c);
    }
}

/// Mixins and stack frames that lead to a mod which one JAR declares identify it,
/// though not surely: where it is the only candidate, or stronger than the next;
/// and where it is as strong as the next, neither is picked.
pub proof fn law_weak_evidence_identifies_less_surely(
    cands: Seq<CandidateView>,
    jars: Seq<JarView>,
    id: Seq<char>,
    j: int,
)
    requires
        cands.len() > 0,
        cands[0].mod_id == Some(id),
        declares_alone(jars, id, j),
        cands[0].evidence.len() > 0,
        forall|c: int, k: int|
            #![trigger cands[c].evidence[k]]
            0 <= c < cands.len() && 0 <= k < cands[c].evidence.len()
                ==> cands[c].evidence[k].source == CrashEvidenceSource::MixinTarget
                || cands[c].evidence[k].source == CrashEvidenceSource::StackFrame,
        forall|c: int| 0 < c < cands.len() ==> (#[trigger] cands[c]).score < 90,
    ensures
        ({
            let v = crash_attribution::verdict(cands, jars);
            let alone = cands.len() == 1 || cands[0].score > cands[1].score;
            &&& v.confidence == CrashAttributionConfidence::Medium
            &&& alone ==> v.status == CrashAttributionStatus::Attributed && v.primary == Some(
                cands[0],
            )
            &&& !alone ==> v.status == CrashAttributionStatus::Ambiguous && v.primary is None
        }),
{
    lemma_sole_owner(jars, id, j, jars.len() as int);
    let top = cands[0];
    assert(top.evidence[0].source == CrashEvidenceSource::MixinTarget || top.evidence[0].source
        == CrashEvidenceSource::StackFrame) by {
        assert(cands[0].evidence[0].source == CrashEvidenceSource::MixinTarget
            || cands[0].evidence[0].source == CrashEvidenceSource::StackFrame);
    }
    assert forall|c: int| 0 <= c < cands.len() implies !crash_attribution::has_explicit_mod(
        #[trigger] cands[c],
    ) && !crash_attribution::has_explicit_jar(cands[c]) by {
        assert forall|k: int| 0 <= k < cands[c].evidence.len() implies
            !crash_attribution::names_mod(#[trigger] cands[c].evidence[k])
            && !crash_attribution::names_jar(cands[c].evidence[k]) by {
            assert(cands[c].evidence[k].source == CrashEvidenceSource::MixinTarget
                || cands[c].evidence[k].source == CrashEvidenceSource::StackFrame);
        }
    }
    assert(!crash_attribution::has_explicit_mod(top));
    if crash_attribution::strong_ones_disagree(cands) {
        let (a, b) = choose|a: int, b: int|
            0 <= a < cands.len() && 0 <= b < cands.len() && (#[trigger] cands[a]).score >= 90 && (
            #[trigger] cands[b]).score >= 90 && cands[a].mod_id is Some && cands[b].mod_id is Some
                && cands[a].mod_id != cands[b].mod_id;
        assert(a == 0 && b == 0);
    }
}

/// What a report advises follows from whether it identifies a mod: to look at
/// that mod and its JAR; where there are several, that the evidence contradicts
/// itself; where there is none, nothing. A mod for clients only that is
/// identified must not be there.
pub proof fn law_advice_follows_the_verdict(log: Seq<char>, jars: Seq<JarView>)
    ensures
        ({
            let r = crash_attribution::report(log, jars);
            &&& r.status == CrashAttributionStatus::Ambiguous ==> r.recommendation
                == RecommendationView::ConflictingEvidence
            &&& r.status == CrashAttributionStatus::Unknown ==> r.recommendation
                == RecommendationView::NoSafeRecommendation
            &&& r.status == CrashAttributionStatus::Attributed ==> {
                let p = r.primary_candidate->0;
                &&& r.primary_candidate is Some
                &&& p.is_client_only ==> r.recommendation
                    == RecommendationView::UnexpectedClientOnlyPresent(p.mod_id, p.jar_path)
                &&& !p.is_client_only && p.mod_id is Some ==> r.recommendation
                    == RecommendationView::ReviewMod(p.mod_id->0, p.jar_path)
            }
            &&& r.status != CrashAttributionStatus::Attributed ==> r.primary_candidate is None
        }),
{
    let v = crash_attribution::verdict(
        crash_attribution::candidates_for(crash_attribution::all_evidence(log, jars), jars),
        jars,
    );
    assert(v.primary is Some <==> v.status == CrashAttributionStatus::Attributed);
}

/// The sentence for people about a mod that is identified names it.
pub proof fn law_summary_names_the_mod(log: Seq<char>, jars: Seq<JarView>)
    ensures
        ({
            let r = crash_attribution::report(log, jars);
            r.primary_candidate is Some && r.primary_candidate->0.mod_id is Some
                ==> text::contains(r.summary, r.primary_candidate->0.mod_id->0)
        }),
{
    let r = crash_attribution::report(log, jars);
    if r.primary_candidate is Some && r.primary_candidate->0.mod_id is Some {
        let p = r.primary_candidate->0;
        let id = p.mod_id->0;
        let v = crash_attribution::verdict(
            crash_attribution::candidates_for(crash_attribution::all_evidence(log, jars), jars),
            jars,
        );
        assert(v.primary == Some(p));
        let n = text::dec(p.evidence.len());
        if p.is_client_only {
            text_laws::law_contains_what_was_put_in(
                "Pipeline invariant violation: ClientOnly mod "@,
                id,
                " was present during crash attribution"@,
            );
        } else if v.confidence == CrashAttributionConfidence::High {
            let a = "Likely responsible mod: "@;
            let b = " (confidence: High). Evidence: "@;
            let c = " items."@;
            text_laws::law_contains_what_was_put_in(a, id, b + n + c);
            assert(a + id + (b + n + c) =~= a + id + b + n + c);
        } else {
            let a = "Possible crash source: "@;
            let b = " (confidence: Medium). Evidence: "@;
            let c = " items."@;
            text_laws::law_contains_what_was_put_in(a, id, b + n + c);
            assert(a + id + (b + n + c) =~= a + id + b + n + c);
        }
    }
}

// ---------------------------------------------------------------------
// Entry points, failure messages, mixins and stack frames
// ---------------------------------------------------------------------

/// Whatever any of the parsers finds in a log counts.
pub proof fn law_all_evidence_counts(
    log: Seq<char>,
    jars: Seq<JarView>,
    source: CrashEvidenceSource,
    line: Seq<char>,
    mod_id: Option<Seq<char>>,
    jar: Option<Seq<char>>,
)
    requires
        told(crash_evidence::explicit_mods(log), source, line, mod_id, jar) || told(
            crash_evidence::explicit_jars(log),
            source,
            line,
            mod_id,
            jar,
        ) || told(crash_evidence::loading_errors(log), source, line, mod_id, jar) || told(
            crash_evidence::entrypoint_crashes(log),
            source,
            line,
            mod_id,
            jar,
        ) || told(crash_evidence::mixin_errors(log, jars), source, line, mod_id, jar) || told(
            crash_evidence::stack_frames(log, jars),
            source,
            line,
            mod_id,
            jar,
        ),
    ensures
        told(crash_attribution::all_evidence(log, jars), source, line, mod_id, jar),
{
    let a = crash_evidence::explicit_mods(log);
    let b = crash_evidence::explicit_jars(log);
    let c = crash_evidence::loading_errors(log);
    let d = crash_evidence::entrypoint_crashes(log);
    let e = crash_evidence::mixin_errors(log, jars);
    let s = crash_evidence::stack_frames(log, jars);
    lemma_told_left(a, b, source, line, mod_id, jar);
    lemma_told_left(a + b, c, source, line, mod_id, jar);
    lemma_told_left(a + b + c, d, source, line, mod_id, jar);
    lemma_told_left(a + b + c + d, e, source, line, mod_id, jar);
    lemma_told_left(a + b + c + d + e, s, source, line, mod_id, jar);
}

proof fn lemma_told_left(
    a: Seq<EvidenceView>,
    b: Seq<EvidenceView>,
    source: CrashEvidenceSource,
    line: Seq<char>,
    mod_id: Option<Seq<char>>,
    jar: Option<Seq<char>>,
)
    ensures
        told(a, source, line, mod_id, jar) ==> told(a + b, source, line, mod_id, jar),
        told(b, source, line, mod_id, jar) ==> told(a + b, source, line, mod_id, jar),
{
    if told(a, source, line, mod_id, jar) {
        let k = choose|k: int|
            0 <= k < a.len() && is_told(#[trigger] a[k], source, line, mod_id, jar);
        assert((a + b)[k] == a[k]);
    }
    if told(b, source, line, mod_id, jar) {
        let k = choose|k: int|
            0 <= k < b.len() && is_told(#[trigger] b[k], source, line, mod_id, jar);
        assert((a + b)[a.len() + k] == b[k]);
    }
}

/// A line that says that an entry point could not be executed, or that a mod
/// crashed on startup, is about the mod that it names; and so is one that speaks of
/// errors and who provided them.
pub proof fn law_entrypoint_crashes_name_the_mod(log: Seq<char>, k: int, id: Seq<char>)
    requires
        0 <= k < text::lines(log).len(),
    ensures
        ({
            let line = text::trim(text::lines(log)[k]);
            &&& text::contains(line, "Could not execute entrypoint"@) && says_between(
                line,
                "provided by '"@,
                id,
                "'"@,
            ) ==> told(
                crash_evidence::entrypoint_crashes(log),
                CrashEvidenceSource::EntrypointCrash,
                line,
                Some(id),
                None,
            )
            &&& says_after(line, "A mod crashed on startup:"@, id) ==> told(
                crash_evidence::entrypoint_crashes(log),
                CrashEvidenceSource::EntrypointCrash,
                line,
                Some(id),
                None,
            )
            &&& text::contains(line, "errors, provided by"@) && says_between(
                line,
                "provided by '"@,
                id,
                "'"@,
            ) ==> crash_evidence::names_mod(crash_evidence::entrypoint_crashes(log), id)
        }),
{
    let l = text::lines(log);
    let n = l.len() as int;
    let line = text::trim(l[k]);
    let source = CrashEvidenceSource::EntrypointCrash;
    let found = crash_evidence::entrypoint_below(l, k);
    let after = crash_evidence::entrypoint_below(l, k + 1);
    let provider = crash_evidence::between(line, "provided by '"@, "'"@);
    let p = crash_evidence::at_most_one(source, line, provider);
    let q = crash_evidence::at_most_one(
        source,
        line,
        crash_evidence::after_prefix(line, "A mod crashed on startup:"@),
    );
    let a = if text::contains(line, "Could not execute entrypoint"@) {
        found + p
    } else {
        found
    };
    lemma_told_left(found, p, source, line, Some(id), None);
    lemma_told_left(a, q, source, line, Some(id), None);
    lemma_told_left(a + q, p, source, line, Some(id), None);
    if says_between(line, "provided by '"@, id, "'"@) {
        lemma_said_between(line, "provided by '"@, id, "'"@);
        assert(is_told(p[0], source, line, Some(id), None));
        if text::contains(line, "Could not execute entrypoint"@) {
            assert(told(after, source, line, Some(id), None));
            lemma_entrypoint_stays(l, k + 1, n, source, line, id);
        }
        if text::contains(line, "errors, provided by"@) {
            if !crash_evidence::names_mod(a + q, id) {
                assert(told(after, source, line, Some(id), None));
                let x = choose|x: int|
                    0 <= x < after.len() && is_told(
                        #[trigger] after[x],
                        source,
                        line,
                        Some(id),
                        None,
                    );
                assert(after[x].mod_id == Some(id));
            }
            assert(crash_evidence::names_mod(after, id));
            lemma_named_stays(l, k + 1, n, id);
        }
    }
    if says_after(line, "A mod crashed on startup:"@, id) {
        lemma_said_after(line, "A mod crashed on startup:"@, id);
        assert(is_told(q[0], source, line, Some(id), None));
        assert(told(after, source, line, Some(id), None));
        lemma_entrypoint_stays(l, k + 1, n, source, line, id);
    }
}

proof fn lemma_entrypoint_grows(found: Seq<EvidenceView>, raw: Seq<char>)
    ensures
        found.is_prefix_of(crash_evidence::entrypoint_line(found, raw)),
{
    let line = text::trim(raw);
    let source = CrashEvidenceSource::EntrypointCrash;
    let p = crash_evidence::at_most_one(
        source,
        line,
        crash_evidence::between(line, "provided by '"@, "'"@),
    );
    let q = crash_evidence::at_most_one(
        source,
        line,
        crash_evidence::after_prefix(line, "A mod crashed on startup:"@),
    );
    assert(found.is_prefix_of(found + p));
    assert(found.is_prefix_of(found + q));
    assert(found.is_prefix_of(found + p + q));
    assert(found.is_prefix_of(found + q + p));
    assert(found.is_prefix_of(found + p + q + p));
}

proof fn lemma_entrypoint_stays(
    l: Seq<Seq<char>>,
    k: int,
    n: int,
    source: CrashEvidenceSource,
    line: Seq<char>,
    id: Seq<char>,
)
    requires
        0 <= k <= n <= l.len(),
        told(crash_evidence::entrypoint_below(l, k), source, line, Some(id), None),
    ensures
        told(crash_evidence::entrypoint_below(l, n), source, line, Some(id), None),
    decreases n - k,
{
    if k < n {
        let now = crash_evidence::entrypoint_below(l, k);
        let next = crash_evidence::entrypoint_below(l, k + 1);
        lemma_entrypoint_grows(now, l[k]);
        let x = choose|x: int|
            0 <= x < now.len() && is_told(#[trigger] now[x], source, line, Some(id), None);
        assert(next[x] == now[x]);
        lemma_entrypoint_stays(l, k + 1, n, source, line, id);
    }
}

proof fn lemma_named_stays(l: Seq<Seq<char>>, k: int, n: int, id: Seq<char>)
    requires
        0 <= k <= n <= l.len(),
        crash_evidence::names_mod(crash_evidence::entrypoint_below(l, k), id),
    ensures
        crash_evidence::names_mod(crash_evidence::entrypoint_below(l, n), id),
    decreases n - k,
{
    if k < n {
        let now = crash_evidence::entrypoint_below(l, k);
        let next = crash_evidence::entrypoint_below(l, k + 1);
        lemma_entrypoint_grows(now, l[k]);
        let x = choose|x: int| 0 <= x < now.len() && (#[trigger] now[x]).mod_id == Some(id);
        assert(next[x] == now[x]);
        lemma_named_stays(l, k + 1, n, id);
    }
}

/// A failure message in a loading error is about the mod that the nearest lines
/// name: of the five before it, the first that names one.
pub proof fn law_failure_message_is_about_the_mod(log: Seq<char>, i: int, j: int, id: Seq<char>)
    requires
        text::contains(log, "ModLoading"@),
        0 <= j < i < text::lines(log).len(),
        i - j <= 5,
        text::starts_with(text::trim(text::lines(log)[i]), "Failure message:"@),
        says_after(text::trim(text::lines(log)[j]), "Mod ID:"@, id),
        forall|x: int|
            0 <= x < j && i - x <= 5 ==> !text::contains(
                text::trim(#[trigger] text::lines(log)[x]),
                "Mod ID:"@,
            ),
    ensures
        told(
            crash_evidence::loading_errors(log),
            CrashEvidenceSource::ModLoadingException,
            text::trim(text::lines(log)[i]),
            Some(id),
            None,
        ),
{
    let l = text::lines(log);
    let n = l.len() as int;
    let line = text::trim(l[i]);
    let source = CrashEvidenceSource::ModLoadingException;
    let from = if i >= 5 {
        i - 5
    } else {
        0
    };
    lemma_said_after(text::trim(l[j]), "Mod ID:"@, id);
    lemma_id_found(l, from, j, i);
    let own = crash_evidence::loading_line(l, i);
    let x = own.len() - 1;
    assert(own[x] == crash_evidence::evidence(source, line, Some(id), None));
    lemma_loading_told(l, n, i, x);
    let all = crash_evidence::loading_below(l, n);
    let y = choose|y: int| 0 <= y < all.len() && #[trigger] all[y] == own[x];
    assert(is_told(all[y], source, line, Some(id), None));
}

proof fn lemma_id_found(l: Seq<Seq<char>>, from: int, j: int, i: int)
    requires
        0 <= from <= j < i <= l.len(),
        crash_evidence::after_prefix(text::trim(l[j]), "Mod ID:"@) is Some,
        forall|x: int|
            from <= x < j ==> !text::contains(text::trim(#[trigger] l[x]), "Mod ID:"@),
    ensures
        crash_evidence::id_before(l, from, i) == crash_evidence::after_prefix(
            text::trim(l[j]),
            "Mod ID:"@,
        ),
    decreases j - from,
{
    if from < j {
        lemma_no_marker(text::trim(l[from]), "Mod ID:"@);
        lemma_id_found(l, from + 1, j, i);
    }
}

proof fn lemma_hit(names: Seq<Seq<char>>, name: Seq<char>, pos: int, m: int, k: int)
    requires
        0 <= k < m <= names.len(),
        names[k] == name,
    ensures
        jar_index::name_hits(names, name, pos, m).len() > 0,
        jar_index::name_hits(names, name, pos, m)[0] == pos,
    decreases m,
{
    if k < m - 1 {
        lemma_hit(names, name, pos, m - 1, k);
    } else if m > 1 {
        lemma_hits_are_pos(names, name, pos, m - 1);
    } else {
        assert(jar_index::name_hits(names, name, pos, 0).len() == 0);
    }
}

proof fn lemma_hits_are_pos(names: Seq<Seq<char>>, name: Seq<char>, pos: int, m: int)
    requires
        0 <= m <= names.len(),
    ensures
        forall|x: int|
            0 <= x < jar_index::name_hits(names, name, pos, m).len()
                ==> #[trigger] jar_index::name_hits(names, name, pos, m)[x] == pos,
        jar_index::name_hits(names, name, pos, m).len() > 0 ==> names.contains(name),
    decreases m,
{
    if m > 0 {
        lemma_hits_are_pos(names, name, pos, m - 1);
        let prev = jar_index::name_hits(names, name, pos, m - 1);
        let now = jar_index::name_hits(names, name, pos, m);
        if names[m - 1] == name {
            assert(names.contains(name));
        }
        assert forall|x: int| 0 <= x < now.len() implies #[trigger] now[x] == pos by {
            if x < prev.len() {
                assert(now[x] == prev[x]);
            }
        }
    }
}

/// A JAR is found by the file name of a mixin configuration just where it holds one
/// of that name.
pub proof fn law_holders_of_a_configuration(
    jars: Seq<JarView>,
    name: Seq<char>,
    n: int,
    i: int,
    m: int,
)
    requires
        0 <= i < n <= jars.len(),
    ensures
        0 <= m < jars[i].resources.len() && jars[i].resources[m] == name
            ==> jar_index::holders_below(jars, name, n).contains(i),
        jar_index::holders_below(jars, name, n).contains(i) ==> jars[i].resources.contains(name),
    decreases n,
{
    let prev = jar_index::holders_below(jars, name, n - 1);
    let r = jars[n - 1].resources;
    let own = jar_index::name_hits(r, name, n - 1, r.len() as int);
    let now = jar_index::holders_below(jars, name, n);
    lemma_hits_are_pos(r, name, n - 1, r.len() as int);
    lemma_holders_below(jars, name, n - 1);
    if i < n - 1 {
        law_holders_of_a_configuration(jars, name, n - 1, i, m);
        if prev.contains(i) {
            let x = choose|x: int| 0 <= x < prev.len() && prev[x] == i;
            assert(now[x] == i);
        }
        if now.contains(i) {
            let x = choose|x: int| 0 <= x < now.len() && now[x] == i;
            if x >= prev.len() {
                assert(own[x - prev.len()] == n - 1);
            } else {
                assert(prev[x] == i);
            }
        }
    } else {
        if 0 <= m < r.len() && r[m] == name {
            lemma_hit(r, name, n - 1, r.len() as int, m);
            assert(now[prev.len() as int] == i);
        }
        if now.contains(i) {
            let x = choose|x: int| 0 <= x < now.len() && now[x] == i;
            if x < prev.len() {
                assert(prev[x] == i);
            }
        }
    }
}

proof fn lemma_holders_below(jars: Seq<JarView>, name: Seq<char>, n: int)
    requires
        0 <= n <= jars.len(),
    ensures
        forall|x: int|
            0 <= x < jar_index::holders_below(jars, name, n).len() ==> 0
                <= #[trigger] jar_index::holders_below(jars, name, n)[x] < n,
    decreases n,
{
    if n > 0 {
        lemma_holders_below(jars, name, n - 1);
        let r = jars[n - 1].resources;
        lemma_hits_are_pos(r, name, n - 1, r.len() as int);
        let prev = jar_index::holders_below(jars, name, n - 1);
        let own = jar_index::name_hits(r, name, n - 1, r.len() as int);
        let now = jar_index::holders_below(jars, name, n);
        assert forall|x: int| 0 <= x < now.len() implies 0 <= #[trigger] now[x] < n by {
            if x < prev.len() {
                assert(now[x] == prev[x]);
            } else {
                assert(now[x] == own[x - prev.len()]);
            }
        }
    }
}

/// Whether a line names a mixin configuration: `mixin config`, in whatever case,
/// that does not stand in it earlier, then blanks and the name.
pub open spec fn names_configuration(
    line: Seq<char>,
    a: Seq<char>,
    marker: Seq<char>,
    blanks: Seq<char>,
    name: Seq<char>,
) -> bool {
    &&& line == a + marker + (blanks + name)
    &&& text::folded(marker) == "mixin config"@
    &&& forall|i: int| 0 <= i < a.len() ==> !text::occurs_at(text::folded(line), "mixin config"@, i)
    &&& text_laws::is_blank(blanks)
    &&& text_laws::is_core(name)
    &&& name[0] != ':' && name[0] != '"' && name[0] != '\''
    &&& name.last() != '"' && name.last() != '\''
}

/// A line that names a mixin configuration points to every JAR that holds one of
/// that file name.
pub proof fn law_mixin_line_points_to_its_jars(
    jars: Seq<JarView>,
    raw: Seq<char>,
    a: Seq<char>,
    marker: Seq<char>,
    blanks: Seq<char>,
    name: Seq<char>,
    i: int,
    m: int,
)
    requires
        names_configuration(text::trim(raw), a, marker, blanks, name),
        0 <= i < jars.len(),
        0 <= m < jars[i].resources.len(),
        jars[i].resources[m] == jar_index::basename(name),
    ensures
        told(
            crash_evidence::mixin_line(jars, raw),
            CrashEvidenceSource::MixinTarget,
            text::trim(raw),
            None,
            Some(jars[i].path),
        ),
{
    let line = text::trim(raw);
    let low = "mixin config"@;
    let rest = blanks + name;
    let folded = text::folded(line);
    assert(folded =~= text::folded(a) + low + text::folded(rest));
    assert(text::folded(a).len() == a.len());
    text_laws::lemma_find_at(text::folded(a), low, text::folded(rest));
    assert(marker.len() == low.len()) by {
        assert(text::folded(marker).len() == marker.len());
    }
    let at = a.len() + low.len();
    assert(line.subrange(at as int, line.len() as int) =~= rest);
    assert(text_laws::is_blank(Seq::<char>::empty()));
    text_laws::law_trim(blanks, name, seq![]);
    assert(blanks + name + Seq::<char>::empty() =~= rest);
    text_laws::lemma_trim_plain(name);
    assert(text::skip(name, false, ':', 0) == 0);
    assert(name.subrange(0, name.len() as int) =~= name);
    assert(text::trim_start_char(name, ':') == name);
    assert(text::skip(name, false, '"', 0) == 0);
    assert(text::back(name, false, '"', 0, name.len() as int) == name.len());
    assert(text::trim_char(name, '"') == name);
    assert(text::skip(name, false, '\'', 0) == 0);
    assert(text::back(name, false, '\'', 0, name.len() as int) == name.len());
    assert(text::trim_char(name, '\'') == name);
    assert(crash_evidence::mixin_config_name(line) == name);
    let base = jar_index::basename(name);
    law_holders_of_a_configuration(jars, base, jars.len() as int, i, m);
    let h = jar_index::holders_below(jars, base, jars.len() as int);
    let x = choose|x: int| 0 <= x < h.len() && h[x] == i;
    let all = crash_evidence::mixin_line(jars, raw);
    assert(is_told(
        all[x],
        CrashEvidenceSource::MixinTarget,
        line,
        None,
        Some(jars[i].path),
    ));
}

/// A line with a mixin error that names no configuration is evidence that leads to
/// no mod.
pub proof fn law_mixin_error_without_a_name(jars: Seq<JarView>, raw: Seq<char>)
    requires
        !text::contains(text::folded(text::trim(raw)), "mixin config"@),
    ensures
        text::contains(text::trim(raw), "InvalidMixinException"@) || text::contains(
            text::trim(raw),
            "MixinApplyError"@,
        ) ==> told(
            crash_evidence::mixin_line(jars, raw),
            CrashEvidenceSource::MixinTarget,
            text::trim(raw),
            None,
            None,
        ),
        !text::contains(text::trim(raw), "InvalidMixinException"@) && !text::contains(
            text::trim(raw),
            "MixinApplyError"@,
        ) ==> crash_evidence::mixin_line(jars, raw).len() == 0,
{
    if text::contains(text::trim(raw), "InvalidMixinException"@) || text::contains(
        text::trim(raw),
        "MixinApplyError"@,
    ) {
        assert(is_told(
            crash_evidence::mixin_line(jars, raw)[0],
            CrashEvidenceSource::MixinTarget,
            text::trim(raw),
            None,
            None,
        ));
    }
}

/// Whether some mod ID of a JAR, in small letters, is a part of a package in small
/// letters.
pub open spec fn may_own(package: Seq<char>, jar: JarView) -> bool {
    exists|m: int|
        0 <= m < jar.mod_ids.len() && text::split(text::lowercased(package), '.').contains(
            text::lowercased(#[trigger] jar.mod_ids[m]),
        )
}

/// The JARs that a package may belong to are those one of whose mod IDs is a part
/// of it, and no others.
pub proof fn law_which_jars_a_package_may_belong_to(
    package: Seq<char>,
    jars: Seq<JarView>,
    n: int,
    i: int,
)
    requires
        0 <= i < n <= jars.len(),
    ensures
        crash_evidence::package_hits(package, jars, n).contains(i) <==> may_own(package, jars[i]),
    decreases n,
{
    let prev = crash_evidence::package_hits(package, jars, n - 1);
    let ids = jars[n - 1].mod_ids;
    let own = crash_evidence::jar_hits(package, ids, n - 1, ids.len() as int);
    let now = crash_evidence::package_hits(package, jars, n);
    lemma_jar_hits(package, ids, n - 1, ids.len() as int);
    lemma_package_hits_below(package, jars, n - 1);
    if i < n - 1 {
        law_which_jars_a_package_may_belong_to(package, jars, n - 1, i);
        if prev.contains(i) {
            let x = choose|x: int| 0 <= x < prev.len() && prev[x] == i;
            assert(now[x] == i);
        }
        if now.contains(i) {
            let x = choose|x: int| 0 <= x < now.len() && now[x] == i;
            if x >= prev.len() {
                assert(own[x - prev.len()] == n - 1);
            } else {
                assert(prev[x] == i);
            }
        }
    } else {
        if own.len() > 0 {
            assert(now[prev.len() as int] == own[0]);
        }
        if now.contains(i) {
            let x = choose|x: int| 0 <= x < now.len() && now[x] == i;
            if x < prev.len() {
                assert(prev[x] == i);
            }
        }
    }
}

proof fn lemma_jar_hits(package: Seq<char>, ids: Seq<Seq<char>>, pos: int, m: int)
    requires
        0 <= m <= ids.len(),
    ensures
        forall|x: int|
            0 <= x < crash_evidence::jar_hits(package, ids, pos, m).len()
                ==> #[trigger] crash_evidence::jar_hits(package, ids, pos, m)[x] == pos,
        crash_evidence::jar_hits(package, ids, pos, m).len() > 0 <==> exists|y: int|
            0 <= y < m && text::split(text::lowercased(package), '.').contains(
                text::lowercased(#[trigger] ids[y]),
            ),
    decreases m,
{
    if m > 0 {
        lemma_jar_hits(package, ids, pos, m - 1);
    }
}

proof fn lemma_package_hits_below(package: Seq<char>, jars: Seq<JarView>, n: int)
    requires
        0 <= n <= jars.len(),
    ensures
        forall|x: int|
            0 <= x < crash_evidence::package_hits(package, jars, n).len() ==> 0
                <= #[trigger] crash_evidence::package_hits(package, jars, n)[x] < n,
    decreases n,
{
    if n > 0 {
        lemma_package_hits_below(package, jars, n - 1);
        let ids = jars[n - 1].mod_ids;
        lemma_jar_hits(package, ids, n - 1, ids.len() as int);
        let prev = crash_evidence::package_hits(package, jars, n - 1);
        let own = crash_evidence::jar_hits(package, ids, n - 1, ids.len() as int);
        let now = crash_evidence::package_hits(package, jars, n);
        assert forall|x: int| 0 <= x < now.len() implies 0 <= #[trigger] now[x] < n by {
            if x < prev.len() {
                assert(now[x] == prev[x]);
            } else {
                assert(now[x] == own[x - prev.len()]);
            }
        }
    }
}

/// A stack frame is put down to a JAR only by a package of at least three parts
/// that was not found before and that may belong to that JAR and to no other; and
/// it is, where there is such a package.
pub proof fn law_frames_need_a_sole_owner(
    parts: Seq<Seq<char>>,
    seen: Set<Seq<char>>,
    jars: Seq<JarView>,
    len: int,
    j: int,
    k: int,
)
    requires
        0 <= len <= parts.len(),
    ensures
        crash_evidence::owned_package(parts, seen, jars, len) is Some ==> {
            let (package, at) = crash_evidence::owned_package(parts, seen, jars, len)->0;
            &&& !seen.contains(package)
            &&& 0 <= at < jars.len()
            &&& may_own(package, jars[at])
            &&& 0 <= j < jars.len() && may_own(package, jars[j]) ==> j == at
            &&& exists|n: int|
                3 <= n <= len && package == text::joined(#[trigger] parts.take(n), "."@)
        },
        3 <= k <= len && !seen.contains(text::joined(parts.take(k), "."@))
            && crash_evidence::package_hits(
            text::joined(parts.take(k), "."@),
            jars,
            jars.len() as int,
        ).len() == 1 ==> crash_evidence::owned_package(parts, seen, jars, len) is Some,
    decreases len,
{
    if len >= 3 {
        let package = text::joined(parts.take(len), "."@);
        let hits = crash_evidence::package_hits(package, jars, jars.len() as int);
        if !seen.contains(package) && hits.len() == 1 {
            lemma_package_hits_below(package, jars, jars.len() as int);
            let at = hits[0];
            assert(hits.contains(at));
            law_which_jars_a_package_may_belong_to(package, jars, jars.len() as int, at);
            if 0 <= j < jars.len() && may_own(package, jars[j]) {
                law_which_jars_a_package_may_belong_to(package, jars, jars.len() as int, j);
                let x = choose|x: int| 0 <= x < hits.len() && hits[x] == j;
                assert(x == 0);
            }
            assert(package == text::joined(parts.take(len), "."@));
        } else {
            law_frames_need_a_sole_owner(parts, seen, jars, len - 1, j, k);
        }
    }
}

/// A stack frame is a line `at`, a class and a bracket: its parts are those between
/// the dots of the class. No other line is one.
pub proof fn law_what_a_frame_is(
    class: Seq<char>,
    rest: Seq<char>,
    seen: Set<Seq<char>>,
    jars: Seq<JarView>,
    other: Seq<char>,
)
    requires
        forall|k: int| 0 <= k < class.len() ==> class[k] != '(',
    ensures
        crash_evidence::frame_owner("at "@ + class + seq!['('] + rest, seen, jars)
            == crash_evidence::owned_package(
            text::split(class, '.'),
            seen,
            jars,
            text::split(class, '.').len() as int,
        ),
        !text::starts_with(other, "at "@) ==> crash_evidence::frame_owner(other, seen, jars)
            is None,
{
    reveal_strlit("at ");
    let line = "at "@ + class + seq!['('] + rest;
    assert(line =~= "at "@ + (class + seq!['('] + rest));
    text_laws::law_ends("at "@, class + seq!['('] + rest);
    let r = line.subrange(3, line.len() as int);
    assert(r =~= class + seq!['('] + rest);
    let e = class.len() as int;
    assert(r[e] == '(');
    assert forall|k: int| 0 <= k < e implies r[k] != '(' by {
        assert(r[k] == class[k]);
    }
    text_laws::lemma_stop_skips(r, '(', 0, e);
    assert(r.subrange(0, e) =~= class);
}

/// A candidate is marked as for clients only, or as not known, just where its JAR
/// is.
pub proof fn law_candidates_are_marked_by_their_jar(
    jars: Seq<JarView>,
    id: Option<Seq<char>>,
    j: int,
)
    requires
        0 <= j < jars.len(),
        forall|x: int| 0 <= x < jars.len() && x != j ==> (#[trigger] jars[x]).path != jars[j].path,
    ensures
        ({
            let c = crash_attribution::fresh(jars, id, Some(jars[j].path));
            &&& c.is_client_only <==> jars[j].compatibility == ServerCompatibility::ClientOnly
            &&& c.is_unknown_compat <==> jars[j].compatibility == ServerCompatibility::Unknown
            &&& c.mod_id == id
            &&& c.jar_path == Some(jars[j].path)
            &&& c.score == 0
            &&& c.evidence.len() == 0
        }),
        !crash_attribution::fresh(jars, id, None).is_client_only,
        !crash_attribution::fresh(jars, id, None).is_unknown_compat,
{
    lemma_jar_at(jars, j, 0);
}

/// Each further piece of evidence adds its weight and is kept, up to ten pieces.
pub proof fn law_evidence_adds_up(c: CandidateView, e: EvidenceView)
    requires
        c.score < 1_000_000_000,
    ensures
        crash_attribution::strengthened(c, e).score == c.score + crash_attribution::weight(
            e.source,
        ),
        c.evidence.len() < 10 ==> crash_attribution::strengthened(c, e).evidence
            == c.evidence.push(e),
        c.evidence.len() >= 10 ==> crash_attribution::strengthened(c, e).evidence == c.evidence,
        crash_attribution::strengthened(c, e).mod_id == c.mod_id,
        crash_attribution::strengthened(c, e).jar_path == c.jar_path,
        crash_attribution::MAX_CRASH_CANDIDATES == 10,
        crash_evidence::MAX_SNIPPET_LEN == 200,
{
}

/// The snippet of a piece of evidence is its line where that is short, and its
/// start where it is not; the line itself is kept whole.
pub proof fn law_snippets(
    source: CrashEvidenceSource,
    line: Seq<char>,
    id: Option<Seq<char>>,
    jar: Option<Seq<char>>,
)
    ensures
        ({
            let e = crash_evidence::evidence(source, line, id, jar);
            &&& e.matched_text == line
            &&& e.source == source
            &&& e.mod_id == id
            &&& e.jar_path == jar
            &&& vstd::utf8::encode_utf8(line).len() <= 200 ==> e.snippet == line
        }),
{
    text::law_clip_fits(line, 200);
}

/// What is read as the path of a JAR stands in the line, and ends in `.jar`.
pub proof fn law_jar_path_stands_in_the_line(line: Seq<char>)
    ensures
        crash_evidence::jar_path_in(line) is Some ==> text::contains(
            line,
            crash_evidence::jar_path_in(line)->0,
        ) && text::ends_with(crash_evidence::jar_path_in(line)->0, ".jar"@),
{
    if crash_evidence::jar_path_in(line) is Some {
        text::lemma_find_from(line, ".jar"@, 0);
        let pos = text::find(line, ".jar"@)->0;
        let slash = text::last_stop(line, false, "/\\"@, pos + 4);
        lemma_jar_chars(line, pos);
        lemma_slash_before(line, pos);
        lemma_path_start_before(line, slash);
        lemma_jar_ending(line, crash_evidence::path_start(line, slash), pos + 4);
    }
}

proof fn lemma_slash_before(line: Seq<char>, pos: int)
    requires
        text::occurs_at(line, ".jar"@, pos),
        text::last_stop(line, false, "/\\"@, pos + 4) >= 0,
    ensures
        text::last_stop(line, false, "/\\"@, pos + 4) < pos,
{
    reveal_strlit(".jar");
    reveal_strlit("/\\");
    let set = "/\\"@;
    lemma_last_stop_below(line, false, set, pos + 4);
    lemma_jar_chars(line, pos);
    let s = text::last_stop(line, false, set, pos + 4);
    let q = choose|q: int| 0 <= q < set.len() && set[q] == line[s];
    assert(q == 0 || q == 1);
    assert(s != pos && s != pos + 1 && s != pos + 2 && s != pos + 3);
}

proof fn lemma_path_start_before(line: Seq<char>, slash: int)
    requires
        0 <= slash <= line.len(),
    ensures
        0 <= crash_evidence::path_start(line, slash) <= slash,
{
    reveal_strlit("File:");
    reveal_strlit("mods/");
    let before = line.subrange(0, slash);
    lemma_rfind_below(before, "File:"@, before.len() as int + 1);
    lemma_rfind_below(before, "mods/"@, before.len() as int + 1);
    lemma_last_stop_below(before, true, "\"'()"@, slash);
}

proof fn lemma_jar_ending(line: Seq<char>, start: int, stop: int)
    requires
        0 <= start,
        start + 4 <= stop <= line.len(),
        line[stop - 4] == '.' && line[stop - 3] == 'j' && line[stop - 2] == 'a' && line[stop - 1]
            == 'r',
    ensures
        text::contains(line, text::trim(line.subrange(start, stop))),
        text::ends_with(text::trim(line.subrange(start, stop)), ".jar"@),
{
    reveal_strlit(".jar");
    let raw = line.subrange(start, stop);
    let path = text::trim(raw);
    text_laws::law_trim_leaves_a_core(raw);
    let (l, r) = choose|l: Seq<char>, r: Seq<char>|
        text_laws::is_blank(l) && text_laws::is_blank(r) && raw == #[trigger] text_laws::around(
            l,
            path,
            r,
        );
    text_laws::law_contains_what_was_put_in(line.take(start) + l, path, r + line.skip(stop));
    assert(line.take(start) + l + path + (r + line.skip(stop)) =~= line.take(start) + raw
        + line.skip(stop));
    assert(line.take(start) + raw + line.skip(stop) =~= line);
    let m = raw.len() as int;
    assert(raw[m - 1] == 'r' && raw[m - 2] == 'a' && raw[m - 3] == 'j' && raw[m - 4] == '.');
    if r.len() > 0 {
        assert(raw[m - 1] == r[r.len() - 1]);
        assert(text::is_ws(r[r.len() - 1]));
    }
    assert(raw =~= l + path);
    lemma_whole_ending(raw, l, path, m);
    let q = path.len() as int;
    assert(path[q - 1] == raw[m - 1] && path[q - 2] == raw[m - 2] && path[q - 3] == raw[m - 3]
        && path[q - 4] == raw[m - 4]);
    assert(path.subrange(q - 4, q) =~= ".jar"@);
}

proof fn lemma_jar_chars(line: Seq<char>, pos: int)
    requires
        text::occurs_at(line, ".jar"@, pos),
    ensures
        line[pos] == '.' && line[pos + 1] == 'j' && line[pos + 2] == 'a' && line[pos + 3] == 'r',
{
    reveal_strlit(".jar");
    text_laws::lemma_occurs_char(line, ".jar"@, pos, 0);
    text_laws::lemma_occurs_char(line, ".jar"@, pos, 1);
    text_laws::lemma_occurs_char(line, ".jar"@, pos, 2);
    text_laws::lemma_occurs_char(line, ".jar"@, pos, 3);
}

proof fn lemma_whole_ending(raw: Seq<char>, l: Seq<char>, path: Seq<char>, m: int)
    requires
        raw == l + path,
        m == raw.len(),
        text_laws::is_blank(l),
        m >= 4,
        raw[m - 1] == 'r' && raw[m - 2] == 'a' && raw[m - 3] == 'j' && raw[m - 4] == '.',
    ensures
        path.len() >= 4,
{
    if path.len() < 4 {
        let k = l.len() - 1;
        assert(raw[k] == l[k]);
        assert(text::is_ws(l[k]));
        assert(k == m - 1 || k == m - 2 || k == m - 3 || k == m - 4);
    }
}

proof fn lemma_last_stop_below(s: Seq<char>, ws: bool, set: Seq<char>, end: int)
    requires
        0 <= end <= s.len(),
    ensures
        -1 <= text::last_stop(s, ws, set, end),
        text::last_stop(s, ws, set, end) < end || (end == 0 && text::last_stop(s, ws, set, end)
            == -1),
        text::last_stop(s, ws, set, end) >= 0 ==> (ws && text::is_ws(
            s[text::last_stop(s, ws, set, end)],
        )) || set.contains(s[text::last_stop(s, ws, set, end)]),
    decreases end,
{
    if end > 0 {
        lemma_last_stop_below(s, ws, set, end - 1);
    }
}

proof fn lemma_rfind_below(s: Seq<char>, p: Seq<char>, end: int)
    requires
        0 <= end,
    ensures
        -1 <= text::rfind_before(s, p, end),
        text::rfind_before(s, p, end) >= 0 ==> text::rfind_before(s, p, end) + p.len() <= s.len(),
    decreases end,
{
    if end > 0 {
        lemma_rfind_below(s, p, end - 1);
    }
}

/// The strongest candidate is identified, and surely, where it is a mod that one
/// JAR declares and that is named outright, where no other candidate is strong
/// enough by itself, and where no JAR is named outright; however many others there
/// are.
pub proof fn law_strongest_named_mod_is_identified(
    cands: Seq<CandidateView>,
    jars: Seq<JarView>,
    id: Seq<char>,
    j: int,
    x: int,
)
    requires
        cands.len() > 0,
        cands[0].mod_id == Some(id),
        declares_alone(jars, id, j),
        0 <= x < cands[0].evidence.len(),
        cands[0].evidence[x].mod_id is Some,
        cands[0].evidence[x].source == CrashEvidenceSource::LoaderDiagnostic
            || cands[0].evidence[x].source == CrashEvidenceSource::EntrypointCrash
            || cands[0].evidence[x].source == CrashEvidenceSource::ModLoadingException,
        forall|c: int| 0 < c < cands.len() ==> (#[trigger] cands[c]).score < 90,
        forall|c: int, k: int|
            #![trigger cands[c].evidence[k]]
            0 <= c < cands.len() && 0 <= k < cands[c].evidence.len()
                ==> cands[c].evidence[k].jar_path is None,
    ensures
        ({
            let v = crash_attribution::verdict(cands, jars);
            &&& v.status == CrashAttributionStatus::Attributed
            &&& v.confidence == CrashAttributionConfidence::High
            &&& v.primary == Some(cands[0])
        }),
{
    lemma_sole_owner(jars, id, j, jars.len() as int);
    assert(crash_attribution::names_mod(cands[0].evidence[x]));
    assert(crash_attribution::has_explicit_mod(cands[0]));
    assert forall|c: int| 0 <= c < cands.len() implies !crash_attribution::contradicts_itself(
        #[trigger] cands[c],
        jars,
    ) by {
        assert forall|k: int| 0 <= k < cands[c].evidence.len() implies
            !crash_attribution::names_jar(#[trigger] cands[c].evidence[k]) by {
            assert(cands[c].evidence[k].jar_path is None);
        }
    }
    if crash_attribution::strong_ones_disagree(cands) {
        let (a, b) = choose|a: int, b: int|
            0 <= a < cands.len() && 0 <= b < cands.len() && (#[trigger] cands[a]).score >= 90 && (
            #[trigger] cands[b]).score >= 90 && cands[a].mod_id is Some && cands[b].mod_id is Some
                && cands[a].mod_id != cands[b].mod_id;
        assert(a == 0 && b == 0);
    }
}

/// Where several mods are possible and none can be picked, the sentence for people
/// names each of the candidates that is a mod.
pub proof fn law_summary_names_all_candidates(
    v: crash_attribution::Verdict,
    cands: Seq<CandidateView>,
    k: int,
)
    requires
        v.status == CrashAttributionStatus::Ambiguous,
        0 <= k < cands.len(),
        cands[k].mod_id is Some,
    ensures
        text::contains(crash_attribution::summary(v, cands), cands[k].mod_id->0),
{
    let n = cands.len() as int;
    let id = cands[k].mod_id->0;
    let all = crash_attribution::named_below(cands, n);
    lemma_named_below(cands, n, k);
    let x = choose|x: int| 0 <= x < all.len() && all[x] == id;
    lemma_joined_holds(all, ", "@, x);
    let a = "Multiple possible crash sources: "@;
    let b = ". Cannot identify one safely."@;
    text_laws::law_contains_grows(a, text::joined(all, ", "@), b, id);
}

proof fn lemma_named_below(cands: Seq<CandidateView>, n: int, k: int)
    requires
        0 <= k < n <= cands.len(),
        cands[k].mod_id is Some,
    ensures
        crash_attribution::named_below(cands, n).contains(cands[k].mod_id->0),
    decreases n,
{
    let now = crash_attribution::named_below(cands, n);
    if k == n - 1 {
        assert(now.last() == cands[k].mod_id->0);
    } else {
        lemma_named_below(cands, n - 1, k);
        let prev = crash_attribution::named_below(cands, n - 1);
        let x = choose|x: int| 0 <= x < prev.len() && prev[x] == cands[k].mod_id->0;
        assert(now[x] == cands[k].mod_id->0);
    }
}

proof fn lemma_joined_holds(items: Seq<Seq<char>>, sep: Seq<char>, x: int)
    requires
        0 <= x < items.len(),
    ensures
        text::contains(text::joined(items, sep), items[x]),
    decreases items.len(),
{
    if items.len() == 1 {
        let s = items[0];
        text_laws::law_contains_what_was_put_in(seq![], s, seq![]);
        assert(Seq::<char>::empty() + s + Seq::<char>::empty() =~= s);
    } else {
        let head = text::joined(items.drop_last(), sep);
        if x == items.len() - 1 {
            text_laws::law_contains_what_was_put_in(head + sep, items.last(), seq![]);
            assert(head + sep + items.last() + Seq::<char>::empty() =~= head + sep + items.last());
        } else {
            lemma_joined_holds(items.drop_last(), sep, x);
            text_laws::law_contains_grows(seq![], head, sep + items.last(), items[x]);
            assert(Seq::<char>::empty() + head + (sep + items.last()) =~= head + sep
                + items.last());
        }
    }
}

/// A stack frame that is put down to a JAR is evidence against it, in whatever log
/// it stands; and a package that was found once is not found again.
pub proof fn law_frames_are_evidence_once(
    log: Seq<char>,
    jars: Seq<JarView>,
    k: int,
    package: Seq<char>,
    j: int,
)
    requires
        0 <= k < text::lines(log).len(),
        crash_evidence::frame_owner(
            text::trim(text::lines(log)[k]),
            crash_evidence::seen_below(text::lines(log), jars, k),
            jars,
        ) == Some((package, j)),
    ensures
        told(
            crash_evidence::stack_frames(log, jars),
            CrashEvidenceSource::StackFrame,
            text::trim(text::lines(log)[k]),
            None,
            Some(jars[j].path),
        ),
        forall|n: int|
            k < n <= text::lines(log).len() ==> (#[trigger] crash_evidence::seen_below(
                text::lines(log),
                jars,
                n,
            )).contains(package),
{
    let l = text::lines(log);
    let n = l.len() as int;
    let line = text::trim(l[k]);
    let now = crash_evidence::frames_below(l, jars, k + 1);
    assert(is_told(
        now.last(),
        CrashEvidenceSource::StackFrame,
        line,
        None,
        Some(jars[j].path),
    ));
    lemma_frames_stay(l, jars, k + 1, n, now.len() - 1);
    let all = crash_evidence::frames_below(l, jars, n);
    assert(is_told(
        all[now.len() - 1],
        CrashEvidenceSource::StackFrame,
        line,
        None,
        Some(jars[j].path),
    ));
    assert forall|m: int| k < m <= l.len() implies (#[trigger] crash_evidence::seen_below(
        l,
        jars,
        m,
    )).contains(package) by {
        lemma_seen_stays(l, jars, k + 1, m, package);
    }
}

proof fn lemma_frames_stay(l: Seq<Seq<char>>, jars: Seq<JarView>, k: int, n: int, x: int)
    requires
        0 <= k <= n <= l.len(),
        0 <= x < crash_evidence::frames_below(l, jars, k).len(),
    ensures
        x < crash_evidence::frames_below(l, jars, n).len(),
        crash_evidence::frames_below(l, jars, n)[x] == crash_evidence::frames_below(l, jars, k)[x],
    decreases n - k,
{
    if k < n {
        lemma_frames_stay(l, jars, k, n - 1, x);
    }
}

proof fn lemma_seen_stays(
    l: Seq<Seq<char>>,
    jars: Seq<JarView>,
    k: int,
    n: int,
    package: Seq<char>,
)
    requires
        0 <= k <= n <= l.len(),
        crash_evidence::seen_below(l, jars, k).contains(package),
    ensures
        crash_evidence::seen_below(l, jars, n).contains(package),
    decreases n - k,
{
    if k < n {
        lemma_seen_stays(l, jars, k, n - 1, package);
    }
}

/// Context alone identifies nothing: a candidate against which there is nothing but
/// mentions as a dependency, too few to weigh much, is not picked, and nothing is
/// sure.
pub proof fn law_context_identifies_nothing(c: CandidateView, jars: Seq<JarView>)
    requires
        c.score < 90,
        forall|k: int|
            0 <= k < c.evidence.len() ==> (#[trigger] c.evidence[k]).source
                == CrashEvidenceSource::DependencyContext,
    ensures
        crash_attribution::verdict(seq![c], jars).primary is None,
        crash_attribution::verdict(seq![c], jars).confidence == CrashAttributionConfidence::Low,
{
    let cands = seq![c];
    assert(cands[0] == c);
    assert forall|k: int| 0 <= k < c.evidence.len() implies !crash_attribution::names_mod(
        #[trigger] c.evidence[k],
    ) && !crash_attribution::names_jar(c.evidence[k]) && c.evidence[k].source
        != CrashEvidenceSource::MixinTarget && c.evidence[k].source
        != CrashEvidenceSource::StackFrame by {
        assert(c.evidence[k].source == CrashEvidenceSource::DependencyContext);
    }
    assert(!crash_attribution::has_explicit_mod(c));
    assert(!crash_attribution::has_explicit_jar(c));
    assert(!crash_attribution::has_source(c, CrashEvidenceSource::MixinTarget));
    assert(!crash_attribution::has_source(c, CrashEvidenceSource::StackFrame));
}

/// Mixins that lead to a JAR without a mod, and are not strong enough by
/// themselves, identify nothing.
pub proof fn law_weak_evidence_without_a_mod(c: CandidateView, jars: Seq<JarView>)
    requires
        c.score < 90,
        c.mod_id is None,
        forall|k: int|
            0 <= k < c.evidence.len() ==> (#[trigger] c.evidence[k]).source
                == CrashEvidenceSource::MixinTarget || c.evidence[k].source
                == CrashEvidenceSource::StackFrame,
    ensures
        crash_attribution::verdict(seq![c], jars).primary is None,
{
    let cands = seq![c];
    assert(cands[0] == c);
    assert forall|k: int| 0 <= k < c.evidence.len() implies !crash_attribution::names_mod(
        #[trigger] c.evidence[k],
    ) && !crash_attribution::names_jar(c.evidence[k]) by {
        assert(c.evidence[k].source == CrashEvidenceSource::MixinTarget || c.evidence[k].source
            == CrashEvidenceSource::StackFrame);
    }
    assert(!crash_attribution::has_explicit_mod(c));
    assert(!crash_attribution::has_explicit_jar(c));
}

} // verus!
