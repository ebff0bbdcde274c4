//! What a crash log says about the mods: loader messages, file paths, mixin
//! errors and stack frames.
use vstd::prelude::*;

use crate::jar_index;
use crate::jar_index::{basename_of, JarOwnershipIndex, JarView};
use crate::text;
use crate::text::{
    after_last_stop, clipped, find_str, fold_chars, from_chars, has_prefix, has_sub,
    is_alphanumeric, is_letter, part, rfind_str, split_char, split_lines, str_eq, to_chars,
    to_lowercase, trimmed, trimmed_char, trimmed_start_char,
};

verus! {

/// Up to how many bytes of a line are kept as a snippet.
pub const MAX_SNIPPET_LEN: usize = 200;

/// What kind of evidence it is.
#[derive(Debug, Clone, Copy, PartialEq, Eq, Structural)]
pub enum CrashEvidenceSource {
    /// The loader names a failing mod.
    LoaderDiagnostic,
    /// The log names a JAR.
    ExplicitJarPath,
    /// A field of a `ModLoadingException`.
    ModLoadingException,
    /// An entry point crashed, and its provider is named.
    EntrypointCrash,
    /// A mixin configuration that belongs to a JAR.
    MixinTarget,
    /// A stack frame whose package names a mod.
    StackFrame,
    /// A dependency; explains only.
    DependencyContext,
}

/// One piece of evidence, as it was read.
#[derive(Debug, Clone)]
pub struct ParsedEvidence {
    pub source: CrashEvidenceSource,
    /// The whole line.
    pub matched_text: String,
    /// The start of the line.
    pub snippet: String,
    pub mod_id: Option<String>,
    pub jar_path: Option<String>,
}

/// The text of a [`ParsedEvidence`].
pub struct EvidenceView {
    pub source: CrashEvidenceSource,
    pub matched_text: Seq<char>,
    pub snippet: Seq<char>,
    pub mod_id: Option<Seq<char>>,
    pub jar_path: Option<Seq<char>>,
}

impl View for ParsedEvidence {
    type V = EvidenceView;

    open spec fn view(&self) -> EvidenceView {
        EvidenceView {
            source: self.source,
            matched_text: self.matched_text@,
            snippet: self.snippet@,
            mod_id: text::opt_view(self.mod_id),
            jar_path: text::opt_view(self.jar_path),
        }
    }
}

/// The texts of a list of evidence.
pub open spec fn evidence_views(v: Seq<ParsedEvidence>) -> Seq<EvidenceView> {
    v.map_values(|e: ParsedEvidence| e@)
}

/// Evidence from a line.
pub open spec fn evidence(
    source: CrashEvidenceSource,
    line: Seq<char>,
    mod_id: Option<Seq<char>>,
    jar_path: Option<Seq<char>>,
) -> EvidenceView {
    EvidenceView {
        source,
        matched_text: line,
        snippet: text::clip(line, MAX_SNIPPET_LEN as nat),
        mod_id,
        jar_path,
    }
}

/// Evidence from a line.
fn make_evidence(
    source: CrashEvidenceSource,
    line: &[char],
    mod_id: Option<String>,
    jar_path: Option<String>,
) -> (r: ParsedEvidence)
    ensures
        r@ == evidence(source, line@, text::opt_view(mod_id), text::opt_view(jar_path)),
{
    ParsedEvidence {
        source,
        matched_text: from_chars(line),
        snippet: clipped(line, MAX_SNIPPET_LEN),
        mod_id,
        jar_path,
    }
}

/// The text after the first `prefix`, trimmed, unless that is nothing.
pub open spec fn after_prefix(line: Seq<char>, prefix: Seq<char>) -> Option<Seq<char>> {
    match text::find(line, prefix) {
        None => None,
        Some(pos) => {
            let rest = text::trim(line.subrange(pos + prefix.len(), line.len() as int));
            if rest.len() == 0 {
                None
            } else {
                Some(rest)
            }
        },
    }
}

/// Reads [`after_prefix`].
pub fn extract_after_prefix(line: &[char], prefix: &str) -> (r: Option<String>)
    ensures
        text::opt_view(r) == after_prefix(line@, prefix@),
{
    let p = to_chars(prefix);
    match find_str(line, prefix) {
        None => None,
        Some(pos) => {
            let rest = trimmed(part(line, pos + p.len(), line.len()));
            if rest.len() == 0 {
                None
            } else {
                Some(from_chars(rest))
            }
        },
    }
}

/// The text between the first `start` and the next `end`, unless that is
/// nothing.
pub open spec fn between(line: Seq<char>, start: Seq<char>, end: Seq<char>) -> Option<Seq<char>> {
    match text::find(line, start) {
        None => None,
        Some(pos) => {
            let rest = line.subrange(pos + start.len(), line.len() as int);
            match text::find(rest, end) {
                None => None,
                Some(e) => if e == 0 {
                    None
                } else {
                    Some(rest.subrange(0, e))
                },
            }
        },
    }
}

/// Reads [`between`].
pub fn extract_between(line: &[char], start: &str, end: &str) -> (r: Option<String>)
    ensures
        text::opt_view(r) == between(line@, start@, end@),
{
    let p = to_chars(start);
    match find_str(line, start) {
        None => None,
        Some(pos) => {
            let rest = part(line, pos + p.len(), line.len());
            match find_str(rest, end) {
                None => None,
                Some(e) => {
                    if e == 0 {
                        None
                    } else {
                        Some(from_chars(part(rest, 0, e)))
                    }
                },
            }
        },
    }
}

/// All evidence that the first `n` lines give, where a line gives what `f` says.
pub open spec fn gathered(
    lines: Seq<Seq<char>>,
    f: spec_fn(Seq<char>) -> Seq<EvidenceView>,
    n: int,
) -> Seq<EvidenceView>
    decreases n,
{
    if n <= 0 {
        seq![]
    } else {
        gathered(lines, f, n - 1) + f(lines[n - 1])
    }
}

/// One piece of evidence, or none.
pub open spec fn at_most_one(
    source: CrashEvidenceSource,
    line: Seq<char>,
    mod_id: Option<Seq<char>>,
) -> Seq<EvidenceView> {
    match mod_id {
        Some(id) => seq![evidence(source, line, Some(id), None)],
        None => seq![],
    }
}

// ---------------------------------------------------------------------
// Loader messages
// ---------------------------------------------------------------------

/// The failing mod that a line names, with the kind of message. The first form
/// that fits counts.
pub open spec fn explicit_mod(line: Seq<char>) -> Seq<EvidenceView> {
    if after_prefix(line, "Mod ID:"@) is Some {
        at_most_one(
            CrashEvidenceSource::LoaderDiagnostic,
            line,
            after_prefix(line, "Mod ID:"@),
        )
    } else if between(line, "Mod "@, " has failed"@) is Some {
        at_most_one(
            CrashEvidenceSource::LoaderDiagnostic,
            line,
            between(line, "Mod "@, " has failed"@),
        )
    } else if after_prefix(line, "Failed to load mod:"@) is Some {
        at_most_one(
            CrashEvidenceSource::LoaderDiagnostic,
            line,
            after_prefix(line, "Failed to load mod:"@),
        )
    } else if between(line, "provided by '"@, "'"@) is Some && text::contains(
        line,
        "Could not execute entrypoint"@,
    ) {
        at_most_one(
            CrashEvidenceSource::EntrypointCrash,
            line,
            between(line, "provided by '"@, "'"@),
        )
    } else {
        at_most_one(
            CrashEvidenceSource::EntrypointCrash,
            line,
            after_prefix(line, "A mod crashed on startup:"@),
        )
    }
}

/// All failing mods that a log names.
pub open spec fn explicit_mods(log: Seq<char>) -> Seq<EvidenceView> {
    let l = text::lines(log);
    gathered(l, |line: Seq<char>| explicit_mod(line), l.len() as int)
}

/// Reads [`explicit_mod`].
fn explicit_mod_of(line: &[char]) -> (r: Option<ParsedEvidence>)
    ensures
        r is None ==> explicit_mod(line@) == Seq::<EvidenceView>::empty(),
        r is Some ==> explicit_mod(line@) == seq![r->0@],
{
    let id = extract_after_prefix(line, "Mod ID:");
    if id.is_some() {
        return Some(make_evidence(CrashEvidenceSource::LoaderDiagnostic, line, id, None));
    }
    let id = extract_between(line, "Mod ", " has failed");
    if id.is_some() {
        return Some(make_evidence(CrashEvidenceSource::LoaderDiagnostic, line, id, None));
    }
    let id = extract_after_prefix(line, "Failed to load mod:");
    if id.is_some() {
        return Some(make_evidence(CrashEvidenceSource::LoaderDiagnostic, line, id, None));
    }
    let id = extract_between(line, "provided by '", "'");
    if id.is_some() && has_sub(line, "Could not execute entrypoint") {
        return Some(make_evidence(CrashEvidenceSource::EntrypointCrash, line, id, None));
    }
    let id = extract_after_prefix(line, "A mod crashed on startup:");
    if id.is_some() {
        return Some(make_evidence(CrashEvidenceSource::EntrypointCrash, line, id, None));
    }
    None
}

/// All failing mods that a log names.
pub fn parse_explicit_mod_ids(log: &[char]) -> (r: Vec<ParsedEvidence>)
    ensures
        evidence_views(r@) == explicit_mods(log@),
{
    let list = split_lines(log);
    let ghost l = text::lines(log@);
    let ghost f = |line: Seq<char>| explicit_mod(line);
    let mut out: Vec<ParsedEvidence> = Vec::new();
    let mut i: usize = 0;
    assert(evidence_views(out@) =~= seq![]);
    assert(list@.len() == l.len());
    while i < list.len()
        invariant
            i <= list.len(),
            list@.len() == l.len(),
            text::slices(list@) == l,
            f == (|line: Seq<char>| explicit_mod(line)),
            evidence_views(out@) == gathered(l, f, i as int),
        decreases list.len() - i,
    {
        assert(text::slices(list@)[i as int] == list@[i as int]@);
        let ghost before = out@;
        let found = explicit_mod_of(list[i]);
        match found {
            Some(e) => {
                out.push(e);
                assert(evidence_views(out@) =~= evidence_views(before) + seq![e@]);
            },
            None => {
                assert(evidence_views(out@) =~= evidence_views(before) + Seq::<
                    EvidenceView,
                >::empty());
            },
        }
        i = i + 1;
    }
    out
}

// ---------------------------------------------------------------------
// ModLoadingException
// ---------------------------------------------------------------------

/// The mod ID that the first of the lines from `j` up to `i` gives.
pub open spec fn id_before(lines: Seq<Seq<char>>, j: int, i: int) -> Option<Seq<char>>
    decreases i - j,
{
    if j < 0 || j >= i {
        None
    } else if after_prefix(text::trim(lines[j]), "Mod ID:"@) is Some {
        after_prefix(text::trim(lines[j]), "Mod ID:"@)
    } else {
        id_before(lines, j + 1, i)
    }
}

/// What line `i` of a loading error says: the mod, its file, or a message about
/// the mod that one of the five lines before names.
pub open spec fn loading_line(lines: Seq<Seq<char>>, i: int) -> Seq<EvidenceView> {
    let line = text::trim(lines[i]);
    let source = CrashEvidenceSource::ModLoadingException;
    at_most_one(source, line, after_prefix(line, "Mod ID:"@)) + (match after_prefix(
        line,
        "Mod File:"@,
    ) {
        Some(p) => seq![evidence(source, line, None, Some(p))],
        None => seq![],
    }) + (if text::starts_with(line, "Failure message:"@) {
        at_most_one(
            source,
            line,
            id_before(
                lines,
                if i >= 5 {
                    i - 5
                } else {
                    0
                },
                i,
            ),
        )
    } else {
        seq![]
    })
}

/// What the first `n` lines of a loading error say.
pub open spec fn loading_below(lines: Seq<Seq<char>>, n: int) -> Seq<EvidenceView>
    decreases n,
{
    if n <= 0 {
        seq![]
    } else {
        loading_below(lines, n - 1) + loading_line(lines, n - 1)
    }
}

/// What the loading errors of a log say; nothing where it mentions none.
pub open spec fn loading_errors(log: Seq<char>) -> Seq<EvidenceView> {
    if text::contains(log, "ModLoadingException"@) || text::contains(log, "ModLoading"@) {
        loading_below(text::lines(log), text::lines(log).len() as int)
    } else {
        seq![]
    }
}

/// What the loading errors of a log say.
pub fn parse_forge_mod_loading_exception(log: &[char]) -> (r: Vec<ParsedEvidence>)
    ensures
        evidence_views(r@) == loading_errors(log@),
{
    let mut out: Vec<ParsedEvidence> = Vec::new();
    assert(evidence_views(out@) =~= seq![]);
    if !has_sub(log, "ModLoadingException") && !has_sub(log, "ModLoading") {
        return out;
    }
    let list = split_lines(log);
    let ghost l = text::lines(log@);
    assert(list@.len() == l.len());
    let mut i: usize = 0;
    while i < list.len()
        invariant
            i <= list.len(),
            list@.len() == l.len(),
            text::slices(list@) == l,
            evidence_views(out@) == loading_below(l, i as int),
        decreases list.len() - i,
    {
        loading_line_of(&list, i, &mut out, Ghost(l));
        i = i + 1;
    }
    out
}

/// Adds what line `i` says.
fn loading_line_of(
    list: &Vec<&[char]>,
    i: usize,
    out: &mut Vec<ParsedEvidence>,
    Ghost(l): Ghost<Seq<Seq<char>>>,
)
    requires
        text::slices(list@) == l,
        i < list@.len(),
    ensures
        evidence_views(final(out)@) == evidence_views(old(out)@) + loading_line(l, i as int),
{
    let source = CrashEvidenceSource::ModLoadingException;
    assert(text::slices(list@)[i as int] == list@[i as int]@);
    let line = trimmed(list[i]);
    let ghost o0 = evidence_views(out@);
    let ghost o = out@;
    let id = extract_after_prefix(line, "Mod ID:");
    let ghost part1 = at_most_one(source, line@, after_prefix(line@, "Mod ID:"@));
    if id.is_some() {
        let e = make_evidence(source, line, id, None);
        out.push(e);
        assert(evidence_views(out@) =~= o0 + part1);
    } else {
        assert(o0 =~= o0 + part1);
    }
    let ghost o1 = evidence_views(out@);
    let ghost p = out@;
    let path = extract_after_prefix(line, "Mod File:");
    let ghost part2 = match after_prefix(line@, "Mod File:"@) {
        Some(p) => seq![evidence(source, line@, None, Some(p))],
        None => seq![],
    };
    if path.is_some() {
        let e = make_evidence(source, line, None, path);
        out.push(e);
        assert(evidence_views(out@) =~= o1 + part2);
    } else {
        assert(o1 =~= o1 + part2);
    }
    let ghost o2 = evidence_views(out@);
    let ghost q = out@;
    if has_prefix(line, "Failure message:") {
        let start: usize = if i >= 5 {
            i - 5
        } else {
            0
        };
        let named = id_before_of(list, start, i, Ghost(l));
        let ghost part3 = at_most_one(source, line@, id_before(l, start as int, i as int));
        if named.is_some() {
            let e = make_evidence(source, line, named, None);
            out.push(e);
            assert(evidence_views(out@) =~= o2 + part3);
        } else {
            assert(o2 =~= o2 + part3);
        }
        assert(o0 + part1 + part2 + part3 =~= o0 + (part1 + part2 + part3));
    } else {
        assert(o0 + part1 + part2 =~= o0 + (part1 + part2 + Seq::<EvidenceView>::empty()));
    }
}

/// Reads [`id_before`].
fn id_before_of(
    list: &Vec<&[char]>,
    from: usize,
    i: usize,
    Ghost(l): Ghost<Seq<Seq<char>>>,
) -> (r: Option<String>)
    requires
        text::slices(list@) == l,
        from <= i < list@.len(),
    ensures
        text::opt_view(r) == id_before(l, from as int, i as int),
{
    let mut j: usize = from;
    while j < i
        invariant
            from <= j <= i < list@.len(),
            text::slices(list@) == l,
            id_before(l, from as int, i as int) == id_before(l, j as int, i as int),
        decreases i - j,
    {
        assert(text::slices(list@)[j as int] == list@[j as int]@);
        let id = extract_after_prefix(trimmed(list[j]), "Mod ID:");
        if id.is_some() {
            return id;
        }
        j = j + 1;
    }
    None
}

// ---------------------------------------------------------------------
// Fabric and Quilt
// ---------------------------------------------------------------------

/// Whether evidence names a mod.
pub open spec fn names_mod(found: Seq<EvidenceView>, id: Seq<char>) -> bool {
    exists|k: int| 0 <= k < found.len() && (#[trigger] found[k]).mod_id == Some(id)
}

/// What a line adds to the entry point crashes found so far.
pub open spec fn entrypoint_line(found: Seq<EvidenceView>, raw: Seq<char>) -> Seq<EvidenceView> {
    let line = text::trim(raw);
    let source = CrashEvidenceSource::EntrypointCrash;
    let provider = between(line, "provided by '"@, "'"@);
    let a = if text::contains(line, "Could not execute entrypoint"@) {
        found + at_most_one(source, line, provider)
    } else {
        found
    };
    let b = a + at_most_one(source, line, after_prefix(line, "A mod crashed on startup:"@));
    if text::contains(line, "errors, provided by"@) && provider is Some && !names_mod(
        b,
        provider->0,
    ) {
        b + at_most_one(source, line, provider)
    } else {
        b
    }
}

/// The entry point crashes of the first `n` lines.
pub open spec fn entrypoint_below(lines: Seq<Seq<char>>, n: int) -> Seq<EvidenceView>
    decreases n,
{
    if n <= 0 {
        seq![]
    } else {
        entrypoint_line(entrypoint_below(lines, n - 1), lines[n - 1])
    }
}

/// The entry point crashes of a log.
pub open spec fn entrypoint_crashes(log: Seq<char>) -> Seq<EvidenceView> {
    entrypoint_below(text::lines(log), text::lines(log).len() as int)
}

/// Whether evidence names a mod.
fn has_mod(found: &Vec<ParsedEvidence>, id: &str) -> (r: bool)
    ensures
        r == names_mod(evidence_views(found@), id@),
{
    let mut i: usize = 0;
    while i < found.len()
        invariant
            i <= found.len(),
            forall|k: int|
                0 <= k < i ==> (#[trigger] evidence_views(found@)[k]).mod_id != Some(id@),
        decreases found.len() - i,
    {
        assert(evidence_views(found@)[i as int] == found@[i as int]@);
        if let Some(m) = &found[i].mod_id {
            if str_eq(m.as_str(), id) {
                return true;
            }
        }
        i = i + 1;
    }
    assert(evidence_views(found@).len() == found@.len());
    false
}

/// The entry point crashes of a log.
pub fn parse_fabric_quilt_crash(log: &[char]) -> (r: Vec<ParsedEvidence>)
    ensures
        evidence_views(r@) == entrypoint_crashes(log@),
{
    let list = split_lines(log);
    let ghost l = text::lines(log@);
    assert(list@.len() == l.len());
    let mut out: Vec<ParsedEvidence> = Vec::new();
    assert(evidence_views(out@) =~= seq![]);
    let mut i: usize = 0;
    while i < list.len()
        invariant
            i <= list.len(),
            list@.len() == l.len(),
            text::slices(list@) == l,
            evidence_views(out@) == entrypoint_below(l, i as int),
        decreases list.len() - i,
    {
        assert(text::slices(list@)[i as int] == list@[i as int]@);
        entrypoint_line_of(list[i], &mut out);
        i = i + 1;
    }
    out
}

/// Adds what a line says about entry points.
fn entrypoint_line_of(raw: &[char], out: &mut Vec<ParsedEvidence>)
    ensures
        evidence_views(final(out)@) == entrypoint_line(evidence_views(old(out)@), raw@),
{
    let source = CrashEvidenceSource::EntrypointCrash;
    let line = trimmed(raw);
    let ghost o0 = evidence_views(out@);
    let provider = extract_between(line, "provided by '", "'");
    let ghost pv = between(line@, "provided by '"@, "'"@);
    if has_sub(line, "Could not execute entrypoint") {
        if provider.is_some() {
            let e = make_evidence(source, line, provider.clone(), None);
            out.push(e);
        }
        assert(evidence_views(out@) =~= o0 + at_most_one(source, line@, pv));
    }
    let ghost o1 = evidence_views(out@);
    let startup = extract_after_prefix(line, "A mod crashed on startup:");
    let ghost sv = after_prefix(line@, "A mod crashed on startup:"@);
    if startup.is_some() {
        let e = make_evidence(source, line, startup, None);
        out.push(e);
    }
    assert(evidence_views(out@) =~= o1 + at_most_one(source, line@, sv));
    let ghost o2 = evidence_views(out@);
    if has_sub(line, "errors, provided by") {
        if let Some(id) = &provider {
            if !has_mod(out, id.as_str()) {
                let e = make_evidence(source, line, Some(id.clone()), None);
                out.push(e);
                assert(evidence_views(out@) =~= o2 + at_most_one(source, line@, pv));
            }
        }
    }
}

// ---------------------------------------------------------------------
// Mixins
// ---------------------------------------------------------------------

/// The name after `mixin config`, without a colon and quotes; empty where the
/// line mentions none.
pub open spec fn mixin_config_name(line: Seq<char>) -> Seq<char> {
    let marker = "mixin config"@;
    match text::find(text::folded(line), marker) {
        None => seq![],
        Some(pos) => {
            let after = text::trim(line.subrange(pos + marker.len(), line.len() as int));
            text::trim_char(
                text::trim_char(text::trim(text::trim_start_char(after, ':')), '"'),
                '\'',
            )
        },
    }
}

/// What a line says about mixins: the JARs that hold the configuration it
/// names, or that there was a mixin error.
pub open spec fn mixin_line(jars: Seq<JarView>, raw: Seq<char>) -> Seq<EvidenceView> {
    let line = text::trim(raw);
    let source = CrashEvidenceSource::MixinTarget;
    let name = mixin_config_name(line);
    if name.len() > 0 {
        jar_index::holders_below(
            jars,
            jar_index::basename(name),
            jars.len() as int,
        ).map_values(|i: int| evidence(source, line, None, Some(jars[i].path)))
    } else if text::contains(line, "InvalidMixinException"@) || text::contains(
        line,
        "MixinApplyError"@,
    ) {
        seq![evidence(source, line, None, None)]
    } else {
        seq![]
    }
}

/// What a log says about mixins.
pub open spec fn mixin_errors(log: Seq<char>, jars: Seq<JarView>) -> Seq<EvidenceView> {
    let l = text::lines(log);
    gathered(l, |line: Seq<char>| mixin_line(jars, line), l.len() as int)
}

/// What a log says about mixins.
pub fn parse_mixin_attribution(log: &[char], index: &JarOwnershipIndex) -> (r: Vec<ParsedEvidence>)
    ensures
        evidence_views(r@) == mixin_errors(log@, index@),
{
    let list = split_lines(log);
    let ghost l = text::lines(log@);
    let ghost f = |line: Seq<char>| mixin_line(index@, line);
    let mut out: Vec<ParsedEvidence> = Vec::new();
    let mut i: usize = 0;
    assert(evidence_views(out@) =~= seq![]);
    assert(list@.len() == l.len());
    while i < list.len()
        invariant
            i <= list.len(),
            list@.len() == l.len(),
            text::slices(list@) == l,
            f == (|line: Seq<char>| mixin_line(index@, line)),
            evidence_views(out@) == gathered(l, f, i as int),
        decreases list.len() - i,
    {
        assert(text::slices(list@)[i as int] == list@[i as int]@);
        mixin_line_of(list[i], index, &mut out);
        i = i + 1;
    }
    out
}

/// Adds what a line says about mixins.
fn mixin_line_of(raw: &[char], index: &JarOwnershipIndex, out: &mut Vec<ParsedEvidence>)
    ensures
        evidence_views(final(out)@) == evidence_views(old(out)@) + mixin_line(index@, raw@),
{
    let source = CrashEvidenceSource::MixinTarget;
    let line = trimmed(raw);
    let marker = "mixin config";
    let m = to_chars(marker);
    let lower = fold_chars(line);
    let ghost o0 = evidence_views(out@);
    if let Some(pos) = find_str(&lower, marker) {
        let after = trimmed(part(line, pos + m.len(), line.len()));
        let name = trimmed_char(
            trimmed_char(trimmed(trimmed_start_char(after, ':')), '"'),
            '\'',
        );
        if name.len() > 0 {
            let base = basename_of(name);
            let holders = index.holders(base.as_str());
            let ghost h = jar_index::holders_below(
                index@,
                base@,
                index@.len() as int,
            );
            let ghost all = h.map_values(
                |i: int| evidence(source, line@, None, Some(index@[i].path)),
            );
            assert(holders@.len() == h.len());
            let mut k: usize = 0;
            assert(o0 + all.take(0) =~= o0);
            while k < holders.len()
                invariant
                    k <= holders.len(),
                    source == CrashEvidenceSource::MixinTarget,
                    holders@.map_values(|i: usize| i as int) == h,
                    holders@.len() == h.len(),
                    all == h.map_values(
                        |i: int| evidence(source, line@, None, Some(index@[i].path)),
                    ),
                    forall|k: int|
                        0 <= k < holders@.len() ==> 0 <= #[trigger] holders@[k] < index.jars@.len(),
                    evidence_views(out@) == o0 + all.take(k as int),
                decreases holders.len() - k,
            {
                assert(holders@.map_values(|i: usize| i as int)[k as int] == holders@[k as int]);
                let jar = &index.jars[holders[k]];
                assert(index@[holders@[k as int] as int] == jar@);
                let ghost before = out@;
                let e = make_evidence(source, line, None, Some(jar.path.clone()));
                out.push(e);
                proof {
                    assert(e@ == all[k as int]);
                    assert(evidence_views(out@) =~= evidence_views(before).push(e@));
                    assert(all.take(k as int + 1) =~= all.take(k as int).push(all[k as int]));
                    assert(o0 + all.take(k as int).push(e@) =~= (o0 + all.take(k as int)).push(e@));
                }
                k = k + 1;
            }
            assert(all.take(all.len() as int) =~= all);
            return;
        }
    }
    if has_sub(line, "InvalidMixinException") || has_sub(line, "MixinApplyError") {
        let e = make_evidence(source, line, None, None);
        out.push(e);
        assert(evidence_views(out@) =~= o0 + seq![e@]);
    } else {
        assert(evidence_views(out@) =~= o0 + Seq::<EvidenceView>::empty());
    }
}

// ---------------------------------------------------------------------
// File paths
// ---------------------------------------------------------------------

/// Where the path that ends in `.jar` at `end` begins, given the position of
/// the last slash or backslash in it: after `File:`, at `mods/`, or after the
/// last white space, quote or bracket before.
pub open spec fn path_start(line: Seq<char>, slash: int) -> int {
    let before = line.subrange(0, slash);
    if text::rfind(before, "File:"@) >= 0 {
        text::rfind(before, "File:"@) + 5
    } else if text::rfind(before, "mods/"@) >= 0 {
        text::rfind(before, "mods/"@)
    } else {
        text::last_stop(before, true, "\"'()"@, slash) + 1
    }
}

/// Whether a path is refused: it goes up, or is a Windows drive path that has
/// nothing to do with mods.
pub open spec fn refused_path(path: Seq<char>) -> bool {
    text::contains(path, ".."@) || (path.len() >= 2 && text::is_ascii_letter(path[0]) && path[1]
        == ':' && !text::contains(text::folded(path), "mods"@))
}

/// The path of a JAR that a line names: around the first `.jar` that ends a
/// word, if there is a slash or backslash before it.
pub open spec fn jar_path_in(line: Seq<char>) -> Option<Seq<char>> {
    match text::find(line, ".jar"@) {
        None => None,
        Some(pos) => {
            let end = pos + 4;
            let longer = end < line.len() && (text::is_alnum(line[end]) || line[end] == '_'
                || line[end] == '-');
            let slash = text::last_stop(line, false, "/\\"@, end);
            let path = text::trim(line.subrange(path_start(line, slash), end));
            if longer || slash < 0 || path.len() == 0 || refused_path(path) {
                None
            } else {
                Some(path)
            }
        },
    }
}

/// What holds of the last stop: it is a position before the end.
proof fn lemma_last_stop(s: Seq<char>, ws: bool, set: Seq<char>, end: int)
    requires
        0 <= end <= s.len(),
    ensures
        -1 <= text::last_stop(s, ws, set, end) < end || end == 0,
        text::last_stop(s, ws, set, end) >= -1,
    decreases end,
{
    if end > 0 {
        lemma_last_stop(s, ws, set, end - 1);
    }
}

/// The last stop depends on what stands before the end alone.
proof fn lemma_last_stop_prefix(s: Seq<char>, ws: bool, set: Seq<char>, n: int, end: int)
    requires
        0 <= end <= n <= s.len(),
    ensures
        text::last_stop(s.subrange(0, n), ws, set, end) == text::last_stop(s, ws, set, end),
    decreases end,
{
    if end > 0 {
        lemma_last_stop_prefix(s, ws, set, n, end - 1);
    }
}

/// Reads [`jar_path_in`].
pub fn extract_jar_path(line: &[char]) -> (r: Option<String>)
    ensures
        text::opt_view(r) == jar_path_in(line@),
{
    proof {
        reveal_strlit(".jar");
    }
    match find_str(line, ".jar") {
        None => None,
        Some(pos) => {
            let end = pos + 4;
            if end < line.len() && (is_alphanumeric(line[end]) || line[end] == '_' || line[end]
                == '-') {
                return None;
            }
            let head = part(line, 0, end);
            let after = after_last_stop(head, false, "/\\");
            proof {
                lemma_last_stop_prefix(line@, false, "/\\"@, end as int, end as int);
                lemma_last_stop(line@, false, "/\\"@, end as int);
            }
            if after == 0 {
                return None;
            }
            let slash = after - 1;
            let before = part(line, 0, slash);
            proof {
                reveal_strlit("File:");
            }
            let start = match rfind_str(before, "File:") {
                Some(p) => p + 5,
                None => match rfind_str(before, "mods/") {
                    Some(p) => p,
                    None => after_last_stop(before, true, "\"'()"),
                },
            };
            let path = trimmed(part(line, start, end));
            if path.len() == 0 || has_sub(path, "..") {
                return None;
            }
            if path.len() >= 2 && is_letter(path[0]) && path[1] == ':' {
                let lower = fold_chars(path);
                if !has_sub(&lower, "mods") {
                    return None;
                }
            }
            Some(from_chars(path))
        },
    }
}

/// The JAR that a line names.
pub open spec fn jar_line(raw: Seq<char>) -> Seq<EvidenceView> {
    let line = text::trim(raw);
    match jar_path_in(line) {
        Some(p) => seq![evidence(CrashEvidenceSource::ExplicitJarPath, line, None, Some(p))],
        None => seq![],
    }
}

/// The JARs that a log names.
pub open spec fn explicit_jars(log: Seq<char>) -> Seq<EvidenceView> {
    let l = text::lines(log);
    gathered(l, |line: Seq<char>| jar_line(line), l.len() as int)
}

/// The JARs that a log names.
pub fn parse_explicit_jar_paths(log: &[char]) -> (r: Vec<ParsedEvidence>)
    ensures
        evidence_views(r@) == explicit_jars(log@),
{
    let list = split_lines(log);
    let ghost l = text::lines(log@);
    let ghost f = |line: Seq<char>| jar_line(line);
    let mut out: Vec<ParsedEvidence> = Vec::new();
    let mut i: usize = 0;
    assert(evidence_views(out@) =~= seq![]);
    assert(list@.len() == l.len());
    while i < list.len()
        invariant
            i <= list.len(),
            list@.len() == l.len(),
            text::slices(list@) == l,
            f == (|line: Seq<char>| jar_line(line)),
            evidence_views(out@) == gathered(l, f, i as int),
        decreases list.len() - i,
    {
        assert(text::slices(list@)[i as int] == list@[i as int]@);
        let ghost before = out@;
        let line = trimmed(list[i]);
        let path = extract_jar_path(line);
        if path.is_some() {
            let e = make_evidence(CrashEvidenceSource::ExplicitJarPath, line, None, path);
            out.push(e);
            assert(evidence_views(out@) =~= evidence_views(before) + seq![e@]);
        } else {
            assert(evidence_views(out@) =~= evidence_views(before) + Seq::<EvidenceView>::empty());
        }
        i = i + 1;
    }
    out
}

// ---------------------------------------------------------------------
// Stack frames
// ---------------------------------------------------------------------

/// Whether a dotted name has a part.
pub open spec fn has_segment(name: Seq<char>, part: Seq<char>) -> bool {
    text::split(name, '.').contains(part)
}

/// Computes [`has_segment`].
pub fn contains_segment(name: &str, wanted: &str) -> (r: bool)
    ensures
        r == has_segment(name@, wanted@),
{
    let chars = to_chars(name);
    let parts = split_char(&chars, '.');
    let ghost all = text::split(name@, '.');
    assert(parts@.len() == all.len());
    let mut i: usize = 0;
    while i < parts.len()
        invariant
            i <= parts.len(),
            text::slices(parts@) == all,
            parts@.len() == all.len(),
            all == text::split(name@, '.'),
            forall|k: int| 0 <= k < i ==> #[trigger] all[k] != wanted@,
        decreases parts.len() - i,
    {
        assert(text::slices(parts@)[i as int] == parts@[i as int]@);
        if str_eq(from_chars(parts[i]).as_str(), wanted) {
            assert(all[i as int] == wanted@);
            return true;
        }
        i = i + 1;
    }
    false
}

/// The position of a JAR, once for each of its first `m` mod IDs that is a part
/// of a package. Both are compared in lower case.
pub open spec fn jar_hits(package: Seq<char>, ids: Seq<Seq<char>>, pos: int, m: int) -> Seq<int>
    decreases m,
{
    if m <= 0 {
        seq![]
    } else if has_segment(text::lowercased(package), text::lowercased(ids[m - 1])) {
        jar_hits(package, ids, pos, m - 1).push(pos)
    } else {
        jar_hits(package, ids, pos, m - 1)
    }
}

/// The JARs below `n` that a package may belong to.
pub open spec fn package_hits(package: Seq<char>, jars: Seq<JarView>, n: int) -> Seq<int>
    decreases n,
{
    if n <= 0 {
        seq![]
    } else {
        package_hits(package, jars, n - 1) + jar_hits(
            package,
            jars[n - 1].mod_ids,
            n - 1,
            jars[n - 1].mod_ids.len() as int,
        )
    }
}

/// The longest start of a dotted name, of at most `len` and at least three
/// parts, that was not found before and belongs to exactly one JAR; with that
/// JAR.
pub open spec fn owned_package(
    parts: Seq<Seq<char>>,
    seen: Set<Seq<char>>,
    jars: Seq<JarView>,
    len: int,
) -> Option<(Seq<char>, int)>
    decreases len,
{
    if len < 3 || len > parts.len() {
        None
    } else {
        let package = text::joined(parts.take(len), "."@);
        let hits = package_hits(package, jars, jars.len() as int);
        if !seen.contains(package) && hits.len() == 1 {
            Some((package, hits[0]))
        } else {
            owned_package(parts, seen, jars, len - 1)
        }
    }
}

/// The package and the JAR that a stack frame points to.
pub open spec fn frame_owner(
    line: Seq<char>,
    seen: Set<Seq<char>>,
    jars: Seq<JarView>,
) -> Option<(Seq<char>, int)> {
    if !text::starts_with(line, "at "@) {
        None
    } else {
        let rest = line.subrange(3, line.len() as int);
        let class = rest.subrange(0, text::stop_index(rest, false, seq!['('], 0));
        let parts = text::split(class, '.');
        owned_package(parts, seen, jars, parts.len() as int)
    }
}

/// The packages that the first `n` lines attribute to a JAR.
pub open spec fn seen_below(lines: Seq<Seq<char>>, jars: Seq<JarView>, n: int) -> Set<Seq<char>>
    decreases n,
{
    if n <= 0 {
        Set::empty()
    } else {
        let seen = seen_below(lines, jars, n - 1);
        match frame_owner(text::trim(lines[n - 1]), seen, jars) {
            Some(p) => seen.insert(p.0),
            None => seen,
        }
    }
}

/// What the stack frames among the first `n` lines say.
pub open spec fn frames_below(lines: Seq<Seq<char>>, jars: Seq<JarView>, n: int) -> Seq<
    EvidenceView,
>
    decreases n,
{
    if n <= 0 {
        seq![]
    } else {
        let line = text::trim(lines[n - 1]);
        match frame_owner(line, seen_below(lines, jars, n - 1), jars) {
            Some(p) => frames_below(lines, jars, n - 1).push(
                evidence(CrashEvidenceSource::StackFrame, line, None, Some(jars[p.1].path)),
            ),
            None => frames_below(lines, jars, n - 1),
        }
    }
}

/// What the stack frames of a log say.
pub open spec fn stack_frames(log: Seq<char>, jars: Seq<JarView>) -> Seq<EvidenceView> {
    frames_below(text::lines(log), jars, text::lines(log).len() as int)
}

/// Reads [`package_hits`].
fn package_hits_of(package: &str, index: &JarOwnershipIndex) -> (r: Vec<usize>)
    ensures
        r@.map_values(|i: usize| i as int) == package_hits(
            package@,
            index@,
            index@.len() as int,
        ),
        forall|k: int| 0 <= k < r@.len() ==> 0 <= #[trigger] r@[k] < index.jars@.len(),
{
    let lower = to_lowercase(package);
    let mut out: Vec<usize> = Vec::new();
    assert(out@.map_values(|i: usize| i as int) =~= seq![]);
    let mut n: usize = 0;
    while n < index.jars.len()
        invariant
            n <= index.jars.len(),
            lower@ == text::lowercased(package@),
            out@.map_values(|i: usize| i as int) == package_hits(package@, index@, n as int),
            forall|k: int| 0 <= k < out@.len() ==> 0 <= #[trigger] out@[k] < index.jars@.len(),
        decreases index.jars.len() - n,
    {
        let ids = &index.jars[n].mod_ids;
        let ghost idv = text::views(ids@);
        assert(index@[n as int] == index.jars@[n as int]@);
        let ghost o = package_hits(package@, index@, n as int);
        let mut m: usize = 0;
        assert(o + jar_hits(package@, idv, n as int, 0) =~= o);
        while m < ids.len()
            invariant
                m <= ids.len(),
                idv == text::views(ids@),
                n < index.jars.len(),
                lower@ == text::lowercased(package@),
                out@.map_values(|i: usize| i as int) == o + jar_hits(
                    package@,
                    idv,
                    n as int,
                    m as int,
                ),
                forall|k: int| 0 <= k < out@.len() ==> 0 <= #[trigger] out@[k] < index.jars@.len(),
            decreases ids.len() - m,
        {
            let id = to_lowercase(ids[m].as_str());
            if contains_segment(lower.as_str(), id.as_str()) {
                let ghost before = out@;
                out.push(n);
                proof {
                    assert(out@.map_values(|i: usize| i as int) =~= before.map_values(
                        |i: usize| i as int,
                    ).push(n as int));
                    let h = jar_hits(package@, idv, n as int, m as int);
                    assert((o + h).push(n as int) =~= o + h.push(n as int));
                }
            }
            m = m + 1;
        }
        n = n + 1;
    }
    out
}

/// Reads [`owned_package`].
fn owned_package_of(
    parts: &Vec<String>,
    seen: &vstd::hash_set::StringHashSet,
    index: &JarOwnershipIndex,
) -> (r: Option<(String, usize)>)
    ensures
        ({
            let o = owned_package(
                text::views(parts@),
                seen@,
                index@,
                parts@.len() as int,
            );
            &&& r is Some <==> o is Some
            &&& r is Some ==> (o->0).0 == (r->0).0@ && (o->0).1 == (r->0).1 && (r->0).1 < index.jars@.len()
        }),
{
    let ghost all = text::views(parts@);
    let mut len: usize = parts.len();
    let mut shown: Vec<String> = text::clone_strings(parts);
    assert(shown@ =~= parts@.take(len as int));
    while len >= 3
        invariant
            len <= parts.len(),
            all == text::views(parts@),
            shown@ == parts@.take(len as int),
            owned_package(all, seen@, index@, parts@.len() as int) == owned_package(
                all,
                seen@,
                index@,
                len as int,
            ),
        decreases len,
    {
        let package = text::join(&shown, ".");
        assert(text::views(shown@) =~= all.take(len as int));
        if !seen.contains(package.as_str()) {
            let hits = package_hits_of(package.as_str(), index);
            let ghost h = package_hits(package@, index@, index@.len() as int);
            assert(hits@.len() == h.len());
            if hits.len() == 1 {
                assert(hits@.map_values(|i: usize| i as int)[0] == hits@[0]);
                return Some((package, hits[0]));
            }
        }
        shown.pop();
        assert(shown@ =~= parts@.take(len - 1));
        len = len - 1;
    }
    None
}

/// Reads [`frame_owner`].
fn frame_owner_of(
    line: &[char],
    seen: &vstd::hash_set::StringHashSet,
    index: &JarOwnershipIndex,
) -> (r: Option<(String, usize)>)
    ensures
        ({
            let o = frame_owner(line@, seen@, index@);
            &&& r is Some <==> o is Some
            &&& r is Some ==> (o->0).0 == (r->0).0@ && (o->0).1 == (r->0).1 && (r->0).1 < index.jars@.len()
        }),
{
    proof {
        reveal_strlit("at ");
    }
    if !has_prefix(line, "at ") {
        return None;
    }
    let rest = part(line, 3, line.len());
    let class = part(rest, 0, text::find_char(rest, '(', 0));
    let pieces = split_char(class, '.');
    let ghost all = text::split(class@, '.');
    assert(pieces@.len() == all.len());
    let mut parts: Vec<String> = Vec::new();
    let mut i: usize = 0;
    while i < pieces.len()
        invariant
            i <= pieces.len(),
            parts@.len() == i,
            pieces@.len() == all.len(),
            text::slices(pieces@) == all,
            forall|k: int| 0 <= k < i ==> (#[trigger] parts@[k])@ == all[k],
        decreases pieces.len() - i,
    {
        assert(text::slices(pieces@)[i as int] == pieces@[i as int]@);
        parts.push(from_chars(pieces[i]));
        i = i + 1;
    }
    assert(text::views(parts@) =~= all);
    owned_package_of(&parts, seen, index)
}

/// What the stack frames of a log say. This is weak: a part of the package must
/// be the mod ID of exactly one JAR.
pub fn parse_stack_frame_attribution(log: &[char], index: &JarOwnershipIndex) -> (r: Vec<
    ParsedEvidence,
>)
    ensures
        evidence_views(r@) == stack_frames(log@, index@),
{
    let list = split_lines(log);
    let ghost l = text::lines(log@);
    assert(list@.len() == l.len());
    let mut seen = vstd::hash_set::StringHashSet::new();
    let mut out: Vec<ParsedEvidence> = Vec::new();
    assert(evidence_views(out@) =~= seq![]);
    let mut i: usize = 0;
    while i < list.len()
        invariant
            i <= list.len(),
            list@.len() == l.len(),
            text::slices(list@) == l,
            seen@ == seen_below(l, index@, i as int),
            evidence_views(out@) == frames_below(l, index@, i as int),
        decreases list.len() - i,
    {
        assert(text::slices(list@)[i as int] == list@[i as int]@);
        let line = trimmed(list[i]);
        if let Some((package, at)) = frame_owner_of(line, &seen, index) {
            let ghost before = out@;
            assert(index@[at as int] == index.jars@[at as int]@);
            let e = make_evidence(
                CrashEvidenceSource::StackFrame,
                line,
                None,
                Some(index.jars[at].path.clone()),
            );
            out.push(e);
            assert(evidence_views(out@) =~= evidence_views(before).push(e@));
            seen.insert(package);
        }
        i = i + 1;
    }
    out
}

} // verus!
