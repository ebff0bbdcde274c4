//! Which mod a crash is most likely due to. This only reports: nothing is
//! changed, and nothing is said where the evidence is weak or contradicts
//! itself.
use vstd::prelude::*;

use crate::boot_failure_analyzer::InstalledFileRegistry;
use crate::crash_evidence;
use crate::crash_evidence::{
    parse_explicit_jar_paths, parse_explicit_mod_ids, parse_fabric_quilt_crash,
    parse_forge_mod_loading_exception, parse_mixin_attribution, parse_stack_frame_attribution,
    EvidenceView, ParsedEvidence,
};
use crate::jar_index;
use crate::jar_index::{JarOwnershipIndex, JarView, ScannedJar};
use crate::mod_compat::ServerCompatibility;
use crate::text;
use crate::text::{contains_str, dec_string, join, str_eq, to_chars};

pub use crate::crash_evidence::CrashEvidenceSource;

verus! {

/// How many candidates a report lists at most.
pub const MAX_CRASH_CANDIDATES: usize = 10;

/// How many pieces of evidence are kept for one candidate at most.
pub const MAX_EVIDENCE_PER_CANDIDATE: usize = 10;

/// Whether a mod was identified.
#[derive(Debug, Clone, Copy, PartialEq, Eq, Structural)]
pub enum CrashAttributionStatus {
    /// One was.
    Attributed,
    /// There are several candidates, and none can be picked.
    Ambiguous,
    /// There is no evidence worth the name.
    Unknown,
}

/// How sure it is.
#[derive(Debug, Clone, Copy, PartialEq, Eq, Structural)]
pub enum CrashAttributionConfidence {
    High,
    Medium,
    Low,
}

/// The family of mod loaders.
#[derive(Debug, Clone, Copy, PartialEq, Eq, Structural)]
pub enum LoaderFamily {
    Forge,
    NeoForge,
    Fabric,
    Quilt,
    Vanilla,
}

/// One piece of evidence.
#[derive(Debug, Clone)]
pub struct CrashEvidence {
    pub source: CrashEvidenceSource,
    pub matched_text: String,
    pub snippet: String,
    pub associated_mod_id: Option<String>,
    pub associated_jar: Option<String>,
}

/// A mod, or a JAR, that may have caused the crash.
#[derive(Debug, Clone)]
pub struct CrashCandidate {
    pub mod_id: Option<String>,
    pub jar_path: Option<String>,
    pub score: u32,
    pub evidence: Vec<CrashEvidence>,
    /// The JAR is for clients only.
    pub is_client_only: bool,
    /// The JAR's own metadata leaves open where it runs.
    pub is_unknown_compat: bool,
}

/// What to do about it. Nothing is done by itself.
#[derive(Debug, Clone)]
pub enum CrashRecommendation {
    /// Look at this mod.
    ReviewMod { mod_id: String, jar_path: Option<String> },
    /// Move this mod away by hand.
    SuggestManualQuarantine { mod_id: String },
    /// The evidence contradicts itself.
    ConflictingEvidence,
    /// Nothing can be recommended.
    NoSafeRecommendation,
    /// A mod for clients only was there, which must not be.
    UnexpectedClientOnlyPresent { mod_id: Option<String>, jar_path: Option<String> },
}

/// What is said about a crash.
#[derive(Debug, Clone)]
pub struct CrashAttributionReport {
    pub status: CrashAttributionStatus,
    pub confidence: CrashAttributionConfidence,
    /// The candidates, the strongest first.
    pub candidates: Vec<CrashCandidate>,
    /// The mod that was identified.
    pub primary_candidate: Option<CrashCandidate>,
    pub recommendation: CrashRecommendation,
    /// A sentence for people.
    pub summary: String,
}

/// What is known when a crash is looked at.
pub struct CrashAttributionContext<'a> {
    /// The files of the mods directory.
    pub staging_mods: &'a [ScannedJar],
    pub loader_family: LoaderFamily,
    /// Mods that were repaired lately. That is no evidence against them.
    pub recently_repaired: &'a [String],
    pub installed_registry: Option<&'a InstalledFileRegistry>,
}

// ---------------------------------------------------------------------
// Views
// ---------------------------------------------------------------------

impl View for CrashEvidence {
    type V = EvidenceView;

    open spec fn view(&self) -> EvidenceView {
        EvidenceView {
            source: self.source,
            matched_text: self.matched_text@,
            snippet: self.snippet@,
            mod_id: text::opt_view(self.associated_mod_id),
            jar_path: text::opt_view(self.associated_jar),
        }
    }
}

/// The texts of a list of evidence.
pub open spec fn kept_views(v: Seq<CrashEvidence>) -> Seq<EvidenceView> {
    v.map_values(|e: CrashEvidence| e@)
}

/// The text of a [`CrashCandidate`].
pub struct CandidateView {
    pub mod_id: Option<Seq<char>>,
    pub jar_path: Option<Seq<char>>,
    pub score: u32,
    pub evidence: Seq<EvidenceView>,
    pub is_client_only: bool,
    pub is_unknown_compat: bool,
}

impl View for CrashCandidate {
    type V = CandidateView;

    open spec fn view(&self) -> CandidateView {
        CandidateView {
            mod_id: text::opt_view(self.mod_id),
            jar_path: text::opt_view(self.jar_path),
            score: self.score,
            evidence: kept_views(self.evidence@),
            is_client_only: self.is_client_only,
            is_unknown_compat: self.is_unknown_compat,
        }
    }
}

/// The texts of a list of candidates.
pub open spec fn candidate_views(v: Seq<CrashCandidate>) -> Seq<CandidateView> {
    v.map_values(|c: CrashCandidate| c@)
}

/// The text of an optional candidate.
pub open spec fn opt_candidate(o: Option<CrashCandidate>) -> Option<CandidateView> {
    match o {
        Some(x) => Some(x@),
        None => None,
    }
}

/// The text of a [`CrashRecommendation`].
pub enum RecommendationView {
    ReviewMod(Seq<char>, Option<Seq<char>>),
    SuggestManualQuarantine(Seq<char>),
    ConflictingEvidence,
    NoSafeRecommendation,
    UnexpectedClientOnlyPresent(Option<Seq<char>>, Option<Seq<char>>),
}

impl View for CrashRecommendation {
    type V = RecommendationView;

    open spec fn view(&self) -> RecommendationView {
        match *self {
            CrashRecommendation::ReviewMod { mod_id, jar_path } => RecommendationView::ReviewMod(
                mod_id@,
                text::opt_view(jar_path),
            ),
            CrashRecommendation::SuggestManualQuarantine { mod_id } =>
                RecommendationView::SuggestManualQuarantine(mod_id@),
            CrashRecommendation::ConflictingEvidence => RecommendationView::ConflictingEvidence,
            CrashRecommendation::NoSafeRecommendation => RecommendationView::NoSafeRecommendation,
            CrashRecommendation::UnexpectedClientOnlyPresent { mod_id, jar_path } =>
                RecommendationView::UnexpectedClientOnlyPresent(
                text::opt_view(mod_id),
                text::opt_view(jar_path),
            ),
        }
    }
}

/// The text of a [`CrashAttributionReport`].
pub struct ReportView {
    pub status: CrashAttributionStatus,
    pub confidence: CrashAttributionConfidence,
    pub candidates: Seq<CandidateView>,
    pub primary_candidate: Option<CandidateView>,
    pub recommendation: RecommendationView,
    pub summary: Seq<char>,
}

impl View for CrashAttributionReport {
    type V = ReportView;

    open spec fn view(&self) -> ReportView {
        ReportView {
            status: self.status,
            confidence: self.confidence,
            candidates: candidate_views(self.candidates@),
            primary_candidate: opt_candidate(self.primary_candidate),
            recommendation: self.recommendation@,
            summary: self.summary@,
        }
    }
}

impl CrashEvidence {
    fn copied(&self) -> (r: Self)
        ensures
            r == *self,
    {
        CrashEvidence {
            source: self.source,
            matched_text: self.matched_text.clone(),
            snippet: self.snippet.clone(),
            associated_mod_id: self.associated_mod_id.clone(),
            associated_jar: self.associated_jar.clone(),
        }
    }
}

impl CrashCandidate {
    fn copied(&self) -> (r: Self)
        ensures
            r@ == self@,
    {
        let mut evidence: Vec<CrashEvidence> = Vec::new();
        let mut i: usize = 0;
        while i < self.evidence.len()
            invariant
                i <= self.evidence.len(),
                evidence@ == self.evidence@.take(i as int),
            decreases self.evidence.len() - i,
        {
            evidence.push(self.evidence[i].copied());
            assert(self.evidence@.take(i as int + 1) =~= self.evidence@.take(i as int).push(
                self.evidence@[i as int],
            ));
            i = i + 1;
        }
        assert(evidence@ =~= self.evidence@);
        CrashCandidate {
            mod_id: self.mod_id.clone(),
            jar_path: self.jar_path.clone(),
            score: self.score,
            evidence,
            is_client_only: self.is_client_only,
            is_unknown_compat: self.is_unknown_compat,
        }
    }
}

// ---------------------------------------------------------------------
// Candidates
// ---------------------------------------------------------------------

/// How much a piece of evidence weighs.
pub open spec fn weight(source: CrashEvidenceSource) -> u32 {
    match source {
        CrashEvidenceSource::LoaderDiagnostic => 100,
        CrashEvidenceSource::ExplicitJarPath => 90,
        CrashEvidenceSource::ModLoadingException => 100,
        CrashEvidenceSource::EntrypointCrash => 100,
        CrashEvidenceSource::MixinTarget => 70,
        CrashEvidenceSource::StackFrame => 30,
        CrashEvidenceSource::DependencyContext => 20,
    }
}

/// How much a piece of evidence weighs.
pub fn evidence_score(source: &CrashEvidenceSource) -> (r: u32)
    ensures
        r == weight(*source),
{
    match source {
        CrashEvidenceSource::LoaderDiagnostic => 100,
        CrashEvidenceSource::ExplicitJarPath => 90,
        CrashEvidenceSource::ModLoadingException => 100,
        CrashEvidenceSource::EntrypointCrash => 100,
        CrashEvidenceSource::MixinTarget => 70,
        CrashEvidenceSource::StackFrame => 30,
        CrashEvidenceSource::DependencyContext => 20,
    }
}

/// The JAR that evidence points to: the one that its path means, else the only
/// one that declares its mod ID.
pub open spec fn evidence_jar(jars: Seq<JarView>, e: EvidenceView) -> Option<Seq<char>> {
    let by_path = match e.jar_path {
        Some(p) => jar_index::found_jar(jars, p),
        None => None,
    };
    match by_path {
        Some(j) => Some(j.path),
        None => match e.mod_id {
            Some(id) => {
                let o = jar_index::owners_of(jars, id);
                if o.len() == 1 {
                    Some(jars[o[0]].path)
                } else {
                    None
                }
            },
            None => None,
        },
    }
}

/// The mod that evidence points to: its own mod ID, else the only one that its
/// JAR declares.
pub open spec fn evidence_mod(jars: Seq<JarView>, e: EvidenceView) -> Option<Seq<char>> {
    match e.mod_id {
        Some(id) => Some(id),
        None => match evidence_jar(jars, e) {
            Some(path) => match jar_index::jar_at(jars, path) {
                Some(j) => if j.mod_ids.len() == 1 {
                    Some(j.mod_ids[0])
                } else {
                    None
                },
                None => None,
            },
            None => None,
        },
    }
}

/// The JAR of a candidate, as the index knows it.
pub open spec fn jar_of(jars: Seq<JarView>, path: Option<Seq<char>>) -> Option<JarView> {
    match path {
        Some(p) => jar_index::jar_at(jars, p),
        None => None,
    }
}

/// A candidate without evidence.
pub open spec fn fresh(
    jars: Seq<JarView>,
    mod_id: Option<Seq<char>>,
    jar_path: Option<Seq<char>>,
) -> CandidateView {
    CandidateView {
        mod_id,
        jar_path,
        score: 0,
        evidence: seq![],
        is_client_only: match jar_of(jars, jar_path) {
            Some(j) => j.compatibility == ServerCompatibility::ClientOnly,
            None => false,
        },
        is_unknown_compat: match jar_of(jars, jar_path) {
            Some(j) => j.compatibility == ServerCompatibility::Unknown,
            None => false,
        },
    }
}

/// A candidate with one more piece of evidence: the weights add up, as far as
/// the number goes, and the first pieces are kept.
pub open spec fn strengthened(c: CandidateView, e: EvidenceView) -> CandidateView {
    CandidateView {
        score: if c.score + weight(e.source) > u32::MAX {
            u32::MAX
        } else {
            (c.score + weight(e.source)) as u32
        },
        evidence: if c.evidence.len() < MAX_EVIDENCE_PER_CANDIDATE {
            c.evidence.push(e)
        } else {
            c.evidence
        },
        ..c
    }
}

/// The first position from `i` on of the candidate for a mod and a JAR; the
/// number of candidates where there is none.
pub open spec fn candidate_index(
    cands: Seq<CandidateView>,
    mod_id: Option<Seq<char>>,
    jar_path: Option<Seq<char>>,
    i: int,
) -> int
    decreases cands.len() - i,
{
    if i < 0 || i >= cands.len() {
        cands.len() as int
    } else if cands[i].mod_id == mod_id && cands[i].jar_path == jar_path {
        i
    } else {
        candidate_index(cands, mod_id, jar_path, i + 1)
    }
}

/// The candidates with one more piece of evidence.
pub open spec fn with_evidence(
    cands: Seq<CandidateView>,
    jars: Seq<JarView>,
    e: EvidenceView,
) -> Seq<CandidateView> {
    let mod_id = evidence_mod(jars, e);
    let jar_path = evidence_jar(jars, e);
    let i = candidate_index(cands, mod_id, jar_path, 0);
    if 0 <= i < cands.len() {
        cands.update(i, strengthened(cands[i], e))
    } else {
        cands.push(strengthened(fresh(jars, mod_id, jar_path), e))
    }
}

/// The candidates that the first `n` pieces of evidence give, in the order of
/// their first piece.
pub open spec fn merged(evidence: Seq<EvidenceView>, jars: Seq<JarView>, n: int) -> Seq<
    CandidateView,
>
    decreases n,
{
    if n <= 0 {
        seq![]
    } else {
        with_evidence(merged(evidence, jars, n - 1), jars, evidence[n - 1])
    }
}

/// The position after the candidates, from `i` on, that are no weaker than a
/// score.
pub open spec fn rank(sorted: Seq<CandidateView>, score: u32, i: int) -> int
    decreases sorted.len() - i,
{
    if 0 <= i < sorted.len() && sorted[i].score >= score {
        rank(sorted, score, i + 1)
    } else {
        i
    }
}

/// The first `n` candidates, the strongest first; equals stay in order.
pub open spec fn ranked(cands: Seq<CandidateView>, n: int) -> Seq<CandidateView>
    decreases n,
{
    if n <= 0 {
        seq![]
    } else {
        let s = ranked(cands, n - 1);
        s.insert(rank(s, cands[n - 1].score, 0), cands[n - 1])
    }
}

/// At most ten items.
pub open spec fn capped(s: Seq<CandidateView>) -> Seq<CandidateView> {
    if s.len() > MAX_CRASH_CANDIDATES {
        s.take(MAX_CRASH_CANDIDATES as int)
    } else {
        s
    }
}

/// The candidates of a report.
pub open spec fn candidates_for(evidence: Seq<EvidenceView>, jars: Seq<JarView>) -> Seq<
    CandidateView,
> {
    let m = merged(evidence, jars, evidence.len() as int);
    capped(ranked(m, m.len() as int))
}

proof fn lemma_rank(s: Seq<CandidateView>, score: u32, i: int)
    requires
        0 <= i <= s.len(),
    ensures
        i <= rank(s, score, i) <= s.len(),
        forall|k: int| i <= k < rank(s, score, i) ==> (#[trigger] s[k]).score >= score,
        rank(s, score, i) < s.len() ==> s[rank(s, score, i)].score < score,
    decreases s.len() - i,
{
    if i < s.len() && s[i].score >= score {
        lemma_rank(s, score, i + 1);
    }
}

/// Ranking loses and invents nothing, and puts the stronger before the weaker.
pub proof fn law_ranked(cands: Seq<CandidateView>, n: int)
    requires
        0 <= n <= cands.len(),
    ensures
        ranked(cands, n).len() == n,
        ranked(cands, n).to_multiset() == cands.take(n).to_multiset(),
        forall|i: int, j: int|
            0 <= i <= j < n ==> (#[trigger] ranked(cands, n)[i]).score >= (#[trigger] ranked(
                cands,
                n,
            )[j]).score,
    decreases n,
{
    broadcast use vstd::seq_lib::group_to_multiset_ensures;

    if n > 0 {
        law_ranked(cands, n - 1);
        let s = ranked(cands, n - 1);
        let c = cands[n - 1];
        let p = rank(s, c.score, 0);
        lemma_rank(s, c.score, 0);
        let t = s.insert(p, c);
        assert(cands.take(n) =~= cands.take(n - 1).push(c));
        assert(t.to_multiset() =~= s.to_multiset().insert(c));
        assert forall|i: int, j: int| 0 <= i <= j < n implies (#[trigger] t[i]).score >= (
        #[trigger] t[j]).score by {
            if i < p && j > p {
                assert(s[i].score >= s[j - 1].score);
            } else if i == p && j > p {
                assert(s[p].score >= s[j - 1].score);
            } else if i < p && j < p {
                assert(s[i].score >= s[j].score);
            } else if i > p {
                assert(s[i - 1].score >= s[j - 1].score);
            }
        }
    } else {
        assert(cands.take(0) =~= seq![]);
    }
}

/// A report lists at most ten candidates, each with at most ten pieces of
/// evidence and at least one, the strongest first.
pub proof fn law_candidates_bounded(evidence: Seq<EvidenceView>, jars: Seq<JarView>)
    ensures
        candidates_for(evidence, jars).len() <= MAX_CRASH_CANDIDATES,
        forall|i: int|
            0 <= i < candidates_for(evidence, jars).len() ==> 1 <= (#[trigger] candidates_for(
                evidence,
                jars,
            )[i]).evidence.len() <= MAX_EVIDENCE_PER_CANDIDATE,
        forall|i: int, j: int|
            0 <= i <= j < candidates_for(evidence, jars).len() ==> (#[trigger] candidates_for(
                evidence,
                jars,
            )[i]).score >= (#[trigger] candidates_for(evidence, jars)[j]).score,
{
    broadcast use vstd::seq_lib::group_to_multiset_ensures;

    let m = merged(evidence, jars, evidence.len() as int);
    let n = m.len() as int;
    law_merged(evidence, jars, evidence.len() as int);
    law_ranked(m, n);
    assert(m.take(n) =~= m);
    let s = ranked(m, n);
    assert forall|i: int| 0 <= i < s.len() implies 1 <= (#[trigger] s[i]).evidence.len()
        <= MAX_EVIDENCE_PER_CANDIDATE by {
        assert(s.contains(s[i]));
        assert(s.to_multiset().count(s[i]) > 0);
        assert(m.contains(s[i]));
        let k = choose|k: int| 0 <= k < m.len() && m[k] == s[i];
        assert(1 <= m[k].evidence.len() <= MAX_EVIDENCE_PER_CANDIDATE);
    }
}

/// What holds of the candidate that is found for a mod and a JAR.
proof fn lemma_candidate_index(
    cands: Seq<CandidateView>,
    mod_id: Option<Seq<char>>,
    jar_path: Option<Seq<char>>,
    i: int,
)
    requires
        0 <= i <= cands.len(),
    ensures
        i <= candidate_index(cands, mod_id, jar_path, i) <= cands.len(),
        ({
            let k = candidate_index(cands, mod_id, jar_path, i);
            k < cands.len() ==> cands[k].mod_id == mod_id && cands[k].jar_path == jar_path
        }),
        forall|k: int|
            i <= k < candidate_index(cands, mod_id, jar_path, i) ==> !((
            #[trigger] cands[k]).mod_id == mod_id && cands[k].jar_path == jar_path),
    decreases cands.len() - i,
{
    if i < cands.len() && !(cands[i].mod_id == mod_id && cands[i].jar_path == jar_path) {
        lemma_candidate_index(cands, mod_id, jar_path, i + 1);
    }
}

/// Evidence for the same mod and JAR makes one candidate: no two candidates
/// are for the same two, and each has between one and ten pieces.
pub proof fn law_merged(evidence: Seq<EvidenceView>, jars: Seq<JarView>, n: int)
    requires
        0 <= n <= evidence.len(),
    ensures
        merged(evidence, jars, n).len() <= n,
        forall|i: int|
            0 <= i < merged(evidence, jars, n).len() ==> 1 <= (#[trigger] merged(
                evidence,
                jars,
                n,
            )[i]).evidence.len() <= MAX_EVIDENCE_PER_CANDIDATE,
        forall|i: int, j: int|
            0 <= i < j < merged(evidence, jars, n).len() ==> !((#[trigger] merged(
                evidence,
                jars,
                n,
            )[i]).mod_id == (#[trigger] merged(evidence, jars, n)[j]).mod_id && merged(
                evidence,
                jars,
                n,
            )[i].jar_path == merged(evidence, jars, n)[j].jar_path),
    decreases n,
{
    if n > 0 {
        law_merged(evidence, jars, n - 1);
        let prev = merged(evidence, jars, n - 1);
        let e = evidence[n - 1];
        lemma_candidate_index(prev, evidence_mod(jars, e), evidence_jar(jars, e), 0);
    }
}

/// The weight of the pieces, among the first `n`, that point to a mod and a JAR.
pub open spec fn weight_of(
    evidence: Seq<EvidenceView>,
    jars: Seq<JarView>,
    mod_id: Option<Seq<char>>,
    jar_path: Option<Seq<char>>,
    n: int,
) -> nat
    decreases n,
{
    if n <= 0 {
        0
    } else {
        let e = evidence[n - 1];
        weight_of(evidence, jars, mod_id, jar_path, n - 1) + (if evidence_mod(jars, e) == mod_id
            && evidence_jar(jars, e) == jar_path {
            weight(e.source) as nat
        } else {
            0
        })
    }
}

/// A number, as far as a score can hold it.
pub open spec fn as_score(n: nat) -> u32 {
    if n > u32::MAX {
        u32::MAX
    } else {
        n as u32
    }
}

/// The score of each candidate is the weight of all the evidence that points to
/// it, also of the pieces that are not kept; for a mod and a JAR that are no
/// candidate there is no evidence.
pub proof fn law_merged_scores(evidence: Seq<EvidenceView>, jars: Seq<JarView>, n: int)
    requires
        0 <= n <= evidence.len(),
    ensures
        forall|i: int|
            0 <= i < merged(evidence, jars, n).len() ==> (#[trigger] merged(
                evidence,
                jars,
                n,
            )[i]).score == as_score(
                weight_of(
                    evidence,
                    jars,
                    merged(evidence, jars, n)[i].mod_id,
                    merged(evidence, jars, n)[i].jar_path,
                    n,
                ),
            ),
        forall|m: Option<Seq<char>>, j: Option<Seq<char>>|
            candidate_index(merged(evidence, jars, n), m, j, 0) == merged(evidence, jars, n).len()
                ==> #[trigger] weight_of(evidence, jars, m, j, n) == 0,
    decreases n,
{
    if n > 0 {
        law_merged_scores(evidence, jars, n - 1);
        law_merged(evidence, jars, n - 1);
        let prev = merged(evidence, jars, n - 1);
        let now = merged(evidence, jars, n);
        let e = evidence[n - 1];
        let em = evidence_mod(jars, e);
        let ej = evidence_jar(jars, e);
        let at = candidate_index(prev, em, ej, 0);
        lemma_candidate_index(prev, em, ej, 0);
        assert forall|i: int| 0 <= i < now.len() implies (#[trigger] now[i]).score == as_score(
            weight_of(evidence, jars, now[i].mod_id, now[i].jar_path, n),
        ) by {
            if i == at {
                if at == prev.len() {
                    assert(weight_of(evidence, jars, em, ej, n - 1) == 0);
                }
            } else {
                assert(now[i] == prev[i]);
            }
        }
        assert forall|m: Option<Seq<char>>, j: Option<Seq<char>>|
            candidate_index(now, m, j, 0) == now.len() implies #[trigger] weight_of(
            evidence,
            jars,
            m,
            j,
            n,
        ) == 0 by {
            lemma_candidate_index(now, m, j, 0);
            lemma_candidate_index(prev, m, j, 0);
            let p = candidate_index(prev, m, j, 0);
            if p < prev.len() {
                assert(now[p].mod_id == m && now[p].jar_path == j);
            }
            assert(weight_of(evidence, jars, m, j, n - 1) == 0);
            if em == m && ej == j {
                assert(now[at].mod_id == m && now[at].jar_path == j);
            }
        }
    }
}

/// In a report, the score of each candidate is the weight of all the evidence
/// that points to it, as far as the number goes.
pub proof fn law_score_is_the_weight(evidence: Seq<EvidenceView>, jars: Seq<JarView>, i: int)
    requires
        0 <= i < candidates_for(evidence, jars).len(),
    ensures
        candidates_for(evidence, jars)[i].score == as_score(
            weight_of(
                evidence,
                jars,
                candidates_for(evidence, jars)[i].mod_id,
                candidates_for(evidence, jars)[i].jar_path,
                evidence.len() as int,
            ),
        ),
{
    broadcast use vstd::seq_lib::group_to_multiset_ensures;

    let m = merged(evidence, jars, evidence.len() as int);
    let n = m.len() as int;
    law_merged_scores(evidence, jars, evidence.len() as int);
    law_ranked(m, n);
    assert(m.take(n) =~= m);
    let s = ranked(m, n);
    assert(candidates_for(evidence, jars)[i] == s[i]);
    assert(s.contains(s[i]));
    assert(s.to_multiset().count(s[i]) > 0);
    assert(m.contains(s[i]));
    let k = choose|k: int| 0 <= k < m.len() && m[k] == s[i];
    assert(m[k].score == as_score(
        weight_of(evidence, jars, m[k].mod_id, m[k].jar_path, evidence.len() as int),
    ));
}

/// Builds the candidates from the evidence. Which mods were repaired lately
/// plays no part.
pub fn build_candidates(
    evidence: &Vec<ParsedEvidence>,
    index: &JarOwnershipIndex,
    _recently_repaired: &[String],
) -> (r: Vec<CrashCandidate>)
    ensures
        candidate_views(r@) == candidates_for(
            crash_evidence::evidence_views(evidence@),
            index@,
        ),
{
    let ghost ev = crash_evidence::evidence_views(evidence@);
    let mut cands: Vec<CrashCandidate> = Vec::new();
    assert(candidate_views(cands@) =~= seq![]);
    let mut i: usize = 0;
    while i < evidence.len()
        invariant
            i <= evidence.len(),
            ev == crash_evidence::evidence_views(evidence@),
            candidate_views(cands@) == merged(ev, index@, i as int),
        decreases evidence.len() - i,
    {
        assert(ev[i as int] == evidence@[i as int]@);
        add_evidence(&mut cands, &evidence[i], index);
        i = i + 1;
    }
    assert(ev.len() == evidence@.len());
    let mut sorted = sort_by_score(cands);
    if sorted.len() > MAX_CRASH_CANDIDATES {
        let ghost before = sorted@;
        sorted.truncate(MAX_CRASH_CANDIDATES);
        assert(candidate_views(sorted@) =~= candidate_views(before).take(
            MAX_CRASH_CANDIDATES as int,
        ));
    }
    sorted
}

/// The JAR that evidence points to.
fn resolve_jar(e: &ParsedEvidence, index: &JarOwnershipIndex) -> (r: Option<String>)
    ensures
        text::opt_view(r) == evidence_jar(index@, e@),
{
    if let Some(p) = &e.jar_path {
        if let Some(j) = index.find_jar(p.as_str()) {
            return Some(j.path.clone());
        }
    }
    if let Some(id) = &e.mod_id {
        let o = index.owners(id.as_str());
        if o.len() == 1 {
            assert(index@[o@[0] as int] == index.jars@[o@[0] as int]@);
            return Some(index.jars[o[0]].path.clone());
        }
    }
    None
}

/// The mod that evidence points to, given its JAR.
fn resolve_mod(e: &ParsedEvidence, jar: &Option<String>, index: &JarOwnershipIndex) -> (r: Option<
    String,
>)
    requires
        text::opt_view(*jar) == evidence_jar(index@, e@),
    ensures
        text::opt_view(r) == evidence_mod(index@, e@),
{
    if let Some(id) = &e.mod_id {
        return Some(id.clone());
    }
    if let Some(path) = jar {
        if let Some(j) = index.with_path(path.as_str()) {
            if j.mod_ids.len() == 1 {
                assert(text::views(j.mod_ids@)[0] == j.mod_ids@[0]@);
                return Some(j.mod_ids[0].clone());
            }
        }
    }
    None
}

/// Whether two optional texts are the same.
fn opt_eq(a: &Option<String>, b: &Option<String>) -> (r: bool)
    ensures
        r == (text::opt_view(*a) == text::opt_view(*b)),
{
    match (a, b) {
        (Some(x), Some(y)) => str_eq(x.as_str(), y.as_str()),
        (None, None) => true,
        _ => false,
    }
}

/// Adds a piece of evidence to its candidate.
fn add_evidence(cands: &mut Vec<CrashCandidate>, e: &ParsedEvidence, index: &JarOwnershipIndex)
    ensures
        candidate_views(final(cands)@) == with_evidence(
            candidate_views(old(cands)@),
            index@,
            e@,
        ),
{
    let jar = resolve_jar(e, index);
    let mod_id = resolve_mod(e, &jar, index);
    let ghost before = candidate_views(cands@);
    let ghost mv = evidence_mod(index@, e@);
    let ghost jv = evidence_jar(index@, e@);
    let mut i: usize = 0;
    while i < cands.len() && !(opt_eq(&cands[i].mod_id, &mod_id) && opt_eq(
        &cands[i].jar_path,
        &jar,
    ))
        invariant
            i <= cands.len(),
            cands@ == old(cands)@,
            before == candidate_views(cands@),
            mv == text::opt_view(mod_id),
            jv == text::opt_view(jar),
            candidate_index(before, mv, jv, 0) == candidate_index(before, mv, jv, i as int),
        decreases cands.len() - i,
    {
        assert(before[i as int] == cands@[i as int]@);
        i = i + 1;
    }
    if i < cands.len() {
        assert(before[i as int] == cands@[i as int]@);
        let mut c = cands[i].copied();
        strengthen(&mut c, e);
        let ghost cv = c@;
        cands.set(i, c);
        assert(candidate_views(cands@) =~= before.update(i as int, cv));
    } else {
        let mut c = fresh_candidate(mod_id, jar, index);
        strengthen(&mut c, e);
        let ghost cv = c@;
        cands.push(c);
        assert(candidate_views(cands@) =~= before.push(cv));
    }
}

/// A candidate without evidence.
fn fresh_candidate(
    mod_id: Option<String>,
    jar_path: Option<String>,
    index: &JarOwnershipIndex,
) -> (r: CrashCandidate)
    ensures
        r@ == fresh(index@, text::opt_view(mod_id), text::opt_view(jar_path)),
{
    let mut is_client_only = false;
    let mut is_unknown_compat = false;
    if let Some(p) = &jar_path {
        if let Some(j) = index.with_path(p.as_str()) {
            is_client_only = j.compatibility.compatibility == ServerCompatibility::ClientOnly;
            is_unknown_compat = j.compatibility.compatibility == ServerCompatibility::Unknown;
        }
    }
    let evidence: Vec<CrashEvidence> = Vec::new();
    assert(kept_views(evidence@) =~= seq![]);
    CrashCandidate { mod_id, jar_path, score: 0, evidence, is_client_only, is_unknown_compat }
}

/// Adds a piece of evidence.
fn strengthen(c: &mut CrashCandidate, e: &ParsedEvidence)
    ensures
        final(c)@ == strengthened(old(c)@, e@),
{
    let w = evidence_score(&e.source);
    c.score = if c.score > u32::MAX - w {
        u32::MAX
    } else {
        c.score + w
    };
    if c.evidence.len() < MAX_EVIDENCE_PER_CANDIDATE {
        let ghost before = c.evidence@;
        let kept = CrashEvidence {
            source: e.source,
            matched_text: e.matched_text.clone(),
            snippet: e.snippet.clone(),
            associated_mod_id: e.mod_id.clone(),
            associated_jar: e.jar_path.clone(),
        };
        assert(kept@ == e@);
        c.evidence.push(kept);
        assert(kept_views(c.evidence@) =~= kept_views(before).push(kept@));
    }
}

/// Puts the strongest first; equals stay in order.
fn sort_by_score(cands: Vec<CrashCandidate>) -> (r: Vec<CrashCandidate>)
    ensures
        candidate_views(r@) == ranked(candidate_views(cands@), cands@.len() as int),
{
    let ghost all = candidate_views(cands@);
    let mut out: Vec<CrashCandidate> = Vec::new();
    assert(candidate_views(out@) =~= seq![]);
    let mut i: usize = 0;
    while i < cands.len()
        invariant
            i <= cands.len(),
            all == candidate_views(cands@),
            candidate_views(out@) == ranked(all, i as int),
        decreases cands.len() - i,
    {
        let c = cands[i].copied();
        let ghost s = candidate_views(out@);
        assert(all[i as int] == c@);
        let mut p: usize = 0;
        while p < out.len() && out[p].score >= c.score
            invariant
                p <= out.len(),
                s == candidate_views(out@),
                rank(s, c.score, 0) == rank(s, c.score, p as int),
            decreases out.len() - p,
        {
            assert(s[p as int] == out@[p as int]@);
            p = p + 1;
        }
        if p < out.len() {
            assert(s[p as int] == out@[p as int]@);
        }
        let ghost cv = c@;
        out.insert(p, c);
        assert(candidate_views(out@) =~= s.insert(p as int, cv));
        i = i + 1;
    }
    out
}

// ---------------------------------------------------------------------
// The verdict
// ---------------------------------------------------------------------

/// Whether evidence names a mod outright.
pub open spec fn names_mod(e: EvidenceView) -> bool {
    e.mod_id is Some && (e.source == CrashEvidenceSource::LoaderDiagnostic || e.source
        == CrashEvidenceSource::EntrypointCrash || e.source
        == CrashEvidenceSource::ModLoadingException)
}

/// Whether evidence names a JAR outright.
pub open spec fn names_jar(e: EvidenceView) -> bool {
    e.jar_path is Some && (e.source == CrashEvidenceSource::ExplicitJarPath || e.source
        == CrashEvidenceSource::ModLoadingException)
}

/// Whether some evidence for a candidate names a mod outright.
pub open spec fn has_explicit_mod(c: CandidateView) -> bool {
    exists|k: int| 0 <= k < c.evidence.len() && names_mod(#[trigger] c.evidence[k])
}

/// Whether some evidence for a candidate names a JAR outright.
pub open spec fn has_explicit_jar(c: CandidateView) -> bool {
    exists|k: int| 0 <= k < c.evidence.len() && names_jar(#[trigger] c.evidence[k])
}

/// Whether some evidence for a candidate is of this kind.
pub open spec fn has_source(c: CandidateView, source: CrashEvidenceSource) -> bool {
    exists|k: int| 0 <= k < c.evidence.len() && (#[trigger] c.evidence[k]).source == source
}

/// How sure the evidence makes a candidate. A mod that is named outright, and a
/// JAR that is and has metadata, is sure; mixins and stack frames are less so,
/// and only where they lead to a mod.
pub open spec fn confidence_of(c: CandidateView, jars: Seq<JarView>) -> CrashAttributionConfidence {
    if has_explicit_mod(c) {
        CrashAttributionConfidence::High
    } else if has_explicit_jar(c) && jar_of(jars, c.jar_path) is Some && jar_of(
        jars,
        c.jar_path,
    )->0.mod_ids.len() > 0 {
        CrashAttributionConfidence::High
    } else if c.mod_id is Some && (has_source(c, CrashEvidenceSource::MixinTarget) || has_source(
        c,
        CrashEvidenceSource::StackFrame,
    )) {
        CrashAttributionConfidence::Medium
    } else {
        CrashAttributionConfidence::Low
    }
}

/// Whether two strong candidates are different mods.
pub open spec fn strong_ones_disagree(cands: Seq<CandidateView>) -> bool {
    exists|i: int, j: int|
        0 <= i < cands.len() && 0 <= j < cands.len() && (#[trigger] cands[i]).score >= 90 && (
        #[trigger] cands[j]).score >= 90 && cands[i].mod_id is Some && cands[j].mod_id is Some
            && cands[i].mod_id != cands[j].mod_id
}

/// Whether a candidate's mod and JAR, both named outright, do not belong
/// together.
pub open spec fn contradicts_itself(c: CandidateView, jars: Seq<JarView>) -> bool {
    let j = jar_of(jars, c.jar_path);
    has_explicit_mod(c) && has_explicit_jar(c) && j is Some && c.mod_id is Some
        && j->0.mod_ids.len() > 0 && !j->0.mod_ids.contains(c.mod_id->0)
}

/// The status, the confidence and the mod that was identified.
pub struct Verdict {
    pub status: CrashAttributionStatus,
    pub confidence: CrashAttributionConfidence,
    pub primary: Option<CandidateView>,
}

/// Nothing can be picked.
pub open spec fn ambiguous(confidence: CrashAttributionConfidence) -> Verdict {
    Verdict { status: CrashAttributionStatus::Ambiguous, confidence, primary: None }
}

/// There is nothing to go by.
pub open spec fn unknown() -> Verdict {
    Verdict {
        status: CrashAttributionStatus::Unknown,
        confidence: CrashAttributionConfidence::Low,
        primary: None,
    }
}

/// The verdict on the candidates, of which the first is the strongest. Evidence
/// that leads to no mod and no JAR of the build identifies nothing, however
/// strong it is.
pub open spec fn verdict(cands: Seq<CandidateView>, jars: Seq<JarView>) -> Verdict {
    if cands.len() == 0 {
        unknown()
    } else {
        let top = cands[0];
        let c = confidence_of(top, jars);
        if strong_ones_disagree(cands) || (exists|k: int|
            0 <= k < cands.len() && contradicts_itself(#[trigger] cands[k], jars)) {
            ambiguous(CrashAttributionConfidence::Low)
        } else if top.mod_id is Some && jar_index::owners_of(jars, top.mod_id->0).len() > 1 {
            ambiguous(CrashAttributionConfidence::Low)
        } else if top.mod_id is None && jar_of(jars, top.jar_path) is Some && jar_of(
            jars,
            top.jar_path,
        )->0.mod_ids.len() > 1 {
            ambiguous(CrashAttributionConfidence::Low)
        } else if top.mod_id is None && top.jar_path is None {
            unknown()
        } else if c == CrashAttributionConfidence::Medium {
            if cands.len() == 1 || top.score > cands[1].score {
                Verdict {
                    status: CrashAttributionStatus::Attributed,
                    confidence: CrashAttributionConfidence::Medium,
                    primary: Some(top),
                }
            } else {
                ambiguous(CrashAttributionConfidence::Medium)
            }
        } else if c == CrashAttributionConfidence::High || top.score >= 90 {
            Verdict {
                status: CrashAttributionStatus::Attributed,
                confidence: CrashAttributionConfidence::High,
                primary: Some(top),
            }
        } else {
            unknown()
        }
    }
}

/// Whether some evidence for a candidate names a mod (or a JAR) outright.
fn any_explicit(c: &CrashCandidate, jar: bool) -> (r: bool)
    ensures
        r == (if jar {
            has_explicit_jar(c@)
        } else {
            has_explicit_mod(c@)
        }),
{
    let mut i: usize = 0;
    while i < c.evidence.len()
        invariant
            i <= c.evidence.len(),
            forall|k: int|
                0 <= k < i ==> !(if jar {
                    names_jar(#[trigger] c@.evidence[k])
                } else {
                    names_mod(c@.evidence[k])
                }),
        decreases c.evidence.len() - i,
    {
        let e = &c.evidence[i];
        assert(c@.evidence[i as int] == e@);
        let by_mod = e.source == CrashEvidenceSource::LoaderDiagnostic || e.source
            == CrashEvidenceSource::EntrypointCrash || e.source
            == CrashEvidenceSource::ModLoadingException;
        let by_jar = e.source == CrashEvidenceSource::ExplicitJarPath || e.source
            == CrashEvidenceSource::ModLoadingException;
        if (!jar && by_mod && e.associated_mod_id.is_some()) || (jar && by_jar
            && e.associated_jar.is_some()) {
            return true;
        }
        i = i + 1;
    }
    assert(c@.evidence.len() == c.evidence@.len());
    false
}

/// Whether some evidence for a candidate is of this kind.
fn any_source(c: &CrashCandidate, source: CrashEvidenceSource) -> (r: bool)
    ensures
        r == has_source(c@, source),
{
    let mut i: usize = 0;
    while i < c.evidence.len()
        invariant
            i <= c.evidence.len(),
            forall|k: int| 0 <= k < i ==> (#[trigger] c@.evidence[k]).source != source,
        decreases c.evidence.len() - i,
    {
        assert(c@.evidence[i as int] == c.evidence@[i as int]@);
        if c.evidence[i].source == source {
            return true;
        }
        i = i + 1;
    }
    assert(c@.evidence.len() == c.evidence@.len());
    false
}

/// How sure the evidence makes a candidate.
pub fn classify_confidence(candidate: &CrashCandidate, index: &JarOwnershipIndex) -> (r:
    CrashAttributionConfidence)
    ensures
        r == confidence_of(candidate@, index@),
{
    if any_explicit(candidate, false) {
        return CrashAttributionConfidence::High;
    }
    if any_explicit(candidate, true) {
        if let Some(p) = &candidate.jar_path {
            if let Some(j) = index.with_path(p.as_str()) {
                if j.mod_ids.len() > 0 {
                    return CrashAttributionConfidence::High;
                }
            }
        }
    }
    if candidate.mod_id.is_some() && (any_source(candidate, CrashEvidenceSource::MixinTarget)
        || any_source(candidate, CrashEvidenceSource::StackFrame)) {
        return CrashAttributionConfidence::Medium;
    }
    CrashAttributionConfidence::Low
}

/// Whether two strong candidates are different mods.
fn disagree(cands: &Vec<CrashCandidate>) -> (r: bool)
    ensures
        r == strong_ones_disagree(candidate_views(cands@)),
{
    let ghost v = candidate_views(cands@);
    let mut i: usize = 0;
    while i < cands.len()
        invariant
            i <= cands.len(),
            v == candidate_views(cands@),
            forall|a: int, b: int|
                0 <= a < i && 0 <= b < v.len() ==> !((#[trigger] v[a]).score >= 90 && (
                #[trigger] v[b]).score >= 90 && v[a].mod_id is Some && v[b].mod_id is Some
                    && v[a].mod_id != v[b].mod_id),
        decreases cands.len() - i,
    {
        let mut j: usize = 0;
        while j < cands.len()
            invariant
                i < cands.len(),
                j <= cands.len(),
                v == candidate_views(cands@),
                forall|b: int|
                    0 <= b < j ==> !(v[i as int].score >= 90 && (#[trigger] v[b]).score >= 90
                        && v[i as int].mod_id is Some && v[b].mod_id is Some && v[i as int].mod_id
                        != v[b].mod_id),
            decreases cands.len() - j,
        {
            assert(v[i as int] == cands@[i as int]@);
            assert(v[j as int] == cands@[j as int]@);
            if cands[i].score >= 90 && cands[j].score >= 90 && cands[i].mod_id.is_some()
                && cands[j].mod_id.is_some() && !opt_eq(&cands[i].mod_id, &cands[j].mod_id) {
                return true;
            }
            j = j + 1;
        }
        i = i + 1;
    }
    assert(v.len() == cands@.len());
    false
}

/// Whether some candidate's mod and JAR do not belong together.
fn any_contradiction(cands: &Vec<CrashCandidate>, index: &JarOwnershipIndex) -> (r: bool)
    ensures
        r == (exists|k: int|
            0 <= k < candidate_views(cands@).len() && contradicts_itself(
                #[trigger] candidate_views(cands@)[k],
                index@,
            )),
{
    let ghost v = candidate_views(cands@);
    let mut i: usize = 0;
    while i < cands.len()
        invariant
            i <= cands.len(),
            v == candidate_views(cands@),
            forall|k: int| 0 <= k < i ==> !contradicts_itself(#[trigger] v[k], index@),
        decreases cands.len() - i,
    {
        let c = &cands[i];
        assert(v[i as int] == c@);
        if any_explicit(c, false) && any_explicit(c, true) {
            if let (Some(p), Some(id)) = (&c.jar_path, &c.mod_id) {
                if let Some(j) = index.with_path(p.as_str()) {
                    if j.mod_ids.len() > 0 && !contains_str(&j.mod_ids, id.as_str()) {
                        assert(contradicts_itself(v[i as int], index@));
                        return true;
                    }
                }
            }
        }
        i = i + 1;
    }
    false
}

/// The verdict on the candidates, of which the first is the strongest.
pub fn determine_attribution(candidates: &Vec<CrashCandidate>, index: &JarOwnershipIndex) -> (r: (
    CrashAttributionStatus,
    CrashAttributionConfidence,
    Option<CrashCandidate>,
))
    ensures
        ({
            let v = verdict(candidate_views(candidates@), index@);
            r.0 == v.status && r.1 == v.confidence && opt_candidate(r.2) == v.primary
        }),
{
    let ghost cv = candidate_views(candidates@);
    assert(cv.len() == candidates@.len());
    if candidates.len() == 0 {
        return (CrashAttributionStatus::Unknown, CrashAttributionConfidence::Low, None);
    }
    let top = &candidates[0];
    assert(cv[0] == top@);
    if disagree(candidates) || any_contradiction(candidates, index) {
        return (CrashAttributionStatus::Ambiguous, CrashAttributionConfidence::Low, None);
    }
    let confidence = classify_confidence(top, index);
    match &top.mod_id {
        Some(id) => {
            if index.owners(id.as_str()).len() > 1 {
                return (CrashAttributionStatus::Ambiguous, CrashAttributionConfidence::Low, None);
            }
        },
        None => match &top.jar_path {
            Some(p) => {
                if let Some(j) = index.with_path(p.as_str()) {
                    if j.mod_ids.len() > 1 {
                        return (
                            CrashAttributionStatus::Ambiguous,
                            CrashAttributionConfidence::Low,
                            None,
                        );
                    }
                }
            },
            None => {
                return (CrashAttributionStatus::Unknown, CrashAttributionConfidence::Low, None);
            },
        },
    }
    match confidence {
        CrashAttributionConfidence::Medium => {
            if candidates.len() > 1 {
                assert(cv[1] == candidates@[1]@);
            }
            if candidates.len() == 1 || top.score > candidates[1].score {
                (
                    CrashAttributionStatus::Attributed,
                    CrashAttributionConfidence::Medium,
                    Some(top.copied()),
                )
            } else {
                (CrashAttributionStatus::Ambiguous, CrashAttributionConfidence::Medium, None)
            }
        },
        CrashAttributionConfidence::High => (
            CrashAttributionStatus::Attributed,
            CrashAttributionConfidence::High,
            Some(top.copied()),
        ),
        CrashAttributionConfidence::Low => {
            if top.score >= 90 {
                (
                    CrashAttributionStatus::Attributed,
                    CrashAttributionConfidence::High,
                    Some(top.copied()),
                )
            } else {
                (CrashAttributionStatus::Unknown, CrashAttributionConfidence::Low, None)
            }
        },
    }
}

// ---------------------------------------------------------------------
// What is said
// ---------------------------------------------------------------------

/// A mod ID for people.
pub open spec fn shown_id(id: Option<Seq<char>>) -> Seq<char> {
    match id {
        Some(s) => s,
        None => "unknown"@,
    }
}

/// What to do.
pub open spec fn recommendation(v: Verdict) -> RecommendationView {
    match v.status {
        CrashAttributionStatus::Attributed => if v.primary is Some && v.confidence
            != CrashAttributionConfidence::Low {
            RecommendationView::ReviewMod(
                shown_id(v.primary->0.mod_id),
                v.primary->0.jar_path,
            )
        } else {
            RecommendationView::NoSafeRecommendation
        },
        CrashAttributionStatus::Ambiguous => RecommendationView::ConflictingEvidence,
        CrashAttributionStatus::Unknown => RecommendationView::NoSafeRecommendation,
    }
}

/// The mod IDs of the first `n` candidates that have one.
pub open spec fn named_below(cands: Seq<CandidateView>, n: int) -> Seq<Seq<char>>
    decreases n,
{
    if n <= 0 {
        seq![]
    } else if cands[n - 1].mod_id is Some {
        named_below(cands, n - 1).push(cands[n - 1].mod_id->0)
    } else {
        named_below(cands, n - 1)
    }
}

/// The sentence for people.
pub open spec fn summary(v: Verdict, cands: Seq<CandidateView>) -> Seq<char> {
    let names = named_below(cands, cands.len() as int);
    match v.status {
        CrashAttributionStatus::Attributed => match v.primary {
            Some(p) => match v.confidence {
                CrashAttributionConfidence::High => "Likely responsible mod: "@ + shown_id(p.mod_id)
                    + " (confidence: High). Evidence: "@ + text::dec(p.evidence.len())
                    + " items."@,
                CrashAttributionConfidence::Medium => "Possible crash source: "@ + shown_id(
                    p.mod_id,
                ) + " (confidence: Medium). Evidence: "@ + text::dec(p.evidence.len())
                    + " items."@,
                CrashAttributionConfidence::Low => "Weak attribution to: "@ + shown_id(p.mod_id)
                    + " (confidence: Low)."@,
            },
            None => "Attributed but no primary candidate identified."@,
        },
        CrashAttributionStatus::Ambiguous => if names.len() == 0 {
            "Multiple possible crash sources found but none could be identified by mod_id."@
        } else {
            "Multiple possible crash sources: "@ + text::joined(names, ", "@)
                + ". Cannot identify one safely."@
        },
        CrashAttributionStatus::Unknown =>
            "No crash source could be identified from available evidence."@,
    }
}

fn shown(id: &Option<String>) -> (r: String)
    ensures
        r@ == shown_id(text::opt_view(*id)),
{
    match id {
        Some(s) => s.clone(),
        None => "unknown".to_string(),
    }
}

/// What to do.
pub fn build_recommendation(
    status: CrashAttributionStatus,
    confidence: CrashAttributionConfidence,
    primary: &Option<CrashCandidate>,
) -> (r: CrashRecommendation)
    ensures
        r@ == recommendation(Verdict { status, confidence, primary: opt_candidate(*primary) }),
{
    match status {
        CrashAttributionStatus::Attributed => {
            if let Some(p) = primary {
                if confidence != CrashAttributionConfidence::Low {
                    return CrashRecommendation::ReviewMod {
                        mod_id: shown(&p.mod_id),
                        jar_path: p.jar_path.clone(),
                    };
                }
            }
            CrashRecommendation::NoSafeRecommendation
        },
        CrashAttributionStatus::Ambiguous => CrashRecommendation::ConflictingEvidence,
        CrashAttributionStatus::Unknown => CrashRecommendation::NoSafeRecommendation,
    }
}

/// The sentence for people.
pub fn build_summary(
    status: CrashAttributionStatus,
    confidence: CrashAttributionConfidence,
    primary: &Option<CrashCandidate>,
    candidates: &Vec<CrashCandidate>,
) -> (r: String)
    ensures
        r@ == summary(
            Verdict { status, confidence, primary: opt_candidate(*primary) },
            candidate_views(candidates@),
        ),
{
    match status {
        CrashAttributionStatus::Attributed => {
            match primary {
                Some(p) => {
                    assert(p@.evidence.len() == p.evidence@.len());
                    let name = shown(&p.mod_id);
                    let count = dec_string(p.evidence.len() as u64);
                    let mut s: String;
                    match confidence {
                        CrashAttributionConfidence::High => {
                            s = String::from_str("Likely responsible mod: ");
                            s.append(name.as_str());
                            s.append(" (confidence: High). Evidence: ");
                            s.append(count.as_str());
                            s.append(" items.");
                        },
                        CrashAttributionConfidence::Medium => {
                            s = String::from_str("Possible crash source: ");
                            s.append(name.as_str());
                            s.append(" (confidence: Medium). Evidence: ");
                            s.append(count.as_str());
                            s.append(" items.");
                        },
                        CrashAttributionConfidence::Low => {
                            s = String::from_str("Weak attribution to: ");
                            s.append(name.as_str());
                            s.append(" (confidence: Low).");
                        },
                    }
                    s
                },
                None => "Attributed but no primary candidate identified.".to_string(),
            }
        },
        CrashAttributionStatus::Ambiguous => {
            let names = named(candidates);
            if names.len() == 0 {
                "Multiple possible crash sources found but none could be identified by mod_id.".to_string()
            } else {
                let mut s = String::from_str("Multiple possible crash sources: ");
                s.append(join(&names, ", ").as_str());
                s.append(". Cannot identify one safely.");
                s
            }
        },
        CrashAttributionStatus::Unknown =>
            "No crash source could be identified from available evidence.".to_string(),
    }
}

/// The mod IDs of the candidates that have one.
fn named(candidates: &Vec<CrashCandidate>) -> (r: Vec<String>)
    ensures
        text::views(r@) == named_below(
            candidate_views(candidates@),
            candidate_views(candidates@).len() as int,
        ),
        r@.len() == text::views(r@).len(),
{
    let ghost v = candidate_views(candidates@);
    let mut out: Vec<String> = Vec::new();
    assert(text::views(out@) =~= seq![]);
    let mut i: usize = 0;
    while i < candidates.len()
        invariant
            i <= candidates.len(),
            v == candidate_views(candidates@),
            text::views(out@) == named_below(v, i as int),
        decreases candidates.len() - i,
    {
        assert(v[i as int] == candidates@[i as int]@);
        if let Some(id) = &candidates[i].mod_id {
            let ghost before = out@;
            out.push(id.clone());
            assert(text::views(out@) =~= text::views(before).push(id@));
        }
        i = i + 1;
    }
    out
}

/// All evidence of a log, the strongest kinds first.
pub open spec fn all_evidence(log: Seq<char>, jars: Seq<JarView>) -> Seq<EvidenceView> {
    crash_evidence::explicit_mods(log) + crash_evidence::explicit_jars(log)
        + crash_evidence::loading_errors(log) + crash_evidence::entrypoint_crashes(log)
        + crash_evidence::mixin_errors(log, jars) + crash_evidence::stack_frames(log, jars)
}

/// The report on a log, given the JARs.
pub open spec fn report(log: Seq<char>, jars: Seq<JarView>) -> ReportView {
    let cands = candidates_for(all_evidence(log, jars), jars);
    let v = verdict(cands, jars);
    if v.primary is Some && v.primary->0.is_client_only {
        ReportView {
            status: CrashAttributionStatus::Attributed,
            confidence: CrashAttributionConfidence::High,
            candidates: cands,
            primary_candidate: v.primary,
            recommendation: RecommendationView::UnexpectedClientOnlyPresent(
                v.primary->0.mod_id,
                v.primary->0.jar_path,
            ),
            summary: "Pipeline invariant violation: ClientOnly mod "@ + shown_id(
                v.primary->0.mod_id,
            ) + " was present during crash attribution"@,
        }
    } else {
        ReportView {
            status: v.status,
            confidence: v.confidence,
            candidates: cands,
            primary_candidate: v.primary,
            recommendation: recommendation(v),
            summary: summary(v, cands),
        }
    }
}

/// Adds evidence at the end.
fn extend(all: &mut Vec<ParsedEvidence>, more: Vec<ParsedEvidence>)
    ensures
        crash_evidence::evidence_views(final(all)@) == crash_evidence::evidence_views(old(all)@)
            + crash_evidence::evidence_views(more@),
{
    let ghost before = all@;
    let ghost added = more@;
    let mut rest = more;
    all.append(&mut rest);
    assert(crash_evidence::evidence_views(all@) =~= crash_evidence::evidence_views(before)
        + crash_evidence::evidence_views(added));
}

/// Looks at the end of a crash log and says which mod is most likely the cause.
pub fn analyze_crash(log_tail: &str, ctx: &CrashAttributionContext<'_>) -> (r:
    CrashAttributionReport)
    ensures
        r@ == report(log_tail@, jar_index::jars_of(ctx.staging_mods@)),
{
    let index = JarOwnershipIndex::build(ctx.staging_mods);
    let log = to_chars(log_tail);
    let mut all: Vec<ParsedEvidence> = parse_explicit_mod_ids(&log);
    extend(&mut all, parse_explicit_jar_paths(&log));
    extend(&mut all, parse_forge_mod_loading_exception(&log));
    extend(&mut all, parse_fabric_quilt_crash(&log));
    extend(&mut all, parse_mixin_attribution(&log, &index));
    extend(&mut all, parse_stack_frame_attribution(&log, &index));
    let candidates = build_candidates(&all, &index, ctx.recently_repaired);
    let (status, confidence, primary) = determine_attribution(&candidates, &index);
    if let Some(p) = &primary {
        if p.is_client_only {
            let mut s = String::from_str("Pipeline invariant violation: ClientOnly mod ");
            s.append(shown(&p.mod_id).as_str());
            s.append(" was present during crash attribution");
            let recommendation = CrashRecommendation::UnexpectedClientOnlyPresent {
                mod_id: p.mod_id.clone(),
                jar_path: p.jar_path.clone(),
            };
            return CrashAttributionReport {
                status: CrashAttributionStatus::Attributed,
                confidence: CrashAttributionConfidence::High,
                candidates,
                primary_candidate: Some(p.copied()),
                recommendation,
                summary: s,
            };
        }
    }
    let recommendation = build_recommendation(status, confidence, &primary);
    let summary = build_summary(status, confidence, &primary, &candidates);
    CrashAttributionReport {
        status,
        confidence,
        candidates,
        primary_candidate: primary,
        recommendation,
        summary,
    }
}

/// A mod is identified if and only if the status says so; it is then the
/// strongest candidate, and the confidence is at least medium.
pub proof fn law_primary_is_the_strongest(log: Seq<char>, jars: Seq<JarView>)
    ensures
        ({
            let r = report(log, jars);
            &&& r.primary_candidate is Some <==> r.status == CrashAttributionStatus::Attributed
            &&& r.primary_candidate is Some ==> r.candidates.len() > 0 && r.primary_candidate->0
                == r.candidates[0] && r.confidence != CrashAttributionConfidence::Low
        }),
{
}

/// Where two strong candidates are different mods, none is picked.
pub proof fn law_no_pick_on_conflict(cands: Seq<CandidateView>, jars: Seq<JarView>)
    requires
        cands.len() > 0,
        strong_ones_disagree(cands),
    ensures
        verdict(cands, jars) == ambiguous(CrashAttributionConfidence::Low),
{
}

/// Where two JARs declare the mod of the strongest candidate, none is picked.
pub proof fn law_no_pick_between_providers(cands: Seq<CandidateView>, jars: Seq<JarView>)
    requires
        cands.len() > 0,
        cands[0].mod_id is Some,
        jar_index::owners_of(jars, cands[0].mod_id->0).len() > 1,
    ensures
        verdict(cands, jars) == ambiguous(CrashAttributionConfidence::Low),
{
}

/// Where the strongest candidate is no mod and no JAR of the build, nothing is
/// identified, and nothing is sure.
pub proof fn law_unbacked_evidence_identifies_nothing(
    cands: Seq<CandidateView>,
    jars: Seq<JarView>,
)
    requires
        cands.len() > 0,
        cands[0].mod_id is None,
        cands[0].jar_path is None,
    ensures
        verdict(cands, jars).confidence != CrashAttributionConfidence::High,
        verdict(cands, jars).primary is None,
{
}

/// Stack frames alone never make it sure.
pub proof fn law_stack_frames_are_weak(cands: Seq<CandidateView>, jars: Seq<JarView>)
    requires
        cands.len() > 0,
        cands[0].mod_id is Some,
        cands[0].evidence.len() > 0,
        forall|k: int|
            0 <= k < cands[0].evidence.len() ==> (#[trigger] cands[0].evidence[k]).source
                == CrashEvidenceSource::StackFrame,
    ensures
        verdict(cands, jars).confidence != CrashAttributionConfidence::High,
{
    assert(cands[0].evidence[0].source == CrashEvidenceSource::StackFrame);
}

} // verus!
