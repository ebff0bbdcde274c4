//! State that must survive a crash: a file is written beside its target and then
//! takes the target's place, so that the target is never half written, and what
//! is left over from a crash is never read.
use vstd::prelude::*;

use crate::text;
use crate::text_laws;
use crate::text::{after_last, dec_string, file_name_of, has_suffix, part, to_chars};

verus! {

/// The newest version of the state's format that is understood.
pub const CURRENT_SCHEMA_VERSION: u32 = 1;

// ---------------------------------------------------------------------
// Names
// ---------------------------------------------------------------------

/// Whether a file name is that of a file on its way to its place: it ends in
/// `.tmp`, and what stands before that ends in `.json`.
pub open spec fn is_tmp_name(name: Seq<char>) -> bool {
    let dot = text::last_index(name, '.', name.len() as int);
    dot > 0 && name.skip(dot + 1) == "tmp"@ && text::ends_with(name.take(dot), ".json"@)
}

/// Whether a path leads to a file on its way to its place.
pub open spec fn is_tmp_path(path: Seq<char>) -> bool {
    match text::file_name(path) {
        Some(n) => is_tmp_name(n),
        None => false,
    }
}

/// Whether a path leads to a file on its way to its place.
pub fn is_atomic_tmp_file(path: &str) -> (r: bool)
    ensures
        r == is_tmp_path(path@),
{
    let chars = to_chars(path);
    match file_name_of(&chars) {
        Some(name) => {
            let after = after_last(name, '.');
            if after < 2 {
                return false;
            }
            let extension = part(name, after, name.len());
            let stem = part(name, 0, after - 1);
            assert(extension@ =~= name@.skip(after as int));
            assert(stem@ =~= name@.take(after - 1));
            let ext = crate::text::from_chars(extension);
            crate::text::str_eq(ext.as_str(), "tmp") && has_suffix(stem, ".json")
        },
        None => false,
    }
}

/// The file beside a target whose name ends in `.json` is known for what it is,
/// and the target is not taken for one.
pub proof fn law_names_are_told_apart(name: Seq<char>)
    requires
        text::ends_with(name, ".json"@),
    ensures
        is_tmp_name(name + ".tmp"@),
        !is_tmp_name(name),
{
    reveal_strlit(".json");
    reveal_strlit(".tmp");
    reveal_strlit("tmp");
    reveal_with_fuel(text::last_index, 6);
    let beside = name + ".tmp"@;
    let n = name.len() as int;
    assert(beside[n] == '.');
    assert(beside[n + 1] == 't' && beside[n + 2] == 'm' && beside[n + 3] == 'p');
    assert(beside.skip(n + 1) =~= "tmp"@);
    assert(beside.take(n) =~= name);
    let at = n - 5;
    assert(name.subrange(at, at + 5) == ".json"@);
    assert(name.subrange(at, at + 5)[0] == name[at]);
    assert(name.subrange(at, at + 5)[1] == name[at + 1]);
    assert(name.subrange(at, at + 5)[2] == name[at + 2]);
    assert(name.subrange(at, at + 5)[3] == name[at + 3]);
    assert(name.subrange(at, at + 5)[4] == name[at + 4]);
    assert(text::last_index(name, '.', n) == at);
    assert(name.skip(at + 1).len() == 4);
}

// ---------------------------------------------------------------------
// Writing
// ---------------------------------------------------------------------

/// Which step of a write is under way.
#[derive(Debug, Clone, Copy, PartialEq, Eq, Structural)]
pub enum WriteStage {
    /// The file beside the target is made.
    Creating,
    /// It is filled.
    Writing,
    /// What is buffered is written out.
    Flushing,
    /// It takes the target's place.
    Renaming,
    /// It is removed, after something failed.
    Removing,
    /// It is over.
    Finished,
}

/// A write under way.
#[derive(Debug)]
pub struct AtomicWrite {
    pub stage: WriteStage,
    pub error: Option<String>,
}

/// What the state of a write comes down to.
pub struct WriteView {
    pub stage: WriteStage,
    pub error: Option<Seq<char>>,
}

impl View for AtomicWrite {
    type V = WriteView;

    open spec fn view(&self) -> WriteView {
        WriteView { stage: self.stage, error: text::opt_view(self.error) }
    }
}

/// What is said of a stage that failed.
pub open spec fn failure_text(stage: WriteStage) -> Seq<char> {
    match stage {
        WriteStage::Creating => "Failed to create temp file: "@,
        WriteStage::Writing => "Failed to write temp file: "@,
        WriteStage::Flushing => "Failed to flush temp file: "@,
        _ => "Failed to rename temp → target: "@,
    }
}

/// The stage after one that went well.
pub open spec fn next_stage(stage: WriteStage) -> WriteStage {
    match stage {
        WriteStage::Creating => WriteStage::Writing,
        WriteStage::Writing => WriteStage::Flushing,
        WriteStage::Flushing => WriteStage::Renaming,
        _ => WriteStage::Finished,
    }
}

/// The next state of a write, given why its last step failed, if it did.
pub open spec fn written_next(v: WriteView, failure: Option<Seq<char>>) -> WriteView {
    if v.stage == WriteStage::Removing || v.stage == WriteStage::Finished {
        WriteView { stage: WriteStage::Finished, ..v }
    } else {
        match failure {
            None => WriteView { stage: next_stage(v.stage), ..v },
            Some(e) => WriteView {
                stage: WriteStage::Removing,
                error: Some(failure_text(v.stage) + e),
            },
        }
    }
}

impl AtomicWrite {
    /// Begins a write.
    pub fn begin() -> (r: Self)
        ensures
            r@ == (WriteView { stage: WriteStage::Creating, error: None }),
    {
        AtomicWrite { stage: WriteStage::Creating, error: None }
    }

    /// Takes why the last step failed, if it did. Whether the removal of what was
    /// left over fails does not matter.
    pub fn step(&mut self, failure: Option<&str>)
        ensures
            final(self)@ == written_next(
                old(self)@,
                text::str_view(failure),
            ),
    {
        match self.stage {
            WriteStage::Removing => {
                self.stage = WriteStage::Finished;
            },
            WriteStage::Finished => {},
            _ => match failure {
                Some(e) => {
                    let mut s = match self.stage {
                        WriteStage::Creating => String::from_str("Failed to create temp file: "),
                        WriteStage::Writing => String::from_str("Failed to write temp file: "),
                        WriteStage::Flushing => String::from_str("Failed to flush temp file: "),
                        _ => String::from_str("Failed to rename temp → target: "),
                    };
                    s.append(e);
                    self.error = Some(s);
                    self.stage = WriteStage::Removing;
                },
                None => {
                    self.stage = match self.stage {
                        WriteStage::Creating => WriteStage::Writing,
                        WriteStage::Writing => WriteStage::Flushing,
                        WriteStage::Flushing => WriteStage::Renaming,
                        _ => WriteStage::Finished,
                    };
                },
            },
        }
    }

    /// How a write that is over ended.
    pub fn outcome(&self) -> (r: Result<(), String>)
        ensures
            match r {
                Ok(_) => self@.error is None,
                Err(e) => self@.error == Some(e@),
            },
    {
        match &self.error {
            Some(e) => Err(e.clone()),
            None => Ok(()),
        }
    }
}

/// Whether the target was replaced by the time that a stage begins: only the
/// renaming does that, and nothing follows it.
pub open spec fn replaced(v: WriteView) -> bool {
    v.stage == WriteStage::Finished && v.error is None
}

/// Whether a state is one that a write can be in: an error is noted exactly
/// where something failed.
pub open spec fn write_in_step(v: WriteView) -> bool {
    match v.stage {
        WriteStage::Removing => v.error is Some,
        WriteStage::Finished => true,
        _ => v.error is None,
    }
}

/// A write replaces its target by the renaming or not at all: a step that fails
/// leaves the target alone for good, and is what the write reports.
pub proof fn law_target_replaced_or_untouched(v: WriteView, failure: Option<Seq<char>>)
    requires
        write_in_step(v),
    ensures
        write_in_step(written_next(v, failure)),
        !replaced(v) && replaced(written_next(v, failure)) ==> v.stage == WriteStage::Renaming
            && failure is None,
        v.error is Some ==> written_next(v, failure).error == v.error,
        failure is Some && v.stage != WriteStage::Finished ==> !replaced(
            written_next(v, failure),
        ),
{
}

/// The state of a write after steps that failed for these reasons, or went well.
pub open spec fn write_after(failures: Seq<Option<Seq<char>>>) -> WriteView
    decreases failures.len(),
{
    if failures.len() == 0 {
        WriteView { stage: WriteStage::Creating, error: None }
    } else {
        written_next(write_after(failures.drop_last()), failures.last())
    }
}

/// A write whose four steps go well replaces its target. One of whose steps
/// fails goes on with the removal of what was left over, is over after that,
/// never replaces its target, and reports the first failure.
pub proof fn law_write_is_all_or_nothing(failures: Seq<Option<Seq<char>>>, k: int)
    requires
        0 <= k <= 4,
        failures.len() >= k,
        forall|i: int| 0 <= i < k ==> #[trigger] failures[i] is None,
    ensures
        k == 4 ==> replaced(write_after(failures.take(4))),
        k < 4 && failures.len() > k && failures[k] is Some ==> {
            &&& write_after(failures.take(k + 1)).stage == WriteStage::Removing
            &&& forall|n: int|
                k + 2 <= n <= failures.len() ==> (#[trigger] write_after(failures.take(n))).stage
                    == WriteStage::Finished
            &&& forall|n: int|
                k < n <= failures.len() ==> (#[trigger] write_after(failures.take(n))).error
                    == Some(failure_text(write_after(failures.take(k)).stage) + failures[k]->0)
        },
{
    lemma_good_steps(failures, k);
    if k < 4 && failures.len() > k && failures[k] is Some {
        lemma_step(failures, k + 1);
        assert forall|n: int| k < n <= failures.len() implies {
            &&& (#[trigger] write_after(failures.take(n))).error == Some(
                failure_text(write_after(failures.take(k)).stage) + failures[k]->0,
            )
            &&& n >= k + 2 ==> write_after(failures.take(n)).stage == WriteStage::Finished
        } by {
            lemma_after_failure(failures, k, n);
        }
    }
}

proof fn lemma_step(failures: Seq<Option<Seq<char>>>, n: int)
    requires
        0 < n <= failures.len(),
    ensures
        write_after(failures.take(n)) == written_next(
            write_after(failures.take(n - 1)),
            failures[n - 1],
        ),
{
    assert(failures.take(n).drop_last() =~= failures.take(n - 1));
}

/// The stage that a number of steps leads to, where all go well.
spec fn stage_after(n: int) -> WriteStage
    decreases n,
{
    if n <= 0 {
        WriteStage::Creating
    } else {
        next_stage(stage_after(n - 1))
    }
}

proof fn lemma_good_steps(failures: Seq<Option<Seq<char>>>, k: int)
    requires
        0 <= k <= 4,
        failures.len() >= k,
        forall|i: int| 0 <= i < k ==> #[trigger] failures[i] is None,
    ensures
        write_after(failures.take(k)) == (WriteView { stage: stage_after(k), error: None }),
        k < 4 ==> stage_after(k) != WriteStage::Removing && stage_after(k) != WriteStage::Finished,
        k == 4 ==> stage_after(k) == WriteStage::Finished,
    decreases k,
{
    reveal_with_fuel(stage_after, 5);
    if k > 0 {
        lemma_good_steps(failures, k - 1);
        lemma_step(failures, k);
    }
}

proof fn lemma_after_failure(failures: Seq<Option<Seq<char>>>, k: int, n: int)
    requires
        0 <= k < 4,
        k < n <= failures.len(),
        failures[k] is Some,
        forall|i: int| 0 <= i < k ==> #[trigger] failures[i] is None,
    ensures
        write_after(failures.take(n)).error == Some(
            failure_text(write_after(failures.take(k)).stage) + failures[k]->0,
        ),
        write_after(failures.take(n)).stage == (if n == k + 1 {
            WriteStage::Removing
        } else {
            WriteStage::Finished
        }),
    decreases n,
{
    lemma_good_steps(failures, k);
    lemma_step(failures, n);
    if n > k + 1 {
        lemma_after_failure(failures, k, n - 1);
    }
}

// ---------------------------------------------------------------------
// Reading
// ---------------------------------------------------------------------

/// What was found where a file should be.
#[derive(Debug)]
pub enum JsonSource<T> {
    /// Nothing.
    Missing,
    /// A file that could not be read, for this reason.
    Unreadable(String),
    /// A file that is not what it should be, for this reason.
    Corrupt(String),
    /// A value.
    Parsed(T),
}

/// What is said of a file that cannot be used.
pub open spec fn source_error<T>(path: Seq<char>, source: JsonSource<T>) -> Option<Seq<char>> {
    match source {
        JsonSource::Unreadable(e) => Some("Failed to read "@ + path + ": "@ + e@),
        JsonSource::Corrupt(e) => Some("Failed to parse "@ + path + ": "@ + e@),
        _ => None,
    }
}

/// The value of a file, or what is said of one that cannot be used.
pub open spec fn value_of<T>(path: Seq<char>, source: JsonSource<T>) -> Result<
    Option<T>,
    Seq<char>,
> {
    match source {
        JsonSource::Missing => Ok(None),
        JsonSource::Parsed(v) => Ok(Some(v)),
        _ => Err(source_error(path, source)->0),
    }
}

/// The value of a file. That there is none is no error.
pub fn read_json_file<T>(path: &str, source: JsonSource<T>) -> (r: Result<Option<T>, String>)
    ensures
        match r {
            Ok(v) => value_of(path@, source) == Ok::<Option<T>, Seq<char>>(v),
            Err(e) => value_of(path@, source) == Err::<Option<T>, Seq<char>>(e@),
        },
{
    match source {
        JsonSource::Missing => Ok(None),
        JsonSource::Unreadable(e) => {
            let mut s = String::from_str("Failed to read ");
            s.append(path);
            s.append(": ");
            s.append(e.as_str());
            Err(s)
        },
        JsonSource::Corrupt(e) => {
            let mut s = String::from_str("Failed to parse ");
            s.append(path);
            s.append(": ");
            s.append(e.as_str());
            Err(s)
        },
        JsonSource::Parsed(v) => Ok(Some(v)),
    }
}

/// What the two files of a write hold: the target, and the one beside it. A file
/// that is not there is `None`.
pub struct WriteFiles {
    pub target: Option<Seq<char>>,
    pub beside: Option<Seq<char>>,
}

/// Whether a stage's action may leave the two files so. An action that fails
/// leaves the target alone, and anything beside it.
pub open spec fn action_leaves(
    before: WriteFiles,
    after: WriteFiles,
    stage: WriteStage,
    failed: bool,
    written: Seq<char>,
) -> bool {
    if failed {
        after.target == before.target
    } else {
        match stage {
            WriteStage::Creating => after == (WriteFiles { beside: Some(seq![]), ..before }),
            WriteStage::Writing => after == (WriteFiles {
                beside: Some(
                    match before.beside {
                        Some(s) => s + written,
                        None => written,
                    },
                ),
                ..before
            }),
            WriteStage::Renaming => after == (WriteFiles { target: before.beside, beside: None }),
            WriteStage::Removing => after == (WriteFiles { beside: None, ..before }),
            WriteStage::Flushing | WriteStage::Finished => after == before,
        }
    }
}

/// Whether the two files go through these contents while a text is written in
/// steps that failed for these reasons, or went well.
pub open spec fn files_in_step(
    files: Seq<WriteFiles>,
    failures: Seq<Option<Seq<char>>>,
    written: Seq<char>,
) -> bool {
    &&& files.len() == failures.len() + 1
    &&& forall|n: int|
        0 <= n < failures.len() ==> action_leaves(
            files[n],
            files[n + 1],
            (#[trigger] write_after(failures.take(n))).stage,
            failures[n] is Some,
            written,
        )
}

/// Whether no step follows the end of a write.
pub open spec fn ends_when_over(failures: Seq<Option<Seq<char>>>) -> bool {
    forall|n: int|
        0 <= n < failures.len() ==> (#[trigger] write_after(failures.take(n))).stage
            != WriteStage::Finished
}

/// What is found of a file that holds this, given what its text is read as.
pub open spec fn found<T>(
    content: Option<Seq<char>>,
    read: spec_fn(Seq<char>) -> JsonSource<T>,
) -> JsonSource<T> {
    match content {
        None => JsonSource::Missing,
        Some(s) => read(s),
    }
}

/// What the two files hold after some steps of a write.
spec fn files_fit(now: WriteFiles, v: WriteView, first: WriteFiles, written: Seq<char>) -> bool {
    if v.error is Some {
        now.target == first.target && (v.stage == WriteStage::Removing || v.stage
            == WriteStage::Finished)
    } else {
        match v.stage {
            WriteStage::Creating => now == first,
            WriteStage::Writing => now.target == first.target && now.beside == Some(
                Seq::<char>::empty(),
            ),
            WriteStage::Flushing | WriteStage::Renaming => now.target == first.target
                && now.beside == Some(written),
            WriteStage::Removing => false,
            WriteStage::Finished => now.target == Some(written) && now.beside is None,
        }
    }
}

proof fn lemma_files_fit(
    files: Seq<WriteFiles>,
    failures: Seq<Option<Seq<char>>>,
    written: Seq<char>,
    n: int,
)
    requires
        files_in_step(files, failures, written),
        0 <= n <= failures.len(),
        ends_when_over(failures),
    ensures
        files_fit(files[n], write_after(failures.take(n)), files[0], written),
    decreases n,
{
    if n > 0 {
        lemma_files_fit(files, failures, written, n - 1);
        lemma_step(failures, n);
        let v = write_after(failures.take(n - 1));
        assert(action_leaves(
            files[n - 1],
            files[n],
            v.stage,
            failures[n - 1] is Some,
            written,
        ));
        assert(Seq::<char>::empty() + written =~= written);
    }
}

/// A value that was written is what is read. Where a write ends well, its target
/// holds the text that was written and nothing is left beside it, so that, where
/// the text reads as the value it was made from, reading the file gives that
/// value. Where it ends in an error, the target holds what it held, and
/// unless the removal fails nothing is left beside it. At no moment does the target
/// hold anything else, so a write that is cut off is not seen.
pub proof fn law_what_is_written_is_read<T>(
    path: Seq<char>,
    value: T,
    written: Seq<char>,
    read: spec_fn(Seq<char>) -> JsonSource<T>,
    failures: Seq<Option<Seq<char>>>,
    files: Seq<WriteFiles>,
)
    requires
        read(written) == JsonSource::Parsed(value),
        files_in_step(files, failures, written),
        ends_when_over(failures),
    ensures
        forall|n: int|
            0 <= n < files.len() ==> (#[trigger] files[n]).target == (if replaced(
                write_after(failures.take(n)),
            ) {
                Some(written)
            } else {
                files[0].target
            }),
        write_after(failures).stage == WriteStage::Finished ==> match write_after(failures).error {
            None => {
                &&& files.last().target == Some(written)
                &&& files.last().beside is None
                &&& value_of(path, found(files.last().target, read)) == Ok::<
                    Option<T>,
                    Seq<char>,
                >(Some(value))
            },
            Some(_) => {
                &&& files.last().target == files[0].target
                &&& failures.last() is None ==> files.last().beside is None
                &&& value_of(path, found(files.last().target, read)) == value_of(
                    path,
                    found(files[0].target, read),
                )
            },
        },
{
    assert forall|n: int| 0 <= n < files.len() implies (#[trigger] files[n]).target == (if replaced(
        write_after(failures.take(n)),
    ) {
        Some(written)
    } else {
        files[0].target
    }) by {
        lemma_files_fit(files, failures, written, n);
    }
    let n = failures.len() as int;
    lemma_files_fit(files, failures, written, n);
    assert(failures.take(n) =~= failures);
    if n > 0 {
        lemma_step(failures, n);
        lemma_files_fit(files, failures, written, n - 1);
    }
}

/// A value that says which version of its format it has.
pub trait HasSchemaVersion {
    /// The version.
    fn schema_version(&self) -> u32;
}

/// What is said of a version that is too new.
pub open spec fn version_error(version: u32, path: Seq<char>) -> Seq<char> {
    "Unsupported schema version "@ + text::dec(version as nat) + " (max supported: "@ + text::dec(
        CURRENT_SCHEMA_VERSION as nat,
    ) + ") in "@ + path
}

/// Whether a version is understood.
pub fn check_schema_version(version: u32, path: &str) -> (r: Result<(), String>)
    ensures
        r is Ok <==> version <= CURRENT_SCHEMA_VERSION,
        r is Err ==> r->Err_0@ == version_error(version, path@),
{
    if version > CURRENT_SCHEMA_VERSION {
        let mut s = String::from_str("Unsupported schema version ");
        s.append(dec_string(version as u64).as_str());
        s.append(" (max supported: ");
        s.append(dec_string(CURRENT_SCHEMA_VERSION as u64).as_str());
        s.append(") in ");
        s.append(path);
        Err(s)
    } else {
        Ok(())
    }
}

/// The value of a file that says which version of its format it has. What is
/// left over from a write that did not end is never read, and a version that is
/// too new is refused.
pub fn read_versioned_json<T: HasSchemaVersion>(path: &str, source: JsonSource<T>) -> (r: Result<
    Option<T>,
    String,
>)
    ensures
        match r {
            Ok(Some(v)) => {
                &&& !is_tmp_path(path@)
                &&& source == JsonSource::Parsed(v)
                &&& exists|n: u32| #[trigger]
                    call_ensures(T::schema_version, (&v,), n) && n <= CURRENT_SCHEMA_VERSION
            },
            Ok(None) => is_tmp_path(path@) || source is Missing,
            Err(e) => {
                &&& !is_tmp_path(path@)
                &&& source_error(path@, source) == Some(e@) || (source is Parsed && exists|n: u32|
                 #[trigger]
                    call_ensures(T::schema_version, (&source->Parsed_0,), n) && n
                        > CURRENT_SCHEMA_VERSION && e@ == version_error(n, path@))
            },
        },
{
    if is_atomic_tmp_file(path) {
        return Ok(None);
    }
    let ghost found = source;
    match read_json_file(path, source) {
        Ok(Some(v)) => {
            let n = v.schema_version();
            assert(found->Parsed_0 == v);
            assert(call_ensures(T::schema_version, (&found->Parsed_0,), n));
            match check_schema_version(n, path) {
                Ok(_) => Ok(Some(v)),
                Err(e) => Err(e),
            }
        },
        Ok(None) => Ok(None),
        Err(e) => Err(e),
    }
}

/// The steps of a write follow each other: making the file beside the target,
/// filling it, writing it out, renaming it; and what is said of a step that fails
/// names the step and ends in the reason.
pub proof fn law_steps_of_a_write(stage: WriteStage, e: Seq<char>)
    ensures
        next_stage(WriteStage::Creating) == WriteStage::Writing,
        next_stage(WriteStage::Writing) == WriteStage::Flushing,
        next_stage(WriteStage::Flushing) == WriteStage::Renaming,
        next_stage(WriteStage::Renaming) == WriteStage::Finished,
        failure_text(WriteStage::Creating) == "Failed to create temp file: "@,
        failure_text(WriteStage::Writing) == "Failed to write temp file: "@,
        failure_text(WriteStage::Flushing) == "Failed to flush temp file: "@,
        failure_text(WriteStage::Renaming) == "Failed to rename temp → target: "@,
        stage != WriteStage::Removing && stage != WriteStage::Finished ==> text::ends_with(
            written_next(WriteView { stage, error: None }, Some(e)).error->0,
            e,
        ),
        CURRENT_SCHEMA_VERSION == 1,
{
    text_laws::law_ends(failure_text(stage), e);
}

/// What is said of a file that cannot be used names the file and the reason, and of
/// a version that is too new both versions.
pub proof fn law_unusable_files_are_named(path: Seq<char>, e: String, version: u32)
    ensures
        text::contains(source_error(path, JsonSource::<u8>::Unreadable(e))->0, path),
        text::ends_with(source_error(path, JsonSource::<u8>::Unreadable(e))->0, e@),
        text::contains(source_error(path, JsonSource::<u8>::Corrupt(e))->0, path),
        text::ends_with(source_error(path, JsonSource::<u8>::Corrupt(e))->0, e@),
        text::contains(version_error(version, path), text::dec(version as nat)),
        text::ends_with(version_error(version, path), path),
{
    let c = ": "@ + e@;
    text_laws::law_contains_what_was_put_in("Failed to read "@, path, c);
    assert("Failed to read "@ + path + c =~= "Failed to read "@ + path + ": "@ + e@);
    text_laws::law_ends("Failed to read "@ + path + ": "@, e@);
    text_laws::law_contains_what_was_put_in("Failed to parse "@, path, c);
    assert("Failed to parse "@ + path + c =~= "Failed to parse "@ + path + ": "@ + e@);
    text_laws::law_ends("Failed to parse "@ + path + ": "@, e@);
    let a = "Unsupported schema version "@;
    let v = text::dec(version as nat);
    let b = " (max supported: "@;
    let m = text::dec(CURRENT_SCHEMA_VERSION as nat);
    let d = ") in "@;
    text_laws::law_contains_what_was_put_in(a, v, b + m + d + path);
    assert(a + v + (b + m + d + path) =~= version_error(version, path));
    text_laws::law_ends(a + v + b + m + d, path);
}

} // verus!
