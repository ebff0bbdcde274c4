//! Downloads into a file: what is fetched goes into a file beside the target,
//! is held to its checksum, and takes the target's place. The fetching, reading
//! and renaming is the caller's.
use vstd::prelude::*;

use crate::helpers;
use crate::helpers::verify_download;
use crate::text;
use crate::text_laws;
use crate::text::to_chars;

verus! {

/// Which step of a download is under way.
#[derive(Debug, Clone, Copy, PartialEq, Eq, Structural)]
pub enum DownloadStage {
    /// The file beside the target is fetched, and written out to the disk.
    Fetching,
    /// It is read, to be held to its checksum.
    Verifying,
    /// It takes the target's place.
    Renaming,
    /// It is removed, after something failed.
    Removing,
    /// It is over.
    Finished,
}

/// A download under way.
#[derive(Debug)]
pub struct FileDownload {
    pub label: String,
    /// The checksum that the file should have.
    pub expected: Option<String>,
    pub stage: DownloadStage,
    pub error: Option<String>,
}

/// What the state of a download comes down to.
pub struct DownloadView {
    pub label: Seq<char>,
    pub expected: Option<Seq<char>>,
    pub stage: DownloadStage,
    pub error: Option<Seq<char>>,
}

impl View for FileDownload {
    type V = DownloadView;

    open spec fn view(&self) -> DownloadView {
        DownloadView {
            label: self.label@,
            expected: text::opt_view(self.expected),
            stage: self.stage,
            error: text::opt_view(self.error),
        }
    }
}

/// Whether there is a checksum to hold a file to.
pub open spec fn has_checksum(expected: Option<Seq<char>>) -> bool {
    expected is Some && expected->0.len() > 0
}

/// The state after a failure.
pub open spec fn download_failed(v: DownloadView, why: Seq<char>) -> DownloadView {
    DownloadView { stage: DownloadStage::Removing, error: Some(why), ..v }
}

/// The next state of a download, given how its last step ended: with the bytes
/// of the file, where it was read, or with why it failed.
pub open spec fn downloaded_next(
    v: DownloadView,
    outcome: Result<Seq<u8>, Seq<char>>,
) -> DownloadView {
    match v.stage {
        DownloadStage::Fetching => match outcome {
            Ok(_) => DownloadView {
                stage: if has_checksum(v.expected) {
                    DownloadStage::Verifying
                } else {
                    DownloadStage::Renaming
                },
                ..v
            },
            Err(e) => download_failed(v, e),
        },
        DownloadStage::Verifying => match outcome {
            Ok(bytes) => if helpers::checksum_fits(v.expected, helpers::sha256_of(bytes)) {
                DownloadView { stage: DownloadStage::Renaming, ..v }
            } else {
                download_failed(
                    v,
                    helpers::mismatch_text(v.label, v.expected->0, helpers::sha256_of(bytes)),
                )
            },
            Err(e) => download_failed(v, "Checksum computation failed: "@ + e),
        },
        DownloadStage::Renaming => match outcome {
            Ok(_) => DownloadView { stage: DownloadStage::Finished, ..v },
            Err(e) => download_failed(v, "Failed to rename download: "@ + e),
        },
        DownloadStage::Removing => DownloadView { stage: DownloadStage::Finished, ..v },
        DownloadStage::Finished => v,
    }
}

/// The outcome of a step, by its texts and bytes.
pub open spec fn outcome_view(outcome: Result<Vec<u8>, String>) -> Result<Seq<u8>, Seq<char>> {
    match outcome {
        Ok(bytes) => Ok(bytes@),
        Err(e) => Err(e@),
    }
}

impl FileDownload {
    /// Begins a download.
    pub fn begin(label: &str, expected: Option<&str>) -> (r: Self)
        ensures
            r@ == (DownloadView {
                label: label@,
                expected: text::str_view(expected),
                stage: DownloadStage::Fetching,
                error: None,
            }),
    {
        FileDownload {
            label: label.to_string(),
            expected: match expected {
                Some(e) => Some(e.to_string()),
                None => None,
            },
            stage: DownloadStage::Fetching,
            error: None,
        }
    }

    fn fail(&mut self, before: &str, why: &str)
        ensures
            final(self)@ == download_failed(old(self)@, before@ + why@),
    {
        let mut s = before.to_string();
        s.append(why);
        self.stage = DownloadStage::Removing;
        self.error = Some(s);
    }

    /// Takes how the last step ended. The bytes count where the file was read; and
    /// whether a removal fails does not matter.
    pub fn step(&mut self, outcome: &Result<Vec<u8>, String>)
        ensures
            final(self)@ == downloaded_next(old(self)@, outcome_view(*outcome)),
    {
        match self.stage {
            DownloadStage::Fetching => match outcome {
                Ok(_) => {
                    let checked = match &self.expected {
                        Some(e) => to_chars(e.as_str()).len() > 0,
                        None => false,
                    };
                    self.stage =
                    if checked {
                        DownloadStage::Verifying
                    } else {
                        DownloadStage::Renaming
                    };
                },
                Err(e) => {
                    self.fail("", e.as_str());
                    proof {
                        reveal_strlit("");
                        assert(""@ + e@ =~= e@);
                    }
                },
            },
            DownloadStage::Verifying => match outcome {
                Ok(bytes) => {
                    let expected: Option<&str> = match &self.expected {
                        Some(e) => Some(e.as_str()),
                        None => None,
                    };
                    match verify_download(self.label.as_str(), expected, bytes) {
                        Ok(()) => {
                            self.stage = DownloadStage::Renaming;
                        },
                        Err(why) => {
                            self.stage = DownloadStage::Removing;
                            self.error = Some(why);
                        },
                    }
                },
                Err(e) => {
                    self.fail("Checksum computation failed: ", e.as_str());
                },
            },
            DownloadStage::Renaming => match outcome {
                Ok(_) => {
                    self.stage = DownloadStage::Finished;
                },
                Err(e) => {
                    self.fail("Failed to rename download: ", e.as_str());
                },
            },
            DownloadStage::Removing => {
                self.stage = DownloadStage::Finished;
            },
            DownloadStage::Finished => {},
        }
    }

    /// How a download that is over ended.
    pub fn outcome(&self) -> (r: Result<(), String>)
        ensures
            match r {
                Ok(_) => self@.error is None,
                Err(e) => self@.error == Some(e@),
            },
    {
        match &self.error {
            Some(e) => Err(e.clone()),
            None => Ok(()),
        }
    }
}

/// What is said of a reply that is no success.
pub fn refused(status: &str, url: &str) -> (r: String)
    ensures
        r@ == "Download failed with HTTP "@ + status@ + " for "@ + url@,
{
    let mut s = String::from_str("Download failed with HTTP ");
    s.append(status);
    s.append(" for ");
    s.append(url);
    s
}

/// Whether a state is one that a download can be in: an error is noted exactly
/// where something failed, and a file is read only where it has a checksum.
pub open spec fn download_in_step(v: DownloadView) -> bool {
    match v.stage {
        DownloadStage::Fetching => v.error is None,
        DownloadStage::Verifying => v.error is None && has_checksum(v.expected),
        DownloadStage::Renaming => v.error is None,
        DownloadStage::Removing => v.error is Some,
        DownloadStage::Finished => true,
    }
}

/// Whether the target was replaced.
pub open spec fn target_replaced(v: DownloadView) -> bool {
    v.stage == DownloadStage::Finished && v.error is None
}

/// Only a file that has the checksum it should have, if one is given, takes the
/// target's place: it does so by the renaming, to which no other file comes.
/// Any failure leads to the removal of what was fetched, and is what the download
/// reports; the target is then never replaced.
pub proof fn law_only_verified_downloads_land(
    v: DownloadView,
    outcome: Result<Seq<u8>, Seq<char>>,
)
    requires
        download_in_step(v),
    ensures
        download_in_step(downloaded_next(v, outcome)),
        v.stage != DownloadStage::Renaming && downloaded_next(v, outcome).stage
            == DownloadStage::Renaming ==> if has_checksum(v.expected) {
            v.stage == DownloadStage::Verifying && outcome is Ok && helpers::sha256_of(
                outcome->Ok_0,
            ) == v.expected->0
        } else {
            v.stage == DownloadStage::Fetching && outcome is Ok
        },
        !target_replaced(v) && target_replaced(downloaded_next(v, outcome)) ==> v.stage
            == DownloadStage::Renaming && outcome is Ok,
        outcome is Err && v.stage != DownloadStage::Removing && v.stage
            != DownloadStage::Finished ==> downloaded_next(v, outcome).stage
            == DownloadStage::Removing,
        v.error is Some ==> downloaded_next(v, outcome).error == v.error,
        v.stage == DownloadStage::Removing ==> !target_replaced(downloaded_next(v, outcome)),
{
}

/// A download whose steps succeed, and whose file has the checksum that is given
/// or none is given, takes the target's place.
pub proof fn law_good_download_lands(
    v: DownloadView,
    a: Seq<u8>,
    bytes: Seq<u8>,
    b: Seq<u8>,
)
    requires
        v.stage == DownloadStage::Fetching,
        v.error is None,
    ensures
        v.expected is None || v.expected->0.len() == 0 ==> {
            let w = downloaded_next(downloaded_next(v, Ok(a)), Ok(b));
            target_replaced(w)
        },
        v.expected is Some && v.expected->0.len() > 0 && v.expected->0 == helpers::sha256_of(bytes)
            ==> {
            let w = downloaded_next(
                downloaded_next(downloaded_next(v, Ok(a)), Ok(bytes)),
                Ok(b),
            );
            target_replaced(w)
        },
{
}

/// A download that fails says why in the words that it was given, or names both
/// checksums; what was fetched then goes.
pub proof fn law_failed_download_says_why(v: DownloadView, e: Seq<char>, bytes: Seq<u8>)
    ensures
        v.stage == DownloadStage::Fetching || v.stage == DownloadStage::Verifying || v.stage
            == DownloadStage::Renaming ==> {
            let w = downloaded_next(v, Err(e));
            &&& w.stage == DownloadStage::Removing
            &&& w.error is Some
            &&& text::ends_with(w.error->0, e)
        },
        v.stage == DownloadStage::Verifying && v.expected is Some && v.expected->0.len() > 0
            && v.expected->0 != helpers::sha256_of(bytes) ==> {
            let w = downloaded_next(v, Ok(bytes));
            &&& w.stage == DownloadStage::Removing
            &&& w.error is Some
            &&& text::starts_with(w.error->0, v.label)
            &&& text::contains(w.error->0, "expected "@ + v.expected->0)
            &&& text::ends_with(w.error->0, "got "@ + helpers::sha256_of(bytes))
        },
{
    text_laws::law_ends(Seq::<char>::empty(), e);
    assert(Seq::<char>::empty() + e =~= e);
    text_laws::law_ends("Checksum computation failed: "@, e);
    text_laws::law_ends("Failed to rename download: "@, e);
    if v.expected is Some {
        helpers::law_mismatch_names_both(v.label, v.expected->0, helpers::sha256_of(bytes));
    }
}

} // verus!
