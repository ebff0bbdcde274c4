//! Downloads into a file.
use lbby_core::downloads::{refused, DownloadStage, FileDownload};

const ABC: &str = "ba7816bf8f01cfea414140de5dae2223b00361a396177a9cb410ff61f20015ad";

/// Runs a download of some bytes over a target; the stage that is given fails.
fn download(
    target: &mut Option<Vec<u8>>,
    bytes: &[u8],
    expected: Option<&str>,
    fails: Option<DownloadStage>,
) -> (Result<(), String>, bool) {
    let mut run = FileDownload::begin("pack", expected);
    let mut partial: Option<Vec<u8>> = None;
    while run.stage != DownloadStage::Finished {
        if fails == Some(run.stage) {
            run.step(&Err("denied".to_string()));
            continue;
        }
        let mut read = Vec::new();
        match run.stage {
            DownloadStage::Fetching => partial = Some(bytes.to_vec()),
            DownloadStage::Verifying => read = partial.clone().unwrap(),
            DownloadStage::Renaming => *target = partial.take(),
            _ => partial = None,
        }
        run.step(&Ok(read));
    }
    (run.outcome(), partial.is_some())
}

#[test]
fn a_file_with_its_checksum_lands() {
    let mut target = None;
    assert_eq!(download(&mut target, b"abc", Some(ABC), None), (Ok(()), false));
    assert_eq!(target.as_deref(), Some(b"abc".as_slice()));
}

#[test]
fn a_file_without_a_checksum_lands() {
    let mut target = None;
    assert_eq!(download(&mut target, b"abc", None, None), (Ok(()), false));
    assert_eq!(download(&mut target, b"abd", Some(""), None), (Ok(()), false));
    assert_eq!(target.as_deref(), Some(b"abd".as_slice()));
}

#[test]
fn a_file_with_another_checksum_does_not_land() {
    let mut target = Some(b"old".to_vec());
    let (result, left) = download(&mut target, b"abc", Some("00"), None);
    assert_eq!(
        result.unwrap_err(),
        format!("pack checksum mismatch: expected 00, got {}", ABC)
    );
    assert!(!left, "what was fetched is removed");
    assert_eq!(target.as_deref(), Some(b"old".as_slice()));
}

#[test]
fn failures_leave_the_target() {
    for (stage, text) in [
        (DownloadStage::Fetching, "denied"),
        (DownloadStage::Verifying, "Checksum computation failed: denied"),
        (DownloadStage::Renaming, "Failed to rename download: denied"),
    ] {
        let mut target = Some(b"old".to_vec());
        let (result, left) = download(&mut target, b"abc", Some(ABC), Some(stage));
        assert_eq!(result.unwrap_err(), text);
        assert!(!left);
        assert_eq!(target.as_deref(), Some(b"old".as_slice()));
    }
}

#[test]
fn refusals_name_the_address() {
    assert_eq!(
        refused("404 Not Found", "https://example.com/a"),
        "Download failed with HTTP 404 Not Found for https://example.com/a"
    );
}
