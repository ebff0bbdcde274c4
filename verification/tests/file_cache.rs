//! A value kept until its file changes.
use lbby_core::file_cache::{FileCache, FileStamp};

fn at(secs: i64) -> Option<FileStamp> {
    Some(FileStamp { secs, nanos: 0 })
}

#[test]
fn a_fresh_value_is_not_loaded_again() {
    let mut cache: FileCache<u32> = FileCache::new();
    assert_eq!(cache.get_or_load(at(1), || (Ok(10), at(1))), Ok(10));
    assert_eq!(cache.get_or_load(at(1), || (Ok(20), at(1))), Ok(10));
}

#[test]
fn a_changed_file_is_loaded_again() {
    let mut cache: FileCache<u32> = FileCache::new();
    cache.get_or_load(at(1), || (Ok(10), at(1))).unwrap();
    assert_eq!(cache.get_or_load(at(2), || (Ok(20), at(2))), Ok(20));
    assert_eq!(cache.get_or_load(at(2), || (Ok(30), at(2))), Ok(20));
}

#[test]
fn what_has_no_time_is_not_kept() {
    let mut cache: FileCache<u32> = FileCache::new();
    assert_eq!(cache.get_or_load(None, || (Ok(10), None)), Ok(10));
    assert!(cache.inner.is_none());
    cache.get_or_load(at(1), || (Ok(10), at(1))).unwrap();
    assert_eq!(cache.get_or_load(None, || (Ok(20), None)), Ok(20));
}

#[test]
fn a_failed_load_keeps_what_was_there() {
    let mut cache: FileCache<u32> = FileCache::new();
    cache.get_or_load(at(1), || (Ok(10), at(1))).unwrap();
    let failed = cache.get_or_load(at(2), || (Err("gone".to_string()), at(2)));
    assert_eq!(failed, Err("gone".to_string()));
    assert_eq!(cache.get_or_load(at(1), || (Ok(20), at(1))), Ok(10));
}

#[test]
fn a_forgotten_value_is_loaded_again() {
    let mut cache: FileCache<u32> = FileCache::new();
    cache.get_or_load(at(1), || (Ok(10), at(1))).unwrap();
    cache.invalidate();
    assert_eq!(cache.get_or_load(at(1), || (Ok(20), at(1))), Ok(20));
}
