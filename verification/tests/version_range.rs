//! Versions, ranges of versions, and versions in file names.
use lbby_core::version_range::{
    extract_mod_version, is_between, parse_interval, version_matches_range, VersionOrder,
};

#[test]
fn unbounded_ranges_bind_below() {
    assert!(version_matches_range("1.0.0", "[1.0.0,)"));
    assert!(version_matches_range("9.9.9", "[1.0.0,)"));
    assert!(!version_matches_range("0.9.0", "[1.0.0,)"));
}

#[test]
fn round_brackets_leave_the_bounds_out() {
    assert!(!version_matches_range("1.0.0", "(1.0.0,2.0.0)"));
    assert!(version_matches_range("1.0.1", "(1.0.0,2.0.0)"));
    assert!(!version_matches_range("2.0.0", "(1.0.0,2.0.0)"));
}

#[test]
fn square_brackets_take_the_bounds_in() {
    assert!(version_matches_range("1.0.0", "[1.0.0,2.0.0]"));
    assert!(version_matches_range("2.0.0", "[1.0.0,2.0.0]"));
    assert!(!version_matches_range("2.0.1", "[1.0.0,2.0.0]"));
    assert!(!version_matches_range("2.0.0", "[1.0.0,2.0.0)"));
}

#[test]
fn a_plain_version_must_be_met_exactly() {
    assert!(version_matches_range("1.0.0", "1.0.0"));
    assert!(!version_matches_range("1.0.1", "1.0.0"));
    assert!(version_matches_range("1.0.0-hotfix", "1.0.0"));
}

#[test]
fn requirements_are_understood() {
    assert!(version_matches_range("1.5.0", ">=1.2"));
    assert!(!version_matches_range("1.1.0", ">=1.2"));
    assert!(version_matches_range("1.9.0", "^1.2.0"));
    assert!(!version_matches_range("1.0.0", "no range"));
}

#[test]
fn empty_ranges_bind_nothing() {
    assert!(version_matches_range("anything", ""));
    assert!(version_matches_range("1.0.0", "   "));
}

#[test]
fn unreadable_versions_are_in_no_range() {
    assert!(!version_matches_range("latest", "[1.0.0,)"));
    assert!(!version_matches_range("1.0", "[1.0.0,)"));
}

#[test]
fn bounds_that_are_no_versions_do_not_bind() {
    assert!(version_matches_range("1.0.0", "[abc,def]"));
    assert!(version_matches_range("1.0.0", "[,2.0.0)"));
}

#[test]
fn intervals_are_read() {
    let chars: Vec<char> = "( 1.0.0 , 2.0.0 ]".chars().collect();
    let i = parse_interval(&chars);
    assert_eq!(i.lower, "1.0.0");
    assert_eq!(i.upper, "2.0.0");
    assert!(i.lower_exclusive);
    assert!(!i.upper_exclusive);
}

#[test]
fn bounds_decide() {
    assert!(is_between(Some(VersionOrder::Same), false, None, true));
    assert!(!is_between(Some(VersionOrder::Same), true, None, true));
    assert!(!is_between(Some(VersionOrder::Before), false, None, false));
    assert!(!is_between(None, false, Some(VersionOrder::After), false));
    assert!(is_between(None, false, Some(VersionOrder::Before), true));
}

#[test]
fn versions_are_found_in_file_names() {
    assert_eq!(extract_mod_version("tacz-1.1.8-hotfix.jar").as_deref(), Some("1.1.8"));
    assert_eq!(extract_mod_version("modname-1.0.0.jar").as_deref(), Some("1.0.0"));
    assert_eq!(extract_mod_version("modname-1.0.0-beta.jar").as_deref(), Some("1.0.0"));
    assert_eq!(extract_mod_version("mods/lib-2.0+build5.jar").as_deref(), Some("2.0"));
    assert_eq!(extract_mod_version("lib-3.1_fabric.jar").as_deref(), Some("3.1"));
    assert_eq!(extract_mod_version("lib-beta.jar").as_deref(), Some("beta"));
    assert_eq!(extract_mod_version("plain.jar"), None);
    assert_eq!(extract_mod_version(".."), None);
}
