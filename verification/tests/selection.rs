//! Selector scenarios: best-match policy over concrete inventories.

use node_launcher::inventory::versions_from_names;
use node_launcher::select::{find_best_match, select};
use node_launcher::{LauncherError, SemVer, VersionRange};

fn inventory(names: &[&str]) -> Vec<SemVer> {
    let owned: Vec<String> = names.iter().map(|s| s.to_string()).collect();
    versions_from_names(&owned)
}

fn triple(v: &SemVer) -> (u64, u64, u64) {
    (v.major(), v.minor(), v.patch())
}

#[test]
fn pin_18x_selects_newest_matching() {
    let inv = inventory(&["16.20.0", "18.16.0", "18.17.1", "20.5.0"]);
    assert_eq!(inv.len(), 4);
    let range = VersionRange::parse("18.x").expect("18.x is a valid range");
    assert!(!range.test(&inv[0]));
    assert!(range.test(&inv[1]));
    assert!(range.test(&inv[2]));
    assert!(!range.test(&inv[3]));
    let best = find_best_match(Some(range), inv).expect("a match exists");
    assert_eq!(triple(&best), (18, 17, 1));
}

#[test]
fn no_pin_selects_newest_installed() {
    let inv = inventory(&["16.20.0", "18.16.0", "18.17.1", "20.5.0"]);
    let best = find_best_match(None, inv).expect("inventory is non-empty");
    assert_eq!(triple(&best), (20, 5, 0));
}

#[test]
fn empty_inventory_fails_regardless_of_pin() {
    let err = find_best_match(None, Vec::new()).unwrap_err();
    assert_eq!(err, LauncherError::NoLocalVersionsFound());
    let range = VersionRange::parse(">=16").expect(">=16 is a valid range");
    let err = find_best_match(Some(range), Vec::new()).unwrap_err();
    assert_eq!(err, LauncherError::NoLocalVersionsFound());
}

#[test]
fn unsatisfiable_pin_fails_with_no_matching_version() {
    let inv = inventory(&["14.0.0"]);
    let range = VersionRange::parse(">=16").expect(">=16 is a valid range");
    let err = find_best_match(Some(range), inv).unwrap_err();
    assert_eq!(err, LauncherError::NoMatchingVersion());
}

#[test]
fn release_outranks_its_prereleases() {
    let inv = inventory(&["1.2.3-dev", "1.2.3-dev.1", "1.2.3-dev.cache", "1.2.3", "1.1.1"]);
    let best = find_best_match(None, inv).expect("inventory is non-empty");
    assert_eq!(triple(&best), (1, 2, 3));
    assert!(best.prerelease_ids().is_none());
}

#[test]
fn prerelease_identifiers_order_numeric_then_alphanumeric() {
    let inv = inventory(&["1.2.3-dev", "1.2.3-dev.1", "1.2.3-dev.cache", "1.1.1"]);
    let best = find_best_match(None, inv).expect("inventory is non-empty");
    assert_eq!(triple(&best), (1, 2, 3));
    let ids = best.prerelease_ids().as_ref().expect("best is a prerelease");
    assert_eq!(ids, &vec![b"dev".to_vec(), b"cache".to_vec()]);
}

#[test]
fn numeric_prerelease_identifiers_compare_by_value() {
    let two = SemVer::parse("1.2.3-alpha.2").expect("valid version");
    let ten = SemVer::parse("1.2.3-alpha.10").expect("valid version");
    assert!(two.precedes(&ten));
    assert!(!ten.precedes(&two));
}

#[test]
fn select_keeps_incumbent_on_tie() {
    let a = SemVer::parse("2.0.0").expect("valid version");
    let b = SemVer::parse("2.0.0").expect("valid version");
    let kept = select(b, Some(a)).expect("select always yields a value");
    assert_eq!(kept.major(), 2);
    let first = SemVer::parse("3.1.4").expect("valid version");
    let started = select(first, None).expect("select always yields a value");
    assert_eq!((started.major(), started.minor(), started.patch()), (3, 1, 4));
}

#[test]
fn launcher_error_messages_name_the_failure() {
    assert_eq!(
        LauncherError::NoLocalVersionsFound().message(),
        "no local versions found"
    );
    assert_eq!(
        LauncherError::NoMatchingVersion().message(),
        "no matching version found"
    );
}
