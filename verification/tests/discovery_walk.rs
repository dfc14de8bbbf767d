//! Discovery scenarios: priority within a directory and along the walk.

use node_launcher::discovery::{get_wanted_version, read_node_version};
use node_launcher::{DirProbe, PinKind};

fn probe(manifest: Option<&str>, version_file: Option<&str>, rc_file: Option<&str>) -> DirProbe {
    DirProbe {
        manifest: manifest.map(|s| s.to_string()),
        version_file: version_file.map(|s| s.to_string()),
        rc_file: rc_file.map(|s| s.to_string()),
    }
}

#[test]
fn manifest_outranks_both_version_files() {
    let p = probe(
        Some(r#"{"engines":{"node":">=18"}}"#),
        Some("16.0.0"),
        Some("14.0.0"),
    );
    let pin = read_node_version(&p).expect("manifest declares a pin");
    assert_eq!(pin.value, ">=18");
    assert_eq!(pin.kind, PinKind::PackageConfig);
}

#[test]
fn version_file_outranks_rc_file() {
    let p = probe(None, Some("16.0.0"), Some("14.0.0"));
    let pin = read_node_version(&p).expect("version file is present");
    assert_eq!(pin.value, "16.0.0");
    assert_eq!(pin.kind, PinKind::VersionFile);
}

#[test]
fn rc_file_alone_supplies_the_pin() {
    let p = probe(None, None, Some("14.0.0"));
    let pin = read_node_version(&p).expect("rc file is present");
    assert_eq!(pin.value, "14.0.0");
    assert_eq!(pin.kind, PinKind::RcFile);
}

#[test]
fn walk_stops_at_first_directory_with_a_source() {
    let probes = vec![
        probe(None, None, None),
        probe(None, None, Some("14.0.0")),
        probe(Some(r#"{"engines":{"node":"20"}}"#), None, None),
    ];
    let pin = get_wanted_version(&probes).expect("the second directory has a source");
    assert_eq!(pin.value, "14.0.0");
    assert_eq!(pin.kind, PinKind::RcFile);
}

#[test]
fn walk_with_no_source_anywhere_yields_none() {
    let probes = vec![probe(None, None, None), probe(None, None, None)];
    assert!(get_wanted_version(&probes).is_none());
    assert!(get_wanted_version(&Vec::new()).is_none());
}

#[test]
fn manifest_without_node_engine_falls_through_to_version_file() {
    let p = probe(
        Some(r#"{"engines":{"npm":"9.0.0"}}"#),
        Some("18.16.0"),
        None,
    );
    let pin = read_node_version(&p).expect("version file is present");
    assert_eq!(pin.value, "18.16.0");
    assert_eq!(pin.kind, PinKind::VersionFile);
}

#[test]
fn malformed_manifest_falls_through_like_an_absent_one() {
    let p = probe(Some("not json {{{"), None, Some("12.22.9"));
    let pin = read_node_version(&p).expect("rc file is present");
    assert_eq!(pin.value, "12.22.9");
    assert_eq!(pin.kind, PinKind::RcFile);

    let p = probe(Some("not json {{{"), None, None);
    assert!(read_node_version(&p).is_none());
}
