//! Parsing: versions, pins, manifests, and the end-to-end pipeline.

use node_launcher::inventory::versions_from_names;
use node_launcher::manifest::manifest_node_pin;
use node_launcher::resolve_version;
use node_launcher::{DirProbe, LocalError, PackageJson, SemVer, VersionRange};

#[test]
fn version_parse_reads_the_parts() {
    let v = SemVer::parse("v18.17.1").expect("a leading v is accepted");
    assert_eq!((v.major(), v.minor(), v.patch()), (18, 17, 1));
    assert!(v.prerelease_ids().is_none());

    let v = SemVer::parse("1.2.3-rc.1").expect("prerelease tags are accepted");
    let ids = v.prerelease_ids().as_ref().expect("version has a prerelease");
    assert_eq!(ids, &vec![b"rc".to_vec(), b"1".to_vec()]);

    let v = SemVer::parse("1.2.3+build.5").expect("build metadata is accepted");
    assert_eq!((v.major(), v.minor(), v.patch()), (1, 2, 3));
    assert!(v.prerelease_ids().is_none());
}

#[test]
fn version_parse_rejects_non_versions() {
    assert!(SemVer::parse("").is_none());
    assert!(SemVer::parse("18.17").is_none());
    assert!(SemVer::parse("system").is_none());
    assert!(SemVer::parse(".DS_Store").is_none());
    assert!(SemVer::parse("99999999999999999999999.0.0").is_none());
}

#[test]
fn precedence_of_prerelease_forms() {
    let release = SemVer::parse("1.2.3").unwrap();
    let alpha = SemVer::parse("1.2.3-alpha").unwrap();
    let alpha1 = SemVer::parse("1.2.3-alpha.1").unwrap();
    let two = SemVer::parse("1.2.3-2").unwrap();
    assert!(alpha.precedes(&release));
    assert!(!release.precedes(&alpha));
    assert!(alpha.precedes(&alpha1));
    assert!(two.precedes(&alpha));
    assert!(!alpha.precedes(&alpha));
}

#[test]
fn range_parse_never_fails_on_arbitrary_strings() {
    for pin in [
        "",
        "latest",
        "lts/*",
        "not a pin !!!",
        "🦀🦀🦀",
        ">= ~ ^ || - .",
        "^99999999999999999999999",
        ">=123456789012345678901234567890",
        "\u{0}\u{1}\u{2}",
    ] {
        let _ = VersionRange::parse(pin);
    }
    assert!(VersionRange::parse("latest").is_none());
    assert!(VersionRange::parse("not a pin !!!").is_none());
    assert!(VersionRange::parse("^99999999999999999999999").is_none());
}

#[test]
fn range_forms_match_as_documented() {
    let v16 = SemVer::parse("16.20.0").unwrap();
    let v18 = SemVer::parse("18.16.0").unwrap();

    let exact = VersionRange::parse("18.16.0").expect("exact pin parses");
    assert!(exact.test(&v18));
    assert!(!exact.test(&v16));

    let caret = VersionRange::parse("^16.1.0").expect("caret pin parses");
    assert!(caret.test(&v16));
    assert!(!caret.test(&v18));

    let star = VersionRange::parse("*").expect("wildcard parses");
    assert!(star.test(&v16));
    assert!(star.test(&v18));

    let gte = VersionRange::parse(">=17").expect("bare major bound parses");
    assert!(!gte.test(&v16));
    assert!(gte.test(&v18));
}

#[test]
fn inventory_skips_entries_that_are_not_versions() {
    let names: Vec<String> = ["v18.17.1", "junk", ".hidden", "v16.20.0", "18.17"]
        .iter()
        .map(|s| s.to_string())
        .collect();
    let inv = versions_from_names(&names);
    assert_eq!(inv.len(), 2);
    assert_eq!((inv[0].major(), inv[0].minor(), inv[0].patch()), (18, 17, 1));
    assert_eq!((inv[1].major(), inv[1].minor(), inv[1].patch()), (16, 20, 0));
}

#[test]
fn manifest_parse_reads_engine_fields() {
    let p = PackageJson::parse(r#"{"engines":{"node":">=18","npm":"9"},"name":"x"}"#)
        .expect("valid JSON parses");
    let engines = p.engines.expect("engines object is present");
    assert_eq!(engines.node.as_deref(), Some(">=18"));
    assert_eq!(engines.npm.as_deref(), Some("9"));

    let p = PackageJson::parse(r#"{"name":"x"}"#).expect("valid JSON parses");
    assert!(p.engines.is_none());

    assert!(PackageJson::parse("not json").is_none());

    assert_eq!(manifest_node_pin(r#"{"engines":{"node":"18.x"}}"#).as_deref(), Some("18.x"));
    assert!(manifest_node_pin(r#"{"engines":{"npm":"9"}}"#).is_none());
    assert!(manifest_node_pin(r#"{"engines":{"node":20}}"#).is_none());
}

#[test]
fn pipeline_resolves_pin_against_store_listing() {
    let probes = vec![
        DirProbe { manifest: None, version_file: None, rc_file: None },
        DirProbe { manifest: None, version_file: None, rc_file: Some("18.x".to_string()) },
    ];
    let names: Vec<String> = ["v16.20.0", "v18.16.0", "v18.17.1", "v20.5.0", "junk"]
        .iter()
        .map(|s| s.to_string())
        .collect();
    let best = resolve_version(&probes, &names).expect("a match exists");
    assert_eq!((best.major(), best.minor(), best.patch()), (18, 17, 1));

    let no_probes: Vec<DirProbe> = Vec::new();
    let best = resolve_version(&no_probes, &names).expect("inventory is non-empty");
    assert_eq!((best.major(), best.minor(), best.patch()), (20, 5, 0));
}

#[test]
fn pin_whitespace_is_handled_at_parse_time() {
    let range = VersionRange::parse("18.x\n").expect("a version-file pin keeps its newline");
    assert!(range.test(&SemVer::parse("18.16.0").unwrap()));
    assert!(!range.test(&SemVer::parse("20.5.0").unwrap()));
    let range = VersionRange::parse("  v16.20.0  ").expect("surrounding spaces are tolerated");
    assert!(range.test(&SemVer::parse("16.20.0").unwrap()));
}

#[test]
fn unparsable_pin_falls_back_to_newest_installed() {
    let probes = vec![DirProbe {
        manifest: None,
        version_file: None,
        rc_file: Some("lts/hydrogen".to_string()),
    }];
    let names: Vec<String> = ["v16.20.0", "v20.5.0"].iter().map(|s| s.to_string()).collect();
    let best = resolve_version(&probes, &names).expect("inventory is non-empty");
    assert_eq!((best.major(), best.minor(), best.patch()), (20, 5, 0));
}

#[test]
fn version_tag_has_the_canonical_store_form() {
    let v = SemVer::parse("18.17.1").unwrap();
    assert_eq!(v.tag(), b"v18.17.1".to_vec());
    let v = SemVer::parse("v20.5.0").unwrap();
    assert_eq!(v.tag(), b"v20.5.0".to_vec());
    let v = SemVer::parse("1.2.3-rc.10").unwrap();
    assert_eq!(v.tag(), b"v1.2.3-rc.10".to_vec());
    let v = SemVer::parse("1.2.3-beta+build.7").unwrap();
    assert_eq!(v.tag(), b"v1.2.3-beta".to_vec());
}

#[test]
fn local_error_messages_name_the_path() {
    let e = LocalError::UnableToResolve("~/.nvm".to_string());
    assert_eq!(e.message(), "unable to resolve local path: ~/.nvm");
    let e = LocalError::UnableToReadDir("/x/versions/node".to_string());
    assert_eq!(e.message(), "unable to read directory: /x/versions/node");
}
