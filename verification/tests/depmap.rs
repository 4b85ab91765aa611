use license_audit::cargo::{Dependency, Error, Licenses, PackageRecord};
use license_audit::{CratePackageUID, UID};

fn record(
    name: &str,
    version: &str,
    checksum: Option<&str>,
    source: Option<&str>,
    deps: Vec<Dependency>,
) -> PackageRecord {
    PackageRecord {
        name: name.to_owned(),
        version: version.to_owned(),
        checksum: checksum.map(|s| s.to_owned()),
        source: source.map(|s| s.to_owned()),
        dependencies: deps,
        license: None,
    }
}

fn dep(name: &str, version: &str) -> Dependency {
    Dependency { name: name.to_owned(), version: version.to_owned() }
}

#[test]
fn all_sourced_records_build_a_full_map() {
    let licenses = Licenses {
        packages: vec![
            record("a", "1.0.0", Some("sum-a"), Some("registry"), vec![dep("b", "2.0.0")]),
            record("b", "2.0.0", Some("sum-b"), Some("registry"), Vec::new()),
            record("c", "3.0.0", None, Some("registry"), vec![dep("a", "1.0.0")]),
        ],
    };
    let map = licenses.create_map().expect("every record has a source");
    assert_eq!(map.len(), 3);
}

#[test]
fn dependency_lists_move_into_the_map() {
    let licenses = Licenses {
        packages: vec![record(
            "a",
            "1.0.0",
            Some("sum-a"),
            Some("registry"),
            vec![dep("b", "2.0.0"), dep("c", "3.0.0")],
        )],
    };
    let map = licenses.create_map().expect("sourced");
    let got = map.get(&CratePackageUID::Checksum("sum-a".to_owned()));
    assert_eq!(got, Some(&vec![dep("b", "2.0.0"), dep("c", "3.0.0")]));
}

#[test]
fn absent_uid_is_not_found() {
    let licenses = Licenses {
        packages: vec![record("a", "1.0.0", Some("sum-a"), Some("registry"), Vec::new())],
    };
    let map = licenses.create_map().expect("sourced");
    assert_eq!(map.get(&CratePackageUID::Checksum("other".to_owned())), None);
}

#[test]
fn duplicate_identity_keeps_one_entry() {
    let licenses = Licenses {
        packages: vec![
            record("a", "1.0.0", Some("same"), Some("registry"), vec![dep("x", "0.1.0")]),
            record("b", "2.0.0", Some("same"), Some("registry"), vec![dep("y", "0.2.0")]),
        ],
    };
    let map = licenses.create_map().expect("sourced");
    assert_eq!(map.len(), 1);
    let got = map.get(&CratePackageUID::Checksum("same".to_owned()));
    assert_eq!(got, Some(&vec![dep("y", "0.2.0")]));
}

#[test]
fn missing_source_fails_and_names_the_package() {
    let licenses = Licenses {
        packages: vec![
            record("a", "1.0.0", Some("sum-a"), Some("registry"), Vec::new()),
            record("local-path", "0.1.0", None, None, Vec::new()),
            record("c", "3.0.0", Some("sum-c"), Some("registry"), Vec::new()),
        ],
    };
    let err = licenses.create_map().expect_err("one record has no source");
    assert_eq!(
        err,
        Error::MissingPackageSource {
            name: "local-path".to_owned(),
            version: "0.1.0".to_owned(),
        }
    );
}

#[test]
fn fail_fast_blames_the_first_missing_source() {
    let licenses = Licenses {
        packages: vec![
            record("first-bad", "0.1.0", None, None, Vec::new()),
            record("second-bad", "0.2.0", None, None, Vec::new()),
        ],
    };
    let err = licenses.create_map().expect_err("no sources at all");
    assert_eq!(
        err,
        Error::MissingPackageSource {
            name: "first-bad".to_owned(),
            version: "0.1.0".to_owned(),
        }
    );
}

#[test]
fn checksummed_record_without_source_still_fails() {
    let licenses = Licenses {
        packages: vec![record("a", "1.0.0", Some("sum-a"), None, Vec::new())],
    };
    let err = licenses.create_map().expect_err("provenance is checked independently of identity");
    assert_eq!(
        err,
        Error::MissingPackageSource { name: "a".to_owned(), version: "1.0.0".to_owned() }
    );
}

#[test]
fn entries_hand_out_every_binding_once() {
    let licenses = Licenses {
        packages: vec![
            record("a", "1.0.0", Some("sum-a"), Some("registry"), vec![dep("b", "2.0.0")]),
            record("b", "2.0.0", Some("sum-b"), Some("registry"), Vec::new()),
        ],
    };
    let map = licenses.create_map().expect("sourced");
    let entries = map.entries();
    assert_eq!(entries.len(), 2);
    assert_eq!(
        entries[0],
        (CratePackageUID::Checksum("sum-a".to_owned()), vec![dep("b", "2.0.0")])
    );
    assert_eq!(entries[1], (CratePackageUID::Checksum("sum-b".to_owned()), Vec::new()));
}

#[test]
fn empty_lockfile_builds_an_empty_map() {
    let licenses = Licenses { packages: Vec::new() };
    let map = licenses.create_map().expect("nothing to check");
    assert_eq!(map.len(), 0);
}
