use license_audit::cargo::{PackageRecord, PackageUID};
use license_audit::{CratePackageUID, UID};

fn record(
    name: &str,
    version: &str,
    checksum: Option<&str>,
    source: Option<&str>,
) -> PackageRecord {
    PackageRecord {
        name: name.to_owned(),
        version: version.to_owned(),
        checksum: checksum.map(|s| s.to_owned()),
        source: source.map(|s| s.to_owned()),
        dependencies: Vec::new(),
        license: None,
    }
}

#[test]
fn checksum_wins_over_everything() {
    let rec = record("serde", "1.0.0", Some("abc123"), Some("registry"));
    let uid: PackageUID = rec.uid();
    assert_eq!(uid, CratePackageUID::Checksum("abc123".to_owned()));
}

#[test]
fn checksum_wins_without_source() {
    let rec = record("serde", "1.0.0", Some("abc123"), None);
    assert_eq!(rec.uid(), CratePackageUID::Checksum("abc123".to_owned()));
}

#[test]
fn source_without_checksum_keeps_name_version_source() {
    let rec = record("local-dep", "0.2.1", None, Some("git+https://example.com/repo"));
    assert_eq!(
        rec.uid(),
        CratePackageUID::NameVersionAndSource {
            name: "local-dep".to_owned(),
            version: "0.2.1".to_owned(),
            source: "git+https://example.com/repo".to_owned(),
        }
    );
}

#[test]
fn adding_checksum_changes_the_variant() {
    let without = record("local-dep", "0.2.1", None, Some("registry"));
    let with = record("local-dep", "0.2.1", Some("feedbeef"), Some("registry"));
    assert_eq!(
        without.uid(),
        CratePackageUID::NameVersionAndSource {
            name: "local-dep".to_owned(),
            version: "0.2.1".to_owned(),
            source: "registry".to_owned(),
        }
    );
    assert_eq!(with.uid(), CratePackageUID::Checksum("feedbeef".to_owned()));
}

#[test]
fn bare_record_falls_back_to_name_and_version() {
    let rec = record("path-dep", "0.0.1", None, None);
    assert_eq!(
        rec.uid(),
        CratePackageUID::NameAndVersion {
            name: "path-dep".to_owned(),
            version: "0.0.1".to_owned(),
        }
    );
}

#[test]
fn from_record_moves_the_checksum_out() {
    let rec = record("a", "1.0.0", Some("sum"), Some("registry"));
    assert_eq!(PackageUID::from(rec), CratePackageUID::Checksum("sum".to_owned()));
}

#[test]
fn from_record_falls_back_like_uid() {
    let sourced = record("a", "1.0.0", None, Some("registry"));
    let bare = record("a", "1.0.0", None, None);
    assert_eq!(
        PackageUID::from(sourced),
        CratePackageUID::NameVersionAndSource {
            name: "a".to_owned(),
            version: "1.0.0".to_owned(),
            source: "registry".to_owned(),
        }
    );
    assert_eq!(
        PackageUID::from(bare),
        CratePackageUID::NameAndVersion { name: "a".to_owned(), version: "1.0.0".to_owned() }
    );
}

#[test]
fn different_variants_are_never_equal() {
    let a = CratePackageUID::<String, String, String, String>::NameAndVersion {
        name: "x".to_owned(),
        version: "1".to_owned(),
    };
    let b = CratePackageUID::<String, String, String, String>::NameVersionAndSource {
        name: "x".to_owned(),
        version: "1".to_owned(),
        source: "s".to_owned(),
    };
    assert_ne!(a, b);
}
