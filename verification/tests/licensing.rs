use license_audit::license::{classify, Id, License as Entry, List};
use license_audit::License;

fn entry(id: &str, name: &str, osi: bool) -> Entry {
    Entry {
        reference: format!("https://spdx.org/licenses/{}.html", id),
        is_deprecated_license_id: false,
        details_url: format!("https://spdx.org/licenses/{}.json", id),
        reference_number: 0,
        name: name.to_owned(),
        license_id: id.to_owned(),
        see_also: Vec::new(),
        is_osi_approved: osi,
        is_fsf_libre: Some(osi),
    }
}

fn registry() -> List {
    List {
        license_list_version: "3.20".to_owned(),
        licenses: vec![
            entry("MIT", "MIT License", true),
            entry("Apache-2.0", "Apache License 2.0", true),
            entry("CC-BY-NC-4.0", "Creative Commons Attribution Non Commercial 4.0 International", false),
        ],
        release_date: "2023-02-01".to_owned(),
    }
}

#[test]
fn mit_classifies_as_osi_approved() {
    let list = registry();
    let raw = "MIT".to_owned();
    let outcome = classify(&list, Some(&raw));
    assert_eq!(
        outcome,
        License::Valid {
            name: "MIT License".to_owned(),
            id: "MIT".to_owned(),
            category: "OSI Approved".to_owned(),
        }
    );
}

#[test]
fn non_osi_entry_gets_other_category() {
    let list = registry();
    let raw = "CC-BY-NC-4.0".to_owned();
    let outcome = classify(&list, Some(&raw));
    assert_eq!(
        outcome,
        License::Valid {
            name: "Creative Commons Attribution Non Commercial 4.0 International".to_owned(),
            id: "CC-BY-NC-4.0".to_owned(),
            category: "Other".to_owned(),
        }
    );
}

#[test]
fn unknown_string_is_unrecognized() {
    let list = registry();
    let raw = "Not-A-Real-License".to_owned();
    assert_eq!(classify(&list, Some(&raw)), License::Unrecognized);
}

#[test]
fn no_string_is_absent() {
    let list = registry();
    assert_eq!(classify(&list, None), License::Absent);
}

#[test]
fn empty_string_is_absent() {
    let list = registry();
    let raw = String::new();
    assert_eq!(classify(&list, Some(&raw)), License::Absent);
}

#[test]
fn match_is_case_sensitive() {
    let list = registry();
    let raw = "mit".to_owned();
    assert_eq!(classify(&list, Some(&raw)), License::Unrecognized);
}

#[test]
fn find_returns_the_matching_entry() {
    let list = registry();
    let found = list.find(&"Apache-2.0".to_owned()).expect("known id");
    assert_eq!(found.name, "Apache License 2.0");
    assert!(found.is_osi_approved);
}

#[test]
fn find_misses_unknown_entries() {
    let list = registry();
    assert!(list.find(&"GPL-9.0".to_owned()).is_none());
}

#[test]
fn id_new_validates_known_ids() {
    let list = registry();
    let id = Id::new(&list, "MIT".to_owned());
    assert_eq!(id, Id::Spdx("MIT".to_owned()));
}

#[test]
fn id_new_flags_unknown_ids() {
    let list = registry();
    let id = Id::new(&list, "Imaginary-1.0".to_owned());
    assert_eq!(id, Id::Unknown("Imaginary-1.0".to_owned()));
}

#[test]
fn is_osi_reads_the_category() {
    let osi = License::Valid {
        name: "MIT License".to_owned(),
        id: "MIT".to_owned(),
        category: "OSI Approved".to_owned(),
    };
    let other = License::Valid {
        name: "X".to_owned(),
        id: "X".to_owned(),
        category: "Other".to_owned(),
    };
    assert!(osi.is_osi());
    assert!(!other.is_osi());
    assert!(!License::Unrecognized.is_osi());
    assert!(!License::Absent.is_osi());
}
