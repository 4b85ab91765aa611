use license_audit::codec::{decode, encode, Value};
use license_audit::{Authors, License, Package};

fn full_report() -> Package {
    Package {
        package_name: "serde".to_owned(),
        authors: Authors::Multiple(vec!["Erick Tryzelaar".to_owned(), "David Tolnay".to_owned()]),
        home: Some("https://serde.rs".to_owned()),
        repo: Some("https://github.com/serde-rs/serde".to_owned()),
        depends: vec!["serde_derive".to_owned()],
        depended: vec!["serde_json".to_owned(), "toml".to_owned()],
        license: License::Valid {
            name: "MIT License".to_owned(),
            id: "MIT".to_owned(),
            category: "OSI Approved".to_owned(),
        },
    }
}

#[test]
fn round_trip_full_report() {
    let report = full_report();
    let encoded = encode(&report);
    let decoded = decode(&encoded).expect("an encoded report decodes");
    assert_eq!(decoded, report);
}

#[test]
fn round_trip_sparse_report() {
    let report = Package {
        package_name: "local-tool".to_owned(),
        authors: Authors::Single("One Person".to_owned()),
        home: None,
        repo: None,
        depends: Vec::new(),
        depended: Vec::new(),
        license: License::Absent,
    };
    let encoded = encode(&report);
    assert_eq!(decode(&encoded), Some(report));
}

#[test]
fn round_trip_unrecognized_license() {
    let report = Package {
        package_name: "odd".to_owned(),
        authors: Authors::Multiple(Vec::new()),
        home: None,
        repo: Some("https://example.com".to_owned()),
        depends: vec!["a".to_owned(), "b".to_owned()],
        depended: Vec::new(),
        license: License::Unrecognized,
    };
    let encoded = encode(&report);
    assert_eq!(decode(&encoded), Some(report));
}

#[test]
fn encoding_has_one_node_per_field() {
    let encoded = encode(&full_report());
    match encoded {
        Value::List(items) => assert_eq!(items.len(), 7),
        _ => panic!("a report encodes to a list"),
    }
}

#[test]
fn malformed_nodes_do_not_decode() {
    assert_eq!(decode(&Value::Null), None);
    assert_eq!(decode(&Value::Str("just a string".to_owned())), None);
    assert_eq!(decode(&Value::List(Vec::new())), None);
    let wrong_arity = Value::List(vec![Value::Null, Value::Null]);
    assert_eq!(decode(&wrong_arity), None);
}

#[test]
fn tampered_field_does_not_decode() {
    let encoded = encode(&full_report());
    let mut items = match encoded {
        Value::List(items) => items,
        _ => panic!("a report encodes to a list"),
    };
    items[0] = Value::Null;
    assert_eq!(decode(&Value::List(items)), None);
}
