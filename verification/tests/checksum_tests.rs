use ordinance::checksum::{checksum_string, verify, ManifestEntry, SourceFile};

#[test]
fn checksum_matches_known_digests() {
    let empty: Vec<u8> = Vec::new();
    assert_eq!(
        checksum_string(&empty),
        "sha256:e3b0c44298fc1c149afbf4c8996fb92427ae41e4649b934ca495991b7852b855"
    );
    let abc: Vec<u8> = vec![b'a', b'b', b'c'];
    assert_eq!(
        checksum_string(&abc),
        "sha256:ba7816bf8f01cfea414140de5dae2223b00361a396177a9cb410ff61f20015ad"
    );
}

#[test]
fn checksum_is_deterministic() {
    let content: Vec<u8> = b"the same file content".to_vec();
    let again: Vec<u8> = b"the same file content".to_vec();
    let first = checksum_string(&content);
    let second = checksum_string(&again);
    assert_eq!(first, second);
    assert!(first.starts_with("sha256:"));
}

#[test]
fn verify_classifies_every_file() {
    let good: Vec<u8> = b"good content".to_vec();
    let tampered: Vec<u8> = b"tampered content".to_vec();
    let stray: Vec<u8> = b"stray".to_vec();
    let manifest = vec![
        ManifestEntry {
            filename: "good.pdf".to_string(),
            checksum: checksum_string(&good),
        },
        ManifestEntry {
            filename: "tampered.pdf".to_string(),
            checksum: checksum_string(&b"original content".to_vec()),
        },
        ManifestEntry {
            filename: "absent.pdf".to_string(),
            checksum: checksum_string(&b"whatever".to_vec()),
        },
    ];
    let files = vec![
        SourceFile { name: "good.pdf".to_string(), content: good },
        SourceFile { name: "tampered.pdf".to_string(), content: tampered },
        SourceFile { name: "stray.pdf".to_string(), content: stray },
    ];

    let report = verify(&manifest, &files);

    assert_eq!(report.confirmed, vec!["good.pdf"]);
    assert_eq!(report.mismatched, vec!["tampered.pdf"]);
    assert_eq!(report.unknown, vec!["stray.pdf"]);
    assert_eq!(report.missing, vec!["absent.pdf"]);
}

#[test]
fn verify_with_empty_inputs_reports_nothing() {
    let report = verify(&Vec::new(), &Vec::new());
    assert!(report.confirmed.is_empty());
    assert!(report.mismatched.is_empty());
    assert!(report.unknown.is_empty());
    assert!(report.missing.is_empty());
}
