use ordinance::error::{ArtifactKind, IngestError};
use ordinance::jurisdiction::Collection;

fn manifest_text() -> &'static str {
    r#"{"jurisdictions": [
        {"full_name": "Decatur County, Indiana", "county": "Decatur", "state": "Indiana",
         "subdivision": null, "jurisdiction_type": "county",
         "FIPS": 18031, "found": true, "total_time": 294.645,
         "documents": [
            {"source": "county site", "ord_year": 2021, "ord_filename": "decatur.pdf",
             "num_pages": 12, "checksum": "sha256:aa", "access_time": "2025-12-06"},
            {"source": "state portal", "ord_year": 2018, "ord_filename": "old.pdf",
             "num_pages": 4, "checksum": "sha256:bb"}
         ]},
        {"full_name": "Nowhere, Kansas", "county": "Nowhere", "state": "Kansas",
         "FIPS": 20999, "found": false, "total_time": 0.5}
    ]}"#
}

#[test]
fn manifest_decodes_jurisdictions_and_documents() {
    let c = Collection::from_json(manifest_text()).unwrap();

    assert_eq!(c.jurisdictions.len(), 2);
    let j = &c.jurisdictions[0];
    assert_eq!(j.full_name, "Decatur County, Indiana");
    assert_eq!(j.county, "Decatur");
    assert_eq!(j.state, "Indiana");
    assert_eq!(j.subdivision, None);
    assert_eq!(j.jurisdiction_type.as_deref(), Some("county"));
    assert_eq!(j.fips, 18031);
    assert!(j.found);
    assert_eq!(j.total_time, "294.645");
    assert_eq!(j.documents.len(), 2);
    assert_eq!(j.documents[0].filename, "decatur.pdf");
    assert_eq!(j.documents[0].ord_year, 2021);
    assert_eq!(j.documents[0].num_pages, 12);
    assert_eq!(j.documents[0].checksum, "sha256:aa");
    assert_eq!(j.documents[0].access_time.as_deref(), Some("2025-12-06"));
    assert_eq!(j.documents[1].access_time, None);

    // A jurisdiction without documents has none.
    let k = &c.jurisdictions[1];
    assert!(k.documents.is_empty());
    assert!(!k.found);
}

#[test]
fn manifest_lists_every_document_in_order() {
    let c = Collection::from_json(manifest_text()).unwrap();
    let m = c.manifest();

    assert_eq!(m.len(), 2);
    assert_eq!(m[0].filename, "decatur.pdf");
    assert_eq!(m[0].checksum, "sha256:aa");
    assert_eq!(m[1].filename, "old.pdf");
    assert_eq!(m[1].checksum, "sha256:bb");
}

#[test]
fn manifest_without_jurisdictions_key_is_malformed() {
    let err = Collection::from_json(r#"{"other": []}"#).unwrap_err();
    assert_eq!(err, IngestError::MalformedArtifact(ArtifactKind::Jurisdictions));
}

#[test]
fn jurisdiction_missing_required_field_is_malformed() {
    // No FIPS code.
    let text = r#"{"jurisdictions": [
        {"full_name": "X", "county": "X", "state": "Y", "found": true, "total_time": 1}
    ]}"#;
    let err = Collection::from_json(text).unwrap_err();
    assert_eq!(err, IngestError::MalformedArtifact(ArtifactKind::Jurisdictions));
}

#[test]
fn document_missing_checksum_is_malformed() {
    let text = r#"{"jurisdictions": [
        {"full_name": "X", "county": "X", "state": "Y", "FIPS": 1, "found": true,
         "total_time": 1, "documents": [
            {"source": "s", "ord_year": 2020, "ord_filename": "f.pdf", "num_pages": 1}
         ]}
    ]}"#;
    let err = Collection::from_json(text).unwrap_err();
    assert_eq!(err, IngestError::MalformedArtifact(ArtifactKind::Jurisdictions));
}

#[test]
fn out_of_range_numbers_are_malformed() {
    // A FIPS code beyond the unsigned 32-bit range.
    let text = r#"{"jurisdictions": [
        {"full_name": "X", "county": "X", "state": "Y", "FIPS": 4294967296,
         "found": true, "total_time": 1}
    ]}"#;
    let err = Collection::from_json(text).unwrap_err();
    assert_eq!(err, IngestError::MalformedArtifact(ArtifactKind::Jurisdictions));

    // An ordinance year beyond the unsigned 16-bit range.
    let text = r#"{"jurisdictions": [
        {"full_name": "X", "county": "X", "state": "Y", "FIPS": 1, "found": true,
         "total_time": 1, "documents": [
            {"source": "s", "ord_year": 65536, "ord_filename": "f.pdf",
             "num_pages": 1, "checksum": "sha256:aa"}
         ]}
    ]}"#;
    let err = Collection::from_json(text).unwrap_err();
    assert_eq!(err, IngestError::MalformedArtifact(ArtifactKind::Jurisdictions));
}

#[test]
fn empty_jurisdiction_list_decodes() {
    let c = Collection::from_json(r#"{"jurisdictions": []}"#).unwrap();
    assert!(c.jurisdictions.is_empty());
    assert!(c.manifest().is_empty());
}

#[test]
fn unrecognised_jurisdiction_fields_are_ignored() {
    let text = r#"{"jurisdictions": [
        {"full_name": "X", "county": "X", "state": "Y", "FIPS": 1, "found": true,
         "total_time": 1, "total_time_string": "0:00:01", "websites": ["a", "b"]}
    ]}"#;
    let c = Collection::from_json(text).unwrap();
    assert_eq!(c.jurisdictions.len(), 1);
}
