use ordinance::artifact::{ArtifactSet, FileBlob, RunInput};
use ordinance::checksum::{checksum_string, SourceFile};
use ordinance::error::{ArtifactKind, EntityFamily, IngestError};
use ordinance::ingest;
use ordinance::store::Store;
use ordinance::MAX_JSON_FILE_SIZE;

fn blob(text: &str) -> Option<FileBlob> {
    Some(FileBlob { size: text.len() as u64, text: text.to_string() })
}

fn config_text() -> String {
    r#"{"model": "gpt-4", "llm_service_rate_limit": 50000, "out_dir": "."}"#.to_string()
}

fn usage_text() -> String {
    r#"
    {
      "total_time_seconds": 294.69,
      "total_time": "0:04:54",
      "Decatur County, Indiana": {
        "total_time_seconds": 294.64,
        "lookup": { "requests": 7, "prompt_tokens": 15191, "response_tokens": 477 },
        "tracker_totals": { "requests": 121, "prompt_tokens": 186099, "response_tokens": 6297 }
      }
    }"#
        .to_string()
}

fn jurisdictions_text(doc1_sum: &str, doc2_sum: &str) -> String {
    format!(
        r#"{{"jurisdictions": [
        {{"full_name": "Decatur County, Indiana", "county": "Decatur", "state": "Indiana",
          "FIPS": 18031, "found": true, "total_time": 294.6,
          "documents": [{{"source": "county site", "ord_year": 2021,
            "ord_filename": "decatur.pdf", "num_pages": 12, "checksum": "{}"}}]}},
        {{"full_name": "Jefferson County, Colorado", "county": "Jefferson", "state": "Colorado",
          "FIPS": 8059, "found": true, "total_time": 12.5,
          "documents": [{{"source": "county site", "ord_year": 2019,
            "ord_filename": "jefferson.pdf", "num_pages": 3, "checksum": "{}"}}]}}
    ]}}"#,
        doc1_sum, doc2_sum
    )
}

fn csv_text() -> String {
    let mut t = String::new();
    t.push_str("county,state,subdivison,jurisdiction_type,FIPS,feature,value,units,offset,min_dist,max_dist,summary,ord_year,section,source\n");
    t.push_str("Decatur,Indiana,,county,18031,setback,500,ft,,,,,2021,,county site\n");
    t
}

fn log_text() -> String {
    "[2025-12-06 15:15:14,272] INFO - Task-1: Running COMPASS\n\
     [2025-12-06 15:15:14,300] DEBUG - Task-1: noisy\n\
     [2025-12-06 15:15:14,400] ERROR - Task-1: one failure\n"
        .to_string()
}

fn valid_input() -> RunInput {
    let doc1: Vec<u8> = b"decatur ordinance pdf bytes".to_vec();
    let doc2: Vec<u8> = b"jefferson ordinance pdf bytes".to_vec();
    let sum1 = checksum_string(&doc1);
    let sum2 = checksum_string(&doc2);
    RunInput {
        config: blob(&config_text()),
        usage: blob(&usage_text()),
        jurisdictions: blob(&jurisdictions_text(&sum1, &sum2)),
        ordinances: blob(&csv_text()),
        log: blob(&log_text()),
        source_files: Some(vec![
            SourceFile { name: "decatur.pdf".to_string(), content: doc1 },
            SourceFile { name: "jefferson.pdf".to_string(), content: doc2 },
        ]),
    }
}

#[test]
fn end_to_end_commit_writes_every_family() {
    let mut store = Store::new();
    let (id, report) = ingest(
        &mut store,
        valid_input(),
        "operator".to_string(),
        "first run".to_string(),
        None,
    )
    .unwrap();

    // One provenance row, two jurisdiction rows, two document rows, and a
    // report with zero mismatches.
    assert_eq!(store.provenance.len(), 1);
    assert_eq!(store.jurisdictions.len(), 2);
    assert_eq!(store.documents.len(), 2);
    assert!(report.mismatched.is_empty());
    assert!(report.unknown.is_empty());
    assert!(report.missing.is_empty());
    assert_eq!(report.confirmed.len(), 2);

    assert_eq!(store.provenance[0].id, id);
    assert_eq!(store.provenance[0].username, "operator");
    assert_eq!(store.provenance[0].comment, "first run");
    assert_eq!(store.provenance[0].model, "gpt-4");
    assert!(store.provenance[0].run_hash.starts_with("sha256:"));

    // Every row of every family carries the provenance id.
    assert!(store.jurisdictions.iter().all(|r| r.provenance == id));
    assert!(store.documents.iter().all(|r| r.provenance == id));
    assert!(store.ordinances.iter().all(|r| r.provenance == id));
    assert!(store.usage_runs.iter().all(|r| r.provenance == id));
    assert!(store.usage_items.iter().all(|r| r.provenance == id));
    assert!(store.usage_events.iter().all(|r| r.provenance == id));
    assert!(store.logs.iter().all(|r| r.provenance == id));
    assert!(store.configs.iter().all(|r| r.provenance == id));

    assert_eq!(store.ordinances.len(), 1);
    assert_eq!(store.usage_runs.len(), 1);
    assert_eq!(store.usage_items.len(), 1);
    assert_eq!(store.usage_events.len(), 2);
    assert_eq!(store.logs.len(), 2);
    assert_eq!(store.configs.len(), 1);

    // The jurisdiction rows reference their document rows.
    assert_eq!(store.jurisdictions[0].document_ids, vec![store.documents[0].id]);
    assert_eq!(store.jurisdictions[1].document_ids, vec![store.documents[1].id]);
    assert_eq!(store.documents[0].doc.filename, "decatur.pdf");
    assert_eq!(store.jurisdictions[1].fips, 8059);
}

#[test]
fn commit_ids_increase_across_runs() {
    let mut store = Store::new();
    let (id1, _) = ingest(&mut store, valid_input(), "u".to_string(), "a".to_string(), None)
        .unwrap();
    let (id2, _) = ingest(&mut store, valid_input(), "u".to_string(), "b".to_string(), None)
        .unwrap();
    let (id3, _) = ingest(&mut store, valid_input(), "u".to_string(), "c".to_string(), None)
        .unwrap();

    assert!(id1 < id2 && id2 < id3);
    assert_eq!(store.provenance.len(), 3);
    assert!(store.provenance[0].id < store.provenance[1].id);
    assert!(store.provenance[1].id < store.provenance[2].id);
}

#[test]
fn any_write_phase_fault_leaves_no_rows_behind() {
    let families = [
        EntityFamily::Jurisdictions,
        EntityFamily::Ordinances,
        EntityFamily::Usage,
        EntityFamily::Logs,
        EntityFamily::Config,
    ];
    for family in families {
        let mut store = Store::new();
        // One successful run first, so the store is not trivially empty.
        let (id1, _) = ingest(&mut store, valid_input(), "u".to_string(), "a".to_string(), None)
            .unwrap();
        let next_before = store.next_id;
        let counts_before = (
            store.provenance.len(),
            store.jurisdictions.len(),
            store.documents.len(),
            store.ordinances.len(),
            store.usage_runs.len(),
            store.usage_items.len(),
            store.usage_events.len(),
            store.logs.len(),
            store.configs.len(),
        );

        let err = ingest(
            &mut store,
            valid_input(),
            "u".to_string(),
            "b".to_string(),
            Some(family),
        )
        .unwrap_err();
        assert_eq!(err, IngestError::TransactionAborted(family));

        // Nothing of the aborted run is visible.
        assert_eq!(store.next_id, next_before);
        let counts_after = (
            store.provenance.len(),
            store.jurisdictions.len(),
            store.documents.len(),
            store.ordinances.len(),
            store.usage_runs.len(),
            store.usage_items.len(),
            store.usage_events.len(),
            store.logs.len(),
            store.configs.len(),
        );
        assert_eq!(counts_before, counts_after);
        assert!(store.provenance.iter().all(|p| p.id == id1));
    }
}

#[test]
fn oversized_json_artifact_is_rejected_unparsed() {
    // The size gate goes by the file's size on disk, not by its content:
    // even well-formed content is rejected without a parse attempt.
    let mut input = valid_input();
    input.config = Some(FileBlob { size: MAX_JSON_FILE_SIZE + 1, text: config_text() });
    let err = ArtifactSet::open(input).unwrap_err();
    assert_eq!(err, IngestError::OversizedArtifact(ArtifactKind::Config));

    let mut input = valid_input();
    input.jurisdictions = Some(FileBlob {
        size: MAX_JSON_FILE_SIZE + 1,
        text: "this was never parsed".to_string(),
    });
    let err = ArtifactSet::open(input).unwrap_err();
    assert_eq!(err, IngestError::OversizedArtifact(ArtifactKind::Jurisdictions));
}

#[test]
fn missing_artifacts_are_reported_by_kind() {
    let mut input = valid_input();
    input.config = None;
    let err = ArtifactSet::open(input).unwrap_err();
    assert_eq!(err, IngestError::MissingArtifact(ArtifactKind::Config));

    let mut input = valid_input();
    input.usage = None;
    let err = ArtifactSet::open(input).unwrap_err();
    assert_eq!(err, IngestError::MissingArtifact(ArtifactKind::Usage));

    let mut input = valid_input();
    input.jurisdictions = None;
    let err = ArtifactSet::open(input).unwrap_err();
    assert_eq!(err, IngestError::MissingArtifact(ArtifactKind::Jurisdictions));

    let mut input = valid_input();
    input.ordinances = None;
    let err = ArtifactSet::open(input).unwrap_err();
    assert_eq!(err, IngestError::MissingArtifact(ArtifactKind::Ordinances));

    let mut input = valid_input();
    input.log = None;
    let err = ArtifactSet::open(input).unwrap_err();
    assert_eq!(err, IngestError::MissingArtifact(ArtifactKind::RuntimeLog));

    let mut input = valid_input();
    input.source_files = None;
    let err = ArtifactSet::open(input).unwrap_err();
    assert_eq!(err, IngestError::MissingArtifact(ArtifactKind::SourceDir));
}

#[test]
fn malformed_config_fails_before_any_transaction() {
    let mut store = Store::new();
    let mut input = valid_input();
    input.config = blob(r#"{"llm_service_rate_limit": 50000}"#);

    let err = ingest(&mut store, input, "u".to_string(), "c".to_string(), None).unwrap_err();

    assert_eq!(err, IngestError::MalformedArtifact(ArtifactKind::Config));
    // No transaction was opened: the store holds no provenance row at all.
    assert_eq!(store.provenance.len(), 0);
    assert_eq!(store.next_id, 1);
}

#[test]
fn checksum_mismatch_is_advisory_not_fatal() {
    let mut store = Store::new();
    let mut input = valid_input();
    // Tamper with one source file after the manifest was written.
    if let Some(files) = &mut input.source_files {
        files[0].content = b"tampered".to_vec();
    }
    let (_, report) = ingest(&mut store, input, "u".to_string(), "c".to_string(), None).unwrap();

    // The run still commits; the finding is reported.
    assert_eq!(store.provenance.len(), 1);
    assert_eq!(report.mismatched, vec!["decatur.pdf"]);
    assert_eq!(report.confirmed, vec!["jefferson.pdf"]);
}

#[test]
fn usage_hierarchy_rows_reference_their_parents() {
    let mut store = Store::new();
    ingest(&mut store, valid_input(), "u".to_string(), "c".to_string(), None).unwrap();

    let run = &store.usage_runs[0];
    assert_eq!(store.usage_items.len(), 1);
    assert_eq!(store.usage_items[0].run, run.id);
    assert_eq!(store.usage_items[0].name, "Decatur County, Indiana");
    assert_eq!(store.usage_items[0].total_requests, 121);
    for e in &store.usage_events {
        assert_eq!(e.item, store.usage_items[0].id);
    }
    assert_eq!(store.usage_events[0].event.name, "lookup");
    assert_eq!(store.usage_events[1].event.name, "tracker_totals");
}

#[test]
fn log_rows_keep_only_retained_levels() {
    let mut store = Store::new();
    ingest(&mut store, valid_input(), "u".to_string(), "c".to_string(), None).unwrap();

    assert_eq!(store.logs.len(), 2);
    assert_eq!(store.logs[0].record.message, "Running COMPASS");
    assert_eq!(store.logs[1].record.message, "one failure");
}

#[test]
fn minimal_run_commits_only_run_level_rows() {
    let mut store = Store::new();
    let input = RunInput {
        config: blob(r#"{"model": "gpt-4", "llm_service_rate_limit": 1}"#),
        usage: blob(r#"{"total_time_seconds": 0}"#),
        jurisdictions: blob(r#"{"jurisdictions": []}"#),
        ordinances: blob(""),
        log: blob(""),
        source_files: Some(Vec::new()),
    };
    let (id, report) = ingest(&mut store, input, "u".to_string(), "".to_string(), None).unwrap();

    assert_eq!(store.provenance.len(), 1);
    assert_eq!(store.provenance[0].id, id);
    assert!(store.jurisdictions.is_empty());
    assert!(store.documents.is_empty());
    assert!(store.ordinances.is_empty());
    assert_eq!(store.usage_runs.len(), 1);
    assert!(store.usage_items.is_empty());
    assert!(store.logs.is_empty());
    assert_eq!(store.configs.len(), 1);
    assert!(report.confirmed.is_empty() && report.missing.is_empty());
}
