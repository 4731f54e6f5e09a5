use ordinance::error::{ArtifactKind, IngestError};
use ordinance::usage::UsageRecord;

fn as_text_v1() -> String {
    r#"
        {
          "total_time_seconds": 294.69257712364197,
          "total_time": "0:04:54.692577",
          "Decatur County, Indiana": {
            "document_location_validation": {
              "requests": 55,
              "prompt_tokens": 114614,
              "response_tokens": 1262
            },
            "document_content_validation": {
              "requests": 7,
              "prompt_tokens": 15191,
              "response_tokens": 477
            },
            "total_time_seconds": 294.64539074897766,
            "total_time": "0:04:54.645391",
            "tracker_totals": {
              "requests": 121,
              "prompt_tokens": 186099,
              "response_tokens": 6297
            }
          }
        }"#
        .to_string()
}

#[test]
fn usage_parse_json() {
    let usage = UsageRecord::from_json(&as_text_v1()).unwrap();

    let total: f64 = usage.total_time_seconds.parse().unwrap();
    assert!((total - 294.69257712364197).abs() <= f64::EPSILON);
}

#[test]
fn usage_structure_is_three_levels() {
    let usage = UsageRecord::from_json(&as_text_v1()).unwrap();

    assert_eq!(usage.items.len(), 1);
    let item = &usage.items[0];
    assert_eq!(item.name, "Decatur County, Indiana");
    assert_eq!(item.total_requests, 121);
    assert_eq!(item.total_prompt_tokens, 186099);
    assert_eq!(item.total_response_tokens, 6297);
    assert_eq!(item.events.len(), 3);
    assert_eq!(item.events[0].name, "document_location_validation");
    assert_eq!(item.events[0].requests, 55);
    assert_eq!(item.events[1].name, "document_content_validation");
    assert_eq!(item.events[1].prompt_tokens, 15191);
    assert_eq!(item.events[2].name, "tracker_totals");
}

#[test]
fn usage_without_tracker_totals_is_malformed() {
    let text = r#"
        {
          "total_time_seconds": 1.5,
          "Some County": {
            "total_time_seconds": 1.0,
            "lookup": { "requests": 1, "prompt_tokens": 2, "response_tokens": 3 }
          }
        }"#;
    let err = UsageRecord::from_json(text).unwrap_err();
    assert_eq!(err, IngestError::MalformedArtifact(ArtifactKind::Usage));
}

#[test]
fn usage_without_total_time_is_malformed() {
    let err = UsageRecord::from_json(r#"{"total_time": "0:01"}"#).unwrap_err();
    assert_eq!(err, IngestError::MalformedArtifact(ArtifactKind::Usage));
}

#[test]
fn usage_entry_with_wrong_shape_is_malformed() {
    let text = r#"{"total_time_seconds": 1.5, "Some County": "oops"}"#;
    let err = UsageRecord::from_json(text).unwrap_err();
    assert_eq!(err, IngestError::MalformedArtifact(ArtifactKind::Usage));
}

#[test]
fn usage_with_no_jurisdictions_is_empty() {
    let usage = UsageRecord::from_json(r#"{"total_time_seconds": 2}"#).unwrap();
    assert_eq!(usage.total_time_seconds, "2");
    assert!(usage.items.is_empty());
}
