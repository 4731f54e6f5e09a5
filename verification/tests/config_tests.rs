use ordinance::config::ConfigRecord;
use ordinance::error::{ArtifactKind, IngestError};
use ordinance::json::JsonValue;

fn as_text_v1() -> String {
    r#"
    {
      "log_level": "DEBUG",
      "out_dir": ".",
      "county_fp": "counties.csv",
      "model": "gpt-4",
      "llm_call_kwargs":{
        "temperature": 0,
        "seed": 42,
        "timeout": 300
        },
      "llm_service_rate_limit": 50000,
      "td_kwargs": {
        "dir": "."
        },
      "tpe_kwargs": {
        "max_workers": 10
        },
      "ppe_kwargs": {
        "max_workers": 4
        }
    }"#
        .to_string()
}

#[test]
fn config_parse_json() {
    let config = ConfigRecord::from_json(&as_text_v1()).unwrap();

    assert_eq!(config.model, "gpt-4");
    assert_eq!(config.llm_service_rate_limit, 50000);
}

#[test]
fn scraper_dev() {
    let config = ConfigRecord::from_json(&as_text_v1()).unwrap();

    assert_eq!(config.model, "gpt-4");
    assert_eq!(config.llm_service_rate_limit, 50000);
}

#[test]
fn config_dev() {
    let config = ConfigRecord::from_json(&as_text_v1()).unwrap();

    assert_eq!(config.model, "gpt-4");
    assert_eq!(config.llm_service_rate_limit, 50000);
}

#[test]
fn config_extra_keeps_other_fields_in_order() {
    let config = ConfigRecord::from_json(&as_text_v1()).unwrap();

    let keys: Vec<&str> = config.extra.iter().map(|(k, _)| k.as_str()).collect();
    assert_eq!(
        keys,
        vec![
            "log_level",
            "out_dir",
            "county_fp",
            "llm_call_kwargs",
            "td_kwargs",
            "tpe_kwargs",
            "ppe_kwargs"
        ]
    );
    assert!(matches!(&config.extra[0].1, JsonValue::Str(s) if s == "DEBUG"));
}

#[test]
fn config_missing_model_is_malformed() {
    let text = r#"{"llm_service_rate_limit": 50000}"#;
    let err = ConfigRecord::from_json(text).unwrap_err();
    assert_eq!(err, IngestError::MalformedArtifact(ArtifactKind::Config));
}

#[test]
fn config_missing_rate_limit_is_malformed() {
    let text = r#"{"model": "gpt-4"}"#;
    let err = ConfigRecord::from_json(text).unwrap_err();
    assert_eq!(err, IngestError::MalformedArtifact(ArtifactKind::Config));
}

#[test]
fn config_fractional_rate_limit_is_malformed() {
    let text = r#"{"model": "gpt-4", "llm_service_rate_limit": 50000.5}"#;
    let err = ConfigRecord::from_json(text).unwrap_err();
    assert_eq!(err, IngestError::MalformedArtifact(ArtifactKind::Config));
}

#[test]
fn config_not_an_object_is_malformed() {
    let err = ConfigRecord::from_json("[1, 2, 3]").unwrap_err();
    assert_eq!(err, IngestError::MalformedArtifact(ArtifactKind::Config));
}

#[test]
fn config_invalid_json_is_malformed() {
    let err = ConfigRecord::from_json("{not json").unwrap_err();
    assert_eq!(err, IngestError::MalformedArtifact(ArtifactKind::Config));
}

#[test]
fn config_rate_limit_at_the_integer_bound() {
    let text = r#"{"model": "m", "llm_service_rate_limit": 18446744073709551615}"#;
    let config = ConfigRecord::from_json(text).unwrap();
    assert_eq!(config.llm_service_rate_limit, u64::MAX);

    // One past the bound no longer reads as an unsigned integer.
    let text = r#"{"model": "m", "llm_service_rate_limit": 18446744073709551616}"#;
    let err = ConfigRecord::from_json(text).unwrap_err();
    assert_eq!(err, IngestError::MalformedArtifact(ArtifactKind::Config));
}
