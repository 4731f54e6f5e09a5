use ordinance::json::JsonValue;
use ordinance::log::LogLevel;

#[test]
fn log_deserialize_trace() {
    let json = r#""TRACE""#;
    let level: LogLevel = LogLevel::from_json(json).unwrap();
    assert!(matches!(level, LogLevel::Trace));
}

#[test]
fn log_deserialize_debug() {
    let json = r#""DEBUG""#;
    let level: LogLevel = LogLevel::from_json(json).unwrap();
    assert!(matches!(level, LogLevel::Debug));
}

#[test]
fn log_deserialize_info() {
    let json = r#""INFO""#;
    let level: LogLevel = LogLevel::from_json(json).unwrap();
    assert!(matches!(level, LogLevel::Info));
}

#[test]
fn log_deserialize_warning() {
    let json = r#""WARNING""#;
    let level: LogLevel = LogLevel::from_json(json).unwrap();
    assert!(matches!(level, LogLevel::Warning));
}

#[test]
fn log_deserialize_error() {
    let json = r#""ERROR""#;
    let level: LogLevel = LogLevel::from_json(json).unwrap();
    assert!(matches!(level, LogLevel::Error));
}

#[test]
fn log_deserialize_invalid_variant() {
    let json = r#""INVALID""#;
    let result: Option<LogLevel> = LogLevel::from_json(json);
    assert!(result.is_none());
}

#[test]
fn log_deserialize_lowercase_fails() {
    let json = r#""trace""#;
    let result: Option<LogLevel> = LogLevel::from_json(json);
    assert!(result.is_none());
}

#[test]
fn log_deserialize_mixed_case_fails() {
    let json = r#""Trace""#;
    let result: Option<LogLevel> = LogLevel::from_json(json);
    assert!(result.is_none());
}

#[test]
fn log_deserialize_in_struct() {
    let json = r#"{"level": "ERROR", "message": "Something went wrong"}"#;
    let doc = JsonValue::parse(json).unwrap();
    let fields = match doc {
        JsonValue::Obj(fields) => fields,
        _ => panic!("expected an object"),
    };
    let level = match &fields[0].1 {
        JsonValue::Str(s) => LogLevel::from_token(s).unwrap(),
        _ => panic!("expected a string level"),
    };
    assert!(matches!(level, LogLevel::Error));
    assert_eq!(fields[1].0, "message");
    assert!(matches!(&fields[1].1, JsonValue::Str(s) if s == "Something went wrong"));
}

#[test]
fn log_deserialize_array_of_levels() {
    let json = r#"["TRACE", "INFO", "ERROR"]"#;
    let doc = JsonValue::parse(json).unwrap();
    let items = match doc {
        JsonValue::Arr(items) => items,
        _ => panic!("expected an array"),
    };
    let levels: Vec<LogLevel> = items
        .iter()
        .map(|v| match v {
            JsonValue::Str(s) => LogLevel::from_token(s).unwrap(),
            _ => panic!("expected a string level"),
        })
        .collect();
    assert_eq!(levels.len(), 3);
    assert!(matches!(levels[0], LogLevel::Trace));
    assert!(matches!(levels[1], LogLevel::Info));
    assert!(matches!(levels[2], LogLevel::Error));
}

#[test]
fn log_deserialize_with_whitespace() {
    let json = r#"  "INFO"  "#;
    let level: LogLevel = LogLevel::from_json(json).unwrap();
    assert!(matches!(level, LogLevel::Info));
}

#[test]
fn loglevel_deserialize_trace() {
    let json = r#""TRACE""#;
    let level: LogLevel = LogLevel::from_json(json).unwrap();
    assert!(matches!(level, LogLevel::Trace));
}

#[test]
fn loglevel_deserialize_debug() {
    let json = r#""DEBUG""#;
    let level: LogLevel = LogLevel::from_json(json).unwrap();
    assert!(matches!(level, LogLevel::Debug));
}

#[test]
fn loglevel_deserialize_info() {
    let json = r#""INFO""#;
    let level: LogLevel = LogLevel::from_json(json).unwrap();
    assert!(matches!(level, LogLevel::Info));
}

#[test]
fn loglevel_deserialize_warning() {
    let json = r#""WARNING""#;
    let level: LogLevel = LogLevel::from_json(json).unwrap();
    assert!(matches!(level, LogLevel::Warning));
}

#[test]
fn loglevel_deserialize_error() {
    let json = r#""ERROR""#;
    let level: LogLevel = LogLevel::from_json(json).unwrap();
    assert!(matches!(level, LogLevel::Error));
}

#[test]
fn loglevel_deserialize_invalid_variant() {
    let json = r#""INVALID""#;
    let result: Option<LogLevel> = LogLevel::from_json(json);
    assert!(result.is_none());
}

#[test]
fn loglevel_deserialize_lowercase_fails() {
    let json = r#""trace""#;
    let result: Option<LogLevel> = LogLevel::from_json(json);
    assert!(result.is_none());
}

#[test]
fn loglevel_deserialize_mixed_case_fails() {
    let json = r#""Trace""#;
    let result: Option<LogLevel> = LogLevel::from_json(json);
    assert!(result.is_none());
}

#[test]
fn loglevel_deserialize_in_struct() {
    let json = r#"{"level": "ERROR", "message": "Something went wrong"}"#;
    let doc = JsonValue::parse(json).unwrap();
    let fields = match doc {
        JsonValue::Obj(fields) => fields,
        _ => panic!("expected an object"),
    };
    let level = match &fields[0].1 {
        JsonValue::Str(s) => LogLevel::from_token(s).unwrap(),
        _ => panic!("expected a string level"),
    };
    assert!(matches!(level, LogLevel::Error));
    assert!(matches!(&fields[1].1, JsonValue::Str(s) if s == "Something went wrong"));
}

#[test]
fn loglevel_deserialize_array_of_levels() {
    let json = r#"["TRACE", "INFO", "ERROR"]"#;
    let doc = JsonValue::parse(json).unwrap();
    let items = match doc {
        JsonValue::Arr(items) => items,
        _ => panic!("expected an array"),
    };
    let levels: Vec<LogLevel> = items
        .iter()
        .map(|v| match v {
            JsonValue::Str(s) => LogLevel::from_token(s).unwrap(),
            _ => panic!("expected a string level"),
        })
        .collect();
    assert_eq!(levels.len(), 3);
    assert!(matches!(levels[0], LogLevel::Trace));
    assert!(matches!(levels[1], LogLevel::Info));
    assert!(matches!(levels[2], LogLevel::Error));
}

#[test]
fn loglevel_deserialize_with_whitespace() {
    let json = r#"  "INFO"  "#;
    let level: LogLevel = LogLevel::from_json(json).unwrap();
    assert!(matches!(level, LogLevel::Info));
}

#[test]
fn loglevel_debug_to_file_token() {
    let level = LogLevel::from_token("DEBUG_TO_FILE").unwrap();
    assert!(matches!(level, LogLevel::DebugToFile));
}

#[test]
fn loglevel_non_string_json_fails() {
    let result: Option<LogLevel> = LogLevel::from_json("17");
    assert!(result.is_none());
}
