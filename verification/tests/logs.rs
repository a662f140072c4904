use ice_output::logs::{
    begin_logs, initialize, is_json, log_event, log_text, streaming_logs, try_log_event, LogError,
    OutputPolicy,
};
use ice_output::model::Cloud;
use serde_json::Value;

fn text(bytes: &[u8]) -> &str {
    std::str::from_utf8(bytes).unwrap()
}

fn logging() -> OutputPolicy {
    let mut policy = OutputPolicy::default();
    initialize(&mut policy, true);
    begin_logs(&mut policy, Cloud::Gcp, "ice-example");
    policy
}

#[test]
fn the_first_initialization_stands() {
    let mut policy = OutputPolicy::default();
    assert!(!is_json(&policy));
    initialize(&mut policy, true);
    initialize(&mut policy, false);
    assert!(is_json(&policy));
    let mut other = OutputPolicy::default();
    initialize(&mut other, false);
    initialize(&mut other, true);
    assert!(!is_json(&other));
}

#[test]
fn logs_are_begun_only_for_json() {
    let mut policy = OutputPolicy::default();
    begin_logs(&mut policy, Cloud::Gcp, "early");
    assert!(!streaming_logs(&policy));
    initialize(&mut policy, false);
    begin_logs(&mut policy, Cloud::Gcp, "plain");
    assert!(!streaming_logs(&policy));
    assert!(streaming_logs(&logging()));
}

#[test]
fn the_first_log_stands() {
    let mut policy = logging();
    begin_logs(&mut policy, Cloud::Aws, "other");
    let mut out = Vec::new();
    assert_eq!(log_event(&policy, &mut out, Value::Null), Ok(()));
    assert_eq!(
        text(&out),
        "{\"schema_version\":1,\"command\":\"logs\",\"cloud\":\"gcp\",\
         \"result\":{\"instance\":\"ice-example\"}}\n"
    );
}

#[test]
fn log_events_name_their_instance() {
    let mut event = serde_json::Map::new();
    event.insert("instance".to_owned(), Value::Bool(false));
    event.insert("event".to_owned(), Value::String("end".to_owned()));
    let mut out = Vec::new();
    assert_eq!(log_event(&logging(), &mut out, Value::Object(event)), Ok(()));
    assert_eq!(
        text(&out),
        "{\"schema_version\":1,\"command\":\"logs\",\"cloud\":\"gcp\",\
         \"result\":{\"instance\":\"ice-example\",\"event\":\"end\"}}\n"
    );
}

#[test]
fn log_texts_are_records() {
    let policy = logging();
    let mut out = Vec::new();
    assert_eq!(log_text(&policy, &mut out, "stdout", "a\n", false), Ok(()));
    assert_eq!(
        text(&out),
        "{\"schema_version\":1,\"command\":\"logs\",\"cloud\":\"gcp\",\
         \"result\":{\"event\":\"data\",\"stream\":\"stdout\",\"text\":\"a\\n\",\
         \"reset\":false,\"instance\":\"ice-example\"}}\n"
    );
}

#[test]
fn a_text_that_says_nothing_is_left_out() {
    let policy = logging();
    let mut out = Vec::new();
    assert_eq!(log_text(&policy, &mut out, "stdout", "", false), Ok(()));
    assert!(out.is_empty());
    assert_eq!(log_text(&policy, &mut out, "stdout", "", true), Ok(()));
    assert!(text(&out).contains("\"text\":\"\",\"reset\":true"));
}

#[test]
fn records_need_a_log() {
    let mut policy = OutputPolicy::default();
    initialize(&mut policy, true);
    let mut out = Vec::new();
    assert_eq!(
        log_event(&policy, &mut out, Value::Null),
        Err(LogError::NotInitialized)
    );
    assert_eq!(
        log_text(&policy, &mut out, "stderr", "x", false),
        Err(LogError::NotInitialized)
    );
    assert_eq!(log_text(&policy, &mut out, "stderr", "", false), Ok(()));
    assert!(out.is_empty());
    assert_eq!(
        LogError::NotInitialized.message(),
        "Log output was not initialized"
    );
}

#[test]
fn only_objects_and_null_are_log_records() {
    let policy = logging();
    let mut out = Vec::new();
    assert_eq!(try_log_event(&policy, &mut out, Value::Bool(true)), None);
    assert_eq!(try_log_event(&policy, &mut out, Value::Array(Vec::new())), None);
    assert!(out.is_empty());
    assert_eq!(try_log_event(&policy, &mut out, Value::Null), Some(Ok(())));
    assert_eq!(
        text(&out),
        "{\"schema_version\":1,\"command\":\"logs\",\"cloud\":\"gcp\",\
         \"result\":{\"instance\":\"ice-example\"}}\n"
    );
    let object = Value::Object(serde_json::Map::new());
    assert_eq!(try_log_event(&policy, &mut out, object), Some(Ok(())));
    let unsettled = OutputPolicy::default();
    assert_eq!(
        try_log_event(&unsettled, &mut out, Value::Bool(true)),
        Some(Err(LogError::NotInitialized))
    );
}
