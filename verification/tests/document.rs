use ice_output::document::{connection, document, emit, error, write_document};
use ice_output::model::Cloud;
use serde_json::Value;

fn instances(values: Vec<Value>) -> Value {
    let mut result = serde_json::Map::new();
    result.insert("instances".to_owned(), Value::Array(values));
    result.insert("cost".to_owned(), Value::Null);
    Value::Object(result)
}

fn text(bytes: &[u8]) -> &str {
    std::str::from_utf8(bytes).unwrap()
}

#[test]
fn output_is_one_json_document_with_typed_values_and_newline() {
    let expected = document("list", Some(Cloud::VastAi), instances(Vec::new()));
    let mut bytes = Vec::new();
    write_document(&mut bytes, &expected);
    assert_eq!(bytes.last(), Some(&b'\n'));
    assert_eq!(serde_json::from_slice::<Value>(&bytes).unwrap(), expected);
    assert_eq!(expected["schema_version"], 1);
    assert!(expected["result"]["instances"]
        .as_array()
        .unwrap()
        .is_empty());
    assert!(expected["result"]["cost"].is_null());
}

#[test]
fn a_listing_reads_as_documented() {
    let mut result = serde_json::Map::new();
    result.insert("instances".to_owned(), Value::Array(Vec::new()));
    let mut out = Vec::new();
    emit(&mut out, "list", Some(Cloud::VastAi), Value::Object(result));
    assert_eq!(
        text(&out),
        "{\"schema_version\":1,\"command\":\"list\",\"cloud\":\"vast.ai\",\
         \"result\":{\"instances\":[]}}\n"
    );
}

#[test]
fn documents_follow_each_other_on_lines_of_their_own() {
    let mut out = Vec::new();
    emit(&mut out, "a\nb", None, Value::Null);
    emit(&mut out, "c", Some(Cloud::Local), Value::Null);
    assert_eq!(
        text(&out),
        "{\"schema_version\":1,\"command\":\"a\\nb\",\"cloud\":null,\"result\":null}\n\
         {\"schema_version\":1,\"command\":\"c\",\"cloud\":\"local\",\"result\":null}\n"
    );
}

#[test]
fn errors_have_a_code_and_a_message() {
    let mut out = Vec::new();
    error(&mut out, Some("list"), Some(Cloud::Gcp), "failed", "say \"no\"");
    error(&mut out, None, None, "usage", "what");
    assert_eq!(
        text(&out),
        "{\"schema_version\":1,\"command\":\"list\",\"cloud\":\"gcp\",\
         \"error\":{\"code\":\"failed\",\"message\":\"say \\\"no\\\"\"}}\n\
         {\"schema_version\":1,\"command\":null,\"cloud\":null,\
         \"error\":{\"code\":\"usage\",\"message\":\"what\"}}\n"
    );
}

#[test]
fn a_connection_is_told_with_its_command() {
    let mut instance = serde_json::Map::new();
    instance.insert("id".to_owned(), Value::String("ice-example".to_owned()));
    let mut out = Vec::new();
    connection(&mut out, Cloud::Aws, Value::Object(instance), "ssh host");
    assert_eq!(
        text(&out),
        "{\"schema_version\":1,\"command\":\"shell\",\"cloud\":\"aws\",\
         \"result\":{\"instance\":{\"id\":\"ice-example\"},\"connect_command\":\"ssh host\"}}\n"
    );
}

#[test]
fn clouds_have_identifiers() {
    let names: Vec<&str> = [Cloud::VastAi, Cloud::Gcp, Cloud::Aws, Cloud::Local]
        .iter()
        .map(|cloud| cloud.name())
        .collect();
    assert_eq!(names, vec!["vast.ai", "gcp", "aws", "local"]);
}

#[test]
fn a_failure_holds_no_result() {
    let mut out = Vec::new();
    error(&mut out, Some("list"), None, "failed", "no");
    let failure: Value = serde_json::from_slice(&out).unwrap();
    assert!(failure["result"].is_null());
    assert_eq!(failure["error"]["code"], "failed");
    let success = document("list", None, Value::Bool(true));
    assert!(success["error"].is_null());
    assert_eq!(success["result"], true);
    assert_eq!(success["command"], "list");
    assert_ne!(success, failure);
}

#[test]
fn every_document_is_a_line() {
    let mut out = Vec::new();
    for word in ["a", "b\n\n", "\r\n", "\u{2028}"] {
        emit(&mut out, word, None, Value::String("\n".to_owned()));
    }
    assert_eq!(out.iter().filter(|byte| **byte == b'\n').count(), 4);
    let words: Vec<Value> = text(&out)
        .split_terminator('\n')
        .map(|line| serde_json::from_str::<Value>(line).unwrap()["command"].clone())
        .collect();
    assert_eq!(words, vec!["a", "b\n\n", "\r\n", "\u{2028}"]);
}
