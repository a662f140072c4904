use ice_output::config::{config_values, supported_config_keys};
use serde_json::Value;

fn object(entries: Vec<(&str, Value)>) -> Value {
    let mut members = serde_json::Map::new();
    for (name, value) in entries {
        members.insert(name.to_owned(), value);
    }
    Value::Object(members)
}

fn string(text: &str) -> Value {
    Value::String(text.to_owned())
}

fn config(secret: &str) -> Value {
    object(vec![
        (
            "default",
            object(vec![
                ("cloud", string("gcp")),
                ("runtime_hours", Value::from(1.5)),
                ("gcp", object(vec![("boot_disk_gb", Value::from(80))])),
                ("unknown", string("left out")),
            ]),
        ),
        (
            "auth",
            object(vec![
                ("vast_ai", object(vec![("api_key", string(secret))])),
                ("gcp", object(vec![("project", string(secret))])),
                ("aws", object(vec![("access_key_id", Value::Null)])),
            ]),
        ),
    ])
}

#[test]
fn every_key_is_told() {
    let value = config_values(&config("hunter2"));
    let told: Vec<&str> = value.as_object().unwrap().keys().map(|k| k.as_str()).collect();
    assert_eq!(told, supported_config_keys());
    assert_eq!(told.len(), 32);
    assert_eq!(value["default.cloud"], "gcp");
    assert_eq!(value["default.runtime_hours"], 1.5);
    assert_eq!(value["default.gcp.boot_disk_gb"], 80);
    assert!(value["default.aws.region"].is_null());
    assert!(!value.to_string().contains("left out"));
}

#[test]
fn credentials_are_redacted() {
    let value = config_values(&config("hunter2"));
    assert_eq!(value["auth.vast_ai.api_key"], "<redacted>");
    assert_eq!(value["auth.gcp.project"], "<redacted>");
    assert!(value["auth.gcp.service_account_json"].is_null());
    assert!(value["auth.aws.access_key_id"].is_null());
    assert!(value["auth.aws.secret_access_key"].is_null());
    assert!(!value.to_string().contains("hunter2"));
    assert_eq!(value, config_values(&config("another")));
}

#[test]
fn a_configuration_without_members_has_null_everywhere() {
    for raw in [Value::Null, Value::Bool(true), Value::Array(vec![Value::Null])] {
        let value = config_values(&raw);
        assert!(value.as_object().unwrap().values().all(|v| v.is_null()));
    }
}
