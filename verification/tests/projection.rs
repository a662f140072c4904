use ice_output::model::{
    Cloud, CloudMachineCandidate, IceConfig, InstanceWorkload, RuntimeCostEstimate, VastOffer,
};
use ice_output::projection::{allocated_disk_gb, cost, machine, vast_offer, workload};
use serde_json::{Number, Value};

fn amount(x: f64) -> Option<Number> {
    Number::from_f64(x)
}

fn offer() -> VastOffer {
    VastOffer {
        id: 123,
        gpu_name: Some("RTX 5060 Ti".to_owned()),
        num_gpus: Some(1),
        cpu_cores_effective: None,
        cpu_ram: None,
        hourly_price: amount(0.12),
        quoted_total_hourly_price: amount(0.15),
        duration: None,
        geolocation: None,
        verification: None,
        reliability: amount(0.99),
    }
}

#[test]
fn unknown_aws_disk_size_is_not_reported_as_an_invented_default() {
    let mut config = IceConfig::default();
    assert_eq!(allocated_disk_gb(&config, Cloud::Aws, 32), None);
    config.default.aws.root_disk_gb = Some(80);
    assert_eq!(allocated_disk_gb(&config, Cloud::Aws, 32), Some(80));
    assert_eq!(allocated_disk_gb(&config, Cloud::Gcp, 32), Some(50));
}

#[test]
fn disks_of_the_other_clouds() {
    let mut config = IceConfig::default();
    config.default.gcp.boot_disk_gb = Some(0);
    assert_eq!(allocated_disk_gb(&config, Cloud::Gcp, 32), Some(0));
    assert_eq!(allocated_disk_gb(&config, Cloud::VastAi, 32), Some(32));
    assert_eq!(allocated_disk_gb(&config, Cloud::VastAi, 7), Some(7));
    assert_eq!(allocated_disk_gb(&config, Cloud::Local, 32), None);
}

/// Reads an offer from what the provider sends, with the fields that the library knows.
fn received_offer(raw: &Value) -> VastOffer {
    let text = |name: &str| raw[name].as_str().map(str::to_owned);
    let number = |value: &Value| value.as_number().cloned();
    VastOffer {
        id: raw["id"].as_u64().unwrap(),
        gpu_name: text("gpu_name"),
        num_gpus: raw["num_gpus"].as_u64().map(|n| n as u32),
        cpu_cores_effective: number(&raw["cpu_cores_effective"]),
        cpu_ram: number(&raw["cpu_ram"]),
        hourly_price: number(&raw["dph_total"]),
        quoted_total_hourly_price: number(&raw["search"]["totalHour"]),
        duration: number(&raw["duration"]),
        geolocation: text("geolocation"),
        verification: text("verification"),
        reliability: number(&raw["reliability"]),
    }
}

fn object(entries: Vec<(&str, Value)>) -> Value {
    let mut members = serde_json::Map::new();
    for (name, value) in entries {
        members.insert(name.to_owned(), value);
    }
    Value::Object(members)
}

#[test]
fn vast_quote_and_output_do_not_expose_unrelated_provider_fields() {
    let raw = object(vec![
        ("id", Value::from(123)),
        ("gpu_name", Value::from("RTX 5060 Ti")),
        ("num_gpus", Value::from(1)),
        ("dph_total", Value::from(0.12)),
        ("search", object(vec![("totalHour", Value::from(0.15))])),
        ("image_login", Value::from("secret-registry-token")),
        ("api_key", Value::from("secret-api-token")),
    ]);
    let offer = received_offer(&raw);
    let value = vast_offer(&offer);
    assert_eq!(value["offer_id"], 123);
    assert_eq!(value["num_gpus"], 1);
    assert_eq!(offer.quoted_total_hourly_price, amount(0.15));
    assert!(!value.to_string().contains("secret-"));
    assert!(!value.to_string().contains("0.15"));
    let told: Vec<&str> = value.as_object().unwrap().keys().map(|k| k.as_str()).collect();
    assert_eq!(
        told,
        vec![
            "offer_id",
            "gpu_model",
            "num_gpus",
            "cpu_cores",
            "ram_mb",
            "hourly_usd",
            "available_seconds",
            "location",
            "verification",
            "reliability",
        ]
    );
    let incomplete = received_offer(&object(vec![("id", Value::from(456))]));
    assert_eq!(incomplete.quoted_total_hourly_price, None);
    assert_eq!(vast_offer(&incomplete)["offer_id"], 456);
    assert!(vast_offer(&incomplete)["num_gpus"].is_null());
}

#[test]
fn an_offer_is_told_in_ten_members() {
    let value = vast_offer(&offer());
    assert_eq!(
        value.to_string(),
        "{\"offer_id\":123,\"gpu_model\":\"RTX 5060 Ti\",\"num_gpus\":1,\"cpu_cores\":null,\
         \"ram_mb\":null,\"hourly_usd\":0.12,\"available_seconds\":null,\"location\":null,\
         \"verification\":null,\"reliability\":0.99}"
    );
}

#[test]
fn costs_have_units() {
    let value = cost(&RuntimeCostEstimate {
        hourly_usd: amount(0.5),
        requested_hours: amount(1.25),
        billed_hours: amount(2.0),
        total_usd: amount(f64::NAN),
    });
    assert_eq!(
        value.to_string(),
        "{\"currency\":\"USD\",\"hourly_usd\":0.5,\"requested_hours\":1.25,\
         \"scheduled_hours\":2.0,\"estimated_total_usd\":null}"
    );
}

#[test]
fn workloads_have_a_kind() {
    assert_eq!(
        workload(Some(&InstanceWorkload::Shell)).to_string(),
        "{\"kind\":\"shell\"}"
    );
    assert_eq!(
        workload(Some(&InstanceWorkload::Container("r/i:t".to_owned()))).to_string(),
        "{\"kind\":\"container\",\"image\":\"r/i:t\"}"
    );
    assert_eq!(
        workload(Some(&InstanceWorkload::Unpack("arca:x".to_owned()))).to_string(),
        "{\"kind\":\"unpack\",\"source\":\"arca:x\"}"
    );
    assert_eq!(workload(None), Value::Null);
}

#[test]
fn a_machine_type_is_told_in_seven_members() {
    let value = machine(&CloudMachineCandidate {
        machine: "g2-standard-4".to_owned(),
        vcpus: 4,
        ram_mb: 16384,
        gpus: vec!["L4".to_owned(), "T4".to_owned()],
        hourly_usd: amount(0.7),
        region: "us-central1".to_owned(),
        zone: None,
    });
    assert_eq!(
        value.to_string(),
        "{\"machine_type\":\"g2-standard-4\",\"cpu_cores\":4,\"ram_mb\":16384,\
         \"gpus\":[\"L4\",\"T4\"],\"hourly_usd\":0.7,\"region\":\"us-central1\",\"zone\":null}"
    );
}

#[test]
fn the_quote_changes_nothing_that_is_told() {
    let mut other = offer();
    other.quoted_total_hourly_price = None;
    assert_eq!(vast_offer(&other), vast_offer(&offer()));
}
