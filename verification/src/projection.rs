//! What the output tells of costs, workloads and machines, and nothing else of them.
use serde_json::{Number, Value};
use vstd::prelude::*;

use crate::document::{entry, text_value};
use crate::json::{array, natural_number, null, number, object};
use crate::json::{
    distinct_names, json, lemma_distinct_names, members, name_differs, names_differ, natural, Json,
};
use crate::model::{
    Cloud, CloudMachineCandidate, IceConfig, InstanceWorkload, RuntimeCostEstimate, VastOffer,
};

verus! {

/// A number, or null.
pub open spec fn amount_json(amount: Option<Number>) -> Json {
    match amount {
        Some(n) => Json::Number(n),
        None => Json::Null,
    }
}

/// A count, or null.
pub open spec fn count_json(count: Option<u32>) -> Json {
    match count {
        Some(n) => Json::Number(natural(n as u64)),
        None => Json::Null,
    }
}

/// A name, or null.
pub open spec fn name_json(name: Option<String>) -> Json {
    match name {
        Some(name) => Json::Text(name@),
        None => Json::Null,
    }
}

/// A list of names.
pub open spec fn names_json(names: Seq<String>) -> Json {
    Json::Array(names.map_values(|name: String| Json::Text(name@)))
}

/// What is told of a cost estimate.
pub open spec fn cost_json(cost: RuntimeCostEstimate) -> Json {
    Json::Object(
        seq![
            ("currency"@, Json::Text("USD"@)),
            ("hourly_usd"@, amount_json(cost.hourly_usd)),
            ("requested_hours"@, amount_json(cost.requested_hours)),
            ("scheduled_hours"@, amount_json(cost.billed_hours)),
            ("estimated_total_usd"@, amount_json(cost.total_usd)),
        ],
    )
}

/// What is told of a workload.
pub open spec fn workload_json(workload: Option<InstanceWorkload>) -> Json {
    match workload {
        Some(InstanceWorkload::Shell) => Json::Object(seq![("kind"@, Json::Text("shell"@))]),
        Some(InstanceWorkload::Container(image)) => Json::Object(
            seq![("kind"@, Json::Text("container"@)), ("image"@, Json::Text(image@))],
        ),
        Some(InstanceWorkload::Unpack(source)) => Json::Object(
            seq![("kind"@, Json::Text("unpack"@)), ("source"@, Json::Text(source@))],
        ),
        None => Json::Null,
    }
}

/// What is told of an offer.
pub open spec fn vast_offer_json(offer: VastOffer) -> Json {
    Json::Object(
        seq![
            ("offer_id"@, Json::Number(natural(offer.id))),
            ("gpu_model"@, name_json(offer.gpu_name)),
            ("num_gpus"@, count_json(offer.num_gpus)),
            ("cpu_cores"@, amount_json(offer.cpu_cores_effective)),
            ("ram_mb"@, amount_json(offer.cpu_ram)),
            ("hourly_usd"@, amount_json(offer.hourly_price)),
            ("available_seconds"@, amount_json(offer.duration)),
            ("location"@, name_json(offer.geolocation)),
            ("verification"@, name_json(offer.verification)),
            ("reliability"@, amount_json(offer.reliability)),
        ],
    )
}

/// What is told of a machine type.
pub open spec fn machine_json(candidate: CloudMachineCandidate) -> Json {
    Json::Object(
        seq![
            ("machine_type"@, Json::Text(candidate.machine@)),
            ("cpu_cores"@, Json::Number(natural(candidate.vcpus as u64))),
            ("ram_mb"@, Json::Number(natural(candidate.ram_mb as u64))),
            ("gpus"@, names_json(candidate.gpus@)),
            ("hourly_usd"@, amount_json(candidate.hourly_usd)),
            ("region"@, Json::Text(candidate.region@)),
            ("zone"@, name_json(candidate.zone)),
        ],
    )
}

/// What is told of an offer does not depend on the total that the provider quotes.
pub proof fn lemma_quote_is_not_told(offer: VastOffer, quote: Option<Number>)
    ensures
        vast_offer_json(VastOffer { quoted_total_hourly_price: quote, ..offer })
            == vast_offer_json(offer),
{
}

/// What is told of a cost estimate has no name twice.
pub(crate) proof fn lemma_cost_names(cost: RuntimeCostEstimate)
    ensures
        distinct_names(cost_json(cost)->Object_0),
{
    reveal_strlit("currency");
    reveal_strlit("hourly_usd");
    reveal_strlit("requested_hours");
    reveal_strlit("scheduled_hours");
    reveal_strlit("estimated_total_usd");
    assert("currency"@.len() == 8);
    assert("hourly_usd"@.len() == 10);
    assert("requested_hours"@.len() == 15);
    assert("scheduled_hours"@.len() == 15);
    assert("estimated_total_usd"@.len() == 19);
    assert("requested_hours"@[0] == 'r');
    assert("scheduled_hours"@[0] == 's');
    let all = cost_json(cost)->Object_0;
    reveal_with_fuel(name_differs, 6);
    reveal_with_fuel(names_differ, 6);
    lemma_distinct_names(all);
}

/// What is told of a container has no name twice.
pub(crate) proof fn lemma_container_names(image: String)
    ensures
        distinct_names(workload_json(Some(InstanceWorkload::Container(image)))->Object_0),
{
    reveal_strlit("kind");
    reveal_strlit("image");
    assert("kind"@.len() == 4);
    assert("image"@.len() == 5);
    let all = workload_json(Some(InstanceWorkload::Container(image)))->Object_0;
    reveal_with_fuel(name_differs, 3);
    reveal_with_fuel(names_differ, 3);
    lemma_distinct_names(all);
}

/// What is told of an unpacked image has no name twice.
pub(crate) proof fn lemma_unpack_names(source: String)
    ensures
        distinct_names(workload_json(Some(InstanceWorkload::Unpack(source)))->Object_0),
{
    reveal_strlit("kind");
    reveal_strlit("source");
    assert("kind"@.len() == 4);
    assert("source"@.len() == 6);
    let all = workload_json(Some(InstanceWorkload::Unpack(source)))->Object_0;
    reveal_with_fuel(name_differs, 3);
    reveal_with_fuel(names_differ, 3);
    lemma_distinct_names(all);
}

/// What is told of an offer has no name twice.
pub(crate) proof fn lemma_offer_names(offer: VastOffer)
    ensures
        distinct_names(vast_offer_json(offer)->Object_0),
{
    reveal_strlit("offer_id");
    reveal_strlit("gpu_model");
    reveal_strlit("num_gpus");
    reveal_strlit("cpu_cores");
    reveal_strlit("ram_mb");
    reveal_strlit("hourly_usd");
    reveal_strlit("available_seconds");
    reveal_strlit("location");
    reveal_strlit("verification");
    reveal_strlit("reliability");
    assert("offer_id"@.len() == 8);
    assert("gpu_model"@.len() == 9);
    assert("num_gpus"@.len() == 8);
    assert("cpu_cores"@.len() == 9);
    assert("ram_mb"@.len() == 6);
    assert("hourly_usd"@.len() == 10);
    assert("available_seconds"@.len() == 17);
    assert("location"@.len() == 8);
    assert("verification"@.len() == 12);
    assert("reliability"@.len() == 11);
    assert("offer_id"@[0] == 'o');
    assert("num_gpus"@[0] == 'n');
    assert("location"@[0] == 'l');
    assert("gpu_model"@[0] == 'g');
    assert("cpu_cores"@[0] == 'c');
    let all = vast_offer_json(offer)->Object_0;
    reveal_with_fuel(name_differs, 11);
    reveal_with_fuel(names_differ, 11);
    lemma_distinct_names(all);
}

/// What is told of a machine type has no name twice.
pub(crate) proof fn lemma_machine_names(candidate: CloudMachineCandidate)
    ensures
        distinct_names(machine_json(candidate)->Object_0),
{
    reveal_strlit("machine_type");
    reveal_strlit("cpu_cores");
    reveal_strlit("ram_mb");
    reveal_strlit("gpus");
    reveal_strlit("hourly_usd");
    reveal_strlit("region");
    reveal_strlit("zone");
    assert("machine_type"@.len() == 12);
    assert("cpu_cores"@.len() == 9);
    assert("ram_mb"@.len() == 6);
    assert("gpus"@.len() == 4);
    assert("hourly_usd"@.len() == 10);
    assert("region"@.len() == 6);
    assert("zone"@.len() == 4);
    assert("ram_mb"@[1] == 'a');
    assert("region"@[1] == 'e');
    assert("gpus"@[0] == 'g');
    assert("zone"@[0] == 'z');
    let all = machine_json(candidate)->Object_0;
    reveal_with_fuel(name_differs, 8);
    reveal_with_fuel(names_differ, 8);
    lemma_distinct_names(all);
}

fn amount_value(amount: &Option<Number>) -> (value: Value)
    ensures
        json(value) == amount_json(*amount),
{
    match amount {
        Some(n) => number(n),
        None => null(),
    }
}

fn count_value(count: Option<u32>) -> (value: Value)
    ensures
        json(value) == count_json(count),
{
    match count {
        Some(n) => natural_number(n as u64),
        None => null(),
    }
}

fn name_value(name: &Option<String>) -> (value: Value)
    ensures
        json(value) == name_json(*name),
{
    match name {
        Some(name) => text_value(name.as_str()),
        None => null(),
    }
}

fn names_value(names: &Vec<String>) -> (value: Value)
    ensures
        json(value) == names_json(names@),
{
    let mut values: Vec<Value> = Vec::new();
    for i in 0..names.len()
        invariant
            values.len() == i,
            forall|k: int| 0 <= k < i ==> json(#[trigger] values@[k]) == Json::Text(names@[k]@),
    {
        values.push(text_value(names[i].as_str()));
    }
    assert(values@.map_values(|v: Value| json(v)) =~= names@.map_values(
        |name: String| Json::Text(name@),
    ));
    array(values)
}

/// What is told of a cost estimate.
pub fn cost(estimate: &RuntimeCostEstimate) -> (value: Value)
    ensures
        json(value) == cost_json(*estimate),
{
    let entries = vec![
        entry("currency", text_value("USD")),
        entry("hourly_usd", amount_value(&estimate.hourly_usd)),
        entry("requested_hours", amount_value(&estimate.requested_hours)),
        entry("scheduled_hours", amount_value(&estimate.billed_hours)),
        entry("estimated_total_usd", amount_value(&estimate.total_usd)),
    ];
    proof {
        lemma_cost_names(*estimate);
        assert(members(entries@) =~= cost_json(*estimate)->Object_0);
    }
    object(entries)
}

/// What is told of a workload; null where there is none.
pub fn workload(assigned: Option<&InstanceWorkload>) -> (value: Value)
    ensures
        json(value) == workload_json(match assigned {
            Some(assigned) => Some(*assigned),
            None => None,
        }),
{
    match assigned {
        Some(InstanceWorkload::Shell) => {
            let entries = vec![entry("kind", text_value("shell"))];
            assert(members(entries@) =~= seq![("kind"@, Json::Text("shell"@))]);
            object(entries)
        },
        Some(InstanceWorkload::Container(image)) => {
            let entries = vec![
                entry("kind", text_value("container")),
                entry("image", text_value(image.as_str())),
            ];
            proof {
                lemma_container_names(*image);
                assert(members(entries@) =~= workload_json(
                    Some(InstanceWorkload::Container(*image)),
                )->Object_0);
            }
            object(entries)
        },
        Some(InstanceWorkload::Unpack(source)) => {
            let entries = vec![
                entry("kind", text_value("unpack")),
                entry("source", text_value(source.as_str())),
            ];
            proof {
                lemma_unpack_names(*source);
                assert(members(entries@) =~= workload_json(
                    Some(InstanceWorkload::Unpack(*source)),
                )->Object_0);
            }
            object(entries)
        },
        None => null(),
    }
}

/// What is told of an offer on Vast.
pub fn vast_offer(offer: &VastOffer) -> (value: Value)
    ensures
        json(value) == vast_offer_json(*offer),
{
    let entries = vec![
        entry("offer_id", natural_number(offer.id)),
        entry("gpu_model", name_value(&offer.gpu_name)),
        entry("num_gpus", count_value(offer.num_gpus)),
        entry("cpu_cores", amount_value(&offer.cpu_cores_effective)),
        entry("ram_mb", amount_value(&offer.cpu_ram)),
        entry("hourly_usd", amount_value(&offer.hourly_price)),
        entry("available_seconds", amount_value(&offer.duration)),
        entry("location", name_value(&offer.geolocation)),
        entry("verification", name_value(&offer.verification)),
        entry("reliability", amount_value(&offer.reliability)),
    ];
    proof {
        lemma_offer_names(*offer);
        assert(members(entries@) =~= vast_offer_json(*offer)->Object_0);
    }
    object(entries)
}

/// What is told of a machine type.
pub fn machine(candidate: &CloudMachineCandidate) -> (value: Value)
    ensures
        json(value) == machine_json(*candidate),
{
    let entries = vec![
        entry("machine_type", text_value(candidate.machine.as_str())),
        entry("cpu_cores", natural_number(candidate.vcpus as u64)),
        entry("ram_mb", natural_number(candidate.ram_mb as u64)),
        entry("gpus", names_value(&candidate.gpus)),
        entry("hourly_usd", amount_value(&candidate.hourly_usd)),
        entry("region", text_value(candidate.region.as_str())),
        entry("zone", name_value(&candidate.zone)),
    ];
    proof {
        lemma_machine_names(*candidate);
        assert(members(entries@) =~= machine_json(*candidate)->Object_0);
    }
    object(entries)
}

/// The size of the disk that a machine gets, in GB; none where it is not known or there is
/// no disk to allocate. Vast machines are created with `vast_default_disk_gb`.
pub fn allocated_disk_gb(config: &IceConfig, cloud: Cloud, vast_default_disk_gb: u32) -> (r: Option<
    u32,
>)
    ensures
        r == (match cloud {
            Cloud::Gcp => match config.default.gcp.boot_disk_gb {
                Some(size) => Some(size),
                None => Some(50u32),
            },
            Cloud::Aws => config.default.aws.root_disk_gb,
            Cloud::VastAi => Some(vast_default_disk_gb),
            Cloud::Local => None,
        }),
{
    match cloud {
        Cloud::Gcp => match config.default.gcp.boot_disk_gb {
            Some(size) => Some(size),
            None => Some(50),
        },
        // Without an override, AWS uses the root volume size of the chosen AMI.
        Cloud::Aws => config.default.aws.root_disk_gb,
        Cloud::VastAi => Some(vast_default_disk_gb),
        Cloud::Local => None,
    }
}

} // verus!
