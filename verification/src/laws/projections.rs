//! Costs, workloads, offers, machine types and disks, read by name.
use serde_json::{Number, Value};
use vstd::prelude::*;

use crate::json::{json, lemma_member_found, member_of, members_of, natural, Json};
use crate::model::{
    Cloud, CloudMachineCandidate, IceConfig, InstanceWorkload, RuntimeCostEstimate, VastOffer,
};
use crate::projection::{allocated_disk_gb, cost, machine, vast_offer, workload};
use crate::projection::{
    cost_json, lemma_container_names, lemma_cost_names, lemma_machine_names, lemma_offer_names,
    lemma_unpack_names, machine_json, vast_offer_json,
};

verus! {

/// Whether an object tells an amount under a name: the number, or null where it is absent.
pub open spec fn tells_amount(told: Json, name: Seq<char>, amount: Option<Number>) -> bool {
    &&& amount matches Some(n) ==> member_of(told, name) == Json::Number(n)
    &&& amount is None ==> member_of(told, name) == Json::Null
}

/// Whether an object tells a text under a name: the text, or null where it is absent.
pub open spec fn tells_name(told: Json, name: Seq<char>, text: Option<String>) -> bool {
    &&& text matches Some(t) ==> member_of(told, name) == Json::Text(t@)
    &&& text is None ==> member_of(told, name) == Json::Null
}

/// A cost is told in dollars, with each amount under the name that says what it is.
pub proof fn law_cost(estimate: &RuntimeCostEstimate, value: Value)
    requires
        call_ensures(cost, (estimate,), value),
    ensures
        json(value) is Object,
        members_of(json(value)).len() == 5,
        member_of(json(value), "currency"@) == Json::Text("USD"@),
        tells_amount(json(value), "hourly_usd"@, estimate.hourly_usd),
        tells_amount(json(value), "requested_hours"@, estimate.requested_hours),
        tells_amount(json(value), "scheduled_hours"@, estimate.billed_hours),
        tells_amount(json(value), "estimated_total_usd"@, estimate.total_usd),
{
    let all = cost_json(*estimate)->Object_0;
    lemma_cost_names(*estimate);
    lemma_member_found(all, 0);
    lemma_member_found(all, 1);
    lemma_member_found(all, 2);
    lemma_member_found(all, 3);
    lemma_member_found(all, 4);
}

/// A workload is told by its kind and, where it has one, its image or source; no workload
/// is told as null.
pub proof fn law_workload(assigned: Option<&InstanceWorkload>, value: Value)
    requires
        call_ensures(workload, (assigned,), value),
    ensures
        assigned is None ==> json(value) == Json::Null,
        assigned is Some ==> json(value) is Object,
        assigned matches Some(InstanceWorkload::Shell) ==> {
            &&& members_of(json(value)).len() == 1
            &&& member_of(json(value), "kind"@) == Json::Text("shell"@)
        },
        assigned matches Some(InstanceWorkload::Container(image)) ==> {
            &&& members_of(json(value)).len() == 2
            &&& member_of(json(value), "kind"@) == Json::Text("container"@)
            &&& member_of(json(value), "image"@) == Json::Text(image@)
        },
        assigned matches Some(InstanceWorkload::Unpack(source)) ==> {
            &&& members_of(json(value)).len() == 2
            &&& member_of(json(value), "kind"@) == Json::Text("unpack"@)
            &&& member_of(json(value), "source"@) == Json::Text(source@)
        },
{
    match assigned {
        Some(InstanceWorkload::Shell) => {
            lemma_member_found(members_of(json(value)), 0);
        },
        Some(InstanceWorkload::Container(image)) => {
            lemma_container_names(*image);
            lemma_member_found(members_of(json(value)), 0);
            lemma_member_found(members_of(json(value)), 1);
        },
        Some(InstanceWorkload::Unpack(source)) => {
            lemma_unpack_names(*source);
            lemma_member_found(members_of(json(value)), 0);
            lemma_member_found(members_of(json(value)), 1);
        },
        None => {},
    }
}

/// An offer is told with each of its fields under the name that says what it is, and with
/// nothing else.
pub proof fn law_vast_offer(offer: &VastOffer, value: Value)
    requires
        call_ensures(vast_offer, (offer,), value),
    ensures
        json(value) is Object,
        members_of(json(value)).len() == 10,
        member_of(json(value), "offer_id"@) == Json::Number(natural(offer.id)),
        tells_name(json(value), "gpu_model"@, offer.gpu_name),
        offer.num_gpus matches Some(n) ==> member_of(json(value), "num_gpus"@) == Json::Number(
            natural(n as u64),
        ),
        offer.num_gpus is None ==> member_of(json(value), "num_gpus"@) == Json::Null,
        tells_amount(json(value), "cpu_cores"@, offer.cpu_cores_effective),
        tells_amount(json(value), "ram_mb"@, offer.cpu_ram),
        tells_amount(json(value), "hourly_usd"@, offer.hourly_price),
        tells_amount(json(value), "available_seconds"@, offer.duration),
        tells_name(json(value), "location"@, offer.geolocation),
        tells_name(json(value), "verification"@, offer.verification),
        tells_amount(json(value), "reliability"@, offer.reliability),
{
    let all = vast_offer_json(*offer)->Object_0;
    lemma_offer_names(*offer);
    lemma_member_found(all, 0);
    lemma_member_found(all, 1);
    lemma_member_found(all, 2);
    lemma_member_found(all, 3);
    lemma_member_found(all, 4);
    lemma_member_found(all, 5);
    lemma_member_found(all, 6);
    lemma_member_found(all, 7);
    lemma_member_found(all, 8);
    lemma_member_found(all, 9);
}

/// A machine type is told with each of its fields under the name that says what it is, its
/// GPUs in their order.
pub proof fn law_machine(candidate: &CloudMachineCandidate, value: Value)
    requires
        call_ensures(machine, (candidate,), value),
    ensures
        json(value) is Object,
        members_of(json(value)).len() == 7,
        member_of(json(value), "machine_type"@) == Json::Text(candidate.machine@),
        member_of(json(value), "cpu_cores"@) == Json::Number(natural(candidate.vcpus as u64)),
        member_of(json(value), "ram_mb"@) == Json::Number(natural(candidate.ram_mb as u64)),
        member_of(json(value), "gpus"@) matches Json::Array(gpus) && {
            &&& gpus.len() == candidate.gpus@.len()
            &&& forall|i: int|
                0 <= i < gpus.len() ==> #[trigger] gpus[i] == Json::Text(candidate.gpus@[i]@)
        },
        tells_amount(json(value), "hourly_usd"@, candidate.hourly_usd),
        member_of(json(value), "region"@) == Json::Text(candidate.region@),
        tells_name(json(value), "zone"@, candidate.zone),
{
    let all = machine_json(*candidate)->Object_0;
    lemma_machine_names(*candidate);
    lemma_member_found(all, 0);
    lemma_member_found(all, 1);
    lemma_member_found(all, 2);
    lemma_member_found(all, 3);
    lemma_member_found(all, 4);
    lemma_member_found(all, 5);
    lemma_member_found(all, 6);
}

/// A disk size that is configured for a cloud is the one that is told. Where none is, AWS
/// leaves it to the image, which is told as no size, and Google Cloud machines get 50 GB.
/// Vast machines get the size that they are created with; nothing is allocated locally.
pub proof fn law_allocated_disk(config: &IceConfig, cloud: Cloud, vast: u32, r: Option<u32>)
    requires
        call_ensures(allocated_disk_gb, (config, cloud, vast), r),
    ensures
        cloud is Aws ==> r == config.default.aws.root_disk_gb,
        cloud is Gcp && config.default.gcp.boot_disk_gb is Some ==> r
            == config.default.gcp.boot_disk_gb,
        cloud is Gcp && config.default.gcp.boot_disk_gb is None ==> r == Some(50u32),
        cloud is VastAi ==> r == Some(vast),
        cloud is Local ==> r is None,
{
}

/// What is configured for one cloud has no bearing on the disks of another.
pub proof fn law_disks_are_told_apart(
    config: &IceConfig,
    other: &IceConfig,
    cloud: Cloud,
    vast: u32,
    r: Option<u32>,
    r_other: Option<u32>,
)
    requires
        call_ensures(allocated_disk_gb, (config, cloud, vast), r),
        call_ensures(allocated_disk_gb, (other, cloud, vast), r_other),
        cloud is Aws ==> config.default.aws == other.default.aws,
        cloud is Gcp ==> config.default.gcp == other.default.gcp,
    ensures
        r == r_other,
{
}

} // verus!
