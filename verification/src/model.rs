//! The things that the output speaks of.
use serde_json::Number;
use vstd::prelude::*;

verus! {

/// Where machines are rented.
#[derive(Clone, Copy, Debug, PartialEq, Eq, Structural)]
pub enum Cloud {
    VastAi,
    Gcp,
    Aws,
    Local,
}

impl Cloud {
    /// The identifier of a cloud.
    pub open spec fn identifier(self) -> Seq<char> {
        match self {
            Cloud::VastAi => "vast.ai"@,
            Cloud::Gcp => "gcp"@,
            Cloud::Aws => "aws"@,
            Cloud::Local => "local"@,
        }
    }

    /// The identifier of a cloud.
    pub fn name(self) -> (r: &'static str)
        ensures
            r@ == self.identifier(),
    {
        match self {
            Cloud::VastAi => "vast.ai",
            Cloud::Gcp => "gcp",
            Cloud::Aws => "aws",
            Cloud::Local => "local",
        }
    }
}

/// Settings for Google Cloud machines.
#[derive(Debug)]
pub struct GcpDefaults {
    pub boot_disk_gb: Option<u32>,
}

/// Settings for AWS machines.
#[derive(Debug)]
pub struct AwsDefaults {
    pub root_disk_gb: Option<u32>,
}

/// Settings for machines, by cloud.
#[derive(Debug)]
pub struct Defaults {
    pub gcp: GcpDefaults,
    pub aws: AwsDefaults,
}

/// The part of the configuration that decides on disks.
#[derive(Debug)]
pub struct IceConfig {
    pub default: Defaults,
}

impl Default for IceConfig {
    /// Nothing is configured.
    fn default() -> (config: Self)
        ensures
            config.default.gcp.boot_disk_gb is None,
            config.default.aws.root_disk_gb is None,
    {
        IceConfig {
            default: Defaults {
                gcp: GcpDefaults { boot_disk_gb: None },
                aws: AwsDefaults { root_disk_gb: None },
            },
        }
    }
}

/// What a machine is expected to cost. Amounts that are not finite are absent.
#[derive(Debug)]
pub struct RuntimeCostEstimate {
    pub hourly_usd: Option<Number>,
    pub requested_hours: Option<Number>,
    pub billed_hours: Option<Number>,
    pub total_usd: Option<Number>,
}

/// What runs on a machine.
#[derive(Debug)]
pub enum InstanceWorkload {
    /// Nothing but a shell.
    Shell,
    /// A container image, by its reference.
    Container(String),
    /// An unpacked image, by its source.
    Unpack(String),
}

/// A machine that is offered for rent on Vast.
#[derive(Debug)]
pub struct VastOffer {
    pub id: u64,
    pub gpu_name: Option<String>,
    pub num_gpus: Option<u32>,
    pub cpu_cores_effective: Option<Number>,
    pub cpu_ram: Option<Number>,
    /// The rate of the offer in USD.
    pub hourly_price: Option<Number>,
    /// The provider's rate with the allocated storage, in USD.
    pub quoted_total_hourly_price: Option<Number>,
    pub duration: Option<Number>,
    pub geolocation: Option<String>,
    pub verification: Option<String>,
    pub reliability: Option<Number>,
}

/// A machine type that a cloud sells.
#[derive(Debug)]
pub struct CloudMachineCandidate {
    pub machine: String,
    pub vcpus: u32,
    pub ram_mb: u32,
    pub gpus: Vec<String>,
    pub hourly_usd: Option<Number>,
    pub region: String,
    pub zone: Option<String>,
}

} // verus!
