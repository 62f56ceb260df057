//! What the status page says.

use vstd::prelude::*;

use crate::clock;
use crate::config::{copy_prices, copy_software, Config, WorkerPrice, WorkerSoftware};
use crate::state;
use crate::state::ContainerState;
use crate::text::copy_list;

verus! {

/// A container on the status page.
#[derive(Debug)]
pub struct ContainerInfo {
    pub name: String,
    pub slot: usize,
    pub worker_pubkey: String,
    pub running_seconds: u64,
    pub advertised_at: Option<u64>,
}

/// What is advertised, on the status page.
#[derive(Debug)]
pub struct AdvertisementSettings {
    pub relays: Vec<String>,
    pub software: Vec<WorkerSoftware>,
    pub prices: Vec<WorkerPrice>,
    pub min_duration: u64,
    pub max_duration: u64,
    pub advertise_interval_seconds: u64,
}

/// The status page.
#[derive(Debug)]
pub struct StatusResponse {
    pub pool_size: usize,
    pub active_containers: usize,
    pub containers: Vec<ContainerInfo>,
    pub poll_interval_seconds: u64,
    pub job_timeout_seconds: u64,
    pub advertisement: AdvertisementSettings,
    pub uptime_seconds: u64,
}

/// Whether `info` shows a remembered container at `now`.
pub open spec fn shows(info: ContainerInfo, name: String, s: ContainerState, now: u64) -> bool {
    &&& info.name == name
    &&& info.slot == s.slot
    &&& info.worker_pubkey == s.worker_pubkey
    &&& info.running_seconds == state::seconds_between(s.started_at as nat, now as nat)
    &&& info.advertised_at == s.advertised_at
}

impl AdvertisementSettings {
    /// What is advertised under a configuration.
    pub fn from_config(config: &Config) -> (r: Self)
        ensures
            r.relays@ == config.relays@,
            r.software@ == config.worker_software@,
            r.prices@ == config.worker_prices@,
            r.min_duration == config.worker_min_duration,
            r.max_duration == config.worker_max_duration,
            r.advertise_interval_seconds == clock::secs_of_duration(config.advertise_interval),
    {
        AdvertisementSettings {
            relays: copy_list(&config.relays),
            software: copy_software(&config.worker_software),
            prices: copy_prices(&config.worker_prices),
            min_duration: config.worker_min_duration,
            max_duration: config.worker_max_duration,
            advertise_interval_seconds: config.advertise_interval.as_secs(),
        }
    }
}

/// The status page at `now`, for the containers that are remembered.
pub fn status(
    config: &Config,
    db_containers: Vec<(String, ContainerState)>,
    now: u64,
    uptime_seconds: u64,
) -> (r: StatusResponse)
    ensures
        r.pool_size == config.max_concurrent_jobs,
        r.active_containers == db_containers@.len(),
        r.containers@.len() == db_containers@.len(),
        forall|i: int|
            0 <= i < r.containers@.len() ==> shows(
                #[trigger] r.containers@[i],
                db_containers@[i].0,
                db_containers@[i].1,
                now,
            ),
        r.poll_interval_seconds == clock::secs_of_duration(config.poll_interval),
        r.job_timeout_seconds == clock::secs_of_duration(config.job_timeout),
        r.advertisement.relays@ == config.relays@,
        r.advertisement.software@ == config.worker_software@,
        r.advertisement.prices@ == config.worker_prices@,
        r.advertisement.min_duration == config.worker_min_duration,
        r.advertisement.max_duration == config.worker_max_duration,
        r.advertisement.advertise_interval_seconds == clock::secs_of_duration(
            config.advertise_interval,
        ),
        r.uptime_seconds == uptime_seconds,
{
    let mut containers: Vec<ContainerInfo> = Vec::new();
    let mut i: usize = 0;
    while i < db_containers.len()
        invariant
            i <= db_containers@.len(),
            containers@.len() == i,
            forall|j: int|
                0 <= j < i ==> shows(
                    #[trigger] containers@[j],
                    db_containers@[j].0,
                    db_containers@[j].1,
                    now,
                ),
        decreases db_containers.len() - i,
    {
        let entry = &db_containers[i];
        containers.push(
            ContainerInfo {
                name: entry.0.clone(),
                slot: entry.1.slot,
                worker_pubkey: entry.1.worker_pubkey.clone(),
                running_seconds: entry.1.running_seconds_at(now),
                advertised_at: entry.1.advertised_at,
            },
        );
        i = i + 1;
    }
    StatusResponse {
        pool_size: config.max_concurrent_jobs,
        active_containers: containers.len(),
        containers,
        poll_interval_seconds: config.poll_interval.as_secs(),
        job_timeout_seconds: config.job_timeout.as_secs(),
        advertisement: AdvertisementSettings::from_config(config),
        uptime_seconds,
    }
}

} // verus!
