//! Laws on what is remembered and shown of containers, and on time.

use vstd::prelude::*;

use crate::clock;
use crate::clock::ClockError;
use crate::http;
use crate::http::ContainerInfo;
use crate::state;
use crate::state::ContainerState;

verus! {

/// The time between two moments: added to the earlier one it gives the later one, and there is none
/// where the clock went back.
pub proof fn lemma_time_between(start: nat, now: nat)
    ensures
        start <= now ==> start + state::seconds_between(start, now) == now,
        now <= start ==> state::seconds_between(start, now) == 0,
{
}

/// What is remembered of a container over its life: its slot, its worker and the time when it was started
/// stay as they were, the time of the last advertisement is kept, and it has been running since it was
/// started.
pub proof fn lemma_what_is_remembered(
    slot: usize,
    key: Seq<char>,
    started: u64,
    advertised: u64,
    now: u64,
    new: Result<ContainerState, ClockError>,
    after: ContainerState,
    marked: Result<(), ClockError>,
)
    requires
        ContainerState::is_new(new, slot, key, Ok(started)),
        new matches Ok(s) && s.is_marked(after, Ok(advertised), marked),
        started <= now,
    ensures
        new matches Ok(s) && s.slot == slot && s.worker_pubkey@ == key && s.started_at == started
            && s.advertised_at is None,
        after.slot == slot,
        after.worker_pubkey@ == key,
        after.started_at == started,
        after.advertised_at == Some(advertised),
        after.seconds_at(Ok(now)) matches Ok(n) && started + n == now,
{
}

/// Where the clock could not be read, that is the result, and nothing changes.
pub proof fn lemma_clock_failures(
    slot: usize,
    key: Seq<char>,
    e: ClockError,
    new: Result<ContainerState, ClockError>,
    s: ContainerState,
    after: ContainerState,
    marked: Result<(), ClockError>,
)
    requires
        ContainerState::is_new(new, slot, key, Err(e)),
        s.is_marked(after, Err(e), marked),
    ensures
        new is Err,
        marked is Err,
        after == s,
        s.seconds_at(Err(e)) is Err,
{
}

/// What is shown of a container is what is remembered of it, and the time since it was started.
pub proof fn lemma_what_is_shown(info: ContainerInfo, name: String, s: ContainerState, now: u64)
    requires
        http::shows(info, name, s, now),
        s.started_at <= now,
    ensures
        info.name@ == name@,
        info.slot == s.slot,
        info.worker_pubkey@ == s.worker_pubkey@,
        s.started_at + info.running_seconds == now,
        info.advertised_at == s.advertised_at,
{
}

/// The clock is read in whole seconds.
pub proof fn lemma_clock_readings(since: Option<std::time::Duration>)
    ensures
        since matches Some(d) ==> clock::seconds_since(since) == Ok::<u64, ClockError>(
            clock::secs_of_duration(d),
        ),
        since is None ==> clock::seconds_since(since) is Err,
{
}

} // verus!
