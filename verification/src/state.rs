//! What the controller remembers of a container.

use core::time::Duration;
use vstd::prelude::*;

use crate::clock;
use crate::clock::{now_seconds, ClockError};

verus! {

/// A container of the pool, as the controller remembers it.
#[derive(Debug, PartialEq, Eq)]
pub struct ContainerState {
    pub slot: usize,
    /// When the container was started, in seconds since the epoch.
    pub started_at: u64,
    pub worker_pubkey: String,
    /// When the worker was last advertised, in seconds since the epoch.
    pub advertised_at: Option<u64>,
}

impl Clone for ContainerState {
    fn clone(&self) -> (r: Self)
        ensures
            r == *self,
    {
        ContainerState {
            slot: self.slot,
            started_at: self.started_at,
            worker_pubkey: self.worker_pubkey.clone(),
            advertised_at: self.advertised_at,
        }
    }
}

/// The seconds from `start` to `now`, and none where `start` is later.
pub open spec fn seconds_between(start: nat, now: nat) -> nat {
    if now >= start {
        (now - start) as nat
    } else {
        0
    }
}

impl ContainerState {
    /// Whether this is a container that was started at `now`, and not advertised yet.
    pub open spec fn is_started(self, slot: usize, worker_pubkey: Seq<char>, now: u64) -> bool {
        &&& self.slot == slot
        &&& self.started_at == now
        &&& self.worker_pubkey@ == worker_pubkey
        &&& self.advertised_at is None
    }

    /// Whether `r` is a container that was started when the clock was read, or the failure to read it.
    pub open spec fn is_new(
        r: Result<Self, ClockError>,
        slot: usize,
        worker_pubkey: Seq<char>,
        reading: Result<u64, ClockError>,
    ) -> bool {
        match reading {
            Ok(now) => r matches Ok(s) && s.is_started(slot, worker_pubkey, now),
            Err(e) => r == Err::<Self, ClockError>(e),
        }
    }

    /// How long the container has been running when the clock was read, or the failure to read it.
    pub open spec fn seconds_at(self, reading: Result<u64, ClockError>) -> Result<u64, ClockError> {
        match reading {
            Ok(now) => Ok(seconds_between(self.started_at as nat, now as nat) as u64),
            Err(e) => Err(e),
        }
    }

    /// Whether `self` becomes `after` when the worker is advertised and the clock is read: the time is
    /// remembered where it could be read, and otherwise nothing changes.
    pub open spec fn is_marked(
        self,
        after: Self,
        reading: Result<u64, ClockError>,
        r: Result<(), ClockError>,
    ) -> bool {
        match reading {
            Ok(now) => {
                &&& r is Ok
                &&& after.advertised_at == Some(now)
                &&& after.slot == self.slot
                &&& after.started_at == self.started_at
                &&& after.worker_pubkey == self.worker_pubkey
            },
            Err(e) => r == Err::<(), ClockError>(e) && after == self,
        }
    }

    /// A container that was started at `now`.
    pub fn new_at(slot: usize, worker_pubkey: String, now: u64) -> (r: Self)
        ensures
            r.is_started(slot, worker_pubkey@, now),
    {
        ContainerState { slot, started_at: now, worker_pubkey, advertised_at: None }
    }

    /// A container that was started when the clock was read.
    pub fn new_by(slot: usize, worker_pubkey: String, reading: Result<u64, ClockError>) -> (r:
        Result<Self, ClockError>)
        ensures
            Self::is_new(r, slot, worker_pubkey@, reading),
    {
        match reading {
            Ok(now) => Ok(ContainerState::new_at(slot, worker_pubkey, now)),
            Err(e) => Err(e),
        }
    }

    /// A container that is started now, by the system clock.
    pub fn new(slot: usize, worker_pubkey: String) -> (r: Result<Self, ClockError>)
        ensures
            exists|since: Option<Duration>|
                Self::is_new(r, slot, worker_pubkey@, #[trigger] clock::seconds_since(since)),
    {
        ContainerState::new_by(slot, worker_pubkey, now_seconds())
    }

    /// How long the container has been running at `now`, in seconds.
    pub fn running_seconds_at(&self, now: u64) -> (r: u64)
        ensures
            r == seconds_between(self.started_at as nat, now as nat),
    {
        if now >= self.started_at {
            now - self.started_at
        } else {
            0
        }
    }

    /// How long the container has been running when the clock was read, in seconds.
    pub fn running_seconds_by(&self, reading: Result<u64, ClockError>) -> (r: Result<
        u64,
        ClockError,
    >)
        ensures
            r == self.seconds_at(reading),
    {
        match reading {
            Ok(now) => Ok(self.running_seconds_at(now)),
            Err(e) => Err(e),
        }
    }

    /// How long the container has been running, in seconds, by the system clock.
    pub fn running_seconds(&self) -> (r: Result<u64, ClockError>)
        ensures
            exists|since: Option<Duration>|
                r == self.seconds_at(#[trigger] clock::seconds_since(since)),
    {
        self.running_seconds_by(now_seconds())
    }

    /// Remembers that the worker was advertised at `now`.
    pub fn mark_advertised_at(&mut self, now: u64)
        ensures
            final(self).advertised_at == Some(now),
            final(self).slot == old(self).slot,
            final(self).started_at == old(self).started_at,
            final(self).worker_pubkey == old(self).worker_pubkey,
    {
        self.advertised_at = Some(now);
    }

    /// Remembers that the worker was advertised when the clock was read.
    pub fn mark_advertised_by(&mut self, reading: Result<u64, ClockError>) -> (r: Result<
        (),
        ClockError,
    >)
        ensures
            old(self).is_marked(*final(self), reading, r),
    {
        match reading {
            Ok(now) => {
                self.mark_advertised_at(now);
                Ok(())
            },
            Err(e) => Err(e),
        }
    }

    /// Remembers that the worker is advertised now, by the system clock.
    pub fn mark_advertised(&mut self) -> (r: Result<(), ClockError>)
        ensures
            exists|since: Option<Duration>|
                old(self).is_marked(*final(self), #[trigger] clock::seconds_since(since), r),
    {
        self.mark_advertised_by(now_seconds())
    }
}

} // verus!
