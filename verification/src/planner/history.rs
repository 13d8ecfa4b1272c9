use vstd::prelude::*;

use crate::clock::Instant;

verus! {

/// What the planner remembers of the lookups for one demand.
#[derive(Clone, Copy, Debug, PartialEq, Eq, Structural)]
pub struct DemandPlannerState {
    pub last_started_at: Option<Instant>,
    pub last_finished_at: Option<Instant>,
    pub last_useful_yield_at: Option<Instant>,
    pub last_unique_peers: usize,
}

impl Default for DemandPlannerState {
    fn default() -> (state: Self)
        ensures
            state == Self::unknown(),
    {
        DemandPlannerState {
            last_started_at: None,
            last_finished_at: None,
            last_useful_yield_at: None,
            last_unique_peers: 0,
        }
    }
}

impl DemandPlannerState {
    /// The memory of a demand that was never looked up.
    pub open spec fn unknown() -> Self {
        DemandPlannerState {
            last_started_at: None,
            last_finished_at: None,
            last_useful_yield_at: None,
            last_unique_peers: 0,
        }
    }

    /// The memory once a lookup has started.
    pub open spec fn started(self, now: Instant) -> Self {
        DemandPlannerState { last_started_at: Some(now), ..self }
    }

    /// The memory once a lookup has finished. Only one that found peers counts as useful.
    pub open spec fn finished(self, now: Instant, unique_peers: usize) -> Self {
        DemandPlannerState {
            last_started_at: self.last_started_at,
            last_finished_at: Some(now),
            last_useful_yield_at: if unique_peers > 0 {
                Some(now)
            } else {
                self.last_useful_yield_at
            },
            last_unique_peers: unique_peers,
        }
    }

    pub fn note_start(&mut self, now: Instant)
        ensures
            *final(self) == old(self).started(now),
    {
        self.last_started_at = Some(now);
    }

    pub fn note_finish(&mut self, now: Instant, unique_peers: usize)
        ensures
            *final(self) == old(self).finished(now, unique_peers),
    {
        self.last_finished_at = Some(now);
        self.last_unique_peers = unique_peers;
        if unique_peers > 0 {
            self.last_useful_yield_at = Some(now);
        }
    }
}

} // verus!
