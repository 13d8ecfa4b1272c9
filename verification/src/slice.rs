use vstd::prelude::*;

use crate::demand::DhtDemandState;
use crate::limits::{
    DHT_AWAITING_METADATA_SLOT_CAP, DHT_AWAITING_METADATA_STALLED_EMPTY_SLICE_RESET_THRESHOLD,
    DHT_AWAITING_METADATA_STALLED_LOW_YIELD_SLICE_MAX_UNIQUE_PEERS, DHT_NO_CONNECTED_PEERS_SLOT_CAP,
    DHT_NO_CONNECTED_PEERS_STALLED_EMPTY_SLICE_RESET_THRESHOLD,
    DHT_NO_CONNECTED_PEERS_STALLED_LOW_YIELD_SLICE_MAX_UNIQUE_PEERS,
    DHT_NO_CONNECTED_PEERS_WEAK_PARKED_MAX_FRONTIER,
    DHT_NO_CONNECTED_PEERS_WEAK_PARKED_MAX_RECEIVED_PEERS,
    DHT_NO_CONNECTED_PEERS_WEAK_PARKED_MAX_RESPONDERS,
    DHT_NO_CONNECTED_PEERS_WEAK_PARKED_MIN_VISITED, DHT_ROUTINE_LOOKUP_SLOT_CAP,
    DHT_ROUTINE_STALLED_EMPTY_SLICE_RESET_THRESHOLD,
    DHT_ROUTINE_STALLED_LOW_YIELD_SLICE_MAX_UNIQUE_PEERS, DHT_ROUTINE_WEAK_PARKED_MAX_FRONTIER,
    DHT_ROUTINE_WEAK_PARKED_MAX_RECEIVED_PEERS, DHT_ROUTINE_WEAK_PARKED_MAX_RESPONDERS,
    DHT_ROUTINE_WEAK_PARKED_MIN_VISITED,
};

verus! {

/// What a lookup is run for. Each class has slots, launch tokens and slice lengths of its own.
#[derive(Clone, Copy, Debug, PartialEq, Eq, Hash, Structural)]
pub enum DemandSliceClass {
    RoutineRefresh,
    NoConnectedPeers,
    AwaitingMetadata,
}

/// Why a slice of a lookup came to its end.
#[derive(Clone, Copy, Debug, PartialEq, Eq, Hash, Structural)]
pub enum DemandSliceStopReason {
    NaturalFinish,
    WallTime,
    IdleTimeout,
    FirstBatch,
    UniquePeerCap,
}

/// How a slice did that was stopped and parked.
#[derive(Clone, Copy, Debug, PartialEq, Eq, Hash, Structural)]
pub enum DemandParkedSliceOutcome {
    UsefulYield,
    WeakLowYield,
    HealthyZeroYield,
    HealthyLowYield,
    Ignored,
}

/// Why a parked crawl is thrown away.
#[derive(Clone, Copy, Debug, PartialEq, Eq, Hash, Structural)]
pub enum DemandCrawlResetReason {
    Stale,
    ClassChanged,
    LowQuality,
}

/// Why a demand was picked for a lookup.
#[derive(Clone, Copy, Debug, PartialEq, Eq, Hash, Structural)]
pub enum DemandSelectionReason {
    ReusableParked,
    SwarmSupport,
    UsefulYieldHistory,
    Fairness,
    OverdueScarce,
    SpareCapacity,
    IdleSpeedProbe,
}

/// The progress that one lookup reports.
#[derive(Clone, Copy, Debug, PartialEq, Eq, Hash, Structural)]
pub struct LookupQualitySnapshot {
    pub frontier_len: usize,
    pub inflight_len: usize,
    pub visited_len: usize,
    pub eligible_responder_count: usize,
    pub received_peer_count: usize,
}

/// The progress of several lookups together.
#[derive(Clone, Copy, Debug, PartialEq, Eq, Hash, Structural)]
pub struct AggregateLookupQualitySnapshot {
    pub frontier_len: usize,
    pub inflight_len: usize,
    pub visited_len: usize,
    pub eligible_responder_count: usize,
    pub received_peer_count: usize,
}

/// The progress of no lookup at all.
pub open spec fn no_quality() -> AggregateLookupQualitySnapshot {
    AggregateLookupQualitySnapshot {
        frontier_len: 0,
        inflight_len: 0,
        visited_len: 0,
        eligible_responder_count: 0,
        received_peer_count: 0,
    }
}

impl Default for AggregateLookupQualitySnapshot {
    fn default() -> (quality: Self)
        ensures
            quality == no_quality(),
    {
        AggregateLookupQualitySnapshot {
            frontier_len: 0,
            inflight_len: 0,
            visited_len: 0,
            eligible_responder_count: 0,
            received_peer_count: 0,
        }
    }
}

impl AggregateLookupQualitySnapshot {
    /// The sum with one more lookup, each count cut off at the largest `usize`.
    pub open spec fn plus(self, snapshot: LookupQualitySnapshot) -> Self {
        AggregateLookupQualitySnapshot {
            frontier_len: self.frontier_len.saturating_add(snapshot.frontier_len),
            inflight_len: self.inflight_len.saturating_add(snapshot.inflight_len),
            visited_len: self.visited_len.saturating_add(snapshot.visited_len),
            eligible_responder_count: self.eligible_responder_count.saturating_add(
                snapshot.eligible_responder_count,
            ),
            received_peer_count: self.received_peer_count.saturating_add(
                snapshot.received_peer_count,
            ),
        }
    }

    /// Takes one more lookup into the sum.
    pub fn extend(&mut self, snapshot: LookupQualitySnapshot)
        ensures
            *final(self) == old(self).plus(snapshot),
    {
        self.frontier_len = self.frontier_len.saturating_add(snapshot.frontier_len);
        self.inflight_len = self.inflight_len.saturating_add(snapshot.inflight_len);
        self.visited_len = self.visited_len.saturating_add(snapshot.visited_len);
        self.eligible_responder_count =
            self.eligible_responder_count.saturating_add(snapshot.eligible_responder_count);
        self.received_peer_count =
            self.received_peer_count.saturating_add(snapshot.received_peer_count);
    }
}

/// The class of a demand: waiting for metadata comes before having no peers.
pub open spec fn class_of(demand: DhtDemandState) -> DemandSliceClass {
    if demand.awaiting_metadata {
        DemandSliceClass::AwaitingMetadata
    } else if demand.connected_peers == 0 {
        DemandSliceClass::NoConnectedPeers
    } else {
        DemandSliceClass::RoutineRefresh
    }
}

impl DemandSliceClass {
    /// The number of weak or of empty slices in a row at which a crawl is thrown away.
    pub open spec fn reset_threshold(self) -> u32 {
        match self {
            DemandSliceClass::AwaitingMetadata =>
                DHT_AWAITING_METADATA_STALLED_EMPTY_SLICE_RESET_THRESHOLD,
            DemandSliceClass::NoConnectedPeers =>
                DHT_NO_CONNECTED_PEERS_STALLED_EMPTY_SLICE_RESET_THRESHOLD,
            DemandSliceClass::RoutineRefresh => DHT_ROUTINE_STALLED_EMPTY_SLICE_RESET_THRESHOLD,
        }
    }

    /// The unique peers up to which a stalled slice counts as low yield.
    pub open spec fn low_yield_limit(self) -> usize {
        match self {
            DemandSliceClass::AwaitingMetadata =>
                DHT_AWAITING_METADATA_STALLED_LOW_YIELD_SLICE_MAX_UNIQUE_PEERS,
            DemandSliceClass::NoConnectedPeers =>
                DHT_NO_CONNECTED_PEERS_STALLED_LOW_YIELD_SLICE_MAX_UNIQUE_PEERS,
            DemandSliceClass::RoutineRefresh =>
                DHT_ROUTINE_STALLED_LOW_YIELD_SLICE_MAX_UNIQUE_PEERS,
        }
    }

    /// The most lookups of the class that run at once.
    pub open spec fn slot_cap(self) -> usize {
        match self {
            DemandSliceClass::AwaitingMetadata => DHT_AWAITING_METADATA_SLOT_CAP,
            DemandSliceClass::NoConnectedPeers => DHT_NO_CONNECTED_PEERS_SLOT_CAP,
            DemandSliceClass::RoutineRefresh => DHT_ROUTINE_LOOKUP_SLOT_CAP,
        }
    }

    /// The urgency of the class.
    pub open spec fn priority(self) -> u8 {
        match self {
            DemandSliceClass::AwaitingMetadata => 3,
            DemandSliceClass::NoConnectedPeers => 2,
            DemandSliceClass::RoutineRefresh => 1,
        }
    }

    /// How a slice did that was stopped for `stop_reason` with `unique_peers` found. Only a slice
    /// that ran out of time is told apart by its yield and by what it left behind.
    pub open spec fn outcome(
        self,
        stop_reason: DemandSliceStopReason,
        unique_peers: nat,
        weak: bool,
    ) -> DemandParkedSliceOutcome {
        if stop_reason != DemandSliceStopReason::WallTime && stop_reason
            != DemandSliceStopReason::IdleTimeout {
            if unique_peers > 0 {
                DemandParkedSliceOutcome::UsefulYield
            } else {
                DemandParkedSliceOutcome::Ignored
            }
        } else if unique_peers > self.low_yield_limit() {
            DemandParkedSliceOutcome::UsefulYield
        } else if weak {
            DemandParkedSliceOutcome::WeakLowYield
        } else if unique_peers == 0 {
            DemandParkedSliceOutcome::HealthyZeroYield
        } else {
            DemandParkedSliceOutcome::HealthyLowYield
        }
    }

    /// Whether a parked crawl has visited much and holds little: few responders, a short
    /// frontier and few peers received. A crawl for metadata is never weak.
    pub open spec fn is_weak(self, quality: AggregateLookupQualitySnapshot) -> bool {
        match self {
            DemandSliceClass::AwaitingMetadata => false,
            DemandSliceClass::NoConnectedPeers => {
                &&& quality.visited_len >= DHT_NO_CONNECTED_PEERS_WEAK_PARKED_MIN_VISITED
                &&& quality.eligible_responder_count
                    <= DHT_NO_CONNECTED_PEERS_WEAK_PARKED_MAX_RESPONDERS
                &&& quality.frontier_len <= DHT_NO_CONNECTED_PEERS_WEAK_PARKED_MAX_FRONTIER
                &&& quality.received_peer_count
                    <= DHT_NO_CONNECTED_PEERS_WEAK_PARKED_MAX_RECEIVED_PEERS
            },
            DemandSliceClass::RoutineRefresh => {
                &&& quality.visited_len >= DHT_ROUTINE_WEAK_PARKED_MIN_VISITED
                &&& quality.eligible_responder_count <= DHT_ROUTINE_WEAK_PARKED_MAX_RESPONDERS
                &&& quality.frontier_len <= DHT_ROUTINE_WEAK_PARKED_MAX_FRONTIER
                &&& quality.received_peer_count <= DHT_ROUTINE_WEAK_PARKED_MAX_RECEIVED_PEERS
            },
        }
    }

    pub fn from_demand(demand: DhtDemandState) -> (class: Self)
        ensures
            class == class_of(demand),
    {
        if demand.is_awaiting_metadata() {
            DemandSliceClass::AwaitingMetadata
        } else if demand.has_no_connected_peers() {
            DemandSliceClass::NoConnectedPeers
        } else {
            DemandSliceClass::RoutineRefresh
        }
    }

    pub fn stalled_empty_slice_reset_threshold(self) -> (threshold: u32)
        ensures
            threshold == self.reset_threshold(),
    {
        match self {
            DemandSliceClass::AwaitingMetadata =>
                DHT_AWAITING_METADATA_STALLED_EMPTY_SLICE_RESET_THRESHOLD,
            DemandSliceClass::NoConnectedPeers =>
                DHT_NO_CONNECTED_PEERS_STALLED_EMPTY_SLICE_RESET_THRESHOLD,
            DemandSliceClass::RoutineRefresh => DHT_ROUTINE_STALLED_EMPTY_SLICE_RESET_THRESHOLD,
        }
    }

    pub fn stalled_low_yield_slice_max_unique_peers(self) -> (limit: usize)
        ensures
            limit == self.low_yield_limit(),
    {
        match self {
            DemandSliceClass::AwaitingMetadata =>
                DHT_AWAITING_METADATA_STALLED_LOW_YIELD_SLICE_MAX_UNIQUE_PEERS,
            DemandSliceClass::NoConnectedPeers =>
                DHT_NO_CONNECTED_PEERS_STALLED_LOW_YIELD_SLICE_MAX_UNIQUE_PEERS,
            DemandSliceClass::RoutineRefresh =>
                DHT_ROUTINE_STALLED_LOW_YIELD_SLICE_MAX_UNIQUE_PEERS,
        }
    }

    pub fn parked_slice_outcome(
        self,
        stop_reason: DemandSliceStopReason,
        unique_peers: usize,
        weak_parked_state: bool,
    ) -> (outcome: DemandParkedSliceOutcome)
        ensures
            outcome == self.outcome(stop_reason, unique_peers as nat, weak_parked_state),
    {
        if !matches!(
            stop_reason,
            DemandSliceStopReason::WallTime | DemandSliceStopReason::IdleTimeout
        ) {
            return if unique_peers > 0 {
                DemandParkedSliceOutcome::UsefulYield
            } else {
                DemandParkedSliceOutcome::Ignored
            };
        }
        if unique_peers > self.stalled_low_yield_slice_max_unique_peers() {
            DemandParkedSliceOutcome::UsefulYield
        } else if weak_parked_state {
            DemandParkedSliceOutcome::WeakLowYield
        } else if unique_peers == 0 {
            DemandParkedSliceOutcome::HealthyZeroYield
        } else {
            DemandParkedSliceOutcome::HealthyLowYield
        }
    }

    pub fn parked_quality_is_weak(self, snapshot: AggregateLookupQualitySnapshot) -> (weak: bool)
        ensures
            weak == self.is_weak(snapshot),
    {
        match self {
            DemandSliceClass::AwaitingMetadata => false,
            DemandSliceClass::NoConnectedPeers => {
                snapshot.visited_len >= DHT_NO_CONNECTED_PEERS_WEAK_PARKED_MIN_VISITED
                    && snapshot.eligible_responder_count
                    <= DHT_NO_CONNECTED_PEERS_WEAK_PARKED_MAX_RESPONDERS && snapshot.frontier_len
                    <= DHT_NO_CONNECTED_PEERS_WEAK_PARKED_MAX_FRONTIER
                    && snapshot.received_peer_count
                    <= DHT_NO_CONNECTED_PEERS_WEAK_PARKED_MAX_RECEIVED_PEERS
            },
            DemandSliceClass::RoutineRefresh => {
                snapshot.visited_len >= DHT_ROUTINE_WEAK_PARKED_MIN_VISITED
                    && snapshot.eligible_responder_count <= DHT_ROUTINE_WEAK_PARKED_MAX_RESPONDERS
                    && snapshot.frontier_len <= DHT_ROUTINE_WEAK_PARKED_MAX_FRONTIER
                    && snapshot.received_peer_count <= DHT_ROUTINE_WEAK_PARKED_MAX_RECEIVED_PEERS
            },
        }
    }
}

pub fn demand_lookup_class_slot_cap(class: DemandSliceClass) -> (cap: usize)
    ensures
        cap == class.slot_cap(),
{
    match class {
        DemandSliceClass::AwaitingMetadata => DHT_AWAITING_METADATA_SLOT_CAP,
        DemandSliceClass::NoConnectedPeers => DHT_NO_CONNECTED_PEERS_SLOT_CAP,
        DemandSliceClass::RoutineRefresh => DHT_ROUTINE_LOOKUP_SLOT_CAP,
    }
}

pub fn demand_slice_class_priority(class: DemandSliceClass) -> (priority: u8)
    ensures
        priority == class.priority(),
{
    match class {
        DemandSliceClass::AwaitingMetadata => 3,
        DemandSliceClass::NoConnectedPeers => 2,
        DemandSliceClass::RoutineRefresh => 1,
    }
}

} // verus!
