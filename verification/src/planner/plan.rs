use vstd::prelude::*;

use crate::clock::{elapsed, multiplied, multiply_duration, Duration, Instant};
use crate::demand::{no_metrics, DhtDemandMetrics, DhtDemandState};
use crate::ids::InfoHash;
use crate::limits::{
    DHT_AWAITING_METADATA_SLICE_IDLE_TIMEOUT, DHT_AWAITING_METADATA_SLICE_UNIQUE_PEER_CAP,
    DHT_AWAITING_METADATA_SLICE_WALL_TIME, DHT_DEMAND_STRONG_YIELD_BOOST_MAX_AGE,
    DHT_DEMAND_STRONG_YIELD_BOOST_MIN_UNIQUE_PEERS, DHT_DEMAND_USEFUL_YIELD_BOOST_MAX_AGE,
    DHT_NO_CONNECTED_PEERS_SLICE_IDLE_TIMEOUT, DHT_NO_CONNECTED_PEERS_SLICE_UNIQUE_PEER_CAP,
    DHT_NO_CONNECTED_PEERS_SLICE_WALL_TIME, DHT_ROUTINE_SLICE_IDLE_TIMEOUT,
    DHT_ROUTINE_SLICE_UNIQUE_PEER_CAP, DHT_ROUTINE_SLICE_WALL_TIME,
    DHT_ROUTINE_SUPPORT_SLICE_IDLE_TIMEOUT, DHT_ROUTINE_SUPPORT_SLICE_UNIQUE_PEER_CAP,
    DHT_ROUTINE_SUPPORT_SLICE_WALL_TIME,
};
use crate::planner::history::DemandPlannerState;
use crate::planner::probe::DemandPlannerIdleSpeedProbeStatus;
use crate::scheduler::DueDemandCandidate;
use crate::slice::{class_of, DemandSelectionReason, DemandSliceClass};
use crate::table::InfoHashMap;

verus! {

/// How long one slice of a lookup runs and when it stops.
#[derive(Clone, Copy, Debug, PartialEq, Eq, Structural)]
pub struct DemandLookupPlan {
    pub class: DemandSliceClass,
    pub idle_timeout: Duration,
    pub max_wall_time: Duration,
    pub stop_after_first_batch: bool,
    pub unique_peer_cap: usize,
    pub power_multiplier: u8,
}

/// The plan at normal strength. A routine lookup stops after its first batch of peers, unless the
/// torrent's swarm needs support.
pub open spec fn base_plan(demand: DhtDemandState, metrics: DhtDemandMetrics) -> DemandLookupPlan {
    match class_of(demand) {
        DemandSliceClass::AwaitingMetadata => DemandLookupPlan {
            class: DemandSliceClass::AwaitingMetadata,
            idle_timeout: DHT_AWAITING_METADATA_SLICE_IDLE_TIMEOUT,
            max_wall_time: DHT_AWAITING_METADATA_SLICE_WALL_TIME,
            stop_after_first_batch: false,
            unique_peer_cap: DHT_AWAITING_METADATA_SLICE_UNIQUE_PEER_CAP,
            power_multiplier: 1,
        },
        DemandSliceClass::NoConnectedPeers => DemandLookupPlan {
            class: DemandSliceClass::NoConnectedPeers,
            idle_timeout: DHT_NO_CONNECTED_PEERS_SLICE_IDLE_TIMEOUT,
            max_wall_time: DHT_NO_CONNECTED_PEERS_SLICE_WALL_TIME,
            stop_after_first_batch: false,
            unique_peer_cap: DHT_NO_CONNECTED_PEERS_SLICE_UNIQUE_PEER_CAP,
            power_multiplier: 1,
        },
        DemandSliceClass::RoutineRefresh => if metrics.needs_swarm_support() {
            DemandLookupPlan {
                class: DemandSliceClass::RoutineRefresh,
                idle_timeout: DHT_ROUTINE_SUPPORT_SLICE_IDLE_TIMEOUT,
                max_wall_time: DHT_ROUTINE_SUPPORT_SLICE_WALL_TIME,
                stop_after_first_batch: false,
                unique_peer_cap: DHT_ROUTINE_SUPPORT_SLICE_UNIQUE_PEER_CAP,
                power_multiplier: 1,
            }
        } else {
            DemandLookupPlan {
                class: DemandSliceClass::RoutineRefresh,
                idle_timeout: DHT_ROUTINE_SLICE_IDLE_TIMEOUT,
                max_wall_time: DHT_ROUTINE_SLICE_WALL_TIME,
                stop_after_first_batch: true,
                unique_peer_cap: DHT_ROUTINE_SLICE_UNIQUE_PEER_CAP,
                power_multiplier: 1,
            }
        },
    }
}

/// `count` times `multiplier`, cut off at the largest `usize`.
pub open spec fn multiplied_count(count: usize, multiplier: nat) -> usize {
    if count * multiplier > usize::MAX {
        usize::MAX
    } else {
        (count * multiplier) as usize
    }
}

/// A stronger plan runs longer and stops at more peers.
pub open spec fn strengthened(plan: DemandLookupPlan, multiplier: u8) -> DemandLookupPlan {
    if multiplier > 1 {
        DemandLookupPlan {
            power_multiplier: multiplier,
            max_wall_time: multiplied(plan.max_wall_time, multiplier as nat),
            unique_peer_cap: multiplied_count(plan.unique_peer_cap, multiplier as nat),
            ..plan
        }
    } else {
        DemandLookupPlan { power_multiplier: 1, ..plan }
    }
}

/// The larger of two strengths.
pub open spec fn stronger(left: u8, right: u8) -> u8 {
    if left > right {
        left
    } else {
        right
    }
}

/// The strength that a yield calls for: recent and large, recent, or too old to matter.
pub open spec fn yield_multiplier(history: Option<DemandPlannerState>, now: Instant) -> u8 {
    match history {
        Some(state) => match state.last_useful_yield_at {
            Some(at) => {
                let age = elapsed(now, at);
                if age > DHT_DEMAND_USEFUL_YIELD_BOOST_MAX_AGE || state.last_unique_peers == 0 {
                    1
                } else if age <= DHT_DEMAND_STRONG_YIELD_BOOST_MAX_AGE && state.last_unique_peers
                    >= DHT_DEMAND_STRONG_YIELD_BOOST_MIN_UNIQUE_PEERS {
                    3
                } else {
                    2
                }
            },
            None => 1,
        },
        None => 1,
    }
}

/// The strength that the idle probe calls for.
pub open spec fn probe_multiplier(
    candidate: DueDemandCandidate,
    idle_probe: DemandPlannerIdleSpeedProbeStatus,
) -> u8 {
    if idle_probe.active && candidate.metrics.probes_when_idle(candidate.demand) {
        idle_probe.multiplier
    } else {
        1
    }
}

/// The strength of the lookup for a candidate: doubled for metadata and for a swarm that needs
/// support, by its yield where that is why it was picked, and never below what the probe calls for.
pub open spec fn power_multiplier(
    candidate: DueDemandCandidate,
    history: Option<DemandPlannerState>,
    selection_reason: DemandSelectionReason,
    idle_probe: DemandPlannerIdleSpeedProbeStatus,
    now: Instant,
) -> u8 {
    let probe = probe_multiplier(candidate, idle_probe);
    match class_of(candidate.demand) {
        DemandSliceClass::AwaitingMetadata => stronger(2, probe),
        _ => if class_of(candidate.demand) == DemandSliceClass::RoutineRefresh
            && candidate.metrics.needs_swarm_support() {
            stronger(2, probe)
        } else if selection_reason != DemandSelectionReason::UsefulYieldHistory || yield_multiplier(
            history,
            now,
        ) == 1 {
            probe
        } else {
            stronger(yield_multiplier(history, now), probe)
        },
    }
}

/// What is remembered under a key, if anything is.
pub open spec fn known<V>(map: Map<InfoHash, V>, info_hash: InfoHash) -> Option<V> {
    if map.contains_key(info_hash) {
        Some(map[info_hash])
    } else {
        None
    }
}

/// The plan for a candidate.
pub open spec fn candidate_plan(
    candidate: DueDemandCandidate,
    planner_state: Map<InfoHash, DemandPlannerState>,
    selection_reason: DemandSelectionReason,
    idle_probe: DemandPlannerIdleSpeedProbeStatus,
    now: Instant,
) -> DemandLookupPlan {
    strengthened(
        base_plan(candidate.demand, candidate.metrics),
        power_multiplier(
            candidate,
            known(planner_state, candidate.info_hash),
            selection_reason,
            idle_probe,
            now,
        ),
    )
}

impl DemandLookupPlan {
    pub fn for_demand(demand: DhtDemandState) -> (plan: Self)
        ensures
            plan == base_plan(demand, no_metrics()),
    {
        Self::for_demand_with_metrics(demand, DhtDemandMetrics::default())
    }

    pub fn for_demand_with_metrics(demand: DhtDemandState, metrics: DhtDemandMetrics) -> (plan:
        Self)
        ensures
            plan == base_plan(demand, metrics),
    {
        match DemandSliceClass::from_demand(demand) {
            DemandSliceClass::AwaitingMetadata => DemandLookupPlan {
                class: DemandSliceClass::AwaitingMetadata,
                idle_timeout: DHT_AWAITING_METADATA_SLICE_IDLE_TIMEOUT,
                max_wall_time: DHT_AWAITING_METADATA_SLICE_WALL_TIME,
                stop_after_first_batch: false,
                unique_peer_cap: DHT_AWAITING_METADATA_SLICE_UNIQUE_PEER_CAP,
                power_multiplier: 1,
            },
            DemandSliceClass::NoConnectedPeers => DemandLookupPlan {
                class: DemandSliceClass::NoConnectedPeers,
                idle_timeout: DHT_NO_CONNECTED_PEERS_SLICE_IDLE_TIMEOUT,
                max_wall_time: DHT_NO_CONNECTED_PEERS_SLICE_WALL_TIME,
                stop_after_first_batch: false,
                unique_peer_cap: DHT_NO_CONNECTED_PEERS_SLICE_UNIQUE_PEER_CAP,
                power_multiplier: 1,
            },
            DemandSliceClass::RoutineRefresh => {
                if metrics.wants_extended_routine_search() {
                    DemandLookupPlan {
                        class: DemandSliceClass::RoutineRefresh,
                        idle_timeout: DHT_ROUTINE_SUPPORT_SLICE_IDLE_TIMEOUT,
                        max_wall_time: DHT_ROUTINE_SUPPORT_SLICE_WALL_TIME,
                        stop_after_first_batch: false,
                        unique_peer_cap: DHT_ROUTINE_SUPPORT_SLICE_UNIQUE_PEER_CAP,
                        power_multiplier: 1,
                    }
                } else {
                    DemandLookupPlan {
                        class: DemandSliceClass::RoutineRefresh,
                        idle_timeout: DHT_ROUTINE_SLICE_IDLE_TIMEOUT,
                        max_wall_time: DHT_ROUTINE_SLICE_WALL_TIME,
                        stop_after_first_batch: true,
                        unique_peer_cap: DHT_ROUTINE_SLICE_UNIQUE_PEER_CAP,
                        power_multiplier: 1,
                    }
                }
            },
        }
    }

    pub fn for_candidate(
        candidate: DueDemandCandidate,
        planner_state: &InfoHashMap<DemandPlannerState>,
        selection_reason: DemandSelectionReason,
        idle_probe: DemandPlannerIdleSpeedProbeStatus,
        now: Instant,
    ) -> (plan: Self)
        ensures
            plan == candidate_plan(candidate, planner_state@, selection_reason, idle_probe, now),
    {
        let multiplier = demand_lookup_power_multiplier(
            candidate,
            planner_state,
            selection_reason,
            idle_probe,
            now,
        );
        Self::for_demand_with_metrics(candidate.demand, candidate.metrics).with_power_multiplier(
            multiplier,
        )
    }

    pub fn with_power_multiplier(self, multiplier: u8) -> (plan: Self)
        ensures
            plan == strengthened(self, multiplier),
    {
        let mut plan = self;
        if multiplier > 1 {
            plan.power_multiplier = multiplier;
            plan.max_wall_time = multiply_duration(plan.max_wall_time, multiplier as u32);
            plan.unique_peer_cap =
                match plan.unique_peer_cap.checked_mul(multiplier as usize) {
                    Some(unique_peer_cap) => unique_peer_cap,
                    None => usize::MAX,
                };
        } else {
            plan.power_multiplier = 1;
        }
        plan
    }
}

/// The larger of two strengths.
fn larger(left: u8, right: u8) -> (larger: u8)
    ensures
        larger == stronger(left, right),
{
    if left > right {
        left
    } else {
        right
    }
}

pub fn demand_lookup_power_multiplier(
    candidate: DueDemandCandidate,
    planner_state: &InfoHashMap<DemandPlannerState>,
    selection_reason: DemandSelectionReason,
    idle_probe: DemandPlannerIdleSpeedProbeStatus,
    now: Instant,
) -> (multiplier: u8)
    ensures
        multiplier == power_multiplier(
            candidate,
            known(planner_state@, candidate.info_hash),
            selection_reason,
            idle_probe,
            now,
        ),
{
    let class = DemandSliceClass::from_demand(candidate.demand);
    let idle_probe_multiplier: u8 = if idle_probe.active
        && candidate.metrics.wants_idle_speed_probe_for(candidate.demand) {
        idle_probe.multiplier
    } else {
        1
    };

    if class == DemandSliceClass::AwaitingMetadata {
        return larger(2, idle_probe_multiplier);
    }
    if class == DemandSliceClass::RoutineRefresh
        && candidate.metrics.wants_extended_routine_search() {
        return larger(2, idle_probe_multiplier);
    }
    if selection_reason != DemandSelectionReason::UsefulYieldHistory {
        return idle_probe_multiplier;
    }
    let state = match planner_state.get(&candidate.info_hash) {
        Some(state) => *state,
        None => return idle_probe_multiplier,
    };
    let last_yield_at: Instant = match state.last_useful_yield_at {
        Some(last_yield_at) => last_yield_at,
        None => return idle_probe_multiplier,
    };
    let age: Duration = now.saturating_sub(last_yield_at);
    if age > DHT_DEMAND_USEFUL_YIELD_BOOST_MAX_AGE || state.last_unique_peers == 0 {
        return idle_probe_multiplier;
    }
    let yield_multiplier: u8 = if age <= DHT_DEMAND_STRONG_YIELD_BOOST_MAX_AGE
        && state.last_unique_peers >= DHT_DEMAND_STRONG_YIELD_BOOST_MIN_UNIQUE_PEERS {
        3
    } else {
        2
    };
    larger(yield_multiplier, idle_probe_multiplier)
}

} // verus!
