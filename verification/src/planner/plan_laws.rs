use vstd::prelude::*;

use crate::clock::{Instant, SECOND};
use crate::demand::{DhtDemandMetrics, DhtDemandState};
use crate::ids::InfoHash;
use crate::planner::history::DemandPlannerState;
use crate::planner::order_laws::{last_peers, last_yield_at, needs_support};
use crate::planner::plan::{base_plan, candidate_plan, strengthened, DemandLookupPlan};
use crate::planner::probe::{
    demand_total, DemandPlannerIdleSpeedProbe, DemandPlannerIdleSpeedProbeStatus,
};
use crate::scheduler::{DemandEntrySnapshot, DueDemandCandidate};
use crate::slice::{DemandSelectionReason, DemandSliceClass};

verus! {

// The plan at normal strength.

/// The plan at normal strength goes by the kind of demand alone: metadata is searched for 20 seconds
/// or 6 without peers, a torrent without peers for 12 or 4, and any other for 6 or 2 and until the
/// first batch, unless its swarm needs support: then for 10 or 4 and beyond the first batch.
pub proof fn normal_strength_goes_by_demand(demand: DhtDemandState, metrics: DhtDemandMetrics)
    ensures
        ({
            let plan = base_plan(demand, metrics);
            let peerless = !demand.awaiting_metadata && demand.connected_peers == 0;
            let routine = !demand.awaiting_metadata && demand.connected_peers > 0;
            &&& plan.power_multiplier == 1
            &&& plan.stop_after_first_batch == (routine && !needs_support(metrics))
            &&& demand.awaiting_metadata ==> {
                &&& plan.class == DemandSliceClass::AwaitingMetadata
                &&& plan.max_wall_time == 20 * SECOND && plan.idle_timeout == 6 * SECOND
                &&& plan.unique_peer_cap == 128
            }
            &&& peerless ==> {
                &&& plan.class == DemandSliceClass::NoConnectedPeers
                &&& plan.max_wall_time == 12 * SECOND && plan.idle_timeout == 4 * SECOND
                &&& plan.unique_peer_cap == 48
            }
            &&& routine && needs_support(metrics) ==> {
                &&& plan.class == DemandSliceClass::RoutineRefresh
                &&& plan.max_wall_time == 10 * SECOND && plan.idle_timeout == 4 * SECOND
                &&& plan.unique_peer_cap == 48
            }
            &&& routine && !needs_support(metrics) ==> {
                &&& plan.class == DemandSliceClass::RoutineRefresh
                &&& plan.max_wall_time == 6 * SECOND && plan.idle_timeout == 2 * SECOND
                &&& plan.unique_peer_cap == 16
            }
        }),
{
}

// Stronger plans.

/// A lookup that is `n` times as strong may run `n` times as long and find `n` times as many peers.
/// How long it waits for peers, and whether it stops after the first batch, does not depend on its
/// strength.
pub proof fn strength_scales_time_and_peers(
    candidate: DueDemandCandidate,
    planner_state: Map<InfoHash, DemandPlannerState>,
    reason: DemandSelectionReason,
    probe: DemandPlannerIdleSpeedProbeStatus,
    now: Instant,
)
    ensures
        ({
            let plan = candidate_plan(candidate, planner_state, reason, probe, now);
            let normal = base_plan(candidate.demand, candidate.metrics);
            &&& plan.power_multiplier >= 1
            &&& plan.max_wall_time == normal.max_wall_time * plan.power_multiplier
            &&& plan.unique_peer_cap == normal.unique_peer_cap * plan.power_multiplier
            &&& plan.idle_timeout == normal.idle_timeout
            &&& plan.stop_after_first_batch == normal.stop_after_first_batch
            &&& plan.class == normal.class
        }),
{
    let plan = candidate_plan(candidate, planner_state, reason, probe, now);
    let normal = base_plan(candidate.demand, candidate.metrics);
    let n = plan.power_multiplier;
    assert(normal.max_wall_time <= 20 * SECOND && normal.unique_peer_cap <= 128);
    assert(normal.max_wall_time * n <= 20 * SECOND * 255 && normal.unique_peer_cap * n <= 128
        * 255) by (nonlinear_arith)
        requires
            normal.max_wall_time <= 20 * SECOND,
            normal.unique_peer_cap <= 128,
            n <= 255,
    ;
    assert(normal.max_wall_time * 1 == normal.max_wall_time);
    assert(normal.unique_peer_cap * 1 == normal.unique_peer_cap);
}

/// Any plan that is made `n` times as strong runs `n` times as long and stops at `n` times as many
/// peers, each cut off at the largest number, waits as long for peers as before, and keeps its kind.
pub proof fn strengthening_scales_any_plan(plan: DemandLookupPlan, n: u8)
    ensures
        ({
            let after = strengthened(plan, n);
            let times: int = if n > 1 {
                n as int
            } else {
                1
            };
            &&& after.power_multiplier == times
            &&& plan.max_wall_time * times <= u64::MAX ==> after.max_wall_time
                == plan.max_wall_time * times
            &&& plan.max_wall_time * times > u64::MAX ==> after.max_wall_time == u64::MAX
            &&& plan.unique_peer_cap * times <= usize::MAX ==> after.unique_peer_cap
                == plan.unique_peer_cap * times
            &&& plan.unique_peer_cap * times > usize::MAX ==> after.unique_peer_cap == usize::MAX
            &&& after.idle_timeout == plan.idle_timeout
            &&& after.stop_after_first_batch == plan.stop_after_first_batch
            &&& after.class == plan.class
        }),
{
    assert(plan.max_wall_time * 1 == plan.max_wall_time);
    assert(plan.unique_peer_cap * 1 == plan.unique_peer_cap);
}

/// The time a lookup may run, in terms of the demand and the strength alone.
pub proof fn wall_time_goes_by_demand_and_strength(
    candidate: DueDemandCandidate,
    planner_state: Map<InfoHash, DemandPlannerState>,
    reason: DemandSelectionReason,
    probe: DemandPlannerIdleSpeedProbeStatus,
    now: Instant,
)
    ensures
        ({
            let plan = candidate_plan(candidate, planner_state, reason, probe, now);
            let demand = candidate.demand;
            let (wall, idle): (int, int) = if demand.awaiting_metadata {
                (20, 6)
            } else if demand.connected_peers == 0 {
                (12, 4)
            } else if needs_support(candidate.metrics) {
                (10, 4)
            } else {
                (6, 2)
            };
            &&& plan.max_wall_time == wall * SECOND * plan.power_multiplier
            &&& plan.idle_timeout == idle * SECOND
        }),
{
    strength_scales_time_and_peers(candidate, planner_state, reason, probe, now);
    normal_strength_goes_by_demand(candidate.demand, candidate.metrics);
}

/// Of two plans for the same demand, the stronger one runs longer and stops at more peers, and both
/// wait equally long for peers.
pub proof fn stronger_plans_run_longer(
    candidate: DueDemandCandidate,
    planner_state: Map<InfoHash, DemandPlannerState>,
    weaker_reason: DemandSelectionReason,
    weaker_probe: DemandPlannerIdleSpeedProbeStatus,
    weaker_at: Instant,
    stronger_reason: DemandSelectionReason,
    stronger_probe: DemandPlannerIdleSpeedProbeStatus,
    stronger_at: Instant,
)
    requires
        candidate_plan(candidate, planner_state, weaker_reason, weaker_probe, weaker_at).power_multiplier
            < candidate_plan(
            candidate,
            planner_state,
            stronger_reason,
            stronger_probe,
            stronger_at,
        ).power_multiplier,
    ensures
        ({
            let weaker = candidate_plan(
                candidate,
                planner_state,
                weaker_reason,
                weaker_probe,
                weaker_at,
            );
            let stronger = candidate_plan(
                candidate,
                planner_state,
                stronger_reason,
                stronger_probe,
                stronger_at,
            );
            &&& weaker.max_wall_time < stronger.max_wall_time
            &&& weaker.unique_peer_cap < stronger.unique_peer_cap
            &&& weaker.idle_timeout == stronger.idle_timeout
        }),
{
    let weaker = candidate_plan(candidate, planner_state, weaker_reason, weaker_probe, weaker_at);
    let stronger = candidate_plan(
        candidate,
        planner_state,
        stronger_reason,
        stronger_probe,
        stronger_at,
    );
    let normal = base_plan(candidate.demand, candidate.metrics);
    strength_scales_time_and_peers(
        candidate,
        planner_state,
        weaker_reason,
        weaker_probe,
        weaker_at,
    );
    strength_scales_time_and_peers(
        candidate,
        planner_state,
        stronger_reason,
        stronger_probe,
        stronger_at,
    );
    let (a, b) = (weaker.power_multiplier, stronger.power_multiplier);
    let (wall, cap) = (normal.max_wall_time, normal.unique_peer_cap);
    assert(wall * a < wall * b && cap * a < cap * b) by (nonlinear_arith)
        requires
            a < b,
            wall > 0,
            cap > 0,
    ;
}

// How strong a lookup is.

/// Whether the idle probe speaks for a candidate: it is active, and the torrent takes peers and
/// waits for metadata, has no connected peers, or has a swarm that needs support.
pub open spec fn probe_speaks_for(
    candidate: DueDemandCandidate,
    probe: DemandPlannerIdleSpeedProbeStatus,
) -> bool {
    &&& probe.active
    &&& candidate.metrics.accepting_new_peers && !candidate.metrics.paused
    &&& candidate.demand.awaiting_metadata || candidate.demand.connected_peers == 0
        || needs_support(candidate.metrics)
}

/// Metadata and swarms that need support are searched for at least twice as strongly, and no other
/// lookup is for these reasons.
pub proof fn urgent_lookups_are_doubled(
    candidate: DueDemandCandidate,
    planner_state: Map<InfoHash, DemandPlannerState>,
    reason: DemandSelectionReason,
    probe: DemandPlannerIdleSpeedProbeStatus,
    now: Instant,
)
    ensures
        ({
            let strength = candidate_plan(
                candidate,
                planner_state,
                reason,
                probe,
                now,
            ).power_multiplier;
            let urgent = candidate.demand.awaiting_metadata || candidate.demand.connected_peers > 0
                && needs_support(candidate.metrics);
            &&& urgent ==> strength >= 2
            &&& urgent && !probe_speaks_for(candidate, probe) ==> strength == 2
            &&& !urgent && !probe_speaks_for(candidate, probe) && reason
                != DemandSelectionReason::UsefulYieldHistory ==> strength == 1
        }),
{
}

/// A lookup is never weaker than the probe asks for, and only stronger for other reasons.
pub proof fn probes_never_weaken(
    candidate: DueDemandCandidate,
    planner_state: Map<InfoHash, DemandPlannerState>,
    reason: DemandSelectionReason,
    probe: DemandPlannerIdleSpeedProbeStatus,
    now: Instant,
)
    ensures
        ({
            let strength = candidate_plan(
                candidate,
                planner_state,
                reason,
                probe,
                now,
            ).power_multiplier;
            let without = candidate_plan(
                candidate,
                planner_state,
                reason,
                DemandPlannerIdleSpeedProbeStatus { active: false, ..probe },
                now,
            ).power_multiplier;
            strength == if probe_speaks_for(candidate, probe) && probe.multiplier > without {
                probe.multiplier
            } else {
                without
            }
        }),
{
}

/// A lookup that is picked for its yields, with no more urgent reason and no probe, is three times as
/// strong where the last yield is at most a minute old and brought at least 16 peers, otherwise twice
/// as strong where it is at most five minutes old, and else as strong as any.
pub proof fn yields_strengthen_while_recent(
    candidate: DueDemandCandidate,
    planner_state: Map<InfoHash, DemandPlannerState>,
    probe: DemandPlannerIdleSpeedProbeStatus,
    now: Instant,
)
    requires
        !candidate.demand.awaiting_metadata,
        candidate.demand.connected_peers == 0 || !needs_support(candidate.metrics),
        !probe_speaks_for(candidate, probe),
    ensures
        ({
            let strength = candidate_plan(
                candidate,
                planner_state,
                DemandSelectionReason::UsefulYieldHistory,
                probe,
                now,
            ).power_multiplier;
            let at = last_yield_at(planner_state, candidate);
            let peers = last_peers(planner_state, candidate);
            &&& at.is_none() || peers == 0 || now - at.unwrap() > 300 * SECOND ==> strength == 1
            &&& at.is_some() && peers > 0 && now - at.unwrap() <= 300 * SECOND ==> strength == if now
                - at.unwrap() <= 60 * SECOND && peers >= 16 {
                3u8
            } else {
                2u8
            }
        }),
{
}

// The idle probe.

/// How many demands can gain from a probe.
pub open spec fn gaining(snapshots: Seq<DemandEntrySnapshot>) -> nat
    decreases snapshots.len(),
{
    if snapshots.len() == 0 {
        0
    } else {
        let last = snapshots.last();
        let gains = last.subscriber_count > 0 && last.metrics.accepting_new_peers
            && !last.metrics.paused && (last.demand.awaiting_metadata || last.demand.connected_peers
            == 0 || needs_support(last.metrics));
        gaining(snapshots.drop_last()) + if gains {
            1nat
        } else {
            0nat
        }
    }
}

/// Whether bytes move for a demand that somebody wants.
pub open spec fn bytes_move(snapshots: Seq<DemandEntrySnapshot>) -> bool {
    exists|i: int|
        0 <= i < snapshots.len() && (#[trigger] snapshots[i]).subscriber_count > 0 && (
        snapshots[i].metrics.download_speed_bps > 0 || snapshots[i].metrics.upload_speed_bps > 0
            || snapshots[i].metrics.bytes_downloaded_this_tick > 0
            || snapshots[i].metrics.bytes_uploaded_this_tick > 0)
}

proof fn lemma_gaining(snapshots: Seq<DemandEntrySnapshot>)
    ensures
        gaining(snapshots) == demand_total(snapshots),
    decreases snapshots.len(),
{
    reveal(Seq::filter);
    if snapshots.len() > 0 {
        lemma_gaining(snapshots.drop_last());
    }
}

/// While nobody can gain from it the probe rests, and the status says so.
pub proof fn probes_rest_without_gain(
    probe: DemandPlannerIdleSpeedProbe,
    snapshots: Seq<DemandEntrySnapshot>,
    now: Instant,
)
    requires
        gaining(snapshots) == 0,
    ensures
        ({
            let after = probe.observed(snapshots, now);
            let status = probe.observed_status(snapshots, now);
            &&& after.idle_since.is_none() && after.decay_since.is_none()
            &&& after.current_multiplier == 1
            &&& !status.active && status.demand_count == 0
        }),
{
    lemma_gaining(snapshots);
}

/// While somebody can gain from it and no bytes move, the idle time runs from the first look on, and
/// the strength is at least twice the normal one after 30 seconds, three times after 60 and four
/// times after 120. It never falls while nothing moves.
pub proof fn idle_probes_grow_stronger(
    probe: DemandPlannerIdleSpeedProbe,
    snapshots: Seq<DemandEntrySnapshot>,
    now: Instant,
)
    requires
        gaining(snapshots) > 0,
        !bytes_move(snapshots),
    ensures
        ({
            let after = probe.observed(snapshots, now);
            let since = if probe.idle_since.is_some() {
                probe.idle_since.unwrap()
            } else {
                now
            };
            let idle = now - since;
            let called_for: u8 = if idle >= 120 * SECOND {
                4
            } else if idle >= 60 * SECOND {
                3
            } else if idle >= 30 * SECOND {
                2
            } else {
                1
            };
            &&& after.idle_since == Some(since)
            &&& after.decay_since.is_none()
            &&& after.current_multiplier >= called_for
            &&& after.current_multiplier >= probe.current_multiplier
            &&& after.current_multiplier == called_for || after.current_multiplier
                == probe.current_multiplier
        }),
{
    lemma_gaining(snapshots);
    assert forall|i: int| 0 <= i < snapshots.len() && (
    #[trigger] snapshots[i]).subscriber_count > 0 implies snapshots[i].metrics.activity()
        == 0 by {
        assert(!(snapshots[i].metrics.download_speed_bps > 0
            || snapshots[i].metrics.upload_speed_bps > 0
            || snapshots[i].metrics.bytes_downloaded_this_tick > 0
            || snapshots[i].metrics.bytes_uploaded_this_tick > 0));
    }
}

/// Once bytes move, the idle time is forgotten, and a strength above normal falls by one for each
/// whole 30 seconds since it began to fall or, on the first look, not yet.
pub proof fn busy_probes_step_down(
    probe: DemandPlannerIdleSpeedProbe,
    snapshots: Seq<DemandEntrySnapshot>,
    now: Instant,
)
    requires
        gaining(snapshots) > 0,
        bytes_move(snapshots),
        now + 30 * SECOND <= u64::MAX,
        probe.decay_since.is_some() ==> probe.decay_since.unwrap() + 30 * SECOND <= u64::MAX,
    ensures
        ({
            let after = probe.observed(snapshots, now);
            let since = if probe.decay_since.is_some() {
                probe.decay_since.unwrap()
            } else {
                now
            };
            &&& after.idle_since.is_none()
            &&& probe.current_multiplier <= 1 ==> after.current_multiplier == 1
            &&& probe.current_multiplier > 1 && now - since < 30 * SECOND
                ==> after.current_multiplier == probe.current_multiplier && after.decay_since
                == Some(since)
            &&& probe.current_multiplier > 1 && 30 * SECOND <= now - since < 60 * SECOND
                ==> after.current_multiplier == probe.current_multiplier - 1
        }),
{
    lemma_gaining(snapshots);
    let i = choose|i: int|
        0 <= i < snapshots.len() && (#[trigger] snapshots[i]).subscriber_count > 0 && (
        snapshots[i].metrics.download_speed_bps > 0 || snapshots[i].metrics.upload_speed_bps > 0
            || snapshots[i].metrics.bytes_downloaded_this_tick > 0
            || snapshots[i].metrics.bytes_uploaded_this_tick > 0);
    assert(snapshots[i].metrics.activity() > 0);
    reveal_with_fuel(crate::planner::probe::decayed, 3);
}

/// What the planner is told of the probe: how many demands gain from it, its strength, and that it is
/// active exactly where that is above normal.
pub proof fn probe_status_tells_strength(
    probe: DemandPlannerIdleSpeedProbe,
    snapshots: Seq<DemandEntrySnapshot>,
    now: Instant,
)
    requires
        0 < gaining(snapshots) <= usize::MAX,
    ensures
        ({
            let status = probe.observed_status(snapshots, now);
            let after = probe.observed(snapshots, now);
            &&& status.demand_count == gaining(snapshots)
            &&& status.active == (after.current_multiplier > 1)
            &&& status.active ==> status.multiplier == after.current_multiplier
            &&& !status.active ==> status.multiplier == 1
        }),
{
    lemma_gaining(snapshots);
}

} // verus!
