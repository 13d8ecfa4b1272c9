use vstd::prelude::*;

use crate::clock::{Instant, MILLISECOND};
use crate::ids::InfoHash;
use crate::planner::actions::{DemandPlannerAction, PlannerEffectView};
use crate::planner::counts::{recorded_all_counts, DemandSlotCounts};
use crate::planner::model::{waits_for_metadata, PlannerView};
use crate::planner::plan::candidate_plan;
use crate::planner::probe::DemandPlannerIdleSpeedProbeStatus;
use crate::planner::round_laws::{due_picks, made_ready, room_for, running};
use crate::planner::selection::{
    candidate_classes, has_hash, launched_or_not, oldest_due_ms, stats_of,
};
use crate::planner::step::{
    plannable, plannable_due, planner_step, start_one, PlannedLaunch, StartFold,
};
use crate::scheduler::{DemandEntrySnapshot, DueDemandCandidate};
use crate::slice::DemandSliceClass;

verus! {

// What a selection tells of itself.

/// Whether a candidate is of a class.
pub open spec fn is_of(candidate: DueDemandCandidate, class: DemandSliceClass) -> bool {
    match class {
        DemandSliceClass::AwaitingMetadata => candidate.demand.awaiting_metadata,
        DemandSliceClass::NoConnectedPeers => !candidate.demand.awaiting_metadata
            && candidate.demand.connected_peers == 0,
        DemandSliceClass::RoutineRefresh => !candidate.demand.awaiting_metadata
            && candidate.demand.connected_peers > 0,
    }
}

/// Whether a demand is among those launched.
pub open spec fn was_launched(launched: Seq<DueDemandCandidate>, info_hash: InfoHash) -> bool {
    exists|i: int| 0 <= i < launched.len() && (#[trigger] launched[i]).info_hash == info_hash
}

/// How many candidates are of a class and were launched, or were not.
pub open spec fn tally(
    offered: Seq<DueDemandCandidate>,
    launched: Seq<DueDemandCandidate>,
    class: DemandSliceClass,
    went: bool,
) -> nat
    decreases offered.len(),
{
    if offered.len() == 0 {
        0
    } else {
        tally(offered.drop_last(), launched, class, went) + if is_of(offered.last(), class)
            && was_launched(launched, offered.last().info_hash) == went {
            1nat
        } else {
            0nat
        }
    }
}

proof fn lemma_tally(
    offered: Seq<DueDemandCandidate>,
    launched: Seq<DueDemandCandidate>,
    class: DemandSliceClass,
    went: bool,
)
    ensures
        crate::planner::counts::class_total(
            candidate_classes(offered.filter(launched_or_not(launched, went))),
            class,
        ) == tally(offered, launched, class, went),
        offered.filter(launched_or_not(launched, went)).len() <= offered.len(),
    decreases offered.len(),
{
    reveal(Seq::filter);
    let pred = launched_or_not(launched, went);
    if offered.len() > 0 {
        let rest = offered.drop_last();
        let last = offered.last();
        lemma_tally(rest, launched, class, went);
        assert(has_hash(launched, last.info_hash) == was_launched(launched, last.info_hash));
        if pred(last) {
            assert(candidate_classes(offered.filter(pred)).drop_last() =~= candidate_classes(
                rest.filter(pred),
            ));
        }
    } else {
        assert(candidate_classes(offered.filter(pred)) =~= Seq::<DemandSliceClass>::empty());
    }
}

/// A selection tells for each class how many of the offered demands were launched, and how many were
/// held back.
pub proof fn selections_tell_counts(
    offered: Seq<DueDemandCandidate>,
    launched: Seq<DueDemandCandidate>,
    now: Instant,
)
    requires
        offered.len() <= usize::MAX,
    ensures
        ({
            let stats = stats_of(offered, launched, now);
            let metadata = DemandSliceClass::AwaitingMetadata;
            let peerless = DemandSliceClass::NoConnectedPeers;
            let routine = DemandSliceClass::RoutineRefresh;
            &&& stats.launched.awaiting_metadata == tally(offered, launched, metadata, true)
            &&& stats.launched.no_connected_peers == tally(offered, launched, peerless, true)
            &&& stats.launched.routine_refresh == tally(offered, launched, routine, true)
            &&& stats.throttled.awaiting_metadata == tally(offered, launched, metadata, false)
            &&& stats.throttled.no_connected_peers == tally(offered, launched, peerless, false)
            &&& stats.throttled.routine_refresh == tally(offered, launched, routine, false)
        }),
{
    lemma_class_told(offered, launched, DemandSliceClass::AwaitingMetadata);
    lemma_class_told(offered, launched, DemandSliceClass::NoConnectedPeers);
    lemma_class_told(offered, launched, DemandSliceClass::RoutineRefresh);
}

proof fn lemma_class_told(
    offered: Seq<DueDemandCandidate>,
    launched: Seq<DueDemandCandidate>,
    class: DemandSliceClass,
)
    requires
        offered.len() <= usize::MAX,
    ensures
        ({
            let went = offered.filter(launched_or_not(launched, true));
            let stayed = offered.filter(launched_or_not(launched, false));
            &&& DemandSlotCounts::zero().recorded_all(candidate_classes(went)).of(class) == tally(
                offered,
                launched,
                class,
                true,
            )
            &&& DemandSlotCounts::zero().recorded_all(candidate_classes(stayed)).of(class)
                == tally(offered, launched, class, false)
        }),
{
    let went = offered.filter(launched_or_not(launched, true));
    let stayed = offered.filter(launched_or_not(launched, false));
    lemma_tally(offered, launched, class, true);
    lemma_tally(offered, launched, class, false);
    recorded_all_counts(DemandSlotCounts::zero(), candidate_classes(went), class);
    recorded_all_counts(DemandSlotCounts::zero(), candidate_classes(stayed), class);
}

proof fn lemma_oldest(candidates: Seq<DueDemandCandidate>, class: DemandSliceClass, now: Instant)
    ensures
        ({
            let oldest = oldest_due_ms(candidates, class, now);
            &&& forall|i: int|
                0 <= i < candidates.len() && is_of(#[trigger] candidates[i], class) ==> (now
                    - candidates[i].next_eligible_at) / MILLISECOND as int <= oldest
            &&& oldest > 0 ==> exists|i: int|
                0 <= i < candidates.len() && is_of(#[trigger] candidates[i], class) && (now
                    - candidates[i].next_eligible_at) / MILLISECOND as int == oldest
        }),
    decreases candidates.len(),
{
    if candidates.len() > 0 {
        let rest = candidates.drop_last();
        lemma_oldest(rest, class, now);
        let oldest = oldest_due_ms(candidates, class, now);
        let before = oldest_due_ms(rest, class, now);
        assert(candidates[candidates.len() - 1] == candidates.last());
        assert forall|i: int|
            0 <= i < candidates.len() && is_of(#[trigger] candidates[i], class) implies (now
            - candidates[i].next_eligible_at) / MILLISECOND as int <= oldest by {
            if i < rest.len() {
                assert(rest[i] == candidates[i]);
            }
        }
        if oldest > 0 && oldest == before {
            let i = choose|i: int|
                0 <= i < rest.len() && is_of(#[trigger] rest[i], class) && (now
                    - rest[i].next_eligible_at) / MILLISECOND as int == before;
            assert(candidates[i] == rest[i]);
        }
    }
}

/// The longest time, in milliseconds, for which a demand of a class that is held back has been due:
/// none of these has been due for longer, and one has been for just that long.
pub proof fn selections_tell_oldest(
    offered: Seq<DueDemandCandidate>,
    launched: Seq<DueDemandCandidate>,
    class: DemandSliceClass,
    now: Instant,
    i: int,
)
    requires
        0 <= i < offered.len(),
        is_of(offered[i], class),
        !was_launched(launched, offered[i].info_hash),
    ensures
        ({
            let stats = stats_of(offered, launched, now);
            let oldest = match class {
                DemandSliceClass::AwaitingMetadata => stats.oldest_throttled_awaiting_ms,
                DemandSliceClass::NoConnectedPeers => stats.oldest_throttled_no_peers_ms,
                DemandSliceClass::RoutineRefresh => stats.oldest_throttled_routine_ms,
            };
            &&& (now - offered[i].next_eligible_at) / MILLISECOND as int <= oldest
            &&& oldest > 0 ==> exists|k: int|
                0 <= k < offered.len() && is_of(#[trigger] offered[k], class) && !was_launched(
                    launched,
                    offered[k].info_hash,
                ) && (now - offered[k].next_eligible_at) / MILLISECOND as int == oldest
        }),
{
    let pred = launched_or_not(launched, false);
    let stayed = offered.filter(pred);
    lemma_oldest(stayed, class, now);
    assert(has_hash(launched, offered[i].info_hash) == was_launched(
        launched,
        offered[i].info_hash,
    ));
    offered.lemma_filter_contains(pred, i);
    let m = stayed.index_of(offered[i]);
    assert(is_of(stayed[m], class));
    let oldest = oldest_due_ms(stayed, class, now);
    if oldest > 0 {
        let j = choose|j: int|
            0 <= j < stayed.len() && is_of(#[trigger] stayed[j], class) && (now
                - stayed[j].next_eligible_at) / MILLISECOND as int == oldest;
        offered.lemma_filter_pred(pred, j);
        assert(stayed.contains(stayed[j]));
        offered.lemma_filter_contains_rev(pred, stayed[j]);
        let k = offered.index_of(stayed[j]);
        assert(has_hash(launched, offered[k].info_hash) == was_launched(
            launched,
            offered[k].info_hash,
        ));
        assert(is_of(offered[k], class));
    }
}

// What a planning round tells of itself.

/// A planning round tells how much room it had, how many demands were due and what became of them, what
/// runs, what is parked and what drains, and the whole tokens that are left. It looks at the idle probe
/// first. Without room it does and tells nothing.
pub proof fn rounds_tell_their_numbers(planner: PlannerView, now: Instant)
    requires
        planner.drain_keys.len() <= usize::MAX,
    ensures
        ({
            let step = planner_step(
                planner,
                DemandPlannerAction::PlanDue { now, runtime_available: true },
            );
            let due = plannable_due(made_ready(planner, now), now);
            &&& step.plan_stats.is_some() <==> room_for(planner) > 0
            &&& room_for(planner) > 0 ==> step.planner.probe == planner.probe.observed(
                plannable(made_ready(planner, now)),
                now,
            )
            &&& room_for(planner) == 0 ==> step.planner.probe == planner.probe
                && step.effects.len() == 0
            &&& step.plan_stats matches Some(stats) ==> {
                &&& stats.launch_budget == room_for(planner)
                &&& due.len() <= usize::MAX ==> stats.due_total == due.len()
                &&& stats.draining_count == planner.drain_keys.len()
                &&& planner.drain_keys.len() <= usize::MAX - 15 ==> planner.drain_keys.len() <= 16
                    * stats.drain_virtual_slots < planner.drain_keys.len() + 16
                &&& stats.active_counts == running(planner)
                &&& stats.selection_stats == stats_of(due, due_picks(planner, now).launches, now)
                &&& stats.idle_probe_active == planner.probe.observed_status(
                    plannable(made_ready(planner, now)),
                    now,
                ).active
                &&& stats.spare_selected > 0 ==> stats.idle_probe_selected == 0
                &&& step.planner.parked_crawls.len() <= usize::MAX ==> stats.parked_count
                    == step.planner.parked_crawls.len()
                &&& stats.budget_awaiting == (step.planner.budget.awaiting_metadata.tokens_scaled
                    / 1_000) as usize
                &&& stats.budget_no_peers == (step.planner.budget.no_connected_peers.tokens_scaled
                    / 1_000) as usize
                &&& stats.budget_routine == (step.planner.budget.routine_refresh.tokens_scaled
                    / 1_000) as usize
            }
        }),
{
    let ready = made_ready(planner, now);
    assert(plannable(ready) == plannable(
        PlannerView { parked_crawls: ready.parked_crawls, ..planner },
    ));
}

/// A launch for a demand that is gone, or for which something runs already, is not started: its token
/// goes back, and nothing else changes.
pub proof fn late_launches_give_their_token_back(
    fold: StartFold,
    launch: PlannedLaunch,
    status: DemandPlannerIdleSpeedProbeStatus,
    now: Instant,
)
    requires
        ({
            let info_hash = launch.candidate.info_hash;
            !fold.entries.contains_key(info_hash) || fold.entries[info_hash].in_progress
        }),
    ensures
        ({
            let after = start_one(fold, launch, status, now);
            let class = if launch.candidate.demand.awaiting_metadata {
                DemandSliceClass::AwaitingMetadata
            } else if launch.candidate.demand.connected_peers == 0 {
                DemandSliceClass::NoConnectedPeers
            } else {
                DemandSliceClass::RoutineRefresh
            };
            &&& after.entries == fold.entries && after.history == fold.history
            &&& after.pending_starts == fold.pending_starts && after.effects == fold.effects
            &&& after.budget == fold.budget.refunded(class)
        }),
{
}

/// A launch that is started marks its demand, remembers when that was, and asks for the lookup.
pub proof fn launches_mark_their_demand(
    fold: StartFold,
    launch: PlannedLaunch,
    status: DemandPlannerIdleSpeedProbeStatus,
    now: Instant,
)
    requires
        fold.entries.contains_key(launch.candidate.info_hash),
        !fold.entries[launch.candidate.info_hash].in_progress,
    ensures
        ({
            let after = start_one(fold, launch, status, now);
            let info_hash = launch.candidate.info_hash;
            let before = fold.entries[info_hash];
            &&& after.entries[info_hash].in_progress
            &&& after.entries[info_hash].next_eligible_at == before.next_eligible_at
            &&& after.entries[info_hash].subscriber_count == before.subscriber_count
            &&& after.history.contains_key(info_hash)
            &&& after.history[info_hash].last_started_at == Some(now)
            &&& fold.history.contains_key(info_hash) ==> after.history[info_hash].last_finished_at
                == fold.history[info_hash].last_finished_at
                && after.history[info_hash].last_useful_yield_at
                == fold.history[info_hash].last_useful_yield_at
            &&& after.pending_starts.contains_key(info_hash)
            &&& after.budget == fold.budget
            &&& after.effects.len() == fold.effects.len() + 1
            &&& after.effects.last() matches PlannerEffectView::StartLookup(start)
                && start.candidate == launch.candidate && start.selection_reason == launch.reason
                && start.plan.class == after.pending_starts[info_hash] && start.plan
                == candidate_plan(launch.candidate, fold.history, launch.reason, status, now)
        }),
{
}

/// One more demand adds to those that wait for metadata exactly where it does and somebody wants it.
pub proof fn metadata_waiters_add_up(
    snapshots: Seq<DemandEntrySnapshot>,
    snapshot: DemandEntrySnapshot,
)
    ensures
        snapshots.push(snapshot).filter(waits_for_metadata()).len() == snapshots.filter(
            waits_for_metadata(),
        ).len() + if snapshot.demand.awaiting_metadata && snapshot.subscriber_count > 0 {
            1nat
        } else {
            0nat
        },
{
    reveal(Seq::filter);
    assert(snapshots.push(snapshot).drop_last() =~= snapshots);
}

} // verus!
