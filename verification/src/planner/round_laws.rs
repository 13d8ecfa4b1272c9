use vstd::prelude::*;

use crate::clock::Instant;
use crate::ids::InfoHash;
use crate::limits::DHT_DEMAND_SPARE_RESEARCH_LAUNCH_LIMIT;
use crate::planner::actions::{DemandPlannerAction, DemandStartLookupEffect, PlannerEffectView};
use crate::planner::budget::DemandPlannerBudget;
use crate::planner::counts::{class_total, recorded_all_counts, DemandSlotCounts};
use crate::planner::drain::kept_crawls;
use crate::planner::lookups::{active_classes, launch_budget};
use crate::planner::model::PlannerView;
use crate::planner::order_laws::{
    could_launch, is_backed_off, launch_order, launch_order_holds_all, needs_support,
    no_slot_is_left_unused, spare_capacity_launches_one,
};
use crate::planner::plan::candidate_plan;
use crate::planner::probe::DemandPlannerIdleSpeedProbeStatus;
use crate::planner::ranking::{rank_order, rank_order_is_ordered, rank_order_keeps_all};
use crate::planner::selection::{
    candidate_classes, due_ranked, due_selection, fill, ordered_by, probe_eligible,
    probe_selection, reason_for, spare_eligible, spare_fill, spare_ranked, spare_selection,
    LaunchFill,
};
use crate::planner::selection_laws::{
    distinct_hashes, launches_are_candidates, launches_are_distinct, launches_stay_within_limit,
    launches_stay_within_tokens, spare_launches_stay_within_limit,
};
use crate::planner::step::{
    candidate_not_draining, hash_of, launch_due, launch_for, not_draining, plannable,
    plannable_due, planner_step, round_launches, start_all, PlannedLaunch, StartFold,
};
use crate::scheduler::{
    as_candidate, candidate_of, due_at, snapshot_of, DemandEntrySnapshot, DueDemandCandidate,
};
use crate::slice::{class_of, DemandSelectionReason, DemandSliceClass};

verus! {

// What is started.

/// A launch whose demand is idle and not launched before is started, with the plan that its history
/// before the round calls for.
proof fn lemma_launch_started(
    fold: StartFold,
    launches: Seq<PlannedLaunch>,
    status: DemandPlannerIdleSpeedProbeStatus,
    now: Instant,
    k: int,
)
    requires
        0 <= k < launches.len(),
        fold.entries.contains_key(launches[k].candidate.info_hash),
        !fold.entries[launches[k].candidate.info_hash].in_progress,
        forall|j: int|
            0 <= j < k ==> (#[trigger] launches[j]).candidate.info_hash
                != launches[k].candidate.info_hash,
    ensures
        start_all(fold, launches, status, now).effects.contains(
            PlannerEffectView::StartLookup(
                DemandStartLookupEffect {
                    candidate: launches[k].candidate,
                    plan: candidate_plan(
                        launches[k].candidate,
                        fold.history,
                        launches[k].reason,
                        status,
                        now,
                    ),
                    selection_reason: launches[k].reason,
                },
            ),
        ),
    decreases launches.len(),
{
    let rest = launches.drop_last();
    let middle = start_all(fold, rest, status, now);
    let after = start_all(fold, launches, status, now);
    let candidate = launches[k].candidate;
    let effect = PlannerEffectView::StartLookup(
        DemandStartLookupEffect {
            candidate,
            plan: candidate_plan(candidate, fold.history, launches[k].reason, status, now),
            selection_reason: launches[k].reason,
        },
    );
    if k < rest.len() {
        assert(rest[k] == launches[k]);
        assert forall|j: int| 0 <= j < k implies (#[trigger] rest[j]).candidate.info_hash
            != rest[k].candidate.info_hash by {
            assert(rest[j] == launches[j]);
        }
        lemma_launch_started(fold, rest, status, now, k);
        let i = middle.effects.index_of(effect);
        assert(after.effects[i] == effect);
    } else {
        assert forall|j: int| 0 <= j < rest.len() implies (#[trigger] rest[j]).candidate.info_hash
            != candidate.info_hash by {
            assert(rest[j] == launches[j]);
        }
        lemma_untouched(fold, rest, status, now, candidate.info_hash);
        assert(after.effects[middle.effects.len() as int] == effect);
    }
}

proof fn lemma_untouched(
    fold: StartFold,
    launches: Seq<PlannedLaunch>,
    status: DemandPlannerIdleSpeedProbeStatus,
    now: Instant,
    info_hash: InfoHash,
)
    requires
        forall|j: int|
            0 <= j < launches.len() ==> (#[trigger] launches[j]).candidate.info_hash != info_hash,
    ensures
        ({
            let after = start_all(fold, launches, status, now);
            &&& after.entries.contains_key(info_hash) == fold.entries.contains_key(info_hash)
            &&& after.entries[info_hash] == fold.entries[info_hash]
            &&& after.history.contains_key(info_hash) == fold.history.contains_key(info_hash)
            &&& after.history[info_hash] == fold.history[info_hash]
        }),
    decreases launches.len(),
{
    if launches.len() > 0 {
        let rest = launches.drop_last();
        assert forall|j: int| 0 <= j < rest.len() implies (#[trigger] rest[j]).candidate.info_hash
            != info_hash by {
            assert(rest[j] == launches[j]);
        }
        lemma_untouched(fold, rest, status, now, info_hash);
        assert(launches[launches.len() - 1].candidate.info_hash != info_hash);
    }
}

/// What is started was launched.
proof fn lemma_started_from(
    fold: StartFold,
    launches: Seq<PlannedLaunch>,
    status: DemandPlannerIdleSpeedProbeStatus,
    now: Instant,
    start: DemandStartLookupEffect,
) -> (k: int)
    requires
        fold.effects.len() == 0,
        start_all(fold, launches, status, now).effects.contains(
            PlannerEffectView::StartLookup(start),
        ),
    ensures
        0 <= k < launches.len(),
        launches[k].candidate == start.candidate,
        launches[k].reason == start.selection_reason,
    decreases launches.len(),
{
    let effect = PlannerEffectView::StartLookup(start);
    if launches.len() == 0 {
        assert(!fold.effects.contains(effect));
        0
    } else {
        let rest = launches.drop_last();
        let middle = start_all(fold, rest, status, now);
        let after = start_all(fold, launches, status, now);
        let i = after.effects.index_of(effect);
        if i < middle.effects.len() {
            assert(middle.effects[i] == effect);
            assert(middle.effects.contains(effect));
            let k = lemma_started_from(fold, rest, status, now, start);
            assert(rest[k] == launches[k]);
            k
        } else {
            launches.len() - 1
        }
    }
}

// Where candidates come from.

/// A candidate stands for a demand as it is in the planner.
pub open spec fn stands_for(candidate: DueDemandCandidate, planner: PlannerView) -> bool {
    let entry = planner.entries[candidate.info_hash];
    &&& planner.entry_keys.contains(candidate.info_hash)
    &&& candidate.demand == entry.demand
    &&& candidate.metrics == entry.metrics
    &&& candidate.next_eligible_at == entry.next_eligible_at
    &&& candidate.subscriber_count == entry.subscriber_count
}

/// Whether a demand could be looked up: somebody wants it, nothing runs or drains for it.
pub open spec fn is_idle(planner: PlannerView, info_hash: InfoHash) -> bool {
    let entry = planner.entries[info_hash];
    entry.subscriber_count > 0 && !entry.in_progress && !planner.drains.contains_key(info_hash)
}

proof fn lemma_in_filter<A>(list: Seq<A>, pred: spec_fn(A) -> bool, item: A)
    ensures
        list.filter(pred).contains(item) <==> list.contains(item) && pred(item),
{
    if list.filter(pred).contains(item) {
        let i = list.filter(pred).index_of(item);
        list.lemma_filter_pred(pred, i);
        list.lemma_filter_contains_rev(pred, item);
    }
    if list.contains(item) && pred(item) {
        let i = list.index_of(item);
        list.lemma_filter_contains(pred, i);
    }
}

/// A snapshot of the planner stands for a demand that it knows.
proof fn lemma_snapshot_origin(planner: PlannerView, info_hash: InfoHash)
    ensures
        forall|i: int|
            0 <= i < planner.snapshots().len() ==> (#[trigger] planner.snapshots()[i])
                == snapshot_of(planner.entry_keys[i], planner.entries[planner.entry_keys[i]]),
        planner.snapshots().contains(snapshot_of(info_hash, planner.entries[info_hash]))
            <==> planner.entry_keys.contains(info_hash),
{
    let snapshot = snapshot_of(info_hash, planner.entries[info_hash]);
    if planner.entry_keys.contains(info_hash) {
        let i = planner.entry_keys.index_of(info_hash);
        assert(planner.snapshots()[i] == snapshot);
    }
    if planner.snapshots().contains(snapshot) {
        let i = planner.snapshots().index_of(snapshot);
        assert(planner.entry_keys[i] == info_hash);
    }
}

/// The demands that a planning round may start as due ones are exactly those that are wanted, idle
/// and due.
pub proof fn due_candidates_are_due_and_idle(
    planner: PlannerView,
    now: Instant,
    candidate: DueDemandCandidate,
)
    ensures
        plannable_due(planner, now).contains(candidate) <==> stands_for(candidate, planner)
            && is_idle(planner, candidate.info_hash) && candidate.next_eligible_at <= now,
{
    let all = planner.snapshots();
    let due = all.filter(due_at(now));
    let candidates = due.map_values(as_candidate());
    let info_hash = candidate.info_hash;
    let snapshot = snapshot_of(info_hash, planner.entries[info_hash]);
    lemma_snapshot_origin(planner, info_hash);
    lemma_in_filter(candidates, candidate_not_draining(planner.drains), candidate);
    if plannable_due(planner, now).contains(candidate) {
        let k = candidates.index_of(candidate);
        lemma_in_filter(all, due_at(now), due[k]);
        assert(due.contains(due[k]));
        let i = all.index_of(due[k]);
        assert(all[i] == snapshot_of(planner.entry_keys[i], planner.entries[planner.entry_keys[i]]));
        assert(planner.entry_keys[i] == info_hash);
        assert(planner.entry_keys.contains(info_hash));
    }
    if stands_for(candidate, planner) && is_idle(planner, info_hash) && candidate.next_eligible_at
        <= now {
        lemma_in_filter(all, due_at(now), snapshot);
        let k = due.index_of(snapshot);
        assert(candidates[k] == candidate_of(snapshot));
        assert(candidate_of(snapshot) == candidate);
    }
}

proof fn lemma_plannable_origin(
    planner: PlannerView,
    pred: spec_fn(DemandEntrySnapshot) -> bool,
    candidate: DueDemandCandidate,
)
    requires
        plannable(planner).filter(pred).map_values(as_candidate()).contains(candidate),
    ensures
        stands_for(candidate, planner),
        !planner.drains.contains_key(candidate.info_hash),
        pred(snapshot_of(candidate.info_hash, planner.entries[candidate.info_hash])),
{
    let all = planner.snapshots();
    let kept = plannable(planner).filter(pred);
    let k = kept.map_values(as_candidate()).index_of(candidate);
    let snapshot = kept[k];
    assert(kept.contains(snapshot));
    lemma_in_filter(plannable(planner), pred, snapshot);
    lemma_in_filter(all, not_draining(planner.drains), snapshot);
    lemma_snapshot_origin(planner, candidate.info_hash);
    let i = all.index_of(snapshot);
    assert(all[i] == snapshot_of(planner.entry_keys[i], planner.entries[planner.entry_keys[i]]));
    assert(candidate == candidate_of(snapshot));
    assert(planner.entry_keys[i] == candidate.info_hash);
    assert(planner.entry_keys.contains(candidate.info_hash));
}

proof fn lemma_ordered_origin(
    candidates: Seq<DueDemandCandidate>,
    ranked: spec_fn(DueDemandCandidate) -> (DueDemandCandidate, Seq<u64>),
    width: nat,
    candidate: DueDemandCandidate,
)
    requires
        ordered_by(candidates, ranked).contains(candidate),
        forall|c: DueDemandCandidate| (#[trigger] ranked(c)).0 == c,
    ensures
        candidates.contains(candidate),
{
    broadcast use vstd::seq_lib::group_to_multiset_ensures;

    let entries = candidates.map_values(ranked);
    let sorted = rank_order(entries);
    let order = ordered_by(candidates, ranked);
    rank_order_keeps_all(entries);
    let i = order.index_of(candidate);
    assert(sorted.contains(sorted[i]));
    assert(sorted.to_multiset().count(sorted[i]) > 0);
    assert(entries.contains(sorted[i]));
    let k = entries.index_of(sorted[i]);
    assert(entries[k] == ranked(candidates[k]));
    assert(candidates[k] == candidate);
}

proof fn lemma_spare_origin(
    order: Seq<DueDemandCandidate>,
    budget: DemandPlannerBudget,
    now: Instant,
    limit: nat,
    candidate: DueDemandCandidate,
)
    requires
        spare_fill(order, budget, now, limit).0.contains(candidate),
    ensures
        order.contains(candidate),
    decreases order.len(),
{
    let launches = spare_fill(order, budget, now, limit).0;
    let i = launches.index_of(candidate);
    if order.len() > 0 {
        let rest = order.drop_last();
        let before = spare_fill(rest, budget, now, limit).0;
        if i < before.len() {
            assert(before[i] == candidate);
            assert(before.contains(candidate));
            lemma_spare_origin(rest, budget, now, limit, candidate);
            assert(order[rest.index_of(candidate)] == candidate);
        } else {
            assert(order[order.len() - 1] == candidate);
        }
    }
}

// Planning rounds.

/// The planner as a planning round finds it: with crawls that are not worth keeping gone, and with
/// its tokens up to date.
pub open spec fn made_ready(planner: PlannerView, now: Instant) -> PlannerView {
    PlannerView {
        budget: planner.budget.refilled(now),
        parked_crawls: kept_crawls(planner.parked_crawls, now),
        ..planner
    }
}

/// The lookups that run, by class.
pub open spec fn running(planner: PlannerView) -> DemandSlotCounts {
    DemandSlotCounts::zero().recorded_all(active_classes(planner.active_keys, planner.active))
}

/// The room for launches.
pub open spec fn room_for(planner: PlannerView) -> usize {
    launch_budget(planner.active_keys.len() as usize, planner.drain_keys.len() as usize)
}

/// Whether a step asks for a lookup for a demand.
pub open spec fn starts(effects: Seq<PlannerEffectView>, info_hash: InfoHash) -> bool {
    exists|i: int|
        0 <= i < effects.len() && (#[trigger] effects[i] matches PlannerEffectView::StartLookup(
            start,
        ) && start.candidate.info_hash == info_hash)
}

/// A demand that is wanted, idle and due is started by a planning round, unless the room, the slots
/// of its class or its tokens are used up by others that are due.
#[verifier::spinoff_prover]
#[verifier::rlimit(40)]
pub proof fn due_demands_are_started(planner: PlannerView, now: Instant, info_hash: InfoHash)
    requires
        planner.entries.contains_key(info_hash),
        planner.entry_keys.contains(info_hash),
        is_idle(planner, info_hash),
        planner.entries[info_hash].next_eligible_at <= now,
        planner.active_keys.len() + planner.entry_keys.len() <= usize::MAX,
    ensures
        ({
            let step = planner_step(
                planner,
                DemandPlannerAction::PlanDue { now, runtime_available: true },
            );
            let due = due_picks(planner, now);
            let candidate = candidate_of(snapshot_of(info_hash, planner.entries[info_hash]));
            starts(step.effects, info_hash) || !could_launch(
                candidate,
                due.launches,
                running(planner),
                due.budget,
                now,
                room_for(planner) as nat,
            )
        }),
{
    let step = planner_step(
        planner,
        DemandPlannerAction::PlanDue { now, runtime_available: true },
    );
    let ready = made_ready(planner, now);
    let room = room_for(planner);
    let candidate = candidate_of(snapshot_of(info_hash, planner.entries[info_hash]));
    let candidates = plannable_due(ready, now);
    let order = launch_order(candidates, ready.parked_crawls, ready.history, now);
    let due = fill(order, running(planner), ready.budget, now, room as nat);
    due_candidates_are_due_and_idle(ready, now, candidate);
    launch_order_holds_all(candidates, ready.parked_crawls, ready.history, now, candidate);
    if !due.launches.contains(candidate) {
        let class = class_of(candidate.demand);
        let classes = active_classes(planner.active_keys, planner.active);
        recorded_all_counts(DemandSlotCounts::zero(), classes, class);
        lemma_total_bound(classes, class);
        lemma_due_len(ready, now);
        no_slot_is_left_unused(order, running(planner), ready.budget, now, room as nat, candidate);
    } else if room > 0 {
        let status = planner.probe.observed_status(plannable(ready), now);
        assert(plannable(ready) == plannable(
            PlannerView { parked_crawls: ready.parked_crawls, ..planner },
        ));
        let round = round_launches(ready, status, now, room);
        let fold = StartFold {
            entries: ready.entries,
            history: ready.history,
            pending_starts: ready.pending_starts,
            budget: round.budget,
            effects: seq![],
        };
        let due_launches = due.launches.map_values(launch_due(ready, now));
        let k = due.launches.index_of(candidate);
        assert(due_launches[k].candidate == candidate);
        assert(round.launches[k] == due_launches[k]);
        let first = lemma_first_with(round.launches, info_hash, k);
        lemma_launch_started(fold, round.launches, status, now, first);
        assert(step.effects == start_all(fold, round.launches, status, now).effects);
        let effect = PlannerEffectView::StartLookup(
            DemandStartLookupEffect {
                candidate: round.launches[first].candidate,
                plan: candidate_plan(
                    round.launches[first].candidate,
                    fold.history,
                    round.launches[first].reason,
                    status,
                    now,
                ),
                selection_reason: round.launches[first].reason,
            },
        );
        let i = step.effects.index_of(effect);
        assert(step.effects[i] == effect);
    }
}

/// What the idle probe picks in a planning round, behind the demands that are due.
pub open spec fn probe_picks(planner: PlannerView, now: Instant) -> LaunchFill {
    let ready = made_ready(planner, now);
    let due = due_picks(planner, now);
    probe_selection(
        plannable(ready),
        running(planner).recorded_all(candidate_classes(due.launches)),
        due.launches.map_values(hash_of()),
        ready.parked_crawls,
        ready.history,
        due.budget,
        now,
        (room_for(planner) - due.launches.len()) as usize,
    )
}

/// What a planning round picks of the demands that are due.
pub open spec fn due_picks(planner: PlannerView, now: Instant) -> LaunchFill {
    let ready = made_ready(planner, now);
    due_selection(
        plannable_due(ready, now),
        running(planner),
        ready.parked_crawls,
        ready.history,
        ready.budget,
        now,
        room_for(planner),
    )
}

/// While the idle probe is active, a demand that is wanted, idle and not yet due, and whose torrent
/// takes peers and waits for metadata, has no connected peers or has a swarm that needs support, is
/// started ahead of its time, unless the room, the slots of its class or its tokens are used up.
#[verifier::spinoff_prover]
#[verifier::rlimit(40)]
pub proof fn idle_demands_are_probed(planner: PlannerView, now: Instant, info_hash: InfoHash)
    requires
        planner.entries.contains_key(info_hash),
        planner.entry_keys.contains(info_hash),
        is_idle(planner, info_hash),
        planner.entries[info_hash].next_eligible_at > now,
        ({
            let entry = planner.entries[info_hash];
            &&& entry.metrics.accepting_new_peers && !entry.metrics.paused
            &&& entry.demand.awaiting_metadata || entry.demand.connected_peers == 0
                || needs_support(entry.metrics)
        }),
        planner.probe.observed_status(plannable(made_ready(planner, now)), now).active,
        planner.active_keys.len() + 2 * planner.entry_keys.len() <= usize::MAX,
    ensures
        ({
            let step = planner_step(
                planner,
                DemandPlannerAction::PlanDue { now, runtime_available: true },
            );
            let candidate = candidate_of(snapshot_of(info_hash, planner.entries[info_hash]));
            let due = due_picks(planner, now);
            let probe = probe_picks(planner, now);
            starts(step.effects, info_hash) || !could_launch(
                candidate,
                probe.launches,
                running(planner).recorded_all(candidate_classes(due.launches)),
                probe.budget,
                now,
                (room_for(planner) - due.launches.len()) as nat,
            )
        }),
{
    let step = planner_step(
        planner,
        DemandPlannerAction::PlanDue { now, runtime_available: true },
    );
    let ready = made_ready(planner, now);
    let room = room_for(planner);
    let candidate = candidate_of(snapshot_of(info_hash, planner.entries[info_hash]));
    let due_order = launch_order(
        plannable_due(ready, now),
        ready.parked_crawls,
        ready.history,
        now,
    );
    let due = due_picks(planner, now);
    let probe = probe_picks(planner, now);
    launches_stay_within_limit(due_order, running(planner), ready.budget, now, room as nat);
    let left = (room - due.launches.len()) as usize;
    let excluded = due.launches.map_values(hash_of());
    lemma_not_due(ready, now, running(planner), room, info_hash);
    let eligible = plannable(ready).filter(probe_eligible(excluded, now)).map_values(
        as_candidate(),
    );
    lemma_into_plannable(ready, probe_eligible(excluded, now), info_hash);
    launch_order_holds_all(eligible, ready.parked_crawls, ready.history, now, candidate);
    let order = launch_order(eligible, ready.parked_crawls, ready.history, now);
    let counts = running(planner).recorded_all(candidate_classes(due.launches));
    if left > 0 && !probe.launches.contains(candidate) {
        let class = class_of(candidate.demand);
        lemma_probe_counts(planner, now, class);
        lemma_plannable_len(ready, probe_eligible(excluded, now));
        no_slot_is_left_unused(order, counts, due.budget, now, left as nat, candidate);
    } else if left > 0 {
        let status = planner.probe.observed_status(plannable(ready), now);
        assert(plannable(ready) == plannable(
            PlannerView { parked_crawls: ready.parked_crawls, ..planner },
        ));
        let round = round_launches(ready, status, now, room);
        let fold = StartFold {
            entries: ready.entries,
            history: ready.history,
            pending_starts: ready.pending_starts,
            budget: round.budget,
            effects: seq![],
        };
        let probe_launches = probe.launches.map_values(
            launch_for(DemandSelectionReason::IdleSpeedProbe),
        );
        let k = probe.launches.index_of(candidate);
        assert(probe_launches[k].candidate == candidate);
        assert(round.launches[due.launches.len() + k] == probe_launches[k]);
        let first = lemma_first_with(round.launches, info_hash, due.launches.len() + k);
        lemma_launch_started(fold, round.launches, status, now, first);
        assert(step.effects == start_all(fold, round.launches, status, now).effects);
        let effect = PlannerEffectView::StartLookup(
            DemandStartLookupEffect {
                candidate: round.launches[first].candidate,
                plan: candidate_plan(
                    round.launches[first].candidate,
                    fold.history,
                    round.launches[first].reason,
                    status,
                    now,
                ),
                selection_reason: round.launches[first].reason,
            },
        );
        let i = step.effects.index_of(effect);
        assert(step.effects[i] == effect);
    }
}

/// With room, nothing due and no probe, while nothing runs, spare capacity goes to a demand that may
/// have it, as long as there is a token for it: then one lookup is started.
#[verifier::spinoff_prover]
#[verifier::rlimit(40)]
pub proof fn spare_capacity_is_used(planner: PlannerView, now: Instant, info_hash: InfoHash)
    requires
        planner.entry_keys.contains(info_hash),
        forall|key: InfoHash| #[trigger]
            planner.entry_keys.contains(key) ==> planner.entries.contains_key(key),
        !planner.drains.contains_key(info_hash),
        is_backed_off(
            snapshot_of(info_hash, planner.entries[info_hash]),
            planner.history,
            now,
        ),
        room_for(planner) > 0,
        due_picks(planner, now).launches.len() == 0,
        !planner.probe.observed_status(plannable(made_ready(planner, now)), now).active,
        running(planner) == DemandSlotCounts::zero(),
        due_picks(planner, now).budget.no_connected_peers.refilled(now).tokens_scaled >= 1_000,
    ensures
        ({
            let step = planner_step(
                planner,
                DemandPlannerAction::PlanDue { now, runtime_available: true },
            );
            &&& step.effects.len() == 1
            &&& step.effects[0] matches PlannerEffectView::StartLookup(start)
                && start.selection_reason == DemandSelectionReason::SpareCapacity
        }),
{
    let step = planner_step(
        planner,
        DemandPlannerAction::PlanDue { now, runtime_available: true },
    );
    let ready = made_ready(planner, now);
    let room = room_for(planner);
    let status = planner.probe.observed_status(plannable(ready), now);
    assert(plannable(ready) == plannable(
        PlannerView { parked_crawls: ready.parked_crawls, ..planner },
    ));
    let due = due_picks(planner, now);
    let round = round_launches(ready, status, now, room);
    let pred = spare_eligible(ready.history, now);
    let candidate = candidate_of(snapshot_of(info_hash, planner.entries[info_hash]));
    lemma_into_plannable(ready, pred, info_hash);
    let eligible = plannable(ready).filter(pred).map_values(as_candidate());
    assert(eligible.len() > 0);
    let ranked = spare_ranked(ready.parked_crawls, ready.history, now);
    let order = ordered_by(eligible, ranked);
    rank_order_is_ordered(eligible.map_values(ranked), 6);
    assert(order.len() == eligible.len());
    spare_capacity_launches_one(
        plannable(ready),
        running(planner),
        ready.parked_crawls,
        ready.history,
        due.budget,
        now,
        room,
    );
    let due_launches = due.launches.map_values(launch_due(ready, now));
    assert(due_launches + Seq::<PlannedLaunch>::empty() =~= Seq::<PlannedLaunch>::empty());
    assert(round.launches.len() == 1);
    let launch = round.launches[0];
    assert(launch.candidate == order[0]);
    assert(order.contains(order[0]));
    lemma_ordered_origin(eligible, ranked, 6, launch.candidate);
    lemma_plannable_origin(ready, pred, launch.candidate);
    let fold = StartFold {
        entries: ready.entries,
        history: ready.history,
        pending_starts: ready.pending_starts,
        budget: round.budget,
        effects: seq![],
    };
    lemma_launch_started(fold, round.launches, status, now, 0);
    lemma_no_more_starts(fold, round.launches, status, now);
    assert(step.effects == start_all(fold, round.launches, status, now).effects);
}

proof fn lemma_no_more_starts(
    fold: StartFold,
    launches: Seq<PlannedLaunch>,
    status: DemandPlannerIdleSpeedProbeStatus,
    now: Instant,
)
    ensures
        start_all(fold, launches, status, now).effects.len() <= fold.effects.len() + launches.len(),
    decreases launches.len(),
{
    if launches.len() > 0 {
        lemma_no_more_starts(fold, launches.drop_last(), status, now);
    }
}

/// A planning round starts no more lookups than it has room for, and one with spare capacity only
/// alone.
#[verifier::spinoff_prover]
#[verifier::rlimit(40)]
pub proof fn spare_starts_stand_alone(
    planner: PlannerView,
    now: Instant,
    start: DemandStartLookupEffect,
)
    requires
        planner_step(
            planner,
            DemandPlannerAction::PlanDue { now, runtime_available: true },
        ).effects.contains(PlannerEffectView::StartLookup(start)),
        start.selection_reason == DemandSelectionReason::SpareCapacity,
    ensures
        planner_step(
            planner,
            DemandPlannerAction::PlanDue { now, runtime_available: true },
        ).effects.len() == 1,
{
    let step = planner_step(
        planner,
        DemandPlannerAction::PlanDue { now, runtime_available: true },
    );
    let ready = made_ready(planner, now);
    let room = room_for(planner);
    if room == 0 {
        assert(step.effects.len() == 0);
    }
    let status = planner.probe.observed_status(plannable(ready), now);
    assert(plannable(ready) == plannable(
        PlannerView { parked_crawls: ready.parked_crawls, ..planner },
    ));
    let round = round_launches(ready, status, now, room);
    let fold = StartFold {
        entries: ready.entries,
        history: ready.history,
        pending_starts: ready.pending_starts,
        budget: round.budget,
        effects: seq![],
    };
    assert(step.effects == start_all(fold, round.launches, status, now).effects);
    let k = lemma_started_from(fold, round.launches, status, now, start);
    lemma_spare_part(ready, status, now, room, k);
    lemma_no_more_starts(fold, round.launches, status, now);
}

proof fn lemma_not_due(
    planner: PlannerView,
    now: Instant,
    counts: DemandSlotCounts,
    room: usize,
    info_hash: InfoHash,
)
    requires
        planner.entries[info_hash].next_eligible_at > now,
    ensures
        !due_selection(
            plannable_due(planner, now),
            counts,
            planner.parked_crawls,
            planner.history,
            planner.budget,
            now,
            room,
        ).launches.map_values(hash_of()).contains(info_hash),
{
    let candidates = plannable_due(planner, now);
    let order = launch_order(candidates, planner.parked_crawls, planner.history, now);
    let launches = fill(order, counts, planner.budget, now, room as nat).launches;
    if launches.map_values(hash_of()).contains(info_hash) {
        let i = launches.map_values(hash_of()).index_of(info_hash);
        let candidate = launches[i];
        launches_are_candidates(order, counts, planner.budget, now, room as nat);
        assert(order.contains(launches[i]));
        launch_order_holds_all(candidates, planner.parked_crawls, planner.history, now, candidate);
        due_candidates_are_due_and_idle(planner, now, candidate);
    }
}

proof fn lemma_into_plannable(
    planner: PlannerView,
    pred: spec_fn(DemandEntrySnapshot) -> bool,
    info_hash: InfoHash,
)
    requires
        planner.entry_keys.contains(info_hash),
        !planner.drains.contains_key(info_hash),
        pred(snapshot_of(info_hash, planner.entries[info_hash])),
    ensures
        plannable(planner).filter(pred).map_values(as_candidate()).contains(
            candidate_of(snapshot_of(info_hash, planner.entries[info_hash])),
        ),
{
    let snapshot = snapshot_of(info_hash, planner.entries[info_hash]);
    lemma_snapshot_origin(planner, info_hash);
    lemma_in_filter(planner.snapshots(), not_draining(planner.drains), snapshot);
    lemma_in_filter(plannable(planner), pred, snapshot);
    let kept = plannable(planner).filter(pred);
    let k = kept.index_of(snapshot);
    assert(kept.map_values(as_candidate())[k] == candidate_of(snapshot));
}

proof fn lemma_plannable_len(
    planner: PlannerView,
    pred: spec_fn(DemandEntrySnapshot) -> bool,
)
    ensures
        plannable(planner).filter(pred).len() <= planner.entry_keys.len(),
{
    planner.snapshots().lemma_filter_len(not_draining(planner.drains));
    plannable(planner).lemma_filter_len(pred);
}

proof fn lemma_probe_counts(planner: PlannerView, now: Instant, class: DemandSliceClass)
    requires
        planner.active_keys.len() + planner.entry_keys.len() <= usize::MAX,
    ensures
        running(planner).recorded_all(candidate_classes(due_picks(planner, now).launches)).of(class)
            <= planner.active_keys.len() + planner.entry_keys.len(),
{
    let ready = made_ready(planner, now);
    let classes = active_classes(planner.active_keys, planner.active);
    let launches = due_picks(planner, now).launches;
    let order = launch_order(plannable_due(ready, now), ready.parked_crawls, ready.history, now);
    recorded_all_counts(DemandSlotCounts::zero(), classes, class);
    lemma_total_bound(classes, class);
    lemma_due_len(ready, now);
    rank_order_is_ordered(
        plannable_due(ready, now).map_values(
            due_ranked(ready.parked_crawls, ready.history, now),
        ),
        10,
    );
    lemma_fill_len(order, running(planner), ready.budget, now, room_for(planner) as nat);
    recorded_all_counts(running(planner), candidate_classes(launches), class);
    lemma_total_bound(candidate_classes(launches), class);
}

proof fn lemma_fill_len(
    order: Seq<DueDemandCandidate>,
    counts: DemandSlotCounts,
    budget: DemandPlannerBudget,
    now: Instant,
    limit: nat,
)
    ensures
        fill(order, counts, budget, now, limit).launches.len() <= order.len(),
    decreases order.len(),
{
    if order.len() > 0 {
        lemma_fill_len(order.drop_last(), counts, budget, now, limit);
    }
}

proof fn lemma_total_bound(classes: Seq<DemandSliceClass>, class: DemandSliceClass)
    ensures
        class_total(classes, class) <= classes.len(),
    decreases classes.len(),
{
    if classes.len() > 0 {
        lemma_total_bound(classes.drop_last(), class);
    }
}

proof fn lemma_due_len(planner: PlannerView, now: Instant)
    ensures
        plannable_due(planner, now).len() <= planner.entry_keys.len(),
{
    let all = planner.snapshots();
    all.lemma_filter_len(due_at(now));
    all.filter(due_at(now)).map_values(as_candidate()).lemma_filter_len(
        candidate_not_draining(planner.drains),
    );
}

proof fn lemma_first_with(launches: Seq<PlannedLaunch>, info_hash: InfoHash, k: int) -> (first: int)
    requires
        0 <= k < launches.len(),
        launches[k].candidate.info_hash == info_hash,
    ensures
        0 <= first <= k,
        launches[first].candidate.info_hash == info_hash,
        forall|j: int|
            0 <= j < first ==> (#[trigger] launches[j]).candidate.info_hash != info_hash,
    decreases k,
{
    if exists|j: int| 0 <= j < k && (#[trigger] launches[j]).candidate.info_hash == info_hash {
        let j = choose|j: int|
            0 <= j < k && (#[trigger] launches[j]).candidate.info_hash == info_hash;
        lemma_first_with(launches, info_hash, j)
    } else {
        k
    }
}

/// Each lookup that a planning round starts is for a demand as it stands, that is wanted and idle.
/// It is due, unless it is started ahead of its time for the idle probe while that is active, or with
/// spare capacity.
#[verifier::spinoff_prover]
#[verifier::rlimit(40)]
pub proof fn only_idle_demands_are_started(
    planner: PlannerView,
    now: Instant,
    start: DemandStartLookupEffect,
)
    requires
        planner_step(
            planner,
            DemandPlannerAction::PlanDue { now, runtime_available: true },
        ).effects.contains(PlannerEffectView::StartLookup(start)),
    ensures
        stands_for(start.candidate, planner),
        is_idle(planner, start.candidate.info_hash),
        start.selection_reason == DemandSelectionReason::IdleSpeedProbe || start.selection_reason
            == DemandSelectionReason::SpareCapacity <==> start.candidate.next_eligible_at > now,
        start.selection_reason == DemandSelectionReason::SpareCapacity ==> {
            &&& !start.candidate.demand.awaiting_metadata
            &&& start.candidate.demand.connected_peers == 0
        },
        start.selection_reason == DemandSelectionReason::IdleSpeedProbe
            ==> start.candidate.metrics.accepting_new_peers && !start.candidate.metrics.paused,
        start.selection_reason == DemandSelectionReason::IdleSpeedProbe ==> planner_step(
            planner,
            DemandPlannerAction::PlanDue { now, runtime_available: true },
        ).planner.probe.current_multiplier > 1,
{
    let ready = made_ready(planner, now);
    let room = room_for(planner);
    let step = planner_step(
        planner,
        DemandPlannerAction::PlanDue { now, runtime_available: true },
    );
    if room == 0 {
        assert(step.effects.len() == 0);
    }
    let status = planner.probe.observed_status(plannable(ready), now);
    assert(plannable(ready) == plannable(
        PlannerView { parked_crawls: ready.parked_crawls, ..planner },
    ));
    let round = round_launches(ready, status, now, room);
    let fold = StartFold {
        entries: ready.entries,
        history: ready.history,
        pending_starts: ready.pending_starts,
        budget: round.budget,
        effects: seq![],
    };
    assert(step.effects == start_all(fold, round.launches, status, now).effects);
    let k = lemma_started_from(fold, round.launches, status, now, start);
    lemma_round_origin(ready, status, now, room, k);
}

#[verifier::spinoff_prover]
#[verifier::rlimit(40)]
proof fn lemma_round_origin(
    planner: PlannerView,
    status: DemandPlannerIdleSpeedProbeStatus,
    now: Instant,
    room: usize,
    k: int,
)
    requires
        0 <= k < round_launches(planner, status, now, room).launches.len(),
    ensures
        ({
            let launch = round_launches(planner, status, now, room).launches[k];
            let candidate = launch.candidate;
            &&& stands_for(candidate, planner)
            &&& is_idle(planner, candidate.info_hash)
            &&& launch.reason == DemandSelectionReason::IdleSpeedProbe || launch.reason
                == DemandSelectionReason::SpareCapacity <==> candidate.next_eligible_at > now
            &&& launch.reason == DemandSelectionReason::SpareCapacity
                ==> !candidate.demand.awaiting_metadata && candidate.demand.connected_peers == 0
            &&& launch.reason == DemandSelectionReason::IdleSpeedProbe
                ==> candidate.metrics.accepting_new_peers && !candidate.metrics.paused
                && status.active
        }),
{
    let round = round_launches(planner, status, now, room);
    let launch = round.launches[k];
    let candidate = launch.candidate;
    let counts = running(planner);
    let candidates = plannable_due(planner, now);
    let order = launch_order(candidates, planner.parked_crawls, planner.history, now);
    let due = fill(order, counts, planner.budget, now, room as nat);
    let due_launches = due.launches.map_values(launch_due(planner, now));
    let ranked = due_ranked(planner.parked_crawls, planner.history, now);
    if round.spare_count == 0 && k < due_launches.len() {
        assert(round.launches[k] == due_launches[k]);
        assert(due.launches[k] == candidate);
        launches_are_candidates(order, counts, planner.budget, now, room as nat);
        assert(order.contains(due.launches[k]));
        launch_order_holds_all(candidates, planner.parked_crawls, planner.history, now, candidate);
        due_candidates_are_due_and_idle(planner, now, candidate);
    } else if launch.reason == DemandSelectionReason::SpareCapacity {
        let eligible = plannable(planner).filter(spare_eligible(planner.history, now)).map_values(
            as_candidate(),
        );
        let spare_ranks = spare_ranked(planner.parked_crawls, planner.history, now);
        let spare_order = ordered_by(eligible, spare_ranks);
        lemma_spare_part(planner, status, now, room, k);
        lemma_ordered_origin(eligible, spare_ranks, 6, candidate);
        lemma_plannable_origin(planner, spare_eligible(planner.history, now), candidate);
    } else {
        let left = (room - due_launches.len()) as usize;
        let excluded = due.launches.map_values(hash_of());
        let eligible = plannable(planner).filter(probe_eligible(excluded, now)).map_values(
            as_candidate(),
        );
        let probe_order = ordered_by(eligible, ranked);
        let planned_counts = counts.recorded_all(
            candidate_classes(due.launches),
        );
        let probe = fill(probe_order, planned_counts, due.budget, now, left as nat);
        let m = k - due_launches.len();
        assert(probe.launches[m] == candidate);
        launches_are_candidates(probe_order, planned_counts, due.budget, now, left as nat);
        assert(probe_order.contains(probe.launches[m]));
        lemma_ordered_origin(eligible, ranked, 10, candidate);
        lemma_plannable_origin(planner, probe_eligible(excluded, now), candidate);
    }
}

#[verifier::spinoff_prover]
#[verifier::rlimit(40)]
proof fn lemma_spare_part(
    planner: PlannerView,
    status: DemandPlannerIdleSpeedProbeStatus,
    now: Instant,
    room: usize,
    k: int,
)
    requires
        0 <= k < round_launches(planner, status, now, room).launches.len(),
        round_launches(planner, status, now, room).launches[k].reason
            == DemandSelectionReason::SpareCapacity,
    ensures
        ({
            let eligible = plannable(planner).filter(
                spare_eligible(planner.history, now),
            ).map_values(as_candidate());
            ordered_by(
                eligible,
                spare_ranked(planner.parked_crawls, planner.history, now),
            ).contains(round_launches(planner, status, now, room).launches[k].candidate)
        }),
        round_launches(planner, status, now, room).launches.len() <= 1,
{
    let round = round_launches(planner, status, now, room);
    let candidate = round.launches[k].candidate;
    let counts = running(planner);
    let order = launch_order(plannable_due(planner, now), planner.parked_crawls, planner.history, now);
    let due = fill(order, counts, planner.budget, now, room as nat);
    let due_launches = due.launches.map_values(launch_due(planner, now));
    let probing = status.active && due_launches.len() < room;
    let left = (room - due_launches.len()) as usize;
    let probe = probe_selection(
        plannable(planner),
        counts.recorded_all(candidate_classes(due.launches)),
        due.launches.map_values(hash_of()),
        planner.parked_crawls,
        planner.history,
        due.budget,
        now,
        left,
    );
    let probe_launches = if probing {
        probe.launches.map_values(launch_for(DemandSelectionReason::IdleSpeedProbe))
    } else {
        seq![]
    };
    let planned = due_launches + probe_launches;
    if planned.len() > 0 {
        if k < due_launches.len() {
            assert(planned[k] == due_launches[k]);
            assert(due_launches[k].reason == reason_for(
                due.launches[k],
                planner.parked_crawls,
                planner.history,
                now,
            ));
        } else {
            assert(planned[k] == probe_launches[k - due_launches.len()]);
        }
    } else {
        let budget = if probing {
            probe.budget
        } else {
            due.budget
        };
        let spare = spare_selection(
            plannable(planner),
            counts,
            planner.parked_crawls,
            planner.history,
            budget,
            now,
            room,
        );
        assert(spare.0[k] == candidate);
        assert(spare.0.contains(candidate));
        let eligible = plannable(planner).filter(spare_eligible(planner.history, now)).map_values(
            as_candidate(),
        );
        let spare_order = ordered_by(
            eligible,
            spare_ranked(planner.parked_crawls, planner.history, now),
        );
        let limit: nat = if room < DHT_DEMAND_SPARE_RESEARCH_LAUNCH_LIMIT {
            room as nat
        } else {
            DHT_DEMAND_SPARE_RESEARCH_LAUNCH_LIMIT as nat
        };
        lemma_spare_origin(spare_order, budget, now, limit, candidate);
        spare_launches_stay_within_limit(spare_order, budget, now, limit);
    }
}

// Each launch is started, once, and takes one token.

/// No two items of a list have the same key.
spec fn keys_differ<A>(list: Seq<A>, key: spec_fn(A) -> InfoHash) -> bool {
    forall|i: int, j: int|
        0 <= i < j < list.len() ==> key(#[trigger] list[i]) != key(#[trigger] list[j])
}

proof fn lemma_filter_differs<A>(
    list: Seq<A>,
    pred: spec_fn(A) -> bool,
    key: spec_fn(A) -> InfoHash,
)
    requires
        keys_differ(list, key),
    ensures
        keys_differ(list.filter(pred), key),
    decreases list.len(),
{
    reveal(Seq::filter);
    if list.len() > 0 {
        let rest = list.drop_last();
        let last = list.last();
        assert(keys_differ(rest, key)) by {
            assert forall|i: int, j: int| 0 <= i < j < rest.len() implies key(#[trigger] rest[i])
                != key(#[trigger] rest[j]) by {
                assert(rest[i] == list[i] && rest[j] == list[j]);
            }
        }
        lemma_filter_differs(rest, pred, key);
        let kept = rest.filter(pred);
        if pred(last) {
            let all = list.filter(pred);
            assert forall|i: int, j: int| 0 <= i < j < all.len() implies key(#[trigger] all[i])
                != key(#[trigger] all[j]) by {
                if j == kept.len() {
                    assert(kept.contains(kept[i]));
                    rest.lemma_filter_contains_rev(pred, kept[i]);
                    let k = rest.index_of(kept[i]);
                    assert(list[k] == all[i]);
                    assert(list[list.len() - 1] == all[j]);
                } else {
                    assert(all[i] == kept[i] && all[j] == kept[j]);
                }
            }
        }
    }
}

spec fn snapshot_key() -> spec_fn(DemandEntrySnapshot) -> InfoHash {
    |snapshot: DemandEntrySnapshot| snapshot.info_hash
}

proof fn lemma_snapshots_differ(planner: PlannerView)
    requires
        planner.entry_keys.no_duplicates(),
    ensures
        keys_differ(planner.snapshots(), snapshot_key()),
{
    let all = planner.snapshots();
    assert forall|i: int, j: int| 0 <= i < j < all.len() implies snapshot_key()(#[trigger] all[i])
        != snapshot_key()(#[trigger] all[j]) by {
        assert(all[i].info_hash == planner.entry_keys[i]);
        assert(all[j].info_hash == planner.entry_keys[j]);
    }
}

proof fn lemma_due_differ(planner: PlannerView, now: Instant)
    requires
        planner.entry_keys.no_duplicates(),
    ensures
        distinct_hashes(plannable_due(planner, now)),
{
    lemma_snapshots_differ(planner);
    lemma_filter_differs(planner.snapshots(), due_at(now), snapshot_key());
    let due = planner.snapshots().filter(due_at(now));
    let candidates = due.map_values(as_candidate());
    assert forall|i: int, j: int| 0 <= i < j < candidates.len() implies hash_of()(
        #[trigger] candidates[i],
    ) != hash_of()(#[trigger] candidates[j]) by {
        assert(snapshot_key()(due[i]) != snapshot_key()(due[j]));
    }
    lemma_filter_differs(candidates, candidate_not_draining(planner.drains), hash_of());
    let kept = plannable_due(planner, now);
    assert forall|i: int, j: int| 0 <= i < j < kept.len() implies (#[trigger] kept[i]).info_hash
        != (#[trigger] kept[j]).info_hash by {
        assert(hash_of()(kept[i]) != hash_of()(kept[j]));
    }
}

proof fn lemma_plannable_differ(
    planner: PlannerView,
    pred: spec_fn(DemandEntrySnapshot) -> bool,
)
    requires
        planner.entry_keys.no_duplicates(),
    ensures
        distinct_hashes(plannable(planner).filter(pred).map_values(as_candidate())),
{
    lemma_snapshots_differ(planner);
    lemma_filter_differs(planner.snapshots(), not_draining(planner.drains), snapshot_key());
    lemma_filter_differs(plannable(planner), pred, snapshot_key());
    let kept = plannable(planner).filter(pred);
    let candidates = kept.map_values(as_candidate());
    assert forall|i: int, j: int| 0 <= i < j < candidates.len() implies (
    #[trigger] candidates[i]).info_hash != (#[trigger] candidates[j]).info_hash by {
        assert(snapshot_key()(kept[i]) != snapshot_key()(kept[j]));
    }
}

proof fn lemma_order_differs(
    candidates: Seq<DueDemandCandidate>,
    ranked: spec_fn(DueDemandCandidate) -> (DueDemandCandidate, Seq<u64>),
)
    requires
        distinct_hashes(candidates),
        forall|c: DueDemandCandidate| (#[trigger] ranked(c)).0 == c,
    ensures
        distinct_hashes(ordered_by(candidates, ranked)),
{
    broadcast use vstd::seq_lib::group_to_multiset_ensures;

    let entries = candidates.map_values(ranked);
    let sorted = rank_order(entries);
    let order = ordered_by(candidates, ranked);
    rank_order_keeps_all(entries);
    assert forall|i: int, j: int| 0 <= i < entries.len() && 0 <= j < entries.len() && i
        != j implies entries[i] != entries[j] by {
        assert(entries[i].0 == candidates[i] && entries[j].0 == candidates[j]);
        if i < j {
            assert(candidates[i].info_hash != candidates[j].info_hash);
        } else {
            assert(candidates[j].info_hash != candidates[i].info_hash);
        }
    }
    entries.lemma_multiset_has_no_duplicates();
    sorted.lemma_multiset_has_no_duplicates_conv();
    assert forall|i: int, j: int| 0 <= i < j < order.len() implies (#[trigger] order[i]).info_hash
        != (#[trigger] order[j]).info_hash by {
        assert(sorted[i] != sorted[j]);
        assert(sorted.to_multiset().count(sorted[i]) > 0);
        assert(sorted.to_multiset().count(sorted[j]) > 0);
        assert(entries.contains(sorted[i]) && entries.contains(sorted[j]));
        let k = entries.index_of(sorted[i]);
        let l = entries.index_of(sorted[j]);
        assert(candidates[k] == order[i] && candidates[l] == order[j]);
        if k < l {
            assert(candidates[k].info_hash != candidates[l].info_hash);
        } else {
            assert(candidates[l].info_hash != candidates[k].info_hash);
        }
    }
}

/// No two launches are for the same demand.
spec fn launches_differ(launches: Seq<PlannedLaunch>) -> bool {
    forall|i: int, j: int|
        0 <= i < j < launches.len() ==> (#[trigger] launches[i]).candidate.info_hash != (
        #[trigger] launches[j]).candidate.info_hash
}

#[verifier::spinoff_prover]
#[verifier::rlimit(40)]
proof fn lemma_round_differs(
    planner: PlannerView,
    status: DemandPlannerIdleSpeedProbeStatus,
    now: Instant,
    room: usize,
)
    requires
        planner.entry_keys.no_duplicates(),
    ensures
        launches_differ(round_launches(planner, status, now, room).launches),
{
    let round = round_launches(planner, status, now, room);
    let counts = running(planner);
    let candidates = plannable_due(planner, now);
    let ranked = due_ranked(planner.parked_crawls, planner.history, now);
    let order = ordered_by(candidates, ranked);
    let due = fill(order, counts, planner.budget, now, room as nat);
    lemma_due_differ(planner, now);
    lemma_order_differs(candidates, ranked);
    launches_are_distinct(order, counts, planner.budget, now, room as nat);
    let due_launches = due.launches.map_values(launch_due(planner, now));
    let probing = status.active && due_launches.len() < room;
    let left = (room - due_launches.len()) as usize;
    let excluded = due.launches.map_values(hash_of());
    let eligible = plannable(planner).filter(probe_eligible(excluded, now)).map_values(
        as_candidate(),
    );
    let probe_order = ordered_by(eligible, ranked);
    let planned_counts = counts.recorded_all(candidate_classes(due.launches));
    let probe = fill(probe_order, planned_counts, due.budget, now, left as nat);
    lemma_plannable_differ(planner, probe_eligible(excluded, now));
    lemma_order_differs(eligible, ranked);
    launches_are_distinct(probe_order, planned_counts, due.budget, now, left as nat);
    launches_are_candidates(probe_order, planned_counts, due.budget, now, left as nat);
    let n = due.launches.len();
    if round.spare_count == 0 && round.launches.len() > 0 {
        assert forall|i: int, j: int| 0 <= i < j < round.launches.len() implies (
        #[trigger] round.launches[i]).candidate.info_hash != (
        #[trigger] round.launches[j]).candidate.info_hash by {
            if j < n {
                assert(due.launches[i].info_hash != due.launches[j].info_hash);
            } else {
                let candidate = probe.launches[j - n];
                assert(round.launches[j].candidate == candidate);
                if i < n {
                    assert(probe_order.contains(probe.launches[j - n]));
                    lemma_ordered_origin(eligible, ranked, 10, candidate);
                    lemma_plannable_origin(planner, probe_eligible(excluded, now), candidate);
                    assert(excluded[i] == due.launches[i].info_hash);
                    assert(excluded.contains(due.launches[i].info_hash));
                } else {
                    assert(round.launches[i].candidate == probe.launches[i - n]);
                    assert(probe.launches[i - n].info_hash != probe.launches[j - n].info_hash);
                }
            }
        }
    } else if round.launches.len() > 0 {
        assert(round.launches[0].reason == DemandSelectionReason::SpareCapacity);
        lemma_spare_part(planner, status, now, room, 0);
    }
}

/// Whether the effects from a place on start the launches, one after the other.
spec fn starts_all(
    effects: Seq<PlannerEffectView>,
    from: nat,
    launches: Seq<PlannedLaunch>,
) -> bool {
    &&& effects.len() == from + launches.len()
    &&& forall|i: int|
        0 <= i < launches.len() ==> (effects[from + i] matches PlannerEffectView::StartLookup(start)
            && start.candidate == (#[trigger] launches[i]).candidate && start.plan.class
            == class_of(launches[i].candidate.demand))
}

proof fn lemma_all_started(
    fold: StartFold,
    launches: Seq<PlannedLaunch>,
    status: DemandPlannerIdleSpeedProbeStatus,
    now: Instant,
)
    requires
        launches_differ(launches),
        forall|i: int|
            0 <= i < launches.len() ==> fold.entries.contains_key(
                (#[trigger] launches[i]).candidate.info_hash,
            ) && !fold.entries[launches[i].candidate.info_hash].in_progress,
    ensures
        start_all(fold, launches, status, now).budget == fold.budget,
        starts_all(start_all(fold, launches, status, now).effects, fold.effects.len(), launches),
    decreases launches.len(),
{
    if launches.len() > 0 {
        let rest = launches.drop_last();
        let last = launches.last();
        let n = rest.len() as int;
        assert(launches[n] == last);
        assert forall|i: int| 0 <= i < rest.len() implies #[trigger] rest[i] == launches[i] by {}
        assert(launches_differ(rest));
        lemma_all_started(fold, rest, status, now);
        assert forall|j: int| 0 <= j < rest.len() implies (#[trigger] rest[j]).candidate.info_hash
            != last.candidate.info_hash by {
            assert(launches[j].candidate.info_hash != launches[n].candidate.info_hash);
        }
        lemma_untouched(fold, rest, status, now, last.candidate.info_hash);
        let middle = start_all(fold, rest, status, now);
        let after = start_all(fold, launches, status, now);
        assert forall|i: int| 0 <= i < launches.len() implies (after.effects[fold.effects.len()
            + i] matches PlannerEffectView::StartLookup(start) && start.candidate == (
        #[trigger] launches[i]).candidate && start.plan.class == class_of(
            launches[i].candidate.demand,
        )) by {
            if i < n {
                assert(rest[i] == launches[i]);
                assert(after.effects[fold.effects.len() + i] == middle.effects[fold.effects.len()
                    + i]);
            }
        }
    }
}

/// How many effects start a lookup of a class.
pub open spec fn started_in(effects: Seq<PlannerEffectView>, class: DemandSliceClass) -> nat
    decreases effects.len(),
{
    if effects.len() == 0 {
        0
    } else {
        started_in(effects.drop_last(), class) + match effects.last() {
            PlannerEffectView::StartLookup(start) => if start.plan.class == class {
                1nat
            } else {
                0nat
            },
            _ => 0nat,
        }
    }
}

proof fn lemma_started_in(
    effects: Seq<PlannerEffectView>,
    launches: Seq<PlannedLaunch>,
    class: DemandSliceClass,
)
    requires
        starts_all(effects, 0, launches),
    ensures
        started_in(effects, class) == class_total(launch_classes_of(launches), class),
    decreases launches.len(),
{
    if launches.len() > 0 {
        let rest = launches.drop_last();
        let fewer = effects.drop_last();
        assert forall|i: int| 0 <= i < rest.len() implies (fewer[0 + i] matches
            PlannerEffectView::StartLookup(start) && start.candidate == (
        #[trigger] rest[i]).candidate && start.plan.class == class_of(
            rest[i].candidate.demand,
        )) by {
            assert(rest[i] == launches[i]);
            assert(fewer[i] == effects[i]);
        }
        lemma_started_in(fewer, rest, class);
        assert(launch_classes_of(launches).drop_last() =~= launch_classes_of(rest));
        assert(launches[launches.len() - 1] == launches.last());
        assert(effects[0 + (launches.len() - 1)] == effects.last());
    } else {
        assert(launch_classes_of(launches) =~= Seq::<DemandSliceClass>::empty());
    }
}

/// The classes of launches.
spec fn launch_classes_of(launches: Seq<PlannedLaunch>) -> Seq<DemandSliceClass> {
    launches.map_values(|launch: PlannedLaunch| class_of(launch.candidate.demand))
}

proof fn lemma_spare_tokens(
    order: Seq<DueDemandCandidate>,
    budget: DemandPlannerBudget,
    now: Instant,
    limit: nat,
)
    ensures
        ({
            let (launches, left) = spare_fill(order, budget, now, limit);
            &&& launches.len() * 1_000 + left.no_connected_peers.refilled(now).tokens_scaled
                == budget.no_connected_peers.refilled(now).tokens_scaled
            &&& left.awaiting_metadata == budget.awaiting_metadata
            &&& left.routine_refresh == budget.routine_refresh
        }),
    decreases order.len(),
{
    if order.len() > 0 {
        lemma_spare_tokens(order.drop_last(), budget, now, limit);
    }
}

proof fn lemma_totals_concat(
    left: Seq<DemandSliceClass>,
    right: Seq<DemandSliceClass>,
    class: DemandSliceClass,
)
    ensures
        class_total(left + right, class) == class_total(left, class) + class_total(right, class),
    decreases right.len(),
{
    if right.len() == 0 {
        assert(left + right =~= left);
    } else {
        lemma_totals_concat(left, right.drop_last(), class);
        assert((left + right).drop_last() =~= left + right.drop_last());
    }
}

#[verifier::spinoff_prover]
#[verifier::rlimit(40)]
proof fn lemma_round_tokens(
    planner: PlannerView,
    status: DemandPlannerIdleSpeedProbeStatus,
    now: Instant,
    room: usize,
    class: DemandSliceClass,
)
    ensures
        ({
            let round = round_launches(planner, status, now, room);
            class_total(launch_classes_of(round.launches), class) * 1_000 + round.budget.bucket(
                class,
            ).refilled(now).tokens_scaled == planner.budget.bucket(class).refilled(
                now,
            ).tokens_scaled
        }),
{
    let round = round_launches(planner, status, now, room);
    let counts = running(planner);
    let ranked = due_ranked(planner.parked_crawls, planner.history, now);
    let order = ordered_by(plannable_due(planner, now), ranked);
    let due = fill(order, counts, planner.budget, now, room as nat);
    launches_stay_within_tokens(order, counts, planner.budget, now, room as nat, class);
    let due_launches = due.launches.map_values(launch_due(planner, now));
    let probing = status.active && due_launches.len() < room;
    let left = (room - due_launches.len()) as usize;
    let excluded = due.launches.map_values(hash_of());
    let eligible = plannable(planner).filter(probe_eligible(excluded, now)).map_values(
        as_candidate(),
    );
    let probe_order = ordered_by(eligible, ranked);
    let planned_counts = counts.recorded_all(candidate_classes(due.launches));
    let probe = fill(probe_order, planned_counts, due.budget, now, left as nat);
    launches_stay_within_tokens(probe_order, planned_counts, due.budget, now, left as nat, class);
    let probe_launches = if probing {
        probe.launches.map_values(launch_for(DemandSelectionReason::IdleSpeedProbe))
    } else {
        Seq::<PlannedLaunch>::empty()
    };
    let budget = if probing {
        probe.budget
    } else {
        due.budget
    };
    let planned = due_launches + probe_launches;
    let nothing = Seq::<DemandSliceClass>::empty();
    assert(launch_classes_of(due_launches) =~= candidate_classes(due.launches));
    if probing {
        assert(launch_classes_of(probe_launches) =~= candidate_classes(probe.launches));
    } else {
        assert(launch_classes_of(probe_launches) =~= nothing);
    }
    assert(launch_classes_of(planned) =~= launch_classes_of(due_launches) + launch_classes_of(
        probe_launches,
    ));
    lemma_totals_concat(launch_classes_of(due_launches), launch_classes_of(probe_launches), class);
    assert(class_total(nothing, class) == 0);
    if planned.len() == 0 {
        assert(launch_classes_of(planned) =~= nothing);
        let spare = spare_selection(
            plannable(planner),
            counts,
            planner.parked_crawls,
            planner.history,
            budget,
            now,
            room,
        );
        let pred = spare_eligible(planner.history, now);
        let wanted = plannable(planner).filter(pred).map_values(as_candidate());
        let spare_ranks = spare_ranked(planner.parked_crawls, planner.history, now);
        let limit: nat = if room < DHT_DEMAND_SPARE_RESEARCH_LAUNCH_LIMIT {
            room as nat
        } else {
            DHT_DEMAND_SPARE_RESEARCH_LAUNCH_LIMIT as nat
        };
        let spare_order = ordered_by(wanted, spare_ranks);
        lemma_spare_tokens(spare_order, budget, now, limit);
        if spare.0.len() > 0 {
            assert(round.launches[0].reason == DemandSelectionReason::SpareCapacity);
            lemma_spare_part(planner, status, now, room, 0);
            assert(spare.0.contains(spare.0[0]));
            lemma_spare_origin(spare_order, budget, now, limit, spare.0[0]);
            lemma_ordered_origin(wanted, spare_ranks, 6, spare.0[0]);
            lemma_plannable_origin(planner, pred, spare.0[0]);
            assert(launch_classes_of(round.launches) =~= seq![DemandSliceClass::NoConnectedPeers]);
            assert(seq![DemandSliceClass::NoConnectedPeers].drop_last() =~= nothing);
            reveal_with_fuel(class_total, 2);
        } else {
            assert(launch_classes_of(round.launches) =~= nothing);
        }
    }
}

/// Each lookup that a planning round starts takes one token out of the bucket of its class, and
/// nothing else takes one.
#[verifier::spinoff_prover]
#[verifier::rlimit(40)]
pub proof fn each_start_takes_one_token(
    planner: PlannerView,
    now: Instant,
    class: DemandSliceClass,
)
    requires
        planner.entry_keys.no_duplicates(),
        forall|key: InfoHash| #[trigger]
            planner.entry_keys.contains(key) ==> planner.entries.contains_key(key),
        room_for(planner) > 0,
    ensures
        ({
            let step = planner_step(
                planner,
                DemandPlannerAction::PlanDue { now, runtime_available: true },
            );
            step.planner.budget.bucket(class).tokens_scaled + 1_000 * started_in(
                step.effects,
                class,
            ) == planner.budget.bucket(class).refilled(now).tokens_scaled
        }),
{
    let step = planner_step(
        planner,
        DemandPlannerAction::PlanDue { now, runtime_available: true },
    );
    let ready = made_ready(planner, now);
    let room = room_for(planner);
    let status = planner.probe.observed_status(plannable(ready), now);
    assert(plannable(ready) == plannable(
        PlannerView { parked_crawls: ready.parked_crawls, ..planner },
    ));
    let round = round_launches(ready, status, now, room);
    let fold = StartFold {
        entries: ready.entries,
        history: ready.history,
        pending_starts: ready.pending_starts,
        budget: round.budget,
        effects: seq![],
    };
    lemma_round_differs(ready, status, now, room);
    assert forall|i: int| 0 <= i < round.launches.len() implies fold.entries.contains_key(
        (#[trigger] round.launches[i]).candidate.info_hash,
    ) && !fold.entries[round.launches[i].candidate.info_hash].in_progress by {
        lemma_round_origin(ready, status, now, room, i);
    }
    lemma_all_started(fold, round.launches, status, now);
    assert(step.effects == start_all(fold, round.launches, status, now).effects);
    lemma_started_in(step.effects, round.launches, class);
    lemma_round_tokens(ready, status, now, room, class);
}

/// A demand that a planning round does not start stays as it was, with what is remembered of it.
#[verifier::spinoff_prover]
#[verifier::rlimit(40)]
pub proof fn unstarted_demands_stay(planner: PlannerView, now: Instant, info_hash: InfoHash)
    requires
        planner.entry_keys.no_duplicates(),
        forall|key: InfoHash| #[trigger]
            planner.entry_keys.contains(key) ==> planner.entries.contains_key(key),
        !starts(
            planner_step(
                planner,
                DemandPlannerAction::PlanDue { now, runtime_available: true },
            ).effects,
            info_hash,
        ),
    ensures
        ({
            let after = planner_step(
                planner,
                DemandPlannerAction::PlanDue { now, runtime_available: true },
            ).planner;
            &&& after.entries.contains_key(info_hash) == planner.entries.contains_key(info_hash)
            &&& after.entries[info_hash] == planner.entries[info_hash]
            &&& after.history.contains_key(info_hash) == planner.history.contains_key(info_hash)
            &&& after.history[info_hash] == planner.history[info_hash]
            &&& after.active == planner.active && after.drains == planner.drains
            &&& after.pending_parks == planner.pending_parks
            &&& after.entry_keys == planner.entry_keys
        }),
{
    let step = planner_step(
        planner,
        DemandPlannerAction::PlanDue { now, runtime_available: true },
    );
    let ready = made_ready(planner, now);
    let room = room_for(planner);
    if room > 0 {
        let status = planner.probe.observed_status(plannable(ready), now);
        assert(plannable(ready) == plannable(
            PlannerView { parked_crawls: ready.parked_crawls, ..planner },
        ));
        let round = round_launches(ready, status, now, room);
        let fold = StartFold {
            entries: ready.entries,
            history: ready.history,
            pending_starts: ready.pending_starts,
            budget: round.budget,
            effects: seq![],
        };
        lemma_round_differs(ready, status, now, room);
        assert forall|i: int| 0 <= i < round.launches.len() implies fold.entries.contains_key(
            (#[trigger] round.launches[i]).candidate.info_hash,
        ) && !fold.entries[round.launches[i].candidate.info_hash].in_progress by {
            lemma_round_origin(ready, status, now, room, i);
        }
        lemma_all_started(fold, round.launches, status, now);
        assert(step.effects == start_all(fold, round.launches, status, now).effects);
        assert forall|j: int| 0 <= j < round.launches.len() implies (
        #[trigger] round.launches[j]).candidate.info_hash != info_hash by {
            assert(step.effects[0 + j] is StartLookup);
        }
        lemma_untouched(fold, round.launches, status, now, info_hash);
    }
}

} // verus!
