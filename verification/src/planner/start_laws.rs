use vstd::prelude::*;

use crate::clock::Instant;
use crate::ids::InfoHash;
use crate::limits::DHT_PLANNER_TOKEN_SCALE;
use crate::planner::actions::{DemandPlannerAction, DemandStartLookupEffect, PlannerEffectView};
use crate::planner::drain::kept_crawls;
use crate::planner::invariants::is_consistent;
use crate::planner::lookups::launch_budget;
use crate::planner::model::PlannerView;
use crate::planner::probe::DemandPlannerIdleSpeedProbeStatus;
use crate::planner::step::{
    plannable, planner_step, round_launches, start_all, PlannedLaunch, PlannerStep, StartFold,
};
use crate::scheduler::{
    finished_entry, lemma_doubled_grows, DemandEntry, DemandFinishMode, DemandIntervals,
};
use crate::slice::DemandSliceClass;

verus! {

/// The lesser of a number of tokens and a burst.
pub open spec fn at_most(tokens: int, burst: int) -> int {
    if tokens < burst {
        tokens
    } else {
        burst
    }
}

/// Whether a failed start has been undone: nothing is asked for, the start is no longer pending,
/// the demand is no longer marked, its token is back as far as the burst allows, and the other
/// buckets and all that runs, drains or is parked are as they were.
pub open spec fn start_is_undone(
    before: PlannerView,
    step: PlannerStep,
    info_hash: InfoHash,
    class: DemandSliceClass,
) -> bool {
    let after = step.planner;
    &&& step.effects == Seq::<PlannerEffectView>::empty()
    &&& step.plan_stats.is_none()
    &&& !after.pending_starts.contains_key(info_hash)
    &&& after.pending_starts == before.pending_starts.remove(info_hash)
    &&& after.entries.contains_key(info_hash)
    &&& !after.entries[info_hash].in_progress
    &&& after.budget.bucket(class).tokens_scaled == at_most(
        before.budget.bucket(class).tokens_scaled + DHT_PLANNER_TOKEN_SCALE,
        before.budget.bucket(class).burst_scaled as int,
    )
    &&& forall|other: DemandSliceClass|
        other != class ==> #[trigger] after.budget.bucket(other) == before.budget.bucket(other)
    &&& after.active == before.active
    &&& after.active_keys == before.active_keys
    &&& after.drains == before.drains
    &&& after.drain_keys == before.drain_keys
    &&& after.parked_crawls == before.parked_crawls
    &&& after.pending_parks == before.pending_parks
    &&& forall|key: InfoHash|
        key != info_hash && #[trigger] before.entries.contains_key(key)
            ==> after.entries.contains_key(key) && after.entries[key] == before.entries[key]
}

/// Whether there is a pause after every lookup.
pub open spec fn pauses_are_positive(intervals: DemandIntervals) -> bool {
    &&& intervals.routine > 0
    &&& intervals.no_connected_peers_base > 0
    &&& intervals.no_connected_peers_max > 0
    &&& intervals.awaiting_metadata > 0
}

proof fn lemma_due_later(
    intervals: DemandIntervals,
    entry: DemandEntry,
    now: Instant,
    mode: DemandFinishMode,
)
    requires
        pauses_are_positive(intervals),
        now < u64::MAX,
        !entry.retrigger_pending,
    ensures
        finished_entry(intervals, entry, now, mode).next_eligible_at > now,
{
    let skipped: u32 = if mode == DemandFinishMode::AcceleratedNoConnectedPeersBackoff {
        1
    } else {
        0
    };
    lemma_doubled_grows(
        intervals.no_connected_peers_base as nat,
        0,
        entry.no_connected_peers_backoff_step.saturating_add(skipped) as nat,
    );
}

/// A start that fails is undone, in every planner that knows of the demand, whatever became of other
/// demands since it was asked for. Its demand is due again later than now, unless it became more
/// urgent since, which makes it due now. There is a later time as long as there are pauses and the
/// clock is not at its end.
pub proof fn failed_start_is_undone(
    planner: PlannerView,
    info_hash: InfoHash,
    class: DemandSliceClass,
    now: Instant,
)
    requires
        planner.entries.contains_key(info_hash),
    ensures
        ({
            let step = planner_step(
                planner,
                DemandPlannerAction::LookupStartFailed { info_hash, slice_class: class, now },
            );
            let next = step.planner.entries[info_hash].next_eligible_at;
            &&& start_is_undone(planner, step, info_hash, class)
            &&& planner.entries[info_hash].retrigger_pending ==> next == now
            &&& !planner.entries[info_hash].retrigger_pending && pauses_are_positive(
                planner.intervals,
            ) && now < u64::MAX ==> next > now
        }),
{
    let entry = planner.entries[info_hash];
    if !entry.retrigger_pending && pauses_are_positive(planner.intervals) && now < u64::MAX {
        lemma_due_later(planner.intervals, entry, now, DemandFinishMode::Standard);
    }
    let step = planner_step(
        planner,
        DemandPlannerAction::LookupStartFailed { info_hash, slice_class: class, now },
    );
    assert(step.effects =~= Seq::<PlannerEffectView>::empty());
}

/// Whether each start that was asked for is pending in its class, for a demand that was idle before
/// and has only been marked since.
spec fn starts_are_pending(before: StartFold, after: StartFold) -> bool {
    forall|i: int|
        0 <= i < after.effects.len() ==> match #[trigger] after.effects[i] {
            PlannerEffectView::StartLookup(start) => {
                let key = start.candidate.info_hash;
                &&& after.pending_starts.contains_key(key)
                &&& after.pending_starts[key] == start.plan.class
                &&& before.entries.contains_key(key)
                &&& !before.entries[key].in_progress
                &&& after.entries.contains_key(key)
                &&& after.entries[key] == (DemandEntry {
                    in_progress: true,
                    ..before.entries[key]
                })
            },
            _ => false,
        }
}

/// Whether entries have at most been marked.
spec fn entries_at_most_marked(before: StartFold, after: StartFold) -> bool {
    &&& forall|key: InfoHash| #[trigger]
        after.entries.contains_key(key) <==> before.entries.contains_key(key)
    &&& forall|key: InfoHash| #[trigger]
        after.entries.contains_key(key) ==> after.entries[key] == before.entries[key]
            || after.entries[key] == (DemandEntry { in_progress: true, ..before.entries[key] })
}

proof fn lemma_starts_pending(
    before: StartFold,
    launches: Seq<PlannedLaunch>,
    status: DemandPlannerIdleSpeedProbeStatus,
    now: Instant,
)
    requires
        before.effects.len() == 0,
    ensures
        starts_are_pending(before, start_all(before, launches, status, now)),
        entries_at_most_marked(before, start_all(before, launches, status, now)),
    decreases launches.len(),
{
    if launches.len() > 0 {
        let rest = launches.drop_last();
        lemma_starts_pending(before, rest, status, now);
        let middle = start_all(before, rest, status, now);
        let after = start_all(before, launches, status, now);
        let key = launches.last().candidate.info_hash;
        if middle.entries.contains_key(key) && !middle.entries[key].in_progress {
            assert(middle.entries[key] == before.entries[key]);
            assert forall|i: int| 0 <= i < after.effects.len() implies match
                #[trigger] after.effects[i] {
                PlannerEffectView::StartLookup(start) => {
                    let other = start.candidate.info_hash;
                    &&& after.pending_starts.contains_key(other)
                    &&& after.pending_starts[other] == start.plan.class
                    &&& before.entries.contains_key(other)
                    &&& !before.entries[other].in_progress
                    &&& after.entries.contains_key(other)
                    &&& after.entries[other] == (DemandEntry {
                        in_progress: true,
                        ..before.entries[other]
                    })
                },
                _ => false,
            } by {
                if i < middle.effects.len() {
                    assert(after.effects[i] == middle.effects[i]);
                }
            }
            assert forall|other: InfoHash| #[trigger]
                after.entries.contains_key(other) <==> before.entries.contains_key(other) by {
                assert(middle.entries.contains_key(other) <==> before.entries.contains_key(other));
            }
            assert forall|other: InfoHash| #[trigger]
                after.entries.contains_key(other) implies after.entries[other]
                == before.entries[other] || after.entries[other] == (DemandEntry {
                in_progress: true,
                ..before.entries[other]
            }) by {
                assert(middle.entries.contains_key(other));
            }
        }
    }
}

/// A start that a planning round asked for and that fails is undone, in every planner: nothing is
/// asked for, the demand is no longer marked, and its token is back as far as the burst allows. The
/// other buckets and all that runs, drains or is parked are as they were. The demand is due again
/// later than now, as long as there are pauses, the clock is not at its end, and the demand was not
/// to be looked up again at once before the round already.
pub proof fn failed_start_after_planning_is_undone(
    planner: PlannerView,
    start: DemandStartLookupEffect,
    now: Instant,
)
    requires
        planner_step(
            planner,
            DemandPlannerAction::PlanDue { now, runtime_available: true },
        ).effects.contains(PlannerEffectView::StartLookup(start)),
    ensures
        ({
            let planned = planner_step(
                planner,
                DemandPlannerAction::PlanDue { now, runtime_available: true },
            ).planner;
            let info_hash = start.candidate.info_hash;
            let step = planner_step(
                planned,
                DemandPlannerAction::LookupStartFailed {
                    info_hash,
                    slice_class: start.plan.class,
                    now,
                },
            );
            &&& planner.entries.contains_key(info_hash) && !planner.entries[info_hash].in_progress
            &&& planned.pending_starts.contains_key(info_hash)
            &&& planned.pending_starts[info_hash] == start.plan.class
            &&& planned.entries.contains_key(info_hash) && planned.entries[info_hash].in_progress
            &&& start_is_undone(planned, step, info_hash, start.plan.class)
            &&& !planner.entries[info_hash].retrigger_pending && pauses_are_positive(
                planner.intervals,
            ) && now < u64::MAX ==> step.planner.entries[info_hash].next_eligible_at > now
        }),
{
    let action = DemandPlannerAction::PlanDue { now, runtime_available: true };
    let planned = planner_step(planner, action);
    let info_hash = start.candidate.info_hash;
    let effect = PlannerEffectView::StartLookup(start);
    let i = planned.effects.index_of(effect);
    assert(planned.effects[i] == effect);
    let room = launch_budget(
        planner.active_keys.len() as usize,
        planner.drain_keys.len() as usize,
    );
    assert(room > 0);
    let swept = PlannerView { parked_crawls: kept_crawls(planner.parked_crawls, now), ..planner };
    let status = planner.probe.observed_status(plannable(swept), now);
    let ready = PlannerView { budget: planner.budget.refilled(now), ..swept };
    let round = round_launches(ready, status, now, room);
    let before = StartFold {
        entries: ready.entries,
        history: ready.history,
        pending_starts: ready.pending_starts,
        budget: round.budget,
        effects: seq![],
    };
    let after = start_all(before, round.launches, status, now);
    lemma_starts_pending(before, round.launches, status, now);
    assert(after.effects[i] == effect);
    failed_start_is_undone(planned.planner, info_hash, start.plan.class, now);
}

/// In a consistent planner no demand is to be looked up again at once while nothing runs for it, and
/// there are pauses: a start that a planning round asked for and that fails leaves its demand due
/// later than now.
pub proof fn failed_start_is_tried_later(
    planner: PlannerView,
    start: DemandStartLookupEffect,
    now: Instant,
)
    requires
        is_consistent(planner),
        now < u64::MAX,
        planner_step(
            planner,
            DemandPlannerAction::PlanDue { now, runtime_available: true },
        ).effects.contains(PlannerEffectView::StartLookup(start)),
    ensures
        ({
            let planned = planner_step(
                planner,
                DemandPlannerAction::PlanDue { now, runtime_available: true },
            ).planner;
            let info_hash = start.candidate.info_hash;
            let step = planner_step(
                planned,
                DemandPlannerAction::LookupStartFailed {
                    info_hash,
                    slice_class: start.plan.class,
                    now,
                },
            );
            &&& start_is_undone(planned, step, info_hash, start.plan.class)
            &&& step.planner.entries[info_hash].next_eligible_at > now
        }),
{
    failed_start_after_planning_is_undone(planner, start, now);
}

} // verus!
