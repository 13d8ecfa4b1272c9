use std::collections::VecDeque;

use vstd::prelude::*;

use crate::clock::Instant;
use crate::ids::InfoHash;
use crate::planner::actions::{
    effects_view, effects_wf, DemandPlannerAction, DemandPlannerEffect, PlannerEffectView,
};
use crate::planner::drain::{admission_of, drain_turn, finalize_turn, ledger_view, parked_lookups};
use crate::planner::metrics::DemandSliceMetrics;
use crate::planner::model::{DemandPlannerModel, PlannerView};
use crate::planner::step::planner_step;
use crate::runtime::ledger::{LedgerView, LookupLedger};
use crate::slice::DemandSliceStopReason;
use crate::table::keys_after_remove;

verus! {

/// The planner, the runtime's ledger and the counts while effects are carried out.
#[verifier::ext_equal]
pub struct Applied {
    pub planner: PlannerView,
    pub ledger: Option<LedgerView>,
    pub metrics: DemandSliceMetrics,
    /// Whether some drain has come to its end.
    pub finalized: bool,
}

/// Bringing a drain to its end, with all that follows: the planner learns of it, and the slice is
/// counted.
pub open spec fn drain_finished(
    before: Applied,
    info_hash: InfoHash,
    force: bool,
    now: Instant,
) -> Applied {
    let turn = finalize_turn(
        before.ledger,
        before.planner.parked_crawls,
        before.planner.drains,
        info_hash,
        force,
        now,
    );
    match turn.outcome {
        None => Applied {
            planner: PlannerView {
                parked_crawls: turn.parked_crawls,
                drains: turn.drains,
                ..before.planner
            },
            ledger: turn.ledger,
            ..before
        },
        Some(outcome) => Applied {
            planner: planner_step(
                PlannerView {
                    parked_crawls: turn.parked_crawls,
                    drains: turn.drains,
                    drain_keys: keys_after_remove(before.planner.drain_keys, info_hash),
                    ..before.planner
                },
                DemandPlannerAction::DrainedLookupFinalized {
                    info_hash,
                    outcome,
                    previous: before.planner.snapshot(info_hash),
                    now,
                },
            ).planner,
            ledger: turn.ledger,
            metrics: before.metrics.with_stop(
                outcome.slice_class,
                outcome.stop_reason,
                outcome.total_peers,
                outcome.unique_peers,
            ),
            finalized: true,
        },
    }
}

/// Carrying out one effect, and the effects that follow from it.
pub open spec fn applied_one(
    before: Applied,
    effect: PlannerEffectView,
    now: Instant,
) -> (Applied, Seq<PlannerEffectView>) {
    match effect {
        PlannerEffectView::StartLookup(_) => (before, seq![]),
        PlannerEffectView::LookupFinished(finished) => (
            Applied {
                metrics: before.metrics.with_stop(
                    finished.slice_class,
                    DemandSliceStopReason::NaturalFinish,
                    finished.total_peers,
                    finished.unique_peers,
                ),
                ..before
            },
            seq![],
        ),
        PlannerEffectView::AdmitDrain {
            info_hash,
            slice_class,
            stop_reason,
            total_peers,
            unique_peers,
            lookup_ids,
            previous,
        } => {
            let turn = drain_turn(
                before.ledger,
                before.planner.parked_crawls,
                before.planner.drains,
                before.planner.drain_keys,
                info_hash,
                slice_class,
                stop_reason,
                total_peers,
                unique_peers,
                lookup_ids,
                now,
            );
            let step = planner_step(
                PlannerView {
                    parked_crawls: turn.parked_crawls,
                    drains: turn.drains,
                    drain_keys: turn.drain_keys,
                    ..before.planner
                },
                DemandPlannerAction::LookupParkResolved {
                    info_hash,
                    slice_class,
                    stop_reason,
                    total_peers,
                    unique_peers: unique_peers.len() as usize,
                    parked_outcome: turn.outcome,
                    drain_admission: if turn.drains.contains_key(info_hash) {
                        Some(admission_of(turn.drains[info_hash]))
                    } else {
                        None
                    },
                    previous,
                    now,
                },
            );
            (Applied { planner: step.planner, ledger: turn.ledger, ..before }, step.effects)
        },
        PlannerEffectView::LookupParked(parked) => (
            if parked.drain_admission.is_none() {
                Applied {
                    metrics: before.metrics.with_stop(
                        parked.slice_class,
                        parked.stop_reason,
                        parked.total_peers,
                        parked.unique_peers,
                    ),
                    ..before
                }
            } else {
                before
            },
            seq![],
        ),
        PlannerEffectView::DrainFinalized(finalized) => (
            Applied {
                metrics: before.metrics.with_stop(
                    finalized.outcome.slice_class,
                    finalized.outcome.stop_reason,
                    finalized.outcome.total_peers,
                    finalized.outcome.unique_peers,
                ),
                ..before
            },
            seq![],
        ),
        PlannerEffectView::ParkActiveLookup { info_hash, slice_class, lookup_ids } => {
            let parking = parked_lookups(
                before.ledger,
                before.planner.parked_crawls,
                info_hash,
                slice_class,
                None,
                0,
                lookup_ids,
                now,
            );
            (
                Applied {
                    planner: PlannerView {
                        parked_crawls: parking.parked_crawls,
                        ..before.planner
                    },
                    ledger: parking.ledger,
                    ..before
                },
                seq![],
            )
        },
        PlannerEffectView::CancelDrainingLookup { info_hash, lookup_ids } => (
            Applied {
                ledger: match before.ledger {
                    Some(ledger) => Some(ledger.cancelled_all(lookup_ids)),
                    None => None,
                },
                ..before
            },
            seq![],
        ),
        PlannerEffectView::FinalizeDrainingLookup(finalize) => (
            drain_finished(before, finalize.info_hash, finalize.force, now),
            seq![],
        ),
        PlannerEffectView::DrainPeersRecorded(_) => (before, seq![]),
    }
}

/// How many more effects a queue can lead to: a stopped lookup leads to two more, the others to
/// none.
pub open spec fn workload(queue: Seq<PlannerEffectView>) -> nat
    decreases queue.len(),
{
    if queue.len() == 0 {
        0
    } else {
        workload(queue.drop_last()) + effect_work(queue.last())
    }
}

/// The work that one effect leads to.
pub open spec fn effect_work(effect: PlannerEffectView) -> nat {
    if effect is AdmitDrain {
        3
    } else {
        1
    }
}

proof fn lemma_workload_first(queue: Seq<PlannerEffectView>)
    requires
        queue.len() > 0,
    ensures
        workload(queue) == effect_work(queue[0]) + workload(queue.drop_first()),
    decreases queue.len(),
{
    if queue.len() > 1 {
        lemma_workload_first(queue.drop_last());
        assert(queue.drop_first().drop_last() =~= queue.drop_last().drop_first());
    } else {
        assert(queue.drop_first() =~= Seq::<PlannerEffectView>::empty());
        assert(queue.drop_last() =~= Seq::<PlannerEffectView>::empty());
    }
}

proof fn lemma_workload_concat(left: Seq<PlannerEffectView>, right: Seq<PlannerEffectView>)
    ensures
        workload(left + right) == workload(left) + workload(right),
    decreases right.len(),
{
    if right.len() > 0 {
        lemma_workload_concat(left, right.drop_last());
        assert((left + right).drop_last() =~= left + right.drop_last());
    } else {
        assert(left + right =~= left);
    }
}

/// Carrying out one effect leaves less work behind.
pub proof fn lemma_workload_shrinks(before: Applied, queue: Seq<PlannerEffectView>, now: Instant)
    requires
        queue.len() > 0,
    ensures
        workload(queue.drop_first() + applied_one(before, queue[0], now).1) < workload(queue),
{
    let followups = applied_one(before, queue[0], now).1;
    lemma_workload_first(queue);
    lemma_workload_concat(queue.drop_first(), followups);
    reveal_with_fuel(workload, 3);
    assert(workload(followups) < effect_work(queue[0])) by {
        if followups.len() == 2 {
            assert(followups.drop_last().drop_last() =~= Seq::<PlannerEffectView>::empty());
        } else if followups.len() == 1 {
            assert(followups.drop_last() =~= Seq::<PlannerEffectView>::empty());
        }
    }
}

/// Carrying out effects in their order, those that follow from one behind all others.
pub open spec fn applied_all(before: Applied, queue: Seq<PlannerEffectView>, now: Instant) -> Applied
    decreases workload(queue),
    via applied_all_decreases
{
    if queue.len() == 0 {
        before
    } else {
        let (after, followups) = applied_one(before, queue[0], now);
        applied_all(after, queue.drop_first() + followups, now)
    }
}

#[via_fn]
proof fn applied_all_decreases(before: Applied, queue: Seq<PlannerEffectView>, now: Instant) {
    if queue.len() > 0 {
        lemma_workload_shrinks(before, queue, now);
    }
}

/// Brings the drain of a demand to its end, where it is ready or forced. Says whether it came to
/// its end.
pub fn finish_drained_demand_lookup(
    active_runtime: &mut Option<LookupLedger>,
    demand_planner: &mut DemandPlannerModel,
    slice_metrics: &mut DemandSliceMetrics,
    info_hash: InfoHash,
    force: bool,
    now: Instant,
) -> (finished: bool)
    requires
        old(demand_planner).wf(),
    ensures
        (Applied {
            planner: final(demand_planner)@,
            ledger: ledger_view(*final(active_runtime)),
            metrics: *final(slice_metrics),
            finalized: finished,
        }) == drain_finished(
            Applied {
                planner: old(demand_planner)@,
                ledger: ledger_view(*old(active_runtime)),
                metrics: *old(slice_metrics),
                finalized: false,
            },
            info_hash,
            force,
            now,
        ),
        final(demand_planner).wf(),
{
    let previous = demand_planner.entry_snapshot(info_hash);
    match demand_planner.finalize_drained_lookup(active_runtime, info_hash, force, now) {
        None => false,
        Some(outcome) => {
            let reduction = demand_planner.update(
                DemandPlannerAction::DrainedLookupFinalized { info_hash, outcome, previous, now },
            );
            slice_metrics.record_stop(
                outcome.slice_class,
                outcome.stop_reason,
                outcome.total_peers,
                outcome.unique_peers,
            );
            true
        },
    }
}

/// Carries effects out in their order, those that follow from one behind all others. Says whether
/// some drain has come to its end.
pub fn apply_demand_planner_effects(
    active_runtime: &mut Option<LookupLedger>,
    demand_planner: &mut DemandPlannerModel,
    slice_metrics: &mut DemandSliceMetrics,
    effects: Vec<DemandPlannerEffect>,
    now: Instant,
) -> (finalized_any: bool)
    requires
        old(demand_planner).wf(),
        effects_wf(effects@),
    ensures
        (Applied {
            planner: final(demand_planner)@,
            ledger: ledger_view(*final(active_runtime)),
            metrics: *final(slice_metrics),
            finalized: finalized_any,
        }) == applied_all(
            Applied {
                planner: old(demand_planner)@,
                ledger: ledger_view(*old(active_runtime)),
                metrics: *old(slice_metrics),
                finalized: false,
            },
            effects_view(effects@),
            now,
        ),
        final(demand_planner).wf(),
{
    let ghost start = Applied {
        planner: demand_planner@,
        ledger: ledger_view(*active_runtime),
        metrics: *slice_metrics,
        finalized: false,
    };
    let ghost goal = applied_all(start, effects_view(effects@), now);
    let mut finalized_any = false;
    let mut pending_effects: VecDeque<DemandPlannerEffect> = VecDeque::new();
    enqueue(&mut pending_effects, effects);
    assert(effects_view(pending_effects@) =~= effects_view(effects@));

    loop
        invariant
            demand_planner.wf(),
            effects_wf(pending_effects@),
            goal == applied_all(
                Applied {
                    planner: demand_planner@,
                    ledger: ledger_view(*active_runtime),
                    metrics: *slice_metrics,
                    finalized: finalized_any,
                },
                effects_view(pending_effects@),
                now,
            ),
        ensures
            pending_effects@.len() == 0,
        decreases workload(effects_view(pending_effects@)),
    {
        let ghost before = Applied {
            planner: demand_planner@,
            ledger: ledger_view(*active_runtime),
            metrics: *slice_metrics,
            finalized: finalized_any,
        };
        let ghost queue = effects_view(pending_effects@);
        let ghost raw = pending_effects@;
        let effect = match pending_effects.pop_front() {
            Some(effect) => effect,
            None => break ,
        };
        proof {
            assert(raw[0] == effect);
            assert(effect.wf());
            assert(queue[0] == effect@);
            assert(effects_view(pending_effects@) =~= queue.drop_first());
            assert(effects_wf(pending_effects@)) by {
                assert forall|i: int| 0 <= i < pending_effects@.len() implies (
                #[trigger] pending_effects@[i]).wf() by {
                    assert(pending_effects@[i] == raw[i + 1]);
                }
            }
            lemma_workload_shrinks(before, queue, now);
            assert(queue.drop_first() + Seq::<PlannerEffectView>::empty() =~= queue.drop_first());
        }
        match effect {
            DemandPlannerEffect::LookupFinished(finished) => {
                slice_metrics.record_stop(
                    finished.slice_class,
                    DemandSliceStopReason::NaturalFinish,
                    finished.total_peers,
                    finished.unique_peers,
                );
            },
            DemandPlannerEffect::AdmitDrain(stopped) => {
                let initial_unique_peers: usize = stopped.unique_peers.len();
                let parked_outcome = demand_planner.drain_lookup_ids(
                    active_runtime,
                    stopped.info_hash,
                    stopped.slice_class,
                    stopped.stop_reason,
                    stopped.total_peers,
                    stopped.unique_peers,
                    stopped.lookup_ids,
                    now,
                );
                let drain_admission = demand_planner.drain_admission_snapshot(stopped.info_hash);
                let resolved = demand_planner.update(
                    DemandPlannerAction::LookupParkResolved {
                        info_hash: stopped.info_hash,
                        slice_class: stopped.slice_class,
                        stop_reason: stopped.stop_reason,
                        total_peers: stopped.total_peers,
                        unique_peers: initial_unique_peers,
                        parked_outcome,
                        drain_admission,
                        previous: stopped.previous,
                        now,
                    },
                );
                let ghost waiting = pending_effects@;
                let ghost resolved_effects = resolved.effects@;
                enqueue(&mut pending_effects, resolved.effects);
                proof {
                    assert(effects_view(pending_effects@) =~= effects_view(waiting) + effects_view(
                        resolved_effects,
                    ));
                    assert(effects_wf(pending_effects@)) by {
                        assert forall|i: int| 0 <= i < pending_effects@.len() implies (
                        #[trigger] pending_effects@[i]).wf() by {
                            if i < waiting.len() {
                                assert(pending_effects@[i] == waiting[i]);
                            } else {
                                assert(pending_effects@[i] == resolved_effects[i
                                    - waiting.len()]);
                            }
                        }
                    }
                }
            },
            DemandPlannerEffect::LookupParked(parked) => {
                if parked.drain_admission.is_none() {
                    slice_metrics.record_stop(
                        parked.slice_class,
                        parked.stop_reason,
                        parked.total_peers,
                        parked.unique_peers,
                    );
                }
            },
            DemandPlannerEffect::DrainFinalized(finalized) => {
                slice_metrics.record_stop(
                    finalized.outcome.slice_class,
                    finalized.outcome.stop_reason,
                    finalized.outcome.total_peers,
                    finalized.outcome.unique_peers,
                );
            },
            DemandPlannerEffect::DrainPeersRecorded(_) => {},
            DemandPlannerEffect::StartLookup(_) => {},
            DemandPlannerEffect::FinalizeDrainingLookup(finalize) => {
                if finish_drained_demand_lookup(
                    active_runtime,
                    demand_planner,
                    slice_metrics,
                    finalize.info_hash,
                    finalize.force,
                    now,
                ) {
                    finalized_any = true;
                }
            },
            DemandPlannerEffect::ParkActiveLookup(park) => {
                demand_planner.park_lookup_ids(
                    active_runtime,
                    park.info_hash,
                    park.slice_class,
                    None,
                    0,
                    park.lookup_ids,
                    now,
                );
            },
            DemandPlannerEffect::CancelDrainingLookup(cancel) => {
                if let Some(runtime) = active_runtime {
                    runtime.cancel_lookups(cancel.lookup_ids.as_slice());
                }
            },
        }
        proof {
            assert(Applied {
                planner: demand_planner@,
                ledger: ledger_view(*active_runtime),
                metrics: *slice_metrics,
                finalized: finalized_any,
            } =~= applied_one(before, queue[0], now).0);
        }
    }
    proof {
        assert(effects_view(pending_effects@) =~= Seq::<PlannerEffectView>::empty());
    }
    finalized_any
}

/// Puts effects behind those that are waiting.
fn enqueue(pending_effects: &mut VecDeque<DemandPlannerEffect>, effects: Vec<DemandPlannerEffect>)
    ensures
        final(pending_effects)@ == old(pending_effects)@ + effects@,
{
    for effect in iter: effects
        invariant
            pending_effects@ =~= old(pending_effects)@ + iter.seq().take(iter.index() as int),
            iter.seq() == effects@,
    {
        pending_effects.push_back(effect);
    }
    assert(effects@.take(effects@.len() as int) =~= effects@);
}

} // verus!
