use vstd::prelude::*;

use crate::clock::Instant;
use crate::demand::DhtDemandState;
use crate::ids::InfoHash;
use crate::limits::DHT_PLANNER_TOKEN_SCALE;
use crate::planner::actions::{
    DemandDrainFinalizedEffect, DemandFinalizeDrainingLookupEffect, DemandLookupFinishedEffect,
    DemandLookupParkedEffect, DemandPlannerAction, DemandPlannerPlanStats, DemandStartLookupEffect,
    PlannerEffectView,
};
use crate::planner::budget::{DemandLaunchTokenBucket, DemandPlannerBudget};
use crate::planner::counts::DemandSlotCounts;
use crate::planner::drain::{can_finalize, drain_peers_effects, drains_with_peers, kept_crawls};
use crate::planner::history::DemandPlannerState;
use crate::planner::lookups::{
    active_classes, launch_budget, virtual_slots, ActiveDemandLookup, DrainView,
    DrainedDemandOutcome,
};
use crate::planner::model::PlannerView;
use crate::planner::plan::candidate_plan;
use crate::planner::probe::{DemandPlannerIdleSpeedProbe, DemandPlannerIdleSpeedProbeStatus};
use crate::planner::selection::{
    candidate_classes, due_selection, probe_selection, reason_for, spare_selection, stats_of,
};
use crate::scheduler::{
    as_candidate, changed_entry, due_at, finished_entry, new_entry, reset_entry, DemandEntry,
    DemandEntrySnapshot, DemandFinishMode, DueDemandCandidate,
};
use crate::slice::{class_of, DemandParkedSliceOutcome, DemandSelectionReason, DemandSliceClass};
use crate::table::{keys_after_insert, keys_after_remove};

verus! {

/// A candidate that is to be launched, and why.
#[derive(Clone, Copy, Debug, PartialEq, Eq)]
pub struct PlannedLaunch {
    pub candidate: DueDemandCandidate,
    pub reason: DemandSelectionReason,
}

/// What an action leads to: the planner's next state, what is to be done, and, after a planning
/// round, how that went.
#[verifier::ext_equal]
pub struct PlannerStep {
    pub planner: PlannerView,
    pub effects: Seq<PlannerEffectView>,
    pub plan_stats: Option<DemandPlannerPlanStats>,
}

/// A step that asks for nothing.
pub open spec fn quiet(planner: PlannerView) -> PlannerStep {
    PlannerStep { planner, effects: seq![], plan_stats: None }
}

/// A step that asks for something.
pub open spec fn asking(planner: PlannerView, effects: Seq<PlannerEffectView>) -> PlannerStep {
    PlannerStep { planner, effects, plan_stats: None }
}

/// The history of a demand, empty where nothing is remembered.
pub open spec fn history_of(
    history: Map<InfoHash, DemandPlannerState>,
    info_hash: InfoHash,
) -> DemandPlannerState {
    if history.contains_key(info_hash) {
        history[info_hash]
    } else {
        DemandPlannerState::unknown()
    }
}

/// The history once a lookup has finished.
pub open spec fn history_finished(
    history: Map<InfoHash, DemandPlannerState>,
    info_hash: InfoHash,
    now: Instant,
    unique_peers: usize,
) -> Map<InfoHash, DemandPlannerState> {
    history.insert(info_hash, history_of(history, info_hash).finished(now, unique_peers))
}

/// The demands once a lookup has finished.
pub open spec fn entries_finished(
    planner: PlannerView,
    info_hash: InfoHash,
    now: Instant,
    mode: DemandFinishMode,
) -> Map<InfoHash, DemandEntry> {
    if planner.entries.contains_key(info_hash) {
        planner.entries.insert(
            info_hash,
            finished_entry(planner.intervals, planner.entries[info_hash], now, mode),
        )
    } else {
        planner.entries
    }
}

/// Bring a drain to its end.
pub open spec fn finalize_effect(info_hash: InfoHash, force: bool) -> PlannerEffectView {
    PlannerEffectView::FinalizeDrainingLookup(
        DemandFinalizeDrainingLookupEffect { info_hash, force },
    )
}

/// A drain for another class than the demand now has is brought to its end at once.
pub open spec fn class_mismatch_effects(
    drains: Map<InfoHash, DrainView>,
    info_hash: InfoHash,
    demand: DhtDemandState,
) -> Seq<PlannerEffectView> {
    if drains.contains_key(info_hash) && drains[info_hash].slice_class != class_of(demand) {
        seq![finalize_effect(info_hash, true)]
    } else {
        seq![]
    }
}

/// The runtime was replaced: nothing runs any more and nothing is remembered of what ran, but the
/// demands stay.
pub open spec fn reset_step(planner: PlannerView, now: Instant) -> PlannerStep {
    quiet(
        PlannerView {
            entries: planner.entries.map_values(|entry: DemandEntry| reset_entry(entry, now)),
            active: Map::empty(),
            active_keys: seq![],
            pending_starts: Map::empty(),
            pending_parks: Map::empty(),
            parked_crawls: Map::empty(),
            drains: Map::empty(),
            drain_keys: seq![],
            history: Map::empty(),
            budget: DemandPlannerBudget::full(now),
            probe: DemandPlannerIdleSpeedProbe::at_rest(),
            ..planner
        },
    )
}

/// A demand has one more subscriber.
pub open spec fn registered_step(
    planner: PlannerView,
    info_hash: InfoHash,
    demand: DhtDemandState,
    now: Instant,
) -> PlannerStep {
    let entry = if planner.entries.contains_key(info_hash) {
        let before = planner.entries[info_hash];
        DemandEntry {
            subscriber_count: before.subscriber_count.saturating_add(1),
            ..changed_entry(before, demand, now)
        }
    } else {
        new_entry(demand, now)
    };
    asking(
        PlannerView {
            entries: planner.entries.insert(info_hash, entry),
            entry_keys: keys_after_insert(planner.entry_keys, info_hash),
            ..planner
        },
        class_mismatch_effects(planner.drains, info_hash, demand),
    )
}

/// A demand has changed.
pub open spec fn updated_step(
    planner: PlannerView,
    info_hash: InfoHash,
    demand: DhtDemandState,
    now: Instant,
) -> PlannerStep {
    asking(
        PlannerView {
            entries: if planner.entries.contains_key(info_hash) {
                planner.entries.insert(
                    info_hash,
                    changed_entry(planner.entries[info_hash], demand, now),
                )
            } else {
                planner.entries
            },
            ..planner
        },
        class_mismatch_effects(planner.drains, info_hash, demand),
    )
}

/// A demand has lost a subscriber. With the last one the demand goes, and with it all that runs
/// for it: a running lookup is parked, a drain is ended.
pub open spec fn subscriber_removed_step(
    planner: PlannerView,
    info_hash: InfoHash,
) -> PlannerStep {
    if !planner.entries.contains_key(info_hash) {
        quiet(planner)
    } else {
        let entry = planner.entries[info_hash];
        if entry.subscriber_count > 1 {
            quiet(
                PlannerView {
                    entries: planner.entries.insert(
                        info_hash,
                        DemandEntry {
                            subscriber_count: (entry.subscriber_count - 1) as usize,
                            ..entry
                        },
                    ),
                    ..planner
                },
            )
        } else {
            let park = if planner.active.contains_key(info_hash) {
                seq![
                    PlannerEffectView::ParkActiveLookup {
                        info_hash,
                        slice_class: class_of(entry.demand),
                        lookup_ids: planner.active[info_hash].lookup_ids@,
                    },
                ]
            } else {
                seq![]
            };
            let cancel = if planner.drains.contains_key(info_hash) {
                seq![
                    PlannerEffectView::CancelDrainingLookup {
                        info_hash,
                        lookup_ids: planner.drains[info_hash].lookup_ids,
                    },
                ]
            } else {
                seq![]
            };
            asking(
                PlannerView {
                    entries: planner.entries.remove(info_hash),
                    entry_keys: keys_after_remove(planner.entry_keys, info_hash),
                    active: planner.active.remove(info_hash),
                    active_keys: keys_after_remove(planner.active_keys, info_hash),
                    pending_starts: planner.pending_starts.remove(info_hash),
                    pending_parks: planner.pending_parks.remove(info_hash),
                    drains: planner.drains.remove(info_hash),
                    drain_keys: keys_after_remove(planner.drain_keys, info_hash),
                    ..planner
                },
                park + cancel,
            )
        }
    }
}

/// Whether a drain is ready, going by what the runtime said of it; one that the runtime did not
/// speak of counts as having answers outstanding.
pub open spec fn drain_is_ready(
    drains: Map<InfoHash, DrainView>,
    runtime_ready: Map<InfoHash, bool>,
    now: Instant,
) -> spec_fn(InfoHash) -> bool {
    |info_hash: InfoHash|
        can_finalize(
            runtime_ready.contains_key(info_hash) && runtime_ready[info_hash],
            drains[info_hash],
            now,
        )
}

/// Bring a drain to its end, where it is ready.
pub open spec fn finalize_ready() -> spec_fn(InfoHash) -> PlannerEffectView {
    |info_hash: InfoHash| finalize_effect(info_hash, false)
}

/// Every drain that is ready is brought to its end, the oldest first.
pub open spec fn drain_tick_step(
    planner: PlannerView,
    now: Instant,
    runtime_ready: Map<InfoHash, bool>,
) -> PlannerStep {
    asking(
        planner,
        planner.drain_keys.filter(
            drain_is_ready(planner.drains, runtime_ready, now),
        ).map_values(finalize_ready()),
    )
}

/// Whether a snapshot's demand has no drain.
pub open spec fn not_draining(drains: Map<InfoHash, DrainView>) -> spec_fn(
    DemandEntrySnapshot,
) -> bool {
    |snapshot: DemandEntrySnapshot| !drains.contains_key(snapshot.info_hash)
}

/// Whether a candidate's demand has no drain.
pub open spec fn candidate_not_draining(drains: Map<InfoHash, DrainView>) -> spec_fn(
    DueDemandCandidate,
) -> bool {
    |candidate: DueDemandCandidate| !drains.contains_key(candidate.info_hash)
}

/// The demands that may be looked up and have no drain, in the order of registration.
pub open spec fn plannable_due(planner: PlannerView, now: Instant) -> Seq<DueDemandCandidate> {
    planner.snapshots().filter(due_at(now)).map_values(as_candidate()).filter(
        candidate_not_draining(planner.drains),
    )
}

/// The demands that have no drain, in the order of registration.
pub open spec fn plannable(planner: PlannerView) -> Seq<DemandEntrySnapshot> {
    planner.snapshots().filter(not_draining(planner.drains))
}

/// A launch for one reason.
pub open spec fn launch_for(reason: DemandSelectionReason) -> spec_fn(
    DueDemandCandidate,
) -> PlannedLaunch {
    |candidate: DueDemandCandidate| PlannedLaunch { candidate, reason }
}

/// A launch of a due candidate, for the reason that it has.
pub open spec fn launch_due(planner: PlannerView, now: Instant) -> spec_fn(
    DueDemandCandidate,
) -> PlannedLaunch {
    |candidate: DueDemandCandidate|
        PlannedLaunch {
            candidate,
            reason: reason_for(candidate, planner.parked_crawls, planner.history, now),
        }
}

/// The info hash of a candidate.
pub open spec fn hash_of() -> spec_fn(DueDemandCandidate) -> InfoHash {
    |candidate: DueDemandCandidate| candidate.info_hash
}

/// The starting of launches, on its way.
#[verifier::ext_equal]
pub struct StartFold {
    pub entries: Map<InfoHash, DemandEntry>,
    pub history: Map<InfoHash, DemandPlannerState>,
    pub pending_starts: Map<InfoHash, DemandSliceClass>,
    pub budget: DemandPlannerBudget,
    pub effects: Seq<PlannerEffectView>,
}

/// One more launch is started: its demand is marked, its start is remembered, and a lookup is
/// asked for. Where something runs for the demand already, its token goes back instead.
pub open spec fn start_one(
    fold: StartFold,
    launch: PlannedLaunch,
    status: DemandPlannerIdleSpeedProbeStatus,
    now: Instant,
) -> StartFold {
    let info_hash = launch.candidate.info_hash;
    let plan = candidate_plan(launch.candidate, fold.history, launch.reason, status, now);
    if !fold.entries.contains_key(info_hash) || fold.entries[info_hash].in_progress {
        StartFold { budget: fold.budget.refunded(plan.class), ..fold }
    } else {
        StartFold {
            entries: fold.entries.insert(
                info_hash,
                DemandEntry { in_progress: true, ..fold.entries[info_hash] },
            ),
            history: fold.history.insert(
                info_hash,
                history_of(fold.history, info_hash).started(now),
            ),
            pending_starts: fold.pending_starts.insert(info_hash, plan.class),
            budget: fold.budget,
            effects: fold.effects.push(
                PlannerEffectView::StartLookup(
                    DemandStartLookupEffect {
                        candidate: launch.candidate,
                        plan,
                        selection_reason: launch.reason,
                    },
                ),
            ),
        }
    }
}

/// Each of several launches is started, the first one first.
pub open spec fn start_all(
    fold: StartFold,
    launches: Seq<PlannedLaunch>,
    status: DemandPlannerIdleSpeedProbeStatus,
    now: Instant,
) -> StartFold
    decreases launches.len(),
{
    if launches.len() == 0 {
        fold
    } else {
        start_one(
            start_all(fold, launches.drop_last(), status, now),
            launches.last(),
            status,
            now,
        )
    }
}

/// The launches of a planning round.
pub struct RoundLaunches {
    pub launches: Seq<PlannedLaunch>,
    pub budget: DemandPlannerBudget,
    pub due_launches: Seq<DueDemandCandidate>,
    pub probe_count: nat,
    pub spare_count: nat,
}

/// What a planning round launches with room for `room` lookups: due demands first, then, while the
/// idle probe is active, demands ahead of their time, and with nothing else to do, backed-off
/// demands with spare capacity.
pub open spec fn round_launches(
    planner: PlannerView,
    status: DemandPlannerIdleSpeedProbeStatus,
    now: Instant,
    room: usize,
) -> RoundLaunches {
    let counts = DemandSlotCounts::zero().recorded_all(
        active_classes(planner.active_keys, planner.active),
    );
    let due = due_selection(
        plannable_due(planner, now),
        counts,
        planner.parked_crawls,
        planner.history,
        planner.budget,
        now,
        room,
    );
    let due_launches = due.launches.map_values(launch_due(planner, now));
    let probing = status.active && due_launches.len() < room;
    let probe = probe_selection(
        plannable(planner),
        counts.recorded_all(candidate_classes(due.launches)),
        due.launches.map_values(hash_of()),
        planner.parked_crawls,
        planner.history,
        due.budget,
        now,
        (room - due_launches.len()) as usize,
    );
    let probe_launches = if probing {
        probe.launches.map_values(launch_for(DemandSelectionReason::IdleSpeedProbe))
    } else {
        seq![]
    };
    let budget = if probing {
        probe.budget
    } else {
        due.budget
    };
    let planned = due_launches + probe_launches;
    if planned.len() > 0 {
        RoundLaunches {
            launches: planned,
            budget,
            due_launches: due.launches,
            probe_count: probe_launches.len(),
            spare_count: 0,
        }
    } else {
        let spare = spare_selection(
            plannable(planner),
            counts,
            planner.parked_crawls,
            planner.history,
            budget,
            now,
            room,
        );
        RoundLaunches {
            launches: spare.0.map_values(launch_for(DemandSelectionReason::SpareCapacity)),
            budget: spare.1,
            due_launches: due.launches,
            probe_count: 0,
            spare_count: spare.0.len(),
        }
    }
}

/// The whole tokens of a bucket.
pub open spec fn whole_tokens(bucket: DemandLaunchTokenBucket) -> usize {
    (bucket.tokens_scaled / DHT_PLANNER_TOKEN_SCALE) as usize
}

/// A planning round with a runtime. Crawls that are not worth keeping go first. Without a free
/// slot that is all.
pub open spec fn plan_round(planner: PlannerView, now: Instant) -> PlannerStep {
    let swept = PlannerView { parked_crawls: kept_crawls(planner.parked_crawls, now), ..planner };
    let draining = planner.drain_keys.len() as usize;
    let room = launch_budget(planner.active_keys.len() as usize, draining);
    if room == 0 {
        quiet(swept)
    } else {
        let snapshots = plannable(swept);
        let status = planner.probe.observed_status(snapshots, now);
        let ready = PlannerView { budget: planner.budget.refilled(now), ..swept };
        let round = round_launches(ready, status, now, room);
        let started = start_all(
            StartFold {
                entries: ready.entries,
                history: ready.history,
                pending_starts: ready.pending_starts,
                budget: round.budget,
                effects: seq![],
            },
            round.launches,
            status,
            now,
        );
        let budget = started.budget.refilled(now);
        PlannerStep {
            planner: PlannerView {
                entries: started.entries,
                history: started.history,
                pending_starts: started.pending_starts,
                budget,
                probe: planner.probe.observed(snapshots, now),
                ..ready
            },
            effects: started.effects,
            plan_stats: Some(
                DemandPlannerPlanStats {
                    launch_budget: room,
                    due_total: plannable_due(ready, now).len() as usize,
                    selection_stats: stats_of(
                        plannable_due(ready, now),
                        round.due_launches,
                        now,
                    ),
                    spare_selected: round.spare_count as usize,
                    idle_probe_selected: round.probe_count as usize,
                    idle_probe_active: status.active,
                    idle_probe_demand_count: status.demand_count,
                    active_counts: DemandSlotCounts::zero().recorded_all(
                        active_classes(planner.active_keys, planner.active),
                    ),
                    parked_count: swept.parked_crawls.len() as usize,
                    draining_count: draining,
                    drain_virtual_slots: virtual_slots(draining),
                    budget_awaiting: whole_tokens(budget.awaiting_metadata),
                    budget_no_peers: whole_tokens(budget.no_connected_peers),
                    budget_routine: whole_tokens(budget.routine_refresh),
                },
            ),
        }
    }
}

/// How a drain's end moves the demand's next lookup: a drain without peers for a demand without
/// connected peers that left a healthy crawl behind makes the backoff go faster.
pub open spec fn finish_mode_for(outcome: DrainedDemandOutcome) -> DemandFinishMode {
    if outcome.slice_class == DemandSliceClass::NoConnectedPeers && outcome.parked_outcome == Some(
        DemandParkedSliceOutcome::HealthyZeroYield,
    ) {
        DemandFinishMode::AcceleratedNoConnectedPeersBackoff
    } else {
        DemandFinishMode::Standard
    }
}

/// A lookup has come to its end by itself.
pub open spec fn lookup_finished_step(
    planner: PlannerView,
    info_hash: InfoHash,
    slice_class: DemandSliceClass,
    total_peers: usize,
    unique_peers: usize,
    now: Instant,
) -> PlannerStep {
    let after = PlannerView {
        entries: entries_finished(planner, info_hash, now, DemandFinishMode::Standard),
        active: planner.active.remove(info_hash),
        active_keys: keys_after_remove(planner.active_keys, info_hash),
        history: history_finished(planner.history, info_hash, now, unique_peers),
        ..planner
    };
    asking(
        after,
        seq![
            PlannerEffectView::LookupFinished(
                DemandLookupFinishedEffect {
                    info_hash,
                    slice_class,
                    total_peers,
                    unique_peers,
                    previous: planner.snapshot(info_hash),
                    current: after.snapshot(info_hash),
                    finished_at: now,
                },
            ),
        ],
    )
}

/// What an action leads to.
pub open spec fn planner_step(planner: PlannerView, action: DemandPlannerAction) -> PlannerStep {
    match action {
        DemandPlannerAction::RuntimeReset { now } => reset_step(planner, now),
        DemandPlannerAction::DemandRegistered { info_hash, demand, now } => registered_step(
            planner,
            info_hash,
            demand,
            now,
        ),
        DemandPlannerAction::DemandUpdated { info_hash, demand, now } => updated_step(
            planner,
            info_hash,
            demand,
            now,
        ),
        DemandPlannerAction::DemandMetricsUpdated { info_hash, metrics } => quiet(
            PlannerView {
                entries: if planner.entries.contains_key(info_hash) {
                    planner.entries.insert(
                        info_hash,
                        DemandEntry { metrics, ..planner.entries[info_hash] },
                    )
                } else {
                    planner.entries
                },
                ..planner
            },
        ),
        DemandPlannerAction::DemandSubscriberRemoved { info_hash } => subscriber_removed_step(
            planner,
            info_hash,
        ),
        DemandPlannerAction::PeersReceived { info_hash, peers } => asking(
            PlannerView {
                drains: drains_with_peers(planner.drains, info_hash, peers@),
                ..planner
            },
            drain_peers_effects(planner.drains, info_hash, peers@),
        ),
        DemandPlannerAction::DrainTick { now, runtime_ready } => drain_tick_step(
            planner,
            now,
            runtime_ready@,
        ),
        DemandPlannerAction::PlanDue { now, runtime_available } => if runtime_available {
            plan_round(planner, now)
        } else {
            quiet(planner)
        },
        DemandPlannerAction::LookupStarted { info_hash, slice_class, lookup_ids } => quiet(
            PlannerView {
                pending_starts: planner.pending_starts.remove(info_hash),
                active: planner.active.insert(
                    info_hash,
                    ActiveDemandLookup { lookup_ids, slice_class },
                ),
                active_keys: keys_after_insert(planner.active_keys, info_hash),
                ..planner
            },
        ),
        DemandPlannerAction::LookupStartFailed { info_hash, slice_class, now } => quiet(
            PlannerView {
                pending_starts: planner.pending_starts.remove(info_hash),
                budget: planner.budget.refunded(slice_class),
                entries: entries_finished(planner, info_hash, now, DemandFinishMode::Standard),
                ..planner
            },
        ),
        DemandPlannerAction::LookupFinished {
            info_hash,
            slice_class,
            total_peers,
            unique_peers,
            now,
        } => lookup_finished_step(
            planner,
            info_hash,
            slice_class,
            total_peers,
            unique_peers,
            now,
        ),
        DemandPlannerAction::LookupParkRequested {
            info_hash,
            slice_class,
            stop_reason,
            total_peers,
            unique_peers,
            lookup_ids,
        } => asking(
            PlannerView {
                active: planner.active.remove(info_hash),
                active_keys: keys_after_remove(planner.active_keys, info_hash),
                pending_parks: planner.pending_parks.insert(info_hash, slice_class),
                ..planner
            },
            seq![
                PlannerEffectView::AdmitDrain {
                    info_hash,
                    slice_class,
                    stop_reason,
                    total_peers,
                    unique_peers: unique_peers@,
                    lookup_ids: lookup_ids@,
                    previous: planner.snapshot(info_hash),
                },
            ],
        ),
        DemandPlannerAction::LookupParkResolved {
            info_hash,
            slice_class,
            stop_reason,
            total_peers,
            unique_peers,
            parked_outcome,
            drain_admission,
            previous,
            now,
        } => {
            let unparked = PlannerView {
                pending_parks: planner.pending_parks.remove(info_hash),
                ..planner
            };
            let after = if drain_admission.is_none() {
                PlannerView {
                    history: history_finished(planner.history, info_hash, now, unique_peers),
                    entries: entries_finished(
                        planner,
                        info_hash,
                        now,
                        DemandFinishMode::Standard,
                    ),
                    ..unparked
                }
            } else {
                unparked
            };
            let outdated = drain_admission.is_some() && after.entries.contains_key(info_hash)
                && class_of(after.entries[info_hash].demand) != slice_class;
            asking(
                after,
                seq![
                    PlannerEffectView::LookupParked(
                        DemandLookupParkedEffect {
                            info_hash,
                            slice_class,
                            stop_reason,
                            total_peers,
                            unique_peers,
                            parked_outcome,
                            drain_admission,
                            previous,
                            current: after.snapshot(info_hash),
                            parked_at: now,
                        },
                    ),
                ] + if outdated {
                    seq![finalize_effect(info_hash, true)]
                } else {
                    seq![]
                },
            )
        },
        DemandPlannerAction::DrainedLookupFinalized { info_hash, outcome, previous, now } => {
            let finish_mode = finish_mode_for(outcome);
            let after = PlannerView {
                history: history_finished(planner.history, info_hash, now, outcome.unique_peers),
                entries: entries_finished(planner, info_hash, now, finish_mode),
                ..planner
            };
            asking(
                after,
                seq![
                    PlannerEffectView::DrainFinalized(
                        DemandDrainFinalizedEffect {
                            info_hash,
                            outcome,
                            finish_mode,
                            previous,
                            current: after.snapshot(info_hash),
                            finalized_at: now,
                            parked: planner.parked_crawls.contains_key(info_hash),
                        },
                    ),
                ],
            )
        },
    }
}

} // verus!
