use vstd::prelude::*;

use crate::clock::{Instant, SECOND};
use crate::demand::{DhtDemandMetrics, DhtDemandState};
use crate::ids::{InfoHash, LookupId, PeerAddr};
use crate::planner::actions::{DemandPlannerAction, PlannerEffectView};
use crate::planner::lookup_ops::lookup_extended;
use crate::planner::lookups::DrainedDemandOutcome;
use crate::planner::model::{empty_planner, PlannerView};
use crate::planner::step::planner_step;
use crate::scheduler::{
    finished_entry, DemandEntry, DemandEntrySnapshot, DemandFinishMode, DemandIntervals,
};
use crate::slice::{DemandParkedSliceOutcome, DemandSliceClass};
use crate::table::{keys_after_insert, keys_after_remove};

verus! {

// Demands come, change and go.

/// How urgent a demand is: most for metadata, less without connected peers, least otherwise.
pub open spec fn urgency(demand: DhtDemandState) -> int {
    if demand.awaiting_metadata {
        2
    } else if demand.connected_peers == 0 {
        1
    } else {
        0
    }
}

/// Whether measurements say nothing: no count is above zero, and nothing is claimed of the torrent.
pub open spec fn says_nothing(metrics: DhtDemandMetrics) -> bool {
    &&& !metrics.paused && !metrics.accepting_new_peers && !metrics.complete
    &&& metrics.total_pieces == 0 && metrics.completed_pieces == 0
    &&& metrics.connected_peers == 0 && metrics.interested_peers == 0
    &&& metrics.peers_interested_in_us == 0
    &&& metrics.unchoked_download_peers == 0 && metrics.unchoked_upload_peers == 0
    &&& metrics.downloading_peers == 0 && metrics.uploading_peers == 0
    &&& metrics.download_speed_bps == 0 && metrics.upload_speed_bps == 0
    &&& metrics.bytes_downloaded_this_tick == 0 && metrics.bytes_uploaded_this_tick == 0
}

/// A demand that nobody wanted so far is due at once, with one subscriber and nothing known of it.
pub proof fn new_demands_are_due_at_once(
    planner: PlannerView,
    info_hash: InfoHash,
    demand: DhtDemandState,
    now: Instant,
)
    requires
        !planner.entries.contains_key(info_hash),
    ensures
        ({
            let after = planner_step(
                planner,
                DemandPlannerAction::DemandRegistered { info_hash, demand, now },
            ).planner;
            let entry = after.entries[info_hash];
            &&& after.entries.contains_key(info_hash)
            &&& entry.demand == demand
            &&& entry.next_eligible_at == now
            &&& entry.subscriber_count == 1
            &&& !entry.in_progress && !entry.retrigger_pending
            &&& entry.no_connected_peers_backoff_step == 0
            &&& says_nothing(entry.metrics)
            &&& after.entry_keys.contains(info_hash)
        }),
{
    let after = planner_step(
        planner,
        DemandPlannerAction::DemandRegistered { info_hash, demand, now },
    ).planner;
    if planner.entry_keys.contains(info_hash) {
        assert(after.entry_keys.contains(info_hash));
    } else {
        assert(after.entry_keys == planner.entry_keys.push(info_hash));
        assert(after.entry_keys[planner.entry_keys.len() as int] == info_hash);
    }
}

/// A demand that becomes more urgent is due at once at the latest or, while a lookup runs for it, as
/// soon as that is over. One that does not keeps its time. A change of kind starts the backoff anew,
/// and nothing else changes.
pub proof fn urgency_moves_demands_forward(
    planner: PlannerView,
    info_hash: InfoHash,
    demand: DhtDemandState,
    now: Instant,
)
    requires
        planner.entries.contains_key(info_hash),
    ensures
        ({
            let before = planner.entries[info_hash];
            let after = planner_step(
                planner,
                DemandPlannerAction::DemandUpdated { info_hash, demand, now },
            ).planner.entries[info_hash];
            let up = urgency(demand) > urgency(before.demand);
            &&& after.demand == demand
            &&& up && !before.in_progress ==> after.next_eligible_at <= now
                && after.next_eligible_at <= before.next_eligible_at
            &&& up && !before.in_progress ==> after.next_eligible_at == now
                || after.next_eligible_at == before.next_eligible_at
            &&& up && before.in_progress ==> after.retrigger_pending && after.next_eligible_at
                == before.next_eligible_at
            &&& !up ==> after.next_eligible_at == before.next_eligible_at && after.retrigger_pending
                == before.retrigger_pending
            &&& !before.in_progress ==> after.retrigger_pending == before.retrigger_pending
            &&& urgency(demand) != urgency(before.demand) ==> after.no_connected_peers_backoff_step
                == 0
            &&& urgency(demand) == urgency(before.demand) ==> after.no_connected_peers_backoff_step
                == before.no_connected_peers_backoff_step
            &&& after.in_progress == before.in_progress
            &&& after.subscriber_count == before.subscriber_count
            &&& after.metrics == before.metrics
        }),
{
}

/// Joining a known demand does what changing it does, and counts one subscriber more.
pub proof fn joining_is_changing_and_counting(
    planner: PlannerView,
    info_hash: InfoHash,
    demand: DhtDemandState,
    now: Instant,
)
    requires
        planner.entries.contains_key(info_hash),
        planner.entries[info_hash].subscriber_count < usize::MAX,
    ensures
        ({
            let joined = planner_step(
                planner,
                DemandPlannerAction::DemandRegistered { info_hash, demand, now },
            );
            let changed = planner_step(
                planner,
                DemandPlannerAction::DemandUpdated { info_hash, demand, now },
            );
            let entry = changed.planner.entries[info_hash];
            &&& joined.planner.entries[info_hash] == (DemandEntry {
                subscriber_count: (planner.entries[info_hash].subscriber_count + 1) as usize,
                ..entry
            })
            &&& joined.effects == changed.effects
        }),
{
}

/// A drain for another kind of demand than is now wanted is brought to its end at once, and no other
/// change of a demand asks for anything.
pub proof fn outdated_drains_are_ended(
    planner: PlannerView,
    info_hash: InfoHash,
    demand: DhtDemandState,
    now: Instant,
)
    ensures
        ({
            let effects = planner_step(
                planner,
                DemandPlannerAction::DemandUpdated { info_hash, demand, now },
            ).effects;
            let class = if demand.awaiting_metadata {
                DemandSliceClass::AwaitingMetadata
            } else if demand.connected_peers == 0 {
                DemandSliceClass::NoConnectedPeers
            } else {
                DemandSliceClass::RoutineRefresh
            };
            if planner.drains.contains_key(info_hash) && planner.drains[info_hash].slice_class
                != class {
                &&& effects.len() == 1
                &&& effects[0] matches PlannerEffectView::FinalizeDrainingLookup(end)
                    && end.info_hash == info_hash && end.force
            } else {
                effects.len() == 0
            }
        }),
{
}

/// New measurements change nothing but the measurements of their demand, and make nothing known that
/// was not.
pub proof fn measurements_change_nothing_else(
    planner: PlannerView,
    info_hash: InfoHash,
    metrics: DhtDemandMetrics,
)
    ensures
        ({
            let step = planner_step(
                planner,
                DemandPlannerAction::DemandMetricsUpdated { info_hash, metrics },
            );
            &&& step.effects.len() == 0
            &&& step.planner.entries.dom() =~= planner.entries.dom()
            &&& planner.entries.contains_key(info_hash) ==> step.planner.entries[info_hash] == (
            DemandEntry { metrics, ..planner.entries[info_hash] })
            &&& forall|other: InfoHash| #[trigger]
                planner.entries.contains_key(other) && other != info_hash
                    ==> step.planner.entries[other] == planner.entries[other]
            &&& step.planner.parked_crawls == planner.parked_crawls
            &&& step.planner.drains == planner.drains && step.planner.active == planner.active
            &&& step.planner.history == planner.history && step.planner.budget == planner.budget
        }),
{
}

/// A demand that loses one of several subscribers goes on as it was, with one fewer.
pub proof fn leaving_counts_down(planner: PlannerView, info_hash: InfoHash)
    requires
        planner.entries.contains_key(info_hash),
        planner.entries[info_hash].subscriber_count > 1,
    ensures
        ({
            let step = planner_step(
                planner,
                DemandPlannerAction::DemandSubscriberRemoved { info_hash },
            );
            let before = planner.entries[info_hash];
            &&& step.planner.entries.contains_key(info_hash)
            &&& step.planner.entries[info_hash] == (DemandEntry {
                subscriber_count: (before.subscriber_count - 1) as usize,
                ..before
            })
            &&& step.effects.len() == 0
            &&& step.planner.active == planner.active && step.planner.drains == planner.drains
        }),
{
}

/// A demand that loses its last subscriber is given up: a lookup that runs for it is to be parked,
/// and one that drains for it is to be ended. What is parked and remembered stays.
pub proof fn last_leavers_end_the_work(planner: PlannerView, info_hash: InfoHash)
    requires
        planner.entries.contains_key(info_hash),
        planner.entries[info_hash].subscriber_count <= 1,
    ensures
        ({
            let step = planner_step(
                planner,
                DemandPlannerAction::DemandSubscriberRemoved { info_hash },
            );
            let runs = planner.active.contains_key(info_hash);
            let drains = planner.drains.contains_key(info_hash);
            let demand = planner.entries[info_hash].demand;
            &&& !step.planner.entries.contains_key(info_hash)
            &&& !step.planner.active.contains_key(info_hash)
            &&& !step.planner.drains.contains_key(info_hash)
            &&& !step.planner.pending_starts.contains_key(info_hash)
            &&& !step.planner.pending_parks.contains_key(info_hash)
            &&& step.planner.parked_crawls == planner.parked_crawls
            &&& step.planner.history == planner.history
            &&& step.effects.len() == (if runs {
                1nat
            } else {
                0nat
            }) + (if drains {
                1nat
            } else {
                0nat
            })
            &&& runs ==> (step.effects[0] matches PlannerEffectView::ParkActiveLookup {
                info_hash: asked,
                slice_class,
                lookup_ids,
            } && asked == info_hash && lookup_ids == planner.active[info_hash].lookup_ids@
                && slice_class == if demand.awaiting_metadata {
                DemandSliceClass::AwaitingMetadata
            } else if demand.connected_peers == 0 {
                DemandSliceClass::NoConnectedPeers
            } else {
                DemandSliceClass::RoutineRefresh
            })
            &&& drains ==> (step.effects.last() matches PlannerEffectView::CancelDrainingLookup {
                info_hash: asked,
                lookup_ids,
            } && asked == info_hash && lookup_ids == planner.drains[info_hash].lookup_ids)
        }),
{
}

/// A subscriber that leaves a demand that is not known changes nothing.
pub proof fn unknown_leavers_change_nothing(planner: PlannerView, info_hash: InfoHash)
    requires
        !planner.entries.contains_key(info_hash),
    ensures
        ({
            let step = planner_step(
                planner,
                DemandPlannerAction::DemandSubscriberRemoved { info_hash },
            );
            step.planner == planner && step.effects.len() == 0
        }),
{
}

/// A new planner looks up metadata each second, torrents with peers each minute, and torrents without
/// peers first after 16 seconds and at last after 256.
pub proof fn new_planners_have_their_pauses(now: Instant)
    ensures
        ({
            let planner = empty_planner(now);
            &&& planner.intervals.awaiting_metadata == SECOND
            &&& planner.intervals.routine == 60 * SECOND
            &&& planner.intervals.no_connected_peers_base == 16 * SECOND
            &&& planner.intervals.no_connected_peers_max == 256 * SECOND
            &&& planner.entries.len() == 0 && planner.entry_keys.len() == 0
            &&& planner.active.len() == 0 && planner.drains.len() == 0
            &&& planner.parked_crawls.len() == 0 && planner.history.len() == 0
        }),
{
}

// When a demand is due again.

/// The pause after a lookup for a demand, as the time from its end to when it is due again.
pub open spec fn pause_after(
    intervals: DemandIntervals,
    entry: DemandEntry,
    now: Instant,
    mode: DemandFinishMode,
) -> int {
    finished_entry(intervals, entry, now, mode).next_eligible_at - now
}

/// Whether no pause takes a time beyond the end of the clock.
pub open spec fn clock_suffices(intervals: DemandIntervals, now: Instant) -> bool {
    &&& now + intervals.routine <= u64::MAX
    &&& now + intervals.awaiting_metadata <= u64::MAX
    &&& now + intervals.no_connected_peers_max <= u64::MAX
}

/// After a lookup, metadata and torrents with peers are due again after the pause of their kind, and
/// no backoff remains. A demand that became more urgent meanwhile is due at once.
pub proof fn pauses_go_by_demand(
    intervals: DemandIntervals,
    entry: DemandEntry,
    now: Instant,
    mode: DemandFinishMode,
)
    requires
        clock_suffices(intervals, now),
    ensures
        ({
            let after = finished_entry(intervals, entry, now, mode);
            let pause = pause_after(intervals, entry, now, mode);
            &&& entry.retrigger_pending ==> pause == 0
            &&& !entry.retrigger_pending && entry.demand.awaiting_metadata ==> pause
                == intervals.awaiting_metadata
            &&& !entry.retrigger_pending && !entry.demand.awaiting_metadata
                && entry.demand.connected_peers > 0 ==> pause == intervals.routine
            &&& entry.demand.awaiting_metadata || entry.demand.connected_peers > 0
                ==> after.no_connected_peers_backoff_step == 0
            &&& !after.in_progress && !after.retrigger_pending
            &&& after.demand == entry.demand && after.metrics == entry.metrics
            &&& after.subscriber_count == entry.subscriber_count
        }),
{
}

/// Without connected peers the first pause is the shortest, each further one is twice the one before,
/// and none is longer than the maximum.
pub proof fn pauses_double_without_peers(
    intervals: DemandIntervals,
    entry: DemandEntry,
    first_at: Instant,
    second_at: Instant,
)
    requires
        !entry.demand.awaiting_metadata && entry.demand.connected_peers == 0,
        !entry.retrigger_pending,
        entry.no_connected_peers_backoff_step < u32::MAX,
        clock_suffices(intervals, first_at),
        clock_suffices(intervals, second_at),
    ensures
        ({
            let mode = DemandFinishMode::Standard;
            let first = pause_after(intervals, entry, first_at, mode);
            let after = finished_entry(intervals, entry, first_at, mode);
            let second = pause_after(intervals, after, second_at, mode);
            let (base, most) = (intervals.no_connected_peers_base, intervals.no_connected_peers_max);
            &&& entry.no_connected_peers_backoff_step == 0 ==> first == if base < most {
                base as int
            } else {
                most as int
            }
            &&& second == if 2 * first < most {
                2 * first
            } else {
                most as int
            }
            &&& after.no_connected_peers_backoff_step == entry.no_connected_peers_backoff_step + 1
        }),
{
    reveal_with_fuel(crate::scheduler::doubled, 2);
}

/// The faster backoff takes the pause that would come after one more lookup.
pub proof fn faster_backoff_skips_one_pause(
    intervals: DemandIntervals,
    entry: DemandEntry,
    first_at: Instant,
    second_at: Instant,
)
    requires
        !entry.demand.awaiting_metadata && entry.demand.connected_peers == 0,
        !entry.retrigger_pending,
        entry.no_connected_peers_backoff_step < u32::MAX - 1,
        clock_suffices(intervals, first_at),
        clock_suffices(intervals, second_at),
    ensures
        ({
            let once = finished_entry(intervals, entry, first_at, DemandFinishMode::Standard);
            &&& pause_after(
                intervals,
                entry,
                second_at,
                DemandFinishMode::AcceleratedNoConnectedPeersBackoff,
            ) == pause_after(intervals, once, second_at, DemandFinishMode::Standard)
            &&& finished_entry(
                intervals,
                entry,
                second_at,
                DemandFinishMode::AcceleratedNoConnectedPeersBackoff,
            ).no_connected_peers_backoff_step == entry.no_connected_peers_backoff_step + 2
        }),
{
}

// The end of lookups.

/// What is remembered of a demand's lookups after one has ended: when, how many peers it found, and,
/// where it found any, that it was useful then.
pub open spec fn remembers_end(
    before: PlannerView,
    after: PlannerView,
    info_hash: InfoHash,
    unique_peers: usize,
    now: Instant,
) -> bool {
    let state = after.history[info_hash];
    let known = before.history.contains_key(info_hash);
    &&& after.history.contains_key(info_hash)
    &&& state.last_finished_at == Some(now)
    &&& state.last_unique_peers == unique_peers
    &&& unique_peers > 0 ==> state.last_useful_yield_at == Some(now)
    &&& unique_peers == 0 && known ==> state.last_useful_yield_at
        == before.history[info_hash].last_useful_yield_at
    &&& unique_peers == 0 && !known ==> state.last_useful_yield_at.is_none()
    &&& known ==> state.last_started_at == before.history[info_hash].last_started_at
    &&& !known ==> state.last_started_at.is_none()
}

/// A demand as it stands, where it is known.
pub open spec fn standing(planner: PlannerView, info_hash: InfoHash, entry: DemandEntry) -> bool {
    planner.entries.contains_key(info_hash) && planner.entries[info_hash] == entry
}

/// What is told of a demand as it stands, where it is known.
pub open spec fn tells(
    told: Option<DemandEntrySnapshot>,
    planner: PlannerView,
    info_hash: InfoHash,
) -> bool {
    let entry = planner.entries[info_hash];
    &&& told.is_some() <==> planner.entries.contains_key(info_hash)
    &&& told matches Some(snapshot) ==> {
        &&& snapshot.info_hash == info_hash
        &&& snapshot.demand == entry.demand && snapshot.metrics == entry.metrics
        &&& snapshot.next_eligible_at == entry.next_eligible_at
        &&& snapshot.subscriber_count == entry.subscriber_count
        &&& snapshot.in_progress == entry.in_progress
        &&& snapshot.retrigger_pending == entry.retrigger_pending
        &&& snapshot.no_connected_peers_backoff_step == entry.no_connected_peers_backoff_step
    }
}

/// A lookup that ended by itself is over: its slot is free, its end is remembered and told with what
/// it found, and its demand pauses.
pub proof fn finished_lookups_are_over(
    planner: PlannerView,
    info_hash: InfoHash,
    class: DemandSliceClass,
    total_peers: usize,
    unique_peers: usize,
    now: Instant,
)
    ensures
        ({
            let step = planner_step(
                planner,
                DemandPlannerAction::LookupFinished {
                    info_hash,
                    slice_class: class,
                    total_peers,
                    unique_peers,
                    now,
                },
            );
            let after = step.planner;
            &&& !after.active.contains_key(info_hash)
            &&& remembers_end(planner, after, info_hash, unique_peers, now)
            &&& planner.entries.contains_key(info_hash) ==> standing(
                after,
                info_hash,
                finished_entry(
                    planner.intervals,
                    planner.entries[info_hash],
                    now,
                    DemandFinishMode::Standard,
                ),
            )
            &&& after.parked_crawls == planner.parked_crawls && after.drains == planner.drains
            &&& step.effects.len() == 1
            &&& step.effects[0] matches PlannerEffectView::LookupFinished(told) && told.info_hash
                == info_hash && told.slice_class == class && told.total_peers == total_peers
                && told.unique_peers == unique_peers && told.finished_at == now && tells(
                told.previous,
                planner,
                info_hash,
            ) && tells(told.current, after, info_hash)
        }),
{
}

/// A drain that ended is remembered with all its peers. Only one for a torrent without peers that
/// found none but left a healthy crawl behind makes the backoff go faster.
pub proof fn ended_drains_are_over(
    planner: PlannerView,
    info_hash: InfoHash,
    outcome: DrainedDemandOutcome,
    previous: Option<DemandEntrySnapshot>,
    now: Instant,
)
    ensures
        ({
            let step = planner_step(
                planner,
                DemandPlannerAction::DrainedLookupFinalized { info_hash, outcome, previous, now },
            );
            let fast = outcome.slice_class == DemandSliceClass::NoConnectedPeers
                && outcome.parked_outcome == Some(DemandParkedSliceOutcome::HealthyZeroYield);
            let mode = if fast {
                DemandFinishMode::AcceleratedNoConnectedPeersBackoff
            } else {
                DemandFinishMode::Standard
            };
            &&& remembers_end(planner, step.planner, info_hash, outcome.unique_peers, now)
            &&& planner.entries.contains_key(info_hash) ==> standing(
                step.planner,
                info_hash,
                finished_entry(planner.intervals, planner.entries[info_hash], now, mode),
            )
            &&& step.planner.parked_crawls == planner.parked_crawls
            &&& step.effects.len() == 1
            &&& step.effects[0] matches PlannerEffectView::DrainFinalized(told) && told.info_hash
                == info_hash && told.outcome == outcome && told.finish_mode == mode
                && told.finalized_at == now && told.parked == planner.parked_crawls.contains_key(
                info_hash,
            ) && told.previous == previous && tells(told.current, step.planner, info_hash)
        }),
{
}

/// A lookup that was stopped gives its slot free and asks for a drain with all that is known of it.
/// Its demand keeps waiting until that is decided.
pub proof fn stopped_lookups_ask_for_a_drain(planner: PlannerView, action: DemandPlannerAction)
    requires
        action is LookupParkRequested,
    ensures
        ({
            let step = planner_step(planner, action);
            action matches DemandPlannerAction::LookupParkRequested {
                info_hash,
                slice_class,
                stop_reason,
                total_peers,
                unique_peers,
                lookup_ids,
            } && {
                &&& !step.planner.active.contains_key(info_hash)
                &&& step.planner.pending_parks.contains_key(info_hash)
                &&& step.planner.pending_parks[info_hash] == slice_class
                &&& step.planner.entries == planner.entries
                &&& step.planner.history == planner.history
                &&& step.effects.len() == 1
                &&& step.effects[0] matches PlannerEffectView::AdmitDrain {
                    info_hash: asked,
                    slice_class: class,
                    stop_reason: reason,
                    total_peers: total,
                    unique_peers: unique,
                    lookup_ids: ids,
                    previous,
                } && tells(previous, planner, info_hash) && asked == info_hash && class == slice_class && reason == stop_reason && total
                    == total_peers && unique == unique_peers@ && ids == lookup_ids@
            }
        }),
{
}

/// Once it is decided whether a stopped lookup is drained, the decision is no longer pending. Without
/// a drain the lookup is over; with one its demand waits for the end of the drain, which comes at
/// once where the demand has changed its kind meanwhile.
pub proof fn decided_drains_are_settled(planner: PlannerView, action: DemandPlannerAction)
    requires
        action is LookupParkResolved,
    ensures
        ({
            let step = planner_step(planner, action);
            action matches DemandPlannerAction::LookupParkResolved {
                info_hash,
                slice_class,
                stop_reason,
                total_peers,
                unique_peers,
                parked_outcome,
                drain_admission,
                previous,
                now,
            } && {
                let known = planner.entries.contains_key(info_hash);
                let demand = planner.entries[info_hash].demand;
                let changed = known && match slice_class {
                    DemandSliceClass::AwaitingMetadata => !demand.awaiting_metadata,
                    DemandSliceClass::NoConnectedPeers => demand.awaiting_metadata
                        || demand.connected_peers > 0,
                    DemandSliceClass::RoutineRefresh => demand.awaiting_metadata
                        || demand.connected_peers == 0,
                };
                &&& !step.planner.pending_parks.contains_key(info_hash)
                &&& drain_admission.is_some() ==> step.planner.entries == planner.entries
                    && step.planner.history == planner.history
                &&& drain_admission.is_none() ==> remembers_end(
                    planner,
                    step.planner,
                    info_hash,
                    unique_peers,
                    now,
                )
                &&& drain_admission.is_none() && known ==> standing(
                    step.planner,
                    info_hash,
                    finished_entry(
                        planner.intervals,
                        planner.entries[info_hash],
                        now,
                        DemandFinishMode::Standard,
                    ),
                )
                &&& step.effects.len() == if drain_admission.is_some() && changed {
                    2nat
                } else {
                    1nat
                }
                &&& step.effects[0] matches PlannerEffectView::LookupParked(told)
                    && told.info_hash == info_hash && told.slice_class == slice_class
                    && told.stop_reason == stop_reason && told.total_peers == total_peers
                    && told.unique_peers == unique_peers && told.parked_outcome == parked_outcome
                    && told.drain_admission == drain_admission && told.parked_at == now
                    && told.previous == previous && tells(told.current, step.planner, info_hash)
                &&& drain_admission.is_some() && changed ==> (step.effects[1] matches
                    PlannerEffectView::FinalizeDrainingLookup(end) && end.info_hash == info_hash
                    && end.force)
            }
        }),
{
}

/// A lookup that has started takes a slot with its ids, and its start is no longer pending.
pub proof fn started_lookups_take_a_slot(
    planner: PlannerView,
    info_hash: InfoHash,
    class: DemandSliceClass,
    lookup_ids: Vec<LookupId>,
)
    ensures
        ({
            let after = planner_step(
                planner,
                DemandPlannerAction::LookupStarted { info_hash, slice_class: class, lookup_ids },
            ).planner;
            &&& !after.pending_starts.contains_key(info_hash)
            &&& after.active.contains_key(info_hash)
            &&& after.active[info_hash].lookup_ids@ == lookup_ids@
            &&& after.active[info_hash].slice_class == class
            &&& after.entries == planner.entries && after.budget == planner.budget
        }),
{
}

/// One more part of a running lookup is one more of its ids, behind those that it had. Nothing else
/// changes, and nothing at all where no lookup runs.
pub proof fn further_parts_come_last(
    before: PlannerView,
    after: PlannerView,
    info_hash: InfoHash,
    lookup_id: LookupId,
    other: InfoHash,
)
    requires
        lookup_extended(before, after, info_hash, lookup_id),
        other != info_hash,
    ensures
        after.active.contains_key(info_hash) == before.active.contains_key(info_hash),
        before.active.contains_key(info_hash) ==> {
            let ids = after.active[info_hash].lookup_ids@;
            &&& ids.len() == before.active[info_hash].lookup_ids@.len() + 1
            &&& ids.last() == lookup_id
            &&& ids.drop_last() =~= before.active[info_hash].lookup_ids@
            &&& after.active[info_hash].slice_class == before.active[info_hash].slice_class
        },
        after.active.contains_key(other) == before.active.contains_key(other),
        before.active.contains_key(other) ==> after.active[other] == before.active[other],
        after.entries == before.entries && after.drains == before.drains && after.parked_crawls
            == before.parked_crawls && after.active_keys == before.active_keys,
{
    assert(after.active.dom().contains(info_hash) == before.active.dom().contains(info_hash));
    assert(after.active.dom().contains(other) == before.active.dom().contains(other));
}

/// A new key stands behind all others, a known one keeps its place, and a key that is taken out leaves
/// the others in their order.
pub proof fn tables_keep_their_order(keys: Seq<InfoHash>, key: InfoHash, i: int, j: int)
    requires
        keys.no_duplicates(),
        0 <= i < j < keys.len(),
    ensures
        keys_after_insert(keys, key)[i] == keys[i] && keys_after_insert(keys, key)[j] == keys[j],
        !keys.contains(key) ==> keys_after_insert(keys, key).last() == key,
        keys.contains(key) ==> keys_after_insert(keys, key) == keys,
        !keys_after_remove(keys, key).contains(key),
        keys[i] != key && keys[j] != key ==> {
            let left = keys_after_remove(keys, key);
            exists|a: int, b: int|
                0 <= a < b < left.len() && #[trigger] left[a] == keys[i] && #[trigger] left[b]
                    == keys[j]
        },
{
    let left = keys_after_remove(keys, key);
    if keys.contains(key) {
        let k = keys.index_of(key);
        assert forall|m: int| 0 <= m < left.len() implies left[m] == if m < k {
            keys[m]
        } else {
            keys[m + 1]
        } by {}
        if left.contains(key) {
            let m = left.index_of(key);
            assert(keys[if m < k { m } else { m + 1 }] == keys[k]);
        }
        if keys[i] != key && keys[j] != key {
            let a = if i < k {
                i
            } else {
                i - 1
            };
            let b = if j < k {
                j
            } else {
                j - 1
            };
            assert(left[a] == keys[i] && left[b] == keys[j]);
        }
    } else {
        assert(left[i] == keys[i] && left[j] == keys[j]);
    }
}

/// Late peers are counted for their demand's drain, each address once, and the drain goes on as it
/// was otherwise. Peers for a demand without a drain change nothing.
pub proof fn late_peers_go_to_their_drain(
    planner: PlannerView,
    info_hash: InfoHash,
    peers: &[PeerAddr],
    peer: PeerAddr,
    other: InfoHash,
)
    requires
        other != info_hash,
    ensures
        ({
            let step = planner_step(
                planner,
                DemandPlannerAction::PeersReceived { info_hash, peers },
            );
            let before = planner.drains[info_hash];
            let after = step.planner.drains[info_hash];
            &&& step.planner.drains.dom() =~= planner.drains.dom()
            &&& planner.drains.contains_key(info_hash) ==> {
                &&& after.unique_peers.contains(peer) <==> before.unique_peers.contains(peer)
                    || peers@.contains(peer)
                &&& before.total_peers + peers@.len() <= usize::MAX ==> after.total_peers
                    == before.total_peers + peers@.len()
                &&& after.initial_unique_peers == before.initial_unique_peers
                &&& after.deadline == before.deadline && after.started_at == before.started_at
                &&& after.no_late_yield_deadline == before.no_late_yield_deadline
                &&& after.lookup_ids == before.lookup_ids
                &&& step.effects.len() == 1
            }
            &&& !planner.drains.contains_key(info_hash) ==> step.effects.len() == 0
            &&& planner.drains.contains_key(other) ==> step.planner.drains[other]
                == planner.drains[other]
            &&& step.planner.entries == planner.entries
            &&& step.planner.history == planner.history
        }),
{
}

/// On a tick exactly those drains are asked to end that the runtime calls ready, that are past their
/// time, or that are past their grace without a late peer.
pub proof fn ticks_end_ready_drains(
    planner: PlannerView,
    now: Instant,
    runtime_ready: crate::table::InfoHashMap<bool>,
    info_hash: InfoHash,
)
    requires
        planner.drain_keys.contains(info_hash),
    ensures
        ({
            let step = planner_step(
                planner,
                DemandPlannerAction::DrainTick { now, runtime_ready },
            );
            let drain = planner.drains[info_hash];
            let ready = runtime_ready@.contains_key(info_hash) && runtime_ready@[info_hash];
            let asked = exists|i: int|
                0 <= i < step.effects.len() && (#[trigger] step.effects[i] matches
                    PlannerEffectView::FinalizeDrainingLookup(end) && end.info_hash == info_hash
                    && !end.force);
            &&& step.planner == planner
            &&& asked <==> ready || now >= drain.deadline || (now >= drain.no_late_yield_deadline
                && drain.unique_peers.len() <= drain.initial_unique_peers)
        }),
{
    broadcast use vstd::seq_lib::group_filter_ensures;

    let ready = crate::planner::step::drain_is_ready(planner.drains, runtime_ready@, now);
    let kept = planner.drain_keys.filter(ready);
    let step = planner_step(planner, DemandPlannerAction::DrainTick { now, runtime_ready });
    let k = planner.drain_keys.index_of(info_hash);
    if ready(info_hash) {
        assert(planner.drain_keys[k] == info_hash);
        assert(kept.contains(planner.drain_keys[k]));
        let i = kept.index_of(info_hash);
        assert(step.effects[i] matches PlannerEffectView::FinalizeDrainingLookup(end)
            && end.info_hash == info_hash && !end.force);
    }
}

/// A new runtime keeps every demand and its subscribers, gives up what ran and what was remembered of
/// it, fills the budget, and makes due at once what was cut off.
pub proof fn new_runtimes_start_afresh(planner: PlannerView, now: Instant, info_hash: InfoHash)
    ensures
        ({
            let step = planner_step(planner, DemandPlannerAction::RuntimeReset { now });
            let after = step.planner;
            let before = planner.entries[info_hash];
            let entry = after.entries[info_hash];
            &&& after.entries.contains_key(info_hash) == planner.entries.contains_key(info_hash)
            &&& planner.entries.contains_key(info_hash) ==> {
                &&& entry.demand == before.demand && entry.metrics == before.metrics
                &&& entry.subscriber_count == before.subscriber_count
                &&& !entry.in_progress && !entry.retrigger_pending
                &&& before.in_progress ==> entry.next_eligible_at <= now
                &&& before.in_progress ==> entry.next_eligible_at == now
                    || entry.next_eligible_at == before.next_eligible_at
                &&& !before.in_progress ==> entry.next_eligible_at == before.next_eligible_at
                &&& entry.no_connected_peers_backoff_step == before.no_connected_peers_backoff_step
            }
            &&& after.entry_keys == planner.entry_keys
            &&& after.active.len() == 0 && after.drains.len() == 0 && after.parked_crawls.len()
                == 0
            &&& after.history.len() == 0 && after.pending_starts.len() == 0
                && after.pending_parks.len() == 0
            &&& after.budget.awaiting_metadata.tokens_scaled == 20_000
            &&& after.budget.no_connected_peers.tokens_scaled == 10_000
            &&& after.budget.routine_refresh.tokens_scaled == 8_000
            &&& after.probe.current_multiplier == 1 && after.probe.idle_since.is_none()
            &&& step.effects.len() == 0
        }),
{
}

} // verus!
