use vstd::prelude::*;

use crate::clock::Instant;
use crate::demand::DhtDemandState;
use crate::ids::{InfoHash, PeerAddr};
use crate::limits::{DHT_DEMAND_LOOKUP_SLOT_COUNT, DHT_DEMAND_SPARE_RESEARCH_LAUNCH_LIMIT};
use crate::planner::actions::DemandPlannerAction;
use crate::planner::counts::{class_total, recorded_all_counts, DemandSlotCounts};
use crate::planner::drain::{drains_with_peers, kept_crawls};
use crate::planner::lookups::{
    active_classes, launch_budget, launch_budget_fits_slots, virtual_slots, ActiveDemandLookup,
    DrainView,
};
use crate::planner::model::{empty_planner, planner_intervals, PlannerView};
use crate::planner::plan::candidate_plan;
use crate::planner::probe::DemandPlannerIdleSpeedProbeStatus;
use crate::planner::selection::{
    candidate_classes, due_ranked, fill, ordered_by, probe_eligible, spare_eligible, spare_ranked,
};
use crate::planner::selection_laws::{
    launches_stay_within_class_caps, launches_stay_within_limit, spare_launches_stay_within_limit,
};
use crate::planner::step::{
    entries_finished, finish_mode_for, hash_of, launch_due, launch_for, plan_round, plannable,
    plannable_due, planner_step, registered_step, reset_step, round_launches, start_all,
    subscriber_removed_step, PlannedLaunch, StartFold,
};
use crate::scheduler::{as_candidate, is_due, snapshot_of, DemandEntry, DemandFinishMode};
use crate::slice::{class_of, DemandSelectionReason, DemandSliceClass};
use crate::table::{keys_after_insert, keys_after_remove};

verus! {

/// Whether a lookup runs, drains, starts or is being parked for a demand.
pub open spec fn is_busy(planner: PlannerView, info_hash: InfoHash) -> bool {
    planner.active.contains_key(info_hash) || planner.drains.contains_key(info_hash)
        || planner.pending_starts.contains_key(info_hash) || planner.pending_parks.contains_key(
        info_hash,
    )
}

/// Whether a demand is marked as being looked up.
pub open spec fn is_marked(planner: PlannerView, info_hash: InfoHash) -> bool {
    planner.entries.contains_key(info_hash) && planner.entries[info_hash].in_progress
}

/// The keys of a table are its domain, each once.
pub open spec fn keys_match(keys: Seq<InfoHash>, domain: Set<InfoHash>) -> bool {
    keys.no_duplicates() && keys.to_set() == domain
}

/// Every table is finite, and its keys are its domain.
pub open spec fn tables_match(planner: PlannerView) -> bool {
    &&& keys_match(planner.entry_keys, planner.entries.dom())
    &&& keys_match(planner.active_keys, planner.active.dom())
    &&& keys_match(planner.drain_keys, planner.drains.dom())
    &&& planner.pending_starts.dom().finite()
    &&& planner.pending_parks.dom().finite()
}

/// Whatever runs, runs for a demand that is marked.
pub open spec fn work_is_marked(planner: PlannerView) -> bool {
    forall|key: InfoHash| #[trigger] is_busy(planner, key) ==> is_marked(planner, key)
}

/// Something runs for every demand that is marked, but for one that may be exempt.
pub open spec fn marks_have_work(planner: PlannerView, exempt: Option<InfoHash>) -> bool {
    forall|key: InfoHash| #[trigger]
        is_marked(planner, key) && Some(key) != exempt ==> is_busy(planner, key)
}

/// Every demand has a subscriber.
pub open spec fn demands_are_wanted(planner: PlannerView) -> bool {
    forall|key: InfoHash| #[trigger]
        planner.entries.contains_key(key) ==> planner.entries[key].subscriber_count > 0
}

/// A demand becomes more urgent than its lookup only while that lookup runs.
pub open spec fn retriggers_are_marked(planner: PlannerView) -> bool {
    forall|key: InfoHash| #[trigger]
        planner.entries.contains_key(key) && planner.entries[key].retrigger_pending
            ==> planner.entries[key].in_progress
}

/// A running lookup neither drains nor starts nor is being parked; a starting one neither drains
/// nor is being parked.
pub open spec fn work_is_exclusive(planner: PlannerView) -> bool {
    &&& forall|key: InfoHash| #[trigger]
        planner.active.contains_key(key) ==> !planner.drains.contains_key(key)
            && !planner.pending_starts.contains_key(key) && !planner.pending_parks.contains_key(key)
    &&& forall|key: InfoHash| #[trigger]
        planner.pending_starts.contains_key(key) ==> !planner.drains.contains_key(key)
            && !planner.pending_parks.contains_key(key)
}

/// A drain has lookups and had queries in flight, ends after it began and not before its grace is
/// over, and has lost no peer.
pub open spec fn is_sound(drain: DrainView) -> bool {
    &&& drain.lookup_ids.len() > 0
    &&& drain.initial_inflight_queries > 0
    &&& drain.started_at <= drain.deadline
    &&& drain.no_late_yield_deadline <= drain.deadline
    &&& drain.unique_peers.finite()
    &&& drain.initial_unique_peers <= drain.unique_peers.len()
}

/// Every drain is sound.
pub open spec fn drains_are_sound(planner: PlannerView) -> bool {
    forall|key: InfoHash| #[trigger]
        planner.drains.contains_key(key) ==> is_sound(planner.drains[key])
}

/// The demands whose lookup is about to start in a class.
pub open spec fn starting(
    pending_starts: Map<InfoHash, DemandSliceClass>,
    class: DemandSliceClass,
) -> Set<InfoHash> {
    pending_starts.dom().filter(|key: InfoHash| pending_starts[key] == class)
}

/// The lookups of a class that run or are about to start.
pub open spec fn class_load(planner: PlannerView, class: DemandSliceClass) -> nat {
    class_total(active_classes(planner.active_keys, planner.active), class) + starting(
        planner.pending_starts,
        class,
    ).len()
}

/// The demands whose lookup is being parked and does not drain yet.
pub open spec fn parking(planner: PlannerView) -> Set<InfoHash> {
    planner.pending_parks.dom().difference(planner.drains.dom())
}

/// The slots that are taken up: by each lookup that runs, is about to start or is being parked, and
/// by the drains.
pub open spec fn slot_load(planner: PlannerView) -> nat {
    planner.active_keys.len() + planner.pending_starts.dom().len() + parking(planner).len()
        + virtual_slots(planner.drain_keys.len() as usize) as nat
}

/// No class takes up more slots than it has, nor all together more than there are.
pub open spec fn slots_suffice(planner: PlannerView) -> bool {
    &&& forall|class: DemandSliceClass| #[trigger] class_load(planner, class) <= class.slot_cap()
    &&& slot_load(planner) <= DHT_DEMAND_LOOKUP_SLOT_COUNT
    &&& planner.drain_keys.len() <= usize::MAX
}

/// The planner's state is consistent, but for a mark that may be exempt.
pub open spec fn is_consistent_but(planner: PlannerView, exempt: Option<InfoHash>) -> bool {
    &&& tables_match(planner)
    &&& work_is_marked(planner)
    &&& marks_have_work(planner, exempt)
    &&& demands_are_wanted(planner)
    &&& retriggers_are_marked(planner)
    &&& planner.intervals == planner_intervals()
    &&& work_is_exclusive(planner)
    &&& drains_are_sound(planner)
    &&& slots_suffice(planner)
}

/// The planner's state is consistent.
pub open spec fn is_consistent(planner: PlannerView) -> bool {
    is_consistent_but(planner, None)
}

/// Whether every lookup that was asked for has started or failed, and every parking is over.
pub open spec fn nothing_pending(planner: PlannerView) -> bool {
    planner.pending_starts.dom() == Set::<InfoHash>::empty() && planner.pending_parks.dom()
        == Set::<InfoHash>::empty()
}

/// Whether an action comes when it may: a lookup starts or fails to start that was asked for, a
/// lookup finishes that does not drain or wait, a lookup is parked that runs, a parking comes to
/// its end that was begun and is told of the drain that it led to, a drain is reported that is
/// over, and lookups are planned when nothing is pending.
pub open spec fn is_timely(planner: PlannerView, action: DemandPlannerAction) -> bool {
    match action {
        DemandPlannerAction::PlanDue { .. } => nothing_pending(planner),
        DemandPlannerAction::LookupStarted { info_hash, slice_class, .. } =>
            planner.pending_starts.contains_key(info_hash) && planner.pending_starts[info_hash]
            == slice_class,
        DemandPlannerAction::LookupStartFailed { info_hash, .. } =>
            planner.pending_starts.contains_key(info_hash),
        DemandPlannerAction::LookupFinished { info_hash, .. } => !planner.drains.contains_key(
            info_hash,
        ) && !planner.pending_starts.contains_key(info_hash) && !planner.pending_parks.contains_key(
            info_hash,
        ),
        DemandPlannerAction::LookupParkRequested { info_hash, .. } => planner.active.contains_key(
            info_hash,
        ),
        DemandPlannerAction::LookupParkResolved { info_hash, drain_admission, .. } =>
            planner.pending_parks.contains_key(info_hash) && drain_admission.is_some()
            == planner.drains.contains_key(info_hash),
        DemandPlannerAction::DrainedLookupFinalized { info_hash, .. } => !is_busy(
            planner,
            info_hash,
        ),
        _ => true,
    }
}

/// The demand that an action may leave marked without work before it: the one whose drain is over.
pub open spec fn exempt_for(action: DemandPlannerAction) -> Option<InfoHash> {
    match action {
        DemandPlannerAction::DrainedLookupFinalized { info_hash, .. } => Some(info_hash),
        _ => None,
    }
}

// Keys.

pub proof fn lemma_keys_insert(keys: Seq<InfoHash>, domain: Set<InfoHash>, key: InfoHash)
    requires
        keys_match(keys, domain),
    ensures
        keys_match(keys_after_insert(keys, key), domain.insert(key)),
        keys.contains(key) == domain.contains(key),
        keys_after_insert(keys, key).len() == keys.len() + if domain.contains(key) {
            0int
        } else {
            1
        },
{
    let after = keys_after_insert(keys, key);
    assert(keys.contains(key) == keys.to_set().contains(key));
    if !keys.contains(key) {
        assert forall|other: InfoHash| #[trigger]
            after.to_set().contains(other) == domain.insert(key).contains(other) by {
            if keys.contains(other) {
                assert(after[keys.index_of(other)] == other);
                assert(keys.to_set().contains(other));
            }
            if other == key {
                assert(after[keys.len() as int] == other);
            }
            if after.contains(other) && other != key {
                let i = after.index_of(other);
                assert(keys[i] == other);
                assert(keys.to_set().contains(other));
            }
        }
    }
    assert(after.to_set() =~= domain.insert(key));
}

pub proof fn lemma_keys_remove(keys: Seq<InfoHash>, domain: Set<InfoHash>, key: InfoHash)
    requires
        keys_match(keys, domain),
    ensures
        keys_match(keys_after_remove(keys, key), domain.remove(key)),
        keys.contains(key) == domain.contains(key),
        keys_after_remove(keys, key).len() == keys.len() - if domain.contains(key) {
            1int
        } else {
            0
        },
{
    let after = keys_after_remove(keys, key);
    assert(keys.contains(key) == keys.to_set().contains(key));
    if keys.contains(key) {
        let i = keys.index_of(key);
        assert forall|other: InfoHash| #[trigger]
            after.to_set().contains(other) == domain.remove(key).contains(other) by {
            if after.contains(other) {
                let j = after.index_of(other);
                assert(keys[if j < i { j } else { j + 1 }] == other);
                assert(keys.to_set().contains(other));
            }
            if domain.contains(other) && other != key {
                assert(keys.to_set().contains(other));
                let j = keys.index_of(other);
                assert(after[if j < i { j } else { j - 1 }] == other);
            }
        }
    }
    assert(after.to_set() =~= domain.remove(key));
}

proof fn lemma_keys_len(keys: Seq<InfoHash>, domain: Set<InfoHash>)
    requires
        keys_match(keys, domain),
    ensures
        domain.finite(),
        domain.len() == keys.len(),
        forall|key: InfoHash| #[trigger] domain.contains(key) == keys.contains(key),
{
    keys.unique_seq_to_set();
    assert forall|key: InfoHash| #[trigger] domain.contains(key) == keys.contains(key) by {
        assert(keys.to_set().contains(key) == keys.contains(key));
    }
}

// Loads.

proof fn lemma_class_total_push(
    classes: Seq<DemandSliceClass>,
    last: DemandSliceClass,
    class: DemandSliceClass,
)
    ensures
        class_total(classes.push(last), class) == class_total(classes, class) + if last == class {
            1nat
        } else {
            0
        },
{
    assert(classes.push(last).drop_last() =~= classes);
}

proof fn lemma_class_total_remove(
    classes: Seq<DemandSliceClass>,
    i: int,
    class: DemandSliceClass,
)
    requires
        0 <= i < classes.len(),
    ensures
        class_total(classes.remove(i), class) + (if classes[i] == class {
            1nat
        } else {
            0
        }) == class_total(classes, class),
    decreases classes.len(),
{
    if i == classes.len() - 1 {
        assert(classes.remove(i) =~= classes.drop_last());
    } else {
        lemma_class_total_remove(classes.drop_last(), i, class);
        assert(classes.remove(i).drop_last() =~= classes.drop_last().remove(i));
        assert(classes.remove(i).last() == classes.last());
    }
}

proof fn lemma_class_total_bound(classes: Seq<DemandSliceClass>, class: DemandSliceClass)
    ensures
        class_total(classes, class) <= classes.len(),
    decreases classes.len(),
{
    if classes.len() > 0 {
        lemma_class_total_bound(classes.drop_last(), class);
    }
}

/// Without a lookup a class carries no more than before.
proof fn lemma_active_remove(
    keys: Seq<InfoHash>,
    active: Map<InfoHash, ActiveDemandLookup>,
    key: InfoHash,
    class: DemandSliceClass,
)
    requires
        keys_match(keys, active.dom()),
    ensures
        class_total(active_classes(keys_after_remove(keys, key), active.remove(key)), class)
            <= class_total(active_classes(keys, active), class),
{
    lemma_keys_len(keys, active.dom());
    let classes = active_classes(keys, active);
    if keys.contains(key) {
        let i = keys.index_of(key);
        assert(active_classes(keys_after_remove(keys, key), active.remove(key))
            =~= classes.remove(i)) by {
            let after = keys_after_remove(keys, key);
            assert forall|j: int| 0 <= j < after.len() implies after[j] != key by {
                let k = if j < i { j } else { j + 1 };
                assert(after[j] == keys[k]);
            }
        }
        lemma_class_total_remove(classes, i, class);
    } else {
        assert(active_classes(keys_after_remove(keys, key), active.remove(key)) =~= classes) by {
            assert forall|j: int| 0 <= j < keys.len() implies keys[j] != key by {}
        }
    }
}

/// A new lookup adds one to its class.
proof fn lemma_active_insert(
    keys: Seq<InfoHash>,
    active: Map<InfoHash, ActiveDemandLookup>,
    key: InfoHash,
    lookup: ActiveDemandLookup,
    class: DemandSliceClass,
)
    requires
        keys_match(keys, active.dom()),
        !active.contains_key(key),
    ensures
        class_total(
            active_classes(keys_after_insert(keys, key), active.insert(key, lookup)),
            class,
        ) == class_total(active_classes(keys, active), class) + if lookup.slice_class == class {
            1nat
        } else {
            0
        },
{
    lemma_keys_len(keys, active.dom());
    let classes = active_classes(keys, active);
    assert(active_classes(keys_after_insert(keys, key), active.insert(key, lookup)) =~= classes.push(
        lookup.slice_class,
    )) by {
        assert forall|j: int| 0 <= j < keys.len() implies keys[j] != key by {
            assert(keys.contains(keys[j]));
        }
    }
    lemma_class_total_push(classes, lookup.slice_class, class);
}

proof fn lemma_starting_remove(
    pending_starts: Map<InfoHash, DemandSliceClass>,
    key: InfoHash,
    class: DemandSliceClass,
)
    requires
        pending_starts.dom().finite(),
    ensures
        starting(pending_starts, class).finite(),
        starting(pending_starts.remove(key), class).finite(),
        starting(pending_starts.remove(key), class).len() + (if pending_starts.contains_key(key)
            && pending_starts[key] == class {
            1nat
        } else {
            0
        }) == starting(pending_starts, class).len(),
        pending_starts.remove(key).dom().len() + (if pending_starts.contains_key(key) {
            1nat
        } else {
            0
        }) == pending_starts.dom().len(),
{
    assert(starting(pending_starts.remove(key), class) =~= starting(pending_starts, class).remove(
        key,
    ));
    assert(pending_starts.remove(key).dom() =~= pending_starts.dom().remove(key));
}

proof fn lemma_starting_insert(
    pending_starts: Map<InfoHash, DemandSliceClass>,
    key: InfoHash,
    added: DemandSliceClass,
    class: DemandSliceClass,
)
    requires
        pending_starts.dom().finite(),
    ensures
        starting(pending_starts.insert(key, added), class).finite(),
        starting(pending_starts.insert(key, added), class).len() <= starting(
            pending_starts,
            class,
        ).len() + if added == class {
            1nat
        } else {
            0
        },
        pending_starts.insert(key, added).dom().finite(),
        pending_starts.insert(key, added).dom().len() <= pending_starts.dom().len() + 1,
{
    let after = starting(pending_starts.insert(key, added), class);
    assert(pending_starts.insert(key, added).dom() =~= pending_starts.dom().insert(key));
    if added == class {
        assert(after =~= starting(pending_starts, class).insert(key));
    } else {
        assert(after =~= starting(pending_starts, class).remove(key));
    }
}

/// The parked demands are no more in number with fewer of them, or with more drains.
proof fn lemma_parking_shrinks(before: PlannerView, after: PlannerView)
    requires
        before.pending_parks.dom().finite(),
        after.pending_parks.dom().subset_of(before.pending_parks.dom()),
        before.drains.dom().intersect(after.pending_parks.dom()).subset_of(after.drains.dom()),
    ensures
        parking(after).finite(),
        parking(after).len() <= parking(before).len(),
{
    assert(parking(after).subset_of(parking(before)));
    vstd::set_lib::lemma_len_subset(parking(after), parking(before));
}

pub proof fn lemma_fewer_virtual_slots(less: nat, more: nat)
    requires
        less <= more <= usize::MAX,
    ensures
        virtual_slots(less as usize) <= virtual_slots(more as usize),
{
}

// What each action keeps.

/// Whether nothing changed in what runs.
spec fn same_work(before: PlannerView, after: PlannerView) -> bool {
    &&& after.active == before.active
    &&& after.active_keys == before.active_keys
    &&& after.pending_starts == before.pending_starts
    &&& after.pending_parks == before.pending_parks
    &&& after.drains == before.drains
    &&& after.drain_keys == before.drain_keys
}

proof fn lemma_same_work(before: PlannerView, after: PlannerView)
    requires
        is_consistent(before),
        same_work(before, after),
        keys_match(after.entry_keys, after.entries.dom()),
        demands_are_wanted(after),
        retriggers_are_marked(after),
        after.intervals == before.intervals,
        forall|key: InfoHash| #[trigger] is_marked(after, key) == is_marked(before, key),
    ensures
        is_consistent(after),
{
    assert forall|key: InfoHash| #[trigger] is_busy(after, key) implies is_marked(after, key) by {
        assert(is_busy(before, key));
    }
    assert forall|key: InfoHash| #[trigger] is_marked(after, key) implies is_busy(after, key) by {
        assert(is_marked(before, key));
        assert(is_busy(before, key));
    }
    assert(parking(after) == parking(before));
    assert forall|class: DemandSliceClass| #[trigger] class_load(after, class)
        <= class.slot_cap() by {
        assert(class_load(after, class) == class_load(before, class));
    }
}

proof fn lemma_reset(planner: PlannerView, now: Instant)
    requires
        is_consistent(planner),
    ensures
        is_consistent(reset_step(planner, now).planner),
{
    let after = reset_step(planner, now).planner;
    assert(after.entries.dom() =~= planner.entries.dom());
    assert(Seq::<InfoHash>::empty().to_set() =~= Set::<InfoHash>::empty());
    assert(after.active.dom() =~= Set::<InfoHash>::empty());
    assert(after.drains.dom() =~= Set::<InfoHash>::empty());
    assert(after.pending_starts.dom() =~= Set::<InfoHash>::empty());
    assert(after.pending_parks.dom() =~= Set::<InfoHash>::empty());
    assert(parking(after) =~= Set::<InfoHash>::empty());
    assert forall|class: DemandSliceClass| #[trigger] class_load(after, class)
        <= class.slot_cap() by {
        assert(active_classes(after.active_keys, after.active) =~= Seq::<
            DemandSliceClass,
        >::empty());
        assert(starting(after.pending_starts, class) =~= Set::<InfoHash>::empty());
    }
    assert forall|key: InfoHash| #[trigger] planner.entries.contains_key(key) implies
        after.entries[key].subscriber_count > 0 by {}
}

proof fn lemma_registered(
    planner: PlannerView,
    info_hash: InfoHash,
    demand: DhtDemandState,
    now: Instant,
)
    requires
        is_consistent(planner),
    ensures
        is_consistent(registered_step(planner, info_hash, demand, now).planner),
{
    let after = registered_step(planner, info_hash, demand, now).planner;
    lemma_keys_insert(planner.entry_keys, planner.entries.dom(), info_hash);
    assert(after.entries.dom() =~= planner.entries.dom().insert(info_hash));
    lemma_same_work(planner, after);
}

proof fn lemma_subscriber_removed(planner: PlannerView, info_hash: InfoHash)
    requires
        is_consistent(planner),
    ensures
        is_consistent(subscriber_removed_step(planner, info_hash).planner),
{
    let after = subscriber_removed_step(planner, info_hash).planner;
    if planner.entries.contains_key(info_hash) {
        if planner.entries[info_hash].subscriber_count > 1 {
            assert(after.entries.dom() =~= planner.entries.dom());
            lemma_same_work(planner, after);
        } else {
            lemma_keys_remove(planner.entry_keys, planner.entries.dom(), info_hash);
            lemma_keys_remove(planner.active_keys, planner.active.dom(), info_hash);
            lemma_keys_remove(planner.drain_keys, planner.drains.dom(), info_hash);
            assert(after.entries.dom() =~= planner.entries.dom().remove(info_hash));
            assert(after.active.dom() =~= planner.active.dom().remove(info_hash));
            assert(after.drains.dom() =~= planner.drains.dom().remove(info_hash));
            assert(after.pending_parks.dom() =~= planner.pending_parks.dom().remove(info_hash));
            assert forall|class: DemandSliceClass| #[trigger] class_load(after, class)
                <= class.slot_cap() by {
                assert(class_load(planner, class) <= class.slot_cap());
                lemma_active_remove(planner.active_keys, planner.active, info_hash, class);
                lemma_starting_remove(planner.pending_starts, info_hash, class);
            }
            lemma_starting_remove(
                planner.pending_starts,
                info_hash,
                DemandSliceClass::RoutineRefresh,
            );
            lemma_parking_shrinks(planner, after);
            lemma_fewer_virtual_slots(after.drain_keys.len(), planner.drain_keys.len());
            assert forall|key: InfoHash| #[trigger] is_busy(after, key) implies is_marked(
                after,
                key,
            ) by {
                assert(is_busy(planner, key));
            }
            assert forall|key: InfoHash| #[trigger] is_marked(after, key) implies is_busy(
                after,
                key,
            ) by {
                assert(is_marked(planner, key));
            }
        }
    }
}

/// Late peers keep the planner consistent.
pub proof fn peers_keep_consistency(planner: PlannerView, info_hash: InfoHash, peers: Seq<PeerAddr>)
    requires
        is_consistent(planner),
    ensures
        is_consistent(
            PlannerView { drains: drains_with_peers(planner.drains, info_hash, peers), ..planner },
        ),
{
    let after = PlannerView {
        drains: drains_with_peers(planner.drains, info_hash, peers),
        ..planner
    };
    assert(after.drains.dom() =~= planner.drains.dom());
    assert(parking(after) =~= parking(planner));
    assert forall|class: DemandSliceClass| #[trigger] class_load(after, class)
        <= class.slot_cap() by {
        assert(class_load(after, class) == class_load(planner, class));
    }
    assert forall|key: InfoHash| #[trigger] is_busy(after, key) implies is_marked(after, key) by {
        assert(is_busy(planner, key));
    }
    assert forall|key: InfoHash| #[trigger] is_marked(after, key) implies is_busy(after, key) by {
        assert(is_marked(planner, key));
    }
    if planner.drains.contains_key(info_hash) {
        let drain = planner.drains[info_hash];
        assert(is_sound(drain));
        vstd::seq_lib::seq_to_set_is_finite(peers);
        vstd::set_lib::lemma_len_subset(
            drain.unique_peers,
            drain.with_peers(peers).unique_peers,
        );
    }
}

proof fn lemma_lookup_started(
    planner: PlannerView,
    info_hash: InfoHash,
    lookup: ActiveDemandLookup,
)
    requires
        is_consistent(planner),
        planner.pending_starts.contains_key(info_hash),
        planner.pending_starts[info_hash] == lookup.slice_class,
    ensures
        is_consistent(
            PlannerView {
                pending_starts: planner.pending_starts.remove(info_hash),
                active: planner.active.insert(info_hash, lookup),
                active_keys: keys_after_insert(planner.active_keys, info_hash),
                ..planner
            },
        ),
{
    let after = PlannerView {
        pending_starts: planner.pending_starts.remove(info_hash),
        active: planner.active.insert(info_hash, lookup),
        active_keys: keys_after_insert(planner.active_keys, info_hash),
        ..planner
    };
    assert(!planner.active.contains_key(info_hash));
    assert(is_busy(planner, info_hash));
    lemma_keys_insert(planner.active_keys, planner.active.dom(), info_hash);
    assert(after.active.dom() =~= planner.active.dom().insert(info_hash));
    assert(parking(after) =~= parking(planner));
    assert forall|class: DemandSliceClass| #[trigger] class_load(after, class)
        <= class.slot_cap() by {
        assert(class_load(planner, class) <= class.slot_cap());
        lemma_active_insert(planner.active_keys, planner.active, info_hash, lookup, class);
        lemma_starting_remove(planner.pending_starts, info_hash, class);
    }
    lemma_starting_remove(planner.pending_starts, info_hash, DemandSliceClass::RoutineRefresh);
    assert forall|key: InfoHash| #[trigger] is_busy(after, key) implies is_marked(after, key) by {
        assert(is_busy(planner, key));
    }
    assert forall|key: InfoHash| #[trigger] is_marked(after, key) implies is_busy(after, key) by {
        assert(is_marked(planner, key));
    }
}

/// A demand whose work is over is no longer marked, and nothing is left of its work.
proof fn lemma_work_over(before: PlannerView, after: PlannerView, info_hash: InfoHash)
    requires
        is_consistent_but(before, Some(info_hash)),
        after.entry_keys == before.entry_keys,
        after.entries.dom() == before.entries.dom(),
        forall|key: InfoHash| #[trigger]
            before.entries.contains_key(key) && key != info_hash ==> after.entries[key]
                == before.entries[key],
        before.entries.contains_key(info_hash) ==> !after.entries[info_hash].in_progress
            && !after.entries[info_hash].retrigger_pending
            && after.entries[info_hash].subscriber_count
            == before.entries[info_hash].subscriber_count,
        after.intervals == before.intervals,
        after.active == before.active.remove(info_hash),
        after.active_keys == keys_after_remove(before.active_keys, info_hash),
        after.pending_starts == before.pending_starts.remove(info_hash),
        after.pending_parks == before.pending_parks.remove(info_hash),
        after.drains == before.drains,
        after.drain_keys == before.drain_keys,
        !before.drains.contains_key(info_hash),
    ensures
        is_consistent(after),
{
    lemma_keys_remove(before.active_keys, before.active.dom(), info_hash);
    assert(after.active.dom() =~= before.active.dom().remove(info_hash));
    assert(after.pending_parks.dom() =~= before.pending_parks.dom().remove(info_hash));
    assert forall|class: DemandSliceClass| #[trigger] class_load(after, class)
        <= class.slot_cap() by {
        assert(class_load(before, class) <= class.slot_cap());
        lemma_active_remove(before.active_keys, before.active, info_hash, class);
        lemma_starting_remove(before.pending_starts, info_hash, class);
    }
    lemma_starting_remove(before.pending_starts, info_hash, DemandSliceClass::RoutineRefresh);
    lemma_parking_shrinks(before, after);
    assert forall|key: InfoHash| #[trigger] is_busy(after, key) implies is_marked(after, key) by {
        assert(is_busy(before, key));
        assert(is_marked(before, key));
    }
    assert forall|key: InfoHash| #[trigger] is_marked(after, key) implies is_busy(after, key) by {
        assert(is_marked(before, key));
        assert(is_busy(before, key));
    }
    assert forall|key: InfoHash| #[trigger] after.entries.contains_key(key) implies
        after.entries[key].subscriber_count > 0 by {
        assert(before.entries.contains_key(key));
    }
}

proof fn lemma_exempting(planner: PlannerView, exempt: InfoHash)
    requires
        is_consistent(planner),
    ensures
        is_consistent_but(planner, Some(exempt)),
{
    assert forall|key: InfoHash| #[trigger]
        is_marked(planner, key) && Some(key) != Some(exempt) implies is_busy(planner, key) by {
        assert(is_marked(planner, key) && Some(key) != None::<InfoHash>);
    }
}

proof fn lemma_absent_key(planner: PlannerView, info_hash: InfoHash)
    requires
        tables_match(planner),
        !planner.active.contains_key(info_hash),
    ensures
        keys_after_remove(planner.active_keys, info_hash) == planner.active_keys,
        planner.active.remove(info_hash) == planner.active,
{
    lemma_keys_len(planner.active_keys, planner.active.dom());
    assert(planner.active.remove(info_hash) =~= planner.active);
}

proof fn lemma_start_failed(planner: PlannerView, info_hash: InfoHash, after: PlannerView)
    requires
        is_consistent(planner),
        planner.pending_starts.contains_key(info_hash),
        after == (PlannerView {
            pending_starts: planner.pending_starts.remove(info_hash),
            budget: after.budget,
            entries: after.entries,
            ..planner
        }),
        after.entries.dom() == planner.entries.dom(),
        forall|key: InfoHash| #[trigger]
            planner.entries.contains_key(key) && key != info_hash ==> after.entries[key]
                == planner.entries[key],
        planner.entries.contains_key(info_hash) ==> !after.entries[info_hash].in_progress
            && !after.entries[info_hash].retrigger_pending
            && after.entries[info_hash].subscriber_count
            == planner.entries[info_hash].subscriber_count,
    ensures
        is_consistent(after),
{
    lemma_exempting(planner, info_hash);
    assert(!planner.active.contains_key(info_hash)) by {
        if planner.active.contains_key(info_hash) {
            assert(!planner.pending_starts.contains_key(info_hash));
        }
    }
    lemma_absent_key(planner, info_hash);
    assert(planner.pending_parks.remove(info_hash) =~= planner.pending_parks);
    lemma_work_over(planner, after, info_hash);
}

/// The classes of launches.
spec fn launch_classes(launches: Seq<PlannedLaunch>) -> Seq<DemandSliceClass> {
    launches.map_values(|launch: PlannedLaunch| class_of(launch.candidate.demand))
}

/// Whether an entry was marked since.
spec fn newly_marked(before: StartFold, after: StartFold, key: InfoHash) -> bool {
    before.entries.contains_key(key) && !before.entries[key].in_progress
        && after.entries[key].in_progress
}

/// What starting launches does: it marks entries and changes nothing else in them, and the starts
/// that are pending afterwards are those that were pending and those that were marked.
spec fn starts_tracked(before: StartFold, after: StartFold) -> bool {
    &&& after.entries.dom() == before.entries.dom()
    &&& forall|key: InfoHash| #[trigger]
        before.entries.contains_key(key) ==> after.entries[key] == (DemandEntry {
            in_progress: after.entries[key].in_progress,
            ..before.entries[key]
        }) && (before.entries[key].in_progress ==> after.entries[key].in_progress)
    &&& forall|key: InfoHash| #[trigger]
        after.pending_starts.contains_key(key) <==> before.pending_starts.contains_key(key)
            || newly_marked(before, after, key)
}

proof fn lemma_start_all(
    before: StartFold,
    launches: Seq<PlannedLaunch>,
    status: DemandPlannerIdleSpeedProbeStatus,
    now: Instant,
)
    requires
        before.pending_starts.dom().finite(),
    ensures
        starts_tracked(before, start_all(before, launches, status, now)),
        start_all(before, launches, status, now).pending_starts.dom().finite(),
        start_all(before, launches, status, now).pending_starts.dom().len()
            <= before.pending_starts.dom().len() + launches.len(),
        forall|class: DemandSliceClass| #[trigger]
            starting(start_all(before, launches, status, now).pending_starts, class).len()
                <= starting(before.pending_starts, class).len() + class_total(
                launch_classes(launches),
                class,
            ),
    decreases launches.len(),
{
    let after = start_all(before, launches, status, now);
    if launches.len() == 0 {
    } else {
        let rest = launches.drop_last();
        let launch = launches.last();
        let middle = start_all(before, rest, status, now);
        lemma_start_all(before, rest, status, now);
        let key = launch.candidate.info_hash;
        let plan = candidate_plan(launch.candidate, middle.history, launch.reason, status, now);
        assert(launch_classes(launches).drop_last() =~= launch_classes(rest));
        if middle.entries.contains_key(key) && !middle.entries[key].in_progress {
            assert(after.entries.dom() =~= before.entries.dom());
            assert forall|other: InfoHash| #[trigger]
                after.pending_starts.contains_key(other) <==> before.pending_starts.contains_key(
                    other,
                ) || newly_marked(before, after, other) by {
                assert(middle.pending_starts.contains_key(other)
                    <==> before.pending_starts.contains_key(other) || newly_marked(
                    before,
                    middle,
                    other,
                ));
                assert(before.entries.contains_key(other) == middle.entries.contains_key(other));
            }
            assert forall|other: InfoHash| #[trigger]
                before.entries.contains_key(other) implies after.entries[other] == (DemandEntry {
                in_progress: after.entries[other].in_progress,
                ..before.entries[other]
            }) && (before.entries[other].in_progress ==> after.entries[other].in_progress) by {
                assert(middle.entries.contains_key(other));
            }
            assert forall|class: DemandSliceClass| #[trigger]
                starting(after.pending_starts, class).len() <= starting(
                    before.pending_starts,
                    class,
                ).len() + class_total(launch_classes(launches), class) by {
                assert(starting(middle.pending_starts, class).len() <= starting(
                    before.pending_starts,
                    class,
                ).len() + class_total(launch_classes(rest), class));
                lemma_starting_insert(middle.pending_starts, key, plan.class, class);
            }
            lemma_starting_insert(
                middle.pending_starts,
                key,
                plan.class,
                DemandSliceClass::RoutineRefresh,
            );
        } else {
            assert forall|class: DemandSliceClass| #[trigger]
                starting(after.pending_starts, class).len() <= starting(
                    before.pending_starts,
                    class,
                ).len() + class_total(launch_classes(launches), class) by {
                assert(starting(middle.pending_starts, class).len() <= starting(
                    before.pending_starts,
                    class,
                ).len() + class_total(launch_classes(rest), class));
            }
        }
    }
}

proof fn lemma_class_total_concat(
    left: Seq<DemandSliceClass>,
    right: Seq<DemandSliceClass>,
    class: DemandSliceClass,
)
    ensures
        class_total(left + right, class) == class_total(left, class) + class_total(right, class),
    decreases right.len(),
{
    if right.len() == 0 {
        assert(left + right =~= left);
    } else {
        lemma_class_total_concat(left, right.drop_last(), class);
        assert((left + right).drop_last() =~= left + right.drop_last());
    }
}

/// What a planning round launches fits into the slots of its classes and into its room.
proof fn lemma_round_fits(
    planner: PlannerView,
    status: DemandPlannerIdleSpeedProbeStatus,
    now: Instant,
    room: usize,
    class: DemandSliceClass,
)
    requires
        planner.active_keys.len() <= DHT_DEMAND_LOOKUP_SLOT_COUNT,
        room <= DHT_DEMAND_LOOKUP_SLOT_COUNT,
        class_total(active_classes(planner.active_keys, planner.active), class)
            <= class.slot_cap(),
    ensures
        round_launches(planner, status, now, room).launches.len() <= room,
        class_total(active_classes(planner.active_keys, planner.active), class) + class_total(
            launch_classes(round_launches(planner, status, now, room).launches),
            class,
        ) <= class.slot_cap(),
{
    let classes = active_classes(planner.active_keys, planner.active);
    let counts = DemandSlotCounts::zero().recorded_all(classes);
    recorded_all_counts(DemandSlotCounts::zero(), classes, class);
    let round = round_launches(planner, status, now, room);
    let order = ordered_by(
        plannable_due(planner, now),
        due_ranked(planner.parked_crawls, planner.history, now),
    );
    let due = fill(order, counts, planner.budget, now, room as nat);
    launches_stay_within_limit(order, counts, planner.budget, now, room as nat);
    launches_stay_within_class_caps(order, counts, planner.budget, now, room as nat, class);
    recorded_all_counts(counts, candidate_classes(due.launches), class);
    let due_launches = due.launches.map_values(launch_due(planner, now));
    assert(launch_classes(due_launches) =~= candidate_classes(due.launches));
    let probing = status.active && due_launches.len() < room;
    let planned_counts = counts.recorded_all(candidate_classes(due.launches));
    let left = (room - due_launches.len()) as usize;
    let probe_order = ordered_by(
        plannable(planner).filter(
            probe_eligible(due.launches.map_values(hash_of()), now),
        ).map_values(as_candidate()),
        due_ranked(planner.parked_crawls, planner.history, now),
    );
    let probe = fill(probe_order, planned_counts, due.budget, now, left as nat);
    let probe_launches = probe.launches.map_values(
        launch_for(DemandSelectionReason::IdleSpeedProbe),
    );
    launches_stay_within_limit(probe_order, planned_counts, due.budget, now, left as nat);
    launches_stay_within_class_caps(
        probe_order,
        planned_counts,
        due.budget,
        now,
        left as nat,
        class,
    );
    assert(launch_classes(probe_launches) =~= candidate_classes(probe.launches));
    let planned = due_launches + if probing {
        probe_launches
    } else {
        seq![]
    };
    if planned.len() > 0 {
        if probing {
            assert(launch_classes(planned) =~= launch_classes(due_launches) + launch_classes(
                probe_launches,
            ));
            lemma_class_total_concat(
                launch_classes(due_launches),
                launch_classes(probe_launches),
                class,
            );
        } else {
            assert(planned =~= due_launches);
        }
    } else {
        let budget = if probing {
            probe.budget
        } else {
            due.budget
        };
        let spare_order = ordered_by(
            plannable(planner).filter(spare_eligible(planner.history, now)).map_values(
                as_candidate(),
            ),
            spare_ranked(planner.parked_crawls, planner.history, now),
        );
        let limit = if room < DHT_DEMAND_SPARE_RESEARCH_LAUNCH_LIMIT {
            room as nat
        } else {
            DHT_DEMAND_SPARE_RESEARCH_LAUNCH_LIMIT as nat
        };
        spare_launches_stay_within_limit(spare_order, budget, now, limit);
        lemma_class_total_bound(launch_classes(round.launches), class);
    }
}

#[verifier::rlimit(30)]
proof fn lemma_plan_round(planner: PlannerView, now: Instant)
    requires
        is_consistent(planner),
        nothing_pending(planner),
    ensures
        is_consistent(plan_round(planner, now).planner),
{
    let after = plan_round(planner, now).planner;
    let swept = PlannerView { parked_crawls: kept_crawls(planner.parked_crawls, now), ..planner };
    let draining = planner.drain_keys.len() as usize;
    let room = launch_budget(planner.active_keys.len() as usize, draining);
    if room == 0 {
        lemma_same_work(planner, after);
    } else {
        let status = planner.probe.observed_status(plannable(swept), now);
        let ready = PlannerView { budget: planner.budget.refilled(now), ..swept };
        let round = round_launches(ready, status, now, room);
        let start = StartFold {
            entries: ready.entries,
            history: ready.history,
            pending_starts: ready.pending_starts,
            budget: round.budget,
            effects: seq![],
        };
        let started = start_all(start, round.launches, status, now);
        lemma_start_all(start, round.launches, status, now);
        launch_budget_fits_slots(planner.active_keys.len() as usize, draining);
        assert(after.entries.dom() =~= planner.entries.dom());
        assert(parking(after) =~= parking(planner));
        assert forall|class: DemandSliceClass| #[trigger] class_load(after, class)
            <= class.slot_cap() by {
            assert(class_load(planner, class) <= class.slot_cap());
            assert(starting(planner.pending_starts, class) =~= Set::<InfoHash>::empty());
            lemma_round_fits(ready, status, now, room, class);
            assert(starting(started.pending_starts, class).len() <= starting(
                start.pending_starts,
                class,
            ).len() + class_total(launch_classes(round.launches), class));
        }
        assert(class_load(planner, DemandSliceClass::RoutineRefresh)
            <= DemandSliceClass::RoutineRefresh.slot_cap());
        assert(starting(planner.pending_starts, DemandSliceClass::RoutineRefresh) =~= Set::<
            InfoHash,
        >::empty());
        lemma_round_fits(ready, status, now, room, DemandSliceClass::RoutineRefresh);
        assert(parking(planner) =~= Set::<InfoHash>::empty());
        assert forall|key: InfoHash| #[trigger] is_busy(after, key) implies is_marked(
            after,
            key,
        ) by {
            if is_busy(planner, key) {
                assert(is_marked(planner, key));
                assert(start.entries.contains_key(key));
            } else {
                assert(started.pending_starts.contains_key(key));
                assert(newly_marked(start, started, key));
            }
        }
        assert forall|key: InfoHash| #[trigger] is_marked(after, key) implies is_busy(
            after,
            key,
        ) by {
            if is_marked(planner, key) {
                assert(is_busy(planner, key));
            } else {
                assert(newly_marked(start, started, key));
                assert(started.pending_starts.contains_key(key));
            }
        }
        assert forall|key: InfoHash| #[trigger] after.pending_starts.contains_key(key) implies
            !after.drains.contains_key(key) && !after.pending_parks.contains_key(key)
            && !after.active.contains_key(key) by {
            assert(newly_marked(start, started, key));
            if is_busy(planner, key) {
                assert(is_marked(planner, key));
            }
        }
        assert forall|key: InfoHash| #[trigger] after.entries.contains_key(key) implies
            after.entries[key].subscriber_count > 0 by {
            assert(start.entries.contains_key(key));
            assert(planner.entries.contains_key(key));
        }
    }
}

proof fn lemma_park_requested(
    planner: PlannerView,
    info_hash: InfoHash,
    slice_class: DemandSliceClass,
)
    requires
        is_consistent(planner),
        planner.active.contains_key(info_hash),
    ensures
        is_consistent(
            PlannerView {
                active: planner.active.remove(info_hash),
                active_keys: keys_after_remove(planner.active_keys, info_hash),
                pending_parks: planner.pending_parks.insert(info_hash, slice_class),
                ..planner
            },
        ),
{
    let after = PlannerView {
        active: planner.active.remove(info_hash),
        active_keys: keys_after_remove(planner.active_keys, info_hash),
        pending_parks: planner.pending_parks.insert(info_hash, slice_class),
        ..planner
    };
    lemma_keys_remove(planner.active_keys, planner.active.dom(), info_hash);
    assert(after.active.dom() =~= planner.active.dom().remove(info_hash));
    assert(after.pending_parks.dom() =~= planner.pending_parks.dom().insert(info_hash));
    assert(parking(after) =~= parking(planner).insert(info_hash));
    assert(is_busy(planner, info_hash));
    assert forall|class: DemandSliceClass| #[trigger] class_load(after, class)
        <= class.slot_cap() by {
        assert(class_load(planner, class) <= class.slot_cap());
        lemma_active_remove(planner.active_keys, planner.active, info_hash, class);
    }
    assert forall|key: InfoHash| #[trigger] is_busy(after, key) implies is_marked(after, key) by {
        assert(is_busy(planner, key));
    }
    assert forall|key: InfoHash| #[trigger] is_marked(after, key) implies is_busy(after, key) by {
        assert(is_marked(planner, key));
    }
}

/// The parking of a demand is over because its lookup drains.
proof fn lemma_park_admitted(planner: PlannerView, info_hash: InfoHash)
    requires
        is_consistent(planner),
        planner.pending_parks.contains_key(info_hash),
        planner.drains.contains_key(info_hash),
    ensures
        is_consistent(
            PlannerView { pending_parks: planner.pending_parks.remove(info_hash), ..planner },
        ),
{
    let after = PlannerView {
        pending_parks: planner.pending_parks.remove(info_hash),
        ..planner
    };
    assert(after.pending_parks.dom() =~= planner.pending_parks.dom().remove(info_hash));
    assert(parking(after) =~= parking(planner));
    assert forall|class: DemandSliceClass| #[trigger] class_load(after, class)
        <= class.slot_cap() by {
        assert(class_load(after, class) == class_load(planner, class));
    }
    assert forall|key: InfoHash| #[trigger] is_busy(after, key) implies is_marked(after, key) by {
        assert(is_busy(planner, key));
    }
    assert forall|key: InfoHash| #[trigger] is_marked(after, key) implies is_busy(after, key) by {
        assert(is_marked(planner, key));
    }
}

/// A demand whose lookup has finished, in any of the ways in which it can.
proof fn lemma_finished(
    before: PlannerView,
    after: PlannerView,
    info_hash: InfoHash,
    now: Instant,
    mode: DemandFinishMode,
)
    requires
        is_consistent_but(before, Some(info_hash)),
        after.entries == entries_finished(before, info_hash, now, mode),
        after.intervals == before.intervals,
        after.entry_keys == before.entry_keys,
        after.active == before.active.remove(info_hash),
        after.active_keys == keys_after_remove(before.active_keys, info_hash),
        after.pending_starts == before.pending_starts.remove(info_hash),
        after.pending_parks == before.pending_parks.remove(info_hash),
        after.drains == before.drains,
        after.drain_keys == before.drain_keys,
        !before.drains.contains_key(info_hash),
    ensures
        is_consistent(after),
{
    assert(after.entries.dom() =~= before.entries.dom());
    lemma_work_over(before, after, info_hash);
}

/// A consistent planner stays consistent with every action that comes when it may.
#[verifier::rlimit(30)]
pub proof fn every_action_keeps_consistency(planner: PlannerView, action: DemandPlannerAction)
    requires
        is_consistent_but(planner, exempt_for(action)),
        is_timely(planner, action),
    ensures
        is_consistent(planner_step(planner, action).planner),
{
    let after = planner_step(planner, action).planner;
    match action {
        DemandPlannerAction::RuntimeReset { now } => lemma_reset(planner, now),
        DemandPlannerAction::DemandRegistered { info_hash, demand, now } => {
            lemma_registered(planner, info_hash, demand, now);
        },
        DemandPlannerAction::DemandUpdated { info_hash, demand, now } => {
            if planner.entries.contains_key(info_hash) {
                assert(after.entries.dom() =~= planner.entries.dom());
            }
            lemma_same_work(planner, after);
        },
        DemandPlannerAction::DemandMetricsUpdated { info_hash, metrics } => {
            if planner.entries.contains_key(info_hash) {
                assert(after.entries.dom() =~= planner.entries.dom());
            }
            lemma_same_work(planner, after);
        },
        DemandPlannerAction::DemandSubscriberRemoved { info_hash } => {
            lemma_subscriber_removed(planner, info_hash);
        },
        DemandPlannerAction::PeersReceived { info_hash, peers } => {
            peers_keep_consistency(planner, info_hash, peers@);
        },
        DemandPlannerAction::DrainTick { now, runtime_ready } => {},
        DemandPlannerAction::PlanDue { now, runtime_available } => {
            if runtime_available {
                lemma_plan_round(planner, now);
            }
        },
        DemandPlannerAction::LookupStarted { info_hash, slice_class, lookup_ids } => {
            lemma_lookup_started(
                planner,
                info_hash,
                ActiveDemandLookup { lookup_ids, slice_class },
            );
        },
        DemandPlannerAction::LookupStartFailed { info_hash, slice_class, now } => {
            assert(after.entries.dom() =~= planner.entries.dom());
            lemma_start_failed(planner, info_hash, after);
        },
        DemandPlannerAction::LookupFinished { info_hash, now, .. } => {
            lemma_exempting(planner, info_hash);
            assert(planner.pending_starts.remove(info_hash) =~= planner.pending_starts);
            assert(planner.pending_parks.remove(info_hash) =~= planner.pending_parks);
            lemma_finished(planner, after, info_hash, now, DemandFinishMode::Standard);
        },
        DemandPlannerAction::LookupParkRequested { info_hash, slice_class, .. } => {
            lemma_park_requested(planner, info_hash, slice_class);
        },
        DemandPlannerAction::LookupParkResolved { info_hash, drain_admission, now, .. } => {
            if drain_admission.is_some() {
                lemma_park_admitted(planner, info_hash);
            } else {
                assert(!planner.active.contains_key(info_hash)) by {
                    if planner.active.contains_key(info_hash) {
                        assert(!planner.pending_parks.contains_key(info_hash));
                    }
                }
                assert(!planner.pending_starts.contains_key(info_hash)) by {
                    if planner.pending_starts.contains_key(info_hash) {
                        assert(!planner.pending_parks.contains_key(info_hash));
                    }
                }
                lemma_absent_key(planner, info_hash);
                lemma_exempting(planner, info_hash);
                assert(planner.pending_starts.remove(info_hash) =~= planner.pending_starts);
                lemma_finished(planner, after, info_hash, now, DemandFinishMode::Standard);
            }
        },
        DemandPlannerAction::DrainedLookupFinalized { info_hash, outcome, now, .. } => {
            lemma_absent_key(planner, info_hash);
            assert(planner.pending_starts.remove(info_hash) =~= planner.pending_starts);
            assert(planner.pending_parks.remove(info_hash) =~= planner.pending_parks);
            lemma_finished(planner, after, info_hash, now, finish_mode_for(outcome));
        },
    }
}

/// A planner that knows of nothing is consistent.
pub proof fn empty_planner_is_consistent(now: Instant)
    ensures
        is_consistent(empty_planner(now)),
{
    let planner = empty_planner(now);
    assert(Seq::<InfoHash>::empty().to_set() =~= Set::<InfoHash>::empty());
    assert(planner.entries.dom() =~= Set::<InfoHash>::empty());
    assert(planner.active.dom() =~= Set::<InfoHash>::empty());
    assert(planner.drains.dom() =~= Set::<InfoHash>::empty());
    assert(planner.pending_starts.dom() =~= Set::<InfoHash>::empty());
    assert(planner.pending_parks.dom() =~= Set::<InfoHash>::empty());
    assert(parking(planner) =~= Set::<InfoHash>::empty());
    assert forall|class: DemandSliceClass| #[trigger] class_load(planner, class)
        <= class.slot_cap() by {
        assert(active_classes(planner.active_keys, planner.active) =~= Seq::<
            DemandSliceClass,
        >::empty());
        assert(starting(planner.pending_starts, class) =~= Set::<InfoHash>::empty());
    }
}

/// In a consistent planner no demand may be looked up for which something runs already.
pub proof fn due_demands_are_idle(planner: PlannerView, now: Instant, info_hash: InfoHash)
    requires
        is_consistent(planner),
        planner.entries.contains_key(info_hash),
        is_due(snapshot_of(info_hash, planner.entries[info_hash]), now),
    ensures
        !is_busy(planner, info_hash),
{
    if is_busy(planner, info_hash) {
        assert(is_marked(planner, info_hash));
    }
}

} // verus!
