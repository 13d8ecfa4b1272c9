use vstd::prelude::*;

use crate::apart_laws::{
    are_new, disjoint, every_action_keeps_lookups_apart, lookups_are_apart,
};
use crate::clock::Instant;
use crate::effect_laws::{
    lemma_drain_inserted, lemma_drain_removed, lemma_parked_crawls_change,
};
use crate::ids::InfoHash;
use crate::limits::DHT_DEMAND_LOOKUP_SLOT_COUNT;
use crate::planner::actions::DemandPlannerAction;
use crate::planner::counts::class_total;
use crate::planner::crawl::DemandCrawlState;
use crate::planner::invariants::{
    class_load, due_demands_are_idle, empty_planner_is_consistent, every_action_keeps_consistency,
    is_busy, is_consistent, is_marked, is_sound, is_timely, nothing_pending,
};
use crate::planner::lookups::{active_classes, virtual_slots, DrainView, DrainedDemandOutcome};
use crate::planner::model::{empty_planner, PlannerView};
use crate::planner::step::planner_step;
use crate::scheduler::{is_due, snapshot_of, DemandEntrySnapshot};
use crate::slice::DemandSliceClass;
use crate::table::{keys_after_insert, keys_after_remove};

verus! {

/// One move of a planner's life.
pub enum PlannerMove<'a> {
    /// The planner is told of something.
    Told(DemandPlannerAction<'a>),
    /// A lookup that is being parked begins to drain.
    DrainBegun { info_hash: InfoHash, drain: DrainView },
    /// A drain is over: it is taken out, and the planner is told of it.
    DrainOver {
        info_hash: InfoHash,
        outcome: DrainedDemandOutcome,
        previous: Option<DemandEntrySnapshot>,
        now: Instant,
    },
    /// Crawls are parked, or taken out to be resumed.
    CrawlsChanged(Map<InfoHash, DemandCrawlState>),
}

/// The planner once a drain has been taken out.
pub open spec fn without_drain(planner: PlannerView, info_hash: InfoHash) -> PlannerView {
    PlannerView {
        drains: planner.drains.remove(info_hash),
        drain_keys: keys_after_remove(planner.drain_keys, info_hash),
        ..planner
    }
}

/// The planner after a move.
pub open spec fn moved(planner: PlannerView, next: PlannerMove) -> PlannerView {
    match next {
        PlannerMove::Told(action) => planner_step(planner, action).planner,
        PlannerMove::DrainBegun { info_hash, drain } => PlannerView {
            drains: planner.drains.insert(info_hash, drain),
            drain_keys: keys_after_insert(planner.drain_keys, info_hash),
            ..planner
        },
        PlannerMove::DrainOver { info_hash, outcome, previous, now } => planner_step(
            without_drain(planner, info_hash),
            DemandPlannerAction::DrainedLookupFinalized { info_hash, outcome, previous, now },
        ).planner,
        PlannerMove::CrawlsChanged(parked_crawls) => PlannerView { parked_crawls, ..planner },
    }
}

/// Whether a move comes when it may. What the planner is told comes when it may: a start or a parking
/// is answered that was asked for, and a parking with the drain that it led to; a lookup finishes or
/// is stopped that runs; and a round is planned when no answer is outstanding. A lookup that starts
/// is new. A drain begins for a lookup that is being parked, and ends once the parking is over.
pub open spec fn may_move(planner: PlannerView, next: PlannerMove) -> bool {
    match next {
        PlannerMove::Told(action) => is_timely(planner, action) && match action {
            DemandPlannerAction::LookupStarted { info_hash, lookup_ids, .. } => are_new(
                planner,
                lookup_ids@,
                info_hash,
            ),
            DemandPlannerAction::DrainedLookupFinalized { .. } => false,
            _ => true,
        },
        PlannerMove::DrainBegun { info_hash, drain } => {
            &&& planner.pending_parks.contains_key(info_hash)
            &&& !planner.drains.contains_key(info_hash)
            &&& is_sound(drain)
            &&& are_new(planner, drain.lookup_ids, info_hash)
        },
        PlannerMove::DrainOver { info_hash, .. } => planner.drains.contains_key(info_hash)
            && !planner.pending_parks.contains_key(info_hash),
        PlannerMove::CrawlsChanged(_) => true,
    }
}

/// The planner after each of several moves, the first one first.
pub open spec fn moved_all(planner: PlannerView, moves: Seq<PlannerMove>) -> PlannerView
    decreases moves.len(),
{
    if moves.len() == 0 {
        planner
    } else {
        moved(moved_all(planner, moves.drop_last()), moves.last())
    }
}

/// Whether each of several moves comes when it may.
pub open spec fn is_run(planner: PlannerView, moves: Seq<PlannerMove>) -> bool
    decreases moves.len(),
{
    moves.len() == 0 || (is_run(planner, moves.drop_last()) && may_move(
        moved_all(planner, moves.drop_last()),
        moves.last(),
    ))
}

/// Every move that comes when it may keeps the planner consistent and its lookups apart.
pub proof fn every_move_keeps_order(planner: PlannerView, next: PlannerMove)
    requires
        is_consistent(planner),
        lookups_are_apart(planner),
        may_move(planner, next),
    ensures
        is_consistent(moved(planner, next)),
        lookups_are_apart(moved(planner, next)),
{
    match next {
        PlannerMove::Told(action) => {
            every_action_keeps_consistency(planner, action);
            every_action_keeps_lookups_apart(planner, action);
        },
        PlannerMove::DrainBegun { info_hash, drain } => {
            lemma_drain_inserted(planner, moved(planner, next), info_hash, drain);
            lemma_drain_apart(planner, info_hash, drain);
        },
        PlannerMove::DrainOver { info_hash, outcome, previous, now } => {
            let rest = without_drain(planner, info_hash);
            let action = DemandPlannerAction::DrainedLookupFinalized {
                info_hash,
                outcome,
                previous,
                now,
            };
            lemma_drain_removed(planner, rest, info_hash);
            every_action_keeps_consistency(rest, action);
            assert(lookups_are_apart(rest));
            every_action_keeps_lookups_apart(rest, action);
        },
        PlannerMove::CrawlsChanged(parked_crawls) => {
            lemma_parked_crawls_change(planner, moved(planner, next));
        },
    }
}

proof fn lemma_drain_apart(planner: PlannerView, info_hash: InfoHash, drain: DrainView)
    requires
        lookups_are_apart(planner),
        are_new(planner, drain.lookup_ids, info_hash),
    ensures
        lookups_are_apart(moved(planner, PlannerMove::DrainBegun { info_hash, drain })),
{
    let after = moved(planner, PlannerMove::DrainBegun { info_hash, drain });
    assert forall|left: InfoHash, right: InfoHash|
        left != right && #[trigger] after.drains.contains_key(left)
            && #[trigger] after.drains.contains_key(right) implies disjoint(
        after.drains[left].lookup_ids,
        after.drains[right].lookup_ids,
    ) by {
        if left == info_hash {
            assert(planner.drains.contains_key(right));
        } else if right == info_hash {
            assert(planner.drains.contains_key(left));
            assert(disjoint(
                drain.lookup_ids,
                planner.drains[left].lookup_ids,
            ));
        }
    }
    assert forall|left: InfoHash, right: InfoHash|
        left != right && #[trigger] after.active.contains_key(left)
            && #[trigger] after.drains.contains_key(right) implies disjoint(
        after.active[left].lookup_ids@,
        after.drains[right].lookup_ids,
    ) by {
        if right == info_hash {
            assert(planner.active.contains_key(left));
        } else {
            assert(planner.drains.contains_key(right));
        }
    }
}

/// A planner that began with nothing is consistent after every run, and no lookup runs or drains for
/// two demands.
pub proof fn every_run_keeps_order(begun_at: Instant, moves: Seq<PlannerMove>)
    requires
        is_run(empty_planner(begun_at), moves),
    ensures
        is_consistent(moved_all(empty_planner(begun_at), moves)),
        lookups_are_apart(moved_all(empty_planner(begun_at), moves)),
    decreases moves.len(),
{
    let start = empty_planner(begun_at);
    if moves.len() == 0 {
        empty_planner_is_consistent(begun_at);
    } else {
        every_run_keeps_order(begun_at, moves.drop_last());
        every_move_keeps_order(moved_all(start, moves.drop_last()), moves.last());
    }
}

/// After every run of a planner that began with nothing, once no answer is outstanding: no demand
/// both runs and drains; a demand is marked exactly while it runs or drains; no class runs more
/// lookups than it has slots, nor do all together with the drains take up more slots than there are;
/// and no demand that is due runs or drains.
pub proof fn every_run_keeps_capacity(begun_at: Instant, moves: Seq<PlannerMove>, now: Instant)
    requires
        is_run(empty_planner(begun_at), moves),
        nothing_pending(moved_all(empty_planner(begun_at), moves)),
    ensures
        ({
            let planner = moved_all(empty_planner(begun_at), moves);
            &&& forall|key: InfoHash|
                !(#[trigger] planner.active.contains_key(key) && planner.drains.contains_key(key))
            &&& forall|key: InfoHash| #[trigger]
                is_marked(planner, key) <==> planner.active.contains_key(key)
                    || planner.drains.contains_key(key)
            &&& forall|class: DemandSliceClass| #[trigger]
                class_total(active_classes(planner.active_keys, planner.active), class)
                    <= class.slot_cap()
            &&& planner.active.dom().finite() && planner.drains.dom().finite()
            &&& planner.active.dom().len() + virtual_slots(planner.drains.dom().len() as usize)
                <= DHT_DEMAND_LOOKUP_SLOT_COUNT
            &&& forall|key: InfoHash| #[trigger]
                planner.entries.contains_key(key) && is_due(
                    snapshot_of(key, planner.entries[key]),
                    now,
                ) ==> !planner.active.contains_key(key) && !planner.drains.contains_key(key)
            &&& forall|key: InfoHash| #[trigger]
                planner.entries.contains_key(key) ==> planner.entries[key].subscriber_count > 0
            &&& forall|key: InfoHash| #[trigger]
                planner.drains.contains_key(key) ==> is_sound(planner.drains[key])
        }),
{
    every_run_keeps_order(begun_at, moves);
    let planner = moved_all(empty_planner(begun_at), moves);
    planner.active_keys.unique_seq_to_set();
    planner.drain_keys.unique_seq_to_set();
    assert forall|key: InfoHash| #[trigger] is_marked(planner, key) <==> planner.active.contains_key(
        key,
    ) || planner.drains.contains_key(key) by {
        assert(!planner.pending_starts.dom().contains(key));
        assert(!planner.pending_parks.dom().contains(key));
        if is_marked(planner, key) {
            assert(is_busy(planner, key));
        }
        if planner.active.contains_key(key) || planner.drains.contains_key(key) {
            assert(is_busy(planner, key));
        }
    }
    assert forall|class: DemandSliceClass| #[trigger]
        class_total(active_classes(planner.active_keys, planner.active), class)
            <= class.slot_cap() by {
        assert(class_load(planner, class) <= class.slot_cap());
    }
    assert forall|key: InfoHash| #[trigger]
        planner.entries.contains_key(key) && is_due(
            snapshot_of(key, planner.entries[key]),
            now,
        ) implies !planner.active.contains_key(key) && !planner.drains.contains_key(key) by {
        due_demands_are_idle(planner, now, key);
    }
}

} // verus!
