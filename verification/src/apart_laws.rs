use vstd::prelude::*;

use crate::clock::Instant;
use crate::effect_laws::without_stops;
use crate::effects::{applied_all, applied_one, Applied};
use crate::ids::{InfoHash, LookupId, PeerAddr};
use crate::planner::actions::{DemandPlannerAction, PlannerEffectView};
use crate::planner::drain::drain_turn;
use crate::planner::lookup_ops::lookup_extended;
use crate::planner::lookups::DrainView;
use crate::planner::model::PlannerView;
use crate::planner::step::planner_step;
use crate::runtime::ledger::LedgerView;

verus! {

/// Whether two lists of lookups have nothing in common.
pub open spec fn disjoint(left: Seq<LookupId>, right: Seq<LookupId>) -> bool {
    forall|lookup_id: LookupId| !(left.contains(lookup_id) && right.contains(lookup_id))
}

/// No lookup runs or drains for two demands.
pub open spec fn lookups_are_apart(planner: PlannerView) -> bool {
    &&& forall|left: InfoHash, right: InfoHash|
        left != right && #[trigger] planner.active.contains_key(left)
            && #[trigger] planner.active.contains_key(right) ==> disjoint(
            planner.active[left].lookup_ids@,
            planner.active[right].lookup_ids@,
        )
    &&& forall|left: InfoHash, right: InfoHash|
        left != right && #[trigger] planner.drains.contains_key(left)
            && #[trigger] planner.drains.contains_key(right) ==> disjoint(
            planner.drains[left].lookup_ids,
            planner.drains[right].lookup_ids,
        )
    &&& forall|left: InfoHash, right: InfoHash|
        left != right && #[trigger] planner.active.contains_key(left)
            && #[trigger] planner.drains.contains_key(right) ==> disjoint(
            planner.active[left].lookup_ids@,
            planner.drains[right].lookup_ids,
        )
}

/// Whether lookups run or drain for no demand but one.
pub open spec fn are_new(
    planner: PlannerView,
    lookup_ids: Seq<LookupId>,
    info_hash: InfoHash,
) -> bool {
    &&& forall|key: InfoHash|
        key != info_hash && #[trigger] planner.active.contains_key(key) ==> disjoint(
            lookup_ids,
            planner.active[key].lookup_ids@,
        )
    &&& forall|key: InfoHash|
        key != info_hash && #[trigger] planner.drains.contains_key(key) ==> disjoint(
            lookup_ids,
            planner.drains[key].lookup_ids,
        )
}

/// Whether whatever runs or drains afterwards ran or drained before, with the same lookups.
pub open spec fn keeps_lookups(before: PlannerView, after: PlannerView) -> bool {
    &&& forall|key: InfoHash| #[trigger]
        after.active.contains_key(key) ==> before.active.contains_key(key)
            && after.active[key].lookup_ids@ == before.active[key].lookup_ids@
    &&& forall|key: InfoHash| #[trigger]
        after.drains.contains_key(key) ==> before.drains.contains_key(key)
            && after.drains[key].lookup_ids == before.drains[key].lookup_ids
}

proof fn lemma_kept_apart(before: PlannerView, after: PlannerView)
    requires
        lookups_are_apart(before),
        keeps_lookups(before, after),
    ensures
        lookups_are_apart(after),
{
}

/// No lookup comes to run or drain for two demands, whatever happens, as long as each lookup that
/// starts is new.
pub proof fn every_action_keeps_lookups_apart(planner: PlannerView, action: DemandPlannerAction)
    requires
        lookups_are_apart(planner),
        match action {
            DemandPlannerAction::LookupStarted { info_hash, lookup_ids, .. } => are_new(
                planner,
                lookup_ids@,
                info_hash,
            ),
            _ => true,
        },
    ensures
        lookups_are_apart(planner_step(planner, action).planner),
{
    let after = planner_step(planner, action).planner;
    if let DemandPlannerAction::LookupStarted { info_hash, lookup_ids, .. } = action {
        assert forall|left: InfoHash, right: InfoHash|
            left != right && #[trigger] after.active.contains_key(left)
                && #[trigger] after.active.contains_key(right) implies disjoint(
            after.active[left].lookup_ids@,
            after.active[right].lookup_ids@,
        ) by {
            if left == info_hash {
                assert(planner.active.contains_key(right));
            } else if right == info_hash {
                assert(planner.active.contains_key(left));
                assert(disjoint(lookup_ids@, planner.active[left].lookup_ids@));
            }
        }
        assert forall|left: InfoHash, right: InfoHash|
            left != right && #[trigger] after.active.contains_key(left)
                && #[trigger] after.drains.contains_key(right) implies disjoint(
            after.active[left].lookup_ids@,
            after.drains[right].lookup_ids,
        ) by {
            if left == info_hash {
                assert(planner.drains.contains_key(right));
            } else {
                assert(planner.active.contains_key(left));
            }
        }
    } else {
        assert(keeps_lookups(planner, after));
        lemma_kept_apart(planner, after);
    }
}

/// A lookup that gets one more part comes to run for no other demand, as long as the part is new.
pub proof fn extending_keeps_lookups_apart(
    before: PlannerView,
    after: PlannerView,
    info_hash: InfoHash,
    lookup_id: LookupId,
)
    requires
        lookups_are_apart(before),
        lookup_extended(before, after, info_hash, lookup_id),
        are_new(before, seq![lookup_id], info_hash),
    ensures
        lookups_are_apart(after),
{
    if before.active.contains_key(info_hash) {
        let ids = before.active[info_hash].lookup_ids@;
        let more = after.active[info_hash].lookup_ids@;
        assert(more == ids.push(lookup_id));
        assert(seq![lookup_id].contains(lookup_id)) by {
            assert(seq![lookup_id][0] == lookup_id);
        }
        assert forall|other: LookupId| #[trigger] more.contains(other) implies ids.contains(other)
            || other == lookup_id by {
            let i = more.index_of(other);
            if i < ids.len() {
                assert(ids[i] == other);
            }
        }
        assert forall|key: InfoHash| key != info_hash && #[trigger]
            before.active.contains_key(key) implies disjoint(
            more,
            before.active[key].lookup_ids@,
        ) by {}
        assert forall|key: InfoHash| key != info_hash && #[trigger]
            before.drains.contains_key(key) implies disjoint(
            more,
            before.drains[key].lookup_ids,
        ) by {}
        assert forall|left: InfoHash, right: InfoHash|
            left != right && #[trigger] after.active.contains_key(left)
                && #[trigger] after.active.contains_key(right) implies disjoint(
            after.active[left].lookup_ids@,
            after.active[right].lookup_ids@,
        ) by {
            assert(before.active.contains_key(left));
            assert(before.active.contains_key(right));
        }
        assert forall|left: InfoHash, right: InfoHash|
            left != right && #[trigger] after.active.contains_key(left)
                && #[trigger] after.drains.contains_key(right) implies disjoint(
            after.active[left].lookup_ids@,
            after.drains[right].lookup_ids,
        ) by {
            assert(before.active.contains_key(left));
        }
    } else {
        assert(keeps_lookups(before, after)) by {
            assert forall|key: InfoHash| #[trigger]
                after.active.contains_key(key) implies before.active.contains_key(key)
                && after.active[key].lookup_ids@ == before.active[key].lookup_ids@ by {
                assert(before.active.contains_key(key));
            }
        }
        lemma_kept_apart(before, after);
    }
}

proof fn lemma_applied_one(before: Applied, effect: PlannerEffectView, now: Instant)
    requires
        !(effect is AdmitDrain),
    ensures
        keeps_lookups(before.planner, applied_one(before, effect, now).0.planner),
        applied_one(before, effect, now).1.len() == 0,
{
}

/// Carrying out effects brings no lookup to run or drain for two demands.
pub proof fn applying_effects_keeps_lookups_apart(
    before: Applied,
    queue: Seq<PlannerEffectView>,
    now: Instant,
)
    requires
        lookups_are_apart(before.planner),
        without_stops(queue),
    ensures
        lookups_are_apart(applied_all(before, queue, now).planner),
    decreases queue.len(),
{
    if queue.len() > 0 {
        assert(!(queue[0] is AdmitDrain));
        lemma_applied_one(before, queue[0], now);
        let (after, followups) = applied_one(before, queue[0], now);
        lemma_kept_apart(before.planner, after.planner);
        let rest = queue.drop_first() + followups;
        assert(rest =~= queue.drop_first());
        assert forall|i: int| 0 <= i < rest.len() implies !(#[trigger] rest[i] is AdmitDrain) by {
            assert(rest[i] == queue[i + 1]);
        }
        applying_effects_keeps_lookups_apart(after, rest, now);
    }
}

/// The lookups that could be paused are among those that were to be.
proof fn lemma_paused(ledger: LedgerView, lookup_ids: Seq<LookupId>, lookup_id: LookupId)
    requires
        ledger.paused_all(lookup_ids).1.contains(lookup_id),
    ensures
        lookup_ids.contains(lookup_id),
    decreases lookup_ids.len(),
{
    if lookup_ids.len() > 0 {
        let rest = lookup_ids.drop_last();
        let paused = ledger.paused_all(rest).1;
        let all = ledger.paused_all(lookup_ids).1;
        let i = all.index_of(lookup_id);
        if i < paused.len() {
            assert(paused[i] == lookup_id);
            lemma_paused(ledger, rest, lookup_id);
            assert(lookup_ids[rest.index_of(lookup_id)] == lookup_id);
        } else {
            assert(lookup_ids[lookup_ids.len() - 1] == lookup_id);
        }
    }
}

/// The lookups that are there are among those that were asked for.
proof fn lemma_present(ledger: LedgerView, lookup_ids: Seq<LookupId>, lookup_id: LookupId)
    requires
        ledger.present(lookup_ids).contains(lookup_id),
    ensures
        lookup_ids.contains(lookup_id),
    decreases lookup_ids.len(),
{
    reveal(Seq::filter);
    if lookup_ids.len() > 0 {
        let rest = lookup_ids.drop_last();
        let present = ledger.present(rest);
        let all = ledger.present(lookup_ids);
        let i = all.index_of(lookup_id);
        if i < present.len() {
            assert(present[i] == lookup_id);
            lemma_present(ledger, rest, lookup_id);
            assert(lookup_ids[rest.index_of(lookup_id)] == lookup_id);
        } else {
            assert(lookup_ids[lookup_ids.len() - 1] == lookup_id);
        }
    }
}

/// The lookups that drain after an attempt are among those that were stopped.
proof fn lemma_drained(
    ledger: Option<LedgerView>,
    planner: PlannerView,
    effect: PlannerEffectView,
    now: Instant,
)
    requires
        effect is AdmitDrain,
    ensures
        match effect {
            PlannerEffectView::AdmitDrain {
                info_hash,
                slice_class,
                stop_reason,
                total_peers,
                unique_peers,
                lookup_ids,
                ..
            } => {
                let turn = drain_turn(
                    ledger,
                    planner.parked_crawls,
                    planner.drains,
                    planner.drain_keys,
                    info_hash,
                    slice_class,
                    stop_reason,
                    total_peers,
                    unique_peers,
                    lookup_ids,
                    now,
                );
                forall|key: InfoHash| #[trigger]
                    turn.drains.contains_key(key) ==> (planner.drains.contains_key(key)
                        && turn.drains[key] == planner.drains[key]) || (key == info_hash
                        && forall|lookup_id: LookupId| #[trigger]
                        turn.drains[key].lookup_ids.contains(lookup_id) ==> lookup_ids.contains(
                            lookup_id,
                        ))
            },
            _ => true,
        },
{
    if let PlannerEffectView::AdmitDrain {
        info_hash,
        slice_class,
        stop_reason,
        total_peers,
        unique_peers,
        lookup_ids,
        ..
    } = effect {
        let turn = drain_turn(
            ledger,
            planner.parked_crawls,
            planner.drains,
            planner.drain_keys,
            info_hash,
            slice_class,
            stop_reason,
            total_peers,
            unique_peers,
            lookup_ids,
            now,
        );
        if lookup_ids.len() > 0 && ledger.is_some() {
            let ledger1 = if planner.drains.contains_key(info_hash) {
                ledger.unwrap().cancelled_all(planner.drains[info_hash].lookup_ids)
            } else {
                ledger.unwrap()
            };
            let present = ledger1.present(lookup_ids);
            assert forall|lookup_id: LookupId| #[trigger]
                ledger1.paused_all(present).1.contains(lookup_id) implies lookup_ids.contains(
                lookup_id,
            ) by {
                lemma_paused(ledger1, present, lookup_id);
                lemma_present(ledger1, lookup_ids, lookup_id);
            }
        }
    }
}

/// A lookup that is stopped, with all that follows, comes to run or drain for no other demand, as
/// long as it ran or drained for no other before.
#[verifier::rlimit(30)]
pub proof fn stopping_keeps_lookups_apart(
    before: Applied,
    action: DemandPlannerAction,
    now: Instant,
)
    requires
        lookups_are_apart(before.planner),
        match action {
            DemandPlannerAction::LookupParkRequested { info_hash, lookup_ids, .. } => are_new(
                before.planner,
                lookup_ids@,
                info_hash,
            ),
            _ => false,
        },
    ensures
        ({
            let step = planner_step(before.planner, action);
            lookups_are_apart(
                applied_all(
                    Applied { planner: step.planner, ..before },
                    step.effects,
                    now,
                ).planner,
            )
        }),
{
    let step = planner_step(before.planner, action);
    if let DemandPlannerAction::LookupParkRequested { info_hash, lookup_ids, .. } = action {
        let requested = Applied { planner: step.planner, ..before };
        let effect = step.effects[0];
        lemma_drained(requested.ledger, step.planner, effect, now);
        let (resolved, followups) = applied_one(requested, effect, now);
        let planner = resolved.planner;
        assert forall|key: InfoHash| #[trigger] planner.drains.contains_key(key) implies (
        before.planner.drains.contains_key(key) && planner.drains[key]
            == before.planner.drains[key]) || (key == info_hash && forall|lookup_id: LookupId|
            #[trigger]
            planner.drains[key].lookup_ids.contains(lookup_id) ==> lookup_ids@.contains(
                lookup_id,
            )) by {}
        assert(lookups_are_apart(planner)) by {
            assert forall|left: InfoHash, right: InfoHash|
                left != right && #[trigger] planner.drains.contains_key(left)
                    && #[trigger] planner.drains.contains_key(right) implies disjoint(
                planner.drains[left].lookup_ids,
                planner.drains[right].lookup_ids,
            ) by {
                if left == info_hash {
                    assert(before.planner.drains.contains_key(right));
                } else {
                    assert(before.planner.drains.contains_key(left));
                }
            }
            assert forall|left: InfoHash, right: InfoHash|
                left != right && #[trigger] planner.active.contains_key(left)
                    && #[trigger] planner.drains.contains_key(right) implies disjoint(
                planner.active[left].lookup_ids@,
                planner.drains[right].lookup_ids,
            ) by {
                assert(before.planner.active.contains_key(left));
                assert(left != info_hash);
            }
            assert forall|left: InfoHash, right: InfoHash|
                left != right && #[trigger] planner.active.contains_key(left)
                    && #[trigger] planner.active.contains_key(right) implies disjoint(
                planner.active[left].lookup_ids@,
                planner.active[right].lookup_ids@,
            ) by {
                assert(before.planner.active.contains_key(left));
                assert(before.planner.active.contains_key(right));
            }
        }
        assert(without_stops(followups));
        applying_effects_keeps_lookups_apart(resolved, followups, now);
        assert(step.effects.drop_first() + followups =~= followups);
    }
}

/// Each peer that is counted as unique is counted in the total too, also once late peers have come
/// in.
pub proof fn total_covers_unique_peers(drain: DrainView, peers: Seq<PeerAddr>)
    requires
        drain.unique_peers.finite(),
        drain.unique_peers.len() <= drain.total_peers,
        drain.total_peers + peers.len() <= usize::MAX,
    ensures
        drain.with_peers(peers).unique_peers.len() <= drain.with_peers(peers).total_peers,
{
    vstd::seq_lib::seq_to_set_is_finite(peers);
    peers.lemma_cardinality_of_set();
    vstd::set_lib::lemma_len_union(drain.unique_peers, peers.to_set());
}

} // verus!
