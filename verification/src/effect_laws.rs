use vstd::prelude::*;

use crate::clock::Instant;
use crate::demand::DhtDemandState;
use crate::driver::{applied_of, drains_polled, readiness, starts_of};
use crate::effects::{applied_all, applied_one, drain_finished, Applied};
use crate::ids::{InfoHash, LookupId, PeerAddr};
use crate::planner::actions::{DemandPlannerAction, DemandStartLookupEffect, PlannerEffectView};
use crate::planner::drain::{admission_of, drain_turn, finalize_turn, kept_crawls};
use crate::planner::invariants::{
    class_load, empty_planner_is_consistent, every_action_keeps_consistency, is_busy, is_consistent,
    is_consistent_but, is_marked, is_sound, lemma_fewer_virtual_slots, lemma_keys_insert,
    lemma_keys_remove, nothing_pending, parking, peers_keep_consistency, slot_load,
};
use crate::planner::lookup_ops::lookup_extended;
use crate::planner::lookups::{
    active_classes, launch_budget, one_drain_takes_at_most_one_slot, virtual_slots, DrainView,
};
use crate::planner::model::{empty_planner, PlannerView};
use crate::planner::probe::DemandPlannerIdleSpeedProbeStatus;
use crate::planner::step::{
    drain_tick_step, plannable, planner_step, round_launches, start_all, PlannedLaunch, StartFold,
};
use crate::runtime::ledger::LedgerView;
use crate::slice::DemandSliceClass;
use crate::state::demand_command::{
    command_step, peers_step, planner_followups, planner_told, subscribers_changed,
    CommandEffectView, DhtDemandCommandAction, StateView,
};
use crate::subscribers::{subscriber_step, ChannelKey, DemandSubscriberAction, SubscriberEffectView};
use crate::table::{keys_after_insert, keys_after_remove};

verus! {

/// Whether the planner is consistent and nothing is pending.
#[verifier::opaque]
pub open spec fn is_settled(planner: PlannerView) -> bool {
    is_consistent(planner) && nothing_pending(planner)
}

/// A drain that is over leaves nothing behind but its mark.
pub proof fn lemma_drain_removed(planner: PlannerView, after: PlannerView, info_hash: InfoHash)
    requires
        is_consistent(planner),
        planner.drains.contains_key(info_hash),
        !planner.pending_parks.contains_key(info_hash),
        after == (PlannerView {
            parked_crawls: after.parked_crawls,
            drains: planner.drains.remove(info_hash),
            drain_keys: keys_after_remove(planner.drain_keys, info_hash),
            ..planner
        }),
    ensures
        is_consistent_but(after, Some(info_hash)),
        !is_busy(after, info_hash),
{
    lemma_keys_remove(planner.drain_keys, planner.drains.dom(), info_hash);
    assert(after.drains.dom() =~= planner.drains.dom().remove(info_hash));
    lemma_fewer_virtual_slots(after.drain_keys.len(), planner.drain_keys.len());
    assert(parking(after) =~= parking(planner));
    assert(!planner.active.contains_key(info_hash)) by {
        if planner.active.contains_key(info_hash) {
            assert(!planner.drains.contains_key(info_hash));
        }
    }
    assert(!planner.pending_starts.contains_key(info_hash)) by {
        if planner.pending_starts.contains_key(info_hash) {
            assert(!planner.drains.contains_key(info_hash));
        }
    }
    assert forall|class: DemandSliceClass| #[trigger] class_load(after, class)
        <= class.slot_cap() by {
        assert(class_load(after, class) == class_load(planner, class));
    }
    assert forall|key: InfoHash| #[trigger] is_busy(after, key) implies is_marked(after, key) by {
        assert(is_busy(planner, key));
    }
    assert forall|key: InfoHash| #[trigger]
        is_marked(after, key) && Some(key) != Some(info_hash) implies is_busy(after, key) by {
        assert(is_marked(planner, key));
        assert(is_busy(planner, key));
    }
}

/// Changes to what is parked do not matter for consistency.
pub proof fn lemma_parked_crawls_change(planner: PlannerView, after: PlannerView)
    requires
        is_consistent(planner),
        after == (PlannerView { parked_crawls: after.parked_crawls, ..planner }),
    ensures
        is_consistent(after),
{
    assert forall|key: InfoHash| #[trigger] is_busy(after, key) implies is_marked(after, key) by {
        assert(is_busy(planner, key));
    }
    assert forall|key: InfoHash| #[trigger] is_marked(after, key) implies is_busy(after, key) by {
        assert(is_marked(planner, key));
    }
    assert(parking(after) == parking(planner));
    assert forall|class: DemandSliceClass| #[trigger] class_load(after, class)
        <= class.slot_cap() by {
        assert(class_load(after, class) == class_load(planner, class));
    }
}

/// Bringing a drain to its end keeps the planner consistent.
pub proof fn finishing_a_drain_keeps_consistency(
    before: Applied,
    info_hash: InfoHash,
    force: bool,
    now: Instant,
)
    requires
        is_consistent(before.planner),
        !before.planner.pending_parks.contains_key(info_hash),
    ensures
        is_consistent(drain_finished(before, info_hash, force, now).planner),
        drain_finished(before, info_hash, force, now).planner.pending_starts
            == before.planner.pending_starts,
        drain_finished(before, info_hash, force, now).planner.pending_parks
            == before.planner.pending_parks,
{
    let turn = finalize_turn(
        before.ledger,
        before.planner.parked_crawls,
        before.planner.drains,
        info_hash,
        force,
        now,
    );
    let after = drain_finished(before, info_hash, force, now).planner;
    match turn.outcome {
        None => {
            lemma_parked_crawls_change(before.planner, after);
        },
        Some(outcome) => {
            let removed = PlannerView {
                parked_crawls: turn.parked_crawls,
                drains: turn.drains,
                drain_keys: keys_after_remove(before.planner.drain_keys, info_hash),
                ..before.planner
            };
            lemma_drain_removed(before.planner, removed, info_hash);
            every_action_keeps_consistency(
                removed,
                DemandPlannerAction::DrainedLookupFinalized {
                    info_hash,
                    outcome,
                    previous: before.planner.snapshot(info_hash),
                    now,
                },
            );
        },
    }
}

/// Whether no effect is about a lookup that was just stopped.
pub open spec fn without_stops(effects: Seq<PlannerEffectView>) -> bool {
    forall|i: int| 0 <= i < effects.len() ==> !(#[trigger] effects[i] is AdmitDrain)
}

/// Carrying out effects keeps the planner consistent with nothing pending, as long as none is about
/// a lookup that was just stopped.
#[verifier::rlimit(30)]
pub proof fn applying_effects_keeps_consistency(
    before: Applied,
    queue: Seq<PlannerEffectView>,
    now: Instant,
)
    requires
        is_settled(before.planner),
        without_stops(queue),
    ensures
        is_settled(applied_all(before, queue, now).planner),
    decreases queue.len(),
{
    reveal(is_settled);
    if queue.len() > 0 {
        let effect = queue[0];
        assert(!(effect is AdmitDrain));
        let (after, followups) = applied_one(before, effect, now);
        match effect {
            PlannerEffectView::FinalizeDrainingLookup(finalize) => {
                finishing_a_drain_keeps_consistency(
                    before,
                    finalize.info_hash,
                    finalize.force,
                    now,
                );
            },
            PlannerEffectView::ParkActiveLookup { .. } => {
                lemma_parked_crawls_change(before.planner, after.planner);
            },
            _ => {},
        }
        let rest = queue.drop_first() + followups;
        assert(rest =~= queue.drop_first());
        assert(without_stops(rest)) by {
            assert forall|i: int| 0 <= i < rest.len() implies !(#[trigger] rest[i] is AdmitDrain) by {
                assert(rest[i] == queue[i + 1]);
            }
        }
        applying_effects_keeps_consistency(after, rest, now);
    }
}

/// A new drain takes the place of a parking.
pub proof fn lemma_drain_inserted(
    planner: PlannerView,
    after: PlannerView,
    info_hash: InfoHash,
    drain: DrainView,
)
    requires
        is_consistent(planner),
        planner.pending_parks.contains_key(info_hash),
        !planner.drains.contains_key(info_hash),
        is_sound(drain),
        after == (PlannerView {
            parked_crawls: after.parked_crawls,
            drains: planner.drains.insert(info_hash, drain),
            drain_keys: keys_after_insert(planner.drain_keys, info_hash),
            ..planner
        }),
    ensures
        is_consistent(after),
{
    lemma_keys_insert(planner.drain_keys, planner.drains.dom(), info_hash);
    assert(after.drains.dom() =~= planner.drains.dom().insert(info_hash));
    assert(parking(after) =~= parking(planner).remove(info_hash));
    assert(parking(planner).contains(info_hash));
    assert(planner.drain_keys.len() < usize::MAX) by {
        assert(virtual_slots(planner.drain_keys.len() as usize) <= slot_load(planner));
    }
    one_drain_takes_at_most_one_slot(planner.drain_keys.len() as usize);
    assert(is_busy(planner, info_hash));
    assert(!planner.active.contains_key(info_hash)) by {
        if planner.active.contains_key(info_hash) {
            assert(!planner.pending_parks.contains_key(info_hash));
        }
    }
    assert(!planner.pending_starts.contains_key(info_hash)) by {
        if planner.pending_starts.contains_key(info_hash) {
            assert(!planner.pending_parks.contains_key(info_hash));
        }
    }
    assert forall|class: DemandSliceClass| #[trigger] class_load(after, class)
        <= class.slot_cap() by {
        assert(class_load(after, class) == class_load(planner, class));
    }
    assert forall|key: InfoHash| #[trigger] is_busy(after, key) implies is_marked(after, key) by {
        assert(is_busy(planner, key));
    }
    assert forall|key: InfoHash| #[trigger] is_marked(after, key) implies is_busy(after, key) by {
        assert(is_marked(planner, key));
    }
}

/// Draining a lookup that was just stopped, or parking it at once, keeps the planner consistent,
/// and the parking is over.
#[verifier::rlimit(30)]
pub proof fn draining_keeps_consistency(
    before: Applied,
    info_hash: InfoHash,
    effect: PlannerEffectView,
    now: Instant,
)
    requires
        is_consistent(before.planner),
        before.planner.pending_parks.contains_key(info_hash),
        !before.planner.drains.contains_key(info_hash),
        match effect {
            PlannerEffectView::AdmitDrain { info_hash: stopped, unique_peers, .. } => stopped
                == info_hash && unique_peers.finite() && unique_peers.len() <= usize::MAX,
            _ => false,
        },
    ensures
        is_consistent(applied_one(before, effect, now).0.planner),
        applied_one(before, effect, now).0.planner.pending_starts == before.planner.pending_starts,
        applied_one(before, effect, now).0.planner.pending_parks
            == before.planner.pending_parks.remove(info_hash),
        without_stops(applied_one(before, effect, now).1),
{
    if let PlannerEffectView::AdmitDrain {
        info_hash: _,
        slice_class,
        stop_reason,
        total_peers,
        unique_peers,
        lookup_ids,
        previous,
    } = effect {
        let planner = before.planner;
        let turn = drain_turn(
            before.ledger,
            planner.parked_crawls,
            planner.drains,
            planner.drain_keys,
            info_hash,
            slice_class,
            stop_reason,
            total_peers,
            unique_peers,
            lookup_ids,
            now,
        );
        let drained = PlannerView {
            parked_crawls: turn.parked_crawls,
            drains: turn.drains,
            drain_keys: turn.drain_keys,
            ..planner
        };
        lemma_keys_remove(planner.drain_keys, planner.drains.dom(), info_hash);
        assert(planner.drains.remove(info_hash) =~= planner.drains);
        assert(keys_after_remove(planner.drain_keys, info_hash) == planner.drain_keys);
        if turn.drains.contains_key(info_hash) {
            lemma_drain_inserted(planner, drained, info_hash, turn.drains[info_hash]);
        } else {
            lemma_parked_crawls_change(planner, drained);
        }
        let action = DemandPlannerAction::LookupParkResolved {
            info_hash,
            slice_class,
            stop_reason,
            total_peers,
            unique_peers: unique_peers.len() as usize,
            parked_outcome: turn.outcome,
            drain_admission: if turn.drains.contains_key(info_hash) {
                Some(admission_of(turn.drains[info_hash]))
            } else {
                None
            },
            previous,
            now,
        };
        every_action_keeps_consistency(drained, action);
    }
}

/// Stopping a running lookup, with all that follows, keeps the planner consistent with nothing
/// pending.
#[verifier::rlimit(30)]
pub proof fn stopping_a_lookup_keeps_consistency(
    before: Applied,
    action: DemandPlannerAction,
    now: Instant,
)
    requires
        is_settled(before.planner),
        match action {
            DemandPlannerAction::LookupParkRequested { info_hash, unique_peers, .. } =>
                before.planner.active.contains_key(info_hash) && unique_peers@.finite()
                && unique_peers@.len() <= usize::MAX,
            _ => false,
        },
    ensures
        ({
            let step = planner_step(before.planner, action);
            let after = applied_all(
                Applied { planner: step.planner, ..before },
                step.effects,
                now,
            ).planner;
            is_settled(after)
        }),
{
    reveal(is_settled);
    let step = planner_step(before.planner, action);
    every_action_keeps_consistency(before.planner, action);
    if let DemandPlannerAction::LookupParkRequested { info_hash, .. } = action {
        let requested = Applied { planner: step.planner, ..before };
        let effect = step.effects[0];
        assert(!before.planner.drains.contains_key(info_hash));
        draining_keeps_consistency(requested, info_hash, effect, now);
        let (resolved, followups) = applied_one(requested, effect, now);
        assert(resolved.planner.pending_parks.dom() =~= Set::<InfoHash>::empty()) by {
            assert(step.planner.pending_parks.dom() =~= before.planner.pending_parks.dom().insert(
                info_hash,
            ));
        }
        applying_effects_keeps_consistency(resolved, followups, now);
        assert(step.effects.drop_first() + followups =~= followups);
    }
}

/// Bringing every drain to its end that is ready keeps the planner consistent with nothing pending.
pub proof fn polling_drains_keeps_consistency(
    state: StateView,
    ledger: Option<LedgerView>,
    now: Instant,
)
    requires
        is_settled(state.planner),
    ensures
        is_settled(drains_polled(state, ledger, now).planner),
{
    let effects = drain_tick_step(
        state.planner,
        now,
        readiness(state.planner.drains, ledger),
    ).effects;
    applying_effects_keeps_consistency(applied_of(state, ledger), effects, now);
}

/// What an action about a demand leads to never speaks of a lookup that was just stopped.
proof fn lemma_followups(planner: PlannerView, effects: Seq<SubscriberEffectView>, now: Instant)
    requires
        is_settled(planner),
    ensures
        is_settled(planner_followups(planner, effects, now).0),
        without_stops(planner_followups(planner, effects, now).1),
    decreases effects.len(),
{
    reveal(is_settled);
    if effects.len() > 0 {
        lemma_followups(planner, effects.drop_last(), now);
        let (before, earlier) = planner_followups(planner, effects.drop_last(), now);
        match effects.last() {
            SubscriberEffectView::Registered { info_hash, demand, .. } => {
                let action = DemandPlannerAction::DemandRegistered { info_hash, demand, now };
                every_action_keeps_consistency(before, action);
            },
            SubscriberEffectView::SubscriberRemoved { info_hash } => {
                let action = DemandPlannerAction::DemandSubscriberRemoved { info_hash };
                every_action_keeps_consistency(before, action);
                assert(planner_step(before, action).planner.pending_starts.dom() =~= Set::<
                    InfoHash,
                >::empty());
                assert(planner_step(before, action).planner.pending_parks.dom() =~= Set::<
                    InfoHash,
                >::empty());
            },
            SubscriberEffectView::DeliverPeers { .. } => {},
        }
    }
}

/// Whether carrying out what a command asks of the planner keeps it consistent with nothing
/// pending.
#[verifier::opaque]
pub open spec fn carried_out_consistently(
    state: StateView,
    effect: CommandEffectView,
    ledger: Option<LedgerView>,
    now: Instant,
) -> bool {
    match effect {
        CommandEffectView::ApplyPlannerEffects(queue) => {
            let after = applied_all(applied_of(state, ledger), queue, now).planner;
            is_settled(after)
        },
        _ => true,
    }
}

/// Whether an action is a change to a demand, or the end of a lookup that does not drain.
spec fn is_change_or_end(planner: PlannerView, told: DemandPlannerAction) -> bool {
    match told {
        DemandPlannerAction::DemandUpdated { .. } => true,
        DemandPlannerAction::DemandMetricsUpdated { .. } => true,
        DemandPlannerAction::LookupFinished { info_hash, .. } => !planner.drains.contains_key(
            info_hash,
        ),
        _ => false,
    }
}

proof fn lemma_told(planner: PlannerView, told: DemandPlannerAction)
    requires
        is_settled(planner),
        is_change_or_end(planner, told),
    ensures
        is_settled(planner_step(planner, told).planner),
        without_stops(planner_step(planner, told).effects),
{
    reveal(is_settled);
    every_action_keeps_consistency(planner, told);
}

proof fn lemma_late_peers(planner: PlannerView, info_hash: InfoHash, peers: Seq<PeerAddr>)
    requires
        is_settled(planner),
    ensures
        is_settled(peers_step(planner, info_hash, peers).0),
        without_stops(peers_step(planner, info_hash, peers).1),
{
    reveal(is_settled);
    peers_keep_consistency(planner, info_hash, peers);
}

/// Whether carrying out each of several effects keeps the planner consistent with nothing pending.
pub open spec fn all_carried_out_consistently(
    state: StateView,
    effects: Seq<CommandEffectView>,
    ledger: Option<LedgerView>,
    now: Instant,
) -> bool {
    forall|i: int|
        0 <= i < effects.len() ==> carried_out_consistently(
            state,
            #[trigger] effects[i],
            ledger,
            now,
        )
}

proof fn lemma_carried_out(
    state: StateView,
    effects: Seq<CommandEffectView>,
    queue: Seq<PlannerEffectView>,
    ledger: Option<LedgerView>,
    now: Instant,
)
    requires
        is_settled(state.planner),
        without_stops(queue),
        forall|i: int|
            0 <= i < effects.len() ==> match #[trigger] effects[i] {
                CommandEffectView::ApplyPlannerEffects(list) => list == queue,
                _ => true,
            },
    ensures
        all_carried_out_consistently(state, effects, ledger, now),
{
    reveal(carried_out_consistently);
    applying_effects_keeps_consistency(applied_of(state, ledger), queue, now);
}

proof fn lemma_not_for_planner(
    state: StateView,
    effect: CommandEffectView,
    ledger: Option<LedgerView>,
    now: Instant,
)
    requires
        !(effect is ApplyPlannerEffects),
    ensures
        carried_out_consistently(state, effect, ledger, now),
{
    reveal(carried_out_consistently);
}

proof fn lemma_subscribers_changed(
    state: StateView,
    action: DemandSubscriberAction,
    changed_at: Instant,
    ledger: Option<LedgerView>,
    now: Instant,
)
    requires
        is_settled(state.planner),
    ensures
        is_settled(subscribers_changed(state, action, changed_at).0.planner),
        all_carried_out_consistently(
            subscribers_changed(state, action, changed_at).0,
            subscribers_changed(state, action, changed_at).2,
            ledger,
            now,
        ),
{
    let told = subscriber_step(state.registry, action).effects;
    lemma_followups(state.planner, told, changed_at);
    let (after, _, effects) = subscribers_changed(state, action, changed_at);
    lemma_carried_out(
        after,
        effects,
        planner_followups(state.planner, told, changed_at).1,
        ledger,
        now,
    );
}

proof fn lemma_planner_told(
    state: StateView,
    told: DemandPlannerAction,
    effects: Seq<CommandEffectView>,
    ledger: Option<LedgerView>,
    now: Instant,
)
    requires
        is_settled(state.planner),
        is_change_or_end(state.planner, told),
        effects == seq![planner_told(state, told).1] || effects == seq![
            planner_told(state, told).1,
            CommandEffectView::StartDueDemands,
        ],
    ensures
        is_settled(planner_told(state, told).0.planner),
        all_carried_out_consistently(planner_told(state, told).0, effects, ledger, now),
{
    lemma_told(state.planner, told);
    lemma_carried_out(
        planner_told(state, told).0,
        effects,
        planner_step(state.planner, told).effects,
        ledger,
        now,
    );
}

/// Whether what an action leads to keeps the planner consistent with nothing pending, both at once
/// and after what it asks of the planner has been carried out.
#[verifier::opaque]
pub open spec fn keeps_settled(
    state: StateView,
    action: DhtDemandCommandAction,
    ledger: Option<LedgerView>,
    now: Instant,
) -> bool {
    let step = command_step(state, action);
    is_settled(step.state.planner) && all_carried_out_consistently(
        step.state,
        step.effects,
        ledger,
        now,
    )
}

proof fn lemma_register(
    state: StateView,
    info_hash: InfoHash,
    demand: DhtDemandState,
    subscriber_tx: ChannelKey,
    response_tx: ChannelKey,
    at: Instant,
    ledger: Option<LedgerView>,
    now: Instant,
)
    requires
        is_settled(state.planner),
    ensures
        keeps_settled(
            state,
            DhtDemandCommandAction::Register {
                info_hash,
                demand,
                subscriber_tx,
                response_tx,
                now: at,
            },
            ledger,
            now,
        ),
{
    reveal(keeps_settled);
    let step = command_step(
        state,
        DhtDemandCommandAction::Register { info_hash, demand, subscriber_tx, response_tx, now: at },
    );
    let change = DemandSubscriberAction::Register { info_hash, demand, subscriber_tx };
    lemma_subscribers_changed(state, change, at, ledger, now);
    let (after, _, effects) = subscribers_changed(state, change, at);
    assert(step.effects.len() == 4);
    lemma_not_for_planner(after, step.effects[0], ledger, now);
    lemma_not_for_planner(after, step.effects[3], ledger, now);
    assert(step.effects[1] == effects[0]);
    assert(step.effects[2] == effects[1]);
}

proof fn lemma_peers(
    state: StateView,
    info_hash: InfoHash,
    peers: Vec<PeerAddr>,
    at: Instant,
    ledger: Option<LedgerView>,
    now: Instant,
)
    requires
        is_settled(state.planner),
    ensures
        keeps_settled(
            state,
            DhtDemandCommandAction::PeersReceived { info_hash, peers, now: at },
            ledger,
            now,
        ),
{
    reveal(keeps_settled);
    let step = command_step(
        state,
        DhtDemandCommandAction::PeersReceived { info_hash, peers, now: at },
    );
    lemma_late_peers(state.planner, info_hash, peers@);
    let queue = peers_step(state.planner, info_hash, peers@).1;
    lemma_carried_out(step.state, step.effects, queue, ledger, now);
}

proof fn lemma_left(
    state: StateView,
    action: DhtDemandCommandAction,
    ledger: Option<LedgerView>,
    now: Instant,
)
    requires
        is_settled(state.planner),
        action is Unregister || action is PruneDeadSubscribers,
    ensures
        keeps_settled(state, action, ledger, now),
{
    reveal(keeps_settled);
    match action {
        DhtDemandCommandAction::Unregister { info_hash, subscriber_id, now: at } => {
            let change = DemandSubscriberAction::Unregister { info_hash, subscriber_id };
            lemma_subscribers_changed(state, change, at, ledger, now);
        },
        DhtDemandCommandAction::PruneDeadSubscribers { info_hash, subscriber_ids, now: at } => {
            let change = DemandSubscriberAction::PruneDeadSubscribers { info_hash, subscriber_ids };
            lemma_subscribers_changed(state, change, at, ledger, now);
        },
        _ => {},
    }
}

proof fn lemma_changed(
    state: StateView,
    action: DhtDemandCommandAction,
    ledger: Option<LedgerView>,
    now: Instant,
)
    requires
        is_settled(state.planner),
        action is Update || action is UpdateMetrics,
    ensures
        keeps_settled(state, action, ledger, now),
{
    reveal(keeps_settled);
    let effects = command_step(state, action).effects;
    match action {
        DhtDemandCommandAction::Update { info_hash, demand, now: at } => {
            let told = DemandPlannerAction::DemandUpdated { info_hash, demand, now: at };
            lemma_planner_told(state, told, effects, ledger, now);
        },
        DhtDemandCommandAction::UpdateMetrics { info_hash, metrics } => {
            let told = DemandPlannerAction::DemandMetricsUpdated { info_hash, metrics };
            lemma_planner_told(state, told, effects, ledger, now);
        },
        _ => {},
    }
}

proof fn lemma_ended(
    state: StateView,
    action: DhtDemandCommandAction,
    ledger: Option<LedgerView>,
    now: Instant,
)
    requires
        is_settled(state.planner),
        match action {
            DhtDemandCommandAction::LookupFinished { info_hash, .. } =>
                !state.planner.drains.contains_key(info_hash),
            _ => false,
        },
    ensures
        keeps_settled(state, action, ledger, now),
{
    reveal(keeps_settled);
    let effects = command_step(state, action).effects;
    if let DhtDemandCommandAction::LookupFinished {
        info_hash,
        slice_class,
        total_peers,
        unique_peers,
        now: at,
    } = action {
        let told = DemandPlannerAction::LookupFinished {
            info_hash,
            slice_class,
            total_peers,
            unique_peers,
            now: at,
        };
        lemma_planner_told(state, told, effects, ledger, now);
    }
}

/// Everything that can happen to a demand keeps the planner consistent with nothing pending, both
/// at once and after what it asks of the planner has been carried out. A lookup finishes only while
/// it does not drain.
pub proof fn demand_commands_keep_consistency(
    state: StateView,
    action: DhtDemandCommandAction,
    ledger: Option<LedgerView>,
    now: Instant,
)
    requires
        is_settled(state.planner),
        match action {
            DhtDemandCommandAction::LookupFinished { info_hash, .. } =>
                !state.planner.drains.contains_key(info_hash),
            _ => true,
        },
    ensures
        keeps_settled(state, action, ledger, now),
{
    match action {
        DhtDemandCommandAction::Register {
            info_hash,
            demand,
            subscriber_tx,
            response_tx,
            now: at,
        } => {
            lemma_register(
                state,
                info_hash,
                demand,
                subscriber_tx,
                response_tx,
                at,
                ledger,
                now,
            );
        },
        DhtDemandCommandAction::Update { .. } => lemma_changed(state, action, ledger, now),
        DhtDemandCommandAction::UpdateMetrics { .. } => lemma_changed(state, action, ledger, now),
        DhtDemandCommandAction::Unregister { .. } => lemma_left(state, action, ledger, now),
        DhtDemandCommandAction::PruneDeadSubscribers { .. } => {
            lemma_left(state, action, ledger, now)
        },
        DhtDemandCommandAction::PeersReceived { info_hash, peers, now: at } => {
            lemma_peers(state, info_hash, peers, at, ledger, now);
        },
        DhtDemandCommandAction::LookupFinished { .. } => lemma_ended(state, action, ledger, now),
    }
}

/// The action that tells the planner how a start went.
pub open spec fn start_resolution(
    start: DemandStartLookupEffect,
    started: Option<Vec<LookupId>>,
    now: Instant,
) -> DemandPlannerAction<'static> {
    match started {
        Some(lookup_ids) => DemandPlannerAction::LookupStarted {
            info_hash: start.candidate.info_hash,
            slice_class: start.plan.class,
            lookup_ids,
        },
        None => DemandPlannerAction::LookupStartFailed {
            info_hash: start.candidate.info_hash,
            slice_class: start.plan.class,
            now,
        },
    }
}

/// The planner after it has been told how each of several starts went, the first one first.
pub open spec fn starts_resolved(
    planner: PlannerView,
    starts: Seq<DemandStartLookupEffect>,
    answers: Seq<Option<Vec<LookupId>>>,
    now: Instant,
) -> PlannerView
    decreases starts.len(),
{
    if starts.len() == 0 {
        planner
    } else {
        planner_step(
            starts_resolved(planner, starts.drop_last(), answers, now),
            start_resolution(starts.last(), answers[starts.len() - 1], now),
        ).planner
    }
}

/// Whether the pending starts are exactly those that were asked for.
pub open spec fn starts_match(
    pending_starts: Map<InfoHash, DemandSliceClass>,
    starts: Seq<DemandStartLookupEffect>,
) -> bool {
    &&& forall|i: int|
        0 <= i < starts.len() ==> pending_starts.contains_key(
            (#[trigger] starts[i]).candidate.info_hash,
        ) && pending_starts[starts[i].candidate.info_hash] == starts[i].plan.class
    &&& forall|i: int, j: int|
        0 <= i < j < starts.len() ==> (#[trigger] starts[i]).candidate.info_hash != (
        #[trigger] starts[j]).candidate.info_hash
    &&& forall|key: InfoHash| #[trigger]
        pending_starts.contains_key(key) ==> exists|i: int|
            0 <= i < starts.len() && (#[trigger] starts[i]).candidate.info_hash == key
}

proof fn lemma_starts_asked(
    before: StartFold,
    launches: Seq<PlannedLaunch>,
    status: DemandPlannerIdleSpeedProbeStatus,
    now: Instant,
)
    requires
        before.pending_starts.dom() == Set::<InfoHash>::empty(),
        before.effects.len() == 0,
    ensures
        starts_match(
            start_all(before, launches, status, now).pending_starts,
            starts_of(start_all(before, launches, status, now).effects),
        ),
        forall|key: InfoHash| #[trigger]
            start_all(before, launches, status, now).pending_starts.contains_key(key)
                ==> start_all(before, launches, status, now).entries.contains_key(key)
                && start_all(before, launches, status, now).entries[key].in_progress,
    decreases launches.len(),
{
    let after = start_all(before, launches, status, now);
    if launches.len() > 0 {
        let middle = start_all(before, launches.drop_last(), status, now);
        lemma_starts_asked(before, launches.drop_last(), status, now);
        let launch = launches.last();
        let key = launch.candidate.info_hash;
        if middle.entries.contains_key(key) && !middle.entries[key].in_progress {
            assert(after.effects.drop_last() =~= middle.effects);
            let starts = starts_of(middle.effects);
            let more = starts_of(after.effects);
            assert(more == starts.push(more.last()));
            assert(more.last().candidate.info_hash == key);
            assert(!middle.pending_starts.contains_key(key));
            assert forall|i: int| 0 <= i < more.len() implies after.pending_starts.contains_key(
                (#[trigger] more[i]).candidate.info_hash,
            ) && after.pending_starts[more[i].candidate.info_hash] == more[i].plan.class by {
                if i < starts.len() {
                    assert(more[i] == starts[i]);
                    assert(middle.pending_starts.contains_key(starts[i].candidate.info_hash));
                }
            }
            assert forall|i: int, j: int| 0 <= i < j < more.len() implies (
            #[trigger] more[i]).candidate.info_hash != (#[trigger] more[j]).candidate.info_hash by {
                assert(more[i] == starts[i]);
                assert(middle.pending_starts.contains_key(starts[i].candidate.info_hash));
                if j < starts.len() {
                    assert(more[j] == starts[j]);
                }
            }
            assert forall|other: InfoHash| #[trigger]
                after.pending_starts.contains_key(other) implies exists|i: int|
                0 <= i < more.len() && (#[trigger] more[i]).candidate.info_hash == other by {
                if other == key {
                    assert(more[more.len() - 1].candidate.info_hash == other);
                } else {
                    assert(middle.pending_starts.contains_key(other));
                    let i = choose|i: int|
                        0 <= i < starts.len() && (#[trigger] starts[i]).candidate.info_hash
                            == other;
                    assert(more[i] == starts[i]);
                }
            }
        }
    } else {
        assert(starts_of(after.effects) =~= seq![]);
    }
}

proof fn lemma_starts_resolved(
    planner: PlannerView,
    starts: Seq<DemandStartLookupEffect>,
    count: nat,
    answers: Seq<Option<Vec<LookupId>>>,
    now: Instant,
)
    requires
        is_consistent(planner),
        planner.pending_parks.dom() == Set::<InfoHash>::empty(),
        starts_match(planner.pending_starts, starts),
        count <= starts.len() <= answers.len(),
    ensures
        ({
            let after = starts_resolved(planner, starts.take(count as int), answers, now);
            &&& is_consistent(after)
            &&& after.pending_parks == planner.pending_parks
            &&& forall|key: InfoHash| #[trigger]
                after.pending_starts.contains_key(key) <==> planner.pending_starts.contains_key(key)
                    && forall|i: int|
                    0 <= i < count ==> (#[trigger] starts[i]).candidate.info_hash != key
            &&& forall|key: InfoHash| #[trigger]
                after.pending_starts.contains_key(key) ==> after.pending_starts[key]
                    == planner.pending_starts[key]
        }),
    decreases count,
{
    if count > 0 {
        let n = (count - 1) as nat;
        lemma_starts_resolved(planner, starts, n, answers, now);
        let before = starts_resolved(planner, starts.take(n as int), answers, now);
        assert(starts.take(count as int).drop_last() =~= starts.take(n as int));
        assert(starts.take(count as int).last() == starts[n as int]);
        let action = start_resolution(starts[n as int], answers[n as int], now);
        let key = starts[n as int].candidate.info_hash;
        assert(planner.pending_starts.contains_key(key));
        assert(before.pending_starts.contains_key(key));
        every_action_keeps_consistency(before, action);
        let after = planner_step(before, action).planner;
        assert(after.pending_starts == before.pending_starts.remove(key));
        assert forall|other: InfoHash| #[trigger]
            after.pending_starts.contains_key(other) <==> planner.pending_starts.contains_key(other)
                && forall|i: int|
                0 <= i < count ==> (#[trigger] starts[i]).candidate.info_hash != other by {
            if after.pending_starts.contains_key(other) {
                assert(before.pending_starts.contains_key(other));
            }
            if planner.pending_starts.contains_key(other) && forall|i: int|
                0 <= i < count ==> (#[trigger] starts[i]).candidate.info_hash != other {
                assert(starts[n as int].candidate.info_hash != other);
                assert(before.pending_starts.contains_key(other));
            }
        }
    }
}

/// A round of planning keeps the planner consistent, and once the planner has been told how every
/// start went that it asked for, whether they succeeded or failed, nothing is pending.
#[verifier::rlimit(30)]
pub proof fn planning_keeps_consistency(
    planner: PlannerView,
    runtime_available: bool,
    answers: Seq<Option<Vec<LookupId>>>,
    now: Instant,
)
    requires
        is_settled(planner),
        starts_of(
            planner_step(planner, DemandPlannerAction::PlanDue { now, runtime_available }).effects,
        ).len() <= answers.len(),
    ensures
        ({
            let step = planner_step(
                planner,
                DemandPlannerAction::PlanDue { now, runtime_available },
            );
            let starts = starts_of(step.effects);
            let after = starts_resolved(step.planner, starts, answers, now);
            &&& is_consistent(step.planner)
            &&& starts_match(step.planner.pending_starts, starts)
            &&& is_settled(after)
        }),
{
    reveal(is_settled);
    let action = DemandPlannerAction::PlanDue { now, runtime_available };
    let step = planner_step(planner, action);
    let starts = starts_of(step.effects);
    every_action_keeps_consistency(planner, action);
    let room = launch_budget(
        planner.active_keys.len() as usize,
        planner.drain_keys.len() as usize,
    );
    if runtime_available && room > 0 {
        let swept = PlannerView {
            parked_crawls: kept_crawls(planner.parked_crawls, now),
            ..planner
        };
        let status = planner.probe.observed_status(plannable(swept), now);
        let ready = PlannerView { budget: planner.budget.refilled(now), ..swept };
        let round = round_launches(ready, status, now, room);
        lemma_starts_asked(
            StartFold {
                entries: ready.entries,
                history: ready.history,
                pending_starts: ready.pending_starts,
                budget: round.budget,
                effects: seq![],
            },
            round.launches,
            status,
            now,
        );
    } else {
        assert(starts =~= seq![]);
        assert forall|key: InfoHash| !#[trigger] planner.pending_starts.contains_key(key) by {}
    }
    lemma_starts_resolved(step.planner, starts, starts.len(), answers, now);
    assert(starts.take(starts.len() as int) =~= starts);
    let after = starts_resolved(step.planner, starts, answers, now);
    assert forall|key: InfoHash| !#[trigger] after.pending_starts.dom().contains(key) by {
        if after.pending_starts.contains_key(key) {
            assert(step.planner.pending_starts.contains_key(key));
        }
    }
    assert(after.pending_starts.dom() =~= Set::<InfoHash>::empty());
}

/// After the runtime was replaced nothing runs and nothing is pending, and the demands are those
/// that they were, with their subscribers.
pub proof fn runtime_reset_settles(planner: PlannerView, now: Instant)
    requires
        is_consistent(planner),
    ensures
        ({
            let after = planner_step(planner, DemandPlannerAction::RuntimeReset { now }).planner;
            &&& is_settled(after)
            &&& after.entry_keys == planner.entry_keys
            &&& forall|key: InfoHash| #[trigger]
                planner.entries.contains_key(key) ==> after.entries.contains_key(key)
                    && !after.entries[key].in_progress && after.entries[key].demand
                    == planner.entries[key].demand && after.entries[key].metrics
                    == planner.entries[key].metrics && after.entries[key].subscriber_count
                    == planner.entries[key].subscriber_count
            &&& forall|key: InfoHash| !#[trigger] is_busy(after, key)
        }),
{
    reveal(is_settled);
    every_action_keeps_consistency(planner, DemandPlannerAction::RuntimeReset { now });
    let after = planner_step(planner, DemandPlannerAction::RuntimeReset { now }).planner;
    assert(after.pending_starts.dom() =~= Set::<InfoHash>::empty());
    assert(after.pending_parks.dom() =~= Set::<InfoHash>::empty());
}

/// A service without demands is consistent, and nothing is pending.
pub proof fn empty_planner_is_settled(now: Instant)
    ensures
        is_settled(empty_planner(now)),
{
    reveal(is_settled);
    empty_planner_is_consistent(now);
    assert(empty_planner(now).pending_starts.dom() =~= Set::<InfoHash>::empty());
    assert(empty_planner(now).pending_parks.dom() =~= Set::<InfoHash>::empty());
}

/// A running lookup that gets one more part keeps the planner consistent, with as much pending as
/// before.
pub proof fn extending_keeps_consistency(
    before: PlannerView,
    after: PlannerView,
    info_hash: InfoHash,
    lookup_id: LookupId,
)
    requires
        is_consistent(before),
        lookup_extended(before, after, info_hash, lookup_id),
    ensures
        is_consistent(after),
        nothing_pending(after) == nothing_pending(before),
{
    assert(active_classes(after.active_keys, after.active) =~= active_classes(
        before.active_keys,
        before.active,
    )) by {
        assert forall|i: int| 0 <= i < before.active_keys.len() implies #[trigger]
            after.active[before.active_keys[i]].slice_class
            == before.active[before.active_keys[i]].slice_class by {
            let key = before.active_keys[i];
            assert(before.active_keys.to_set().contains(key));
            assert(before.active.contains_key(key));
        }
    }
    assert forall|key: InfoHash| after.active.contains_key(key) == #[trigger]
        before.active.contains_key(key) by {}
    assert(parking(after) == parking(before));
    assert forall|class: DemandSliceClass| #[trigger] class_load(after, class)
        <= class.slot_cap() by {
        assert(class_load(after, class) == class_load(before, class));
    }
    assert forall|key: InfoHash| #[trigger] is_busy(after, key) implies is_marked(after, key) by {
        assert(is_busy(before, key));
    }
    assert forall|key: InfoHash| #[trigger] is_marked(after, key) implies is_busy(after, key) by {
        assert(is_marked(before, key));
        assert(is_busy(before, key));
    }
}

} // verus!
