use vstd::prelude::*;

use crate::clock::Instant;
use crate::commands::{DhtCommand, DhtRuntimeCommandEffect};
use crate::driver::{
    applied_of, event_handled, lifecycle_effect_applied, readiness, runtime_effect_applied,
    selections_counted, service_effect_applied, starts_of, LifecycleWork, LoopEvent, LoopReduction,
    LoopWork, RuntimeWork, ServiceWork,
};
use crate::effects::{applied_all, applied_one, drain_finished, Applied};
use crate::ids::{InfoHash, PeerAddr};
use crate::lifecycle::DhtLifecycleEffect;
use crate::planner::actions::{
    DemandLookupFinishedEffect, DemandPlannerAction, DemandStartLookupEffect, PlannerEffectView,
};
use crate::planner::drain::{drain_turn, finalize_turn};
use crate::planner::lookups::DrainView;
use crate::planner::metrics::DemandSliceMetrics;
use crate::planner::model::PlannerView;
use crate::planner::step::{drain_tick_step, planner_step};
use crate::runtime::ledger::{LedgerView, RuntimeLookup};
use crate::runtime::ledger_laws::{
    ending_takes_out_all, holds, nothing_outstanding_without_queries,
};
use crate::runtime::start_laws::counts_of;
use crate::slice::{DemandSelectionReason, DemandSliceClass, DemandSliceStopReason};
use crate::state::demand_command::{
    command_step, demand_action, CommandEffectView, DhtDemandCommandAction, StateView,
};
use crate::state::service::DhtServiceEffect;
use crate::subscribers::SubscriberEffectView;

verus! {

// Each slice is counted once.

/// A lookup that ended by itself is counted once, with what it found, and changes nothing else.
pub proof fn finished_lookups_are_counted(
    before: Applied,
    finished: DemandLookupFinishedEffect,
    now: Instant,
)
    ensures
        ({
            let (after, followups) = applied_one(
                before,
                PlannerEffectView::LookupFinished(finished),
                now,
            );
            &&& followups.len() == 0
            &&& after.metrics == before.metrics.with_stop(
                finished.slice_class,
                DemandSliceStopReason::NaturalFinish,
                finished.total_peers,
                finished.unique_peers,
            )
            &&& after.planner == before.planner && after.ledger == before.ledger
        }),
{
}

/// A drain that ends is counted once, with all peers that it found, late ones too. One that goes on
/// is not counted.
#[verifier::spinoff_prover]
#[verifier::rlimit(40)]
pub proof fn drains_are_counted_at_their_end(
    before: Applied,
    info_hash: InfoHash,
    force: bool,
    now: Instant,
)
    requires
        before.planner.drains.contains_key(info_hash),
        before.planner.drains[info_hash].unique_peers.len() <= usize::MAX,
    ensures
        ({
            let after = drain_finished(before, info_hash, force, now);
            let drain = before.planner.drains[info_hash];
            let ended = finalize_turn(
                before.ledger,
                before.planner.parked_crawls,
                before.planner.drains,
                info_hash,
                force,
                now,
            ).outcome.is_some();
            &&& ended <==> !after.planner.drains.contains_key(info_hash)
            &&& ended ==> after.finalized && after.metrics == before.metrics.with_stop(
                drain.slice_class,
                drain.stop_reason,
                drain.total_peers,
                drain.unique_peers.len() as usize,
            )
            &&& !ended ==> after.metrics == before.metrics && after.finalized == before.finalized
            &&& force ==> ended
        }),
{
}

/// A lookup that was stopped is counted at once, under the reason for which it stopped and with what
/// it found, unless it is drained: then it is not counted yet.
#[verifier::spinoff_prover]
#[verifier::rlimit(40)]
pub proof fn stopped_lookups_are_counted_or_drained(
    before: Applied,
    effect: PlannerEffectView,
    now: Instant,
)
    requires
        effect is AdmitDrain,
        effect->AdmitDrain_unique_peers.len() <= usize::MAX,
        match effect {
            PlannerEffectView::AdmitDrain { info_hash, slice_class, .. } =>
                before.planner.entries.contains_key(info_hash) ==> crate::slice::class_of(
                    before.planner.entries[info_hash].demand,
                ) == slice_class,
            _ => true,
        },
    ensures
        effect matches PlannerEffectView::AdmitDrain {
            info_hash,
            slice_class,
            stop_reason,
            total_peers,
            unique_peers,
            lookup_ids,
            previous,
        } && {
            let after = applied_all(before, seq![effect], now);
            let drained = drain_turn(
                before.ledger,
                before.planner.parked_crawls,
                before.planner.drains,
                before.planner.drain_keys,
                info_hash,
                slice_class,
                stop_reason,
                total_peers,
                unique_peers,
                lookup_ids,
                now,
            ).drains.contains_key(info_hash);
            &&& after.planner.drains.contains_key(info_hash) == drained
            &&& drained ==> after.metrics == before.metrics
            &&& !drained ==> after.metrics == before.metrics.with_stop(
                slice_class,
                stop_reason,
                total_peers,
                unique_peers.len() as usize,
            )
            &&& !after.planner.pending_parks.contains_key(info_hash)
            &&& after.planner.active == before.planner.active
        },
{
    let queue = seq![effect];
    let (after, followups) = applied_one(before, effect, now);
    assert(queue[0] == effect);
    assert(queue.drop_first() + followups =~= followups);
    assert(applied_all(before, queue, now) == applied_all(after, followups, now));
    assert(followups.len() == 1);
    let (told, rest) = applied_one(after, followups[0], now);
    let nothing = Seq::<PlannerEffectView>::empty();
    assert(followups.drop_first() + rest =~= nothing);
    assert(applied_all(after, followups, now) == applied_all(told, nothing, now));
    assert(applied_all(told, nothing, now) == told);
}

/// A running lookup whose demand is gone is parked without being counted, and what is kept of it
/// waits for its demand to come back.
pub proof fn abandoned_lookups_are_parked_uncounted(
    before: Applied,
    effect: PlannerEffectView,
    now: Instant,
)
    requires
        effect is ParkActiveLookup,
    ensures
        effect matches PlannerEffectView::ParkActiveLookup {
            info_hash,
            slice_class,
            lookup_ids,
        } && {
            let after = applied_one(before, effect, now).0;
            &&& after.metrics == before.metrics
            &&& after.finalized == before.finalized
            &&& after.planner.entries == before.planner.entries
            &&& before.ledger.is_none() ==> after == before
            &&& before.ledger.is_some() && before.ledger.unwrap().parked_all(lookup_ids).1.len()
                > 0 ==> after.planner.parked_crawls.contains_key(info_hash)
            &&& forall|other: InfoHash|
                other != info_hash ==> (#[trigger] after.planner.parked_crawls.contains_key(other))
                    == before.planner.parked_crawls.contains_key(other)
        },
{
}

/// A drain whose demand is gone is ended by ending each of its lookups, without being counted.
pub proof fn abandoned_drains_are_ended_uncounted(
    before: Applied,
    effect: PlannerEffectView,
    now: Instant,
    lookup: RuntimeLookup,
)
    requires
        effect is CancelDrainingLookup,
    ensures
        effect matches PlannerEffectView::CancelDrainingLookup { info_hash, lookup_ids } && {
            let (after, followups) = applied_one(before, effect, now);
            &&& followups.len() == 0
            &&& after.metrics == before.metrics && after.planner == before.planner
            &&& after.finalized == before.finalized
            &&& after.ledger.is_some() == before.ledger.is_some()
            &&& before.ledger.is_some() ==> (holds(after.ledger.unwrap(), lookup) <==> holds(
                before.ledger.unwrap(),
                lookup,
            ) && !lookup_ids.contains(lookup.lookup_id))
        },
{
    if let PlannerEffectView::CancelDrainingLookup { info_hash, lookup_ids } = effect {
        if before.ledger.is_some() {
            ending_takes_out_all(before.ledger.unwrap(), lookup_ids, lookup);
        }
    }
}

// Demands.

/// Everything about demands concerns the planner and the subscribers, as it was said and at the time
/// when it came in; nothing else does.
pub proof fn demand_commands_are_passed_on(command: DhtCommand, now: Instant)
    ensures
        ({
            let action = demand_action(command, now);
            &&& action.is_some() <==> command is RegisterDemand || command is UpdateDemand
                || command is UpdateDemandMetrics || command is UnregisterDemand
                || command is DemandPeers || command is DemandLookupFinished
            &&& command matches DhtCommand::RegisterDemand {
                info_hash,
                demand,
                subscriber_tx,
                response_tx,
            } ==> action == Some(
                DhtDemandCommandAction::Register {
                    info_hash,
                    demand,
                    subscriber_tx,
                    response_tx,
                    now,
                },
            )
            &&& command matches DhtCommand::UpdateDemand { info_hash, demand } ==> action == Some(
                DhtDemandCommandAction::Update { info_hash, demand, now },
            )
            &&& command matches DhtCommand::UpdateDemandMetrics { info_hash, metrics } ==> action
                == Some(DhtDemandCommandAction::UpdateMetrics { info_hash, metrics })
            &&& command matches DhtCommand::UnregisterDemand { info_hash, subscriber_id } ==> action
                == Some(DhtDemandCommandAction::Unregister { info_hash, subscriber_id, now })
            &&& command matches DhtCommand::DemandPeers { info_hash, peers } ==> action == Some(
                DhtDemandCommandAction::PeersReceived { info_hash, peers, now },
            )
            &&& command matches DhtCommand::DemandLookupFinished {
                info_hash,
                slice_class,
                total_peers,
                unique_peers,
            } ==> action == Some(
                DhtDemandCommandAction::LookupFinished {
                    info_hash,
                    slice_class,
                    total_peers,
                    unique_peers,
                    now,
                },
            )
        }),
{
}

/// Due demands are started after a registration, a change of a demand and the end of a lookup, last
/// of all, and after nothing else.
#[verifier::spinoff_prover]
#[verifier::rlimit(40)]
pub proof fn due_demands_follow_changes(state: StateView, action: DhtDemandCommandAction)
    ensures
        ({
            let effects = command_step(state, action).effects;
            let starts = action is Register || action is Update || action is LookupFinished;
            &&& effects.len() > 0
            &&& starts <==> effects.last() == CommandEffectView::StartDueDemands
            &&& forall|i: int|
                0 <= i < effects.len() - 1 ==> (#[trigger] effects[i])
                    != CommandEffectView::StartDueDemands
        }),
{
}

/// A registration is answered first, with the id that the subscriber got.
#[verifier::spinoff_prover]
#[verifier::rlimit(40)]
pub proof fn registrations_are_answered(state: StateView, action: DhtDemandCommandAction)
    requires
        action is Register,
        state.registry.next_subscriber_id < u64::MAX,
    ensures
        action matches DhtDemandCommandAction::Register {
            info_hash,
            demand,
            subscriber_tx,
            response_tx: asked,
            now,
        } && {
            let step = command_step(state, action);
            &&& step.effects[0] == (CommandEffectView::SendRegisterResponse {
                response_tx: asked,
                subscriber_id: Some(state.registry.next_subscriber_id),
            })
            &&& step.state.planner.entries.contains_key(info_hash)
            &&& step.state.planner.entries[info_hash].demand == demand
            &&& step.state.registry.subscribers.contains_key(info_hash)
        },
{
    reveal_with_fuel(crate::state::demand_command::planner_followups, 2);
}

/// Peers that come in are remembered as recent, counted for their demand's drain, and handed to
/// everybody who subscribes to their demand.
pub proof fn incoming_peers_are_handed_on(
    state: StateView,
    action: DhtDemandCommandAction,
    peer: PeerAddr,
)
    requires
        action is PeersReceived,
    ensures
        action matches DhtDemandCommandAction::PeersReceived { info_hash, peers, now } && {
            let step = command_step(state, action);
            &&& peers@.contains(peer) ==> step.state.recent.found_at.contains_key(peer)
                && step.state.recent.found_at[peer] == now
            &&& !peers@.contains(peer) ==> step.state.recent.found_at.contains_key(peer)
                == state.recent.found_at.contains_key(peer)
            &&& step.state.planner.drains.contains_key(info_hash) ==> (
            step.state.planner.drains[info_hash].unique_peers.contains(peer)
                <==> state.planner.drains[info_hash].unique_peers.contains(peer) || peers@.contains(
                peer,
            ))
            &&& step.state.registry == state.registry
            &&& step.effects.len() == 2
            &&& state.registry.subscribers.contains_key(info_hash) ==> (step.effects[1] matches
                CommandEffectView::ApplySubscriberEffects(effects) && effects.len() == 1
                && effects[0] == (SubscriberEffectView::DeliverPeers {
                info_hash,
                peers: peers@,
                deliveries: state.registry.subscribers[info_hash],
            }))
        },
{
}

// The loop.

/// The loop ends exactly on a shutdown or once nobody can send commands any more, and then saves the
/// state.
#[verifier::spinoff_prover]
#[verifier::rlimit(40)]
pub proof fn loops_end_on_shutdown(
    state: StateView,
    ledger: Option<LedgerView>,
    event: LoopEvent,
    active_user_lookup_count: Option<usize>,
    now: Instant,
    after: StateView,
    after_ledger: Option<LedgerView>,
    reduction: LoopReduction,
)
    requires
        event_handled(
            state,
            ledger,
            event,
            active_user_lookup_count,
            now,
            after,
            after_ledger,
            reduction,
        ),
    ensures
        reduction.stop <==> event == LoopEvent::Shutdown || event == LoopEvent::CommandClosed,
        reduction.stop ==> (reduction.work matches LoopWork::Lifecycle(effects) && effects@ =~= seq![
            DhtLifecycleEffect::SaveRuntimeState,
        ]),
        !(event is Command) && !(event is DrainTick) ==> after == state,
        !(event is DrainTick) ==> after_ledger == ledger,
{
}

/// Due demands are started on their tick, and on the tick of the drains exactly where a drain came to
/// its end. A step of the runtime asks for nothing, unless it failed: then that is shown.
#[verifier::spinoff_prover]
#[verifier::rlimit(40)]
pub proof fn ticks_start_due_demands(
    state: StateView,
    ledger: Option<LedgerView>,
    event: LoopEvent,
    active_user_lookup_count: Option<usize>,
    now: Instant,
    after: StateView,
    after_ledger: Option<LedgerView>,
    reduction: LoopReduction,
)
    requires
        event_handled(
            state,
            ledger,
            event,
            active_user_lookup_count,
            now,
            after,
            after_ledger,
            reduction,
        ),
    ensures
        event is DemandTick ==> reduction.work == LoopWork::StartDueDemands,
        event is DrainTick ==> reduction.work == LoopWork::StartDueDemands || reduction.work
            == LoopWork::Nothing,
        event matches LoopEvent::RuntimeStep(Ok(_)) ==> reduction.work == LoopWork::Nothing,
        event matches LoopEvent::RuntimeStep(Err(error)) ==> (reduction.work matches
            LoopWork::Lifecycle(effects) && effects@.len() == 1 && (effects@[0] matches
            DhtLifecycleEffect::RecordRuntimeWarning { warning, publish_status } && publish_status
            && warning@ == "DHT runtime step failed: "@ + error@)),
        event matches LoopEvent::Command(DhtCommand::Reconfigure(config)) ==> (
        reduction.work matches LoopWork::Service(effects) && effects@ =~= seq![
            DhtServiceEffect::BuildRuntime { config },
        ]),
        event is MaintenanceTick && active_user_lookup_count == Some(0usize) ==> (
        reduction.work matches LoopWork::Lifecycle(effects) && effects@ =~= seq![
            DhtLifecycleEffect::RunMaintenance,
        ]),
{
}

/// Whether some drain of one state is gone in another.
pub open spec fn some_drain_is_gone(before: PlannerView, after: PlannerView) -> bool {
    exists|key: InfoHash| #[trigger]
        before.drains.contains_key(key) && !after.drains.contains_key(key)
}

#[verifier::spinoff_prover]
#[verifier::rlimit(40)]
proof fn lemma_one_drain_polled(before: Applied, effect: PlannerEffectView, now: Instant)
    requires
        effect is FinalizeDrainingLookup,
    ensures
        ({
            let (after, followups) = applied_one(before, effect, now);
            &&& followups.len() == 0
            &&& forall|key: InfoHash| #[trigger]
                after.planner.drains.contains_key(key) ==> before.planner.drains.contains_key(key)
            &&& after.finalized <==> before.finalized || some_drain_is_gone(
                before.planner,
                after.planner,
            )
        }),
{
    if let PlannerEffectView::FinalizeDrainingLookup(end) = effect {
        let turn = finalize_turn(
            before.ledger,
            before.planner.parked_crawls,
            before.planner.drains,
            end.info_hash,
            end.force,
            now,
        );
        let after = applied_one(before, effect, now).0;
        assert(after.planner.drains == turn.drains);
        if turn.outcome.is_some() {
            assert(before.planner.drains.contains_key(end.info_hash));
            assert(!after.planner.drains.contains_key(end.info_hash));
        }
    }
}

proof fn lemma_drains_polled(before: Applied, queue: Seq<PlannerEffectView>, now: Instant)
    requires
        forall|i: int| 0 <= i < queue.len() ==> (#[trigger] queue[i]) is FinalizeDrainingLookup,
    ensures
        ({
            let after = applied_all(before, queue, now);
            &&& forall|key: InfoHash| #[trigger]
                after.planner.drains.contains_key(key) ==> before.planner.drains.contains_key(key)
            &&& after.finalized <==> before.finalized || some_drain_is_gone(
                before.planner,
                after.planner,
            )
        }),
    decreases queue.len(),
{
    if queue.len() > 0 {
        let (middle, followups) = applied_one(before, queue[0], now);
        let rest = queue.drop_first();
        lemma_one_drain_polled(before, queue[0], now);
        assert(rest + followups =~= rest);
        assert forall|i: int| 0 <= i < rest.len() implies (
        #[trigger] rest[i]) is FinalizeDrainingLookup by {
            assert(rest[i] == queue[i + 1]);
        }
        lemma_drains_polled(middle, rest, now);
        let after = applied_all(before, queue, now);
        assert(after == applied_all(middle, rest, now));
        if some_drain_is_gone(before.planner, middle.planner) {
            let key = choose|key: InfoHash| #[trigger]
                before.planner.drains.contains_key(key) && !middle.planner.drains.contains_key(key);
            assert(before.planner.drains.contains_key(key) && !after.planner.drains.contains_key(
                key,
            ));
        }
        if some_drain_is_gone(middle.planner, after.planner) {
            let key = choose|key: InfoHash| #[trigger]
                middle.planner.drains.contains_key(key) && !after.planner.drains.contains_key(key);
            assert(before.planner.drains.contains_key(key) && !after.planner.drains.contains_key(
                key,
            ));
        }
        if some_drain_is_gone(before.planner, after.planner) {
            let key = choose|key: InfoHash| #[trigger]
                before.planner.drains.contains_key(key) && !after.planner.drains.contains_key(key);
            if middle.planner.drains.contains_key(key) {
                assert(some_drain_is_gone(middle.planner, after.planner));
            } else {
                assert(some_drain_is_gone(before.planner, middle.planner));
            }
        }
    }
}

/// The runtime calls a drain ready exactly where no lookup of it that is still there has a query in
/// flight, and speaks of every drain and of nothing else.
pub proof fn drains_are_ready_without_queries(
    drains: Map<InfoHash, DrainView>,
    ledger: LedgerView,
    info_hash: InfoHash,
)
    ensures
        readiness(drains, Some(ledger)).contains_key(info_hash) <==> drains.contains_key(info_hash),
        drains.contains_key(info_hash) ==> (readiness(drains, Some(ledger))[info_hash] <==> {
            let ids = drains[info_hash].lookup_ids;
            !exists|i: int|
                0 <= i < ids.len() && {
                    let found = ledger.get(#[trigger] ids[i]);
                    found.is_some() && found.unwrap().quality.inflight_len > 0
                }
        }),
        drains.contains_key(info_hash) ==> readiness(drains, None)[info_hash],
{
    nothing_outstanding_without_queries(ledger, drains[info_hash].lookup_ids);
}

/// On the tick of the drains, due demands are started exactly where some drain has come to its end.
/// No drain begins then, and neither subscribers nor the service change.
pub proof fn ended_drains_make_room(
    state: StateView,
    ledger: Option<LedgerView>,
    active_user_lookup_count: Option<usize>,
    now: Instant,
    after: StateView,
    after_ledger: Option<LedgerView>,
    reduction: LoopReduction,
)
    requires
        event_handled(
            state,
            ledger,
            LoopEvent::DrainTick,
            active_user_lookup_count,
            now,
            after,
            after_ledger,
            reduction,
        ),
    ensures
        reduction.work == LoopWork::StartDueDemands <==> some_drain_is_gone(
            state.planner,
            after.planner,
        ),
        forall|key: InfoHash| #[trigger]
            after.planner.drains.contains_key(key) ==> state.planner.drains.contains_key(key),
        after.registry == state.registry && after.service == state.service,
{
    let effects = drain_tick_step(
        state.planner,
        now,
        readiness(state.planner.drains, ledger),
    ).effects;
    lemma_drains_polled(applied_of(state, ledger), effects, now);
}

/// A service's effect changes the state only where the planner is to begin anew: then no demand and no
/// subscriber is lost, and nothing runs any more. Everything else is handed on as it is.
pub proof fn service_effects_keep_demands(
    before: StateView,
    after: StateView,
    effect: DhtServiceEffect,
    now: Instant,
    work: ServiceWork,
    info_hash: InfoHash,
)
    requires
        service_effect_applied(before, after, effect, now, work),
    ensures
        after.registry == before.registry && after.service == before.service,
        after.planner.entries.contains_key(info_hash) == before.planner.entries.contains_key(
            info_hash,
        ),
        effect is ResetDemandPlanner ==> work == ServiceWork::Done && after.planner.active.len()
            == 0 && after.planner.drains.len() == 0 && after.planner.parked_crawls.len() == 0,
        !(effect is ResetDemandPlanner) ==> after == before,
        effect matches DhtServiceEffect::BuildRuntime { config } ==> work == (
        ServiceWork::BuildRuntime { config }),
        effect is PublishStatus ==> work == ServiceWork::PublishStatus,
        effect is StartDueDemands ==> work == ServiceWork::StartDueDemands,
{
}

/// A runtime is bootstrapped, maintained and saved, and its next bootstrap is set, exactly where there
/// is one. A warning is kept in any case, and shown where that is asked for. Of recent peers those
/// stay that were found less than the window ago.
#[verifier::spinoff_prover]
#[verifier::rlimit(40)]
pub proof fn lifecycle_effects_need_a_runtime(
    before: StateView,
    after: StateView,
    before_due: Option<Instant>,
    after_due: Option<Instant>,
    runtime_available: bool,
    effect: DhtLifecycleEffect,
    now: Instant,
    work: LifecycleWork,
    peer: PeerAddr,
)
    requires
        lifecycle_effect_applied(
            before,
            after,
            before_due,
            after_due,
            runtime_available,
            effect,
            now,
            work,
        ),
    ensures
        !runtime_available ==> after_due == before_due && work != LifecycleWork::RunStartupBootstrap
            && work != LifecycleWork::RunMaintenance && work != LifecycleWork::SaveRuntimeState,
        runtime_available && effect is RunStartupBootstrap ==> work
            == LifecycleWork::RunStartupBootstrap,
        runtime_available && effect is RunMaintenance ==> work == LifecycleWork::RunMaintenance,
        runtime_available && effect is SaveRuntimeState ==> work == LifecycleWork::SaveRuntimeState,
        runtime_available && effect is ClearStartupBootstrapDue ==> after_due.is_none(),
        runtime_available ==> (effect matches DhtLifecycleEffect::SetStartupBootstrapDue(due)
            ==> after_due == Some(due)),
        effect is PublishStatus ==> work == LifecycleWork::PublishStatus,
        effect matches DhtLifecycleEffect::RecordRuntimeWarning { warning, publish_status } ==> {
            &&& after.service.warning == Some(warning)
            &&& after.service.config == before.service.config
            &&& after.service.generation == before.service.generation
            &&& publish_status <==> work is Service
            &&& work matches LifecycleWork::Service(effects) ==> effects@ =~= seq![
                DhtServiceEffect::PublishStatus,
            ]
        },
        effect is ExpireRecentUniquePeers && before.recent.window > 0 ==> (
        after.recent.found_at.contains_key(peer) <==> before.recent.found_at.contains_key(peer)
            && now - before.recent.found_at[peer] < before.recent.window),
        after.planner == before.planner && after.registry == before.registry,
        !(effect is ExpireRecentUniquePeers) ==> after.recent == before.recent,
        !(effect is ClearStartupBootstrapDue) && !(effect is SetStartupBootstrapDue) ==> after_due
            == before_due,
{
}

/// Lookups that are to be ended leave the runtime's ledger. What only the runtime can do is handed on
/// as it is, and changes nothing.
#[verifier::spinoff_prover]
#[verifier::rlimit(40)]
pub proof fn runtime_effects_are_carried_out(
    before: StateView,
    after: StateView,
    ledger: Option<LedgerView>,
    after_ledger: Option<LedgerView>,
    effect: DhtRuntimeCommandEffect,
    now: Instant,
    work: RuntimeWork,
    lookup: RuntimeLookup,
)
    requires
        runtime_effect_applied(before, after, ledger, after_ledger, effect, now, work),
    ensures
        effect matches DhtRuntimeCommandEffect::CancelLookups { lookup_ids } ==> {
            &&& after == before && work == RuntimeWork::Done
            &&& ledger.is_some() == after_ledger.is_some()
            &&& ledger.is_some() ==> (holds(after_ledger.unwrap(), lookup) <==> holds(
                ledger.unwrap(),
                lookup,
            ) && !lookup_ids@.contains(lookup.lookup_id))
        },
        effect matches DhtRuntimeCommandEffect::StartGetPeers { info_hash, response_tx } ==> after
            == before && work == (RuntimeWork::StartGetPeers { info_hash, response_tx }),
        effect matches DhtRuntimeCommandEffect::AttachLookupFamily(request) ==> after == before
            && work == RuntimeWork::AttachLookupFamily(request),
        effect matches DhtRuntimeCommandEffect::AnnouncePeer { info_hash, port, response_tx }
            ==> after == before && work == (RuntimeWork::AnnouncePeer {
            info_hash,
            port,
            response_tx,
        }),
        effect is StartDueDemands ==> after == before && work == RuntimeWork::StartDueDemands,
        after.registry == before.registry && after.service == before.service,
{
    if let DhtRuntimeCommandEffect::CancelLookups { lookup_ids } = effect {
        if ledger.is_some() {
            ending_takes_out_all(ledger.unwrap(), lookup_ids@, lookup);
        }
    }
}

/// A stopped lookup no longer runs, and whether it is drained is decided at once. It is counted, with
/// what it found, or drained.
#[verifier::spinoff_prover]
#[verifier::rlimit(40)]
pub proof fn stopped_lookups_are_settled(
    before: StateView,
    after: StateView,
    ledger: Option<LedgerView>,
    after_ledger: Option<LedgerView>,
    effect: DhtRuntimeCommandEffect,
    now: Instant,
    work: RuntimeWork,
)
    requires
        runtime_effect_applied(before, after, ledger, after_ledger, effect, now, work),
        effect is ParkDemandLookups,
        effect->ParkDemandLookups_unique_peers@.len() <= usize::MAX,
        match effect {
            DhtRuntimeCommandEffect::ParkDemandLookups { info_hash, slice_class, .. } =>
                before.planner.entries.contains_key(info_hash) ==> crate::slice::class_of(
                    before.planner.entries[info_hash].demand,
                ) == slice_class,
            _ => true,
        },
    ensures
        effect matches DhtRuntimeCommandEffect::ParkDemandLookups {
            info_hash,
            slice_class,
            stop_reason,
            total_peers,
            unique_peers,
            lookup_ids,
        } && {
            &&& !after.planner.active.contains_key(info_hash)
            &&& !after.planner.pending_parks.contains_key(info_hash)
            &&& after.planner.drains.contains_key(info_hash) ==> after.metrics == before.metrics
            &&& !after.planner.drains.contains_key(info_hash) ==> after.metrics
                == before.metrics.with_stop(
                slice_class,
                stop_reason,
                total_peers,
                unique_peers@.len() as usize,
            )
            &&& work == RuntimeWork::Done
        },
{
    if let DhtRuntimeCommandEffect::ParkDemandLookups {
        info_hash,
        slice_class,
        stop_reason,
        total_peers,
        unique_peers,
        lookup_ids,
    } = effect {
        let step = planner_step(
            before.planner,
            DemandPlannerAction::LookupParkRequested {
                info_hash,
                slice_class,
                stop_reason,
                total_peers,
                unique_peers,
                lookup_ids,
            },
        );
        let begun = applied_of(StateView { planner: step.planner, ..before }, ledger);
        assert(step.effects =~= seq![step.effects[0]]);
        stopped_lookups_are_counted_or_drained(begun, step.effects[0], now);
    }
}

/// The lookups that are to be started are exactly those that the planner asked for, in its order.
pub proof fn every_start_is_handed_out(
    effects: Seq<PlannerEffectView>,
    start: DemandStartLookupEffect,
)
    ensures
        starts_of(effects).contains(start) <==> effects.contains(
            PlannerEffectView::StartLookup(start),
        ),
        starts_of(effects).len() <= effects.len(),
    decreases effects.len(),
{
    let effect = PlannerEffectView::StartLookup(start);
    if effects.len() > 0 {
        let rest = effects.drop_last();
        let before = starts_of(rest);
        let after = starts_of(effects);
        every_start_is_handed_out(rest, start);
        assert(effects[effects.len() - 1] == effects.last());
        if rest.contains(effect) {
            assert(effects[rest.index_of(effect)] == effect);
        }
        if effects.contains(effect) && effects.last() != effect {
            assert(rest[effects.index_of(effect)] == effect);
        }
        if effects.last() is StartLookup {
            let last = effects.last()->StartLookup_0;
            assert(after[before.len() as int] == last);
            if before.contains(start) {
                assert(after[before.index_of(start)] == start);
            }
            if after.contains(start) && start != last {
                assert(before[after.index_of(start)] == start);
            }
        }
    }
}

/// How many of several starts are for a class and for a reason.
pub open spec fn starts_for(
    starts: Seq<DemandStartLookupEffect>,
    class: DemandSliceClass,
    reason: DemandSelectionReason,
) -> nat
    decreases starts.len(),
{
    if starts.len() == 0 {
        0
    } else {
        starts_for(starts.drop_last(), class, reason) + if starts.last().plan.class == class
            && starts.last().selection_reason == reason {
            1nat
        } else {
            0nat
        }
    }
}

/// The count of picked demands for a class and a reason.
pub open spec fn picked(
    metrics: DemandSliceMetrics,
    class: DemandSliceClass,
    reason: DemandSelectionReason,
) -> int {
    let counts = counts_of(metrics, class);
    match reason {
        DemandSelectionReason::ReusableParked => counts.selected_reusable_parked as int,
        DemandSelectionReason::SwarmSupport => counts.selected_swarm_support as int,
        DemandSelectionReason::UsefulYieldHistory => counts.selected_useful_yield_history as int,
        DemandSelectionReason::Fairness => counts.selected_fairness as int,
        DemandSelectionReason::OverdueScarce => counts.selected_overdue_scarce as int,
        DemandSelectionReason::SpareCapacity => counts.selected_spare_capacity as int,
        DemandSelectionReason::IdleSpeedProbe => counts.selected_idle_speed_probe as int,
    }
}

#[verifier::spinoff_prover]
proof fn lemma_picked_once(
    metrics: DemandSliceMetrics,
    counted: DemandSliceClass,
    why: DemandSelectionReason,
    class: DemandSliceClass,
    reason: DemandSelectionReason,
)
    requires
        picked(metrics, class, reason) < u64::MAX,
    ensures
        picked(
            metrics.with(counted, metrics.of(counted).with_selection(why)),
            class,
            reason,
        ) == picked(metrics, class, reason) + if counted == class && why == reason {
            1int
        } else {
            0int
        },
{
}

/// Each start is counted once, for its class and under its reason.
#[verifier::spinoff_prover]
#[verifier::rlimit(40)]
pub proof fn starts_are_counted_by_reason(
    metrics: DemandSliceMetrics,
    starts: Seq<DemandStartLookupEffect>,
    class: DemandSliceClass,
    reason: DemandSelectionReason,
)
    requires
        picked(metrics, class, reason) + starts.len() <= u64::MAX,
    ensures
        picked(selections_counted(metrics, starts), class, reason) == picked(
            metrics,
            class,
            reason,
        ) + starts_for(starts, class, reason),
        starts_for(starts, class, reason) <= starts.len(),
    decreases starts.len(),
{
    if starts.len() > 0 {
        let rest = starts.drop_last();
        let start = starts.last();
        starts_are_counted_by_reason(metrics, rest, class, reason);
        lemma_picked_once(
            selections_counted(metrics, rest),
            start.plan.class,
            start.selection_reason,
            class,
            reason,
        );
    }
}

} // verus!
