use vstd::prelude::*;

use crate::api::{first_answer, missed_answer, LookupAnswer};
use crate::clock::{Instant, SECOND};
use crate::commands::{
    runtime_action, runtime_effects, DhtCommand, DhtRuntimeCommandAction, DhtRuntimeCommandEffect,
};
use crate::config::{
    literal_summary, resolved_addresses, with_new, BootstrapNode, BootstrapSummary, DhtBackendKind,
    DhtServiceConfig,
};
use crate::driver::first_due;
use crate::ids::{InfoHash, PeerAddr};
use crate::lifecycle::{lifecycle_effects, DhtLifecycleAction, DhtLifecycleEffect};
use crate::reconfigure::{
    awaited, ports_collide, ReconfigureAction, ReconfigureEvent, Reconfiguration,
};
use crate::state::service::{service_step, DhtServiceAction, DhtServiceEffect, DhtServiceModel};
use crate::status::{shown_health, telemetry_of, RuntimeReport};
use crate::subscribers::{
    subscriber_step, DemandSubscriber, DemandSubscriberAction, RegistryView, SubscriberEffectView,
};

verus! {

// The runtime's life.

/// The runtime bootstraps exactly once that is due and while nobody waits for a lookup.
pub proof fn bootstrap_waits_for_users(now: Instant, due: Instant, active_user_lookup_count: usize)
    ensures
        ({
            let effects = lifecycle_effects(
                DhtLifecycleAction::StartupBootstrapDue { now, due, active_user_lookup_count },
            );
            &&& effects.contains(DhtLifecycleEffect::RunStartupBootstrap) <==> due <= now
                && active_user_lookup_count == 0
            &&& effects.len() <= 1
            &&& now < due ==> effects.len() == 0
        }),
{
    let effects = lifecycle_effects(
        DhtLifecycleAction::StartupBootstrapDue { now, due, active_user_lookup_count },
    );
    if due <= now && active_user_lookup_count == 0 {
        assert(effects[0] == DhtLifecycleEffect::RunStartupBootstrap);
    }
}

/// A new runtime bootstraps five seconds after it was built, unless that is skipped.
pub proof fn first_bootstrap_comes_soon(skip: bool, now: Instant)
    requires
        now + 5 * SECOND <= u64::MAX,
    ensures
        first_due(skip, now).is_none() <==> skip,
        !skip ==> first_due(skip, now).unwrap() - now == 5 * SECOND,
{
}

/// A lookup is refused only where a service with a backend cannot be reached: one without a backend
/// has no peers, whether it is asked or not, and a service that is there is always asked.
pub proof fn lookups_without_backend_find_nobody(service_gone: bool, backend: DhtBackendKind)
    ensures
        first_answer(service_gone, backend) != LookupAnswer::Refused,
        !service_gone ==> first_answer(service_gone, backend) == LookupAnswer::Ask,
        missed_answer(backend) != LookupAnswer::Ask,
        backend == DhtBackendKind::Disabled <==> missed_answer(backend) == LookupAnswer::NoPeers,
        service_gone ==> (first_answer(service_gone, backend) == LookupAnswer::NoPeers <==> backend
            == DhtBackendKind::Disabled),
{
}

/// A bootstrap that succeeded is no longer due; one that failed is due again when it is to be tried
/// again, and its warning is kept without a new status.
pub proof fn failed_bootstraps_are_retried(warning: String, retry_at: Instant)
    ensures
        ({
            let done = lifecycle_effects(DhtLifecycleAction::StartupBootstrapSucceeded);
            let failed = lifecycle_effects(
                DhtLifecycleAction::StartupBootstrapFailed { warning, retry_at },
            );
            &&& done =~= seq![DhtLifecycleEffect::ClearStartupBootstrapDue]
            &&& failed.len() == 2
            &&& failed[0] == (DhtLifecycleEffect::RecordRuntimeWarning {
                warning,
                publish_status: false,
            })
            &&& failed[1] == DhtLifecycleEffect::SetStartupBootstrapDue(retry_at)
        }),
{
}

/// The runtime is maintained exactly where there is one and nobody waits for a lookup.
pub proof fn maintenance_waits_for_users(active_user_lookup_count: Option<usize>)
    ensures
        ({
            let effects = lifecycle_effects(
                DhtLifecycleAction::MaintenanceTick { active_user_lookup_count },
            );
            &&& active_user_lookup_count.is_some() && active_user_lookup_count.unwrap() == 0
                ==> effects =~= seq![DhtLifecycleEffect::RunMaintenance]
            &&& active_user_lookup_count.is_none() || active_user_lookup_count.unwrap() > 0
                ==> effects.len() == 0
        }),
{
}

/// A failure of a running runtime is shown at once.
pub proof fn runtime_failures_are_shown(warning: String)
    ensures
        lifecycle_effects(DhtLifecycleAction::MaintenanceFailed { warning }) =~= seq![
            DhtLifecycleEffect::RecordRuntimeWarning { warning, publish_status: true },
        ],
        lifecycle_effects(DhtLifecycleAction::RuntimeStepFailed { warning }) =~= seq![
            DhtLifecycleEffect::RecordRuntimeWarning { warning, publish_status: true },
        ],
{
}

/// The state is saved with each look at the runtime's health, after its status has been shown and
/// recent peers have been forgotten, and at the end.
pub proof fn state_is_saved_regularly()
    ensures
        ({
            let health = lifecycle_effects(DhtLifecycleAction::HealthTick);
            &&& health.len() == 3
            &&& health[0] == DhtLifecycleEffect::PublishStatus
            &&& health[1] == DhtLifecycleEffect::ExpireRecentUniquePeers
            &&& health[2] == DhtLifecycleEffect::SaveRuntimeState
            &&& lifecycle_effects(DhtLifecycleAction::Shutdown) =~= seq![
                DhtLifecycleEffect::SaveRuntimeState,
            ]
        }),
{
}

// Subscribers.

/// Whether somebody subscribes to a demand under an id and a channel.
pub open spec fn subscribes(
    registry: RegistryView,
    info_hash: InfoHash,
    subscriber: DemandSubscriber,
) -> bool {
    registry.subscribers.contains_key(info_hash) && registry.subscribers[info_hash].contains(
        subscriber,
    )
}

/// A new subscriber gets an id that was not given out before and stands behind all others of its
/// demand. No other demand is touched.
pub proof fn new_subscribers_come_last(registry: RegistryView, action: DemandSubscriberAction)
    requires
        action is Register,
        registry.next_subscriber_id < u64::MAX,
    ensures
        action matches DemandSubscriberAction::Register { info_hash, demand, subscriber_tx } && {
            let step = subscriber_step(registry, action);
            let id = registry.next_subscriber_id;
            let list = step.registry.subscribers[info_hash];
            &&& step.subscriber_id == Some(id)
            &&& step.registry.next_subscriber_id == id + 1
            &&& step.registry.subscribers.contains_key(info_hash)
            &&& list.len() > 0 && list.last().subscriber_id == id && list.last().subscriber_tx
                == subscriber_tx
            &&& registry.subscribers.contains_key(info_hash) ==> list.drop_last()
                =~= registry.subscribers[info_hash]
            &&& !registry.subscribers.contains_key(info_hash) ==> list.len() == 1
            &&& forall|other: InfoHash|
                other != info_hash ==> (#[trigger] step.registry.subscribers.contains_key(other))
                    == registry.subscribers.contains_key(other)
            &&& forall|other: InfoHash|
                other != info_hash ==> (#[trigger] step.registry.subscribers[other])
                    == registry.subscribers[other]
            &&& step.effects.len() == 1
            &&& step.effects[0] == (SubscriberEffectView::Registered {
                info_hash,
                demand,
                subscriber_id: id,
            })
        },
{
}

/// Peers go, all of them and in their order, to everybody who subscribes to their demand, and to
/// nobody else.
pub proof fn peers_reach_every_subscriber(
    registry: RegistryView,
    action: DemandSubscriberAction,
    subscriber: DemandSubscriber,
)
    requires
        action is DeliverPeers,
    ensures
        action matches DemandSubscriberAction::DeliverPeers { info_hash, peers } && {
            let step = subscriber_step(registry, action);
            &&& step.registry == registry
            &&& subscribes(registry, info_hash, subscriber) ==> step.effects.len() == 1
            &&& subscribes(registry, info_hash, subscriber) ==> (step.effects[0] matches
                SubscriberEffectView::DeliverPeers {
                info_hash: demand,
                peers: delivered,
                deliveries,
            } && demand == info_hash && delivered == peers@ && deliveries.contains(subscriber))
            &&& step.effects.len() <= 1
            &&& step.effects.len() > 0 ==> (step.effects[0] matches
                SubscriberEffectView::DeliverPeers { info_hash: demand, peers: _, deliveries }
                && deliveries == registry.subscribers[demand] && demand == info_hash)
        },
{
}

/// A subscriber that leaves is gone, and nobody else is. That is told exactly where it was there.
pub proof fn leaving_touches_nobody_else(
    registry: RegistryView,
    action: DemandSubscriberAction,
    subscriber: DemandSubscriber,
    demand: InfoHash,
)
    requires
        action is Unregister,
        forall|key: InfoHash| #[trigger]
            registry.subscribers.contains_key(key) ==> registry.subscribers[key].len() > 0,
    ensures
        action matches DemandSubscriberAction::Unregister { info_hash, subscriber_id } && {
            let step = subscriber_step(registry, action);
            let was_there = exists|left: DemandSubscriber| #[trigger]
                subscribes(registry, info_hash, left) && left.subscriber_id == subscriber_id;
            &&& subscribes(step.registry, demand, subscriber) <==> subscribes(
                registry,
                demand,
                subscriber,
            ) && !(demand == info_hash && subscriber.subscriber_id == subscriber_id)
            &&& was_there ==> step.effects =~= seq![
                SubscriberEffectView::SubscriberRemoved { info_hash },
            ]
            &&& !was_there ==> step.effects.len() == 0
            &&& step.registry.next_subscriber_id == registry.next_subscriber_id
        },
{
    if let DemandSubscriberAction::Unregister { info_hash, subscriber_id } = action {
        let list = registry.of(info_hash);
        let other = crate::subscribers::is_other(subscriber_id);
        if registry.has(info_hash, subscriber_id) {
            let i = choose|i: int|
                0 <= i < list.len() && (#[trigger] list[i]).subscriber_id == subscriber_id;
            assert(subscribes(registry, info_hash, list[i]));
        }
        if exists|left: DemandSubscriber| #[trigger]
            subscribes(registry, info_hash, left) && left.subscriber_id == subscriber_id {
            let left = choose|left: DemandSubscriber| #[trigger]
                subscribes(registry, info_hash, left) && left.subscriber_id == subscriber_id;
            assert(list[list.index_of(left)] == left);
            assert(registry.has(info_hash, subscriber_id));
        }
        if list.filter(other).contains(subscriber) {
            let i = list.filter(other).index_of(subscriber);
            list.lemma_filter_pred(other, i);
            list.lemma_filter_contains_rev(other, subscriber);
        }
        if list.contains(subscriber) && other(subscriber) {
            list.lemma_filter_contains(other, list.index_of(subscriber));
            assert(list.filter(other).len() > 0);
        }
        if list.contains(subscriber) && subscriber.subscriber_id == subscriber_id {
            assert(list[list.index_of(subscriber)].subscriber_id == subscriber_id);
        }
    }
}

/// Taking several dead subscribers out leaves exactly the others.
pub proof fn pruning_touches_nobody_else(
    registry: RegistryView,
    info_hash: InfoHash,
    subscriber_ids: Seq<u64>,
    subscriber: DemandSubscriber,
    demand: InfoHash,
)
    requires
        forall|key: InfoHash| #[trigger]
            registry.subscribers.contains_key(key) ==> registry.subscribers[key].len() > 0,
    ensures
        ({
            let (after, effects) = registry.without_all(info_hash, subscriber_ids);
            &&& subscribes(after, demand, subscriber) <==> subscribes(registry, demand, subscriber)
                && !(demand == info_hash && subscriber_ids.contains(subscriber.subscriber_id))
            &&& forall|key: InfoHash| #[trigger]
                after.subscribers.contains_key(key) ==> after.subscribers[key].len() > 0
            &&& forall|i: int|
                0 <= i < effects.len() ==> (#[trigger] effects[i])
                    == (SubscriberEffectView::SubscriberRemoved { info_hash })
            &&& effects.len() <= subscriber_ids.len()
        }),
    decreases subscriber_ids.len(),
{
    if subscriber_ids.len() > 0 {
        let rest = subscriber_ids.drop_last();
        let last = subscriber_ids.last();
        pruning_touches_nobody_else(registry, info_hash, rest, subscriber, demand);
        let (before, _) = registry.without_all(info_hash, rest);
        leaving_touches_nobody_else(
            before,
            DemandSubscriberAction::Unregister { info_hash, subscriber_id: last },
            subscriber,
            demand,
        );
        assert(subscriber_ids[subscriber_ids.len() - 1] == last);
        let id = subscriber.subscriber_id;
        if rest.contains(id) {
            assert(subscriber_ids[rest.index_of(id)] == id);
        }
        if subscriber_ids.contains(id) && id != last {
            assert(rest[subscriber_ids.index_of(id)] == id);
        }
    }
}

// Commands.

/// The runtime is asked for exactly what a command says, and for due demands besides where the
/// command may have made room.
pub proof fn room_is_offered_to_due_demands(action: DhtRuntimeCommandAction)
    ensures
        ({
            let effects = runtime_effects(action);
            let makes_room = action is ParkDemandLookups || action is FinalizeDrainedDemandLookups;
            &&& makes_room ==> effects.len() == 2 && effects[1]
                == DhtRuntimeCommandEffect::StartDueDemands
            &&& !makes_room ==> effects.len() == 1
            &&& effects[0] != DhtRuntimeCommandEffect::StartDueDemands
            &&& action matches DhtRuntimeCommandAction::StartGetPeers { info_hash, response_tx }
                ==> effects[0] == (DhtRuntimeCommandEffect::StartGetPeers {
                info_hash,
                response_tx,
            })
            &&& action matches DhtRuntimeCommandAction::StartGetPeersFamily(request) ==> effects[0]
                == DhtRuntimeCommandEffect::AttachLookupFamily(request)
            &&& action matches DhtRuntimeCommandAction::CancelLookups { lookup_ids } ==> effects[0]
                == (DhtRuntimeCommandEffect::CancelLookups { lookup_ids })
            &&& action matches DhtRuntimeCommandAction::FinalizeDrainedDemandLookups { info_hash }
                ==> effects[0] == (DhtRuntimeCommandEffect::FinalizeDrainedDemandLookups {
                info_hash,
            })
            &&& action matches DhtRuntimeCommandAction::AnnouncePeer {
                info_hash,
                port,
                response_tx,
            } ==> effects[0] == (DhtRuntimeCommandEffect::AnnouncePeer {
                info_hash,
                port,
                response_tx,
            })
            &&& action matches DhtRuntimeCommandAction::ParkDemandLookups {
                info_hash,
                slice_class,
                stop_reason,
                total_peers,
                unique_peers,
                lookup_ids,
            } ==> effects[0] == (DhtRuntimeCommandEffect::ParkDemandLookups {
                info_hash,
                slice_class,
                stop_reason,
                total_peers,
                unique_peers,
                lookup_ids,
            })
        }),
{
}

/// Commands about lookups go to the runtime as they are; those about demands and settings do not.
pub proof fn runtime_commands_are_passed_on(command: DhtCommand)
    ensures
        ({
            let action = runtime_action(command);
            &&& action.is_some() <==> command is StartGetPeers || command is StartGetPeersFamily
                || command is CancelLookups || command is ParkDemandLookups
                || command is FinalizeDrainedDemandLookups || command is AnnouncePeer
            &&& command matches DhtCommand::StartGetPeers { info_hash, response_tx } ==> action
                == Some(DhtRuntimeCommandAction::StartGetPeers { info_hash, response_tx })
            &&& command matches DhtCommand::StartGetPeersFamily(request) ==> action == Some(
                DhtRuntimeCommandAction::StartGetPeersFamily(request),
            )
            &&& command matches DhtCommand::CancelLookups { lookup_ids } ==> action == Some(
                DhtRuntimeCommandAction::CancelLookups { lookup_ids },
            )
            &&& command matches DhtCommand::FinalizeDrainedDemandLookups { info_hash } ==> action
                == Some(DhtRuntimeCommandAction::FinalizeDrainedDemandLookups { info_hash })
            &&& command matches DhtCommand::AnnouncePeer { info_hash, port, response_tx } ==> action
                == Some(DhtRuntimeCommandAction::AnnouncePeer { info_hash, port, response_tx })
            &&& command matches DhtCommand::ParkDemandLookups {
                info_hash,
                slice_class,
                stop_reason,
                total_peers,
                unique_peers,
                lookup_ids,
            } ==> action == Some(
                DhtRuntimeCommandAction::ParkDemandLookups {
                    info_hash,
                    slice_class,
                    stop_reason,
                    total_peers,
                    unique_peers,
                    lookup_ids,
                },
            )
        }),
{
}

// The service as a whole.

/// Only a configuration that came into force is taken over, with its warning, and counts as one more
/// generation. Every other event keeps both.
pub proof fn only_success_takes_over_a_configuration(
    model: DhtServiceModel,
    action: DhtServiceAction,
)
    requires
        model.generation < u64::MAX,
    ensures
        ({
            let after = service_step(model, action).0;
            &&& action matches DhtServiceAction::ReconfigureSucceeded { config, warning } ==> {
                &&& after.config == config && after.warning == warning
                &&& after.generation == model.generation + 1
            }
            &&& !(action is ReconfigureSucceeded) ==> after.config == model.config
                && after.generation == model.generation
            &&& action is ReconfigureRequested ==> after == model
            &&& action matches DhtServiceAction::RuntimeWarning { warning } ==> after.warning
                == Some(warning)
            &&& action matches DhtServiceAction::ReconfigureFailed { warning, runtime_reset }
                ==> after.warning == Some(warning)
        }),
{
}

/// Where the runtime was replaced, the planner begins anew, the status is shown, and due demands are
/// started, in this order. Other news are only shown, and a request builds a runtime.
pub proof fn replaced_runtimes_begin_anew(model: DhtServiceModel, action: DhtServiceAction)
    ensures
        ({
            let effects = service_step(model, action).1;
            let replaced = action is ReconfigureSucceeded || (action matches
                DhtServiceAction::ReconfigureFailed { warning, runtime_reset } && runtime_reset);
            &&& replaced ==> effects.len() == 3 && effects[0]
                == DhtServiceEffect::ResetDemandPlanner && effects[1]
                == DhtServiceEffect::PublishStatus && effects[2]
                == DhtServiceEffect::StartDueDemands
            &&& !replaced && !(action is ReconfigureRequested) ==> effects.len() == 1 && effects[0]
                == DhtServiceEffect::PublishStatus
            &&& action matches DhtServiceAction::ReconfigureRequested { config } ==> effects.len()
                == 1 && effects[0] == (DhtServiceEffect::BuildRuntime { config })
        }),
{
}

/// The old runtime gives up its port first exactly where there is one and the new one is to be bound
/// to the same fixed port.
pub proof fn shared_ports_are_given_up_first(
    runtime_available: bool,
    previous: DhtServiceConfig,
    next: DhtServiceConfig,
)
    ensures
        ({
            let begun = Reconfiguration::begun(runtime_available, previous, next);
            let shared = runtime_available && next.port > 0 && previous.port == next.port
                && next.preferred_backend != DhtBackendKind::Disabled;
            &&& awaited(begun.phase) == ReconfigureAction::Release <==> shared
            &&& awaited(begun.phase) == ReconfigureAction::BuildNext <==> !shared
            &&& ports_collide(runtime_available, previous, next) <==> shared
            &&& begun.next == next && !begun.released && !begun.built
        }),
{
}

/// A reconfiguration never takes in what it does not wait for.
pub proof fn unexpected_events_change_nothing(
    reconfiguration: Reconfiguration,
    event: ReconfigureEvent,
)
    requires
        match awaited(reconfiguration.phase) {
            ReconfigureAction::Release => !(event is Released),
            ReconfigureAction::BuildNext | ReconfigureAction::BuildPrevious => event is Released,
            ReconfigureAction::Finish => true,
        },
    ensures
        reconfiguration.after(event) == reconfiguration,
{
}

/// A running service shows the backend, the bootstrap nodes, the address families and the lookups of
/// its runtime; one without a runtime shows none but the configured nodes. Both show the backend that
/// is wanted.
pub proof fn shown_health_is_the_runtimes(
    runtime: Option<RuntimeReport>,
    preferred: DhtBackendKind,
    configured: BootstrapSummary,
)
    ensures
        ({
            let health = shown_health(runtime, preferred, configured);
            &&& health.preferred_backend == Some(preferred)
            &&& health.enabled == (health.backend != DhtBackendKind::Disabled)
            &&& runtime matches Some(report) ==> {
                &&& health.backend == report.backend
                &&& health.bound_family_count == report.bound_family_count
                &&& health.inflight_lookups == report.active_lookups
                &&& health.exported_bootstrap_nodes == report.bootstrap.total
                &&& health.ipv4_bootstrap_nodes == report.bootstrap.ipv4
                &&& health.ipv6_bootstrap_nodes == report.bootstrap.ipv6
            }
            &&& runtime is None ==> {
                &&& health.backend == DhtBackendKind::Disabled
                &&& health.bound_family_count == 0 && health.inflight_lookups == 0
                &&& health.exported_bootstrap_nodes == configured.total
                &&& health.ipv4_bootstrap_nodes == configured.ipv4
                &&& health.ipv6_bootstrap_nodes == configured.ipv6
            }
        }),
{
}

/// What is shown of the work in progress is what the runtime reports, nothing without one. The
/// strength is given in halves and, rounded down to at least one, in whole steps.
pub proof fn shown_work_is_the_runtimes(
    runtime: Option<RuntimeReport>,
    unique_peers_found: usize,
    halves: usize,
)
    ensures
        ({
            let shown = telemetry_of(runtime, unique_peers_found, halves);
            &&& runtime matches Some(report) ==> {
                &&& shown.active_lookups == report.active_lookups
                &&& shown.active_user_lookups == report.active_user_lookups
                &&& shown.inflight_ipv4_queries == report.inflight_ipv4_queries
                &&& shown.inflight_ipv6_queries == report.inflight_ipv6_queries
            }
            &&& runtime is None ==> {
                &&& shown.active_lookups == 0 && shown.active_user_lookups == 0
                &&& shown.inflight_ipv4_queries == 0 && shown.inflight_ipv6_queries == 0
            }
            &&& shown.unique_peers_found_last_10s == unique_peers_found
            &&& shown.demand_power_scale_halves == halves
            &&& halves < 2 ==> shown.demand_power_multiplier == 1
            &&& halves >= 2 ==> 2 * shown.demand_power_multiplier <= halves < 2
                * shown.demand_power_multiplier + 2
        }),
{
}

// Bootstrap nodes.

/// A configured node counts once for the total, and for a family exactly where it is given by an
/// address of that family.
pub proof fn literal_nodes_are_counted(nodes: Seq<BootstrapNode>, node: BootstrapNode)
    requires
        nodes.len() < usize::MAX,
    ensures
        ({
            let before = literal_summary(nodes);
            let after = literal_summary(nodes.push(node));
            let is_ipv4 = node.literal.is_some() && node.literal.unwrap().is_ipv4();
            let is_ipv6 = node.literal.is_some() && !node.literal.unwrap().is_ipv4();
            &&& after.total == before.total + 1
            &&& after.ipv4 == before.ipv4 + (if is_ipv4 {
                1int
            } else {
                0
            })
            &&& after.ipv6 == before.ipv6 + (if is_ipv6 {
                1int
            } else {
                0
            })
        }),
{
    reveal(Seq::filter);
    assert(nodes.push(node).drop_last() =~= nodes);
    nodes.lemma_filter_len(crate::config::is_literal(true));
    nodes.lemma_filter_len(crate::config::is_literal(false));
}

/// Whether an address is in one of several answers.
pub open spec fn is_answered(answers: Seq<Option<Vec<PeerAddr>>>, address: PeerAddr) -> bool {
    exists|i: int|
        0 <= i < answers.len() && (#[trigger] answers[i]).is_some() && answers[i].unwrap()@.contains(
            address,
        )
}

proof fn lemma_with_new(known: Seq<PeerAddr>, addresses: Seq<PeerAddr>, address: PeerAddr)
    ensures
        with_new(known, addresses).contains(address) <==> known.contains(address)
            || addresses.contains(address),
        known.is_prefix_of(with_new(known, addresses)),
    decreases addresses.len(),
{
    if addresses.len() > 0 {
        let rest = addresses.drop_last();
        let before = with_new(known, rest);
        let after = with_new(known, addresses);
        lemma_with_new(known, rest, address);
        assert(addresses[addresses.len() - 1] == addresses.last());
        if rest.contains(address) {
            assert(addresses[rest.index_of(address)] == address);
        }
        if addresses.contains(address) && address != addresses.last() {
            let i = addresses.index_of(address);
            assert(rest[i] == address);
        }
        if !before.contains(addresses.last()) {
            assert(after[before.len() as int] == addresses.last());
            if before.contains(address) {
                assert(after[before.index_of(address)] == address);
            }
            if after.contains(address) && address != addresses.last() {
                assert(before[after.index_of(address)] == address);
            }
        }
    }
}

/// The addresses to bootstrap from are exactly those in the answers, each once. Those of earlier
/// answers come first.
pub proof fn every_answer_is_used(answers: Seq<Option<Vec<PeerAddr>>>, address: PeerAddr)
    ensures
        resolved_addresses(answers).contains(address) <==> is_answered(answers, address),
        answers.len() > 0 ==> resolved_addresses(answers.drop_last()).is_prefix_of(
            resolved_addresses(answers),
        ),
        resolved_addresses(answers).no_duplicates(),
    decreases answers.len(),
{
    crate::config::resolved_addresses_are_distinct(answers);
    if answers.len() > 0 {
        let rest = answers.drop_last();
        every_answer_is_used(rest, address);
        assert(answers[answers.len() - 1] == answers.last());
        if is_answered(rest, address) {
            let i = choose|i: int|
                0 <= i < rest.len() && (#[trigger] rest[i]).is_some() && rest[i].unwrap()@.contains(
                    address,
                );
            assert(answers[i] == rest[i]);
        }
        if is_answered(answers, address) {
            let i = choose|i: int|
                0 <= i < answers.len() && (#[trigger] answers[i]).is_some()
                    && answers[i].unwrap()@.contains(address);
            if i < rest.len() {
                assert(rest[i] == answers[i]);
            }
        }
        match answers.last() {
            Some(addresses) => {
                lemma_with_new(resolved_addresses(rest), addresses@, address);
            },
            None => {},
        }
    }
}

} // verus!
