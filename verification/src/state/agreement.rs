use vstd::prelude::*;

use crate::clock::Instant;
use crate::demand::DhtDemandState;
use crate::effects::{applied_all, applied_one, lemma_workload_shrinks, workload, Applied};
use crate::ids::InfoHash;
use crate::planner::actions::{DemandPlannerAction, PlannerEffectView};
use crate::planner::drain::kept_crawls;
use crate::planner::lookups::launch_budget;
use crate::planner::model::{empty_planner, PlannerView};
use crate::planner::probe::DemandPlannerIdleSpeedProbeStatus;
use crate::planner::step::{
    plannable, planner_step, round_launches, start_all, PlannedLaunch, StartFold,
};
use crate::state::demand_command::{
    command_step, planner_followups, DhtDemandCommandAction, StateView,
};
use crate::subscribers::{
    is_other, subscriber_step, ChannelKey, DemandSubscriber, DemandSubscriberAction, RegistryView,
    SubscriberEffectView,
};

verus! {

/// Whether the ids of subscribers grow from one to the next and stay below a bound.
pub open spec fn ids_grow(list: Seq<DemandSubscriber>, bound: u64) -> bool {
    &&& forall|i: int, j: int|
        0 <= i < j < list.len() ==> (#[trigger] list[i]).subscriber_id < (
        #[trigger] list[j]).subscriber_id
    &&& forall|i: int| 0 <= i < list.len() ==> (#[trigger] list[i]).subscriber_id < bound
}

/// The subscribers of each demand came one after the other, each with an id that was handed out to
/// no other, and no demand is kept without a subscriber.
pub open spec fn registry_is_sound(registry: RegistryView) -> bool {
    &&& forall|key: InfoHash| #[trigger]
        registry.subscribers.contains_key(key) ==> registry.subscribers[key].len() > 0
    &&& forall|key: InfoHash|
        ids_grow(#[trigger] registry.of(key), registry.next_subscriber_id)
}

/// The planner knows of exactly the demands that have subscribers, and of how many they have.
pub open spec fn subscribers_agree(registry: RegistryView, planner: PlannerView) -> bool {
    &&& forall|key: InfoHash| #[trigger]
        planner.entries.contains_key(key) <==> registry.subscribers.contains_key(key)
    &&& forall|key: InfoHash| #[trigger]
        planner.entries.contains_key(key) ==> planner.entries[key].subscriber_count
            == registry.of(key).len()
}

proof fn lemma_rest_grows(list: Seq<DemandSubscriber>, bound: u64)
    requires
        ids_grow(list, bound),
        list.len() > 0,
    ensures
        ids_grow(list.drop_last(), bound),
{
    let rest = list.drop_last();
    assert forall|i: int, j: int| 0 <= i < j < rest.len() implies (#[trigger] rest[i]).subscriber_id
        < (#[trigger] rest[j]).subscriber_id by {
        assert(list[i].subscriber_id < list[j].subscriber_id);
    }
    assert forall|i: int| 0 <= i < rest.len() implies (#[trigger] rest[i]).subscriber_id < bound by {
        assert(list[i].subscriber_id < bound);
    }
}

/// Leaving out an id that no subscriber has changes nothing.
proof fn lemma_none_left_out(list: Seq<DemandSubscriber>, subscriber_id: u64)
    requires
        forall|i: int| 0 <= i < list.len() ==> (#[trigger] list[i]).subscriber_id != subscriber_id,
    ensures
        list.filter(is_other(subscriber_id)) == list,
    decreases list.len(),
{
    reveal(Seq::filter);
    if list.len() > 0 {
        let rest = list.drop_last();
        assert forall|j: int| 0 <= j < rest.len() implies (#[trigger] rest[j]).subscriber_id
            != subscriber_id by {
            assert(list[j].subscriber_id != subscriber_id);
        }
        lemma_none_left_out(rest, subscriber_id);
        assert(list =~= rest.push(list.last()));
    }
}

/// Where ids grow, leaving one out takes out the one subscriber that has it.
proof fn lemma_one_left_out(list: Seq<DemandSubscriber>, bound: u64, i: int)
    requires
        ids_grow(list, bound),
        0 <= i < list.len(),
    ensures
        list.filter(is_other(list[i].subscriber_id)) == list.remove(i),
    decreases list.len(),
{
    reveal(Seq::filter);
    let subscriber_id = list[i].subscriber_id;
    let rest = list.drop_last();
    let n = list.len() - 1;
    if i == n {
        assert forall|j: int| 0 <= j < rest.len() implies (#[trigger] rest[j]).subscriber_id
            != subscriber_id by {
            assert(list[j].subscriber_id < list[n].subscriber_id);
        }
        lemma_none_left_out(rest, subscriber_id);
        assert(list.remove(i) =~= rest);
    } else {
        lemma_rest_grows(list, bound);
        assert(list[i].subscriber_id < list[n].subscriber_id);
        assert(rest[i].subscriber_id == subscriber_id);
        lemma_one_left_out(rest, bound, i);
        assert(list.remove(i) =~= rest.remove(i).push(list[n]));
    }
}

proof fn lemma_without(registry: RegistryView, info_hash: InfoHash, subscriber_id: u64)
    requires
        registry_is_sound(registry),
    ensures
        registry_is_sound(registry.without(info_hash, subscriber_id)),
        registry.without(info_hash, subscriber_id).of(info_hash).len() == registry.of(
            info_hash,
        ).len() - if registry.has(info_hash, subscriber_id) {
            1int
        } else {
            0
        },
        forall|key: InfoHash|
            key != info_hash ==> #[trigger] registry.without(info_hash, subscriber_id).of(key)
                == registry.of(key),
{
    let list = registry.of(info_hash);
    let bound = registry.next_subscriber_id;
    assert(ids_grow(list, bound));
    if registry.has(info_hash, subscriber_id) {
        let i = choose|i: int|
            0 <= i < list.len() && (#[trigger] list[i]).subscriber_id == subscriber_id;
        lemma_one_left_out(list, bound, i);
        let kept = list.remove(i);
        let after = registry.without(info_hash, subscriber_id);
        assert(after == registry.with(info_hash, kept));
        assert(after.of(info_hash) =~= kept);
        assert forall|key: InfoHash| ids_grow(
            #[trigger] after.of(key),
            after.next_subscriber_id,
        ) by {
            if key == info_hash {
                assert forall|j: int, k: int| 0 <= j < k < kept.len() implies (
                #[trigger] kept[j]).subscriber_id < (#[trigger] kept[k]).subscriber_id by {
                    let before_j = if j < i { j } else { j + 1 };
                    let before_k = if k < i { k } else { k + 1 };
                    assert(list[before_j].subscriber_id < list[before_k].subscriber_id);
                }
                assert forall|j: int| 0 <= j < kept.len() implies (#[trigger] kept[j]).subscriber_id
                    < bound by {
                    let before_j = if j < i { j } else { j + 1 };
                    assert(list[before_j].subscriber_id < bound);
                }
            } else {
                assert(ids_grow(registry.of(key), bound));
            }
        }
    }
}

proof fn lemma_without_all(registry: RegistryView, info_hash: InfoHash, subscriber_ids: Seq<u64>)
    requires
        registry_is_sound(registry),
    ensures
        registry_is_sound(registry.without_all(info_hash, subscriber_ids).0),
    decreases subscriber_ids.len(),
{
    if subscriber_ids.len() > 0 {
        lemma_without_all(registry, info_hash, subscriber_ids.drop_last());
        lemma_without(
            registry.without_all(info_hash, subscriber_ids.drop_last()).0,
            info_hash,
            subscriber_ids.last(),
        );
    }
}

/// Whatever happens to the subscribers, no id is handed out twice and no demand is kept without a
/// subscriber.
pub proof fn every_action_keeps_registry_sound(
    registry: RegistryView,
    action: DemandSubscriberAction,
)
    requires
        registry_is_sound(registry),
    ensures
        registry_is_sound(subscriber_step(registry, action).registry),
        registry.next_subscriber_id <= subscriber_step(registry, action).registry.next_subscriber_id,
{
    match action {
        DemandSubscriberAction::Register { info_hash, demand, subscriber_tx } => {
            lemma_registered(registry, info_hash, subscriber_tx);
        },
        DemandSubscriberAction::Unregister { info_hash, subscriber_id } => {
            lemma_without(registry, info_hash, subscriber_id);
        },
        DemandSubscriberAction::PruneDeadSubscribers { info_hash, subscriber_ids } => {
            lemma_without_all(registry, info_hash, subscriber_ids@);
            lemma_ids_stay(registry, info_hash, subscriber_ids@);
        },
        DemandSubscriberAction::DeliverPeers { .. } => {},
    }
}

proof fn lemma_ids_stay(registry: RegistryView, info_hash: InfoHash, subscriber_ids: Seq<u64>)
    ensures
        registry.without_all(info_hash, subscriber_ids).0.next_subscriber_id
            == registry.next_subscriber_id,
    decreases subscriber_ids.len(),
{
    if subscriber_ids.len() > 0 {
        lemma_ids_stay(registry, info_hash, subscriber_ids.drop_last());
    }
}

/// A demand with one more subscriber.
spec fn with_subscriber(
    registry: RegistryView,
    info_hash: InfoHash,
    subscriber: DemandSubscriber,
) -> RegistryView {
    RegistryView {
        subscribers: registry.subscribers.insert(
            info_hash,
            registry.of(info_hash).push(subscriber),
        ),
        next_subscriber_id: (registry.next_subscriber_id + 1) as u64,
    }
}

proof fn lemma_registered(
    registry: RegistryView,
    info_hash: InfoHash,
    subscriber_tx: ChannelKey,
)
    requires
        registry_is_sound(registry),
    ensures
        registry.next_subscriber_id < u64::MAX ==> registry_is_sound(
            with_subscriber(
                registry,
                info_hash,
                DemandSubscriber { subscriber_id: registry.next_subscriber_id, subscriber_tx },
            ),
        ),
{
    if registry.next_subscriber_id < u64::MAX {
        let subscriber = DemandSubscriber {
            subscriber_id: registry.next_subscriber_id,
            subscriber_tx,
        };
        let after = with_subscriber(registry, info_hash, subscriber);
        assert forall|key: InfoHash| ids_grow(
            #[trigger] after.of(key),
            after.next_subscriber_id,
        ) by {
            assert(ids_grow(registry.of(key), registry.next_subscriber_id));
            if key == info_hash {
                let list = registry.of(key);
                let more = list.push(subscriber);
                assert(after.of(key) == more);
                assert forall|i: int, j: int| 0 <= i < j < more.len() implies (
                #[trigger] more[i]).subscriber_id < (#[trigger] more[j]).subscriber_id by {
                    assert(list[i].subscriber_id < registry.next_subscriber_id);
                }
                assert forall|i: int| 0 <= i < more.len() implies (#[trigger] more[i]).subscriber_id
                    < after.next_subscriber_id by {
                    if i < list.len() {
                        assert(list[i].subscriber_id < registry.next_subscriber_id);
                    }
                }
            } else {
                assert(after.of(key) == registry.of(key));
            }
        }
    }
}

proof fn lemma_last_removed(list: Seq<DemandSubscriber>, subscriber: DemandSubscriber)
    ensures
        list.push(subscriber).remove(list.len() as int) == list,
{
    assert(list.push(subscriber).remove(list.len() as int) =~= list);
}

proof fn lemma_list_put_back(registry: RegistryView, info_hash: InfoHash, bound: u64)
    requires
        registry.subscribers.contains_key(info_hash) ==> registry.subscribers[info_hash].len() > 0,
    ensures
        forall|list: Seq<DemandSubscriber>| #[trigger]
            (RegistryView {
                subscribers: registry.subscribers.insert(info_hash, list),
                next_subscriber_id: bound,
            }).with(info_hash, registry.of(info_hash)).subscribers == registry.subscribers,
{
    assert forall|list: Seq<DemandSubscriber>| #[trigger]
        (RegistryView {
            subscribers: registry.subscribers.insert(info_hash, list),
            next_subscriber_id: bound,
        }).with(info_hash, registry.of(info_hash)).subscribers == registry.subscribers by {
        assert((RegistryView {
            subscribers: registry.subscribers.insert(info_hash, list),
            next_subscriber_id: bound,
        }).with(info_hash, registry.of(info_hash)).subscribers =~= registry.subscribers);
    }
}

proof fn lemma_left_at_once(
    registry: RegistryView,
    info_hash: InfoHash,
    subscriber: DemandSubscriber,
)
    requires
        registry_is_sound(registry),
        subscriber.subscriber_id == registry.next_subscriber_id,
        registry.next_subscriber_id < u64::MAX,
    ensures
        with_subscriber(registry, info_hash, subscriber).has(info_hash, subscriber.subscriber_id),
        with_subscriber(registry, info_hash, subscriber).without(
            info_hash,
            subscriber.subscriber_id,
        ).subscribers == registry.subscribers,
{
    lemma_registered(registry, info_hash, subscriber.subscriber_tx);
    let registered = with_subscriber(registry, info_hash, subscriber);
    let list = registry.of(info_hash);
    let more = list.push(subscriber);
    assert(registered.of(info_hash) == more);
    assert(ids_grow(more, registered.next_subscriber_id));
    lemma_one_left_out(more, registered.next_subscriber_id, list.len() as int);
    lemma_last_removed(list, subscriber);
    lemma_list_put_back(registry, info_hash, registered.next_subscriber_id);
    assert(registered.of(info_hash)[list.len() as int].subscriber_id == subscriber.subscriber_id);
    assert(registered.without(info_hash, subscriber.subscriber_id) == registered.with(
        info_hash,
        list,
    ));
}

/// A subscriber that leaves at once leaves the registry as it was, but for its id, which is used
/// up.
pub proof fn unregister_undoes_register(
    registry: RegistryView,
    info_hash: InfoHash,
    demand: DhtDemandState,
    subscriber_tx: ChannelKey,
)
    requires
        registry_is_sound(registry),
        registry.next_subscriber_id < u64::MAX,
    ensures
        ({
            let registered = subscriber_step(
                registry,
                DemandSubscriberAction::Register { info_hash, demand, subscriber_tx },
            );
            let left = subscriber_step(
                registered.registry,
                DemandSubscriberAction::Unregister {
                    info_hash,
                    subscriber_id: registry.next_subscriber_id,
                },
            );
            &&& registered.subscriber_id == Some(registry.next_subscriber_id)
            &&& left.registry.subscribers == registry.subscribers
            &&& left.effects == seq![SubscriberEffectView::SubscriberRemoved { info_hash }]
        }),
{
    lemma_left_at_once(
        registry,
        info_hash,
        DemandSubscriber { subscriber_id: registry.next_subscriber_id, subscriber_tx },
    );
}

/// Whether two planners know of the same demands, each with as many subscribers.
spec fn same_demands(before: PlannerView, after: PlannerView) -> bool {
    &&& forall|key: InfoHash| #[trigger]
        after.entries.contains_key(key) <==> before.entries.contains_key(key)
    &&& forall|key: InfoHash| #[trigger]
        after.entries.contains_key(key) ==> after.entries[key].subscriber_count
            == before.entries[key].subscriber_count
}

proof fn lemma_applied(before: Applied, queue: Seq<PlannerEffectView>, now: Instant, fuel: nat)
    requires
        workload(queue) <= fuel,
    ensures
        same_demands(before.planner, applied_all(before, queue, now).planner),
    decreases fuel,
{
    if queue.len() > 0 {
        let (after, followups) = applied_one(before, queue[0], now);
        lemma_applied_one(before, queue[0], now);
        lemma_workload_shrinks(before, queue, now);
        lemma_applied(after, queue.drop_first() + followups, now, (fuel - 1) as nat);
        let end = applied_all(after, queue.drop_first() + followups, now).planner;
        assert forall|key: InfoHash| #[trigger]
            end.entries.contains_key(key) implies end.entries[key].subscriber_count
            == before.planner.entries[key].subscriber_count by {
            assert(after.planner.entries.contains_key(key));
        }
        assert forall|key: InfoHash| #[trigger]
            end.entries.contains_key(key) <==> before.planner.entries.contains_key(key) by {
            assert(end.entries.contains_key(key) <==> after.planner.entries.contains_key(key));
        }
    }
}

proof fn lemma_applied_one(before: Applied, effect: PlannerEffectView, now: Instant)
    ensures
        same_demands(before.planner, applied_one(before, effect, now).0.planner),
{
}

/// Carrying out what the planner asked for changes nothing in which demands there are, nor in how
/// many subscribers each has.
pub proof fn applying_effects_keeps_agreement(
    registry: RegistryView,
    before: Applied,
    queue: Seq<PlannerEffectView>,
    now: Instant,
)
    requires
        subscribers_agree(registry, before.planner),
    ensures
        subscribers_agree(registry, applied_all(before, queue, now).planner),
{
    lemma_applied(before, queue, now, workload(queue));
    let after = applied_all(before, queue, now).planner;
    assert forall|key: InfoHash| #[trigger]
        after.entries.contains_key(key) implies after.entries[key].subscriber_count == registry.of(
        key,
    ).len() by {
        assert(before.planner.entries.contains_key(key));
    }
    assert forall|key: InfoHash| #[trigger]
        after.entries.contains_key(key) <==> registry.subscribers.contains_key(key) by {
        assert(after.entries.contains_key(key) <==> before.planner.entries.contains_key(key));
    }
}

proof fn lemma_left(
    registry: RegistryView,
    planner: PlannerView,
    info_hash: InfoHash,
    subscriber_id: u64,
)
    requires
        registry_is_sound(registry),
        subscribers_agree(registry, planner),
        registry.has(info_hash, subscriber_id),
    ensures
        subscribers_agree(
            registry.without(info_hash, subscriber_id),
            planner_step(
                planner,
                DemandPlannerAction::DemandSubscriberRemoved { info_hash },
            ).planner,
        ),
{
    let after = registry.without(info_hash, subscriber_id);
    let told = planner_step(
        planner,
        DemandPlannerAction::DemandSubscriberRemoved { info_hash },
    ).planner;
    lemma_without(registry, info_hash, subscriber_id);
    assert(registry.subscribers.contains_key(info_hash));
    assert(planner.entries.contains_key(info_hash));
    assert forall|key: InfoHash| #[trigger]
        told.entries.contains_key(key) <==> after.subscribers.contains_key(key) by {
        assert(planner.entries.contains_key(key) <==> registry.subscribers.contains_key(key));
    }
    assert forall|key: InfoHash| #[trigger]
        told.entries.contains_key(key) implies told.entries[key].subscriber_count == after.of(
        key,
    ).len() by {
        assert(planner.entries.contains_key(key));
    }
}

proof fn lemma_all_left(
    registry: RegistryView,
    planner: PlannerView,
    info_hash: InfoHash,
    subscriber_ids: Seq<u64>,
    now: Instant,
)
    requires
        registry_is_sound(registry),
        subscribers_agree(registry, planner),
    ensures
        ({
            let (after, effects) = registry.without_all(info_hash, subscriber_ids);
            subscribers_agree(after, planner_followups(planner, effects, now).0)
        }),
    decreases subscriber_ids.len(),
{
    if subscriber_ids.len() > 0 {
        let rest = subscriber_ids.drop_last();
        lemma_all_left(registry, planner, info_hash, rest, now);
        lemma_without_all(registry, info_hash, rest);
        let (before, effects) = registry.without_all(info_hash, rest);
        if before.has(info_hash, subscriber_ids.last()) {
            lemma_left(
                before,
                planner_followups(planner, effects, now).0,
                info_hash,
                subscriber_ids.last(),
            );
            let more = effects.push(SubscriberEffectView::SubscriberRemoved { info_hash });
            assert(more.drop_last() =~= effects);
        }
    }
}

/// Whatever happens to a demand, the planner knows of exactly the demands that have subscribers,
/// and of how many they have, as long as a demand has fewer subscribers than can be counted.
pub proof fn demand_commands_keep_agreement(state: StateView, action: DhtDemandCommandAction)
    requires
        registry_is_sound(state.registry),
        subscribers_agree(state.registry, state.planner),
        match action {
            DhtDemandCommandAction::Register { info_hash, .. } => state.registry.of(
                info_hash,
            ).len() < usize::MAX,
            _ => true,
        },
    ensures
        registry_is_sound(command_step(state, action).state.registry),
        subscribers_agree(
            command_step(state, action).state.registry,
            command_step(state, action).state.planner,
        ),
{
    let after = command_step(state, action).state;
    match action {
        DhtDemandCommandAction::Register { info_hash, demand, subscriber_tx, response_tx, now } => {
            let change = DemandSubscriberAction::Register { info_hash, demand, subscriber_tx };
            every_action_keeps_registry_sound(state.registry, change);
            let effects = subscriber_step(state.registry, change).effects;
            if effects.len() > 0 {
                assert(effects.drop_last() =~= seq![]);
                reveal_with_fuel(planner_followups, 2);
                assert forall|key: InfoHash| #[trigger]
                    after.planner.entries.contains_key(key)
                        <==> after.registry.subscribers.contains_key(key) by {
                    assert(state.planner.entries.contains_key(key)
                        <==> state.registry.subscribers.contains_key(key));
                }
                assert forall|key: InfoHash| #[trigger]
                    after.planner.entries.contains_key(
                        key,
                    ) implies after.planner.entries[key].subscriber_count == after.registry.of(
                    key,
                ).len() by {
                    assert(state.planner.entries.contains_key(key)
                        <==> state.registry.subscribers.contains_key(key));
                }
            }
        },
        DhtDemandCommandAction::Unregister { info_hash, subscriber_id, now } => {
            let change = DemandSubscriberAction::Unregister { info_hash, subscriber_id };
            every_action_keeps_registry_sound(state.registry, change);
            let effects = subscriber_step(state.registry, change).effects;
            if state.registry.has(info_hash, subscriber_id) {
                lemma_left(state.registry, state.planner, info_hash, subscriber_id);
                assert(effects.drop_last() =~= seq![]);
                reveal_with_fuel(planner_followups, 2);
            }
        },
        DhtDemandCommandAction::PruneDeadSubscribers { info_hash, subscriber_ids, now } => {
            lemma_all_left(state.registry, state.planner, info_hash, subscriber_ids@, now);
            lemma_without_all(state.registry, info_hash, subscriber_ids@);
        },
        _ => {
            assert(same_demands(state.planner, after.planner));
            assert forall|key: InfoHash| #[trigger]
                after.planner.entries.contains_key(key)
                    <==> after.registry.subscribers.contains_key(key) by {
                assert(state.planner.entries.contains_key(key)
                    <==> after.planner.entries.contains_key(key));
            }
            assert forall|key: InfoHash| #[trigger]
                after.planner.entries.contains_key(
                    key,
                ) implies after.planner.entries[key].subscriber_count == after.registry.of(
                key,
            ).len() by {
                assert(state.planner.entries.contains_key(key));
            }
        },
    }
}

/// In a new service the planner and the registry agree.
pub proof fn new_service_agrees(now: Instant)
    ensures
        registry_is_sound(RegistryView { subscribers: Map::empty(), next_subscriber_id: 1 }),
        subscribers_agree(
            RegistryView { subscribers: Map::empty(), next_subscriber_id: 1 },
            empty_planner(now),
        ),
{
}

proof fn lemma_starts_keep_demands(
    before: StartFold,
    launches: Seq<PlannedLaunch>,
    status: DemandPlannerIdleSpeedProbeStatus,
    now: Instant,
)
    ensures
        ({
            let after = start_all(before, launches, status, now);
            &&& forall|key: InfoHash| #[trigger]
                after.entries.contains_key(key) <==> before.entries.contains_key(key)
            &&& forall|key: InfoHash| #[trigger]
                after.entries.contains_key(key) ==> after.entries[key].subscriber_count
                    == before.entries[key].subscriber_count
        }),
    decreases launches.len(),
{
    if launches.len() > 0 {
        lemma_starts_keep_demands(before, launches.drop_last(), status, now);
        let middle = start_all(before, launches.drop_last(), status, now);
        let after = start_all(before, launches, status, now);
        assert forall|key: InfoHash| #[trigger]
            after.entries.contains_key(key) <==> before.entries.contains_key(key) by {
            assert(middle.entries.contains_key(key) <==> before.entries.contains_key(key));
        }
        assert forall|key: InfoHash| #[trigger]
            after.entries.contains_key(key) implies after.entries[key].subscriber_count
            == before.entries[key].subscriber_count by {
            assert(middle.entries.contains_key(key));
        }
    }
}

/// Only subscribers that come and go change which demands the planner knows of and how many
/// subscribers it counts for them: with every other action the agreement stays.
pub proof fn other_actions_keep_agreement(
    registry: RegistryView,
    planner: PlannerView,
    action: DemandPlannerAction,
)
    requires
        subscribers_agree(registry, planner),
        !(action is DemandRegistered),
        !(action is DemandSubscriberRemoved),
    ensures
        subscribers_agree(registry, planner_step(planner, action).planner),
{
    let after = planner_step(planner, action).planner;
    if let DemandPlannerAction::PlanDue { now, runtime_available } = action {
        let room = launch_budget(
            planner.active_keys.len() as usize,
            planner.drain_keys.len() as usize,
        );
        if runtime_available && room > 0 {
            let swept = PlannerView {
                parked_crawls: kept_crawls(planner.parked_crawls, now),
                ..planner
            };
            let status = planner.probe.observed_status(plannable(swept), now);
            let ready = PlannerView { budget: planner.budget.refilled(now), ..swept };
            let round = round_launches(ready, status, now, room);
            lemma_starts_keep_demands(
                StartFold {
                    entries: ready.entries,
                    history: ready.history,
                    pending_starts: ready.pending_starts,
                    budget: round.budget,
                    effects: seq![],
                },
                round.launches,
                status,
                now,
            );
        }
    }
    assert(same_demands(planner, after));
    assert forall|key: InfoHash| #[trigger]
        after.entries.contains_key(key) <==> registry.subscribers.contains_key(key) by {
        assert(planner.entries.contains_key(key) <==> after.entries.contains_key(key));
    }
    assert forall|key: InfoHash| #[trigger]
        after.entries.contains_key(key) implies after.entries[key].subscriber_count == registry.of(
        key,
    ).len() by {
        assert(planner.entries.contains_key(key));
    }
}

/// Where the planner and the subscribers agree, the planner knows of no demand without a subscriber.
pub proof fn unwanted_demands_are_unknown(
    registry: RegistryView,
    planner: PlannerView,
    info_hash: InfoHash,
)
    requires
        registry_is_sound(registry),
        subscribers_agree(registry, planner),
        registry.of(info_hash).len() == 0,
    ensures
        !registry.subscribers.contains_key(info_hash),
        planner.snapshot(info_hash).is_none(),
{
    if registry.subscribers.contains_key(info_hash) {
        assert(registry.subscribers[info_hash].len() > 0);
    }
    assert(planner.entries.contains_key(info_hash) <==> registry.subscribers.contains_key(
        info_hash,
    ));
}

} // verus!
