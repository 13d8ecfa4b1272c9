use vstd::prelude::*;

use crate::clock::Instant;
use crate::demand::DhtDemandState;
use crate::ids::InfoHash;
use crate::planner::actions::{DemandPlannerAction, PlannerEffectView};
use crate::planner::invariants::{is_busy, is_consistent, is_marked, lemma_keys_remove};
use crate::planner::model::PlannerView;
use crate::planner::step::planner_step;
use crate::state::demand_command::{
    command_step, planner_followups, CommandEffectView, CommandStep, DhtDemandCommandAction,
    StateView,
};
use crate::subscribers::{
    is_other, subscriber_step, DemandSubscriber, DemandSubscriberAction, RegistryView,
    SubscriberEffectView,
};

verus! {

/// Whether an action takes one subscriber of a demand out and no other: the subscriber leaves, or is
/// found dead.
pub open spec fn takes_out(
    action: DhtDemandCommandAction,
    info_hash: InfoHash,
    subscriber_id: u64,
) -> bool {
    match action {
        DhtDemandCommandAction::Unregister { info_hash: hash, subscriber_id: id, .. } => hash
            == info_hash && id == subscriber_id,
        DhtDemandCommandAction::PruneDeadSubscribers { info_hash: hash, subscriber_ids, .. } => hash
            == info_hash && subscriber_ids@ == seq![subscriber_id],
        _ => false,
    }
}

/// What taking the only subscriber of a demand out comes to, in the registry and in the effects.
proof fn lemma_only_one_out(registry: RegistryView, info_hash: InfoHash, subscriber_id: u64)
    requires
        registry.of(info_hash).len() == 1,
        registry.of(info_hash)[0].subscriber_id == subscriber_id,
    ensures
        registry.has(info_hash, subscriber_id),
        registry.without(info_hash, subscriber_id) == (RegistryView {
            subscribers: registry.subscribers.remove(info_hash),
            ..registry
        }),
        registry.without_all(info_hash, seq![subscriber_id]) == (
            registry.without(info_hash, subscriber_id),
            seq![SubscriberEffectView::SubscriberRemoved { info_hash }],
        ),
{
    reveal(Seq::filter);
    let list = registry.of(info_hash);
    let nobody = Seq::<DemandSubscriber>::empty();
    assert(list.drop_last() =~= nobody);
    assert(nobody.filter(is_other(subscriber_id)) =~= nobody);
    assert(list.filter(is_other(subscriber_id)) =~= nobody);
    let ids = seq![subscriber_id];
    assert(ids.drop_last() =~= seq![]);
    reveal_with_fuel(RegistryView::without_all, 2);
    assert(Seq::<SubscriberEffectView>::empty().push(
        SubscriberEffectView::SubscriberRemoved { info_hash },
    ) =~= seq![SubscriberEffectView::SubscriberRemoved { info_hash }]);
}

proof fn lemma_one_followup(planner: PlannerView, info_hash: InfoHash, now: Instant)
    ensures
        ({
            let step = planner_step(
                planner,
                DemandPlannerAction::DemandSubscriberRemoved { info_hash },
            );
            planner_followups(
                planner,
                seq![SubscriberEffectView::SubscriberRemoved { info_hash }],
                now,
            ) == (step.planner, step.effects)
        }),
{
    let told = seq![SubscriberEffectView::SubscriberRemoved { info_hash }];
    assert(told.drop_last() =~= seq![]);
    reveal_with_fuel(planner_followups, 2);
    let step = planner_step(planner, DemandPlannerAction::DemandSubscriberRemoved { info_hash });
    assert(Seq::<PlannerEffectView>::empty() + step.effects =~= step.effects);
}

/// What follows once the last subscriber of a demand is gone: neither the registry nor the planner
/// knows of the demand any more, what ran for it is ended, and no lookups are started on that
/// account.
pub open spec fn demand_gone(state: StateView, info_hash: InfoHash) -> CommandStep {
    let removed = planner_step(
        state.planner,
        DemandPlannerAction::DemandSubscriberRemoved { info_hash },
    );
    CommandStep {
        state: StateView {
            registry: RegistryView {
                subscribers: state.registry.subscribers.remove(info_hash),
                ..state.registry
            },
            planner: removed.planner,
            ..state
        },
        effects: seq![
            CommandEffectView::ApplySubscriberEffects(
                seq![SubscriberEffectView::SubscriberRemoved { info_hash }],
            ),
            CommandEffectView::ApplyPlannerEffects(removed.effects),
        ],
    }
}

proof fn lemma_unregistered(
    state: StateView,
    info_hash: InfoHash,
    subscriber_id: u64,
    now: Instant,
)
    requires
        state.registry.of(info_hash).len() == 1,
        state.registry.of(info_hash)[0].subscriber_id == subscriber_id,
    ensures
        command_step(
            state,
            DhtDemandCommandAction::Unregister { info_hash, subscriber_id, now },
        ) == demand_gone(state, info_hash),
{
    lemma_only_one_out(state.registry, info_hash, subscriber_id);
    lemma_one_followup(state.planner, info_hash, now);
}

proof fn lemma_pruned(
    state: StateView,
    info_hash: InfoHash,
    subscriber_ids: Vec<u64>,
    subscriber_id: u64,
    now: Instant,
)
    requires
        state.registry.of(info_hash).len() == 1,
        state.registry.of(info_hash)[0].subscriber_id == subscriber_id,
        subscriber_ids@ == seq![subscriber_id],
    ensures
        command_step(
            state,
            DhtDemandCommandAction::PruneDeadSubscribers { info_hash, subscriber_ids, now },
        ) == demand_gone(state, info_hash),
{
    lemma_only_one_out(state.registry, info_hash, subscriber_id);
    lemma_one_followup(state.planner, info_hash, now);
}

/// Whether the planner counts no more than one subscriber for a demand.
pub open spec fn counts_at_most_one(planner: PlannerView, info_hash: InfoHash) -> bool {
    planner.entries.contains_key(info_hash) ==> planner.entries[info_hash].subscriber_count <= 1
}

proof fn lemma_gone(state: StateView, info_hash: InfoHash)
    requires
        counts_at_most_one(state.planner, info_hash),
    ensures
        ({
            let step = demand_gone(state, info_hash);
            &&& step.state.registry.of(info_hash).len() == 0
            &&& step.state.planner.snapshot(info_hash).is_none()
            &&& step.state.planner.entries == state.planner.entries.remove(info_hash)
            &&& !step.effects.contains(CommandEffectView::StartDueDemands)
        }),
{
    if !state.planner.entries.contains_key(info_hash) {
        assert(state.planner.entries.remove(info_hash) =~= state.planner.entries);
    }
    let effects = demand_gone(state, info_hash).effects;
    if effects.contains(CommandEffectView::StartDueDemands) {
        let i = effects.index_of(CommandEffectView::StartDueDemands);
        assert(effects[i] is StartDueDemands);
    }
}

/// The last subscriber takes the demand along, whether it leaves or is found dead, where the planner
/// counts no other: afterwards neither the registry nor the planner knows of the demand, the other
/// demands are as they were, and no lookups are started on that account.
pub proof fn last_subscriber_takes_demand_along(
    state: StateView,
    action: DhtDemandCommandAction,
    info_hash: InfoHash,
    subscriber_id: u64,
)
    requires
        state.registry.of(info_hash).len() == 1,
        state.registry.of(info_hash)[0].subscriber_id == subscriber_id,
        counts_at_most_one(state.planner, info_hash),
        takes_out(action, info_hash, subscriber_id),
    ensures
        command_step(state, action) == demand_gone(state, info_hash),
        command_step(state, action).state.registry.of(info_hash).len() == 0,
        command_step(state, action).state.planner.snapshot(info_hash).is_none(),
        command_step(state, action).state.planner.entries == state.planner.entries.remove(
            info_hash,
        ),
        !command_step(state, action).effects.contains(CommandEffectView::StartDueDemands),
{
    match action {
        DhtDemandCommandAction::Unregister { now, .. } => {
            lemma_unregistered(state, info_hash, subscriber_id, now);
        },
        DhtDemandCommandAction::PruneDeadSubscribers { subscriber_ids, now, .. } => {
            lemma_pruned(state, info_hash, subscriber_ids, subscriber_id, now);
        },
        _ => {},
    }
    lemma_gone(state, info_hash);
}

/// The planner's part of a registration on a demand that it does not know of.
proof fn lemma_joined(state: StateView, action: DhtDemandCommandAction)
    requires
        state.registry.next_subscriber_id < u64::MAX,
        match action {
            DhtDemandCommandAction::Register { info_hash, .. } => state.registry.of(
                info_hash,
            ).len() == 0,
            _ => false,
        },
    ensures
        match action {
            DhtDemandCommandAction::Register {
                info_hash,
                demand,
                subscriber_tx,
                response_tx,
                now,
            } => {
                let step = command_step(state, action);
                let subscriber = DemandSubscriber {
                    subscriber_id: state.registry.next_subscriber_id,
                    subscriber_tx,
                };
                &&& step.state.registry.subscribers == state.registry.subscribers.insert(
                    info_hash,
                    seq![subscriber],
                )
                &&& step.state == (StateView {
                    registry: step.state.registry,
                    planner: planner_step(
                        state.planner,
                        DemandPlannerAction::DemandRegistered { info_hash, demand, now },
                    ).planner,
                    ..state
                })
                &&& step.effects[0] == (CommandEffectView::SendRegisterResponse {
                    response_tx,
                    subscriber_id: Some(subscriber.subscriber_id),
                })
            },
            _ => true,
        },
{
    if let DhtDemandCommandAction::Register { info_hash, demand, subscriber_tx, .. } = action {
        let change = DemandSubscriberAction::Register { info_hash, demand, subscriber_tx };
        let effects = subscriber_step(state.registry, change).effects;
        assert(effects.drop_last() =~= seq![]);
        reveal_with_fuel(planner_followups, 2);
        let subscriber = DemandSubscriber {
            subscriber_id: state.registry.next_subscriber_id,
            subscriber_tx,
        };
        assert(state.registry.of(info_hash).push(subscriber) =~= seq![subscriber]);
    }
}

/// A demand that a planner does not know of leaves no trace when it is registered and removed again.
proof fn lemma_planner_round_trip(
    planner: PlannerView,
    info_hash: InfoHash,
    demand: DhtDemandState,
    now: Instant,
)
    requires
        is_consistent(planner),
        !planner.entries.contains_key(info_hash),
    ensures
        ({
            let joined = planner_step(
                planner,
                DemandPlannerAction::DemandRegistered { info_hash, demand, now },
            ).planner;
            planner_step(
                joined,
                DemandPlannerAction::DemandSubscriberRemoved { info_hash },
            ).planner == planner
        }),
{
    let joined = planner_step(
        planner,
        DemandPlannerAction::DemandRegistered { info_hash, demand, now },
    ).planner;
    let left = planner_step(
        joined,
        DemandPlannerAction::DemandSubscriberRemoved { info_hash },
    ).planner;
    assert(!is_busy(planner, info_hash)) by {
        if is_busy(planner, info_hash) {
            assert(is_marked(planner, info_hash));
        }
    }
    lemma_keys_remove(planner.entry_keys, planner.entries.dom(), info_hash);
    lemma_keys_remove(planner.active_keys, planner.active.dom(), info_hash);
    lemma_keys_remove(planner.drain_keys, planner.drains.dom(), info_hash);
    let keys = planner.entry_keys;
    let more = keys.push(info_hash);
    assert(joined.entry_keys == more);
    assert(more[keys.len() as int] == info_hash);
    assert(more.index_of(info_hash) == keys.len()) by {
        let i = more.index_of(info_hash);
        assert(more.contains(info_hash));
        if i < keys.len() {
            assert(keys[i] == info_hash);
            assert(keys.contains(info_hash));
        }
    }
    assert(more.remove(keys.len() as int) =~= keys);
    assert(left.entries =~= planner.entries);
    assert(left.active =~= planner.active);
    assert(left.pending_starts =~= planner.pending_starts);
    assert(left.pending_parks =~= planner.pending_parks);
    assert(left.drains =~= planner.drains);
    assert(left =~= planner);
}

/// What is left of a registration once its subscriber is gone again.
proof fn lemma_nothing_left(
    state: StateView,
    joined: StateView,
    info_hash: InfoHash,
    demand: DhtDemandState,
    subscriber: DemandSubscriber,
    now: Instant,
)
    requires
        !state.planner.entries.contains_key(info_hash),
        joined.registry.subscribers == state.registry.subscribers.insert(
            info_hash,
            seq![subscriber],
        ),
        joined == (StateView {
            registry: joined.registry,
            planner: planner_step(
                state.planner,
                DemandPlannerAction::DemandRegistered { info_hash, demand, now },
            ).planner,
            ..state
        }),
    ensures
        joined.registry.of(info_hash) == seq![subscriber],
        joined.planner.snapshot(info_hash).is_some(),
        ({
            let left = demand_gone(joined, info_hash).state;
            &&& left.registry.subscribers == state.registry.subscribers.remove(info_hash)
            &&& left.planner.entries == state.planner.entries
            &&& is_consistent(state.planner) ==> left == (StateView {
                registry: left.registry,
                ..state
            })
        }),
{
    let left = demand_gone(joined, info_hash).state;
    assert(left.registry.subscribers =~= state.registry.subscribers.remove(info_hash));
    assert(left.planner.entries =~= state.planner.entries);
    if is_consistent(state.planner) {
        lemma_planner_round_trip(state.planner, info_hash, demand, now);
    }
}

/// Whether a subscriber that has left has undone its registration in the registry and in the planner
/// together: neither knows of the demand, as before, and no lookups are started on that account.
/// What stays is that its id is used up.
pub open spec fn joining_undone(before: StateView, left: CommandStep, info_hash: InfoHash) -> bool {
    &&& left.state.registry.of(info_hash).len() == 0
    &&& left.state.planner.snapshot(info_hash).is_none()
    &&& left.state.registry.subscribers == before.registry.subscribers.remove(info_hash)
    &&& !before.registry.subscribers.contains_key(info_hash) ==> left.state.registry.subscribers
        == before.registry.subscribers
    &&& left.state.planner.entries == before.planner.entries
    &&& is_consistent(before.planner) ==> left.state == (StateView {
        registry: left.state.registry,
        ..before
    })
    &&& left.effects.len() == 2
    &&& left.effects[0] == CommandEffectView::ApplySubscriberEffects(
        seq![SubscriberEffectView::SubscriberRemoved { info_hash }],
    )
    &&& left.effects[1] is ApplyPlannerEffects
    &&& !left.effects.contains(CommandEffectView::StartDueDemands)
}

proof fn lemma_undone(
    state: StateView,
    joined: StateView,
    info_hash: InfoHash,
    demand: DhtDemandState,
    subscriber: DemandSubscriber,
    now: Instant,
)
    requires
        !state.planner.entries.contains_key(info_hash),
        joined.registry.subscribers == state.registry.subscribers.insert(
            info_hash,
            seq![subscriber],
        ),
        joined == (StateView {
            registry: joined.registry,
            planner: planner_step(
                state.planner,
                DemandPlannerAction::DemandRegistered { info_hash, demand, now },
            ).planner,
            ..state
        }),
    ensures
        counts_at_most_one(joined.planner, info_hash),
        joined.registry.of(info_hash) == seq![subscriber],
        joined.planner.snapshot(info_hash).is_some(),
        joining_undone(state, demand_gone(joined, info_hash), info_hash),
{
    lemma_nothing_left(state, joined, info_hash, demand, subscriber, now);
    if !state.registry.subscribers.contains_key(info_hash) {
        assert(state.registry.subscribers.remove(info_hash) =~= state.registry.subscribers);
    }
    lemma_gone(joined, info_hash);
}

/// The only subscriber of a demand that neither the registry nor the planner knew of, when it leaves
/// or is found dead, undoes its registration in both together. What stays is that its id is used up.
#[verifier::rlimit(50)]
pub proof fn leaving_undoes_joining(
    state: StateView,
    join: DhtDemandCommandAction,
    leave: DhtDemandCommandAction,
    info_hash: InfoHash,
    subscriber_id: u64,
)
    requires
        state.registry.of(info_hash).len() == 0,
        state.planner.snapshot(info_hash).is_none(),
        is_answered(state, join, info_hash, subscriber_id),
        takes_out(leave, info_hash, subscriber_id),
    ensures
        command_step(state, join).state.registry.of(info_hash).len() == 1,
        command_step(state, join).state.planner.snapshot(info_hash).is_some(),
        joining_undone(
            state,
            command_step(command_step(state, join).state, leave),
            info_hash,
        ),
{
    if let DhtDemandCommandAction::Register { demand, subscriber_tx, now, .. } = join {
        lemma_answered(state, join, info_hash, subscriber_id);
        lemma_joined(state, join);
        let joined = command_step(state, join).state;
        let subscriber = DemandSubscriber { subscriber_id, subscriber_tx };
        lemma_undone(state, joined, info_hash, demand, subscriber, now);
        last_subscriber_takes_demand_along(joined, leave, info_hash, subscriber_id);
    }
}

/// Whether an action registers a subscriber for a demand, and is answered with an id.
pub open spec fn is_answered(
    state: StateView,
    join: DhtDemandCommandAction,
    info_hash: InfoHash,
    subscriber_id: u64,
) -> bool {
    match join {
        DhtDemandCommandAction::Register { info_hash: joined, response_tx, .. } => joined
            == info_hash && command_step(state, join).effects.contains(
            CommandEffectView::SendRegisterResponse {
                response_tx,
                subscriber_id: Some(subscriber_id),
            },
        ),
        _ => false,
    }
}

/// A registration is answered with the next id.
proof fn lemma_answered(
    state: StateView,
    action: DhtDemandCommandAction,
    info_hash: InfoHash,
    subscriber_id: u64,
)
    requires
        is_answered(state, action, info_hash, subscriber_id),
    ensures
        state.registry.next_subscriber_id < u64::MAX,
        subscriber_id == state.registry.next_subscriber_id,
{
    if let DhtDemandCommandAction::Register { response_tx, .. } = action {
        let effects = command_step(state, action).effects;
        let answer = CommandEffectView::SendRegisterResponse {
            response_tx,
            subscriber_id: Some(subscriber_id),
        };
        let i = effects.index_of(answer);
        assert(effects[i] == answer);
        assert(effects.len() == 4);
        assert(i == 0);
    }
}

} // verus!
