use vstd::prelude::*;

use crate::clock::Instant;
use crate::commands::DhtCommand;
use crate::config::DhtServiceConfig;
use crate::demand::{DhtDemandMetrics, DhtDemandState};
use crate::ids::{InfoHash, PeerAddr};
use crate::limits::DHT_UNIQUE_PEERS_FOUND_WINDOW;
use crate::peers::{RecentUniquePeers, RecentView};
use crate::planner::actions::{
    effects_view, effects_wf, DemandPlannerAction, DemandPlannerEffect, DemandPlannerReduction,
    PlannerEffectView,
};
use crate::planner::drain::{drain_peers_effects, drains_with_peers};
use crate::planner::metrics::DemandSliceMetrics;
use crate::planner::model::{empty_planner, DemandPlannerModel, PlannerView};
use crate::planner::reducer::step_of;
use crate::planner::step::planner_step;
use crate::slice::DemandSliceClass;
use crate::state::service::{service_step, DhtServiceAction, DhtServiceModel, DhtServiceReduction};
use crate::subscribers::{
    subscriber_effects_view, subscriber_step, ChannelKey, DemandSubscriberAction,
    DemandSubscriberEffect, DemandSubscriberRegistry, RegistryView, SubscriberEffectView,
};

verus! {

/// What happened to a demand.
#[derive(Debug)]
pub enum DhtDemandCommandAction {
    Register {
        info_hash: InfoHash,
        demand: DhtDemandState,
        subscriber_tx: ChannelKey,
        response_tx: ChannelKey,
        now: Instant,
    },
    Update { info_hash: InfoHash, demand: DhtDemandState, now: Instant },
    UpdateMetrics { info_hash: InfoHash, metrics: DhtDemandMetrics },
    Unregister { info_hash: InfoHash, subscriber_id: u64, now: Instant },
    PruneDeadSubscribers { info_hash: InfoHash, subscriber_ids: Vec<u64>, now: Instant },
    PeersReceived { info_hash: InfoHash, peers: Vec<PeerAddr>, now: Instant },
    LookupFinished {
        info_hash: InfoHash,
        slice_class: DemandSliceClass,
        total_peers: usize,
        unique_peers: usize,
        now: Instant,
    },
}

/// What is to be done after an action.
#[derive(Debug)]
pub enum DhtDemandCommandEffect {
    SendRegisterResponse { response_tx: ChannelKey, subscriber_id: Option<u64> },
    ApplySubscriberEffects(Vec<DemandSubscriberEffect>),
    ApplyPlannerEffects(Vec<DemandPlannerEffect>),
    StartDueDemands,
}

/// The answer to an action.
#[derive(Debug)]
pub struct DhtDemandCommandReduction {
    pub effects: Vec<DhtDemandCommandEffect>,
}

/// The mathematical content of an effect.
pub enum CommandEffectView {
    SendRegisterResponse { response_tx: ChannelKey, subscriber_id: Option<u64> },
    ApplySubscriberEffects(Seq<SubscriberEffectView>),
    ApplyPlannerEffects(Seq<PlannerEffectView>),
    StartDueDemands,
}

impl View for DhtDemandCommandEffect {
    type V = CommandEffectView;

    open spec fn view(&self) -> CommandEffectView {
        match *self {
            DhtDemandCommandEffect::SendRegisterResponse { response_tx, subscriber_id } =>
                CommandEffectView::SendRegisterResponse { response_tx, subscriber_id },
            DhtDemandCommandEffect::ApplySubscriberEffects(effects) =>
                CommandEffectView::ApplySubscriberEffects(subscriber_effects_view(effects@)),
            DhtDemandCommandEffect::ApplyPlannerEffects(effects) =>
                CommandEffectView::ApplyPlannerEffects(effects_view(effects@)),
            DhtDemandCommandEffect::StartDueDemands => CommandEffectView::StartDueDemands,
        }
    }
}

/// The content of a list of effects.
pub open spec fn command_effects_view(effects: Seq<DhtDemandCommandEffect>) -> Seq<
    CommandEffectView,
> {
    effects.map_values(|effect: DhtDemandCommandEffect| effect@)
}

impl DhtDemandCommandEffect {
    /// No peer is held twice.
    pub open spec fn wf(&self) -> bool {
        match *self {
            DhtDemandCommandEffect::ApplyPlannerEffects(effects) => effects_wf(effects@),
            _ => true,
        }
    }
}

/// No effect holds a peer twice.
pub open spec fn command_effects_wf(effects: Seq<DhtDemandCommandEffect>) -> bool {
    forall|i: int| 0 <= i < effects.len() ==> (#[trigger] effects[i]).wf()
}

/// The state of the service.
#[derive(Debug)]
pub struct DhtServiceState {
    pub service: DhtServiceModel,
    pub demand_planner: DemandPlannerModel,
    pub demand_subscribers: DemandSubscriberRegistry,
    pub slice_metrics: DemandSliceMetrics,
    pub recent_unique_peers: RecentUniquePeers,
}

/// The mathematical content of the service's state.
#[verifier::ext_equal]
pub struct StateView {
    pub service: DhtServiceModel,
    pub planner: PlannerView,
    pub registry: RegistryView,
    pub metrics: DemandSliceMetrics,
    pub recent: RecentView,
}

impl View for DhtServiceState {
    type V = StateView;

    open spec fn view(&self) -> StateView {
        StateView {
            service: self.service,
            planner: self.demand_planner@,
            registry: self.demand_subscribers@,
            metrics: self.slice_metrics,
            recent: self.recent_unique_peers@,
        }
    }
}

/// What an action leads to.
#[verifier::ext_equal]
pub struct CommandStep {
    pub state: StateView,
    pub effects: Seq<CommandEffectView>,
}

/// What the planner makes of changes among the subscribers: each registration and each removal is
/// told to it in turn.
pub open spec fn planner_followups(
    planner: PlannerView,
    effects: Seq<SubscriberEffectView>,
    now: Instant,
) -> (PlannerView, Seq<PlannerEffectView>)
    decreases effects.len(),
{
    if effects.len() == 0 {
        (planner, seq![])
    } else {
        let (before, earlier) = planner_followups(planner, effects.drop_last(), now);
        match effects.last() {
            SubscriberEffectView::Registered { info_hash, demand, .. } => {
                let step = planner_step(
                    before,
                    DemandPlannerAction::DemandRegistered { info_hash, demand, now },
                );
                (step.planner, earlier + step.effects)
            },
            SubscriberEffectView::SubscriberRemoved { info_hash } => {
                let step = planner_step(
                    before,
                    DemandPlannerAction::DemandSubscriberRemoved { info_hash },
                );
                (step.planner, earlier + step.effects)
            },
            SubscriberEffectView::DeliverPeers { .. } => (before, earlier),
        }
    }
}

/// A change among the subscribers, and what the planner makes of it.
pub open spec fn subscribers_changed(
    state: StateView,
    action: DemandSubscriberAction,
    now: Instant,
) -> (StateView, Option<u64>, Seq<CommandEffectView>) {
    let step = subscriber_step(state.registry, action);
    let (planner, effects) = planner_followups(state.planner, step.effects, now);
    (
        StateView { registry: step.registry, planner, ..state },
        step.subscriber_id,
        seq![
            CommandEffectView::ApplySubscriberEffects(step.effects),
            CommandEffectView::ApplyPlannerEffects(effects),
        ],
    )
}

/// What the planner makes of an action.
pub open spec fn planner_told(state: StateView, action: DemandPlannerAction) -> (
    StateView,
    CommandEffectView,
) {
    let step = planner_step(state.planner, action);
    (
        StateView { planner: step.planner, ..state },
        CommandEffectView::ApplyPlannerEffects(step.effects),
    )
}

/// What an action leads to.
pub open spec fn command_step(state: StateView, action: DhtDemandCommandAction) -> CommandStep {
    match action {
        DhtDemandCommandAction::Register { info_hash, demand, subscriber_tx, response_tx, now } => {
            let (after, subscriber_id, effects) = subscribers_changed(
                state,
                DemandSubscriberAction::Register { info_hash, demand, subscriber_tx },
                now,
            );
            CommandStep {
                state: after,
                effects: seq![
                    CommandEffectView::SendRegisterResponse { response_tx, subscriber_id },
                ] + effects + seq![CommandEffectView::StartDueDemands],
            }
        },
        DhtDemandCommandAction::Update { info_hash, demand, now } => {
            let (after, effect) = planner_told(
                state,
                DemandPlannerAction::DemandUpdated { info_hash, demand, now },
            );
            CommandStep {
                state: after,
                effects: seq![effect, CommandEffectView::StartDueDemands],
            }
        },
        DhtDemandCommandAction::UpdateMetrics { info_hash, metrics } => {
            let (after, effect) = planner_told(
                state,
                DemandPlannerAction::DemandMetricsUpdated { info_hash, metrics },
            );
            CommandStep { state: after, effects: seq![effect] }
        },
        DhtDemandCommandAction::Unregister { info_hash, subscriber_id, now } => {
            let (after, _, effects) = subscribers_changed(
                state,
                DemandSubscriberAction::Unregister { info_hash, subscriber_id },
                now,
            );
            CommandStep { state: after, effects }
        },
        DhtDemandCommandAction::PruneDeadSubscribers { info_hash, subscriber_ids, now } => {
            let (after, _, effects) = subscribers_changed(
                state,
                DemandSubscriberAction::PruneDeadSubscribers { info_hash, subscriber_ids },
                now,
            );
            CommandStep { state: after, effects }
        },
        DhtDemandCommandAction::PeersReceived { info_hash, peers, now } => {
            let step = peers_step(state.planner, info_hash, peers@);
            CommandStep {
                state: StateView {
                    recent: state.recent.with_batch(now, peers@),
                    planner: step.0,
                    ..state
                },
                effects: seq![
                    CommandEffectView::ApplyPlannerEffects(step.1),
                    CommandEffectView::ApplySubscriberEffects(
                        subscriber_step(
                            state.registry,
                            DemandSubscriberAction::DeliverPeers { info_hash, peers },
                        ).effects,
                    ),
                ],
            }
        },
        DhtDemandCommandAction::LookupFinished {
            info_hash,
            slice_class,
            total_peers,
            unique_peers,
            now,
        } => {
            let (after, effect) = planner_told(
                state,
                DemandPlannerAction::LookupFinished {
                    info_hash,
                    slice_class,
                    total_peers,
                    unique_peers,
                    now,
                },
            );
            CommandStep {
                state: after,
                effects: seq![effect, CommandEffectView::StartDueDemands],
            }
        },
    }
}

/// What the planner makes of peers.
pub open spec fn peers_step(planner: PlannerView, info_hash: InfoHash, peers: Seq<PeerAddr>) -> (
    PlannerView,
    Seq<PlannerEffectView>,
) {
    (
        PlannerView {
            drains: drains_with_peers(planner.drains, info_hash, peers),
            ..planner
        },
        drain_peers_effects(planner.drains, info_hash, peers),
    )
}

/// A demand's part of a command, where it has one.
pub open spec fn demand_action(command: DhtCommand, now: Instant) -> Option<
    DhtDemandCommandAction,
> {
    match command {
        DhtCommand::RegisterDemand { info_hash, demand, subscriber_tx, response_tx } => Some(
            DhtDemandCommandAction::Register { info_hash, demand, subscriber_tx, response_tx, now },
        ),
        DhtCommand::UpdateDemand { info_hash, demand } => Some(
            DhtDemandCommandAction::Update { info_hash, demand, now },
        ),
        DhtCommand::UpdateDemandMetrics { info_hash, metrics } => Some(
            DhtDemandCommandAction::UpdateMetrics { info_hash, metrics },
        ),
        DhtCommand::UnregisterDemand { info_hash, subscriber_id } => Some(
            DhtDemandCommandAction::Unregister { info_hash, subscriber_id, now },
        ),
        DhtCommand::DemandPeers { info_hash, peers } => Some(
            DhtDemandCommandAction::PeersReceived { info_hash, peers, now },
        ),
        DhtCommand::DemandLookupFinished { info_hash, slice_class, total_peers, unique_peers } =>
            Some(
            DhtDemandCommandAction::LookupFinished {
                info_hash,
                slice_class,
                total_peers,
                unique_peers,
                now,
            },
        ),
        _ => None,
    }
}

impl DhtServiceState {
    /// No key occurs twice in a table, and no peer in a set.
    pub open spec fn wf(&self) -> bool {
        &&& self.demand_planner.wf()
        &&& self.demand_subscribers.wf()
        &&& self.recent_unique_peers.wf()
    }

    /// A service without demands.
    pub fn new(
        config: DhtServiceConfig,
        generation: u64,
        warning: Option<String>,
        now: Instant,
    ) -> (state: Self)
        ensures
            state@ == (StateView {
                service: DhtServiceModel { config, generation, warning },
                planner: empty_planner(now),
                registry: RegistryView { subscribers: Map::empty(), next_subscriber_id: 1 },
                metrics: DemandSliceMetrics::zero(),
                recent: RecentView {
                    window: DHT_UNIQUE_PEERS_FOUND_WINDOW,
                    found_at: Map::empty(),
                },
            }),
            state.wf(),
    {
        DhtServiceState {
            service: DhtServiceModel::new(config, generation, warning),
            demand_planner: DemandPlannerModel::new(now),
            demand_subscribers: DemandSubscriberRegistry::new(),
            slice_metrics: DemandSliceMetrics::default(),
            recent_unique_peers: RecentUniquePeers::new(DHT_UNIQUE_PEERS_FOUND_WINDOW),
        }
    }

    pub fn has_draining_demands(&self) -> (draining: bool)
        ensures
            draining == (self@.planner.drain_keys.len() > 0),
    {
        self.demand_planner.has_draining_demands()
    }

    pub fn record_recent_peers(&mut self, peers: &[PeerAddr], now: Instant)
        requires
            old(self).wf(),
        ensures
            final(self)@ == (StateView {
                recent: old(self)@.recent.with_batch(now, peers@),
                ..old(self)@
            }),
            final(self).wf(),
    {
        self.recent_unique_peers.record_batch(now, peers);
    }

    pub fn expire_recent_peers(&mut self, now: Instant)
        requires
            old(self).wf(),
        ensures
            final(self)@ == (StateView { recent: old(self)@.recent.expired(now), ..old(self)@ }),
            final(self).wf(),
    {
        let _ = self.recent_unique_peers.unique_count(now);
    }

    pub fn update_service_action(&mut self, action: DhtServiceAction) -> (reduction:
        DhtServiceReduction)
        requires
            old(self).wf(),
        ensures
            ({
                let (service, effects) = service_step(old(self).service, action);
                &&& final(self)@ == (StateView { service, ..old(self)@ })
                &&& reduction.effects@ == effects
            }),
            final(self).wf(),
    {
        self.service.update(action)
    }

    pub fn update_demand_planner_action(&mut self, action: DemandPlannerAction<'_>) -> (reduction:
        DemandPlannerReduction)
        requires
            old(self).wf(),
            action.wf(),
        ensures
            step_of(final(self).demand_planner, reduction) == planner_step(
                old(self)@.planner,
                action,
            ),
            effects_wf(reduction.effects@),
            final(self)@ == (StateView {
                planner: final(self).demand_planner@,
                ..old(self)@
            }),
            final(self).wf(),
    {
        self.demand_planner.update(action)
    }

    /// Takes in a command that concerns a demand. The others are not for it.
    pub fn update_demand_command_from_command(
        &mut self,
        command: DhtCommand,
        now: Instant,
    ) -> (reduction: Option<DhtDemandCommandReduction>)
        requires
            old(self).wf(),
        ensures
            reduction.is_some() <==> demand_action(command, now).is_some(),
            match reduction {
                Some(reduction) => {
                    &&& (CommandStep {
                        state: final(self)@,
                        effects: command_effects_view(reduction.effects@),
                    }) == command_step(old(self)@, demand_action(command, now).unwrap())
                    &&& command_effects_wf(reduction.effects@)
                },
                None => final(self)@ == old(self)@,
            },
            final(self).wf(),
    {
        let action = match command {
            DhtCommand::RegisterDemand { info_hash, demand, subscriber_tx, response_tx } =>
                DhtDemandCommandAction::Register {
                info_hash,
                demand,
                subscriber_tx,
                response_tx,
                now,
            },
            DhtCommand::UpdateDemand { info_hash, demand } => DhtDemandCommandAction::Update {
                info_hash,
                demand,
                now,
            },
            DhtCommand::UpdateDemandMetrics { info_hash, metrics } =>
                DhtDemandCommandAction::UpdateMetrics { info_hash, metrics },
            DhtCommand::UnregisterDemand { info_hash, subscriber_id } =>
                DhtDemandCommandAction::Unregister { info_hash, subscriber_id, now },
            DhtCommand::DemandPeers { info_hash, peers } => DhtDemandCommandAction::PeersReceived {
                info_hash,
                peers,
                now,
            },
            DhtCommand::DemandLookupFinished {
                info_hash,
                slice_class,
                total_peers,
                unique_peers,
            } => DhtDemandCommandAction::LookupFinished {
                info_hash,
                slice_class,
                total_peers,
                unique_peers,
                now,
            },
            DhtCommand::Reconfigure(_)
            | DhtCommand::StartGetPeers { .. }
            | DhtCommand::StartGetPeersFamily(_)
            | DhtCommand::CancelLookups { .. }
            | DhtCommand::ParkDemandLookups { .. }
            | DhtCommand::FinalizeDrainedDemandLookups { .. }
            | DhtCommand::AnnouncePeer { .. } => return None,
        };
        Some(self.update_demand_command(action))
    }

    /// Takes in what happened to a demand and says what is to be done.
    pub fn update_demand_command(&mut self, action: DhtDemandCommandAction) -> (reduction:
        DhtDemandCommandReduction)
        requires
            old(self).wf(),
        ensures
            (CommandStep {
                state: final(self)@,
                effects: command_effects_view(reduction.effects@),
            }) == command_step(old(self)@, action),
            command_effects_wf(reduction.effects@),
            final(self).wf(),
    {
        let ghost before = self@;
        let ghost expected = command_step(self@, action);
        let mut effects: Vec<DhtDemandCommandEffect> = Vec::new();
        match action {
            DhtDemandCommandAction::Register {
                info_hash,
                demand,
                subscriber_tx,
                response_tx,
                now,
            } => {
                let reduction = self.demand_subscribers.update(
                    DemandSubscriberAction::Register { info_hash, demand, subscriber_tx },
                );
                let planner_effects = self.reduce_subscriber_planner_followups(
                    &reduction.effects,
                    now,
                );
                effects.push(
                    DhtDemandCommandEffect::SendRegisterResponse {
                        response_tx,
                        subscriber_id: reduction.subscriber_id,
                    },
                );
                effects.push(DhtDemandCommandEffect::ApplySubscriberEffects(reduction.effects));
                effects.push(DhtDemandCommandEffect::ApplyPlannerEffects(planner_effects));
                effects.push(DhtDemandCommandEffect::StartDueDemands);
            },
            DhtDemandCommandAction::Update { info_hash, demand, now } => {
                let reduction = self.demand_planner.update(
                    DemandPlannerAction::DemandUpdated { info_hash, demand, now },
                );
                effects.push(DhtDemandCommandEffect::ApplyPlannerEffects(reduction.effects));
                effects.push(DhtDemandCommandEffect::StartDueDemands);
            },
            DhtDemandCommandAction::UpdateMetrics { info_hash, metrics } => {
                let reduction = self.demand_planner.update(
                    DemandPlannerAction::DemandMetricsUpdated { info_hash, metrics },
                );
                effects.push(DhtDemandCommandEffect::ApplyPlannerEffects(reduction.effects));
            },
            DhtDemandCommandAction::Unregister { info_hash, subscriber_id, now } => {
                let reduction = self.demand_subscribers.update(
                    DemandSubscriberAction::Unregister { info_hash, subscriber_id },
                );
                let planner_effects = self.reduce_subscriber_planner_followups(
                    &reduction.effects,
                    now,
                );
                effects.push(DhtDemandCommandEffect::ApplySubscriberEffects(reduction.effects));
                effects.push(DhtDemandCommandEffect::ApplyPlannerEffects(planner_effects));
            },
            DhtDemandCommandAction::PruneDeadSubscribers { info_hash, subscriber_ids, now } => {
                let reduction = self.demand_subscribers.update(
                    DemandSubscriberAction::PruneDeadSubscribers { info_hash, subscriber_ids },
                );
                let planner_effects = self.reduce_subscriber_planner_followups(
                    &reduction.effects,
                    now,
                );
                effects.push(DhtDemandCommandEffect::ApplySubscriberEffects(reduction.effects));
                effects.push(DhtDemandCommandEffect::ApplyPlannerEffects(planner_effects));
            },
            DhtDemandCommandAction::PeersReceived { info_hash, peers, now } => {
                self.record_recent_peers(peers.as_slice(), now);
                let planner_reduction = self.demand_planner.update(
                    DemandPlannerAction::PeersReceived { info_hash, peers: peers.as_slice() },
                );
                let subscriber_reduction = self.demand_subscribers.update(
                    DemandSubscriberAction::DeliverPeers { info_hash, peers },
                );
                effects.push(
                    DhtDemandCommandEffect::ApplyPlannerEffects(planner_reduction.effects),
                );
                effects.push(
                    DhtDemandCommandEffect::ApplySubscriberEffects(subscriber_reduction.effects),
                );
            },
            DhtDemandCommandAction::LookupFinished {
                info_hash,
                slice_class,
                total_peers,
                unique_peers,
                now,
            } => {
                let reduction = self.demand_planner.update(
                    DemandPlannerAction::LookupFinished {
                        info_hash,
                        slice_class,
                        total_peers,
                        unique_peers,
                        now,
                    },
                );
                effects.push(DhtDemandCommandEffect::ApplyPlannerEffects(reduction.effects));
                effects.push(DhtDemandCommandEffect::StartDueDemands);
            },
        }
        proof {
            assert(self@ =~= expected.state);
            assert(command_effects_view(effects@) =~= expected.effects);
        }
        DhtDemandCommandReduction { effects }
    }

    /// Tells the planner of changes among the subscribers.
    pub fn reduce_subscriber_planner_followups(
        &mut self,
        effects: &Vec<DemandSubscriberEffect>,
        now: Instant,
    ) -> (planner_effects: Vec<DemandPlannerEffect>)
        requires
            old(self).wf(),
        ensures
            ({
                let (planner, expected) = planner_followups(
                    old(self)@.planner,
                    subscriber_effects_view(effects@),
                    now,
                );
                &&& final(self)@ == (StateView { planner, ..old(self)@ })
                &&& effects_view(planner_effects@) == expected
            }),
            effects_wf(planner_effects@),
            final(self).wf(),
    {
        let mut planner_effects: Vec<DemandPlannerEffect> = Vec::new();
        let ghost views = subscriber_effects_view(effects@);
        let mut i: usize = 0;
        proof {
            assert(effects_view(planner_effects@) =~= seq![]);
            assert(views.take(0) =~= Seq::<SubscriberEffectView>::empty());
        }
        while i < effects.len()
            invariant
                0 <= i <= effects@.len(),
                self.wf(),
                views == subscriber_effects_view(effects@),
                effects_wf(planner_effects@),
                ({
                    let (planner, expected) = planner_followups(
                        old(self)@.planner,
                        views.take(i as int),
                        now,
                    );
                    &&& self@ == (StateView { planner, ..old(self)@ })
                    &&& effects_view(planner_effects@) == expected
                }),
            decreases effects@.len() - i,
        {
            proof {
                assert(views.take(i + 1).drop_last() =~= views.take(i as int));
                assert(views.take(i + 1).last() == effects@[i as int]@);
            }
            let ghost before = planner_effects@;
            let mut reduction = match &effects[i] {
                DemandSubscriberEffect::Registered { info_hash, demand, .. } =>
                    self.demand_planner.update(
                    DemandPlannerAction::DemandRegistered {
                        info_hash: *info_hash,
                        demand: *demand,
                        now,
                    },
                ),
                DemandSubscriberEffect::SubscriberRemoved { info_hash } =>
                    self.demand_planner.update(
                    DemandPlannerAction::DemandSubscriberRemoved { info_hash: *info_hash },
                ),
                DemandSubscriberEffect::DeliverPeers { .. } => {
                    i = i + 1;
                    continue ;
                },
            };
            let ghost more = reduction.effects@;
            planner_effects.append(&mut reduction.effects);
            proof {
                assert(effects_view(planner_effects@) =~= effects_view(before) + effects_view(
                    more,
                ));
                assert(effects_wf(planner_effects@)) by {
                    assert forall|j: int| 0 <= j < planner_effects@.len() implies (
                    #[trigger] planner_effects@[j]).wf() by {
                        if j < before.len() {
                            assert(planner_effects@[j] == before[j]);
                        } else {
                            assert(planner_effects@[j] == more[j - before.len()]);
                        }
                    }
                }
            }
            i = i + 1;
        }
        assert(views.take(i as int) =~= views);
        planner_effects
    }
}

impl DhtDemandCommandAction {
    /// The name of the action.
    pub open spec fn name(&self) -> Seq<char> {
        match *self {
            DhtDemandCommandAction::Register { .. } => "register"@,
            DhtDemandCommandAction::Update { .. } => "update"@,
            DhtDemandCommandAction::UpdateMetrics { .. } => "update_metrics"@,
            DhtDemandCommandAction::Unregister { .. } => "unregister"@,
            DhtDemandCommandAction::PruneDeadSubscribers { .. } => "prune_dead_subscribers"@,
            DhtDemandCommandAction::PeersReceived { .. } => "peers_received"@,
            DhtDemandCommandAction::LookupFinished { .. } => "lookup_finished"@,
        }
    }

    pub fn kind(&self) -> (kind: &'static str)
        ensures
            kind@ == self.name(),
    {
        match self {
            DhtDemandCommandAction::Register { .. } => "register",
            DhtDemandCommandAction::Update { .. } => "update",
            DhtDemandCommandAction::UpdateMetrics { .. } => "update_metrics",
            DhtDemandCommandAction::Unregister { .. } => "unregister",
            DhtDemandCommandAction::PruneDeadSubscribers { .. } => "prune_dead_subscribers",
            DhtDemandCommandAction::PeersReceived { .. } => "peers_received",
            DhtDemandCommandAction::LookupFinished { .. } => "lookup_finished",
        }
    }
}

impl DhtDemandCommandEffect {
    /// The name of the effect.
    pub open spec fn name(&self) -> Seq<char> {
        match *self {
            DhtDemandCommandEffect::SendRegisterResponse { .. } => "send_register_response"@,
            DhtDemandCommandEffect::ApplySubscriberEffects(_) => "apply_subscriber_effects"@,
            DhtDemandCommandEffect::ApplyPlannerEffects(_) => "apply_planner_effects"@,
            DhtDemandCommandEffect::StartDueDemands => "start_due_demands"@,
        }
    }

    pub fn kind(&self) -> (kind: &'static str)
        ensures
            kind@ == self.name(),
    {
        match self {
            DhtDemandCommandEffect::SendRegisterResponse { .. } => "send_register_response",
            DhtDemandCommandEffect::ApplySubscriberEffects(_) => "apply_subscriber_effects",
            DhtDemandCommandEffect::ApplyPlannerEffects(_) => "apply_planner_effects",
            DhtDemandCommandEffect::StartDueDemands => "start_due_demands",
        }
    }
}

} // verus!
