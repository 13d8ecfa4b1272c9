use vstd::prelude::*;
use vstd::string::*;

use crate::clock::Instant;
use crate::commands::{
    runtime_action, runtime_effects, DhtCommand, DhtRuntimeCommandEffect, DhtRuntimeCommandModel,
    DhtRuntimeLookupFamilyRequest,
};
use crate::config::DhtServiceConfig;
use crate::effects::{
    applied_all, apply_demand_planner_effects, drain_finished, finish_drained_demand_lookup,
    Applied,
};
use crate::ids::{InfoHash, LookupId};
use crate::lifecycle::{
    lifecycle_effects, DhtLifecycleAction, DhtLifecycleEffect, DhtLifecycleModel,
};
use crate::limits::DHT_STARTUP_BOOTSTRAP_DELAY;
use crate::planner::actions::{
    effects_view, effects_wf, DemandPlannerAction, DemandPlannerEffect, DemandStartLookupEffect,
    PlannerEffectView,
};
use crate::planner::drain::{ledger_view, runtime_ready_for};
use crate::planner::lookup_ops::lookup_extended;
use crate::planner::lookups::DrainView;
use crate::planner::metrics::DemandSliceMetrics;
use crate::planner::step::{drain_tick_step, planner_step, reset_step};
use crate::runtime::ledger::{LedgerView, LookupLedger};
use crate::runtime::start::note_attached;
use crate::slice::DemandSliceClass;
use crate::state::demand_command::{
    command_effects_view, command_effects_wf, command_step, demand_action, CommandEffectView,
    CommandStep, DhtDemandCommandAction, DhtDemandCommandEffect, DhtServiceState, StateView,
};
use crate::state::service::{service_step, DhtServiceAction, DhtServiceEffect};
use crate::subscribers::{ChannelKey, DemandSubscriber};
use crate::text::joined;

verus! {

/// What the service's loop waits for.
#[derive(Debug)]
pub enum LoopEvent {
    Shutdown,
    Command(DhtCommand),
    DrainTick,
    DemandTick,
    MaintenanceTick,
    HealthTick,
    RuntimeStep(Result<bool, String>),
    CommandClosed,
}

/// The event that a received command is; without one all senders are gone.
pub fn command_event(maybe_command: Option<DhtCommand>) -> (event: LoopEvent)
    ensures
        event == match maybe_command {
            Some(command) => LoopEvent::Command(command),
            None => LoopEvent::CommandClosed,
        },
{
    match maybe_command {
        Some(command) => LoopEvent::Command(command),
        None => LoopEvent::CommandClosed,
    }
}

/// What the service's loop does after an event.
#[derive(Debug)]
pub enum LoopWork {
    Lifecycle(Vec<DhtLifecycleEffect>),
    Service(Vec<DhtServiceEffect>),
    Demand(Vec<DhtDemandCommandEffect>),
    Runtime(Vec<DhtRuntimeCommandEffect>),
    StartDueDemands,
    Nothing,
}

/// The answer to an event: what is to be done, and whether the loop ends after that.
#[derive(Debug)]
pub struct LoopReduction {
    pub work: LoopWork,
    pub stop: bool,
}

impl LoopEvent {
    /// No peer is held twice.
    pub open spec fn wf(&self) -> bool {
        match *self {
            LoopEvent::Command(DhtCommand::ParkDemandLookups { unique_peers, .. }) =>
                unique_peers.wf(),
            _ => true,
        }
    }
}

/// Whether the work is on the runtime, with given effects.
pub open spec fn is_lifecycle(work: LoopWork, effects: Seq<DhtLifecycleEffect>) -> bool {
    match work {
        LoopWork::Lifecycle(list) => list@ == effects,
        _ => false,
    }
}

/// Whether the only effect is a warning that is to be told to everybody.
pub open spec fn is_warning(work: LoopWork, text: Seq<char>) -> bool {
    match work {
        LoopWork::Lifecycle(list) => list@.len() == 1 && match list@[0] {
            DhtLifecycleEffect::RecordRuntimeWarning { warning, publish_status } => warning@ == text
                && publish_status,
            _ => false,
        },
        _ => false,
    }
}

/// What the runtime says of each drain.
pub open spec fn readiness(
    drains: Map<InfoHash, DrainView>,
    ledger: Option<LedgerView>,
) -> Map<InfoHash, bool> {
    Map::new(
        |key: InfoHash| drains.contains_key(key),
        |key: InfoHash| runtime_ready_for(ledger, drains[key]),
    )
}

/// The planner, the runtime's ledger and the counts of a service's state.
pub open spec fn applied_of(state: StateView, ledger: Option<LedgerView>) -> Applied {
    Applied { planner: state.planner, ledger, metrics: state.metrics, finalized: false }
}

/// A service's state with another planner and other counts.
pub open spec fn state_with(state: StateView, applied: Applied) -> StateView {
    StateView { planner: applied.planner, metrics: applied.metrics, ..state }
}

/// Bringing every drain to its end that is ready.
pub open spec fn drains_polled(
    state: StateView,
    ledger: Option<LedgerView>,
    now: Instant,
) -> Applied {
    applied_all(
        applied_of(state, ledger),
        drain_tick_step(state.planner, now, readiness(state.planner.drains, ledger)).effects,
        now,
    )
}

/// What an event leads to: which part of the service it concerns, how that changes, and what is to
/// be done.
pub open spec fn event_handled(
    state: StateView,
    ledger: Option<LedgerView>,
    event: LoopEvent,
    active_user_lookup_count: Option<usize>,
    now: Instant,
    after: StateView,
    after_ledger: Option<LedgerView>,
    reduction: LoopReduction,
) -> bool {
    &&& reduction.stop == (event is Shutdown || event is CommandClosed)
    &&& !(event is DrainTick) ==> after_ledger == ledger
    &&& match event {
        LoopEvent::Shutdown => after == state && is_lifecycle(
            reduction.work,
            lifecycle_effects(DhtLifecycleAction::Shutdown),
        ),
        LoopEvent::CommandClosed => after == state && is_lifecycle(
            reduction.work,
            lifecycle_effects(DhtLifecycleAction::Shutdown),
        ),
        LoopEvent::Command(command) => match command {
            DhtCommand::Reconfigure(config) => after == state && match reduction.work {
                LoopWork::Service(effects) => effects@ == seq![
                    DhtServiceEffect::BuildRuntime { config },
                ],
                _ => false,
            },
            _ => match demand_action(command, now) {
                Some(action) => match reduction.work {
                    LoopWork::Demand(effects) => {
                        &&& (CommandStep { state: after, effects: command_effects_view(effects@) })
                            == command_step(state, action)
                        &&& command_effects_wf(effects@)
                    },
                    _ => false,
                },
                None => after == state && match reduction.work {
                    LoopWork::Runtime(effects) => runtime_action(command).is_some() && effects@
                        == runtime_effects(runtime_action(command).unwrap()),
                    _ => false,
                },
            },
        },
        LoopEvent::DrainTick => {
            let polled = drains_polled(state, ledger, now);
            &&& after == state_with(state, polled)
            &&& after_ledger == polled.ledger
            &&& reduction.work == if polled.finalized {
                LoopWork::StartDueDemands
            } else {
                LoopWork::Nothing
            }
        },
        LoopEvent::DemandTick => after == state && reduction.work == LoopWork::StartDueDemands,
        LoopEvent::MaintenanceTick => after == state && is_lifecycle(
            reduction.work,
            lifecycle_effects(DhtLifecycleAction::MaintenanceTick { active_user_lookup_count }),
        ),
        LoopEvent::HealthTick => after == state && is_lifecycle(
            reduction.work,
            lifecycle_effects(DhtLifecycleAction::HealthTick),
        ),
        LoopEvent::RuntimeStep(Ok(_)) => after == state && reduction.work == LoopWork::Nothing,
        LoopEvent::RuntimeStep(Err(error)) => after == state && is_warning(
            reduction.work,
            "DHT runtime step failed: "@ + error@,
        ),
    }
}

/// What is left to do of a service's effect.
#[derive(Debug)]
pub enum ServiceWork {
    BuildRuntime { config: DhtServiceConfig },
    PublishStatus,
    StartDueDemands,
    Done,
}

/// What is left to do of a lifecycle effect.
#[derive(Debug)]
pub enum LifecycleWork {
    RunStartupBootstrap,
    RunMaintenance,
    PublishStatus,
    SaveRuntimeState,
    Service(Vec<DhtServiceEffect>),
    Done,
}

/// What is left to do of a runtime command's effect.
#[derive(Debug)]
pub enum RuntimeWork {
    StartGetPeers { info_hash: InfoHash, response_tx: ChannelKey },
    AttachLookupFamily(DhtRuntimeLookupFamilyRequest),
    AnnouncePeer { info_hash: InfoHash, port: Option<u16>, response_tx: ChannelKey },
    StartDueDemands,
    Done,
}

/// What carrying out a service's effect comes to: what becomes of the service's state, and what is
/// left to do.
pub open spec fn service_effect_applied(
    before: StateView,
    after: StateView,
    effect: DhtServiceEffect,
    now: Instant,
    work: ServiceWork,
) -> bool {
    match effect {
        DhtServiceEffect::BuildRuntime { config } => after == before && work == (
        ServiceWork::BuildRuntime { config }),
        DhtServiceEffect::ResetDemandPlanner => {
            &&& after == (StateView {
                planner: reset_step(before.planner, now).planner,
                ..before
            })
            &&& work == ServiceWork::Done
        },
        DhtServiceEffect::PublishStatus => after == before && work
            == ServiceWork::PublishStatus,
        DhtServiceEffect::StartDueDemands => after == before && work
            == ServiceWork::StartDueDemands,
    }
}

/// What carrying out a lifecycle effect comes to: what becomes of the service's state and of the time
/// of the next bootstrap, and what is left to do.
pub open spec fn lifecycle_effect_applied(
    before: StateView,
    after: StateView,
    before_due: Option<Instant>,
    after_due: Option<Instant>,
    runtime_available: bool,
    effect: DhtLifecycleEffect,
    now: Instant,
    work: LifecycleWork,
) -> bool {
    let same = after == before;
    let same_due = after_due == before_due;
    match effect {
        DhtLifecycleEffect::RunStartupBootstrap => same && same_due && work
            == if runtime_available {
            LifecycleWork::RunStartupBootstrap
        } else {
            LifecycleWork::Done
        },
        DhtLifecycleEffect::ClearStartupBootstrapDue => same && work
            == LifecycleWork::Done && after_due
            == if runtime_available {
            None
        } else {
            before_due
        },
        DhtLifecycleEffect::SetStartupBootstrapDue(due) => same && work
            == LifecycleWork::Done && after_due
            == if runtime_available {
            Some(due)
        } else {
            before_due
        },
        DhtLifecycleEffect::RunMaintenance => same && same_due && work
            == if runtime_available {
            LifecycleWork::RunMaintenance
        } else {
            LifecycleWork::Done
        },
        DhtLifecycleEffect::RecordRuntimeWarning { warning, publish_status } => {
            let (service, effects) = service_step(
                before.service,
                DhtServiceAction::RuntimeWarning { warning },
            );
            &&& after == (StateView { service, ..before })
            &&& same_due
            &&& match work {
                LifecycleWork::Service(list) => publish_status && list@ == effects,
                LifecycleWork::Done => !publish_status,
                _ => false,
            }
        },
        DhtLifecycleEffect::PublishStatus => same && same_due && work
            == LifecycleWork::PublishStatus,
        DhtLifecycleEffect::ExpireRecentUniquePeers => {
            &&& after == (StateView {
                recent: before.recent.expired(now),
                ..before
            })
            &&& same_due
            &&& work == LifecycleWork::Done
        },
        DhtLifecycleEffect::SaveRuntimeState => same && same_due && work
            == if runtime_available {
            LifecycleWork::SaveRuntimeState
        } else {
            LifecycleWork::Done
        },
    }
}

/// What carrying out a runtime command's effect comes to: what becomes of the service's state and of
/// the runtime's ledger, and what is left to do.
pub open spec fn runtime_effect_applied(
    before: StateView,
    after: StateView,
    ledger: Option<LedgerView>,
    after_ledger: Option<LedgerView>,
    effect: DhtRuntimeCommandEffect,
    now: Instant,
    work: RuntimeWork,
) -> bool {
    let same = after == before && after_ledger == ledger;
    match effect {
        DhtRuntimeCommandEffect::StartGetPeers { info_hash, response_tx } => same
            && work == (RuntimeWork::StartGetPeers { info_hash, response_tx }),
        DhtRuntimeCommandEffect::AttachLookupFamily(request) => same && work
            == RuntimeWork::AttachLookupFamily(request),
        DhtRuntimeCommandEffect::CancelLookups { lookup_ids } => {
            &&& after == before
            &&& after_ledger == match ledger {
                Some(ledger) => Some(ledger.cancelled_all(lookup_ids@)),
                None => None,
            }
            &&& work == RuntimeWork::Done
        },
        DhtRuntimeCommandEffect::ParkDemandLookups {
            info_hash,
            slice_class,
            stop_reason,
            total_peers,
            unique_peers,
            lookup_ids,
        } => {
            let step = planner_step(
                before.planner,
                DemandPlannerAction::LookupParkRequested {
                    info_hash,
                    slice_class,
                    stop_reason,
                    total_peers,
                    unique_peers,
                    lookup_ids,
                },
            );
            let applied = applied_all(
                applied_of(
                    StateView { planner: step.planner, ..before },
                    ledger,
                ),
                step.effects,
                now,
            );
            &&& after == state_with(before, applied)
            &&& after_ledger == applied.ledger
            &&& work == RuntimeWork::Done
        },
        DhtRuntimeCommandEffect::FinalizeDrainedDemandLookups { info_hash } => {
            let finished = drain_finished(
                applied_of(before, ledger),
                info_hash,
                false,
                now,
            );
            &&& after == state_with(before, finished)
            &&& after_ledger == finished.ledger
            &&& work == RuntimeWork::Done
        },
        DhtRuntimeCommandEffect::AnnouncePeer { info_hash, port, response_tx } => same
            && work == (RuntimeWork::AnnouncePeer { info_hash, port, response_tx }),
        DhtRuntimeCommandEffect::StartDueDemands => same && work
            == RuntimeWork::StartDueDemands,
    }
}

/// The effects that start lookups.
pub open spec fn starts_of(effects: Seq<PlannerEffectView>) -> Seq<DemandStartLookupEffect>
    decreases effects.len(),
{
    if effects.len() == 0 {
        seq![]
    } else {
        let rest = starts_of(effects.drop_last());
        match effects.last() {
            PlannerEffectView::StartLookup(start) => rest.push(start),
            _ => rest,
        }
    }
}

/// The counts once each start has been counted by why it was picked.
pub open spec fn selections_counted(
    metrics: DemandSliceMetrics,
    starts: Seq<DemandStartLookupEffect>,
) -> DemandSliceMetrics
    decreases starts.len(),
{
    if starts.len() == 0 {
        metrics
    } else {
        let before = selections_counted(metrics, starts.drop_last());
        let start = starts.last();
        before.with(
            start.plan.class,
            before.of(start.plan.class).with_selection(start.selection_reason),
        )
    }
}

/// Whether the effect at a place was not delivered.
pub open spec fn undelivered(
    deliveries: Seq<DemandSubscriber>,
    delivered: Seq<bool>,
) -> Seq<u64>
    decreases deliveries.len(),
{
    if deliveries.len() == 0 {
        seq![]
    } else {
        let n = deliveries.len() - 1;
        let rest = undelivered(deliveries.drop_last(), delivered);
        if n < delivered.len() && !delivered[n] {
            rest.push(deliveries[n].subscriber_id)
        } else {
            rest
        }
    }
}

/// The subscribers that a batch of peers could not be delivered to. One that no answer is known of
/// counts as reached.
pub fn dead_subscribers(deliveries: &Vec<DemandSubscriber>, delivered: &Vec<bool>) -> (dead: Vec<
    u64,
>)
    ensures
        dead@ == undelivered(deliveries@, delivered@),
{
    let mut dead: Vec<u64> = Vec::new();
    let mut i: usize = 0;
    assert(dead@ =~= seq![]);
    while i < deliveries.len()
        invariant
            0 <= i <= deliveries@.len(),
            dead@ == undelivered(deliveries@.take(i as int), delivered@),
        decreases deliveries@.len() - i,
    {
        assert(deliveries@.take(i + 1).drop_last() =~= deliveries@.take(i as int));
        if i < delivered.len() && !delivered[i] {
            dead.push(deliveries[i].subscriber_id);
        }
        i = i + 1;
    }
    assert(deliveries@.take(i as int) =~= deliveries@);
    dead
}

/// What follows once the runtime has tried to bootstrap: that is done, or it is tried again after
/// a while, with a warning.
pub fn startup_bootstrap_finished(result: Result<(), String>, now: Instant) -> (effects: Vec<
    DhtLifecycleEffect,
>)
    ensures
        match result {
            Ok(_) => effects@ == lifecycle_effects(DhtLifecycleAction::StartupBootstrapSucceeded),
            Err(error) => {
                &&& effects@.len() == 2
                &&& match effects@[0] {
                    DhtLifecycleEffect::RecordRuntimeWarning { warning, publish_status } => warning@
                        == "DHT startup bootstrap failed: "@ + error@ && !publish_status,
                    _ => false,
                }
                &&& effects@[1] == DhtLifecycleEffect::SetStartupBootstrapDue(
                    now.saturating_add(DHT_STARTUP_BOOTSTRAP_DELAY),
                )
            },
        },
{
    match result {
        Ok(_) => DhtLifecycleModel::update(DhtLifecycleAction::StartupBootstrapSucceeded).effects,
        Err(error) => DhtLifecycleModel::update(
            DhtLifecycleAction::StartupBootstrapFailed {
                warning: joined("DHT startup bootstrap failed: ", error.as_str()),
                retry_at: now.saturating_add(DHT_STARTUP_BOOTSTRAP_DELAY),
            },
        ).effects,
    }
}

/// What follows once the runtime's maintenance has failed: a warning that is told to everybody.
pub fn maintenance_failed(error: &str) -> (effects: Vec<DhtLifecycleEffect>)
    ensures
        is_warning(LoopWork::Lifecycle(effects), "DHT maintenance failed: "@ + error@),
{
    DhtLifecycleModel::update(
        DhtLifecycleAction::MaintenanceFailed {
            warning: joined("DHT maintenance failed: ", error),
        },
    ).effects
}

/// The warning of a service whose first runtime could not be built.
pub fn startup_failure_warning(error: &str) -> (warning: String)
    ensures
        warning@ == "DHT startup failed: "@ + error@,
{
    joined("DHT startup failed: ", error)
}

/// When a runtime that was just built bootstraps.
pub open spec fn first_due(skip_startup_bootstrap: bool, now: Instant) -> Option<Instant> {
    if skip_startup_bootstrap {
        None
    } else {
        Some(now.saturating_add(DHT_STARTUP_BOOTSTRAP_DELAY))
    }
}

/// When a runtime that was just built bootstraps, unless that is skipped.
pub fn first_bootstrap_due(skip_startup_bootstrap: bool, now: Instant) -> (due: Option<Instant>)
    ensures
        due == first_due(skip_startup_bootstrap, now),
        due == if skip_startup_bootstrap {
            None
        } else {
            Some(now.saturating_add(DHT_STARTUP_BOOTSTRAP_DELAY))
        },
{
    if skip_startup_bootstrap {
        None
    } else {
        Some(now.saturating_add(DHT_STARTUP_BOOTSTRAP_DELAY))
    }
}

/// What is due before the next event: the runtime bootstraps once its time has come and nobody
/// waits for a lookup.
pub fn startup_bootstrap_check(
    startup_bootstrap_due: Option<Instant>,
    active_user_lookup_count: usize,
    now: Instant,
) -> (effects: Vec<DhtLifecycleEffect>)
    ensures
        effects@ == match startup_bootstrap_due {
            Some(due) => lifecycle_effects(
                DhtLifecycleAction::StartupBootstrapDue { now, due, active_user_lookup_count },
            ),
            None => Seq::<DhtLifecycleEffect>::empty(),
        },
{
    match startup_bootstrap_due {
        Some(due) => DhtLifecycleModel::update(
            DhtLifecycleAction::StartupBootstrapDue { now, due, active_user_lookup_count },
        ).effects,
        None => Vec::new(),
    }
}

impl DhtServiceState {
    /// Carries planner effects out.
    pub fn apply_planner_effects(
        &mut self,
        active_runtime: &mut Option<LookupLedger>,
        effects: Vec<DemandPlannerEffect>,
        now: Instant,
    ) -> (finalized_any: bool)
        requires
            old(self).wf(),
            effects_wf(effects@),
        ensures
            ({
                let applied = applied_all(
                    applied_of(old(self)@, ledger_view(*old(active_runtime))),
                    effects_view(effects@),
                    now,
                );
                &&& final(self)@ == state_with(old(self)@, applied)
                &&& ledger_view(*final(active_runtime)) == applied.ledger
                &&& finalized_any == applied.finalized
            }),
            final(self).wf(),
    {
        apply_demand_planner_effects(
            active_runtime,
            &mut self.demand_planner,
            &mut self.slice_metrics,
            effects,
            now,
        )
    }

    /// Brings every drain to its end that is ready. Says whether there was one.
    pub fn poll_drains(&mut self, active_runtime: &mut Option<LookupLedger>, now: Instant) -> (
        finalized_any: bool)
        requires
            old(self).wf(),
        ensures
            ({
                let polled = drains_polled(
                    old(self)@,
                    ledger_view(*old(active_runtime)),
                    now,
                );
                &&& final(self)@ == state_with(old(self)@, polled)
                &&& ledger_view(*final(active_runtime)) == polled.ledger
                &&& finalized_any == polled.finalized
            }),
            final(self).wf(),
    {
        let runtime_ready = self.demand_planner.drain_runtime_readiness(active_runtime);
        proof {
            assert(runtime_ready@ =~= readiness(
                self@.planner.drains,
                ledger_view(*active_runtime),
            ));
        }
        let reduction = self.demand_planner.update(
            DemandPlannerAction::DrainTick { now, runtime_ready },
        );
        self.apply_planner_effects(active_runtime, reduction.effects, now)
    }

    /// Takes in an event of the service's loop and says what is to be done.
    pub fn handle_event(
        &mut self,
        active_runtime: &mut Option<LookupLedger>,
        event: LoopEvent,
        active_user_lookup_count: Option<usize>,
        now: Instant,
    ) -> (reduction: LoopReduction)
        requires
            old(self).wf(),
            event.wf(),
        ensures
            event_handled(
                old(self)@,
                ledger_view(*old(active_runtime)),
                event,
                active_user_lookup_count,
                now,
                final(self)@,
                ledger_view(*final(active_runtime)),
                reduction,
            ),
            final(self).wf(),
    {
        match event {
            LoopEvent::Shutdown | LoopEvent::CommandClosed => LoopReduction {
                work: LoopWork::Lifecycle(
                    DhtLifecycleModel::update(DhtLifecycleAction::Shutdown).effects,
                ),
                stop: true,
            },
            LoopEvent::Command(command) => {
                match command {
                    DhtCommand::Reconfigure(config) => {
                        let reduction = self.service.update(
                            DhtServiceAction::ReconfigureRequested { config },
                        );
                        LoopReduction { work: LoopWork::Service(reduction.effects), stop: false }
                    },
                    DhtCommand::RegisterDemand { .. }
                    | DhtCommand::UpdateDemand { .. }
                    | DhtCommand::UpdateDemandMetrics { .. }
                    | DhtCommand::UnregisterDemand { .. }
                    | DhtCommand::DemandPeers { .. }
                    | DhtCommand::DemandLookupFinished { .. } => {
                        match self.update_demand_command_from_command(command, now) {
                            Some(reduction) => LoopReduction {
                                work: LoopWork::Demand(reduction.effects),
                                stop: false,
                            },
                            None => LoopReduction { work: LoopWork::Nothing, stop: false },
                        }
                    },
                    DhtCommand::StartGetPeers { .. }
                    | DhtCommand::StartGetPeersFamily(_)
                    | DhtCommand::CancelLookups { .. }
                    | DhtCommand::ParkDemandLookups { .. }
                    | DhtCommand::FinalizeDrainedDemandLookups { .. }
                    | DhtCommand::AnnouncePeer { .. } => {
                        match DhtRuntimeCommandModel::update_command(command) {
                            Some(reduction) => LoopReduction {
                                work: LoopWork::Runtime(reduction.effects),
                                stop: false,
                            },
                            None => LoopReduction { work: LoopWork::Nothing, stop: false },
                        }
                    },
                }
            },
            LoopEvent::DrainTick => {
                let work = if self.poll_drains(active_runtime, now) {
                    LoopWork::StartDueDemands
                } else {
                    LoopWork::Nothing
                };
                LoopReduction { work, stop: false }
            },
            LoopEvent::DemandTick => LoopReduction { work: LoopWork::StartDueDemands, stop: false },
            LoopEvent::MaintenanceTick => LoopReduction {
                work: LoopWork::Lifecycle(
                    DhtLifecycleModel::update(
                        DhtLifecycleAction::MaintenanceTick { active_user_lookup_count },
                    ).effects,
                ),
                stop: false,
            },
            LoopEvent::HealthTick => LoopReduction {
                work: LoopWork::Lifecycle(
                    DhtLifecycleModel::update(DhtLifecycleAction::HealthTick).effects,
                ),
                stop: false,
            },
            LoopEvent::RuntimeStep(Ok(_)) => LoopReduction { work: LoopWork::Nothing, stop: false },
            LoopEvent::RuntimeStep(Err(error)) => LoopReduction {
                work: LoopWork::Lifecycle(
                    DhtLifecycleModel::update(
                        DhtLifecycleAction::RuntimeStepFailed {
                            warning: joined("DHT runtime step failed: ", error.as_str()),
                        },
                    ).effects,
                ),
                stop: false,
            },
        }
    }

    /// Carries out what it can of a service's effect, and says what is left to do.
    pub fn apply_dht_service_effect(&mut self, effect: DhtServiceEffect, now: Instant) -> (work:
        ServiceWork)
        requires
            old(self).wf(),
        ensures
            service_effect_applied(old(self)@, final(self)@, effect, now, work),
            final(self).wf(),
    {
        match effect {
            DhtServiceEffect::BuildRuntime { config } => ServiceWork::BuildRuntime { config },
            DhtServiceEffect::ResetDemandPlanner => {
                let _ = self.demand_planner.update(DemandPlannerAction::RuntimeReset { now });
                ServiceWork::Done
            },
            DhtServiceEffect::PublishStatus => ServiceWork::PublishStatus,
            DhtServiceEffect::StartDueDemands => ServiceWork::StartDueDemands,
        }
    }

    /// Carries out what it can of a lifecycle effect, and says what is left to do. Without a
    /// runtime nothing is left of what concerns only the runtime.
    pub fn apply_dht_lifecycle_effect(
        &mut self,
        runtime_available: bool,
        startup_bootstrap_due: &mut Option<Instant>,
        effect: DhtLifecycleEffect,
        now: Instant,
    ) -> (work: LifecycleWork)
        requires
            old(self).wf(),
        ensures
            lifecycle_effect_applied(
                old(self)@,
                final(self)@,
                *old(startup_bootstrap_due),
                *final(startup_bootstrap_due),
                runtime_available,
                effect,
                now,
                work,
            ),
            final(self).wf(),
    {
        match effect {
            DhtLifecycleEffect::RunStartupBootstrap => {
                if runtime_available {
                    LifecycleWork::RunStartupBootstrap
                } else {
                    LifecycleWork::Done
                }
            },
            DhtLifecycleEffect::ClearStartupBootstrapDue => {
                if runtime_available {
                    *startup_bootstrap_due = None;
                }
                LifecycleWork::Done
            },
            DhtLifecycleEffect::SetStartupBootstrapDue(due) => {
                if runtime_available {
                    *startup_bootstrap_due = Some(due);
                }
                LifecycleWork::Done
            },
            DhtLifecycleEffect::RunMaintenance => {
                if runtime_available {
                    LifecycleWork::RunMaintenance
                } else {
                    LifecycleWork::Done
                }
            },
            DhtLifecycleEffect::RecordRuntimeWarning { warning, publish_status } => {
                let reduction = self.service.update(DhtServiceAction::RuntimeWarning { warning });
                if publish_status {
                    LifecycleWork::Service(reduction.effects)
                } else {
                    LifecycleWork::Done
                }
            },
            DhtLifecycleEffect::PublishStatus => LifecycleWork::PublishStatus,
            DhtLifecycleEffect::ExpireRecentUniquePeers => {
                self.expire_recent_peers(now);
                LifecycleWork::Done
            },
            DhtLifecycleEffect::SaveRuntimeState => {
                if runtime_available {
                    LifecycleWork::SaveRuntimeState
                } else {
                    LifecycleWork::Done
                }
            },
        }
    }

    /// Carries out what it can of a runtime command's effect, and says what is left to do.
    pub fn apply_dht_runtime_command_effect(
        &mut self,
        active_runtime: &mut Option<LookupLedger>,
        effect: DhtRuntimeCommandEffect,
        now: Instant,
    ) -> (work: RuntimeWork)
        requires
            old(self).wf(),
            match effect {
                DhtRuntimeCommandEffect::ParkDemandLookups { unique_peers, .. } =>
                    unique_peers.wf(),
                _ => true,
            },
        ensures
            runtime_effect_applied(
                old(self)@,
                final(self)@,
                ledger_view(*old(active_runtime)),
                ledger_view(*final(active_runtime)),
                effect,
                now,
                work,
            ),
            final(self).wf(),
    {
        match effect {
            DhtRuntimeCommandEffect::StartGetPeers { info_hash, response_tx } =>
                RuntimeWork::StartGetPeers { info_hash, response_tx },
            DhtRuntimeCommandEffect::AttachLookupFamily(request) =>
                RuntimeWork::AttachLookupFamily(request),
            DhtRuntimeCommandEffect::CancelLookups { lookup_ids } => {
                if let Some(runtime) = active_runtime {
                    runtime.cancel_lookups(lookup_ids.as_slice());
                }
                RuntimeWork::Done
            },
            DhtRuntimeCommandEffect::ParkDemandLookups {
                info_hash,
                slice_class,
                stop_reason,
                total_peers,
                unique_peers,
                lookup_ids,
            } => {
                let requested = self.demand_planner.update(
                    DemandPlannerAction::LookupParkRequested {
                        info_hash,
                        slice_class,
                        stop_reason,
                        total_peers,
                        unique_peers,
                        lookup_ids,
                    },
                );
                let _ = self.apply_planner_effects(active_runtime, requested.effects, now);
                RuntimeWork::Done
            },
            DhtRuntimeCommandEffect::FinalizeDrainedDemandLookups { info_hash } => {
                let _ = finish_drained_demand_lookup(
                    active_runtime,
                    &mut self.demand_planner,
                    &mut self.slice_metrics,
                    info_hash,
                    false,
                    now,
                );
                RuntimeWork::Done
            },
            DhtRuntimeCommandEffect::AnnouncePeer { info_hash, port, response_tx } =>
                RuntimeWork::AnnouncePeer { info_hash, port, response_tx },
            DhtRuntimeCommandEffect::StartDueDemands => RuntimeWork::StartDueDemands,
        }
    }

    /// Plans a round of lookups, counts why each was picked, and hands out those that are to be
    /// started.
    pub fn start_due_demands(&mut self, runtime_available: bool, now: Instant) -> (starts: Vec<
        DemandStartLookupEffect,
    >)
        requires
            old(self).wf(),
        ensures
            ({
                let step = planner_step(
                    old(self)@.planner,
                    DemandPlannerAction::PlanDue { now, runtime_available },
                );
                &&& starts@ == starts_of(step.effects)
                &&& final(self)@ == (StateView {
                    planner: step.planner,
                    metrics: selections_counted(old(self)@.metrics, starts@),
                    ..old(self)@
                })
            }),
            final(self).wf(),
    {
        let reduction = self.demand_planner.update(
            DemandPlannerAction::PlanDue { now, runtime_available },
        );
        let effects = reduction.effects;
        let ghost views = effects_view(effects@);
        let ghost planned = self@;
        let mut starts: Vec<DemandStartLookupEffect> = Vec::new();
        let mut i: usize = 0;
        assert(starts@ =~= seq![]);
        while i < effects.len()
            invariant
                0 <= i <= effects@.len(),
                views == effects_view(effects@),
                self.wf(),
                starts@ == starts_of(views.take(i as int)),
                self@ == (StateView {
                    metrics: selections_counted(planned.metrics, starts@),
                    ..planned
                }),
            decreases effects@.len() - i,
        {
            assert(views.take(i + 1).drop_last() =~= views.take(i as int));
            assert(views.take(i + 1).last() == effects@[i as int]@);
            if let DemandPlannerEffect::StartLookup(start) = &effects[i] {
                self.slice_metrics.record_selection(start.plan.class, start.selection_reason);
                let ghost before = starts@;
                starts.push(*start);
                assert(starts@.drop_last() =~= before);
            }
            i = i + 1;
        }
        assert(views.take(i as int) =~= views);
        starts
    }

    /// Tells the planner whether a lookup has started, and with which parts.
    pub fn lookup_start_resolved(
        &mut self,
        info_hash: InfoHash,
        slice_class: DemandSliceClass,
        started: Option<Vec<LookupId>>,
        now: Instant,
    )
        requires
            old(self).wf(),
        ensures
            final(self)@ == (StateView {
                planner: planner_step(
                    old(self)@.planner,
                    match started {
                        Some(lookup_ids) => DemandPlannerAction::LookupStarted {
                            info_hash,
                            slice_class,
                            lookup_ids,
                        },
                        None => DemandPlannerAction::LookupStartFailed {
                            info_hash,
                            slice_class,
                            now,
                        },
                    },
                ).planner,
                ..old(self)@
            }),
            final(self).wf(),
    {
        let action = match started {
            Some(lookup_ids) => DemandPlannerAction::LookupStarted {
                info_hash,
                slice_class,
                lookup_ids,
            },
            None => DemandPlannerAction::LookupStartFailed { info_hash, slice_class, now },
        };
        let _ = self.demand_planner.update(action);
    }

    /// Notes that a lookup runs over one more address family, unless the runtime has ended it
    /// already. What is counted is a part of a demand's lookup, and the planner learns of it too.
    pub fn lookup_family_attached(
        &mut self,
        info_hash: InfoHash,
        slice_class: DemandSliceClass,
        record_metrics: bool,
        resumed: bool,
        lookup_ids: &mut Vec<LookupId>,
        lookup_id: LookupId,
        lookup_active: bool,
    ) -> (attached: Option<LookupId>)
        requires
            old(self).wf(),
        ensures
            attached == if lookup_active {
                Some(lookup_id)
            } else {
                None
            },
            final(lookup_ids)@ == if lookup_active {
                old(lookup_ids)@.push(lookup_id)
            } else {
                old(lookup_ids)@
            },
            if lookup_active && record_metrics {
                &&& lookup_extended(
                    old(self)@.planner,
                    final(self)@.planner,
                    info_hash,
                    lookup_id,
                )
                &&& final(self)@ == (StateView {
                    planner: final(self)@.planner,
                    metrics: old(self)@.metrics.with(
                        slice_class,
                        old(self)@.metrics.of(slice_class).with_start(resumed),
                    ),
                    ..old(self)@
                })
            } else {
                final(self)@ == old(self)@
            },
            final(self).wf(),
    {
        let attached = note_attached(
            lookup_ids,
            &mut self.slice_metrics,
            record_metrics,
            slice_class,
            resumed,
            lookup_id,
            lookup_active,
        );
        if lookup_active && record_metrics {
            self.demand_planner.extend_active_lookup(info_hash, lookup_id);
        }
        attached
    }

    /// Takes subscribers out that peers could not be delivered to, with all that follows.
    pub fn apply_delivery_failures(
        &mut self,
        active_runtime: &mut Option<LookupLedger>,
        info_hash: InfoHash,
        dead_subscribers: Vec<u64>,
        now: Instant,
    )
        requires
            old(self).wf(),
        ensures
            ({
                let step = command_step(
                    old(self)@,
                    DhtDemandCommandAction::PruneDeadSubscribers {
                        info_hash,
                        subscriber_ids: dead_subscribers,
                        now,
                    },
                );
                let ledger = ledger_view(*old(active_runtime));
                if dead_subscribers@.len() == 0 {
                    final(self)@ == old(self)@ && ledger_view(*final(active_runtime)) == ledger
                } else {
                    let applied = applied_all(
                        applied_of(step.state, ledger),
                        planner_part(step.effects),
                        now,
                    );
                    final(self)@ == state_with(step.state, applied) && ledger_view(
                        *final(active_runtime),
                    ) == applied.ledger
                }
            }),
            final(self).wf(),
    {
        if dead_subscribers.len() == 0 {
            return;
        }
        let reduction = self.update_demand_command(
            DhtDemandCommandAction::PruneDeadSubscribers {
                info_hash,
                subscriber_ids: dead_subscribers,
                now,
            },
        );
        let mut effects = reduction.effects;
        let ghost all = effects@;
        if let Some(last) = effects.pop() {
            assert(all[1] == last);
            assert(last.wf());
            assert(command_effects_view(all)[1] == last@);
            if let DhtDemandCommandEffect::ApplyPlannerEffects(planner_effects) = last {
                let _ = self.apply_planner_effects(active_runtime, planner_effects, now);
            }
        }
    }
}

/// The planner's part of a change among the subscribers.
pub open spec fn planner_part(effects: Seq<CommandEffectView>) -> Seq<PlannerEffectView> {
    match effects.last() {
        CommandEffectView::ApplyPlannerEffects(effects) => effects,
        _ => seq![],
    }
}

/// Every command concerns exactly one part of the service: its configuration, a demand, or the
/// runtime.
pub proof fn every_command_has_one_route(command: DhtCommand, now: Instant)
    ensures
        command is Reconfigure ==> demand_action(command, now).is_none() && runtime_action(
            command,
        ).is_none(),
        !(command is Reconfigure) ==> demand_action(command, now).is_some() != runtime_action(
            command,
        ).is_some(),
{
}

/// Subscribers whose deliveries all went through are none of the dead ones, and every dead one is
/// a subscriber that was delivered to in vain.
pub proof fn only_missed_subscribers_are_dead(
    deliveries: Seq<DemandSubscriber>,
    delivered: Seq<bool>,
    subscriber_id: u64,
)
    ensures
        undelivered(deliveries, delivered).contains(subscriber_id) <==> exists|i: int|
            0 <= i < deliveries.len() && i < delivered.len() && !delivered[i] && (
            #[trigger] deliveries[i]).subscriber_id == subscriber_id,
    decreases deliveries.len(),
{
    if deliveries.len() > 0 {
        let rest = deliveries.drop_last();
        let n = deliveries.len() - 1;
        only_missed_subscribers_are_dead(rest, delivered, subscriber_id);
        let before = undelivered(rest, delivered);
        let after = undelivered(deliveries, delivered);
        if after.contains(subscriber_id) {
            if before.contains(subscriber_id) {
                let i = choose|i: int|
                    0 <= i < rest.len() && i < delivered.len() && !delivered[i] && (
                    #[trigger] rest[i]).subscriber_id == subscriber_id;
                assert(deliveries[i].subscriber_id == subscriber_id);
            } else {
                let k = after.index_of(subscriber_id);
                if k < before.len() {
                    assert(before[k] == subscriber_id);
                }
                assert(deliveries[n].subscriber_id == subscriber_id);
            }
        }
        if exists|i: int|
            0 <= i < deliveries.len() && i < delivered.len() && !delivered[i] && (
            #[trigger] deliveries[i]).subscriber_id == subscriber_id {
            let i = choose|i: int|
                0 <= i < deliveries.len() && i < delivered.len() && !delivered[i] && (
                #[trigger] deliveries[i]).subscriber_id == subscriber_id;
            if i < n {
                assert(rest[i].subscriber_id == subscriber_id);
                assert(before.contains(subscriber_id));
                assert(after[before.index_of(subscriber_id)] == subscriber_id);
            } else {
                assert(after[before.len() as int] == subscriber_id);
            }
        }
    }
}

} // verus!
