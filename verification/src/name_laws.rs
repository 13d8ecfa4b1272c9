use vstd::prelude::*;

use crate::commands::{DhtRuntimeCommandAction, DhtRuntimeCommandEffect};
use crate::planner::actions::{DemandPlannerAction, DemandPlannerEffect};
use crate::planner::views::{DemandPlannerActionView, DemandPlannerEffectView};
use crate::state::demand_command::{DhtDemandCommandAction, DhtDemandCommandEffect};
use crate::state::service::{DhtServiceAction, DhtServiceEffect};

verus! {

/// An action on the runtime goes by its name in reports.
pub proof fn runtime_actions_have_their_names(action: DhtRuntimeCommandAction)
    ensures
        action is StartGetPeers ==> action.name() == "start_get_peers"@,
        action is StartGetPeersFamily ==> action.name() == "start_get_peers_family"@,
        action is CancelLookups ==> action.name() == "cancel_lookups"@,
        action is ParkDemandLookups ==> action.name() == "park_demand_lookups"@,
        action is FinalizeDrainedDemandLookups ==> action.name()
            == "finalize_drained_demand_lookups"@,
        action is AnnouncePeer ==> action.name() == "announce_peer"@,
{
}

/// What is asked of the runtime goes by its name in reports.
pub proof fn runtime_effects_have_their_names(effect: DhtRuntimeCommandEffect)
    ensures
        effect is StartGetPeers ==> effect.name() == "start_get_peers"@,
        effect is AttachLookupFamily ==> effect.name() == "attach_lookup_family"@,
        effect is CancelLookups ==> effect.name() == "cancel_lookups"@,
        effect is ParkDemandLookups ==> effect.name() == "park_demand_lookups"@,
        effect is FinalizeDrainedDemandLookups ==> effect.name()
            == "finalize_drained_demand_lookups"@,
        effect is AnnouncePeer ==> effect.name() == "announce_peer"@,
        effect is StartDueDemands ==> effect.name() == "start_due_demands"@,
{
}

/// What happens to the service goes by its name in reports.
pub proof fn service_actions_have_their_names(action: DhtServiceAction)
    ensures
        action is ReconfigureRequested ==> action.name() == "reconfigure_requested"@,
        action is ReconfigureSucceeded ==> action.name() == "reconfigure_succeeded"@,
        action is ReconfigureFailed ==> action.name() == "reconfigure_failed"@,
        action is RuntimeWarning ==> action.name() == "runtime_warning"@,
{
}

/// What is to be done with the service goes by its name in reports.
pub proof fn service_effects_have_their_names(effect: DhtServiceEffect)
    ensures
        effect is BuildRuntime ==> effect.name() == "build_runtime"@,
        effect is ResetDemandPlanner ==> effect.name() == "reset_demand_planner"@,
        effect is PublishStatus ==> effect.name() == "publish_status"@,
        effect is StartDueDemands ==> effect.name() == "start_due_demands"@,
{
}

/// What happens to a demand goes by its name in reports.
pub proof fn demand_actions_have_their_names(action: DhtDemandCommandAction)
    ensures
        action is Register ==> action.name() == "register"@,
        action is Update ==> action.name() == "update"@,
        action is UpdateMetrics ==> action.name() == "update_metrics"@,
        action is Unregister ==> action.name() == "unregister"@,
        action is PruneDeadSubscribers ==> action.name() == "prune_dead_subscribers"@,
        action is PeersReceived ==> action.name() == "peers_received"@,
        action is LookupFinished ==> action.name() == "lookup_finished"@,
{
}

/// What is to be done for a demand goes by its name in reports.
pub proof fn demand_effects_have_their_names(effect: DhtDemandCommandEffect)
    ensures
        effect is SendRegisterResponse ==> effect.name() == "send_register_response"@,
        effect is ApplySubscriberEffects ==> effect.name() == "apply_subscriber_effects"@,
        effect is ApplyPlannerEffects ==> effect.name() == "apply_planner_effects"@,
        effect is StartDueDemands ==> effect.name() == "start_due_demands"@,
{
}

/// What the planner is told goes by its name in reports.
pub proof fn planner_actions_have_their_names(action: DemandPlannerAction)
    ensures
        action is RuntimeReset ==> DemandPlannerActionView::name(action) == "runtime_reset"@,
        action is DemandRegistered ==> DemandPlannerActionView::name(action)
            == "demand_registered"@,
        action is DemandUpdated ==> DemandPlannerActionView::name(action) == "demand_updated"@,
        action is DemandMetricsUpdated ==> DemandPlannerActionView::name(action)
            == "demand_metrics_updated"@,
        action is DemandSubscriberRemoved ==> DemandPlannerActionView::name(action)
            == "demand_subscriber_removed"@,
        action is PeersReceived ==> DemandPlannerActionView::name(action) == "peers_received"@,
        action is DrainTick ==> DemandPlannerActionView::name(action) == "drain_tick"@,
        action is PlanDue ==> DemandPlannerActionView::name(action) == "plan_due"@,
        action is LookupStarted ==> DemandPlannerActionView::name(action) == "lookup_started"@,
        action is LookupStartFailed ==> DemandPlannerActionView::name(action)
            == "lookup_start_failed"@,
        action is LookupFinished ==> DemandPlannerActionView::name(action) == "lookup_finished"@,
        action is LookupParkRequested ==> DemandPlannerActionView::name(action)
            == "lookup_park_requested"@,
        action is LookupParkResolved ==> DemandPlannerActionView::name(action)
            == "lookup_park_resolved"@,
        action is DrainedLookupFinalized ==> DemandPlannerActionView::name(action)
            == "drained_lookup_finalized"@,
{
}

/// What the planner asks for goes by its name in reports.
pub proof fn planner_effects_have_their_names(effect: DemandPlannerEffect)
    ensures
        effect is StartLookup ==> DemandPlannerEffectView::name(effect) == "start_lookup"@,
        effect is LookupFinished ==> DemandPlannerEffectView::name(effect) == "lookup_finished"@,
        effect is AdmitDrain ==> DemandPlannerEffectView::name(effect) == "admit_drain"@,
        effect is LookupParked ==> DemandPlannerEffectView::name(effect) == "lookup_parked"@,
        effect is DrainFinalized ==> DemandPlannerEffectView::name(effect) == "drain_finalized"@,
        effect is ParkActiveLookup ==> DemandPlannerEffectView::name(effect)
            == "park_active_lookup"@,
        effect is CancelDrainingLookup ==> DemandPlannerEffectView::name(effect)
            == "cancel_draining_lookup"@,
        effect is FinalizeDrainingLookup ==> DemandPlannerEffectView::name(effect)
            == "finalize_draining_lookup"@,
        effect is DrainPeersRecorded ==> DemandPlannerEffectView::name(effect)
            == "drain_peers_recorded"@,
{
}

} // verus!
