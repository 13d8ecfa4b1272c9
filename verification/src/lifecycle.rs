use vstd::prelude::*;

use crate::clock::Instant;

verus! {

/// What happened to the runtime.
#[derive(Debug)]
#[allow(inconsistent_fields)]
pub enum DhtLifecycleAction {
    StartupBootstrapDue { now: Instant, due: Instant, active_user_lookup_count: usize },
    StartupBootstrapSucceeded,
    StartupBootstrapFailed { warning: String, retry_at: Instant },
    /// Without a runtime there is no count.
    MaintenanceTick { active_user_lookup_count: Option<usize> },
    MaintenanceFailed { warning: String },
    HealthTick,
    RuntimeStepFailed { warning: String },
    Shutdown,
}

/// What is to be done with the runtime.
#[derive(Clone, Debug, PartialEq, Eq)]
pub enum DhtLifecycleEffect {
    RunStartupBootstrap,
    ClearStartupBootstrapDue,
    SetStartupBootstrapDue(Instant),
    RunMaintenance,
    RecordRuntimeWarning { warning: String, publish_status: bool },
    PublishStatus,
    ExpireRecentUniquePeers,
    SaveRuntimeState,
}

/// The answer to an action.
#[derive(Debug)]
pub struct DhtLifecycleReduction {
    pub effects: Vec<DhtLifecycleEffect>,
}

/// The rules of the runtime's life.
#[derive(Debug)]
pub struct DhtLifecycleModel;

/// What an action leads to. The runtime bootstraps when that is due and nobody waits for a lookup,
/// and is maintained when nobody waits for a lookup.
pub open spec fn lifecycle_effects(action: DhtLifecycleAction) -> Seq<DhtLifecycleEffect> {
    match action {
        DhtLifecycleAction::StartupBootstrapDue { now, due, active_user_lookup_count } => if now
            >= due && active_user_lookup_count == 0 {
            seq![DhtLifecycleEffect::RunStartupBootstrap]
        } else {
            seq![]
        },
        DhtLifecycleAction::StartupBootstrapSucceeded => seq![
            DhtLifecycleEffect::ClearStartupBootstrapDue,
        ],
        DhtLifecycleAction::StartupBootstrapFailed { warning, retry_at } => seq![
            DhtLifecycleEffect::RecordRuntimeWarning { warning, publish_status: false },
            DhtLifecycleEffect::SetStartupBootstrapDue(retry_at),
        ],
        DhtLifecycleAction::MaintenanceTick { active_user_lookup_count } => if active_user_lookup_count
            == Some(0usize) {
            seq![DhtLifecycleEffect::RunMaintenance]
        } else {
            seq![]
        },
        DhtLifecycleAction::MaintenanceFailed { warning } => seq![
            DhtLifecycleEffect::RecordRuntimeWarning { warning, publish_status: true },
        ],
        DhtLifecycleAction::HealthTick => seq![
            DhtLifecycleEffect::PublishStatus,
            DhtLifecycleEffect::ExpireRecentUniquePeers,
            DhtLifecycleEffect::SaveRuntimeState,
        ],
        DhtLifecycleAction::RuntimeStepFailed { warning } => seq![
            DhtLifecycleEffect::RecordRuntimeWarning { warning, publish_status: true },
        ],
        DhtLifecycleAction::Shutdown => seq![DhtLifecycleEffect::SaveRuntimeState],
    }
}

impl DhtLifecycleModel {
    pub fn update(action: DhtLifecycleAction) -> (reduction: DhtLifecycleReduction)
        ensures
            reduction.effects@ == lifecycle_effects(action),
    {
        let ghost expected = lifecycle_effects(action);
        let mut effects: Vec<DhtLifecycleEffect> = Vec::new();
        match action {
            DhtLifecycleAction::StartupBootstrapDue { now, due, active_user_lookup_count } => {
                if now >= due && active_user_lookup_count == 0 {
                    effects.push(DhtLifecycleEffect::RunStartupBootstrap);
                }
            },
            DhtLifecycleAction::StartupBootstrapSucceeded => {
                effects.push(DhtLifecycleEffect::ClearStartupBootstrapDue);
            },
            DhtLifecycleAction::StartupBootstrapFailed { warning, retry_at } => {
                effects.push(
                    DhtLifecycleEffect::RecordRuntimeWarning { warning, publish_status: false },
                );
                effects.push(DhtLifecycleEffect::SetStartupBootstrapDue(retry_at));
            },
            DhtLifecycleAction::MaintenanceTick { active_user_lookup_count } => {
                if let Some(count) = active_user_lookup_count {
                    if count == 0 {
                        effects.push(DhtLifecycleEffect::RunMaintenance);
                    }
                }
            },
            DhtLifecycleAction::MaintenanceFailed { warning } => {
                effects.push(
                    DhtLifecycleEffect::RecordRuntimeWarning { warning, publish_status: true },
                );
            },
            DhtLifecycleAction::HealthTick => {
                effects.push(DhtLifecycleEffect::PublishStatus);
                effects.push(DhtLifecycleEffect::ExpireRecentUniquePeers);
                effects.push(DhtLifecycleEffect::SaveRuntimeState);
            },
            DhtLifecycleAction::RuntimeStepFailed { warning } => {
                effects.push(
                    DhtLifecycleEffect::RecordRuntimeWarning { warning, publish_status: true },
                );
            },
            DhtLifecycleAction::Shutdown => {
                effects.push(DhtLifecycleEffect::SaveRuntimeState);
            },
        }
        assert(effects@ =~= expected);
        DhtLifecycleReduction { effects }
    }
}

} // verus!
