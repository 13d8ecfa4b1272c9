use vstd::prelude::*;

use crate::config::DhtServiceConfig;

verus! {

/// What happened to the service as a whole.
#[derive(Debug)]
#[allow(inconsistent_fields)]
pub enum DhtServiceAction {
    ReconfigureRequested { config: DhtServiceConfig },
    ReconfigureSucceeded { config: DhtServiceConfig, warning: Option<String> },
    ReconfigureFailed { warning: String, runtime_reset: bool },
    RuntimeWarning { warning: String },
}

/// What is to be done with the service as a whole.
#[derive(Clone, Debug, PartialEq, Eq)]
pub enum DhtServiceEffect {
    BuildRuntime { config: DhtServiceConfig },
    ResetDemandPlanner,
    PublishStatus,
    StartDueDemands,
}

/// The answer to an action.
#[derive(Debug)]
pub struct DhtServiceReduction {
    pub effects: Vec<DhtServiceEffect>,
}

/// How the service runs: its configuration, how often that has changed, and the last warning.
#[derive(Debug)]
pub struct DhtServiceModel {
    pub config: DhtServiceConfig,
    pub generation: u64,
    pub warning: Option<String>,
}

/// What follows once the runtime has been replaced.
pub open spec fn runtime_replaced_effects() -> Seq<DhtServiceEffect> {
    seq![
        DhtServiceEffect::ResetDemandPlanner,
        DhtServiceEffect::PublishStatus,
        DhtServiceEffect::StartDueDemands,
    ]
}

/// What an action leads to: the service's next state, and what is to be done. Only a configuration
/// that has come into force counts as a new generation.
pub open spec fn service_step(model: DhtServiceModel, action: DhtServiceAction) -> (
    DhtServiceModel,
    Seq<DhtServiceEffect>,
) {
    match action {
        DhtServiceAction::ReconfigureRequested { config } => (
            model,
            seq![DhtServiceEffect::BuildRuntime { config }],
        ),
        DhtServiceAction::ReconfigureSucceeded { config, warning } => (
            DhtServiceModel { config, generation: model.generation.saturating_add(1), warning },
            runtime_replaced_effects(),
        ),
        DhtServiceAction::ReconfigureFailed { warning, runtime_reset } => (
            DhtServiceModel { warning: Some(warning), ..model },
            if runtime_reset {
                runtime_replaced_effects()
            } else {
                seq![DhtServiceEffect::PublishStatus]
            },
        ),
        DhtServiceAction::RuntimeWarning { warning } => (
            DhtServiceModel { warning: Some(warning), ..model },
            seq![DhtServiceEffect::PublishStatus],
        ),
    }
}

/// The requests that follow once the runtime has been replaced.
fn runtime_replaced() -> (effects: Vec<DhtServiceEffect>)
    ensures
        effects@ == runtime_replaced_effects(),
{
    let mut effects: Vec<DhtServiceEffect> = Vec::new();
    effects.push(DhtServiceEffect::ResetDemandPlanner);
    effects.push(DhtServiceEffect::PublishStatus);
    effects.push(DhtServiceEffect::StartDueDemands);
    assert(effects@ =~= runtime_replaced_effects());
    effects
}

/// A single request.
fn only(effect: DhtServiceEffect) -> (effects: Vec<DhtServiceEffect>)
    ensures
        effects@ == seq![effect],
{
    let effects: Vec<DhtServiceEffect> = vec![effect];
    assert(effects@ =~= seq![effect]);
    effects
}

impl DhtServiceModel {
    pub fn new(config: DhtServiceConfig, generation: u64, warning: Option<String>) -> (model: Self)
        ensures
            model == (DhtServiceModel { config, generation, warning }),
    {
        DhtServiceModel { config, generation, warning }
    }

    pub fn config(&self) -> (config: &DhtServiceConfig)
        ensures
            *config == self.config,
    {
        &self.config
    }

    pub fn generation(&self) -> (generation: u64)
        ensures
            generation == self.generation,
    {
        self.generation
    }

    pub fn warning_owned(&self) -> (warning: Option<String>)
        ensures
            warning == self.warning,
    {
        match &self.warning {
            Some(warning) => Some(warning.clone()),
            None => None,
        }
    }

    /// Takes in what happened and says what is to be done.
    pub fn update(&mut self, action: DhtServiceAction) -> (reduction: DhtServiceReduction)
        ensures
            (*final(self), reduction.effects@) == service_step(*old(self), action),
    {
        let effects = match action {
            DhtServiceAction::ReconfigureRequested { config } => only(
                DhtServiceEffect::BuildRuntime { config },
            ),
            DhtServiceAction::ReconfigureSucceeded { config, warning } => {
                self.config = config;
                self.generation = self.generation.saturating_add(1);
                self.warning = warning;
                runtime_replaced()
            },
            DhtServiceAction::ReconfigureFailed { warning, runtime_reset } => {
                self.warning = Some(warning);
                if runtime_reset {
                    runtime_replaced()
                } else {
                    only(DhtServiceEffect::PublishStatus)
                }
            },
            DhtServiceAction::RuntimeWarning { warning } => {
                self.warning = Some(warning);
                only(DhtServiceEffect::PublishStatus)
            },
        };
        DhtServiceReduction { effects }
    }
}

impl DhtServiceAction {
    /// The name of the action.
    pub open spec fn name(&self) -> Seq<char> {
        match *self {
            DhtServiceAction::ReconfigureRequested { .. } => "reconfigure_requested"@,
            DhtServiceAction::ReconfigureSucceeded { .. } => "reconfigure_succeeded"@,
            DhtServiceAction::ReconfigureFailed { .. } => "reconfigure_failed"@,
            DhtServiceAction::RuntimeWarning { .. } => "runtime_warning"@,
        }
    }

    pub fn kind(&self) -> (kind: &'static str)
        ensures
            kind@ == self.name(),
    {
        match self {
            DhtServiceAction::ReconfigureRequested { .. } => "reconfigure_requested",
            DhtServiceAction::ReconfigureSucceeded { .. } => "reconfigure_succeeded",
            DhtServiceAction::ReconfigureFailed { .. } => "reconfigure_failed",
            DhtServiceAction::RuntimeWarning { .. } => "runtime_warning",
        }
    }
}

impl DhtServiceEffect {
    /// The name of the effect.
    pub open spec fn name(&self) -> Seq<char> {
        match *self {
            DhtServiceEffect::BuildRuntime { .. } => "build_runtime"@,
            DhtServiceEffect::ResetDemandPlanner => "reset_demand_planner"@,
            DhtServiceEffect::PublishStatus => "publish_status"@,
            DhtServiceEffect::StartDueDemands => "start_due_demands"@,
        }
    }

    pub fn kind(&self) -> (kind: &'static str)
        ensures
            kind@ == self.name(),
    {
        match self {
            DhtServiceEffect::BuildRuntime { .. } => "build_runtime",
            DhtServiceEffect::ResetDemandPlanner => "reset_demand_planner",
            DhtServiceEffect::PublishStatus => "publish_status",
            DhtServiceEffect::StartDueDemands => "start_due_demands",
        }
    }
}

/// A reconfiguration that failed changes neither the configuration nor the generation.
pub proof fn failed_reconfigure_keeps_config(
    model: DhtServiceModel,
    warning: String,
    runtime_reset: bool,
)
    ensures
        ({
            let after = service_step(
                model,
                DhtServiceAction::ReconfigureFailed { warning, runtime_reset },
            ).0;
            after.config == model.config && after.generation == model.generation
                && after.warning == Some(warning)
        }),
{
}

/// The generation never goes back.
pub proof fn generation_never_goes_back(model: DhtServiceModel, action: DhtServiceAction)
    ensures
        service_step(model, action).0.generation >= model.generation,
{
}

} // verus!
