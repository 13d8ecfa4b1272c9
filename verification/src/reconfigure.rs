use vstd::prelude::*;

use crate::config::{DhtBackendKind, DhtServiceConfig};
use crate::state::service::DhtServiceAction;

verus! {

/// How far a reconfiguration has come.
#[derive(Clone, Copy, Debug, PartialEq, Eq, Structural)]
pub enum ReconfigurePhase {
    /// The new runtime is built while the old one, if any, goes on.
    BuildingBeside,
    /// The old runtime gives up its port.
    Releasing,
    /// The new runtime is built after the old one has given up its port.
    BuildingAlone,
    /// The old runtime is built again, because the new one could not be.
    Restoring,
    /// The runtime is what it will be.
    Over,
}

/// What a reconfiguration waits for.
#[derive(Clone, Copy, Debug, PartialEq, Eq, Structural)]
pub enum ReconfigureAction {
    /// Save the state of the runtime, end it, and wait until its port is free.
    Release,
    /// Build a runtime with the new configuration.
    BuildNext,
    /// Build a runtime with the configuration that is in force.
    BuildPrevious,
    /// Finish.
    Finish,
}

/// What a reconfiguration waited for.
#[derive(Debug)]
pub enum ReconfigureEvent {
    /// The port is free.
    Released,
    /// The runtime was built, with a warning to go with it.
    Built(Option<String>),
    /// The runtime could not be built.
    BuildFailed(String),
}

/// The replacement of a service's runtime.
#[derive(Debug)]
pub struct Reconfiguration {
    pub next: DhtServiceConfig,
    pub phase: ReconfigurePhase,
    /// Whether the old runtime has been ended.
    pub released: bool,
    /// Whether a runtime was built that is to be the service's runtime.
    pub built: bool,
    /// The warning that goes with the new runtime.
    pub warning: Option<String>,
    /// Why the new runtime could not be built.
    pub failure: Option<String>,
}

/// Whether the new runtime cannot be built while the old one runs: both bind to one port.
pub open spec fn ports_collide(
    runtime_available: bool,
    previous: DhtServiceConfig,
    next: DhtServiceConfig,
) -> bool {
    runtime_available && next.preferred_backend != DhtBackendKind::Disabled && next.port != 0
        && next.port == previous.port
}

/// What a phase waits for.
pub open spec fn awaited(phase: ReconfigurePhase) -> ReconfigureAction {
    match phase {
        ReconfigurePhase::BuildingBeside => ReconfigureAction::BuildNext,
        ReconfigurePhase::Releasing => ReconfigureAction::Release,
        ReconfigurePhase::BuildingAlone => ReconfigureAction::BuildNext,
        ReconfigurePhase::Restoring => ReconfigureAction::BuildPrevious,
        ReconfigurePhase::Over => ReconfigureAction::Finish,
    }
}

impl Reconfiguration {
    /// A reconfiguration that has just begun.
    pub open spec fn begun(
        runtime_available: bool,
        previous: DhtServiceConfig,
        next: DhtServiceConfig,
    ) -> Self {
        Reconfiguration {
            next,
            phase: if ports_collide(runtime_available, previous, next) {
                ReconfigurePhase::Releasing
            } else {
                ReconfigurePhase::BuildingBeside
            },
            released: false,
            built: false,
            warning: None,
            failure: None,
        }
    }

    /// The reconfiguration after an event. An event that nothing waits for changes nothing.
    pub open spec fn after(self, event: ReconfigureEvent) -> Self {
        match (self.phase, event) {
            (ReconfigurePhase::Releasing, ReconfigureEvent::Released) => Reconfiguration {
                phase: ReconfigurePhase::BuildingAlone,
                released: true,
                ..self
            },
            (ReconfigurePhase::BuildingBeside, ReconfigureEvent::Built(warning)) | (
                ReconfigurePhase::BuildingAlone,
                ReconfigureEvent::Built(warning),
            ) => Reconfiguration {
                phase: ReconfigurePhase::Over,
                built: true,
                warning,
                ..self
            },
            (ReconfigurePhase::BuildingBeside, ReconfigureEvent::BuildFailed(error)) =>
                Reconfiguration {
                phase: ReconfigurePhase::Over,
                failure: Some(error),
                ..self
            },
            (ReconfigurePhase::BuildingAlone, ReconfigureEvent::BuildFailed(error)) =>
                Reconfiguration {
                phase: ReconfigurePhase::Restoring,
                failure: Some(error),
                ..self
            },
            (ReconfigurePhase::Restoring, ReconfigureEvent::Built(_)) => Reconfiguration {
                phase: ReconfigurePhase::Over,
                built: true,
                ..self
            },
            (ReconfigurePhase::Restoring, ReconfigureEvent::BuildFailed(_)) => Reconfiguration {
                phase: ReconfigurePhase::Over,
                ..self
            },
            _ => self,
        }
    }

    /// What the service is told of the reconfiguration. Where the old runtime was ended in vain,
    /// all that depends on it begins anew.
    pub open spec fn told(self) -> DhtServiceAction {
        match self.failure {
            Some(warning) => DhtServiceAction::ReconfigureFailed {
                warning,
                runtime_reset: self.released,
            },
            None => DhtServiceAction::ReconfigureSucceeded {
                config: self.next,
                warning: self.warning,
            },
        }
    }

    /// Begins to replace the runtime of a service. An old runtime that is bound to the port of the
    /// new one gives it up first.
    pub fn begin(
        runtime_available: bool,
        previous: &DhtServiceConfig,
        next: DhtServiceConfig,
    ) -> (begun: (Self, ReconfigureAction))
        ensures
            begun.0 == Self::begun(runtime_available, *previous, next),
            begun.1 == awaited(begun.0.phase),
    {
        let collide = runtime_available && next.preferred_backend != DhtBackendKind::Disabled
            && next.port != 0 && next.port == previous.port;
        let reconfiguration = Reconfiguration {
            next,
            phase: if collide {
                ReconfigurePhase::Releasing
            } else {
                ReconfigurePhase::BuildingBeside
            },
            released: false,
            built: false,
            warning: None,
            failure: None,
        };
        let action = reconfiguration.awaited_action();
        (reconfiguration, action)
    }

    /// What the reconfiguration waits for.
    pub fn awaited_action(&self) -> (action: ReconfigureAction)
        ensures
            action == awaited(self.phase),
    {
        match self.phase {
            ReconfigurePhase::BuildingBeside => ReconfigureAction::BuildNext,
            ReconfigurePhase::Releasing => ReconfigureAction::Release,
            ReconfigurePhase::BuildingAlone => ReconfigureAction::BuildNext,
            ReconfigurePhase::Restoring => ReconfigureAction::BuildPrevious,
            ReconfigurePhase::Over => ReconfigureAction::Finish,
        }
    }

    /// Takes in what the reconfiguration waited for, and says what it waits for next.
    pub fn advance(&mut self, event: ReconfigureEvent) -> (action: ReconfigureAction)
        ensures
            *final(self) == old(self).after(event),
            action == awaited(final(self).phase),
    {
        match (self.phase, event) {
            (ReconfigurePhase::Releasing, ReconfigureEvent::Released) => {
                self.phase = ReconfigurePhase::BuildingAlone;
                self.released = true;
            },
            (
                ReconfigurePhase::BuildingBeside | ReconfigurePhase::BuildingAlone,
                ReconfigureEvent::Built(warning),
            ) => {
                self.phase = ReconfigurePhase::Over;
                self.built = true;
                self.warning = warning;
            },
            (ReconfigurePhase::BuildingBeside, ReconfigureEvent::BuildFailed(error)) => {
                self.phase = ReconfigurePhase::Over;
                self.failure = Some(error);
            },
            (ReconfigurePhase::BuildingAlone, ReconfigureEvent::BuildFailed(error)) => {
                self.phase = ReconfigurePhase::Restoring;
                self.failure = Some(error);
            },
            (ReconfigurePhase::Restoring, ReconfigureEvent::Built(_)) => {
                self.phase = ReconfigurePhase::Over;
                self.built = true;
            },
            (ReconfigurePhase::Restoring, ReconfigureEvent::BuildFailed(_)) => {
                self.phase = ReconfigurePhase::Over;
            },
            _ => {},
        }
        self.awaited_action()
    }

    /// What the service is told once the reconfiguration is over.
    pub fn into_service_action(self) -> (action: DhtServiceAction)
        requires
            self.phase == ReconfigurePhase::Over,
        ensures
            action == self.told(),
    {
        match self.failure {
            Some(warning) => DhtServiceAction::ReconfigureFailed {
                warning,
                runtime_reset: self.released,
            },
            None => DhtServiceAction::ReconfigureSucceeded {
                config: self.next,
                warning: self.warning,
            },
        }
    }
}

/// A runtime is never built while another one holds its port, and one that was ended in vain is
/// built again: the service keeps its configuration, and is told to begin anew with all that
/// depends on the runtime.
pub proof fn failed_reconfigure_restores_runtime(
    previous: DhtServiceConfig,
    next: DhtServiceConfig,
    error: String,
    warning: Option<String>,
)
    requires
        ports_collide(true, previous, next),
    ensures
        ({
            let begun = Reconfiguration::begun(true, previous, next);
            let released = begun.after(ReconfigureEvent::Released);
            let failed = released.after(ReconfigureEvent::BuildFailed(error));
            let restored = failed.after(ReconfigureEvent::Built(warning));
            &&& awaited(begun.phase) == ReconfigureAction::Release
            &&& awaited(released.phase) == ReconfigureAction::BuildNext
            &&& awaited(failed.phase) == ReconfigureAction::BuildPrevious
            &&& awaited(restored.phase) == ReconfigureAction::Finish
            &&& restored.built
            &&& restored.told() == (DhtServiceAction::ReconfigureFailed {
                warning: error,
                runtime_reset: true,
            })
        }),
{
}

/// A reconfiguration that fails without a collision of ports leaves the old runtime alone.
pub proof fn failed_reconfigure_keeps_runtime(
    runtime_available: bool,
    previous: DhtServiceConfig,
    next: DhtServiceConfig,
    error: String,
)
    requires
        !ports_collide(runtime_available, previous, next),
    ensures
        ({
            let begun = Reconfiguration::begun(runtime_available, previous, next);
            let failed = begun.after(ReconfigureEvent::BuildFailed(error));
            &&& awaited(begun.phase) == ReconfigureAction::BuildNext
            &&& awaited(failed.phase) == ReconfigureAction::Finish
            &&& !failed.released && !failed.built
            &&& failed.told() == (DhtServiceAction::ReconfigureFailed {
                warning: error,
                runtime_reset: false,
            })
        }),
{
}

/// A reconfiguration whose runtime is built succeeds, whether or not the old one had to give up
/// its port first.
pub proof fn built_reconfigure_succeeds(
    runtime_available: bool,
    previous: DhtServiceConfig,
    next: DhtServiceConfig,
    warning: Option<String>,
)
    ensures
        ({
            let begun = Reconfiguration::begun(runtime_available, previous, next);
            let ready = if ports_collide(runtime_available, previous, next) {
                begun.after(ReconfigureEvent::Released)
            } else {
                begun
            };
            let built = ready.after(ReconfigureEvent::Built(warning));
            &&& awaited(ready.phase) == ReconfigureAction::BuildNext
            &&& awaited(built.phase) == ReconfigureAction::Finish
            &&& built.built
            &&& built.told() == (DhtServiceAction::ReconfigureSucceeded { config: next, warning })
        }),
{
}

} // verus!
