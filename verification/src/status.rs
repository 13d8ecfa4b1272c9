use vstd::prelude::*;

use crate::config::{
    literal_bootstrap_summary, literal_summary, BootstrapSummary, DhtBackendKind, DhtServiceConfig,
    Settings,
};

verus! {

/// What the runtime reports of itself.
#[derive(Clone, Copy, Debug, PartialEq, Eq, Structural)]
pub struct RuntimeReport {
    pub backend: DhtBackendKind,
    pub bootstrap: BootstrapSummary,
    pub bound_family_count: usize,
    pub active_lookups: usize,
    pub active_user_lookups: usize,
    pub inflight_ipv4_queries: usize,
    pub inflight_ipv6_queries: usize,
}

/// How the service is doing.
#[derive(Clone, Copy, Debug, PartialEq, Eq, Structural)]
pub struct DhtHealthSnapshot {
    pub backend: DhtBackendKind,
    pub preferred_backend: Option<DhtBackendKind>,
    pub enabled: bool,
    pub exported_bootstrap_nodes: usize,
    pub ipv4_bootstrap_nodes: usize,
    pub ipv6_bootstrap_nodes: usize,
    pub bound_family_count: usize,
    pub inflight_lookups: usize,
}

/// What the service tells of itself.
#[derive(Clone, Debug, PartialEq, Eq)]
pub struct DhtStatus {
    pub generation: u64,
    pub warning: Option<String>,
    pub health: DhtHealthSnapshot,
}

/// How much the service is doing.
#[derive(Clone, Copy, Debug, PartialEq, Eq, Structural)]
pub struct DhtWaveTelemetry {
    pub active_lookups: usize,
    pub active_user_lookups: usize,
    pub inflight_ipv4_queries: usize,
    pub inflight_ipv6_queries: usize,
    pub unique_peers_found_last_10s: usize,
    pub demand_power_multiplier: usize,
    pub demand_power_scale_halves: usize,
}

/// The health of a service with a backend, without a runtime.
pub open spec fn idle_health(
    backend: DhtBackendKind,
    preferred_backend: Option<DhtBackendKind>,
    bootstrap: BootstrapSummary,
) -> DhtHealthSnapshot {
    DhtHealthSnapshot {
        backend,
        preferred_backend,
        enabled: backend != DhtBackendKind::Disabled,
        exported_bootstrap_nodes: bootstrap.total,
        ipv4_bootstrap_nodes: bootstrap.ipv4,
        ipv6_bootstrap_nodes: bootstrap.ipv6,
        bound_family_count: 0,
        inflight_lookups: 0,
    }
}

/// The health of a service.
pub open spec fn health_of(
    runtime: Option<RuntimeReport>,
    backend: DhtBackendKind,
    preferred_backend: DhtBackendKind,
    bootstrap: BootstrapSummary,
) -> DhtHealthSnapshot {
    let idle = idle_health(backend, Some(preferred_backend), bootstrap);
    match runtime {
        Some(report) => DhtHealthSnapshot {
            bound_family_count: report.bound_family_count,
            inflight_lookups: report.active_lookups,
            ..idle
        },
        None => idle,
    }
}

impl Default for DhtHealthSnapshot {
    fn default() -> (health: Self)
        ensures
            health == idle_health(
                DhtBackendKind::Disabled,
                None,
                BootstrapSummary { total: 0, ipv4: 0, ipv6: 0 },
            ),
    {
        DhtHealthSnapshot {
            backend: DhtBackendKind::Disabled,
            preferred_backend: None,
            enabled: false,
            exported_bootstrap_nodes: 0,
            ipv4_bootstrap_nodes: 0,
            ipv6_bootstrap_nodes: 0,
            bound_family_count: 0,
            inflight_lookups: 0,
        }
    }
}

impl Default for DhtStatus {
    fn default() -> (status: Self)
        ensures
            status.generation == 0,
            status.warning.is_none(),
            status.health == idle_health(
                DhtBackendKind::Disabled,
                None,
                BootstrapSummary { total: 0, ipv4: 0, ipv6: 0 },
            ),
    {
        DhtStatus { generation: 0, warning: None, health: DhtHealthSnapshot::default() }
    }
}

/// The status of a service.
pub fn build_status(
    runtime: Option<&RuntimeReport>,
    backend: DhtBackendKind,
    preferred_backend: DhtBackendKind,
    warning: Option<String>,
    generation: u64,
    bootstrap: BootstrapSummary,
) -> (status: DhtStatus)
    ensures
        status.generation == generation,
        status.warning == warning,
        status.health == health_of(
            match runtime {
                Some(report) => Some(*report),
                None => None,
            },
            backend,
            preferred_backend,
            bootstrap,
        ),
{
    let (bound_family_count, inflight_lookups): (usize, usize) = match runtime {
        Some(report) => (report.bound_family_count, report.active_lookups),
        None => (0, 0),
    };
    DhtStatus {
        generation,
        warning,
        health: DhtHealthSnapshot {
            backend,
            preferred_backend: Some(preferred_backend),
            enabled: backend != DhtBackendKind::Disabled,
            exported_bootstrap_nodes: bootstrap.total,
            ipv4_bootstrap_nodes: bootstrap.ipv4,
            ipv6_bootstrap_nodes: bootstrap.ipv6,
            bound_family_count,
            inflight_lookups,
        },
    }
}

/// The health that a service shows. A runtime brings its own backend and bootstrap nodes; without
/// one the service counts as disabled and keeps the configured nodes.
pub open spec fn shown_health(
    runtime: Option<RuntimeReport>,
    preferred_backend: DhtBackendKind,
    configured_bootstrap: BootstrapSummary,
) -> DhtHealthSnapshot {
    match runtime {
        Some(report) => health_of(runtime, report.backend, preferred_backend, report.bootstrap),
        None => health_of(
            None,
            DhtBackendKind::Disabled,
            preferred_backend,
            configured_bootstrap,
        ),
    }
}

/// Puts the present status of a service in place of the last one. A runtime brings its own backend
/// and bootstrap nodes; without one the service counts as disabled and keeps the configured nodes.
pub fn publish_status(
    status: &mut DhtStatus,
    runtime: Option<&RuntimeReport>,
    warning: Option<String>,
    generation: u64,
    preferred_backend: DhtBackendKind,
    configured_bootstrap: BootstrapSummary,
)
    ensures
        final(status).generation == generation,
        final(status).warning == warning,
        final(status).health == shown_health(
            match runtime {
                Some(report) => Some(*report),
                None => None,
            },
            preferred_backend,
            configured_bootstrap,
        ),
        final(status).health == match runtime {
            Some(report) => health_of(
                Some(*report),
                report.backend,
                preferred_backend,
                report.bootstrap,
            ),
            None => health_of(
                None,
                DhtBackendKind::Disabled,
                preferred_backend,
                configured_bootstrap,
            ),
        },
{
    let (backend, bootstrap) = match runtime {
        Some(report) => (report.backend, report.bootstrap),
        None => (DhtBackendKind::Disabled, configured_bootstrap),
    };
    *status = build_status(runtime, backend, preferred_backend, warning, generation, bootstrap);
}

/// The strength of lookups in whole steps, at least one.
pub open spec fn power_multiplier_of(halves: usize) -> usize {
    if halves / 2 > 1 {
        halves / 2
    } else {
        1
    }
}

/// The strength of lookups in halves.
pub fn power_scale_halves(multiplier: u8) -> (halves: usize)
    ensures
        halves == 2 * multiplier,
{
    2 * multiplier as usize
}

/// How much a service is doing.
pub open spec fn telemetry_of(
    runtime: Option<RuntimeReport>,
    unique_peers_found: usize,
    demand_power_scale_halves: usize,
) -> DhtWaveTelemetry {
    DhtWaveTelemetry {
        active_lookups: if runtime.is_some() {
            runtime.unwrap().active_lookups
        } else {
            0
        },
        active_user_lookups: if runtime.is_some() {
            runtime.unwrap().active_user_lookups
        } else {
            0
        },
        inflight_ipv4_queries: if runtime.is_some() {
            runtime.unwrap().inflight_ipv4_queries
        } else {
            0
        },
        inflight_ipv6_queries: if runtime.is_some() {
            runtime.unwrap().inflight_ipv6_queries
        } else {
            0
        },
        unique_peers_found_last_10s: unique_peers_found,
        demand_power_multiplier: power_multiplier_of(demand_power_scale_halves),
        demand_power_scale_halves,
    }
}

/// How much the service is doing. The strength of lookups is given in halves.
pub fn build_wave_telemetry(
    runtime: Option<&RuntimeReport>,
    unique_peers_found: usize,
    demand_power_scale_halves: usize,
) -> (telemetry: DhtWaveTelemetry)
    ensures
        telemetry == telemetry_of(
            match runtime {
                Some(report) => Some(*report),
                None => None,
            },
            unique_peers_found,
            demand_power_scale_halves,
        ),
        telemetry == ({
            let idle = DhtWaveTelemetry {
                active_lookups: 0,
                active_user_lookups: 0,
                inflight_ipv4_queries: 0,
                inflight_ipv6_queries: 0,
                unique_peers_found_last_10s: unique_peers_found,
                demand_power_multiplier: power_multiplier_of(demand_power_scale_halves),
                demand_power_scale_halves,
            };
            match runtime {
                Some(report) => DhtWaveTelemetry {
                    active_lookups: report.active_lookups,
                    active_user_lookups: report.active_user_lookups,
                    inflight_ipv4_queries: report.inflight_ipv4_queries,
                    inflight_ipv6_queries: report.inflight_ipv6_queries,
                    ..idle
                },
                None => idle,
            }
        }),
{
    let halved: usize = demand_power_scale_halves / 2;
    let idle = DhtWaveTelemetry {
        active_lookups: 0,
        active_user_lookups: 0,
        inflight_ipv4_queries: 0,
        inflight_ipv6_queries: 0,
        unique_peers_found_last_10s: unique_peers_found,
        demand_power_multiplier: if halved > 1 {
            halved
        } else {
            1
        },
        demand_power_scale_halves,
    };
    match runtime {
        Some(report) => DhtWaveTelemetry {
            active_lookups: report.active_lookups,
            active_user_lookups: report.active_user_lookups,
            inflight_ipv4_queries: report.inflight_ipv4_queries,
            inflight_ipv6_queries: report.inflight_ipv6_queries,
            ..idle
        },
        None => idle,
    }
}

/// The status that the settings promise before the service has started.
pub fn configured_status_from_settings(settings: &Settings) -> (status: DhtStatus)
    ensures
        status.generation == 0,
        status.warning.is_none(),
        status.health == idle_health(
            settings.dht_backend,
            Some(settings.dht_backend),
            literal_summary(settings.bootstrap_nodes@),
        ),
{
    configured_status_from_config(&DhtServiceConfig::from_settings(settings))
}

/// The status that a configuration promises before the service has started.
pub fn configured_status_from_config(config: &DhtServiceConfig) -> (status: DhtStatus)
    ensures
        status.generation == 0,
        status.warning.is_none(),
        status.health == idle_health(
            config.preferred_backend,
            Some(config.preferred_backend),
            literal_summary(config.bootstrap_nodes@),
        ),
{
    let bootstrap = literal_bootstrap_summary(config.bootstrap_nodes.as_slice());
    DhtStatus {
        generation: 0,
        warning: None,
        health: DhtHealthSnapshot {
            backend: config.preferred_backend,
            preferred_backend: Some(config.preferred_backend),
            enabled: config.preferred_backend != DhtBackendKind::Disabled,
            exported_bootstrap_nodes: bootstrap.total,
            ipv4_bootstrap_nodes: bootstrap.ipv4,
            ipv6_bootstrap_nodes: bootstrap.ipv6,
            bound_family_count: 0,
            inflight_lookups: 0,
        },
    }
}

/// The status of a handle to no service.
pub fn disabled_status() -> (status: DhtStatus)
    ensures
        status.generation == 0,
        status.warning.is_none(),
        status.health == idle_health(
            DhtBackendKind::Disabled,
            Some(DhtBackendKind::Disabled),
            BootstrapSummary { total: 0, ipv4: 0, ipv6: 0 },
        ),
{
    DhtStatus {
        generation: 0,
        warning: None,
        health: DhtHealthSnapshot {
            preferred_backend: Some(DhtBackendKind::Disabled),
            ..DhtHealthSnapshot::default()
        },
    }
}

} // verus!
