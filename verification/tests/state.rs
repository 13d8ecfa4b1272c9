use dht_service::clock::{Instant, SECOND};
use dht_service::commands::DhtCommand;
use dht_service::config::{BootstrapNode, DhtBackendKind, DhtServiceConfig};
use dht_service::demand::{DhtDemandMetrics, DhtDemandState};
use dht_service::driver::dead_subscribers;
use dht_service::ids::{InfoHash, PeerAddr};
use dht_service::slice::DemandSliceClass;
use dht_service::state::demand_command::{
    DhtDemandCommandAction, DhtDemandCommandEffect, DhtServiceState,
};
use dht_service::state::service::{DhtServiceAction, DhtServiceEffect, DhtServiceModel};
use dht_service::subscribers::{ChannelKey, DemandSubscriberEffect};

/// The time at which the tests begin.
const BASE: Instant = 1_000_000 * SECOND;

fn hash_index(index: u32) -> InfoHash {
    let mut bytes = [0u8; 20];
    bytes[..4].copy_from_slice(&index.to_be_bytes());
    InfoHash::from_bytes(bytes)
}

fn ipv4(a: u8, b: u8, c: u8, d: u8, port: u16) -> PeerAddr {
    PeerAddr::V4 { ip: u32::from_be_bytes([a, b, c, d]), port }
}

fn disabled_service_config() -> DhtServiceConfig {
    DhtServiceConfig {
        port: 0,
        bootstrap_nodes: Vec::new(),
        preferred_backend: DhtBackendKind::Disabled,
        force_internal_failure: false,
    }
}

fn node(a: u8, b: u8, c: u8, d: u8, port: u16) -> BootstrapNode {
    BootstrapNode {
        source: format!("{a}.{b}.{c}.{d}:{port}"),
        literal: Some(ipv4(a, b, c, d, port)),
    }
}

#[test]
fn dht_service_model_reconfigure_success_updates_state_and_emits_followups() {
    let initial = DhtServiceConfig {
        port: 6881,
        bootstrap_nodes: vec![node(198, 51, 100, 10, 6881)],
        preferred_backend: DhtBackendKind::InternalPrototype,
        force_internal_failure: false,
    };
    let next = DhtServiceConfig {
        port: 6882,
        bootstrap_nodes: vec![node(203, 0, 113, 20, 6881)],
        preferred_backend: DhtBackendKind::Disabled,
        force_internal_failure: false,
    };
    let mut model = DhtServiceModel::new(initial, 7, Some("old warning".to_string()));

    let reduction = model.update(DhtServiceAction::ReconfigureSucceeded {
        config: next.clone(),
        warning: None,
    });

    assert_eq!(model.config(), &next);
    assert_eq!(model.generation(), 8);
    assert_eq!(model.warning_owned(), None);
    assert_eq!(
        reduction.effects,
        vec![
            DhtServiceEffect::ResetDemandPlanner,
            DhtServiceEffect::PublishStatus,
            DhtServiceEffect::StartDueDemands,
        ]
    );
}

#[test]
fn dht_service_model_reconfigure_request_emits_runtime_build_effect() {
    let initial = disabled_service_config();
    let next = DhtServiceConfig {
        port: 6882,
        bootstrap_nodes: vec![node(203, 0, 113, 21, 6881)],
        preferred_backend: DhtBackendKind::InternalPrototype,
        force_internal_failure: false,
    };
    let mut model = DhtServiceModel::new(initial.clone(), 5, None);

    let reduction = model.update(DhtServiceAction::ReconfigureRequested {
        config: next.clone(),
    });

    assert_eq!(model.config(), &initial);
    assert_eq!(model.generation(), 5);
    assert_eq!(
        reduction.effects,
        vec![DhtServiceEffect::BuildRuntime { config: next }]
    );
}

#[test]
fn dht_service_model_reconfigure_failure_preserves_config_and_generation() {
    let initial = DhtServiceConfig {
        port: 6881,
        bootstrap_nodes: vec![node(198, 51, 100, 10, 6881)],
        preferred_backend: DhtBackendKind::InternalPrototype,
        force_internal_failure: false,
    };
    let mut model = DhtServiceModel::new(initial.clone(), 3, None);

    let reduction = model.update(DhtServiceAction::ReconfigureFailed {
        warning: "runtime unavailable".to_string(),
        runtime_reset: false,
    });

    assert_eq!(model.config(), &initial);
    assert_eq!(model.generation(), 3);
    assert_eq!(
        model.warning_owned().as_deref(),
        Some("runtime unavailable")
    );
    assert_eq!(reduction.effects, vec![DhtServiceEffect::PublishStatus]);
}

#[test]
fn dht_service_model_reconfigure_failure_resets_dependents_when_runtime_was_lost() {
    let initial = DhtServiceConfig {
        port: 6881,
        bootstrap_nodes: vec![node(198, 51, 100, 10, 6881)],
        preferred_backend: DhtBackendKind::InternalPrototype,
        force_internal_failure: false,
    };
    let mut model = DhtServiceModel::new(initial.clone(), 3, None);

    let reduction = model.update(DhtServiceAction::ReconfigureFailed {
        warning: "runtime unavailable".to_string(),
        runtime_reset: true,
    });

    assert_eq!(model.config(), &initial);
    assert_eq!(model.generation(), 3);
    assert_eq!(
        model.warning_owned().as_deref(),
        Some("runtime unavailable")
    );
    assert_eq!(
        reduction.effects,
        vec![
            DhtServiceEffect::ResetDemandPlanner,
            DhtServiceEffect::PublishStatus,
            DhtServiceEffect::StartDueDemands,
        ]
    );
}

#[test]
fn dht_service_model_runtime_warning_only_publishes_status() {
    let config = disabled_service_config();
    let mut model = DhtServiceModel::new(config.clone(), 11, None);

    let reduction = model.update(DhtServiceAction::RuntimeWarning {
        warning: "maintenance failed".to_string(),
    });

    assert_eq!(model.config(), &config);
    assert_eq!(model.generation(), 11);
    assert_eq!(model.warning_owned().as_deref(), Some("maintenance failed"));
    assert_eq!(reduction.effects, vec![DhtServiceEffect::PublishStatus]);
}

#[test]
fn dht_service_state_initializes_helper_models() {
    let config = disabled_service_config();
    let mut state = DhtServiceState::new(
        config.clone(),
        42,
        Some("initial warning".to_string()),
        BASE,
    );

    assert_eq!(state.service.config(), &config);
    assert_eq!(state.service.generation(), 42);
    assert_eq!(
        state.service.warning_owned().as_deref(),
        Some("initial warning")
    );
    assert!(!state.has_draining_demands());
    assert!(state.demand_subscribers.subscribers.is_empty());

    state.record_recent_peers(&[ipv4(198, 51, 100, 30, 6881)], BASE);
    assert_eq!(state.recent_unique_peers.unique_count(BASE), 1);
    state.expire_recent_peers(BASE);
}

#[test]
fn dht_service_state_reduces_demand_commands_only() {
    let config = disabled_service_config();
    let mut state = DhtServiceState::new(config, 0, None, BASE);
    let info_hash = hash_index(89);
    let subscriber_tx = ChannelKey(1);
    let response_tx = ChannelKey(2);
    let demand = DhtDemandState {
        awaiting_metadata: false,
        connected_peers: 0,
    };

    let reduction = state
        .update_demand_command_from_command(
            DhtCommand::RegisterDemand {
                info_hash,
                demand,
                subscriber_tx,
                response_tx,
            },
            BASE,
        )
        .expect("demand command reduction");

    assert_eq!(state.demand_subscribers.subscriber_count(info_hash), 1);
    let mut effects = reduction.effects.into_iter();
    let Some(DhtDemandCommandEffect::SendRegisterResponse {
        response_tx,
        subscriber_id,
    }) = effects.next()
    else {
        panic!("expected register response effect");
    };
    assert_eq!(subscriber_id, Some(1));
    assert_eq!(response_tx, ChannelKey(2));

    let lookup_response_tx = ChannelKey(3);
    assert!(state
        .update_demand_command_from_command(
            DhtCommand::StartGetPeers {
                info_hash,
                response_tx: lookup_response_tx,
            },
            BASE,
        )
        .is_none());
}

#[test]
fn dht_demand_command_register_and_unregister_emit_subscriber_effects() {
    let config = disabled_service_config();
    let mut state = DhtServiceState::new(config, 0, None, BASE);
    let info_hash = hash_index(90);
    let subscriber_tx = ChannelKey(1);
    let response_tx = ChannelKey(2);
    let demand = DhtDemandState {
        awaiting_metadata: true,
        connected_peers: 0,
    };

    let reduction = state.update_demand_command(DhtDemandCommandAction::Register {
        info_hash,
        demand,
        subscriber_tx,
        response_tx,
        now: BASE,
    });

    assert_eq!(state.demand_subscribers.subscriber_count(info_hash), 1);
    let mut effects = reduction.effects.into_iter();
    let Some(DhtDemandCommandEffect::SendRegisterResponse {
        response_tx,
        subscriber_id,
    }) = effects.next()
    else {
        panic!("expected register response effect");
    };
    assert_eq!(subscriber_id, Some(1));
    assert_eq!(response_tx, ChannelKey(2));

    let Some(DhtDemandCommandEffect::ApplySubscriberEffects(subscriber_effects)) = effects.next()
    else {
        panic!("expected subscriber effects");
    };
    assert_eq!(subscriber_effects.len(), 1);
    assert!(matches!(
        subscriber_effects.as_slice(),
        [DemandSubscriberEffect::Registered {
            info_hash: registered_hash,
            demand: registered_demand,
            subscriber_id: 1,
        }] if *registered_hash == info_hash && *registered_demand == demand
    ));
    assert!(matches!(
        effects.next(),
        Some(DhtDemandCommandEffect::ApplyPlannerEffects(_))
    ));
    assert!(matches!(
        effects.next(),
        Some(DhtDemandCommandEffect::StartDueDemands)
    ));
    assert!(effects.next().is_none());

    let metrics = DhtDemandMetrics {
        accepting_new_peers: true,
        total_pieces: 80,
        completed_pieces: 20,
        connected_peers: 3,
        upload_speed_bps: 32_000,
        ..Default::default()
    };
    let reduction =
        state.update_demand_command(DhtDemandCommandAction::UpdateMetrics { info_hash, metrics });
    let mut effects = reduction.effects.into_iter();
    let Some(DhtDemandCommandEffect::ApplyPlannerEffects(planner_effects)) = effects.next() else {
        panic!("expected planner effects");
    };
    assert!(planner_effects.is_empty());
    assert!(effects.next().is_none());
    assert_eq!(
        state
            .demand_planner
            .scheduler
            .entry_snapshot(info_hash)
            .expect("demand entry")
            .metrics,
        metrics
    );

    let reduction = state.update_demand_command(DhtDemandCommandAction::Unregister {
        info_hash,
        subscriber_id: 1,
        now: BASE,
    });

    assert_eq!(state.demand_subscribers.subscriber_count(info_hash), 0);
    let mut effects = reduction.effects.into_iter();
    let Some(DhtDemandCommandEffect::ApplySubscriberEffects(subscriber_effects)) = effects.next()
    else {
        panic!("expected subscriber removal effects");
    };
    assert!(matches!(
        subscriber_effects.as_slice(),
        [DemandSubscriberEffect::SubscriberRemoved { info_hash: removed_hash }]
            if *removed_hash == info_hash
    ));
    assert!(matches!(
        effects.next(),
        Some(DhtDemandCommandEffect::ApplyPlannerEffects(_))
    ));
    assert!(effects.next().is_none());
    assert!(state
        .demand_planner
        .scheduler
        .entry_snapshot(info_hash)
        .is_none());
}

#[test]
fn dht_demand_command_peer_and_finish_actions_emit_planner_followups() {
    let config = disabled_service_config();
    let mut state = DhtServiceState::new(config, 0, None, BASE);
    let info_hash = hash_index(91);
    let subscriber_tx = ChannelKey(1);
    let response_tx = ChannelKey(2);

    let _ = state.update_demand_command(DhtDemandCommandAction::Register {
        info_hash,
        demand: DhtDemandState {
            awaiting_metadata: false,
            connected_peers: 0,
        },
        subscriber_tx,
        response_tx,
        now: BASE,
    });

    let peers = vec![ipv4(127, 0, 0, 91, 6881)];
    let reduction = state.update_demand_command(DhtDemandCommandAction::PeersReceived {
        info_hash,
        peers: peers.clone(),
        now: BASE,
    });

    assert_eq!(state.recent_unique_peers.unique_count(BASE), 1);
    let mut effects = reduction.effects.into_iter();
    assert!(matches!(
        effects.next(),
        Some(DhtDemandCommandEffect::ApplyPlannerEffects(_))
    ));
    let Some(DhtDemandCommandEffect::ApplySubscriberEffects(subscriber_effects)) = effects.next()
    else {
        panic!("expected subscriber delivery effects");
    };
    assert!(matches!(
        subscriber_effects.as_slice(),
        [DemandSubscriberEffect::DeliverPeers {
            info_hash: delivered_hash,
            peers: delivered_peers,
            deliveries,
        }] if *delivered_hash == info_hash
            && delivered_peers == &peers
            && deliveries.len() == 1
    ));
    assert!(effects.next().is_none());

    let reduction = state.update_demand_command(DhtDemandCommandAction::LookupFinished {
        info_hash,
        slice_class: DemandSliceClass::NoConnectedPeers,
        total_peers: 1,
        unique_peers: 1,
        now: BASE,
    });

    let mut effects = reduction.effects.into_iter();
    assert!(matches!(
        effects.next(),
        Some(DhtDemandCommandEffect::ApplyPlannerEffects(_))
    ));
    assert!(matches!(
        effects.next(),
        Some(DhtDemandCommandEffect::StartDueDemands)
    ));
    assert!(effects.next().is_none());
}

#[test]
fn dht_demand_command_prune_dead_subscribers_updates_planner_state() {
    let config = disabled_service_config();
    let mut state = DhtServiceState::new(config, 0, None, BASE);
    let info_hash = hash_index(93);
    let subscriber_tx = ChannelKey(1);
    let response_tx = ChannelKey(2);

    let _ = state.update_demand_command(DhtDemandCommandAction::Register {
        info_hash,
        demand: DhtDemandState {
            awaiting_metadata: false,
            connected_peers: 0,
        },
        subscriber_tx,
        response_tx,
        now: BASE,
    });
    assert_eq!(state.demand_subscribers.subscriber_count(info_hash), 1);
    assert!(state
        .demand_planner
        .scheduler
        .entry_snapshot(info_hash)
        .is_some());

    let reduction = state.update_demand_command(DhtDemandCommandAction::PruneDeadSubscribers {
        info_hash,
        subscriber_ids: vec![1],
        now: BASE,
    });

    assert_eq!(state.demand_subscribers.subscriber_count(info_hash), 0);
    assert!(state
        .demand_planner
        .scheduler
        .entry_snapshot(info_hash)
        .is_none());
    let mut effects = reduction.effects.into_iter();
    let Some(DhtDemandCommandEffect::ApplySubscriberEffects(subscriber_effects)) = effects.next()
    else {
        panic!("expected subscriber effects");
    };
    assert!(matches!(
        subscriber_effects.as_slice(),
        [DemandSubscriberEffect::SubscriberRemoved { info_hash: removed_hash }]
            if *removed_hash == info_hash
    ));
    assert!(matches!(
        effects.next(),
        Some(DhtDemandCommandEffect::ApplyPlannerEffects(_))
    ));
    assert!(effects.next().is_none());
}

#[test]
fn dht_demand_subscriber_effect_delivery_failure_prunes_through_reducer() {
    let config = disabled_service_config();
    let mut state = DhtServiceState::new(config, 0, None, BASE);
    let info_hash = hash_index(94);
    let dead_tx = ChannelKey(4);
    let response_tx = ChannelKey(2);

    let _ = state.update_demand_command(DhtDemandCommandAction::Register {
        info_hash,
        demand: DhtDemandState {
            awaiting_metadata: false,
            connected_peers: 0,
        },
        subscriber_tx: dead_tx,
        response_tx,
        now: BASE,
    });
    assert_eq!(state.demand_subscribers.subscriber_count(info_hash), 1);

    let reduction = state.update_demand_command(DhtDemandCommandAction::PeersReceived {
        info_hash,
        peers: vec![ipv4(127, 0, 0, 94, 6881)],
        now: BASE,
    });
    let subscriber_effects = reduction
        .effects
        .into_iter()
        .find_map(|effect| match effect {
            DhtDemandCommandEffect::ApplySubscriberEffects(effects) => Some(effects),
            _ => None,
        })
        .expect("subscriber delivery effects");
    let mut effects = subscriber_effects.into_iter();
    let Some(DemandSubscriberEffect::DeliverPeers { info_hash: delivered_hash, deliveries, .. }) =
        effects.next()
    else {
        panic!("expected a delivery");
    };
    assert_eq!(deliveries.len(), 1);
    assert_eq!(deliveries[0].subscriber_tx, dead_tx);
    let dead = dead_subscribers(&deliveries, &vec![false]);
    assert_eq!(dead, vec![1]);
    state.apply_delivery_failures(&mut None, delivered_hash, dead, BASE);

    assert_eq!(state.demand_subscribers.subscriber_count(info_hash), 0);
    assert!(state
        .demand_planner
        .scheduler
        .entry_snapshot(info_hash)
        .is_none());
}
