use dht_service::api::{begin_lookup, unreachable_lookup, LookupAnswer};
use dht_service::clock::{Instant, MILLISECOND, SECOND};
use dht_service::collector::drain_listen_time;
use dht_service::config::{DhtBackendKind, DhtServiceConfig};
use dht_service::demand::DhtDemandState;
use dht_service::ids::{AddressFamily, InfoHash, LookupId, PeerAddr};
use dht_service::monitor::{
    demand_planner_monitor_enabled, dht_actor_monitor_enabled, dht_invariant_checks_enabled,
};
use dht_service::peers::PeerSet;
use dht_service::planner::actions::{DemandPlannerAction, DemandPlannerEffect};
use dht_service::planner::crawl::{aggregate_parked_crawl_quality, DemandCrawlState, LookupState};
use dht_service::planner::drain::{demand_drain_duration, demand_drain_no_late_yield_grace};
use dht_service::planner::lookups::{draining_demand_slot_counts, DrainingDemandLookup};
use dht_service::reconfigure::{Reconfiguration, ReconfigureAction, ReconfigureEvent};
use dht_service::runtime::start::hedge_wanted;
use dht_service::slice::{DemandSliceClass, DemandSliceStopReason, LookupQualitySnapshot};
use dht_service::state::demand_command::DhtServiceState;
use dht_service::state::service::{DhtServiceAction, DhtServiceEffect, DhtServiceModel};
use dht_service::table::InfoHashMap;

/// The time at which the tests begin.
const BASE: Instant = 1_000_000 * SECOND;

fn hash_index(index: u32) -> InfoHash {
    let mut bytes = [0u8; 20];
    bytes[..4].copy_from_slice(&index.to_be_bytes());
    InfoHash::from_bytes(bytes)
}

fn ipv4(a: u8, b: u8, c: u8, d: u8, port: u16) -> PeerAddr {
    PeerAddr::V4 { ip: u32::from_be_bytes([a, b, c, d]), port }
}

fn peer_list(key: u8, count: u8) -> Vec<PeerAddr> {
    (0..count)
        .map(|index| ipv4(127, key, index, key.wrapping_add(index), 40_000 + u16::from(index)))
        .collect()
}

fn synthetic_peers(key: u8, count: u8) -> PeerSet {
    let mut peers = PeerSet::new();
    peers.extend(&peer_list(key, count));
    peers
}

fn lookup_state(lookup_id: LookupId, family: AddressFamily, frontier_len: usize) -> LookupState {
    LookupState {
        lookup_id,
        family,
        quality: LookupQualitySnapshot {
            frontier_len,
            inflight_len: 0,
            visited_len: 0,
            eligible_responder_count: 0,
            received_peer_count: 0,
        },
    }
}

#[allow(clippy::too_many_arguments)]
fn insert_synthetic_drain_with_stop_reason(
    draining_demands: &mut InfoHashMap<DrainingDemandLookup>,
    info_hash: InfoHash,
    key: u8,
    lookup_id: LookupId,
    slice_class: DemandSliceClass,
    stop_reason: DemandSliceStopReason,
    unique_peers: u8,
    now: Instant,
) {
    let unique_peers = synthetic_peers(key, unique_peers);
    let unique_peer_count = unique_peers.len();
    let parked_outcome = slice_class.parked_slice_outcome(stop_reason, unique_peer_count, false);
    let duration = demand_drain_duration(
        slice_class,
        stop_reason,
        Some(parked_outcome),
        unique_peer_count,
    )
    .unwrap_or(SECOND);
    draining_demands.insert(
        info_hash,
        DrainingDemandLookup {
            lookup_ids: vec![lookup_id],
            slice_class,
            stop_reason,
            started_at: now,
            total_peers: unique_peer_count,
            initial_unique_peers: unique_peer_count,
            unique_peers,
            deadline: now + duration,
            no_late_yield_deadline: now
                + demand_drain_no_late_yield_grace(slice_class).min(duration),
            initial_inflight_queries: 1,
            score: 1,
        },
    );
}

fn insert_synthetic_drain(
    draining_demands: &mut InfoHashMap<DrainingDemandLookup>,
    info_hash: InfoHash,
    key: u8,
    lookup_id: LookupId,
    slice_class: DemandSliceClass,
    unique_peers: u8,
    now: Instant,
) {
    insert_synthetic_drain_with_stop_reason(
        draining_demands,
        info_hash,
        key,
        lookup_id,
        slice_class,
        DemandSliceStopReason::WallTime,
        unique_peers,
        now,
    );
}

fn config(port: u16, force_internal_failure: bool) -> DhtServiceConfig {
    DhtServiceConfig {
        port,
        bootstrap_nodes: Vec::new(),
        preferred_backend: DhtBackendKind::InternalPrototype,
        force_internal_failure,
    }
}

fn disabled(port: u16) -> DhtServiceConfig {
    DhtServiceConfig { preferred_backend: DhtBackendKind::Disabled, ..config(port, false) }
}

#[test]
fn active_service_same_port_reconfigure_drops_old_runtime_before_binding() {
    let (mut reconfiguration, action) =
        Reconfiguration::begin(true, &config(6881, false), config(6881, false));
    assert_eq!(action, ReconfigureAction::Release);
    assert_eq!(
        reconfiguration.advance(ReconfigureEvent::Released),
        ReconfigureAction::BuildNext
    );
    assert_eq!(
        reconfiguration.advance(ReconfigureEvent::Built(None)),
        ReconfigureAction::Finish
    );
    assert!(reconfiguration.built);
    let DhtServiceAction::ReconfigureSucceeded { config: next, warning } =
        reconfiguration.into_service_action()
    else {
        panic!("expected a success");
    };
    assert_eq!(next, config(6881, false));
    assert_eq!(warning, None);
}

#[test]
fn active_service_same_port_reconfigure_waits_for_inflight_transport_users() {
    let (mut reconfiguration, _) =
        Reconfiguration::begin(true, &config(6881, false), config(6881, false));
    assert_eq!(
        reconfiguration.advance(ReconfigureEvent::Built(None)),
        ReconfigureAction::Release
    );
    assert!(!reconfiguration.built);
}

#[test]
fn active_service_different_port_reconfigure_releases_old_runtime_after_success() {
    let (mut reconfiguration, action) =
        Reconfiguration::begin(true, &config(6881, false), config(0, false));
    assert_eq!(action, ReconfigureAction::BuildNext);
    assert_eq!(
        reconfiguration.advance(ReconfigureEvent::Built(Some("mapped".to_string()))),
        ReconfigureAction::Finish
    );
    assert!(reconfiguration.built && !reconfiguration.released);
    let action = reconfiguration.into_service_action();
    assert!(matches!(
        action,
        DhtServiceAction::ReconfigureSucceeded { warning: Some(warning), .. }
            if warning == "mapped"
    ));
}

#[test]
fn active_service_same_port_reconfigure_failure_restores_previous_runtime() {
    let (mut reconfiguration, _) =
        Reconfiguration::begin(true, &config(6881, false), config(6881, true));
    reconfiguration.advance(ReconfigureEvent::Released);
    let failed = ReconfigureEvent::BuildFailed("forced internal backend failure".to_string());
    assert_eq!(reconfiguration.advance(failed), ReconfigureAction::BuildPrevious);
    assert_eq!(
        reconfiguration.advance(ReconfigureEvent::Built(None)),
        ReconfigureAction::Finish
    );
    assert!(reconfiguration.built);

    let mut model = DhtServiceModel::new(config(6881, false), 0, None);
    let reduction = model.update(reconfiguration.into_service_action());
    assert_eq!(model.generation(), 0);
    assert_eq!(model.config(), &config(6881, false));
    assert_eq!(model.warning_owned().as_deref(), Some("forced internal backend failure"));
    assert_eq!(
        reduction.effects,
        vec![
            DhtServiceEffect::ResetDemandPlanner,
            DhtServiceEffect::PublishStatus,
            DhtServiceEffect::StartDueDemands,
        ]
    );
}

#[test]
fn failed_restoration_leaves_the_first_warning() {
    let (mut reconfiguration, _) =
        Reconfiguration::begin(true, &config(6881, false), config(6881, false));
    reconfiguration.advance(ReconfigureEvent::Released);
    reconfiguration.advance(ReconfigureEvent::BuildFailed("first".to_string()));
    assert_eq!(
        reconfiguration.advance(ReconfigureEvent::BuildFailed("second".to_string())),
        ReconfigureAction::Finish
    );
    assert!(!reconfiguration.built);
    assert!(matches!(
        reconfiguration.into_service_action(),
        DhtServiceAction::ReconfigureFailed { warning, runtime_reset: true } if warning == "first"
    ));
}

#[test]
fn reconfigure_without_collision_keeps_the_runtime_on_failure() {
    for (runtime_available, previous, next) in [
        (false, config(6881, false), config(6881, false)),
        (true, config(6881, false), config(6882, false)),
        (true, config(0, false), config(0, false)),
        (true, config(6881, false), disabled(6881)),
    ] {
        let (mut reconfiguration, action) =
            Reconfiguration::begin(runtime_available, &previous, next);
        assert_eq!(action, ReconfigureAction::BuildNext);
        assert_eq!(
            reconfiguration.advance(ReconfigureEvent::BuildFailed("in use".to_string())),
            ReconfigureAction::Finish
        );
        assert!(!reconfiguration.built && !reconfiguration.released);
        assert!(matches!(
            reconfiguration.into_service_action(),
            DhtServiceAction::ReconfigureFailed { warning, runtime_reset: false }
                if warning == "in use"
        ));
    }
}

#[test]
fn single_lookups_are_answered_without_a_service() {
    assert_eq!(begin_lookup(true, DhtBackendKind::Disabled), LookupAnswer::NoPeers);
    assert_eq!(begin_lookup(false, DhtBackendKind::Disabled), LookupAnswer::Ask);
    assert_eq!(begin_lookup(true, DhtBackendKind::InternalPrototype), LookupAnswer::Ask);
    assert_eq!(unreachable_lookup(DhtBackendKind::Disabled), LookupAnswer::NoPeers);
    assert_eq!(unreachable_lookup(DhtBackendKind::InternalPrototype), LookupAnswer::Refused);
}

#[test]
fn hedge_is_given_up_when_nobody_listens() {
    assert!(hedge_wanted(false, true));
    assert!(!hedge_wanted(true, true));
    assert!(!hedge_wanted(false, false));
    assert_eq!(drain_listen_time(), 5_250 * MILLISECOND);
}

#[test]
fn later_family_is_parked_with_the_rest_of_the_lookup() {
    let info_hash = hash_index(1);
    let class = DemandSliceClass::NoConnectedPeers;
    let mut state = DhtServiceState::new(disabled(0), 0, None, BASE);
    state.demand_planner.scheduler.register(
        info_hash,
        DhtDemandState { awaiting_metadata: false, connected_peers: 0 },
        BASE,
    );
    state.start_due_demands(true, BASE);
    state.lookup_start_resolved(info_hash, class, Some(vec![LookupId(1)]), BASE);
    let mut lookup_ids = vec![LookupId(1)];
    let attached = state.lookup_family_attached(
        info_hash,
        class,
        true,
        false,
        &mut lookup_ids,
        LookupId(2),
        true,
    );
    assert_eq!(attached, Some(LookupId(2)));
    assert_eq!(lookup_ids, vec![LookupId(1), LookupId(2)]);
    assert_eq!(state.slice_metrics.no_connected_peers.fresh_starts, 1);

    let reduction = state
        .update_demand_planner_action(DemandPlannerAction::DemandSubscriberRemoved { info_hash });
    let Some(DemandPlannerEffect::ParkActiveLookup(park)) = reduction.effects.into_iter().next()
    else {
        panic!("expected a parking");
    };
    assert_eq!(park.lookup_ids, lookup_ids);

    let late = state.lookup_family_attached(
        info_hash,
        class,
        true,
        false,
        &mut lookup_ids,
        LookupId(3),
        false,
    );
    assert_eq!(late, None);
    assert_eq!(lookup_ids.len(), 2);
    assert!(state.demand_planner.active.is_empty());
}

#[test]
fn drains_are_counted_by_class() {
    let mut draining = InfoHashMap::new();
    for (index, class) in [
        (1, DemandSliceClass::NoConnectedPeers),
        (2, DemandSliceClass::AwaitingMetadata),
        (3, DemandSliceClass::NoConnectedPeers),
    ] {
        insert_synthetic_drain(
            &mut draining,
            hash_index(index),
            index as u8,
            LookupId(u64::from(index)),
            class,
            1,
            BASE,
        );
    }
    let counts = draining_demand_slot_counts(&draining);
    assert_eq!(counts.no_connected_peers, 2);
    assert_eq!(counts.awaiting_metadata, 1);
    assert_eq!(counts.routine_refresh, 0);
}

#[test]
fn parked_crawl_quality_adds_up() {
    let mut crawl = DemandCrawlState::new(BASE, DemandSliceClass::RoutineRefresh);
    crawl.ipv4 = Some(lookup_state(LookupId(1), AddressFamily::Ipv4, 3));
    crawl.ipv6 = Some(lookup_state(LookupId(2), AddressFamily::Ipv6, 4));
    let quality = aggregate_parked_crawl_quality(&crawl);
    assert_eq!(quality.frontier_len, 7);
    assert_eq!(quality.inflight_len, 0);
}

#[test]
fn nothing_is_monitored() {
    assert!(!dht_actor_monitor_enabled());
    assert!(!demand_planner_monitor_enabled());
    assert!(!dht_invariant_checks_enabled());
}
