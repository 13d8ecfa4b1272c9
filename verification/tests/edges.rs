use dht_service::clock::{duration_ms, multiply_duration, Instant, MILLISECOND, SECOND};
use dht_service::codec::{
    configured_node_id, configured_or_persisted_local_node_id, optional_info_hash_label,
    preferred_node_id, short_info_hash,
};
use dht_service::config::{
    backend_warning, collect_bootstrap_nodes, forced_internal_backend_error, plan_runtime_build,
    resolved_bootstrap_summary, BootstrapNode, BootstrapSummary, DhtBackendKind, DhtServiceConfig,
    RuntimeBuildPlan, Settings,
};
use dht_service::driver::startup_failure_warning;
use dht_service::fuzzing::{instant_from_ms, reduce_lifecycle_for_fuzzing};
use dht_service::ids::{id_bytes, InfoHash, NodeId, PeerAddr};
use dht_service::lifecycle::DhtLifecycleEffect;
use dht_service::status::{
    build_wave_telemetry, configured_status_from_config, configured_status_from_settings,
    disabled_status, publish_status, DhtStatus, RuntimeReport,
};

/// The time at which the tests begin.
const BASE: Instant = 1_000_000 * SECOND;

fn ipv4(a: u8, b: u8, c: u8, d: u8, port: u16) -> PeerAddr {
    PeerAddr::V4 { ip: u32::from_be_bytes([a, b, c, d]), port }
}

const NODE_ID_TEXT: &str = "000102030405060708090a0b0c0d0e0fF0f1F2f3";

fn node_id() -> NodeId {
    let mut bytes = [0u8; 20];
    for (i, byte) in bytes.iter_mut().enumerate() {
        *byte = if i < 16 { i as u8 } else { 0xf0 + (i as u8 - 16) };
    }
    NodeId { bytes }
}

#[test]
fn info_hash_label_is_its_first_four_bytes() {
    let mut bytes = [0u8; 20];
    bytes[0] = 0xde;
    bytes[1] = 0xad;
    bytes[2] = 0x0b;
    bytes[3] = 0xef;
    bytes[4] = 0x99;
    let info_hash = InfoHash::from_bytes(bytes);
    assert_eq!(short_info_hash(info_hash), "dead0bef");
    assert_eq!(optional_info_hash_label(Some(info_hash)), "dead0bef");
    assert_eq!(optional_info_hash_label(None), "");
}

#[test]
fn configured_node_id_reads_exactly_forty_digits() {
    assert_eq!(configured_node_id(NODE_ID_TEXT), Some(node_id()));
    assert_eq!(configured_node_id(""), None);
    assert_eq!(configured_node_id("00"), None);
    assert_eq!(configured_node_id(&NODE_ID_TEXT[..39]), None);
    assert_eq!(configured_node_id(&format!("{NODE_ID_TEXT}00")), None);
    assert_eq!(configured_node_id(&NODE_ID_TEXT.replace('0', "g")), None);
}

#[test]
fn node_id_text_reads_back_the_labelled_bytes() {
    let text = short_info_hash(InfoHash::from_bytes(node_id().bytes));
    assert_eq!(text, "00010203");
    assert_eq!(&NODE_ID_TEXT[..8], text);
}

#[test]
fn configured_node_id_goes_before_the_persisted_one() {
    let persisted = NodeId { bytes: [7u8; 20] };
    assert_eq!(
        configured_or_persisted_local_node_id(Some(NODE_ID_TEXT), Some(persisted)),
        node_id()
    );
    assert_eq!(configured_or_persisted_local_node_id(Some("zz"), Some(persisted)), persisted);
    assert_eq!(configured_or_persisted_local_node_id(None, Some(persisted)), persisted);
    assert_eq!(preferred_node_id(Some("zz"), None), None);
    assert_eq!(preferred_node_id(None, Some(persisted)), Some(persisted));
}

#[test]
fn random_node_ids_differ() {
    let first = configured_or_persisted_local_node_id(None, None);
    let second = configured_or_persisted_local_node_id(None, None);
    assert_ne!(first, second);
}

#[test]
fn ids_are_read_from_exactly_twenty_bytes() {
    assert_eq!(id_bytes(&vec![3u8; 20]), Some([3u8; 20]));
    assert_eq!(id_bytes(&vec![3u8; 19]), None);
    assert_eq!(InfoHash::from_vec(&vec![3u8; 20]), Some(InfoHash::from_bytes([3u8; 20])));
    assert_eq!(InfoHash::from_vec(&vec![3u8; 21]), None);
}

#[test]
fn bootstrap_addresses_are_taken_once_in_order() {
    let a = ipv4(10, 0, 0, 1, 1);
    let b = ipv4(10, 0, 0, 2, 1);
    let c = PeerAddr::V6 { segments: 9, port: 1, flow_info: 0, scope_id: 0 };
    let resolved =
        collect_bootstrap_nodes(&vec![Some(vec![b, a, b]), None, Some(vec![a, c]), Some(vec![])]);
    assert_eq!(resolved, vec![b, a, c]);
    let summary = resolved_bootstrap_summary(&resolved);
    assert_eq!((summary.total, summary.ipv4, summary.ipv6), (3, 2, 1));
}

fn config(backend: DhtBackendKind, force_internal_failure: bool) -> DhtServiceConfig {
    DhtServiceConfig {
        port: 6881,
        bootstrap_nodes: vec![
            BootstrapNode {
                source: "10.0.0.1:1".to_string(),
                literal: Some(ipv4(10, 0, 0, 1, 1)),
            },
            BootstrapNode { source: "node.example.invalid:1".to_string(), literal: None },
        ],
        preferred_backend: backend,
        force_internal_failure,
    }
}

#[test]
fn runtime_build_follows_the_configuration() {
    let RuntimeBuildPlan::Fail(error) =
        plan_runtime_build(&config(DhtBackendKind::Disabled, true))
    else {
        panic!("expected a failure");
    };
    assert_eq!(error, "forced internal backend failure");
    assert_eq!(
        startup_failure_warning(&error),
        "DHT startup failed: forced internal backend failure"
    );

    let RuntimeBuildPlan::Disabled { bootstrap } =
        plan_runtime_build(&config(DhtBackendKind::Disabled, false))
    else {
        panic!("expected no runtime");
    };
    assert_eq!((bootstrap.total, bootstrap.ipv4, bootstrap.ipv6), (2, 1, 0));

    for backend in [DhtBackendKind::InternalPrototype, DhtBackendKind::Mainline] {
        let RuntimeBuildPlan::Bind { port, warning } = plan_runtime_build(&config(backend, false))
        else {
            panic!("expected a runtime");
        };
        assert_eq!(port, 6881);
        assert_eq!(warning.is_some(), backend == DhtBackendKind::Mainline);
        assert_eq!(warning, backend_warning(backend));
    }
    assert_eq!(forced_internal_backend_error(&config(DhtBackendKind::Mainline, false)), None);
}

#[test]
fn configured_status_promises_what_the_settings_say() {
    let settings = Settings {
        client_port: 6881,
        bootstrap_nodes: config(DhtBackendKind::Mainline, false).bootstrap_nodes,
        dht_backend: DhtBackendKind::Mainline,
    };
    let status = configured_status_from_settings(&settings);
    assert_eq!(status.generation, 0);
    assert_eq!(status.warning, None);
    assert!(status.health.enabled);
    assert_eq!(status.health.backend, DhtBackendKind::Mainline);
    assert_eq!(status.health.preferred_backend, Some(DhtBackendKind::Mainline));
    assert_eq!(status.health.exported_bootstrap_nodes, 2);
    assert_eq!(status.health.ipv4_bootstrap_nodes, 1);
    assert_eq!(status.health.ipv6_bootstrap_nodes, 0);
    assert_eq!(
        status,
        configured_status_from_config(&config(DhtBackendKind::Mainline, false))
    );
    let disabled = disabled_status();
    assert!(!disabled.health.enabled);
    assert_eq!(disabled.health.preferred_backend, Some(DhtBackendKind::Disabled));
}

fn report() -> RuntimeReport {
    RuntimeReport {
        backend: DhtBackendKind::InternalPrototype,
        bootstrap: BootstrapSummary { total: 9, ipv4: 5, ipv6: 4 },
        bound_family_count: 2,
        active_lookups: 6,
        active_user_lookups: 3,
        inflight_ipv4_queries: 11,
        inflight_ipv6_queries: 7,
    }
}

#[test]
fn runtime_brings_its_own_backend_and_bootstrap_nodes() {
    let mut status = DhtStatus::default();
    publish_status(
        &mut status,
        Some(&report()),
        None,
        4,
        DhtBackendKind::Mainline,
        BootstrapSummary { total: 1, ipv4: 1, ipv6: 0 },
    );
    assert_eq!(status.generation, 4);
    assert_eq!(status.health.backend, DhtBackendKind::InternalPrototype);
    assert_eq!(status.health.preferred_backend, Some(DhtBackendKind::Mainline));
    assert!(status.health.enabled);
    assert_eq!(status.health.exported_bootstrap_nodes, 9);
    assert_eq!(status.health.bound_family_count, 2);
    assert_eq!(status.health.inflight_lookups, 6);

    let telemetry = build_wave_telemetry(Some(&report()), 1, 1);
    assert_eq!(telemetry.active_lookups, 6);
    assert_eq!(telemetry.active_user_lookups, 3);
    assert_eq!(telemetry.inflight_ipv4_queries, 11);
    assert_eq!(telemetry.inflight_ipv6_queries, 7);
    assert_eq!(telemetry.demand_power_multiplier, 1);
}

#[test]
fn times_are_counted_in_nanoseconds() {
    assert_eq!(duration_ms(1_500 * MILLISECOND + 999_999), 1_500);
    assert_eq!(multiply_duration(2 * SECOND, 3), 6 * SECOND);
    assert_eq!(multiply_duration(u64::MAX, 2), u64::MAX);
}

#[test]
fn fuzzing_input_stands_for_lifecycle_actions() {
    // Two steps: a health tick, then a failed bootstrap with the warning "ab", due after 1 s.
    let bytes = [1u8, 5, 2, 2, 0, 1, 0, 0, 3, 232];
    assert_eq!(
        reduce_lifecycle_for_fuzzing(&bytes, BASE),
        vec![
            DhtLifecycleEffect::PublishStatus,
            DhtLifecycleEffect::ExpireRecentUniquePeers,
            DhtLifecycleEffect::SaveRuntimeState,
            DhtLifecycleEffect::RecordRuntimeWarning {
                warning: "ab".to_string(),
                publish_status: false,
            },
            DhtLifecycleEffect::SetStartupBootstrapDue(BASE + SECOND),
        ]
    );
    // Behind the end of the input there are zeros: a bootstrap that is due at once.
    assert_eq!(
        reduce_lifecycle_for_fuzzing(&[], BASE),
        vec![DhtLifecycleEffect::RunStartupBootstrap]
    );
    assert_eq!(instant_from_ms(BASE, 600_001), BASE + MILLISECOND);
}
