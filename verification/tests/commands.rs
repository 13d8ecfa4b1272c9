use dht_service::codec::short_info_hash;
use dht_service::commands::{
    DhtCommand, DhtRuntimeCommandAction, DhtRuntimeCommandEffect, DhtRuntimeCommandModel,
    DhtRuntimeLookupFamilyRequest,
};
use dht_service::demand::DhtDemandState;
use dht_service::ids::{AddressFamily, InfoHash, LookupId, PeerAddr};
use dht_service::peers::PeerSet;
use dht_service::slice::{DemandSliceClass, DemandSliceStopReason};
use dht_service::subscribers::ChannelKey;

fn hash_index(index: u32) -> InfoHash {
    let mut bytes = [0u8; 20];
    bytes[..4].copy_from_slice(&index.to_be_bytes());
    InfoHash::from_bytes(bytes)
}

fn ipv4(a: u8, b: u8, c: u8, d: u8, port: u16) -> PeerAddr {
    PeerAddr::V4 { ip: u32::from_be_bytes([a, b, c, d]), port }
}

fn peer_list(key: u8, count: u8) -> Vec<PeerAddr> {
    (0..count)
        .map(|index| ipv4(127, key, index, key.wrapping_add(index), 40_000 + u16::from(index)))
        .collect()
}

fn synthetic_peers(key: u8, count: u8) -> PeerSet {
    let mut peers = PeerSet::new();
    peers.extend(&peer_list(key, count));
    peers
}

#[test]
fn dht_runtime_command_model_routes_start_get_peers_and_announce() {
    let info_hash = hash_index(44);
    let lookup_response_tx = ChannelKey(1);

    let mut reduction = DhtRuntimeCommandModel::update(DhtRuntimeCommandAction::StartGetPeers {
        info_hash,
        response_tx: lookup_response_tx,
    });

    assert_eq!(reduction.effects.len(), 1);
    match reduction.effects.pop().expect("start get peers effect") {
        DhtRuntimeCommandEffect::StartGetPeers {
            info_hash: effect_hash,
            ..
        } => assert_eq!(effect_hash, info_hash),
        _ => panic!("expected start get peers effect"),
    }

    let announce_response_tx = ChannelKey(2);
    let mut reduction = DhtRuntimeCommandModel::update(DhtRuntimeCommandAction::AnnouncePeer {
        info_hash,
        port: Some(6881),
        response_tx: announce_response_tx,
    });

    assert_eq!(reduction.effects.len(), 1);
    match reduction.effects.pop().expect("announce effect") {
        DhtRuntimeCommandEffect::AnnouncePeer {
            info_hash: effect_hash,
            port,
            ..
        } => {
            assert_eq!(effect_hash, info_hash);
            assert_eq!(port, Some(6881));
        }
        _ => panic!("expected announce peer effect"),
    }
}

#[test]
fn dht_runtime_command_model_routes_family_attach_and_cancel() {
    let info_hash = hash_index(45);
    let merged_tx = ChannelKey(3);
    let lookup_ids = vec![LookupId(5)];
    let expected_lookup_ids = lookup_ids.clone();
    let first_batch_seen = false;
    let expected_first_batch_seen = first_batch_seen;
    let accepting_families = true;
    let expected_accepting_families = accepting_families;

    let mut reduction = DhtRuntimeCommandModel::update(
        DhtRuntimeCommandAction::StartGetPeersFamily(DhtRuntimeLookupFamilyRequest {
            info_hash,
            family: AddressFamily::Ipv6,
            slice_class: DemandSliceClass::AwaitingMetadata,
            record_metrics: true,
            merged_tx,
            lookup_ids,
            first_batch_seen,
            accepting_families,
        }),
    );

    assert_eq!(reduction.effects.len(), 1);
    match reduction.effects.pop().expect("attach family effect") {
        DhtRuntimeCommandEffect::AttachLookupFamily(request) => {
            assert_eq!(request.info_hash, info_hash);
            assert_eq!(request.family, AddressFamily::Ipv6);
            assert_eq!(request.slice_class, DemandSliceClass::AwaitingMetadata);
            assert!(request.record_metrics);
            assert_eq!(request.lookup_ids, expected_lookup_ids);
            assert_eq!(request.first_batch_seen, expected_first_batch_seen);
            assert_eq!(request.accepting_families, expected_accepting_families);
        }
        _ => panic!("expected attach lookup family effect"),
    }

    let mut reduction = DhtRuntimeCommandModel::update(DhtRuntimeCommandAction::CancelLookups {
        lookup_ids: vec![LookupId(7), LookupId(9)],
    });

    assert_eq!(reduction.effects.len(), 1);
    match reduction.effects.pop().expect("cancel effect") {
        DhtRuntimeCommandEffect::CancelLookups { lookup_ids } => {
            assert_eq!(lookup_ids, vec![LookupId(7), LookupId(9)]);
        }
        _ => panic!("expected cancel lookups effect"),
    }
}

#[test]
fn dht_runtime_command_model_routes_planner_work_with_start_due_followup() {
    let info_hash = hash_index(46);
    let lookup_ids = vec![LookupId(11)];
    let expected_lookup_ids = lookup_ids.clone();
    let mut unique_peers = PeerSet::new();
    unique_peers.insert(ipv4(127, 0, 0, 1, 6881));

    let reduction = DhtRuntimeCommandModel::update(DhtRuntimeCommandAction::ParkDemandLookups {
        info_hash,
        slice_class: DemandSliceClass::NoConnectedPeers,
        stop_reason: DemandSliceStopReason::WallTime,
        total_peers: 3,
        unique_peers,
        lookup_ids,
    });

    assert_eq!(reduction.effects.len(), 2);
    match &reduction.effects[0] {
        DhtRuntimeCommandEffect::ParkDemandLookups {
            info_hash: effect_hash,
            slice_class,
            stop_reason,
            total_peers,
            unique_peers: effect_unique_peers,
            lookup_ids,
        } => {
            assert_eq!(*effect_hash, info_hash);
            assert_eq!(*slice_class, DemandSliceClass::NoConnectedPeers);
            assert_eq!(*stop_reason, DemandSliceStopReason::WallTime);
            assert_eq!(*total_peers, 3);
            assert_eq!(effect_unique_peers.len(), 1);
            assert!(effect_unique_peers.contains(&ipv4(127, 0, 0, 1, 6881)));
            assert_eq!(*lookup_ids, expected_lookup_ids);
        }
        _ => panic!("expected park demand lookups effect"),
    }
    assert!(matches!(
        reduction.effects[1],
        DhtRuntimeCommandEffect::StartDueDemands
    ));

    let reduction =
        DhtRuntimeCommandModel::update(DhtRuntimeCommandAction::FinalizeDrainedDemandLookups {
            info_hash,
        });
    assert_eq!(reduction.effects.len(), 2);
    assert!(matches!(
        reduction.effects[0],
        DhtRuntimeCommandEffect::FinalizeDrainedDemandLookups { info_hash: effect_hash }
            if effect_hash == info_hash
    ));
    assert!(matches!(
        reduction.effects[1],
        DhtRuntimeCommandEffect::StartDueDemands
    ));
}

#[derive(Default)]
struct RuntimeCommandReplay {
    transcript: Vec<String>,
}

impl RuntimeCommandReplay {
    fn action(&mut self, label: &'static str, action: DhtRuntimeCommandAction) {
        let reduction = DhtRuntimeCommandModel::update(action);
        self.transcript.push(format!(
            "{label}: effects=[{}]",
            runtime_effect_labels(&reduction.effects).join(","),
        ));
    }

    fn command(&mut self, label: &'static str, command: DhtCommand) {
        let Some(reduction) = DhtRuntimeCommandModel::update_command(command) else {
            self.transcript
                .push(format!("{label}: effects=[not-runtime]"));
            return;
        };
        self.transcript.push(format!(
            "{label}: effects=[{}]",
            runtime_effect_labels(&reduction.effects).join(","),
        ));
    }

    fn render(&self) -> String {
        self.transcript.join("\n")
    }
}

fn runtime_effect_labels(effects: &[DhtRuntimeCommandEffect]) -> Vec<String> {
    effects
        .iter()
        .map(|effect| match effect {
            DhtRuntimeCommandEffect::StartGetPeers { info_hash, .. } => {
                format!("start-get-peers:{}", short_info_hash(*info_hash))
            }
            DhtRuntimeCommandEffect::AttachLookupFamily(request) => format!(
                "attach-family:{}:{:?}:{:?}:metrics{}:ids{}:first{}:accept{}",
                short_info_hash(request.info_hash),
                request.family,
                request.slice_class,
                request.record_metrics,
                request.lookup_ids.len(),
                request.first_batch_seen,
                request.accepting_families,
            ),
            DhtRuntimeCommandEffect::CancelLookups { lookup_ids } => format!(
                "cancel:{}",
                lookup_ids
                    .iter()
                    .map(|lookup_id| lookup_id.0.to_string())
                    .collect::<Vec<_>>()
                    .join("|"),
            ),
            DhtRuntimeCommandEffect::ParkDemandLookups {
                info_hash,
                slice_class,
                stop_reason,
                total_peers,
                unique_peers,
                lookup_ids,
            } => format!(
                "park:{}:{:?}:{:?}:total{}:unique{}:ids{}",
                short_info_hash(*info_hash),
                slice_class,
                stop_reason,
                total_peers,
                unique_peers.len(),
                lookup_ids.len(),
            ),
            DhtRuntimeCommandEffect::FinalizeDrainedDemandLookups { info_hash } => {
                format!("finalize-drain:{}", short_info_hash(*info_hash))
            }
            DhtRuntimeCommandEffect::AnnouncePeer {
                info_hash, port, ..
            } => {
                format!("announce:{}:{port:?}", short_info_hash(*info_hash))
            }
            DhtRuntimeCommandEffect::StartDueDemands => "start-due".to_string(),
        })
        .collect()
}

fn family_request(
    info_hash: InfoHash,
    family: AddressFamily,
    slice_class: DemandSliceClass,
    lookup_ids: Vec<LookupId>,
    first_batch_seen: bool,
    accepting_families: bool,
) -> DhtRuntimeLookupFamilyRequest {
    DhtRuntimeLookupFamilyRequest {
        info_hash,
        family,
        slice_class,
        record_metrics: true,
        merged_tx: ChannelKey(1),
        lookup_ids,
        first_batch_seen,
        accepting_families,
    }
}

#[test]
fn dht_runtime_command_replays_effect_shape_deterministically() {
    let mut replay = RuntimeCommandReplay::default();
    let primary_hash = hash_index(301);
    let demand_hash = hash_index(302);

    replay.command(
        "command-start-get-peers",
        DhtCommand::StartGetPeers {
            info_hash: primary_hash,
            response_tx: ChannelKey(2),
        },
    );

    replay.command(
        "command-register-demand",
        DhtCommand::RegisterDemand {
            info_hash: primary_hash,
            demand: DhtDemandState {
                awaiting_metadata: false,
                connected_peers: 0,
            },
            subscriber_tx: ChannelKey(3),
            response_tx: ChannelKey(4),
        },
    );

    replay.action(
        "attach-ipv6-family",
        DhtRuntimeCommandAction::StartGetPeersFamily(family_request(
            demand_hash,
            AddressFamily::Ipv6,
            DemandSliceClass::AwaitingMetadata,
            vec![LookupId(11), LookupId(12)],
            true,
            true,
        )),
    );
    replay.action(
        "cancel-lookups",
        DhtRuntimeCommandAction::CancelLookups {
            lookup_ids: vec![LookupId(11), LookupId(12)],
        },
    );
    replay.action(
        "park-demand-lookups",
        DhtRuntimeCommandAction::ParkDemandLookups {
            info_hash: demand_hash,
            slice_class: DemandSliceClass::NoConnectedPeers,
            stop_reason: DemandSliceStopReason::WallTime,
            total_peers: 5,
            unique_peers: synthetic_peers(42, 3),
            lookup_ids: vec![LookupId(21), LookupId(22)],
        },
    );
    replay.action(
        "finalize-drained",
        DhtRuntimeCommandAction::FinalizeDrainedDemandLookups {
            info_hash: demand_hash,
        },
    );

    replay.action(
        "announce-peer",
        DhtRuntimeCommandAction::AnnouncePeer {
            info_hash: primary_hash,
            port: Some(6881),
            response_tx: ChannelKey(5),
        },
    );

    let expected = r#"
command-start-get-peers: effects=[start-get-peers:0000012d]
command-register-demand: effects=[not-runtime]
attach-ipv6-family: effects=[attach-family:0000012e:Ipv6:AwaitingMetadata:metricstrue:ids2:firsttrue:accepttrue]
cancel-lookups: effects=[cancel:11|12]
park-demand-lookups: effects=[park:0000012e:NoConnectedPeers:WallTime:total5:unique3:ids2,start-due]
finalize-drained: effects=[finalize-drain:0000012e,start-due]
announce-peer: effects=[announce:0000012d:Some(6881)]
"#
    .trim();
    let rendered = replay.render();
    assert_eq!(rendered, expected);
}
