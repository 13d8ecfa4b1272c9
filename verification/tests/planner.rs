use dht_service::clock::{Instant, MILLISECOND, SECOND};
use dht_service::demand::{DhtDemandMetrics, DhtDemandState};
use dht_service::ids::{AddressFamily, InfoHash, LookupId, PeerAddr};
use dht_service::limits::{
    DHT_AWAITING_METADATA_SLICE_WALL_TIME, DHT_DEMAND_DRAIN_NO_LATE_YIELD_GRACE,
    DHT_DEMAND_FAIRNESS_AGE, DHT_DEMAND_LOOKUP_SLOT_COUNT, DHT_DEMAND_SPARE_RESEARCH_MIN_INTERVAL,
    DHT_NO_CONNECTED_PEERS_BASE_INTERVAL, DHT_NO_CONNECTED_PEERS_LAUNCH_BURST,
    DHT_NO_CONNECTED_PEERS_SLICE_WALL_TIME, DHT_NO_CONNECTED_PEERS_SLOT_CAP,
    DHT_ROUTINE_LOOKUP_SLOT_CAP, DHT_ROUTINE_SLICE_WALL_TIME,
    DHT_ROUTINE_STALLED_EMPTY_SLICE_RESET_THRESHOLD,
};
use dht_service::peers::PeerSet;
use dht_service::planner::actions::{
    DemandDrainAdmissionSnapshot, DemandPlannerAction, DemandPlannerEffect,
};
use dht_service::planner::budget::DemandPlannerBudget;
use dht_service::planner::counts::DemandSlotCounts;
use dht_service::planner::crawl::{DemandCrawlState, LookupState};
use dht_service::planner::drain::{
    demand_drain_admission_snapshot, demand_drain_duration, demand_drain_no_late_yield_grace,
    demand_drain_score, drained_demand_lookup_ready_for_finalize, parked_slice_outcome_for_quality,
    store_parked_lookup_states, take_parked_family_state,
};
use dht_service::planner::history::DemandPlannerState;
use dht_service::planner::lookups::{ActiveDemandLookup, DrainedDemandOutcome, DrainingDemandLookup};
use dht_service::planner::metrics::DemandSliceMetrics;
use dht_service::planner::model::DemandPlannerModel;
use dht_service::planner::plan::DemandLookupPlan;
use dht_service::planner::selection::{
    candidate_selection_reason, select_due_demand_launches, select_due_demand_launches_with_stats,
    select_spare_research_launches,
};
use dht_service::scheduler::{DemandEntrySnapshot, DemandFinishMode, DueDemandCandidate};
use dht_service::slice::{
    AggregateLookupQualitySnapshot, DemandCrawlResetReason, DemandParkedSliceOutcome,
    DemandSelectionReason, DemandSliceClass, DemandSliceStopReason, LookupQualitySnapshot,
};
use dht_service::table::InfoHashMap;

/// The time at which the tests begin.
const BASE: Instant = 1_000_000 * SECOND;

fn hash_index(index: u32) -> InfoHash {
    let mut bytes = [0u8; 20];
    bytes[..4].copy_from_slice(&index.to_be_bytes());
    InfoHash::from_bytes(bytes)
}

fn ipv4(a: u8, b: u8, c: u8, d: u8, port: u16) -> PeerAddr {
    PeerAddr::V4 { ip: u32::from_be_bytes([a, b, c, d]), port }
}

fn peer_list(key: u8, count: u8) -> Vec<PeerAddr> {
    (0..count)
        .map(|index| ipv4(127, key, index, key.wrapping_add(index), 40_000 + u16::from(index)))
        .collect()
}

fn synthetic_peers(key: u8, count: u8) -> PeerSet {
    let mut peers = PeerSet::new();
    peers.extend(&peer_list(key, count));
    peers
}

fn table_of<V>(key: InfoHash, value: V) -> InfoHashMap<V> {
    let mut table = InfoHashMap::new();
    table.insert(key, value);
    table
}

fn note_start(state: &mut InfoHashMap<DemandPlannerState>, info_hash: InfoHash, now: Instant) {
    let mut history = DemandPlannerState::default();
    history.note_start(now);
    state.insert(info_hash, history);
}

fn lookup_state(lookup_id: LookupId, family: AddressFamily, frontier_len: usize) -> LookupState {
    LookupState {
        lookup_id,
        family,
        quality: LookupQualitySnapshot {
            frontier_len,
            inflight_len: 0,
            visited_len: 0,
            eligible_responder_count: 0,
            received_peer_count: 0,
        },
    }
}

fn active_lookup(lookup_id: LookupId, class: DemandSliceClass) -> ActiveDemandLookup {
    ActiveDemandLookup { lookup_ids: vec![lookup_id], slice_class: class }
}

#[allow(clippy::too_many_arguments)]
fn insert_synthetic_drain_with_stop_reason(
    draining_demands: &mut InfoHashMap<DrainingDemandLookup>,
    info_hash: InfoHash,
    key: u8,
    lookup_id: LookupId,
    slice_class: DemandSliceClass,
    stop_reason: DemandSliceStopReason,
    unique_peers: u8,
    now: Instant,
) {
    let unique_peers = synthetic_peers(key, unique_peers);
    let unique_peer_count = unique_peers.len();
    let parked_outcome = slice_class.parked_slice_outcome(stop_reason, unique_peer_count, false);
    let duration = demand_drain_duration(
        slice_class,
        stop_reason,
        Some(parked_outcome),
        unique_peer_count,
    )
    .unwrap_or(SECOND);
    draining_demands.insert(
        info_hash,
        DrainingDemandLookup {
            lookup_ids: vec![lookup_id],
            slice_class,
            stop_reason,
            started_at: now,
            total_peers: unique_peer_count,
            initial_unique_peers: unique_peer_count,
            unique_peers,
            deadline: now + duration,
            no_late_yield_deadline: now
                + demand_drain_no_late_yield_grace(slice_class).min(duration),
            initial_inflight_queries: 1,
            score: 1,
        },
    );
}

fn insert_synthetic_drain(
    draining_demands: &mut InfoHashMap<DrainingDemandLookup>,
    info_hash: InfoHash,
    key: u8,
    lookup_id: LookupId,
    slice_class: DemandSliceClass,
    unique_peers: u8,
    now: Instant,
) {
    insert_synthetic_drain_with_stop_reason(
        draining_demands,
        info_hash,
        key,
        lookup_id,
        slice_class,
        DemandSliceStopReason::WallTime,
        unique_peers,
        now,
    );
}

#[test]
fn planner_tests_demand_lookup_plan_varies_by_demand_class() {
    let metadata = DemandLookupPlan::for_demand(DhtDemandState {
        awaiting_metadata: true,
        connected_peers: 0,
    });
    let no_peers = DemandLookupPlan::for_demand(DhtDemandState {
        awaiting_metadata: false,
        connected_peers: 0,
    });
    let routine = DemandLookupPlan::for_demand(DhtDemandState {
        awaiting_metadata: false,
        connected_peers: 3,
    });

    assert_eq!(
        metadata.max_wall_time,
        DHT_AWAITING_METADATA_SLICE_WALL_TIME
    );
    assert_eq!(
        no_peers.max_wall_time,
        DHT_NO_CONNECTED_PEERS_SLICE_WALL_TIME
    );
    assert_eq!(routine.max_wall_time, DHT_ROUTINE_SLICE_WALL_TIME);
    assert!(!metadata.stop_after_first_batch);
    assert!(!no_peers.stop_after_first_batch);
    assert!(routine.stop_after_first_batch);
    assert!(metadata.unique_peer_cap > no_peers.unique_peer_cap);
    assert!(no_peers.unique_peer_cap > routine.unique_peer_cap);
}

#[test]
fn planner_tests_parked_quality_thresholds_match_class_expectations() {
    let weak_routine = AggregateLookupQualitySnapshot {
        frontier_len: 3,
        inflight_len: 0,
        visited_len: 9,
        eligible_responder_count: 1,
        received_peer_count: 4,
    };
    let weak_no_peers = AggregateLookupQualitySnapshot {
        frontier_len: 8,
        inflight_len: 0,
        visited_len: 12,
        eligible_responder_count: 3,
        received_peer_count: 12,
    };
    let healthy_no_peers = AggregateLookupQualitySnapshot {
        frontier_len: 9,
        inflight_len: 1,
        visited_len: 12,
        eligible_responder_count: 4,
        received_peer_count: 12,
    };

    assert!(DemandSliceClass::RoutineRefresh.parked_quality_is_weak(weak_routine));
    assert!(DemandSliceClass::NoConnectedPeers.parked_quality_is_weak(weak_no_peers));
    assert!(!DemandSliceClass::NoConnectedPeers.parked_quality_is_weak(healthy_no_peers));
    assert!(!DemandSliceClass::AwaitingMetadata.parked_quality_is_weak(weak_no_peers));
}

#[test]
fn planner_tests_parked_slice_outcome_separates_healthy_zero_from_weak_low_yield() {
    assert_eq!(
        DemandSliceClass::NoConnectedPeers.parked_slice_outcome(
            DemandSliceStopReason::IdleTimeout,
            0,
            false,
        ),
        DemandParkedSliceOutcome::HealthyZeroYield
    );
    assert_eq!(
        DemandSliceClass::NoConnectedPeers.parked_slice_outcome(
            DemandSliceStopReason::IdleTimeout,
            0,
            true,
        ),
        DemandParkedSliceOutcome::WeakLowYield
    );
    assert_eq!(
        DemandSliceClass::NoConnectedPeers.parked_slice_outcome(
            DemandSliceStopReason::WallTime,
            1,
            false,
        ),
        DemandParkedSliceOutcome::HealthyLowYield
    );
    assert_eq!(
        DemandSliceClass::NoConnectedPeers.parked_slice_outcome(
            DemandSliceStopReason::WallTime,
            4,
            true,
        ),
        DemandParkedSliceOutcome::UsefulYield
    );
    assert_eq!(
        DemandSliceClass::NoConnectedPeers.parked_slice_outcome(
            DemandSliceStopReason::UniquePeerCap,
            0,
            true,
        ),
        DemandParkedSliceOutcome::Ignored
    );
}

#[test]
fn planner_tests_draining_demand_records_late_unique_peers_without_double_counting() {
    let initial_peer = ipv4(127, 0, 0, 1, 4000);
    let late_peer = ipv4(127, 0, 0, 2, 4000);
    let mut unique_peers = PeerSet::new();
    unique_peers.insert(initial_peer);
    let mut drain = DrainingDemandLookup {
        lookup_ids: vec![LookupId(1)],
        slice_class: DemandSliceClass::NoConnectedPeers,
        stop_reason: DemandSliceStopReason::IdleTimeout,
        started_at: BASE,
        total_peers: 1,
        initial_unique_peers: 1,
        unique_peers,
        deadline: BASE + 10 * SECOND,
        no_late_yield_deadline: BASE + 2 * SECOND,
        initial_inflight_queries: 8,
        score: 100,
    };

    drain.record_peers(&[initial_peer, late_peer]);

    assert_eq!(drain.total_peers, 3);
    assert_eq!(drain.unique_peer_count(), 2);
    assert_eq!(
        parked_slice_outcome_for_quality(
            drain.slice_class,
            Some(drain.stop_reason),
            drain.unique_peer_count(),
            AggregateLookupQualitySnapshot::default(),
        ),
        Some(DemandParkedSliceOutcome::HealthyLowYield)
    );
}

#[test]
fn planner_tests_drain_finalize_readiness_bounds_waiting_drains() {
    let start = BASE;
    let initial_peer = ipv4(127, 0, 0, 1, 4000);
    let late_peer = ipv4(127, 0, 0, 2, 4000);
    let mut unique_peers = PeerSet::new();
    unique_peers.insert(initial_peer);
    let mut drain = DrainingDemandLookup {
        lookup_ids: vec![LookupId(1)],
        slice_class: DemandSliceClass::NoConnectedPeers,
        stop_reason: DemandSliceStopReason::WallTime,
        started_at: start,
        total_peers: 1,
        initial_unique_peers: 1,
        unique_peers,
        deadline: start + 2 * SECOND,
        no_late_yield_deadline: start + 1 * SECOND,
        initial_inflight_queries: 8,
        score: 100,
    };

    assert_eq!(
        drained_demand_lookup_ready_for_finalize(false, &drain, start + 999 * MILLISECOND,),
        (false, false)
    );
    assert_eq!(
        drained_demand_lookup_ready_for_finalize(false, &drain, start + 1 * SECOND),
        (true, true)
    );

    drain.record_peers(&[late_peer]);
    assert_eq!(
        drained_demand_lookup_ready_for_finalize(
            false,
            &drain,
            start + 1500 * MILLISECOND,
        ),
        (false, false)
    );
    assert_eq!(
        drained_demand_lookup_ready_for_finalize(false, &drain, start + 2 * SECOND),
        (true, false)
    );
    assert_eq!(
        drained_demand_lookup_ready_for_finalize(true, &drain, start),
        (true, false)
    );
}

#[test]
fn planner_tests_drain_policy_prefers_productive_slices_and_rejects_idle_no_peer_work() {
    let productive_score = demand_drain_score(
        DemandSliceClass::NoConnectedPeers,
        DemandSliceStopReason::WallTime,
        Some(DemandParkedSliceOutcome::UsefulYield),
        24,
        24,
    );
    let idle_zero_score = demand_drain_score(
        DemandSliceClass::NoConnectedPeers,
        DemandSliceStopReason::IdleTimeout,
        Some(DemandParkedSliceOutcome::HealthyZeroYield),
        0,
        24,
    );

    assert!(productive_score > 0);
    assert!(idle_zero_score <= 0);
    assert_eq!(
        demand_drain_duration(
            DemandSliceClass::NoConnectedPeers,
            DemandSliceStopReason::WallTime,
            Some(DemandParkedSliceOutcome::UsefulYield),
            24,
        ),
        Some(5 * SECOND)
    );
    assert_eq!(
        demand_drain_duration(
            DemandSliceClass::NoConnectedPeers,
            DemandSliceStopReason::IdleTimeout,
            Some(DemandParkedSliceOutcome::HealthyZeroYield),
            0,
        ),
        Some(1 * SECOND)
    );
    assert_eq!(
        demand_drain_duration(
            DemandSliceClass::RoutineRefresh,
            DemandSliceStopReason::UniquePeerCap,
            Some(DemandParkedSliceOutcome::UsefulYield),
            16,
        ),
        Some(2 * SECOND)
    );
}

#[test]
fn planner_tests_demand_slice_metrics_record_starts_stops_and_resets() {
    let mut metrics = DemandSliceMetrics::default();

    metrics.record_start(DemandSliceClass::AwaitingMetadata, false);
    metrics.record_start(DemandSliceClass::AwaitingMetadata, true);
    metrics.record_selection(
        DemandSliceClass::AwaitingMetadata,
        DemandSelectionReason::ReusableParked,
    );
    metrics.record_selection(
        DemandSliceClass::NoConnectedPeers,
        DemandSelectionReason::UsefulYieldHistory,
    );
    metrics.record_selection(
        DemandSliceClass::RoutineRefresh,
        DemandSelectionReason::OverdueScarce,
    );
    metrics.record_selection(
        DemandSliceClass::NoConnectedPeers,
        DemandSelectionReason::SpareCapacity,
    );
    metrics.record_stop(
        DemandSliceClass::AwaitingMetadata,
        DemandSliceStopReason::WallTime,
        12,
        7,
    );
    metrics.record_stop(
        DemandSliceClass::NoConnectedPeers,
        DemandSliceStopReason::NaturalFinish,
        4,
        3,
    );
    metrics.record_reset(
        DemandSliceClass::RoutineRefresh,
        DemandCrawlResetReason::LowQuality,
    );
    metrics.record_reset(
        DemandSliceClass::RoutineRefresh,
        DemandCrawlResetReason::Stale,
    );
    metrics.record_reset(
        DemandSliceClass::RoutineRefresh,
        DemandCrawlResetReason::ClassChanged,
    );

    assert!(metrics.has_activity());
    assert_eq!(metrics.awaiting_metadata.fresh_starts, 1);
    assert_eq!(metrics.awaiting_metadata.resumed_starts, 1);
    assert_eq!(metrics.awaiting_metadata.selected_reusable_parked, 1);
    assert_eq!(metrics.no_connected_peers.selected_useful_yield_history, 1);
    assert_eq!(metrics.no_connected_peers.selected_spare_capacity, 1);
    assert_eq!(metrics.routine_refresh.selected_overdue_scarce, 1);
    assert_eq!(metrics.awaiting_metadata.wall_time_stops, 1);
    assert_eq!(metrics.awaiting_metadata.peers_yielded, 12);
    assert_eq!(metrics.awaiting_metadata.unique_peers_yielded, 7);
    assert_eq!(metrics.no_connected_peers.natural_finishes, 1);
    assert_eq!(metrics.routine_refresh.class_change_resets, 1);
    assert_eq!(metrics.routine_refresh.stale_resets, 1);
    assert_eq!(metrics.routine_refresh.low_quality_resets, 1);
    assert!(metrics.summary().contains("awaiting("));
    assert!(metrics.summary().contains("sel_reuse=1"));
    assert!(metrics.summary().contains("sel_yield=1"));
    assert!(metrics.summary().contains("sel_due=1"));
    assert!(metrics.summary().contains("sel_spare=1"));
    assert!(metrics.summary().contains("reset_quality=1"));
}

#[test]
fn planner_tests_demand_planner_plan_due_starts_due_demands_by_class_and_marks_state() {
    let now = BASE;
    let metadata_hash = hash_index(60);
    let no_peer_hash = hash_index(61);
    let routine_hash = hash_index(62);
    let mut planner = DemandPlannerModel::new(now);

    for (info_hash, demand) in [
        (
            metadata_hash,
            DhtDemandState {
                awaiting_metadata: true,
                connected_peers: 0,
            },
        ),
        (
            no_peer_hash,
            DhtDemandState {
                awaiting_metadata: false,
                connected_peers: 0,
            },
        ),
        (
            routine_hash,
            DhtDemandState {
                awaiting_metadata: false,
                connected_peers: 2,
            },
        ),
    ] {
        planner.update(DemandPlannerAction::DemandRegistered {
            info_hash,
            demand,
            now,
        });
    }

    let reduction = planner.update(DemandPlannerAction::PlanDue {
        now,
        runtime_available: true,
    });
    let starts = reduction
        .effects
        .iter()
        .filter_map(|effect| match effect {
            DemandPlannerEffect::StartLookup(start) => Some(*start),
            _ => None,
        })
        .collect::<Vec<_>>();

    assert_eq!(starts.len(), 3);
    assert!(starts.iter().any(|start| {
        start.candidate.info_hash == metadata_hash
            && start.plan.class == DemandSliceClass::AwaitingMetadata
    }));
    assert!(starts.iter().any(|start| {
        start.candidate.info_hash == no_peer_hash
            && start.plan.class == DemandSliceClass::NoConnectedPeers
    }));
    assert!(starts.iter().any(|start| {
        start.candidate.info_hash == routine_hash
            && start.plan.class == DemandSliceClass::RoutineRefresh
    }));

    for start in starts {
        assert_eq!(start.selection_reason, DemandSelectionReason::OverdueScarce);
        assert!(
            planner
                .scheduler
                .entry_snapshot(start.candidate.info_hash)
                .expect("demand entry")
                .in_progress
        );
        assert_eq!(
            planner
                .state
                .get(&start.candidate.info_hash)
                .expect("planner state")
                .last_started_at,
            Some(now)
        );
    }
}

#[test]
fn planner_tests_demand_planner_plan_due_skips_draining_demands_but_launches_independent_work() {
    let now = BASE;
    let draining_hash = hash_index(63);
    let metadata_hash = hash_index(64);
    let mut planner = DemandPlannerModel::new(now);

    planner.update(DemandPlannerAction::DemandRegistered {
        info_hash: draining_hash,
        demand: DhtDemandState {
            awaiting_metadata: false,
            connected_peers: 0,
        },
        now,
    });
    planner.update(DemandPlannerAction::DemandRegistered {
        info_hash: metadata_hash,
        demand: DhtDemandState {
            awaiting_metadata: true,
            connected_peers: 0,
        },
        now,
    });
    assert!(planner.scheduler.mark_in_progress(draining_hash));
    insert_synthetic_drain(
        &mut planner.draining_demands,
        draining_hash,
        63,
        LookupId(63),
        DemandSliceClass::NoConnectedPeers,
        1,
        now,
    );

    let reduction = planner.update(DemandPlannerAction::PlanDue {
        now,
        runtime_available: true,
    });
    let starts = reduction
        .effects
        .iter()
        .filter_map(|effect| match effect {
            DemandPlannerEffect::StartLookup(start) => Some(*start),
            _ => None,
        })
        .collect::<Vec<_>>();

    assert_eq!(starts.len(), 1);
    assert_eq!(starts[0].candidate.info_hash, metadata_hash);
    assert_eq!(starts[0].plan.class, DemandSliceClass::AwaitingMetadata);
    assert!(planner.draining_demands.contains_key(&draining_hash));
    assert!(
        planner
            .scheduler
            .entry_snapshot(draining_hash)
            .expect("draining demand entry")
            .in_progress
    );
}

#[test]
fn planner_tests_demand_planner_drained_lookup_lifecycle_keeps_late_peer_yield_in_state() {
    let now = BASE;
    let info_hash = hash_index(65);
    let mut planner = DemandPlannerModel::new(now);
    planner.update(DemandPlannerAction::DemandRegistered {
        info_hash,
        demand: DhtDemandState {
            awaiting_metadata: false,
            connected_peers: 0,
        },
        now,
    });
    assert!(planner.scheduler.mark_in_progress(info_hash));
    let active = active_lookup(LookupId(65), DemandSliceClass::NoConnectedPeers);
    planner.active.insert(
        info_hash,
        active_lookup(LookupId(65), DemandSliceClass::NoConnectedPeers),
    );

    let requested = planner.update(DemandPlannerAction::LookupParkRequested {
        info_hash,
        slice_class: DemandSliceClass::NoConnectedPeers,
        stop_reason: DemandSliceStopReason::WallTime,
        total_peers: 1,
        unique_peers: synthetic_peers(65, 1),
        lookup_ids: active.lookup_ids,
    });
    assert!(planner.active.is_empty());
    let DemandPlannerEffect::AdmitDrain(stopped) =
        requested.effects.into_iter().next().expect("admit effect")
    else {
        panic!("expected stopped drain effect");
    };

    insert_synthetic_drain(
        &mut planner.draining_demands,
        info_hash,
        65,
        LookupId(65),
        DemandSliceClass::NoConnectedPeers,
        1,
        now,
    );
    let drain_admission = planner
        .draining_demands
        .get(&info_hash)
        .map(demand_drain_admission_snapshot);
    planner.update(DemandPlannerAction::LookupParkResolved {
        info_hash,
        slice_class: DemandSliceClass::NoConnectedPeers,
        stop_reason: DemandSliceStopReason::WallTime,
        total_peers: 1,
        unique_peers: 1,
        parked_outcome: Some(DemandParkedSliceOutcome::HealthyLowYield),
        drain_admission,
        previous: stopped.previous,
        now,
    });
    assert!(
        planner
            .scheduler
            .entry_snapshot(info_hash)
            .expect("demand entry")
            .in_progress
    );

    let late_peers = peer_list(66, 3);
    let recorded = planner.update(DemandPlannerAction::PeersReceived {
        info_hash,
        peers: &late_peers,
    });
    let DemandPlannerEffect::DrainPeersRecorded(recorded) = recorded
        .effects
        .into_iter()
        .next()
        .expect("recorded effect")
    else {
        panic!("expected drain peers recorded effect");
    };
    assert_eq!(recorded.peer_count, 3);
    assert_eq!(recorded.unique_added, 3);
    assert_eq!(
        planner
            .draining_demands
            .get(&info_hash)
            .expect("draining demand")
            .unique_peer_count(),
        4
    );

    let finalized_at = now + 2 * SECOND;
    let drain = planner
        .draining_demands
        .remove(&info_hash)
        .expect("draining demand");
    let previous = planner.scheduler.entry_snapshot(info_hash);
    let finalized = planner.update(DemandPlannerAction::DrainedLookupFinalized {
        info_hash,
        outcome: DrainedDemandOutcome {
            slice_class: drain.slice_class,
            stop_reason: drain.stop_reason,
            total_peers: drain.total_peers,
            unique_peers: drain.unique_peer_count(),
            parked_outcome: Some(DemandParkedSliceOutcome::UsefulYield),
            drain_duration_ms: drain.duration_ms(finalized_at),
            finalized_after_deadline: finalized_at >= drain.deadline,
            finalized_early_no_yield: false,
        },
        previous,
        now: finalized_at,
    });

    let state = planner.state.get(&info_hash).expect("planner state");
    assert_eq!(state.last_finished_at, Some(finalized_at));
    assert_eq!(state.last_useful_yield_at, Some(finalized_at));
    assert_eq!(state.last_unique_peers, 4);
    assert!(
        !planner
            .scheduler
            .entry_snapshot(info_hash)
            .expect("demand entry")
            .in_progress
    );
    let DemandPlannerEffect::DrainFinalized(finalized) = finalized
        .effects
        .into_iter()
        .next()
        .expect("finalized effect")
    else {
        panic!("expected drain finalized effect");
    };
    assert_eq!(finalized.finish_mode, DemandFinishMode::Standard);
    assert_eq!(finalized.outcome.unique_peers, 4);
}

#[test]
fn planner_tests_demand_planner_uses_spare_capacity_for_backed_off_no_peer_state() {
    let now = BASE;
    let info_hash = hash_index(67);
    let mut planner = DemandPlannerModel::new(now);
    planner.update(DemandPlannerAction::DemandRegistered {
        info_hash,
        demand: DhtDemandState {
            awaiting_metadata: false,
            connected_peers: 0,
        },
        now,
    });
    assert!(planner.scheduler.mark_in_progress(info_hash));
    let previous = planner.scheduler.entry_snapshot(info_hash);

    planner.update(DemandPlannerAction::DrainedLookupFinalized {
        info_hash,
        outcome: DrainedDemandOutcome {
            slice_class: DemandSliceClass::NoConnectedPeers,
            stop_reason: DemandSliceStopReason::IdleTimeout,
            total_peers: 0,
            unique_peers: 0,
            parked_outcome: Some(DemandParkedSliceOutcome::HealthyZeroYield),
            drain_duration_ms: 1_000,
            finalized_after_deadline: false,
            finalized_early_no_yield: true,
        },
        previous,
        now,
    });
    let backed_off = planner
        .scheduler
        .entry_snapshot(info_hash)
        .expect("demand entry");
    assert!(backed_off.no_connected_peers_backoff_step > 0);

    let spare_at = now + DHT_DEMAND_SPARE_RESEARCH_MIN_INTERVAL;
    assert!(backed_off.next_eligible_at > spare_at);
    let reduction = planner.update(DemandPlannerAction::PlanDue {
        now: spare_at,
        runtime_available: true,
    });
    let starts = reduction
        .effects
        .iter()
        .filter_map(|effect| match effect {
            DemandPlannerEffect::StartLookup(start) => Some(*start),
            _ => None,
        })
        .collect::<Vec<_>>();

    assert_eq!(starts.len(), 1);
    assert_eq!(starts[0].candidate.info_hash, info_hash);
    assert_eq!(starts[0].plan.class, DemandSliceClass::NoConnectedPeers);
    assert_eq!(
        starts[0].selection_reason,
        DemandSelectionReason::SpareCapacity
    );
    assert!(
        planner
            .scheduler
            .entry_snapshot(info_hash)
            .expect("demand entry")
            .in_progress
    );
}

#[test]
fn planner_tests_parked_family_state_round_trips_each_family_and_clears_entry() {
    let now = BASE;
    let info_hash = hash_index(68);
    let mut parked_crawls = InfoHashMap::new();

    let outcome = store_parked_lookup_states(
        &mut parked_crawls,
        info_hash,
        DemandSliceClass::NoConnectedPeers,
        Some(DemandSliceStopReason::WallTime),
        2,
        vec![
            lookup_state(LookupId(68), AddressFamily::Ipv4, 1),
            lookup_state(LookupId(69), AddressFamily::Ipv6, 1),
        ],
        now,
    );

    assert_eq!(outcome, Some(DemandParkedSliceOutcome::HealthyLowYield));
    assert!(parked_crawls.contains_key(&info_hash));

    let ipv4 = take_parked_family_state(
        &mut parked_crawls,
        &mut DemandSliceMetrics::default(),
        false,
        info_hash,
        AddressFamily::Ipv4,
        DemandSliceClass::NoConnectedPeers,
        now,
    )
    .expect("parked ipv4 state");
    assert_eq!(ipv4.family(), AddressFamily::Ipv4);
    assert!(parked_crawls.contains_key(&info_hash));

    let ipv6 = take_parked_family_state(
        &mut parked_crawls,
        &mut DemandSliceMetrics::default(),
        false,
        info_hash,
        AddressFamily::Ipv6,
        DemandSliceClass::NoConnectedPeers,
        now,
    )
    .expect("parked ipv6 state");
    assert_eq!(ipv6.family(), AddressFamily::Ipv6);
    assert!(!parked_crawls.contains_key(&info_hash));
}

#[test]
fn planner_tests_parked_family_state_reset_drops_low_quality_crawl_and_records_reason() {
    let now = BASE;
    let info_hash = hash_index(69);
    let mut parked_crawls = InfoHashMap::new();
    let mut metrics = DemandSliceMetrics::default();

    let mut crawl = DemandCrawlState::new(now, DemandSliceClass::RoutineRefresh);
    crawl.ipv4 = Some(lookup_state(LookupId(70), AddressFamily::Ipv4, 1));
    crawl.consecutive_stalled_low_yield_slices = DHT_ROUTINE_STALLED_EMPTY_SLICE_RESET_THRESHOLD;
    parked_crawls.insert(info_hash, crawl);

    let reset = take_parked_family_state(
        &mut parked_crawls,
        &mut metrics,
        true,
        info_hash,
        AddressFamily::Ipv4,
        DemandSliceClass::RoutineRefresh,
        now,
    );

    assert!(reset.is_none());
    assert!(!parked_crawls.contains_key(&info_hash));
    assert_eq!(metrics.routine_refresh.low_quality_resets, 1);
}

#[test]
fn planner_tests_demand_planner_lookup_start_failed_releases_scheduler_entry_and_refunds_slot() {
    let now = BASE;
    let info_hash = hash_index(70);
    let mut planner = DemandPlannerModel::new(now);
    planner.update(DemandPlannerAction::DemandRegistered {
        info_hash,
        demand: DhtDemandState {
            awaiting_metadata: false,
            connected_peers: 0,
        },
        now,
    });

    let planned = planner.update(DemandPlannerAction::PlanDue {
        now,
        runtime_available: true,
    });
    assert!(planned.effects.iter().any(|effect| matches!(
        effect,
        DemandPlannerEffect::StartLookup(start)
            if start.candidate.info_hash == info_hash
    )));
    assert!(
        planner
            .scheduler
            .entry_snapshot(info_hash)
            .expect("demand entry")
            .in_progress
    );

    planner.update(DemandPlannerAction::LookupStartFailed {
        info_hash,
        slice_class: DemandSliceClass::NoConnectedPeers,
        now,
    });
    let snapshot = planner
        .scheduler
        .entry_snapshot(info_hash)
        .expect("demand entry");
    assert!(!snapshot.in_progress);
    assert!(snapshot.next_eligible_at > now);

    let later = now + DHT_NO_CONNECTED_PEERS_BASE_INTERVAL;
    let retry = planner.update(DemandPlannerAction::PlanDue {
        now: later,
        runtime_available: true,
    });
    assert!(retry.effects.iter().any(|effect| matches!(
        effect,
        DemandPlannerEffect::StartLookup(start)
            if start.candidate.info_hash == info_hash
    )));
}

#[test]
fn planner_tests_demand_planner_duplicate_subscribers_keep_lookup_until_final_unsubscribe() {
    let now = BASE;
    let info_hash = hash_index(71);
    let mut planner = DemandPlannerModel::new(now);
    let demand = DhtDemandState {
        awaiting_metadata: false,
        connected_peers: 0,
    };
    planner.update(DemandPlannerAction::DemandRegistered {
        info_hash,
        demand,
        now,
    });
    planner.update(DemandPlannerAction::DemandRegistered {
        info_hash,
        demand,
        now,
    });
    assert_eq!(
        planner
            .scheduler
            .entry_snapshot(info_hash)
            .expect("demand entry")
            .subscriber_count,
        2
    );
    assert!(planner.scheduler.mark_in_progress(info_hash));
    planner.active.insert(
        info_hash,
        active_lookup(LookupId(71), DemandSliceClass::NoConnectedPeers),
    );

    let first = planner.update(DemandPlannerAction::DemandSubscriberRemoved { info_hash });
    assert!(first.effects.is_empty());
    assert!(planner.active.contains_key(&info_hash));
    assert_eq!(
        planner
            .scheduler
            .entry_snapshot(info_hash)
            .expect("demand entry")
            .subscriber_count,
        1
    );

    let final_removal = planner.update(DemandPlannerAction::DemandSubscriberRemoved { info_hash });
    assert!(planner.scheduler.entry_snapshot(info_hash).is_none());
    assert!(!planner.active.contains_key(&info_hash));
    assert!(final_removal.effects.iter().any(|effect| matches!(
        effect,
        DemandPlannerEffect::ParkActiveLookup(park)
            if park.info_hash == info_hash
                && park.slice_class == DemandSliceClass::NoConnectedPeers
    )));
}

#[test]
fn planner_tests_demand_planner_drain_runtime_readiness_defaults_ready_without_runtime() {
    let now = BASE;
    let info_hash = hash_index(72);
    let mut planner = DemandPlannerModel::new(now);
    insert_synthetic_drain(
        &mut planner.draining_demands,
        info_hash,
        72,
        LookupId(72),
        DemandSliceClass::NoConnectedPeers,
        2,
        now,
    );

    let readiness = planner.drain_runtime_readiness(&None);
    assert_eq!(readiness.len(), 1);
    assert_eq!(readiness.get(&info_hash), Some(&true));
}

#[test]
fn planner_tests_select_due_demand_launches_respects_class_slot_caps() {
    let hash = |byte: u8| InfoHash::from_bytes([byte; 20]);
    let now = BASE;
    let due = vec![
        DueDemandCandidate {
            info_hash: hash(1),
            demand: DhtDemandState {
                awaiting_metadata: true,
                connected_peers: 0,
            },
            metrics: DhtDemandMetrics::default(),
            next_eligible_at: now,
            subscriber_count: 1,
        },
        DueDemandCandidate {
            info_hash: hash(2),
            demand: DhtDemandState {
                awaiting_metadata: false,
                connected_peers: 0,
            },
            metrics: DhtDemandMetrics::default(),
            next_eligible_at: now,
            subscriber_count: 1,
        },
        DueDemandCandidate {
            info_hash: hash(3),
            demand: DhtDemandState {
                awaiting_metadata: false,
                connected_peers: 1,
            },
            metrics: DhtDemandMetrics::default(),
            next_eligible_at: now,
            subscriber_count: 1,
        },
        DueDemandCandidate {
            info_hash: hash(4),
            demand: DhtDemandState {
                awaiting_metadata: false,
                connected_peers: 1,
            },
            metrics: DhtDemandMetrics::default(),
            next_eligible_at: now,
            subscriber_count: 1,
        },
    ];

    let mut planner_budget = DemandPlannerBudget::new(now);
    let selected = select_due_demand_launches(
        &due,
        DemandSlotCounts {
            awaiting_metadata: 0,
            no_connected_peers: DHT_NO_CONNECTED_PEERS_SLOT_CAP,
            routine_refresh: DHT_ROUTINE_LOOKUP_SLOT_CAP,
        },
        &InfoHashMap::new(),
        &InfoHashMap::new(),
        &mut planner_budget,
        now,
        1,
    );

    assert_eq!(selected.len(), 1);
    assert_eq!(selected[0].info_hash, hash(1));
}

#[test]
fn planner_tests_select_due_demand_launches_prefers_reusable_parked_crawls_within_class() {
    let hash = |byte: u8| InfoHash::from_bytes([byte; 20]);
    let now = BASE;
    let due = vec![
        DueDemandCandidate {
            info_hash: hash(1),
            demand: DhtDemandState {
                awaiting_metadata: false,
                connected_peers: 0,
            },
            metrics: DhtDemandMetrics::default(),
            next_eligible_at: now - 30 * SECOND,
            subscriber_count: 1,
        },
        DueDemandCandidate {
            info_hash: hash(2),
            demand: DhtDemandState {
                awaiting_metadata: false,
                connected_peers: 0,
            },
            metrics: DhtDemandMetrics::default(),
            next_eligible_at: now - 10 * SECOND,
            subscriber_count: 1,
        },
    ];

    let mut parked_crawls = InfoHashMap::new();
    let mut crawl = DemandCrawlState::new(now, DemandSliceClass::NoConnectedPeers);
    crawl.ipv4 = Some(lookup_state(LookupId(1), AddressFamily::Ipv4, 0));
    parked_crawls.insert(hash(2), crawl);

    let mut planner_budget = DemandPlannerBudget::new(now);
    let selected = select_due_demand_launches(
        &due,
        DemandSlotCounts::default(),
        &parked_crawls,
        &InfoHashMap::new(),
        &mut planner_budget,
        now,
        1,
    );

    assert_eq!(selected.len(), 1);
    assert_eq!(selected[0].info_hash, hash(2));
}

#[test]
fn planner_tests_select_due_demand_launches_prefers_recently_productive_crawls_within_class() {
    let hash = |byte: u8| InfoHash::from_bytes([byte; 20]);
    let now = BASE;
    let due = vec![
        DueDemandCandidate {
            info_hash: hash(1),
            demand: DhtDemandState {
                awaiting_metadata: false,
                connected_peers: 0,
            },
            metrics: DhtDemandMetrics::default(),
            next_eligible_at: now - 30 * SECOND,
            subscriber_count: 1,
        },
        DueDemandCandidate {
            info_hash: hash(2),
            demand: DhtDemandState {
                awaiting_metadata: false,
                connected_peers: 0,
            },
            metrics: DhtDemandMetrics::default(),
            next_eligible_at: now - 10 * SECOND,
            subscriber_count: 1,
        },
    ];

    let mut planner_state = InfoHashMap::new();
    planner_state.insert(
        hash(2),
        DemandPlannerState {
            last_started_at: Some(now - 20 * SECOND),
            last_finished_at: Some(now - 5 * SECOND),
            last_useful_yield_at: Some(now - 5 * SECOND),
            last_unique_peers: 8,
        },
    );

    let mut planner_budget = DemandPlannerBudget::new(now);
    let selected = select_due_demand_launches(
        &due,
        DemandSlotCounts::default(),
        &InfoHashMap::new(),
        &planner_state,
        &mut planner_budget,
        now,
        1,
    );

    assert_eq!(selected.len(), 1);
    assert_eq!(selected[0].info_hash, hash(2));
}

#[test]
fn planner_tests_select_due_demand_launches_prefers_stale_productive_crawls_within_class() {
    let hash = |byte: u8| InfoHash::from_bytes([byte; 20]);
    let now = BASE;
    let due = vec![
        DueDemandCandidate {
            info_hash: hash(1),
            demand: DhtDemandState {
                awaiting_metadata: false,
                connected_peers: 0,
            },
            metrics: DhtDemandMetrics::default(),
            next_eligible_at: now - 60 * SECOND,
            subscriber_count: 1,
        },
        DueDemandCandidate {
            info_hash: hash(2),
            demand: DhtDemandState {
                awaiting_metadata: false,
                connected_peers: 0,
            },
            metrics: DhtDemandMetrics::default(),
            next_eligible_at: now - 10 * SECOND,
            subscriber_count: 1,
        },
    ];

    let mut planner_state = InfoHashMap::new();
    planner_state.insert(
        hash(2),
        DemandPlannerState {
            last_started_at: Some(now - 80 * SECOND),
            last_finished_at: Some(now - 70 * SECOND),
            last_useful_yield_at: Some(now - 70 * SECOND),
            last_unique_peers: 8,
        },
    );

    let mut planner_budget = DemandPlannerBudget::new(now);
    let selected = select_due_demand_launches(
        &due,
        DemandSlotCounts::default(),
        &InfoHashMap::new(),
        &planner_state,
        &mut planner_budget,
        now,
        1,
    );

    assert_eq!(selected.len(), 1);
    assert_eq!(selected[0].info_hash, hash(2));
}

#[test]
fn planner_tests_select_due_demand_launches_fairness_age_overtakes_yield_history() {
    let hash = |byte: u8| InfoHash::from_bytes([byte; 20]);
    let now = BASE;
    let due = vec![
        DueDemandCandidate {
            info_hash: hash(1),
            demand: DhtDemandState {
                awaiting_metadata: false,
                connected_peers: 0,
            },
            metrics: DhtDemandMetrics::default(),
            next_eligible_at: now - DHT_DEMAND_FAIRNESS_AGE - 1 * SECOND,
            subscriber_count: 1,
        },
        DueDemandCandidate {
            info_hash: hash(2),
            demand: DhtDemandState {
                awaiting_metadata: false,
                connected_peers: 0,
            },
            metrics: DhtDemandMetrics::default(),
            next_eligible_at: now - 10 * SECOND,
            subscriber_count: 1,
        },
    ];

    let mut planner_state = InfoHashMap::new();
    planner_state.insert(
        hash(2),
        DemandPlannerState {
            last_started_at: Some(now - 20 * SECOND),
            last_finished_at: Some(now - 5 * SECOND),
            last_useful_yield_at: Some(now - 5 * SECOND),
            last_unique_peers: 8,
        },
    );

    let mut planner_budget = DemandPlannerBudget::new(now);
    let selected = select_due_demand_launches(
        &due,
        DemandSlotCounts::default(),
        &InfoHashMap::new(),
        &planner_state,
        &mut planner_budget,
        now,
        1,
    );

    assert_eq!(selected.len(), 1);
    assert_eq!(selected[0].info_hash, hash(1));
}

#[test]
fn planner_tests_select_due_demand_launches_does_not_bypass_class_cap_for_oldest_due_candidate() {
    let hash = |byte: u8| InfoHash::from_bytes([byte; 20]);
    let now = BASE;
    let due = vec![
        DueDemandCandidate {
            info_hash: hash(1),
            demand: DhtDemandState {
                awaiting_metadata: false,
                connected_peers: 0,
            },
            metrics: DhtDemandMetrics::default(),
            next_eligible_at: now - 120 * SECOND,
            subscriber_count: 1,
        },
        DueDemandCandidate {
            info_hash: hash(2),
            demand: DhtDemandState {
                awaiting_metadata: false,
                connected_peers: 0,
            },
            metrics: DhtDemandMetrics::default(),
            next_eligible_at: now - 10 * SECOND,
            subscriber_count: 1,
        },
    ];

    let mut planner_budget = DemandPlannerBudget::new(now);
    let selected = select_due_demand_launches(
        &due,
        DemandSlotCounts {
            awaiting_metadata: 0,
            no_connected_peers: DHT_NO_CONNECTED_PEERS_SLOT_CAP,
            routine_refresh: 0,
        },
        &InfoHashMap::new(),
        &InfoHashMap::new(),
        &mut planner_budget,
        now,
        1,
    );

    assert!(selected.is_empty());
}

#[test]
fn planner_tests_demand_planner_budget_caps_repeated_no_peer_launch_batches() {
    let hash = |byte: u8| InfoHash::from_bytes([byte; 20]);
    let now = BASE;
    let due = (0..32u8)
        .map(|byte| DueDemandCandidate {
            info_hash: hash(byte),
            demand: DhtDemandState {
                awaiting_metadata: false,
                connected_peers: 0,
            },
            metrics: DhtDemandMetrics::default(),
            next_eligible_at: now,
            subscriber_count: 1,
        })
        .collect::<Vec<_>>();
    let mut planner_budget = DemandPlannerBudget::new(now);

    let first = select_due_demand_launches(
        &due,
        DemandSlotCounts::default(),
        &InfoHashMap::new(),
        &InfoHashMap::new(),
        &mut planner_budget,
        now,
        DHT_NO_CONNECTED_PEERS_SLOT_CAP,
    );
    let second = select_due_demand_launches(
        &due,
        DemandSlotCounts::default(),
        &InfoHashMap::new(),
        &InfoHashMap::new(),
        &mut planner_budget,
        now,
        DHT_NO_CONNECTED_PEERS_SLOT_CAP,
    );
    let third = select_due_demand_launches(
        &due,
        DemandSlotCounts::default(),
        &InfoHashMap::new(),
        &InfoHashMap::new(),
        &mut planner_budget,
        now,
        DHT_NO_CONNECTED_PEERS_SLOT_CAP,
    );

    assert_eq!(first.len(), DHT_NO_CONNECTED_PEERS_SLOT_CAP);
    assert_eq!(
        second.len(),
        (DHT_NO_CONNECTED_PEERS_LAUNCH_BURST as usize)
            .saturating_sub(DHT_NO_CONNECTED_PEERS_SLOT_CAP)
    );
    assert!(third.is_empty());
}

#[test]
fn planner_tests_demand_planner_selection_stats_report_throttled_due_candidates() {
    fn hash(index: u32) -> InfoHash {
        let mut bytes = [0u8; 20];
        bytes[..4].copy_from_slice(&index.to_be_bytes());
        InfoHash::from_bytes(bytes)
    }

    let now = BASE;
    let due = (0..16u32)
        .map(|index| DueDemandCandidate {
            info_hash: hash(index),
            demand: DhtDemandState {
                awaiting_metadata: false,
                connected_peers: 0,
            },
            metrics: DhtDemandMetrics::default(),
            next_eligible_at: now - u64::from(index + 1) * SECOND,
            subscriber_count: 1,
        })
        .collect::<Vec<_>>();
    let mut planner_budget = DemandPlannerBudget::new(now);

    let selection = select_due_demand_launches_with_stats(
        &due,
        DemandSlotCounts::default(),
        &InfoHashMap::new(),
        &InfoHashMap::new(),
        &mut planner_budget,
        now,
        DHT_NO_CONNECTED_PEERS_SLOT_CAP,
    );

    assert_eq!(selection.launches.len(), DHT_NO_CONNECTED_PEERS_SLOT_CAP);
    assert_eq!(selection.stats.offered.no_connected_peers, 16);
    assert_eq!(
        selection.stats.launched.no_connected_peers,
        DHT_NO_CONNECTED_PEERS_SLOT_CAP
    );
    assert_eq!(
        selection.stats.throttled.no_connected_peers,
        16 - DHT_NO_CONNECTED_PEERS_SLOT_CAP
    );
    assert!(selection.stats.oldest_throttled_no_peers_ms >= 8_000);
}

#[test]
fn planner_tests_demand_planner_budget_refills_no_peer_tokens_over_time() {
    let now = BASE;
    let mut planner_budget = DemandPlannerBudget::new(now);

    for _ in 0..DHT_NO_CONNECTED_PEERS_LAUNCH_BURST {
        assert!(planner_budget.try_consume(DemandSliceClass::NoConnectedPeers, now));
    }
    assert!(!planner_budget.try_consume(DemandSliceClass::NoConnectedPeers, now));

    let later = now + 2 * SECOND;
    assert!(planner_budget.try_consume(DemandSliceClass::NoConnectedPeers, later));
    assert!(!planner_budget.try_consume(DemandSliceClass::NoConnectedPeers, later));
}

#[test]
fn planner_tests_exhausted_no_peer_budget_does_not_block_metadata_launches() {
    let hash = |byte: u8| InfoHash::from_bytes([byte; 20]);
    let now = BASE;
    let due = vec![
        DueDemandCandidate {
            info_hash: hash(1),
            demand: DhtDemandState {
                awaiting_metadata: false,
                connected_peers: 0,
            },
            metrics: DhtDemandMetrics::default(),
            next_eligible_at: now,
            subscriber_count: 1,
        },
        DueDemandCandidate {
            info_hash: hash(2),
            demand: DhtDemandState {
                awaiting_metadata: true,
                connected_peers: 0,
            },
            metrics: DhtDemandMetrics::default(),
            next_eligible_at: now,
            subscriber_count: 1,
        },
    ];
    let mut planner_budget = DemandPlannerBudget::new(now);
    for _ in 0..DHT_NO_CONNECTED_PEERS_LAUNCH_BURST {
        assert!(planner_budget.try_consume(DemandSliceClass::NoConnectedPeers, now));
    }

    let selected = select_due_demand_launches(
        &due,
        DemandSlotCounts::default(),
        &InfoHashMap::new(),
        &InfoHashMap::new(),
        &mut planner_budget,
        now,
        2,
    );

    assert_eq!(selected.len(), 1);
    assert_eq!(selected[0].info_hash, hash(2));
}

#[test]
fn planner_tests_no_peer_launch_budget_is_independent_of_catalog_size() {
    fn hash(index: u32) -> InfoHash {
        let mut bytes = [0u8; 20];
        bytes[..4].copy_from_slice(&index.to_be_bytes());
        InfoHash::from_bytes(bytes)
    }

    fn immediate_launches(candidate_count: u32, now: Instant) -> usize {
        let due = (0..candidate_count)
            .map(|index| DueDemandCandidate {
                info_hash: hash(index),
                demand: DhtDemandState {
                    awaiting_metadata: false,
                    connected_peers: 0,
                },
                metrics: DhtDemandMetrics::default(),
                next_eligible_at: now,
                subscriber_count: 1,
            })
            .collect::<Vec<_>>();
        let mut planner_budget = DemandPlannerBudget::new(now);
        let mut selected_count = 0usize;

        for _ in 0..10 {
            selected_count = selected_count.saturating_add(
                select_due_demand_launches(
                    &due,
                    DemandSlotCounts::default(),
                    &InfoHashMap::new(),
                    &InfoHashMap::new(),
                    &mut planner_budget,
                    now,
                    DHT_DEMAND_LOOKUP_SLOT_COUNT,
                )
                .len(),
            );
        }

        selected_count
    }

    let now = BASE;
    let hundred = immediate_launches(100, now);
    let thousand = immediate_launches(1000, now);

    assert_eq!(hundred, DHT_NO_CONNECTED_PEERS_LAUNCH_BURST as usize);
    assert_eq!(thousand, hundred);
}

#[test]
fn planner_tests_select_spare_research_launches_uses_idle_capacity_for_backed_off_no_peer_work() {
    let hash = |byte: u8| InfoHash::from_bytes([byte; 20]);
    let now = BASE;
    let snapshot = |byte: u8, demand: DhtDemandState| DemandEntrySnapshot {
        info_hash: hash(byte),
        demand,
        metrics: DhtDemandMetrics::default(),
        next_eligible_at: now + 40 * SECOND,
        subscriber_count: 1,
        in_progress: false,
        retrigger_pending: false,
        no_connected_peers_backoff_step: 3,
    };
    let snapshots = vec![
        snapshot(
            1,
            DhtDemandState {
                awaiting_metadata: false,
                connected_peers: 0,
            },
        ),
        snapshot(
            2,
            DhtDemandState {
                awaiting_metadata: false,
                connected_peers: 0,
            },
        ),
        snapshot(
            3,
            DhtDemandState {
                awaiting_metadata: false,
                connected_peers: 4,
            },
        ),
    ];
    let mut planner_state = InfoHashMap::new();
    planner_state.insert(
        hash(1),
        DemandPlannerState {
            last_started_at: Some(now - 35 * SECOND),
            last_finished_at: Some(now - 30 * SECOND),
            last_useful_yield_at: None,
            last_unique_peers: 0,
        },
    );
    planner_state.insert(
        hash(2),
        DemandPlannerState {
            last_started_at: Some(now - 10 * SECOND),
            last_finished_at: Some(now - 5 * SECOND),
            last_useful_yield_at: None,
            last_unique_peers: 0,
        },
    );

    let mut planner_budget = DemandPlannerBudget::new(now);
    let selected = select_spare_research_launches(
        &snapshots,
        DemandSlotCounts::default(),
        &InfoHashMap::new(),
        &planner_state,
        &mut planner_budget,
        now,
        4,
    );

    assert_eq!(selected.len(), 1);
    assert_eq!(selected[0].info_hash, hash(1));
}

#[test]
fn planner_tests_select_spare_research_launches_waits_when_demand_lookup_is_active() {
    let hash = |byte: u8| InfoHash::from_bytes([byte; 20]);
    let now = BASE;
    let snapshots = vec![DemandEntrySnapshot {
        info_hash: hash(1),
        demand: DhtDemandState {
            awaiting_metadata: false,
            connected_peers: 0,
        },
        metrics: DhtDemandMetrics::default(),
        next_eligible_at: now + 40 * SECOND,
        subscriber_count: 1,
        in_progress: false,
        retrigger_pending: false,
        no_connected_peers_backoff_step: 3,
    }];

    let mut planner_budget = DemandPlannerBudget::new(now);
    let selected = select_spare_research_launches(
        &snapshots,
        DemandSlotCounts {
            awaiting_metadata: 0,
            no_connected_peers: 1,
            routine_refresh: 0,
        },
        &InfoHashMap::new(),
        &InfoHashMap::new(),
        &mut planner_budget,
        now,
        4,
    );

    assert!(selected.is_empty());
}

#[test]
fn candidate_selection_reason_prefers_yield_then_reuse_then_due() {
    let hash = |byte: u8| InfoHash::from_bytes([byte; 20]);
    let now = BASE;
    let candidate = DueDemandCandidate {
        info_hash: hash(1),
        demand: DhtDemandState {
            awaiting_metadata: false,
            connected_peers: 0,
        },
        metrics: DhtDemandMetrics::default(),
        next_eligible_at: now,
        subscriber_count: 1,
    };

    let mut parked_crawls = InfoHashMap::new();
    let mut crawl = DemandCrawlState::new(now, DemandSliceClass::NoConnectedPeers);
    crawl.ipv4 = Some(lookup_state(LookupId(1), AddressFamily::Ipv4, 0));
    parked_crawls.insert(hash(1), crawl);

    assert_eq!(
        candidate_selection_reason(candidate, &parked_crawls, &InfoHashMap::new(), now),
        DemandSelectionReason::ReusableParked
    );

    let mut planner_state = InfoHashMap::new();
    planner_state.insert(
        hash(1),
        DemandPlannerState {
            last_started_at: Some(now - 10 * SECOND),
            last_finished_at: Some(now - 5 * SECOND),
            last_useful_yield_at: Some(now - 5 * SECOND),
            last_unique_peers: 3,
        },
    );
    assert_eq!(
        candidate_selection_reason(candidate, &parked_crawls, &planner_state, now),
        DemandSelectionReason::UsefulYieldHistory
    );

    parked_crawls.clear();
    assert_eq!(
        candidate_selection_reason(candidate, &parked_crawls, &planner_state, now),
        DemandSelectionReason::UsefulYieldHistory
    );

    planner_state.clear();
    assert_eq!(
        candidate_selection_reason(candidate, &parked_crawls, &planner_state, now),
        DemandSelectionReason::OverdueScarce
    );
}

#[test]
fn planner_tests_demand_planner_runtime_reset_action_clears_runtime_state_and_preserves_demands() {
    let now = BASE;
    let info_hash = hash_index(41);
    let mut planner = DemandPlannerModel::new(now);
    planner.scheduler.register(
        info_hash,
        DhtDemandState {
            awaiting_metadata: false,
            connected_peers: 0,
        },
        now,
    );
    assert!(planner.scheduler.mark_in_progress(info_hash));
    planner.active.insert(
        info_hash,
        active_lookup(LookupId(6), DemandSliceClass::NoConnectedPeers),
    );
    insert_synthetic_drain(
        &mut planner.draining_demands,
        info_hash,
        41,
        LookupId(6),
        DemandSliceClass::NoConnectedPeers,
        1,
        now,
    );
    note_start(&mut planner.state, info_hash, now);
    planner.parked_crawls.insert(
        info_hash,
        DemandCrawlState::new(now, DemandSliceClass::NoConnectedPeers),
    );

    let reset_at = now + 1 * SECOND;
    let reduction = planner.update(DemandPlannerAction::RuntimeReset { now: reset_at });

    assert!(reduction.effects.is_empty());
    assert!(planner.active.is_empty());
    assert!(planner.draining_demands.is_empty());
    assert!(planner.parked_crawls.is_empty());
    assert!(planner.state.is_empty());
    let snapshot = planner
        .scheduler
        .entry_snapshot(info_hash)
        .expect("demand entry");
    assert!(!snapshot.in_progress);
    assert_eq!(snapshot.next_eligible_at, now);
}

#[test]
fn planner_tests_demand_planner_lookup_finished_action_updates_state_and_emits_metrics_effect() {
    let now = BASE;
    let info_hash = hash_index(42);
    let mut planner = DemandPlannerModel::new(now);
    planner.scheduler.register(
        info_hash,
        DhtDemandState {
            awaiting_metadata: false,
            connected_peers: 0,
        },
        now,
    );
    assert!(planner.scheduler.mark_in_progress(info_hash));

    planner.active = table_of(
        info_hash,
        active_lookup(LookupId(7), DemandSliceClass::NoConnectedPeers),
    );

    let reduction = planner.update(DemandPlannerAction::LookupFinished {
        info_hash,
        slice_class: DemandSliceClass::NoConnectedPeers,
        total_peers: 11,
        unique_peers: 5,
        now,
    });

    assert!(planner.active.is_empty());
    let snapshot = planner
        .scheduler
        .entry_snapshot(info_hash)
        .expect("demand entry");
    assert!(!snapshot.in_progress);
    assert!(snapshot.next_eligible_at > now);
    let state = planner.state.get(&info_hash).expect("planner state");
    assert_eq!(state.last_finished_at, Some(now));
    assert_eq!(state.last_useful_yield_at, Some(now));
    assert_eq!(state.last_unique_peers, 5);
    assert_eq!(reduction.effects.len(), 1);
    let DemandPlannerEffect::LookupFinished(effect) = &reduction.effects[0] else {
        panic!("expected lookup finished effect");
    };
    assert_eq!(effect.info_hash, info_hash);
    assert_eq!(effect.slice_class, DemandSliceClass::NoConnectedPeers);
    assert_eq!(effect.total_peers, 11);
    assert_eq!(effect.unique_peers, 5);
    assert!(effect.previous.expect("previous snapshot").in_progress);
    assert!(!effect.current.expect("current snapshot").in_progress);
}

#[test]
fn planner_tests_demand_planner_update_action_requests_drain_finalize_on_class_mismatch() {
    let now = BASE;
    let info_hash = hash_index(46);
    let mut planner = DemandPlannerModel::new(now);
    planner.scheduler.register(
        info_hash,
        DhtDemandState {
            awaiting_metadata: false,
            connected_peers: 0,
        },
        now,
    );
    assert!(planner.scheduler.mark_in_progress(info_hash));
    insert_synthetic_drain(
        &mut planner.draining_demands,
        info_hash,
        46,
        LookupId(10),
        DemandSliceClass::NoConnectedPeers,
        1,
        now,
    );

    let reduction = planner.update(DemandPlannerAction::DemandUpdated {
        info_hash,
        demand: DhtDemandState {
            awaiting_metadata: false,
            connected_peers: 4,
        },
        now,
    });

    assert_eq!(
        planner.scheduler.demand_state(info_hash),
        Some(DhtDemandState {
            awaiting_metadata: false,
            connected_peers: 4,
        })
    );
    assert!(planner.draining_demands.contains_key(&info_hash));
    assert!(reduction.effects.iter().any(|effect| matches!(
        effect,
        DemandPlannerEffect::FinalizeDrainingLookup(finalize)
            if finalize.info_hash == info_hash && finalize.force
    )));
}

#[test]
fn planner_tests_demand_planner_duplicate_register_requests_drain_finalize_on_class_mismatch() {
    let now = BASE;
    let info_hash = hash_index(47);
    let mut planner = DemandPlannerModel::new(now);
    planner.update(DemandPlannerAction::DemandRegistered {
        info_hash,
        demand: DhtDemandState {
            awaiting_metadata: false,
            connected_peers: 0,
        },
        now,
    });
    insert_synthetic_drain(
        &mut planner.draining_demands,
        info_hash,
        47,
        LookupId(17),
        DemandSliceClass::NoConnectedPeers,
        1,
        now,
    );

    let same_class = planner.update(DemandPlannerAction::DemandRegistered {
        info_hash,
        demand: DhtDemandState {
            awaiting_metadata: false,
            connected_peers: 0,
        },
        now,
    });
    assert!(same_class.effects.is_empty());
    assert_eq!(
        planner
            .scheduler
            .entry_snapshot(info_hash)
            .expect("demand entry")
            .subscriber_count,
        2
    );

    let class_change = planner.update(DemandPlannerAction::DemandRegistered {
        info_hash,
        demand: DhtDemandState {
            awaiting_metadata: true,
            connected_peers: 0,
        },
        now,
    });

    assert!(class_change.effects.iter().any(|effect| matches!(
        effect,
        DemandPlannerEffect::FinalizeDrainingLookup(finalize)
            if finalize.info_hash == info_hash && finalize.force
    )));
    let snapshot = planner
        .scheduler
        .entry_snapshot(info_hash)
        .expect("demand entry");
    assert_eq!(snapshot.subscriber_count, 3);
    assert!(snapshot.demand.awaiting_metadata);
}

#[test]
fn planner_tests_demand_planner_subscriber_removed_action_detaches_lookup_work_on_final_subscriber() {
    let now = BASE;
    let info_hash = hash_index(47);
    let mut planner = DemandPlannerModel::new(now);
    planner.scheduler.register(
        info_hash,
        DhtDemandState {
            awaiting_metadata: false,
            connected_peers: 0,
        },
        now,
    );
    assert!(planner.scheduler.mark_in_progress(info_hash));
    planner.active.insert(
        info_hash,
        active_lookup(LookupId(11), DemandSliceClass::NoConnectedPeers),
    );

    let reduction = planner.update(DemandPlannerAction::DemandSubscriberRemoved { info_hash });

    assert!(planner.scheduler.entry_snapshot(info_hash).is_none());
    assert!(!planner.active.contains_key(&info_hash));
    let DemandPlannerEffect::ParkActiveLookup(effect) = reduction
        .effects
        .into_iter()
        .find(|effect| matches!(effect, DemandPlannerEffect::ParkActiveLookup(_)))
        .expect("park active lookup effect")
    else {
        panic!("expected park active lookup effect");
    };
    assert_eq!(effect.info_hash, info_hash);
    assert_eq!(effect.slice_class, DemandSliceClass::NoConnectedPeers);
    assert_eq!(
        effect
            .lookup_ids
            .as_slice(),
        &[LookupId(11)]
    );
}

#[test]
fn planner_tests_demand_planner_peers_received_action_records_drain_unique_peers() {
    let now = BASE;
    let info_hash = hash_index(48);
    let mut planner = DemandPlannerModel::new(now);
    insert_synthetic_drain(
        &mut planner.draining_demands,
        info_hash,
        48,
        LookupId(12),
        DemandSliceClass::NoConnectedPeers,
        1,
        now,
    );
    let peers = peer_list(49, 3);

    let reduction = planner.update(DemandPlannerAction::PeersReceived {
        info_hash,
        peers: &peers,
    });

    let DemandPlannerEffect::DrainPeersRecorded(recorded) = reduction
        .effects
        .into_iter()
        .next()
        .expect("drain peers recorded effect")
    else {
        panic!("expected drain peers recorded effect");
    };
    assert_eq!(recorded.info_hash, info_hash);
    assert_eq!(recorded.peer_count, 3);
    assert_eq!(recorded.unique_added, 3);
    assert_eq!(recorded.initial_unique_peers, 1);
    assert_eq!(
        planner
            .draining_demands
            .get(&info_hash)
            .expect("draining demand")
            .unique_peer_count(),
        4
    );
}

#[test]
fn planner_tests_demand_planner_drain_tick_action_requests_finalize_for_ready_drains() {
    let now = BASE;
    let info_hash = hash_index(50);
    let mut planner = DemandPlannerModel::new(now);
    insert_synthetic_drain(
        &mut planner.draining_demands,
        info_hash,
        50,
        LookupId(14),
        DemandSliceClass::NoConnectedPeers,
        1,
        now,
    );

    let waiting = planner.update(DemandPlannerAction::DrainTick {
        now,
        runtime_ready: table_of(info_hash, false),
    });
    assert!(waiting.effects.is_empty());

    let ready = planner.update(DemandPlannerAction::DrainTick {
        now: now + DHT_DEMAND_DRAIN_NO_LATE_YIELD_GRACE,
        runtime_ready: table_of(info_hash, false),
    });

    assert!(ready.effects.iter().any(|effect| matches!(
        effect,
        DemandPlannerEffect::FinalizeDrainingLookup(finalize)
            if finalize.info_hash == info_hash && !finalize.force
    )));
}

#[test]
fn planner_tests_demand_planner_lookup_park_rejection_finishes_scheduler_entry() {
    let now = BASE;
    let info_hash = hash_index(43);
    let mut planner = DemandPlannerModel::new(now);
    planner.scheduler.register(
        info_hash,
        DhtDemandState {
            awaiting_metadata: false,
            connected_peers: 4,
        },
        now,
    );
    assert!(planner.scheduler.mark_in_progress(info_hash));

    planner.active = table_of(
        info_hash,
        active_lookup(LookupId(8), DemandSliceClass::RoutineRefresh),
    );

    let requested = planner.update(DemandPlannerAction::LookupParkRequested {
        info_hash,
        slice_class: DemandSliceClass::RoutineRefresh,
        stop_reason: DemandSliceStopReason::WallTime,
        total_peers: 0,
        unique_peers: PeerSet::new(),
        lookup_ids: active_lookup(LookupId(8), DemandSliceClass::RoutineRefresh).lookup_ids,
    });
    assert!(planner.active.is_empty());
    let DemandPlannerEffect::AdmitDrain(stopped) =
        requested.effects.into_iter().next().expect("admit effect")
    else {
        panic!("expected stopped drain effect");
    };
    assert!(stopped.previous.expect("previous snapshot").in_progress);

    let resolved = planner.update(DemandPlannerAction::LookupParkResolved {
        info_hash,
        slice_class: DemandSliceClass::RoutineRefresh,
        stop_reason: DemandSliceStopReason::WallTime,
        total_peers: 0,
        unique_peers: 0,
        parked_outcome: None,
        drain_admission: None,
        previous: stopped.previous,
        now,
    });

    assert!(
        !planner
            .scheduler
            .entry_snapshot(info_hash)
            .expect("demand entry")
            .in_progress
    );
    assert_eq!(
        planner
            .state
            .get(&info_hash)
            .expect("planner state")
            .last_finished_at,
        Some(now)
    );
    let DemandPlannerEffect::LookupParked(parked) =
        resolved.effects.into_iter().next().expect("parked effect")
    else {
        panic!("expected parked effect");
    };
    assert!(parked.drain_admission.is_none());
    assert!(parked.current.expect("current snapshot").in_progress == false);
}

#[test]
fn planner_tests_demand_planner_lookup_park_admission_keeps_scheduler_entry_in_progress() {
    let now = BASE;
    let info_hash = hash_index(44);
    let mut planner = DemandPlannerModel::new(now);
    planner.scheduler.register(
        info_hash,
        DhtDemandState {
            awaiting_metadata: false,
            connected_peers: 0,
        },
        now,
    );
    assert!(planner.scheduler.mark_in_progress(info_hash));

    planner.active = table_of(
        info_hash,
        active_lookup(LookupId(9), DemandSliceClass::NoConnectedPeers),
    );

    let requested = planner.update(DemandPlannerAction::LookupParkRequested {
        info_hash,
        slice_class: DemandSliceClass::NoConnectedPeers,
        stop_reason: DemandSliceStopReason::WallTime,
        total_peers: 3,
        unique_peers: synthetic_peers(44, 3),
        lookup_ids: active_lookup(LookupId(9), DemandSliceClass::NoConnectedPeers).lookup_ids,
    });
    assert!(planner.active.is_empty());
    let DemandPlannerEffect::AdmitDrain(stopped) =
        requested.effects.into_iter().next().expect("admit effect")
    else {
        panic!("expected stopped drain effect");
    };

    let resolved = planner.update(DemandPlannerAction::LookupParkResolved {
        info_hash,
        slice_class: DemandSliceClass::NoConnectedPeers,
        stop_reason: DemandSliceStopReason::WallTime,
        total_peers: 3,
        unique_peers: 3,
        parked_outcome: Some(DemandParkedSliceOutcome::UsefulYield),
        drain_admission: Some(DemandDrainAdmissionSnapshot {
            initial_inflight_queries: 3,
            score: 42,
            deadline_ms: 5_000,
        }),
        previous: stopped.previous,
        now,
    });

    assert!(
        planner
            .scheduler
            .entry_snapshot(info_hash)
            .expect("demand entry")
            .in_progress
    );
    assert!(planner.state.get(&info_hash).is_none());
    let DemandPlannerEffect::LookupParked(parked) =
        resolved.effects.into_iter().next().expect("parked effect")
    else {
        panic!("expected parked effect");
    };
    assert_eq!(parked.drain_admission.expect("drain admission").score, 42);
    assert!(parked.current.expect("current snapshot").in_progress);
}

#[test]
fn planner_tests_demand_planner_lookup_park_admission_requests_finalize_after_class_change() {
    let now = BASE;
    let info_hash = hash_index(49);
    let mut planner = DemandPlannerModel::new(now);
    planner.scheduler.register(
        info_hash,
        DhtDemandState {
            awaiting_metadata: false,
            connected_peers: 0,
        },
        now,
    );
    assert!(planner.scheduler.mark_in_progress(info_hash));
    let previous = planner.scheduler.entry_snapshot(info_hash);
    let _ = planner.update(DemandPlannerAction::DemandUpdated {
        info_hash,
        demand: DhtDemandState {
            awaiting_metadata: false,
            connected_peers: 4,
        },
        now,
    });
    insert_synthetic_drain(
        &mut planner.draining_demands,
        info_hash,
        49,
        LookupId(13),
        DemandSliceClass::NoConnectedPeers,
        2,
        now,
    );

    let resolved = planner.update(DemandPlannerAction::LookupParkResolved {
        info_hash,
        slice_class: DemandSliceClass::NoConnectedPeers,
        stop_reason: DemandSliceStopReason::WallTime,
        total_peers: 2,
        unique_peers: 2,
        parked_outcome: Some(DemandParkedSliceOutcome::UsefulYield),
        drain_admission: Some(DemandDrainAdmissionSnapshot {
            initial_inflight_queries: 2,
            score: 7,
            deadline_ms: 5_000,
        }),
        previous,
        now,
    });

    assert!(resolved
        .effects
        .iter()
        .any(|effect| matches!(effect, DemandPlannerEffect::LookupParked(_))));
    assert!(resolved.effects.iter().any(|effect| matches!(
        effect,
        DemandPlannerEffect::FinalizeDrainingLookup(finalize)
            if finalize.info_hash == info_hash && finalize.force
    )));
}

#[test]
fn planner_tests_demand_planner_drain_finalized_action_finishes_and_applies_backoff_mode() {
    let now = BASE;
    let info_hash = hash_index(45);
    let mut planner = DemandPlannerModel::new(now);
    planner.scheduler.register(
        info_hash,
        DhtDemandState {
            awaiting_metadata: false,
            connected_peers: 0,
        },
        now,
    );
    assert!(planner.scheduler.mark_in_progress(info_hash));

    let previous = planner.scheduler.entry_snapshot(info_hash);

    let reduction = planner.update(DemandPlannerAction::DrainedLookupFinalized {
        info_hash,
        outcome: DrainedDemandOutcome {
            slice_class: DemandSliceClass::NoConnectedPeers,
            stop_reason: DemandSliceStopReason::IdleTimeout,
            total_peers: 0,
            unique_peers: 0,
            parked_outcome: Some(DemandParkedSliceOutcome::HealthyZeroYield),
            drain_duration_ms: 1_000,
            finalized_after_deadline: false,
            finalized_early_no_yield: true,
        },
        previous,
        now,
    });

    let snapshot = planner
        .scheduler
        .entry_snapshot(info_hash)
        .expect("demand entry");
    assert!(!snapshot.in_progress);
    assert!(snapshot.next_eligible_at > now);
    assert!(snapshot.no_connected_peers_backoff_step > 0);
    let state = planner.state.get(&info_hash).expect("planner state");
    assert_eq!(state.last_finished_at, Some(now));
    assert_eq!(state.last_useful_yield_at, None);
    assert_eq!(state.last_unique_peers, 0);

    let DemandPlannerEffect::DrainFinalized(finalized) = reduction
        .effects
        .into_iter()
        .next()
        .expect("finalized effect")
    else {
        panic!("expected drain finalized effect");
    };
    assert_eq!(
        finalized.finish_mode,
        DemandFinishMode::AcceleratedNoConnectedPeersBackoff
    );
    assert_eq!(finalized.outcome.unique_peers, 0);
    assert!(finalized.previous.expect("previous snapshot").in_progress);
    assert!(!finalized.current.expect("current snapshot").in_progress);
}
