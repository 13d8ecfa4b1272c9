use dht_service::clock::{Instant, MILLISECOND, SECOND};
use dht_service::demand::{DhtDemandMetrics, DhtDemandState};
use dht_service::ids::{InfoHash, LookupId};
use dht_service::limits::DHT_DEMAND_FAIRNESS_AGE;
use dht_service::planner::actions::DemandPlannerAction;
use dht_service::planner::budget::{DemandLaunchTokenBucket, DemandPlannerBudget};
use dht_service::planner::checks::{check_demand_planner_invariants, DemandPlannerViolation};
use dht_service::planner::counts::DemandSlotCounts;
use dht_service::planner::drain::{demand_drain_duration, demand_drain_score};
use dht_service::planner::lookups::{
    demand_lookup_launch_budget, drain_virtual_slot_count, ActiveDemandLookup,
};
use dht_service::planner::metrics::DemandSliceMetrics;
use dht_service::planner::model::DemandPlannerModel;
use dht_service::planner::selection::{
    candidate_due_age, candidate_has_fairness_age, demand_candidate_priority_score,
    demand_planner_selection_stats, select_due_demand_launches,
};
use dht_service::planner::views::{DemandPlannerActionView, DemandPlannerEffectView};
use dht_service::scheduler::{DemandFinishMode, DemandScheduler, DueDemandCandidate};
use dht_service::slice::{
    DemandParkedSliceOutcome, DemandSelectionReason, DemandSliceClass, DemandSliceStopReason,
};
use dht_service::state::demand_command::{DhtDemandCommandAction, DhtDemandCommandEffect};
use dht_service::state::service::{DhtServiceAction, DhtServiceEffect};
use dht_service::status::{build_wave_telemetry, power_scale_halves};
use dht_service::table::InfoHashMap;

/// The time at which the tests begin.
const BASE: Instant = 1_000_000 * SECOND;

fn hash_index(index: u32) -> InfoHash {
    let mut bytes = [0u8; 20];
    bytes[..4].copy_from_slice(&index.to_be_bytes());
    InfoHash::from_bytes(bytes)
}

fn active_lookup(lookup_id: LookupId, class: DemandSliceClass) -> ActiveDemandLookup {
    ActiveDemandLookup { lookup_ids: vec![lookup_id], slice_class: class }
}

fn demand(awaiting_metadata: bool, connected_peers: usize) -> DhtDemandState {
    DhtDemandState { awaiting_metadata, connected_peers }
}

fn candidate(index: u32, demand: DhtDemandState) -> DueDemandCandidate {
    DueDemandCandidate {
        info_hash: hash_index(index),
        demand,
        metrics: DhtDemandMetrics::default(),
        next_eligible_at: BASE,
        subscriber_count: 1,
    }
}

#[test]
fn drain_scores_add_up() {
    assert_eq!(
        demand_drain_score(
            DemandSliceClass::AwaitingMetadata,
            DemandSliceStopReason::UniquePeerCap,
            Some(DemandParkedSliceOutcome::UsefulYield),
            100,
            25,
        ),
        60 + 60 - 10 + 64 - 2
    );
    assert_eq!(
        demand_drain_score(
            DemandSliceClass::RoutineRefresh,
            DemandSliceStopReason::IdleTimeout,
            None,
            0,
            0,
        ),
        5 - 80 - 15
    );
    assert_eq!(
        demand_drain_score(
            DemandSliceClass::NoConnectedPeers,
            DemandSliceStopReason::FirstBatch,
            Some(DemandParkedSliceOutcome::WeakLowYield),
            3,
            11,
        ),
        30 - 5 + 5 + 3
    );
}

#[test]
fn drain_durations_follow_class_outcome_and_stop() {
    let useful = Some(DemandParkedSliceOutcome::UsefulYield);
    let duration = |class, stop, outcome, peers| demand_drain_duration(class, stop, outcome, peers);
    assert_eq!(
        duration(DemandSliceClass::AwaitingMetadata, DemandSliceStopReason::WallTime, useful, 9),
        Some(5 * SECOND)
    );
    assert_eq!(
        duration(DemandSliceClass::AwaitingMetadata, DemandSliceStopReason::FirstBatch, useful, 9),
        Some(SECOND)
    );
    assert_eq!(
        duration(DemandSliceClass::AwaitingMetadata, DemandSliceStopReason::WallTime, None, 0),
        None
    );
    assert_eq!(
        duration(DemandSliceClass::AwaitingMetadata, DemandSliceStopReason::WallTime, None, 1),
        Some(2 * SECOND)
    );
    assert_eq!(
        duration(
            DemandSliceClass::RoutineRefresh,
            DemandSliceStopReason::WallTime,
            Some(DemandParkedSliceOutcome::Ignored),
            1,
        ),
        None
    );
}

#[test]
fn priority_scores_add_up() {
    let history = InfoHashMap::new();
    assert_eq!(
        demand_candidate_priority_score(candidate(1, demand(true, 0)), &history, BASE),
        100_000
    );
    let overdue = DueDemandCandidate {
        next_eligible_at: BASE - DHT_DEMAND_FAIRNESS_AGE,
        ..candidate(2, demand(false, 0))
    };
    assert_eq!(demand_candidate_priority_score(overdue, &history, BASE), 20_000);
    assert_eq!(
        demand_candidate_priority_score(candidate(3, demand(false, 0)), &history, BASE),
        0
    );
    assert_eq!(candidate_due_age(overdue, BASE), DHT_DEMAND_FAIRNESS_AGE);
    assert!(candidate_has_fairness_age(overdue, BASE));
}

#[test]
fn backoff_doubles_up_to_its_maximum() {
    let info_hash = hash_index(1);
    let mut scheduler = DemandScheduler::new(60, 16, 100, 1);
    scheduler.register(info_hash, demand(false, 0), BASE);
    let mut pauses = Vec::new();
    for _ in 0..5 {
        assert!(scheduler.mark_in_progress(info_hash));
        assert!(!scheduler.mark_in_progress(info_hash));
        scheduler.finish(info_hash, BASE);
        pauses.push(scheduler.entry_snapshot(info_hash).expect("entry").next_eligible_at - BASE);
    }
    assert_eq!(pauses, vec![16, 32, 64, 100, 100]);

    scheduler.update(info_hash, demand(false, 1), BASE);
    scheduler.finish(info_hash, BASE);
    let snapshot = scheduler.entry_snapshot(info_hash).expect("entry");
    assert_eq!(snapshot.next_eligible_at, BASE + 60);
    assert_eq!(snapshot.no_connected_peers_backoff_step, 0);
}

#[test]
fn accelerated_backoff_skips_a_step() {
    let info_hash = hash_index(1);
    let mut scheduler = DemandScheduler::new(60, 16, 100, 1);
    scheduler.register(info_hash, demand(false, 0), BASE);
    scheduler.finish_with_mode(
        info_hash,
        BASE,
        DemandFinishMode::AcceleratedNoConnectedPeersBackoff,
    );
    let snapshot = scheduler.entry_snapshot(info_hash).expect("entry");
    assert_eq!(snapshot.next_eligible_at, BASE + 32);
    assert_eq!(snapshot.no_connected_peers_backoff_step, 2);
}

#[test]
fn demand_that_became_urgent_while_running_is_due_at_once() {
    let info_hash = hash_index(1);
    let mut scheduler = DemandScheduler::new(60, 16, 100, 1);
    scheduler.register(info_hash, demand(false, 3), BASE);
    assert!(scheduler.mark_in_progress(info_hash));
    scheduler.update(info_hash, demand(true, 0), BASE + 5);
    assert!(scheduler.entry_snapshot(info_hash).expect("entry").retrigger_pending);
    assert!(scheduler.due_candidates(BASE + 5).is_empty());
    scheduler.finish(info_hash, BASE + 7);
    let due = scheduler.due_candidates(BASE + 7);
    assert_eq!(due.len(), 1);
    assert_eq!(due[0].next_eligible_at, BASE + 7);
}

#[test]
fn last_subscriber_takes_the_demand_along() {
    let info_hash = hash_index(1);
    let mut scheduler = DemandScheduler::new(60, 16, 100, 1);
    scheduler.register(info_hash, demand(false, 3), BASE);
    scheduler.register(info_hash, demand(false, 3), BASE);
    assert!(!scheduler.unregister(info_hash));
    assert_eq!(scheduler.demand_state(info_hash), Some(demand(false, 3)));
    assert!(scheduler.unregister(info_hash));
    assert_eq!(scheduler.demand_state(info_hash), None);
    assert!(!scheduler.unregister(info_hash));
}

#[test]
fn refund_undoes_a_launch() {
    let mut bucket = DemandLaunchTokenBucket::new(60, 2, BASE);
    assert_eq!(bucket.available(), 2);
    assert!(bucket.try_consume(BASE));
    assert!(bucket.try_consume(BASE));
    assert!(!bucket.try_consume(BASE));
    bucket.refund();
    assert_eq!(bucket.available(), 1);
    bucket.refill(BASE + SECOND / 2);
    assert_eq!(bucket.tokens_scaled, 1_500);
    bucket.refill(BASE + 5 * SECOND);
    assert_eq!(bucket.tokens_scaled, 2_000);
    bucket.refund();
    assert_eq!(bucket.available(), 2);
}

#[test]
fn budgets_of_classes_are_apart() {
    let mut budget = DemandPlannerBudget::new(BASE);
    assert_eq!(budget.available(DemandSliceClass::AwaitingMetadata, BASE), 20);
    assert_eq!(budget.available(DemandSliceClass::NoConnectedPeers, BASE), 10);
    assert_eq!(budget.available(DemandSliceClass::RoutineRefresh, BASE), 8);
    assert!(budget.try_consume(DemandSliceClass::RoutineRefresh, BASE));
    assert_eq!(budget.available(DemandSliceClass::RoutineRefresh, BASE), 7);
    assert_eq!(budget.available(DemandSliceClass::NoConnectedPeers, BASE), 10);
    budget.refund(DemandSliceClass::RoutineRefresh);
    assert_eq!(budget.available(DemandSliceClass::RoutineRefresh, BASE), 8);
}

#[test]
fn selection_statistics_balance() {
    let offered = [
        candidate(1, demand(true, 0)),
        DueDemandCandidate {
            next_eligible_at: BASE - 3 * SECOND,
            ..candidate(2, demand(false, 0))
        },
        candidate(3, demand(false, 4)),
    ];
    let stats = demand_planner_selection_stats(&offered, &offered[..1], BASE);
    assert_eq!(stats.offered.total(), 3);
    assert_eq!(stats.launched.count(DemandSliceClass::AwaitingMetadata), 1);
    assert_eq!(stats.throttled.count(DemandSliceClass::NoConnectedPeers), 1);
    assert_eq!(stats.throttled.count(DemandSliceClass::RoutineRefresh), 1);
    assert_eq!(stats.oldest_throttled_no_peers_ms, 3_000);
    assert_eq!(stats.oldest_throttled_awaiting_ms, 0);
}

#[test]
fn equal_candidates_keep_their_order() {
    let offered: Vec<DueDemandCandidate> =
        (0..4).map(|index| candidate(index, demand(false, 2))).collect();
    let launches = select_due_demand_launches(
        &offered,
        DemandSlotCounts::default(),
        &InfoHashMap::new(),
        &InfoHashMap::new(),
        &mut DemandPlannerBudget::new(BASE),
        BASE,
        3,
    );
    assert_eq!(launches, offered[..3].to_vec());
}

fn planner_with_entry(info_hash: InfoHash) -> DemandPlannerModel {
    let mut planner = DemandPlannerModel::new(BASE);
    planner.scheduler.register(info_hash, demand(false, 0), BASE);
    planner
}

#[test]
fn each_violation_is_named() {
    let info_hash = hash_index(1);
    let class = DemandSliceClass::NoConnectedPeers;
    assert_eq!(check_demand_planner_invariants(&planner_with_entry(info_hash)), Ok(()));

    let mut unmarked = planner_with_entry(info_hash);
    unmarked.active.insert(info_hash, active_lookup(LookupId(1), class));
    assert_eq!(
        check_demand_planner_invariants(&unmarked),
        Err(DemandPlannerViolation::UnmarkedWork)
    );

    let mut idle = planner_with_entry(info_hash);
    assert!(idle.scheduler.mark_in_progress(info_hash));
    assert_eq!(check_demand_planner_invariants(&idle), Err(DemandPlannerViolation::IdleMark));

    let mut unwanted = planner_with_entry(info_hash);
    unwanted.scheduler.entries.get_mut(&info_hash).expect("entry").subscriber_count = 0;
    assert_eq!(
        check_demand_planner_invariants(&unwanted),
        Err(DemandPlannerViolation::UnwantedDemand)
    );

    let mut overlapping = planner_with_entry(info_hash);
    assert!(overlapping.scheduler.mark_in_progress(info_hash));
    overlapping.active.insert(info_hash, active_lookup(LookupId(1), class));
    overlapping.pending_starts.insert(info_hash, class);
    assert_eq!(
        check_demand_planner_invariants(&overlapping),
        Err(DemandPlannerViolation::OverlappingWork)
    );

    let mut crowded = DemandPlannerModel::new(BASE);
    for index in 0..7 {
        let key = hash_index(index);
        crowded.scheduler.register(key, demand(false, 0), BASE);
        assert!(crowded.scheduler.mark_in_progress(key));
        crowded.active.insert(key, active_lookup(LookupId(u64::from(index)), class));
    }
    assert_eq!(
        check_demand_planner_invariants(&crowded),
        Err(DemandPlannerViolation::SlotsExceeded)
    );
}

#[test]
fn reports_name_actions_and_effects() {
    let info_hash = hash_index(1);
    let action = DemandPlannerAction::DemandRegistered {
        info_hash,
        demand: demand(true, 2),
        now: BASE,
    };
    let view = DemandPlannerActionView::from_action(&action);
    assert_eq!(view.kind, "demand_registered");
    assert_eq!(view.info_hash, Some(info_hash));
    assert_eq!(view.demand_class, Some(DemandSliceClass::AwaitingMetadata));
    assert_eq!(view.demand_connected_peers, Some(2));
    assert_eq!(view.slice_class, None);

    let mut runtime_ready = InfoHashMap::new();
    runtime_ready.insert(hash_index(1), true);
    runtime_ready.insert(hash_index(2), false);
    runtime_ready.insert(hash_index(3), true);
    let tick = DemandPlannerAction::DrainTick { now: BASE, runtime_ready };
    let view = DemandPlannerActionView::from_action(&tick);
    assert_eq!(view.kind, "drain_tick");
    assert_eq!(view.runtime_ready_count, Some(2));

    let mut planner = planner_with_entry(info_hash);
    let effects =
        planner.update(DemandPlannerAction::PlanDue { now: BASE, runtime_available: true }).effects;
    let view = DemandPlannerEffectView::from_effect(&effects[0]);
    assert_eq!(view.kind, "start_lookup");
    assert_eq!(view.info_hash, Some(info_hash));
    assert_eq!(view.selection_reason, Some(DemandSelectionReason::OverdueScarce));
    assert_eq!(view.plan_power_multiplier, Some(1));
    assert_eq!(view.plan_unique_peer_cap, Some(48));
}

#[test]
fn kinds_are_named() {
    assert_eq!(
        DhtServiceAction::RuntimeWarning { warning: String::new() }.kind(),
        "runtime_warning"
    );
    assert_eq!(DhtServiceEffect::ResetDemandPlanner.kind(), "reset_demand_planner");
    assert_eq!(
        DhtDemandCommandAction::Unregister {
            info_hash: hash_index(1),
            subscriber_id: 1,
            now: BASE,
        }
        .kind(),
        "unregister"
    );
    assert_eq!(DhtDemandCommandEffect::StartDueDemands.kind(), "start_due_demands");
}

#[test]
fn demand_with_the_last_subscriber_gone_leaves_nothing_running() {
    let info_hash = hash_index(1);
    let mut planner = planner_with_entry(info_hash);
    planner.update(DemandPlannerAction::PlanDue { now: BASE, runtime_available: true });
    planner.update(DemandPlannerAction::LookupStarted {
        info_hash,
        slice_class: DemandSliceClass::NoConnectedPeers,
        lookup_ids: vec![LookupId(1)],
    });
    let removed = planner.update(DemandPlannerAction::DemandSubscriberRemoved { info_hash });
    assert_eq!(removed.effects.len(), 1);
    assert!(planner.active.is_empty());
    assert!(planner.scheduler.entry_snapshots().is_empty());
    assert_eq!(check_demand_planner_invariants(&planner), Ok(()));
}

#[test]
fn virtual_slots_leave_room_for_the_rest() {
    assert_eq!(drain_virtual_slot_count(0), 0);
    assert_eq!(drain_virtual_slot_count(16), 1);
    assert_eq!(drain_virtual_slot_count(17), 2);
    assert_eq!(drain_virtual_slot_count(usize::MAX), usize::MAX / 16);
    let active: InfoHashMap<ActiveDemandLookup> = InfoHashMap::new();
    assert_eq!(demand_lookup_launch_budget(&active, 0), 5);
    assert_eq!(demand_lookup_launch_budget(&active, 16 * 8), 2);
    assert_eq!(demand_lookup_launch_budget(&active, 16 * 10), 0);
}

#[test]
fn metrics_summary_names_each_class() {
    let mut metrics = DemandSliceMetrics::default();
    assert!(!metrics.has_activity());
    metrics.record_stop(
        DemandSliceClass::RoutineRefresh,
        DemandSliceStopReason::FirstBatch,
        7,
        4,
    );
    assert!(metrics.has_activity());
    assert_eq!(metrics.class_ref(DemandSliceClass::RoutineRefresh).first_batch_stops, 1);
    assert_eq!(metrics.routine_refresh.peers_yielded, 7);
    for name in ["awaiting(", "no_peers(", "routine("] {
        assert!(metrics.summary().contains(name));
    }
}

#[test]
fn failed_start_gives_its_token_back_and_leaves_the_rest_alone() {
    let info_hash = hash_index(70);
    let other = hash_index(71);
    let class = DemandSliceClass::NoConnectedPeers;
    let mut planner = planner_with_entry(info_hash);
    planner.scheduler.register(other, demand(true, 0), BASE);
    let planned =
        planner.update(DemandPlannerAction::PlanDue { now: BASE, runtime_available: true });
    assert_eq!(planned.effects.len(), 2);
    assert_eq!(planner.budget.no_connected_peers.tokens_scaled, 9_000);
    assert_eq!(planner.budget.awaiting_metadata.tokens_scaled, 19_000);

    let failed = planner.update(DemandPlannerAction::LookupStartFailed {
        info_hash,
        slice_class: class,
        now: BASE,
    });
    assert!(failed.effects.is_empty());
    assert!(failed.plan_stats.is_none());
    assert!(!planner.pending_starts.contains_key(&info_hash));
    assert!(planner.pending_starts.contains_key(&other));
    let snapshot = planner.scheduler.entry_snapshot(info_hash).expect("entry");
    assert!(!snapshot.in_progress);
    assert_eq!(snapshot.next_eligible_at, BASE + 16 * SECOND);
    assert_eq!(planner.budget.no_connected_peers.tokens_scaled, 10_000);
    assert_eq!(planner.budget.awaiting_metadata.tokens_scaled, 19_000);
    assert!(planner.active.is_empty());
    assert!(planner.draining_demands.is_empty());
    assert!(planner.parked_crawls.is_empty());
}

#[test]
fn refilling_often_loses_no_fraction_of_a_token() {
    let mut often = DemandLaunchTokenBucket::new(20, 8, BASE);
    for _ in 0..8 {
        assert!(often.try_consume(BASE));
    }
    let mut once = DemandLaunchTokenBucket { ..often };
    for step in 1..=1_000 {
        often.refill(BASE + step * MILLISECOND);
    }
    once.refill(BASE + SECOND);
    assert_eq!(often, once);
    assert_eq!(once.tokens_scaled, 333);
}

#[test]
fn power_is_told_in_halves() {
    assert_eq!(power_scale_halves(3), 6);
    assert_eq!(build_wave_telemetry(None, 0, power_scale_halves(4)).demand_power_multiplier, 4);
}
