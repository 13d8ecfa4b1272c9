use dht_service::clock::{Instant, MILLISECOND, SECOND};
use dht_service::demand::{DhtDemandMetrics, DhtDemandState};
use dht_service::effects::apply_demand_planner_effects;
use dht_service::ids::{AddressFamily, InfoHash, LookupId, PeerAddr};
use dht_service::peers::PeerSet;
use dht_service::planner::actions::{DemandPlannerAction, DemandPlannerEffect};
use dht_service::planner::budget::DemandPlannerBudget;
use dht_service::planner::checks::check_demand_planner_invariants;
use dht_service::planner::counts::DemandSlotCounts;
use dht_service::planner::history::DemandPlannerState;
use dht_service::planner::metrics::DemandSliceMetrics;
use dht_service::planner::model::DemandPlannerModel;
use dht_service::planner::selection::select_due_demand_launches_with_stats;
use dht_service::runtime::ledger::{LookupLedger, LookupPhase, RuntimeLookup};
use dht_service::scheduler::DueDemandCandidate;
use dht_service::slice::{
    demand_lookup_class_slot_cap, DemandSliceClass, DemandSliceStopReason, LookupQualitySnapshot,
};
use dht_service::table::InfoHashMap;

/// The time at which the tests begin.
const BASE: Instant = 1_000_000 * SECOND;

fn hash_index(index: u32) -> InfoHash {
    let mut bytes = [0u8; 20];
    bytes[..4].copy_from_slice(&index.to_be_bytes());
    InfoHash::from_bytes(bytes)
}

fn ipv4(a: u8, b: u8, c: u8, d: u8, port: u16) -> PeerAddr {
    PeerAddr::V4 { ip: u32::from_be_bytes([a, b, c, d]), port }
}

fn peer_list(key: u8, count: u8) -> Vec<PeerAddr> {
    (0..count)
        .map(|index| ipv4(127, key, index, key.wrapping_add(index), 40_000 + u16::from(index)))
        .collect()
}

fn synthetic_peers(key: u8, count: u8) -> PeerSet {
    let mut peers = PeerSet::new();
    peers.extend(&peer_list(key, count));
    peers
}

/// A sequence of numbers that is the same in every run.
struct Numbers(u64);

impl Numbers {
    fn next(&mut self, bound: u64) -> u64 {
        self.0 = self
            .0
            .wrapping_mul(6_364_136_223_846_793_005)
            .wrapping_add(1_442_695_040_888_963_407);
        (self.0 >> 33) % bound
    }
}

fn any_demand(numbers: &mut Numbers) -> DhtDemandState {
    DhtDemandState {
        awaiting_metadata: numbers.next(2) == 0,
        connected_peers: numbers.next(3) as usize,
    }
}

fn any_stop_reason(numbers: &mut Numbers) -> DemandSliceStopReason {
    match numbers.next(4) {
        0 => DemandSliceStopReason::WallTime,
        1 => DemandSliceStopReason::IdleTimeout,
        2 => DemandSliceStopReason::FirstBatch,
        _ => DemandSliceStopReason::UniquePeerCap,
    }
}

struct PlannerMachine {
    now: Instant,
    planner: DemandPlannerModel,
    runtime: Option<LookupLedger>,
    metrics: DemandSliceMetrics,
    next_lookup_id: u64,
}

impl PlannerMachine {
    fn new() -> Self {
        PlannerMachine {
            now: BASE,
            planner: DemandPlannerModel::new(BASE),
            runtime: Some(LookupLedger::new(Vec::new())),
            metrics: DemandSliceMetrics::default(),
            next_lookup_id: 1,
        }
    }

    fn apply(&mut self, effects: Vec<DemandPlannerEffect>) {
        apply_demand_planner_effects(
            &mut self.runtime,
            &mut self.planner,
            &mut self.metrics,
            effects,
            self.now,
        );
    }

    fn plan(&mut self, numbers: &mut Numbers) {
        let reduction = self.planner.update(DemandPlannerAction::PlanDue {
            now: self.now,
            runtime_available: numbers.next(8) > 0,
        });
        for effect in reduction.effects {
            let DemandPlannerEffect::StartLookup(start) = effect else {
                continue;
            };
            let info_hash = start.candidate.info_hash;
            let slice_class = start.plan.class;
            if numbers.next(5) == 0 {
                self.planner.update(DemandPlannerAction::LookupStartFailed {
                    info_hash,
                    slice_class,
                    now: self.now,
                });
                continue;
            }
            let lookup_id = LookupId(self.next_lookup_id);
            self.next_lookup_id += 1;
            self.runtime.as_mut().expect("runtime").lookups.push(RuntimeLookup {
                lookup_id,
                family: AddressFamily::Ipv4,
                quality: LookupQualitySnapshot {
                    frontier_len: numbers.next(20) as usize,
                    inflight_len: numbers.next(40) as usize,
                    visited_len: numbers.next(20) as usize,
                    eligible_responder_count: numbers.next(6) as usize,
                    received_peer_count: numbers.next(20) as usize,
                },
                phase: LookupPhase::Active,
            });
            self.planner.update(DemandPlannerAction::LookupStarted {
                info_hash,
                slice_class,
                lookup_ids: vec![lookup_id],
            });
        }
    }

    fn step(&mut self, numbers: &mut Numbers) {
        self.now += numbers.next(5_000) * MILLISECOND;
        let key = numbers.next(24) as u8;
        let info_hash = hash_index(u32::from(key));
        match numbers.next(10) {
            0 | 1 => {
                let demand = any_demand(numbers);
                let effects = self
                    .planner
                    .update(DemandPlannerAction::DemandRegistered {
                        info_hash,
                        demand,
                        now: self.now,
                    })
                    .effects;
                self.apply(effects);
            }
            2 => {
                let demand = any_demand(numbers);
                let effects = self
                    .planner
                    .update(DemandPlannerAction::DemandUpdated {
                        info_hash,
                        demand,
                        now: self.now,
                    })
                    .effects;
                self.apply(effects);
            }
            3 => {
                let effects = self
                    .planner
                    .update(DemandPlannerAction::DemandSubscriberRemoved { info_hash })
                    .effects;
                self.apply(effects);
            }
            4 | 5 => self.plan(numbers),
            6 => {
                let Some(active) = self.planner.active.get(&info_hash) else {
                    return;
                };
                let slice_class = active.slice_class;
                let effects = self
                    .planner
                    .update(DemandPlannerAction::LookupFinished {
                        info_hash,
                        slice_class,
                        total_peers: 4,
                        unique_peers: 3,
                        now: self.now,
                    })
                    .effects;
                self.apply(effects);
            }
            7 => {
                let Some(active) = self.planner.active.get(&info_hash) else {
                    return;
                };
                let slice_class = active.slice_class;
                let lookup_ids = active.lookup_ids.clone();
                let count = numbers.next(12) as u8;
                let effects = self
                    .planner
                    .update(DemandPlannerAction::LookupParkRequested {
                        info_hash,
                        slice_class,
                        stop_reason: any_stop_reason(numbers),
                        total_peers: usize::from(count),
                        unique_peers: synthetic_peers(key, count),
                        lookup_ids,
                    })
                    .effects;
                self.apply(effects);
            }
            8 => {
                let peers = peer_list(key.wrapping_add(1), numbers.next(6) as u8);
                let effects = self
                    .planner
                    .update(DemandPlannerAction::PeersReceived { info_hash, peers: &peers })
                    .effects;
                self.apply(effects);
            }
            _ => {
                if numbers.next(12) == 0 {
                    self.planner.update(DemandPlannerAction::RuntimeReset { now: self.now });
                    self.runtime = Some(LookupLedger::new(Vec::new()));
                    return;
                }
                let runtime_ready = self.planner.drain_runtime_readiness(&self.runtime);
                let effects = self
                    .planner
                    .update(DemandPlannerAction::DrainTick { now: self.now, runtime_ready })
                    .effects;
                self.apply(effects);
            }
        }
    }

    fn assert_invariants(&self) {
        assert_eq!(check_demand_planner_invariants(&self.planner), Ok(()));
        assert!(self.planner.pending_starts.is_empty());
        assert!(self.planner.pending_parks.is_empty());
        let mut lookup_ids: Vec<LookupId> = Vec::new();
        for i in 0..self.planner.active.len() {
            lookup_ids.extend(&self.planner.active.value_at(i).lookup_ids);
        }
        for i in 0..self.planner.draining_demands.len() {
            let drain = self.planner.draining_demands.value_at(i);
            lookup_ids.extend(&drain.lookup_ids);
            assert!(!drain.lookup_ids.is_empty());
            assert!(drain.deadline >= drain.started_at);
            assert!(drain.no_late_yield_deadline <= drain.deadline);
            assert!(drain.unique_peer_count() >= drain.initial_unique_peers);
            assert!(drain.total_peers >= drain.unique_peer_count());
            assert!(drain.initial_inflight_queries > 0);
        }
        for (i, lookup_id) in lookup_ids.iter().enumerate() {
            assert!(!lookup_ids[..i].contains(lookup_id));
        }
        let snapshots = self.planner.scheduler.entry_snapshots();
        assert_eq!(
            self.planner.metadata_waiter_count(),
            snapshots.iter().filter(|snapshot| snapshot.demand.awaiting_metadata).count()
        );
        for candidate in self.planner.scheduler.due_candidates(self.now) {
            assert!(!self.planner.active.contains_key(&candidate.info_hash));
            assert!(!self.planner.draining_demands.contains_key(&candidate.info_hash));
        }
    }
}

#[test]
fn demand_planner_state_machine_preserves_capacity_and_entry_invariants() {
    let mut drained = false;
    for seed in 0..24 {
        let mut numbers = Numbers(seed);
        let mut machine = PlannerMachine::new();
        for _ in 0..200 {
            machine.step(&mut numbers);
            machine.assert_invariants();
            drained = drained || machine.planner.has_draining_demands();
        }
        assert!(machine.next_lookup_id > 1);
    }
    assert!(drained);
}

#[test]
fn demand_planner_selection_respects_caps_budget_and_stats() {
    for seed in 0..48 {
        let mut numbers = Numbers(1_000 + seed);
        let count = numbers.next(96) as u32;
        let mut candidates = Vec::new();
        let mut history = InfoHashMap::new();
        for index in 0..count {
            let info_hash = hash_index(index);
            candidates.push(DueDemandCandidate {
                info_hash,
                demand: any_demand(&mut numbers),
                metrics: DhtDemandMetrics::default(),
                next_eligible_at: BASE - numbers.next(1_200_000) * MILLISECOND,
                subscriber_count: 1 + numbers.next(8) as usize,
            });
            if numbers.next(2) == 0 {
                let at = BASE - numbers.next(1_200_000) * MILLISECOND;
                history.insert(
                    info_hash,
                    DemandPlannerState {
                        last_started_at: Some(at - 250 * MILLISECOND),
                        last_finished_at: Some(at),
                        last_useful_yield_at: Some(at),
                        last_unique_peers: numbers.next(96) as usize,
                    },
                );
            }
        }
        let active = DemandSlotCounts {
            awaiting_metadata: numbers.next(12) as usize,
            no_connected_peers: numbers.next(12) as usize,
            routine_refresh: numbers.next(12) as usize,
        };
        let limit = numbers.next(12) as usize;
        let selection = select_due_demand_launches_with_stats(
            &candidates,
            active,
            &InfoHashMap::new(),
            &history,
            &mut DemandPlannerBudget::new(BASE),
            BASE,
            limit,
        );
        assert!(selection.launches.len() <= limit);
        let mut launched = DemandSlotCounts::default();
        for (i, launch) in selection.launches.iter().enumerate() {
            assert!(candidates.contains(launch));
            assert!(selection.launches[..i]
                .iter()
                .all(|other| other.info_hash != launch.info_hash));
            launched.record(DemandSliceClass::from_demand(launch.demand));
        }
        let mut offered = DemandSlotCounts::default();
        for candidate in &candidates {
            offered.record(DemandSliceClass::from_demand(candidate.demand));
        }
        for class in [
            DemandSliceClass::AwaitingMetadata,
            DemandSliceClass::NoConnectedPeers,
            DemandSliceClass::RoutineRefresh,
        ] {
            let cap = demand_lookup_class_slot_cap(class);
            assert!(launched.count(class) <= cap.saturating_sub(active.count(class)));
            assert_eq!(
                selection.stats.throttled.count(class),
                offered.count(class) - launched.count(class)
            );
        }
        assert_eq!(selection.stats.offered, offered);
        assert_eq!(selection.stats.launched, launched);
    }
}
