use vstd::prelude::*;

use crate::clock::{elapsed, millis, Duration, Instant, MILLISECOND, SECOND};
use crate::ids::{AddressFamily, InfoHash, LookupId, PeerAddr};
use crate::limits::{
    DHT_AWAITING_METADATA_DRAIN_NO_LATE_YIELD_GRACE, DHT_DEMAND_DRAIN_MAX_INFLIGHT_QUERIES,
    DHT_DEMAND_DRAIN_NO_LATE_YIELD_GRACE, DHT_DEMAND_DRAIN_POLL_INTERVAL,
    DHT_ROUTINE_DRAIN_NO_LATE_YIELD_GRACE,
};
use crate::peers::PeerSet;
use crate::planner::actions::{
    effects_view, effects_wf, DemandDrainAdmissionSnapshot, DemandDrainPeersRecordedEffect,
    DemandPlannerEffect, DemandPlannerReduction, PlannerEffectView,
};
use crate::planner::crawl::{aggregate_lookup_quality, total_quality, DemandCrawlState, LookupState};
use crate::planner::lookups::{DrainView, DrainedDemandOutcome, DrainingDemandLookup};
use crate::planner::metrics::DemandSliceMetrics;
use crate::planner::plan::known;
use crate::runtime::ledger::{LedgerView, LookupLedger, RuntimeRequest};
use crate::slice::{
    AggregateLookupQualitySnapshot, DemandParkedSliceOutcome, DemandSliceClass,
    DemandSliceStopReason,
};
use crate::table::{keys_after_insert, keys_after_remove, InfoHashMap};

verus! {

// Parked crawls.

/// What taking the lookup of an address family out of the parked crawls gives: the lookup, the
/// crawls and the counts. A crawl that is not worth resuming is thrown away as a whole; one that
/// holds nothing more goes too.
pub open spec fn taken_parked(
    parked_crawls: Map<InfoHash, DemandCrawlState>,
    metrics: DemandSliceMetrics,
    record_metrics: bool,
    info_hash: InfoHash,
    family: AddressFamily,
    slice_class: DemandSliceClass,
    now: Instant,
) -> (Option<LookupState>, Map<InfoHash, DemandCrawlState>, DemandSliceMetrics) {
    if !parked_crawls.contains_key(info_hash) {
        (None, parked_crawls, metrics)
    } else {
        let crawl = parked_crawls[info_hash];
        match crawl.reset_reason(slice_class, now) {
            Some(reason) => (
                None,
                parked_crawls.remove(info_hash),
                if record_metrics {
                    metrics.with(crawl.class, metrics.of(crawl.class).with_reset(reason))
                } else {
                    metrics
                },
            ),
            None => (
                crawl.state_of(family),
                if crawl.taken(family, now).without_states() {
                    parked_crawls.remove(info_hash)
                } else {
                    parked_crawls.insert(info_hash, crawl.taken(family, now))
                },
                metrics,
            ),
        }
    }
}

pub fn take_parked_family_state(
    parked_crawls: &mut InfoHashMap<DemandCrawlState>,
    slice_metrics: &mut DemandSliceMetrics,
    record_metrics: bool,
    info_hash: InfoHash,
    family: AddressFamily,
    slice_class: DemandSliceClass,
    now: Instant,
) -> (state: Option<LookupState>)
    requires
        old(parked_crawls).wf(),
    ensures
        (state, final(parked_crawls)@, *final(slice_metrics)) == taken_parked(
            old(parked_crawls)@,
            *old(slice_metrics),
            record_metrics,
            info_hash,
            family,
            slice_class,
            now,
        ),
        final(parked_crawls).wf(),
{
    let mut crawl = match parked_crawls.get(&info_hash) {
        Some(crawl) => *crawl,
        None => return None,
    };
    match crawl.reset_reason_for(slice_class, now) {
        Some(reason) => {
            if record_metrics {
                slice_metrics.record_reset(crawl.class, reason);
            }
            parked_crawls.remove(&info_hash);
            None
        },
        None => {
            let state = crawl.take_family_state(family, now);
            if crawl.is_empty() {
                parked_crawls.remove(&info_hash);
            } else {
                parked_crawls.insert(info_hash, crawl);
            }
            state
        },
    }
}

/// How a stopped slice did, where it is known why it stopped.
pub open spec fn outcome_for_quality(
    slice_class: DemandSliceClass,
    stop_reason: Option<DemandSliceStopReason>,
    unique_peers: nat,
    quality: AggregateLookupQualitySnapshot,
) -> Option<DemandParkedSliceOutcome> {
    match stop_reason {
        Some(reason) => Some(
            slice_class.outcome(reason, unique_peers, slice_class.is_weak(quality)),
        ),
        None => None,
    }
}

/// The crawl of a demand once lookups have been parked.
pub open spec fn crawl_with_states(
    known_crawl: Option<DemandCrawlState>,
    slice_class: DemandSliceClass,
    outcome: Option<DemandParkedSliceOutcome>,
    states: Seq<LookupState>,
    now: Instant,
) -> DemandCrawlState {
    let crawl = match known_crawl {
        Some(crawl) => crawl,
        None => DemandCrawlState::fresh(now, slice_class),
    };
    let observed = match outcome {
        Some(outcome) => crawl.observed(slice_class, outcome, now),
        None => crawl,
    };
    observed.stored_all(slice_class, states, now)
}

/// How a slice did whose lookups are parked, and the parked crawls after that. Without a lookup
/// nothing is known and nothing changes.
pub open spec fn stored_parked(
    parked_crawls: Map<InfoHash, DemandCrawlState>,
    info_hash: InfoHash,
    slice_class: DemandSliceClass,
    stop_reason: Option<DemandSliceStopReason>,
    unique_peers: nat,
    states: Seq<LookupState>,
    now: Instant,
) -> (Option<DemandParkedSliceOutcome>, Map<InfoHash, DemandCrawlState>) {
    if states.len() == 0 {
        (None, parked_crawls)
    } else {
        let outcome = outcome_for_quality(
            slice_class,
            stop_reason,
            unique_peers,
            total_quality(states),
        );
        (
            outcome,
            parked_crawls.insert(
                info_hash,
                crawl_with_states(
                    known(parked_crawls, info_hash),
                    slice_class,
                    outcome,
                    states,
                    now,
                ),
            ),
        )
    }
}

pub fn store_parked_lookup_states(
    parked_crawls: &mut InfoHashMap<DemandCrawlState>,
    info_hash: InfoHash,
    slice_class: DemandSliceClass,
    stop_reason: Option<DemandSliceStopReason>,
    unique_peers: usize,
    states: Vec<LookupState>,
    now: Instant,
) -> (outcome: Option<DemandParkedSliceOutcome>)
    ensures
        (outcome, final(parked_crawls)@) == stored_parked(
            old(parked_crawls)@,
            info_hash,
            slice_class,
            stop_reason,
            unique_peers as nat,
            states@,
            now,
        ),
        old(parked_crawls).wf() ==> final(parked_crawls).wf(),
{
    if states.len() == 0 {
        return None;
    }
    let quality = aggregate_lookup_quality(states.as_slice());
    let parked_outcome = parked_slice_outcome_for_quality(
        slice_class,
        stop_reason,
        unique_peers,
        quality,
    );
    let mut crawl = match parked_crawls.get(&info_hash) {
        Some(crawl) => *crawl,
        None => DemandCrawlState::new(now, slice_class),
    };
    if let Some(outcome) = parked_outcome {
        crawl.observe_parked_slice(slice_class, outcome, now);
    }
    let ghost observed = crawl;
    let mut i: usize = 0;
    while i < states.len()
        invariant
            0 <= i <= states@.len(),
            crawl == observed.stored_all(slice_class, states@.take(i as int), now),
        decreases states@.len() - i,
    {
        crawl.store_family_state(slice_class, states[i], now);
        assert(states@.take(i + 1).drop_last() =~= states@.take(i as int));
        i = i + 1;
    }
    assert(states@.take(i as int) =~= states@);
    parked_crawls.insert(info_hash, crawl);
    parked_outcome
}

pub fn parked_slice_outcome_for_quality(
    slice_class: DemandSliceClass,
    stop_reason: Option<DemandSliceStopReason>,
    unique_peers: usize,
    quality: AggregateLookupQualitySnapshot,
) -> (outcome: Option<DemandParkedSliceOutcome>)
    ensures
        outcome == outcome_for_quality(slice_class, stop_reason, unique_peers as nat, quality),
{
    let weak_parked_state = slice_class.parked_quality_is_weak(quality);
    match stop_reason {
        Some(reason) => Some(
            slice_class.parked_slice_outcome(reason, unique_peers, weak_parked_state),
        ),
        None => None,
    }
}

/// Whether a crawl is worth keeping.
pub open spec fn worth_keeping(crawl: DemandCrawlState, now: Instant) -> bool {
    !crawl.stale(now) && !crawl.without_states()
}

/// The crawls that are worth keeping.
pub open spec fn kept_crawls(
    parked_crawls: Map<InfoHash, DemandCrawlState>,
    now: Instant,
) -> Map<InfoHash, DemandCrawlState> {
    parked_crawls.restrict(
        parked_crawls.dom().filter(
            |key: InfoHash| worth_keeping(parked_crawls[key], now),
        ),
    )
}

pub fn evict_stale_parked_crawls(
    parked_crawls: &mut InfoHashMap<DemandCrawlState>,
    now: Instant,
)
    requires
        old(parked_crawls).wf(),
    ensures
        final(parked_crawls)@ == kept_crawls(old(parked_crawls)@, now),
        final(parked_crawls).wf(),
{
    let mut kept: InfoHashMap<DemandCrawlState> = InfoHashMap::new();
    let ghost keys = parked_crawls.keys();
    let ghost crawls = parked_crawls@;
    let mut i: usize = 0;
    proof {
        parked_crawls.lemma_domain();
    }
    while i < parked_crawls.len()
        invariant
            0 <= i <= keys.len(),
            keys == parked_crawls.keys(),
            crawls == parked_crawls@,
            parked_crawls.wf(),
            kept.wf(),
            forall|key: InfoHash| #[trigger]
                kept@.contains_key(key) <==> (exists|j: int|
                    0 <= j < i && #[trigger] keys[j] == key) && worth_keeping(crawls[key], now),
            forall|key: InfoHash| #[trigger]
                kept@.contains_key(key) ==> kept@[key] == crawls[key],
        decreases keys.len() - i,
    {
        let key = parked_crawls.key_at(i);
        let crawl = *parked_crawls.value_at(i);
        let ghost before = kept@;
        if !crawl.is_stale(now) && !crawl.is_empty() {
            kept.insert(key, crawl);
        }
        proof {
            assert forall|other: InfoHash| #[trigger]
                kept@.contains_key(other) <==> (exists|j: int|
                    0 <= j < i + 1 && #[trigger] keys[j] == other) && worth_keeping(
                    crawls[other],
                    now,
                ) by {
                if other == key {
                    assert(keys[i as int] == other);
                } else {
                    assert(kept@.contains_key(other) == before.contains_key(other));
                }
            }
        }
        i = i + 1;
    }
    proof {
        assert forall|key: InfoHash| #[trigger]
            kept@.contains_key(key) == kept_crawls(crawls, now).contains_key(key) by {
            if crawls.contains_key(key) {
                assert(keys[keys.index_of(key)] == key);
            }
            if exists|j: int| 0 <= j < i && #[trigger] keys[j] == key {
                assert(keys.contains(key));
            }
        }
        assert(kept@ =~= kept_crawls(crawls, now));
    }
    *parked_crawls = kept;
}

/// What parking the lookups of a demand leaves behind.
pub struct ParkingView {
    pub outcome: Option<DemandParkedSliceOutcome>,
    pub parked_crawls: Map<InfoHash, DemandCrawlState>,
    pub ledger: Option<LedgerView>,
}

/// The content of a runtime's ledger, where there is a runtime.
pub open spec fn ledger_view(runtime: Option<LookupLedger>) -> Option<LedgerView> {
    match runtime {
        Some(ledger) => Some(ledger@),
        None => None,
    }
}

/// Parking lookups with a runtime. Without a runtime there is nothing to park.
pub open spec fn parked_lookups(
    ledger: Option<LedgerView>,
    parked_crawls: Map<InfoHash, DemandCrawlState>,
    info_hash: InfoHash,
    slice_class: DemandSliceClass,
    stop_reason: Option<DemandSliceStopReason>,
    unique_peers: nat,
    lookup_ids: Seq<LookupId>,
    now: Instant,
) -> ParkingView {
    match ledger {
        Some(ledger) => {
            let (after, states) = ledger.parked_all(lookup_ids);
            let (outcome, crawls) = stored_parked(
                parked_crawls,
                info_hash,
                slice_class,
                stop_reason,
                unique_peers,
                states,
                now,
            );
            ParkingView { outcome, parked_crawls: crawls, ledger: Some(after) }
        },
        None => ParkingView { outcome: None, parked_crawls, ledger: None },
    }
}

pub fn park_lookup_ids(
    active_runtime: &mut Option<LookupLedger>,
    parked_crawls: &mut InfoHashMap<DemandCrawlState>,
    info_hash: InfoHash,
    slice_class: DemandSliceClass,
    stop_reason: Option<DemandSliceStopReason>,
    unique_peers: usize,
    lookup_ids: Vec<LookupId>,
    now: Instant,
) -> (outcome: Option<DemandParkedSliceOutcome>)
    ensures
        (ParkingView {
            outcome,
            parked_crawls: final(parked_crawls)@,
            ledger: ledger_view(*final(active_runtime)),
        }) == parked_lookups(
            ledger_view(*old(active_runtime)),
            old(parked_crawls)@,
            info_hash,
            slice_class,
            stop_reason,
            unique_peers as nat,
            lookup_ids@,
            now,
        ),
        old(parked_crawls).wf() ==> final(parked_crawls).wf(),
{
    match active_runtime {
        Some(runtime) => {
            let parked_states = runtime.park_lookups(lookup_ids.as_slice());
            store_parked_lookup_states(
                parked_crawls,
                info_hash,
                slice_class,
                stop_reason,
                unique_peers,
                parked_states,
                now,
            )
        },
        None => None,
    }
}

pub fn cancel_lookup_ids_to_parked(
    active_runtime: &mut LookupLedger,
    parked_crawls: &mut InfoHashMap<DemandCrawlState>,
    info_hash: InfoHash,
    slice_class: DemandSliceClass,
    stop_reason: DemandSliceStopReason,
    unique_peer_count: usize,
    lookup_ids: Vec<LookupId>,
    now: Instant,
)
    ensures
        (final(active_runtime)@, final(parked_crawls)@) == ({
            let (after, states) = old(active_runtime)@.parked_all(lookup_ids@);
            (
                after,
                stored_parked(
                    old(parked_crawls)@,
                    info_hash,
                    slice_class,
                    Some(stop_reason),
                    unique_peer_count as nat,
                    states,
                    now,
                ).1,
            )
        }),
        old(parked_crawls).wf() ==> final(parked_crawls).wf(),
{
    let parked_states = active_runtime.park_lookups(lookup_ids.as_slice());
    store_parked_lookup_states(
        parked_crawls,
        info_hash,
        slice_class,
        Some(stop_reason),
        unique_peer_count,
        parked_states,
        now,
    );
}

// Whether and for how long a stopped lookup is drained.

/// The time that a class gives a slice by how it did.
pub open spec fn base_drain_time(
    slice_class: DemandSliceClass,
    parked_outcome: Option<DemandParkedSliceOutcome>,
    unique_peers: nat,
) -> Duration {
    match (slice_class, parked_outcome) {
        (DemandSliceClass::AwaitingMetadata, Some(DemandParkedSliceOutcome::UsefulYield)) =>
            (5 * SECOND) as u64,
        (DemandSliceClass::AwaitingMetadata, Some(DemandParkedSliceOutcome::Ignored)) | (
            DemandSliceClass::AwaitingMetadata,
            None,
        ) => if unique_peers > 0 {
            (2 * SECOND) as u64
        } else {
            0
        },
        (DemandSliceClass::AwaitingMetadata, Some(_)) => (2 * SECOND) as u64,
        (DemandSliceClass::NoConnectedPeers, Some(DemandParkedSliceOutcome::UsefulYield)) =>
            (5 * SECOND) as u64,
        (DemandSliceClass::NoConnectedPeers, Some(DemandParkedSliceOutcome::HealthyLowYield)) =>
            (2 * SECOND) as u64,
        (DemandSliceClass::NoConnectedPeers, Some(DemandParkedSliceOutcome::WeakLowYield))
        | (DemandSliceClass::NoConnectedPeers, Some(DemandParkedSliceOutcome::HealthyZeroYield)) =>
            SECOND,
        (DemandSliceClass::RoutineRefresh, Some(DemandParkedSliceOutcome::UsefulYield)) =>
            (2 * SECOND) as u64,
        (DemandSliceClass::RoutineRefresh, Some(DemandParkedSliceOutcome::WeakLowYield))
        | (DemandSliceClass::RoutineRefresh, Some(DemandParkedSliceOutcome::HealthyZeroYield))
        | (DemandSliceClass::RoutineRefresh, Some(DemandParkedSliceOutcome::HealthyLowYield)) =>
            SECOND,
        _ => 0,
    }
}

/// The longest drain that a reason to stop allows.
pub open spec fn drain_time_limit(
    stop_reason: DemandSliceStopReason,
    unique_peers: nat,
) -> Duration {
    match stop_reason {
        DemandSliceStopReason::UniquePeerCap => (2 * SECOND) as u64,
        DemandSliceStopReason::FirstBatch => SECOND,
        DemandSliceStopReason::IdleTimeout => if unique_peers == 0 {
            SECOND
        } else {
            u64::MAX
        },
        _ => u64::MAX,
    }
}

/// How long a stopped lookup is drained, if at all.
pub open spec fn drain_time(
    slice_class: DemandSliceClass,
    stop_reason: DemandSliceStopReason,
    parked_outcome: Option<DemandParkedSliceOutcome>,
    unique_peers: nat,
) -> Option<Duration> {
    let base = base_drain_time(slice_class, parked_outcome, unique_peers);
    let limit = drain_time_limit(stop_reason, unique_peers);
    if base == 0 {
        None
    } else if base < limit {
        Some(base)
    } else {
        Some(limit)
    }
}

pub fn demand_drain_duration(
    slice_class: DemandSliceClass,
    stop_reason: DemandSliceStopReason,
    parked_outcome: Option<DemandParkedSliceOutcome>,
    unique_peers: usize,
) -> (duration: Option<Duration>)
    ensures
        duration == drain_time(slice_class, stop_reason, parked_outcome, unique_peers as nat),
{
    let mut duration: Duration = match slice_class {
        DemandSliceClass::AwaitingMetadata => match parked_outcome {
            Some(DemandParkedSliceOutcome::UsefulYield) => 5 * SECOND,
            Some(
                DemandParkedSliceOutcome::WeakLowYield
                | DemandParkedSliceOutcome::HealthyZeroYield
                | DemandParkedSliceOutcome::HealthyLowYield,
            ) => 2 * SECOND,
            Some(DemandParkedSliceOutcome::Ignored) | None => {
                if unique_peers > 0 {
                    2 * SECOND
                } else {
                    0
                }
            },
        },
        DemandSliceClass::NoConnectedPeers => match parked_outcome {
            Some(DemandParkedSliceOutcome::UsefulYield) => 5 * SECOND,
            Some(DemandParkedSliceOutcome::HealthyLowYield) => 2 * SECOND,
            Some(
                DemandParkedSliceOutcome::WeakLowYield | DemandParkedSliceOutcome::HealthyZeroYield,
            ) => SECOND,
            Some(DemandParkedSliceOutcome::Ignored) | None => 0,
        },
        DemandSliceClass::RoutineRefresh => match parked_outcome {
            Some(DemandParkedSliceOutcome::UsefulYield) => 2 * SECOND,
            Some(
                DemandParkedSliceOutcome::WeakLowYield
                | DemandParkedSliceOutcome::HealthyZeroYield
                | DemandParkedSliceOutcome::HealthyLowYield,
            ) => SECOND,
            Some(DemandParkedSliceOutcome::Ignored) | None => 0,
        },
    };

    if stop_reason == DemandSliceStopReason::UniquePeerCap && duration > 2 * SECOND {
        duration = 2 * SECOND;
    }
    if stop_reason == DemandSliceStopReason::FirstBatch && duration > SECOND {
        duration = SECOND;
    }
    if stop_reason == DemandSliceStopReason::IdleTimeout && unique_peers == 0 && duration
        > SECOND {
        duration = SECOND;
    }
    if duration > 0 {
        Some(duration)
    } else {
        None
    }
}

/// How long a drain waits for a first late peer.
pub open spec fn late_yield_grace(slice_class: DemandSliceClass) -> Duration {
    match slice_class {
        DemandSliceClass::AwaitingMetadata => DHT_AWAITING_METADATA_DRAIN_NO_LATE_YIELD_GRACE,
        DemandSliceClass::NoConnectedPeers => DHT_DEMAND_DRAIN_NO_LATE_YIELD_GRACE,
        DemandSliceClass::RoutineRefresh => DHT_ROUTINE_DRAIN_NO_LATE_YIELD_GRACE,
    }
}

pub fn demand_drain_no_late_yield_grace(slice_class: DemandSliceClass) -> (grace: Duration)
    ensures
        grace == late_yield_grace(slice_class),
{
    match slice_class {
        DemandSliceClass::AwaitingMetadata => DHT_AWAITING_METADATA_DRAIN_NO_LATE_YIELD_GRACE,
        DemandSliceClass::NoConnectedPeers => DHT_DEMAND_DRAIN_NO_LATE_YIELD_GRACE,
        DemandSliceClass::RoutineRefresh => DHT_ROUTINE_DRAIN_NO_LATE_YIELD_GRACE,
    }
}

/// The part of a drain's score that its class brings.
pub open spec fn class_score(slice_class: DemandSliceClass) -> int {
    match slice_class {
        DemandSliceClass::AwaitingMetadata => 60,
        DemandSliceClass::NoConnectedPeers => 30,
        DemandSliceClass::RoutineRefresh => 5,
    }
}

/// The part of a drain's score that the slice's outcome brings.
pub open spec fn outcome_score(parked_outcome: Option<DemandParkedSliceOutcome>) -> int {
    match parked_outcome {
        Some(DemandParkedSliceOutcome::UsefulYield) => 60,
        Some(DemandParkedSliceOutcome::HealthyLowYield) => 15,
        Some(DemandParkedSliceOutcome::WeakLowYield) => 5,
        Some(DemandParkedSliceOutcome::HealthyZeroYield) => -20,
        Some(DemandParkedSliceOutcome::Ignored) => -80,
        None => -80,
    }
}

/// The part of a drain's score that the reason to stop brings.
pub open spec fn stop_score(stop_reason: DemandSliceStopReason) -> int {
    match stop_reason {
        DemandSliceStopReason::NaturalFinish => -80,
        DemandSliceStopReason::IdleTimeout => -15,
        DemandSliceStopReason::WallTime => 0,
        DemandSliceStopReason::FirstBatch => -5,
        DemandSliceStopReason::UniquePeerCap => -10,
    }
}

/// The score of a drain: by class, outcome and reason to stop, one point for each of the first 64
/// unique peers, one point less for each dozen of queries in flight, cut off at the smallest `i32`.
pub open spec fn drain_score(
    slice_class: DemandSliceClass,
    stop_reason: DemandSliceStopReason,
    parked_outcome: Option<DemandParkedSliceOutcome>,
    unique_peers: nat,
    inflight_queries: usize,
) -> i32 {
    let score = class_score(slice_class) + outcome_score(parked_outcome) + stop_score(stop_reason)
        + (if unique_peers < 64 {
        unique_peers as int
    } else {
        64
    }) - inflight_queries / 12;
    if score < i32::MIN {
        i32::MIN
    } else {
        score as i32
    }
}

pub fn demand_drain_score(
    slice_class: DemandSliceClass,
    stop_reason: DemandSliceStopReason,
    parked_outcome: Option<DemandParkedSliceOutcome>,
    unique_peers: usize,
    inflight_queries: usize,
) -> (score: i32)
    ensures
        score == drain_score(
            slice_class,
            stop_reason,
            parked_outcome,
            unique_peers as nat,
            inflight_queries,
        ),
{
    let class_score: i64 = match slice_class {
        DemandSliceClass::AwaitingMetadata => 60,
        DemandSliceClass::NoConnectedPeers => 30,
        DemandSliceClass::RoutineRefresh => 5,
    };
    let outcome_score: i64 = match parked_outcome {
        Some(DemandParkedSliceOutcome::UsefulYield) => 60,
        Some(DemandParkedSliceOutcome::HealthyLowYield) => 15,
        Some(DemandParkedSliceOutcome::WeakLowYield) => 5,
        Some(DemandParkedSliceOutcome::HealthyZeroYield) => -20,
        Some(DemandParkedSliceOutcome::Ignored) | None => -80,
    };
    let stop_score: i64 = match stop_reason {
        DemandSliceStopReason::NaturalFinish => -80,
        DemandSliceStopReason::IdleTimeout => -15,
        DemandSliceStopReason::WallTime => 0,
        DemandSliceStopReason::FirstBatch => -5,
        DemandSliceStopReason::UniquePeerCap => -10,
    };
    let peer_score: i64 = if unique_peers < 64 {
        unique_peers as i64
    } else {
        64
    };
    let inflight_penalty: i64 = (inflight_queries / 12) as i64;
    let score: i64 = class_score + outcome_score + stop_score + peer_score - inflight_penalty;
    if score < i32::MIN as i64 {
        i32::MIN
    } else {
        score as i32
    }
}

// Drains.

/// The content of the drains.
pub open spec fn drains(draining_demands: InfoHashMap<DrainingDemandLookup>) -> Map<
    InfoHash,
    DrainView,
> {
    draining_demands@.map_values(|drain: DrainingDemandLookup| drain@)
}

/// No drain is held twice, and no drain holds a peer twice.
pub open spec fn drains_wf(draining_demands: InfoHashMap<DrainingDemandLookup>) -> bool {
    &&& draining_demands.wf()
    &&& forall|key: InfoHash| #[trigger]
        draining_demands@.contains_key(key) ==> draining_demands@[key].wf()
}

/// The queries in flight for the first `n` drains, cut off at the largest `usize`.
pub open spec fn drain_inflight(
    ledger: LedgerView,
    keys: Seq<InfoHash>,
    drains: Map<InfoHash, DrainView>,
) -> usize
    decreases keys.len(),
{
    if keys.len() == 0 {
        0
    } else {
        drain_inflight(ledger, keys.drop_last(), drains).saturating_add(
            ledger.quality_of(drains[keys.last()].lookup_ids).inflight_len,
        )
    }
}

pub fn draining_demand_inflight(
    active_runtime: &LookupLedger,
    draining_demands: &InfoHashMap<DrainingDemandLookup>,
) -> (inflight: usize)
    requires
        draining_demands.wf(),
    ensures
        inflight == drain_inflight(
            active_runtime@,
            draining_demands.keys(),
            drains(*draining_demands),
        ),
{
    let mut inflight: usize = 0;
    let ghost keys = draining_demands.keys();
    let mut i: usize = 0;
    while i < draining_demands.len()
        invariant
            0 <= i <= keys.len(),
            draining_demands.wf(),
            keys == draining_demands.keys(),
            inflight == drain_inflight(
                active_runtime@,
                keys.take(i as int),
                drains(*draining_demands),
            ),
        decreases keys.len() - i,
    {
        let (quality, _) = active_runtime.lookups_quality(
            draining_demands.value_at(i).lookup_ids.as_slice(),
        );
        inflight = inflight.saturating_add(quality.inflight_len);
        assert(keys.take(i + 1).drop_last() =~= keys.take(i as int));
        i = i + 1;
    }
    assert(keys.take(i as int) =~= keys);
    inflight
}

/// How a drain began.
pub open spec fn admission_of(drain: DrainView) -> DemandDrainAdmissionSnapshot {
    DemandDrainAdmissionSnapshot {
        initial_inflight_queries: drain.initial_inflight_queries,
        score: drain.score,
        deadline_ms: millis(elapsed(drain.deadline, drain.started_at)),
    }
}

pub fn demand_drain_admission_snapshot(drain: &DrainingDemandLookup) -> (admission:
    DemandDrainAdmissionSnapshot)
    ensures
        admission == admission_of(drain@),
{
    DemandDrainAdmissionSnapshot {
        initial_inflight_queries: drain.initial_inflight_queries,
        score: drain.score,
        deadline_ms: drain.deadline.saturating_sub(drain.started_at) / MILLISECOND,
    }
}

/// A drain that begins at `now`. It waits for a first late peer no longer than it lasts.
pub open spec fn new_drain(
    lookup_ids: Seq<LookupId>,
    slice_class: DemandSliceClass,
    stop_reason: DemandSliceStopReason,
    total_peers: usize,
    unique_peers: Set<PeerAddr>,
    duration: Duration,
    inflight_queries: usize,
    score: i32,
    now: Instant,
) -> DrainView {
    let grace = if late_yield_grace(slice_class) < duration {
        late_yield_grace(slice_class)
    } else {
        duration
    };
    DrainView {
        lookup_ids,
        slice_class,
        stop_reason,
        started_at: now,
        total_peers,
        initial_unique_peers: unique_peers.len() as usize,
        unique_peers,
        deadline: now.saturating_add(duration),
        no_late_yield_deadline: now.saturating_add(grace),
        initial_inflight_queries: inflight_queries,
        score,
    }
}

/// What an attempt to drain a stopped lookup leaves behind.
pub struct DrainTurn {
    pub outcome: Option<DemandParkedSliceOutcome>,
    pub parked_crawls: Map<InfoHash, DemandCrawlState>,
    pub drains: Map<InfoHash, DrainView>,
    pub drain_keys: Seq<InfoHash>,
    pub ledger: Option<LedgerView>,
}

/// Draining a stopped lookup.
///
/// Without lookups or without a runtime nothing happens. An earlier drain for the same demand is
/// ended first. Lookups that the runtime no longer has are left out; if none is left, that is all.
/// The lookups are parked at once where none has a query in flight, where the slice earns no time
/// or no positive score, or where all drains together would have too many queries in flight.
/// Otherwise they are paused and the drain begins.
pub open spec fn drain_turn(
    ledger: Option<LedgerView>,
    parked_crawls: Map<InfoHash, DemandCrawlState>,
    drains: Map<InfoHash, DrainView>,
    drain_keys: Seq<InfoHash>,
    info_hash: InfoHash,
    slice_class: DemandSliceClass,
    stop_reason: DemandSliceStopReason,
    total_peers: usize,
    unique_peers: Set<PeerAddr>,
    lookup_ids: Seq<LookupId>,
    now: Instant,
) -> DrainTurn {
    let nothing = DrainTurn { outcome: None, parked_crawls, drains, drain_keys, ledger };
    if lookup_ids.len() == 0 || ledger.is_none() {
        nothing
    } else {
        let ledger1 = if drains.contains_key(info_hash) {
            ledger.unwrap().cancelled_all(drains[info_hash].lookup_ids)
        } else {
            ledger.unwrap()
        };
        let drains1 = drains.remove(info_hash);
        let keys1 = keys_after_remove(drain_keys, info_hash);
        let present = ledger1.present(lookup_ids);
        let quality = ledger1.quality_of(lookup_ids);
        let peers = unique_peers.len();
        let outcome = outcome_for_quality(slice_class, Some(stop_reason), peers, quality);
        let duration = drain_time(slice_class, stop_reason, outcome, peers);
        let score = drain_score(slice_class, stop_reason, outcome, peers, quality.inflight_len);
        let over_cap = drain_inflight(ledger1, keys1, drains1).saturating_add(
            quality.inflight_len,
        ) > DHT_DEMAND_DRAIN_MAX_INFLIGHT_QUERIES;
        let after = DrainTurn {
            outcome: None,
            parked_crawls,
            drains: drains1,
            drain_keys: keys1,
            ledger: Some(ledger1),
        };
        if present.len() == 0 {
            after
        } else if quality.inflight_len == 0 || duration.is_none() || score <= 0 || over_cap {
            let (ledger2, states) = ledger1.parked_all(present);
            DrainTurn {
                parked_crawls: stored_parked(
                    parked_crawls,
                    info_hash,
                    slice_class,
                    Some(stop_reason),
                    peers,
                    states,
                    now,
                ).1,
                ledger: Some(ledger2),
                ..after
            }
        } else {
            let (ledger2, paused) = ledger1.paused_all(present);
            if paused.len() == 0 {
                DrainTurn { ledger: Some(ledger2), ..after }
            } else {
                DrainTurn {
                    outcome,
                    drains: drains1.insert(
                        info_hash,
                        new_drain(
                            paused,
                            slice_class,
                            stop_reason,
                            total_peers,
                            unique_peers,
                            duration.unwrap(),
                            quality.inflight_len,
                            score,
                            now,
                        ),
                    ),
                    drain_keys: keys_after_insert(keys1, info_hash),
                    ledger: Some(
                        ledger2.requested(
                            RuntimeRequest::PollDrain {
                                info_hash,
                                delay: DHT_DEMAND_DRAIN_POLL_INTERVAL,
                            },
                        ),
                    ),
                    ..after
                }
            }
        }
    }
}

pub fn drain_lookup_ids(
    active_runtime: &mut Option<LookupLedger>,
    parked_crawls: &mut InfoHashMap<DemandCrawlState>,
    draining_demands: &mut InfoHashMap<DrainingDemandLookup>,
    info_hash: InfoHash,
    slice_class: DemandSliceClass,
    stop_reason: DemandSliceStopReason,
    total_peers: usize,
    unique_peers: PeerSet,
    lookup_ids: Vec<LookupId>,
    now: Instant,
) -> (outcome: Option<DemandParkedSliceOutcome>)
    requires
        drains_wf(*old(draining_demands)),
        unique_peers.wf(),
    ensures
        (DrainTurn {
            outcome,
            parked_crawls: final(parked_crawls)@,
            drains: drains(*final(draining_demands)),
            drain_keys: final(draining_demands).keys(),
            ledger: ledger_view(*final(active_runtime)),
        }) == drain_turn(
            ledger_view(*old(active_runtime)),
            old(parked_crawls)@,
            drains(*old(draining_demands)),
            old(draining_demands).keys(),
            info_hash,
            slice_class,
            stop_reason,
            total_peers,
            unique_peers@,
            lookup_ids@,
            now,
        ),
        drains_wf(*final(draining_demands)),
        old(parked_crawls).wf() ==> final(parked_crawls).wf(),
{
    if lookup_ids.len() == 0 {
        return None;
    }
    match active_runtime {
        None => None,
        Some(runtime) => {
            let ghost drains0 = drains(*draining_demands);
            let ghost ledger0 = runtime@;
            if let Some(previous) = draining_demands.remove(&info_hash) {
                runtime.cancel_lookups(previous.lookup_ids.as_slice());
            }
            proof {
                assert(drains(*draining_demands) =~= drains0.remove(info_hash));
            }
            let (quality, drainable_lookup_ids) = runtime.lookups_quality(lookup_ids.as_slice());
            if drainable_lookup_ids.len() == 0 {
                return None;
            }
            let unique_peer_count: usize = unique_peers.len();
            let parked_outcome = parked_slice_outcome_for_quality(
                slice_class,
                Some(stop_reason),
                unique_peer_count,
                quality,
            );
            let drain_duration = demand_drain_duration(
                slice_class,
                stop_reason,
                parked_outcome,
                unique_peer_count,
            );
            let drain_score: i32 = demand_drain_score(
                slice_class,
                stop_reason,
                parked_outcome,
                unique_peer_count,
                quality.inflight_len,
            );
            let current_drain_inflight: usize = draining_demand_inflight(runtime, draining_demands);
            let over_inflight_cap = current_drain_inflight.saturating_add(quality.inflight_len)
                > DHT_DEMAND_DRAIN_MAX_INFLIGHT_QUERIES;
            let duration: Duration = match drain_duration {
                Some(duration) => duration,
                None => 0,
            };
            if quality.inflight_len == 0 || drain_duration.is_none() || drain_score <= 0
                || over_inflight_cap {
                cancel_lookup_ids_to_parked(
                    runtime,
                    parked_crawls,
                    info_hash,
                    slice_class,
                    stop_reason,
                    unique_peer_count,
                    drainable_lookup_ids,
                    now,
                );
                return None;
            }
            let drained_lookup_ids = runtime.pause_lookups(drainable_lookup_ids.as_slice());
            if drained_lookup_ids.len() == 0 {
                return None;
            }
            let full_grace: Duration = demand_drain_no_late_yield_grace(slice_class);
            let grace: Duration = if full_grace < duration {
                full_grace
            } else {
                duration
            };
            let ghost drains1 = drains(*draining_demands);
            let drain = DrainingDemandLookup {
                lookup_ids: drained_lookup_ids,
                slice_class,
                stop_reason,
                started_at: now,
                total_peers,
                initial_unique_peers: unique_peer_count,
                unique_peers,
                deadline: now.saturating_add(duration),
                no_late_yield_deadline: now.saturating_add(grace),
                initial_inflight_queries: quality.inflight_len,
                score: drain_score,
            };
            let ghost view = drain@;
            draining_demands.insert(info_hash, drain);
            proof {
                assert(drains(*draining_demands) =~= drains1.insert(info_hash, view));
            }
            runtime.requests.push(
                RuntimeRequest::PollDrain { info_hash, delay: DHT_DEMAND_DRAIN_POLL_INTERVAL },
            );
            parked_outcome
        },
    }
}

/// Whether the runtime has no answer outstanding for a drain. Without a runtime none is.
pub open spec fn runtime_ready_for(ledger: Option<LedgerView>, drain: DrainView) -> bool {
    match ledger {
        Some(ledger) => ledger.settled(drain.lookup_ids),
        None => true,
    }
}

pub fn drained_demand_lookup_runtime_ready(
    active_runtime: &Option<LookupLedger>,
    drain: &DrainingDemandLookup,
) -> (ready: bool)
    ensures
        ready == runtime_ready_for(ledger_view(*active_runtime), drain@),
{
    match active_runtime {
        Some(runtime) => runtime.drained_lookups_ready(drain.lookup_ids.as_slice()),
        None => true,
    }
}

/// Whether a drain gives up early: answers are outstanding, its grace is over, and no late peer
/// has come in.
pub open spec fn gives_up_early(runtime_ready: bool, drain: DrainView, now: Instant) -> bool {
    !runtime_ready && now >= drain.no_late_yield_deadline && drain.late_peers() == 0
}

/// Whether a drain can be brought to its end.
pub open spec fn can_finalize(runtime_ready: bool, drain: DrainView, now: Instant) -> bool {
    runtime_ready || gives_up_early(runtime_ready, drain, now) || now >= drain.deadline
}

/// Whether a drain can be brought to its end, and whether it then gives up early.
pub fn drained_demand_lookup_ready_for_finalize(
    runtime_ready: bool,
    drain: &DrainingDemandLookup,
    now: Instant,
) -> (ready: (bool, bool))
    requires
        drain.wf(),
    ensures
        ready.0 == can_finalize(runtime_ready, drain@, now),
        ready.1 == gives_up_early(runtime_ready, drain@, now),
{
    let early_no_yield = !runtime_ready && now >= drain.no_late_yield_deadline
        && drain.late_unique_peer_count() == 0;
    let ready_to_finalize = runtime_ready || early_no_yield || now >= drain.deadline;
    (ready_to_finalize, early_no_yield)
}

/// What an attempt to bring a drain to its end leaves behind.
pub struct FinalizeTurn {
    pub outcome: Option<DrainedDemandOutcome>,
    pub parked_crawls: Map<InfoHash, DemandCrawlState>,
    pub drains: Map<InfoHash, DrainView>,
    pub ledger: Option<LedgerView>,
}

/// Bringing a drain to its end. Where it is neither ready nor forced, it is looked at again later.
pub open spec fn finalize_turn(
    ledger: Option<LedgerView>,
    parked_crawls: Map<InfoHash, DemandCrawlState>,
    drains: Map<InfoHash, DrainView>,
    info_hash: InfoHash,
    force: bool,
    now: Instant,
) -> FinalizeTurn {
    if !drains.contains_key(info_hash) {
        FinalizeTurn { outcome: None, parked_crawls, drains, ledger }
    } else {
        let drain = drains[info_hash];
        let ready = runtime_ready_for(ledger, drain);
        if !force && !can_finalize(ready, drain, now) {
            FinalizeTurn {
                outcome: None,
                parked_crawls,
                drains,
                ledger: match ledger {
                    Some(ledger) => Some(
                        ledger.requested(
                            RuntimeRequest::PollDrain {
                                info_hash,
                                delay: DHT_DEMAND_DRAIN_POLL_INTERVAL,
                            },
                        ),
                    ),
                    None => None,
                },
            }
        } else {
            let (after, states) = match ledger {
                Some(ledger) => {
                    let (after, states) = ledger.finished_all(drain.lookup_ids);
                    (Some(after), states)
                },
                None => (None, seq![]),
            };
            let peers = drain.unique_peers.len();
            let (parked_outcome, crawls) = stored_parked(
                parked_crawls,
                info_hash,
                drain.slice_class,
                Some(drain.stop_reason),
                peers,
                states,
                now,
            );
            FinalizeTurn {
                outcome: Some(
                    DrainedDemandOutcome {
                        slice_class: drain.slice_class,
                        stop_reason: drain.stop_reason,
                        total_peers: drain.total_peers,
                        unique_peers: peers as usize,
                        parked_outcome,
                        drain_duration_ms: millis(elapsed(now, drain.started_at)),
                        finalized_after_deadline: now >= drain.deadline,
                        finalized_early_no_yield: gives_up_early(ready, drain, now) && now
                            < drain.deadline,
                    },
                ),
                parked_crawls: crawls,
                drains: drains.remove(info_hash),
                ledger: after,
            }
        }
    }
}

pub fn finalize_drained_demand_lookup(
    active_runtime: &mut Option<LookupLedger>,
    parked_crawls: &mut InfoHashMap<DemandCrawlState>,
    draining_demands: &mut InfoHashMap<DrainingDemandLookup>,
    info_hash: InfoHash,
    force: bool,
    now: Instant,
) -> (outcome: Option<DrainedDemandOutcome>)
    requires
        drains_wf(*old(draining_demands)),
    ensures
        (FinalizeTurn {
            outcome,
            parked_crawls: final(parked_crawls)@,
            drains: drains(*final(draining_demands)),
            ledger: ledger_view(*final(active_runtime)),
        }) == finalize_turn(
            ledger_view(*old(active_runtime)),
            old(parked_crawls)@,
            drains(*old(draining_demands)),
            info_hash,
            force,
            now,
        ),
        drains_wf(*final(draining_demands)),
        final(draining_demands).keys() == if outcome.is_some() {
            keys_after_remove(old(draining_demands).keys(), info_hash)
        } else {
            old(draining_demands).keys()
        },
        old(parked_crawls).wf() ==> final(parked_crawls).wf(),
{
    let ghost drains0 = drains(*draining_demands);
    let ghost ledger0 = ledger_view(*active_runtime);
    let (ready_to_finalize, early_no_yield) = match draining_demands.get(&info_hash) {
        Some(drain) => {
            let runtime_ready = drained_demand_lookup_runtime_ready(active_runtime, drain);
            drained_demand_lookup_ready_for_finalize(runtime_ready, drain, now)
        },
        None => return None,
    };
    if !force && !ready_to_finalize {
        if let Some(runtime) = active_runtime {
            runtime.requests.push(
                RuntimeRequest::PollDrain { info_hash, delay: DHT_DEMAND_DRAIN_POLL_INTERVAL },
            );
        }
        return None;
    }
    let drain = match draining_demands.remove(&info_hash) {
        Some(drain) => drain,
        None => return None,
    };
    proof {
        assert(drains(*draining_demands) =~= drains0.remove(info_hash));
    }
    let finalized_after_deadline = now >= drain.deadline;
    let unique_peers: usize = drain.unique_peer_count();
    let drained_states: Vec<LookupState> = match active_runtime {
        Some(runtime) => runtime.finish_drained_lookups(drain.lookup_ids.as_slice()),
        None => Vec::new(),
    };
    proof {
        if ledger0.is_none() {
            assert(drained_states@ =~= seq![]);
        }
    }
    let parked_outcome = store_parked_lookup_states(
        parked_crawls,
        info_hash,
        drain.slice_class,
        Some(drain.stop_reason),
        unique_peers,
        drained_states,
        now,
    );
    Some(
        DrainedDemandOutcome {
            slice_class: drain.slice_class,
            stop_reason: drain.stop_reason,
            total_peers: drain.total_peers,
            unique_peers,
            parked_outcome,
            drain_duration_ms: drain.duration_ms(now),
            finalized_after_deadline,
            finalized_early_no_yield: early_no_yield && !finalized_after_deadline,
        },
    )
}

/// What is said of late peers: nothing where no drain takes them in.
pub open spec fn drain_peers_effects(
    drains: Map<InfoHash, DrainView>,
    info_hash: InfoHash,
    peers: Seq<PeerAddr>,
) -> Seq<PlannerEffectView> {
    if drains.contains_key(info_hash) {
        let drain = drains[info_hash];
        seq![
            PlannerEffectView::DrainPeersRecorded(
                DemandDrainPeersRecordedEffect {
                    info_hash,
                    peer_count: peers.len() as usize,
                    unique_added: (drain.with_peers(peers).unique_peers.len()
                        - drain.unique_peers.len()) as usize,
                    initial_unique_peers: drain.initial_unique_peers,
                },
            ),
        ]
    } else {
        seq![]
    }
}

/// The drains after late peers for a demand have come in.
pub open spec fn drains_with_peers(
    drains: Map<InfoHash, DrainView>,
    info_hash: InfoHash,
    peers: Seq<PeerAddr>,
) -> Map<InfoHash, DrainView> {
    if drains.contains_key(info_hash) {
        drains.insert(info_hash, drains[info_hash].with_peers(peers))
    } else {
        drains
    }
}

pub fn record_drain_peers_received(
    draining_demands: &mut InfoHashMap<DrainingDemandLookup>,
    info_hash: InfoHash,
    peers: &[PeerAddr],
) -> (reduction: DemandPlannerReduction)
    requires
        drains_wf(*old(draining_demands)),
    ensures
        effects_view(reduction.effects@) == drain_peers_effects(
            drains(*old(draining_demands)),
            info_hash,
            peers@,
        ),
        effects_wf(reduction.effects@),
        reduction.plan_stats.is_none(),
        drains(*final(draining_demands)) == drains_with_peers(
            drains(*old(draining_demands)),
            info_hash,
            peers@,
        ),
        final(draining_demands).keys() == old(draining_demands).keys(),
        drains_wf(*final(draining_demands)),
{
    let ghost before = drains(*draining_demands);
    let (unique_added, initial_unique_peers) = match draining_demands.get_mut(&info_hash) {
        Some(drain) => {
            let unique_added: usize = drain.record_peers(peers);
            (unique_added, drain.initial_unique_peers)
        },
        None => {
            let reduction = DemandPlannerReduction::default();
            assert(effects_view(reduction.effects@) =~= seq![]);
            return reduction;
        },
    };
    let effect = DemandPlannerEffect::DrainPeersRecorded(
        DemandDrainPeersRecordedEffect {
            info_hash,
            peer_count: peers.len(),
            unique_added,
            initial_unique_peers,
        },
    );
    proof {
        assert(drains(*draining_demands) =~= before.insert(
            info_hash,
            before[info_hash].with_peers(peers@),
        ));
    }
    let reduction = DemandPlannerReduction { effects: vec![effect], plan_stats: None };
    assert(effects_view(reduction.effects@) =~= drain_peers_effects(before, info_hash, peers@));
    reduction
}

} // verus!
