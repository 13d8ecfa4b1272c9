use vstd::prelude::*;

use crate::clock::{Instant, SECOND};
use crate::ids::{AddressFamily, InfoHash};
use crate::planner::actions::DemandPlannerAction;
use crate::planner::crawl::{total_quality, DemandCrawlState, LookupState};
use crate::planner::drain::{stored_parked, taken_parked};
use crate::planner::drain_laws::{last_of_family, parked_lookup_comes_back};
use crate::planner::metrics::DemandSliceMetrics;
use crate::planner::model::PlannerView;
use crate::planner::step::planner_step;
use crate::slice::{
    DemandCrawlResetReason, DemandParkedSliceOutcome, DemandSliceClass, DemandSliceStopReason,
};

verus! {

// What planning keeps.

/// Whether a crawl holds a lookup over some address family and is less than ten minutes old.
pub open spec fn is_young_and_held(crawl: DemandCrawlState, now: Instant) -> bool {
    &&& crawl.ipv4.is_some() || crawl.ipv6.is_some()
    &&& now - crawl.updated_at < 600 * SECOND
}

/// A planning round keeps, unchanged, every parked crawl that is less than ten minutes old and holds
/// a lookup over at least one address family, drops all others, and adds none.
pub proof fn planning_keeps_young_crawls(planner: PlannerView, now: Instant, info_hash: InfoHash)
    ensures
        ({
            let after = planner_step(
                planner,
                DemandPlannerAction::PlanDue { now, runtime_available: true },
            ).planner.parked_crawls;
            let before = planner.parked_crawls;
            &&& after.contains_key(info_hash) <==> before.contains_key(info_hash)
                && is_young_and_held(before[info_hash], now)
            &&& after.contains_key(info_hash) ==> after[info_hash] == before[info_hash]
        }),
{
}

/// Without a runtime a planning round leaves everything alone and asks for nothing.
pub proof fn planning_without_runtime_changes_nothing(planner: PlannerView, now: Instant)
    ensures
        ({
            let step = planner_step(
                planner,
                DemandPlannerAction::PlanDue { now, runtime_available: false },
            );
            step.planner == planner && step.effects.len() == 0 && step.plan_stats.is_none()
        }),
{
}

/// The planner after planning rounds at several times, the first one first.
pub open spec fn after_rounds(planner: PlannerView, times: Seq<Instant>) -> PlannerView
    decreases times.len(),
{
    if times.len() == 0 {
        planner
    } else {
        planner_step(
            after_rounds(planner, times.drop_last()),
            DemandPlannerAction::PlanDue { now: times.last(), runtime_available: true },
        ).planner
    }
}

/// However many planning rounds go by, a crawl that holds a lookup is still there, unchanged, while
/// it is less than ten minutes old.
pub proof fn planning_rounds_keep_young_crawls(
    planner: PlannerView,
    times: Seq<Instant>,
    info_hash: InfoHash,
)
    requires
        planner.parked_crawls.contains_key(info_hash),
        forall|i: int|
            0 <= i < times.len() ==> is_young_and_held(
                planner.parked_crawls[info_hash],
                #[trigger] times[i],
            ),
    ensures
        after_rounds(planner, times).parked_crawls.contains_key(info_hash),
        after_rounds(planner, times).parked_crawls[info_hash] == planner.parked_crawls[info_hash],
    decreases times.len(),
{
    if times.len() > 0 {
        let rest = times.drop_last();
        assert forall|i: int| 0 <= i < rest.len() implies is_young_and_held(
            planner.parked_crawls[info_hash],
            #[trigger] rest[i],
        ) by {
            assert(rest[i] == times[i]);
        }
        planning_rounds_keep_young_crawls(planner, rest, info_hash);
        assert(is_young_and_held(planner.parked_crawls[info_hash], times[times.len() - 1]));
        planning_keeps_young_crawls(after_rounds(planner, rest), times.last(), info_hash);
    }
}

/// A lookup that was parked, over one address family or both, comes back over that family after any
/// planning rounds in between, unless it has grown too old or its last slices call for a new one.
pub proof fn parked_lookup_outlives_planning(
    planner: PlannerView,
    metrics: DemandSliceMetrics,
    record_metrics: bool,
    info_hash: InfoHash,
    family: AddressFamily,
    parked_class: DemandSliceClass,
    stop_reason: Option<DemandSliceStopReason>,
    unique_peers: nat,
    states: Seq<LookupState>,
    parked_at: Instant,
    times: Seq<Instant>,
    resumed_class: DemandSliceClass,
    resumed_at: Instant,
)
    requires
        last_of_family(states, family).is_some(),
        forall|i: int| 0 <= i < times.len() ==> (#[trigger] times[i]) - parked_at < 600 * SECOND,
    ensures
        ({
            let crawls = stored_parked(
                planner.parked_crawls,
                info_hash,
                parked_class,
                stop_reason,
                unique_peers,
                states,
                parked_at,
            ).1;
            let parked = PlannerView { parked_crawls: crawls, ..planner };
            let resumed = taken_parked(
                after_rounds(parked, times).parked_crawls,
                metrics,
                record_metrics,
                info_hash,
                family,
                resumed_class,
                resumed_at,
            ).0;
            crawls[info_hash].reset_reason(resumed_class, resumed_at).is_none() ==> resumed
                == last_of_family(states, family)
        }),
{
    let crawls = stored_parked(
        planner.parked_crawls,
        info_hash,
        parked_class,
        stop_reason,
        unique_peers,
        states,
        parked_at,
    ).1;
    let parked = PlannerView { parked_crawls: crawls, ..planner };
    parked_lookup_comes_back(
        planner.parked_crawls,
        metrics,
        record_metrics,
        info_hash,
        family,
        parked_class,
        stop_reason,
        unique_peers,
        states,
        parked_at,
        resumed_class,
        resumed_at,
    );
    if crawls[info_hash].reset_reason(resumed_class, resumed_at).is_none() {
        assert(crawls[info_hash].state_of(family).is_some());
        assert(crawls[info_hash].updated_at == parked_at);
        planning_rounds_keep_young_crawls(parked, times, info_hash);
    }
}

// When a crawl is thrown away.

/// The number of weak, or of empty, slices in a row after which a crawl starts anew.
pub open spec fn patience(class: DemandSliceClass) -> nat {
    match class {
        DemandSliceClass::AwaitingMetadata => 4,
        DemandSliceClass::NoConnectedPeers => 3,
        DemandSliceClass::RoutineRefresh => 2,
    }
}

/// A crawl is thrown away for its age exactly from ten minutes on, and for its quality exactly where
/// it is younger and belongs to the same class with too many weak or too many empty slices in a row.
pub proof fn crawls_are_reset_for_age_or_quality(
    crawl: DemandCrawlState,
    class: DemandSliceClass,
    now: Instant,
)
    ensures
        ({
            let reason = crawl.reset_reason(class, now);
            let old = now - crawl.updated_at >= 600 * SECOND;
            &&& old <==> reason == Some(DemandCrawlResetReason::Stale)
            &&& !old && crawl.class == class && (crawl.consecutive_stalled_low_yield_slices
                >= patience(class) || crawl.consecutive_healthy_zero_yield_slices >= patience(
                class,
            )) <==> reason == Some(DemandCrawlResetReason::LowQuality)
        }),
{
}

/// The crawl after slices for a class that all did the same.
pub open spec fn after_slices(
    crawl: DemandCrawlState,
    class: DemandSliceClass,
    outcome: DemandParkedSliceOutcome,
    times: Seq<Instant>,
) -> DemandCrawlState
    decreases times.len(),
{
    if times.len() == 0 {
        crawl
    } else {
        after_slices(crawl, class, outcome, times.drop_last()).observed(
            class,
            outcome,
            times.last(),
        )
    }
}

proof fn lemma_after_slices(
    crawl: DemandCrawlState,
    class: DemandSliceClass,
    outcome: DemandParkedSliceOutcome,
    times: Seq<Instant>,
)
    requires
        0 < times.len() <= 100,
        crawl.consecutive_stalled_low_yield_slices <= 1_000,
        crawl.consecutive_healthy_zero_yield_slices <= 1_000,
    ensures
        ({
            let after = after_slices(crawl, class, outcome, times);
            let weak: int = if crawl.class == class {
                crawl.consecutive_stalled_low_yield_slices as int
            } else {
                0
            };
            let empty: int = if crawl.class == class {
                crawl.consecutive_healthy_zero_yield_slices as int
            } else {
                0
            };
            &&& after.class == class
            &&& after.updated_at == times.last()
            &&& after.ipv4 == crawl.ipv4 && after.ipv6 == crawl.ipv6
            &&& after.reset_count == crawl.reset_count
            &&& after.consecutive_stalled_low_yield_slices == if outcome
                == DemandParkedSliceOutcome::WeakLowYield {
                weak + times.len()
            } else {
                0
            }
            &&& after.consecutive_healthy_zero_yield_slices == if outcome
                == DemandParkedSliceOutcome::HealthyZeroYield {
                empty + times.len()
            } else {
                0
            }
        }),
    decreases times.len(),
{
    reveal_with_fuel(after_slices, 2);
    if times.len() > 1 {
        lemma_after_slices(crawl, class, outcome, times.drop_last());
    }
}

/// As many weak, or empty, slices in a row as a class has patience for make its crawl start anew;
/// fewer, after a slice of another kind, do not. A slice of any other kind is as good as none before.
pub proof fn weak_slices_in_a_row_reset(
    crawl: DemandCrawlState,
    class: DemandSliceClass,
    outcome: DemandParkedSliceOutcome,
    times: Seq<Instant>,
    now: Instant,
)
    requires
        0 < times.len() <= 100,
        crawl.consecutive_stalled_low_yield_slices <= 1_000,
        crawl.consecutive_healthy_zero_yield_slices <= 1_000,
        now - times.last() < 600 * SECOND,
    ensures
        ({
            let after = after_slices(crawl, class, outcome, times);
            let counted = outcome == DemandParkedSliceOutcome::WeakLowYield || outcome
                == DemandParkedSliceOutcome::HealthyZeroYield;
            let clean = crawl.class != class || crawl.consecutive_stalled_low_yield_slices == 0
                && crawl.consecutive_healthy_zero_yield_slices == 0;
            &&& counted && times.len() >= patience(class) ==> after.reset_reason(class, now)
                == Some(DemandCrawlResetReason::LowQuality)
            &&& counted && clean && times.len() < patience(class) ==> after.reset_reason(
                class,
                now,
            ).is_none()
            &&& !counted ==> after.reset_reason(class, now).is_none()
            &&& !counted ==> after.consecutive_stalled_low_yield_slices == 0
                && after.consecutive_healthy_zero_yield_slices == 0
            &&& forall|other: DemandSliceClass|
                other != class ==> (#[trigger] after.reset_reason(other, now)).is_none()
        }),
{
    lemma_after_slices(crawl, class, outcome, times);
}

/// Parking the lookups of a slice that is known to have been weak, or empty, counts it with those
/// right before it for the same class, from one on where there is none. Any other outcome that is
/// known clears both counts, and an unknown one changes none.
pub proof fn parked_slices_are_counted(
    parked_crawls: Map<InfoHash, DemandCrawlState>,
    info_hash: InfoHash,
    class: DemandSliceClass,
    stop_reason: Option<DemandSliceStopReason>,
    unique_peers: nat,
    states: Seq<LookupState>,
    now: Instant,
)
    requires
        states.len() > 0,
        parked_crawls.contains_key(info_hash) ==> {
            &&& parked_crawls[info_hash].consecutive_stalled_low_yield_slices < u32::MAX
            &&& parked_crawls[info_hash].consecutive_healthy_zero_yield_slices < u32::MAX
        },
    ensures
        ({
            let (outcome, crawls) = stored_parked(
                parked_crawls,
                info_hash,
                class,
                stop_reason,
                unique_peers,
                states,
                now,
            );
            let known = parked_crawls.contains_key(info_hash);
            let before = parked_crawls[info_hash];
            let after = crawls[info_hash];
            let (weak, empty): (int, int) = if known && before.class == class {
                (
                    before.consecutive_stalled_low_yield_slices as int,
                    before.consecutive_healthy_zero_yield_slices as int,
                )
            } else {
                (0, 0)
            };
            &&& crawls.contains_key(info_hash)
            &&& outcome.is_some() == stop_reason.is_some()
            &&& after.class == class && after.updated_at == now
            &&& after.reset_count == if known {
                before.reset_count
            } else {
                0
            }
            &&& outcome.is_some() ==> after.consecutive_stalled_low_yield_slices == if outcome
                == Some(DemandParkedSliceOutcome::WeakLowYield) {
                weak + 1
            } else {
                0
            }
            &&& outcome.is_some() ==> after.consecutive_healthy_zero_yield_slices == if outcome
                == Some(DemandParkedSliceOutcome::HealthyZeroYield) {
                empty + 1
            } else {
                0
            }
            &&& outcome.is_none() && known ==> {
                &&& after.consecutive_stalled_low_yield_slices
                    == before.consecutive_stalled_low_yield_slices
                &&& after.consecutive_healthy_zero_yield_slices
                    == before.consecutive_healthy_zero_yield_slices
            }
        }),
{
    let (outcome, crawls) = stored_parked(
        parked_crawls,
        info_hash,
        class,
        stop_reason,
        unique_peers,
        states,
        now,
    );
    let crawl = if parked_crawls.contains_key(info_hash) {
        parked_crawls[info_hash]
    } else {
        DemandCrawlState::fresh(now, class)
    };
    let observed = match outcome {
        Some(outcome) => crawl.observed(class, outcome, now),
        None => crawl,
    };
    lemma_storing_keeps_counts(observed, class, states, now);
}

proof fn lemma_storing_keeps_counts(
    crawl: DemandCrawlState,
    class: DemandSliceClass,
    states: Seq<LookupState>,
    now: Instant,
)
    ensures
        ({
            let after = crawl.stored_all(class, states, now);
            &&& after.consecutive_stalled_low_yield_slices
                == crawl.consecutive_stalled_low_yield_slices
            &&& after.consecutive_healthy_zero_yield_slices
                == crawl.consecutive_healthy_zero_yield_slices
            &&& after.reset_count == crawl.reset_count
            &&& states.len() > 0 ==> after.class == class && after.updated_at == now
        }),
    decreases states.len(),
{
    if states.len() > 0 {
        lemma_storing_keeps_counts(crawl, class, states.drop_last(), now);
    }
}

/// A slice's progress is the sum of that of its lookups.
pub proof fn progress_of_lookups_adds_up(states: Seq<LookupState>, state: LookupState)
    ensures
        ({
            let before = total_quality(states);
            let after = total_quality(states.push(state));
            let nothing = total_quality(Seq::<LookupState>::empty());
            let more = state.quality;
            &&& nothing.inflight_len == 0 && nothing.visited_len == 0 && nothing.frontier_len == 0
            &&& nothing.eligible_responder_count == 0 && nothing.received_peer_count == 0
            &&& before.inflight_len + more.inflight_len <= usize::MAX ==> after.inflight_len
                == before.inflight_len + more.inflight_len
            &&& before.visited_len + more.visited_len <= usize::MAX ==> after.visited_len
                == before.visited_len + more.visited_len
            &&& before.frontier_len + more.frontier_len <= usize::MAX ==> after.frontier_len
                == before.frontier_len + more.frontier_len
            &&& before.eligible_responder_count + more.eligible_responder_count <= usize::MAX
                ==> after.eligible_responder_count == before.eligible_responder_count
                + more.eligible_responder_count
            &&& before.received_peer_count + more.received_peer_count <= usize::MAX
                ==> after.received_peer_count == before.received_peer_count
                + more.received_peer_count
        }),
{
    assert(states.push(state).drop_last() =~= states);
}

/// A crawl that starts anew holds nothing, counts nothing but one more such start, and belongs to the
/// class that is looked up.
pub proof fn reset_crawls_hold_nothing(
    crawl: DemandCrawlState,
    class: DemandSliceClass,
    now: Instant,
)
    requires
        crawl.reset_count < u32::MAX,
    ensures
        ({
            let after = crawl.reset(class, now);
            &&& after.ipv4.is_none() && after.ipv6.is_none()
            &&& after.class == class && after.updated_at == now
            &&& after.reset_count == crawl.reset_count + 1
            &&& after.consecutive_stalled_low_yield_slices == 0
            &&& after.consecutive_healthy_zero_yield_slices == 0
        }),
{
}

/// A crawl that is thrown away takes both its lookups along and is counted once for its class, where
/// it is counted at all. Taking out a lookup leaves the one of the other family where it is.
pub proof fn taking_out_touches_one_family(
    parked_crawls: Map<InfoHash, DemandCrawlState>,
    metrics: DemandSliceMetrics,
    record_metrics: bool,
    info_hash: InfoHash,
    class: DemandSliceClass,
    now: Instant,
    other: InfoHash,
)
    requires
        parked_crawls.contains_key(info_hash),
        other != info_hash,
    ensures
        ({
            let crawl = parked_crawls[info_hash];
            let (taken, after, counts) = taken_parked(
                parked_crawls,
                metrics,
                record_metrics,
                info_hash,
                AddressFamily::Ipv4,
                class,
                now,
            );
            let (taken6, after6, _) = taken_parked(
                parked_crawls,
                metrics,
                record_metrics,
                info_hash,
                AddressFamily::Ipv6,
                class,
                now,
            );
            let reset = crawl.reset_reason(class, now).is_some();
            &&& reset ==> taken.is_none() && taken6.is_none() && !after.contains_key(info_hash)
                && !after6.contains_key(info_hash)
            &&& !reset ==> taken == crawl.ipv4 && taken6 == crawl.ipv6 && counts == metrics
            &&& !reset && crawl.ipv6.is_some() ==> after.contains_key(info_hash)
                && after[info_hash].ipv6 == crawl.ipv6 && after[info_hash].ipv4.is_none()
            &&& !reset && crawl.ipv6.is_some() ==> after[info_hash] == (DemandCrawlState {
                ipv4: None,
                updated_at: if crawl.ipv4.is_some() {
                    now
                } else {
                    crawl.updated_at
                },
                ..crawl
            })
            &&& !reset && crawl.ipv4.is_some() ==> after6[info_hash] == (DemandCrawlState {
                ipv6: None,
                updated_at: if crawl.ipv6.is_some() {
                    now
                } else {
                    crawl.updated_at
                },
                ..crawl
            })
            &&& !reset && crawl.ipv4.is_some() ==> after6.contains_key(info_hash)
                && after6[info_hash].ipv4 == crawl.ipv4 && after6[info_hash].ipv6.is_none()
            &&& !reset && crawl.ipv6.is_none() ==> !after.contains_key(info_hash)
            &&& !record_metrics ==> counts == metrics
            &&& record_metrics && reset ==> counts == metrics.with(
                crawl.class,
                metrics.of(crawl.class).with_reset(crawl.reset_reason(class, now).unwrap()),
            )
            &&& after.contains_key(other) == parked_crawls.contains_key(other)
            &&& after.contains_key(other) ==> after[other] == parked_crawls[other]
        }),
{
}

} // verus!
