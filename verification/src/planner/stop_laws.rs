use vstd::prelude::*;

use crate::clock::{Instant, MILLISECOND, SECOND};
use crate::collector::listen_time;
use crate::ids::{InfoHash, LookupId, PeerAddr};
use crate::planner::actions::PlannerEffectView;
use crate::planner::crawl::{DemandCrawlState, LookupState};
use crate::planner::drain::{
    admission_of, drain_inflight, drain_peers_effects, drain_score, drain_time, drain_turn,
    finalize_turn, outcome_for_quality, stored_parked,
};
use crate::planner::lookups::DrainView;
use crate::runtime::ledger::{LedgerView, LookupPhase, RuntimeRequest};
use crate::slice::{
    AggregateLookupQualitySnapshot, DemandParkedSliceOutcome, DemandSliceClass,
    DemandSliceStopReason,
};
use crate::table::keys_after_remove;

verus! {

// How a stopped slice did.

/// The most peers with which a slice that ran out of time still counts as low in yield.
pub open spec fn low_yield(class: DemandSliceClass) -> nat {
    if class == DemandSliceClass::RoutineRefresh {
        1
    } else {
        2
    }
}

/// Whether lookups have visited many nodes with few answers, few nodes ahead and few peers. Lookups
/// for metadata never count as such.
pub open spec fn has_run_dry(
    class: DemandSliceClass,
    quality: AggregateLookupQualitySnapshot,
) -> bool {
    match class {
        DemandSliceClass::AwaitingMetadata => false,
        DemandSliceClass::NoConnectedPeers => quality.visited_len >= 12
            && quality.eligible_responder_count <= 3 && quality.frontier_len <= 8
            && quality.received_peer_count <= 12,
        DemandSliceClass::RoutineRefresh => quality.visited_len >= 8
            && quality.eligible_responder_count <= 2 && quality.frontier_len <= 4
            && quality.received_peer_count <= 4,
    }
}

/// How a slice did goes by its peers alone where it was stopped for another reason than its time, and
/// else by its peers, more than a few, none or between, and by whether its lookups have run dry.
pub proof fn outcomes_go_by_yield(
    class: DemandSliceClass,
    stop_reason: DemandSliceStopReason,
    unique_peers: nat,
    quality: AggregateLookupQualitySnapshot,
)
    ensures
        ({
            let outcome = outcome_for_quality(class, Some(stop_reason), unique_peers, quality);
            let timed_out = stop_reason == DemandSliceStopReason::WallTime || stop_reason
                == DemandSliceStopReason::IdleTimeout;
            let low = unique_peers <= low_yield(class);
            let dry = has_run_dry(class, quality);
            &&& outcome.is_some()
            &&& outcome == Some(DemandParkedSliceOutcome::Ignored) <==> !timed_out && unique_peers
                == 0
            &&& outcome == Some(DemandParkedSliceOutcome::UsefulYield) <==> (!timed_out
                && unique_peers > 0) || (timed_out && !low)
            &&& outcome == Some(DemandParkedSliceOutcome::WeakLowYield) <==> timed_out && low && dry
            &&& outcome == Some(DemandParkedSliceOutcome::HealthyZeroYield) <==> timed_out && !dry
                && unique_peers == 0
            &&& outcome == Some(DemandParkedSliceOutcome::HealthyLowYield) <==> timed_out && low
                && !dry && unique_peers > 0
        }),
{
}

// How long a stopped lookup is drained.

/// What a slice earns by how it did, in whole seconds.
pub open spec fn earned_seconds(
    class: DemandSliceClass,
    outcome: DemandParkedSliceOutcome,
    unique_peers: nat,
) -> nat {
    let useful = outcome == DemandParkedSliceOutcome::UsefulYield;
    let ignored = outcome == DemandParkedSliceOutcome::Ignored;
    match class {
        DemandSliceClass::AwaitingMetadata => if useful {
            5
        } else if ignored && unique_peers == 0 {
            0
        } else {
            2
        },
        DemandSliceClass::NoConnectedPeers => if useful {
            5
        } else if ignored {
            0
        } else if outcome == DemandParkedSliceOutcome::HealthyLowYield {
            2
        } else {
            1
        },
        DemandSliceClass::RoutineRefresh => if useful {
            2
        } else if ignored {
            0
        } else {
            1
        },
    }
}

/// The most whole seconds that the reason to stop leaves.
pub open spec fn allowed_seconds(stop_reason: DemandSliceStopReason, unique_peers: nat) -> nat {
    if stop_reason == DemandSliceStopReason::FirstBatch {
        1
    } else if stop_reason == DemandSliceStopReason::IdleTimeout && unique_peers == 0 {
        1
    } else if stop_reason == DemandSliceStopReason::UniquePeerCap {
        2
    } else {
        5
    }
}

/// A lookup for metadata that was stopped with any outcome but an ignored one is drained, for five
/// seconds after a useful yield and for two otherwise, unless the reason to stop leaves less.
pub proof fn stopped_metadata_lookups_earn_a_drain(
    stop_reason: DemandSliceStopReason,
    outcome: DemandParkedSliceOutcome,
    unique_peers: nat,
)
    requires
        outcome != DemandParkedSliceOutcome::Ignored,
    ensures
        ({
            let time = drain_time(
                DemandSliceClass::AwaitingMetadata,
                stop_reason,
                Some(outcome),
                unique_peers,
            );
            let earned: int = if outcome == DemandParkedSliceOutcome::UsefulYield {
                5 * SECOND
            } else {
                2 * SECOND
            };
            let limit: int = allowed_seconds(stop_reason, unique_peers) * SECOND;
            &&& time.is_some()
            &&& time.unwrap() == if earned < limit {
                earned
            } else {
                limit
            }
        }),
{
}

/// A stopped lookup is drained for what its slice earned, cut off at what the reason to stop leaves,
/// and not at all where it earned nothing.
pub proof fn drains_last_as_earned(
    class: DemandSliceClass,
    stop_reason: DemandSliceStopReason,
    outcome: DemandParkedSliceOutcome,
    unique_peers: nat,
)
    ensures
        ({
            let time = drain_time(class, stop_reason, Some(outcome), unique_peers);
            let earned = earned_seconds(class, outcome, unique_peers);
            let allowed = allowed_seconds(stop_reason, unique_peers);
            &&& time.is_some() <==> earned > 0
            &&& time.is_some() ==> time.unwrap() == SECOND * if earned < allowed {
                earned as int
            } else {
                allowed as int
            }
        }),
{
}

/// Late peers are passed on until every drain is over and has been looked at once more, a quarter of a
/// second later, and no longer than the longest drain needs.
pub proof fn late_peers_are_heard_to_the_end(
    class: DemandSliceClass,
    stop_reason: DemandSliceStopReason,
    outcome: Option<DemandParkedSliceOutcome>,
    unique_peers: nat,
)
    ensures
        drain_time(class, stop_reason, outcome, unique_peers).is_some() ==> drain_time(
            class,
            stop_reason,
            outcome,
            unique_peers,
        ).unwrap() + 250 * MILLISECOND <= listen_time(),
        class == DemandSliceClass::AwaitingMetadata && stop_reason
            == DemandSliceStopReason::WallTime && outcome == Some(
            DemandParkedSliceOutcome::UsefulYield,
        ) ==> drain_time(class, stop_reason, outcome, unique_peers).unwrap() + 250 * MILLISECOND
            == listen_time(),
{
}

/// Without a known outcome only a lookup for metadata that found peers is drained.
pub proof fn unknown_outcomes_earn_little(
    class: DemandSliceClass,
    stop_reason: DemandSliceStopReason,
    unique_peers: nat,
)
    ensures
        drain_time(class, stop_reason, None, unique_peers).is_some() <==> class
            == DemandSliceClass::AwaitingMetadata && unique_peers > 0,
        drain_time(class, stop_reason, None, unique_peers) == drain_time(
            class,
            stop_reason,
            Some(DemandParkedSliceOutcome::Ignored),
            unique_peers,
        ),
{
}

/// A better outcome never shortens a drain, and a more urgent class never does.
pub proof fn better_slices_drain_longer(
    class: DemandSliceClass,
    stop_reason: DemandSliceStopReason,
    outcome: DemandParkedSliceOutcome,
    unique_peers: nat,
)
    requires
        drain_time(class, stop_reason, Some(outcome), unique_peers).is_some(),
    ensures
        ({
            let time = drain_time(class, stop_reason, Some(outcome), unique_peers).unwrap();
            let useful = drain_time(
                class,
                stop_reason,
                Some(DemandParkedSliceOutcome::UsefulYield),
                unique_peers,
            );
            let urgent = drain_time(
                DemandSliceClass::AwaitingMetadata,
                stop_reason,
                Some(outcome),
                unique_peers,
            );
            &&& useful.is_some() && useful.unwrap() >= time
            &&& urgent.is_some() && urgent.unwrap() >= time
        }),
{
}

// Scores.

/// A score that is not cut off: few enough queries are in flight.
pub open spec fn score_fits(inflight_queries: usize) -> bool {
    inflight_queries <= 1_000_000
}

/// The score goes up by 25 from routine lookups to those for torrents without peers and by 30 more to
/// those for metadata.
pub proof fn scores_go_by_class(
    stop_reason: DemandSliceStopReason,
    outcome: Option<DemandParkedSliceOutcome>,
    unique_peers: nat,
    inflight_queries: usize,
)
    requires
        score_fits(inflight_queries),
    ensures
        ({
            let routine = drain_score(
                DemandSliceClass::RoutineRefresh,
                stop_reason,
                outcome,
                unique_peers,
                inflight_queries,
            );
            let peerless = drain_score(
                DemandSliceClass::NoConnectedPeers,
                stop_reason,
                outcome,
                unique_peers,
                inflight_queries,
            );
            let metadata = drain_score(
                DemandSliceClass::AwaitingMetadata,
                stop_reason,
                outcome,
                unique_peers,
                inflight_queries,
            );
            peerless == routine + 25 && metadata == peerless + 30
        }),
{
}

/// The score goes down from a useful yield by 45 to a low one, by 10 more to a weak one, by 25 more
/// to none, and by 60 more to an ignored or unknown one.
pub proof fn scores_go_by_outcome(
    class: DemandSliceClass,
    stop_reason: DemandSliceStopReason,
    unique_peers: nat,
    inflight_queries: usize,
)
    requires
        score_fits(inflight_queries),
    ensures
        ({
            let useful = drain_score(
                class,
                stop_reason,
                Some(DemandParkedSliceOutcome::UsefulYield),
                unique_peers,
                inflight_queries,
            );
            let low = drain_score(
                class,
                stop_reason,
                Some(DemandParkedSliceOutcome::HealthyLowYield),
                unique_peers,
                inflight_queries,
            );
            let weak = drain_score(
                class,
                stop_reason,
                Some(DemandParkedSliceOutcome::WeakLowYield),
                unique_peers,
                inflight_queries,
            );
            let zero = drain_score(
                class,
                stop_reason,
                Some(DemandParkedSliceOutcome::HealthyZeroYield),
                unique_peers,
                inflight_queries,
            );
            let ignored = drain_score(
                class,
                stop_reason,
                Some(DemandParkedSliceOutcome::Ignored),
                unique_peers,
                inflight_queries,
            );
            let unknown = drain_score(class, stop_reason, None, unique_peers, inflight_queries);
            &&& low == useful - 45
            &&& weak == low - 10
            &&& zero == weak - 25
            &&& ignored == zero - 60
            &&& unknown == ignored
        }),
{
}

/// A slice that ran for its whole time keeps its score; one that stopped at its first batch loses 5
/// points, at its cap 10, for want of peers 15, and one that ended by itself 80.
pub proof fn scores_go_by_stop(
    class: DemandSliceClass,
    outcome: Option<DemandParkedSliceOutcome>,
    unique_peers: nat,
    inflight_queries: usize,
)
    requires
        score_fits(inflight_queries),
    ensures
        ({
            let wall = drain_score(
                class,
                DemandSliceStopReason::WallTime,
                outcome,
                unique_peers,
                inflight_queries,
            );
            let first = drain_score(
                class,
                DemandSliceStopReason::FirstBatch,
                outcome,
                unique_peers,
                inflight_queries,
            );
            let cap = drain_score(
                class,
                DemandSliceStopReason::UniquePeerCap,
                outcome,
                unique_peers,
                inflight_queries,
            );
            let idle = drain_score(
                class,
                DemandSliceStopReason::IdleTimeout,
                outcome,
                unique_peers,
                inflight_queries,
            );
            let natural = drain_score(
                class,
                DemandSliceStopReason::NaturalFinish,
                outcome,
                unique_peers,
                inflight_queries,
            );
            &&& first == wall - 5
            &&& cap == wall - 10
            &&& idle == wall - 15
            &&& natural == wall - 80
        }),
{
}

/// Each of the first 64 peers brings a point and each full dozen of queries in flight costs one. A
/// routine lookup that ran for its whole time with a weak yield, no peers and nothing in flight has
/// 10 points.
pub proof fn scores_count_peers_and_queries(
    class: DemandSliceClass,
    stop_reason: DemandSliceStopReason,
    outcome: Option<DemandParkedSliceOutcome>,
    unique_peers: nat,
    inflight_queries: usize,
)
    requires
        score_fits(inflight_queries),
    ensures
        ({
            let score = drain_score(class, stop_reason, outcome, unique_peers, inflight_queries);
            let bare = drain_score(class, stop_reason, outcome, 0, 0);
            &&& score == bare + (if unique_peers <= 64 {
                unique_peers as int
            } else {
                64
            }) - inflight_queries / 12
            &&& class == DemandSliceClass::RoutineRefresh && stop_reason
                == DemandSliceStopReason::WallTime && outcome == Some(
                DemandParkedSliceOutcome::WeakLowYield,
            ) ==> bare == 10
        }),
{
}

// Which stopped lookups are drained.

/// Whether a lookup that still runs is among several.
pub open spec fn some_runs(ledger: LedgerView, lookup_ids: Seq<LookupId>) -> bool {
    exists|i: int|
        0 <= i < lookup_ids.len() && {
            let lookup = ledger.get(#[trigger] lookup_ids[i]);
            lookup.is_some() && lookup.unwrap().phase == LookupPhase::Active
        }
}

proof fn lemma_pausing_some(ledger: LedgerView, lookup_ids: Seq<LookupId>)
    ensures
        ledger.paused_all(lookup_ids).1.len() > 0 <==> some_runs(ledger, lookup_ids),
        ledger.paused_all(lookup_ids).1.len() == 0 ==> ledger.paused_all(lookup_ids).0 == ledger,
    decreases lookup_ids.len(),
{
    if lookup_ids.len() > 0 {
        let rest = lookup_ids.drop_last();
        lemma_pausing_some(ledger, rest);
        if some_runs(ledger, rest) {
            let i = choose|i: int|
                0 <= i < rest.len() && {
                    let lookup = ledger.get(#[trigger] rest[i]);
                    lookup.is_some() && lookup.unwrap().phase == LookupPhase::Active
                };
            assert(lookup_ids[i] == rest[i]);
        }
        if some_runs(ledger, lookup_ids) && !some_runs(ledger, rest) {
            let i = choose|i: int|
                0 <= i < lookup_ids.len() && {
                    let lookup = ledger.get(#[trigger] lookup_ids[i]);
                    lookup.is_some() && lookup.unwrap().phase == LookupPhase::Active
                };
            if i < rest.len() {
                assert(rest[i] == lookup_ids[i]);
            }
        }
        if ledger.can_pause(lookup_ids.last()) {
            assert(lookup_ids[lookup_ids.len() - 1] == lookup_ids.last());
        }
    }
}

proof fn lemma_present_run(ledger: LedgerView, lookup_ids: Seq<LookupId>)
    ensures
        some_runs(ledger, ledger.present(lookup_ids)) == some_runs(ledger, lookup_ids),
        some_runs(ledger, lookup_ids) ==> ledger.present(lookup_ids).len() > 0,
    decreases lookup_ids.len(),
{
    let present = ledger.present(lookup_ids);
    broadcast use vstd::seq_lib::group_filter_ensures;

    if some_runs(ledger, lookup_ids) {
        let i = choose|i: int|
            0 <= i < lookup_ids.len() && {
                let lookup = ledger.get(#[trigger] lookup_ids[i]);
                lookup.is_some() && lookup.unwrap().phase == LookupPhase::Active
            };
        assert(present.contains(lookup_ids[i]));
        let k = present.index_of(lookup_ids[i]);
        assert(present[k] == lookup_ids[i]);
    }
    if some_runs(ledger, present) {
        let i = choose|i: int|
            0 <= i < present.len() && {
                let lookup = ledger.get(#[trigger] present[i]);
                lookup.is_some() && lookup.unwrap().phase == LookupPhase::Active
            };
        assert(present.contains(present[i]));
        lookup_ids.lemma_filter_contains_rev(ledger.is_present(), present[i]);
        let k = lookup_ids.index_of(present[i]);
        assert(lookup_ids[k] == present[i]);
    }
}

/// A stopped lookup is drained exactly where one of its lookups still runs, queries are in flight,
/// its slice earned time and a positive score, and all drains together stay within 256 queries in
/// flight. The drain then ends when its time is over, looks out for late peers for a class's grace at
/// most, and takes over what the slice has found.
pub proof fn drains_begin_exactly_where_earned(
    ledger: LedgerView,
    parked_crawls: Map<InfoHash, DemandCrawlState>,
    drains: Map<InfoHash, DrainView>,
    drain_keys: Seq<InfoHash>,
    info_hash: InfoHash,
    class: DemandSliceClass,
    stop_reason: DemandSliceStopReason,
    total_peers: usize,
    unique_peers: Set<PeerAddr>,
    lookup_ids: Seq<LookupId>,
    now: Instant,
)
    requires
        !drains.contains_key(info_hash),
        !drain_keys.contains(info_hash),
        unique_peers.len() <= usize::MAX,
    ensures
        ({
            let turn = drain_turn(
                Some(ledger),
                parked_crawls,
                drains,
                drain_keys,
                info_hash,
                class,
                stop_reason,
                total_peers,
                unique_peers,
                lookup_ids,
                now,
            );
            let quality = ledger.quality_of(lookup_ids);
            let outcome = outcome_for_quality(
                class,
                Some(stop_reason),
                unique_peers.len(),
                quality,
            );
            let time = drain_time(class, stop_reason, outcome, unique_peers.len());
            let score = drain_score(
                class,
                stop_reason,
                outcome,
                unique_peers.len(),
                quality.inflight_len,
            );
            let drained = turn.drains.contains_key(info_hash);
            let grace: int = match class {
                DemandSliceClass::AwaitingMetadata => 1_500 * MILLISECOND,
                DemandSliceClass::NoConnectedPeers => 1_000 * MILLISECOND,
                DemandSliceClass::RoutineRefresh => 500 * MILLISECOND,
            };
            let drain = turn.drains[info_hash];
            &&& drained <==> {
                &&& some_runs(ledger, lookup_ids)
                &&& quality.inflight_len > 0
                &&& time.is_some()
                &&& score > 0
                &&& drain_inflight(ledger, drain_keys, drains) + quality.inflight_len <= 256
            }
            &&& drained ==> {
                &&& turn.outcome == outcome
                &&& drain.started_at == now
                &&& now + time.unwrap() <= u64::MAX ==> drain.deadline == now + time.unwrap()
                &&& now + time.unwrap() <= u64::MAX ==> drain.no_late_yield_deadline == now
                    + if grace < time.unwrap() {
                    grace
                } else {
                    time.unwrap() as int
                }
                &&& drain.unique_peers == unique_peers
                &&& drain.initial_unique_peers == unique_peers.len()
                &&& drain.total_peers == total_peers
                &&& drain.slice_class == class && drain.stop_reason == stop_reason
                &&& drain.score == score
                &&& drain.initial_inflight_queries == quality.inflight_len
                &&& turn.drain_keys == drain_keys.push(info_hash)
                &&& turn.drains == drains.insert(info_hash, drain)
                &&& drain.lookup_ids == ledger.paused_all(ledger.present(lookup_ids)).1
                &&& turn.parked_crawls == parked_crawls
                &&& turn.ledger.unwrap().requests.last() == (RuntimeRequest::PollDrain {
                    info_hash,
                    delay: (250 * MILLISECOND) as u64,
                })
            }
            &&& !drained ==> turn.outcome.is_none() && turn.drains == drains
        }),
{
    assert(drains.remove(info_hash) =~= drains);
    assert(keys_after_remove(drain_keys, info_hash) == drain_keys);
    lemma_present_run(ledger, lookup_ids);
    lemma_pausing_some(ledger, ledger.present(lookup_ids));
}

/// A lookup for metadata that was stopped with a runtime is drained whenever one of its lookups still
/// runs, its outcome is not an ignored one, and the queries in flight fit under the limit of all
/// drains: its score is always high enough.
pub proof fn stopped_metadata_lookups_are_drained(
    ledger: LedgerView,
    parked_crawls: Map<InfoHash, DemandCrawlState>,
    drains: Map<InfoHash, DrainView>,
    drain_keys: Seq<InfoHash>,
    info_hash: InfoHash,
    stop_reason: DemandSliceStopReason,
    total_peers: usize,
    unique_peers: Set<PeerAddr>,
    lookup_ids: Seq<LookupId>,
    now: Instant,
)
    requires
        !drains.contains_key(info_hash),
        !drain_keys.contains(info_hash),
        unique_peers.len() <= usize::MAX,
        stop_reason != DemandSliceStopReason::NaturalFinish,
        stop_reason == DemandSliceStopReason::WallTime || stop_reason
            == DemandSliceStopReason::IdleTimeout || unique_peers.len() > 0,
        some_runs(ledger, lookup_ids),
        ledger.quality_of(lookup_ids).inflight_len > 0,
        drain_inflight(ledger, drain_keys, drains) + ledger.quality_of(lookup_ids).inflight_len
            <= 256,
        now + 5 * SECOND <= u64::MAX,
    ensures
        ({
            let turn = drain_turn(
                Some(ledger),
                parked_crawls,
                drains,
                drain_keys,
                info_hash,
                DemandSliceClass::AwaitingMetadata,
                stop_reason,
                total_peers,
                unique_peers,
                lookup_ids,
                now,
            );
            let timed_out = stop_reason == DemandSliceStopReason::WallTime || stop_reason
                == DemandSliceStopReason::IdleTimeout;
            let earned: int = if timed_out && unique_peers.len() <= 2 {
                2
            } else {
                5
            };
            let limit: int = allowed_seconds(stop_reason, unique_peers.len()) as int;
            &&& turn.drains.contains_key(info_hash)
            &&& turn.drains[info_hash].deadline == now + SECOND * if earned < limit {
                earned
            } else {
                limit
            }
        }),
{
    drains_begin_exactly_where_earned(
        ledger,
        parked_crawls,
        drains,
        drain_keys,
        info_hash,
        DemandSliceClass::AwaitingMetadata,
        stop_reason,
        total_peers,
        unique_peers,
        lookup_ids,
        now,
    );
}

/// An earlier drain for the same demand is ended first: what happens is what would happen had its
/// lookups been ended and the drain never been there.
pub proof fn earlier_drains_are_replaced(
    ledger: LedgerView,
    parked_crawls: Map<InfoHash, DemandCrawlState>,
    drains: Map<InfoHash, DrainView>,
    drain_keys: Seq<InfoHash>,
    info_hash: InfoHash,
    class: DemandSliceClass,
    stop_reason: DemandSliceStopReason,
    total_peers: usize,
    unique_peers: Set<PeerAddr>,
    lookup_ids: Seq<LookupId>,
    now: Instant,
)
    requires
        drains.contains_key(info_hash),
        drain_keys.no_duplicates(),
        lookup_ids.len() > 0,
    ensures
        drain_turn(
            Some(ledger),
            parked_crawls,
            drains,
            drain_keys,
            info_hash,
            class,
            stop_reason,
            total_peers,
            unique_peers,
            lookup_ids,
            now,
        ) == drain_turn(
            Some(ledger.cancelled_all(drains[info_hash].lookup_ids)),
            parked_crawls,
            drains.remove(info_hash),
            keys_after_remove(drain_keys, info_hash),
            info_hash,
            class,
            stop_reason,
            total_peers,
            unique_peers,
            lookup_ids,
            now,
        ),
{
    let rest = drains.remove(info_hash);
    let keys = keys_after_remove(drain_keys, info_hash);
    assert(rest.remove(info_hash) =~= rest);
    assert(!keys.contains(info_hash)) by {
        if drain_keys.contains(info_hash) {
            let i = drain_keys.index_of(info_hash);
            if keys.contains(info_hash) {
                let k = keys.index_of(info_hash);
                assert(keys[k] == if k < i { drain_keys[k] } else { drain_keys[k + 1] });
            }
        }
    }
    assert(keys_after_remove(keys, info_hash) == keys);
}

/// A stopped lookup that is not drained is parked at once, as it stands: what is kept of those of its
/// lookups that the runtime still has goes to the demand's crawl.
pub proof fn undrained_lookups_are_parked(
    ledger: LedgerView,
    parked_crawls: Map<InfoHash, DemandCrawlState>,
    drains: Map<InfoHash, DrainView>,
    drain_keys: Seq<InfoHash>,
    info_hash: InfoHash,
    class: DemandSliceClass,
    stop_reason: DemandSliceStopReason,
    total_peers: usize,
    unique_peers: Set<PeerAddr>,
    lookup_ids: Seq<LookupId>,
    now: Instant,
)
    requires
        !drains.contains_key(info_hash),
        !drain_keys.contains(info_hash),
        some_runs(ledger, lookup_ids),
    ensures
        ({
            let turn = drain_turn(
                Some(ledger),
                parked_crawls,
                drains,
                drain_keys,
                info_hash,
                class,
                stop_reason,
                total_peers,
                unique_peers,
                lookup_ids,
                now,
            );
            let (after, states) = ledger.parked_all(ledger.present(lookup_ids));
            !turn.drains.contains_key(info_hash) ==> {
                &&& turn.ledger == Some(after)
                &&& turn.parked_crawls == stored_parked(
                    parked_crawls,
                    info_hash,
                    class,
                    Some(stop_reason),
                    unique_peers.len(),
                    states,
                    now,
                ).1
            }
        }),
{
    lemma_present_run(ledger, lookup_ids);
    lemma_pausing_some(ledger, ledger.present(lookup_ids));
}

/// The queries in flight of several drains add up, those of one more to those before.
pub proof fn queries_of_drains_add_up(
    ledger: LedgerView,
    keys: Seq<InfoHash>,
    drains: Map<InfoHash, DrainView>,
    info_hash: InfoHash,
)
    ensures
        ({
            let before = drain_inflight(ledger, keys, drains);
            let more = ledger.quality_of(drains[info_hash].lookup_ids).inflight_len;
            let after = drain_inflight(ledger, keys.push(info_hash), drains);
            &&& before + more <= usize::MAX ==> after == before + more
            &&& drain_inflight(ledger, Seq::<InfoHash>::empty(), drains) == 0
        }),
{
    assert(keys.push(info_hash).drop_last() =~= keys);
}

/// What is told of a drain when it begins: its score, the queries in flight, and how many
/// milliseconds it lasts at most.
pub proof fn begun_drains_are_told(drain: DrainView)
    ensures
        ({
            let told = admission_of(drain);
            &&& told.score == drain.score
            &&& told.initial_inflight_queries == drain.initial_inflight_queries
            &&& drain.started_at <= drain.deadline ==> told.deadline_ms == (drain.deadline
                - drain.started_at) / 1_000_000
        }),
{
}

/// What is told of late peers: how many came in, and how many of these addresses are new to the
/// drain.
pub proof fn late_peers_are_told(
    drains: Map<InfoHash, DrainView>,
    info_hash: InfoHash,
    peers: Seq<PeerAddr>,
    fresh: Set<PeerAddr>,
)
    requires
        drains.contains_key(info_hash),
        drains[info_hash].unique_peers.finite(),
        peers.len() <= usize::MAX,
        forall|peer: PeerAddr| #[trigger]
            fresh.contains(peer) <==> peers.contains(peer)
                && !drains[info_hash].unique_peers.contains(peer),
        fresh.len() <= usize::MAX,
    ensures
        ({
            let effects = drain_peers_effects(drains, info_hash, peers);
            &&& effects.len() == 1
            &&& effects[0] matches PlannerEffectView::DrainPeersRecorded(told) && told.info_hash
                == info_hash && told.peer_count == peers.len() && told.unique_added == fresh.len()
                && told.initial_unique_peers == drains[info_hash].initial_unique_peers
        }),
{
    broadcast use vstd::seq_lib::seq_to_set_is_finite;

    let drain = drains[info_hash];
    let after = drain.with_peers(peers).unique_peers;
    assert forall|peer: PeerAddr| peers.to_set().contains(peer) == peers.contains(peer) by {}
    assert(after =~= drain.unique_peers.union(fresh));
    assert(fresh.subset_of(peers.to_set()));
    vstd::set_lib::lemma_len_subset(fresh, peers.to_set());
    vstd::set_lib::lemma_set_disjoint_lens(drain.unique_peers, fresh);
}

/// A stopped lookup none of whose lookups runs any more, though it earned a drain, is left as it is;
/// and so is everything where the runtime has none of its lookups.
pub proof fn ended_lookups_are_left_alone(
    ledger: LedgerView,
    parked_crawls: Map<InfoHash, DemandCrawlState>,
    drains: Map<InfoHash, DrainView>,
    drain_keys: Seq<InfoHash>,
    info_hash: InfoHash,
    class: DemandSliceClass,
    stop_reason: DemandSliceStopReason,
    total_peers: usize,
    unique_peers: Set<PeerAddr>,
    lookup_ids: Seq<LookupId>,
    now: Instant,
)
    requires
        !drains.contains_key(info_hash),
        !drain_keys.contains(info_hash),
        !some_runs(ledger, lookup_ids),
        ({
            let quality = ledger.quality_of(lookup_ids);
            let outcome = outcome_for_quality(class, Some(stop_reason), unique_peers.len(), quality);
            ||| ledger.present(lookup_ids).len() == 0
            ||| quality.inflight_len > 0 && drain_inflight(ledger, drain_keys, drains)
                + quality.inflight_len <= 256 && drain_time(
                class,
                stop_reason,
                outcome,
                unique_peers.len(),
            ).is_some() && drain_score(
                class,
                stop_reason,
                outcome,
                unique_peers.len(),
                quality.inflight_len,
            ) > 0
        }),
    ensures
        ({
            let turn = drain_turn(
                Some(ledger),
                parked_crawls,
                drains,
                drain_keys,
                info_hash,
                class,
                stop_reason,
                total_peers,
                unique_peers,
                lookup_ids,
                now,
            );
            &&& turn.outcome.is_none()
            &&& turn.parked_crawls == parked_crawls
            &&& turn.drains == drains
            &&& turn.ledger == Some(ledger)
        }),
{
    assert(drains.remove(info_hash) =~= drains);
    assert(keys_after_remove(drain_keys, info_hash) == drain_keys);
    lemma_present_run(ledger, lookup_ids);
    lemma_pausing_some(ledger, ledger.present(lookup_ids));
}

// When a drain ends.

/// A drain ends exactly where it is forced to, where no lookup of it has a query in flight, where its
/// grace is over without a late peer, or where its time is over. Until then it stays as it is and is
/// looked at again in a quarter of a second.
pub proof fn drains_end_exactly_where_done(
    ledger: Option<LedgerView>,
    parked_crawls: Map<InfoHash, DemandCrawlState>,
    drains: Map<InfoHash, DrainView>,
    info_hash: InfoHash,
    force: bool,
    now: Instant,
)
    requires
        drains.contains_key(info_hash),
    ensures
        ({
            let turn = finalize_turn(ledger, parked_crawls, drains, info_hash, force, now);
            let drain = drains[info_hash];
            let waiting = ledger.is_some() && exists|i: int|
                0 <= i < drain.lookup_ids.len() && {
                    let lookup = ledger.unwrap().get(#[trigger] drain.lookup_ids[i]);
                    lookup.is_some() && lookup.unwrap().quality.inflight_len > 0
                };
            let late = drain.unique_peers.len() > drain.initial_unique_peers;
            let ends = force || !waiting || now >= drain.deadline || (now
                >= drain.no_late_yield_deadline && !late);
            &&& turn.outcome.is_some() <==> ends
            &&& ends ==> turn.drains == drains.remove(info_hash)
            &&& !ends ==> turn.drains == drains && turn.parked_crawls == parked_crawls
            &&& !ends ==> turn.ledger.unwrap().requests == ledger.unwrap().requests.push(
                RuntimeRequest::PollDrain { info_hash, delay: (250 * MILLISECOND) as u64 },
            )
            &&& !ends ==> turn.ledger.unwrap().lookups == ledger.unwrap().lookups
        }),
{
    let drain = drains[info_hash];
    if ledger.is_some() && !ledger.unwrap().settled(drain.lookup_ids) {
        let i = choose|i: int|
            0 <= i < drain.lookup_ids.len() && match ledger.unwrap().get(
                #[trigger] drain.lookup_ids[i],
            ) {
                Some(lookup) => lookup.quality.inflight_len != 0,
                None => false,
            };
        assert(ledger.unwrap().get(drain.lookup_ids[i]).is_some());
    }
}

/// What is told of a drain that ended counts every peer, late ones too, gives the time since the
/// lookup was stopped, and says whether the time was over or, before that, the grace.
pub proof fn ended_drains_are_told_whole(
    ledger: Option<LedgerView>,
    parked_crawls: Map<InfoHash, DemandCrawlState>,
    drains: Map<InfoHash, DrainView>,
    info_hash: InfoHash,
    force: bool,
    now: Instant,
)
    requires
        drains.contains_key(info_hash),
        drains[info_hash].unique_peers.len() <= usize::MAX,
        finalize_turn(ledger, parked_crawls, drains, info_hash, force, now).outcome.is_some(),
    ensures
        ({
            let turn = finalize_turn(ledger, parked_crawls, drains, info_hash, force, now);
            let drain = drains[info_hash];
            let outcome = turn.outcome.unwrap();
            let states = if ledger.is_some() {
                ledger.unwrap().finished_all(drain.lookup_ids).1
            } else {
                Seq::<LookupState>::empty()
            };
            &&& outcome.slice_class == drain.slice_class
            &&& outcome.stop_reason == drain.stop_reason
            &&& outcome.total_peers == drain.total_peers
            &&& outcome.unique_peers == drain.unique_peers.len()
            &&& now >= drain.started_at ==> outcome.drain_duration_ms == (now - drain.started_at)
                / 1_000_000
            &&& outcome.finalized_after_deadline == (now >= drain.deadline)
            &&& outcome.finalized_early_no_yield ==> now >= drain.no_late_yield_deadline && now
                < drain.deadline && drain.unique_peers.len() <= drain.initial_unique_peers
            &&& (outcome.parked_outcome, turn.parked_crawls) == stored_parked(
                parked_crawls,
                info_hash,
                drain.slice_class,
                Some(drain.stop_reason),
                drain.unique_peers.len(),
                states,
                now,
            )
        }),
{
}

} // verus!
