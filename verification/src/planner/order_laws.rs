use vstd::prelude::*;

use crate::clock::{Instant, SECOND};
use crate::demand::DhtDemandMetrics;
use crate::ids::InfoHash;
use crate::planner::budget::DemandPlannerBudget;
use crate::planner::counts::{class_total, recorded_all_counts, DemandSlotCounts};
use crate::planner::crawl::DemandCrawlState;
use crate::planner::history::DemandPlannerState;
use crate::planner::plan::known;
use crate::planner::ranking::{
    agree, rank_order, rank_order_is_ordered, rank_order_keeps_all, ranks_before, same_width,
};
use crate::planner::selection::{
    candidate_classes, due_rank, due_ranked, due_selection, fill, is_fair, ordered_by,
    priority_score, probe_eligible, probe_selection, reason_for, reusable, spare_eligible,
    spare_fill, spare_rank, spare_ranked, spare_selection,
};
use crate::planner::selection_laws::{
    distinct_hashes, launches_are_candidates, launches_stay_within_limit,
};
use crate::scheduler::{as_candidate, DemandEntrySnapshot, DueDemandCandidate};
use crate::slice::{class_of, DemandSelectionReason, DemandSliceClass};

verus! {

// The order of due candidates.

/// The due candidates in the order in which they are offered slots.
pub open spec fn launch_order(
    candidates: Seq<DueDemandCandidate>,
    parked_crawls: Map<InfoHash, DemandCrawlState>,
    planner_state: Map<InfoHash, DemandPlannerState>,
    now: Instant,
) -> Seq<DueDemandCandidate> {
    ordered_by(candidates, due_ranked(parked_crawls, planner_state, now))
}

/// When a lookup for a candidate last found peers.
pub open spec fn last_yield_at(
    planner_state: Map<InfoHash, DemandPlannerState>,
    candidate: DueDemandCandidate,
) -> Option<Instant> {
    if planner_state.contains_key(candidate.info_hash) {
        planner_state[candidate.info_hash].last_useful_yield_at
    } else {
        None
    }
}

/// How many unique peers the last lookup for a candidate found.
pub open spec fn last_peers(
    planner_state: Map<InfoHash, DemandPlannerState>,
    candidate: DueDemandCandidate,
) -> usize {
    if planner_state.contains_key(candidate.info_hash) {
        planner_state[candidate.info_hash].last_unique_peers
    } else {
        0
    }
}

/// Whether two candidates have the same score, the same kind of demand, and are both overdue for
/// long or both not.
pub open spec fn same_standing(
    left: DueDemandCandidate,
    right: DueDemandCandidate,
    planner_state: Map<InfoHash, DemandPlannerState>,
    now: Instant,
) -> bool {
    &&& priority_score(left, known(planner_state, left.info_hash), now) == priority_score(
        right,
        known(planner_state, right.info_hash),
        now,
    )
    &&& left.demand.awaiting_metadata == right.demand.awaiting_metadata
    &&& left.demand.awaiting_metadata || (left.demand.connected_peers == 0) == (
    right.demand.connected_peers == 0)
    &&& is_fair(left, now) == is_fair(right, now)
}

proof fn lemma_due_entry(
    candidates: Seq<DueDemandCandidate>,
    parked_crawls: Map<InfoHash, DemandCrawlState>,
    planner_state: Map<InfoHash, DemandPlannerState>,
    now: Instant,
    i: int,
)
    requires
        0 <= i < launch_order(candidates, parked_crawls, planner_state, now).len(),
    ensures
        ({
            let entry = rank_order(
                candidates.map_values(due_ranked(parked_crawls, planner_state, now)),
            )[i];
            entry.1 == due_rank(entry.0, parked_crawls, planner_state, now)
        }),
{
    broadcast use vstd::seq_lib::group_to_multiset_ensures;

    let entries = candidates.map_values(due_ranked(parked_crawls, planner_state, now));
    let sorted = rank_order(entries);
    rank_order_keeps_all(entries);
    assert(sorted.contains(sorted[i]));
    assert(sorted.to_multiset().count(sorted[i]) > 0);
    assert(entries.contains(sorted[i]));
}

/// Whoever has the smaller number at the first place where two ranks differ stands first.
proof fn lemma_rank_decides(
    candidates: Seq<DueDemandCandidate>,
    parked_crawls: Map<InfoHash, DemandCrawlState>,
    planner_state: Map<InfoHash, DemandPlannerState>,
    now: Instant,
    i: int,
    j: int,
    place: int,
)
    requires
        0 <= i < launch_order(candidates, parked_crawls, planner_state, now).len(),
        0 <= j < launch_order(candidates, parked_crawls, planner_state, now).len(),
        0 <= place < 10,
        ({
            let order = launch_order(candidates, parked_crawls, planner_state, now);
            let left = due_rank(order[i], parked_crawls, planner_state, now);
            let right = due_rank(order[j], parked_crawls, planner_state, now);
            left[place] < right[place] && agree(left, right, place)
        }),
    ensures
        i < j,
{
    let entries = candidates.map_values(due_ranked(parked_crawls, planner_state, now));
    let sorted = rank_order(entries);
    let order = launch_order(candidates, parked_crawls, planner_state, now);
    assert(same_width(entries, 10));
    rank_order_is_ordered(entries, 10);
    lemma_due_entry(candidates, parked_crawls, planner_state, now, i);
    lemma_due_entry(candidates, parked_crawls, planner_state, now, j);
    let left = due_rank(order[i], parked_crawls, planner_state, now);
    let right = due_rank(order[j], parked_crawls, planner_state, now);
    assert(ranks_before(left, right));
    if j < i {
        assert(!ranks_before(sorted[i].1, sorted[j].1));
    }
    if i == j {
        assert(left[place] == right[place]);
    }
}

/// The launch order holds the candidates that were offered, each as often.
pub proof fn launch_order_holds_all(
    candidates: Seq<DueDemandCandidate>,
    parked_crawls: Map<InfoHash, DemandCrawlState>,
    planner_state: Map<InfoHash, DemandPlannerState>,
    now: Instant,
    candidate: DueDemandCandidate,
)
    ensures
        launch_order(candidates, parked_crawls, planner_state, now).len() == candidates.len(),
        launch_order(candidates, parked_crawls, planner_state, now).contains(candidate)
            == candidates.contains(candidate),
{
    broadcast use vstd::seq_lib::group_to_multiset_ensures;

    let ranked = due_ranked(parked_crawls, planner_state, now);
    let entries = candidates.map_values(ranked);
    let sorted = rank_order(entries);
    let order = launch_order(candidates, parked_crawls, planner_state, now);
    rank_order_keeps_all(entries);
    rank_order_is_ordered(entries, 10);
    let entry = (candidate, due_rank(candidate, parked_crawls, planner_state, now));
    if candidates.contains(candidate) {
        let i = candidates.index_of(candidate);
        assert(entries[i] == entry);
        assert(entries.contains(entry));
        assert(sorted.to_multiset().count(entry) > 0);
        assert(sorted.contains(entry));
        assert(order[sorted.index_of(entry)] == candidate);
    }
    if order.contains(candidate) {
        let i = order.index_of(candidate);
        assert(sorted.contains(sorted[i]));
        assert(sorted.to_multiset().count(sorted[i]) > 0);
        assert(entries.contains(sorted[i]));
        let k = entries.index_of(sorted[i]);
        assert(candidates[k] == candidate);
    }
}

/// Of two candidates with the same score, one without connected peers stands before one with
/// connected peers.
#[verifier::spinoff_prover]
#[verifier::rlimit(40)]
pub proof fn peerless_candidates_stand_first(
    candidates: Seq<DueDemandCandidate>,
    parked_crawls: Map<InfoHash, DemandCrawlState>,
    planner_state: Map<InfoHash, DemandPlannerState>,
    now: Instant,
    i: int,
    j: int,
)
    requires
        0 <= i < launch_order(candidates, parked_crawls, planner_state, now).len(),
        0 <= j < launch_order(candidates, parked_crawls, planner_state, now).len(),
        ({
            let order = launch_order(candidates, parked_crawls, planner_state, now);
            let (a, b) = (order[i], order[j]);
            &&& priority_score(a, known(planner_state, a.info_hash), now) == priority_score(
                b,
                known(planner_state, b.info_hash),
                now,
            )
            &&& !a.demand.awaiting_metadata && !b.demand.awaiting_metadata
            &&& a.demand.connected_peers == 0 && b.demand.connected_peers > 0
        }),
    ensures
        i < j,
{
    lemma_rank_decides(candidates, parked_crawls, planner_state, now, i, j, 1);
}

/// Of two candidates with the same score and of the same kind, one that has been due for three minutes
/// stands before one that has not.
#[verifier::spinoff_prover]
#[verifier::rlimit(40)]
pub proof fn long_overdue_candidates_stand_first(
    candidates: Seq<DueDemandCandidate>,
    parked_crawls: Map<InfoHash, DemandCrawlState>,
    planner_state: Map<InfoHash, DemandPlannerState>,
    now: Instant,
    i: int,
    j: int,
)
    requires
        0 <= i < launch_order(candidates, parked_crawls, planner_state, now).len(),
        0 <= j < launch_order(candidates, parked_crawls, planner_state, now).len(),
        ({
            let order = launch_order(candidates, parked_crawls, planner_state, now);
            let (a, b) = (order[i], order[j]);
            &&& priority_score(a, known(planner_state, a.info_hash), now) == priority_score(
                b,
                known(planner_state, b.info_hash),
                now,
            )
            &&& a.demand.awaiting_metadata == b.demand.awaiting_metadata
            &&& a.demand.awaiting_metadata || (a.demand.connected_peers == 0) == (
            b.demand.connected_peers == 0)
            &&& now - a.next_eligible_at >= 180 * SECOND
            &&& now - b.next_eligible_at < 180 * SECOND
        }),
    ensures
        i < j,
{
    lemma_rank_decides(candidates, parked_crawls, planner_state, now, i, j, 2);
}

/// Of two candidates of the same standing, one whose lookups ever found peers stands before one
/// whose lookups never did.
#[verifier::spinoff_prover]
#[verifier::rlimit(40)]
pub proof fn productive_candidates_stand_first(
    candidates: Seq<DueDemandCandidate>,
    parked_crawls: Map<InfoHash, DemandCrawlState>,
    planner_state: Map<InfoHash, DemandPlannerState>,
    now: Instant,
    i: int,
    j: int,
)
    requires
        0 <= i < launch_order(candidates, parked_crawls, planner_state, now).len(),
        0 <= j < launch_order(candidates, parked_crawls, planner_state, now).len(),
        ({
            let order = launch_order(candidates, parked_crawls, planner_state, now);
            let (a, b) = (order[i], order[j]);
            &&& same_standing(a, b, planner_state, now)
            &&& last_yield_at(planner_state, a).is_some()
            &&& last_yield_at(planner_state, b).is_none()
        }),
    ensures
        i < j,
{
    lemma_rank_decides(candidates, parked_crawls, planner_state, now, i, j, 3);
}

/// Of two candidates of the same standing whose lookups both found peers at some time, the one whose
/// last yield is more recent stands first.
#[verifier::spinoff_prover]
#[verifier::rlimit(40)]
pub proof fn recent_yield_stands_first(
    candidates: Seq<DueDemandCandidate>,
    parked_crawls: Map<InfoHash, DemandCrawlState>,
    planner_state: Map<InfoHash, DemandPlannerState>,
    now: Instant,
    i: int,
    j: int,
)
    requires
        0 <= i < launch_order(candidates, parked_crawls, planner_state, now).len(),
        0 <= j < launch_order(candidates, parked_crawls, planner_state, now).len(),
        ({
            let order = launch_order(candidates, parked_crawls, planner_state, now);
            let (a, b) = (order[i], order[j]);
            &&& same_standing(a, b, planner_state, now)
            &&& last_yield_at(planner_state, a).is_some()
            &&& last_yield_at(planner_state, b).is_some()
            &&& last_yield_at(planner_state, b).unwrap() < last_yield_at(planner_state, a).unwrap()
            &&& last_yield_at(planner_state, b).unwrap() < now
        }),
    ensures
        i < j,
{
    lemma_rank_decides(candidates, parked_crawls, planner_state, now, i, j, 4);
}

/// Of two candidates of the same standing whose last yields are equally recent, the one whose last
/// lookup found more peers stands first.
#[verifier::spinoff_prover]
#[verifier::rlimit(40)]
pub proof fn larger_yield_stands_first(
    candidates: Seq<DueDemandCandidate>,
    parked_crawls: Map<InfoHash, DemandCrawlState>,
    planner_state: Map<InfoHash, DemandPlannerState>,
    now: Instant,
    i: int,
    j: int,
)
    requires
        0 <= i < launch_order(candidates, parked_crawls, planner_state, now).len(),
        0 <= j < launch_order(candidates, parked_crawls, planner_state, now).len(),
        ({
            let order = launch_order(candidates, parked_crawls, planner_state, now);
            let (a, b) = (order[i], order[j]);
            &&& same_standing(a, b, planner_state, now)
            &&& last_yield_at(planner_state, a) == last_yield_at(planner_state, b)
            &&& last_peers(planner_state, a) > last_peers(planner_state, b)
        }),
    ensures
        i < j,
{
    lemma_rank_decides(candidates, parked_crawls, planner_state, now, i, j, 5);
}

/// Whether two candidates of the same standing have the same history of yields.
pub open spec fn same_history(
    left: DueDemandCandidate,
    right: DueDemandCandidate,
    planner_state: Map<InfoHash, DemandPlannerState>,
    now: Instant,
) -> bool {
    &&& same_standing(left, right, planner_state, now)
    &&& last_yield_at(planner_state, left) == last_yield_at(planner_state, right)
    &&& last_peers(planner_state, left) == last_peers(planner_state, right)
}

/// Of two candidates of the same standing and history, one whose parked crawl can be resumed stands
/// before one without such a crawl.
#[verifier::spinoff_prover]
#[verifier::rlimit(40)]
pub proof fn resumable_candidates_stand_first(
    candidates: Seq<DueDemandCandidate>,
    parked_crawls: Map<InfoHash, DemandCrawlState>,
    planner_state: Map<InfoHash, DemandPlannerState>,
    now: Instant,
    i: int,
    j: int,
)
    requires
        0 <= i < launch_order(candidates, parked_crawls, planner_state, now).len(),
        0 <= j < launch_order(candidates, parked_crawls, planner_state, now).len(),
        ({
            let order = launch_order(candidates, parked_crawls, planner_state, now);
            let (a, b) = (order[i], order[j]);
            &&& same_history(a, b, planner_state, now)
            &&& reusable(parked_crawls, a, now)
            &&& !reusable(parked_crawls, b, now)
        }),
    ensures
        i < j,
{
    lemma_rank_decides(candidates, parked_crawls, planner_state, now, i, j, 6);
}

/// A parked crawl can be resumed for a candidate where it holds a lookup over some address family
/// and its age and its last slices do not call for a new one.
pub proof fn resumable_means_held_and_not_reset(
    parked_crawls: Map<InfoHash, DemandCrawlState>,
    candidate: DueDemandCandidate,
    now: Instant,
)
    ensures
        reusable(parked_crawls, candidate, now) <==> {
            let crawl = parked_crawls[candidate.info_hash];
            &&& parked_crawls.contains_key(candidate.info_hash)
            &&& crawl.ipv4.is_some() || crawl.ipv6.is_some()
            &&& crawl.reset_reason(class_of(candidate.demand), now).is_none()
        },
{
}

/// Of two candidates alike so far, the one that has been due for longer stands first; due equally
/// long, the one with fewer connected peers; and with as many of those, the one with more
/// subscribers.
#[verifier::spinoff_prover]
#[verifier::rlimit(40)]
pub proof fn longer_due_candidates_stand_first(
    candidates: Seq<DueDemandCandidate>,
    parked_crawls: Map<InfoHash, DemandCrawlState>,
    planner_state: Map<InfoHash, DemandPlannerState>,
    now: Instant,
    i: int,
    j: int,
)
    requires
        0 <= i < launch_order(candidates, parked_crawls, planner_state, now).len(),
        0 <= j < launch_order(candidates, parked_crawls, planner_state, now).len(),
        ({
            let order = launch_order(candidates, parked_crawls, planner_state, now);
            let (a, b) = (order[i], order[j]);
            &&& same_history(a, b, planner_state, now)
            &&& reusable(parked_crawls, a, now) == reusable(parked_crawls, b, now)
            &&& {
                ||| a.next_eligible_at < b.next_eligible_at && a.next_eligible_at < now
                ||| a.next_eligible_at == b.next_eligible_at && a.demand.connected_peers
                    < b.demand.connected_peers
                ||| a.next_eligible_at == b.next_eligible_at && a.demand.connected_peers
                    == b.demand.connected_peers && a.subscriber_count > b.subscriber_count
            }
        }),
    ensures
        i < j,
{
    let order = launch_order(candidates, parked_crawls, planner_state, now);
    let (a, b) = (order[i], order[j]);
    lemma_same_history_ranks(a, b, parked_crawls, planner_state, now);
    lemma_last_ranks(a, parked_crawls, planner_state, now);
    lemma_last_ranks(b, parked_crawls, planner_state, now);
    let left = due_rank(a, parked_crawls, planner_state, now);
    let right = due_rank(b, parked_crawls, planner_state, now);
    if a.next_eligible_at < b.next_eligible_at {
        assert(left[7] < right[7]);
        lemma_rank_decides(candidates, parked_crawls, planner_state, now, i, j, 7);
    } else if a.demand.connected_peers < b.demand.connected_peers {
        assert(left[8] < right[8] && agree(left, right, 8));
        lemma_rank_decides(candidates, parked_crawls, planner_state, now, i, j, 8);
    } else {
        assert(left[9] < right[9] && agree(left, right, 9));
        lemma_rank_decides(candidates, parked_crawls, planner_state, now, i, j, 9);
    }
}

#[verifier::spinoff_prover]
proof fn lemma_same_history_ranks(
    left: DueDemandCandidate,
    right: DueDemandCandidate,
    parked_crawls: Map<InfoHash, DemandCrawlState>,
    planner_state: Map<InfoHash, DemandPlannerState>,
    now: Instant,
)
    requires
        same_history(left, right, planner_state, now),
        reusable(parked_crawls, left, now) == reusable(parked_crawls, right, now),
    ensures
        agree(
            due_rank(left, parked_crawls, planner_state, now),
            due_rank(right, parked_crawls, planner_state, now),
            7,
        ),
{
}

proof fn lemma_last_ranks(
    candidate: DueDemandCandidate,
    parked_crawls: Map<InfoHash, DemandCrawlState>,
    planner_state: Map<InfoHash, DemandPlannerState>,
    now: Instant,
)
    ensures
        ({
            let rank = due_rank(candidate, parked_crawls, planner_state, now);
            &&& rank[7] == u64::MAX - (if candidate.next_eligible_at < now {
                now - candidate.next_eligible_at
            } else {
                0
            })
            &&& rank[8] == candidate.demand.connected_peers
            &&& rank[9] == u64::MAX - candidate.subscriber_count
        }),
{
}

// Scores.

/// A demand that was due for three minutes outscores one that was not, whatever else speaks for
/// the other one, as long as neither waits for metadata.
pub proof fn long_overdue_candidates_score_higher(
    overdue: DueDemandCandidate,
    other: DueDemandCandidate,
    planner_state: Map<InfoHash, DemandPlannerState>,
    now: Instant,
)
    requires
        !overdue.demand.awaiting_metadata,
        !other.demand.awaiting_metadata,
        now - overdue.next_eligible_at >= 180 * SECOND,
        now - other.next_eligible_at < 180 * SECOND,
    ensures
        priority_score(overdue, known(planner_state, overdue.info_hash), now) > priority_score(
            other,
            known(planner_state, other.info_hash),
            now,
        ),
{
}

/// A demand with connected peers whose swarm needs support outscores one without that, where both
/// are overdue for long or both are not, whatever they yielded.
pub proof fn supported_swarms_score_higher(
    swarm: DueDemandCandidate,
    other: DueDemandCandidate,
    planner_state: Map<InfoHash, DemandPlannerState>,
    now: Instant,
)
    requires
        !swarm.demand.awaiting_metadata && swarm.demand.connected_peers > 0,
        needs_support(swarm.metrics),
        !other.demand.awaiting_metadata,
        other.demand.connected_peers == 0 || !needs_support(other.metrics),
        (now - swarm.next_eligible_at >= 180 * SECOND) == (now - other.next_eligible_at
            >= 180 * SECOND),
    ensures
        priority_score(swarm, known(planner_state, swarm.info_hash), now) > priority_score(
            other,
            known(planner_state, other.info_hash),
            now,
        ),
{
}

/// Whether a torrent that takes peers is complete with three or more peers that want its pieces, or is
/// incomplete, stands still and has at most four peers.
pub open spec fn needs_support(metrics: DhtDemandMetrics) -> bool {
    &&& metrics.accepting_new_peers && !metrics.paused
    &&& metrics.complete ==> metrics.peers_interested_in_us
        >= 3
    &&& !metrics.complete ==> metrics.completed_pieces < metrics.total_pieces
        && metrics.download_speed_bps == 0 && metrics.connected_peers
        <= 4
}

/// Between demands without connected peers that are not overdue for long, the score is the number of
/// peers that the last lookup found, up to a cap, and nothing where no lookup ever found any.
pub proof fn yield_scores_count_peers(
    left: DueDemandCandidate,
    right: DueDemandCandidate,
    planner_state: Map<InfoHash, DemandPlannerState>,
    now: Instant,
)
    requires
        !left.demand.awaiting_metadata && left.demand.connected_peers == 0,
        !right.demand.awaiting_metadata && right.demand.connected_peers == 0,
        now - left.next_eligible_at < 180 * SECOND,
        now - right.next_eligible_at < 180 * SECOND,
    ensures
        ({
            let left_score = priority_score(left, known(planner_state, left.info_hash), now);
            let right_score = priority_score(right, known(planner_state, right.info_hash), now);
            &&& last_yield_at(planner_state, left).is_none() ==> left_score == 0
            &&& last_yield_at(planner_state, left).is_some() && last_peers(planner_state, left)
                <= 1_000 ==> left_score == last_peers(planner_state, left)
            &&& last_yield_at(planner_state, left).is_some() && last_yield_at(
                planner_state,
                right,
            ).is_some() && last_peers(planner_state, left) >= last_peers(planner_state, right)
                ==> left_score >= right_score
        }),
{
}

/// The score of a candidate is 100,000 for metadata. Otherwise it is 20,000 for having been due for
/// three minutes, 10,000 for a swarm that needs support, and a point for each of up to a thousand
/// peers that the last lookup found, where one ever found any, all taken together.
pub proof fn scores_add_up(
    candidate: DueDemandCandidate,
    planner_state: Map<InfoHash, DemandPlannerState>,
    now: Instant,
)
    ensures
        ({
            let score = priority_score(
                candidate,
                known(planner_state, candidate.info_hash),
                now,
            );
            let overdue: int = if now - candidate.next_eligible_at >= 180 * SECOND {
                20_000
            } else {
                0
            };
            let swarm: int = if candidate.demand.connected_peers > 0 && needs_support(
                candidate.metrics,
            ) {
                10_000
            } else {
                0
            };
            let peers = last_peers(planner_state, candidate);
            let found: int = if last_yield_at(planner_state, candidate).is_none() {
                0
            } else if peers <= 1_000 {
                peers as int
            } else {
                1_000
            };
            &&& candidate.demand.awaiting_metadata ==> score == 100_000
            &&& !candidate.demand.awaiting_metadata ==> score == overdue + swarm + found
        }),
{
}

/// Why a due candidate is picked: overdue for long comes before a swarm that needs support, that
/// before a yield, that before a crawl to resume, and otherwise it is due.
pub proof fn reasons_go_by_rank(
    candidate: DueDemandCandidate,
    parked_crawls: Map<InfoHash, DemandCrawlState>,
    planner_state: Map<InfoHash, DemandPlannerState>,
    now: Instant,
)
    ensures
        ({
            let reason = reason_for(candidate, parked_crawls, planner_state, now);
            let overdue = now - candidate.next_eligible_at >= 180 * SECOND;
            let swarm = !candidate.demand.awaiting_metadata && candidate.demand.connected_peers > 0
                && needs_support(candidate.metrics);
            let yielded = last_yield_at(planner_state, candidate).is_some() && last_peers(
                planner_state,
                candidate,
            ) > 0;
            &&& overdue <==> reason == DemandSelectionReason::Fairness
            &&& !overdue ==> (swarm <==> reason == DemandSelectionReason::SwarmSupport)
            &&& !overdue && !swarm ==> (yielded <==> reason
                == DemandSelectionReason::UsefulYieldHistory)
            &&& !overdue && !swarm && !yielded ==> reason == if reusable(
                parked_crawls,
                candidate,
                now,
            ) {
                DemandSelectionReason::ReusableParked
            } else {
                DemandSelectionReason::OverdueScarce
            }
        }),
{
}

// Filling the slots.

/// The lookups of a class that may run at once.
pub open spec fn slots_of(class: DemandSliceClass) -> nat {
    match class {
        DemandSliceClass::AwaitingMetadata => 8,
        DemandSliceClass::NoConnectedPeers => 6,
        DemandSliceClass::RoutineRefresh => 4,
    }
}

/// Whether a lookup for a candidate could still be launched: the limit is not reached, and its class
/// has a slot and a token left.
pub open spec fn could_launch(
    candidate: DueDemandCandidate,
    launches: Seq<DueDemandCandidate>,
    counts: DemandSlotCounts,
    budget: DemandPlannerBudget,
    now: Instant,
    limit: nat,
) -> bool {
    let class = class_of(candidate.demand);
    &&& launches.len() < limit
    &&& counts.of(class) + class_total(candidate_classes(launches), class) < slots_of(class)
    &&& budget.bucket(class).refilled(now).tokens_scaled >= 1_000
}

/// No slot is left unused: a candidate that is not launched could not be launched either after all
/// others, for want of room, of a slot or of a token.
#[verifier::spinoff_prover]
#[verifier::rlimit(40)]
pub proof fn no_slot_is_left_unused(
    order: Seq<DueDemandCandidate>,
    counts: DemandSlotCounts,
    budget: DemandPlannerBudget,
    now: Instant,
    limit: nat,
    candidate: DueDemandCandidate,
)
    requires
        order.contains(candidate),
        counts.of(class_of(candidate.demand)) + order.len() <= usize::MAX,
        !fill(order, counts, budget, now, limit).launches.contains(candidate),
    ensures
        !could_launch(
            candidate,
            fill(order, counts, budget, now, limit).launches,
            counts,
            fill(order, counts, budget, now, limit).budget,
            now,
            limit,
        ),
    decreases order.len(),
{
    let class = class_of(candidate.demand);
    let filled = fill(order, counts, budget, now, limit);
    let rest = order.drop_last();
    let before = fill(rest, counts, budget, now, limit);
    launches_stay_within_limit(rest, counts, budget, now, limit);
    launches_stay_within_limit(order, counts, budget, now, limit);
    recorded_all_counts(counts, candidate_classes(before.launches), class);
    recorded_all_counts(counts, candidate_classes(filled.launches), class);
    if filled.launches.len() > before.launches.len() {
        assert(candidate_classes(filled.launches).drop_last() =~= candidate_classes(
            before.launches,
        ));
        assert(filled.launches[before.launches.len() as int] == order.last());
    }
    if order.last() == candidate {
        if filled.launches.len() > before.launches.len() {
            assert(filled.launches.contains(candidate));
        }
    } else {
        assert(rest.contains(candidate)) by {
            let i = order.index_of(candidate);
            assert(rest[i] == candidate);
        }
        if before.launches.contains(candidate) {
            let i = before.launches.index_of(candidate);
            assert(filled.launches[i] == candidate);
        }
        no_slot_is_left_unused(rest, counts, budget, now, limit, candidate);
    }
}

/// No launch overtakes another candidate of its class: where a candidate is launched, each of its
/// class that stands before it is launched too.
#[verifier::spinoff_prover]
#[verifier::rlimit(40)]
pub proof fn no_launch_overtakes_its_class(
    order: Seq<DueDemandCandidate>,
    counts: DemandSlotCounts,
    budget: DemandPlannerBudget,
    now: Instant,
    limit: nat,
    i: int,
    j: int,
)
    requires
        distinct_hashes(order),
        0 <= i < j < order.len(),
        class_of(order[i].demand) == class_of(order[j].demand),
        counts.of(class_of(order[i].demand)) + order.len() <= usize::MAX,
        fill(order, counts, budget, now, limit).launches.contains(order[j]),
    ensures
        fill(order, counts, budget, now, limit).launches.contains(order[i]),
    decreases order.len(),
{
    let rest = order.drop_last();
    let class = class_of(order[i].demand);
    let filled = fill(order, counts, budget, now, limit);
    let before = fill(rest, counts, budget, now, limit);
    assert(distinct_hashes(rest)) by {
        assert forall|a: int, b: int| 0 <= a < b < rest.len() implies (
        #[trigger] rest[a]).info_hash != (#[trigger] rest[b]).info_hash by {
            assert(rest[a] == order[a] && rest[b] == order[b]);
        }
    }
    if j == order.len() - 1 {
        launches_are_candidates(rest, counts, budget, now, limit);
        if before.launches.contains(order[j]) {
            let k = before.launches.index_of(order[j]);
            assert(rest.contains(before.launches[k]));
            let m = rest.index_of(order[j]);
            assert(rest[m] == order[m]);
        }
        assert(filled.launches.len() > before.launches.len());
        launches_stay_within_limit(rest, counts, budget, now, limit);
        recorded_all_counts(counts, candidate_classes(before.launches), class);
        assert(rest[i] == order[i]);
        assert(rest.contains(order[i]));
        if !before.launches.contains(order[i]) {
            no_slot_is_left_unused(rest, counts, budget, now, limit, order[i]);
        }
        let k = before.launches.index_of(order[i]);
        assert(filled.launches[k] == order[i]);
    } else {
        if filled.launches.len() > before.launches.len() {
            let k = filled.launches.index_of(order[j]);
            if k < before.launches.len() {
                assert(before.launches[k] == order[j]);
            } else {
                assert(filled.launches[k] == order[order.len() - 1]);
                assert(order[j].info_hash != order[order.len() - 1].info_hash);
            }
        }
        assert(before.launches.contains(order[j]));
        assert(rest[i] == order[i] && rest[j] == order[j]);
        no_launch_overtakes_its_class(rest, counts, budget, now, limit, i, j);
        let k = before.launches.index_of(order[i]);
        assert(filled.launches[k] == order[i]);
    }
}

/// With room for one lookup, and a slot and a token for its class, the first of the launch order is
/// launched.
pub proof fn first_of_the_order_is_launched(
    candidates: Seq<DueDemandCandidate>,
    counts: DemandSlotCounts,
    parked_crawls: Map<InfoHash, DemandCrawlState>,
    planner_state: Map<InfoHash, DemandPlannerState>,
    budget: DemandPlannerBudget,
    now: Instant,
    total_budget: usize,
)
    requires
        candidates.len() > 0,
        total_budget > 0,
        ({
            let first = launch_order(candidates, parked_crawls, planner_state, now)[0];
            could_launch(first, seq![], counts, budget, now, 1)
        }),
    ensures
        ({
            let launches = due_selection(
                candidates,
                counts,
                parked_crawls,
                planner_state,
                budget,
                now,
                total_budget,
            ).launches;
            launches.len() > 0 && launches[0] == launch_order(
                candidates,
                parked_crawls,
                planner_state,
                now,
            )[0]
        }),
{
    let order = launch_order(candidates, parked_crawls, planner_state, now);
    rank_order_is_ordered(
        candidates.map_values(due_ranked(parked_crawls, planner_state, now)),
        10,
    );
    lemma_first_launched(order, counts, budget, now, total_budget as nat);
}

/// With room for one lookup, of two demands of the same standing whose lookups both found peers at
/// some time, the one whose last yield is more recent is launched, in whichever order they are
/// offered.
#[verifier::spinoff_prover]
#[verifier::rlimit(40)]
pub proof fn recent_yield_is_launched(
    recent: DueDemandCandidate,
    older: DueDemandCandidate,
    recent_first: bool,
    counts: DemandSlotCounts,
    parked_crawls: Map<InfoHash, DemandCrawlState>,
    planner_state: Map<InfoHash, DemandPlannerState>,
    budget: DemandPlannerBudget,
    now: Instant,
)
    requires
        same_standing(recent, older, planner_state, now),
        last_yield_at(planner_state, recent).is_some(),
        last_yield_at(planner_state, older).is_some(),
        last_yield_at(planner_state, older).unwrap() < last_yield_at(
            planner_state,
            recent,
        ).unwrap(),
        last_yield_at(planner_state, older).unwrap() < now,
        could_launch(recent, seq![], counts, budget, now, 1),
    ensures
        ({
            let offered = if recent_first {
                seq![recent, older]
            } else {
                seq![older, recent]
            };
            due_selection(
                offered,
                counts,
                parked_crawls,
                planner_state,
                budget,
                now,
                1,
            ).launches =~= seq![recent]
        }),
{
    let offered = if recent_first {
        seq![recent, older]
    } else {
        seq![older, recent]
    };
    let order = launch_order(offered, parked_crawls, planner_state, now);
    let (r, o): (int, int) = if recent_first {
        (0, 1)
    } else {
        (1, 0)
    };
    assert(offered[r] == recent && offered[o] == older);
    launch_order_holds_all(offered, parked_crawls, planner_state, now, recent);
    launch_order_holds_all(offered, parked_crawls, planner_state, now, older);
    let i = order.index_of(recent);
    let j = order.index_of(older);
    recent_yield_stands_first(offered, parked_crawls, planner_state, now, i, j);
    assert(order[0] == recent);
    first_of_the_order_is_launched(
        offered,
        counts,
        parked_crawls,
        planner_state,
        budget,
        now,
        1,
    );
    launches_stay_within_limit(order, counts, budget, now, 1);
}

proof fn lemma_first_launched(
    order: Seq<DueDemandCandidate>,
    counts: DemandSlotCounts,
    budget: DemandPlannerBudget,
    now: Instant,
    limit: nat,
)
    requires
        order.len() > 0,
        limit > 0,
        could_launch(order[0], seq![], counts, budget, now, 1),
    ensures
        fill(order, counts, budget, now, limit).launches.len() > 0,
        fill(order, counts, budget, now, limit).launches[0] == order[0],
    decreases order.len(),
{
    if order.len() == 1 {
        let nobody = Seq::<DueDemandCandidate>::empty();
        assert(order.drop_last() =~= nobody);
        assert(candidate_classes(nobody) =~= Seq::<DemandSliceClass>::empty());
        reveal_with_fuel(fill, 2);
    } else {
        lemma_first_launched(order.drop_last(), counts, budget, now, limit);
    }
}

// Spare capacity and the idle probe.

/// Whether spare capacity may go to a demand: somebody wants it, nothing runs for it, it is not yet
/// due, it has no connected peers and does not wait for metadata, and its last lookup is at least half
/// a minute ago.
pub open spec fn is_backed_off(
    snapshot: DemandEntrySnapshot,
    planner_state: Map<InfoHash, DemandPlannerState>,
    now: Instant,
) -> bool {
    &&& snapshot.subscriber_count > 0
    &&& !snapshot.in_progress
    &&& snapshot.next_eligible_at > now
    &&& !snapshot.demand.awaiting_metadata && snapshot.demand.connected_peers == 0
    &&& planner_state.contains_key(snapshot.info_hash) ==> {
        let state = planner_state[snapshot.info_hash];
        &&& state.last_finished_at.is_some() ==> now - state.last_finished_at.unwrap()
            >= 30 * SECOND
        &&& state.last_finished_at.is_none() && state.last_started_at.is_some() ==> now
            - state.last_started_at.unwrap() >= 30 * SECOND
    }
}

/// Spare capacity goes exactly to the demands that may have it.
pub proof fn spare_capacity_goes_to_backed_off_demands(
    snapshot: DemandEntrySnapshot,
    planner_state: Map<InfoHash, DemandPlannerState>,
    now: Instant,
)
    ensures
        spare_eligible(planner_state, now)(snapshot) == is_backed_off(snapshot, planner_state, now),
{
}

/// The idle probe goes exactly to the demands that somebody wants, for which nothing runs or was
/// launched, that are not yet due, and whose torrent takes peers and waits for metadata, has no
/// connected peers, or has a swarm that needs support.
pub proof fn idle_probe_goes_to_unserved_demands(
    snapshot: DemandEntrySnapshot,
    excluded: Seq<InfoHash>,
    now: Instant,
)
    ensures
        probe_eligible(excluded, now)(snapshot) == {
            &&& snapshot.subscriber_count > 0
            &&& !snapshot.in_progress
            &&& snapshot.next_eligible_at > now
            &&& !excluded.contains(snapshot.info_hash)
            &&& snapshot.metrics.accepting_new_peers && !snapshot.metrics.paused
            &&& snapshot.demand.awaiting_metadata || snapshot.demand.connected_peers == 0
                || needs_support(snapshot.metrics)
        },
{
}

/// The time since the last lookup for a candidate finished or, where none has, started.
pub open spec fn rest_began_at(
    planner_state: Map<InfoHash, DemandPlannerState>,
    candidate: DueDemandCandidate,
) -> Option<Instant> {
    if !planner_state.contains_key(candidate.info_hash) {
        None
    } else if planner_state[candidate.info_hash].last_finished_at.is_some() {
        planner_state[candidate.info_hash].last_finished_at
    } else {
        planner_state[candidate.info_hash].last_started_at
    }
}

/// Among candidates for spare capacity, one that rests from a lookup stands before one that was never
/// looked up; of two that rest, the one that has rested for longer; of two that have rested equally
/// long, the one that is due sooner, then the one whose crawl can be resumed, then the one with fewer
/// connected peers, and then the one with more subscribers.
#[verifier::spinoff_prover]
#[verifier::rlimit(40)]
pub proof fn longer_rested_candidates_stand_first(
    candidates: Seq<DueDemandCandidate>,
    parked_crawls: Map<InfoHash, DemandCrawlState>,
    planner_state: Map<InfoHash, DemandPlannerState>,
    now: Instant,
    i: int,
    j: int,
)
    requires
        0 <= i < ordered_by(candidates, spare_ranked(parked_crawls, planner_state, now)).len(),
        0 <= j < ordered_by(candidates, spare_ranked(parked_crawls, planner_state, now)).len(),
        ({
            let order = ordered_by(candidates, spare_ranked(parked_crawls, planner_state, now));
            let (a, b) = (order[i], order[j]);
            let (a_rest, b_rest) = (
                rest_began_at(planner_state, a),
                rest_began_at(planner_state, b),
            );
            ||| a_rest.is_some() && b_rest.is_none()
            ||| a_rest.is_some() && b_rest.is_some() && a_rest.unwrap() < b_rest.unwrap()
                && a_rest.unwrap() < now
            ||| a_rest == b_rest && {
                let same_time = a.next_eligible_at == b.next_eligible_at;
                let (a_crawl, b_crawl) = (
                    reusable(parked_crawls, a, now),
                    reusable(parked_crawls, b, now),
                );
                let (a_peers, b_peers) = (a.demand.connected_peers, b.demand.connected_peers);
                ||| a.next_eligible_at < b.next_eligible_at
                ||| same_time && a_crawl && !b_crawl
                ||| same_time && a_crawl == b_crawl && a_peers < b_peers
                ||| same_time && a_crawl == b_crawl && a_peers == b_peers && a.subscriber_count
                    > b.subscriber_count
            }
        }),
    ensures
        i < j,
{
    broadcast use vstd::seq_lib::group_to_multiset_ensures;

    let entries = candidates.map_values(spare_ranked(parked_crawls, planner_state, now));
    let sorted = rank_order(entries);
    let order = ordered_by(candidates, spare_ranked(parked_crawls, planner_state, now));
    assert(same_width(entries, 6));
    rank_order_is_ordered(entries, 6);
    rank_order_keeps_all(entries);
    assert(sorted.to_multiset().count(sorted[i]) > 0);
    assert(sorted.to_multiset().count(sorted[j]) > 0);
    assert(entries.contains(sorted[i]));
    assert(entries.contains(sorted[j]));
    let left = spare_rank(order[i], parked_crawls, planner_state, now);
    let right = spare_rank(order[j], parked_crawls, planner_state, now);
    let place: int = if left[0] < right[0] {
        0
    } else if left[1] < right[1] {
        1
    } else if left[2] < right[2] {
        2
    } else if left[3] < right[3] {
        3
    } else if left[4] < right[4] {
        4
    } else {
        5
    };
    assert(left[place] < right[place] && agree(left, right, place));
    assert(ranks_before(left, right));
    if j < i {
        assert(!ranks_before(sorted[i].1, sorted[j].1));
    }
    if i == j {
        assert(left[place] == right[place]);
    }
}

/// With room for one lookup, and a slot and a token for its class, the idle probe starts the first of
/// those that it may go to, in the launch order.
pub proof fn probes_follow_the_launch_order(
    snapshots: Seq<DemandEntrySnapshot>,
    counts: DemandSlotCounts,
    excluded: Seq<InfoHash>,
    parked_crawls: Map<InfoHash, DemandCrawlState>,
    planner_state: Map<InfoHash, DemandPlannerState>,
    budget: DemandPlannerBudget,
    now: Instant,
    limit: usize,
)
    requires
        limit > 0,
        snapshots.filter(probe_eligible(excluded, now)).len() > 0,
        ({
            let candidates = snapshots.filter(probe_eligible(excluded, now)).map_values(
                as_candidate(),
            );
            let first = launch_order(candidates, parked_crawls, planner_state, now)[0];
            could_launch(first, seq![], counts, budget, now, 1)
        }),
    ensures
        ({
            let candidates = snapshots.filter(probe_eligible(excluded, now)).map_values(
                as_candidate(),
            );
            let launches = probe_selection(
                snapshots,
                counts,
                excluded,
                parked_crawls,
                planner_state,
                budget,
                now,
                limit,
            ).launches;
            launches.len() > 0 && launches[0] == launch_order(
                candidates,
                parked_crawls,
                planner_state,
                now,
            )[0]
        }),
{
    let candidates = snapshots.filter(probe_eligible(excluded, now)).map_values(as_candidate());
    let order = launch_order(candidates, parked_crawls, planner_state, now);
    rank_order_is_ordered(
        candidates.map_values(due_ranked(parked_crawls, planner_state, now)),
        10,
    );
    lemma_first_launched(order, counts, budget, now, limit as nat);
}

/// Spare capacity is spent only while fewer lookups run than the limit for that, and then, with room,
/// a token and a demand that may have it, exactly one lookup is launched.
pub proof fn spare_capacity_launches_one(
    snapshots: Seq<DemandEntrySnapshot>,
    counts: DemandSlotCounts,
    parked_crawls: Map<InfoHash, DemandCrawlState>,
    planner_state: Map<InfoHash, DemandPlannerState>,
    budget: DemandPlannerBudget,
    now: Instant,
    total_budget: usize,
)
    requires
        counts.awaiting_metadata + counts.no_connected_peers + counts.routine_refresh
            <= usize::MAX,
    ensures
        ({
            let launches = spare_selection(
                snapshots,
                counts,
                parked_crawls,
                planner_state,
                budget,
                now,
                total_budget,
            ).0;
            let running = counts.awaiting_metadata + counts.no_connected_peers
                + counts.routine_refresh;
            let order = ordered_by(
                snapshots.filter(spare_eligible(planner_state, now)).map_values(as_candidate()),
                spare_ranked(parked_crawls, planner_state, now),
            );
            let token = budget.no_connected_peers.refilled(now).tokens_scaled
                >= 1_000;
            &&& running >= 1 || total_budget == 0 || !token
                || order.len() == 0 ==> launches.len() == 0
            &&& running < 1 && total_budget > 0 && token
                && order.len() > 0 ==> launches.len() == 1
                && launches[0] == order[0]
        }),
{
    let order = ordered_by(
        snapshots.filter(spare_eligible(planner_state, now)).map_values(as_candidate()),
        spare_ranked(parked_crawls, planner_state, now),
    );
    lemma_spare_first(order, budget, now);
    if total_budget == 0 {
    } else {
        assert(1 == 1);
    }
}

proof fn lemma_spare_first(
    order: Seq<DueDemandCandidate>,
    budget: DemandPlannerBudget,
    now: Instant,
)
    ensures
        ({
            let token = budget.no_connected_peers.refilled(now).tokens_scaled
                >= 1_000;
            let (launches, left) = spare_fill(order, budget, now, 1);
            &&& order.len() == 0 || !token ==> launches.len() == 0 && left.no_connected_peers.refilled(
                now,
            ) == budget.no_connected_peers.refilled(now)
            &&& order.len() > 0 && token ==> launches.len() == 1 && launches[0] == order[0]
        }),
    decreases order.len(),
{
    if order.len() > 0 {
        lemma_spare_first(order.drop_last(), budget, now);
    }
}

} // verus!
