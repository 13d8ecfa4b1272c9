use vstd::prelude::*;

use crate::clock::Instant;
use crate::ids::InfoHash;
use crate::limits::DHT_PLANNER_TOKEN_SCALE;
use crate::planner::budget::DemandPlannerBudget;
use crate::planner::counts::{class_total, recorded_all_counts, DemandSlotCounts};
use crate::planner::crawl::DemandCrawlState;
use crate::planner::history::DemandPlannerState;
use crate::planner::plan::known;
use crate::planner::ranking::{
    agree, rank_order, rank_order_is_ordered, rank_order_keeps_all, ranks_before, same_width,
};
use crate::planner::selection::{
    candidate_classes, due_rank, due_ranked, fill, has_hash, launched_or_not, ordered_by,
    priority_score, spare_fill, stats_of, supports_swarm,
};
use crate::scheduler::DueDemandCandidate;
use crate::slice::{class_of, DemandSliceClass};

verus! {

/// A selection never launches more than its limit, and counts exactly what it launches.
pub proof fn launches_stay_within_limit(
    order: Seq<DueDemandCandidate>,
    counts: DemandSlotCounts,
    budget: DemandPlannerBudget,
    now: Instant,
    limit: nat,
)
    ensures
        fill(order, counts, budget, now, limit).launches.len() <= limit,
        fill(order, counts, budget, now, limit).launches.len() <= order.len(),
        fill(order, counts, budget, now, limit).counts == counts.recorded_all(
            candidate_classes(fill(order, counts, budget, now, limit).launches),
        ),
    decreases order.len(),
{
    let filled = fill(order, counts, budget, now, limit);
    if order.len() == 0 {
        assert(candidate_classes(filled.launches) =~= Seq::<DemandSliceClass>::empty());
    } else {
        let before = fill(order.drop_last(), counts, budget, now, limit);
        launches_stay_within_limit(order.drop_last(), counts, budget, now, limit);
        if filled.launches.len() > before.launches.len() {
            assert(candidate_classes(filled.launches).drop_last() =~= candidate_classes(
                before.launches,
            ));
        }
    }
}

/// A selection never runs more lookups of a class at once than the class has slots; a class that
/// is over its slots already gets none.
pub proof fn launches_stay_within_class_caps(
    order: Seq<DueDemandCandidate>,
    counts: DemandSlotCounts,
    budget: DemandPlannerBudget,
    now: Instant,
    limit: nat,
    class: DemandSliceClass,
)
    requires
        counts.of(class) + limit <= usize::MAX,
    ensures
        counts.of(class) <= class.slot_cap() ==> counts.of(class) + class_total(
            candidate_classes(fill(order, counts, budget, now, limit).launches),
            class,
        ) <= class.slot_cap(),
        counts.of(class) >= class.slot_cap() ==> class_total(
            candidate_classes(fill(order, counts, budget, now, limit).launches),
            class,
        ) == 0,
    decreases order.len(),
{
    let filled = fill(order, counts, budget, now, limit);
    if order.len() == 0 {
        assert(candidate_classes(filled.launches) =~= Seq::<DemandSliceClass>::empty());
    } else {
        let before = fill(order.drop_last(), counts, budget, now, limit);
        launches_stay_within_class_caps(order.drop_last(), counts, budget, now, limit, class);
        launches_stay_within_limit(order.drop_last(), counts, budget, now, limit);
        recorded_all_counts(counts, candidate_classes(before.launches), class);
        if filled.launches.len() > before.launches.len() {
            assert(candidate_classes(filled.launches).drop_last() =~= candidate_classes(
                before.launches,
            ));
        }
    }
}

/// A selection never launches more lookups of a class than the class has whole tokens, however
/// many candidates there are.
pub proof fn launches_stay_within_tokens(
    order: Seq<DueDemandCandidate>,
    counts: DemandSlotCounts,
    budget: DemandPlannerBudget,
    now: Instant,
    limit: nat,
    class: DemandSliceClass,
)
    ensures
        class_total(
            candidate_classes(fill(order, counts, budget, now, limit).launches),
            class,
        ) * DHT_PLANNER_TOKEN_SCALE + fill(order, counts, budget, now, limit).budget.bucket(
            class,
        ).refilled(now).tokens_scaled == budget.bucket(class).refilled(now).tokens_scaled,
    decreases order.len(),
{
    let filled = fill(order, counts, budget, now, limit);
    if order.len() == 0 {
        assert(candidate_classes(filled.launches) =~= Seq::<DemandSliceClass>::empty());
    } else {
        let before = fill(order.drop_last(), counts, budget, now, limit);
        launches_stay_within_tokens(order.drop_last(), counts, budget, now, limit, class);
        if filled.launches.len() > before.launches.len() {
            assert(candidate_classes(filled.launches).drop_last() =~= candidate_classes(
                before.launches,
            ));
        }
        let picked = class_of(order.last().demand);
        assert(picked != class ==> before.budget.consumed(picked, now).bucket(class)
            == before.budget.bucket(class));
        assert(class_total(candidate_classes(filled.launches), class) * DHT_PLANNER_TOKEN_SCALE
            == class_total(candidate_classes(before.launches), class) * DHT_PLANNER_TOKEN_SCALE
            + if filled.launches.len() > before.launches.len() && picked == class {
            DHT_PLANNER_TOKEN_SCALE as int
        } else {
            0
        }) by (nonlinear_arith)
            requires
                class_total(candidate_classes(filled.launches), class) == class_total(
                    candidate_classes(before.launches),
                    class,
                ) + if filled.launches.len() > before.launches.len() && picked == class {
                    1int
                } else {
                    0
                },
        ;
    }
}

/// Every launch of a selection is one of its candidates.
pub proof fn launches_are_candidates(
    order: Seq<DueDemandCandidate>,
    counts: DemandSlotCounts,
    budget: DemandPlannerBudget,
    now: Instant,
    limit: nat,
)
    ensures
        forall|i: int|
            #![trigger fill(order, counts, budget, now, limit).launches[i]]
            0 <= i < fill(order, counts, budget, now, limit).launches.len() ==> order.contains(
                fill(order, counts, budget, now, limit).launches[i],
            ),
    decreases order.len(),
{
    let filled = fill(order, counts, budget, now, limit);
    if order.len() > 0 {
        let before = fill(order.drop_last(), counts, budget, now, limit);
        launches_are_candidates(order.drop_last(), counts, budget, now, limit);
        assert forall|i: int| 0 <= i < filled.launches.len() implies order.contains(
            #[trigger] filled.launches[i],
        ) by {
            if i < before.launches.len() {
                assert(filled.launches[i] == before.launches[i]);
                assert(order.drop_last().contains(before.launches[i]));
                let j = order.drop_last().index_of(before.launches[i]);
                assert(order[j] == filled.launches[i]);
            } else {
                assert(order[order.len() - 1] == filled.launches[i]);
            }
        }
    }
}

/// No two candidates have the same info hash.
pub open spec fn distinct_hashes(candidates: Seq<DueDemandCandidate>) -> bool {
    forall|i: int, j: int|
        0 <= i < j < candidates.len() ==> (#[trigger] candidates[i]).info_hash != (
        #[trigger] candidates[j]).info_hash
}

/// A selection launches no demand twice.
pub proof fn launches_are_distinct(
    order: Seq<DueDemandCandidate>,
    counts: DemandSlotCounts,
    budget: DemandPlannerBudget,
    now: Instant,
    limit: nat,
)
    requires
        distinct_hashes(order),
    ensures
        distinct_hashes(fill(order, counts, budget, now, limit).launches),
    decreases order.len(),
{
    let filled = fill(order, counts, budget, now, limit);
    if order.len() > 0 {
        let rest = order.drop_last();
        assert(distinct_hashes(rest)) by {
            assert forall|i: int, j: int| 0 <= i < j < rest.len() implies (
            #[trigger] rest[i]).info_hash != (#[trigger] rest[j]).info_hash by {
                assert(rest[i] == order[i] && rest[j] == order[j]);
            }
        }
        let before = fill(rest, counts, budget, now, limit);
        launches_are_distinct(rest, counts, budget, now, limit);
        launches_are_candidates(rest, counts, budget, now, limit);
        assert forall|i: int, j: int| 0 <= i < j < filled.launches.len() implies (
        #[trigger] filled.launches[i]).info_hash != (#[trigger] filled.launches[j]).info_hash by {
            assert(filled.launches[i] == before.launches[i]);
            if j == before.launches.len() {
                assert(rest.contains(before.launches[i]));
                let k = rest.index_of(before.launches[i]);
                assert(order[k] == before.launches[i]);
                assert(order[order.len() - 1] == filled.launches[j]);
            } else {
                assert(filled.launches[j] == before.launches[j]);
            }
        }
    }
}

/// A selection with spare capacity never launches more than its limit.
pub proof fn spare_launches_stay_within_limit(
    order: Seq<DueDemandCandidate>,
    budget: DemandPlannerBudget,
    now: Instant,
    limit: nat,
)
    ensures
        spare_fill(order, budget, now, limit).0.len() <= limit,
    decreases order.len(),
{
    if order.len() > 0 {
        spare_launches_stay_within_limit(order.drop_last(), budget, now, limit);
    }
}

/// Whether a candidate is launched is known of each: what is launched and what is held back
/// together is what was offered, class by class.
pub proof fn stats_balance(
    offered: Seq<DueDemandCandidate>,
    launched: Seq<DueDemandCandidate>,
    now: Instant,
    class: DemandSliceClass,
)
    requires
        offered.len() <= usize::MAX,
    ensures
        stats_of(offered, launched, now).offered.of(class) == stats_of(
            offered,
            launched,
            now,
        ).launched.of(class) + stats_of(offered, launched, now).throttled.of(class),
{
    lemma_partition(offered, launched, class);
    let went = offered.filter(launched_or_not(launched, true));
    let stayed = offered.filter(launched_or_not(launched, false));
    recorded_all_counts(DemandSlotCounts::zero(), candidate_classes(offered), class);
    recorded_all_counts(DemandSlotCounts::zero(), candidate_classes(went), class);
    recorded_all_counts(DemandSlotCounts::zero(), candidate_classes(stayed), class);
}

proof fn lemma_partition(
    offered: Seq<DueDemandCandidate>,
    launched: Seq<DueDemandCandidate>,
    class: DemandSliceClass,
)
    ensures
        offered.filter(launched_or_not(launched, true)).len() + offered.filter(
            launched_or_not(launched, false),
        ).len() == offered.len(),
        class_total(candidate_classes(offered), class) == class_total(
            candidate_classes(offered.filter(launched_or_not(launched, true))),
            class,
        ) + class_total(
            candidate_classes(offered.filter(launched_or_not(launched, false))),
            class,
        ),
    decreases offered.len(),
{
    reveal(Seq::filter);
    let went = offered.filter(launched_or_not(launched, true));
    let stayed = offered.filter(launched_or_not(launched, false));
    if offered.len() > 0 {
        let rest = offered.drop_last();
        lemma_partition(rest, launched, class);
        assert(candidate_classes(offered).drop_last() =~= candidate_classes(rest));
        if has_hash(launched, offered.last().info_hash) {
            assert(candidate_classes(went).drop_last() =~= candidate_classes(
                rest.filter(launched_or_not(launched, true)),
            ));
        } else {
            assert(candidate_classes(stayed).drop_last() =~= candidate_classes(
                rest.filter(launched_or_not(launched, false)),
            ));
        }
    } else {
        assert(candidate_classes(offered) =~= Seq::<DemandSliceClass>::empty());
        assert(candidate_classes(went) =~= Seq::<DemandSliceClass>::empty());
        assert(candidate_classes(stayed) =~= Seq::<DemandSliceClass>::empty());
    }
}

/// A demand that waits for metadata scores higher than any that does not, whatever speaks for the
/// other one.
pub proof fn metadata_scores_highest(
    metadata: DueDemandCandidate,
    other: DueDemandCandidate,
    planner_state: Map<InfoHash, DemandPlannerState>,
    now: Instant,
)
    requires
        metadata.demand.awaiting_metadata,
        !other.demand.awaiting_metadata,
    ensures
        priority_score(metadata, known(planner_state, metadata.info_hash), now) > priority_score(
            other,
            known(planner_state, other.info_hash),
            now,
        ),
{
}

/// Among due candidates a demand that waits for metadata comes before any that does not.
pub proof fn metadata_comes_first(
    candidates: Seq<DueDemandCandidate>,
    parked_crawls: Map<InfoHash, DemandCrawlState>,
    planner_state: Map<InfoHash, DemandPlannerState>,
    now: Instant,
    i: int,
    j: int,
)
    requires
        0 <= i < ordered_by(candidates, due_ranked(parked_crawls, planner_state, now)).len(),
        0 <= j < ordered_by(candidates, due_ranked(parked_crawls, planner_state, now)).len(),
        ordered_by(
            candidates,
            due_ranked(parked_crawls, planner_state, now),
        )[i].demand.awaiting_metadata,
        !ordered_by(
            candidates,
            due_ranked(parked_crawls, planner_state, now),
        )[j].demand.awaiting_metadata,
    ensures
        i < j,
{
    higher_score_comes_first(candidates, parked_crawls, planner_state, now, i, j);
}

/// Among due candidates one with a higher score comes before one with a lower score.
pub proof fn higher_score_comes_first(
    candidates: Seq<DueDemandCandidate>,
    parked_crawls: Map<InfoHash, DemandCrawlState>,
    planner_state: Map<InfoHash, DemandPlannerState>,
    now: Instant,
    i: int,
    j: int,
)
    requires
        0 <= i < ordered_by(candidates, due_ranked(parked_crawls, planner_state, now)).len(),
        0 <= j < ordered_by(candidates, due_ranked(parked_crawls, planner_state, now)).len(),
        ({
            let order = ordered_by(candidates, due_ranked(parked_crawls, planner_state, now));
            priority_score(order[i], known(planner_state, order[i].info_hash), now)
                > priority_score(order[j], known(planner_state, order[j].info_hash), now)
        }),
    ensures
        i < j,
{
    let entries = candidates.map_values(due_ranked(parked_crawls, planner_state, now));
    let sorted = rank_order(entries);
    let order = ordered_by(candidates, due_ranked(parked_crawls, planner_state, now));
    assert(same_width(entries, 10));
    rank_order_is_ordered(entries, 10);
    rank_order_keeps_all(entries);
    lemma_ranked_entry(candidates, parked_crawls, planner_state, now, i);
    lemma_ranked_entry(candidates, parked_crawls, planner_state, now, j);
    let left = due_rank(order[i], parked_crawls, planner_state, now);
    let right = due_rank(order[j], parked_crawls, planner_state, now);
    assert(left[0] < right[0]);
    assert(agree(left, right, 0));
    assert(ranks_before(left, right));
    if j < i {
        assert(!ranks_before(sorted[i].1, sorted[j].1));
    }
}

/// In the order of ranks each candidate stands with its own rank.
proof fn lemma_ranked_entry(
    candidates: Seq<DueDemandCandidate>,
    parked_crawls: Map<InfoHash, DemandCrawlState>,
    planner_state: Map<InfoHash, DemandPlannerState>,
    now: Instant,
    i: int,
)
    requires
        0 <= i < ordered_by(candidates, due_ranked(parked_crawls, planner_state, now)).len(),
    ensures
        ({
            let entry = rank_order(
                candidates.map_values(due_ranked(parked_crawls, planner_state, now)),
            )[i];
            entry.1 == due_rank(entry.0, parked_crawls, planner_state, now)
        }),
{
    broadcast use vstd::seq_lib::group_to_multiset_ensures;

    let entries = candidates.map_values(due_ranked(parked_crawls, planner_state, now));
    let sorted = rank_order(entries);
    rank_order_keeps_all(entries);
    assert(sorted.contains(sorted[i]));
    assert(sorted.to_multiset().count(sorted[i]) > 0);
    assert(entries.contains(sorted[i]));
}

/// A candidate with connected peers and nothing else to its credit scores like one without
/// connected peers and nothing else to its credit.
pub proof fn cold_candidates_score_alike(
    no_peers: DueDemandCandidate,
    routine: DueDemandCandidate,
    now: Instant,
)
    requires
        class_of(no_peers.demand) == DemandSliceClass::NoConnectedPeers,
        class_of(routine.demand) == DemandSliceClass::RoutineRefresh,
        no_peers.next_eligible_at == routine.next_eligible_at,
        !supports_swarm(routine),
    ensures
        priority_score(no_peers, None, now) == priority_score(routine, None, now),
{
}

} // verus!
