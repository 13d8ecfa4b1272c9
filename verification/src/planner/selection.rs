use vstd::prelude::*;

use crate::clock::{elapsed, millis, Duration, Instant, MILLISECOND};
use crate::ids::InfoHash;
use crate::limits::{
    DHT_DEMAND_FAIRNESS_AGE, DHT_DEMAND_SPARE_RESEARCH_LAUNCH_LIMIT,
    DHT_DEMAND_SPARE_RESEARCH_MAX_ACTIVE, DHT_DEMAND_SPARE_RESEARCH_MIN_INTERVAL,
    DHT_FAIRNESS_PRIORITY_SCORE, DHT_METADATA_PRIORITY_SCORE, DHT_SWARM_SUPPORT_PRIORITY_SCORE,
    DHT_YIELD_PRIORITY_SCORE_CAP,
};
use crate::planner::budget::DemandPlannerBudget;
use crate::planner::counts::{DemandPlannerSelectionStats, DemandSlotCounts};
use crate::planner::crawl::DemandCrawlState;
use crate::planner::history::DemandPlannerState;
use crate::planner::plan::known;
use crate::planner::ranking::{insert_ranked, rank_order, ranked_view, Ranked, RankedCandidate};
use crate::scheduler::{as_candidate, DemandEntrySnapshot, DueDemandCandidate};
use crate::slice::{
    class_of, demand_lookup_class_slot_cap, demand_slice_class_priority, DemandSelectionReason,
    DemandSliceClass,
};
use crate::table::InfoHashMap;

verus! {

/// What one selection launches, and how it came to that.
#[derive(Debug)]
pub struct DemandPlannerSelection {
    pub launches: Vec<DueDemandCandidate>,
    pub stats: DemandPlannerSelectionStats,
}

// What is known of a candidate.

/// Whether a parked crawl can be resumed for a candidate.
pub open spec fn reusable(
    parked_crawls: Map<InfoHash, DemandCrawlState>,
    candidate: DueDemandCandidate,
    now: Instant,
) -> bool {
    parked_crawls.contains_key(candidate.info_hash)
        && !parked_crawls[candidate.info_hash].without_states()
        && parked_crawls[candidate.info_hash].reset_reason(
        class_of(candidate.demand),
        now,
    ).is_none()
}

/// The time since a lookup last found peers.
pub open spec fn useful_age(history: Option<DemandPlannerState>, now: Instant) -> Option<Duration> {
    match history {
        Some(state) => match state.last_useful_yield_at {
            Some(at) => Some(elapsed(now, at)),
            None => None,
        },
        None => None,
    }
}

/// The unique peers that the last lookup found.
pub open spec fn last_unique(history: Option<DemandPlannerState>) -> usize {
    match history {
        Some(state) => state.last_unique_peers,
        None => 0,
    }
}

/// The time since a lookup last finished or, where none has, last started.
pub open spec fn activity_age(history: Option<DemandPlannerState>, now: Instant) -> Option<
    Duration,
> {
    match history {
        Some(state) => match state.last_finished_at {
            Some(at) => Some(elapsed(now, at)),
            None => match state.last_started_at {
                Some(at) => Some(elapsed(now, at)),
                None => None,
            },
        },
        None => None,
    }
}

/// Whether some lookup found peers, the last one among them.
pub open spec fn has_yield(history: Option<DemandPlannerState>, now: Instant) -> bool {
    useful_age(history, now).is_some() && last_unique(history) > 0
}

/// Whether a candidate has been due for so long that it goes first.
pub open spec fn is_fair(candidate: DueDemandCandidate, now: Instant) -> bool {
    elapsed(now, candidate.next_eligible_at) >= DHT_DEMAND_FAIRNESS_AGE
}

/// Whether a candidate with connected peers has a swarm that needs support.
pub open spec fn supports_swarm(candidate: DueDemandCandidate) -> bool {
    class_of(candidate.demand) == DemandSliceClass::RoutineRefresh
        && candidate.metrics.needs_swarm_support()
}

/// Whether a demand has rested long enough to spend spare capacity on it.
pub open spec fn is_rested(history: Option<DemandPlannerState>, now: Instant) -> bool {
    match activity_age(history, now) {
        Some(age) => age >= DHT_DEMAND_SPARE_RESEARCH_MIN_INTERVAL,
        None => true,
    }
}

/// Why a candidate is picked: the first of these that holds.
pub open spec fn reason_for(
    candidate: DueDemandCandidate,
    parked_crawls: Map<InfoHash, DemandCrawlState>,
    planner_state: Map<InfoHash, DemandPlannerState>,
    now: Instant,
) -> DemandSelectionReason {
    if is_fair(candidate, now) {
        DemandSelectionReason::Fairness
    } else if supports_swarm(candidate) {
        DemandSelectionReason::SwarmSupport
    } else if has_yield(known(planner_state, candidate.info_hash), now) {
        DemandSelectionReason::UsefulYieldHistory
    } else if reusable(parked_crawls, candidate, now) {
        DemandSelectionReason::ReusableParked
    } else {
        DemandSelectionReason::OverdueScarce
    }
}

/// The part of a score that the last yield brings.
pub open spec fn yield_score(history: Option<DemandPlannerState>, now: Instant) -> u64 {
    if !has_yield(history, now) {
        0
    } else if last_unique(history) < DHT_YIELD_PRIORITY_SCORE_CAP {
        last_unique(history) as u64
    } else {
        DHT_YIELD_PRIORITY_SCORE_CAP
    }
}

/// The score of a candidate. Metadata outweighs everything else together; after that comes being
/// overdue for long, then a swarm that needs support, then the last yield.
pub open spec fn priority_score(
    candidate: DueDemandCandidate,
    history: Option<DemandPlannerState>,
    now: Instant,
) -> u64 {
    if class_of(candidate.demand) == DemandSliceClass::AwaitingMetadata {
        DHT_METADATA_PRIORITY_SCORE
    } else {
        let fairness: u64 = if is_fair(candidate, now) {
            DHT_FAIRNESS_PRIORITY_SCORE
        } else {
            0
        };
        let support: u64 = if supports_swarm(candidate) {
            DHT_SWARM_SUPPORT_PRIORITY_SCORE
        } else {
            0
        };
        (fairness + support + yield_score(history, now)) as u64
    }
}

/// A number that is smaller where `value` is larger.
pub open spec fn descending(value: u64) -> u64 {
    (u64::MAX - value) as u64
}

/// A number that is smaller where `flag` is set.
pub open spec fn flag_first(flag: bool) -> u64 {
    if flag {
        0
    } else {
        1
    }
}

/// The numbers by which due candidates are ordered: higher score, higher class, overdue for long,
/// more recent yield, larger yield, a crawl to resume, longer due, fewer connected peers, more
/// subscribers.
pub open spec fn due_rank(
    candidate: DueDemandCandidate,
    parked_crawls: Map<InfoHash, DemandCrawlState>,
    planner_state: Map<InfoHash, DemandPlannerState>,
    now: Instant,
) -> Seq<u64> {
    let history = known(planner_state, candidate.info_hash);
    let age = useful_age(history, now);
    seq![
        descending(priority_score(candidate, history, now)),
        descending(class_of(candidate.demand).priority() as u64),
        flag_first(is_fair(candidate, now)),
        flag_first(age.is_some()),
        match age { Some(age) => age, None => 0 },
        descending(last_unique(history) as u64),
        flag_first(reusable(parked_crawls, candidate, now)),
        descending(elapsed(now, candidate.next_eligible_at)),
        candidate.demand.connected_peers as u64,
        descending(candidate.subscriber_count as u64),
    ]
}

/// The numbers by which candidates for spare capacity are ordered: longer at rest, eligible
/// sooner, a crawl to resume, fewer connected peers, more subscribers.
pub open spec fn spare_rank(
    candidate: DueDemandCandidate,
    parked_crawls: Map<InfoHash, DemandCrawlState>,
    planner_state: Map<InfoHash, DemandPlannerState>,
    now: Instant,
) -> Seq<u64> {
    let age = activity_age(known(planner_state, candidate.info_hash), now);
    seq![
        flag_first(age.is_some()),
        descending(match age { Some(age) => age, None => 0 }),
        candidate.next_eligible_at,
        flag_first(reusable(parked_crawls, candidate, now)),
        candidate.demand.connected_peers as u64,
        descending(candidate.subscriber_count as u64),
    ]
}

/// A candidate with the rank of a due one.
pub open spec fn due_ranked(
    parked_crawls: Map<InfoHash, DemandCrawlState>,
    planner_state: Map<InfoHash, DemandPlannerState>,
    now: Instant,
) -> spec_fn(DueDemandCandidate) -> Ranked {
    |candidate: DueDemandCandidate|
        (candidate, due_rank(candidate, parked_crawls, planner_state, now))
}

/// A candidate with the rank of one for spare capacity.
pub open spec fn spare_ranked(
    parked_crawls: Map<InfoHash, DemandCrawlState>,
    planner_state: Map<InfoHash, DemandPlannerState>,
    now: Instant,
) -> spec_fn(DueDemandCandidate) -> Ranked {
    |candidate: DueDemandCandidate|
        (candidate, spare_rank(candidate, parked_crawls, planner_state, now))
}

/// The candidate without its rank.
pub open spec fn unranked() -> spec_fn(Ranked) -> DueDemandCandidate {
    |entry: Ranked| entry.0
}

/// Candidates in the order of a ranking.
pub open spec fn ordered_by(
    candidates: Seq<DueDemandCandidate>,
    ranked: spec_fn(DueDemandCandidate) -> Ranked,
) -> Seq<DueDemandCandidate> {
    rank_order(candidates.map_values(ranked)).map_values(unranked())
}

/// A selection on its way: what is launched so far, how many lookups run of each class, and the
/// tokens that are left.
pub struct LaunchFill {
    pub launches: Seq<DueDemandCandidate>,
    pub counts: DemandSlotCounts,
    pub budget: DemandPlannerBudget,
}

/// What is launched of candidates that are offered in order: each for which the limit is not yet
/// reached, its class has a free slot and its class has a token.
pub open spec fn fill(
    order: Seq<DueDemandCandidate>,
    counts: DemandSlotCounts,
    budget: DemandPlannerBudget,
    now: Instant,
    limit: nat,
) -> LaunchFill
    decreases order.len(),
{
    if order.len() == 0 {
        LaunchFill { launches: seq![], counts, budget }
    } else {
        let before = fill(order.drop_last(), counts, budget, now, limit);
        let candidate = order.last();
        let class = class_of(candidate.demand);
        if before.launches.len() >= limit || before.counts.of(class) >= class.slot_cap() {
            before
        } else if !before.budget.has_token(class, now) {
            LaunchFill { budget: before.budget.consumed(class, now), ..before }
        } else {
            LaunchFill {
                launches: before.launches.push(candidate),
                counts: before.counts.recorded(class),
                budget: before.budget.consumed(class, now),
            }
        }
    }
}

/// What is launched with spare capacity of candidates that are offered in order: each for which
/// the limit is not yet reached and there is a token for torrents without peers.
pub open spec fn spare_fill(
    order: Seq<DueDemandCandidate>,
    budget: DemandPlannerBudget,
    now: Instant,
    limit: nat,
) -> (Seq<DueDemandCandidate>, DemandPlannerBudget)
    decreases order.len(),
{
    if order.len() == 0 {
        (seq![], budget)
    } else {
        let before = spare_fill(order.drop_last(), budget, now, limit);
        if before.0.len() >= limit {
            before
        } else {
            let class = DemandSliceClass::NoConnectedPeers;
            (
                if before.1.has_token(class, now) {
                    before.0.push(order.last())
                } else {
                    before.0
                },
                before.1.consumed(class, now),
            )
        }
    }
}

/// The classes of candidates.
pub open spec fn candidate_classes(candidates: Seq<DueDemandCandidate>) -> Seq<DemandSliceClass> {
    candidates.map_values(|candidate: DueDemandCandidate| class_of(candidate.demand))
}

/// Whether a candidate is among those launched, or is not.
pub open spec fn launched_or_not(launched: Seq<DueDemandCandidate>, want: bool) -> spec_fn(
    DueDemandCandidate,
) -> bool {
    |candidate: DueDemandCandidate| has_hash(launched, candidate.info_hash) == want
}

/// Whether one of several candidates has an info hash.
pub open spec fn has_hash(candidates: Seq<DueDemandCandidate>, info_hash: InfoHash) -> bool {
    exists|i: int| 0 <= i < candidates.len() && (#[trigger] candidates[i]).info_hash == info_hash
}

/// The longest time for which a candidate of a class has been due.
pub open spec fn oldest_due_ms(
    candidates: Seq<DueDemandCandidate>,
    class: DemandSliceClass,
    now: Instant,
) -> u64
    decreases candidates.len(),
{
    if candidates.len() == 0 {
        0
    } else {
        let rest = oldest_due_ms(candidates.drop_last(), class, now);
        let age = millis(elapsed(now, candidates.last().next_eligible_at));
        if class_of(candidates.last().demand) == class && age > rest {
            age
        } else {
            rest
        }
    }
}

/// The statistics of a selection: how many candidates of each class were offered, how many of
/// those were launched and held back, and how long the oldest held back had been due.
pub open spec fn stats_of(
    offered: Seq<DueDemandCandidate>,
    launched: Seq<DueDemandCandidate>,
    now: Instant,
) -> DemandPlannerSelectionStats {
    let went = offered.filter(launched_or_not(launched, true));
    let stayed = offered.filter(launched_or_not(launched, false));
    DemandPlannerSelectionStats {
        offered: DemandSlotCounts::zero().recorded_all(candidate_classes(offered)),
        launched: DemandSlotCounts::zero().recorded_all(candidate_classes(went)),
        throttled: DemandSlotCounts::zero().recorded_all(candidate_classes(stayed)),
        oldest_throttled_awaiting_ms: oldest_due_ms(
            stayed,
            DemandSliceClass::AwaitingMetadata,
            now,
        ),
        oldest_throttled_no_peers_ms: oldest_due_ms(
            stayed,
            DemandSliceClass::NoConnectedPeers,
            now,
        ),
        oldest_throttled_routine_ms: oldest_due_ms(stayed, DemandSliceClass::RoutineRefresh, now),
    }
}

pub fn due_candidate_has_reusable_parked_crawl(
    parked_crawls: &InfoHashMap<DemandCrawlState>,
    candidate: DueDemandCandidate,
    now: Instant,
) -> (yes: bool)
    ensures
        yes == reusable(parked_crawls@, candidate, now),
{
    let class = DemandSliceClass::from_demand(candidate.demand);
    match parked_crawls.get(&candidate.info_hash) {
        Some(crawl) => !crawl.is_empty() && !crawl.should_reset_for(class, now),
        None => false,
    }
}

pub fn candidate_last_useful_yield_age(
    planner_state: &InfoHashMap<DemandPlannerState>,
    info_hash: InfoHash,
    now: Instant,
) -> (age: Option<Duration>)
    ensures
        age == useful_age(known(planner_state@, info_hash), now),
{
    match planner_state.get(&info_hash) {
        Some(state) => match state.last_useful_yield_at {
            Some(at) => Some(now.saturating_sub(at)),
            None => None,
        },
        None => None,
    }
}

pub fn candidate_last_unique_peers(
    planner_state: &InfoHashMap<DemandPlannerState>,
    info_hash: InfoHash,
) -> (peers: usize)
    ensures
        peers == last_unique(known(planner_state@, info_hash)),
{
    match planner_state.get(&info_hash) {
        Some(state) => state.last_unique_peers,
        None => 0,
    }
}

pub fn candidate_due_age(candidate: DueDemandCandidate, now: Instant) -> (age: Duration)
    ensures
        age == elapsed(now, candidate.next_eligible_at),
{
    now.saturating_sub(candidate.next_eligible_at)
}

pub fn candidate_has_fairness_age(candidate: DueDemandCandidate, now: Instant) -> (yes: bool)
    ensures
        yes == is_fair(candidate, now),
{
    candidate_due_age(candidate, now) >= DHT_DEMAND_FAIRNESS_AGE
}

pub fn candidate_has_useful_yield_history(
    planner_state: &InfoHashMap<DemandPlannerState>,
    info_hash: InfoHash,
    now: Instant,
) -> (yes: bool)
    ensures
        yes == has_yield(known(planner_state@, info_hash), now),
{
    candidate_last_useful_yield_age(planner_state, info_hash, now).is_some()
        && candidate_last_unique_peers(planner_state, info_hash) > 0
}

/// Whether a candidate with connected peers has a swarm that needs support.
pub fn candidate_supports_swarm(candidate: DueDemandCandidate) -> (yes: bool)
    ensures
        yes == supports_swarm(candidate),
{
    DemandSliceClass::from_demand(candidate.demand) == DemandSliceClass::RoutineRefresh
        && candidate.metrics.wants_extended_routine_search()
}

pub fn candidate_selection_reason(
    candidate: DueDemandCandidate,
    parked_crawls: &InfoHashMap<DemandCrawlState>,
    planner_state: &InfoHashMap<DemandPlannerState>,
    now: Instant,
) -> (reason: DemandSelectionReason)
    ensures
        reason == reason_for(candidate, parked_crawls@, planner_state@, now),
{
    if candidate_has_fairness_age(candidate, now) {
        DemandSelectionReason::Fairness
    } else if candidate_supports_swarm(candidate) {
        DemandSelectionReason::SwarmSupport
    } else if candidate_has_useful_yield_history(planner_state, candidate.info_hash, now) {
        DemandSelectionReason::UsefulYieldHistory
    } else if due_candidate_has_reusable_parked_crawl(parked_crawls, candidate, now) {
        DemandSelectionReason::ReusableParked
    } else {
        DemandSelectionReason::OverdueScarce
    }
}

pub fn candidate_last_activity_age(
    planner_state: &InfoHashMap<DemandPlannerState>,
    info_hash: InfoHash,
    now: Instant,
) -> (age: Option<Duration>)
    ensures
        age == activity_age(known(planner_state@, info_hash), now),
{
    match planner_state.get(&info_hash) {
        Some(state) => match state.last_finished_at {
            Some(at) => Some(now.saturating_sub(at)),
            None => match state.last_started_at {
                Some(at) => Some(now.saturating_sub(at)),
                None => None,
            },
        },
        None => None,
    }
}

pub fn spare_research_candidate_ready(
    planner_state: &InfoHashMap<DemandPlannerState>,
    info_hash: InfoHash,
    now: Instant,
) -> (ready: bool)
    ensures
        ready == is_rested(known(planner_state@, info_hash), now),
{
    match candidate_last_activity_age(planner_state, info_hash, now) {
        Some(age) => age >= DHT_DEMAND_SPARE_RESEARCH_MIN_INTERVAL,
        None => true,
    }
}

/// The score of a candidate.
pub fn demand_candidate_priority_score(
    candidate: DueDemandCandidate,
    planner_state: &InfoHashMap<DemandPlannerState>,
    now: Instant,
) -> (score: u64)
    ensures
        score == priority_score(candidate, known(planner_state@, candidate.info_hash), now),
{
    if DemandSliceClass::from_demand(candidate.demand) == DemandSliceClass::AwaitingMetadata {
        return DHT_METADATA_PRIORITY_SCORE;
    }
    let fairness: u64 = if candidate_has_fairness_age(candidate, now) {
        DHT_FAIRNESS_PRIORITY_SCORE
    } else {
        0
    };
    let support: u64 = if candidate_supports_swarm(candidate) {
        DHT_SWARM_SUPPORT_PRIORITY_SCORE
    } else {
        0
    };
    let yielded: u64 = if candidate_has_useful_yield_history(
        planner_state,
        candidate.info_hash,
        now,
    ) {
        let peers: u64 = candidate_last_unique_peers(planner_state, candidate.info_hash) as u64;
        if peers < DHT_YIELD_PRIORITY_SCORE_CAP {
            peers
        } else {
            DHT_YIELD_PRIORITY_SCORE_CAP
        }
    } else {
        0
    };
    fairness + support + yielded
}

/// A number that is smaller where `flag` is set.
fn flag_key(flag: bool) -> (key: u64)
    ensures
        key == flag_first(flag),
{
    if flag {
        0
    } else {
        1
    }
}

/// The rank of a due candidate.
fn due_candidate_rank(
    candidate: DueDemandCandidate,
    parked_crawls: &InfoHashMap<DemandCrawlState>,
    planner_state: &InfoHashMap<DemandPlannerState>,
    now: Instant,
) -> (rank: Vec<u64>)
    ensures
        rank@ == due_rank(candidate, parked_crawls@, planner_state@, now),
{
    let class = DemandSliceClass::from_demand(candidate.demand);
    let age = candidate_last_useful_yield_age(planner_state, candidate.info_hash, now);
    let score: u64 = demand_candidate_priority_score(candidate, planner_state, now);
    let last_unique_peers: usize = candidate_last_unique_peers(planner_state, candidate.info_hash);
    let mut rank: Vec<u64> = Vec::new();
    rank.push(u64::MAX - score);
    rank.push(u64::MAX - demand_slice_class_priority(class) as u64);
    rank.push(flag_key(candidate_has_fairness_age(candidate, now)));
    rank.push(flag_key(age.is_some()));
    rank.push(
        match age {
            Some(age) => age,
            None => 0,
        },
    );
    rank.push(u64::MAX - last_unique_peers as u64);
    rank.push(flag_key(due_candidate_has_reusable_parked_crawl(parked_crawls, candidate, now)));
    rank.push(u64::MAX - candidate_due_age(candidate, now));
    rank.push(candidate.demand.connected_peers as u64);
    rank.push(u64::MAX - candidate.subscriber_count as u64);
    assert(rank@ =~= due_rank(candidate, parked_crawls@, planner_state@, now));
    rank
}

/// The rank of a candidate for spare capacity.
fn spare_candidate_rank(
    candidate: DueDemandCandidate,
    parked_crawls: &InfoHashMap<DemandCrawlState>,
    planner_state: &InfoHashMap<DemandPlannerState>,
    now: Instant,
) -> (rank: Vec<u64>)
    ensures
        rank@ == spare_rank(candidate, parked_crawls@, planner_state@, now),
{
    let age = candidate_last_activity_age(planner_state, candidate.info_hash, now);
    let mut rank: Vec<u64> = Vec::new();
    rank.push(flag_key(age.is_some()));
    rank.push(
        u64::MAX - match age {
            Some(age) => age,
            None => 0,
        },
    );
    rank.push(candidate.next_eligible_at);
    rank.push(flag_key(due_candidate_has_reusable_parked_crawl(parked_crawls, candidate, now)));
    rank.push(candidate.demand.connected_peers as u64);
    rank.push(u64::MAX - candidate.subscriber_count as u64);
    assert(rank@ =~= spare_rank(candidate, parked_crawls@, planner_state@, now));
    rank
}

/// The candidates without their ranks.
fn without_ranks(ranked: &Vec<RankedCandidate>) -> (candidates: Vec<DueDemandCandidate>)
    ensures
        candidates@ == ranked_view(ranked@).map_values(unranked()),
{
    let mut candidates: Vec<DueDemandCandidate> = Vec::new();
    let mut i: usize = 0;
    while i < ranked.len()
        invariant
            0 <= i <= ranked@.len(),
            candidates@ =~= ranked_view(ranked@).map_values(unranked()).take(i as int),
        decreases ranked@.len() - i,
    {
        candidates.push(ranked[i].candidate);
        i = i + 1;
    }
    candidates
}

/// Due candidates in the order of their ranks.
fn order_due_candidates(
    due_candidates: &[DueDemandCandidate],
    parked_crawls: &InfoHashMap<DemandCrawlState>,
    planner_state: &InfoHashMap<DemandPlannerState>,
    now: Instant,
) -> (ordered: Vec<DueDemandCandidate>)
    ensures
        ordered@ == ordered_by(
            due_candidates@,
            due_ranked(parked_crawls@, planner_state@, now),
        ),
{
    let ghost ranked = due_candidates@.map_values(
        due_ranked(parked_crawls@, planner_state@, now),
    );
    let mut sorted: Vec<RankedCandidate> = Vec::new();
    let mut i: usize = 0;
    assert(ranked_view(sorted@) =~= ranked.take(0));
    while i < due_candidates.len()
        invariant
            0 <= i <= due_candidates@.len(),
            ranked == due_candidates@.map_values(
                due_ranked(parked_crawls@, planner_state@, now),
            ),
            ranked_view(sorted@) == rank_order(ranked.take(i as int)),
        decreases due_candidates@.len() - i,
    {
        let candidate = due_candidates[i];
        let rank = due_candidate_rank(candidate, parked_crawls, planner_state, now);
        insert_ranked(&mut sorted, RankedCandidate { candidate, rank });
        proof {
            assert(ranked.take(i + 1).drop_last() =~= ranked.take(i as int));
        }
        i = i + 1;
    }
    assert(ranked.take(i as int) =~= ranked);
    without_ranks(&sorted)
}

/// Launches of candidates that are offered in order, as far as the limit, the slots of their
/// classes and the tokens go.
fn fill_launch_slots(
    order: &Vec<DueDemandCandidate>,
    active_counts: DemandSlotCounts,
    planner_budget: &mut DemandPlannerBudget,
    now: Instant,
    limit: usize,
) -> (launches: Vec<DueDemandCandidate>)
    ensures
        launches@ == fill(order@, active_counts, *old(planner_budget), now, limit as nat).launches,
        *final(planner_budget) == fill(
            order@,
            active_counts,
            *old(planner_budget),
            now,
            limit as nat,
        ).budget,
{
    let mut selected: Vec<DueDemandCandidate> = Vec::new();
    let mut planned_counts = active_counts;
    let mut i: usize = 0;
    while i < order.len()
        invariant
            0 <= i <= order@.len(),
            (LaunchFill {
                launches: selected@,
                counts: planned_counts,
                budget: *planner_budget,
            }) == fill(
                order@.take(i as int),
                active_counts,
                *old(planner_budget),
                now,
                limit as nat,
            ),
        decreases order@.len() - i,
    {
        let candidate = order[i];
        let class = DemandSliceClass::from_demand(candidate.demand);
        proof {
            assert(order@.take(i + 1).drop_last() =~= order@.take(i as int));
        }
        i = i + 1;
        if selected.len() >= limit || planned_counts.count(class)
            >= demand_lookup_class_slot_cap(class) {
            continue ;
        }
        if !planner_budget.try_consume(class, now) {
            continue ;
        }
        planned_counts.record(class);
        selected.push(candidate);
    }
    assert(order@.take(i as int) =~= order@);
    selected
}

/// Whether one of several candidates has an info hash.
fn contains_hash(candidates: &[DueDemandCandidate], info_hash: InfoHash) -> (found: bool)
    ensures
        found == has_hash(candidates@, info_hash),
{
    let mut i: usize = 0;
    while i < candidates.len()
        invariant
            0 <= i <= candidates@.len(),
            forall|j: int| 0 <= j < i ==> (#[trigger] candidates@[j]).info_hash != info_hash,
        decreases candidates@.len() - i,
    {
        if candidates[i].info_hash == info_hash {
            return true;
        }
        i = i + 1;
    }
    false
}

proof fn lemma_stats_step(
    offered: Seq<DueDemandCandidate>,
    launched: Seq<DueDemandCandidate>,
    now: Instant,
    i: int,
)
    requires
        0 <= i < offered.len(),
    ensures
        ({
            let before = stats_of(offered.take(i), launched, now);
            let class = class_of(offered[i].demand);
            let counted = DemandPlannerSelectionStats {
                offered: before.offered.recorded(class),
                ..before
            };
            stats_of(offered.take(i + 1), launched, now) == if has_hash(
                launched,
                offered[i].info_hash,
            ) {
                DemandPlannerSelectionStats {
                    launched: before.launched.recorded(class),
                    ..counted
                }
            } else {
                DemandPlannerSelectionStats {
                    throttled: before.throttled.recorded(class),
                    ..counted
                }.with_throttled_age(class, millis(elapsed(now, offered[i].next_eligible_at)))
            }
        }),
{
    reveal(Seq::filter);
    let before = offered.take(i);
    let after = offered.take(i + 1);
    let candidate = offered[i];
    assert(after.drop_last() =~= before);
    assert(after.last() == candidate);
    assert(candidate_classes(after).drop_last() =~= candidate_classes(before));
    let went = before.filter(launched_or_not(launched, true));
    let stayed = before.filter(launched_or_not(launched, false));
    assert(went.push(candidate).drop_last() =~= went);
    assert(stayed.push(candidate).drop_last() =~= stayed);
    assert(candidate_classes(went.push(candidate)).drop_last() =~= candidate_classes(went));
    assert(candidate_classes(stayed.push(candidate)).drop_last() =~= candidate_classes(stayed));
}

pub fn demand_planner_selection_stats(
    offered_candidates: &[DueDemandCandidate],
    launched_candidates: &[DueDemandCandidate],
    now: Instant,
) -> (stats: DemandPlannerSelectionStats)
    ensures
        stats == stats_of(offered_candidates@, launched_candidates@, now),
{
    let mut stats = DemandPlannerSelectionStats::default();
    let mut i: usize = 0;
    proof {
        reveal(Seq::filter);
        let none = offered_candidates@.take(0);
        assert(candidate_classes(none) =~= Seq::<DemandSliceClass>::empty());
        assert(none.filter(launched_or_not(launched_candidates@, true)) =~= none);
        assert(none.filter(launched_or_not(launched_candidates@, false)) =~= none);
    }
    while i < offered_candidates.len()
        invariant
            0 <= i <= offered_candidates@.len(),
            stats == stats_of(offered_candidates@.take(i as int), launched_candidates@, now),
        decreases offered_candidates@.len() - i,
    {
        let candidate = offered_candidates[i];
        let class = DemandSliceClass::from_demand(candidate.demand);
        proof {
            lemma_stats_step(offered_candidates@, launched_candidates@, now, i as int);
        }
        stats.offered.record(class);
        if contains_hash(launched_candidates, candidate.info_hash) {
            stats.launched.record(class);
        } else {
            stats.throttled.record(class);
            stats.record_throttled_age(
                class,
                now.saturating_sub(candidate.next_eligible_at) / MILLISECOND,
            );
        }
        i = i + 1;
    }
    assert(offered_candidates@.take(i as int) =~= offered_candidates@);
    stats
}

/// Whether spare capacity may be spent on a demand: it has subscribers and no connected peers,
/// nothing runs for it, it is not yet due, and it has rested.
pub open spec fn spare_eligible(
    planner_state: Map<InfoHash, DemandPlannerState>,
    now: Instant,
) -> spec_fn(DemandEntrySnapshot) -> bool {
    |snapshot: DemandEntrySnapshot|
        {
            &&& snapshot.subscriber_count > 0
            &&& !snapshot.in_progress
            &&& snapshot.next_eligible_at > now
            &&& class_of(snapshot.demand) == DemandSliceClass::NoConnectedPeers
            &&& is_rested(known(planner_state, snapshot.info_hash), now)
        }
}

/// Whether the idle probe may be spent on a demand: it has subscribers and can gain from the probe,
/// nothing runs for it, it is not yet due, and it is not among those launched already.
pub open spec fn probe_eligible(excluded: Seq<InfoHash>, now: Instant) -> spec_fn(
    DemandEntrySnapshot,
) -> bool {
    |snapshot: DemandEntrySnapshot|
        {
            &&& snapshot.subscriber_count > 0
            &&& !snapshot.in_progress
            &&& snapshot.next_eligible_at > now
            &&& !excluded.contains(snapshot.info_hash)
            &&& snapshot.metrics.probes_when_idle(snapshot.demand)
        }
}

/// What a selection with spare capacity launches, and the tokens that are left. There is spare
/// capacity only while almost nothing runs.
pub open spec fn spare_selection(
    demand_snapshots: Seq<DemandEntrySnapshot>,
    active_counts: DemandSlotCounts,
    parked_crawls: Map<InfoHash, DemandCrawlState>,
    planner_state: Map<InfoHash, DemandPlannerState>,
    budget: DemandPlannerBudget,
    now: Instant,
    total_budget: usize,
) -> (Seq<DueDemandCandidate>, DemandPlannerBudget) {
    if total_budget == 0 || active_counts.sum() >= DHT_DEMAND_SPARE_RESEARCH_MAX_ACTIVE {
        (seq![], budget)
    } else {
        spare_fill(
            ordered_by(
                demand_snapshots.filter(spare_eligible(planner_state, now)).map_values(
                    as_candidate(),
                ),
                spare_ranked(parked_crawls, planner_state, now),
            ),
            budget,
            now,
            if total_budget < DHT_DEMAND_SPARE_RESEARCH_LAUNCH_LIMIT {
                total_budget as nat
            } else {
                DHT_DEMAND_SPARE_RESEARCH_LAUNCH_LIMIT as nat
            },
        )
    }
}

pub fn select_spare_research_launches(
    demand_snapshots: &[DemandEntrySnapshot],
    active_counts: DemandSlotCounts,
    parked_crawls: &InfoHashMap<DemandCrawlState>,
    planner_state: &InfoHashMap<DemandPlannerState>,
    planner_budget: &mut DemandPlannerBudget,
    now: Instant,
    total_budget: usize,
) -> (launches: Vec<DueDemandCandidate>)
    ensures
        (launches@, *final(planner_budget)) == spare_selection(
            demand_snapshots@,
            active_counts,
            parked_crawls@,
            planner_state@,
            *old(planner_budget),
            now,
            total_budget,
        ),
{
    if total_budget == 0 || active_counts.total() >= DHT_DEMAND_SPARE_RESEARCH_MAX_ACTIVE {
        return Vec::new();
    }
    let take_count: usize = if total_budget < DHT_DEMAND_SPARE_RESEARCH_LAUNCH_LIMIT {
        total_budget
    } else {
        DHT_DEMAND_SPARE_RESEARCH_LAUNCH_LIMIT
    };
    let ghost eligible = spare_eligible(planner_state@, now);
    let ghost ranked = spare_ranked(parked_crawls@, planner_state@, now);
    let mut sorted: Vec<RankedCandidate> = Vec::new();
    let mut i: usize = 0;
    proof {
        reveal(Seq::filter);
        let none = demand_snapshots@.take(0).filter(eligible).map_values(as_candidate());
        assert(none.map_values(ranked) =~= Seq::<Ranked>::empty());
        assert(ranked_view(sorted@) =~= Seq::<Ranked>::empty());
    }
    while i < demand_snapshots.len()
        invariant
            0 <= i <= demand_snapshots@.len(),
            eligible == spare_eligible(planner_state@, now),
            ranked == spare_ranked(parked_crawls@, planner_state@, now),
            ranked_view(sorted@) == rank_order(
                demand_snapshots@.take(i as int).filter(eligible).map_values(
                    as_candidate(),
                ).map_values(ranked),
            ),
        decreases demand_snapshots@.len() - i,
    {
        let snapshot = demand_snapshots[i];
        if snapshot.subscriber_count > 0 && !snapshot.in_progress && snapshot.next_eligible_at > now
            && DemandSliceClass::from_demand(snapshot.demand) == DemandSliceClass::NoConnectedPeers
            && spare_research_candidate_ready(planner_state, snapshot.info_hash, now) {
            let candidate = snapshot.candidate();
            let rank = spare_candidate_rank(candidate, parked_crawls, planner_state, now);
            insert_ranked(&mut sorted, RankedCandidate { candidate, rank });
        }
        proof {
            reveal(Seq::filter);
            let before = demand_snapshots@.take(i as int);
            let after = demand_snapshots@.take(i + 1);
            assert(after.drop_last() =~= before);
            assert(after.last() == snapshot);
            let entries = before.filter(eligible).map_values(as_candidate()).map_values(ranked);
            if eligible(snapshot) {
                let more = after.filter(eligible).map_values(as_candidate()).map_values(ranked);
                assert(more.drop_last() =~= entries);
            }
        }
        i = i + 1;
    }
    assert(demand_snapshots@.take(i as int) =~= demand_snapshots@);

    let order = without_ranks(&sorted);
    let mut selected: Vec<DueDemandCandidate> = Vec::new();
    let mut next: usize = 0;
    while next < order.len()
        invariant
            0 <= next <= order@.len(),
            (selected@, *planner_budget) == spare_fill(
                order@.take(next as int),
                *old(planner_budget),
                now,
                take_count as nat,
            ),
        decreases order@.len() - next,
    {
        proof {
            assert(order@.take(next + 1).drop_last() =~= order@.take(next as int));
        }
        if selected.len() < take_count && planner_budget.try_consume(
            DemandSliceClass::NoConnectedPeers,
            now,
        ) {
            selected.push(order[next]);
        }
        next = next + 1;
    }
    assert(order@.take(next as int) =~= order@);
    selected
}

/// What the idle probe launches, how many lookups then run of each class, and the tokens left.
pub open spec fn probe_selection(
    demand_snapshots: Seq<DemandEntrySnapshot>,
    planned_counts: DemandSlotCounts,
    excluded: Seq<InfoHash>,
    parked_crawls: Map<InfoHash, DemandCrawlState>,
    planner_state: Map<InfoHash, DemandPlannerState>,
    budget: DemandPlannerBudget,
    now: Instant,
    limit: usize,
) -> LaunchFill {
    fill(
        ordered_by(
            demand_snapshots.filter(probe_eligible(excluded, now)).map_values(as_candidate()),
            due_ranked(parked_crawls, planner_state, now),
        ),
        planned_counts,
        budget,
        now,
        limit as nat,
    )
}

/// Whether a list holds an info hash.
fn list_contains(list: &[InfoHash], info_hash: InfoHash) -> (found: bool)
    ensures
        found == list@.contains(info_hash),
{
    let mut i: usize = 0;
    while i < list.len()
        invariant
            0 <= i <= list@.len(),
            forall|j: int| 0 <= j < i ==> list@[j] != info_hash,
        decreases list@.len() - i,
    {
        if list[i] == info_hash {
            return true;
        }
        i = i + 1;
    }
    false
}

/// Launches ahead of time of demands that can gain from the idle probe.
pub fn select_idle_speed_probe_launches(
    demand_snapshots: &[DemandEntrySnapshot],
    planned_counts: DemandSlotCounts,
    excluded: &[InfoHash],
    parked_crawls: &InfoHashMap<DemandCrawlState>,
    planner_state: &InfoHashMap<DemandPlannerState>,
    planner_budget: &mut DemandPlannerBudget,
    now: Instant,
    limit: usize,
) -> (launches: Vec<DueDemandCandidate>)
    ensures
        launches@ == probe_selection(
            demand_snapshots@,
            planned_counts,
            excluded@,
            parked_crawls@,
            planner_state@,
            *old(planner_budget),
            now,
            limit,
        ).launches,
        *final(planner_budget) == probe_selection(
            demand_snapshots@,
            planned_counts,
            excluded@,
            parked_crawls@,
            planner_state@,
            *old(planner_budget),
            now,
            limit,
        ).budget,
{
    let ghost eligible = probe_eligible(excluded@, now);
    let mut candidates: Vec<DueDemandCandidate> = Vec::new();
    let mut i: usize = 0;
    proof {
        reveal(Seq::filter);
        assert(candidates@ =~= demand_snapshots@.take(0).filter(eligible).map_values(
            as_candidate(),
        ));
    }
    while i < demand_snapshots.len()
        invariant
            0 <= i <= demand_snapshots@.len(),
            eligible == probe_eligible(excluded@, now),
            candidates@ == demand_snapshots@.take(i as int).filter(eligible).map_values(
                as_candidate(),
            ),
        decreases demand_snapshots@.len() - i,
    {
        let snapshot = demand_snapshots[i];
        if snapshot.subscriber_count > 0 && !snapshot.in_progress && snapshot.next_eligible_at > now
            && !list_contains(excluded, snapshot.info_hash)
            && snapshot.metrics.wants_idle_speed_probe_for(snapshot.demand) {
            candidates.push(snapshot.candidate());
        }
        proof {
            reveal(Seq::filter);
            let after = demand_snapshots@.take(i + 1);
            assert(after.drop_last() =~= demand_snapshots@.take(i as int));
            assert(candidates@ =~= after.filter(eligible).map_values(as_candidate()));
        }
        i = i + 1;
    }
    assert(demand_snapshots@.take(i as int) =~= demand_snapshots@);
    let order = order_due_candidates(
        candidates.as_slice(),
        parked_crawls,
        planner_state,
        now,
    );
    fill_launch_slots(&order, planned_counts, planner_budget, now, limit)
}

/// What a selection among due candidates launches, how many lookups then run of each class, and
/// the tokens left.
pub open spec fn due_selection(
    due_candidates: Seq<DueDemandCandidate>,
    active_counts: DemandSlotCounts,
    parked_crawls: Map<InfoHash, DemandCrawlState>,
    planner_state: Map<InfoHash, DemandPlannerState>,
    budget: DemandPlannerBudget,
    now: Instant,
    total_budget: usize,
) -> LaunchFill {
    fill(
        ordered_by(due_candidates, due_ranked(parked_crawls, planner_state, now)),
        active_counts,
        budget,
        now,
        total_budget as nat,
    )
}

pub fn select_due_demand_launches(
    due_candidates: &[DueDemandCandidate],
    active_counts: DemandSlotCounts,
    parked_crawls: &InfoHashMap<DemandCrawlState>,
    planner_state: &InfoHashMap<DemandPlannerState>,
    planner_budget: &mut DemandPlannerBudget,
    now: Instant,
    total_budget: usize,
) -> (launches: Vec<DueDemandCandidate>)
    ensures
        launches@ == due_selection(
            due_candidates@,
            active_counts,
            parked_crawls@,
            planner_state@,
            *old(planner_budget),
            now,
            total_budget,
        ).launches,
        *final(planner_budget) == due_selection(
            due_candidates@,
            active_counts,
            parked_crawls@,
            planner_state@,
            *old(planner_budget),
            now,
            total_budget,
        ).budget,
{
    select_due_demand_launches_with_stats(
        due_candidates,
        active_counts,
        parked_crawls,
        planner_state,
        planner_budget,
        now,
        total_budget,
    ).launches
}

pub fn select_due_demand_launches_with_stats(
    due_candidates: &[DueDemandCandidate],
    active_counts: DemandSlotCounts,
    parked_crawls: &InfoHashMap<DemandCrawlState>,
    planner_state: &InfoHashMap<DemandPlannerState>,
    planner_budget: &mut DemandPlannerBudget,
    now: Instant,
    total_budget: usize,
) -> (selection: DemandPlannerSelection)
    ensures
        selection.launches@ == due_selection(
            due_candidates@,
            active_counts,
            parked_crawls@,
            planner_state@,
            *old(planner_budget),
            now,
            total_budget,
        ).launches,
        selection.stats == stats_of(due_candidates@, selection.launches@, now),
        *final(planner_budget) == due_selection(
            due_candidates@,
            active_counts,
            parked_crawls@,
            planner_state@,
            *old(planner_budget),
            now,
            total_budget,
        ).budget,
{
    let order = order_due_candidates(due_candidates, parked_crawls, planner_state, now);
    let launches = fill_launch_slots(&order, active_counts, planner_budget, now, total_budget);
    let stats = demand_planner_selection_stats(due_candidates, launches.as_slice(), now);
    DemandPlannerSelection { launches, stats }
}

} // verus!
