use vstd::prelude::*;

use crate::clock::{Instant, MILLISECOND};
use crate::planner::budget::{DemandLaunchTokenBucket, DemandPlannerBudget};
use crate::planner::lookups::{launch_budget, virtual_slots};
use crate::planner::metrics::{DemandSliceClassMetrics, DemandSliceMetrics};
use crate::slice::{
    DemandCrawlResetReason, DemandSelectionReason, DemandSliceClass, DemandSliceStopReason,
};
use crate::text::decimal;

verus! {

// Slots.

/// Each sixteen drains, begun ones too, take up the place of one lookup.
pub proof fn drains_share_slots(draining: usize)
    requires
        draining <= usize::MAX - 15,
    ensures
        draining <= 16 * virtual_slots(draining) < draining + 16,
{
}

/// A planning round may start as many lookups as are left of ten after those that run and the slots
/// of the drains, but no more than five.
pub proof fn rounds_fill_what_is_left(active: usize, draining: usize)
    requires
        active + draining <= usize::MAX - 15,
    ensures
        ({
            let taken = active + virtual_slots(draining);
            let room = launch_budget(active, draining);
            &&& taken >= 10 ==> room == 0
            &&& 5 < taken < 10 ==> room == 10 - taken
            &&& taken <= 5 ==> room == 5
        }),
{
}

// Tokens.

/// What a bucket holds, with what is left over from its last refill, in the smallest unit: the
/// thousandth of a token, times the milliseconds of a minute.
pub open spec fn content(bucket: DemandLaunchTokenBucket) -> int {
    bucket.tokens_scaled * 60_000 + bucket.refill_remainder
}

/// Whether what a bucket gains in a time is in the range of its counters.
pub open spec fn gain_fits(bucket: DemandLaunchTokenBucket, elapsed_ms: int) -> bool {
    &&& bucket.tokens_scaled <= bucket.burst_scaled <= 1_000_000_000
    &&& bucket.refill_per_minute * 1_000 * elapsed_ms <= 1_000_000_000_000_000_000
    &&& bucket.refill_remainder < 60_000
}

/// A bucket gains its rate, in tokens each minute, and loses nothing to rounding, until it is full;
/// then it holds its burst and nothing besides.
pub proof fn buckets_gain_their_rate(bucket: DemandLaunchTokenBucket, now: Instant)
    requires
        bucket.last_refill_at < now,
        gain_fits(bucket, (now - bucket.last_refill_at) / MILLISECOND as int),
    ensures
        ({
            let after = bucket.refilled(now);
            let gained = bucket.refill_per_minute * 1_000 * ((now - bucket.last_refill_at)
                / MILLISECOND as int);
            let full = bucket.burst_scaled * 60_000;
            &&& content(bucket) + gained < full ==> content(after) == content(bucket) + gained
            &&& content(bucket) + gained >= full ==> content(after) == full
            &&& after.last_refill_at == now
            &&& after.burst_scaled == bucket.burst_scaled
            &&& after.refill_per_minute == bucket.refill_per_minute
        }),
{
    let ms = (now - bucket.last_refill_at) / MILLISECOND as int;
    let units = bucket.refill_per_minute * 1_000 * ms + bucket.refill_remainder;
    assert(bucket.refill_per_minute * 1_000 * ms >= 0) by (nonlinear_arith)
        requires
            bucket.refill_per_minute >= 0,
            ms >= 0,
    ;
    assert(bucket.refill_units(ms as u64) == units);
    vstd::arithmetic::div_mod::lemma_fundamental_div_mod(units, 60_000);
    let amount = units / 60_000;
    assert(bucket.refill_amount(ms as u64) == amount);
}

/// A lookup may start exactly where its class has a whole token, and takes one out of its own bucket
/// alone.
pub proof fn launches_take_one_token(
    budget: DemandPlannerBudget,
    class: DemandSliceClass,
    other: DemandSliceClass,
    now: Instant,
)
    requires
        other != class,
    ensures
        ({
            let before = budget.bucket(class).refilled(now);
            let after = budget.consumed(class, now);
            &&& budget.has_token(class, now) <==> before.tokens_scaled >= 1_000
            &&& after.bucket(class).tokens_scaled == if before.tokens_scaled >= 1_000 {
                before.tokens_scaled - 1_000
            } else {
                before.tokens_scaled as int
            }
            &&& after.bucket(other) == budget.bucket(other)
        }),
{
}

/// A token that is put back makes one more launch possible, as long as the bucket is not full, and
/// touches no other class.
pub proof fn refunds_give_one_token(
    budget: DemandPlannerBudget,
    class: DemandSliceClass,
    other: DemandSliceClass,
)
    requires
        other != class,
    ensures
        ({
            let before = budget.bucket(class);
            let after = budget.refunded(class).bucket(class);
            &&& before.tokens_scaled + 1_000 <= before.burst_scaled ==> after.tokens_scaled
                == before.tokens_scaled + 1_000
            &&& before.tokens_scaled + 1_000 > before.burst_scaled ==> after.tokens_scaled
                == before.burst_scaled
            &&& budget.refunded(class).bucket(other) == budget.bucket(other)
        }),
{
}

/// To begin with, each class has its burst of launches, and gains its rate.
pub proof fn classes_have_their_rates(now: Instant)
    ensures
        ({
            let budget = DemandPlannerBudget::full(now);
            &&& budget.awaiting_metadata.tokens_scaled == 20 * 1_000
            &&& budget.awaiting_metadata.refill_per_minute == 120
            &&& budget.no_connected_peers.tokens_scaled == 10 * 1_000
            &&& budget.no_connected_peers.refill_per_minute == 30
            &&& budget.routine_refresh.tokens_scaled == 8 * 1_000
            &&& budget.routine_refresh.refill_per_minute == 20
            &&& forall|class: DemandSliceClass| #[trigger]
                budget.bucket(class).burst_scaled == budget.bucket(class).tokens_scaled
                    && budget.bucket(class).refill_remainder == 0 && budget.bucket(
                    class,
                ).last_refill_at == now
        }),
{
}

// What is counted.

/// One where something holds, and else nothing.
pub open spec fn one_if(holds: bool) -> int {
    if holds {
        1
    } else {
        0
    }
}

/// Whether two counts tell the same of starts.
pub open spec fn same_starts(left: DemandSliceClassMetrics, right: DemandSliceClassMetrics) -> bool {
    left.fresh_starts == right.fresh_starts && left.resumed_starts == right.resumed_starts
}

/// Whether two counts tell the same of what was picked.
pub open spec fn same_selections(
    left: DemandSliceClassMetrics,
    right: DemandSliceClassMetrics,
) -> bool {
    &&& left.selected_reusable_parked == right.selected_reusable_parked
    &&& left.selected_swarm_support == right.selected_swarm_support
    &&& left.selected_useful_yield_history == right.selected_useful_yield_history
    &&& left.selected_fairness == right.selected_fairness
    &&& left.selected_overdue_scarce == right.selected_overdue_scarce
    &&& left.selected_spare_capacity == right.selected_spare_capacity
    &&& left.selected_idle_speed_probe == right.selected_idle_speed_probe
}

/// Whether two counts tell the same of stops and of what was found.
pub open spec fn same_stops(left: DemandSliceClassMetrics, right: DemandSliceClassMetrics) -> bool {
    &&& left.natural_finishes == right.natural_finishes
    &&& left.wall_time_stops == right.wall_time_stops
    &&& left.idle_timeout_stops == right.idle_timeout_stops
    &&& left.first_batch_stops == right.first_batch_stops
    &&& left.unique_peer_cap_stops == right.unique_peer_cap_stops
    &&& left.peers_yielded == right.peers_yielded
    &&& left.unique_peers_yielded == right.unique_peers_yielded
}

/// Whether two counts tell the same of crawls that were thrown away.
pub open spec fn same_resets(left: DemandSliceClassMetrics, right: DemandSliceClassMetrics) -> bool {
    &&& left.stale_resets == right.stale_resets
    &&& left.class_change_resets == right.class_change_resets
    &&& left.low_quality_resets == right.low_quality_resets
}

/// A start is counted once, as a resumed or as a fresh one, and nowhere else.
pub proof fn starts_are_counted_once(counts: DemandSliceClassMetrics, resumed: bool)
    requires
        counts.fresh_starts < u64::MAX,
        counts.resumed_starts < u64::MAX,
    ensures
        ({
            let after = counts.with_start(resumed);
            &&& after.resumed_starts == counts.resumed_starts + one_if(resumed)
            &&& after.fresh_starts == counts.fresh_starts + one_if(!resumed)
            &&& same_selections(after, counts) && same_stops(after, counts) && same_resets(
                after,
                counts,
            )
        }),
{
}

/// A demand that was picked is counted once, under its reason, and nowhere else.
pub proof fn selections_are_counted_once(
    counts: DemandSliceClassMetrics,
    reason: DemandSelectionReason,
)
    requires
        counts.selected_reusable_parked < u64::MAX,
        counts.selected_swarm_support < u64::MAX,
        counts.selected_useful_yield_history < u64::MAX,
        counts.selected_fairness < u64::MAX,
        counts.selected_overdue_scarce < u64::MAX,
        counts.selected_spare_capacity < u64::MAX,
        counts.selected_idle_speed_probe < u64::MAX,
    ensures
        ({
            let after = counts.with_selection(reason);
            &&& after.selected_reusable_parked == counts.selected_reusable_parked + one_if(
                reason == DemandSelectionReason::ReusableParked,
            )
            &&& after.selected_swarm_support == counts.selected_swarm_support + one_if(
                reason == DemandSelectionReason::SwarmSupport,
            )
            &&& after.selected_useful_yield_history == counts.selected_useful_yield_history
                + one_if(reason == DemandSelectionReason::UsefulYieldHistory)
            &&& after.selected_fairness == counts.selected_fairness + one_if(
                reason == DemandSelectionReason::Fairness,
            )
            &&& after.selected_overdue_scarce == counts.selected_overdue_scarce + one_if(
                reason == DemandSelectionReason::OverdueScarce,
            )
            &&& after.selected_spare_capacity == counts.selected_spare_capacity + one_if(
                reason == DemandSelectionReason::SpareCapacity,
            )
            &&& after.selected_idle_speed_probe == counts.selected_idle_speed_probe + one_if(
                reason == DemandSelectionReason::IdleSpeedProbe,
            )
            &&& same_starts(after, counts) && same_stops(after, counts) && same_resets(
                after,
                counts,
            )
        }),
{
}

/// A stopped slice is counted once, under the reason for which it stopped, with all peers that it
/// found and with those that differ.
pub proof fn stops_are_counted_once(
    counts: DemandSliceClassMetrics,
    reason: DemandSliceStopReason,
    total_peers: usize,
    unique_peers: usize,
)
    requires
        counts.natural_finishes < u64::MAX,
        counts.wall_time_stops < u64::MAX,
        counts.idle_timeout_stops < u64::MAX,
        counts.first_batch_stops < u64::MAX,
        counts.unique_peer_cap_stops < u64::MAX,
        counts.peers_yielded + total_peers <= u64::MAX,
        counts.unique_peers_yielded + unique_peers <= u64::MAX,
    ensures
        ({
            let after = counts.with_stop(reason, total_peers, unique_peers);
            &&& after.natural_finishes == counts.natural_finishes + one_if(
                reason == DemandSliceStopReason::NaturalFinish,
            )
            &&& after.wall_time_stops == counts.wall_time_stops + one_if(
                reason == DemandSliceStopReason::WallTime,
            )
            &&& after.idle_timeout_stops == counts.idle_timeout_stops + one_if(
                reason == DemandSliceStopReason::IdleTimeout,
            )
            &&& after.first_batch_stops == counts.first_batch_stops + one_if(
                reason == DemandSliceStopReason::FirstBatch,
            )
            &&& after.unique_peer_cap_stops == counts.unique_peer_cap_stops + one_if(
                reason == DemandSliceStopReason::UniquePeerCap,
            )
            &&& after.peers_yielded == counts.peers_yielded + total_peers
            &&& after.unique_peers_yielded == counts.unique_peers_yielded + unique_peers
            &&& same_starts(after, counts) && same_selections(after, counts) && same_resets(
                after,
                counts,
            )
        }),
{
}

/// A crawl that was thrown away is counted once, under its reason, and nowhere else.
pub proof fn resets_are_counted_once(
    counts: DemandSliceClassMetrics,
    reason: DemandCrawlResetReason,
)
    requires
        counts.stale_resets < u64::MAX,
        counts.class_change_resets < u64::MAX,
        counts.low_quality_resets < u64::MAX,
    ensures
        ({
            let after = counts.with_reset(reason);
            &&& after.stale_resets == counts.stale_resets + one_if(
                reason == DemandCrawlResetReason::Stale,
            )
            &&& after.class_change_resets == counts.class_change_resets + one_if(
                reason == DemandCrawlResetReason::ClassChanged,
            )
            &&& after.low_quality_resets == counts.low_quality_resets + one_if(
                reason == DemandCrawlResetReason::LowQuality,
            )
            &&& same_starts(after, counts) && same_selections(after, counts) && same_stops(
                after,
                counts,
            )
        }),
{
}

/// What is counted for one class changes nothing in the counts of the others.
pub proof fn classes_are_counted_apart(
    counts: DemandSliceMetrics,
    class: DemandSliceClass,
    reason: DemandSliceStopReason,
    total_peers: usize,
    unique_peers: usize,
)
    ensures
        ({
            let after = counts.with_stop(class, reason, total_peers, unique_peers);
            &&& class != DemandSliceClass::AwaitingMetadata ==> after.awaiting_metadata
                == counts.awaiting_metadata
            &&& class != DemandSliceClass::NoConnectedPeers ==> after.no_connected_peers
                == counts.no_connected_peers
            &&& class != DemandSliceClass::RoutineRefresh ==> after.routine_refresh
                == counts.routine_refresh
            &&& class == DemandSliceClass::AwaitingMetadata ==> after.awaiting_metadata
                == counts.awaiting_metadata.with_stop(reason, total_peers, unique_peers)
            &&& class == DemandSliceClass::NoConnectedPeers ==> after.no_connected_peers
                == counts.no_connected_peers.with_stop(reason, total_peers, unique_peers)
            &&& class == DemandSliceClass::RoutineRefresh ==> after.routine_refresh
                == counts.routine_refresh.with_stop(reason, total_peers, unique_peers)
        }),
{
}

// Counts as text.

/// A text that gives a number behind a name.
pub open spec fn giving(
    before: Seq<char>,
    name: Seq<char>,
    n: nat,
    behind: Seq<char>,
) -> Seq<char> {
    before + name + decimal(n) + behind
}

/// Whether a text gives a number behind a name.
pub open spec fn tells(text: Seq<char>, name: Seq<char>, n: nat) -> bool {
    exists|before: Seq<char>, behind: Seq<char>| text == #[trigger] giving(before, name, n, behind)
}

proof fn lemma_told_before(text: Seq<char>, more: Seq<char>)
    ensures
        forall|name: Seq<char>, n: nat| #[trigger] tells(text, name, n) ==> tells(
            text + more,
            name,
            n,
        ),
{
    assert forall|name: Seq<char>, n: nat| #[trigger] tells(text, name, n) implies tells(
        text + more,
        name,
        n,
    ) by {
        let (before, behind) = choose|before: Seq<char>, behind: Seq<char>|
            text == #[trigger] giving(before, name, n, behind);
        assert(text + more =~= giving(before, name, n, behind + more));
    }
}

proof fn lemma_told_behind(text: Seq<char>, last: Seq<char>, count: nat)
    ensures
        tells(text + last + decimal(count), last, count),
        forall|name: Seq<char>, n: nat| #[trigger] tells(text, name, n) ==> tells(
            text + last + decimal(count),
            name,
            n,
        ),
{
    lemma_told_before(text, last);
    lemma_told_before(text + last, decimal(count));
    let nothing = Seq::<char>::empty();
    assert(text + last + decimal(count) =~= giving(text, last, count, nothing));
}

/// The line of a class gives each of its counts behind the name of that count.
#[verifier::spinoff_prover]
#[verifier::rlimit(40)]
pub proof fn lines_tell_each_count(counts: DemandSliceClassMetrics, label: Seq<char>)
    ensures
        ({
            let line = counts.line(label);
            &&& tells(line, "(fresh="@, counts.fresh_starts as nat)
            &&& tells(line, " resumed="@, counts.resumed_starts as nat)
            &&& tells(line, " sel_reuse="@, counts.selected_reusable_parked as nat)
            &&& tells(line, " sel_support="@, counts.selected_swarm_support as nat)
            &&& tells(line, " sel_yield="@, counts.selected_useful_yield_history as nat)
            &&& tells(line, " sel_fair="@, counts.selected_fairness as nat)
            &&& tells(line, " sel_due="@, counts.selected_overdue_scarce as nat)
            &&& tells(line, " sel_spare="@, counts.selected_spare_capacity as nat)
            &&& tells(line, " sel_idle_probe="@, counts.selected_idle_speed_probe as nat)
            &&& tells(line, " natural="@, counts.natural_finishes as nat)
            &&& tells(line, " wall="@, counts.wall_time_stops as nat)
            &&& tells(line, " idle="@, counts.idle_timeout_stops as nat)
            &&& tells(line, " first="@, counts.first_batch_stops as nat)
            &&& tells(line, " cap="@, counts.unique_peer_cap_stops as nat)
            &&& tells(line, " peers="@, counts.peers_yielded as nat)
            &&& tells(line, " unique="@, counts.unique_peers_yielded as nat)
            &&& tells(line, " reset_stale="@, counts.stale_resets as nat)
            &&& tells(line, " reset_class="@, counts.class_change_resets as nat)
            &&& tells(line, " reset_quality="@, counts.low_quality_resets as nat)
        }),
{
    let text0 = label;
    lemma_told_behind(text0, "(fresh="@, counts.fresh_starts as nat);
    let text1 = text0 + "(fresh="@ + decimal(counts.fresh_starts as nat);
    lemma_told_behind(text1, " resumed="@, counts.resumed_starts as nat);
    let text2 = text1 + " resumed="@ + decimal(counts.resumed_starts as nat);
    lemma_told_behind(text2, " sel_reuse="@, counts.selected_reusable_parked as nat);
    let text3 = text2 + " sel_reuse="@ + decimal(counts.selected_reusable_parked as nat);
    lemma_told_behind(text3, " sel_support="@, counts.selected_swarm_support as nat);
    let text4 = text3 + " sel_support="@ + decimal(counts.selected_swarm_support as nat);
    lemma_told_behind(text4, " sel_yield="@, counts.selected_useful_yield_history as nat);
    let text5 = text4 + " sel_yield="@ + decimal(counts.selected_useful_yield_history as nat);
    lemma_told_behind(text5, " sel_fair="@, counts.selected_fairness as nat);
    let text6 = text5 + " sel_fair="@ + decimal(counts.selected_fairness as nat);
    lemma_told_behind(text6, " sel_due="@, counts.selected_overdue_scarce as nat);
    let text7 = text6 + " sel_due="@ + decimal(counts.selected_overdue_scarce as nat);
    lemma_told_behind(text7, " sel_spare="@, counts.selected_spare_capacity as nat);
    let text8 = text7 + " sel_spare="@ + decimal(counts.selected_spare_capacity as nat);
    lemma_told_behind(text8, " sel_idle_probe="@, counts.selected_idle_speed_probe as nat);
    let text9 = text8 + " sel_idle_probe="@ + decimal(counts.selected_idle_speed_probe as nat);
    lemma_told_behind(text9, " natural="@, counts.natural_finishes as nat);
    let text10 = text9 + " natural="@ + decimal(counts.natural_finishes as nat);
    lemma_told_behind(text10, " wall="@, counts.wall_time_stops as nat);
    let text11 = text10 + " wall="@ + decimal(counts.wall_time_stops as nat);
    lemma_told_behind(text11, " idle="@, counts.idle_timeout_stops as nat);
    let text12 = text11 + " idle="@ + decimal(counts.idle_timeout_stops as nat);
    lemma_told_behind(text12, " first="@, counts.first_batch_stops as nat);
    let text13 = text12 + " first="@ + decimal(counts.first_batch_stops as nat);
    lemma_told_behind(text13, " cap="@, counts.unique_peer_cap_stops as nat);
    let text14 = text13 + " cap="@ + decimal(counts.unique_peer_cap_stops as nat);
    lemma_told_behind(text14, " peers="@, counts.peers_yielded as nat);
    let text15 = text14 + " peers="@ + decimal(counts.peers_yielded as nat);
    lemma_told_behind(text15, " unique="@, counts.unique_peers_yielded as nat);
    let text16 = text15 + " unique="@ + decimal(counts.unique_peers_yielded as nat);
    lemma_told_behind(text16, " reset_stale="@, counts.stale_resets as nat);
    let text17 = text16 + " reset_stale="@ + decimal(counts.stale_resets as nat);
    lemma_told_behind(text17, " reset_class="@, counts.class_change_resets as nat);
    let text18 = text17 + " reset_class="@ + decimal(counts.class_change_resets as nat);
    lemma_told_behind(text18, " reset_quality="@, counts.low_quality_resets as nat);
    let text19 = text18 + " reset_quality="@ + decimal(counts.low_quality_resets as nat);
    assert(counts.line(label) == text19 + ")"@);
    lemma_told_before(text19, ")"@);
}

} // verus!
