use vstd::prelude::*;

use crate::clock::{elapsed, Instant};
use crate::ids::{AddressFamily, InfoHash, LookupId, PeerAddr};
use crate::limits::{
    DHT_DEMAND_DRAIN_MAX_AGE, DHT_DEMAND_DRAIN_MAX_INFLIGHT_QUERIES, DHT_PARKED_CRAWL_MAX_AGE,
};
use crate::planner::crawl::{DemandCrawlState, LookupState};
use crate::planner::drain::{
    drain_inflight, drain_time, drain_turn, finalize_turn, stored_parked, taken_parked,
};
use crate::planner::lookups::DrainView;
use crate::planner::metrics::DemandSliceMetrics;
use crate::runtime::ledger::{find, paused_if, LedgerView, RuntimeLookup};
use crate::slice::{DemandParkedSliceOutcome, DemandSliceClass, DemandSliceStopReason};
use crate::table::keys_after_remove;

verus! {

// Parked crawls.

/// The last of several lookups over an address family.
pub open spec fn last_of_family(states: Seq<LookupState>, family: AddressFamily) -> Option<
    LookupState,
>
    decreases states.len(),
{
    if states.len() == 0 {
        None
    } else if states.last().family == family {
        Some(states.last())
    } else {
        last_of_family(states.drop_last(), family)
    }
}

proof fn lemma_stored_all(
    crawl: DemandCrawlState,
    class: DemandSliceClass,
    states: Seq<LookupState>,
    now: Instant,
    family: AddressFamily,
)
    ensures
        crawl.stored_all(class, states, now).state_of(family) == match last_of_family(
            states,
            family,
        ) {
            Some(state) => Some(state),
            None => crawl.state_of(family),
        },
    decreases states.len(),
{
    if states.len() > 0 {
        lemma_stored_all(crawl, class, states.drop_last(), now, family);
    }
}

/// A lookup that was parked comes back when its demand is looked up again over the same address
/// family, unless the crawl is thrown away by then. Where several lookups over the family were
/// parked together, the last one comes back.
pub proof fn parked_lookup_comes_back(
    parked_crawls: Map<InfoHash, DemandCrawlState>,
    metrics: DemandSliceMetrics,
    record_metrics: bool,
    info_hash: InfoHash,
    family: AddressFamily,
    parked_class: DemandSliceClass,
    stop_reason: Option<DemandSliceStopReason>,
    unique_peers: nat,
    states: Seq<LookupState>,
    parked_at: Instant,
    resumed_class: DemandSliceClass,
    resumed_at: Instant,
)
    requires
        last_of_family(states, family).is_some(),
    ensures
        ({
            let crawls = stored_parked(
                parked_crawls,
                info_hash,
                parked_class,
                stop_reason,
                unique_peers,
                states,
                parked_at,
            ).1;
            &&& crawls.contains_key(info_hash)
            &&& taken_parked(
                crawls,
                metrics,
                record_metrics,
                info_hash,
                family,
                resumed_class,
                resumed_at,
            ).0 == if crawls[info_hash].reset_reason(resumed_class, resumed_at).is_none() {
                last_of_family(states, family)
            } else {
                None
            }
        }),
{
    assert(states.len() > 0);
    let (outcome, crawls) = stored_parked(
        parked_crawls,
        info_hash,
        parked_class,
        stop_reason,
        unique_peers,
        states,
        parked_at,
    );
    let known = if parked_crawls.contains_key(info_hash) {
        parked_crawls[info_hash]
    } else {
        DemandCrawlState::fresh(parked_at, parked_class)
    };
    let observed = match outcome {
        Some(outcome) => known.observed(parked_class, outcome, parked_at),
        None => known,
    };
    lemma_stored_all(observed, parked_class, states, parked_at, family);
}

/// No lookup comes back twice: once it has been taken out, the next attempt over the same address
/// family starts from scratch.
pub proof fn parked_lookup_comes_back_once(
    parked_crawls: Map<InfoHash, DemandCrawlState>,
    metrics: DemandSliceMetrics,
    record_metrics: bool,
    info_hash: InfoHash,
    family: AddressFamily,
    first_class: DemandSliceClass,
    first_at: Instant,
    second_class: DemandSliceClass,
    second_at: Instant,
)
    ensures
        ({
            let (_, crawls, counts) = taken_parked(
                parked_crawls,
                metrics,
                record_metrics,
                info_hash,
                family,
                first_class,
                first_at,
            );
            taken_parked(
                crawls,
                counts,
                record_metrics,
                info_hash,
                family,
                second_class,
                second_at,
            ).0.is_none()
        }),
{
}

/// No lookup comes back after its time is up.
pub proof fn no_stale_lookup_comes_back(
    parked_crawls: Map<InfoHash, DemandCrawlState>,
    metrics: DemandSliceMetrics,
    record_metrics: bool,
    info_hash: InfoHash,
    family: AddressFamily,
    class: DemandSliceClass,
    now: Instant,
)
    requires
        taken_parked(
            parked_crawls,
            metrics,
            record_metrics,
            info_hash,
            family,
            class,
            now,
        ).0.is_some(),
    ensures
        parked_crawls.contains_key(info_hash),
        elapsed(now, parked_crawls[info_hash].updated_at) < DHT_PARKED_CRAWL_MAX_AGE,
{
}

/// Parking lookups of one demand leaves the crawls of all others alone.
pub proof fn parking_keeps_other_crawls(
    parked_crawls: Map<InfoHash, DemandCrawlState>,
    info_hash: InfoHash,
    class: DemandSliceClass,
    stop_reason: Option<DemandSliceStopReason>,
    unique_peers: nat,
    states: Seq<LookupState>,
    now: Instant,
    other: InfoHash,
)
    requires
        other != info_hash,
    ensures
        ({
            let crawls = stored_parked(
                parked_crawls,
                info_hash,
                class,
                stop_reason,
                unique_peers,
                states,
                now,
            ).1;
            &&& crawls.contains_key(other) == parked_crawls.contains_key(other)
            &&& parked_crawls.contains_key(other) ==> crawls[other] == parked_crawls[other]
        }),
{
}

// Drains.

/// A drain lasts for some time, and no longer than the limit for all drains.
pub proof fn drains_are_short(
    class: DemandSliceClass,
    stop_reason: DemandSliceStopReason,
    outcome: Option<DemandParkedSliceOutcome>,
    unique_peers: nat,
)
    ensures
        match drain_time(class, stop_reason, outcome, unique_peers) {
            Some(duration) => 0 < duration <= DHT_DEMAND_DRAIN_MAX_AGE,
            None => true,
        },
{
}

/// A drain that has reached its deadline is over when it is looked at, whatever the runtime says
/// of it.
pub proof fn drains_end_at_their_deadline(
    ledger: Option<LedgerView>,
    parked_crawls: Map<InfoHash, DemandCrawlState>,
    drains: Map<InfoHash, DrainView>,
    info_hash: InfoHash,
    force: bool,
    now: Instant,
)
    requires
        drains.contains_key(info_hash),
        now >= drains[info_hash].deadline,
    ensures
        ({
            let turn = finalize_turn(ledger, parked_crawls, drains, info_hash, force, now);
            &&& turn.outcome.is_some()
            &&& turn.outcome.unwrap().finalized_after_deadline
            &&& !turn.outcome.unwrap().finalized_early_no_yield
            &&& turn.drains == drains.remove(info_hash)
        }),
{
}

/// Late peers are only added, and those that come in again change nothing but the total.
pub proof fn late_peers_only_add(drain: DrainView, peers: Seq<PeerAddr>)
    ensures
        drain.unique_peers.subset_of(drain.with_peers(peers).unique_peers),
        drain.with_peers(peers).with_peers(peers).unique_peers == drain.with_peers(
            peers,
        ).unique_peers,
        drain.with_peers(peers).initial_unique_peers == drain.initial_unique_peers,
        drain.with_peers(peers).deadline == drain.deadline,
{
    assert(drain.with_peers(peers).with_peers(peers).unique_peers =~= drain.with_peers(
        peers,
    ).unique_peers);
}

// The queries in flight of all drains.

proof fn lemma_find_paused(lookups: Seq<RuntimeLookup>, paused: LookupId, lookup_id: LookupId)
    ensures
        find(lookups.map_values(paused_if(paused)), lookup_id).is_some() == find(
            lookups,
            lookup_id,
        ).is_some(),
        find(lookups, lookup_id).is_some() ==> find(
            lookups.map_values(paused_if(paused)),
            lookup_id,
        ).unwrap() == paused_if(paused)(find(lookups, lookup_id).unwrap()),
        find(lookups, lookup_id).is_some() ==> find(lookups, lookup_id).unwrap().lookup_id
            == lookup_id,
    decreases lookups.len(),
{
    if lookups.len() > 0 {
        lemma_find_paused(lookups.drop_first(), paused, lookup_id);
        assert(lookups.map_values(paused_if(paused)).drop_first()
            =~= lookups.drop_first().map_values(paused_if(paused)));
    }
}

/// Pausing changes nothing in what is in flight.
proof fn lemma_quality_paused(ledger: LedgerView, paused: LookupId, lookup_ids: Seq<LookupId>)
    ensures
        ledger.paused(paused).quality_of(lookup_ids) == ledger.quality_of(lookup_ids),
    decreases lookup_ids.len(),
{
    if lookup_ids.len() > 0 {
        lemma_quality_paused(ledger, paused, lookup_ids.drop_last());
        lemma_find_paused(ledger.lookups, paused, lookup_ids.last());
    }
}

proof fn lemma_quality_paused_all(
    ledger: LedgerView,
    paused: Seq<LookupId>,
    lookup_ids: Seq<LookupId>,
)
    ensures
        ledger.paused_all(paused).0.quality_of(lookup_ids) == ledger.quality_of(lookup_ids),
    decreases paused.len(),
{
    if paused.len() > 0 {
        lemma_quality_paused_all(ledger, paused.drop_last(), lookup_ids);
        lemma_quality_paused(
            ledger.paused_all(paused.drop_last()).0,
            paused.last(),
            lookup_ids,
        );
    }
}

/// Lookups that could be paused have no more in flight than all that were tried.
proof fn lemma_paused_part(ledger: LedgerView, lookup_ids: Seq<LookupId>)
    ensures
        ledger.quality_of(ledger.paused_all(lookup_ids).1).inflight_len <= ledger.quality_of(
            lookup_ids,
        ).inflight_len,
    decreases lookup_ids.len(),
{
    if lookup_ids.len() > 0 {
        let rest = lookup_ids.drop_last();
        let last = lookup_ids.last();
        lemma_paused_part(ledger, rest);
        let (before, paused) = ledger.paused_all(rest);
        if before.can_pause(last) {
            assert(paused.push(last).drop_last() =~= paused);
            assert(paused.push(last).last() == last);
        }
    }
}

/// Leaving out what is not there changes nothing in what is in flight.
proof fn lemma_present_part(ledger: LedgerView, lookup_ids: Seq<LookupId>)
    ensures
        ledger.quality_of(ledger.present(lookup_ids)) == ledger.quality_of(lookup_ids),
    decreases lookup_ids.len(),
{
    reveal(Seq::filter);
    if lookup_ids.len() > 0 {
        let rest = lookup_ids.drop_last();
        let last = lookup_ids.last();
        lemma_present_part(ledger, rest);
        if ledger.get(last).is_some() {
            assert(ledger.present(lookup_ids) == ledger.present(rest).push(last));
            assert(ledger.present(rest).push(last).drop_last() =~= ledger.present(rest));
        }
    }
}

proof fn lemma_inflight_paused(
    ledger: LedgerView,
    paused: Seq<LookupId>,
    keys: Seq<InfoHash>,
    drains: Map<InfoHash, DrainView>,
)
    ensures
        drain_inflight(ledger.paused_all(paused).0, keys, drains) == drain_inflight(
            ledger,
            keys,
            drains,
        ),
    decreases keys.len(),
{
    if keys.len() > 0 {
        lemma_inflight_paused(ledger, paused, keys.drop_last(), drains);
        lemma_quality_paused_all(ledger, paused, drains[keys.last()].lookup_ids);
    }
}

proof fn lemma_inflight_other(
    ledger: LedgerView,
    keys: Seq<InfoHash>,
    drains: Map<InfoHash, DrainView>,
    info_hash: InfoHash,
    drain: DrainView,
)
    requires
        !keys.contains(info_hash),
    ensures
        drain_inflight(ledger, keys, drains.insert(info_hash, drain)) == drain_inflight(
            ledger,
            keys,
            drains,
        ),
    decreases keys.len(),
{
    if keys.len() > 0 {
        let rest = keys.drop_last();
        assert(keys[keys.len() - 1] != info_hash);
        assert(!rest.contains(info_hash)) by {
            if rest.contains(info_hash) {
                assert(keys[rest.index_of(info_hash)] == info_hash);
            }
        }
        lemma_inflight_other(ledger, rest, drains, info_hash, drain);
    }
}

/// What is asked of the runtime changes nothing in what is in flight.
proof fn lemma_quality_requested(left: LedgerView, right: LedgerView, lookup_ids: Seq<LookupId>)
    requires
        left.lookups == right.lookups,
    ensures
        left.quality_of(lookup_ids) == right.quality_of(lookup_ids),
    decreases lookup_ids.len(),
{
    if lookup_ids.len() > 0 {
        lemma_quality_requested(left, right, lookup_ids.drop_last());
    }
}

proof fn lemma_inflight_requested(
    left: LedgerView,
    right: LedgerView,
    keys: Seq<InfoHash>,
    drains: Map<InfoHash, DrainView>,
)
    requires
        left.lookups == right.lookups,
    ensures
        drain_inflight(left, keys, drains) == drain_inflight(right, keys, drains),
    decreases keys.len(),
{
    if keys.len() > 0 {
        lemma_inflight_requested(left, right, keys.drop_last(), drains);
        lemma_quality_requested(left, right, drains[keys.last()].lookup_ids);
    }
}

/// A new drain never brings the queries in flight of all drains above their limit.
pub proof fn new_drains_respect_inflight_limit(
    ledger: LedgerView,
    parked_crawls: Map<InfoHash, DemandCrawlState>,
    drains: Map<InfoHash, DrainView>,
    drain_keys: Seq<InfoHash>,
    info_hash: InfoHash,
    class: DemandSliceClass,
    stop_reason: DemandSliceStopReason,
    total_peers: usize,
    unique_peers: Set<PeerAddr>,
    lookup_ids: Seq<LookupId>,
    now: Instant,
)
    requires
        drain_keys.no_duplicates(),
        !drains.contains_key(info_hash),
        !drain_keys.contains(info_hash),
    ensures
        ({
            let turn = drain_turn(
                Some(ledger),
                parked_crawls,
                drains,
                drain_keys,
                info_hash,
                class,
                stop_reason,
                total_peers,
                unique_peers,
                lookup_ids,
                now,
            );
            turn.drains.contains_key(info_hash) ==> drain_inflight(
                turn.ledger.unwrap(),
                turn.drain_keys,
                turn.drains,
            ) <= DHT_DEMAND_DRAIN_MAX_INFLIGHT_QUERIES
        }),
{
    let turn = drain_turn(
        Some(ledger),
        parked_crawls,
        drains,
        drain_keys,
        info_hash,
        class,
        stop_reason,
        total_peers,
        unique_peers,
        lookup_ids,
        now,
    );
    if turn.drains.contains_key(info_hash) {
        let present = ledger.present(lookup_ids);
        let (after, paused) = ledger.paused_all(present);
        let drain = turn.drains[info_hash];
        assert(drains.remove(info_hash) =~= drains);
        assert(keys_after_remove(drain_keys, info_hash) == drain_keys);
        assert(turn.drain_keys == drain_keys.push(info_hash));
        assert(turn.drain_keys.drop_last() =~= drain_keys);
        assert(turn.drains == drains.insert(info_hash, drain));
        assert(drain.lookup_ids == paused);
        lemma_inflight_requested(turn.ledger.unwrap(), after, turn.drain_keys, turn.drains);
        lemma_inflight_other(after, drain_keys, drains, info_hash, drain);
        lemma_inflight_paused(ledger, present, drain_keys, drains);
        lemma_quality_paused_all(ledger, present, paused);
        lemma_paused_part(ledger, present);
        lemma_present_part(ledger, lookup_ids);
    }
}

} // verus!
