use vstd::prelude::*;

use crate::clock::{Duration, Instant};
use crate::collector::{SliceCollector, SliceEvent, SliceStep, SliceView, SummaryView};
use crate::commands::DhtCommand;
use crate::ids::{InfoHash, LookupId, PeerAddr};
use crate::peers::RecentView;
use crate::planner::plan::DemandLookupPlan;
use crate::slice::DemandSliceStopReason;

verus! {

// Slices.

/// A slice that has found nothing yet.
pub open spec fn new_slice(plan: DemandLookupPlan) -> SliceView {
    SliceView { plan, total_peers: 0, unique_peers: Set::empty(), stop_reason: None }
}

/// A slice after batches of peers have come in, the first one first.
pub open spec fn slice_after(plan: DemandLookupPlan, batches: Seq<&[PeerAddr]>) -> SliceView
    decreases batches.len(),
{
    if batches.len() == 0 {
        new_slice(plan)
    } else {
        slice_after(plan, batches.drop_last()).after(SliceEvent::Batch(batches.last())).0
    }
}

/// Whether a slice goes on after the last of several batches.
pub open spec fn step_after(plan: DemandLookupPlan, batches: Seq<&[PeerAddr]>) -> SliceStep {
    slice_after(plan, batches.drop_last()).after(SliceEvent::Batch(batches.last())).1
}

/// Whether an address was in one of several batches.
pub open spec fn was_found(batches: Seq<&[PeerAddr]>, peer: PeerAddr) -> bool {
    exists|i: int| 0 <= i < batches.len() && (#[trigger] batches[i])@.contains(peer)
}

/// The number of addresses in several batches, repeated ones counted again.
pub open spec fn address_count(batches: Seq<&[PeerAddr]>) -> nat
    decreases batches.len(),
{
    if batches.len() == 0 {
        0
    } else {
        address_count(batches.drop_last()) + batches.last()@.len()
    }
}

proof fn lemma_was_found(batches: Seq<&[PeerAddr]>, peer: PeerAddr)
    requires
        batches.len() > 0,
    ensures
        was_found(batches, peer) == (was_found(batches.drop_last(), peer)
            || batches.last()@.contains(peer)),
{
    let rest = batches.drop_last();
    if was_found(rest, peer) {
        let i = choose|i: int| 0 <= i < rest.len() && (#[trigger] rest[i])@.contains(peer);
        assert(batches[i]@.contains(peer));
    }
    if was_found(batches, peer) {
        let i = choose|i: int| 0 <= i < batches.len() && (#[trigger] batches[i])@.contains(peer);
        if i < rest.len() {
            assert(rest[i]@.contains(peer));
        }
    }
    if batches.last()@.contains(peer) {
        assert(batches[batches.len() - 1]@.contains(peer));
    }
}

/// A slice holds the addresses of all batches, each once, and the number of all of them.
pub proof fn slices_hold_what_came_in(plan: DemandLookupPlan, batches: Seq<&[PeerAddr]>)
    ensures
        slice_after(plan, batches).plan == plan,
        slice_after(plan, batches).unique_peers =~= Set::new(
            |peer: PeerAddr| was_found(batches, peer),
        ),
        slice_after(plan, batches).unique_peers.finite(),
        address_count(batches) <= usize::MAX ==> slice_after(plan, batches).total_peers
            == address_count(batches),
    decreases batches.len(),
{
    broadcast use vstd::seq_lib::seq_to_set_is_finite;

    if batches.len() > 0 {
        slices_hold_what_came_in(plan, batches.drop_last());
        assert forall|peer: PeerAddr| slice_after(plan, batches).unique_peers.contains(
            peer,
        ) == was_found(batches, peer) by {
            lemma_was_found(batches, peer);
        }
    }
}

/// A slice whose plan does not stop after the first batch stops on a batch exactly where the distinct
/// addresses of all batches so far, this one too, are as many as its cap. Repeated addresses never
/// count twice.
pub proof fn slices_stop_at_distinct_addresses(
    plan: DemandLookupPlan,
    batches: Seq<&[PeerAddr]>,
    distinct: Set<PeerAddr>,
)
    requires
        batches.len() > 0,
        !plan.stop_after_first_batch,
        forall|peer: PeerAddr| #[trigger] distinct.contains(peer) <==> was_found(batches, peer),
    ensures
        step_after(plan, batches) == SliceStep::Stop <==> distinct.len() >= plan.unique_peer_cap,
        distinct.len() >= plan.unique_peer_cap ==> slice_after(plan, batches).stop_reason == Some(
            DemandSliceStopReason::UniquePeerCap,
        ),
        distinct.len() < plan.unique_peer_cap ==> slice_after(plan, batches).stop_reason
            == slice_after(plan, batches.drop_last()).stop_reason,
{
    slices_hold_what_came_in(plan, batches);
    slices_hold_what_came_in(plan, batches.drop_last());
    assert(slice_after(plan, batches).unique_peers =~= distinct);
}

/// A batch that brings no new address never stops a slice that went on before.
pub proof fn known_addresses_never_stop(plan: DemandLookupPlan, batches: Seq<&[PeerAddr]>)
    requires
        batches.len() > 1,
        step_after(plan, batches.drop_last()) == SliceStep::Continue,
        forall|peer: PeerAddr| #[trigger]
            batches.last()@.contains(peer) ==> was_found(batches.drop_last(), peer),
    ensures
        step_after(plan, batches) == SliceStep::Continue,
{
    let rest = batches.drop_last();
    slices_hold_what_came_in(plan, rest);
    slices_hold_what_came_in(plan, rest.drop_last());
    slices_hold_what_came_in(plan, batches);
    assert forall|peer: PeerAddr| was_found(batches, peer) == was_found(rest, peer) by {
        lemma_was_found(batches, peer);
    }
    assert(slice_after(plan, batches).unique_peers =~= slice_after(plan, rest).unique_peers);
}

/// A slice whose plan stops after the first batch does so on any batch, whatever it brings.
pub proof fn first_batch_stops_where_asked(slice: SliceView, peers: &[PeerAddr])
    requires
        slice.plan.stop_after_first_batch,
    ensures
        slice.after(SliceEvent::Batch(peers)).1 == SliceStep::Stop,
        slice.after(SliceEvent::Batch(peers)).0.stop_reason == Some(
            DemandSliceStopReason::FirstBatch,
        ),
        slice.after(SliceEvent::Batch(peers)).0.unique_peers == slice.unique_peers.union(
            peers@.to_set(),
        ),
{
}

/// A slice stops when its time is up, when nothing comes in for too long, and when its lookup ends,
/// each time with what it has found so far. Only a lookup that ended by itself leaves no reason.
pub proof fn slices_stop_on_other_events(slice: SliceView)
    ensures
        ({
            let (wall, wall_step) = slice.after(SliceEvent::WallTimeElapsed);
            let (idle, idle_step) = slice.after(SliceEvent::IdleTimeElapsed);
            let (closed, closed_step) = slice.after(SliceEvent::StreamClosed);
            &&& wall_step == SliceStep::Stop && idle_step == SliceStep::Stop && closed_step
                == SliceStep::Stop
            &&& wall.stop_reason == Some(DemandSliceStopReason::WallTime)
            &&& idle.stop_reason == Some(DemandSliceStopReason::IdleTimeout)
            &&& closed.stop_reason == slice.stop_reason
            &&& wall.unique_peers == slice.unique_peers && wall.total_peers == slice.total_peers
            &&& idle.unique_peers == slice.unique_peers && idle.total_peers == slice.total_peers
            &&& closed.unique_peers == slice.unique_peers && closed.total_peers
                == slice.total_peers
        }),
{
}

/// A slice that was stopped is to be parked with its lookups, its reason and all that it has found,
/// while one whose lookup ended by itself has finished, with the number of distinct addresses.
pub proof fn stopped_slices_are_parked(
    slice: SliceCollector,
    info_hash: InfoHash,
    lookup_ids: Vec<LookupId>,
)
    requires
        slice@.unique_peers.len() <= usize::MAX,
    ensures
        slice.stop_reason.is_some() ==> (slice.told(info_hash, lookup_ids) matches
            DhtCommand::ParkDemandLookups {
            info_hash: demand,
            slice_class,
            stop_reason,
            total_peers,
            unique_peers,
            lookup_ids: parked,
        } && demand == info_hash && slice_class == slice.plan.class && Some(stop_reason)
            == slice.stop_reason && total_peers == slice.total_peers && unique_peers@
            == slice@.unique_peers && parked@ == lookup_ids@),
        slice.stop_reason.is_none() ==> (slice.told(info_hash, lookup_ids) matches
            DhtCommand::DemandLookupFinished {
            info_hash: demand,
            slice_class,
            total_peers,
            unique_peers,
        } && demand == info_hash && slice_class == slice.plan.class && total_peers
            == slice.total_peers && unique_peers == slice@.unique_peers.len()),
{
}

// Runs of single lookups.

/// A batch of peers and when it came in.
pub struct TimedBatch {
    pub peers: Seq<PeerAddr>,
    pub elapsed_ms: u64,
}

/// A summary after batches of peers have come in, the first one first.
pub open spec fn summary_after(batches: Seq<TimedBatch>) -> SummaryView
    decreases batches.len(),
{
    if batches.len() == 0 {
        SummaryView {
            batch_count: 0,
            total_peers: 0,
            unique_peers: Set::empty(),
            first_batch_ms: None,
            first_ipv4_batch_ms: None,
            first_ipv6_batch_ms: None,
        }
    } else {
        summary_after(batches.drop_last()).with_batch(
            batches.last().peers,
            batches.last().elapsed_ms,
        )
    }
}

/// Whether a batch has an address of a family.
pub open spec fn batch_has(batch: TimedBatch, ipv4: bool) -> bool {
    exists|peer: PeerAddr| #[trigger] batch.peers.contains(peer) && peer.is_ipv4() == ipv4
}

/// Whether a time is that of the first batch with an address of a family.
pub open spec fn is_first_of_family(
    batches: Seq<TimedBatch>,
    ipv4: bool,
    time: Option<u64>,
) -> bool {
    match time {
        Some(ms) => exists|i: int|
            0 <= i < batches.len() && (#[trigger] batches[i]).elapsed_ms == ms && batch_has(
                batches[i],
                ipv4,
            ) && forall|j: int| 0 <= j < i ==> !batch_has(#[trigger] batches[j], ipv4),
        None => forall|j: int| 0 <= j < batches.len() ==> !batch_has(#[trigger] batches[j], ipv4),
    }
}

proof fn lemma_holds(batch: TimedBatch, ipv4: bool)
    ensures
        crate::collector::holds_family(batch.peers, ipv4) == batch_has(batch, ipv4),
{
    let peers = batch.peers;
    if batch_has(batch, ipv4) {
        let peer = choose|peer: PeerAddr| #[trigger]
            batch.peers.contains(peer) && peer.is_ipv4() == ipv4;
        assert(peers[peers.index_of(peer)].is_ipv4() == ipv4);
    }
    if crate::collector::holds_family(peers, ipv4) {
        let i = choose|i: int| 0 <= i < peers.len() && (#[trigger] peers[i]).is_ipv4() == ipv4;
        assert(batch.peers.contains(peers[i]));
    }
}

proof fn lemma_first_of_family(batches: Seq<TimedBatch>, ipv4: bool, time: Option<u64>)
    requires
        batches.len() > 0,
        is_first_of_family(batches.drop_last(), ipv4, time),
    ensures
        is_first_of_family(
            batches,
            ipv4,
            if time.is_none() && batch_has(batches.last(), ipv4) {
                Some(batches.last().elapsed_ms)
            } else {
                time
            },
        ),
{
    let rest = batches.drop_last();
    let n = batches.len() - 1;
    assert(batches[n] == batches.last());
    assert forall|j: int| 0 <= j < n implies #[trigger] batches[j] == rest[j] by {}
    match time {
        Some(ms) => {
            let i = choose|i: int|
                0 <= i < rest.len() && (#[trigger] rest[i]).elapsed_ms == ms && batch_has(
                    rest[i],
                    ipv4,
                ) && forall|j: int| 0 <= j < i ==> !batch_has(#[trigger] rest[j], ipv4);
            assert forall|j: int| 0 <= j < i implies !batch_has(#[trigger] batches[j], ipv4) by {
                assert(!batch_has(rest[j], ipv4));
            }
            assert(batches[i].elapsed_ms == ms);
        },
        None => {
            assert forall|j: int| 0 <= j < n implies !batch_has(#[trigger] batches[j], ipv4) by {
                assert(!batch_has(rest[j], ipv4));
            }
        },
    }
}

/// The number of addresses in several batches, repeated ones counted again.
pub open spec fn timed_count(batches: Seq<TimedBatch>) -> nat
    decreases batches.len(),
{
    if batches.len() == 0 {
        0
    } else {
        timed_count(batches.drop_last()) + batches.last().peers.len()
    }
}

/// A run counts its batches and all addresses in them, and gives the time of the first batch and the
/// times of the first with an IPv4 and with an IPv6 address.
pub proof fn runs_tell_first_times(batches: Seq<TimedBatch>)
    requires
        batches.len() <= usize::MAX,
    ensures
        ({
            let run = summary_after(batches).run();
            &&& run.batch_count == batches.len()
            &&& timed_count(batches) <= usize::MAX ==> run.total_peers == timed_count(batches)
            &&& run.first_batch_ms == if batches.len() > 0 {
                Some(batches[0].elapsed_ms)
            } else {
                None
            }
            &&& is_first_of_family(batches, true, run.first_ipv4_batch_ms)
            &&& is_first_of_family(batches, false, run.first_ipv6_batch_ms)
        }),
    decreases batches.len(),
{
    if batches.len() > 0 {
        let rest = batches.drop_last();
        runs_tell_first_times(rest);
        lemma_holds(batches.last(), true);
        lemma_holds(batches.last(), false);
        lemma_first_of_family(batches, true, summary_after(rest).first_ipv4_batch_ms);
        lemma_first_of_family(batches, false, summary_after(rest).first_ipv6_batch_ms);
        if rest.len() > 0 {
            assert(rest[0] == batches[0]);
        }
    }
}

/// Whether an address was in one of several batches.
pub open spec fn was_seen(batches: Seq<TimedBatch>, peer: PeerAddr) -> bool {
    exists|i: int| 0 <= i < batches.len() && (#[trigger] batches[i]).peers.contains(peer)
}

proof fn lemma_summary_peers(batches: Seq<TimedBatch>)
    ensures
        summary_after(batches).unique_peers.finite(),
        forall|peer: PeerAddr| #[trigger]
            summary_after(batches).unique_peers.contains(peer) <==> was_seen(batches, peer),
    decreases batches.len(),
{
    broadcast use vstd::seq_lib::seq_to_set_is_finite;

    if batches.len() > 0 {
        let rest = batches.drop_last();
        lemma_summary_peers(rest);
        assert forall|peer: PeerAddr| #[trigger]
            summary_after(batches).unique_peers.contains(peer) <==> was_seen(batches, peer) by {
            if was_seen(rest, peer) {
                let i = choose|i: int|
                    0 <= i < rest.len() && (#[trigger] rest[i]).peers.contains(peer);
                assert(batches[i].peers.contains(peer));
            }
            if was_seen(batches, peer) {
                let i = choose|i: int|
                    0 <= i < batches.len() && (#[trigger] batches[i]).peers.contains(peer);
                if i < rest.len() {
                    assert(rest[i].peers.contains(peer));
                }
            }
            if batches.last().peers.contains(peer) {
                assert(batches[batches.len() - 1].peers.contains(peer));
            }
        }
    }
}

/// A run counts each address once, those of each family apart.
pub proof fn runs_count_distinct_addresses(
    batches: Seq<TimedBatch>,
    ipv4: Set<PeerAddr>,
    ipv6: Set<PeerAddr>,
)
    requires
        forall|peer: PeerAddr| #[trigger]
            ipv4.contains(peer) <==> was_seen(batches, peer) && peer.is_ipv4(),
        forall|peer: PeerAddr| #[trigger]
            ipv6.contains(peer) <==> was_seen(batches, peer) && !peer.is_ipv4(),
        ipv4.len() + ipv6.len() <= usize::MAX,
    ensures
        ({
            let run = summary_after(batches).run();
            &&& run.unique_ipv4_peers == ipv4.len()
            &&& run.unique_ipv6_peers == ipv6.len()
            &&& run.unique_peers == ipv4.len() + ipv6.len()
        }),
{
    lemma_summary_peers(batches);
    let all = summary_after(batches).unique_peers;
    assert(all.filter(|peer: PeerAddr| peer.is_ipv4()) =~= ipv4);
    assert(all =~= ipv4.union(ipv6));
    assert(ipv4.subset_of(all) && ipv6.subset_of(all));
    vstd::set_lib::lemma_len_subset(ipv4, all);
    vstd::set_lib::lemma_len_subset(ipv6, all);
    vstd::set_lib::lemma_set_disjoint_lens(ipv4, ipv6);
}

// Peers found recently.

/// A batch of peers and the time at which it came in.
pub struct FoundBatch {
    pub at: Instant,
    pub peers: Seq<PeerAddr>,
}

/// The record of recent peers after batches have come in, the first one first.
pub open spec fn recent_after(window: Duration, batches: Seq<FoundBatch>) -> RecentView
    decreases batches.len(),
{
    if batches.len() == 0 {
        RecentView { window, found_at: Map::empty() }
    } else {
        recent_after(window, batches.drop_last()).with_batch(
            batches.last().at,
            batches.last().peers,
        )
    }
}

/// Whether an address was in a batch less than the window ago. The batches came in one after the
/// other.
pub open spec fn found_within(
    batches: Seq<FoundBatch>,
    peer: PeerAddr,
    window: Duration,
    now: Instant,
) -> bool {
    exists|i: int|
        0 <= i < batches.len() && (#[trigger] batches[i]).peers.contains(peer) && now
            - batches[i].at < window
}

/// Whether batches came in one after the other.
pub open spec fn in_time(batches: Seq<FoundBatch>) -> bool {
    forall|i: int, j: int| 0 <= i <= j < batches.len() ==> batches[i].at <= batches[j].at
}

proof fn lemma_recent_after(window: Duration, batches: Seq<FoundBatch>, peer: PeerAddr)
    requires
        in_time(batches),
    ensures
        recent_after(window, batches).window == window,
        recent_after(window, batches).found_at.contains_key(peer) <==> exists|i: int|
            0 <= i < batches.len() && (#[trigger] batches[i]).peers.contains(peer),
        forall|i: int|
            0 <= i < batches.len() && (#[trigger] batches[i]).peers.contains(peer) ==> batches[i].at
                <= recent_after(window, batches).found_at[peer],
        recent_after(window, batches).found_at.contains_key(peer) ==> exists|i: int|
            0 <= i < batches.len() && (#[trigger] batches[i]).peers.contains(peer) && batches[i].at
                == recent_after(window, batches).found_at[peer],
    decreases batches.len(),
{
    if batches.len() > 0 {
        let rest = batches.drop_last();
        let n = batches.len() - 1;
        assert forall|i: int| 0 <= i < n implies #[trigger] batches[i] == rest[i] by {}
        lemma_recent_after(window, rest, peer);
        assert(batches[n] == batches.last());
        let known = recent_after(window, rest).found_at.contains_key(peer);
        if batches.last().peers.contains(peer) {
            assert forall|i: int|
                0 <= i < batches.len() && (#[trigger] batches[i]).peers.contains(
                    peer,
                ) implies batches[i].at <= batches.last().at by {
                assert(batches[i].at <= batches[n].at);
            }
        } else {
            assert forall|i: int|
                0 <= i < batches.len() && (#[trigger] batches[i]).peers.contains(
                    peer,
                ) implies batches[i].at <= recent_after(window, batches).found_at[peer] by {
                assert(i < n);
                assert(rest[i].peers.contains(peer));
            }
            if known {
                let i = choose|i: int|
                    0 <= i < rest.len() && (#[trigger] rest[i]).peers.contains(peer)
                        && rest[i].at == recent_after(window, rest).found_at[peer];
                assert(batches[i].peers.contains(peer));
            }
        }
    }
}

/// The recent peers at a time are exactly those that were in some batch less than the window ago,
/// however often they came in before.
pub proof fn recent_peers_are_those_of_the_window(
    window: Duration,
    batches: Seq<FoundBatch>,
    peer: PeerAddr,
    now: Instant,
)
    requires
        in_time(batches),
        window > 0,
        batches.len() > 0 ==> batches.last().at <= now,
    ensures
        recent_after(window, batches).expired(now).found_at.contains_key(peer) <==> found_within(
            batches,
            peer,
            window,
            now,
        ),
{
    lemma_recent_after(window, batches, peer);
    let recent = recent_after(window, batches);
    if recent.found_at.contains_key(peer) {
        let i = choose|i: int|
            0 <= i < batches.len() && (#[trigger] batches[i]).peers.contains(peer) && batches[i].at
                == recent.found_at[peer];
        assert(batches[i].at <= batches[batches.len() - 1].at);
        if now - batches[i].at < window {
            assert(found_within(batches, peer, window, now));
        }
    }
    if found_within(batches, peer, window, now) {
        let i = choose|i: int|
            0 <= i < batches.len() && (#[trigger] batches[i]).peers.contains(peer) && now
                - batches[i].at < window;
        assert(batches[i].at <= recent.found_at[peer]);
    }
}

} // verus!
