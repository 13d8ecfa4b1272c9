use vstd::prelude::*;

use crate::clock::Duration;
use crate::commands::DhtCommand;
use crate::ids::{InfoHash, LookupId, PeerAddr};
use crate::limits::{DHT_DEMAND_DRAIN_MAX_AGE, DHT_DEMAND_DRAIN_POLL_INTERVAL};
use crate::peers::PeerSet;
use crate::planner::plan::DemandLookupPlan;
use crate::slice::DemandSliceStopReason;

verus! {

/// What happens while a slice of a lookup runs.
#[derive(Debug)]
pub enum SliceEvent<'a> {
    /// The slice has run for as long as its plan allows.
    WallTimeElapsed,
    /// No peers have come in for as long as its plan allows.
    IdleTimeElapsed,
    /// Peers have come in.
    Batch(&'a [PeerAddr]),
    /// The lookup has ended by itself.
    StreamClosed,
}

/// Whether a slice goes on.
#[derive(Clone, Copy, Debug, PartialEq, Eq, Structural)]
pub enum SliceStep {
    /// It does, and waits for peers anew.
    Continue,
    /// It does not.
    Stop,
}

/// What a slice of a lookup has found, and why it stopped.
#[derive(Debug)]
pub struct SliceCollector {
    pub plan: DemandLookupPlan,
    pub total_peers: usize,
    pub unique_peers: PeerSet,
    pub stop_reason: Option<DemandSliceStopReason>,
}

/// The mathematical content of a slice.
#[verifier::ext_equal]
pub struct SliceView {
    pub plan: DemandLookupPlan,
    pub total_peers: usize,
    pub unique_peers: Set<PeerAddr>,
    pub stop_reason: Option<DemandSliceStopReason>,
}

impl View for SliceCollector {
    type V = SliceView;

    open spec fn view(&self) -> SliceView {
        SliceView {
            plan: self.plan,
            total_peers: self.total_peers,
            unique_peers: self.unique_peers@,
            stop_reason: self.stop_reason,
        }
    }
}

impl SliceView {
    /// Why the slice stops after its last batch, if it does: its plan asks for one batch only, or
    /// it has found enough peers.
    pub open spec fn batch_stop(self) -> Option<DemandSliceStopReason> {
        if self.plan.stop_after_first_batch {
            Some(DemandSliceStopReason::FirstBatch)
        } else if self.unique_peers.len() >= self.plan.unique_peer_cap {
            Some(DemandSliceStopReason::UniquePeerCap)
        } else {
            None
        }
    }

    /// The slice after an event, and whether it goes on.
    pub open spec fn after(self, event: SliceEvent) -> (Self, SliceStep) {
        match event {
            SliceEvent::WallTimeElapsed => (
                SliceView { stop_reason: Some(DemandSliceStopReason::WallTime), ..self },
                SliceStep::Stop,
            ),
            SliceEvent::IdleTimeElapsed => (
                SliceView { stop_reason: Some(DemandSliceStopReason::IdleTimeout), ..self },
                SliceStep::Stop,
            ),
            SliceEvent::Batch(peers) => {
                let taken = SliceView {
                    total_peers: self.total_peers.saturating_add(peers@.len() as usize),
                    unique_peers: self.unique_peers.union(peers@.to_set()),
                    ..self
                };
                match taken.batch_stop() {
                    Some(reason) => (
                        SliceView { stop_reason: Some(reason), ..taken },
                        SliceStep::Stop,
                    ),
                    None => (taken, SliceStep::Continue),
                }
            },
            SliceEvent::StreamClosed => (self, SliceStep::Stop),
        }
    }
}

impl SliceCollector {
    /// No peer is held twice.
    pub open spec fn wf(&self) -> bool {
        self.unique_peers.wf()
    }

    /// What the service is told of the slice once it has stopped.
    pub open spec fn told(self, info_hash: InfoHash, lookup_ids: Vec<LookupId>) -> DhtCommand {
        match self.stop_reason {
            Some(stop_reason) => DhtCommand::ParkDemandLookups {
                info_hash,
                slice_class: self.plan.class,
                stop_reason,
                total_peers: self.total_peers,
                unique_peers: self.unique_peers,
                lookup_ids,
            },
            None => DhtCommand::DemandLookupFinished {
                info_hash,
                slice_class: self.plan.class,
                total_peers: self.total_peers,
                unique_peers: self@.unique_peers.len() as usize,
            },
        }
    }

    /// A slice that has found nothing yet.
    pub fn new(plan: DemandLookupPlan) -> (collector: Self)
        ensures
            collector@ == (SliceView {
                plan,
                total_peers: 0,
                unique_peers: Set::empty(),
                stop_reason: None,
            }),
            collector.wf(),
    {
        SliceCollector { plan, total_peers: 0, unique_peers: PeerSet::new(), stop_reason: None }
    }

    /// Takes in an event and says whether the slice goes on.
    pub fn observe(&mut self, event: SliceEvent<'_>) -> (step: SliceStep)
        requires
            old(self).wf(),
        ensures
            (final(self)@, step) == old(self)@.after(event),
            final(self).wf(),
    {
        match event {
            SliceEvent::WallTimeElapsed => {
                self.stop_reason = Some(DemandSliceStopReason::WallTime);
                SliceStep::Stop
            },
            SliceEvent::IdleTimeElapsed => {
                self.stop_reason = Some(DemandSliceStopReason::IdleTimeout);
                SliceStep::Stop
            },
            SliceEvent::Batch(peers) => {
                self.total_peers = self.total_peers.saturating_add(peers.len());
                self.unique_peers.extend(peers);
                if self.plan.stop_after_first_batch {
                    self.stop_reason = Some(DemandSliceStopReason::FirstBatch);
                    SliceStep::Stop
                } else if self.unique_peers.len() >= self.plan.unique_peer_cap {
                    self.stop_reason = Some(DemandSliceStopReason::UniquePeerCap);
                    SliceStep::Stop
                } else {
                    SliceStep::Continue
                }
            },
            SliceEvent::StreamClosed => SliceStep::Stop,
        }
    }

    /// What the service is told of a slice that has stopped: one that was stopped is to be parked,
    /// one that ended by itself has finished.
    pub fn into_command(self, info_hash: InfoHash, lookup_ids: Vec<LookupId>) -> (command:
        DhtCommand)
        requires
            self.wf(),
        ensures
            command == self.told(info_hash, lookup_ids),
            match self.stop_reason {
                Some(stop_reason) => command == (DhtCommand::ParkDemandLookups {
                    info_hash,
                    slice_class: self.plan.class,
                    stop_reason,
                    total_peers: self.total_peers,
                    unique_peers: self.unique_peers,
                    lookup_ids,
                }),
                None => command == (DhtCommand::DemandLookupFinished {
                    info_hash,
                    slice_class: self.plan.class,
                    total_peers: self.total_peers,
                    unique_peers: self@.unique_peers.len() as usize,
                }),
            },
    {
        match self.stop_reason {
            Some(stop_reason) => DhtCommand::ParkDemandLookups {
                info_hash,
                slice_class: self.plan.class,
                stop_reason,
                total_peers: self.total_peers,
                unique_peers: self.unique_peers,
                lookup_ids,
            },
            None => DhtCommand::DemandLookupFinished {
                info_hash,
                slice_class: self.plan.class,
                total_peers: self.total_peers,
                unique_peers: self.unique_peers.len(),
            },
        }
    }
}

/// How long late peers of a stopped slice are still passed on.
pub open spec fn listen_time() -> Duration {
    (DHT_DEMAND_DRAIN_MAX_AGE + DHT_DEMAND_DRAIN_POLL_INTERVAL) as u64
}

/// How long late peers of a stopped slice are still passed on: until the last drain is over and has
/// been looked at.
pub fn drain_listen_time() -> (time: Duration)
    ensures
        time == listen_time(),
        time == DHT_DEMAND_DRAIN_MAX_AGE + DHT_DEMAND_DRAIN_POLL_INTERVAL,
{
    DHT_DEMAND_DRAIN_MAX_AGE + DHT_DEMAND_DRAIN_POLL_INTERVAL
}

/// What a single lookup has found.
#[derive(Clone, Copy, Debug, PartialEq, Eq, Structural)]
pub struct DhtLookupRun {
    pub batch_count: usize,
    pub total_peers: usize,
    pub unique_peers: usize,
    pub unique_ipv4_peers: usize,
    pub unique_ipv6_peers: usize,
    pub first_batch_ms: Option<u64>,
    pub first_ipv4_batch_ms: Option<u64>,
    pub first_ipv6_batch_ms: Option<u64>,
}

/// A lookup that has found nothing.
pub open spec fn empty_run() -> DhtLookupRun {
    DhtLookupRun {
        batch_count: 0,
        total_peers: 0,
        unique_peers: 0,
        unique_ipv4_peers: 0,
        unique_ipv6_peers: 0,
        first_batch_ms: None,
        first_ipv4_batch_ms: None,
        first_ipv6_batch_ms: None,
    }
}

impl Default for DhtLookupRun {
    fn default() -> (run: Self)
        ensures
            run == empty_run(),
    {
        DhtLookupRun {
            batch_count: 0,
            total_peers: 0,
            unique_peers: 0,
            unique_ipv4_peers: 0,
            unique_ipv6_peers: 0,
            first_batch_ms: None,
            first_ipv4_batch_ms: None,
            first_ipv6_batch_ms: None,
        }
    }
}

/// What a single lookup has found so far.
#[derive(Debug)]
pub struct LookupRunSummary {
    pub batch_count: usize,
    pub total_peers: usize,
    pub unique_peers: PeerSet,
    pub first_batch_ms: Option<u64>,
    pub first_ipv4_batch_ms: Option<u64>,
    pub first_ipv6_batch_ms: Option<u64>,
}

/// The mathematical content of a summary.
#[verifier::ext_equal]
pub struct SummaryView {
    pub batch_count: usize,
    pub total_peers: usize,
    pub unique_peers: Set<PeerAddr>,
    pub first_batch_ms: Option<u64>,
    pub first_ipv4_batch_ms: Option<u64>,
    pub first_ipv6_batch_ms: Option<u64>,
}

/// Whether a batch holds an address of a family.
pub open spec fn holds_family(peers: Seq<PeerAddr>, ipv4: bool) -> bool {
    exists|i: int| 0 <= i < peers.len() && (#[trigger] peers[i]).is_ipv4() == ipv4
}

/// The time of the first batch of a kind.
pub open spec fn first_time(known: Option<u64>, of_kind: bool, elapsed_ms: u64) -> Option<u64> {
    if known.is_none() && of_kind {
        Some(elapsed_ms)
    } else {
        known
    }
}

impl SummaryView {
    /// The summary after one more batch. Counts are cut off at the largest `usize`.
    pub open spec fn with_batch(self, peers: Seq<PeerAddr>, elapsed_ms: u64) -> Self {
        SummaryView {
            batch_count: self.batch_count.saturating_add(1),
            total_peers: self.total_peers.saturating_add(peers.len() as usize),
            unique_peers: self.unique_peers.union(peers.to_set()),
            first_batch_ms: first_time(self.first_batch_ms, true, elapsed_ms),
            first_ipv4_batch_ms: first_time(
                self.first_ipv4_batch_ms,
                holds_family(peers, true),
                elapsed_ms,
            ),
            first_ipv6_batch_ms: first_time(
                self.first_ipv6_batch_ms,
                holds_family(peers, false),
                elapsed_ms,
            ),
        }
    }

    /// The result of the lookup.
    pub open spec fn run(self) -> DhtLookupRun {
        let ipv4 = self.unique_peers.filter(|peer: PeerAddr| peer.is_ipv4()).len();
        DhtLookupRun {
            batch_count: self.batch_count,
            total_peers: self.total_peers,
            unique_peers: self.unique_peers.len() as usize,
            unique_ipv4_peers: ipv4 as usize,
            unique_ipv6_peers: (self.unique_peers.len() - ipv4) as usize,
            first_batch_ms: self.first_batch_ms,
            first_ipv4_batch_ms: self.first_ipv4_batch_ms,
            first_ipv6_batch_ms: self.first_ipv6_batch_ms,
        }
    }
}

impl View for LookupRunSummary {
    type V = SummaryView;

    open spec fn view(&self) -> SummaryView {
        SummaryView {
            batch_count: self.batch_count,
            total_peers: self.total_peers,
            unique_peers: self.unique_peers@,
            first_batch_ms: self.first_batch_ms,
            first_ipv4_batch_ms: self.first_ipv4_batch_ms,
            first_ipv6_batch_ms: self.first_ipv6_batch_ms,
        }
    }
}

impl LookupRunSummary {
    /// No peer is held twice.
    pub open spec fn wf(&self) -> bool {
        self.unique_peers.wf()
    }

    /// Nothing found yet.
    pub fn new() -> (summary: Self)
        ensures
            summary@ == (SummaryView {
                batch_count: 0,
                total_peers: 0,
                unique_peers: Set::empty(),
                first_batch_ms: None,
                first_ipv4_batch_ms: None,
                first_ipv6_batch_ms: None,
            }),
            summary.wf(),
    {
        LookupRunSummary {
            batch_count: 0,
            total_peers: 0,
            unique_peers: PeerSet::new(),
            first_batch_ms: None,
            first_ipv4_batch_ms: None,
            first_ipv6_batch_ms: None,
        }
    }

    /// Takes in a batch that came `elapsed_ms` milliseconds after the start.
    pub fn record_batch(&mut self, peers: &[PeerAddr], elapsed_ms: u64)
        requires
            old(self).wf(),
        ensures
            final(self)@ == old(self)@.with_batch(peers@, elapsed_ms),
            final(self).wf(),
    {
        self.batch_count = self.batch_count.saturating_add(1);
        self.total_peers = self.total_peers.saturating_add(peers.len());
        let mut i: usize = 0;
        while i < peers.len()
            invariant
                0 <= i <= peers@.len(),
                self.unique_peers == old(self).unique_peers,
                self.batch_count == old(self).batch_count.saturating_add(1),
                self.total_peers == old(self).total_peers.saturating_add(peers@.len() as usize),
                self.first_batch_ms == old(self).first_batch_ms,
                self.first_ipv4_batch_ms == first_time(
                    old(self).first_ipv4_batch_ms,
                    holds_family(peers@.take(i as int), true),
                    elapsed_ms,
                ),
                self.first_ipv6_batch_ms == first_time(
                    old(self).first_ipv6_batch_ms,
                    holds_family(peers@.take(i as int), false),
                    elapsed_ms,
                ),
            decreases peers@.len() - i,
        {
            proof {
                lemma_holds_family_step(peers@, i as int, true);
                lemma_holds_family_step(peers@, i as int, false);
            }
            if peers[i].is_ipv4() {
                if self.first_ipv4_batch_ms.is_none() {
                    self.first_ipv4_batch_ms = Some(elapsed_ms);
                }
            } else if self.first_ipv6_batch_ms.is_none() {
                self.first_ipv6_batch_ms = Some(elapsed_ms);
            }
            i = i + 1;
        }
        assert(peers@.take(i as int) =~= peers@);
        self.unique_peers.extend(peers);
        if self.first_batch_ms.is_none() {
            self.first_batch_ms = Some(elapsed_ms);
        }
    }

    /// The result of the lookup.
    pub fn finish(&self) -> (run: DhtLookupRun)
        requires
            self.wf(),
        ensures
            run == self@.run(),
    {
        let unique_peers: usize = self.unique_peers.len();
        let unique_ipv4_peers: usize = self.unique_peers.ipv4_len();
        DhtLookupRun {
            batch_count: self.batch_count,
            total_peers: self.total_peers,
            unique_peers,
            unique_ipv4_peers,
            unique_ipv6_peers: unique_peers - unique_ipv4_peers,
            first_batch_ms: self.first_batch_ms,
            first_ipv4_batch_ms: self.first_ipv4_batch_ms,
            first_ipv6_batch_ms: self.first_ipv6_batch_ms,
        }
    }
}

proof fn lemma_holds_family_step(peers: Seq<PeerAddr>, i: int, ipv4: bool)
    requires
        0 <= i < peers.len(),
    ensures
        holds_family(peers.take(i + 1), ipv4) == (holds_family(peers.take(i), ipv4)
            || peers[i].is_ipv4() == ipv4),
{
    let before = peers.take(i);
    let after = peers.take(i + 1);
    assert(after[i] == peers[i]);
    if holds_family(before, ipv4) {
        let j = choose|j: int|
            0 <= j < before.len() && (#[trigger] before[j]).is_ipv4() == ipv4;
        assert(after[j] == before[j]);
    }
    if holds_family(after, ipv4) {
        let j = choose|j: int| 0 <= j < after.len() && (#[trigger] after[j]).is_ipv4() == ipv4;
        if j < i {
            assert(before[j] == after[j]);
        }
    }
}

} // verus!
