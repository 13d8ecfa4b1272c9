use vstd::prelude::*;

use crate::clock::{elapsed, millis, Instant, MILLISECOND};
use crate::ids::{InfoHash, LookupId, PeerAddr};
use crate::limits::{
    DHT_DEMAND_LOOKUP_SLOT_COUNT, DHT_DEMAND_LOOKUP_SLOT_FILL_PER_TICK,
    DHT_DRAIN_LOOKUPS_PER_VIRTUAL_SLOT,
};
use crate::peers::PeerSet;
use crate::planner::counts::DemandSlotCounts;
use crate::slice::{DemandParkedSliceOutcome, DemandSliceClass, DemandSliceStopReason};
use crate::table::InfoHashMap;

verus! {

/// A running lookup for a demand: the ids of its parts, one for each address family.
#[derive(Debug)]
pub struct ActiveDemandLookup {
    pub lookup_ids: Vec<LookupId>,
    pub slice_class: DemandSliceClass,
}

/// A stopped lookup that still collects late answers.
#[derive(Debug)]
pub struct DrainingDemandLookup {
    pub lookup_ids: Vec<LookupId>,
    pub slice_class: DemandSliceClass,
    pub stop_reason: DemandSliceStopReason,
    pub started_at: Instant,
    pub total_peers: usize,
    pub initial_unique_peers: usize,
    pub unique_peers: PeerSet,
    pub deadline: Instant,
    pub no_late_yield_deadline: Instant,
    pub initial_inflight_queries: usize,
    pub score: i32,
}

/// The mathematical content of a drain.
pub struct DrainView {
    pub lookup_ids: Seq<LookupId>,
    pub slice_class: DemandSliceClass,
    pub stop_reason: DemandSliceStopReason,
    pub started_at: Instant,
    pub total_peers: usize,
    pub initial_unique_peers: usize,
    pub unique_peers: Set<PeerAddr>,
    pub deadline: Instant,
    pub no_late_yield_deadline: Instant,
    pub initial_inflight_queries: usize,
    pub score: i32,
}

impl View for DrainingDemandLookup {
    type V = DrainView;

    open spec fn view(&self) -> DrainView {
        DrainView {
            lookup_ids: self.lookup_ids@,
            slice_class: self.slice_class,
            stop_reason: self.stop_reason,
            started_at: self.started_at,
            total_peers: self.total_peers,
            initial_unique_peers: self.initial_unique_peers,
            unique_peers: self.unique_peers@,
            deadline: self.deadline,
            no_late_yield_deadline: self.no_late_yield_deadline,
            initial_inflight_queries: self.initial_inflight_queries,
            score: self.score,
        }
    }
}

impl DrainView {
    /// The drain after more peers have come in. Each counts for the total, a known one not again
    /// for the unique ones.
    pub open spec fn with_peers(self, peers: Seq<PeerAddr>) -> Self {
        DrainView {
            total_peers: self.total_peers.saturating_add(peers.len() as usize),
            unique_peers: self.unique_peers.union(peers.to_set()),
            ..self
        }
    }

    /// The unique peers that came in after the lookup was stopped.
    pub open spec fn late_peers(self) -> nat {
        if self.unique_peers.len() >= self.initial_unique_peers {
            (self.unique_peers.len() - self.initial_unique_peers) as nat
        } else {
            0
        }
    }
}

impl DrainingDemandLookup {
    /// No peer is held twice.
    pub open spec fn wf(&self) -> bool {
        self.unique_peers.wf()
    }

    /// Takes in more peers. Says how many of them were new.
    pub fn record_peers(&mut self, peers: &[PeerAddr]) -> (added: usize)
        requires
            old(self).wf(),
        ensures
            final(self)@ == old(self)@.with_peers(peers@),
            final(self).wf(),
            added == final(self)@.unique_peers.len() - old(self)@.unique_peers.len(),
    {
        let previous_unique_peers: usize = self.unique_peers.len();
        self.total_peers = self.total_peers.saturating_add(peers.len());
        self.unique_peers.extend(peers);
        let unique_peers: usize = self.unique_peers.len();
        proof {
            vstd::set_lib::lemma_len_subset(old(self)@.unique_peers, self@.unique_peers);
        }
        unique_peers - previous_unique_peers
    }

    pub fn unique_peer_count(&self) -> (count: usize)
        requires
            self.wf(),
        ensures
            count == self@.unique_peers.len(),
    {
        self.unique_peers.len()
    }

    pub fn late_unique_peer_count(&self) -> (count: usize)
        requires
            self.wf(),
        ensures
            count == self@.late_peers(),
    {
        self.unique_peer_count().saturating_sub(self.initial_unique_peers)
    }

    pub fn duration_ms(&self, now: Instant) -> (ms: u64)
        ensures
            ms == millis(elapsed(now, self.started_at)),
    {
        now.saturating_sub(self.started_at) / MILLISECOND
    }
}

/// The outcome of a drain.
#[derive(Clone, Copy, Debug, PartialEq, Eq, Structural)]
pub struct DrainedDemandOutcome {
    pub slice_class: DemandSliceClass,
    pub stop_reason: DemandSliceStopReason,
    pub total_peers: usize,
    pub unique_peers: usize,
    pub parked_outcome: Option<DemandParkedSliceOutcome>,
    pub drain_duration_ms: u64,
    pub finalized_after_deadline: bool,
    pub finalized_early_no_yield: bool,
}

/// The classes of running lookups, in the order of their keys.
pub open spec fn active_classes(
    keys: Seq<InfoHash>,
    active: Map<InfoHash, ActiveDemandLookup>,
) -> Seq<DemandSliceClass> {
    keys.map_values(|key: InfoHash| active[key].slice_class)
}

/// The classes of the drains, oldest drain first.
pub open spec fn draining_classes(draining: InfoHashMap<DrainingDemandLookup>) -> Seq<
    DemandSliceClass,
> {
    draining.keys().map_values(|key: InfoHash| draining@[key].slice_class)
}

pub fn active_demand_lookup_slot_count(
    demand_lookup_ids: &InfoHashMap<ActiveDemandLookup>,
) -> (count: usize)
    ensures
        count == demand_lookup_ids.keys().len(),
{
    demand_lookup_ids.len()
}

pub fn active_demand_lookup_slot_counts(
    demand_lookup_ids: &InfoHashMap<ActiveDemandLookup>,
) -> (counts: DemandSlotCounts)
    requires
        demand_lookup_ids.wf(),
    ensures
        counts == DemandSlotCounts::zero().recorded_all(active_classes(
            demand_lookup_ids.keys(),
            demand_lookup_ids@,
        )),
{
    let mut counts = DemandSlotCounts::default();
    let ghost classes = active_classes(
            demand_lookup_ids.keys(),
            demand_lookup_ids@,
        );
    let mut i: usize = 0;
    while i < demand_lookup_ids.len()
        invariant
            0 <= i <= classes.len(),
            demand_lookup_ids.wf(),
            classes == active_classes(
            demand_lookup_ids.keys(),
            demand_lookup_ids@,
        ),
            counts == DemandSlotCounts::zero().recorded_all(classes.take(i as int)),
        decreases classes.len() - i,
    {
        counts.record(demand_lookup_ids.value_at(i).slice_class);
        assert(classes.take(i + 1).drop_last() =~= classes.take(i as int));
        i = i + 1;
    }
    assert(classes.take(i as int) =~= classes);
    counts
}

pub fn draining_demand_slot_counts(
    draining_demands: &InfoHashMap<DrainingDemandLookup>,
) -> (counts: DemandSlotCounts)
    requires
        draining_demands.wf(),
    ensures
        counts == DemandSlotCounts::zero().recorded_all(draining_classes(*draining_demands)),
{
    let mut counts = DemandSlotCounts::default();
    let ghost classes = draining_classes(*draining_demands);
    let mut i: usize = 0;
    while i < draining_demands.len()
        invariant
            0 <= i <= classes.len(),
            draining_demands.wf(),
            classes == draining_classes(*draining_demands),
            counts == DemandSlotCounts::zero().recorded_all(classes.take(i as int)),
        decreases classes.len() - i,
    {
        counts.record(draining_demands.value_at(i).slice_class);
        assert(classes.take(i + 1).drop_last() =~= classes.take(i as int));
        i = i + 1;
    }
    assert(classes.take(i as int) =~= classes);
    counts
}

/// The slots that a number of drains take up: one for each group that shares a slot, a group that
/// is not full counted too. The number of drains is first cut off so that rounding up stays in
/// range.
pub open spec fn virtual_slots(draining: usize) -> usize {
    if draining == 0 {
        0
    } else {
        draining.saturating_add((DHT_DRAIN_LOOKUPS_PER_VIRTUAL_SLOT - 1) as usize)
            / DHT_DRAIN_LOOKUPS_PER_VIRTUAL_SLOT
    }
}

/// The lookups that one planning round may start: as many as there are free slots, up to a limit
/// per round.
pub open spec fn launch_budget(active: usize, draining: usize) -> usize {
    let free = DHT_DEMAND_LOOKUP_SLOT_COUNT.saturating_sub(
        active.saturating_add(virtual_slots(draining)),
    );
    if free < DHT_DEMAND_LOOKUP_SLOT_FILL_PER_TICK {
        free
    } else {
        DHT_DEMAND_LOOKUP_SLOT_FILL_PER_TICK
    }
}

pub fn drain_virtual_slot_count(draining_lookup_count: usize) -> (slots: usize)
    ensures
        slots == virtual_slots(draining_lookup_count),
{
    if draining_lookup_count == 0 {
        0
    } else {
        draining_lookup_count.saturating_add(DHT_DRAIN_LOOKUPS_PER_VIRTUAL_SLOT - 1)
            / DHT_DRAIN_LOOKUPS_PER_VIRTUAL_SLOT
    }
}

pub fn demand_lookup_launch_budget(
    demand_lookup_ids: &InfoHashMap<ActiveDemandLookup>,
    draining_lookup_count: usize,
) -> (budget: usize)
    ensures
        budget == launch_budget(
            demand_lookup_ids.keys().len() as usize,
            draining_lookup_count,
        ),
{
    let consumed_slots: usize = active_demand_lookup_slot_count(demand_lookup_ids).saturating_add(
        drain_virtual_slot_count(draining_lookup_count),
    );
    let available_slots: usize = DHT_DEMAND_LOOKUP_SLOT_COUNT.saturating_sub(consumed_slots);
    if available_slots < DHT_DEMAND_LOOKUP_SLOT_FILL_PER_TICK {
        available_slots
    } else {
        DHT_DEMAND_LOOKUP_SLOT_FILL_PER_TICK
    }
}

/// One more drain takes up at most one more slot.
pub proof fn one_drain_takes_at_most_one_slot(draining: usize)
    requires
        draining < usize::MAX,
    ensures
        virtual_slots(draining) <= virtual_slots((draining + 1) as usize) <= virtual_slots(draining)
            + 1,
{
}

/// The lookups that one planning round starts fit into the slots beside those that run and drain.
pub proof fn launch_budget_fits_slots(active: usize, draining: usize)
    requires
        active + virtual_slots(draining) <= DHT_DEMAND_LOOKUP_SLOT_COUNT,
    ensures
        active + virtual_slots(draining) + launch_budget(active, draining)
            <= DHT_DEMAND_LOOKUP_SLOT_COUNT,
        launch_budget(active, draining) <= DHT_DEMAND_LOOKUP_SLOT_FILL_PER_TICK,
{
}

} // verus!
