use vstd::prelude::*;

use crate::clock::Instant;
use crate::ids::InfoHash;
use crate::limits::{
    DHT_AWAITING_METADATA_REFRESH_INTERVAL, DHT_NO_CONNECTED_PEERS_BASE_INTERVAL,
    DHT_NO_CONNECTED_PEERS_MAX_INTERVAL, DHT_ROUTINE_LOOKUP_REFRESH_INTERVAL,
};
use crate::planner::budget::DemandPlannerBudget;
use crate::planner::crawl::DemandCrawlState;
use crate::planner::drain::{drains, drains_wf};
use crate::planner::history::DemandPlannerState;
use crate::planner::lookups::{ActiveDemandLookup, DrainView, DrainingDemandLookup};
use crate::planner::probe::DemandPlannerIdleSpeedProbe;
use crate::scheduler::{
    snapshot_of, DemandEntry, DemandEntrySnapshot, DemandIntervals, DemandScheduler,
};
use crate::slice::DemandSliceClass;
use crate::table::InfoHashMap;

verus! {

/// The state of the planner: what is wanted, what runs, and what is remembered.
#[derive(Debug)]
pub struct DemandPlannerModel {
    pub scheduler: DemandScheduler,
    pub active: InfoHashMap<ActiveDemandLookup>,
    pub pending_starts: InfoHashMap<DemandSliceClass>,
    pub pending_parks: InfoHashMap<DemandSliceClass>,
    pub parked_crawls: InfoHashMap<DemandCrawlState>,
    pub draining_demands: InfoHashMap<DrainingDemandLookup>,
    pub state: InfoHashMap<DemandPlannerState>,
    pub budget: DemandPlannerBudget,
    pub idle_speed_probe: DemandPlannerIdleSpeedProbe,
}

/// The mathematical content of the planner's state.
#[verifier::ext_equal]
pub struct PlannerView {
    /// The demands, and their keys in the order of registration.
    pub entries: Map<InfoHash, DemandEntry>,
    pub entry_keys: Seq<InfoHash>,
    pub intervals: DemandIntervals,
    /// The running lookups, and their keys in the order of their start.
    pub active: Map<InfoHash, ActiveDemandLookup>,
    pub active_keys: Seq<InfoHash>,
    pub pending_starts: Map<InfoHash, DemandSliceClass>,
    pub pending_parks: Map<InfoHash, DemandSliceClass>,
    pub parked_crawls: Map<InfoHash, DemandCrawlState>,
    /// The drains, and their keys in the order of their start.
    pub drains: Map<InfoHash, DrainView>,
    pub drain_keys: Seq<InfoHash>,
    pub history: Map<InfoHash, DemandPlannerState>,
    pub budget: DemandPlannerBudget,
    pub probe: DemandPlannerIdleSpeedProbe,
}

impl View for DemandPlannerModel {
    type V = PlannerView;

    open spec fn view(&self) -> PlannerView {
        PlannerView {
            entries: self.scheduler@,
            entry_keys: self.scheduler.entries.keys(),
            intervals: self.scheduler.intervals,
            active: self.active@,
            active_keys: self.active.keys(),
            pending_starts: self.pending_starts@,
            pending_parks: self.pending_parks@,
            parked_crawls: self.parked_crawls@,
            drains: drains(self.draining_demands),
            drain_keys: self.draining_demands.keys(),
            history: self.state@,
            budget: self.budget,
            probe: self.idle_speed_probe,
        }
    }
}

impl PlannerView {
    /// The entry under a key.
    pub open spec fn snapshot(self, info_hash: InfoHash) -> Option<DemandEntrySnapshot> {
        if self.entries.contains_key(info_hash) {
            Some(snapshot_of(info_hash, self.entries[info_hash]))
        } else {
            None
        }
    }

    /// The entries with their keys, in the order of registration.
    pub open spec fn snapshots(self) -> Seq<DemandEntrySnapshot> {
        self.entry_keys.map_values(|key: InfoHash| snapshot_of(key, self.entries[key]))
    }
}

/// Whether an entry with subscribers waits for its metadata.
pub open spec fn waits_for_metadata() -> spec_fn(DemandEntrySnapshot) -> bool {
    |snapshot: DemandEntrySnapshot|
        snapshot.demand.awaiting_metadata && snapshot.subscriber_count > 0
}

/// The pauses between lookups that the planner goes by.
pub open spec fn planner_intervals() -> DemandIntervals {
    DemandIntervals {
        routine: DHT_ROUTINE_LOOKUP_REFRESH_INTERVAL,
        no_connected_peers_base: DHT_NO_CONNECTED_PEERS_BASE_INTERVAL,
        no_connected_peers_max: DHT_NO_CONNECTED_PEERS_MAX_INTERVAL,
        awaiting_metadata: DHT_AWAITING_METADATA_REFRESH_INTERVAL,
    }
}

/// A planner that knows of nothing.
pub open spec fn empty_planner(now: Instant) -> PlannerView {
    PlannerView {
        entries: Map::empty(),
        entry_keys: seq![],
        intervals: planner_intervals(),
        active: Map::empty(),
        active_keys: seq![],
        pending_starts: Map::empty(),
        pending_parks: Map::empty(),
        parked_crawls: Map::empty(),
        drains: Map::empty(),
        drain_keys: seq![],
        history: Map::empty(),
        budget: DemandPlannerBudget::full(now),
        probe: DemandPlannerIdleSpeedProbe::at_rest(),
    }
}

impl DemandPlannerModel {
    /// No key occurs twice in a table, and no drain holds a peer twice.
    pub open spec fn wf(&self) -> bool {
        &&& self.scheduler.wf()
        &&& self.active.wf()
        &&& self.pending_starts.wf()
        &&& self.pending_parks.wf()
        &&& self.parked_crawls.wf()
        &&& drains_wf(self.draining_demands)
        &&& self.state.wf()
    }

    /// A planner that knows of nothing.
    pub fn new(now: Instant) -> (model: Self)
        ensures
            model@ == empty_planner(now),
            model.wf(),
    {
        let model = DemandPlannerModel {
            scheduler: DemandScheduler::new(
                DHT_ROUTINE_LOOKUP_REFRESH_INTERVAL,
                DHT_NO_CONNECTED_PEERS_BASE_INTERVAL,
                DHT_NO_CONNECTED_PEERS_MAX_INTERVAL,
                DHT_AWAITING_METADATA_REFRESH_INTERVAL,
            ),
            active: InfoHashMap::new(),
            pending_starts: InfoHashMap::new(),
            pending_parks: InfoHashMap::new(),
            parked_crawls: InfoHashMap::new(),
            draining_demands: InfoHashMap::new(),
            state: InfoHashMap::new(),
            budget: DemandPlannerBudget::new(now),
            idle_speed_probe: DemandPlannerIdleSpeedProbe::default(),
        };
        assert(model@ =~= empty_planner(now));
        model
    }

    pub fn has_draining_demands(&self) -> (draining: bool)
        ensures
            draining == (self@.drain_keys.len() > 0),
            draining == (self@.drains != Map::<InfoHash, DrainView>::empty()),
    {
        proof {
            self.draining_demands.lemma_domain();
            if self@.drain_keys.len() == 0 {
                assert(self@.drains =~= Map::<InfoHash, DrainView>::empty());
            } else {
                assert(self.draining_demands.keys().contains(self@.drain_keys[0]));
                assert(self@.drains.contains_key(self@.drain_keys[0]));
            }
        }
        !self.draining_demands.is_empty()
    }

    /// The number of demands that wait for their metadata.
    pub fn metadata_waiter_count(&self) -> (count: usize)
        requires
            self.wf(),
        ensures
            count == self@.snapshots().filter(waits_for_metadata()).len(),
    {
        let snapshots = self.scheduler.entry_snapshots();
        let mut count: usize = 0;
        let mut i: usize = 0;
        proof {
            reveal(Seq::filter);
            assert(snapshots@ =~= self@.snapshots());
            assert(snapshots@.take(0).filter(waits_for_metadata()).len() == 0);
        }
        while i < snapshots.len()
            invariant
                0 <= i <= snapshots@.len(),
                count <= i,
                count == snapshots@.take(i as int).filter(waits_for_metadata()).len(),
            decreases snapshots@.len() - i,
        {
            proof {
                reveal(Seq::filter);
                assert(snapshots@.take(i + 1).drop_last() =~= snapshots@.take(i as int));
            }
            if snapshots[i].demand.is_awaiting_metadata() && snapshots[i].subscriber_count > 0 {
                count = count + 1;
            }
            i = i + 1;
        }
        assert(snapshots@.take(i as int) =~= snapshots@);
        count
    }

    /// The entry under a key.
    pub fn entry_snapshot(&self, info_hash: InfoHash) -> (snapshot: Option<DemandEntrySnapshot>)
        ensures
            snapshot == self@.snapshot(info_hash),
    {
        self.scheduler.entry_snapshot(info_hash)
    }
}

} // verus!
