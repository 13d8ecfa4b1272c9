use vstd::prelude::*;

use crate::clock::Instant;
use crate::ids::{AddressFamily, InfoHash, LookupId};
use crate::peers::PeerSet;
use crate::planner::actions::DemandDrainAdmissionSnapshot;
use crate::planner::crawl::LookupState;
use crate::planner::drain::{
    admission_of, demand_drain_admission_snapshot, drain_lookup_ids, drain_turn,
    drained_demand_lookup_runtime_ready, drains, finalize_drained_demand_lookup, finalize_turn,
    ledger_view, park_lookup_ids, parked_lookups, runtime_ready_for, take_parked_family_state,
    taken_parked,
};
use crate::planner::lookups::DrainedDemandOutcome;
use crate::planner::metrics::DemandSliceMetrics;
use crate::planner::model::{DemandPlannerModel, PlannerView};
use crate::runtime::ledger::LookupLedger;
use crate::slice::{DemandParkedSliceOutcome, DemandSliceClass, DemandSliceStopReason};
use crate::table::{keys_after_remove, InfoHashMap};

verus! {

impl DemandPlannerModel {
    /// What the runtime says of each drain.
    pub fn drain_runtime_readiness(&self, active_runtime: &Option<LookupLedger>) -> (readiness:
        InfoHashMap<bool>)
        requires
            self.wf(),
        ensures
            readiness.wf(),
            readiness@.dom() == self@.drains.dom(),
            forall|key: InfoHash| #[trigger]
                readiness@.contains_key(key) ==> readiness@[key] == runtime_ready_for(
                    ledger_view(*active_runtime),
                    self@.drains[key],
                ),
    {
        let mut readiness: InfoHashMap<bool> = InfoHashMap::new();
        let ghost keys = self.draining_demands.keys();
        let mut i: usize = 0;
        proof {
            self.draining_demands.lemma_domain();
        }
        while i < self.draining_demands.len()
            invariant
                0 <= i <= keys.len(),
                self.wf(),
                keys == self.draining_demands.keys(),
                readiness.wf(),
                forall|key: InfoHash| #[trigger]
                    readiness@.contains_key(key) <==> exists|j: int|
                        0 <= j < i && #[trigger] keys[j] == key,
                forall|key: InfoHash| #[trigger]
                    readiness@.contains_key(key) ==> readiness@[key] == runtime_ready_for(
                        ledger_view(*active_runtime),
                        self@.drains[key],
                    ),
            decreases keys.len() - i,
        {
            let key = self.draining_demands.key_at(i);
            let drain = self.draining_demands.value_at(i);
            let ready = drained_demand_lookup_runtime_ready(active_runtime, drain);
            let ghost before = readiness@;
            readiness.insert(key, ready);
            proof {
                assert(self@.drains[key] == drain@);
                assert forall|other: InfoHash| #[trigger]
                    readiness@.contains_key(other) <==> exists|j: int|
                        0 <= j < i + 1 && #[trigger] keys[j] == other by {
                    if other == key {
                        assert(keys[i as int] == other);
                    } else {
                        assert(readiness@.contains_key(other) == before.contains_key(other));
                    }
                }
            }
            i = i + 1;
        }
        proof {
            assert forall|key: InfoHash| #[trigger]
                readiness@.dom().contains(key) == self@.drains.dom().contains(key) by {
                if self.draining_demands@.contains_key(key) {
                    assert(keys[keys.index_of(key)] == key);
                }
                if readiness@.contains_key(key) {
                    assert(keys.contains(key));
                }
            }
            assert(readiness@.dom() =~= self@.drains.dom());
        }
        readiness
    }

    /// Takes the parked lookup of an address family out, to resume it.
    pub fn take_parked_family_state(
        &mut self,
        slice_metrics: &mut DemandSliceMetrics,
        record_metrics: bool,
        info_hash: InfoHash,
        family: AddressFamily,
        slice_class: DemandSliceClass,
        now: Instant,
    ) -> (state: Option<LookupState>)
        requires
            old(self).wf(),
        ensures
            ({
                let (expected, crawls, metrics) = taken_parked(
                    old(self)@.parked_crawls,
                    *old(slice_metrics),
                    record_metrics,
                    info_hash,
                    family,
                    slice_class,
                    now,
                );
                &&& state == expected
                &&& final(self)@ == (PlannerView { parked_crawls: crawls, ..old(self)@ })
                &&& *final(slice_metrics) == metrics
            }),
            final(self).wf(),
    {
        take_parked_family_state(
            &mut self.parked_crawls,
            slice_metrics,
            record_metrics,
            info_hash,
            family,
            slice_class,
            now,
        )
    }

    /// Parks lookups.
    pub fn park_lookup_ids(
        &mut self,
        active_runtime: &mut Option<LookupLedger>,
        info_hash: InfoHash,
        slice_class: DemandSliceClass,
        stop_reason: Option<DemandSliceStopReason>,
        unique_peers: usize,
        lookup_ids: Vec<LookupId>,
        now: Instant,
    ) -> (outcome: Option<DemandParkedSliceOutcome>)
        requires
            old(self).wf(),
        ensures
            ({
                let parking = parked_lookups(
                    ledger_view(*old(active_runtime)),
                    old(self)@.parked_crawls,
                    info_hash,
                    slice_class,
                    stop_reason,
                    unique_peers as nat,
                    lookup_ids@,
                    now,
                );
                &&& outcome == parking.outcome
                &&& final(self)@ == (PlannerView {
                    parked_crawls: parking.parked_crawls,
                    ..old(self)@
                })
                &&& ledger_view(*final(active_runtime)) == parking.ledger
            }),
            final(self).wf(),
    {
        park_lookup_ids(
            active_runtime,
            &mut self.parked_crawls,
            info_hash,
            slice_class,
            stop_reason,
            unique_peers,
            lookup_ids,
            now,
        )
    }

    /// Drains a stopped lookup, or parks it at once.
    pub fn drain_lookup_ids(
        &mut self,
        active_runtime: &mut Option<LookupLedger>,
        info_hash: InfoHash,
        slice_class: DemandSliceClass,
        stop_reason: DemandSliceStopReason,
        total_peers: usize,
        unique_peers: PeerSet,
        lookup_ids: Vec<LookupId>,
        now: Instant,
    ) -> (outcome: Option<DemandParkedSliceOutcome>)
        requires
            old(self).wf(),
            unique_peers.wf(),
        ensures
            ({
                let turn = drain_turn(
                    ledger_view(*old(active_runtime)),
                    old(self)@.parked_crawls,
                    old(self)@.drains,
                    old(self)@.drain_keys,
                    info_hash,
                    slice_class,
                    stop_reason,
                    total_peers,
                    unique_peers@,
                    lookup_ids@,
                    now,
                );
                &&& outcome == turn.outcome
                &&& final(self)@ == (PlannerView {
                    parked_crawls: turn.parked_crawls,
                    drains: turn.drains,
                    drain_keys: turn.drain_keys,
                    ..old(self)@
                })
                &&& ledger_view(*final(active_runtime)) == turn.ledger
            }),
            final(self).wf(),
    {
        drain_lookup_ids(
            active_runtime,
            &mut self.parked_crawls,
            &mut self.draining_demands,
            info_hash,
            slice_class,
            stop_reason,
            total_peers,
            unique_peers,
            lookup_ids,
            now,
        )
    }

    /// How the drain of a demand began.
    pub fn drain_admission_snapshot(&self, info_hash: InfoHash) -> (admission: Option<
        DemandDrainAdmissionSnapshot,
    >)
        ensures
            admission == if self@.drains.contains_key(info_hash) {
                Some(admission_of(self@.drains[info_hash]))
            } else {
                None
            },
    {
        match self.draining_demands.get(&info_hash) {
            Some(drain) => Some(demand_drain_admission_snapshot(drain)),
            None => None,
        }
    }

    /// Brings the drain of a demand to its end, where it is ready or forced.
    pub fn finalize_drained_lookup(
        &mut self,
        active_runtime: &mut Option<LookupLedger>,
        info_hash: InfoHash,
        force: bool,
        now: Instant,
    ) -> (outcome: Option<DrainedDemandOutcome>)
        requires
            old(self).wf(),
        ensures
            ({
                let turn = finalize_turn(
                    ledger_view(*old(active_runtime)),
                    old(self)@.parked_crawls,
                    old(self)@.drains,
                    info_hash,
                    force,
                    now,
                );
                &&& outcome == turn.outcome
                &&& final(self)@ == (PlannerView {
                    parked_crawls: turn.parked_crawls,
                    drains: turn.drains,
                    drain_keys: if outcome.is_some() {
                        keys_after_remove(old(self)@.drain_keys, info_hash)
                    } else {
                        old(self)@.drain_keys
                    },
                    ..old(self)@
                })
                &&& ledger_view(*final(active_runtime)) == turn.ledger
            }),
            final(self).wf(),
    {
        finalize_drained_demand_lookup(
            active_runtime,
            &mut self.parked_crawls,
            &mut self.draining_demands,
            info_hash,
            force,
            now,
        )
    }

    /// Notes that the running lookup of a demand has one more part, where one runs.
    pub fn extend_active_lookup(&mut self, info_hash: InfoHash, lookup_id: LookupId)
        requires
            old(self).wf(),
        ensures
            lookup_extended(old(self)@, final(self)@, info_hash, lookup_id),
            final(self).wf(),
    {
        let ghost before = self@;
        if let Some(active) = self.active.get_mut(&info_hash) {
            active.lookup_ids.push(lookup_id);
        }
        proof {
            assert(self@.active.dom() =~= before.active.dom());
            assert(self@ =~= (PlannerView { active: self@.active, ..before }));
        }
    }
}

/// Whether the running lookup of a demand has one more part, and nothing else has changed. Where no
/// lookup runs, nothing has changed at all.
pub open spec fn lookup_extended(
    before: PlannerView,
    after: PlannerView,
    info_hash: InfoHash,
    lookup_id: LookupId,
) -> bool {
    &&& after == (PlannerView { active: after.active, ..before })
    &&& after.active.dom() == before.active.dom()
    &&& forall|key: InfoHash| #[trigger]
        before.active.contains_key(key) && key != info_hash ==> after.active[key]
            == before.active[key]
    &&& before.active.contains_key(info_hash) ==> after.active[info_hash].slice_class
        == before.active[info_hash].slice_class && after.active[info_hash].lookup_ids@
        == before.active[info_hash].lookup_ids@.push(lookup_id)
}

} // verus!
