use vstd::prelude::*;

use crate::ids::InfoHash;
use crate::limits::DHT_DEMAND_LOOKUP_SLOT_COUNT;
use crate::planner::counts::{recorded_all_counts, DemandSlotCounts};
use crate::planner::invariants::{
    class_load, demands_are_wanted, is_busy, is_consistent, is_marked, marks_have_work,
    tables_match, work_is_exclusive, work_is_marked,
};
use crate::planner::lookups::{
    active_classes, active_demand_lookup_slot_counts, drain_virtual_slot_count, virtual_slots,
};
use crate::planner::model::{DemandPlannerModel, PlannerView};
use crate::slice::{demand_lookup_class_slot_cap, DemandSliceClass};
use crate::table::InfoHashMap;

verus! {

/// What is wrong with the planner's state.
#[derive(Clone, Copy, Debug, PartialEq, Eq, Structural)]
pub enum DemandPlannerViolation {
    /// Something runs for a demand that is not marked, or not there.
    UnmarkedWork,
    /// A demand is marked for which nothing runs.
    IdleMark,
    /// A demand has no subscriber.
    UnwantedDemand,
    /// A demand is in two stages at once.
    OverlappingWork,
    /// More runs than there are slots for.
    SlotsExceeded,
}

/// Whether the running lookups and the drains fit into the slots.
pub open spec fn running_fits(planner: PlannerView) -> bool {
    let counts = DemandSlotCounts::zero().recorded_all(
        active_classes(planner.active_keys, planner.active),
    );
    &&& counts.awaiting_metadata <= DemandSliceClass::AwaitingMetadata.slot_cap()
    &&& counts.no_connected_peers <= DemandSliceClass::NoConnectedPeers.slot_cap()
    &&& counts.routine_refresh <= DemandSliceClass::RoutineRefresh.slot_cap()
    &&& (planner.active_keys.len() as usize).saturating_add(
        virtual_slots(planner.drain_keys.len() as usize),
    ) <= DHT_DEMAND_LOOKUP_SLOT_COUNT
}

/// The first thing that is wrong with the planner's state, if anything is.
pub open spec fn first_violation(planner: PlannerView) -> Option<DemandPlannerViolation> {
    if !work_is_marked(planner) {
        Some(DemandPlannerViolation::UnmarkedWork)
    } else if !marks_have_work(planner, None) {
        Some(DemandPlannerViolation::IdleMark)
    } else if !demands_are_wanted(planner) {
        Some(DemandPlannerViolation::UnwantedDemand)
    } else if !work_is_exclusive(planner) {
        Some(DemandPlannerViolation::OverlappingWork)
    } else if !running_fits(planner) {
        Some(DemandPlannerViolation::SlotsExceeded)
    } else {
        None
    }
}

impl DemandPlannerModel {
    /// Whether a demand is marked as being looked up.
    fn is_marked(&self, info_hash: InfoHash) -> (marked: bool)
        ensures
            marked == is_marked(self@, info_hash),
    {
        match self.scheduler.entries.get(&info_hash) {
            Some(entry) => entry.in_progress,
            None => false,
        }
    }

    /// Whether a lookup runs, drains, starts or is being parked for a demand.
    fn is_busy(&self, info_hash: InfoHash) -> (busy: bool)
        ensures
            busy == is_busy(self@, info_hash),
    {
        self.active.contains_key(&info_hash) || self.draining_demands.contains_key(&info_hash)
            || self.pending_starts.contains_key(&info_hash) || self.pending_parks.contains_key(
            &info_hash,
        )
    }

    /// Whether every demand in a table is marked.
    fn all_marked<V>(&self, table: &InfoHashMap<V>) -> (all: bool)
        ensures
            all == (forall|key: InfoHash| #[trigger]
                table@.contains_key(key) ==> is_marked(self@, key)),
    {
        let mut i: usize = 0;
        proof {
            table.lemma_domain();
        }
        while i < table.len()
            invariant
                0 <= i <= table.keys().len(),
                forall|j: int| 0 <= j < i ==> is_marked(self@, #[trigger] table.keys()[j]),
            decreases table.keys().len() - i,
        {
            let key = table.key_at(i);
            if !self.is_marked(key) {
                return false;
            }
            i = i + 1;
        }
        proof {
            assert forall|key: InfoHash| #[trigger] table@.contains_key(key) implies is_marked(
                self@,
                key,
            ) by {
                assert(table.keys()[table.keys().index_of(key)] == key);
            }
        }
        true
    }

    fn check_work_is_marked(&self) -> (holds: bool)
        ensures
            holds == work_is_marked(self@),
    {
        let active = self.all_marked(&self.active);
        let draining = self.all_marked(&self.draining_demands);
        let starts = self.all_marked(&self.pending_starts);
        let parks = self.all_marked(&self.pending_parks);
        proof {
            if work_is_marked(self@) {
                assert forall|key: InfoHash| #[trigger] self.active@.contains_key(key) implies
                    is_marked(self@, key) by {
                    assert(is_busy(self@, key));
                }
                assert forall|key: InfoHash| #[trigger]
                    self.draining_demands@.contains_key(key) implies is_marked(self@, key) by {
                    assert(self@.drains.contains_key(key));
                    assert(is_busy(self@, key));
                }
                assert forall|key: InfoHash| #[trigger]
                    self.pending_starts@.contains_key(key) implies is_marked(self@, key) by {
                    assert(is_busy(self@, key));
                }
                assert forall|key: InfoHash| #[trigger]
                    self.pending_parks@.contains_key(key) implies is_marked(self@, key) by {
                    assert(is_busy(self@, key));
                }
            }
            if active && draining && starts && parks {
                assert forall|key: InfoHash| #[trigger] is_busy(self@, key) implies is_marked(
                    self@,
                    key,
                ) by {
                    if self@.drains.contains_key(key) {
                        assert(self.draining_demands@.contains_key(key));
                    }
                }
            }
        }
        active && draining && starts && parks
    }

    fn check_marks_have_work(&self) -> (holds: bool)
        ensures
            holds == marks_have_work(self@, None),
    {
        let mut i: usize = 0;
        let ghost keys = self.scheduler.entries.keys();
        proof {
            self.scheduler.entries.lemma_domain();
        }
        while i < self.scheduler.entries.len()
            invariant
                0 <= i <= keys.len(),
                keys == self.scheduler.entries.keys(),
                forall|j: int|
                    0 <= j < i ==> (is_marked(self@, #[trigger] keys[j]) ==> is_busy(
                        self@,
                        keys[j],
                    )),
            decreases keys.len() - i,
        {
            let key = self.scheduler.entries.key_at(i);
            if self.is_marked(key) && !self.is_busy(key) {
                assert(is_marked(self@, key) && Some(key) != None::<InfoHash>);
                return false;
            }
            i = i + 1;
        }
        proof {
            assert forall|key: InfoHash| #[trigger]
                is_marked(self@, key) && Some(key) != None::<InfoHash> implies is_busy(
                self@,
                key,
            ) by {
                assert(keys[keys.index_of(key)] == key);
            }
        }
        true
    }

    fn check_demands_are_wanted(&self) -> (holds: bool)
        requires
            self.wf(),
        ensures
            holds == demands_are_wanted(self@),
    {
        let mut i: usize = 0;
        let ghost keys = self.scheduler.entries.keys();
        proof {
            self.scheduler.entries.lemma_domain();
        }
        while i < self.scheduler.entries.len()
            invariant
                0 <= i <= keys.len(),
                self.wf(),
                keys == self.scheduler.entries.keys(),
                forall|j: int|
                    0 <= j < i ==> self@.entries[#[trigger] keys[j]].subscriber_count > 0,
            decreases keys.len() - i,
        {
            let entry = self.scheduler.entries.value_at(i);
            if entry.subscriber_count == 0 {
                assert(self@.entries.contains_key(keys[i as int]));
                return false;
            }
            i = i + 1;
        }
        proof {
            assert forall|key: InfoHash| #[trigger] self@.entries.contains_key(key) implies
                self@.entries[key].subscriber_count > 0 by {
                assert(keys[keys.index_of(key)] == key);
            }
        }
        true
    }

    fn check_work_is_exclusive(&self) -> (holds: bool)
        ensures
            holds == work_is_exclusive(self@),
    {
        proof {
            self.active.lemma_domain();
            self.pending_starts.lemma_domain();
        }
        let mut i: usize = 0;
        while i < self.active.len()
            invariant
                0 <= i <= self.active.keys().len(),
                forall|j: int|
                    0 <= j < i ==> {
                        let key = #[trigger] self.active.keys()[j];
                        !self@.drains.contains_key(key) && !self@.pending_starts.contains_key(key)
                            && !self@.pending_parks.contains_key(key)
                    },
            decreases self.active.keys().len() - i,
        {
            let key = self.active.key_at(i);
            if self.draining_demands.contains_key(&key) || self.pending_starts.contains_key(&key)
                || self.pending_parks.contains_key(&key) {
                assert(self@.active.contains_key(key));
                return false;
            }
            i = i + 1;
        }
        proof {
            assert forall|key: InfoHash| #[trigger] self@.active.contains_key(key) implies
                !self@.drains.contains_key(key) && !self@.pending_starts.contains_key(key)
                && !self@.pending_parks.contains_key(key) by {
                assert(self.active.keys()[self.active.keys().index_of(key)] == key);
            }
        }
        let mut next: usize = 0;
        while next < self.pending_starts.len()
            invariant
                0 <= next <= self.pending_starts.keys().len(),
                forall|j: int|
                    0 <= j < next ==> {
                        let key = #[trigger] self.pending_starts.keys()[j];
                        !self@.drains.contains_key(key) && !self@.pending_parks.contains_key(key)
                    },
            decreases self.pending_starts.keys().len() - next,
        {
            let key = self.pending_starts.key_at(next);
            if self.draining_demands.contains_key(&key) || self.pending_parks.contains_key(&key) {
                assert(self@.pending_starts.contains_key(key));
                return false;
            }
            next = next + 1;
        }
        proof {
            assert forall|key: InfoHash| #[trigger] self@.pending_starts.contains_key(key) implies
                !self@.drains.contains_key(key) && !self@.pending_parks.contains_key(key) by {
                assert(self.pending_starts.keys()[self.pending_starts.keys().index_of(key)]
                    == key);
            }
        }
        true
    }

    fn check_running_fits(&self) -> (holds: bool)
        requires
            self.wf(),
        ensures
            holds == running_fits(self@),
    {
        let counts = active_demand_lookup_slot_counts(&self.active);
        let slots: usize = drain_virtual_slot_count(self.draining_demands.len());
        counts.awaiting_metadata <= demand_lookup_class_slot_cap(
            DemandSliceClass::AwaitingMetadata,
        ) && counts.no_connected_peers <= demand_lookup_class_slot_cap(
            DemandSliceClass::NoConnectedPeers,
        ) && counts.routine_refresh <= demand_lookup_class_slot_cap(
            DemandSliceClass::RoutineRefresh,
        ) && self.active.len().saturating_add(slots) <= DHT_DEMAND_LOOKUP_SLOT_COUNT
    }
}

/// Checks the planner's state, and names the first thing that is wrong with it.
pub fn check_demand_planner_invariants(model: &DemandPlannerModel) -> (result: Result<
    (),
    DemandPlannerViolation,
>)
    requires
        model.wf(),
    ensures
        result == match first_violation(model@) {
            Some(violation) => Err(violation),
            None => Ok(()),
        },
{
    if !model.check_work_is_marked() {
        Err(DemandPlannerViolation::UnmarkedWork)
    } else if !model.check_marks_have_work() {
        Err(DemandPlannerViolation::IdleMark)
    } else if !model.check_demands_are_wanted() {
        Err(DemandPlannerViolation::UnwantedDemand)
    } else if !model.check_work_is_exclusive() {
        Err(DemandPlannerViolation::OverlappingWork)
    } else if !model.check_running_fits() {
        Err(DemandPlannerViolation::SlotsExceeded)
    } else {
        Ok(())
    }
}

/// A consistent planner passes the check.
pub proof fn consistent_planner_has_no_violation(planner: PlannerView)
    requires
        is_consistent(planner),
    ensures
        first_violation(planner).is_none(),
{
    let classes = active_classes(planner.active_keys, planner.active);
    recorded_all_counts(DemandSlotCounts::zero(), classes, DemandSliceClass::AwaitingMetadata);
    recorded_all_counts(DemandSlotCounts::zero(), classes, DemandSliceClass::NoConnectedPeers);
    recorded_all_counts(DemandSlotCounts::zero(), classes, DemandSliceClass::RoutineRefresh);
    assert(class_load(planner, DemandSliceClass::AwaitingMetadata)
        <= DemandSliceClass::AwaitingMetadata.slot_cap());
    assert(class_load(planner, DemandSliceClass::NoConnectedPeers)
        <= DemandSliceClass::NoConnectedPeers.slot_cap());
    assert(class_load(planner, DemandSliceClass::RoutineRefresh)
        <= DemandSliceClass::RoutineRefresh.slot_cap());
}

/// The tables of a planner's model match their keys.
pub proof fn model_tables_match(model: DemandPlannerModel)
    requires
        model.wf(),
    ensures
        tables_match(model@),
{
    model.scheduler.entries.lemma_domain();
    model.active.lemma_domain();
    model.draining_demands.lemma_domain();
    model.pending_starts.lemma_domain();
    model.pending_parks.lemma_domain();
    assert(model@.drains.dom() =~= model.draining_demands@.dom());
}

} // verus!
