use vstd::prelude::*;

use crate::clock::Instant;
use crate::demand::{DhtDemandMetrics, DhtDemandState};
use crate::ids::{InfoHash, LookupId, PeerAddr};
use crate::peers::PeerSet;
use crate::planner::counts::{DemandPlannerSelectionStats, DemandSlotCounts};
use crate::planner::lookups::DrainedDemandOutcome;
use crate::planner::plan::DemandLookupPlan;
use crate::scheduler::{DemandEntrySnapshot, DemandFinishMode, DueDemandCandidate};
use crate::slice::{
    DemandParkedSliceOutcome, DemandSelectionReason, DemandSliceClass, DemandSliceStopReason,
};
use crate::table::InfoHashMap;

verus! {

/// What happened, as far as it concerns the planner.
#[derive(Debug)]
#[allow(inconsistent_fields)]
pub enum DemandPlannerAction<'a> {
    RuntimeReset { now: Instant },
    DemandRegistered { info_hash: InfoHash, demand: DhtDemandState, now: Instant },
    DemandUpdated { info_hash: InfoHash, demand: DhtDemandState, now: Instant },
    DemandMetricsUpdated { info_hash: InfoHash, metrics: DhtDemandMetrics },
    DemandSubscriberRemoved { info_hash: InfoHash },
    PeersReceived { info_hash: InfoHash, peers: &'a [PeerAddr] },
    DrainTick { now: Instant, runtime_ready: InfoHashMap<bool> },
    PlanDue { now: Instant, runtime_available: bool },
    LookupStarted {
        info_hash: InfoHash,
        slice_class: DemandSliceClass,
        lookup_ids: Vec<LookupId>,
    },
    LookupStartFailed { info_hash: InfoHash, slice_class: DemandSliceClass, now: Instant },
    LookupFinished {
        info_hash: InfoHash,
        slice_class: DemandSliceClass,
        total_peers: usize,
        unique_peers: usize,
        now: Instant,
    },
    LookupParkRequested {
        info_hash: InfoHash,
        slice_class: DemandSliceClass,
        stop_reason: DemandSliceStopReason,
        total_peers: usize,
        unique_peers: PeerSet,
        lookup_ids: Vec<LookupId>,
    },
    LookupParkResolved {
        info_hash: InfoHash,
        slice_class: DemandSliceClass,
        stop_reason: DemandSliceStopReason,
        total_peers: usize,
        unique_peers: usize,
        parked_outcome: Option<DemandParkedSliceOutcome>,
        drain_admission: Option<DemandDrainAdmissionSnapshot>,
        previous: Option<DemandEntrySnapshot>,
        now: Instant,
    },
    DrainedLookupFinalized {
        info_hash: InfoHash,
        outcome: DrainedDemandOutcome,
        previous: Option<DemandEntrySnapshot>,
        now: Instant,
    },
}

/// Start a lookup.
#[derive(Clone, Copy, Debug, PartialEq, Eq)]
pub struct DemandStartLookupEffect {
    pub candidate: DueDemandCandidate,
    pub plan: DemandLookupPlan,
    pub selection_reason: DemandSelectionReason,
}

/// A lookup has come to its end by itself.
#[derive(Clone, Copy, Debug, PartialEq, Eq)]
pub struct DemandLookupFinishedEffect {
    pub info_hash: InfoHash,
    pub slice_class: DemandSliceClass,
    pub total_peers: usize,
    pub unique_peers: usize,
    pub previous: Option<DemandEntrySnapshot>,
    pub current: Option<DemandEntrySnapshot>,
    pub finished_at: Instant,
}

/// How a drain began.
#[derive(Clone, Copy, Debug, PartialEq, Eq, Structural)]
pub struct DemandDrainAdmissionSnapshot {
    pub initial_inflight_queries: usize,
    pub score: i32,
    pub deadline_ms: u64,
}

/// Decide whether a stopped lookup is drained or parked at once.
#[derive(Debug)]
pub struct DemandAdmitDrainEffect {
    pub info_hash: InfoHash,
    pub slice_class: DemandSliceClass,
    pub stop_reason: DemandSliceStopReason,
    pub total_peers: usize,
    pub unique_peers: PeerSet,
    pub lookup_ids: Vec<LookupId>,
    pub previous: Option<DemandEntrySnapshot>,
}

/// A stopped lookup is drained or parked.
#[derive(Clone, Copy, Debug, PartialEq, Eq)]
pub struct DemandLookupParkedEffect {
    pub info_hash: InfoHash,
    pub slice_class: DemandSliceClass,
    pub stop_reason: DemandSliceStopReason,
    pub total_peers: usize,
    pub unique_peers: usize,
    pub parked_outcome: Option<DemandParkedSliceOutcome>,
    pub drain_admission: Option<DemandDrainAdmissionSnapshot>,
    pub previous: Option<DemandEntrySnapshot>,
    pub current: Option<DemandEntrySnapshot>,
    pub parked_at: Instant,
}

/// A drain has come to its end.
#[derive(Clone, Copy, Debug, PartialEq, Eq)]
pub struct DemandDrainFinalizedEffect {
    pub info_hash: InfoHash,
    pub outcome: DrainedDemandOutcome,
    pub finish_mode: DemandFinishMode,
    pub previous: Option<DemandEntrySnapshot>,
    pub current: Option<DemandEntrySnapshot>,
    pub finalized_at: Instant,
    pub parked: bool,
}

/// Park a lookup that nobody waits for any more.
#[derive(Debug)]
pub struct DemandParkActiveLookupEffect {
    pub info_hash: InfoHash,
    pub slice_class: DemandSliceClass,
    pub lookup_ids: Vec<LookupId>,
}

/// End a drain that nobody waits for any more.
#[derive(Debug)]
pub struct DemandCancelDrainingLookupEffect {
    pub info_hash: InfoHash,
    pub lookup_ids: Vec<LookupId>,
}

/// Bring a drain to its end, where it is ready or forced.
#[derive(Clone, Copy, Debug, PartialEq, Eq)]
pub struct DemandFinalizeDrainingLookupEffect {
    pub info_hash: InfoHash,
    pub force: bool,
}

/// A drain has taken in late peers.
#[derive(Clone, Copy, Debug, PartialEq, Eq)]
pub struct DemandDrainPeersRecordedEffect {
    pub info_hash: InfoHash,
    pub peer_count: usize,
    pub unique_added: usize,
    pub initial_unique_peers: usize,
}

/// What is to be done, or has been done, after an action.
#[derive(Debug)]
pub enum DemandPlannerEffect {
    StartLookup(DemandStartLookupEffect),
    LookupFinished(DemandLookupFinishedEffect),
    AdmitDrain(DemandAdmitDrainEffect),
    LookupParked(DemandLookupParkedEffect),
    DrainFinalized(DemandDrainFinalizedEffect),
    ParkActiveLookup(DemandParkActiveLookupEffect),
    CancelDrainingLookup(DemandCancelDrainingLookupEffect),
    FinalizeDrainingLookup(DemandFinalizeDrainingLookupEffect),
    DrainPeersRecorded(DemandDrainPeersRecordedEffect),
}

/// The mathematical content of an effect.
pub enum PlannerEffectView {
    StartLookup(DemandStartLookupEffect),
    LookupFinished(DemandLookupFinishedEffect),
    AdmitDrain {
        info_hash: InfoHash,
        slice_class: DemandSliceClass,
        stop_reason: DemandSliceStopReason,
        total_peers: usize,
        unique_peers: Set<PeerAddr>,
        lookup_ids: Seq<LookupId>,
        previous: Option<DemandEntrySnapshot>,
    },
    LookupParked(DemandLookupParkedEffect),
    DrainFinalized(DemandDrainFinalizedEffect),
    ParkActiveLookup {
        info_hash: InfoHash,
        slice_class: DemandSliceClass,
        lookup_ids: Seq<LookupId>,
    },
    CancelDrainingLookup { info_hash: InfoHash, lookup_ids: Seq<LookupId> },
    FinalizeDrainingLookup(DemandFinalizeDrainingLookupEffect),
    DrainPeersRecorded(DemandDrainPeersRecordedEffect),
}

impl View for DemandPlannerEffect {
    type V = PlannerEffectView;

    open spec fn view(&self) -> PlannerEffectView {
        match *self {
            DemandPlannerEffect::StartLookup(start) => PlannerEffectView::StartLookup(start),
            DemandPlannerEffect::LookupFinished(finished) => PlannerEffectView::LookupFinished(
                finished,
            ),
            DemandPlannerEffect::AdmitDrain(stopped) => PlannerEffectView::AdmitDrain {
                info_hash: stopped.info_hash,
                slice_class: stopped.slice_class,
                stop_reason: stopped.stop_reason,
                total_peers: stopped.total_peers,
                unique_peers: stopped.unique_peers@,
                lookup_ids: stopped.lookup_ids@,
                previous: stopped.previous,
            },
            DemandPlannerEffect::LookupParked(parked) => PlannerEffectView::LookupParked(parked),
            DemandPlannerEffect::DrainFinalized(finalized) => PlannerEffectView::DrainFinalized(
                finalized,
            ),
            DemandPlannerEffect::ParkActiveLookup(park) => PlannerEffectView::ParkActiveLookup {
                info_hash: park.info_hash,
                slice_class: park.slice_class,
                lookup_ids: park.lookup_ids@,
            },
            DemandPlannerEffect::CancelDrainingLookup(cancel) =>
                PlannerEffectView::CancelDrainingLookup {
                info_hash: cancel.info_hash,
                lookup_ids: cancel.lookup_ids@,
            },
            DemandPlannerEffect::FinalizeDrainingLookup(finalize) =>
                PlannerEffectView::FinalizeDrainingLookup(finalize),
            DemandPlannerEffect::DrainPeersRecorded(recorded) =>
                PlannerEffectView::DrainPeersRecorded(recorded),
        }
    }
}

impl DemandPlannerEffect {
    /// No peer is held twice.
    pub open spec fn wf(&self) -> bool {
        match *self {
            DemandPlannerEffect::AdmitDrain(stopped) => stopped.unique_peers.wf(),
            _ => true,
        }
    }
}

/// The content of a list of effects.
pub open spec fn effects_view(effects: Seq<DemandPlannerEffect>) -> Seq<PlannerEffectView> {
    effects.map_values(|effect: DemandPlannerEffect| effect@)
}

/// No effect holds a peer twice.
pub open spec fn effects_wf(effects: Seq<DemandPlannerEffect>) -> bool {
    forall|i: int| 0 <= i < effects.len() ==> (#[trigger] effects[i]).wf()
}

impl<'a> DemandPlannerAction<'a> {
    /// No peer and no key is held twice.
    pub open spec fn wf(&self) -> bool {
        match *self {
            DemandPlannerAction::LookupParkRequested { unique_peers, .. } => unique_peers.wf(),
            DemandPlannerAction::DrainTick { runtime_ready, .. } => runtime_ready.wf(),
            _ => true,
        }
    }
}

/// How a planning round went.
#[derive(Clone, Copy, Debug, PartialEq, Eq, Structural)]
pub struct DemandPlannerPlanStats {
    pub launch_budget: usize,
    pub due_total: usize,
    pub selection_stats: DemandPlannerSelectionStats,
    pub spare_selected: usize,
    pub idle_probe_selected: usize,
    pub idle_probe_active: bool,
    pub idle_probe_demand_count: usize,
    pub active_counts: DemandSlotCounts,
    pub parked_count: usize,
    pub draining_count: usize,
    pub drain_virtual_slots: usize,
    pub budget_awaiting: usize,
    pub budget_no_peers: usize,
    pub budget_routine: usize,
}

/// The answer to an action.
#[derive(Debug)]
pub struct DemandPlannerReduction {
    pub effects: Vec<DemandPlannerEffect>,
    pub plan_stats: Option<DemandPlannerPlanStats>,
}

impl Default for DemandPlannerReduction {
    fn default() -> (reduction: Self)
        ensures
            reduction.effects@ == Seq::<DemandPlannerEffect>::empty(),
            reduction.plan_stats.is_none(),
    {
        DemandPlannerReduction { effects: Vec::new(), plan_stats: None }
    }
}

} // verus!
