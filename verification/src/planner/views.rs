use vstd::prelude::*;

use crate::clock::{millis, MILLISECOND};
use crate::demand::{DhtDemandMetrics, DhtDemandState};
use crate::ids::InfoHash;
use crate::planner::actions::{DemandPlannerAction, DemandPlannerEffect};
use crate::scheduler::DemandFinishMode;
use crate::slice::{class_of, DemandSelectionReason, DemandSliceClass, DemandSliceStopReason};
use crate::table::InfoHashMap;

verus! {

/// What a report of an action says.
#[derive(Clone, Copy, Debug, PartialEq, Eq)]
pub struct DemandPlannerActionView {
    pub kind: &'static str,
    pub info_hash: Option<InfoHash>,
    pub demand_class: Option<DemandSliceClass>,
    pub demand_awaiting_metadata: Option<bool>,
    pub demand_connected_peers: Option<usize>,
    pub slice_class: Option<DemandSliceClass>,
    pub peer_count: Option<usize>,
    pub total_peers: Option<usize>,
    pub unique_peers: Option<usize>,
    pub runtime_available: Option<bool>,
    pub runtime_ready_count: Option<usize>,
    pub stop_reason: Option<DemandSliceStopReason>,
    pub metrics_paused: Option<bool>,
    pub metrics_accepting_new_peers: Option<bool>,
    pub metrics_complete: Option<bool>,
    pub metrics_total_pieces: Option<u32>,
    pub metrics_completed_pieces: Option<u32>,
    pub metrics_connected_peers: Option<usize>,
    pub metrics_interested_peers: Option<usize>,
    pub metrics_peers_interested_in_us: Option<usize>,
    pub metrics_unchoked_download_peers: Option<usize>,
    pub metrics_unchoked_upload_peers: Option<usize>,
    pub metrics_downloading_peers: Option<usize>,
    pub metrics_uploading_peers: Option<usize>,
    pub metrics_download_speed_bps: Option<u64>,
    pub metrics_upload_speed_bps: Option<u64>,
    pub metrics_bytes_downloaded_this_tick: Option<u64>,
    pub metrics_bytes_uploaded_this_tick: Option<u64>,
    pub metrics_activity: Option<u64>,
    pub metrics_wants_extended_routine: Option<bool>,
}

/// What a report of an effect says.
#[derive(Clone, Copy, Debug, PartialEq, Eq)]
pub struct DemandPlannerEffectView {
    pub kind: &'static str,
    pub info_hash: Option<InfoHash>,
    pub demand_class: Option<DemandSliceClass>,
    pub demand_awaiting_metadata: Option<bool>,
    pub demand_connected_peers: Option<usize>,
    pub slice_class: Option<DemandSliceClass>,
    pub selection_reason: Option<DemandSelectionReason>,
    pub stop_reason: Option<DemandSliceStopReason>,
    pub total_peers: Option<usize>,
    pub unique_peers: Option<usize>,
    pub peer_count: Option<usize>,
    pub lookup_count: Option<usize>,
    pub unique_added: Option<usize>,
    pub force: Option<bool>,
    pub parked: Option<bool>,
    pub finish_mode: Option<DemandFinishMode>,
    pub subscriber_count: Option<usize>,
    pub plan_idle_timeout_ms: Option<u64>,
    pub plan_max_wall_time_ms: Option<u64>,
    pub plan_stop_after_first_batch: Option<bool>,
    pub plan_unique_peer_cap: Option<usize>,
    pub plan_power_multiplier: Option<u8>,
    pub metrics_paused: Option<bool>,
    pub metrics_accepting_new_peers: Option<bool>,
    pub metrics_complete: Option<bool>,
    pub metrics_total_pieces: Option<u32>,
    pub metrics_completed_pieces: Option<u32>,
    pub metrics_connected_peers: Option<usize>,
    pub metrics_interested_peers: Option<usize>,
    pub metrics_peers_interested_in_us: Option<usize>,
    pub metrics_unchoked_download_peers: Option<usize>,
    pub metrics_unchoked_upload_peers: Option<usize>,
    pub metrics_downloading_peers: Option<usize>,
    pub metrics_uploading_peers: Option<usize>,
    pub metrics_download_speed_bps: Option<u64>,
    pub metrics_upload_speed_bps: Option<u64>,
    pub metrics_bytes_downloaded_this_tick: Option<u64>,
    pub metrics_bytes_uploaded_this_tick: Option<u64>,
    pub metrics_activity: Option<u64>,
    pub metrics_wants_extended_routine: Option<bool>,
    pub metrics_wants_idle_probe: Option<bool>,
}

impl Default for DemandPlannerActionView {
    fn default() -> (view: Self)
        ensures
            view == (DemandPlannerActionView { kind: view.kind, ..Self::blank() }),
            view.kind@ == ""@,
    {
        DemandPlannerActionView {
            kind: "",
            info_hash: None,
            demand_class: None,
            demand_awaiting_metadata: None,
            demand_connected_peers: None,
            slice_class: None,
            peer_count: None,
            total_peers: None,
            unique_peers: None,
            runtime_available: None,
            runtime_ready_count: None,
            stop_reason: None,
            metrics_paused: None,
            metrics_accepting_new_peers: None,
            metrics_complete: None,
            metrics_total_pieces: None,
            metrics_completed_pieces: None,
            metrics_connected_peers: None,
            metrics_interested_peers: None,
            metrics_peers_interested_in_us: None,
            metrics_unchoked_download_peers: None,
            metrics_unchoked_upload_peers: None,
            metrics_downloading_peers: None,
            metrics_uploading_peers: None,
            metrics_download_speed_bps: None,
            metrics_upload_speed_bps: None,
            metrics_bytes_downloaded_this_tick: None,
            metrics_bytes_uploaded_this_tick: None,
            metrics_activity: None,
            metrics_wants_extended_routine: None,
        }
    }
}

impl Default for DemandPlannerEffectView {
    fn default() -> (view: Self)
        ensures
            view == (DemandPlannerEffectView { kind: view.kind, ..Self::blank() }),
            view.kind@ == ""@,
    {
        DemandPlannerEffectView {
            kind: "",
            info_hash: None,
            demand_class: None,
            demand_awaiting_metadata: None,
            demand_connected_peers: None,
            slice_class: None,
            selection_reason: None,
            stop_reason: None,
            total_peers: None,
            unique_peers: None,
            peer_count: None,
            lookup_count: None,
            unique_added: None,
            force: None,
            parked: None,
            finish_mode: None,
            subscriber_count: None,
            plan_idle_timeout_ms: None,
            plan_max_wall_time_ms: None,
            plan_stop_after_first_batch: None,
            plan_unique_peer_cap: None,
            plan_power_multiplier: None,
            metrics_paused: None,
            metrics_accepting_new_peers: None,
            metrics_complete: None,
            metrics_total_pieces: None,
            metrics_completed_pieces: None,
            metrics_connected_peers: None,
            metrics_interested_peers: None,
            metrics_peers_interested_in_us: None,
            metrics_unchoked_download_peers: None,
            metrics_unchoked_upload_peers: None,
            metrics_downloading_peers: None,
            metrics_uploading_peers: None,
            metrics_download_speed_bps: None,
            metrics_upload_speed_bps: None,
            metrics_bytes_downloaded_this_tick: None,
            metrics_bytes_uploaded_this_tick: None,
            metrics_activity: None,
            metrics_wants_extended_routine: None,
            metrics_wants_idle_probe: None,
        }
    }
}

/// Whether the runtime says that it is ready.
pub open spec fn says_ready(runtime_ready: Map<InfoHash, bool>) -> spec_fn(InfoHash) -> bool {
    |info_hash: InfoHash| runtime_ready[info_hash]
}

/// The number of drains that the runtime says to be ready.
fn ready_count(runtime_ready: &InfoHashMap<bool>) -> (count: usize)
    requires
        runtime_ready.wf(),
    ensures
        count == runtime_ready.keys().filter(says_ready(runtime_ready@)).len(),
{
    let mut count: usize = 0;
    let ghost keys = runtime_ready.keys();
    let mut i: usize = 0;
    proof {
        reveal(Seq::filter);
        assert(keys.take(0).filter(says_ready(runtime_ready@)).len() == 0);
    }
    while i < runtime_ready.len()
        invariant
            0 <= i <= keys.len(),
            keys == runtime_ready.keys(),
            runtime_ready.wf(),
            count <= i,
            count == keys.take(i as int).filter(says_ready(runtime_ready@)).len(),
        decreases keys.len() - i,
    {
        proof {
            reveal(Seq::filter);
            assert(keys.take(i + 1).drop_last() =~= keys.take(i as int));
        }
        if *runtime_ready.value_at(i) {
            count = count + 1;
        }
        i = i + 1;
    }
    assert(keys.take(i as int) =~= keys);
    count
}

impl DemandPlannerActionView {
    /// A report that says nothing.
    pub open spec fn blank() -> Self {
        DemandPlannerActionView {
            kind: "",
            info_hash: None,
            demand_class: None,
            demand_awaiting_metadata: None,
            demand_connected_peers: None,
            slice_class: None,
            peer_count: None,
            total_peers: None,
            unique_peers: None,
            runtime_available: None,
            runtime_ready_count: None,
            stop_reason: None,
            metrics_paused: None,
            metrics_accepting_new_peers: None,
            metrics_complete: None,
            metrics_total_pieces: None,
            metrics_completed_pieces: None,
            metrics_connected_peers: None,
            metrics_interested_peers: None,
            metrics_peers_interested_in_us: None,
            metrics_unchoked_download_peers: None,
            metrics_unchoked_upload_peers: None,
            metrics_downloading_peers: None,
            metrics_uploading_peers: None,
            metrics_download_speed_bps: None,
            metrics_upload_speed_bps: None,
            metrics_bytes_downloaded_this_tick: None,
            metrics_bytes_uploaded_this_tick: None,
            metrics_activity: None,
            metrics_wants_extended_routine: None,
        }
    }

    /// The report with what a torrent wants.
    pub open spec fn telling_demand(self, demand: DhtDemandState) -> Self {
        DemandPlannerActionView {
            demand_class: Some(class_of(demand)),
            demand_awaiting_metadata: Some(demand.awaiting_metadata),
            demand_connected_peers: Some(demand.connected_peers),
            ..self
        }
    }

    /// The report with what a torrent reports of its transfers.
    pub open spec fn telling_metrics(self, metrics: DhtDemandMetrics) -> Self {
        DemandPlannerActionView {
            metrics_paused: Some(metrics.paused),
            metrics_accepting_new_peers: Some(metrics.accepting_new_peers),
            metrics_complete: Some(metrics.complete),
            metrics_total_pieces: Some(metrics.total_pieces),
            metrics_completed_pieces: Some(metrics.completed_pieces),
            metrics_connected_peers: Some(metrics.connected_peers),
            metrics_interested_peers: Some(metrics.interested_peers),
            metrics_peers_interested_in_us: Some(metrics.peers_interested_in_us),
            metrics_unchoked_download_peers: Some(metrics.unchoked_download_peers),
            metrics_unchoked_upload_peers: Some(metrics.unchoked_upload_peers),
            metrics_downloading_peers: Some(metrics.downloading_peers),
            metrics_uploading_peers: Some(metrics.uploading_peers),
            metrics_download_speed_bps: Some(metrics.download_speed_bps),
            metrics_upload_speed_bps: Some(metrics.upload_speed_bps),
            metrics_bytes_downloaded_this_tick: Some(metrics.bytes_downloaded_this_tick),
            metrics_bytes_uploaded_this_tick: Some(metrics.bytes_uploaded_this_tick),
            metrics_activity: Some(metrics.activity()),
            metrics_wants_extended_routine: Some(metrics.needs_swarm_support()),
            ..self
        }
    }

    /// What the report of an action says beside its name.
    pub open spec fn told(action: DemandPlannerAction) -> Self {
        match action {
            DemandPlannerAction::RuntimeReset { .. } => Self::blank(),
            DemandPlannerAction::DemandRegistered { info_hash, demand, .. } =>
                DemandPlannerActionView {
                info_hash: Some(info_hash),
                ..Self::blank()
            }.telling_demand(demand),
            DemandPlannerAction::DemandUpdated { info_hash, demand, .. } =>
                DemandPlannerActionView {
                info_hash: Some(info_hash),
                ..Self::blank()
            }.telling_demand(demand),
            DemandPlannerAction::DemandMetricsUpdated { info_hash, metrics } =>
                DemandPlannerActionView {
                info_hash: Some(info_hash),
                ..Self::blank()
            }.telling_metrics(metrics),
            DemandPlannerAction::DemandSubscriberRemoved { info_hash } => DemandPlannerActionView {
                info_hash: Some(info_hash),
                ..Self::blank()
            },
            DemandPlannerAction::PeersReceived { info_hash, peers } => DemandPlannerActionView {
                info_hash: Some(info_hash),
                peer_count: Some(peers@.len() as usize),
                ..Self::blank()
            },
            DemandPlannerAction::DrainTick { runtime_ready, .. } => DemandPlannerActionView {
                runtime_ready_count: Some(runtime_ready.keys().filter(
                    says_ready(runtime_ready@),
                ).len() as usize),
                ..Self::blank()
            },
            DemandPlannerAction::PlanDue { runtime_available, .. } => DemandPlannerActionView {
                runtime_available: Some(runtime_available),
                ..Self::blank()
            },
            DemandPlannerAction::LookupStarted { info_hash, slice_class, .. } =>
                DemandPlannerActionView {
                info_hash: Some(info_hash),
                slice_class: Some(slice_class),
                ..Self::blank()
            },
            DemandPlannerAction::LookupStartFailed { info_hash, slice_class, .. } =>
                DemandPlannerActionView {
                info_hash: Some(info_hash),
                slice_class: Some(slice_class),
                ..Self::blank()
            },
            DemandPlannerAction::LookupFinished {
                info_hash,
                slice_class,
                total_peers,
                unique_peers,
                ..
            } => DemandPlannerActionView {
                info_hash: Some(info_hash),
                slice_class: Some(slice_class),
                total_peers: Some(total_peers),
                unique_peers: Some(unique_peers),
                ..Self::blank()
            },
            DemandPlannerAction::LookupParkRequested {
                info_hash,
                slice_class,
                stop_reason,
                total_peers,
                unique_peers,
                ..
            } => DemandPlannerActionView {
                info_hash: Some(info_hash),
                slice_class: Some(slice_class),
                total_peers: Some(total_peers),
                unique_peers: Some(unique_peers@.len() as usize),
                stop_reason: Some(stop_reason),
                ..Self::blank()
            },
            DemandPlannerAction::LookupParkResolved {
                info_hash,
                slice_class,
                stop_reason,
                total_peers,
                unique_peers,
                ..
            } => DemandPlannerActionView {
                info_hash: Some(info_hash),
                slice_class: Some(slice_class),
                total_peers: Some(total_peers),
                unique_peers: Some(unique_peers),
                stop_reason: Some(stop_reason),
                ..Self::blank()
            },
            DemandPlannerAction::DrainedLookupFinalized { info_hash, outcome, .. } =>
                DemandPlannerActionView {
                info_hash: Some(info_hash),
                slice_class: Some(outcome.slice_class),
                total_peers: Some(outcome.total_peers),
                unique_peers: Some(outcome.unique_peers),
                stop_reason: Some(outcome.stop_reason),
                ..Self::blank()
            },
        }
    }

    /// The name of an action.
    pub open spec fn name(action: DemandPlannerAction) -> Seq<char> {
        match action {
            DemandPlannerAction::RuntimeReset { .. } => "runtime_reset"@,
            DemandPlannerAction::DemandRegistered { .. } => "demand_registered"@,
            DemandPlannerAction::DemandUpdated { .. } => "demand_updated"@,
            DemandPlannerAction::DemandMetricsUpdated { .. } => "demand_metrics_updated"@,
            DemandPlannerAction::DemandSubscriberRemoved { .. } => "demand_subscriber_removed"@,
            DemandPlannerAction::PeersReceived { .. } => "peers_received"@,
            DemandPlannerAction::DrainTick { .. } => "drain_tick"@,
            DemandPlannerAction::PlanDue { .. } => "plan_due"@,
            DemandPlannerAction::LookupStarted { .. } => "lookup_started"@,
            DemandPlannerAction::LookupStartFailed { .. } => "lookup_start_failed"@,
            DemandPlannerAction::LookupFinished { .. } => "lookup_finished"@,
            DemandPlannerAction::LookupParkRequested { .. } => "lookup_park_requested"@,
            DemandPlannerAction::LookupParkResolved { .. } => "lookup_park_resolved"@,
            DemandPlannerAction::DrainedLookupFinalized { .. } => "drained_lookup_finalized"@,
        }
    }

    /// The report of an action.
    pub fn from_action(action: &DemandPlannerAction<'_>) -> (view: Self)
        requires
            action.wf(),
        ensures
            view.kind@ == Self::name(*action),
            view == (DemandPlannerActionView { kind: view.kind, ..Self::told(*action) }),
    {
        match action {
            DemandPlannerAction::RuntimeReset { .. } => DemandPlannerActionView {
                kind: "runtime_reset",
                ..Self::default()
            },
            DemandPlannerAction::DemandRegistered { info_hash, demand, .. } =>
                DemandPlannerActionView {
                kind: "demand_registered",
                info_hash: Some(*info_hash),
                ..Self::default()
            }.with_demand(*demand),
            DemandPlannerAction::DemandUpdated { info_hash, demand, .. } =>
                DemandPlannerActionView {
                kind: "demand_updated",
                info_hash: Some(*info_hash),
                ..Self::default()
            }.with_demand(*demand),
            DemandPlannerAction::DemandMetricsUpdated { info_hash, metrics } =>
                DemandPlannerActionView {
                kind: "demand_metrics_updated",
                info_hash: Some(*info_hash),
                ..Self::default()
            }.with_metrics(*metrics),
            DemandPlannerAction::DemandSubscriberRemoved { info_hash } => DemandPlannerActionView {
                kind: "demand_subscriber_removed",
                info_hash: Some(*info_hash),
                ..Self::default()
            },
            DemandPlannerAction::PeersReceived { info_hash, peers } => DemandPlannerActionView {
                kind: "peers_received",
                info_hash: Some(*info_hash),
                peer_count: Some(peers.len()),
                ..Self::default()
            },
            DemandPlannerAction::DrainTick { runtime_ready, .. } => DemandPlannerActionView {
                kind: "drain_tick",
                runtime_ready_count: Some(ready_count(runtime_ready)),
                ..Self::default()
            },
            DemandPlannerAction::PlanDue { runtime_available, .. } => DemandPlannerActionView {
                kind: "plan_due",
                runtime_available: Some(*runtime_available),
                ..Self::default()
            },
            DemandPlannerAction::LookupStarted { info_hash, slice_class, .. } =>
                DemandPlannerActionView {
                kind: "lookup_started",
                info_hash: Some(*info_hash),
                slice_class: Some(*slice_class),
                ..Self::default()
            },
            DemandPlannerAction::LookupStartFailed { info_hash, slice_class, .. } =>
                DemandPlannerActionView {
                kind: "lookup_start_failed",
                info_hash: Some(*info_hash),
                slice_class: Some(*slice_class),
                ..Self::default()
            },
            DemandPlannerAction::LookupFinished {
                info_hash,
                slice_class,
                total_peers,
                unique_peers,
                ..
            } => DemandPlannerActionView {
                kind: "lookup_finished",
                info_hash: Some(*info_hash),
                slice_class: Some(*slice_class),
                total_peers: Some(*total_peers),
                unique_peers: Some(*unique_peers),
                ..Self::default()
            },
            DemandPlannerAction::LookupParkRequested {
                info_hash,
                slice_class,
                stop_reason,
                total_peers,
                unique_peers,
                ..
            } => DemandPlannerActionView {
                kind: "lookup_park_requested",
                info_hash: Some(*info_hash),
                slice_class: Some(*slice_class),
                total_peers: Some(*total_peers),
                unique_peers: Some(unique_peers.len()),
                stop_reason: Some(*stop_reason),
                ..Self::default()
            },
            DemandPlannerAction::LookupParkResolved {
                info_hash,
                slice_class,
                stop_reason,
                total_peers,
                unique_peers,
                ..
            } => DemandPlannerActionView {
                kind: "lookup_park_resolved",
                info_hash: Some(*info_hash),
                slice_class: Some(*slice_class),
                total_peers: Some(*total_peers),
                unique_peers: Some(*unique_peers),
                stop_reason: Some(*stop_reason),
                ..Self::default()
            },
            DemandPlannerAction::DrainedLookupFinalized { info_hash, outcome, .. } =>
                DemandPlannerActionView {
                kind: "drained_lookup_finalized",
                info_hash: Some(*info_hash),
                slice_class: Some(outcome.slice_class),
                total_peers: Some(outcome.total_peers),
                unique_peers: Some(outcome.unique_peers),
                stop_reason: Some(outcome.stop_reason),
                ..Self::default()
            },
        }
    }

    pub fn with_demand(self, demand: DhtDemandState) -> (view: Self)
        ensures
            view == self.telling_demand(demand),
    {
        let mut view = self;
        view.demand_class = Some(DemandSliceClass::from_demand(demand));
        view.demand_awaiting_metadata = Some(demand.awaiting_metadata);
        view.demand_connected_peers = Some(demand.connected_peers);
        view
    }

    pub fn with_metrics(self, metrics: DhtDemandMetrics) -> (view: Self)
        ensures
            view == self.telling_metrics(metrics),
    {
        let mut view = self;
        view.metrics_paused = Some(metrics.paused);
        view.metrics_accepting_new_peers = Some(metrics.accepting_new_peers);
        view.metrics_complete = Some(metrics.complete);
        view.metrics_total_pieces = Some(metrics.total_pieces);
        view.metrics_completed_pieces = Some(metrics.completed_pieces);
        view.metrics_connected_peers = Some(metrics.connected_peers);
        view.metrics_interested_peers = Some(metrics.interested_peers);
        view.metrics_peers_interested_in_us = Some(metrics.peers_interested_in_us);
        view.metrics_unchoked_download_peers = Some(metrics.unchoked_download_peers);
        view.metrics_unchoked_upload_peers = Some(metrics.unchoked_upload_peers);
        view.metrics_downloading_peers = Some(metrics.downloading_peers);
        view.metrics_uploading_peers = Some(metrics.uploading_peers);
        view.metrics_download_speed_bps = Some(metrics.download_speed_bps);
        view.metrics_upload_speed_bps = Some(metrics.upload_speed_bps);
        view.metrics_bytes_downloaded_this_tick = Some(metrics.bytes_downloaded_this_tick);
        view.metrics_bytes_uploaded_this_tick = Some(metrics.bytes_uploaded_this_tick);
        view.metrics_activity = Some(metrics.activity_bps_or_bytes());
        view.metrics_wants_extended_routine = Some(metrics.wants_extended_routine_search());
        view
    }
}

impl DemandPlannerEffectView {
    /// A report that says nothing.
    pub open spec fn blank() -> Self {
        DemandPlannerEffectView {
            kind: "",
            info_hash: None,
            demand_class: None,
            demand_awaiting_metadata: None,
            demand_connected_peers: None,
            slice_class: None,
            selection_reason: None,
            stop_reason: None,
            total_peers: None,
            unique_peers: None,
            peer_count: None,
            lookup_count: None,
            unique_added: None,
            force: None,
            parked: None,
            finish_mode: None,
            subscriber_count: None,
            plan_idle_timeout_ms: None,
            plan_max_wall_time_ms: None,
            plan_stop_after_first_batch: None,
            plan_unique_peer_cap: None,
            plan_power_multiplier: None,
            metrics_paused: None,
            metrics_accepting_new_peers: None,
            metrics_complete: None,
            metrics_total_pieces: None,
            metrics_completed_pieces: None,
            metrics_connected_peers: None,
            metrics_interested_peers: None,
            metrics_peers_interested_in_us: None,
            metrics_unchoked_download_peers: None,
            metrics_unchoked_upload_peers: None,
            metrics_downloading_peers: None,
            metrics_uploading_peers: None,
            metrics_download_speed_bps: None,
            metrics_upload_speed_bps: None,
            metrics_bytes_downloaded_this_tick: None,
            metrics_bytes_uploaded_this_tick: None,
            metrics_activity: None,
            metrics_wants_extended_routine: None,
            metrics_wants_idle_probe: None,
        }
    }

    /// The report with what a torrent wants.
    pub open spec fn telling_demand(self, demand: DhtDemandState) -> Self {
        DemandPlannerEffectView {
            demand_class: Some(class_of(demand)),
            demand_awaiting_metadata: Some(demand.awaiting_metadata),
            demand_connected_peers: Some(demand.connected_peers),
            ..self
        }
    }

    /// The report with what a torrent reports of its transfers, and whether the idle probe helps
    /// it, where it is known what it wants.
    pub open spec fn telling_metrics(
        self,
        metrics: DhtDemandMetrics,
        demand: Option<DhtDemandState>,
    ) -> Self {
        DemandPlannerEffectView {
            metrics_paused: Some(metrics.paused),
            metrics_accepting_new_peers: Some(metrics.accepting_new_peers),
            metrics_complete: Some(metrics.complete),
            metrics_total_pieces: Some(metrics.total_pieces),
            metrics_completed_pieces: Some(metrics.completed_pieces),
            metrics_connected_peers: Some(metrics.connected_peers),
            metrics_interested_peers: Some(metrics.interested_peers),
            metrics_peers_interested_in_us: Some(metrics.peers_interested_in_us),
            metrics_unchoked_download_peers: Some(metrics.unchoked_download_peers),
            metrics_unchoked_upload_peers: Some(metrics.unchoked_upload_peers),
            metrics_downloading_peers: Some(metrics.downloading_peers),
            metrics_uploading_peers: Some(metrics.uploading_peers),
            metrics_download_speed_bps: Some(metrics.download_speed_bps),
            metrics_upload_speed_bps: Some(metrics.upload_speed_bps),
            metrics_bytes_downloaded_this_tick: Some(metrics.bytes_downloaded_this_tick),
            metrics_bytes_uploaded_this_tick: Some(metrics.bytes_uploaded_this_tick),
            metrics_activity: Some(metrics.activity()),
            metrics_wants_extended_routine: Some(metrics.needs_swarm_support()),
            metrics_wants_idle_probe: match demand {
                Some(demand) => Some(metrics.probes_when_idle(demand)),
                None => None,
            },
            ..self
        }
    }

    /// What the report of an effect says beside its name.
    pub open spec fn told(effect: DemandPlannerEffect) -> Self {
        match effect {
            DemandPlannerEffect::StartLookup(start) => DemandPlannerEffectView {
                info_hash: Some(start.candidate.info_hash),
                slice_class: Some(start.plan.class),
                selection_reason: Some(start.selection_reason),
                subscriber_count: Some(start.candidate.subscriber_count),
                plan_idle_timeout_ms: Some(millis(start.plan.idle_timeout)),
                plan_max_wall_time_ms: Some(millis(start.plan.max_wall_time)),
                plan_stop_after_first_batch: Some(start.plan.stop_after_first_batch),
                plan_unique_peer_cap: Some(start.plan.unique_peer_cap),
                plan_power_multiplier: Some(start.plan.power_multiplier),
                ..Self::blank()
            }.telling_demand(start.candidate.demand).telling_metrics(
                start.candidate.metrics,
                Some(start.candidate.demand),
            ),
            DemandPlannerEffect::LookupFinished(finished) => DemandPlannerEffectView {
                info_hash: Some(finished.info_hash),
                slice_class: Some(finished.slice_class),
                total_peers: Some(finished.total_peers),
                unique_peers: Some(finished.unique_peers),
                ..Self::blank()
            },
            DemandPlannerEffect::AdmitDrain(stopped) => DemandPlannerEffectView {
                info_hash: Some(stopped.info_hash),
                slice_class: Some(stopped.slice_class),
                stop_reason: Some(stopped.stop_reason),
                total_peers: Some(stopped.total_peers),
                unique_peers: Some(stopped.unique_peers@.len() as usize),
                ..Self::blank()
            },
            DemandPlannerEffect::LookupParked(parked) => DemandPlannerEffectView {
                info_hash: Some(parked.info_hash),
                slice_class: Some(parked.slice_class),
                stop_reason: Some(parked.stop_reason),
                total_peers: Some(parked.total_peers),
                unique_peers: Some(parked.unique_peers),
                parked: Some(parked.drain_admission.is_some()),
                ..Self::blank()
            },
            DemandPlannerEffect::DrainFinalized(finalized) => DemandPlannerEffectView {
                info_hash: Some(finalized.info_hash),
                slice_class: Some(finalized.outcome.slice_class),
                stop_reason: Some(finalized.outcome.stop_reason),
                total_peers: Some(finalized.outcome.total_peers),
                unique_peers: Some(finalized.outcome.unique_peers),
                parked: Some(finalized.parked),
                finish_mode: Some(finalized.finish_mode),
                ..Self::blank()
            },
            DemandPlannerEffect::ParkActiveLookup(park) => DemandPlannerEffectView {
                info_hash: Some(park.info_hash),
                slice_class: Some(park.slice_class),
                ..Self::blank()
            },
            DemandPlannerEffect::CancelDrainingLookup(cancel) => DemandPlannerEffectView {
                info_hash: Some(cancel.info_hash),
                lookup_count: Some(cancel.lookup_ids@.len() as usize),
                ..Self::blank()
            },
            DemandPlannerEffect::FinalizeDrainingLookup(finalize) => DemandPlannerEffectView {
                info_hash: Some(finalize.info_hash),
                force: Some(finalize.force),
                ..Self::blank()
            },
            DemandPlannerEffect::DrainPeersRecorded(recorded) => DemandPlannerEffectView {
                info_hash: Some(recorded.info_hash),
                peer_count: Some(recorded.peer_count),
                unique_added: Some(recorded.unique_added),
                unique_peers: Some((recorded.initial_unique_peers + recorded.unique_added) as usize),
                ..Self::blank()
            },
        }
    }

    /// The name of an effect.
    pub open spec fn name(effect: DemandPlannerEffect) -> Seq<char> {
        match effect {
            DemandPlannerEffect::StartLookup(_) => "start_lookup"@,
            DemandPlannerEffect::LookupFinished(_) => "lookup_finished"@,
            DemandPlannerEffect::AdmitDrain(_) => "admit_drain"@,
            DemandPlannerEffect::LookupParked(_) => "lookup_parked"@,
            DemandPlannerEffect::DrainFinalized(_) => "drain_finalized"@,
            DemandPlannerEffect::ParkActiveLookup(_) => "park_active_lookup"@,
            DemandPlannerEffect::CancelDrainingLookup(_) => "cancel_draining_lookup"@,
            DemandPlannerEffect::FinalizeDrainingLookup(_) => "finalize_draining_lookup"@,
            DemandPlannerEffect::DrainPeersRecorded(_) => "drain_peers_recorded"@,
        }
    }

    /// Whether the counts of an effect can be added up.
    pub open spec fn is_countable(effect: DemandPlannerEffect) -> bool {
        match effect {
            DemandPlannerEffect::DrainPeersRecorded(recorded) => recorded.initial_unique_peers
                + recorded.unique_added <= usize::MAX,
            _ => true,
        }
    }

    /// The report of an effect.
    pub fn from_effect(effect: &DemandPlannerEffect) -> (view: Self)
        requires
            effect.wf(),
            Self::is_countable(*effect),
        ensures
            view.kind@ == Self::name(*effect),
            view == (DemandPlannerEffectView { kind: view.kind, ..Self::told(*effect) }),
    {
        match effect {
            DemandPlannerEffect::StartLookup(start) => DemandPlannerEffectView {
                kind: "start_lookup",
                info_hash: Some(start.candidate.info_hash),
                slice_class: Some(start.plan.class),
                selection_reason: Some(start.selection_reason),
                subscriber_count: Some(start.candidate.subscriber_count),
                plan_idle_timeout_ms: Some(start.plan.idle_timeout / MILLISECOND),
                plan_max_wall_time_ms: Some(start.plan.max_wall_time / MILLISECOND),
                plan_stop_after_first_batch: Some(start.plan.stop_after_first_batch),
                plan_unique_peer_cap: Some(start.plan.unique_peer_cap),
                plan_power_multiplier: Some(start.plan.power_multiplier),
                ..Self::default()
            }.with_demand(start.candidate.demand).with_metrics(
                start.candidate.metrics,
                Some(start.candidate.demand),
            ),
            DemandPlannerEffect::LookupFinished(finished) => DemandPlannerEffectView {
                kind: "lookup_finished",
                info_hash: Some(finished.info_hash),
                slice_class: Some(finished.slice_class),
                total_peers: Some(finished.total_peers),
                unique_peers: Some(finished.unique_peers),
                ..Self::default()
            },
            DemandPlannerEffect::AdmitDrain(stopped) => DemandPlannerEffectView {
                kind: "admit_drain",
                info_hash: Some(stopped.info_hash),
                slice_class: Some(stopped.slice_class),
                stop_reason: Some(stopped.stop_reason),
                total_peers: Some(stopped.total_peers),
                unique_peers: Some(stopped.unique_peers.len()),
                ..Self::default()
            },
            DemandPlannerEffect::LookupParked(parked) => DemandPlannerEffectView {
                kind: "lookup_parked",
                info_hash: Some(parked.info_hash),
                slice_class: Some(parked.slice_class),
                stop_reason: Some(parked.stop_reason),
                total_peers: Some(parked.total_peers),
                unique_peers: Some(parked.unique_peers),
                parked: Some(parked.drain_admission.is_some()),
                ..Self::default()
            },
            DemandPlannerEffect::DrainFinalized(finalized) => DemandPlannerEffectView {
                kind: "drain_finalized",
                info_hash: Some(finalized.info_hash),
                slice_class: Some(finalized.outcome.slice_class),
                stop_reason: Some(finalized.outcome.stop_reason),
                total_peers: Some(finalized.outcome.total_peers),
                unique_peers: Some(finalized.outcome.unique_peers),
                parked: Some(finalized.parked),
                finish_mode: Some(finalized.finish_mode),
                ..Self::default()
            },
            DemandPlannerEffect::ParkActiveLookup(park) => DemandPlannerEffectView {
                kind: "park_active_lookup",
                info_hash: Some(park.info_hash),
                slice_class: Some(park.slice_class),
                ..Self::default()
            },
            DemandPlannerEffect::CancelDrainingLookup(cancel) => DemandPlannerEffectView {
                kind: "cancel_draining_lookup",
                info_hash: Some(cancel.info_hash),
                lookup_count: Some(cancel.lookup_ids.len()),
                ..Self::default()
            },
            DemandPlannerEffect::FinalizeDrainingLookup(finalize) => DemandPlannerEffectView {
                kind: "finalize_draining_lookup",
                info_hash: Some(finalize.info_hash),
                force: Some(finalize.force),
                ..Self::default()
            },
            DemandPlannerEffect::DrainPeersRecorded(recorded) => DemandPlannerEffectView {
                kind: "drain_peers_recorded",
                info_hash: Some(recorded.info_hash),
                peer_count: Some(recorded.peer_count),
                unique_added: Some(recorded.unique_added),
                unique_peers: Some(recorded.initial_unique_peers + recorded.unique_added),
                ..Self::default()
            },
        }
    }

    pub fn with_demand(self, demand: DhtDemandState) -> (view: Self)
        ensures
            view == self.telling_demand(demand),
    {
        let mut view = self;
        view.demand_class = Some(DemandSliceClass::from_demand(demand));
        view.demand_awaiting_metadata = Some(demand.awaiting_metadata);
        view.demand_connected_peers = Some(demand.connected_peers);
        view
    }

    pub fn with_metrics(
        self,
        metrics: DhtDemandMetrics,
        demand: Option<DhtDemandState>,
    ) -> (view: Self)
        ensures
            view == self.telling_metrics(metrics, demand),
    {
        let mut view = self;
        view.metrics_paused = Some(metrics.paused);
        view.metrics_accepting_new_peers = Some(metrics.accepting_new_peers);
        view.metrics_complete = Some(metrics.complete);
        view.metrics_total_pieces = Some(metrics.total_pieces);
        view.metrics_completed_pieces = Some(metrics.completed_pieces);
        view.metrics_connected_peers = Some(metrics.connected_peers);
        view.metrics_interested_peers = Some(metrics.interested_peers);
        view.metrics_peers_interested_in_us = Some(metrics.peers_interested_in_us);
        view.metrics_unchoked_download_peers = Some(metrics.unchoked_download_peers);
        view.metrics_unchoked_upload_peers = Some(metrics.unchoked_upload_peers);
        view.metrics_downloading_peers = Some(metrics.downloading_peers);
        view.metrics_uploading_peers = Some(metrics.uploading_peers);
        view.metrics_download_speed_bps = Some(metrics.download_speed_bps);
        view.metrics_upload_speed_bps = Some(metrics.upload_speed_bps);
        view.metrics_bytes_downloaded_this_tick = Some(metrics.bytes_downloaded_this_tick);
        view.metrics_bytes_uploaded_this_tick = Some(metrics.bytes_uploaded_this_tick);
        view.metrics_activity = Some(metrics.activity_bps_or_bytes());
        view.metrics_wants_extended_routine = Some(metrics.wants_extended_routine_search());
        view.metrics_wants_idle_probe = match demand {
            Some(demand) => Some(metrics.wants_idle_speed_probe_for(demand)),
            None => None,
        };
        view
    }
}

} // verus!
