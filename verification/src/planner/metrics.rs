use vstd::prelude::*;
use vstd::string::*;

use crate::slice::{
    DemandCrawlResetReason, DemandSelectionReason, DemandSliceClass, DemandSliceStopReason,
};
use crate::text::{append_field, decimal};

verus! {

/// What has been counted of the slices of one class.
#[derive(Clone, Copy, Debug, PartialEq, Eq, Structural)]
pub struct DemandSliceClassMetrics {
    pub fresh_starts: u64,
    pub resumed_starts: u64,
    pub selected_reusable_parked: u64,
    pub selected_swarm_support: u64,
    pub selected_useful_yield_history: u64,
    pub selected_fairness: u64,
    pub selected_overdue_scarce: u64,
    pub selected_spare_capacity: u64,
    pub selected_idle_speed_probe: u64,
    pub natural_finishes: u64,
    pub wall_time_stops: u64,
    pub idle_timeout_stops: u64,
    pub first_batch_stops: u64,
    pub unique_peer_cap_stops: u64,
    pub peers_yielded: u64,
    pub unique_peers_yielded: u64,
    pub stale_resets: u64,
    pub class_change_resets: u64,
    pub low_quality_resets: u64,
}

/// Nothing counted yet.
pub open spec fn no_slices() -> DemandSliceClassMetrics {
    DemandSliceClassMetrics {
        fresh_starts: 0,
        resumed_starts: 0,
        selected_reusable_parked: 0,
        selected_swarm_support: 0,
        selected_useful_yield_history: 0,
        selected_fairness: 0,
        selected_overdue_scarce: 0,
        selected_spare_capacity: 0,
        selected_idle_speed_probe: 0,
        natural_finishes: 0,
        wall_time_stops: 0,
        idle_timeout_stops: 0,
        first_batch_stops: 0,
        unique_peer_cap_stops: 0,
        peers_yielded: 0,
        unique_peers_yielded: 0,
        stale_resets: 0,
        class_change_resets: 0,
        low_quality_resets: 0,
    }
}

impl Default for DemandSliceClassMetrics {
    fn default() -> (metrics: Self)
        ensures
            metrics == no_slices(),
    {
        DemandSliceClassMetrics {
            fresh_starts: 0,
            resumed_starts: 0,
            selected_reusable_parked: 0,
            selected_swarm_support: 0,
            selected_useful_yield_history: 0,
            selected_fairness: 0,
            selected_overdue_scarce: 0,
            selected_spare_capacity: 0,
            selected_idle_speed_probe: 0,
            natural_finishes: 0,
            wall_time_stops: 0,
            idle_timeout_stops: 0,
            first_batch_stops: 0,
            unique_peer_cap_stops: 0,
            peers_yielded: 0,
            unique_peers_yielded: 0,
            stale_resets: 0,
            class_change_resets: 0,
            low_quality_resets: 0,
        }
    }
}

impl DemandSliceClassMetrics {
    /// One more lookup started, from scratch or from a parked one.
    pub open spec fn with_start(self, resumed: bool) -> Self {
        if resumed {
            DemandSliceClassMetrics {
                resumed_starts: self.resumed_starts.saturating_add(1),
                ..self
            }
        } else {
            DemandSliceClassMetrics { fresh_starts: self.fresh_starts.saturating_add(1), ..self }
        }
    }

    /// One more demand picked.
    pub open spec fn with_selection(self, reason: DemandSelectionReason) -> Self {
        match reason {
            DemandSelectionReason::ReusableParked => DemandSliceClassMetrics {
                selected_reusable_parked: self.selected_reusable_parked.saturating_add(1),
                ..self
            },
            DemandSelectionReason::SwarmSupport => DemandSliceClassMetrics {
                selected_swarm_support: self.selected_swarm_support.saturating_add(1),
                ..self
            },
            DemandSelectionReason::UsefulYieldHistory => DemandSliceClassMetrics {
                selected_useful_yield_history: self.selected_useful_yield_history.saturating_add(
                    1,
                ),
                ..self
            },
            DemandSelectionReason::Fairness => DemandSliceClassMetrics {
                selected_fairness: self.selected_fairness.saturating_add(1),
                ..self
            },
            DemandSelectionReason::OverdueScarce => DemandSliceClassMetrics {
                selected_overdue_scarce: self.selected_overdue_scarce.saturating_add(1),
                ..self
            },
            DemandSelectionReason::SpareCapacity => DemandSliceClassMetrics {
                selected_spare_capacity: self.selected_spare_capacity.saturating_add(1),
                ..self
            },
            DemandSelectionReason::IdleSpeedProbe => DemandSliceClassMetrics {
                selected_idle_speed_probe: self.selected_idle_speed_probe.saturating_add(1),
                ..self
            },
        }
    }

    /// One more slice stopped, with what it found.
    pub open spec fn with_stop(
        self,
        reason: DemandSliceStopReason,
        total_peers: usize,
        unique_peers: usize,
    ) -> Self {
        let counted = match reason {
            DemandSliceStopReason::NaturalFinish => DemandSliceClassMetrics {
                natural_finishes: self.natural_finishes.saturating_add(1),
                ..self
            },
            DemandSliceStopReason::WallTime => DemandSliceClassMetrics {
                wall_time_stops: self.wall_time_stops.saturating_add(1),
                ..self
            },
            DemandSliceStopReason::IdleTimeout => DemandSliceClassMetrics {
                idle_timeout_stops: self.idle_timeout_stops.saturating_add(1),
                ..self
            },
            DemandSliceStopReason::FirstBatch => DemandSliceClassMetrics {
                first_batch_stops: self.first_batch_stops.saturating_add(1),
                ..self
            },
            DemandSliceStopReason::UniquePeerCap => DemandSliceClassMetrics {
                unique_peer_cap_stops: self.unique_peer_cap_stops.saturating_add(1),
                ..self
            },
        };
        DemandSliceClassMetrics {
            peers_yielded: self.peers_yielded.saturating_add(total_peers as u64),
            unique_peers_yielded: self.unique_peers_yielded.saturating_add(unique_peers as u64),
            ..counted
        }
    }

    /// One more parked crawl thrown away.
    pub open spec fn with_reset(self, reason: DemandCrawlResetReason) -> Self {
        match reason {
            DemandCrawlResetReason::Stale => DemandSliceClassMetrics {
                stale_resets: self.stale_resets.saturating_add(1),
                ..self
            },
            DemandCrawlResetReason::ClassChanged => DemandSliceClassMetrics {
                class_change_resets: self.class_change_resets.saturating_add(1),
                ..self
            },
            DemandCrawlResetReason::LowQuality => DemandSliceClassMetrics {
                low_quality_resets: self.low_quality_resets.saturating_add(1),
                ..self
            },
        }
    }

    /// The counts as one line of text behind `label`.
    pub open spec fn line(self, label: Seq<char>) -> Seq<char> {
        label + "(fresh="@ + decimal(self.fresh_starts as nat) + " resumed="@ + decimal(
            self.resumed_starts as nat,
        ) + " sel_reuse="@ + decimal(self.selected_reusable_parked as nat) + " sel_support="@
            + decimal(self.selected_swarm_support as nat) + " sel_yield="@ + decimal(
            self.selected_useful_yield_history as nat,
        ) + " sel_fair="@ + decimal(self.selected_fairness as nat) + " sel_due="@ + decimal(
            self.selected_overdue_scarce as nat,
        ) + " sel_spare="@ + decimal(self.selected_spare_capacity as nat) + " sel_idle_probe="@
            + decimal(self.selected_idle_speed_probe as nat) + " natural="@ + decimal(
            self.natural_finishes as nat,
        ) + " wall="@ + decimal(self.wall_time_stops as nat) + " idle="@ + decimal(
            self.idle_timeout_stops as nat,
        ) + " first="@ + decimal(self.first_batch_stops as nat) + " cap="@ + decimal(
            self.unique_peer_cap_stops as nat,
        ) + " peers="@ + decimal(self.peers_yielded as nat) + " unique="@ + decimal(
            self.unique_peers_yielded as nat,
        ) + " reset_stale="@ + decimal(self.stale_resets as nat) + " reset_class="@ + decimal(
            self.class_change_resets as nat,
        ) + " reset_quality="@ + decimal(self.low_quality_resets as nat) + ")"@
    }

    /// The counts as one line of text behind `label`.
    fn summary(&self, label: &str) -> (text: String)
        ensures
            text@ == self.line(label@),
    {
        let mut text = String::new();
        text.append(label);
        assert(text@ =~= label@);
        append_field(&mut text, "(fresh=", self.fresh_starts);
        append_field(&mut text, " resumed=", self.resumed_starts);
        append_field(&mut text, " sel_reuse=", self.selected_reusable_parked);
        append_field(&mut text, " sel_support=", self.selected_swarm_support);
        append_field(&mut text, " sel_yield=", self.selected_useful_yield_history);
        append_field(&mut text, " sel_fair=", self.selected_fairness);
        append_field(&mut text, " sel_due=", self.selected_overdue_scarce);
        append_field(&mut text, " sel_spare=", self.selected_spare_capacity);
        append_field(&mut text, " sel_idle_probe=", self.selected_idle_speed_probe);
        append_field(&mut text, " natural=", self.natural_finishes);
        append_field(&mut text, " wall=", self.wall_time_stops);
        append_field(&mut text, " idle=", self.idle_timeout_stops);
        append_field(&mut text, " first=", self.first_batch_stops);
        append_field(&mut text, " cap=", self.unique_peer_cap_stops);
        append_field(&mut text, " peers=", self.peers_yielded);
        append_field(&mut text, " unique=", self.unique_peers_yielded);
        append_field(&mut text, " reset_stale=", self.stale_resets);
        append_field(&mut text, " reset_class=", self.class_change_resets);
        append_field(&mut text, " reset_quality=", self.low_quality_resets);
        text.append(")");
        text
    }
}

/// What has been counted of the slices of each class.
#[derive(Clone, Copy, Debug, PartialEq, Eq, Structural)]
pub struct DemandSliceMetrics {
    pub awaiting_metadata: DemandSliceClassMetrics,
    pub no_connected_peers: DemandSliceClassMetrics,
    pub routine_refresh: DemandSliceClassMetrics,
}

impl Default for DemandSliceMetrics {
    fn default() -> (metrics: Self)
        ensures
            metrics == Self::zero(),
    {
        DemandSliceMetrics {
            awaiting_metadata: DemandSliceClassMetrics::default(),
            no_connected_peers: DemandSliceClassMetrics::default(),
            routine_refresh: DemandSliceClassMetrics::default(),
        }
    }
}

impl DemandSliceMetrics {
    /// Nothing counted yet.
    pub open spec fn zero() -> Self {
        DemandSliceMetrics {
            awaiting_metadata: no_slices(),
            no_connected_peers: no_slices(),
            routine_refresh: no_slices(),
        }
    }

    /// The counts of a class.
    pub open spec fn of(self, class: DemandSliceClass) -> DemandSliceClassMetrics {
        match class {
            DemandSliceClass::AwaitingMetadata => self.awaiting_metadata,
            DemandSliceClass::NoConnectedPeers => self.no_connected_peers,
            DemandSliceClass::RoutineRefresh => self.routine_refresh,
        }
    }

    /// Other counts for a class.
    pub open spec fn with(self, class: DemandSliceClass, metrics: DemandSliceClassMetrics) -> Self {
        match class {
            DemandSliceClass::AwaitingMetadata => DemandSliceMetrics {
                awaiting_metadata: metrics,
                ..self
            },
            DemandSliceClass::NoConnectedPeers => DemandSliceMetrics {
                no_connected_peers: metrics,
                ..self
            },
            DemandSliceClass::RoutineRefresh => DemandSliceMetrics {
                routine_refresh: metrics,
                ..self
            },
        }
    }

    /// One more slice of a class stopped, with what it found.
    pub open spec fn with_stop(
        self,
        class: DemandSliceClass,
        reason: DemandSliceStopReason,
        total_peers: usize,
        unique_peers: usize,
    ) -> Self {
        self.with(class, self.of(class).with_stop(reason, total_peers, unique_peers))
    }

    pub fn class_mut(&mut self, class: DemandSliceClass) -> (metrics: &mut DemandSliceClassMetrics)
        ensures
            *metrics == old(self).of(class),
            *final(self) == old(self).with(class, *final(metrics)),
    {
        match class {
            DemandSliceClass::AwaitingMetadata => &mut self.awaiting_metadata,
            DemandSliceClass::NoConnectedPeers => &mut self.no_connected_peers,
            DemandSliceClass::RoutineRefresh => &mut self.routine_refresh,
        }
    }

    pub fn class_ref(&self, class: DemandSliceClass) -> (metrics: &DemandSliceClassMetrics)
        ensures
            *metrics == self.of(class),
    {
        match class {
            DemandSliceClass::AwaitingMetadata => &self.awaiting_metadata,
            DemandSliceClass::NoConnectedPeers => &self.no_connected_peers,
            DemandSliceClass::RoutineRefresh => &self.routine_refresh,
        }
    }

    pub fn record_start(&mut self, class: DemandSliceClass, resumed: bool)
        ensures
            *final(self) == old(self).with(class, old(self).of(class).with_start(resumed)),
    {
        let metrics = self.class_mut(class);
        if resumed {
            metrics.resumed_starts = metrics.resumed_starts.saturating_add(1);
        } else {
            metrics.fresh_starts = metrics.fresh_starts.saturating_add(1);
        }
    }

    pub fn record_selection(&mut self, class: DemandSliceClass, reason: DemandSelectionReason)
        ensures
            *final(self) == old(self).with(class, old(self).of(class).with_selection(reason)),
    {
        let metrics = self.class_mut(class);
        match reason {
            DemandSelectionReason::ReusableParked => {
                metrics.selected_reusable_parked =
                    metrics.selected_reusable_parked.saturating_add(1);
            },
            DemandSelectionReason::SwarmSupport => {
                metrics.selected_swarm_support = metrics.selected_swarm_support.saturating_add(1);
            },
            DemandSelectionReason::UsefulYieldHistory => {
                metrics.selected_useful_yield_history =
                    metrics.selected_useful_yield_history.saturating_add(1);
            },
            DemandSelectionReason::Fairness => {
                metrics.selected_fairness = metrics.selected_fairness.saturating_add(1);
            },
            DemandSelectionReason::OverdueScarce => {
                metrics.selected_overdue_scarce = metrics.selected_overdue_scarce.saturating_add(1);
            },
            DemandSelectionReason::SpareCapacity => {
                metrics.selected_spare_capacity = metrics.selected_spare_capacity.saturating_add(1);
            },
            DemandSelectionReason::IdleSpeedProbe => {
                metrics.selected_idle_speed_probe =
                    metrics.selected_idle_speed_probe.saturating_add(1);
            },
        }
    }

    pub fn record_stop(
        &mut self,
        class: DemandSliceClass,
        reason: DemandSliceStopReason,
        total_peers: usize,
        unique_peers: usize,
    )
        ensures
            *final(self) == old(self).with_stop(class, reason, total_peers, unique_peers),
    {
        let metrics = self.class_mut(class);
        match reason {
            DemandSliceStopReason::NaturalFinish => {
                metrics.natural_finishes = metrics.natural_finishes.saturating_add(1);
            },
            DemandSliceStopReason::WallTime => {
                metrics.wall_time_stops = metrics.wall_time_stops.saturating_add(1);
            },
            DemandSliceStopReason::IdleTimeout => {
                metrics.idle_timeout_stops = metrics.idle_timeout_stops.saturating_add(1);
            },
            DemandSliceStopReason::FirstBatch => {
                metrics.first_batch_stops = metrics.first_batch_stops.saturating_add(1);
            },
            DemandSliceStopReason::UniquePeerCap => {
                metrics.unique_peer_cap_stops = metrics.unique_peer_cap_stops.saturating_add(1);
            },
        }
        metrics.peers_yielded = metrics.peers_yielded.saturating_add(total_peers as u64);
        metrics.unique_peers_yielded =
            metrics.unique_peers_yielded.saturating_add(unique_peers as u64);
    }

    pub fn record_reset(&mut self, class: DemandSliceClass, reason: DemandCrawlResetReason)
        ensures
            *final(self) == old(self).with(class, old(self).of(class).with_reset(reason)),
    {
        let metrics = self.class_mut(class);
        match reason {
            DemandCrawlResetReason::Stale => {
                metrics.stale_resets = metrics.stale_resets.saturating_add(1);
            },
            DemandCrawlResetReason::ClassChanged => {
                metrics.class_change_resets = metrics.class_change_resets.saturating_add(1);
            },
            DemandCrawlResetReason::LowQuality => {
                metrics.low_quality_resets = metrics.low_quality_resets.saturating_add(1);
            },
        }
    }

    /// Whether anything has been counted.
    pub fn has_activity(&self) -> (active: bool)
        ensures
            active == (*self != Self::zero()),
    {
        let zero = DemandSliceClassMetrics::default();
        self.awaiting_metadata != zero || self.no_connected_peers != zero || self.routine_refresh
            != zero
    }

    /// All counts as one line of text.
    pub fn summary(&self) -> (text: String)
        ensures
            text@ == self.awaiting_metadata.line("awaiting"@) + " "@
                + self.no_connected_peers.line("no_peers"@) + " "@ + self.routine_refresh.line(
                "routine"@,
            ),
    {
        let mut text = self.awaiting_metadata.summary("awaiting");
        let no_peers = self.no_connected_peers.summary("no_peers");
        let routine = self.routine_refresh.summary("routine");
        text.append(" ");
        text.append(no_peers.as_str());
        text.append(" ");
        text.append(routine.as_str());
        text
    }
}

} // verus!
