use vstd::prelude::*;

use crate::slice::DemandSliceClass;

verus! {

/// A number for each class.
#[derive(Clone, Copy, Debug, PartialEq, Eq, Structural)]
pub struct DemandSlotCounts {
    pub awaiting_metadata: usize,
    pub no_connected_peers: usize,
    pub routine_refresh: usize,
}

impl Default for DemandSlotCounts {
    fn default() -> (counts: Self)
        ensures
            counts == Self::zero(),
    {
        DemandSlotCounts { awaiting_metadata: 0, no_connected_peers: 0, routine_refresh: 0 }
    }
}

impl DemandSlotCounts {
    /// Nothing in any class.
    pub open spec fn zero() -> Self {
        DemandSlotCounts { awaiting_metadata: 0, no_connected_peers: 0, routine_refresh: 0 }
    }

    /// The number for a class.
    pub open spec fn of(self, class: DemandSliceClass) -> usize {
        match class {
            DemandSliceClass::AwaitingMetadata => self.awaiting_metadata,
            DemandSliceClass::NoConnectedPeers => self.no_connected_peers,
            DemandSliceClass::RoutineRefresh => self.routine_refresh,
        }
    }

    /// One more in a class, cut off at the largest `usize`.
    pub open spec fn recorded(self, class: DemandSliceClass) -> Self {
        match class {
            DemandSliceClass::AwaitingMetadata => DemandSlotCounts {
                awaiting_metadata: self.awaiting_metadata.saturating_add(1),
                ..self
            },
            DemandSliceClass::NoConnectedPeers => DemandSlotCounts {
                no_connected_peers: self.no_connected_peers.saturating_add(1),
                ..self
            },
            DemandSliceClass::RoutineRefresh => DemandSlotCounts {
                routine_refresh: self.routine_refresh.saturating_add(1),
                ..self
            },
        }
    }

    /// One more for each of a sequence of classes.
    pub open spec fn recorded_all(self, classes: Seq<DemandSliceClass>) -> Self
        decreases classes.len(),
    {
        if classes.len() == 0 {
            self
        } else {
            self.recorded_all(classes.drop_last()).recorded(classes.last())
        }
    }

    /// The sum over the classes, cut off at the largest `usize`.
    pub open spec fn sum(self) -> usize {
        self.awaiting_metadata.saturating_add(self.no_connected_peers).saturating_add(
            self.routine_refresh,
        )
    }

    pub fn count(self, class: DemandSliceClass) -> (count: usize)
        ensures
            count == self.of(class),
    {
        match class {
            DemandSliceClass::AwaitingMetadata => self.awaiting_metadata,
            DemandSliceClass::NoConnectedPeers => self.no_connected_peers,
            DemandSliceClass::RoutineRefresh => self.routine_refresh,
        }
    }

    pub fn total(self) -> (total: usize)
        ensures
            total == self.sum(),
    {
        self.awaiting_metadata.saturating_add(self.no_connected_peers).saturating_add(
            self.routine_refresh,
        )
    }

    pub fn record(&mut self, class: DemandSliceClass)
        ensures
            *final(self) == old(self).recorded(class),
    {
        match class {
            DemandSliceClass::AwaitingMetadata => {
                self.awaiting_metadata = self.awaiting_metadata.saturating_add(1);
            },
            DemandSliceClass::NoConnectedPeers => {
                self.no_connected_peers = self.no_connected_peers.saturating_add(1);
            },
            DemandSliceClass::RoutineRefresh => {
                self.routine_refresh = self.routine_refresh.saturating_add(1);
            },
        }
    }
}

/// How often a class occurs in a sequence of classes.
pub open spec fn class_total(classes: Seq<DemandSliceClass>, class: DemandSliceClass) -> nat
    decreases classes.len(),
{
    if classes.len() == 0 {
        0
    } else {
        class_total(classes.drop_last(), class) + if classes.last() == class {
            1nat
        } else {
            0
        }
    }
}

/// Counting a sequence of classes adds to each count how often its class occurs.
pub proof fn recorded_all_counts(
    counts: DemandSlotCounts,
    classes: Seq<DemandSliceClass>,
    class: DemandSliceClass,
)
    requires
        counts.of(class) + classes.len() <= usize::MAX,
    ensures
        counts.recorded_all(classes).of(class) == counts.of(class) + class_total(classes, class),
        class_total(classes, class) <= classes.len(),
    decreases classes.len(),
{
    if classes.len() > 0 {
        recorded_all_counts(counts, classes.drop_last(), class);
    }
}

/// What was offered to one selection, what it launched and what it held back.
#[derive(Clone, Copy, Debug, PartialEq, Eq, Structural)]
pub struct DemandPlannerSelectionStats {
    pub offered: DemandSlotCounts,
    pub launched: DemandSlotCounts,
    pub throttled: DemandSlotCounts,
    pub oldest_throttled_awaiting_ms: u64,
    pub oldest_throttled_no_peers_ms: u64,
    pub oldest_throttled_routine_ms: u64,
}

impl Default for DemandPlannerSelectionStats {
    fn default() -> (stats: Self)
        ensures
            stats == Self::zero(),
    {
        DemandPlannerSelectionStats {
            offered: DemandSlotCounts::default(),
            launched: DemandSlotCounts::default(),
            throttled: DemandSlotCounts::default(),
            oldest_throttled_awaiting_ms: 0,
            oldest_throttled_no_peers_ms: 0,
            oldest_throttled_routine_ms: 0,
        }
    }
}

impl DemandPlannerSelectionStats {
    /// Nothing offered.
    pub open spec fn zero() -> Self {
        DemandPlannerSelectionStats {
            offered: DemandSlotCounts::zero(),
            launched: DemandSlotCounts::zero(),
            throttled: DemandSlotCounts::zero(),
            oldest_throttled_awaiting_ms: 0,
            oldest_throttled_no_peers_ms: 0,
            oldest_throttled_routine_ms: 0,
        }
    }

    /// The longest that a demand of a class had been due when it was held back.
    pub open spec fn oldest_throttled_ms(self, class: DemandSliceClass) -> u64 {
        match class {
            DemandSliceClass::AwaitingMetadata => self.oldest_throttled_awaiting_ms,
            DemandSliceClass::NoConnectedPeers => self.oldest_throttled_no_peers_ms,
            DemandSliceClass::RoutineRefresh => self.oldest_throttled_routine_ms,
        }
    }

    /// The statistics with one more age among those held back.
    pub open spec fn with_throttled_age(self, class: DemandSliceClass, age_ms: u64) -> Self {
        let oldest = if age_ms > self.oldest_throttled_ms(class) {
            age_ms
        } else {
            self.oldest_throttled_ms(class)
        };
        match class {
            DemandSliceClass::AwaitingMetadata => DemandPlannerSelectionStats {
                oldest_throttled_awaiting_ms: oldest,
                ..self
            },
            DemandSliceClass::NoConnectedPeers => DemandPlannerSelectionStats {
                oldest_throttled_no_peers_ms: oldest,
                ..self
            },
            DemandSliceClass::RoutineRefresh => DemandPlannerSelectionStats {
                oldest_throttled_routine_ms: oldest,
                ..self
            },
        }
    }

    pub fn record_throttled_age(&mut self, class: DemandSliceClass, age_ms: u64)
        ensures
            *final(self) == old(self).with_throttled_age(class, age_ms),
    {
        match class {
            DemandSliceClass::AwaitingMetadata => {
                if age_ms > self.oldest_throttled_awaiting_ms {
                    self.oldest_throttled_awaiting_ms = age_ms;
                }
            },
            DemandSliceClass::NoConnectedPeers => {
                if age_ms > self.oldest_throttled_no_peers_ms {
                    self.oldest_throttled_no_peers_ms = age_ms;
                }
            },
            DemandSliceClass::RoutineRefresh => {
                if age_ms > self.oldest_throttled_routine_ms {
                    self.oldest_throttled_routine_ms = age_ms;
                }
            },
        }
    }
}

} // verus!
