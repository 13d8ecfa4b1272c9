use vstd::prelude::*;

use crate::clock::{elapsed, Instant};
use crate::limits::{
    DHT_IDLE_SPEED_PROBE_2X_MIN_IDLE, DHT_IDLE_SPEED_PROBE_3X_MIN_IDLE,
    DHT_IDLE_SPEED_PROBE_4X_MIN_IDLE, DHT_IDLE_SPEED_PROBE_DECAY_INTERVAL,
};
use crate::scheduler::DemandEntrySnapshot;

verus! {

/// How strongly lookups run at the moment, and for how many demands that matters.
#[derive(Clone, Copy, Debug, PartialEq, Eq, Structural)]
pub struct DemandPlannerIdleSpeedProbeStatus {
    pub active: bool,
    pub demand_count: usize,
    pub multiplier: u8,
}

/// The status while no demand can gain from a probe.
pub open spec fn no_probe() -> DemandPlannerIdleSpeedProbeStatus {
    DemandPlannerIdleSpeedProbeStatus { active: false, demand_count: 0, multiplier: 0 }
}

impl Default for DemandPlannerIdleSpeedProbeStatus {
    fn default() -> (status: Self)
        ensures
            status == no_probe(),
    {
        DemandPlannerIdleSpeedProbeStatus { active: false, demand_count: 0, multiplier: 0 }
    }
}

/// Makes lookups stronger the longer nothing has been transferred, and weaker again step by step
/// once something is.
#[derive(Clone, Copy, Debug, PartialEq, Eq, Structural)]
pub struct DemandPlannerIdleSpeedProbe {
    pub idle_since: Option<Instant>,
    pub current_multiplier: u8,
    pub decay_since: Option<Instant>,
}

/// Whether a demand with subscribers can gain from stronger lookups.
pub open spec fn counts_for_probe(snapshot: DemandEntrySnapshot) -> bool {
    snapshot.subscriber_count > 0 && snapshot.metrics.probes_when_idle(snapshot.demand)
}

/// Whether anything is transferred for a demand with subscribers.
pub open spec fn is_transferring(snapshots: Seq<DemandEntrySnapshot>) -> bool {
    exists|i: int|
        0 <= i < snapshots.len() && (#[trigger] snapshots[i]).subscriber_count > 0
            && snapshots[i].metrics.activity() > 0
}

/// The strength that being idle for a while calls for.
pub open spec fn idle_multiplier(idle_age: u64) -> u8 {
    if idle_age >= DHT_IDLE_SPEED_PROBE_4X_MIN_IDLE {
        4
    } else if idle_age >= DHT_IDLE_SPEED_PROBE_3X_MIN_IDLE {
        3
    } else if idle_age >= DHT_IDLE_SPEED_PROBE_2X_MIN_IDLE {
        2
    } else {
        1
    }
}

/// The strength at `now` and the time of its last step down, where it was `multiplier` at `since`:
/// one step down for each whole decay interval, down to normal strength. Where the time of the
/// next step lies beyond the clock's range, all steps are taken at once.
pub open spec fn decayed(multiplier: u8, since: Instant, now: Instant) -> (u8, Option<Instant>)
    decreases multiplier,
{
    if multiplier <= 1 {
        (1, None)
    } else if since + DHT_IDLE_SPEED_PROBE_DECAY_INTERVAL > u64::MAX {
        (1, None)
    } else if now < since + DHT_IDLE_SPEED_PROBE_DECAY_INTERVAL {
        (multiplier, Some(since))
    } else {
        decayed(
            (multiplier - 1) as u8,
            (since + DHT_IDLE_SPEED_PROBE_DECAY_INTERVAL) as u64,
            now,
        )
    }
}

impl Default for DemandPlannerIdleSpeedProbe {
    fn default() -> (probe: Self)
        ensures
            probe == Self::at_rest(),
    {
        DemandPlannerIdleSpeedProbe { idle_since: None, current_multiplier: 1, decay_since: None }
    }
}

impl DemandPlannerIdleSpeedProbe {
    /// Normal strength.
    pub open spec fn at_rest() -> Self {
        DemandPlannerIdleSpeedProbe { idle_since: None, current_multiplier: 1, decay_since: None }
    }

    /// The present strength.
    pub open spec fn multiplier(self) -> u8 {
        if self.current_multiplier > 1 {
            self.current_multiplier
        } else {
            1
        }
    }

    /// The status of the probe for a number of demands.
    pub open spec fn status_for(self, demand_count: usize) -> DemandPlannerIdleSpeedProbeStatus {
        DemandPlannerIdleSpeedProbeStatus {
            active: self.multiplier() > 1,
            demand_count,
            multiplier: self.multiplier(),
        }
    }

    /// The probe after something has been transferred.
    pub open spec fn after_activity(self, now: Instant) -> Self {
        if self.current_multiplier <= 1 {
            DemandPlannerIdleSpeedProbe { current_multiplier: 1, decay_since: None, ..self }
        } else {
            let since = match self.decay_since {
                Some(since) => since,
                None => now,
            };
            let (multiplier, decay_since) = decayed(self.current_multiplier, since, now);
            DemandPlannerIdleSpeedProbe { current_multiplier: multiplier, decay_since, ..self }
        }
    }

    /// The probe after a look at all demands: at rest where none can gain from it, on its way down
    /// where something is transferred, and otherwise as strong as the idle time calls for, though
    /// not weaker than before.
    pub open spec fn observed(self, snapshots: Seq<DemandEntrySnapshot>, now: Instant) -> Self {
        if demand_total(snapshots) == 0 {
            Self::at_rest()
        } else if is_transferring(snapshots) {
            DemandPlannerIdleSpeedProbe { idle_since: None, ..self }.after_activity(now)
        } else {
            let since = match self.idle_since {
                Some(since) => since,
                None => now,
            };
            let called_for = idle_multiplier(elapsed(now, since));
            DemandPlannerIdleSpeedProbe {
                idle_since: Some(since),
                current_multiplier: if self.current_multiplier > called_for {
                    self.current_multiplier
                } else {
                    called_for
                },
                decay_since: None,
            }
        }
    }

    /// The status after a look at all demands.
    pub open spec fn observed_status(
        self,
        snapshots: Seq<DemandEntrySnapshot>,
        now: Instant,
    ) -> DemandPlannerIdleSpeedProbeStatus {
        if demand_total(snapshots) == 0 {
            no_probe()
        } else {
            self.observed(snapshots, now).status_for(demand_total(snapshots) as usize)
        }
    }

    pub fn current_multiplier(&self, _now: Instant) -> (multiplier: u8)
        ensures
            multiplier == self.multiplier(),
    {
        if self.current_multiplier > 1 {
            self.current_multiplier
        } else {
            1
        }
    }

    /// Looks at all demands at `now`.
    pub fn observe(
        &mut self,
        snapshots: &[DemandEntrySnapshot],
        now: Instant,
    ) -> (status: DemandPlannerIdleSpeedProbeStatus)
        ensures
            *final(self) == old(self).observed(snapshots@, now),
            status == old(self).observed_status(snapshots@, now),
    {
        let mut activity: u64 = 0;
        let mut demand_count: usize = 0;
        let mut i: usize = 0;
        let ghost pred = |snapshot: DemandEntrySnapshot| counts_for_probe(snapshot);
        proof {
            reveal(Seq::filter);
            assert(snapshots@.take(0).filter(pred) =~= Seq::<DemandEntrySnapshot>::empty());
        }
        while i < snapshots.len()
            invariant
                0 <= i <= snapshots@.len(),
                pred == (|snapshot: DemandEntrySnapshot| counts_for_probe(snapshot)),
                demand_count <= i,
                demand_count == snapshots@.take(i as int).filter(pred).len(),
                activity > 0 <==> is_transferring(snapshots@.take(i as int)),
            decreases snapshots@.len() - i,
        {
            let snapshot = snapshots[i];
            proof {
                reveal(Seq::filter);
                let before = snapshots@.take(i as int);
                let after = snapshots@.take(i + 1);
                assert(after.drop_last() =~= before);
                assert(after.last() == snapshot);
                if is_transferring(before) {
                    let j = choose|j: int|
                        0 <= j < before.len() && (#[trigger] before[j]).subscriber_count > 0
                            && before[j].metrics.activity() > 0;
                    assert(after[j] == before[j]);
                }
                if is_transferring(after) {
                    let j = choose|j: int|
                        0 <= j < after.len() && (#[trigger] after[j]).subscriber_count > 0
                            && after[j].metrics.activity() > 0;
                    if j < i {
                        assert(before[j] == after[j]);
                    }
                }
                if snapshot.subscriber_count > 0 && snapshot.metrics.activity() > 0 {
                    assert(after[i as int] == snapshot);
                }
            }
            i = i + 1;
            if snapshot.subscriber_count == 0 {
                continue ;
            }
            activity = activity.saturating_add(snapshot.metrics.activity_bps_or_bytes());
            if snapshot.metrics.wants_idle_speed_probe_for(snapshot.demand) {
                demand_count = demand_count.saturating_add(1);
            }
        }
        assert(snapshots@.take(i as int) =~= snapshots@);

        if demand_count == 0 {
            self.current_multiplier = 1;
            self.idle_since = None;
            self.decay_since = None;
            return DemandPlannerIdleSpeedProbeStatus::default();
        }
        if activity > 0 {
            self.idle_since = None;
            self.decay_after_activity(now);
            return self.status(demand_count);
        }
        self.decay_since = None;
        let idle_since: Instant = match self.idle_since {
            Some(idle_since) => idle_since,
            None => now,
        };
        self.idle_since = Some(idle_since);
        let idle_age: u64 = now.saturating_sub(idle_since);
        let called_for: u8 = if idle_age >= DHT_IDLE_SPEED_PROBE_4X_MIN_IDLE {
            4
        } else if idle_age >= DHT_IDLE_SPEED_PROBE_3X_MIN_IDLE {
            3
        } else if idle_age >= DHT_IDLE_SPEED_PROBE_2X_MIN_IDLE {
            2
        } else {
            1
        };
        if called_for >= self.current_multiplier {
            self.current_multiplier = called_for;
        }
        self.status(demand_count)
    }

    /// Steps down after something has been transferred.
    pub fn decay_after_activity(&mut self, now: Instant)
        ensures
            *final(self) == old(self).after_activity(now),
    {
        if self.current_multiplier <= 1 {
            self.current_multiplier = 1;
            self.decay_since = None;
            return;
        }
        let mut decay_since: Instant = match self.decay_since {
            Some(decay_since) => decay_since,
            None => now,
        };
        while self.current_multiplier > 1
            invariant_except_break
                self.current_multiplier >= 1,
                self.idle_since == old(self).idle_since,
                old(self).after_activity(now) == (DemandPlannerIdleSpeedProbe {
                    current_multiplier: decayed(self.current_multiplier, decay_since, now).0,
                    decay_since: decayed(self.current_multiplier, decay_since, now).1,
                    idle_since: self.idle_since,
                }),
            ensures
                self.idle_since == old(self).idle_since,
                old(self).after_activity(now) == (DemandPlannerIdleSpeedProbe {
                    current_multiplier: self.current_multiplier,
                    decay_since: if self.current_multiplier > 1 {
                        Some(decay_since)
                    } else {
                        None
                    },
                    idle_since: self.idle_since,
                }),
            decreases self.current_multiplier,
        {
            let next_decay_at: Instant = match decay_since.checked_add(
                DHT_IDLE_SPEED_PROBE_DECAY_INTERVAL,
            ) {
                Some(next_decay_at) => next_decay_at,
                None => {
                    self.current_multiplier = 1;
                    self.decay_since = None;
                    return;
                },
            };
            if now < next_decay_at {
                break ;
            }
            self.current_multiplier = self.current_multiplier - 1;
            decay_since = next_decay_at;
        }
        self.decay_since = if self.current_multiplier > 1 {
            Some(decay_since)
        } else {
            None
        };
    }

    /// The status for a number of demands.
    pub fn status(&self, demand_count: usize) -> (status: DemandPlannerIdleSpeedProbeStatus)
        ensures
            status == self.status_for(demand_count),
    {
        let multiplier: u8 = if self.current_multiplier > 1 {
            self.current_multiplier
        } else {
            1
        };
        DemandPlannerIdleSpeedProbeStatus { active: multiplier > 1, demand_count, multiplier }
    }
}

/// The number of demands that can gain from a probe.
pub open spec fn demand_total(snapshots: Seq<DemandEntrySnapshot>) -> nat {
    snapshots.filter(|snapshot: DemandEntrySnapshot| counts_for_probe(snapshot)).len()
}

/// As long as the clock's range is not reached, the strength goes down by one for each whole decay
/// interval since `since`, to normal strength at the lowest.
pub proof fn decay_takes_one_step_per_interval(multiplier: u8, since: Instant, now: Instant)
    requires
        since <= now,
        now + DHT_IDLE_SPEED_PROBE_DECAY_INTERVAL <= u64::MAX,
        multiplier >= 1,
    ensures
        decayed(multiplier, since, now).0 == if (now - since) / (
        DHT_IDLE_SPEED_PROBE_DECAY_INTERVAL as int) >= multiplier - 1 {
            1
        } else {
            multiplier - (now - since) / (DHT_IDLE_SPEED_PROBE_DECAY_INTERVAL as int)
        },
    decreases multiplier,
{
    if multiplier > 1 && now >= since + DHT_IDLE_SPEED_PROBE_DECAY_INTERVAL {
        decay_takes_one_step_per_interval(
            (multiplier - 1) as u8,
            (since + DHT_IDLE_SPEED_PROBE_DECAY_INTERVAL) as u64,
            now,
        );
    }
}

} // verus!
