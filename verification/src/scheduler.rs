use vstd::prelude::*;

use crate::clock::{Duration, Instant};
use crate::demand::{no_metrics, DhtDemandMetrics, DhtDemandState};
use crate::ids::InfoHash;
use crate::slice::{class_of, demand_slice_class_priority, DemandSliceClass};
use crate::table::{keys_after_insert, keys_after_remove, InfoHashMap};

verus! {

/// The pauses between the lookups for one demand.
#[derive(Clone, Copy, Debug, PartialEq, Eq, Structural)]
pub struct DemandIntervals {
    pub routine: Duration,
    pub no_connected_peers_base: Duration,
    pub no_connected_peers_max: Duration,
    pub awaiting_metadata: Duration,
}

/// What the scheduler knows of one demand.
#[derive(Clone, Copy, Debug, PartialEq, Eq, Structural)]
pub struct DemandEntry {
    pub demand: DhtDemandState,
    pub metrics: DhtDemandMetrics,
    pub next_eligible_at: Instant,
    pub subscriber_count: usize,
    pub in_progress: bool,
    /// The demand became more urgent while its lookup was running.
    pub retrigger_pending: bool,
    pub no_connected_peers_backoff_step: u32,
}

/// An entry together with its key.
#[derive(Clone, Copy, Debug, PartialEq, Eq)]
pub struct DemandEntrySnapshot {
    pub info_hash: InfoHash,
    pub demand: DhtDemandState,
    pub metrics: DhtDemandMetrics,
    pub next_eligible_at: Instant,
    pub subscriber_count: usize,
    pub in_progress: bool,
    pub retrigger_pending: bool,
    pub no_connected_peers_backoff_step: u32,
}

/// A demand that may be looked up.
#[derive(Clone, Copy, Debug, PartialEq, Eq)]
pub struct DueDemandCandidate {
    pub info_hash: InfoHash,
    pub demand: DhtDemandState,
    pub metrics: DhtDemandMetrics,
    pub next_eligible_at: Instant,
    pub subscriber_count: usize,
}

/// How a finished lookup moves the demand's next one.
#[derive(Clone, Copy, Debug, PartialEq, Eq, Hash, Structural)]
pub enum DemandFinishMode {
    Standard,
    AcceleratedNoConnectedPeersBackoff,
}

/// The registered demands and when each is to be looked up next.
#[derive(Debug)]
pub struct DemandScheduler {
    pub entries: InfoHashMap<DemandEntry>,
    pub intervals: DemandIntervals,
}

/// `base` doubled `step` times.
pub open spec fn doubled(base: nat, step: nat) -> nat
    decreases step,
{
    if step == 0 {
        base
    } else {
        2 * doubled(base, (step - 1) as nat)
    }
}

/// Doubling a span never makes it shorter, however often.
pub proof fn lemma_doubled_grows(base: nat, low: nat, high: nat)
    requires
        low <= high,
    ensures
        doubled(base, low) <= doubled(base, high),
    decreases high,
{
    if low < high {
        lemma_doubled_grows(base, low, (high - 1) as nat);
    }
}

/// The pause after `step` lookups in a row without connected peers: the base doubled `step`
/// times, cut off at the maximum.
pub open spec fn backoff(intervals: DemandIntervals, step: nat) -> Duration {
    if doubled(intervals.no_connected_peers_base as nat, step)
        >= intervals.no_connected_peers_max {
        intervals.no_connected_peers_max
    } else {
        doubled(intervals.no_connected_peers_base as nat, step) as u64
    }
}

/// A demand with its first subscriber is due at once.
pub open spec fn new_entry(demand: DhtDemandState, now: Instant) -> DemandEntry {
    DemandEntry {
        demand,
        metrics: no_metrics(),
        next_eligible_at: now,
        subscriber_count: 1,
        in_progress: false,
        retrigger_pending: false,
        no_connected_peers_backoff_step: 0,
    }
}

/// A changed demand. In another class the backoff starts anew. In a more urgent class the demand
/// is due at once, or, where a lookup is running, as soon as that has finished.
pub open spec fn changed_entry(
    entry: DemandEntry,
    demand: DhtDemandState,
    now: Instant,
) -> DemandEntry {
    let more_urgent = class_of(demand).priority() > class_of(entry.demand).priority();
    DemandEntry {
        demand,
        next_eligible_at: if more_urgent && !entry.in_progress && now < entry.next_eligible_at {
            now
        } else {
            entry.next_eligible_at
        },
        retrigger_pending: entry.retrigger_pending || (more_urgent && entry.in_progress),
        no_connected_peers_backoff_step: if class_of(demand) == class_of(entry.demand) {
            entry.no_connected_peers_backoff_step
        } else {
            0
        },
        ..entry
    }
}

/// An entry whose lookup has finished. The next one follows after the pause of its class, or at
/// once where the demand became more urgent meanwhile. The accelerated mode skips one step of the
/// backoff.
pub open spec fn finished_entry(
    intervals: DemandIntervals,
    entry: DemandEntry,
    now: Instant,
    mode: DemandFinishMode,
) -> DemandEntry {
    let class = class_of(entry.demand);
    let skipped: u32 = if mode == DemandFinishMode::AcceleratedNoConnectedPeersBackoff {
        1
    } else {
        0
    };
    let step = entry.no_connected_peers_backoff_step.saturating_add(skipped);
    let pause = match class {
        DemandSliceClass::AwaitingMetadata => intervals.awaiting_metadata,
        DemandSliceClass::NoConnectedPeers => backoff(intervals, step as nat),
        DemandSliceClass::RoutineRefresh => intervals.routine,
    };
    DemandEntry {
        next_eligible_at: if entry.retrigger_pending {
            now
        } else {
            now.saturating_add(pause)
        },
        in_progress: false,
        retrigger_pending: false,
        no_connected_peers_backoff_step: if class == DemandSliceClass::NoConnectedPeers {
            step.saturating_add(1)
        } else {
            0
        },
        ..entry
    }
}

/// An entry whose lookup was cut off: it is due again no later than `now`.
pub open spec fn reset_entry(entry: DemandEntry, now: Instant) -> DemandEntry {
    DemandEntry {
        next_eligible_at: if entry.in_progress && now < entry.next_eligible_at {
            now
        } else {
            entry.next_eligible_at
        },
        in_progress: false,
        retrigger_pending: false,
        ..entry
    }
}

/// An entry together with its key.
pub open spec fn snapshot_of(info_hash: InfoHash, entry: DemandEntry) -> DemandEntrySnapshot {
    DemandEntrySnapshot {
        info_hash,
        demand: entry.demand,
        metrics: entry.metrics,
        next_eligible_at: entry.next_eligible_at,
        subscriber_count: entry.subscriber_count,
        in_progress: entry.in_progress,
        retrigger_pending: entry.retrigger_pending,
        no_connected_peers_backoff_step: entry.no_connected_peers_backoff_step,
    }
}

/// The part of a snapshot by which candidates are picked.
pub open spec fn candidate_of(snapshot: DemandEntrySnapshot) -> DueDemandCandidate {
    DueDemandCandidate {
        info_hash: snapshot.info_hash,
        demand: snapshot.demand,
        metrics: snapshot.metrics,
        next_eligible_at: snapshot.next_eligible_at,
        subscriber_count: snapshot.subscriber_count,
    }
}

/// Whether a demand may be looked up: somebody wants it, nothing runs for it, its time has come.
pub open spec fn is_due(snapshot: DemandEntrySnapshot, now: Instant) -> bool {
    snapshot.subscriber_count > 0 && !snapshot.in_progress && snapshot.next_eligible_at <= now
}

/// Whether a demand may be looked up at a time.
pub open spec fn due_at(now: Instant) -> spec_fn(DemandEntrySnapshot) -> bool {
    |snapshot: DemandEntrySnapshot| is_due(snapshot, now)
}

/// The part of a snapshot by which candidates are picked.
pub open spec fn as_candidate() -> spec_fn(DemandEntrySnapshot) -> DueDemandCandidate {
    |snapshot: DemandEntrySnapshot| candidate_of(snapshot)
}

impl DemandEntrySnapshot {
    /// The part of the snapshot by which candidates are picked.
    pub fn candidate(self) -> (candidate: DueDemandCandidate)
        ensures
            candidate == candidate_of(self),
    {
        DueDemandCandidate {
            info_hash: self.info_hash,
            demand: self.demand,
            metrics: self.metrics,
            next_eligible_at: self.next_eligible_at,
            subscriber_count: self.subscriber_count,
        }
    }
}

impl View for DemandScheduler {
    type V = Map<InfoHash, DemandEntry>;

    open spec fn view(&self) -> Map<InfoHash, DemandEntry> {
        self.entries@
    }
}

impl DemandScheduler {
    /// No demand is held twice.
    pub open spec fn wf(&self) -> bool {
        self.entries.wf()
    }

    /// The entries with their keys, in the order in which the demands were registered.
    pub open spec fn snapshots(&self) -> Seq<DemandEntrySnapshot> {
        self.entries.keys().map_values(|key: InfoHash| snapshot_of(key, self@[key]))
    }

    /// The demands that may be looked up now, in the order in which they were registered.
    pub open spec fn due(&self, now: Instant) -> Seq<DueDemandCandidate> {
        self.snapshots().filter(due_at(now)).map_values(as_candidate())
    }

    /// A scheduler without demands.
    pub fn new(
        routine: Duration,
        no_connected_peers_base: Duration,
        no_connected_peers_max: Duration,
        awaiting_metadata: Duration,
    ) -> (scheduler: Self)
        ensures
            scheduler@ == Map::<InfoHash, DemandEntry>::empty(),
            scheduler.entries.keys() == Seq::<InfoHash>::empty(),
            scheduler.wf(),
            scheduler.intervals == (DemandIntervals {
                routine,
                no_connected_peers_base,
                no_connected_peers_max,
                awaiting_metadata,
            }),
    {
        DemandScheduler {
            entries: InfoHashMap::new(),
            intervals: DemandIntervals {
                routine,
                no_connected_peers_base,
                no_connected_peers_max,
                awaiting_metadata,
            },
        }
    }

    /// Changes the demand of an entry.
    fn change(entry: &mut DemandEntry, demand: DhtDemandState, now: Instant)
        ensures
            *final(entry) == changed_entry(*old(entry), demand, now),
    {
        let class = DemandSliceClass::from_demand(demand);
        let previous = DemandSliceClass::from_demand(entry.demand);
        if demand_slice_class_priority(class) > demand_slice_class_priority(previous) {
            if entry.in_progress {
                entry.retrigger_pending = true;
            } else if now < entry.next_eligible_at {
                entry.next_eligible_at = now;
            }
        }
        if class != previous {
            entry.no_connected_peers_backoff_step = 0;
        }
        entry.demand = demand;
    }

    /// Adds a subscriber to a demand, and the demand itself with its first subscriber.
    pub fn register(&mut self, info_hash: InfoHash, demand: DhtDemandState, now: Instant)
        ensures
            final(self)@ == old(self)@.insert(
                info_hash,
                if old(self)@.contains_key(info_hash) {
                    DemandEntry {
                        subscriber_count: old(
                            self,
                        )@[info_hash].subscriber_count.saturating_add(1),
                        ..changed_entry(old(self)@[info_hash], demand, now)
                    }
                } else {
                    new_entry(demand, now)
                },
            ),
            final(self).entries.keys() == keys_after_insert(old(self).entries.keys(), info_hash),
            final(self).intervals == old(self).intervals,
            old(self).wf() ==> final(self).wf(),
    {
        let entry = match self.entries.get(&info_hash) {
            Some(known) => {
                let mut entry = *known;
                Self::change(&mut entry, demand, now);
                entry.subscriber_count = entry.subscriber_count.saturating_add(1);
                entry
            },
            None => DemandEntry {
                demand,
                metrics: DhtDemandMetrics::default(),
                next_eligible_at: now,
                subscriber_count: 1,
                in_progress: false,
                retrigger_pending: false,
                no_connected_peers_backoff_step: 0,
            },
        };
        self.entries.insert(info_hash, entry);
    }

    /// Changes a registered demand.
    pub fn update(&mut self, info_hash: InfoHash, demand: DhtDemandState, now: Instant)
        ensures
            final(self)@ == if old(self)@.contains_key(info_hash) {
                old(self)@.insert(info_hash, changed_entry(old(self)@[info_hash], demand, now))
            } else {
                old(self)@
            },
            final(self).entries.keys() == old(self).entries.keys(),
            final(self).intervals == old(self).intervals,
            old(self).wf() ==> final(self).wf(),
    {
        proof {
            self.entries.lemma_domain();
        }
        let found = match self.entries.get(&info_hash) {
            Some(known) => Some(*known),
            None => None,
        };
        if let Some(mut entry) = found {
            Self::change(&mut entry, demand, now);
            self.entries.insert(info_hash, entry);
        }
    }

    /// Replaces what a registered torrent reports of its transfers.
    pub fn update_metrics(&mut self, info_hash: InfoHash, metrics: DhtDemandMetrics)
        ensures
            final(self)@ == if old(self)@.contains_key(info_hash) {
                old(self)@.insert(info_hash, DemandEntry { metrics, ..old(self)@[info_hash] })
            } else {
                old(self)@
            },
            final(self).entries.keys() == old(self).entries.keys(),
            final(self).intervals == old(self).intervals,
            old(self).wf() ==> final(self).wf(),
    {
        proof {
            self.entries.lemma_domain();
        }
        let found = match self.entries.get(&info_hash) {
            Some(known) => Some(*known),
            None => None,
        };
        if let Some(mut entry) = found {
            entry.metrics = metrics;
            self.entries.insert(info_hash, entry);
        }
    }

    /// Takes a subscriber off a demand. With its last subscriber the demand goes too; the result
    /// says whether that happened.
    pub fn unregister(&mut self, info_hash: InfoHash) -> (gone: bool)
        requires
            old(self).wf(),
        ensures
            gone == (old(self)@.contains_key(info_hash) && old(self)@[info_hash].subscriber_count
                <= 1),
            final(self)@ == if !old(self)@.contains_key(info_hash) {
                old(self)@
            } else if gone {
                old(self)@.remove(info_hash)
            } else {
                old(self)@.insert(
                    info_hash,
                    DemandEntry {
                        subscriber_count: (old(self)@[info_hash].subscriber_count - 1) as usize,
                        ..old(self)@[info_hash]
                    },
                )
            },
            final(self).entries.keys() == if gone {
                keys_after_remove(old(self).entries.keys(), info_hash)
            } else {
                old(self).entries.keys()
            },
            final(self).intervals == old(self).intervals,
            final(self).wf(),
    {
        proof {
            self.entries.lemma_domain();
        }
        let found = match self.entries.get(&info_hash) {
            Some(known) => Some(*known),
            None => None,
        };
        if let Some(mut entry) = found {
            if entry.subscriber_count <= 1 {
                self.entries.remove(&info_hash);
                true
            } else {
                entry.subscriber_count = entry.subscriber_count - 1;
                self.entries.insert(info_hash, entry);
                false
            }
        } else {
            false
        }
    }

    /// Notes that a lookup runs for a demand. Says whether there is such a demand and none ran.
    pub fn mark_in_progress(&mut self, info_hash: InfoHash) -> (marked: bool)
        ensures
            marked == (old(self)@.contains_key(info_hash) && !old(self)@[info_hash].in_progress),
            final(self)@ == if marked {
                old(self)@.insert(
                    info_hash,
                    DemandEntry { in_progress: true, ..old(self)@[info_hash] },
                )
            } else {
                old(self)@
            },
            final(self).entries.keys() == old(self).entries.keys(),
            final(self).intervals == old(self).intervals,
            old(self).wf() ==> final(self).wf(),
    {
        proof {
            self.entries.lemma_domain();
        }
        let found = match self.entries.get(&info_hash) {
            Some(known) => Some(*known),
            None => None,
        };
        if let Some(mut entry) = found {
            if entry.in_progress {
                return false;
            }
            entry.in_progress = true;
            self.entries.insert(info_hash, entry);
            true
        } else {
            false
        }
    }

    /// The pause after `step` lookups in a row without connected peers.
    fn backoff_interval(&self, step: u32) -> (pause: Duration)
        ensures
            pause == backoff(self.intervals, step as nat),
    {
        let base = self.intervals.no_connected_peers_base;
        let max = self.intervals.no_connected_peers_max;
        let mut pause: Duration = base;
        let mut taken: u32 = 0;
        while taken < step && pause < max && pause > 0
            invariant
                taken <= step,
                base == self.intervals.no_connected_peers_base,
                max == self.intervals.no_connected_peers_max,
                pause < max ==> pause == doubled(base as nat, taken as nat),
                pause >= max ==> doubled(base as nat, taken as nat) >= max,
            decreases step - taken,
        {
            pause = pause.saturating_add(pause);
            taken = taken + 1;
        }
        proof {
            lemma_doubled_grows(base as nat, taken as nat, step as nat);
            if pause == 0 && pause < max {
                lemma_doubled_zero(base as nat, taken as nat, step as nat);
            }
        }
        if pause >= max {
            max
        } else {
            pause
        }
    }

    /// Notes that the lookup for a demand has finished.
    pub fn finish(&mut self, info_hash: InfoHash, now: Instant)
        ensures
            final(self)@ == if old(self)@.contains_key(info_hash) {
                old(self)@.insert(
                    info_hash,
                    finished_entry(
                        old(self).intervals,
                        old(self)@[info_hash],
                        now,
                        DemandFinishMode::Standard,
                    ),
                )
            } else {
                old(self)@
            },
            final(self).entries.keys() == old(self).entries.keys(),
            final(self).intervals == old(self).intervals,
            old(self).wf() ==> final(self).wf(),
    {
        self.finish_with_mode(info_hash, now, DemandFinishMode::Standard)
    }

    /// Notes that the lookup for a demand has finished.
    pub fn finish_with_mode(&mut self, info_hash: InfoHash, now: Instant, mode: DemandFinishMode)
        ensures
            final(self)@ == if old(self)@.contains_key(info_hash) {
                old(self)@.insert(
                    info_hash,
                    finished_entry(old(self).intervals, old(self)@[info_hash], now, mode),
                )
            } else {
                old(self)@
            },
            final(self).entries.keys() == old(self).entries.keys(),
            final(self).intervals == old(self).intervals,
            old(self).wf() ==> final(self).wf(),
    {
        proof {
            self.entries.lemma_domain();
        }
        let found = match self.entries.get(&info_hash) {
            Some(known) => Some(*known),
            None => None,
        };
        if let Some(mut entry) = found {
            let pause: Duration = match DemandSliceClass::from_demand(entry.demand) {
                DemandSliceClass::AwaitingMetadata => {
                    entry.no_connected_peers_backoff_step = 0;
                    self.intervals.awaiting_metadata
                },
                DemandSliceClass::NoConnectedPeers => {
                    let skipped: u32 = match mode {
                        DemandFinishMode::Standard => 0,
                        DemandFinishMode::AcceleratedNoConnectedPeersBackoff => 1,
                    };
                    let step: u32 = entry.no_connected_peers_backoff_step.saturating_add(skipped);
                    entry.no_connected_peers_backoff_step = step.saturating_add(1);
                    self.backoff_interval(step)
                },
                DemandSliceClass::RoutineRefresh => {
                    entry.no_connected_peers_backoff_step = 0;
                    self.intervals.routine
                },
            };
            entry.next_eligible_at = if entry.retrigger_pending {
                now
            } else {
                now.saturating_add(pause)
            };
            entry.in_progress = false;
            entry.retrigger_pending = false;
            self.entries.insert(info_hash, entry);
        }
    }

    /// Notes that no lookup runs any more.
    pub fn reset_active(&mut self, now: Instant)
        requires
            old(self).wf(),
        ensures
            final(self)@ == old(self)@.map_values(|entry: DemandEntry| reset_entry(entry, now)),
            final(self).entries.keys() == old(self).entries.keys(),
            final(self).intervals == old(self).intervals,
            final(self).wf(),
    {
        let ghost keys = self.entries.keys();
        let mut i: usize = 0;
        proof {
            self.entries.lemma_domain();
        }
        while i < self.entries.len()
            invariant
                0 <= i <= keys.len(),
                keys == old(self).entries.keys(),
                self.entries.keys() == keys,
                keys.no_duplicates(),
                self.intervals == old(self).intervals,
                self@.dom() == old(self)@.dom(),
                forall|key: InfoHash| #[trigger]
                    old(self)@.contains_key(key) <==> keys.contains(key),
                forall|j: int|
                    #![trigger keys[j]]
                    0 <= j < i ==> self@[keys[j]] == reset_entry(old(self)@[keys[j]], now),
                forall|j: int|
                    #![trigger keys[j]]
                    i <= j < keys.len() ==> self@[keys[j]] == old(self)@[keys[j]],
            decreases keys.len() - i,
        {
            let key = self.entries.key_at(i);
            let mut entry = *self.entries.value_at(i);
            if entry.in_progress && now < entry.next_eligible_at {
                entry.next_eligible_at = now;
            }
            entry.in_progress = false;
            entry.retrigger_pending = false;
            self.entries.insert(key, entry);
            proof {
                assert(keys.contains(key));
                assert(self@.dom() =~= old(self)@.dom());
            }
            i = i + 1;
        }
        proof {
            assert forall|key: InfoHash| old(self)@.contains_key(key) implies self@[key]
                == reset_entry(old(self)@[key], now) by {
                assert(keys[keys.index_of(key)] == key);
            }
            assert(self@ =~= old(self)@.map_values(
                |entry: DemandEntry| reset_entry(entry, now),
            ));
        }
    }

    /// What a torrent wants.
    pub fn demand_state(&self, info_hash: InfoHash) -> (demand: Option<DhtDemandState>)
        ensures
            demand == if self@.contains_key(info_hash) {
                Some(self@[info_hash].demand)
            } else {
                None
            },
    {
        match self.entries.get(&info_hash) {
            Some(entry) => Some(entry.demand),
            None => None,
        }
    }

    /// The entry under a key.
    pub open spec fn snapshot(&self, info_hash: InfoHash) -> Option<DemandEntrySnapshot> {
        if self@.contains_key(info_hash) {
            Some(snapshot_of(info_hash, self@[info_hash]))
        } else {
            None
        }
    }

    fn snapshot_from(info_hash: InfoHash, entry: &DemandEntry) -> (snapshot: DemandEntrySnapshot)
        ensures
            snapshot == snapshot_of(info_hash, *entry),
    {
        DemandEntrySnapshot {
            info_hash,
            demand: entry.demand,
            metrics: entry.metrics,
            next_eligible_at: entry.next_eligible_at,
            subscriber_count: entry.subscriber_count,
            in_progress: entry.in_progress,
            retrigger_pending: entry.retrigger_pending,
            no_connected_peers_backoff_step: entry.no_connected_peers_backoff_step,
        }
    }

    /// The entry under a key.
    pub fn entry_snapshot(&self, info_hash: InfoHash) -> (snapshot: Option<DemandEntrySnapshot>)
        ensures
            snapshot == self.snapshot(info_hash),
    {
        match self.entries.get(&info_hash) {
            Some(entry) => Some(Self::snapshot_from(info_hash, entry)),
            None => None,
        }
    }

    /// All entries, in the order in which the demands were registered.
    pub fn entry_snapshots(&self) -> (snapshots: Vec<DemandEntrySnapshot>)
        requires
            self.wf(),
        ensures
            snapshots@ == self.snapshots(),
    {
        let mut snapshots: Vec<DemandEntrySnapshot> = Vec::new();
        let mut i: usize = 0;
        while i < self.entries.len()
            invariant
                0 <= i <= self.entries.keys().len(),
                self.wf(),
                snapshots@ =~= self.snapshots().take(i as int),
            decreases self.entries.keys().len() - i,
        {
            snapshots.push(Self::snapshot_from(self.entries.key_at(i), self.entries.value_at(i)));
            i = i + 1;
        }
        assert(self.snapshots().take(i as int) =~= self.snapshots());
        snapshots
    }

    /// The demands that may be looked up now, in the order in which they were registered.
    pub fn due_candidates(&self, now: Instant) -> (candidates: Vec<DueDemandCandidate>)
        requires
            self.wf(),
        ensures
            candidates@ == self.due(now),
    {
        let snapshots = self.entry_snapshots();
        let mut candidates: Vec<DueDemandCandidate> = Vec::new();
        let mut i: usize = 0;
        proof {
            reveal(Seq::filter);
            assert(candidates@ =~= snapshots@.take(0).filter(due_at(now)).map_values(as_candidate()));
        }
        while i < snapshots.len()
            invariant
                0 <= i <= snapshots@.len(),
                candidates@ == snapshots@.take(i as int).filter(due_at(now)).map_values(as_candidate()),
            decreases snapshots@.len() - i,
        {
            let snapshot = snapshots[i];
            if snapshot.subscriber_count > 0 && !snapshot.in_progress && snapshot.next_eligible_at
                <= now {
                candidates.push(snapshot.candidate());
            }
            proof {
                reveal(Seq::filter);
                assert(snapshots@.take(i + 1).drop_last() =~= snapshots@.take(i as int));
                assert(candidates@ =~= snapshots@.take(i + 1).filter(due_at(now)).map_values(as_candidate()));
            }
            i = i + 1;
        }
        assert(snapshots@.take(i as int) =~= snapshots@);
        candidates
    }
}

proof fn lemma_doubled_zero(base: nat, low: nat, high: nat)
    requires
        low <= high,
        doubled(base, low) == 0,
    ensures
        doubled(base, high) == 0,
    decreases high,
{
    if low < high {
        lemma_doubled_zero(base, low, (high - 1) as nat);
    }
}

/// The pause for a demand without connected peers never shrinks from one lookup to the next, and
/// never exceeds its maximum.
pub proof fn backoff_grows_to_maximum(intervals: DemandIntervals, low: nat, high: nat)
    requires
        low <= high,
    ensures
        backoff(intervals, low) <= backoff(intervals, high) <= intervals.no_connected_peers_max,
{
    lemma_doubled_grows(intervals.no_connected_peers_base as nat, low, high);
}

/// After a lookup has finished, its demand is due again no later than after the longest pause of
/// its class, and at once where it became more urgent meanwhile.
pub proof fn finished_demands_become_due(
    intervals: DemandIntervals,
    entry: DemandEntry,
    now: Instant,
    mode: DemandFinishMode,
)
    ensures
        ({
            let after = finished_entry(intervals, entry, now, mode);
            let longest = match class_of(entry.demand) {
                DemandSliceClass::AwaitingMetadata => intervals.awaiting_metadata,
                DemandSliceClass::NoConnectedPeers => intervals.no_connected_peers_max,
                DemandSliceClass::RoutineRefresh => intervals.routine,
            };
            &&& !after.in_progress
            &&& now <= after.next_eligible_at <= now.saturating_add(longest)
            &&& entry.retrigger_pending ==> after.next_eligible_at == now
        }),
{
}

} // verus!
