use vstd::prelude::*;

use crate::clock::Duration;
use crate::ids::{AddressFamily, InfoHash, LookupId};
use crate::planner::crawl::LookupState;
use crate::slice::{no_quality, AggregateLookupQualitySnapshot, LookupQualitySnapshot};

verus! {

/// Whether a lookup still sends queries or only waits for late answers.
#[derive(Clone, Copy, Debug, PartialEq, Eq, Hash, Structural)]
pub enum LookupPhase {
    Active,
    Draining,
}

/// What the runtime reports of one of its lookups.
#[derive(Clone, Copy, Debug, PartialEq, Eq, Structural)]
pub struct RuntimeLookup {
    pub lookup_id: LookupId,
    pub family: AddressFamily,
    pub quality: LookupQualitySnapshot,
    pub phase: LookupPhase,
}

/// What is left for the runtime and the service's timers to carry out.
#[derive(Clone, Copy, Debug, PartialEq, Eq)]
pub enum RuntimeRequest {
    /// End a lookup.
    Cancel(LookupId),
    /// End a lookup and keep its tables, so that it can be resumed.
    Park(LookupId),
    /// Send no more queries for a lookup, but take in late answers.
    Pause(LookupId),
    /// End a paused lookup and keep its tables, so that it can be resumed.
    FinishDrained(LookupId),
    /// Look at a drain again after a while.
    PollDrain { info_hash: InfoHash, delay: Duration },
}

/// The lookups that the runtime reports, and what is asked of it in turn.
#[derive(Debug)]
pub struct LookupLedger {
    pub lookups: Vec<RuntimeLookup>,
    pub requests: Vec<RuntimeRequest>,
}

/// The mathematical content of a ledger.
pub struct LedgerView {
    pub lookups: Seq<RuntimeLookup>,
    pub requests: Seq<RuntimeRequest>,
}

/// Whether a lookup has another id than the given one.
pub open spec fn has_other_id(lookup_id: LookupId) -> spec_fn(RuntimeLookup) -> bool {
    |lookup: RuntimeLookup| lookup.lookup_id != lookup_id
}

/// The lookup, paused if it has the given id.
pub open spec fn paused_if(lookup_id: LookupId) -> spec_fn(RuntimeLookup) -> RuntimeLookup {
    |lookup: RuntimeLookup|
        if lookup.lookup_id == lookup_id {
            RuntimeLookup { phase: LookupPhase::Draining, ..lookup }
        } else {
            lookup
        }
}

/// The first lookup with an id.
pub open spec fn find(lookups: Seq<RuntimeLookup>, lookup_id: LookupId) -> Option<RuntimeLookup>
    decreases lookups.len(),
{
    if lookups.len() == 0 {
        None
    } else if lookups[0].lookup_id == lookup_id {
        Some(lookups[0])
    } else {
        find(lookups.drop_first(), lookup_id)
    }
}

/// The part of a lookup that is kept while it is parked.
pub open spec fn kept_state(lookup: RuntimeLookup) -> LookupState {
    LookupState { lookup_id: lookup.lookup_id, family: lookup.family, quality: lookup.quality }
}

impl LedgerView {
    /// The lookup with an id.
    pub open spec fn get(self, lookup_id: LookupId) -> Option<RuntimeLookup> {
        find(self.lookups, lookup_id)
    }

    /// The ledger with one more request.
    pub open spec fn requested(self, request: RuntimeRequest) -> Self {
        LedgerView { requests: self.requests.push(request), ..self }
    }

    /// The ledger without a lookup.
    pub open spec fn without(self, lookup_id: LookupId) -> Self {
        LedgerView { lookups: self.lookups.filter(has_other_id(lookup_id)), ..self }
    }

    /// The ledger after a lookup has been ended.
    pub open spec fn cancelled(self, lookup_id: LookupId) -> Self {
        self.without(lookup_id).requested(RuntimeRequest::Cancel(lookup_id))
    }

    /// The ledger after each of several lookups has been ended.
    pub open spec fn cancelled_all(self, lookup_ids: Seq<LookupId>) -> Self
        decreases lookup_ids.len(),
    {
        if lookup_ids.len() == 0 {
            self
        } else {
            self.cancelled_all(lookup_ids.drop_last()).cancelled(lookup_ids.last())
        }
    }

    /// The ledger after a lookup has been parked, if there is one with the id.
    pub open spec fn parked(self, lookup_id: LookupId) -> Self {
        if self.get(lookup_id).is_some() {
            self.without(lookup_id).requested(RuntimeRequest::Park(lookup_id))
        } else {
            self
        }
    }

    /// The ledger after each of several lookups has been parked, and what is kept of them.
    pub open spec fn parked_all(self, lookup_ids: Seq<LookupId>) -> (Self, Seq<LookupState>)
        decreases lookup_ids.len(),
    {
        if lookup_ids.len() == 0 {
            (self, seq![])
        } else {
            let (before, states) = self.parked_all(lookup_ids.drop_last());
            (
                before.parked(lookup_ids.last()),
                match before.get(lookup_ids.last()) {
                    Some(lookup) => states.push(kept_state(lookup)),
                    None => states,
                },
            )
        }
    }

    /// Whether a lookup can be paused: it is there and still active.
    pub open spec fn can_pause(self, lookup_id: LookupId) -> bool {
        match self.get(lookup_id) {
            Some(lookup) => lookup.phase == LookupPhase::Active,
            None => false,
        }
    }

    /// The ledger after a lookup has been paused, where it can be.
    pub open spec fn paused(self, lookup_id: LookupId) -> Self {
        if self.can_pause(lookup_id) {
            LedgerView {
                lookups: self.lookups.map_values(paused_if(lookup_id)),
                ..self
            }.requested(RuntimeRequest::Pause(lookup_id))
        } else {
            self
        }
    }

    /// The ledger after each of several lookups has been paused, and those that could be.
    pub open spec fn paused_all(self, lookup_ids: Seq<LookupId>) -> (Self, Seq<LookupId>)
        decreases lookup_ids.len(),
    {
        if lookup_ids.len() == 0 {
            (self, seq![])
        } else {
            let (before, paused) = self.paused_all(lookup_ids.drop_last());
            (
                before.paused(lookup_ids.last()),
                if before.can_pause(lookup_ids.last()) {
                    paused.push(lookup_ids.last())
                } else {
                    paused
                },
            )
        }
    }

    /// Whether a lookup is paused.
    pub open spec fn is_draining(self, lookup_id: LookupId) -> bool {
        match self.get(lookup_id) {
            Some(lookup) => lookup.phase == LookupPhase::Draining,
            None => false,
        }
    }

    /// The ledger after a paused lookup has been ended.
    pub open spec fn finished(self, lookup_id: LookupId) -> Self {
        if self.is_draining(lookup_id) {
            self.without(lookup_id).requested(RuntimeRequest::FinishDrained(lookup_id))
        } else {
            self
        }
    }

    /// The ledger after each of several paused lookups has been ended, and what is kept of them.
    pub open spec fn finished_all(self, lookup_ids: Seq<LookupId>) -> (Self, Seq<LookupState>)
        decreases lookup_ids.len(),
    {
        if lookup_ids.len() == 0 {
            (self, seq![])
        } else {
            let (before, states) = self.finished_all(lookup_ids.drop_last());
            (
                before.finished(lookup_ids.last()),
                if before.is_draining(lookup_ids.last()) {
                    states.push(kept_state(before.get(lookup_ids.last()).unwrap()))
                } else {
                    states
                },
            )
        }
    }

    /// Those of several lookups that are there.
    pub open spec fn present(self, lookup_ids: Seq<LookupId>) -> Seq<LookupId> {
        lookup_ids.filter(self.is_present())
    }

    /// Whether a lookup is there.
    pub open spec fn is_present(self) -> spec_fn(LookupId) -> bool {
        |lookup_id: LookupId| self.get(lookup_id).is_some()
    }

    /// The progress of several lookups together, those that are missing left out.
    pub open spec fn quality_of(self, lookup_ids: Seq<LookupId>) -> AggregateLookupQualitySnapshot
        decreases lookup_ids.len(),
    {
        if lookup_ids.len() == 0 {
            no_quality()
        } else {
            let rest = self.quality_of(lookup_ids.drop_last());
            match self.get(lookup_ids.last()) {
                Some(lookup) => rest.plus(lookup.quality),
                None => rest,
            }
        }
    }

    /// Whether no answer is outstanding for any of several lookups.
    pub open spec fn settled(self, lookup_ids: Seq<LookupId>) -> bool {
        forall|i: int|
            0 <= i < lookup_ids.len() ==> match self.get(#[trigger] lookup_ids[i]) {
                Some(lookup) => lookup.quality.inflight_len == 0,
                None => true,
            }
    }
}

impl View for LookupLedger {
    type V = LedgerView;

    open spec fn view(&self) -> LedgerView {
        LedgerView { lookups: self.lookups@, requests: self.requests@ }
    }
}

impl LookupLedger {
    /// A ledger of the given lookups, with nothing asked yet.
    pub fn new(lookups: Vec<RuntimeLookup>) -> (ledger: Self)
        ensures
            ledger@ == (LedgerView { lookups: lookups@, requests: seq![] }),
    {
        let ledger = LookupLedger { lookups, requests: Vec::new() };
        assert(ledger@.requests =~= seq![]);
        ledger
    }

    /// The lookup with an id.
    pub fn lookup(&self, lookup_id: LookupId) -> (lookup: Option<RuntimeLookup>)
        ensures
            lookup == self@.get(lookup_id),
    {
        let mut i: usize = 0;
        assert(self.lookups@.skip(0) =~= self.lookups@);
        while i < self.lookups.len()
            invariant
                0 <= i <= self.lookups@.len(),
                self@.get(lookup_id) == find(self.lookups@.skip(i as int), lookup_id),
            decreases self.lookups@.len() - i,
        {
            let lookup = self.lookups[i];
            if lookup.lookup_id == lookup_id {
                return Some(lookup);
            }
            assert(self.lookups@.skip(i as int).drop_first() =~= self.lookups@.skip(i + 1));
            i = i + 1;
        }
        None
    }

    /// The progress of a lookup.
    pub fn lookup_quality_snapshot(&self, lookup_id: LookupId) -> (quality: Option<
        LookupQualitySnapshot,
    >)
        ensures
            quality == match self@.get(lookup_id) {
                Some(lookup) => Some(lookup.quality),
                None => None,
            },
    {
        match self.lookup(lookup_id) {
            Some(lookup) => Some(lookup.quality),
            None => None,
        }
    }

    /// Whether a lookup is there and still active.
    pub fn is_lookup_active(&self, lookup_id: LookupId) -> (active: bool)
        ensures
            active == self@.can_pause(lookup_id),
    {
        match self.lookup(lookup_id) {
            Some(lookup) => lookup.phase == LookupPhase::Active,
            None => false,
        }
    }

    /// Takes a lookup off the ledger.
    fn remove(&mut self, lookup_id: LookupId)
        ensures
            final(self)@ == old(self)@.without(lookup_id),
    {
        let mut kept: Vec<RuntimeLookup> = Vec::new();
        let mut i: usize = 0;
        proof {
            reveal(Seq::filter);
            assert(kept@ =~= self.lookups@.take(0).filter(has_other_id(lookup_id)));
        }
        while i < self.lookups.len()
            invariant
                0 <= i <= self.lookups@.len(),
                *self == *old(self),
                kept@ == self.lookups@.take(i as int).filter(has_other_id(lookup_id)),
            decreases self.lookups@.len() - i,
        {
            let lookup = self.lookups[i];
            proof {
                reveal(Seq::filter);
                assert(self.lookups@.take(i + 1).drop_last() =~= self.lookups@.take(i as int));
            }
            if lookup.lookup_id != lookup_id {
                kept.push(lookup);
            }
            i = i + 1;
        }
        assert(self.lookups@.take(i as int) =~= self.lookups@);
        self.lookups = kept;
    }

    /// Ends a lookup.
    pub fn cancel_lookup(&mut self, lookup_id: LookupId)
        ensures
            final(self)@ == old(self)@.cancelled(lookup_id),
    {
        self.remove(lookup_id);
        self.requests.push(RuntimeRequest::Cancel(lookup_id));
    }

    /// Ends each of several lookups.
    pub fn cancel_lookups(&mut self, lookup_ids: &[LookupId])
        ensures
            final(self)@ == old(self)@.cancelled_all(lookup_ids@),
    {
        let mut i: usize = 0;
        while i < lookup_ids.len()
            invariant
                0 <= i <= lookup_ids@.len(),
                self@ == old(self)@.cancelled_all(lookup_ids@.take(i as int)),
            decreases lookup_ids@.len() - i,
        {
            self.cancel_lookup(lookup_ids[i]);
            assert(lookup_ids@.take(i + 1).drop_last() =~= lookup_ids@.take(i as int));
            i = i + 1;
        }
        assert(lookup_ids@.take(i as int) =~= lookup_ids@);
    }

    /// Parks a lookup and hands back what is kept of it.
    pub fn cancel_lookup_and_take_state(&mut self, lookup_id: LookupId) -> (state: Option<
        LookupState,
    >)
        ensures
            final(self)@ == old(self)@.parked(lookup_id),
            state == match old(self)@.get(lookup_id) {
                Some(lookup) => Some(kept_state(lookup)),
                None => None,
            },
    {
        match self.lookup(lookup_id) {
            Some(lookup) => {
                self.remove(lookup_id);
                self.requests.push(RuntimeRequest::Park(lookup_id));
                Some(
                    LookupState {
                        lookup_id: lookup.lookup_id,
                        family: lookup.family,
                        quality: lookup.quality,
                    },
                )
            },
            None => None,
        }
    }

    /// Parks each of several lookups and hands back what is kept of them.
    pub fn park_lookups(&mut self, lookup_ids: &[LookupId]) -> (states: Vec<LookupState>)
        ensures
            (final(self)@, states@) == old(self)@.parked_all(lookup_ids@),
    {
        let mut states: Vec<LookupState> = Vec::new();
        let mut i: usize = 0;
        assert(states@ =~= seq![]);
        while i < lookup_ids.len()
            invariant
                0 <= i <= lookup_ids@.len(),
                (self@, states@) == old(self)@.parked_all(lookup_ids@.take(i as int)),
            decreases lookup_ids@.len() - i,
        {
            assert(lookup_ids@.take(i + 1).drop_last() =~= lookup_ids@.take(i as int));
            if let Some(state) = self.cancel_lookup_and_take_state(lookup_ids[i]) {
                states.push(state);
            }
            i = i + 1;
        }
        assert(lookup_ids@.take(i as int) =~= lookup_ids@);
        states
    }

    /// Pauses a lookup. Says whether it could be paused.
    pub fn pause_lookup_for_drain(&mut self, lookup_id: LookupId) -> (paused: bool)
        ensures
            final(self)@ == old(self)@.paused(lookup_id),
            paused == old(self)@.can_pause(lookup_id),
    {
        if !self.is_lookup_active(lookup_id) {
            return false;
        }
        let mut lookups: Vec<RuntimeLookup> = Vec::new();
        let mut i: usize = 0;
        while i < self.lookups.len()
            invariant
                0 <= i <= self.lookups@.len(),
                *self == *old(self),
                lookups@ =~= self.lookups@.map_values(paused_if(lookup_id)).take(i as int),
            decreases self.lookups@.len() - i,
        {
            let mut lookup = self.lookups[i];
            if lookup.lookup_id == lookup_id {
                lookup.phase = LookupPhase::Draining;
            }
            lookups.push(lookup);
            i = i + 1;
        }
        assert(lookups@ =~= self.lookups@.map_values(paused_if(lookup_id)));
        self.lookups = lookups;
        self.requests.push(RuntimeRequest::Pause(lookup_id));
        true
    }

    /// Pauses each of several lookups. Hands back those that could be paused.
    pub fn pause_lookups(&mut self, lookup_ids: &[LookupId]) -> (paused: Vec<LookupId>)
        ensures
            (final(self)@, paused@) == old(self)@.paused_all(lookup_ids@),
    {
        let mut paused: Vec<LookupId> = Vec::new();
        let mut i: usize = 0;
        assert(paused@ =~= seq![]);
        while i < lookup_ids.len()
            invariant
                0 <= i <= lookup_ids@.len(),
                (self@, paused@) == old(self)@.paused_all(lookup_ids@.take(i as int)),
            decreases lookup_ids@.len() - i,
        {
            assert(lookup_ids@.take(i + 1).drop_last() =~= lookup_ids@.take(i as int));
            if self.pause_lookup_for_drain(lookup_ids[i]) {
                paused.push(lookup_ids[i]);
            }
            i = i + 1;
        }
        assert(lookup_ids@.take(i as int) =~= lookup_ids@);
        paused
    }

    /// Ends a paused lookup and hands back what is kept of it.
    pub fn finish_drained_lookup(&mut self, lookup_id: LookupId) -> (state: Option<LookupState>)
        ensures
            final(self)@ == old(self)@.finished(lookup_id),
            state == if old(self)@.is_draining(lookup_id) {
                Some(kept_state(old(self)@.get(lookup_id).unwrap()))
            } else {
                None
            },
    {
        match self.lookup(lookup_id) {
            Some(lookup) => {
                if lookup.phase != LookupPhase::Draining {
                    return None;
                }
                self.remove(lookup_id);
                self.requests.push(RuntimeRequest::FinishDrained(lookup_id));
                Some(
                    LookupState {
                        lookup_id: lookup.lookup_id,
                        family: lookup.family,
                        quality: lookup.quality,
                    },
                )
            },
            None => None,
        }
    }

    /// Ends each of several paused lookups and hands back what is kept of them.
    pub fn finish_drained_lookups(&mut self, lookup_ids: &[LookupId]) -> (states: Vec<LookupState>)
        ensures
            (final(self)@, states@) == old(self)@.finished_all(lookup_ids@),
    {
        let mut states: Vec<LookupState> = Vec::new();
        let mut i: usize = 0;
        assert(states@ =~= seq![]);
        while i < lookup_ids.len()
            invariant
                0 <= i <= lookup_ids@.len(),
                (self@, states@) == old(self)@.finished_all(lookup_ids@.take(i as int)),
            decreases lookup_ids@.len() - i,
        {
            assert(lookup_ids@.take(i + 1).drop_last() =~= lookup_ids@.take(i as int));
            if let Some(state) = self.finish_drained_lookup(lookup_ids[i]) {
                states.push(state);
            }
            i = i + 1;
        }
        assert(lookup_ids@.take(i as int) =~= lookup_ids@);
        states
    }

    /// Those of several lookups that are there, and their progress together.
    pub fn lookups_quality(&self, lookup_ids: &[LookupId]) -> (report: (
        AggregateLookupQualitySnapshot,
        Vec<LookupId>,
    ))
        ensures
            report.0 == self@.quality_of(lookup_ids@),
            report.1@ == self@.present(lookup_ids@),
    {
        let mut quality = AggregateLookupQualitySnapshot::default();
        let mut present: Vec<LookupId> = Vec::new();
        let mut i: usize = 0;
        proof {
            reveal(Seq::filter);
            assert(present@ =~= self@.present(lookup_ids@.take(0)));
        }
        while i < lookup_ids.len()
            invariant
                0 <= i <= lookup_ids@.len(),
                quality == self@.quality_of(lookup_ids@.take(i as int)),
                present@ == self@.present(lookup_ids@.take(i as int)),
            decreases lookup_ids@.len() - i,
        {
            proof {
                reveal(Seq::filter);
                assert(lookup_ids@.take(i + 1).drop_last() =~= lookup_ids@.take(i as int));
            }
            if let Some(snapshot) = self.lookup_quality_snapshot(lookup_ids[i]) {
                quality.extend(snapshot);
                present.push(lookup_ids[i]);
            }
            i = i + 1;
        }
        assert(lookup_ids@.take(i as int) =~= lookup_ids@);
        (quality, present)
    }

    /// Whether no answer is outstanding for any of several lookups.
    pub fn drained_lookups_ready(&self, lookup_ids: &[LookupId]) -> (ready: bool)
        ensures
            ready == self@.settled(lookup_ids@),
    {
        let mut i: usize = 0;
        while i < lookup_ids.len()
            invariant
                0 <= i <= lookup_ids@.len(),
                self@.settled(lookup_ids@.take(i as int)),
            decreases lookup_ids@.len() - i,
        {
            if let Some(snapshot) = self.lookup_quality_snapshot(lookup_ids[i]) {
                if snapshot.inflight_len > 0 {
                    assert(self@.get(lookup_ids@[i as int]).is_some());
                    return false;
                }
            }
            proof {
                assert forall|j: int| 0 <= j < i + 1 implies match self@.get(
                    #[trigger] lookup_ids@.take(i + 1)[j],
                ) {
                    Some(lookup) => lookup.quality.inflight_len == 0,
                    None => true,
                } by {
                    if j < i {
                        assert(lookup_ids@.take(i as int)[j] == lookup_ids@.take(i + 1)[j]);
                    }
                }
            }
            i = i + 1;
        }
        assert(lookup_ids@.take(i as int) =~= lookup_ids@);
        true
    }

    /// The number of active lookups.
    pub fn active_lookup_count(&self) -> (count: usize)
        ensures
            count == self@.lookups.filter(in_phase(LookupPhase::Active)).len(),
    {
        self.phase_count(LookupPhase::Active)
    }

    /// The number of paused lookups.
    pub fn draining_lookup_count(&self) -> (count: usize)
        ensures
            count == self@.lookups.filter(in_phase(LookupPhase::Draining)).len(),
    {
        self.phase_count(LookupPhase::Draining)
    }

    fn phase_count(&self, phase: LookupPhase) -> (count: usize)
        ensures
            count == self@.lookups.filter(in_phase(phase)).len(),
    {
        let mut count: usize = 0;
        let mut i: usize = 0;
        proof {
            reveal(Seq::filter);
            assert(self.lookups@.take(0).filter(in_phase(phase)).len() == 0);
        }
        while i < self.lookups.len()
            invariant
                0 <= i <= self.lookups@.len(),
                count <= i,
                count == self.lookups@.take(i as int).filter(in_phase(phase)).len(),
            decreases self.lookups@.len() - i,
        {
            proof {
                reveal(Seq::filter);
                assert(self.lookups@.take(i + 1).drop_last() =~= self.lookups@.take(i as int));
            }
            if self.lookups[i].phase == phase {
                count = count + 1;
            }
            i = i + 1;
        }
        assert(self.lookups@.take(i as int) =~= self.lookups@);
        count
    }
}

/// Whether a lookup is in a phase.
pub open spec fn in_phase(phase: LookupPhase) -> spec_fn(RuntimeLookup) -> bool {
    |lookup: RuntimeLookup| lookup.phase == phase
}

} // verus!
