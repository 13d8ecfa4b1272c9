use vstd::prelude::*;

use crate::clock::{elapsed, Instant};
use crate::ids::{AddressFamily, LookupId};
use crate::limits::DHT_PARKED_CRAWL_MAX_AGE;
use crate::slice::{
    no_quality, AggregateLookupQualitySnapshot, DemandCrawlResetReason, DemandParkedSliceOutcome,
    DemandSliceClass, LookupQualitySnapshot,
};

verus! {

/// A lookup that was taken out of the runtime to be resumed later. The runtime finds the lookup's
/// tables again by its id.
#[derive(Clone, Copy, Debug, PartialEq, Eq, Structural)]
pub struct LookupState {
    pub lookup_id: LookupId,
    pub family: AddressFamily,
    pub quality: LookupQualitySnapshot,
}

impl LookupState {
    pub fn family(&self) -> (family: AddressFamily)
        ensures
            family == self.family,
    {
        self.family
    }

    pub fn quality_snapshot(&self) -> (quality: LookupQualitySnapshot)
        ensures
            quality == self.quality,
    {
        self.quality
    }
}

/// The parked lookups of one demand, and how its last slices did.
#[derive(Clone, Copy, Debug, PartialEq, Eq, Structural)]
pub struct DemandCrawlState {
    pub ipv4: Option<LookupState>,
    pub ipv6: Option<LookupState>,
    pub class: DemandSliceClass,
    pub updated_at: Instant,
    pub reset_count: u32,
    pub consecutive_stalled_low_yield_slices: u32,
    pub consecutive_healthy_zero_yield_slices: u32,
}

impl DemandCrawlState {
    /// A crawl without lookups.
    pub open spec fn fresh(now: Instant, class: DemandSliceClass) -> Self {
        DemandCrawlState {
            ipv4: None,
            ipv6: None,
            class,
            updated_at: now,
            reset_count: 0,
            consecutive_stalled_low_yield_slices: 0,
            consecutive_healthy_zero_yield_slices: 0,
        }
    }

    /// The parked lookup of an address family.
    pub open spec fn state_of(self, family: AddressFamily) -> Option<LookupState> {
        match family {
            AddressFamily::Ipv4 => self.ipv4,
            AddressFamily::Ipv6 => self.ipv6,
        }
    }

    /// The crawl with another lookup, or none, for an address family.
    pub open spec fn with_state(self, family: AddressFamily, state: Option<LookupState>) -> Self {
        match family {
            AddressFamily::Ipv4 => DemandCrawlState { ipv4: state, ..self },
            AddressFamily::Ipv6 => DemandCrawlState { ipv6: state, ..self },
        }
    }

    /// The crawl after the lookup of an address family has been taken out.
    pub open spec fn taken(self, family: AddressFamily, now: Instant) -> Self {
        if self.state_of(family).is_some() {
            DemandCrawlState { updated_at: now, ..self.with_state(family, None) }
        } else {
            self
        }
    }

    /// The crawl after a lookup has been put in.
    pub open spec fn stored(
        self,
        class: DemandSliceClass,
        state: LookupState,
        now: Instant,
    ) -> Self {
        DemandCrawlState { class, updated_at: now, ..self.with_state(state.family, Some(state)) }
    }

    /// The crawl after each of a sequence of lookups has been put in, the first one first.
    pub open spec fn stored_all(
        self,
        class: DemandSliceClass,
        states: Seq<LookupState>,
        now: Instant,
    ) -> Self
        decreases states.len(),
    {
        if states.len() == 0 {
            self
        } else {
            self.stored_all(class, states.drop_last(), now).stored(class, states.last(), now)
        }
    }

    /// Whether the crawl holds no lookup.
    pub open spec fn without_states(self) -> bool {
        self.ipv4.is_none() && self.ipv6.is_none()
    }

    /// Whether the crawl is too old to be resumed.
    pub open spec fn stale(self, now: Instant) -> bool {
        elapsed(now, self.updated_at) >= DHT_PARKED_CRAWL_MAX_AGE
    }

    /// Why the crawl is not resumed for a class, if it is not: it is too old, or too many slices
    /// in a row for the same class were weak or empty.
    pub open spec fn reset_reason(
        self,
        class: DemandSliceClass,
        now: Instant,
    ) -> Option<DemandCrawlResetReason> {
        if self.stale(now) {
            Some(DemandCrawlResetReason::Stale)
        } else if self.class == class && (self.consecutive_stalled_low_yield_slices
            >= class.reset_threshold() || self.consecutive_healthy_zero_yield_slices
            >= class.reset_threshold()) {
            Some(DemandCrawlResetReason::LowQuality)
        } else {
            None
        }
    }

    /// The crawl after it has been thrown away.
    pub open spec fn reset(self, class: DemandSliceClass, now: Instant) -> Self {
        DemandCrawlState {
            reset_count: self.reset_count.saturating_add(1),
            ..Self::fresh(now, class)
        }
    }

    /// The crawl after a slice for a class did as `outcome` says. Weak slices and empty slices in a
    /// row are counted, each from the last slice of another kind or for another class on.
    pub open spec fn observed(
        self,
        class: DemandSliceClass,
        outcome: DemandParkedSliceOutcome,
        now: Instant,
    ) -> Self {
        let weak_before = if self.class == class {
            self.consecutive_stalled_low_yield_slices
        } else {
            0
        };
        let empty_before = if self.class == class {
            self.consecutive_healthy_zero_yield_slices
        } else {
            0
        };
        DemandCrawlState {
            class,
            updated_at: now,
            consecutive_stalled_low_yield_slices: if outcome
                == DemandParkedSliceOutcome::WeakLowYield {
                weak_before.saturating_add(1)
            } else {
                0
            },
            consecutive_healthy_zero_yield_slices: if outcome
                == DemandParkedSliceOutcome::HealthyZeroYield {
                empty_before.saturating_add(1)
            } else {
                0
            },
            ..self
        }
    }

    pub fn new(now: Instant, class: DemandSliceClass) -> (crawl: Self)
        ensures
            crawl == Self::fresh(now, class),
    {
        DemandCrawlState {
            ipv4: None,
            ipv6: None,
            class,
            updated_at: now,
            reset_count: 0,
            consecutive_stalled_low_yield_slices: 0,
            consecutive_healthy_zero_yield_slices: 0,
        }
    }

    pub fn take_family_state(&mut self, family: AddressFamily, now: Instant) -> (state: Option<
        LookupState,
    >)
        ensures
            state == old(self).state_of(family),
            *final(self) == old(self).taken(family, now),
    {
        let state = match family {
            AddressFamily::Ipv4 => self.ipv4.take(),
            AddressFamily::Ipv6 => self.ipv6.take(),
        };
        if state.is_some() {
            self.updated_at = now;
        }
        state
    }

    pub fn store_family_state(&mut self, class: DemandSliceClass, state: LookupState, now: Instant)
        ensures
            *final(self) == old(self).stored(class, state, now),
    {
        match state.family() {
            AddressFamily::Ipv4 => {
                self.ipv4 = Some(state);
            },
            AddressFamily::Ipv6 => {
                self.ipv6 = Some(state);
            },
        }
        self.class = class;
        self.updated_at = now;
    }

    pub fn is_empty(&self) -> (empty: bool)
        ensures
            empty == self.without_states(),
    {
        self.ipv4.is_none() && self.ipv6.is_none()
    }

    pub fn is_stale(&self, now: Instant) -> (stale: bool)
        ensures
            stale == self.stale(now),
    {
        now.saturating_sub(self.updated_at) >= DHT_PARKED_CRAWL_MAX_AGE
    }

    pub fn reset_reason_for(&self, class: DemandSliceClass, now: Instant) -> (reason: Option<
        DemandCrawlResetReason,
    >)
        ensures
            reason == self.reset_reason(class, now),
    {
        if self.is_stale(now) {
            Some(DemandCrawlResetReason::Stale)
        } else if self.class == class && (self.consecutive_stalled_low_yield_slices
            >= class.stalled_empty_slice_reset_threshold()
            || self.consecutive_healthy_zero_yield_slices
            >= class.stalled_empty_slice_reset_threshold()) {
            Some(DemandCrawlResetReason::LowQuality)
        } else {
            None
        }
    }

    pub fn should_reset_for(&self, class: DemandSliceClass, now: Instant) -> (reset: bool)
        ensures
            reset == self.reset_reason(class, now).is_some(),
    {
        self.reset_reason_for(class, now).is_some()
    }

    pub fn reset_for(&mut self, class: DemandSliceClass, now: Instant)
        ensures
            *final(self) == old(self).reset(class, now),
    {
        self.ipv4 = None;
        self.ipv6 = None;
        self.class = class;
        self.updated_at = now;
        self.reset_count = self.reset_count.saturating_add(1);
        self.consecutive_stalled_low_yield_slices = 0;
        self.consecutive_healthy_zero_yield_slices = 0;
    }

    pub fn observe_parked_slice(
        &mut self,
        class: DemandSliceClass,
        outcome: DemandParkedSliceOutcome,
        now: Instant,
    )
        ensures
            *final(self) == old(self).observed(class, outcome, now),
    {
        if self.class != class {
            self.class = class;
            self.consecutive_stalled_low_yield_slices = 0;
            self.consecutive_healthy_zero_yield_slices = 0;
        }
        self.updated_at = now;
        match outcome {
            DemandParkedSliceOutcome::WeakLowYield => {
                self.consecutive_stalled_low_yield_slices =
                    self.consecutive_stalled_low_yield_slices.saturating_add(1);
                self.consecutive_healthy_zero_yield_slices = 0;
            },
            DemandParkedSliceOutcome::HealthyZeroYield => {
                self.consecutive_stalled_low_yield_slices = 0;
                self.consecutive_healthy_zero_yield_slices =
                    self.consecutive_healthy_zero_yield_slices.saturating_add(1);
            },
            DemandParkedSliceOutcome::HealthyLowYield
            | DemandParkedSliceOutcome::UsefulYield
            | DemandParkedSliceOutcome::Ignored => {
                self.consecutive_stalled_low_yield_slices = 0;
                self.consecutive_healthy_zero_yield_slices = 0;
            },
        }
    }
}

/// The progress of a sequence of parked lookups together.
pub open spec fn total_quality(states: Seq<LookupState>) -> AggregateLookupQualitySnapshot
    decreases states.len(),
{
    if states.len() == 0 {
        no_quality()
    } else {
        total_quality(states.drop_last()).plus(states.last().quality)
    }
}

/// The parked lookups of a crawl, IPv4 first.
pub open spec fn parked_states(crawl: DemandCrawlState) -> Seq<LookupState> {
    let ipv4 = match crawl.ipv4 {
        Some(state) => seq![state],
        None => seq![],
    };
    let ipv6 = match crawl.ipv6 {
        Some(state) => seq![state],
        None => seq![],
    };
    ipv4 + ipv6
}

/// The progress of a crawl's parked lookups together.
pub fn aggregate_parked_crawl_quality(crawl: &DemandCrawlState) -> (quality:
    AggregateLookupQualitySnapshot)
    ensures
        quality == total_quality(parked_states(*crawl)),
{
    let mut aggregate = AggregateLookupQualitySnapshot::default();
    proof {
        reveal_with_fuel(total_quality, 3);
        let states = parked_states(*crawl);
        if states.len() == 2 {
            assert(states.drop_last() =~= seq![states[0]]);
            assert(states.drop_last().drop_last() =~= seq![]);
        } else if states.len() == 1 {
            assert(states.drop_last() =~= seq![]);
        }
    }
    if let Some(state) = crawl.ipv4.as_ref() {
        aggregate.extend(state.quality_snapshot());
    }
    if let Some(state) = crawl.ipv6.as_ref() {
        aggregate.extend(state.quality_snapshot());
    }
    aggregate
}

/// The progress of several parked lookups together.
pub fn aggregate_lookup_quality(states: &[LookupState]) -> (quality: AggregateLookupQualitySnapshot)
    ensures
        quality == total_quality(states@),
{
    let mut aggregate = AggregateLookupQualitySnapshot::default();
    let mut i: usize = 0;
    while i < states.len()
        invariant
            0 <= i <= states@.len(),
            aggregate == total_quality(states@.take(i as int)),
        decreases states@.len() - i,
    {
        aggregate.extend(states[i].quality_snapshot());
        proof {
            assert(states@.take(i + 1).drop_last() =~= states@.take(i as int));
        }
        i = i + 1;
    }
    assert(states@.take(i as int) =~= states@);
    aggregate
}

} // verus!
