use vstd::prelude::*;

use crate::clock::{elapsed, millis, Instant, MILLISECOND};
use crate::limits::{
    DHT_AWAITING_METADATA_LAUNCHES_PER_MINUTE, DHT_AWAITING_METADATA_LAUNCH_BURST,
    DHT_NO_CONNECTED_PEERS_LAUNCHES_PER_MINUTE, DHT_NO_CONNECTED_PEERS_LAUNCH_BURST,
    DHT_PLANNER_TOKEN_SCALE, DHT_ROUTINE_REFRESH_LAUNCHES_PER_MINUTE,
    DHT_ROUTINE_REFRESH_LAUNCH_BURST, REFILL_PERIOD_MS,
};
use crate::slice::DemandSliceClass;

verus! {

/// A bucket of launch tokens that fills up at a steady rate, up to a burst.
#[derive(Clone, Copy, Debug, PartialEq, Eq, Structural)]
pub struct DemandLaunchTokenBucket {
    pub tokens_scaled: u64,
    pub burst_scaled: u64,
    pub refill_per_minute: u64,
    pub refill_remainder: u128,
    pub last_refill_at: Instant,
}

impl DemandLaunchTokenBucket {
    /// What `elapsed_ms` milliseconds bring in, in fractions of a token times the milliseconds of
    /// the refill period, with what was left over the last time.
    pub open spec fn refill_units(self, elapsed_ms: u64) -> u128 {
        ((self.refill_per_minute * DHT_PLANNER_TOKEN_SCALE * elapsed_ms)
            as u128).saturating_add(self.refill_remainder)
    }

    /// The fractions of a token that whole refill units come to.
    pub open spec fn refill_amount(self, elapsed_ms: u64) -> u64 {
        (self.refill_units(elapsed_ms) / REFILL_PERIOD_MS as u128) as u64
    }

    /// The tokens after `amount` more have come in, cut off at the burst.
    pub open spec fn topped_up(self, amount: u64) -> u64 {
        if self.tokens_scaled.saturating_add(amount) < self.burst_scaled {
            self.tokens_scaled.saturating_add(amount)
        } else {
            self.burst_scaled
        }
    }

    /// The bucket as it stands at `now`. A full bucket keeps nothing left over.
    pub open spec fn refilled(self, now: Instant) -> Self {
        let span = elapsed(now, self.last_refill_at);
        if span == 0 {
            self
        } else {
            let tokens = self.topped_up(self.refill_amount(millis(span)));
            DemandLaunchTokenBucket {
                tokens_scaled: tokens,
                refill_remainder: if tokens == self.burst_scaled {
                    0
                } else {
                    self.refill_units(millis(span)) % REFILL_PERIOD_MS as u128
                },
                last_refill_at: now,
                ..self
            }
        }
    }

    /// Whether there is a whole token.
    pub open spec fn has_token(self) -> bool {
        self.tokens_scaled >= DHT_PLANNER_TOKEN_SCALE
    }

    /// The bucket at `now` after an attempt to take a token out.
    pub open spec fn consumed(self, now: Instant) -> Self {
        let bucket = self.refilled(now);
        if bucket.has_token() {
            DemandLaunchTokenBucket {
                tokens_scaled: (bucket.tokens_scaled - DHT_PLANNER_TOKEN_SCALE) as u64,
                ..bucket
            }
        } else {
            bucket
        }
    }

    /// The bucket after a token has been put back.
    pub open spec fn refunded(self) -> Self {
        DemandLaunchTokenBucket { tokens_scaled: self.topped_up(DHT_PLANNER_TOKEN_SCALE), ..self }
    }

    /// A full bucket.
    pub open spec fn full(refill_per_minute: u64, burst: u64, now: Instant) -> Self {
        let burst_scaled = if burst * DHT_PLANNER_TOKEN_SCALE > u64::MAX {
            u64::MAX
        } else {
            (burst * DHT_PLANNER_TOKEN_SCALE) as u64
        };
        DemandLaunchTokenBucket {
            tokens_scaled: burst_scaled,
            burst_scaled,
            refill_per_minute,
            refill_remainder: 0,
            last_refill_at: now,
        }
    }

    /// A full bucket.
    pub fn new(refill_per_minute: u64, burst: u64, now: Instant) -> (bucket: Self)
        ensures
            bucket == Self::full(refill_per_minute, burst, now),
    {
        let burst_scaled: u64 = match burst.checked_mul(DHT_PLANNER_TOKEN_SCALE) {
            Some(burst_scaled) => burst_scaled,
            None => u64::MAX,
        };
        DemandLaunchTokenBucket {
            tokens_scaled: burst_scaled,
            burst_scaled,
            refill_per_minute,
            refill_remainder: 0,
            last_refill_at: now,
        }
    }

    /// Brings the bucket up to `now`.
    pub fn refill(&mut self, now: Instant)
        ensures
            *final(self) == old(self).refilled(now),
    {
        let span: u64 = now.saturating_sub(self.last_refill_at);
        if span == 0 {
            return;
        }
        let elapsed_ms: u64 = span / MILLISECOND;
        let rate: u64 = self.refill_per_minute;
        assert(rate as u128 * DHT_PLANNER_TOKEN_SCALE as u128 <= 0xffff_ffff_ffff_ffff * 1_000)
            by (nonlinear_arith)
            requires
                rate <= 0xffff_ffff_ffff_ffff,
                DHT_PLANNER_TOKEN_SCALE == 1_000,
        ;
        let per_ms: u128 = rate as u128 * DHT_PLANNER_TOKEN_SCALE as u128;
        assert(per_ms * elapsed_ms as u128 <= (0xffff_ffff_ffff_ffff * 1_000)
            * 0x10c6_f7a0_b5ee) by (nonlinear_arith)
            requires
                0 <= per_ms <= 0xffff_ffff_ffff_ffff * 1_000,
                0 <= elapsed_ms <= 0x10c6_f7a0_b5ee,
        ;
        let refill_units: u128 = (per_ms * elapsed_ms as u128).saturating_add(
            self.refill_remainder,
        );
        let add_scaled: u64 = #[verifier::truncate] ((refill_units / REFILL_PERIOD_MS as u128) as u64);
        let filled: u64 = self.tokens_scaled.saturating_add(add_scaled);
        self.refill_remainder = refill_units % REFILL_PERIOD_MS as u128;
        self.tokens_scaled = if filled < self.burst_scaled {
            filled
        } else {
            self.burst_scaled
        };
        if self.tokens_scaled == self.burst_scaled {
            self.refill_remainder = 0;
        }
        self.last_refill_at = now;
    }

    /// Takes a token out at `now`, where there is one.
    pub fn try_consume(&mut self, now: Instant) -> (taken: bool)
        ensures
            *final(self) == old(self).consumed(now),
            taken == old(self).refilled(now).has_token(),
    {
        self.refill(now);
        if self.tokens_scaled < DHT_PLANNER_TOKEN_SCALE {
            return false;
        }
        self.tokens_scaled = self.tokens_scaled - DHT_PLANNER_TOKEN_SCALE;
        true
    }

    /// Puts a token back.
    pub fn refund(&mut self)
        ensures
            *final(self) == old(self).refunded(),
    {
        let filled: u64 = self.tokens_scaled.saturating_add(DHT_PLANNER_TOKEN_SCALE);
        self.tokens_scaled = if filled < self.burst_scaled {
            filled
        } else {
            self.burst_scaled
        };
    }

    /// The number of whole tokens.
    pub fn available(&self) -> (tokens: usize)
        ensures
            tokens == (self.tokens_scaled / DHT_PLANNER_TOKEN_SCALE) as usize,
    {
        (self.tokens_scaled / DHT_PLANNER_TOKEN_SCALE) as usize
    }
}

/// The launch tokens of each class.
#[derive(Clone, Copy, Debug, PartialEq, Eq, Structural)]
pub struct DemandPlannerBudget {
    pub awaiting_metadata: DemandLaunchTokenBucket,
    pub no_connected_peers: DemandLaunchTokenBucket,
    pub routine_refresh: DemandLaunchTokenBucket,
}

impl DemandPlannerBudget {
    /// The bucket of a class.
    pub open spec fn bucket(self, class: DemandSliceClass) -> DemandLaunchTokenBucket {
        match class {
            DemandSliceClass::AwaitingMetadata => self.awaiting_metadata,
            DemandSliceClass::NoConnectedPeers => self.no_connected_peers,
            DemandSliceClass::RoutineRefresh => self.routine_refresh,
        }
    }

    /// The budget with another bucket for a class.
    pub open spec fn with_bucket(
        self,
        class: DemandSliceClass,
        bucket: DemandLaunchTokenBucket,
    ) -> Self {
        match class {
            DemandSliceClass::AwaitingMetadata => DemandPlannerBudget {
                awaiting_metadata: bucket,
                ..self
            },
            DemandSliceClass::NoConnectedPeers => DemandPlannerBudget {
                no_connected_peers: bucket,
                ..self
            },
            DemandSliceClass::RoutineRefresh => DemandPlannerBudget {
                routine_refresh: bucket,
                ..self
            },
        }
    }

    /// Every bucket full.
    pub open spec fn full(now: Instant) -> Self {
        DemandPlannerBudget {
            awaiting_metadata: DemandLaunchTokenBucket::full(
                DHT_AWAITING_METADATA_LAUNCHES_PER_MINUTE,
                DHT_AWAITING_METADATA_LAUNCH_BURST,
                now,
            ),
            no_connected_peers: DemandLaunchTokenBucket::full(
                DHT_NO_CONNECTED_PEERS_LAUNCHES_PER_MINUTE,
                DHT_NO_CONNECTED_PEERS_LAUNCH_BURST,
                now,
            ),
            routine_refresh: DemandLaunchTokenBucket::full(
                DHT_ROUTINE_REFRESH_LAUNCHES_PER_MINUTE,
                DHT_ROUTINE_REFRESH_LAUNCH_BURST,
                now,
            ),
        }
    }

    /// Every bucket as it stands at `now`.
    pub open spec fn refilled(self, now: Instant) -> Self {
        DemandPlannerBudget {
            awaiting_metadata: self.awaiting_metadata.refilled(now),
            no_connected_peers: self.no_connected_peers.refilled(now),
            routine_refresh: self.routine_refresh.refilled(now),
        }
    }

    /// Whether a class has a token at `now`.
    pub open spec fn has_token(self, class: DemandSliceClass, now: Instant) -> bool {
        self.bucket(class).refilled(now).has_token()
    }

    /// The budget at `now` after an attempt to take a token of a class out.
    pub open spec fn consumed(self, class: DemandSliceClass, now: Instant) -> Self {
        self.with_bucket(class, self.bucket(class).consumed(now))
    }

    /// The budget after a token of a class has been put back.
    pub open spec fn refunded(self, class: DemandSliceClass) -> Self {
        self.with_bucket(class, self.bucket(class).refunded())
    }

    /// Full buckets.
    pub fn new(now: Instant) -> (budget: Self)
        ensures
            budget == Self::full(now),
    {
        DemandPlannerBudget {
            awaiting_metadata: DemandLaunchTokenBucket::new(
                DHT_AWAITING_METADATA_LAUNCHES_PER_MINUTE,
                DHT_AWAITING_METADATA_LAUNCH_BURST,
                now,
            ),
            no_connected_peers: DemandLaunchTokenBucket::new(
                DHT_NO_CONNECTED_PEERS_LAUNCHES_PER_MINUTE,
                DHT_NO_CONNECTED_PEERS_LAUNCH_BURST,
                now,
            ),
            routine_refresh: DemandLaunchTokenBucket::new(
                DHT_ROUTINE_REFRESH_LAUNCHES_PER_MINUTE,
                DHT_ROUTINE_REFRESH_LAUNCH_BURST,
                now,
            ),
        }
    }

    pub fn bucket_mut(&mut self, class: DemandSliceClass) -> (bucket: &mut DemandLaunchTokenBucket)
        ensures
            *bucket == old(self).bucket(class),
            *final(self) == old(self).with_bucket(class, *final(bucket)),
    {
        match class {
            DemandSliceClass::AwaitingMetadata => &mut self.awaiting_metadata,
            DemandSliceClass::NoConnectedPeers => &mut self.no_connected_peers,
            DemandSliceClass::RoutineRefresh => &mut self.routine_refresh,
        }
    }

    /// Brings every bucket up to `now`.
    pub fn refill(&mut self, now: Instant)
        ensures
            *final(self) == old(self).refilled(now),
    {
        self.awaiting_metadata.refill(now);
        self.no_connected_peers.refill(now);
        self.routine_refresh.refill(now);
    }

    /// Takes a token of a class out at `now`, where there is one.
    pub fn try_consume(&mut self, class: DemandSliceClass, now: Instant) -> (taken: bool)
        ensures
            *final(self) == old(self).consumed(class, now),
            taken == old(self).has_token(class, now),
    {
        self.bucket_mut(class).try_consume(now)
    }

    /// Puts a token of a class back.
    pub fn refund(&mut self, class: DemandSliceClass)
        ensures
            *final(self) == old(self).refunded(class),
    {
        self.bucket_mut(class).refund();
    }

    /// Brings the bucket of a class up to `now` and counts its whole tokens.
    pub fn available(&mut self, class: DemandSliceClass, now: Instant) -> (tokens: usize)
        ensures
            *final(self) == old(self).with_bucket(class, old(self).bucket(class).refilled(now)),
            tokens == (old(self).bucket(class).refilled(now).tokens_scaled
                / DHT_PLANNER_TOKEN_SCALE) as usize,
    {
        let bucket = self.bucket_mut(class);
        bucket.refill(now);
        bucket.available()
    }
}

/// A bucket that is brought up to the same time twice stands as after the first time.
pub proof fn refill_is_idempotent(bucket: DemandLaunchTokenBucket, now: Instant)
    ensures
        bucket.refilled(now).refilled(now) == bucket.refilled(now),
{
}

/// A bucket never holds more than its burst, whatever is done with it.
pub proof fn tokens_stay_within_burst(bucket: DemandLaunchTokenBucket, now: Instant)
    requires
        bucket.tokens_scaled <= bucket.burst_scaled,
    ensures
        bucket.refilled(now).tokens_scaled <= bucket.burst_scaled,
        bucket.consumed(now).tokens_scaled <= bucket.burst_scaled,
        bucket.refunded().tokens_scaled <= bucket.burst_scaled,
        bucket.refilled(now).burst_scaled == bucket.burst_scaled,
        bucket.consumed(now).burst_scaled == bucket.burst_scaled,
        bucket.refunded().burst_scaled == bucket.burst_scaled,
{
}

/// Putting a token back undoes taking it out.
pub proof fn refund_undoes_consume(bucket: DemandLaunchTokenBucket, now: Instant)
    requires
        bucket.tokens_scaled <= bucket.burst_scaled,
        bucket.refilled(now).has_token(),
    ensures
        bucket.consumed(now).refunded() == bucket.refilled(now),
{
}

/// A division that is done in two parts, with what is left over carried along, loses nothing.
proof fn lemma_two_parts(first: int, second: int, period: int)
    requires
        0 <= first,
        0 <= second,
        0 < period,
    ensures
        (first + second) / period == first / period + (first % period + second) / period,
        (first + second) % period == (first % period + second) % period,
{
    let quotient = first / period;
    let left = first % period;
    assert(first == period * quotient + left) by {
        vstd::arithmetic::div_mod::lemma_fundamental_div_mod(first, period);
    }
    vstd::arithmetic::div_mod::lemma_div_multiples_vanish_fancy(quotient, left, period);
    vstd::arithmetic::div_mod::lemma_hoist_over_denominator(left + second, quotient, period as nat);
    vstd::arithmetic::div_mod::lemma_mod_multiples_vanish(quotient, left + second, period);
    assert(first + second == left + second + quotient * period) by (nonlinear_arith)
        requires
            first == period * quotient + left,
    ;
}

/// Bringing a bucket up to now in two parts comes to the same as doing it at once, where the parts
/// hold as many whole milliseconds as both together: no fraction of a token is lost by looking often.
/// The fractions that come in are not more than can be counted.
pub proof fn refill_in_parts_loses_nothing(
    bucket: DemandLaunchTokenBucket,
    middle: Instant,
    now: Instant,
)
    requires
        bucket.last_refill_at <= middle <= now,
        millis(elapsed(now, bucket.last_refill_at)) == millis(
            elapsed(middle, bucket.last_refill_at),
        ) + millis(elapsed(now, middle)),
        (bucket.refill_per_minute * DHT_PLANNER_TOKEN_SCALE * millis(
            elapsed(now, bucket.last_refill_at),
        ) + bucket.refill_remainder) / (REFILL_PERIOD_MS as int) <= u64::MAX,
    ensures
        bucket.refilled(middle).refilled(now) == bucket.refilled(now),
{
    let rate = (bucket.refill_per_minute * DHT_PLANNER_TOKEN_SCALE) as int;
    let period = REFILL_PERIOD_MS as int;
    let early = millis(elapsed(middle, bucket.last_refill_at)) as int;
    let late = millis(elapsed(now, middle)) as int;
    let whole = millis(elapsed(now, bucket.last_refill_at)) as int;
    let remainder = bucket.refill_remainder as int;
    if middle > bucket.last_refill_at && now > middle {
        assert(rate * whole == rate * early + rate * late) by (nonlinear_arith)
            requires
                whole == early + late,
        ;
        assert(0 <= rate * early <= rate * whole && 0 <= rate * late <= rate * whole)
            by (nonlinear_arith)
            requires
                0 <= early,
                0 <= late,
                0 <= rate,
                whole == early + late,
        ;
        assert((rate * early + remainder) / period <= (rate * whole + remainder) / period)
            by (nonlinear_arith)
            requires
                rate * early <= rate * whole,
                period > 0,
        ;
        lemma_two_parts(rate * early + remainder, rate * late, period);
    }
}

} // verus!
