//! The emission rate: it starts at a minimum and doubles on a cooldown until
//! it reaches a maximum.

use vstd::prelude::*;

verus! {

/// Seconds that must pass after one increase before the next.
pub const COOLDOWN_SECS: u64 = 60;

/// What `RateController::new` reports for rates it does not accept.
pub const INVALID_RATES: &'static str = "Invalid rate parameters";

/// What a rate controller holds, as mathematics. Times are whole seconds on
/// the caller's clock.
pub struct RateState {
    pub min_rate: nat,
    pub max_rate: nat,
    pub current_rate: nat,
    pub last_increase: nat,
}

impl RateState {
    /// Whether a pair of rates is accepted at construction: both positive,
    /// the minimum no greater than the maximum.
    pub open spec fn accepts(min_rate: nat, max_rate: nat) -> bool {
        0 < min_rate <= max_rate
    }

    /// The state right after construction at time `now`.
    pub open spec fn initial(min_rate: nat, max_rate: nat, now: nat) -> RateState {
        RateState { min_rate, max_rate, current_rate: min_rate, last_increase: now }
    }

    /// The bounds are accepted ones and the current rate lies between them.
    pub open spec fn valid(self) -> bool {
        0 < self.min_rate <= self.current_rate <= self.max_rate
    }

    /// Whether an adjustment at time `now` raises the rate: the cooldown has
    /// passed since the last increase and the rate is below the maximum.
    pub open spec fn due(self, now: nat) -> bool {
        now - self.last_increase >= COOLDOWN_SECS && self.current_rate < self.max_rate
    }

    /// The state after an adjustment at time `now`: where an increase is due
    /// the rate doubles, capped at the maximum, and the increase is dated
    /// `now`; otherwise nothing changes.
    pub open spec fn adjust(self, now: nat) -> RateState {
        if self.due(now) {
            RateState {
                current_rate: if 2 * self.current_rate <= self.max_rate {
                    2 * self.current_rate
                } else {
                    self.max_rate
                },
                last_increase: now,
                ..self
            }
        } else {
            self
        }
    }

    /// The state after adjustments at the times `times`, first to last.
    pub open spec fn adjust_all(self, times: Seq<nat>) -> RateState
        decreases times.len(),
    {
        if times.len() == 0 {
            self
        } else {
            self.adjust_all(times.drop_last()).adjust(times.last())
        }
    }
}

/// An adjustment never lowers the rate, keeps it within the bounds and
/// leaves the bounds alone. It changes the state only to raise the rate.
pub proof fn lemma_adjust_monotone(s: RateState, now: nat)
    requires
        s.valid(),
    ensures
        s.adjust(now).valid(),
        s.adjust(now).min_rate == s.min_rate,
        s.adjust(now).max_rate == s.max_rate,
        s.adjust(now).current_rate >= s.current_rate,
        s.adjust(now).current_rate > s.current_rate <==> s.due(now),
        !s.due(now) ==> s.adjust(now) == s,
{
}

/// Where an increase is due, the new rate is the smaller of twice the old
/// rate and the maximum, and the next increase is due no sooner than one
/// cooldown later.
pub proof fn lemma_adjust_doubles(s: RateState, now: nat, later: nat)
    requires
        s.valid(),
        s.due(now),
    ensures
        s.adjust(now).current_rate == vstd::math::min(2 * (s.current_rate as int), s.max_rate as int),
        s.adjust(now).last_increase == now,
        later < now + COOLDOWN_SECS ==> !s.adjust(now).due(later),
{
}

/// A rate that has reached the maximum stays as it is, whatever the time.
pub proof fn lemma_saturated_stays(s: RateState, now: nat)
    requires
        s.valid(),
        s.current_rate == s.max_rate,
    ensures
        s.adjust(now) == s,
{
}

/// Over any run of adjustments the rate never falls and never leaves the
/// bounds.
pub proof fn lemma_adjust_all_monotone(s: RateState, times: Seq<nat>)
    requires
        s.valid(),
    ensures
        s.adjust_all(times).valid(),
        s.adjust_all(times).min_rate == s.min_rate,
        s.adjust_all(times).max_rate == s.max_rate,
        s.adjust_all(times).current_rate >= s.current_rate,
    decreases times.len(),
{
    if times.len() > 0 {
        lemma_adjust_all_monotone(s, times.drop_last());
        lemma_adjust_monotone(s.adjust_all(times.drop_last()), times.last());
    }
}

/// The rate at which quotes are emitted per tick.
pub struct RateController {
    min_rate: u32,
    max_rate: u32,
    current_rate: u32,
    last_increase: u64,
}

impl View for RateController {
    type V = RateState;

    closed spec fn view(&self) -> RateState {
        RateState {
            min_rate: self.min_rate as nat,
            max_rate: self.max_rate as nat,
            current_rate: self.current_rate as nat,
            last_increase: self.last_increase as nat,
        }
    }
}

impl RateController {
    /// The current rate lies between the accepted bounds.
    pub open spec fn wf(&self) -> bool {
        self@.valid()
    }

    /// A controller at `min_rate`, as of time `now`. Rates of zero, and a
    /// minimum above the maximum, are refused with `INVALID_RATES`.
    pub fn new(min_rate: u32, max_rate: u32, now: u64) -> (made: Result<
        RateController,
        &'static str,
    >)
        ensures
            made is Ok <==> RateState::accepts(min_rate as nat, max_rate as nat),
            made matches Ok(rate) ==> rate.wf() && rate@ == RateState::initial(
                min_rate as nat,
                max_rate as nat,
                now as nat,
            ),
            made matches Err(reason) ==> reason@ == INVALID_RATES@,
    {
        if min_rate == 0 || max_rate == 0 || min_rate > max_rate {
            return Err(INVALID_RATES);
        }
        Ok(RateController { min_rate, max_rate, current_rate: min_rate, last_increase: now })
    }

    /// Raises the rate if an increase is due at time `now`.
    pub fn adjust(&mut self, now: u64)
        requires
            old(self).wf(),
        ensures
            final(self).wf(),
            final(self)@ == old(self)@.adjust(now as nat),
    {
        if now >= self.last_increase && now - self.last_increase >= COOLDOWN_SECS
            && self.current_rate < self.max_rate {
            self.current_rate = if self.current_rate <= self.max_rate / 2 {
                self.current_rate * 2
            } else {
                self.max_rate
            };
            self.last_increase = now;
        }
    }

    /// The rate now in force.
    pub fn current_rate(&self) -> (rate: u32)
        ensures
            rate == self@.current_rate,
    {
        self.current_rate
    }

    /// The lower bound given at construction.
    pub fn min_rate(&self) -> (rate: u32)
        ensures
            rate == self@.min_rate,
    {
        self.min_rate
    }

    /// The upper bound given at construction.
    pub fn max_rate(&self) -> (rate: u32)
        ensures
            rate == self@.max_rate,
    {
        self.max_rate
    }

    /// The time of the last increase, or of construction if there was none.
    pub fn last_increase(&self) -> (time: u64)
        ensures
            time == self@.last_increase,
    {
        self.last_increase
    }
}

} // verus!
