//! A limiter that lets something happen at most once per period.
use vstd::prelude::*;

verus! {

/// Averaging rate limiter shared by the diagnostics so their echo logs tick at the same cadence.
/// Times are in nanoseconds.
#[derive(Debug, Clone, Copy, PartialEq, Eq, Structural)]
pub struct AverageRateLimiter {
    period_ns: u128,
    elapsed_ns: u128,
}

impl AverageRateLimiter {
    pub closed spec fn period(self) -> nat {
        self.period_ns as nat
    }

    /// The time since the last time it allowed something, as far as it counts.
    pub closed spec fn elapsed(self) -> nat {
        self.elapsed_ns as nat
    }

    #[verifier::type_invariant]
    pub closed spec fn inv(self) -> bool {
        self.elapsed_ns <= self.period_ns
    }

    /// A limiter that allows something right away.
    pub fn new(period_ns: u128) -> (r: Self)
        ensures
            r.period() == period_ns,
            r.elapsed() == period_ns,
    {
        AverageRateLimiter { period_ns, elapsed_ns: period_ns }
    }

    /// A limiter for a rate, given in thousandths of a hertz.
    pub fn from_hz(millihertz: u64) -> (r: Self)
        requires
            millihertz > 0,
        ensures
            r.period() == 1_000_000_000_000int / (millihertz as int),
            r.elapsed() == r.period(),
    {
        Self::new((1_000_000_000_000 / millihertz) as u128)
    }

    /// Lets time pass.
    pub fn tick(&mut self, delta_ns: u128)
        ensures
            old(self).elapsed() <= old(self).period(),
            final(self).elapsed() <= final(self).period(),
            final(self).period() == old(self).period(),
            final(self).elapsed() == (if old(self).elapsed() + delta_ns < old(self).period() {
                (old(self).elapsed() + delta_ns) as nat
            } else {
                old(self).period()
            }),
    {
        proof {
            use_type_invariant(&*self);
        }
        let missing_ns: u128 = self.period_ns - self.elapsed_ns;
        if delta_ns < missing_ns {
            self.elapsed_ns = self.elapsed_ns + delta_ns;
        } else {
            self.elapsed_ns = self.period_ns;
        }
    }

    /// Whether a whole period has passed. If so, the next one begins.
    pub fn allow(&mut self) -> (r: bool)
        ensures
            old(self).elapsed() <= old(self).period(),
            final(self).elapsed() <= final(self).period(),
            final(self).period() == old(self).period(),
            r == (old(self).elapsed() == old(self).period()),
            final(self).elapsed() == (if r {
                0
            } else {
                old(self).elapsed()
            }),
    {
        proof {
            use_type_invariant(&*self);
        }
        if self.elapsed_ns < self.period_ns {
            return false;
        }
        self.elapsed_ns = 0;
        true
    }
}

/// The counted time after time has passed in steps of the given lengths.
pub open spec fn after_ticks(period: nat, elapsed: nat, ticks: Seq<nat>) -> nat
    decreases ticks.len(),
{
    if ticks.len() == 0 {
        elapsed
    } else {
        let before = after_ticks(period, elapsed, ticks.drop_last());
        if before + ticks.last() < period {
            before + ticks.last()
        } else {
            period
        }
    }
}

/// The sum of a list of numbers.
pub open spec fn total(ticks: Seq<nat>) -> nat
    decreases ticks.len(),
{
    if ticks.len() == 0 {
        0
    } else {
        total(ticks.drop_last()) + ticks.last()
    }
}

/// Between two things that it allows lies at least a period, however the time passed in steps, and
/// after a period it does allow the next one.
pub proof fn law_allows_once_per_period(period: nat, ticks: Seq<nat>)
    ensures
        after_ticks(period, 0, ticks) == period <==> total(ticks) >= period,
{
    lemma_after_ticks(period, ticks);
}

proof fn lemma_after_ticks(period: nat, ticks: Seq<nat>)
    ensures
        after_ticks(period, 0, ticks) == (if total(ticks) < period {
            total(ticks)
        } else {
            period
        }),
    decreases ticks.len(),
{
    if ticks.len() > 0 {
        lemma_after_ticks(period, ticks.drop_last());
    }
}

} // verus!
