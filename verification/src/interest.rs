//! The global interest index: a single multiplicative accumulator standing
//! for the product of `1 + rate * elapsed` over every accrual interval since
//! the system started.  Accounts and vaults never iterate; each stores a
//! snapshot of this index and converts its raw units on demand.

use vstd::prelude::*;
use vstd::arithmetic::div_mod::{lemma_div_is_ordered, lemma_div_multiples_vanish};
use vstd::arithmetic::mul::lemma_mul_inequality;
use crate::{AMOUNT_LIMIT, E12};

verus! {

/// Raised by accrual when the external rate feed gave no answer.
#[derive(Clone, Copy, Debug, PartialEq, Eq, Structural)]
pub enum IndexError {
    FeedUnavailable,
}

/// The lazily updated interest accumulator.
///
/// `index_e12` starts at `E12` (1.0) and is multiplied by
/// `1 + rate * elapsed` whenever time has passed; it is floored at 1 so a
/// negative rate can never drive it to zero.  `rate_e12` is the last rate the
/// external feed reported, per unit of time, scaled by `E12`; it may be
/// negative.
pub struct InterestIndex {
    pub index_e12: u128,
    pub last_timestamp: u64,
    pub rate_e12: i128,
}

impl InterestIndex {
    /// Bounds under which every accrual product fits in the machine types.
    pub open spec fn wf(self) -> bool {
        1 <= self.index_e12 <= AMOUNT_LIMIT
    }

    /// The multiplier (scaled by `E12`) the elapsed time earns at this rate.
    pub open spec fn growth_factor(self, now: u64) -> int {
        E12 + (now - self.last_timestamp) * self.rate_e12
    }

    /// What the index becomes once time `now` is accounted for: unchanged if
    /// no time passed, otherwise multiplied by the growth factor (floor
    /// division) and kept at 1 or above.
    pub open spec fn accrued_index(self, now: u64) -> int {
        if now <= self.last_timestamp {
            self.index_e12 as int
        } else if self.growth_factor(now) <= 0 {
            1
        } else {
            let raw = self.index_e12 * self.growth_factor(now) / (E12 as int);
            if raw < 1 {
                1
            } else {
                raw
            }
        }
    }

    /// The state after an accrual at time `now`.
    pub open spec fn accrued_state(self, now: u64) -> InterestIndex {
        InterestIndex {
            index_e12: self.accrued_index(now) as u128,
            last_timestamp: if now > self.last_timestamp {
                now
            } else {
                self.last_timestamp
            },
            rate_e12: self.rate_e12,
        }
    }

    /// The same state with another rate, as the feed hands one in.
    pub open spec fn with_rate(self, rate_e12: i128) -> InterestIndex {
        InterestIndex { rate_e12, ..self }
    }

    /// Machine limits: the elapsed-times-rate product stays within `i128`
    /// and the accrued index within the amount bound.
    pub open spec fn accrue_fits(self, now: u64) -> bool {
        now > self.last_timestamp ==> {
            let p = (now - self.last_timestamp) * self.rate_e12;
            &&& i128::MIN <= p
            &&& p + E12 <= i128::MAX
            &&& self.accrued_index(now) <= AMOUNT_LIMIT
        }
    }

    /// A fresh index: 1.0, nothing elapsed, at the given rate.
    pub fn new(now: u64, rate_e12: i128) -> (r: InterestIndex)
        ensures
            r.wf(),
            r.index_e12 == E12,
            r.last_timestamp == now,
            r.rate_e12 == rate_e12,
    {
        InterestIndex { index_e12: E12, last_timestamp: now, rate_e12 }
    }

    /// Compound the stored rate over the time elapsed since the last update,
    /// and remember `now`.  The index never decreases under a non-negative
    /// rate, never increases under a non-positive one, and never leaves the
    /// positive range.
    pub fn accrue(&mut self, now: u64) -> (r: u128)
        requires
            old(self).wf(),
            old(self).accrue_fits(now),
        ensures
            *final(self) == old(self).accrued_state(now),
            final(self).wf(),
            r == final(self).index_e12,
            old(self).rate_e12 >= 0 ==> final(self).index_e12 >= old(self).index_e12,
            old(self).rate_e12 <= 0 ==> final(self).index_e12 <= old(self).index_e12,
    {
        proof {
            old(self).lemma_accrued_bounds(now);
        }
        if now > self.last_timestamp {
            let elapsed: u64 = now - self.last_timestamp;
            let p: i128 = (elapsed as i128) * self.rate_e12;
            self.last_timestamp = now;
            if p <= -(E12 as i128) {
                self.index_e12 = 1;
            } else {
                let factor: u128 = ((E12 as i128) + p) as u128;
                let raw: u128 = self.index_e12 * factor / E12;
                self.index_e12 = if raw < 1 {
                    1
                } else {
                    raw
                };
            }
        }
        self.index_e12
    }

    /// What `accrue` would return at time `now`, without touching the state:
    /// read-only views use this so balances reflect real time.
    pub fn peek(&self, now: u64) -> (r: u128)
        requires
            self.wf(),
            self.accrue_fits(now),
        ensures
            r == self.accrued_index(now),
    {
        proof {
            self.lemma_accrued_bounds(now);
        }
        if now > self.last_timestamp {
            let elapsed: u64 = now - self.last_timestamp;
            let p: i128 = (elapsed as i128) * self.rate_e12;
            if p <= -(E12 as i128) {
                1
            } else {
                let factor: u128 = ((E12 as i128) + p) as u128;
                let raw: u128 = self.index_e12 * factor / E12;
                if raw < 1 {
                    1
                } else {
                    raw
                }
            }
        } else {
            self.index_e12
        }
    }

    /// Take the rate the external feed reported and compound with it; with no
    /// answer from the feed, fail and leave the state untouched.
    pub fn accrue_with_feed(&mut self, now: u64, rate_feed: Option<i128>) -> (r: Result<
        u128,
        IndexError,
    >)
        requires
            old(self).wf(),
            rate_feed matches Some(rate) ==> old(self).with_rate(rate).accrue_fits(now),
        ensures
            rate_feed is None <==> r == Err::<u128, IndexError>(IndexError::FeedUnavailable),
            rate_feed is None ==> *final(self) == *old(self),
            rate_feed matches Some(rate) ==> {
                &&& *final(self) == old(self).with_rate(rate).accrued_state(now)
                &&& r == Ok::<u128, IndexError>(final(self).index_e12)
            },
            final(self).wf(),
    {
        match rate_feed {
            None => Err(IndexError::FeedUnavailable),
            Some(rate) => {
                self.rate_e12 = rate;
                Ok(self.accrue(now))
            },
        }
    }

    /// The accrued index stays at least 1, at most the amount bound, and
    /// moves with the sign of the rate.
    pub proof fn lemma_accrued_bounds(self, now: u64)
        requires
            self.wf(),
            self.accrue_fits(now),
        ensures
            1 <= self.accrued_index(now) <= AMOUNT_LIMIT,
            self.rate_e12 >= 0 ==> self.accrued_index(now) >= self.index_e12,
            self.rate_e12 <= 0 ==> self.accrued_index(now) <= self.index_e12,
    {
        if now > self.last_timestamp {
            let f = self.growth_factor(now);
            let idx = self.index_e12 as int;
            if self.rate_e12 >= 0 {
                assert((now - self.last_timestamp) * self.rate_e12 >= 0) by (nonlinear_arith)
                    requires
                        now > self.last_timestamp,
                        self.rate_e12 >= 0,
                ;
                lemma_mul_inequality(E12 as int, f, idx);
                lemma_div_is_ordered(idx * (E12 as int), idx * f, E12 as int);
                lemma_div_multiples_vanish(idx, E12 as int);
                assert(idx * (E12 as int) == (E12 as int) * idx);
            }
            if self.rate_e12 <= 0 {
                assert((now - self.last_timestamp) * self.rate_e12 <= 0) by (nonlinear_arith)
                    requires
                        now > self.last_timestamp,
                        self.rate_e12 <= 0,
                ;
                if f > 0 {
                    lemma_mul_inequality(f, E12 as int, idx);
                    lemma_div_is_ordered(idx * f, idx * (E12 as int), E12 as int);
                    lemma_div_multiples_vanish(idx, E12 as int);
                    assert(idx * (E12 as int) == (E12 as int) * idx);
                }
            }
        }
    }

    /// The state a whole run of accruals leaves behind, one accrual per
    /// listed time.
    pub open spec fn accrued_over(self, times: Seq<u64>) -> InterestIndex
        decreases times.len(),
    {
        if times.len() == 0 {
            self
        } else {
            self.accrued_state(times[0]).accrued_over(times.drop_first())
        }
    }

    /// Machine bounds hold at every step of a run of accruals.
    pub open spec fn accrue_run_fits(self, times: Seq<u64>) -> bool
        decreases times.len(),
    {
        times.len() > 0 ==> self.accrue_fits(times[0]) && self.accrued_state(
            times[0],
        ).accrue_run_fits(times.drop_first())
    }

    /// Accrual monotonicity over any run of accruals: under a non-negative
    /// rate the index never decreases, under a non-positive rate it never
    /// increases, and it never leaves the positive range either way.
    pub proof fn lemma_accrual_monotone_over_run(self, times: Seq<u64>)
        requires
            self.wf(),
            self.accrue_run_fits(times),
        ensures
            self.accrued_over(times).wf(),
            self.accrued_over(times).rate_e12 == self.rate_e12,
            self.rate_e12 >= 0 ==> self.accrued_over(times).index_e12 >= self.index_e12,
            self.rate_e12 <= 0 ==> self.accrued_over(times).index_e12 <= self.index_e12,
            self.accrued_over(times).index_e12 >= 1,
        decreases times.len(),
    {
        if times.len() > 0 {
            self.lemma_accrued_bounds(times[0]);
            self.accrued_state(times[0]).lemma_accrual_monotone_over_run(times.drop_first());
        }
    }

    /// Accruing twice at the same time moves nothing the second time: the
    /// index an accrual leaves behind is exactly the index a repeated accrual
    /// at the same instant reports again.
    pub proof fn lemma_accrue_idempotent(self, now: u64)
        requires
            self.wf(),
            self.accrue_fits(now),
        ensures
            self.accrued_state(now).accrued_index(now) == self.accrued_index(now),
            self.accrued_state(now).accrued_state(now) == self.accrued_state(now),
    {
        self.lemma_accrued_bounds(now);
    }
}

} // verus!
