//! Time weighted average prices.
//!
//! A [`Twap`] stores a time weighted average price, the time of its last
//! update, and the period over which prices are averaged. Each update mixes the
//! previous average with a new price, weighted by how long ago the last update
//! was relative to the period.
use crate::arith::{
    multiply_by_rational_with_rounding, ArithmeticError, DIV, Rounding, UnsignedDecimal,
};
use vstd::arithmetic::div_mod::{
    lemma_div_by_multiple, lemma_div_denominator, lemma_fundamental_div_mod,
    lemma_fundamental_div_mod_converse_div, lemma_hoist_over_denominator,
};
use vstd::prelude::*;

verus! {

/// The average of `t` and `p` with weights `f` and `s`, rounded down.
pub open spec fn weighted_average(t: int, p: int, f: int, s: int) -> int {
    (t * f + p * s) / (f + s)
}

/// The outcome of mixing the average `t` with the price `p`, with weight `f`
/// for the old average and `s` for the new price.
pub open spec fn update_spec(t: int, p: int, f: int, s: int) -> Result<UnsignedDecimal, ArithmeticError> {
    if f + s == 0 {
        Err(ArithmeticError::DivisionByZero)
    } else {
        Ok(UnsignedDecimal { inner: weighted_average(t, p, f, s) as u128 })
    }
}

/// The outcome of the weighted average computed with 128-bit fixed-point
/// operations only.
pub open spec fn fast_spec(t: int, p: int, f: int, s: int) -> Result<UnsignedDecimal, ArithmeticError> {
    if f + s > u64::MAX {
        Err(ArithmeticError::Overflow)
    } else if t * f > u128::MAX || p * s > u128::MAX || t * f + p * s > u128::MAX {
        Err(ArithmeticError::Overflow)
    } else if f + s == 0 {
        Err(ArithmeticError::DivisionByZero)
    } else {
        Ok(UnsignedDecimal { inner: weighted_average(t, p, f, s) as u128 })
    }
}

/// The weighted average of two non-negative values lies between them.
pub proof fn lemma_weighted_average_bounds(t: int, p: int, f: int, s: int)
    requires
        0 <= t,
        0 <= p,
        0 <= f,
        0 <= s,
        f + s > 0,
    ensures
        t <= p ==> t <= weighted_average(t, p, f, s) <= p,
        p <= t ==> p <= weighted_average(t, p, f, s) <= t,
{
    let b = f + s;
    if t <= p {
        lemma_weighted_average_up(t, p, f, s);
        assert((p - t) * s <= (p - t) * b) by (nonlinear_arith)
            requires
                p - t >= 0,
                s <= b,
        ;
        assert(((p - t) * s) / b <= p - t) by {
            lemma_div_by_multiple(p - t, b);
            assert((p - t) * b / b == p - t);
            vstd::arithmetic::div_mod::lemma_div_is_ordered((p - t) * s, (p - t) * b, b);
        }
        assert(((p - t) * s) / b >= 0) by (nonlinear_arith)
            requires
                p - t >= 0,
                s >= 0,
                b > 0,
        ;
    } else {
        lemma_weighted_average_down(t, p, f, s);
        let y = (t - p) * s;
        assert(y <= (t - p) * b) by (nonlinear_arith)
            requires
                y == (t - p) * s,
                t - p >= 0,
                s <= b,
        ;
        assert(y >= 0) by (nonlinear_arith)
            requires
                y == (t - p) * s,
                t - p >= 0,
                s >= 0,
        ;
        lemma_fundamental_div_mod(y, b);
        assert(y / b <= t - p) by {
            lemma_div_by_multiple(t - p, b);
            vstd::arithmetic::div_mod::lemma_div_is_ordered(y, (t - p) * b, b);
        }
        if y % b > 0 {
            assert(y / b < t - p) by (nonlinear_arith)
                requires
                    y == b * (y / b) + y % b,
                    y % b > 0,
                    y <= (t - p) * b,
                    b > 0,
            ;
        }
        assert(y / b >= 0) by (nonlinear_arith)
            requires
                y >= 0,
                b > 0,
        ;
    }
}

/// When the new price is at least the old average, the weighted average is the
/// old average plus a rounded-down share of the difference.
proof fn lemma_weighted_average_up(t: int, p: int, f: int, s: int)
    requires
        f + s > 0,
    ensures
        weighted_average(t, p, f, s) == t + ((p - t) * s) / (f + s),
{
    let b = f + s;
    assert(t * f + p * s == (p - t) * s + t * b) by (nonlinear_arith)
        requires
            b == f + s,
    ;
    lemma_hoist_over_denominator((p - t) * s, t, b as nat);
}

/// When the new price is below the old average, the weighted average is the
/// old average minus a rounded-up share of the difference.
proof fn lemma_weighted_average_down(t: int, p: int, f: int, s: int)
    requires
        f + s > 0,
        (t - p) * s >= 0,
    ensures
        weighted_average(t, p, f, s) == t - (((t - p) * s) / (f + s) + if ((t - p) * s) % (f
            + s) > 0 {
            1int
        } else {
            0int
        }),
{
    let b = f + s;
    let y = (t - p) * s;
    assert(t * f + p * s == t * b - y) by (nonlinear_arith)
        requires
            b == f + s,
            y == (t - p) * s,
    ;
    lemma_fundamental_div_mod(y, b);
    let q = y / b;
    let r = y % b;
    if r == 0 {
        assert(t * b - y == (t - q) * b + 0) by (nonlinear_arith)
            requires
                y == b * q + r,
                r == 0,
        ;
        lemma_fundamental_div_mod_converse_div(t * b - y, b, t - q, 0);
    } else {
        assert(t * b - y == (t - q - 1) * b + (b - r)) by (nonlinear_arith)
            requires
                y == b * q + r,
        ;
        lemma_fundamental_div_mod_converse_div(t * b - y, b, t - q - 1, b - r);
    }
}

/// `(a * DIV) / (DIV * b) == a / b` for a non-negative `a` and positive `b`.
proof fn lemma_cancel_unit(a: int, b: int)
    requires
        a >= 0,
        b > 0,
    ensures
        (a * DIV) / (DIV * b) == a / b,
{
    lemma_div_denominator(a * DIV, DIV as int, b);
    lemma_div_by_multiple(a, DIV as int);
}

/// The time weighted average price together with its most recent timestamp and
/// the averaging period.
#[derive(Clone, Copy, Debug, PartialEq, Eq, Structural)]
pub struct Twap {
    /// The time weighted average price.
    pub twap: UnsignedDecimal,
    /// The last time when the average was updated.
    pub ts: u64,
    /// The period over which prices are averaged.
    pub period: u64,
}

impl Twap {
    /// Creates a new [`Twap`] instance.
    pub fn new(twap: UnsignedDecimal, ts: u64, period: u64) -> (r: Twap)
        ensures
            r == (Twap { twap, ts, period }),
    {
        Twap { twap, ts, period }
    }

    /// Returns the average price.
    pub fn get_twap(&self) -> (r: UnsignedDecimal)
        ensures
            r == self.twap,
    {
        self.twap
    }

    /// Sets the average price and returns it.
    pub fn set_twap(&mut self, price: UnsignedDecimal) -> (r: UnsignedDecimal)
        ensures
            r == price,
            *final(self) == (Twap { twap: price, ..*old(self) }),
    {
        self.twap = price;
        price
    }

    /// Returns the timestamp of the last update.
    pub fn get_timestamp(&self) -> (r: u64)
        ensures
            r == self.ts,
    {
        self.ts
    }

    /// Sets the timestamp and returns it.
    pub fn set_timestamp(&mut self, timestamp: u64) -> (r: u64)
        ensures
            r == timestamp,
            *final(self) == (Twap { ts: timestamp, ..*old(self) }),
    {
        self.ts = timestamp;
        timestamp
    }

    /// Returns the averaging period.
    pub fn get_period(&self) -> (r: u64)
        ensures
            r == self.period,
    {
        self.period
    }

    /// Updates the average with `price` observed at time `now`, using the
    /// default exponential moving average function, and returns the new
    /// average.
    ///
    /// The price weighs as much as the time since the last update (at least
    /// one), the old average as much as what remains of the period. The update
    /// always succeeds, and once a whole period has passed since the last update
    /// the average becomes `price`.
    pub fn accumulate(&mut self, price: &UnsignedDecimal, now: u64) -> (r: Result<
        UnsignedDecimal,
        ArithmeticError,
    >)
        ensures
            ({
                let since_last = if now > old(self).ts && now - old(self).ts > 1 {
                    now - old(self).ts
                } else {
                    1int
                };
                let from_start = if old(self).period > since_last {
                    old(self).period - since_last
                } else {
                    0int
                };
                &&& r == Ok::<UnsignedDecimal, ArithmeticError>(final(self).twap)
                &&& final(self).twap.inner == weighted_average(
                    old(self).twap.inner as int,
                    price.inner as int,
                    from_start,
                    since_last,
                )
                &&& final(self).ts == now
                &&& final(self).period == old(self).period
            }),
            now >= old(self).ts + old(self).period ==> r == Ok::<UnsignedDecimal, ArithmeticError>(
                *price,
            ),
    {
        let elapsed = now.saturating_sub(self.ts);
        let since_last: u64 = if elapsed > 1 {
            elapsed
        } else {
            1
        };
        let from_start = self.period.saturating_sub(since_last);
        let res = self.update_mut(price, from_start, since_last, now);
        proof {
            lemma_weighted_average_bounds(
                old(self).twap.inner as int,
                price.inner as int,
                from_start as int,
                since_last as int,
            );
            if now >= old(self).ts + old(self).period {
                assert(from_start == 0);
                let t0 = old(self).twap.inner as int;
                assert((t0 * 0 + price.inner * since_last) == price.inner * since_last) by (nonlinear_arith);
                lemma_div_by_multiple(price.inner as int, since_last as int);
            }
        }
        match res {
            Ok(()) => Ok(self.twap),
            Err(e) => Err(e),
        }
    }

    /// Simulates the update of the average, returning the value that would
    /// become the new average without modifying the current one.
    pub fn update(&self, price: &UnsignedDecimal, from_start: u64, since_last: u64) -> (r: Result<
        UnsignedDecimal,
        ArithmeticError,
    >)
        ensures
            r == update_spec(self.twap.inner as int, price.inner as int, from_start as int, since_last as int),
    {
        match self.fast_weighted_average(price, from_start, since_last) {
            Ok(v) => Ok(v),
            Err(_) => self.slow_weighted_average(price, from_start, since_last),
        }
    }

    /// Updates the average like [`Twap::update`] and sets the timestamp to `ts`.
    /// On failure the average is unchanged.
    pub fn update_mut(&mut self, price: &UnsignedDecimal, from_start: u64, since_last: u64, ts: u64) -> (r:
        Result<(), ArithmeticError>)
        ensures
            match update_spec(old(self).twap.inner as int, price.inner as int, from_start as int, since_last as int) {
                Ok(v) => r == Ok::<(), ArithmeticError>(()) && *final(self) == (Twap { twap: v, ts, period: old(self).period }),
                Err(e) => r == Err::<(), ArithmeticError>(e) && *final(self) == *old(self),
            },
    {
        let v = self.update(price, from_start, since_last)?;
        self.twap = v;
        self.ts = ts;
        Ok(())
    }

    /// The weighted average computed with 128-bit fixed-point operations; fails
    /// when an intermediate product does not fit.
    pub fn fast_weighted_average(&self, price: &UnsignedDecimal, from_start: u64, since_last: u64) -> (r:
        Result<UnsignedDecimal, ArithmeticError>)
        ensures
            r == fast_spec(self.twap.inner as int, price.inner as int, from_start as int, since_last as int),
    {
        let t = self.twap.inner;
        let p = price.inner;
        let total = match since_last.checked_add(from_start) {
            Some(v) => v,
            None => return Err(ArithmeticError::Overflow),
        };
        assert(DIV * total <= DIV * u64::MAX) by (nonlinear_arith)
            requires total <= u64::MAX;
        assert(DIV * from_start <= DIV * u64::MAX) by (nonlinear_arith)
            requires from_start <= u64::MAX;
        assert(DIV * since_last <= DIV * u64::MAX) by (nonlinear_arith)
            requires since_last <= u64::MAX;
        let denominator = UnsignedDecimal::from_inner(DIV * (total as u128));
        let w0 = UnsignedDecimal::from_inner(DIV * (from_start as u128));
        let w1 = UnsignedDecimal::from_inner(DIV * (since_last as u128));
        proof {
            assert(t * (DIV * from_start) == (t * from_start) * DIV) by (nonlinear_arith);
            assert(p * (DIV * since_last) == (p * since_last) * DIV) by (nonlinear_arith);
            assert(t * from_start >= 0) by (nonlinear_arith);
            assert(p * since_last >= 0) by (nonlinear_arith);
            lemma_div_by_multiple(t * from_start, DIV as int);
            lemma_div_by_multiple(p * since_last, DIV as int);
        }
        let twap_t0 = self.twap.try_mul(w0)?;
        let twap_t1 = price.try_mul(w1)?;
        let sum = twap_t0.try_add(twap_t1)?;
        proof {
            if total > 0 {
                lemma_cancel_unit(sum.inner as int, total as int);
            }
        }
        sum.try_div(denominator)
    }

    /// The weighted average computed exactly over a wide intermediate: the
    /// unit-scaled products of both values with their weights, summed and
    /// divided by the unit-scaled total weight. Fails only when the total weight
    /// is zero.
    pub fn slow_weighted_average(&self, price: &UnsignedDecimal, from_start: u64, since_last: u64) -> (r:
        Result<UnsignedDecimal, ArithmeticError>)
        ensures
            ({
                let unit = DIV as int;
                let t = self.twap.inner as int;
                let p = price.inner as int;
                let f = from_start as int;
                let s = since_last as int;
                &&& unit * (s + f) == 0 ==> r == Err::<UnsignedDecimal, ArithmeticError>(ArithmeticError::DivisionByZero)
                &&& unit * (s + f) != 0 ==> r == Ok::<UnsignedDecimal, ArithmeticError>(UnsignedDecimal {
                    inner: ((t * (unit * f) + p * (unit * s)) / (unit * (s + f))) as u128,
                })
            }),
            r == update_spec(self.twap.inner as int, price.inner as int, from_start as int, since_last as int),
    {
        let t = self.twap.inner;
        let p = price.inner;
        let total: u128 = (since_last as u128) + (from_start as u128);
        if total == 0 {
            return Err(ArithmeticError::DivisionByZero);
        }
        proof {
            let unit = DIV as int;
            let f = from_start as int;
            let s = since_last as int;
            assert(t * (unit * f) + p * (unit * s) == (t * f + p * s) * unit) by (nonlinear_arith);
            assert(unit * (s + f) == unit * total) by (nonlinear_arith) requires total == s + f;
            assert(t * f + p * s >= 0) by (nonlinear_arith) requires t >= 0, p >= 0, f >= 0, s >= 0;
            lemma_cancel_unit(t * f + p * s, total as int);
            lemma_weighted_average_bounds(t as int, p as int, f, s);
        }
        if p >= t {
            proof {
                lemma_weighted_average_up(t as int, p as int, from_start as int, since_last as int);
            }
            match multiply_by_rational_with_rounding(p - t, since_last as u128, total, Rounding::Down) {
                Some(share) => Ok(UnsignedDecimal::from_inner(t + share)),
                None => Err(ArithmeticError::Overflow),
            }
        } else {
            proof {
                assert((t - p) * since_last >= 0) by (nonlinear_arith) requires t > p;
                lemma_weighted_average_down(t as int, p as int, from_start as int, since_last as int);
            }
            match multiply_by_rational_with_rounding(t - p, since_last as u128, total, Rounding::Up) {
                Some(share) => Ok(UnsignedDecimal::from_inner(t - share)),
                None => Err(ArithmeticError::Overflow),
            }
        }
    }
}

} // verus!
