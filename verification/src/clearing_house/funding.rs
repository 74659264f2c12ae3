//! Funding rates, oracle TWAP updates and mark/index price guard rails.
use crate::arith::{abs, dec_div_spec, dec_mul_spec, dec_of, fits_i128, trunc_quot, ArithmeticError, Decimal, DIV};
use crate::clearing_house::math::{clip_around_twap, clip_around_twap_spec, is_funding_update_time, is_funding_update_time_spec};
use crate::clearing_house::runtime::{added, extends, pushed_read, reads_extended, Account, Event, Host, Runtime, RuntimeCall, RuntimeRead};
use crate::clearing_house::trading::{sabs, sadd, sdiv, smul, sneg, ssub};
use crate::clearing_house::types::{arith, lift, AssetType, DispatchError, Error, Market, OracleStatus};
use crate::clearing_house::ClearingHouse;
use vstd::prelude::*;

verus! {

/// The weighted average `(x1 * w1 + x2 * w2) / (w1 + w2)` of two decimals.
pub open spec fn weighted_average_spec(x1: Decimal, x2: Decimal, w1: Decimal, w2: Decimal) -> Result<Decimal, DispatchError> {
    match sadd(w1, w2) {
        Err(e) => Err(e),
        Ok(den) => match smul(x1, w1) {
            Err(e) => Err(e),
            Ok(n1) => match smul(x2, w2) {
                Err(e) => Err(e),
                Ok(n2) => match sadd(n1, n2) {
                    Err(e) => Err(e),
                    Ok(num) => sdiv(num, den),
                },
            },
        },
    }
}

/// The weighted average `(x1 * w1 + x2 * w2) / (w1 + w2)` of two decimals.
pub fn weighted_average(x1: &Decimal, x2: &Decimal, w1: &Decimal, w2: &Decimal) -> (r: Result<Decimal, DispatchError>)
    ensures
        r == weighted_average_spec(*x1, *x2, *w1, *w2),
{
    let denominator = arith(w1.try_add(*w2))?;
    let num_1 = arith(x1.try_mul(*w1))?;
    let num_2 = arith(x2.try_mul(*w2))?;
    let numerator = arith(num_1.try_add(num_2))?;
    arith(numerator.try_div(denominator))
}

/// The decimal `x` clamped to `[lo, hi]`, failing when `lo > hi`.
pub open spec fn clamp_spec(x: Decimal, lo: Decimal, hi: Decimal) -> Result<Decimal, DispatchError> {
    if lo.inner > hi.inner {
        Err(DispatchError::Arithmetic(ArithmeticError::Underflow))
    } else if x.inner < lo.inner {
        Ok(lo)
    } else if x.inner > hi.inner {
        Ok(hi)
    } else {
        Ok(x)
    }
}

/// The market after recording an oracle price at time `now`.
///
/// The price is clipped to within a third of the oracle TWAP and to within
/// 10 basis points of the last oracle price (each taken to be the price itself
/// when not yet positive); a nonpositive clipped price leaves the market
/// unchanged. The TWAP mixes the price, weighted by the time since the last
/// update, with the old TWAP, weighted by what remains of the TWAP period
/// (both at least one second).
pub open spec fn update_oracle_twap_spec(market: Market, oracle_price: Decimal, now: u64) -> Result<Market, DispatchError> {
    let last_twap = if market.last_oracle_twap.inner > 0 { market.last_oracle_twap } else { oracle_price };
    match clip_around_twap_spec(oracle_price, last_twap) {
        Err(e) => Err(e),
        Ok(p1) => if p1.inner > 0 {
            let last_price = if market.last_oracle_price.inner > 0 { market.last_oracle_price } else { p1 };
            match sdiv(last_price, Decimal { inner: (1000 * DIV) as i128 }) {
                Err(e) => Err(e),
                Ok(bp10) => match ssub(last_price, bp10) {
                    Err(e) => Err(e),
                    Ok(lo) => match sadd(last_price, bp10) {
                        Err(e) => Err(e),
                        Ok(hi) => match clamp_spec(p1, lo, hi) {
                            Err(e) => Err(e),
                            Ok(p2) => {
                                let since_last: int = if now > market.last_oracle_ts && now - market.last_oracle_ts > 1 { now - market.last_oracle_ts } else { 1 };
                                let from_start: int = if market.twap_period > since_last && market.twap_period - since_last > 1 { market.twap_period - since_last } else { 1 };
                                match weighted_average_spec(p2, last_twap, Decimal { inner: (since_last * DIV) as i128 }, Decimal { inner: (from_start * DIV) as i128 }) {
                                    Err(e) => Err(e),
                                    Ok(t) => Ok(Market { last_oracle_price: p2, last_oracle_twap: t, last_oracle_ts: now, ..market }),
                                }
                            },
                        },
                    },
                },
            }
        } else {
            Ok(market)
        },
    }
}

/// Records an oracle price in the market, updating its oracle TWAP. On failure
/// the market is unchanged.
pub fn update_oracle_twap_with_price(market: &mut Market, oracle_price: Decimal, now: u64) -> (r: Result<(), DispatchError>)
    ensures
        match update_oracle_twap_spec(*old(market), oracle_price, now) {
            Ok(m) => r is Ok && *final(market) == m,
            Err(e) => r == Err::<(), DispatchError>(e) && *final(market) == *old(market),
        },
{
    let last_oracle_twap = if market.last_oracle_twap.is_positive() { market.last_oracle_twap } else { oracle_price };
    let price = clip_around_twap(&oracle_price, &last_oracle_twap)?;
    if price.is_positive() {
        let last_oracle_price = if market.last_oracle_price.is_positive() { market.last_oracle_price } else { price };
        let last_oracle_10bp = arith(last_oracle_price.try_div(Decimal::from_integer(1000)))?;
        let lo = arith(last_oracle_price.try_sub(last_oracle_10bp))?;
        let hi = arith(last_oracle_price.try_add(last_oracle_10bp))?;
        let price = arith(price.try_clamp(lo, hi))?;
        let elapsed = now.saturating_sub(market.last_oracle_ts);
        let since_last: u64 = if elapsed > 1 { elapsed } else { 1 };
        let remaining = market.twap_period.saturating_sub(since_last);
        let from_start: u64 = if remaining > 1 { remaining } else { 1 };
        let new_twap = weighted_average(&price, &last_oracle_twap, &Decimal::from_integer(since_last), &Decimal::from_integer(from_start))?;
        market.last_oracle_price = price;
        market.last_oracle_twap = new_twap;
        market.last_oracle_ts = now;
    }
    Ok(())
}

/// The relative divergence `(mark - index) / index` of the mark price (a
/// balance-scaled vAMM price) from the index price.
pub open spec fn divergence_spec(mark: u128, index: Decimal) -> Result<Decimal, DispatchError> {
    match lift(dec_of(mark as int)) {
        Err(e) => Err(e),
        Ok(m) => match ssub(m, index) {
            Err(e) => Err(e),
            Ok(diff) => sdiv(diff, index),
        },
    }
}

/// The funding rate of a market given the vAMM's mark TWAP: the spread between
/// mark and index TWAPs, clipped to `max_twap_divergence` times the index TWAP
/// when that is set, scaled by funding frequency over funding period.
pub open spec fn funding_rate_spec(market: Market, vamm_twap: u128, max_twap_divergence: Option<Decimal>) -> Result<Decimal, DispatchError> {
    match lift(dec_of(vamm_twap as int)) {
        Err(e) => Err(e),
        Ok(vt) => match ssub(vt, market.last_oracle_twap) {
            Err(e) => Err(e),
            Ok(spread0) => {
                let clipped: Result<Decimal, DispatchError> = match max_twap_divergence {
                    None => Ok(spread0),
                    Some(md) => match smul(md, market.last_oracle_twap) {
                        Err(e) => Err(e),
                        Ok(mps) => match sneg(mps) {
                            Err(e) => Err(e),
                            Ok(lo) => clamp_spec(spread0, lo, mps),
                        },
                    },
                };
                match clipped {
                    Err(e) => Err(e),
                    Ok(spread) => if market.funding_period == 0 {
                        Err(DispatchError::Arithmetic(ArithmeticError::Underflow))
                    } else {
                        smul(spread, Decimal { inner: ((market.funding_frequency * DIV) / (market.funding_period as int)) as i128 })
                    },
                }
            },
        },
    }
}

/// The size of a quotient rounded toward zero, times the divisor, is at most
/// the size of the dividend.
pub proof fn lemma_trunc_quot_bound(n: int, d: int)
    requires
        d > 0,
    ensures
        abs(trunc_quot(n, d)) * d <= abs(n),
        abs(trunc_quot(n, d)) == abs(n) / d,
{
    let q = abs(n) / d;
    assert(q >= 0 && q * d <= abs(n)) by (nonlinear_arith)
        requires
            d > 0,
            abs(n) >= 0,
            q == abs(n) / d;
}

/// With a maximum TWAP divergence set, the funding rate is at most that
/// divergence times the oracle TWAP, scaled by the funding frequency over the
/// funding period: `|rate| * DIV * period <= max_divergence * oracle_twap *
/// frequency`, the decimals taken by their inner values, for a divergence and
/// an oracle TWAP that are not negative.
pub proof fn lemma_funding_rate_is_clipped(market: Market, vamm_twap: u128, max_divergence: Decimal)
    requires
        max_divergence.inner >= 0,
        market.last_oracle_twap.inner >= 0,
        funding_rate_spec(market, vamm_twap, Some(max_divergence)) is Ok,
    ensures
        abs(funding_rate_spec(market, vamm_twap, Some(max_divergence))->Ok_0.inner as int) * (DIV as int) * (market.funding_period as int)
            <= max_divergence.inner * market.last_oracle_twap.inner * market.funding_frequency,
{
    let d = DIV as int;
    let t = market.last_oracle_twap.inner as int;
    let m = max_divergence.inner as int;
    let freq = market.funding_frequency as int;
    let period = market.funding_period as int;
    let rate = funding_rate_spec(market, vamm_twap, Some(max_divergence))->Ok_0;
    let vt = lift(dec_of(vamm_twap as int))->Ok_0;
    let spread0 = ssub(vt, market.last_oracle_twap)->Ok_0;
    let mps = smul(max_divergence, market.last_oracle_twap)->Ok_0;
    let lo = sneg(mps)->Ok_0;
    let spread = clamp_spec(spread0, lo, mps)->Ok_0;
    let ratio = (freq * d) / period;
    assert(period > 0);
    assert(m * t >= 0) by (nonlinear_arith)
        requires
            m >= 0,
            t >= 0;
    lemma_trunc_quot_bound(m * t, d);
    assert(mps.inner == trunc_quot(m * t, d));
    assert(mps.inner >= 0);
    assert(mps.inner * d <= m * t);
    assert(abs(spread.inner as int) <= mps.inner);
    assert(0 <= ratio && ratio * period <= freq * d && ratio <= freq * d) by (nonlinear_arith)
        requires
            period > 0,
            freq >= 0,
            d > 0,
            ratio == (freq * d) / period;
    assert(freq * d <= i128::MAX) by (nonlinear_arith)
        requires
            0 <= freq <= u64::MAX,
            d == 1_000_000_000_000_000_000;
    let ri = (ratio as i128) as int;
    assert(ri == ratio);
    let s = spread.inner as int;
    assert(rate.inner == trunc_quot(s * ri, d));
    lemma_trunc_quot_bound(s * ri, d);
    assert(abs(s * ri) == abs(s) * ratio) by (nonlinear_arith)
        requires
            ri == ratio,
            ratio >= 0;
    let a = abs(rate.inner as int);
    let sa = abs(s);
    assert(a * d * period <= m * t * freq) by (nonlinear_arith)
        requires
            a * d <= sa * ratio,
            0 <= sa <= mps.inner,
            mps.inner * d <= m * t,
            0 <= ratio,
            ratio * period <= freq * d,
            period > 0,
            d > 0,
            freq >= 0,
            a >= 0;
}

/// Funding flows from the side the mark price favours: the funding rate is
/// not negative when the vAMM's TWAP is at or above the oracle TWAP, and not
/// positive when it is at or below, whatever the maximum divergence (when set,
/// not negative).
pub proof fn lemma_funding_rate_follows_the_spread(market: Market, vamm_twap: u128, max_twap_divergence: Option<Decimal>)
    requires
        max_twap_divergence matches Some(md) ==> md.inner >= 0 && market.last_oracle_twap.inner >= 0,
        funding_rate_spec(market, vamm_twap, max_twap_divergence) is Ok,
    ensures
        vamm_twap >= market.last_oracle_twap.inner ==> funding_rate_spec(market, vamm_twap, max_twap_divergence)->Ok_0.inner >= 0,
        vamm_twap <= market.last_oracle_twap.inner ==> funding_rate_spec(market, vamm_twap, max_twap_divergence)->Ok_0.inner <= 0,
{
    let d = DIV as int;
    let freq = market.funding_frequency as int;
    let period = market.funding_period as int;
    let rate = funding_rate_spec(market, vamm_twap, max_twap_divergence)->Ok_0;
    let vt = lift(dec_of(vamm_twap as int))->Ok_0;
    let spread0 = ssub(vt, market.last_oracle_twap)->Ok_0;
    assert(period > 0);
    let spread = match max_twap_divergence {
        None => spread0,
        Some(md) => {
            let t = market.last_oracle_twap.inner as int;
            assert(md.inner * t >= 0) by (nonlinear_arith)
                requires
                    md.inner >= 0,
                    t >= 0;
            lemma_trunc_quot_bound(md.inner * t, d);
            let mps = smul(md, market.last_oracle_twap)->Ok_0;
            assert(mps.inner >= 0);
            clamp_spec(spread0, sneg(mps)->Ok_0, mps)->Ok_0
        },
    };
    assert(spread0.inner >= 0 ==> spread.inner >= 0);
    assert(spread0.inner <= 0 ==> spread.inner <= 0);
    let ratio = (freq * d) / period;
    assert(0 <= ratio <= freq * d) by (nonlinear_arith)
        requires
            period > 0,
            freq >= 0,
            d > 0,
            ratio == (freq * d) / period;
    assert(freq * d <= i128::MAX) by (nonlinear_arith)
        requires
            0 <= freq <= u64::MAX,
            d == 1_000_000_000_000_000_000;
    let ri = (ratio as i128) as int;
    assert(ri == ratio);
    let s = spread.inner as int;
    assert(rate.inner == trunc_quot(s * ri, d));
    assert(s >= 0 ==> s * ri >= 0) by (nonlinear_arith)
        requires
            ri >= 0;
    assert(s <= 0 ==> s * ri <= 0) by (nonlinear_arith)
        requires
            ri >= 0;
    assert(s * ri >= 0 ==> trunc_quot(s * ri, d) >= 0) by (nonlinear_arith)
        requires
            d > 0;
    assert(s * ri <= 0 ==> trunc_quot(s * ri, d) <= 0) by (nonlinear_arith)
        requires
            d > 0;
}

/// The funding rate of a market given the vAMM's mark TWAP.
pub fn funding_rate_from_twap(market: &Market, vamm_twap: u128, max_twap_divergence: Option<Decimal>) -> (r: Result<Decimal, DispatchError>)
    ensures
        r == funding_rate_spec(*market, vamm_twap, max_twap_divergence),
{
    let vt = arith(Decimal::from_balance(vamm_twap))?;
    let mut price_spread = arith(vt.try_sub(market.last_oracle_twap))?;
    match max_twap_divergence {
        Some(max_divergence) => {
            let max_price_spread = arith(max_divergence.try_mul(market.last_oracle_twap))?;
            let lo = arith(max_price_spread.try_neg())?;
            price_spread = arith(price_spread.try_clamp(lo, max_price_spread))?;
        },
        None => {},
    }
    let period_adjustment = match Decimal::checked_from_rational(market.funding_frequency, market.funding_period) {
        Some(v) => v,
        None => return Err(DispatchError::Arithmetic(ArithmeticError::Underflow)),
    };
    arith(price_spread.try_mul(period_adjustment))
}

/// Funding rates of both sides and the capped payment out of the Fee Pool when
/// the Fee Pool (holding `fee_pool_balance`) pays funding `uncapped` (a
/// negative amount) for a net position `net`.
///
/// The Fee Pool pays at most its balance; the side receiving funding then gets
/// what the other side pays plus the Fee Pool's contribution, and the payment
/// is reduced by the rounding remainder of that side's rate.
pub open spec fn capped_funding_spec(market: Market, rate: Decimal, net: Decimal, uncapped: Decimal, fee_pool_balance: u128) -> Result<(Decimal, Decimal, Decimal), DispatchError> {
    match lift(dec_of(fee_pool_balance as int)) {
        Err(e) => Err(e),
        Ok(fees) => {
            let usable = Decimal { inner: (-fees.inner) as i128 };
            let capped = if uncapped.inner >= usable.inner { uncapped } else { usable };
            if capped.inner > uncapped.inner {
                if net.inner > 0 {
                    match smul(rate, market.base_asset_amount_short) {
                        Err(e) => Err(e),
                        Ok(paid) => match ssub(usable, paid) {
                            Err(e) => Err(e),
                            Ok(cf) => match div_rem_spec(cf, market.base_asset_amount_long) {
                                Err(e) => Err(e),
                                Ok((rl, excess)) => match ssub(capped, excess) {
                                    Err(e) => Err(e),
                                    Ok(c) => Ok((rl, rate, c)),
                                },
                            },
                        },
                    }
                } else {
                    match smul(rate, market.base_asset_amount_long) {
                        Err(e) => Err(e),
                        Ok(paid) => match ssub(paid, usable) {
                            Err(e) => Err(e),
                            Ok(cf) => match div_rem_spec(cf, market.base_asset_amount_short) {
                                Err(e) => Err(e),
                                Ok((rs, excess)) => match ssub(capped, excess) {
                                    Err(e) => Err(e),
                                    Ok(c) => Ok((rate, rs, c)),
                                },
                            },
                        },
                    }
                }
            } else {
                Ok((rate, rate, capped))
            }
        },
    }
}

/// Quotient and remainder of a fixed-point division: `(a / b, a - (a / b) * b)`.
pub open spec fn div_rem_spec(a: Decimal, b: Decimal) -> Result<(Decimal, Decimal), DispatchError> {
    match sdiv(a, b) {
        Err(e) => Err(e),
        Ok(q) => match smul(q, b) {
            Err(e) => Err(e),
            Ok(qb) => match ssub(a, qb) {
                Err(e) => Err(e),
                Ok(rem) => Ok((q, rem)),
            },
        },
    }
}

/// Quotient and remainder of a fixed-point division.
pub fn try_div_rem(a: Decimal, b: Decimal) -> (r: Result<(Decimal, Decimal), DispatchError>)
    ensures
        r == div_rem_spec(a, b),
{
    let q = arith(a.try_div(b))?;
    let qb = arith(q.try_mul(b))?;
    let rem = arith(a.try_sub(qb))?;
    Ok((q, rem))
}

/// Computes the funding rates of both sides and the payment out of the Fee
/// Pool when the Fee Pool pays funding.
pub fn capped_funding(market: &Market, rate: Decimal, net: Decimal, uncapped: Decimal, fee_pool_balance: u128) -> (r: Result<(Decimal, Decimal, Decimal), DispatchError>)
    ensures
        r == capped_funding_spec(*market, rate, net, uncapped, fee_pool_balance),
{
    let fees = arith(Decimal::from_balance(fee_pool_balance))?;
    let usable_fees = fees.neg();
    let mut capped_funding = if uncapped.inner >= usable_fees.inner { uncapped } else { usable_fees };
    let mut funding_rate_long = rate;
    let mut funding_rate_short = rate;
    if capped_funding.inner > uncapped.inner {
        let excess;
        if net.is_positive() {
            let paid = arith(rate.try_mul(market.base_asset_amount_short))?;
            let counterparty_funding = arith(usable_fees.try_sub(paid))?;
            let (rl, ex) = try_div_rem(counterparty_funding, market.base_asset_amount_long)?;
            funding_rate_long = rl;
            excess = ex;
        } else {
            let paid = arith(rate.try_mul(market.base_asset_amount_long))?;
            let counterparty_funding = arith(paid.try_sub(usable_fees))?;
            let (rs, ex) = try_div_rem(counterparty_funding, market.base_asset_amount_short)?;
            funding_rate_short = rs;
            excess = ex;
        }
        capped_funding = arith(capped_funding.try_sub(excess))?;
    }
    Ok((funding_rate_long, funding_rate_short, capped_funding))
}

/// Whether a divergence exceeds the maximum allowed.
pub open spec fn exceeds_spec(divergence: Decimal, max: Decimal) -> bool {
    sabs(divergence).inner > max.inner
}

/// Whether a trade passes the oracle guard rails, given the mark-index
/// divergence before and after it: a trade is blocked if it pushes the
/// divergence from an acceptable to an unacceptable value, or if it increases
/// risk while the divergence is unacceptable and grew.
pub open spec fn guard_rails_pass(max: Decimal, after: Decimal, before: Decimal, is_risk_increasing: bool) -> bool {
    !exceeds_spec(after, max) || (exceeds_spec(before, max) && (!is_risk_increasing || after.inner <= before.inner))
}

/// `m2` is `m`, or `m` with new cumulative funding rates recorded at time
/// `now`.
pub open spec fn funding_maybe_updated(m: Market, m2: Market, now: u64) -> bool {
    ||| m2 == m
    ||| m2 == (Market {
        cum_funding_rate_long: m2.cum_funding_rate_long,
        cum_funding_rate_short: m2.cum_funding_rate_short,
        funding_rate_ts: now,
        ..m
    })
}

/// The funding rates of longs and shorts for a market whose vAMM's mark TWAP is
/// `twap`, the Fee Pool of the collateral asset holding `balance`: both get the
/// market's funding rate unless the Fee Pool pays funding for an imbalanced
/// market, in which case it pays at most its balance and the receiving side's
/// rate is reduced (see `capped_funding_spec`).
pub open spec fn funding_rates_spec(market: Market, twap: u128, max_twap_divergence: Option<Decimal>, collateral_type: Option<u128>, balance: u128) -> Result<(Decimal, Decimal), DispatchError> {
    match sadd(market.base_asset_amount_long, market.base_asset_amount_short) {
        Err(e) => Err(e),
        Ok(net) => match funding_rate_spec(market, twap, max_twap_divergence) {
            Err(e) => Err(e),
            Ok(rate) => if rate.inner == 0 || net.inner == 0 {
                Ok((rate, rate))
            } else {
                match smul(rate, net) {
                    Err(e) => Err(e),
                    Ok(uncapped) => if collateral_type is None {
                        Err(DispatchError::Module(Error::NoCollateralTypeSet))
                    } else if uncapped.inner > 0 {
                        Ok((rate, rate))
                    } else {
                        match capped_funding_spec(market, rate, net, uncapped, balance) {
                            Err(e) => Err(e),
                            Ok((rl, rs, _)) => Ok((rl, rs)),
                        }
                    },
                }
            },
        },
    }
}

/// The relative divergence of the mark price `mark` read from the vAMM from
/// the index price.
pub fn divergence_from_mark(mark: u128, index_price: &Decimal) -> (r: Result<Decimal, DispatchError>)
    ensures
        r == divergence_spec(mark, *index_price),
{
    let mark_price = arith(Decimal::from_balance(mark))?;
    let diff = arith(mark_price.try_sub(*index_price))?;
    arith(diff.try_div(*index_price))
}

/// `new` is `old` after a funding update at time `now` with the rates of
/// `funding_rates_spec`: each side's cumulative funding rate grows by its rate.
pub open spec fn funding_updated(old: Market, new: Market, now: u64, twap: u128, max_twap_divergence: Option<Decimal>, collateral_type: Option<u128>, balance: u128) -> bool {
    match funding_rates_spec(old, twap, max_twap_divergence, collateral_type, balance) {
        Err(_) => false,
        Ok((rate_long, rate_short)) => {
            &&& sadd(old.cum_funding_rate_long, rate_long) == Ok::<Decimal, DispatchError>(new.cum_funding_rate_long)
            &&& sadd(old.cum_funding_rate_short, rate_short) == Ok::<Decimal, DispatchError>(new.cum_funding_rate_short)
            &&& new == (Market {
                cum_funding_rate_long: new.cum_funding_rate_long,
                cum_funding_rate_short: new.cum_funding_rate_short,
                funding_rate_ts: now,
                ..old
            })
        },
    }
}

/// The transfers that pay the funding of a market update (see
/// `funding_rates_spec`): when the net side pays, `rate * net` of the
/// collateral asset goes from the collateral account to the market's Fee Pool;
/// when the Fee Pool pays, the capped amount goes back; nothing moves when the
/// rate or the net position is zero.
pub open spec fn funding_transfers_spec(market: Market, market_id: u64, twap: u128, max_twap_divergence: Option<Decimal>, collateral_type: Option<u128>, balance: u128) -> Seq<RuntimeCall> {
    let net = sadd(market.base_asset_amount_long, market.base_asset_amount_short)->Ok_0;
    let rate = funding_rate_spec(market, twap, max_twap_divergence)->Ok_0;
    let uncapped = smul(rate, net)->Ok_0;
    if rate.inner == 0 || net.inner == 0 {
        Seq::empty()
    } else if uncapped.inner > 0 {
        seq![RuntimeCall::Transfer {
            asset: collateral_type->Some_0,
            from: Account::Collateral,
            to: Account::FeePool(market_id),
            amount: abs(uncapped.inner as int) as u128,
            keep_alive: false,
            result: Ok(()),
        }]
    } else {
        seq![RuntimeCall::Transfer {
            asset: collateral_type->Some_0,
            from: Account::FeePool(market_id),
            to: Account::Collateral,
            amount: abs(capped_funding_spec(market, rate, net, uncapped, balance)->Ok_0.2.inner as int) as u128,
            keep_alive: false,
            result: Ok(()),
        }]
    }
}

/// Market `id` went from `old` to `new` by a funding update at time `now`,
/// for the vAMM's mark TWAP `twap` and the Fee Pool's balance `balance`, and
/// the runtime's history went from `old_calls` to `new_calls` by the funding
/// transfers.
pub open spec fn funding_paid(old: Market, new: Market, id: u64, now: u64, twap: u128, max_twap_divergence: Option<Decimal>, collateral_type: Option<u128>, balance: u128, old_calls: Seq<RuntimeCall>, new_calls: Seq<RuntimeCall>) -> bool {
    &&& funding_updated(old, new, now, twap, max_twap_divergence, collateral_type, balance)
    &&& new_calls == old_calls + funding_transfers_spec(old, id, twap, max_twap_divergence, collateral_type, balance)
}

/// Market `id` either stayed as it was, with no call made, or was updated
/// with its funding paid (see `funding_paid`).
pub open spec fn funding_calls(old: Market, new: Market, id: u64, now: u64, max_twap_divergence: Option<Decimal>, collateral_type: Option<u128>, old_calls: Seq<RuntimeCall>, new_calls: Seq<RuntimeCall>) -> bool {
    ||| new == old && new_calls == old_calls
    ||| exists|twap: u128, balance: u128| #[trigger] funding_paid(old, new, id, now, twap, max_twap_divergence, collateral_type, balance, old_calls, new_calls)
}

impl ClearingHouse {
    /// Whether a mark-index divergence exceeds the maximum allowed.
    pub fn exceeds_max_price_divergence(&self, divergence: Decimal) -> (r: bool)
        ensures
            r == exceeds_spec(divergence, self.max_price_divergence),
    {
        divergence.saturating_abs().inner > self.max_price_divergence.inner
    }

    /// The relative divergence of the market's mark price from the index price.
    pub fn mark_index_divergence<R: Runtime>(rt: &mut Host<R>, market: &Market, index_price: &Decimal) -> (r: Result<Decimal, DispatchError>)
        ensures
            final(rt).events@ == old(rt).events@,
            r matches Ok(d) ==> exists|mark: u128| divergence_spec(mark, *index_price) == Ok::<Decimal, DispatchError>(d),
            final(rt).calls@ == old(rt).calls@,
            pushed_read(old(rt).reads@, final(rt).reads@),
            final(rt).reads@.last() matches RuntimeRead::VammPrice { vamm_id, asset, result } && vamm_id == market.vamm_id && asset == AssetType::Base
                && r == (match result {
                    Ok(mark) => divergence_spec(mark, *index_price),
                    Err(e) => Err(e),
                }),
    {
        let mark = rt.vamm_get_price(market.vamm_id, AssetType::Base)?;
        divergence_from_mark(mark, index_price)
    }

    /// Whether the mark price of the market diverges too much from the index
    /// price.
    pub fn is_mark_index_too_divergent<R: Runtime>(&self, rt: &mut Host<R>, market: &Market, index_price: &Decimal) -> (r: Result<bool, DispatchError>)
        ensures
            final(rt).events@ == old(rt).events@,
            r matches Ok(b) ==> exists|mark: u128| #[trigger] divergence_spec(mark, *index_price) matches Ok(d) && b == exceeds_spec(d, self.max_price_divergence),
            final(rt).calls@ == old(rt).calls@,
            pushed_read(old(rt).reads@, final(rt).reads@),
            final(rt).reads@.last() matches RuntimeRead::VammPrice { vamm_id, asset, result } && vamm_id == market.vamm_id && asset == AssetType::Base
                && r == (match result {
                    Ok(mark) => match divergence_spec(mark, *index_price) {
                        Ok(d) => Ok::<bool, DispatchError>(exceeds_spec(d, self.max_price_divergence)),
                        Err(e) => Err(e),
                    },
                    Err(e) => Err(e),
                }),
    {
        let d = Self::mark_index_divergence(rt, market, index_price)?;
        Ok(self.exceeds_max_price_divergence(d))
    }

    /// Blocks a trade that pushed the mark-index divergence beyond the maximum,
    /// or that increased risk while the divergence was too high and grew. Does
    /// nothing when the oracle price is not valid.
    pub fn check_oracle_guard_rails<R: Runtime>(&self, rt: &mut Host<R>, market: &Market, oracle_status: &OracleStatus, mark_index_divergence_before: Decimal, is_risk_increasing: bool) -> (r: Result<(), DispatchError>)
        ensures
            final(rt).events@ == old(rt).events@,
            final(rt).calls@ == old(rt).calls@,
            reads_extended(old(rt).reads@, final(rt).reads@),
            !oracle_status.is_valid ==> r is Ok,
            r is Ok && oracle_status.is_valid ==> exists|mark: u128| #[trigger] divergence_spec(mark, oracle_status.price) matches Ok(d) && guard_rails_pass(self.max_price_divergence, d, mark_index_divergence_before, is_risk_increasing),
    {
        if !oracle_status.is_valid {
            return Ok(());
        }
        let divergence = Self::mark_index_divergence(rt, market, &oracle_status.price)?;
        let ghost mark = choose|mark: u128| divergence_spec(mark, oracle_status.price) == Ok::<Decimal, DispatchError>(divergence);
        assert(divergence_spec(mark, oracle_status.price) == Ok::<Decimal, DispatchError>(divergence));
        if self.exceeds_max_price_divergence(divergence) {
            let was_too_divergent = self.exceeds_max_price_divergence(mark_index_divergence_before);
            if !(was_too_divergent && (!is_risk_increasing || divergence.inner <= mark_index_divergence_before.inner)) {
                return Err(DispatchError::Module(Error::OracleMarkTooDivergent));
            }
        }
        Ok(())
    }

    /// The funding rate of a market: the clipped spread between the vAMM's mark
    /// TWAP and the oracle TWAP, scaled by funding frequency over period.
    pub fn funding_rate<R: Runtime>(&self, rt: &mut Host<R>, market: &Market) -> (r: Result<Decimal, DispatchError>)
        ensures
            final(rt).calls@ == old(rt).calls@,
            final(rt).events@ == old(rt).events@,
            pushed_read(old(rt).reads@, final(rt).reads@),
            final(rt).reads@.last() matches RuntimeRead::VammTwap { vamm_id, asset, result }
                && vamm_id == market.vamm_id && asset == AssetType::Base
                && r == (match result {
                    Ok(t) => funding_rate_spec(*market, t, self.max_twap_divergence),
                    Err(e) => Err(e),
                }),
    {
        let vamm_twap = rt.vamm_get_twap(market.vamm_id, AssetType::Base)?;
        let r = funding_rate_from_twap(market, vamm_twap, self.max_twap_divergence);
        assert(r is Ok ==> funding_rate_spec(*market, vamm_twap, self.max_twap_divergence) == r);
        r
    }

    /// Updates the cumulative funding rates of a market at time `now`.
    ///
    /// When longs and shorts are imbalanced, funding flows between the traders'
    /// collateral and the market's Fee Pool: the Fee Pool receives the funding
    /// the net side pays, and pays the funding it owes only up to its balance,
    /// in which case the receiving side's rate is reduced accordingly.
    pub fn do_update_funding<R: Runtime>(&self, rt: &mut Host<R>, market_id: u64, market: &mut Market, now: u64) -> (r: Result<(), DispatchError>)
        ensures
            sadd(old(market).base_asset_amount_long, old(market).base_asset_amount_short) is Err
                ==> r == Err::<(), DispatchError>(sadd(old(market).base_asset_amount_long, old(market).base_asset_amount_short)->Err_0),
            r is Err ==> *final(market) == *old(market),
            sadd(old(market).base_asset_amount_long, old(market).base_asset_amount_short) is Err ==> final(rt).reads@ == old(rt).reads@,
            reads_extended(old(rt).reads@, final(rt).reads@),
            sadd(old(market).base_asset_amount_long, old(market).base_asset_amount_short) is Ok ==> final(rt).reads@.len() > old(rt).reads@.len()
                && (final(rt).reads@[old(rt).reads@.len() as int] matches RuntimeRead::VammTwap { vamm_id, asset, result }
                && vamm_id == old(market).vamm_id && asset == AssetType::Base),
            r is Ok ==> (final(rt).reads@[old(rt).reads@.len() as int] matches RuntimeRead::VammTwap { result: Ok(twap), .. }
                && exists|balance: u128|
                #[trigger] funding_paid(*old(market), *final(market), market_id, now, twap, self.max_twap_divergence, self.collateral_type, balance, old(rt).calls@, final(rt).calls@)),
            extends(old(rt).calls@, final(rt).calls@),
            r is Ok ==> final(rt).events@ == old(rt).events@.push(Event::FundingUpdated { market: market_id, time: now }),
            r is Err ==> final(rt).events@ == old(rt).events@,
    {
        let net_base_asset_amount = arith(market.base_asset_amount_long.try_add(market.base_asset_amount_short))?;
        let funding_rate = self.funding_rate(rt, market)?;
        let ghost twap = rt.reads@.last()->VammTwap_result->Ok_0;
        assert(rt.reads@[old(rt).reads@.len() as int] == rt.reads@.last());
        let ghost reads1 = rt.reads@;
        let ghost mut balance: u128 = 0;
        let mut funding_rate_long = funding_rate;
        let mut funding_rate_short = funding_rate;
        if !(funding_rate.is_zero() || net_base_asset_amount.is_zero()) {
            let uncapped_funding = arith(funding_rate.try_mul(net_base_asset_amount))?;
            let collateral_account = Self::get_collateral_account();
            let fee_pool_account = Self::get_fee_pool_account(market_id);
            let collateral_asset_id = self.get_collateral_asset_id()?;
            if uncapped_funding.is_positive() {
                rt.transfer(collateral_asset_id, collateral_account, fee_pool_account, uncapped_funding.into_balance(), false)?;
            } else {
                let fee_pool_balance = rt.balance(collateral_asset_id, fee_pool_account);
                proof {
                    balance = fee_pool_balance;
                }
                let (rl, rs, capped) = capped_funding(market, funding_rate, net_base_asset_amount, uncapped_funding, fee_pool_balance)?;
                funding_rate_long = rl;
                funding_rate_short = rs;
                rt.transfer(collateral_asset_id, fee_pool_account, collateral_account, capped.into_balance(), false)?;
            }
        }
        let cum_long = arith(market.cum_funding_rate_long.try_add(funding_rate_long))?;
        let cum_short = arith(market.cum_funding_rate_short.try_add(funding_rate_short))?;
        market.cum_funding_rate_long = cum_long;
        market.cum_funding_rate_short = cum_short;
        market.funding_rate_ts = now;
        assert(funding_rates_spec(*old(market), twap, self.max_twap_divergence, self.collateral_type, balance) == Ok::<(Decimal, Decimal), DispatchError>((funding_rate_long, funding_rate_short)));
        assert(sadd(old(market).cum_funding_rate_long, funding_rate_long) == Ok::<Decimal, DispatchError>(market.cum_funding_rate_long));
        assert(sadd(old(market).cum_funding_rate_short, funding_rate_short) == Ok::<Decimal, DispatchError>(market.cum_funding_rate_short));
        assert(funding_updated(*old(market), *market, now, twap, self.max_twap_divergence, self.collateral_type, balance));
        assert(rt.calls@ =~= old(rt).calls@ + funding_transfers_spec(*old(market), market_id, twap, self.max_twap_divergence, self.collateral_type, balance));
        assert(funding_paid(*old(market), *market, market_id, now, twap, self.max_twap_divergence, self.collateral_type, balance, old(rt).calls@, rt.calls@));
        rt.deposit_event(Event::FundingUpdated { market: market_id, time: now });
        Ok(())
    }

    /// Updates the funding rate of the market if the oracle price is valid and
    /// it is time to do so; otherwise does nothing.
    pub fn try_update_funding<R: Runtime>(&self, rt: &mut Host<R>, market_id: u64, market: &mut Market, oracle_status: &OracleStatus, now: u64) -> (r: Result<(), DispatchError>)
        ensures
            !oracle_status.is_valid ==> r is Ok && *final(market) == *old(market),
            oracle_status.is_valid && is_funding_update_time_spec(*old(market), now) == Ok::<bool, DispatchError>(false) ==> r is Ok && *final(market) == *old(market),
            oracle_status.is_valid && is_funding_update_time_spec(*old(market), now) is Err ==> r == Err::<(), DispatchError>(is_funding_update_time_spec(*old(market), now)->Err_0),
            r is Ok && oracle_status.is_valid && is_funding_update_time_spec(*old(market), now) == Ok::<bool, DispatchError>(true) ==> final(market).funding_rate_ts == now,
            r is Ok ==> funding_maybe_updated(*old(market), *final(market), now),
            r is Ok ==> funding_calls(*old(market), *final(market), market_id, now, self.max_twap_divergence, self.collateral_type, old(rt).calls@, final(rt).calls@),
            extends(old(rt).calls@, final(rt).calls@),
            reads_extended(old(rt).reads@, final(rt).reads@),
            r is Ok ==> final(rt).events@ == old(rt).events@ || final(rt).events@ == old(rt).events@.push(Event::FundingUpdated { market: market_id, time: now }),
            r is Err ==> final(rt).events@ == old(rt).events@,
    {
        if !oracle_status.is_valid {
            return Ok(());
        }
        if is_funding_update_time(market, now)? {
            self.do_update_funding(rt, market_id, market, now)?;
        }
        Ok(())
    }
}

} // verus!
