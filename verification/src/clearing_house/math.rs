//! Pure computations of the clearing house: balance updates, fees, profit and
//! loss settlement, funding payments, oracle price clipping and validity
//! checks.
use crate::arith::{abs, dec_div_spec, dec_mul_spec, dec_of, fits_i128, fits_u128, ArithmeticError, Decimal, DIV};
use crate::clearing_house::types::{arith, direction_of, BASIS_POINT_DENOMINATOR, Direction, DispatchError, Market, Position};
use vstd::prelude::*;

verus! {

/// The signed decimal amount of a swap output: positive when going long.
pub open spec fn decimal_from_swapped_spec(swapped: u128, d: Direction) -> Result<Decimal, DispatchError> {
    if swapped <= i128::MAX {
        match d {
            Direction::Long => Ok(Decimal { inner: swapped as i128 }),
            Direction::Short => Ok(Decimal { inner: -(swapped as int) as i128 }),
        }
    } else {
        Err(DispatchError::Arithmetic(ArithmeticError::Overflow))
    }
}

/// Converts a swap output into a signed decimal: positive when going long,
/// negative when going short.
pub fn decimal_from_swapped(swapped: u128, direction: Direction) -> (r: Result<Decimal, DispatchError>)
    ensures
        r == decimal_from_swapped_spec(swapped, direction),
{
    let abs_amount = arith(Decimal::from_balance(swapped))?;
    Ok(match direction {
        Direction::Long => abs_amount,
        Direction::Short => abs_amount.neg(),
    })
}

/// The balance after applying a signed change: gains are added (failing on
/// overflow), losses are subtracted down to zero.
pub open spec fn updated_balance_spec(balance: u128, delta: Decimal) -> Result<u128, DispatchError> {
    if delta.inner > 0 {
        if fits_u128(balance + delta.inner) {
            Ok((balance + delta.inner) as u128)
        } else {
            Err(DispatchError::Arithmetic(ArithmeticError::Overflow))
        }
    } else if balance >= abs(delta.inner as int) {
        Ok((balance - abs(delta.inner as int)) as u128)
    } else {
        Ok(0u128)
    }
}

/// Applies a signed change to a balance.
pub fn updated_balance(balance: u128, delta: Decimal) -> (r: Result<u128, DispatchError>)
    ensures
        r == updated_balance_spec(balance, delta),
{
    let abs_delta = delta.into_balance();
    if delta.is_positive() {
        match balance.checked_add(abs_delta) {
            Some(v) => Ok(v),
            None => Err(DispatchError::Arithmetic(ArithmeticError::Overflow)),
        }
    } else {
        Ok(balance.saturating_sub(abs_delta))
    }
}

/// How much of a withdrawal comes from the collateral account and how much from
/// the insurance fund, given their balances.
pub open spec fn withdrawal_amounts_spec(amount: u128, collateral_balance: u128, insurance_balance: u128) -> (u128, u128) {
    if amount <= collateral_balance {
        (amount, 0u128)
    } else if amount - collateral_balance <= insurance_balance {
        (collateral_balance, (amount - collateral_balance) as u128)
    } else {
        (collateral_balance, insurance_balance)
    }
}

/// Splits a withdrawal between the collateral account and the insurance fund:
/// the collateral account pays until it is empty, the insurance fund covers
/// the shortfall as far as it can.
pub fn withdrawal_amounts(amount: u128, collateral_balance: u128, insurance_balance: u128) -> (r: (u128, u128))
    ensures
        r == withdrawal_amounts_spec(amount, collateral_balance, insurance_balance),
        r.0 + r.1 <= amount,
{
    if amount <= collateral_balance {
        (amount, 0)
    } else {
        let insurance_amount = amount - collateral_balance;
        if insurance_amount <= insurance_balance {
            (collateral_balance, insurance_amount)
        } else {
            (collateral_balance, insurance_balance)
        }
    }
}

/// The taker fee for a trade of the given quote value.
pub open spec fn fee_for_trade_spec(taker_fee: u128, quote_abs_amount: Decimal) -> Result<u128, ArithmeticError> {
    if fits_u128(abs(quote_abs_amount.inner as int) * taker_fee) {
        Ok(((abs(quote_abs_amount.inner as int) * taker_fee) / (BASIS_POINT_DENOMINATOR as int)) as u128)
    } else {
        Err(ArithmeticError::Overflow)
    }
}

/// The taker fee of a trade is its quote value times the taker fee counted in
/// basis points (ten thousandths), rounded down: `fee * 10_000 <= |quote| *
/// taker_fee < (fee + 1) * 10_000`. It is owed whenever `|quote| * taker_fee`
/// fits in a balance.
pub proof fn lemma_fee_is_in_basis_points(taker_fee: u128, quote: Decimal)
    ensures
        fee_for_trade_spec(taker_fee, quote) is Ok <==> abs(quote.inner as int) * taker_fee <= u128::MAX,
        fee_for_trade_spec(taker_fee, quote) matches Ok(fee) ==> fee * 10_000 <= abs(quote.inner as int) * taker_fee < (fee + 1) * 10_000,
{
    let x = abs(quote.inner as int) * taker_fee;
    assert(x >= 0) by (nonlinear_arith)
        requires
            abs(quote.inner as int) >= 0,
            taker_fee >= 0,
            x == abs(quote.inner as int) * taker_fee;
    if fits_u128(x) {
        let f = x / 10_000;
        assert(f * 10_000 <= x < (f + 1) * 10_000) by (nonlinear_arith)
            requires
                x >= 0,
                f == x / 10_000;
        assert(fee_for_trade_spec(taker_fee, quote) == Ok::<u128, ArithmeticError>(f as u128));
    }
}

/// The fee charged for a trade: the quote value times the market's taker fee,
/// in basis points, rounded down.
pub fn fee_for_trade(market: &Market, quote_abs_amount: &Decimal) -> (r: Result<u128, ArithmeticError>)
    ensures
        r == fee_for_trade_spec(market.taker_fee, *quote_abs_amount),
        r is Ok <==> abs(quote_abs_amount.inner as int) * market.taker_fee <= u128::MAX,
        r matches Ok(fee) ==> fee * 10_000 <= abs(quote_abs_amount.inner as int) * market.taker_fee < (fee + 1) * 10_000,
{
    proof {
        lemma_fee_is_in_basis_points(market.taker_fee, *quote_abs_amount);
    }
    let amount = quote_abs_amount.into_balance();
    match amount.checked_mul(market.taker_fee) {
        Some(v) => Ok(v / BASIS_POINT_DENOMINATOR),
        None => Err(ArithmeticError::Overflow),
    }
}

/// Balances of a trader after realizing a profit or loss: `(collateral,
/// available_profits, outstanding_profits)`.
///
/// A profit first becomes outstanding and is paid out of the realized losses
/// available; a loss first consumes the trader's outstanding profits, the rest
/// becomes available to pay other traders and is taken from the collateral.
pub open spec fn settle_profit_and_loss_spec(collateral: u128, available: u128, outstanding: u128, pnl: Decimal) -> Result<(u128, u128, u128), DispatchError> {
    let amount = abs(pnl.inner as int);
    if pnl.inner > 0 {
        let o1 = outstanding + amount;
        let realized = if o1 <= available { o1 } else { available as int };
        if !fits_u128(o1) || !fits_u128(collateral + realized) {
            Err(DispatchError::Arithmetic(ArithmeticError::Overflow))
        } else {
            Ok(((collateral + realized) as u128, (available - realized) as u128, (o1 - realized) as u128))
        }
    } else {
        let lost = if outstanding <= amount { outstanding as int } else { amount };
        let realized_losses = amount - lost;
        if !fits_u128(available + realized_losses) {
            Err(DispatchError::Arithmetic(ArithmeticError::Overflow))
        } else {
            Ok((
                if collateral >= realized_losses { (collateral - realized_losses) as u128 } else { 0u128 },
                (available + realized_losses) as u128,
                (outstanding - lost) as u128,
            ))
        }
    }
}

/// Realizes a profit or loss, updating the trader's collateral and outstanding
/// profits and the realized losses available as profits to others. On failure
/// nothing is changed.
pub fn settle_profit_and_loss(collateral: &mut u128, available_profits: &mut u128, outstanding_profits: &mut u128, pnl: Decimal) -> (r: Result<(), DispatchError>)
    ensures
        match settle_profit_and_loss_spec(*old(collateral), *old(available_profits), *old(outstanding_profits), pnl) {
            Ok((c, a, o)) => r is Ok && *final(collateral) == c && *final(available_profits) == a && *final(outstanding_profits) == o,
            Err(e) => r == Err::<(), DispatchError>(e) && *final(collateral) == *old(collateral) && *final(available_profits) == *old(available_profits) && *final(outstanding_profits) == *old(outstanding_profits),
        },
{
    let amount = pnl.into_balance();
    if pnl.is_positive() {
        let o1 = match outstanding_profits.checked_add(amount) {
            Some(v) => v,
            None => return Err(DispatchError::Arithmetic(ArithmeticError::Overflow)),
        };
        let realized_profits = if o1 <= *available_profits { o1 } else { *available_profits };
        let c1 = match collateral.checked_add(realized_profits) {
            Some(v) => v,
            None => return Err(DispatchError::Arithmetic(ArithmeticError::Overflow)),
        };
        *collateral = c1;
        *outstanding_profits = o1 - realized_profits;
        *available_profits = *available_profits - realized_profits;
    } else {
        let lost = if *outstanding_profits <= amount { *outstanding_profits } else { amount };
        let realized_losses = amount - lost;
        let a1 = match available_profits.checked_add(realized_losses) {
            Some(v) => v,
            None => return Err(DispatchError::Arithmetic(ArithmeticError::Overflow)),
        };
        *outstanding_profits = *outstanding_profits - lost;
        *available_profits = a1;
        *collateral = collateral.saturating_sub(realized_losses);
    }
    Ok(())
}

/// Realizing a profit moves it into the collateral and outstanding profits
/// without loss, paying the collateral part out of the available profits;
/// realizing a loss never increases the trader's collateral or outstanding
/// profits, and makes the part not covered by outstanding profits available to
/// others.
pub proof fn lemma_settle_profit_and_loss_conserves(collateral: u128, available: u128, outstanding: u128, pnl: Decimal)
    ensures
        settle_profit_and_loss_spec(collateral, available, outstanding, pnl) matches Ok((c, a, o)) ==> {
            &&& pnl.inner > 0 ==> c + o == collateral + outstanding + pnl.inner && c - collateral == available - a && c >= collateral
            &&& pnl.inner <= 0 ==> c <= collateral && o <= outstanding && (outstanding - o) + (a - available) == abs(pnl.inner as int)
        },
{
}

/// The funding payment a position owes (negative) or is owed (positive) since
/// its last settlement.
pub open spec fn unrealized_funding_spec(market: Market, position: Position) -> Result<Decimal, DispatchError> {
    match direction_of(position.base_asset_amount) {
        None => Ok(Decimal { inner: 0 }),
        Some(d) => {
            let delta = market.spec_cum_funding_rate(d).inner - position.last_cum_funding.inner;
            if !fits_i128(delta) {
                Err(DispatchError::Arithmetic(ArithmeticError::Underflow))
            } else {
                let payment = dec_mul_spec(delta, position.base_asset_amount.inner as int);
                if !fits_i128(payment) || !fits_i128(-payment) {
                    Err(DispatchError::Arithmetic(ArithmeticError::Overflow))
                } else {
                    Ok(Decimal { inner: -payment as i128 })
                }
            }
        },
    }
}

/// The funding payment of a position since its last settlement: the change of
/// its side's cumulative funding rate times its base asset amount, with the
/// sign flipped so that payments owed are negative.
pub fn unrealized_funding(market: &Market, position: &Position) -> (r: Result<Decimal, DispatchError>)
    ensures
        r == unrealized_funding_spec(*market, *position),
{
    match position.direction() {
        Some(direction) => {
            let cum_funding_delta = arith(market.cum_funding_rate(direction).try_sub(position.last_cum_funding))?;
            let payment = arith(cum_funding_delta.try_mul(position.base_asset_amount))?;
            arith(payment.try_neg())
        },
        None => Ok(Decimal::zero()),
    }
}

/// The margin and position after settling the position's funding payments.
pub open spec fn settle_funding_spec(position: Position, market: Market, margin: u128) -> Result<(Position, u128), DispatchError> {
    match direction_of(position.base_asset_amount) {
        None => Ok((position, margin)),
        Some(d) => match unrealized_funding_spec(market, position) {
            Err(e) => Err(e),
            Ok(payment) => match updated_balance_spec(margin, payment) {
                Err(e) => Err(e),
                Ok(m) => Ok((Position { last_cum_funding: market.spec_cum_funding_rate(d), ..position }, m)),
            },
        },
    }
}

/// Settles the funding payments of a position into the margin and records the
/// current cumulative funding rate in the position. On failure nothing is
/// changed.
pub fn settle_funding(position: &mut Position, market: &Market, margin: &mut u128) -> (r: Result<(), DispatchError>)
    ensures
        match settle_funding_spec(*old(position), *market, *old(margin)) {
            Ok((p, m)) => r is Ok && *final(position) == p && *final(margin) == m,
            Err(e) => r == Err::<(), DispatchError>(e) && *final(position) == *old(position) && *final(margin) == *old(margin),
        },
{
    match position.direction() {
        Some(direction) => {
            let payment = unrealized_funding(market, position)?;
            *margin = updated_balance(*margin, payment)?;
            position.last_cum_funding = market.cum_funding_rate(direction);
            Ok(())
        },
        None => Ok(()),
    }
}

/// Once a position's funding is settled, it owes and is owed nothing more until
/// the market's funding rate changes.
pub proof fn lemma_settled_funding_is_zero(position: Position, market: Market, margin: u128)
    requires
        settle_funding_spec(position, market, margin) is Ok,
    ensures
        unrealized_funding_spec(market, settle_funding_spec(position, market, margin)->Ok_0.0) == Ok::<Decimal, DispatchError>(Decimal { inner: 0 }),
{
    let p = settle_funding_spec(position, market, margin)->Ok_0.0;
    assert(p.base_asset_amount == position.base_asset_amount);
    if let Some(d) = direction_of(position.base_asset_amount) {
        assert(market.spec_cum_funding_rate(d).inner - p.last_cum_funding.inner == 0);
        assert(dec_mul_spec(0, p.base_asset_amount.inner as int) == 0) by {
            assert(0 * p.base_asset_amount.inner == 0) by (nonlinear_arith);
        }
    }
}

/// How long after the last funding update the next one may happen.
///
/// The funding frequency is the minimum time between two updates. Updates are
/// meant to happen at multiples of the frequency: if the last update was late
/// by more than a third of the frequency, the next multiple is skipped and the
/// one after it awaited.
pub open spec fn next_update_wait_spec(funding_rate_ts: u64, freq: u64) -> Result<int, DispatchError> {
    if freq == 0 {
        Ok(freq as int)
    } else {
        let delay = funding_rate_ts % freq;
        if delay == 0 {
            Ok(freq as int)
        } else if delay > freq / 3 {
            if freq * 2 > u64::MAX {
                Err(DispatchError::Arithmetic(ArithmeticError::Overflow))
            } else {
                Ok(freq * 2 - delay)
            }
        } else {
            Ok(freq as int)
        }
    }
}

/// Whether the funding rate of a market may be updated at time `now`.
pub open spec fn is_funding_update_time_spec(market: Market, now: u64) -> Result<bool, DispatchError> {
    match next_update_wait_spec(market.funding_rate_ts, market.funding_frequency) {
        Err(e) => Err(e),
        Ok(wait) => if now < market.funding_rate_ts {
            Err(DispatchError::Arithmetic(ArithmeticError::Underflow))
        } else {
            Ok(now - market.funding_rate_ts >= wait)
        },
    }
}

/// Checks whether enough time has passed since the market's last funding
/// update.
pub fn is_funding_update_time(market: &Market, now: u64) -> (r: Result<bool, DispatchError>)
    ensures
        r == is_funding_update_time_spec(*market, now),
        r == Ok::<bool, DispatchError>(true) ==> now - market.funding_rate_ts >= market.funding_frequency,
{
    let funding_frequency = market.funding_frequency;
    let mut next_update_wait = funding_frequency;
    if funding_frequency != 0 {
        let last_update_delay = market.funding_rate_ts % funding_frequency;
        if last_update_delay != 0 {
            let max_delay_for_not_skipping = funding_frequency / 3;
            next_update_wait = if last_update_delay > max_delay_for_not_skipping {
                match funding_frequency.checked_mul(2) {
                    Some(v) => v - last_update_delay,
                    None => return Err(DispatchError::Arithmetic(ArithmeticError::Overflow)),
                }
            } else {
                funding_frequency
            };
        }
    }
    match now.checked_sub(market.funding_rate_ts) {
        Some(elapsed) => Ok(elapsed >= next_update_wait),
        None => Err(DispatchError::Arithmetic(ArithmeticError::Underflow)),
    }
}

/// The oracle price clipped to within a third of the TWAP.
pub open spec fn clip_around_twap_spec(oracle: Decimal, twap: Decimal) -> Result<Decimal, DispatchError> {
    let spread = oracle.inner - twap.inner;
    let t33 = dec_div_spec(twap.inner as int, 3 * DIV);
    if !fits_i128(spread) {
        Err(DispatchError::Arithmetic(ArithmeticError::Underflow))
    } else {
        let abs_spread = if spread == i128::MIN { i128::MAX as int } else { abs(spread) };
        if abs_spread > t33 {
            if oracle.inner > twap.inner {
                match dec_of(twap.inner + t33) {
                    Ok(v) => Ok(v),
                    Err(e) => Err(DispatchError::Arithmetic(e)),
                }
            } else if fits_i128(twap.inner - t33) {
                Ok(Decimal { inner: (twap.inner - t33) as i128 })
            } else {
                Err(DispatchError::Arithmetic(ArithmeticError::Underflow))
            }
        } else {
            Ok(oracle)
        }
    }
}

/// Clips the oracle price to within 33% of the TWAP.
pub fn clip_around_twap(oracle: &Decimal, twap: &Decimal) -> (r: Result<Decimal, DispatchError>)
    ensures
        r == clip_around_twap_spec(*oracle, *twap),
{
    let oracle_twap_spread = arith(oracle.try_sub(*twap))?;
    let three = Decimal::from_integer(3);
    proof {
        crate::arith::lemma_div_by_integer_fits(twap.inner, 3);
    }
    let twap_33pct = arith(twap.try_div(three))?;
    if oracle_twap_spread.saturating_abs().inner > twap_33pct.inner {
        if oracle.inner > twap.inner {
            arith(twap.try_add(twap_33pct))
        } else {
            arith(twap.try_sub(twap_33pct))
        }
    } else {
        Ok(*oracle)
    }
}

} // verus!
