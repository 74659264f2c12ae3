//! Trades against a market's vAMM: increasing, decreasing, closing and
//! reversing positions, and realizing their profit and loss.
use crate::arith::{abs, dec_div_spec, dec_mul_spec, dec_of, fits_i128, ArithmeticError, Decimal};
use crate::clearing_house::math::{
    decimal_from_swapped, decimal_from_swapped_spec, settle_profit_and_loss,
    settle_profit_and_loss_spec,
};
use crate::clearing_house::runtime::{added, call_failed_with, extends, pushed, pushed_read, read_failed_with, reads_extended, Host, Runtime, RuntimeCall, RuntimeRead};
use crate::clearing_house::types::swap_direction_of;
use crate::clearing_house::types::{
    arith, direction_of, lift, market_with_base_added, market_with_base_subtracted, swap_direction,
    AssetType, Direction, DispatchError, Error, Market, Position, SwapConfig, TradeResponse,
    TraderPositionState,
};
use vstd::prelude::*;

verus! {

/// Checked addition of decimals.
pub open spec fn sadd(a: Decimal, b: Decimal) -> Result<Decimal, DispatchError> {
    lift(dec_of(a.inner + b.inner))
}

/// Checked subtraction of decimals.
pub open spec fn ssub(a: Decimal, b: Decimal) -> Result<Decimal, DispatchError> {
    if fits_i128(a.inner - b.inner) {
        Ok(Decimal { inner: (a.inner - b.inner) as i128 })
    } else {
        Err(DispatchError::Arithmetic(ArithmeticError::Underflow))
    }
}

/// Checked fixed-point multiplication of decimals.
pub open spec fn smul(a: Decimal, b: Decimal) -> Result<Decimal, DispatchError> {
    lift(dec_of(dec_mul_spec(a.inner as int, b.inner as int)))
}

/// Checked fixed-point division of decimals.
pub open spec fn sdiv(a: Decimal, b: Decimal) -> Result<Decimal, DispatchError> {
    if b.inner != 0 && fits_i128(dec_div_spec(a.inner as int, b.inner as int)) {
        Ok(Decimal { inner: dec_div_spec(a.inner as int, b.inner as int) as i128 })
    } else {
        Err(DispatchError::Arithmetic(ArithmeticError::DivisionByZero))
    }
}

/// Checked negation of a decimal.
pub open spec fn sneg(a: Decimal) -> Result<Decimal, DispatchError> {
    lift(dec_of(-a.inner))
}

/// The saturating absolute value of a decimal.
pub open spec fn sabs(a: Decimal) -> Decimal {
    Decimal { inner: if a.inner == i128::MIN { i128::MAX } else { abs(a.inner as int) as i128 } }
}

/// A quote amount signed by trade direction: positive for longs.
pub open spec fn signed_by(q: Decimal, d: Direction) -> Result<Decimal, DispatchError> {
    match d {
        Direction::Long => Ok(q),
        Direction::Short => sneg(q),
    }
}

/// A quote amount signed against the trade direction: negative for longs.
pub open spec fn signed_against(q: Decimal, d: Direction) -> Result<Decimal, DispatchError> {
    match d {
        Direction::Long => sneg(q),
        Direction::Short => Ok(q),
    }
}

/// Position and market after adding `base_swapped` base asset bought for
/// `quote` in direction `d`.
pub open spec fn increase_spec(position: Position, market: Market, d: Direction, quote: Decimal, base_swapped: u128) -> Result<(Position, Market), DispatchError> {
    match decimal_from_swapped_spec(base_swapped, d) {
        Err(e) => Err(e),
        Ok(delta) => match sadd(position.base_asset_amount, delta) {
            Err(e) => Err(e),
            Ok(base) => match signed_by(quote, d) {
                Err(e) => Err(e),
                Ok(sq) => match sadd(position.quote_asset_notional_amount, sq) {
                    Err(e) => Err(e),
                    Ok(notional) => match lift(market_with_base_added(market, delta, d)) {
                        Err(e) => Err(e),
                        Ok(m) => Ok((Position { base_asset_amount: base, quote_asset_notional_amount: notional, ..position }, m)),
                    },
                },
            },
        },
    }
}

/// Position, market, entry value and exit value after reducing a position by
/// `base_swapped` base asset exchanged for `quote` in direction `d` (opposite
/// to the position's). The entry value is the share of the position's
/// notional amount closed.
pub open spec fn decrease_spec(position: Position, market: Market, d: Direction, quote: Decimal, base_swapped: u128) -> Result<(Position, Market, Decimal, Decimal), DispatchError> {
    match decimal_from_swapped_spec(base_swapped, d) {
        Err(e) => Err(e),
        Ok(delta) => match sdiv(sabs(delta), sabs(position.base_asset_amount)) {
            Err(e) => Err(e),
            Ok(ratio) => match smul(position.quote_asset_notional_amount, ratio) {
                Err(e) => Err(e),
                Ok(entry) => match signed_against(quote, d) {
                    Err(e) => Err(e),
                    Ok(exit) => match sadd(position.base_asset_amount, delta) {
                        Err(e) => Err(e),
                        Ok(base) => match ssub(position.quote_asset_notional_amount, entry) {
                            Err(e) => Err(e),
                            Ok(notional) => match lift(market_with_base_added(market, delta, d.spec_opposite())) {
                                Err(e) => Err(e),
                                Ok(m) => Ok((Position { base_asset_amount: base, quote_asset_notional_amount: notional, ..position }, m, entry, exit)),
                            },
                        },
                    },
                },
            },
        },
    }
}

/// Base swapped, entry value, exit value and market after closing a whole
/// position whose base asset was sold for `quote_swapped`.
pub open spec fn close_spec(position: Position, pd: Direction, market: Market, quote_swapped: u128) -> Result<(u128, Decimal, Decimal, Market), DispatchError> {
    match lift(dec_of(quote_swapped as int)) {
        Err(e) => Err(e),
        Ok(q) => match signed_by(q, pd) {
            Err(e) => Err(e),
            Ok(exit) => match lift(market_with_base_subtracted(market, position.base_asset_amount, pd)) {
                Err(e) => Err(e),
                Ok(m) => Ok((abs(position.base_asset_amount.inner as int) as u128, position.quote_asset_notional_amount, exit, m)),
            },
        },
    }
}

/// Position, market, entry value and exit value after reversing a position:
/// closing it at value `v` and opening one in direction `d` with what is left
/// of `quote`, which bought `base_swapped` base asset in total.
pub open spec fn reverse_spec(position: Position, market: Market, d: Direction, quote: Decimal, base_swapped: u128, v: Decimal) -> Result<(Position, Market, Decimal, Decimal), DispatchError> {
    match signed_against(v, d) {
        Err(e) => Err(e),
        Ok(exit) => match lift(market_with_base_subtracted(market, position.base_asset_amount, d.spec_opposite())) {
            Err(e) => Err(e),
            Ok(m1) => match decimal_from_swapped_spec(base_swapped, d) {
                Err(e) => Err(e),
                Ok(delta) => match sadd(position.base_asset_amount, delta) {
                    Err(e) => Err(e),
                    Ok(base) => match signed_by(quote, d) {
                        Err(e) => Err(e),
                        Ok(sq) => match sadd(exit, sq) {
                            Err(e) => Err(e),
                            Ok(notional) => match lift(market_with_base_added(m1, base, d)) {
                                Err(e) => Err(e),
                                Ok(m2) => Ok((
                                    Position {
                                        base_asset_amount: base,
                                        quote_asset_notional_amount: notional,
                                        last_cum_funding: m1.spec_cum_funding_rate(d),
                                        ..position
                                    },
                                    m2,
                                    position.quote_asset_notional_amount,
                                    exit,
                                )),
                            },
                        },
                    },
                },
            },
        },
    }
}

/// The quote amount of a trade rounded to close the position when it differs
/// from the position's value by less than the minimum trade size.
pub open spec fn round_spec(minimum_trade_size: Decimal, quote: Decimal, v: Decimal) -> Result<Decimal, DispatchError> {
    match ssub(v, quote) {
        Err(e) => Err(e),
        Ok(diff) => if sabs(diff).inner < minimum_trade_size.inner {
            Ok(v)
        } else {
            Ok(quote)
        },
    }
}

/// The effect on position and market of a trade of `q` in direction `d`
/// against a position in direction `pd` worth `v`: `(position, market, entry
/// value, exit value, base swapped, whether risk increased)`. The position is
/// decreased when `q` is below its value, closed (selling its base asset for
/// `qs`) when equal, and reversed when above.
pub open spec fn reduce_spec(position: Position, market: Market, d: Direction, pd: Direction, q: Decimal, v: Decimal, qs: u128, b: u128) -> Result<(Option<Position>, Market, Decimal, Decimal, u128, bool), DispatchError> {
    if q.inner < v.inner {
        match decrease_spec(position, market, d, q, b) {
            Err(e) => Err(e),
            Ok((p, m, entry, exit)) => Ok((Some(p), m, entry, exit, b, false)),
        }
    } else if q.inner == v.inner {
        match close_spec(position, pd, market, qs) {
            Err(e) => Err(e),
            Ok((bb, entry, exit, m)) => Ok((None, m, entry, exit, bb, false)),
        }
    } else {
        match reverse_spec(position, market, d, q, b, v) {
            Err(e) => Err(e),
            Ok((p, m, entry, exit)) => match ssub(q, v) {
                Err(e) => Err(e),
                Ok(excess) => Ok((Some(p), m, entry, exit, b, excess.inner > v.inner)),
            },
        }
    }
}

/// The trade response after a reducing step, realizing its profit and loss.
pub open spec fn realize_spec(s: TraderPositionState, step: (Option<Position>, Market, Decimal, Decimal, u128, bool)) -> Result<TradeResponse, DispatchError> {
    let (p, m, entry, exit, bs, risk) = step;
    match ssub(exit, entry) {
        Err(e) => Err(e),
        Ok(pnl) => match settle_profit_and_loss_spec(s.collateral, s.available_profits, s.outstanding_profits, pnl) {
            Err(e) => Err(e),
            Ok((c, a, o)) => Ok(TradeResponse {
                collateral: c,
                market: m,
                position: p,
                available_profits: a,
                outstanding_profits: o,
                base_swapped: bs,
                is_risk_increasing: risk,
            }),
        },
    }
}

/// The direction of a trader's position, or `d` if it holds no base asset.
pub open spec fn position_direction_or(position: Position, d: Direction) -> Direction {
    match direction_of(position.base_asset_amount) {
        Some(x) => x,
        None => d,
    }
}

/// The outcome of a trade of `quote` in direction `d` for a trader in state
/// `s`, and the (possibly rounded) quote amount traded, given the vAMM's
/// answers: `v` the absolute value of the existing position, `qs` the quote
/// obtained when closing it, and `b` the base asset swapped otherwise.
pub open spec fn trade_spec(s: TraderPositionState, d: Direction, quote: Decimal, v: Decimal, qs: u128, b: u128) -> Result<(TradeResponse, Decimal), DispatchError> {
    let pd = position_direction_or(s.position, d);
    if d == pd {
        match increase_spec(s.position, s.market, d, quote, b) {
            Err(e) => Err(e),
            Ok((p, m)) => Ok((TradeResponse {
                collateral: s.collateral,
                market: m,
                position: Some(p),
                available_profits: s.available_profits,
                outstanding_profits: s.outstanding_profits,
                base_swapped: b,
                is_risk_increasing: true,
            }, quote)),
        }
    } else {
        match round_spec(s.market.minimum_trade_size, quote, v) {
            Err(e) => Err(e),
            Ok(q) => match reduce_spec(s.position, s.market, d, pd, q, v, qs, b) {
                Err(e) => Err(e),
                Ok(step) => match realize_spec(s, step) {
                    Err(e) => Err(e),
                    Ok(resp) => Ok((resp, q)),
                },
            },
        }
    }
}

/// A swap of `quote` quote asset in vAMM `vamm_id` for a trade in direction
/// `d`, asking for at least `base_limit` base asset.
pub open spec fn quote_swap_config(vamm_id: u64, d: Direction, quote: Decimal, base_limit: u128) -> SwapConfig {
    SwapConfig {
        vamm_id,
        asset: AssetType::Quote,
        input_amount: abs(quote.inner as int) as u128,
        direction: swap_direction_of(d),
        output_amount_limit: Some(base_limit),
    }
}

/// A swap of `base` base asset in vAMM `vamm_id` for a position in direction
/// `d`, asking for at least `quote_limit` quote asset.
pub open spec fn base_swap_config(vamm_id: u64, d: Direction, base: u128, quote_limit: u128) -> SwapConfig {
    SwapConfig {
        vamm_id,
        asset: AssetType::Base,
        input_amount: base,
        direction: swap_direction_of(d),
        output_amount_limit: Some(quote_limit),
    }
}

/// History `new` is `old` with one more swap, described by `config`, which
/// succeeded if `ok`.
pub open spec fn swapped(old: Seq<RuntimeCall>, new: Seq<RuntimeCall>, config: SwapConfig, ok: bool) -> bool {
    &&& pushed(old, new)
    &&& match new.last() {
        RuntimeCall::VammSwap { config: c, result } => c == config && (ok ==> result is Ok),
        _ => false,
    }
}

/// The swap that reduces a position `position` in direction `pd` with a trade
/// of `q` in direction `d`, the position being worth `v`: all its base asset
/// is sold, for at least `q` quote asset, when `q` is its value; otherwise `q`
/// quote asset is swapped.
pub open spec fn reduce_swap_config(position: Position, market: Market, d: Direction, pd: Direction, q: Decimal, v: Decimal, base_limit: u128) -> SwapConfig {
    if q.inner == v.inner {
        base_swap_config(market.vamm_id, pd, abs(position.base_asset_amount.inner as int) as u128, abs(q.inner as int) as u128)
    } else {
        quote_swap_config(market.vamm_id, d, q, base_limit)
    }
}

/// The swap a trade of `q` in direction `d` makes, the position being worth
/// `v`: `q` quote asset with the caller's limit `base_limit` when the trade
/// increases the position, else the swap that reduces it.
pub open spec fn trade_swap_config(position: Position, market: Market, d: Direction, q: Decimal, v: Decimal, base_limit: u128) -> SwapConfig {
    let pd = position_direction_or(position, d);
    if d == pd {
        quote_swap_config(market.vamm_id, d, q, base_limit)
    } else {
        reduce_swap_config(position, market, d, pd, q, v, base_limit)
    }
}

/// Swaps base asset in the market's vAMM and returns the quote obtained.
fn swap_base<R: Runtime>(rt: &mut Host<R>, market: &Market, direction: Direction, base_amount: u128, quote_limit: u128) -> (r: Result<u128, DispatchError>)
    ensures
        final(rt).events@ == old(rt).events@,
        final(rt).reads@ == old(rt).reads@,
        final(rt).calls@ == old(rt).calls@.push(RuntimeCall::VammSwap { config: base_swap_config(market.vamm_id, direction, base_amount, quote_limit), result: r }),
{
    let config = SwapConfig {
        vamm_id: market.vamm_id,
        asset: AssetType::Base,
        input_amount: base_amount,
        direction: swap_direction(direction),
        output_amount_limit: Some(quote_limit),
    };
    rt.vamm_swap(&config)
}

/// Swaps quote asset in the market's vAMM and returns the base obtained.
fn swap_quote<R: Runtime>(rt: &mut Host<R>, market: &Market, direction: Direction, quote_abs: &Decimal, base_limit: u128) -> (r: Result<u128, DispatchError>)
    ensures
        final(rt).events@ == old(rt).events@,
        final(rt).reads@ == old(rt).reads@,
        final(rt).calls@ == old(rt).calls@.push(RuntimeCall::VammSwap { config: quote_swap_config(market.vamm_id, direction, *quote_abs, base_limit), result: r }),
{
    let config = SwapConfig {
        vamm_id: market.vamm_id,
        asset: AssetType::Quote,
        input_amount: quote_abs.into_balance(),
        direction: swap_direction(direction),
        output_amount_limit: Some(base_limit),
    };
    rt.vamm_swap(&config)
}

/// The simulated sale of all the base asset of `position`, in direction `d`,
/// in the vAMM of `market`.
pub open spec fn valuation_config(market: Market, position: Position, d: Direction) -> SwapConfig {
    SwapConfig {
        vamm_id: market.vamm_id,
        asset: AssetType::Base,
        input_amount: abs(position.base_asset_amount.inner as int) as u128,
        direction: swap_direction_of(d),
        output_amount_limit: None,
    }
}

/// The signed value of a position, simulating the sale of all its base asset
/// in the vAMM.
pub fn base_asset_value<R: Runtime>(rt: &mut Host<R>, market: &Market, position: &Position, position_direction: Direction) -> (r: Result<Decimal, DispatchError>)
    ensures
        r matches Ok(v) ==> exists|out: u128| decimal_from_swapped_spec(out, position_direction) == Ok::<Decimal, DispatchError>(v),
        final(rt).calls@ == old(rt).calls@,
        final(rt).events@ == old(rt).events@,
        final(rt).reads@ == old(rt).reads@.push(RuntimeRead::VammSwapSimulation {
            config: valuation_config(*market, *position, position_direction),
            result: final(rt).reads@.last()->VammSwapSimulation_result,
        }),
        r == (match final(rt).reads@.last()->VammSwapSimulation_result {
            Ok(out) => decimal_from_swapped_spec(out, position_direction),
            Err(e) => Err(e),
        }),
{
    let config = SwapConfig {
        vamm_id: market.vamm_id,
        asset: AssetType::Base,
        input_amount: position.base_asset_amount.into_balance(),
        direction: swap_direction(position_direction),
        output_amount_limit: None,
    };
    let out = rt.vamm_swap_simulation(&config)?;
    let r = decimal_from_swapped(out, position_direction);
    assert(r is Ok ==> decimal_from_swapped_spec(out, position_direction) == r);
    r
}

/// The absolute value of a position in quote asset and its unrealized profit
/// and loss: the value minus its notional amount at entry.
pub fn abs_position_notional_and_pnl<R: Runtime>(rt: &mut Host<R>, market: &Market, position: &Position, position_direction: Direction) -> (r: Result<(Decimal, Decimal), DispatchError>)
    ensures
        r matches Ok((n, pnl)) ==> exists|v: Decimal| n == sabs(v) && ssub(v, position.quote_asset_notional_amount) == Ok::<Decimal, DispatchError>(pnl),
        final(rt).calls@ == old(rt).calls@,
        final(rt).events@ == old(rt).events@,
        pushed_read(old(rt).reads@, final(rt).reads@),
        r matches Err(e) ==> e is Arithmetic || read_failed_with(old(rt).reads@, final(rt).reads@, e),
{
    let position_notional = base_asset_value(rt, market, position, position_direction)?;
    let pnl = arith(position_notional.try_sub(position.quote_asset_notional_amount))?;
    let n = position_notional.saturating_abs();
    assert(n == sabs(position_notional) && ssub(position_notional, position.quote_asset_notional_amount) == Ok::<Decimal, DispatchError>(pnl));
    Ok((n, pnl))
}

/// Rounds the trade to close the position when its quote amount is within the
/// minimum trade size of the position's value.
pub fn round_trade_if_necessary(market: &Market, quote_abs_amount: &mut Decimal, base_abs_value: &Decimal) -> (r: Result<(), DispatchError>)
    ensures
        match round_spec(market.minimum_trade_size, *old(quote_abs_amount), *base_abs_value) {
            Ok(q) => r is Ok && *final(quote_abs_amount) == q,
            Err(e) => r == Err::<(), DispatchError>(e) && *final(quote_abs_amount) == *old(quote_abs_amount),
        },
{
    let diff = arith(base_abs_value.try_sub(*quote_abs_amount))?;
    if diff.saturating_abs().inner < market.minimum_trade_size.inner {
        *quote_abs_amount = *base_abs_value;
    }
    Ok(())
}

/// Buys (long) or sells (short) base asset for `quote` and adds it to a
/// position in the same direction.
pub fn increase_position<R: Runtime>(rt: &mut Host<R>, position: &mut Position, market: &mut Market, direction: Direction, quote_abs_amount: &Decimal, base_asset_amount_limit: u128) -> (r: Result<u128, DispatchError>)
    ensures
        final(rt).events@ == old(rt).events@,
        final(rt).reads@ == old(rt).reads@,
        r matches Ok(b) ==> increase_spec(*old(position), *old(market), direction, *quote_abs_amount, b) == Ok::<(Position, Market), DispatchError>((*final(position), *final(market))),
        swapped(old(rt).calls@, final(rt).calls@, quote_swap_config(old(market).vamm_id, direction, *quote_abs_amount, base_asset_amount_limit), r is Ok),
{
    let base_swapped = swap_quote(rt, market, direction, quote_abs_amount, base_asset_amount_limit)?;
    let delta = decimal_from_swapped(base_swapped, direction)?;
    let base = arith(position.base_asset_amount.try_add(delta))?;
    let signed_quote = match direction {
        Direction::Long => *quote_abs_amount,
        Direction::Short => arith(quote_abs_amount.try_neg())?,
    };
    let notional = arith(position.quote_asset_notional_amount.try_add(signed_quote))?;
    arith(market.add_base_asset_amount(&delta, direction))?;
    position.base_asset_amount = base;
    position.quote_asset_notional_amount = notional;
    Ok(base_swapped)
}

/// Reduces a position with a trade of `quote` in the direction opposite to it,
/// returning the base swapped and the entry and exit values of the part
/// closed.
pub fn decrease_position<R: Runtime>(rt: &mut Host<R>, position: &mut Position, market: &mut Market, direction: Direction, quote_abs_amount: &Decimal, base_asset_amount_limit: u128) -> (r: Result<(u128, Decimal, Decimal), DispatchError>)
    ensures
        final(rt).events@ == old(rt).events@,
        final(rt).reads@ == old(rt).reads@,
        r matches Ok((b, entry, exit)) ==> decrease_spec(*old(position), *old(market), direction, *quote_abs_amount, b) == Ok::<(Position, Market, Decimal, Decimal), DispatchError>((*final(position), *final(market), entry, exit)),
        swapped(old(rt).calls@, final(rt).calls@, quote_swap_config(old(market).vamm_id, direction, *quote_abs_amount, base_asset_amount_limit), r is Ok),
        r matches Err(e) ==> e is Arithmetic || call_failed_with(old(rt).calls@, final(rt).calls@, e),
{
    let base_swapped = swap_quote(rt, market, direction, quote_abs_amount, base_asset_amount_limit)?;
    let delta = decimal_from_swapped(base_swapped, direction)?;
    let ratio = arith(delta.saturating_abs().try_div(position.base_asset_amount.saturating_abs()))?;
    let entry_value = arith(position.quote_asset_notional_amount.try_mul(ratio))?;
    let exit_value = match direction {
        Direction::Long => arith(quote_abs_amount.try_neg())?,
        Direction::Short => *quote_abs_amount,
    };
    let base = arith(position.base_asset_amount.try_add(delta))?;
    let notional = arith(position.quote_asset_notional_amount.try_sub(entry_value))?;
    arith(market.add_base_asset_amount(&delta, direction.opposite()))?;
    position.base_asset_amount = base;
    position.quote_asset_notional_amount = notional;
    Ok((base_swapped, entry_value, exit_value))
}

/// Sells all the base asset of a position in the vAMM, returning the base
/// swapped and the entry and exit values of the position.
pub fn close_position_in_market<R: Runtime>(rt: &mut Host<R>, position: &Position, position_direction: Direction, market: &mut Market, quote_asset_amount_limit: u128) -> (r: Result<(u128, Decimal, Decimal), DispatchError>)
    ensures
        final(rt).events@ == old(rt).events@,
        final(rt).reads@ == old(rt).reads@,
        r matches Ok((b, entry, exit)) ==> exists|qs: u128| close_spec(*position, position_direction, *old(market), qs) == Ok::<(u128, Decimal, Decimal, Market), DispatchError>((b, entry, exit, *final(market))),
        swapped(old(rt).calls@, final(rt).calls@, base_swap_config(old(market).vamm_id, position_direction, abs(position.base_asset_amount.inner as int) as u128, quote_asset_amount_limit), r is Ok),
        r matches Err(e) ==> e is Arithmetic || call_failed_with(old(rt).calls@, final(rt).calls@, e),
{
    let base_swapped = position.base_asset_amount.into_balance();
    let quote_swapped = swap_base(rt, market, position_direction, base_swapped, quote_asset_amount_limit)?;
    let entry_value = position.quote_asset_notional_amount;
    let quote_amount_decimal = arith(Decimal::from_balance(quote_swapped))?;
    let exit_value = match position_direction {
        Direction::Long => quote_amount_decimal,
        Direction::Short => arith(quote_amount_decimal.try_neg())?,
    };
    arith(market.sub_base_asset_amount(&position.base_asset_amount, position_direction))?;
    assert(close_spec(*position, position_direction, *old(market), quote_swapped) == Ok::<(u128, Decimal, Decimal, Market), DispatchError>((base_swapped, entry_value, exit_value, *market)));
    Ok((base_swapped, entry_value, exit_value))
}

/// Closes the position at `position_index` and removes it from the list.
pub fn do_close_position<R: Runtime>(rt: &mut Host<R>, positions: &mut Vec<Position>, position_index: usize, position_direction: Direction, market: &mut Market, quote_asset_amount_limit: u128) -> (r: Result<(u128, Decimal, Decimal), DispatchError>)
    ensures
        final(rt).events@ == old(rt).events@,
        final(rt).reads@ == old(rt).reads@,
        position_index >= old(positions).len() ==> r == Err::<(u128, Decimal, Decimal), DispatchError>(DispatchError::Module(Error::PositionNotFound)),
        r matches Ok((b, entry, exit)) ==> {
            &&& position_index < old(positions).len()
            &&& exists|qs: u128| close_spec(old(positions)@[position_index as int], position_direction, *old(market), qs) == Ok::<(u128, Decimal, Decimal, Market), DispatchError>((b, entry, exit, *final(market)))
            &&& final(positions)@ == old(positions)@.update(position_index as int, old(positions)@.last()).drop_last()
        },
        position_index >= old(positions).len() ==> final(rt).calls@ == old(rt).calls@,
        position_index < old(positions).len() ==> swapped(old(rt).calls@, final(rt).calls@, base_swap_config(old(market).vamm_id, position_direction,
            abs(old(positions)@[position_index as int].base_asset_amount.inner as int) as u128, quote_asset_amount_limit), r is Ok),
{
    if position_index >= positions.len() {
        return Err(DispatchError::Module(Error::PositionNotFound));
    }
    let position = positions[position_index];
    let close_result = close_position_in_market(rt, &position, position_direction, market, quote_asset_amount_limit)?;
    positions.swap_remove(position_index);
    Ok(close_result)
}

/// Closes a position at value `abs_base_asset_value` and opens one in the
/// opposite direction with what is left of `quote`, returning the base swapped
/// and the entry and exit values of the closed position.
pub fn reverse_position<R: Runtime>(rt: &mut Host<R>, position: &mut Position, market: &mut Market, direction: Direction, quote_abs_amount: &Decimal, base_asset_amount_limit: u128, abs_base_asset_value: &Decimal) -> (r: Result<(u128, Decimal, Decimal), DispatchError>)
    ensures
        final(rt).events@ == old(rt).events@,
        final(rt).reads@ == old(rt).reads@,
        r matches Ok((b, entry, exit)) ==> reverse_spec(*old(position), *old(market), direction, *quote_abs_amount, b, *abs_base_asset_value) == Ok::<(Position, Market, Decimal, Decimal), DispatchError>((*final(position), *final(market), entry, exit)),
        swapped(old(rt).calls@, final(rt).calls@, quote_swap_config(old(market).vamm_id, direction, *quote_abs_amount, base_asset_amount_limit), r is Ok),
{
    let base_swapped = swap_quote(rt, market, direction, quote_abs_amount, base_asset_amount_limit)?;
    let entry_value = position.quote_asset_notional_amount;
    let exit_value = match direction {
        Direction::Long => arith(abs_base_asset_value.try_neg())?,
        Direction::Short => *abs_base_asset_value,
    };
    let mut m = *market;
    arith(m.sub_base_asset_amount(&position.base_asset_amount, direction.opposite()))?;
    let delta = decimal_from_swapped(base_swapped, direction)?;
    let base = arith(position.base_asset_amount.try_add(delta))?;
    let signed_quote = match direction {
        Direction::Long => *quote_abs_amount,
        Direction::Short => arith(quote_abs_amount.try_neg())?,
    };
    let notional = arith(exit_value.try_add(signed_quote))?;
    let cum = m.cum_funding_rate(direction);
    arith(m.add_base_asset_amount(&base, direction))?;
    position.base_asset_amount = base;
    position.quote_asset_notional_amount = notional;
    position.last_cum_funding = cum;
    *market = m;
    Ok((base_swapped, entry_value, exit_value))
}

/// Decreases, closes or reverses a position with a trade of `q` in the
/// direction `d` opposite to the position's direction `pd`, the position being
/// worth `v`.
fn reduce_position<R: Runtime>(rt: &mut Host<R>, position: Position, market: Market, d: Direction, pd: Direction, q: Decimal, v: Decimal, base_asset_amount_limit: u128) -> (r: Result<(Option<Position>, Market, Decimal, Decimal, u128, bool), DispatchError>)
    ensures
        final(rt).events@ == old(rt).events@,
        final(rt).reads@ == old(rt).reads@,
        r matches Ok(step) ==> exists|qs: u128, b: u128| reduce_spec(position, market, d, pd, q, v, qs, b) == Ok::<(Option<Position>, Market, Decimal, Decimal, u128, bool), DispatchError>(step),
        swapped(old(rt).calls@, final(rt).calls@, reduce_swap_config(position, market, d, pd, q, v, base_asset_amount_limit), r is Ok),
{
    let mut position = position;
    let mut market = market;
    let ghost p0 = position;
    let ghost m0 = market;
    if q.inner < v.inner {
        let (b, e, x) = decrease_position(rt, &mut position, &mut market, d, &q, base_asset_amount_limit)?;
        let step = (Some(position), market, e, x, b, false);
        assert(reduce_spec(p0, m0, d, pd, q, v, 0, b) == Ok::<(Option<Position>, Market, Decimal, Decimal, u128, bool), DispatchError>(step));
        Ok(step)
    } else if q.inner == v.inner {
        let (b, e, x) = close_position_in_market(rt, &position, pd, &mut market, q.into_balance())?;
        let step = (None, market, e, x, b, false);
        let ghost qs = choose|qs: u128| close_spec(p0, pd, m0, qs) == Ok::<(u128, Decimal, Decimal, Market), DispatchError>((b, e, x, market));
        assert(reduce_spec(p0, m0, d, pd, q, v, qs, 0) == Ok::<(Option<Position>, Market, Decimal, Decimal, u128, bool), DispatchError>(step));
        Ok(step)
    } else {
        let (b, e, x) = reverse_position(rt, &mut position, &mut market, d, &q, base_asset_amount_limit, &v)?;
        let excess = arith(q.try_sub(v))?;
        let step = (Some(position), market, e, x, b, excess.inner > v.inner);
        assert(reduce_spec(p0, m0, d, pd, q, v, 0, b) == Ok::<(Option<Position>, Market, Decimal, Decimal, u128, bool), DispatchError>(step));
        Ok(step)
    }
}

/// Executes a trade for a trader in one market: increases the position if the
/// trade goes its way; otherwise decreases, closes or reverses it and realizes
/// the profit and loss of the part closed. The quote amount may be rounded to
/// close the position exactly.
#[verifier::rlimit(30)]
pub fn execute_trade<R: Runtime>(rt: &mut Host<R>, state: TraderPositionState, direction: Direction, quote_abs_amount_decimal: &mut Decimal, base_asset_amount_limit: u128) -> (r: Result<TradeResponse, DispatchError>)
    ensures
        final(rt).events@ == old(rt).events@,
        reads_extended(old(rt).reads@, final(rt).reads@),
        r matches Ok(resp) ==> exists|v: Decimal, qs: u128, b: u128| trade_spec(state, direction, *old(quote_abs_amount_decimal), v, qs, b) == Ok::<(TradeResponse, Decimal), DispatchError>((resp, *final(quote_abs_amount_decimal)))
            && swapped(old(rt).calls@, final(rt).calls@, trade_swap_config(state.position, state.market, direction, *final(quote_abs_amount_decimal), v, base_asset_amount_limit), true),
        extends(old(rt).calls@, final(rt).calls@),
{
    let mut position = state.position;
    let mut market = state.market;
    let position_direction = match position.direction() {
        Some(x) => x,
        None => direction,
    };
    if direction == position_direction {
        let base_swapped = increase_position(rt, &mut position, &mut market, direction, quote_abs_amount_decimal, base_asset_amount_limit)?;
        let resp = TradeResponse {
            collateral: state.collateral,
            market,
            position: Some(position),
            available_profits: state.available_profits,
            outstanding_profits: state.outstanding_profits,
            base_swapped,
            is_risk_increasing: true,
        };
        assert(trade_spec(state, direction, *old(quote_abs_amount_decimal), Decimal { inner: 0 }, 0, base_swapped) == Ok::<(TradeResponse, Decimal), DispatchError>((resp, *quote_abs_amount_decimal)));
        return Ok(resp);
    }
    let abs_base_asset_value = base_asset_value(rt, &market, &position, position_direction)?.saturating_abs();
    round_trade_if_necessary(&market, quote_abs_amount_decimal, &abs_base_asset_value)?;
    let q = *quote_abs_amount_decimal;
    let step = reduce_position(rt, position, market, direction, position_direction, q, abs_base_asset_value, base_asset_amount_limit)?;
    let ghost (qs, b) = choose|qs: u128, b: u128| reduce_spec(position, market, direction, position_direction, q, abs_base_asset_value, qs, b) == Ok::<(Option<Position>, Market, Decimal, Decimal, u128, bool), DispatchError>(step);
    let (new_position, new_market, entry_value, exit_value, base_swapped, is_risk_increasing) = step;
    let mut collateral = state.collateral;
    let mut available_profits = state.available_profits;
    let mut outstanding_profits = state.outstanding_profits;
    let pnl = arith(exit_value.try_sub(entry_value))?;
    settle_profit_and_loss(&mut collateral, &mut available_profits, &mut outstanding_profits, pnl)?;
    let resp = TradeResponse {
        collateral,
        market: new_market,
        position: new_position,
        available_profits,
        outstanding_profits,
        base_swapped,
        is_risk_increasing,
    };
    assert(realize_spec(state, step) == Ok::<TradeResponse, DispatchError>(resp));
    assert(trade_spec(state, direction, *old(quote_abs_amount_decimal), abs_base_asset_value, qs, b) == Ok::<(TradeResponse, Decimal), DispatchError>((resp, *quote_abs_amount_decimal)));
    Ok(resp)
}

/// Takes the trader's position in the market out of the list, or makes a new
/// empty one if there is none and the list has room for it.
pub fn remove_or_create_position(positions: &mut Vec<Position>, market_id: u64, market: &Market, direction: Direction, max_positions: usize) -> (r: Result<Position, DispatchError>)
    ensures
        match r {
            Ok(p) => (exists|i: int| 0 <= i < old(positions)@.len() && old(positions)@[i].market_id == market_id && p == old(positions)@[i]
                && (forall|j: int| 0 <= j < i ==> old(positions)@[j].market_id != market_id)
                && final(positions)@ == old(positions)@.update(i, old(positions)@.last()).drop_last())
                || ((forall|j: int| 0 <= j < old(positions)@.len() ==> old(positions)@[j].market_id != market_id)
                && old(positions)@.len() < max_positions
                && final(positions)@ == old(positions)@
                && p == (Position { market_id, base_asset_amount: Decimal { inner: 0 }, quote_asset_notional_amount: Decimal { inner: 0 }, last_cum_funding: market.spec_cum_funding_rate(direction) })),
            Err(e) => e == DispatchError::Module(Error::MaxPositionsExceeded)
                && (forall|j: int| 0 <= j < old(positions)@.len() ==> old(positions)@[j].market_id != market_id)
                && old(positions)@.len() >= max_positions
                && final(positions)@ == old(positions)@,
        },
{
    let mut i: usize = 0;
    while i < positions.len()
        invariant
            i <= positions.len(),
            positions@ == old(positions)@,
            forall|j: int| 0 <= j < i ==> positions@[j].market_id != market_id,
        decreases positions.len() - i,
    {
        if positions[i].market_id == market_id {
            let ghost ii = i as int;
            let p = positions.swap_remove(i);
            assert(0 <= ii < old(positions)@.len() && old(positions)@[ii].market_id == market_id && p == old(positions)@[ii]
                && (forall|j: int| 0 <= j < ii ==> old(positions)@[j].market_id != market_id)
                && positions@ == old(positions)@.update(ii, old(positions)@.last()).drop_last());
            return Ok(p);
        }
        i += 1;
    }
    if positions.len() >= max_positions {
        return Err(DispatchError::Module(Error::MaxPositionsExceeded));
    }
    Ok(Position {
        market_id,
        base_asset_amount: Decimal::zero(),
        quote_asset_notional_amount: Decimal::zero(),
        last_cum_funding: market.cum_funding_rate(direction),
    })
}

} // verus!
