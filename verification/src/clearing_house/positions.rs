//! Opening and closing positions, and updating funding rates.
use crate::arith::{abs, fits_i128, ArithmeticError, Decimal};
use crate::clearing_house::extrinsics::{ensure_market_is_open, ensure_market_is_open_at, ensure_market_is_open_to_new_orders};
use crate::clearing_house::funding::update_oracle_twap_spec;
use crate::clearing_house::funding::{funding_calls, funding_maybe_updated, funding_paid, update_oracle_twap_with_price};
use crate::clearing_house::margin::meets_imr;
use crate::clearing_house::math::{fee_for_trade, fee_for_trade_spec, is_funding_update_time, is_funding_update_time_spec, settle_funding, settle_funding_spec, settle_profit_and_loss, settle_profit_and_loss_spec};
use crate::clearing_house::trading::{base_swap_config, close_spec, swapped, trade_spec, trade_swap_config};
use crate::clearing_house::types::Position;
use crate::clearing_house::runtime::{added, extends, reads_extended, Account, Event, Host, Runtime, RuntimeCall, RuntimeRead};
use crate::clearing_house::extrinsics::oracle_status_spec;
use crate::clearing_house::funding::{divergence_spec, exceeds_spec};
use crate::clearing_house::types::AssetType;
use crate::clearing_house::trading::{do_close_position, execute_trade, remove_or_create_position};
use crate::clearing_house::types::{
    arith, direction_of, shutdown_status_of, Direction, DispatchError, Error, Market,
    ShutdownStatus, TradeResponse, TraderPositionState,
};
use crate::clearing_house::{lemma_account_update_wf, lemma_push_wf, lemma_swap_remove_wf, positions_wf, try_get_position, ClearingHouse};
use vstd::prelude::*;

verus! {

/// `new` differs from `old` at most in the collateral, outstanding profits and
/// positions of account `a`, the available profits, and market `id`.
pub open spec fn trade_frame(old: ClearingHouse, new: ClearingHouse, a: u64, id: u64) -> bool {
    &&& new.same_config(&old)
    &&& old.markets@.contains_key(id)
    &&& new.markets@ == old.markets@.insert(id, new.markets@[id])
    &&& new.collateral@ == old.collateral@.insert(a, new.spec_collateral(a))
    &&& new.outstanding_profits@ == old.outstanding_profits@.insert(a, new.spec_outstanding(a))
    &&& new.positions@.contains_key(a)
    &&& new.positions@ == old.positions@.insert(a, new.positions@[a])
}

/// The position taken out of an account's list `ps` for a trade in market
/// `id`: its position there, swap-removed from the list, or a fresh one in
/// direction `d` when it has none.
pub open spec fn taken_position(ps: Seq<Position>, id: u64, market: Market, d: Direction, p: Position, rest: Seq<Position>) -> bool {
    ||| exists|i: int| 0 <= i < ps.len() && ps[i].market_id == id && p == ps[i]
        && (forall|j: int| 0 <= j < i ==> ps[j].market_id != id)
        && rest == ps.update(i, ps.last()).drop_last()
    ||| (forall|j: int| 0 <= j < ps.len() ==> ps[j].market_id != id)
        && rest == ps
        && p == (Position {
            market_id: id,
            base_asset_amount: Decimal { inner: 0 },
            quote_asset_notional_amount: Decimal { inner: 0 },
            last_cum_funding: market.spec_cum_funding_rate(d),
        })
}

/// Account `a` traded `quote` in direction `d` in market `id` at time `now`,
/// swapping `base_swapped` base asset, given the oracle's price `price` and the
/// vAMM's answers `v`, `qs` and `b` (see `trade_spec`): the position `p0` was
/// taken out of the account's list leaving `rest`, its funding settled, the
/// oracle TWAP updated when the price is valid, the trade applied, the taker
/// fee charged, the resulting position (if any) put back, and the market's
/// funding possibly updated.
#[verifier::opaque]
pub open spec fn trade_outcome(old: ClearingHouse, new: ClearingHouse, a: u64, id: u64, d: Direction, quote: u128, now: u64, base_swapped: u128, p0: Position, rest: Seq<Position>, price: Decimal, v: Decimal, qs: u128, b: u128, limit: u128, old_calls: Seq<RuntimeCall>, new_calls: Seq<RuntimeCall>) -> bool {
    let market0 = old.markets@[id];
    let sf = settle_funding_spec(p0, market0, old.spec_collateral(a));
    let m1 = if price.inner > 0 {
        update_oracle_twap_spec(market0, price, now)->Ok_0
    } else {
        market0
    };
    let state = TraderPositionState {
        collateral: sf->Ok_0.1,
        market: m1,
        position: sf->Ok_0.0,
        available_profits: old.spec_available(),
        outstanding_profits: old.spec_outstanding(a),
    };
    let tr = trade_spec(state, d, Decimal { inner: quote as i128 }, v, qs, b);
    let resp = tr->Ok_0.0;
    let fee = fee_for_trade_spec(resp.market.taker_fee, tr->Ok_0.1);
    &&& quote <= i128::MAX
    &&& taken_position(old.spec_positions(a), id, market0, d, p0, rest)
    &&& sf is Ok
    &&& (price.inner > 0 ==> update_oracle_twap_spec(market0, price, now) is Ok)
    &&& tr is Ok
    &&& fee is Ok
    &&& resp.collateral >= fee->Ok_0
    &&& new.spec_collateral(a) == resp.collateral - fee->Ok_0
    &&& new.spec_positions(a) == (match resp.position {
        Some(p) => rest.push(p),
        None => rest,
    })
    &&& funding_maybe_updated(resp.market, new.markets@[id], now)
    &&& new.spec_available() == resp.available_profits
    &&& new.spec_outstanding(a) == resp.outstanding_profits
    &&& base_swapped == resp.base_swapped
    &&& resp.is_risk_increasing ==> meets_imr(new.spec_positions(a), old.markets@, new.spec_collateral(a))
    &&& new_calls.len() >= old_calls.len() + 2
    &&& swapped(old_calls, new_calls.subrange(0, old_calls.len() + 1int), trade_swap_config(state.position, state.market, d, tr->Ok_0.1, v, limit), true)
    &&& new_calls[old_calls.len() + 1int] == (RuntimeCall::Transfer {
        asset: old.collateral_type->Some_0,
        from: Account::Collateral,
        to: Account::FeePool(id),
        amount: fee->Ok_0,
        keep_alive: false,
        result: Ok(()),
    })
    &&& funding_calls(resp.market, new.markets@[id], id, now, old.max_twap_divergence, old.collateral_type, new_calls.subrange(0, old_calls.len() + 2int), new_calls)
}

/// The steps of a trade, each as its function's contract states it, make up a
/// trade outcome.
proof fn lemma_trade_outcome(
    old: ClearingHouse,
    new: ClearingHouse,
    a: u64,
    id: u64,
    d: Direction,
    quote: u128,
    now: u64,
    p0: Position,
    rest: Seq<Position>,
    price: Decimal,
    v: Decimal,
    qs: u128,
    b: u128,
    p1: Position,
    c1: u128,
    m1: Market,
    state: TraderPositionState,
    resp: TradeResponse,
    q: Decimal,
    fee: u128,
    limit: u128,
    k0: Seq<RuntimeCall>,
    k1: Seq<RuntimeCall>,
    k2: Seq<RuntimeCall>,
    k3: Seq<RuntimeCall>,
)
    requires
        quote <= i128::MAX,
        taken_position(old.spec_positions(a), id, old.markets@[id], d, p0, rest),
        settle_funding_spec(p0, old.markets@[id], old.spec_collateral(a)) == Ok::<(Position, u128), DispatchError>((p1, c1)),
        price.inner > 0 ==> update_oracle_twap_spec(old.markets@[id], price, now) == Ok::<Market, DispatchError>(m1),
        price.inner <= 0 ==> m1 == old.markets@[id],
        state == (TraderPositionState {
            collateral: c1,
            market: m1,
            position: p1,
            available_profits: old.spec_available(),
            outstanding_profits: old.spec_outstanding(a),
        }),
        trade_spec(state, d, Decimal { inner: quote as i128 }, v, qs, b) == Ok::<(TradeResponse, Decimal), DispatchError>((resp, q)),
        fee_for_trade_spec(resp.market.taker_fee, q) == Ok::<u128, ArithmeticError>(fee),
        resp.collateral >= fee,
        new.spec_collateral(a) == resp.collateral - fee,
        new.spec_positions(a) == (match resp.position {
            Some(p) => rest.push(p),
            None => rest,
        }),
        funding_maybe_updated(resp.market, new.markets@[id], now),
        new.spec_available() == resp.available_profits,
        new.spec_outstanding(a) == resp.outstanding_profits,
        resp.is_risk_increasing ==> meets_imr(new.spec_positions(a), old.markets@, new.spec_collateral(a)),
        swapped(k0, k1, trade_swap_config(state.position, state.market, d, q, v, limit), true),
        k2 == k1.push(RuntimeCall::Transfer {
            asset: old.collateral_type->Some_0,
            from: Account::Collateral,
            to: Account::FeePool(id),
            amount: fee,
            keep_alive: false,
            result: Ok(()),
        }),
        extends(k2, k3),
        funding_calls(resp.market, new.markets@[id], id, now, old.max_twap_divergence, old.collateral_type, k2, k3),
    ensures
        trade_outcome(old, new, a, id, d, quote, now, resp.base_swapped, p0, rest, price, v, qs, b, limit, k0, k3),
{
    reveal(trade_outcome);
    assert(k3.subrange(0, k0.len() + 1int) =~= k1);
    assert(k3.subrange(0, k0.len() + 2int) =~= k2);
}

/// The index of the first position in market `id` of the list `ps`, if any.
pub open spec fn first_position_index(ps: Seq<Position>, id: u64) -> Option<int> {
    if exists|i: int| 0 <= i < ps.len() && ps[i].market_id == id && (forall|j: int| 0 <= j < i ==> ps[j].market_id != id) {
        Some(choose|i: int| 0 <= i < ps.len() && ps[i].market_id == id && (forall|j: int| 0 <= j < i ==> ps[j].market_id != id))
    } else {
        None
    }
}

/// What the oracle and vAMM answers read during a funding update decide: an
/// oracle reading that is not a valid price fails the update with
/// `InvalidOracleReading` (or the reading's error), and a mark price that
/// diverges too much from it fails it with `OracleMarkTooDivergent`.
pub open spec fn funding_reads_decide(old_reads: Seq<RuntimeRead>, new_reads: Seq<RuntimeRead>, m: Market, max_divergence: Decimal, r: Result<(), DispatchError>) -> bool {
    &&& new_reads.len() > old_reads.len()
    &&& match new_reads[old_reads.len() as int] {
        RuntimeRead::OraclePrice { asset, result } => asset == m.asset_id && match oracle_status_spec(result) {
            Err(e) => r == Err::<(), DispatchError>(e),
            Ok(st) => {
                &&& !st.is_valid ==> r == Err::<(), DispatchError>(DispatchError::Module(Error::InvalidOracleReading))
                &&& st.is_valid ==> new_reads.len() > old_reads.len() + 1 && match new_reads[old_reads.len() + 1int] {
                    RuntimeRead::VammPrice { vamm_id, asset: a, result: res } => vamm_id == m.vamm_id && a == AssetType::Base
                        && (res matches Ok(mark) && divergence_spec(mark, st.price) matches Ok(d) && exceeds_spec(d, max_divergence)
                            ==> r == Err::<(), DispatchError>(DispatchError::Module(Error::OracleMarkTooDivergent))),
                    _ => false,
                }
            },
        },
        _ => false,
    }
}

/// The events of a trade or a close in market `id` at time `now`: the funding
/// update, if any, then `last`.
pub open spec fn trade_events(old: Seq<Event>, new: Seq<Event>, id: u64, now: u64, last: Event) -> bool {
    ||| new == old.push(last)
    ||| new == old.push(Event::FundingUpdated { market: id, time: now }).push(last)
}

/// Account `a` closed its position at index `i` of its list in market `id` at
/// time `now`, selling `base_swapped` base asset, given the oracle's price
/// `price` and the quote asset `qs` the vAMM gave back: the position's funding
/// was settled, the oracle TWAP updated when the price is valid, the position
/// closed (see `close_spec`) and swap-removed from the list, its PnL realized,
/// the taker fee charged on the exit value, and the market's funding possibly
/// updated.
#[verifier::opaque]
pub open spec fn close_outcome(old: ClearingHouse, new: ClearingHouse, a: u64, id: u64, now: u64, base_swapped: u128, i: int, price: Decimal, qs: u128, old_calls: Seq<RuntimeCall>, new_calls: Seq<RuntimeCall>) -> bool {
    let ps = old.spec_positions(a);
    let market0 = old.markets@[id];
    let sf = settle_funding_spec(ps[i], market0, old.spec_collateral(a));
    let m1 = if price.inner > 0 {
        update_oracle_twap_spec(market0, price, now)->Ok_0
    } else {
        market0
    };
    let cl = close_spec(sf->Ok_0.0, direction_of(ps[i].base_asset_amount)->Some_0, m1, qs);
    let entry = cl->Ok_0.1;
    let exit = cl->Ok_0.2;
    let m2 = cl->Ok_0.3;
    let pl = settle_profit_and_loss_spec(sf->Ok_0.1, old.spec_available(), old.spec_outstanding(a), Decimal { inner: (exit.inner - entry.inner) as i128 });
    let fee = fee_for_trade_spec(m2.taker_fee, exit);
    &&& 0 <= i < ps.len()
    &&& ps[i].market_id == id
    &&& forall|j: int| 0 <= j < i ==> ps[j].market_id != id
    &&& direction_of(ps[i].base_asset_amount) is Some
    &&& sf is Ok
    &&& (price.inner > 0 ==> update_oracle_twap_spec(market0, price, now) is Ok)
    &&& cl is Ok
    &&& fits_i128(exit.inner - entry.inner)
    &&& pl is Ok
    &&& fee is Ok
    &&& pl->Ok_0.0 >= fee->Ok_0
    &&& new.spec_collateral(a) == pl->Ok_0.0 - fee->Ok_0
    &&& new.spec_positions(a) == ps.update(i, ps.last()).drop_last()
    &&& funding_maybe_updated(m2, new.markets@[id], now)
    &&& new.spec_available() == pl->Ok_0.1
    &&& new.spec_outstanding(a) == pl->Ok_0.2
    &&& base_swapped == cl->Ok_0.0
    &&& new_calls.len() >= old_calls.len() + 2
    &&& swapped(old_calls, new_calls.subrange(0, old_calls.len() + 1int), base_swap_config(m1.vamm_id, direction_of(ps[i].base_asset_amount)->Some_0, abs(ps[i].base_asset_amount.inner as int) as u128, 0), true)
    &&& new_calls[old_calls.len() + 1int] == (RuntimeCall::Transfer {
        asset: old.collateral_type->Some_0,
        from: Account::Collateral,
        to: Account::FeePool(id),
        amount: fee->Ok_0,
        keep_alive: false,
        result: Ok(()),
    })
    &&& funding_calls(m2, new.markets@[id], id, now, old.max_twap_divergence, old.collateral_type, new_calls.subrange(0, old_calls.len() + 2int), new_calls)
}

/// The steps of closing a position, each as its function's contract states
/// it, make up a close outcome.
proof fn lemma_close_outcome(
    old: ClearingHouse,
    new: ClearingHouse,
    a: u64,
    id: u64,
    now: u64,
    i: int,
    price: Decimal,
    qs: u128,
    p1: Position,
    c1: u128,
    m1: Market,
    b: u128,
    entry: Decimal,
    exit: Decimal,
    m2: Market,
    pnl: Decimal,
    c2: u128,
    a2: u128,
    o2: u128,
    fee: u128,
    k0: Seq<RuntimeCall>,
    k1: Seq<RuntimeCall>,
    k2: Seq<RuntimeCall>,
    k3: Seq<RuntimeCall>,
)
    requires
        0 <= i < old.spec_positions(a).len(),
        old.spec_positions(a)[i].market_id == id,
        forall|j: int| 0 <= j < i ==> old.spec_positions(a)[j].market_id != id,
        direction_of(old.spec_positions(a)[i].base_asset_amount) is Some,
        settle_funding_spec(old.spec_positions(a)[i], old.markets@[id], old.spec_collateral(a)) == Ok::<(Position, u128), DispatchError>((p1, c1)),
        price.inner > 0 ==> update_oracle_twap_spec(old.markets@[id], price, now) == Ok::<Market, DispatchError>(m1),
        price.inner <= 0 ==> m1 == old.markets@[id],
        close_spec(p1, direction_of(old.spec_positions(a)[i].base_asset_amount)->Some_0, m1, qs) == Ok::<(u128, Decimal, Decimal, Market), DispatchError>((b, entry, exit, m2)),
        fits_i128(exit.inner - entry.inner),
        pnl == (Decimal { inner: (exit.inner - entry.inner) as i128 }),
        settle_profit_and_loss_spec(c1, old.spec_available(), old.spec_outstanding(a), pnl) == Ok::<(u128, u128, u128), DispatchError>((c2, a2, o2)),
        fee_for_trade_spec(m2.taker_fee, exit) == Ok::<u128, ArithmeticError>(fee),
        c2 >= fee,
        new.spec_collateral(a) == c2 - fee,
        new.spec_positions(a) == old.spec_positions(a).update(i, old.spec_positions(a).last()).drop_last(),
        funding_maybe_updated(m2, new.markets@[id], now),
        new.spec_available() == a2,
        new.spec_outstanding(a) == o2,
        swapped(k0, k1, base_swap_config(m1.vamm_id, direction_of(old.spec_positions(a)[i].base_asset_amount)->Some_0, abs(old.spec_positions(a)[i].base_asset_amount.inner as int) as u128, 0), true),
        k2 == k1.push(RuntimeCall::Transfer {
            asset: old.collateral_type->Some_0,
            from: Account::Collateral,
            to: Account::FeePool(id),
            amount: fee,
            keep_alive: false,
            result: Ok(()),
        }),
        extends(k2, k3),
        funding_calls(m2, new.markets@[id], id, now, old.max_twap_divergence, old.collateral_type, k2, k3),
    ensures
        close_outcome(old, new, a, id, now, b, i, price, qs, k0, k3),
{
    reveal(close_outcome);
    assert(k3.subrange(0, k0.len() + 1int) =~= k1);
    assert(k3.subrange(0, k0.len() + 2int) =~= k2);
}

impl ClearingHouse {
    /// Opens, increases, decreases, closes or reverses a trader's position in a
    /// market with a trade of `quote_asset_amount` in direction `direction`,
    /// returning the amount of base asset exchanged.
    ///
    /// The market must exist and be open, and the trade at least the market's
    /// minimum trade size. Funding of the position is settled first and the
    /// oracle TWAP updated; the trade must pass the oracle guard rails, the
    /// taker fee goes to the market's Fee Pool, and a risk-increasing trade must
    /// leave the account above the initial margin ratio. A funding rate update
    /// is attempted at the end.
    #[verifier::rlimit(100)]
    #[verifier::spinoff_prover]
    pub fn open_position<R: Runtime>(&mut self, rt: &mut Host<R>, account_id: u64, market_id: u64, direction: Direction, quote_asset_amount: u128, base_asset_amount_limit: u128, now: u64) -> (r: Result<u128, DispatchError>)
        ensures
            !old(self).markets@.contains_key(market_id) ==> r == Err::<u128, DispatchError>(DispatchError::Module(Error::MarketIdNotFound)),
            old(self).markets@.contains_key(market_id) ==> (match shutdown_status_of(old(self).markets@[market_id].closed_ts, now) {
                ShutdownStatus::Open => true,
                ShutdownStatus::Closed => r == Err::<u128, DispatchError>(DispatchError::Module(Error::MarketClosed)),
                ShutdownStatus::Closing => r == Err::<u128, DispatchError>(DispatchError::Module(Error::MarketShuttingDown)),
            }),
            old(self).markets@.contains_key(market_id) && shutdown_status_of(old(self).markets@[market_id].closed_ts, now) == ShutdownStatus::Open
                && quote_asset_amount <= i128::MAX && (quote_asset_amount as int) < old(self).markets@[market_id].minimum_trade_size.inner
                ==> r == Err::<u128, DispatchError>(DispatchError::Module(Error::TradeSizeTooSmall)),
            r is Err ==> *final(self) == *old(self),
            r is Ok ==> trade_frame(*old(self), *final(self), account_id, market_id) && final(self).available_profits is Some,
            r matches Ok(bs) ==> exists|p0: Position, rest: Seq<Position>, price: Decimal, v: Decimal, qs: u128, b: u128|
                #[trigger] trade_outcome(*old(self), *final(self), account_id, market_id, direction, quote_asset_amount, now, bs, p0, rest, price, v, qs, b, base_asset_amount_limit, old(rt).calls@, final(rt).calls@),
            r matches Ok(bs) ==> trade_events(old(rt).events@, final(rt).events@, market_id, now,
                Event::TradeExecuted { market: market_id, direction, quote: quote_asset_amount, base: bs }),
            r is Err ==> final(rt).events@ == old(rt).events@,
            old(self).markets@.contains_key(market_id) && shutdown_status_of(old(self).markets@[market_id].closed_ts, now) == ShutdownStatus::Open
                && quote_asset_amount > i128::MAX
                ==> r == Err::<u128, DispatchError>(DispatchError::Arithmetic(ArithmeticError::Overflow)),
            old(self).markets@.contains_key(market_id) && shutdown_status_of(old(self).markets@[market_id].closed_ts, now) == ShutdownStatus::Open
                && quote_asset_amount <= i128::MAX && (quote_asset_amount as int) >= old(self).markets@[market_id].minimum_trade_size.inner
                && (forall|j: int| 0 <= j < old(self).spec_positions(account_id).len() ==> old(self).spec_positions(account_id)[j].market_id != market_id)
                && old(self).spec_positions(account_id).len() >= old(self).max_positions
                ==> r == Err::<u128, DispatchError>(DispatchError::Module(Error::MaxPositionsExceeded)) && final(rt).calls@ == old(rt).calls@,
            old(self).wf() ==> final(self).wf(),
    {
        broadcast use vstd::std_specs::hash::group_hash_axioms;
        let market = self.try_get_market(market_id)?;
        ensure_market_is_open_to_new_orders(&market, now)?;
        let mut quote_abs_amount_decimal = arith(Decimal::from_balance(quote_asset_amount))?;
        if !(quote_abs_amount_decimal.inner >= market.minimum_trade_size.inner) {
            return Err(DispatchError::Module(Error::TradeSizeTooSmall));
        }
        let mut positions = self.get_positions(account_id);
        let ghost ps0 = positions@;
        let mut position = remove_or_create_position(&mut positions, market_id, &market, direction, self.max_positions)?;
        let ghost ps1 = positions@;
        let ghost p0 = position;
        let ghost market0 = market;
        let mut collateral = self.get_collateral(account_id);
        settle_funding(&mut position, &market, &mut collateral)?;
        let ghost (p1, c1) = (position, collateral);
        let mut market = market;
        let oracle_status = market.get_oracle_status(rt)?;
        if oracle_status.is_valid {
            update_oracle_twap_with_price(&mut market, oracle_status.price, now)?;
        }
        let ghost m1 = market;
        let mark_index_divergence_before = Self::mark_index_divergence(rt, &market, &oracle_status.price)?;
        let available_profits = self.get_available_profits();
        let outstanding_profits = self.get_outstanding_profits(account_id);
        let state = TraderPositionState { collateral, market, position, available_profits, outstanding_profits };
        let ghost q0 = quote_abs_amount_decimal;
        let ghost k0 = rt.calls@;
        let resp = execute_trade(rt, state, direction, &mut quote_abs_amount_decimal, base_asset_amount_limit)?;
        let ghost (v, qs, b) = choose|v: Decimal, qs: u128, b: u128| trade_spec(state, direction, q0, v, qs, b) == Ok::<(TradeResponse, Decimal), DispatchError>((resp, quote_abs_amount_decimal))
            && swapped(k0, rt.calls@, trade_swap_config(state.position, state.market, direction, quote_abs_amount_decimal, v, base_asset_amount_limit), true);
        let ghost k1 = rt.calls@;
        let ghost q1 = quote_abs_amount_decimal;
        let TradeResponse { collateral, market, position, available_profits, outstanding_profits, base_swapped, is_risk_increasing } = resp;
        let mut collateral = collateral;
        let mut market = market;
        self.check_oracle_guard_rails(rt, &market, &oracle_status, mark_index_divergence_before, is_risk_increasing)?;
        let ghost ps2 = positions@;
        match position {
            Some(p) => {
                if positions.len() >= self.max_positions {
                    return Err(DispatchError::Module(Error::MaxPositionsExceeded));
                }
                positions.push(p);
            },
            None => {},
        }
        let fee = arith(fee_for_trade(&market, &quote_abs_amount_decimal))?;
        collateral = match collateral.checked_sub(fee) {
            Some(v) => v,
            None => return Err(DispatchError::Arithmetic(crate::arith::ArithmeticError::Underflow)),
        };
        let asset_id = self.get_collateral_asset_id()?;
        rt.transfer(asset_id, Self::get_collateral_account(), Self::get_fee_pool_account(market_id), fee, false)?;
        let ghost k2 = rt.calls@;
        self.ensure_initial_margin(rt, &positions, collateral, is_risk_increasing)?;
        let ghost fee0 = fee;
        self.try_update_funding(rt, market_id, &mut market, &oracle_status, now)?;
        proof {
            if old(self).wf() {
                if old(self).positions@.contains_key(account_id) {
                    assert(positions_wf(ps0, old(self).markets@, old(self).max_positions));
                } else {
                    assert(ps0 == Seq::<crate::clearing_house::types::Position>::empty());
                }
                assert(positions_wf(ps0, old(self).markets@, old(self).max_positions));
                if ps1 != ps0 {
                    let i = choose|i: int| 0 <= i < ps0.len() && ps0[i].market_id == market_id && (forall|j: int| 0 <= j < i ==> ps0[j].market_id != market_id) && ps1 == ps0.update(i, ps0.last()).drop_last();
                    lemma_swap_remove_wf(ps0, i, old(self).markets@, old(self).max_positions);
                }
                assert(positions_wf(ps1, old(self).markets@, old(self).max_positions));
                assert(forall|j: int| 0 <= j < ps1.len() ==> #[trigger] ps1[j].market_id != market_id);
                if let Some(p) = position {
                    assert(p.market_id == market_id) by {
                        let (v, qs, b) = choose|v: Decimal, qs: u128, b: u128| #[trigger] crate::clearing_house::trading::trade_spec(state, direction, Decimal { inner: quote_asset_amount as i128 }, v, qs, b) == Ok::<(TradeResponse, Decimal), DispatchError>((resp, quote_abs_amount_decimal));
                    }
                    lemma_push_wf(ps1, p, old(self).markets@, old(self).max_positions);
                }
                crate::clearing_house::lemma_market_update_wf(positions@, old(self).markets@, market_id, market, old(self).max_positions);
            }
        }
        self.collateral.insert(account_id, collateral);
        self.available_profits = Some(available_profits);
        self.outstanding_profits.insert(account_id, outstanding_profits);
        self.positions.insert(account_id, positions);
        self.markets.insert(market_id, market);
        proof {
            if old(self).wf() {
                lemma_account_update_wf(*old(self), *self, account_id, market_id);
            }
            assert(self.spec_positions(account_id) == positions@);
            assert(self.spec_collateral(account_id) == collateral);
            lemma_trade_outcome(*old(self), *self, account_id, market_id, direction, quote_asset_amount, now, p0, ps1, oracle_status.price, v, qs, b, p1, c1, m1, state, resp, q1, fee0, base_asset_amount_limit, k0, k1, k2, rt.calls@);
        }
        rt.deposit_event(Event::TradeExecuted { market: market_id, direction, quote: quote_asset_amount, base: base_swapped });
        let r: Result<u128, DispatchError> = Ok(base_swapped);
        assert(r matches Ok(bs) && trade_outcome(*old(self), *self, account_id, market_id, direction, quote_asset_amount, now, bs, p0, ps1, oracle_status.price, v, qs, b, base_asset_amount_limit, old(rt).calls@, rt.calls@));
        r
    }

    /// Closes a trader's position in a market, selling all its base asset,
    /// realizing its PnL and funding and charging the taker fee. Returns the
    /// amount of base asset sold.
    ///
    /// The market must exist and not be closed, and the trader must have a
    /// position in it holding base asset.
    pub fn close_position<R: Runtime>(&mut self, rt: &mut Host<R>, account_id: u64, market_id: u64, now: u64) -> (r: Result<u128, DispatchError>)
        ensures
            !old(self).markets@.contains_key(market_id) ==> r == Err::<u128, DispatchError>(DispatchError::Module(Error::MarketIdNotFound)),
            old(self).markets@.contains_key(market_id) && shutdown_status_of(old(self).markets@[market_id].closed_ts, now) == ShutdownStatus::Closed
                ==> r == Err::<u128, DispatchError>(DispatchError::Module(Error::MarketClosed)),
            old(self).markets@.contains_key(market_id) && shutdown_status_of(old(self).markets@[market_id].closed_ts, now) != ShutdownStatus::Closed
                && (forall|j: int| 0 <= j < old(self).spec_positions(account_id).len() ==> old(self).spec_positions(account_id)[j].market_id != market_id)
                ==> r == Err::<u128, DispatchError>(DispatchError::Module(Error::PositionNotFound)),
            r is Err ==> *final(self) == *old(self),
            r matches Ok(b) ==> {
                let ps = old(self).spec_positions(account_id);
                &&& trade_frame(*old(self), *final(self), account_id, market_id)
                &&& final(self).available_profits is Some
                &&& exists|i: int| 0 <= i < ps.len() && ps[i].market_id == market_id
                    && (forall|j: int| 0 <= j < i ==> ps[j].market_id != market_id)
                    && direction_of(ps[i].base_asset_amount) is Some
                    && b == crate::arith::abs(ps[i].base_asset_amount.inner as int)
                    && final(self).spec_positions(account_id) == ps.update(i, ps.last()).drop_last()
            },
            r matches Ok(b) ==> trade_events(old(rt).events@, final(rt).events@, market_id, now, Event::PositionClosed {
                user: account_id,
                market: market_id,
                direction: direction_of(old(self).spec_positions(account_id)[first_position_index(old(self).spec_positions(account_id), market_id)->Some_0].base_asset_amount)->Some_0,
                base: b,
            }),
            r is Err ==> final(rt).events@ == old(rt).events@,
            r matches Ok(b) ==> exists|i: int, price: Decimal, qs: u128|
                #[trigger] close_outcome(*old(self), *final(self), account_id, market_id, now, b, i, price, qs, old(rt).calls@, final(rt).calls@),
            old(self).markets@.contains_key(market_id) && shutdown_status_of(old(self).markets@[market_id].closed_ts, now) != ShutdownStatus::Closed
                ==> match first_position_index(old(self).spec_positions(account_id), market_id) {
                    None => true,
                    Some(i) => {
                        let p = old(self).spec_positions(account_id)[i];
                        let sf = settle_funding_spec(p, old(self).markets@[market_id], old(self).spec_collateral(account_id));
                        &&& direction_of(p.base_asset_amount) is None
                            ==> r == Err::<u128, DispatchError>(DispatchError::Module(Error::NullPosition)) && final(rt).calls@ == old(rt).calls@
                        &&& direction_of(p.base_asset_amount) is Some && sf is Err
                            ==> r == Err::<u128, DispatchError>(sf->Err_0) && final(rt).calls@ == old(rt).calls@
                        &&& direction_of(p.base_asset_amount) is Some && sf is Ok
                            ==> (old(rt).reads@.len() < final(rt).reads@.len()
                                && (final(rt).reads@[old(rt).reads@.len() as int] matches RuntimeRead::OraclePrice { asset, result }
                                && asset == old(self).markets@[market_id].asset_id))
                    },
                },
            old(self).wf() && r is Ok ==> forall|j: int| 0 <= j < final(self).spec_positions(account_id).len()
                ==> (#[trigger] final(self).spec_positions(account_id)[j]).market_id != market_id,
            old(self).wf() ==> final(self).wf(),
    {
        broadcast use vstd::std_specs::hash::group_hash_axioms;
        let mut market = self.try_get_market(market_id)?;
        ensure_market_is_open(&market, now)?;
        let mut collateral = self.get_collateral(account_id);
        let mut positions = self.get_positions(account_id);
        let ghost ps0 = positions@;
        let ghost k0 = rt.calls@;
        let position_index = try_get_position(&positions, market_id)?;
        proof {
            assert(first_position_index(ps0, market_id) == Some(position_index as int));
        }
        let mut position = positions[position_index];
        let direction = match position.direction() {
            Some(d) => d,
            None => return Err(DispatchError::Module(Error::NullPosition)),
        };
        settle_funding(&mut position, &market, &mut collateral)?;
        let ghost (p1, c1) = (position, collateral);
        positions.set(position_index, position);
        let ghost ps1 = positions@;
        let oracle_status = market.get_oracle_status(rt)?;
        if oracle_status.is_valid {
            update_oracle_twap_with_price(&mut market, oracle_status.price, now)?;
        }
        let ghost m1 = market;
        let mark_index_divergence_before = Self::mark_index_divergence(rt, &market, &oracle_status.price)?;
        let (base_swapped, entry_value, exit_value) = do_close_position(rt, &mut positions, position_index, direction, &mut market, 0)?;
        let ghost m2 = market;
        let ghost qs = choose|qs: u128| close_spec(p1, direction, m1, qs) == Ok::<(u128, Decimal, Decimal, Market), DispatchError>((base_swapped, entry_value, exit_value, m2));
        let ghost k1 = rt.calls@;
        self.check_oracle_guard_rails(rt, &market, &oracle_status, mark_index_divergence_before, false)?;
        let mut available_profits = self.get_available_profits();
        let mut outstanding_profits = self.get_outstanding_profits(account_id);
        let pnl = arith(exit_value.try_sub(entry_value))?;
        settle_profit_and_loss(&mut collateral, &mut available_profits, &mut outstanding_profits, pnl)?;
        let ghost (c2, a2, o2) = (collateral, available_profits, outstanding_profits);
        let fee = arith(fee_for_trade(&market, &exit_value))?;
        collateral = match collateral.checked_sub(fee) {
            Some(v) => v,
            None => return Err(DispatchError::Arithmetic(crate::arith::ArithmeticError::Underflow)),
        };
        let asset_id = self.get_collateral_asset_id()?;
        rt.transfer(asset_id, Self::get_collateral_account(), Self::get_fee_pool_account(market_id), fee, false)?;
        let ghost k2 = rt.calls@;
        self.try_update_funding(rt, market_id, &mut market, &oracle_status, now)?;
        proof {
            let i = position_index as int;
            assert(ps1 == ps0.update(i, position));
            assert(positions@ == ps0.update(i, ps0.last()).drop_last()) by {
                assert(ps1.update(i, ps1.last()).drop_last() =~= ps0.update(i, ps0.last()).drop_last());
            }
            
            if old(self).wf() {
                if !old(self).positions@.contains_key(account_id) {
                    assert(ps0 == Seq::<crate::clearing_house::types::Position>::empty());
                }
                assert(positions_wf(ps0, old(self).markets@, old(self).max_positions));
                lemma_swap_remove_wf(ps0, i, old(self).markets@, old(self).max_positions);
                crate::clearing_house::lemma_market_update_wf(positions@, old(self).markets@, market_id, market, old(self).max_positions);
            }
        }
        self.collateral.insert(account_id, collateral);
        self.available_profits = Some(available_profits);
        self.outstanding_profits.insert(account_id, outstanding_profits);
        self.markets.insert(market_id, market);
        self.positions.insert(account_id, positions);
        proof {
            if old(self).wf() {
                lemma_account_update_wf(*old(self), *self, account_id, market_id);
            }
            assert(self.spec_positions(account_id) == positions@);
            assert(self.spec_collateral(account_id) == collateral);
            lemma_close_outcome(*old(self), *self, account_id, market_id, now, position_index as int, oracle_status.price, qs, p1, c1, m1, base_swapped, entry_value, exit_value, m2, pnl, c2, a2, o2, fee, k0, k1, k2, rt.calls@);
        }
        rt.deposit_event(Event::PositionClosed { user: account_id, market: market_id, direction, base: base_swapped });
        let r: Result<u128, DispatchError> = Ok(base_swapped);
        assert(r matches Ok(b) && close_outcome(*old(self), *self, account_id, market_id, now, b, position_index as int, oracle_status.price, qs, old(rt).calls@, rt.calls@));
        r
    }

    /// Updates the funding rate of a market.
    ///
    /// The market must exist and be open, its funding frequency must have
    /// passed since the last update, the oracle price must be valid and the mark
    /// price not too divergent from it. Both TWAPs are updated before the
    /// funding rate is computed.
    pub fn update_funding<R: Runtime>(&mut self, rt: &mut Host<R>, market_id: u64, now: u64) -> (r: Result<(), DispatchError>)
        ensures
            !old(self).markets@.contains_key(market_id) ==> r == Err::<(), DispatchError>(DispatchError::Module(Error::MarketIdNotFound)),
            old(self).markets@.contains_key(market_id) ==> (match shutdown_status_of(old(self).markets@[market_id].closed_ts, now) {
                ShutdownStatus::Open => true,
                ShutdownStatus::Closed => r == Err::<(), DispatchError>(DispatchError::Module(Error::MarketClosed)),
                ShutdownStatus::Closing => r == Err::<(), DispatchError>(DispatchError::Module(Error::MarketShuttingDown)),
            }),
            old(self).markets@.contains_key(market_id) && shutdown_status_of(old(self).markets@[market_id].closed_ts, now) == ShutdownStatus::Open
                && is_funding_update_time_spec(old(self).markets@[market_id], now) == Ok::<bool, DispatchError>(false)
                ==> r == Err::<(), DispatchError>(DispatchError::Module(Error::UpdatingFundingTooEarly)),
            old(self).markets@.contains_key(market_id) && shutdown_status_of(old(self).markets@[market_id].closed_ts, now) == ShutdownStatus::Open
                && is_funding_update_time_spec(old(self).markets@[market_id], now) == Ok::<bool, DispatchError>(true)
                ==> funding_reads_decide(old(rt).reads@, final(rt).reads@, old(self).markets@[market_id], old(self).max_price_divergence, r),
            r is Ok ==> final(rt).events@ == old(rt).events@.push(Event::FundingUpdated { market: market_id, time: now }),
            r is Err ==> final(rt).events@ == old(rt).events@,
            r is Err ==> *final(self) == *old(self),
            r is Ok ==> {
                let m0 = old(self).markets@[market_id];
                let m = final(self).markets@[market_id];
                &&& old(self).markets@.contains_key(market_id)
                &&& final(self).markets@ == old(self).markets@.insert(market_id, m)
                &&& *final(self) == (ClearingHouse { markets: final(self).markets, ..*old(self) })
                &&& m.funding_rate_ts == now
                &&& exists|m1: Market, twap: u128, balance: u128| #[trigger] funding_paid(m1, m, market_id, now, twap, old(self).max_twap_divergence, old(self).collateral_type, balance,
                    old(rt).calls@.push(RuntimeCall::VammUpdateTwap { vamm_id: m0.vamm_id, result: Ok(()) }), final(rt).calls@)
                &&& exists|price: Decimal| update_oracle_twap_spec(m0, price, now) == Ok::<Market, DispatchError>(Market {
                    cum_funding_rate_long: m0.cum_funding_rate_long,
                    cum_funding_rate_short: m0.cum_funding_rate_short,
                    funding_rate_ts: m0.funding_rate_ts,
                    ..m
                })
            },
            old(self).wf() ==> final(self).wf(),
    {
        broadcast use vstd::std_specs::hash::group_hash_axioms;
        let mut market = self.try_get_market(market_id)?;
        ensure_market_is_open_at(&market, now)?;
        if !is_funding_update_time(&market, now)? {
            return Err(DispatchError::Module(Error::UpdatingFundingTooEarly));
        }
        let oracle_status = market.get_oracle_status(rt)?;
        if !oracle_status.is_valid {
            return Err(DispatchError::Module(Error::InvalidOracleReading));
        }
        if self.is_mark_index_too_divergent(rt, &market, &oracle_status.price)? {
            return Err(DispatchError::Module(Error::OracleMarkTooDivergent));
        }
        update_oracle_twap_with_price(&mut market, oracle_status.price, now)?;
        let ghost m1 = market;
        rt.vamm_update_twap(market.vamm_id)?;
        self.do_update_funding(rt, market_id, &mut market, now)?;
        assert(update_oracle_twap_spec(old(self).markets@[market_id], oracle_status.price, now) == Ok::<Market, DispatchError>(Market {
            cum_funding_rate_long: old(self).markets@[market_id].cum_funding_rate_long,
            cum_funding_rate_short: old(self).markets@[market_id].cum_funding_rate_short,
            funding_rate_ts: old(self).markets@[market_id].funding_rate_ts,
            ..market
        }));
        proof {
            if old(self).wf() {
                assert forall|a: u64| #[trigger] old(self).positions@.contains_key(a) implies positions_wf(old(self).positions@[a]@, old(self).markets@.insert(market_id, market), old(self).max_positions) by {
                    crate::clearing_house::lemma_market_update_wf(old(self).positions@[a]@, old(self).markets@, market_id, market, old(self).max_positions);
                }
            }
        }
        self.markets.insert(market_id, market);
        Ok(())
    }
}

} // verus!
