//! Margin requirements and collateral withdrawals.
use crate::arith::{dec_of, fits_u128, ArithmeticError, Decimal};
use crate::clearing_house::math::{
    decimal_from_swapped_spec, settle_funding, settle_funding_spec, unrealized_funding, unrealized_funding_spec,
    withdrawal_amounts, withdrawal_amounts_spec,
};
use crate::clearing_house::runtime::{added, extends, pushed, reads_extended, Account, Event, Host, Runtime, RuntimeCall, RuntimeRead};
use crate::clearing_house::trading::{base_asset_value, sabs, sadd, smul, ssub, valuation_config};
use crate::clearing_house::types::{arith, direction_of, lift, Direction, DispatchError, Error, Market, Position};
use crate::clearing_house::ClearingHouse;
use vstd::prelude::*;

verus! {

/// Equity and minimum equity of an account with margin `margin` and positions
/// `ps` valued `vals` by the vAMMs: equity is the margin plus each position's
/// unrealized PnL and funding; the minimum equity is the sum of the absolute
/// values times the markets' initial margin ratios. Positions without base
/// asset are skipped.
pub open spec fn margin_totals_spec(ps: Seq<Position>, markets: Map<u64, Market>, vals: Seq<Decimal>, margin: u128) -> Result<(Decimal, Decimal), DispatchError>
    decreases ps.len(),
{
    if ps.len() == 0 {
        match lift(dec_of(margin as int)) {
            Err(e) => Err(e),
            Ok(eq) => Ok((eq, Decimal { inner: 0 })),
        }
    } else {
        match margin_totals_spec(ps.drop_last(), markets, vals.drop_last(), margin) {
            Err(e) => Err(e),
            Ok((eq, mn)) => {
                let p = ps.last();
                if direction_of(p.base_asset_amount) is None {
                    Ok((eq, mn))
                } else if !markets.contains_key(p.market_id) {
                    Err(DispatchError::Module(Error::MarketIdNotFound))
                } else {
                    let m = markets[p.market_id];
                    let v = vals.last();
                    match smul(sabs(v), m.margin_ratio_initial) {
                        Err(e) => Err(e),
                        Ok(req) => match sadd(mn, req) {
                            Err(e) => Err(e),
                            Ok(mn2) => match ssub(v, p.quote_asset_notional_amount) {
                                Err(e) => Err(e),
                                Ok(pnl) => match sadd(eq, pnl) {
                                    Err(e) => Err(e),
                                    Ok(eq2) => match unrealized_funding_spec(m, p) {
                                        Err(e) => Err(e),
                                        Ok(f) => match sadd(eq2, f) {
                                            Err(e) => Err(e),
                                            Ok(eq3) => Ok((eq3, mn2)),
                                        },
                                    },
                                },
                            },
                        },
                    }
                }
            },
        }
    }
}

/// The value of position `p`, in direction `d`, that the read `read` gave: it
/// must be the simulated sale of all its base asset in the vAMM of `m`; a
/// failed simulation gives its error.
pub open spec fn read_valuation(read: RuntimeRead, m: Market, p: Position, d: Direction) -> Result<Decimal, DispatchError> {
    match read {
        RuntimeRead::VammSwapSimulation { config, result } => if config == valuation_config(m, p, d) {
            match result {
                Ok(out) => decimal_from_swapped_spec(out, d),
                Err(e) => Err(e),
            }
        } else {
            Err(DispatchError::Module(Error::MarketIdNotFound))
        },
        _ => Err(DispatchError::Module(Error::MarketIdNotFound)),
    }
}

/// Equity and minimum equity after adding position `p`, of market `m` and
/// valued `v`: its initial margin requirement, its unrealized PnL and its
/// funding, in that order.
pub open spec fn imr_step(eq: Decimal, mn: Decimal, v: Decimal, m: Market, p: Position) -> Result<(Decimal, Decimal), DispatchError> {
    match smul(sabs(v), m.margin_ratio_initial) {
        Err(e) => Err(e),
        Ok(req) => match sadd(mn, req) {
            Err(e) => Err(e),
            Ok(mn2) => match ssub(v, p.quote_asset_notional_amount) {
                Err(e) => Err(e),
                Ok(pnl) => match sadd(eq, pnl) {
                    Err(e) => Err(e),
                    Ok(eq2) => match unrealized_funding_spec(m, p) {
                        Err(e) => Err(e),
                        Ok(f) => match sadd(eq2, f) {
                            Err(e) => Err(e),
                            Ok(eq3) => Ok((eq3, mn2)),
                        },
                    },
                },
            },
        },
    }
}

/// Equity and minimum equity of positions `ps`, from `eq` and `mn`, the
/// positions holding base asset being valued, in order, by the reads `reads`
/// of the vAMMs. A missing market, a failed read or an overflow is an error.
pub open spec fn imr_totals_read(ps: Seq<Position>, markets: Map<u64, Market>, reads: Seq<RuntimeRead>, eq: Decimal, mn: Decimal) -> Result<(Decimal, Decimal), DispatchError>
    decreases ps.len(),
{
    if ps.len() == 0 {
        Ok((eq, mn))
    } else {
        let p = ps[0];
        match direction_of(p.base_asset_amount) {
            None => imr_totals_read(ps.drop_first(), markets, reads, eq, mn),
            Some(d) => if !markets.contains_key(p.market_id) || reads.len() == 0 {
                Err(DispatchError::Module(Error::MarketIdNotFound))
            } else {
                match read_valuation(reads[0], markets[p.market_id], p, d) {
                    Err(e) => Err(e),
                    Ok(v) => match imr_step(eq, mn, v, markets[p.market_id], p) {
                        Err(e) => Err(e),
                        Ok((eq2, mn2)) => imr_totals_read(ps.drop_first(), markets, reads.drop_first(), eq2, mn2),
                    },
                }
            },
        }
    }
}

/// The reads from `old` to `new` are two balance reads of `asset`: the one
/// held by `first`, then the one held by `second`.
pub open spec fn balances_read(old: Seq<RuntimeRead>, new: Seq<RuntimeRead>, asset: u128, first: Account, second: Account) -> bool {
    new == old.push(RuntimeRead::Balance { asset, who: first, result: new[old.len() as int]->Balance_result })
        .push(RuntimeRead::Balance { asset, who: second, result: new.last()->Balance_result })
}

/// After the collateral `c` was realized, a withdrawal of `amount` of
/// collateral `asset` read the balances of the collateral account and of the
/// insurance fund, then checked the initial margin requirements of positions
/// `ps` with what remains, the vAMMs' valuations being the reads after those:
/// when the check finds the requirements unmet, the withdrawal fails with
/// `InsufficientCollateral`.
pub open spec fn withdrawal_margin_checked(ps: Seq<Position>, markets: Map<u64, Market>, c: u128, amount: u128, asset: u128, old_reads: Seq<RuntimeRead>, new_reads: Seq<RuntimeRead>, r: Result<(), DispatchError>) -> bool {
    let n = old_reads.len() as int;
    let (ca, ia) = withdrawal_amounts_spec(amount, new_reads[n]->Balance_result, new_reads[n + 1]->Balance_result);
    &&& new_reads.len() >= n + 2
    &&& new_reads.subrange(0, n + 2) == old_reads.push(RuntimeRead::Balance { asset, who: Account::Collateral, result: new_reads[n]->Balance_result })
        .push(RuntimeRead::Balance { asset, who: Account::Insurance, result: new_reads[n + 1]->Balance_result })
    &&& imr_check_read(ps, markets, new_reads.subrange(n + 2, new_reads.len() as int), (c - ca - ia) as u128) == Ok::<bool, DispatchError>(false)
        ==> r == Err::<(), DispatchError>(DispatchError::Module(Error::InsufficientCollateral))
}

/// The suffix of `ps` from `i` starts with `ps[i]`, followed by the suffix
/// from `i + 1`.
proof fn lemma_suffix_first(ps: Seq<Position>, i: int)
    requires
        0 <= i < ps.len(),
    ensures
        ps.subrange(i, ps.len() as int).len() > 0,
        ps.subrange(i, ps.len() as int)[0] == ps[i],
        ps.subrange(i, ps.len() as int).drop_first() == ps.subrange(i + 1, ps.len() as int),
{
    assert(ps.subrange(i, ps.len() as int).drop_first() =~= ps.subrange(i + 1, ps.len() as int));
}

/// Whether an account with margin `margin` and positions `ps`, valued by the
/// reads `reads`, meets the initial margin requirements: its equity covers
/// its minimum equity.
pub open spec fn imr_check_read(ps: Seq<Position>, markets: Map<u64, Market>, reads: Seq<RuntimeRead>, margin: u128) -> Result<bool, DispatchError> {
    match lift(dec_of(margin as int)) {
        Err(e) => Err(e),
        Ok(eq) => match imr_totals_read(ps, markets, reads, eq, Decimal { inner: 0 }) {
            Ok((e2, m2)) => Ok(e2.inner >= m2.inner),
            Err(e) => Err(e),
        },
    }
}

/// Positions and collateral after settling the funding of each position in
/// turn.
pub open spec fn settle_all_funding_spec(ps: Seq<Position>, markets: Map<u64, Market>, collateral: u128) -> Result<(Seq<Position>, u128), DispatchError>
    decreases ps.len(),
{
    if ps.len() == 0 {
        Ok((ps, collateral))
    } else {
        match settle_all_funding_spec(ps.drop_last(), markets, collateral) {
            Err(e) => Err(e),
            Ok((qs, c)) => {
                let p = ps.last();
                if !markets.contains_key(p.market_id) {
                    Err(DispatchError::Module(Error::MarketIdNotFound))
                } else {
                    match settle_funding_spec(p, markets[p.market_id], c) {
                        Err(e) => Err(e),
                        Ok((p2, c2)) => Ok((qs.push(p2), c2)),
                    }
                }
            },
        }
    }
}

/// Once settling the funding of the first `n` positions fails, settling all of
/// them fails the same way.
proof fn lemma_settle_all_funding_err_extends(ps: Seq<Position>, markets: Map<u64, Market>, collateral: u128, n: int)
    requires
        0 <= n <= ps.len(),
        settle_all_funding_spec(ps.subrange(0, n), markets, collateral) is Err,
    ensures
        settle_all_funding_spec(ps, markets, collateral) == settle_all_funding_spec(ps.subrange(0, n), markets, collateral),
    decreases ps.len() - n,
{
    if n < ps.len() {
        assert(ps.subrange(0, n + 1).drop_last() =~= ps.subrange(0, n));
        lemma_settle_all_funding_err_extends(ps, markets, collateral, n + 1);
    } else {
        assert(ps.subrange(0, n) =~= ps);
    }
}

/// Collateral, outstanding and available profits after paying a trader's
/// outstanding profits out of the available realized losses.
pub open spec fn realize_outstanding_spec(collateral: u128, outstanding: u128, available: u128) -> Result<(u128, u128, u128), DispatchError> {
    let realizable = if outstanding <= available { outstanding } else { available };
    if fits_u128(collateral + realizable) {
        Ok(((collateral + realizable) as u128, (outstanding - realizable) as u128, (available - realizable) as u128))
    } else {
        Err(DispatchError::Arithmetic(ArithmeticError::Overflow))
    }
}

/// The transfers paying out a withdrawal to `account`: `collateral_amount`
/// of `asset` from the collateral account and `insurance_amount` from the
/// insurance fund, each only when not zero.
pub open spec fn withdrawal_transfers(asset: u128, account: u64, collateral_amount: u128, insurance_amount: u128) -> Seq<RuntimeCall> {
    (if collateral_amount != 0 {
        seq![RuntimeCall::Transfer {
            asset,
            from: Account::Collateral,
            to: Account::User(account),
            amount: collateral_amount,
            keep_alive: false,
            result: Ok(()),
        }]
    } else {
        Seq::empty()
    }) + (if insurance_amount != 0 {
        seq![RuntimeCall::Transfer {
            asset,
            from: Account::Insurance,
            to: Account::User(account),
            amount: insurance_amount,
            keep_alive: false,
            result: Ok(()),
        }]
    } else {
        Seq::empty()
    })
}

/// A withdrawal of `amount` for `account` left its collateral `before` at
/// `after` and paid it out by the transfers of `withdrawal_transfers`, the
/// runtime's history going from `old_calls` to `new_calls`, for the balances
/// that the collateral account and the insurance fund held: the collateral
/// account pays until it is empty, the insurance fund covers what it can.
pub open spec fn withdrawn_from(amount: u128, before: u128, after: u128, asset: u128, account: u64, old_calls: Seq<RuntimeCall>, new_calls: Seq<RuntimeCall>) -> bool {
    exists|cb: u128, ib: u128| {
        let (ca, ia) = #[trigger] withdrawal_amounts_spec(amount, cb, ib);
        &&& after == before - ca - ia
        &&& new_calls == old_calls + withdrawal_transfers(asset, account, ca, ia)
    }
}

/// The positions, collateral, outstanding and available profits of account
/// `a` once the funding of its positions is settled and its outstanding
/// profits paid out of the available profits (when there are any).
pub open spec fn withdraw_realized_spec(ch: ClearingHouse, a: u64) -> Result<(Seq<Position>, u128, u128, u128), DispatchError> {
    match settle_all_funding_spec(ch.spec_positions(a), ch.markets@, ch.spec_collateral(a)) {
        Err(e) => Err(e),
        Ok((ps, c1)) => if ch.spec_available() == 0 {
            Ok((ps, c1, ch.spec_outstanding(a), ch.spec_available()))
        } else {
            match realize_outstanding_spec(c1, ch.spec_outstanding(a), ch.spec_available()) {
                Err(e) => Err(e),
                Ok((c2, o2, a2)) => Ok((ps, c2, o2, a2)),
            }
        },
    }
}

/// The positions `ps` meet the initial margin requirements with margin
/// `margin`, for some values of the positions in their vAMMs.
pub open spec fn meets_imr(ps: Seq<Position>, markets: Map<u64, Market>, margin: u128) -> bool {
    exists|vals: Seq<Decimal>| #[trigger] margin_totals_spec(ps, markets, vals, margin) matches Ok((eq, mn)) && eq.inner >= mn.inner
}

impl ClearingHouse {
    /// Whether the account's equity (margin plus unrealized PnL and funding of
    /// its positions) covers the initial margin requirements of its positions.
    pub fn meets_initial_margin_ratio<R: Runtime>(&self, rt: &mut Host<R>, positions: &Vec<Position>, margin: u128) -> (r: Result<bool, DispatchError>)
        ensures
            final(rt).calls@ == old(rt).calls@,
            final(rt).events@ == old(rt).events@,
            reads_extended(old(rt).reads@, final(rt).reads@),
            r == imr_check_read(positions@, self.markets@, final(rt).reads@.subrange(old(rt).reads@.len() as int, final(rt).reads@.len() as int), margin),
            margin > i128::MAX ==> r == Err::<bool, DispatchError>(DispatchError::Arithmetic(ArithmeticError::Overflow)),
            r matches Ok(b) ==> exists|vals: Seq<Decimal>| #[trigger] margin_totals_spec(positions@, self.markets@, vals, margin) matches Ok((eq, mn)) && b == (eq.inner >= mn.inner),
    {
        let mut min_equity = Decimal::zero();
        let mut equity = arith(Decimal::from_balance(margin))?;
        let ghost eq0 = equity;
        let ghost o = old(rt).reads@.len() as int;
        let ghost mut vals: Seq<Decimal> = Seq::empty();
        proof {
            assert forall|rx: Seq<RuntimeRead>| #[trigger] imr_totals_read(positions@, self.markets@, rt.reads@.subrange(o, rt.reads@.len() as int) + rx, eq0, Decimal { inner: 0 })
                == imr_totals_read(positions@.subrange(0, positions@.len() as int), self.markets@, rx, equity, min_equity) by {
                assert(rt.reads@.subrange(o, rt.reads@.len() as int) + rx =~= rx);
                assert(positions@.subrange(0, positions@.len() as int) =~= positions@);
            }
        }
        let mut i: usize = 0;
        assert(positions@.subrange(0, 0).len() == 0);
        while i < positions.len()
            invariant
                i <= positions.len(),
                vals.len() == i,
                margin <= i128::MAX,
                margin_totals_spec(positions@.subrange(0, i as int), self.markets@, vals, margin) == Ok::<(Decimal, Decimal), DispatchError>((equity, min_equity)),
                rt.calls@ == old(rt).calls@,
                rt.events@ == old(rt).events@,
                reads_extended(old(rt).reads@, rt.reads@),
                o == old(rt).reads@.len(),
                lift(dec_of(margin as int)) == Ok::<Decimal, DispatchError>(eq0),
                forall|rx: Seq<RuntimeRead>| #[trigger] imr_totals_read(positions@, self.markets@, rt.reads@.subrange(o, rt.reads@.len() as int) + rx, eq0, Decimal { inner: 0 })
                    == imr_totals_read(positions@.subrange(i as int, positions@.len() as int), self.markets@, rx, equity, min_equity),
            decreases positions.len() - i,
        {
            let position = positions[i];
            let ghost prefix = positions@.subrange(0, i as int + 1);
            assert(prefix.drop_last() == positions@.subrange(0, i as int));
            assert(prefix.last() == position);
            let ghost r0 = rt.reads@;
            let ghost st = (equity, min_equity);
            let ghost sfx = positions@.subrange(i as int, positions@.len() as int);
            proof {
                lemma_suffix_first(positions@, i as int);
            }
            match position.direction() {
                Some(direction) => {
                    let market = match self.try_get_market(position.market_id) {
                        Ok(m) => m,
                        Err(e) => {
                            proof {
                                let rx = Seq::<RuntimeRead>::empty();
                                assert(r0.subrange(o, r0.len() as int) + rx =~= r0.subrange(o, r0.len() as int));
                                assert(imr_totals_read(positions@, self.markets@, r0.subrange(o, r0.len() as int) + rx, eq0, Decimal { inner: 0 })
                                    == imr_totals_read(sfx, self.markets@, rx, st.0, st.1));
                            }
                            return Err(e);
                        },
                    };
                    let valued = base_asset_value(rt, &market, &position, direction);
                    let ghost rx1 = seq![rt.reads@.last()];
                    proof {
                        assert(rt.reads@.subrange(o, rt.reads@.len() as int) =~= r0.subrange(o, r0.len() as int) + rx1);
                        assert(imr_totals_read(positions@, self.markets@, r0.subrange(o, r0.len() as int) + rx1, eq0, Decimal { inner: 0 })
                            == imr_totals_read(sfx, self.markets@, rx1, st.0, st.1));
                        assert(rx1.drop_first() =~= Seq::<RuntimeRead>::empty());
                        assert(read_valuation(rx1[0], self.markets@[position.market_id], position, direction) == valued);
                    }
                    let value = valued?;
                    let ghost step = imr_step(equity, min_equity, value, market, position);
                    assert(imr_totals_read(sfx, self.markets@, rx1, st.0, st.1) == (match step {
                        Err(e) => Err(e),
                        Ok((a, b)) => imr_totals_read(positions@.subrange(i as int + 1, positions@.len() as int), self.markets@, Seq::<RuntimeRead>::empty(), a, b),
                    }));
                    let abs_value = value.saturating_abs();
                    let req = arith(abs_value.try_mul(market.margin_ratio_initial))?;
                    min_equity = arith(min_equity.try_add(req))?;
                    let pnl = arith(value.try_sub(position.quote_asset_notional_amount))?;
                    equity = arith(equity.try_add(pnl))?;
                    let funding = unrealized_funding(&market, &position)?;
                    equity = arith(equity.try_add(funding))?;
                    proof {
                        assert(step == Ok::<(Decimal, Decimal), DispatchError>((equity, min_equity)));
                        assert forall|rx: Seq<RuntimeRead>| #[trigger] imr_totals_read(positions@, self.markets@, rt.reads@.subrange(o, rt.reads@.len() as int) + rx, eq0, Decimal { inner: 0 })
                            == imr_totals_read(positions@.subrange(i as int + 1, positions@.len() as int), self.markets@, rx, equity, min_equity) by {
                            let ry = rx1 + rx;
                            assert(rt.reads@.subrange(o, rt.reads@.len() as int) + rx =~= r0.subrange(o, r0.len() as int) + ry);
                            assert(imr_totals_read(positions@, self.markets@, r0.subrange(o, r0.len() as int) + ry, eq0, Decimal { inner: 0 })
                                == imr_totals_read(sfx, self.markets@, ry, st.0, st.1));
                            assert(ry[0] == rx1[0]);
                            assert(ry.drop_first() =~= rx);
                        }
                        let old_vals = vals;
                        vals = vals.push(value);
                        assert(vals.drop_last() == old_vals);
                    }
                },
                None => {
                    proof {
                        assert forall|rx: Seq<RuntimeRead>| #[trigger] imr_totals_read(positions@, self.markets@, rt.reads@.subrange(o, rt.reads@.len() as int) + rx, eq0, Decimal { inner: 0 })
                            == imr_totals_read(positions@.subrange(i as int + 1, positions@.len() as int), self.markets@, rx, equity, min_equity) by {
                            assert(imr_totals_read(positions@, self.markets@, r0.subrange(o, r0.len() as int) + rx, eq0, Decimal { inner: 0 })
                                == imr_totals_read(sfx, self.markets@, rx, st.0, st.1));
                        }
                        let old_vals = vals;
                        vals = vals.push(Decimal { inner: 0 });
                        assert(vals.drop_last() == old_vals);
                    }
                },
            }
            i += 1;
        }
        assert(positions@.subrange(0, positions.len() as int) == positions@);
        proof {
            let rx = Seq::<RuntimeRead>::empty();
            assert(rt.reads@.subrange(o, rt.reads@.len() as int) + rx =~= rt.reads@.subrange(o, rt.reads@.len() as int));
            assert(imr_totals_read(positions@, self.markets@, rt.reads@.subrange(o, rt.reads@.len() as int) + rx, eq0, Decimal { inner: 0 })
                == imr_totals_read(positions@.subrange(i as int, positions@.len() as int), self.markets@, rx, equity, min_equity));
            assert(positions@.subrange(i as int, positions@.len() as int).len() == 0);
        }
        Ok(equity.inner >= min_equity.inner)
    }

    /// Fails with `InsufficientCollateral` when a trade that increases risk
    /// leaves positions `positions` and collateral `collateral` below the
    /// initial margin requirements, the vAMMs' valuations being the reads it
    /// makes; a trade that does not increase risk is not checked.
    pub fn ensure_initial_margin<R: Runtime>(&self, rt: &mut Host<R>, positions: &Vec<Position>, collateral: u128, is_risk_increasing: bool) -> (r: Result<(), DispatchError>)
        ensures
            final(rt).calls@ == old(rt).calls@,
            final(rt).events@ == old(rt).events@,
            reads_extended(old(rt).reads@, final(rt).reads@),
            !is_risk_increasing ==> r is Ok && final(rt).reads@ == old(rt).reads@,
            is_risk_increasing ==> r == (match imr_check_read(positions@, self.markets@, final(rt).reads@.subrange(old(rt).reads@.len() as int, final(rt).reads@.len() as int), collateral) {
                Ok(true) => Ok::<(), DispatchError>(()),
                Ok(false) => Err(DispatchError::Module(Error::InsufficientCollateral)),
                Err(e) => Err(e),
            }),
            r is Ok && is_risk_increasing ==> meets_imr(positions@, self.markets@, collateral),
    {
        if is_risk_increasing {
            if !self.meets_initial_margin_ratio(rt, positions, collateral)? {
                return Err(DispatchError::Module(Error::InsufficientCollateral));
            }
        }
        Ok(())
    }

    /// Computes how much of a withdrawal comes from the collateral account and
    /// how much from the insurance fund, reading their balances.
    pub fn get_withdrawal_amounts<R: Runtime>(rt: &mut Host<R>, asset_id: u128, collateral_account: Account, insurance_account: Account, amount: u128) -> (r: (u128, u128))
        ensures
            exists|cb: u128, ib: u128| r == withdrawal_amounts_spec(amount, cb, ib),
            r.0 + r.1 <= amount,
            final(rt).calls@ == old(rt).calls@,
            final(rt).events@ == old(rt).events@,
            balances_read(old(rt).reads@, final(rt).reads@, asset_id, collateral_account, insurance_account),
            r == withdrawal_amounts_spec(amount, final(rt).reads@[old(rt).reads@.len() as int]->Balance_result, final(rt).reads@.last()->Balance_result),
    {
        let collateral_balance = rt.balance(asset_id, collateral_account);
        let insurance_balance = rt.balance(asset_id, insurance_account);
        withdrawal_amounts(amount, collateral_balance, insurance_balance)
    }

    /// Settles the funding of each of an account's positions into its
    /// collateral.
    pub fn settle_all_funding(&self, positions: &mut Vec<Position>, collateral: &mut u128) -> (r: Result<(), DispatchError>)
        ensures
            match settle_all_funding_spec(old(positions)@, self.markets@, *old(collateral)) {
                Ok((ps, c)) => r is Ok && final(positions)@ == ps && *final(collateral) == c,
                Err(e) => r == Err::<(), DispatchError>(e),
            },
    {
        let ghost ps0 = positions@;
        let ghost c0 = *collateral;
        let mut i: usize = 0;
        assert(ps0.subrange(0, 0) == Seq::<Position>::empty());
        while i < positions.len()
            invariant
                i <= positions.len(),
                positions.len() == ps0.len(),
                forall|j: int| i <= j < ps0.len() ==> positions@[j] == ps0[j],
                ps0 == old(positions)@,
                c0 == *old(collateral),
                settle_all_funding_spec(ps0.subrange(0, i as int), self.markets@, c0) == Ok::<(Seq<Position>, u128), DispatchError>((positions@.subrange(0, i as int), *collateral)),
            decreases positions.len() - i,
        {
            let mut position = positions[i];
            let ghost prefix = ps0.subrange(0, i as int + 1);
            assert(prefix.drop_last() == ps0.subrange(0, i as int));
            assert(prefix.last() == ps0[i as int]);
            let market = match self.try_get_market(position.market_id) {
                Ok(m) => m,
                Err(e) => {
                    proof {
                        assert(settle_all_funding_spec(prefix, self.markets@, c0) == Err::<(Seq<Position>, u128), DispatchError>(e));
                        lemma_settle_all_funding_err_extends(ps0, self.markets@, c0, i as int + 1);
                    }
                    return Err(e);
                },
            };
            match settle_funding(&mut position, &market, collateral) {
                Ok(()) => {},
                Err(e) => {
                    proof {
                        assert(settle_all_funding_spec(prefix, self.markets@, c0) == Err::<(Seq<Position>, u128), DispatchError>(e));
                        lemma_settle_all_funding_err_extends(ps0, self.markets@, c0, i as int + 1);
                    }
                    return Err(e);
                },
            }
            let ghost before = positions@;
            positions.set(i, position);
            assert(positions@.subrange(0, i as int + 1) == before.subrange(0, i as int).push(position));
            i += 1;
        }
        assert(ps0.subrange(0, ps0.len() as int) == ps0);
        assert(positions@.subrange(0, positions.len() as int) == positions@);
        Ok(())
    }

    /// Withdraws collateral from a trader's margin account.
    ///
    /// Settles funding for all the account's positions and pays its
    /// outstanding profits out of the available profits, then withdraws
    /// `amount` if the account is entitled to it and stays above the initial
    /// margin ratio. The collateral account pays first and the insurance fund
    /// covers what it cannot; the account is charged what was actually paid.
    pub fn withdraw_collateral<R: Runtime>(&mut self, rt: &mut Host<R>, account_id: u64, amount: u128) -> (r: Result<(), DispatchError>)
        ensures
            amount == 0 ==> r == Err::<(), DispatchError>(DispatchError::Module(Error::ZeroWithdrawalAmount)) && final(rt).calls@ == old(rt).calls@,
            r is Ok ==> final(rt).events@ == old(rt).events@.push(Event::CollateralWithdrawn {
                user: account_id,
                amount: (withdraw_realized_spec(*old(self), account_id)->Ok_0.1 - final(self).spec_collateral(account_id)) as u128,
            }),
            r is Err ==> final(rt).events@ == old(rt).events@,
            amount != 0 ==> match withdraw_realized_spec(*old(self), account_id) {
                Err(e) => r == Err::<(), DispatchError>(e) && final(rt).calls@ == old(rt).calls@,
                Ok((ps, c, o, a)) => {
                    &&& amount > c ==> r == Err::<(), DispatchError>(DispatchError::Module(Error::InsufficientCollateral)) && final(rt).calls@ == old(rt).calls@
                    &&& amount <= c && old(self).collateral_type is None
                        ==> r == Err::<(), DispatchError>(DispatchError::Module(Error::NoCollateralTypeSet)) && final(rt).calls@ == old(rt).calls@
                    &&& r is Ok ==> exists|vals: Seq<Decimal>| #[trigger] margin_totals_spec(ps, old(self).markets@, vals, final(self).spec_collateral(account_id)) matches Ok((eq, mn))
                        && eq.inner >= mn.inner
                    &&& amount <= c && old(self).collateral_type is Some ==> withdrawal_margin_checked(ps, old(self).markets@, c, amount,
                        old(self).collateral_type->Some_0, old(rt).reads@, final(rt).reads@, r)
                },
            },
            r is Err ==> *final(self) == *old(self),
            r is Ok ==> {
                let (ps, c1) = settle_all_funding_spec(old(self).spec_positions(account_id), old(self).markets@, old(self).spec_collateral(account_id))->Ok_0;
                &&& settle_all_funding_spec(old(self).spec_positions(account_id), old(self).markets@, old(self).spec_collateral(account_id)) is Ok
                &&& final(self).spec_positions(account_id) == ps
                &&& final(self).positions@ == old(self).positions@.insert(account_id, final(self).positions@[account_id])
                &&& final(self).collateral@ == old(self).collateral@.insert(account_id, final(self).spec_collateral(account_id))
                &&& (if old(self).spec_available() == 0 {
                    &&& amount <= c1
                    &&& withdrawn_from(amount, c1, final(self).spec_collateral(account_id), old(self).collateral_type->Some_0, account_id, old(rt).calls@, final(rt).calls@)
                    &&& final(self).outstanding_profits@ == old(self).outstanding_profits@
                    &&& final(self).available_profits == old(self).available_profits
                } else {
                    let (c2, o2, a2) = realize_outstanding_spec(c1, old(self).spec_outstanding(account_id), old(self).spec_available())->Ok_0;
                    &&& realize_outstanding_spec(c1, old(self).spec_outstanding(account_id), old(self).spec_available()) is Ok
                    &&& amount <= c2
                    &&& withdrawn_from(amount, c2, final(self).spec_collateral(account_id), old(self).collateral_type->Some_0, account_id, old(rt).calls@, final(rt).calls@)
                    &&& final(self).outstanding_profits@ == old(self).outstanding_profits@.insert(account_id, o2)
                    &&& final(self).available_profits == Some(a2)
                })
                &&& final(self).markets == old(self).markets
                &&& final(self).same_config(&*old(self))
            },
    {
        broadcast use vstd::std_specs::hash::group_hash_axioms;
        if amount == 0 {
            return Err(DispatchError::Module(Error::ZeroWithdrawalAmount));
        }
        let mut collateral = self.get_collateral(account_id);
        let mut positions = self.get_positions(account_id);
        self.settle_all_funding(&mut positions, &mut collateral)?;
        let ghost c1 = collateral;
        let mut available_profits = self.get_available_profits();
        let mut outstanding_profits = self.get_outstanding_profits(account_id);
        let profits_changed = available_profits != 0;
        if profits_changed {
            let realizable_profits = if outstanding_profits <= available_profits { outstanding_profits } else { available_profits };
            collateral = match collateral.checked_add(realizable_profits) {
                Some(v) => v,
                None => return Err(DispatchError::Arithmetic(ArithmeticError::Overflow)),
            };
            outstanding_profits = outstanding_profits - realizable_profits;
            available_profits = available_profits - realizable_profits;
        }
        if !(amount <= collateral) {
            return Err(DispatchError::Module(Error::InsufficientCollateral));
        }
        let asset_id = self.get_collateral_asset_id()?;
        let collateral_account = Self::get_collateral_account();
        let insurance_account = Self::get_insurance_account();
        let (collateral_amount, insurance_amount) = Self::get_withdrawal_amounts(rt, asset_id, collateral_account, insurance_account, amount);
        let ghost before = collateral;
        let ghost (cb, ib) = choose|cb: u128, ib: u128| (collateral_amount, insurance_amount) == withdrawal_amounts_spec(amount, cb, ib);
        let ghost rb = rt.reads@;
        let actual_amount = collateral_amount + insurance_amount;
        collateral = collateral - actual_amount;
        let ghost calls0 = rt.calls@;
        let checked = self.meets_initial_margin_ratio(rt, &positions, collateral);
        proof {
            let n = old(rt).reads@.len() as int;
            assert(rt.reads@.subrange(0, n + 2) =~= rb);
            assert(rt.reads@.subrange(n + 2, rt.reads@.len() as int) =~= rt.reads@.subrange(rb.len() as int, rt.reads@.len() as int));
            assert(rt.reads@[n] == rb[n]);
            assert(rt.reads@[n + 1] == rb[n + 1]);
        }
        if !checked? {
            return Err(DispatchError::Module(Error::InsufficientCollateral));
        }
        let ghost vals = choose|vals: Seq<Decimal>| #[trigger] margin_totals_spec(positions@, self.markets@, vals, collateral) matches Ok((eq, mn)) && eq.inner >= mn.inner;
        assert(margin_totals_spec(positions@, self.markets@, vals, collateral) matches Ok((eq, mn)) && eq.inner >= mn.inner);
        let ghost first: Seq<RuntimeCall> = if collateral_amount != 0 {
            seq![RuntimeCall::Transfer { asset: asset_id, from: Account::Collateral, to: Account::User(account_id), amount: collateral_amount, keep_alive: false, result: Ok(()) }]
        } else {
            Seq::empty()
        };
        let ghost second: Seq<RuntimeCall> = if insurance_amount != 0 {
            seq![RuntimeCall::Transfer { asset: asset_id, from: Account::Insurance, to: Account::User(account_id), amount: insurance_amount, keep_alive: false, result: Ok(()) }]
        } else {
            Seq::empty()
        };
        if collateral_amount != 0 {
            rt.transfer(asset_id, collateral_account, Account::User(account_id), collateral_amount, false)?;
        }
        assert(rt.calls@ =~= calls0 + first);
        if insurance_amount != 0 {
            rt.transfer(asset_id, insurance_account, Account::User(account_id), insurance_amount, false)?;
        }
        assert(rt.calls@ =~= calls0 + first + second);
        assert(withdrawal_transfers(asset_id, account_id, collateral_amount, insurance_amount) =~= first + second);
        assert(rt.calls@ =~= calls0 + withdrawal_transfers(asset_id, account_id, collateral_amount, insurance_amount));
        assert(withdrawn_from(amount, before, collateral, asset_id, account_id, old(rt).calls@, rt.calls@));
        if profits_changed {
            self.available_profits = Some(available_profits);
            self.outstanding_profits.insert(account_id, outstanding_profits);
        }
        self.collateral.insert(account_id, collateral);
        self.positions.insert(account_id, positions);
        rt.deposit_event(Event::CollateralWithdrawn { user: account_id, amount: actual_amount });
        assert(self.spec_collateral(account_id) == collateral);
        assert(positions@ == withdraw_realized_spec(*old(self), account_id)->Ok_0.0);
        assert(margin_totals_spec(withdraw_realized_spec(*old(self), account_id)->Ok_0.0, old(self).markets@, vals, self.spec_collateral(account_id)) matches Ok((eq, mn)) && eq.inner >= mn.inner);
        Ok(())
    }
}

} // verus!
