//! Liquidation of accounts whose margin falls below the markets'
//! requirements.
use crate::arith::{abs, dec_div_spec, dec_mul_spec, dec_of, fits_i128, fits_u128, trunc_quot, ArithmeticError, Decimal, DIV};
use crate::clearing_house::math::{settle_funding, settle_funding_spec, unrealized_funding, unrealized_funding_spec, updated_balance, updated_balance_spec};
use crate::clearing_house::runtime::{added, call_failed_with, extends, pushed, read_failed_with, reads_extended, Account, Event, Host, Runtime, RuntimeCall};
use crate::clearing_house::trading::{abs_position_notional_and_pnl, base_swap_config, close_position_in_market, decrease_position, decrease_spec, quote_swap_config, sabs, sadd, smul, ssub};
use crate::clearing_house::types::{
    arith, direction_of, lift, AccountSummary, Direction, DispatchError, Error, Market, Position,
    PositionInfo, SwapConfig,
};
use crate::clearing_house::{positions_wf, ClearingHouse};
use std::collections::HashMap;
use vstd::prelude::*;

verus! {

/// An entry of an account summary: a position, its market and its risk
/// figures.
pub type SummaryEntry = (Market, Position, PositionInfo);

/// The entry holds the stored market of the position and risk figures
/// consistent with them, for some value of the position in its vAMM.
pub open spec fn summary_entry_ok(e: SummaryEntry, markets: Map<u64, Market>) -> bool {
    let (m, p, info) = e;
    &&& markets.contains_key(p.market_id)
    &&& m == markets[p.market_id]
    &&& direction_of(p.base_asset_amount) == Some(info.direction)
    &&& smul(info.base_asset_value, m.margin_ratio_maintenance) == Ok::<Decimal, DispatchError>(info.margin_requirement_maintenance)
    &&& smul(info.base_asset_value, m.margin_ratio_partial) == Ok::<Decimal, DispatchError>(info.margin_requirement_partial)
    &&& unrealized_funding_spec(m, p) == Ok::<Decimal, DispatchError>(info.unrealized_funding)
    &&& exists|v: Decimal| info.base_asset_value == sabs(v) && ssub(v, p.quote_asset_notional_amount) == Ok::<Decimal, DispatchError>(info.unrealized_pnl)
}

/// Totals `(margin, maintenance requirement, partial requirement, base asset
/// value)` after adding an entry with risk figures `info`: its unrealized PnL
/// and funding go to the margin, its requirements and value to theirs.
pub open spec fn summary_add_spec(totals: (Decimal, Decimal, Decimal, Decimal), info: PositionInfo) -> Result<(Decimal, Decimal, Decimal, Decimal), DispatchError> {
    let (margin, mrm, mrp, bav) = totals;
    match sadd(margin, info.unrealized_pnl) {
        Err(e) => Err(e),
        Ok(m1) => match sadd(m1, info.unrealized_funding) {
            Err(e) => Err(e),
            Ok(m2) => match sadd(mrm, info.margin_requirement_maintenance) {
                Err(e) => Err(e),
                Ok(r1) => match sadd(mrp, info.margin_requirement_partial) {
                    Err(e) => Err(e),
                    Ok(r2) => match sadd(bav, info.base_asset_value) {
                        Err(e) => Err(e),
                        Ok(b2) => Ok((m2, r1, r2, b2)),
                    },
                },
            },
        },
    }
}

/// Totals of an account summary: `(margin, maintenance requirement, partial
/// requirement, base asset value)`. The margin is the collateral plus the
/// unrealized PnL and funding of every entry.
pub open spec fn summary_totals_spec(entries: Seq<SummaryEntry>, collateral: u128) -> Result<(Decimal, Decimal, Decimal, Decimal), DispatchError>
    decreases entries.len(),
{
    if entries.len() == 0 {
        match lift(dec_of(collateral as int)) {
            Err(e) => Err(e),
            Ok(m) => Ok((m, Decimal { inner: 0 }, Decimal { inner: 0 }, Decimal { inner: 0 })),
        }
    } else {
        match summary_totals_spec(entries.drop_last(), collateral) {
            Err(e) => Err(e),
            Ok((margin, mrm, mrp, bav)) => {
                let info = entries.last().2;
                match sadd(margin, info.unrealized_pnl) {
                    Err(e) => Err(e),
                    Ok(m1) => match sadd(m1, info.unrealized_funding) {
                        Err(e) => Err(e),
                        Ok(m2) => match sadd(mrm, info.margin_requirement_maintenance) {
                            Err(e) => Err(e),
                            Ok(r1) => match sadd(mrp, info.margin_requirement_partial) {
                                Err(e) => Err(e),
                                Ok(r2) => match sadd(bav, info.base_asset_value) {
                                    Err(e) => Err(e),
                                    Ok(b2) => Ok((m2, r1, r2, b2)),
                                },
                            },
                        },
                    },
                }
            },
        }
    }
}

/// The summary describes the account `a` of `ch`: its collateral, one entry
/// per position holding base asset (in order), and the totals of the entries.
pub open spec fn summary_valid(ch: ClearingHouse, a: u64, s: AccountSummary) -> bool {
    let entries = s.positions_summary@;
    let ps = ch.spec_positions(a);
    &&& s.collateral == ch.spec_collateral(a)
    &&& summary_totals_spec(entries, s.collateral) == Ok::<(Decimal, Decimal, Decimal, Decimal), DispatchError>((s.margin, s.margin_requirement_maintenance, s.margin_requirement_partial, s.base_asset_value))
    &&& forall|k: int| 0 <= k < entries.len() ==> summary_entry_ok(#[trigger] entries[k], ch.markets@)
    &&& forall|k: int| 0 <= k < entries.len() ==> exists|j: int| 0 <= j < ps.len() && #[trigger] entries[k].1 == ps[j]
    &&& entries.len() <= ps.len()
    &&& (positions_wf(ps, ch.markets@, ch.max_positions) ==> forall|k1: int, k2: int| 0 <= k1 < k2 < entries.len() ==> #[trigger] entries[k1].1.market_id != #[trigger] entries[k2].1.market_id)
}

/// The liquidator's share of the fees of a liquidation, saturated to the
/// bounds of `u128`.
pub open spec fn liquidator_fee_spec(share: Decimal, fees: u128) -> int {
    let q = trunc_quot(share.inner * fees, DIV as int);
    if fits_u128(q) { q } else if share.inner < 0 { 0 } else { u128::MAX as int }
}

/// Fee split of a liquidation: the liquidator's share of the fees, saturated,
/// and the rest for the insurance fund.
pub open spec fn fee_split_ok(share: Decimal, fees: u128, liquidator_fee: u128, insurance_fee: u128) -> bool {
    &&& liquidator_fee == liquidator_fee_spec(share, fees)
    &&& liquidator_fee + insurance_fee == fees
}

/// Of the fees of a liquidation, the liquidator gets its configured share,
/// rounded down, and the insurance fund the rest: for a share between nothing
/// and all, `liquidator_fee * DIV <= share * fees < (liquidator_fee + 1) *
/// DIV` and `insurance_fee == fees - liquidator_fee`.
pub proof fn lemma_liquidator_gets_its_share(share: Decimal, fees: u128, liquidator_fee: u128, insurance_fee: u128)
    requires
        fee_split_ok(share, fees, liquidator_fee, insurance_fee),
        0 <= share.inner <= DIV,
    ensures
        liquidator_fee * (DIV as int) <= share.inner * fees < (liquidator_fee + 1) * (DIV as int),
        liquidator_fee <= fees,
        insurance_fee == fees - liquidator_fee,
{
    let x = share.inner * fees;
    let d = DIV as int;
    assert(0 <= x <= fees * d) by (nonlinear_arith)
        requires
            0 <= share.inner <= d,
            fees >= 0,
            x == share.inner * fees;
    let q = x / d;
    assert(q * d <= x < (q + 1) * d && q <= fees) by (nonlinear_arith)
        requires
            0 <= x <= fees * d,
            d > 0,
            q == x / d;
    assert(trunc_quot(x, d) == q);
    assert(liquidator_fee_spec(share, fees) == q);
}

/// The result of liquidating an account: fees for the liquidator and the
/// insurance fund, the account's remaining positions and collateral, and the
/// updated markets.
pub struct Liquidation {
    /// Fee credited to the liquidator.
    pub liquidator_fee: u128,
    /// Fee transferred to the insurance fund.
    pub insurance_fee: u128,
    /// The account's positions after liquidation.
    pub positions: Vec<Position>,
    /// The account's collateral after liquidation.
    pub collateral: u128,
    /// Markets whose positions were closed or reduced.
    pub markets: HashMap<u64, Market>,
    /// Total fees charged.
    pub fees: u128,
    /// For each remaining position, the index of its summary entry.
    pub sources: Ghost<Seq<int>>,
}

impl AccountSummary {
    /// An empty summary of an account with the given collateral.
    pub fn new(collateral: u128) -> (r: Result<AccountSummary, DispatchError>)
        ensures
            r matches Ok(s) ==> s.collateral == collateral && s.positions_summary@.len() == 0
                && summary_totals_spec(Seq::empty(), collateral) == Ok::<(Decimal, Decimal, Decimal, Decimal), DispatchError>((s.margin, s.margin_requirement_maintenance, s.margin_requirement_partial, s.base_asset_value)),
            r is Err ==> summary_totals_spec(Seq::empty(), collateral) is Err,
            collateral > i128::MAX ==> r == Err::<AccountSummary, DispatchError>(DispatchError::Arithmetic(ArithmeticError::Overflow)),
    {
        let margin = arith(Decimal::from_balance(collateral))?;
        Ok(AccountSummary {
            collateral,
            margin,
            margin_requirement_maintenance: Decimal::zero(),
            margin_requirement_partial: Decimal::zero(),
            base_asset_value: Decimal::zero(),
            positions_summary: Vec::new(),
        })
    }

    /// Adds a position to the summary.
    pub fn update(&mut self, market: Market, position: Position, info: PositionInfo) -> (r: Result<(), DispatchError>)
        ensures
            match summary_add_spec((old(self).margin, old(self).margin_requirement_maintenance, old(self).margin_requirement_partial, old(self).base_asset_value), info) {
                Ok((m, mrm, mrp, bav)) => r is Ok && final(self).margin == m && final(self).margin_requirement_maintenance == mrm
                    && final(self).margin_requirement_partial == mrp && final(self).base_asset_value == bav,
                Err(e) => r == Err::<(), DispatchError>(e) && *final(self) == *old(self),
            },
            r is Ok ==> final(self).positions_summary@ == old(self).positions_summary@.push((market, position, info))
                && final(self).collateral == old(self).collateral,
            r is Ok && summary_totals_spec(old(self).positions_summary@, old(self).collateral) == Ok::<(Decimal, Decimal, Decimal, Decimal), DispatchError>((old(self).margin, old(self).margin_requirement_maintenance, old(self).margin_requirement_partial, old(self).base_asset_value))
                ==> summary_totals_spec(final(self).positions_summary@, final(self).collateral) == Ok::<(Decimal, Decimal, Decimal, Decimal), DispatchError>((final(self).margin, final(self).margin_requirement_maintenance, final(self).margin_requirement_partial, final(self).base_asset_value)),
    {
        let m1 = arith(self.margin.try_add(info.unrealized_pnl))?;
        let m2 = arith(m1.try_add(info.unrealized_funding))?;
        let r1 = arith(self.margin_requirement_maintenance.try_add(info.margin_requirement_maintenance))?;
        let r2 = arith(self.margin_requirement_partial.try_add(info.margin_requirement_partial))?;
        let b2 = arith(self.base_asset_value.try_add(info.base_asset_value))?;
        let ghost old_entries = self.positions_summary@;
        self.margin = m2;
        self.margin_requirement_maintenance = r1;
        self.margin_requirement_partial = r2;
        self.base_asset_value = b2;
        self.positions_summary.push((market, position, info));
        assert(self.positions_summary@.drop_last() == old_entries);
        Ok(())
    }
}

/// `order` holds every index of `keys` once, from the greatest key to the
/// lowest, ties in their original order.
pub open spec fn desc_order(order: Seq<usize>, keys: Seq<i128>) -> bool {
    &&& order.len() == keys.len()
    &&& forall|k: int| 0 <= k < order.len() ==> #[trigger] order[k] < keys.len()
    &&& forall|a: int, b: int| 0 <= a < b < order.len() ==> #[trigger] order[a] != #[trigger] order[b]
    &&& forall|a: int, b: int| #![trigger order[a], order[b]] 0 <= a < b < order.len() ==> keys[order[a] as int] > keys[order[b] as int]
        || (keys[order[a] as int] == keys[order[b] as int] && order[a] < order[b])
}

/// Indices of the entries ordered from greatest to lowest key, ties kept in
/// their original order.
fn order_by_key_desc(keys: &Vec<i128>) -> (order: Vec<usize>)
    ensures
        desc_order(order@, keys@),
{
    let mut order: Vec<usize> = Vec::new();
    let mut i: usize = 0;
    while i < keys.len()
        invariant
            i <= keys.len(),
            order@.len() == i,
            forall|k: int| 0 <= k < order@.len() ==> #[trigger] order@[k] < i,
            forall|a: int, b: int| 0 <= a < b < order@.len() ==> #[trigger] order@[a] != #[trigger] order@[b],
            forall|a: int, b: int| 0 <= a < b < order@.len() ==> keys@[#[trigger] order@[a] as int] >= keys@[#[trigger] order@[b] as int],
            forall|a: int, b: int| #![trigger order@[a], order@[b]] 0 <= a < b < order@.len() && keys@[order@[a] as int] == keys@[order@[b] as int] ==> order@[a] < order@[b],
        decreases keys.len() - i,
    {
        let key = keys[i];
        let mut j: usize = 0;
        while j < order.len() && keys[order[j]] >= key
            invariant
                j <= order@.len(),
                order@.len() == i,
                i < keys.len(),
                key == keys@[i as int],
                forall|k: int| 0 <= k < order@.len() ==> #[trigger] order@[k] < i,
                forall|a: int| 0 <= a < j ==> keys@[#[trigger] order@[a] as int] >= key,
            decreases order@.len() - j,
        {
            j += 1;
        }
        let ghost before = order@;
        order.insert(j, i);
        assert(order@ == before.insert(j as int, i));
        proof {
            assert forall|a: int, b: int| 0 <= a < b < order@.len() implies keys@[#[trigger] order@[a] as int] >= keys@[#[trigger] order@[b] as int] by {
                if b < j {
                } else if b == j {
                    assert(keys@[order@[a] as int] >= key);
                } else if a < j {
                    assert(order@[b] == before[b - 1]);
                    if j < before.len() {
                        assert(keys@[before[j as int] as int] < key);
                        if b - 1 > j {
                            assert(keys@[before[j as int] as int] >= keys@[before[b - 1] as int]);
                        }
                    }
                } else if a == j {
                    assert(order@[b] == before[b - 1]);
                    if j < before.len() {
                        assert(keys@[before[j as int] as int] < key);
                        if b - 1 > j {
                            assert(keys@[before[j as int] as int] >= keys@[before[b - 1] as int]);
                        }
                    }
                } else {
                    assert(order@[a] == before[a - 1] && order@[b] == before[b - 1]);
                }
            }
            assert forall|a: int, b: int| 0 <= a < b < order@.len() implies #[trigger] order@[a] != #[trigger] order@[b] by {
                if a < j && b > j {
                    assert(order@[b] == before[b - 1]);
                } else if a > j {
                    assert(order@[a] == before[a - 1] && order@[b] == before[b - 1]);
                } else if b == j {
                    assert(order@[a] == before[a]);
                } else if a == j {
                    assert(order@[b] == before[b - 1]);
                }
            }
            assert forall|a: int, b: int| #![trigger order@[a], order@[b]] 0 <= a < b < order@.len() && keys@[order@[a] as int] == keys@[order@[b] as int] implies order@[a] < order@[b] by {
                if b < j {
                    assert(order@[a] == before[a] && order@[b] == before[b]);
                } else if b == j {
                    assert(order@[a] == before[a]);
                } else if a < j {
                    assert(order@[b] == before[b - 1]);
                    assert(order@[a] == before[a]);
                    assert(keys@[before[j as int] as int] < key);
                    if b - 1 > j {
                        assert(keys@[before[j as int] as int] >= keys@[before[b - 1] as int]);
                    }
                    assert(keys@[before[a] as int] >= key);
                } else if a == j {
                    assert(order@[b] == before[b - 1]);
                    assert(keys@[before[j as int] as int] < key);
                    if b - 1 > j {
                        assert(keys@[before[j as int] as int] >= keys@[before[b - 1] as int]);
                    }
                } else {
                    assert(order@[a] == before[a - 1] && order@[b] == before[b - 1]);
                }
            }
        }
        i += 1;
    }
    order
}

impl ClearingHouse {
    /// Summarizes an account: its margin (collateral plus unrealized PnL and
    /// funding) and, for each position holding base asset, its value and margin
    /// requirements.
    pub fn summarize_account_state<R: Runtime>(&self, rt: &mut Host<R>, account_id: u64, positions: &Vec<Position>) -> (r: Result<AccountSummary, DispatchError>)
        requires
            positions@ == self.spec_positions(account_id),
        ensures
            self.spec_collateral(account_id) > i128::MAX ==> r == Err::<AccountSummary, DispatchError>(DispatchError::Arithmetic(ArithmeticError::Overflow)),
            r matches Ok(s) ==> summary_valid(*self, account_id, s),
            final(rt).calls@ == old(rt).calls@,
            final(rt).events@ == old(rt).events@,
            reads_extended(old(rt).reads@, final(rt).reads@),
            r matches Err(e) ==> e is Arithmetic || e == DispatchError::Module(Error::MarketIdNotFound)
                || read_failed_with(old(rt).reads@, final(rt).reads@, e),
    {
        let collateral = self.get_collateral(account_id);
        let mut summary = AccountSummary::new(collateral)?;
        let ghost ps = positions@;
        let mut i: usize = 0;
        while i < positions.len()
            invariant
                i <= positions.len(),
                ps == positions@,
                ps == self.spec_positions(account_id),
                summary.collateral == self.spec_collateral(account_id),
                self.spec_collateral(account_id) <= i128::MAX,
                summary_totals_spec(summary.positions_summary@, summary.collateral) == Ok::<(Decimal, Decimal, Decimal, Decimal), DispatchError>((summary.margin, summary.margin_requirement_maintenance, summary.margin_requirement_partial, summary.base_asset_value)),
                forall|k: int| 0 <= k < summary.positions_summary@.len() ==> summary_entry_ok(#[trigger] summary.positions_summary@[k], self.markets@),
                forall|k: int| 0 <= k < summary.positions_summary@.len() ==> exists|j: int| 0 <= j < i && #[trigger] summary.positions_summary@[k].1 == ps[j],
                summary.positions_summary@.len() <= i,
                positions_wf(ps, self.markets@, self.max_positions) ==> forall|k1: int, k2: int| 0 <= k1 < k2 < summary.positions_summary@.len() ==> #[trigger] summary.positions_summary@[k1].1.market_id != #[trigger] summary.positions_summary@[k2].1.market_id,
                rt.calls@ == old(rt).calls@,
                rt.events@ == old(rt).events@,
                reads_extended(old(rt).reads@, rt.reads@),
            decreases positions.len() - i,
        {
            let position = positions[i];
            let market = self.try_get_market(position.market_id)?;
            match position.direction() {
                Some(direction) => {
                    let (base_asset_value, unrealized_pnl) = abs_position_notional_and_pnl(rt, &market, &position, direction)?;
                    let mrm = arith(base_asset_value.try_mul(market.margin_ratio_maintenance))?;
                    let mrp = arith(base_asset_value.try_mul(market.margin_ratio_partial))?;
                    let funding = unrealized_funding(&market, &position)?;
                    let info = PositionInfo {
                        direction,
                        margin_requirement_maintenance: mrm,
                        margin_requirement_partial: mrp,
                        base_asset_value,
                        unrealized_pnl,
                        unrealized_funding: funding,
                    };
                    let ghost before = summary.positions_summary@;
                    summary.update(market, position, info)?;
                    proof {
                        let entries = summary.positions_summary@;
                        assert(entries[entries.len() - 1] == (market, position, info));
                        assert(summary_entry_ok((market, position, info), self.markets@));
                        assert forall|k: int| 0 <= k < entries.len() implies exists|j: int| 0 <= j < i + 1 && #[trigger] entries[k].1 == ps[j] by {
                            if k < before.len() {
                                assert(entries[k] == before[k]);
                            } else {
                                assert(entries[k].1 == ps[i as int]);
                            }
                        }
                        if positions_wf(ps, self.markets@, self.max_positions) {
                            assert forall|k1: int, k2: int| 0 <= k1 < k2 < entries.len() implies #[trigger] entries[k1].1.market_id != #[trigger] entries[k2].1.market_id by {
                                assert(entries[k1] == before[k1]);
                                if k2 < before.len() {
                                    assert(entries[k2] == before[k2]);
                                } else {
                                    let j = choose|j: int| 0 <= j < i && #[trigger] before[k1].1 == ps[j];
                                    assert(ps[j].market_id != ps[i as int].market_id);
                                }
                            }
                        }
                    }
                },
                None => {
                    proof {
                        let entries = summary.positions_summary@;
                        assert forall|k: int| 0 <= k < entries.len() implies exists|j: int| 0 <= j < i + 1 && #[trigger] entries[k].1 == ps[j] by {
                            let j = choose|j: int| 0 <= j < i && #[trigger] entries[k].1 == ps[j];
                        }
                    }
                },
            }
            i += 1;
        }
        Ok(summary)
    }
}

/// The state of a liquidation after some entries: the account's margin, the
/// margin requirement left, the fees charged, the collateral and the positions
/// kept.
pub type LiquidationState = (Decimal, Decimal, u128, u128, Seq<Position>);

/// The maintenance margin requirements of the entries, by which a full
/// liquidation orders them.
pub open spec fn maintenance_keys(entries: Seq<SummaryEntry>) -> Seq<i128> {
    entries.map_values(|e: SummaryEntry| e.2.margin_requirement_maintenance.inner)
}

/// One step of a full liquidation at entry `e`. While the margin is below the
/// requirement left, the entry's position is closed: it pays the share of
/// `max_fee` that its value is of `total_value`, which leaves the margin, and
/// its requirement leaves the requirement; its PnL and funding, less the fee,
/// are realized into the collateral. Otherwise the position is kept. `None`
/// where a computation leaves its range or too many positions would be kept.
pub open spec fn full_liquidation_step(st: LiquidationState, e: SummaryEntry, total_value: Decimal, max_fee: Decimal, max_positions: usize) -> Option<LiquidationState> {
    let (margin, requirement, fees, collateral, kept) = st;
    let info = e.2;
    if margin.inner < requirement.inner {
        let share = dec_div_spec(info.base_asset_value.inner as int, total_value.inner as int);
        let fee = dec_mul_spec(share, max_fee.inner as int);
        let gains = info.unrealized_pnl.inner + info.unrealized_funding.inner;
        let delta = gains - fee;
        let c = updated_balance_spec(collateral, Decimal { inner: delta as i128 });
        if total_value.inner != 0 && fits_i128(share) && fits_i128(fee) && fits_i128(margin.inner - fee)
            && fits_i128(requirement.inner - info.margin_requirement_maintenance.inner) && fits_u128(fees + abs(fee))
            && fits_i128(gains) && fits_i128(delta) && c is Ok {
            Some((
                Decimal { inner: (margin.inner - fee) as i128 },
                Decimal { inner: (requirement.inner - info.margin_requirement_maintenance.inner) as i128 },
                (fees + abs(fee)) as u128,
                c->Ok_0,
                kept,
            ))
        } else {
            None
        }
    } else if kept.len() >= max_positions {
        None
    } else {
        Some((margin, requirement, fees, collateral, kept.push(e.1)))
    }
}

/// The state of a full liquidation from `init` after the first `n` entries in
/// `order`.
pub open spec fn full_liquidation_fold(entries: Seq<SummaryEntry>, order: Seq<usize>, n: nat, init: LiquidationState, total_value: Decimal, max_fee: Decimal, max_positions: usize) -> Option<LiquidationState>
    decreases n,
{
    if n == 0 {
        Some(init)
    } else {
        match full_liquidation_fold(entries, order, (n - 1) as nat, init, total_value, max_fee, max_positions) {
            None => None,
            Some(st) => full_liquidation_step(st, entries[order[n - 1] as int], total_value, max_fee, max_positions),
        }
    }
}

/// The state a full liquidation of the account summarized by `s` ends in,
/// visiting its entries in `order`, with liquidation penalty `penalty`: the
/// fees charged are at most the penalty times the margin.
pub open spec fn full_liquidation_spec(s: AccountSummary, order: Seq<usize>, penalty: Decimal, max_positions: usize) -> Option<LiquidationState> {
    let max_fee = dec_mul_spec(penalty.inner as int, s.margin.inner as int);
    if fits_i128(max_fee) {
        full_liquidation_fold(
            s.positions_summary@,
            order,
            order.len(),
            (s.margin, s.margin_requirement_maintenance, 0u128, s.collateral, Seq::empty()),
            s.base_asset_value,
            Decimal { inner: max_fee as i128 },
            max_positions,
        )
    } else {
        None
    }
}

/// A full liquidation of the account summarized by `s`, visiting its entries
/// from the greatest maintenance margin requirement down, ends with fees
/// `fees`, collateral `collateral` and positions `kept`.
pub open spec fn full_liquidation_leaves(s: AccountSummary, penalty: Decimal, max_positions: usize, fees: u128, collateral: u128, kept: Seq<Position>) -> bool {
    exists|order: Seq<usize>| #[trigger] desc_order(order, maintenance_keys(s.positions_summary@))
        && full_liquidation_spec(s, order, penalty, max_positions) is Some
        && full_liquidation_spec(s, order, penalty, max_positions)->Some_0.2 == fees
        && full_liquidation_spec(s, order, penalty, max_positions)->Some_0.3 == collateral
        && full_liquidation_spec(s, order, penalty, max_positions)->Some_0.4 == kept
}

/// The partial margin requirements of the entries, by which a partial
/// liquidation orders them.
pub open spec fn partial_keys(entries: Seq<SummaryEntry>) -> Seq<i128> {
    entries.map_values(|e: SummaryEntry| e.2.margin_requirement_partial.inner)
}

/// One step of a partial liquidation at entry `e`, where the vAMM swapped
/// `base_swapped` base asset if the position was reduced. While the margin is
/// below the requirement left, the position settles its funding and is
/// decreased by `close_ratio` of its value (see `decrease_spec`); it pays the
/// share of `max_fee` that the value closed is of `max_close_value`, which
/// leaves the margin, the same share of its partial requirement leaves the
/// requirement, and the PnL of the part closed, less the fee, is realized into
/// the collateral. The position, reduced or not, is kept. `None` where a
/// computation fails or too many positions would be kept.
pub open spec fn partial_liquidation_step(st: LiquidationState, e: SummaryEntry, base_swapped: u128, max_close_value: Decimal, max_fee: Decimal, close_ratio: Decimal, max_positions: usize) -> Option<LiquidationState> {
    let (margin, requirement, fees, collateral, kept) = st;
    let (market, position, info) = e;
    if kept.len() >= max_positions {
        None
    } else if margin.inner < requirement.inner {
        let sf = settle_funding_spec(position, market, collateral);
        let value = dec_mul_spec(close_ratio.inner as int, info.base_asset_value.inner as int);
        let dec = decrease_spec(sf->Ok_0.0, market, info.direction.spec_opposite(), Decimal { inner: value as i128 }, base_swapped);
        let entry = dec->Ok_0.2;
        let exit = dec->Ok_0.3;
        let share = dec_div_spec(value, max_close_value.inner as int);
        let fee = dec_mul_spec(share, max_fee.inner as int);
        let freed = dec_mul_spec(share, info.margin_requirement_partial.inner as int);
        let pnl = exit.inner - entry.inner;
        let delta = pnl - fee;
        let c = updated_balance_spec(sf->Ok_0.1, Decimal { inner: delta as i128 });
        if sf is Ok && fits_i128(value) && dec is Ok && max_close_value.inner != 0 && fits_i128(share) && fits_i128(fee)
            && fits_i128(freed) && fits_i128(pnl) && fits_u128(fees + abs(fee)) && fits_i128(delta) && c is Ok
            && fits_i128(margin.inner - fee) && fits_i128(requirement.inner - freed) {
            Some((
                Decimal { inner: (margin.inner - fee) as i128 },
                Decimal { inner: (requirement.inner - freed) as i128 },
                (fees + abs(fee)) as u128,
                c->Ok_0,
                kept.push(dec->Ok_0.0),
            ))
        } else {
            None
        }
    } else {
        Some((margin, requirement, fees, collateral, kept.push(position)))
    }
}

/// The state of a partial liquidation from `init` after the first
/// `answers.len()` entries in `order`, the vAMM having swapped `answers[k]`
/// base asset at the `k`-th.
pub open spec fn partial_liquidation_fold(entries: Seq<SummaryEntry>, order: Seq<usize>, answers: Seq<u128>, init: LiquidationState, max_close_value: Decimal, max_fee: Decimal, close_ratio: Decimal, max_positions: usize) -> Option<LiquidationState>
    decreases answers.len(),
{
    if answers.len() == 0 {
        Some(init)
    } else {
        let n = answers.len() - 1;
        match partial_liquidation_fold(entries, order, answers.drop_last(), init, max_close_value, max_fee, close_ratio, max_positions) {
            None => None,
            Some(st) => partial_liquidation_step(st, entries[order[n] as int], answers.last(), max_close_value, max_fee, close_ratio, max_positions),
        }
    }
}

/// The state a partial liquidation of the account summarized by `s` ends in,
/// visiting its entries in `order` with the vAMM's answers `answers`, with
/// liquidation penalty `penalty` and close ratio `close_ratio`: the fees
/// charged are at most the penalty times the margin.
pub open spec fn partial_liquidation_spec(s: AccountSummary, order: Seq<usize>, answers: Seq<u128>, penalty: Decimal, close_ratio: Decimal, max_positions: usize) -> Option<LiquidationState> {
    let max_fee = dec_mul_spec(penalty.inner as int, s.margin.inner as int);
    let max_close_value = dec_mul_spec(close_ratio.inner as int, s.base_asset_value.inner as int);
    if fits_i128(max_fee) && fits_i128(max_close_value) && answers.len() == order.len() {
        partial_liquidation_fold(
            s.positions_summary@,
            order,
            answers,
            (s.margin, s.margin_requirement_partial, 0u128, s.collateral, Seq::empty()),
            Decimal { inner: max_close_value as i128 },
            Decimal { inner: max_fee as i128 },
            close_ratio,
            max_positions,
        )
    } else {
        None
    }
}

/// A partial liquidation of the account summarized by `s`, visiting its
/// entries from the greatest partial margin requirement down, ends with fees
/// `fees`, collateral `collateral` and positions `kept`, for some answers of
/// the vAMM.
pub open spec fn partial_liquidation_leaves(s: AccountSummary, penalty: Decimal, close_ratio: Decimal, max_positions: usize, fees: u128, collateral: u128, kept: Seq<Position>) -> bool {
    exists|order: Seq<usize>, answers: Seq<u128>| #[trigger] desc_order(order, partial_keys(s.positions_summary@))
        && #[trigger] partial_liquidation_spec(s, order, answers, penalty, close_ratio, max_positions) is Some
        && partial_liquidation_spec(s, order, answers, penalty, close_ratio, max_positions)->Some_0.2 == fees
        && partial_liquidation_spec(s, order, answers, penalty, close_ratio, max_positions)->Some_0.3 == collateral
        && partial_liquidation_spec(s, order, answers, penalty, close_ratio, max_positions)->Some_0.4 == kept
}

/// The swap that fully closes the position of summary entry `e`: all its base
/// asset is sold in the market's vAMM, asking for at least its value in quote
/// asset.
pub open spec fn full_close_config(e: SummaryEntry) -> SwapConfig {
    base_swap_config(e.0.vamm_id, e.2.direction, abs(e.1.base_asset_amount.inner as int) as u128, abs(e.2.base_asset_value.inner as int) as u128)
}

/// The swap that reduces the position of summary entry `e` by `close_ratio`
/// of its value: that much quote asset is traded against the position, with no
/// limit on the base asset when buying back a short position and the quote
/// amount as limit when selling a long one.
pub open spec fn partial_close_config(e: SummaryEntry, close_ratio: Decimal) -> SwapConfig {
    let q = dec_mul_spec(close_ratio.inner as int, e.2.base_asset_value.inner as int);
    let d = e.2.direction.spec_opposite();
    quote_swap_config(e.0.vamm_id, d, Decimal { inner: q as i128 }, if d == Direction::Long { 0 } else { abs(q) as u128 })
}

/// `call` is the swap that liquidates the position of entry `e`: fully closes
/// it if `full`, else reduces it by `close_ratio`.
pub open spec fn liquidation_swap(call: RuntimeCall, e: SummaryEntry, full: bool, close_ratio: Decimal) -> bool {
    match call {
        RuntimeCall::VammSwap { config, .. } => config == (if full { full_close_config(e) } else { partial_close_config(e, close_ratio) }),
        _ => false,
    }
}

/// The calls from history `old` to history `new` are appended, and each is
/// the liquidation swap of some entry of `entries`.
pub open spec fn liquidation_swaps(old: Seq<RuntimeCall>, new: Seq<RuntimeCall>, entries: Seq<SummaryEntry>, full: bool, close_ratio: Decimal) -> bool {
    &&& extends(old, new)
    &&& forall|j: int| #![trigger new[j]] old.len() <= j < new.len()
        ==> exists|f: int| 0 <= f < entries.len() && #[trigger] liquidation_swap(new[j], entries[f], full, close_ratio)
}

/// One more liquidation swap keeps the calls liquidation swaps.
proof fn lemma_liquidation_swap_pushed(old: Seq<RuntimeCall>, mid: Seq<RuntimeCall>, new: Seq<RuntimeCall>, entries: Seq<SummaryEntry>, full: bool, close_ratio: Decimal, e: int)
    requires
        liquidation_swaps(old, mid, entries, full, close_ratio),
        pushed(mid, new),
        0 <= e < entries.len(),
        liquidation_swap(new.last(), entries[e], full, close_ratio),
    ensures
        liquidation_swaps(old, new, entries, full, close_ratio),
{
    assert forall|j: int| #![trigger new[j]] old.len() <= j < new.len() implies exists|f: int| 0 <= f < entries.len() && #[trigger] liquidation_swap(new[j], entries[f], full, close_ratio) by {
        if j < mid.len() {
            assert(new[j] == mid[j]);
            let f = choose|f: int| 0 <= f < entries.len() && #[trigger] liquidation_swap(mid[j], entries[f], full, close_ratio);
            assert(liquidation_swap(new[j], entries[f], full, close_ratio));
        } else {
            assert(new[j] == new.last());
            assert(liquidation_swap(new[j], entries[e], full, close_ratio));
        }
    }
    assert forall|j: int| 0 <= j < old.len() implies #[trigger] new[j] == old[j] by {
        assert(mid[j] == old[j]);
        assert(new[j] == mid[j]);
    }
}

/// The liquidation result keeps markets' ids, holds at most `max_positions`
/// positions, each the position of a distinct summary entry (same market).
pub open spec fn liquidation_shape_ok(l: Liquidation, markets: Map<u64, Market>, entries: Seq<SummaryEntry>, max_positions: usize) -> bool {
    &&& l.markets@.dom() == markets.dom()
    &&& l.positions@.len() <= max_positions
    &&& l.sources@.len() == l.positions@.len()
    &&& forall|a: int| 0 <= a < l.positions@.len() ==> 0 <= #[trigger] l.sources@[a] < entries.len()
    &&& forall|a: int| 0 <= a < l.positions@.len() ==> (#[trigger] l.positions@[a]).market_id == entries[l.sources@[a]].1.market_id
    &&& forall|a: int, b: int| 0 <= a < b < l.positions@.len() ==> #[trigger] l.sources@[a] != #[trigger] l.sources@[b]
}

impl ClearingHouse {
    /// Fully liquidates an account described by `summary`: closes its positions,
    /// from the greatest maintenance margin requirement down, while its margin
    /// is below the remaining requirement. Each closed position realizes its PnL
    /// and funding and pays a share of the full liquidation penalty (in
    /// proportion to its value); the liquidator gets its share of the fees and
    /// the insurance fund the rest. Nothing is stored: the result says what to
    /// store.
    fn fully_liquidate_account<R: Runtime>(&self, rt: &mut Host<R>, summary: AccountSummary) -> (r: Result<Liquidation, DispatchError>)
        requires
            forall|k: int| 0 <= k < summary.positions_summary@.len() ==> self.markets@.contains_key(#[trigger] summary.positions_summary@[k].1.market_id),
        ensures
            final(rt).events@ == old(rt).events@,
            r matches Ok(l) ==> fee_split_ok(self.full_liquidation_penalty_liquidator_share, l.fees, l.liquidator_fee, l.insurance_fee),
            r matches Ok(l) ==> (0 <= self.full_liquidation_penalty_liquidator_share.inner <= DIV ==> l.liquidator_fee * (DIV as int) <= self.full_liquidation_penalty_liquidator_share.inner * l.fees < (l.liquidator_fee + 1) * (DIV as int)
                && l.insurance_fee == l.fees - l.liquidator_fee),
            r matches Ok(l) ==> liquidation_shape_ok(l, self.markets@, summary.positions_summary@, self.max_positions),
            !fits_i128(dec_mul_spec(self.full_liquidation_penalty.inner as int, summary.margin.inner as int))
                ==> r == Err::<Liquidation, DispatchError>(DispatchError::Arithmetic(ArithmeticError::Overflow)),
            r matches Ok(l) ==> full_liquidation_leaves(summary, self.full_liquidation_penalty, self.max_positions, l.fees, l.collateral, l.positions@),
            liquidation_swaps(old(rt).calls@, final(rt).calls@, summary.positions_summary@, true, self.partial_liquidation_close_ratio),
            r matches Err(e) ==> e is Arithmetic || e == DispatchError::Module(Error::MaxPositionsExceeded) || call_failed_with(old(rt).calls@, final(rt).calls@, e),
            final(rt).reads@ == old(rt).reads@,
    {
        broadcast use vstd::std_specs::hash::group_hash_axioms;
        let entries = &summary.positions_summary;
        let mut collateral = summary.collateral;
        let mut margin = summary.margin;
        let mut margin_requirement = summary.margin_requirement_maintenance;
        let base_asset_value = summary.base_asset_value;
        let mut markets = self.markets.clone();
        let mut positions: Vec<Position> = Vec::new();
        let maximum_fee = arith(self.full_liquidation_penalty.try_mul(margin))?;
        let mut fees: u128 = 0;
        let mut keys: Vec<i128> = Vec::new();
        let mut i: usize = 0;
        while i < entries.len()
            invariant
                i <= entries.len(),
                keys@.len() == i,
                forall|k: int| 0 <= k < i ==> #[trigger] keys@[k] == entries@[k].2.margin_requirement_maintenance.inner,
            decreases entries.len() - i,
        {
            keys.push(entries[i].2.margin_requirement_maintenance.inner);
            i += 1;
        }
        assert(keys@ =~= maintenance_keys(entries@));
        let order = order_by_key_desc(&keys);
        let ghost init: LiquidationState = (margin, margin_requirement, 0u128, collateral, Seq::empty());
        let ghost mut kept: Seq<int> = Seq::empty();
        let mut k: usize = 0;
        while k < order.len()
            invariant
                k <= order@.len(),
                order@.len() == entries@.len(),
                forall|j: int| 0 <= j < order@.len() ==> #[trigger] order@[j] < entries@.len(),
                entries@ == summary.positions_summary@,
                forall|j: int| 0 <= j < entries@.len() ==> self.markets@.contains_key(#[trigger] entries@[j].1.market_id),
                forall|a: int, b: int| 0 <= a < b < order@.len() ==> #[trigger] order@[a] != #[trigger] order@[b],
                markets@.dom() == self.markets@.dom(),
                positions@.len() <= self.max_positions,
                rt.reads@ == old(rt).reads@,
                rt.events@ == old(rt).events@,
                liquidation_swaps(old(rt).calls@, rt.calls@, entries@, true, self.partial_liquidation_close_ratio),
                kept.len() == positions@.len(),
                forall|a: int| 0 <= a < kept.len() ==> 0 <= #[trigger] kept[a] < k,
                forall|a: int, b: int| 0 <= a < b < kept.len() ==> #[trigger] kept[a] < #[trigger] kept[b],
                forall|a: int| 0 <= a < positions@.len() ==> #[trigger] positions@[a] == entries@[order@[kept[a]] as int].1,
                full_liquidation_fold(entries@, order@, k as nat, init, base_asset_value, maximum_fee, self.max_positions) == Some((margin, margin_requirement, fees, collateral, positions@)),
                fits_i128(dec_mul_spec(self.full_liquidation_penalty.inner as int, summary.margin.inner as int)),
            decreases order@.len() - k,
        {
            let (market, position, info) = entries[order[k]];
            if margin.inner < margin_requirement.inner {
                let mut market = market;
                let ghost calls_before = rt.calls@;
                let closed = close_position_in_market(rt, &position, info.direction, &mut market, info.base_asset_value.into_balance());
                proof {
                    assert(liquidation_swap(rt.calls@.last(), entries@[order@[k as int] as int], true, self.partial_liquidation_close_ratio));
                    lemma_liquidation_swap_pushed(old(rt).calls@, calls_before, rt.calls@, entries@, true, self.partial_liquidation_close_ratio, order@[k as int] as int);
                }
                closed?;
                markets.insert(position.market_id, market);
                let base_asset_value_share = arith(info.base_asset_value.try_div(base_asset_value))?;
                let fee_decimal = arith(base_asset_value_share.try_mul(maximum_fee))?;
                margin = arith(margin.try_sub(fee_decimal))?;
                margin_requirement = arith(margin_requirement.try_sub(info.margin_requirement_maintenance))?;
                fees = match fees.checked_add(fee_decimal.into_balance()) {
                    Some(v) => v,
                    None => return Err(DispatchError::Arithmetic(ArithmeticError::Overflow)),
                };
                let gains = arith(info.unrealized_pnl.try_add(info.unrealized_funding))?;
                let delta = arith(gains.try_sub(fee_decimal))?;
                collateral = updated_balance(collateral, delta)?;
            } else {
                if positions.len() >= self.max_positions {
                    return Err(DispatchError::Module(Error::MaxPositionsExceeded));
                }
                positions.push(position);
                proof {
                    kept = kept.push(k as int);
                }
            }
            k += 1;
        }
        let liquidator_fee = self.full_liquidation_penalty_liquidator_share.saturating_mul_int(fees);
        let insurance_fee = match fees.checked_sub(liquidator_fee) {
            Some(v) => v,
            None => return Err(DispatchError::Arithmetic(ArithmeticError::Underflow)),
        };
        let ghost sources = Seq::new(kept.len(), |a: int| order@[kept[a]] as int);
        let l = Liquidation { liquidator_fee, insurance_fee, positions, collateral, markets, fees, sources: Ghost(sources) };
        proof {
            assert(fee_split_ok(self.full_liquidation_penalty_liquidator_share, fees, l.liquidator_fee, l.insurance_fee));
            if 0 <= self.full_liquidation_penalty_liquidator_share.inner <= DIV {
                lemma_liquidator_gets_its_share(self.full_liquidation_penalty_liquidator_share, fees, l.liquidator_fee, l.insurance_fee);
            }
            assert forall|a: int, b: int| 0 <= a < b < l.positions@.len() implies #[trigger] l.sources@[a] != #[trigger] l.sources@[b] by {
                assert(l.sources@[a] == order@[kept[a]] as int);
                assert(l.sources@[b] == order@[kept[b]] as int);
            }
            assert(l.markets@.dom() == self.markets@.dom());
            assert(l.positions@.len() <= self.max_positions);
            assert(liquidation_shape_ok(l, self.markets@, summary.positions_summary@, self.max_positions));
            assert(full_liquidation_spec(summary, order@, self.full_liquidation_penalty, self.max_positions) == Some((margin, margin_requirement, fees, collateral, l.positions@)));
            assert(desc_order(order@, maintenance_keys(summary.positions_summary@)));
        }
        Ok(l)
    }

    /// Partially liquidates an account described by `summary`: reduces its
    /// positions, from the greatest partial margin requirement down, while its
    /// margin is below the remaining requirement. Each reduced position settles
    /// its funding, closes the partial liquidation close ratio of its value,
    /// realizes the PnL of the part closed and pays a share of the partial
    /// liquidation penalty; the liquidator gets its share of the fees and the
    /// insurance fund the rest. Nothing is stored: the result says what to
    /// store.
    fn partially_liquidate_account<R: Runtime>(&self, rt: &mut Host<R>, summary: AccountSummary) -> (r: Result<Liquidation, DispatchError>)
        requires
            forall|k: int| 0 <= k < summary.positions_summary@.len() ==> self.markets@.contains_key(#[trigger] summary.positions_summary@[k].1.market_id),
        ensures
            final(rt).events@ == old(rt).events@,
            r matches Ok(l) ==> fee_split_ok(self.partial_liquidation_penalty_liquidator_share, l.fees, l.liquidator_fee, l.insurance_fee),
            r matches Ok(l) ==> (0 <= self.partial_liquidation_penalty_liquidator_share.inner <= DIV ==> l.liquidator_fee * (DIV as int) <= self.partial_liquidation_penalty_liquidator_share.inner * l.fees < (l.liquidator_fee + 1) * (DIV as int)
                && l.insurance_fee == l.fees - l.liquidator_fee),
            r matches Ok(l) ==> liquidation_shape_ok(l, self.markets@, summary.positions_summary@, self.max_positions),
            !fits_i128(dec_mul_spec(self.partial_liquidation_penalty.inner as int, summary.margin.inner as int))
                || !fits_i128(dec_mul_spec(self.partial_liquidation_close_ratio.inner as int, summary.base_asset_value.inner as int))
                ==> r == Err::<Liquidation, DispatchError>(DispatchError::Arithmetic(ArithmeticError::Overflow)),
            r matches Ok(l) ==> partial_liquidation_leaves(summary, self.partial_liquidation_penalty, self.partial_liquidation_close_ratio, self.max_positions, l.fees, l.collateral, l.positions@),
            liquidation_swaps(old(rt).calls@, final(rt).calls@, summary.positions_summary@, false, self.partial_liquidation_close_ratio),
            summary.margin.inner >= summary.margin_requirement_partial.inner
                && fits_i128(dec_mul_spec(self.partial_liquidation_penalty.inner as int, summary.margin.inner as int))
                && fits_i128(dec_mul_spec(self.partial_liquidation_close_ratio.inner as int, summary.base_asset_value.inner as int))
                && summary.positions_summary@.len() <= self.max_positions
                ==> r is Ok && final(rt).calls@ == old(rt).calls@,
            r matches Err(e) ==> e is Arithmetic || e == DispatchError::Module(Error::MaxPositionsExceeded) || call_failed_with(old(rt).calls@, final(rt).calls@, e),
            final(rt).reads@ == old(rt).reads@,
    {
        broadcast use vstd::std_specs::hash::group_hash_axioms;
        let entries = &summary.positions_summary;
        let mut collateral = summary.collateral;
        let mut margin = summary.margin;
        let mut margin_requirement = summary.margin_requirement_partial;
        let base_asset_value = summary.base_asset_value;
        let mut markets = self.markets.clone();
        let mut positions: Vec<Position> = Vec::new();
        let mut fees: u128 = 0;
        let maximum_fee = arith(self.partial_liquidation_penalty.try_mul(margin))?;
        let close_ratio = self.partial_liquidation_close_ratio;
        let maximum_close_value = arith(close_ratio.try_mul(base_asset_value))?;
        let mut keys: Vec<i128> = Vec::new();
        let mut i: usize = 0;
        while i < entries.len()
            invariant
                i <= entries.len(),
                keys@.len() == i,
                forall|k: int| 0 <= k < i ==> #[trigger] keys@[k] == entries@[k].2.margin_requirement_partial.inner,
            decreases entries.len() - i,
        {
            keys.push(entries[i].2.margin_requirement_partial.inner);
            i += 1;
        }
        assert(keys@ =~= partial_keys(entries@));
        let order = order_by_key_desc(&keys);
        let ghost init: LiquidationState = (margin, margin_requirement, 0u128, collateral, Seq::empty());
        let ghost mut answers: Seq<u128> = Seq::empty();
        let mut k: usize = 0;
        while k < order.len()
            invariant
                k <= order@.len(),
                order@.len() == entries@.len(),
                forall|j: int| 0 <= j < order@.len() ==> #[trigger] order@[j] < entries@.len(),
                entries@ == summary.positions_summary@,
                forall|j: int| 0 <= j < entries@.len() ==> self.markets@.contains_key(#[trigger] entries@[j].1.market_id),
                forall|a: int, b: int| 0 <= a < b < order@.len() ==> #[trigger] order@[a] != #[trigger] order@[b],
                markets@.dom() == self.markets@.dom(),
                positions@.len() <= self.max_positions,
                rt.reads@ == old(rt).reads@,
                rt.events@ == old(rt).events@,
                liquidation_swaps(old(rt).calls@, rt.calls@, entries@, false, close_ratio),
                close_ratio == self.partial_liquidation_close_ratio,
                summary.margin.inner >= summary.margin_requirement_partial.inner ==> margin == summary.margin
                    && margin_requirement == summary.margin_requirement_partial && fees == 0 && rt.calls@ == old(rt).calls@,
                positions@.len() == k,
                forall|a: int| 0 <= a < positions@.len() ==> #[trigger] positions@[a].market_id == entries@[order@[a] as int].1.market_id,
                answers.len() == k,
                partial_liquidation_fold(entries@, order@, answers, init, maximum_close_value, maximum_fee, close_ratio, self.max_positions) == Some((margin, margin_requirement, fees, collateral, positions@)),
                fits_i128(dec_mul_spec(self.partial_liquidation_penalty.inner as int, summary.margin.inner as int)),
                fits_i128(dec_mul_spec(self.partial_liquidation_close_ratio.inner as int, summary.base_asset_value.inner as int)),
            decreases order@.len() - k,
        {
            let (market, position, info) = entries[order[k]];
            let mut market = market;
            let mut position = position;
            let ghost mut answer: u128 = 0;
            if margin.inner < margin_requirement.inner {
                settle_funding(&mut position, &market, &mut collateral)?;
                let base_value_to_close = arith(close_ratio.try_mul(info.base_asset_value))?;
                let direction_to_close = info.direction.opposite();
                let limit = match direction_to_close {
                    Direction::Long => 0,
                    Direction::Short => base_value_to_close.into_balance(),
                };
                let ghost calls_before = rt.calls@;
                let decreased = decrease_position(rt, &mut position, &mut market, direction_to_close, &base_value_to_close, limit);
                proof {
                    assert(liquidation_swap(rt.calls@.last(), entries@[order@[k as int] as int], false, close_ratio));
                    lemma_liquidation_swap_pushed(old(rt).calls@, calls_before, rt.calls@, entries@, false, close_ratio, order@[k as int] as int);
                }
                let (base_swapped, entry_value, exit_value) = decreased?;
                proof {
                    answer = base_swapped;
                }
                markets.insert(position.market_id, market);
                let closed_share = arith(base_value_to_close.try_div(maximum_close_value))?;
                let fee_decimal = arith(closed_share.try_mul(maximum_fee))?;
                let requirement_freed = arith(closed_share.try_mul(info.margin_requirement_partial))?;
                let realized_pnl = arith(exit_value.try_sub(entry_value))?;
                fees = match fees.checked_add(fee_decimal.into_balance()) {
                    Some(v) => v,
                    None => return Err(DispatchError::Arithmetic(ArithmeticError::Overflow)),
                };
                let delta = arith(realized_pnl.try_sub(fee_decimal))?;
                collateral = updated_balance(collateral, delta)?;
                margin = arith(margin.try_sub(fee_decimal))?;
                margin_requirement = arith(margin_requirement.try_sub(requirement_freed))?;
            }
            if positions.len() >= self.max_positions {
                return Err(DispatchError::Module(Error::MaxPositionsExceeded));
            }
            positions.push(position);
            proof {
                assert((answers.push(answer)).drop_last() =~= answers);
                answers = answers.push(answer);
            }
            k += 1;
        }
        let liquidator_fee = self.partial_liquidation_penalty_liquidator_share.saturating_mul_int(fees);
        proof {
            if fees == 0 {
                assert(self.partial_liquidation_penalty_liquidator_share.inner * fees == 0) by (nonlinear_arith) requires fees == 0;
                assert(trunc_quot(0, DIV as int) == 0);
            }
        }
        let insurance_fee = match fees.checked_sub(liquidator_fee) {
            Some(v) => v,
            None => return Err(DispatchError::Arithmetic(ArithmeticError::Underflow)),
        };
        let ghost sources = Seq::new(order@.len(), |a: int| order@[a] as int);
        let l = Liquidation { liquidator_fee, insurance_fee, positions, collateral, markets, fees, sources: Ghost(sources) };
        proof {
            assert(fee_split_ok(self.partial_liquidation_penalty_liquidator_share, fees, l.liquidator_fee, l.insurance_fee));
            if 0 <= self.partial_liquidation_penalty_liquidator_share.inner <= DIV {
                lemma_liquidator_gets_its_share(self.partial_liquidation_penalty_liquidator_share, fees, l.liquidator_fee, l.insurance_fee);
            }
            assert forall|a: int, b: int| 0 <= a < b < l.positions@.len() implies #[trigger] l.sources@[a] != #[trigger] l.sources@[b] by {
                assert(l.sources@[a] == order@[a] as int);
                assert(l.sources@[b] == order@[b] as int);
            }
            assert(l.markets@.dom() == self.markets@.dom());
            assert(l.positions@.len() <= self.max_positions);
            assert(liquidation_shape_ok(l, self.markets@, summary.positions_summary@, self.max_positions));
            assert(partial_liquidation_spec(summary, order@, answers, self.partial_liquidation_penalty, self.partial_liquidation_close_ratio, self.max_positions) == Some((margin, margin_requirement, fees, collateral, l.positions@)));
            assert(desc_order(order@, partial_keys(summary.positions_summary@)));
        }
        Ok(l)
    }
}

/// Which kind of liquidation an account summary calls for: full when the
/// margin is below the maintenance requirement, partial when below the partial
/// requirement, none otherwise.
#[derive(Clone, Copy, Debug, PartialEq, Eq, Structural)]
pub enum LiquidationKind {
    /// Close positions until the maintenance requirement is met.
    Full,
    /// Reduce positions until the partial requirement is met.
    Partial,
    /// The account has sufficient collateral.
    NotLiquidatable,
}

/// The kind of liquidation called for by margin and requirements.
pub open spec fn liquidation_kind_spec(margin: Decimal, mrm: Decimal, mrp: Decimal) -> LiquidationKind {
    if margin.inner < mrm.inner {
        LiquidationKind::Full
    } else if margin.inner < mrp.inner {
        LiquidationKind::Partial
    } else {
        LiquidationKind::NotLiquidatable
    }
}

/// Decides the kind of liquidation an account summary calls for.
pub fn liquidation_kind(summary: &AccountSummary) -> (r: LiquidationKind)
    ensures
        r == liquidation_kind_spec(summary.margin, summary.margin_requirement_maintenance, summary.margin_requirement_partial),
{
    if summary.margin.inner < summary.margin_requirement_maintenance.inner {
        LiquidationKind::Full
    } else if summary.margin.inner < summary.margin_requirement_partial.inner {
        LiquidationKind::Partial
    } else {
        LiquidationKind::NotLiquidatable
    }
}

/// Well-formedness of a list of positions only depends on which markets exist.
pub proof fn lemma_positions_wf_same_dom(ps: Seq<Position>, m1: Map<u64, Market>, m2: Map<u64, Market>, max_positions: usize)
    requires
        positions_wf(ps, m1, max_positions),
        m1.dom() == m2.dom(),
    ensures
        positions_wf(ps, m2, max_positions),
{
    assert forall|i: int| 0 <= i < ps.len() implies m2.contains_key(#[trigger] ps[i].market_id) by {
        assert(m1.dom().contains(ps[i].market_id));
    }
}

/// A liquidation of kind `kind` of the account `user` summarized by `s` ended
/// with fees `fees`, the user's collateral `collateral` and its positions as
/// `new` holds them; the liquidator's share of the fees is credited to its
/// collateral, and the rest of the fees goes to the insurance fund by the
/// last call made to the runtime.
pub open spec fn liquidation_leaves(old: ClearingHouse, new: ClearingHouse, liquidator: u64, user: u64, s: AccountSummary, kind: LiquidationKind, fees: u128, collateral: u128, new_calls: Seq<RuntimeCall>) -> bool {
    let kept = new.spec_positions(user);
    let share = if kind == LiquidationKind::Full {
        old.full_liquidation_penalty_liquidator_share
    } else {
        old.partial_liquidation_penalty_liquidator_share
    };
    let lf = liquidator_fee_spec(share, fees);
    &&& kind == LiquidationKind::Full ==> full_liquidation_leaves(s, old.full_liquidation_penalty, old.max_positions, fees, collateral, kept)
    &&& kind == LiquidationKind::Partial ==> partial_liquidation_leaves(s, old.partial_liquidation_penalty, old.partial_liquidation_close_ratio, old.max_positions, fees, collateral, kept)
    &&& liquidator == user ==> new.spec_collateral(user) == collateral + lf
    &&& liquidator != user ==> new.spec_collateral(user) == collateral && new.spec_collateral(liquidator) == old.spec_collateral(liquidator) + lf
    &&& fees - lf != 0 ==> new_calls.len() > 0 && new_calls.last() == (RuntimeCall::Transfer {
        asset: old.collateral_type->Some_0,
        from: Account::Collateral,
        to: Account::Insurance,
        amount: (fees - lf) as u128,
        keep_alive: false,
        result: Ok(()),
    })
}

/// `new` is `old` after a liquidation of `user` by `liquidator`: only the
/// markets, the user's positions and collateral and the liquidator's
/// collateral changed, and the liquidation was called for by a summary of the
/// user's account.
pub open spec fn liquidated(old: ClearingHouse, new: ClearingHouse, liquidator: u64, user: u64, s: AccountSummary, new_calls: Seq<RuntimeCall>, old_events: Seq<Event>, new_events: Seq<Event>) -> bool {
    let kind = liquidation_kind_spec(s.margin, s.margin_requirement_maintenance, s.margin_requirement_partial);
    &&& new_events == old_events.push(if kind == LiquidationKind::Full {
        Event::FullLiquidation { user }
    } else {
        Event::PartialLiquidation { user }
    })
    &&& summary_valid(old, user, s)
    &&& kind != LiquidationKind::NotLiquidatable
    &&& exists|fees: u128, collateral: u128| #[trigger] liquidation_leaves(old, new, liquidator, user, s, kind, fees, collateral, new_calls)
    &&& new.same_config(&old)
    &&& new.markets@.dom() == old.markets@.dom()
    &&& new.positions@ == old.positions@.insert(user, new.positions@[user])
    &&& new.positions@.contains_key(user)
    &&& (new.collateral@ == old.collateral@.insert(user, new.spec_collateral(user))
        || new.collateral@ == old.collateral@.insert(user, new.spec_collateral(user)).insert(liquidator, new.spec_collateral(liquidator)))
    &&& new.outstanding_profits@ == old.outstanding_profits@
    &&& new.available_profits == old.available_profits
}

/// The calls from `old` to `new` are the liquidation swaps of entries of
/// `entries` (see `liquidation_swaps`), possibly followed by one transfer.
pub open spec fn liquidation_calls(old: Seq<RuntimeCall>, new: Seq<RuntimeCall>, entries: Seq<SummaryEntry>, full: bool, close_ratio: Decimal) -> bool {
    ||| liquidation_swaps(old, new, entries, full, close_ratio)
    ||| (new.len() > old.len() && liquidation_swaps(old, new.drop_last(), entries, full, close_ratio)
        && new.last() is Transfer)
}

/// The errors a liquidation called for may end with: an arithmetic error, too
/// many positions kept, no collateral type, or the error of the swap or
/// transfer that failed last.
pub open spec fn liquidation_error(e: DispatchError, old_calls: Seq<RuntimeCall>, new_calls: Seq<RuntimeCall>) -> bool {
    ||| e is Arithmetic
    ||| e == DispatchError::Module(Error::MaxPositionsExceeded)
    ||| e == DispatchError::Module(Error::NoCollateralTypeSet)
    ||| call_failed_with(old_calls, new_calls, e)
}

/// Liquidating `user` by `liquidator` given the account summary `s` took
/// `old` to `new`, made the calls from `old_calls` to `new_calls`, deposited
/// the events from `old_events` to `new_events` and returned `r`.
pub open spec fn summary_liquidation(old: ClearingHouse, new: ClearingHouse, liquidator: u64, user: u64, s: AccountSummary, r: Result<(), DispatchError>, old_calls: Seq<RuntimeCall>, new_calls: Seq<RuntimeCall>, old_events: Seq<Event>, new_events: Seq<Event>) -> bool {
    let kind = liquidation_kind_spec(s.margin, s.margin_requirement_maintenance, s.margin_requirement_partial);
    &&& kind == LiquidationKind::NotLiquidatable ==> r == Err::<(), DispatchError>(DispatchError::Module(Error::SufficientCollateral)) && new_calls == old_calls
    &&& kind != LiquidationKind::NotLiquidatable ==> (r matches Err(e) ==> liquidation_error(e, old_calls, new_calls))
    &&& kind == LiquidationKind::Full ==> liquidation_calls(old_calls, new_calls, s.positions_summary@, true, old.partial_liquidation_close_ratio)
    &&& kind == LiquidationKind::Partial ==> liquidation_calls(old_calls, new_calls, s.positions_summary@, false, old.partial_liquidation_close_ratio)
    &&& r is Err ==> new == old && new_events == old_events
    &&& r is Ok ==> liquidated(old, new, liquidator, user, s, new_calls, old_events, new_events)
}

impl ClearingHouse {
    /// Liquidates a user's account if its margin is below the requirements of
    /// its positions: fully below the maintenance requirement, partially below
    /// the partial requirement. The liquidator is credited its share of the
    /// fees and the insurance fund receives the rest.
    pub fn liquidate<R: Runtime>(&mut self, rt: &mut Host<R>, liquidator_id: u64, user_id: u64) -> (r: Result<(), DispatchError>)
        ensures
            old(self).spec_positions(user_id).len() == 0 ==> r == Err::<(), DispatchError>(DispatchError::Module(Error::UserHasNoPositions)),
            r is Err ==> *final(self) == *old(self),
            r is Ok ==> exists|s: AccountSummary| #[trigger] liquidated(*old(self), *final(self), liquidator_id, user_id, s, final(rt).calls@, old(rt).events@, final(rt).events@),
            r is Err ==> final(rt).events@ == old(rt).events@,
            old(self).spec_positions(user_id).len() == 0 ==> final(rt).calls@ == old(rt).calls@,
            old(self).spec_positions(user_id).len() > 0 ==> {
                ||| exists|s: AccountSummary| #[trigger] summary_valid(*old(self), user_id, s)
                    && summary_liquidation(*old(self), *final(self), liquidator_id, user_id, s, r, old(rt).calls@, final(rt).calls@, old(rt).events@, final(rt).events@)
                ||| (r matches Err(e) && *final(self) == *old(self) && final(rt).calls@ == old(rt).calls@ && final(rt).events@ == old(rt).events@
                    && (e is Arithmetic || e == DispatchError::Module(Error::MarketIdNotFound) || read_failed_with(old(rt).reads@, final(rt).reads@, e)))
            },
            old(self).wf() ==> final(self).wf(),
    {
        broadcast use vstd::std_specs::hash::group_hash_axioms;
        let positions = self.get_positions(user_id);
        if positions.len() == 0 {
            return Err(DispatchError::Module(Error::UserHasNoPositions));
        }
        let summary = self.summarize_account_state(rt, user_id, &positions)?;
        self.liquidate_with_summary(rt, liquidator_id, user_id, summary)
    }

    /// Liquidates a user's account given the summary of its state, as
    /// `summarize_account_state` gives it: fails with `SufficientCollateral`
    /// when the summary's margin meets the maintenance requirement, and
    /// otherwise liquidates fully below the maintenance requirement and
    /// partially below the partial requirement.
    pub fn liquidate_with_summary<R: Runtime>(&mut self, rt: &mut Host<R>, liquidator_id: u64, user_id: u64, summary: AccountSummary) -> (r: Result<(), DispatchError>)
        requires
            summary_valid(*old(self), user_id, summary),
        ensures
            summary_liquidation(*old(self), *final(self), liquidator_id, user_id, summary, r, old(rt).calls@, final(rt).calls@, old(rt).events@, final(rt).events@),
            final(rt).reads@ == old(rt).reads@,
            old(self).wf() ==> final(self).wf(),
    {
        broadcast use vstd::std_specs::hash::group_hash_axioms;
        let ghost s = summary;
        proof {
            assert forall|k: int| 0 <= k < summary.positions_summary@.len() implies self.markets@.contains_key(#[trigger] summary.positions_summary@[k].1.market_id) by {
                assert(summary_entry_ok(summary.positions_summary@[k], self.markets@));
            }
        }
        let kind = liquidation_kind(&summary);
        let liquidation = match kind {
            LiquidationKind::Full => self.fully_liquidate_account(rt, summary)?,
            LiquidationKind::Partial => self.partially_liquidate_account(rt, summary)?,
            LiquidationKind::NotLiquidatable => return Err(DispatchError::Module(Error::SufficientCollateral)),
        };
        let Liquidation { liquidator_fee, insurance_fee, positions, collateral, markets, fees, sources } = liquidation;
        let ghost calls_mid = rt.calls@;
        proof {
            if kind == LiquidationKind::Full {
                assert(liquidation_calls(old(rt).calls@, calls_mid, s.positions_summary@, true, old(self).partial_liquidation_close_ratio));
            } else {
                assert(liquidation_calls(old(rt).calls@, calls_mid, s.positions_summary@, false, old(self).partial_liquidation_close_ratio));
            }
        }
        let mut liquidator_collateral = if liquidator_id == user_id { collateral } else { self.get_collateral(liquidator_id) };
        if liquidator_fee != 0 {
            liquidator_collateral = match liquidator_collateral.checked_add(liquidator_fee) {
                Some(v) => v,
                None => return Err(DispatchError::Arithmetic(ArithmeticError::Overflow)),
            };
        }
        if insurance_fee != 0 {
            let asset_id = self.get_collateral_asset_id()?;
            let paid = rt.transfer(asset_id, Self::get_collateral_account(), Self::get_insurance_account(), insurance_fee, false);
            proof {
                assert(rt.calls@.drop_last() =~= calls_mid);
                assert(rt.calls@.len() > old(rt).calls@.len());
            }
            paid?;
        }
        proof {
            if old(self).wf() {
                let ps = old(self).spec_positions(user_id);
                let es = s.positions_summary@;
                if !old(self).positions@.contains_key(user_id) {
                    assert(ps == Seq::<Position>::empty());
                }
                assert(positions_wf(ps, old(self).markets@, old(self).max_positions));
                assert forall|a: int, b: int| 0 <= a < b < positions@.len() implies #[trigger] positions@[a].market_id != #[trigger] positions@[b].market_id by {
                    let ka = sources@[a];
                    let kb = sources@[b];
                    assert(ka != kb);
                    if ka < kb {
                        assert(es[ka].1.market_id != es[kb].1.market_id);
                    } else {
                        assert(es[kb].1.market_id != es[ka].1.market_id);
                    }
                }
                assert forall|a: int| 0 <= a < positions@.len() implies markets@.contains_key(#[trigger] positions@[a].market_id) by {
                    let ka = sources@[a];
                    assert(summary_entry_ok(es[ka], old(self).markets@));
                }
            }
        }
        self.positions.insert(user_id, positions);
        self.collateral.insert(user_id, collateral);
        self.markets = markets;
        if liquidator_fee != 0 {
            self.collateral.insert(liquidator_id, liquidator_collateral);
        }
        match kind {
            LiquidationKind::Full => rt.deposit_event(Event::FullLiquidation { user: user_id }),
            _ => rt.deposit_event(Event::PartialLiquidation { user: user_id }),
        }
        proof {
            if liquidator_fee == 0 {
                assert(self.collateral@ == old(self).collateral@.insert(user_id, self.spec_collateral(user_id)));
            } else {
                assert(self.collateral@ == old(self).collateral@.insert(user_id, self.spec_collateral(user_id)).insert(liquidator_id, self.spec_collateral(liquidator_id)));
            }
            assert(liquidation_leaves(*old(self), *self, liquidator_id, user_id, s, liquidation_kind_spec(s.margin, s.margin_requirement_maintenance, s.margin_requirement_partial), fees, collateral, rt.calls@));
            assert(liquidated(*old(self), *self, liquidator_id, user_id, s, rt.calls@, old(rt).events@, rt.events@));
            if old(self).wf() {
                assert forall|a: u64| #[trigger] self.positions@.contains_key(a) implies positions_wf(self.positions@[a]@, self.markets@, self.max_positions) by {
                    if a != user_id {
                        lemma_positions_wf_same_dom(old(self).positions@[a]@, old(self).markets@, self.markets@, self.max_positions);
                    }
                }
                assert forall|k: u64| #[trigger] self.markets@.contains_key(k) implies k < self.market_count by {
                    assert(old(self).markets@.contains_key(k));
                }
            }
        }
        Ok(())
    }
}

} // verus!
