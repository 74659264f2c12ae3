//! A clearing house for perpetual futures markets backed by virtual AMMs and
//! price oracles.
//!
//! Traders deposit collateral, open positions in markets whose prices are
//! discovered by virtual AMMs, pay or receive funding according to the
//! divergence between mark (vAMM) and index (oracle) prices, and can be
//! liquidated when their margin falls below the markets' requirements.
pub mod extrinsics;
pub mod funding;
pub mod liquidation;
pub mod margin;
pub mod math;
pub mod positions;
pub mod runtime;
pub mod trading;
pub mod types;

use crate::arith::{Decimal, DIV};
use crate::clearing_house::runtime::Account;
use crate::clearing_house::types::{DispatchError, Error, Market, Position};
use std::collections::HashMap;
use vstd::prelude::*;

verus! {

/// The storage of the clearing house.
pub struct ClearingHouse {
    /// Supported collateral asset id.
    pub collateral_type: Option<u128>,
    /// Ratio of user's margin to be seized as fees upon a full liquidation.
    pub full_liquidation_penalty: Decimal,
    /// Ratio of full liquidation fees for compensating the liquidator.
    pub full_liquidation_penalty_liquidator_share: Decimal,
    /// Maximum allowable absolute relative divergence between mark and index
    /// prices.
    pub max_price_divergence: Decimal,
    /// Maximum allowable absolute relative divergence between mark and index
    /// TWAPs, used to clip funding rates.
    pub max_twap_divergence: Option<Decimal>,
    /// Ratio of user's margin to be seized as fees upon a partial liquidation.
    pub partial_liquidation_penalty: Decimal,
    /// Ratio of a position's base asset to close in a partial liquidation.
    pub partial_liquidation_close_ratio: Decimal,
    /// Ratio of partial liquidation fees for compensating the liquidator.
    pub partial_liquidation_penalty_liquidator_share: Decimal,
    /// Collateral of each account.
    pub collateral: HashMap<u64, u128>,
    /// Open positions of each account, at most one per market.
    pub positions: HashMap<u64, Vec<Position>>,
    /// Realized losses that can pay realized profits.
    pub available_profits: Option<u128>,
    /// Realized profits of each account waiting for losses to pay them.
    pub outstanding_profits: HashMap<u64, u128>,
    /// Number of markets created; the id of the next market.
    pub market_count: u64,
    /// Markets by id.
    pub markets: HashMap<u64, Market>,
    /// Maximum number of open positions of an account.
    pub max_positions: usize,
}

impl ClearingHouse {
    /// The collateral of an account (zero if none was recorded).
    pub open spec fn spec_collateral(&self, a: u64) -> u128 {
        if self.collateral@.contains_key(a) {
            self.collateral@[a]
        } else {
            0
        }
    }

    /// The open positions of an account.
    pub open spec fn spec_positions(&self, a: u64) -> Seq<Position> {
        if self.positions@.contains_key(a) {
            self.positions@[a]@
        } else {
            Seq::empty()
        }
    }

    /// The outstanding profits of an account (zero if none were recorded).
    pub open spec fn spec_outstanding(&self, a: u64) -> u128 {
        if self.outstanding_profits@.contains_key(a) {
            self.outstanding_profits@[a]
        } else {
            0
        }
    }

    /// The realized losses available to pay profits (zero if never set).
    pub open spec fn spec_available(&self) -> u128 {
        match self.available_profits {
            Some(v) => v,
            None => 0,
        }
    }

    /// The configuration of the clearing house and its markets are those of
    /// `other`.
    pub open spec fn same_config(&self, other: &ClearingHouse) -> bool {
        &&& self.collateral_type == other.collateral_type
        &&& self.full_liquidation_penalty == other.full_liquidation_penalty
        &&& self.full_liquidation_penalty_liquidator_share == other.full_liquidation_penalty_liquidator_share
        &&& self.max_price_divergence == other.max_price_divergence
        &&& self.max_twap_divergence == other.max_twap_divergence
        &&& self.partial_liquidation_penalty == other.partial_liquidation_penalty
        &&& self.partial_liquidation_close_ratio == other.partial_liquidation_close_ratio
        &&& self.partial_liquidation_penalty_liquidator_share == other.partial_liquidation_penalty_liquidator_share
        &&& self.market_count == other.market_count
        &&& self.max_positions == other.max_positions
    }

    /// Well-formedness: every account holds at most `max_positions` positions,
    /// at most one per market, each in an existing market; every market id is
    /// below the market count.
    pub open spec fn wf(&self) -> bool {
        &&& forall|a: u64| #[trigger] self.positions@.contains_key(a) ==> positions_wf(self.positions@[a]@, self.markets@, self.max_positions)
        &&& forall|id: u64| #[trigger] self.markets@.contains_key(id) ==> id < self.market_count
    }

    /// The collateral of an account.
    pub fn get_collateral(&self, a: u64) -> (r: u128)
        ensures
            r == self.spec_collateral(a),
    {
        broadcast use vstd::std_specs::hash::group_hash_axioms;
        match self.collateral.get(&a) {
            Some(v) => *v,
            None => 0,
        }
    }

    /// The outstanding profits of an account.
    pub fn get_outstanding_profits(&self, a: u64) -> (r: u128)
        ensures
            r == self.spec_outstanding(a),
    {
        broadcast use vstd::std_specs::hash::group_hash_axioms;
        match self.outstanding_profits.get(&a) {
            Some(v) => *v,
            None => 0,
        }
    }

    /// The realized losses available to pay profits.
    pub fn get_available_profits(&self) -> (r: u128)
        ensures
            r == self.spec_available(),
    {
        match self.available_profits {
            Some(v) => v,
            None => 0,
        }
    }

    /// The open positions of an account.
    pub fn get_positions(&self, a: u64) -> (r: Vec<Position>)
        ensures
            r@ == self.spec_positions(a),
    {
        broadcast use vstd::std_specs::hash::group_hash_axioms;
        match self.positions.get(&a) {
            Some(v) => copy_positions(v),
            None => Vec::new(),
        }
    }

    /// The market with the given id.
    pub fn try_get_market(&self, market_id: u64) -> (r: Result<Market, DispatchError>)
        ensures
            r == (if self.markets@.contains_key(market_id) {
                Ok::<Market, DispatchError>(self.markets@[market_id])
            } else {
                Err(DispatchError::Module(Error::MarketIdNotFound))
            }),
    {
        broadcast use vstd::std_specs::hash::group_hash_axioms;
        match self.markets.get(&market_id) {
            Some(m) => Ok(*m),
            None => Err(DispatchError::Module(Error::MarketIdNotFound)),
        }
    }

    /// Returns the asset id of the collateral type.
    pub fn get_collateral_asset_id(&self) -> (r: Result<u128, DispatchError>)
        ensures
            r == (match self.collateral_type {
                Some(a) => Ok::<u128, DispatchError>(a),
                None => Err(DispatchError::Module(Error::NoCollateralTypeSet)),
            }),
    {
        match self.collateral_type {
            Some(a) => Ok(a),
            None => Err(DispatchError::Module(Error::NoCollateralTypeSet)),
        }
    }

    /// Returns the account holding users' collateral.
    pub fn get_collateral_account() -> (r: Account)
        ensures
            r == Account::Collateral,
    {
        Account::Collateral
    }

    /// Returns the account holding insurance funds.
    pub fn get_insurance_account() -> (r: Account)
        ensures
            r == Account::Insurance,
    {
        Account::Insurance
    }

    /// Returns the account holding the Fee Pool funds of a market.
    pub fn get_fee_pool_account(market_id: u64) -> (r: Account)
        ensures
            r == Account::FeePool(market_id),
    {
        Account::FeePool(market_id)
    }
}

/// A list of positions is well formed: bounded, one per market, in existing
/// markets.
pub open spec fn positions_wf(ps: Seq<Position>, markets: Map<u64, Market>, max_positions: usize) -> bool {
    &&& ps.len() <= max_positions
    &&& forall|i: int, j: int| 0 <= i < j < ps.len() ==> #[trigger] ps[i].market_id != #[trigger] ps[j].market_id
    &&& forall|i: int| 0 <= i < ps.len() ==> markets.contains_key(#[trigger] ps[i].market_id)
}

/// Removing a position (by swapping in the last one) keeps a list well formed.
pub proof fn lemma_swap_remove_wf(ps: Seq<Position>, i: int, markets: Map<u64, Market>, max_positions: usize)
    requires
        positions_wf(ps, markets, max_positions),
        0 <= i < ps.len(),
    ensures
        positions_wf(ps.update(i, ps.last()).drop_last(), markets, max_positions),
        forall|j: int| 0 <= j < ps.len() - 1 ==> #[trigger] ps.update(i, ps.last()).drop_last()[j].market_id != ps[i].market_id,
{
    let qs = ps.update(i, ps.last()).drop_last();
    assert forall|a: int, b: int| 0 <= a < b < qs.len() implies #[trigger] qs[a].market_id != #[trigger] qs[b].market_id by {
        let ia = if a == i { ps.len() - 1 } else { a };
        let ib = if b == i { ps.len() - 1 } else { b };
        assert(qs[a] == ps[ia]);
        assert(qs[b] == ps[ib]);
        if ia < ib {
            assert(ps[ia].market_id != ps[ib].market_id);
        } else {
            assert(ps[ib].market_id != ps[ia].market_id);
        }
    }
    assert forall|a: int| 0 <= a < qs.len() implies markets.contains_key(#[trigger] qs[a].market_id) by {
        let ia = if a == i { ps.len() - 1 } else { a };
        assert(qs[a] == ps[ia]);
    }
    assert forall|j: int| 0 <= j < ps.len() - 1 implies #[trigger] qs[j].market_id != ps[i].market_id by {
        let ij = if j == i { ps.len() - 1 } else { j };
        assert(qs[j] == ps[ij]);
        if ij < i {
            assert(ps[ij].market_id != ps[i].market_id);
        } else {
            assert(ps[i].market_id != ps[ij].market_id);
        }
    }
}

/// Adding a position in an existing market that has no position yet keeps a
/// list well formed, if there is room for it.
pub proof fn lemma_push_wf(ps: Seq<Position>, p: Position, markets: Map<u64, Market>, max_positions: usize)
    requires
        positions_wf(ps, markets, max_positions),
        ps.len() < max_positions,
        markets.contains_key(p.market_id),
        forall|j: int| 0 <= j < ps.len() ==> #[trigger] ps[j].market_id != p.market_id,
    ensures
        positions_wf(ps.push(p), markets, max_positions),
{
    let qs = ps.push(p);
    assert forall|a: int, b: int| 0 <= a < b < qs.len() implies #[trigger] qs[a].market_id != #[trigger] qs[b].market_id by {
        if b == ps.len() {
            assert(qs[a] == ps[a]);
        } else {
            assert(qs[a] == ps[a] && qs[b] == ps[b]);
        }
    }
    assert forall|a: int| 0 <= a < qs.len() implies markets.contains_key(#[trigger] qs[a].market_id) by {
        if a < ps.len() {
            assert(qs[a] == ps[a]);
        }
    }
}

/// Replacing a market that exists keeps every list of positions well formed.
pub proof fn lemma_market_update_wf(ps: Seq<Position>, markets: Map<u64, Market>, id: u64, m: Market, max_positions: usize)
    requires
        positions_wf(ps, markets, max_positions),
        markets.contains_key(id),
    ensures
        positions_wf(ps, markets.insert(id, m), max_positions),
{
    assert forall|a: int| 0 <= a < ps.len() implies markets.insert(id, m).contains_key(#[trigger] ps[a].market_id) by {
        assert(markets.contains_key(ps[a].market_id));
    }
}

/// Updating one existing market and one account's positions to a well formed
/// list keeps the clearing house well formed.
pub proof fn lemma_account_update_wf(old: ClearingHouse, new: ClearingHouse, a: u64, id: u64)
    requires
        old.wf(),
        old.markets@.contains_key(id),
        new.markets@ == old.markets@.insert(id, new.markets@[id]),
        new.market_count == old.market_count,
        new.max_positions == old.max_positions,
        new.positions@ == old.positions@.insert(a, new.positions@[a]),
        positions_wf(new.positions@[a]@, new.markets@, new.max_positions),
    ensures
        new.wf(),
{
    assert forall|b: u64| #[trigger] new.positions@.contains_key(b) implies positions_wf(new.positions@[b]@, new.markets@, new.max_positions) by {
        if b != a {
            lemma_market_update_wf(old.positions@[b]@, old.markets@, id, new.markets@[id], old.max_positions);
        }
    }
    assert forall|k: u64| #[trigger] new.markets@.contains_key(k) implies k < new.market_count by {
        if k != id {
            assert(old.markets@.contains_key(k));
        }
    }
}

/// Copies a list of positions.
pub fn copy_positions(v: &Vec<Position>) -> (r: Vec<Position>)
    ensures
        r@ == v@,
{
    let mut r: Vec<Position> = Vec::new();
    let mut i: usize = 0;
    while i < v.len()
        invariant
            i <= v.len(),
            r@ == v@.subrange(0, i as int),
        decreases v.len() - i,
    {
        r.push(v[i]);
        i += 1;
        assert(r@ == v@.subrange(0, i as int));
    }
    assert(v@.subrange(0, v.len() as int) == v@);
    r
}

/// The index of the first position in market `market_id`.
pub fn try_get_position(positions: &Vec<Position>, market_id: u64) -> (r: Result<usize, DispatchError>)
    ensures
        match r {
            Ok(i) => i < positions.len() && positions@[i as int].market_id == market_id
                && forall|j: int| 0 <= j < i ==> positions@[j].market_id != market_id,
            Err(e) => e == DispatchError::Module(Error::PositionNotFound)
                && forall|j: int| 0 <= j < positions.len() ==> positions@[j].market_id != market_id,
        },
{
    let mut i: usize = 0;
    while i < positions.len()
        invariant
            i <= positions.len(),
            forall|j: int| 0 <= j < i ==> positions@[j].market_id != market_id,
        decreases positions.len() - i,
    {
        if positions[i].market_id == market_id {
            return Ok(i);
        }
        i += 1;
    }
    Err(DispatchError::Module(Error::PositionNotFound))
}

/// The initial configuration of the clearing house.
pub struct GenesisConfig {
    /// The accepted collateral asset, if any.
    pub collateral_type: Option<u128>,
    /// Maximum allowable absolute relative divergence between mark and index
    /// prices.
    pub max_price_divergence: Decimal,
}

impl Default for GenesisConfig {
    /// No collateral asset and a maximum price divergence of 10%.
    fn default() -> (r: GenesisConfig)
        ensures
            r.collateral_type is None,
            r.max_price_divergence.inner == DIV / 10,
    {
        let max_price_divergence = match Decimal::checked_from_rational(1, 10) {
            Some(d) => d,
            None => Decimal::zero(),
        };
        GenesisConfig { collateral_type: None, max_price_divergence }
    }
}

impl GenesisConfig {
    /// The storage this configuration starts with, for accounts holding at
    /// most `max_positions` positions: no market, no account, and every other
    /// parameter zero or unset.
    pub fn build(&self, max_positions: usize) -> (r: ClearingHouse)
        ensures
            r.wf(),
            r.collateral_type == self.collateral_type,
            r.max_price_divergence == self.max_price_divergence,
            r.max_positions == max_positions,
            r.full_liquidation_penalty.inner == 0,
            r.full_liquidation_penalty_liquidator_share.inner == 0,
            r.max_twap_divergence is None,
            r.partial_liquidation_penalty.inner == 0,
            r.partial_liquidation_close_ratio.inner == 0,
            r.partial_liquidation_penalty_liquidator_share.inner == 0,
            r.collateral@ == Map::<u64, u128>::empty(),
            r.positions@ == Map::<u64, Vec<Position>>::empty(),
            r.available_profits is None,
            r.outstanding_profits@ == Map::<u64, u128>::empty(),
            r.market_count == 0,
            r.markets@ == Map::<u64, Market>::empty(),
    {
        ClearingHouse {
            collateral_type: self.collateral_type,
            full_liquidation_penalty: Decimal::zero(),
            full_liquidation_penalty_liquidator_share: Decimal::zero(),
            max_price_divergence: self.max_price_divergence,
            max_twap_divergence: None,
            partial_liquidation_penalty: Decimal::zero(),
            partial_liquidation_close_ratio: Decimal::zero(),
            partial_liquidation_penalty_liquidator_share: Decimal::zero(),
            collateral: HashMap::new(),
            positions: HashMap::new(),
            available_profits: None,
            outstanding_profits: HashMap::new(),
            market_count: 0,
            markets: HashMap::new(),
            max_positions,
        }
    }
}

} // verus!
