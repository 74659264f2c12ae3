use escher::arith::{ArithmeticError, Decimal};
use escher::clearing_house::runtime::{Account, Event, Host, Runtime};
use escher::clearing_house::math::is_funding_update_time;
use escher::clearing_house::trading::abs_position_notional_and_pnl;
use escher::clearing_house::types::{
    AssetType, Direction, DispatchError, Error, MarketConfig, Position, SwapConfig, SwapDirection,
    VammConfig,
};
use escher::clearing_house::funding::divergence_from_mark;
use escher::clearing_house::{ClearingHouse, GenesisConfig};
use escher::origin::Origin;
use sp_arithmetic::helpers_128bit::multiply_by_rational_with_rounding;
use sp_arithmetic::Rounding;
use std::collections::HashMap;

use Direction::{Long, Short};

// -------------------------------------------------------------------------------------------------
//                                      Constants and accounts
// -------------------------------------------------------------------------------------------------

const UNIT: u128 = 1_000_000_000_000_000_000;
const ONE_HOUR: u64 = 3600;

const PICA: u128 = 1;
const USDC: u128 = 2;
const DOT: u128 = 3;

const ALICE: u64 = 1;
const BOB: u64 = 2;

const MAX_POSITIONS: usize = 5;
const ORACLE_BLOCK_INTERVAL: u64 = 11;

const BALANCE_TOO_LOW: u32 = 1;
const SWAPPED_AMOUNT_LESS_THAN_MINIMUM_LIMIT: u32 = 10;
const SWAPPED_AMOUNT_MORE_THAN_MAXIMUM_LIMIT: u32 = 11;
const INSUFFICIENT_RESERVES: u32 = 12;
const NO_VAMM: u32 = 13;
const NO_PRICE: u32 = 14;

fn key(a: Account) -> (u8, u64) {
    match a {
        Account::User(u) => (0, u),
        Account::Collateral => (1, 0),
        Account::Insurance => (2, 0),
        Account::FeePool(m) => (3, m),
    }
}

fn mul_div(a: u128, b: u128, c: u128, r: Rounding) -> u128 {
    multiply_by_rational_with_rounding(a, b, c, r).unwrap()
}

// -------------------------------------------------------------------------------------------------
//                                            Mock runtime
// -------------------------------------------------------------------------------------------------

/// A constant-product virtual AMM: the product of the reserves stays that of
/// the initial reserves; quote amounts are scaled by the peg multiplier.
#[derive(Clone, Debug, PartialEq)]
struct Vamm {
    base0: u128,
    quote0: u128,
    base: u128,
    quote: u128,
    peg: u128,
    twap: u128,
    twap_ts: u64,
    twap_period: u64,
    closed: Option<u64>,
}

impl Vamm {
    fn price(&self) -> u128 {
        mul_div(self.quote * self.peg, UNIT, self.base, Rounding::Down)
    }

    fn update_twap(&mut self, now: u64) {
        if now > self.twap_ts {
            let elapsed = (now - self.twap_ts).min(self.twap_period) as u128;
            let period = self.twap_period as u128;
            let price = self.price();
            if period == 0 {
                self.twap = price;
            } else {
                self.twap = mul_div(self.twap, period - elapsed, period, Rounding::Down)
                    + mul_div(price, elapsed, period, Rounding::Down);
            }
            self.twap_ts = now;
        }
    }

    /// The reserves and the output of a swap.
    fn simulate(&self, config: &SwapConfig) -> Result<(u128, u128, u128), DispatchError> {
        let k = |x: u128| mul_div(self.base0, self.quote0, x, Rounding::Up);
        let (base, quote, out) = match (config.asset, config.direction) {
            (AssetType::Quote, SwapDirection::Add) => {
                let q = self.quote + config.input_amount / self.peg;
                let b = k(q);
                (b, q, self.base - b)
            },
            (AssetType::Quote, SwapDirection::Remove) => {
                let dq = config.input_amount / self.peg;
                if dq >= self.quote {
                    return Err(DispatchError::External(INSUFFICIENT_RESERVES));
                }
                let q = self.quote - dq;
                let b = k(q);
                (b, q, b - self.base)
            },
            (AssetType::Base, SwapDirection::Add) => {
                let b = self.base + config.input_amount;
                let q = k(b);
                (b, q, (self.quote - q) * self.peg)
            },
            (AssetType::Base, SwapDirection::Remove) => {
                if config.input_amount >= self.base {
                    return Err(DispatchError::External(INSUFFICIENT_RESERVES));
                }
                let b = self.base - config.input_amount;
                let q = k(b);
                (b, q, (q - self.quote) * self.peg)
            },
        };
        if let Some(limit) = config.output_amount_limit {
            match config.direction {
                SwapDirection::Add if out < limit => {
                    return Err(DispatchError::External(SWAPPED_AMOUNT_LESS_THAN_MINIMUM_LIMIT))
                },
                SwapDirection::Remove if limit != 0 && out > limit => {
                    return Err(DispatchError::External(SWAPPED_AMOUNT_MORE_THAN_MAXIMUM_LIMIT))
                },
                _ => {},
            }
        }
        Ok((base, quote, out))
    }
}

#[derive(Clone, Debug, PartialEq)]
struct Mock {
    now: u64,
    balances: HashMap<(u128, (u8, u64)), u128>,
    prices: HashMap<u128, u128>,
    vamms: Vec<Vamm>,
    events: Vec<Event>,
}

impl Mock {
    fn new() -> Mock {
        Mock { now: 0, balances: HashMap::new(), prices: HashMap::new(), vamms: Vec::new(), events: Vec::new() }
    }

    fn vamm(&self, id: u64) -> Result<&Vamm, DispatchError> {
        self.vamms.get(id as usize).ok_or(DispatchError::External(NO_VAMM))
    }
}

impl Runtime for Mock {
    fn deposit_event(&mut self, event: Event) {
        self.events.push(event);
    }

    fn vamm_create(&mut self, config: &VammConfig) -> Result<u64, DispatchError> {
        let mut v = Vamm {
            base0: config.base_asset_reserves,
            quote0: config.quote_asset_reserves,
            base: config.base_asset_reserves,
            quote: config.quote_asset_reserves,
            peg: config.peg_multiplier,
            twap: 0,
            twap_ts: self.now,
            twap_period: config.twap_period,
            closed: None,
        };
        v.twap = v.price();
        self.vamms.push(v);
        Ok((self.vamms.len() - 1) as u64)
    }

    fn vamm_swap(&mut self, config: &SwapConfig) -> Result<u128, DispatchError> {
        let now = self.now;
        self.vamm(config.vamm_id)?;
        let v = &mut self.vamms[config.vamm_id as usize];
        v.update_twap(now);
        let (base, quote, out) = v.simulate(config)?;
        v.base = base;
        v.quote = quote;
        Ok(out)
    }

    fn vamm_swap_simulation(&self, config: &SwapConfig) -> Result<u128, DispatchError> {
        let config = SwapConfig { output_amount_limit: None, ..*config };
        Ok(self.vamm(config.vamm_id)?.simulate(&config)?.2)
    }

    fn vamm_get_price(&self, vamm_id: u64, _asset: AssetType) -> Result<u128, DispatchError> {
        Ok(self.vamm(vamm_id)?.price())
    }

    fn vamm_get_twap(&self, vamm_id: u64, _asset: AssetType) -> Result<u128, DispatchError> {
        Ok(self.vamm(vamm_id)?.twap)
    }

    fn vamm_get_settlement_price(&self, vamm_id: u64) -> Result<u128, DispatchError> {
        let v = self.vamm(vamm_id)?;
        // The price at which the traders' net position unwinds: net quote
        // paid in over net base taken out.
        if v.quote > v.quote0 && v.base < v.base0 {
            Ok(mul_div((v.quote - v.quote0) * v.peg, UNIT, v.base0 - v.base, Rounding::Down))
        } else if v.quote < v.quote0 && v.base > v.base0 {
            Ok(mul_div((v.quote0 - v.quote) * v.peg, UNIT, v.base - v.base0, Rounding::Down))
        } else {
            Ok(0)
        }
    }

    fn vamm_update_twap(&mut self, vamm_id: u64) -> Result<(), DispatchError> {
        let now = self.now;
        self.vamm(vamm_id)?;
        self.vamms[vamm_id as usize].update_twap(now);
        Ok(())
    }

    fn vamm_close(&mut self, vamm_id: u64, when: u64) -> Result<(), DispatchError> {
        self.vamm(vamm_id)?;
        self.vamms[vamm_id as usize].closed = Some(when);
        Ok(())
    }

    fn oracle_is_supported(&self, asset: u128) -> Result<bool, DispatchError> {
        Ok(self.prices.contains_key(&asset))
    }

    fn oracle_price(&self, asset: u128) -> Result<u128, DispatchError> {
        // Prices are kept in cents.
        let cents = *self.prices.get(&asset).ok_or(DispatchError::External(NO_PRICE))?;
        Ok(mul_div(cents, UNIT, 100, Rounding::Down))
    }

    fn transfer(&mut self, asset: u128, from: Account, to: Account, amount: u128, _keep_alive: bool) -> Result<(), DispatchError> {
        let b = self.balance(asset, from);
        if b < amount {
            return Err(DispatchError::External(BALANCE_TOO_LOW));
        }
        self.balances.insert((asset, key(from)), b - amount);
        let t = self.balance(asset, to);
        self.balances.insert((asset, key(to)), t + amount);
        Ok(())
    }

    fn balance(&self, asset: u128, who: Account) -> u128 {
        *self.balances.get(&(asset, key(who))).unwrap_or(&0)
    }
}

// -------------------------------------------------------------------------------------------------
//                                     Environment and helpers
// -------------------------------------------------------------------------------------------------

struct Env {
    rt: Host<Mock>,
    ch: ClearingHouse,
}

fn build(balances: &[(u64, u128, u128)]) -> Env {
    let mut rt = Mock::new();
    for &(who, asset, amount) in balances {
        rt.balances.insert((asset, key(Account::User(who))), amount);
    }
    let ch = GenesisConfig { collateral_type: Some(USDC), max_price_divergence: Decimal::from_inner(i128::MAX) }
        .build(MAX_POSITIONS);
    Env { rt: Host::new(rt), ch }
}

fn ratio(n: u64, d: u64) -> Decimal {
    Decimal::checked_from_rational(n, d).unwrap()
}

fn default_config() -> MarketConfig {
    MarketConfig {
        asset: DOT,
        vamm_config: VammConfig {
            base_asset_reserves: UNIT * 100,
            quote_asset_reserves: UNIT * 100_000,
            peg_multiplier: 1,
            twap_period: ONE_HOUR,
        },
        margin_ratio_initial: ratio(1, 10),
        margin_ratio_maintenance: ratio(2, 100),
        margin_ratio_partial: ratio(4, 100),
        minimum_trade_size: Decimal::zero(),
        funding_frequency: ONE_HOUR,
        funding_period: ONE_HOUR * 24,
        taker_fee: 0,
        twap_period: ONE_HOUR,
    }
}

fn vamm_config(base: u128, quote: u128) -> VammConfig {
    VammConfig { base_asset_reserves: base, quote_asset_reserves: quote, peg_multiplier: 1, twap_period: ONE_HOUR }
}

impl Env {
    fn advance_blocks_by(&mut self, blocks: u64, secs_per_block: u64) {
        self.rt.runtime.now += blocks * secs_per_block;
    }

    fn run_to_time(&mut self, seconds: u64) {
        self.rt.runtime.now = seconds;
    }

    fn update_oracle_for(&mut self, asset: u128, price: u128) {
        self.advance_blocks_by(ORACLE_BLOCK_INTERVAL + 1, 1);
        self.rt.runtime.prices.insert(asset, price);
        self.advance_blocks_by(1, 1);
    }

    fn set_oracle_for(&mut self, asset: u128, price: u128) {
        self.update_oracle_for(asset, price);
    }

    fn create_market(&mut self, config: MarketConfig) -> Result<u64, DispatchError> {
        let now = self.rt.runtime.now;
        let snapshot = self.rt.runtime.clone();
        let r = self.ch.create_market(&mut self.rt, config, now);
        if r.is_err() {
            self.rt.runtime = snapshot;
        }
        r
    }

    fn deposit(&mut self, who: u64, asset: u128, amount: u128) -> Result<(), DispatchError> {
        let snapshot = self.rt.runtime.clone();
        let r = self.ch.deposit_collateral(&mut self.rt, who, asset, amount);
        if r.is_err() {
            self.rt.runtime = snapshot;
        }
        r
    }

    fn open(&mut self, who: u64, market_id: u64, d: Direction, quote: u128, limit: u128) -> Result<u128, DispatchError> {
        let now = self.rt.runtime.now;
        let snapshot = self.rt.runtime.clone();
        let r = self.ch.open_position(&mut self.rt, who, market_id, d, quote, limit, now);
        if r.is_err() {
            self.rt.runtime = snapshot;
        }
        r
    }

    fn close(&mut self, who: u64, market_id: u64) -> Result<u128, DispatchError> {
        let now = self.rt.runtime.now;
        let snapshot = self.rt.runtime.clone();
        let r = self.ch.close_position(&mut self.rt, who, market_id, now);
        if r.is_err() {
            self.rt.runtime = snapshot;
        }
        r
    }

    fn update_funding(&mut self, market_id: u64) -> Result<(), DispatchError> {
        let now = self.rt.runtime.now;
        let snapshot = self.rt.runtime.clone();
        let r = self.ch.update_funding(&mut self.rt, market_id, now);
        if r.is_err() {
            self.rt.runtime = snapshot;
        }
        r
    }

    fn close_market(&mut self, market_id: u64, when: u64) -> Result<(), DispatchError> {
        self.close_market_as(Origin::Root, market_id, when)
    }

    fn close_market_as(&mut self, origin: Origin, market_id: u64, when: u64) -> Result<(), DispatchError> {
        let now = self.rt.runtime.now;
        let snapshot = self.rt.runtime.clone();
        let r = self.ch.close_market(&mut self.rt, origin, market_id, when, now);
        if r.is_err() {
            self.rt.runtime = snapshot;
        }
        r
    }

    fn settle(&mut self, who: u64, market_id: u64) -> Result<(), DispatchError> {
        let now = self.rt.runtime.now;
        let snapshot = self.rt.runtime.clone();
        let r = self.ch.settle_position(&mut self.rt, who, market_id, now);
        if r.is_err() {
            self.rt.runtime = snapshot;
        }
        r
    }

    fn liquidate(&mut self, liquidator: u64, user: u64) -> Result<(), DispatchError> {
        let snapshot = self.rt.runtime.clone();
        let r = self.ch.liquidate(&mut self.rt, liquidator, user);
        if r.is_err() {
            self.rt.runtime = snapshot;
        }
        r
    }

    fn market(&self, market_id: u64) -> escher::clearing_house::types::Market {
        self.ch.try_get_market(market_id).unwrap()
    }

    fn vamm_of(&self, market_id: u64) -> Vamm {
        self.rt.runtime.vamms[self.market(market_id).vamm_id as usize].clone()
    }

    fn position(&self, who: u64, market_id: u64) -> Option<Position> {
        self.ch.get_positions(who).into_iter().find(|p| p.market_id == market_id)
    }

    fn unrealized_pnl(&mut self, who: u64, market_id: u64) -> Decimal {
        let market = self.market(market_id);
        let position = self.position(who, market_id).unwrap();
        let (_, pnl) = abs_position_notional_and_pnl(&mut self.rt, &market, &position, position.direction().unwrap()).unwrap();
        pnl
    }

    fn fee_pool(&self, market_id: u64) -> u128 {
        self.rt.runtime.balance(USDC, ClearingHouse::get_fee_pool_account(market_id))
    }

    fn insurance(&self) -> u128 {
        self.rt.runtime.balance(USDC, ClearingHouse::get_insurance_account())
    }
}

fn module(e: Error) -> DispatchError {
    DispatchError::Module(e)
}

/// Each call runs as a storage transaction, as the runtime runs an
/// extrinsic: a call that fails leaves the runtime and the clearing house as
/// they were.
fn assert_noop<T: std::fmt::Debug + PartialEq>(env: &mut Env, call: impl FnOnce(&mut Env) -> Result<T, DispatchError>, err: DispatchError) {
    let runtime = env.rt.runtime.clone();
    let collateral = env.ch.collateral.clone();
    let positions = env.ch.positions.clone();
    let outstanding = env.ch.outstanding_profits.clone();
    let available = env.ch.available_profits;
    let markets = env.ch.markets.clone();
    let market_count = env.ch.market_count;
    assert_eq!(call(env), Err(err));
    assert_eq!(env.rt.runtime, runtime);
    assert_eq!(env.ch.collateral, collateral);
    assert_eq!(env.ch.positions, positions);
    assert_eq!(env.ch.outstanding_profits, outstanding);
    assert_eq!(env.ch.available_profits, available);
    assert_eq!(env.ch.markets, markets);
    assert_eq!(env.ch.market_count, market_count);
}

// -------------------------------------------------------------------------------------------------
//                                       Deposit collateral
// -------------------------------------------------------------------------------------------------

#[test]
fn add_margin_returns_transfer_error() {
    let mut env = build(&[]);
    assert_noop(&mut env, |e| e.deposit(ALICE, USDC, 1_000), DispatchError::External(BALANCE_TOO_LOW));
    assert_eq!(env.ch.get_collateral(ALICE), 0);
}

#[test]
fn deposit_unsupported_collateral_returns_error() {
    let mut env = build(&[(ALICE, PICA, 1_000_000)]);
    assert_noop(&mut env, |e| e.deposit(ALICE, PICA, 1_000), module(Error::UnsupportedCollateralType));
}

#[test]
fn deposit_supported_collateral_succeeds() {
    let mut env = build(&[(ALICE, USDC, 1_000_000)]);
    let amount: u128 = 1_000;
    let before = (env.ch.get_collateral(ALICE), env.rt.balance(USDC, Account::User(ALICE)));
    assert_eq!(env.deposit(ALICE, USDC, amount), Ok(()));
    let after = (env.ch.get_collateral(ALICE), env.rt.balance(USDC, Account::User(ALICE)));
    assert_eq!(after.0 - before.0, amount);
    assert_eq!(after.1, before.1 - amount);
    assert_eq!(env.rt.balance(USDC, ClearingHouse::get_collateral_account()), amount);
}

#[test]
fn should_fail_to_deposit_zero_collateral() {
    let mut env = build(&[(ALICE, USDC, 100 * UNIT)]);
    assert_noop(&mut env, |e| e.deposit(ALICE, USDC, 0), module(Error::NoCollateralDeposited));
}

#[test]
fn deposit_without_collateral_type_fails() {
    let mut env = build(&[(ALICE, USDC, 100)]);
    env.ch.collateral_type = None;
    assert_noop(&mut env, |e| e.deposit(ALICE, USDC, 10), module(Error::NoCollateralTypeSet));
}

// -------------------------------------------------------------------------------------------------
//                                          Create market
// -------------------------------------------------------------------------------------------------

#[test]
fn should_succeed_in_creating_first_market() {
    for asset_id in [DOT, PICA] {
        let mut env = build(&[(ALICE, PICA, UNIT), (BOB, PICA, UNIT)]);
        env.set_oracle_for(asset_id, 1_000); // 10 in cents
        let config = MarketConfig { asset: asset_id, ..default_config() };
        assert_eq!(env.create_market(config), Ok(0));
        let market = env.market(0);
        assert_eq!(market.asset_id, asset_id);
        assert_eq!(market.last_oracle_price, Decimal::from_integer(10));
        assert_eq!(market.last_oracle_twap, Decimal::from_integer(10));
        assert_eq!(env.ch.market_count, 1);
    }
}

#[test]
fn create_market_rejects_invalid_configurations() {
    let mut env = build(&[]);
    assert_noop(&mut env, |e| e.create_market(default_config()), module(Error::NoPriceFeedForAsset));
    env.set_oracle_for(DOT, 1_000);
    let c = default_config();
    assert_eq!(
        env.create_market(MarketConfig { funding_frequency: 0, ..c }),
        Err(module(Error::ZeroLengthFundingPeriodOrFrequency))
    );
    assert_eq!(
        env.create_market(MarketConfig { funding_period: ONE_HOUR * 24 + 1, ..c }),
        Err(module(Error::FundingPeriodNotMultipleOfFrequency))
    );
    assert_eq!(
        env.create_market(MarketConfig { margin_ratio_initial: Decimal::from_integer(2), ..c }),
        Err(module(Error::InvalidMarginRatioRequirement))
    );
    assert_eq!(
        env.create_market(MarketConfig { margin_ratio_partial: ratio(1, 100), ..c }),
        Err(module(Error::InvalidMarginRatioOrdering))
    );
    assert_eq!(
        env.create_market(MarketConfig { minimum_trade_size: Decimal::from_inner(-1), ..c }),
        Err(module(Error::NegativeMinimumTradeSize))
    );
    assert_eq!(env.ch.market_count, 0);
    assert_eq!(env.create_market(c), Ok(0));
    assert_eq!(env.create_market(c), Ok(1));
}

// -------------------------------------------------------------------------------------------------
//                                          Open position
// -------------------------------------------------------------------------------------------------

#[test]
fn should_succeed_in_opening_first_position() {
    let mut env = build(&[(ALICE, PICA, UNIT), (BOB, PICA, UNIT), (BOB, USDC, UNIT * 100)]);
    env.set_oracle_for(DOT, 1_000);
    let config = MarketConfig {
        asset: DOT,
        vamm_config: VammConfig {
            base_asset_reserves: UNIT * 100,
            quote_asset_reserves: UNIT * 10_000,
            peg_multiplier: 10,
            twap_period: ONE_HOUR,
        },
        margin_ratio_initial: ratio(1, 10),
        margin_ratio_maintenance: ratio(2, 100),
        margin_ratio_partial: ratio(4, 100),
        minimum_trade_size: Decimal::zero(),
        funding_frequency: ONE_HOUR,
        funding_period: ONE_HOUR * 24,
        taker_fee: 0,
        twap_period: ONE_HOUR,
    };
    assert_eq!(env.create_market(config), Ok(0));
    assert_eq!(env.deposit(BOB, USDC, UNIT * 100), Ok(()));
    let market = env.market(0);
    let vamm_state = env.vamm_of(0);
    assert!(env.open(BOB, 0, Long, UNIT * 100, 0).is_ok());
    assert_ne!(env.market(0), market);
    assert_ne!(env.vamm_of(0), vamm_state);
}

#[test]
fn should_enforce_slippage_controls() {
    let mut env = build(&[(ALICE, USDC, UNIT * 100)]);
    env.set_oracle_for(DOT, 10_000);
    // Start with a mark price of 100
    let config = MarketConfig { vamm_config: vamm_config(UNIT * 100, UNIT * 10_000), ..default_config() };
    assert_eq!(env.create_market(config), Ok(0));
    assert_eq!(env.deposit(ALICE, USDC, UNIT * 100), Ok(()));
    assert_eq!(
        env.open(ALICE, 0, Long, UNIT * 100, UNIT),
        Err(DispatchError::External(SWAPPED_AMOUNT_LESS_THAN_MINIMUM_LIMIT))
    );
    assert!(env.position(ALICE, 0).is_none());
}

#[test]
fn should_succeed_with_two_traders_in_a_market() {
    let mut env = build(&[(ALICE, PICA, UNIT), (BOB, PICA, UNIT), (ALICE, USDC, UNIT * 100), (BOB, USDC, UNIT * 100)]);
    env.set_oracle_for(PICA, 1_000);
    let config = MarketConfig { asset: PICA, vamm_config: vamm_config(UNIT * 100, UNIT * 100_000), ..default_config() };
    assert_eq!(env.create_market(config), Ok(0));
    assert_eq!(env.deposit(ALICE, USDC, UNIT * 100), Ok(()));
    assert_eq!(env.deposit(BOB, USDC, UNIT * 100), Ok(()));
    let vamm_state_before = env.vamm_of(0);

    assert!(env.open(ALICE, 0, Long, UNIT * 100, 0).is_ok());
    assert!(env.open(BOB, 0, Long, UNIT * 100, 0).is_ok());
    assert!(env.close(ALICE, 0).is_ok());
    assert!(env.close(BOB, 0).is_ok());

    // Alice closes her position in profit, Bob in loss. Since Alice closes
    // first, there are no realized losses yet, so her profits are outstanding.
    let alice_col = env.ch.get_collateral(ALICE);
    let alice_outstanding_profits = env.ch.get_outstanding_profits(ALICE);
    let bob_col = env.ch.get_collateral(BOB);
    assert!(alice_col + alice_outstanding_profits > bob_col);
    assert_eq!(alice_col + alice_outstanding_profits + bob_col, UNIT * 200);

    assert_eq!(env.ch.withdraw_collateral(&mut env.rt, ALICE, alice_col + alice_outstanding_profits), Ok(()));

    // vAMM is back to its initial state due to path independence
    let vamm_state_after = env.vamm_of(0);
    assert_eq!(vamm_state_before.base, vamm_state_after.base);
    assert_eq!(vamm_state_before.quote, vamm_state_after.quote);
}

#[test]
fn should_update_vamm_twap_across_blocks() {
    let mut env = build(&[(ALICE, USDC, UNIT * 100)]);
    env.set_oracle_for(DOT, 1_000);
    // Mark price = 10.0
    let config = MarketConfig { vamm_config: vamm_config(UNIT * 10_000, UNIT * 100_000), ..default_config() };
    assert_eq!(env.create_market(config), Ok(0));
    assert_eq!(env.deposit(ALICE, USDC, UNIT * 100), Ok(()));
    let vamm_before = env.vamm_of(0);
    assert_eq!(vamm_before.twap, 10 * UNIT);

    assert!(env.open(ALICE, 0, Long, UNIT * 100, 0).is_ok());
    let vamm_after = env.vamm_of(0);
    // The TWAP is updated before swapping, so the mark TWAP is unchanged
    assert_eq!(vamm_before.twap, vamm_after.twap);
    let vamm_before = vamm_after;

    env.advance_blocks_by(1, 1);
    assert!(env.open(ALICE, 0, Long, UNIT * 100, 0).is_ok());
    let vamm_after = env.vamm_of(0);
    // now the vAMM picks up the change caused by the previous swap
    assert!(vamm_before.twap < vamm_after.twap);
}

#[test]
fn open_position_errors() {
    let mut env = build(&[(ALICE, USDC, UNIT * 100)]);
    env.set_oracle_for(DOT, 1_000);
    assert_eq!(env.create_market(MarketConfig { minimum_trade_size: Decimal::from_integer(1), ..default_config() }), Ok(0));
    assert_noop(&mut env, |e| e.open(ALICE, 7, Long, UNIT, 0), module(Error::MarketIdNotFound));
    assert_noop(&mut env, |e| e.open(ALICE, 0, Long, UNIT / 2, 0), module(Error::TradeSizeTooSmall));
    // No collateral: the risk-increasing trade breaks the initial margin ratio
    assert_noop(&mut env, |e| e.open(ALICE, 0, Long, UNIT * 10, 0), module(Error::InsufficientCollateral));
    assert_eq!(env.deposit(ALICE, USDC, UNIT * 100), Ok(()));
    assert!(env.open(ALICE, 0, Long, UNIT * 10, 0).is_ok());
    assert!(env.position(ALICE, 0).is_some());
}

#[test]
fn reducing_and_reversing_a_position() {
    let mut env = build(&[(ALICE, USDC, UNIT * 1000)]);
    env.set_oracle_for(DOT, 1_000);
    let config = MarketConfig { vamm_config: vamm_config(UNIT * 10_000, UNIT * 100_000), ..default_config() };
    assert_eq!(env.create_market(config), Ok(0));
    assert_eq!(env.deposit(ALICE, USDC, UNIT * 1000), Ok(()));
    assert!(env.open(ALICE, 0, Long, UNIT * 100, 0).is_ok());
    let long = env.position(ALICE, 0).unwrap();
    assert!(long.base_asset_amount.inner > 0);
    // Reduce
    assert!(env.open(ALICE, 0, Short, UNIT * 50, u128::MAX).is_ok());
    let reduced = env.position(ALICE, 0).unwrap();
    assert!(0 < reduced.base_asset_amount.inner && reduced.base_asset_amount.inner < long.base_asset_amount.inner);
    // Reverse
    assert!(env.open(ALICE, 0, Short, UNIT * 200, u128::MAX).is_ok());
    let short = env.position(ALICE, 0).unwrap();
    assert!(short.base_asset_amount.inner < 0);
    assert_eq!(short.direction(), Some(Short));
    // Close
    assert!(env.close(ALICE, 0).is_ok());
    assert!(env.position(ALICE, 0).is_none());
    assert_noop(&mut env, |e| e.close(ALICE, 0), module(Error::PositionNotFound));
}

// -------------------------------------------------------------------------------------------------
//                                          Close market
// -------------------------------------------------------------------------------------------------

#[test]
fn should_block_closing_positions_only_after_market_close() {
    let mut env = build(&[(ALICE, USDC, UNIT * 100), (BOB, USDC, UNIT * 100)]);
    env.set_oracle_for(DOT, 1_000);
    assert_eq!(env.create_market(default_config()), Ok(0));
    assert_eq!(env.deposit(ALICE, USDC, UNIT * 100), Ok(()));
    assert_eq!(env.deposit(BOB, USDC, UNIT * 100), Ok(()));
    assert!(env.open(ALICE, 0, Long, UNIT * 100, 0).is_ok());
    assert!(env.open(BOB, 0, Short, UNIT * 100, u128::MAX).is_ok());

    let now = env.rt.runtime.now;
    assert_eq!(env.close_market(0, now + 12), Ok(()));

    env.advance_blocks_by(1, 6);
    assert!(env.close(ALICE, 0).is_ok());

    env.advance_blocks_by(1, 6);
    assert_noop(&mut env, |e| e.close(BOB, 0), module(Error::MarketClosed));
}

#[test]
fn should_not_allow_opening_positions_after_close_market_call() {
    let mut env = build(&[(ALICE, USDC, UNIT * 100), (BOB, USDC, UNIT * 100)]);
    env.set_oracle_for(DOT, 1_000);
    assert_eq!(env.create_market(default_config()), Ok(0));
    let now = env.rt.runtime.now;
    assert_eq!(env.close_market(0, now + 12), Ok(()));

    env.advance_blocks_by(1, 6);
    assert_eq!(env.deposit(ALICE, USDC, UNIT * 100), Ok(()));
    assert_noop(&mut env, |e| e.open(ALICE, 0, Long, UNIT * 100, 0), module(Error::MarketShuttingDown));

    env.advance_blocks_by(1, 6);
    assert_eq!(env.deposit(BOB, USDC, UNIT * 100), Ok(()));
    assert_noop(&mut env, |e| e.open(BOB, 0, Short, UNIT * 100, u128::MAX), module(Error::MarketClosed));
}

#[test]
fn close_market_requires_a_future_time_and_schedules_the_vamm() {
    let mut env = build(&[]);
    env.set_oracle_for(DOT, 1_000);
    assert_eq!(env.create_market(default_config()), Ok(0));
    let now = env.rt.runtime.now;
    assert_noop(&mut env, |e| e.close_market(0, now), module(Error::CloseTimeMustBeAfterCurrentTime));
    assert_noop(&mut env, |e| e.close_market(3, now + 10), module(Error::MarketIdNotFound));
    assert_noop(&mut env, |e| e.close_market_as(Origin::Signed(BOB), 0, now + 10), DispatchError::BadOrigin);
    assert_noop(&mut env, |e| e.close_market_as(Origin::Unsigned, 0, now + 10), DispatchError::BadOrigin);
    assert_eq!(env.close_market(0, now + 10), Ok(()));
    assert_eq!(env.market(0).closed_ts, Some(now + 10));
    assert_eq!(env.vamm_of(0).closed, Some(now + 10));
}

// -------------------------------------------------------------------------------------------------
//                                         Settle position
// -------------------------------------------------------------------------------------------------

#[test]
fn should_handle_one_long() {
    let mut env = build(&[(ALICE, USDC, UNIT * 100)]);
    env.set_oracle_for(DOT, 1_000);
    assert_eq!(env.create_market(default_config()), Ok(0));
    assert_eq!(env.deposit(ALICE, USDC, UNIT * 100), Ok(()));
    assert!(env.open(ALICE, 0, Long, UNIT * 100, 0).is_ok());
    let now = env.rt.runtime.now;
    assert_eq!(env.close_market(0, now + 12), Ok(()));
    env.advance_blocks_by(1, 12);
    assert_eq!(env.settle(ALICE, 0), Ok(()));
    // Alice's collateral remains unchanged
    assert_eq!(env.ch.get_collateral(ALICE), UNIT * 100);
    assert_eq!(env.ch.get_outstanding_profits(ALICE), 0);
    assert!(env.position(ALICE, 0).is_none());
}

#[test]
fn should_handle_both_longs() {
    let (alice_col0, bob_col0) = (UNIT * 100, UNIT * 100);
    let mut env = build(&[(ALICE, USDC, alice_col0), (BOB, USDC, bob_col0)]);
    env.set_oracle_for(DOT, 1_000);
    assert_eq!(env.create_market(default_config()), Ok(0));
    assert_eq!(env.deposit(ALICE, USDC, alice_col0), Ok(()));
    assert_eq!(env.deposit(BOB, USDC, bob_col0), Ok(()));
    assert!(env.open(ALICE, 0, Long, alice_col0, 0).is_ok());
    assert!(env.open(BOB, 0, Long, bob_col0, 0).is_ok());
    let now = env.rt.runtime.now;
    assert_eq!(env.close_market(0, now + 12), Ok(()));
    env.advance_blocks_by(1, 12);
    assert_eq!(env.settle(ALICE, 0), Ok(()));
    assert_eq!(env.settle(BOB, 0), Ok(()));
    let (alice_col, bob_col) = (env.ch.get_collateral(ALICE), env.ch.get_collateral(BOB));
    assert!(alice_col > alice_col0);
    assert!(bob_col < bob_col0);
    assert_eq!(alice_col + bob_col, alice_col0 + bob_col0);
}

#[test]
fn should_handle_equivalent_long_and_short() {
    let (alice_col0, bob_col0) = (UNIT * 100, UNIT * 100);
    let mut env = build(&[(ALICE, USDC, alice_col0), (BOB, USDC, bob_col0)]);
    env.set_oracle_for(DOT, 1_000);
    assert_eq!(env.create_market(default_config()), Ok(0));
    assert_eq!(env.deposit(ALICE, USDC, alice_col0), Ok(()));
    assert_eq!(env.deposit(BOB, USDC, bob_col0), Ok(()));
    assert!(env.open(ALICE, 0, Long, alice_col0, 0).is_ok());
    assert!(env.open(BOB, 0, Short, bob_col0, 0).is_ok());
    let now = env.rt.runtime.now;
    assert_eq!(env.close_market(0, now + 12), Ok(()));
    env.advance_blocks_by(1, 12);
    assert_eq!(env.settle(ALICE, 0), Ok(()));
    assert_eq!(env.settle(BOB, 0), Ok(()));
    assert_eq!(env.ch.get_collateral(ALICE), alice_col0);
    assert_eq!(env.ch.get_collateral(BOB), bob_col0);
}

#[test]
fn settle_position_before_close_fails() {
    let mut env = build(&[(ALICE, USDC, UNIT * 100)]);
    env.set_oracle_for(DOT, 1_000);
    assert_eq!(env.create_market(default_config()), Ok(0));
    assert_eq!(env.deposit(ALICE, USDC, UNIT * 100), Ok(()));
    assert!(env.open(ALICE, 0, Long, UNIT * 100, 0).is_ok());
    assert_noop(&mut env, |e| e.settle(ALICE, 0), module(Error::MarketNotClosed));
}

// -------------------------------------------------------------------------------------------------
//                                            Liquidate
// -------------------------------------------------------------------------------------------------

fn liquidation_env(balances: &[(u64, u128, u128)]) -> Env {
    let mut env = build(balances);
    env.ch.partial_liquidation_close_ratio = ratio(25, 100);
    env.ch.partial_liquidation_penalty = ratio(25, 1000);
    env.ch.partial_liquidation_penalty_liquidator_share = ratio(50, 100);
    env.set_oracle_for(DOT, 1_000);
    let config = MarketConfig {
        vamm_config: vamm_config(UNIT * 10_000, UNIT * 100_000),
        margin_ratio_initial: ratio(100, 1000), // 10x max leverage
        margin_ratio_partial: ratio(99, 1000),  // ~10.1x max leverage
        margin_ratio_maintenance: ratio(80, 1000),
        ..default_config()
    };
    assert_eq!(env.create_market(config), Ok(0));
    env
}

#[test]
fn should_not_liquidate_if_above_partial_margin_ratio() {
    let mut env = liquidation_env(&[(ALICE, USDC, UNIT * 10), (BOB, USDC, UNIT * 1_000_000)]);
    assert_eq!(env.deposit(ALICE, USDC, UNIT * 10), Ok(()));
    // Alice goes long with maximum leverage
    assert!(env.open(ALICE, 0, Long, UNIT * 100, 0).is_ok());
    assert_noop(&mut env, |e| e.liquidate(BOB, ALICE), module(Error::SufficientCollateral));
}

#[test]
fn the_initial_margin_check_only_blocks_risk_increasing_trades() {
    let mut env = liquidation_env(&[(ALICE, USDC, UNIT * 10), (BOB, USDC, UNIT * 1_000_000)]);
    assert_eq!(env.deposit(ALICE, USDC, UNIT * 10), Ok(()));
    assert!(env.open(ALICE, 0, Long, UNIT * 100, 0).is_ok());
    let positions = env.ch.positions.get(&ALICE).cloned().unwrap_or_default();
    assert_eq!(env.ch.ensure_initial_margin(&mut env.rt, &positions, 0, false), Ok(()));
    assert_eq!(env.ch.ensure_initial_margin(&mut env.rt, &positions, 0, true), Err(module(Error::InsufficientCollateral)));
    assert_eq!(env.ch.ensure_initial_margin(&mut env.rt, &positions, UNIT * 1_000, true), Ok(()));
}

#[test]
fn a_summary_meeting_the_maintenance_margin_is_not_liquidated() {
    let mut env = liquidation_env(&[(ALICE, USDC, UNIT * 10), (BOB, USDC, UNIT * 1_000_000)]);
    assert_eq!(env.deposit(ALICE, USDC, UNIT * 10), Ok(()));
    assert!(env.open(ALICE, 0, Long, UNIT * 100, 0).is_ok());
    let positions = env.ch.positions.get(&ALICE).cloned().unwrap_or_default();
    let summary = env.ch.summarize_account_state(&mut env.rt, ALICE, &positions).unwrap();
    assert!(summary.margin.inner >= summary.margin_requirement_maintenance.inner);
    let collateral = env.ch.collateral.clone();
    assert_eq!(
        env.ch.liquidate_with_summary(&mut env.rt, BOB, ALICE, summary),
        Err(module(Error::SufficientCollateral))
    );
    assert_eq!(env.ch.collateral, collateral);
}

#[test]
fn should_liquidate_if_below_partial_margin_ratio_by_pnl() {
    let alice_col = UNIT * 10;
    let bob_col = UNIT * 1_000;
    let mut env = liquidation_env(&[(ALICE, USDC, alice_col), (BOB, USDC, bob_col)]);
    assert_eq!(env.deposit(ALICE, USDC, alice_col), Ok(()));
    assert_eq!(env.deposit(BOB, USDC, bob_col), Ok(()));
    // Alice goes long with maximum leverage
    assert!(env.open(ALICE, 0, Long, alice_col * 10, 0).is_ok());
    // Bob goes short with size, pushing the price below Alice's partial
    // liquidation threshold
    assert!(env.open(BOB, 0, Short, bob_col, u128::MAX).is_ok());
    let unrealized_pnl = env.unrealized_pnl(ALICE, 0);
    assert!(unrealized_pnl.inner < 0);
    assert_eq!(env.liquidate(BOB, ALICE), Ok(()));
    assert!(env.ch.get_collateral(BOB) > bob_col);
    assert!(env.insurance() > 0);
}

#[test]
fn should_liquidate_if_below_partial_margin_ratio_by_funding() {
    let collateral = UNIT * 10;
    let mut env = liquidation_env(&[(ALICE, USDC, collateral)]);
    let twap_period = default_config().twap_period;
    assert_eq!(env.deposit(ALICE, USDC, collateral), Ok(()));
    // Alice goes long with maximum leverage
    assert!(env.open(ALICE, 0, Long, collateral * 10, 0).is_ok());
    // Index price moves against Alice's position
    env.update_oracle_for(DOT, 900);
    let market = env.market(0);
    env.run_to_time(market.last_oracle_ts + twap_period);
    assert_eq!(env.update_funding(0), Ok(()));
    // Give time for TWAP to catch up to index
    for _ in 0..10 {
        env.advance_blocks_by(1, twap_period);
        assert_eq!(env.update_funding(0), Ok(()));
    }
    let base_before = env.position(ALICE, 0).unwrap().base_asset_amount;
    assert_eq!(env.liquidate(BOB, ALICE), Ok(()));
    // A partial liquidation: part of the position remains
    let base_after = env.position(ALICE, 0).unwrap().base_asset_amount;
    assert!(0 < base_after.inner && base_after.inner < base_before.inner);
}

#[test]
fn liquidate_without_positions_fails() {
    let mut env = build(&[]);
    assert_noop(&mut env, |e| e.liquidate(BOB, ALICE), module(Error::UserHasNoPositions));
}

// -------------------------------------------------------------------------------------------------
//                                          Update funding
// -------------------------------------------------------------------------------------------------

#[test]
fn should_update_oracle_twap() {
    let mut env = build(&[]);
    env.set_oracle_for(DOT, 1_000); // Index price = 10.0
    // Mark price = 10.0
    let config = MarketConfig { vamm_config: vamm_config(UNIT * 10_000, UNIT * 100_000), ..default_config() };
    assert_eq!(env.create_market(config), Ok(0));
    let market = env.market(0);
    assert_eq!(market.last_oracle_price, Decimal::from_integer(10));
    assert_eq!(market.last_oracle_twap, Decimal::from_integer(10));
    assert_eq!(env.vamm_of(0).twap, 10 * UNIT);

    env.update_oracle_for(DOT, 1_100); // Index price = 11.0
    env.run_to_time(market.last_oracle_ts + config.twap_period);
    assert_eq!(env.update_funding(0), Ok(()));
    let market = env.market(0);
    // Oracle price updates are clipped at 10bps from the previous recorded price
    assert_eq!(market.last_oracle_price, ratio(1001, 100));
    assert!(market.last_oracle_twap.inner > Decimal::from_integer(10).inner);
}

#[test]
fn should_update_vamm_twap() {
    let mut env = build(&[(ALICE, USDC, UNIT * 100)]);
    env.set_oracle_for(DOT, 1_000);
    let config = MarketConfig { vamm_config: vamm_config(UNIT * 10_000, UNIT * 100_000), ..default_config() };
    assert_eq!(env.create_market(config), Ok(0));
    assert_eq!(env.deposit(ALICE, USDC, UNIT * 100), Ok(()));
    let market = env.market(0);
    let vamm_before = env.vamm_of(0);
    assert_eq!(market.last_oracle_price, Decimal::from_integer(10));
    assert_eq!(market.last_oracle_twap, Decimal::from_integer(10));
    assert_eq!(vamm_before.twap, 10 * UNIT);

    assert!(env.open(ALICE, 0, Long, UNIT * 100, 0).is_ok());
    let vamm_after = env.vamm_of(0);
    assert_eq!(vamm_before.twap, vamm_after.twap);
    let vamm_before = vamm_after;
    env.run_to_time(market.last_oracle_ts + config.twap_period);
    assert_eq!(env.update_funding(0), Ok(()));
    let vamm_after = env.vamm_of(0);
    assert!(vamm_before.twap < vamm_after.twap);
}

#[test]
fn should_block_update_if_mark_index_too_divergent() {
    let mut env = build(&[(ALICE, USDC, UNIT * 100)]);
    env.set_oracle_for(DOT, 10_000);
    // Mark price = 111.0
    let config = MarketConfig { vamm_config: vamm_config(UNIT * 10_000, UNIT * 1_110_000), ..default_config() };
    assert_eq!(env.create_market(config), Ok(0));
    let market = env.market(0);
    assert_eq!(market.last_oracle_twap, Decimal::from_integer(100));
    assert_eq!(env.rt.vamm_get_price(market.vamm_id, AssetType::Base), Ok(111 * UNIT));
    assert_eq!(env.vamm_of(0).twap, 111 * UNIT);
    env.ch.max_price_divergence = ratio(1, 10);
    env.run_to_time(market.last_oracle_ts + config.twap_period);
    assert_noop(&mut env, |e| e.update_funding(0), module(Error::OracleMarkTooDivergent));
}

#[test]
fn clearing_house_should_receive_funding() {
    let mut env = build(&[(ALICE, USDC, UNIT * 100)]);
    env.set_oracle_for(DOT, 1_000);
    let config = MarketConfig { vamm_config: vamm_config(UNIT * 10_000, UNIT * 100_000), ..default_config() };
    assert_eq!(env.create_market(config), Ok(0));
    assert_eq!(env.deposit(ALICE, USDC, UNIT * 100), Ok(()));
    assert_eq!(env.fee_pool(0), 0);
    assert!(env.open(ALICE, 0, Long, UNIT * 100, 0).is_ok());
    let market = env.market(0);
    env.run_to_time(market.last_oracle_ts + config.twap_period);
    // update_funding updates the vAMM TWAP, which increases since the previous
    // trade pushed the price upwards
    assert_eq!(env.update_funding(0), Ok(()));
    assert!(env.fee_pool(0) > 0);
}

#[test]
fn clearing_house_should_pay_funding() {
    let mut env = build(&[(ALICE, USDC, UNIT * 100), (BOB, USDC, UNIT * 1_000_000)]);
    // Oracle price (and TWAP) start at 20.0
    env.set_oracle_for(DOT, 2_000);
    // vAMM price (and TWAP) start at 10.0
    let config = MarketConfig { vamm_config: vamm_config(UNIT * 10_000, UNIT * 100_000), ..default_config() };
    assert_eq!(env.create_market(config), Ok(0));
    assert_eq!(env.deposit(ALICE, USDC, UNIT * 100), Ok(()));
    assert_eq!(env.fee_pool(0), 0);
    // Alice goes long, but not enough to bring mark price to index
    assert!(env.open(ALICE, 0, Long, UNIT * 100, 0).is_ok());
    // Populate Fee Pool with funds
    let fee_pool_before = UNIT * 1_000_000;
    env.rt
        .transfer(USDC, Account::User(BOB), ClearingHouse::get_fee_pool_account(0), fee_pool_before, false)
        .unwrap();
    let market = env.market(0);
    env.run_to_time(market.last_oracle_ts + config.twap_period);
    assert_eq!(env.update_funding(0), Ok(()));
    assert!(env.fee_pool(0) < fee_pool_before);
}

#[test]
fn update_funding_too_early_fails() {
    let mut env = build(&[]);
    env.set_oracle_for(DOT, 1_000);
    assert_eq!(env.create_market(default_config()), Ok(0));
    assert_noop(&mut env, |e| e.update_funding(0), module(Error::UpdatingFundingTooEarly));
    assert_noop(&mut env, |e| e.update_funding(9), module(Error::MarketIdNotFound));
}

// -------------------------------------------------------------------------------------------------
//                                       Withdraw collateral
// -------------------------------------------------------------------------------------------------

#[test]
fn withdraw_collateral_checks_amount_and_margin() {
    let mut env = build(&[(ALICE, USDC, UNIT * 100)]);
    env.set_oracle_for(DOT, 1_000);
    assert_eq!(env.create_market(default_config()), Ok(0));
    assert_eq!(env.deposit(ALICE, USDC, UNIT * 100), Ok(()));
    assert_eq!(env.ch.withdraw_collateral(&mut env.rt, ALICE, 0), Err(module(Error::ZeroWithdrawalAmount)));
    assert!(env.open(ALICE, 0, Long, UNIT * 900, 0).is_ok());
    // Withdrawing most of the margin would break the initial margin ratio
    assert_eq!(env.ch.withdraw_collateral(&mut env.rt, ALICE, UNIT * 50), Err(module(Error::InsufficientCollateral)));
    assert!(env.close(ALICE, 0).is_ok());
    let col = env.ch.get_collateral(ALICE);
    assert_eq!(env.ch.withdraw_collateral(&mut env.rt, ALICE, col), Ok(()));
    assert_eq!(env.ch.get_collateral(ALICE), 0);
    assert_eq!(env.rt.balance(USDC, Account::User(ALICE)), col);
}

#[test]
fn withdrawal_amounts_come_from_collateral_then_insurance() {
    let mut env = build(&[(ALICE, USDC, 100)]);
    env.rt.runtime.balances.insert((USDC, key(ClearingHouse::get_collateral_account())), 30);
    env.rt.runtime.balances.insert((USDC, key(ClearingHouse::get_insurance_account())), 50);
    assert_eq!(
        ClearingHouse::get_withdrawal_amounts(&mut env.rt, USDC, ClearingHouse::get_collateral_account(), ClearingHouse::get_insurance_account(), 60),
        (30, 30)
    );
    assert_eq!(
        ClearingHouse::get_withdrawal_amounts(&mut env.rt, USDC, ClearingHouse::get_collateral_account(), ClearingHouse::get_insurance_account(), 20),
        (20, 0)
    );
    let _ = &mut env;
}

#[test]
fn arithmetic_errors_are_reported() {
    assert_eq!(
        Decimal::from_inner(i128::MAX).try_add(Decimal::one()),
        Err(ArithmeticError::Overflow)
    );
}

#[test]
fn externalities_builder_works() {
    let env = build(&[]);
    assert_eq!(env.ch.market_count, 0);
    assert_eq!(env.ch.collateral_type, Some(USDC));
}

#[test]
fn divergence_from_mark_is_relative_to_the_index() {
    let one: i128 = 1_000_000_000_000_000_000;
    let index = Decimal::from_inner(100 * one);
    assert_eq!(divergence_from_mark(110 * one as u128, &index), Ok(Decimal::from_inner(one / 10)));
    assert_eq!(divergence_from_mark(90 * one as u128, &index), Ok(Decimal::from_inner(-one / 10)));
    assert_eq!(
        divergence_from_mark(one as u128, &Decimal::from_inner(0)),
        Err(DispatchError::Arithmetic(ArithmeticError::DivisionByZero))
    );
}

#[test]
fn funding_updates_are_at_least_a_frequency_apart() {
    let mut env = build(&[]);
    env.set_oracle_for(DOT, 1_000);
    assert_eq!(env.create_market(default_config()), Ok(0));
    let mut m = env.market(0);
    m.funding_frequency = 3600;
    // Late by less than a third of the frequency: the next update waits a whole frequency.
    m.funding_rate_ts = 3600 * 10 + 100;
    assert_eq!(is_funding_update_time(&m, m.funding_rate_ts + 3499), Ok(false));
    assert_eq!(is_funding_update_time(&m, m.funding_rate_ts + 3500), Ok(false));
    assert_eq!(is_funding_update_time(&m, m.funding_rate_ts + 3600), Ok(true));
    // Late by more than a third: the next multiple is skipped.
    m.funding_rate_ts = 3600 * 10 + 2000;
    assert_eq!(is_funding_update_time(&m, m.funding_rate_ts + 3600), Ok(false));
    assert_eq!(is_funding_update_time(&m, m.funding_rate_ts + 5200), Ok(true));
    // On time: a whole frequency.
    m.funding_rate_ts = 3600 * 10;
    assert_eq!(is_funding_update_time(&m, m.funding_rate_ts + 3599), Ok(false));
    assert_eq!(is_funding_update_time(&m, m.funding_rate_ts + 3600), Ok(true));
}

#[test]
fn operations_deposit_their_events() {
    let mut env = build(&[(ALICE, USDC, UNIT * 100)]);
    assert_eq!(env.deposit(ALICE, USDC, UNIT * 10), Ok(()));
    assert_eq!(env.rt.balance(USDC, Account::User(ALICE)), UNIT * 90);
    assert_eq!(env.rt.balance(USDC, Account::Collateral), UNIT * 10);
    assert_eq!(env.rt.runtime.events.last(), Some(&Event::MarginAdded { account: ALICE, asset: USDC, amount: UNIT * 10 }));
    env.set_oracle_for(DOT, 1_000);
    assert_eq!(env.create_market(default_config()), Ok(0));
    assert_eq!(env.rt.runtime.events.last(), Some(&Event::MarketCreated { market: 0, asset: DOT }));
    let base = env.open(ALICE, 0, Long, UNIT * 10, 0).unwrap();
    assert_eq!(
        env.rt.runtime.events.last(),
        Some(&Event::TradeExecuted { market: 0, direction: Long, quote: UNIT * 10, base })
    );
    assert_eq!(env.close(ALICE, 0), Ok(base));
    assert_eq!(
        env.rt.runtime.events.last(),
        Some(&Event::PositionClosed { user: ALICE, market: 0, direction: Long, base })
    );
}
