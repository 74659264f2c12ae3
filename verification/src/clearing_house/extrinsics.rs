//! The operations of the clearing house: collateral deposits and withdrawals,
//! market creation and closing, trading, funding updates and settlement.
use crate::arith::{abs, dec_of, fits_u128, trunc_quot, ArithmeticError, Decimal, DIV};
use crate::clearing_house::funding::{divergence_spec, exceeds_spec, update_oracle_twap_spec, update_oracle_twap_with_price};
use crate::clearing_house::math::{
    is_funding_update_time, is_funding_update_time_spec, settle_funding, settle_funding_spec,
    updated_balance, updated_balance_spec,
};
use crate::clearing_house::runtime::{added, extends, pushed, pushed_read, Account, Event, Host, Runtime, RuntimeCall, RuntimeRead};
use crate::clearing_house::trading::{sdiv, smul, ssub};
use crate::clearing_house::types::{
    arith, direction_of, lift, shutdown_status_of, DispatchError, Error, Market, MarketConfig,
    OracleStatus, Position, ShutdownStatus,
};
use crate::clearing_house::{try_get_position, ClearingHouse};
use crate::origin::Origin;
use vstd::prelude::*;

verus! {

/// Why a market configuration is invalid, if it is.
///
/// Funding period and frequency must be nonzero, the period a multiple of the
/// frequency; the initial margin ratio must lie in (0, 1] and the partial and
/// maintenance ratios in (0, 1), ordered `initial > partial > maintenance`;
/// the minimum trade size must be nonnegative.
pub open spec fn validate_config_spec(config: MarketConfig) -> Result<(), Error> {
    let one = DIV as int;
    if !(config.funding_period > 0 && config.funding_frequency > 0) {
        Err(Error::ZeroLengthFundingPeriodOrFrequency)
    } else if config.funding_period % config.funding_frequency != 0 {
        Err(Error::FundingPeriodNotMultipleOfFrequency)
    } else if !(config.margin_ratio_initial.inner > 0 && config.margin_ratio_initial.inner <= one
        && config.margin_ratio_maintenance.inner > 0 && config.margin_ratio_maintenance.inner < one
        && config.margin_ratio_partial.inner > 0 && config.margin_ratio_partial.inner < one) {
        Err(Error::InvalidMarginRatioRequirement)
    } else if !(config.margin_ratio_initial.inner > config.margin_ratio_partial.inner
        && config.margin_ratio_partial.inner > config.margin_ratio_maintenance.inner) {
        Err(Error::InvalidMarginRatioOrdering)
    } else if config.minimum_trade_size.inner < 0 {
        Err(Error::NegativeMinimumTradeSize)
    } else {
        Ok(())
    }
}

/// Checks a market configuration.
pub fn validate_market_config(config: &MarketConfig) -> (r: Result<(), Error>)
    ensures
        r == validate_config_spec(*config),
{
    let one: i128 = 1_000_000_000_000_000_000i128;
    if !(config.funding_period > 0 && config.funding_frequency > 0) {
        return Err(Error::ZeroLengthFundingPeriodOrFrequency);
    }
    if config.funding_period % config.funding_frequency != 0 {
        return Err(Error::FundingPeriodNotMultipleOfFrequency);
    }
    if !(config.margin_ratio_initial.inner > 0 && config.margin_ratio_initial.inner <= one
        && config.margin_ratio_maintenance.inner > 0 && config.margin_ratio_maintenance.inner < one
        && config.margin_ratio_partial.inner > 0 && config.margin_ratio_partial.inner < one) {
        return Err(Error::InvalidMarginRatioRequirement);
    }
    if !(config.margin_ratio_initial.inner > config.margin_ratio_partial.inner
        && config.margin_ratio_partial.inner > config.margin_ratio_maintenance.inner) {
        return Err(Error::InvalidMarginRatioOrdering);
    }
    if config.minimum_trade_size.inner < 0 {
        return Err(Error::NegativeMinimumTradeSize);
    }
    Ok(())
}

/// A fresh market created from its configuration, its vAMM, the oracle price
/// of its underlying and the time of creation: no open interest, zero funding
/// rates, and the oracle price as both last price and TWAP.
pub open spec fn new_market_spec(config: MarketConfig, vamm_id: u64, price: Decimal, now: u64) -> Market {
    Market {
        asset_id: config.asset,
        vamm_id,
        margin_ratio_initial: config.margin_ratio_initial,
        margin_ratio_maintenance: config.margin_ratio_maintenance,
        margin_ratio_partial: config.margin_ratio_partial,
        minimum_trade_size: config.minimum_trade_size,
        base_asset_amount_long: Decimal { inner: 0 },
        base_asset_amount_short: Decimal { inner: 0 },
        cum_funding_rate_long: Decimal { inner: 0 },
        cum_funding_rate_short: Decimal { inner: 0 },
        funding_rate_ts: now,
        funding_frequency: config.funding_frequency,
        funding_period: config.funding_period,
        taker_fee: config.taker_fee,
        twap_period: config.twap_period,
        last_oracle_price: price,
        last_oracle_twap: price,
        last_oracle_ts: now,
        closed_ts: None,
    }
}

/// The market's position values before and after settlement at a settlement
/// price: the trader's collateral after settling funding and the difference
/// between settlement and average entry price times the base asset amount. A
/// zero settlement price leaves the collateral as it is after funding.
pub open spec fn settle_position_spec(position: Position, market: Market, collateral: u128, settlement_price: u128) -> Result<u128, DispatchError> {
    match settle_funding_spec(position, market, collateral) {
        Err(e) => Err(e),
        Ok((p, c)) => match sdiv(p.quote_asset_notional_amount, p.base_asset_amount) {
            Err(e) => Err(e),
            Ok(open_price) => match lift(dec_of(settlement_price as int)) {
                Err(e) => Err(e),
                Ok(sp) => if sp.inner == 0 {
                    Ok(c)
                } else {
                    match ssub(sp, open_price) {
                        Err(e) => Err(e),
                        Ok(diff) => match smul(p.base_asset_amount, diff) {
                            Err(e) => Err(e),
                            Ok(value) => updated_balance_spec(c, value),
                        },
                    }
                },
            },
        },
    }
}

/// Settling a position at a settlement price realizes what the position
/// gains at that price. With `c` the collateral once the position's funding is
/// settled and its entry price its notional over its base amount: a short
/// (negative base) settled below its entry price, or a long settled above it,
/// never lowers the collateral; a short settled above its entry price, or a
/// long settled below it, never raises it.
pub proof fn lemma_settlement_follows_the_side(position: Position, market: Market, collateral: u128, settlement_price: u128)
    requires
        settle_position_spec(position, market, collateral, settlement_price) is Ok,
    ensures
        ({
            let p = settle_funding_spec(position, market, collateral)->Ok_0.0;
            let c = settle_funding_spec(position, market, collateral)->Ok_0.1;
            let entry = sdiv(p.quote_asset_notional_amount, p.base_asset_amount)->Ok_0.inner as int;
            let b = p.base_asset_amount.inner as int;
            let after = settle_position_spec(position, market, collateral, settlement_price)->Ok_0;
            let gain = (abs(b) * abs(settlement_price - entry)) / (DIV as int);
            &&& (b < 0 && settlement_price < entry) || (b > 0 && settlement_price > entry) ==> after >= c
            &&& (b < 0 && settlement_price > entry) || (b > 0 && settlement_price < entry) ==> after <= c
            &&& settlement_price == 0 ==> after == c
            &&& settlement_price != 0 && ((b < 0 && settlement_price < entry) || (b > 0 && settlement_price > entry)) ==> after == c + gain
            &&& settlement_price != 0 && ((b < 0 && settlement_price > entry) || (b > 0 && settlement_price < entry))
                ==> after == (if c >= gain { c - gain } else { 0 })
        }),
{
    let p = settle_funding_spec(position, market, collateral)->Ok_0.0;
    let c = settle_funding_spec(position, market, collateral)->Ok_0.1;
    let entry = sdiv(p.quote_asset_notional_amount, p.base_asset_amount)->Ok_0.inner as int;
    let b = p.base_asset_amount.inner as int;
    let sp = settlement_price as int;
    if sp != 0 {
        let diff = sp - entry;
        let n = b * diff;
        let d = DIV as int;
        assert((b < 0 && diff < 0) || (b > 0 && diff > 0) ==> n > 0) by (nonlinear_arith)
            requires
                n == b * diff;
        assert((b < 0 && diff > 0) || (b > 0 && diff < 0) ==> n < 0) by (nonlinear_arith)
            requires
                n == b * diff;
        assert(n >= 0 ==> trunc_quot(n, d) >= 0) by (nonlinear_arith)
            requires
                d > 0;
        assert(n <= 0 ==> trunc_quot(n, d) <= 0) by (nonlinear_arith)
            requires
                d > 0;
        assert(abs(n) == abs(b) * abs(diff)) by (nonlinear_arith)
            requires
                n == b * diff;
        crate::clearing_house::funding::lemma_trunc_quot_bound(n, d);
    }
}

/// The reads from `old_reads` to `new_reads` are one read of the settlement
/// price of vAMM `vamm_id`, which gave `sp`.
pub open spec fn settlement_read(old_reads: Seq<RuntimeRead>, new_reads: Seq<RuntimeRead>, vamm_id: u64, sp: u128) -> bool {
    new_reads == old_reads.push(RuntimeRead::VammSettlementPrice { vamm_id, result: Ok(sp) })
}

/// The state `new` is `old` after settling the position at index `i` of an
/// account in a closed market: a position without base asset is left as it
/// is, with nothing read; otherwise the settlement price of the market's vAMM
/// is read, the position's funding and its value at that price are added to
/// the collateral, and the position is removed.
pub open spec fn settled_outcome(old: ClearingHouse, new: ClearingHouse, account_id: u64, market_id: u64, i: int, old_reads: Seq<RuntimeRead>, new_reads: Seq<RuntimeRead>) -> bool {
    let ps = old.spec_positions(account_id);
    &&& 0 <= i < ps.len()
    &&& ps[i].market_id == market_id
    &&& forall|j: int| 0 <= j < i ==> ps[j].market_id != market_id
    &&& {
        ||| (direction_of(ps[i].base_asset_amount) is None && new == old && new_reads == old_reads)
        ||| (direction_of(ps[i].base_asset_amount) is Some
            && (exists|sp: u128| settlement_read(old_reads, new_reads, old.markets@[market_id].vamm_id, sp)
                && settle_position_spec(ps[i], old.markets@[market_id], old.spec_collateral(account_id), sp) == Ok::<u128, DispatchError>(new.spec_collateral(account_id)))
            && new.collateral@ == old.collateral@.insert(account_id, new.spec_collateral(account_id))
            && new.positions@.contains_key(account_id)
            && new.positions@ == old.positions@.insert(account_id, new.positions@[account_id])
            && new.positions@[account_id]@ == ps.update(i, ps.last()).drop_last()
            && new == (ClearingHouse { collateral: new.collateral, positions: new.positions, ..old }))
    }
}

/// The market with its close time set.
pub open spec fn with_close_time(m: Market, close_at: u64) -> Market {
    Market { closed_ts: Some(close_at), ..m }
}

impl Market {
    /// Creates a market from its configuration, creating its vAMM and reading
    /// the oracle price of its underlying.
    pub fn new<R: Runtime>(rt: &mut Host<R>, config: &MarketConfig, now: u64) -> (r: Result<Market, DispatchError>)
        ensures
            final(rt).events@ == old(rt).events@,
            r matches Ok(m) ==> exists|vamm_id: u64, price: Decimal| price.inner >= 0 && m == new_market_spec(*config, vamm_id, price, now),
            r matches Ok(m) ==> {
                let p = final(rt).reads@.last()->OraclePrice_result->Ok_0;
                &&& final(rt).reads@ == old(rt).reads@.push(RuntimeRead::OraclePrice { asset: config.asset, result: Ok(p) })
                &&& p <= i128::MAX
                &&& m == new_market_spec(*config, m.vamm_id, Decimal { inner: p as i128 }, now)
            },
            pushed(old(rt).calls@, final(rt).calls@),
            old(rt).reads@.len() <= final(rt).reads@.len(),
            final(rt).reads@.subrange(0, old(rt).reads@.len() as int) == old(rt).reads@,
            (match final(rt).calls@.last() {
                RuntimeCall::VammCreate { config: c, result } => c == config.vamm_config
                    && (result is Err ==> r is Err) && (r matches Ok(m) ==> result == Ok::<u64, DispatchError>(m.vamm_id)),
                _ => false,
            }),
    {
        let vamm_id = match rt.vamm_create(&config.vamm_config) {
            Ok(v) => v,
            Err(e) => {
                assert(rt.reads@.subrange(0, old(rt).reads@.len() as int) =~= old(rt).reads@);
                return Err(e);
            },
        };
        let reading = rt.oracle_price(config.asset);
        assert(rt.reads@.subrange(0, old(rt).reads@.len() as int) =~= old(rt).reads@);
        let price = arith(Decimal::from_balance(reading?))?;
        let m = Market {
            asset_id: config.asset,
            vamm_id,
            margin_ratio_initial: config.margin_ratio_initial,
            margin_ratio_maintenance: config.margin_ratio_maintenance,
            margin_ratio_partial: config.margin_ratio_partial,
            minimum_trade_size: config.minimum_trade_size,
            base_asset_amount_long: Decimal::zero(),
            base_asset_amount_short: Decimal::zero(),
            cum_funding_rate_long: Decimal::zero(),
            cum_funding_rate_short: Decimal::zero(),
            funding_rate_ts: now,
            funding_frequency: config.funding_frequency,
            funding_period: config.funding_period,
            taker_fee: config.taker_fee,
            twap_period: config.twap_period,
            last_oracle_price: price,
            last_oracle_twap: price,
            last_oracle_ts: now,
            closed_ts: None,
        };
        assert(m == new_market_spec(*config, vamm_id, price, now));
        Ok(m)
    }

    /// Reads the oracle price of the market's underlying; it is valid when
    /// positive.
    pub fn get_oracle_status<R: Runtime>(&self, rt: &mut Host<R>) -> (r: Result<OracleStatus, DispatchError>)
        ensures
            final(rt).events@ == old(rt).events@,
            r matches Ok(s) ==> s.is_valid == (s.price.inner > 0) && s.price.inner >= 0,
            final(rt).calls@ == old(rt).calls@,
            pushed_read(old(rt).reads@, final(rt).reads@),
            final(rt).reads@.last() matches RuntimeRead::OraclePrice { asset, result } && asset == self.asset_id
                && r == oracle_status_spec(result),
    {
        let price = rt.oracle_price(self.asset_id)?;
        let price = arith(Decimal::from_balance(price))?;
        Ok(OracleStatus { is_valid: price.is_positive(), price })
    }
}

/// The oracle status a reading of the oracle gives: the price, valid when
/// positive; a price beyond the range of decimals overflows.
pub open spec fn oracle_status_spec(reading: Result<u128, DispatchError>) -> Result<OracleStatus, DispatchError> {
    match reading {
        Err(e) => Err(e),
        Ok(p) => if p > i128::MAX {
            Err(DispatchError::Arithmetic(ArithmeticError::Overflow))
        } else {
            Ok(OracleStatus { is_valid: p > 0, price: Decimal { inner: p as i128 } })
        },
    }
}

/// Fails unless the market is open (not closing nor closed) at time `when`.
pub fn ensure_market_is_open_at(market: &Market, when: u64) -> (r: Result<(), DispatchError>)
    ensures
        r == (match shutdown_status_of(market.closed_ts, when) {
            ShutdownStatus::Open => Ok::<(), DispatchError>(()),
            ShutdownStatus::Closed => Err(DispatchError::Module(Error::MarketClosed)),
            ShutdownStatus::Closing => Err(DispatchError::Module(Error::MarketShuttingDown)),
        }),
{
    match market.shutdown_status(when) {
        ShutdownStatus::Open => Ok(()),
        ShutdownStatus::Closed => Err(DispatchError::Module(Error::MarketClosed)),
        ShutdownStatus::Closing => Err(DispatchError::Module(Error::MarketShuttingDown)),
    }
}

/// Fails unless the market accepts new orders at time `now`.
pub fn ensure_market_is_open_to_new_orders(market: &Market, now: u64) -> (r: Result<(), DispatchError>)
    ensures
        r == (match shutdown_status_of(market.closed_ts, now) {
            ShutdownStatus::Open => Ok::<(), DispatchError>(()),
            ShutdownStatus::Closed => Err(DispatchError::Module(Error::MarketClosed)),
            ShutdownStatus::Closing => Err(DispatchError::Module(Error::MarketShuttingDown)),
        }),
{
    ensure_market_is_open_at(market, now)
}

/// Fails if the market is closed at time `now`; a closing market still allows
/// positions to be closed.
pub fn ensure_market_is_open(market: &Market, now: u64) -> (r: Result<(), DispatchError>)
    ensures
        r == (match shutdown_status_of(market.closed_ts, now) {
            ShutdownStatus::Closed => Err(DispatchError::Module(Error::MarketClosed)),
            _ => Ok::<(), DispatchError>(()),
        }),
{
    match market.shutdown_status(now) {
        ShutdownStatus::Closed => Err(DispatchError::Module(Error::MarketClosed)),
        _ => Ok(()),
    }
}

impl ClearingHouse {
    /// Deposits collateral into a trader's margin account.
    ///
    /// Fails if no collateral type is set, if the asset is not the collateral
    /// type, if the amount is zero, or if the transfer fails.
    pub fn deposit_collateral<R: Runtime>(&mut self, rt: &mut Host<R>, account_id: u64, asset_id: u128, amount: u128) -> (r: Result<(), DispatchError>)
        ensures
            old(self).collateral_type is None ==> r == Err::<(), DispatchError>(DispatchError::Module(Error::NoCollateralTypeSet)),
            old(self).collateral_type matches Some(a) && a != asset_id ==> r == Err::<(), DispatchError>(DispatchError::Module(Error::UnsupportedCollateralType)),
            old(self).collateral_type == Some(asset_id) && amount == 0 ==> r == Err::<(), DispatchError>(DispatchError::Module(Error::NoCollateralDeposited)),
            old(self).collateral_type == Some(asset_id) && amount > 0 && !fits_u128(old(self).spec_collateral(account_id) + amount)
                ==> r == Err::<(), DispatchError>(DispatchError::Arithmetic(ArithmeticError::Overflow)),
            old(self).collateral_type != Some(asset_id) || amount == 0 || !fits_u128(old(self).spec_collateral(account_id) + amount)
                ==> final(rt).calls@ == old(rt).calls@,
            old(self).collateral_type == Some(asset_id) && amount > 0 && fits_u128(old(self).spec_collateral(account_id) + amount)
                ==> final(rt).calls@ == old(rt).calls@.push(RuntimeCall::Transfer {
                    asset: asset_id,
                    from: Account::User(account_id),
                    to: Account::Collateral,
                    amount,
                    keep_alive: true,
                    result: r,
                }),
            r is Ok ==> final(rt).events@ == old(rt).events@.push(Event::MarginAdded { account: account_id, asset: asset_id, amount }),
            r is Err ==> final(rt).events@ == old(rt).events@,
            r is Err ==> *final(self) == *old(self),
            r is Ok ==> {
                &&& final(self).collateral@ == old(self).collateral@.insert(account_id, (old(self).spec_collateral(account_id) + amount) as u128)
                &&& *final(self) == (ClearingHouse { collateral: final(self).collateral, ..*old(self) })
            },
    {
        broadcast use vstd::std_specs::hash::group_hash_axioms;
        let collateral_asset = self.get_collateral_asset_id()?;
        if collateral_asset != asset_id {
            return Err(DispatchError::Module(Error::UnsupportedCollateralType));
        }
        if amount == 0 {
            return Err(DispatchError::Module(Error::NoCollateralDeposited));
        }
        let old_collateral = self.get_collateral(account_id);
        let new_collateral = match old_collateral.checked_add(amount) {
            Some(v) => v,
            None => return Err(DispatchError::Arithmetic(ArithmeticError::Overflow)),
        };
        rt.transfer(asset_id, Account::User(account_id), Self::get_collateral_account(), amount, true)?;
        self.collateral.insert(account_id, new_collateral);
        rt.deposit_event(Event::MarginAdded { account: account_id, asset: asset_id, amount });
        Ok(())
    }

    /// Creates a new market, returning its id.
    ///
    /// The underlying must have an oracle price feed and the configuration must
    /// be valid; the market gets the next id and the market count grows by
    /// one.
    pub fn create_market<R: Runtime>(&mut self, rt: &mut Host<R>, config: MarketConfig, now: u64) -> (r: Result<u64, DispatchError>)
        ensures
            validate_config_spec(config) is Err ==> r is Err,
            pushed_read(old(rt).reads@, final(rt).reads@.subrange(0, old(rt).reads@.len() + 1int)) && match final(rt).reads@[old(rt).reads@.len() as int] {
                RuntimeRead::OracleIsSupported { asset, result } => asset == config.asset && match result {
                    Err(e) => r == Err::<u64, DispatchError>(e),
                    Ok(false) => r == Err::<u64, DispatchError>(DispatchError::Module(Error::NoPriceFeedForAsset)),
                    Ok(true) => validate_config_spec(config) matches Err(e) ==> r == Err::<u64, DispatchError>(DispatchError::Module(e)),
                },
                _ => false,
            },
            old(self).market_count == u64::MAX ==> r is Err,
            validate_config_spec(config) is Err || old(self).market_count == u64::MAX ==> final(rt).calls@ == old(rt).calls@,
            r matches Ok(id) ==> pushed(old(rt).calls@, final(rt).calls@)
                && final(rt).calls@.last() == (RuntimeCall::VammCreate { config: config.vamm_config, result: Ok(final(self).markets@[id].vamm_id) }),
            r matches Ok(id) ==> final(rt).events@ == old(rt).events@.push(Event::MarketCreated { market: id, asset: config.asset }),
            r is Err ==> final(rt).events@ == old(rt).events@,
            r is Err ==> *final(self) == *old(self),
            r matches Ok(id) ==> {
                &&& id == old(self).market_count
                &&& validate_config_spec(config) is Ok
                &&& final(self).market_count == old(self).market_count + 1
                &&& exists|vamm_id: u64, price: Decimal| price.inner >= 0 && final(self).markets@ == old(self).markets@.insert(id, new_market_spec(config, vamm_id, price, now))
                &&& final(rt).reads@.last() == RuntimeRead::OraclePrice { asset: config.asset, result: Ok(final(rt).reads@.last()->OraclePrice_result->Ok_0) }
                &&& final(rt).reads@.last()->OraclePrice_result->Ok_0 <= i128::MAX
                &&& final(self).markets@[id] == new_market_spec(config, final(self).markets@[id].vamm_id, Decimal { inner: final(rt).reads@.last()->OraclePrice_result->Ok_0 as i128 }, now)
                &&& *final(self) == (ClearingHouse { markets: final(self).markets, market_count: final(self).market_count, ..*old(self) })
            },
            old(self).wf() ==> final(self).wf(),
    {
        broadcast use vstd::std_specs::hash::group_hash_axioms;
        let ghost r0 = rt.reads@;
        let supported = rt.oracle_is_supported(config.asset);
        let ghost r1 = rt.reads@;
        proof {
            assert(r1.subrange(0, r0.len() + 1int) =~= r1);
        }
        let supported = supported?;
        if !supported {
            return Err(DispatchError::Module(Error::NoPriceFeedForAsset));
        }
        match validate_market_config(&config) {
            Ok(()) => {},
            Err(e) => return Err(DispatchError::Module(e)),
        }
        let market_id = self.market_count;
        let next = match market_id.checked_add(1) {
            Some(v) => v,
            None => return Err(DispatchError::Arithmetic(ArithmeticError::Overflow)),
        };
        let market = Market::new(rt, &config, now)?;
        let ghost old_self = *self;
        self.markets.insert(market_id, market);
        self.market_count = next;
        proof {
            if old_self.wf() {
                assert forall|a: u64| #[trigger] self.positions@.contains_key(a) implies crate::clearing_house::positions_wf(self.positions@[a]@, self.markets@, self.max_positions) by {
                    let ps = self.positions@[a]@;
                    assert(crate::clearing_house::positions_wf(ps, old_self.markets@, old_self.max_positions));
                    assert forall|i: int| 0 <= i < ps.len() implies self.markets@.contains_key(#[trigger] ps[i].market_id) by {
                        assert(old_self.markets@.contains_key(ps[i].market_id));
                    }
                }
            }
        }
        rt.deposit_event(Event::MarketCreated { market: market_id, asset: config.asset });
        Ok(market_id)
    }

    /// Sets a time at which a market closes; it must be later than `now`.
    /// Only governance (the root origin) may close a market.
    pub fn close_market<R: Runtime>(&mut self, rt: &mut Host<R>, origin: Origin, market_id: u64, close_at: u64, now: u64) -> (r: Result<(), DispatchError>)
        ensures
            !(origin is Root) ==> r == Err::<(), DispatchError>(DispatchError::BadOrigin) && final(rt).calls@ == old(rt).calls@,
            origin is Root && !old(self).markets@.contains_key(market_id) ==> r == Err::<(), DispatchError>(DispatchError::Module(Error::MarketIdNotFound)),
            close_at <= now ==> r is Err,
            !old(self).markets@.contains_key(market_id) ==> final(rt).calls@ == old(rt).calls@,
            origin is Root && old(self).markets@.contains_key(market_id) ==> pushed(old(rt).calls@, final(rt).calls@) && (match final(rt).calls@.last() {
                RuntimeCall::VammClose { vamm_id, when, result } => {
                    &&& vamm_id == old(self).markets@[market_id].vamm_id
                    &&& when == close_at
                    &&& result is Err ==> r == result
                    &&& result is Ok && close_at <= now ==> r == Err::<(), DispatchError>(DispatchError::Module(Error::CloseTimeMustBeAfterCurrentTime))
                    &&& result is Ok && close_at > now ==> r is Ok
                },
                _ => false,
            }),
            r is Ok ==> final(rt).events@ == old(rt).events@.push(Event::CloseMarket { market_id, when: close_at }),
            r is Err ==> final(rt).events@ == old(rt).events@,
            r is Err ==> *final(self) == *old(self),
            r is Ok ==> {
                &&& old(self).markets@.contains_key(market_id)
                &&& final(self).markets@ == old(self).markets@.insert(market_id, with_close_time(old(self).markets@[market_id], close_at))
                &&& *final(self) == (ClearingHouse { markets: final(self).markets, ..*old(self) })
            },
            old(self).wf() ==> final(self).wf(),
    {
        broadcast use vstd::std_specs::hash::group_hash_axioms;
        if !origin.is_root() {
            return Err(DispatchError::BadOrigin);
        }
        let mut market = self.try_get_market(market_id)?;
        rt.vamm_close(market.vamm_id, close_at)?;
        if !(close_at > now) {
            return Err(DispatchError::Module(Error::CloseTimeMustBeAfterCurrentTime));
        }
        market.closed_ts = Some(close_at);
        let ghost old_self = *self;
        self.markets.insert(market_id, market);
        proof {
            if old_self.wf() {
                assert forall|a: u64| #[trigger] self.positions@.contains_key(a) implies crate::clearing_house::positions_wf(self.positions@[a]@, self.markets@, self.max_positions) by {
                    let ps = self.positions@[a]@;
                    assert(crate::clearing_house::positions_wf(ps, old_self.markets@, old_self.max_positions));
                    assert forall|i: int| 0 <= i < ps.len() implies self.markets@.contains_key(#[trigger] ps[i].market_id) by {
                        assert(old_self.markets@.contains_key(ps[i].market_id));
                    }
                }
            }
        }
        rt.deposit_event(Event::CloseMarket { market_id, when: close_at });
        Ok(())
    }

    /// Settles a trader's position in a closed market against the vAMM's
    /// settlement price, removing the position.
    pub fn settle_position<R: Runtime>(&mut self, rt: &mut Host<R>, account_id: u64, market_id: u64, now: u64) -> (r: Result<(), DispatchError>)
        ensures
            !old(self).markets@.contains_key(market_id) ==> r == Err::<(), DispatchError>(DispatchError::Module(Error::MarketIdNotFound)),
            old(self).markets@.contains_key(market_id) && shutdown_status_of(old(self).markets@[market_id].closed_ts, now) != ShutdownStatus::Closed ==> r == Err::<(), DispatchError>(DispatchError::Module(Error::MarketNotClosed)),
            r is Ok ==> final(rt).events@ == old(rt).events@.push(Event::SettledPosition { user: account_id, market: market_id }),
            r is Err ==> final(rt).events@ == old(rt).events@,
            r is Err ==> *final(self) == *old(self),
            old(self).markets@.contains_key(market_id) && shutdown_status_of(old(self).markets@[market_id].closed_ts, now) == ShutdownStatus::Closed
                && (forall|j: int| 0 <= j < old(self).spec_positions(account_id).len() ==> old(self).spec_positions(account_id)[j].market_id != market_id)
                ==> r == Err::<(), DispatchError>(DispatchError::Module(Error::PositionNotFound)) && final(rt).reads@ == old(rt).reads@,
            r is Ok ==> exists|i: int| #[trigger] settled_outcome(*old(self), *final(self), account_id, market_id, i, old(rt).reads@, final(rt).reads@),
            final(rt).calls@ == old(rt).calls@,
    {
        broadcast use vstd::std_specs::hash::group_hash_axioms;
        let market = self.try_get_market(market_id)?;
        match market.shutdown_status(now) {
            ShutdownStatus::Closed => {},
            _ => return Err(DispatchError::Module(Error::MarketNotClosed)),
        }
        let mut collateral = self.get_collateral(account_id);
        let mut positions = self.get_positions(account_id);
        let position_index = try_get_position(&positions, market_id)?;
        let mut position = positions[position_index];
        let ghost p0 = position;
        let ghost c0 = collateral;
        if position.direction().is_some() {
            settle_funding(&mut position, &market, &mut collateral)?;
            let open_price = arith(position.quote_asset_notional_amount.try_div(position.base_asset_amount))?;
            let sp_balance = rt.vamm_get_settlement_price(market.vamm_id)?;
            assert(settlement_read(old(rt).reads@, rt.reads@, market.vamm_id, sp_balance));
            let settlement_price = arith(Decimal::from_balance(sp_balance))?;
            if !settlement_price.is_zero() {
                let diff = arith(settlement_price.try_sub(open_price))?;
                let settled_value = arith(position.base_asset_amount.try_mul(diff))?;
                collateral = updated_balance(collateral, settled_value)?;
            }
            assert(settle_position_spec(p0, market, c0, sp_balance) == Ok::<u128, DispatchError>(collateral));
            positions.swap_remove(position_index);
            self.collateral.insert(account_id, collateral);
            self.positions.insert(account_id, positions);
        }
        assert(settled_outcome(*old(self), *self, account_id, market_id, position_index as int, old(rt).reads@, rt.reads@));
        rt.deposit_event(Event::SettledPosition { user: account_id, market: market_id });
        Ok(())
    }
}

} // verus!
