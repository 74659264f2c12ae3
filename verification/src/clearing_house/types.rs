//! Data types of the clearing house: markets, positions, account summaries and
//! the errors of its operations.
use crate::arith::{ArithmeticError, Decimal};
use vstd::prelude::*;

verus! {

/// Basis points per unit, the denominator of taker fees.
pub const BASIS_POINT_DENOMINATOR: u128 = 10_000u128;

/// Direction of a trade or position.
#[derive(Clone, Copy, Debug, PartialEq, Eq, Structural)]
pub enum Direction {
    /// Buy base asset.
    Long,
    /// Sell base asset.
    Short,
}

impl Direction {
    /// The opposite direction.
    pub fn opposite(self) -> (r: Direction)
        ensures
            r == self.spec_opposite(),
    {
        match self {
            Direction::Long => Direction::Short,
            Direction::Short => Direction::Long,
        }
    }

    /// The opposite direction.
    pub open spec fn spec_opposite(self) -> Direction {
        match self {
            Direction::Long => Direction::Short,
            Direction::Short => Direction::Long,
        }
    }
}

/// Which of the two virtual assets of a vAMM is meant.
#[derive(Clone, Copy, Debug, PartialEq, Eq, Structural)]
pub enum AssetType {
    /// The base asset.
    Base,
    /// The quote asset.
    Quote,
}

/// Whether a swap adds the input asset to the vAMM or removes it.
#[derive(Clone, Copy, Debug, PartialEq, Eq, Structural)]
pub enum SwapDirection {
    /// Add the input asset to the vAMM.
    Add,
    /// Remove the input asset from the vAMM.
    Remove,
}

/// The swap direction that corresponds to a trade direction.
pub open spec fn swap_direction_of(d: Direction) -> SwapDirection {
    match d {
        Direction::Long => SwapDirection::Add,
        Direction::Short => SwapDirection::Remove,
    }
}

/// Converts a trade direction into a vAMM swap direction.
pub fn swap_direction(d: Direction) -> (r: SwapDirection)
    ensures
        r == swap_direction_of(d),
{
    match d {
        Direction::Long => SwapDirection::Add,
        Direction::Short => SwapDirection::Remove,
    }
}

/// Specification of a vAMM swap.
#[derive(Clone, Copy, Debug, PartialEq, Eq, Structural)]
pub struct SwapConfig {
    /// The vAMM to swap in.
    pub vamm_id: u64,
    /// The asset given as input.
    pub asset: AssetType,
    /// The amount of the input asset.
    pub input_amount: u128,
    /// Whether the input is added to or removed from the vAMM.
    pub direction: SwapDirection,
    /// Slippage control on the output amount.
    pub output_amount_limit: Option<u128>,
}

/// Parameters for creating a vAMM.
#[derive(Clone, Copy, Debug, PartialEq, Eq, Structural)]
pub struct VammConfig {
    /// Initial base asset reserves.
    pub base_asset_reserves: u128,
    /// Initial quote asset reserves.
    pub quote_asset_reserves: u128,
    /// Peg multiplier of the quote asset.
    pub peg_multiplier: u128,
    /// Period of the vAMM price TWAP.
    pub twap_period: u64,
}

/// Parameters for creating a market.
#[derive(Clone, Copy, Debug, PartialEq, Eq, Structural)]
pub struct MarketConfig {
    /// The underlying asset.
    pub asset: u128,
    /// Parameters of the market's vAMM.
    pub vamm_config: VammConfig,
    /// Minimum margin ratio for opening new positions.
    pub margin_ratio_initial: Decimal,
    /// Margin ratio below which full liquidations may occur.
    pub margin_ratio_maintenance: Decimal,
    /// Margin ratio below which partial liquidations may occur.
    pub margin_ratio_partial: Decimal,
    /// Minimum amount of quote asset to exchange in a trade.
    pub minimum_trade_size: Decimal,
    /// Minimum time between funding rate updates.
    pub funding_frequency: u64,
    /// Period of time over which funding (the difference between mark and index
    /// prices) gets paid.
    pub funding_period: u64,
    /// Taker fee, in basis points.
    pub taker_fee: u128,
    /// Period of the oracle price TWAP.
    pub twap_period: u64,
}

/// A perpetual contracts market.
#[derive(Clone, Copy, Debug, PartialEq, Eq, Structural)]
pub struct Market {
    /// The underlying asset.
    pub asset_id: u128,
    /// The market's vAMM.
    pub vamm_id: u64,
    /// Minimum margin ratio for opening new positions.
    pub margin_ratio_initial: Decimal,
    /// Margin ratio below which full liquidations may occur.
    pub margin_ratio_maintenance: Decimal,
    /// Margin ratio below which partial liquidations may occur.
    pub margin_ratio_partial: Decimal,
    /// Minimum amount of quote asset to exchange in a trade.
    pub minimum_trade_size: Decimal,
    /// Total base asset held by long positions.
    pub base_asset_amount_long: Decimal,
    /// Total base asset held by short positions (non-positive).
    pub base_asset_amount_short: Decimal,
    /// Cumulative funding rate paid by longs.
    pub cum_funding_rate_long: Decimal,
    /// Cumulative funding rate received by shorts.
    pub cum_funding_rate_short: Decimal,
    /// Time of the last funding rate update.
    pub funding_rate_ts: u64,
    /// Minimum time between funding rate updates.
    pub funding_frequency: u64,
    /// Period over which funding gets paid.
    pub funding_period: u64,
    /// Taker fee, in basis points.
    pub taker_fee: u128,
    /// Period of the oracle price TWAP.
    pub twap_period: u64,
    /// Last (clipped) oracle price.
    pub last_oracle_price: Decimal,
    /// Last oracle price TWAP.
    pub last_oracle_twap: Decimal,
    /// Time of the last oracle TWAP update.
    pub last_oracle_ts: u64,
    /// Time at which the market closes, if set.
    pub closed_ts: Option<u64>,
}

/// Phase of a market's shutdown.
#[derive(Clone, Copy, Debug, PartialEq, Eq, Structural)]
pub enum ShutdownStatus {
    /// No close time is set.
    Open,
    /// A close time is set but not reached.
    Closing,
    /// The close time has been reached.
    Closed,
}

/// The shutdown phase of a market at time `now`.
pub open spec fn shutdown_status_of(closed_ts: Option<u64>, now: u64) -> ShutdownStatus {
    match closed_ts {
        None => ShutdownStatus::Open,
        Some(ts) => if now >= ts {
            ShutdownStatus::Closed
        } else {
            ShutdownStatus::Closing
        },
    }
}

/// `x` added to the base asset amount of the longs or of the shorts.
pub open spec fn market_with_base_added(m: Market, x: Decimal, d: Direction) -> Result<Market, ArithmeticError> {
    match d {
        Direction::Long => match crate::arith::dec_of(m.base_asset_amount_long.inner + x.inner) {
            Ok(v) => Ok(Market { base_asset_amount_long: v, ..m }),
            Err(e) => Err(e),
        },
        Direction::Short => match crate::arith::dec_of(m.base_asset_amount_short.inner + x.inner) {
            Ok(v) => Ok(Market { base_asset_amount_short: v, ..m }),
            Err(e) => Err(e),
        },
    }
}

/// `x` subtracted from the base asset amount of the longs or of the shorts.
pub open spec fn market_with_base_subtracted(m: Market, x: Decimal, d: Direction) -> Result<Market, ArithmeticError> {
    match d {
        Direction::Long => if crate::arith::fits_i128(m.base_asset_amount_long.inner - x.inner) {
            Ok(Market { base_asset_amount_long: Decimal { inner: (m.base_asset_amount_long.inner - x.inner) as i128 }, ..m })
        } else {
            Err(ArithmeticError::Underflow)
        },
        Direction::Short => if crate::arith::fits_i128(m.base_asset_amount_short.inner - x.inner) {
            Ok(Market { base_asset_amount_short: Decimal { inner: (m.base_asset_amount_short.inner - x.inner) as i128 }, ..m })
        } else {
            Err(ArithmeticError::Underflow)
        },
    }
}

impl Market {
    /// The cumulative funding rate of one side of the market.
    pub open spec fn spec_cum_funding_rate(self, d: Direction) -> Decimal {
        match d {
            Direction::Long => self.cum_funding_rate_long,
            Direction::Short => self.cum_funding_rate_short,
        }
    }

    /// The cumulative funding rate of one side of the market.
    pub fn cum_funding_rate(&self, d: Direction) -> (r: Decimal)
        ensures
            r == self.spec_cum_funding_rate(d),
    {
        match d {
            Direction::Long => self.cum_funding_rate_long,
            Direction::Short => self.cum_funding_rate_short,
        }
    }

    /// The shutdown phase of the market at time `now`.
    pub fn shutdown_status(&self, now: u64) -> (r: ShutdownStatus)
        ensures
            r == shutdown_status_of(self.closed_ts, now),
    {
        match self.closed_ts {
            None => ShutdownStatus::Open,
            Some(ts) => if now >= ts {
                ShutdownStatus::Closed
            } else {
                ShutdownStatus::Closing
            },
        }
    }

    /// Adds `x` to the base asset amount of the longs or of the shorts.
    pub fn add_base_asset_amount(&mut self, x: &Decimal, d: Direction) -> (r: Result<(), ArithmeticError>)
        ensures
            match market_with_base_added(*old(self), *x, d) {
                Ok(m) => r is Ok && *final(self) == m,
                Err(e) => r == Err::<(), ArithmeticError>(e) && *final(self) == *old(self),
            },
    {
        match d {
            Direction::Long => {
                self.base_asset_amount_long = self.base_asset_amount_long.try_add(*x)?;
            },
            Direction::Short => {
                self.base_asset_amount_short = self.base_asset_amount_short.try_add(*x)?;
            },
        }
        Ok(())
    }

    /// Subtracts `x` from the base asset amount of the longs or of the shorts.
    pub fn sub_base_asset_amount(&mut self, x: &Decimal, d: Direction) -> (r: Result<(), ArithmeticError>)
        ensures
            match market_with_base_subtracted(*old(self), *x, d) {
                Ok(m) => r is Ok && *final(self) == m,
                Err(e) => r == Err::<(), ArithmeticError>(e) && *final(self) == *old(self),
            },
    {
        match d {
            Direction::Long => {
                self.base_asset_amount_long = self.base_asset_amount_long.try_sub(*x)?;
            },
            Direction::Short => {
                self.base_asset_amount_short = self.base_asset_amount_short.try_sub(*x)?;
            },
        }
        Ok(())
    }
}

/// A trader's position in one market.
#[derive(Clone, Copy, Debug, PartialEq, Eq, Structural)]
pub struct Position {
    /// The market of the position.
    pub market_id: u64,
    /// Signed amount of base asset: positive for longs, negative for shorts.
    pub base_asset_amount: Decimal,
    /// Signed quote asset value of the position at entry.
    pub quote_asset_notional_amount: Decimal,
    /// The market's cumulative funding rate at the last settlement.
    pub last_cum_funding: Decimal,
}

/// The direction of a position with the given base asset amount, if any.
pub open spec fn direction_of(base: Decimal) -> Option<Direction> {
    if base.inner > 0 {
        Some(Direction::Long)
    } else if base.inner < 0 {
        Some(Direction::Short)
    } else {
        None
    }
}

impl Position {
    /// The direction of the position: `None` if it holds no base asset.
    pub fn direction(&self) -> (r: Option<Direction>)
        ensures
            r == direction_of(self.base_asset_amount),
    {
        if self.base_asset_amount.inner > 0 {
            Some(Direction::Long)
        } else if self.base_asset_amount.inner < 0 {
            Some(Direction::Short)
        } else {
            None
        }
    }
}

/// The oracle price of a market's underlying and whether it can be used.
#[derive(Clone, Copy, Debug, PartialEq, Eq, Structural)]
pub struct OracleStatus {
    /// Whether the price is positive.
    pub is_valid: bool,
    /// The index price.
    pub price: Decimal,
}

/// Risk figures of one position.
#[derive(Clone, Copy, Debug, PartialEq, Eq, Structural)]
pub struct PositionInfo {
    /// Direction of the position.
    pub direction: Direction,
    /// Base asset value times the maintenance margin ratio.
    pub margin_requirement_maintenance: Decimal,
    /// Base asset value times the partial margin ratio.
    pub margin_requirement_partial: Decimal,
    /// Absolute value of the position in quote asset.
    pub base_asset_value: Decimal,
    /// Unrealized profit and loss.
    pub unrealized_pnl: Decimal,
    /// Unrealized funding payments.
    pub unrealized_funding: Decimal,
}

/// A summary of an account's margin and risk across its positions.
#[derive(Clone, Debug)]
pub struct AccountSummary {
    /// The account's collateral.
    pub collateral: u128,
    /// Collateral plus unrealized PnL and funding of all positions.
    pub margin: Decimal,
    /// Sum of the maintenance margin requirements.
    pub margin_requirement_maintenance: Decimal,
    /// Sum of the partial margin requirements.
    pub margin_requirement_partial: Decimal,
    /// Sum of the absolute position values.
    pub base_asset_value: Decimal,
    /// Each open position with its market and risk figures.
    pub positions_summary: Vec<(Market, Position, PositionInfo)>,
}

/// The state of a trader in one market, before a trade.
#[derive(Clone, Copy, Debug, PartialEq, Eq, Structural)]
pub struct TraderPositionState {
    /// The trader's collateral.
    pub collateral: u128,
    /// The market.
    pub market: Market,
    /// The trader's position in the market.
    pub position: Position,
    /// Realized losses available to pay profits.
    pub available_profits: u128,
    /// The trader's profits waiting for realized losses.
    pub outstanding_profits: u128,
}

/// The outcome of a trade.
#[derive(Clone, Copy, Debug, PartialEq, Eq, Structural)]
pub struct TradeResponse {
    /// The trader's collateral.
    pub collateral: u128,
    /// The market.
    pub market: Market,
    /// The trader's position, `None` if it was closed.
    pub position: Option<Position>,
    /// Realized losses available to pay profits.
    pub available_profits: u128,
    /// The trader's profits waiting for realized losses.
    pub outstanding_profits: u128,
    /// Amount of base asset exchanged.
    pub base_swapped: u128,
    /// Whether the trade increased the account's risk.
    pub is_risk_increasing: bool,
}

/// Errors raised by the clearing house.
#[derive(Clone, Copy, Debug, PartialEq, Eq, Structural)]
pub enum Error {
    /// Attempted to set a market close time in the past or current block.
    CloseTimeMustBeAfterCurrentTime,
    /// The funding period is not a multiple of the funding frequency.
    FundingPeriodNotMultipleOfFrequency,
    /// A risk-increasing operation would take the account below the IMR.
    InsufficientCollateral,
    /// The ordering 'initial > partial > maintenance' of margin ratios is broken.
    InvalidMarginRatioOrdering,
    /// A margin ratio is outside its allowed interval.
    InvalidMarginRatioRequirement,
    /// The price returned by the oracle is nonpositive.
    InvalidOracleReading,
    /// The market is closed.
    MarketClosed,
    /// Attempted to settle a position before the market close time.
    MarketNotClosed,
    /// No market has the given id.
    MarketIdNotFound,
    /// Attempted to open a position in a market that is shutting down.
    MarketShuttingDown,
    /// Creating a position would exceed the maximum number of positions.
    MaxPositionsExceeded,
    /// The minimum trade size is negative.
    NegativeMinimumTradeSize,
    /// Tried to deposit zero collateral.
    NoCollateralDeposited,
    /// No collateral type is registered.
    NoCollateralTypeSet,
    /// The underlying asset is not supported by the oracle.
    NoPriceFeedForAsset,
    /// The position holds no base asset.
    NullPosition,
    /// The mark price diverges too much from the index price.
    OracleMarkTooDivergent,
    /// The trader has no position in the market.
    PositionNotFound,
    /// The account has enough collateral not to be liquidated.
    SufficientCollateral,
    /// The trade is smaller than the market's minimum trade size.
    TradeSizeTooSmall,
    /// The asset is not the collateral type.
    UnsupportedCollateralType,
    /// The funding frequency has not passed since the last funding update.
    UpdatingFundingTooEarly,
    /// The user has no open positions.
    UserHasNoPositions,
    /// The funding period or frequency is zero.
    ZeroLengthFundingPeriodOrFrequency,
    /// Attempted to withdraw zero collateral.
    ZeroWithdrawalAmount,
}

/// Errors of clearing house operations: its own errors, arithmetic errors, and
/// errors reported by the services it calls.
#[derive(Clone, Copy, Debug, PartialEq, Eq, Structural)]
pub enum DispatchError {
    /// An error of the clearing house.
    Module(Error),
    /// An arithmetic error.
    Arithmetic(ArithmeticError),
    /// An error reported by the vAMM, oracle or asset ledger.
    External(u32),
    /// The call's origin may not make it.
    BadOrigin,
}

/// An arithmetic result with its error lifted to a dispatch error.
pub open spec fn lift<T>(r: Result<T, ArithmeticError>) -> Result<T, DispatchError> {
    match r {
        Ok(v) => Ok(v),
        Err(e) => Err(DispatchError::Arithmetic(e)),
    }
}

/// Lifts the error of an arithmetic result to a dispatch error.
pub fn arith<T>(r: Result<T, ArithmeticError>) -> (o: Result<T, DispatchError>)
    ensures
        o == lift(r),
{
    match r {
        Ok(v) => Ok(v),
        Err(e) => Err(DispatchError::Arithmetic(e)),
    }
}

/// The failure with a clearing house error.
pub open spec fn fail<T>(e: Error) -> Result<T, DispatchError> {
    Err(DispatchError::Module(e))
}

} // verus!
