//! Tokenized options: sellers deposit collateral into asset vaults to write
//! options, buyers purchase option tokens for a premium, and at expiry buyers
//! exercise in-the-money options while sellers withdraw the rest of their
//! collateral and their share of the premium.
//!
//! Each option goes through phases (deposit, purchase, exercise, end) at the
//! times of its epoch, driven by a scheduler.
pub mod calls;
pub mod schedule;
pub mod trading;
pub mod types;

use crate::arith::{multiply_by_rational_with_rounding, mul_div_rounded, opt_u128, ArithmeticError, Rounding};
use crate::swap_bytes::{reverse_bytes_u128, swap_bytes_u128};
use crate::tokenized_options::types::{
    Account, DispatchError, Epoch, Error, ExerciseType, OptionConfig, OptionKey, OptionToken,
    OptionType, OptionsCall, OptionsHost, OptionsRuntime, SellerPosition, Status, VaultConfig,
};
use std::collections::HashMap;
use vstd::prelude::*;

verus! {

/// An entry of the scheduler: at `moment`, option `option_id` enters phase
/// `status`.
#[derive(Clone, Copy, Debug, PartialEq, Eq, Structural)]
pub struct ScheduleEntry {
    /// When the phase starts.
    pub moment: u64,
    /// The option.
    pub option_id: u128,
    /// The phase.
    pub status: Status,
}

/// Scheduler entries are ordered by moment, then by the little endian encoding
/// of the option id.
pub open spec fn entry_before(a: ScheduleEntry, b: ScheduleEntry) -> bool {
    a.moment < b.moment || (a.moment == b.moment && swap_bytes_u128(a.option_id) < swap_bytes_u128(b.option_id))
}

/// The scheduler is strictly ordered, hence has one entry per moment and
/// option.
pub open spec fn schedule_sorted(s: Seq<ScheduleEntry>) -> bool {
    forall|i: int, j: int| 0 <= i < j < s.len() ==> entry_before(#[trigger] s[i], #[trigger] s[j])
}

/// `a * b / c` rounded as `r`, zero when `c` is zero, failing on overflow.
pub open spec fn convert_mul_rational_spec(a: u128, b: u128, c: u128, r: Rounding) -> Result<u128, DispatchError> {
    if c == 0 {
        Ok(0u128)
    } else {
        match opt_u128(mul_div_rounded(a as int, b as int, c as int, r)) {
            Some(v) => Ok(v),
            None => Err(DispatchError::Arithmetic(ArithmeticError::Overflow)),
        }
    }
}

/// The collateral owed per call option at spot price `spot`: the part of one
/// unit of base asset worth the difference between spot and strike when in the
/// money, zero otherwise.
pub open spec fn call_collateral_spec(spot: u128, strike: u128, unit: u128) -> Result<u128, DispatchError> {
    if spot >= strike {
        convert_mul_rational_spec((spot - strike) as u128, unit, spot, Rounding::NearestPrefDown)
    } else {
        Ok(0u128)
    }
}

/// The collateral owed per put option at spot price `spot`: the difference
/// between strike and spot when in the money, zero otherwise.
pub open spec fn put_collateral_spec(spot: u128, strike: u128) -> u128 {
    if strike >= spot {
        (strike - spot) as u128
    } else {
        0u128
    }
}

/// The asset held as collateral for an option: the base asset for calls, the
/// quote asset for puts.
pub open spec fn collateral_asset(option: OptionToken) -> u128 {
    match option.option_type {
        OptionType::Call => option.base_asset_id,
        OptionType::Put => option.quote_asset_id,
    }
}

/// The collateral asked of a seller per option: the quote strike price for
/// calls, the base strike price for puts.
pub open spec fn collateral_per_option(option: OptionToken) -> u128 {
    match option.option_type {
        OptionType::Call => option.quote_asset_strike_price,
        OptionType::Put => option.base_asset_strike_price,
    }
}

/// Option and seller position after a seller writes `amount` options for
/// which the vault minted `shares`.
pub open spec fn sell_spec(option: OptionToken, position: Option<SellerPosition>, amount: u128, shares: u128) -> Result<(OptionToken, Option<SellerPosition>), DispatchError> {
    if collateral_per_option(option) * amount > u128::MAX {
        Err(DispatchError::Arithmetic(ArithmeticError::Overflow))
    } else {
        let p: Result<SellerPosition, DispatchError> = match position {
            Some(p) => if p.option_amount + amount > u128::MAX || p.shares_amount + shares > u128::MAX {
                Err(DispatchError::Arithmetic(ArithmeticError::Overflow))
            } else {
                Ok(SellerPosition { option_amount: (p.option_amount + amount) as u128, shares_amount: (p.shares_amount + shares) as u128 })
            },
            None => Ok(SellerPosition { option_amount: amount, shares_amount: shares }),
        };
        match p {
            Err(e) => Err(e),
            Ok(p) => if option.total_issuance_seller + amount > u128::MAX {
                Err(DispatchError::Arithmetic(ArithmeticError::Overflow))
            } else {
                Ok((OptionConfig { total_issuance_seller: (option.total_issuance_seller + amount) as u128, ..option }, Some(p)))
            },
        }
    }
}

/// The storage of the tokenized options protocol.
pub struct TokenizedOptions {
    /// Vault of each asset.
    pub asset_to_vault: HashMap<u128, u64>,
    /// Options by id.
    pub options: HashMap<u128, OptionToken>,
    /// The identifying attributes of each option, with its id.
    pub option_keys: Vec<(OptionKey, u128)>,
    /// Seller positions by option, then by account.
    pub sellers: HashMap<u128, HashMap<u64, SellerPosition>>,
    /// Phase changes to come, in order.
    pub scheduler: Vec<ScheduleEntry>,
    /// The stablecoin in which premiums are paid.
    pub stablecoin_asset_id: u128,
    /// The account that may act for the protocol besides governance, if any.
    pub protocol_account: Option<u64>,
}

/// No two options share their identifying attributes.
pub open spec fn keys_unique(keys: Seq<(OptionKey, u128)>) -> bool {
    forall|i: int, j: int| 0 <= i < j < keys.len() ==> (#[trigger] keys[i]).0 != (#[trigger] keys[j]).0
}

/// Pricing `asset` made the calls from `old` to `new` and gave `r`: the unit of
/// the asset is asked, and, when it is known, the oracle's price of one unit,
/// which is the price; an oracle without a price gives `AssetPriceNotFound`.
pub open spec fn priced(old: Seq<OptionsCall>, new: Seq<OptionsCall>, asset: u128, r: Result<u128, DispatchError>) -> bool {
    &&& new.len() > old.len()
    &&& new.subrange(0, old.len() as int) == old
    &&& match new[old.len() as int] {
        OptionsCall::AssetUnit { asset: a, result: Err(e) } => a == asset && r == Err::<u128, DispatchError>(e) && new.len() == old.len() + 1,
        OptionsCall::AssetUnit { asset: a, result: Ok(unit) } => a == asset && new.len() == old.len() + 2 && match new[old.len() + 1int] {
            OptionsCall::OraclePrice { asset: b, amount, result: reading } => b == asset && amount == unit && r == (match reading {
                Ok(p) => Ok::<u128, DispatchError>(p),
                Err(_) => Err(DispatchError::Module(Error::AssetPriceNotFound)),
            }),
            _ => false,
        },
        _ => false,
    }
}

impl TokenizedOptions {
    /// The storage invariant: the scheduler is ordered and option attributes
    /// are unique.
    pub open spec fn wf(&self) -> bool {
        &&& schedule_sorted(self.scheduler@)
        &&& keys_unique(self.option_keys@)
    }

    /// Empty storage, with premiums paid in the given stablecoin, and the
    /// account, if any, that may act for the protocol besides governance.
    pub fn new(stablecoin_asset_id: u128, protocol_account: Option<u64>) -> (r: TokenizedOptions)
        ensures
            r.asset_to_vault@ == Map::<u128, u64>::empty(),
            r.options@ == Map::<u128, OptionToken>::empty(),
            r.option_keys@ == Seq::<(OptionKey, u128)>::empty(),
            r.sellers@ == Map::<u128, HashMap<u64, SellerPosition>>::empty(),
            r.scheduler@ == Seq::<ScheduleEntry>::empty(),
            r.stablecoin_asset_id == stablecoin_asset_id,
            r.protocol_account == protocol_account,
            r.wf(),
    {
        TokenizedOptions {
            asset_to_vault: HashMap::new(),
            options: HashMap::new(),
            option_keys: Vec::new(),
            sellers: HashMap::new(),
            scheduler: Vec::new(),
            stablecoin_asset_id,
            protocol_account,
        }
    }

    /// The seller position of an account for an option, if any.
    pub open spec fn spec_seller(&self, option_id: u128, account: u64) -> Option<SellerPosition> {
        if self.sellers@.contains_key(option_id) && self.sellers@[option_id]@.contains_key(account) {
            Some(self.sellers@[option_id]@[account])
        } else {
            None
        }
    }

    /// The seller position of an account for an option, if any.
    pub fn get_seller(&self, option_id: u128, account: u64) -> (r: Option<SellerPosition>)
        ensures
            r == self.spec_seller(option_id, account),
    {
        broadcast use vstd::std_specs::hash::group_hash_axioms;
        match self.sellers.get(&option_id) {
            Some(m) => match m.get(&account) {
                Some(p) => Some(*p),
                None => None,
            },
            None => None,
        }
    }

    /// Sets (or removes, with `None`) the seller position of an account for an
    /// option.
    pub fn set_seller(&mut self, option_id: u128, account: u64, position: Option<SellerPosition>)
        ensures
            forall|o: u128, a: u64| #[trigger] final(self).spec_seller(o, a) == if o == option_id && a == account {
                position
            } else {
                old(self).spec_seller(o, a)
            },
            final(self).asset_to_vault == old(self).asset_to_vault,
            final(self).options == old(self).options,
            final(self).option_keys == old(self).option_keys,
            final(self).scheduler == old(self).scheduler,
            final(self).stablecoin_asset_id == old(self).stablecoin_asset_id,
            final(self).protocol_account == old(self).protocol_account,
    {
        broadcast use vstd::std_specs::hash::group_hash_axioms;
        let mut inner: HashMap<u64, SellerPosition> = match self.sellers.get(&option_id) {
            Some(m) => m.clone(),
            None => HashMap::new(),
        };
        match position {
            Some(p) => {
                inner.insert(account, p);
            },
            None => {
                inner.remove(&account);
            },
        }
        self.sellers.insert(option_id, inner);
    }

    /// The protocol account holding an asset.
    pub fn account_id(asset_id: u128) -> (r: Account)
        ensures
            r == Account::Protocol(asset_id),
    {
        Account::Protocol(asset_id)
    }

    /// The attributes identifying an option.
    pub fn generate_id(base_asset_id: u128, quote_asset_id: u128, base_asset_strike_price: u128, quote_asset_strike_price: u128, option_type: OptionType, expiring_date: u64, exercise_type: ExerciseType) -> (r: OptionKey)
        ensures
            r == (OptionKey { base_asset_id, quote_asset_id, base_asset_strike_price, quote_asset_strike_price, option_type, expiring_date, exercise_type }),
    {
        OptionKey { base_asset_id, quote_asset_id, base_asset_strike_price, quote_asset_strike_price, option_type, expiring_date, exercise_type }
    }

    /// The fixed option premium: 1000 units of a 12-decimal stablecoin.
    pub fn fake_option_price() -> (r: u128)
        ensures
            r == 1000 * 1_000_000_000_000,
    {
        1000u128 * 1_000_000_000_000u128
    }

    /// `a * b / c` rounded as `r`; zero when `c` is zero.
    pub fn convert_and_multiply_by_rational(a: u128, b: u128, c: u128, r: Rounding) -> (res: Result<u128, DispatchError>)
        ensures
            res == convert_mul_rational_spec(a, b, c, r),
    {
        if c == 0 {
            return Ok(0);
        }
        match multiply_by_rational_with_rounding(a, b, c, r) {
            Some(v) => Ok(v),
            None => Err(DispatchError::Arithmetic(ArithmeticError::Overflow)),
        }
    }

    /// The collateral owed per call option at spot price `spot`, reading the
    /// base asset's unit when the option is in the money.
    pub fn call_option_collateral_amount<R: OptionsRuntime>(rt: &mut OptionsHost<R>, base_asset_spot_price: u128, option: &OptionToken) -> (r: Result<u128, DispatchError>)
        ensures
            final(rt).events@ == old(rt).events@,
            base_asset_spot_price < option.base_asset_strike_price ==> r == Ok::<u128, DispatchError>(0) && final(rt).calls@ == old(rt).calls@,
            r is Ok ==> exists|unit: u128| call_collateral_spec(base_asset_spot_price, option.base_asset_strike_price, unit) == r,
            base_asset_spot_price >= option.base_asset_strike_price ==> final(rt).calls@ == old(rt).calls@.push(final(rt).calls@.last())
                && (final(rt).calls@.last() matches OptionsCall::AssetUnit { asset, result }
                && asset == option.base_asset_id
                && r == (match result {
                    Ok(unit) => call_collateral_spec(base_asset_spot_price, option.base_asset_strike_price, unit),
                    Err(e) => Err(e),
                })),
    {
        if base_asset_spot_price >= option.base_asset_strike_price {
            let diff = base_asset_spot_price - option.base_asset_strike_price;
            let unit = rt.asset_unit(option.base_asset_id)?;
            let r = Self::convert_and_multiply_by_rational(diff, unit, base_asset_spot_price, Rounding::NearestPrefDown);
            assert(call_collateral_spec(base_asset_spot_price, option.base_asset_strike_price, unit) == r);
            r
        } else {
            assert(call_collateral_spec(base_asset_spot_price, option.base_asset_strike_price, 0) == Ok::<u128, DispatchError>(0));
            Ok(0)
        }
    }

    /// The collateral owed per put option at spot price `spot`.
    pub fn put_option_collateral_amount(base_asset_spot_price: u128, option: &OptionToken) -> (r: Result<u128, DispatchError>)
        ensures
            r == Ok::<u128, DispatchError>(put_collateral_spec(base_asset_spot_price, option.base_asset_strike_price)),
    {
        if option.base_asset_strike_price >= base_asset_spot_price {
            Ok(option.base_asset_strike_price - base_asset_spot_price)
        } else {
            Ok(0)
        }
    }

    /// The price an oracle reading stands for: the price it holds, or
    /// `AssetPriceNotFound` whatever the oracle's error.
    pub fn price_from_reading(reading: Result<u128, DispatchError>) -> (r: Result<u128, DispatchError>)
        ensures
            r == (match reading {
                Ok(p) => Ok::<u128, DispatchError>(p),
                Err(_) => Err(DispatchError::Module(Error::AssetPriceNotFound)),
            }),
    {
        match reading {
            Ok(p) => Ok(p),
            Err(_) => Err(DispatchError::Module(Error::AssetPriceNotFound)),
        }
    }

    /// The oracle price of one unit of an asset. What the oracle reads is the
    /// runtime's; its reading is turned into a price by `price_from_reading`.
    pub fn get_price<R: OptionsRuntime>(rt: &mut OptionsHost<R>, asset_id: u128) -> (r: Result<u128, DispatchError>)
        ensures
            final(rt).events@ == old(rt).events@,
            priced(old(rt).calls@, final(rt).calls@, asset_id, r),
    {
        let unit = match rt.asset_unit(asset_id) {
            Ok(u) => u,
            Err(e) => {
                assert(rt.calls@.subrange(0, old(rt).calls@.len() as int) =~= old(rt).calls@);
                return Err(e);
            },
        };
        let reading = rt.oracle_price(asset_id, unit);
        assert(rt.calls@.subrange(0, old(rt).calls@.len() as int) =~= old(rt).calls@);
        Self::price_from_reading(reading)
    }

    /// The vault of an asset.
    pub fn asset_id_to_vault_id(&self, asset_id: u128) -> (r: Option<u64>)
        ensures
            r == (if self.asset_to_vault@.contains_key(asset_id) {
                Some(self.asset_to_vault@[asset_id])
            } else {
                None
            }),
    {
        broadcast use vstd::std_specs::hash::group_hash_axioms;
        match self.asset_to_vault.get(&asset_id) {
            Some(v) => Some(*v),
            None => None,
        }
    }

    /// The option with the given id.
    pub fn option_id_to_option(&self, option_id: u128) -> (r: Option<OptionToken>)
        ensures
            r == (if self.options@.contains_key(option_id) {
                Some(self.options@[option_id])
            } else {
                None
            }),
    {
        broadcast use vstd::std_specs::hash::group_hash_axioms;
        match self.options.get(&option_id) {
            Some(o) => Some(*o),
            None => None,
        }
    }
}

} // verus!
