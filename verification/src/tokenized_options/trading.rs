//! Writing, buying, exercising options and withdrawing collateral.
use crate::arith::{mul_div_rounded, ArithmeticError, Rounding};
use crate::tokenized_options::types::{
    Account, DispatchError, Error, OptionConfig, OptionToken, OptionType, OptionsCall, OptionsEvent, OptionsHost, OptionsRuntime,
    SellerPosition, Status,
};
use crate::tokenized_options::{
    call_collateral_spec, collateral_asset, collateral_per_option, convert_mul_rational_spec,
    priced, put_collateral_spec, sell_spec, TokenizedOptions,
};
use vstd::prelude::*;

verus! {

/// Seller position after withdrawing `amount` options worth `shares` shares:
/// removed when all its shares go, reduced otherwise.
pub open spec fn delete_position_spec(p: SellerPosition, amount: u128, shares: u128) -> Result<Option<SellerPosition>, DispatchError> {
    if shares != p.shares_amount {
        if p.option_amount < amount || p.shares_amount < shares {
            Err(DispatchError::Arithmetic(ArithmeticError::Overflow))
        } else {
            Ok(Some(SellerPosition { option_amount: (p.option_amount - amount) as u128, shares_amount: (p.shares_amount - shares) as u128 }))
        }
    } else {
        Ok(None)
    }
}

/// Option after a buyer purchases `amount` options when `issued` options were
/// already bought: the premium is added, and there must be enough options for
/// sale.
pub open spec fn buy_spec(option: OptionToken, amount: u128, issued: u128) -> Result<OptionToken, DispatchError> {
    let premium = TokenizedOptions::spec_fake_option_price() * amount;
    if premium > u128::MAX {
        Err(DispatchError::Arithmetic(ArithmeticError::Overflow))
    } else if issued + amount > u128::MAX {
        Err(DispatchError::Arithmetic(ArithmeticError::Overflow))
    } else if issued + amount > option.total_issuance_seller {
        Err(DispatchError::Module(Error::NotEnoughOptionsForSale))
    } else if option.total_premium_paid + premium > u128::MAX {
        Err(DispatchError::Arithmetic(ArithmeticError::Overflow))
    } else {
        Ok(OptionConfig { total_premium_paid: (option.total_premium_paid + premium) as u128, ..option })
    }
}

/// What a seller receives when withdrawing: `(shares to redeem before capping
/// by the protocol's share balance, premium)`. Buyers' shares and premium are
/// split among sellers in proportion to the options each wrote.
pub open spec fn withdraw_amounts_spec(option: OptionToken, p: SellerPosition) -> Result<(u128, u128), DispatchError> {
    match convert_mul_rational_spec(option.total_shares_amount, p.option_amount, option.total_issuance_seller, Rounding::Down) {
        Err(e) => Err(e),
        Ok(shares_for_buyers) => if p.shares_amount < shares_for_buyers {
            Err(DispatchError::Arithmetic(ArithmeticError::Overflow))
        } else {
            match convert_mul_rational_spec(option.total_premium_paid, p.option_amount, option.total_issuance_seller, Rounding::Down) {
                Err(e) => Err(e),
                Ok(premium) => Ok(((p.shares_amount - shares_for_buyers) as u128, premium)),
            }
        },
    }
}

/// Option after settlement at spot price `spot` with `issued` options bought,
/// collateral `per_option` owed per option and `shares` vault shares set aside
/// for buyers.
pub open spec fn settled_option(option: OptionToken, spot: u128, issued: u128, per_option: u128, shares: u128) -> OptionToken {
    OptionConfig {
        exercise_amount: per_option,
        base_asset_spot_price: spot,
        total_issuance_buyer: issued,
        total_shares_amount: shares,
        ..option
    }
}

/// `settled` is `option` settled at some spot price, with some number of
/// options bought and some vault shares set aside: the collateral owed per
/// option is the one that spot price gives, and the collateral owed in all fits
/// in a balance.
pub open spec fn settles_to(option: OptionToken, settled: OptionToken) -> bool {
    exists|spot: u128, issued: u128, per_option: u128, shares: u128| {
        &&& (match option.option_type {
            OptionType::Call => exists|unit: u128| call_collateral_spec(spot, option.base_asset_strike_price, unit) == Ok::<u128, DispatchError>(per_option),
            OptionType::Put => per_option == put_collateral_spec(spot, option.base_asset_strike_price),
        })
        &&& per_option * issued <= u128::MAX
        &&& settled == settled_option(option, spot, issued, per_option, shares)
    }
}

/// Withdrawing, right after writing them, the options just written gives back
/// the option's former number of options for sale.
pub proof fn lemma_delete_undoes_sell(option: OptionToken, position: Option<SellerPosition>, amount: u128, shares: u128, sold: OptionToken, sold_position: Option<SellerPosition>)
    requires
        sell_spec(option, position, amount, shares) == Ok::<(OptionToken, Option<SellerPosition>), DispatchError>((sold, sold_position)),
    ensures
        sold.total_issuance_seller >= amount,
        (OptionConfig { total_issuance_seller: (sold.total_issuance_seller - amount) as u128, ..sold }) == option,
{
}

/// `a * b / c` rounded down is at most `a` when `b` is at most `c`.
proof fn lemma_share_at_most_total(a: u128, b: u128, c: u128)
    requires
        0 < c,
        b <= c,
    ensures
        mul_div_rounded(a as int, b as int, c as int, Rounding::Down) <= a,
{
    assert((a as int) * (b as int) <= (a as int) * (c as int)) by (nonlinear_arith)
        requires
            b <= c,
    ;
    vstd::arithmetic::div_mod::lemma_div_is_ordered((a as int) * (b as int), (a as int) * (c as int), c as int);
    vstd::arithmetic::div_mod::lemma_div_by_multiple(a as int, c as int);
}

/// A seller that wrote part of an option's options never receives more than
/// all the premium paid, and never gives up more than all the vault shares set
/// aside for buyers.
pub proof fn lemma_seller_share_bounded(option: OptionToken, p: SellerPosition, shares: u128, premium: u128)
    requires
        p.option_amount <= option.total_issuance_seller,
        withdraw_amounts_spec(option, p) == Ok::<(u128, u128), DispatchError>((shares, premium)),
    ensures
        premium <= option.total_premium_paid,
        p.shares_amount - shares <= option.total_shares_amount,
{
    if option.total_issuance_seller > 0 {
        lemma_share_at_most_total(option.total_premium_paid, p.option_amount, option.total_issuance_seller);
        lemma_share_at_most_total(option.total_shares_amount, p.option_amount, option.total_issuance_seller);
    }
}

/// The collateral owed per call option is at most one unit of the base asset.
pub proof fn lemma_call_collateral_at_most_unit(spot: u128, strike: u128, unit: u128, owed: u128)
    requires
        call_collateral_spec(spot, strike, unit) == Ok::<u128, DispatchError>(owed),
    ensures
        owed <= unit,
{
    if spot >= strike && spot > 0 {
        let d = (spot - strike) as int;
        let n = d * unit;
        assert(n <= (spot as int) * (unit as int)) by (nonlinear_arith)
            requires
                n == d * unit,
                0 <= d <= spot,
                unit >= 0,
        ;
        vstd::arithmetic::div_mod::lemma_div_is_ordered(n, (spot as int) * (unit as int), spot as int);
        vstd::arithmetic::div_mod::lemma_div_by_multiple(unit as int, spot as int);
        vstd::arithmetic::div_mod::lemma_fundamental_div_mod(n, spot as int);
        if n / (spot as int) == unit as int {
            assert(n % (spot as int) == 0) by (nonlinear_arith)
                requires
                    n == (spot as int) * (n / (spot as int)) + n % (spot as int),
                    n / (spot as int) == unit as int,
                    n <= (spot as int) * (unit as int),
                    0 <= n % (spot as int),
            ;
        }
    }
}

/// The calls a buyer `from` exercising `amount` options `option_id` makes:
/// the collateral owed, `exercise_amount` per option, is transferred from the
/// protocol's account to the buyer when not zero, and the options are burned
/// from the buyer.
pub open spec fn exercise_calls(option: OptionToken, option_id: u128, from: u64, amount: u128) -> Seq<OptionsCall> {
    exercise_payment(option, from, amount) + seq![OptionsCall::Burn { asset: option_id, from: Account::User(from), amount, result: Ok(()) }]
}

/// The transfer of the collateral owed to a buyer `from` exercising `amount`
/// options, when it is not zero.
pub open spec fn exercise_payment(option: OptionToken, from: u64, amount: u128) -> Seq<OptionsCall> {
    let asset = collateral_asset(option);
    if option.exercise_amount != 0 {
        seq![OptionsCall::Transfer {
            asset,
            from: Account::Protocol(asset),
            to: Account::User(from),
            amount: (option.exercise_amount * amount) as u128,
            keep_alive: true,
            result: Ok(()),
        }]
    } else {
        Seq::empty()
    }
}

/// The calls a seller `from` withdrawing its position `p` in a settled
/// option makes, its collateral being in vault `vault_id`: the asset id `lp`
/// of the vault's shares and the protocol's balance `balance` of them are
/// read; the seller's shares net of the buyers' part (see
/// `withdraw_amounts_spec`), capped by that balance, are redeemed for the
/// protocol's account; the `amount` they give is transferred to the seller;
/// and its share of the premium is transferred to it in the stablecoin.
pub open spec fn withdraw_calls(option: OptionToken, p: SellerPosition, vault_id: u64, stablecoin: u128, from: u64, lp: u128, balance: u128, amount: u128) -> Seq<OptionsCall> {
    let shares = withdraw_amounts_spec(option, p)->Ok_0.0;
    let premium = withdraw_amounts_spec(option, p)->Ok_0.1;
    let asset = collateral_asset(option);
    let redeemed = if shares <= balance { shares } else { balance };
    seq![
        OptionsCall::LpAssetId { vault_id, result: Ok(lp) },
        OptionsCall::Balance { asset: lp, who: Account::Protocol(asset), result: balance },
        OptionsCall::VaultWithdraw { vault_id, to: Account::Protocol(asset), shares: redeemed, result: Ok(amount) },
        OptionsCall::Transfer { asset, from: Account::Protocol(asset), to: Account::User(from), amount, keep_alive: true, result: Ok(()) },
        OptionsCall::Transfer {
            asset: stablecoin,
            from: Account::Protocol(stablecoin),
            to: Account::User(from),
            amount: premium,
            keep_alive: true,
            result: Ok(()),
        },
    ]
}

/// The calls a seller `from` withdrawing `amount` of the options it wrote
/// makes, its position being `p` and its collateral in vault `vault_id`: the
/// shares to give up, `amount / p.option_amount` of its shares rounded down,
/// are valued (`value`), as are all its shares (`max_value`); those shares are
/// redeemed for the protocol's account and `value` is transferred to the
/// seller.
pub open spec fn delete_sell_calls(option: OptionToken, p: SellerPosition, amount: u128, vault_id: u64, from: u64, value: u128, max_value: u128, withdrawn: u128) -> Seq<OptionsCall> {
    let shares = convert_mul_rational_spec(p.shares_amount, amount, p.option_amount, Rounding::Down)->Ok_0;
    let asset = collateral_asset(option);
    seq![
        OptionsCall::LpShareValue { vault_id, shares, result: Ok(value) },
        OptionsCall::LpShareValue { vault_id, shares: p.shares_amount, result: Ok(max_value) },
        OptionsCall::VaultWithdraw { vault_id, to: Account::Protocol(asset), shares, result: Ok(withdrawn) },
        OptionsCall::Transfer { asset, from: Account::Protocol(asset), to: Account::User(from), amount: value, keep_alive: true, result: Ok(()) },
    ]
}

/// The vault valued the shares to give up above all the seller's shares, or
/// the seller withdraws more options than it wrote: the first two calls made
/// after `old_calls` are the two valuations, and they say so.
pub open spec fn share_values_exceed(old_calls: Seq<OptionsCall>, new_calls: Seq<OptionsCall>, amount: u128, p: SellerPosition) -> bool {
    &&& new_calls.len() >= old_calls.len() + 2
    &&& match (new_calls[old_calls.len() as int], new_calls[old_calls.len() + 1int]) {
        (OptionsCall::LpShareValue { result: Ok(value), .. }, OptionsCall::LpShareValue { result: Ok(max_value), .. }) => value > max_value || amount > p.option_amount,
        _ => false,
    }
}

/// Among the calls recorded from history `old` to history `new`, the last one
/// is a transfer that failed.
pub open spec fn last_transfer_failed(old: Seq<OptionsCall>, new: Seq<OptionsCall>) -> bool {
    new.len() > old.len() && (new.last() matches OptionsCall::Transfer { result: Err(_), .. })
}

/// Among the calls recorded from history `old` to history `new`, the last one
/// is a vault deposit that the vault refused.
pub open spec fn last_vault_deposit_failed(old: Seq<OptionsCall>, new: Seq<OptionsCall>) -> bool {
    new.len() > old.len() && (new.last() matches OptionsCall::VaultDeposit { result: Err(_), .. })
}

/// Among the calls recorded from history `old` to history `new`, the last one
/// is a vault withdrawal that the vault refused.
pub open spec fn last_vault_withdraw_failed(old: Seq<OptionsCall>, new: Seq<OptionsCall>) -> bool {
    new.len() > old.len() && (new.last() matches OptionsCall::VaultWithdraw { result: Err(_), .. })
}

/// The calls a seller `from` writing `amount` options makes, the collateral
/// asset's vault being `vault_id`: the shares that depositing the collateral
/// (`collateral_per_option` times `amount`) would mint are asked (`shares`),
/// the collateral is transferred from the seller to the protocol's account,
/// and deposited from there into the vault.
pub open spec fn sell_calls(option: OptionToken, amount: u128, vault_id: u64, from: u64, shares: u128, minted: u128) -> Seq<OptionsCall> {
    let asset = collateral_asset(option);
    let collateral = (collateral_per_option(option) * amount) as u128;
    seq![
        OptionsCall::CalculateLpTokensToMint { vault_id, amount: collateral, result: Ok(shares) },
        OptionsCall::Transfer { asset, from: Account::User(from), to: Account::Protocol(asset), amount: collateral, keep_alive: true, result: Ok(()) },
        OptionsCall::VaultDeposit { vault_id, from: Account::Protocol(asset), amount: collateral, result: Ok(minted) },
    ]
}

/// The calls a buyer `from` purchasing `amount` options `option_id` makes,
/// `stablecoin` being the premium's asset: the options already bought are
/// counted (`issued`), the premium is transferred from the buyer to the
/// protocol's account, and the options are minted into the buyer's account.
pub open spec fn buy_calls(option_id: u128, amount: u128, stablecoin: u128, from: u64, issued: u128) -> Seq<OptionsCall> {
    seq![
        OptionsCall::TotalIssuance { asset: option_id, result: issued },
        OptionsCall::Transfer {
            asset: stablecoin,
            from: Account::User(from),
            to: Account::Protocol(stablecoin),
            amount: (TokenizedOptions::spec_fake_option_price() * amount) as u128,
            keep_alive: true,
            result: Ok(()),
        },
        OptionsCall::Mint { asset: option_id, to: Account::User(from), amount, result: Ok(()) },
    ]
}

/// The last calls of settling an option into `settled`, the collateral asset
/// `asset` being in vault `vault_id`: the vault shares corresponding to the
/// collateral owed to all buyers are asked, and, when there are any, redeemed
/// for the protocol's account.
pub open spec fn settle_withdrawal(calls: Seq<OptionsCall>, settled: OptionToken, vault_id: u64, asset: u128) -> bool {
    let asked = OptionsCall::LpTokensForAddedLiquidity {
        vault_id,
        amount: (settled.exercise_amount * settled.total_issuance_buyer) as u128,
        result: Ok(settled.total_shares_amount),
    };
    if settled.total_shares_amount != 0 {
        &&& calls.len() >= 2
        &&& calls[calls.len() - 2] == asked
        &&& match calls.last() {
            OptionsCall::VaultWithdraw { vault_id: v, to, shares, result } => v == vault_id && to == Account::Protocol(asset) && shares == settled.total_shares_amount && result is Ok,
            _ => false,
        }
    } else {
        calls.len() >= 1 && calls.last() == asked
    }
}

impl TokenizedOptions {
    /// The fixed option premium.
    pub open spec fn spec_fake_option_price() -> int {
        1000int * 1_000_000_000_000int
    }

    /// A seller writes `option_amount` options, depositing the collateral they
    /// require into the vault of the collateral asset and receiving vault
    /// shares. Only in the deposit phase.
    pub fn do_sell_option<R: OptionsRuntime>(&self, rt: &mut OptionsHost<R>, from: u64, option_amount: u128, option_id: u128, option: &mut OptionToken, position: &mut Option<SellerPosition>) -> (r: Result<(), DispatchError>)
        ensures
            r is Ok ==> final(rt).events@ == old(rt).events@.push(OptionsEvent::SellOption { user: from, option_amount, option_id }),
            r is Err ==> final(rt).events@ == old(rt).events@,
            option_amount == 0 ==> r == Err::<(), DispatchError>(DispatchError::Module(Error::CannotPassZeroOptionAmount)),
            option_amount != 0 && old(option).status != Status::Deposit ==> r == Err::<(), DispatchError>(DispatchError::Module(Error::NotIntoDepositWindow)),
            option_amount != 0 && old(option).status == Status::Deposit && collateral_per_option(*old(option)) * option_amount > u128::MAX ==> r == Err::<(), DispatchError>(DispatchError::Arithmetic(ArithmeticError::Overflow)),
            option_amount != 0 && old(option).status == Status::Deposit && collateral_per_option(*old(option)) * option_amount <= u128::MAX && !self.asset_to_vault@.contains_key(collateral_asset(*old(option)))
                ==> r == Err::<(), DispatchError>(DispatchError::Module(Error::AssetVaultDoesNotExists)),
            r is Err ==> *final(option) == *old(option) && *final(position) == *old(position),
            r is Ok ==> exists|shares: u128, minted: u128| sell_spec(*old(option), *old(position), option_amount, shares) == Ok::<(OptionToken, Option<SellerPosition>), DispatchError>((*final(option), *final(position)))
                && final(rt).calls@ == old(rt).calls@ + #[trigger] sell_calls(*old(option), option_amount, self.asset_to_vault@[collateral_asset(*old(option))], from, shares, minted),
            option_amount == 0 || old(option).status != Status::Deposit || collateral_per_option(*old(option)) * option_amount > u128::MAX
                || !self.asset_to_vault@.contains_key(collateral_asset(*old(option))) ==> final(rt).calls@ == old(rt).calls@,
            last_transfer_failed(old(rt).calls@, final(rt).calls@) ==> r == Err::<(), DispatchError>(DispatchError::Module(Error::UserHasNotEnoughFundsToDeposit)),
            last_vault_deposit_failed(old(rt).calls@, final(rt).calls@) ==> r == Err::<(), DispatchError>(DispatchError::Module(Error::VaultDepositNotAllowed)),
    {
        if option_amount == 0 {
            return Err(DispatchError::Module(Error::CannotPassZeroOptionAmount));
        }
        if option.status != Status::Deposit {
            return Err(DispatchError::Module(Error::NotIntoDepositWindow));
        }
        let (asset_id, per_option) = match option.option_type {
            OptionType::Call => (option.base_asset_id, option.quote_asset_strike_price),
            OptionType::Put => (option.quote_asset_id, option.base_asset_strike_price),
        };
        let asset_amount = match per_option.checked_mul(option_amount) {
            Some(v) => v,
            None => return Err(DispatchError::Arithmetic(ArithmeticError::Overflow)),
        };
        let vault_id = match self.asset_id_to_vault_id(asset_id) {
            Some(v) => v,
            None => return Err(DispatchError::Module(Error::AssetVaultDoesNotExists)),
        };
        let shares_amount = rt.vault_calculate_lp_tokens_to_mint(vault_id, asset_amount)?;
        let new_position = match *position {
            Some(p) => {
                let new_option_amount = match p.option_amount.checked_add(option_amount) {
                    Some(v) => v,
                    None => return Err(DispatchError::Arithmetic(ArithmeticError::Overflow)),
                };
                let new_shares_amount = match p.shares_amount.checked_add(shares_amount) {
                    Some(v) => v,
                    None => return Err(DispatchError::Arithmetic(ArithmeticError::Overflow)),
                };
                SellerPosition { option_amount: new_option_amount, shares_amount: new_shares_amount }
            },
            None => SellerPosition { option_amount, shares_amount },
        };
        let protocol_account = Self::account_id(asset_id);
        let paid = rt.transfer(asset_id, Account::User(from), protocol_account, asset_amount, true);
        match paid {
            Ok(u) => {
                assert(paid == Ok::<(), DispatchError>(()));
            },
            Err(_) => return Err(DispatchError::Module(Error::UserHasNotEnoughFundsToDeposit)),
        }
        let ghost k2 = rt.calls@;
        match rt.vault_deposit(vault_id, protocol_account, asset_amount) {
            Ok(_) => {},
            Err(_) => return Err(DispatchError::Module(Error::VaultDepositNotAllowed)),
        }
        let new_total_issuance_seller = match option.total_issuance_seller.checked_add(option_amount) {
            Some(v) => v,
            None => return Err(DispatchError::Arithmetic(ArithmeticError::Overflow)),
        };
        option.total_issuance_seller = new_total_issuance_seller;
        *position = Some(new_position);
        assert(sell_spec(*old(option), *old(position), option_amount, shares_amount) == Ok::<(OptionToken, Option<SellerPosition>), DispatchError>((*option, *position)));
        assert(rt.calls@ =~= old(rt).calls@ + sell_calls(*old(option), option_amount, vault_id, from, shares_amount, rt.calls@.last()->VaultDeposit_result->Ok_0));
        rt.deposit_event(OptionsEvent::SellOption { user: from, option_amount, option_id });
        Ok(())
    }

    /// A seller withdraws `option_amount` of the options it wrote, redeeming the
    /// corresponding share of its vault shares for collateral. Only in the
    /// deposit phase.
    pub fn do_delete_sell_option<R: OptionsRuntime>(&self, rt: &mut OptionsHost<R>, from: u64, option_amount: u128, option_id: u128, option: &mut OptionToken, position: &mut Option<SellerPosition>) -> (r: Result<(), DispatchError>)
        ensures
            r is Ok ==> final(rt).events@ == old(rt).events@.push(OptionsEvent::DeleteSellOption { user: from, option_amount, option_id }),
            r is Err ==> final(rt).events@ == old(rt).events@,
            option_amount == 0 ==> r == Err::<(), DispatchError>(DispatchError::Module(Error::CannotPassZeroOptionAmount)),
            option_amount != 0 && old(option).status != Status::Deposit ==> r == Err::<(), DispatchError>(DispatchError::Module(Error::NotIntoDepositWindow)),
            option_amount != 0 && old(option).status == Status::Deposit && *old(position) is None ==> r == Err::<(), DispatchError>(DispatchError::Module(Error::UserDoesNotHaveSellerPosition)),
            r is Err ==> *final(option) == *old(option) && *final(position) == *old(position),
            r is Ok ==> {
                let p = (*old(position))->Some_0;
                let shares = convert_mul_rational_spec(p.shares_amount, option_amount, p.option_amount, Rounding::Down)->Ok_0;
                &&& *old(position) is Some
                &&& option_amount <= p.option_amount
                &&& convert_mul_rational_spec(p.shares_amount, option_amount, p.option_amount, Rounding::Down) is Ok
                &&& delete_position_spec(p, option_amount, shares) == Ok::<Option<SellerPosition>, DispatchError>(*final(position))
                &&& old(option).total_issuance_seller >= option_amount
                &&& *final(option) == (OptionConfig { total_issuance_seller: (old(option).total_issuance_seller - option_amount) as u128, ..*old(option) })
            },
            r is Ok ==> exists|value: u128, max_value: u128, withdrawn: u128| final(rt).calls@ == old(rt).calls@ + #[trigger] delete_sell_calls(*old(option),
                (*old(position))->Some_0, option_amount, self.asset_to_vault@[collateral_asset(*old(option))], from, value, max_value, withdrawn) && value <= max_value,
            option_amount != 0 && old(option).status == Status::Deposit && *old(position) is Some
                && share_values_exceed(old(rt).calls@, final(rt).calls@, option_amount, (*old(position))->Some_0)
                ==> r == Err::<(), DispatchError>(DispatchError::Module(Error::UserDoesNotHaveEnoughCollateralDeposited)),
            last_vault_withdraw_failed(old(rt).calls@, final(rt).calls@) ==> r == Err::<(), DispatchError>(DispatchError::Module(Error::VaultWithdrawNotAllowed)),
    {
        if option_amount == 0 {
            return Err(DispatchError::Module(Error::CannotPassZeroOptionAmount));
        }
        if option.status != Status::Deposit {
            return Err(DispatchError::Module(Error::NotIntoDepositWindow));
        }
        let seller_position = match *position {
            Some(p) => p,
            None => return Err(DispatchError::Module(Error::UserDoesNotHaveSellerPosition)),
        };
        let asset_id = match option.option_type {
            OptionType::Call => option.base_asset_id,
            OptionType::Put => option.quote_asset_id,
        };
        let vault_id = match self.asset_id_to_vault_id(asset_id) {
            Some(v) => v,
            None => return Err(DispatchError::Module(Error::AssetVaultDoesNotExists)),
        };
        let shares_amount = Self::convert_and_multiply_by_rational(seller_position.shares_amount, option_amount, seller_position.option_amount, Rounding::Down)?;
        let ghost k0 = rt.calls@;
        let asset_amount = rt.vault_lp_share_value(vault_id, shares_amount)?;
        let max_asset_amount = rt.vault_lp_share_value(vault_id, seller_position.shares_amount)?;
        if !(asset_amount <= max_asset_amount && option_amount <= seller_position.option_amount) {
            return Err(DispatchError::Module(Error::UserDoesNotHaveEnoughCollateralDeposited));
        }
        let new_position = if shares_amount != seller_position.shares_amount {
            let new_option_amount = match seller_position.option_amount.checked_sub(option_amount) {
                Some(v) => v,
                None => return Err(DispatchError::Arithmetic(ArithmeticError::Overflow)),
            };
            let new_shares_amount = match seller_position.shares_amount.checked_sub(shares_amount) {
                Some(v) => v,
                None => return Err(DispatchError::Arithmetic(ArithmeticError::Overflow)),
            };
            Some(SellerPosition { option_amount: new_option_amount, shares_amount: new_shares_amount })
        } else {
            None
        };
        let protocol_account = Self::account_id(asset_id);
        match rt.vault_withdraw(vault_id, protocol_account, shares_amount) {
            Ok(_) => {},
            Err(_) => return Err(DispatchError::Module(Error::VaultWithdrawNotAllowed)),
        }
        let ghost k3 = rt.calls@;
        let paid = rt.transfer(asset_id, protocol_account, Account::User(from), asset_amount, true);
        match paid {
            Ok(u) => {
                assert(paid == Ok::<(), DispatchError>(()));
            },
            Err(e) => return Err(e),
        }
        let new_total_issuance_seller = match option.total_issuance_seller.checked_sub(option_amount) {
            Some(v) => v,
            None => return Err(DispatchError::Arithmetic(ArithmeticError::Overflow)),
        };
        option.total_issuance_seller = new_total_issuance_seller;
        assert(rt.calls@ =~= old(rt).calls@ + delete_sell_calls(*old(option), seller_position, option_amount, vault_id, from, asset_amount, max_asset_amount, k3.last()->VaultWithdraw_result->Ok_0));
        *position = new_position;
        rt.deposit_event(OptionsEvent::DeleteSellOption { user: from, option_amount, option_id });
        Ok(())
    }

    /// A buyer purchases `option_amount` options, paying the premium in the
    /// stablecoin and receiving option tokens. Only in the purchase phase, and
    /// only as far as options are offered.
    pub fn do_buy_option<R: OptionsRuntime>(&self, rt: &mut OptionsHost<R>, from: u64, option_amount: u128, option_id: u128, option: &mut OptionToken) -> (r: Result<(), DispatchError>)
        ensures
            r is Ok ==> final(rt).events@ == old(rt).events@.push(OptionsEvent::BuyOption { user: from, option_amount, option_id }),
            r is Err ==> final(rt).events@ == old(rt).events@,
            option_amount == 0 ==> r == Err::<(), DispatchError>(DispatchError::Module(Error::CannotPassZeroOptionAmount)),
            option_amount != 0 && old(option).status != Status::Purchase ==> r == Err::<(), DispatchError>(DispatchError::Module(Error::NotIntoPurchaseWindow)),
            option_amount > old(option).total_issuance_seller && option_amount * Self::spec_fake_option_price() <= u128::MAX ==> r is Err,
            r is Err ==> *final(option) == *old(option),
            r is Ok ==> exists|issued: u128| buy_spec(*old(option), option_amount, issued) == Ok::<OptionToken, DispatchError>(*final(option))
                && final(rt).calls@ == old(rt).calls@ + #[trigger] buy_calls(option_id, option_amount, self.stablecoin_asset_id, from, issued),
            option_amount == 0 || old(option).status != Status::Purchase || Self::spec_fake_option_price() * option_amount > u128::MAX
                ==> final(rt).calls@ == old(rt).calls@,
            option_amount != 0 && old(option).status == Status::Purchase && Self::spec_fake_option_price() * option_amount <= u128::MAX
                ==> final(rt).calls@.len() > old(rt).calls@.len() && (match final(rt).calls@[old(rt).calls@.len() as int] {
                    OptionsCall::TotalIssuance { asset, result: issued } => asset == option_id
                        && (issued + option_amount > u128::MAX ==> r == Err::<(), DispatchError>(DispatchError::Arithmetic(ArithmeticError::Overflow)))
                        && (issued + option_amount <= u128::MAX && issued + option_amount > old(option).total_issuance_seller
                            ==> r == Err::<(), DispatchError>(DispatchError::Module(Error::NotEnoughOptionsForSale))),
                    _ => false,
                }),
            last_transfer_failed(old(rt).calls@, final(rt).calls@) ==> r == Err::<(), DispatchError>(DispatchError::Module(Error::UserHasNotEnoughFundsToDeposit)),
    {
        if option_amount == 0 {
            return Err(DispatchError::Module(Error::CannotPassZeroOptionAmount));
        }
        let stablecoin_id = self.stablecoin_asset_id;
        if option.status != Status::Purchase {
            return Err(DispatchError::Module(Error::NotIntoPurchaseWindow));
        }
        let option_premium = Self::fake_option_price();
        let option_premium = match option_premium.checked_mul(option_amount) {
            Some(v) => v,
            None => return Err(DispatchError::Arithmetic(ArithmeticError::Overflow)),
        };
        let total_issuance_buyer = rt.total_issuance(option_id);
        let new_total_issuance_buyer = match total_issuance_buyer.checked_add(option_amount) {
            Some(v) => v,
            None => return Err(DispatchError::Arithmetic(ArithmeticError::Overflow)),
        };
        if new_total_issuance_buyer > option.total_issuance_seller {
            return Err(DispatchError::Module(Error::NotEnoughOptionsForSale));
        }
        let new_total_premium_paid = match option.total_premium_paid.checked_add(option_premium) {
            Some(v) => v,
            None => return Err(DispatchError::Arithmetic(ArithmeticError::Overflow)),
        };
        let protocol_account = Self::account_id(stablecoin_id);
        let paid = rt.transfer(stablecoin_id, Account::User(from), protocol_account, option_premium, true);
        match paid {
            Ok(u) => {
                assert(paid == Ok::<(), DispatchError>(()));
            },
            Err(_) => return Err(DispatchError::Module(Error::UserHasNotEnoughFundsToDeposit)),
        }
        let minted = rt.mint_into(option_id, Account::User(from), option_amount);
        match minted {
            Ok(u) => {
                assert(minted == Ok::<(), DispatchError>(()));
            },
            Err(e) => return Err(e),
        }
        option.total_premium_paid = new_total_premium_paid;
        assert(buy_spec(*old(option), option_amount, total_issuance_buyer) == Ok::<OptionToken, DispatchError>(*option));
        assert(rt.calls@ =~= old(rt).calls@ + buy_calls(option_id, option_amount, stablecoin_id, from, total_issuance_buyer));
        rt.deposit_event(OptionsEvent::BuyOption { user: from, option_amount, option_id });
        Ok(())
    }

    /// Settles an option at the start of its exercise phase: reads the spot
    /// price, computes the collateral owed per option bought, and withdraws the
    /// vault shares covering it for all buyers.
    pub fn do_settle_option<R: OptionsRuntime>(&self, rt: &mut OptionsHost<R>, option_id: u128, option: &mut OptionToken) -> (r: Result<(), DispatchError>)
        ensures
            r is Err ==> *final(option) == *old(option),
            r is Ok ==> settles_to(*old(option), *final(option)),
            r is Ok ==> final(rt).events@ == old(rt).events@.push(OptionsEvent::SettleOption { option_id }),
            r is Err ==> final(rt).events@ == old(rt).events@,
            r is Ok ==> settle_withdrawal(final(rt).calls@, *final(option), self.asset_to_vault@[collateral_asset(*old(option))], collateral_asset(*old(option))),
            r is Ok ==> exists|n: int| old(rt).calls@.len() < n < final(rt).calls@.len()
                && #[trigger] priced(old(rt).calls@, final(rt).calls@.subrange(0, n), old(option).base_asset_id, Ok::<u128, DispatchError>(final(option).base_asset_spot_price))
                && final(rt).calls@[n] == (OptionsCall::TotalIssuance { asset: option_id, result: final(option).total_issuance_buyer })
                && (old(option).option_type == OptionType::Call && final(option).base_asset_spot_price >= old(option).base_asset_strike_price ==> {
                    let unit = final(rt).calls@[n + 1]->AssetUnit_result->Ok_0;
                    &&& n + 1 < final(rt).calls@.len()
                    &&& final(rt).calls@[n + 1] == (OptionsCall::AssetUnit { asset: old(option).base_asset_id, result: Ok(unit) })
                    &&& call_collateral_spec(final(option).base_asset_spot_price, old(option).base_asset_strike_price, unit) == Ok::<u128, DispatchError>(final(option).exercise_amount)
                }),
    {
        let base_asset_spot_price = Self::get_price(rt, option.base_asset_id)?;
        let ghost k1 = rt.calls@;
        let total_issuance_buyer = rt.total_issuance(option_id);
        let ghost k2 = rt.calls@;
        let (asset_id, collateral_for_option) = match option.option_type {
            OptionType::Call => (option.base_asset_id, Self::call_option_collateral_amount(rt, base_asset_spot_price, option)?),
            OptionType::Put => (option.quote_asset_id, Self::put_option_collateral_amount(base_asset_spot_price, option)?),
        };
        let ghost k3 = rt.calls@;
        let protocol_account = Self::account_id(asset_id);
        let vault_id = match self.asset_id_to_vault_id(asset_id) {
            Some(v) => v,
            None => return Err(DispatchError::Module(Error::AssetVaultDoesNotExists)),
        };
        let total_collateral = match collateral_for_option.checked_mul(total_issuance_buyer) {
            Some(v) => v,
            None => return Err(DispatchError::Arithmetic(ArithmeticError::Overflow)),
        };
        let total_shares_amount = rt.vault_amount_of_lp_token_for_added_liquidity(vault_id, total_collateral)?;
        if total_shares_amount != 0 {
            match rt.vault_withdraw(vault_id, protocol_account, total_shares_amount) {
                Ok(_) => {},
                Err(_) => return Err(DispatchError::Module(Error::VaultWithdrawNotAllowed)),
            }
        }
        option.exercise_amount = collateral_for_option;
        option.base_asset_spot_price = base_asset_spot_price;
        option.total_issuance_buyer = total_issuance_buyer;
        option.total_shares_amount = total_shares_amount;
        assert(*option == settled_option(*old(option), base_asset_spot_price, total_issuance_buyer, collateral_for_option, total_shares_amount));
        proof {
            let n = k1.len() as int;
            assert(rt.calls@.subrange(0, k2.len() as int) =~= k2);
            assert(rt.calls@.subrange(0, n) =~= k1);
            assert(rt.calls@[n] == k2[n]);
            assert(rt.calls@.subrange(0, k3.len() as int) =~= k3);
            if old(option).option_type == OptionType::Call && base_asset_spot_price >= old(option).base_asset_strike_price {
                assert(k3.len() == k2.len() + 1);
                assert(rt.calls@[n + 1] == k3[n + 1]);
            }
            assert(priced(old(rt).calls@, rt.calls@.subrange(0, n), old(option).base_asset_id, Ok::<u128, DispatchError>(option.base_asset_spot_price)));
        }
        rt.deposit_event(OptionsEvent::SettleOption { option_id });
        Ok(())
    }

    /// A buyer exercises `option_amount` options: receives the collateral owed
    /// per option for each if the option is in the money, and the option tokens
    /// are burned. Only in the exercise phase.
    pub fn do_exercise_option<R: OptionsRuntime>(&self, rt: &mut OptionsHost<R>, from: u64, option_amount: u128, option_id: u128, option: &OptionToken) -> (r: Result<(), DispatchError>)
        ensures
            r is Ok ==> final(rt).events@ == old(rt).events@.push(OptionsEvent::ExerciseOption { user: from, option_amount, option_id }),
            r is Err ==> final(rt).events@ == old(rt).events@,
            option_amount == 0 ==> r == Err::<(), DispatchError>(DispatchError::Module(Error::CannotPassZeroOptionAmount)),
            option_amount != 0 && option.status != Status::Exercise ==> r == Err::<(), DispatchError>(DispatchError::Module(Error::NotIntoExerciseWindow)),
            option_amount != 0 && option.status == Status::Exercise && option.exercise_amount * option_amount > u128::MAX ==> r == Err::<(), DispatchError>(DispatchError::Arithmetic(ArithmeticError::Overflow)),
            option_amount == 0 || option.status != Status::Exercise || option.exercise_amount * option_amount > u128::MAX ==> final(rt).calls@ == old(rt).calls@,
            r is Ok ==> final(rt).calls@ == old(rt).calls@ + exercise_calls(*option, option_id, from, option_amount),
            r is Err && final(rt).calls@.len() > old(rt).calls@.len() ==> r == Err::<(), DispatchError>(DispatchError::Module(Error::UserHasNotEnoughOptionTokens)),
    {
        if option_amount == 0 {
            return Err(DispatchError::Module(Error::CannotPassZeroOptionAmount));
        }
        if option.status != Status::Exercise {
            return Err(DispatchError::Module(Error::NotIntoExerciseWindow));
        }
        let asset_id = match option.option_type {
            OptionType::Call => option.base_asset_id,
            OptionType::Put => option.quote_asset_id,
        };
        let protocol_account = Self::account_id(asset_id);
        let total_amount_to_exercise = match option.exercise_amount.checked_mul(option_amount) {
            Some(v) => v,
            None => return Err(DispatchError::Arithmetic(ArithmeticError::Overflow)),
        };
        let ghost k0 = rt.calls@;
        if option.exercise_amount != 0 {
            let paid = rt.transfer(asset_id, protocol_account, Account::User(from), total_amount_to_exercise, true);
            match paid {
                Ok(u) => {
                    assert(paid == Ok::<(), DispatchError>(()));
                },
                Err(_) => return Err(DispatchError::Module(Error::UserHasNotEnoughOptionTokens)),
            }
            assert(rt.calls@.last() == exercise_payment(*option, from, option_amount)[0]);
        }
        let ghost k1 = rt.calls@;
        assert(k1 =~= k0 + exercise_payment(*option, from, option_amount));
        let burned = rt.burn_from(option_id, Account::User(from), option_amount);
        match burned {
            Ok(u) => {
                assert(burned == Ok::<(), DispatchError>(()));
            },
            Err(_) => return Err(DispatchError::Module(Error::UserHasNotEnoughOptionTokens)),
        }
        assert(rt.calls@ =~= old(rt).calls@ + exercise_calls(*option, option_id, from, option_amount));
        rt.deposit_event(OptionsEvent::ExerciseOption { user: from, option_amount, option_id });
        Ok(())
    }

    /// A seller withdraws its collateral and premium after settlement: the
    /// vault shares it received minus its share of the shares set aside for
    /// buyers (capped by the protocol's share balance), and its share of the
    /// premium. The seller position is removed. Only in the exercise phase.
    pub fn do_withdraw_collateral<R: OptionsRuntime>(&self, rt: &mut OptionsHost<R>, from: u64, option_id: u128, option: &OptionToken, position: &mut Option<SellerPosition>) -> (r: Result<(), DispatchError>)
        ensures
            r is Ok ==> final(rt).events@ == old(rt).events@.push(OptionsEvent::WithdrawCollateral { user: from, option_id }),
            r is Err ==> final(rt).events@ == old(rt).events@,
            option.status != Status::Exercise ==> r == Err::<(), DispatchError>(DispatchError::Module(Error::NotIntoExerciseWindow)),
            option.status == Status::Exercise && *old(position) is None ==> r == Err::<(), DispatchError>(DispatchError::Module(Error::UserDoesNotHaveSellerPosition)),
            r is Err ==> *final(position) == *old(position),
            r is Ok ==> *old(position) is Some && withdraw_amounts_spec(*option, (*old(position))->Some_0) is Ok && *final(position) is None,
            r is Ok ==> exists|lp: u128, balance: u128, amount: u128| final(rt).calls@ == old(rt).calls@ + #[trigger] withdraw_calls(*option,
                (*old(position))->Some_0, self.asset_to_vault@[collateral_asset(*option)], self.stablecoin_asset_id, from, lp, balance, amount),
            option.status != Status::Exercise || *old(position) is None ==> final(rt).calls@ == old(rt).calls@,
    {
        if option.status != Status::Exercise {
            return Err(DispatchError::Module(Error::NotIntoExerciseWindow));
        }
        let seller_position = match *position {
            Some(p) => p,
            None => return Err(DispatchError::Module(Error::UserDoesNotHaveSellerPosition)),
        };
        let shares_for_buyers = Self::convert_and_multiply_by_rational(option.total_shares_amount, seller_position.option_amount, option.total_issuance_seller, Rounding::Down)?;
        let user_shares_amount = match seller_position.shares_amount.checked_sub(shares_for_buyers) {
            Some(v) => v,
            None => return Err(DispatchError::Arithmetic(ArithmeticError::Overflow)),
        };
        let asset_id = match option.option_type {
            OptionType::Call => option.base_asset_id,
            OptionType::Put => option.quote_asset_id,
        };
        let protocol_account = Self::account_id(asset_id);
        let vault_id = match self.asset_id_to_vault_id(asset_id) {
            Some(v) => v,
            None => return Err(DispatchError::Module(Error::AssetVaultDoesNotExists)),
        };
        let ghost k0 = rt.calls@;
        let lp_asset_id = rt.vault_lp_asset_id(vault_id)?;
        let lp_token_issuance = rt.balance(lp_asset_id, protocol_account);
        let shares_to_redeem = if user_shares_amount <= lp_token_issuance { user_shares_amount } else { lp_token_issuance };
        let asset_amount = match rt.vault_withdraw(vault_id, protocol_account, shares_to_redeem) {
            Ok(v) => v,
            Err(_) => return Err(DispatchError::Module(Error::VaultWithdrawNotAllowed)),
        };
        let paid = rt.transfer(asset_id, protocol_account, Account::User(from), asset_amount, true);
        match paid {
            Ok(u) => {
                assert(paid == Ok::<(), DispatchError>(()));
            },
            Err(e) => return Err(e),
        }
        let user_premium_amount = Self::convert_and_multiply_by_rational(option.total_premium_paid, seller_position.option_amount, option.total_issuance_seller, Rounding::Down)?;
        let stablecoin_id = self.stablecoin_asset_id;
        let stablecoin_protocol_account = Self::account_id(stablecoin_id);
        let premium_paid = rt.transfer(stablecoin_id, stablecoin_protocol_account, Account::User(from), user_premium_amount, true);
        match premium_paid {
            Ok(u) => {
                assert(premium_paid == Ok::<(), DispatchError>(()));
            },
            Err(e) => return Err(e),
        }
        assert(rt.calls@ =~= old(rt).calls@ + withdraw_calls(*option, seller_position, vault_id, stablecoin_id, from, lp_asset_id, lp_token_issuance, asset_amount));
        *position = None;
        rt.deposit_event(OptionsEvent::WithdrawCollateral { user: from, option_id });
        Ok(())
    }
}

} // verus!
