//! The calls of sellers and buyers on stored options: each looks the option
//! (and the caller's seller position) up, applies the operation, and stores the
//! result only when the operation succeeds.
use crate::tokenized_options::trading::{last_transfer_failed, last_vault_deposit_failed, last_vault_withdraw_failed, buy_calls, buy_spec, delete_position_spec, delete_sell_calls, share_values_exceed, exercise_calls, sell_calls, withdraw_amounts_spec, withdraw_calls};
use crate::tokenized_options::{collateral_asset, collateral_per_option};
use crate::tokenized_options::types::{DispatchError, Error, OptionConfig, OptionsCall, OptionsEvent, OptionsHost, OptionsRuntime, Status};
use crate::tokenized_options::{sell_spec, TokenizedOptions};
use crate::tokenized_options::convert_mul_rational_spec;
use crate::tokenized_options::types::{OptionToken, SellerPosition};
use crate::arith::{ArithmeticError, Rounding};
use vstd::prelude::*;

verus! {

/// `new` differs from `old` at most in option `option_id` and in the seller
/// position of `from` for that option.
pub open spec fn call_frame(old: TokenizedOptions, new: TokenizedOptions, option_id: u128, from: u64) -> bool {
    &&& new.options@.dom() =~= old.options@.dom()
    &&& forall|o: u128| o != option_id && #[trigger] old.options@.contains_key(o) ==> new.options@[o] == old.options@[o]
    &&& forall|o: u128, a: u64| !(o == option_id && a == from) ==> #[trigger] new.spec_seller(o, a) == old.spec_seller(o, a)
    &&& new.asset_to_vault == old.asset_to_vault
    &&& new.option_keys == old.option_keys
    &&& new.scheduler == old.scheduler
    &&& new.stablecoin_asset_id == old.stablecoin_asset_id
}

impl TokenizedOptions {
    /// Account `from` writes `option_amount` options of option `option_id`,
    /// depositing the collateral they require. Only in the option's deposit
    /// phase.
    pub fn sell_option<R: OptionsRuntime>(&mut self, rt: &mut OptionsHost<R>, from: u64, option_amount: u128, option_id: u128) -> (r: Result<(), DispatchError>)
        ensures
            r is Ok ==> final(rt).events@ == old(rt).events@.push(OptionsEvent::SellOption { user: from, option_amount, option_id }),
            r is Err ==> final(rt).events@ == old(rt).events@,
            !old(self).options@.contains_key(option_id) ==> r == Err::<(), DispatchError>(DispatchError::Module(Error::OptionDoesNotExists)),
            old(self).options@.contains_key(option_id) && option_amount == 0 ==> r == Err::<(), DispatchError>(DispatchError::Module(Error::CannotPassZeroOptionAmount)),
            old(self).options@.contains_key(option_id) && option_amount != 0 && old(self).options@[option_id].status != Status::Deposit
                ==> r == Err::<(), DispatchError>(DispatchError::Module(Error::NotIntoDepositWindow)),
            old(self).options@.contains_key(option_id) && option_amount != 0 && old(self).options@[option_id].status == Status::Deposit
                && collateral_per_option(old(self).options@[option_id]) * option_amount > u128::MAX
                ==> r == Err::<(), DispatchError>(DispatchError::Arithmetic(ArithmeticError::Overflow)),
            old(self).options@.contains_key(option_id) && option_amount != 0 && old(self).options@[option_id].status == Status::Deposit
                && collateral_per_option(old(self).options@[option_id]) * option_amount <= u128::MAX
                && !old(self).asset_to_vault@.contains_key(collateral_asset(old(self).options@[option_id]))
                ==> r == Err::<(), DispatchError>(DispatchError::Module(Error::AssetVaultDoesNotExists)),
            r is Err ==> *final(self) == *old(self),
            r is Ok ==> old(self).options@.contains_key(option_id) && exists|shares: u128| sell_spec(old(self).options@[option_id], old(self).spec_seller(option_id, from), option_amount, shares)
                == Ok::<(OptionToken, Option<SellerPosition>), DispatchError>((final(self).options@[option_id], final(self).spec_seller(option_id, from))),
            r is Ok ==> exists|shares: u128, minted: u128| final(rt).calls@ == old(rt).calls@ + #[trigger] sell_calls(old(self).options@[option_id], option_amount,
                old(self).asset_to_vault@[collateral_asset(old(self).options@[option_id])], from, shares, minted),
            !old(self).options@.contains_key(option_id) ==> final(rt).calls@ == old(rt).calls@,
            call_frame(*old(self), *final(self), option_id, from),
            last_transfer_failed(old(rt).calls@, final(rt).calls@) ==> r == Err::<(), DispatchError>(DispatchError::Module(Error::UserHasNotEnoughFundsToDeposit)),
            last_vault_deposit_failed(old(rt).calls@, final(rt).calls@) ==> r == Err::<(), DispatchError>(DispatchError::Module(Error::VaultDepositNotAllowed)),
    {
        let mut option = match self.option_id_to_option(option_id) {
            Some(o) => o,
            None => return Err(DispatchError::Module(Error::OptionDoesNotExists)),
        };
        let mut position = self.get_seller(option_id, from);
        self.do_sell_option(rt, from, option_amount, option_id, &mut option, &mut position)?;
        self.options.insert(option_id, option);
        self.set_seller(option_id, from, position);
        Ok(())
    }

    /// Account `from` withdraws `option_amount` of the options of option
    /// `option_id` it wrote, with the corresponding collateral. Only in the
    /// option's deposit phase.
    pub fn delete_sell_option<R: OptionsRuntime>(&mut self, rt: &mut OptionsHost<R>, from: u64, option_amount: u128, option_id: u128) -> (r: Result<(), DispatchError>)
        ensures
            r is Ok ==> final(rt).events@ == old(rt).events@.push(OptionsEvent::DeleteSellOption { user: from, option_amount, option_id }),
            r is Err ==> final(rt).events@ == old(rt).events@,
            !old(self).options@.contains_key(option_id) ==> r == Err::<(), DispatchError>(DispatchError::Module(Error::OptionDoesNotExists)),
            old(self).options@.contains_key(option_id) && option_amount == 0 ==> r == Err::<(), DispatchError>(DispatchError::Module(Error::CannotPassZeroOptionAmount)),
            old(self).options@.contains_key(option_id) && option_amount != 0 && old(self).options@[option_id].status != Status::Deposit
                ==> r == Err::<(), DispatchError>(DispatchError::Module(Error::NotIntoDepositWindow)),
            old(self).options@.contains_key(option_id) && option_amount != 0 && old(self).options@[option_id].status == Status::Deposit && old(self).spec_seller(option_id, from) is None
                ==> r == Err::<(), DispatchError>(DispatchError::Module(Error::UserDoesNotHaveSellerPosition)),
            r is Err ==> *final(self) == *old(self),
            r is Ok ==> {
                let option = old(self).options@[option_id];
                let p = old(self).spec_seller(option_id, from)->Some_0;
                let shares = convert_mul_rational_spec(p.shares_amount, option_amount, p.option_amount, Rounding::Down)->Ok_0;
                &&& old(self).options@.contains_key(option_id)
                &&& old(self).spec_seller(option_id, from) is Some
                &&& option_amount <= p.option_amount
                &&& convert_mul_rational_spec(p.shares_amount, option_amount, p.option_amount, Rounding::Down) is Ok
                &&& delete_position_spec(p, option_amount, shares) == Ok::<Option<SellerPosition>, DispatchError>(final(self).spec_seller(option_id, from))
                &&& option.total_issuance_seller >= option_amount
                &&& final(self).options@[option_id] == (OptionConfig { total_issuance_seller: (option.total_issuance_seller - option_amount) as u128, ..option })
            },
            r is Ok ==> exists|value: u128, max_value: u128, withdrawn: u128| final(rt).calls@ == old(rt).calls@ + #[trigger] delete_sell_calls(old(self).options@[option_id],
                old(self).spec_seller(option_id, from)->Some_0, option_amount, old(self).asset_to_vault@[collateral_asset(old(self).options@[option_id])], from, value, max_value, withdrawn)
                && value <= max_value,
            old(self).options@.contains_key(option_id) && option_amount != 0 && old(self).options@[option_id].status == Status::Deposit
                && old(self).spec_seller(option_id, from) is Some
                && share_values_exceed(old(rt).calls@, final(rt).calls@, option_amount, old(self).spec_seller(option_id, from)->Some_0)
                ==> r == Err::<(), DispatchError>(DispatchError::Module(Error::UserDoesNotHaveEnoughCollateralDeposited)),
            !old(self).options@.contains_key(option_id) ==> final(rt).calls@ == old(rt).calls@,
            call_frame(*old(self), *final(self), option_id, from),
            last_vault_withdraw_failed(old(rt).calls@, final(rt).calls@) ==> r == Err::<(), DispatchError>(DispatchError::Module(Error::VaultWithdrawNotAllowed)),
    {
        let mut option = match self.option_id_to_option(option_id) {
            Some(o) => o,
            None => return Err(DispatchError::Module(Error::OptionDoesNotExists)),
        };
        let mut position = self.get_seller(option_id, from);
        self.do_delete_sell_option(rt, from, option_amount, option_id, &mut option, &mut position)?;
        self.options.insert(option_id, option);
        self.set_seller(option_id, from, position);
        Ok(())
    }

    /// Account `from` buys `option_amount` options of option `option_id`,
    /// paying the premium. Only in the option's purchase phase.
    pub fn buy_option<R: OptionsRuntime>(&mut self, rt: &mut OptionsHost<R>, from: u64, option_amount: u128, option_id: u128) -> (r: Result<(), DispatchError>)
        ensures
            r is Ok ==> final(rt).events@ == old(rt).events@.push(OptionsEvent::BuyOption { user: from, option_amount, option_id }),
            r is Err ==> final(rt).events@ == old(rt).events@,
            !old(self).options@.contains_key(option_id) ==> r == Err::<(), DispatchError>(DispatchError::Module(Error::OptionDoesNotExists)),
            old(self).options@.contains_key(option_id) && option_amount == 0 ==> r == Err::<(), DispatchError>(DispatchError::Module(Error::CannotPassZeroOptionAmount)),
            old(self).options@.contains_key(option_id) && option_amount != 0 && old(self).options@[option_id].status != Status::Purchase
                ==> r == Err::<(), DispatchError>(DispatchError::Module(Error::NotIntoPurchaseWindow)),
            r is Err ==> *final(self) == *old(self),
            r is Ok ==> old(self).options@.contains_key(option_id) && exists|issued: u128| buy_spec(old(self).options@[option_id], option_amount, issued) == Ok::<OptionToken, DispatchError>(final(self).options@[option_id])
                && final(rt).calls@ == old(rt).calls@ + #[trigger] buy_calls(option_id, option_amount, old(self).stablecoin_asset_id, from, issued),
            !old(self).options@.contains_key(option_id) ==> final(rt).calls@ == old(rt).calls@,
            final(self).sellers == old(self).sellers,
            call_frame(*old(self), *final(self), option_id, from),
            last_transfer_failed(old(rt).calls@, final(rt).calls@) ==> r == Err::<(), DispatchError>(DispatchError::Module(Error::UserHasNotEnoughFundsToDeposit)),
    {
        let mut option = match self.option_id_to_option(option_id) {
            Some(o) => o,
            None => return Err(DispatchError::Module(Error::OptionDoesNotExists)),
        };
        self.do_buy_option(rt, from, option_amount, option_id, &mut option)?;
        self.options.insert(option_id, option);
        Ok(())
    }

    /// Account `from` exercises `option_amount` options of option `option_id`.
    /// Only in the option's exercise phase. The storage is not changed.
    pub fn exercise_option<R: OptionsRuntime>(&self, rt: &mut OptionsHost<R>, from: u64, option_amount: u128, option_id: u128) -> (r: Result<(), DispatchError>)
        ensures
            r is Ok ==> final(rt).events@ == old(rt).events@.push(OptionsEvent::ExerciseOption { user: from, option_amount, option_id }),
            r is Err ==> final(rt).events@ == old(rt).events@,
            !self.options@.contains_key(option_id) ==> r == Err::<(), DispatchError>(DispatchError::Module(Error::OptionDoesNotExists)),
            self.options@.contains_key(option_id) && option_amount == 0 ==> r == Err::<(), DispatchError>(DispatchError::Module(Error::CannotPassZeroOptionAmount)),
            self.options@.contains_key(option_id) && option_amount != 0 && self.options@[option_id].status != Status::Exercise
                ==> r == Err::<(), DispatchError>(DispatchError::Module(Error::NotIntoExerciseWindow)),
            self.options@.contains_key(option_id) && option_amount != 0 && self.options@[option_id].status == Status::Exercise
                && self.options@[option_id].exercise_amount * option_amount > u128::MAX
                ==> r == Err::<(), DispatchError>(DispatchError::Arithmetic(crate::arith::ArithmeticError::Overflow)),
            r is Ok ==> final(rt).calls@ == old(rt).calls@ + exercise_calls(self.options@[option_id], option_id, from, option_amount),
            !self.options@.contains_key(option_id) ==> final(rt).calls@ == old(rt).calls@,
            r is Err && final(rt).calls@.len() > old(rt).calls@.len() ==> r == Err::<(), DispatchError>(DispatchError::Module(Error::UserHasNotEnoughOptionTokens)),
    {
        match self.option_id_to_option(option_id) {
            Some(option) => {
                self.do_exercise_option(rt, from, option_amount, option_id, &option)?;
                Ok(())
            },
            None => Err(DispatchError::Module(Error::OptionDoesNotExists)),
        }
    }

    /// Account `from` withdraws its collateral and its share of the premium for
    /// option `option_id`, and its seller position is removed. Only in the
    /// option's exercise phase.
    pub fn withdraw_collateral<R: OptionsRuntime>(&mut self, rt: &mut OptionsHost<R>, from: u64, option_id: u128) -> (r: Result<(), DispatchError>)
        ensures
            r is Ok ==> final(rt).events@ == old(rt).events@.push(OptionsEvent::WithdrawCollateral { user: from, option_id }),
            r is Err ==> final(rt).events@ == old(rt).events@,
            !old(self).options@.contains_key(option_id) ==> r == Err::<(), DispatchError>(DispatchError::Module(Error::OptionDoesNotExists)),
            old(self).options@.contains_key(option_id) && old(self).options@[option_id].status != Status::Exercise
                ==> r == Err::<(), DispatchError>(DispatchError::Module(Error::NotIntoExerciseWindow)),
            old(self).options@.contains_key(option_id) && old(self).options@[option_id].status == Status::Exercise && old(self).spec_seller(option_id, from) is None
                ==> r == Err::<(), DispatchError>(DispatchError::Module(Error::UserDoesNotHaveSellerPosition)),
            r is Err ==> *final(self) == *old(self),
            r is Ok ==> old(self).options@.contains_key(option_id) && old(self).spec_seller(option_id, from) is Some
                && withdraw_amounts_spec(old(self).options@[option_id], old(self).spec_seller(option_id, from)->Some_0) is Ok
                && final(self).spec_seller(option_id, from) is None,
            r is Ok ==> exists|lp: u128, balance: u128, amount: u128| final(rt).calls@ == old(rt).calls@ + #[trigger] withdraw_calls(old(self).options@[option_id],
                old(self).spec_seller(option_id, from)->Some_0, old(self).asset_to_vault@[collateral_asset(old(self).options@[option_id])], old(self).stablecoin_asset_id,
                from, lp, balance, amount),
            !old(self).options@.contains_key(option_id) ==> final(rt).calls@ == old(rt).calls@,
            final(self).options == old(self).options,
            call_frame(*old(self), *final(self), option_id, from),
    {
        let option = match self.option_id_to_option(option_id) {
            Some(o) => o,
            None => return Err(DispatchError::Module(Error::OptionDoesNotExists)),
        };
        let mut position = self.get_seller(option_id, from);
        self.do_withdraw_collateral(rt, from, option_id, &option, &mut position)?;
        self.set_seller(option_id, from, position);
        Ok(())
    }
}

} // verus!
