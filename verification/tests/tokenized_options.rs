use escher::arith::{ArithmeticError, Rounding};
use escher::tokenized_options::types::{
    Account, DispatchError, Epoch, Error, ExerciseType, OptionConfig, OptionType, OptionsEvent, OptionsHost, OptionsRuntime,
    SellerPosition, Status, VaultConfig,
};
use escher::origin::Origin;
use escher::tokenized_options::TokenizedOptions;
use sp_arithmetic::helpers_128bit::multiply_by_rational_with_rounding;
use std::collections::HashMap;

// -------------------------------------------------------------------------------------------------
//                                     Assets, accounts, mock runtime
// -------------------------------------------------------------------------------------------------

const UNIT: u128 = 1_000_000_000_000;

const PICA: u128 = 1;
const BTC: u128 = 2000;
const USDC: u128 = 131;

const ADMIN: u64 = 0;
const ALICE: u64 = 1;
const BOB: u64 = 2;
const CHARLIE: u64 = 3;
const DAVE: u64 = 4;

fn account_id_from_u64(i: u64) -> u64 {
    1000 + i
}

const BALANCE_TOO_LOW: u32 = 1;
const DEPOSITS_STOPPED: u32 = 2;
const WITHDRAWALS_STOPPED: u32 = 3;
const NO_VAULT: u32 = 4;
const NO_PRICE: u32 = 5;

#[derive(Clone, Copy, PartialEq, Eq, Hash, Debug)]
enum Holder {
    User(u64),
    Protocol(u128),
    Vault(u64),
}

fn holder(a: Account) -> Holder {
    match a {
        Account::User(u) => Holder::User(u),
        Account::Protocol(p) => Holder::Protocol(p),
    }
}

struct MockVault {
    asset: u128,
    lp: u128,
    deposits: bool,
    withdrawals: bool,
}

/// Asset ledger, vaults with shares minted in proportion to the assets they
/// hold, a currency factory and a price oracle.
struct Mock {
    balances: HashMap<(u128, Holder), u128>,
    issuance: HashMap<u128, u128>,
    vaults: Vec<MockVault>,
    prices: HashMap<u128, u128>,
    next_asset: u128,
    events: Vec<OptionsEvent>,
}

fn mul_div(a: u128, b: u128, c: u128) -> Result<u128, DispatchError> {
    multiply_by_rational_with_rounding(a, b, c, sp_arithmetic::Rounding::Down)
        .ok_or(DispatchError::Arithmetic(ArithmeticError::Overflow))
}

impl Mock {
    fn new() -> Mock {
        Mock {
            balances: HashMap::new(),
            issuance: HashMap::new(),
            vaults: Vec::new(),
            prices: HashMap::new(),
            next_asset: 100_000,
            events: Vec::new(),
        }
    }

    fn bal(&self, asset: u128, h: Holder) -> u128 {
        *self.balances.get(&(asset, h)).unwrap_or(&0)
    }

    fn mint(&mut self, asset: u128, h: Holder, amount: u128) -> Result<(), DispatchError> {
        let b = self.bal(asset, h).checked_add(amount).ok_or(DispatchError::Arithmetic(ArithmeticError::Overflow))?;
        let i = self.total(asset).checked_add(amount).ok_or(DispatchError::Arithmetic(ArithmeticError::Overflow))?;
        self.balances.insert((asset, h), b);
        self.issuance.insert(asset, i);
        Ok(())
    }

    fn burn(&mut self, asset: u128, h: Holder, amount: u128) -> Result<(), DispatchError> {
        let b = self.bal(asset, h);
        if b < amount {
            return Err(DispatchError::External(BALANCE_TOO_LOW));
        }
        self.balances.insert((asset, h), b - amount);
        let i = self.total(asset);
        self.issuance.insert(asset, i - amount);
        Ok(())
    }

    fn total(&self, asset: u128) -> u128 {
        *self.issuance.get(&asset).unwrap_or(&0)
    }

    fn move_asset(&mut self, asset: u128, from: Holder, to: Holder, amount: u128) -> Result<(), DispatchError> {
        let b = self.bal(asset, from);
        if b < amount {
            return Err(DispatchError::External(BALANCE_TOO_LOW));
        }
        self.balances.insert((asset, from), b - amount);
        let t = self.bal(asset, to);
        self.balances.insert((asset, to), t + amount);
        Ok(())
    }

    fn vault(&self, vault_id: u64) -> Result<&MockVault, DispatchError> {
        self.vaults.get(vault_id as usize).ok_or(DispatchError::External(NO_VAULT))
    }

    fn aum(&self, vault_id: u64) -> u128 {
        let v = &self.vaults[vault_id as usize];
        self.bal(v.asset, Holder::Vault(vault_id))
    }

    fn shares_for(&self, vault_id: u64, amount: u128) -> Result<u128, DispatchError> {
        let v = self.vault(vault_id)?;
        let aum = self.aum(vault_id);
        let issued = self.total(v.lp);
        if aum == 0 || issued == 0 {
            Ok(amount)
        } else {
            mul_div(amount, issued, aum)
        }
    }

    fn share_value(&self, vault_id: u64, shares: u128) -> Result<u128, DispatchError> {
        let v = self.vault(vault_id)?;
        let issued = self.total(v.lp);
        if issued == 0 {
            Ok(0)
        } else {
            mul_div(shares, self.aum(vault_id), issued)
        }
    }
}

impl OptionsRuntime for Mock {
    fn deposit_event(&mut self, event: OptionsEvent) {
        self.events.push(event);
    }

    fn vault_create(&mut self, config: &VaultConfig, _manager: Account) -> Result<u64, DispatchError> {
        let lp = self.currency_create()?;
        self.vaults.push(MockVault { asset: config.asset_id, lp, deposits: true, withdrawals: true });
        Ok((self.vaults.len() - 1) as u64)
    }

    fn vault_calculate_lp_tokens_to_mint(&self, vault_id: u64, amount: u128) -> Result<u128, DispatchError> {
        self.shares_for(vault_id, amount)
    }

    fn vault_deposit(&mut self, vault_id: u64, from: Account, amount: u128) -> Result<u128, DispatchError> {
        if !self.vault(vault_id)?.deposits {
            return Err(DispatchError::External(DEPOSITS_STOPPED));
        }
        let shares = self.shares_for(vault_id, amount)?;
        let (asset, lp) = (self.vaults[vault_id as usize].asset, self.vaults[vault_id as usize].lp);
        self.move_asset(asset, holder(from), Holder::Vault(vault_id), amount)?;
        self.mint(lp, holder(from), shares)?;
        Ok(shares)
    }

    fn vault_lp_share_value(&self, vault_id: u64, shares: u128) -> Result<u128, DispatchError> {
        self.share_value(vault_id, shares)
    }

    fn vault_withdraw(&mut self, vault_id: u64, to: Account, shares: u128) -> Result<u128, DispatchError> {
        if !self.vault(vault_id)?.withdrawals {
            return Err(DispatchError::External(WITHDRAWALS_STOPPED));
        }
        let value = self.share_value(vault_id, shares)?;
        let (asset, lp) = (self.vaults[vault_id as usize].asset, self.vaults[vault_id as usize].lp);
        self.burn(lp, holder(to), shares)?;
        self.move_asset(asset, Holder::Vault(vault_id), holder(to), value)?;
        Ok(value)
    }

    fn vault_amount_of_lp_token_for_added_liquidity(&self, vault_id: u64, amount: u128) -> Result<u128, DispatchError> {
        // The shares whose value covers `amount`, rounded up.
        let v = self.vault(vault_id)?;
        let aum = self.aum(vault_id);
        let issued = self.total(v.lp);
        if aum == 0 || issued == 0 {
            Ok(amount)
        } else {
            multiply_by_rational_with_rounding(amount, issued, aum, sp_arithmetic::Rounding::Up)
                .ok_or(DispatchError::Arithmetic(ArithmeticError::Overflow))
        }
    }

    fn vault_lp_asset_id(&self, vault_id: u64) -> Result<u128, DispatchError> {
        Ok(self.vault(vault_id)?.lp)
    }

    fn transfer(&mut self, asset: u128, from: Account, to: Account, amount: u128, _keep_alive: bool) -> Result<(), DispatchError> {
        self.move_asset(asset, holder(from), holder(to), amount)
    }

    fn mint_into(&mut self, asset: u128, to: Account, amount: u128) -> Result<(), DispatchError> {
        self.mint(asset, holder(to), amount)
    }

    fn burn_from(&mut self, asset: u128, from: Account, amount: u128) -> Result<(), DispatchError> {
        self.burn(asset, holder(from), amount)
    }

    fn total_issuance(&self, asset: u128) -> u128 {
        self.total(asset)
    }

    fn balance(&self, asset: u128, who: Account) -> u128 {
        self.bal(asset, holder(who))
    }

    fn currency_create(&mut self) -> Result<u128, DispatchError> {
        self.next_asset += 1;
        Ok(self.next_asset)
    }

    fn asset_unit(&self, _asset: u128) -> Result<u128, DispatchError> {
        Ok(UNIT)
    }

    fn oracle_is_supported(&self, asset: u128) -> Result<bool, DispatchError> {
        Ok(self.prices.contains_key(&asset))
    }

    fn oracle_price(&self, asset: u128, amount: u128) -> Result<u128, DispatchError> {
        let p = *self.prices.get(&asset).ok_or(DispatchError::External(NO_PRICE))?;
        mul_div(p, amount, UNIT)
    }
}

// -------------------------------------------------------------------------------------------------
//                                     Environment and builders
// -------------------------------------------------------------------------------------------------

struct Env {
    rt: OptionsHost<Mock>,
    to: TokenizedOptions,
    block: u64,
}

fn build(balances: &[(u64, u128, u128)]) -> Env {
    let mut rt = Mock::new();
    for &(who, asset, amount) in balances {
        rt.mint(asset, Holder::User(who), amount).unwrap();
    }
    let mut env = Env { rt: OptionsHost::new(rt), to: TokenizedOptions::new(USDC, Some(ADMIN)), block: 0 };
    env.run_to_block(1);
    env
}

fn vault_config(asset_id: u128) -> VaultConfig {
    VaultConfig { asset_id, reserved: 1_000_000_000_000_000_000, strategies: Vec::new() }
}

fn default_epoch() -> Epoch {
    Epoch { deposit: 0u64, purchase: 2000u64, exercise: 5000u64, end: 9000u64 }
}

fn option_config(option_type: OptionType, base_asset_strike_price: u128) -> OptionConfig {
    OptionConfig {
        base_asset_id: BTC,
        quote_asset_id: USDC,
        base_asset_strike_price,
        quote_asset_strike_price: UNIT,
        option_type,
        expiring_date: 9000u64,
        exercise_type: ExerciseType::European,
        epoch: default_epoch(),
        status: Status::NotStarted,
        base_asset_amount_per_option: UNIT,
        quote_asset_amount_per_option: UNIT,
        total_issuance_seller: 0,
        total_premium_paid: 0,
        exercise_amount: 0,
        base_asset_spot_price: 0,
        total_issuance_buyer: 0,
        total_shares_amount: 0,
    }
}

fn default_option() -> OptionConfig {
    option_config(OptionType::Call, 50000u128 * UNIT)
}

impl Env {
    fn run_to_block(&mut self, n: u64) {
        while self.block < n {
            self.block += 1;
            // The scheduler sees the time of the previous block, in millis.
            let now = self.block.saturating_sub(1) * 1000;
            self.to.on_initialize(&mut self.rt, now).unwrap();
        }
    }

    fn initialize_oracle_prices(mut self) -> Env {
        self.rt.runtime.prices.insert(PICA, 10u128.pow(9));
        self.rt.runtime.prices.insert(USDC, UNIT);
        self.rt.runtime.prices.insert(BTC, 50_000 * UNIT);
        self
    }

    fn initialize_all_vaults(mut self) -> Env {
        self.to.create_asset_vault(&mut self.rt, Origin::Signed(ADMIN), vault_config(BTC)).unwrap();
        self.to.create_asset_vault(&mut self.rt, Origin::Signed(ADMIN), vault_config(USDC)).unwrap();
        self
    }

    fn initialize_all_options(mut self) -> Env {
        for (t, strike) in [
            (OptionType::Call, 50000u128 * UNIT),
            (OptionType::Put, 50000u128 * UNIT),
            (OptionType::Call, 55000u128 * UNIT),
            (OptionType::Put, 55000u128 * UNIT),
        ] {
            self.to.create_option(&mut self.rt, Origin::Signed(ADMIN), option_config(t, strike)).unwrap();
        }
        self.run_to_block(2);
        self
    }

    fn set_oracle_price(&mut self, asset: u128, price: u128) {
        self.rt.runtime.prices.insert(asset, price);
    }

    fn option_id(&self, c: &OptionConfig) -> u128 {
        let key = TokenizedOptions::generate_id(
            c.base_asset_id,
            c.quote_asset_id,
            c.base_asset_strike_price,
            c.quote_asset_strike_price,
            c.option_type,
            c.expiring_date,
            c.exercise_type,
        );
        self.to.options_hash(&key).unwrap()
    }

    fn option(&self, option_id: u128) -> OptionConfig {
        self.to.option_id_to_option(option_id).unwrap()
    }

    fn balance(&self, asset: u128, who: u64) -> u128 {
        self.rt.runtime.bal(asset, Holder::User(who))
    }

    fn protocol_balance(&self, asset: u128) -> u128 {
        self.rt.runtime.bal(asset, Holder::Protocol(asset))
    }

    fn vault_id(&self, asset: u128) -> u64 {
        self.to.asset_id_to_vault_id(asset).unwrap()
    }

    fn vault_balance(&self, asset: u128) -> u128 {
        self.rt.runtime.bal(asset, Holder::Vault(self.vault_id(asset)))
    }

    fn position(&self, option_id: u128, who: u64) -> SellerPosition {
        self.to.get_seller(option_id, who).unwrap_or(SellerPosition { option_amount: 0, shares_amount: 0 })
    }

    fn sell(&mut self, who: u64, amount: u128, option_id: u128) -> Result<(), DispatchError> {
        self.to.sell_option(&mut self.rt, who, amount, option_id)
    }

    fn delete_sell(&mut self, who: u64, amount: u128, option_id: u128) -> Result<(), DispatchError> {
        self.to.delete_sell_option(&mut self.rt, who, amount, option_id)
    }

    fn buy(&mut self, who: u64, amount: u128, option_id: u128) -> Result<(), DispatchError> {
        self.to.buy_option(&mut self.rt, who, amount, option_id)
    }

    fn exercise(&mut self, who: u64, amount: u128, option_id: u128) -> Result<(), DispatchError> {
        self.to.exercise_option(&mut self.rt, who, amount, option_id)
    }

    fn withdraw(&mut self, who: u64, option_id: u128) -> Result<(), DispatchError> {
        self.to.withdraw_collateral(&mut self.rt, who, option_id)
    }

    fn collateral_asset(&self, option: &OptionConfig) -> u128 {
        match option.option_type {
            OptionType::Call => option.base_asset_id,
            OptionType::Put => option.quote_asset_id,
        }
    }

    fn sell_option_success_checks(&mut self, option_id: u128, option_amount: u128, who: u64) {
        let option = self.option(option_id);
        let (asset_id, asset_amount) = match option.option_type {
            OptionType::Call => (option.base_asset_id, option.quote_asset_strike_price),
            OptionType::Put => (option.quote_asset_id, option.base_asset_strike_price),
        };
        let vault_id = self.vault_id(asset_id);
        let lp_token_id = self.rt.runtime.vault_lp_asset_id(vault_id).unwrap();
        let initial_issuance_seller = option.total_issuance_seller;
        let initial_user_balance = self.balance(asset_id, who);
        let initial_vault_balance = self.vault_balance(asset_id);
        let initial_user_position = self.position(option_id, who);
        let asset_amount = asset_amount * option_amount;
        let shares_amount = self.rt.runtime.vault_calculate_lp_tokens_to_mint(vault_id, asset_amount).unwrap();

        assert_eq!(self.sell(who, option_amount, option_id), Ok(()));
        assert_eq!(self.rt.runtime.events.last(), Some(&OptionsEvent::SellOption { user: who, option_amount, option_id }));

        assert!(self.to.get_seller(option_id, who).is_some());
        assert_eq!(self.balance(asset_id, who), initial_user_balance - asset_amount);
        assert_eq!(self.vault_balance(asset_id), initial_vault_balance + asset_amount);
        assert_eq!(self.protocol_balance_of(lp_token_id, asset_id), self.rt.runtime.total_issuance(lp_token_id));
        let updated = self.position(option_id, who);
        assert_eq!(updated.option_amount, initial_user_position.option_amount + option_amount);
        assert_eq!(updated.shares_amount, initial_user_position.shares_amount + shares_amount);
        assert_eq!(self.option(option_id).total_issuance_seller, initial_issuance_seller + option_amount);
    }

    fn protocol_balance_of(&self, asset: u128, protocol: u128) -> u128 {
        self.rt.runtime.bal(asset, Holder::Protocol(protocol))
    }

    fn delete_sell_option_success_checks(&mut self, option_id: u128, option_amount: u128, who: u64) {
        let option = self.option(option_id);
        let asset_id = self.collateral_asset(&option);
        let vault_id = self.vault_id(asset_id);
        let lp_token_id = self.rt.runtime.vault_lp_asset_id(vault_id).unwrap();
        let initial_issuance_seller = option.total_issuance_seller;
        let initial_user_balance = self.balance(asset_id, who);
        let initial_vault_balance = self.vault_balance(asset_id);
        let initial_user_position = self.position(option_id, who);
        let shares_amount = TokenizedOptions::convert_and_multiply_by_rational(
            initial_user_position.shares_amount,
            option_amount,
            initial_user_position.option_amount,
            Rounding::Down,
        )
        .unwrap();
        let asset_amount = self.rt.runtime.vault_lp_share_value(vault_id, shares_amount).unwrap();

        assert_eq!(self.delete_sell(who, option_amount, option_id), Ok(()));
        assert_eq!(self.rt.runtime.events.last(), Some(&OptionsEvent::DeleteSellOption { user: who, option_amount, option_id }));

        if shares_amount == initial_user_position.shares_amount {
            assert!(self.to.get_seller(option_id, who).is_none());
        } else {
            assert!(self.to.get_seller(option_id, who).is_some());
        }
        assert_eq!(self.balance(asset_id, who), initial_user_balance + asset_amount);
        assert_eq!(self.vault_balance(asset_id), initial_vault_balance - asset_amount);
        assert_eq!(self.protocol_balance_of(lp_token_id, asset_id), self.rt.runtime.total_issuance(lp_token_id));
        let updated = self.position(option_id, who);
        assert_eq!(updated.option_amount, initial_user_position.option_amount - option_amount);
        assert_eq!(updated.shares_amount, initial_user_position.shares_amount - shares_amount);
        assert_eq!(self.option(option_id).total_issuance_seller, initial_issuance_seller - option_amount);
    }

    fn buy_option_success_checks(&mut self, option_id: u128, option_amount: u128, who: u64) {
        let option = self.option(option_id);
        let asset_id = USDC;
        let option_premium = TokenizedOptions::fake_option_price() * option_amount;
        let initial_issuance_buyer = self.rt.runtime.total_issuance(option_id);
        let initial_premium_paid = option.total_premium_paid;
        let initial_user_balance_options = self.balance(option_id, who);
        let initial_user_balance = self.balance(asset_id, who);
        let initial_protocol_balance = self.protocol_balance(asset_id);

        assert_eq!(self.buy(who, option_amount, option_id), Ok(()));
        assert_eq!(self.rt.runtime.events.last(), Some(&OptionsEvent::BuyOption { user: who, option_amount, option_id }));

        assert_eq!(self.balance(asset_id, who), initial_user_balance - option_premium);
        assert_eq!(self.protocol_balance(asset_id), initial_protocol_balance + option_premium);
        assert_eq!(self.balance(option_id, who), initial_user_balance_options + option_amount);
        assert_eq!(self.rt.runtime.total_issuance(option_id), initial_issuance_buyer + option_amount);
        assert_eq!(self.option(option_id).total_premium_paid, initial_premium_paid + option_premium);
    }

    fn exercise_option_success_checks(&mut self, option_id: u128, option_amount: u128, who: u64) {
        let option = self.option(option_id);
        let asset_id = self.collateral_asset(&option);
        let initial_total_issuance = self.rt.runtime.total_issuance(option_id);
        let initial_user_balance_options = self.balance(option_id, who);
        let initial_user_balance = self.balance(asset_id, who);
        let initial_protocol_balance = self.protocol_balance(asset_id);

        assert_eq!(self.exercise(who, option_amount, option_id), Ok(()));
        assert_eq!(self.rt.runtime.events.last(), Some(&OptionsEvent::ExerciseOption { user: who, option_amount, option_id }));

        assert_eq!(self.balance(asset_id, who), initial_user_balance + option.exercise_amount * option_amount);
        assert_eq!(self.protocol_balance(asset_id), initial_protocol_balance - option.exercise_amount * option_amount);
        assert_eq!(self.balance(option_id, who), initial_user_balance_options - option_amount);
        assert_eq!(self.rt.runtime.total_issuance(option_id), initial_total_issuance - option_amount);
    }

    fn settle_options_success_checks(&mut self) {
        let mut option_ids: Vec<u128> = self.to.options.keys().copied().collect();
        option_ids.sort();
        let mut initial = HashMap::new();
        for &option_id in &option_ids {
            let option = self.option(option_id);
            let base_asset_spot_price = self.rt.runtime.oracle_price(option.base_asset_id, UNIT).unwrap();
            let total_issuance_buyer = self.rt.runtime.total_issuance(option_id);
            let (asset_id, collateral_for_option) = match option.option_type {
                OptionType::Call => (
                    option.base_asset_id,
                    TokenizedOptions::call_option_collateral_amount(&mut self.rt, base_asset_spot_price, &option).unwrap(),
                ),
                OptionType::Put => (
                    option.quote_asset_id,
                    TokenizedOptions::put_option_collateral_amount(base_asset_spot_price, &option).unwrap(),
                ),
            };
            let vault_id = self.vault_id(asset_id);
            let total_collateral = collateral_for_option * total_issuance_buyer;
            let total_shares_amount =
                self.rt.runtime.vault_amount_of_lp_token_for_added_liquidity(vault_id, total_collateral).unwrap();
            initial.insert(option_id, (base_asset_spot_price, total_issuance_buyer, collateral_for_option, total_shares_amount));
        }

        self.run_to_block(6);

        for &option_id in &option_ids {
            let option = self.option(option_id);
            let i = initial[&option_id];
            assert_eq!(option.base_asset_spot_price, i.0);
            assert_eq!(option.total_issuance_buyer, i.1);
            assert_eq!(option.exercise_amount, i.2);
            assert_eq!(option.total_shares_amount, i.3);
            assert_eq!(option.status, Status::Exercise);
        }
    }

    fn withdraw_collateral_success_checks(&mut self, option_id: u128, who: u64) {
        let option = self.option(option_id);
        let initial_user_position = self.position(option_id, who);
        let asset_id = self.collateral_asset(&option);
        let stablecoin_id = USDC;
        let vault_id = self.vault_id(asset_id);
        let initial_user_balance = self.balance(asset_id, who);
        let initial_vault_balance = self.vault_balance(asset_id);
        let initial_user_balance_stablecoin = self.balance(stablecoin_id, who);
        let initial_protocol_account_balance_stablecoin = self.protocol_balance(stablecoin_id);

        let shares_for_buyers =
            option.total_shares_amount * initial_user_position.option_amount / option.total_issuance_seller;
        let user_shares_amount = initial_user_position.shares_amount - shares_for_buyers;
        let lp = self.rt.runtime.vault_lp_asset_id(vault_id).unwrap();
        let lp_token_issuance = self.protocol_balance_of(lp, asset_id);
        let user_shares_amount = user_shares_amount.min(lp_token_issuance);
        let asset_amount = self.rt.runtime.vault_lp_share_value(vault_id, user_shares_amount).unwrap();
        let user_premium_amount =
            option.total_premium_paid * initial_user_position.option_amount / option.total_issuance_seller;

        assert_eq!(self.withdraw(who, option_id), Ok(()));
        assert_eq!(self.rt.runtime.events.last(), Some(&OptionsEvent::WithdrawCollateral { user: who, option_id }));

        assert!(self.to.get_seller(option_id, who).is_none());
        assert_eq!(self.vault_balance(asset_id), initial_vault_balance - asset_amount);
        match option.option_type {
            OptionType::Call => {
                assert_eq!(self.balance(asset_id, who), initial_user_balance + asset_amount);
                assert_eq!(
                    self.protocol_balance(stablecoin_id),
                    initial_protocol_account_balance_stablecoin - user_premium_amount
                );
                assert_eq!(self.balance(stablecoin_id, who), initial_user_balance_stablecoin + user_premium_amount);
            },
            OptionType::Put => {
                assert_eq!(self.balance(asset_id, who), initial_user_balance + asset_amount + user_premium_amount);
                assert_eq!(
                    self.protocol_balance(stablecoin_id),
                    initial_protocol_account_balance_stablecoin - user_premium_amount
                );
            },
        }
    }
}

fn module(e: Error) -> Result<(), DispatchError> {
    Err(DispatchError::Module(e))
}

fn overflow() -> Result<(), DispatchError> {
    Err(DispatchError::Arithmetic(ArithmeticError::Overflow))
}

fn standard_env(balances: &[(u64, u128, u128)]) -> Env {
    build(balances).initialize_oracle_prices().initialize_all_vaults().initialize_all_options()
}

fn four_users(btc: u128, usdc: u128) -> Vec<(u64, u128, u128)> {
    let mut v = Vec::new();
    for who in [ALICE, BOB, CHARLIE, DAVE] {
        v.push((who, BTC, btc * UNIT));
        v.push((who, USDC, usdc * UNIT));
    }
    v
}

/// Creates the vaults and the default option by calls, as a protocol would, and
/// moves the option to its deposit phase.
fn initialized_by_calls(balances: &[(u64, u128, u128)], option_type: OptionType) -> (Env, u128) {
    let mut env = build(balances).initialize_oracle_prices();
    assert!(env.to.create_asset_vault(&mut env.rt, Origin::Signed(ADMIN), vault_config(BTC)).is_ok());
    assert!(env.to.create_asset_vault(&mut env.rt, Origin::Signed(ADMIN), vault_config(USDC)).is_ok());
    let config = option_config(option_type, 50000u128 * UNIT);
    assert!(env.to.create_option(&mut env.rt, Origin::Signed(ADMIN), config).is_ok());
    let option_id = env.option_id(&config);
    env.run_to_block(2);
    (env, option_id)
}

// -------------------------------------------------------------------------------------------------
//                                          Sell option
// -------------------------------------------------------------------------------------------------

#[test]
fn test_sell_option_with_initialization_success() {
    let (mut env, option_id) =
        initialized_by_calls(&[(BOB, BTC, UNIT), (BOB, USDC, 50000 * UNIT)], OptionType::Call);
    env.sell_option_success_checks(option_id, 1u128, BOB);
}

#[test]
fn test_sell_option_success() {
    let mut env = standard_env(&[(BOB, BTC, 7 * UNIT), (BOB, USDC, 350000 * UNIT)]);
    let option_id = env.option_id(&default_option());
    env.sell_option_success_checks(option_id, 7u128, BOB);
}

#[test]
fn test_sell_option_update_position() {
    let mut env = standard_env(&[(BOB, BTC, 5 * UNIT), (BOB, USDC, 250000 * UNIT)]);
    let option_id = env.option_id(&default_option());
    env.sell_option_success_checks(option_id, 3u128, BOB);
    env.sell_option_success_checks(option_id, 1u128, BOB);
}

#[test]
fn test_sell_option_multiple_users() {
    let mut env = standard_env(&[
        (ALICE, BTC, 10 * UNIT),
        (BOB, BTC, 7 * UNIT),
        (ALICE, USDC, 500000 * UNIT),
        (BOB, USDC, 350000 * UNIT),
    ]);
    let option_id = env.option_id(&default_option());
    env.sell_option_success_checks(option_id, 7u128, ALICE);
    env.sell_option_success_checks(option_id, 4u128, BOB);
    env.sell_option_success_checks(option_id, 2u128, ALICE);
    env.sell_option_success_checks(option_id, 3u128, BOB);
}

#[test]
fn test_sell_option_error_option_not_exists() {
    let mut env = build(&[(BOB, BTC, UNIT), (BOB, USDC, 50000 * UNIT)]);
    // 10000000000005u128 it's a meaningless number
    assert_eq!(env.sell(BOB, 1u128, 10000000000005u128), module(Error::OptionDoesNotExists));
}

#[test]
fn test_sell_option_error_not_into_deposit_window() {
    let mut env = standard_env(&[(BOB, BTC, 5 * UNIT), (BOB, USDC, 250000 * UNIT)]);
    env.run_to_block(3);
    let option_id = env.option_id(&default_option());
    assert_eq!(env.sell(BOB, 8u128, option_id), module(Error::NotIntoDepositWindow));
}

#[test]
fn test_sell_option_error_user_has_not_enough_funds() {
    let mut env = standard_env(&[(BOB, BTC, 5 * UNIT), (BOB, USDC, 250000 * UNIT)]);
    let option_id = env.option_id(&default_option());
    let before = env.to.get_seller(option_id, BOB);
    assert_eq!(env.sell(BOB, 8u128, option_id), module(Error::UserHasNotEnoughFundsToDeposit));
    assert_eq!(env.to.get_seller(option_id, BOB), before);
}

#[test]
fn test_sell_option_error_user_has_not_enough_funds_update_position() {
    let mut env = standard_env(&[(BOB, BTC, 5 * UNIT), (BOB, USDC, 250000 * UNIT)]);
    let option_id = env.option_id(&default_option());
    assert_eq!(env.sell(BOB, 3u128, option_id), Ok(()));
    assert_eq!(env.sell(BOB, 3u128, option_id), module(Error::UserHasNotEnoughFundsToDeposit));
    assert_eq!(env.position(option_id, BOB).option_amount, 3);
}

#[test]
fn test_sell_option_error_cannot_sell_zero_options() {
    let mut env = standard_env(&[(BOB, BTC, 5 * UNIT), (BOB, USDC, 250000 * UNIT)]);
    let option_id = env.option_id(&default_option());
    assert_eq!(env.sell(BOB, 0u128, option_id), module(Error::CannotPassZeroOptionAmount));
}

#[test]
fn test_sell_option_error_overflow_asset_amount() {
    let mut env = standard_env(&[(BOB, BTC, 5 * UNIT), (BOB, USDC, 250000 * UNIT)]);
    let option_id = env.option_id(&default_option());
    // Balance: u128 contains until ~4 * 10^38. Considering 12 decimals,
    // the asset_amount to transfer should overflow with option amount > 3 * 10^26.
    let option_amount = 4 * 10u128.pow(26);
    assert_eq!(env.sell(BOB, option_amount, option_id), overflow());
}

#[test]
fn test_sell_option_error_deposits_not_allowed() {
    let mut env = standard_env(&[(BOB, BTC, 5 * UNIT), (BOB, USDC, 250000 * UNIT)]);
    let config = default_option();
    let option_id = env.option_id(&config);
    let vault_id = env.vault_id(config.base_asset_id);
    env.rt.runtime.vaults[vault_id as usize].deposits = false;
    assert_eq!(env.sell(BOB, 5u128, option_id), module(Error::VaultDepositNotAllowed));
}

#[test]
fn test_sell_option_error_deposits_not_allowed_update_position() {
    let mut env = standard_env(&[(BOB, BTC, 5 * UNIT), (BOB, USDC, 250000 * UNIT)]);
    let config = default_option();
    let option_id = env.option_id(&config);
    assert_eq!(env.sell(BOB, 3u128, option_id), Ok(()));
    let vault_id = env.vault_id(config.base_asset_id);
    env.rt.runtime.vaults[vault_id as usize].deposits = false;
    assert_eq!(env.sell(BOB, 2u128, option_id), module(Error::VaultDepositNotAllowed));
}

#[test]
fn test_sell_option_shares_calculation_with_vault_value_accrual_success() {
    let mut env = standard_env(&four_users(10, 500000)[..6]);
    let config = option_config(OptionType::Call, 50000u128 * UNIT);
    let option_id = env.option_id(&config);
    let vault = Holder::Vault(env.vault_id(BTC));

    env.sell_option_success_checks(option_id, 5u128, ALICE);
    // Add 1 BTC to the vault to simulate vault value accrual
    env.rt.runtime.mint(BTC, vault, UNIT).unwrap();
    env.sell_option_success_checks(option_id, 5u128, BOB);
    // Remove 2 BTC from the vault to simulate vault value loss
    env.rt.runtime.burn(BTC, vault, 2 * UNIT).unwrap();
    env.sell_option_success_checks(option_id, 5u128, CHARLIE);
    env.rt.runtime.burn(BTC, vault, 2 * UNIT).unwrap();
    env.sell_option_success_checks(option_id, 5u128, ALICE);
    env.rt.runtime.mint(BTC, vault, 4 * UNIT).unwrap();
    env.sell_option_success_checks(option_id, 5u128, BOB);
    env.rt.runtime.mint(BTC, vault, UNIT).unwrap();
    env.sell_option_success_checks(option_id, 5u128, CHARLIE);
}

// -------------------------------------------------------------------------------------------------
//                                       Delete sell option
// -------------------------------------------------------------------------------------------------

#[test]
fn test_delete_sell_option_success() {
    let mut env = standard_env(&[(BOB, BTC, 7 * UNIT), (BOB, USDC, 350000 * UNIT)]);
    let option_id = env.option_id(&default_option());
    env.sell_option_success_checks(option_id, 7u128, BOB);
    env.delete_sell_option_success_checks(option_id, 7u128, BOB);
}

#[test]
fn test_delete_sell_option_update_position() {
    let mut env = standard_env(&[(BOB, BTC, 5 * UNIT), (BOB, USDC, 250000 * UNIT)]);
    let option_id = env.option_id(&default_option());
    env.sell_option_success_checks(option_id, 5u128, BOB);
    env.delete_sell_option_success_checks(option_id, 4u128, BOB);
    env.sell_option_success_checks(option_id, 3u128, BOB);
    env.delete_sell_option_success_checks(option_id, 4u128, BOB);
}

#[test]
fn test_delete_sell_option_multiple_users() {
    let mut env = standard_env(&[
        (ALICE, BTC, 10 * UNIT),
        (BOB, BTC, 7 * UNIT),
        (ALICE, USDC, 500000 * UNIT),
        (BOB, USDC, 350000 * UNIT),
    ]);
    let option_id = env.option_id(&default_option());
    env.sell_option_success_checks(option_id, 7u128, ALICE);
    env.sell_option_success_checks(option_id, 4u128, BOB);
    env.delete_sell_option_success_checks(option_id, 5u128, ALICE);
    env.delete_sell_option_success_checks(option_id, 4u128, BOB);
    env.sell_option_success_checks(option_id, 8u128, ALICE);
    env.sell_option_success_checks(option_id, 6u128, BOB);
    env.delete_sell_option_success_checks(option_id, 3u128, BOB);
    env.delete_sell_option_success_checks(option_id, 1u128, ALICE);
}

#[test]
fn test_delete_sell_option_error_option_not_exists() {
    let mut env = build(&[(BOB, BTC, UNIT), (BOB, USDC, 50000 * UNIT)]);
    assert_eq!(env.delete_sell(BOB, 1u128, 10000000000005u128), module(Error::OptionDoesNotExists));
}

#[test]
fn test_delete_sell_option_error_not_into_deposit_window() {
    let mut env = standard_env(&[(BOB, BTC, 5 * UNIT), (BOB, USDC, 250000 * UNIT)]);
    let option_id = env.option_id(&default_option());
    assert_eq!(env.sell(BOB, 5u128, option_id), Ok(()));
    env.run_to_block(3);
    assert_eq!(env.delete_sell(BOB, 4u128, option_id), module(Error::NotIntoDepositWindow));
}

#[test]
fn test_delete_sell_option_error_user_has_not_enough_collateral_to_withdraw() {
    let mut env = standard_env(&[(BOB, BTC, 5 * UNIT), (BOB, USDC, 250000 * UNIT)]);
    let option_id = env.option_id(&default_option());
    assert_eq!(env.sell(BOB, 5u128, option_id), Ok(()));
    assert_eq!(env.delete_sell(BOB, 6u128, option_id), module(Error::UserDoesNotHaveEnoughCollateralDeposited));
}

#[test]
fn test_delete_sell_option_error_user_has_not_enough_collateral_to_withdraw_update_position() {
    let mut env = standard_env(&[(BOB, BTC, 5 * UNIT), (BOB, USDC, 250000 * UNIT)]);
    let option_id = env.option_id(&default_option());
    assert_eq!(env.sell(BOB, 5u128, option_id), Ok(()));
    assert_eq!(env.delete_sell(BOB, 3u128, option_id), Ok(()));
    assert_eq!(env.delete_sell(BOB, 3u128, option_id), module(Error::UserDoesNotHaveEnoughCollateralDeposited));
    assert_eq!(env.position(option_id, BOB).option_amount, 2);
}

#[test]
fn test_delete_sell_option_error_user_does_not_have_position() {
    let mut env = standard_env(&[(BOB, BTC, 5 * UNIT), (BOB, USDC, 250000 * UNIT)]);
    let option_id = env.option_id(&default_option());
    assert_eq!(env.delete_sell(BOB, 5u128, option_id), module(Error::UserDoesNotHaveSellerPosition));
}

#[test]
fn test_delete_sell_option_error_cannot_delete_zero_options_sale() {
    let mut env = standard_env(&[(BOB, BTC, 5 * UNIT), (BOB, USDC, 250000 * UNIT)]);
    let option_id = env.option_id(&default_option());
    assert_eq!(env.sell(BOB, 5u128, option_id), Ok(()));
    assert_eq!(env.delete_sell(BOB, 0u128, option_id), module(Error::CannotPassZeroOptionAmount));
}

#[test]
fn test_delete_sell_option_error_overflow_asset_amount() {
    let mut env = standard_env(&[(BOB, BTC, 5 * UNIT), (BOB, USDC, 250000 * UNIT)]);
    let option_id = env.option_id(&default_option());
    assert_eq!(env.sell(BOB, 5u128, option_id), Ok(()));
    let option_amount = 4 * 10u128.pow(26);
    assert_eq!(env.delete_sell(BOB, option_amount, option_id), overflow());
}

#[test]
fn test_delete_sell_option_error_withdrawals_not_allowed() {
    let mut env = standard_env(&[(BOB, BTC, 5 * UNIT), (BOB, USDC, 250000 * UNIT)]);
    let config = default_option();
    let option_id = env.option_id(&config);
    assert_eq!(env.sell(BOB, 5u128, option_id), Ok(()));
    let vault_id = env.vault_id(config.base_asset_id);
    env.rt.runtime.vaults[vault_id as usize].withdrawals = false;
    assert_eq!(env.delete_sell(BOB, 5u128, option_id), module(Error::VaultWithdrawNotAllowed));
}

#[test]
fn test_delete_sell_option_error_withdrawals_not_allowed_update_position() {
    let mut env = standard_env(&[(BOB, BTC, 5 * UNIT), (BOB, USDC, 250000 * UNIT)]);
    let config = default_option();
    let option_id = env.option_id(&config);
    assert_eq!(env.sell(BOB, 5u128, option_id), Ok(()));
    assert_eq!(env.delete_sell(BOB, 2u128, option_id), Ok(()));
    let vault_id = env.vault_id(config.base_asset_id);
    env.rt.runtime.vaults[vault_id as usize].withdrawals = false;
    assert_eq!(env.delete_sell(BOB, 2u128, option_id), module(Error::VaultWithdrawNotAllowed));
}

#[test]
fn test_delete_sell_option_shares_calculation_with_vault_value_accrual_success() {
    let mut env = standard_env(&four_users(10, 500000)[..6]);
    let config = option_config(OptionType::Call, 50000u128 * UNIT);
    let option_id = env.option_id(&config);
    let vault = Holder::Vault(env.vault_id(BTC));

    env.sell_option_success_checks(option_id, 5u128, ALICE);
    env.rt.runtime.burn(BTC, vault, 2 * UNIT).unwrap();
    env.sell_option_success_checks(option_id, 5u128, BOB);
    env.rt.runtime.mint(BTC, vault, UNIT).unwrap();
    env.sell_option_success_checks(option_id, 5u128, CHARLIE);
    env.rt.runtime.mint(BTC, vault, UNIT).unwrap();

    env.delete_sell_option_success_checks(option_id, 4u128, ALICE);
    env.delete_sell_option_success_checks(option_id, 4u128, BOB);
    env.delete_sell_option_success_checks(option_id, 4u128, CHARLIE);
    env.delete_sell_option_success_checks(option_id, 1u128, ALICE);
    env.delete_sell_option_success_checks(option_id, 1u128, BOB);
    env.delete_sell_option_success_checks(option_id, 1u128, CHARLIE);

    assert_eq!(env.vault_balance(BTC), 0u128);
}

// -------------------------------------------------------------------------------------------------
//                                           Buy option
// -------------------------------------------------------------------------------------------------

#[test]
fn test_buy_option_with_initialization_success() {
    let (mut env, option_id) = initialized_by_calls(
        &[(ALICE, BTC, UNIT), (ALICE, USDC, 50000 * UNIT), (BOB, BTC, UNIT), (BOB, USDC, 50000 * UNIT)],
        OptionType::Call,
    );
    env.sell_option_success_checks(option_id, 1u128, BOB);
    env.run_to_block(3);
    env.buy_option_success_checks(option_id, 1u128, ALICE);
}

#[test]
fn test_buy_option_success() {
    let mut env = standard_env(&[
        (ALICE, BTC, 3 * UNIT),
        (ALICE, USDC, 150000 * UNIT),
        (BOB, BTC, 5 * UNIT),
        (BOB, USDC, 250000 * UNIT),
    ]);
    let option_id = env.option_id(&default_option());
    env.sell_option_success_checks(option_id, 5u128, BOB);
    env.run_to_block(3);
    env.buy_option_success_checks(option_id, 3u128, ALICE);
}

#[test]
fn test_buy_option_multiple_times() {
    let mut env = standard_env(&four_users(5, 250000)[..4]);
    let option_id = env.option_id(&default_option());
    env.sell_option_success_checks(option_id, 5u128, BOB);
    env.run_to_block(3);
    env.buy_option_success_checks(option_id, 3u128, ALICE);
    env.buy_option_success_checks(option_id, 2u128, ALICE);
}

#[test]
fn test_buy_option_multiple_users() {
    let mut env = standard_env(&four_users(5, 250000)[..6]);
    let option_id = env.option_id(&default_option());
    env.sell_option_success_checks(option_id, 5u128, BOB);
    env.sell_option_success_checks(option_id, 4u128, CHARLIE);
    env.run_to_block(3);
    env.buy_option_success_checks(option_id, 3u128, ALICE);
    env.buy_option_success_checks(option_id, 2u128, CHARLIE);
    env.buy_option_success_checks(option_id, 2u128, ALICE);
}

#[test]
fn test_buy_option_error_option_not_exists() {
    let mut env = standard_env(&four_users(5, 250000)[..4]);
    assert_eq!(env.buy(BOB, 1u128, 10000000000005u128), module(Error::OptionDoesNotExists));
}

#[test]
fn test_buy_option_error_user_has_not_enough_funds() {
    let mut env = standard_env(&[
        (ALICE, BTC, 3 * UNIT),
        (ALICE, USDC, 3000 * UNIT),
        (BOB, BTC, 5 * UNIT),
        (BOB, USDC, 250000 * UNIT),
    ]);
    let option_id = env.option_id(&default_option());
    env.sell_option_success_checks(option_id, 5u128, BOB);
    env.run_to_block(3);
    // Each option costs 1000 USDC, Alice has 3000
    assert_eq!(env.buy(ALICE, 4u128, option_id), module(Error::UserHasNotEnoughFundsToDeposit));
    env.buy_option_success_checks(option_id, 3u128, ALICE);
}

#[test]
fn test_buy_option_error_cannot_buy_zero_options() {
    let mut env = standard_env(&four_users(5, 250000)[..4]);
    let option_id = env.option_id(&default_option());
    env.sell_option_success_checks(option_id, 5u128, BOB);
    env.run_to_block(3);
    assert_eq!(env.buy(ALICE, 0u128, option_id), module(Error::CannotPassZeroOptionAmount));
}

#[test]
fn test_buy_option_error_overflow_asset_amount() {
    let mut env = standard_env(&four_users(5, 250000)[..4]);
    let option_id = env.option_id(&default_option());
    env.sell_option_success_checks(option_id, 5u128, BOB);
    env.run_to_block(3);
    let alice_option_amount = 4 * 10u128.pow(23);
    assert_eq!(env.buy(ALICE, alice_option_amount, option_id), overflow());
}

#[test]
fn test_buy_option_error_not_enough_options_for_sale() {
    let mut env = standard_env(&four_users(5, 250000)[..4]);
    let option_id = env.option_id(&default_option());
    env.sell_option_success_checks(option_id, 5u128, BOB);
    env.run_to_block(3);
    env.buy_option_success_checks(option_id, 3u128, ALICE);
    assert_eq!(env.buy(ALICE, 3u128, option_id), module(Error::NotEnoughOptionsForSale));
}

// -------------------------------------------------------------------------------------------------
//                                         Settle options
// -------------------------------------------------------------------------------------------------

fn settle_with_initialization(option_type: OptionType) {
    let (mut env, option_id) = initialized_by_calls(&four_users(10, 500000), option_type);
    assert_eq!(env.sell(ALICE, 5u128, option_id), Ok(()));
    env.run_to_block(3);
    assert_eq!(env.buy(CHARLIE, 3u128, option_id), Ok(()));
    env.settle_options_success_checks();
}

#[test]
fn test_settle_options_call_with_initialization_success() {
    settle_with_initialization(OptionType::Call);
}

#[test]
fn test_settle_options_put_with_initialization_success() {
    settle_with_initialization(OptionType::Put);
}

fn settle_two_options(option_type: OptionType, amounts: (u128, u128, u128, u128), price: u128) {
    let mut env = standard_env(&four_users(30, 1500000));
    let id1 = env.option_id(&option_config(option_type, 50000u128 * UNIT));
    let id2 = env.option_id(&option_config(option_type, 55000u128 * UNIT));
    let (alice, bob, charlie, dave) = amounts;
    for id in [id1, id2] {
        assert_eq!(env.sell(ALICE, alice, id), Ok(()));
        assert_eq!(env.sell(BOB, bob, id), Ok(()));
    }
    env.run_to_block(3);
    for id in [id1, id2] {
        assert_eq!(env.buy(CHARLIE, charlie, id), Ok(()));
        assert_eq!(env.buy(DAVE, dave, id), Ok(()));
    }
    env.set_oracle_price(BTC, price);
    env.settle_options_success_checks();
}

#[test]
fn test_settle_options_call_success_multiple_options_sold() {
    settle_two_options(OptionType::Call, (7, 9, 1, 15), 60000u128 * UNIT);
}

#[test]
fn test_settle_options_put_success_multiple_options_sold() {
    settle_two_options(OptionType::Put, (7, 9, 1, 15), 40000u128 * UNIT);
}

#[test]
fn test_settle_options_call_success_multiple_options_not_totally_sold() {
    settle_two_options(OptionType::Call, (10, 6, 5, 7), 60000u128 * UNIT);
}

#[test]
fn test_settle_options_put_success_multiple_options_not_totally_sold() {
    settle_two_options(OptionType::Put, (10, 6, 5, 7), 40000u128 * UNIT);
}

fn settle_overflow_env() -> (Env, u128) {
    let exp: u32 = 38;
    let mut env = standard_env(&[(ALICE, BTC, 3 * 10u128.pow(exp)), (CHARLIE, USDC, 3 * 10u128.pow(exp))]);
    let option_id = env.option_id(&option_config(OptionType::Call, 50000u128 * UNIT));
    // It works until 3 * 10^26.
    assert_eq!(env.sell(ALICE, 3 * 10u128.pow(26), option_id), Ok(()));
    env.run_to_block(3);
    // Buyer pays 1k premium for each option, so 3 exp less
    assert_eq!(env.buy(CHARLIE, 3 * 10u128.pow(23), option_id), Ok(()));
    (env, option_id)
}

#[test]
fn test_settle_options_error_overflow() {
    let (mut env, _) = settle_overflow_env();
    // BTC price moves from as far as it can
    env.set_oracle_price(BTC, 3 * 10u128.pow(38));
    env.settle_options_success_checks();
}

#[test]
fn test_settle_options_error_overflow_with_value_accrual() {
    let (mut env, _) = settle_overflow_env();
    let vault = Holder::Vault(env.vault_id(BTC));
    env.rt.runtime.mint(BTC, vault, 3 * 10u128.pow(37)).unwrap();
    env.set_oracle_price(BTC, 3 * 10u128.pow(38));
    env.run_to_block(6);
    assert!(env.protocol_balance(BTC) == 300000000000000000000000000000000000u128);
}

// -------------------------------------------------------------------------------------------------
//                                         Exercise option
// -------------------------------------------------------------------------------------------------

fn exercise_env(option_type: OptionType, sold: (u128, u128), bought: (u128, u128), price: u128, by_calls: bool) -> (Env, u128) {
    let (mut env, option_id) = if by_calls {
        initialized_by_calls(&four_users(10, 500000), option_type)
    } else {
        let env = standard_env(&four_users(10, 500000));
        let id = env.option_id(&option_config(option_type, 50000u128 * UNIT));
        (env, id)
    };
    assert_eq!(env.sell(ALICE, sold.0, option_id), Ok(()));
    if sold.1 > 0 {
        assert_eq!(env.sell(BOB, sold.1, option_id), Ok(()));
    }
    env.run_to_block(3);
    assert_eq!(env.buy(CHARLIE, bought.0, option_id), Ok(()));
    if bought.1 > 0 {
        assert_eq!(env.buy(DAVE, bought.1, option_id), Ok(()));
    }
    env.set_oracle_price(BTC, price);
    (env, option_id)
}

#[test]
fn test_exercise_option_call_with_initialization_success() {
    let (mut env, option_id) = exercise_env(OptionType::Call, (5, 4), (3, 6), 55000u128 * UNIT, true);
    env.run_to_block(6);
    env.exercise_option_success_checks(option_id, 3u128, CHARLIE);
    env.exercise_option_success_checks(option_id, 6u128, DAVE);
    assert_eq!(env.rt.runtime.total_issuance(option_id), 0u128);
    assert_eq!(env.protocol_balance(BTC), 0u128);
}

#[test]
fn test_exercise_option_put_with_initialization_success() {
    let (mut env, option_id) = exercise_env(OptionType::Put, (5, 4), (3, 6), 45000u128 * UNIT, true);
    env.run_to_block(6);
    env.exercise_option_success_checks(option_id, 3u128, CHARLIE);
    env.exercise_option_success_checks(option_id, 6u128, DAVE);
    assert_eq!(env.rt.runtime.total_issuance(option_id), 0u128);
    assert_eq!(env.protocol_balance(BTC), 0u128);
}

#[test]
fn test_exercise_option_call_success() {
    let (mut env, option_id) = exercise_env(OptionType::Call, (10, 8), (4, 7), 55000u128 * UNIT, false);
    env.run_to_block(6);
    env.exercise_option_success_checks(option_id, 4u128, CHARLIE);
    env.exercise_option_success_checks(option_id, 7u128, DAVE);
    assert_eq!(env.rt.runtime.total_issuance(option_id), 0u128);
    assert_eq!(env.protocol_balance(BTC), 0u128);
}

#[test]
fn test_exercise_option_put_success() {
    let (mut env, option_id) = exercise_env(OptionType::Put, (10, 8), (4, 7), 45000u128 * UNIT, false);
    env.run_to_block(6);
    env.exercise_option_success_checks(option_id, 4u128, CHARLIE);
    env.exercise_option_success_checks(option_id, 7u128, DAVE);
    assert_eq!(env.rt.runtime.total_issuance(option_id), 0u128);
    assert_eq!(env.protocol_balance(USDC), 11000u128 * UNIT);
}

#[test]
fn test_exercise_option_call_multiple_times() {
    let (mut env, option_id) = exercise_env(OptionType::Call, (10, 8), (4, 7), 55000u128 * UNIT, false);
    env.run_to_block(6);
    env.exercise_option_success_checks(option_id, 3u128, CHARLIE);
    env.exercise_option_success_checks(option_id, 1u128, CHARLIE);
    env.exercise_option_success_checks(option_id, 1u128, DAVE);
    env.exercise_option_success_checks(option_id, 6u128, DAVE);
    assert_eq!(env.rt.runtime.total_issuance(option_id), 0u128);
    assert_eq!(env.protocol_balance(BTC), 0u128);
}

#[test]
fn test_exercise_option_put_multiple_times() {
    let (mut env, option_id) = exercise_env(OptionType::Put, (10, 8), (4, 7), 55000u128 * UNIT, false);
    env.run_to_block(6);
    env.exercise_option_success_checks(option_id, 3u128, CHARLIE);
    env.exercise_option_success_checks(option_id, 1u128, CHARLIE);
    env.exercise_option_success_checks(option_id, 1u128, DAVE);
    env.exercise_option_success_checks(option_id, 6u128, DAVE);
    assert_eq!(env.rt.runtime.total_issuance(option_id), 0u128);
    assert_eq!(env.protocol_balance(USDC), 11000u128 * UNIT);
}

#[test]
fn test_exercise_option_out_of_money_tokens_burned() {
    let (mut env, option_id) = exercise_env(OptionType::Call, (10, 0), (4, 0), 45000u128 * UNIT, false);
    env.run_to_block(6);
    env.exercise_option_success_checks(option_id, 4u128, CHARLIE);
}

#[test]
fn test_exercise_option_error_option_not_exists() {
    let mut env = standard_env(&four_users(5, 250000)[..4]);
    assert_eq!(env.exercise(BOB, 1u128, 10000000000005u128), module(Error::OptionDoesNotExists));
}

#[test]
fn test_exercise_option_error_not_into_exercise_window() {
    let (mut env, option_id) = exercise_env(OptionType::Call, (10, 0), (4, 0), 55000u128 * UNIT, false);
    env.run_to_block(5);
    assert_eq!(env.exercise(CHARLIE, 4u128, option_id), module(Error::NotIntoExerciseWindow));
}

#[test]
fn test_exercise_option_error_cannot_exercise_zero_options() {
    let (mut env, option_id) = exercise_env(OptionType::Call, (10, 0), (4, 0), 55000u128 * UNIT, false);
    env.run_to_block(6);
    assert_eq!(env.exercise(CHARLIE, 0u128, option_id), module(Error::CannotPassZeroOptionAmount));
}

#[test]
fn test_exercise_option_error_cannot_exercise_too_much_options() {
    let (mut env, option_id) = exercise_env(OptionType::Call, (10, 0), (4, 0), 45000u128 * UNIT, false);
    env.run_to_block(6);
    assert_eq!(env.exercise(CHARLIE, 5u128, option_id), module(Error::UserHasNotEnoughOptionTokens));
}

#[test]
fn test_exercise_option_error_overflow() {
    let (mut env, option_id) = exercise_env(OptionType::Call, (10, 0), (4, 0), 55000u128 * UNIT, false);
    env.run_to_block(6);
    assert_eq!(env.exercise(CHARLIE, 3 * 10u128.pow(28), option_id), overflow());
}

// -------------------------------------------------------------------------------------------------
//                                       Withdraw collateral
// -------------------------------------------------------------------------------------------------

fn withdraw_with_initialization(option_type: OptionType) {
    let (mut env, option_id) = initialized_by_calls(&four_users(10, 500000), option_type);
    assert_eq!(env.sell(ALICE, 5u128, option_id), Ok(()));
    env.run_to_block(3);
    assert_eq!(env.buy(CHARLIE, 5u128, option_id), Ok(()));
    env.set_oracle_price(BTC, 55000u128 * UNIT);
    env.run_to_block(6);
    assert_eq!(env.exercise(CHARLIE, 5u128, option_id), Ok(()));
    env.withdraw_collateral_success_checks(option_id, ALICE);
}

#[test]
fn test_withdraw_collateral_call_with_initialization_success() {
    withdraw_with_initialization(OptionType::Call);
}

#[test]
fn test_withdraw_collateral_put_with_initialization_success() {
    withdraw_with_initialization(OptionType::Put);
}

fn withdraw_after_exercise(option_type: OptionType, price: u128) {
    let (mut env, option_id) = exercise_env(option_type, (10, 8), (4, 7), price, false);
    env.run_to_block(6);
    assert_eq!(env.exercise(CHARLIE, 4u128, option_id), Ok(()));
    assert_eq!(env.exercise(DAVE, 7u128, option_id), Ok(()));
    env.withdraw_collateral_success_checks(option_id, ALICE);
    env.withdraw_collateral_success_checks(option_id, BOB);
}

#[test]
fn test_withdraw_collateral_call_multiple_times() {
    withdraw_after_exercise(OptionType::Call, 55000u128 * UNIT);
}

#[test]
fn test_withdraw_collateral_put_multiple_times() {
    withdraw_after_exercise(OptionType::Put, 45000u128 * UNIT);
}

#[test]
fn test_withdraw_collateral_error_option_not_exists() {
    let mut env = build(&[(BOB, BTC, UNIT), (BOB, USDC, 50000 * UNIT)]);
    assert_eq!(env.withdraw(BOB, 10000000000005u128), module(Error::OptionDoesNotExists));
}

#[test]
fn test_withdraw_collateral_error_not_into_exercise_window() {
    let (mut env, option_id) = exercise_env(OptionType::Call, (10, 8), (4, 7), 55000u128 * UNIT, false);
    env.run_to_block(5);
    assert_eq!(env.withdraw(ALICE, option_id), module(Error::NotIntoExerciseWindow));
    assert_eq!(env.withdraw(BOB, option_id), module(Error::NotIntoExerciseWindow));
}

#[test]
fn test_withdraw_collateral_error_user_does_not_have_position() {
    let (mut env, option_id) = exercise_env(OptionType::Call, (10, 8), (4, 7), 55000u128 * UNIT, false);
    env.run_to_block(6);
    assert_eq!(env.withdraw(CHARLIE, option_id), module(Error::UserDoesNotHaveSellerPosition));
    env.withdraw_collateral_success_checks(option_id, ALICE);
}

#[test]
fn test_withdraw_collateral_call_out_of_money_multiple_times() {
    withdraw_after_exercise(OptionType::Call, 45000u128 * UNIT);
}

#[test]
fn test_withdraw_collateral_put_out_of_money_multiple_times() {
    withdraw_after_exercise(OptionType::Put, 55000u128 * UNIT);
}

#[test]
fn test_withdraw_collateral_dust_issue() {
    let mut env = standard_env(&[]);
    let option_id = env.option_id(&option_config(OptionType::Call, 50000u128 * UNIT));
    let user_number = 500;
    let seller_option_number: u128 = 61;
    let buyer_option_number: u128 = 31;

    for i in 1..user_number {
        env.rt.runtime.mint(BTC, Holder::User(account_id_from_u64(i)), seller_option_number * UNIT).unwrap();
        assert_eq!(env.sell(account_id_from_u64(i), seller_option_number, option_id), Ok(()));
    }
    env.run_to_block(3);
    for i in 1..user_number {
        env.rt.runtime.mint(USDC, Holder::User(account_id_from_u64(i)), buyer_option_number * 1000 * UNIT).unwrap();
        assert_eq!(env.buy(account_id_from_u64(i), buyer_option_number, option_id), Ok(()));
    }
    env.set_oracle_price(BTC, 55000u128 * UNIT);
    // Before settlement, simulate a loss for the vault
    let vault_id = env.vault_id(BTC);
    env.rt.runtime.burn(BTC, Holder::Vault(vault_id), 1000u128 * UNIT).unwrap();
    env.run_to_block(6);

    for i in 1..user_number {
        if i == user_number - 1 {
            let initial_user_position = env.position(option_id, account_id_from_u64(i));
            let option = env.option(option_id);
            let shares_for_buyers =
                option.total_shares_amount * initial_user_position.option_amount / option.total_issuance_seller;
            let user_shares = initial_user_position.shares_amount - shares_for_buyers;
            let lp = env.rt.runtime.vault_lp_asset_id(vault_id).unwrap();
            let lp_token_issuance = env.protocol_balance_of(lp, BTC);
            if user_shares > lp_token_issuance {
                println!("user_shares: {:?}", user_shares - lp_token_issuance);
                assert!(user_shares - lp_token_issuance < 1000);
            } else {
                println!("lp_tokens: {:?}", lp_token_issuance - user_shares);
                assert!(lp_token_issuance - user_shares < 1000);
            }
        }
        assert_eq!(env.withdraw(account_id_from_u64(i), option_id), Ok(()));
    }
    assert_eq!(env.vault_balance(BTC), 0);
}

// -------------------------------------------------------------------------------------------------
//                                             Epochs
// -------------------------------------------------------------------------------------------------

fn generate_option_and_get_id(env: &mut Env, option_type: OptionType, strike_price: u128, epoch: Epoch) -> u128 {
    let config = OptionConfig { epoch, ..option_config(option_type, strike_price) };
    assert!(env.to.create_option(&mut env.rt, Origin::Signed(ADMIN), config).is_ok());
    env.option_id(&config)
}

fn assert_protocol_and_vaults_empty(env: &Env) {
    assert_eq!(env.vault_balance(BTC), 0u128);
    assert_eq!(env.vault_balance(USDC), 0u128);
    assert_eq!(env.protocol_balance(BTC), 0u128);
    assert_eq!(env.protocol_balance(USDC), 0u128);
}

#[test]
fn test_epoch_basic_example_totally_sold() {
    let mut env = build(&[(ALICE, BTC, 2 * UNIT), (BOB, BTC, 3 * UNIT), (CHARLIE, USDC, 5000 * UNIT)])
        .initialize_oracle_prices()
        .initialize_all_vaults();
    let option_id1 = generate_option_and_get_id(
        &mut env,
        OptionType::Call,
        50000u128 * UNIT,
        Epoch { deposit: 0u64, purchase: 2000u64, exercise: 5000u64, end: 9000u64 },
    );
    env.run_to_block(2);
    assert_eq!(env.sell(ALICE, 2u128, option_id1), Ok(()));
    assert_eq!(env.sell(BOB, 3u128, option_id1), Ok(()));
    env.run_to_block(3);
    assert_eq!(env.buy(CHARLIE, 5u128, option_id1), Ok(()));
    env.set_oracle_price(BTC, 55000u128 * UNIT);
    env.run_to_block(6);
    assert_eq!(env.exercise(CHARLIE, 5u128, option_id1), Ok(()));
    assert_eq!(env.withdraw(ALICE, option_id1), Ok(()));
    assert_eq!(env.withdraw(BOB, option_id1), Ok(()));

    assert_protocol_and_vaults_empty(&env);
    assert_eq!(env.balance(BTC, ALICE), 1818181818182u128);
    assert_eq!(env.balance(USDC, ALICE), 2000u128 * UNIT);
    assert_eq!(env.balance(BTC, BOB), 2727272727273u128);
    assert_eq!(env.balance(USDC, BOB), 3000u128 * UNIT);
    assert_eq!(env.balance(BTC, CHARLIE), 454545454545u128);
    assert_eq!(env.balance(USDC, CHARLIE), 0u128);
}

#[test]
fn test_epoch_basic_example_no_totally_sold() {
    let mut env = build(&[(ALICE, BTC, 2 * UNIT), (BOB, BTC, 3 * UNIT), (CHARLIE, USDC, 4000 * UNIT)])
        .initialize_oracle_prices()
        .initialize_all_vaults();
    let option_id1 = generate_option_and_get_id(
        &mut env,
        OptionType::Call,
        90000u128 * UNIT,
        Epoch { deposit: 0u64, purchase: 2000u64, exercise: 5000u64, end: 9000u64 },
    );
    env.run_to_block(2);
    assert_eq!(env.sell(ALICE, 2u128, option_id1), Ok(()));
    assert_eq!(env.sell(BOB, 3u128, option_id1), Ok(()));
    env.run_to_block(3);
    assert_eq!(env.buy(CHARLIE, 4u128, option_id1), Ok(()));
    env.set_oracle_price(BTC, 100000u128 * UNIT);
    env.run_to_block(6);
    assert_eq!(env.exercise(CHARLIE, 4u128, option_id1), Ok(()));
    assert_eq!(env.withdraw(ALICE, option_id1), Ok(()));
    assert_eq!(env.withdraw(BOB, option_id1), Ok(()));

    assert_protocol_and_vaults_empty(&env);
    assert_eq!(env.balance(BTC, ALICE), 1840000000000u128);
    assert_eq!(env.balance(USDC, ALICE), 1600u128 * UNIT);
    assert_eq!(env.balance(BTC, BOB), 2760000000000u128);
    assert_eq!(env.balance(USDC, BOB), 2400u128 * UNIT);
    assert_eq!(env.balance(BTC, CHARLIE), 400000000000u128);
    assert_eq!(env.balance(USDC, CHARLIE), 0u128);
}

// -------------------------------------------------------------------------------------------------
//                                 Creation, scheduling and laws
// -------------------------------------------------------------------------------------------------

#[test]
fn create_asset_vault_errors() {
    let mut env = build(&[]).initialize_oracle_prices();
    assert!(env.to.create_asset_vault(&mut env.rt, Origin::Signed(ADMIN), vault_config(BTC)).is_ok());
    assert_eq!(
        env.to.create_asset_vault(&mut env.rt, Origin::Signed(ADMIN), vault_config(BTC)),
        Err(DispatchError::Module(Error::AssetVaultAlreadyExists))
    );
    assert_eq!(
        env.to.create_asset_vault(&mut env.rt, Origin::Signed(ADMIN), vault_config(77)),
        Err(DispatchError::Module(Error::AssetIsNotSupported))
    );
}

#[test]
fn only_the_protocol_creates_vaults_and_options() {
    let mut env = build(&[]).initialize_oracle_prices();
    let vaults_before = env.rt.runtime.vaults.len();
    assert_eq!(
        env.to.create_asset_vault(&mut env.rt, Origin::Signed(ALICE), vault_config(BTC)),
        Err(DispatchError::BadOrigin)
    );
    assert_eq!(
        env.to.create_asset_vault(&mut env.rt, Origin::Unsigned, vault_config(BTC)),
        Err(DispatchError::BadOrigin)
    );
    assert_eq!(env.rt.runtime.vaults.len(), vaults_before);
    assert!(env.to.asset_to_vault.is_empty());
    assert!(env.to.create_asset_vault(&mut env.rt, Origin::Root, vault_config(BTC)).is_ok());
    assert!(env.to.create_asset_vault(&mut env.rt, Origin::Signed(ADMIN), vault_config(USDC)).is_ok());
    assert_eq!(
        env.to.create_option(&mut env.rt, Origin::Signed(ALICE), default_option()),
        Err(DispatchError::BadOrigin)
    );
    assert!(env.to.options.is_empty());
    assert!(env.to.create_option(&mut env.rt, Origin::Root, default_option()).is_ok());
}

#[test]
fn create_option_errors() {
    let mut env = build(&[]).initialize_oracle_prices();
    let config = default_option();
    assert_eq!(
        env.to.create_option(&mut env.rt, Origin::Signed(ADMIN), config),
        Err(DispatchError::Module(Error::OptionAssetVaultsDoNotExist))
    );
    env = env.initialize_all_vaults();
    let bad = OptionConfig { epoch: Epoch { deposit: 10, purchase: 10, exercise: 20, end: 30 }, ..config };
    assert_eq!(env.to.create_option(&mut env.rt, Origin::Signed(ADMIN), bad), Err(DispatchError::Module(Error::OptionAttributesAreInvalid)));
    let bad = OptionConfig { total_issuance_seller: 1, ..config };
    assert_eq!(env.to.create_option(&mut env.rt, Origin::Signed(ADMIN), bad), Err(DispatchError::Module(Error::OptionAttributesAreInvalid)));
    let id = env.to.create_option(&mut env.rt, Origin::Signed(ADMIN), config).unwrap();
    assert_eq!(env.option(id).status, Status::NotStarted);
    assert_eq!(env.to.create_option(&mut env.rt, Origin::Signed(ADMIN), config), Err(DispatchError::Module(Error::OptionAlreadyExists)));
    // Four phase changes are scheduled, in time order.
    assert_eq!(env.to.scheduler.len(), 4);
    let moments: Vec<u64> = env.to.scheduler.iter().map(|e| e.moment).collect();
    assert_eq!(moments, vec![0, 2000, 5000, 9000]);
}

#[test]
fn scheduler_moves_options_through_their_phases_in_order() {
    let mut env = standard_env(&[]);
    let id = env.option_id(&default_option());
    assert_eq!(env.option(id).status, Status::Deposit);
    env.run_to_block(3);
    assert_eq!(env.option(id).status, Status::Purchase);
    env.run_to_block(6);
    assert_eq!(env.option(id).status, Status::Exercise);
    env.run_to_block(10);
    assert_eq!(env.option(id).status, Status::End);
    // Nothing due is left, and the scheduler is empty once every phase passed.
    assert!(env.to.scheduler.is_empty());
}

#[test]
fn scheduler_deposits_the_phase_events_in_order() {
    let mut env = standard_env(&[]);
    let id = env.option_id(&default_option());
    let before = env.rt.runtime.events.len();
    env.to.on_initialize(&mut env.rt, 2000).unwrap();
    let events = env.rt.runtime.events[before..].to_vec();
    assert!(!events.is_empty());
    assert!(events.iter().all(|e| matches!(e, OptionsEvent::OptionPurchaseStart { .. })));
    assert!(events.contains(&OptionsEvent::OptionPurchaseStart { option_id: id }));
    let before = env.rt.runtime.events.len();
    env.to.on_initialize(&mut env.rt, 9000).unwrap();
    let events = env.rt.runtime.events[before..].to_vec();
    let settled = events.iter().position(|e| *e == OptionsEvent::SettleOption { option_id: id }).unwrap();
    assert_eq!(events[settled + 1], OptionsEvent::OptionExerciseStart { option_id: id });
    let ended = events.iter().position(|e| *e == OptionsEvent::OptionEnd { option_id: id }).unwrap();
    assert!(settled < ended);
}

#[test]
fn selling_directly_deposits_its_event() {
    let mut env = standard_env(&[(ALICE, BTC, 10 * UNIT)]);
    let id = env.option_id(&default_option());
    let mut option = env.option(id);
    let mut position = None;
    assert_eq!(env.to.do_sell_option(&mut env.rt, ALICE, 1, id, &mut option, &mut position), Ok(()));
    assert_eq!(env.rt.runtime.events.last(), Some(&OptionsEvent::SellOption { user: ALICE, option_amount: 1, option_id: id }));
    assert_eq!(position.map(|p| p.option_amount), Some(1));
}

#[test]
fn scheduler_keeps_entries_that_are_not_due() {
    let mut env = standard_env(&[]);
    env.to.on_initialize(&mut env.rt, 4999).unwrap();
    assert!(env.to.scheduler.iter().all(|e| e.moment > 4999));
    assert!(env.to.scheduler.windows(2).all(|w| w[0].moment <= w[1].moment));
}

#[test]
fn option_status_change_ignores_unknown_options_and_not_started() {
    let mut env = standard_env(&[]);
    let id = env.option_id(&default_option());
    let before = env.option(id);
    assert_eq!(env.to.option_status_change(&mut env.rt, id, Status::NotStarted), Ok(()));
    assert_eq!(env.option(id), before);
    assert_eq!(env.to.option_status_change(&mut env.rt, 999_999, Status::End), Ok(()));
    assert_eq!(env.to.option_status_change(&mut env.rt, id, Status::End), Ok(()));
    assert_eq!(env.option(id).status, Status::End);
}

#[test]
fn settlement_failure_stops_the_scheduler_with_the_entry_kept() {
    let mut env = standard_env(&[]);
    env.rt.runtime.prices.remove(&BTC);
    env.run_to_block(5);
    let r = env.to.on_initialize(&mut env.rt, 5000);
    assert_eq!(r, Err(DispatchError::Module(Error::AssetPriceNotFound)));
    assert_eq!(env.to.scheduler[0].moment, 5000);
    assert_eq!(env.to.scheduler[0].status, Status::Exercise);
}

#[test]
fn sell_then_delete_restores_issuance() {
    let mut env = standard_env(&[(BOB, BTC, 5 * UNIT)]);
    let id = env.option_id(&default_option());
    let before = env.option(id);
    assert_eq!(env.sell(BOB, 3, id), Ok(()));
    assert_eq!(env.delete_sell(BOB, 3, id), Ok(()));
    assert_eq!(env.option(id), before);
    assert!(env.to.get_seller(id, BOB).is_none());
    assert_eq!(env.balance(BTC, BOB), 5 * UNIT);
}

#[test]
fn collateral_amounts() {
    let mut env = standard_env(&[]);
    let call = default_option();
    // In the money: (55k - 50k) / 55k of one BTC, rounded to nearest.
    assert_eq!(TokenizedOptions::call_option_collateral_amount(&mut env.rt, 55000 * UNIT, &call), Ok(90909090909));
    assert_eq!(TokenizedOptions::call_option_collateral_amount(&mut env.rt, 45000 * UNIT, &call), Ok(0));
    let put = option_config(OptionType::Put, 50000 * UNIT);
    assert_eq!(TokenizedOptions::put_option_collateral_amount(45000 * UNIT, &put), Ok(5000 * UNIT));
    assert_eq!(TokenizedOptions::put_option_collateral_amount(55000 * UNIT, &put), Ok(0));
    assert_eq!(TokenizedOptions::convert_and_multiply_by_rational(7, 3, 0, Rounding::Down), Ok(0));
    assert_eq!(TokenizedOptions::convert_and_multiply_by_rational(7, 3, 2, Rounding::Up), Ok(11));
    assert_eq!(
        TokenizedOptions::convert_and_multiply_by_rational(u128::MAX, 2, 1, Rounding::Down),
        Err(DispatchError::Arithmetic(ArithmeticError::Overflow))
    );
    assert_eq!(TokenizedOptions::fake_option_price(), 1000 * UNIT);
    assert_eq!(TokenizedOptions::get_price(&mut env.rt, BTC), Ok(50000 * UNIT));
    assert_eq!(TokenizedOptions::get_price(&mut env.rt, 77), Err(DispatchError::Module(Error::AssetPriceNotFound)));
    assert_eq!(TokenizedOptions::account_id(BTC), Account::Protocol(BTC));
}

#[test]
fn price_from_reading_maps_oracle_errors() {
    assert_eq!(TokenizedOptions::price_from_reading(Ok(42 * UNIT)), Ok(42 * UNIT));
    assert_eq!(
        TokenizedOptions::price_from_reading(Err(DispatchError::Module(Error::OptionDoesNotExists))),
        Err(DispatchError::Module(Error::AssetPriceNotFound))
    );
}
