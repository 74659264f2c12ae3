//! Data types of the tokenized options protocol.
use crate::arith::ArithmeticError;
use vstd::prelude::*;

verus! {

/// The type of an option.
#[derive(Clone, Copy, Debug, PartialEq, Eq, Structural)]
pub enum OptionType {
    /// The right to buy the base asset at the strike price.
    Call,
    /// The right to sell the base asset at the strike price.
    Put,
}

/// When an option can be exercised.
#[derive(Clone, Copy, Debug, PartialEq, Eq, Structural)]
pub enum ExerciseType {
    /// Only at expiry.
    European,
    /// At any time before expiry.
    American,
}

/// The phases of an option's life.
#[derive(Clone, Copy, Debug, PartialEq, Eq, Structural)]
pub enum Status {
    /// Created, deposits not open yet.
    NotStarted,
    /// Sellers deposit collateral.
    Deposit,
    /// Buyers purchase options.
    Purchase,
    /// Buyers exercise options and sellers withdraw collateral.
    Exercise,
    /// The option has ended.
    End,
}

/// The timestamps at which the phases of an option start.
#[derive(Clone, Copy, Debug, PartialEq, Eq, Structural)]
pub struct Epoch {
    /// Start of the deposit phase.
    pub deposit: u64,
    /// Start of the purchase phase.
    pub purchase: u64,
    /// Start of the exercise phase.
    pub exercise: u64,
    /// End of the option.
    pub end: u64,
}

/// Configuration for creating an option; also the stored option token.
#[derive(Clone, Copy, Debug, PartialEq, Eq, Structural)]
pub struct OptionConfig {
    /// The asset the option is on.
    pub base_asset_id: u128,
    /// The asset prices are quoted in.
    pub quote_asset_id: u128,
    /// Strike price in base asset.
    pub base_asset_strike_price: u128,
    /// Strike price in quote asset.
    pub quote_asset_strike_price: u128,
    /// Call or put.
    pub option_type: OptionType,
    /// Expiry time.
    pub expiring_date: u64,
    /// European or American.
    pub exercise_type: ExerciseType,
    /// Phase start times.
    pub epoch: Epoch,
    /// Current phase.
    pub status: Status,
    /// Base asset per option.
    pub base_asset_amount_per_option: u128,
    /// Quote asset per option.
    pub quote_asset_amount_per_option: u128,
    /// Options offered by sellers.
    pub total_issuance_seller: u128,
    /// Premium paid by buyers.
    pub total_premium_paid: u128,
    /// Collateral owed per option exercised.
    pub exercise_amount: u128,
    /// Base asset spot price at settlement.
    pub base_asset_spot_price: u128,
    /// Options bought, at settlement.
    pub total_issuance_buyer: u128,
    /// Vault shares reserved for buyers at settlement.
    pub total_shares_amount: u128,
}

/// A stored option.
pub type OptionToken = OptionConfig;

/// The attributes that identify an option: two options with the same
/// attributes cannot coexist.
#[derive(Clone, Copy, Debug, PartialEq, Eq, Structural)]
pub struct OptionKey {
    /// The asset the option is on.
    pub base_asset_id: u128,
    /// The asset prices are quoted in.
    pub quote_asset_id: u128,
    /// Strike price in base asset.
    pub base_asset_strike_price: u128,
    /// Strike price in quote asset.
    pub quote_asset_strike_price: u128,
    /// Call or put.
    pub option_type: OptionType,
    /// Expiry time.
    pub expiring_date: u64,
    /// European or American.
    pub exercise_type: ExerciseType,
}

/// A seller's deposit for an option.
#[derive(Clone, Copy, Debug, PartialEq, Eq, Structural)]
pub struct SellerPosition {
    /// Options offered.
    pub option_amount: u128,
    /// Vault shares received for the collateral.
    pub shares_amount: u128,
}

/// Configuration of an asset vault.
#[derive(Clone, Debug, PartialEq, Eq)]
pub struct VaultConfig {
    /// The asset held.
    pub asset_id: u128,
    /// Part of the funds kept in reserve, in parts per quintillion.
    pub reserved: u64,
    /// Strategies and the part of funds allocated to each, in parts per
    /// quintillion.
    pub strategies: Vec<(u64, u64)>,
}

/// Errors raised by the tokenized options protocol.
#[derive(Clone, Copy, Debug, PartialEq, Eq, Structural)]
pub enum Error {
    /// An unexpected error.
    UnexpectedError,
    /// The asset is not supported by the oracle.
    AssetIsNotSupported,
    /// No vault exists for the asset.
    AssetVaultDoesNotExists,
    /// A vault already exists for the asset.
    AssetVaultAlreadyExists,
    /// No option has the id.
    OptionDoesNotExists,
    /// An option with the same attributes exists.
    OptionAlreadyExists,
    /// The vaults of the option's assets do not exist.
    OptionAssetVaultsDoNotExist,
    /// The option's attributes are invalid.
    OptionAttributesAreInvalid,
    /// The user cannot pay the deposit.
    UserHasNotEnoughFundsToDeposit,
    /// The vault refused the deposit.
    VaultDepositNotAllowed,
    /// A zero option amount was given.
    CannotPassZeroOptionAmount,
    /// The user has no seller position for the option.
    UserDoesNotHaveSellerPosition,
    /// The user has not deposited enough collateral.
    UserDoesNotHaveEnoughCollateralDeposited,
    /// The vault refused the withdrawal.
    VaultWithdrawNotAllowed,
    /// Not enough options are offered.
    NotEnoughOptionsForSale,
    /// The user does not hold enough option tokens.
    UserHasNotEnoughOptionTokens,
    /// The oracle has no price for the asset.
    AssetPriceNotFound,
    /// The option is not in its deposit phase.
    NotIntoDepositWindow,
    /// The option is not in its purchase phase.
    NotIntoPurchaseWindow,
    /// The option is not in its exercise phase.
    NotIntoExerciseWindow,
}

/// Errors of the protocol's operations: its own errors, arithmetic errors, and
/// errors reported by the services it calls.
#[derive(Clone, Copy, Debug, PartialEq, Eq, Structural)]
pub enum DispatchError {
    /// An error of the protocol.
    Module(Error),
    /// An arithmetic error.
    Arithmetic(ArithmeticError),
    /// An error reported by a vault, the asset ledger, the oracle or the
    /// currency factory.
    External(u32),
    /// The call's origin is neither governance nor the protocol's account.
    BadOrigin,
}

/// An account of the asset ledger.
#[derive(Clone, Copy, Debug, PartialEq, Eq, Structural)]
pub enum Account {
    /// A user's account.
    User(u64),
    /// The protocol's account for an asset.
    Protocol(u128),
}

/// Services of the hosting runtime: vaults, the asset ledger, the currency
/// factory and the price oracle. Nothing is assumed of their results.
pub trait OptionsRuntime {
    /// Creates a vault managed by `manager`, returning its id.
    fn vault_create(&mut self, config: &VaultConfig, manager: Account) -> Result<u64, DispatchError>;

    /// The vault shares that depositing `amount` would mint.
    fn vault_calculate_lp_tokens_to_mint(&self, vault_id: u64, amount: u128) -> Result<u128, DispatchError>;

    /// Deposits `amount` from `from` into the vault, returning shares minted.
    fn vault_deposit(&mut self, vault_id: u64, from: Account, amount: u128) -> Result<u128, DispatchError>;

    /// The asset amount that `shares` vault shares are worth.
    fn vault_lp_share_value(&self, vault_id: u64, shares: u128) -> Result<u128, DispatchError>;

    /// Redeems `shares` vault shares for `to`, returning the asset amount.
    fn vault_withdraw(&mut self, vault_id: u64, to: Account, shares: u128) -> Result<u128, DispatchError>;

    /// The vault shares corresponding to an asset amount.
    fn vault_amount_of_lp_token_for_added_liquidity(&self, vault_id: u64, amount: u128) -> Result<u128, DispatchError>;

    /// The asset id of the vault's shares.
    fn vault_lp_asset_id(&self, vault_id: u64) -> Result<u128, DispatchError>;

    /// Transfers an amount of an asset between accounts.
    fn transfer(&mut self, asset: u128, from: Account, to: Account, amount: u128, keep_alive: bool) -> Result<(), DispatchError>;

    /// Mints an amount of an asset into an account.
    fn mint_into(&mut self, asset: u128, to: Account, amount: u128) -> Result<(), DispatchError>;

    /// Burns an amount of an asset from an account.
    fn burn_from(&mut self, asset: u128, from: Account, amount: u128) -> Result<(), DispatchError>;

    /// The total issuance of an asset.
    fn total_issuance(&self, asset: u128) -> u128;

    /// The balance of an asset held by an account.
    fn balance(&self, asset: u128, who: Account) -> u128;

    /// Creates a new asset id.
    fn currency_create(&mut self) -> Result<u128, DispatchError>;

    /// One unit of an asset in its smallest denomination.
    fn asset_unit(&self, asset: u128) -> Result<u128, DispatchError>;

    /// Whether the oracle has a price feed for the asset.
    fn oracle_is_supported(&self, asset: u128) -> Result<bool, DispatchError>;

    /// The oracle price of `amount` of the asset.
    fn oracle_price(&self, asset: u128, amount: u128) -> Result<u128, DispatchError>;

    /// Deposits an event of the protocol.
    fn deposit_event(&mut self, event: OptionsEvent);
}

/// An event of the protocol, deposited with the runtime.
#[derive(Clone, Copy, Debug, PartialEq, Eq, Structural)]
pub enum OptionsEvent {
    /// A vault was created for an asset.
    CreatedAssetVault { vault_id: u64, asset_id: u128 },
    /// An option was created.
    CreatedOption { option_id: u128, option_config: OptionConfig },
    /// A seller wrote options.
    SellOption { user: u64, option_amount: u128, option_id: u128 },
    /// A seller withdrew options it wrote.
    DeleteSellOption { user: u64, option_amount: u128, option_id: u128 },
    /// A buyer bought options.
    BuyOption { user: u64, option_amount: u128, option_id: u128 },
    /// An option was settled.
    SettleOption { option_id: u128 },
    /// A buyer exercised options.
    ExerciseOption { user: u64, option_amount: u128, option_id: u128 },
    /// A seller withdrew its collateral and premium.
    WithdrawCollateral { user: u64, option_id: u128 },
    /// An option entered its deposit phase.
    OptionDepositStart { option_id: u128 },
    /// An option entered its purchase phase.
    OptionPurchaseStart { option_id: u128 },
    /// An option entered its exercise phase.
    OptionExerciseStart { option_id: u128 },
    /// An option ended.
    OptionEnd { option_id: u128 },
}

/// A call made to the hosting runtime, with its arguments and what it
/// returned.
pub enum OptionsCall {
    /// A vault was created with `config`, managed by `manager`.
    VaultCreate { config: VaultConfig, manager: Account, result: Result<u64, DispatchError> },
    /// The vault shares that depositing `amount` into vault `vault_id` would mint were asked.
    CalculateLpTokensToMint { vault_id: u64, amount: u128, result: Result<u128, DispatchError> },
    /// `amount` was deposited from `from` into vault `vault_id`.
    VaultDeposit { vault_id: u64, from: Account, amount: u128, result: Result<u128, DispatchError> },
    /// The asset value of `shares` shares of vault `vault_id` was asked.
    LpShareValue { vault_id: u64, shares: u128, result: Result<u128, DispatchError> },
    /// `shares` shares of vault `vault_id` were redeemed for `to`.
    VaultWithdraw { vault_id: u64, to: Account, shares: u128, result: Result<u128, DispatchError> },
    /// The shares of vault `vault_id` corresponding to `amount` were asked.
    LpTokensForAddedLiquidity { vault_id: u64, amount: u128, result: Result<u128, DispatchError> },
    /// The asset id of the shares of vault `vault_id` was asked.
    LpAssetId { vault_id: u64, result: Result<u128, DispatchError> },
    /// `amount` of `asset` was transferred from `from` to `to`.
    Transfer { asset: u128, from: Account, to: Account, amount: u128, keep_alive: bool, result: Result<(), DispatchError> },
    /// `amount` of `asset` was minted into `to`.
    Mint { asset: u128, to: Account, amount: u128, result: Result<(), DispatchError> },
    /// `amount` of `asset` was burned from `from`.
    Burn { asset: u128, from: Account, amount: u128, result: Result<(), DispatchError> },
    /// The total issuance of `asset` was asked.
    TotalIssuance { asset: u128, result: u128 },
    /// The balance of `asset` held by `who` was asked.
    Balance { asset: u128, who: Account, result: u128 },
    /// A new asset id was created.
    CurrencyCreate { result: Result<u128, DispatchError> },
    /// The unit of `asset` was asked.
    AssetUnit { asset: u128, result: Result<u128, DispatchError> },
    /// Whether the oracle has a price feed for `asset` was asked.
    OracleIsSupported { asset: u128, result: Result<bool, DispatchError> },
    /// The oracle price of `amount` of `asset` was asked.
    OraclePrice { asset: u128, amount: u128, result: Result<u128, DispatchError> },
}

/// The runtime hosting the protocol, with the history of all the calls the
/// protocol made to it. Every call goes through the host, which records it
/// with its arguments and what it returned.
pub struct OptionsHost<R: OptionsRuntime> {
    /// The hosting runtime.
    pub runtime: R,
    /// The calls made to the runtime, oldest first.
    pub calls: Ghost<Seq<OptionsCall>>,
    /// The events deposited, oldest first.
    pub events: Ghost<Seq<OptionsEvent>>,
}

impl<R: OptionsRuntime> OptionsHost<R> {
    /// A host for `runtime` with an empty history.
    pub fn new(runtime: R) -> (h: OptionsHost<R>)
        ensures
            h.runtime == runtime,
            h.calls@ == Seq::<OptionsCall>::empty(),
            h.events@ == Seq::<OptionsEvent>::empty(),
    {
        OptionsHost { runtime, calls: Ghost(Seq::empty()), events: Ghost(Seq::empty()) }
    }

    /// Deposits an event of the protocol and records it.
    pub fn deposit_event(&mut self, event: OptionsEvent)
        ensures
            final(self).calls@ == old(self).calls@,
            final(self).events@ == old(self).events@.push(event),
    {
        self.runtime.deposit_event(event);
        proof {
            self.events@ = self.events@.push(event);
        }
    }

    /// Calls `vault_create` of the runtime and records the call: a vault was created with `config`, managed by `manager`.
    pub fn vault_create(&mut self, config: &VaultConfig, manager: Account) -> (r: Result<u64, DispatchError>)
        ensures
            final(self).events@ == old(self).events@,
            final(self).calls@ == old(self).calls@.push(OptionsCall::VaultCreate { config: *config, manager, result: r }),
    {
        let r = self.runtime.vault_create(config, manager);
        proof {
            self.calls@ = self.calls@.push(OptionsCall::VaultCreate { config: *config, manager, result: r });
        }
        r
    }

    /// Calls `vault_calculate_lp_tokens_to_mint` of the runtime and records the call: the vault shares that depositing `amount` into vault `vault_id` would mint were asked.
    pub fn vault_calculate_lp_tokens_to_mint(&mut self, vault_id: u64, amount: u128) -> (r: Result<u128, DispatchError>)
        ensures
            final(self).events@ == old(self).events@,
            final(self).calls@ == old(self).calls@.push(OptionsCall::CalculateLpTokensToMint { vault_id, amount, result: r }),
    {
        let r = self.runtime.vault_calculate_lp_tokens_to_mint(vault_id, amount);
        proof {
            self.calls@ = self.calls@.push(OptionsCall::CalculateLpTokensToMint { vault_id, amount, result: r });
        }
        r
    }

    /// Calls `vault_deposit` of the runtime and records the call: `amount` was deposited from `from` into vault `vault_id`.
    pub fn vault_deposit(&mut self, vault_id: u64, from: Account, amount: u128) -> (r: Result<u128, DispatchError>)
        ensures
            final(self).events@ == old(self).events@,
            final(self).calls@ == old(self).calls@.push(OptionsCall::VaultDeposit { vault_id, from, amount, result: r }),
    {
        let r = self.runtime.vault_deposit(vault_id, from, amount);
        proof {
            self.calls@ = self.calls@.push(OptionsCall::VaultDeposit { vault_id, from, amount, result: r });
        }
        r
    }

    /// Calls `vault_lp_share_value` of the runtime and records the call: the asset value of `shares` shares of vault `vault_id` was asked.
    pub fn vault_lp_share_value(&mut self, vault_id: u64, shares: u128) -> (r: Result<u128, DispatchError>)
        ensures
            final(self).events@ == old(self).events@,
            final(self).calls@ == old(self).calls@.push(OptionsCall::LpShareValue { vault_id, shares, result: r }),
    {
        let r = self.runtime.vault_lp_share_value(vault_id, shares);
        proof {
            self.calls@ = self.calls@.push(OptionsCall::LpShareValue { vault_id, shares, result: r });
        }
        r
    }

    /// Calls `vault_withdraw` of the runtime and records the call: `shares` shares of vault `vault_id` were redeemed for `to`.
    pub fn vault_withdraw(&mut self, vault_id: u64, to: Account, shares: u128) -> (r: Result<u128, DispatchError>)
        ensures
            final(self).events@ == old(self).events@,
            final(self).calls@ == old(self).calls@.push(OptionsCall::VaultWithdraw { vault_id, to, shares, result: r }),
    {
        let r = self.runtime.vault_withdraw(vault_id, to, shares);
        proof {
            self.calls@ = self.calls@.push(OptionsCall::VaultWithdraw { vault_id, to, shares, result: r });
        }
        r
    }

    /// Calls `vault_amount_of_lp_token_for_added_liquidity` of the runtime and records the call: the shares of vault `vault_id` corresponding to `amount` were asked.
    pub fn vault_amount_of_lp_token_for_added_liquidity(&mut self, vault_id: u64, amount: u128) -> (r: Result<u128, DispatchError>)
        ensures
            final(self).events@ == old(self).events@,
            final(self).calls@ == old(self).calls@.push(OptionsCall::LpTokensForAddedLiquidity { vault_id, amount, result: r }),
    {
        let r = self.runtime.vault_amount_of_lp_token_for_added_liquidity(vault_id, amount);
        proof {
            self.calls@ = self.calls@.push(OptionsCall::LpTokensForAddedLiquidity { vault_id, amount, result: r });
        }
        r
    }

    /// Calls `vault_lp_asset_id` of the runtime and records the call: the asset id of the shares of vault `vault_id` was asked.
    pub fn vault_lp_asset_id(&mut self, vault_id: u64) -> (r: Result<u128, DispatchError>)
        ensures
            final(self).events@ == old(self).events@,
            final(self).calls@ == old(self).calls@.push(OptionsCall::LpAssetId { vault_id, result: r }),
    {
        let r = self.runtime.vault_lp_asset_id(vault_id);
        proof {
            self.calls@ = self.calls@.push(OptionsCall::LpAssetId { vault_id, result: r });
        }
        r
    }

    /// Calls `transfer` of the runtime and records the call: `amount` of `asset` was transferred from `from` to `to`.
    pub fn transfer(&mut self, asset: u128, from: Account, to: Account, amount: u128, keep_alive: bool) -> (r: Result<(), DispatchError>)
        ensures
            final(self).events@ == old(self).events@,
            final(self).calls@ == old(self).calls@.push(OptionsCall::Transfer { asset, from, to, amount, keep_alive, result: r }),
    {
        let r = self.runtime.transfer(asset, from, to, amount, keep_alive);
        proof {
            self.calls@ = self.calls@.push(OptionsCall::Transfer { asset, from, to, amount, keep_alive, result: r });
        }
        r
    }

    /// Calls `mint_into` of the runtime and records the call: `amount` of `asset` was minted into `to`.
    pub fn mint_into(&mut self, asset: u128, to: Account, amount: u128) -> (r: Result<(), DispatchError>)
        ensures
            final(self).events@ == old(self).events@,
            final(self).calls@ == old(self).calls@.push(OptionsCall::Mint { asset, to, amount, result: r }),
    {
        let r = self.runtime.mint_into(asset, to, amount);
        proof {
            self.calls@ = self.calls@.push(OptionsCall::Mint { asset, to, amount, result: r });
        }
        r
    }

    /// Calls `burn_from` of the runtime and records the call: `amount` of `asset` was burned from `from`.
    pub fn burn_from(&mut self, asset: u128, from: Account, amount: u128) -> (r: Result<(), DispatchError>)
        ensures
            final(self).events@ == old(self).events@,
            final(self).calls@ == old(self).calls@.push(OptionsCall::Burn { asset, from, amount, result: r }),
    {
        let r = self.runtime.burn_from(asset, from, amount);
        proof {
            self.calls@ = self.calls@.push(OptionsCall::Burn { asset, from, amount, result: r });
        }
        r
    }

    /// Calls `total_issuance` of the runtime and records the call: the total issuance of `asset` was asked.
    pub fn total_issuance(&mut self, asset: u128) -> (r: u128)
        ensures
            final(self).events@ == old(self).events@,
            final(self).calls@ == old(self).calls@.push(OptionsCall::TotalIssuance { asset, result: r }),
    {
        let r = self.runtime.total_issuance(asset);
        proof {
            self.calls@ = self.calls@.push(OptionsCall::TotalIssuance { asset, result: r });
        }
        r
    }

    /// Calls `balance` of the runtime and records the call: the balance of `asset` held by `who` was asked.
    pub fn balance(&mut self, asset: u128, who: Account) -> (r: u128)
        ensures
            final(self).events@ == old(self).events@,
            final(self).calls@ == old(self).calls@.push(OptionsCall::Balance { asset, who, result: r }),
    {
        let r = self.runtime.balance(asset, who);
        proof {
            self.calls@ = self.calls@.push(OptionsCall::Balance { asset, who, result: r });
        }
        r
    }

    /// Calls `currency_create` of the runtime and records the call: a new asset id was created.
    pub fn currency_create(&mut self) -> (r: Result<u128, DispatchError>)
        ensures
            final(self).events@ == old(self).events@,
            final(self).calls@ == old(self).calls@.push(OptionsCall::CurrencyCreate { result: r }),
    {
        let r = self.runtime.currency_create();
        proof {
            self.calls@ = self.calls@.push(OptionsCall::CurrencyCreate { result: r });
        }
        r
    }

    /// Calls `asset_unit` of the runtime and records the call: the unit of `asset` was asked.
    pub fn asset_unit(&mut self, asset: u128) -> (r: Result<u128, DispatchError>)
        ensures
            final(self).events@ == old(self).events@,
            final(self).calls@ == old(self).calls@.push(OptionsCall::AssetUnit { asset, result: r }),
    {
        let r = self.runtime.asset_unit(asset);
        proof {
            self.calls@ = self.calls@.push(OptionsCall::AssetUnit { asset, result: r });
        }
        r
    }

    /// Calls `oracle_is_supported` of the runtime and records the call: whether the oracle has a price feed for `asset` was asked.
    pub fn oracle_is_supported(&mut self, asset: u128) -> (r: Result<bool, DispatchError>)
        ensures
            final(self).events@ == old(self).events@,
            final(self).calls@ == old(self).calls@.push(OptionsCall::OracleIsSupported { asset, result: r }),
    {
        let r = self.runtime.oracle_is_supported(asset);
        proof {
            self.calls@ = self.calls@.push(OptionsCall::OracleIsSupported { asset, result: r });
        }
        r
    }

    /// Calls `oracle_price` of the runtime and records the call: the oracle price of `amount` of `asset` was asked.
    pub fn oracle_price(&mut self, asset: u128, amount: u128) -> (r: Result<u128, DispatchError>)
        ensures
            final(self).events@ == old(self).events@,
            final(self).calls@ == old(self).calls@.push(OptionsCall::OraclePrice { asset, amount, result: r }),
    {
        let r = self.runtime.oracle_price(asset, amount);
        proof {
            self.calls@ = self.calls@.push(OptionsCall::OraclePrice { asset, amount, result: r });
        }
        r
    }
}

} // verus!
