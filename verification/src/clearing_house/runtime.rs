//! The services the clearing house relies on: a virtual AMM per market, a price
//! oracle and an asset ledger. The runtime that hosts the clearing house
//! implements them; nothing is assumed of their results.
use crate::clearing_house::types::{AssetType, Direction, DispatchError, SwapConfig, VammConfig};
use vstd::prelude::*;

verus! {

/// An account of the asset ledger.
#[derive(Clone, Copy, Debug, PartialEq, Eq, Structural)]
pub enum Account {
    /// A trader's account.
    User(u64),
    /// The clearing house account holding traders' collateral.
    Collateral,
    /// The clearing house account holding insurance funds.
    Insurance,
    /// The clearing house account holding a market's Fee Pool.
    FeePool(u64),
}

/// A call that changes the state of the hosting runtime, with its arguments
/// and what it returned.
pub enum RuntimeCall {
    /// A vAMM was created with `config`.
    VammCreate { config: VammConfig, result: Result<u64, DispatchError> },
    /// A swap described by `config` was performed.
    VammSwap { config: SwapConfig, result: Result<u128, DispatchError> },
    /// The price TWAP of vAMM `vamm_id` was updated.
    VammUpdateTwap { vamm_id: u64, result: Result<(), DispatchError> },
    /// vAMM `vamm_id` was scheduled to close at `when`.
    VammClose { vamm_id: u64, when: u64, result: Result<(), DispatchError> },
    /// `amount` of `asset` was transferred from `from` to `to`.
    Transfer { asset: u128, from: Account, to: Account, amount: u128, keep_alive: bool, result: Result<(), DispatchError> },
}

/// Services of the hosting runtime: the vAMMs, the price oracle and the asset
/// ledger the clearing house is configured with. The runtime implements them;
/// nothing is assumed of what they return.
pub trait Runtime {
    /// Creates a new vAMM and returns its id.
    fn vamm_create(&mut self, config: &VammConfig) -> Result<u64, DispatchError>;

    /// Performs a swap in a vAMM and returns the output amount.
    fn vamm_swap(&mut self, config: &SwapConfig) -> Result<u128, DispatchError>;

    /// Returns the output amount a swap would have, without performing it.
    fn vamm_swap_simulation(&self, config: &SwapConfig) -> Result<u128, DispatchError>;

    /// Returns the current price of an asset of a vAMM.
    fn vamm_get_price(&self, vamm_id: u64, asset: AssetType) -> Result<u128, DispatchError>;

    /// Returns the price TWAP of an asset of a vAMM.
    fn vamm_get_twap(&self, vamm_id: u64, asset: AssetType) -> Result<u128, DispatchError>;

    /// Returns the settlement price of a closed vAMM.
    fn vamm_get_settlement_price(&self, vamm_id: u64) -> Result<u128, DispatchError>;

    /// Updates the price TWAP of a vAMM.
    fn vamm_update_twap(&mut self, vamm_id: u64) -> Result<(), DispatchError>;

    /// Schedules the closing of a vAMM.
    fn vamm_close(&mut self, vamm_id: u64, when: u64) -> Result<(), DispatchError>;

    /// Whether the oracle has a price feed for the asset.
    fn oracle_is_supported(&self, asset: u128) -> Result<bool, DispatchError>;

    /// The oracle price of the asset, at the scale of decimals.
    fn oracle_price(&self, asset: u128) -> Result<u128, DispatchError>;

    /// Transfers an amount of an asset between two accounts.
    fn transfer(&mut self, asset: u128, from: Account, to: Account, amount: u128, keep_alive: bool) -> Result<(), DispatchError>;

    /// The balance of an asset held by an account.
    fn balance(&self, asset: u128, who: Account) -> u128;

    /// Deposits an event of the clearing house.
    fn deposit_event(&mut self, event: Event);
}

/// An event of the clearing house, deposited with the runtime.
#[derive(Clone, Copy, Debug, PartialEq, Eq, Structural)]
pub enum Event {
    /// A close time was set for a market.
    CloseMarket { market_id: u64, when: u64 },
    /// Margin was added to an account.
    MarginAdded { account: u64, asset: u128, amount: u128 },
    /// A market was created.
    MarketCreated { market: u64, asset: u128 },
    /// A trade was executed.
    TradeExecuted { market: u64, direction: Direction, quote: u128, base: u128 },
    /// The funding rate of a market was updated.
    FundingUpdated { market: u64, time: u64 },
    /// An account was fully liquidated.
    FullLiquidation { user: u64 },
    /// An account was partially liquidated.
    PartialLiquidation { user: u64 },
    /// A position was closed.
    PositionClosed { user: u64, market: u64, direction: Direction, base: u128 },
    /// Collateral was withdrawn by a trader.
    CollateralWithdrawn { user: u64, amount: u128 },
    /// A position in a closed market was settled.
    SettledPosition { user: u64, market: u64 },
}

/// A read of the price oracle or of a vAMM's price, with what it returned.
pub enum RuntimeRead {
    /// Whether the oracle has a price feed for `asset` was asked.
    OracleIsSupported { asset: u128, result: Result<bool, DispatchError> },
    /// The oracle price of `asset` was asked.
    OraclePrice { asset: u128, result: Result<u128, DispatchError> },
    /// The current price of asset `asset` of vAMM `vamm_id` was asked.
    VammPrice { vamm_id: u64, asset: AssetType, result: Result<u128, DispatchError> },
    /// The price TWAP of asset `asset` of vAMM `vamm_id` was asked.
    VammTwap { vamm_id: u64, asset: AssetType, result: Result<u128, DispatchError> },
    /// The settlement price of vAMM `vamm_id` was asked.
    VammSettlementPrice { vamm_id: u64, result: Result<u128, DispatchError> },
    /// What a swap would give was asked, without swapping.
    VammSwapSimulation { config: SwapConfig, result: Result<u128, DispatchError> },
    /// The balance of `asset` held by `who` was asked.
    Balance { asset: u128, who: Account, result: u128 },
}

/// `new` extends the history `old`.
pub open spec fn extends(old: Seq<RuntimeCall>, new: Seq<RuntimeCall>) -> bool {
    old.len() <= new.len() && forall|i: int| 0 <= i < old.len() ==> #[trigger] new[i] == old[i]
}

/// `new` is `old` with one more call.
pub open spec fn pushed(old: Seq<RuntimeCall>, new: Seq<RuntimeCall>) -> bool {
    new.len() > 0 && new == old.push(new.last())
}

/// `new` is `old` with one more read.
pub open spec fn pushed_read(old: Seq<RuntimeRead>, new: Seq<RuntimeRead>) -> bool {
    new.len() > 0 && new == old.push(new.last())
}

/// Read history `new` begins with read history `old`.
pub open spec fn reads_extended(old: Seq<RuntimeRead>, new: Seq<RuntimeRead>) -> bool {
    old.len() <= new.len() && forall|i: int| 0 <= i < old.len() ==> #[trigger] new[i] == old[i]
}

/// The last call recorded after history `old` in history `new` is a swap or
/// a transfer that failed with `e`.
pub open spec fn call_failed_with(old: Seq<RuntimeCall>, new: Seq<RuntimeCall>, e: DispatchError) -> bool {
    new.len() > old.len() && match new.last() {
        RuntimeCall::VammSwap { result, .. } => result == Err::<u128, DispatchError>(e),
        RuntimeCall::Transfer { result, .. } => result == Err::<(), DispatchError>(e),
        _ => false,
    }
}

/// The last read recorded after read history `old` in read history `new` is
/// a swap simulation that failed with `e`.
pub open spec fn read_failed_with(old: Seq<RuntimeRead>, new: Seq<RuntimeRead>, e: DispatchError) -> bool {
    new.len() > old.len() && match new.last() {
        RuntimeRead::VammSwapSimulation { result, .. } => result == Err::<u128, DispatchError>(e),
        _ => false,
    }
}

/// The calls of history `new` that came after history `old`.
pub open spec fn added(old: Seq<RuntimeCall>, new: Seq<RuntimeCall>) -> Seq<RuntimeCall> {
    new.subrange(old.len() as int, new.len() as int)
}

/// The runtime hosting the clearing house, with the history of the calls the
/// clearing house made to it that change its state. Every such call goes
/// through the host, which records it with its arguments and outcome.
pub struct Host<R: Runtime> {
    /// The hosting runtime.
    pub runtime: R,
    /// The calls that changed the runtime's state, oldest first.
    pub calls: Ghost<Seq<RuntimeCall>>,
    /// The reads of the oracle and of vAMM prices, oldest first.
    pub reads: Ghost<Seq<RuntimeRead>>,
    /// The events deposited, oldest first.
    pub events: Ghost<Seq<Event>>,
}

impl<R: Runtime> Host<R> {
    /// A host for `runtime` with an empty history.
    pub fn new(runtime: R) -> (h: Host<R>)
        ensures
            h.runtime == runtime,
            h.calls@ == Seq::<RuntimeCall>::empty(),
            h.reads@ == Seq::<RuntimeRead>::empty(),
            h.events@ == Seq::<Event>::empty(),
    {
        Host { runtime, calls: Ghost(Seq::empty()), reads: Ghost(Seq::empty()), events: Ghost(Seq::empty()) }
    }

    /// Creates a new vAMM and returns its id.
    pub fn vamm_create(&mut self, config: &VammConfig) -> (r: Result<u64, DispatchError>)
        ensures
            final(self).calls@ == old(self).calls@.push(RuntimeCall::VammCreate { config: *config, result: r }),
            final(self).reads@ == old(self).reads@,
            final(self).events@ == old(self).events@,
    {
        let r = self.runtime.vamm_create(config);
        proof {
            self.calls@ = self.calls@.push(RuntimeCall::VammCreate { config: *config, result: r });
        }
        r
    }

    /// Performs a swap in a vAMM and returns the output amount.
    pub fn vamm_swap(&mut self, config: &SwapConfig) -> (r: Result<u128, DispatchError>)
        ensures
            final(self).calls@ == old(self).calls@.push(RuntimeCall::VammSwap { config: *config, result: r }),
            final(self).reads@ == old(self).reads@,
            final(self).events@ == old(self).events@,
    {
        let r = self.runtime.vamm_swap(config);
        proof {
            self.calls@ = self.calls@.push(RuntimeCall::VammSwap { config: *config, result: r });
        }
        r
    }

    /// Updates the price TWAP of a vAMM.
    pub fn vamm_update_twap(&mut self, vamm_id: u64) -> (r: Result<(), DispatchError>)
        ensures
            final(self).calls@ == old(self).calls@.push(RuntimeCall::VammUpdateTwap { vamm_id, result: r }),
            final(self).reads@ == old(self).reads@,
            final(self).events@ == old(self).events@,
    {
        let r = self.runtime.vamm_update_twap(vamm_id);
        proof {
            self.calls@ = self.calls@.push(RuntimeCall::VammUpdateTwap { vamm_id, result: r });
        }
        r
    }

    /// Schedules the closing of a vAMM.
    pub fn vamm_close(&mut self, vamm_id: u64, when: u64) -> (r: Result<(), DispatchError>)
        ensures
            final(self).calls@ == old(self).calls@.push(RuntimeCall::VammClose { vamm_id, when, result: r }),
            final(self).reads@ == old(self).reads@,
            final(self).events@ == old(self).events@,
    {
        let r = self.runtime.vamm_close(vamm_id, when);
        proof {
            self.calls@ = self.calls@.push(RuntimeCall::VammClose { vamm_id, when, result: r });
        }
        r
    }

    /// Transfers an amount of an asset between two accounts.
    pub fn transfer(&mut self, asset: u128, from: Account, to: Account, amount: u128, keep_alive: bool) -> (r: Result<(), DispatchError>)
        ensures
            final(self).calls@ == old(self).calls@.push(RuntimeCall::Transfer { asset, from, to, amount, keep_alive, result: r }),
            final(self).reads@ == old(self).reads@,
            final(self).events@ == old(self).events@,
    {
        let r = self.runtime.transfer(asset, from, to, amount, keep_alive);
        proof {
            self.calls@ = self.calls@.push(RuntimeCall::Transfer { asset, from, to, amount, keep_alive, result: r });
        }
        r
    }

    /// Deposits an event of the clearing house and records it.
    pub fn deposit_event(&mut self, event: Event)
        ensures
            final(self).calls@ == old(self).calls@,
            final(self).reads@ == old(self).reads@,
            final(self).events@ == old(self).events@.push(event),
    {
        self.runtime.deposit_event(event);
        proof {
            self.events@ = self.events@.push(event);
        }
    }

    /// Returns the output amount a swap would have, without performing it,
    /// and records the read.
    pub fn vamm_swap_simulation(&mut self, config: &SwapConfig) -> (r: Result<u128, DispatchError>)
        ensures
            final(self).calls@ == old(self).calls@,
            final(self).reads@ == old(self).reads@.push(RuntimeRead::VammSwapSimulation { config: *config, result: r }),
            final(self).events@ == old(self).events@,
    {
        let r = self.runtime.vamm_swap_simulation(config);
        proof {
            self.reads@ = self.reads@.push(RuntimeRead::VammSwapSimulation { config: *config, result: r });
        }
        r
    }

    /// Returns the current price of an asset of a vAMM, and records the read.
    pub fn vamm_get_price(&mut self, vamm_id: u64, asset: AssetType) -> (r: Result<u128, DispatchError>)
        ensures
            final(self).calls@ == old(self).calls@,
            final(self).reads@ == old(self).reads@.push(RuntimeRead::VammPrice { vamm_id, asset, result: r }),
            final(self).events@ == old(self).events@,
    {
        let r = self.runtime.vamm_get_price(vamm_id, asset);
        proof {
            self.reads@ = self.reads@.push(RuntimeRead::VammPrice { vamm_id, asset, result: r });
        }
        r
    }

    /// Returns the price TWAP of an asset of a vAMM, and records the read.
    pub fn vamm_get_twap(&mut self, vamm_id: u64, asset: AssetType) -> (r: Result<u128, DispatchError>)
        ensures
            final(self).calls@ == old(self).calls@,
            final(self).reads@ == old(self).reads@.push(RuntimeRead::VammTwap { vamm_id, asset, result: r }),
            final(self).events@ == old(self).events@,
    {
        let r = self.runtime.vamm_get_twap(vamm_id, asset);
        proof {
            self.reads@ = self.reads@.push(RuntimeRead::VammTwap { vamm_id, asset, result: r });
        }
        r
    }

    /// Returns the settlement price of a closed vAMM, and records the read.
    pub fn vamm_get_settlement_price(&mut self, vamm_id: u64) -> (r: Result<u128, DispatchError>)
        ensures
            final(self).calls@ == old(self).calls@,
            final(self).reads@ == old(self).reads@.push(RuntimeRead::VammSettlementPrice { vamm_id, result: r }),
            final(self).events@ == old(self).events@,
    {
        let r = self.runtime.vamm_get_settlement_price(vamm_id);
        proof {
            self.reads@ = self.reads@.push(RuntimeRead::VammSettlementPrice { vamm_id, result: r });
        }
        r
    }

    /// Whether the oracle has a price feed for the asset; the read is recorded.
    pub fn oracle_is_supported(&mut self, asset: u128) -> (r: Result<bool, DispatchError>)
        ensures
            final(self).calls@ == old(self).calls@,
            final(self).reads@ == old(self).reads@.push(RuntimeRead::OracleIsSupported { asset, result: r }),
            final(self).events@ == old(self).events@,
    {
        let r = self.runtime.oracle_is_supported(asset);
        proof {
            self.reads@ = self.reads@.push(RuntimeRead::OracleIsSupported { asset, result: r });
        }
        r
    }

    /// The oracle price of the asset, at the scale of decimals; the read is
    /// recorded.
    pub fn oracle_price(&mut self, asset: u128) -> (r: Result<u128, DispatchError>)
        ensures
            final(self).calls@ == old(self).calls@,
            final(self).reads@ == old(self).reads@.push(RuntimeRead::OraclePrice { asset, result: r }),
            final(self).events@ == old(self).events@,
    {
        let r = self.runtime.oracle_price(asset);
        proof {
            self.reads@ = self.reads@.push(RuntimeRead::OraclePrice { asset, result: r });
        }
        r
    }

    /// The balance of an asset held by an account; the read is recorded.
    pub fn balance(&mut self, asset: u128, who: Account) -> (r: u128)
        ensures
            final(self).calls@ == old(self).calls@,
            final(self).reads@ == old(self).reads@.push(RuntimeRead::Balance { asset, who, result: r }),
            final(self).events@ == old(self).events@,
    {
        let r = self.runtime.balance(asset, who);
        proof {
            self.reads@ = self.reads@.push(RuntimeRead::Balance { asset, who, result: r });
        }
        r
    }
}

} // verus!
