//! Options pricing: the interest rate used by the Black-Scholes model, the
//! latest pricing snapshot of each option and their history.
//!
//! The model itself is not in use yet: every price is the fixed premium of
//! 1000 units of a 12-decimal stablecoin, and the model's intermediate values
//! are placeholders.
use crate::arith::{Decimal, DIV};
use crate::origin::{is_protocol_origin, Origin};
use crate::tokenized_options::types::OptionType;
use std::collections::HashMap;
use vstd::prelude::*;
use vstd::std_specs::iter::IteratorSpec;

verus! {

/// The inputs of the Black-Scholes model for an option.
#[derive(Clone, Copy, Debug, PartialEq, Eq, Structural)]
pub struct BlackScholesParams {
    /// The asset the option is on.
    pub base_asset_id: u128,
    /// Strike price in base asset.
    pub base_asset_strike_price: u128,
    /// Current price of the base asset.
    pub base_asset_spot_price: u128,
    /// Expiry time.
    pub expiring_date: u64,
    /// Call or put.
    pub option_type: OptionType,
    /// Options bought.
    pub total_issuance_buyer: u128,
    /// Premium paid by buyers.
    pub total_premium_paid: u128,
}

/// The pricing state of an option at some moment.
#[derive(Clone, Copy, Debug, PartialEq, Eq, Structural)]
pub struct Snapshot {
    /// The interest rate.
    pub interest_rate: Decimal,
    /// The implied volatility.
    pub iv: Decimal,
    /// Sensitivity to the spot price.
    pub delta: Decimal,
    /// Sensitivity to time.
    pub theta: Decimal,
    /// Sensitivity to the interest rate.
    pub rho: Decimal,
    /// Sensitivity to volatility.
    pub vega: Decimal,
    /// Sensitivity of delta to the spot price.
    pub gamma: Decimal,
    /// The option's price.
    pub option_price: u128,
    /// The base asset's spot price.
    pub asset_spot_price: u128,
    /// Options bought.
    pub total_issuance_buyer: u128,
    /// Premium paid by buyers.
    pub total_premium_paid: u128,
}

/// Errors of options pricing.
#[derive(Clone, Copy, Debug, PartialEq, Eq, Structural)]
pub enum Error {
    /// A value could not be converted.
    FailedConversion,
    /// No interest rate is set.
    InterestRateNotSet,
    /// No snapshot time is recorded.
    LatestSnapshotTimestampNotSet,
    /// The call's origin is neither governance nor the protocol's account.
    BadOrigin,
}

/// The fixed option price: 1000 units of a 12-decimal stablecoin.
pub open spec fn fixed_option_price() -> int {
    1000int * 1_000_000_000_000int
}

/// The time between snapshots when none is configured: one day in seconds.
pub open spec fn default_snapshot_frequency() -> int {
    86400int
}

/// The snapshot of option `id` recorded at moment `t` in a history, if any.
pub open spec fn history_entry(h: Map<u128, HashMap<u64, Snapshot>>, id: u128, t: u64) -> Option<Snapshot> {
    if h.contains_key(id) && h[id]@.contains_key(t) {
        Some(h[id]@[t])
    } else {
        None
    }
}

/// The moment of the next snapshot: the latest snapshot time (zero if none)
/// plus the snapshot frequency (one day if none), saturating.
pub open spec fn next_snapshot_moment(latest: Option<u64>, frequency: Option<u64>) -> u64 {
    let l: int = match latest {
        Some(t) => t as int,
        None => 0,
    };
    let f: int = match frequency {
        Some(t) => t as int,
        None => default_snapshot_frequency(),
    };
    if l + f > u64::MAX {
        u64::MAX
    } else {
        (l + f) as u64
    }
}

/// Records `snapshot` for option `id` at moment `t` in a history.
fn history_insert(history: &mut HashMap<u128, HashMap<u64, Snapshot>>, id: u128, t: u64, snapshot: Snapshot)
    ensures
        forall|i: u128, s: u64| #[trigger] history_entry(final(history)@, i, s) == if i == id && s == t {
            Some(snapshot)
        } else {
            history_entry(old(history)@, i, s)
        },
{
    broadcast use vstd::std_specs::hash::group_hash_axioms;
    let mut inner: HashMap<u64, Snapshot> = match history.get(&id) {
        Some(m) => m.clone(),
        None => HashMap::new(),
    };
    inner.insert(t, snapshot);
    history.insert(id, inner);
}

/// Records every latest snapshot in the history at moment `t`.
fn record_snapshots(history: &mut HashMap<u128, HashMap<u64, Snapshot>>, latest: &HashMap<u128, Snapshot>, t: u64)
    ensures
        forall|i: u128, s: u64| #[trigger] history_entry(final(history)@, i, s) == if s == t && latest@.contains_key(i) {
            Some(latest@[i])
        } else {
            history_entry(old(history)@, i, s)
        },
{
    broadcast use vstd::std_specs::hash::group_hash_axioms;
    let ghost h0 = history@;
    let ghost ks = latest.keys().remaining();
    proof {
        assert forall|i: u128| #[trigger] latest@.contains_key(i) implies exists|j: int| 0 <= j < ks.len() && *ks[j] == i by {
            assert(ks.unref().to_set().contains(i));
            assert(ks.unref().contains(i));
            let j = choose|j: int| 0 <= j < ks.unref().len() && ks.unref()[j] == i;
            assert(*ks[j] == i);
        }
        assert forall|j: int| 0 <= j < ks.len() implies latest@.contains_key(*#[trigger] ks[j]) by {
            assert(ks.unref()[j] == *ks[j]);
            assert(ks.unref().contains(*ks[j]));
            assert(ks.unref().to_set().contains(*ks[j]));
        }
    }
    for id in it: latest.keys()
        invariant
            it.seq() == ks,
            forall|j: int| 0 <= j < ks.len() ==> latest@.contains_key(*#[trigger] ks[j]),
            forall|i: u128| #[trigger] latest@.contains_key(i) ==> exists|j: int| 0 <= j < ks.len() && *ks[j] == i,
            forall|i: u128, s: u64| #[trigger] history_entry(history@, i, s) == if s == t && (exists|j: int| 0 <= j < it.index() && *ks[j] == i) {
                Some(latest@[i])
            } else {
                history_entry(h0, i, s)
            },
    {
        let snapshot = *latest.get(id).unwrap();
        history_insert(history, *id, t, snapshot);
    }
}

/// The initial state of options pricing.
pub struct GenesisConfig {
    /// The interest rate.
    pub interest_rate_index: Decimal,
    /// The time of the latest snapshot, if any.
    pub latest_snapshot_timestamp: Option<u64>,
    /// The time between snapshots, if configured.
    pub snapshot_frequency: Option<u64>,
}

impl Default for GenesisConfig {
    /// An interest rate of 5%, no snapshot yet and no configured frequency.
    fn default() -> (r: GenesisConfig)
        ensures
            r.interest_rate_index.inner == DIV / 20,
            r.latest_snapshot_timestamp is None,
            r.snapshot_frequency is None,
    {
        let interest_rate_index = match Decimal::checked_from_rational(1, 20) {
            Some(d) => d,
            None => Decimal::zero(),
        };
        GenesisConfig { interest_rate_index, latest_snapshot_timestamp: None, snapshot_frequency: None }
    }
}

impl GenesisConfig {
    /// The storage this configuration starts with.
    pub fn build(&self) -> (r: OptionsPricing)
        ensures
            r.interest_rate == self.interest_rate_index,
            r.latest_snapshot_timestamp == self.latest_snapshot_timestamp,
            r.snapshot_frequency == self.snapshot_frequency,
            r.latest_snapshots@ == Map::<u128, Snapshot>::empty(),
            r.snapshots_history@ == Map::<u128, HashMap<u64, Snapshot>>::empty(),
            r.protocol_account is None,
    {
        OptionsPricing {
            interest_rate: self.interest_rate_index,
            snapshot_frequency: self.snapshot_frequency,
            latest_snapshot_timestamp: self.latest_snapshot_timestamp,
            latest_snapshots: HashMap::new(),
            snapshots_history: HashMap::new(),
            protocol_account: None,
        }
    }
}

/// The storage of options pricing.
pub struct OptionsPricing {
    /// The interest rate.
    pub interest_rate: Decimal,
    /// The time between snapshots, if configured.
    pub snapshot_frequency: Option<u64>,
    /// The time of the latest snapshot, if any.
    pub latest_snapshot_timestamp: Option<u64>,
    /// The latest snapshot of each option.
    pub latest_snapshots: HashMap<u128, Snapshot>,
    /// Recorded snapshots by option, then by moment.
    pub snapshots_history: HashMap<u128, HashMap<u64, Snapshot>>,
    /// The account that may act for the protocol besides governance, if any.
    pub protocol_account: Option<u64>,
}

impl OptionsPricing {
    /// The snapshot of option `option_id` recorded at `moment`, if any.
    pub fn snapshots_history(&self, option_id: u128, moment: u64) -> (r: Option<Snapshot>)
        ensures
            r == history_entry(self.snapshots_history@, option_id, moment),
    {
        broadcast use vstd::std_specs::hash::group_hash_axioms;
        match self.snapshots_history.get(&option_id) {
            Some(m) => match m.get(&moment) {
                Some(s) => Some(*s),
                None => None,
            },
            None => None,
        }
    }

    /// At each block: when the next snapshot moment (the latest snapshot time
    /// plus the snapshot frequency) is after `now`, records every option's
    /// latest snapshot in the history at that moment.
    pub fn on_initialize(&mut self, now: u64)
        ensures
            forall|i: u128, s: u64| #[trigger] history_entry(final(self).snapshots_history@, i, s) == {
                let t = next_snapshot_moment(old(self).latest_snapshot_timestamp, old(self).snapshot_frequency);
                if t > now && s == t && old(self).latest_snapshots@.contains_key(i) {
                    Some(old(self).latest_snapshots@[i])
                } else {
                    history_entry(old(self).snapshots_history@, i, s)
                }
            },
            final(self).interest_rate == old(self).interest_rate,
            final(self).snapshot_frequency == old(self).snapshot_frequency,
            final(self).latest_snapshot_timestamp == old(self).latest_snapshot_timestamp,
            final(self).latest_snapshots == old(self).latest_snapshots,
    {
        let latest_snapshot_timestamp: u64 = match self.latest_snapshot_timestamp {
            Some(t) => t,
            None => 0,
        };
        let snapshot_frequency: u64 = match self.snapshot_frequency {
            Some(t) => t,
            None => 86400,
        };
        let new_snapshot_timestamp = latest_snapshot_timestamp.saturating_add(snapshot_frequency);
        if new_snapshot_timestamp > now {
            record_snapshots(&mut self.snapshots_history, &self.latest_snapshots, new_snapshot_timestamp);
        }
    }

    /// The price of option `option_id`: the fixed premium. Only governance or
    /// the protocol's account may ask.
    pub fn calculate_option_price(&self, origin: Origin, option_id: u128, params: BlackScholesParams) -> (r: Result<u128, Error>)
        ensures
            r == (if is_protocol_origin(origin, self.protocol_account) {
                Ok::<u128, Error>(fixed_option_price() as u128)
            } else {
                Err(Error::BadOrigin)
            }),
    {
        if !origin.is_protocol(self.protocol_account) {
            return Err(Error::BadOrigin);
        }
        Self::do_calculate_option_price(option_id, params)
    }

    /// Computes the greeks of option `option_id`; they are not recorded. Only
    /// governance or the protocol's account may ask.
    pub fn calculate_option_greeks(&self, origin: Origin, option_id: u128, params: BlackScholesParams) -> (r: Result<(), Error>)
        ensures
            r == (if is_protocol_origin(origin, self.protocol_account) { Ok::<(), Error>(()) } else { Err(Error::BadOrigin) }),
    {
        if !origin.is_protocol(self.protocol_account) {
            return Err(Error::BadOrigin);
        }
        Self::do_calculate_option_greeks(option_id, params)
    }

    /// Accepts a new interest rate from governance or the protocol's account;
    /// the stored rate is left as it is.
    pub fn update_interest_rate(&mut self, origin: Origin, interest_rate: Decimal) -> (r: Result<(), Error>)
        ensures
            r == (if is_protocol_origin(origin, old(self).protocol_account) { Ok::<(), Error>(()) } else { Err(Error::BadOrigin) }),
            *final(self) == *old(self),
    {
        if !origin.is_protocol(self.protocol_account) {
            return Err(Error::BadOrigin);
        }
        Ok(())
    }

    /// Accepts a new snapshot frequency from governance or the protocol's
    /// account; the stored frequency is left as it is.
    pub fn update_snapshot_frequency(&mut self, origin: Origin, snapshot_frequency: u64) -> (r: Result<(), Error>)
        ensures
            r == (if is_protocol_origin(origin, old(self).protocol_account) { Ok::<(), Error>(()) } else { Err(Error::BadOrigin) }),
            *final(self) == *old(self),
    {
        if !origin.is_protocol(self.protocol_account) {
            return Err(Error::BadOrigin);
        }
        Ok(())
    }

    /// Sets the interest rate.
    pub fn do_update_interest_rate(&mut self, interest_rate: Decimal) -> (r: Result<(), Error>)
        ensures
            r == Ok::<(), Error>(()),
            *final(self) == (OptionsPricing { interest_rate, ..*old(self) }),
    {
        self.interest_rate = interest_rate;
        Ok(())
    }

    /// Sets the snapshot frequency.
    pub fn do_update_snapshot_frequency(&mut self, snapshot_frequency: u64) -> (r: Result<(), Error>)
        ensures
            r == Ok::<(), Error>(()),
            *final(self) == (OptionsPricing { snapshot_frequency: Some(snapshot_frequency), ..*old(self) }),
    {
        self.snapshot_frequency = Some(snapshot_frequency);
        Ok(())
    }

    /// The price of an option: the fixed premium.
    fn do_calculate_option_price(option_id: u128, params: BlackScholesParams) -> (r: Result<u128, Error>)
        ensures
            r == Ok::<u128, Error>(fixed_option_price() as u128),
    {
        Ok(1000u128 * 1_000_000_000_000u128)
    }

    /// The Black-Scholes price of an option: its intermediate values are
    /// computed, and the fixed premium is returned.
    pub fn black_scholes(strike_price: Decimal, spot_price: Decimal, time_annualized: Decimal, interest_rate: Decimal, iv: Decimal, option_type: OptionType) -> (r: Result<u128, Error>)
        ensures
            r == Ok::<u128, Error>(fixed_option_price() as u128),
    {
        let (d1, d2) = Self::calculate_d1_d2(strike_price, spot_price, time_annualized, interest_rate, iv)?;
        let _option_price = match option_type {
            OptionType::Call => Self::calculate_call_price(strike_price, spot_price, time_annualized, interest_rate, d1, d2)?,
            OptionType::Put => Self::calculate_put_price(strike_price, spot_price, time_annualized, interest_rate, d1, d2)?,
        };
        Ok(1000u128 * 1_000_000_000_000u128)
    }

    /// The time to expiry in years: one, for now.
    pub fn get_expiry_time_annualized(expiry_date: u64) -> (r: Result<Decimal, Error>)
        ensures
            r == Ok::<Decimal, Error>(Decimal { inner: DIV as i128 }),
    {
        Ok(Decimal::one())
    }

    /// The standard normal cumulative distribution function: one, for now.
    pub fn normal_cumulative_distribution_function(value: Decimal) -> (r: Result<Decimal, Error>)
        ensures
            r == Ok::<Decimal, Error>(Decimal { inner: DIV as i128 }),
    {
        Ok(Decimal::one())
    }

    /// The standard normal probability density function: one, for now.
    pub fn normal_probability_density_function(value: Decimal) -> (r: Result<Decimal, Error>)
        ensures
            r == Ok::<Decimal, Error>(Decimal { inner: DIV as i128 }),
    {
        Ok(Decimal::one())
    }

    /// The model's `d1` and `d2`: the smallest positive decimal each, for now.
    pub fn calculate_d1_d2(strike_price: Decimal, spot_price: Decimal, time_annualized: Decimal, interest_rate: Decimal, iv: Decimal) -> (r: Result<(Decimal, Decimal), Error>)
        ensures
            r == Ok::<(Decimal, Decimal), Error>((Decimal { inner: 1 }, Decimal { inner: 1 })),
    {
        Ok((Decimal::from_inner(1), Decimal::from_inner(1)))
    }

    /// The price of a call: one, for now.
    pub fn calculate_call_price(strike_price: Decimal, spot_price: Decimal, time_annualized: Decimal, interest_rate: Decimal, d1: Decimal, d2: Decimal) -> (r: Result<Decimal, Error>)
        ensures
            r == Ok::<Decimal, Error>(Decimal { inner: DIV as i128 }),
    {
        Ok(Decimal::one())
    }

    /// The price of a put: one, for now.
    pub fn calculate_put_price(strike_price: Decimal, spot_price: Decimal, time_annualized: Decimal, interest_rate: Decimal, d1: Decimal, d2: Decimal) -> (r: Result<Decimal, Error>)
        ensures
            r == Ok::<Decimal, Error>(Decimal { inner: DIV as i128 }),
    {
        Ok(Decimal::one())
    }

    /// Computes the greeks of an option; none is recorded.
    fn do_calculate_option_greeks(option_id: u128, params: BlackScholesParams) -> (r: Result<(), Error>)
        ensures
            r == Ok::<(), Error>(()),
    {
        Ok(())
    }

    /// Delta of a call and of a put: one each, for now.
    pub fn calculate_delta(d1: Decimal) -> (r: Result<(Decimal, Decimal), Error>)
        ensures
            r == Ok::<(Decimal, Decimal), Error>((Decimal { inner: DIV as i128 }, Decimal { inner: DIV as i128 })),
    {
        Ok((Decimal::one(), Decimal::one()))
    }

    /// Gamma: one, for now.
    pub fn calculate_gamma(spot_price: Decimal, time_annualized: Decimal, iv: Decimal, d1: Decimal) -> (r: Result<Decimal, Error>)
        ensures
            r == Ok::<Decimal, Error>(Decimal { inner: DIV as i128 }),
    {
        Ok(Decimal::one())
    }

    /// Vega: one, for now.
    pub fn calculate_vega(spot_price: Decimal, time_annualized: Decimal, d1: Decimal) -> (r: Result<Decimal, Error>)
        ensures
            r == Ok::<Decimal, Error>(Decimal { inner: DIV as i128 }),
    {
        Ok(Decimal::one())
    }

    /// Theta of a call and of a put: one each, for now.
    pub fn calculate_theta(strike_price: Decimal, spot_price: Decimal, time_annualized: Decimal, interest_rate: Decimal, iv: Decimal, d1: Decimal, d2: Decimal) -> (r: Result<(Decimal, Decimal), Error>)
        ensures
            r == Ok::<(Decimal, Decimal), Error>((Decimal { inner: DIV as i128 }, Decimal { inner: DIV as i128 })),
    {
        Ok((Decimal::one(), Decimal::one()))
    }

    /// Rho of a call and of a put: one each, for now.
    pub fn calculate_rho(strike_price: Decimal, time_annualized: Decimal, interest_rate: Decimal, d2: Decimal) -> (r: Result<(Decimal, Decimal), Error>)
        ensures
            r == Ok::<(Decimal, Decimal), Error>((Decimal { inner: DIV as i128 }, Decimal { inner: DIV as i128 })),
    {
        Ok((Decimal::one(), Decimal::one()))
    }
}

} // verus!
