//! The scheduler that moves each option through its phases as time passes, and
//! the creation of asset vaults and options.
use crate::swap_bytes::{lemma_swap_bytes_u128_injective, reverse_bytes_u128};
use crate::tokenized_options::trading::settles_to;
use crate::tokenized_options::types::{
    Account, DispatchError, Epoch, Error, OptionConfig, OptionKey, OptionToken, OptionsCall, OptionsEvent, OptionsHost, OptionsRuntime, Status,
    VaultConfig,
};
use crate::tokenized_options::{
    entry_before, keys_unique, schedule_sorted, ScheduleEntry, TokenizedOptions,
};
use crate::origin::{is_protocol_origin, Origin};
use vstd::prelude::*;

verus! {

/// Two entries are for the same moment and the same option.
pub open spec fn same_slot(a: ScheduleEntry, b: ScheduleEntry) -> bool {
    a.moment == b.moment && a.option_id == b.option_id
}

/// Whether `x` is in a scheduler that held `s0` and then had the entries `es`
/// added in turn, each in place of the entry for its moment and option.
pub open spec fn scheduled(s0: Seq<ScheduleEntry>, es: Seq<ScheduleEntry>, x: ScheduleEntry) -> bool
    decreases es.len(),
{
    if es.len() == 0 {
        s0.contains(x)
    } else {
        x == es.last() || (scheduled(s0, es.drop_last(), x) && !same_slot(x, es.last()))
    }
}

/// The four phase changes of an option with the given epoch, in the order in
/// which they are scheduled.
pub open spec fn epoch_entries(epoch: Epoch, option_id: u128) -> Seq<ScheduleEntry> {
    seq![
        ScheduleEntry { moment: epoch.deposit, option_id, status: Status::Deposit },
        ScheduleEntry { moment: epoch.purchase, option_id, status: Status::Purchase },
        ScheduleEntry { moment: epoch.exercise, option_id, status: Status::Exercise },
        ScheduleEntry { moment: epoch.end, option_id, status: Status::End },
    ]
}

/// The identifying attributes of an option.
pub open spec fn key_of(c: OptionConfig) -> OptionKey {
    OptionKey {
        base_asset_id: c.base_asset_id,
        quote_asset_id: c.quote_asset_id,
        base_asset_strike_price: c.base_asset_strike_price,
        quote_asset_strike_price: c.quote_asset_strike_price,
        option_type: c.option_type,
        expiring_date: c.expiring_date,
        exercise_type: c.exercise_type,
    }
}

/// Whether an option with the identifying attributes `key` exists.
pub open spec fn key_taken(keys: Seq<(OptionKey, u128)>, key: OptionKey) -> bool {
    exists|i: int| 0 <= i < keys.len() && (#[trigger] keys[i]).0 == key
}

/// The attributes of a new option are consistent: distinct base and quote
/// assets, nonzero strike prices and amounts per option, nothing sold, bought
/// or settled yet, and phases in strictly increasing order of time.
pub open spec fn option_attributes_valid(c: OptionConfig) -> bool {
    &&& c.base_asset_id != c.quote_asset_id
    &&& c.base_asset_strike_price != 0
    &&& c.quote_asset_strike_price != 0
    &&& c.base_asset_amount_per_option != 0
    &&& c.quote_asset_amount_per_option != 0
    &&& c.total_issuance_seller == 0
    &&& c.total_premium_paid == 0
    &&& c.exercise_amount == 0
    &&& c.base_asset_spot_price == 0
    &&& c.total_issuance_buyer == 0
    &&& c.total_shares_amount == 0
    &&& c.epoch.deposit < c.epoch.purchase
    &&& c.epoch.purchase < c.epoch.exercise
    &&& c.epoch.exercise < c.epoch.end
}

/// Two options agree on everything but their phase and the results of
/// settlement.
pub open spec fn same_terms(a: OptionToken, b: OptionToken) -> bool {
    b == OptionConfig {
        status: b.status,
        exercise_amount: b.exercise_amount,
        base_asset_spot_price: b.base_asset_spot_price,
        total_issuance_buyer: b.total_issuance_buyer,
        total_shares_amount: b.total_shares_amount,
        ..a
    }
}

/// Whether `new` is what option `old` becomes when it enters phase `status`:
/// entering the exercise phase settles the option; an option is never moved
/// back to the not-started phase.
pub open spec fn status_changed(old: OptionToken, status: Status, new: OptionToken) -> bool {
    match status {
        Status::NotStarted => new == old,
        Status::Exercise => exists|settled: OptionToken| settles_to(old, settled) && new == (OptionConfig { status: Status::Exercise, ..settled }),
        _ => new == (OptionConfig { status, ..old }),
    }
}

/// The phase that the entries `es` last move option `id` into, if any.
pub open spec fn last_phase(es: Seq<ScheduleEntry>, id: u128) -> Option<Status>
    decreases es.len(),
{
    if es.len() == 0 {
        None
    } else if es.last().option_id == id && es.last().status != Status::NotStarted {
        Some(es.last().status)
    } else {
        last_phase(es.drop_last(), id)
    }
}

/// The options after the due entries `done` of the scheduler were applied to
/// `old`: an option that no entry moved is unchanged; one that was moved is in
/// the phase of its last entry, with the same terms.
pub open spec fn phases_applied(old: Map<u128, OptionToken>, done: Seq<ScheduleEntry>, new: Map<u128, OptionToken>) -> bool {
    &&& new.dom() == old.dom()
    &&& forall|id: u128| #[trigger] old.contains_key(id) ==> match last_phase(done, id) {
        None => new[id] == old[id],
        Some(st) => new[id].status == st && same_terms(old[id], new[id]),
    }
}

/// Of two entries, one comes first unless they are for the same moment and
/// option.
proof fn lemma_entry_order_total(a: ScheduleEntry, b: ScheduleEntry)
    ensures
        entry_before(a, b) || entry_before(b, a) || same_slot(a, b),
{
    if !entry_before(a, b) && !entry_before(b, a) {
        lemma_swap_bytes_u128_injective(a.option_id, b.option_id);
    }
}

/// Whether entry `a` comes before entry `b` in the scheduler.
fn is_before(a: &ScheduleEntry, b: &ScheduleEntry) -> (r: bool)
    ensures
        r == entry_before(*a, *b),
{
    if a.moment != b.moment {
        a.moment < b.moment
    } else {
        reverse_bytes_u128(a.option_id) < reverse_bytes_u128(b.option_id)
    }
}

/// Adds `e` to an ordered scheduler, in place of the entry for the same moment
/// and option if there is one. The scheduler stays ordered.
pub fn schedule_insert(s: &mut Vec<ScheduleEntry>, e: ScheduleEntry)
    requires
        schedule_sorted(old(s)@),
    ensures
        schedule_sorted(final(s)@),
        forall|x: ScheduleEntry| #[trigger] final(s)@.contains(x) <==> (x == e || (old(s)@.contains(x) && !same_slot(x, e))),
{
    let ghost o = s@;
    let mut i: usize = 0;
    while i < s.len() && is_before(&s[i], &e)
        invariant
            i <= s.len(),
            s@ == o,
            schedule_sorted(o),
            forall|j: int| 0 <= j < i ==> entry_before(#[trigger] o[j], e),
        decreases s.len() - i,
    {
        i = i + 1;
    }
    if i < s.len() && s[i].moment == e.moment && s[i].option_id == e.option_id {
        proof {
            assert forall|j: int| 0 <= j < o.len() && j != i implies !same_slot(#[trigger] o[j], e) by {
                if j < i {
                    assert(entry_before(o[j], o[i as int]));
                } else {
                    assert(entry_before(o[i as int], o[j]));
                }
            }
        }
        s.set(i, e);
        proof {
            let n = s@;
            assert(n == o.update(i as int, e));
            assert forall|j: int, k: int| 0 <= j < k < n.len() implies entry_before(#[trigger] n[j], #[trigger] n[k]) by {
                assert(entry_before(o[j], o[k]));
            }
            assert forall|x: ScheduleEntry| #[trigger] n.contains(x) <==> (x == e || (o.contains(x) && !same_slot(x, e))) by {
                if n.contains(x) {
                    let k = choose|k: int| 0 <= k < n.len() && n[k] == x;
                    if k != i {
                        assert(o[k] == x);
                    }
                }
                if x == e {
                    assert(n[i as int] == x);
                }
                if o.contains(x) && !same_slot(x, e) {
                    let k = choose|k: int| 0 <= k < o.len() && o[k] == x;
                    assert(k != i);
                    assert(n[k] == x);
                }
            }
        }
    } else {
        proof {
            if i < o.len() {
                lemma_entry_order_total(o[i as int], e);
            }
            assert forall|j: int| 0 <= j < o.len() implies !same_slot(#[trigger] o[j], e) by {
                if j < i {
                    assert(entry_before(o[j], e));
                } else {
                    assert(entry_before(e, o[i as int]));
                    if j > i {
                        assert(entry_before(o[i as int], o[j]));
                    }
                }
            }
            assert forall|j: int| i <= j < o.len() implies entry_before(e, #[trigger] o[j]) by {
                if j > i {
                    assert(entry_before(o[i as int], o[j]));
                }
            }
        }
        s.insert(i, e);
        proof {
            let n = s@;
            assert(n == o.insert(i as int, e));
            assert forall|j: int, k: int| 0 <= j < k < n.len() implies entry_before(#[trigger] n[j], #[trigger] n[k]) by {
                if k < i {
                    assert(entry_before(o[j], o[k]));
                } else if k == i {
                } else if j < i {
                    assert(entry_before(o[j], e));
                    assert(entry_before(e, o[k - 1]));
                } else if j == i {
                    assert(entry_before(e, o[k - 1]));
                } else {
                    assert(entry_before(o[j - 1], o[k - 1]));
                }
            }
            assert forall|x: ScheduleEntry| #[trigger] n.contains(x) <==> (x == e || (o.contains(x) && !same_slot(x, e))) by {
                if n.contains(x) {
                    let k = choose|k: int| 0 <= k < n.len() && n[k] == x;
                    if k < i {
                        assert(o[k] == x);
                    } else if k > i {
                        assert(o[k - 1] == x);
                    }
                }
                if x == e {
                    assert(n[i as int] == x);
                }
                if o.contains(x) {
                    let k = choose|k: int| 0 <= k < o.len() && o[k] == x;
                    if k < i {
                        assert(n[k] == x);
                    } else {
                        assert(n[k + 1] == x);
                    }
                }
            }
        }
    }
}

/// Adding one more entry to a scheduler extends the list of entries added.
proof fn lemma_scheduled_step(s0: Seq<ScheduleEntry>, es: Seq<ScheduleEntry>, e: ScheduleEntry, prev: Seq<ScheduleEntry>, next: Seq<ScheduleEntry>)
    requires
        forall|x: ScheduleEntry| #[trigger] prev.contains(x) <==> scheduled(s0, es, x),
        forall|x: ScheduleEntry| #[trigger] next.contains(x) <==> (x == e || (prev.contains(x) && !same_slot(x, e))),
    ensures
        forall|x: ScheduleEntry| #[trigger] next.contains(x) <==> scheduled(s0, es.push(e), x),
{
    assert(es.push(e).drop_last() =~= es);
    assert forall|x: ScheduleEntry| #[trigger] next.contains(x) <==> scheduled(s0, es.push(e), x) by {
        assert(prev.contains(x) <==> scheduled(s0, es, x));
    }
}

/// Applying one more due entry extends the entries applied.
proof fn lemma_phase_step(o0: Map<u128, OptionToken>, done: Seq<ScheduleEntry>, e: ScheduleEntry, prev: Map<u128, OptionToken>, next: Map<u128, OptionToken>)
    requires
        phases_applied(o0, done, prev),
        next == (if prev.contains_key(e.option_id) {
            prev.insert(e.option_id, next[e.option_id])
        } else {
            prev
        }),
        prev.contains_key(e.option_id) ==> status_changed(prev[e.option_id], e.status, next[e.option_id]),
        prev.contains_key(e.option_id) ==> same_terms(prev[e.option_id], next[e.option_id]),
    ensures
        phases_applied(o0, done.push(e), next),
{
    let d = done.push(e);
    assert(d.drop_last() =~= done);
    assert(d.last() == e);
    assert forall|id: u128| #[trigger] o0.contains_key(id) implies match last_phase(d, id) {
        None => next[id] == o0[id],
        Some(st) => next[id].status == st && same_terms(o0[id], next[id]),
    } by {
        if id == e.option_id && e.status != Status::NotStarted {
            if e.status == Status::Exercise {
                let settled = choose|settled: OptionToken| settles_to(prev[id], settled) && next[id] == (OptionConfig { status: Status::Exercise, ..settled });
            }
        }
    }
    assert(next.dom() =~= o0.dom());
}

/// A part of an ordered scheduler is ordered.
proof fn lemma_sorted_suffix(s: Seq<ScheduleEntry>, k: int)
    requires
        schedule_sorted(s),
        0 <= k <= s.len(),
    ensures
        schedule_sorted(s.subrange(k, s.len() as int)),
{
    let t = s.subrange(k, s.len() as int);
    assert forall|i: int, j: int| 0 <= i < j < t.len() implies entry_before(#[trigger] t[i], #[trigger] t[j]) by {
        assert(t[i] == s[k + i] && t[j] == s[k + j]);
    }
}

/// The state after the scheduler ran at time `now` over `old`, having applied
/// its first `k` entries: `ok` when it stopped at the first entry that is not
/// due, otherwise at an entry whose settlement failed.
pub open spec fn initialized(old: TokenizedOptions, new: TokenizedOptions, now: u64, k: int, ok: bool) -> bool {
    let s = old.scheduler@;
    &&& 0 <= k <= s.len()
    &&& new.scheduler@ == s.subrange(k, s.len() as int)
    &&& forall|i: int| 0 <= i < k ==> (#[trigger] s[i]).moment <= now
    &&& phases_applied(old.options@, s.subrange(0, k), new.options@)
    &&& ok ==> k == s.len() || s[k].moment > now
    &&& !ok ==> k < s.len() && s[k].moment <= now && s[k].status == Status::Exercise
}

/// Once the scheduler has run at time `now` without error, no phase change
/// that is due at `now` is left in it.
pub proof fn lemma_no_due_entry_left(old: TokenizedOptions, new: TokenizedOptions, now: u64, k: int)
    requires
        schedule_sorted(old.scheduler@),
        initialized(old, new, now, k, true),
    ensures
        forall|j: int| 0 <= j < new.scheduler@.len() ==> (#[trigger] new.scheduler@[j]).moment > now,
{
    let s = old.scheduler@;
    assert forall|j: int| 0 <= j < new.scheduler@.len() implies (#[trigger] new.scheduler@[j]).moment > now by {
        assert(new.scheduler@[j] == s[k + j]);
        if j > 0 {
            assert(entry_before(s[k], s[k + j]));
        }
    }
}

/// The events of moving option `id`, which exists if `exists`, into phase
/// `moment`: none for a missing option or the not-started phase; the phase's
/// start (or the option's end); settling comes first for the exercise phase.
pub open spec fn status_events(old: Seq<OptionsEvent>, new: Seq<OptionsEvent>, id: u128, moment: Status, exists: bool) -> bool {
    if !exists {
        new == old
    } else {
        match moment {
            Status::NotStarted => new == old,
            Status::Deposit => new == old.push(OptionsEvent::OptionDepositStart { option_id: id }),
            Status::Purchase => new == old.push(OptionsEvent::OptionPurchaseStart { option_id: id }),
            Status::Exercise => new == old.push(OptionsEvent::SettleOption { option_id: id }).push(OptionsEvent::OptionExerciseStart { option_id: id }),
            Status::End => new == old.push(OptionsEvent::OptionEnd { option_id: id }),
        }
    }
}

/// The events of moving option `id`, which exists if `exists`, into phase
/// `moment`, in the order they are deposited.
pub open spec fn moment_events(id: u128, moment: Status, exists: bool) -> Seq<OptionsEvent> {
    if !exists {
        Seq::empty()
    } else {
        match moment {
            Status::NotStarted => Seq::empty(),
            Status::Deposit => seq![OptionsEvent::OptionDepositStart { option_id: id }],
            Status::Purchase => seq![OptionsEvent::OptionPurchaseStart { option_id: id }],
            Status::Exercise => seq![OptionsEvent::SettleOption { option_id: id }, OptionsEvent::OptionExerciseStart { option_id: id }],
            Status::End => seq![OptionsEvent::OptionEnd { option_id: id }],
        }
    }
}

/// The events that applying the phase changes `entries` in order deposits,
/// the options existing being those of `options`.
pub open spec fn phase_events(options: Map<u128, OptionToken>, entries: Seq<ScheduleEntry>) -> Seq<OptionsEvent>
    decreases entries.len(),
{
    if entries.len() == 0 {
        Seq::empty()
    } else {
        let e = entries.last();
        phase_events(options, entries.drop_last()) + moment_events(e.option_id, e.status, options.contains_key(e.option_id))
    }
}

/// One more applied phase change appends its events.
proof fn lemma_phase_events_step(options: Map<u128, OptionToken>, s: Seq<ScheduleEntry>, k: int, first: Seq<OptionsEvent>, before: Seq<OptionsEvent>, after: Seq<OptionsEvent>)
    requires
        0 <= k < s.len(),
        before == first + phase_events(options, s.subrange(0, k)),
        status_events(before, after, s[k].option_id, s[k].status, options.contains_key(s[k].option_id)),
    ensures
        after == first + phase_events(options, s.subrange(0, k + 1)),
{
    let m = moment_events(s[k].option_id, s[k].status, options.contains_key(s[k].option_id));
    assert(s.subrange(0, k + 1).drop_last() =~= s.subrange(0, k));
    assert(s.subrange(0, k + 1).last() == s[k]);
    assert(after =~= before + m);
    assert(phase_events(options, s.subrange(0, k + 1)) == phase_events(options, s.subrange(0, k)) + m);
    assert((first + phase_events(options, s.subrange(0, k))) + m =~= first + (phase_events(options, s.subrange(0, k)) + m));
}

/// Creating a vault for `config` made the calls from `old` to `new` and gave
/// `r`: the oracle is asked whether it prices the asset; unless it answers
/// that it does, the asset is not supported; otherwise a vault is created for
/// `config`, managed by the protocol's account for the asset, and its id is
/// the result.
pub open spec fn vault_created(old: Seq<OptionsCall>, new: Seq<OptionsCall>, config: VaultConfig, r: Result<u64, DispatchError>) -> bool {
    let asset = config.asset_id;
    &&& new.len() > old.len()
    &&& new.subrange(0, old.len() as int) == old
    &&& match new[old.len() as int] {
        OptionsCall::OracleIsSupported { asset: a, result: Ok(true) } => a == asset && new.len() == old.len() + 2
            && new[old.len() + 1int] == (OptionsCall::VaultCreate { config, manager: Account::Protocol(asset), result: r }),
        OptionsCall::OracleIsSupported { asset: a, result: _ } => a == asset && new.len() == old.len() + 1
            && r == Err::<u64, DispatchError>(DispatchError::Module(Error::AssetIsNotSupported)),
        _ => false,
    }
}

impl TokenizedOptions {
    /// Schedules the four phase changes of an option: deposit, purchase,
    /// exercise and end, each at its moment of the epoch. A later entry for the
    /// same moment and option replaces an earlier one.
    fn schedule_option(&mut self, epoch: Epoch, option_id: u128)
        requires
            schedule_sorted(old(self).scheduler@),
        ensures
            schedule_sorted(final(self).scheduler@),
            forall|x: ScheduleEntry| #[trigger] final(self).scheduler@.contains(x) <==> scheduled(old(self).scheduler@, epoch_entries(epoch, option_id), x),
            final(self).asset_to_vault == old(self).asset_to_vault,
            final(self).options == old(self).options,
            final(self).option_keys == old(self).option_keys,
            final(self).sellers == old(self).sellers,
            final(self).stablecoin_asset_id == old(self).stablecoin_asset_id,
            final(self).protocol_account == old(self).protocol_account,
    {
        let ghost s0 = self.scheduler@;
        let e1 = ScheduleEntry { moment: epoch.deposit, option_id, status: Status::Deposit };
        let e2 = ScheduleEntry { moment: epoch.purchase, option_id, status: Status::Purchase };
        let e3 = ScheduleEntry { moment: epoch.exercise, option_id, status: Status::Exercise };
        let e4 = ScheduleEntry { moment: epoch.end, option_id, status: Status::End };
        proof {
            assert forall|x: ScheduleEntry| #[trigger] s0.contains(x) <==> scheduled(s0, Seq::<ScheduleEntry>::empty(), x) by {}
        }
        schedule_insert(&mut self.scheduler, e1);
        let ghost s1 = self.scheduler@;
        proof {
            lemma_scheduled_step(s0, Seq::empty(), e1, s0, s1);
            assert(Seq::<ScheduleEntry>::empty().push(e1) =~= seq![e1]);
        }
        schedule_insert(&mut self.scheduler, e2);
        let ghost s2 = self.scheduler@;
        proof {
            lemma_scheduled_step(s0, seq![e1], e2, s1, s2);
            assert(seq![e1].push(e2) =~= seq![e1, e2]);
        }
        schedule_insert(&mut self.scheduler, e3);
        let ghost s3 = self.scheduler@;
        proof {
            lemma_scheduled_step(s0, seq![e1, e2], e3, s2, s3);
            assert(seq![e1, e2].push(e3) =~= seq![e1, e2, e3]);
        }
        schedule_insert(&mut self.scheduler, e4);
        proof {
            lemma_scheduled_step(s0, seq![e1, e2, e3], e4, s3, self.scheduler@);
            assert(seq![e1, e2, e3].push(e4) =~= epoch_entries(epoch, option_id));
        }
    }

    /// The id of the option with the given identifying attributes, if any.
    pub fn options_hash(&self, key: &OptionKey) -> (r: Option<u128>)
        ensures
            r is Some <==> key_taken(self.option_keys@, *key),
            r is Some ==> self.option_keys@.contains((*key, r->Some_0)),
    {
        let mut i: usize = 0;
        while i < self.option_keys.len()
            invariant
                i <= self.option_keys.len(),
                forall|j: int| 0 <= j < i ==> (#[trigger] self.option_keys@[j]).0 != *key,
            decreases self.option_keys.len() - i,
        {
            let (k, id) = self.option_keys[i];
            if k == *key {
                assert(self.option_keys@[i as int] == (*key, id));
                return Some(id);
            }
            i = i + 1;
        }
        None
    }

    /// Creates a vault for an asset, managed by the protocol's account for that
    /// asset, and records it. The asset must have no vault yet and must be
    /// supported by the oracle.
    pub fn create_asset_vault<R: OptionsRuntime>(&mut self, rt: &mut OptionsHost<R>, origin: Origin, vault_config: VaultConfig) -> (r: Result<u64, DispatchError>)
        ensures
            !is_protocol_origin(origin, old(self).protocol_account) ==> r == Err::<u64, DispatchError>(DispatchError::BadOrigin)
                && final(rt).calls@ == old(rt).calls@,
            is_protocol_origin(origin, old(self).protocol_account) && old(self).asset_to_vault@.contains_key(vault_config.asset_id)
                ==> r == Err::<u64, DispatchError>(DispatchError::Module(Error::AssetVaultAlreadyExists))
                && final(rt).calls@ == old(rt).calls@,
            is_protocol_origin(origin, old(self).protocol_account) && !old(self).asset_to_vault@.contains_key(vault_config.asset_id) ==> vault_created(old(rt).calls@, final(rt).calls@, vault_config, r),
            r matches Ok(id) ==> final(rt).events@ == old(rt).events@.push(OptionsEvent::CreatedAssetVault { vault_id: id, asset_id: vault_config.asset_id }),
            r is Err ==> final(rt).events@ == old(rt).events@,
            r is Err ==> *final(self) == *old(self),
            r is Ok ==> final(self).asset_to_vault@ == old(self).asset_to_vault@.insert(vault_config.asset_id, r->Ok_0),
            final(self).options == old(self).options,
            final(self).option_keys == old(self).option_keys,
            final(self).sellers == old(self).sellers,
            final(self).scheduler == old(self).scheduler,
            final(self).stablecoin_asset_id == old(self).stablecoin_asset_id,
            final(self).protocol_account == old(self).protocol_account,
    {
        if !origin.is_protocol(self.protocol_account) {
            return Err(DispatchError::BadOrigin);
        }
        let asset_id = vault_config.asset_id;
        if self.asset_id_to_vault_id(asset_id).is_some() {
            return Err(DispatchError::Module(Error::AssetVaultAlreadyExists));
        }
        match rt.oracle_is_supported(asset_id) {
            Ok(true) => {},
            _ => {
                assert(rt.calls@.subrange(0, old(rt).calls@.len() as int) =~= old(rt).calls@);
                return Err(DispatchError::Module(Error::AssetIsNotSupported));
            },
        }
        let manager = Self::account_id(asset_id);
        let created = rt.vault_create(&vault_config, manager);
        assert(rt.calls@.subrange(0, old(rt).calls@.len() as int) =~= old(rt).calls@);
        let vault_id = created?;
        self.asset_to_vault.insert(asset_id, vault_id);
        rt.deposit_event(OptionsEvent::CreatedAssetVault { vault_id, asset_id });
        Ok(vault_id)
    }

    /// Creates an option: a new asset id is made for its tokens, the option is
    /// stored in its not-started phase, its identifying attributes are
    /// recorded, and its four phase changes are scheduled. No option with the
    /// same attributes may exist, both its assets need a vault, and its
    /// attributes must be consistent.
    pub fn create_option<R: OptionsRuntime>(&mut self, rt: &mut OptionsHost<R>, origin: Origin, option_config: OptionConfig) -> (r: Result<u128, DispatchError>)
        requires
            old(self).wf(),
        ensures
            final(self).wf(),
            r matches Ok(id) ==> final(rt).events@ == old(rt).events@.push(OptionsEvent::CreatedOption { option_id: id, option_config }),
            r is Err ==> final(rt).events@ == old(rt).events@,
            !is_protocol_origin(origin, old(self).protocol_account) ==> r == Err::<u128, DispatchError>(DispatchError::BadOrigin)
                && final(rt).calls@ == old(rt).calls@,
            is_protocol_origin(origin, old(self).protocol_account) && key_taken(old(self).option_keys@, key_of(option_config))
                ==> r == Err::<u128, DispatchError>(DispatchError::Module(Error::OptionAlreadyExists)),
            is_protocol_origin(origin, old(self).protocol_account) && !key_taken(old(self).option_keys@, key_of(option_config)) && !(old(self).asset_to_vault@.contains_key(option_config.base_asset_id) && old(self).asset_to_vault@.contains_key(option_config.quote_asset_id))
                ==> r == Err::<u128, DispatchError>(DispatchError::Module(Error::OptionAssetVaultsDoNotExist)),
            is_protocol_origin(origin, old(self).protocol_account) && !key_taken(old(self).option_keys@, key_of(option_config)) && old(self).asset_to_vault@.contains_key(option_config.base_asset_id) && old(self).asset_to_vault@.contains_key(option_config.quote_asset_id) && !option_attributes_valid(option_config)
                ==> r == Err::<u128, DispatchError>(DispatchError::Module(Error::OptionAttributesAreInvalid)),
            r is Err ==> *final(self) == *old(self),
            r is Ok ==> {
                let id = r->Ok_0;
                &&& option_attributes_valid(option_config)
                &&& final(self).options@ == old(self).options@.insert(id, OptionConfig { status: Status::NotStarted, ..option_config })
                &&& final(self).option_keys@ == old(self).option_keys@.push((key_of(option_config), id))
                &&& forall|x: ScheduleEntry| #[trigger] final(self).scheduler@.contains(x) <==> scheduled(old(self).scheduler@, epoch_entries(option_config.epoch, id), x)
            },
            final(self).asset_to_vault == old(self).asset_to_vault,
            final(self).sellers == old(self).sellers,
            final(self).stablecoin_asset_id == old(self).stablecoin_asset_id,
            final(self).protocol_account == old(self).protocol_account,
    {
        if !origin.is_protocol(self.protocol_account) {
            return Err(DispatchError::BadOrigin);
        }
        let key = Self::generate_id(
            option_config.base_asset_id,
            option_config.quote_asset_id,
            option_config.base_asset_strike_price,
            option_config.quote_asset_strike_price,
            option_config.option_type,
            option_config.expiring_date,
            option_config.exercise_type,
        );
        if self.options_hash(&key).is_some() {
            return Err(DispatchError::Module(Error::OptionAlreadyExists));
        }
        if self.asset_id_to_vault_id(option_config.base_asset_id).is_none() || self.asset_id_to_vault_id(option_config.quote_asset_id).is_none() {
            return Err(DispatchError::Module(Error::OptionAssetVaultsDoNotExist));
        }
        let c = option_config;
        let valid = c.base_asset_id != c.quote_asset_id && c.base_asset_strike_price != 0 && c.quote_asset_strike_price != 0
            && c.base_asset_amount_per_option != 0 && c.quote_asset_amount_per_option != 0 && c.total_issuance_seller == 0
            && c.total_premium_paid == 0 && c.exercise_amount == 0 && c.base_asset_spot_price == 0 && c.total_issuance_buyer == 0
            && c.total_shares_amount == 0 && c.epoch.deposit < c.epoch.purchase && c.epoch.purchase < c.epoch.exercise
            && c.epoch.exercise < c.epoch.end;
        if !valid {
            return Err(DispatchError::Module(Error::OptionAttributesAreInvalid));
        }
        let option_id = rt.currency_create()?;
        let option = OptionConfig { status: Status::NotStarted, ..option_config };
        let ghost keys0 = self.option_keys@;
        self.option_keys.push((key, option_id));
        proof {
            assert forall|i: int, j: int| 0 <= i < j < self.option_keys@.len() implies (#[trigger] self.option_keys@[i]).0 != (#[trigger] self.option_keys@[j]).0 by {
                if j == keys0.len() {
                    assert(keys0[i] == self.option_keys@[i]);
                } else {
                    assert(keys0[i] == self.option_keys@[i] && keys0[j] == self.option_keys@[j]);
                }
            }
        }
        self.options.insert(option_id, option);
        self.schedule_option(option_config.epoch, option_id);
        rt.deposit_event(OptionsEvent::CreatedOption { option_id, option_config });
        Ok(option_id)
    }

    /// Moves an option into its exercise phase, settling it first.
    fn option_exercise_start<R: OptionsRuntime>(&self, rt: &mut OptionsHost<R>, option_id: u128, option: &mut OptionToken) -> (r: Result<(), DispatchError>)
        ensures
            r is Err ==> *final(option) == *old(option),
            r is Ok ==> status_changed(*old(option), Status::Exercise, *final(option)),
            r is Ok ==> same_terms(*old(option), *final(option)),
            r is Ok ==> final(rt).events@ == old(rt).events@.push(OptionsEvent::SettleOption { option_id }).push(OptionsEvent::OptionExerciseStart { option_id }),
            r is Err ==> final(rt).events@ == old(rt).events@,
    {
        self.do_settle_option(rt, option_id, option)?;
        let ghost settled = *option;
        option.status = Status::Exercise;
        rt.deposit_event(OptionsEvent::OptionExerciseStart { option_id });
        Ok(())
    }

    /// Moves option `option_id`, if it exists, into phase `moment_type`.
    /// Nothing moves an option back to its not-started phase.
    pub fn option_status_change<R: OptionsRuntime>(&mut self, rt: &mut OptionsHost<R>, option_id: u128, moment_type: Status) -> (r: Result<(), DispatchError>)
        ensures
            !old(self).options@.contains_key(option_id) || moment_type != Status::Exercise ==> r is Ok,
            r is Err ==> *final(self) == *old(self),
            r is Ok ==> final(self).options@ == (if old(self).options@.contains_key(option_id) {
                old(self).options@.insert(option_id, final(self).options@[option_id])
            } else {
                old(self).options@
            }),
            r is Ok && old(self).options@.contains_key(option_id) ==> status_changed(old(self).options@[option_id], moment_type, final(self).options@[option_id]),
            r is Ok && old(self).options@.contains_key(option_id) ==> same_terms(old(self).options@[option_id], final(self).options@[option_id]),
            r is Ok ==> status_events(old(rt).events@, final(rt).events@, option_id, moment_type, old(self).options@.contains_key(option_id)),
            r is Err ==> final(rt).events@ == old(rt).events@,
            final(self).asset_to_vault == old(self).asset_to_vault,
            final(self).option_keys == old(self).option_keys,
            final(self).sellers == old(self).sellers,
            final(self).scheduler == old(self).scheduler,
            final(self).stablecoin_asset_id == old(self).stablecoin_asset_id,
            final(self).protocol_account == old(self).protocol_account,
    {
        let mut option = match self.option_id_to_option(option_id) {
            Some(o) => o,
            None => return Ok(()),
        };
        match moment_type {
            Status::NotStarted => {
                proof {
                    assert(old(self).options@.insert(option_id, option) =~= old(self).options@);
                }
                return Ok(());
            },
            Status::Deposit => {
                option.status = Status::Deposit;
                rt.deposit_event(OptionsEvent::OptionDepositStart { option_id });
            },
            Status::Purchase => {
                option.status = Status::Purchase;
                rt.deposit_event(OptionsEvent::OptionPurchaseStart { option_id });
            },
            Status::Exercise => {
                self.option_exercise_start(rt, option_id, &mut option)?;
            },
            Status::End => {
                option.status = Status::End;
                rt.deposit_event(OptionsEvent::OptionEnd { option_id });
            },
        }
        self.options.insert(option_id, option);
        Ok(())
    }

    /// Applies the phase changes that are due at time `now`: while the first
    /// entry of the scheduler is not after `now`, moves its option into its
    /// phase and removes the entry. When settling an option fails, stops with
    /// that error and leaves the failing entry first in the scheduler.
    pub fn on_initialize<R: OptionsRuntime>(&mut self, rt: &mut OptionsHost<R>, now: u64) -> (r: Result<(), DispatchError>)
        requires
            old(self).wf(),
        ensures
            final(self).wf(),
            exists|k: int| #[trigger] initialized(*old(self), *final(self), now, k, r is Ok)
                && final(rt).events@ == old(rt).events@ + phase_events(old(self).options@, old(self).scheduler@.subrange(0, k)),
            final(self).asset_to_vault == old(self).asset_to_vault,
            final(self).option_keys == old(self).option_keys,
            final(self).sellers == old(self).sellers,
            final(self).stablecoin_asset_id == old(self).stablecoin_asset_id,
            final(self).protocol_account == old(self).protocol_account,
    {
        let ghost s0 = self.scheduler@;
        let ghost o0 = self.options@;
        let ghost mut k: int = 0;
        proof {
            assert(s0.subrange(0, s0.len() as int) =~= s0);
            assert(s0.subrange(0, 0) =~= Seq::<ScheduleEntry>::empty());
            assert(old(rt).events@ + phase_events(o0, s0.subrange(0, 0)) =~= old(rt).events@);
            assert(self.options@.dom() =~= o0.dom());
        }
        loop
            invariant
                0 <= k <= s0.len(),
                self.scheduler@ == s0.subrange(k, s0.len() as int),
                forall|i: int| 0 <= i < k ==> (#[trigger] s0[i]).moment <= now,
                phases_applied(o0, s0.subrange(0, k), self.options@),
                schedule_sorted(s0),
                s0 == old(self).scheduler@,
                o0 == old(self).options@,
                keys_unique(self.option_keys@),
                self.asset_to_vault == old(self).asset_to_vault,
                self.option_keys == old(self).option_keys,
                self.sellers == old(self).sellers,
                self.stablecoin_asset_id == old(self).stablecoin_asset_id,
                self.protocol_account == old(self).protocol_account,
                self.options@.dom() == o0.dom(),
                rt.events@ == old(rt).events@ + phase_events(o0, s0.subrange(0, k)),
            ensures
                k == s0.len() || s0[k].moment > now,
            decreases s0.len() - k,
        {
            if self.scheduler.len() == 0 {
                break;
            }
            let entry = self.scheduler[0];
            assert(entry == s0[k]);
            if now < entry.moment {
                break;
            }
            let ghost prev = self.options@;
            let ghost ev_prev = rt.events@;
            assert(prev.contains_key(entry.option_id) == o0.contains_key(entry.option_id));
            match self.option_status_change(rt, entry.option_id, entry.status) {
                Ok(()) => {},
                Err(e) => {
                    proof {
                        lemma_sorted_suffix(s0, k);
                        assert(initialized(*old(self), *self, now, k, false));
                    }
                    return Err(e);
                },
            }
            self.scheduler.remove(0);
            proof {
                lemma_phase_events_step(o0, s0, k, old(rt).events@, ev_prev, rt.events@);
                assert(self.options@.dom() =~= o0.dom());
                lemma_phase_step(o0, s0.subrange(0, k), entry, prev, self.options@);
                assert(s0.subrange(0, k).push(entry) =~= s0.subrange(0, k + 1));
                assert(self.scheduler@ =~= s0.subrange(k + 1, s0.len() as int));
                k = k + 1;
            }
        }
        let r: Result<(), DispatchError> = Ok(());
        proof {
            lemma_sorted_suffix(s0, k);
            assert(initialized(*old(self), *self, now, k, r is Ok));
        }
        r
    }
}

} // verus!
