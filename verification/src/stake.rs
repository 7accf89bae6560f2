//! The validator set, built from L1 stake-table events.
//!
//! The stake-table contract on L1 emits registrations, exits,
//! delegations, undelegations and key updates; replaying them in their
//! on-chain order yields the validator set of an epoch. The fold here is
//! pure and exact: every event either applies as the contract's rules
//! say or fails the whole replay with the first offence, and along the
//! replay every validator's recorded stake stays the sum of its
//! delegations. Afterwards the selection step keeps the well-funded
//! validators, at most [`MAX_SELECTED_VALIDATORS`] of them.
//!
//! Accounts and keys are carried as 64-bit model values; stake amounts
//! as 128-bit integers.

use vstd::prelude::*;

verus! {

/// The number of validators kept by the selection step.
pub const MAX_SELECTED_VALIDATORS: usize = 100;

/// The target total stake weight of a dispersal; a validator needs at
/// least the maximum stake divided by this to be selected.
pub const VID_TARGET_TOTAL_STAKE: u128 = 1000;

/// One validator with its delegations.
#[derive(Clone, Debug, PartialEq, Eq)]
pub struct Validator {
    /// The validator's account address.
    pub account: u64,
    /// The validator's consensus (BLS) key.
    pub bls_key: u64,
    /// The validator's state (Schnorr) key.
    pub schnorr_key: u64,
    /// Total stake delegated to the validator.
    pub stake: u128,
    /// Commission in basis points.
    pub commission: u16,
    /// The delegators and their stakes.
    pub delegators: Vec<(u64, u128)>,
}

/// The mathematical shape of a validator: the same fields, with the
/// delegations as a sequence.
pub struct ValidatorModel {
    /// The validator's account address.
    pub account: u64,
    /// The validator's consensus (BLS) key.
    pub bls_key: u64,
    /// The validator's state (Schnorr) key.
    pub schnorr_key: u64,
    /// Total stake delegated to the validator.
    pub stake: u128,
    /// Commission in basis points.
    pub commission: u16,
    /// The delegators and their stakes.
    pub delegators: Seq<(u64, u128)>,
}

impl Validator {
    /// The mathematical validator this value holds.
    pub open spec fn view(&self) -> ValidatorModel {
        ValidatorModel {
            account: self.account,
            bls_key: self.bls_key,
            schnorr_key: self.schnorr_key,
            stake: self.stake,
            commission: self.commission,
            delegators: self.delegators@,
        }
    }
}

/// The views of a validator list.
pub open spec fn spec_validator_views(s: Seq<Validator>) -> Seq<ValidatorModel> {
    s.map_values(|v: Validator| v@)
}

/// One stake-table event from L1, in the contract's vocabulary.
#[derive(Clone, Copy, Debug, PartialEq, Eq)]
pub enum StakeTableEvent {
    /// A validator registered with its keys and commission.
    Register {
        /// The registering account.
        account: u64,
        /// Its consensus key.
        bls_key: u64,
        /// Its state key.
        schnorr_key: u64,
        /// Its commission in basis points.
        commission: u16,
    },
    /// A validator exited.
    Deregister {
        /// The exiting validator's account.
        validator: u64,
    },
    /// A delegator put stake behind a validator.
    Delegate {
        /// The delegator's account.
        delegator: u64,
        /// The validator delegated to.
        validator: u64,
        /// The delegated amount.
        amount: u128,
    },
    /// A delegator withdrew stake from a validator.
    Undelegate {
        /// The delegator's account.
        delegator: u64,
        /// The validator delegated to.
        validator: u64,
        /// The withdrawn amount.
        amount: u128,
    },
    /// A validator rotated its keys.
    KeyUpdate {
        /// The rotating account.
        account: u64,
        /// The new consensus key.
        bls_key: u64,
        /// The new state key.
        schnorr_key: u64,
    },
}

/// Why a replay of stake-table events was refused.
#[derive(Clone, Copy, Debug, PartialEq, Eq)]
pub enum StakeTableError {
    /// A consensus key was registered twice.
    BlsKeyAlreadyUsed,
    /// An account registered twice.
    ValidatorAlreadyRegistered,
    /// An event names a validator that is not registered.
    ValidatorNotFound,
    /// An undelegation names a delegator the validator does not have.
    DelegatorNotFound,
    /// An undelegation exceeds the validator's stake.
    StakeUnderflow,
    /// An undelegation exceeds the delegator's stake.
    DelegatorStakeUnderflow,
    /// A delegation pushed a stake beyond the machine's limit.
    StakeOverflow,
    /// After replay and filtering no validator remains.
    NoValidValidators,
}

/// Sum of the delegators' stakes.
pub open spec fn spec_delegator_sum(s: Seq<(u64, u128)>) -> int
    decreases s.len(),
{
    if s.len() == 0 {
        0
    } else {
        spec_delegator_sum(s.drop_last()) + s.last().1
    }
}

/// A well-formed validator: its delegators are pairwise distinct, every
/// delegation is positive, and the recorded stake is exactly their sum.
pub open spec fn spec_validator_wf(v: ValidatorModel) -> bool {
    &&& (forall|i: int, j: int|
        0 <= i < j < v.delegators.len() ==> #[trigger] v.delegators[i].0 != #[trigger] v.delegators[j].0)
    &&& (forall|i: int| 0 <= i < v.delegators.len() ==> #[trigger] v.delegators[i].1 > 0)
    &&& v.stake == spec_delegator_sum(v.delegators)
}

/// First index of the validator registered for `account`.
pub open spec fn spec_find_validator(s: Seq<ValidatorModel>, account: u64) -> Option<int>
    decreases s.len(),
{
    if s.len() == 0 {
        None
    } else if s[0].account == account {
        Some(0)
    } else {
        match spec_find_validator(s.drop_first(), account) {
            Some(i) => Some(i + 1),
            None => None,
        }
    }
}

/// First index of the delegator `d` among a validator's delegations.
pub open spec fn spec_find_delegator(s: Seq<(u64, u128)>, d: u64) -> Option<int>
    decreases s.len(),
{
    if s.len() == 0 {
        None
    } else if s[0].0 == d {
        Some(0)
    } else {
        match spec_find_delegator(s.drop_first(), d) {
            Some(i) => Some(i + 1),
            None => None,
        }
    }
}

/// A found index is in range, carries the account, and nothing before
/// it does; absence means no entry carries it.
proof fn lemma_find_validator_props(s: Seq<ValidatorModel>, account: u64)
    ensures
        match spec_find_validator(s, account) {
            Some(i) => 0 <= i < s.len() && s[i].account == account && forall|j: int|
                0 <= j < i ==> s[j].account != account,
            None => forall|j: int| 0 <= j < s.len() ==> s[j].account != account,
        },
    decreases s.len(),
{
    if s.len() > 0 && s[0].account != account {
        let d = s.drop_first();
        lemma_find_validator_props(d, account);
        assert(forall|j: int| 0 <= j < d.len() ==> #[trigger] d[j] == s[j + 1]);
        match spec_find_validator(d, account) {
            Some(i) => {
                assert(s[i + 1] == d[i]);
                assert forall|j: int| 0 <= j < i + 1 implies s[j].account != account by {
                    if j > 0 {
                        assert(d[j - 1] == s[j]);
                    }
                }
            },
            None => {
                assert forall|j: int| 0 <= j < s.len() implies s[j].account != account by {
                    if j > 0 {
                        assert(d[j - 1] == s[j]);
                    }
                }
            },
        }
    }
}

/// The same facts for delegator lookup.
proof fn lemma_find_delegator_props(s: Seq<(u64, u128)>, d: u64)
    ensures
        match spec_find_delegator(s, d) {
            Some(i) => 0 <= i < s.len() && s[i].0 == d && forall|j: int|
                0 <= j < i ==> s[j].0 != d,
            None => forall|j: int| 0 <= j < s.len() ==> s[j].0 != d,
        },
    decreases s.len(),
{
    if s.len() > 0 && s[0].0 != d {
        let rest = s.drop_first();
        lemma_find_delegator_props(rest, d);
        assert(forall|j: int| 0 <= j < rest.len() ==> #[trigger] rest[j] == s[j + 1]);
        match spec_find_delegator(rest, d) {
            Some(i) => {
                assert(s[i + 1] == rest[i]);
                assert forall|j: int| 0 <= j < i + 1 implies s[j].0 != d by {
                    if j > 0 {
                        assert(rest[j - 1] == s[j]);
                    }
                }
            },
            None => {
                assert forall|j: int| 0 <= j < s.len() implies s[j].0 != d by {
                    if j > 0 {
                        assert(rest[j - 1] == s[j]);
                    }
                }
            },
        }
    }
}

/// Index of the first validator for `account`, as
/// [`spec_find_validator`] states it.
fn find_validator(validators: &Vec<Validator>, account: u64) -> (r: Option<usize>)
    ensures
        r == match spec_find_validator(spec_validator_views(validators@), account) {
            Some(i) => Some(i as usize),
            None => None::<usize>,
        },
{
    let n = validators.len();
    let mut i: usize = 0;
    proof {
        assert(spec_validator_views(validators@).skip(0) =~= spec_validator_views(validators@));
    }
    while i < n
        invariant
            i <= n,
            n == validators@.len(),
            spec_find_validator(spec_validator_views(validators@), account) == match
                spec_find_validator(spec_validator_views(validators@).skip(i as int), account) {
                Some(k) => Some(k + i),
                None => None::<int>,
            },
        decreases n - i,
    {
        proof {
            let views = spec_validator_views(validators@);
            assert(views.skip(i as int)[0] == views[i as int]);
            assert(views.skip(i as int).drop_first() =~= views.skip(i + 1));
        }
        if validators[i].account == account {
            return Some(i);
        }
        i = i + 1;
    }
    proof {
        assert(spec_validator_views(validators@).skip(n as int).len() == 0);
    }
    None
}

/// Index of the first delegation by `d`, as [`spec_find_delegator`]
/// states it.
fn find_delegator(delegators: &Vec<(u64, u128)>, d: u64) -> (r: Option<usize>)
    ensures
        r == match spec_find_delegator(delegators@, d) {
            Some(i) => Some(i as usize),
            None => None::<usize>,
        },
{
    let n = delegators.len();
    let mut i: usize = 0;
    proof {
        assert(delegators@.skip(0) =~= delegators@);
    }
    while i < n
        invariant
            i <= n,
            n == delegators@.len(),
            spec_find_delegator(delegators@, d) == match spec_find_delegator(
                delegators@.skip(i as int),
                d,
            ) {
                Some(k) => Some(k + i),
                None => None::<int>,
            },
        decreases n - i,
    {
        proof {
            assert(delegators@.skip(i as int)[0] == delegators@[i as int]);
            assert(delegators@.skip(i as int).drop_first() =~= delegators@.skip(i + 1));
        }
        if delegators[i].0 == d {
            return Some(i);
        }
        i = i + 1;
    }
    proof {
        assert(delegators@.skip(n as int).len() == 0);
    }
    None
}

/// The on-chain order of two logged events: by L1 block number, then
/// by log index within the block.
pub open spec fn spec_log_le(a: (StakeTableEvent, u64, u64), b: (StakeTableEvent, u64, u64)) -> bool {
    a.1 < b.1 || (a.1 == b.1 && a.2 <= b.2)
}

/// Sort logged stake-table events into their on-chain order: each entry
/// carries its L1 block number and log index, and the result is the
/// same multiset of entries, ordered by block number and then log
/// index.
pub fn sort_events(events: Vec<(StakeTableEvent, u64, u64)>) -> (r: Vec<(StakeTableEvent, u64, u64)>)
    ensures
        r@.to_multiset() == events@.to_multiset(),
        forall|i: int, j: int|
            0 <= i < j < r@.len() ==> spec_log_le(#[trigger] r@[i], #[trigger] r@[j]),
{
    let mut remaining = events;
    let ghost input = remaining@;
    let mut out: Vec<(StakeTableEvent, u64, u64)> = Vec::new();
    let ghost mut taken: int = 0;
    proof {
        assert(input.take(0) =~= Seq::<(StakeTableEvent, u64, u64)>::empty());
        Seq::<(StakeTableEvent, u64, u64)>::empty().to_multiset_ensures();
        assert(out@.to_multiset() =~= input.take(0).to_multiset());
    }
    while remaining.len() > 0
        invariant
            0 <= taken <= input.len(),
            remaining@ =~= input.skip(taken),
            out@.to_multiset() == input.take(taken).to_multiset(),
            forall|i: int, j: int|
                0 <= i < j < out@.len() ==> spec_log_le(#[trigger] out@[i], #[trigger] out@[j]),
        decreases remaining@.len(),
    {
        proof {
            assert(input.skip(taken)[0] == input[taken]);
            assert(input.take(taken + 1).drop_last() =~= input.take(taken));
            assert(input.take(taken + 1).last() == input[taken]);
            input.take(taken).to_multiset_ensures();
            input.take(taken + 1).to_multiset_ensures();
        }
        let e = remaining.remove(0);
        // Find the first entry that must come after the new one.
        let ghost out0 = out@;
        let n = out.len();
        let mut p: usize = 0;
        while p < n
            invariant
                p <= n,
                n == out@.len(),
                out@ == out0,
                forall|i: int| 0 <= i < p ==> spec_log_le(#[trigger] out@[i], e),
            ensures
                p <= n,
                n == out@.len(),
                out@ == out0,
                forall|i: int| 0 <= i < p ==> spec_log_le(#[trigger] out@[i], e),
                p < n ==> !spec_log_le(out@[p as int], e),
            decreases n - p,
        {
            let c = out[p];
            if !(c.1 < e.1 || (c.1 == e.1 && c.2 <= e.2)) {
                break ;
            }
            p = p + 1;
        }
        out.insert(p, e);
        proof {
            taken = taken + 1;
            assert(remaining@ =~= input.skip(taken));
            assert(input.take(taken) =~= input.take(taken - 1).push(input[taken - 1]));
            vstd::seq_lib::to_multiset_insert(out0, p as int, e);
            assert(out@.to_multiset() =~= input.take(taken).to_multiset());
            assert forall|i: int, j: int|
                0 <= i < j < out@.len() implies spec_log_le(
                #[trigger] out@[i],
                #[trigger] out@[j],
            ) by {
                if i == p {
                    assert(out@[i] == e);
                    assert(out@[j] == out0[j - 1]);
                    assert(!spec_log_le(out0[p as int], e));
                    if j - 1 > p {
                        assert(spec_log_le(out0[p as int], out0[j - 1]));
                    }
                } else if j == p {
                    assert(out@[i] == out0[i]);
                    assert(out@[j] == e);
                    assert(spec_log_le(out0[i], e));
                } else {
                    let i0 = if i < p {
                        i
                    } else {
                        i - 1
                    };
                    let j0 = if j < p {
                        j
                    } else {
                        j - 1
                    };
                    assert(out@[i] == out0[i0]);
                    assert(out@[j] == out0[j0]);
                    if i0 < j0 {
                        assert(spec_log_le(out0[i0], out0[j0]));
                    }
                }
            }
        }
    }
    proof {
        assert(input.take(input.len() as int) =~= input);
    }
    out
}

/// Whether a consensus key occurs in the used-key list.
pub open spec fn spec_key_used(keys: Seq<u64>, k: u64) -> bool {
    exists|i: int| 0 <= i < keys.len() && keys[i] == k
}

/// The replay state: the validator list in registration order, and
/// every consensus key ever registered.
pub struct StakeFold {
    /// The validators, in registration order.
    pub validators: Seq<ValidatorModel>,
    /// Every consensus key seen in a registration.
    pub bls_keys: Seq<u64>,
}

/// One replay step: how a single event changes the validator set, or
/// why it refuses. Registration demands a fresh consensus key and a
/// fresh account; a zero delegation is ignored; an undelegation that
/// empties a delegator removes it; exits remove the validator, keeping
/// the order of the rest.
pub open spec fn spec_apply_event(acc: StakeFold, e: StakeTableEvent) -> Result<
    StakeFold,
    StakeTableError,
> {
    match e {
        StakeTableEvent::Register { account, bls_key, schnorr_key, commission } => {
            if spec_key_used(acc.bls_keys, bls_key) {
                Err(StakeTableError::BlsKeyAlreadyUsed)
            } else if spec_find_validator(acc.validators, account) is Some {
                Err(StakeTableError::ValidatorAlreadyRegistered)
            } else {
                Ok(
                    StakeFold {
                        validators: acc.validators.push(
                            ValidatorModel {
                                account,
                                bls_key,
                                schnorr_key,
                                stake: 0,
                                commission,
                                delegators: Seq::empty(),
                            },
                        ),
                        bls_keys: acc.bls_keys.push(bls_key),
                    },
                )
            }
        },
        StakeTableEvent::Deregister { validator } => {
            match spec_find_validator(acc.validators, validator) {
                None => Err(StakeTableError::ValidatorNotFound),
                Some(i) => Ok(StakeFold { validators: acc.validators.remove(i), ..acc }),
            }
        },
        StakeTableEvent::Delegate { delegator, validator, amount } => {
            match spec_find_validator(acc.validators, validator) {
                None => Err(StakeTableError::ValidatorNotFound),
                Some(i) => if amount == 0 {
                    Ok(acc)
                } else {
                    let v = acc.validators[i];
                    if v.stake + amount > u128::MAX {
                        Err(StakeTableError::StakeOverflow)
                    } else {
                        let new_delegators = match spec_find_delegator(v.delegators, delegator) {
                            Some(j) => v.delegators.update(
                                j,
                                (delegator, (v.delegators[j].1 + amount) as u128),
                            ),
                            None => v.delegators.push((delegator, amount)),
                        };
                        let updated = ValidatorModel {
                            stake: (v.stake + amount) as u128,
                            delegators: new_delegators,
                            ..v
                        };
                        Ok(StakeFold { validators: acc.validators.update(i, updated), ..acc })
                    }
                },
            }
        },
        StakeTableEvent::Undelegate { delegator, validator, amount } => {
            match spec_find_validator(acc.validators, validator) {
                None => Err(StakeTableError::ValidatorNotFound),
                Some(i) => {
                    let v = acc.validators[i];
                    if v.stake < amount {
                        Err(StakeTableError::StakeUnderflow)
                    } else {
                        match spec_find_delegator(v.delegators, delegator) {
                            None => Err(StakeTableError::DelegatorNotFound),
                            Some(j) => if v.delegators[j].1 < amount {
                                Err(StakeTableError::DelegatorStakeUnderflow)
                            } else {
                                let remaining = (v.delegators[j].1 - amount) as u128;
                                let new_delegators = if remaining == 0 {
                                    v.delegators.remove(j)
                                } else {
                                    v.delegators.update(j, (delegator, remaining))
                                };
                                let updated = ValidatorModel {
                                    stake: (v.stake - amount) as u128,
                                    delegators: new_delegators,
                                    ..v
                                };
                                Ok(
                                    StakeFold {
                                        validators: acc.validators.update(i, updated),
                                        ..acc
                                    },
                                )
                            },
                        }
                    }
                },
            }
        },
        StakeTableEvent::KeyUpdate { account, bls_key, schnorr_key } => {
            match spec_find_validator(acc.validators, account) {
                None => Err(StakeTableError::ValidatorNotFound),
                Some(i) => {
                    let v = acc.validators[i];
                    let updated = ValidatorModel { bls_key, schnorr_key, ..v };
                    Ok(StakeFold { validators: acc.validators.update(i, updated), ..acc })
                },
            }
        },
    }
}

/// The whole replay: the first failing event wins.
pub open spec fn spec_replay_events(s: Seq<StakeTableEvent>) -> Result<StakeFold, StakeTableError>
    decreases s.len(),
{
    if s.len() == 0 {
        Ok(StakeFold { validators: Seq::empty(), bls_keys: Seq::empty() })
    } else {
        match spec_replay_events(s.drop_last()) {
            Err(e) => Err(e),
            Ok(acc) => spec_apply_event(acc, s.last()),
        }
    }
}

/// A failed prefix fails the whole replay.
proof fn lemma_replay_error_persists(s: Seq<StakeTableEvent>, i: int)
    requires
        0 <= i <= s.len(),
        spec_replay_events(s.take(i)) is Err,
    ensures
        spec_replay_events(s) == spec_replay_events(s.take(i)),
    decreases s.len() - i,
{
    if i == s.len() {
        assert(s.take(i) =~= s);
    } else {
        assert(s.take(i + 1).drop_last() =~= s.take(i));
        lemma_replay_error_persists(s, i + 1);
    }
}

/// Every fold state reached from a well-formed one stays well-formed:
/// validators keep distinct accounts, and each validator's stake stays
/// the sum of its positive, pairwise-distinct delegations.
pub open spec fn spec_fold_wf(acc: StakeFold) -> bool {
    &&& (forall|i: int|
        0 <= i < acc.validators.len() ==> spec_validator_wf(#[trigger] acc.validators[i]))
    &&& (forall|i: int, j: int|
        0 <= i < j < acc.validators.len() ==> #[trigger] acc.validators[i].account
            != #[trigger] acc.validators[j].account)
}

/// Sum lemma: updating one delegation changes the sum by its delta.
proof fn lemma_sum_update(s: Seq<(u64, u128)>, j: int, e: (u64, u128))
    requires
        0 <= j < s.len(),
    ensures
        spec_delegator_sum(s.update(j, e)) == spec_delegator_sum(s) - s[j].1 + e.1,
    decreases s.len(),
{
    if j == s.len() - 1 {
        assert(s.update(j, e).drop_last() =~= s.drop_last());
    } else {
        assert(s.update(j, e).drop_last() =~= s.drop_last().update(j, e));
        lemma_sum_update(s.drop_last(), j, e);
    }
}

/// Sum lemma: removing one delegation removes its amount.
proof fn lemma_sum_remove(s: Seq<(u64, u128)>, j: int)
    requires
        0 <= j < s.len(),
    ensures
        spec_delegator_sum(s.remove(j)) == spec_delegator_sum(s) - s[j].1,
    decreases s.len(),
{
    if j == s.len() - 1 {
        assert(s.remove(j) =~= s.drop_last());
    } else {
        assert(s.remove(j).drop_last() =~= s.drop_last().remove(j));
        assert(s.remove(j).last() == s.last());
        lemma_sum_remove(s.drop_last(), j);
    }
}

/// Sum lemma: every delegation is at most the sum, when all are
/// nonnegative.
proof fn lemma_element_le_sum(s: Seq<(u64, u128)>, j: int)
    requires
        0 <= j < s.len(),
    ensures
        s[j].1 <= spec_delegator_sum(s),
    decreases s.len(),
{
    if j == s.len() - 1 {
        lemma_sum_nonneg(s.drop_last());
    } else {
        lemma_element_le_sum(s.drop_last(), j);
    }
}

/// Sum lemma: sums of stakes are nonnegative.
proof fn lemma_sum_nonneg(s: Seq<(u64, u128)>)
    ensures
        spec_delegator_sum(s) >= 0,
    decreases s.len(),
{
    if s.len() > 0 {
        lemma_sum_nonneg(s.drop_last());
    }
}

/// One replay step preserves well-formedness.
proof fn lemma_apply_event_wf(acc: StakeFold, e: StakeTableEvent)
    requires
        spec_fold_wf(acc),
        spec_apply_event(acc, e) is Ok,
    ensures
        spec_fold_wf(spec_apply_event(acc, e)->Ok_0),
{
    let out = spec_apply_event(acc, e)->Ok_0;
    match e {
        StakeTableEvent::Register { account, .. } => {
            lemma_find_validator_props(acc.validators, account);
            assert forall|i: int| 0 <= i < out.validators.len() implies spec_validator_wf(
                #[trigger] out.validators[i],
            ) by {
                if i < acc.validators.len() {
                    assert(out.validators[i] == acc.validators[i]);
                }
            }
        },
        StakeTableEvent::Deregister { validator } => {
            lemma_find_validator_props(acc.validators, validator);
            let i = spec_find_validator(acc.validators, validator)->Some_0;
            assert forall|k: int| 0 <= k < out.validators.len() implies spec_validator_wf(
                #[trigger] out.validators[k],
            ) by {
                if k < i {
                    assert(out.validators[k] == acc.validators[k]);
                } else {
                    assert(out.validators[k] == acc.validators[k + 1]);
                }
            }
            assert forall|a: int, b: int|
                0 <= a < b < out.validators.len() implies #[trigger] out.validators[a].account
                != #[trigger] out.validators[b].account by {
                let a0 = if a < i {
                    a
                } else {
                    a + 1
                };
                let b0 = if b < i {
                    b
                } else {
                    b + 1
                };
                assert(out.validators[a] == acc.validators[a0]);
                assert(out.validators[b] == acc.validators[b0]);
            }
        },
        StakeTableEvent::Delegate { delegator, validator, amount } => {
            lemma_find_validator_props(acc.validators, validator);
            if amount != 0 {
                let i = spec_find_validator(acc.validators, validator)->Some_0;
                let v = acc.validators[i];
                lemma_find_delegator_props(v.delegators, delegator);
                match spec_find_delegator(v.delegators, delegator) {
                    Some(j) => {
                        lemma_sum_update(
                            v.delegators,
                            j,
                            (delegator, (v.delegators[j].1 + amount) as u128),
                        );
                        lemma_element_le_sum(v.delegators, j);
                    },
                    None => {
                        assert(v.delegators.push((delegator, amount)).drop_last() =~= v.delegators);
                    },
                }
                assert(spec_validator_wf(out.validators[i]));
            }
        },
        StakeTableEvent::Undelegate { delegator, validator, amount } => {
            lemma_find_validator_props(acc.validators, validator);
            let i = spec_find_validator(acc.validators, validator)->Some_0;
            let v = acc.validators[i];
            lemma_find_delegator_props(v.delegators, delegator);
            let j = spec_find_delegator(v.delegators, delegator)->Some_0;
            let remaining = (v.delegators[j].1 - amount) as u128;
            if remaining == 0 {
                lemma_sum_remove(v.delegators, j);
                assert forall|a: int, b: int|
                    0 <= a < b < v.delegators.remove(j).len() implies #[trigger] v.delegators.remove(
                    j,
                )[a].0 != #[trigger] v.delegators.remove(j)[b].0 by {
                    let a0 = if a < j {
                        a
                    } else {
                        a + 1
                    };
                    let b0 = if b < j {
                        b
                    } else {
                        b + 1
                    };
                    assert(v.delegators.remove(j)[a] == v.delegators[a0]);
                    assert(v.delegators.remove(j)[b] == v.delegators[b0]);
                }
            } else {
                lemma_sum_update(v.delegators, j, (delegator, remaining));
            }
            assert(spec_validator_wf(out.validators[i]));
        },
        StakeTableEvent::KeyUpdate { account, .. } => {
            lemma_find_validator_props(acc.validators, account);
            let i = spec_find_validator(acc.validators, account)->Some_0;
            assert(out.validators[i].delegators == acc.validators[i].delegators);
            assert(spec_validator_wf(out.validators[i]));
        },
    }
}

/// A successful replay yields a well-formed fold state.
proof fn lemma_replay_wf(s: Seq<StakeTableEvent>)
    requires
        spec_replay_events(s) is Ok,
    ensures
        spec_fold_wf(spec_replay_events(s)->Ok_0),
    decreases s.len(),
{
    if s.len() > 0 {
        lemma_replay_wf(s.drop_last());
        lemma_apply_event_wf(spec_replay_events(s.drop_last())->Ok_0, s.last());
    }
}

/// Whether a key is in the used-key list, as [`spec_key_used`] states
/// it.
fn key_used(keys: &Vec<u64>, k: u64) -> (r: bool)
    ensures
        r == spec_key_used(keys@, k),
{
    let n = keys.len();
    let mut i: usize = 0;
    while i < n
        invariant
            i <= n,
            n == keys@.len(),
            forall|j: int| 0 <= j < i ==> keys@[j] != k,
        decreases n - i,
    {
        if keys[i] == k {
            return true;
        }
        i = i + 1;
    }
    false
}

/// Replay a sequence of L1 stake-table events into a validator set.
///
/// The result is exactly the fold [`spec_replay_events`]: the validator
/// list in registration order with every event applied, or the first
/// event that breaks the contract's rules. On success every validator
/// is well-formed — its stake is the sum of its positive, pairwise
/// distinct delegations — and accounts are pairwise distinct.
#[verifier::rlimit(100)]
pub fn replay_l1_events(events: &Vec<StakeTableEvent>) -> (r: Result<
    Vec<Validator>,
    StakeTableError,
>)
    ensures
        match r {
            Ok(validators) => {
                &&& spec_replay_events(events@) matches Ok(f) && f.validators
                    == spec_validator_views(validators@)
                &&& spec_fold_wf(spec_replay_events(events@)->Ok_0)
            },
            Err(e) => spec_replay_events(events@) == Err::<StakeFold, StakeTableError>(e),
        },
{
    let mut validators: Vec<Validator> = Vec::new();
    let mut bls_keys: Vec<u64> = Vec::new();
    let n = events.len();
    let mut idx: usize = 0;
    proof {
        assert(events@.take(0) =~= Seq::<StakeTableEvent>::empty());
        assert(spec_validator_views(validators@) =~= Seq::<ValidatorModel>::empty());
    }
    while idx < n
        invariant
            idx <= n,
            n == events@.len(),
            spec_replay_events(events@.take(idx as int)) == Ok::<StakeFold, StakeTableError>(
                StakeFold { validators: spec_validator_views(validators@), bls_keys: bls_keys@ },
            ),
        decreases n - idx,
    {
        proof {
            assert(events@.take(idx + 1).drop_last() =~= events@.take(idx as int));
            assert(events@.take(idx + 1).last() == events@[idx as int]);
        }
        let vcount = validators.len();
        proof {
            assert(spec_validator_views(validators@).len() == vcount);
        }
        let ghost acc = StakeFold {
            validators: spec_validator_views(validators@),
            bls_keys: bls_keys@,
        };
        let ghost step = spec_apply_event(acc, events@[idx as int]);
        let e = events[idx];
        match e {
            StakeTableEvent::Register { account, bls_key, schnorr_key, commission } => {
                if key_used(&bls_keys, bls_key) {
                    proof {
                        lemma_replay_error_persists(events@, idx + 1);
                    }
                    return Err(StakeTableError::BlsKeyAlreadyUsed);
                }
                if find_validator(&validators, account).is_some() {
                    proof {
                        lemma_replay_error_persists(events@, idx + 1);
                    }
                    return Err(StakeTableError::ValidatorAlreadyRegistered);
                }
                validators.push(
                    Validator {
                        account,
                        bls_key,
                        schnorr_key,
                        stake: 0,
                        commission,
                        delegators: Vec::new(),
                    },
                );
                bls_keys.push(bls_key);
                proof {
                    assert(spec_validator_views(validators@) =~= step->Ok_0.validators);
                }
            },
            StakeTableEvent::Deregister { validator } => {
                match find_validator(&validators, validator) {
                    None => {
                        proof {
                            lemma_replay_error_persists(events@, idx + 1);
                        }
                        return Err(StakeTableError::ValidatorNotFound);
                    },
                    Some(i) => {
                        proof {
                            lemma_find_validator_props(spec_validator_views(validators@), validator);
                        }
                        let ghost vseq0 = validators@;
                        let removed = validators.remove(i);
                        proof {
                            assert(events@[idx as int] == StakeTableEvent::Deregister { validator });
                            assert(spec_find_validator(acc.validators, validator) == Some(
                                i as int,
                            ));
                            assert(step is Ok);
                            assert(step->Ok_0.validators == acc.validators.remove(i as int));
                            assert(validators@ == vseq0.remove(i as int));
                            assert(removed@ == acc.validators[i as int]);
                            assert(spec_validator_views(validators@) =~= step->Ok_0.validators);
                        }
                    },
                }
            },
            StakeTableEvent::Delegate { delegator, validator, amount } => {
                match find_validator(&validators, validator) {
                    None => {
                        proof {
                            lemma_replay_error_persists(events@, idx + 1);
                        }
                        return Err(StakeTableError::ValidatorNotFound);
                    },
                    Some(i) => {
                        proof {
                            lemma_find_validator_props(spec_validator_views(validators@), validator);
                        }
                        if amount > 0 {
                            proof {
                                lemma_replay_wf(events@.take(idx as int));
                                assert(events@[idx as int] == StakeTableEvent::Delegate {
                                    delegator,
                                    validator,
                                    amount,
                                });
                                assert(spec_find_validator(
                                    spec_validator_views(validators@),
                                    validator,
                                ) is Some);
                                assert(spec_find_validator(acc.validators, validator) == Some(
                                    i as int,
                                ));
                            }
                            let mut v = validators.remove(i);
                            proof {
                                assert(v@ == acc.validators[i as int]);
                            }
                            if amount > u128::MAX - v.stake {
                                proof {
                                    lemma_replay_error_persists(events@, idx + 1);
                                }
                                return Err(StakeTableError::StakeOverflow);
                            }
                            let ghost dels0 = v.delegators@;
                            let dcount = v.delegators.len();
                            match find_delegator(&v.delegators, delegator) {
                                Some(j) => {
                                    proof {
                                        assert(dels0.len() == dcount);
                                        lemma_find_delegator_props(dels0, delegator);
                                        lemma_element_le_sum(dels0, j as int);
                                        assert(acc.validators[i as int].stake
                                            == spec_delegator_sum(dels0));
                                    }
                                    let pair = v.delegators.remove(j);
                                    v.delegators.insert(j, (delegator, pair.1 + amount));
                                    proof {
                                        assert(v.delegators@ =~= dels0.update(
                                            j as int,
                                            (delegator, (dels0[j as int].1 + amount) as u128),
                                        ));
                                    }
                                },
                                None => {
                                    v.delegators.push((delegator, amount));
                                },
                            }
                            v.stake = v.stake + amount;
                            validators.insert(i, v);
                            proof {
                                assert(spec_validator_views(validators@) =~= step->Ok_0.validators);
                            }
                        }
                    },
                }
            },
            StakeTableEvent::Undelegate { delegator, validator, amount } => {
                match find_validator(&validators, validator) {
                    None => {
                        proof {
                            lemma_replay_error_persists(events@, idx + 1);
                        }
                        return Err(StakeTableError::ValidatorNotFound);
                    },
                    Some(i) => {
                        proof {
                            lemma_find_validator_props(spec_validator_views(validators@), validator);
                        }
                        let mut v = validators.remove(i);
                        proof {
                            assert(v@ == acc.validators[i as int]);
                        }
                        if v.stake < amount {
                            proof {
                                lemma_replay_error_persists(events@, idx + 1);
                            }
                            return Err(StakeTableError::StakeUnderflow);
                        }
                        let ghost dels0 = v.delegators@;
                        let dcount = v.delegators.len();
                        match find_delegator(&v.delegators, delegator) {
                            None => {
                                proof {
                                    lemma_replay_error_persists(events@, idx + 1);
                                }
                                return Err(StakeTableError::DelegatorNotFound);
                            },
                            Some(j) => {
                                proof {
                                    assert(dels0.len() == dcount);
                                    lemma_find_delegator_props(dels0, delegator);
                                }
                                let pair = v.delegators.remove(j);
                                if pair.1 < amount {
                                    proof {
                                        lemma_replay_error_persists(events@, idx + 1);
                                    }
                                    return Err(StakeTableError::DelegatorStakeUnderflow);
                                }
                                let remaining = pair.1 - amount;
                                if remaining > 0 {
                                    v.delegators.insert(j, (delegator, remaining));
                                    proof {
                                        assert(v.delegators@ =~= dels0.update(
                                            j as int,
                                            (delegator, remaining),
                                        ));
                                    }
                                } else {
                                    proof {
                                        assert(v.delegators@ =~= dels0.remove(j as int));
                                    }
                                }
                                v.stake = v.stake - amount;
                                validators.insert(i, v);
                                proof {
                                    assert(spec_validator_views(validators@)
                                        =~= step->Ok_0.validators);
                                }
                            },
                        }
                    },
                }
            },
            StakeTableEvent::KeyUpdate { account, bls_key, schnorr_key } => {
                match find_validator(&validators, account) {
                    None => {
                        proof {
                            lemma_replay_error_persists(events@, idx + 1);
                        }
                        return Err(StakeTableError::ValidatorNotFound);
                    },
                    Some(i) => {
                        proof {
                            lemma_find_validator_props(spec_validator_views(validators@), account);
                        }
                        let mut v = validators.remove(i);
                        proof {
                            assert(v@ == acc.validators[i as int]);
                        }
                        v.bls_key = bls_key;
                        v.schnorr_key = schnorr_key;
                        validators.insert(i, v);
                        proof {
                            assert(spec_validator_views(validators@) =~= step->Ok_0.validators);
                        }
                    },
                }
            },
        }
        idx = idx + 1;
    }
    proof {
        assert(events@.take(n as int) =~= events@);
        lemma_replay_wf(events@);
    }
    Ok(validators)
}

/// Whether a validator survives the first selection filter: it has a
/// delegator and a positive stake.
pub open spec fn spec_keep_validator(m: ValidatorModel) -> bool {
    m.delegators.len() > 0 && m.stake > 0
}

/// The largest stake in a validator list.
pub open spec fn spec_max_stake(s: Seq<ValidatorModel>) -> int
    decreases s.len(),
{
    if s.len() == 0 {
        0
    } else if s.last().stake >= spec_max_stake(s.drop_last()) {
        s.last().stake as int
    } else {
        spec_max_stake(s.drop_last())
    }
}

/// The maximum is attained and dominates.
proof fn lemma_max_stake_props(s: Seq<ValidatorModel>)
    requires
        s.len() > 0,
    ensures
        exists|i: int| 0 <= i < s.len() && #[trigger] s[i].stake == spec_max_stake(s),
        forall|i: int| 0 <= i < s.len() ==> #[trigger] s[i].stake <= spec_max_stake(s),
    decreases s.len(),
{
    if s.len() > 1 {
        lemma_max_stake_props(s.drop_last());
        if s.last().stake >= spec_max_stake(s.drop_last()) {
            assert(s[s.len() - 1].stake == spec_max_stake(s));
        } else {
            let i = choose|i: int|
                0 <= i < s.drop_last().len() && #[trigger] s.drop_last()[i].stake == spec_max_stake(
                    s.drop_last(),
                );
            assert(s[i].stake == spec_max_stake(s));
        }
        assert forall|i: int| 0 <= i < s.len() implies #[trigger] s[i].stake <= spec_max_stake(
            s,
        ) by {
            if i < s.len() - 1 {
                assert(s.drop_last()[i] == s[i]);
            }
        }
    } else {
        assert(s[0] == s.last());
        reveal_with_fuel(spec_max_stake, 2);
        assert(s[0].stake == spec_max_stake(s));
    }
}

/// Whether `m` is one of the validators in `pool`.
pub open spec fn spec_in_pool(m: ValidatorModel, pool: Seq<ValidatorModel>) -> bool {
    exists|j: int| 0 <= j < pool.len() && m == pool[j]
}

/// An exact copy of a validator.
pub fn duplicate_validator(v: &Validator) -> (r: Validator)
    ensures
        r@ == v@,
{
    let mut delegators: Vec<(u64, u128)> = Vec::new();
    let n = v.delegators.len();
    let mut i: usize = 0;
    while i < n
        invariant
            i <= n,
            n == v.delegators@.len(),
            delegators@ == v.delegators@.take(i as int),
        decreases n - i,
    {
        delegators.push(v.delegators[i]);
        proof {
            assert(delegators@ =~= v.delegators@.take(i + 1));
        }
        i = i + 1;
    }
    proof {
        assert(v.delegators@.take(n as int) =~= v.delegators@);
    }
    Validator {
        account: v.account,
        bls_key: v.bls_key,
        schnorr_key: v.schnorr_key,
        stake: v.stake,
        commission: v.commission,
        delegators,
    }
}

/// The smallest stake in a validator list.
pub open spec fn spec_min_stake(s: Seq<ValidatorModel>) -> int
    decreases s.len(),
{
    if s.len() == 0 {
        0
    } else if s.len() == 1 {
        s[0].stake as int
    } else if s.last().stake <= spec_min_stake(s.drop_last()) {
        s.last().stake as int
    } else {
        spec_min_stake(s.drop_last())
    }
}

/// Everyone with more stake than the selection's smallest survivor is
/// itself a survivor: the selection keeps the highest stakes, up to
/// ties at the threshold.
pub open spec fn spec_top_stake_selected(
    eligible: Seq<ValidatorModel>,
    out: Seq<ValidatorModel>,
) -> bool {
    forall|j: int|
        0 <= j < eligible.len() ==> ((#[trigger] eligible[j]).stake > spec_min_stake(out)
            ==> spec_in_pool(eligible[j], out))
}

/// The minimum is attained and is a lower bound.
proof fn lemma_min_stake_props(s: Seq<ValidatorModel>)
    requires
        s.len() > 0,
    ensures
        exists|i: int| 0 <= i < s.len() && #[trigger] s[i].stake == spec_min_stake(s),
        forall|i: int| 0 <= i < s.len() ==> #[trigger] s[i].stake >= spec_min_stake(s),
    decreases s.len(),
{
    if s.len() == 1 {
        assert(s[0].stake == spec_min_stake(s));
    } else {
        lemma_min_stake_props(s.drop_last());
        if s.last().stake <= spec_min_stake(s.drop_last()) {
            assert(s[s.len() - 1].stake == spec_min_stake(s));
        } else {
            let i = choose|i: int|
                0 <= i < s.drop_last().len() && #[trigger] s.drop_last()[i].stake == spec_min_stake(
                    s.drop_last(),
                );
            assert(s[i].stake == spec_min_stake(s));
        }
        assert forall|i: int| 0 <= i < s.len() implies #[trigger] s[i].stake >= spec_min_stake(
            s,
        ) by {
            if i < s.len() - 1 {
                assert(s.drop_last()[i] == s[i]);
            }
        }
    }
}

/// Select the validators an epoch runs with: drop everyone without a
/// delegator or without stake, then everyone below one
/// [`VID_TARGET_TOTAL_STAKE`]th of the largest stake, and keep at most
/// [`MAX_SELECTED_VALIDATORS`] of the rest.
///
/// Refuses exactly when the first filter leaves nobody. On success at
/// least one and at most [`MAX_SELECTED_VALIDATORS`] validators remain;
/// every one of them has a delegator, positive stake, stake at least
/// the threshold, and stood in the input.
pub fn select_validators(validators: &mut Vec<Validator>) -> (r: Result<(), StakeTableError>)
    ensures
        ({
            let views0 = spec_validator_views(old(validators)@);
            let kept = views0.filter(|m: ValidatorModel| spec_keep_validator(m));
            let min_stake = spec_max_stake(kept) / (VID_TARGET_TOTAL_STAKE as int);
            let eligible = kept.filter(|m: ValidatorModel| m.stake >= min_stake);
            let out = spec_validator_views(final(validators)@);
            &&& (r is Err <==> kept.len() == 0)
            &&& (r is Err ==> r == Err::<(), StakeTableError>(StakeTableError::NoValidValidators))
            &&& (r is Ok ==> {
                &&& out.len() == (if eligible.len() <= MAX_SELECTED_VALIDATORS as int {
                    eligible.len() as int
                } else {
                    MAX_SELECTED_VALIDATORS as int
                })
                &&& out.len() >= 1
                &&& (forall|i: int|
                    0 <= i < out.len() ==> spec_keep_validator(#[trigger] out[i]) && out[i].stake
                        >= min_stake)
                &&& (forall|i: int|
                    0 <= i < out.len() ==> #[trigger] spec_in_pool(out[i], views0))
                &&& (eligible.len() > MAX_SELECTED_VALIDATORS as int ==> spec_top_stake_selected(
                    eligible,
                    out,
                ))
            })
        }),
{
    let ghost views0 = spec_validator_views(validators@);
    let ghost keep_pred = |m: ValidatorModel| spec_keep_validator(m);

    // First filter: a delegator and a positive stake.
    let mut kept: Vec<Validator> = Vec::new();
    let n = validators.len();
    let mut i: usize = 0;
    while i < n
        invariant
            i <= n,
            n == validators@.len(),
            validators@ == old(validators)@,
            views0 == spec_validator_views(validators@),
            keep_pred == (|m: ValidatorModel| spec_keep_validator(m)),
            spec_validator_views(kept@) == views0.take(i as int).filter(keep_pred),
        decreases n - i,
    {
        proof {
            assert(views0.take(i + 1).drop_last() =~= views0.take(i as int));
            assert(views0.take(i + 1).last() == views0[i as int]);
            reveal_with_fuel(Seq::filter, 2);
        }
        let v = duplicate_validator(&validators[i]);
        proof {
            assert(v@ == views0[i as int]);
        }
        if v.delegators.len() > 0 && v.stake > 0 {
            kept.push(v);
        }
        proof {
            assert(spec_validator_views(kept@) =~= views0.take(i + 1).filter(keep_pred));
        }
        i = i + 1;
    }
    proof {
        assert(views0.take(n as int) =~= views0);
    }
    let ghost kept_views = views0.filter(keep_pred);

    if kept.len() == 0 {
        return Err(StakeTableError::NoValidValidators);
    }

    // The stake threshold: the largest stake, scaled down.
    let mut max_stake: u128 = 0;
    let kn = kept.len();
    let mut k: usize = 0;
    while k < kn
        invariant
            k <= kn,
            kn == kept@.len(),
            spec_validator_views(kept@) == kept_views,
            max_stake as int == spec_max_stake(kept_views.take(k as int)),
        decreases kn - k,
    {
        proof {
            assert(kept_views.take(k + 1).drop_last() =~= kept_views.take(k as int));
            assert(kept_views.take(k + 1).last() == kept_views[k as int]);
            assert(kept_views[k as int] == kept@[k as int]@);
        }
        if kept[k].stake > max_stake {
            max_stake = kept[k].stake;
        }
        k = k + 1;
    }
    proof {
        assert(kept_views.take(kn as int) =~= kept_views);
    }
    let min_stake = max_stake / VID_TARGET_TOTAL_STAKE;

    // Second filter: at least the threshold.
    let ghost elig_pred = |m: ValidatorModel| m.stake >= min_stake as int;
    let mut eligible: Vec<Validator> = Vec::new();
    let en = kept.len();
    let mut e: usize = 0;
    while e < en
        invariant
            e <= en,
            en == kept@.len(),
            spec_validator_views(kept@) == kept_views,
            elig_pred == (|m: ValidatorModel| m.stake >= min_stake as int),
            spec_validator_views(eligible@) == kept_views.take(e as int).filter(elig_pred),
        decreases en - e,
    {
        proof {
            assert(kept_views.take(e + 1).drop_last() =~= kept_views.take(e as int));
            assert(kept_views.take(e + 1).last() == kept_views[e as int]);
            reveal_with_fuel(Seq::filter, 2);
        }
        let v = duplicate_validator(&kept[e]);
        proof {
            assert(v@ == kept_views[e as int]);
        }
        if v.stake >= min_stake {
            eligible.push(v);
        }
        proof {
            assert(spec_validator_views(eligible@) =~= kept_views.take(e + 1).filter(elig_pred));
        }
        e = e + 1;
    }
    proof {
        assert(kept_views.take(en as int) =~= kept_views);
    }
    let ghost eligible_views = kept_views.filter(elig_pred);

    // The largest stake always qualifies, so somebody is eligible.
    proof {
        lemma_max_stake_props(kept_views);
        let w = choose|w: int|
            0 <= w < kept_views.len() && #[trigger] kept_views[w].stake == spec_max_stake(
                kept_views,
            );
        vstd::arithmetic::div_mod::lemma_div_is_ordered_by_denominator(
            spec_max_stake(kept_views),
            1,
            VID_TARGET_TOTAL_STAKE as int,
        );
        vstd::arithmetic::div_mod::lemma_div_basics(spec_max_stake(kept_views));
        assert(elig_pred(kept_views[w]));
        kept_views.lemma_filter_contains(elig_pred, w);
        assert(eligible_views.contains(kept_views[w]));
        assert(eligible_views.len() > 0);
    }

    // Keep at most the configured number, dropping the smallest stakes.
    proof {
        assert forall|x: int| 0 <= x < eligible@.len() implies #[trigger] spec_in_pool(
            eligible@[x]@,
            eligible_views,
        ) by {
            assert(eligible@[x]@ == eligible_views[x]);
        }
        assert forall|j: int| 0 <= j < eligible_views.len() implies #[trigger] spec_in_pool(
            eligible_views[j],
            spec_validator_views(eligible@),
        ) || (forall|y: int|
            0 <= y < eligible@.len() ==> eligible_views[j].stake
                <= (#[trigger] spec_validator_views(eligible@)[y]).stake) by {
            assert(spec_validator_views(eligible@)[j] == eligible_views[j]);
        }
    }
    while eligible.len() > MAX_SELECTED_VALIDATORS
        invariant
            forall|x: int|
                0 <= x < eligible@.len() ==> #[trigger] spec_in_pool(eligible@[x]@, eligible_views),
            eligible_views.len() > MAX_SELECTED_VALIDATORS as int ==> eligible@.len()
                >= MAX_SELECTED_VALIDATORS as int,
            eligible_views.len() <= MAX_SELECTED_VALIDATORS as int ==> spec_validator_views(
                eligible@,
            ) == eligible_views,
            forall|j: int|
                0 <= j < eligible_views.len() ==> #[trigger] spec_in_pool(
                    eligible_views[j],
                    spec_validator_views(eligible@),
                ) || (forall|y: int|
                    0 <= y < eligible@.len() ==> eligible_views[j].stake
                        <= (#[trigger] spec_validator_views(eligible@)[y]).stake),
        decreases eligible@.len(),
    {
        // Drop one validator with the smallest stake.
        let mut min_idx: usize = 0;
        let ln = eligible.len();
        let mut s: usize = 1;
        while s < ln
            invariant
                ln == eligible@.len(),
                min_idx < ln,
                1 <= s <= ln,
                ln > 0,
                forall|t: int|
                    0 <= t < s ==> eligible@[min_idx as int]@.stake
                        <= (#[trigger] eligible@[t]@).stake,
            decreases ln - s,
        {
            if eligible[s].stake < eligible[min_idx].stake {
                min_idx = s;
            }
            s = s + 1;
        }
        let ghost before = eligible@;
        eligible.remove(min_idx);
        proof {
            assert forall|x: int| 0 <= x < eligible@.len() implies #[trigger] spec_in_pool(
                eligible@[x]@,
                eligible_views,
            ) by {
                let x0 = if x < min_idx {
                    x
                } else {
                    x + 1
                };
                assert(eligible@[x] == before[x0]);
                assert(spec_in_pool(before[x0]@, eligible_views));
            }
            // The removed entry was a minimum, so everyone excluded so
            // far stays at or below everyone still in.
            assert forall|j: int| 0 <= j < eligible_views.len() implies #[trigger] spec_in_pool(
                eligible_views[j],
                spec_validator_views(eligible@),
            ) || (forall|y: int|
                0 <= y < eligible@.len() ==> eligible_views[j].stake
                    <= (#[trigger] spec_validator_views(eligible@)[y]).stake) by {
                let cur = spec_validator_views(eligible@);
                let prev = spec_validator_views(before);
                assert(forall|y: int|
                    0 <= y < cur.len() ==> #[trigger] cur[y] == (if y < min_idx {
                        prev[y]
                    } else {
                        prev[y + 1]
                    }));
                if spec_in_pool(eligible_views[j], prev) {
                    let w = choose|w: int|
                        0 <= w < prev.len() && #[trigger] prev[w] == eligible_views[j];
                    if w < min_idx {
                        assert(cur[w] == eligible_views[j]);
                        assert(spec_in_pool(eligible_views[j], cur));
                    } else if w > min_idx {
                        assert(cur[w - 1] == eligible_views[j]);
                        assert(spec_in_pool(eligible_views[j], cur));
                    } else {
                        // The removed entry: its stake was minimal.
                        assert forall|y: int|
                            0 <= y < eligible@.len() implies eligible_views[j].stake
                            <= (#[trigger] spec_validator_views(eligible@)[y]).stake by {
                            let y0 = if y < min_idx {
                                y
                            } else {
                                y + 1
                            };
                            assert(prev[min_idx as int].stake <= prev[y0].stake);
                        }
                    }
                } else {
                    assert forall|y: int|
                        0 <= y < eligible@.len() implies eligible_views[j].stake
                        <= (#[trigger] spec_validator_views(eligible@)[y]).stake by {
                        let y0 = if y < min_idx {
                            y
                        } else {
                            y + 1
                        };
                        assert(eligible_views[j].stake <= prev[y0].stake);
                    }
                }
            }
        }
    }

    core::mem::swap(validators, &mut eligible);

    proof {
        // When a cut happened, everyone with more stake than the
        // smallest survivor is a survivor.
        if eligible_views.len() > MAX_SELECTED_VALIDATORS as int {
            let out_views = spec_validator_views(validators@);
            assert forall|j: int|
                0 <= j < eligible_views.len() && (#[trigger] eligible_views[j]).stake
                    > spec_min_stake(out_views) implies spec_in_pool(
                eligible_views[j],
                out_views,
            ) by {
                if !spec_in_pool(eligible_views[j], out_views) {
                    lemma_min_stake_props(out_views);
                    let m = choose|m: int|
                        0 <= m < out_views.len() && #[trigger] out_views[m].stake == spec_min_stake(
                            out_views,
                        );
                    assert(eligible_views[j].stake <= out_views[m].stake);
                }
            }
            assert(spec_top_stake_selected(eligible_views, out_views));
        }
        // Every survivor is one of the eligible validators, which are
        // filtered from the input.
        assert forall|x: int| 0 <= x < spec_validator_views(validators@).len() implies
            spec_keep_validator(#[trigger] spec_validator_views(validators@)[x])
            && spec_validator_views(validators@)[x].stake >= min_stake as int by {
            assert(spec_in_pool(validators@[x]@, eligible_views));
            let y = choose|y: int|
                0 <= y < eligible_views.len() && validators@[x]@ == eligible_views[y];
            kept_views.lemma_filter_pred(elig_pred, y);
            kept_views.lemma_filter_contains_rev(elig_pred, eligible_views[y]);
            let z = choose|z: int| 0 <= z < kept_views.len() && kept_views[z] == eligible_views[y];
            views0.lemma_filter_pred(keep_pred, z);
        }
        assert forall|x: int| 0 <= x < spec_validator_views(validators@).len() implies
            #[trigger] spec_in_pool(spec_validator_views(validators@)[x], views0) by {
            assert(spec_in_pool(validators@[x]@, eligible_views));
            let y = choose|y: int|
                0 <= y < eligible_views.len() && validators@[x]@ == eligible_views[y];
            assert(eligible_views.contains(eligible_views[y]));
            kept_views.lemma_filter_contains_rev(elig_pred, eligible_views[y]);
            let z = choose|z: int| 0 <= z < kept_views.len() && kept_views[z] == eligible_views[y];
            assert(kept_views.contains(kept_views[z]));
            views0.lemma_filter_contains_rev(keep_pred, kept_views[z]);
            let j = choose|j: int| 0 <= j < views0.len() && views0[j] == kept_views[z];
            assert(spec_validator_views(validators@)[x] == views0[j]);
        }
    }
    Ok(())
}

/// Build an epoch's validator set from L1 events: replay them in order,
/// then select, as [`replay_l1_events`] and [`select_validators`] state
/// it.
pub fn from_l1_events(events: &Vec<StakeTableEvent>) -> (r: Result<Vec<Validator>, StakeTableError>)
    ensures
        ({
            let rep = spec_replay_events(events@);
            &&& (rep is Err ==> r is Err && rep == Err::<StakeFold, StakeTableError>(
                r->Err_0,
            ))
            &&& (rep is Ok ==> {
                let views0 = rep->Ok_0.validators;
                let kept = views0.filter(|m: ValidatorModel| spec_keep_validator(m));
                let min_stake = spec_max_stake(kept) / (VID_TARGET_TOTAL_STAKE as int);
                let eligible = kept.filter(|m: ValidatorModel| m.stake >= min_stake);
                &&& (r is Ok <==> kept.len() > 0)
                &&& (r is Err ==> r == Err::<Vec<Validator>, StakeTableError>(
                    StakeTableError::NoValidValidators,
                ))
                &&& (match r {
                    Ok(vs) => {
                        let out = spec_validator_views(vs@);
                        &&& out.len() == (if eligible.len() <= MAX_SELECTED_VALIDATORS as int {
                            eligible.len() as int
                        } else {
                            MAX_SELECTED_VALIDATORS as int
                        })
                        &&& out.len() >= 1
                        &&& (forall|i: int|
                            0 <= i < out.len() ==> spec_keep_validator(#[trigger] out[i])
                                && out[i].stake >= min_stake)
                        &&& (forall|i: int|
                            0 <= i < out.len() ==> #[trigger] spec_in_pool(out[i], views0))
                        &&& (forall|i: int|
                            0 <= i < out.len() ==> spec_validator_wf(#[trigger] out[i]))
                        &&& (eligible.len() > MAX_SELECTED_VALIDATORS as int
                            ==> spec_top_stake_selected(eligible, out))
                    },
                    Err(_) => true,
                })
            })
        }),
{
    let mut validators = match replay_l1_events(events) {
        Ok(vs) => vs,
        Err(e) => {
            return Err(e);
        },
    };
    let ghost replay_views = spec_validator_views(validators@);
    match select_validators(&mut validators) {
        Ok(()) => {
            proof {
                let out = spec_validator_views(validators@);
                assert forall|i: int| 0 <= i < out.len() implies spec_validator_wf(
                    #[trigger] out[i],
                ) by {
                    assert(spec_in_pool(out[i], replay_views));
                    let j = choose|j: int|
                        0 <= j < replay_views.len() && out[i] == replay_views[j];
                    assert(spec_fold_wf(spec_replay_events(events@)->Ok_0));
                }
                let rep_views = spec_replay_events(events@)->Ok_0.validators;
                assert(rep_views == replay_views);
            }
            Ok(validators)
        },
        Err(e) => Err(e),
    }
}

} // verus!
