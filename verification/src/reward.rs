//! Block rewards and their distribution.
//!
//! Every block pays a fixed reward. A share proportional to the
//! delegated stake goes to each delegator, scaled down by the
//! validator's commission; the validator itself collects the commission
//! and every rounding remainder, so the amounts handed out always sum
//! to exactly the block reward.

use vstd::prelude::*;

use crate::stake::Validator;
use crate::vmap::VMap;

verus! {

/// Total token supply, in the smallest unit.
pub const TOTAL_SUPPLY: u128 = 1000000000000000000000000000;

/// Yearly inflation in basis points.
pub const INFLATION_RATE: u128 = 300;

/// Seconds between blocks.
pub const BLOCK_TIME_SECONDS: u128 = 2;

/// Seconds in a year.
pub const SECONDS_PER_YEAR: u128 = 31536000;

/// Blocks produced in a year.
pub const BLOCKS_PER_YEAR: u128 = SECONDS_PER_YEAR / BLOCK_TIME_SECONDS;

/// Basis points that make up the whole.
pub const BASIS_POINTS: u128 = 10000;

/// The fixed reward paid for one block.
pub const REWARD_PER_BLOCK: u128 = ((TOTAL_SUPPLY * INFLATION_RATE) / BLOCKS_PER_YEAR)
    / BASIS_POINTS;

/// The reward paid for one block.
pub fn block_reward() -> (r: u128)
    ensures
        r == REWARD_PER_BLOCK,
{
    REWARD_PER_BLOCK
}

/// Why rewards could not be computed or applied.
#[derive(Clone, Copy, Debug, PartialEq, Eq)]
pub enum RewardError {
    /// The commission exceeds the whole, in basis points.
    CommissionExceedsBasisPoints,
    /// Delegations exist but the recorded stake is zero.
    ZeroStake,
    /// An intermediate product or a balance left the machine's range.
    Overflow,
    /// The first epoch has not been set yet.
    FirstEpochNotSet,
}

/// The reward one delegator earns: its stake's share of the delegators'
/// part of the block reward.
pub open spec fn spec_delegator_reward(d_stake: u128, delegators_reward: int, total_stake: u128) -> int {
    ((d_stake * delegators_reward) / (total_stake as int)) / (BASIS_POINTS as int)
}

/// The delegator rewards, folded in delegation order; the first product
/// that leaves the machine's range refuses.
pub open spec fn spec_delegator_rewards(
    delegators: Seq<(u64, u128)>,
    delegators_reward: int,
    total_stake: u128,
) -> Result<Seq<(u64, u128)>, RewardError>
    decreases delegators.len(),
{
    if delegators.len() == 0 {
        Ok(Seq::empty())
    } else {
        match spec_delegator_rewards(delegators.drop_last(), delegators_reward, total_stake) {
            Err(e) => Err(e),
            Ok(rest) => {
                let d = delegators.last();
                if d.1 * delegators_reward > u128::MAX {
                    Err(RewardError::Overflow)
                } else {
                    Ok(
                        rest.push(
                            (
                                d.0,
                                spec_delegator_reward(d.1, delegators_reward, total_stake) as u128,
                            ),
                        ),
                    )
                }
            },
        }
    }
}

/// Sum of the amounts handed out.
pub open spec fn spec_reward_sum(s: Seq<(u64, u128)>) -> int
    decreases s.len(),
{
    if s.len() == 0 {
        0
    } else {
        spec_reward_sum(s.drop_last()) + s.last().1
    }
}

/// Compute the rewards one block pays for a validator and its
/// delegators.
///
/// Refused when the commission exceeds the whole, when delegations
/// exist against a zero stake, when a product leaves the machine's
/// range, or when rounding-free arithmetic would hand out more than
/// the block reward (which cannot happen when the validator's stake is
/// the sum of its delegations). On success the list holds one entry
/// per delegator, in order and with exactly its proportional share,
/// followed by the validator's entry, and the amounts sum to exactly
/// the block reward.
pub fn compute_rewards(validator: &Validator) -> (r: Result<Vec<(u64, u128)>, RewardError>)
    ensures
        validator.commission > crate::COMMISSION_BASIS_POINTS ==> r == Err::<
            Vec<(u64, u128)>,
            RewardError,
        >(RewardError::CommissionExceedsBasisPoints),
        (validator.commission <= crate::COMMISSION_BASIS_POINTS && validator.stake == 0
            && validator.delegators@.len() > 0) ==> r == Err::<Vec<(u64, u128)>, RewardError>(
            RewardError::ZeroStake,
        ),
        ({
            let dr = (BASIS_POINTS - validator.commission) * REWARD_PER_BLOCK;
            let ds = spec_delegator_rewards(validator.delegators@, dr, validator.stake);
            let admissible = validator.commission <= crate::COMMISSION_BASIS_POINTS && !(
            validator.stake == 0 && validator.delegators@.len() > 0) && ds is Ok
                && spec_reward_sum(ds->Ok_0) <= REWARD_PER_BLOCK;
            &&& (r is Ok <==> admissible)
            &&& (validator.commission <= crate::COMMISSION_BASIS_POINTS && !(validator.stake == 0
                && validator.delegators@.len() > 0) && !admissible ==> r == Err::<
                Vec<(u64, u128)>,
                RewardError,
            >(RewardError::Overflow))
        }),
        (match r {
            Ok(rs) => {
                let dr = (BASIS_POINTS - validator.commission) * REWARD_PER_BLOCK;
                let ds = spec_delegator_rewards(validator.delegators@, dr, validator.stake);
                &&& rs@.len() == validator.delegators@.len() + 1
                &&& rs@.take(rs@.len() - 1) == ds->Ok_0
                &&& rs@.last().0 == validator.account
                &&& spec_reward_sum(rs@) == REWARD_PER_BLOCK
            },
            Err(_) => true,
        }),
{
    if validator.commission > crate::COMMISSION_BASIS_POINTS {
        return Err(RewardError::CommissionExceedsBasisPoints);
    }
    if validator.stake == 0 && validator.delegators.len() > 0 {
        return Err(RewardError::ZeroStake);
    }

    let total_reward = REWARD_PER_BLOCK;
    let delegators_ratio: u128 = BASIS_POINTS - (validator.commission as u128);
    proof {
        assert(BASIS_POINTS * REWARD_PER_BLOCK <= u128::MAX);
        vstd::arithmetic::mul::lemma_mul_inequality(
            delegators_ratio as int,
            BASIS_POINTS as int,
            REWARD_PER_BLOCK as int,
        );
    }
    let delegators_reward: u128 = delegators_ratio * total_reward;

    let mut rewards: Vec<(u64, u128)> = Vec::new();
    let mut distributed: u128 = 0;
    let n = validator.delegators.len();
    let mut i: usize = 0;
    while i < n
        invariant
            i <= n,
            n == validator.delegators@.len(),
            n > 0 ==> validator.stake > 0,
            delegators_reward == (BASIS_POINTS - validator.commission) * REWARD_PER_BLOCK,
            validator.commission <= crate::COMMISSION_BASIS_POINTS,
            spec_delegator_rewards(
                validator.delegators@.take(i as int),
                delegators_reward as int,
                validator.stake,
            ) == Ok::<Seq<(u64, u128)>, RewardError>(rewards@),
            distributed as int == spec_reward_sum(rewards@),
        decreases n - i,
    {
        proof {
            assert(validator.delegators@.take(i + 1).drop_last() =~= validator.delegators@.take(
                i as int,
            ));
            assert(validator.delegators@.take(i + 1).last() == validator.delegators@[i as int]);
        }
        let d = validator.delegators[i];
        let product = match d.1.checked_mul(delegators_reward) {
            Some(p) => p,
            None => {
                proof {
                    lemma_delegator_rewards_error_persists(
                        validator.delegators@,
                        i + 1,
                        delegators_reward as int,
                        validator.stake,
                    );
                }
                return Err(RewardError::Overflow);
            },
        };
        let amount = (product / validator.stake) / BASIS_POINTS;
        let new_distributed = match distributed.checked_add(amount) {
            Some(s) => s,
            None => {
                proof {
                    let dr = delegators_reward as int;
                    let full = spec_delegator_rewards(validator.delegators@, dr, validator.stake);
                    if full is Ok {
                        lemma_delegator_rewards_prefix(
                            validator.delegators@,
                            i + 1,
                            dr,
                            validator.stake,
                        );
                        lemma_delegator_rewards_len(
                            validator.delegators@.take(i + 1),
                            dr,
                            validator.stake,
                        );
                        assert(spec_delegator_rewards(
                            validator.delegators@.take(i + 1),
                            dr,
                            validator.stake,
                        )->Ok_0 =~= rewards@.push((d.0, amount)));
                        assert(rewards@.push((d.0, amount)).drop_last() =~= rewards@);
                        assert(spec_reward_sum(rewards@.push((d.0, amount))) > u128::MAX);
                        assert(full->Ok_0.take(i + 1) == rewards@.push((d.0, amount)));
                        lemma_delegator_rewards_len(
                            validator.delegators@,
                            delegators_reward as int,
                            validator.stake,
                        );
                        lemma_reward_sum_prefix(full->Ok_0, i + 1);
                    }
                }
                return Err(RewardError::Overflow);
            },
        };
        distributed = new_distributed;
        let ghost rewards0 = rewards@;
        rewards.push((d.0, amount));
        proof {
            assert(rewards@.drop_last() =~= rewards0);
        }
        i = i + 1;
    }
    proof {
        assert(validator.delegators@.take(n as int) =~= validator.delegators@);
        lemma_delegator_rewards_len(
            validator.delegators@,
            delegators_reward as int,
            validator.stake,
        );
    }

    let leader_reward = match total_reward.checked_sub(distributed) {
        Some(l) => l,
        None => {
            return Err(RewardError::Overflow);
        },
    };
    proof {
        assert(spec_reward_sum(rewards@) <= REWARD_PER_BLOCK);
    }
    let ghost before_leader = rewards@;
    rewards.push((validator.account, leader_reward));
    proof {
        assert(rewards@.drop_last() =~= before_leader);
        assert(rewards@.take(rewards@.len() - 1) =~= before_leader);
    }
    Ok(rewards)
}

/// A successful fold yields one entry per delegator.
proof fn lemma_delegator_rewards_len(s: Seq<(u64, u128)>, dr: int, total_stake: u128)
    requires
        spec_delegator_rewards(s, dr, total_stake) is Ok,
    ensures
        spec_delegator_rewards(s, dr, total_stake)->Ok_0.len() == s.len(),
    decreases s.len(),
{
    if s.len() > 0 {
        lemma_delegator_rewards_len(s.drop_last(), dr, total_stake);
    }
}

/// An `Ok` fold restricts to every prefix: the prefix folds `Ok` to
/// exactly the first entries of the whole result.
proof fn lemma_delegator_rewards_prefix(s: Seq<(u64, u128)>, i: int, dr: int, total_stake: u128)
    requires
        0 <= i <= s.len(),
        spec_delegator_rewards(s, dr, total_stake) is Ok,
    ensures
        spec_delegator_rewards(s.take(i), dr, total_stake) is Ok,
        spec_delegator_rewards(s.take(i), dr, total_stake)->Ok_0 == spec_delegator_rewards(
            s,
            dr,
            total_stake,
        )->Ok_0.take(i),
    decreases s.len(),
{
    if i == s.len() {
        assert(s.take(i) =~= s);
        lemma_delegator_rewards_len(s, dr, total_stake);
        assert(spec_delegator_rewards(s, dr, total_stake)->Ok_0.take(i)
            =~= spec_delegator_rewards(s, dr, total_stake)->Ok_0);
    } else {
        lemma_delegator_rewards_prefix(s.drop_last(), i, dr, total_stake);
        assert(s.drop_last().take(i) =~= s.take(i));
        lemma_delegator_rewards_len(s.drop_last(), dr, total_stake);
        assert(spec_delegator_rewards(s, dr, total_stake)->Ok_0.take(i)
            =~= spec_delegator_rewards(s.drop_last(), dr, total_stake)->Ok_0.take(i));
    }
}

/// Sums of reward lists dominate their prefixes.
proof fn lemma_reward_sum_prefix(s: Seq<(u64, u128)>, i: int)
    requires
        0 <= i <= s.len(),
    ensures
        spec_reward_sum(s.take(i)) <= spec_reward_sum(s),
    decreases s.len() - i,
{
    if i < s.len() {
        assert(s.take(i + 1).drop_last() =~= s.take(i));
        assert(s.take(i + 1).last() == s[i]);
        lemma_reward_sum_prefix(s, i + 1);
    } else {
        assert(s.take(i) =~= s);
    }
}

/// A refused prefix refuses the whole fold.
proof fn lemma_delegator_rewards_error_persists(
    s: Seq<(u64, u128)>,
    i: int,
    dr: int,
    total_stake: u128,
)
    requires
        0 <= i <= s.len(),
        spec_delegator_rewards(s.take(i), dr, total_stake) is Err,
    ensures
        spec_delegator_rewards(s, dr, total_stake) == spec_delegator_rewards(
            s.take(i),
            dr,
            total_stake,
        ),
    decreases s.len() - i,
{
    if i == s.len() {
        assert(s.take(i) =~= s);
    } else {
        assert(s.take(i + 1).drop_last() =~= s.take(i));
        lemma_delegator_rewards_error_persists(s, i + 1, dr, total_stake);
    }
}

/// The balances after paying out a reward list, in order; an addition
/// that leaves the machine's range refuses.
pub open spec fn spec_apply_rewards(balances: Map<u64, u128>, rs: Seq<(u64, u128)>) -> Result<
    Map<u64, u128>,
    RewardError,
>
    decreases rs.len(),
{
    if rs.len() == 0 {
        Ok(balances)
    } else {
        match spec_apply_rewards(balances, rs.drop_last()) {
            Err(e) => Err(e),
            Ok(m) => {
                let entry = rs.last();
                let balance = if m.contains_key(entry.0) {
                    m[entry.0]
                } else {
                    0
                };
                if balance + entry.1 > u128::MAX {
                    Err(RewardError::Overflow)
                } else {
                    Ok(m.insert(entry.0, (balance + entry.1) as u128))
                }
            },
        }
    }
}

/// Pay a computed reward list into the balance ledger, as
/// [`spec_apply_rewards`] states it: each account's balance grows by
/// its amount, in order, and an addition that leaves the machine's
/// range refuses with the ledger unchanged.
pub fn apply_rewards(balances: &mut VMap<u128>, rewards: &Vec<(u64, u128)>) -> (r: Result<
    (),
    RewardError,
>)
    ensures
        match r {
            Ok(()) => spec_apply_rewards(old(balances)@, rewards@) == Ok::<
                Map<u64, u128>,
                RewardError,
            >(final(balances)@),
            Err(e) => spec_apply_rewards(old(balances)@, rewards@) == Err::<
                Map<u64, u128>,
                RewardError,
            >(e) && final(balances)@ == old(balances)@,
        },
{
    let ghost m0 = balances@;
    let mut staged: Vec<(u64, u128)> = Vec::new();
    let n = rewards.len();
    let mut i: usize = 0;
    // First pass: stage the updated balances, so a late refusal leaves
    // the ledger untouched.
    while i < n
        invariant
            i <= n,
            n == rewards@.len(),
            balances@ == m0,
            staged@.len() == i,
            spec_apply_rewards(m0, rewards@.take(i as int)) is Ok,
            spec_apply_rewards(m0, rewards@.take(i as int))->Ok_0 == spec_staged_map(m0, staged@),
        decreases n - i,
    {
        proof {
            assert(rewards@.take(i + 1).drop_last() =~= rewards@.take(i as int));
            assert(rewards@.take(i + 1).last() == rewards@[i as int]);
        }
        let entry = rewards[i];
        let current = match lookup_staged(&staged, balances, entry.0) {
            Some(b) => b,
            None => 0,
        };
        let updated = match current.checked_add(entry.1) {
            Some(u) => u,
            None => {
                proof {
                    lemma_apply_rewards_error_persists(m0, rewards@, i + 1);
                }
                return Err(RewardError::Overflow);
            },
        };
        let ghost staged0 = staged@;
        staged.push((entry.0, updated));
        proof {
            assert(staged@.drop_last() =~= staged0);
            assert(staged@.last() == (entry.0, updated));
            assert(spec_staged_map(m0, staged@) =~= spec_apply_rewards(
                m0,
                rewards@.take(i + 1),
            )->Ok_0);
        }
        i = i + 1;
    }
    proof {
        assert(rewards@.take(n as int) =~= rewards@);
    }
    // Second pass: commit.
    let sn = staged.len();
    let mut k: usize = 0;
    while k < sn
        invariant
            k <= sn,
            sn == staged@.len(),
            balances@ == spec_staged_map(m0, staged@.take(k as int)),
        decreases sn - k,
    {
        proof {
            assert(staged@.take(k + 1).drop_last() =~= staged@.take(k as int));
            assert(staged@.take(k + 1).last() == staged@[k as int]);
        }
        let entry = staged[k];
        balances.insert(entry.0, entry.1);
        k = k + 1;
    }
    proof {
        assert(staged@.take(sn as int) =~= staged@);
    }
    Ok(())
}

/// The ledger after overlaying the staged entries, in order.
pub open spec fn spec_staged_map(m0: Map<u64, u128>, staged: Seq<(u64, u128)>) -> Map<u64, u128>
    decreases staged.len(),
{
    if staged.len() == 0 {
        m0
    } else {
        spec_staged_map(m0, staged.drop_last()).insert(staged.last().0, staged.last().1)
    }
}

/// The balance an account would have after the staged updates: the
/// latest staged value, else the ledger's.
fn lookup_staged(staged: &Vec<(u64, u128)>, balances: &VMap<u128>, account: u64) -> (r: Option<
    u128,
>)
    ensures
        r == (if spec_staged_map(balances@, staged@).contains_key(account) {
            Some(spec_staged_map(balances@, staged@)[account])
        } else {
            None::<u128>
        }),
{
    let n = staged.len();
    let mut i: usize = n;
    proof {
        assert(staged@.take(n as int) =~= staged@);
    }
    while i > 0
        invariant
            i <= n,
            n == staged@.len(),
            forall|j: int| i <= j < n ==> #[trigger] staged@[j].0 != account,
            spec_staged_map(balances@, staged@).contains_key(account) == spec_staged_map(
                balances@,
                staged@.take(i as int),
            ).contains_key(account),
            spec_staged_map(balances@, staged@).contains_key(account)
                ==> spec_staged_map(balances@, staged@)[account] == spec_staged_map(
                balances@,
                staged@.take(i as int),
            )[account],
        decreases i,
    {
        proof {
            assert(staged@.take(i as int).drop_last() =~= staged@.take(i - 1));
            assert(staged@.take(i as int).last() == staged@[i - 1]);
        }
        if staged[i - 1].0 == account {
            proof {
                assert(spec_staged_map(balances@, staged@.take(i as int)).contains_key(account));
            }
            return Some(staged[i - 1].1);
        }
        i = i - 1;
    }
    proof {
        assert(staged@.take(0) =~= Seq::<(u64, u128)>::empty());
    }
    balances.get(account)
}

/// A refused prefix refuses the whole payout.
proof fn lemma_apply_rewards_error_persists(m0: Map<u64, u128>, rs: Seq<(u64, u128)>, i: int)
    requires
        0 <= i <= rs.len(),
        spec_apply_rewards(m0, rs.take(i)) is Err,
    ensures
        spec_apply_rewards(m0, rs) == spec_apply_rewards(m0, rs.take(i)),
    decreases rs.len() - i,
{
    if i == rs.len() {
        assert(rs.take(i) =~= rs);
    } else {
        assert(rs.take(i + 1).drop_last() =~= rs.take(i));
        lemma_apply_rewards_error_persists(m0, rs, i + 1);
    }
}

/// Whether a block height falls into the first two epochs after the
/// upgrade, for which no rewards are distributed: the stake table is
/// only built from the contract from the third epoch on.
pub fn first_two_epochs(height: u64, epoch_height: u64, first_epoch: Option<u64>) -> (r: Result<
    bool,
    RewardError,
>)
    ensures
        match r {
            Ok(b) => first_epoch matches Some(fe) && b == (crate::epoch::spec_epoch_of(
                height,
                epoch_height,
            ) == fe || crate::epoch::spec_epoch_of(height, epoch_height) == fe + 1),
            Err(e) => first_epoch is None && e == RewardError::FirstEpochNotSet,
        },
{
    match first_epoch {
        None => Err(RewardError::FirstEpochNotSet),
        Some(fe) => {
            let e = crate::epoch::epoch_of(height, epoch_height);
            Ok(e == fe || (fe < u64::MAX && e == fe + 1))
        },
    }
}

} // verus!
