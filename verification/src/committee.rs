//! Stake tables, committees and leader election.
//!
//! A committee is a list of peers with positive stake; thresholds are
//! fractions of its size, and the leader of a view is either picked
//! round-robin or — once a DRB result is known for the epoch — by a
//! stake-weighted draw seeded with that result. Per-epoch validator
//! sets are kept as rows tagged with their epoch; the stake table of an
//! epoch is derived from its validators.

use vstd::prelude::*;

use crate::stake::{duplicate_validator, spec_validator_views, Validator, ValidatorModel};
use crate::vmap::VMap;

verus! {

/// One peer of a committee: its consensus key, its state key and its
/// stake.
#[derive(Clone, Copy, Debug, PartialEq, Eq)]
pub struct PeerConfig {
    /// The peer's consensus (BLS) key.
    pub key: u64,
    /// The peer's state (Schnorr) key.
    pub state_key: u64,
    /// The peer's stake.
    pub stake: u128,
}

impl Default for PeerConfig {
    /// The all-zero peer, used by mock tables.
    fn default() -> (r: Self)
        ensures
            r == (PeerConfig { key: 0, state_key: 0, stake: 0 }),
    {
        PeerConfig { key: 0, state_key: 0, stake: 0 }
    }
}

/// The quorum stake table: the peers eligible to vote.
#[derive(Clone, Debug, PartialEq, Eq)]
pub struct StakeTable(pub Vec<PeerConfig>);

/// The DA committee's stake table.
#[derive(Clone, Debug, PartialEq, Eq)]
pub struct DAMembers(pub Vec<PeerConfig>);

/// All staking peers, DA and non-DA together.
#[derive(Clone, Debug, PartialEq, Eq)]
pub struct CombinedStakeTable(pub Vec<PeerConfig>);

impl StakeTable {
    /// A table of `n` default peers, for tests and harnesses.
    pub fn mock(n: u64) -> (r: Self)
        requires
            n <= usize::MAX,
        ensures
            r.0@.len() == n,
            forall|i: int| 0 <= i < r.0@.len() ==> #[trigger] r.0@[i] == (PeerConfig {
                key: 0,
                state_key: 0,
                stake: 0,
            }),
    {
        StakeTable(mock_peers(n))
    }
}

impl DAMembers {
    /// A DA committee of `n` default peers, for tests and harnesses.
    pub fn mock(n: u64) -> (r: Self)
        requires
            n <= usize::MAX,
        ensures
            r.0@.len() == n,
            forall|i: int| 0 <= i < r.0@.len() ==> #[trigger] r.0@[i] == (PeerConfig {
                key: 0,
                state_key: 0,
                stake: 0,
            }),
    {
        DAMembers(mock_peers(n))
    }
}

/// `n` default peers.
fn mock_peers(n: u64) -> (r: Vec<PeerConfig>)
    requires
        n <= usize::MAX,
    ensures
        r@.len() == n,
        forall|i: int| 0 <= i < r@.len() ==> #[trigger] r@[i] == (PeerConfig {
            key: 0,
            state_key: 0,
            stake: 0,
        }),
{
    let mut peers: Vec<PeerConfig> = Vec::new();
    let mut i: u64 = 0;
    while i < n
        invariant
            i <= n,
            n <= usize::MAX,
            peers@.len() == i,
            forall|j: int| 0 <= j < peers@.len() ==> #[trigger] peers@[j] == (PeerConfig {
                key: 0,
                state_key: 0,
                stake: 0,
            }),
        decreases n - i,
    {
        peers.push(PeerConfig { key: 0, state_key: 0, stake: 0 });
        i = i + 1;
    }
    peers
}

/// Sum of the peers' stakes.
pub open spec fn spec_total_stake(s: Seq<PeerConfig>) -> int
    decreases s.len(),
{
    if s.len() == 0 {
        0
    } else {
        spec_total_stake(s.drop_last()) + s.last().stake
    }
}

/// The peer a stake-weighted draw lands on: walking the table, the
/// first peer whose cumulative stake exceeds the target.
pub open spec fn spec_cdf_index(s: Seq<PeerConfig>, target: int) -> int
    decreases s.len(),
{
    if s.len() == 0 {
        0
    } else if target < s[0].stake {
        0
    } else {
        1 + spec_cdf_index(s.drop_first(), target - s[0].stake)
    }
}

/// A draw below the total stake lands on a peer.
proof fn lemma_cdf_index_in_range(s: Seq<PeerConfig>, target: int)
    requires
        0 <= target < spec_total_stake(s),
    ensures
        0 <= spec_cdf_index(s, target) < s.len(),
    decreases s.len(),
{
    if s.len() > 0 {
        lemma_total_stake_first(s);
        if target >= s[0].stake {
            lemma_cdf_index_in_range(s.drop_first(), target - s[0].stake);
        }
    }
}

/// Splitting the total stake at a prefix.
proof fn lemma_total_stake_skip(s: Seq<PeerConfig>, i: int)
    requires
        0 <= i <= s.len(),
    ensures
        spec_total_stake(s) == spec_total_stake(s.take(i)) + spec_total_stake(s.skip(i)),
    decreases s.len() - i,
{
    if i == s.len() {
        assert(s.take(i) =~= s);
        assert(s.skip(i).len() == 0);
    } else {
        lemma_total_stake_skip(s, i + 1);
        assert(s.take(i + 1).drop_last() =~= s.take(i));
        assert(s.take(i + 1).last() == s[i]);
        assert(s.skip(i).drop_first() =~= s.skip(i + 1));
        lemma_total_stake_first(s.skip(i));
    }
}

/// Peeling the first peer off a stake sum.
proof fn lemma_total_stake_first(s: Seq<PeerConfig>)
    requires
        s.len() > 0,
    ensures
        spec_total_stake(s) == s[0].stake + spec_total_stake(s.drop_first()),
    decreases s.len(),
{
    if s.len() == 1 {
        assert(s.drop_first().len() == 0);
        assert(s.drop_last().len() == 0);
        assert(spec_total_stake(s.drop_first()) == 0);
        assert(spec_total_stake(s.drop_last()) == 0);
        assert(s.last() == s[0]);
    } else {
        lemma_total_stake_first(s.drop_last());
        assert(s.drop_last()[0] == s[0]);
        assert(s.drop_last().drop_first() =~= s.drop_first().drop_last());
        assert(s.drop_first().last() == s.last());
    }
}

/// Total stake of the peers, refusing a sum beyond the machine's
/// range.
pub fn try_total_stake(peers: &Vec<PeerConfig>) -> (r: Option<u128>)
    ensures
        r is Some <==> spec_total_stake(peers@) <= u128::MAX,
        r matches Some(t) ==> t as int == spec_total_stake(peers@),
{
    let mut sum: u128 = 0;
    let n = peers.len();
    let mut i: usize = 0;
    while i < n
        invariant
            i <= n,
            n == peers@.len(),
            sum as int == spec_total_stake(peers@.take(i as int)),
        decreases n - i,
    {
        proof {
            assert(peers@.take(i + 1).drop_last() =~= peers@.take(i as int));
            assert(peers@.take(i + 1).last() == peers@[i as int]);
        }
        sum = match sum.checked_add(peers[i].stake) {
            Some(s) => s,
            None => {
                proof {
                    lemma_total_stake_monotone(peers@, i + 1);
                }
                return None;
            },
        };
        i = i + 1;
    }
    proof {
        assert(peers@.take(n as int) =~= peers@);
    }
    Some(sum)
}

/// The total stake dominates every prefix sum.
proof fn lemma_total_stake_monotone(s: Seq<PeerConfig>, i: int)
    requires
        0 <= i <= s.len(),
    ensures
        spec_total_stake(s) >= spec_total_stake(s.take(i)),
    decreases s.len() - i,
{
    if i < s.len() {
        assert(s.take(i + 1).drop_last() =~= s.take(i));
        assert(s.take(i + 1).last() == s[i]);
        lemma_total_stake_monotone(s, i + 1);
    } else {
        assert(s.take(i) =~= s);
    }
}

/// Total stake of the peers, as [`spec_total_stake`] states it.
pub fn total_stake(peers: &Vec<PeerConfig>) -> (r: u128)
    requires
        spec_total_stake(peers@) <= u128::MAX,
    ensures
        r as int == spec_total_stake(peers@),
{
    let mut sum: u128 = 0;
    let n = peers.len();
    let mut i: usize = 0;
    while i < n
        invariant
            i <= n,
            n == peers@.len(),
            sum as int == spec_total_stake(peers@.take(i as int)),
            spec_total_stake(peers@) <= u128::MAX,
        decreases n - i,
    {
        proof {
            assert(peers@.take(i + 1).drop_last() =~= peers@.take(i as int));
            assert(peers@.take(i + 1).last() == peers@[i as int]);
            lemma_total_stake_skip(peers@, i + 1);
            lemma_total_stake_nonneg(peers@.skip(i + 1));
        }
        sum = sum + peers[i].stake;
        i = i + 1;
    }
    proof {
        assert(peers@.take(n as int) =~= peers@);
    }
    sum
}

/// Stake sums are nonnegative.
proof fn lemma_total_stake_nonneg(s: Seq<PeerConfig>)
    ensures
        spec_total_stake(s) >= 0,
    decreases s.len(),
{
    if s.len() > 0 {
        lemma_total_stake_nonneg(s.drop_last());
    }
}

/// The leader a stake-weighted draw picks from `peers` for `view`,
/// seeded by `drb`: the draw target is the seed mixed with the view,
/// reduced modulo the total stake.
pub open spec fn spec_randomized_leader(s: Seq<PeerConfig>, drb: u64, view: u64) -> PeerConfig {
    let target = ((drb ^ view) as int) % spec_total_stake(s);
    s[spec_cdf_index(s, target)]
}

/// Pick the stake-weighted leader, as [`spec_randomized_leader`] states
/// it: the peer on whose stake interval the seeded draw lands.
pub fn select_randomized_leader(peers: &Vec<PeerConfig>, drb: u64, view: u64) -> (r: PeerConfig)
    requires
        spec_total_stake(peers@) > 0,
        spec_total_stake(peers@) <= u128::MAX,
    ensures
        r == spec_randomized_leader(peers@, drb, view),
{
    let total = total_stake(peers);
    let mix = drb ^ view;
    let target = (mix as u128) % total;
    proof {
        assert((mix as u128) as int == mix as int);
        assert(total as int == spec_total_stake(peers@));
        assert(target as int == (mix as int) % spec_total_stake(peers@));
    }
    proof {
        lemma_cdf_index_in_range(peers@, target as int);
    }
    let n = peers.len();
    let mut i: usize = 0;
    let mut remaining = target;
    proof {
        assert(peers@.skip(0) =~= peers@);
    }
    while i < n
        invariant
            i <= n,
            n == peers@.len(),
            mix == (drb ^ view),
            spec_total_stake(peers@) > 0,
            target as int == (mix as int) % spec_total_stake(peers@),
            spec_cdf_index(peers@, target as int) == i + spec_cdf_index(
                peers@.skip(i as int),
                remaining as int,
            ),
            0 <= spec_cdf_index(peers@, target as int) < n,
            remaining as int <= target,
        decreases n - i,
    {
        proof {
            assert(peers@.skip(i as int)[0] == peers@[i as int]);
            assert(peers@.skip(i as int).drop_first() =~= peers@.skip(i + 1));
        }
        if remaining < peers[i].stake {
            proof {
                assert(spec_cdf_index(peers@.skip(i as int), remaining as int) == 0);
                assert(spec_cdf_index(peers@, target as int) == i as int);
                assert(mix == (drb ^ view));
                assert(target as int == (mix as int) % spec_total_stake(peers@));
                assert(peers@[i as int] == spec_randomized_leader(peers@, drb, view));
            }
            return peers[i];
        }
        remaining = remaining - peers[i].stake;
        i = i + 1;
    }
    proof {
        assert(peers@.skip(n as int).len() == 0);
        assert(false);
    }
    peers[0]
}

/// The round-robin leader used before epochs: the eligible leader at
/// the view's index.
pub fn select_round_robin_leader(peers: &Vec<PeerConfig>, view: u64) -> (r: PeerConfig)
    requires
        peers@.len() > 0,
    ensures
        r == peers@[(view as int) % (peers@.len() as int)],
{
    let idx = (view % (peers.len() as u64)) as usize;
    peers[idx]
}

/// The success threshold of a table of `n` members: `2n/3 + 1`.
pub fn success_threshold(n: usize) -> (r: u64)
    requires
        n <= u64::MAX / 3,
    ensures
        r == 2 * (n as int) / 3 + 1,
{
    (2 * (n as u64)) / 3 + 1
}

/// The failure threshold of a table of `n` members: `n/3 + 1`.
pub fn failure_threshold(n: usize) -> (r: u64)
    requires
        n <= u64::MAX / 3,
    ensures
        r == (n as int) / 3 + 1,
{
    (n as u64) / 3 + 1
}

/// The upgrade threshold of a table of `n` members: the larger of
/// `9n/10` and `2n/3 + 1`.
pub fn upgrade_threshold(n: usize) -> (r: u64)
    requires
        n <= u64::MAX / 9,
    ensures
        r == (if 9 * (n as int) / 10 >= 2 * (n as int) / 3 + 1 {
            9 * (n as int) / 10
        } else {
            2 * (n as int) / 3 + 1
        }),
{
    let nine = (9 * (n as u64)) / 10;
    let two_thirds = (2 * (n as u64)) / 3 + 1;
    if nine >= two_thirds {
        nine
    } else {
        two_thirds
    }
}

/// Keep the peers with positive stake, in order.
pub fn filter_staked_peers(peers: &Vec<PeerConfig>) -> (r: Vec<PeerConfig>)
    ensures
        r@ == peers@.filter(|p: PeerConfig| p.stake > 0),
{
    let mut kept: Vec<PeerConfig> = Vec::new();
    let n = peers.len();
    let mut i: usize = 0;
    while i < n
        invariant
            i <= n,
            n == peers@.len(),
            kept@ == peers@.take(i as int).filter(|p: PeerConfig| p.stake > 0),
        decreases n - i,
    {
        proof {
            assert(peers@.take(i + 1).drop_last() =~= peers@.take(i as int));
            assert(peers@.take(i + 1).last() == peers@[i as int]);
            reveal_with_fuel(Seq::filter, 2);
        }
        let p = peers[i];
        if p.stake > 0 {
            kept.push(p);
        }
        proof {
            assert(kept@ =~= peers@.take(i + 1).filter(|p: PeerConfig| p.stake > 0));
        }
        i = i + 1;
    }
    proof {
        assert(peers@.take(n as int) =~= peers@);
    }
    kept
}

/// An epoch's rows over a prefix are a prefix of its rows over the
/// whole.
proof fn lemma_epoch_rows_prefix(rows: Seq<(u64, Validator)>, i: int, epoch: u64)
    requires
        0 <= i <= rows.len(),
    ensures
        spec_epoch_rows(rows.take(i), epoch).len() <= spec_epoch_rows(rows, epoch).len(),
        forall|j: int|
            0 <= j < spec_epoch_rows(rows.take(i), epoch).len()
                ==> #[trigger] spec_epoch_rows(rows.take(i), epoch)[j] == spec_epoch_rows(
                rows,
                epoch,
            )[j],
    decreases rows.len() - i,
{
    if i < rows.len() {
        assert(rows.take(i + 1).drop_last() =~= rows.take(i));
        assert(rows.take(i + 1).last() == rows[i]);
        lemma_epoch_rows_prefix(rows, i + 1, epoch);
        let a = spec_epoch_rows(rows.take(i), epoch);
        let b = spec_epoch_rows(rows.take(i + 1), epoch);
        assert(forall|j: int| 0 <= j < a.len() ==> #[trigger] a[j] == b[j]);
        assert(forall|j: int|
            0 <= j < b.len() ==> #[trigger] b[j] == spec_epoch_rows(rows, epoch)[j]);
    } else {
        assert(rows.take(i) =~= rows);
    }
}

/// An exact copy of a peer list.
fn copy_peers(peers: &Vec<PeerConfig>) -> (r: Vec<PeerConfig>)
    ensures
        r@ == peers@,
{
    let mut out: Vec<PeerConfig> = Vec::new();
    let n = peers.len();
    let mut i: usize = 0;
    while i < n
        invariant
            i <= n,
            n == peers@.len(),
            out@ == peers@.take(i as int),
        decreases n - i,
    {
        out.push(peers[i]);
        proof {
            assert(out@ =~= peers@.take(i + 1));
        }
        i = i + 1;
    }
    proof {
        assert(peers@.take(n as int) =~= peers@);
    }
    out
}

/// First index of the peer with `key`.
pub open spec fn spec_find_peer(s: Seq<PeerConfig>, key: u64) -> Option<int>
    decreases s.len(),
{
    if s.len() == 0 {
        None
    } else if s[0].key == key {
        Some(0)
    } else {
        match spec_find_peer(s.drop_first(), key) {
            Some(i) => Some(i + 1),
            None => None,
        }
    }
}

/// The first peer with `key`, as [`spec_find_peer`] states it.
pub fn find_peer(peers: &Vec<PeerConfig>, key: u64) -> (r: Option<PeerConfig>)
    ensures
        r == match spec_find_peer(peers@, key) {
            Some(i) => Some(peers@[i]),
            None => None::<PeerConfig>,
        },
        r matches Some(p) ==> p.key == key,
{
    proof {
        lemma_find_peer_props(peers@, key);
        assert(peers@.skip(0) =~= peers@);
    }
    let n = peers.len();
    let mut i: usize = 0;
    while i < n
        invariant
            i <= n,
            n == peers@.len(),
            spec_find_peer(peers@, key) == match spec_find_peer(peers@.skip(i as int), key) {
                Some(k) => Some(k + i),
                None => None::<int>,
            },
        decreases n - i,
    {
        proof {
            assert(peers@.skip(i as int)[0] == peers@[i as int]);
            assert(peers@.skip(i as int).drop_first() =~= peers@.skip(i + 1));
        }
        if peers[i].key == key {
            return Some(peers[i]);
        }
        i = i + 1;
    }
    proof {
        assert(peers@.skip(n as int).len() == 0);
    }
    None
}

/// A found peer index is in range and carries the key.
proof fn lemma_find_peer_props(s: Seq<PeerConfig>, key: u64)
    ensures
        match spec_find_peer(s, key) {
            Some(i) => 0 <= i < s.len() && s[i].key == key,
            None => true,
        },
    decreases s.len(),
{
    if s.len() > 0 && s[0].key != key {
        lemma_find_peer_props(s.drop_first(), key);
    }
}

/// The stake table an epoch's validators induce: one peer per
/// validator, carrying its keys and stake, in order.
pub open spec fn spec_stake_table_of(vs: Seq<ValidatorModel>) -> Seq<PeerConfig> {
    vs.map_values(
        |m: ValidatorModel| PeerConfig { key: m.bls_key, state_key: m.schnorr_key, stake: m.stake },
    )
}

/// Derive the stake table of a validator set, as
/// [`spec_stake_table_of`] states it.
pub fn stake_table_from_validators(validators: &Vec<Validator>) -> (r: Vec<PeerConfig>)
    ensures
        r@ == spec_stake_table_of(spec_validator_views(validators@)),
{
    let mut table: Vec<PeerConfig> = Vec::new();
    let n = validators.len();
    let mut i: usize = 0;
    while i < n
        invariant
            i <= n,
            n == validators@.len(),
            table@.len() == i,
            forall|j: int|
                0 <= j < i ==> #[trigger] table@[j] == (PeerConfig {
                    key: validators@[j]@.bls_key,
                    state_key: validators@[j]@.schnorr_key,
                    stake: validators@[j]@.stake,
                }),
        decreases n - i,
    {
        let v = &validators[i];
        table.push(PeerConfig { key: v.bls_key, state_key: v.schnorr_key, stake: v.stake });
        i = i + 1;
    }
    proof {
        assert(table@ =~= spec_stake_table_of(spec_validator_views(validators@)));
    }
    table
}

/// The leader for a view could not be determined: no randomized stake
/// table is known for the epoch.
#[derive(Clone, Copy, Debug, PartialEq, Eq)]
pub struct LeaderLookupError;

/// Why an epoch lookup failed.
#[derive(Clone, Copy, Debug, PartialEq, Eq)]
pub enum MembershipError {
    /// No stake table is held for the epoch.
    UnknownEpoch,
    /// The key is not in the epoch's validator set.
    UnknownKey,
}

/// The per-epoch membership state: validators by epoch, DRB results,
/// the non-epoch committee, and the first epoch once set.
pub struct EpochCommittees {
    /// The pre-epoch quorum stake table, zero-stake peers dropped.
    non_epoch_stake_table: Vec<PeerConfig>,
    /// The pre-epoch DA stake table, zero-stake peers dropped.
    non_epoch_da_table: Vec<PeerConfig>,
    /// Validator rows, each tagged with its epoch.
    rows: Vec<(u64, Validator)>,
    /// Per-epoch stake-table rows: the committee an epoch runs with,
    /// derived from its validators or copied from the genesis committee
    /// at the upgrade.
    epoch_peers: Vec<(u64, PeerConfig)>,
    /// DRB results by epoch.
    drb_results: VMap<u64>,
    /// The first epoch, once the upgrade sets it.
    first_epoch: Option<u64>,
}

/// The stake-table rows of one epoch, in order.
pub open spec fn spec_epoch_peers(rows: Seq<(u64, PeerConfig)>, epoch: u64) -> Seq<PeerConfig>
    decreases rows.len(),
{
    if rows.len() == 0 {
        Seq::empty()
    } else {
        let rest = spec_epoch_peers(rows.drop_last(), epoch);
        if rows.last().0 == epoch {
            rest.push(rows.last().1)
        } else {
            rest
        }
    }
}

/// An epoch's peers in a prefix are among its peers in the whole.
proof fn lemma_epoch_peers_extend(rows: Seq<(u64, PeerConfig)>, i: int, epoch: u64)
    requires
        0 <= i <= rows.len(),
    ensures
        spec_epoch_peers(rows, epoch).len() >= spec_epoch_peers(rows.take(i), epoch).len(),
    decreases rows.len() - i,
{
    if i < rows.len() {
        assert(rows.take(i + 1).drop_last() =~= rows.take(i));
        assert(rows.take(i + 1).last() == rows[i]);
        lemma_epoch_peers_extend(rows, i + 1, epoch);
    } else {
        assert(rows.take(i) =~= rows);
    }
}

/// Replace one epoch's stake-table rows with the given peers; the rows
/// of every other epoch stay as they are.
fn replace_epoch_peers(rows: &mut Vec<(u64, PeerConfig)>, epoch: u64, peers: &Vec<PeerConfig>)
    ensures
        spec_epoch_peers(final(rows)@, epoch) == peers@,
        forall|e: u64|
            e != epoch ==> #[trigger] spec_epoch_peers(final(rows)@, e) == spec_epoch_peers(
                old(rows)@,
                e,
            ),
{
    let ghost rows0 = rows@;
    let mut kept: Vec<(u64, PeerConfig)> = Vec::new();
    let n = rows.len();
    let mut i: usize = 0;
    while i < n
        invariant
            i <= n,
            n == rows@.len(),
            rows@ == rows0,
            spec_epoch_peers(kept@, epoch).len() == 0,
            forall|e: u64|
                e != epoch ==> #[trigger] spec_epoch_peers(kept@, e) == spec_epoch_peers(
                    rows0.take(i as int),
                    e,
                ),
        decreases n - i,
    {
        let ghost kept0 = kept@;
        proof {
            assert(rows0.take(i + 1).drop_last() =~= rows0.take(i as int));
            assert(rows0.take(i + 1).last() == rows0[i as int]);
        }
        let row = rows[i];
        if row.0 != epoch {
            kept.push(row);
        }
        proof {
            if row.0 != epoch {
                assert(kept@.drop_last() =~= kept0);
                assert(kept@.last() == row);
            }
            assert forall|e: u64| e != epoch implies #[trigger] spec_epoch_peers(kept@, e)
                == spec_epoch_peers(rows0.take(i + 1), e) by {
                if row.0 != epoch {
                    assert(spec_epoch_peers(kept0, e) == spec_epoch_peers(rows0.take(i as int), e));
                } else {
                    assert(kept@ == kept0);
                }
            }
        }
        i = i + 1;
    }
    proof {
        assert(rows0.take(n as int) =~= rows0);
    }
    let pn = peers.len();
    let mut j: usize = 0;
    let ghost base = kept@;
    while j < pn
        invariant
            j <= pn,
            pn == peers@.len(),
            spec_epoch_peers(kept@, epoch) == peers@.take(j as int),
            forall|e: u64|
                e != epoch ==> #[trigger] spec_epoch_peers(kept@, e) == spec_epoch_peers(rows0, e),
        decreases pn - j,
    {
        let ghost kept0 = kept@;
        kept.push((epoch, peers[j]));
        proof {
            assert(kept@.drop_last() =~= kept0);
            assert(kept@.last() == (epoch, peers@[j as int]));
            assert(spec_epoch_peers(kept@, epoch) =~= peers@.take(j + 1));
            assert forall|e: u64| e != epoch implies #[trigger] spec_epoch_peers(kept@, e)
                == spec_epoch_peers(rows0, e) by {
                assert(spec_epoch_peers(kept0, e) == spec_epoch_peers(rows0, e));
            }
        }
        j = j + 1;
    }
    proof {
        assert(peers@.take(pn as int) =~= peers@);
    }
    *rows = kept;
}

/// The validator rows of one epoch, in order.
pub open spec fn spec_epoch_rows(rows: Seq<(u64, Validator)>, epoch: u64) -> Seq<ValidatorModel>
    decreases rows.len(),
{
    if rows.len() == 0 {
        Seq::empty()
    } else {
        let rest = spec_epoch_rows(rows.drop_last(), epoch);
        if rows.last().0 == epoch {
            rest.push(rows.last().1@)
        } else {
            rest
        }
    }
}

/// Whether some validator in `rows` carries the consensus key and the
/// account.
pub open spec fn spec_registered_account(rows: Seq<ValidatorModel>, bls_key: u64, account: u64) -> bool {
    exists|i: int|
        0 <= i < rows.len() && (#[trigger] rows[i]).bls_key == bls_key && rows[i].account
            == account
}

/// Whether `v` is a validator in `rows` carrying the consensus key.
pub open spec fn spec_registered_validator(
    rows: Seq<ValidatorModel>,
    bls_key: u64,
    v: ValidatorModel,
) -> bool {
    exists|i: int| 0 <= i < rows.len() && (#[trigger] rows[i]).bls_key == bls_key && rows[i] == v
}

/// An epoch's rows in a prefix are among its rows in the whole.
proof fn lemma_epoch_rows_extend(rows: Seq<(u64, Validator)>, i: int, epoch: u64)
    requires
        0 <= i <= rows.len(),
    ensures
        spec_epoch_rows(rows, epoch).len() >= spec_epoch_rows(rows.take(i), epoch).len(),
    decreases rows.len() - i,
{
    if i < rows.len() {
        assert(rows.take(i + 1).drop_last() =~= rows.take(i));
        assert(rows.take(i + 1).last() == rows[i]);
        lemma_epoch_rows_extend(rows, i + 1, epoch);
    } else {
        assert(rows.take(i) =~= rows);
    }
}

impl EpochCommittees {
    /// The non-epoch quorum stake table.
    pub closed spec fn spec_non_epoch_stake_table(&self) -> Seq<PeerConfig> {
        self.non_epoch_stake_table@
    }

    /// The non-epoch DA stake table.
    pub closed spec fn spec_non_epoch_da_table(&self) -> Seq<PeerConfig> {
        self.non_epoch_da_table@
    }

    /// The validator rows.
    pub closed spec fn spec_rows(&self) -> Seq<(u64, Validator)> {
        self.rows@
    }

    /// The per-epoch stake-table rows.
    pub closed spec fn spec_peer_rows(&self) -> Seq<(u64, PeerConfig)> {
        self.epoch_peers@
    }

    /// The DRB results by epoch.
    pub closed spec fn spec_drb_results(&self) -> Map<u64, u64> {
        self.drb_results@
    }

    /// The first epoch, once set.
    pub closed spec fn spec_first_epoch(&self) -> Option<u64> {
        self.first_epoch
    }

    /// Build the membership from the pre-epoch committee and DA lists;
    /// peers without stake are dropped from both.
    pub fn new_stake(committee_members: Vec<PeerConfig>, da_members: Vec<PeerConfig>) -> (r: Self)
        ensures
            r.spec_non_epoch_stake_table() == committee_members@.filter(
                |p: PeerConfig| p.stake > 0,
            ),
            r.spec_non_epoch_da_table() == da_members@.filter(|p: PeerConfig| p.stake > 0),
            r.spec_rows() == Seq::<(u64, Validator)>::empty(),
            r.spec_peer_rows() == Seq::<(u64, PeerConfig)>::empty(),
            r.spec_drb_results() == Map::<u64, u64>::empty(),
            r.spec_first_epoch() is None,
    {
        let non_epoch_stake_table = filter_staked_peers(&committee_members);
        let non_epoch_da_table = filter_staked_peers(&da_members);
        EpochCommittees {
            non_epoch_stake_table,
            non_epoch_da_table,
            rows: Vec::new(),
            epoch_peers: Vec::new(),
            drb_results: VMap::new(),
            first_epoch: None,
        }
    }

    /// The first epoch, as recorded.
    pub fn first_epoch(&self) -> (r: Option<u64>)
        ensures
            r == self.spec_first_epoch(),
    {
        self.first_epoch
    }

    /// Whether a committee is held for `epoch`: some stake-table row
    /// carries it. An epoch whose committee would be empty is
    /// indistinguishable from an absent one here.
    pub fn has_epoch(&self, epoch: u64) -> (r: bool)
        ensures
            r == (spec_epoch_peers(self.spec_peer_rows(), epoch).len() > 0),
    {
        let n = self.epoch_peers.len();
        let mut i: usize = 0;
        while i < n
            invariant
                i <= n,
                n == self.epoch_peers@.len(),
                spec_epoch_peers(self.epoch_peers@.take(i as int), epoch).len() == 0,
            decreases n - i,
        {
            proof {
                assert(self.epoch_peers@.take(i + 1).drop_last() =~= self.epoch_peers@.take(
                    i as int,
                ));
                assert(self.epoch_peers@.take(i + 1).last() == self.epoch_peers@[i as int]);
            }
            if self.epoch_peers[i].0 == epoch {
                proof {
                    assert(spec_epoch_peers(self.epoch_peers@.take(i + 1), epoch).len() > 0);
                    lemma_epoch_peers_extend(self.epoch_peers@, i + 1, epoch);
                }
                return true;
            }
            i = i + 1;
        }
        proof {
            assert(self.epoch_peers@.take(n as int) =~= self.epoch_peers@);
        }
        false
    }

    /// Record the validator set of `epoch`, replacing any earlier rows
    /// of that epoch; its stake table is derived from the validators.
    /// Rows and tables of other epochs stay as they are.
    pub fn update_stake_table(&mut self, epoch: u64, validators: Vec<Validator>)
        ensures
            spec_epoch_rows(final(self).spec_rows(), epoch) == spec_validator_views(validators@),
            forall|e: u64|
                e != epoch ==> spec_epoch_rows(final(self).spec_rows(), e) == spec_epoch_rows(
                    old(self).spec_rows(),
                    e,
                ),
            spec_epoch_peers(final(self).spec_peer_rows(), epoch) == spec_stake_table_of(
                spec_validator_views(validators@),
            ),
            forall|e: u64|
                e != epoch ==> #[trigger] spec_epoch_peers(final(self).spec_peer_rows(), e)
                    == spec_epoch_peers(old(self).spec_peer_rows(), e),
            final(self).spec_non_epoch_stake_table() == old(self).spec_non_epoch_stake_table(),
            final(self).spec_non_epoch_da_table() == old(self).spec_non_epoch_da_table(),
            final(self).spec_drb_results() == old(self).spec_drb_results(),
            final(self).spec_first_epoch() == old(self).spec_first_epoch(),
    {
        let table = stake_table_from_validators(&validators);
        replace_epoch_peers(&mut self.epoch_peers, epoch, &table);
        let ghost rows0 = self.rows@;
        // Drop the epoch's old rows.
        let mut kept: Vec<(u64, Validator)> = Vec::new();
        let mut rest: Vec<(u64, Validator)> = Vec::new();
        core::mem::swap(&mut rest, &mut self.rows);
        let ghost mut seen: int = 0;
        while rest.len() > 0
            invariant
                0 <= seen <= rows0.len(),
                rest@ =~= rows0.skip(seen),
                spec_epoch_rows(kept@, epoch).len() == 0,
                forall|e: u64|
                    e != epoch ==> #[trigger] spec_epoch_rows(kept@, e) == spec_epoch_rows(
                        rows0.take(seen),
                        e,
                    ),
            decreases rest@.len(),
        {
            let ghost kept0 = kept@;
            proof {
                assert(rows0.take(seen + 1).drop_last() =~= rows0.take(seen));
                assert(rows0.skip(seen)[0] == rows0[seen]);
                assert(rows0.take(seen + 1).last() == rows0[seen]);
            }
            let row = rest.remove(0);
            if row.0 != epoch {
                kept.push(row);
            }
            proof {
                seen = seen + 1;
                assert(rest@ =~= rows0.skip(seen));
                if row.0 != epoch {
                    assert(kept@.drop_last() =~= kept0);
                }
                assert(rows0.take(seen).drop_last() =~= rows0.take(seen - 1));
                assert(rows0.take(seen).last() == rows0[seen - 1]);
                assert(rows0[seen - 1] == row);
                assert forall|e: u64| e != epoch implies #[trigger] spec_epoch_rows(kept@, e)
                    == spec_epoch_rows(rows0.take(seen), e) by {
                    if row.0 != epoch {
                        assert(kept@.last() == row);
                        assert(kept@.drop_last() == kept0);
                        assert(spec_epoch_rows(kept0, e) == spec_epoch_rows(
                            rows0.take(seen - 1),
                            e,
                        ));
                    } else {
                        assert(kept@ == kept0);
                    }
                }
            }
        }
        proof {
            assert(rows0.take(rows0.len() as int) =~= rows0);
        }
        // Append the new rows.
        let mut incoming = validators;
        let ghost vs0 = incoming@;
        let ghost mut added: int = 0;
        while incoming.len() > 0
            invariant
                0 <= added <= vs0.len(),
                incoming@ =~= vs0.skip(added),
                spec_epoch_rows(kept@, epoch) == spec_validator_views(vs0.take(added)),
                forall|e: u64|
                    e != epoch ==> #[trigger] spec_epoch_rows(kept@, e) == spec_epoch_rows(
                        rows0,
                        e,
                    ),
            decreases incoming@.len(),
        {
            let ghost kept0 = kept@;
            proof {
                assert(vs0.skip(added)[0] == vs0[added]);
                assert(spec_validator_views(vs0.take(added)) =~= spec_epoch_rows(kept0, epoch));
            }
            let v = incoming.remove(0);
            kept.push((epoch, v));
            proof {
                added = added + 1;
                assert(incoming@ =~= vs0.skip(added));
                assert(kept@.drop_last() =~= kept0);
                assert(kept@.last() == (epoch, v));
                assert(spec_epoch_rows(kept@, epoch) =~= spec_validator_views(vs0.take(added)));
                assert forall|e: u64| e != epoch implies #[trigger] spec_epoch_rows(kept@, e)
                    == spec_epoch_rows(rows0, e) by {
                    assert(kept@.last().0 == epoch);
                    assert(kept@.drop_last() == kept0);
                    assert(spec_epoch_rows(kept0, e) == spec_epoch_rows(rows0, e));
                }
            }
        }
        self.rows = kept;
        proof {
            assert(vs0.take(vs0.len() as int) =~= vs0);
        }
    }

    /// The validator set of `epoch`, or a refusal when none is held.
    pub fn validators(&self, epoch: u64) -> (r: Result<Vec<Validator>, MembershipError>)
        ensures
            match r {
                Ok(vs) => spec_validator_views(vs@) == spec_epoch_rows(self.spec_rows(), epoch)
                    && spec_epoch_rows(self.spec_rows(), epoch).len() > 0,
                Err(e) => e == MembershipError::UnknownEpoch && spec_epoch_rows(
                    self.spec_rows(),
                    epoch,
                ).len() == 0,
            },
    {
        let mut out: Vec<Validator> = Vec::new();
        let n = self.rows.len();
        let mut i: usize = 0;
        while i < n
            invariant
                i <= n,
                n == self.rows@.len(),
                spec_validator_views(out@) == spec_epoch_rows(self.rows@.take(i as int), epoch),
            decreases n - i,
        {
            proof {
                assert(self.rows@.take(i + 1).drop_last() =~= self.rows@.take(i as int));
                assert(self.rows@.take(i + 1).last() == self.rows@[i as int]);
                reveal_with_fuel(Seq::filter, 2);
            }
            let row = &self.rows[i];
            if row.0 == epoch {
                out.push(duplicate_validator(&row.1));
            }
            proof {
                assert(spec_validator_views(out@) =~= spec_epoch_rows(
                    self.rows@.take(i + 1),
                    epoch,
                ));
            }
            i = i + 1;
        }
        proof {
            assert(self.rows@.take(n as int) =~= self.rows@);
        }
        if out.len() == 0 {
            Err(MembershipError::UnknownEpoch)
        } else {
            Ok(out)
        }
    }

    /// The account registered under a consensus key in an epoch's
    /// validator set.
    pub fn address(&self, epoch: u64, bls_key: u64) -> (r: Result<u64, MembershipError>)
        ensures
            ({
                let rows = spec_epoch_rows(self.spec_rows(), epoch);
                match r {
                    Ok(account) => spec_registered_account(rows, bls_key, account),
                    Err(e) => e == MembershipError::UnknownKey && forall|i: int|
                        0 <= i < rows.len() ==> (#[trigger] rows[i]).bls_key != bls_key,
                }
            }),
    {
        match self.get_validator_config(epoch, bls_key) {
            Ok(v) => {
                proof {
                    let rows = spec_epoch_rows(self.spec_rows(), epoch);
                    let i = choose|i: int|
                        0 <= i < rows.len() && (#[trigger] rows[i]).bls_key == bls_key && rows[i]
                            == v@;
                    assert(rows[i].account == v.account);
                    assert(spec_registered_account(rows, bls_key, v.account));
                }
                Ok(v.account)
            },
            Err(e) => Err(e),
        }
    }

    /// The full validator record registered under a consensus key in an
    /// epoch's validator set.
    pub fn get_validator_config(&self, epoch: u64, bls_key: u64) -> (r: Result<
        Validator,
        MembershipError,
    >)
        ensures
            ({
                let rows = spec_epoch_rows(self.spec_rows(), epoch);
                match r {
                    Ok(v) => spec_registered_validator(rows, bls_key, v@),
                    Err(e) => e == MembershipError::UnknownKey && forall|i: int|
                        0 <= i < rows.len() ==> (#[trigger] rows[i]).bls_key != bls_key,
                }
            }),
    {
        let ghost rows = spec_epoch_rows(self.spec_rows(), epoch);
        let n = self.rows.len();
        let mut i: usize = 0;
        while i < n
            invariant
                i <= n,
                n == self.rows@.len(),
                rows == spec_epoch_rows(self.rows@, epoch),
                forall|j: int|
                    0 <= j < spec_epoch_rows(self.rows@.take(i as int), epoch).len()
                        ==> (#[trigger] spec_epoch_rows(self.rows@.take(i as int), epoch)[j]).bls_key
                        != bls_key,
                spec_epoch_rows(self.rows@.take(i as int), epoch).len() <= rows.len(),
                forall|j: int|
                    0 <= j < spec_epoch_rows(self.rows@.take(i as int), epoch).len()
                        ==> #[trigger] spec_epoch_rows(self.rows@.take(i as int), epoch)[j]
                        == rows[j],
            decreases n - i,
        {
            proof {
                assert(self.rows@.take(i + 1).drop_last() =~= self.rows@.take(i as int));
                assert(self.rows@.take(i + 1).last() == self.rows@[i as int]);
                lemma_epoch_rows_prefix(self.rows@, i + 1, epoch);
            }
            let row = &self.rows[i];
            if row.0 == epoch && row.1.bls_key == bls_key {
                let v = duplicate_validator(&row.1);
                proof {
                    let prefix = spec_epoch_rows(self.rows@.take(i + 1), epoch);
                    assert(prefix.last() == self.rows@[i as int].1@);
                    assert(0 <= prefix.len() - 1 < rows.len());
                    assert(rows[prefix.len() - 1] == self.rows@[i as int].1@);
                    let w = prefix.len() - 1;
                    assert(rows[w].bls_key == bls_key && rows[w] == v@);
                    assert(spec_registered_validator(rows, bls_key, v@));
                }
                return Ok(v);
            }
            i = i + 1;
        }
        proof {
            assert(self.rows@.take(n as int) =~= self.rows@);
        }
        Err(MembershipError::UnknownKey)
    }

    /// The quorum stake table for an epoch: derived from the epoch's
    /// validators once epochs run, the non-epoch table before.
    pub fn stake_table(&self, epoch: Option<u64>) -> (r: Vec<PeerConfig>)
        ensures
            r@ == (match epoch {
                Some(e) => spec_epoch_peers(self.spec_peer_rows(), e),
                None => self.spec_non_epoch_stake_table(),
            }),
    {
        match epoch {
            Some(e) => {
                let mut out: Vec<PeerConfig> = Vec::new();
                let n = self.epoch_peers.len();
                let mut i: usize = 0;
                while i < n
                    invariant
                        i <= n,
                        n == self.epoch_peers@.len(),
                        out@ == spec_epoch_peers(self.epoch_peers@.take(i as int), e),
                    decreases n - i,
                {
                    proof {
                        assert(self.epoch_peers@.take(i + 1).drop_last() =~= self.epoch_peers@.take(
                            i as int,
                        ));
                        assert(self.epoch_peers@.take(i + 1).last() == self.epoch_peers@[i as int]);
                    }
                    let row = self.epoch_peers[i];
                    if row.0 == e {
                        out.push(row.1);
                    }
                    proof {
                        assert(out@ =~= spec_epoch_peers(self.epoch_peers@.take(i + 1), e));
                    }
                    i = i + 1;
                }
                proof {
                    assert(self.epoch_peers@.take(n as int) =~= self.epoch_peers@);
                }
                out
            },
            None => copy_peers(&self.non_epoch_stake_table),
        }
    }

    /// The DA stake table; the DA committee does not rotate with
    /// epochs.
    pub fn da_stake_table(&self) -> (r: Vec<PeerConfig>)
        ensures
            r@ == self.spec_non_epoch_da_table(),
    {
        copy_peers(&self.non_epoch_da_table)
    }

    /// The first quorum entry for a key in an epoch's table, if any.
    pub fn stake(&self, key: u64, epoch: Option<u64>) -> (r: Option<PeerConfig>)
        ensures
            ({
                let table = match epoch {
                    Some(e) => spec_epoch_peers(self.spec_peer_rows(), e),
                    None => self.spec_non_epoch_stake_table(),
                };
                r == match spec_find_peer(table, key) {
                    Some(i) => Some(table[i]),
                    None => None::<PeerConfig>,
                }
            }),
    {
        let table = self.stake_table(epoch);
        find_peer(&table, key)
    }

    /// Whether a key holds positive stake in an epoch's quorum table.
    pub fn has_stake(&self, key: u64, epoch: Option<u64>) -> (r: bool)
        ensures
            ({
                let table = match epoch {
                    Some(e) => spec_epoch_peers(self.spec_peer_rows(), e),
                    None => self.spec_non_epoch_stake_table(),
                };
                r == (match spec_find_peer(table, key) {
                    Some(i) => table[i].stake > 0,
                    None => false,
                })
            }),
    {
        match self.stake(key, epoch) {
            Some(p) => p.stake > 0,
            None => false,
        }
    }

    /// Whether a key holds positive stake in the DA committee.
    pub fn has_da_stake(&self, key: u64) -> (r: bool)
        ensures
            r == (match spec_find_peer(self.spec_non_epoch_da_table(), key) {
                Some(i) => self.spec_non_epoch_da_table()[i].stake > 0,
                None => false,
            }),
    {
        let table = self.da_stake_table();
        match find_peer(&table, key) {
            Some(p) => p.stake > 0,
            None => false,
        }
    }

    /// The number of quorum members in an epoch's table.
    pub fn total_nodes(&self, epoch: Option<u64>) -> (r: usize)
        ensures
            r == (match epoch {
                Some(e) => spec_epoch_peers(self.spec_peer_rows(), e).len(),
                None => self.spec_non_epoch_stake_table().len(),
            }),
    {
        self.stake_table(epoch).len()
    }

    /// The leader for a view. Before epochs, the round-robin schedule
    /// over the non-epoch table decides; under an epoch, the DRB result
    /// seeds a stake-weighted draw over the epoch's stake table.
    /// Refused when the table is empty or unusable, or — under an epoch
    /// — when no DRB result is known yet.
    pub fn lookup_leader(&self, view: u64, epoch: Option<u64>) -> (r: Result<u64, LeaderLookupError>)
        ensures
            ({
                let table = match epoch {
                    Some(e) => spec_epoch_peers(self.spec_peer_rows(), e),
                    None => self.spec_non_epoch_stake_table(),
                };
                let usable = match epoch {
                    Some(e) => self.spec_drb_results().contains_key(e) && 0 < spec_total_stake(
                        table,
                    ) <= u128::MAX,
                    None => table.len() > 0,
                };
                &&& (r is Ok <==> usable)
                &&& (match r {
                    Ok(key) => match epoch {
                        Some(e) => key == spec_randomized_leader(
                            table,
                            self.spec_drb_results()[e],
                            view,
                        ).key,
                        None => key == table[(view as int) % (table.len() as int)].key,
                    },
                    Err(e) => e == LeaderLookupError,
                })
            }),
    {
        match epoch {
            None => {
                if self.non_epoch_stake_table.len() == 0 {
                    return Err(LeaderLookupError);
                }
                Ok(select_round_robin_leader(&self.non_epoch_stake_table, view).key)
            },
            Some(e) => {
                let Some(drb) = self.drb_results.get(e) else {
                    return Err(LeaderLookupError);
                };
                let table = self.stake_table(Some(e));
                let Some(total) = try_total_stake(&table) else {
                    return Err(LeaderLookupError);
                };
                if total == 0 {
                    return Err(LeaderLookupError);
                }
                Ok(select_randomized_leader(&table, drb, view).key)
            },
        }
    }

    /// Record the DRB result that randomizes `epoch`'s leader schedule.
    /// A result for an epoch without a stored committee is dropped:
    /// nothing changes, and leader lookups for that epoch keep failing
    /// even if a committee arrives later.
    pub fn add_drb_result(&mut self, epoch: u64, drb: u64)
        ensures
            spec_epoch_peers(old(self).spec_peer_rows(), epoch).len() > 0 ==> final(self).spec_drb_results() == old(self).spec_drb_results().insert(epoch, drb),
            spec_epoch_peers(old(self).spec_peer_rows(), epoch).len() == 0 ==> final(self).spec_drb_results() == old(self).spec_drb_results(),
            final(self).spec_rows() == old(self).spec_rows(),
            final(self).spec_peer_rows() == old(self).spec_peer_rows(),
            final(self).spec_non_epoch_stake_table() == old(self).spec_non_epoch_stake_table(),
            final(self).spec_non_epoch_da_table() == old(self).spec_non_epoch_da_table(),
            final(self).spec_first_epoch() == old(self).spec_first_epoch(),
    {
        if !self.has_epoch(epoch) {
            return ;
        }
        self.drb_results.insert(epoch, drb);
    }

    /// Whether a randomized stake table is known for `epoch`.
    pub fn has_randomized_stake_table(&self, epoch: u64) -> (r: bool)
        ensures
            r == self.spec_drb_results().contains_key(epoch),
    {
        self.drb_results.contains_key(epoch)
    }

    /// Set the first epoch at the upgrade: the genesis committee is
    /// copied into the first epoch and its successor, and both are
    /// seeded with the initial DRB result, so leader lookups work for
    /// the first two epochs before any stake table is ingested from L1.
    pub fn set_first_epoch(&mut self, epoch: u64, initial_drb: u64)
        requires
            epoch < u64::MAX,
        ensures
            final(self).spec_first_epoch() == Some(epoch),
            spec_epoch_peers(final(self).spec_peer_rows(), epoch) == old(self).spec_non_epoch_stake_table(),
            spec_epoch_peers(final(self).spec_peer_rows(), (epoch + 1) as u64) == old(self).spec_non_epoch_stake_table(),
            forall|e: u64|
                e != epoch && e != (epoch + 1) as u64 ==> #[trigger] spec_epoch_peers(
                    final(self).spec_peer_rows(),
                    e,
                ) == spec_epoch_peers(old(self).spec_peer_rows(), e),
            old(self).spec_non_epoch_stake_table().len() > 0 ==> final(self).spec_drb_results()
                == old(self).spec_drb_results().insert(epoch, initial_drb).insert(
                (epoch + 1) as u64,
                initial_drb,
            ),
            old(self).spec_non_epoch_stake_table().len() == 0 ==> final(self).spec_drb_results()
                == old(self).spec_drb_results(),
            final(self).spec_rows() == old(self).spec_rows(),
            final(self).spec_non_epoch_stake_table() == old(self).spec_non_epoch_stake_table(),
            final(self).spec_non_epoch_da_table() == old(self).spec_non_epoch_da_table(),
    {
        self.first_epoch = Some(epoch);
        let genesis = copy_peers(&self.non_epoch_stake_table);
        replace_epoch_peers(&mut self.epoch_peers, epoch, &genesis);
        replace_epoch_peers(&mut self.epoch_peers, epoch + 1, &genesis);
        self.add_drb_result(epoch, initial_drb);
        self.add_drb_result(epoch + 1, initial_drb);
    }
}

} // verus!
