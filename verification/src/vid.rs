//! Parameters and share layout of the dispersal scheme.
//!
//! The erasure code itself — field arithmetic, Merkle trees, proofs —
//! is a black box to the consensus core; what the core fixes is the
//! scheme's parameters and how a payload's encoded shares are laid out
//! across the storage nodes according to their weights.

use vstd::prelude::*;

verus! {

/// Public parameters of the dispersal scheme.
#[derive(Clone, Copy, Debug, PartialEq, Eq)]
pub struct AvidMParam {
    /// Total weight of all storage nodes.
    pub total_weights: usize,
    /// Minimum collective weight needed to recover a payload.
    pub recovery_threshold: usize,
}

/// The parameters were rejected.
#[derive(Clone, Copy, Debug, PartialEq, Eq)]
pub struct InvalidParam;

impl AvidMParam {
    /// Parameters with the given thresholds; a zero recovery threshold
    /// or a total weight below it is refused.
    pub fn new(recovery_threshold: usize, total_weights: usize) -> (r: Result<Self, InvalidParam>)
        ensures
            (recovery_threshold == 0 || total_weights < recovery_threshold) <==> r is Err,
            r matches Ok(p) ==> p.recovery_threshold == recovery_threshold && p.total_weights
                == total_weights,
    {
        if recovery_threshold == 0 || total_weights < recovery_threshold {
            Err(InvalidParam)
        } else {
            Ok(AvidMParam { total_weights, recovery_threshold })
        }
    }
}

/// Marker for the dispersal scheme's operations.
pub struct AvidMScheme;

impl AvidMScheme {
    /// Set up the scheme, as [`AvidMParam::new`] states it.
    pub fn setup(recovery_threshold: usize, total_weights: usize) -> (r: Result<
        AvidMParam,
        InvalidParam,
    >)
        ensures
            (recovery_threshold == 0 || total_weights < recovery_threshold) <==> r is Err,
            r matches Ok(p) ==> p.recovery_threshold == recovery_threshold && p.total_weights
                == total_weights,
    {
        AvidMParam::new(recovery_threshold, total_weights)
    }
}

/// Parameters for a committee of the given total weight: a third of the
/// weight, rounded up, must suffice to recover. A zero weight is
/// refused.
pub fn init_avidm_param(total_weight: usize) -> (r: Result<AvidMParam, InvalidParam>)
    ensures
        total_weight == 0 <==> r is Err,
        r matches Ok(p) ==> p.total_weights == total_weight && p.recovery_threshold as int == (
        total_weight + 2) / 3,
{
    if total_weight == 0 {
        return Err(InvalidParam);
    }
    let recovery_threshold = if total_weight > usize::MAX - 2 {
        (total_weight / 3) + (if total_weight % 3 == 0 {
            0
        } else {
            1
        })
    } else {
        (total_weight + 2) / 3
    };
    proof {
        if total_weight > usize::MAX - 2 {
            vstd::arithmetic::div_mod::lemma_fundamental_div_mod(total_weight as int, 3);
            vstd::arithmetic::div_mod::lemma_fundamental_div_mod(total_weight as int + 2, 3);
        }
    }
    AvidMParam::new(recovery_threshold, total_weight)
}

/// The range of encoded shares each storage node receives: node `i`
/// gets the consecutive shares from the sum of the weights before it,
/// as many as its weight.
pub open spec fn spec_weight_prefix_sum(weights: Seq<u32>, i: int) -> int
    decreases i,
{
    if i <= 0 {
        0
    } else {
        spec_weight_prefix_sum(weights, i - 1) + weights[i - 1]
    }
}

/// The share layout was rejected.
#[derive(Clone, Copy, Debug, PartialEq, Eq)]
pub enum ShareLayoutError {
    /// A storage node carries zero weight.
    ZeroWeight,
    /// The weights do not sum to the scheme's total weight.
    InconsistentTotalWeight,
}

/// The verdict a left-to-right scan of the weights reaches from
/// position `i`: a zero weight is refused where it stands, a prefix sum
/// that passes the total is refused as inconsistent, and a completed
/// scan whose sum misses the total is inconsistent too.
pub open spec fn spec_share_ranges_verdict(weights: Seq<u32>, total: int, i: int) -> Option<
    ShareLayoutError,
>
    decreases weights.len() - i,
{
    if i < 0 || i >= weights.len() {
        if spec_weight_prefix_sum(weights, weights.len() as int) == total {
            None
        } else {
            Some(ShareLayoutError::InconsistentTotalWeight)
        }
    } else if weights[i] == 0 {
        Some(ShareLayoutError::ZeroWeight)
    } else if spec_weight_prefix_sum(weights, i + 1) > total {
        Some(ShareLayoutError::InconsistentTotalWeight)
    } else {
        spec_share_ranges_verdict(weights, total, i + 1)
    }
}

/// Lay the encoded shares out across the storage nodes: node `i`'s
/// range starts at the sum of the weights before it and spans its
/// weight; ranges are consecutive, the first starts at zero and the
/// last ends at the scheme's total weight. The layout succeeds exactly
/// when [`spec_share_ranges_verdict`] finds no flaw in the weights,
/// and otherwise reports the flaw that the left-to-right reading meets
/// first: a zero weight, a prefix sum past the total, or a completed
/// sum that misses it.
pub fn share_ranges(param: &AvidMParam, weights: &Vec<u32>) -> (r: Result<
    Vec<(usize, usize)>,
    ShareLayoutError,
>)
    ensures
        (r is Ok <==> spec_share_ranges_verdict(
            weights@,
            param.total_weights as int,
            0,
        ) is None),
        r is Err ==> r->Err_0 == spec_share_ranges_verdict(
            weights@,
            param.total_weights as int,
            0,
        )->Some_0,
        match r {
            Ok(ranges) => {
                &&& ranges@.len() == weights@.len()
                &&& (forall|i: int|
                    0 <= i < ranges@.len() ==> #[trigger] ranges@[i].0
                        == spec_weight_prefix_sum(weights@, i) && ranges@[i].1
                        == spec_weight_prefix_sum(weights@, i + 1))
                &&& spec_weight_prefix_sum(weights@, weights@.len() as int)
                    == param.total_weights
                &&& (forall|i: int| 0 <= i < weights@.len() ==> #[trigger] weights@[i] > 0)
            },
            Err(ShareLayoutError::ZeroWeight) => exists|i: int|
                0 <= i < weights@.len() && #[trigger] weights@[i] == 0,
            Err(ShareLayoutError::InconsistentTotalWeight) => spec_weight_prefix_sum(
                weights@,
                weights@.len() as int,
            ) != param.total_weights || exists|i: int|
                0 <= i < weights@.len() && #[trigger] spec_weight_prefix_sum(weights@, i + 1)
                    > param.total_weights,
        },
{
    let ghost total = param.total_weights as int;
    let n = weights.len();
    let mut ranges: Vec<(usize, usize)> = Vec::new();
    let mut sum: usize = 0;
    let mut i: usize = 0;
    while i < n
        invariant
            i <= n,
            n == weights@.len(),
            total == param.total_weights as int,
            ranges@.len() == i,
            sum as int == spec_weight_prefix_sum(weights@, i as int),
            sum <= param.total_weights,
            spec_share_ranges_verdict(weights@, total, 0) == spec_share_ranges_verdict(
                weights@,
                total,
                i as int,
            ),
            forall|j: int|
                0 <= j < i ==> #[trigger] ranges@[j].0 == spec_weight_prefix_sum(weights@, j)
                    && ranges@[j].1 == spec_weight_prefix_sum(weights@, j + 1),
            forall|j: int| 0 <= j < i ==> #[trigger] weights@[j] > 0,
        decreases n - i,
    {
        let w = weights[i];
        if w == 0 {
            return Err(ShareLayoutError::ZeroWeight);
        }
        if w as usize > param.total_weights - sum {
            return Err(ShareLayoutError::InconsistentTotalWeight);
        }
        let end = sum + (w as usize);
        ranges.push((sum, end));
        proof {
            assert(spec_weight_prefix_sum(weights@, i as int + 1) == spec_weight_prefix_sum(
                weights@,
                i as int,
            ) + weights@[i as int]);
            assert(spec_share_ranges_verdict(weights@, total, i as int)
                == spec_share_ranges_verdict(weights@, total, i as int + 1));
        }
        sum = end;
        i = i + 1;
    }
    if sum != param.total_weights {
        return Err(ShareLayoutError::InconsistentTotalWeight);
    }
    Ok(ranges)
}

} // verus!
