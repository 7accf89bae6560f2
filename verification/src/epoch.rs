//! Epoch arithmetic over block heights.
//!
//! An epoch is a fixed-length run of `epoch_height` consecutive blocks
//! sharing one stake table; `epoch_height == 0` means epochs are disabled.
//! Within each epoch three landmarks matter to the pipeline:
//!
//! * the *last block* (`height % epoch_height == 0`), where double quorums
//!   form;
//! * the *epoch root*, the block that fixes the next epoch's stake table,
//!   standing [`EPOCH_ROOT_GAP`] blocks before the epoch's last block;
//! * the *transition blocks*, the blocks strictly after the epoch root up
//!   to and including the last block, during which (except for the last
//!   block itself) only empty payloads are accepted.

use vstd::prelude::*;

verus! {

/// Distance, in blocks, from the epoch root to the last block of its epoch.
pub const EPOCH_ROOT_GAP: u64 = 3;

/// The epoch that a block at `height` belongs to, counting from 0: blocks
/// `1 ..= epoch_height` form epoch 0. Height 0 (genesis) is also epoch 0.
pub open spec fn spec_epoch_of(height: u64, epoch_height: u64) -> u64 {
    if epoch_height == 0 || height == 0 {
        0
    } else {
        (((height - 1) as u64) / epoch_height) as u64
    }
}

/// Epoch of the block at `height`, as [`spec_epoch_of`] states it.
pub fn epoch_of(height: u64, epoch_height: u64) -> (e: u64)
    ensures
        e == spec_epoch_of(height, epoch_height),
{
    if epoch_height == 0 || height == 0 {
        0
    } else {
        (height - 1) / epoch_height
    }
}

/// Epoch of the block at `height` when epochs are enabled, `None` otherwise.
pub fn option_epoch_of(with_epoch: bool, height: u64, epoch_height: u64) -> (e: Option<u64>)
    ensures
        e == (if with_epoch {
            Some(spec_epoch_of(height, epoch_height))
        } else {
            None::<u64>
        }),
{
    if with_epoch {
        Some(epoch_of(height, epoch_height))
    } else {
        None
    }
}

/// Whether the block at `height` is the final block of its epoch.
pub open spec fn spec_is_last_block(height: u64, epoch_height: u64) -> bool {
    epoch_height != 0 && height != 0 && height % epoch_height == 0
}

/// Whether `height` is the final block of its epoch, as
/// [`spec_is_last_block`] states it.
pub fn is_last_block(height: u64, epoch_height: u64) -> (r: bool)
    ensures
        r == spec_is_last_block(height, epoch_height),
{
    epoch_height != 0 && height != 0 && height % epoch_height == 0
}

/// Whether the block at `height` is its epoch's root: the block whose
/// decision fixes the next epoch's stake table. The root stands
/// [`EPOCH_ROOT_GAP`] blocks before the epoch's last block, so epochs
/// shorter than `EPOCH_ROOT_GAP + 1` blocks have no root.
pub open spec fn spec_is_epoch_root(height: u64, epoch_height: u64) -> bool {
    epoch_height > EPOCH_ROOT_GAP && height != 0 && height % epoch_height == (epoch_height
        - EPOCH_ROOT_GAP)
}

/// Whether `height` is an epoch root, as [`spec_is_epoch_root`] states it.
pub fn is_epoch_root(height: u64, epoch_height: u64) -> (r: bool)
    ensures
        r == spec_is_epoch_root(height, epoch_height),
{
    epoch_height > EPOCH_ROOT_GAP && height != 0 && height % epoch_height == epoch_height
        - EPOCH_ROOT_GAP
}

/// Whether the block at `height` lies in its epoch's transition window:
/// strictly after the epoch root, up to and including the last block.
pub open spec fn spec_is_epoch_transition(height: u64, epoch_height: u64) -> bool {
    epoch_height > EPOCH_ROOT_GAP && height != 0 && (height % epoch_height == 0 || height
        % epoch_height > (epoch_height - EPOCH_ROOT_GAP))
}

/// Whether `height` is in the transition window, as
/// [`spec_is_epoch_transition`] states it.
pub fn is_epoch_transition(height: u64, epoch_height: u64) -> (r: bool)
    ensures
        r == spec_is_epoch_transition(height, epoch_height),
{
    epoch_height > EPOCH_ROOT_GAP && height != 0 && (height % epoch_height == 0 || height
        % epoch_height > epoch_height - EPOCH_ROOT_GAP)
}

/// Whether the block at `height` is the first block of the transition
/// window: the immediate successor of the epoch root. A quorum certificate
/// on this block is a *transition QC* and must be accompanied by a
/// next-epoch certificate.
pub open spec fn spec_is_transition_block(height: u64, epoch_height: u64) -> bool {
    epoch_height > EPOCH_ROOT_GAP && height != 0 && height % epoch_height == (epoch_height
        - EPOCH_ROOT_GAP + 1)
}

/// Whether `height` is the first transition block, as
/// [`spec_is_transition_block`] states it.
pub fn is_transition_block(height: u64, epoch_height: u64) -> (r: bool)
    ensures
        r == spec_is_transition_block(height, epoch_height),
{
    epoch_height > EPOCH_ROOT_GAP && height != 0 && height % epoch_height == epoch_height
        - EPOCH_ROOT_GAP + 1
}

/// The landmarks are laid out as the glossary orders them: within one
/// epoch the root comes first, then the transition window opens right
/// after it, and the last block closes it. In particular the root is never
/// itself in the transition window, while the last block always is.
pub proof fn lemma_landmark_order(height: u64, epoch_height: u64)
    ensures
        spec_is_epoch_root(height, epoch_height) ==> !spec_is_epoch_transition(
            height,
            epoch_height,
        ),
        spec_is_transition_block(height, epoch_height) ==> spec_is_epoch_transition(
            height,
            epoch_height,
        ),
        epoch_height > EPOCH_ROOT_GAP && spec_is_last_block(height, epoch_height)
            ==> spec_is_epoch_transition(height, epoch_height),
        spec_is_last_block(height, epoch_height) ==> !spec_is_epoch_root(height, epoch_height),
{
}

/// Consecutive blocks stay in the same epoch unless the earlier one is the
/// last block of its epoch, in which case its successor starts the next.
pub proof fn lemma_epoch_of_successor(height: u64, epoch_height: u64)
    requires
        epoch_height > 0,
        height > 0,
        height < u64::MAX,
    ensures
        spec_is_last_block(height, epoch_height) ==> spec_epoch_of((height + 1) as u64, epoch_height)
            == spec_epoch_of(height, epoch_height) + 1,
        !spec_is_last_block(height, epoch_height) ==> spec_epoch_of(
            (height + 1) as u64,
            epoch_height,
        ) == spec_epoch_of(height, epoch_height),
{
    let e = height as int;
    let m = epoch_height as int;
    let q = e / m;
    let r = e % m;
    vstd::arithmetic::div_mod::lemma_fundamental_div_mod(e, m);
    if r == 0 {
        assert(e - 1 == (q - 1) * m + (m - 1)) by (nonlinear_arith)
            requires
                e == q * m + r,
                r == 0,
                m > 0,
        ;
        vstd::arithmetic::div_mod::lemma_fundamental_div_mod_converse(e - 1, m, q - 1, m - 1);
    } else {
        vstd::arithmetic::div_mod::lemma_fundamental_div_mod_converse(e - 1, m, q, r - 1);
    }
}

} // verus!
