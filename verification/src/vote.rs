//! The vote pipeline.
//!
//! A vote for view `v` needs three things: the validated proposal, the
//! DA certificate, and this node's VID share, all for `v` and all
//! speaking of one payload. The functions here join them, verify the
//! DRB result a last-block proposal must carry, update the shared state
//! with the newly validated leaf, and finally issue the vote — extended
//! at an epoch's last block, so the double quorum can form.

use vstd::prelude::*;

use crate::consensus::{ConsensusSnapshot, ConsensusState};
use crate::data::{
    sign, spec_sign, state_commitment_from_header, Leaf, QuorumProposal, QuorumVote, VidShare,
};
use crate::epoch::{is_last_block, spec_is_last_block};
use crate::events::HotShotEvent;

verus! {

/// Why the gathered vote dependencies were refused.
#[derive(Clone, Copy, Debug, PartialEq, Eq)]
pub enum VoteError {
    /// A payload commitment announced by the proposal, the DA
    /// certificate or the VID share disagrees with another.
    InconsistentPayloadCommitment,
    /// A next-epoch payload commitment disagrees between the DA
    /// certificate and the VID share.
    InconsistentNextEpochPayloadCommitment,
    /// The joined proposal, DA certificate and VID share do not carry
    /// one and the same view.
    InconsistentView,
    /// The proposed leaf's parent link does not match the parent leaf.
    ParentCommitMismatch,
    /// The dependencies completed without a VID share.
    MissingVidShare,
    /// The dependencies completed without a validated proposal.
    MissingProposal,
    /// The parent leaf is not in the saved-leaf store; a fetch is needed
    /// before voting.
    ParentMissing,
    /// The parent's validated state is missing: the consensus state is
    /// internally inconsistent.
    ParentStateMissing,
    /// The header does not extend the parent's validated state.
    HeaderInvalid,
    /// A last-block proposal carries no DRB result.
    MissingDrbResult,
    /// This node has not computed a DRB result for the next epoch.
    NoComputedDrbResult,
    /// The proposal's DRB result differs from the locally computed one.
    DrbMismatch,
    /// Epoch rules apply but no epoch is available.
    EpochsUnavailable,
    /// This node has stake in neither the current epoch nor, at a last
    /// block, the next.
    NotCommitteeMember,
}

/// The running state of the vote-input fold.
#[derive(Clone, Copy, Debug, PartialEq, Eq)]
pub struct VoteInputs {
    /// The one view all three dependencies must carry.
    pub view: Option<u64>,
    /// The payload commitment all three dependencies must share.
    pub payload_commitment: Option<u64>,
    /// The next-epoch payload commitment, during a transition.
    pub next_epoch_payload_commitment: Option<u64>,
    /// The leaf recorded by the validated proposal.
    pub leaf: Option<Leaf>,
    /// The view of the resolved parent leaf.
    pub parent_view: Option<u64>,
    /// This node's validated VID share.
    pub vid_share: Option<VidShare>,
}

/// The empty fold state.
pub open spec fn spec_empty_vote_inputs() -> VoteInputs {
    VoteInputs {
        view: None,
        payload_commitment: None,
        next_epoch_payload_commitment: None,
        leaf: None,
        parent_view: None,
        vid_share: None,
    }
}

/// One step of the vote-input fold: consistency is checked against
/// everything gathered so far, and the first disagreement fails the
/// whole collection.
pub open spec fn spec_vote_collect_step(acc: VoteInputs, e: HotShotEvent) -> Result<
    VoteInputs,
    VoteError,
> {
    match e {
        HotShotEvent::QuorumProposalValidated { proposal, parent } => {
            let comm = proposal.block_header.payload_commitment;
            if (match acc.view {
                Some(v) => v != proposal.view_number,
                None => false,
            }) {
                Err(VoteError::InconsistentView)
            } else if (match acc.payload_commitment {
                Some(c) => c != comm,
                None => false,
            }) {
                Err(VoteError::InconsistentPayloadCommitment)
            } else if Leaf::spec_from_proposal(proposal).parent_commitment != parent.spec_commit() {
                Err(VoteError::ParentCommitMismatch)
            } else {
                Ok(
                    VoteInputs {
                        view: Some(proposal.view_number),
                        payload_commitment: Some(comm),
                        leaf: Some(Leaf::spec_from_proposal(proposal)),
                        parent_view: Some(parent.view),
                        ..acc
                    },
                )
            }
        },
        HotShotEvent::DaCertificateValidated { cert } => {
            if (match acc.view {
                Some(v) => v != cert.view,
                None => false,
            }) {
                Err(VoteError::InconsistentView)
            } else if (match acc.payload_commitment {
                Some(c) => c != cert.payload_commit,
                None => false,
            }) {
                Err(VoteError::InconsistentPayloadCommitment)
            } else if acc.next_epoch_payload_commitment is Some
                && acc.next_epoch_payload_commitment != cert.next_epoch_payload_commit {
                Err(VoteError::InconsistentNextEpochPayloadCommitment)
            } else {
                Ok(
                    VoteInputs {
                        view: Some(cert.view),
                        payload_commitment: Some(cert.payload_commit),
                        next_epoch_payload_commitment: cert.next_epoch_payload_commit,
                        ..acc
                    },
                )
            }
        },
        HotShotEvent::VidShareValidated { share } => {
            if (match acc.view {
                Some(v) => v != share.view,
                None => false,
            }) {
                Err(VoteError::InconsistentView)
            } else if share.epoch != share.target_epoch {
                if (match acc.next_epoch_payload_commitment {
                    Some(c) => c != share.payload_commitment,
                    None => false,
                }) {
                    Err(VoteError::InconsistentNextEpochPayloadCommitment)
                } else {
                    Ok(
                        VoteInputs {
                            view: Some(share.view),
                            next_epoch_payload_commitment: Some(share.payload_commitment),
                            vid_share: Some(share),
                            ..acc
                        },
                    )
                }
            } else {
                if (match acc.payload_commitment {
                    Some(c) => c != share.payload_commitment,
                    None => false,
                }) {
                    Err(VoteError::InconsistentPayloadCommitment)
                } else {
                    Ok(
                        VoteInputs {
                            view: Some(share.view),
                            payload_commitment: Some(share.payload_commitment),
                            vid_share: Some(share),
                            ..acc
                        },
                    )
                }
            }
        },
        _ => Ok(acc),
    }
}

/// The fold of a whole event sequence: the first failing step wins.
pub open spec fn spec_collect_vote_inputs(s: Seq<HotShotEvent>) -> Result<VoteInputs, VoteError>
    decreases s.len(),
{
    if s.len() == 0 {
        Ok(spec_empty_vote_inputs())
    } else {
        match spec_collect_vote_inputs(s.drop_last()) {
            Err(e) => Err(e),
            Ok(acc) => spec_vote_collect_step(acc, s.last()),
        }
    }
}

/// A failure of the fold on a prefix is the failure of the whole fold:
/// the first disagreement wins.
proof fn lemma_vote_fold_error_persists(s: Seq<HotShotEvent>, i: int)
    requires
        0 <= i <= s.len(),
        spec_collect_vote_inputs(s.take(i)) is Err,
    ensures
        spec_collect_vote_inputs(s) == spec_collect_vote_inputs(s.take(i)),
    decreases s.len() - i,
{
    if i == s.len() {
        assert(s.take(i) =~= s);
    } else {
        assert(s.take(i + 1).drop_last() =~= s.take(i));
        lemma_vote_fold_error_persists(s, i + 1);
    }
}

/// Along any successful fold, the joined proposal and share carry the
/// fold's one view.
proof fn lemma_vote_fold_views(s: Seq<HotShotEvent>)
    requires
        spec_collect_vote_inputs(s) is Ok,
    ensures
        ({
            let acc = spec_collect_vote_inputs(s)->Ok_0;
            &&& (acc.leaf matches Some(l) ==> acc.view == Some(l.view))
            &&& (acc.vid_share matches Some(sh) ==> acc.view == Some(sh.view))
        }),
    decreases s.len(),
{
    if s.len() > 0 {
        lemma_vote_fold_views(s.drop_last());
    }
}

/// The final acceptance rule on the folded inputs: both the share and
/// the proposal must have arrived.
pub open spec fn spec_vote_inputs_complete(acc: VoteInputs) -> Option<VoteError> {
    if acc.vid_share is None {
        Some(VoteError::MissingVidShare)
    } else if acc.leaf is None {
        Some(VoteError::MissingProposal)
    } else {
        None
    }
}

/// Join the events of a completed vote dependency into the vote's
/// inputs.
///
/// The result is the fold [`spec_collect_vote_inputs`] followed by the
/// completeness rule [`spec_vote_inputs_complete`]; on success the
/// proposal, the DA certificate and the VID share all committed to one
/// payload, and the proposal's parent link matches the resolved parent.
pub fn collect_vote_inputs(events: &Vec<HotShotEvent>) -> (r: Result<VoteInputs, VoteError>)
    ensures
        match spec_collect_vote_inputs(events@) {
            Err(e) => r == Err::<VoteInputs, VoteError>(e),
            Ok(acc) => match spec_vote_inputs_complete(acc) {
                Some(e) => r == Err::<VoteInputs, VoteError>(e),
                None => r == Ok::<VoteInputs, VoteError>(acc) && acc.vid_share is Some
                    && acc.leaf is Some && acc.view is Some && acc.leaf->Some_0.view
                    == acc.view->Some_0 && acc.vid_share->Some_0.view == acc.view->Some_0,
            },
        },
{
    let mut acc = VoteInputs {
        view: None,
        payload_commitment: None,
        next_epoch_payload_commitment: None,
        leaf: None,
        parent_view: None,
        vid_share: None,
    };
    let n = events.len();
    let mut i: usize = 0;
    while i < n
        invariant
            i <= n,
            n == events@.len(),
            spec_collect_vote_inputs(events@.take(i as int)) == Ok::<VoteInputs, VoteError>(acc),
        decreases n - i,
    {
        proof {
            assert(events@.take(i + 1).drop_last() =~= events@.take(i as int));
            assert(events@.take(i + 1).last() == events@[i as int]);
        }
        let e = &events[i];
        match e {
            HotShotEvent::QuorumProposalValidated { proposal, parent } => {
                let comm = proposal.block_header.payload_commitment;
                let view_mismatch = match acc.view {
                    Some(v) => v != proposal.view_number,
                    None => false,
                };
                if view_mismatch {
                    proof {
                        lemma_vote_fold_error_persists(events@, i + 1);
                    }
                    return Err(VoteError::InconsistentView);
                }
                let mismatch = match acc.payload_commitment {
                    Some(c) => c != comm,
                    None => false,
                };
                if mismatch {
                    proof {
                        lemma_vote_fold_error_persists(events@, i + 1);
                    }
                    return Err(VoteError::InconsistentPayloadCommitment);
                }
                let leaf = Leaf::from_proposal(proposal);
                if leaf.parent_commitment != parent.commit() {
                    proof {
                        lemma_vote_fold_error_persists(events@, i + 1);
                    }
                    return Err(VoteError::ParentCommitMismatch);
                }
                acc = VoteInputs {
                    view: Some(proposal.view_number),
                    payload_commitment: Some(comm),
                    leaf: Some(leaf),
                    parent_view: Some(parent.view),
                    ..acc
                };
            },
            HotShotEvent::DaCertificateValidated { cert } => {
                let view_mismatch = match acc.view {
                    Some(v) => v != cert.view,
                    None => false,
                };
                if view_mismatch {
                    proof {
                        lemma_vote_fold_error_persists(events@, i + 1);
                    }
                    return Err(VoteError::InconsistentView);
                }
                let mismatch = match acc.payload_commitment {
                    Some(c) => c != cert.payload_commit,
                    None => false,
                };
                if mismatch {
                    proof {
                        lemma_vote_fold_error_persists(events@, i + 1);
                    }
                    return Err(VoteError::InconsistentPayloadCommitment);
                }
                let next_mismatch = acc.next_epoch_payload_commitment.is_some()
                    && acc.next_epoch_payload_commitment != cert.next_epoch_payload_commit;
                if next_mismatch {
                    proof {
                        lemma_vote_fold_error_persists(events@, i + 1);
                    }
                    return Err(VoteError::InconsistentNextEpochPayloadCommitment);
                }
                acc = VoteInputs {
                    view: Some(cert.view),
                    payload_commitment: Some(cert.payload_commit),
                    next_epoch_payload_commitment: cert.next_epoch_payload_commit,
                    ..acc
                };
            },
            HotShotEvent::VidShareValidated { share } => {
                let view_mismatch = match acc.view {
                    Some(v) => v != share.view,
                    None => false,
                };
                if view_mismatch {
                    proof {
                        lemma_vote_fold_error_persists(events@, i + 1);
                    }
                    return Err(VoteError::InconsistentView);
                }
                if share.epoch != share.target_epoch {
                    let mismatch = match acc.next_epoch_payload_commitment {
                        Some(c) => c != share.payload_commitment,
                        None => false,
                    };
                    if mismatch {
                        proof {
                            lemma_vote_fold_error_persists(events@, i + 1);
                        }
                        return Err(VoteError::InconsistentNextEpochPayloadCommitment);
                    }
                    acc = VoteInputs {
                        view: Some(share.view),
                        next_epoch_payload_commitment: Some(share.payload_commitment),
                        vid_share: Some(*share),
                        ..acc
                    };
                } else {
                    let mismatch = match acc.payload_commitment {
                        Some(c) => c != share.payload_commitment,
                        None => false,
                    };
                    if mismatch {
                        proof {
                            lemma_vote_fold_error_persists(events@, i + 1);
                        }
                        return Err(VoteError::InconsistentPayloadCommitment);
                    }
                    acc = VoteInputs {
                        view: Some(share.view),
                        payload_commitment: Some(share.payload_commitment),
                        vid_share: Some(*share),
                        ..acc
                    };
                }
            },
            _ => {},
        }
        i = i + 1;
    }
    proof {
        assert(events@.take(n as int) =~= events@);
    }
    if acc.vid_share.is_none() {
        return Err(VoteError::MissingVidShare);
    }
    if acc.leaf.is_none() {
        return Err(VoteError::MissingProposal);
    }
    proof {
        lemma_vote_fold_views(events@);
    }
    Ok(acc)
}

/// The DRB rule for voting on a proposal: away from an epoch's last
/// block nothing is required; at a last block the proposal must carry
/// the DRB result for the next epoch, and a committee member's locally
/// computed result must equal it.
pub open spec fn spec_verify_drb_outcome(
    proposal: QuorumProposal,
    snap: ConsensusSnapshot,
    epochs_enabled: bool,
    has_stake: bool,
) -> Option<VoteError> {
    let bn = proposal.block_header.block_number;
    let eh = snap.epoch_height;
    if eh == 0 || !spec_is_last_block(bn, eh) {
        None
    } else if proposal.next_drb_result is None {
        Some(VoteError::MissingDrbResult)
    } else if !epochs_enabled {
        Some(VoteError::EpochsUnavailable)
    } else if has_stake {
        let next_epoch = (crate::epoch::spec_epoch_of(bn, eh) + 1) as u64;
        if !snap.drb_results.contains_key(next_epoch) {
            Some(VoteError::NoComputedDrbResult)
        } else if proposal.next_drb_result != Some(snap.drb_results[next_epoch]) {
            Some(VoteError::DrbMismatch)
        } else {
            None
        }
    } else {
        None
    }
}

/// Verify the DRB result a proposal carries, as
/// [`spec_verify_drb_outcome`] states it. In particular, when this
/// committee member votes on a last-block proposal, the attached result
/// equals its locally computed DRB result for the next epoch.
pub fn verify_drb_result(
    consensus: &ConsensusState,
    proposal: &QuorumProposal,
    epochs_enabled: bool,
    has_stake: bool,
) -> (r: Result<(), VoteError>)
    requires
        proposal.block_header.block_number < u64::MAX,
    ensures
        match r {
            Ok(()) => spec_verify_drb_outcome(*proposal, consensus@, epochs_enabled, has_stake)
                is None,
            Err(e) => spec_verify_drb_outcome(*proposal, consensus@, epochs_enabled, has_stake)
                == Some(e),
        },
{
    let bn = proposal.block_header.block_number;
    let eh = consensus.epoch_height();
    if eh == 0 || !is_last_block(bn, eh) {
        return Ok(());
    }
    if proposal.next_drb_result.is_none() {
        return Err(VoteError::MissingDrbResult);
    }
    if !epochs_enabled {
        return Err(VoteError::EpochsUnavailable);
    }
    if has_stake {
        let next_epoch = crate::epoch::epoch_of(bn, eh) + 1;
        proof {
            vstd::arithmetic::div_mod::lemma_div_is_ordered_by_denominator(
                (bn - 1) as int,
                1,
                eh as int,
            );
            vstd::arithmetic::div_mod::lemma_div_basics((bn - 1) as int);
        }
        match consensus.drb_result(next_epoch) {
            None => {
                return Err(VoteError::NoComputedDrbResult);
            },
            Some(computed) => {
                let matches_result = match proposal.next_drb_result {
                    Some(attached) => attached == computed,
                    None => false,
                };
                if !matches_result {
                    return Err(VoteError::DrbMismatch);
                }
            },
        }
    }
    Ok(())
}

/// How the shared state is updated with a newly validated leaf before
/// voting. The parent must be saved with its validated state; at an
/// epoch boundary where the same block is re-proposed the parent's
/// state is reused instead of re-applying the header.
pub open spec fn spec_update_shared_state_outcome(
    snap: ConsensusSnapshot,
    leaf: Leaf,
    apply_header_ok: bool,
) -> Option<VoteError> {
    let parent = snap.saved_leaves[leaf.justify_qc.leaf_commit];
    if !snap.saved_leaves.contains_key(leaf.justify_qc.leaf_commit) {
        Some(VoteError::ParentMissing)
    } else if !snap.validated_views.contains_key(parent.view) {
        Some(VoteError::ParentStateMissing)
    } else {
        let boundary_reproposal = spec_is_last_block(leaf.height, snap.epoch_height) && leaf.height
            == parent.height && snap.validated_views[parent.view].has_delta;
        if !boundary_reproposal && !apply_header_ok {
            Some(VoteError::HeaderInvalid)
        } else {
            None
        }
    }
}

/// Update the shared state with the voting leaf.
///
/// On success the leaf is stored under its commitment together with a
/// validated state for its view: the parent's own state in the
/// boundary re-proposal corner, the freshly applied header's otherwise.
/// On failure nothing changes.
pub fn update_shared_state(
    consensus: &mut ConsensusState,
    leaf: &Leaf,
    apply_header_ok: bool,
) -> (r: Result<(), VoteError>)
    ensures
        ({
            let outcome = spec_update_shared_state_outcome(old(consensus)@, *leaf, apply_header_ok);
            &&& (r is Ok <==> outcome is None)
            &&& (match r {
                Ok(()) => true,
                Err(e) => outcome == Some(e),
            })
            &&& (r is Err ==> final(consensus)@ == old(consensus)@)
            &&& (r is Ok ==> {
                let parent = old(consensus)@.saved_leaves[leaf.justify_qc.leaf_commit];
                let boundary_reproposal = spec_is_last_block(
                    leaf.height,
                    old(consensus)@.epoch_height,
                ) && leaf.height == parent.height && old(consensus)@.validated_views[
                    parent.view
                ].has_delta;
                let stored = crate::consensus::ValidatedView {
                    state_commitment: (if boundary_reproposal {
                        old(consensus)@.validated_views[parent.view].state_commitment
                    } else {
                        crate::data::spec_state_commitment(leaf.block_header)
                    }),
                    has_delta: true,
                };
                final(consensus)@ == (ConsensusSnapshot {
                    saved_leaves: old(consensus)@.saved_leaves.insert(leaf.spec_commit(), *leaf),
                    validated_views: old(consensus)@.validated_views.insert(leaf.view, stored),
                    ..old(consensus)@
                })
            })
        }),
{
    let parent = match consensus.saved_leaf(leaf.justify_qc.leaf_commit) {
        Some(p) => p,
        None => {
            return Err(VoteError::ParentMissing);
        },
    };
    let parent_state = match consensus.state_and_delta(parent.view) {
        Some(s) => s,
        None => {
            return Err(VoteError::ParentStateMissing);
        },
    };
    let boundary_reproposal = is_last_block(leaf.height, consensus.epoch_height()) && leaf.height
        == parent.height && parent_state.has_delta;
    if boundary_reproposal {
        consensus.update_leaf(*leaf, parent_state.state_commitment, true);
        Ok(())
    } else if !apply_header_ok {
        Err(VoteError::HeaderInvalid)
    } else {
        let state_commitment = state_commitment_from_header(&leaf.block_header);
        consensus.update_leaf(*leaf, state_commitment, true);
        Ok(())
    }
}

/// Whether — and with what values — a view change goes out before the
/// vote: always to the leaf's successor view with the leaf's epoch,
/// except under epoch rules at an epoch's last block, where the view
/// change is deferred to the extended-certificate formation.
pub fn pre_vote_view_change(leaf: &Leaf, epochs_enabled: bool, epoch_height: u64) -> (r: Option<
    (u64, Option<u64>),
>)
    requires
        leaf.view < u64::MAX,
    ensures
        ({
            let current_epoch = if epochs_enabled {
                Some(crate::epoch::spec_epoch_of(leaf.height, epoch_height))
            } else {
                None::<u64>
            };
            if current_epoch is None || !spec_is_last_block(leaf.height, epoch_height) {
                r == Some(((leaf.view + 1) as u64, current_epoch))
            } else {
                r is None
            }
        }),
{
    let current_epoch = crate::epoch::option_epoch_of(epochs_enabled, leaf.height, epoch_height);
    if current_epoch.is_none() || !is_last_block(leaf.height, epoch_height) {
        Some((leaf.view + 1, current_epoch))
    } else {
        None
    }
}

/// The vote-eligibility rule: stake in the current epoch, or — at an
/// epoch's last block under epoch rules — stake in the next epoch, for
/// the double quorum.
pub open spec fn spec_vote_eligible(
    leaf: Leaf,
    eh: u64,
    has_stake_current: bool,
    has_stake_next: bool,
) -> bool {
    has_stake_current || (leaf.with_epoch && spec_is_last_block(leaf.height, eh)
        && has_stake_next)
}

/// A vote, and whether it must be broadcast as an extended vote.
#[derive(Clone, Copy, Debug, PartialEq, Eq)]
pub struct VoteAction {
    /// The signed vote.
    pub vote: QuorumVote,
    /// Broadcast as `ExtendedQuorumVoteSend` instead of sending to the
    /// next leader.
    pub extended: bool,
}

/// Issue the vote for a validated leaf.
///
/// A vote is issued exactly when this node may vote at all: it has
/// stake in the current epoch, or the leaf is its epoch's last block
/// and the node has stake in the next — the double-quorum rule. The
/// vote commits to the leaf, carries the epoch and, under epoch rules,
/// the block number, and is extended exactly at a last block.
pub fn submit_vote(
    leaf: &Leaf,
    view_number: u64,
    membership_epoch: Option<u64>,
    epoch_height: u64,
    has_stake_current: bool,
    has_stake_next: bool,
    public_key: u64,
    signing_key: u64,
) -> (r: Result<VoteAction, VoteError>)
    ensures
        r is Ok <==> spec_vote_eligible(*leaf, epoch_height, has_stake_current, has_stake_next),
        !spec_vote_eligible(*leaf, epoch_height, has_stake_current, has_stake_next) ==> r
            == Err::<VoteAction, VoteError>(VoteError::NotCommitteeMember),
        (match r {
            Ok(action) => {
                &&& action.vote.leaf_commit == leaf.spec_commit()
                &&& action.vote.view == view_number
                &&& action.vote.epoch == membership_epoch
                &&& action.vote.block_number == (if membership_epoch is Some {
                    Some(leaf.height)
                } else {
                    None::<u64>
                })
                &&& action.vote.signer == public_key
                &&& action.vote.signature == spec_sign(signing_key, leaf.spec_commit())
                &&& action.extended == spec_is_last_block(leaf.height, epoch_height)
            },
            Err(_) => true,
        }),
{
    let in_current = has_stake_current;
    let in_next = leaf.with_epoch && is_last_block(leaf.height, epoch_height) && has_stake_next;
    if !in_current && !in_next {
        return Err(VoteError::NotCommitteeMember);
    }
    let block_number: Option<u64> = if membership_epoch.is_some() {
        Some(leaf.height)
    } else {
        None
    };
    let leaf_commit = leaf.commit();
    let vote = QuorumVote {
        leaf_commit,
        view: view_number,
        epoch: membership_epoch,
        block_number,
        signer: public_key,
        signature: sign(signing_key, leaf_commit),
    };
    Ok(VoteAction { vote, extended: is_last_block(leaf.height, epoch_height) })
}

} // verus!
