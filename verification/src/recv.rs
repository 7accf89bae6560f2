//! The proposal-receive pipeline.
//!
//! On an inbound proposal the replica runs a fixed sequence of checks,
//! bailing on the first failure: structural epoch checks, view-change
//! evidence, block-height monotonicity, the epoch-root state certificate,
//! transition-block emptiness, and the justify-QC pair. A proposal that
//! passes them is preliminarily validated; the pipeline then resolves the
//! parent leaf and either completes validation against it or falls back
//! to the liveness path, advancing the lock so the replica can follow the
//! network while the parent is fetched.
//!
//! [`handle_proposal_recv`]'s contract gives the exact outcome — which
//! error on which input, and how the shared state changes — for every
//! input; [`spec_recv_outcome`] is that rule book.

use vstd::prelude::*;

use crate::consensus::{ConsensusSnapshot, ConsensusState, ValidatedView};
use crate::data::{
    spec_state_commitment, state_commitment_from_header, upgrade_cert_eq, Leaf, QuorumProposal,
    SignedProposal, UpgradeCertificate,
};
use crate::epoch::{
    epoch_of, is_epoch_root, is_epoch_transition, is_last_block, spec_epoch_of,
    spec_is_epoch_root, spec_is_epoch_transition, spec_is_last_block,
};
use crate::validation::{
    check_qc_state_cert_correspondence, spec_qc_state_cert_correspond, spec_validate_qc_pair,
    validate_qc_pair, QcValidationError,
};

verus! {

/// The crypto and application layers' verdicts on one inbound proposal.
/// Each field reports whether a signature verified under the proper stake
/// table, or whether the application accepted the header; the pipeline
/// decides everything else.
#[derive(Clone, Copy, Debug, PartialEq, Eq)]
pub struct RecvVerdicts {
    /// The justify-QC's aggregate signature verifies under its epoch's
    /// stake table.
    pub justify_qc_sig: bool,
    /// The next-epoch justify-QC's signature verifies under the next
    /// epoch's stake table.
    pub next_epoch_qc_sig: bool,
    /// The state certificate's Schnorr aggregate verifies under the
    /// epoch's validators.
    pub state_cert_sig: bool,
    /// The attached upgrade certificate meets its upgrade threshold.
    pub upgrade_cert_sig: bool,
    /// The attached view-change evidence meets its threshold.
    pub view_evidence_sig: bool,
    /// The proposer's signature over the leaf commitment verifies.
    pub proposer_sig: bool,
    /// The header validly extends the parent state
    /// (`validate_and_apply_header` succeeded).
    pub apply_header: bool,
}

/// Facts about the proposal's view that the receive pipeline needs from
/// the upgrade lock and membership.
#[derive(Clone, Copy, Debug, PartialEq, Eq)]
pub struct RecvContext {
    /// Whether epochs are enabled at the proposal's view.
    pub epochs_enabled: bool,
    /// The view at which the epoch upgrade took effect, if it has.
    pub upgrade_view: Option<u64>,
    /// The decided upgrade certificate, if any; an attached certificate
    /// equal to it is still relevant past its decide-by view.
    pub decided_upgrade_cert: Option<UpgradeCertificate>,
}

/// Why an inbound proposal was refused. Each variant names the first
/// check that failed; no vote is issued for the view in that case.
#[derive(Clone, Copy, Debug, PartialEq, Eq)]
pub enum RecvError {
    /// The proposal's epoch field does not match its block number.
    EpochMismatch,
    /// Epoch rules apply but the high QC carries no block number.
    HighQcWithoutBlockNumber,
    /// The proposal's epoch lies behind the epoch of the high QC's
    /// successor block: the replica would be jumped backwards.
    InconsistentEpoch,
    /// The justify QC is not for the preceding view and no valid
    /// view-change evidence makes up for it.
    InvalidViewChangeEvidence,
    /// The attached upgrade certificate does not meet its threshold.
    InvalidUpgradeCertificate,
    /// The block number is not one more than the justify QC's.
    InconsistentBlockHeight,
    /// The justify QC covers an epoch root but no state certificate came
    /// along.
    MissingStateCert,
    /// The state certificate does not correspond to the justify QC.
    StateCertMismatch,
    /// The state certificate's signature does not verify.
    InvalidStateCert,
    /// A transition block other than the epoch's last block carries a
    /// non-empty payload.
    NonEmptyTransitionBlock,
    /// The justify QC, or its required next-epoch twin, was refused.
    JustifyQc(QcValidationError),
    /// The parent leaf is saved but its validated state is missing: the
    /// consensus state is internally inconsistent.
    ParentStateMissing,
    /// The parent is missing and the justify QC neither advances the lock
    /// nor sits in a valid epoch transition.
    LivenessCheckFailed,
    /// The saved parent's commitment differs from the proposal's parent
    /// link.
    ParentCommitMismatch,
    /// The justify QC falls behind the locked view.
    SafetyCheckFailed,
    /// The attached upgrade certificate can no longer be decided in time
    /// and is not the decided one.
    UpgradeCertificateExpired,
    /// The proposer's signature over the leaf commitment does not verify.
    InvalidProposerSignature,
    /// The header does not extend the parent's validated state.
    HeaderInvalid,
}

/// What the pipeline asks the surrounding task to do.
#[derive(Clone, Copy, Debug, PartialEq, Eq)]
pub struct RecvEffects {
    /// Publish `QuorumProposalPreliminarilyValidated`.
    pub preliminarily_validated: bool,
    /// Spawn a fetch for the missing parent leaf.
    pub fetch_parent: bool,
    /// Publish `QuorumProposalValidated` for this leaf.
    pub validated_leaf: Option<Leaf>,
    /// Publish `ViewChange` with this view and epoch.
    pub view_change: Option<(u64, Option<u64>)>,
}

/// Whether the proposal's epoch field is the one its block number gives:
/// present and correct under epoch rules, absent before them.
pub open spec fn spec_epoch_field_ok(p: QuorumProposal, ctx: RecvContext, eh: u64) -> bool {
    if ctx.epochs_enabled {
        p.epoch == Some(spec_epoch_of(p.block_header.block_number, eh))
    } else {
        p.epoch is None
    }
}

/// Whether the current-epoch check applies: epochs are enabled and the
/// justify QC is from after the upgrade view.
pub open spec fn spec_current_epoch_check_applies(p: QuorumProposal, ctx: RecvContext) -> bool {
    ctx.epochs_enabled && p.justify_qc.view > (match ctx.upgrade_view {
        Some(v) => v,
        None => 0,
    })
}

/// Whether the justify QC is for the view right before the proposal's, so
/// that no view-change evidence is needed.
pub open spec fn spec_justify_is_previous_view(p: QuorumProposal) -> bool {
    p.justify_qc.view + 1 == p.view_number
}

/// Whether the proposal's view change is justified: either the justify QC
/// is from the preceding view, or valid evidence for this view is
/// attached.
pub open spec fn spec_view_evidence_ok(p: QuorumProposal, v: RecvVerdicts) -> bool {
    spec_justify_is_previous_view(p) || match p.view_change_evidence {
        Some(ev) => ev.spec_is_valid_for_view(p.view_number) && v.view_evidence_sig,
        None => false,
    }
}

/// Whether the block height is one more than the justify QC's, where the
/// justify QC carries one.
pub open spec fn spec_block_height_ok(p: QuorumProposal) -> bool {
    match p.justify_qc.block_number {
        Some(q) => q + 1 == p.block_header.block_number,
        None => true,
    }
}

/// Whether the justify QC certifies an epoch-root block.
pub open spec fn spec_justify_at_epoch_root(p: QuorumProposal, eh: u64) -> bool {
    match p.justify_qc.block_number {
        Some(q) => spec_is_epoch_root(q, eh),
        None => false,
    }
}

/// Whether the proposed block violates transition emptiness: a block in
/// the transition window, other than the epoch's last, must commit to the
/// empty payload.
pub open spec fn spec_nonempty_transition_block(
    p: QuorumProposal,
    ctx: RecvContext,
    eh: u64,
) -> bool {
    &&& ctx.epochs_enabled
    &&& spec_is_epoch_transition(p.block_header.block_number, eh)
    &&& !spec_is_last_block(p.block_header.block_number, eh)
    &&& !p.block_header.spec_is_empty()
}

/// The structural and cryptographic checks run before a proposal is
/// preliminarily validated, in order; the first failure is returned.
pub open spec fn spec_recv_precheck(
    p: QuorumProposal,
    v: RecvVerdicts,
    ctx: RecvContext,
    snap: ConsensusSnapshot,
) -> Option<RecvError> {
    let eh = snap.epoch_height;
    if !spec_epoch_field_ok(p, ctx, eh) {
        Some(RecvError::EpochMismatch)
    } else if spec_current_epoch_check_applies(p, ctx) && snap.high_qc.block_number is None {
        Some(RecvError::HighQcWithoutBlockNumber)
    } else if spec_current_epoch_check_applies(p, ctx) && spec_epoch_of(
        p.block_header.block_number,
        eh,
    ) < spec_epoch_of((snap.high_qc.block_number->Some_0 + 1) as u64, eh) {
        Some(RecvError::InconsistentEpoch)
    } else if !spec_view_evidence_ok(p, v) {
        Some(RecvError::InvalidViewChangeEvidence)
    } else if p.upgrade_certificate is Some && !v.upgrade_cert_sig {
        Some(RecvError::InvalidUpgradeCertificate)
    } else if !spec_block_height_ok(p) {
        Some(RecvError::InconsistentBlockHeight)
    } else if spec_justify_at_epoch_root(p, eh) && p.state_cert is None {
        Some(RecvError::MissingStateCert)
    } else if spec_justify_at_epoch_root(p, eh) && !spec_qc_state_cert_correspond(
        p.justify_qc,
        p.state_cert->Some_0,
        eh,
    ) {
        Some(RecvError::StateCertMismatch)
    } else if spec_justify_at_epoch_root(p, eh) && !v.state_cert_sig {
        Some(RecvError::InvalidStateCert)
    } else if spec_nonempty_transition_block(p, ctx, eh) {
        Some(RecvError::NonEmptyTransitionBlock)
    } else {
        match spec_validate_qc_pair(
            p.justify_qc,
            p.next_epoch_justify_qc,
            v.justify_qc_sig,
            v.next_epoch_qc_sig,
            ctx.epochs_enabled,
            eh,
        ) {
            Some(e) => Some(RecvError::JustifyQc(e)),
            None => None,
        }
    }
}

/// Whether the parent leaf referenced by the justify QC is saved.
pub open spec fn spec_parent_found(p: QuorumProposal, snap: ConsensusSnapshot) -> bool {
    snap.saved_leaves.contains_key(p.justify_qc.leaf_commit)
}

/// The saved parent leaf.
pub open spec fn spec_parent(p: QuorumProposal, snap: ConsensusSnapshot) -> Leaf {
    snap.saved_leaves[p.justify_qc.leaf_commit]
}

/// Whether the justify QC advances the lock: the two-phase liveness
/// rule.
pub open spec fn spec_liveness_check(p: QuorumProposal, snap: ConsensusSnapshot) -> bool {
    p.justify_qc.view > snap.locked_view
}

/// Whether the justify QC sits in a valid epoch transition, which lets
/// the liveness path accept even without advancing the lock.
pub open spec fn spec_valid_epoch_transition(p: QuorumProposal, ctx: RecvContext, eh: u64) -> bool {
    ctx.epochs_enabled && (match p.justify_qc.block_number {
        Some(q) => spec_is_epoch_transition(q, eh),
        None => false,
    })
}

/// Whether an attached upgrade certificate is still relevant: it can yet
/// be decided in time, or it is the decided one.
pub open spec fn spec_upgrade_cert_relevant(p: QuorumProposal, ctx: RecvContext) -> bool {
    match p.upgrade_certificate {
        Some(c) => c.decide_by >= p.view_number || ctx.decided_upgrade_cert == Some(c),
        None => true,
    }
}

/// The outcome of the whole receive pipeline on one proposal: the first
/// check that fails, or `None` when the proposal is accepted. After the
/// prechecks the pipeline splits on whether the parent leaf is saved:
/// with the parent at hand it validates safety against it; without it,
/// it takes the liveness path.
pub open spec fn spec_recv_outcome(
    p: QuorumProposal,
    v: RecvVerdicts,
    ctx: RecvContext,
    snap: ConsensusSnapshot,
) -> Option<RecvError> {
    let eh = snap.epoch_height;
    match spec_recv_precheck(p, v, ctx, snap) {
        Some(e) => Some(e),
        None => if spec_parent_found(p, snap) {
            if !snap.validated_views.contains_key(spec_parent(p, snap).view) {
                Some(RecvError::ParentStateMissing)
            } else if spec_parent(p, snap).spec_commit() != p.justify_qc.leaf_commit {
                Some(RecvError::ParentCommitMismatch)
            } else if p.justify_qc.view < snap.locked_view {
                Some(RecvError::SafetyCheckFailed)
            } else if !spec_upgrade_cert_relevant(p, ctx) {
                Some(RecvError::UpgradeCertificateExpired)
            } else if !v.proposer_sig {
                Some(RecvError::InvalidProposerSignature)
            } else if !v.apply_header {
                Some(RecvError::HeaderInvalid)
            } else {
                None
            }
        } else {
            if !spec_liveness_check(p, snap) && !spec_valid_epoch_transition(p, ctx, eh) {
                Some(RecvError::LivenessCheckFailed)
            } else {
                None
            }
        },
    }
}

/// The snapshot after the high QC has been offered the justify QC: it is
/// taken when strictly newer, and an epoch-root justify QC brings its
/// state certificate along.
pub open spec fn spec_after_high_qc(snap: ConsensusSnapshot, p: QuorumProposal) -> ConsensusSnapshot {
    if p.justify_qc.view > snap.high_qc.view {
        if spec_justify_at_epoch_root(p, snap.epoch_height) && p.state_cert is Some {
            ConsensusSnapshot { high_qc: p.justify_qc, state_cert: p.state_cert, ..snap }
        } else {
            ConsensusSnapshot { high_qc: p.justify_qc, ..snap }
        }
    } else {
        snap
    }
}

/// The snapshot after the proposed leaf and its view's state have been
/// stored.
pub open spec fn spec_after_leaf(
    snap: ConsensusSnapshot,
    leaf: Leaf,
    has_delta: bool,
) -> ConsensusSnapshot {
    ConsensusSnapshot {
        saved_leaves: snap.saved_leaves.insert(leaf.spec_commit(), leaf),
        validated_views: snap.validated_views.insert(
            leaf.view,
            ValidatedView { state_commitment: spec_state_commitment(leaf.block_header), has_delta },
        ),
        ..snap
    }
}

/// The snapshot after the lock has been offered `view`.
pub open spec fn spec_after_lock(snap: ConsensusSnapshot, view: u64) -> ConsensusSnapshot {
    if view > snap.locked_view {
        ConsensusSnapshot { locked_view: view, ..snap }
    } else {
        snap
    }
}

/// The snapshot after the highest observed block has been offered `bn`.
pub open spec fn spec_after_highest_block(snap: ConsensusSnapshot, bn: u64) -> ConsensusSnapshot {
    ConsensusSnapshot {
        highest_block: (if bn > snap.highest_block {
            bn
        } else {
            snap.highest_block
        }),
        ..snap
    }
}

/// The shared state left behind by the receive pipeline, for every
/// outcome. Prechecks and the parent-state check change nothing. Once
/// the proposal is preliminarily validated the high QC advances; the
/// liveness path also stores the leaf and may advance the lock, even
/// when it then refuses; full validation stores the leaf only on
/// success.
pub open spec fn spec_recv_state_after(
    p: QuorumProposal,
    v: RecvVerdicts,
    ctx: RecvContext,
    snap: ConsensusSnapshot,
) -> ConsensusSnapshot {
    let eh = snap.epoch_height;
    let leaf = Leaf::spec_from_proposal(p);
    let bn = p.block_header.block_number;
    if spec_recv_precheck(p, v, ctx, snap) is Some {
        snap
    } else if spec_parent_found(p, snap) {
        if !snap.validated_views.contains_key(spec_parent(p, snap).view) {
            snap
        } else {
            let s1 = spec_after_high_qc(snap, p);
            if spec_recv_outcome(p, v, ctx, snap) is Some {
                s1
            } else {
                spec_after_highest_block(spec_after_leaf(s1, leaf, true), bn)
            }
        }
    } else {
        let s1 = spec_after_high_qc(snap, p);
        let s2 = spec_after_leaf(s1, leaf, false);
        let s3 = if spec_liveness_check(p, snap) && ctx.epochs_enabled {
            spec_after_lock(s2, p.justify_qc.view)
        } else {
            s2
        };
        if spec_recv_outcome(p, v, ctx, snap) is Some {
            s3
        } else {
            spec_after_highest_block(s3, bn)
        }
    }
}

/// Run the receive pipeline on one inbound proposal.
///
/// The result is exactly [`spec_recv_outcome`]; the state afterwards is
/// exactly [`spec_recv_state_after`]. In particular: an accepted
/// transition block away from the epoch's end is empty; an accepted
/// proposal whose justify QC covers an epoch root carries a
/// corresponding, verified state certificate; and neither the locked
/// view nor the high QC ever moves backwards.
pub fn handle_proposal_recv(
    consensus: &mut ConsensusState,
    proposal: &SignedProposal,
    verdicts: RecvVerdicts,
    ctx: RecvContext,
) -> (r: (Result<(), RecvError>, RecvEffects))
    requires
        proposal.data.block_header.block_number < u64::MAX,
        old(consensus)@.high_qc.block_number matches Some(b) ==> b < u64::MAX,
    ensures
        ({
            let p = proposal.data;
            let snap = old(consensus)@;
            let outcome = spec_recv_outcome(p, verdicts, ctx, snap);
            &&& (r.0 is Ok <==> outcome is None)
            &&& (match r.0 {
                Ok(()) => true,
                Err(e) => outcome == Some(e),
            })
            &&& final(consensus)@ == spec_recv_state_after(p, verdicts, ctx, snap)
            &&& r.1.preliminarily_validated == (spec_recv_precheck(p, verdicts, ctx, snap) is None)
            &&& r.1.fetch_parent == (spec_recv_precheck(p, verdicts, ctx, snap) is None
                && !spec_parent_found(p, snap))
            &&& r.1.validated_leaf == (if r.0 is Ok && spec_parent_found(p, snap) {
                Some(Leaf::spec_from_proposal(p))
            } else {
                None::<Leaf>
            })
            &&& r.1.view_change == (if r.0 is Ok {
                Some(
                    (
                        p.view_number,
                        if p.epoch is Some {
                            Some(spec_epoch_of(p.block_header.block_number, snap.epoch_height))
                        } else {
                            None::<u64>
                        },
                    ),
                )
            } else {
                None::<(u64, Option<u64>)>
            })
            &&& final(consensus)@.locked_view >= old(consensus)@.locked_view
            &&& final(consensus)@.high_qc.view >= old(consensus)@.high_qc.view
            &&& (r.0 is Ok && ctx.epochs_enabled && spec_is_epoch_transition(
                p.block_header.block_number,
                snap.epoch_height,
            ) && !spec_is_last_block(p.block_header.block_number, snap.epoch_height)
                ==> p.block_header.spec_is_empty())
            &&& (r.0 is Ok && spec_justify_at_epoch_root(p, snap.epoch_height) ==> (
            p.state_cert matches Some(c) && spec_qc_state_cert_correspond(
                p.justify_qc,
                c,
                snap.epoch_height,
            ) && verdicts.state_cert_sig))
        }),
{
    let p = &proposal.data;
    let eh = consensus.epoch_height();
    let bn = p.block_header.block_number;
    let no_effects = RecvEffects {
        preliminarily_validated: false,
        fetch_parent: false,
        validated_leaf: None,
        view_change: None,
    };

    // Structural epoch field check.
    let epoch_field_ok = if ctx.epochs_enabled {
        match p.epoch {
            Some(e) => e == epoch_of(bn, eh),
            None => false,
        }
    } else {
        p.epoch.is_none()
    };
    if !epoch_field_ok {
        return (Err(RecvError::EpochMismatch), no_effects);
    }

    // Current-epoch check: the proposal may not jump the replica
    // backwards across epochs.
    let upgrade_view = match ctx.upgrade_view {
        Some(v) => v,
        None => 0,
    };
    if ctx.epochs_enabled && p.justify_qc.view > upgrade_view {
        match consensus.high_qc().block_number {
            None => {
                return (Err(RecvError::HighQcWithoutBlockNumber), no_effects);
            },
            Some(high_bn) => {
                if epoch_of(bn, eh) < epoch_of(high_bn + 1, eh) {
                    return (Err(RecvError::InconsistentEpoch), no_effects);
                }
            },
        }
    }

    // View-change evidence.
    let justify_is_previous = p.view_number > 0 && p.justify_qc.view == p.view_number - 1;
    let evidence_ok = justify_is_previous || match &p.view_change_evidence {
        Some(ev) => ev.is_valid_for_view(p.view_number) && verdicts.view_evidence_sig,
        None => false,
    };
    if !evidence_ok {
        return (Err(RecvError::InvalidViewChangeEvidence), no_effects);
    }

    // Attached upgrade certificate must meet its threshold.
    if p.upgrade_certificate.is_some() && !verdicts.upgrade_cert_sig {
        return (Err(RecvError::InvalidUpgradeCertificate), no_effects);
    }

    // Block-height monotonicity.
    let height_ok = match p.justify_qc.block_number {
        Some(q) => bn > 0 && q == bn - 1,
        None => true,
    };
    if !height_ok {
        return (Err(RecvError::InconsistentBlockHeight), no_effects);
    }

    // Epoch-root state certificate.
    let at_root = match p.justify_qc.block_number {
        Some(q) => is_epoch_root(q, eh),
        None => false,
    };
    if at_root {
        match &p.state_cert {
            None => {
                return (Err(RecvError::MissingStateCert), no_effects);
            },
            Some(cert) => {
                if !check_qc_state_cert_correspondence(&p.justify_qc, cert, eh) {
                    return (Err(RecvError::StateCertMismatch), no_effects);
                }
                if !verdicts.state_cert_sig {
                    return (Err(RecvError::InvalidStateCert), no_effects);
                }
            },
        }
    }

    // Transition blocks away from the epoch's end must be empty.
    if ctx.epochs_enabled && is_epoch_transition(bn, eh) && !is_last_block(bn, eh)
        && !p.block_header.is_empty() {
        return (Err(RecvError::NonEmptyTransitionBlock), no_effects);
    }

    // The justify QC and, in transition, its next-epoch twin.
    if let Err(e) = validate_qc_pair(
        &p.justify_qc,
        &p.next_epoch_justify_qc,
        verdicts.justify_qc_sig,
        verdicts.next_epoch_qc_sig,
        ctx.epochs_enabled,
        eh,
    ) {
        return (Err(RecvError::JustifyQc(e)), no_effects);
    }

    // Preliminarily validated from here on.
    let parent = consensus.saved_leaf(p.justify_qc.leaf_commit);
    let parent_found = parent.is_some();

    if let Some(parent_leaf) = parent {
        if consensus.state_and_delta(parent_leaf.view).is_none() {
            let effects = RecvEffects {
                preliminarily_validated: true,
                fetch_parent: false,
                validated_leaf: None,
                view_change: None,
            };
            return (Err(RecvError::ParentStateMissing), effects);
        }
    }

    // Offer the justify QC to the high QC, with its state certificate at
    // an epoch root.
    if p.justify_qc.view > consensus.high_qc().view {
        let _ = consensus.update_high_qc(p.justify_qc);
        if at_root {
            if let Some(cert) = p.state_cert {
                consensus.update_state_cert(cert);
            }
        }
    }

    let leaf = Leaf::from_proposal(p);
    let view_change_epoch: Option<u64> = if p.epoch.is_some() {
        Some(epoch_of(bn, eh))
    } else {
        None
    };

    match parent {
        None => {
            // Liveness path: store the leaf, advance the lock when the
            // justify QC is ahead of it, and accept only when something
            // did advance or the QC sits in a valid epoch transition.
            let state_commitment = state_commitment_from_header(&p.block_header);
            let liveness_check = p.justify_qc.view > consensus.locked_view();
            consensus.update_leaf(leaf, state_commitment, false);
            if liveness_check && ctx.epochs_enabled {
                let _ = consensus.update_locked_view(p.justify_qc.view);
            }
            let valid_epoch_transition = ctx.epochs_enabled && (match p.justify_qc.block_number {
                Some(q) => is_epoch_transition(q, eh),
                None => false,
            });
            if !liveness_check && !valid_epoch_transition {
                let effects = RecvEffects {
                    preliminarily_validated: true,
                    fetch_parent: true,
                    validated_leaf: None,
                    view_change: None,
                };
                (Err(RecvError::LivenessCheckFailed), effects)
            } else {
                consensus.update_highest_block(bn);
                let effects = RecvEffects {
                    preliminarily_validated: true,
                    fetch_parent: true,
                    validated_leaf: None,
                    view_change: Some((p.view_number, view_change_epoch)),
                };
                (Ok(()), effects)
            }
        },
        Some(parent_leaf) => {
            // Full validation against the resolved parent.
            let prelim_effects = RecvEffects {
                preliminarily_validated: true,
                fetch_parent: false,
                validated_leaf: None,
                view_change: None,
            };
            if parent_leaf.commit() != p.justify_qc.leaf_commit {
                return (Err(RecvError::ParentCommitMismatch), prelim_effects);
            }
            if p.justify_qc.view < consensus.locked_view() {
                return (Err(RecvError::SafetyCheckFailed), prelim_effects);
            }
            let cert_relevant = match &p.upgrade_certificate {
                Some(c) => c.decide_by >= p.view_number || match &ctx.decided_upgrade_cert {
                    Some(d) => upgrade_cert_eq(c, d),
                    None => false,
                },
                None => true,
            };
            if !cert_relevant {
                return (Err(RecvError::UpgradeCertificateExpired), prelim_effects);
            }
            if !verdicts.proposer_sig {
                return (Err(RecvError::InvalidProposerSignature), prelim_effects);
            }
            if !verdicts.apply_header {
                return (Err(RecvError::HeaderInvalid), prelim_effects);
            }
            let state_commitment = state_commitment_from_header(&p.block_header);
            consensus.update_leaf(leaf, state_commitment, true);
            consensus.update_highest_block(bn);
            let effects = RecvEffects {
                preliminarily_validated: true,
                fetch_parent: false,
                validated_leaf: Some(leaf),
                view_change: Some((p.view_number, view_change_epoch)),
            };
            (Ok(()), effects)
        },
    }
}

} // verus!
