//! The receive pipeline, the decide rule and the shared state.

use espresso_core::consensus::ConsensusState;
use espresso_core::data::{
    BlockHeader, Leaf, QuorumCertificate, QuorumProposal, SignedProposal, StateCert,
    UpgradeCertificate, EMPTY_BUILDER_COMMITMENT, EMPTY_METADATA,
};
use espresso_core::vote_task::VoteTaskState;
use espresso_core::decide::decide_from_proposal;
use espresso_core::recv::{handle_proposal_recv, RecvContext, RecvError, RecvVerdicts};

fn all_valid() -> RecvVerdicts {
    RecvVerdicts {
        justify_qc_sig: true,
        next_epoch_qc_sig: true,
        state_cert_sig: true,
        upgrade_cert_sig: true,
        view_evidence_sig: true,
        proposer_sig: true,
        apply_header: true,
    }
}

fn no_epochs() -> RecvContext {
    RecvContext { epochs_enabled: false, upgrade_view: None, decided_upgrade_cert: None }
}

fn epochs_on() -> RecvContext {
    RecvContext { epochs_enabled: true, upgrade_view: None, decided_upgrade_cert: None }
}

fn qc(leaf_commit: u64, view: u64, block_number: Option<u64>) -> QuorumCertificate {
    QuorumCertificate { leaf_commit, view, epoch: None, block_number }
}

fn header(block_number: u64, payload_commitment: u64) -> BlockHeader {
    BlockHeader {
        block_number,
        payload_commitment,
        builder_commitment: EMPTY_BUILDER_COMMITMENT,
        metadata: EMPTY_METADATA,
    }
}

fn proposal(view: u64, block_header: BlockHeader, justify_qc: QuorumCertificate) -> QuorumProposal {
    QuorumProposal {
        view_number: view,
        epoch: None,
        block_header,
        justify_qc,
        next_epoch_justify_qc: None,
        upgrade_certificate: None,
        view_change_evidence: None,
        next_drb_result: None,
        state_cert: None,
    }
}

fn signed(data: QuorumProposal) -> SignedProposal {
    SignedProposal { data, signature: 0, sender: 1 }
}

/// The epoch of a block, as the core computes it.
fn epoch_of(block: u64, epoch_height: u64) -> u64 {
    espresso_core::epoch::epoch_of(block, epoch_height)
}

#[test]
fn recv_accepts_valid_proposal_and_emits_view_change() {
    let mut consensus = ConsensusState::new(0, qc(0, 0, None));
    let parent = Leaf::from_proposal(&proposal(1, header(1, 11), qc(0, 0, None)));
    consensus.update_leaf(parent, 1, true);
    let parent_commit = parent.commit();

    let p = proposal(2, header(2, 22), qc(parent_commit, 1, None));
    let (result, effects) = handle_proposal_recv(&mut consensus, &signed(p), all_valid(), no_epochs());
    assert_eq!(result, Ok(()));
    assert!(effects.preliminarily_validated);
    assert!(!effects.fetch_parent);
    assert!(effects.validated_leaf.is_some());
    assert_eq!(effects.view_change, Some((2, None)));
    assert_eq!(consensus.high_qc().view, 1);
}

#[test]
fn recv_rejects_nonempty_transition_block() {
    // Epoch height 10: the epoch root is block 7, the transition window
    // holds blocks 8, 9 and 10, and only the last may carry a payload.
    let mut consensus = ConsensusState::new(10, qc(0, 0, Some(8)));
    let mut h = header(9, 33);
    h.builder_commitment = 5;
    let mut p = proposal(9, h, qc(0, 8, Some(8)));
    p.epoch = Some(epoch_of(9, 10));
    let (result, effects) = handle_proposal_recv(&mut consensus, &signed(p), all_valid(), epochs_on());
    assert_eq!(result, Err(RecvError::NonEmptyTransitionBlock));
    assert!(!effects.preliminarily_validated);
}

#[test]
fn recv_requires_state_cert_at_epoch_root() {
    // The justify QC covers block 7, the epoch root: a corresponding,
    // verified state certificate must ride along.
    let mut consensus = ConsensusState::new(10, qc(0, 0, Some(7)));
    let mut p = proposal(8, header(8, 44), qc(0, 7, Some(7)));
    p.epoch = Some(epoch_of(8, 10));
    let (result, _) = handle_proposal_recv(&mut consensus, &signed(p), all_valid(), epochs_on());
    assert_eq!(result, Err(RecvError::MissingStateCert));

    // With the certificate attached, validation proceeds past the root
    // check; the parent is missing, so the liveness path accepts.
    let mut p2 = proposal(8, header(8, 44), qc(0, 7, Some(7)));
    p2.epoch = Some(epoch_of(8, 10));
    p2.state_cert = Some(StateCert {
        epoch: epoch_of(7, 10),
        block_height: 7,
        next_stake_table_commitment: 99,
    });
    let (result2, effects2) =
        handle_proposal_recv(&mut consensus, &signed(p2), all_valid(), epochs_on());
    assert_eq!(result2, Ok(()));
    assert!(effects2.fetch_parent);
}

#[test]
fn recv_liveness_path_advances_lock_and_never_backwards() {
    let mut consensus = ConsensusState::new(10, qc(0, 0, Some(1)));
    // Parent missing; the justify QC is ahead of the lock, so the
    // liveness path accepts and advances the lock.
    let mut p = proposal(6, header(2, 1), qc(123, 5, Some(1)));
    p.epoch = Some(epoch_of(2, 10));
    let (result, effects) = handle_proposal_recv(&mut consensus, &signed(p), all_valid(), epochs_on());
    assert_eq!(result, Ok(()));
    assert!(effects.fetch_parent);
    assert_eq!(consensus.locked_view(), 5);

    // A proposal whose justify QC falls behind the lock is refused and
    // the lock stays where it was.
    let mut p2 = proposal(4, header(2, 1), qc(456, 3, Some(1)));
    p2.epoch = Some(epoch_of(2, 10));
    let (result2, _) = handle_proposal_recv(&mut consensus, &signed(p2), all_valid(), epochs_on());
    assert_eq!(result2, Err(RecvError::LivenessCheckFailed));
    assert_eq!(consensus.locked_view(), 5);
}

#[test]
fn recv_rejects_bad_justify_signature() {
    let mut consensus = ConsensusState::new(0, qc(0, 0, None));
    let p = proposal(2, header(2, 22), qc(7, 1, None));
    let mut verdicts = all_valid();
    verdicts.justify_qc_sig = false;
    let (result, _) = handle_proposal_recv(&mut consensus, &signed(p), verdicts, no_epochs());
    assert_eq!(
        result,
        Err(RecvError::JustifyQc(
            espresso_core::validation::QcValidationError::InvalidSignature
        ))
    );
}

#[test]
fn decide_fires_on_two_consecutive_certificates() {
    let mut consensus = ConsensusState::new(0, qc(0, 0, None));

    let leaf_a = Leaf::from_proposal(&proposal(1, header(1, 1), qc(0, 0, None)));
    consensus.update_leaf(leaf_a, 0, true);
    let commit_a = leaf_a.commit();

    let leaf_b = Leaf::from_proposal(&proposal(2, header(2, 2), qc(commit_a, 1, None)));
    consensus.update_leaf(leaf_b, 0, true);
    let commit_b = leaf_b.commit();

    let leaf_c = Leaf::from_proposal(&proposal(3, header(3, 3), qc(commit_b, 2, None)));
    consensus.update_leaf(leaf_c, 0, true);
    let commit_c = leaf_c.commit();

    // The proposal justifies C; C is justified by a certificate for the
    // view right before its own, so C's parent B is decided, and B's
    // ancestry comes with it.
    let p = proposal(4, header(4, 4), qc(commit_c, 3, None));
    let outcome = decide_from_proposal(&consensus, &p);
    assert_eq!(outcome.new_locked_view, Some(3));
    assert_eq!(outcome.new_decided_view, Some(2));
    assert_eq!(outcome.leaf_chain.len(), 2);
    assert_eq!(outcome.leaf_chain[0], leaf_b);
    assert_eq!(outcome.leaf_chain[1], leaf_a);
    // The chain is linked by parent commitments.
    assert_eq!(outcome.leaf_chain[1].commit(), outcome.leaf_chain[0].parent_commitment);
}

#[test]
fn decide_does_not_fire_without_consecutive_views() {
    let mut consensus = ConsensusState::new(0, qc(0, 0, None));
    let leaf_a = Leaf::from_proposal(&proposal(1, header(1, 1), qc(0, 0, None)));
    consensus.update_leaf(leaf_a, 0, true);
    let commit_a = leaf_a.commit();
    // C skips a view above A: no two-chain, no decide.
    let leaf_c = Leaf::from_proposal(&proposal(3, header(2, 2), qc(commit_a, 1, None)));
    consensus.update_leaf(leaf_c, 0, true);
    let commit_c = leaf_c.commit();

    let p = proposal(4, header(3, 3), qc(commit_c, 3, None));
    let outcome = decide_from_proposal(&consensus, &p);
    assert_eq!(outcome.new_decided_view, None);
    assert!(outcome.leaf_chain.is_empty());
    assert_eq!(outcome.new_locked_view, Some(3));
}

#[test]
fn state_updates_are_monotone() {
    let mut consensus = ConsensusState::new(0, qc(0, 0, None));
    assert!(consensus.update_locked_view(5).is_ok());
    assert!(consensus.update_locked_view(5).is_err());
    assert!(consensus.update_locked_view(3).is_err());
    assert_eq!(consensus.locked_view(), 5);

    assert!(consensus.update_high_qc(qc(1, 4, None)).is_ok());
    assert!(consensus.update_high_qc(qc(2, 4, None)).is_err());
    assert_eq!(consensus.high_qc().view, 4);

    assert!(consensus.update_last_decided_view(2).is_ok());
    assert!(consensus.update_last_decided_view(1).is_err());
    assert_eq!(consensus.last_decided_view(), 2);
}

#[test]
fn recv_structural_checks_fire_in_order() {
    // Wrong epoch field under epoch rules.
    let mut consensus = ConsensusState::new(10, qc(0, 0, Some(1)));
    let p = proposal(3, header(2, 1), qc(0, 2, Some(1)));
    let (r, _) = handle_proposal_recv(&mut consensus, &signed(p), all_valid(), epochs_on());
    assert_eq!(r, Err(RecvError::EpochMismatch));

    // Block height must be one above the justify QC's.
    let mut consensus2 = ConsensusState::new(0, qc(0, 0, None));
    let p2 = proposal(3, header(5, 1), qc(0, 2, Some(2)));
    let (r2, _) = handle_proposal_recv(&mut consensus2, &signed(p2), all_valid(), no_epochs());
    assert_eq!(r2, Err(RecvError::InconsistentBlockHeight));

    // A view jump needs view-change evidence.
    let mut consensus3 = ConsensusState::new(0, qc(0, 0, None));
    let p3 = proposal(5, header(3, 1), qc(0, 2, Some(2)));
    let (r3, _) = handle_proposal_recv(&mut consensus3, &signed(p3), all_valid(), no_epochs());
    assert_eq!(r3, Err(RecvError::InvalidViewChangeEvidence));

    // With a timeout certificate for the preceding view, the jump is
    // fine.
    let mut consensus4 = ConsensusState::new(0, qc(0, 0, None));
    let mut p4 = proposal(5, header(3, 1), qc(0, 2, Some(2)));
    p4.view_change_evidence = Some(espresso_core::data::ViewChangeEvidence::Timeout(
        espresso_core::data::TimeoutCertificate { view: 4, epoch: None },
    ));
    let (r4, e4) = handle_proposal_recv(&mut consensus4, &signed(p4), all_valid(), no_epochs());
    // The evidence is accepted; the parent is unknown, so the liveness
    // path takes over and a fetch goes out.
    assert_eq!(r4, Ok(()));
    assert!(e4.fetch_parent);
}

#[test]
fn leaf_commitments_are_content_addressed() {
    let a = Leaf::from_proposal(&proposal(1, header(1, 10), qc(0, 0, None)));
    let b = Leaf::from_proposal(&proposal(1, header(1, 11), qc(0, 0, None)));
    let a_again = Leaf::from_proposal(&proposal(1, header(1, 10), qc(0, 0, None)));
    assert_eq!(a.commit(), a_again.commit());
    assert_ne!(a.commit(), b.commit());
}

#[test]
fn validated_proposal_decides_records_drb_and_stages_upgrades() {
    // Epoch height 2: block 2 closes epoch 0, block 4 closes epoch 1.
    let mut consensus = ConsensusState::new(2, qc(0, 0, None));
    let mut task = VoteTaskState::new(3);
    let mut decided_cert: Option<UpgradeCertificate> = None;
    let epoch_cert = UpgradeCertificate { view: 1, decide_by: 50, new_version: 4 };

    let leaf_a = Leaf::from_proposal(&proposal(1, header(1, 1), qc(0, 0, None)));
    consensus.update_leaf(leaf_a, 0, true);
    let commit_a = leaf_a.commit();

    // B sits on its epoch's last block, carries the next epoch's DRB
    // result, and carries the certificate that enables epochs.
    let mut pb = proposal(2, header(2, 2), qc(commit_a, 1, None));
    pb.next_drb_result = Some(55);
    pb.upgrade_certificate = Some(epoch_cert);
    let leaf_b = Leaf::from_proposal(&pb);
    consensus.update_leaf(leaf_b, 0, true);
    let commit_b = leaf_b.commit();

    let leaf_c = Leaf::from_proposal(&proposal(3, header(3, 3), qc(commit_b, 2, None)));
    consensus.update_leaf(leaf_c, 0, true);
    let commit_c = leaf_c.commit();

    // The two-chain through C decides B and its ancestry.
    let p = proposal(4, header(4, 4), qc(commit_c, 3, None));
    let actions = task
        .handle_quorum_proposal_validated(&mut consensus, &mut decided_cert, &p, 3, false, true)
        .unwrap();
    assert_eq!(actions.decide_view, Some(2));
    assert_eq!(actions.leaf_chain.len(), 2);
    assert_eq!(consensus.last_decided_view(), 2);
    assert_eq!(consensus.locked_view(), 3);
    // The decided last block's DRB result is recorded for epoch 1.
    assert_eq!(consensus.drb_result(1), Some(55));
    // The epoch-enabling certificate is staged, not yet decided, and
    // the membership is told its first epoch: the upgrade height 3
    // falls in epoch 1.
    assert_eq!(decided_cert, None);
    assert_eq!(actions.store_decided_upgrade_cert, None);
    assert_eq!(actions.set_first_epoch, Some(1));

    // The next decide reaches block height 3, the upgrade height, and
    // installs the staged certificate.
    let leaf_d = Leaf::from_proposal(&proposal(4, header(4, 4), qc(commit_c, 3, None)));
    consensus.update_leaf(leaf_d, 0, true);
    let commit_d = leaf_d.commit();
    let p2 = proposal(5, header(5, 5), qc(commit_d, 4, None));
    let actions2 = task
        .handle_quorum_proposal_validated(&mut consensus, &mut decided_cert, &p2, 3, false, true)
        .unwrap();
    assert_eq!(actions2.decide_view, Some(3));
    assert_eq!(actions2.leaf_chain[0].height, 3);
    assert_eq!(decided_cert, Some(epoch_cert));
    assert_eq!(actions2.store_decided_upgrade_cert, Some(epoch_cert));
    assert_eq!(actions2.set_first_epoch, None);
}
