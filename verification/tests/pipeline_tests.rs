//! The proposal and vote tasks: dependencies, construction, voting.

use espresso_core::consensus::ConsensusState;
use espresso_core::data::{
    BlockHeader, CommitmentAndMetadata, DaCertificate, Leaf, QuorumCertificate, QuorumProposal,
    VidShare, EMPTY_BUILDER_COMMITMENT, EMPTY_METADATA,
};
use espresso_core::events::HotShotEvent;
use espresso_core::proposal::{
    build_proposal, choose_parent_qc_source, collect_proposal_inputs, evidence_epoch,
    highest_qc_usable, proposal_dependencies_satisfied, resolve_transition_gather,
    select_highest_qc, select_transition_qc, ParentQcSource, ProposalBuildContext,
    ProposalBuildError, QcCandidate, TransitionGatherResolution,
};
use espresso_core::proposal_task::{CreateTaskError, ProposalHandleError, ProposalTaskState};
use espresso_core::vote::{
    collect_vote_inputs, pre_vote_view_change, submit_vote, verify_drb_result, VoteError,
};
use espresso_core::vote_task::VoteTaskState;

fn qc(leaf_commit: u64, view: u64, block_number: Option<u64>) -> QuorumCertificate {
    QuorumCertificate { leaf_commit, view, epoch: None, block_number }
}

fn header(block_number: u64, payload_commitment: u64) -> BlockHeader {
    BlockHeader {
        block_number,
        payload_commitment,
        builder_commitment: EMPTY_BUILDER_COMMITMENT,
        metadata: EMPTY_METADATA,
    }
}

fn proposal(view: u64, block_header: BlockHeader, justify_qc: QuorumCertificate) -> QuorumProposal {
    QuorumProposal {
        view_number: view,
        epoch: None,
        block_header,
        justify_qc,
        next_epoch_justify_qc: None,
        upgrade_certificate: None,
        view_change_evidence: None,
        next_drb_result: None,
        state_cert: None,
    }
}

fn share(view: u64, payload_commitment: u64, recipient: u64) -> VidShare {
    VidShare {
        view,
        payload_commitment,
        recipient,
        epoch: None,
        target_epoch: None,
        payload_byte_len: 100,
    }
}

#[test]
fn proposal_dependencies_follow_the_formula() {
    let view = 5;
    // Payload and dispersal alone are not enough.
    let events = vec![
        HotShotEvent::SendPayloadCommitmentAndMetadata {
            payload_commitment: 1,
            builder_commitment: 0,
            metadata: 0,
            view,
        },
        HotShotEvent::VidDisperseSend { view },
    ];
    assert!(!proposal_dependencies_satisfied(&events, view, 0));

    // A view-sync certificate for the view completes them.
    let mut with_sync = events.clone();
    with_sync.push(HotShotEvent::ViewSyncFinalizeCertificateRecv {
        cert: espresso_core::data::ViewSyncCertificate { view, epoch: None },
    });
    assert!(proposal_dependencies_satisfied(&with_sync, view, 0));

    // So do the previous view's certificate, its validated proposal and
    // the next-epoch settlement.
    let mut with_chain = events.clone();
    let prev_qc = qc(9, view - 1, None);
    with_chain.push(HotShotEvent::Qc2Formed { qc: prev_qc });
    assert!(!proposal_dependencies_satisfied(&with_chain, view, 0));
    with_chain.push(HotShotEvent::QuorumProposalPreliminarilyValidated {
        proposal: espresso_core::data::SignedProposal {
            data: proposal(view - 1, header(4, 1), qc(8, view - 2, None)),
            signature: 0,
            sender: 1,
        },
    });
    assert!(proposal_dependencies_satisfied(&with_chain, view, 0));
}

#[test]
fn collect_inputs_takes_the_last_of_each_kind() {
    let events = vec![
        HotShotEvent::SendPayloadCommitmentAndMetadata {
            payload_commitment: 1,
            builder_commitment: 2,
            metadata: 3,
            view: 7,
        },
        HotShotEvent::SendPayloadCommitmentAndMetadata {
            payload_commitment: 10,
            builder_commitment: 20,
            metadata: 30,
            view: 7,
        },
        HotShotEvent::Qc2Formed { qc: qc(5, 6, None) },
        HotShotEvent::VidDisperseSend { view: 7 },
    ];
    let inputs = collect_proposal_inputs(&events);
    let cm = inputs.commit_and_metadata.unwrap();
    assert_eq!(cm.payload_commitment, 10);
    assert_eq!(cm.builder_commitment, 20);
    assert_eq!(inputs.parent_qc, Some(qc(5, 6, None)));
    assert_eq!(inputs.vid_share_view, Some(7));
}

#[test]
fn highest_qc_selection_ignores_invalid_candidates() {
    let local = qc(1, 3, None);
    let candidates = vec![
        QcCandidate {
            qc: qc(2, 9, None),
            next_epoch_qc: None,
            state_cert: None,
            qc_sig_valid: false,
            next_sig_valid: true,
            state_cert_sig_valid: true,
        },
        QcCandidate {
            qc: qc(3, 7, None),
            next_epoch_qc: None,
            state_cert: None,
            qc_sig_valid: true,
            next_sig_valid: true,
            state_cert_sig_valid: true,
        },
    ];
    let (best, cert) = select_highest_qc(&candidates, local, None, 10);
    assert_eq!(best, qc(3, 7, None));
    assert!(cert.is_none());
}

#[test]
fn build_proposal_refuses_stale_payload_and_lost_leadership() {
    let consensus = ConsensusState::new(0, qc(0, 0, None));
    let parent = Leaf::from_proposal(&proposal(1, header(1, 1), qc(0, 0, None)));
    let parent_qc = qc(parent.commit(), 1, None);
    let cm = CommitmentAndMetadata {
        payload_commitment: 9,
        builder_commitment: 0,
        metadata: 0,
        block_view: 1,
    };
    let mut ctx = ProposalBuildContext {
        view_number: 2,
        version: 1,
        upgrade_view: None,
        signing_key: 11,
        public_key: 12,
        leader_for_target_epoch: true,
        decided_upgrade_cert: None,
    };
    // The payload was built for another view.
    let r = build_proposal(&consensus, &ctx, cm, None, None, parent_qc, None, None, &parent);
    assert_eq!(r.unwrap_err(), ProposalBuildError::StalePayload);

    // Leadership was lost for the block's epoch.
    let cm2 = CommitmentAndMetadata { block_view: 2, ..cm };
    ctx.leader_for_target_epoch = false;
    let r2 = build_proposal(&consensus, &ctx, cm2, None, None, parent_qc, None, None, &parent);
    assert_eq!(r2.unwrap_err(), ProposalBuildError::NotLeader);

    // With the payload current and leadership held, the proposal is
    // built and signed for exactly this view.
    ctx.leader_for_target_epoch = true;
    let sp = build_proposal(&consensus, &ctx, cm2, None, None, parent_qc, None, None, &parent)
        .unwrap();
    assert_eq!(sp.data.view_number, 2);
    assert_eq!(sp.data.block_header.block_number, 2);
    assert_eq!(sp.data.justify_qc, parent_qc);
    assert_eq!(sp.sender, 12);
}

#[test]
fn one_dependency_handle_per_view() {
    let mut ts = ProposalTaskState::new();
    assert!(ts.create_dependency_task_if_new(3, false, false, true, false).is_ok());
    // A second handle for the same view is refused.
    assert_eq!(
        ts.create_dependency_task_if_new(3, false, false, true, false),
        Err(CreateTaskError::TaskExists)
    );
    // Once the watermark passes a view, no handle for it can open.
    assert!(ts.update_latest_proposed_view(5));
    assert_eq!(
        ts.create_dependency_task_if_new(4, false, false, true, false),
        Err(CreateTaskError::AlreadyProposed)
    );
    // Without leadership nothing opens at all.
    assert_eq!(
        ts.create_dependency_task_if_new(9, false, false, false, false),
        Err(CreateTaskError::NotLeader)
    );
}

#[test]
fn eqc_forms_only_with_both_halves() {
    let mut ts = ProposalTaskState::new();
    let mut consensus = ConsensusState::new(10, qc(0, 0, Some(0)));
    let current = QuorumCertificate { leaf_commit: 8, view: 12, epoch: Some(0), block_number: Some(10) };
    ts.store_formed_qc(current);
    // Without the next-epoch half nothing fires.
    assert!(ts.handle_eqc_formed(&mut consensus, 12, 8, Some(10), true).is_none());
    // With a matching next-epoch certificate the double quorum commits.
    let next = QuorumCertificate { leaf_commit: 8, view: 12, epoch: Some(1), block_number: Some(10) };
    ts.store_formed_next_epoch_qc(next);
    let emitted = ts.handle_eqc_formed(&mut consensus, 12, 8, Some(10), true);
    assert_eq!(emitted, Some(current));
    assert_eq!(consensus.high_qc(), current);
    assert_eq!(consensus.next_epoch_high_qc(), Some(next));
}

#[test]
fn transition_qc_selection_requires_the_next_epoch_half() {
    // Epoch height 10: block 8 is the transition block.
    let candidate_without_twin = QcCandidate {
        qc: QuorumCertificate { leaf_commit: 1, view: 9, epoch: Some(0), block_number: Some(8) },
        next_epoch_qc: None,
        state_cert: None,
        qc_sig_valid: true,
        next_sig_valid: true,
        state_cert_sig_valid: true,
    };
    assert!(select_transition_qc(&vec![candidate_without_twin], None, 10).is_none());

    let qc0 = QuorumCertificate { leaf_commit: 1, view: 9, epoch: Some(0), block_number: Some(8) };
    let twin = QuorumCertificate { leaf_commit: 1, view: 9, epoch: Some(1), block_number: Some(8) };
    let candidate = QcCandidate {
        qc: qc0,
        next_epoch_qc: Some(twin),
        state_cert: None,
        qc_sig_valid: true,
        next_sig_valid: true,
        state_cert_sig_valid: true,
    };
    assert_eq!(select_transition_qc(&vec![candidate], None, 10), Some((qc0, twin)));
}

#[test]
fn proposal_dispatcher_tracks_views_and_fences() {
    let mut ts = ProposalTaskState::new();
    let mut consensus = ConsensusState::new(0, qc(0, 0, None));

    // A formed certificate asks for the next view's handle.
    let actions = ts
        .handle(&mut consensus, &HotShotEvent::Qc2Formed { qc: qc(1, 4, None) }, false, true)
        .unwrap();
    assert_eq!(actions.create_task_for_view, Some(5));
    assert!(actions.emit_extended_qc.is_none());

    // Sending a proposal advances the watermark; a stale send is
    // refused.
    let sp = espresso_core::data::SignedProposal {
        data: proposal(5, header(5, 1), qc(1, 4, None)),
        signature: 0,
        sender: 1,
    };
    assert!(ts.handle(&mut consensus, &HotShotEvent::QuorumProposalSend { proposal: sp, sender: 1 }, false, true).is_ok());
    assert_eq!(
        ts.handle(&mut consensus, &HotShotEvent::QuorumProposalSend { proposal: sp, sender: 1 }, false, true),
        Err(ProposalHandleError::StaleProposalSend)
    );

    // A view change fences stale handles; an invalid view-sync
    // certificate is refused.
    assert!(ts.handle(&mut consensus, &HotShotEvent::ViewChange { view: 7, epoch: None }, false, true).is_ok());
    assert_eq!(
        ts.handle(
            &mut consensus,
            &HotShotEvent::ViewSyncFinalizeCertificateRecv {
                cert: espresso_core::data::ViewSyncCertificate { view: 8, epoch: None },
            },
            false,
            false,
        ),
        Err(ProposalHandleError::InvalidViewSyncCert)
    );
}

#[test]
fn vote_inputs_must_agree_on_the_payload() {
    let parent = Leaf::from_proposal(&proposal(1, header(1, 1), qc(0, 0, None)));
    let p = proposal(2, header(2, 5), qc(parent.commit(), 1, None));
    let events = vec![
        HotShotEvent::QuorumProposalValidated { proposal: p, parent },
        HotShotEvent::DaCertificateValidated {
            cert: DaCertificate {
                view: 2,
                epoch: None,
                payload_commit: 6,
                next_epoch_payload_commit: None,
            },
        },
    ];
    assert_eq!(
        collect_vote_inputs(&events).unwrap_err(),
        VoteError::InconsistentPayloadCommitment
    );
}

#[test]
fn no_vote_without_all_three_dependencies() {
    let parent = Leaf::from_proposal(&proposal(1, header(1, 1), qc(0, 0, None)));
    let p = proposal(2, header(2, 5), qc(parent.commit(), 1, None));
    // Proposal and DA certificate agree, but the share never arrived.
    let events = vec![
        HotShotEvent::QuorumProposalValidated { proposal: p, parent },
        HotShotEvent::DaCertificateValidated {
            cert: DaCertificate {
                view: 2,
                epoch: None,
                payload_commit: 5,
                next_epoch_payload_commit: None,
            },
        },
    ];
    assert_eq!(collect_vote_inputs(&events).unwrap_err(), VoteError::MissingVidShare);

    // With the share in, the inputs are complete.
    let mut complete = events.clone();
    complete.push(HotShotEvent::VidShareValidated { share: share(2, 5, 1) });
    let inputs = collect_vote_inputs(&complete).unwrap();
    assert!(inputs.leaf.is_some());
    assert!(inputs.vid_share.is_some());
}

#[test]
fn drb_result_must_match_the_local_computation() {
    let mut consensus = ConsensusState::new(10, qc(0, 0, Some(0)));
    let mut p = proposal(11, header(10, 5), qc(0, 10, Some(9)));
    p.next_drb_result = Some(77);
    // Our computed result for the next epoch agrees: vote allowed.
    consensus.add_drb_result(1, 77);
    assert!(verify_drb_result(&consensus, &p, true, true).is_ok());
    // A differing local result forbids the vote.
    consensus.add_drb_result(1, 78);
    assert_eq!(
        verify_drb_result(&consensus, &p, true, true).unwrap_err(),
        VoteError::DrbMismatch
    );
    // A missing attached result forbids it too.
    p.next_drb_result = None;
    assert_eq!(
        verify_drb_result(&consensus, &p, true, true).unwrap_err(),
        VoteError::MissingDrbResult
    );
}

#[test]
fn double_quorum_vote_eligibility_at_last_block() {
    let mut leaf = Leaf::from_proposal(&proposal(11, header(10, 5), qc(0, 10, Some(9))));
    leaf.with_epoch = true;
    // Stake only in the next epoch, at the epoch's last block: the vote
    // goes out, extended.
    let action = submit_vote(&leaf, 11, Some(1), 10, false, true, 7, 8).unwrap();
    assert!(action.extended);
    assert_eq!(action.vote.view, 11);
    assert_eq!(action.vote.block_number, Some(10));
    assert_eq!(action.vote.signer, 7);

    // Without stake anywhere, no vote.
    assert_eq!(
        submit_vote(&leaf, 11, Some(1), 10, false, false, 7, 8).unwrap_err(),
        VoteError::NotCommitteeMember
    );

    // Away from the last block, next-epoch stake alone does not count.
    let mut mid = Leaf::from_proposal(&proposal(12, header(13, 5), qc(0, 11, Some(12))));
    mid.with_epoch = true;
    assert_eq!(
        submit_vote(&mid, 12, Some(1), 10, false, true, 7, 8).unwrap_err(),
        VoteError::NotCommitteeMember
    );
    let action2 = submit_vote(&mid, 12, Some(1), 10, true, false, 7, 8).unwrap();
    assert!(!action2.extended);
}

#[test]
fn vote_task_guards_da_and_vid_recv() {
    let mut ts = VoteTaskState::new(100);
    let mut consensus = ConsensusState::new(10, qc(0, 0, Some(0)));
    let cert = DaCertificate { view: 3, epoch: None, payload_commit: 5, next_epoch_payload_commit: None };
    // An invalid DA certificate is refused; a valid one opens the vote
    // dependency.
    assert!(ts.handle_da_certificate_recv(&mut consensus, &cert, false).is_err());
    assert_eq!(ts.handle_da_certificate_recv(&mut consensus, &cert, true), Ok(true));

    // A share addressed to someone else is stored but opens nothing.
    let foreign = share(3, 5, 99);
    assert!(ts.handle_vid_share_recv(&mut consensus, &foreign, true, true, false, true, 7).is_err());
    // Our own share, from a DA member and verified, counts.
    let ours = share(3, 5, 7);
    assert!(ts.handle_vid_share_recv(&mut consensus, &ours, true, true, false, true, 7).is_ok());
}

#[test]
fn vote_inputs_must_share_one_view() {
    let parent = Leaf::from_proposal(&proposal(1, header(1, 1), qc(0, 0, None)));
    let p = proposal(2, header(2, 5), qc(parent.commit(), 1, None));
    // The DA certificate carries the right payload but the wrong view.
    let events = vec![
        HotShotEvent::QuorumProposalValidated { proposal: p, parent },
        HotShotEvent::DaCertificateValidated {
            cert: DaCertificate {
                view: 3,
                epoch: None,
                payload_commit: 5,
                next_epoch_payload_commit: None,
            },
        },
    ];
    assert_eq!(collect_vote_inputs(&events).unwrap_err(), VoteError::InconsistentView);

    // A share from another view is refused the same way.
    let parent2 = Leaf::from_proposal(&proposal(1, header(1, 1), qc(0, 0, None)));
    let p2 = proposal(2, header(2, 5), qc(parent2.commit(), 1, None));
    let events = vec![
        HotShotEvent::QuorumProposalValidated { proposal: p2, parent: parent2 },
        HotShotEvent::VidShareValidated { share: share(4, 5, 1) },
    ];
    assert_eq!(collect_vote_inputs(&events).unwrap_err(), VoteError::InconsistentView);
}

#[test]
fn view_change_precedes_the_vote_except_at_the_last_block() {
    // Without epochs the vote is always preceded by the view change.
    let leaf = Leaf::from_proposal(&proposal(4, header(7, 5), qc(0, 3, None)));
    assert_eq!(pre_vote_view_change(&leaf, false, 10), Some((5, None)));
    // Under epochs, an ordinary block still changes view first.
    assert_eq!(pre_vote_view_change(&leaf, true, 10), Some((5, Some(0))));
    // At the epoch's last block the view change waits for the vote.
    let last = Leaf::from_proposal(&proposal(11, header(10, 5), qc(0, 10, None)));
    assert_eq!(pre_vote_view_change(&last, true, 10), None);
}

#[test]
fn parent_qc_source_follows_the_rule() {
    // A certificate formed by the dependency events wins outright.
    let with_qc = collect_proposal_inputs(&vec![HotShotEvent::Qc2Formed { qc: qc(1, 4, None) }]);
    assert_eq!(choose_parent_qc_source(&with_qc, 4), ParentQcSource::FromEvents);

    // Before epochs the local high QC serves.
    let empty = collect_proposal_inputs(&vec![]);
    assert_eq!(choose_parent_qc_source(&empty, 3), ParentQcSource::LocalHighQc);

    // Under epochs, view-change evidence asks for the transition QC.
    let with_timeout = collect_proposal_inputs(&vec![HotShotEvent::TimeoutCert2Formed {
        cert: espresso_core::data::TimeoutCertificate { view: 4, epoch: Some(2) },
    }]);
    assert_eq!(choose_parent_qc_source(&with_timeout, 4), ParentQcSource::GatherTransition);
    assert_eq!(evidence_epoch(&with_timeout), Some(2));

    // Without evidence, gather the peers' highest.
    assert_eq!(choose_parent_qc_source(&empty, 4), ParentQcSource::GatherHighest);
}

#[test]
fn transition_gather_resolves_by_evidence_epoch() {
    let eh = 10;
    // A gathered pair from the evidence's epoch is proposed from.
    let pair = (qc(1, 9, Some(25)), qc(1, 9, Some(25)));
    assert_eq!(
        resolve_transition_gather(&Some(pair), Some(2), eh),
        TransitionGatherResolution::UseTransition
    );
    // A pair from another epoch falls back without the usability check.
    assert_eq!(
        resolve_transition_gather(&Some(pair), Some(4), eh),
        TransitionGatherResolution::GatherHighest { check_transition: false }
    );
    // No gathered pair: fall back, but the highest must pass the check.
    assert_eq!(
        resolve_transition_gather(&None, Some(3), eh),
        TransitionGatherResolution::GatherHighest { check_transition: true }
    );
    // Evidence without an epoch stops the proposal.
    assert_eq!(
        resolve_transition_gather(&Some(pair), None, eh),
        TransitionGatherResolution::NoEpochOnEvidence
    );

    // The usability check refuses a certificate mid-transition and
    // accepts the last block and ordinary blocks.
    assert!(!highest_qc_usable(&qc(1, 9, Some(28)), eh));
    assert!(highest_qc_usable(&qc(1, 9, Some(30)), eh));
    assert!(highest_qc_usable(&qc(1, 9, Some(5)), eh));
    assert!(highest_qc_usable(&qc(1, 9, None), eh));
}
