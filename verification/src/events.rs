//! The event alphabet of the consensus core.
//!
//! The three tasks cooperate through one broadcast bus of these events:
//! every live subscriber receives every event, per-producer order is
//! kept, and payloads are shared immutably. The bus itself, with its
//! timeouts and backpressure, lives outside the crate; the logic here
//! only classifies and folds events.
//!
//! A formed certificate and a formed timeout certificate travel as two
//! variants, [`HotShotEvent::Qc2Formed`] and
//! [`HotShotEvent::TimeoutCert2Formed`], rather than as one sum-typed
//! variant.

use vstd::prelude::*;

use crate::data::{
    DaCertificate, Leaf, QuorumCertificate, QuorumProposal, QuorumVote, SignedProposal, StateCert,
    TimeoutCertificate, UpgradeCertificate, VidShare, ViewSyncCertificate,
};

verus! {

/// One event on the consensus bus.
#[derive(Clone, Copy, Debug, PartialEq, Eq)]
pub enum HotShotEvent {
    /// A proposal arrived from the network.
    QuorumProposalRecv {
        /// The signed proposal.
        proposal: SignedProposal,
    },
    /// The receive pipeline finished its structural and certificate
    /// checks on a proposal.
    QuorumProposalPreliminarilyValidated {
        /// The proposal that passed the prechecks.
        proposal: SignedProposal,
    },
    /// A proposal was fully validated against its parent.
    QuorumProposalValidated {
        /// The validated proposal.
        proposal: QuorumProposal,
        /// The resolved parent leaf.
        parent: Leaf,
    },
    /// This node publishes a proposal it constructed.
    QuorumProposalSend {
        /// The signed proposal.
        proposal: SignedProposal,
        /// This node's public key.
        sender: u64,
    },
    /// The builder pipeline announced the payload for a view.
    SendPayloadCommitmentAndMetadata {
        /// VID commitment of the payload.
        payload_commitment: u64,
        /// The builder's commitment.
        builder_commitment: u64,
        /// Payload metadata.
        metadata: u64,
        /// The view the payload is for.
        view: u64,
    },
    /// This node dispersed VID shares for a view.
    VidDisperseSend {
        /// The view the dispersal is for.
        view: u64,
    },
    /// A VID share arrived from the network.
    VidShareRecv {
        /// Key of the node that sent the share.
        sender: u64,
        /// The share.
        share: VidShare,
        /// Signature over the payload commitment.
        signature: u64,
    },
    /// A VID share passed validation.
    VidShareValidated {
        /// The validated share.
        share: VidShare,
    },
    /// A DA certificate arrived from the network.
    DaCertificateRecv {
        /// The certificate.
        cert: DaCertificate,
    },
    /// A DA certificate passed validation.
    DaCertificateValidated {
        /// The validated certificate.
        cert: DaCertificate,
    },
    /// A quorum certificate was formed from votes.
    Qc2Formed {
        /// The formed certificate.
        qc: QuorumCertificate,
    },
    /// A timeout certificate was formed from timeout votes.
    TimeoutCert2Formed {
        /// The formed timeout certificate.
        cert: TimeoutCertificate,
    },
    /// A quorum certificate over an epoch root was formed, with its
    /// light-client state certificate.
    EpochRootQcFormed {
        /// The formed certificate.
        qc: QuorumCertificate,
        /// The state certificate assembled with it.
        state_cert: StateCert,
    },
    /// A next-epoch quorum certificate was formed.
    NextEpochQc2Formed {
        /// The formed next-epoch certificate.
        qc: QuorumCertificate,
    },
    /// Both halves of a double quorum on an epoch's last block are held.
    ExtendedQc2Formed {
        /// The current-epoch half of the double quorum.
        qc: QuorumCertificate,
    },
    /// A view-sync finalize certificate arrived.
    ViewSyncFinalizeCertificateRecv {
        /// The certificate.
        cert: ViewSyncCertificate,
    },
    /// An upgrade certificate was formed from upgrade votes.
    UpgradeCertificateFormed {
        /// The formed certificate.
        cert: UpgradeCertificate,
    },
    /// This node casts a vote.
    QuorumVoteSend {
        /// The vote.
        vote: QuorumVote,
    },
    /// This node casts an extended vote at an epoch's last block.
    ExtendedQuorumVoteSend {
        /// The vote.
        vote: QuorumVote,
    },
    /// The replica moved to a view.
    ViewChange {
        /// The new view.
        view: u64,
        /// The epoch it belongs to.
        epoch: Option<u64>,
    },
    /// A view timed out.
    Timeout {
        /// The view that timed out.
        view: u64,
    },
    /// Another node sent its high QC, possibly with a next-epoch twin.
    HighQcRecv {
        /// The offered certificate.
        qc: QuorumCertificate,
        /// Its next-epoch twin, during a transition.
        next_epoch_qc: Option<QuorumCertificate>,
    },
    /// Another node sent an epoch-root QC with its state certificate.
    EpochRootQcRecv {
        /// The offered certificate.
        qc: QuorumCertificate,
        /// The state certificate paired with it.
        state_cert: StateCert,
    },
}

} // verus!
