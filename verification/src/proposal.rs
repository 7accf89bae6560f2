//! The proposal dependency engine and proposal construction.
//!
//! For every view this node may lead, a dependency handle watches the bus
//! until the view's prerequisites are all in: the payload announcement
//! and the VID dispersal, joined with either view-change evidence or the
//! preceding view's certificate chain. The functions here classify
//! events against those dependencies, fold a completed handle's events
//! into the proposal's inputs, pick the best quorum certificate from
//! gathered `HighQcRecv` traffic, and finally construct and sign the
//! proposal. The timed waits around the folds are the runtime's; every
//! decision is made here, with its rule in the contract.

use vstd::prelude::*;

use crate::consensus::ConsensusState;
use crate::data::{
    sign, spec_sign, BlockHeader, CommitmentAndMetadata, Leaf, QuorumCertificate, QuorumProposal,
    SignedProposal, StateCert, TimeoutCertificate, UpgradeCertificate, ViewChangeEvidence,
    ViewSyncCertificate, EPOCHS_VERSION,
};
use crate::epoch::{
    epoch_of, is_epoch_root, is_epoch_transition, is_last_block, is_transition_block,
    spec_epoch_of, spec_is_epoch_root, spec_is_epoch_transition, spec_is_last_block,
    spec_is_transition_block,
};
use crate::events::HotShotEvent;
use crate::validation::{
    check_qc_state_cert_correspondence, spec_qc_state_cert_correspond, spec_validate_qc_pair,
    validate_qc_pair,
};

verus! {

/// The kinds of events a proposal for view `v` may wait for.
#[derive(Clone, Copy, Debug, PartialEq, Eq)]
pub enum ProposalDependency {
    /// The payload announcement for `v`.
    PayloadAndMetadata,
    /// A quorum certificate formed for `v - 1`.
    Qc,
    /// A view-sync certificate for `v`.
    ViewSyncCert,
    /// A timeout certificate for `v - 1`.
    TimeoutCert,
    /// The preliminarily validated proposal of `v - 1`.
    Proposal,
    /// This node's VID dispersal for `v`.
    VidShare,
}

/// Whether `e` completes dependency `dep` for view `view`.
pub open spec fn spec_dependency_satisfied(
    dep: ProposalDependency,
    e: HotShotEvent,
    view: u64,
) -> bool {
    match dep {
        ProposalDependency::Qc => match e {
            HotShotEvent::Qc2Formed { qc } => qc.view + 1 == view,
            HotShotEvent::EpochRootQcFormed { qc, .. } => qc.view + 1 == view,
            _ => false,
        },
        ProposalDependency::TimeoutCert => match e {
            HotShotEvent::TimeoutCert2Formed { cert } => cert.view + 1 == view,
            _ => false,
        },
        ProposalDependency::ViewSyncCert => match e {
            HotShotEvent::ViewSyncFinalizeCertificateRecv { cert } => cert.view == view,
            _ => false,
        },
        ProposalDependency::Proposal => match e {
            HotShotEvent::QuorumProposalPreliminarilyValidated { proposal } => proposal.data.view_number
                + 1 == view,
            _ => false,
        },
        ProposalDependency::PayloadAndMetadata => match e {
            HotShotEvent::SendPayloadCommitmentAndMetadata { view: v, .. } => v == view,
            _ => false,
        },
        ProposalDependency::VidShare => match e {
            HotShotEvent::VidDisperseSend { view: v } => v == view,
            _ => false,
        },
    }
}

/// Whether `e` completes dependency `dep` for view `view`, as
/// [`spec_dependency_satisfied`] states it.
pub fn dependency_satisfied(dep: ProposalDependency, e: &HotShotEvent, view: u64) -> (r: bool)
    ensures
        r == spec_dependency_satisfied(dep, *e, view),
{
    match dep {
        ProposalDependency::Qc => match e {
            HotShotEvent::Qc2Formed { qc } => view > 0 && qc.view == view - 1,
            HotShotEvent::EpochRootQcFormed { qc, .. } => view > 0 && qc.view == view - 1,
            _ => false,
        },
        ProposalDependency::TimeoutCert => match e {
            HotShotEvent::TimeoutCert2Formed { cert } => view > 0 && cert.view == view - 1,
            _ => false,
        },
        ProposalDependency::ViewSyncCert => match e {
            HotShotEvent::ViewSyncFinalizeCertificateRecv { cert } => cert.view == view,
            _ => false,
        },
        ProposalDependency::Proposal => match e {
            HotShotEvent::QuorumProposalPreliminarilyValidated { proposal } => view > 0
                && proposal.data.view_number == view - 1,
            _ => false,
        },
        ProposalDependency::PayloadAndMetadata => match e {
            HotShotEvent::SendPayloadCommitmentAndMetadata { view: v, .. } => *v == view,
            _ => false,
        },
        ProposalDependency::VidShare => match e {
            HotShotEvent::VidDisperseSend { view: v } => *v == view,
            _ => false,
        },
    }
}

/// Whether `e` settles the next-epoch-certificate requirement for view
/// `view`: the next-epoch certificate itself, an epoch-root QC (never in
/// transition), or a formed QC whose block is outside the transition
/// window.
pub open spec fn spec_next_epoch_dep_satisfied(e: HotShotEvent, view: u64, eh: u64) -> bool {
    match e {
        HotShotEvent::NextEpochQc2Formed { qc } => qc.view + 1 == view,
        HotShotEvent::EpochRootQcFormed { .. } => true,
        HotShotEvent::Qc2Formed { qc } => qc.view + 1 == view && (match qc.block_number {
            Some(bn) => !spec_is_epoch_transition(bn, eh),
            None => true,
        }),
        _ => false,
    }
}

/// Whether `e` settles the next-epoch-certificate requirement, as
/// [`spec_next_epoch_dep_satisfied`] states it.
pub fn next_epoch_dep_satisfied(e: &HotShotEvent, view: u64, eh: u64) -> (r: bool)
    ensures
        r == spec_next_epoch_dep_satisfied(*e, view, eh),
{
    match e {
        HotShotEvent::NextEpochQc2Formed { qc } => view > 0 && qc.view == view - 1,
        HotShotEvent::EpochRootQcFormed { .. } => true,
        HotShotEvent::Qc2Formed { qc } => view > 0 && qc.view == view - 1 && (match qc.block_number
        {
            Some(bn) => !is_epoch_transition(bn, eh),
            None => true,
        }),
        _ => false,
    }
}

/// Whether some event in `s` completes `dep` for `view`.
pub open spec fn spec_exists_dep(
    s: Seq<HotShotEvent>,
    dep: ProposalDependency,
    view: u64,
) -> bool {
    exists|i: int| 0 <= i < s.len() && spec_dependency_satisfied(dep, s[i], view)
}

/// Whether some event in `s` settles the next-epoch requirement.
pub open spec fn spec_exists_next_epoch_dep(s: Seq<HotShotEvent>, view: u64, eh: u64) -> bool {
    exists|i: int| 0 <= i < s.len() && spec_next_epoch_dep_satisfied(s[i], view, eh)
}

/// The dependency formula for proposing in view `view`: the payload and
/// the VID dispersal must both be in, joined with either a timeout
/// certificate for the preceding view, a view-sync certificate for this
/// view, or — past view one — the preceding view's certificate, its
/// validated proposal and the next-epoch settlement; at the first view a
/// certificate alone suffices.
pub open spec fn spec_proposal_dependencies_satisfied(
    s: Seq<HotShotEvent>,
    view: u64,
    eh: u64,
) -> bool {
    let primary = spec_exists_dep(s, ProposalDependency::PayloadAndMetadata, view)
        && spec_exists_dep(s, ProposalDependency::VidShare, view);
    let secondary = spec_exists_dep(s, ProposalDependency::TimeoutCert, view) || spec_exists_dep(
        s,
        ProposalDependency::ViewSyncCert,
        view,
    ) || (if view > 1 {
        spec_exists_dep(s, ProposalDependency::Qc, view) && spec_exists_dep(
            s,
            ProposalDependency::Proposal,
            view,
        ) && spec_exists_next_epoch_dep(s, view, eh)
    } else {
        spec_exists_dep(s, ProposalDependency::Qc, view)
    });
    primary && secondary
}

/// Whether the events gathered so far satisfy the dependency formula for
/// `view`, as [`spec_proposal_dependencies_satisfied`] states it.
pub fn proposal_dependencies_satisfied(events: &Vec<HotShotEvent>, view: u64, eh: u64) -> (r: bool)
    ensures
        r == spec_proposal_dependencies_satisfied(events@, view, eh),
{
    let mut has_payload: bool = false;
    let mut has_vid: bool = false;
    let mut has_timeout: bool = false;
    let mut has_view_sync: bool = false;
    let mut has_qc: bool = false;
    let mut has_proposal: bool = false;
    let mut has_next_epoch: bool = false;
    let n = events.len();
    let mut i: usize = 0;
    while i < n
        invariant
            i <= n,
            n == events@.len(),
            has_payload == spec_exists_dep(
                events@.take(i as int),
                ProposalDependency::PayloadAndMetadata,
                view,
            ),
            has_vid == spec_exists_dep(events@.take(i as int), ProposalDependency::VidShare, view),
            has_timeout == spec_exists_dep(
                events@.take(i as int),
                ProposalDependency::TimeoutCert,
                view,
            ),
            has_view_sync == spec_exists_dep(
                events@.take(i as int),
                ProposalDependency::ViewSyncCert,
                view,
            ),
            has_qc == spec_exists_dep(events@.take(i as int), ProposalDependency::Qc, view),
            has_proposal == spec_exists_dep(
                events@.take(i as int),
                ProposalDependency::Proposal,
                view,
            ),
            has_next_epoch == spec_exists_next_epoch_dep(events@.take(i as int), view, eh),
        decreases n - i,
    {
        let e = &events[i];
        proof {
            assert(events@.take(i + 1).drop_last() =~= events@.take(i as int));
            assert(events@.take(i + 1).last() == events@[i as int]);
        }
        has_payload = has_payload || dependency_satisfied(
            ProposalDependency::PayloadAndMetadata,
            e,
            view,
        );
        has_vid = has_vid || dependency_satisfied(ProposalDependency::VidShare, e, view);
        has_timeout = has_timeout || dependency_satisfied(ProposalDependency::TimeoutCert, e, view);
        has_view_sync = has_view_sync || dependency_satisfied(
            ProposalDependency::ViewSyncCert,
            e,
            view,
        );
        has_qc = has_qc || dependency_satisfied(ProposalDependency::Qc, e, view);
        has_proposal = has_proposal || dependency_satisfied(ProposalDependency::Proposal, e, view);
        has_next_epoch = has_next_epoch || next_epoch_dep_satisfied(e, view, eh);
        i = i + 1;
        proof {
            lemma_exists_dep_extend(events@, i as int, ProposalDependency::PayloadAndMetadata, view);
            lemma_exists_dep_extend(events@, i as int, ProposalDependency::VidShare, view);
            lemma_exists_dep_extend(events@, i as int, ProposalDependency::TimeoutCert, view);
            lemma_exists_dep_extend(events@, i as int, ProposalDependency::ViewSyncCert, view);
            lemma_exists_dep_extend(events@, i as int, ProposalDependency::Qc, view);
            lemma_exists_dep_extend(events@, i as int, ProposalDependency::Proposal, view);
            lemma_exists_next_epoch_dep_extend(events@, i as int, view, eh);
        }
    }
    proof {
        assert(events@.take(n as int) =~= events@);
    }
    let secondary = has_timeout || has_view_sync || (if view > 1 {
        has_qc && has_proposal && has_next_epoch
    } else {
        has_qc
    });
    has_payload && has_vid && secondary
}

/// Extending a prefix by one event extends the satisfied dependencies by
/// exactly that event's contribution.
proof fn lemma_exists_dep_extend(s: Seq<HotShotEvent>, i: int, dep: ProposalDependency, view: u64)
    requires
        0 < i <= s.len(),
    ensures
        spec_exists_dep(s.take(i), dep, view) == (spec_exists_dep(s.take(i - 1), dep, view)
            || spec_dependency_satisfied(dep, s[i - 1], view)),
{
    assert(s.take(i).drop_last() =~= s.take(i - 1));
    if spec_exists_dep(s.take(i - 1), dep, view) {
        let j = choose|j: int|
            0 <= j < s.take(i - 1).len() && #[trigger] spec_dependency_satisfied(
                dep,
                s.take(i - 1)[j],
                view,
            );
        assert(s.take(i)[j] == s.take(i - 1)[j]);
    }
    if spec_dependency_satisfied(dep, s[i - 1], view) {
        assert(s.take(i)[i - 1] == s[i - 1]);
    }
    if spec_exists_dep(s.take(i), dep, view) {
        let j = choose|j: int|
            0 <= j < s.take(i).len() && #[trigger] spec_dependency_satisfied(
                dep,
                s.take(i)[j],
                view,
            );
        if j < i - 1 {
            assert(s.take(i - 1)[j] == s.take(i)[j]);
        } else {
            assert(s.take(i)[j] == s[i - 1]);
        }
    }
}

/// The same step fact for the next-epoch settlement.
proof fn lemma_exists_next_epoch_dep_extend(s: Seq<HotShotEvent>, i: int, view: u64, eh: u64)
    requires
        0 < i <= s.len(),
    ensures
        spec_exists_next_epoch_dep(s.take(i), view, eh) == (spec_exists_next_epoch_dep(
            s.take(i - 1),
            view,
            eh,
        ) || spec_next_epoch_dep_satisfied(s[i - 1], view, eh)),
{
    assert(s.take(i).drop_last() =~= s.take(i - 1));
    if spec_exists_next_epoch_dep(s.take(i - 1), view, eh) {
        let j = choose|j: int|
            0 <= j < s.take(i - 1).len() && #[trigger] spec_next_epoch_dep_satisfied(
                s.take(i - 1)[j],
                view,
                eh,
            );
        assert(s.take(i)[j] == s.take(i - 1)[j]);
    }
    if spec_next_epoch_dep_satisfied(s[i - 1], view, eh) {
        assert(s.take(i)[i - 1] == s[i - 1]);
    }
    if spec_exists_next_epoch_dep(s.take(i), view, eh) {
        let j = choose|j: int|
            0 <= j < s.take(i).len() && #[trigger] spec_next_epoch_dep_satisfied(
                s.take(i)[j],
                view,
                eh,
            );
        if j < i - 1 {
            assert(s.take(i - 1)[j] == s.take(i)[j]);
        } else {
            assert(s.take(i)[j] == s[i - 1]);
        }
    }
}

/// The inputs a completed dependency handle extracts from its events;
/// for each kind the last event on the bus wins.
#[derive(Clone, Copy, Debug, PartialEq, Eq)]
pub struct ProposalInputs {
    /// The announced payload, with the view it was built for.
    pub commit_and_metadata: Option<CommitmentAndMetadata>,
    /// A timeout certificate, if one fired the handle.
    pub timeout_cert: Option<TimeoutCertificate>,
    /// A view-sync certificate, if one fired the handle.
    pub view_sync_cert: Option<ViewSyncCertificate>,
    /// The view of this node's VID dispersal, if seen.
    pub vid_share_view: Option<u64>,
    /// The parent certificate to propose from, if one was formed.
    pub parent_qc: Option<QuorumCertificate>,
    /// A formed next-epoch certificate.
    pub next_epoch_qc: Option<QuorumCertificate>,
    /// The state certificate that came with an epoch-root QC.
    pub state_cert: Option<StateCert>,
}

/// The empty fold state.
pub open spec fn spec_empty_inputs() -> ProposalInputs {
    ProposalInputs {
        commit_and_metadata: None,
        timeout_cert: None,
        view_sync_cert: None,
        vid_share_view: None,
        parent_qc: None,
        next_epoch_qc: None,
        state_cert: None,
    }
}

/// One step of the input fold.
pub open spec fn spec_collect_step(acc: ProposalInputs, e: HotShotEvent) -> ProposalInputs {
    match e {
        HotShotEvent::SendPayloadCommitmentAndMetadata {
            payload_commitment,
            builder_commitment,
            metadata,
            view,
        } => ProposalInputs {
            commit_and_metadata: Some(
                CommitmentAndMetadata { payload_commitment, builder_commitment, metadata, block_view: view },
            ),
            ..acc
        },
        HotShotEvent::Qc2Formed { qc } => ProposalInputs { parent_qc: Some(qc), ..acc },
        HotShotEvent::TimeoutCert2Formed { cert } => ProposalInputs {
            timeout_cert: Some(cert),
            ..acc
        },
        HotShotEvent::EpochRootQcFormed { qc, state_cert } => ProposalInputs {
            parent_qc: Some(qc),
            state_cert: Some(state_cert),
            ..acc
        },
        HotShotEvent::ViewSyncFinalizeCertificateRecv { cert } => ProposalInputs {
            view_sync_cert: Some(cert),
            ..acc
        },
        HotShotEvent::VidDisperseSend { view } => ProposalInputs {
            vid_share_view: Some(view),
            ..acc
        },
        HotShotEvent::NextEpochQc2Formed { qc } => ProposalInputs { next_epoch_qc: Some(qc), ..acc },
        _ => acc,
    }
}

/// The fold of a whole event sequence.
pub open spec fn spec_collect_inputs(s: Seq<HotShotEvent>) -> ProposalInputs
    decreases s.len(),
{
    if s.len() == 0 {
        spec_empty_inputs()
    } else {
        spec_collect_step(spec_collect_inputs(s.drop_last()), s.last())
    }
}

/// Fold the events of a completed dependency handle into the proposal's
/// inputs, as [`spec_collect_inputs`] states it.
pub fn collect_proposal_inputs(events: &Vec<HotShotEvent>) -> (r: ProposalInputs)
    ensures
        r == spec_collect_inputs(events@),
{
    let mut acc = ProposalInputs {
        commit_and_metadata: None,
        timeout_cert: None,
        view_sync_cert: None,
        vid_share_view: None,
        parent_qc: None,
        next_epoch_qc: None,
        state_cert: None,
    };
    let n = events.len();
    let mut i: usize = 0;
    while i < n
        invariant
            i <= n,
            n == events@.len(),
            acc == spec_collect_inputs(events@.take(i as int)),
        decreases n - i,
    {
        proof {
            assert(events@.take(i + 1).drop_last() =~= events@.take(i as int));
            assert(events@.take(i + 1).last() == events@[i as int]);
        }
        let e = &events[i];
        acc = match *e {
            HotShotEvent::SendPayloadCommitmentAndMetadata {
                payload_commitment,
                builder_commitment,
                metadata,
                view,
            } => ProposalInputs {
                commit_and_metadata: Some(
                    CommitmentAndMetadata {
                        payload_commitment,
                        builder_commitment,
                        metadata,
                        block_view: view,
                    },
                ),
                ..acc
            },
            HotShotEvent::Qc2Formed { qc } => ProposalInputs { parent_qc: Some(qc), ..acc },
            HotShotEvent::TimeoutCert2Formed { cert } => ProposalInputs {
                timeout_cert: Some(cert),
                ..acc
            },
            HotShotEvent::EpochRootQcFormed { qc, state_cert } => ProposalInputs {
                parent_qc: Some(qc),
                state_cert: Some(state_cert),
                ..acc
            },
            HotShotEvent::ViewSyncFinalizeCertificateRecv { cert } => ProposalInputs {
                view_sync_cert: Some(cert),
                ..acc
            },
            HotShotEvent::VidDisperseSend { view } => ProposalInputs {
                vid_share_view: Some(view),
                ..acc
            },
            HotShotEvent::NextEpochQc2Formed { qc } => ProposalInputs {
                next_epoch_qc: Some(qc),
                ..acc
            },
            _ => acc,
        };
        i = i + 1;
    }
    proof {
        assert(events@.take(n as int) =~= events@);
    }
    acc
}

/// A quorum certificate offered to a leader while it gathers the highest
/// QC, together with the crypto layer's verdicts on it.
#[derive(Clone, Copy, Debug, PartialEq, Eq)]
pub struct QcCandidate {
    /// The offered certificate.
    pub qc: QuorumCertificate,
    /// Its next-epoch twin, if the sender supplied one.
    pub next_epoch_qc: Option<QuorumCertificate>,
    /// The state certificate the sender paired with an epoch-root QC.
    pub state_cert: Option<StateCert>,
    /// Verdict on the certificate's aggregate signature.
    pub qc_sig_valid: bool,
    /// Verdict on the next-epoch twin's signature.
    pub next_sig_valid: bool,
    /// Verdict on the state certificate's signature.
    pub state_cert_sig_valid: bool,
}

/// Whether a gathered candidate is acceptable: its certificate pair
/// validates, and an epoch-root certificate brings a corresponding,
/// verified state certificate.
pub open spec fn spec_qc_candidate_valid(c: QcCandidate, eh: u64) -> bool {
    &&& spec_validate_qc_pair(
        c.qc,
        c.next_epoch_qc,
        c.qc_sig_valid,
        c.next_sig_valid,
        true,
        eh,
    ) is None
    &&& ((match c.qc.block_number {
        Some(bn) => spec_is_epoch_root(bn, eh),
        None => false,
    }) ==> (match c.state_cert {
        Some(sc) => c.state_cert_sig_valid && spec_qc_state_cert_correspond(c.qc, sc, eh),
        None => false,
    }))
}

/// The state certificate a candidate contributes: kept only at an epoch
/// root.
pub open spec fn spec_candidate_state_cert(c: QcCandidate, eh: u64) -> Option<StateCert> {
    if (match c.qc.block_number {
        Some(bn) => spec_is_epoch_root(bn, eh),
        None => false,
    }) {
        c.state_cert
    } else {
        None
    }
}

/// The highest-QC fold: each acceptable candidate from a strictly later
/// view replaces the running best.
pub open spec fn spec_best_qc_fold(
    s: Seq<QcCandidate>,
    init: (QuorumCertificate, Option<StateCert>),
    eh: u64,
) -> (QuorumCertificate, Option<StateCert>)
    decreases s.len(),
{
    if s.len() == 0 {
        init
    } else {
        let prev = spec_best_qc_fold(s.drop_last(), init, eh);
        let c = s.last();
        if spec_qc_candidate_valid(c, eh) && c.qc.view > prev.0.view {
            (c.qc, spec_candidate_state_cert(c, eh))
        } else {
            prev
        }
    }
}

/// Pick the highest acceptable certificate among the gathered candidates,
/// starting from the local high QC, as [`spec_best_qc_fold`] states it.
/// The result never falls behind the starting certificate.
pub fn select_highest_qc(
    candidates: &Vec<QcCandidate>,
    init_qc: QuorumCertificate,
    init_state_cert: Option<StateCert>,
    eh: u64,
) -> (r: (QuorumCertificate, Option<StateCert>))
    ensures
        r == spec_best_qc_fold(candidates@, (init_qc, init_state_cert), eh),
        r.0.view >= init_qc.view,
{
    let mut best_qc = init_qc;
    let mut best_cert = init_state_cert;
    let n = candidates.len();
    let mut i: usize = 0;
    while i < n
        invariant
            i <= n,
            n == candidates@.len(),
            (best_qc, best_cert) == spec_best_qc_fold(
                candidates@.take(i as int),
                (init_qc, init_state_cert),
                eh,
            ),
            best_qc.view >= init_qc.view,
        decreases n - i,
    {
        proof {
            assert(candidates@.take(i + 1).drop_last() =~= candidates@.take(i as int));
            assert(candidates@.take(i + 1).last() == candidates@[i as int]);
        }
        let c = &candidates[i];
        let pair_ok = validate_qc_pair(
            &c.qc,
            &c.next_epoch_qc,
            c.qc_sig_valid,
            c.next_sig_valid,
            true,
            eh,
        ).is_ok();
        let at_root = match c.qc.block_number {
            Some(bn) => is_epoch_root(bn, eh),
            None => false,
        };
        let root_ok = if at_root {
            match &c.state_cert {
                Some(sc) => c.state_cert_sig_valid && check_qc_state_cert_correspondence(
                    &c.qc,
                    sc,
                    eh,
                ),
                None => false,
            }
        } else {
            true
        };
        if pair_ok && root_ok && c.qc.view > best_qc.view {
            best_qc = c.qc;
            best_cert = if at_root {
                c.state_cert
            } else {
                None
            };
        }
        i = i + 1;
    }
    proof {
        assert(candidates@.take(n as int) =~= candidates@);
    }
    (best_qc, best_cert)
}

/// The transition-QC fold: only acceptable candidates whose block is the
/// transition block and which carry a next-epoch twin are considered;
/// the one from the latest view wins.
pub open spec fn spec_best_transition_qc_fold(
    s: Seq<QcCandidate>,
    init: Option<(QuorumCertificate, QuorumCertificate)>,
    eh: u64,
) -> Option<(QuorumCertificate, QuorumCertificate)>
    decreases s.len(),
{
    if s.len() == 0 {
        init
    } else {
        let prev = spec_best_transition_qc_fold(s.drop_last(), init, eh);
        let c = s.last();
        let eligible = (match c.qc.block_number {
            Some(bn) => spec_is_transition_block(bn, eh),
            None => false,
        }) && c.next_epoch_qc is Some && spec_validate_qc_pair(
            c.qc,
            c.next_epoch_qc,
            c.qc_sig_valid,
            c.next_sig_valid,
            true,
            eh,
        ) is None;
        if eligible && (match prev {
            None => true,
            Some(p) => c.qc.view > p.0.view,
        }) {
            Some((c.qc, c.next_epoch_qc->Some_0))
        } else {
            prev
        }
    }
}

/// Pick the best transition QC among the gathered candidates, starting
/// from the one the shared state holds, as
/// [`spec_best_transition_qc_fold`] states it.
pub fn select_transition_qc(
    candidates: &Vec<QcCandidate>,
    init: Option<(QuorumCertificate, QuorumCertificate)>,
    eh: u64,
) -> (r: Option<(QuorumCertificate, QuorumCertificate)>)
    ensures
        r == spec_best_transition_qc_fold(candidates@, init, eh),
{
    let mut best = init;
    let n = candidates.len();
    let mut i: usize = 0;
    while i < n
        invariant
            i <= n,
            n == candidates@.len(),
            best == spec_best_transition_qc_fold(candidates@.take(i as int), init, eh),
        decreases n - i,
    {
        proof {
            assert(candidates@.take(i + 1).drop_last() =~= candidates@.take(i as int));
            assert(candidates@.take(i + 1).last() == candidates@[i as int]);
        }
        let c = &candidates[i];
        let at_transition = match c.qc.block_number {
            Some(bn) => is_transition_block(bn, eh),
            None => false,
        };
        let eligible = at_transition && c.next_epoch_qc.is_some() && validate_qc_pair(
            &c.qc,
            &c.next_epoch_qc,
            c.qc_sig_valid,
            c.next_sig_valid,
            true,
            eh,
        ).is_ok();
        let replaces = match &best {
            None => true,
            Some(p) => c.qc.view > p.0.view,
        };
        if eligible && replaces {
            best = match c.next_epoch_qc {
                Some(n_qc) => Some((c.qc, n_qc)),
                None => best,  // unreachable: eligibility requires the twin
            };
        }
        i = i + 1;
    }
    proof {
        assert(candidates@.take(n as int) =~= candidates@);
    }
    best
}

/// Why a gathered set of inputs cannot become a proposal. Each variant
/// names the first rule that refused; the leader then proposes nothing
/// for the view.
#[derive(Clone, Copy, Debug, PartialEq, Eq)]
pub enum ProposalBuildError {
    /// The payload announcement is for another view.
    StalePayload,
    /// Epoch rules apply but the parent certificate has no block number.
    ParentQcWithoutBlockNumber,
    /// The parent closes in on the epoch's end, yet the payload is not
    /// empty.
    NonEmptyTransitionPayload,
    /// The parent certificate covers an epoch root but no corresponding
    /// state certificate is at hand.
    MissingStateCert,
    /// This node is not the leader for the view in the epoch the new
    /// block falls into.
    NotLeader,
    /// The parent certificate sits in the transition window but no
    /// next-epoch certificate was obtained.
    MissingNextEpochQc,
    /// The parent certificate does not reference the resolved parent
    /// leaf.
    ParentCommitMismatch,
}

/// What the proposal task knows about the view it proposes in.
#[derive(Clone, Copy, Debug, PartialEq, Eq)]
pub struct ProposalBuildContext {
    /// The view to propose for.
    pub view_number: u64,
    /// The protocol version in force at that view.
    pub version: u32,
    /// The view at which the epoch upgrade took effect, if it has.
    pub upgrade_view: Option<u64>,
    /// This node's signing key.
    pub signing_key: u64,
    /// This node's public key.
    pub public_key: u64,
    /// The membership's answer: is this node the leader for the view in
    /// the epoch the new block's height falls into?
    pub leader_for_target_epoch: bool,
    /// The decided upgrade certificate, if any.
    pub decided_upgrade_cert: Option<UpgradeCertificate>,
}

/// Whether epoch rules apply to the proposal under construction: the
/// version enables them and the view is not the upgrade view itself.
pub open spec fn spec_epoch_rules_apply(ctx: ProposalBuildContext) -> bool {
    ctx.version >= EPOCHS_VERSION && ctx.view_number != (match ctx.upgrade_view {
        Some(v) => v,
        None => 0,
    })
}

/// The upgrade certificate a proposal carries: the parent leaf's if it
/// has one, else the one this node formed, and in either case only while
/// still relevant — decidable in time, or already the decided one.
pub open spec fn spec_attached_upgrade_cert(
    parent_cert: Option<UpgradeCertificate>,
    formed: Option<UpgradeCertificate>,
    decided: Option<UpgradeCertificate>,
    view: u64,
) -> Option<UpgradeCertificate> {
    let candidate = match parent_cert {
        Some(c) => Some(c),
        None => formed,
    };
    match candidate {
        Some(c) => if c.decide_by >= view || decided == Some(c) {
            Some(c)
        } else {
            None
        },
        None => None,
    }
}

/// The view-change evidence a proposal carries: what was handed in, kept
/// only if valid for the proposal's view.
pub open spec fn spec_attached_evidence(
    evidence: Option<ViewChangeEvidence>,
    view: u64,
) -> Option<ViewChangeEvidence> {
    match evidence {
        Some(ev) => if ev.spec_is_valid_for_view(view) {
            Some(ev)
        } else {
            None
        },
        None => None,
    }
}

/// Whether the parent certificate's block lies in the transition window.
pub open spec fn spec_parent_in_transition(parent_qc: QuorumCertificate, eh: u64) -> bool {
    match parent_qc.block_number {
        Some(bn) => spec_is_epoch_transition(bn, eh),
        None => false,
    }
}

/// The first rule that refuses to turn the gathered inputs into a
/// proposal, or `None` when one can be built.
pub open spec fn spec_build_outcome(
    ctx: ProposalBuildContext,
    cm: CommitmentAndMetadata,
    parent_qc: QuorumCertificate,
    maybe_next_epoch_qc: Option<QuorumCertificate>,
    maybe_state_cert: Option<StateCert>,
    parent_leaf: Leaf,
    eh: u64,
) -> Option<ProposalBuildError> {
    let epochs_on = ctx.version >= EPOCHS_VERSION;
    let rules = spec_epoch_rules_apply(ctx);
    if cm.block_view != ctx.view_number {
        Some(ProposalBuildError::StalePayload)
    } else if rules && parent_qc.block_number is None {
        Some(ProposalBuildError::ParentQcWithoutBlockNumber)
    } else if rules && (match parent_qc.block_number {
        Some(bn) => spec_is_epoch_transition(bn, eh) && !spec_is_last_block(bn, eh),
        None => false,
    }) && !(cm.builder_commitment == crate::data::EMPTY_BUILDER_COMMITMENT && cm.metadata
        == crate::data::EMPTY_METADATA) {
        Some(ProposalBuildError::NonEmptyTransitionPayload)
    } else if rules && (match parent_qc.block_number {
        Some(bn) => spec_is_epoch_root(bn, eh),
        None => false,
    }) && !(match maybe_state_cert {
        Some(sc) => spec_qc_state_cert_correspond(parent_qc, sc, eh),
        None => false,
    }) {
        Some(ProposalBuildError::MissingStateCert)
    } else if !ctx.leader_for_target_epoch {
        Some(ProposalBuildError::NotLeader)
    } else if epochs_on && spec_parent_in_transition(parent_qc, eh) && maybe_next_epoch_qc is None {
        Some(ProposalBuildError::MissingNextEpochQc)
    } else if parent_qc.leaf_commit != parent_leaf.spec_commit() {
        Some(ProposalBuildError::ParentCommitMismatch)
    } else {
        None
    }
}

/// The proposal that the gathered inputs yield, once every rule in
/// [`spec_build_outcome`] has passed.
pub open spec fn spec_built_proposal(
    ctx: ProposalBuildContext,
    cm: CommitmentAndMetadata,
    evidence: Option<ViewChangeEvidence>,
    formed_upgrade_cert: Option<UpgradeCertificate>,
    parent_qc: QuorumCertificate,
    maybe_next_epoch_qc: Option<QuorumCertificate>,
    maybe_state_cert: Option<StateCert>,
    parent_leaf: Leaf,
    eh: u64,
    drb_results: Map<u64, u64>,
) -> QuorumProposal {
    let epochs_on = ctx.version >= EPOCHS_VERSION;
    let height = (parent_leaf.height + 1) as u64;
    let epoch = if epochs_on {
        Some(spec_epoch_of(height, eh))
    } else {
        None
    };
    let next_drb = if epochs_on && spec_is_epoch_transition(height, eh) && drb_results.contains_key(
        (spec_epoch_of(height, eh) + 1) as u64,
    ) {
        Some(drb_results[(spec_epoch_of(height, eh) + 1) as u64])
    } else {
        None
    };
    QuorumProposal {
        view_number: ctx.view_number,
        epoch,
        block_header: BlockHeader {
            block_number: height,
            payload_commitment: cm.payload_commitment,
            builder_commitment: cm.builder_commitment,
            metadata: cm.metadata,
        },
        justify_qc: parent_qc,
        next_epoch_justify_qc: if epochs_on && spec_parent_in_transition(parent_qc, eh) {
            maybe_next_epoch_qc
        } else {
            None
        },
        upgrade_certificate: spec_attached_upgrade_cert(
            parent_leaf.upgrade_certificate,
            formed_upgrade_cert,
            ctx.decided_upgrade_cert,
            ctx.view_number,
        ),
        view_change_evidence: spec_attached_evidence(evidence, ctx.view_number),
        next_drb_result: next_drb,
        state_cert: maybe_state_cert,
    }
}

/// Construct and sign the proposal for `ctx.view_number` from the
/// gathered inputs.
///
/// The result is `Ok` exactly when [`spec_build_outcome`] refuses
/// nothing, and then carries exactly [`spec_built_proposal`], signed by
/// this node over the proposed leaf's commitment. In particular a
/// proposal is only built in a view this node leads for the block's
/// epoch, a parent in the transition window forces an empty payload and
/// brings a next-epoch certificate, and a parent at an epoch root brings
/// a corresponding state certificate.
pub fn build_proposal(
    consensus: &ConsensusState,
    ctx: &ProposalBuildContext,
    commit_and_metadata: CommitmentAndMetadata,
    view_change_evidence: Option<ViewChangeEvidence>,
    formed_upgrade_certificate: Option<UpgradeCertificate>,
    parent_qc: QuorumCertificate,
    maybe_next_epoch_qc: Option<QuorumCertificate>,
    maybe_state_cert: Option<StateCert>,
    parent_leaf: &Leaf,
) -> (r: Result<SignedProposal, ProposalBuildError>)
    requires
        parent_leaf.height < u64::MAX,
    ensures
        ({
            let outcome = spec_build_outcome(
                *ctx,
                commit_and_metadata,
                parent_qc,
                maybe_next_epoch_qc,
                maybe_state_cert,
                *parent_leaf,
                consensus@.epoch_height,
            );
            match r {
                Ok(sp) => {
                    let data = spec_built_proposal(
                        *ctx,
                        commit_and_metadata,
                        view_change_evidence,
                        formed_upgrade_certificate,
                        parent_qc,
                        maybe_next_epoch_qc,
                        maybe_state_cert,
                        *parent_leaf,
                        consensus@.epoch_height,
                        consensus@.drb_results,
                    );
                    &&& outcome is None
                    &&& sp.data == data
                    &&& sp.sender == ctx.public_key
                    &&& sp.signature == spec_sign(
                        ctx.signing_key,
                        Leaf::spec_from_proposal(data).spec_commit(),
                    )
                    &&& sp.data.view_number == ctx.view_number
                },
                Err(e) => outcome == Some(e),
            }
        }),
{
    let eh = consensus.epoch_height();
    let epochs_on = ctx.version >= EPOCHS_VERSION;
    let upgrade_view = match ctx.upgrade_view {
        Some(v) => v,
        None => 0,
    };
    let rules = epochs_on && ctx.view_number != upgrade_view;

    if commit_and_metadata.block_view != ctx.view_number {
        return Err(ProposalBuildError::StalePayload);
    }
    if rules && parent_qc.block_number.is_none() {
        return Err(ProposalBuildError::ParentQcWithoutBlockNumber);
    }
    let parent_closing_epoch = match parent_qc.block_number {
        Some(bn) => is_epoch_transition(bn, eh) && !is_last_block(bn, eh),
        None => false,
    };
    if rules && parent_closing_epoch && !(commit_and_metadata.builder_commitment
        == crate::data::EMPTY_BUILDER_COMMITMENT && commit_and_metadata.metadata
        == crate::data::EMPTY_METADATA) {
        return Err(ProposalBuildError::NonEmptyTransitionPayload);
    }
    let parent_at_root = match parent_qc.block_number {
        Some(bn) => is_epoch_root(bn, eh),
        None => false,
    };
    if rules && parent_at_root {
        let cert_ok = match &maybe_state_cert {
            Some(sc) => check_qc_state_cert_correspondence(&parent_qc, sc, eh),
            None => false,
        };
        if !cert_ok {
            return Err(ProposalBuildError::MissingStateCert);
        }
    }
    if !ctx.leader_for_target_epoch {
        return Err(ProposalBuildError::NotLeader);
    }
    let parent_in_transition = match parent_qc.block_number {
        Some(bn) => is_epoch_transition(bn, eh),
        None => false,
    };
    if epochs_on && parent_in_transition && maybe_next_epoch_qc.is_none() {
        return Err(ProposalBuildError::MissingNextEpochQc);
    }

    let height = parent_leaf.height + 1;
    let epoch: Option<u64> = if epochs_on {
        Some(epoch_of(height, eh))
    } else {
        None
    };
    let next_drb_result: Option<u64> = if epochs_on && is_epoch_transition(height, eh) {
        let e = epoch_of(height, eh);
        proof {
            if eh > 0 && height > 0 {
                vstd::arithmetic::div_mod::lemma_div_is_ordered_by_denominator(
                    (height - 1) as int,
                    1,
                    eh as int,
                );
                vstd::arithmetic::div_mod::lemma_div_basics((height - 1) as int);
            }
        }
        consensus.drb_result(e + 1)
    } else {
        None
    };

    let proposal = QuorumProposal {
        view_number: ctx.view_number,
        epoch,
        block_header: BlockHeader {
            block_number: height,
            payload_commitment: commit_and_metadata.payload_commitment,
            builder_commitment: commit_and_metadata.builder_commitment,
            metadata: commit_and_metadata.metadata,
        },
        justify_qc: parent_qc,
        next_epoch_justify_qc: if epochs_on && parent_in_transition {
            maybe_next_epoch_qc
        } else {
            None
        },
        upgrade_certificate: {
            let candidate = match parent_leaf.upgrade_certificate {
                Some(c) => Some(c),
                None => formed_upgrade_certificate,
            };
            match candidate {
                Some(c) => {
                    let still_relevant = c.decide_by >= ctx.view_number || (match
                        &ctx.decided_upgrade_cert {
                        Some(d) => crate::data::upgrade_cert_eq(&c, d),
                        None => false,
                    });
                    if still_relevant {
                        Some(c)
                    } else {
                        None
                    }
                },
                None => None,
            }
        },
        view_change_evidence: match view_change_evidence {
            Some(ev) => if ev.is_valid_for_view(ctx.view_number) {
                Some(ev)
            } else {
                None
            },
            None => None,
        },
        next_drb_result,
        state_cert: maybe_state_cert,
    };

    let proposed_leaf = Leaf::from_proposal(&proposal);
    if parent_qc.leaf_commit != parent_leaf.commit() {
        return Err(ProposalBuildError::ParentCommitMismatch);
    }

    let signature = sign(ctx.signing_key, proposed_leaf.commit());
    Ok(SignedProposal { data: proposal, signature, sender: ctx.public_key })
}

/// Where the parent certificate of a new proposal comes from.
#[derive(Clone, Copy, Debug, PartialEq, Eq)]
pub enum ParentQcSource {
    /// The dependency events already carried a formed certificate:
    /// propose from it, with the state certificate that came with it.
    FromEvents,
    /// Before epochs the local high QC is the parent.
    LocalHighQc,
    /// Under epochs, view-change evidence asks for the transition
    /// certificate first.
    GatherTransition,
    /// Otherwise the highest certificate gathered from the peers is the
    /// parent.
    GatherHighest,
}

/// The parent-QC source rule: a certificate formed by the dependency
/// events wins; before epochs the local high QC serves; under epochs,
/// view-change evidence sends the gather to the transition certificate,
/// and otherwise to the peers' highest.
pub open spec fn spec_parent_qc_source(inputs: ProposalInputs, version: u32) -> ParentQcSource {
    if inputs.parent_qc is Some {
        ParentQcSource::FromEvents
    } else if version < EPOCHS_VERSION {
        ParentQcSource::LocalHighQc
    } else if inputs.view_sync_cert is Some || inputs.timeout_cert is Some {
        ParentQcSource::GatherTransition
    } else {
        ParentQcSource::GatherHighest
    }
}

/// Pick the parent certificate's source, as [`spec_parent_qc_source`]
/// states it.
pub fn choose_parent_qc_source(inputs: &ProposalInputs, version: u32) -> (r: ParentQcSource)
    ensures
        r == spec_parent_qc_source(*inputs, version),
{
    if inputs.parent_qc.is_some() {
        ParentQcSource::FromEvents
    } else if version < EPOCHS_VERSION {
        ParentQcSource::LocalHighQc
    } else if inputs.view_sync_cert.is_some() || inputs.timeout_cert.is_some() {
        ParentQcSource::GatherTransition
    } else {
        ParentQcSource::GatherHighest
    }
}

/// The epoch named by the view-change evidence that fired the handle: a
/// view-sync certificate's over a timeout certificate's.
pub open spec fn spec_evidence_epoch(inputs: ProposalInputs) -> Option<u64> {
    match inputs.view_sync_cert {
        Some(vs) => vs.epoch,
        None => match inputs.timeout_cert {
            Some(tc) => tc.epoch,
            None => None,
        },
    }
}

/// The epoch on the evidence, as [`spec_evidence_epoch`] states it.
pub fn evidence_epoch(inputs: &ProposalInputs) -> (r: Option<u64>)
    ensures
        r == spec_evidence_epoch(*inputs),
{
    match &inputs.view_sync_cert {
        Some(vs) => vs.epoch,
        None => match &inputs.timeout_cert {
            Some(tc) => tc.epoch,
            None => None,
        },
    }
}

/// How a transition-certificate gather resolves.
#[derive(Clone, Copy, Debug, PartialEq, Eq)]
pub enum TransitionGatherResolution {
    /// Propose from the gathered transition pair.
    UseTransition,
    /// Gather the highest certificate instead. `check_transition` says
    /// whether that certificate must still pass
    /// [`highest_qc_usable`] before proposing.
    GatherHighest { check_transition: bool },
    /// The evidence names no epoch: do not propose.
    NoEpochOnEvidence,
}

/// Resolve a transition-certificate gather: a gathered pair whose
/// block belongs to the evidence's epoch is proposed from; a pair from
/// another epoch falls back to the peers' highest with no further
/// check; an absent pair falls back too, but the highest certificate
/// must then not sit mid-transition; a gathered pair with no epoch on
/// the evidence stops the proposal.
pub open spec fn spec_resolve_transition_gather(
    gathered: Option<(QuorumCertificate, QuorumCertificate)>,
    evidence_epoch: Option<u64>,
    eh: u64,
) -> TransitionGatherResolution {
    match gathered {
        Some(pair) => match evidence_epoch {
            None => TransitionGatherResolution::NoEpochOnEvidence,
            Some(epoch) => if (match pair.0.block_number {
                Some(bn) => spec_epoch_of(bn, eh) == epoch,
                None => false,
            }) {
                TransitionGatherResolution::UseTransition
            } else {
                TransitionGatherResolution::GatherHighest { check_transition: false }
            },
        },
        None => TransitionGatherResolution::GatherHighest { check_transition: true },
    }
}

/// Resolve a transition-certificate gather, as
/// [`spec_resolve_transition_gather`] states it.
pub fn resolve_transition_gather(
    gathered: &Option<(QuorumCertificate, QuorumCertificate)>,
    evidence_epoch: Option<u64>,
    eh: u64,
) -> (r: TransitionGatherResolution)
    ensures
        r == spec_resolve_transition_gather(*gathered, evidence_epoch, eh),
{
    match gathered {
        Some(pair) => match evidence_epoch {
            None => TransitionGatherResolution::NoEpochOnEvidence,
            Some(epoch) => {
                let in_evidence_epoch = match pair.0.block_number {
                    Some(bn) => epoch_of(bn, eh) == epoch,
                    None => false,
                };
                if in_evidence_epoch {
                    TransitionGatherResolution::UseTransition
                } else {
                    TransitionGatherResolution::GatherHighest { check_transition: false }
                }
            },
        },
        None => TransitionGatherResolution::GatherHighest { check_transition: true },
    }
}

/// Whether a gathered highest certificate may serve as the parent when
/// view-change evidence demanded a transition certificate: one whose
/// block sits inside the transition window short of the last block is
/// refused.
pub open spec fn spec_highest_qc_usable(qc: QuorumCertificate, eh: u64) -> bool {
    !(match qc.block_number {
        Some(bn) => spec_is_epoch_transition(bn, eh) && !spec_is_last_block(bn, eh),
        None => false,
    })
}

/// Whether the gathered highest certificate may serve as the parent, as
/// [`spec_highest_qc_usable`] states it.
pub fn highest_qc_usable(qc: &QuorumCertificate, eh: u64) -> (r: bool)
    ensures
        r == spec_highest_qc_usable(*qc, eh),
{
    match qc.block_number {
        Some(bn) => !(is_epoch_transition(bn, eh) && !is_last_block(bn, eh)),
        None => true,
    }
}

} // verus!
