//! The data model of the consensus core.
//!
//! Commitments, public keys and signatures are carried as 64-bit model
//! values; a leaf's commitment is the digest of its canonical byte
//! encoding, so leaves reference their parents content-addressed, as the
//! safety rule demands. Whether an aggregate signature on a certificate
//! actually verifies under a stake table is decided by the node's crypto
//! layer outside this crate and handed to the pipeline as a verdict; every
//! rule about what a well-formed certificate must say is stated and proved
//! here.

use vstd::prelude::*;

use crate::digest::{digest64, digest64_of};

verus! {

/// Builder commitment of the empty block payload.
pub const EMPTY_BUILDER_COMMITMENT: u64 = 0;

/// Metadata of the empty block payload.
pub const EMPTY_METADATA: u64 = 0;

/// Protocol version in force before any upgrade.
pub const BASE_VERSION: u32 = 1;

/// Protocol version from which epochs are enabled.
pub const EPOCHS_VERSION: u32 = 4;

/// Protocol version from which the marketplace block header is used.
pub const MARKETPLACE_VERSION: u32 = 99;

/// A quorum certificate: an aggregate signature over
/// `(leaf_commit, view, epoch, block_number)` meeting the success
/// threshold of its epoch's stake table. The same data signed by the
/// *next* epoch's stake table is a next-epoch certificate; both sides of a
/// double quorum carry the same `QuorumCertificate` data.
#[derive(Clone, Copy, Debug, PartialEq, Eq)]
pub struct QuorumCertificate {
    /// Commitment of the leaf this certificate justifies.
    pub leaf_commit: u64,
    /// View in which the certified leaf was proposed.
    pub view: u64,
    /// Epoch of the certified leaf, `None` before epochs are enabled.
    pub epoch: Option<u64>,
    /// Block number of the certified leaf, `None` before epochs are enabled.
    pub block_number: Option<u64>,
}

/// A light-client state-update certificate: a Schnorr-aggregate signature
/// by the epoch's validators over the next epoch's stake-table commitment
/// and the block height of the epoch root.
#[derive(Clone, Copy, Debug, PartialEq, Eq)]
pub struct StateCert {
    /// The epoch whose root this certificate belongs to.
    pub epoch: u64,
    /// Height of the epoch-root block the signed state refers to.
    pub block_height: u64,
    /// Commitment of the next epoch's stake table.
    pub next_stake_table_commitment: u64,
}

/// An upgrade certificate: a quorum's agreement to switch to
/// `new_version`, void if not decided by view `decide_by`.
#[derive(Clone, Copy, Debug, PartialEq, Eq)]
pub struct UpgradeCertificate {
    /// View in which the certificate was formed.
    pub view: u64,
    /// Last view by which the upgrade must be decided to take effect.
    pub decide_by: u64,
    /// The protocol version the upgrade switches to.
    pub new_version: u32,
}

/// A timeout certificate for a failed view.
#[derive(Clone, Copy, Debug, PartialEq, Eq)]
pub struct TimeoutCertificate {
    /// The view that timed out.
    pub view: u64,
    /// Epoch in which the timeout was observed.
    pub epoch: Option<u64>,
}

/// A view-sync finalize certificate for skipping to a view.
#[derive(Clone, Copy, Debug, PartialEq, Eq)]
pub struct ViewSyncCertificate {
    /// The view the network synchronised on.
    pub view: u64,
    /// Epoch in which the view sync completed.
    pub epoch: Option<u64>,
}

/// Evidence that a view change was warranted: either the previous view
/// timed out or a view-sync round finalised this view.
#[derive(Clone, Copy, Debug, PartialEq, Eq)]
pub enum ViewChangeEvidence {
    /// A timeout certificate for the preceding view.
    Timeout(TimeoutCertificate),
    /// A view-sync certificate for this view.
    ViewSync(ViewSyncCertificate),
}

impl ViewChangeEvidence {
    /// Whether this evidence justifies proposing in view `view`: a timeout
    /// certificate must be for the view right before, a view-sync
    /// certificate for the view itself.
    pub open spec fn spec_is_valid_for_view(self, view: u64) -> bool {
        match self {
            ViewChangeEvidence::Timeout(tc) => view > 0 && tc.view == view - 1,
            ViewChangeEvidence::ViewSync(vs) => vs.view == view,
        }
    }

    /// Whether this evidence justifies proposing in view `view`, as
    /// [`Self::spec_is_valid_for_view`] states it.
    pub fn is_valid_for_view(&self, view: u64) -> (r: bool)
        ensures
            r == self.spec_is_valid_for_view(view),
    {
        match self {
            ViewChangeEvidence::Timeout(tc) => view > 0 && tc.view == view - 1,
            ViewChangeEvidence::ViewSync(vs) => vs.view == view,
        }
    }

    /// The epoch recorded on the evidence.
    pub fn epoch(&self) -> (e: Option<u64>)
        ensures
            e == self.spec_epoch(),
    {
        match self {
            ViewChangeEvidence::Timeout(tc) => tc.epoch,
            ViewChangeEvidence::ViewSync(vs) => vs.epoch,
        }
    }

    /// The epoch recorded on the evidence.
    pub open spec fn spec_epoch(self) -> Option<u64> {
        match self {
            ViewChangeEvidence::Timeout(tc) => tc.epoch,
            ViewChangeEvidence::ViewSync(vs) => vs.epoch,
        }
    }
}

/// The block header the core reads: everything else about a block is
/// opaque to consensus.
#[derive(Clone, Copy, Debug, PartialEq, Eq)]
pub struct BlockHeader {
    /// Block number, one more than the parent's.
    pub block_number: u64,
    /// VID commitment of the block payload.
    pub payload_commitment: u64,
    /// The builder's commitment to the payload.
    pub builder_commitment: u64,
    /// Payload metadata.
    pub metadata: u64,
}

impl BlockHeader {
    /// Whether the header commits to the empty payload.
    pub open spec fn spec_is_empty(self) -> bool {
        self.builder_commitment == EMPTY_BUILDER_COMMITMENT && self.metadata == EMPTY_METADATA
    }

    /// Whether the header commits to the empty payload, as
    /// [`Self::spec_is_empty`] states it.
    pub fn is_empty(&self) -> (r: bool)
        ensures
            r == self.spec_is_empty(),
    {
        self.builder_commitment == EMPTY_BUILDER_COMMITMENT && self.metadata == EMPTY_METADATA
    }
}

/// A quorum proposal as it travels on the wire: the new block header
/// joined with the justification for extending it.
#[derive(Clone, Copy, Debug, PartialEq, Eq)]
pub struct QuorumProposal {
    /// The view this proposal is made in.
    pub view_number: u64,
    /// Epoch of the proposed block, `None` before epochs are enabled.
    pub epoch: Option<u64>,
    /// Header of the proposed block.
    pub block_header: BlockHeader,
    /// The parent's quorum certificate.
    pub justify_qc: QuorumCertificate,
    /// The parent's next-epoch certificate, during an epoch transition.
    pub next_epoch_justify_qc: Option<QuorumCertificate>,
    /// An upgrade certificate to carry along, if one is relevant.
    pub upgrade_certificate: Option<UpgradeCertificate>,
    /// Evidence for a view change, when the parent QC is not from the
    /// immediately preceding view.
    pub view_change_evidence: Option<ViewChangeEvidence>,
    /// The DRB result for the next epoch, attached in the transition window.
    pub next_drb_result: Option<u64>,
    /// The state-update certificate, attached when the parent is an epoch
    /// root.
    pub state_cert: Option<StateCert>,
}

/// The durable per-view consensus record. A leaf exclusively owns its
/// header; its parent is referenced by commitment.
#[derive(Clone, Copy, Debug, PartialEq, Eq)]
pub struct Leaf {
    /// The view the leaf was proposed in.
    pub view: u64,
    /// Height of the leaf's block.
    pub height: u64,
    /// Commitment of the parent leaf.
    pub parent_commitment: u64,
    /// The quorum certificate justifying the parent.
    pub justify_qc: QuorumCertificate,
    /// The parent's next-epoch certificate, during an epoch transition.
    pub next_epoch_justify_qc: Option<QuorumCertificate>,
    /// Header of this leaf's block.
    pub block_header: BlockHeader,
    /// The upgrade certificate carried by the proposal, if any.
    pub upgrade_certificate: Option<UpgradeCertificate>,
    /// The view-change evidence carried by the proposal, if any.
    pub view_change_evidence: Option<ViewChangeEvidence>,
    /// The DRB result for the next epoch, if the leaf carries one.
    pub next_drb_result: Option<u64>,
    /// The state-update certificate, if the parent is an epoch root.
    pub state_cert: Option<StateCert>,
    /// Whether the leaf was proposed under epoch rules.
    pub with_epoch: bool,
}

impl Leaf {
    /// The leaf recorded by a proposal, as [`Self::spec_from_proposal`]
    /// states it. Its parent commitment is taken from the justify-QC, so
    /// the safety rule that a leaf's parent link equals the leaf its
    /// justify-QC references holds by construction.
    pub fn from_proposal(p: &QuorumProposal) -> (l: Leaf)
        ensures
            l == Leaf::spec_from_proposal(*p),
    {
        Leaf {
            view: p.view_number,
            height: p.block_header.block_number,
            parent_commitment: p.justify_qc.leaf_commit,
            justify_qc: p.justify_qc,
            next_epoch_justify_qc: p.next_epoch_justify_qc,
            block_header: p.block_header,
            upgrade_certificate: p.upgrade_certificate,
            view_change_evidence: p.view_change_evidence,
            next_drb_result: p.next_drb_result,
            state_cert: p.state_cert,
            with_epoch: p.epoch.is_some(),
        }
    }

    /// The leaf recorded by a proposal.
    pub open spec fn spec_from_proposal(p: QuorumProposal) -> Leaf {
        Leaf {
            view: p.view_number,
            height: p.block_header.block_number,
            parent_commitment: p.justify_qc.leaf_commit,
            justify_qc: p.justify_qc,
            next_epoch_justify_qc: p.next_epoch_justify_qc,
            block_header: p.block_header,
            upgrade_certificate: p.upgrade_certificate,
            view_change_evidence: p.view_change_evidence,
            next_drb_result: p.next_drb_result,
            state_cert: p.state_cert,
            with_epoch: p.epoch.is_some(),
        }
    }

    /// The leaf's content commitment: the digest of its canonical
    /// encoding.
    pub open spec fn spec_commit(self) -> u64 {
        digest64_of(spec_encode_leaf(self))
    }

    /// The leaf's content commitment, as [`Self::spec_commit`] states it.
    pub fn commit(&self) -> (c: u64)
        ensures
            c == self.spec_commit(),
    {
        let encoded = encode_leaf(self);
        digest64(&encoded)
    }
}

/// A quorum vote: the voter's signature over the leaf commitment, view,
/// epoch and block number.
#[derive(Clone, Copy, Debug, PartialEq, Eq)]
pub struct QuorumVote {
    /// Commitment of the leaf voted for.
    pub leaf_commit: u64,
    /// The view voted in.
    pub view: u64,
    /// Epoch the vote counts toward.
    pub epoch: Option<u64>,
    /// Block number of the leaf voted for, under epoch rules.
    pub block_number: Option<u64>,
    /// The voter's public key.
    pub signer: u64,
    /// The voter's signature over the leaf commitment.
    pub signature: u64,
}

/// The payload announcement a leader proposes from: the builder
/// pipeline's commitments and metadata for one view's block.
#[derive(Clone, Copy, Debug, PartialEq, Eq)]
pub struct CommitmentAndMetadata {
    /// VID commitment of the payload.
    pub payload_commitment: u64,
    /// The builder's commitment to the payload.
    pub builder_commitment: u64,
    /// Payload metadata.
    pub metadata: u64,
    /// The view the payload was built for.
    pub block_view: u64,
}

/// A data-availability certificate: the DA committee's aggregate
/// signature that the payload behind a commitment is available.
#[derive(Clone, Copy, Debug, PartialEq, Eq)]
pub struct DaCertificate {
    /// The view the certified payload was proposed in.
    pub view: u64,
    /// Epoch of the certifying committee.
    pub epoch: Option<u64>,
    /// Commitment of the available payload.
    pub payload_commit: u64,
    /// Commitment of the payload as dispersed to the next epoch, during a
    /// transition.
    pub next_epoch_payload_commit: Option<u64>,
}

/// One recipient's share of a dispersed payload.
#[derive(Clone, Copy, Debug, PartialEq, Eq)]
pub struct VidShare {
    /// The view the payload was proposed in.
    pub view: u64,
    /// Commitment of the dispersed payload.
    pub payload_commitment: u64,
    /// Public key of the share's recipient.
    pub recipient: u64,
    /// Epoch the share was dispersed in.
    pub epoch: Option<u64>,
    /// Epoch whose stake table the dispersal was weighted by.
    pub target_epoch: Option<u64>,
    /// Length of the full payload in bytes.
    pub payload_byte_len: u64,
}

/// A proposal together with the proposer's signature over the proposed
/// leaf's commitment.
#[derive(Clone, Copy, Debug, PartialEq, Eq)]
pub struct SignedProposal {
    /// The proposal data.
    pub data: QuorumProposal,
    /// Signature over the commitment of the proposed leaf.
    pub signature: u64,
    /// Public key of the proposer.
    pub sender: u64,
}

/// Exact comparison of two upgrade certificates.
pub fn upgrade_cert_eq(a: &UpgradeCertificate, b: &UpgradeCertificate) -> (r: bool)
    ensures
        r == (*a == *b),
{
    a.view == b.view && a.decide_by == b.decide_by && a.new_version == b.new_version
}

/// A model signature: the digest of the signing key joined with the
/// signed commitment.
pub open spec fn spec_sign(signing_key: u64, commitment: u64) -> u64 {
    digest64_of(
        vstd::bytes::spec_u64_to_le_bytes(signing_key) + vstd::bytes::spec_u64_to_le_bytes(
            commitment,
        ),
    )
}

/// Sign a commitment with a signing key, as [`spec_sign`] states it.
pub fn sign(signing_key: u64, commitment: u64) -> (s: u64)
    ensures
        s == spec_sign(signing_key, commitment),
{
    let mut buf: Vec<u8> = Vec::new();
    push_u64(&mut buf, signing_key);
    push_u64(&mut buf, commitment);
    digest64(&buf)
}

/// Canonical encoding of an optional 64-bit value: a presence byte, then
/// the value.
pub open spec fn spec_encode_opt_u64(o: Option<u64>) -> Seq<u8> {
    match o {
        None => seq![0u8],
        Some(x) => seq![1u8] + vstd::bytes::spec_u64_to_le_bytes(x),
    }
}

/// Canonical encoding of a quorum certificate.
pub open spec fn spec_encode_qc(qc: QuorumCertificate) -> Seq<u8> {
    vstd::bytes::spec_u64_to_le_bytes(qc.leaf_commit) + vstd::bytes::spec_u64_to_le_bytes(qc.view)
        + spec_encode_opt_u64(qc.epoch) + spec_encode_opt_u64(qc.block_number)
}

/// Canonical encoding of an optional quorum certificate.
pub open spec fn spec_encode_opt_qc(o: Option<QuorumCertificate>) -> Seq<u8> {
    match o {
        None => seq![0u8],
        Some(qc) => seq![1u8] + spec_encode_qc(qc),
    }
}

/// Canonical encoding of an optional upgrade certificate.
pub open spec fn spec_encode_opt_upgrade(o: Option<UpgradeCertificate>) -> Seq<u8> {
    match o {
        None => seq![0u8],
        Some(c) => seq![1u8] + vstd::bytes::spec_u64_to_le_bytes(c.view)
            + vstd::bytes::spec_u64_to_le_bytes(c.decide_by) + vstd::bytes::spec_u64_to_le_bytes(
            c.new_version as u64,
        ),
    }
}

/// Canonical encoding of optional view-change evidence.
pub open spec fn spec_encode_opt_evidence(o: Option<ViewChangeEvidence>) -> Seq<u8> {
    match o {
        None => seq![0u8],
        Some(ViewChangeEvidence::Timeout(tc)) => seq![1u8] + vstd::bytes::spec_u64_to_le_bytes(
            tc.view,
        ) + spec_encode_opt_u64(tc.epoch),
        Some(ViewChangeEvidence::ViewSync(vs)) => seq![2u8] + vstd::bytes::spec_u64_to_le_bytes(
            vs.view,
        ) + spec_encode_opt_u64(vs.epoch),
    }
}

/// Canonical encoding of an optional state-update certificate.
pub open spec fn spec_encode_opt_state_cert(o: Option<StateCert>) -> Seq<u8> {
    match o {
        None => seq![0u8],
        Some(c) => seq![1u8] + vstd::bytes::spec_u64_to_le_bytes(c.epoch)
            + vstd::bytes::spec_u64_to_le_bytes(c.block_height) + vstd::bytes::spec_u64_to_le_bytes(
            c.next_stake_table_commitment,
        ),
    }
}

/// Canonical encoding of a leaf: every field the consensus record carries,
/// in a fixed order.
pub open spec fn spec_encode_leaf(l: Leaf) -> Seq<u8> {
    vstd::bytes::spec_u64_to_le_bytes(l.view) + vstd::bytes::spec_u64_to_le_bytes(l.height)
        + vstd::bytes::spec_u64_to_le_bytes(l.parent_commitment) + spec_encode_qc(l.justify_qc)
        + spec_encode_opt_qc(l.next_epoch_justify_qc) + vstd::bytes::spec_u64_to_le_bytes(
        l.block_header.block_number,
    ) + vstd::bytes::spec_u64_to_le_bytes(l.block_header.payload_commitment)
        + vstd::bytes::spec_u64_to_le_bytes(l.block_header.builder_commitment)
        + vstd::bytes::spec_u64_to_le_bytes(l.block_header.metadata) + spec_encode_opt_upgrade(
        l.upgrade_certificate,
    ) + spec_encode_opt_evidence(l.view_change_evidence) + spec_encode_opt_u64(l.next_drb_result)
        + spec_encode_opt_state_cert(l.state_cert) + seq![(if l.with_epoch {
        1u8
    } else {
        0u8
    })]
}

/// Canonical encoding of a block header.
pub open spec fn spec_encode_header(h: BlockHeader) -> Seq<u8> {
    vstd::bytes::spec_u64_to_le_bytes(h.block_number) + vstd::bytes::spec_u64_to_le_bytes(
        h.payload_commitment,
    ) + vstd::bytes::spec_u64_to_le_bytes(h.builder_commitment) + vstd::bytes::spec_u64_to_le_bytes(
        h.metadata,
    )
}

/// Commitment of the validated state derived from a header alone, used
/// when a parent's state must be reconstructed without replaying it.
pub open spec fn spec_state_commitment(h: BlockHeader) -> u64 {
    digest64_of(spec_encode_header(h))
}

/// The state commitment derived from a header, as
/// [`spec_state_commitment`] states it.
pub fn state_commitment_from_header(h: &BlockHeader) -> (r: u64)
    ensures
        r == spec_state_commitment(*h),
{
    let mut buf: Vec<u8> = Vec::new();
    push_u64(&mut buf, h.block_number);
    push_u64(&mut buf, h.payload_commitment);
    push_u64(&mut buf, h.builder_commitment);
    push_u64(&mut buf, h.metadata);
    assert(buf@ =~= spec_encode_header(*h));
    digest64(&buf)
}

/// Append the little-endian encoding of `x` to `buf`.
pub(crate) fn push_u64(buf: &mut Vec<u8>, x: u64)
    ensures
        final(buf)@ == old(buf)@ + vstd::bytes::spec_u64_to_le_bytes(x),
{
    let mut bytes = vstd::bytes::u64_to_le_bytes(x);
    buf.append(&mut bytes);
}

/// Append the encoding of an optional value to `buf`.
fn push_opt_u64(buf: &mut Vec<u8>, o: &Option<u64>)
    ensures
        final(buf)@ == old(buf)@ + spec_encode_opt_u64(*o),
{
    match o {
        None => buf.push(0u8),
        Some(x) => {
            buf.push(1u8);
            push_u64(buf, *x);
        },
    }
    assert(buf@ =~= old(buf)@ + spec_encode_opt_u64(*o));
}

/// Append the encoding of a quorum certificate to `buf`.
fn push_qc(buf: &mut Vec<u8>, qc: &QuorumCertificate)
    ensures
        final(buf)@ == old(buf)@ + spec_encode_qc(*qc),
{
    push_u64(buf, qc.leaf_commit);
    push_u64(buf, qc.view);
    push_opt_u64(buf, &qc.epoch);
    push_opt_u64(buf, &qc.block_number);
    assert(buf@ =~= old(buf)@ + spec_encode_qc(*qc));
}

/// Append the encoding of an optional quorum certificate to `buf`.
fn push_opt_qc(buf: &mut Vec<u8>, o: &Option<QuorumCertificate>)
    ensures
        final(buf)@ == old(buf)@ + spec_encode_opt_qc(*o),
{
    match o {
        None => buf.push(0u8),
        Some(qc) => {
            buf.push(1u8);
            push_qc(buf, qc);
        },
    }
    assert(buf@ =~= old(buf)@ + spec_encode_opt_qc(*o));
}

/// Append the encoding of an optional upgrade certificate to `buf`.
fn push_opt_upgrade(buf: &mut Vec<u8>, o: &Option<UpgradeCertificate>)
    ensures
        final(buf)@ == old(buf)@ + spec_encode_opt_upgrade(*o),
{
    match o {
        None => buf.push(0u8),
        Some(c) => {
            buf.push(1u8);
            push_u64(buf, c.view);
            push_u64(buf, c.decide_by);
            push_u64(buf, c.new_version as u64);
        },
    }
    assert(buf@ =~= old(buf)@ + spec_encode_opt_upgrade(*o));
}

/// Append the encoding of optional view-change evidence to `buf`.
fn push_opt_evidence(buf: &mut Vec<u8>, o: &Option<ViewChangeEvidence>)
    ensures
        final(buf)@ == old(buf)@ + spec_encode_opt_evidence(*o),
{
    match o {
        None => buf.push(0u8),
        Some(ViewChangeEvidence::Timeout(tc)) => {
            buf.push(1u8);
            push_u64(buf, tc.view);
            push_opt_u64(buf, &tc.epoch);
        },
        Some(ViewChangeEvidence::ViewSync(vs)) => {
            buf.push(2u8);
            push_u64(buf, vs.view);
            push_opt_u64(buf, &vs.epoch);
        },
    }
    assert(buf@ =~= old(buf)@ + spec_encode_opt_evidence(*o));
}

/// Append the encoding of an optional state certificate to `buf`.
fn push_opt_state_cert(buf: &mut Vec<u8>, o: &Option<StateCert>)
    ensures
        final(buf)@ == old(buf)@ + spec_encode_opt_state_cert(*o),
{
    match o {
        None => buf.push(0u8),
        Some(c) => {
            buf.push(1u8);
            push_u64(buf, c.epoch);
            push_u64(buf, c.block_height);
            push_u64(buf, c.next_stake_table_commitment);
        },
    }
    assert(buf@ =~= old(buf)@ + spec_encode_opt_state_cert(*o));
}

/// The canonical encoding of a leaf, as [`spec_encode_leaf`] states it.
pub fn encode_leaf(l: &Leaf) -> (r: Vec<u8>)
    ensures
        r@ == spec_encode_leaf(*l),
{
    let mut buf: Vec<u8> = Vec::new();
    push_u64(&mut buf, l.view);
    push_u64(&mut buf, l.height);
    push_u64(&mut buf, l.parent_commitment);
    push_qc(&mut buf, &l.justify_qc);
    push_opt_qc(&mut buf, &l.next_epoch_justify_qc);
    push_u64(&mut buf, l.block_header.block_number);
    push_u64(&mut buf, l.block_header.payload_commitment);
    push_u64(&mut buf, l.block_header.builder_commitment);
    push_u64(&mut buf, l.block_header.metadata);
    push_opt_upgrade(&mut buf, &l.upgrade_certificate);
    push_opt_evidence(&mut buf, &l.view_change_evidence);
    push_opt_u64(&mut buf, &l.next_drb_result);
    push_opt_state_cert(&mut buf, &l.state_cert);
    buf.push(if l.with_epoch {
        1u8
    } else {
        0u8
    });
    assert(buf@ =~= spec_encode_leaf(*l));
    buf
}

} // verus!
