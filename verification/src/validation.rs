//! Certificate validation rules shared by the proposal and receive
//! pipelines.
//!
//! Whether an aggregate signature verifies under the right stake table is
//! the crypto layer's business and arrives here as a verdict; everything
//! else about a certificate — which block it may certify, what must
//! accompany it, how a next-epoch certificate has to mirror its current
//! epoch twin — is stated and checked here.

use vstd::prelude::*;

use crate::data::{QuorumCertificate, StateCert};
use crate::epoch::{
    epoch_of, is_epoch_root, is_epoch_transition, spec_epoch_of, spec_is_epoch_root,
    spec_is_epoch_transition,
};

verus! {

/// Whether a state-update certificate belongs to a quorum certificate: it
/// must speak of the very block the QC certifies, and of that block's
/// epoch.
pub open spec fn spec_qc_state_cert_correspond(
    qc: QuorumCertificate,
    cert: StateCert,
    epoch_height: u64,
) -> bool {
    &&& qc.block_number == Some(cert.block_height)
    &&& cert.epoch == spec_epoch_of(cert.block_height, epoch_height)
}

/// Whether `cert` corresponds to `qc`, as
/// [`spec_qc_state_cert_correspond`] states it.
pub fn check_qc_state_cert_correspondence(
    qc: &QuorumCertificate,
    cert: &StateCert,
    epoch_height: u64,
) -> (r: bool)
    ensures
        r == spec_qc_state_cert_correspond(*qc, *cert, epoch_height),
{
    let block_matches = match qc.block_number {
        Some(bn) => bn == cert.block_height,
        None => false,
    };
    block_matches && cert.epoch == epoch_of(cert.block_height, epoch_height)
}

/// Whether a next-epoch certificate carries the same data as its current
/// epoch twin: across an epoch boundary both quorums certify one and the
/// same leaf.
pub open spec fn spec_next_epoch_qc_matches(
    qc: QuorumCertificate,
    next: QuorumCertificate,
) -> bool {
    &&& next.leaf_commit == qc.leaf_commit
    &&& next.view == qc.view
    &&& next.block_number == qc.block_number
}

/// Whether `next` mirrors `qc`, as [`spec_next_epoch_qc_matches`] states
/// it.
pub fn next_epoch_qc_matches(qc: &QuorumCertificate, next: &QuorumCertificate) -> (r: bool)
    ensures
        r == spec_next_epoch_qc_matches(*qc, *next),
{
    let blocks_match = match (qc.block_number, next.block_number) {
        (Some(a), Some(b)) => a == b,
        (None, None) => true,
        _ => false,
    };
    next.leaf_commit == qc.leaf_commit && next.view == qc.view && blocks_match
}

/// Why a quorum certificate, or the pair it must form with a next-epoch
/// certificate, was refused.
#[derive(Clone, Copy, Debug, PartialEq, Eq)]
pub enum QcValidationError {
    /// The certificate's aggregate signature does not verify under its
    /// epoch's stake table.
    InvalidSignature,
    /// The certificate covers a transition block but no next-epoch
    /// certificate came with it.
    MissingNextEpochQc,
    /// The next-epoch certificate does not certify the same leaf.
    NextEpochQcMismatch,
    /// The next-epoch certificate's signature does not verify under the
    /// next epoch's stake table.
    InvalidNextEpochSignature,
}

/// The rule for accepting a quorum certificate with its optional
/// next-epoch twin: the QC's signature must verify, and while its block
/// is in the transition window a matching, verifying next-epoch
/// certificate must accompany it. The first broken rule is returned.
pub open spec fn spec_validate_qc_pair(
    qc: QuorumCertificate,
    next: Option<QuorumCertificate>,
    qc_sig_valid: bool,
    next_sig_valid: bool,
    epochs_enabled: bool,
    epoch_height: u64,
) -> Option<QcValidationError> {
    if !qc_sig_valid {
        Some(QcValidationError::InvalidSignature)
    } else if epochs_enabled && (match qc.block_number {
        Some(bn) => spec_is_epoch_transition(bn, epoch_height),
        None => false,
    }) {
        match next {
            None => Some(QcValidationError::MissingNextEpochQc),
            Some(n) => if !spec_next_epoch_qc_matches(qc, n) {
                Some(QcValidationError::NextEpochQcMismatch)
            } else if !next_sig_valid {
                Some(QcValidationError::InvalidNextEpochSignature)
            } else {
                None
            },
        }
    } else {
        None
    }
}

/// Accept or refuse a certificate pair, as [`spec_validate_qc_pair`]
/// states it. `qc_sig_valid` and `next_sig_valid` are the crypto layer's
/// verdicts on the two aggregate signatures.
pub fn validate_qc_pair(
    qc: &QuorumCertificate,
    next: &Option<QuorumCertificate>,
    qc_sig_valid: bool,
    next_sig_valid: bool,
    epochs_enabled: bool,
    epoch_height: u64,
) -> (r: Result<(), QcValidationError>)
    ensures
        match r {
            Ok(()) => spec_validate_qc_pair(
                *qc,
                *next,
                qc_sig_valid,
                next_sig_valid,
                epochs_enabled,
                epoch_height,
            ) is None,
            Err(e) => spec_validate_qc_pair(
                *qc,
                *next,
                qc_sig_valid,
                next_sig_valid,
                epochs_enabled,
                epoch_height,
            ) == Some(e),
        },
{
    if !qc_sig_valid {
        return Err(QcValidationError::InvalidSignature);
    }
    let in_transition = match qc.block_number {
        Some(bn) => is_epoch_transition(bn, epoch_height),
        None => false,
    };
    if epochs_enabled && in_transition {
        match next {
            None => Err(QcValidationError::MissingNextEpochQc),
            Some(n) => {
                if !next_epoch_qc_matches(qc, n) {
                    Err(QcValidationError::NextEpochQcMismatch)
                } else if !next_sig_valid {
                    Err(QcValidationError::InvalidNextEpochSignature)
                } else {
                    Ok(())
                }
            },
        }
    } else {
        Ok(())
    }
}

/// The rule for accepting an epoch-root state certificate next to a
/// quorum certificate whose block is an epoch root: the certificate must
/// be present, correspond to the QC, and its aggregate Schnorr signature
/// must verify. Away from an epoch root nothing is required.
pub open spec fn spec_epoch_root_state_cert_ok(
    qc: QuorumCertificate,
    cert: Option<StateCert>,
    cert_sig_valid: bool,
    epoch_height: u64,
) -> bool {
    (match qc.block_number {
        Some(bn) => spec_is_epoch_root(bn, epoch_height),
        None => false,
    }) ==> match cert {
        Some(c) => spec_qc_state_cert_correspond(qc, c, epoch_height) && cert_sig_valid,
        None => false,
    }
}

/// Check an epoch-root QC's state certificate, as
/// [`spec_epoch_root_state_cert_ok`] states it.
pub fn epoch_root_state_cert_ok(
    qc: &QuorumCertificate,
    cert: &Option<StateCert>,
    cert_sig_valid: bool,
    epoch_height: u64,
) -> (r: bool)
    ensures
        r == spec_epoch_root_state_cert_ok(*qc, *cert, cert_sig_valid, epoch_height),
{
    let at_root = match qc.block_number {
        Some(bn) => is_epoch_root(bn, epoch_height),
        None => false,
    };
    if !at_root {
        true
    } else {
        match cert {
            Some(c) => check_qc_state_cert_correspondence(qc, c, epoch_height) && cert_sig_valid,
            None => false,
        }
    }
}

} // verus!
