//! The vote task: joining dependencies, deciding, and voting once.
//!
//! The task validates inbound DA certificates and VID shares, opens one
//! vote dependency per view, and on a validated proposal applies the
//! decide rule, installs or stages decided upgrade certificates, and
//! advances the locked and decided views — the lock never moving
//! backwards. The watermark of the latest voted view keeps the replica
//! at no more than one vote per view.

use vstd::prelude::*;

use crate::consensus::{ConsensusSnapshot, ConsensusState};
use crate::data::{DaCertificate, Leaf, QuorumCertificate, QuorumProposal, UpgradeCertificate, VidShare, EPOCHS_VERSION};
use crate::decide::{decide_from_proposal, spec_first_upgrade_cert, DecideOutcome};
use crate::epoch::{epoch_of, is_last_block, spec_epoch_of, spec_is_last_block};
use crate::vmap::VMap;
use crate::vote::{verify_drb_result, spec_verify_drb_outcome, VoteError};

verus! {

/// Mathematical snapshot of the vote task's bookkeeping.
pub struct VoteTaskSnapshot {
    /// Latest view this node has voted for.
    pub latest_voted_view: u64,
    /// Views with a live vote dependency handle.
    pub tasks: Map<u64, bool>,
    /// An upgrade certificate that enables epochs, staged until the
    /// configured block height is reached.
    pub staged_epoch_upgrade_certificate: Option<UpgradeCertificate>,
    /// Block height at which a staged epoch upgrade takes effect.
    pub epoch_upgrade_block_height: u64,
}

/// The vote task's own state.
pub struct VoteTaskState {
    latest_voted_view: u64,
    tasks: VMap<bool>,
    staged_epoch_upgrade_certificate: Option<UpgradeCertificate>,
    epoch_upgrade_block_height: u64,
}

/// Why an inbound DA certificate or VID share was refused.
#[derive(Clone, Copy, Debug, PartialEq, Eq)]
pub enum VoteHandleError {
    /// The view has already been voted.
    StaleView,
    /// The DA certificate fails its committee threshold.
    InvalidDaCert,
    /// The share's signature over the payload commitment is invalid.
    InvalidVidSignature,
    /// The sender is neither a DA member nor the view's leader.
    NotDaMemberOrLeader,
    /// The share fails verification against the payload commitment.
    InvalidShare,
    /// The share is addressed to another node.
    NotOurShare,
}

/// The DRB results map after scanning a decided chain front to back
/// and recording, for each decided last block that carries a DRB
/// result, that result under the following epoch.
pub open spec fn spec_record_chain_drbs(m: Map<u64, u64>, chain: Seq<Leaf>, eh: u64) -> Map<
    u64,
    u64,
>
    decreases chain.len(),
{
    if chain.len() == 0 {
        m
    } else {
        let m1 = spec_record_chain_drbs(m, chain.drop_last(), eh);
        let leaf = chain.last();
        if spec_is_last_block(leaf.height, eh) && leaf.next_drb_result is Some {
            m1.insert((spec_epoch_of(leaf.height, eh) + 1) as u64, leaf.next_drb_result->Some_0)
        } else {
            m1
        }
    }
}

/// What a handled, validated proposal asks the runtime to do.
pub struct DecideActions {
    /// Emit a `Decide` event: the decided view, the decided leaf chain
    /// (newest first) and the certificate that sealed it.
    pub decide_view: Option<u64>,
    /// The decided leaf chain, newest first; empty without a decide.
    pub leaf_chain: Vec<Leaf>,
    /// The certificate that sealed the decide.
    pub decide_qc: Option<QuorumCertificate>,
    /// Persist this newly decided upgrade certificate.
    pub store_decided_upgrade_cert: Option<UpgradeCertificate>,
    /// Tell the membership to set its first epoch to this epoch, with
    /// the initial DRB result.
    pub set_first_epoch: Option<u64>,
}

impl VoteTaskState {
    /// The mathematical snapshot of this state.
    pub closed spec fn view(&self) -> VoteTaskSnapshot {
        VoteTaskSnapshot {
            latest_voted_view: self.latest_voted_view,
            tasks: self.tasks@,
            staged_epoch_upgrade_certificate: self.staged_epoch_upgrade_certificate,
            epoch_upgrade_block_height: self.epoch_upgrade_block_height,
        }
    }

    /// A fresh task state with the configured upgrade block height.
    pub fn new(epoch_upgrade_block_height: u64) -> (s: Self)
        ensures
            s@.latest_voted_view == 0,
            s@.tasks == Map::<u64, bool>::empty(),
            s@.staged_epoch_upgrade_certificate is None,
            s@.epoch_upgrade_block_height == epoch_upgrade_block_height,
    {
        VoteTaskState {
            latest_voted_view: 0,
            tasks: VMap::new(),
            staged_epoch_upgrade_certificate: None,
            epoch_upgrade_block_height,
        }
    }

    /// The latest voted view.
    pub fn latest_voted_view(&self) -> (v: u64)
        ensures
            v == self@.latest_voted_view,
    {
        self.latest_voted_view
    }

    /// Raise the latest voted view to `new_view`, cancelling the vote
    /// dependencies of the views the watermark passes over. It never
    /// moves backwards; `true` says it moved.
    pub fn update_latest_voted_view(&mut self, new_view: u64) -> (r: bool)
        ensures
            r == (old(self)@.latest_voted_view < new_view),
            !r ==> final(self)@ == old(self)@,
            r ==> final(self)@.latest_voted_view == new_view,
            r ==> forall|k: u64|
                #[trigger] final(self)@.tasks.contains_key(k) <==> (old(self)@.tasks.contains_key(k)
                    && !(old(self)@.latest_voted_view <= k < new_view)),
            final(self)@.staged_epoch_upgrade_certificate == old(
                self,
            )@.staged_epoch_upgrade_certificate,
            final(self)@.epoch_upgrade_block_height == old(self)@.epoch_upgrade_block_height,
            final(self)@.latest_voted_view >= old(self)@.latest_voted_view,
    {
        if self.latest_voted_view >= new_view {
            return false;
        }
        let ghost t0 = self.tasks@;
        let ghost base = self.latest_voted_view;
        let mut v: u64 = self.latest_voted_view;
        while v < new_view
            invariant
                base <= v <= new_view,
                self.latest_voted_view == base,
                self.staged_epoch_upgrade_certificate == old(
                    self,
                ).staged_epoch_upgrade_certificate,
                self.epoch_upgrade_block_height == old(self).epoch_upgrade_block_height,
                forall|k: u64|
                    #[trigger] self.tasks@.contains_key(k) <==> (t0.contains_key(k) && !(base <= k
                        < v)),
            decreases new_view - v,
        {
            self.tasks.remove(v);
            v = v + 1;
        }
        self.latest_voted_view = new_view;
        true
    }

    /// Cancel every vote dependency for a view below `keep_view`.
    pub fn cancel_tasks(&mut self, keep_view: u64)
        ensures
            forall|k: u64|
                #[trigger] final(self)@.tasks.contains_key(k) <==> (old(self)@.tasks.contains_key(k)
                    && k >= keep_view),
            final(self)@.latest_voted_view == old(self)@.latest_voted_view,
            final(self)@.staged_epoch_upgrade_certificate == old(
                self,
            )@.staged_epoch_upgrade_certificate,
            final(self)@.epoch_upgrade_block_height == old(self)@.epoch_upgrade_block_height,
    {
        self.tasks.retain_at_least(keep_view);
    }

    /// Open a vote dependency for `view_number` unless one exists;
    /// `true` says it was opened.
    pub fn create_dependency_task_if_new(&mut self, view_number: u64) -> (r: bool)
        ensures
            r == !old(self)@.tasks.contains_key(view_number),
            final(self)@.tasks == old(self)@.tasks.insert(view_number, true),
            final(self)@.latest_voted_view == old(self)@.latest_voted_view,
            final(self)@.staged_epoch_upgrade_certificate == old(
                self,
            )@.staged_epoch_upgrade_certificate,
            final(self)@.epoch_upgrade_block_height == old(self)@.epoch_upgrade_block_height,
    {
        let fresh = !self.tasks.contains_key(view_number);
        self.tasks.insert(view_number, true);
        fresh
    }

    /// Handle an inbound DA certificate: refuse one for an already voted
    /// view or one that fails its committee threshold (the crypto
    /// layer's verdict); record an accepted certificate for its view and
    /// open the view's vote dependency. `Ok(true)` says a fresh
    /// dependency was opened.
    pub fn handle_da_certificate_recv(
        &mut self,
        consensus: &mut ConsensusState,
        cert: &DaCertificate,
        da_cert_sig_valid: bool,
    ) -> (r: Result<bool, VoteHandleError>)
        ensures
            cert.view <= old(self)@.latest_voted_view ==> r == Err::<bool, VoteHandleError>(
                VoteHandleError::StaleView,
            ),
            cert.view > old(self)@.latest_voted_view && !da_cert_sig_valid ==> r == Err::<
                bool,
                VoteHandleError,
            >(VoteHandleError::InvalidDaCert),
            r is Err ==> final(self)@ == old(self)@ && final(consensus)@ == old(consensus)@,
            (r is Ok <==> cert.view > old(self)@.latest_voted_view && da_cert_sig_valid),
            r is Ok ==> final(consensus)@ == (crate::consensus::ConsensusSnapshot {
                da_certs: old(consensus)@.da_certs.insert(cert.view, *cert),
                ..old(consensus)@
            }) && final(self)@ == (VoteTaskSnapshot {
                tasks: old(self)@.tasks.insert(cert.view, true),
                ..old(self)@
            }) && r == Ok::<bool, VoteHandleError>(!old(self)@.tasks.contains_key(cert.view)),
    {
        if cert.view <= self.latest_voted_view {
            return Err(VoteHandleError::StaleView);
        }
        if !da_cert_sig_valid {
            return Err(VoteHandleError::InvalidDaCert);
        }
        consensus.update_saved_da_cert(cert.view, *cert);
        Ok(self.create_dependency_task_if_new(cert.view))
    }

    /// Handle an inbound VID share: refuse one for an already voted
    /// view, with a bad signature over the payload commitment, from a
    /// sender that is neither a DA member nor the view's leader, or one
    /// that fails share verification; a valid share is recorded — and
    /// only counted toward a vote if this node is its recipient. The
    /// verdicts are the crypto layer's. `Ok(true)` says a fresh vote
    /// dependency was opened.
    pub fn handle_vid_share_recv(
        &mut self,
        consensus: &mut ConsensusState,
        share: &VidShare,
        signature_valid: bool,
        sender_is_da_member: bool,
        sender_is_leader: bool,
        share_valid: bool,
        our_key: u64,
    ) -> (r: Result<bool, VoteHandleError>)
        ensures
            ({
                let outcome = if share.view <= old(self)@.latest_voted_view {
                    Some(VoteHandleError::StaleView)
                } else if !signature_valid {
                    Some(VoteHandleError::InvalidVidSignature)
                } else if !sender_is_da_member && !sender_is_leader {
                    Some(VoteHandleError::NotDaMemberOrLeader)
                } else if !share_valid {
                    Some(VoteHandleError::InvalidShare)
                } else if share.recipient != our_key {
                    Some(VoteHandleError::NotOurShare)
                } else {
                    None
                };
                &&& (r is Ok <==> outcome is None)
                &&& (match r {
                    Ok(fresh) => fresh == !old(self)@.tasks.contains_key(share.view),
                    Err(e) => outcome == Some(e),
                })
                &&& (r is Ok ==> final(consensus)@ == (crate::consensus::ConsensusSnapshot {
                    vid_shares: old(consensus)@.vid_shares.insert(share.view, *share),
                    ..old(consensus)@
                }) && final(self)@ == (VoteTaskSnapshot {
                    tasks: old(self)@.tasks.insert(share.view, true),
                    ..old(self)@
                }))
                &&& (r == Err::<bool, VoteHandleError>(VoteHandleError::NotOurShare)
                    ==> final(consensus)@ == (crate::consensus::ConsensusSnapshot {
                    vid_shares: old(consensus)@.vid_shares.insert(share.view, *share),
                    ..old(consensus)@
                }) && final(self)@ == old(self)@)
                &&& (r is Err && r != Err::<bool, VoteHandleError>(VoteHandleError::NotOurShare)
                    ==> final(consensus)@ == old(consensus)@ && final(self)@ == old(self)@)
            }),
    {
        if share.view <= self.latest_voted_view {
            return Err(VoteHandleError::StaleView);
        }
        if !signature_valid {
            return Err(VoteHandleError::InvalidVidSignature);
        }
        if !sender_is_da_member && !sender_is_leader {
            return Err(VoteHandleError::NotDaMemberOrLeader);
        }
        if !share_valid {
            return Err(VoteHandleError::InvalidShare);
        }
        consensus.update_vid_share(share.view, *share);
        if share.recipient != our_key {
            return Err(VoteHandleError::NotOurShare);
        }
        Ok(self.create_dependency_task_if_new(share.view))
    }
    /// Handle a validated proposal: verify its DRB result, apply the
    /// decide rule, stage or install decided upgrade certificates, and
    /// advance the locked and decided views.
    ///
    /// The call succeeds exactly when the version predates epochs or
    /// the proposal's DRB verdict is clean; a failure changes nothing
    /// and returns the verdict. On success the decide rule's
    /// conclusions hold: a `Decide` fires exactly when the justified
    /// parent closes a two-chain above the last decided view, the
    /// decided view is then the grandparent's, the chain walks the
    /// saved-leaf store newest first linked by parent commitments, the
    /// lock moves to the justify view exactly when that is ahead,
    /// per-view bookkeeping below the decided view is dropped, DRB
    /// results carried by decided last blocks are recorded for the
    /// following epoch, and the upgrade certificate staging, install
    /// and first-epoch effects are pinned.
    pub fn handle_quorum_proposal_validated(
        &mut self,
        consensus: &mut ConsensusState,
        decided_upgrade_cert: &mut Option<UpgradeCertificate>,
        proposal: &QuorumProposal,
        version: u32,
        epochs_enabled: bool,
        has_stake: bool,
    ) -> (r: Result<DecideActions, VoteError>)
        requires
            proposal.block_header.block_number < u64::MAX,
        ensures
            final(consensus)@.high_qc == old(consensus)@.high_qc,
            final(consensus)@.next_epoch_high_qc == old(consensus)@.next_epoch_high_qc,
            final(consensus)@.state_cert == old(consensus)@.state_cert,
            final(consensus)@.transition_qc == old(consensus)@.transition_qc,
            final(consensus)@.highest_block == old(consensus)@.highest_block,
            final(consensus)@.epoch_height == old(consensus)@.epoch_height,
            final(consensus)@.saved_leaves == old(consensus)@.saved_leaves,
            final(consensus)@.locked_view >= old(consensus)@.locked_view,
            final(consensus)@.last_decided_view >= old(consensus)@.last_decided_view,
            final(self)@.latest_voted_view == old(self)@.latest_voted_view,
            final(self)@.tasks == old(self)@.tasks,
            final(self)@.epoch_upgrade_block_height == old(self)@.epoch_upgrade_block_height,
            (r is Err <==> version >= EPOCHS_VERSION && spec_verify_drb_outcome(
                *proposal,
                old(consensus)@,
                epochs_enabled,
                has_stake,
            ) is Some),
            r is Err ==> r->Err_0 == spec_verify_drb_outcome(
                *proposal,
                old(consensus)@,
                epochs_enabled,
                has_stake,
            )->Some_0 && final(consensus)@ == old(consensus)@ && final(self)@ == old(self)@
                && *final(decided_upgrade_cert) == *old(decided_upgrade_cert),
            (match r {
                Ok(actions) => ({
                    let snap = old(consensus)@;
                    let chain = actions.leaf_chain@;
                    let parent_found = snap.saved_leaves.contains_key(
                        proposal.justify_qc.leaf_commit,
                    );
                    let parent = snap.saved_leaves[proposal.justify_qc.leaf_commit];
                    let two_chain = parent_found && parent.view == parent.justify_qc.view + 1
                        && snap.saved_leaves.contains_key(parent.parent_commitment);
                    let gp = snap.saved_leaves[parent.parent_commitment];
                    let fires = two_chain && gp.view > snap.last_decided_view;
                    let newly = spec_first_upgrade_cert(chain);
                    let staged0 = old(self)@.staged_epoch_upgrade_certificate;
                    let install = staged0 is Some && chain.len() > 0 && chain[0].height >= old(
                        self,
                    )@.epoch_upgrade_block_height;
                    let staged1 = if install {
                        None::<UpgradeCertificate>
                    } else {
                        staged0
                    };
                    let decided1 = if install {
                        staged0
                    } else {
                        *old(decided_upgrade_cert)
                    };
                    let store1 = if install {
                        staged0
                    } else {
                        None::<UpgradeCertificate>
                    };
                    &&& (actions.decide_view is Some <==> fires)
                    &&& (fires ==> actions.decide_view == Some(gp.view) && actions.decide_qc
                        == Some(proposal.justify_qc) && chain.len() > 0 && chain[0] == gp)
                    &&& (!fires ==> chain.len() == 0 && actions.decide_qc is None)
                    &&& (forall|i: int|
                        0 < i < chain.len() ==> snap.saved_leaves.contains_key(
                            #[trigger] chain[i - 1].parent_commitment,
                        ) && chain[i] == snap.saved_leaves[chain[i - 1].parent_commitment])
                    &&& (forall|i: int|
                        0 < i < chain.len() ==> #[trigger] chain[i].spec_commit() == chain[i
                            - 1].parent_commitment)
                    &&& (forall|i: int|
                        0 < i < chain.len() ==> #[trigger] chain[i].view < chain[i - 1].view)
                    &&& (forall|i: int|
                        0 <= i < chain.len() ==> #[trigger] chain[i].view
                            > snap.last_decided_view)
                    &&& final(consensus)@.locked_view == (if proposal.justify_qc.view
                        > snap.locked_view {
                        proposal.justify_qc.view
                    } else {
                        snap.locked_view
                    })
                    &&& final(consensus)@.last_decided_view == (if fires {
                        gp.view
                    } else {
                        snap.last_decided_view
                    })
                    &&& final(consensus)@.drb_results == (if fires {
                        spec_record_chain_drbs(snap.drb_results, chain, snap.epoch_height)
                    } else {
                        snap.drb_results
                    })
                    &&& (!fires ==> final(consensus)@.validated_views == snap.validated_views
                        && final(consensus)@.da_certs == snap.da_certs
                        && final(consensus)@.vid_shares == snap.vid_shares)
                    &&& (fires ==> (forall|v: u64|
                        #[trigger] final(consensus)@.validated_views.contains_key(v)
                            <==> snap.validated_views.contains_key(v) && v >= gp.view))
                    &&& (fires ==> (forall|v: u64|
                        final(consensus)@.validated_views.contains_key(v) ==> #[trigger] final(consensus)@.validated_views[v] == snap.validated_views[v]))
                    &&& (fires ==> (forall|v: u64|
                        #[trigger] final(consensus)@.da_certs.contains_key(v)
                            <==> snap.da_certs.contains_key(v) && v >= gp.view))
                    &&& (fires ==> (forall|v: u64|
                        final(consensus)@.da_certs.contains_key(v) ==> #[trigger] final(consensus)@.da_certs[v] == snap.da_certs[v]))
                    &&& (fires ==> (forall|v: u64|
                        #[trigger] final(consensus)@.vid_shares.contains_key(v)
                            <==> snap.vid_shares.contains_key(v) && v >= gp.view))
                    &&& (fires ==> (forall|v: u64|
                        final(consensus)@.vid_shares.contains_key(v) ==> #[trigger] final(consensus)@.vid_shares[v] == snap.vid_shares[v]))
                    &&& actions.store_decided_upgrade_cert == (match newly {
                        Some(c) => if c.new_version == EPOCHS_VERSION {
                            store1
                        } else {
                            Some(c)
                        },
                        None => store1,
                    })
                    &&& *final(decided_upgrade_cert) == (match newly {
                        Some(c) => if c.new_version == EPOCHS_VERSION {
                            decided1
                        } else {
                            Some(c)
                        },
                        None => decided1,
                    })
                    &&& final(self)@.staged_epoch_upgrade_certificate == (match newly {
                        Some(c) => if c.new_version == EPOCHS_VERSION {
                            Some(c)
                        } else {
                            staged1
                        },
                        None => staged1,
                    })
                    &&& actions.set_first_epoch == (match newly {
                        Some(c) => if c.new_version == EPOCHS_VERSION {
                            Some(
                                spec_epoch_of(
                                    old(self)@.epoch_upgrade_block_height,
                                    snap.epoch_height,
                                ),
                            )
                        } else {
                            None::<u64>
                        },
                        None => None::<u64>,
                    })
                }),
                Err(_) => true,
            }),
    {
        if version >= EPOCHS_VERSION {
            if let Err(e) = verify_drb_result(consensus, proposal, epochs_enabled, has_stake) {
                return Err(e);
            }
        }

        let outcome = decide_from_proposal(consensus, proposal);
        let DecideOutcome {
            new_locked_view,
            new_decided_view,
            decide_qc,
            leaf_chain,
            decided_upgrade_cert: newly_decided_cert,
        } = outcome;

        // Install a staged epoch upgrade once the decided chain reaches
        // the configured height.
        let mut store_decided_upgrade_cert: Option<UpgradeCertificate> = None;
        if let Some(staged) = self.staged_epoch_upgrade_certificate {
            if leaf_chain.len() > 0 && leaf_chain[0].height >= self.epoch_upgrade_block_height {
                *decided_upgrade_cert = Some(staged);
                store_decided_upgrade_cert = Some(staged);
                self.staged_epoch_upgrade_certificate = None;
            }
        }

        // A decided certificate that enables epochs is staged; any other
        // becomes the decided certificate at once.
        let mut set_first_epoch: Option<u64> = None;
        if let Some(cert) = newly_decided_cert {
            if cert.new_version == EPOCHS_VERSION {
                self.staged_epoch_upgrade_certificate = Some(cert);
                set_first_epoch = Some(
                    epoch_of(self.epoch_upgrade_block_height, consensus.epoch_height()),
                );
            } else {
                *decided_upgrade_cert = Some(cert);
                store_decided_upgrade_cert = Some(cert);
            }
        }

        if let Some(locked) = new_locked_view {
            let _ = consensus.update_locked_view(locked);
        }

        let decide_view: Option<u64> = match new_decided_view {
            Some(decided) => {
                consensus.collect_garbage(decided);
                let _ = consensus.update_last_decided_view(decided);
                let ghost mid = consensus@;

                // Record DRB results carried by decided last blocks for
                // the following epoch.
                let eh = consensus.epoch_height();
                let n = leaf_chain.len();
                let mut i: usize = 0;
                proof {
                    assert(leaf_chain@.take(0) =~= Seq::<Leaf>::empty());
                }
                while i < n
                    invariant
                        i <= n,
                        n == leaf_chain@.len(),
                        eh == mid.epoch_height,
                        consensus@ == (ConsensusSnapshot {
                            drb_results: spec_record_chain_drbs(
                                mid.drb_results,
                                leaf_chain@.take(i as int),
                                eh,
                            ),
                            ..mid
                        }),
                    decreases n - i,
                {
                    let leaf = &leaf_chain[i];
                    if is_last_block(leaf.height, eh) {
                        if let Some(drb) = leaf.next_drb_result {
                            let e = epoch_of(leaf.height, eh);
                            proof {
                                vstd::arithmetic::div_mod::lemma_div_is_ordered_by_denominator(
                                    (leaf_chain@[i as int].height - 1) as int,
                                    1,
                                    eh as int,
                                );
                                vstd::arithmetic::div_mod::lemma_div_basics(
                                    (leaf_chain@[i as int].height - 1) as int,
                                );
                            }
                            let next_epoch = e + 1;
                            consensus.add_drb_result(next_epoch, drb);
                        }
                    }
                    proof {
                        assert(leaf_chain@.take(i as int + 1).drop_last() =~= leaf_chain@.take(
                            i as int,
                        ));
                        assert(leaf_chain@.take(i as int + 1).last() == leaf_chain@[i as int]);
                    }
                    i = i + 1;
                }
                proof {
                    assert(leaf_chain@.take(n as int) =~= leaf_chain@);
                }
                Some(decided)
            },
            None => None,
        };

        Ok(
            DecideActions {
                decide_view,
                leaf_chain,
                decide_qc,
                store_decided_upgrade_cert,
                set_first_epoch,
            },
        )
    }
}

} // verus!
