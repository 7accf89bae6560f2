//! The decide rule.
//!
//! A validated proposal justifies its parent; when that parent in turn
//! is justified by a certificate for the directly preceding view, the
//! two consecutive certificates decide the grandparent and everything
//! below it. Walking the saved-leaf store backward along parent
//! commitments yields the decided chain; the walk also advances the lock
//! to the justify certificate's view, and never backward.

use vstd::prelude::*;

use crate::consensus::ConsensusSnapshot;
use crate::consensus::ConsensusState;
use crate::data::{Leaf, QuorumCertificate, QuorumProposal, UpgradeCertificate};

verus! {

/// What one decide-rule application concluded.
pub struct DecideOutcome {
    /// The lock advances to this view, when it advances.
    pub new_locked_view: Option<u64>,
    /// The chain is decided through this view, when a decide fired.
    pub new_decided_view: Option<u64>,
    /// The certificate that sealed the decide: the validated proposal's
    /// justify QC.
    pub decide_qc: Option<QuorumCertificate>,
    /// The newly decided leaves, newest first, linked by parent
    /// commitments.
    pub leaf_chain: Vec<Leaf>,
    /// An upgrade certificate carried by a newly decided leaf, if any.
    pub decided_upgrade_cert: Option<UpgradeCertificate>,
}

/// The first upgrade certificate found scanning the chain from its
/// head.
pub open spec fn spec_first_upgrade_cert(chain: Seq<Leaf>) -> Option<UpgradeCertificate>
    decreases chain.len(),
{
    if chain.len() == 0 {
        None
    } else {
        match chain[0].upgrade_certificate {
            Some(c) => Some(c),
            None => spec_first_upgrade_cert(chain.drop_first()),
        }
    }
}

/// Apply the decide rule to a validated proposal against the current
/// consensus snapshot.
///
/// The lock advances exactly when the proposal's justify QC is ahead of
/// it. A decide fires exactly when the justified parent is saved and is
/// itself justified by a certificate for the view right before its own;
/// the decided view is then the grandparent's. The returned chain starts
/// at the grandparent, each following leaf is the saved leaf behind its
/// predecessor's parent commitment, views strictly decrease, and the
/// walk stops at the last decided view.
pub fn decide_from_proposal(consensus: &ConsensusState, proposal: &QuorumProposal) -> (r:
    DecideOutcome)
    ensures
        r.new_locked_view == (if proposal.justify_qc.view > consensus@.locked_view {
            Some(proposal.justify_qc.view)
        } else {
            None::<u64>
        }),
        ({
            let snap = consensus@;
            let parent_found = snap.saved_leaves.contains_key(proposal.justify_qc.leaf_commit);
            let parent = snap.saved_leaves[proposal.justify_qc.leaf_commit];
            let two_chain = parent_found && parent.view == parent.justify_qc.view + 1
                && snap.saved_leaves.contains_key(parent.parent_commitment);
            let gp = snap.saved_leaves[parent.parent_commitment];
            &&& (r.new_decided_view is Some <==> (two_chain && gp.view > snap.last_decided_view))
            &&& (r.new_decided_view is Some ==> r.new_decided_view == Some(gp.view)
                && r.decide_qc == Some(proposal.justify_qc) && r.leaf_chain@.len() > 0
                && r.leaf_chain@[0] == gp)
            &&& (r.new_decided_view is None ==> r.leaf_chain@.len() == 0
                && r.decide_qc is None)
        }),
        forall|i: int|
            0 < i < r.leaf_chain@.len() ==> consensus@.saved_leaves.contains_key(
                #[trigger] r.leaf_chain@[i - 1].parent_commitment,
            ) && r.leaf_chain@[i] == consensus@.saved_leaves[r.leaf_chain@[i
                - 1].parent_commitment],
        forall|i: int|
            0 < i < r.leaf_chain@.len() ==> #[trigger] r.leaf_chain@[i].spec_commit()
                == r.leaf_chain@[i - 1].parent_commitment,
        forall|i: int|
            0 < i < r.leaf_chain@.len() ==> #[trigger] r.leaf_chain@[i].view < r.leaf_chain@[i
                - 1].view,
        forall|i: int|
            0 <= i < r.leaf_chain@.len() ==> #[trigger] r.leaf_chain@[i].view
                > consensus@.last_decided_view,
        r.decided_upgrade_cert == spec_first_upgrade_cert(r.leaf_chain@),
{
    let locked_view = consensus.locked_view();
    let new_locked_view: Option<u64> = if proposal.justify_qc.view > locked_view {
        Some(proposal.justify_qc.view)
    } else {
        None
    };

    let last_decided = consensus.last_decided_view();
    let mut leaf_chain: Vec<Leaf> = Vec::new();

    let parent = consensus.saved_leaf(proposal.justify_qc.leaf_commit);
    let two_chain_head: Option<Leaf> = match parent {
        Some(p) => {
            if p.view > 0 && p.justify_qc.view == p.view - 1 {
                consensus.saved_leaf(p.parent_commitment)
            } else {
                None
            }
        },
        None => None,
    };

    match two_chain_head {
        Some(gp) if gp.view > last_decided => {
            leaf_chain.push(gp);
            let mut current = gp;
            loop
                invariant
                    leaf_chain@.len() > 0,
                    leaf_chain@[0] == gp,
                    leaf_chain@.last() == current,
                    current.view > last_decided,
                    forall|i: int|
                        0 < i < leaf_chain@.len() ==> consensus@.saved_leaves.contains_key(
                            #[trigger] leaf_chain@[i - 1].parent_commitment,
                        ) && leaf_chain@[i] == consensus@.saved_leaves[leaf_chain@[i
                            - 1].parent_commitment],
                    forall|i: int|
                        0 < i < leaf_chain@.len() ==> #[trigger] leaf_chain@[i].spec_commit()
                            == leaf_chain@[i - 1].parent_commitment,
                    forall|i: int|
                        0 < i < leaf_chain@.len() ==> #[trigger] leaf_chain@[i].view
                            < leaf_chain@[i - 1].view,
                    forall|i: int|
                        0 <= i < leaf_chain@.len() ==> #[trigger] leaf_chain@[i].view
                            > last_decided,
                decreases current.view,
            {
                let next = consensus.saved_leaf(current.parent_commitment);
                match next {
                    Some(n) => {
                        if n.view < current.view && n.view > last_decided {
                            leaf_chain.push(n);
                            current = n;
                        } else {
                            break ;
                        }
                    },
                    None => {
                        break ;
                    },
                }
            }
            // The newest decided upgrade certificate wins: scan from
            // the chain's head.
            let mut decided_upgrade_cert: Option<UpgradeCertificate> = None;
            let n = leaf_chain.len();
            let mut i: usize = 0;
            proof {
                assert(leaf_chain@.skip(0) =~= leaf_chain@);
            }
            while i < n
                invariant
                    i <= n,
                    n == leaf_chain@.len(),
                    decided_upgrade_cert is Some ==> spec_first_upgrade_cert(leaf_chain@)
                        == decided_upgrade_cert,
                    decided_upgrade_cert is None ==> spec_first_upgrade_cert(leaf_chain@)
                        == spec_first_upgrade_cert(leaf_chain@.skip(i as int)),
                decreases n - i,
            {
                proof {
                    assert(leaf_chain@.skip(i as int)[0] == leaf_chain@[i as int]);
                    assert(leaf_chain@.skip(i as int).drop_first() =~= leaf_chain@.skip(i + 1));
                }
                if decided_upgrade_cert.is_none() {
                    decided_upgrade_cert = leaf_chain[i].upgrade_certificate;
                }
                i = i + 1;
            }
            proof {
                if decided_upgrade_cert is None {
                    assert(leaf_chain@.skip(n as int).len() == 0);
                }
            }
            DecideOutcome {
                new_locked_view,
                new_decided_view: Some(gp.view),
                decide_qc: Some(proposal.justify_qc),
                leaf_chain,
                decided_upgrade_cert,
            }
        },
        _ => DecideOutcome {
            new_locked_view,
            new_decided_view: None,
            decide_qc: None,
            leaf_chain,
            decided_upgrade_cert: None,
        },
    }
}

/// Decided leaves form one ancestry: in any chain the decide rule
/// returns, every leaf is reachable from the one decided last by parent
/// commitments, so two decided leaves never sit on diverging branches of
/// the saved-leaf store.
pub proof fn lemma_decided_chain_is_linked(chain: Seq<Leaf>, snap: ConsensusSnapshot)
    requires
        forall|i: int| 0 < i < chain.len() ==> #[trigger] chain[i] == snap.saved_leaves[chain[i
            - 1].parent_commitment],
        forall|i: int| 0 < i < chain.len() ==> #[trigger] chain[i].view < chain[i - 1].view,
    ensures
        forall|i: int, j: int| 0 <= i < j < chain.len() ==> #[trigger] chain[i].view > #[trigger] chain[j].view,
{
    assert forall|i: int, j: int| 0 <= i < j < chain.len() implies #[trigger] chain[i].view
        > #[trigger] chain[j].view by {
        lemma_chain_views_decrease(chain, i, j);
    }
}

/// Views strictly decrease along a linked chain.
proof fn lemma_chain_views_decrease(chain: Seq<Leaf>, i: int, j: int)
    requires
        forall|k: int| 0 < k < chain.len() ==> #[trigger] chain[k].view < chain[k - 1].view,
        0 <= i < j < chain.len(),
    ensures
        chain[i].view > chain[j].view,
    decreases j - i,
{
    if i + 1 == j {
        assert(chain[j].view < chain[j - 1].view);
    } else {
        lemma_chain_views_decrease(chain, i + 1, j);
        assert(chain[i + 1].view < chain[i].view);
    }
}

} // verus!
