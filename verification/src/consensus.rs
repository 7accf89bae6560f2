//! The shared consensus state.
//!
//! One value of [`ConsensusState`] is the single piece of mutable state
//! the three pipeline tasks share; in the running node it sits behind a
//! read/write lock and every multi-field update happens under one write
//! acquisition. The contracts here pin down how each update may change
//! the state: the locked view and the last decided view never decrease,
//! the high QC only advances, and the leaf store is content-addressed.

use vstd::prelude::*;

use crate::data::{DaCertificate, Leaf, QuorumCertificate, StateCert, VidShare};
use crate::epoch::{spec_is_epoch_root, spec_is_epoch_transition};
use crate::vmap::VMap;

verus! {

/// The validated application state derived for one view, as the core
/// tracks it: a commitment to the state and whether a delta was computed
/// alongside it.
#[derive(Clone, Copy, Debug, PartialEq, Eq)]
pub struct ValidatedView {
    /// Commitment of the validated state after applying the view's header.
    pub state_commitment: u64,
    /// Whether a state delta was derived together with the state.
    pub has_delta: bool,
}

/// An update was refused because it does not advance the state.
#[derive(Clone, Copy, Debug, PartialEq, Eq)]
pub struct StaleUpdate;

/// Mathematical snapshot of the shared state; the contracts of every
/// update speak in terms of it.
pub struct ConsensusSnapshot {
    /// View below which the replica will never again vote to overwrite.
    pub locked_view: u64,
    /// Highest view known decided.
    pub last_decided_view: u64,
    /// The highest quorum certificate known.
    pub high_qc: QuorumCertificate,
    /// The next-epoch certificate paired with the high QC across an epoch
    /// boundary.
    pub next_epoch_high_qc: Option<QuorumCertificate>,
    /// State-update certificate paired with the high QC when its block is
    /// an epoch root.
    pub state_cert: Option<StateCert>,
    /// The best transition QC seen, with its next-epoch certificate.
    pub transition_qc: Option<(QuorumCertificate, QuorumCertificate)>,
    /// Highest block number observed in a valid proposal.
    pub highest_block: u64,
    /// Blocks per epoch; zero disables epochs.
    pub epoch_height: u64,
    /// Leaves by their content commitment.
    pub saved_leaves: Map<u64, Leaf>,
    /// Validated state by view.
    pub validated_views: Map<u64, ValidatedView>,
    /// DRB results by the epoch they randomize.
    pub drb_results: Map<u64, u64>,
    /// Validated DA certificates by view.
    pub da_certs: Map<u64, DaCertificate>,
    /// Validated VID shares by view.
    pub vid_shares: Map<u64, VidShare>,
}

/// A content-addressed leaf store: every leaf sits under its own
/// commitment.
pub open spec fn spec_content_addressed(saved_leaves: Map<u64, Leaf>) -> bool {
    forall|c: u64|
        #[trigger] saved_leaves.contains_key(c) ==> saved_leaves[c].spec_commit() == c
}

/// The shared consensus state of one replica.
pub struct ConsensusState {
    locked_view: u64,
    last_decided_view: u64,
    high_qc: QuorumCertificate,
    next_epoch_high_qc: Option<QuorumCertificate>,
    state_cert: Option<StateCert>,
    transition_qc: Option<(QuorumCertificate, QuorumCertificate)>,
    highest_block: u64,
    epoch_height: u64,
    saved_leaves: VMap<Leaf>,
    validated_views: VMap<ValidatedView>,
    drb_results: VMap<u64>,
    da_certs: VMap<DaCertificate>,
    vid_shares: VMap<VidShare>,
}

impl ConsensusState {
    /// The snapshot this state holds.
    pub closed spec fn view(&self) -> ConsensusSnapshot {
        ConsensusSnapshot {
            locked_view: self.locked_view,
            last_decided_view: self.last_decided_view,
            high_qc: self.high_qc,
            next_epoch_high_qc: self.next_epoch_high_qc,
            state_cert: self.state_cert,
            transition_qc: self.transition_qc,
            highest_block: self.highest_block,
            epoch_height: self.epoch_height,
            saved_leaves: self.saved_leaves@,
            validated_views: self.validated_views@,
            drb_results: self.drb_results@,
            da_certs: self.da_certs@,
            vid_shares: self.vid_shares@,
        }
    }

    /// The leaf store is content-addressed: every stored leaf sits
    /// under its own commitment.
    #[verifier::type_invariant]
    spec fn wf(&self) -> bool {
        spec_content_addressed(self.saved_leaves@)
    }

    /// A fresh state, anchored at a genesis certificate.
    pub fn new(epoch_height: u64, genesis_qc: QuorumCertificate) -> (s: Self)
        ensures
            s@.locked_view == 0,
            s@.last_decided_view == 0,
            s@.high_qc == genesis_qc,
            s@.next_epoch_high_qc is None,
            s@.state_cert is None,
            s@.transition_qc is None,
            s@.highest_block == 0,
            s@.epoch_height == epoch_height,
            s@.saved_leaves == Map::<u64, Leaf>::empty(),
            s@.validated_views == Map::<u64, ValidatedView>::empty(),
            s@.drb_results == Map::<u64, u64>::empty(),
            s@.da_certs == Map::<u64, DaCertificate>::empty(),
            s@.vid_shares == Map::<u64, VidShare>::empty(),
    {
        ConsensusState {
            locked_view: 0,
            last_decided_view: 0,
            high_qc: genesis_qc,
            next_epoch_high_qc: None,
            state_cert: None,
            transition_qc: None,
            highest_block: 0,
            epoch_height,
            saved_leaves: VMap::new(),
            validated_views: VMap::new(),
            drb_results: VMap::new(),
            da_certs: VMap::new(),
            vid_shares: VMap::new(),
        }
    }

    /// The locked view.
    pub fn locked_view(&self) -> (v: u64)
        ensures
            v == self@.locked_view,
    {
        self.locked_view
    }

    /// The last decided view.
    pub fn last_decided_view(&self) -> (v: u64)
        ensures
            v == self@.last_decided_view,
    {
        self.last_decided_view
    }

    /// The high QC.
    pub fn high_qc(&self) -> (qc: QuorumCertificate)
        ensures
            qc == self@.high_qc,
    {
        self.high_qc
    }

    /// The next-epoch high QC, if one is held.
    pub fn next_epoch_high_qc(&self) -> (qc: Option<QuorumCertificate>)
        ensures
            qc == self@.next_epoch_high_qc,
    {
        self.next_epoch_high_qc
    }

    /// The state certificate paired with the high QC, if any.
    pub fn state_cert(&self) -> (c: Option<StateCert>)
        ensures
            c == self@.state_cert,
    {
        self.state_cert
    }

    /// The best transition QC seen, if any.
    pub fn transition_qc(&self) -> (t: Option<(QuorumCertificate, QuorumCertificate)>)
        ensures
            t == self@.transition_qc,
    {
        self.transition_qc
    }

    /// The highest block number observed.
    pub fn highest_block(&self) -> (b: u64)
        ensures
            b == self@.highest_block,
    {
        self.highest_block
    }

    /// Blocks per epoch; zero disables epochs.
    pub fn epoch_height(&self) -> (e: u64)
        ensures
            e == self@.epoch_height,
    {
        self.epoch_height
    }

    /// Advance the locked view. The lock only moves forward: a view not
    /// strictly greater than the current lock is refused and nothing
    /// changes.
    pub fn update_locked_view(&mut self, view: u64) -> (r: Result<(), StaleUpdate>)
        ensures
            view > old(self)@.locked_view ==> r is Ok && final(self)@ == (ConsensusSnapshot {
                locked_view: view,
                ..old(self)@
            }),
            view <= old(self)@.locked_view ==> r is Err && final(self)@ == old(self)@,
            final(self)@.locked_view >= old(self)@.locked_view,
    {
        proof {
            use_type_invariant(&*self);
        }
        if view > self.locked_view {
            self.locked_view = view;
            Ok(())
        } else {
            Err(StaleUpdate)
        }
    }

    /// Advance the last decided view; it never decreases.
    pub fn update_last_decided_view(&mut self, view: u64) -> (r: Result<(), StaleUpdate>)
        ensures
            view > old(self)@.last_decided_view ==> r is Ok && final(self)@ == (ConsensusSnapshot {
                last_decided_view: view,
                ..old(self)@
            }),
            view <= old(self)@.last_decided_view ==> r is Err && final(self)@ == old(self)@,
            final(self)@.last_decided_view >= old(self)@.last_decided_view,
    {
        proof {
            use_type_invariant(&*self);
        }
        if view > self.last_decided_view {
            self.last_decided_view = view;
            Ok(())
        } else {
            Err(StaleUpdate)
        }
    }

    /// Replace the high QC by one from a strictly later view; an older or
    /// equal certificate is refused and nothing changes.
    pub fn update_high_qc(&mut self, qc: QuorumCertificate) -> (r: Result<(), StaleUpdate>)
        ensures
            qc.view > old(self)@.high_qc.view ==> r is Ok && final(self)@ == (ConsensusSnapshot {
                high_qc: qc,
                ..old(self)@
            }),
            qc.view <= old(self)@.high_qc.view ==> r is Err && final(self)@ == old(self)@,
            final(self)@.high_qc.view >= old(self)@.high_qc.view,
    {
        proof {
            use_type_invariant(&*self);
        }
        if qc.view > self.high_qc.view {
            self.high_qc = qc;
            Ok(())
        } else {
            Err(StaleUpdate)
        }
    }

    /// Replace the next-epoch high QC by one from a strictly later view.
    pub fn update_next_epoch_high_qc(&mut self, qc: QuorumCertificate) -> (r: Result<
        (),
        StaleUpdate,
    >)
        ensures
            (match old(self)@.next_epoch_high_qc {
                None => true,
                Some(cur) => qc.view > cur.view,
            }) ==> r is Ok && final(self)@ == (ConsensusSnapshot {
                next_epoch_high_qc: Some(qc),
                ..old(self)@
            }),
            (match old(self)@.next_epoch_high_qc {
                None => false,
                Some(cur) => qc.view <= cur.view,
            }) ==> r is Err && final(self)@ == old(self)@,
    {
        proof {
            use_type_invariant(&*self);
        }
        let advance = match &self.next_epoch_high_qc {
            None => true,
            Some(cur) => qc.view > cur.view,
        };
        if advance {
            self.next_epoch_high_qc = Some(qc);
            Ok(())
        } else {
            Err(StaleUpdate)
        }
    }

    /// Record the state certificate paired with the high QC.
    pub fn update_state_cert(&mut self, cert: StateCert)
        ensures
            final(self)@ == (ConsensusSnapshot { state_cert: Some(cert), ..old(self)@ }),
    {
        proof {
            use_type_invariant(&*self);
        }
        self.state_cert = Some(cert);
    }

    /// Keep the better of the held and the offered transition QC: the one
    /// whose view is higher. The offered pair is taken when nothing is
    /// held yet.
    pub fn update_transition_qc(&mut self, qc: QuorumCertificate, next_qc: QuorumCertificate)
        ensures
            (match old(self)@.transition_qc {
                None => true,
                Some(cur) => qc.view > cur.0.view,
            }) ==> final(self)@ == (ConsensusSnapshot {
                transition_qc: Some((qc, next_qc)),
                ..old(self)@
            }),
            (match old(self)@.transition_qc {
                None => false,
                Some(cur) => qc.view <= cur.0.view,
            }) ==> final(self)@ == old(self)@,
    {
        proof {
            use_type_invariant(&*self);
        }
        let advance = match &self.transition_qc {
            None => true,
            Some(cur) => qc.view > cur.0.view,
        };
        if advance {
            self.transition_qc = Some((qc, next_qc));
        }
    }

    /// Raise the highest observed block number to `block_number` if it is
    /// higher; the field never decreases.
    pub fn update_highest_block(&mut self, block_number: u64)
        ensures
            final(self)@ == (ConsensusSnapshot {
                highest_block: (if block_number > old(self)@.highest_block {
                    block_number
                } else {
                    old(self)@.highest_block
                }),
                ..old(self)@
            }),
    {
        proof {
            use_type_invariant(&*self);
        }
        if block_number > self.highest_block {
            self.highest_block = block_number;
        }
    }

    /// Whether the high QC certifies a block in the transition window, so
    /// that the replica is amid an epoch transition.
    pub fn high_qc_in_transition(&self) -> (r: bool)
        ensures
            r == (match self@.high_qc.block_number {
                Some(bn) => spec_is_epoch_transition(bn, self@.epoch_height),
                None => false,
            }),
    {
        match self.high_qc.block_number {
            Some(bn) => crate::epoch::is_epoch_transition(bn, self.epoch_height),
            None => false,
        }
    }

    /// Whether the high QC certifies an epoch-root block.
    pub fn high_qc_is_epoch_root(&self) -> (r: bool)
        ensures
            r == (match self@.high_qc.block_number {
                Some(bn) => spec_is_epoch_root(bn, self@.epoch_height),
                None => false,
            }),
    {
        match self.high_qc.block_number {
            Some(bn) => crate::epoch::is_epoch_root(bn, self.epoch_height),
            None => false,
        }
    }

    /// Store a leaf under its content commitment, together with the
    /// validated state derived for its view. Re-inserting a leaf replaces
    /// the equal entry.
    pub fn update_leaf(&mut self, leaf: Leaf, state_commitment: u64, has_delta: bool)
        ensures
            final(self)@ == (ConsensusSnapshot {
                saved_leaves: old(self)@.saved_leaves.insert(leaf.spec_commit(), leaf),
                validated_views: old(self)@.validated_views.insert(
                    leaf.view,
                    ValidatedView { state_commitment, has_delta },
                ),
                ..old(self)@
            }),
    {
        proof {
            use_type_invariant(&*self);
        }
        let commit = leaf.commit();
        let mut leaves: VMap<Leaf> = VMap::new();
        core::mem::swap(&mut leaves, &mut self.saved_leaves);
        leaves.insert(commit, leaf);
        self.saved_leaves = leaves;
        let mut views: VMap<ValidatedView> = VMap::new();
        core::mem::swap(&mut views, &mut self.validated_views);
        views.insert(leaf.view, ValidatedView { state_commitment, has_delta });
        self.validated_views = views;
    }

    /// The stored leaf with the given content commitment, if any.
    pub fn saved_leaf(&self, commit: u64) -> (r: Option<Leaf>)
        ensures
            r == (if self@.saved_leaves.contains_key(commit) {
                Some(self@.saved_leaves[commit])
            } else {
                None::<Leaf>
            }),
            r matches Some(l) ==> l.spec_commit() == commit,
    {
        proof {
            use_type_invariant(self);
        }
        self.saved_leaves.get(commit)
    }

    /// The validated state recorded for a view, if any.
    pub fn state_and_delta(&self, view: u64) -> (r: Option<ValidatedView>)
        ensures
            r == (if self@.validated_views.contains_key(view) {
                Some(self@.validated_views[view])
            } else {
                None::<ValidatedView>
            }),
    {
        self.validated_views.get(view)
    }

    /// Record the DRB result that randomizes leader election for `epoch`.
    pub fn add_drb_result(&mut self, epoch: u64, drb: u64)
        ensures
            final(self)@ == (ConsensusSnapshot {
                drb_results: old(self)@.drb_results.insert(epoch, drb),
                ..old(self)@
            }),
    {
        proof {
            use_type_invariant(&*self);
        }
        let mut results: VMap<u64> = VMap::new();
        core::mem::swap(&mut results, &mut self.drb_results);
        results.insert(epoch, drb);
        self.drb_results = results;
    }

    /// The DRB result recorded for `epoch`, if any.
    pub fn drb_result(&self, epoch: u64) -> (r: Option<u64>)
        ensures
            r == (if self@.drb_results.contains_key(epoch) {
                Some(self@.drb_results[epoch])
            } else {
                None::<u64>
            }),
    {
        self.drb_results.get(epoch)
    }

    /// Record a validated DA certificate for its view.
    pub fn update_saved_da_cert(&mut self, view: u64, cert: DaCertificate)
        ensures
            final(self)@ == (ConsensusSnapshot {
                da_certs: old(self)@.da_certs.insert(view, cert),
                ..old(self)@
            }),
    {
        proof {
            use_type_invariant(&*self);
        }
        let mut certs: VMap<DaCertificate> = VMap::new();
        core::mem::swap(&mut certs, &mut self.da_certs);
        certs.insert(view, cert);
        self.da_certs = certs;
    }

    /// Record a validated VID share for its view.
    pub fn update_vid_share(&mut self, view: u64, share: VidShare)
        ensures
            final(self)@ == (ConsensusSnapshot {
                vid_shares: old(self)@.vid_shares.insert(view, share),
                ..old(self)@
            }),
    {
        proof {
            use_type_invariant(&*self);
        }
        let mut shares: VMap<VidShare> = VMap::new();
        core::mem::swap(&mut shares, &mut self.vid_shares);
        shares.insert(view, share);
        self.vid_shares = shares;
    }

    /// Drop per-view bookkeeping from views before `keep_view`, once a
    /// decide has made them unreachable.
    pub fn collect_garbage(&mut self, keep_view: u64)
        ensures
            final(self)@.locked_view == old(self)@.locked_view,
            final(self)@.last_decided_view == old(self)@.last_decided_view,
            final(self)@.high_qc == old(self)@.high_qc,
            final(self)@.next_epoch_high_qc == old(self)@.next_epoch_high_qc,
            final(self)@.state_cert == old(self)@.state_cert,
            final(self)@.transition_qc == old(self)@.transition_qc,
            final(self)@.highest_block == old(self)@.highest_block,
            final(self)@.epoch_height == old(self)@.epoch_height,
            final(self)@.saved_leaves == old(self)@.saved_leaves,
            final(self)@.drb_results == old(self)@.drb_results,
            forall|v: u64|
                #[trigger] final(self)@.validated_views.contains_key(v) <==> old(
                    self,
                )@.validated_views.contains_key(v) && v >= keep_view,
            forall|v: u64|
                final(self)@.validated_views.contains_key(v)
                    ==> #[trigger] final(self)@.validated_views[v] == old(self)@.validated_views[v],
            forall|v: u64|
                #[trigger] final(self)@.da_certs.contains_key(v) <==> old(
                    self,
                )@.da_certs.contains_key(v) && v >= keep_view,
            forall|v: u64|
                final(self)@.da_certs.contains_key(v) ==> #[trigger] final(self)@.da_certs[v]
                    == old(self)@.da_certs[v],
            forall|v: u64|
                #[trigger] final(self)@.vid_shares.contains_key(v) <==> old(
                    self,
                )@.vid_shares.contains_key(v) && v >= keep_view,
            forall|v: u64|
                final(self)@.vid_shares.contains_key(v) ==> #[trigger] final(self)@.vid_shares[v]
                    == old(self)@.vid_shares[v],
    {
        proof {
            use_type_invariant(&*self);
        }
        let mut views: VMap<ValidatedView> = VMap::new();
        core::mem::swap(&mut views, &mut self.validated_views);
        views.retain_at_least(keep_view);
        self.validated_views = views;
        let mut certs: VMap<DaCertificate> = VMap::new();
        core::mem::swap(&mut certs, &mut self.da_certs);
        certs.retain_at_least(keep_view);
        self.da_certs = certs;
        let mut shares: VMap<VidShare> = VMap::new();
        core::mem::swap(&mut shares, &mut self.vid_shares);
        shares.retain_at_least(keep_view);
        self.vid_shares = shares;
    }
}

} // verus!
