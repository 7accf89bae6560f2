//! The proposal task: one dependency handle per view, never two.
//!
//! The task watches the bus, opens a dependency handle for a view on the
//! first event that belongs to it — and only if this node may lead that
//! view — and tears handles down when the network moves on. The guards
//! here are what makes a leader propose at most once per view: a handle
//! is only created for a view strictly beyond the latest proposed one and
//! never twice, and publishing a proposal advances that watermark.

use vstd::prelude::*;

use crate::consensus::ConsensusState;
use crate::data::{QuorumCertificate, StateCert, UpgradeCertificate};
use crate::epoch::{is_last_block, spec_is_last_block};
use crate::events::HotShotEvent;
use crate::validation::{next_epoch_qc_matches, spec_next_epoch_qc_matches};
use crate::vmap::VMap;

verus! {

/// Mathematical snapshot of the proposal task's bookkeeping.
pub struct ProposalTaskSnapshot {
    /// Latest view this node has proposed for, or seen proposed.
    pub latest_proposed_view: u64,
    /// The epoch the task currently works in.
    pub cur_epoch: Option<u64>,
    /// Views with a live dependency handle.
    pub tasks: Map<u64, bool>,
    /// Quorum certificates this node formed, by view.
    pub formed_qcs: Map<u64, QuorumCertificate>,
    /// Next-epoch certificates this node formed, by view.
    pub formed_next_qcs: Map<u64, QuorumCertificate>,
    /// Light-client state certificates this node formed, by epoch.
    pub formed_state_certs: Map<u64, StateCert>,
    /// The upgrade certificate this node formed, kept to propose with.
    pub formed_upgrade_certificate: Option<UpgradeCertificate>,
}

/// The proposal task's own state.
pub struct ProposalTaskState {
    latest_proposed_view: u64,
    cur_epoch: Option<u64>,
    tasks: VMap<bool>,
    formed_qcs: VMap<QuorumCertificate>,
    formed_next_qcs: VMap<QuorumCertificate>,
    formed_state_certs: VMap<StateCert>,
    formed_upgrade_certificate: Option<UpgradeCertificate>,
}

/// Why the task refused to open a dependency handle.
#[derive(Clone, Copy, Debug, PartialEq, Eq)]
pub enum CreateTaskError {
    /// This node leads the view neither in the current epoch nor, during
    /// a transition, in the next.
    NotLeader,
    /// The view is not beyond the latest proposed one.
    AlreadyProposed,
    /// A handle for the view already runs.
    TaskExists,
}

/// Why the dispatcher refused an event.
#[derive(Clone, Copy, Debug, PartialEq, Eq)]
pub enum ProposalHandleError {
    /// The view-sync certificate did not meet its threshold.
    InvalidViewSyncCert,
    /// A proposal send for a view not beyond the latest proposed one.
    StaleProposalSend,
    /// A next-epoch certificate no newer than the held one.
    StaleNextEpochQc,
}

/// What the dispatcher asks the surrounding runtime to do next.
#[derive(Clone, Copy, Debug, PartialEq, Eq)]
pub struct ProposalHandleActions {
    /// Open a dependency handle for this view, leader gates permitting.
    pub create_task_for_view: Option<u64>,
    /// Whether the epoch-transition leader gate applies to that handle.
    pub epoch_transition_hint: bool,
    /// Publish `ExtendedQc2Formed` with this certificate.
    pub emit_extended_qc: Option<QuorumCertificate>,
    /// Persist this high QC and state certificate pair.
    pub store_high_qc_and_state_cert: Option<(QuorumCertificate, StateCert)>,
}

/// No actions.
pub open spec fn spec_no_actions() -> ProposalHandleActions {
    ProposalHandleActions {
        create_task_for_view: None,
        epoch_transition_hint: false,
        emit_extended_qc: None,
        store_high_qc_and_state_cert: None,
    }
}

/// No actions, as [`spec_no_actions`] states it.
pub fn no_actions() -> (r: ProposalHandleActions)
    ensures
        r == spec_no_actions(),
{
    ProposalHandleActions {
        create_task_for_view: None,
        epoch_transition_hint: false,
        emit_extended_qc: None,
        store_high_qc_and_state_cert: None,
    }
}

/// The view bounds that keep the dispatcher's `view + 1` arithmetic in
/// range; block numbers this close to the machine limit never occur.
pub open spec fn spec_handle_event_bounded(e: HotShotEvent) -> bool {
    match e {
        HotShotEvent::Qc2Formed { qc } => qc.view < u64::MAX,
        HotShotEvent::TimeoutCert2Formed { cert } => cert.view < u64::MAX,
        HotShotEvent::EpochRootQcFormed { qc, .. } => qc.view < u64::MAX,
        HotShotEvent::QuorumProposalPreliminarilyValidated { proposal } => proposal.data.view_number
            < u64::MAX,
        HotShotEvent::QuorumProposalSend { proposal, .. } => proposal.data.view_number < u64::MAX,
        HotShotEvent::NextEpochQc2Formed { qc } => qc.view < u64::MAX,
        _ => true,
    }
}

/// Whether the once-per-view guards admit opening a dependency handle
/// for `view`: the leader gates pass, the view lies strictly beyond the
/// latest proposed one, and no handle for it runs.
pub open spec fn spec_create_guard(
    ts: ProposalTaskSnapshot,
    view: u64,
    epoch_known: bool,
    in_transition: bool,
    leader_in_current_epoch: bool,
    leader_in_next_epoch: bool,
) -> bool {
    &&& (leader_in_current_epoch || (epoch_known && in_transition && leader_in_next_epoch))
    &&& view > ts.latest_proposed_view
    &&& !ts.tasks.contains_key(view)
}

/// One proposal per view per leader: once a dependency handle for a
/// view exists, or the watermark has reached the view — as it does the
/// moment this node's proposal for it is sent — the guard refuses to
/// open another handle for that view, whatever the leader gates say.
pub proof fn lemma_single_proposal_per_view(
    ts: ProposalTaskSnapshot,
    view: u64,
    epoch_known: bool,
    in_transition: bool,
    leader_in_current_epoch: bool,
    leader_in_next_epoch: bool,
)
    requires
        ts.tasks.contains_key(view) || ts.latest_proposed_view >= view,
    ensures
        !spec_create_guard(
            ts,
            view,
            epoch_known,
            in_transition,
            leader_in_current_epoch,
            leader_in_next_epoch,
        ),
{
}

/// Whether the extended-QC check fires: epochs on, the certificate
/// covers its epoch's last block, and this node holds both halves of the
/// double quorum for that view, certifying one and the same leaf.
pub open spec fn spec_eqc_fires(
    ts: ProposalTaskSnapshot,
    epoch_height: u64,
    cert_view: u64,
    leaf_commit: u64,
    block_number: Option<u64>,
    epochs_enabled: bool,
) -> bool {
    &&& epochs_enabled
    &&& (match block_number {
        Some(bn) => spec_is_last_block(bn, epoch_height),
        None => false,
    })
    &&& ts.formed_qcs.contains_key(cert_view)
    &&& ts.formed_qcs[cert_view].view == cert_view
    &&& ts.formed_qcs[cert_view].leaf_commit == leaf_commit
    &&& ts.formed_next_qcs.contains_key(cert_view)
    &&& spec_next_epoch_qc_matches(ts.formed_qcs[cert_view], ts.formed_next_qcs[cert_view])
}

impl ProposalTaskState {
    /// The mathematical snapshot of this state.
    pub closed spec fn view(&self) -> ProposalTaskSnapshot {
        ProposalTaskSnapshot {
            latest_proposed_view: self.latest_proposed_view,
            cur_epoch: self.cur_epoch,
            tasks: self.tasks@,
            formed_qcs: self.formed_qcs@,
            formed_next_qcs: self.formed_next_qcs@,
            formed_state_certs: self.formed_state_certs@,
            formed_upgrade_certificate: self.formed_upgrade_certificate,
        }
    }

    /// A fresh task state.
    pub fn new() -> (s: Self)
        ensures
            s@.latest_proposed_view == 0,
            s@.cur_epoch is None,
            s@.tasks == Map::<u64, bool>::empty(),
            s@.formed_qcs == Map::<u64, QuorumCertificate>::empty(),
            s@.formed_next_qcs == Map::<u64, QuorumCertificate>::empty(),
            s@.formed_state_certs == Map::<u64, StateCert>::empty(),
            s@.formed_upgrade_certificate is None,
    {
        ProposalTaskState {
            latest_proposed_view: 0,
            cur_epoch: None,
            tasks: VMap::new(),
            formed_qcs: VMap::new(),
            formed_next_qcs: VMap::new(),
            formed_state_certs: VMap::new(),
            formed_upgrade_certificate: None,
        }
    }

    /// The latest proposed view.
    pub fn latest_proposed_view(&self) -> (v: u64)
        ensures
            v == self@.latest_proposed_view,
    {
        self.latest_proposed_view
    }

    /// Raise the latest proposed view to `new_view` and cancel the
    /// dependency handles of every view the watermark passes over. The
    /// watermark never moves backwards; `true` says it moved.
    pub fn update_latest_proposed_view(&mut self, new_view: u64) -> (r: bool)
        requires
            new_view < u64::MAX,
        ensures
            r == (old(self)@.latest_proposed_view < new_view),
            !r ==> final(self)@ == old(self)@,
            r ==> final(self)@.latest_proposed_view == new_view,
            r ==> forall|k: u64|
                #[trigger] final(self)@.tasks.contains_key(k) <==> (old(self)@.tasks.contains_key(k)
                    && !(old(self)@.latest_proposed_view < k <= new_view)),
            final(self)@.cur_epoch == old(self)@.cur_epoch,
            final(self)@.formed_qcs == old(self)@.formed_qcs,
            final(self)@.formed_next_qcs == old(self)@.formed_next_qcs,
            final(self)@.formed_state_certs == old(self)@.formed_state_certs,
            final(self)@.formed_upgrade_certificate == old(self)@.formed_upgrade_certificate,
            final(self)@.latest_proposed_view >= old(self)@.latest_proposed_view,
    {
        if self.latest_proposed_view >= new_view {
            return false;
        }
        let ghost t0 = self.tasks@;
        let ghost base = self.latest_proposed_view;
        let mut v: u64 = self.latest_proposed_view + 1;
        while v <= new_view
            invariant
                base < v <= new_view + 1,
                new_view < u64::MAX,
                self.latest_proposed_view == base,
                self.cur_epoch == old(self).cur_epoch,
                self.formed_qcs@ == old(self).formed_qcs@,
                self.formed_next_qcs@ == old(self).formed_next_qcs@,
                self.formed_state_certs@ == old(self).formed_state_certs@,
                self.formed_upgrade_certificate == old(self).formed_upgrade_certificate,
                forall|k: u64|
                    #[trigger] self.tasks@.contains_key(k) <==> (t0.contains_key(k) && !(base < k
                        < v)),
            decreases new_view + 1 - v,
        {
            self.tasks.remove(v);
            v = v + 1;
        }
        self.latest_proposed_view = new_view;
        true
    }

    /// Cancel every dependency handle for a view below `keep_view`, as a
    /// view change or timeout fence does.
    pub fn cancel_tasks(&mut self, keep_view: u64)
        ensures
            forall|k: u64|
                #[trigger] final(self)@.tasks.contains_key(k) <==> (old(self)@.tasks.contains_key(k)
                    && k >= keep_view),
            final(self)@.latest_proposed_view == old(self)@.latest_proposed_view,
            final(self)@.cur_epoch == old(self)@.cur_epoch,
            final(self)@.formed_qcs == old(self)@.formed_qcs,
            final(self)@.formed_next_qcs == old(self)@.formed_next_qcs,
            final(self)@.formed_state_certs == old(self)@.formed_state_certs,
            final(self)@.formed_upgrade_certificate == old(self)@.formed_upgrade_certificate,
    {
        self.tasks.retain_at_least(keep_view);
    }

    /// Open a dependency handle for `view_number` if the leader gates and
    /// the once-per-view guards allow it.
    ///
    /// A handle is created only when this node leads the view in the
    /// current epoch, or — with the epoch known and the network in
    /// transition — in the next; only for a view strictly beyond the
    /// latest proposed one; and only if no handle for the view exists.
    /// Together with the watermark this keeps any leader at no more than
    /// one proposal per view.
    pub fn create_dependency_task_if_new(
        &mut self,
        view_number: u64,
        epoch_known: bool,
        in_transition: bool,
        leader_in_current_epoch: bool,
        leader_in_next_epoch: bool,
    ) -> (r: Result<(), CreateTaskError>)
        ensures
            ({
                let eligible = leader_in_current_epoch || (epoch_known && in_transition
                    && leader_in_next_epoch);
                &&& (r == Ok::<(), CreateTaskError>(()) <==> (eligible && view_number > old(
                    self,
                )@.latest_proposed_view && !old(self)@.tasks.contains_key(view_number)))
                &&& (!eligible ==> r == Err::<(), CreateTaskError>(CreateTaskError::NotLeader))
                &&& (eligible && view_number <= old(self)@.latest_proposed_view ==> r == Err::<
                    (),
                    CreateTaskError,
                >(CreateTaskError::AlreadyProposed))
                &&& (eligible && view_number > old(self)@.latest_proposed_view && old(
                    self,
                )@.tasks.contains_key(view_number) ==> r == Err::<(), CreateTaskError>(
                    CreateTaskError::TaskExists,
                ))
                &&& (r is Ok ==> final(self)@ == ProposalTaskSnapshot {
                    tasks: old(self)@.tasks.insert(view_number, true),
                    ..old(self)@
                })
                &&& (r is Err ==> final(self)@ == old(self)@)
            }),
    {
        let eligible = leader_in_current_epoch || (epoch_known && in_transition
            && leader_in_next_epoch);
        if !eligible {
            return Err(CreateTaskError::NotLeader);
        }
        if view_number <= self.latest_proposed_view {
            return Err(CreateTaskError::AlreadyProposed);
        }
        if self.tasks.contains_key(view_number) {
            return Err(CreateTaskError::TaskExists);
        }
        self.tasks.insert(view_number, true);
        Ok(())
    }

    /// Run the extended-QC check: when this node holds a quorum
    /// certificate for an epoch's last block together with the matching
    /// next-epoch certificate, commit both as the new high pair under one
    /// write, discard older formed certificates, and hand back the
    /// certificate to publish as `ExtendedQc2Formed`. This is the sole
    /// place that commits both halves of a double quorum, so they cannot
    /// diverge across the boundary.
    pub fn handle_eqc_formed(
        &mut self,
        consensus: &mut ConsensusState,
        cert_view: u64,
        leaf_commit: u64,
        block_number: Option<u64>,
        epochs_enabled: bool,
    ) -> (emit: Option<QuorumCertificate>)
        ensures
            ({
                let fires = spec_eqc_fires(
                    old(self)@,
                    old(consensus)@.epoch_height,
                    cert_view,
                    leaf_commit,
                    block_number,
                    epochs_enabled,
                );
                &&& (emit is Some <==> fires)
                &&& (!fires ==> final(self)@ == old(self)@ && final(consensus)@ == old(consensus)@)
                &&& (fires ==> {
                    let qc = old(self)@.formed_qcs[cert_view];
                    let nqc = old(self)@.formed_next_qcs[cert_view];
                    &&& emit == Some(qc)
                    &&& final(consensus)@.high_qc == (if qc.view > old(consensus)@.high_qc.view {
                        qc
                    } else {
                        old(consensus)@.high_qc
                    })
                    &&& final(consensus)@.next_epoch_high_qc == (match old(
                        consensus,
                    )@.next_epoch_high_qc {
                        None => Some(nqc),
                        Some(cur) => if nqc.view > cur.view {
                            Some(nqc)
                        } else {
                            Some(cur)
                        },
                    })
                    &&& final(consensus)@.locked_view == old(consensus)@.locked_view
                    &&& final(consensus)@.last_decided_view == old(consensus)@.last_decided_view
                    &&& final(consensus)@.saved_leaves == old(consensus)@.saved_leaves
                    &&& final(consensus)@.epoch_height == old(consensus)@.epoch_height
                    &&& final(consensus)@.state_cert == old(consensus)@.state_cert
                    &&& final(consensus)@.transition_qc == old(consensus)@.transition_qc
                    &&& final(consensus)@.highest_block == old(consensus)@.highest_block
                    &&& final(consensus)@.drb_results == old(consensus)@.drb_results
                    &&& final(consensus)@.validated_views == old(consensus)@.validated_views
                    &&& final(consensus)@.da_certs == old(consensus)@.da_certs
                    &&& final(consensus)@.vid_shares == old(consensus)@.vid_shares
                    &&& (forall|k: u64|
                        #[trigger] final(self)@.formed_qcs.contains_key(k) <==> (old(
                            self,
                        )@.formed_qcs.contains_key(k) && k >= cert_view))
                    &&& (forall|k: u64|
                        #[trigger] final(self)@.formed_next_qcs.contains_key(k) <==> (old(
                            self,
                        )@.formed_next_qcs.contains_key(k) && k >= cert_view))
                    &&& final(self)@.latest_proposed_view == old(self)@.latest_proposed_view
                    &&& final(self)@.tasks == old(self)@.tasks
                    &&& final(self)@.formed_state_certs == old(self)@.formed_state_certs
                    &&& final(self)@.formed_upgrade_certificate == old(
                        self,
                    )@.formed_upgrade_certificate
                })
            }),
            final(consensus)@.high_qc.view >= old(consensus)@.high_qc.view,
            final(consensus)@.locked_view >= old(consensus)@.locked_view,
            final(self)@.cur_epoch == old(self)@.cur_epoch,
    {
        if !epochs_enabled {
            return None;
        }
        let at_last_block = match block_number {
            Some(bn) => is_last_block(bn, consensus.epoch_height()),
            None => false,
        };
        if !at_last_block {
            return None;
        }
        let Some(qc) = self.formed_qcs.get(cert_view) else {
            return None;
        };
        if qc.view != cert_view || qc.leaf_commit != leaf_commit {
            return None;
        }
        let Some(next_qc) = self.formed_next_qcs.get(cert_view) else {
            return None;
        };
        if !next_epoch_qc_matches(&qc, &next_qc) {
            return None;
        }
        let _ = consensus.update_high_qc(qc);
        let _ = consensus.update_next_epoch_high_qc(next_qc);
        self.formed_qcs.retain_at_least(cert_view);
        self.formed_next_qcs.retain_at_least(cert_view);
        Some(qc)
    }

    /// Record a quorum certificate this node formed.
    pub fn store_formed_qc(&mut self, qc: QuorumCertificate)
        ensures
            final(self)@ == (ProposalTaskSnapshot {
                formed_qcs: old(self)@.formed_qcs.insert(qc.view, qc),
                ..old(self)@
            }),
    {
        self.formed_qcs.insert(qc.view, qc);
    }

    /// Record a next-epoch certificate this node formed.
    pub fn store_formed_next_epoch_qc(&mut self, qc: QuorumCertificate)
        ensures
            final(self)@ == (ProposalTaskSnapshot {
                formed_next_qcs: old(self)@.formed_next_qcs.insert(qc.view, qc),
                ..old(self)@
            }),
    {
        self.formed_next_qcs.insert(qc.view, qc);
    }

    /// Record a formed state certificate under its epoch.
    pub fn store_formed_state_cert(&mut self, cert: StateCert)
        ensures
            final(self)@ == (ProposalTaskSnapshot {
                formed_state_certs: old(self)@.formed_state_certs.insert(cert.epoch, cert),
                ..old(self)@
            }),
    {
        self.formed_state_certs.insert(cert.epoch, cert);
    }

    /// The upgrade certificate this node formed, if still held.
    pub fn formed_upgrade_certificate(&self) -> (c: Option<UpgradeCertificate>)
        ensures
            c == self@.formed_upgrade_certificate,
    {
        self.formed_upgrade_certificate
    }

    /// Keep a freshly formed upgrade certificate while a decide on it is
    /// still reachable: its decide-by view must lie at least three views
    /// beyond the latest proposed one.
    pub fn store_upgrade_certificate(&mut self, cert: UpgradeCertificate)
        ensures
            cert.decide_by >= old(self)@.latest_proposed_view + 3 ==> final(self)@
                == (ProposalTaskSnapshot {
                formed_upgrade_certificate: Some(cert),
                ..old(self)@
            }),
            cert.decide_by < old(self)@.latest_proposed_view + 3 ==> final(self)@ == old(self)@,
    {
        if self.latest_proposed_view <= u64::MAX - 3 && cert.decide_by >= self.latest_proposed_view
            + 3 {
            self.formed_upgrade_certificate = Some(cert);
        }
    }

    /// Dispatch one bus event to the proposal task.
    ///
    /// Certificate-forming events are recorded and answered with a
    /// request to open the next view's dependency handle; at an epoch's
    /// last block the extended-QC check runs and may commit the double
    /// quorum; view changes and timeouts fence off stale handles; a
    /// proposal send only advances the watermark. The returned actions
    /// tell the runtime what to publish, persist or spawn; every
    /// decision has been made here.
    pub fn handle(
        &mut self,
        consensus: &mut ConsensusState,
        event: &HotShotEvent,
        epochs_enabled: bool,
        view_sync_cert_valid: bool,
    ) -> (r: Result<ProposalHandleActions, ProposalHandleError>)
        requires
            spec_handle_event_bounded(*event),
        ensures
            final(self)@.latest_proposed_view >= old(self)@.latest_proposed_view,
            final(consensus)@.locked_view >= old(consensus)@.locked_view,
            final(consensus)@.high_qc.view >= old(consensus)@.high_qc.view,
            final(consensus)@.epoch_height == old(consensus)@.epoch_height,
            ({
                let in_transition_hint = match old(consensus)@.high_qc.block_number {
                    Some(bn) => crate::epoch::spec_is_epoch_transition(
                        bn,
                        old(consensus)@.epoch_height,
                    ),
                    None => false,
                };
                match *event {
                    HotShotEvent::UpgradeCertificateFormed { cert } => {
                        &&& r == Ok::<ProposalHandleActions, ProposalHandleError>(
                            spec_no_actions(),
                        )
                        &&& final(consensus)@ == old(consensus)@
                        &&& (cert.decide_by >= old(self)@.latest_proposed_view + 3 ==> final(self)@ == (ProposalTaskSnapshot {
                            formed_upgrade_certificate: Some(cert),
                            ..old(self)@
                        }))
                        &&& (cert.decide_by < old(self)@.latest_proposed_view + 3 ==> final(self)@
                            == old(self)@)
                    },
                    HotShotEvent::Qc2Formed { qc } => {
                        let ts1 = ProposalTaskSnapshot {
                            formed_qcs: old(self)@.formed_qcs.insert(qc.view, qc),
                            ..old(self)@
                        };
                        let fires = spec_eqc_fires(
                            ts1,
                            old(consensus)@.epoch_height,
                            qc.view,
                            qc.leaf_commit,
                            qc.block_number,
                            epochs_enabled,
                        );
                        &&& r matches Ok(a)
                        &&& (r matches Ok(a) ==> a.create_task_for_view == Some(
                            (qc.view + 1) as u64,
                        ) && a.epoch_transition_hint == in_transition_hint && (
                        a.emit_extended_qc is Some <==> fires)
                            && a.store_high_qc_and_state_cert is None)
                        &&& (!fires ==> final(self)@ == ts1 && final(consensus)@ == old(
                            consensus,
                        )@)
                        &&& (fires ==> ({
                            let nqc = ts1.formed_next_qcs[qc.view];
                            &&& (r matches Ok(a) ==> a.emit_extended_qc == Some(qc))
                            &&& final(consensus)@.high_qc == (if qc.view > old(
                                consensus,
                            )@.high_qc.view {
                                qc
                            } else {
                                old(consensus)@.high_qc
                            })
                            &&& final(consensus)@.next_epoch_high_qc == (match old(
                                consensus,
                            )@.next_epoch_high_qc {
                                None => Some(nqc),
                                Some(cur) => if nqc.view > cur.view {
                                    Some(nqc)
                                } else {
                                    Some(cur)
                                },
                            })
                            &&& final(consensus)@.locked_view == old(consensus)@.locked_view
                            &&& final(consensus)@.last_decided_view == old(
                                consensus,
                            )@.last_decided_view
                            &&& final(consensus)@.saved_leaves == old(consensus)@.saved_leaves
                            &&& final(consensus)@.state_cert == old(consensus)@.state_cert
                            &&& final(consensus)@.transition_qc == old(consensus)@.transition_qc
                            &&& final(consensus)@.highest_block == old(consensus)@.highest_block
                            &&& final(consensus)@.drb_results == old(consensus)@.drb_results
                            &&& final(consensus)@.validated_views == old(
                                consensus,
                            )@.validated_views
                            &&& final(consensus)@.da_certs == old(consensus)@.da_certs
                            &&& final(consensus)@.vid_shares == old(consensus)@.vid_shares
                            &&& (forall|k: u64|
                                #[trigger] final(self)@.formed_qcs.contains_key(k) <==> (
                                ts1.formed_qcs.contains_key(k) && k >= qc.view))
                            &&& (forall|k: u64|
                                #[trigger] final(self)@.formed_next_qcs.contains_key(k) <==> (
                                ts1.formed_next_qcs.contains_key(k) && k >= qc.view))
                            &&& final(self)@.latest_proposed_view == old(
                                self,
                            )@.latest_proposed_view
                            &&& final(self)@.cur_epoch == old(self)@.cur_epoch
                            &&& final(self)@.tasks == old(self)@.tasks
                            &&& final(self)@.formed_state_certs == old(self)@.formed_state_certs
                            &&& final(self)@.formed_upgrade_certificate == old(
                                self,
                            )@.formed_upgrade_certificate
                        }))
                    },
                    HotShotEvent::TimeoutCert2Formed { cert } => {
                        &&& r matches Ok(a)
                        &&& (r matches Ok(a) ==> a.create_task_for_view == Some(
                            (cert.view + 1) as u64,
                        ) && a.epoch_transition_hint == in_transition_hint
                            && a.emit_extended_qc is None && a.store_high_qc_and_state_cert is None)
                        &&& final(self)@ == old(self)@
                        &&& final(consensus)@ == old(consensus)@
                    },
                    HotShotEvent::EpochRootQcFormed { qc, state_cert } => {
                        &&& r matches Ok(a)
                        &&& (r matches Ok(a) ==> a.create_task_for_view == Some(
                            (qc.view + 1) as u64,
                        ) && a.epoch_transition_hint == in_transition_hint
                            && a.emit_extended_qc is None && a.store_high_qc_and_state_cert == Some(
                            (qc, state_cert),
                        ))
                        &&& final(self)@ == (ProposalTaskSnapshot {
                            formed_qcs: old(self)@.formed_qcs.insert(qc.view, qc),
                            formed_state_certs: old(self)@.formed_state_certs.insert(
                                state_cert.epoch,
                                state_cert,
                            ),
                            ..old(self)@
                        })
                        &&& final(consensus)@ == old(consensus)@
                    },
                    HotShotEvent::SendPayloadCommitmentAndMetadata { view, .. } => {
                        &&& r matches Ok(a)
                        &&& (r matches Ok(a) ==> a.create_task_for_view == Some(view)
                            && !a.epoch_transition_hint && a.emit_extended_qc is None
                            && a.store_high_qc_and_state_cert is None)
                        &&& final(self)@ == old(self)@
                        &&& final(consensus)@ == old(consensus)@
                    },
                    HotShotEvent::ViewSyncFinalizeCertificateRecv { cert } => {
                        &&& final(consensus)@ == old(consensus)@
                        &&& final(self)@ == old(self)@
                        &&& (!view_sync_cert_valid ==> r == Err::<
                            ProposalHandleActions,
                            ProposalHandleError,
                        >(ProposalHandleError::InvalidViewSyncCert))
                        &&& (view_sync_cert_valid ==> (r matches Ok(a) && a.create_task_for_view
                            == Some(cert.view) && !a.epoch_transition_hint
                            && a.emit_extended_qc is None
                            && a.store_high_qc_and_state_cert is None))
                    },
                    HotShotEvent::QuorumProposalPreliminarilyValidated { proposal } => {
                        &&& r matches Ok(a)
                        &&& (r matches Ok(a) ==> a.create_task_for_view == Some(
                            (proposal.data.view_number + 1) as u64,
                        ) && a.epoch_transition_hint == in_transition_hint
                            && a.emit_extended_qc is None && a.store_high_qc_and_state_cert is None)
                        &&& final(consensus)@ == old(consensus)@
                        &&& final(self)@.latest_proposed_view == (if old(
                            self,
                        )@.latest_proposed_view < proposal.data.view_number {
                            proposal.data.view_number
                        } else {
                            old(self)@.latest_proposed_view
                        })
                        &&& (old(self)@.latest_proposed_view < proposal.data.view_number
                            ==> (forall|k: u64|
                            #[trigger] final(self)@.tasks.contains_key(k) <==> (old(
                                self,
                            )@.tasks.contains_key(k) && !(old(self)@.latest_proposed_view < k
                                <= proposal.data.view_number))))
                        &&& (old(self)@.latest_proposed_view >= proposal.data.view_number ==> final(self)@ == old(self)@)
                        &&& final(self)@.cur_epoch == old(self)@.cur_epoch
                        &&& final(self)@.formed_qcs == old(self)@.formed_qcs
                        &&& final(self)@.formed_next_qcs == old(self)@.formed_next_qcs
                        &&& final(self)@.formed_state_certs == old(self)@.formed_state_certs
                        &&& final(self)@.formed_upgrade_certificate == old(
                            self,
                        )@.formed_upgrade_certificate
                    },
                    HotShotEvent::QuorumProposalSend { proposal, .. } => {
                        &&& final(consensus)@ == old(consensus)@
                        &&& (old(self)@.latest_proposed_view < proposal.data.view_number ==> (
                        r == Ok::<ProposalHandleActions, ProposalHandleError>(spec_no_actions())
                            && final(self)@.latest_proposed_view == proposal.data.view_number))
                        &&& (old(self)@.latest_proposed_view < proposal.data.view_number
                            ==> (forall|k: u64|
                            #[trigger] final(self)@.tasks.contains_key(k) <==> (old(
                                self,
                            )@.tasks.contains_key(k) && !(old(self)@.latest_proposed_view < k
                                <= proposal.data.view_number))))
                        &&& (old(self)@.latest_proposed_view >= proposal.data.view_number ==> r
                            == Err::<ProposalHandleActions, ProposalHandleError>(
                            ProposalHandleError::StaleProposalSend,
                        ) && final(self)@ == old(self)@)
                        &&& final(self)@.cur_epoch == old(self)@.cur_epoch
                        &&& final(self)@.formed_qcs == old(self)@.formed_qcs
                        &&& final(self)@.formed_next_qcs == old(self)@.formed_next_qcs
                        &&& final(self)@.formed_state_certs == old(self)@.formed_state_certs
                        &&& final(self)@.formed_upgrade_certificate == old(
                            self,
                        )@.formed_upgrade_certificate
                    },
                    HotShotEvent::VidDisperseSend { view } => {
                        &&& r matches Ok(a)
                        &&& (r matches Ok(a) ==> a.create_task_for_view == Some(view)
                            && !a.epoch_transition_hint && a.emit_extended_qc is None
                            && a.store_high_qc_and_state_cert is None)
                        &&& final(self)@ == old(self)@
                        &&& final(consensus)@ == old(consensus)@
                    },
                    HotShotEvent::ViewChange { view, epoch } => {
                        &&& r == Ok::<ProposalHandleActions, ProposalHandleError>(
                            spec_no_actions(),
                        )
                        &&& final(consensus)@ == old(consensus)@
                        &&& (forall|k: u64|
                            #[trigger] final(self)@.tasks.contains_key(k) <==> (old(
                                self,
                            )@.tasks.contains_key(k) && k >= (if view > 0 {
                                (view - 1) as u64
                            } else {
                                0
                            })))
                        &&& final(self)@.cur_epoch == (match (old(self)@.cur_epoch, epoch) {
                            (_, None) => old(self)@.cur_epoch,
                            (None, Some(_)) => epoch,
                            (Some(cur), Some(e)) => if e > cur {
                                epoch
                            } else {
                                old(self)@.cur_epoch
                            },
                        })
                        &&& final(self)@.latest_proposed_view == old(self)@.latest_proposed_view
                        &&& final(self)@.formed_qcs == old(self)@.formed_qcs
                        &&& final(self)@.formed_next_qcs == old(self)@.formed_next_qcs
                        &&& final(self)@.formed_state_certs == old(self)@.formed_state_certs
                        &&& final(self)@.formed_upgrade_certificate == old(
                            self,
                        )@.formed_upgrade_certificate
                    },
                    HotShotEvent::Timeout { view } => {
                        &&& r == Ok::<ProposalHandleActions, ProposalHandleError>(
                            spec_no_actions(),
                        )
                        &&& final(consensus)@ == old(consensus)@
                        &&& final(self)@.latest_proposed_view == old(self)@.latest_proposed_view
                        &&& (forall|k: u64|
                            #[trigger] final(self)@.tasks.contains_key(k) <==> (old(
                                self,
                            )@.tasks.contains_key(k) && k >= (if view > 0 {
                                (view - 1) as u64
                            } else {
                                0
                            })))
                        &&& final(self)@.cur_epoch == old(self)@.cur_epoch
                        &&& final(self)@.formed_qcs == old(self)@.formed_qcs
                        &&& final(self)@.formed_next_qcs == old(self)@.formed_next_qcs
                        &&& final(self)@.formed_state_certs == old(self)@.formed_state_certs
                        &&& final(self)@.formed_upgrade_certificate == old(
                            self,
                        )@.formed_upgrade_certificate
                    },
                    HotShotEvent::NextEpochQc2Formed { qc } => {
                        let fresh = match old(consensus)@.next_epoch_high_qc {
                            Some(cur) => qc.view > cur.view,
                            None => true,
                        };
                        let ts1 = ProposalTaskSnapshot {
                            formed_next_qcs: old(self)@.formed_next_qcs.insert(qc.view, qc),
                            ..old(self)@
                        };
                        let fires = spec_eqc_fires(
                            ts1,
                            old(consensus)@.epoch_height,
                            qc.view,
                            qc.leaf_commit,
                            qc.block_number,
                            epochs_enabled,
                        );
                        &&& (!fresh ==> r == Err::<ProposalHandleActions, ProposalHandleError>(
                            ProposalHandleError::StaleNextEpochQc,
                        ) && final(self)@ == old(self)@ && final(consensus)@ == old(consensus)@)
                        &&& (fresh ==> (r matches Ok(a) && a.create_task_for_view == Some(
                            (qc.view + 1) as u64,
                        ) && a.epoch_transition_hint == in_transition_hint && (
                        a.emit_extended_qc is Some <==> fires)
                            && a.store_high_qc_and_state_cert is None))
                        &&& (fresh && !fires ==> final(self)@ == ts1 && final(consensus)@ == old(
                            consensus,
                        )@)
                        &&& (fresh && fires ==> ({
                            let eqc = ts1.formed_qcs[qc.view];
                            &&& (r matches Ok(a) ==> a.emit_extended_qc == Some(eqc))
                            &&& final(consensus)@.high_qc == (if eqc.view > old(
                                consensus,
                            )@.high_qc.view {
                                eqc
                            } else {
                                old(consensus)@.high_qc
                            })
                            &&& final(consensus)@.next_epoch_high_qc == (match old(
                                consensus,
                            )@.next_epoch_high_qc {
                                None => Some(qc),
                                Some(cur) => if qc.view > cur.view {
                                    Some(qc)
                                } else {
                                    Some(cur)
                                },
                            })
                            &&& final(consensus)@.locked_view == old(consensus)@.locked_view
                            &&& final(consensus)@.last_decided_view == old(
                                consensus,
                            )@.last_decided_view
                            &&& final(consensus)@.saved_leaves == old(consensus)@.saved_leaves
                            &&& final(consensus)@.state_cert == old(consensus)@.state_cert
                            &&& final(consensus)@.transition_qc == old(consensus)@.transition_qc
                            &&& final(consensus)@.highest_block == old(consensus)@.highest_block
                            &&& final(consensus)@.drb_results == old(consensus)@.drb_results
                            &&& final(consensus)@.validated_views == old(
                                consensus,
                            )@.validated_views
                            &&& final(consensus)@.da_certs == old(consensus)@.da_certs
                            &&& final(consensus)@.vid_shares == old(consensus)@.vid_shares
                            &&& (forall|k: u64|
                                #[trigger] final(self)@.formed_qcs.contains_key(k) <==> (
                                ts1.formed_qcs.contains_key(k) && k >= qc.view))
                            &&& (forall|k: u64|
                                #[trigger] final(self)@.formed_next_qcs.contains_key(k) <==> (
                                ts1.formed_next_qcs.contains_key(k) && k >= qc.view))
                            &&& final(self)@.latest_proposed_view == old(
                                self,
                            )@.latest_proposed_view
                            &&& final(self)@.cur_epoch == old(self)@.cur_epoch
                            &&& final(self)@.tasks == old(self)@.tasks
                            &&& final(self)@.formed_state_certs == old(self)@.formed_state_certs
                            &&& final(self)@.formed_upgrade_certificate == old(
                                self,
                            )@.formed_upgrade_certificate
                        }))
                    },
                    _ => {
                        &&& r == Ok::<ProposalHandleActions, ProposalHandleError>(
                            spec_no_actions(),
                        )
                        &&& final(self)@ == old(self)@
                        &&& final(consensus)@ == old(consensus)@
                    },
                }
            }),
    {
        let in_transition_hint = consensus.high_qc_in_transition();
        match event {
            HotShotEvent::UpgradeCertificateFormed { cert } => {
                self.store_upgrade_certificate(*cert);
                Ok(no_actions())
            },
            HotShotEvent::Qc2Formed { qc } => {
                self.store_formed_qc(*qc);
                let emit = self.handle_eqc_formed(
                    consensus,
                    qc.view,
                    qc.leaf_commit,
                    qc.block_number,
                    epochs_enabled,
                );
                Ok(
                    ProposalHandleActions {
                        create_task_for_view: Some(qc.view + 1),
                        epoch_transition_hint: in_transition_hint,
                        emit_extended_qc: emit,
                        store_high_qc_and_state_cert: None,
                    },
                )
            },
            HotShotEvent::TimeoutCert2Formed { cert } => Ok(
                ProposalHandleActions {
                    create_task_for_view: Some(cert.view + 1),
                    epoch_transition_hint: in_transition_hint,
                    emit_extended_qc: None,
                    store_high_qc_and_state_cert: None,
                },
            ),
            HotShotEvent::EpochRootQcFormed { qc, state_cert } => {
                self.store_formed_qc(*qc);
                self.store_formed_state_cert(*state_cert);
                Ok(
                    ProposalHandleActions {
                        create_task_for_view: Some(qc.view + 1),
                        epoch_transition_hint: in_transition_hint,
                        emit_extended_qc: None,
                        store_high_qc_and_state_cert: Some((*qc, *state_cert)),
                    },
                )
            },
            HotShotEvent::SendPayloadCommitmentAndMetadata { view, .. } => Ok(
                ProposalHandleActions {
                    create_task_for_view: Some(*view),
                    epoch_transition_hint: false,
                    emit_extended_qc: None,
                    store_high_qc_and_state_cert: None,
                },
            ),
            HotShotEvent::ViewSyncFinalizeCertificateRecv { cert } => {
                if !view_sync_cert_valid {
                    return Err(ProposalHandleError::InvalidViewSyncCert);
                }
                Ok(
                    ProposalHandleActions {
                        create_task_for_view: Some(cert.view),
                        epoch_transition_hint: false,
                        emit_extended_qc: None,
                        store_high_qc_and_state_cert: None,
                    },
                )
            },
            HotShotEvent::QuorumProposalPreliminarilyValidated { proposal } => {
                let _ = self.update_latest_proposed_view(proposal.data.view_number);
                Ok(
                    ProposalHandleActions {
                        create_task_for_view: Some(proposal.data.view_number + 1),
                        epoch_transition_hint: in_transition_hint,
                        emit_extended_qc: None,
                        store_high_qc_and_state_cert: None,
                    },
                )
            },
            HotShotEvent::QuorumProposalSend { proposal, .. } => {
                if self.update_latest_proposed_view(proposal.data.view_number) {
                    Ok(no_actions())
                } else {
                    Err(ProposalHandleError::StaleProposalSend)
                }
            },
            HotShotEvent::VidDisperseSend { view } => Ok(
                ProposalHandleActions {
                    create_task_for_view: Some(*view),
                    epoch_transition_hint: false,
                    emit_extended_qc: None,
                    store_high_qc_and_state_cert: None,
                },
            ),
            HotShotEvent::ViewChange { view, epoch } => {
                self.advance_epoch(*epoch);
                let keep = if *view > 0 {
                    *view - 1
                } else {
                    0
                };
                self.cancel_tasks(keep);
                Ok(no_actions())
            },
            HotShotEvent::Timeout { view } => {
                let keep = if *view > 0 {
                    *view - 1
                } else {
                    0
                };
                self.cancel_tasks(keep);
                Ok(no_actions())
            },
            HotShotEvent::NextEpochQc2Formed { qc } => {
                let stale = match consensus.next_epoch_high_qc() {
                    Some(cur) => qc.view <= cur.view,
                    None => false,
                };
                if stale {
                    return Err(ProposalHandleError::StaleNextEpochQc);
                }
                self.store_formed_next_epoch_qc(*qc);
                let emit = self.handle_eqc_formed(
                    consensus,
                    qc.view,
                    qc.leaf_commit,
                    qc.block_number,
                    epochs_enabled,
                );
                Ok(
                    ProposalHandleActions {
                        create_task_for_view: Some(qc.view + 1),
                        epoch_transition_hint: in_transition_hint,
                        emit_extended_qc: emit,
                        store_high_qc_and_state_cert: None,
                    },
                )
            },
            _ => Ok(no_actions()),
        }
    }

    /// Move the task's epoch forward when a view change reports a later
    /// one; the epoch never moves backwards.
    pub fn advance_epoch(&mut self, epoch: Option<u64>)
        ensures
            ({
                let advances = match (old(self)@.cur_epoch, epoch) {
                    (_, None) => false,
                    (None, Some(_)) => true,
                    (Some(cur), Some(e)) => e > cur,
                };
                &&& (advances ==> final(self)@ == ProposalTaskSnapshot {
                    cur_epoch: epoch,
                    ..old(self)@
                })
                &&& (!advances ==> final(self)@ == old(self)@)
            }),
    {
        let advances = match (&self.cur_epoch, &epoch) {
            (_, None) => false,
            (None, Some(_)) => true,
            (Some(cur), Some(e)) => *e > *cur,
        };
        if advances {
            self.cur_epoch = epoch;
        }
    }
}

} // verus!
