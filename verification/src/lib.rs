//! Verified consensus core of a BFT sequencer with epoch-based
//! reconfiguration and light-client state certification.
//!
//! The crate models the per-view replica pipeline: gathering the
//! dependencies of a proposal, validating inbound proposals, joining a
//! validated proposal with its data-availability certificate and VID share
//! to produce a vote, and the epoch-transition machinery (epoch roots,
//! transition blocks, DRB results, double quorums) that threads through all
//! three. Networking, storage backends and cryptographic primitives stay
//! outside; the logic that decides what to send, what to accept and how the
//! shared consensus state may change is stated in contracts and proved.

pub mod chain;
pub mod commission;
pub mod committee;
pub mod consensus;
pub mod data;
pub mod decide;
pub mod digest;
pub mod epoch;
pub mod events;
pub mod proposal;
pub mod proposal_task;
pub mod recv;
pub mod reward;
pub mod signer;
pub mod stake;
pub mod validation;
pub mod vid;
pub mod vmap;
pub mod vote;
pub mod vote_task;

use vstd::prelude::*;

verus! {

/// Number of basis points that make up the whole: commissions and reward
/// ratios are expressed as fractions of this.
pub const COMMISSION_BASIS_POINTS: u16 = 10000;

} // verus!
