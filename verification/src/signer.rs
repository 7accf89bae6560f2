//! Storage for light-client state signatures.
//!
//! After every decide the replica signs the new light-client state and
//! keeps the most recent signatures in memory so the relay can collect
//! them; the pool holds at most [`SIGNATURE_STORAGE_CAPACITY`]
//! signatures and evicts the oldest height when it overflows.

use vstd::prelude::*;

use crate::vmap::VMap;

verus! {

/// Capacity of the in-memory signature pool.
pub const SIGNATURE_STORAGE_CAPACITY: usize = 100;

/// The light-client state a replica signs after a decide.
#[derive(Clone, Copy, Debug, PartialEq, Eq)]
pub struct LightClientState {
    /// The decided view.
    pub view_number: u64,
    /// The decided block height.
    pub block_height: u64,
    /// Commitment of the decided block.
    pub block_comm_root: u64,
}

/// A state signature as served to the relay: the signer's key, the
/// signed state, and the signature.
#[derive(Clone, Copy, Debug, PartialEq, Eq)]
pub struct StateSignatureRequestBody {
    /// The signer's state key.
    pub key: u64,
    /// The signed light-client state.
    pub state: LightClientState,
    /// The Schnorr signature over the state.
    pub signature: u64,
}

/// A rolling in-memory store for the most recent state signatures,
/// keyed by block height.
pub struct StateSignatureMemStorage {
    pool: VMap<StateSignatureRequestBody>,
    deque: Vec<u64>,
}

impl StateSignatureMemStorage {
    /// The signatures by height.
    pub closed spec fn spec_pool(&self) -> Map<u64, StateSignatureRequestBody> {
        self.pool@
    }

    /// The heights in insertion order, oldest first.
    pub closed spec fn spec_heights(&self) -> Seq<u64> {
        self.deque@
    }

    /// An empty store.
    pub fn new() -> (s: Self)
        ensures
            s.spec_pool() == Map::<u64, StateSignatureRequestBody>::empty(),
            s.spec_heights() == Seq::<u64>::empty(),
    {
        StateSignatureMemStorage { pool: VMap::new(), deque: Vec::new() }
    }

    /// Store the signature for a height. The signature is retrievable
    /// right away; when the pool has outgrown its capacity the oldest
    /// recorded height is evicted.
    pub fn push(&mut self, height: u64, signature: StateSignatureRequestBody)
        ensures
            ({
                let inserted = old(self).spec_pool().insert(height, signature);
                let grown = old(self).spec_heights().push(height);
                if inserted.dom().len() > SIGNATURE_STORAGE_CAPACITY && grown.len() > 0 {
                    final(self).spec_pool() == inserted.remove(grown[0])
                        && final(self).spec_heights() == grown.drop_first()
                } else {
                    final(self).spec_pool() == inserted && final(self).spec_heights() == grown
                }
            }),
    {
        self.pool.insert(height, signature);
        self.deque.push(height);
        if self.pool.len() > SIGNATURE_STORAGE_CAPACITY && self.deque.len() > 0 {
            let oldest = self.deque.remove(0);
            self.pool.remove(oldest);
            proof {
                assert(self.deque@ =~= old(self).spec_heights().push(height).drop_first());
            }
        }
    }

    /// The stored signature for a height, if one is held.
    pub fn get_signature(&self, height: u64) -> (r: Option<StateSignatureRequestBody>)
        ensures
            r == (if self.spec_pool().contains_key(height) {
                Some(self.spec_pool()[height])
            } else {
                None::<StateSignatureRequestBody>
            }),
    {
        self.pool.get(height)
    }
}

} // verus!
