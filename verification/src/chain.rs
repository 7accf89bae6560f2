//! The sequencer's chain-level records: transactions, the genesis
//! record and the chain's global variables.
//!
//! Every record is content-addressed: its commitment is the digest of a
//! canonical, domain-separated byte encoding, so equal commitments
//! identify equal content up to the digest.

use vstd::prelude::*;

use crate::data::push_u64;
use crate::digest::{digest64, digest64_of};

verus! {

/// Validation failures of the chain-level records.
#[derive(Clone, Copy, Debug, PartialEq, Eq)]
pub enum Error {
    /// A block's parent state commitment does not match the current
    /// state.
    IncorrectParent,
    /// A new view number is not strictly after the current view.
    IncorrectView,
    /// The genesis block holds zero or more than one transaction.
    GenesisWrongSize,
    /// The genesis transaction is missing from the genesis block.
    MissingGenesis,
    /// A genesis transaction turned up in a non-genesis block.
    UnexpectedGenesis,
}

/// An application transaction bound for one of the chain's VMs.
#[derive(Clone, Debug, PartialEq, Eq)]
pub struct Transaction {
    vm: u64,
    payload: Vec<u8>,
}

/// Global variables of the chain, fixed at genesis.
#[derive(Clone, Copy, Debug, PartialEq, Eq)]
pub struct ChainVariables {
    /// A unique identifier for this chain, preventing cross-chain
    /// replays.
    pub chain_id: u16,
    /// The committee size.
    pub committee_size: u64,
}

/// The transaction a chain starts with.
#[derive(Clone, Copy, Debug, PartialEq, Eq)]
pub struct GenesisTransaction {
    /// The chain's global variables.
    pub chain_variables: ChainVariables,
}

/// Either the genesis transaction or an application transaction.
#[derive(Clone, Debug, PartialEq, Eq)]
pub enum SequencerTransaction {
    /// The genesis transaction.
    Genesis(GenesisTransaction),
    /// A wrapped application transaction.
    Wrapped(Transaction),
}

/// Canonical encoding of a transaction: a domain tag, the VM, and the
/// length-prefixed payload.
pub open spec fn spec_encode_transaction(vm: u64, payload: Seq<u8>) -> Seq<u8> {
    seq![1u8] + vstd::bytes::spec_u64_to_le_bytes(vm) + vstd::bytes::spec_u64_to_le_bytes(
        payload.len() as u64,
    ) + payload
}

/// Commitment of a transaction.
pub open spec fn spec_transaction_commit(vm: u64, payload: Seq<u8>) -> u64 {
    digest64_of(spec_encode_transaction(vm, payload))
}

impl Transaction {
    /// A transaction for VM `vm` carrying `payload`.
    pub fn new(vm: u64, payload: Vec<u8>) -> (t: Self)
        ensures
            t.spec_vm() == vm,
            t.spec_payload() == payload@,
    {
        Transaction { vm, payload }
    }

    /// The VM the transaction is bound for.
    pub closed spec fn spec_vm(&self) -> u64 {
        self.vm
    }

    /// The transaction's payload bytes.
    pub closed spec fn spec_payload(&self) -> Seq<u8> {
        self.payload@
    }

    /// The transaction's commitment: the digest of its canonical
    /// encoding.
    pub fn commit(&self) -> (c: u64)
        requires
            self.spec_payload().len() <= u64::MAX,
        ensures
            c == spec_transaction_commit(self.spec_vm(), self.spec_payload()),
    {
        let mut buf: Vec<u8> = Vec::new();
        buf.push(1u8);
        push_u64(&mut buf, self.vm);
        push_u64(&mut buf, self.payload.len() as u64);
        let mut i: usize = 0;
        let n = self.payload.len();
        let ghost prefix = buf@;
        while i < n
            invariant
                i <= n,
                n == self.payload@.len(),
                buf@ == prefix + self.payload@.take(i as int),
            decreases n - i,
        {
            buf.push(self.payload[i]);
            proof {
                assert(buf@ =~= prefix + self.payload@.take(i + 1));
            }
            i = i + 1;
        }
        proof {
            assert(self.payload@.take(n as int) =~= self.payload@);
            assert(buf@ =~= spec_encode_transaction(self.vm, self.payload@));
        }
        digest64(&buf)
    }
}

/// Canonical encoding of the chain variables.
pub open spec fn spec_encode_chain_variables(v: ChainVariables) -> Seq<u8> {
    seq![2u8] + vstd::bytes::spec_u64_to_le_bytes(v.chain_id as u64)
        + vstd::bytes::spec_u64_to_le_bytes(v.committee_size)
}

/// Commitment of the chain variables.
pub open spec fn spec_chain_variables_commit(v: ChainVariables) -> u64 {
    digest64_of(spec_encode_chain_variables(v))
}

impl ChainVariables {
    /// Chain variables with the given chain id and committee size.
    pub fn new(chain_id: u16, committee_size: u64) -> (r: Self)
        ensures
            r.chain_id == chain_id,
            r.committee_size == committee_size,
    {
        ChainVariables { chain_id, committee_size }
    }

    /// The commitment of the chain variables.
    pub fn commit(&self) -> (c: u64)
        ensures
            c == spec_chain_variables_commit(*self),
    {
        let mut buf: Vec<u8> = Vec::new();
        buf.push(2u8);
        push_u64(&mut buf, self.chain_id as u64);
        push_u64(&mut buf, self.committee_size);
        proof {
            assert(buf@ =~= spec_encode_chain_variables(*self));
        }
        digest64(&buf)
    }
}

impl Default for ChainVariables {
    /// The default chain: an arbitrarily chosen chain id and a small
    /// committee.
    fn default() -> (r: Self)
        ensures
            r.chain_id == 35353,
            r.committee_size == 3,
    {
        ChainVariables { chain_id: 35353, committee_size: 3 }
    }
}

/// Canonical encoding of the genesis transaction: a tag and the chain
/// variables' commitment.
pub open spec fn spec_encode_genesis(g: GenesisTransaction) -> Seq<u8> {
    seq![3u8] + vstd::bytes::spec_u64_to_le_bytes(spec_chain_variables_commit(g.chain_variables))
}

/// Commitment of the genesis transaction.
pub open spec fn spec_genesis_commit(g: GenesisTransaction) -> u64 {
    digest64_of(spec_encode_genesis(g))
}

impl GenesisTransaction {
    /// The genesis transaction's commitment.
    pub fn commit(&self) -> (c: u64)
        ensures
            c == spec_genesis_commit(*self),
    {
        let mut buf: Vec<u8> = Vec::new();
        buf.push(3u8);
        let inner = self.chain_variables.commit();
        push_u64(&mut buf, inner);
        proof {
            assert(buf@ =~= spec_encode_genesis(*self));
        }
        digest64(&buf)
    }
}

/// Canonical encoding of a sequencer transaction: a variant tag and the
/// inner record's commitment.
pub open spec fn spec_encode_sequencer_transaction(tag: u8, inner_commit: u64) -> Seq<u8> {
    seq![tag] + vstd::bytes::spec_u64_to_le_bytes(inner_commit)
}

impl SequencerTransaction {
    /// The sequencer transaction's commitment, domain-separated from
    /// both inner kinds.
    pub fn commit(&self) -> (c: u64)
        requires
            self matches SequencerTransaction::Wrapped(t) ==> t.spec_payload().len() <= u64::MAX,
        ensures
            c == (match self {
                SequencerTransaction::Genesis(g) => digest64_of(
                    spec_encode_sequencer_transaction(4u8, spec_genesis_commit(*g)),
                ),
                SequencerTransaction::Wrapped(t) => digest64_of(
                    spec_encode_sequencer_transaction(
                        5u8,
                        spec_transaction_commit(t.spec_vm(), t.spec_payload()),
                    ),
                ),
            }),
    {
        let (tag, inner): (u8, u64) = match self {
            SequencerTransaction::Genesis(g) => (4u8, g.commit()),
            SequencerTransaction::Wrapped(t) => (5u8, t.commit()),
        };
        let mut buf: Vec<u8> = Vec::new();
        buf.push(tag);
        push_u64(&mut buf, inner);
        proof {
            assert(buf@ =~= spec_encode_sequencer_transaction(tag, inner));
        }
        digest64(&buf)
    }
}

} // verus!
