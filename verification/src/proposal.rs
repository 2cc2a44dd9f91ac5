//! Data carried by a pass-through block proposal.

use vstd::prelude::*;

verus! {

/// The fixed author identifier of every pass-through proposal: there is a
/// single author, so the placeholder identifier is always the same.
pub const PASSTHROUGH_AUTHOR: u64 = 0;

/// A mempool snapshot fingerprint: a hash summarizing the currently pending
/// transaction payload. The all-zero value is the distinguished "empty"
/// sentinel meaning that nothing is pending.
pub struct Fingerprint {
    pub bytes: Vec<u8>,
}

/// Whether a fingerprint value is the empty sentinel (every byte zero).
pub open spec fn fingerprint_is_empty(bytes: Seq<u8>) -> bool {
    forall|i: int| 0 <= i < bytes.len() ==> bytes[i] == 0u8
}

impl View for Fingerprint {
    type V = Seq<u8>;

    open spec fn view(&self) -> Seq<u8> {
        self.bytes@
    }
}

impl Fingerprint {
    /// The empty sentinel fingerprint.
    pub fn empty() -> (r: Fingerprint)
        ensures
            fingerprint_is_empty(r@),
    {
        Fingerprint { bytes: Vec::new() }
    }

    /// Whether this fingerprint is the empty sentinel.
    pub fn is_empty(&self) -> (r: bool)
        ensures
            r == fingerprint_is_empty(self@),
    {
        let mut i: usize = 0;
        while i < self.bytes.len()
            invariant
                i <= self.bytes.len(),
                forall|j: int| 0 <= j < i ==> self.bytes@[j] == 0u8,
            decreases self.bytes.len() - i,
        {
            if self.bytes[i] != 0 {
                return false;
            }
            i += 1;
        }
        true
    }

    /// A fresh fingerprint holding the same bytes.
    pub fn duplicate(&self) -> (r: Fingerprint)
        ensures
            r@ == self@,
    {
        let mut bytes: Vec<u8> = Vec::new();
        let mut i: usize = 0;
        while i < self.bytes.len()
            invariant
                i <= self.bytes.len(),
                bytes@ == self.bytes@.take(i as int),
            decreases self.bytes.len() - i,
        {
            bytes.push(self.bytes[i]);
            proof {
                assert(bytes@ =~= self.bytes@.take(i as int + 1));
            }
            i += 1;
        }
        proof {
            assert(bytes@ =~= self.bytes@);
        }
        Fingerprint { bytes }
    }
}

/// A single-author block proposal: the fixed author identifier and the
/// mempool fingerprint observed when the proposal was decided.
pub struct BlockProposal {
    pub author: u64,
    pub hash: Fingerprint,
}

/// A block proposal paired with the beacon block index it proposes.
pub struct ConsensusBlockProposal {
    pub proposal: BlockProposal,
    pub index: u64,
}

/// The mathematical content of a `ConsensusBlockProposal`.
pub ghost struct ProposalModel {
    pub author: int,
    pub hash: Seq<u8>,
    pub index: int,
}

impl View for ConsensusBlockProposal {
    type V = ProposalModel;

    open spec fn view(&self) -> ProposalModel {
        ProposalModel {
            author: self.proposal.author as int,
            hash: self.proposal.hash@,
            index: self.index as int,
        }
    }
}

} // verus!
