//! The block data model: what the pipeline reads from a fetched block, and
//! the one-block carry (`PreviousBlockState`) that the reward engine threads
//! from each processed block to the next.

use vstd::prelude::*;

verus! {

/// One coinbase solution of a block: a prover's contribution, weighted by its
/// proof target.
#[derive(Debug)]
pub struct PartialSolution {
    pub address: String,
    pub nonce: u64,
    pub commitment: String,
    pub proof_target: u64,
}

/// Mathematical model of a `PartialSolution`.
pub ghost struct SolutionModel {
    pub address: Seq<char>,
    pub nonce: u64,
    pub commitment: Seq<char>,
    pub proof_target: u64,
}

impl View for PartialSolution {
    type V = SolutionModel;

    open spec fn view(&self) -> SolutionModel {
        SolutionModel {
            address: self.address@,
            nonce: self.nonce,
            commitment: self.commitment@,
            proof_target: self.proof_target,
        }
    }
}

/// A block as fetched from the source, reduced to the fields the pipeline
/// reads. Heights and rounds increase strictly by one along the chain.
#[derive(Debug)]
pub struct Block {
    pub height: u32,
    pub round: u32,
    pub timestamp: i64,
    pub previous_hash: String,
    pub last_coinbase_timestamp: i64,
    pub solutions: Vec<PartialSolution>,
}

/// Mathematical model of a `Block`.
pub ghost struct BlockModel {
    pub height: u32,
    pub round: u32,
    pub timestamp: i64,
    pub previous_hash: Seq<char>,
    pub last_coinbase_timestamp: i64,
    pub solutions: Seq<SolutionModel>,
}

impl View for Block {
    type V = BlockModel;

    open spec fn view(&self) -> BlockModel {
        BlockModel {
            height: self.height,
            round: self.round,
            timestamp: self.timestamp,
            previous_hash: self.previous_hash@,
            last_coinbase_timestamp: self.last_coinbase_timestamp,
            solutions: self.solutions@.map_values(|s: PartialSolution| s@),
        }
    }
}

/// The minimal carry from one processed block to the next: the only state the
/// reward engine keeps between blocks.
#[derive(Debug, Clone, Copy, PartialEq, Eq, Structural)]
pub struct PreviousBlockState {
    pub height: u32,
    pub round: u32,
    pub timestamp: i64,
    pub last_coinbase_timestamp: i64,
}

/// The carry that processing a block with model `b` leaves behind.
pub open spec fn previous_of(b: BlockModel) -> PreviousBlockState {
    PreviousBlockState {
        height: b.height,
        round: b.round,
        timestamp: b.timestamp,
        last_coinbase_timestamp: b.last_coinbase_timestamp,
    }
}

impl Block {
    /// The carry this block leaves for its successor's reward computation.
    pub fn to_previous(&self) -> (p: PreviousBlockState)
        ensures
            p == previous_of(self@),
    {
        PreviousBlockState {
            height: self.height,
            round: self.round,
            timestamp: self.timestamp,
            last_coinbase_timestamp: self.last_coinbase_timestamp,
        }
    }

    /// An owned copy with the same model.
    pub fn duplicate(&self) -> (r: Block)
        ensures
            r@ == self@,
    {
        Block {
            height: self.height,
            round: self.round,
            timestamp: self.timestamp,
            previous_hash: self.previous_hash.clone(),
            last_coinbase_timestamp: self.last_coinbase_timestamp,
            solutions: duplicate_solutions(&self.solutions),
        }
    }
}

impl PartialSolution {
    /// An owned copy with the same fields.
    pub fn duplicate(&self) -> (r: PartialSolution)
        ensures
            r == *self,
    {
        PartialSolution {
            address: self.address.clone(),
            nonce: self.nonce,
            commitment: self.commitment.clone(),
            proof_target: self.proof_target,
        }
    }
}

/// An owned copy of a solution list, element for element.
pub fn duplicate_solutions(v: &Vec<PartialSolution>) -> (r: Vec<PartialSolution>)
    ensures
        r@ == v@,
{
    let mut r: Vec<PartialSolution> = Vec::new();
    let mut i: usize = 0;
    while i < v.len()
        invariant
            i <= v.len(),
            r@ == v@.take(i as int),
        decreases v.len() - i,
    {
        r.push(v[i].duplicate());
        proof {
            assert(v@.take(i + 1).drop_last() =~= v@.take(i as int));
            assert(r@ =~= v@.take(i + 1));
        }
        i = i + 1;
    }
    proof {
        assert(v@.take(v@.len() as int) =~= v@);
    }
    r
}

} // verus!
