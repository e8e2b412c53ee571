//! Blocks, finality signatures and validator weights, as the accumulator reads them.

use vstd::prelude::*;

verus! {

/// The identity of a block: its content hash.
pub type BlockHash = u64;

/// The identity of a peer of the network.
pub type NodeId = u64;

/// The identity of an era.
pub type EraId = u64;

/// The identity of a validator (its public key).
pub type ValidatorId = u64;

/// A block as far as accumulation reads it.
#[derive(Clone, Copy, Debug, PartialEq, Eq)]
pub struct Block {
    pub hash: BlockHash,
    pub parent_hash: Option<BlockHash>,
    pub era_id: EraId,
    pub height: u64,
}

/// A block is well formed when exactly the genesis block (height 0) lacks a parent.
pub open spec fn block_well_formed(b: Block) -> bool {
    b.parent_hash.is_none() <==> b.height == 0
}

impl Block {
    pub fn new(hash: BlockHash, parent_hash: Option<BlockHash>, era_id: EraId, height: u64) -> (r:
        Block)
        ensures
            r == (Block { hash, parent_hash, era_id, height }),
    {
        Block { hash, parent_hash, era_id, height }
    }

    pub fn is_well_formed(&self) -> (r: bool)
        ensures
            r == block_well_formed(*self),
    {
        self.parent_hash.is_none() == (self.height == 0)
    }
}

/// The identity of a finality signature: who signed which block in which era.
#[derive(Clone, Copy, Debug, PartialEq, Eq)]
pub struct FinalitySignatureId {
    pub block_hash: BlockHash,
    pub era_id: EraId,
    pub public_key: ValidatorId,
}

/// A validator's attestation that a block is final.
#[derive(Clone, Copy, Debug, PartialEq, Eq)]
pub struct FinalitySignature {
    pub block_hash: BlockHash,
    pub era_id: EraId,
    pub public_key: ValidatorId,
    pub signature: u64,
}

pub open spec fn signature_id(s: FinalitySignature) -> FinalitySignatureId {
    FinalitySignatureId { block_hash: s.block_hash, era_id: s.era_id, public_key: s.public_key }
}

impl FinalitySignature {
    pub fn new(block_hash: BlockHash, era_id: EraId, public_key: ValidatorId, signature: u64) -> (r:
        FinalitySignature)
        ensures
            r == (FinalitySignature { block_hash, era_id, public_key, signature }),
    {
        FinalitySignature { block_hash, era_id, public_key, signature }
    }

    pub fn id(&self) -> (r: FinalitySignatureId)
        ensures
            r == signature_id(*self),
    {
        FinalitySignatureId {
            block_hash: self.block_hash,
            era_id: self.era_id,
            public_key: self.public_key,
        }
    }
}

/// Largest value of a single weight.
pub const MAX_WEIGHT: u64 = 0xffff_ffff_ffff_ffff;

/// The weight of validator `v` in a table: that of its first entry, 0 where it has none.
pub open spec fn weight_of(w: Seq<(ValidatorId, u64)>, v: ValidatorId) -> nat
    decreases w.len(),
{
    if w.len() == 0 {
        0
    } else if w[0].0 == v {
        w[0].1 as nat
    } else {
        weight_of(w.drop_first(), v)
    }
}

/// The total weight of a table: the sum of all its entries.
pub open spec fn total_weight(w: Seq<(ValidatorId, u64)>) -> nat
    decreases w.len(),
{
    if w.len() == 0 {
        0
    } else {
        total_weight(w.drop_last()) + w.last().1 as nat
    }
}

/// The weight that a list of signatures carries under a table.
pub open spec fn signed_weight(sigs: Seq<FinalitySignature>, w: Seq<(ValidatorId, u64)>) -> nat
    decreases sigs.len(),
{
    if sigs.len() == 0 {
        0
    } else {
        signed_weight(sigs.drop_last(), w) + weight_of(w, sigs.last().public_key)
    }
}

/// The quorum rule: strictly more than one third of the era's total weight has signed.
pub open spec fn is_quorum(signed: nat, total: nat) -> bool {
    3 * signed > total
}

/// The weights of the validators of one era.
#[derive(Debug)]
pub struct EraValidatorWeights {
    pub era_id: EraId,
    pub weights: Vec<(ValidatorId, u64)>,
}

impl EraValidatorWeights {
    pub fn new(era_id: EraId, weights: Vec<(ValidatorId, u64)>) -> (r: EraValidatorWeights)
        ensures
            r.era_id == era_id,
            r.weights@ == weights@,
    {
        EraValidatorWeights { era_id, weights }
    }

    /// A copy of the table, entry by entry.
    pub fn duplicate(&self) -> (r: EraValidatorWeights)
        ensures
            r.era_id == self.era_id,
            r.weights@ == self.weights@,
    {
        let mut out: Vec<(ValidatorId, u64)> = Vec::new();
        let mut i: usize = 0;
        while i < self.weights.len()
            invariant
                i <= self.weights@.len(),
                out@ == self.weights@.take(i as int),
            decreases self.weights@.len() - i,
        {
            out.push(self.weights[i]);
            i += 1;
            assert(out@ =~= self.weights@.take(i as int));
        }
        assert(out@ =~= self.weights@);
        EraValidatorWeights { era_id: self.era_id, weights: out }
    }

    pub fn weight(&self, v: ValidatorId) -> (r: u64)
        ensures
            r as nat == weight_of(self.weights@, v),
    {
        let mut i: usize = 0;
        assert(self.weights@.skip(0) =~= self.weights@);
        while i < self.weights.len()
            invariant
                i <= self.weights@.len(),
                weight_of(self.weights@, v) == weight_of(self.weights@.skip(i as int), v),
            decreases self.weights@.len() - i,
        {
            assert(self.weights@.skip(i as int).drop_first() =~= self.weights@.skip(i + 1));
            if self.weights[i].0 == v {
                return self.weights[i].1;
            }
            i += 1;
        }
        assert(self.weights@.skip(i as int).len() == 0);
        0
    }

    pub fn total(&self) -> (r: u128)
        ensures
            r as nat == total_weight(self.weights@),
    {
        let mut acc: u128 = 0;
        let mut i: usize = 0;
        while i < self.weights.len()
            invariant
                i <= self.weights@.len(),
                acc as nat == total_weight(self.weights@.take(i as int)),
                acc <= i * (MAX_WEIGHT as int),
            decreases self.weights@.len() - i,
        {
            assert(self.weights@.take(i + 1).drop_last() =~= self.weights@.take(i as int));
            acc = acc + self.weights[i].1 as u128;
            i += 1;
        }
        assert(self.weights@.take(i as int) =~= self.weights@);
        acc
    }

    /// The weight of `sigs` under this table.
    pub fn signed(&self, sigs: &Vec<FinalitySignature>) -> (r: u128)
        ensures
            r as nat == signed_weight(sigs@, self.weights@),
    {
        let mut acc: u128 = 0;
        let mut i: usize = 0;
        while i < sigs.len()
            invariant
                i <= sigs@.len(),
                acc as nat == signed_weight(sigs@.take(i as int), self.weights@),
                acc <= i * (MAX_WEIGHT as int),
            decreases sigs@.len() - i,
        {
            assert(sigs@.take(i + 1).drop_last() =~= sigs@.take(i as int));
            let w = self.weight(sigs[i].public_key);
            acc = acc + w as u128;
            i += 1;
        }
        assert(sigs@.take(i as int) =~= sigs@);
        acc
    }

    /// Whether `sigs` carry a quorum of this era's weight.
    pub fn is_sufficient(&self, sigs: &Vec<FinalitySignature>) -> (r: bool)
        ensures
            r == is_quorum(signed_weight(sigs@, self.weights@), total_weight(self.weights@)),
    {
        let s = self.signed(sigs);
        let t = self.total();
        proof {
            let q = t as int / 3;
            assert(3 * (s as int) > t as int <==> s as int > q) by (nonlinear_arith)
                requires
                    q == t as int / 3,
                    t >= 0,
            ;
        }
        s > t / 3
    }
}

/// The validator weights of every era known so far.
#[derive(Debug)]
pub struct ValidatorMatrix {
    pub eras: Vec<EraValidatorWeights>,
}

/// The position of the first table of `era` in `eras`, if any.
pub open spec fn era_index(eras: Seq<EraValidatorWeights>, era: EraId) -> Option<int> {
    if exists|i: int| 0 <= i < eras.len() && eras[i].era_id == era {
        Some(
            choose|i: int|
                0 <= i < eras.len() && eras[i].era_id == era && forall|j: int|
                    0 <= j < i ==> eras[j].era_id != era,
        )
    } else {
        None
    }
}

impl ValidatorMatrix {
    pub fn new() -> (r: ValidatorMatrix)
        ensures
            r.eras@.len() == 0,
    {
        ValidatorMatrix { eras: Vec::new() }
    }

    /// Adds the table of an era that has none yet; a table already known is kept.
    pub fn register_era_validator_weights(&mut self, w: EraValidatorWeights)
        ensures
            era_index(old(self).eras@, w.era_id) is Some ==> final(self).eras@ == old(self).eras@,
            era_index(old(self).eras@, w.era_id) is None ==> final(self).eras@ == old(
                self,
            ).eras@.push(w),
    {
        let mut i: usize = 0;
        while i < self.eras.len()
            invariant
                i <= self.eras@.len(),
                forall|j: int| 0 <= j < i ==> self.eras@[j].era_id != w.era_id,
            decreases self.eras@.len() - i,
        {
            if self.eras[i].era_id == w.era_id {
                return;
            }
            i += 1;
        }
        self.eras.push(w);
    }

    /// The table of `era`, if it is known.
    pub fn validator_weights(&self, era: EraId) -> (r: Option<EraValidatorWeights>)
        ensures
            era_index(self.eras@, era) is None <==> r is None,
            r is Some ==> r->0.era_id == era && r->0.weights@ == self.eras@[era_index(
                self.eras@,
                era,
            )->0].weights@,
    {
        let mut i: usize = 0;
        while i < self.eras.len()
            invariant
                i <= self.eras@.len(),
                forall|j: int| 0 <= j < i ==> self.eras@[j].era_id != era,
            decreases self.eras@.len() - i,
        {
            if self.eras[i].era_id == era {
                proof {
                    let k = era_index(self.eras@, era)->0;
                    assert(0 <= k < self.eras@.len() && self.eras@[k].era_id == era);
                    if k < i {
                    } else if k > i {
                        assert(self.eras@[i as int].era_id == era);
                    }
                }
                return Some(self.eras[i].duplicate());
            }
            i += 1;
        }
        None
    }
}

} // verus!
