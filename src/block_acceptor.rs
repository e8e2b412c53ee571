//! The state gathered for one block hash: its block, its signatures, who vouched for it, and
//! whether its signers carry a quorum of their era's weight.

use vstd::prelude::*;

use crate::types::{
    block_well_formed, signed_weight, total_weight, weight_of, is_quorum, Block, BlockHash, EraId,
    EraValidatorWeights, FinalitySignature, NodeId,
};

verus! {

/// Why an acceptor refused a block or a signature.
#[derive(Debug)]
#[allow(inconsistent_fields)]
pub enum AcceptorError {
    /// The content is invalid; the peer that sent it misbehaves.
    InvalidGossip { peer: NodeId },
    /// The item's era conflicts with the era that the acceptor already knows.
    EraMismatch { block_hash: BlockHash, expected: EraId, actual: EraId },
    /// The item is for another block than the one the acceptor is for.
    BlockHashMismatch { expected: BlockHash, actual: BlockHash, peer: NodeId },
    /// The acceptor's own state is inconsistent; a well-formed acceptor never reports it.
    InvalidState,
}

/// What a newly registered signature asks to be persisted.
#[derive(Debug)]
pub enum ShouldStore {
    /// The block has just reached quorum: store it with all its signatures.
    SufficientlySignedBlock { block: Block, signatures: Vec<FinalitySignature> },
    /// Store this one signature.
    SingleSignature(FinalitySignature),
    /// Nothing new to store.
    Nothing,
}

/// The state gathered for one block hash.
#[derive(Debug)]
pub struct BlockAcceptor {
    pub block_hash: BlockHash,
    pub block: Option<Block>,
    pub peers: Vec<NodeId>,
    pub signatures: Vec<FinalitySignature>,
    pub era_validator_weights: Option<EraValidatorWeights>,
    /// Whether the block has already been handed out together with a quorum of signatures.
    pub sufficiently_signed_handed_out: bool,
}

/// The era of the acceptor: that of its block, else that of its weights, if either is known.
pub open spec fn known_era(a: BlockAcceptor) -> Option<EraId> {
    match a.block {
        Some(b) => Some(b.era_id),
        None => match a.era_validator_weights {
            Some(w) => Some(w.era_id),
            None => None,
        },
    }
}

/// A peer set after `p` has vouched.
pub open spec fn with_peer(peers: Seq<NodeId>, p: NodeId) -> Seq<NodeId> {
    if peers.contains(p) {
        peers
    } else {
        peers.push(p)
    }
}

pub open spec fn has_signer(sigs: Seq<FinalitySignature>, k: u64) -> bool {
    exists|i: int| 0 <= i < sigs.len() && sigs[i].public_key == k
}

/// Whether a signature may stay under era `era` and, where known, the weight table `w`.
pub open spec fn signature_fits(
    s: FinalitySignature,
    era: EraId,
    w: Option<Seq<(u64, u64)>>,
) -> bool {
    s.era_id == era && (w is None || weight_of(w->0, s.public_key) > 0)
}

/// The signatures that stay, in their order, once those that do not fit are purged.
pub open spec fn retained(
    sigs: Seq<FinalitySignature>,
    era: EraId,
    w: Option<Seq<(u64, u64)>>,
) -> Seq<FinalitySignature>
    decreases sigs.len(),
{
    if sigs.len() == 0 {
        sigs
    } else if signature_fits(sigs.last(), era, w) {
        retained(sigs.drop_last(), era, w).push(sigs.last())
    } else {
        retained(sigs.drop_last(), era, w)
    }
}

/// Well-formedness: everything held belongs to this hash and to one era.
pub open spec fn acceptor_wf(a: BlockAcceptor) -> bool {
    &&& (forall|i: int|
        0 <= i < a.signatures@.len() ==> #[trigger] a.signatures@[i].block_hash == a.block_hash)
    &&& (known_era(a) matches Some(e) ==> forall|i: int|
        0 <= i < a.signatures@.len() ==> #[trigger] a.signatures@[i].era_id == e)
    &&& (a.block matches Some(b) ==> b.hash == a.block_hash)
    &&& (a.block matches Some(b) ==> a.era_validator_weights matches Some(w) ==> w.era_id
        == b.era_id)
}

/// Quorum: the block and its era's weights are known, and its signers carry more than a third.
pub open spec fn sufficient(a: BlockAcceptor) -> bool {
    &&& a.block is Some
    &&& a.era_validator_weights is Some
    &&& is_quorum(
        signed_weight(a.signatures@, a.era_validator_weights->0.weights@),
        total_weight(a.era_validator_weights->0.weights@),
    )
}

/// The entries of a table, if there is one.
pub open spec fn table_of(w: Option<EraValidatorWeights>) -> Option<Seq<(u64, u64)>> {
    match w {
        Some(t) => Some(t.weights@),
        None => None,
    }
}

/// A table of another era than that of the known block is not attached.
pub open spec fn refresh_ignored(a: BlockAcceptor, w: EraValidatorWeights) -> bool {
    a.block matches Some(b) && b.era_id != w.era_id
}

/// The error, if any, with which a block is refused.
pub open spec fn block_refusal(a: BlockAcceptor, block: Block, peer: NodeId) -> Option<
    AcceptorError,
> {
    if block.hash != a.block_hash {
        Some(
            AcceptorError::BlockHashMismatch { expected: a.block_hash, actual: block.hash, peer },
        )
    } else if !block_well_formed(block) {
        Some(AcceptorError::InvalidGossip { peer })
    } else if known_era(a) is Some && known_era(a)->0 != block.era_id {
        Some(
            AcceptorError::EraMismatch {
                block_hash: a.block_hash,
                expected: known_era(a)->0,
                actual: block.era_id,
            },
        )
    } else {
        None
    }
}

/// The error, if any, with which a signature is refused.
pub open spec fn signature_refusal(
    a: BlockAcceptor,
    s: FinalitySignature,
    peer: NodeId,
) -> Option<AcceptorError> {
    if s.block_hash != a.block_hash {
        Some(
            AcceptorError::BlockHashMismatch { expected: a.block_hash, actual: s.block_hash, peer },
        )
    } else if known_era(a) is Some && known_era(a)->0 != s.era_id {
        Some(
            AcceptorError::EraMismatch {
                block_hash: a.block_hash,
                expected: known_era(a)->0,
                actual: s.era_id,
            },
        )
    } else if a.era_validator_weights is Some && weight_of(
        a.era_validator_weights->0.weights@,
        s.public_key,
    ) == 0 {
        Some(AcceptorError::InvalidGossip { peer })
    } else {
        None
    }
}

fn copy_signatures(v: &Vec<FinalitySignature>) -> (r: Vec<FinalitySignature>)
    ensures
        r@ == v@,
{
    let mut out: Vec<FinalitySignature> = Vec::new();
    let mut i: usize = 0;
    while i < v.len()
        invariant
            i <= v@.len(),
            out@ == v@.take(i as int),
        decreases v@.len() - i,
    {
        out.push(v[i]);
        i += 1;
        assert(out@ =~= v@.take(i as int));
    }
    assert(out@ =~= v@);
    out
}

impl BlockAcceptor {
    /// An acceptor for `block_hash` that knows nothing but the peers that vouched for it.
    pub fn new(block_hash: BlockHash, peers: Vec<NodeId>) -> (r: BlockAcceptor)
        ensures
            r.block_hash == block_hash,
            r.block is None,
            r.peers@ == peers@,
            r.signatures@.len() == 0,
            r.era_validator_weights is None,
            !r.sufficiently_signed_handed_out,
            acceptor_wf(r),
    {
        BlockAcceptor {
            block_hash,
            block: None,
            peers,
            signatures: Vec::new(),
            era_validator_weights: None,
            sufficiently_signed_handed_out: false,
        }
    }

    /// An acceptor for `block_hash` that already knows its era's weights.
    pub fn new_with_validator_weights(
        block_hash: BlockHash,
        weights: EraValidatorWeights,
        peers: Vec<NodeId>,
    ) -> (r: BlockAcceptor)
        ensures
            r.block_hash == block_hash,
            r.block is None,
            r.peers@ == peers@,
            r.signatures@.len() == 0,
            r.era_validator_weights == Some(weights),
            !r.sufficiently_signed_handed_out,
            acceptor_wf(r),
    {
        BlockAcceptor {
            block_hash,
            block: None,
            peers,
            signatures: Vec::new(),
            era_validator_weights: Some(weights),
            sufficiently_signed_handed_out: false,
        }
    }

    pub fn block_hash(&self) -> (r: BlockHash)
        ensures
            r == self.block_hash,
    {
        self.block_hash
    }

    pub fn block(&self) -> (r: Option<Block>)
        ensures
            r == self.block,
    {
        self.block
    }

    /// The height of the block, once its body is known.
    pub fn block_height(&self) -> (r: Option<u64>)
        ensures
            r == (match self.block {
                Some(b) => Some(b.height),
                None => None,
            }),
    {
        match self.block {
            Some(b) => Some(b.height),
            None => None,
        }
    }

    pub fn era_id(&self) -> (r: Option<EraId>)
        ensures
            r == known_era(*self),
    {
        match self.block {
            Some(b) => Some(b.era_id),
            None => match &self.era_validator_weights {
                Some(w) => Some(w.era_id),
                None => None,
            },
        }
    }

    /// The era and height of the block, once its body is known.
    pub fn block_era_and_height(&self) -> (r: Option<(EraId, u64)>)
        ensures
            r == (match self.block {
                Some(b) => Some((b.era_id, b.height)),
                None => None,
            }),
    {
        match self.block {
            Some(b) => Some((b.era_id, b.height)),
            None => None,
        }
    }

    pub fn peers(&self) -> (r: Vec<NodeId>)
        ensures
            r@ == self.peers@,
    {
        let mut out: Vec<NodeId> = Vec::new();
        let mut i: usize = 0;
        while i < self.peers.len()
            invariant
                i <= self.peers@.len(),
                out@ == self.peers@.take(i as int),
            decreases self.peers@.len() - i,
        {
            out.push(self.peers[i]);
            i += 1;
            assert(out@ =~= self.peers@.take(i as int));
        }
        assert(out@ =~= self.peers@);
        out
    }

    pub fn has_sufficient_finality(&self) -> (r: bool)
        ensures
            r == sufficient(*self),
    {
        match (&self.block, &self.era_validator_weights) {
            (Some(_), Some(w)) => w.is_sufficient(&self.signatures),
            _ => false,
        }
    }

    fn add_peer(&mut self, p: NodeId)
        ensures
            final(self).peers@ == with_peer(old(self).peers@, p),
            final(self).block_hash == old(self).block_hash,
            final(self).block == old(self).block,
            final(self).signatures == old(self).signatures,
            final(self).era_validator_weights == old(self).era_validator_weights,
            final(self).sufficiently_signed_handed_out == old(self).sufficiently_signed_handed_out,
    {
        let mut i: usize = 0;
        while i < self.peers.len()
            invariant
                i <= self.peers@.len(),
                forall|j: int| 0 <= j < i ==> self.peers@[j] != p,
            decreases self.peers@.len() - i,
        {
            if self.peers[i] == p {
                assert(self.peers@.contains(p));
                return;
            }
            i += 1;
        }
        self.peers.push(p);
    }

    fn contains_signer(&self, k: u64) -> (r: bool)
        ensures
            r == has_signer(self.signatures@, k),
    {
        let mut i: usize = 0;
        while i < self.signatures.len()
            invariant
                i <= self.signatures@.len(),
                forall|j: int| 0 <= j < i ==> self.signatures@[j].public_key != k,
            decreases self.signatures@.len() - i,
        {
            if self.signatures[i].public_key == k {
                return true;
            }
            i += 1;
        }
        false
    }

    /// Drops the signatures that do not fit era `era` and, where given, the weights `w`.
    fn purge_signatures(&mut self, era: EraId, w: &Option<EraValidatorWeights>)
        ensures
            final(self).signatures@ == retained(old(self).signatures@, era, table_of(*w)),
            forall|i: int|
                0 <= i < final(self).signatures@.len() ==> #[trigger] final(self).signatures@[i].era_id == era,
            forall|i: int|
                0 <= i < final(self).signatures@.len() ==> old(self).signatures@.contains(
                    #[trigger] final(self).signatures@[i],
                ),
            final(self).block_hash == old(self).block_hash,
            final(self).block == old(self).block,
            final(self).peers == old(self).peers,
            final(self).era_validator_weights == old(self).era_validator_weights,
            final(self).sufficiently_signed_handed_out == old(self).sufficiently_signed_handed_out,
    {
        let ghost ws = table_of(*w);
        let ghost orig = self.signatures@;
        let mut out: Vec<FinalitySignature> = Vec::new();
        let mut i: usize = 0;
        while i < self.signatures.len()
            invariant
                self.signatures@ == orig,
                ws == table_of(*w),
                i <= orig.len(),
                out@ == retained(orig.take(i as int), era, ws),
                forall|j: int| 0 <= j < out@.len() ==> #[trigger] out@[j].era_id == era,
                forall|j: int| 0 <= j < out@.len() ==> orig.contains(#[trigger] out@[j]),
            decreases orig.len() - i,
        {
            let s = self.signatures[i];
            assert(orig.take(i + 1).drop_last() =~= orig.take(i as int));
            let fits = if s.era_id != era {
                false
            } else {
                match w {
                    Some(t) => {
                        let k = t.weight(s.public_key);
                        assert(ws == Some(t.weights@));
                        k > 0
                    },
                    None => {
                        assert(ws is None);
                        true
                    },
                }
            };
            assert(fits == signature_fits(s, era, ws));
            assert(orig.take(i + 1).last() == s);
            if fits {
                out.push(s);
                assert(orig.contains(s)) by {
                    assert(orig[i as int] == s);
                }
            }
            i += 1;
        }
        assert(orig.take(i as int) =~= orig);
        self.signatures = out;
    }

    /// Registers the body of the block, sent by `peer`.
    pub fn register_block(&mut self, block: Block, peer: NodeId) -> (r: Result<(), AcceptorError>)
        requires
            acceptor_wf(*old(self)),
        ensures
            acceptor_wf(*final(self)),
            block_refusal(*old(self), block, peer) matches Some(e) ==> r == Err::<(), _>(e)
                && *final(self) == *old(self),
            block_refusal(*old(self), block, peer) is None ==> {
                &&& r is Ok
                &&& final(self).block == if old(self).block is Some {
                    old(self).block
                } else {
                    Some(block)
                }
                &&& final(self).peers@ == with_peer(old(self).peers@, peer)
                &&& final(self).signatures@ == retained(
                    old(self).signatures@,
                    block.era_id,
                    None,
                )
                &&& final(self).block_hash == old(self).block_hash
                &&& final(self).era_validator_weights == old(self).era_validator_weights
                &&& final(self).sufficiently_signed_handed_out == old(self).sufficiently_signed_handed_out
            },
    {
        if block.hash != self.block_hash {
            return Err(
                AcceptorError::BlockHashMismatch {
                    expected: self.block_hash,
                    actual: block.hash,
                    peer,
                },
            );
        }
        if !block.is_well_formed() {
            return Err(AcceptorError::InvalidGossip { peer });
        }
        if let Some(era) = self.era_id() {
            if era != block.era_id {
                return Err(
                    AcceptorError::EraMismatch {
                        block_hash: self.block_hash,
                        expected: era,
                        actual: block.era_id,
                    },
                );
            }
        }
        self.add_peer(peer);
        if self.block.is_none() {
            self.block = Some(block);
        }
        self.purge_signatures(block.era_id, &None);
        Ok(())
    }

    /// Registers a finality signature sent by `peer`, and says what is to be persisted.
    pub fn register_finality_signature(&mut self, sig: FinalitySignature, peer: NodeId) -> (r:
        Result<ShouldStore, AcceptorError>)
        requires
            acceptor_wf(*old(self)),
        ensures
            acceptor_wf(*final(self)),
            signature_refusal(*old(self), sig, peer) matches Some(e) ==> r == Err::<
                ShouldStore,
                _,
            >(e) && *final(self) == *old(self),
            signature_refusal(*old(self), sig, peer) is None ==> {
                &&& final(self).peers@ == with_peer(old(self).peers@, peer)
                &&& final(self).block_hash == old(self).block_hash
                &&& final(self).block == old(self).block
                &&& final(self).era_validator_weights == old(self).era_validator_weights
                &&& has_signer(old(self).signatures@, sig.public_key) ==> {
                    &&& r == Ok::<_, AcceptorError>(ShouldStore::Nothing)
                    &&& final(self).signatures == old(self).signatures
                    &&& final(self).sufficiently_signed_handed_out == old(self).sufficiently_signed_handed_out
                }
                &&& !has_signer(old(self).signatures@, sig.public_key) ==> {
                    &&& final(self).signatures@ == old(self).signatures@.push(sig)
                    &&& old(self).sufficiently_signed_handed_out ==> r == Ok::<
                        _,
                        AcceptorError,
                    >(ShouldStore::Nothing) && final(self).sufficiently_signed_handed_out
                    &&& !old(self).sufficiently_signed_handed_out && sufficient(*final(self))
                        ==> final(self).sufficiently_signed_handed_out && (r matches Ok(
                        ShouldStore::SufficientlySignedBlock { block, signatures },
                    ) && Some(block) == old(self).block && signatures@ == final(self).signatures@)
                    &&& !old(self).sufficiently_signed_handed_out && !sufficient(*final(self))
                        ==> !final(self).sufficiently_signed_handed_out && r == Ok::<
                        _,
                        AcceptorError,
                    >(ShouldStore::SingleSignature(sig))
                }
            },
    {
        if sig.block_hash != self.block_hash {
            return Err(
                AcceptorError::BlockHashMismatch {
                    expected: self.block_hash,
                    actual: sig.block_hash,
                    peer,
                },
            );
        }
        if let Some(era) = self.era_id() {
            if era != sig.era_id {
                return Err(
                    AcceptorError::EraMismatch {
                        block_hash: self.block_hash,
                        expected: era,
                        actual: sig.era_id,
                    },
                );
            }
        }
        if let Some(w) = &self.era_validator_weights {
            if w.weight(sig.public_key) == 0 {
                return Err(AcceptorError::InvalidGossip { peer });
            }
        }
        self.add_peer(peer);
        if self.contains_signer(sig.public_key) {
            return Ok(ShouldStore::Nothing);
        }
        self.signatures.push(sig);
        if self.sufficiently_signed_handed_out {
            return Ok(ShouldStore::Nothing);
        }
        if self.has_sufficient_finality() {
            match self.block {
                Some(block) => {
                    self.sufficiently_signed_handed_out = true;
                    let signatures = copy_signatures(&self.signatures);
                    Ok(ShouldStore::SufficientlySignedBlock { block, signatures })
                },
                None => Ok(ShouldStore::Nothing),
            }
        } else {
            Ok(ShouldStore::SingleSignature(sig))
        }
    }

    /// Attaches a fresh weight table for the acceptor's era and purges the signatures of
    /// signers that it does not weigh. A table of another era than the block's is ignored.
    pub fn refresh(&mut self, weights: EraValidatorWeights)
        requires
            acceptor_wf(*old(self)),
        ensures
            acceptor_wf(*final(self)),
            refresh_ignored(*old(self), weights) ==> *final(self) == *old(self),
            !refresh_ignored(*old(self), weights) ==> {
                &&& final(self).era_validator_weights == Some(weights)
                &&& final(self).signatures@ == retained(
                    old(self).signatures@,
                    weights.era_id,
                    Some(weights.weights@),
                )
                &&& final(self).block_hash == old(self).block_hash
                &&& final(self).block == old(self).block
                &&& final(self).peers == old(self).peers
                &&& final(self).sufficiently_signed_handed_out == old(self).sufficiently_signed_handed_out
            },
    {
        if let Some(b) = &self.block {
            if b.era_id != weights.era_id {
                return;
            }
        }
        let era = weights.era_id;
        let w = Some(weights);
        self.purge_signatures(era, &w);
        self.era_validator_weights = w;
    }
}

} // verus!
