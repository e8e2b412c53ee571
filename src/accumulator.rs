//! The registry of acceptors: routing of gossiped blocks and signatures, eviction below the
//! local tip, and the effects that registration asks for.

use vstd::prelude::*;

use std::collections::{HashMap, HashSet};

use crate::acceptor_list::{
    acceptor_at, all_usable, has_acceptor, index_of, keys_distinct, lemma_index_of,
    lemma_others_trans, lemma_push, lemma_remove, lemma_update, others_unchanged,
};
use crate::block_acceptor::{
    acceptor_wf, block_refusal, has_signer, known_era, retained, signature_refusal, table_of,
    with_peer, AcceptorError, BlockAcceptor, ShouldStore,
};
use crate::types::{
    block_well_formed, era_index, is_quorum, signed_weight, total_weight, weight_of,
    Block, BlockHash, EraId, FinalitySignature, FinalitySignatureId, NodeId, ValidatorMatrix,
};

verus! {

broadcast use vstd::std_specs::hash::group_hash_axioms;

/// Settings of the accumulator.
#[derive(Clone, Copy, Debug)]
pub struct Config {
    /// How far below the highest usable block a node may be and still keep up by execution.
    pub attempt_execution_threshold: u64,
    /// How long, in milliseconds, the node waits without progress before it leaps.
    pub dead_air_interval: u64,
}

impl Config {
    pub fn new(attempt_execution_threshold: u64, dead_air_interval: u64) -> (r: Config)
        ensures
            r.attempt_execution_threshold == attempt_execution_threshold,
            r.dead_air_interval == dead_air_interval,
    {
        Config { attempt_execution_threshold, dead_air_interval }
    }

    pub fn attempt_execution_threshold(&self) -> (r: u64)
        ensures
            r == self.attempt_execution_threshold,
    {
        self.attempt_execution_threshold
    }

    pub fn dead_air_interval(&self) -> (r: u64)
        ensures
            r == self.dead_air_interval,
    {
        self.dead_air_interval
    }
}


/// The tracked acceptors, with the hashes that are done with.
pub struct BlockAccumulator {
    pub validator_matrix: ValidatorMatrix,
    pub attempt_execution_threshold: u64,
    pub dead_air_interval: u64,
    /// One acceptor per block hash, in the order they were first seen. A list keeps the proofs of
    /// the operations that walk and change every acceptor (refreshing weights, evicting below
    /// the tip) simple; no answer of the accumulator depends on the order.
    pub block_acceptors: Vec<BlockAcceptor>,
    /// The most recently seen child of each parent.
    pub block_children: HashMap<BlockHash, BlockHash>,
    pub already_handled: HashSet<BlockHash>,
    /// When, in milliseconds, a sync instruction last made progress.
    pub last_progress: u64,
    /// The height of the subjective local tip of the chain.
    pub local_tip: Option<u64>,
}


/// At most one acceptor per hash, each well formed, none for a hash that is done with.
pub open spec fn accumulator_wf(a: BlockAccumulator) -> bool {
    &&& keys_distinct(a.block_acceptors@)
    &&& forall|i: int|
        0 <= i < a.block_acceptors@.len() ==> acceptor_wf(#[trigger] a.block_acceptors@[i])
    &&& forall|i: int|
        0 <= i < a.block_acceptors@.len() ==> !a.already_handled@.contains(
            #[trigger] a.block_acceptors@[i].block_hash,
        )
}

pub open spec fn height_of(a: BlockAcceptor) -> Option<u64> {
    match a.block {
        Some(b) => Some(b.height),
        None => None,
    }
}

pub open spec fn height_or_zero(a: BlockAcceptor) -> u64 {
    match a.block {
        Some(b) => b.height,
        None => 0,
    }
}


/// Everything but the acceptors and the time of progress is as before.
pub open spec fn same_frame(x: BlockAccumulator, y: BlockAccumulator) -> bool {
    &&& x.validator_matrix == y.validator_matrix
    &&& x.attempt_execution_threshold == y.attempt_execution_threshold
    &&& x.dead_air_interval == y.dead_air_interval
    &&& x.local_tip == y.local_tip
}


/// A side effect that the accumulator asks its environment to carry out.
#[derive(Debug)]
pub enum Effect {
    DisconnectFromPeer(NodeId),
    /// Persist the block, then its signatures; then report them stored.
    StoreBlockAndSignatures { block: crate::types::Block, signatures: Vec<FinalitySignature> },
    /// Persist one signature; then report it stored.
    StoreSignature(FinalitySignature),
    AnnounceBlockAccepted(BlockHash),
    AnnounceFinalitySignatureAccepted(FinalitySignatureId),
    /// The answer to a question for the peers of a block.
    PeersForBlock { block_hash: BlockHash, peers: Option<Vec<NodeId>> },
}

/// `x` is the acceptor that would be made for `k` in era `era`, vouched for by `peers`.
pub open spec fn fresh_acceptor(
    x: BlockAcceptor,
    k: BlockHash,
    era: EraId,
    m: ValidatorMatrix,
    peers: Seq<NodeId>,
) -> bool {
    &&& x.block_hash == k
    &&& x.block is None
    &&& x.signatures@.len() == 0
    &&& x.peers@ == peers
    &&& !x.sufficiently_signed_handed_out
    &&& (era_index(m.eras@, era) is None ==> x.era_validator_weights is None)
    &&& (era_index(m.eras@, era) matches Some(i) ==> x.era_validator_weights is Some
        && x.era_validator_weights->0.era_id == era && x.era_validator_weights->0.weights@
        == m.eras@[i].weights@)
}

/// The era that the acceptor for `k` knows, or would know once made for era `era`.
pub open spec fn target_era(a: BlockAccumulator, k: BlockHash, era: EraId) -> Option<EraId> {
    if has_acceptor(a.block_acceptors@, k) {
        known_era(acceptor_at(a.block_acceptors@, k))
    } else if era_index(a.validator_matrix.eras@, era) is Some {
        Some(era)
    } else {
        None
    }
}

/// The weight table that the acceptor for `k` holds, or would hold once made for era `era`.
pub open spec fn target_table(a: BlockAccumulator, k: BlockHash, era: EraId) -> Option<
    Seq<(u64, u64)>,
> {
    if has_acceptor(a.block_acceptors@, k) {
        table_of(acceptor_at(a.block_acceptors@, k).era_validator_weights)
    } else {
        match era_index(a.validator_matrix.eras@, era) {
            Some(i) => Some(a.validator_matrix.eras@[i].weights@),
            None => None,
        }
    }
}

/// Whether a block is too old for the local tip.
pub open spec fn is_outdated(a: BlockAccumulator, height: u64) -> bool {
    a.local_tip matches Some(t) && height < t
}

/// The error with which the acceptor for a block refuses it, if any.
pub open spec fn block_verdict(a: BlockAccumulator, block: Block, sender: NodeId) -> Option<
    AcceptorError,
> {
    if !block_well_formed(block) {
        Some(AcceptorError::InvalidGossip { peer: sender })
    } else if target_era(a, block.hash, block.era_id) is Some && target_era(
        a,
        block.hash,
        block.era_id,
    )->0 != block.era_id {
        Some(
            AcceptorError::EraMismatch {
                block_hash: block.hash,
                expected: target_era(a, block.hash, block.era_id)->0,
                actual: block.era_id,
            },
        )
    } else {
        None
    }
}

/// The error with which the acceptor for a signature refuses it, if any.
pub open spec fn signature_verdict(
    a: BlockAccumulator,
    sig: FinalitySignature,
    sender: NodeId,
) -> Option<AcceptorError> {
    if target_era(a, sig.block_hash, sig.era_id) is Some && target_era(
        a,
        sig.block_hash,
        sig.era_id,
    )->0 != sig.era_id {
        Some(
            AcceptorError::EraMismatch {
                block_hash: sig.block_hash,
                expected: target_era(a, sig.block_hash, sig.era_id)->0,
                actual: sig.era_id,
            },
        )
    } else if target_table(a, sig.block_hash, sig.era_id) is Some && weight_of(
        target_table(a, sig.block_hash, sig.era_id)->0,
        sig.public_key,
    ) == 0 {
        Some(AcceptorError::InvalidGossip { peer: sender })
    } else {
        None
    }
}

/// The children index after a block was seen.
pub open spec fn children_after(c: Map<BlockHash, BlockHash>, block: Block) -> Map<
    BlockHash,
    BlockHash,
> {
    match block.parent_hash {
        Some(p) => c.insert(p, block.hash),
        None => c,
    }
}


/// Whether adding `sig` to `a`'s signatures gives its known block a quorum.
pub open spec fn completes_quorum(a: BlockAcceptor, sig: FinalitySignature) -> bool {
    &&& a.block is Some
    &&& a.era_validator_weights is Some
    &&& is_quorum(
        signed_weight(a.signatures@.push(sig), a.era_validator_weights->0.weights@),
        total_weight(a.era_validator_weights->0.weights@),
    )
}

/// Whether an accepted signature is new to the acceptor that is (or would be) there for it,
/// and the block's quorum was not handed out yet.
pub open spec fn signature_is_news(a: BlockAccumulator, sig: FinalitySignature) -> bool {
    !has_acceptor(a.block_acceptors@, sig.block_hash) || {
        let prev = acceptor_at(a.block_acceptors@, sig.block_hash);
        !has_signer(prev.signatures@, sig.public_key) && !prev.sufficiently_signed_handed_out
    }
}

/// Whether an accepted signature, new to its acceptor, brings its block to quorum.
pub open spec fn signature_completes(a: BlockAccumulator, sig: FinalitySignature) -> bool {
    has_acceptor(a.block_acceptors@, sig.block_hash) && completes_quorum(
        acceptor_at(a.block_acceptors@, sig.block_hash),
        sig,
    )
}


/// The acceptors that a local tip at `h` keeps, in their order: those whose height (0 where it
/// is unknown) is at least `h`.
pub open spec fn kept_at_tip(s: Seq<BlockAcceptor>, h: u64) -> Seq<BlockAcceptor>
    decreases s.len(),
{
    if s.len() == 0 {
        s
    } else if height_or_zero(s.last()) >= h {
        kept_at_tip(s.drop_last(), h).push(s.last())
    } else {
        kept_at_tip(s.drop_last(), h)
    }
}

/// The hashes of the acceptors that a local tip at `h` evicts.
pub open spec fn evicted_at_tip(s: Seq<BlockAcceptor>, h: u64) -> Set<BlockHash>
    decreases s.len(),
{
    if s.len() == 0 {
        Set::empty()
    } else if height_or_zero(s.last()) >= h {
        evicted_at_tip(s.drop_last(), h)
    } else {
        evicted_at_tip(s.drop_last(), h).insert(s.last().block_hash)
    }
}

pub open spec fn max_tip(tip: Option<u64>, h: u64) -> Option<u64> {
    match tip {
        Some(t) if t > h => Some(t),
        _ => Some(h),
    }
}

/// Membership in what a tip keeps and evicts.
pub proof fn lemma_tip_membership(s: Seq<BlockAcceptor>, h: u64)
    ensures
        forall|x: BlockAcceptor|
            #[trigger] kept_at_tip(s, h).contains(x) <==> s.contains(x) && height_or_zero(x) >= h,
        forall|k: BlockHash|
            #[trigger] evicted_at_tip(s, h).contains(k) <==> exists|i: int|
                0 <= i < s.len() && s[i].block_hash == k && height_or_zero(s[i]) < h,
    decreases s.len(),
{
    if s.len() > 0 {
        let t = s.drop_last();
        lemma_tip_membership(t, h);
        assert forall|x: BlockAcceptor| s.contains(x) <==> t.contains(x) || x == s.last() by {
            if s.contains(x) {
                let i = choose|i: int| 0 <= i < s.len() && s[i] == x;
                if i < t.len() {
                    assert(t[i] == x);
                }
            }
            if t.contains(x) {
                let i = choose|i: int| 0 <= i < t.len() && t[i] == x;
                assert(s[i] == x);
            }
            if x == s.last() {
                assert(s[s.len() - 1] == x);
            }
        }
        assert forall|k: BlockHash|
            #[trigger] evicted_at_tip(s, h).contains(k) <==> exists|i: int|
                0 <= i < s.len() && s[i].block_hash == k && height_or_zero(s[i]) < h by {
            if exists|i: int| 0 <= i < s.len() && s[i].block_hash == k && height_or_zero(s[i]) < h {
                let i = choose|i: int|
                    0 <= i < s.len() && s[i].block_hash == k && height_or_zero(s[i]) < h;
                if i < t.len() {
                    assert(t[i] == s[i]);
                }
            }
            if evicted_at_tip(t, h).contains(k) {
                let i = choose|i: int|
                    0 <= i < t.len() && t[i].block_hash == k && height_or_zero(t[i]) < h;
                assert(s[i] == t[i]);
            }
        }
        if height_or_zero(s.last()) >= h {
            assert forall|x: BlockAcceptor|
                #[trigger] kept_at_tip(s, h).contains(x) <==> s.contains(x) && height_or_zero(x)
                    >= h by {
                let kt = kept_at_tip(t, h);
                if kt.push(s.last()).contains(x) && x != s.last() {
                    let i = choose|i: int| 0 <= i < kt.len() + 1 && kt.push(s.last())[i] == x;
                    assert(kt[i] == x);
                }
                if kt.contains(x) {
                    let i = choose|i: int| 0 <= i < kt.len() && kt[i] == x;
                    assert(kt.push(s.last())[i] == x);
                }
                if x == s.last() {
                    assert(kt.push(s.last())[kt.len() as int] == x);
                }
            }
        } else {
            assert(kept_at_tip(s, h) == kept_at_tip(t, h));
            assert forall|x: BlockAcceptor|
                #[trigger] kept_at_tip(s, h).contains(x) <==> s.contains(x) && height_or_zero(x)
                    >= h by {
                assert(kept_at_tip(t, h).contains(x) <==> t.contains(x) && height_or_zero(x) >= h);
            }
        }
    }
}

/// What a tip keeps has distinct keys, holds none of what it evicts, and is usable.
pub proof fn lemma_tip_keeps_wf(s: Seq<BlockAcceptor>, h: u64, handled: Set<BlockHash>)
    requires
        keys_distinct(s),
        all_usable(s, handled),
    ensures
        keys_distinct(kept_at_tip(s, h)),
        all_usable(kept_at_tip(s, h), handled.union(evicted_at_tip(s, h))),
    decreases s.len(),
{
    lemma_tip_membership(s, h);
    if s.len() > 0 {
        let t = s.drop_last();
        assert forall|i: int, j: int|
            0 <= i < t.len() && 0 <= j < t.len() && i != j implies #[trigger] t[i].block_hash
                != #[trigger] t[j].block_hash by {
            assert(t[i] == s[i] && t[j] == s[j]);
        }
        lemma_tip_keeps_wf(t, h, handled);
        lemma_tip_membership(t, h);
        let k = kept_at_tip(s, h);
        assert forall|i: int, j: int|
            0 <= i < k.len() && 0 <= j < k.len() && i != j implies #[trigger] k[i].block_hash
                != #[trigger] k[j].block_hash by {
            let kt = kept_at_tip(t, h);
            if height_or_zero(s.last()) >= h {
                if i < kt.len() && j < kt.len() {
                    assert(k[i] == kt[i] && k[j] == kt[j]);
                } else if i < kt.len() {
                    assert(k[i] == kt[i]);
                    assert(kt.contains(kt[i]));
                    let a = choose|a: int| 0 <= a < t.len() && t[a] == kt[i];
                    assert(s[a] == t[a]);
                    assert(k[j] == s[s.len() - 1]);
                } else if j < kt.len() {
                    assert(k[j] == kt[j]);
                    assert(kt.contains(kt[j]));
                    let a = choose|a: int| 0 <= a < t.len() && t[a] == kt[j];
                    assert(s[a] == t[a]);
                    assert(k[i] == s[s.len() - 1]);
                }
            }
        }
        assert forall|i: int| 0 <= i < k.len() implies acceptor_wf(#[trigger] k[i])
            && !handled.union(evicted_at_tip(s, h)).contains(k[i].block_hash) by {
            assert(k.contains(k[i]));
            let a = choose|a: int| 0 <= a < s.len() && s[a] == k[i];
            assert(height_or_zero(s[a]) >= h);
            if evicted_at_tip(s, h).contains(k[i].block_hash) {
                let b = choose|b: int|
                    0 <= b < s.len() && s[b].block_hash == k[i].block_hash && height_or_zero(s[b])
                        < h;
                assert(a != b);
            }
        }
    }
}


/// `y` is `x` after the weights of its era were fetched anew from `m`, where `m` has them.
pub open spec fn refreshed(x: BlockAcceptor, y: BlockAcceptor, m: ValidatorMatrix) -> bool {
    match known_era(x) {
        Some(e) => match era_index(m.eras@, e) {
            Some(j) => {
                &&& y.block_hash == x.block_hash
                &&& y.block == x.block
                &&& y.peers == x.peers
                &&& y.sufficiently_signed_handed_out == x.sufficiently_signed_handed_out
                &&& y.era_validator_weights is Some
                &&& y.era_validator_weights->0.era_id == e
                &&& y.era_validator_weights->0.weights@ == m.eras@[j].weights@
                &&& y.signatures@ == retained(x.signatures@, e, Some(m.eras@[j].weights@))
            },
            None => y == x,
        },
        None => y == x,
    }
}

/// The peers of the acceptor that registering an item for `k` from `sender` starts from: those
/// of the acceptor there, or the sender alone for one made anew.
pub open spec fn base_peers(a: BlockAccumulator, k: BlockHash, sender: NodeId) -> Seq<NodeId> {
    if has_acceptor(a.block_acceptors@, k) {
        acceptor_at(a.block_acceptors@, k).peers@
    } else {
        seq![sender]
    }
}

/// The signatures of the acceptor that registering an item for `k` starts from.
pub open spec fn base_signatures(a: BlockAccumulator, k: BlockHash) -> Seq<FinalitySignature> {
    if has_acceptor(a.block_acceptors@, k) {
        acceptor_at(a.block_acceptors@, k).signatures@
    } else {
        Seq::empty()
    }
}

/// The block of the acceptor that registering an item for `k` starts from.
pub open spec fn base_block(a: BlockAccumulator, k: BlockHash) -> Option<Block> {
    if has_acceptor(a.block_acceptors@, k) {
        acceptor_at(a.block_acceptors@, k).block
    } else {
        None
    }
}

/// Whether the acceptor that registering an item for `k` starts from has handed out its quorum.
pub open spec fn base_handed_out(a: BlockAccumulator, k: BlockHash) -> bool {
    has_acceptor(a.block_acceptors@, k) && acceptor_at(
        a.block_acceptors@,
        k,
    ).sufficiently_signed_handed_out
}

/// `y` holds the weights of the acceptor that registering an item of era `era` for `k` starts
/// from: those of the acceptor there, or, for one made anew, the era's weights where known.
pub open spec fn keeps_base_weights(
    a: BlockAccumulator,
    k: BlockHash,
    era: EraId,
    y: BlockAcceptor,
) -> bool {
    if has_acceptor(a.block_acceptors@, k) {
        y.era_validator_weights == acceptor_at(a.block_acceptors@, k).era_validator_weights
    } else {
        match era_index(a.validator_matrix.eras@, era) {
            None => y.era_validator_weights is None,
            Some(i) => y.era_validator_weights is Some && y.era_validator_weights->0.era_id == era
                && y.era_validator_weights->0.weights@ == a.validator_matrix.eras@[i].weights@,
        }
    }
}

/// `y` is the acceptor that registering an item of era `era` for `k` from `sender` starts from:
/// the one there, or one made anew.
pub open spec fn is_base_acceptor(
    a: BlockAccumulator,
    k: BlockHash,
    era: EraId,
    sender: NodeId,
    y: BlockAcceptor,
) -> bool {
    if has_acceptor(a.block_acceptors@, k) {
        y == acceptor_at(a.block_acceptors@, k)
    } else {
        fresh_acceptor(y, k, era, a.validator_matrix, seq![sender])
    }
}

/// How registering `block` from `sender` takes the accumulator from `a` to `b`, with effects
/// `r`. A block below the local tip only drops its acceptor. Otherwise its parent link is
/// recorded and, unless its hash is done with, it goes to its acceptor, made where there is
/// none: refused for its era, the acceptor is discarded; refused as invalid, the sender is
/// disconnected; accepted, the acceptor holds a block.
pub open spec fn block_registered(
    a: BlockAccumulator,
    b: BlockAccumulator,
    block: Block,
    sender: NodeId,
    r: Seq<Effect>,
) -> bool {
    let s = a.block_acceptors@;
    let t = b.block_acceptors@;
    let k = block.hash;
    let verdict = block_verdict(a, block, sender);
    &&& same_frame(a, b)
    &&& b.last_progress == a.last_progress
    &&& b.already_handled == a.already_handled
    &&& (is_outdated(a, block.height) ==> {
        &&& r.len() == 0
        &&& b.block_children == a.block_children
        &&& !has_acceptor(t, k)
        &&& others_unchanged(s, t, k)
    })
    &&& (!is_outdated(a, block.height) ==> {
        &&& b.block_children@ == children_after(a.block_children@, block)
        &&& a.already_handled@.contains(k) ==> r.len() == 0 && b.block_acceptors
            == a.block_acceptors
    })
    &&& (!is_outdated(a, block.height) && !a.already_handled@.contains(k) ==> {
        &&& others_unchanged(s, t, k)
        &&& verdict matches Some(AcceptorError::EraMismatch { .. }) ==> r.len() == 0
            && !has_acceptor(t, k)
        &&& verdict matches Some(AcceptorError::InvalidGossip { peer }) ==> r =~= seq![
            Effect::DisconnectFromPeer(peer),
        ] && has_acceptor(t, k) && is_base_acceptor(
            a,
            k,
            block.era_id,
            sender,
            acceptor_at(t, k),
        )
        &&& verdict is None ==> {
            &&& r.len() == 0
            &&& has_acceptor(t, k)
            &&& acceptor_at(t, k).block == if has_acceptor(s, k) && acceptor_at(
                s,
                k,
            ).block is Some {
                acceptor_at(s, k).block
            } else {
                Some(block)
            }
            &&& acceptor_at(t, k).peers@ == with_peer(base_peers(a, k, sender), sender)
            &&& acceptor_at(t, k).signatures@ == retained(
                base_signatures(a, k),
                block.era_id,
                None,
            )
            &&& keeps_base_weights(a, k, block.era_id, acceptor_at(t, k))
            &&& acceptor_at(t, k).sufficiently_signed_handed_out == base_handed_out(a, k)
        }
    })
}

/// How registering `sig` from `sender` takes the accumulator from `a` to `b`, with effects `r`.
/// Unless its hash is done with, the signature goes to its acceptor, made where there is none:
/// refused as invalid, the sender is disconnected; refused for its era, nothing happens; a new
/// signature is stored alone, or with its block and the other signatures when it completes a
/// quorum that was not handed out yet.
pub open spec fn signature_registered(
    a: BlockAccumulator,
    b: BlockAccumulator,
    sig: FinalitySignature,
    sender: NodeId,
    r: Seq<Effect>,
) -> bool {
    let s = a.block_acceptors@;
    let t = b.block_acceptors@;
    let k = sig.block_hash;
    let verdict = signature_verdict(a, sig, sender);
    &&& same_frame(a, b)
    &&& b.last_progress == a.last_progress
    &&& b.already_handled == a.already_handled
    &&& b.block_children == a.block_children
    &&& (a.already_handled@.contains(k) ==> r.len() == 0 && b.block_acceptors
        == a.block_acceptors)
    &&& (!a.already_handled@.contains(k) ==> {
        &&& others_unchanged(s, t, k)
        &&& has_acceptor(t, k)
        &&& verdict matches Some(AcceptorError::EraMismatch { .. }) ==> r.len() == 0
        &&& verdict matches Some(AcceptorError::InvalidGossip { peer }) ==> r =~= seq![
            Effect::DisconnectFromPeer(peer),
        ]
        &&& verdict is Some ==> is_base_acceptor(a, k, sig.era_id, sender, acceptor_at(t, k))
        &&& verdict is None ==> {
            let y = acceptor_at(t, k);
            let sigs = base_signatures(a, k);
            &&& y.block == base_block(a, k)
            &&& keeps_base_weights(a, k, sig.era_id, y)
            &&& y.peers@ == with_peer(base_peers(a, k, sender), sender)
            &&& y.signatures@ == if has_signer(sigs, sig.public_key) {
                sigs
            } else {
                sigs.push(sig)
            }
            &&& y.sufficiently_signed_handed_out == (base_handed_out(a, k) || (!has_signer(
                sigs,
                sig.public_key,
            ) && signature_completes(a, sig)))
            &&& !signature_is_news(a, sig) ==> r.len() == 0
            &&& signature_is_news(a, sig) && signature_completes(a, sig) ==> {
                &&& r.len() == 1
                &&& r[0] matches Effect::StoreBlockAndSignatures { block, signatures }
                &&& Some(block) == acceptor_at(s, k).block
                &&& signatures@ == acceptor_at(s, k).signatures@.push(sig)
            }
            &&& signature_is_news(a, sig) && !signature_completes(a, sig) ==> r =~= seq![
                Effect::StoreSignature(sig),
            ]
        }
    })
}

/// How a local tip at `h` takes the accumulator from `a` to `b`.
pub open spec fn tip_registered(a: BlockAccumulator, b: BlockAccumulator, h: u64) -> bool {
    &&& b.local_tip == max_tip(a.local_tip, h)
    &&& b.block_acceptors@ == kept_at_tip(a.block_acceptors@, h)
    &&& b.already_handled@ == a.already_handled@.union(evicted_at_tip(a.block_acceptors@, h))
    &&& b.validator_matrix == a.validator_matrix
    &&& b.attempt_execution_threshold == a.attempt_execution_threshold
    &&& b.dead_air_interval == a.dead_air_interval
    &&& b.block_children == a.block_children
    &&& b.last_progress == a.last_progress
}

/// The announcements owed once a block (if any) and the signatures `ids` are stored.
pub open spec fn stored_announcements(
    block_hash: Option<BlockHash>,
    ids: Seq<FinalitySignatureId>,
) -> Seq<Effect> {
    let sigs = ids.map_values(
        |id: FinalitySignatureId| Effect::AnnounceFinalitySignatureAccepted(id),
    );
    match block_hash {
        Some(h) => seq![Effect::AnnounceBlockAccepted(h)] + sigs,
        None => sigs,
    }
}

/// An input of the accumulator.
#[derive(Debug)]
#[allow(inconsistent_fields)]
pub enum Event {
    /// Who vouched for a block?
    GetPeersForBlock { block_hash: BlockHash },
    ReceivedBlock { block: Block, sender: NodeId },
    ReceivedFinalitySignature { finality_signature: FinalitySignature, sender: NodeId },
    UpdatedValidatorMatrix { era_id: EraId },
    /// The node has executed a block at this height.
    ExecutedBlock { height: u64 },
    /// What an earlier store effect persisted.
    Stored { block_hash: Option<BlockHash>, finality_signature_ids: Vec<FinalitySignatureId> },
}



impl BlockAccumulator {
    /// A new accumulator with nothing tracked, created at time `now` (milliseconds since the
    /// epoch), which counts as its last progress.
    pub fn new(
        config: Config,
        validator_matrix: ValidatorMatrix,
        local_tip: Option<u64>,
        now: u64,
    ) -> (r: BlockAccumulator)
        ensures
            r.last_progress == now,
            accumulator_wf(r),
            r.attempt_execution_threshold == config.attempt_execution_threshold,
            r.dead_air_interval == config.dead_air_interval,
            r.block_acceptors@.len() == 0,
            r.block_children@ == Map::<BlockHash, BlockHash>::empty(),
            r.already_handled@ == Set::<BlockHash>::empty(),
            r.local_tip == local_tip,
            r.validator_matrix == validator_matrix,
    {
        BlockAccumulator {
            validator_matrix,
            attempt_execution_threshold: config.attempt_execution_threshold(),
            dead_air_interval: config.dead_air_interval(),
            block_acceptors: Vec::new(),
            block_children: HashMap::new(),
            already_handled: HashSet::new(),
            last_progress: now,
            local_tip,
        }
    }

    /// The position of the acceptor for `k`.
    pub(crate) fn find(&self, k: BlockHash) -> (r: Option<usize>)
        requires
            keys_distinct(self.block_acceptors@),
        ensures
            r is None <==> !has_acceptor(self.block_acceptors@, k),
            r matches Some(i) ==> i == index_of(self.block_acceptors@, k) && i
                < self.block_acceptors@.len() && self.block_acceptors@[i as int].block_hash == k,
    {
        let mut i: usize = 0;
        while i < self.block_acceptors.len()
            invariant
                keys_distinct(self.block_acceptors@),
                i <= self.block_acceptors@.len(),
                forall|j: int| 0 <= j < i ==> self.block_acceptors@[j].block_hash != k,
            decreases self.block_acceptors@.len() - i,
        {
            if self.block_acceptors[i].block_hash == k {
                proof {
                    lemma_index_of(self.block_acceptors@, i as int);
                }
                return Some(i);
            }
            i += 1;
        }
        None
    }

    /// The position of the acceptor for `block_hash`, made where there is none yet; none for a
    /// hash that is done with.
    fn get_or_register_acceptor(
        &mut self,
        block_hash: BlockHash,
        era_id: EraId,
        peers: Vec<NodeId>,
    ) -> (r: Option<usize>)
        requires
            accumulator_wf(*old(self)),
        ensures
            accumulator_wf(*final(self)),
            same_frame(*old(self), *final(self)),
            final(self).last_progress == old(self).last_progress,
            final(self).block_children == old(self).block_children,
            final(self).already_handled == old(self).already_handled,
            old(self).already_handled@.contains(block_hash) ==> r is None
                && final(self).block_acceptors == old(self).block_acceptors,
            !old(self).already_handled@.contains(block_hash) && has_acceptor(
                old(self).block_acceptors@,
                block_hash,
            ) ==> r == Some(index_of(old(self).block_acceptors@, block_hash) as usize)
                && final(self).block_acceptors == old(self).block_acceptors,
            !old(self).already_handled@.contains(block_hash) && !has_acceptor(
                old(self).block_acceptors@,
                block_hash,
            ) ==> {
                let s = old(self).block_acceptors@;
                let t = final(self).block_acceptors@;
                &&& r == Some(s.len() as usize)
                &&& t.drop_last() == s
                &&& t.len() == s.len() + 1
                &&& fresh_acceptor(t.last(), block_hash, era_id, old(self).validator_matrix, peers@)
                &&& others_unchanged(s, t, block_hash)
                &&& acceptor_at(t, block_hash) == t.last()
            },
            r matches Some(i) ==> i < final(self).block_acceptors@.len() && i == index_of(
                final(self).block_acceptors@,
                block_hash,
            ) && final(self).block_acceptors@[i as int].block_hash == block_hash,
    {
        if self.already_handled.contains(&block_hash) {
            return None;
        }
        if let Some(i) = self.find(block_hash) {
            return Some(i);
        }
        let acceptor = match self.validator_matrix.validator_weights(era_id) {
            Some(evw) => BlockAcceptor::new_with_validator_weights(block_hash, evw, peers),
            None => BlockAcceptor::new(block_hash, peers),
        };
        let ghost before = self.block_acceptors@;
        self.block_acceptors.push(acceptor);
        proof {
            lemma_push(before, acceptor, self.already_handled@);
            assert(self.block_acceptors@.drop_last() =~= before);
            lemma_index_of(self.block_acceptors@, before.len() as int);
        }
        Some(self.block_acceptors.len() - 1)
    }

    /// Registers a block gossiped by `sender`, and returns the effects to carry out.
    pub fn register_block(&mut self, block: Block, sender: NodeId) -> (r: Vec<Effect>)
        requires
            accumulator_wf(*old(self)),
        ensures
            accumulator_wf(*final(self)),
            block_registered(*old(self), *final(self), block, sender, r@),
    {
        let block_hash = block.hash;
        if let Some(tip) = self.local_tip {
            if block.height < tip {
                if let Some(i) = self.find(block_hash) {
                    let ghost before = self.block_acceptors@;
                    self.block_acceptors.remove(i);
                    proof {
                        lemma_remove(before, i as int, self.already_handled@);
                    }
                }
                return Vec::new();
            }
        }
        if let Some(parent_hash) = block.parent_hash {
            self.block_children.insert(parent_hash, block_hash);
        }
        let peers = vec![sender];
        assert(peers@ =~= seq![sender]);
        let i = match self.get_or_register_acceptor(block_hash, block.era_id, peers) {
            Some(i) => i,
            None => {
                return Vec::new();
            },
        };
        let ghost before = self.block_acceptors@;
        proof {
            if has_acceptor(old(self).block_acceptors@, block_hash) {
                assert(before == old(self).block_acceptors@);
                assert(others_unchanged(old(self).block_acceptors@, before, block_hash));
            }
        }
        let mut acceptor = self.block_acceptors.remove(i);
        assert(acceptor == before[i as int]);
        assert(acceptor_wf(acceptor));
        proof {
            let s0 = old(self).block_acceptors@;
            if has_acceptor(s0, block_hash) {
                assert(before == s0);
                assert(acceptor == acceptor_at(s0, block_hash));
            } else {
                assert(before[i as int] == before.last());
                assert(acceptor.signatures@ =~= Seq::<FinalitySignature>::empty());
            }
            assert(is_base_acceptor(*old(self), block_hash, block.era_id, sender, acceptor));
            assert(acceptor.peers@ == base_peers(*old(self), block_hash, sender));
            assert(acceptor.signatures@ == base_signatures(*old(self), block_hash));
            assert(acceptor.block == base_block(*old(self), block_hash));
            assert(acceptor.sufficiently_signed_handed_out == base_handed_out(
                *old(self),
                block_hash,
            ));
            assert(keeps_base_weights(*old(self), block_hash, block.era_id, acceptor));
        }
        proof {
            assert(block_refusal(acceptor, block, sender) == block_verdict(
                *old(self),
                block,
                sender,
            ));
        }
        match acceptor.register_block(block, sender) {
            Ok(()) => {
                self.block_acceptors.insert(i, acceptor);
                proof {
                    let pp = before[i as int].peers@;
                    if !pp.contains(sender) {
                        assert(pp.push(sender)[pp.len() as int] == sender);
                    }
                    assert(acceptor.peers@.contains(sender));
                    assert(self.block_acceptors@ =~= before.update(i as int, acceptor));
                    lemma_update(before, i as int, acceptor, self.already_handled@);
                    lemma_others_trans(
                        old(self).block_acceptors@,
                        before,
                        self.block_acceptors@,
                        block_hash,
                    );
                }
                Vec::new()
            },
            Err(AcceptorError::EraMismatch { .. }) => {
                proof {
                    lemma_remove(before, i as int, self.already_handled@);
                    assert(self.block_acceptors@ =~= before.remove(i as int));
                    lemma_others_trans(
                        old(self).block_acceptors@,
                        before,
                        self.block_acceptors@,
                        block_hash,
                    );
                }
                Vec::new()
            },
            Err(AcceptorError::InvalidGossip { peer }) => {
                self.block_acceptors.insert(i, acceptor);
                proof {
                    assert(self.block_acceptors@ =~= before);
                    lemma_index_of(before, i as int);
                    assert(others_unchanged(before, before, block_hash));
                    lemma_others_trans(old(self).block_acceptors@, before, before, block_hash);
                }
                vec![Effect::DisconnectFromPeer(peer)]
            },
            Err(AcceptorError::BlockHashMismatch { peer, .. }) => {
                self.block_acceptors.insert(i, acceptor);
                proof {
                    assert(self.block_acceptors@ =~= before);
                    lemma_index_of(before, i as int);
                    assert(others_unchanged(before, before, block_hash));
                    lemma_others_trans(old(self).block_acceptors@, before, before, block_hash);
                }
                vec![Effect::DisconnectFromPeer(peer)]
            },
            Err(AcceptorError::InvalidState) => {
                self.block_acceptors.insert(i, acceptor);
                proof {
                    assert(self.block_acceptors@ =~= before);
                    lemma_index_of(before, i as int);
                    assert(others_unchanged(before, before, block_hash));
                    lemma_others_trans(old(self).block_acceptors@, before, before, block_hash);
                }
                Vec::new()
            },
        }
    }


    /// Registers a finality signature gossiped by `sender`, and returns the effects to carry
    /// out.
    pub fn register_finality_signature(&mut self, sig: FinalitySignature, sender: NodeId) -> (r:
        Vec<Effect>)
        requires
            accumulator_wf(*old(self)),
        ensures
            accumulator_wf(*final(self)),
            signature_registered(*old(self), *final(self), sig, sender, r@),
    {
        let block_hash = sig.block_hash;
        let peers = vec![sender];
        assert(peers@ =~= seq![sender]);
        let i = match self.get_or_register_acceptor(block_hash, sig.era_id, peers) {
            Some(i) => i,
            None => {
                return Vec::new();
            },
        };
        let ghost before = self.block_acceptors@;
        proof {
            if has_acceptor(old(self).block_acceptors@, block_hash) {
                assert(before == old(self).block_acceptors@);
                assert(others_unchanged(old(self).block_acceptors@, before, block_hash));
            }
        }
        let mut acceptor = self.block_acceptors.remove(i);
        assert(acceptor == before[i as int]);
        assert(acceptor_wf(acceptor));
        proof {
            let s0 = old(self).block_acceptors@;
            if has_acceptor(s0, block_hash) {
                assert(before == s0);
                assert(acceptor == acceptor_at(s0, block_hash));
            } else {
                assert(before[i as int] == before.last());
                assert(acceptor.signatures@ =~= Seq::<FinalitySignature>::empty());
            }
            assert(is_base_acceptor(*old(self), block_hash, sig.era_id, sender, acceptor));
            assert(acceptor.peers@ == base_peers(*old(self), block_hash, sender));
            assert(acceptor.signatures@ == base_signatures(*old(self), block_hash));
            assert(acceptor.block == base_block(*old(self), block_hash));
            assert(acceptor.sufficiently_signed_handed_out == base_handed_out(
                *old(self),
                block_hash,
            ));
            assert(keeps_base_weights(*old(self), block_hash, sig.era_id, acceptor));
        }
        proof {
            assert(signature_refusal(acceptor, sig, sender) == signature_verdict(
                *old(self),
                sig,
                sender,
            ));
            if !has_acceptor(old(self).block_acceptors@, block_hash) {
                assert(!has_signer(acceptor.signatures@, sig.public_key));
            }
        }
        let outcome = acceptor.register_finality_signature(sig, sender);
        self.block_acceptors.insert(i, acceptor);
        proof {
            assert(self.block_acceptors@ =~= before.update(i as int, acceptor));
            lemma_update(before, i as int, acceptor, self.already_handled@);
            lemma_others_trans(
                old(self).block_acceptors@,
                before,
                self.block_acceptors@,
                block_hash,
            );
        }
        match outcome {
            Ok(ShouldStore::SufficientlySignedBlock { block, signatures }) => {
                vec![Effect::StoreBlockAndSignatures { block, signatures }]
            },
            Ok(ShouldStore::SingleSignature(signature)) => vec![Effect::StoreSignature(signature)],
            Ok(ShouldStore::Nothing) => Vec::new(),
            Err(AcceptorError::InvalidGossip { peer }) => vec![Effect::DisconnectFromPeer(peer)],
            Err(AcceptorError::EraMismatch { .. }) => Vec::new(),
            Err(AcceptorError::BlockHashMismatch { peer, .. }) => {
                vec![Effect::DisconnectFromPeer(peer)]
            },
            Err(AcceptorError::InvalidState) => Vec::new(),
        }
    }


    /// Raises the local tip to `height` and drops, for good, every acceptor below it. An acceptor
    /// whose block is not known yet counts as height 0, so any tip above 0 evicts it.
    pub fn register_local_tip(&mut self, height: u64)
        requires
            accumulator_wf(*old(self)),
        ensures
            accumulator_wf(*final(self)),
            tip_registered(*old(self), *final(self), height),
    {
        let ghost orig = self.block_acceptors@;
        let ghost orig_handled = self.already_handled@;
        let mut rest: Vec<BlockAcceptor> = Vec::new();
        std::mem::swap(&mut rest, &mut self.block_acceptors);
        let total = rest.len();
        let mut n: usize = 0;
        while n < total
            invariant
                total == orig.len(),
                n <= orig.len(),
                rest@ == orig.skip(n as int),
                self.validator_matrix == old(self).validator_matrix,
                self.attempt_execution_threshold == old(self).attempt_execution_threshold,
                self.dead_air_interval == old(self).dead_air_interval,
                self.block_children == old(self).block_children,
                self.last_progress == old(self).last_progress,
                self.local_tip == old(self).local_tip,
                self.block_acceptors@ == kept_at_tip(orig.take(n as int), height),
                self.already_handled@ == orig_handled.union(
                    evicted_at_tip(orig.take(n as int), height),
                ),
            decreases total - n,
        {
            assert(rest@[0] == orig[n as int]);
            let a = rest.remove(0);
            assert(orig.take(n + 1).drop_last() =~= orig.take(n as int));
            assert(orig.take(n + 1).last() == a);
            let keep = match a.block {
                Some(b) => b.height >= height,
                None => 0 >= height,
            };
            if keep {
                self.block_acceptors.push(a);
            } else {
                self.already_handled.insert(a.block_hash);
                assert(orig_handled.union(evicted_at_tip(orig.take(n as int), height)).insert(
                    a.block_hash,
                ) =~= orig_handled.union(evicted_at_tip(orig.take(n + 1), height)));
            }
            n += 1;
            assert(rest@ =~= orig.skip(n as int));
        }
        assert(orig.take(n as int) =~= orig);
        proof {
            lemma_tip_keeps_wf(orig, height, orig_handled);
        }
        self.local_tip = match self.local_tip {
            Some(t) if t > height => Some(t),
            _ => Some(height),
        };
    }


    /// Refreshes every acceptor whose era is known with that era's current weights.
    pub fn register_updated_validator_matrix(&mut self)
        requires
            accumulator_wf(*old(self)),
        ensures
            accumulator_wf(*final(self)),
            same_frame(*old(self), *final(self)),
            final(self).last_progress == old(self).last_progress,
            final(self).block_children == old(self).block_children,
            final(self).already_handled == old(self).already_handled,
            final(self).block_acceptors@.len() == old(self).block_acceptors@.len(),
            forall|i: int|
                0 <= i < old(self).block_acceptors@.len() ==> refreshed(
                    #[trigger] old(self).block_acceptors@[i],
                    final(self).block_acceptors@[i],
                    old(self).validator_matrix,
                ),
    {
        let ghost orig = self.block_acceptors@;
        let mut i: usize = 0;
        while i < self.block_acceptors.len()
            invariant
                self.block_acceptors@.len() == orig.len(),
                i <= orig.len(),
                forall|j: int|
                    0 <= j < orig.len() ==> #[trigger] self.block_acceptors@[j].block_hash
                        == orig[j].block_hash,
                forall|j: int|
                    0 <= j < i ==> refreshed(
                        #[trigger] orig[j],
                        self.block_acceptors@[j],
                        self.validator_matrix,
                    ),
                forall|j: int| i <= j < orig.len() ==> #[trigger] self.block_acceptors@[j] == orig[j],
                all_usable(self.block_acceptors@, self.already_handled@),
                keys_distinct(orig),
                self.validator_matrix == old(self).validator_matrix,
                self.attempt_execution_threshold == old(self).attempt_execution_threshold,
                self.dead_air_interval == old(self).dead_air_interval,
                self.block_children == old(self).block_children,
                self.last_progress == old(self).last_progress,
                self.local_tip == old(self).local_tip,
                self.already_handled == old(self).already_handled,
            decreases orig.len() - i,
        {
            let ghost before = self.block_acceptors@;
            let mut acceptor = self.block_acceptors.remove(i);
            assert(acceptor == orig[i as int]);
            assert(acceptor_wf(before[i as int]));
            if let Some(era_id) = acceptor.era_id() {
                if let Some(weights) = self.validator_matrix.validator_weights(era_id) {
                    acceptor.refresh(weights);
                }
            }
            self.block_acceptors.insert(i, acceptor);
            assert(self.block_acceptors@ =~= before.update(i as int, acceptor));
            i += 1;
        }
        proof {
            let t = self.block_acceptors@;
            assert forall|a: int, b: int|
                0 <= a < t.len() && 0 <= b < t.len() && a != b implies #[trigger] t[a].block_hash
                    != #[trigger] t[b].block_hash by {
                assert(t[a].block_hash == orig[a].block_hash);
                assert(t[b].block_hash == orig[b].block_hash);
            }
        }
    }

    /// The block of the acceptor for `block_hash`, if it is tracked and its body known.
    pub fn block(&self, block_hash: BlockHash) -> (r: Option<Block>)
        requires
            keys_distinct(self.block_acceptors@),
        ensures
            r == if has_acceptor(self.block_acceptors@, block_hash) {
                acceptor_at(self.block_acceptors@, block_hash).block
            } else {
                None
            },
    {
        match self.find(block_hash) {
            Some(i) => self.block_acceptors[i].block(),
            None => None,
        }
    }

    /// The peers that vouched for `block_hash`, if it is tracked.
    pub fn get_peers(&self, block_hash: BlockHash) -> (r: Option<Vec<NodeId>>)
        requires
            keys_distinct(self.block_acceptors@),
        ensures
            r is None <==> !has_acceptor(self.block_acceptors@, block_hash),
            r matches Some(p) ==> p@ == acceptor_at(self.block_acceptors@, block_hash).peers@,
    {
        match self.find(block_hash) {
            Some(i) => Some(self.block_acceptors[i].peers()),
            None => None,
        }
    }


    /// The announcements owed once a block (if any) and signatures were stored. A hash that
    /// is no longer tracked is announced all the same: storing it cannot be undone.
    pub fn handle_stored(
        &self,
        block_hash: Option<BlockHash>,
        finality_signature_ids: Vec<FinalitySignatureId>,
    ) -> (r: Vec<Effect>)
        ensures
            r@ == stored_announcements(block_hash, finality_signature_ids@),
    {
        let mut effects: Vec<Effect> = Vec::new();
        if let Some(h) = block_hash {
            effects.push(Effect::AnnounceBlockAccepted(h));
        }
        let ghost head = effects@;
        let ghost ids = finality_signature_ids@;
        let mut i: usize = 0;
        while i < finality_signature_ids.len()
            invariant
                ids == finality_signature_ids@,
                i <= ids.len(),
                effects@ == head + ids.take(i as int).map_values(
                    |id: FinalitySignatureId| Effect::AnnounceFinalitySignatureAccepted(id),
                ),
            decreases ids.len() - i,
        {
            effects.push(Effect::AnnounceFinalitySignatureAccepted(finality_signature_ids[i]));
            i += 1;
            assert(ids.take(i as int).map_values(
                |id: FinalitySignatureId| Effect::AnnounceFinalitySignatureAccepted(id),
            ) =~= ids.take(i - 1).map_values(
                |id: FinalitySignatureId| Effect::AnnounceFinalitySignatureAccepted(id),
            ).push(Effect::AnnounceFinalitySignatureAccepted(ids[i - 1])));
            assert(effects@ =~= head + ids.take(i as int).map_values(
                |id: FinalitySignatureId| Effect::AnnounceFinalitySignatureAccepted(id),
            ));
        }
        assert(ids.take(i as int) =~= ids);
        proof {
            if block_hash is None {
                assert(effects@ =~= stored_announcements(block_hash, ids));
            }
        }
        effects
    }

    /// Handles one input, and returns the effects to carry out.
    pub fn handle_event(&mut self, event: Event) -> (r: Vec<Effect>)
        requires
            accumulator_wf(*old(self)),
        ensures
            accumulator_wf(*final(self)),
            event matches Event::GetPeersForBlock { block_hash } ==> *final(self) == *old(self)
                && r@.len() == 1 && (r@[0] matches Effect::PeersForBlock { block_hash: h, peers }
                && h == block_hash && (peers is None <==> !has_acceptor(
                old(self).block_acceptors@,
                block_hash,
            )) && (peers matches Some(p) ==> p@ == acceptor_at(
                old(self).block_acceptors@,
                block_hash,
            ).peers@)),
            event matches Event::ReceivedBlock { block, sender } ==> block_registered(
                *old(self),
                *final(self),
                block,
                sender,
                r@,
            ),
            event matches Event::ReceivedFinalitySignature { finality_signature, sender }
                ==> signature_registered(*old(self), *final(self), finality_signature, sender, r@),
            event matches Event::UpdatedValidatorMatrix { .. } ==> *final(self) == *old(self)
                && r@.len() == 0,
            event matches Event::ExecutedBlock { height } ==> tip_registered(
                *old(self),
                *final(self),
                height,
            ) && r@.len() == 0,
            event matches Event::Stored { block_hash, finality_signature_ids } ==> *final(self)
                == *old(self) && r@ == stored_announcements(block_hash, finality_signature_ids@),
    {
        match event {
            Event::GetPeersForBlock { block_hash } => {
                let peers = self.get_peers(block_hash);
                vec![Effect::PeersForBlock { block_hash, peers }]
            },
            Event::ReceivedBlock { block, sender } => self.register_block(block, sender),
            Event::ReceivedFinalitySignature { finality_signature, sender } => {
                self.register_finality_signature(finality_signature, sender)
            },
            Event::UpdatedValidatorMatrix { .. } => Vec::new(),
            Event::ExecutedBlock { height } => {
                self.register_local_tip(height);
                Vec::new()
            },
            Event::Stored { block_hash, finality_signature_ids } => {
                self.handle_stored(block_hash, finality_signature_ids)
            },
        }
    }

}

} // verus!