//! Facts about sequences of operations on the accumulator.

use vstd::prelude::*;

use crate::acceptor_list::{acceptor_at, all_usable, has_acceptor, keys_distinct, lemma_index_of};
use crate::accumulator::{
    accumulator_wf, block_registered, block_verdict, evicted_at_tip, height_or_zero, is_outdated,
    kept_at_tip, lemma_tip_keeps_wf, lemma_tip_membership, max_tip, tip_registered,
    BlockAccumulator, Effect,
};
use crate::sync::{
    elapsed, highest_usable, next_syncable, should_sync_spec, sync_decision, StartingWith,
    SyncInstruction,
};
use crate::block_acceptor::AcceptorError;
use crate::types::{Block, BlockHash, NodeId};

verus! {

/// The local tip after raising it, in turn, to each height of `hs`.
pub open spec fn tip_after(init: Option<u64>, hs: Seq<u64>) -> Option<u64>
    decreases hs.len(),
{
    if hs.len() == 0 {
        init
    } else {
        max_tip(tip_after(init, hs.drop_last()), hs.last())
    }
}

/// Raising the local tip never lowers it, and leaves it at or above the new height.
pub proof fn lemma_tip_never_decreases(a: BlockAccumulator, b: BlockAccumulator, h: u64)
    requires
        tip_registered(a, b, h),
    ensures
        b.local_tip is Some,
        h <= b.local_tip->0,
        a.local_tip matches Some(t) ==> t <= b.local_tip->0,
{
}

/// After any sequence of tips, the local tip is the maximum of those heights and of the
/// initial tip.
pub proof fn lemma_monotonic_tip(init: Option<u64>, hs: Seq<u64>)
    ensures
        hs.len() > 0 ==> tip_after(init, hs) is Some,
        forall|i: int| 0 <= i < hs.len() ==> hs[i] <= #[trigger] tip_after(init, hs)->0,
        init matches Some(t) ==> tip_after(init, hs) is Some && t <= tip_after(init, hs)->0,
        tip_after(init, hs) == init || exists|i: int|
            0 <= i < hs.len() && Some(hs[i]) == tip_after(init, hs),
    decreases hs.len(),
{
    if hs.len() > 0 {
        let t = hs.drop_last();
        lemma_monotonic_tip(init, t);
        assert forall|i: int| 0 <= i < hs.len() implies hs[i] <= #[trigger] tip_after(
            init,
            hs,
        )->0 by {
            if i < t.len() {
                assert(hs[i] == t[i]);
                assert(t[i] <= tip_after(init, t)->0);
            }
        }
        if tip_after(init, hs) != init && tip_after(init, hs) != Some(hs.last()) {
            let i = choose|i: int| 0 <= i < t.len() && Some(t[i]) == tip_after(init, t);
            assert(hs[i] == t[i]);
        }
        if tip_after(init, hs) == Some(hs.last()) {
            assert(hs[hs.len() - 1] == hs.last());
        }
    }
}

/// No hash that is done with ever has an acceptor: every operation keeps the accumulator
/// well formed, and well-formedness holds this.
pub proof fn lemma_disjoint(a: BlockAccumulator)
    requires
        accumulator_wf(a),
    ensures
        forall|k: BlockHash|
            #[trigger] has_acceptor(a.block_acceptors@, k) ==> !a.already_handled@.contains(k),
{
    let s = a.block_acceptors@;
    assert forall|k: BlockHash|
        #[trigger] has_acceptor(s, k) implies !a.already_handled@.contains(k) by {
        let i = choose|i: int| 0 <= i < s.len() && s[i].block_hash == k;
        assert(!a.already_handled@.contains(s[i].block_hash));
    }
}

/// A local tip at `h` evicts exactly the acceptors below it (unknown heights count as 0),
/// marks them done with, and keeps every other one as it was.
pub proof fn lemma_eviction(a: BlockAccumulator, b: BlockAccumulator, h: u64)
    requires
        accumulator_wf(a),
        tip_registered(a, b, h),
    ensures
        forall|k: BlockHash|
            #[trigger] has_acceptor(a.block_acceptors@, k) && height_or_zero(
                acceptor_at(a.block_acceptors@, k),
            ) < h ==> !has_acceptor(b.block_acceptors@, k) && b.already_handled@.contains(k),
        forall|k: BlockHash|
            #[trigger] has_acceptor(a.block_acceptors@, k) && height_or_zero(
                acceptor_at(a.block_acceptors@, k),
            ) >= h ==> has_acceptor(b.block_acceptors@, k) && acceptor_at(b.block_acceptors@, k)
                == acceptor_at(a.block_acceptors@, k),
{
    let s = a.block_acceptors@;
    let kept = kept_at_tip(s, h);
    lemma_tip_membership(s, h);
    assert(all_usable(s, a.already_handled@));
    lemma_tip_keeps_wf(s, h, a.already_handled@);
    assert forall|k: BlockHash|
        #[trigger] has_acceptor(s, k) && height_or_zero(acceptor_at(s, k)) < h implies !has_acceptor(
        kept,
        k,
    ) && b.already_handled@.contains(k) by {
        let i = index_of_k(s, k);
        assert(evicted_at_tip(s, h).contains(k));
        if has_acceptor(kept, k) {
            let j = choose|j: int| 0 <= j < kept.len() && kept[j].block_hash == k;
            assert(kept.contains(kept[j]));
            let m = choose|m: int| 0 <= m < s.len() && s[m] == kept[j];
            assert(m == i);
        }
    }
    assert forall|k: BlockHash|
        #[trigger] has_acceptor(s, k) && height_or_zero(acceptor_at(s, k)) >= h implies has_acceptor(
        kept,
        k,
    ) && acceptor_at(kept, k) == acceptor_at(s, k) by {
        let i = index_of_k(s, k);
        assert(s.contains(s[i]));
        assert(kept.contains(s[i]));
        let j = choose|j: int| 0 <= j < kept.len() && kept[j] == s[i];
        lemma_index_of(kept, j);
    }
}

/// The position of the acceptor for `k`, which holds that key.
proof fn index_of_k(s: Seq<crate::block_acceptor::BlockAcceptor>, k: BlockHash) -> (i: int)
    requires
        has_acceptor(s, k),
        keys_distinct(s),
    ensures
        0 <= i < s.len(),
        s[i].block_hash == k,
        acceptor_at(s, k) == s[i],
{
    let i = choose|i: int| 0 <= i < s.len() && s[i].block_hash == k;
    lemma_index_of(s, i);
    i
}

/// Sync holds exactly when the starting height is at most `threshold` below the highest usable
/// one; always at that height; never from an unknown height.
pub proof fn lemma_sync_threshold_boundary(threshold: u64, start: u64, top: u64)
    requires
        start <= top,
    ensures
        should_sync_spec(Some(start), Some(top), threshold) == (top - start <= threshold),
        should_sync_spec(Some(top), Some(top), threshold),
        !should_sync_spec(None, Some(top), threshold),
{
}

/// A node that knows only a hash with no acceptor is told to leap.
pub proof fn lemma_leap_on_ignorance(a: BlockAccumulator, h: BlockHash, now: u64)
    requires
        !has_acceptor(a.block_acceptors@, h),
    ensures
        sync_decision(a, StartingWith::Hash(h), now) == SyncInstruction::Leap,
{
}

/// A synced node within reach but with no syncable child is caught up until the dead-air
/// interval has passed since the last progress, and leaps after.
pub proof fn lemma_dead_air(a: BlockAccumulator, hash: BlockHash, height: u64, now: u64)
    requires
        should_sync_spec(
            Some(height),
            highest_usable(a.block_acceptors@, a.already_handled@),
            a.attempt_execution_threshold,
        ),
        next_syncable(a, hash) is None,
    ensures
        elapsed(now, a.last_progress) < a.dead_air_interval ==> sync_decision(
            a,
            StartingWith::SyncedBlockIdentifier(hash, height),
            now,
        ) == SyncInstruction::CaughtUp,
        elapsed(now, a.last_progress) >= a.dead_air_interval ==> sync_decision(
            a,
            StartingWith::SyncedBlockIdentifier(hash, height),
            now,
        ) == SyncInstruction::Leap,
{
}

/// A block refused for its era discards its acceptor, so that registering it again starts
/// from a fresh acceptor and is not refused for its era again.
pub proof fn lemma_era_mismatch_rebuilds(
    a: BlockAccumulator,
    b: BlockAccumulator,
    block: Block,
    sender: NodeId,
    r: Seq<Effect>,
)
    requires
        accumulator_wf(a),
        block_registered(a, b, block, sender, r),
        !is_outdated(a, block.height),
        !a.already_handled@.contains(block.hash),
        block_verdict(a, block, sender) matches Some(AcceptorError::EraMismatch { .. }),
    ensures
        !has_acceptor(b.block_acceptors@, block.hash),
        !(block_verdict(b, block, sender) matches Some(AcceptorError::EraMismatch { .. })),
{
}

} // verus!
