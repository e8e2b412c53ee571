//! The decision of how a node should synchronise its chain, from what the accumulator holds.

use vstd::prelude::*;

use crate::acceptor_list::{acceptor_at, has_acceptor, keys_distinct, lemma_push};
use crate::accumulator::{accumulator_wf, height_of, same_frame, BlockAccumulator};
use crate::block_acceptor::{sufficient, BlockAcceptor};
use crate::types::BlockHash;

verus! {

broadcast use vstd::std_specs::hash::group_hash_axioms;

/// What the node already has when it asks how to synchronise.
#[derive(Clone, Copy, Debug, PartialEq, Eq)]
pub enum StartingWith {
    ExecutableBlock(BlockHash, u64),
    BlockIdentifier(BlockHash, u64),
    SyncedBlockIdentifier(BlockHash, u64),
    Hash(BlockHash),
    /// No anchor at all; always answered with a leap.
    Nothing,
}

impl StartingWith {
    pub fn block_hash(&self) -> (r: BlockHash)
        ensures
            r == starting_hash(*self),
    {
        match self {
            StartingWith::BlockIdentifier(hash, _) => *hash,
            StartingWith::SyncedBlockIdentifier(hash, _) => *hash,
            StartingWith::ExecutableBlock(hash, _) => *hash,
            StartingWith::Hash(hash) => *hash,
            StartingWith::Nothing => 0,
        }
    }

    pub fn block_height(&self) -> (r: u64)
        ensures
            r == (match *self {
                StartingWith::ExecutableBlock(_, h) => h,
                StartingWith::BlockIdentifier(_, h) => h,
                StartingWith::SyncedBlockIdentifier(_, h) => h,
                _ => 0,
            }),
    {
        match self {
            StartingWith::BlockIdentifier(_, height) => *height,
            StartingWith::SyncedBlockIdentifier(_, height) => *height,
            StartingWith::ExecutableBlock(_, height) => *height,
            StartingWith::Hash(_) => 0,
            StartingWith::Nothing => 0,
        }
    }

    pub fn have_block(&self) -> (r: bool)
        ensures
            r == have_block_spec(*self),
    {
        match self {
            StartingWith::BlockIdentifier(..) => true,
            StartingWith::ExecutableBlock(..) => true,
            StartingWith::SyncedBlockIdentifier(..) => true,
            StartingWith::Hash(_) => false,
            StartingWith::Nothing => false,
        }
    }
}

pub open spec fn starting_hash(s: StartingWith) -> BlockHash {
    match s {
        StartingWith::ExecutableBlock(h, _) => h,
        StartingWith::BlockIdentifier(h, _) => h,
        StartingWith::SyncedBlockIdentifier(h, _) => h,
        StartingWith::Hash(h) => h,
        StartingWith::Nothing => 0,
    }
}

pub open spec fn have_block_spec(s: StartingWith) -> bool {
    match s {
        StartingWith::ExecutableBlock(..) => true,
        StartingWith::BlockIdentifier(..) => true,
        StartingWith::SyncedBlockIdentifier(..) => true,
        _ => false,
    }
}

/// What the node should do next to synchronise its chain.
#[derive(Clone, Copy, Debug, PartialEq, Eq)]
pub enum SyncInstruction {
    Leap,
    CaughtUp,
    BlockExec { next_block_hash: Option<BlockHash> },
    BlockSync { block_hash: BlockHash, should_fetch_execution_state: bool },
}

/// The highest height among the acceptors with a quorum that are not done with.
pub open spec fn highest_usable(s: Seq<BlockAcceptor>, handled: Set<BlockHash>) -> Option<u64>
    decreases s.len(),
{
    if s.len() == 0 {
        None
    } else {
        let rest = highest_usable(s.drop_last(), handled);
        let a = s.last();
        if !handled.contains(a.block_hash) && sufficient(a) && a.block is Some {
            let h = a.block->0.height;
            match rest {
                Some(r) if r >= h => Some(r),
                _ => Some(h),
            }
        } else {
            rest
        }
    }
}

/// Whether a node at `start` is close enough to `highest` to sync block by block.
pub open spec fn should_sync_spec(
    start: Option<u64>,
    highest: Option<u64>,
    threshold: u64,
) -> bool {
    match (start, highest) {
        (Some(s), Some(h)) => {
            let diff: int = if h > s {
                h - s
            } else {
                0
            };
            diff == 0 || diff <= threshold
        },
        _ => false,
    }
}

/// The recorded child of `parent`, where it has an acceptor with a quorum.
pub open spec fn next_syncable(a: BlockAccumulator, parent: BlockHash) -> Option<BlockHash> {
    if a.block_children@.contains_key(parent) {
        let c = a.block_children@[parent];
        if has_acceptor(a.block_acceptors@, c) && sufficient(acceptor_at(a.block_acceptors@, c)) {
            Some(c)
        } else {
            None
        }
    } else {
        None
    }
}

pub open spec fn elapsed(now: u64, since: u64) -> int {
    if now > since {
        now - since
    } else {
        0
    }
}

/// The instruction for `sw`, at time `now`. With `top` the highest usable height and `t` the
/// threshold: a node about to execute keeps executing, taking the next block where it is within
/// `t` below `top`, and leaps from farther behind; a node with a block or a known hash syncs it
/// where it is within `t` of `top`; a synced node syncs its child that has a quorum, is caught
/// up while the dead-air interval has not passed since the last progress, and leaps otherwise.
pub open spec fn sync_decision(a: BlockAccumulator, sw: StartingWith, now: u64) -> SyncInstruction {
    let s = a.block_acceptors@;
    let t = a.attempt_execution_threshold;
    let top = highest_usable(s, a.already_handled@);
    match sw {
        StartingWith::Nothing => SyncInstruction::Leap,
        StartingWith::ExecutableBlock(hash, height) => match top {
            None => SyncInstruction::BlockExec { next_block_hash: None },
            Some(h) => if height >= h {
                SyncInstruction::BlockExec { next_block_hash: None }
            } else if h - t <= height {
                SyncInstruction::BlockExec { next_block_hash: next_syncable(a, hash) }
            } else {
                SyncInstruction::Leap
            },
        },
        StartingWith::Hash(hash) => if has_acceptor(s, hash) && should_sync_spec(
            height_of(acceptor_at(s, hash)),
            top,
            t,
        ) {
            SyncInstruction::BlockSync { block_hash: hash, should_fetch_execution_state: true }
        } else {
            SyncInstruction::Leap
        },
        StartingWith::BlockIdentifier(hash, height) => if should_sync_spec(Some(height), top, t) {
            SyncInstruction::BlockSync { block_hash: hash, should_fetch_execution_state: false }
        } else {
            SyncInstruction::Leap
        },
        StartingWith::SyncedBlockIdentifier(hash, height) => if should_sync_spec(
            Some(height),
            top,
            t,
        ) {
            match next_syncable(a, hash) {
                Some(c) => SyncInstruction::BlockSync {
                    block_hash: c,
                    should_fetch_execution_state: false,
                },
                None => if elapsed(now, a.last_progress) < a.dead_air_interval {
                    SyncInstruction::CaughtUp
                } else {
                    SyncInstruction::Leap
                },
            }
        } else {
            SyncInstruction::Leap
        },
    }
}

/// Whether answering `sw` starts tracking its block: it is ahead of every usable block and
/// nothing tracks it yet.
pub open spec fn adds_placeholder(a: BlockAccumulator, sw: StartingWith) -> bool {
    match sw {
        StartingWith::ExecutableBlock(hash, height) => match highest_usable(
            a.block_acceptors@,
            a.already_handled@,
        ) {
            Some(h) => height > h && !has_acceptor(a.block_acceptors@, hash)
                && !a.already_handled@.contains(hash),
            None => false,
        },
        _ => false,
    }
}

pub open spec fn is_blank_acceptor(a: BlockAcceptor, hash: BlockHash) -> bool {
    &&& a.block_hash == hash
    &&& a.block is None
    &&& a.peers@.len() == 0
    &&& a.signatures@.len() == 0
    &&& a.era_validator_weights is None
    &&& !a.sufficiently_signed_handed_out
}

/// How answering `sw` at time `now` with `r` takes the accumulator from `a` to `b`: the answer
/// is the decision; only a block sync records progress; only a placeholder for a block ahead of
/// every usable one is added; nothing else changes.
pub open spec fn synced(
    a: BlockAccumulator,
    b: BlockAccumulator,
    sw: StartingWith,
    now: u64,
    r: SyncInstruction,
) -> bool {
    &&& r == sync_decision(a, sw, now)
    &&& b.last_progress == if r is BlockSync {
        now
    } else {
        a.last_progress
    }
    &&& same_frame(a, b)
    &&& b.block_children == a.block_children
    &&& b.already_handled == a.already_handled
    &&& (!adds_placeholder(a, sw) ==> b.block_acceptors == a.block_acceptors)
    &&& (adds_placeholder(a, sw) ==> {
        &&& b.block_acceptors@.len() == a.block_acceptors@.len() + 1
        &&& b.block_acceptors@.drop_last() == a.block_acceptors@
        &&& is_blank_acceptor(b.block_acceptors@.last(), starting_hash(sw))
    })
}

impl BlockAccumulator {
    pub fn should_sync(
        &self,
        maybe_starting_with_block_height: Option<u64>,
        maybe_highest_usable_block_height: Option<u64>,
    ) -> (r: bool)
        ensures
            r == should_sync_spec(
                maybe_starting_with_block_height,
                maybe_highest_usable_block_height,
                self.attempt_execution_threshold,
            ),
    {
        match (maybe_starting_with_block_height, maybe_highest_usable_block_height) {
            (Some(starting_with), Some(highest_usable_block_height)) => {
                let height_diff = highest_usable_block_height.saturating_sub(starting_with);
                if height_diff == 0 {
                    true
                } else {
                    height_diff <= self.attempt_execution_threshold
                }
            },
            _ => false,
        }
    }

    pub fn highest_usable_block_height(&self) -> (r: Option<u64>)
        ensures
            r == highest_usable(self.block_acceptors@, self.already_handled@),
    {
        let ghost s = self.block_acceptors@;
        let mut ret: Option<u64> = None;
        let mut i: usize = 0;
        while i < self.block_acceptors.len()
            invariant
                s == self.block_acceptors@,
                i <= s.len(),
                ret == highest_usable(s.take(i as int), self.already_handled@),
            decreases s.len() - i,
        {
            assert(s.take(i + 1).drop_last() =~= s.take(i as int));
            assert(s.take(i + 1).last() == s[i as int]);
            let a = &self.block_acceptors[i];
            if !self.already_handled.contains(&a.block_hash) && a.has_sufficient_finality() {
                if let Some((_, h)) = a.block_era_and_height() {
                    match ret {
                        Some(r) if r >= h => {},
                        _ => {
                            ret = Some(h);
                        },
                    }
                }
            }
            i += 1;
        }
        assert(s.take(i as int) =~= s);
        ret
    }

    pub fn next_syncable_block_hash(&self, parent_block_hash: BlockHash) -> (r: Option<BlockHash>)
        requires
            keys_distinct(self.block_acceptors@),
        ensures
            r == next_syncable(*self, parent_block_hash),
    {
        match self.block_children.get(&parent_block_hash) {
            None => None,
            Some(child) => {
                let c = *child;
                match self.find(c) {
                    None => None,
                    Some(i) => if self.block_acceptors[i].has_sufficient_finality() {
                        Some(c)
                    } else {
                        None
                    },
                }
            },
        }
    }



    /// The sync instruction for `starting_with`, with `now` the current time in milliseconds.
    /// Every block sync counts as progress. A block about to be executed above every usable
    /// block starts to be tracked by an empty acceptor, unless it is tracked or done with.
    pub fn sync_instruction(&mut self, starting_with: StartingWith, now: u64) -> (r:
        SyncInstruction)
        requires
            accumulator_wf(*old(self)),
        ensures
            accumulator_wf(*final(self)),
            synced(*old(self), *final(self), starting_with, now, r),
    {
        let should_fetch_execution_state = !starting_with.have_block();
        let maybe_highest_usable_block_height = self.highest_usable_block_height();
        match starting_with {
            StartingWith::Nothing => SyncInstruction::Leap,
            StartingWith::ExecutableBlock(block_hash, block_height) => {
                match maybe_highest_usable_block_height {
                    None => SyncInstruction::BlockExec { next_block_hash: None },
                    Some(highest_perceived) => {
                        if block_height > highest_perceived {
                            if self.find(block_hash).is_none() && !self.already_handled.contains(
                                &block_hash,
                            ) {
                                let ghost before = self.block_acceptors@;
                                let placeholder = BlockAcceptor::new(block_hash, Vec::new());
                                self.block_acceptors.push(placeholder);
                                proof {
                                    lemma_push(before, placeholder, self.already_handled@);
                                    assert(self.block_acceptors@.drop_last() =~= before);
                                }
                            }
                            return SyncInstruction::BlockExec { next_block_hash: None };
                        }
                        if highest_perceived == block_height {
                            return SyncInstruction::BlockExec { next_block_hash: None };
                        }
                        if highest_perceived.saturating_sub(self.attempt_execution_threshold)
                            <= block_height {
                            return SyncInstruction::BlockExec {
                                next_block_hash: self.next_syncable_block_hash(block_hash),
                            };
                        }
                        SyncInstruction::Leap
                    },
                }
            },
            StartingWith::Hash(block_hash) => {
                let (block_hash, maybe_block_height) = match self.find(block_hash) {
                    None => {
                        return SyncInstruction::Leap;
                    },
                    Some(i) => (
                        self.block_acceptors[i].block_hash(),
                        self.block_acceptors[i].block_height(),
                    ),
                };
                if self.should_sync(maybe_block_height, maybe_highest_usable_block_height) {
                    self.last_progress = now;
                    return SyncInstruction::BlockSync { block_hash, should_fetch_execution_state };
                }
                SyncInstruction::Leap
            },
            StartingWith::BlockIdentifier(block_hash, block_height) => {
                if self.should_sync(Some(block_height), maybe_highest_usable_block_height) {
                    self.last_progress = now;
                    return SyncInstruction::BlockSync { block_hash, should_fetch_execution_state };
                }
                SyncInstruction::Leap
            },
            StartingWith::SyncedBlockIdentifier(block_hash, block_height) => {
                if self.should_sync(Some(block_height), maybe_highest_usable_block_height) {
                    if let Some(child_hash) = self.next_syncable_block_hash(block_hash) {
                        self.last_progress = now;
                        return SyncInstruction::BlockSync {
                            block_hash: child_hash,
                            should_fetch_execution_state,
                        };
                    } else if now.saturating_sub(self.last_progress) < self.dead_air_interval {
                        return SyncInstruction::CaughtUp;
                    }
                }
                SyncInstruction::Leap
            },
        }
    }
}

} // verus!
