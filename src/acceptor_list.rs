//! The acceptors of the accumulator, held in a list with one entry per block hash, seen as a
//! map from hashes to acceptors.

use vstd::prelude::*;

use crate::block_acceptor::{acceptor_wf, BlockAcceptor};
use crate::types::BlockHash;

verus! {

pub open spec fn has_acceptor(s: Seq<BlockAcceptor>, k: BlockHash) -> bool {
    exists|i: int| 0 <= i < s.len() && #[trigger] s[i].block_hash == k
}

pub open spec fn index_of(s: Seq<BlockAcceptor>, k: BlockHash) -> int {
    choose|i: int| 0 <= i < s.len() && #[trigger] s[i].block_hash == k
}

/// The acceptor for `k`, meaningful where there is one.
pub open spec fn acceptor_at(s: Seq<BlockAcceptor>, k: BlockHash) -> BlockAcceptor {
    s[index_of(s, k)]
}

pub open spec fn keys_distinct(s: Seq<BlockAcceptor>) -> bool {
    forall|i: int, j: int|
        0 <= i < s.len() && 0 <= j < s.len() && i != j ==> #[trigger] s[i].block_hash
            != #[trigger] s[j].block_hash
}

/// A key of `s` names exactly one position.
pub proof fn lemma_index_of(s: Seq<BlockAcceptor>, j: int)
    requires
        keys_distinct(s),
        0 <= j < s.len(),
    ensures
        has_acceptor(s, s[j].block_hash),
        index_of(s, s[j].block_hash) == j,
{
    assert(s[j].block_hash == s[j].block_hash);
    let k = index_of(s, s[j].block_hash);
    assert(0 <= k < s.len() && s[k].block_hash == s[j].block_hash);
}


/// Outside the key `k`, the two lists track the same hashes with the same acceptors.
pub open spec fn others_unchanged(
    s1: Seq<BlockAcceptor>,
    s2: Seq<BlockAcceptor>,
    k: BlockHash,
) -> bool {
    forall|h: BlockHash|
        h != k ==> (#[trigger] has_acceptor(s2, h) == has_acceptor(s1, h)) && (has_acceptor(s1, h)
            ==> acceptor_at(s2, h) == acceptor_at(s1, h))
}

/// Every acceptor of `s` is well formed and for a hash outside `handled`.
pub open spec fn all_usable(s: Seq<BlockAcceptor>, handled: Set<BlockHash>) -> bool {
    forall|i: int|
        0 <= i < s.len() ==> acceptor_wf(#[trigger] s[i]) && !handled.contains(s[i].block_hash)
}

pub proof fn lemma_others_trans(
    s1: Seq<BlockAcceptor>,
    s2: Seq<BlockAcceptor>,
    s3: Seq<BlockAcceptor>,
    k: BlockHash,
)
    requires
        others_unchanged(s1, s2, k),
        others_unchanged(s2, s3, k),
    ensures
        others_unchanged(s1, s3, k),
{
    assert forall|h: BlockHash|
        h != k implies (#[trigger] has_acceptor(s3, h) == has_acceptor(s1, h))
        && (has_acceptor(s1, h) ==> acceptor_at(s3, h) == acceptor_at(s1, h)) by {
        assert(has_acceptor(s2, h) == has_acceptor(s1, h));
        assert(has_acceptor(s3, h) == has_acceptor(s2, h));
    }
}

pub proof fn lemma_push(s: Seq<BlockAcceptor>, x: BlockAcceptor, handled: Set<BlockHash>)
    requires
        keys_distinct(s),
        !has_acceptor(s, x.block_hash),
        all_usable(s, handled),
        acceptor_wf(x),
        !handled.contains(x.block_hash),
    ensures
        keys_distinct(s.push(x)),
        all_usable(s.push(x), handled),
        others_unchanged(s, s.push(x), x.block_hash),
        has_acceptor(s.push(x), x.block_hash),
        acceptor_at(s.push(x), x.block_hash) == x,
{
    let t = s.push(x);
    assert forall|i: int, j: int|
        0 <= i < t.len() && 0 <= j < t.len() && i != j implies #[trigger] t[i].block_hash
            != #[trigger] t[j].block_hash by {
        if i < s.len() {
            assert(t[i] == s[i]);
        }
        if j < s.len() {
            assert(t[j] == s[j]);
        }
    }
    assert forall|i: int| 0 <= i < t.len() implies acceptor_wf(#[trigger] t[i])
        && !handled.contains(t[i].block_hash) by {
        if i < s.len() {
            assert(t[i] == s[i]);
        }
    }
    lemma_index_of(t, s.len() as int);
    assert forall|h: BlockHash| h != x.block_hash implies (#[trigger] has_acceptor(t, h)
        == has_acceptor(s, h)) && (has_acceptor(s, h) ==> acceptor_at(t, h) == acceptor_at(
        s,
        h,
    )) by {
        if has_acceptor(s, h) {
            let i = index_of(s, h);
            assert(t[i] == s[i]);
            lemma_index_of(t, i);
        }
        if has_acceptor(t, h) {
            let i = index_of(t, h);
            assert(t[i] == s[i]);
        }
    }
}

pub proof fn lemma_update(s: Seq<BlockAcceptor>, i: int, x: BlockAcceptor, handled: Set<BlockHash>)
    requires
        keys_distinct(s),
        0 <= i < s.len(),
        x.block_hash == s[i].block_hash,
        all_usable(s, handled),
        acceptor_wf(x),
    ensures
        keys_distinct(s.update(i, x)),
        all_usable(s.update(i, x), handled),
        others_unchanged(s, s.update(i, x), x.block_hash),
        has_acceptor(s.update(i, x), x.block_hash),
        acceptor_at(s.update(i, x), x.block_hash) == x,
{
    let t = s.update(i, x);
    assert forall|a: int, b: int|
        0 <= a < t.len() && 0 <= b < t.len() && a != b implies #[trigger] t[a].block_hash
            != #[trigger] t[b].block_hash by {
        assert(t[a].block_hash == s[a].block_hash);
        assert(t[b].block_hash == s[b].block_hash);
    }
    assert forall|a: int| 0 <= a < t.len() implies acceptor_wf(#[trigger] t[a])
        && !handled.contains(t[a].block_hash) by {
        assert(t[a].block_hash == s[a].block_hash);
    }
    lemma_index_of(t, i);
    assert forall|h: BlockHash| h != x.block_hash implies (#[trigger] has_acceptor(t, h)
        == has_acceptor(s, h)) && (has_acceptor(s, h) ==> acceptor_at(t, h) == acceptor_at(
        s,
        h,
    )) by {
        if has_acceptor(s, h) {
            let j = index_of(s, h);
            assert(s[j].block_hash == h);
            assert(j != i);
            assert(t[j] == s[j]);
            lemma_index_of(t, j);
            assert(acceptor_at(t, h) == t[j]);
        }
        if has_acceptor(t, h) {
            let j = index_of(t, h);
            assert(t[j].block_hash == h);
            assert(j != i);
            assert(t[j] == s[j]);
        }
    }
}

pub proof fn lemma_remove(s: Seq<BlockAcceptor>, i: int, handled: Set<BlockHash>)
    requires
        keys_distinct(s),
        0 <= i < s.len(),
        all_usable(s, handled),
    ensures
        keys_distinct(s.remove(i)),
        all_usable(s.remove(i), handled),
        others_unchanged(s, s.remove(i), s[i].block_hash),
        !has_acceptor(s.remove(i), s[i].block_hash),
{
    let t = s.remove(i);
    let k = s[i].block_hash;
    assert forall|a: int| 0 <= a < t.len() implies #[trigger] t[a] == s[if a < i {
        a
    } else {
        a + 1
    }] by {}
    assert forall|a: int, b: int|
        0 <= a < t.len() && 0 <= b < t.len() && a != b implies #[trigger] t[a].block_hash
            != #[trigger] t[b].block_hash by {
        assert(t[a] == s[if a < i { a } else { a + 1 }]);
        assert(t[b] == s[if b < i { b } else { b + 1 }]);
    }
    assert forall|a: int| 0 <= a < t.len() implies acceptor_wf(#[trigger] t[a])
        && !handled.contains(t[a].block_hash) by {
        assert(t[a] == s[if a < i { a } else { a + 1 }]);
    }
    if has_acceptor(t, k) {
        let a = index_of(t, k);
        assert(t[a] == s[if a < i { a } else { a + 1 }]);
    }
    assert forall|h: BlockHash| h != k implies (#[trigger] has_acceptor(t, h) == has_acceptor(s, h))
        && (has_acceptor(s, h) ==> acceptor_at(t, h) == acceptor_at(s, h)) by {
        if has_acceptor(s, h) {
            let j = index_of(s, h);
            let a = if j < i { j } else { j - 1 };
            assert(t[a] == s[j]);
            lemma_index_of(t, a);
        }
        if has_acceptor(t, h) {
            let a = index_of(t, h);
            assert(t[a] == s[if a < i { a } else { a + 1 }]);
        }
    }
}

} // verus!
