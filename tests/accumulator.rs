use block_accumulator::accumulator::{BlockAccumulator, Config, Effect, Event};
use block_accumulator::sync::{StartingWith, SyncInstruction};
use block_accumulator::block_acceptor::{AcceptorError, BlockAcceptor, ShouldStore};
use block_accumulator::types::{
    Block, EraValidatorWeights, FinalitySignature, FinalitySignatureId, ValidatorMatrix,
};

const ERA: u64 = 3;

fn three_validators() -> ValidatorMatrix {
    let mut m = ValidatorMatrix::new();
    m.register_era_validator_weights(EraValidatorWeights::new(
        ERA,
        vec![(1, 100), (2, 100), (3, 100)],
    ));
    m
}

fn accumulator(threshold: u64, dead_air: u64) -> BlockAccumulator {
    BlockAccumulator::new(Config::new(threshold, dead_air), three_validators(), None, 0)
}

fn block(hash: u64, parent: u64, height: u64) -> Block {
    Block::new(hash, Some(parent), ERA, height)
}

fn sig(hash: u64, signer: u64) -> FinalitySignature {
    FinalitySignature::new(hash, ERA, signer, 1000 + signer)
}

/// Registers block `hash` at `height` and signs it by validators 1 and 2.
fn finalize(acc: &mut BlockAccumulator, hash: u64, parent: u64, height: u64) {
    assert!(acc.register_block(block(hash, parent, height), 7).is_empty());
    acc.register_finality_signature(sig(hash, 1), 7);
    acc.register_finality_signature(sig(hash, 2), 7);
}

fn has(acc: &BlockAccumulator, hash: u64) -> bool {
    acc.block_acceptors.iter().any(|a| a.block_hash == hash)
}

#[test]
fn quorum_triggers_storage() {
    let mut acc = accumulator(5, 1000);
    assert!(acc.register_block(block(10, 9, 1), 7).is_empty());
    let first = acc.register_finality_signature(sig(10, 1), 7);
    assert_eq!(first.len(), 1);
    assert!(matches!(first[0], Effect::StoreSignature(s) if s == sig(10, 1)));
    let second = acc.register_finality_signature(sig(10, 2), 8);
    assert_eq!(second.len(), 1);
    match &second[0] {
        Effect::StoreBlockAndSignatures { block: b, signatures } => {
            assert_eq!(*b, block(10, 9, 1));
            assert_eq!(signatures, &vec![sig(10, 1), sig(10, 2)]);
        }
        other => panic!("unexpected effect {:?}", other),
    }
    let third = acc.register_finality_signature(sig(10, 3), 9);
    assert!(third.is_empty());
}

#[test]
fn duplicate_signature_stores_nothing() {
    let mut acc = accumulator(5, 1000);
    assert_eq!(acc.register_finality_signature(sig(10, 1), 7).len(), 1);
    assert!(acc.register_finality_signature(sig(10, 1), 8).is_empty());
}

#[test]
fn signature_from_unknown_validator_disconnects_peer() {
    let mut acc = accumulator(5, 1000);
    let effects = acc.register_finality_signature(sig(10, 42), 5);
    assert_eq!(effects.len(), 1);
    assert!(matches!(effects[0], Effect::DisconnectFromPeer(5)));
}

#[test]
fn signature_of_wrong_era_is_dropped_quietly() {
    let mut acc = accumulator(5, 1000);
    acc.register_block(block(10, 9, 1), 7);
    let effects = acc.register_finality_signature(FinalitySignature::new(10, ERA + 1, 1, 0), 7);
    assert!(effects.is_empty());
    assert!(has(&acc, 10));
}

#[test]
fn malformed_block_disconnects_peer() {
    let mut acc = accumulator(5, 1000);
    let effects = acc.register_block(Block::new(10, None, ERA, 4), 6);
    assert_eq!(effects.len(), 1);
    assert!(matches!(effects[0], Effect::DisconnectFromPeer(6)));
}

#[test]
fn era_mismatch_rebuilds_acceptor() {
    let mut acc = accumulator(5, 1000);
    assert!(acc.register_block(block(10, 9, 1), 7).is_empty());
    let other_era = Block::new(10, Some(9), ERA + 1, 1);
    assert!(acc.register_block(other_era, 7).is_empty());
    assert!(!has(&acc, 10));
    assert!(acc.register_block(other_era, 7).is_empty());
    assert!(has(&acc, 10));
    assert_eq!(acc.block(10), Some(other_era));
}

#[test]
fn outdated_block_is_dropped() {
    let mut acc = BlockAccumulator::new(Config::new(5, 1000), three_validators(), Some(10), 0);
    assert!(acc.register_block(block(4, 3, 5), 7).is_empty());
    assert!(!has(&acc, 4));
    assert_eq!(acc.block(4), None);
}

#[test]
fn handled_hash_is_never_registered_again() {
    let mut acc = accumulator(5, 1000);
    acc.register_block(block(4, 3, 5), 7);
    acc.register_local_tip(6);
    assert!(acc.already_handled.contains(&4));
    assert!(acc.register_finality_signature(sig(4, 1), 7).is_empty());
    assert!(!has(&acc, 4));
}

#[test]
fn monotonic_tip() {
    let mut acc = accumulator(5, 1000);
    for h in [5u64, 3, 9, 2] {
        acc.register_local_tip(h);
    }
    assert_eq!(acc.local_tip, Some(9));
    let mut acc = BlockAccumulator::new(Config::new(5, 1000), three_validators(), Some(20), 0);
    acc.register_local_tip(4);
    assert_eq!(acc.local_tip, Some(20));
}

#[test]
fn eviction_correctness() {
    let mut acc = accumulator(5, 1000);
    acc.register_block(block(1, 0, 3), 7);
    acc.register_block(block(2, 1, 8), 7);
    acc.register_block(block(3, 2, 10), 7);
    acc.register_finality_signature(sig(4, 1), 7);
    acc.register_local_tip(8);
    assert!(!has(&acc, 1));
    assert!(!has(&acc, 4));
    assert!(has(&acc, 2));
    assert!(has(&acc, 3));
    assert!(acc.already_handled.contains(&1));
    assert!(acc.already_handled.contains(&4));
    assert!(!acc.already_handled.contains(&2));
    for a in &acc.block_acceptors {
        assert!(!acc.already_handled.contains(&a.block_hash));
    }
}

#[test]
fn sync_threshold_boundary() {
    let acc = accumulator(10, 1000);
    assert!(acc.should_sync(Some(90), Some(100)));
    let acc = accumulator(9, 1000);
    assert!(!acc.should_sync(Some(90), Some(100)));
    for t in [0u64, 9, 10, 50] {
        let acc = accumulator(t, 1000);
        assert!(acc.should_sync(Some(100), Some(100)));
        assert!(!acc.should_sync(None, Some(100)));
        assert!(!acc.should_sync(Some(90), None));
    }
}

#[test]
fn leap_on_ignorance() {
    let mut acc = accumulator(5, 1000);
    finalize(&mut acc, 10, 9, 100);
    assert_eq!(acc.sync_instruction(StartingWith::Hash(77), 0), SyncInstruction::Leap);
    assert_eq!(acc.sync_instruction(StartingWith::Nothing, 0), SyncInstruction::Leap);
}

#[test]
fn highest_usable_height() {
    let mut acc = accumulator(5, 1000);
    assert_eq!(acc.highest_usable_block_height(), None);
    finalize(&mut acc, 10, 9, 100);
    finalize(&mut acc, 11, 10, 101);
    acc.register_block(block(12, 11, 150), 7);
    assert_eq!(acc.highest_usable_block_height(), Some(101));
}

#[test]
fn dead_air_fallback() {
    let mut acc = accumulator(5, 1000);
    finalize(&mut acc, 10, 9, 100);
    let start = acc.last_progress;
    let at = StartingWith::SyncedBlockIdentifier(10, 100);
    assert_eq!(acc.sync_instruction(at, start + 999), SyncInstruction::CaughtUp);
    assert_eq!(acc.sync_instruction(at, start + 1000), SyncInstruction::Leap);
    assert_eq!(acc.sync_instruction(at, start + 5000), SyncInstruction::Leap);
}

#[test]
fn catch_up_follows_child() {
    let mut acc = accumulator(5, 1000);
    finalize(&mut acc, 10, 9, 100);
    finalize(&mut acc, 11, 10, 101);
    let r = acc.sync_instruction(StartingWith::SyncedBlockIdentifier(10, 100), 123);
    assert_eq!(
        r,
        SyncInstruction::BlockSync { block_hash: 11, should_fetch_execution_state: false }
    );
    assert_eq!(acc.last_progress, 123);
}

#[test]
fn block_identifier_and_hash_sync() {
    let mut acc = accumulator(5, 1000);
    finalize(&mut acc, 10, 9, 100);
    acc.register_block(block(8, 7, 97), 7);
    assert_eq!(
        acc.sync_instruction(StartingWith::BlockIdentifier(5, 96), 1),
        SyncInstruction::BlockSync { block_hash: 5, should_fetch_execution_state: false }
    );
    assert_eq!(
        acc.sync_instruction(StartingWith::BlockIdentifier(5, 94), 2),
        SyncInstruction::Leap
    );
    assert_eq!(
        acc.sync_instruction(StartingWith::Hash(8), 3),
        SyncInstruction::BlockSync { block_hash: 8, should_fetch_execution_state: true }
    );
    assert_eq!(acc.last_progress, 3);
}

#[test]
fn executable_block_instructions() {
    let mut acc = accumulator(5, 1000);
    assert_eq!(
        acc.sync_instruction(StartingWith::ExecutableBlock(1, 50), 0),
        SyncInstruction::BlockExec { next_block_hash: None }
    );
    finalize(&mut acc, 10, 9, 100);
    finalize(&mut acc, 11, 10, 101);
    assert_eq!(
        acc.sync_instruction(StartingWith::ExecutableBlock(11, 101), 0),
        SyncInstruction::BlockExec { next_block_hash: None }
    );
    assert_eq!(
        acc.sync_instruction(StartingWith::ExecutableBlock(10, 100), 0),
        SyncInstruction::BlockExec { next_block_hash: Some(11) }
    );
    assert_eq!(
        acc.sync_instruction(StartingWith::ExecutableBlock(5, 90), 0),
        SyncInstruction::Leap
    );
    assert!(!has(&acc, 20));
    assert_eq!(
        acc.sync_instruction(StartingWith::ExecutableBlock(20, 150), 0),
        SyncInstruction::BlockExec { next_block_hash: None }
    );
    assert!(has(&acc, 20));
}

#[test]
fn starting_with_accessors() {
    let s = StartingWith::SyncedBlockIdentifier(4, 9);
    assert_eq!(s.block_hash(), 4);
    assert_eq!(s.block_height(), 9);
    assert!(s.have_block());
    let h = StartingWith::Hash(6);
    assert_eq!(h.block_hash(), 6);
    assert_eq!(h.block_height(), 0);
    assert!(!h.have_block());
    assert_eq!(StartingWith::Nothing.block_hash(), 0);
    assert!(!StartingWith::Nothing.have_block());
}

#[test]
fn peers_and_stored_announcements() {
    let mut acc = accumulator(5, 1000);
    acc.register_block(block(10, 9, 1), 7);
    acc.register_finality_signature(sig(10, 1), 8);
    acc.register_finality_signature(sig(10, 3), 7);
    assert_eq!(acc.get_peers(10), Some(vec![7, 8]));
    assert_eq!(acc.get_peers(11), None);
    let id = FinalitySignatureId { block_hash: 10, era_id: ERA, public_key: 1 };
    assert_eq!(sig(10, 1).id(), id);
    let effects = acc.handle_stored(Some(10), vec![id]);
    assert_eq!(effects.len(), 2);
    assert!(matches!(effects[0], Effect::AnnounceBlockAccepted(10)));
    assert!(matches!(effects[1], Effect::AnnounceFinalitySignatureAccepted(x) if x == id));
    let effects = acc.handle_event(Event::Stored { block_hash: None, finality_signature_ids: vec![id] });
    assert_eq!(effects.len(), 1);
    let effects = acc.handle_event(Event::GetPeersForBlock { block_hash: 10 });
    assert!(matches!(&effects[0], Effect::PeersForBlock { block_hash: 10, peers: Some(p) } if p == &vec![7, 8]));
}

#[test]
fn executed_block_event_raises_tip() {
    let mut acc = accumulator(5, 1000);
    acc.register_block(block(10, 9, 1), 7);
    assert!(acc.handle_event(Event::ExecutedBlock { height: 2 }).is_empty());
    assert_eq!(acc.local_tip, Some(2));
    assert!(!has(&acc, 10));
}

#[test]
fn updated_matrix_completes_quorum() {
    let mut acc = BlockAccumulator::new(Config::new(5, 1000), ValidatorMatrix::new(), None, 0);
    acc.register_block(block(10, 9, 1), 7);
    acc.register_finality_signature(sig(10, 1), 7);
    acc.register_finality_signature(sig(10, 2), 7);
    assert_eq!(acc.highest_usable_block_height(), None);
    acc.validator_matrix
        .register_era_validator_weights(EraValidatorWeights::new(ERA, vec![(1, 100), (2, 100), (3, 100)]));
    acc.register_updated_validator_matrix();
    assert_eq!(acc.highest_usable_block_height(), Some(1));
}

#[test]
fn acceptor_errors() {
    let mut a = BlockAcceptor::new(10, vec![]);
    assert!(matches!(
        a.register_block(block(11, 9, 1), 4),
        Err(AcceptorError::BlockHashMismatch { expected: 10, actual: 11, peer: 4 })
    ));
    assert!(matches!(
        a.register_finality_signature(sig(12, 1), 4),
        Err(AcceptorError::BlockHashMismatch { expected: 10, actual: 12, peer: 4 })
    ));
    assert!(matches!(a.register_block(Block::new(10, None, ERA, 3), 4), Err(AcceptorError::InvalidGossip { peer: 4 })));
    assert!(a.register_block(block(10, 9, 1), 4).is_ok());
    assert!(matches!(
        a.register_finality_signature(FinalitySignature::new(10, ERA + 2, 1, 0), 4),
        Err(AcceptorError::EraMismatch { block_hash: 10, expected: ERA, actual: 5 })
    ));
    assert!(matches!(a.register_finality_signature(sig(10, 1), 4), Ok(ShouldStore::SingleSignature(_))));
    assert_eq!(a.block_height(), Some(1));
    assert_eq!(a.block_era_and_height(), Some((ERA, 1)));
    assert!(!a.has_sufficient_finality());
}

#[test]
fn refresh_purges_unweighted_signers() {
    let mut a = BlockAcceptor::new(10, vec![]);
    a.register_finality_signature(sig(10, 1), 4).unwrap();
    a.register_finality_signature(sig(10, 9), 4).unwrap();
    a.register_block(block(10, 9, 1), 4).unwrap();
    assert_eq!(a.signatures.len(), 2);
    a.refresh(EraValidatorWeights::new(ERA, vec![(1, 10), (2, 10)]));
    assert_eq!(a.signatures, vec![sig(10, 1)]);
    assert!(a.has_sufficient_finality());
}

#[test]
fn weight_table_sums() {
    let w = EraValidatorWeights::new(ERA, vec![(1, 100), (2, 50), (1, 7), (3, u64::MAX)]);
    assert_eq!(w.weight(1), 100);
    assert_eq!(w.weight(4), 0);
    assert_eq!(w.total(), 157 + u64::MAX as u128);
    assert_eq!(w.signed(&vec![sig(1, 1), sig(1, 2)]), 150);
    let w = EraValidatorWeights::new(ERA, vec![(1, 100), (2, 100), (3, 100)]);
    assert!(!w.is_sufficient(&vec![sig(1, 1)]));
    assert!(w.is_sufficient(&vec![sig(1, 1), sig(1, 2)]));
    let w = EraValidatorWeights::new(ERA, vec![(1, 1), (2, 2)]);
    assert!(!w.is_sufficient(&vec![sig(1, 1)]));
    assert!(w.is_sufficient(&vec![sig(1, 2)]));
}

#[test]
fn invalid_gossip_leaves_acceptor_untouched() {
    let mut acc = accumulator(5, 1000);
    acc.register_block(block(10, 9, 1), 7);
    acc.register_finality_signature(sig(10, 1), 8);
    let effects = acc.register_finality_signature(sig(10, 42), 5);
    assert_eq!(effects.len(), 1);
    let a = acc.block_acceptors.iter().find(|a| a.block_hash == 10).unwrap();
    assert_eq!(a.peers, vec![7, 8]);
    assert_eq!(a.signatures, vec![sig(10, 1)]);
    assert_eq!(a.block, Some(block(10, 9, 1)));
}

#[test]
fn rebuilt_acceptor_has_sender_and_era_weights() {
    let mut acc = accumulator(5, 1000);
    assert!(acc.register_block(Block::new(10, Some(9), ERA + 1, 1), 4).is_empty());
    let b = block(10, 9, 1);
    assert!(acc.register_block(b, 7).is_empty());
    assert!(!has(&acc, 10));
    assert!(acc.register_block(b, 9).is_empty());
    let a = acc.block_acceptors.iter().find(|a| a.block_hash == 10).unwrap();
    assert_eq!(a.peers, vec![9]);
    assert_eq!(a.era_validator_weights.as_ref().map(|w| w.era_id), Some(ERA));
    assert_eq!(a.block, Some(b));
}

#[test]
fn sync_query_leaves_state_unchanged() {
    let mut acc = accumulator(5, 1000);
    finalize(&mut acc, 10, 9, 100);
    let before = acc.last_progress;
    assert_eq!(acc.sync_instruction(StartingWith::Hash(77), 5), SyncInstruction::Leap);
    assert_eq!(acc.last_progress, before);
    assert_eq!(acc.block_acceptors.len(), 1);
    assert_eq!(acc.block_children.get(&9), Some(&10));
}
