use fedimint_consensus::codec::encode_signed_block;
use fedimint_consensus::hashing::block_header;
use fedimint_consensus::session::{
    CatchUpError, ConfigHashCheck, LatestContributionByPeer, SignatureCollector,
    batches_per_session, catch_up_signature_count_ok, check_config_hash,
    complete_single_guardian_session, finish_signing_phase, reconcile_catch_up,
};
use fedimint_consensus::state::ConsensusDb;
use fedimint_consensus::types::{
    AcceptedItem, Block, ConsensusItem, PeerSignature, SignedBlock, Transaction,
};

fn module_item(payload: Vec<u8>) -> ConsensusItem {
    ConsensusItem::Module { module_instance_id: 1, payload }
}

fn accepted(payload: Vec<u8>, peer: u64) -> AcceptedItem {
    AcceptedItem { item: module_item(payload), peer }
}

fn no_combined() -> Vec<u8> {
    vec![]
}

#[test]
fn batches_per_session_scales_with_the_peer_count() {
    assert_eq!(batches_per_session(4), 720);
    assert_eq!(batches_per_session(1), 180);
}

#[test]
fn config_hash_check_confirms_matching_hashes() {
    let ours = vec![0xAB; 32];
    assert_eq!(check_config_hash(&ours, &Some(vec![0xAB; 32])), ConfigHashCheck::Confirmed);
}

#[test]
fn config_hash_mismatch_is_fatal_for_the_odd_node_out() {
    // peer 0 holds hash H while its three peers report H': startup must end
    // in the fatal mismatch verdict, and nothing was persisted
    let ours = vec![0xAA; 32];
    let theirs = vec![0xBB; 32];
    let db = ConsensusDb::new(3);
    assert_eq!(check_config_hash(&ours, &Some(theirs)), ConfigHashCheck::Mismatch);
    assert_eq!(db.next_session_index(), 0);
}

#[test]
fn config_hash_check_retries_while_peers_are_unreachable() {
    let ours = vec![0xAA; 32];
    assert_eq!(check_config_hash(&ours, &None), ConfigHashCheck::Retry);
}

#[test]
fn signature_collector_reaches_the_threshold() {
    let header = vec![1; 32];
    let mut collector = SignatureCollector::new(header, 3);
    collector.add_signature(0, vec![10; 64], true);
    assert!(!collector.is_complete());
    // an unverified signature is not collected
    collector.add_signature(1, vec![11; 64], false);
    assert!(!collector.is_complete());
    collector.add_signature(1, vec![11; 64], true);
    // a repeated signer does not raise the count
    collector.add_signature(1, vec![12; 64], true);
    assert!(!collector.is_complete());
    collector.add_signature(3, vec![13; 64], true);
    assert!(collector.is_complete());
    let sb = collector.into_signed_block(Block { items: vec![] });
    assert_eq!(sb.signatures.len(), 3);
}

#[test]
fn signing_phase_finishes_only_over_the_session_block_header() {
    let block = Block { items: vec![accepted(vec![4], 1)] };
    let header = block_header(2, &block);
    let mut collector = SignatureCollector::new(header, 2);
    collector.add_signature(0, vec![10; 64], true);
    collector.add_signature(2, vec![12; 64], true);
    let sb = finish_signing_phase(collector, 2, block).expect("threshold met over this header");
    assert_eq!(sb.signatures.len(), 2);
    assert_eq!(sb.block.items.len(), 1);

    // a collector over some other header cannot finish this session
    let other_block = Block { items: vec![] };
    let mut stray = SignatureCollector::new(vec![9; 32], 1);
    stray.add_signature(0, vec![1; 64], true);
    assert!(finish_signing_phase(stray, 2, other_block).is_none());
}

#[test]
fn single_guardian_session_produces_one_self_signed_block() {
    // one member: threshold 1, the node is both proposer and acceptor
    let mut db = ConsensusDb::new(1);
    assert!(db.process_consensus_item(0, module_item(vec![1]), 0, true, 0, &no_combined()).is_ok());
    let session_index = db.next_session_index();
    assert_eq!(session_index, 0);
    let block = db.build_block();
    let signature = block_header(session_index, &block);
    complete_single_guardian_session(&mut db, session_index, 0, signature);
    assert_eq!(db.signed_blocks.len(), 1);
    assert_eq!(db.signed_blocks[0].signatures.len(), 1);
    assert_eq!(db.signed_blocks[0].signatures[0].peer, 0);
    assert!(db.accepted_items.is_empty());
    // the next iteration runs under the advanced session index
    assert_eq!(db.next_session_index(), 1);
}

#[test]
fn session_indices_advance_without_gaps() {
    let mut db = ConsensusDb::new(1);
    for expected in 0u64..3 {
        assert_eq!(db.next_session_index(), expected);
        let idx = db.next_session_index();
        complete_single_guardian_session(&mut db, idx, 0, vec![expected as u8; 64]);
    }
    assert_eq!(db.next_session_index(), 3);
    assert_eq!(db.signed_blocks.len(), 3);
}

#[test]
fn completed_session_leaves_no_accepted_items() {
    let mut db = ConsensusDb::new(2);
    assert!(db.process_consensus_item(0, module_item(vec![7]), 1, true, 0, &no_combined()).is_ok());
    let block = db.build_block();
    let sb = SignedBlock {
        block,
        signatures: vec![
            PeerSignature { peer: 0, sig: vec![1; 64] },
            PeerSignature { peer: 2, sig: vec![2; 64] },
        ],
    };
    db.complete_session(0, sb);
    assert!(db.accepted_items.is_empty());
    assert_eq!(db.signed_blocks.len(), 1);
    assert_eq!(db.signed_blocks[0].block.items.len(), 1);
}

#[test]
fn catch_up_processes_the_tail_and_stores_the_block_verbatim() {
    // peer 3 lagged: locally it accepted one item of session 0, the fetched
    // block holds three, the first being the local one
    let mut db = ConsensusDb::new(3);
    assert!(db.process_consensus_item(0, module_item(vec![0]), 0, true, 0, &no_combined()).is_ok());

    let fetched = SignedBlock {
        block: Block {
            items: vec![accepted(vec![0], 0), accepted(vec![1], 1), accepted(vec![2], 2)],
        },
        signatures: vec![
            PeerSignature { peer: 0, sig: vec![1; 64] },
            PeerSignature { peer: 1, sig: vec![2; 64] },
            PeerSignature { peer: 2, sig: vec![3; 64] },
        ],
    };
    assert!(catch_up_signature_count_ok(&fetched, 3));

    let tail = reconcile_catch_up(&db.accepted_items, &fetched).expect("local state is a prefix");
    assert_eq!(tail.len(), 2);
    for entry in tail {
        let idx = db.next_item_index();
        let r = db.process_consensus_item(idx, entry.item, entry.peer, true, 0, &no_combined());
        assert!(r.is_ok());
    }
    assert_eq!(db.next_item_index(), 3);

    let bytes_before = encode_signed_block(&fetched);
    db.complete_session(0, fetched);
    assert_eq!(encode_signed_block(&db.signed_blocks[0]), bytes_before);
}

#[test]
fn catch_up_fails_on_diverging_local_state() {
    let mut db = ConsensusDb::new(3);
    assert!(db.process_consensus_item(0, module_item(vec![9]), 0, true, 0, &no_combined()).is_ok());
    let fetched = SignedBlock {
        block: Block { items: vec![accepted(vec![0], 0), accepted(vec![1], 1)] },
        signatures: vec![PeerSignature { peer: 0, sig: vec![1; 64] }],
    };
    let r = reconcile_catch_up(&db.accepted_items, &fetched);
    assert!(matches!(r, Err(CatchUpError::PrefixMismatch)));
}

#[test]
fn catch_up_rejects_a_block_with_the_wrong_signature_count() {
    let fetched = SignedBlock {
        block: Block { items: vec![] },
        signatures: vec![PeerSignature { peer: 0, sig: vec![1; 64] }],
    };
    assert!(!catch_up_signature_count_ok(&fetched, 3));
}

#[test]
fn contribution_monitor_keeps_the_latest_session_per_peer() {
    let mut monitor = LatestContributionByPeer::new();
    assert_eq!(monitor.latest_of(1), None);
    monitor.record(1, 0);
    monitor.record(2, 0);
    monitor.record(1, 5);
    assert_eq!(monitor.latest_of(1), Some(5));
    assert_eq!(monitor.latest_of(2), Some(0));
    assert_eq!(monitor.latest_of(3), None);
}
