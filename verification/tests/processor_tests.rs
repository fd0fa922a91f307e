use fedimint_consensus::state::{ConsensusDb, ProcessError};
use fedimint_consensus::types::{ConsensusItem, Transaction};

fn tx_item(hash_byte: u8) -> ConsensusItem {
    ConsensusItem::Transaction(Transaction {
        tx_hash: vec![hash_byte; 32],
        output_module_ids: vec![1],
    })
}

fn module_item(payload: Vec<u8>) -> ConsensusItem {
    ConsensusItem::Module { module_instance_id: 1, payload }
}

fn share_item(byte: u8) -> ConsensusItem {
    ConsensusItem::ClientConfigSignatureShare { share: vec![byte; 48] }
}

fn no_combined() -> Vec<u8> {
    vec![]
}

#[test]
fn accepts_a_valid_module_item() {
    let mut db = ConsensusDb::new(3);
    let r = db.process_consensus_item(0, module_item(vec![1, 2]), 2, true, 0, &no_combined());
    assert!(r.is_ok());
    assert_eq!(db.next_item_index(), 1);
}

#[test]
fn rejects_a_module_item_the_module_rejects() {
    let mut db = ConsensusDb::new(3);
    let r = db.process_consensus_item(0, module_item(vec![1]), 2, false, 0, &no_combined());
    assert_eq!(r, Err(ProcessError::ModuleError));
    assert_eq!(db.next_item_index(), 0);
}

#[test]
fn duplicate_transaction_is_rejected_and_index_unchanged() {
    let mut db = ConsensusDb::new(3);
    assert!(db.process_consensus_item(0, tx_item(0x70u8), 0, true, 0, &no_combined()).is_ok());
    assert_eq!(db.next_item_index(), 1);
    assert!(db.tx_accepted(&vec![0x70u8; 32]));
    // the same hash ordered a second time, even from another peer
    let r = db.process_consensus_item(1, tx_item(0x70u8), 3, true, 0, &no_combined());
    assert_eq!(r, Err(ProcessError::TransactionAlreadyAccepted));
    assert_eq!(db.next_item_index(), 1);
}

#[test]
fn invalid_transaction_is_rejected_without_recording_its_hash() {
    let mut db = ConsensusDb::new(3);
    let r = db.process_consensus_item(0, tx_item(0x55), 0, false, 0, &no_combined());
    assert_eq!(r, Err(ProcessError::TransactionInvalid));
    assert!(!db.tx_accepted(&vec![0x55; 32]));
    assert_eq!(db.next_item_index(), 0);
}

#[test]
fn redelivery_of_the_identical_item_is_a_noop() {
    let mut db = ConsensusDb::new(3);
    assert!(db.process_consensus_item(0, tx_item(1), 2, true, 0, &no_combined()).is_ok());
    let before = db.next_item_index();
    // same index, same (item, peer): success without change
    let r = db.process_consensus_item(0, tx_item(1), 2, true, 0, &no_combined());
    assert!(r.is_ok());
    assert_eq!(db.next_item_index(), before);
    assert_eq!(db.accepted_items.len(), 1);
}

#[test]
fn redelivery_with_a_different_peer_is_discarded() {
    let mut db = ConsensusDb::new(3);
    assert!(db.process_consensus_item(0, tx_item(1), 2, true, 0, &no_combined()).is_ok());
    let r = db.process_consensus_item(0, tx_item(1), 3, true, 0, &no_combined());
    assert_eq!(r, Err(ProcessError::DiscardedBeforeRecovery));
    assert_eq!(db.next_item_index(), 1);
    assert!(db.tx_accepted(&vec![1; 32]));
}

#[test]
fn redelivery_with_a_different_item_is_discarded() {
    let mut db = ConsensusDb::new(3);
    assert!(db.process_consensus_item(0, tx_item(1), 2, true, 0, &no_combined()).is_ok());
    let r = db.process_consensus_item(0, tx_item(2), 2, true, 0, &no_combined());
    assert_eq!(r, Err(ProcessError::DiscardedBeforeRecovery));
    assert_eq!(db.next_item_index(), 1);
    assert!(!db.tx_accepted(&vec![2; 32]));
}

#[test]
fn negative_audit_balance_aborts_the_commit() {
    let mut db = ConsensusDb::new(3);
    let r = db.process_consensus_item(0, module_item(vec![1]), 0, true, -1, &no_combined());
    assert_eq!(r, Err(ProcessError::NegativeAuditBalance));
    assert_eq!(db.next_item_index(), 0);
}

#[test]
fn client_config_signing_combines_after_threshold_is_exceeded() {
    // threshold 3: one valid share per peer 0..3, interleaved with other
    // items; the fourth share triggers the combination
    let mut db = ConsensusDb::new(3);
    let combined = vec![0xCC; 96];
    let mut index: u64 = 0;
    for peer in 0u64..4 {
        let r = db.process_consensus_item(
            index,
            share_item(peer as u8),
            peer,
            true,
            0,
            &combined,
        );
        assert!(r.is_ok());
        index += 1;
        if peer < 3 {
            assert!(db.has_share_from(peer));
            assert!(db.needs_config_signature());
            // an unrelated item between the shares
            let r =
                db.process_consensus_item(index, module_item(vec![peer as u8]), peer, true, 0, &no_combined());
            assert!(r.is_ok());
            index += 1;
        }
    }
    // all shares were cleared and the combined signature stored
    for peer in 0u64..4 {
        assert!(!db.has_share_from(peer));
    }
    assert!(!db.needs_config_signature());
    assert_eq!(db.client_config_signature, Some(combined));
}

#[test]
fn a_second_share_from_the_same_peer_is_rejected() {
    let mut db = ConsensusDb::new(3);
    assert!(db.process_consensus_item(0, share_item(1), 1, true, 0, &no_combined()).is_ok());
    let r = db.process_consensus_item(1, share_item(9), 1, true, 0, &no_combined());
    assert_eq!(r, Err(ProcessError::DuplicateShare));
    assert_eq!(db.next_item_index(), 1);
}

#[test]
fn an_invalid_share_is_rejected_and_nothing_is_stored() {
    let mut db = ConsensusDb::new(3);
    let r = db.process_consensus_item(0, share_item(1), 1, false, 0, &no_combined());
    assert_eq!(r, Err(ProcessError::InvalidShare));
    assert!(!db.has_share_from(1));
    assert_eq!(db.next_item_index(), 0);
}

#[test]
fn no_share_is_accepted_once_the_config_is_signed() {
    let mut db = ConsensusDb::new(1);
    let combined = vec![0xAB; 96];
    // threshold 1: the second share combines (strictly more than threshold)
    assert!(db.process_consensus_item(0, share_item(0), 0, true, 0, &combined).is_ok());
    assert!(db.needs_config_signature());
    assert!(db.process_consensus_item(1, share_item(1), 1, true, 0, &combined).is_ok());
    assert!(!db.needs_config_signature());
    let r = db.process_consensus_item(2, share_item(2), 2, true, 0, &combined);
    assert_eq!(r, Err(ProcessError::ConfigAlreadySigned));
    assert_eq!(db.client_config_signature, Some(combined));
    assert_eq!(db.next_item_index(), 2);
}
