use fedimint_consensus::codec::{
    decode_item_batch, decode_signed_block, encode_item_batch, encode_signed_block,
};
use fedimint_consensus::hashing::block_header;
use fedimint_consensus::types::{
    AcceptedItem, Block, ConsensusItem, PeerSignature, SignedBlock, Transaction,
};

fn sample_items() -> Vec<AcceptedItem> {
    vec![
        AcceptedItem {
            item: ConsensusItem::Module { module_instance_id: 1, payload: vec![9, 8, 7] },
            peer: 0,
        },
        AcceptedItem {
            item: ConsensusItem::Transaction(Transaction {
                tx_hash: vec![0xAA; 32],
                output_module_ids: vec![1, 3],
            }),
            peer: 2,
        },
        AcceptedItem {
            item: ConsensusItem::ClientConfigSignatureShare { share: vec![5; 48] },
            peer: 3,
        },
    ]
}

fn sample_signed_block() -> SignedBlock {
    SignedBlock {
        block: Block { items: sample_items() },
        signatures: vec![
            PeerSignature { peer: 0, sig: vec![1; 64] },
            PeerSignature { peer: 1, sig: vec![2; 64] },
            PeerSignature { peer: 3, sig: vec![3; 64] },
        ],
    }
}

fn registry() -> Vec<u64> {
    vec![1, 3]
}

#[test]
fn signed_block_round_trip() {
    let sb = sample_signed_block();
    let bytes = encode_signed_block(&sb);
    let decoded = decode_signed_block(bytes.as_slice(), &registry()).expect("decodes");
    assert_eq!(encode_signed_block(&decoded), bytes);
}

#[test]
fn empty_signed_block_round_trip() {
    let sb = SignedBlock {
        block: Block { items: vec![] },
        signatures: vec![PeerSignature { peer: 0, sig: vec![7; 64] }],
    };
    let bytes = encode_signed_block(&sb);
    let decoded = decode_signed_block(bytes.as_slice(), &registry()).expect("decodes");
    assert_eq!(encode_signed_block(&decoded), bytes);
}

#[test]
fn item_batch_round_trip() {
    let items = vec![
        ConsensusItem::Module { module_instance_id: 3, payload: vec![] },
        ConsensusItem::Transaction(Transaction {
            tx_hash: vec![0x11; 32],
            output_module_ids: vec![],
        }),
    ];
    let bytes = encode_item_batch(&items);
    let decoded = decode_item_batch(bytes.as_slice(), &registry()).expect("decodes");
    assert_eq!(encode_item_batch(&decoded), bytes);
}

#[test]
fn decoder_rejects_unknown_module_instance() {
    let items = vec![ConsensusItem::Module { module_instance_id: 9, payload: vec![1] }];
    let bytes = encode_item_batch(&items);
    // instance 9 is not in the registry: reject-unknown-module mode drops the batch
    assert!(decode_item_batch(bytes.as_slice(), &registry()).is_none());
    let known = vec![9u64];
    assert!(decode_item_batch(bytes.as_slice(), &known).is_some());
}

#[test]
fn decoder_rejects_trailing_bytes() {
    let sb = sample_signed_block();
    let mut bytes = encode_signed_block(&sb);
    bytes.push(0);
    assert!(decode_signed_block(bytes.as_slice(), &registry()).is_none());
}

#[test]
fn decoder_rejects_truncated_input() {
    let sb = sample_signed_block();
    let bytes = encode_signed_block(&sb);
    let cut = &bytes[..bytes.len() - 1];
    assert!(decode_signed_block(cut, &registry()).is_none());
}

#[test]
fn decoder_rejects_bad_tag() {
    // one item announced, tag byte 7 is no consensus item
    let mut bytes = 1u64.to_le_bytes().to_vec();
    bytes.push(7);
    assert!(decode_item_batch(bytes.as_slice(), &registry()).is_none());
}

#[test]
fn header_is_the_digest_of_the_canonical_encoding() {
    // session 0 over the empty block encodes to sixteen zero bytes, whose
    // SHA-256 digest is a fixed vector
    let header = block_header(0, &Block { items: vec![] });
    let expected: Vec<u8> = vec![
        55, 71, 8, 255, 247, 113, 157, 213, 151, 158, 200, 117, 213, 108, 210, 40, 111, 109, 60,
        247, 236, 49, 122, 59, 37, 99, 42, 171, 40, 236, 55, 187,
    ];
    assert_eq!(header, expected);
}

#[test]
fn header_is_deterministic_and_content_sensitive() {
    let block = Block { items: sample_items() };
    let again = Block { items: sample_items() };
    assert_eq!(block_header(5, &block), block_header(5, &again));
    assert_ne!(block_header(5, &block), block_header(6, &block));
    assert_eq!(block_header(5, &block).len(), 32);
}
