use vstd::prelude::*;

use crate::state::{DbView, ProcessError, StepResult, spec_process};
use crate::types::{AcceptedItemView, ConsensusItemView, SignedBlockView, signers_distinct};

verus! {

// The laws the consensus core obeys, stated over the database model and
// the processor's transition. Each is proved from the contracts of the
// functions it speaks of; the round trip of the binary format is stated
// beside the codec.

/// Whether a signed block is persisted under session index `i`.
pub open spec fn has_signed_block(db: DbView, i: int) -> bool {
    0 <= i < db.signed_blocks.len()
}

/// Completing a session under the next free index empties the accepted
/// items and persists exactly one signed block under that index, leaving
/// every earlier session's block as it was.
pub proof fn lemma_completed_session(pre: DbView, sb: SignedBlockView)
    ensures
        ({
            let post = DbView {
                accepted_items: Seq::<AcceptedItemView>::empty(),
                signed_blocks: pre.signed_blocks.push(sb),
                ..pre
            };
            &&& post.accepted_items.len() == 0
            &&& post.signed_blocks.len() == pre.signed_blocks.len() + 1
            &&& post.signed_blocks[pre.signed_blocks.len() as int] == sb
            &&& forall|j: int|
                0 <= j < pre.signed_blocks.len() ==> post.signed_blocks[j] == pre.signed_blocks[j]
        }),
{
}

/// Session indices are the contiguous sequence 0, 1, 2, ... without gaps:
/// a block exists under every index below the count of blocks, and the
/// next session runs under that count.
pub proof fn lemma_session_indices_contiguous(db: DbView)
    ensures
        forall|i: int, j: int| 0 <= j <= i && has_signed_block(db, i) ==> has_signed_block(db, j),
{
}

/// No two accepted items of the transaction variant share a transaction
/// hash.
pub proof fn lemma_accepted_tx_hashes_unique(db: DbView)
    requires
        db.inv(),
    ensures
        forall|k: int, l: int|
            0 <= k < l < db.accepted_items.len()
                ==> match ((#[trigger] db.accepted_items[k]).item, (
            #[trigger] db.accepted_items[l]).item) {
                (ConsensusItemView::Transaction(a), ConsensusItemView::Transaction(b)) => a.tx_hash
                    != b.tx_hash,
                _ => true,
            },
{
}

/// Every persisted signed block carries at least the threshold of
/// signatures, by distinct peers.
pub proof fn lemma_signed_blocks_meet_threshold(db: DbView)
    requires
        db.inv(),
    ensures
        forall|i: int|
            0 <= i < db.signed_blocks.len() ==> signers_distinct(
                (#[trigger] db.signed_blocks[i]).signatures,
            ) && db.signed_blocks[i].signatures.len() >= db.threshold,
{
}

/// An item is committed only under a non-negative aggregate audit balance:
/// whenever the processor accepts a new item, the net assets handed to the
/// audit gate were at least zero.
pub proof fn lemma_commit_requires_nonnegative_audit(
    db: DbView,
    item_index: u64,
    item: ConsensusItemView,
    peer: u64,
    external_ok: bool,
    audit_net_assets: i64,
    combined: Seq<u8>,
)
    requires
        item_index == db.accepted_items.len(),
        spec_process(db, item_index, item, peer, external_ok, audit_net_assets, combined).result
            is Ok,
    ensures
        audit_net_assets >= 0,
{
}

/// The combined client-config signature is written once: whatever item is
/// delivered afterwards, the stored signature stands unchanged, and a
/// further signature share is rejected without any change to the database.
pub proof fn lemma_config_signature_written_once(
    db: DbView,
    item_index: u64,
    item: ConsensusItemView,
    peer: u64,
    external_ok: bool,
    audit_net_assets: i64,
    combined: Seq<u8>,
)
    requires
        db.client_config_signature is Some,
    ensures
        ({
            let step = spec_process(
                db,
                item_index,
                item,
                peer,
                external_ok,
                audit_net_assets,
                combined,
            );
            &&& step.db.client_config_signature == db.client_config_signature
            &&& (item_index == db.accepted_items.len() && item matches
                ConsensusItemView::ClientConfigSignatureShare { .. }) ==> (step.result == Result::<
                (),
                ProcessError,
            >::Err(ProcessError::ConfigAlreadySigned) && step.db == db)
        }),
{
}

/// Re-delivering an ordered item at an index already holding the identical
/// `(item, peer)` pair succeeds and changes nothing.
pub proof fn lemma_redelivery_same_is_noop(
    db: DbView,
    item_index: u64,
    item: ConsensusItemView,
    peer: u64,
    external_ok: bool,
    audit_net_assets: i64,
    combined: Seq<u8>,
)
    requires
        item_index < db.accepted_items.len(),
        db.accepted_items[item_index as int] == (AcceptedItemView { item, peer }),
    ensures
        spec_process(db, item_index, item, peer, external_ok, audit_net_assets, combined)
            == (StepResult { db, result: Ok(()) }),
{
}

/// Re-delivering a different `(item, peer)` pair at an occupied index
/// fails as discarded before recovery and leaves the database unchanged.
pub proof fn lemma_redelivery_different_rejected(
    db: DbView,
    item_index: u64,
    item: ConsensusItemView,
    peer: u64,
    external_ok: bool,
    audit_net_assets: i64,
    combined: Seq<u8>,
)
    requires
        item_index < db.accepted_items.len(),
        db.accepted_items[item_index as int] != (AcceptedItemView { item, peer }),
    ensures
        spec_process(db, item_index, item, peer, external_ok, audit_net_assets, combined)
            == (StepResult { db, result: Err(ProcessError::DiscardedBeforeRecovery) }),
{
}

} // verus!
