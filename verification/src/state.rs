use vstd::prelude::*;

use crate::types::{
    AcceptedItem, AcceptedItemView, Block, ConsensusItem, ConsensusItemView, SignedBlock,
    SignedBlockView, bytes_eq, clone_accepted_item, clone_bytes, clone_ids, item_eq,
    signers_distinct, view_items,
};

verus! {

// The server-owned keyspaces of the consensus database, modelled as one
// state machine. The accepted items of the running session form a
// contiguous sequence indexed from zero; signed blocks are keyed by their
// session index, which always equals the count of blocks persisted so far;
// accepted transaction hashes and the client-config signature state are
// permanent.
//
// Work that only outside collaborators can do (module dispatch, transaction
// validation, share verification, combining shares) reaches these functions
// as arguments: the caller performs the outside call and hands in its
// outcome, and the contracts state exactly what is persisted for every
// outcome.

/// A permanently recorded transaction: its hash and the module instances
/// its outputs touched.
pub struct AcceptedTransactionEntry {
    pub tx_hash: Vec<u8>,
    pub module_ids: Vec<u64>,
}

#[verifier::ext_equal]
pub struct AcceptedTransactionEntryView {
    pub tx_hash: Seq<u8>,
    pub module_ids: Seq<u64>,
}

impl View for AcceptedTransactionEntry {
    type V = AcceptedTransactionEntryView;

    open spec fn view(&self) -> AcceptedTransactionEntryView {
        AcceptedTransactionEntryView { tx_hash: self.tx_hash@, module_ids: self.module_ids@ }
    }
}

/// A stored threshold-signature share over the client config hash.
pub struct ConfigShareEntry {
    pub peer: u64,
    pub share: Vec<u8>,
}

#[verifier::ext_equal]
pub struct ConfigShareEntryView {
    pub peer: u64,
    pub share: Seq<u8>,
}

impl View for ConfigShareEntry {
    type V = ConfigShareEntryView;

    open spec fn view(&self) -> ConfigShareEntryView {
        ConfigShareEntryView { peer: self.peer, share: self.share@ }
    }
}

/// Why the processor rejected an ordered item. `NegativeAuditBalance` and
/// `DiscardedBeforeRecovery` signal corruption: the caller must abort the
/// session (the latter) or the process (the former).
#[derive(Clone, Copy, PartialEq, Eq, Structural, Debug)]
pub enum ProcessError {
    DiscardedBeforeRecovery,
    ModuleError,
    TransactionAlreadyAccepted,
    TransactionInvalid,
    ConfigAlreadySigned,
    DuplicateShare,
    InvalidShare,
    NegativeAuditBalance,
}

#[verifier::ext_equal]
pub struct DbView {
    pub threshold: u64,
    pub accepted_items: Seq<AcceptedItemView>,
    pub accepted_transactions: Seq<AcceptedTransactionEntryView>,
    pub signed_blocks: Seq<SignedBlockView>,
    pub client_config_signature: Option<Seq<u8>>,
    pub config_signature_shares: Seq<ConfigShareEntryView>,
}

pub open spec fn view_tx_entries(v: Seq<AcceptedTransactionEntry>) -> Seq<
    AcceptedTransactionEntryView,
> {
    v.map_values(|e: AcceptedTransactionEntry| e@)
}

pub open spec fn view_share_entries(v: Seq<ConfigShareEntry>) -> Seq<ConfigShareEntryView> {
    v.map_values(|e: ConfigShareEntry| e@)
}

pub open spec fn view_signed_blocks(v: Seq<SignedBlock>) -> Seq<SignedBlockView> {
    v.map_values(|b: SignedBlock| b@)
}

/// The server-owned portion of the consensus database.
pub struct ConsensusDb {
    pub threshold: u64,
    pub accepted_items: Vec<AcceptedItem>,
    pub accepted_transactions: Vec<AcceptedTransactionEntry>,
    pub signed_blocks: Vec<SignedBlock>,
    pub client_config_signature: Option<Vec<u8>>,
    pub config_signature_shares: Vec<ConfigShareEntry>,
}

impl View for ConsensusDb {
    type V = DbView;

    open spec fn view(&self) -> DbView {
        DbView {
            threshold: self.threshold,
            accepted_items: view_items(self.accepted_items@),
            accepted_transactions: view_tx_entries(self.accepted_transactions@),
            signed_blocks: view_signed_blocks(self.signed_blocks@),
            client_config_signature: match self.client_config_signature {
                Some(ref s) => Some(s@),
                None => None,
            },
            config_signature_shares: view_share_entries(self.config_signature_shares@),
        }
    }
}

/// Whether a transaction hash is already recorded as accepted.
pub open spec fn tx_table_contains(
    table: Seq<AcceptedTransactionEntryView>,
    hash: Seq<u8>,
) -> bool {
    exists|i: int| 0 <= i < table.len() && table[i].tx_hash == hash
}

/// Whether a config-signature share from this peer is already stored.
pub open spec fn shares_contain(shares: Seq<ConfigShareEntryView>, peer: u64) -> bool {
    exists|i: int| 0 <= i < shares.len() && shares[i].peer == peer
}

impl DbView {
    /// Well-formedness of the database: recorded transaction hashes are
    /// unique; every accepted transaction item is recorded, and no two
    /// accepted transaction items share a hash; at most one share per peer,
    /// never more than `threshold` many, and none once the combined
    /// signature is stored; every signed block carries at least `threshold`
    /// signatures by distinct peers.
    pub open spec fn inv(self) -> bool {
        &&& 1 <= self.threshold
        &&& forall|i: int, j: int|
            0 <= i < j < self.accepted_transactions.len()
                ==> self.accepted_transactions[i].tx_hash != self.accepted_transactions[j].tx_hash
        &&& forall|k: int|
            0 <= k < self.accepted_items.len() ==> match (#[trigger] self.accepted_items[k]).item {
                ConsensusItemView::Transaction(tx) => tx_table_contains(
                    self.accepted_transactions,
                    tx.tx_hash,
                ),
                _ => true,
            }
        &&& forall|k: int, l: int|
            0 <= k < l < self.accepted_items.len()
                ==> match ((#[trigger] self.accepted_items[k]).item, (#[trigger] self.accepted_items[l]).item) {
                (ConsensusItemView::Transaction(a), ConsensusItemView::Transaction(b)) => a.tx_hash
                    != b.tx_hash,
                _ => true,
            }
        &&& forall|i: int, j: int|
            0 <= i < j < self.config_signature_shares.len()
                ==> self.config_signature_shares[i].peer != self.config_signature_shares[j].peer
        &&& self.config_signature_shares.len() <= self.threshold
        &&& self.client_config_signature is Some ==> self.config_signature_shares.len() == 0
        &&& forall|i: int|
            0 <= i < self.signed_blocks.len() ==> signers_distinct(
                #[trigger] self.signed_blocks[i].signatures,
            ) && self.signed_blocks[i].signatures.len() >= self.threshold
    }
}

/// The outcome of one processor step: the database afterwards and the
/// result handed to the caller.
#[verifier::ext_equal]
pub struct StepResult {
    pub db: DbView,
    pub result: Result<(), ProcessError>,
}

/// The checks an ordered item must pass before it is persisted, in the
/// order the processor makes them. `external_ok` is the outcome of the one
/// outside decision the item's variant depends on: the owning module's
/// `process_consensus_item` for a module item, the transaction processor
/// for a transaction, share verification for a config-signature share.
pub open spec fn spec_validate(
    db: DbView,
    item: ConsensusItemView,
    peer: u64,
    external_ok: bool,
) -> Option<ProcessError> {
    match item {
        ConsensusItemView::Module { .. } => if !external_ok {
            Some(ProcessError::ModuleError)
        } else {
            None
        },
        ConsensusItemView::Transaction(tx) => if tx_table_contains(
            db.accepted_transactions,
            tx.tx_hash,
        ) {
            Some(ProcessError::TransactionAlreadyAccepted)
        } else if !external_ok {
            Some(ProcessError::TransactionInvalid)
        } else {
            None
        },
        ConsensusItemView::ClientConfigSignatureShare { .. } => if db.client_config_signature
            is Some {
            Some(ProcessError::ConfigAlreadySigned)
        } else if shares_contain(db.config_signature_shares, peer) {
            Some(ProcessError::DuplicateShare)
        } else if !external_ok {
            Some(ProcessError::InvalidShare)
        } else {
            None
        },
    }
}

/// How an item that passed every check changes the database. A transaction
/// records its hash; a config-signature share is stored, and once the
/// stored shares outnumber the threshold they are all cleared and the
/// combined signature takes their place.
pub open spec fn spec_apply(
    db: DbView,
    item: ConsensusItemView,
    peer: u64,
    combined: Seq<u8>,
) -> DbView {
    let accepted = db.accepted_items.push(AcceptedItemView { item, peer });
    match item {
        ConsensusItemView::Module { .. } => DbView { accepted_items: accepted, ..db },
        ConsensusItemView::Transaction(tx) => DbView {
            accepted_items: accepted,
            accepted_transactions: db.accepted_transactions.push(
                AcceptedTransactionEntryView {
                    tx_hash: tx.tx_hash,
                    module_ids: tx.output_module_ids,
                },
            ),
            ..db
        },
        ConsensusItemView::ClientConfigSignatureShare { share } => {
            let shares = db.config_signature_shares.push(
                ConfigShareEntryView { peer, share },
            );
            if shares.len() > db.threshold {
                DbView {
                    accepted_items: accepted,
                    config_signature_shares: Seq::empty(),
                    client_config_signature: Some(combined),
                    ..db
                }
            } else {
                DbView { accepted_items: accepted, config_signature_shares: shares, ..db }
            }
        },
    }
}

/// One step of the item processor on the database model. An index below
/// the accepted count replays recovery: the step succeeds without change
/// exactly when the stored entry equals the delivered `(item, peer)`. At
/// the next free index the item passes the variant's checks, then the
/// audit gate (`audit_net_assets`, the sum of all module audits after the
/// item's effects, must not be negative), and only then is persisted.
pub open spec fn spec_process(
    db: DbView,
    item_index: u64,
    item: ConsensusItemView,
    peer: u64,
    external_ok: bool,
    audit_net_assets: i64,
    combined: Seq<u8>,
) -> StepResult {
    if item_index < db.accepted_items.len() {
        if db.accepted_items[item_index as int] == (AcceptedItemView { item, peer }) {
            StepResult { db, result: Ok(()) }
        } else {
            StepResult { db, result: Err(ProcessError::DiscardedBeforeRecovery) }
        }
    } else {
        match spec_validate(db, item, peer, external_ok) {
            Some(err) => StepResult { db, result: Err(err) },
            None => if audit_net_assets < 0 {
                StepResult { db, result: Err(ProcessError::NegativeAuditBalance) }
            } else {
                StepResult { db: spec_apply(db, item, peer, combined), result: Ok(()) }
            },
        }
    }
}

impl ConsensusDb {
    /// An empty database for a federation whose combined signatures need
    /// `threshold` shares.
    pub fn new(threshold: u64) -> (r: Self)
        requires
            1 <= threshold,
        ensures
            r@ == (DbView {
                threshold,
                accepted_items: Seq::<AcceptedItemView>::empty(),
                accepted_transactions: Seq::<AcceptedTransactionEntryView>::empty(),
                signed_blocks: Seq::<SignedBlockView>::empty(),
                client_config_signature: None::<Seq<u8>>,
                config_signature_shares: Seq::<ConfigShareEntryView>::empty(),
            }),
            r@.inv(),
    {
        let r = ConsensusDb {
            threshold,
            accepted_items: Vec::new(),
            accepted_transactions: Vec::new(),
            signed_blocks: Vec::new(),
            client_config_signature: None,
            config_signature_shares: Vec::new(),
        };
        proof {
            assert(r@ =~~= (DbView {
                threshold,
                accepted_items: Seq::<AcceptedItemView>::empty(),
                accepted_transactions: Seq::<AcceptedTransactionEntryView>::empty(),
                signed_blocks: Seq::<SignedBlockView>::empty(),
                client_config_signature: None::<Seq<u8>>,
                config_signature_shares: Seq::<ConfigShareEntryView>::empty(),
            }));
        }
        r
    }

    /// The index the next session will run under: the count of signed
    /// blocks persisted so far.
    pub fn next_session_index(&self) -> (r: u64)
        ensures
            r == self@.signed_blocks.len(),
    {
        self.signed_blocks.len() as u64
    }

    /// The index the next accepted item will be stored under.
    pub fn next_item_index(&self) -> (r: u64)
        ensures
            r == self@.accepted_items.len(),
    {
        self.accepted_items.len() as u64
    }

    /// Whether the proposal ticker still has to submit config-signature
    /// shares: true until the combined signature is stored.
    pub fn needs_config_signature(&self) -> (r: bool)
        ensures
            r == (self@.client_config_signature is None),
    {
        self.client_config_signature.is_none()
    }

    /// Whether this transaction hash was accepted before.
    pub fn tx_accepted(&self, hash: &Vec<u8>) -> (r: bool)
        ensures
            r == tx_table_contains(self@.accepted_transactions, hash@),
    {
        let mut i: usize = 0;
        while i < self.accepted_transactions.len()
            invariant
                0 <= i <= self.accepted_transactions.len(),
                forall|k: int|
                    0 <= k < i ==> self@.accepted_transactions[k].tx_hash != hash@,
            decreases self.accepted_transactions.len() - i,
        {
            if bytes_eq(&self.accepted_transactions[i].tx_hash, hash) {
                proof {
                    assert(self@.accepted_transactions[i as int].tx_hash == hash@);
                }
                return true;
            }
            i += 1;
        }
        false
    }

    /// Whether a config-signature share from this peer is stored.
    pub fn has_share_from(&self, peer: u64) -> (r: bool)
        ensures
            r == shares_contain(self@.config_signature_shares, peer),
    {
        let mut i: usize = 0;
        while i < self.config_signature_shares.len()
            invariant
                0 <= i <= self.config_signature_shares.len(),
                forall|k: int| 0 <= k < i ==> self@.config_signature_shares[k].peer != peer,
            decreases self.config_signature_shares.len() - i,
        {
            if self.config_signature_shares[i].peer == peer {
                proof {
                    assert(self@.config_signature_shares[i as int].peer == peer);
                }
                return true;
            }
            i += 1;
        }
        false
    }

    /// Processes one ordered consensus item, exactly as `spec_process`
    /// states it. `combined_signature` is the combined threshold signature
    /// the caller obtained from the stored shares plus this one; it is
    /// persisted only when this share makes the stored shares outnumber
    /// the threshold.
    pub fn process_consensus_item(
        &mut self,
        item_index: u64,
        item: ConsensusItem,
        peer: u64,
        external_ok: bool,
        audit_net_assets: i64,
        combined_signature: &Vec<u8>,
    ) -> (r: Result<(), ProcessError>)
        requires
            old(self)@.inv(),
            item_index <= old(self)@.accepted_items.len(),
        ensures
            final(self)@.inv(),
            ({
                let step = spec_process(
                    old(self)@,
                    item_index,
                    item@,
                    peer,
                    external_ok,
                    audit_net_assets,
                    combined_signature@,
                );
                final(self)@ == step.db && r == step.result
            }),
    {
        let ghost pre = self@;
        if (item_index as usize) < self.accepted_items.len() {
            let existing = &self.accepted_items[item_index as usize];
            if existing.peer == peer && item_eq(&existing.item, &item) {
                proof {
                    assert(pre.accepted_items[item_index as int] == (AcceptedItemView {
                        item: item@,
                        peer,
                    }));
                }
                return Ok(());
            }
            return Err(ProcessError::DiscardedBeforeRecovery);
        }
        match &item {
            ConsensusItem::Module { .. } => {
                if !external_ok {
                    return Err(ProcessError::ModuleError);
                }
            },
            ConsensusItem::Transaction(tx) => {
                if self.tx_accepted(&tx.tx_hash) {
                    return Err(ProcessError::TransactionAlreadyAccepted);
                }
                if !external_ok {
                    return Err(ProcessError::TransactionInvalid);
                }
            },
            ConsensusItem::ClientConfigSignatureShare { .. } => {
                if self.client_config_signature.is_some() {
                    return Err(ProcessError::ConfigAlreadySigned);
                }
                if self.has_share_from(peer) {
                    return Err(ProcessError::DuplicateShare);
                }
                if !external_ok {
                    return Err(ProcessError::InvalidShare);
                }
            },
        }
        if audit_net_assets < 0 {
            return Err(ProcessError::NegativeAuditBalance);
        }
        match &item {
            ConsensusItem::Module { .. } => {},
            ConsensusItem::Transaction(tx) => {
                let entry = AcceptedTransactionEntry {
                    tx_hash: clone_bytes(&tx.tx_hash),
                    module_ids: clone_ids(&tx.output_module_ids),
                };
                self.accepted_transactions.push(entry);
            },
            ConsensusItem::ClientConfigSignatureShare { share } => {
                let entry = ConfigShareEntry { peer, share: clone_bytes(share) };
                self.config_signature_shares.push(entry);
                if self.config_signature_shares.len() as u64 > self.threshold {
                    self.config_signature_shares = Vec::new();
                    self.client_config_signature = Some(clone_bytes(combined_signature));
                }
            },
        }
        let ghost item_view = item@;
        self.accepted_items.push(AcceptedItem { item, peer });
        proof {
            let post = spec_apply(pre, item_view, peer, combined_signature@);
            assert(self@ =~~= post);
            lemma_apply_preserves_inv(pre, item_view, peer, external_ok, combined_signature@);
        }
        Ok(())
    }

    /// Finalizes a session: clears the accepted items of the session (the
    /// broadcast backup keyspace, cleared alongside in storage, lies with
    /// the broadcast library and is not part of this model) and persists
    /// the signed block under the session index. A block may never be
    /// overwritten, so the index must be the first free one.
    pub fn complete_session(&mut self, session_index: u64, signed_block: SignedBlock)
        requires
            old(self)@.inv(),
            session_index == old(self)@.signed_blocks.len(),
            signed_block@.signatures.len() >= old(self)@.threshold,
            signers_distinct(signed_block@.signatures),
        ensures
            final(self)@.inv(),
            final(self)@ == (DbView {
                accepted_items: Seq::<AcceptedItemView>::empty(),
                signed_blocks: old(self)@.signed_blocks.push(signed_block@),
                ..old(self)@
            }),
    {
        let ghost pre = self@;
        self.accepted_items = Vec::new();
        self.signed_blocks.push(signed_block);
        proof {
            assert(self@ =~~= (DbView {
                accepted_items: Seq::<AcceptedItemView>::empty(),
                signed_blocks: pre.signed_blocks.push(self.signed_blocks@[
                    self.signed_blocks@.len() - 1
                ]@),
                ..pre
            }));
        }
    }

    /// Streams the accepted items of the running session, in index order,
    /// into a block.
    pub fn build_block(&self) -> (r: Block)
        ensures
            r@.items == self@.accepted_items,
    {
        let mut items: Vec<AcceptedItem> = Vec::new();
        let mut i: usize = 0;
        while i < self.accepted_items.len()
            invariant
                0 <= i <= self.accepted_items.len(),
                items@.len() == i,
                forall|k: int| 0 <= k < i ==> (#[trigger] items@[k])@ == self.accepted_items@[k]@,
            decreases self.accepted_items.len() - i,
        {
            items.push(clone_accepted_item(&self.accepted_items[i]));
            i += 1;
        }
        proof {
            assert(view_items(items@) =~= self@.accepted_items);
        }
        Block { items }
    }
}

/// An item that passed validation and the audit gate keeps the database
/// well-formed.
pub proof fn lemma_apply_preserves_inv(
    db: DbView,
    item: ConsensusItemView,
    peer: u64,
    external_ok: bool,
    combined: Seq<u8>,
)
    requires
        db.inv(),
        spec_validate(db, item, peer, external_ok) is None,
    ensures
        spec_apply(db, item, peer, combined).inv(),
{
    let post = spec_apply(db, item, peer, combined);
    let n = db.accepted_items.len() as int;
    match item {
        ConsensusItemView::Module { .. } => {},
        ConsensusItemView::Transaction(tx) => {
            assert forall|k: int|
                0 <= k < post.accepted_items.len() implies match (
            #[trigger] post.accepted_items[k]).item {
                ConsensusItemView::Transaction(t) => tx_table_contains(
                    post.accepted_transactions,
                    t.tx_hash,
                ),
                _ => true,
            } by {
                if k < n {
                    match db.accepted_items[k].item {
                        ConsensusItemView::Transaction(t) => {
                            let i = choose|i: int|
                                0 <= i < db.accepted_transactions.len()
                                    && db.accepted_transactions[i].tx_hash == t.tx_hash;
                            assert(post.accepted_transactions[i].tx_hash == t.tx_hash);
                        },
                        _ => {},
                    }
                } else {
                    assert(post.accepted_transactions[db.accepted_transactions.len() as int]
                        .tx_hash == tx.tx_hash);
                }
            }
        },
        ConsensusItemView::ClientConfigSignatureShare { .. } => {},
    }
}

} // verus!
