use vstd::prelude::*;

verus! {

// The data model of the consensus core.
//
// Peers are identified by an integer id, hashes and signatures are carried
// as plain byte strings, and module payloads are opaque byte strings that
// only the owning module can interpret.

/// A transaction as the consensus core sees it: its content hash and the
/// module instances addressed by its outputs. Validating the inputs and
/// outputs themselves is the transaction processor's job; the core only
/// deduplicates by hash and records which modules were touched.
pub struct Transaction {
    pub tx_hash: Vec<u8>,
    pub output_module_ids: Vec<u64>,
}

#[verifier::ext_equal]
pub struct TransactionView {
    pub tx_hash: Seq<u8>,
    pub output_module_ids: Seq<u64>,
}

impl View for Transaction {
    type V = TransactionView;

    open spec fn view(&self) -> TransactionView {
        TransactionView { tx_hash: self.tx_hash@, output_module_ids: self.output_module_ids@ }
    }
}

/// One ordered item of consensus: an opaque module item, a transaction, or
/// a threshold-signature share over the client config hash.
pub enum ConsensusItem {
    Module { module_instance_id: u64, payload: Vec<u8> },
    Transaction(Transaction),
    ClientConfigSignatureShare { share: Vec<u8> },
}

#[verifier::ext_equal]
pub enum ConsensusItemView {
    Module { module_instance_id: u64, payload: Seq<u8> },
    Transaction(TransactionView),
    ClientConfigSignatureShare { share: Seq<u8> },
}

impl View for ConsensusItem {
    type V = ConsensusItemView;

    open spec fn view(&self) -> ConsensusItemView {
        match self {
            ConsensusItem::Module { module_instance_id, payload } => ConsensusItemView::Module {
                module_instance_id: *module_instance_id,
                payload: payload@,
            },
            ConsensusItem::Transaction(tx) => ConsensusItemView::Transaction(tx@),
            ConsensusItem::ClientConfigSignatureShare { share } =>
                ConsensusItemView::ClientConfigSignatureShare { share: share@ },
        }
    }
}

/// What was accepted at one item index: the item and the peer it came from.
pub struct AcceptedItem {
    pub item: ConsensusItem,
    pub peer: u64,
}

#[verifier::ext_equal]
pub struct AcceptedItemView {
    pub item: ConsensusItemView,
    pub peer: u64,
}

impl View for AcceptedItem {
    type V = AcceptedItemView;

    open spec fn view(&self) -> AcceptedItemView {
        AcceptedItemView { item: self.item@, peer: self.peer }
    }
}

/// The ordered sequence of items a session accepted.
pub struct Block {
    pub items: Vec<AcceptedItem>,
}

#[verifier::ext_equal]
pub struct BlockView {
    pub items: Seq<AcceptedItemView>,
}

impl View for Block {
    type V = BlockView;

    open spec fn view(&self) -> BlockView {
        BlockView { items: view_items(self.items@) }
    }
}

pub open spec fn view_items(items: Seq<AcceptedItem>) -> Seq<AcceptedItemView> {
    items.map_values(|it: AcceptedItem| it@)
}

/// One peer's signature over a block header.
pub struct PeerSignature {
    pub peer: u64,
    pub sig: Vec<u8>,
}

#[verifier::ext_equal]
pub struct PeerSignatureView {
    pub peer: u64,
    pub sig: Seq<u8>,
}

impl View for PeerSignature {
    type V = PeerSignatureView;

    open spec fn view(&self) -> PeerSignatureView {
        PeerSignatureView { peer: self.peer, sig: self.sig@ }
    }
}

/// A block together with the threshold of signatures that finalizes it.
pub struct SignedBlock {
    pub block: Block,
    pub signatures: Vec<PeerSignature>,
}

#[verifier::ext_equal]
pub struct SignedBlockView {
    pub block: BlockView,
    pub signatures: Seq<PeerSignatureView>,
}

impl View for SignedBlock {
    type V = SignedBlockView;

    open spec fn view(&self) -> SignedBlockView {
        SignedBlockView { block: self.block@, signatures: view_signatures(self.signatures@) }
    }
}

pub open spec fn view_signatures(sigs: Seq<PeerSignature>) -> Seq<PeerSignatureView> {
    sigs.map_values(|s: PeerSignature| s@)
}

pub open spec fn view_consensus_items(items: Seq<ConsensusItem>) -> Seq<ConsensusItemView> {
    items.map_values(|it: ConsensusItem| it@)
}

/// Whether an id list holds `x`.
pub fn ids_contains(v: &Vec<u64>, x: u64) -> (r: bool)
    ensures
        r == v@.contains(x),
{
    let mut i: usize = 0;
    while i < v.len()
        invariant
            0 <= i <= v.len(),
            forall|k: int| 0 <= k < i ==> v@[k] != x,
        decreases v.len() - i,
    {
        if v[i] == x {
            return true;
        }
        i += 1;
    }
    false
}

/// No two entries of a signature list are by the same peer, so the list's
/// length counts distinct signers.
pub open spec fn signers_distinct(sigs: Seq<PeerSignatureView>) -> bool {
    forall|i: int, j: int| 0 <= i < j < sigs.len() ==> sigs[i].peer != sigs[j].peer
}

// Equality and cloning helpers. The byte strings inside the data types keep
// `==` from being derived structurally, so equality is decided by these
// functions, whose contracts speak of the views.

/// Byte-string equality.
pub fn bytes_eq(a: &Vec<u8>, b: &Vec<u8>) -> (r: bool)
    ensures
        r == (a@ == b@),
{
    if a.len() != b.len() {
        return false;
    }
    let mut i: usize = 0;
    while i < a.len()
        invariant
            0 <= i <= a.len(),
            a@.len() == b@.len(),
            forall|k: int| 0 <= k < i ==> a@[k] == b@[k],
        decreases a.len() - i,
    {
        if a[i] != b[i] {
            return false;
        }
        i += 1;
    }
    proof {
        assert(a@ =~= b@);
    }
    true
}

/// Equality of id lists.
pub fn ids_eq(a: &Vec<u64>, b: &Vec<u64>) -> (r: bool)
    ensures
        r == (a@ == b@),
{
    if a.len() != b.len() {
        return false;
    }
    let mut i: usize = 0;
    while i < a.len()
        invariant
            0 <= i <= a.len(),
            a@.len() == b@.len(),
            forall|k: int| 0 <= k < i ==> a@[k] == b@[k],
        decreases a.len() - i,
    {
        if a[i] != b[i] {
            return false;
        }
        i += 1;
    }
    proof {
        assert(a@ =~= b@);
    }
    true
}

/// Equality of consensus items, field by field.
pub fn item_eq(a: &ConsensusItem, b: &ConsensusItem) -> (r: bool)
    ensures
        r == (a@ == b@),
{
    match (a, b) {
        (
            ConsensusItem::Module { module_instance_id: ia, payload: pa },
            ConsensusItem::Module { module_instance_id: ib, payload: pb },
        ) => *ia == *ib && bytes_eq(pa, pb),
        (ConsensusItem::Transaction(ta), ConsensusItem::Transaction(tb)) => {
            let r = bytes_eq(&ta.tx_hash, &tb.tx_hash) && ids_eq(
                &ta.output_module_ids,
                &tb.output_module_ids,
            );
            proof {
                if r {
                    assert(ta@ =~= tb@);
                }
            }
            r
        },
        (
            ConsensusItem::ClientConfigSignatureShare { share: sa },
            ConsensusItem::ClientConfigSignatureShare { share: sb },
        ) => bytes_eq(sa, sb),
        _ => false,
    }
}

/// Equality of accepted items: the item and the originating peer.
pub fn accepted_item_eq(a: &AcceptedItem, b: &AcceptedItem) -> (r: bool)
    ensures
        r == (a@ == b@),
{
    let r = a.peer == b.peer && item_eq(&a.item, &b.item);
    proof {
        if r {
            assert(a@ =~= b@);
        }
    }
    r
}

/// Copies a byte string.
pub fn clone_bytes(v: &Vec<u8>) -> (r: Vec<u8>)
    ensures
        r@ == v@,
{
    let mut r: Vec<u8> = Vec::new();
    let mut i: usize = 0;
    while i < v.len()
        invariant
            0 <= i <= v.len(),
            r@ == v@.take(i as int),
        decreases v.len() - i,
    {
        r.push(v[i]);
        proof {
            assert(r@ =~= v@.take(i + 1 as int));
        }
        i += 1;
    }
    proof {
        assert(v@.take(v@.len() as int) =~= v@);
    }
    r
}

/// Copies an id list.
pub fn clone_ids(v: &Vec<u64>) -> (r: Vec<u64>)
    ensures
        r@ == v@,
{
    let mut r: Vec<u64> = Vec::new();
    let mut i: usize = 0;
    while i < v.len()
        invariant
            0 <= i <= v.len(),
            r@ == v@.take(i as int),
        decreases v.len() - i,
    {
        r.push(v[i]);
        proof {
            assert(r@ =~= v@.take(i + 1 as int));
        }
        i += 1;
    }
    proof {
        assert(v@.take(v@.len() as int) =~= v@);
    }
    r
}

/// Copies a consensus item.
pub fn clone_item(it: &ConsensusItem) -> (r: ConsensusItem)
    ensures
        r@ == it@,
{
    match it {
        ConsensusItem::Module { module_instance_id, payload } => ConsensusItem::Module {
            module_instance_id: *module_instance_id,
            payload: clone_bytes(payload),
        },
        ConsensusItem::Transaction(tx) => {
            let r = ConsensusItem::Transaction(
                Transaction {
                    tx_hash: clone_bytes(&tx.tx_hash),
                    output_module_ids: clone_ids(&tx.output_module_ids),
                },
            );
            proof {
                assert(r@ =~= it@);
            }
            r
        },
        ConsensusItem::ClientConfigSignatureShare { share } =>
            ConsensusItem::ClientConfigSignatureShare { share: clone_bytes(share) },
    }
}

/// Copies an accepted item.
pub fn clone_accepted_item(it: &AcceptedItem) -> (r: AcceptedItem)
    ensures
        r@ == it@,
{
    let r = AcceptedItem { item: clone_item(&it.item), peer: it.peer };
    proof {
        assert(r@ =~= it@);
    }
    r
}

} // verus!
