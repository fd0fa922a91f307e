use vstd::prelude::*;

use vstd::bytes::{
    lemma_auto_spec_u64_to_from_le_bytes, spec_u64_from_le_bytes, spec_u64_to_le_bytes,
    u64_from_le_bytes, u64_to_le_bytes,
};
use vstd::slice::{slice_subrange, slice_to_vec};

use crate::types::{
    AcceptedItem, AcceptedItemView, Block, BlockView, ConsensusItem, ConsensusItemView,
    PeerSignature, PeerSignatureView, SignedBlock, SignedBlockView, clone_bytes, ids_contains,
    view_consensus_items, view_items, view_signatures,
};

verus! {

// The deterministic binary format the consensus core persists and exchanges:
// integers as eight little-endian bytes, byte strings and lists prefixed by
// their length, consensus items tagged by a leading byte. Decoders reject
// unknown module instance ids (reject-unknown-module mode), so peer-crafted
// bytes can never address a module this node does not run.

// --- Specification of the format ---

pub open spec fn spec_enc_u64(x: u64) -> Seq<u8> {
    spec_u64_to_le_bytes(x)
}

pub open spec fn spec_enc_bytes(b: Seq<u8>) -> Seq<u8> {
    spec_enc_u64(b.len() as u64) + b
}

pub open spec fn spec_enc_id_list_body(v: Seq<u64>) -> Seq<u8>
    decreases v.len(),
{
    if v.len() == 0 {
        Seq::empty()
    } else {
        spec_enc_u64(v[0]) + spec_enc_id_list_body(v.drop_first())
    }
}

pub open spec fn spec_enc_id_list(v: Seq<u64>) -> Seq<u8> {
    spec_enc_u64(v.len() as u64) + spec_enc_id_list_body(v)
}

pub open spec fn spec_enc_item(it: ConsensusItemView) -> Seq<u8> {
    match it {
        ConsensusItemView::Module { module_instance_id, payload } => seq![0u8] + spec_enc_u64(
            module_instance_id,
        ) + spec_enc_bytes(payload),
        ConsensusItemView::Transaction(tx) => seq![1u8] + spec_enc_bytes(tx.tx_hash)
            + spec_enc_id_list(tx.output_module_ids),
        ConsensusItemView::ClientConfigSignatureShare { share } => seq![2u8] + spec_enc_bytes(
            share,
        ),
    }
}

pub open spec fn spec_enc_item_list_body(v: Seq<ConsensusItemView>) -> Seq<u8>
    decreases v.len(),
{
    if v.len() == 0 {
        Seq::empty()
    } else {
        spec_enc_item(v[0]) + spec_enc_item_list_body(v.drop_first())
    }
}

pub open spec fn spec_enc_item_list(v: Seq<ConsensusItemView>) -> Seq<u8> {
    spec_enc_u64(v.len() as u64) + spec_enc_item_list_body(v)
}

pub open spec fn spec_enc_accepted_item(a: AcceptedItemView) -> Seq<u8> {
    spec_enc_item(a.item) + spec_enc_u64(a.peer)
}

pub open spec fn spec_enc_items_body(v: Seq<AcceptedItemView>) -> Seq<u8>
    decreases v.len(),
{
    if v.len() == 0 {
        Seq::empty()
    } else {
        spec_enc_accepted_item(v[0]) + spec_enc_items_body(v.drop_first())
    }
}

pub open spec fn spec_enc_block(b: BlockView) -> Seq<u8> {
    spec_enc_u64(b.items.len() as u64) + spec_enc_items_body(b.items)
}

pub open spec fn spec_enc_sig(s: PeerSignatureView) -> Seq<u8> {
    spec_enc_u64(s.peer) + spec_enc_bytes(s.sig)
}

pub open spec fn spec_enc_sigs_body(v: Seq<PeerSignatureView>) -> Seq<u8>
    decreases v.len(),
{
    if v.len() == 0 {
        Seq::empty()
    } else {
        spec_enc_sig(v[0]) + spec_enc_sigs_body(v.drop_first())
    }
}

pub open spec fn spec_enc_signed_block(b: SignedBlockView) -> Seq<u8> {
    spec_enc_block(b.block) + spec_enc_u64(b.signatures.len() as u64) + spec_enc_sigs_body(
        b.signatures,
    )
}

// Encodable values: every length must fit the length prefix, and a module
// item must address a module of the registry `mods`.

pub open spec fn wf_bytes(b: Seq<u8>) -> bool {
    b.len() <= u64::MAX
}

pub open spec fn wf_item(it: ConsensusItemView, mods: Seq<u64>) -> bool {
    match it {
        ConsensusItemView::Module { module_instance_id, payload } => mods.contains(
            module_instance_id,
        ) && wf_bytes(payload),
        ConsensusItemView::Transaction(tx) => wf_bytes(tx.tx_hash) && tx.output_module_ids.len()
            <= u64::MAX,
        ConsensusItemView::ClientConfigSignatureShare { share } => wf_bytes(share),
    }
}

pub open spec fn wf_item_list(v: Seq<ConsensusItemView>, mods: Seq<u64>) -> bool {
    &&& v.len() <= u64::MAX
    &&& forall|i: int| 0 <= i < v.len() ==> wf_item(#[trigger] v[i], mods)
}

pub open spec fn wf_block(b: BlockView, mods: Seq<u64>) -> bool {
    &&& b.items.len() <= u64::MAX
    &&& forall|i: int| 0 <= i < b.items.len() ==> wf_item((#[trigger] b.items[i]).item, mods)
}

pub open spec fn wf_signed_block(b: SignedBlockView, mods: Seq<u64>) -> bool {
    &&& wf_block(b.block, mods)
    &&& b.signatures.len() <= u64::MAX
    &&& forall|i: int| 0 <= i < b.signatures.len() ==> wf_bytes((#[trigger] b.signatures[i]).sig)
}

// --- Specification of decoding: value and bytes consumed, from the front ---

pub open spec fn spec_dec_u64(s: Seq<u8>) -> Option<(u64, int)> {
    if s.len() >= 8 {
        Some((spec_u64_from_le_bytes(s.take(8)), 8))
    } else {
        None
    }
}

pub open spec fn spec_dec_bytes(s: Seq<u8>) -> Option<(Seq<u8>, int)> {
    match spec_dec_u64(s) {
        None => None,
        Some((n, c)) => if c + n <= s.len() {
            Some((s.subrange(c, c + n), c + n))
        } else {
            None
        },
    }
}

pub open spec fn spec_dec_id_list_body(s: Seq<u8>, n: nat) -> Option<(Seq<u64>, int)>
    decreases n,
{
    if n == 0 {
        Some((Seq::empty(), 0))
    } else {
        match spec_dec_u64(s) {
            None => None,
            Some((x, c)) => match spec_dec_id_list_body(s.skip(c), (n - 1) as nat) {
                None => None,
                Some((v, c2)) => Some((seq![x] + v, c + c2)),
            },
        }
    }
}

pub open spec fn spec_dec_id_list(s: Seq<u8>) -> Option<(Seq<u64>, int)> {
    match spec_dec_u64(s) {
        None => None,
        Some((n, c)) => match spec_dec_id_list_body(s.skip(c), n as nat) {
            None => None,
            Some((v, c2)) => Some((v, c + c2)),
        },
    }
}

pub open spec fn spec_dec_item(s: Seq<u8>, mods: Seq<u64>) -> Option<(ConsensusItemView, int)> {
    if s.len() < 1 {
        None
    } else {
        let tag = s[0];
        let r = s.skip(1);
        if tag == 0 {
            match spec_dec_u64(r) {
                None => None,
                Some((id, c1)) => if !mods.contains(id) {
                    None
                } else {
                    match spec_dec_bytes(r.skip(c1)) {
                        None => None,
                        Some((payload, c2)) => Some(
                            (
                                ConsensusItemView::Module { module_instance_id: id, payload },
                                1 + c1 + c2,
                            ),
                        ),
                    }
                },
            }
        } else if tag == 1 {
            match spec_dec_bytes(r) {
                None => None,
                Some((hash, c1)) => match spec_dec_id_list(r.skip(c1)) {
                    None => None,
                    Some((ids, c2)) => Some(
                        (
                            ConsensusItemView::Transaction(
                                crate::types::TransactionView {
                                    tx_hash: hash,
                                    output_module_ids: ids,
                                },
                            ),
                            1 + c1 + c2,
                        ),
                    ),
                },
            }
        } else if tag == 2 {
            match spec_dec_bytes(r) {
                None => None,
                Some((share, c1)) => Some(
                    (ConsensusItemView::ClientConfigSignatureShare { share }, 1 + c1),
                ),
            }
        } else {
            None
        }
    }
}

pub open spec fn spec_dec_item_list_body(s: Seq<u8>, n: nat, mods: Seq<u64>) -> Option<
    (Seq<ConsensusItemView>, int),
>
    decreases n,
{
    if n == 0 {
        Some((Seq::empty(), 0))
    } else {
        match spec_dec_item(s, mods) {
            None => None,
            Some((x, c)) => match spec_dec_item_list_body(s.skip(c), (n - 1) as nat, mods) {
                None => None,
                Some((v, c2)) => Some((seq![x] + v, c + c2)),
            },
        }
    }
}

pub open spec fn spec_dec_item_list(s: Seq<u8>, mods: Seq<u64>) -> Option<
    (Seq<ConsensusItemView>, int),
> {
    match spec_dec_u64(s) {
        None => None,
        Some((n, c)) => match spec_dec_item_list_body(s.skip(c), n as nat, mods) {
            None => None,
            Some((v, c2)) => Some((v, c + c2)),
        },
    }
}

pub open spec fn spec_dec_accepted_item(s: Seq<u8>, mods: Seq<u64>) -> Option<
    (AcceptedItemView, int),
> {
    match spec_dec_item(s, mods) {
        None => None,
        Some((item, c1)) => match spec_dec_u64(s.skip(c1)) {
            None => None,
            Some((peer, c2)) => Some((AcceptedItemView { item, peer }, c1 + c2)),
        },
    }
}

pub open spec fn spec_dec_items_body(s: Seq<u8>, n: nat, mods: Seq<u64>) -> Option<
    (Seq<AcceptedItemView>, int),
>
    decreases n,
{
    if n == 0 {
        Some((Seq::empty(), 0))
    } else {
        match spec_dec_accepted_item(s, mods) {
            None => None,
            Some((x, c)) => match spec_dec_items_body(s.skip(c), (n - 1) as nat, mods) {
                None => None,
                Some((v, c2)) => Some((seq![x] + v, c + c2)),
            },
        }
    }
}

pub open spec fn spec_dec_block(s: Seq<u8>, mods: Seq<u64>) -> Option<(BlockView, int)> {
    match spec_dec_u64(s) {
        None => None,
        Some((n, c)) => match spec_dec_items_body(s.skip(c), n as nat, mods) {
            None => None,
            Some((v, c2)) => Some((BlockView { items: v }, c + c2)),
        },
    }
}

pub open spec fn spec_dec_sig(s: Seq<u8>) -> Option<(PeerSignatureView, int)> {
    match spec_dec_u64(s) {
        None => None,
        Some((peer, c1)) => match spec_dec_bytes(s.skip(c1)) {
            None => None,
            Some((sig, c2)) => Some((PeerSignatureView { peer, sig }, c1 + c2)),
        },
    }
}

pub open spec fn spec_dec_sigs_body(s: Seq<u8>, n: nat) -> Option<(Seq<PeerSignatureView>, int)>
    decreases n,
{
    if n == 0 {
        Some((Seq::empty(), 0))
    } else {
        match spec_dec_sig(s) {
            None => None,
            Some((x, c)) => match spec_dec_sigs_body(s.skip(c), (n - 1) as nat) {
                None => None,
                Some((v, c2)) => Some((seq![x] + v, c + c2)),
            },
        }
    }
}

pub open spec fn spec_dec_signed_block(s: Seq<u8>, mods: Seq<u64>) -> Option<
    (SignedBlockView, int),
> {
    match spec_dec_block(s, mods) {
        None => None,
        Some((blk, c1)) => match spec_dec_u64(s.skip(c1)) {
            None => None,
            Some((n, c2)) => match spec_dec_sigs_body(s.skip(c1 + c2), n as nat) {
                None => None,
                Some((sigs, c3)) => Some(
                    (SignedBlockView { block: blk, signatures: sigs }, c1 + c2 + c3),
                ),
            },
        },
    }
}

/// What the whole-message decoders return: the value, provided the bytes
/// are one encoded value with nothing trailing.
pub open spec fn spec_dec_signed_block_exact(s: Seq<u8>, mods: Seq<u64>) -> Option<
    SignedBlockView,
> {
    match spec_dec_signed_block(s, mods) {
        None => None,
        Some((b, c)) => if c == s.len() {
            Some(b)
        } else {
            None
        },
    }
}

pub open spec fn spec_dec_item_list_exact(s: Seq<u8>, mods: Seq<u64>) -> Option<
    Seq<ConsensusItemView>,
> {
    match spec_dec_item_list(s, mods) {
        None => None,
        Some((v, c)) => if c == s.len() {
            Some(v)
        } else {
            None
        },
    }
}

// --- Round trip: decoding an encoding yields the value back ---

pub proof fn lemma_dec_u64_enc(x: u64, rest: Seq<u8>)
    ensures
        spec_enc_u64(x).len() == 8,
        spec_dec_u64(spec_enc_u64(x) + rest) == Some((x, 8int)),
{
    lemma_auto_spec_u64_to_from_le_bytes();
    let s = spec_enc_u64(x) + rest;
    assert(s.take(8) =~= spec_enc_u64(x));
}

pub proof fn lemma_dec_bytes_enc(b: Seq<u8>, rest: Seq<u8>)
    requires
        wf_bytes(b),
    ensures
        spec_enc_bytes(b).len() == 8 + b.len(),
        spec_dec_bytes(spec_enc_bytes(b) + rest) == Some((b, 8 + b.len() as int)),
{
    let tail = b + rest;
    let s = spec_enc_bytes(b) + rest;
    assert(s =~= spec_enc_u64(b.len() as u64) + tail);
    lemma_dec_u64_enc(b.len() as u64, tail);
    assert(s.subrange(8, 8 + b.len() as int) =~= b);
}

pub proof fn lemma_dec_id_list_body_enc(v: Seq<u64>, rest: Seq<u8>)
    ensures
        spec_dec_id_list_body(spec_enc_id_list_body(v) + rest, v.len()) == Some(
            (v, spec_enc_id_list_body(v).len() as int),
        ),
    decreases v.len(),
{
    if v.len() == 0 {
        assert(v =~= Seq::<u64>::empty());
        assert(spec_enc_id_list_body(v) =~= Seq::<u8>::empty());
    } else {
        let tail = spec_enc_id_list_body(v.drop_first()) + rest;
        let s = spec_enc_id_list_body(v) + rest;
        assert(s =~= spec_enc_u64(v[0]) + tail);
        lemma_dec_u64_enc(v[0], tail);
        assert(s.skip(8) =~= tail);
        lemma_dec_id_list_body_enc(v.drop_first(), rest);
        assert(seq![v[0]] + v.drop_first() =~= v);
    }
}

pub proof fn lemma_dec_id_list_enc(v: Seq<u64>, rest: Seq<u8>)
    requires
        v.len() <= u64::MAX,
    ensures
        spec_dec_id_list(spec_enc_id_list(v) + rest) == Some(
            (v, spec_enc_id_list(v).len() as int),
        ),
{
    let body = spec_enc_id_list_body(v) + rest;
    let s = spec_enc_id_list(v) + rest;
    assert(s =~= spec_enc_u64(v.len() as u64) + body);
    lemma_dec_u64_enc(v.len() as u64, body);
    assert(s.skip(8) =~= body);
    lemma_dec_id_list_body_enc(v, rest);
}

pub proof fn lemma_dec_item_enc(it: ConsensusItemView, mods: Seq<u64>, rest: Seq<u8>)
    requires
        wf_item(it, mods),
    ensures
        spec_dec_item(spec_enc_item(it) + rest, mods) == Some(
            (it, spec_enc_item(it).len() as int),
        ),
{
    let s = spec_enc_item(it) + rest;
    match it {
        ConsensusItemView::Module { module_instance_id: id, payload } => {
            let tail1 = spec_enc_bytes(payload) + rest;
            assert(s[0] == 0u8);
            assert(s.skip(1) =~= spec_enc_u64(id) + tail1);
            lemma_dec_u64_enc(id, tail1);
            assert(s.skip(1).skip(8) =~= tail1);
            lemma_dec_bytes_enc(payload, rest);
            assert(spec_dec_item(s, mods) == Some(
                (it, 1 + 8 + 8 + payload.len() as int),
            ));
            assert(spec_enc_item(it).len() == 1 + 8 + 8 + payload.len());
        },
        ConsensusItemView::Transaction(tx) => {
            let tail1 = spec_enc_id_list(tx.output_module_ids) + rest;
            assert(s[0] == 1u8);
            assert(s.skip(1) =~= spec_enc_bytes(tx.tx_hash) + tail1);
            lemma_dec_bytes_enc(tx.tx_hash, tail1);
            assert(s.skip(1).skip(8 + tx.tx_hash.len() as int) =~= tail1);
            lemma_dec_id_list_enc(tx.output_module_ids, rest);
            assert(spec_dec_item(s, mods) matches Some((v, c)) && v =~~= it);
            assert(spec_dec_item(s, mods) == Some((it, spec_enc_item(it).len() as int)));
        },
        ConsensusItemView::ClientConfigSignatureShare { share } => {
            assert(s[0] == 2u8);
            assert(s.skip(1) =~= spec_enc_bytes(share) + rest);
            lemma_dec_bytes_enc(share, rest);
        },
    }
}

pub proof fn lemma_dec_accepted_item_enc(a: AcceptedItemView, mods: Seq<u64>, rest: Seq<u8>)
    requires
        wf_item(a.item, mods),
    ensures
        spec_dec_accepted_item(spec_enc_accepted_item(a) + rest, mods) == Some(
            (a, spec_enc_accepted_item(a).len() as int),
        ),
{
    let s = spec_enc_accepted_item(a) + rest;
    let tail = spec_enc_u64(a.peer) + rest;
    assert(s =~= spec_enc_item(a.item) + tail);
    lemma_dec_item_enc(a.item, mods, tail);
    assert(s.skip(spec_enc_item(a.item).len() as int) =~= tail);
    lemma_dec_u64_enc(a.peer, rest);
    assert(spec_dec_accepted_item(s, mods) matches Some((v, c)) && v =~~= a);
    assert(spec_dec_accepted_item(s, mods) == Some(
        (a, spec_enc_accepted_item(a).len() as int),
    ));
}

pub proof fn lemma_dec_items_body_enc(v: Seq<AcceptedItemView>, mods: Seq<u64>, rest: Seq<u8>)
    requires
        forall|i: int| 0 <= i < v.len() ==> wf_item((#[trigger] v[i]).item, mods),
    ensures
        spec_dec_items_body(spec_enc_items_body(v) + rest, v.len(), mods) == Some(
            (v, spec_enc_items_body(v).len() as int),
        ),
    decreases v.len(),
{
    if v.len() == 0 {
        assert(v =~= Seq::<AcceptedItemView>::empty());
        assert(spec_enc_items_body(v) =~= Seq::<u8>::empty());
    } else {
        let tail = spec_enc_items_body(v.drop_first()) + rest;
        let s = spec_enc_items_body(v) + rest;
        assert(s =~= spec_enc_accepted_item(v[0]) + tail);
        lemma_dec_accepted_item_enc(v[0], mods, tail);
        assert(s.skip(spec_enc_accepted_item(v[0]).len() as int) =~= tail);
        lemma_dec_items_body_enc(v.drop_first(), mods, rest);
        assert(seq![v[0]] + v.drop_first() =~= v);
    }
}

pub proof fn lemma_dec_block_enc(b: BlockView, mods: Seq<u64>, rest: Seq<u8>)
    requires
        wf_block(b, mods),
    ensures
        spec_dec_block(spec_enc_block(b) + rest, mods) == Some(
            (b, spec_enc_block(b).len() as int),
        ),
{
    let body = spec_enc_items_body(b.items) + rest;
    let s = spec_enc_block(b) + rest;
    assert(s =~= spec_enc_u64(b.items.len() as u64) + body);
    lemma_dec_u64_enc(b.items.len() as u64, body);
    assert(s.skip(8) =~= body);
    lemma_dec_items_body_enc(b.items, mods, rest);
    assert(spec_dec_block(s, mods) matches Some((v, c)) && v =~~= b);
    assert(spec_dec_block(s, mods) == Some((b, spec_enc_block(b).len() as int)));
}

pub proof fn lemma_dec_sig_enc(sg: PeerSignatureView, rest: Seq<u8>)
    requires
        wf_bytes(sg.sig),
    ensures
        spec_dec_sig(spec_enc_sig(sg) + rest) == Some((sg, spec_enc_sig(sg).len() as int)),
{
    let tail = spec_enc_bytes(sg.sig) + rest;
    let s = spec_enc_sig(sg) + rest;
    assert(s =~= spec_enc_u64(sg.peer) + tail);
    lemma_dec_u64_enc(sg.peer, tail);
    assert(s.skip(8) =~= tail);
    lemma_dec_bytes_enc(sg.sig, rest);
    assert(spec_dec_sig(s) matches Some((v, c)) && v =~~= sg);
    assert(spec_dec_sig(s) == Some((sg, spec_enc_sig(sg).len() as int)));
}

pub proof fn lemma_dec_sigs_body_enc(v: Seq<PeerSignatureView>, rest: Seq<u8>)
    requires
        forall|i: int| 0 <= i < v.len() ==> wf_bytes((#[trigger] v[i]).sig),
    ensures
        spec_dec_sigs_body(spec_enc_sigs_body(v) + rest, v.len()) == Some(
            (v, spec_enc_sigs_body(v).len() as int),
        ),
    decreases v.len(),
{
    if v.len() == 0 {
        assert(v =~= Seq::<PeerSignatureView>::empty());
        assert(spec_enc_sigs_body(v) =~= Seq::<u8>::empty());
    } else {
        let tail = spec_enc_sigs_body(v.drop_first()) + rest;
        let s = spec_enc_sigs_body(v) + rest;
        assert(s =~= spec_enc_sig(v[0]) + tail);
        lemma_dec_sig_enc(v[0], tail);
        assert(s.skip(spec_enc_sig(v[0]).len() as int) =~= tail);
        lemma_dec_sigs_body_enc(v.drop_first(), rest);
        assert(seq![v[0]] + v.drop_first() =~= v);
    }
}

pub proof fn lemma_dec_item_list_body_enc(
    v: Seq<ConsensusItemView>,
    mods: Seq<u64>,
    rest: Seq<u8>,
)
    requires
        forall|i: int| 0 <= i < v.len() ==> wf_item(#[trigger] v[i], mods),
    ensures
        spec_dec_item_list_body(spec_enc_item_list_body(v) + rest, v.len(), mods) == Some(
            (v, spec_enc_item_list_body(v).len() as int),
        ),
    decreases v.len(),
{
    if v.len() == 0 {
        assert(v =~= Seq::<ConsensusItemView>::empty());
        assert(spec_enc_item_list_body(v) =~= Seq::<u8>::empty());
    } else {
        let tail = spec_enc_item_list_body(v.drop_first()) + rest;
        let s = spec_enc_item_list_body(v) + rest;
        assert(s =~= spec_enc_item(v[0]) + tail);
        lemma_dec_item_enc(v[0], mods, tail);
        assert(s.skip(spec_enc_item(v[0]).len() as int) =~= tail);
        lemma_dec_item_list_body_enc(v.drop_first(), mods, rest);
        assert(seq![v[0]] + v.drop_first() =~= v);
    }
}

/// A batch of consensus items comes back from its encoding unchanged.
pub proof fn lemma_item_list_round_trip(v: Seq<ConsensusItemView>, mods: Seq<u64>)
    requires
        wf_item_list(v, mods),
    ensures
        spec_dec_item_list_exact(spec_enc_item_list(v), mods) == Some(v),
{
    let body = spec_enc_item_list_body(v);
    let s = spec_enc_item_list(v);
    assert(s =~= spec_enc_u64(v.len() as u64) + body);
    lemma_dec_u64_enc(v.len() as u64, body);
    assert(s.skip(8) =~= body + Seq::<u8>::empty());
    lemma_dec_item_list_body_enc(v, mods, Seq::<u8>::empty());
    assert(body + Seq::<u8>::empty() =~= body);
}

/// A signed block comes back from its encoding unchanged: encoding then
/// decoding under the same module registry is the identity.
pub proof fn lemma_signed_block_round_trip(b: SignedBlockView, mods: Seq<u64>)
    requires
        wf_signed_block(b, mods),
    ensures
        spec_dec_signed_block_exact(spec_enc_signed_block(b), mods) == Some(b),
{
    let s = spec_enc_signed_block(b);
    let tail1 = spec_enc_u64(b.signatures.len() as u64) + spec_enc_sigs_body(b.signatures);
    assert(s =~= spec_enc_block(b.block) + tail1);
    lemma_dec_block_enc(b.block, mods, tail1);
    let c1 = spec_enc_block(b.block).len() as int;
    assert(s.skip(c1) =~= tail1);
    lemma_dec_u64_enc(b.signatures.len() as u64, spec_enc_sigs_body(b.signatures));
    assert(s.skip(c1).skip(8) =~= spec_enc_sigs_body(b.signatures) + Seq::<u8>::empty());
    assert(s.skip(c1 + 8) =~= spec_enc_sigs_body(b.signatures) + Seq::<u8>::empty());
    lemma_dec_sigs_body_enc(b.signatures, Seq::<u8>::empty());
    assert(spec_dec_signed_block(s, mods) matches Some((v, c)) && v =~~= b);
    assert(spec_dec_signed_block(s, mods) == Some((b, s.len() as int)));
}

// --- Snoc shapes of the body encoders, for the encoding loops ---

pub proof fn lemma_enc_id_list_body_snoc(v: Seq<u64>, x: u64)
    ensures
        spec_enc_id_list_body(v.push(x)) == spec_enc_id_list_body(v) + spec_enc_u64(x),
    decreases v.len(),
{
    if v.len() == 0 {
        assert(v.push(x)[0] == x);
        assert(v.push(x).drop_first() =~= Seq::<u64>::empty());
        assert(spec_enc_id_list_body(Seq::<u64>::empty()) =~= Seq::<u8>::empty());
        assert(spec_enc_id_list_body(v.push(x)) =~= spec_enc_id_list_body(v) + spec_enc_u64(x));
    } else {
        assert(v.push(x)[0] == v[0]);
        assert(v.push(x).drop_first() =~= v.drop_first().push(x));
        lemma_enc_id_list_body_snoc(v.drop_first(), x);
        assert(spec_enc_id_list_body(v.push(x)) =~= spec_enc_id_list_body(v) + spec_enc_u64(x));
    }
}

pub proof fn lemma_enc_items_body_snoc(v: Seq<AcceptedItemView>, x: AcceptedItemView)
    ensures
        spec_enc_items_body(v.push(x)) == spec_enc_items_body(v) + spec_enc_accepted_item(x),
    decreases v.len(),
{
    if v.len() == 0 {
        assert(v.push(x)[0] == x);
        assert(v.push(x).drop_first() =~= Seq::<AcceptedItemView>::empty());
        assert(spec_enc_items_body(Seq::<AcceptedItemView>::empty()) =~= Seq::<u8>::empty());
        assert(spec_enc_items_body(v.push(x)) =~= spec_enc_items_body(v)
            + spec_enc_accepted_item(x));
    } else {
        assert(v.push(x)[0] == v[0]);
        assert(v.push(x).drop_first() =~= v.drop_first().push(x));
        lemma_enc_items_body_snoc(v.drop_first(), x);
        assert(spec_enc_items_body(v.push(x)) =~= spec_enc_items_body(v)
            + spec_enc_accepted_item(x));
    }
}

pub proof fn lemma_enc_sigs_body_snoc(v: Seq<PeerSignatureView>, x: PeerSignatureView)
    ensures
        spec_enc_sigs_body(v.push(x)) == spec_enc_sigs_body(v) + spec_enc_sig(x),
    decreases v.len(),
{
    if v.len() == 0 {
        assert(v.push(x)[0] == x);
        assert(v.push(x).drop_first() =~= Seq::<PeerSignatureView>::empty());
        assert(spec_enc_sigs_body(Seq::<PeerSignatureView>::empty()) =~= Seq::<u8>::empty());
        assert(spec_enc_sigs_body(v.push(x)) =~= spec_enc_sigs_body(v) + spec_enc_sig(x));
    } else {
        assert(v.push(x)[0] == v[0]);
        assert(v.push(x).drop_first() =~= v.drop_first().push(x));
        lemma_enc_sigs_body_snoc(v.drop_first(), x);
        assert(spec_enc_sigs_body(v.push(x)) =~= spec_enc_sigs_body(v) + spec_enc_sig(x));
    }
}

pub proof fn lemma_enc_item_list_body_snoc(v: Seq<ConsensusItemView>, x: ConsensusItemView)
    ensures
        spec_enc_item_list_body(v.push(x)) == spec_enc_item_list_body(v) + spec_enc_item(x),
    decreases v.len(),
{
    if v.len() == 0 {
        assert(v.push(x)[0] == x);
        assert(v.push(x).drop_first() =~= Seq::<ConsensusItemView>::empty());
        assert(spec_enc_item_list_body(Seq::<ConsensusItemView>::empty()) =~= Seq::<u8>::empty());
        assert(spec_enc_item_list_body(v.push(x)) =~= spec_enc_item_list_body(v)
            + spec_enc_item(x));
    } else {
        assert(v.push(x)[0] == v[0]);
        assert(v.push(x).drop_first() =~= v.drop_first().push(x));
        lemma_enc_item_list_body_snoc(v.drop_first(), x);
        assert(spec_enc_item_list_body(v.push(x)) =~= spec_enc_item_list_body(v)
            + spec_enc_item(x));
    }
}

// --- Executable encoders ---

pub fn encode_u64_into(out: &mut Vec<u8>, x: u64)
    ensures
        final(out)@ == old(out)@ + spec_enc_u64(x),
{
    let mut b = u64_to_le_bytes(x);
    out.append(&mut b);
}

pub fn encode_bytes_into(out: &mut Vec<u8>, b: &Vec<u8>)
    ensures
        final(out)@ == old(out)@ + spec_enc_bytes(b@),
{
    let ghost pre = out@;
    encode_u64_into(out, b.len() as u64);
    let mut c = clone_bytes(b);
    out.append(&mut c);
    proof {
        assert(out@ =~= pre + spec_enc_bytes(b@));
    }
}

pub fn encode_id_list_into(out: &mut Vec<u8>, v: &Vec<u64>)
    ensures
        final(out)@ == old(out)@ + spec_enc_id_list(v@),
{
    let ghost pre = out@;
    encode_u64_into(out, v.len() as u64);
    let mut i: usize = 0;
    while i < v.len()
        invariant
            0 <= i <= v.len(),
            out@ == pre + spec_enc_u64(v@.len() as u64) + spec_enc_id_list_body(
                v@.take(i as int),
            ),
        decreases v.len() - i,
    {
        let ghost done = v@.take(i as int);
        encode_u64_into(out, v[i]);
        proof {
            lemma_enc_id_list_body_snoc(done, v@[i as int]);
            assert(done.push(v@[i as int]) =~= v@.take(i + 1 as int));
            assert(out@ =~= pre + spec_enc_u64(v@.len() as u64) + spec_enc_id_list_body(
                v@.take(i + 1 as int),
            ));
        }
        i += 1;
    }
    proof {
        assert(v@.take(v@.len() as int) =~= v@);
        assert(out@ =~= pre + spec_enc_id_list(v@));
    }
}

pub fn encode_item_into(out: &mut Vec<u8>, it: &ConsensusItem)
    ensures
        final(out)@ == old(out)@ + spec_enc_item(it@),
{
    let ghost pre = out@;
    match it {
        ConsensusItem::Module { module_instance_id, payload } => {
            out.push(0u8);
            proof {
                assert(out@ =~= pre + seq![0u8]);
            }
            encode_u64_into(out, *module_instance_id);
            encode_bytes_into(out, payload);
            proof {
                assert(out@ =~= pre + spec_enc_item(it@));
            }
        },
        ConsensusItem::Transaction(tx) => {
            out.push(1u8);
            proof {
                assert(out@ =~= pre + seq![1u8]);
            }
            encode_bytes_into(out, &tx.tx_hash);
            encode_id_list_into(out, &tx.output_module_ids);
            proof {
                assert(out@ =~= pre + spec_enc_item(it@));
            }
        },
        ConsensusItem::ClientConfigSignatureShare { share } => {
            out.push(2u8);
            proof {
                assert(out@ =~= pre + seq![2u8]);
            }
            encode_bytes_into(out, share);
            proof {
                assert(out@ =~= pre + spec_enc_item(it@));
            }
        },
    }
}

pub fn encode_accepted_item_into(out: &mut Vec<u8>, a: &AcceptedItem)
    ensures
        final(out)@ == old(out)@ + spec_enc_accepted_item(a@),
{
    let ghost pre = out@;
    encode_item_into(out, &a.item);
    encode_u64_into(out, a.peer);
    proof {
        assert(out@ =~= pre + spec_enc_accepted_item(a@));
    }
}

pub fn encode_block_into(out: &mut Vec<u8>, b: &Block)
    ensures
        final(out)@ == old(out)@ + spec_enc_block(b@),
{
    let ghost pre = out@;
    encode_u64_into(out, b.items.len() as u64);
    let mut i: usize = 0;
    while i < b.items.len()
        invariant
            0 <= i <= b.items.len(),
            out@ == pre + spec_enc_u64(b.items@.len() as u64) + spec_enc_items_body(
                view_items(b.items@).take(i as int),
            ),
        decreases b.items.len() - i,
    {
        let ghost done = view_items(b.items@).take(i as int);
        encode_accepted_item_into(out, &b.items[i]);
        proof {
            lemma_enc_items_body_snoc(done, b.items@[i as int]@);
            assert(done.push(b.items@[i as int]@) =~= view_items(b.items@).take(i + 1 as int));
            assert(out@ =~= pre + spec_enc_u64(b.items@.len() as u64) + spec_enc_items_body(
                view_items(b.items@).take(i + 1 as int),
            ));
        }
        i += 1;
    }
    proof {
        assert(view_items(b.items@).take(b.items@.len() as int) =~= view_items(b.items@));
        assert(out@ =~= pre + spec_enc_block(b@));
    }
}

/// Encodes a signed block for persistence or for answering a catch-up
/// fetch.
pub fn encode_signed_block(b: &SignedBlock) -> (r: Vec<u8>)
    ensures
        r@ == spec_enc_signed_block(b@),
{
    let mut out: Vec<u8> = Vec::new();
    encode_block_into(&mut out, &b.block);
    encode_u64_into(&mut out, b.signatures.len() as u64);
    let mut i: usize = 0;
    while i < b.signatures.len()
        invariant
            0 <= i <= b.signatures.len(),
            out@ == spec_enc_block(b.block@) + spec_enc_u64(b.signatures@.len() as u64)
                + spec_enc_sigs_body(view_signatures(b.signatures@).take(i as int)),
        decreases b.signatures.len() - i,
    {
        let ghost done = view_signatures(b.signatures@).take(i as int);
        let ghost pre = out@;
        encode_u64_into(&mut out, b.signatures[i].peer);
        encode_bytes_into(&mut out, &b.signatures[i].sig);
        proof {
            assert(out@ =~= pre + spec_enc_sig(b.signatures@[i as int]@));
            lemma_enc_sigs_body_snoc(done, b.signatures@[i as int]@);
            assert(done.push(b.signatures@[i as int]@) =~= view_signatures(b.signatures@).take(
                i + 1 as int,
            ));
            assert(out@ =~= spec_enc_block(b.block@) + spec_enc_u64(b.signatures@.len() as u64)
                + spec_enc_sigs_body(view_signatures(b.signatures@).take(i + 1 as int)));
        }
        i += 1;
    }
    proof {
        assert(view_signatures(b.signatures@).take(b.signatures@.len() as int) =~= view_signatures(
            b.signatures@,
        ));
        assert(out@ =~= spec_enc_signed_block(b@));
    }
    out
}

/// Encodes a batch of locally submitted items into the unit data the
/// broadcast carries.
pub fn encode_item_batch(items: &Vec<ConsensusItem>) -> (r: Vec<u8>)
    ensures
        r@ == spec_enc_item_list(view_consensus_items(items@)),
{
    let mut out: Vec<u8> = Vec::new();
    encode_u64_into(&mut out, items.len() as u64);
    let mut i: usize = 0;
    while i < items.len()
        invariant
            0 <= i <= items.len(),
            out@ == spec_enc_u64(items@.len() as u64) + spec_enc_item_list_body(
                view_consensus_items(items@).take(i as int),
            ),
        decreases items.len() - i,
    {
        let ghost done = view_consensus_items(items@).take(i as int);
        encode_item_into(&mut out, &items[i]);
        proof {
            lemma_enc_item_list_body_snoc(done, items@[i as int]@);
            assert(done.push(items@[i as int]@) =~= view_consensus_items(items@).take(
                i + 1 as int,
            ));
            assert(out@ =~= spec_enc_u64(items@.len() as u64) + spec_enc_item_list_body(
                view_consensus_items(items@).take(i + 1 as int),
            ));
        }
        i += 1;
    }
    proof {
        assert(view_consensus_items(items@).take(items@.len() as int) =~= view_consensus_items(
            items@,
        ));
        assert(out@ =~= spec_enc_item_list(view_consensus_items(items@)));
    }
    out
}

// --- Executable decoders ---

pub fn decode_u64(s: &[u8]) -> (r: Option<(u64, usize)>)
    ensures
        match r {
            Some((x, c)) => spec_dec_u64(s@) == Some((x, c as int)) && c <= s@.len(),
            None => spec_dec_u64(s@) is None,
        },
{
    if s.len() < 8 {
        return None;
    }
    let sub = slice_subrange(s, 0, 8);
    proof {
        assert(sub@ =~= s@.take(8));
    }
    Some((u64_from_le_bytes(sub), 8))
}

pub fn decode_bytes(s: &[u8]) -> (r: Option<(Vec<u8>, usize)>)
    ensures
        match r {
            Some((b, c)) => spec_dec_bytes(s@) == Some((b@, c as int)) && c <= s@.len(),
            None => spec_dec_bytes(s@) is None,
        },
{
    match decode_u64(s) {
        None => None,
        Some((n, c)) => {
            if n > (s.len() - c) as u64 {
                return None;
            }
            let len: usize = n as usize;
            let sub = slice_subrange(s, c, c + len);
            let v = slice_to_vec(sub);
            proof {
                assert(sub@ =~= s@.subrange(c as int, c as int + n as int));
            }
            Some((v, c + len))
        },
    }
}

pub fn decode_id_list_body(s: &[u8], n: u64) -> (r: Option<(Vec<u64>, usize)>)
    ensures
        match r {
            Some((v, c)) => spec_dec_id_list_body(s@, n as nat) == Some((v@, c as int)) && c
                <= s@.len(),
            None => spec_dec_id_list_body(s@, n as nat) is None,
        },
    decreases n,
{
    if n == 0 {
        return Some((Vec::new(), 0));
    }
    match decode_u64(s) {
        None => None,
        Some((x, c)) => {
            let rest = slice_subrange(s, c, s.len());
            proof {
                assert(rest@ =~= s@.skip(c as int));
            }
            match decode_id_list_body(rest, n - 1) {
                None => None,
                Some((mut v, c2)) => {
                    v.insert(0, x);
                    proof {
                        assert(v@ =~= seq![x] + v@.skip(1));
                    }
                    Some((v, c + c2))
                },
            }
        },
    }
}

pub fn decode_id_list(s: &[u8]) -> (r: Option<(Vec<u64>, usize)>)
    ensures
        match r {
            Some((v, c)) => spec_dec_id_list(s@) == Some((v@, c as int)) && c <= s@.len(),
            None => spec_dec_id_list(s@) is None,
        },
{
    match decode_u64(s) {
        None => None,
        Some((n, c)) => {
            let rest = slice_subrange(s, c, s.len());
            proof {
                assert(rest@ =~= s@.skip(c as int));
            }
            match decode_id_list_body(rest, n) {
                None => None,
                Some((v, c2)) => Some((v, c + c2)),
            }
        },
    }
}

pub fn decode_item(s: &[u8], mods: &Vec<u64>) -> (r: Option<(ConsensusItem, usize)>)
    ensures
        match r {
            Some((it, c)) => spec_dec_item(s@, mods@) == Some((it@, c as int)) && c <= s@.len(),
            None => spec_dec_item(s@, mods@) is None,
        },
{
    if s.len() < 1 {
        return None;
    }
    let tag = *vstd::slice::slice_index_get(s, 0);
    let rest = slice_subrange(s, 1, s.len());
    proof {
        assert(rest@ =~= s@.skip(1));
    }
    if tag == 0 {
        match decode_u64(rest) {
            None => None,
            Some((id, c1)) => {
                if !ids_contains(mods, id) {
                    return None;
                }
                let rest2 = slice_subrange(rest, c1, rest.len());
                proof {
                    assert(rest2@ =~= rest@.skip(c1 as int));
                }
                match decode_bytes(rest2) {
                    None => None,
                    Some((payload, c2)) => {
                        let it = ConsensusItem::Module { module_instance_id: id, payload };
                        proof {
                            assert(spec_dec_item(s@, mods@) matches Some((v, c)) && v =~~= it@);
                        }
                        Some((it, 1 + c1 + c2))
                    },
                }
            },
        }
    } else if tag == 1 {
        match decode_bytes(rest) {
            None => None,
            Some((hash, c1)) => {
                let rest2 = slice_subrange(rest, c1, rest.len());
                proof {
                    assert(rest2@ =~= rest@.skip(c1 as int));
                }
                match decode_id_list(rest2) {
                    None => None,
                    Some((ids, c2)) => {
                        let it = ConsensusItem::Transaction(
                            crate::types::Transaction { tx_hash: hash, output_module_ids: ids },
                        );
                        proof {
                            assert(spec_dec_item(s@, mods@) matches Some((v, c)) && v =~~= it@);
                        }
                        Some((it, 1 + c1 + c2))
                    },
                }
            },
        }
    } else if tag == 2 {
        match decode_bytes(rest) {
            None => None,
            Some((share, c1)) => {
                let it = ConsensusItem::ClientConfigSignatureShare { share };
                proof {
                    assert(spec_dec_item(s@, mods@) matches Some((v, c)) && v =~~= it@);
                }
                Some((it, 1 + c1))
            },
        }
    } else {
        None
    }
}

pub fn decode_accepted_item(s: &[u8], mods: &Vec<u64>) -> (r: Option<(AcceptedItem, usize)>)
    ensures
        match r {
            Some((a, c)) => spec_dec_accepted_item(s@, mods@) == Some((a@, c as int)) && c
                <= s@.len(),
            None => spec_dec_accepted_item(s@, mods@) is None,
        },
{
    match decode_item(s, mods) {
        None => None,
        Some((item, c1)) => {
            let rest = slice_subrange(s, c1, s.len());
            proof {
                assert(rest@ =~= s@.skip(c1 as int));
            }
            match decode_u64(rest) {
                None => None,
                Some((peer, c2)) => {
                    let a = AcceptedItem { item, peer };
                    proof {
                        assert(spec_dec_accepted_item(s@, mods@) matches Some((v, c)) && v
                            =~~= a@);
                    }
                    Some((a, c1 + c2))
                },
            }
        },
    }
}

pub fn decode_items_body(s: &[u8], n: u64, mods: &Vec<u64>) -> (r: Option<
    (Vec<AcceptedItem>, usize),
>)
    ensures
        match r {
            Some((v, c)) => spec_dec_items_body(s@, n as nat, mods@) == Some(
                (view_items(v@), c as int),
            ) && c <= s@.len(),
            None => spec_dec_items_body(s@, n as nat, mods@) is None,
        },
    decreases n,
{
    if n == 0 {
        let v: Vec<AcceptedItem> = Vec::new();
        proof {
            assert(view_items(v@) =~= Seq::<AcceptedItemView>::empty());
        }
        return Some((v, 0));
    }
    match decode_accepted_item(s, mods) {
        None => None,
        Some((x, c)) => {
            let rest = slice_subrange(s, c, s.len());
            proof {
                assert(rest@ =~= s@.skip(c as int));
            }
            match decode_items_body(rest, n - 1, mods) {
                None => None,
                Some((mut v, c2)) => {
                    let ghost tail = view_items(v@);
                    v.insert(0, x);
                    proof {
                        assert(view_items(v@) =~= seq![x@] + tail);
                    }
                    Some((v, c + c2))
                },
            }
        },
    }
}

pub fn decode_block(s: &[u8], mods: &Vec<u64>) -> (r: Option<(Block, usize)>)
    ensures
        match r {
            Some((b, c)) => spec_dec_block(s@, mods@) == Some((b@, c as int)) && c <= s@.len(),
            None => spec_dec_block(s@, mods@) is None,
        },
{
    match decode_u64(s) {
        None => None,
        Some((n, c)) => {
            let rest = slice_subrange(s, c, s.len());
            proof {
                assert(rest@ =~= s@.skip(c as int));
            }
            match decode_items_body(rest, n, mods) {
                None => None,
                Some((items, c2)) => {
                    let b = Block { items };
                    proof {
                        assert(spec_dec_block(s@, mods@) matches Some((v, cc)) && v =~~= b@);
                    }
                    Some((b, c + c2))
                },
            }
        },
    }
}

pub fn decode_sigs_body(s: &[u8], n: u64) -> (r: Option<(Vec<PeerSignature>, usize)>)
    ensures
        match r {
            Some((v, c)) => spec_dec_sigs_body(s@, n as nat) == Some(
                (view_signatures(v@), c as int),
            ) && c <= s@.len(),
            None => spec_dec_sigs_body(s@, n as nat) is None,
        },
    decreases n,
{
    if n == 0 {
        let v: Vec<PeerSignature> = Vec::new();
        proof {
            assert(view_signatures(v@) =~= Seq::<PeerSignatureView>::empty());
        }
        return Some((v, 0));
    }
    match decode_u64(s) {
        None => None,
        Some((peer, c1)) => {
            let rest = slice_subrange(s, c1, s.len());
            proof {
                assert(rest@ =~= s@.skip(c1 as int));
            }
            match decode_bytes(rest) {
                None => None,
                Some((sig, c2)) => {
                    let rest2 = slice_subrange(rest, c2, rest.len());
                    proof {
                        assert(rest2@ =~= s@.skip(c1 + c2 as int));
                        assert(spec_dec_sig(s@) matches Some((v, c)) && v =~~= (PeerSignatureView {
                            peer,
                            sig: sig@,
                        }));
                    }
                    match decode_sigs_body(rest2, n - 1) {
                        None => None,
                        Some((mut v, c3)) => {
                            let ghost tail = view_signatures(v@);
                            let x = PeerSignature { peer, sig };
                            v.insert(0, x);
                            proof {
                                assert(view_signatures(v@) =~= seq![x@] + tail);
                            }
                            Some((v, c1 + c2 + c3))
                        },
                    }
                },
            }
        },
    }
}

/// Decodes one signed block, as a catch-up response or the persisted form,
/// and rejects trailing bytes.
pub fn decode_signed_block(s: &[u8], mods: &Vec<u64>) -> (r: Option<SignedBlock>)
    ensures
        match r {
            Some(b) => spec_dec_signed_block_exact(s@, mods@) == Some(b@),
            None => spec_dec_signed_block_exact(s@, mods@) is None,
        },
{
    match decode_block(s, mods) {
        None => None,
        Some((block, c1)) => {
            let rest = slice_subrange(s, c1, s.len());
            proof {
                assert(rest@ =~= s@.skip(c1 as int));
            }
            match decode_u64(rest) {
                None => None,
                Some((n, c2)) => {
                    let rest2 = slice_subrange(rest, c2, rest.len());
                    proof {
                        assert(rest2@ =~= s@.skip(c1 + c2 as int));
                    }
                    match decode_sigs_body(rest2, n) {
                        None => None,
                        Some((signatures, c3)) => {
                            if c1 + c2 + c3 != s.len() {
                                return None;
                            }
                            let b = SignedBlock { block, signatures };
                            proof {
                                assert(spec_dec_signed_block(s@, mods@) matches Some((v, c)) && v
                                    =~~= b@);
                            }
                            Some(b)
                        },
                    }
                },
            }
        },
    }
}

pub fn decode_item_list_body(s: &[u8], n: u64, mods: &Vec<u64>) -> (r: Option<
    (Vec<ConsensusItem>, usize),
>)
    ensures
        match r {
            Some((v, c)) => spec_dec_item_list_body(s@, n as nat, mods@) == Some(
                (view_consensus_items(v@), c as int),
            ) && c <= s@.len(),
            None => spec_dec_item_list_body(s@, n as nat, mods@) is None,
        },
    decreases n,
{
    if n == 0 {
        let v: Vec<ConsensusItem> = Vec::new();
        proof {
            assert(view_consensus_items(v@) =~= Seq::<ConsensusItemView>::empty());
        }
        return Some((v, 0));
    }
    match decode_item(s, mods) {
        None => None,
        Some((x, c)) => {
            let rest = slice_subrange(s, c, s.len());
            proof {
                assert(rest@ =~= s@.skip(c as int));
            }
            match decode_item_list_body(rest, n - 1, mods) {
                None => None,
                Some((mut v, c2)) => {
                    let ghost tail = view_consensus_items(v@);
                    v.insert(0, x);
                    proof {
                        assert(view_consensus_items(v@) =~= seq![x@] + tail);
                    }
                    Some((v, c + c2))
                },
            }
        },
    }
}

/// Decodes a batch of ordered unit data back into consensus items, and
/// rejects trailing bytes. A batch that does not decode is dropped whole
/// by the session.
pub fn decode_item_batch(s: &[u8], mods: &Vec<u64>) -> (r: Option<Vec<ConsensusItem>>)
    ensures
        match r {
            Some(v) => spec_dec_item_list_exact(s@, mods@) == Some(view_consensus_items(v@)),
            None => spec_dec_item_list_exact(s@, mods@) is None,
        },
{
    match decode_u64(s) {
        None => None,
        Some((n, c)) => {
            let rest = slice_subrange(s, c, s.len());
            proof {
                assert(rest@ =~= s@.skip(c as int));
            }
            match decode_item_list_body(rest, n, mods) {
                None => None,
                Some((v, c2)) => {
                    if c + c2 != s.len() {
                        return None;
                    }
                    Some(v)
                },
            }
        },
    }
}

} // verus!
