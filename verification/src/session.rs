use vstd::prelude::*;

use crate::state::{ConsensusDb, DbView};
use crate::types::{
    AcceptedItem, AcceptedItemView, Block, BlockView, PeerSignature, PeerSignatureView,
    SignedBlock, SignedBlockView, clone_accepted_item, signers_distinct, view_items,
    view_signatures,
};

verus! {

// The per-session decisions of the consensus loop. The surrounding loop —
// the broadcast library, its channels, timers and the peer API — performs
// the outside work and feeds its outcomes into these functions.

/// With all nodes correct a session takes 45 to 60 seconds' worth of
/// rounds; this many rounds are expected before a session's block is cut.
pub const EXPECTED_ROUNDS_PER_SESSION: usize = 45 * 4;

/// How many ordered unit-data batches a session processes before it moves
/// on to collecting signatures: enough that the expected rounds have been
/// ordered even if some peers attach no unit data.
pub fn batches_per_session(peer_count: usize) -> (r: usize)
    requires
        EXPECTED_ROUNDS_PER_SESSION * peer_count <= usize::MAX,
    ensures
        r == EXPECTED_ROUNDS_PER_SESSION * peer_count,
{
    EXPECTED_ROUNDS_PER_SESSION * peer_count
}

/// The outcome of holding a peer's reported consensus-config hash against
/// our own at startup: confirmed, fatally mismatched, or — when the peer
/// could not be reached and no hash came back — to be retried.
#[derive(Clone, Copy, PartialEq, Eq, Structural, Debug)]
pub enum ConfigHashCheck {
    Confirmed,
    Mismatch,
    Retry,
}

/// Decides what the startup cross-check does with one attempt to fetch the
/// peers' consensus-config hash.
pub fn check_config_hash(ours: &Vec<u8>, response: &Option<Vec<u8>>) -> (r: ConfigHashCheck)
    ensures
        r == (match response {
            Some(h) => if h@ == ours@ {
                ConfigHashCheck::Confirmed
            } else {
                ConfigHashCheck::Mismatch
            },
            None => ConfigHashCheck::Retry,
        }),
{
    match response {
        Some(h) => if crate::types::bytes_eq(h, ours) {
            ConfigHashCheck::Confirmed
        } else {
            ConfigHashCheck::Mismatch
        },
        None => ConfigHashCheck::Retry,
    }
}

/// Whether a signature from this peer is already collected.
pub open spec fn collected_from(sigs: Seq<PeerSignatureView>, peer: u64) -> bool {
    exists|i: int| 0 <= i < sigs.len() && sigs[i].peer == peer
}

/// The signing phase of a session: after the block is built and its header
/// published, the signatures of the peers are collected over that header
/// until at least `threshold` many distinct peers have signed.
pub struct SignatureCollector {
    pub header: Vec<u8>,
    pub threshold: u64,
    pub signatures: Vec<PeerSignature>,
}

impl SignatureCollector {
    pub open spec fn inv(self) -> bool {
        &&& 1 <= self.threshold
        &&& signers_distinct(view_signatures(self.signatures@))
    }

    /// Starts collecting signatures over `header`.
    pub fn new(header: Vec<u8>, threshold: u64) -> (r: Self)
        requires
            1 <= threshold,
        ensures
            r.inv(),
            r.header@ == header@,
            r.threshold == threshold,
            r.signatures@.len() == 0,
    {
        SignatureCollector { header, threshold, signatures: Vec::new() }
    }

    /// Records one incoming signature. `verified` is the keychain's verdict
    /// on `sig` against `self.header` under `peer`'s key, made by the
    /// caller; only a verified signature is stored, a repeated signer
    /// replaces its earlier entry, and an unverified one changes nothing.
    pub fn add_signature(&mut self, peer: u64, sig: Vec<u8>, verified: bool)
        requires
            old(self).inv(),
        ensures
            final(self).inv(),
            final(self).header@ == old(self).header@,
            final(self).threshold == old(self).threshold,
            !verified ==> final(self).signatures@ == old(self).signatures@,
            (verified && !collected_from(view_signatures(old(self).signatures@), peer))
                ==> view_signatures(final(self).signatures@) == view_signatures(
                old(self).signatures@,
            ).push(PeerSignatureView { peer, sig: sig@ }),
            (verified && collected_from(view_signatures(old(self).signatures@), peer)) ==> (exists|
                i: int,
            |
                0 <= i < old(self).signatures@.len() && old(self).signatures@[i]@.peer == peer
                    && view_signatures(final(self).signatures@) == view_signatures(
                    old(self).signatures@,
                ).update(i, PeerSignatureView { peer, sig: sig@ })),
    {
        if !verified {
            return ;
        }
        let mut i: usize = 0;
        while i < self.signatures.len()
            invariant
                0 <= i <= self.signatures.len(),
                verified,
                old(self).inv(),
                self.header@ == old(self).header@,
                self.threshold == old(self).threshold,
                self.signatures@ == old(self).signatures@,
                forall|k: int| 0 <= k < i ==> self.signatures@[k]@.peer != peer,
            decreases self.signatures.len() - i,
        {
            if self.signatures[i].peer == peer {
                let ghost pre = view_signatures(self.signatures@);
                self.signatures.set(i, PeerSignature { peer, sig });
                proof {
                    let now = view_signatures(self.signatures@);
                    assert(now =~~= pre.update(
                        i as int,
                        PeerSignatureView { peer, sig: sig@ },
                    ));
                    assert(pre[i as int].peer == peer);
                    assert forall|k: int, l: int| 0 <= k < l < now.len() implies now[k].peer
                        != now[l].peer by {
                        assert(now[k].peer == pre[k].peer);
                        assert(now[l].peer == pre[l].peer);
                    }
                }
                return ;
            }
            i += 1;
        }
        let ghost pre = view_signatures(self.signatures@);
        self.signatures.push(PeerSignature { peer, sig });
        proof {
            let now = view_signatures(self.signatures@);
            assert(now =~~= pre.push(PeerSignatureView { peer, sig: sig@ }));
            assert forall|k: int, l: int| 0 <= k < l < now.len() implies now[k].peer
                != now[l].peer by {
                if l < pre.len() {
                    assert(now[k].peer == pre[k].peer && now[l].peer == pre[l].peer);
                } else {
                    assert(now[k].peer == pre[k].peer && now[l].peer == peer);
                }
            }
        }
    }

    /// Whether enough distinct peers have signed the header.
    pub fn is_complete(&self) -> (r: bool)
        ensures
            r == (self.signatures@.len() >= self.threshold),
    {
        self.signatures.len() as u64 >= self.threshold
    }

    /// Closes the phase: the block and the collected signatures, ready for
    /// `complete_session`.
    pub fn into_signed_block(self, block: Block) -> (r: SignedBlock)
        requires
            self.inv(),
            self.signatures@.len() >= self.threshold,
        ensures
            r@.block == block@,
            r@.signatures == view_signatures(self.signatures@),
            r@.signatures.len() >= self.threshold,
            signers_distinct(r@.signatures),
    {
        SignedBlock { block, signatures: self.signatures }
    }
}

/// Closes the signing phase against the block it signed: the collector's
/// header must be the header of `block` for this session — every stored
/// signature was verified against it — and the threshold must be met;
/// otherwise nothing is produced.
pub fn finish_signing_phase(
    collector: SignatureCollector,
    session_index: u64,
    block: Block,
) -> (r: Option<SignedBlock>)
    requires
        collector.inv(),
    ensures
        match r {
            Some(sb) => {
                &&& collector.header@ == crate::hashing::spec_header(session_index, block@)
                &&& sb@.block == block@
                &&& sb@.signatures == view_signatures(collector.signatures@)
                &&& sb@.signatures.len() >= collector.threshold
                &&& signers_distinct(sb@.signatures)
            },
            None => collector.header@ != crate::hashing::spec_header(session_index, block@)
                || collector.signatures@.len() < collector.threshold,
        },
{
    let header = crate::hashing::block_header(session_index, &block);
    if !crate::types::bytes_eq(&collector.header, &header) {
        return None;
    }
    if !collector.is_complete() {
        return None;
    }
    Some(collector.into_signed_block(block))
}

/// Whether `a` is a prefix of `b`, item for item.
pub open spec fn is_item_prefix(a: Seq<AcceptedItemView>, b: Seq<AcceptedItemView>) -> bool {
    a.len() <= b.len() && a == b.take(a.len() as int)
}

/// Why a fetched signed block cannot be reconciled with local state: the
/// locally accepted items are not a prefix of the fetched block's items.
/// Both followed the same broadcast order, so this signals corruption and
/// the caller must abort.
#[derive(Clone, Copy, PartialEq, Eq, Structural, Debug)]
pub enum CatchUpError {
    PrefixMismatch,
}

/// Reconciles a signed block fetched from peers with the locally accepted
/// items: the local items must be a prefix of the fetched block's items,
/// and the remaining tail is returned for the caller to process through
/// the item processor, each tail item owed success.
pub fn reconcile_catch_up(local: &Vec<AcceptedItem>, fetched: &SignedBlock) -> (r: Result<
    Vec<AcceptedItem>,
    CatchUpError,
>)
    ensures
        match r {
            Ok(tail) => is_item_prefix(view_items(local@), fetched@.block.items) && view_items(
                tail@,
            ) == fetched@.block.items.skip(local@.len() as int),
            Err(e) => e == CatchUpError::PrefixMismatch && !is_item_prefix(
                view_items(local@),
                fetched@.block.items,
            ),
        },
{
    if local.len() > fetched.block.items.len() {
        return Err(CatchUpError::PrefixMismatch);
    }
    let mut i: usize = 0;
    while i < local.len()
        invariant
            0 <= i <= local.len(),
            local@.len() <= fetched.block.items@.len(),
            forall|k: int| 0 <= k < i ==> local@[k]@ == fetched.block.items@[k]@,
        decreases local.len() - i,
    {
        if !crate::types::accepted_item_eq(&local[i], &fetched.block.items[i]) {
            proof {
                assert(view_items(local@)[i as int] != fetched@.block.items.take(
                    local@.len() as int,
                )[i as int]);
            }
            return Err(CatchUpError::PrefixMismatch);
        }
        i += 1;
    }
    proof {
        assert(view_items(local@) =~~= fetched@.block.items.take(local@.len() as int));
    }
    let mut tail: Vec<AcceptedItem> = Vec::new();
    let mut j: usize = local.len();
    while j < fetched.block.items.len()
        invariant
            local@.len() <= j <= fetched.block.items@.len(),
            tail@.len() == j - local@.len(),
            forall|k: int|
                0 <= k < tail@.len() ==> (#[trigger] tail@[k])@ == fetched.block.items@[k
                    + local@.len()]@,
        decreases fetched.block.items.len() - j,
    {
        tail.push(clone_accepted_item(&fetched.block.items[j]));
        j += 1;
    }
    proof {
        assert(view_items(tail@) =~~= fetched@.block.items.skip(local@.len() as int));
    }
    Ok(tail)
}

/// Whether each signature of a signed block is by a distinct peer — what
/// `complete_session` demands of the blocks it persists.
pub fn signers_distinct_check(sigs: &Vec<PeerSignature>) -> (r: bool)
    ensures
        r == signers_distinct(view_signatures(sigs@)),
{
    let mut i: usize = 0;
    while i < sigs.len()
        invariant
            0 <= i <= sigs.len(),
            forall|k: int, l: int|
                0 <= k < l < sigs@.len() && k < i ==> sigs@[k]@.peer != sigs@[l]@.peer,
        decreases sigs.len() - i,
    {
        let mut j: usize = i + 1;
        while j < sigs.len()
            invariant
                0 <= i < j <= sigs@.len(),
                forall|l: int| i < l < j ==> sigs@[i as int]@.peer != sigs@[l]@.peer,
            decreases sigs.len() - j,
        {
            if sigs[i].peer == sigs[j].peer {
                proof {
                    assert(view_signatures(sigs@)[i as int].peer == view_signatures(
                        sigs@,
                    )[j as int].peer);
                }
                return false;
            }
            j += 1;
        }
        i += 1;
    }
    true
}

/// Whether a fetched block carries exactly the threshold of signatures —
/// the count a catch-up response must have before each signature is
/// verified.
pub fn catch_up_signature_count_ok(b: &SignedBlock, threshold: u64) -> (r: bool)
    ensures
        r == (b@.signatures.len() == threshold),
{
    b.signatures.len() as u64 == threshold
}

/// Ends a single-guardian session: the node is the only member, so the
/// block the session accumulated is signed by this node alone (the caller
/// signs the header, there being no peers to collect from) and persisted.
pub fn complete_single_guardian_session(
    db: &mut ConsensusDb,
    session_index: u64,
    our_peer: u64,
    signature: Vec<u8>,
)
    requires
        old(db)@.inv(),
        old(db)@.threshold == 1,
        session_index == old(db)@.signed_blocks.len(),
    ensures
        final(db)@.inv(),
        final(db)@ == (DbView {
            accepted_items: Seq::<AcceptedItemView>::empty(),
            signed_blocks: old(db)@.signed_blocks.push(
                SignedBlockView {
                    block: BlockView { items: old(db)@.accepted_items },
                    signatures: seq![PeerSignatureView { peer: our_peer, sig: signature@ }],
                },
            ),
            ..old(db)@
        }),
{
    let block = db.build_block();
    let mut signatures: Vec<PeerSignature> = Vec::new();
    signatures.push(PeerSignature { peer: our_peer, sig: signature });
    let signed_block = SignedBlock { block, signatures };
    proof {
        assert(view_signatures(signed_block.signatures@) =~= seq![
            PeerSignatureView { peer: our_peer, sig: signed_block.signatures@[0].sig@ },
        ]);
    }
    db.complete_session(session_index, signed_block);
}

/// The best-effort liveness monitor: the last session index each peer
/// contributed an item to. It is kept outside the database and its updates
/// are not serialized with commits.
pub struct LatestContributionByPeer {
    pub entries: Vec<(u64, u64)>,
}

/// Whether the monitor holds an entry for `peer`.
pub open spec fn monitor_tracks(entries: Seq<(u64, u64)>, peer: u64) -> bool {
    exists|i: int| 0 <= i < entries.len() && entries[i].0 == peer
}

impl LatestContributionByPeer {
    pub open spec fn inv(self) -> bool {
        forall|i: int, j: int|
            0 <= i < j < self.entries@.len() ==> self.entries@[i].0 != self.entries@[j].0
    }

    pub fn new() -> (r: Self)
        ensures
            r.inv(),
            r.entries@.len() == 0,
    {
        LatestContributionByPeer { entries: Vec::new() }
    }

    /// Notes that `peer` contributed an item to `session_index`.
    pub fn record(&mut self, peer: u64, session_index: u64)
        requires
            old(self).inv(),
        ensures
            final(self).inv(),
            !monitor_tracks(old(self).entries@, peer) ==> final(self).entries@
                == old(self).entries@.push((peer, session_index)),
            monitor_tracks(old(self).entries@, peer) ==> (exists|i: int|
                0 <= i < old(self).entries@.len() && old(self).entries@[i].0 == peer
                    && final(self).entries@ == old(self).entries@.update(
                    i,
                    (peer, session_index),
                )),
    {
        let mut i: usize = 0;
        while i < self.entries.len()
            invariant
                0 <= i <= self.entries.len(),
                old(self).inv(),
                self.entries@ == old(self).entries@,
                forall|k: int| 0 <= k < i ==> self.entries@[k].0 != peer,
            decreases self.entries.len() - i,
        {
            if self.entries[i].0 == peer {
                self.entries.set(i, (peer, session_index));
                return ;
            }
            i += 1;
        }
        self.entries.push((peer, session_index));
    }

    /// The last session `peer` contributed to, if any.
    pub fn latest_of(&self, peer: u64) -> (r: Option<u64>)
        requires
            self.inv(),
        ensures
            match r {
                Some(s) => exists|i: int|
                    0 <= i < self.entries@.len() && self.entries@[i] == (peer, s),
                None => !monitor_tracks(self.entries@, peer),
            },
    {
        let mut i: usize = 0;
        while i < self.entries.len()
            invariant
                0 <= i <= self.entries.len(),
                forall|k: int| 0 <= k < i ==> self.entries@[k].0 != peer,
            decreases self.entries.len() - i,
        {
            if self.entries[i].0 == peer {
                return Some(self.entries[i].1);
            }
            i += 1;
        }
        None
    }
}

} // verus!
