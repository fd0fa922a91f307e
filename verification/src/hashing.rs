use vstd::prelude::*;

use crate::codec::{encode_block_into, encode_u64_into, spec_enc_block, spec_enc_u64};
use crate::types::{Block, BlockView};

verus! {

// The block header: the content hash of a session index and the block the
// session produced. It is the value the peers' threshold signatures are
// collected over, so it must be a deterministic function of the block's
// content — here, the SHA-256 digest of the block's canonical encoding
// prefixed by the session index.

/// The SHA-256 digest of a byte string.
pub uninterp spec fn sha256_of(bytes: Seq<u8>) -> Seq<u8>;

/// Relies on bitcoin_hashes::sha256::Hash::hash: the digest is a function
/// of the input bytes alone and is 32 bytes long.
#[verifier::external_body]
fn sha256(bytes: &Vec<u8>) -> (r: Vec<u8>)
    ensures
        r@ == sha256_of(bytes@),
        r@.len() == 32,
{
    let digest = bitcoin_hashes::sha256::Hash::hash(bytes.as_slice());
    digest.to_byte_array().to_vec()
}

/// The bytes the header digests: session index, then the encoded block.
pub open spec fn spec_header_bytes(session_index: u64, b: BlockView) -> Seq<u8> {
    spec_enc_u64(session_index) + spec_enc_block(b)
}

/// The signing target of a session.
pub open spec fn spec_header(session_index: u64, b: BlockView) -> Seq<u8> {
    sha256_of(spec_header_bytes(session_index, b))
}

/// Computes the header of `block` for the session at `session_index`.
pub fn block_header(session_index: u64, block: &Block) -> (r: Vec<u8>)
    ensures
        r@ == spec_header(session_index, block@),
        r@.len() == 32,
{
    let mut bytes: Vec<u8> = Vec::new();
    encode_u64_into(&mut bytes, session_index);
    encode_block_into(&mut bytes, block);
    sha256(&bytes)
}

} // verus!
