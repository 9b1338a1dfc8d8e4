//! The sixteen bytes from which a new genome, or the selector of a breeding,
//! is taken: the BLAKE2b digest of the host's seed, the caller and the
//! place of the request in its block, laid out in the SCALE encoding.

use crate::types::AccountId;
use vstd::prelude::*;

verus! {

/// The 128-bit BLAKE2b digest of `data`.
pub uninterp spec fn blake2_128_digest(data: Seq<u8>) -> Seq<u8>;

/// The four bytes of `x`, lowest first.
pub open spec fn u32_le_bytes(x: u32) -> Seq<u8> {
    seq![
        (x % 256) as u8,
        (x / 256 % 256) as u8,
        (x / 65536 % 256) as u8,
        (x / 16777216 % 256) as u8,
    ]
}

/// The eight bytes of `x`, lowest first.
pub open spec fn u64_le_bytes(x: u64) -> Seq<u8> {
    u32_le_bytes((x % 4294967296) as u32) + u32_le_bytes((x / 4294967296) as u32)
}

/// The SCALE encoding of the triple `(seed, sender, index)`: the seed's
/// bytes as they are, the sender as eight bytes, lowest first, then a byte 0
/// for no index or a byte 1 and the index as four bytes, lowest first.
pub open spec fn payload_encoding(seed: Seq<u8>, sender: AccountId, index: Option<u32>) -> Seq<u8> {
    seed + u64_le_bytes(sender) + match index {
        None => seq![0u8],
        Some(i) => seq![1u8] + u32_le_bytes(i),
    }
}

/// The digest that a request of `sender` draws while the host's seed is
/// `seed` and the request stands at `index` in its block.
pub open spec fn random_digest(seed: Seq<u8>, sender: AccountId, index: Option<u32>) -> Seq<u8> {
    blake2_128_digest(payload_encoding(seed, sender, index))
}

/// Calls `sp_io::hashing::blake2_128`. Trusted: the result is the digest of
/// the bytes handed in and of nothing else.
#[verifier::external_body]
pub(crate) fn blake2_128(data: &[u8]) -> (digest: [u8; 16])
    ensures
        digest@ == blake2_128_digest(data@),
{
    sp_io::hashing::blake2_128(data)
}

/// Calls `parity_scale_codec::Encode::encode` on the triple
/// `(seed, sender, index)`. Trusted: a tuple is encoded as its parts one
/// after the other, a byte array as its bytes, an integer of fixed width as
/// its bytes lowest first, and an option as a byte 0, or a byte 1 followed by
/// what it holds.
#[verifier::external_body]
pub(crate) fn encode_payload(seed: &[u8; 32], sender: AccountId, index: Option<u32>) -> (bytes: Vec<u8>)
    ensures
        bytes@ == payload_encoding(seed@, sender, index),
{
    parity_scale_codec::Encode::encode(&(*seed, sender, index))
}

/// Draws the digest for `sender` from a seed and an index.
pub fn draw(seed: &[u8; 32], sender: AccountId, index: Option<u32>) -> (digest: [u8; 16])
    ensures
        digest@ == random_digest(seed@, sender, index),
{
    let payload = encode_payload(seed, sender, index);
    blake2_128(payload.as_slice())
}

} // verus!
