//! Byte encodings and hashing, done by the codec and hashing crates.
//!
//! The crate-private functions in this file are thin wrappers, each around
//! one call into an outside crate. Their contracts are taken on trust from
//! that crate's source; nothing in them is proved. The two public functions
//! at the end are verified against those contracts.

use crate::types::{BlockNumber, Key, Seed};
use parity_scale_codec::{Decode, Encode};
use vstd::bytes::{spec_u32_to_le_bytes, spec_u64_from_le_bytes, spec_u64_to_le_bytes};
use vstd::prelude::*;

verus! {

/// The 16-byte BLAKE2b digest of `data`.
pub uninterp spec fn blake2_128_digest(data: Seq<u8>) -> Seq<u8>;

/// The bytes that a custody token is the digest of: the seed, then the index
/// of the extrinsic and the number of the block, both little-endian.
pub open spec fn key_preimage(seed: Seq<u8>, extrinsic_index: u32, block: BlockNumber) -> Seq<u8> {
    seed + spec_u32_to_le_bytes(extrinsic_index) + spec_u64_to_le_bytes(block)
}

/// The custody token minted from a seed in a given extrinsic of a given block.
pub open spec fn custody_key(seed: Seq<u8>, extrinsic_index: u32, block: BlockNumber) -> Seq<u8> {
    blake2_128_digest(key_preimage(seed, extrinsic_index, block))
}

/// The number that a seed stands for in route construction: its first eight
/// bytes, read little-endian.
pub open spec fn draw_of(seed: Seq<u8>) -> u64 {
    spec_u64_from_le_bytes(seed.subrange(0, 8))
}

/// `sp_io::hashing::blake2_128`. Trusted: the result is the 16-byte BLAKE2b
/// digest of the input, a function of the input bytes alone.
#[verifier::external_body]
pub(crate) fn blake2_128(data: &[u8]) -> (digest: Key)
    ensures
        digest@ == blake2_128_digest(data@),
{
    sp_io::hashing::blake2_128(data)
}

/// `parity_scale_codec::Encode::encode` on a `u32`. Trusted: the encoding is
/// the four bytes of the number, least significant first.
#[verifier::external_body]
pub(crate) fn encode_u32(value: u32) -> (bytes: Vec<u8>)
    ensures
        bytes@ == spec_u32_to_le_bytes(value),
{
    value.encode()
}

/// `parity_scale_codec::Encode::encode` on a pair of a seed and a block
/// number. Trusted: a tuple is encoded field after field, a byte array as its
/// bytes, a `u64` as its eight bytes, least significant first.
#[verifier::external_body]
pub(crate) fn encode_seed(seed: &Seed, since: BlockNumber) -> (bytes: Vec<u8>)
    ensures
        bytes@ == seed@ + spec_u64_to_le_bytes(since),
{
    (*seed, since).encode()
}

/// `parity_scale_codec::Encode::encode` on a triple of a seed, an extrinsic
/// index and a block number. Trusted: a tuple is encoded field after field, a
/// byte array as its bytes, an integer as its bytes, least significant first.
#[verifier::external_body]
pub(crate) fn encode_key_payload(seed: &Seed, extrinsic_index: u32, block: BlockNumber) -> (bytes:
    Vec<u8>)
    ensures
        bytes@ == key_preimage(seed@, extrinsic_index, block),
{
    (*seed, extrinsic_index, block).encode()
}

/// `parity_scale_codec::Decode::decode` for `u64` on a byte slice. Trusted:
/// decoding fails when fewer than eight bytes are there, and else reads the
/// first eight, least significant first.
#[verifier::external_body]
pub(crate) fn decode_u64(bytes: &[u8]) -> (value: Option<u64>)
    ensures
        value is Some <==> bytes@.len() >= 8,
        value matches Some(v) ==> v == spec_u64_from_le_bytes(bytes@.subrange(0, 8)),
{
    let mut input: &[u8] = bytes;
    u64::decode(&mut input).ok()
}

/// The number drawn from a seed that the randomness source handed out
/// together with the block number `since`.
pub fn draw_from_seed(seed: &Seed, since: BlockNumber) -> (draw: u64)
    ensures
        draw == draw_of(seed@),
{
    let bytes = encode_seed(seed, since);
    assert(bytes@.subrange(0, 8) =~= seed@.subrange(0, 8));
    match decode_u64(bytes.as_slice()) {
        Some(v) => v,
        None => vstd::pervasive::unreached(),
    }
}

/// The custody token for a seed, an extrinsic index and a block number.
pub fn key_from_seed(seed: &Seed, extrinsic_index: u32, block: BlockNumber) -> (key: Key)
    ensures
        key@ == custody_key(seed@, extrinsic_index, block),
{
    let payload = encode_key_payload(seed, extrinsic_index, block);
    blake2_128(payload.as_slice())
}

} // verus!
