//! The identifier generator: a fresh identifier from an entropy seed, the
//! caller and the running nonce.
//!
//! The three are encoded one after the other and the encoding is hashed.
//! Nothing here looks whether the identifier is already in use: the
//! registries reject a duplicate themselves.

use vstd::prelude::*;
use vstd::bytes::*;
use crate::ident::{lemma_limb_bytes, AccountId, H256};

verus! {

/// The BLAKE2b digest of thirty-two bytes that `data` has. It is the result
/// of the hash function of `sp_runtime`, of which nothing but its being a
/// function of the bytes is stated here.
pub uninterp spec fn blake2_256_digest(data: Seq<u8>) -> Seq<u8>;

/// What is hashed: the bytes of the seed, those of the caller, and the eight
/// little-endian bytes of the nonce.
pub open spec fn preimage(seed: H256, caller: AccountId, nonce: u64) -> Seq<u8> {
    seed.bytes() + caller.bytes() + spec_u64_to_le_bytes(nonce)
}

/// The identifier that the generator gives for a seed, a caller and a nonce.
pub open spec fn next_id_spec(seed: H256, caller: AccountId, nonce: u64) -> H256 {
    H256::of_bytes(blake2_256_digest(preimage(seed, caller, nonce)))
}

/// Calls `parity_codec::Encode::encode` on the triple of the seed, a
/// reference to the caller and the nonce, the first two as arrays of
/// thirty-two bytes. The codec writes the parts of a tuple one after the
/// other, an array of bytes as its bytes with no length before them, and a
/// `u64` as its eight little-endian bytes; the contract says that of the
/// result.
#[verifier::external_body]
fn encode_triple(seed: &[u8; 32], caller: &[u8; 32], nonce: u64) -> (out: Vec<u8>)
    ensures
        out@ == seed@ + caller@ + spec_u64_to_le_bytes(nonce),
{
    parity_codec::Encode::encode(&(*seed, caller, nonce))
}

/// Calls `hash` of `sp_runtime::traits::Hash` as `BlakeTwo256` has it, and
/// hands out the bytes of the `H256` that comes back. The contract only
/// gives the result its name.
#[verifier::external_body]
fn blake2_256(data: &[u8]) -> (out: [u8; 32])
    ensures
        out@ == blake2_256_digest(data@),
{
    <sp_runtime::traits::BlakeTwo256 as sp_runtime::traits::Hash>::hash(data).0
}

/// The bytes that are hashed for a seed, a caller and a nonce.
pub fn encode_preimage(seed: &H256, caller: &AccountId, nonce: u64) -> (out: Vec<u8>)
    ensures
        out@ == preimage(*seed, *caller, nonce),
{
    let seed_bytes = seed.to_bytes();
    let caller_bytes = caller.to_bytes();
    encode_triple(&seed_bytes, &caller_bytes, nonce)
}

/// Derives an identifier from the entropy seed, the caller and the nonce.
/// The same three always give the same identifier.
pub fn next_id(seed: &H256, caller: &AccountId, nonce: u64) -> (id: H256)
    ensures
        id == next_id_spec(*seed, *caller, nonce),
{
    let encoded = encode_preimage(seed, caller, nonce);
    let digest = blake2_256(encoded.as_slice());
    H256::from_bytes(&digest)
}

/// What is hashed tells the seed, the caller and the nonce apart: two
/// triples with the same bytes are the same triple. In particular two
/// nonces never give the same bytes under one seed and one caller.
pub proof fn lemma_preimage_injective(
    seed_a: H256,
    caller_a: AccountId,
    nonce_a: u64,
    seed_b: H256,
    caller_b: AccountId,
    nonce_b: u64,
)
    requires
        preimage(seed_a, caller_a, nonce_a) == preimage(seed_b, caller_b, nonce_b),
    ensures
        seed_a == seed_b,
        caller_a == caller_b,
        nonce_a == nonce_b,
{
    lemma_auto_spec_u64_to_from_le_bytes();
    lemma_limb_bytes(seed_a.lo, seed_a.hi);
    lemma_limb_bytes(seed_b.lo, seed_b.hi);
    lemma_limb_bytes(caller_a.lo, caller_a.hi);
    lemma_limb_bytes(caller_b.lo, caller_b.hi);
    let a = preimage(seed_a, caller_a, nonce_a);
    let b = preimage(seed_b, caller_b, nonce_b);
    assert(a.subrange(0, 32) =~= seed_a.bytes());
    assert(b.subrange(0, 32) =~= seed_b.bytes());
    assert(a.subrange(32, 64) =~= caller_a.bytes());
    assert(b.subrange(32, 64) =~= caller_b.bytes());
    assert(a.subrange(64, 72) =~= spec_u64_to_le_bytes(nonce_a));
    assert(b.subrange(64, 72) =~= spec_u64_to_le_bytes(nonce_b));
}

} // verus!
