use vstd::prelude::*;

use crate::state::{le_bytes, push_le_bytes, Identity, DOMAIN_SIZE};

verus! {

/// The Keccak-256 digest of `data`.
pub uninterp spec fn keccak_of(data: Seq<u8>) -> Seq<u8>;

/// Relies on `solana_program::keccak::hash` (re-exported by anchor_lang): the
/// 32-byte Keccak-256 digest of the bytes given, which depends on them alone.
#[verifier::external_body]
fn keccak_digest(data: &Vec<u8>) -> (r: [u8; 32])
    ensures
        r@ == keccak_of(data@),
{
    anchor_lang::solana_program::keccak::hash(data.as_slice()).to_bytes()
}

/// The 32-byte entropy seed: the slot and the nonce, eight little-endian
/// bytes each, then the first sixteen bytes of the caller's identity.
pub open spec fn seed_of(slot: u64, nonce: u64, caller: Seq<u8>) -> Seq<u8> {
    le_bytes(slot as nat, 8) + le_bytes(nonce as nat, 8) + caller.subrange(0, 16)
}

/// The value of the first four bytes of `digest`, read little-endian.
pub open spec fn le_u32_of(digest: Seq<u8>) -> nat {
    digest[0] as nat + 256 * (digest[1] as nat) + 65536 * (digest[2] as nat) + 16777216 * (digest[3] as nat)
}

/// The candidate that a digest stands for.
pub open spec fn candidate_of(digest: Seq<u8>) -> u32 {
    (le_u32_of(digest) % (DOMAIN_SIZE as nat)) as u32
}

/// The candidate drawn for `caller` at `slot` with its record's `nonce`.
pub open spec fn derived_candidate(slot: u64, nonce: u64, caller: Seq<u8>) -> u32 {
    candidate_of(keccak_of(seed_of(slot, nonce, caller)))
}

/// Builds the entropy seed of one allocation.
pub fn entropy_seed(slot: u64, nonce: u64, caller: &Identity) -> (r: Vec<u8>)
    ensures
        r@ == seed_of(slot, nonce, caller.bytes@),
        r@.len() == 32,
{
    let mut seed: Vec<u8> = Vec::new();
    push_le_bytes(&mut seed, slot, 8);
    push_le_bytes(&mut seed, nonce, 8);
    let ghost head = seed@;
    let mut i: usize = 0;
    while i < 16
        invariant
            i <= 16,
            caller.bytes@.len() == 32,
            seed@ == head + caller.bytes@.subrange(0, i as int),
        decreases 16 - i,
    {
        seed.push(caller.bytes[i]);
        assert(caller.bytes@.subrange(0, i + 1) =~= caller.bytes@.subrange(0, i as int).push(caller.bytes@[i as int]));
        assert(seed@ =~= head + caller.bytes@.subrange(0, i + 1));
        i = i + 1;
    }
    proof {
        lemma_le_bytes_len(slot as nat, 8);
        lemma_le_bytes_len(nonce as nat, 8);
    }
    seed
}

proof fn lemma_le_bytes_len(n: nat, k: nat)
    ensures
        le_bytes(n, k).len() == k,
    decreases k,
{
    if k > 0 {
        lemma_le_bytes_len(n / 256, (k - 1) as nat);
    }
}

/// Reduces a digest to a candidate in the domain: its first four bytes,
/// read as a little-endian integer, modulo the domain size.
pub fn candidate_from_digest(digest: &[u8; 32]) -> (r: u32)
    ensures
        r == candidate_of(digest@),
        r < DOMAIN_SIZE,
{
    let value: u32 = digest[0] as u32 + 256 * (digest[1] as u32) + 65536 * (digest[2] as u32) + 16777216
        * (digest[3] as u32);
    value % DOMAIN_SIZE
}

/// Draws the candidate number of one allocation.
pub fn derive_candidate(slot: u64, nonce: u64, caller: &Identity) -> (r: u32)
    ensures
        r == derived_candidate(slot, nonce, caller.bytes@),
        r < DOMAIN_SIZE,
{
    let seed = entropy_seed(slot, nonce, caller);
    let digest = keccak_digest(&seed);
    candidate_from_digest(&digest)
}

} // verus!
