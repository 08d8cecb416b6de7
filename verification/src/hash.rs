//! The seeded 32-bit hash that places an item's bits.

use vstd::prelude::*;

verus! {

/// The multiplier that spreads the hash function's number over the seeds.
pub const SEED_MULTIPLIER: u64 = 0xFBA4C795;

/// The 32-bit MurmurHash3 of `data` under `seed`, as `murmur3::murmur3_32`
/// computes it.
pub uninterp spec fn murmur3_32_hash(seed: u32, data: Seq<u8>) -> u32;

/// The seed of hash function number `index` in a filter with nonce `tweak`:
/// `index * 0xFBA4C795 + tweak`, reduced modulo 2^32.
pub open spec fn hash_seed(index: u32, tweak: u32) -> u32 {
    ((index as int * 0xFBA4C795 + tweak as int) % 0x1_0000_0000) as u32
}

/// Computes [`hash_seed`].
pub fn seed_for(index: u32, tweak: u32) -> (seed: u32)
    ensures
        seed == hash_seed(index, tweak),
{
    assert(index as int * 0xFBA4C795 + tweak as int <= 0xFFFF_FFFF * 0xFBA4C795 + 0xFFFF_FFFF)
        by (nonlinear_arith)
        requires
            index <= 0xFFFF_FFFF,
            tweak <= 0xFFFF_FFFF,
    ;
    let wide: u64 = index as u64 * SEED_MULTIPLIER + tweak as u64;
    (wide % 0x1_0000_0000u64) as u32
}

/// Calls `murmur3::murmur3_32` on a reader over `data`.
///
/// Trusted: the result is the function's hash of exactly these bytes under this
/// seed. The reader is a cursor over memory, which never fails to read; the
/// function counts the bytes in a `u32`, so longer inputs are left out.
#[verifier::external_body]
pub(crate) fn murmur3_32_of(seed: u32, data: &[u8]) -> (h: u32)
    requires
        data@.len() <= u32::MAX,
    ensures
        h == murmur3_32_hash(seed, data@),
{
    let mut source = std::io::Cursor::new(data);
    murmur3::murmur3_32(&mut source, seed).unwrap()
}

} // verus!
