//! The integer hashing behind the terrain noise.
use vstd::prelude::*;

verus! {

/// Multiplier that spreads the sample position over the hash state.
pub const POSITION_MIX: u64 = 0x9e3779b97f4a7c15;

/// First avalanche multiplier.
pub const MIX_A: u64 = 0xbf58476d1ce4e5b9;

/// Second avalanche multiplier.
pub const MIX_B: u64 = 0x94d049bb133111eb;

/// Mask keeping the 24 bits the noise uses.
pub const HASH_MASK: u64 = 0x00FF_FFFF;

/// The hash of sample position `x` under `seed`, before masking: the position
/// is spread over the seed with a wrapping multiply-add, then mixed by two
/// xor-shift / wrapping-multiply rounds and a final xor-shift.
pub open spec fn mixed(x: i64, seed: u64) -> u64 {
    let h0 = vstd::wrapping::u64_specs::wrapping_add(
        seed,
        vstd::wrapping::u64_specs::wrapping_mul(x as u64, POSITION_MIX),
    );
    let h1 = h0 ^ (h0 >> 30u64);
    let h2 = vstd::wrapping::u64_specs::wrapping_mul(h1, MIX_A);
    let h3 = h2 ^ (h2 >> 27u64);
    let h4 = vstd::wrapping::u64_specs::wrapping_mul(h3, MIX_B);
    h4 ^ (h4 >> 31u64)
}

/// The 24-bit hash of sample position `x` under `seed`; the noise divides it
/// by `HASH_MASK` to get a value in `[0, 1]`.
pub fn hash_bits(x: i64, seed: u64) -> (h: u64)
    ensures
        h == mixed(x, seed) & HASH_MASK,
        h <= HASH_MASK,
{
    let mut h: u64 = seed.wrapping_add((x as u64).wrapping_mul(POSITION_MIX));
    h = h ^ (h >> 30u64);
    h = h.wrapping_mul(MIX_A);
    h = h ^ (h >> 27u64);
    h = h.wrapping_mul(MIX_B);
    h = h ^ (h >> 31u64);
    let out = h & HASH_MASK;
    assert(h & 0x00FF_FFFFu64 <= 0x00FF_FFFFu64) by (bit_vector);
    out
}

/// Multiplier spreading the lattice column over the 2D hash key.
pub const LATTICE_X_MIX: i64 = 73856093;

/// Multiplier spreading the lattice row over the 2D hash key.
pub const LATTICE_Y_MIX: i64 = 19349663;

/// Multiplier separating the seeds of successive noise octaves.
pub const OCTAVE_MIX: u64 = 6364136223846793005;

/// The 1D hash position standing for lattice point `(x0, y0)` of the 2D
/// cave noise.
pub fn lattice_key(x0: i64, y0: i64) -> (k: i64)
    ensures
        k == vstd::wrapping::i64_specs::wrapping_mul(x0, LATTICE_X_MIX)
            ^ vstd::wrapping::i64_specs::wrapping_mul(y0, LATTICE_Y_MIX),
{
    x0.wrapping_mul(LATTICE_X_MIX) ^ y0.wrapping_mul(LATTICE_Y_MIX)
}

/// The seed of octave `i` of the layered surface noise.
pub fn octave_seed(seed: u64, i: u32) -> (s: u64)
    ensures
        s == vstd::wrapping::u64_specs::wrapping_add(
            seed,
            vstd::wrapping::u64_specs::wrapping_mul(i as u64, OCTAVE_MIX),
        ),
{
    seed.wrapping_add((i as u64).wrapping_mul(OCTAVE_MIX))
}

} // verus!
