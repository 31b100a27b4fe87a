//! The register generator is xoshiro256++.
use vstd::prelude::*;
use crate::alu::{rng_lanes, rng_next, rng_out, rng_seed_state, rotl};

verus! {

/// The xoshiro256 state transition, written out word by word.
pub open spec fn xoshiro_step(s: (u64, u64, u64, u64)) -> (u64, u64, u64, u64) {
    let x = s.1 ^ s.3;
    (s.0 ^ s.1 ^ s.3, s.0 ^ s.1 ^ s.2, s.0 ^ s.2 ^ (s.1 << 17u64), (x << 45u64) | (x >> 19u64))
}

/// The `++` output of a state: `rotl(s0 + s3, 23) + s0`, both sums modulo 2^64.
pub open spec fn xoshiro_out(s: (u64, u64, u64, u64)) -> u64 {
    let t = ((s.0 as int + s.3 as int) % 0x1_0000_0000_0000_0000) as u64;
    (((((t << 23u64) | (t >> 41u64)) as int) + s.0 as int) % 0x1_0000_0000_0000_0000) as u64
}

proof fn lemma_step(s: (u64, u64, u64, u64))
    ensures
        rng_next(s) == xoshiro_step(s),
{
    let (s0, s1, s2, s3) = s;
    assert(s0 ^ (s3 ^ s1) == s0 ^ s1 ^ s3) by (bit_vector);
    assert(s1 ^ (s2 ^ s0) == s0 ^ s1 ^ s2) by (bit_vector);
    assert((s2 ^ s0) ^ (s1 << 17u64) == s0 ^ s2 ^ (s1 << 17u64)) by (bit_vector);
    assert(((s3 ^ s1) << 45u64) | ((s3 ^ s1) >> 19u64) == ((s1 ^ s3) << 45u64) | ((s1 ^ s3) >> 19u64)) by (bit_vector);
}

/// The generator behind `qrand` is xoshiro256++: each of the four lanes is
/// the output of one state, every state after the first is the xoshiro256
/// transition of the one before (so the state moves on between lanes), and
/// the first is expanded from the seed.
pub proof fn law_qrand_is_xoshiro(seed: u64)
    ensures
        ({
            let s0 = rng_seed_state(seed);
            let s1 = xoshiro_step(s0);
            let s2 = xoshiro_step(s1);
            let s3 = xoshiro_step(s2);
            rng_lanes(seed) == [xoshiro_out(s0), xoshiro_out(s1), xoshiro_out(s2), xoshiro_out(s3)]
        }),
{
    let s0 = rng_seed_state(seed);
    lemma_step(s0);
    lemma_step(rng_next(s0));
    lemma_step(rng_next(rng_next(s0)));
    assert(rng_out(s0) == xoshiro_out(s0));
    assert(rng_out(xoshiro_step(s0)) == xoshiro_out(xoshiro_step(s0)));
    let s2 = xoshiro_step(xoshiro_step(s0));
    assert(rng_out(s2) == xoshiro_out(s2));
    assert(rng_out(xoshiro_step(s2)) == xoshiro_out(xoshiro_step(s2)));
    assert(rng_lanes(seed) =~= [xoshiro_out(s0), xoshiro_out(xoshiro_step(s0)), xoshiro_out(s2), xoshiro_out(xoshiro_step(s2))]);
}

} // verus!
