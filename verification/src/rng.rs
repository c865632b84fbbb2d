//! A small deterministic pseudo-random generator, plus a time-derived seed.
use vstd::prelude::*;

verus! {

/// The xorshift-style bit mix behind `custom_random`: three shift-xor
/// rounds followed by a wrapping multiplication by a fixed odd constant.
pub open spec fn spec_mix(seed: u64) -> u64 {
    let a = seed ^ (seed >> 21);
    let b = a ^ (a << 35);
    let c = b ^ (b >> 4);
    vstd::wrapping::u64_specs::wrapping_mul(c, 2685821657736338717u64)
}

/// The value `custom_random` returns: the low 32 bits of the mixed state,
/// reduced modulo `max`.
pub open spec fn spec_random(seed: u64, max: u32) -> u32
    recommends
        max > 0,
{
    (spec_mix(seed) as u32) % max
}

/// Deterministic bounded pseudo-random number: the same seed and bound
/// always give the same result, and the result is below the bound.
pub fn custom_random(seed: u64, max: u32) -> (r: u32)
    requires
        max > 0,
    ensures
        r == spec_random(seed, max),
        r < max,
{
    let mut state: u64 = seed;
    state = state ^ (state >> 21);
    state = state ^ (state << 35);
    state = state ^ (state >> 4);
    state = state.wrapping_mul(2685821657736338717);
    (#[verifier::truncate] (state as u32)) % max
}

/// Relies on `std::time::SystemTime::now`: a nanosecond count derived from
/// the wall clock. Nothing is assumed of the value; callers treat it as an
/// arbitrary seed.
#[verifier::external_body]
pub fn get_seed() -> u64 {
    match std::time::SystemTime::now().duration_since(std::time::UNIX_EPOCH) {
        Ok(d) => d.as_nanos() as u64,
        Err(_) => 0,
    }
}

} // verus!
