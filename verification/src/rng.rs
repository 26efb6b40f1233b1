//! The pseudo-random source: a 64-bit xorshift state with a multiplicative
//! output mix.

use vstd::prelude::*;

verus! {

/// The state every simulation starts from.
pub const SEED: u64 = 0xA5A5_1234_89AB_CDEF;

/// The odd constant the state is multiplied by to produce an output.
pub const MULTIPLIER: u64 = 2685821657736338717;

/// The state that follows `state`: three xorshift rounds, left by 12, right
/// by 25, left by 27.
pub open spec fn advance(state: u64) -> u64 {
    let a: u64 = state ^ (state << 12);
    let b: u64 = a ^ (a >> 25);
    b ^ (b << 27)
}

/// The value drawn from a state: the high 32 bits of the low 64 bits of the
/// state times `MULTIPLIER`.
pub open spec fn output(state: u64) -> u32 {
    ((state * MULTIPLIER) % 0x1_0000_0000_0000_0000 / 0x1_0000_0000) as u32
}

/// Advances `state` and draws from the new state.
pub fn next(state: &mut u64) -> (drawn: u32)
    ensures
        *final(state) == advance(*old(state)),
        drawn == output(*final(state)),
{
    let mut x: u64 = *state;
    x ^= x << 12;
    x ^= x >> 25;
    x ^= x << 27;
    *state = x;
    let mixed: u64 = x.wrapping_mul(MULTIPLIER);
    let high: u64 = mixed >> 32;
    assert(high == mixed / 0x1_0000_0000 && high <= 0xffff_ffff) by (bit_vector)
        requires
            high == mixed >> 32,
    ;
    high as u32
}

} // verus!
