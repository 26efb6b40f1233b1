use sim_core::rng;

#[test]
fn seed_is_the_fixed_constant() {
    assert_eq!(rng::SEED, 0xA5A5_1234_89AB_CDEF);
}

#[test]
fn next_gives_the_known_sequence_from_the_seed() {
    let mut state = rng::SEED;
    let drawn: Vec<u32> = (0..4).map(|_| rng::next(&mut state)).collect();
    assert_eq!(drawn, vec![835348982, 3776076433, 1812201065, 3377807973]);
}

#[test]
fn next_advances_the_state_by_three_xorshifts() {
    let mut state = rng::SEED;
    rng::next(&mut state);
    assert_eq!(state, 0x5734_9983_de58_6af5);

    let mut x = rng::SEED;
    x ^= x << 12;
    x ^= x >> 25;
    x ^= x << 27;
    assert_eq!(state, x);
}

#[test]
fn next_returns_the_high_half_of_the_mixed_state() {
    let mut state = 1u64;
    let drawn = rng::next(&mut state);
    assert_eq!(drawn, (state.wrapping_mul(rng::MULTIPLIER) >> 32) as u32);
}

#[test]
fn next_is_a_function_of_the_state() {
    let mut a = 0x0123_4567_89ab_cdefu64;
    let mut b = a;
    for _ in 0..1000 {
        assert_eq!(rng::next(&mut a), rng::next(&mut b));
        assert_eq!(a, b);
    }
}

#[test]
fn next_keeps_the_zero_state() {
    let mut state = 0u64;
    assert_eq!(rng::next(&mut state), 0);
    assert_eq!(state, 0);
}
