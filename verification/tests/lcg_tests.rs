use game_of_life::lcg::INCREMENT;
use game_of_life::lcg::MULTIPLIER;
use game_of_life::LCG;

/// The recurrence, computed in 128-bit arithmetic and reduced by hand.
fn recurrence_next(state: u64) -> u64 {
    let wide = (state as u128) * 6364136223846793005u128 + 1442695040888963407u128;
    (wide % (1u128 << 64)) as u64
}

fn recurrence_stream(seed: u64, count: usize) -> Vec<u32> {
    let mut state = seed;
    let mut values = Vec::new();
    for _ in 0..count {
        state = recurrence_next(state);
        values.push((state >> 32) as u32);
    }
    values
}

#[test]
fn constants_are_the_mmix_constants() {
    assert_eq!(MULTIPLIER, 6364136223846793005);
    assert_eq!(INCREMENT, 1442695040888963407);
}

#[test]
fn first_output_for_seed_zero() {
    let mut rng = LCG::new(0);
    let expected = (1442695040888963407u64 >> 32) as u32;
    assert_eq!(expected, 335903614);
    assert_eq!(rng.random_u32(), expected);
}

#[test]
fn second_output_for_seed_zero() {
    let mut rng = LCG::new(0);
    rng.random_u32();
    let state = recurrence_next(1442695040888963407);
    assert_eq!(rng.random_u32(), (state >> 32) as u32);
}

#[test]
fn first_output_for_seed_one() {
    // 6364136223846793005 + 1442695040888963407 = 7806831264735756412
    let mut rng = LCG::new(1);
    assert_eq!(rng.random_u32(), (7806831264735756412u64 >> 32) as u32);
    assert_eq!((7806831264735756412u64 >> 32) as u32, 1817669548);
}

#[test]
fn stream_matches_the_recurrence() {
    for seed in [0u64, 1, 42, 0xdead_beef, u64::MAX, 1 << 63] {
        let mut rng = LCG::new(seed);
        let expected = recurrence_stream(seed, 64);
        for value in expected {
            assert_eq!(rng.random_u32(), value);
        }
    }
}

#[test]
fn state_wraps_around_without_failing() {
    // With the largest seed the product overflows 64 bits many times over.
    let mut rng = LCG::new(u64::MAX);
    // u64::MAX * A + C = -A + C (mod 2^64)
    let expected = 1442695040888963407u64.wrapping_sub(6364136223846793005);
    assert_eq!(rng.random_u32(), (expected >> 32) as u32);
}

#[test]
fn same_seed_same_sequence() {
    let mut first = LCG::new(2024);
    let mut second = LCG::new(2024);
    for _ in 0..1000 {
        assert_eq!(first.random_u32(), second.random_u32());
    }
}

#[test]
fn different_seeds_diverge() {
    let mut first = LCG::new(1);
    let mut second = LCG::new(2);
    let a: Vec<u32> = (0..8).map(|_| first.random_u32()).collect();
    let b: Vec<u32> = (0..8).map(|_| second.random_u32()).collect();
    assert_ne!(a, b);
}

#[test]
fn output_is_upper_half_not_lower_half() {
    let mut rng = LCG::new(7);
    let state = recurrence_next(7);
    let value = rng.random_u32();
    assert_eq!(value, (state >> 32) as u32);
    assert_ne!(value, state as u32);
}

#[test]
fn next_is_never_exhausted() {
    let mut rng = LCG::new(99);
    let mut twin = LCG::new(99);
    for _ in 0..10_000 {
        assert_eq!(rng.next(), Some(twin.random_u32()));
    }
}

#[test]
fn clock_seeded_generator_draws() {
    // The clock of any machine that runs this reads a time after 1970.
    let made = LCG::from_sys_timestamp();
    assert!(made.is_some());
    let mut rng = made.unwrap();
    let drawn: Vec<u32> = (0..4).map(|_| rng.random_u32()).collect();
    assert_eq!(drawn.len(), 4);
}

#[test]
fn reading_after_the_epoch_seeds_with_its_seconds() {
    let mut rng = LCG::from_elapsed(Some(0)).unwrap();
    assert_eq!(rng.random_u32(), 335903614);
    let mut late = LCG::from_elapsed(Some(1)).unwrap();
    assert_eq!(late.random_u32(), 1817669548);
    let mut latest = LCG::from_elapsed(Some(u64::MAX)).unwrap();
    let mut twin = LCG::new(u64::MAX);
    assert_eq!(latest.random_u32(), twin.random_u32());
}

#[test]
fn reading_before_the_epoch_gives_no_generator() {
    assert!(LCG::from_elapsed(None).is_none());
}
