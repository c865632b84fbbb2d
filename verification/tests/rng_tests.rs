use snake::rng::custom_random;
use snake::rng::get_seed;

#[test]
fn random_is_deterministic() {
    for seed in [0u64, 1, 2, 42, 123456789, u64::MAX] {
        assert_eq!(custom_random(seed, 20), custom_random(seed, 20));
        assert_eq!(custom_random(seed, 10), custom_random(seed, 10));
    }
}

#[test]
fn random_zero_seed_exact_value() {
    // the bit mix maps an all-zero state to zero, whatever the bound
    assert_eq!(custom_random(0, 20), 0);
    assert_eq!(custom_random(0, 10), 0);
    assert_eq!(custom_random(0, 13), 0);
}

#[test]
fn random_stays_below_bound() {
    for seed in 0..500u64 {
        assert!(custom_random(seed, 20) < 20);
        assert!(custom_random(seed, 10) < 10);
        assert!(custom_random(seed, 1) == 0);
    }
}

#[test]
fn random_adjacent_seeds_decorrelate() {
    // seed and seed + 1 give the two food coordinates; they need not be
    // equal for every seed, and indeed differ for some seed below
    let mut differs = false;
    for seed in 0..100u64 {
        if custom_random(seed, 20) != custom_random(seed + 1, 20) {
            differs = true;
        }
    }
    assert!(differs);
}

#[test]
fn seed_is_produced() {
    let a = get_seed();
    let b = get_seed();
    // nothing is promised of the values; the calls simply succeed
    let _ = a;
    let _ = b;
}
