use ternary_ensemble::agent::{lcg_draws, LCG_MULTIPLIER};

#[test]
fn draws_one_value_per_feature() {
    assert_eq!(lcg_draws(99, 3), vec![332969666, 1520762217, 769402110]);
    assert_eq!(lcg_draws(3, 2), vec![75165251, 1220042505]);
    assert!(lcg_draws(7, 0).is_empty());
}

#[test]
fn draws_follow_the_generator_step() {
    let seed: u64 = 123_456_789;
    let d = lcg_draws(seed, 4);
    let mut s = seed;
    for (i, v) in d.iter().enumerate() {
        s = s.wrapping_add(i as u64).wrapping_mul(LCG_MULTIPLIER);
        assert_eq!(*v, s >> 33);
    }
}

#[test]
fn draws_stay_below_two_to_the_31() {
    for v in lcg_draws(u64::MAX, 50) {
        assert!(v < (1u64 << 31));
    }
}
