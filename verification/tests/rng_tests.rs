use tv_static::custom_random::Random;
use tv_static::custom_random::RngError;

fn seeded(seed: u64) -> Random {
    let mut r = Random::new();
    r.set_seed(seed);
    r
}

#[test]
fn fixed_seed_reproduces_sequence() {
    let mut a = seeded(42);
    let mut b = seeded(42);
    let sa: Vec<i64> = (0..5).map(|_| a.prandom()).collect();
    let sb: Vec<i64> = (0..5).map(|_| b.prandom()).collect();
    assert_eq!(sa, sb);
    assert_eq!(sa, vec![-1170105035, 234785527, -1360544799, 205897768, 1325939940]);
}

#[test]
fn initial_scramble_is_fixed_bit_mix() {
    assert_eq!(Random::initial_scramble(42), 42 ^ 0x5DEECE66D);
    assert_eq!(Random::initial_scramble(0), 0x5DEECE66D);
}

#[test]
fn power_of_two_bounds_stay_in_range() {
    let mut r = seeded(42);
    for &bound in &[1i64, 2, 4, 8, 16, 256, 1024, 1 << 30] {
        for _ in 0..200 {
            let v = r.prandom_bound(bound).unwrap();
            assert!(0 <= v && v < bound);
        }
    }
}

#[test]
fn power_of_two_sixteen_exact_sequence() {
    let mut r = seeded(42);
    let vs: Vec<i64> = (0..5).map(|_| r.prandom_bound(16).unwrap()).collect();
    assert_eq!(vs, vec![11, 0, 10, 0, 4]);
}

#[test]
fn non_power_of_two_exact_sequence() {
    let mut r = seeded(42);
    let vs: Vec<i64> = (0..5).map(|_| r.prandom_bound(10).unwrap()).collect();
    assert_eq!(vs, vec![0, 3, 8, 4, 0]);
}

#[test]
fn bounded_sampling_covers_range_and_never_escapes() {
    let mut r = seeded(99);
    let mut seen = [false; 10];
    for _ in 0..100_000 {
        let v = r.prandom_bound(10).unwrap();
        assert!(0 <= v && v < 10);
        seen[v as usize] = true;
    }
    assert!(seen.iter().all(|&s| s));
}

#[test]
fn non_positive_bounds_are_rejected() {
    let mut r = seeded(1);
    assert_eq!(r.prandom_bound(0), Err(RngError::NonPositiveBound));
    assert_eq!(r.prandom_bound(-5), Err(RngError::NonPositiveBound));
}

#[test]
fn empty_ranges_are_rejected() {
    let mut r = seeded(1);
    assert_eq!(r.random_range(5, 5), Err(RngError::EmptyRange));
    assert_eq!(r.random_range(3, 3), Err(RngError::EmptyRange));
    assert_eq!(r.random_range(7, 2), Err(RngError::EmptyRange));
}

#[test]
fn zero_one_range_yields_both_values_only() {
    let mut r = seeded(123);
    let mut saw_zero = false;
    let mut saw_one = false;
    for _ in 0..1000 {
        let v = r.random_range(0, 1).unwrap();
        assert!(v == 0 || v == 1);
        if v == 0 {
            saw_zero = true;
        }
        if v == 1 {
            saw_one = true;
        }
    }
    assert!(saw_zero && saw_one);
}

#[test]
fn range_is_inclusive_and_shifted() {
    let mut r = seeded(77);
    for _ in 0..1000 {
        let v = r.random_range(-3, 3).unwrap();
        assert!(-3 <= v && v <= 3);
    }
}

#[test]
fn colors_are_reproducible() {
    let mut r = seeded(42);
    let c1 = r.random_color();
    let c2 = r.random_color();
    assert_eq!((c1.r, c1.g, c1.b, c1.a), (186, 13, 174, 12));
    assert_eq!((c2.r, c2.g, c2.b, c2.a), (79, 241, 70, 181));
    let mut s = seeded(7);
    let c = s.random_color();
    assert_eq!((c.r, c.g, c.b, c.a), (187, 163, 191, 2));
}

#[test]
fn reseeding_changes_the_stream_source() {
    let mut r = Random::new();
    r.new_seed();
    for _ in 0..100 {
        let v = r.prandom_bound(100).unwrap();
        assert!(0 <= v && v < 100);
    }
}
