use boid_hand_detector::SimpleRng;

#[test]
fn test_rng_repeatability() {
    let mut rng1 = SimpleRng::new(12345);
    let mut rng2 = SimpleRng::new(12345);

    for _ in 0..100 {
        assert_eq!(rng1.next_u32(), rng2.next_u32());
    }
}

#[test]
fn first_values_follow_the_recurrence() {
    let mut rng = SimpleRng::new(12345);
    // 12345 * 1664525 + 1013904223 modulo 2^32
    assert_eq!(rng.next_u32(), 87628868);
    assert_eq!(rng.next_u32(), 71072467);
    let mut one = SimpleRng::new(1);
    assert_eq!(one.next_u32(), 1015568748);
}

#[test]
fn zero_seed_counts_as_one() {
    let mut zero = SimpleRng::new(0);
    let mut one = SimpleRng::new(1);
    for _ in 0..10 {
        assert_eq!(zero.next_u32(), one.next_u32());
    }
}

#[test]
fn recurrence_wraps_round() {
    let mut rng = SimpleRng::new(u32::MAX);
    // (2^32 - 1) * 1664525 + 1013904223 modulo 2^32
    assert_eq!(rng.next_u32(), 1012239698);
}
