use tiny_rng::{Lcg32, Pcg32, Rand, Rng};

#[test]
fn bounded_draws_stay_in_range() {
    for m in [1u32, 2, 3, 7, 255, 256, 1_000_003] {
        let mut rng = Rng::from_seed(99);
        for _ in 0..100_000 {
            assert!(tiny_rng::rand_bounded_u32(&mut rng, m) < m);
        }
        let mut pcg = Pcg32::from_seed(99);
        for _ in 0..100_000 {
            assert!(tiny_rng::rand_bounded_u32(&mut pcg, m) < m);
        }
    }
}

#[test]
fn bounded_u64_draws_stay_in_range() {
    for m in [1u64, 2, 3, 7, 255, 256, 1_000_003, 0x1_0000_0001] {
        let mut rng = Rng::from_seed(99);
        for _ in 0..10_000 {
            assert!(tiny_rng::rand_bounded_u64(&mut rng, m) < m);
        }
    }
}

#[test]
fn bounded_power_of_two_takes_one_draw() {
    // For a power-of-two bound the first draw is accepted, so the sample is
    // the masked first draw and exactly one draw is consumed.
    let mut a = Rng::from_seed(5);
    let r = tiny_rng::rand_bounded_u32(&mut a, 256);
    let mut b = Rng::from_seed(5);
    assert_eq!(r, b.rand_u32() & 255);
    assert_eq!(a.rand_u32(), b.rand_u32());
}

#[test]
fn bounded_power_of_two_is_exactly_uniform() {
    // Chi-square test over the 256 buckets of a power-of-two bound; the
    // statistic stays below the 0.001 critical value for 255 degrees of
    // freedom (about 330) for a healthy generator.
    let mut rng = Rng::from_seed(2024);
    let mut buckets = [0u32; 256];
    let draws = 100_000u32;
    for _ in 0..draws {
        buckets[tiny_rng::rand_bounded_u32(&mut rng, 256) as usize] += 1;
    }
    let expected = draws as f64 / 256.0;
    let mut chi2 = 0.0f64;
    for count in buckets {
        let d = count as f64 - expected;
        chi2 += d * d / expected;
    }
    assert!(chi2 < 330.0, "chi-square too large: {}", chi2);
}

#[test]
fn lcg_bounded_scales_one_draw() {
    // The linear congruential variant trades correctness for speed: its own
    // bounded sampling scales a single raw draw with no rejection.
    let mut a = Lcg32::from_seed(5);
    let r = a.rand_bounded_u32(1_000_003);
    let mut b = Lcg32::from_seed(5);
    let x = b.rand_u32();
    assert_eq!(r, ((x as u64 * 1_000_003u64) >> 32) as u32);
    assert_eq!(a.rand_u32(), b.rand_u32());
}

#[test]
fn ranges_stay_inside_their_bounds() {
    let mut rng = Rng::from_seed(11);
    for _ in 0..10_000 {
        let r = tiny_rng::rand_range_u32(&mut rng, 1, 7);
        assert!(1 <= r && r < 7);
        let r = tiny_rng::rand_range_u64(&mut rng, 10, 1_000_000_000_000);
        assert!(10 <= r && r < 1_000_000_000_000);
        let r = tiny_rng::rand_range_i32(&mut rng, -5, 5);
        assert!(-5 <= r && r < 5);
        let r = tiny_rng::rand_range_i64(&mut rng, -3, 4);
        assert!(-3 <= r && r < 4);
    }
}

#[test]
fn ranges_cover_the_full_signed_width() {
    let mut rng = Rng::from_seed(11);
    for _ in 0..1_000 {
        let r = tiny_rng::rand_range_i32(&mut rng, i32::MIN, i32::MAX);
        assert!(r < i32::MAX);
        let r = tiny_rng::rand_range_i64(&mut rng, i64::MIN, i64::MAX);
        assert!(r < i64::MAX);
    }
}

#[test]
fn choice_picks_an_element() {
    let mut rng = Rng::from_seed(0);
    let colors = ["red", "green", "blue"];
    for _ in 0..100 {
        let c = tiny_rng::choice(&mut rng, &colors);
        assert!(colors.contains(c));
    }
}

#[test]
fn shuffle_is_a_permutation() {
    let mut rng = Rng::from_seed(123);
    let mut a: Vec<u32> = (0..100).collect();
    tiny_rng::shuffle(&mut rng, &mut a);
    let mut sorted = a.clone();
    sorted.sort();
    let expected: Vec<u32> = (0..100).collect();
    assert_eq!(sorted, expected);
    assert_ne!(a, expected);
}

#[test]
fn shuffle_of_tiny_slices_draws_nothing() {
    let mut rng = Rng::from_seed(77);
    let mut empty: [u32; 0] = [];
    tiny_rng::shuffle(&mut rng, &mut empty[..]);
    let mut one = [42u32];
    tiny_rng::shuffle(&mut rng, &mut one[..]);
    assert_eq!(one, [42]);
    let mut fresh = Rng::from_seed(77);
    assert_eq!(rng.rand_u64(), fresh.rand_u64());
}

#[test]
fn shuffle_positions_spread_over_seeds() {
    // Over many seeds, the element starting at position 0 of a 4-element
    // array should land in every position a reasonable number of times.
    let mut landed = [0u32; 4];
    for seed in 0..4000u64 {
        let mut rng = Rng::from_seed(seed);
        let mut a = [0u32, 1, 2, 3];
        tiny_rng::shuffle(&mut rng, &mut a[..]);
        for pos in 0..4 {
            if a[pos] == 0 {
                landed[pos] += 1;
            }
        }
    }
    for count in landed {
        assert!(700 < count && count < 1300, "position count off: {}", count);
    }
}

#[test]
fn fill_emits_draws_least_significant_byte_first() {
    let mut rng = Rng::from_seed(0);
    let mut buf = [0u8; 8];
    tiny_rng::fill(&mut rng, &mut buf[..]);
    assert_eq!(buf, [94, 123, 165, 153, 133, 161, 124, 225]);
    let mut fresh = Rng::from_seed(0);
    let d0 = fresh.rand_u32();
    let d1 = fresh.rand_u32();
    let mut expected = [0u8; 8];
    expected[..4].copy_from_slice(&d0.to_le_bytes());
    expected[4..].copy_from_slice(&d1.to_le_bytes());
    assert_eq!(buf, expected);
}

#[test]
fn fill_tail_consumes_no_extra_draw() {
    let mut rng = Rng::from_seed(9);
    let mut buf = [0u8; 6];
    tiny_rng::fill(&mut rng, &mut buf[..]);
    let mut fresh = Rng::from_seed(9);
    let d0 = fresh.rand_u32();
    let d1 = fresh.rand_u32();
    assert_eq!(&buf[..4], &d0.to_le_bytes());
    assert_eq!(&buf[4..], &d1.to_le_bytes()[..2]);
    // Exactly two draws were consumed: the streams agree afterwards.
    assert_eq!(rng.rand_u32(), fresh.rand_u32());
    let mut empty_rng = Rng::from_seed(9);
    let mut nothing: [u8; 0] = [];
    tiny_rng::fill(&mut empty_rng, &mut nothing[..]);
    let fresh_again = Rng::from_seed(9);
    assert_eq!(empty_rng.x, fresh_again.x);
    assert_eq!(empty_rng.y, fresh_again.y);
}

#[test]
fn float_mapping_stays_in_the_unit_interval() {
    let mut rng = Rng::from_seed(31);
    for _ in 0..1_000_000 {
        let x = rng.rand_u32();
        let f32_sample = x as f32 * 2.3283064E-10;
        assert!(0.0 <= f32_sample && f32_sample < 1.0);
        let f64_sample = x as f64 * 2.3283064365386963E-10;
        assert!(0.0 <= f64_sample && f64_sample < 1.0);
    }
}

#[test]
fn next_power_of_two_edges() {
    assert_eq!(tiny_rng::wrapping_next_power_of_two_u32(0), 1);
    assert_eq!(tiny_rng::wrapping_next_power_of_two_u32(1), 1);
    assert_eq!(tiny_rng::wrapping_next_power_of_two_u32(3), 4);
    assert_eq!(tiny_rng::wrapping_next_power_of_two_u32(256), 256);
    assert_eq!(tiny_rng::wrapping_next_power_of_two_u32(257), 512);
    assert_eq!(tiny_rng::wrapping_next_power_of_two_u32(1 << 31), 1 << 31);
    assert_eq!(tiny_rng::wrapping_next_power_of_two_u32((1 << 31) + 1), 0);
    assert_eq!(tiny_rng::wrapping_next_power_of_two_u32(u32::MAX), 0);
    assert_eq!(tiny_rng::wrapping_next_power_of_two_u64(0), 1);
    assert_eq!(tiny_rng::wrapping_next_power_of_two_u64(5), 8);
    assert_eq!(tiny_rng::wrapping_next_power_of_two_u64(1 << 63), 1 << 63);
    assert_eq!(tiny_rng::wrapping_next_power_of_two_u64((1 << 63) + 1), 0);
    assert_eq!(tiny_rng::wrapping_next_power_of_two_u64(u64::MAX), 0);
}

#[test]
fn bounded_usize_stays_in_range() {
    let mut rng = Pcg32::from_seed(1);
    for _ in 0..1_000 {
        assert!(tiny_rng::rand_bounded_usize(&mut rng, 17) < 17);
    }
}
