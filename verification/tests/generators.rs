use tiny_rng::{Lcg32, Pcg32, Rand, Rng};

fn rng_test<Generator: Rand>() {
    let mut rng = Generator::from_seed(0);
    println!("{:?}", tiny_rng::rand_range_u32(&mut rng, 1, 6));
}

#[test]
fn main() {
    rng_test::<Rng>();
}

#[test]
fn xorshift_seed_zero_first_outputs() {
    let mut rng = Rng::from_seed(0);
    assert_eq!(rng.rand_u64(), 0x99a57b5e061d5cf4);
    assert_eq!(rng.rand_u64(), 0xe17ca185389cd326);
    assert_eq!(rng.rand_u64(), 0x16dbfb8f140c22a6);
    let mut rng = Rng::from_seed(0);
    assert_eq!(rng.rand_u32(), 0x99a57b5e);
    assert_eq!(rng.rand_u32(), 0xe17ca185);
}

#[test]
fn pcg_seed_zero_first_outputs() {
    let mut rng = Pcg32::from_seed(0);
    assert_eq!(rng.rand_u32(), 0xe823a24e);
    assert_eq!(rng.rand_u32(), 0x7a7ecbd9);
    assert_eq!(rng.rand_u32(), 0x89fd6c06);
}

#[test]
fn lcg_seed_zero_first_outputs() {
    let mut rng = Lcg32::from_seed(0);
    assert_eq!(rng.rand_u32(), 1013904223);
    assert_eq!(rng.rand_u32(), 0x47502932);
    assert_eq!(rng.rand_u32(), 0xd1ccf6e9);
}

#[test]
fn xorshift_same_seed_same_sequence() {
    let mut a = Rng::from_seed(0xdeadbeef);
    let mut b = Rng::from_seed(0xdeadbeef);
    for _ in 0..10_000 {
        assert_eq!(a.rand_u32(), b.rand_u32());
    }
}

#[test]
fn pcg_same_seed_same_sequence() {
    let mut a = Pcg32::from_seed(0xdeadbeef);
    let mut b = Pcg32::from_seed(0xdeadbeef);
    for _ in 0..10_000 {
        assert_eq!(a.rand_u32(), b.rand_u32());
    }
}

#[test]
fn lcg_same_seed_same_sequence() {
    let mut a = Lcg32::from_seed(0xdeadbeef);
    let mut b = Lcg32::from_seed(0xdeadbeef);
    for _ in 0..10_000 {
        assert_eq!(a.rand_u32(), b.rand_u32());
    }
}

#[test]
fn xorshift_u64_is_not_two_u32_draws() {
    // The recommended engine draws 64 bits natively: one rand_u64 advances the
    // state once, while a 32-bit draw takes the high half of a full step.
    let mut a = Rng::from_seed(7);
    let hi = a.rand_u64() >> 32;
    let mut b = Rng::from_seed(7);
    assert_eq!(b.rand_u32() as u64, hi);
}

#[test]
fn pcg_u64_concatenates_two_u32_draws() {
    let mut a = Pcg32::from_seed(7);
    let hi = a.rand_u32() as u64;
    let lo = a.rand_u32() as u64;
    let mut b = Pcg32::from_seed(7);
    assert_eq!(b.rand_u64(), (hi << 32) | lo);
}

#[test]
fn xorshift_state_never_both_zero() {
    for seed in [0u64, 1, 0xf4dbdf2183dcefb7, 0x1ad5be0d6dd28e9b, u64::MAX] {
        let mut rng = Rng::from_seed(seed);
        assert!(!(rng.x == 0 && rng.y == 0));
        for _ in 0..10_000 {
            rng.rand_u64();
            assert!(!(rng.x == 0 && rng.y == 0));
        }
    }
}

#[test]
fn narrow_draws_truncate_one_u32_draw() {
    let mut a = Rng::from_seed(42);
    let x = a.rand_u32();
    let mut b = Rng::from_seed(42);
    assert_eq!(b.rand_u8(), x as u8);
    let mut c = Rng::from_seed(42);
    assert_eq!(c.rand_u16(), x as u16);
    let mut d = Rng::from_seed(42);
    let y = d.rand_u64();
    let mut e = Rng::from_seed(42);
    assert_eq!(e.rand_usize(), y as usize);
}

#[test]
fn iter_collects_the_u64_stream() {
    let mut a = Rng::from_seed(3);
    let drawn = a.iter(10);
    let mut b = Rng::from_seed(3);
    for i in 0..10 {
        assert_eq!(drawn[i], b.rand_u64());
    }
    // The adaptor advances the generator it borrows: the next draw continues
    // where the collected stream stopped.
    assert_eq!(a.rand_u64(), b.rand_u64());
}

#[test]
fn rand_iter_collects_the_u32_stream() {
    let mut a = Pcg32::from_seed(3);
    let drawn = tiny_rng::rand_iter(&mut a, 10);
    let mut b = Pcg32::from_seed(3);
    for i in 0..10 {
        assert_eq!(drawn[i], b.rand_u32());
    }
    assert_eq!(a.rand_u32(), b.rand_u32());
}
