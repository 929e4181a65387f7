use snake_dqn::rng::{LcgRng, LCG_MUL};

#[test]
fn next_u64_follows_the_recurrence() {
    let mut r = LcgRng::new(42);
    assert_eq!(r.next_u64(), 9039304369631583587u64);
    assert_eq!(r.next_u64(), 8647191391818483560u64);
    assert_eq!(r.next_u64(), 10334312345110439241u64);
    assert_eq!(r.state(), 10334312345110439241u64);
}

#[test]
fn next_u64_wraps_modulo_two_to_the_64() {
    let mut zero = LcgRng::new(0);
    assert_eq!(zero.next_u64(), 1);
    let mut one = LcgRng::new(1);
    assert_eq!(one.next_u64(), LCG_MUL + 1);
    let mut top = LcgRng::new(u64::MAX);
    assert_eq!(top.next_u64(), 12082607849862758612u64);
}

#[test]
fn next_unit24_is_the_top_24_bits() {
    let mut r = LcgRng::new(42);
    assert_eq!(r.next_unit24(), 8221199);
    assert_eq!(r.next_unit24(), 7864574);
    let mut a = LcgRng::new(7);
    let mut b = LcgRng::new(7);
    let mut i: u32 = 0;
    while i < 1000 {
        let u: u32 = a.next_unit24();
        let s: u64 = b.next_u64();
        assert_eq!(u as u64, s >> 40);
        assert!(u < (1u32 << 24));
        i += 1;
    }
}

#[test]
fn next_unit24_gives_a_fraction_below_one() {
    let mut r = LcgRng::new(99);
    let mut i: u32 = 0;
    while i < 1000 {
        let u: u32 = r.next_unit24();
        let f: f32 = (u as f32) / ((1u32 << 24) as f32);
        assert!(f >= 0.0 && f < 1.0);
        i += 1;
    }
}

#[test]
fn gen_range_u32_is_low_bits_modulo_n() {
    let mut r = LcgRng::new(42);
    assert_eq!(r.gen_range_u32(10), 3);
    assert_eq!(r.gen_range_u32(10), 8);
    assert_eq!(r.gen_range_u32(10), 1);
    assert_eq!(r.gen_range_u32(10), 6);
    assert_eq!(r.gen_range_u32(10), 7);
}

#[test]
fn gen_range_u32_stays_below_n() {
    let mut r = LcgRng::new(5);
    let mut n: u32 = 1;
    while n < 200 {
        let d: u32 = r.gen_range_u32(n);
        assert!(d < n);
        n += 1;
    }
    assert_eq!(r.gen_range_u32(1), 0);
}

#[test]
fn same_seed_same_draws() {
    let mut a = LcgRng::new(0xABCD);
    let mut b = LcgRng::new(0xABCD);
    let mut i: u32 = 0;
    while i < 100 {
        assert_eq!(a.gen_range_u32(17), b.gen_range_u32(17));
        i += 1;
    }
    assert_eq!(a.state(), b.state());
}

#[test]
fn next_f32_is_the_top_24_bits_as_a_fraction() {
    let mut a = LcgRng::new(42);
    assert_eq!(a.next_f32(), (8221199.0f32 / 16777216.0).to_bits());
    assert_eq!(a.next_f32(), (7864574.0f32 / 16777216.0).to_bits());
    let mut r = LcgRng::new(2024);
    let mut twin = LcgRng::new(2024);
    let mut i: u32 = 0;
    while i < 10000 {
        let want: f32 = ((twin.next_u64() >> 40) as f32) / ((1u32 << 24) as f32);
        let got: f32 = f32::from_bits(r.next_f32());
        assert_eq!(got.to_bits(), want.to_bits());
        assert!(got >= 0.0 && got < 1.0);
        i += 1;
    }
    assert_eq!(r.state(), twin.state());
}
