use smart_watering_system::Level;

fn samples() -> Vec<f64> {
    vec![
        0.0,
        -0.0,
        f64::from_bits(1),
        -f64::from_bits(1),
        f64::from_bits(0x000f_ffff_ffff_ffff),
        f64::MIN_POSITIVE,
        -f64::MIN_POSITIVE,
        0.1,
        -0.1,
        1.0,
        -1.0,
        1.0 + f64::EPSILON,
        15.0,
        19.999,
        20.0,
        25.0,
        -20.0,
        1e300,
        -1e300,
        f64::MAX,
        f64::MIN,
        f64::INFINITY,
        f64::NEG_INFINITY,
        f64::NAN,
        -f64::NAN,
        f64::from_bits(0x7ff0_0000_0000_0001),
        f64::from_bits(0xfff0_0000_0000_0001),
        f64::from_bits(0x7fff_ffff_ffff_ffff),
        f64::from_bits(0xffff_ffff_ffff_ffff),
    ]
}

#[test]
fn bits_go_in_and_out_unchanged() {
    for x in samples() {
        assert_eq!(Level::from_bits(x.to_bits()).to_bits(), x.to_bits());
    }
    assert_eq!(Level::from_bits(0).to_bits(), 0);
    assert_eq!(Level::from_bits(u64::MAX).to_bits(), u64::MAX);
    assert_eq!(Level::from_bits(25.0f64.to_bits()).bits, 0x4039_0000_0000_0000);
}

#[test]
fn is_nan_agrees_with_the_floats() {
    for x in samples() {
        assert_eq!(Level::from_bits(x.to_bits()).is_nan(), x.is_nan(), "{x:?}");
    }
    assert!(!Level::from_bits(0x7ff0_0000_0000_0000).is_nan());
    assert!(!Level::from_bits(0xfff0_0000_0000_0000).is_nan());
    assert!(Level::from_bits(0x7ff0_0000_0000_0001).is_nan());
    assert!(Level::from_bits(0xfff0_0000_0000_0001).is_nan());
}

#[test]
fn lt_agrees_with_the_floats_on_every_pair() {
    for a in samples() {
        for b in samples() {
            let below = Level::from_bits(a.to_bits()).lt(Level::from_bits(b.to_bits()));
            assert_eq!(below, a < b, "{a:?} < {b:?}");
        }
    }
}

#[test]
fn lt_on_chosen_values() {
    let level = |x: f64| Level::from_bits(x.to_bits());
    assert!(level(15.0).lt(level(20.0)));
    assert!(!level(20.0).lt(level(20.0)));
    assert!(!level(25.0).lt(level(20.0)));
    assert!(level(-25.0).lt(level(-20.0)));
    assert!(!level(-20.0).lt(level(-25.0)));
    assert!(level(-1.0).lt(level(0.0)));
    assert!(level(-1.0).lt(level(-0.0)));
    assert!(!level(-0.0).lt(level(0.0)));
    assert!(!level(0.0).lt(level(-0.0)));
    assert!(level(-0.0).lt(level(f64::from_bits(1))));
    assert!(level(f64::NEG_INFINITY).lt(level(f64::MIN)));
    assert!(level(f64::MAX).lt(level(f64::INFINITY)));
    assert!(!level(f64::NAN).lt(level(f64::INFINITY)));
    assert!(!level(f64::NEG_INFINITY).lt(level(f64::NAN)));
    assert!(!level(f64::NAN).lt(level(f64::NAN)));
}

#[test]
fn lt_agrees_with_the_floats_on_a_sweep_of_patterns() {
    let mut pattern: u64 = 0x0123_4567_89ab_cdef;
    let mut earlier = 0.0f64;
    for _ in 0..20_000 {
        pattern = pattern.wrapping_mul(6364136223846793005).wrapping_add(1442695040888963407);
        let x = f64::from_bits(pattern);
        let below = Level::from_bits(earlier.to_bits()).lt(Level::from_bits(pattern));
        assert_eq!(below, earlier < x);
        let above = Level::from_bits(pattern).lt(Level::from_bits(earlier.to_bits()));
        assert_eq!(above, x < earlier);
        earlier = x;
    }
}
