use lignum::Scalar;

fn s(x: f32) -> Scalar {
    Scalar::from_bits(x.to_bits())
}

fn f(x: Scalar) -> f32 {
    f32::from_bits(x.to_bits())
}

fn grid() -> Vec<f32> {
    vec![
        f32::NEG_INFINITY,
        f32::MIN,
        -1.0e30,
        -125.0,
        -10.0,
        -1.0,
        -0.1,
        -f32::MIN_POSITIVE,
        -1.0e-40,
        -0.0,
        0.0,
        1.0e-45,
        1.0e-40,
        f32::MIN_POSITIVE,
        0.01,
        0.02,
        0.1,
        0.5,
        1.0,
        1.000_000_1,
        9.5,
        10.0,
        50.0,
        125.0,
        1.0e30,
        f32::MAX,
        f32::INFINITY,
        f32::NAN,
        -f32::NAN,
    ]
}

#[test]
fn le_agrees_with_the_hardware_on_a_grid() {
    for a in grid() {
        for b in grid() {
            assert_eq!(s(a).le(s(b)), a <= b, "{a} <= {b}");
            assert_eq!(s(a).lt(s(b)), a < b, "{a} < {b}");
            assert_eq!(s(a).same(s(b)), a == b, "{a} == {b}");
        }
    }
}

#[test]
fn bits_round_trip() {
    for a in grid() {
        assert_eq!(s(a).to_bits(), a.to_bits());
        assert_eq!(Scalar::from_bits(a.to_bits()), s(a));
    }
    assert_eq!(Scalar::zero().to_bits(), 0);
    assert_eq!(f(Scalar::zero()), 0.0);
}

#[test]
fn is_nan_agrees_with_the_hardware() {
    for a in grid() {
        assert_eq!(s(a).is_nan(), a.is_nan(), "{a}");
    }
    assert!(Scalar::from_bits(0x7f80_0001).is_nan());
    assert!(Scalar::from_bits(0xffff_ffff).is_nan());
    assert!(!Scalar::from_bits(0x7f80_0000).is_nan());
    assert!(!Scalar::from_bits(0xff80_0000).is_nan());
}

#[test]
fn neg_and_abs_agree_with_the_hardware() {
    for a in grid() {
        assert_eq!(s(a).neg().to_bits(), (-a).to_bits(), "-{a}");
        assert_eq!(s(a).abs().to_bits(), a.abs().to_bits(), "|{a}|");
    }
    assert_eq!(s(2.5).neg(), s(-2.5));
    assert_eq!(s(0.0).neg().to_bits(), 0x8000_0000);
    assert_eq!(s(-7.0).abs(), s(7.0));
}

// Where two numbers compare equal or one is a NaN the hardware may hand back
// either pattern, so the patterns are compared only where the numbers differ.
#[test]
fn min_and_max_agree_with_the_hardware() {
    for a in grid() {
        for b in grid() {
            let lo = f(s(a).min(s(b)));
            let hi = f(s(a).max(s(b)));
            if a.is_nan() && b.is_nan() {
                assert!(lo.is_nan() && hi.is_nan());
            } else if a.is_nan() || b.is_nan() || a == b {
                assert_eq!(lo, a.min(b), "min({a}, {b})");
                assert_eq!(hi, a.max(b), "max({a}, {b})");
            } else {
                assert_eq!(lo.to_bits(), a.min(b).to_bits(), "min({a}, {b})");
                assert_eq!(hi.to_bits(), a.max(b).to_bits(), "max({a}, {b})");
            }
        }
    }
}

#[test]
fn min_and_max_take_the_first_of_two_equal_numbers() {
    assert_eq!(s(0.0).min(s(-0.0)).to_bits(), 0);
    assert_eq!(s(-0.0).min(s(0.0)).to_bits(), 0x8000_0000);
    assert_eq!(s(0.0).max(s(-0.0)).to_bits(), 0);
    assert_eq!(s(-0.0).max(s(0.0)).to_bits(), 0x8000_0000);
}

#[test]
fn min_and_max_let_a_nan_give_way() {
    assert_eq!(s(f32::NAN).min(s(3.0)), s(3.0));
    assert_eq!(s(3.0).min(s(f32::NAN)), s(3.0));
    assert_eq!(s(f32::NAN).max(s(3.0)), s(3.0));
    assert_eq!(s(3.0).max(s(f32::NAN)), s(3.0));
}

#[test]
fn limit_keeps_a_number_between_the_bounds() {
    assert_eq!(s(20.0).limit(s(10.0)), s(10.0));
    assert_eq!(s(-20.0).limit(s(10.0)), s(-10.0));
    assert_eq!(s(3.25).limit(s(10.0)), s(3.25));
    assert_eq!(s(-3.25).limit(s(10.0)), s(-3.25));
    assert_eq!(s(10.0).limit(s(10.0)), s(10.0));
    assert_eq!(s(-10.0).limit(s(10.0)), s(-10.0));
    assert_eq!(s(f32::INFINITY).limit(s(10.0)), s(10.0));
    assert_eq!(s(f32::NEG_INFINITY).limit(s(10.0)), s(-10.0));
    assert_eq!(s(5.0).limit(s(0.0)).to_bits() & 0x7fff_ffff, 0);
}

#[test]
fn limit_agrees_with_the_hardware() {
    for a in grid() {
        for l in [0.5f32, 1.0, 10.0, 125.0, f32::MAX, f32::INFINITY] {
            let got = f(s(a).limit(s(l)));
            let want = a.min(l).max(-l);
            assert_eq!(got.to_bits(), want.to_bits(), "{a} under {l}");
            assert!(-l <= got && got <= l);
        }
    }
}

#[test]
fn limit_that_is_a_nan_changes_nothing() {
    for a in [-20.0f32, 0.0, 3.0, 1.0e30] {
        assert_eq!(s(a).limit(s(f32::NAN)), s(a));
    }
}

#[test]
fn limit_below_zero_gives_its_own_size() {
    // first lowered to -2, then raised to 2
    assert_eq!(s(5.0).limit(s(-2.0)), s(2.0));
    assert_eq!(s(-5.0).limit(s(-2.0)), s(2.0));
    assert_eq!(f(s(5.0).limit(s(-2.0))), 5.0f32.min(-2.0).max(2.0));
}

#[test]
fn order_is_total_on_numbers() {
    for a in grid() {
        for b in grid() {
            if a.is_nan() || b.is_nan() {
                assert!(!s(a).le(s(b)) && !s(b).le(s(a)));
                continue;
            }
            assert!(s(a).le(s(b)) || s(b).le(s(a)));
            assert_eq!(s(a).le(s(b)) && s(b).le(s(a)), s(a).same(s(b)));
            assert_eq!(s(a).lt(s(b)), !s(b).le(s(a)));
            assert_eq!(s(a).le(s(b)), s(b).neg().le(s(a).neg()));
        }
    }
}
