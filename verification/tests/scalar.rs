use gl_rust::algebra::scalar::Scalar;
use gl_rust::algebra::scalar::HALF;
use gl_rust::algebra::scalar::INFINITE;
use gl_rust::algebra::scalar::ONE;
use gl_rust::algebra::scalar::QUARTER;
use gl_rust::algebra::scalar::SIGN;
use gl_rust::algebra::scalar::ZERO;

fn scalar(x: f32) -> Scalar {
    Scalar::from_bits(x.to_bits())
}

fn samples() -> Vec<f32> {
    let mut list = vec![
        0.0,
        -0.0,
        1.0,
        -1.0,
        0.5,
        -0.5,
        0.1,
        0.2,
        0.8,
        89.0,
        -89.0,
        1000.0,
        f32::MIN_POSITIVE,
        -f32::MIN_POSITIVE,
        f32::MAX,
        f32::MIN,
        f32::EPSILON,
        f32::INFINITY,
        f32::NEG_INFINITY,
        f32::NAN,
        -f32::NAN,
        f32::from_bits(1),
        f32::from_bits(0x8000_0001),
        f32::from_bits(0x007f_ffff),
        f32::from_bits(0x7f80_0001),
        f32::from_bits(0xffff_ffff),
        f32::from_bits(0x7f7f_ffff),
    ];
    let mut state: u32 = 0x1234_5678;
    for _ in 0..200 {
        state = state.wrapping_mul(1_664_525).wrapping_add(1_013_904_223);
        list.push(f32::from_bits(state));
    }
    list
}

#[test]
fn patterns_are_those_of_the_numbers() {
    assert_eq!(ZERO, 0.0f32.to_bits());
    assert_eq!(ONE, 1.0f32.to_bits());
    assert_eq!(HALF, 0.5f32.to_bits());
    assert_eq!(QUARTER, 0.25f32.to_bits());
    assert_eq!(SIGN, (-0.0f32).to_bits());
    assert_eq!(INFINITE, f32::INFINITY.to_bits());
    assert_eq!(Scalar::zero(), scalar(0.0));
    assert_eq!(Scalar::one(), scalar(1.0));
}

#[test]
fn bits_go_in_and_out_unchanged() {
    for x in samples() {
        assert_eq!(scalar(x).to_bits(), x.to_bits());
        assert_eq!(scalar(x).bits, x.to_bits());
    }
}

#[test]
fn order_is_that_of_the_numbers() {
    let list = samples();
    for &a in &list {
        for &b in &list {
            assert_eq!(scalar(a).lt(scalar(b)), a < b, "{:?} < {:?}", a, b);
            assert_eq!(scalar(a).le(scalar(b)), a <= b, "{:?} <= {:?}", a, b);
            assert_eq!(scalar(a).gt(scalar(b)), a > b, "{:?} > {:?}", a, b);
            assert_eq!(scalar(a).ge(scalar(b)), a >= b, "{:?} >= {:?}", a, b);
        }
    }
}

#[test]
fn zeros_are_equal_and_unordered() {
    let plus = scalar(0.0);
    let minus = scalar(-0.0);
    assert!(!plus.lt(minus));
    assert!(!minus.lt(plus));
    assert!(plus.le(minus));
    assert!(minus.le(plus));
    assert!(minus.ge(plus));
}

#[test]
fn nan_compares_false() {
    let nan = scalar(f32::NAN);
    let one = scalar(1.0);
    assert!(nan.nan());
    assert!(!one.nan());
    assert!(!scalar(f32::INFINITY).nan());
    assert!(!nan.lt(one) && !one.lt(nan));
    assert!(!nan.le(one) && !one.le(nan));
    assert!(!nan.gt(one) && !one.gt(nan));
    assert!(!nan.ge(one) && !one.ge(nan));
    assert!(!nan.le(nan) && !nan.ge(nan));
}

#[test]
fn nan_is_told_as_the_hardware_tells_it() {
    for x in samples() {
        assert_eq!(scalar(x).nan(), x.is_nan());
    }
}

#[test]
fn negated_flips_the_sign_only() {
    for x in samples() {
        assert_eq!(scalar(x).negated().to_bits(), (-x).to_bits());
        assert_eq!(scalar(x).negated().negated(), scalar(x));
    }
    assert_eq!(scalar(0.5).negated(), scalar(-0.5));
    assert_eq!(scalar(0.0).negated(), scalar(-0.0));
}

#[test]
fn min_and_max_pass_over_what_is_not_a_number() {
    let nan = scalar(f32::NAN);
    let one = scalar(1.0);
    let two = scalar(2.0);
    assert_eq!(one.min(two), one);
    assert_eq!(two.min(one), one);
    assert_eq!(one.max(two), two);
    assert_eq!(two.max(one), two);
    assert_eq!(nan.min(one), one);
    assert_eq!(one.min(nan), one);
    assert_eq!(nan.max(one), one);
    assert_eq!(one.max(nan), one);
    assert!(nan.min(nan).nan());
    assert!(nan.max(nan).nan());
}

#[test]
fn min_and_max_are_those_of_the_hardware() {
    let list = samples();
    for &a in &list {
        for &b in &list {
            let low = f32::from_bits(scalar(a).min(scalar(b)).to_bits());
            let high = f32::from_bits(scalar(a).max(scalar(b)).to_bits());
            let (m, n) = (a.min(b), a.max(b));
            assert!(low == m || (low.is_nan() && m.is_nan()), "min {:?} {:?}", a, b);
            assert!(high == n || (high.is_nan() && n.is_nan()), "max {:?} {:?}", a, b);
        }
    }
}

#[test]
fn floor_and_ceil_of_plain_numbers() {
    let cases = [
        (0.0f32, 0, 0),
        (-0.0, 0, 0),
        (0.5, 0, 1),
        (-0.5, -1, 0),
        (1.0, 1, 1),
        (-1.0, -1, -1),
        (2.75, 2, 3),
        (-2.75, -3, -2),
        (399.99, 399, 400),
        (1e-30, 0, 1),
        (-1e-30, -1, 0),
        (16777216.0, 16777216, 16777216),
        (2147483520.0, 2147483520, 2147483520),
        (-2147483648.0, i32::MIN, i32::MIN),
        (2147483648.0, i32::MAX, i32::MAX),
        (1e20, i32::MAX, i32::MAX),
        (-1e20, i32::MIN, i32::MIN),
        (f32::INFINITY, i32::MAX, i32::MAX),
        (f32::NEG_INFINITY, i32::MIN, i32::MIN),
        (f32::NAN, 0, 0),
    ];
    for (x, down, up) in cases {
        assert_eq!(scalar(x).floor(), down, "floor {:?}", x);
        assert_eq!(scalar(x).ceil(), up, "ceil {:?}", x);
    }
}

#[test]
fn floor_and_ceil_are_those_of_the_hardware() {
    let mut list = samples();
    let mut state: u32 = 0x0bad_cafe;
    for _ in 0..20000 {
        state = state.wrapping_mul(1_664_525).wrapping_add(1_013_904_223);
        list.push(f32::from_bits(state));
        // numbers near the whole ones that a frame holds
        list.push((state % 4_000_000) as f32 / 1000.0 - 2000.0);
    }
    for exponent in 0..=255u32 {
        for fraction in [0u32, 1, 0x40_0000, 0x7f_ffff, 0x12_3456] {
            list.push(f32::from_bits(exponent << 23 | fraction));
            list.push(f32::from_bits(0x8000_0000 | exponent << 23 | fraction));
        }
    }
    for x in list {
        assert_eq!(scalar(x).floor(), x.floor() as i32, "floor {:?}", x);
        assert_eq!(scalar(x).ceil(), x.ceil() as i32, "ceil {:?}", x);
    }
}
