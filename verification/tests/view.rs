use gl_rust::algebra::scalar::Scalar;
use gl_rust::video::view::constrain;
use gl_rust::video::view::STEEPEST;

fn scalar(x: f32) -> Scalar {
    Scalar::from_bits(x.to_bits())
}

fn float(s: Scalar) -> f32 {
    f32::from_bits(s.to_bits())
}

#[test]
fn steepest_is_eighty_nine() {
    assert_eq!(STEEPEST, 89.0f32.to_bits());
}

#[test]
fn pitch_pushed_up_stays_at_the_limit() {
    let mut pitch = 0.0f32;
    for _ in 0..5 {
        pitch = float(constrain(scalar(pitch + 1000.0)));
        assert_eq!(pitch.to_bits(), 89.0f32.to_bits());
    }
}

#[test]
fn pitch_pushed_down_stays_at_the_limit() {
    let mut pitch = 0.0f32;
    for _ in 0..5 {
        pitch = float(constrain(scalar(pitch + -1000.0)));
        assert_eq!(pitch.to_bits(), (-89.0f32).to_bits());
    }
}

#[test]
fn pitch_within_the_limits_is_kept() {
    for x in [0.0f32, -0.0, 1.0, -1.0, 45.5, 88.99999, -88.99999, f32::MIN_POSITIVE] {
        assert_eq!(constrain(scalar(x)).to_bits(), x.to_bits());
    }
}

#[test]
fn pitch_at_or_past_a_limit_is_set_to_it() {
    for x in [89.0f32, 89.00001, 90.0, 1e30, f32::INFINITY] {
        assert_eq!(float(constrain(scalar(x))), 89.0);
        assert_eq!(float(constrain(scalar(-x))), -89.0);
    }
}

#[test]
fn pitch_that_is_not_a_number_is_kept() {
    assert!(float(constrain(scalar(f32::NAN))).is_nan());
    assert_eq!(constrain(scalar(f32::NAN)).to_bits(), f32::NAN.to_bits());
}

#[test]
fn constrain_agrees_with_the_comparisons() {
    let mut state: u32 = 0x9e37_79b9;
    for _ in 0..2000 {
        state = state.wrapping_mul(1_664_525).wrapping_add(1_013_904_223);
        let x = f32::from_bits(state);
        let mut expect = x;
        if expect >= 89.0 {
            expect = 89.0;
        }
        if expect <= -89.0 {
            expect = -89.0;
        }
        assert_eq!(constrain(scalar(x)).to_bits(), expect.to_bits());
    }
}
