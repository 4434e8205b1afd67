use xbox_gamepad::axis::{lerp, normalize, normalize_inverted, AxisValue, ConfigError, ADC_RAW_MAX};

fn ratio(num: i32, den: u16) -> AxisValue {
    AxisValue::new(num, den).unwrap()
}

#[test]
fn normalize_signed_ends_and_middle() {
    let lo = normalize(0, ADC_RAW_MAX, true).unwrap();
    assert_eq!((lo.num(), lo.den()), (-4095, 4095));
    let hi = normalize(ADC_RAW_MAX, ADC_RAW_MAX, true).unwrap();
    assert_eq!((hi.num(), hi.den()), (4095, 4095));
    let mid = normalize(2048, ADC_RAW_MAX, true).unwrap();
    assert_eq!((mid.num(), mid.den()), (1, 4095));
}

#[test]
fn normalize_signed_is_monotonic() {
    let mut prev = normalize(0, 100, true).unwrap().num();
    for r in 1..=100u16 {
        let v = normalize(r, 100, true).unwrap();
        assert!(v.num() >= prev);
        assert!(v.num() >= -100 && v.num() <= 100);
        prev = v.num();
    }
}

#[test]
fn normalize_unsigned_range() {
    let lo = normalize(0, 4095, false).unwrap();
    assert_eq!((lo.num(), lo.den()), (0, 4095));
    let hi = normalize(4095, 4095, false).unwrap();
    assert_eq!((hi.num(), hi.den()), (4095, 4095));
}

#[test]
fn normalize_clamps_out_of_range_samples() {
    let v = normalize(5000, 4095, true).unwrap();
    assert_eq!((v.num(), v.den()), (4095, 4095));
    let u = normalize(u16::MAX, 10, false).unwrap();
    assert_eq!((u.num(), u.den()), (10, 10));
}

#[test]
fn normalize_rejects_empty_range() {
    assert_eq!(normalize(0, 0, true), Err(ConfigError::InvalidConfiguration));
    assert_eq!(normalize(7, 0, false), Err(ConfigError::InvalidConfiguration));
}

#[test]
fn lerp_is_exact() {
    let t = ratio(1, 4);
    let v = lerp(-1, 1, t);
    assert_eq!((v.num(), v.den()), (-2, 4));
    let w = lerp(10, 20, ratio(3, 4));
    assert_eq!((w.num(), w.den()), (10 + 60, 4));
    let z = lerp(-100, 100, ratio(0, 9));
    assert_eq!((z.num(), z.den()), (-900, 9));
}

#[test]
fn axis_value_rejects_zero_denominator() {
    assert!(AxisValue::new(1, 0).is_none());
    assert!(AxisValue::new(1, 1).is_some());
}

#[test]
fn signed_field_full_deflection() {
    assert_eq!(ratio(1, 1).to_signed_field(127), 127);
    assert_eq!(ratio(-1, 1).to_signed_field(127), -127);
    let top = normalize(4095, 4095, true).unwrap();
    let bottom = normalize(0, 4095, true).unwrap();
    assert_eq!(top.to_signed_field(127), 127);
    assert_eq!(bottom.to_signed_field(127), -127);
}

#[test]
fn signed_field_rounds_half_away_from_zero() {
    assert_eq!(ratio(1, 2).to_signed_field(127), 64);
    assert_eq!(ratio(-1, 2).to_signed_field(127), -64);
    assert_eq!(ratio(1, 3).to_signed_field(127), 42);
    assert_eq!(ratio(0, 5).to_signed_field(127), 0);
}

#[test]
fn signed_field_clamps_overflow() {
    assert_eq!(ratio(3, 1).to_signed_field(127), 127);
    assert_eq!(ratio(-5, 2).to_signed_field(127), -127);
    assert_eq!(ratio(i32::MAX, 1).to_signed_field(127), 127);
    assert_eq!(ratio(i32::MIN, 1).to_signed_field(127), -127);
}

#[test]
fn bipolar_field_scaling() {
    assert_eq!(ratio(-1, 1).to_bipolar_field(65535), 0);
    assert_eq!(ratio(1, 1).to_bipolar_field(65535), 65535);
    assert_eq!(ratio(0, 1).to_bipolar_field(65535), 32768);
    assert_eq!(ratio(2, 1).to_bipolar_field(1023), 1023);
    assert_eq!(ratio(-2, 1).to_bipolar_field(1023), 0);
}

#[test]
fn unipolar_field_scaling() {
    assert_eq!(ratio(1, 2).to_unipolar_field(1023), 512);
    assert_eq!(ratio(1, 1).to_unipolar_field(1023), 1023);
    assert_eq!(ratio(-1, 1).to_unipolar_field(1023), 0);
    assert_eq!(ratio(4095, 4095).to_unipolar_field(255), 255);
}

#[test]
fn normalize_inverted_swaps_ends() {
    let top = normalize_inverted(0, 4095, true).unwrap();
    assert_eq!((top.num(), top.den()), (4095, 4095));
    let bottom = normalize_inverted(4095, 4095, true).unwrap();
    assert_eq!((bottom.num(), bottom.den()), (-4095, 4095));
    let trig = normalize_inverted(1000, 4000, false).unwrap();
    assert_eq!((trig.num(), trig.den()), (3000, 4000));
    assert_eq!(
        normalize_inverted(3, 0, true),
        Err(ConfigError::InvalidConfiguration)
    );
}
