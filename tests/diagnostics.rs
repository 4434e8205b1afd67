use xbox_gamepad::axis::AxisValue;
use xbox_gamepad::controller::ControllerState;

#[test]
fn rest_state_record() {
    let s = ControllerState::new();
    let text = s.to_string();
    assert_eq!(
        text.as_str(),
        "0,0,0,0,0,0,0,0,0,0,0,0,0,0,0,0,0,0,0,0,0\n"
    );
}

#[test]
fn record_with_values() {
    let mut s = ControllerState::new();
    s.up = true;
    s.y = true;
    s.left_thumb_x = AxisValue::new(-1, 2).unwrap();
    s.left_thumb_y = AxisValue::new(1, 1).unwrap();
    s.right_thumb_x = AxisValue::new(1, 3).unwrap();
    s.right_thumb_y = AxisValue::new(-4095, 4095).unwrap();
    s.left_trigger = AxisValue::new(2047, 4095).unwrap();
    s.right_trigger = AxisValue::new(25, 1).unwrap();
    let text = s.to_string();
    assert_eq!(
        text.as_str(),
        "1,0,0,0,0,0,0,0,0,0,0,0,0,0,1,-0.5,1,0.333,-1,0.499,25\n"
    );
}

#[test]
fn record_of_extreme_values_fits() {
    let mut s = ControllerState::new();
    s.left_thumb_x = AxisValue::new(i32::MIN, 1).unwrap();
    s.right_trigger = AxisValue::new(i32::MAX, 1).unwrap();
    let text = s.to_string();
    assert!(text.as_str().ends_with(",2147483647\n"));
    assert!(text.as_str().contains(",-2147483648,"));
    assert!(text.len() < 300);
}

#[test]
fn record_with_a_pressed_and_half_trigger() {
    let mut s = ControllerState::new();
    s.a = true;
    s.left_thumb_x = AxisValue::new(-1, 1).unwrap();
    s.right_trigger = AxisValue::new(1, 2).unwrap();
    assert_eq!(
        s.to_string().as_str(),
        "0,0,0,0,0,0,0,0,0,0,0,1,0,0,0,-1,0,0,0,0,0.5\n"
    );
}

#[test]
fn record_drops_trailing_zeros() {
    let mut s = ControllerState::new();
    s.left_thumb_x = AxisValue::new(1, 4).unwrap();
    s.left_thumb_y = AxisValue::new(-3, 8).unwrap();
    s.right_thumb_x = AxisValue::new(1, 100).unwrap();
    s.right_thumb_y = AxisValue::new(3, 2).unwrap();
    assert_eq!(
        s.to_string().as_str(),
        "0,0,0,0,0,0,0,0,0,0,0,0,0,0,0,0.25,-0.375,0.01,1.5,0,0\n"
    );
}
