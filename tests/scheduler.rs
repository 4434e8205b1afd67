use xbox_gamepad::axis::{AxisValue, ConfigError};
use xbox_gamepad::controller::ControllerState;
use xbox_gamepad::sampling::{adc_debug_leds, sample_inputs, AxisSamples, ButtonLines};
use xbox_gamepad::scheduler::{LinkHealth, Scheduler, SendOutcome, TickAction, DEFAULT_CADENCE};

#[test]
fn cadence_samples_exactly_on_multiples() {
    let mut s = Scheduler::new(DEFAULT_CADENCE).unwrap();
    let mut hits = Vec::new();
    for n in 1..=3500u64 {
        if s.tick() == TickAction::SampleAndSend {
            hits.push(n);
        }
        assert_eq!(s.ticks(), n);
    }
    assert_eq!(hits, vec![1000, 2000, 3000]);
}

#[test]
fn cadence_of_one_samples_every_tick() {
    let mut s = Scheduler::new(1).unwrap();
    for _ in 0..5 {
        assert_eq!(s.tick(), TickAction::SampleAndSend);
    }
}

#[test]
fn zero_cadence_is_rejected() {
    assert!(matches!(Scheduler::new(0), Err(ConfigError::InvalidConfiguration)));
}

#[test]
fn send_outcomes_update_link_health() {
    let mut s = Scheduler::new(10).unwrap();
    assert_eq!(s.health(), LinkHealth::Healthy);
    s.record_send(SendOutcome::WouldBlock);
    assert_eq!(s.health(), LinkHealth::Healthy);
    s.record_send(SendOutcome::Failed);
    assert_eq!(s.health(), LinkHealth::Faulted);
    s.record_send(SendOutcome::WouldBlock);
    assert_eq!(s.health(), LinkHealth::Faulted);
    s.record_send(SendOutcome::Sent);
    assert_eq!(s.health(), LinkHealth::Healthy);
    assert_eq!(s.cadence(), 10);
    assert_eq!(s.ticks(), 0);
}

#[test]
fn sampling_reads_lines_and_samples() {
    let mut state = ControllerState::new();
    state.up = true;
    let lines = ButtonLines {
        a: true,
        b: false,
        x: true,
        y: false,
        left_shoulder: true,
        right_shoulder: false,
        left_thumb: false,
        right_thumb: true,
        start: true,
        back: false,
    };
    let samples = AxisSamples {
        left_thumb_x: 0,
        left_thumb_y: 4095,
        right_thumb_x: 2048,
        right_thumb_y: 9000,
        left_trigger: 0,
        right_trigger: 4095,
    };
    sample_inputs(&mut state, &lines, &samples);
    assert!(state.a && !state.b && state.x && !state.y);
    assert!(state.left_shoulder && !state.right_shoulder && state.right_thumb && !state.left_thumb);
    assert!(state.start && !state.back);
    assert!(state.up);
    assert_eq!((state.left_thumb_x.num(), state.left_thumb_x.den()), (-4095, 4095));
    assert_eq!(state.left_thumb_y.num(), 4095);
    assert_eq!(state.right_thumb_x.num(), 1);
    assert_eq!(state.right_thumb_y.num(), 4095);
    assert_eq!(state.left_trigger.num(), 0);
    assert_eq!(state.right_trigger.num(), 4095);
}

#[test]
fn debug_leds_mirror_stick() {
    let lo = AxisValue::new(-1, 1).unwrap();
    let mid = AxisValue::new(0, 1).unwrap();
    let hi = AxisValue::new(1, 1).unwrap();
    assert_eq!(adc_debug_leds(&lo), [false; 8]);
    assert_eq!(adc_debug_leds(&mid), [true, true, true, true, false, false, false, false]);
    assert_eq!(adc_debug_leds(&hi), [true, true, true, true, true, true, true, false]);
}
