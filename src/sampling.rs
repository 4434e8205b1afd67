//! One sampling step: button lines, then converter samples, into the controller state.
use crate::axis::{normalize, normalized_numer, AxisValue, ADC_RAW_MAX};
use crate::controller::{ButtonId, ControllerState};
use vstd::prelude::*;

verus! {

/// Number of indicator lights that mirror the left stick.
pub const DEBUG_LED_COUNT: usize = 8;

/// Levels of the button lines, `true` where a line reads low.
///
/// The lines are pulled up and a pressed button pulls its line to ground, so a
/// low line is a pressed button.
#[derive(Clone, Copy, Debug, PartialEq, Eq, Structural)]
pub struct ButtonLines {
    pub a: bool,
    pub b: bool,
    pub x: bool,
    pub y: bool,
    pub left_shoulder: bool,
    pub right_shoulder: bool,
    pub left_thumb: bool,
    pub right_thumb: bool,
    pub start: bool,
    pub back: bool,
}

/// Raw converter samples of the analog channels, in `[0, ADC_RAW_MAX]`.
#[derive(Clone, Copy, Debug, PartialEq, Eq, Structural)]
pub struct AxisSamples {
    pub left_thumb_x: u16,
    pub left_thumb_y: u16,
    pub right_thumb_x: u16,
    pub right_thumb_y: u16,
    pub left_trigger: u16,
    pub right_trigger: u16,
}

/// Every button of `s1` and `s2` is in the same state.
pub open spec fn same_buttons(s1: ControllerState, s2: ControllerState) -> bool {
    forall|id: ButtonId| #[trigger] s1.button(id) == s2.button(id)
}

/// The axis holds the normalized sample `raw` (over the denominator `ADC_RAW_MAX`).
pub open spec fn holds_sample(v: AxisValue, raw: u16, signed: bool) -> bool {
    v.denom() == ADC_RAW_MAX && v.numer() == normalized_numer(raw, ADC_RAW_MAX, signed)
}

/// Stores the pressed state of the wired buttons (a low line is a pressed
/// button) and leaves the d-pad, the guide button and the axes as they were.
pub fn read_buttons_states(state: &mut ControllerState, lines: &ButtonLines)
    ensures
        final(state).a == lines.a,
        final(state).b == lines.b,
        final(state).x == lines.x,
        final(state).y == lines.y,
        final(state).left_shoulder == lines.left_shoulder,
        final(state).right_shoulder == lines.right_shoulder,
        final(state).left_thumb == lines.left_thumb,
        final(state).right_thumb == lines.right_thumb,
        final(state).start == lines.start,
        final(state).back == lines.back,
        final(state).up == old(state).up,
        final(state).down == old(state).down,
        final(state).left == old(state).left,
        final(state).right == old(state).right,
        final(state).guide == old(state).guide,
        final(state).left_thumb_x == old(state).left_thumb_x,
        final(state).left_thumb_y == old(state).left_thumb_y,
        final(state).right_thumb_x == old(state).right_thumb_x,
        final(state).right_thumb_y == old(state).right_thumb_y,
        final(state).left_trigger == old(state).left_trigger,
        final(state).right_trigger == old(state).right_trigger,
{
    state.a = lines.a;
    state.b = lines.b;
    state.x = lines.x;
    state.y = lines.y;
    state.left_shoulder = lines.left_shoulder;
    state.right_shoulder = lines.right_shoulder;
    state.left_thumb = lines.left_thumb;
    state.right_thumb = lines.right_thumb;
    state.start = lines.start;
    state.back = lines.back;
}

/// A converter sample normalized over `[0, ADC_RAW_MAX]`.
fn read_adc_value(raw: u16, signed: bool) -> (r: AxisValue)
    ensures
        holds_sample(r, raw, signed),
{
    match normalize(raw, ADC_RAW_MAX, signed) {
        Ok(v) => v,
        Err(_) => AxisValue::zero(),
    }
}

/// Stores the normalized samples: sticks in `[-1, 1]`, triggers in `[0, 1]`;
/// the buttons are left as they were.
pub fn read_joystick_states(state: &mut ControllerState, samples: &AxisSamples)
    ensures
        same_buttons(*final(state), *old(state)),
        holds_sample(final(state).left_thumb_x, samples.left_thumb_x, true),
        holds_sample(final(state).left_thumb_y, samples.left_thumb_y, true),
        holds_sample(final(state).right_thumb_x, samples.right_thumb_x, true),
        holds_sample(final(state).right_thumb_y, samples.right_thumb_y, true),
        holds_sample(final(state).left_trigger, samples.left_trigger, false),
        holds_sample(final(state).right_trigger, samples.right_trigger, false),
{
    state.left_thumb_x = read_adc_value(samples.left_thumb_x, true);
    state.left_thumb_y = read_adc_value(samples.left_thumb_y, true);
    state.right_thumb_x = read_adc_value(samples.right_thumb_x, true);
    state.right_thumb_y = read_adc_value(samples.right_thumb_y, true);
    state.left_trigger = read_adc_value(samples.left_trigger, false);
    state.right_trigger = read_adc_value(samples.right_trigger, false);
}

/// One sampling step: the buttons first, then the axes.
pub fn sample_inputs(state: &mut ControllerState, lines: &ButtonLines, samples: &AxisSamples)
    ensures
        final(state).a == lines.a,
        final(state).b == lines.b,
        final(state).x == lines.x,
        final(state).y == lines.y,
        final(state).left_shoulder == lines.left_shoulder,
        final(state).right_shoulder == lines.right_shoulder,
        final(state).left_thumb == lines.left_thumb,
        final(state).right_thumb == lines.right_thumb,
        final(state).start == lines.start,
        final(state).back == lines.back,
        final(state).up == old(state).up,
        final(state).down == old(state).down,
        final(state).left == old(state).left,
        final(state).right == old(state).right,
        final(state).guide == old(state).guide,
        holds_sample(final(state).left_thumb_x, samples.left_thumb_x, true),
        holds_sample(final(state).left_thumb_y, samples.left_thumb_y, true),
        holds_sample(final(state).right_thumb_x, samples.right_thumb_x, true),
        holds_sample(final(state).right_thumb_y, samples.right_thumb_y, true),
        holds_sample(final(state).left_trigger, samples.left_trigger, false),
        holds_sample(final(state).right_trigger, samples.right_trigger, false),
{
    read_buttons_states(state, lines);
    let ghost mid = *state;
    read_joystick_states(state, samples);
    assert(state.button(ButtonId::A) == mid.button(ButtonId::A));
    assert(state.button(ButtonId::B) == mid.button(ButtonId::B));
    assert(state.button(ButtonId::X) == mid.button(ButtonId::X));
    assert(state.button(ButtonId::Y) == mid.button(ButtonId::Y));
    assert(state.button(ButtonId::LeftShoulder) == mid.button(ButtonId::LeftShoulder));
    assert(state.button(ButtonId::RightShoulder) == mid.button(ButtonId::RightShoulder));
    assert(state.button(ButtonId::LeftThumb) == mid.button(ButtonId::LeftThumb));
    assert(state.button(ButtonId::RightThumb) == mid.button(ButtonId::RightThumb));
    assert(state.button(ButtonId::Start) == mid.button(ButtonId::Start));
    assert(state.button(ButtonId::Back) == mid.button(ButtonId::Back));
    assert(state.button(ButtonId::Up) == mid.button(ButtonId::Up));
    assert(state.button(ButtonId::Down) == mid.button(ButtonId::Down));
    assert(state.button(ButtonId::Left) == mid.button(ButtonId::Left));
    assert(state.button(ButtonId::Right) == mid.button(ButtonId::Right));
    assert(state.button(ButtonId::Guide) == mid.button(ButtonId::Guide));
}

/// Light `i` of the stick mirror is on when `v / 2 + 1 / 2 > i / 7 + 1 / 100`,
/// that is `(num + den) * 700 > (100 * i + 7) * 2 * den` for `v = num / den`.
pub open spec fn debug_led_on(v: AxisValue, i: int) -> bool {
    (v.numer() + v.denom()) * 700 > (100 * i + 7) * 2 * v.denom()
}

/// The lights that mirror a stick position: a bar that grows from light 0 as
/// the stick moves from `-1` to `1`.
pub fn adc_debug_leds(v: &AxisValue) -> (r: [bool; 8])
    ensures
        forall|i: int| 0 <= i < 8 ==> r[i] == debug_led_on(*v, i),
{
    let num: i64 = v.num() as i64;
    let den: i64 = v.den() as i64;
    let lhs: i64 = (num + den) * 700;
    let mut r = [false; 8];
    let mut i: usize = 0;
    while i < DEBUG_LED_COUNT
        invariant
            i <= 8,
            num == v.numer(),
            den == v.denom(),
            0 < den <= 65535,
            lhs == (num + den) * 700,
            forall|j: int| 0 <= j < i ==> r[j] == debug_led_on(*v, j),
        decreases 8 - i,
    {
        let k: i64 = (100 * (i as i64) + 7) * 2;
        assert(k * den <= 1414 * 65535) by (nonlinear_arith)
            requires
                0 <= k <= 1414,
                0 < den <= 65535,
        ;
        let threshold: i64 = k * den;
        r[i] = lhs > threshold;
        i = i + 1;
    }
    r
}

} // verus!
