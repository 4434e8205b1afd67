//! The logical snapshot of every button and axis at one sampling instant.
use crate::axis::AxisValue;
use crate::text::{
    decimal_digits, digit, digit_char, empty_record, is_ascii, lemma_ascii_concat, lemma_decimal_digits,
    push_char, push_decimal, record_chars,
};
use vstd::prelude::*;

verus! {

/// One boolean input of the controller.
#[derive(Clone, Copy, Debug, PartialEq, Eq, Structural)]
pub enum ButtonId {
    Up,
    Down,
    Left,
    Right,
    Start,
    Back,
    LeftThumb,
    RightThumb,
    LeftShoulder,
    RightShoulder,
    Guide,
    A,
    B,
    X,
    Y,
}

/// Every button and axis of the controller at one sampling instant.
///
/// Sticks are meant to lie in `[-1, 1]` and triggers in `[0, 1]`; the report
/// encoders clamp whatever lies outside.
#[derive(Clone, Copy, Debug)]
pub struct ControllerState {
    pub up: bool,
    pub down: bool,
    pub left: bool,
    pub right: bool,
    pub start: bool,
    pub back: bool,
    pub left_thumb: bool,
    pub right_thumb: bool,
    pub left_shoulder: bool,
    pub right_shoulder: bool,
    pub guide: bool,
    pub a: bool,
    pub b: bool,
    pub x: bool,
    pub y: bool,
    pub left_thumb_x: AxisValue,
    pub left_thumb_y: AxisValue,
    pub right_thumb_x: AxisValue,
    pub right_thumb_y: AxisValue,
    pub left_trigger: AxisValue,
    pub right_trigger: AxisValue,
}

/// The axis is at its rest position `0 / 1`.
pub open spec fn axis_at_rest(v: AxisValue) -> bool {
    v.numer() == 0 && v.denom() == 1
}

impl ControllerState {
    /// Whether the button `id` is pressed.
    pub open spec fn button(self, id: ButtonId) -> bool {
        match id {
            ButtonId::Up => self.up,
            ButtonId::Down => self.down,
            ButtonId::Left => self.left,
            ButtonId::Right => self.right,
            ButtonId::Start => self.start,
            ButtonId::Back => self.back,
            ButtonId::LeftThumb => self.left_thumb,
            ButtonId::RightThumb => self.right_thumb,
            ButtonId::LeftShoulder => self.left_shoulder,
            ButtonId::RightShoulder => self.right_shoulder,
            ButtonId::Guide => self.guide,
            ButtonId::A => self.a,
            ButtonId::B => self.b,
            ButtonId::X => self.x,
            ButtonId::Y => self.y,
        }
    }

    /// This state with the button `id` set to `pressed`, everything else kept.
    pub open spec fn with_button(self, id: ButtonId, pressed: bool) -> ControllerState {
        match id {
            ButtonId::Up => ControllerState { up: pressed, ..self },
            ButtonId::Down => ControllerState { down: pressed, ..self },
            ButtonId::Left => ControllerState { left: pressed, ..self },
            ButtonId::Right => ControllerState { right: pressed, ..self },
            ButtonId::Start => ControllerState { start: pressed, ..self },
            ButtonId::Back => ControllerState { back: pressed, ..self },
            ButtonId::LeftThumb => ControllerState { left_thumb: pressed, ..self },
            ButtonId::RightThumb => ControllerState { right_thumb: pressed, ..self },
            ButtonId::LeftShoulder => ControllerState { left_shoulder: pressed, ..self },
            ButtonId::RightShoulder => ControllerState { right_shoulder: pressed, ..self },
            ButtonId::Guide => ControllerState { guide: pressed, ..self },
            ButtonId::A => ControllerState { a: pressed, ..self },
            ButtonId::B => ControllerState { b: pressed, ..self },
            ButtonId::X => ControllerState { x: pressed, ..self },
            ButtonId::Y => ControllerState { y: pressed, ..self },
        }
    }

    /// The pressed state of each button of `order`, in that order.
    pub open spec fn flags_of(self, order: Seq<ButtonId>) -> Seq<bool> {
        Seq::new(order.len(), |i: int| self.button(order[i]))
    }

    /// Setting one button leaves every other button as it was.
    pub proof fn lemma_with_button(self, id: ButtonId, pressed: bool, other: ButtonId)
        ensures
            self.with_button(id, pressed).button(other) == if other == id {
                pressed
            } else {
                self.button(other)
            },
    {
        match id {
            ButtonId::Up => {},
            ButtonId::Down => {},
            ButtonId::Left => {},
            ButtonId::Right => {},
            ButtonId::Start => {},
            ButtonId::Back => {},
            ButtonId::LeftThumb => {},
            ButtonId::RightThumb => {},
            ButtonId::LeftShoulder => {},
            ButtonId::RightShoulder => {},
            ButtonId::Guide => {},
            ButtonId::A => {},
            ButtonId::B => {},
            ButtonId::X => {},
            ButtonId::Y => {},
        }
    }

    /// Setting a button leaves every axis as it was.
    pub proof fn lemma_with_button_axes(self, id: ButtonId, pressed: bool)
        ensures
            self.with_button(id, pressed).left_thumb_x == self.left_thumb_x,
            self.with_button(id, pressed).left_thumb_y == self.left_thumb_y,
            self.with_button(id, pressed).right_thumb_x == self.right_thumb_x,
            self.with_button(id, pressed).right_thumb_y == self.right_thumb_y,
            self.with_button(id, pressed).left_trigger == self.left_trigger,
            self.with_button(id, pressed).right_trigger == self.right_trigger,
    {
        match id {
            ButtonId::Up => {},
            ButtonId::Down => {},
            ButtonId::Left => {},
            ButtonId::Right => {},
            ButtonId::Start => {},
            ButtonId::Back => {},
            ButtonId::LeftThumb => {},
            ButtonId::RightThumb => {},
            ButtonId::LeftShoulder => {},
            ButtonId::RightShoulder => {},
            ButtonId::Guide => {},
            ButtonId::A => {},
            ButtonId::B => {},
            ButtonId::X => {},
            ButtonId::Y => {},
        }
    }

    /// Toggling the button at index `k` of an order without repeats flips flag `k`
    /// of that order and no other.
    pub proof fn lemma_toggle_flags(self, order: Seq<ButtonId>, k: int)
        requires
            order.no_duplicates(),
            0 <= k < order.len(),
        ensures
            self.with_button(order[k], !self.button(order[k])).flags_of(order) =~= self.flags_of(
                order,
            ).update(k, !self.flags_of(order)[k]),
    {
        let id = order[k];
        let t = self.with_button(id, !self.button(id));
        assert forall|j: int| 0 <= j < order.len() implies #[trigger] t.flags_of(order)[j] == self.flags_of(
            order,
        ).update(k, !self.flags_of(order)[k])[j] by {
            self.lemma_with_button(id, !self.button(id), order[j]);
        }
    }

    /// No button pressed and every axis at rest.
    pub open spec fn is_rest(self) -> bool {
        &&& !self.up && !self.down && !self.left && !self.right
        &&& !self.start && !self.back && !self.left_thumb && !self.right_thumb
        &&& !self.left_shoulder && !self.right_shoulder && !self.guide
        &&& !self.a && !self.b && !self.x && !self.y
        &&& axis_at_rest(self.left_thumb_x) && axis_at_rest(self.left_thumb_y)
        &&& axis_at_rest(self.right_thumb_x) && axis_at_rest(self.right_thumb_y)
        &&& axis_at_rest(self.left_trigger) && axis_at_rest(self.right_trigger)
    }

    /// The rest state: no button pressed, every axis at `0`.
    pub fn new() -> (r: ControllerState)
        ensures
            r.is_rest(),
    {
        ControllerState {
            up: false,
            down: false,
            left: false,
            right: false,
            start: false,
            back: false,
            left_thumb: false,
            right_thumb: false,
            left_shoulder: false,
            right_shoulder: false,
            guide: false,
            a: false,
            b: false,
            x: false,
            y: false,
            left_thumb_x: AxisValue::zero(),
            left_thumb_y: AxisValue::zero(),
            right_thumb_x: AxisValue::zero(),
            right_thumb_y: AxisValue::zero(),
            left_trigger: AxisValue::zero(),
            right_trigger: AxisValue::zero(),
        }
    }

    /// Whether the button `id` is pressed.
    pub fn pressed(&self, id: ButtonId) -> (r: bool)
        ensures
            r == self.button(id),
    {
        match id {
            ButtonId::Up => self.up,
            ButtonId::Down => self.down,
            ButtonId::Left => self.left,
            ButtonId::Right => self.right,
            ButtonId::Start => self.start,
            ButtonId::Back => self.back,
            ButtonId::LeftThumb => self.left_thumb,
            ButtonId::RightThumb => self.right_thumb,
            ButtonId::LeftShoulder => self.left_shoulder,
            ButtonId::RightShoulder => self.right_shoulder,
            ButtonId::Guide => self.guide,
            ButtonId::A => self.a,
            ButtonId::B => self.b,
            ButtonId::X => self.x,
            ButtonId::Y => self.y,
        }
    }

    /// Sets the button `id` to `pressed` and leaves every other field as it was.
    pub fn set_button(&mut self, id: ButtonId, pressed: bool)
        ensures
            *final(self) == old(self).with_button(id, pressed),
    {
        let s = *self;
        *self = match id {
            ButtonId::Up => ControllerState { up: pressed, ..s },
            ButtonId::Down => ControllerState { down: pressed, ..s },
            ButtonId::Left => ControllerState { left: pressed, ..s },
            ButtonId::Right => ControllerState { right: pressed, ..s },
            ButtonId::Start => ControllerState { start: pressed, ..s },
            ButtonId::Back => ControllerState { back: pressed, ..s },
            ButtonId::LeftThumb => ControllerState { left_thumb: pressed, ..s },
            ButtonId::RightThumb => ControllerState { right_thumb: pressed, ..s },
            ButtonId::LeftShoulder => ControllerState { left_shoulder: pressed, ..s },
            ButtonId::RightShoulder => ControllerState { right_shoulder: pressed, ..s },
            ButtonId::Guide => ControllerState { guide: pressed, ..s },
            ButtonId::A => ControllerState { a: pressed, ..s },
            ButtonId::B => ControllerState { b: pressed, ..s },
            ButtonId::X => ControllerState { x: pressed, ..s },
            ButtonId::Y => ControllerState { y: pressed, ..s },
        };
    }
}

/// `0` or `1` for a button.
pub open spec fn flag_char(b: bool) -> char {
    if b {
        '1'
    } else {
        '0'
    }
}

/// Thousandths of the axis value, truncated toward zero.
pub open spec fn milli_units(v: AxisValue) -> int {
    if v.numer() >= 0 {
        v.numer() * 1000 / v.denom()
    } else {
        -((-v.numer() * 1000) / v.denom())
    }
}

/// The fraction part `f / 1000` (`0 <= f < 1000`) in shortest form: a point and
/// up to three digits without trailing zeros, or nothing when `f` is `0`.
pub open spec fn fraction_text(f: int) -> Seq<char> {
    if f == 0 {
        Seq::<char>::empty()
    } else if f % 100 == 0 {
        seq!['.', digit_char(f / 100)]
    } else if f % 10 == 0 {
        seq!['.', digit_char(f / 100), digit_char(f / 10 % 10)]
    } else {
        seq!['.', digit_char(f / 100), digit_char(f / 10 % 10), digit_char(f % 10)]
    }
}

/// Decimal text of `m / 1000` in shortest form, such as `0`, `-1` or `-0.5`.
pub open spec fn fixed3_text(m: int) -> Seq<char> {
    let a = if m < 0 {
        -m
    } else {
        m
    };
    (if m < 0 {
        seq!['-']
    } else {
        Seq::<char>::empty()
    }) + decimal_digits((a / 1000) as nat) + fraction_text(a % 1000)
}

/// Decimal text of an axis value, truncated to the thousandth, without trailing
/// zeros and without a point when nothing follows it.
pub open spec fn axis_text(v: AxisValue) -> Seq<char> {
    fixed3_text(milli_units(v))
}

/// Button `i` in field order: up, down, left, right, start, back, left thumb,
/// right thumb, left shoulder, right shoulder, guide, a, b, x, y.
pub open spec fn field_order_at(i: int) -> ButtonId {
    if i == 0 {
        ButtonId::Up
    } else if i == 1 {
        ButtonId::Down
    } else if i == 2 {
        ButtonId::Left
    } else if i == 3 {
        ButtonId::Right
    } else if i == 4 {
        ButtonId::Start
    } else if i == 5 {
        ButtonId::Back
    } else if i == 6 {
        ButtonId::LeftThumb
    } else if i == 7 {
        ButtonId::RightThumb
    } else if i == 8 {
        ButtonId::LeftShoulder
    } else if i == 9 {
        ButtonId::RightShoulder
    } else if i == 10 {
        ButtonId::Guide
    } else if i == 11 {
        ButtonId::A
    } else if i == 12 {
        ButtonId::B
    } else if i == 13 {
        ButtonId::X
    } else {
        ButtonId::Y
    }
}

/// The first `n` buttons in field order as `0` or `1`, each followed by a comma.
pub open spec fn buttons_prefix(s: ControllerState, n: nat) -> Seq<char>
    decreases n,
{
    if n == 0 {
        Seq::<char>::empty()
    } else {
        buttons_prefix(s, (n - 1) as nat).push(flag_char(s.button(field_order_at(n - 1)))).push(',')
    }
}

/// The fifteen buttons of a state in field order as `0` or `1`, each followed by
/// a comma.
pub open spec fn buttons_record(s: ControllerState) -> Seq<char> {
    buttons_prefix(s, 15)
}

/// The diagnostic record of a state: the fifteen buttons as `0` or `1`, each
/// followed by a comma, then the six axes as decimals separated by commas, then
/// a newline.
pub open spec fn diagnostic_record(s: ControllerState) -> Seq<char> {
    buttons_record(s) + axis_text(s.left_thumb_x) + seq![','] + axis_text(
        s.left_thumb_y,
    ) + seq![','] + axis_text(s.right_thumb_x) + seq![','] + axis_text(s.right_thumb_y) + seq![',']
        + axis_text(s.left_trigger) + seq![','] + axis_text(s.right_trigger) + seq!['\n']
}

/// The text of an axis is ASCII and at most 15 characters long.
pub proof fn lemma_axis_text(v: AxisValue)
    requires
        v.denom() > 0,
    ensures
        is_ascii(axis_text(v)),
        axis_text(v).len() <= 15,
{
    v.lemma_ranges();
    let m = milli_units(v);
    let a = if m < 0 {
        -m
    } else {
        m
    };
    assert(-0x8000_0000 * 1000 <= m <= 0x8000_0000 * 1000) by (nonlinear_arith)
        requires
            m == milli_units(v),
            v.denom() > 0,
            -0x8000_0000 <= v.numer() < 0x8000_0000,
    ;
    lemma_decimal_digits((a / 1000) as nat);
    let sign = if m < 0 {
        seq!['-']
    } else {
        Seq::<char>::empty()
    };
    let tail = fraction_text(a % 1000);
    assert(is_ascii(sign)) by {
        reveal(is_ascii);
    }
    assert(is_ascii(tail)) by {
        reveal(is_ascii);
    }
    lemma_ascii_concat(sign, decimal_digits((a / 1000) as nat));
    lemma_ascii_concat(sign + decimal_digits((a / 1000) as nat), tail);
}

impl ControllerState {
    /// The diagnostic record of this state, newline-terminated, in at most 300
    /// bytes; the record always fits.
    pub fn to_string(&self) -> (r: heapless::String<300>)
        ensures
            record_chars(r) == diagnostic_record(*self),
    {
        let mut s = empty_record();
        self.add_buttons(&mut s);
        Self::add_number(&mut s, &self.left_thumb_x);
        Self::add_coma(&mut s);
        Self::add_number(&mut s, &self.left_thumb_y);
        Self::add_coma(&mut s);
        Self::add_number(&mut s, &self.right_thumb_x);
        Self::add_coma(&mut s);
        Self::add_number(&mut s, &self.right_thumb_y);
        Self::add_coma(&mut s);
        Self::add_number(&mut s, &self.left_trigger);
        Self::add_coma(&mut s);
        Self::add_number(&mut s, &self.right_trigger);
        push_char(&mut s, '\n');
        proof {
            let r = record_chars(s);
            assert(r =~= diagnostic_record(*self));
        }
        s
    }

    fn add_buttons(&self, s: &mut heapless::String<300>)
        requires
            record_chars(*old(s)) == Seq::<char>::empty(),
        ensures
            record_chars(*final(s)) == buttons_record(*self),
            record_chars(*final(s)).len() == 30,
            is_ascii(record_chars(*final(s))),
    {
        proof {
            reveal(is_ascii);
        }
        let mut i: usize = 0;
        while i < 15
            invariant
                i <= 15,
                record_chars(*s) == buttons_prefix(*self, i as nat),
                record_chars(*s).len() == 2 * i,
                is_ascii(record_chars(*s)),
            decreases 15 - i,
        {
            let id = field_order_id(i);
            Self::add_bool(s, self.pressed(id));
            Self::add_coma(s);
            i = i + 1;
        }
    }

    fn add_bool(s: &mut heapless::String<300>, value: bool)
        requires
            is_ascii(record_chars(*old(s))),
        ensures
            record_chars(*old(s)).len() < 300 ==> record_chars(*final(s)) == record_chars(*old(s)).push(
                flag_char(value),
            ),
            record_chars(*old(s)).len() >= 300 ==> record_chars(*final(s)) == record_chars(*old(s)),
            is_ascii(record_chars(*final(s))),
    {
        if value {
            push_char(s, '1');
        } else {
            push_char(s, '0');
        }
    }

    fn add_coma(s: &mut heapless::String<300>)
        requires
            is_ascii(record_chars(*old(s))),
        ensures
            record_chars(*old(s)).len() < 300 ==> record_chars(*final(s)) == record_chars(*old(s)).push(','),
            record_chars(*old(s)).len() >= 300 ==> record_chars(*final(s)) == record_chars(*old(s)),
            is_ascii(record_chars(*final(s))),
    {
        push_char(s, ',');
    }

    fn add_number(s: &mut heapless::String<300>, value: &AxisValue)
        requires
            is_ascii(record_chars(*old(s))),
            record_chars(*old(s)).len() + 15 <= 300,
        ensures
            record_chars(*final(s)) == record_chars(*old(s)) + axis_text(*value),
            record_chars(*final(s)).len() <= record_chars(*old(s)).len() + 15,
            is_ascii(record_chars(*final(s))),
    {
        let num: i64 = value.num() as i64;
        let den: i64 = value.den() as i64;
        let m: i64 = if num >= 0 {
            num * 1000 / den
        } else {
            -((-num * 1000) / den)
        };
        proof {
            lemma_axis_text(*value);
            assert(m == milli_units(*value));
        }
        let a: u64 = if m < 0 {
            (-m) as u64
        } else {
            m as u64
        };
        let ghost start = record_chars(*s);
        if m < 0 {
            push_char(s, '-');
        }
        proof {
            lemma_decimal_digits((a / 1000) as nat);
        }
        push_decimal(s, a / 1000);
        let f: u64 = a % 1000;
        if f != 0 {
            push_char(s, '.');
            push_char(s, digit(f / 100));
            if f % 100 != 0 {
                push_char(s, digit(f / 10 % 10));
                if f % 10 != 0 {
                    push_char(s, digit(f % 10));
                }
            }
        }
        proof {
            assert(record_chars(*s) =~= start + axis_text(*value));
        }
    }
}

/// Button `i` in field order.
pub fn field_order_id(i: usize) -> (r: ButtonId)
    requires
        i < 15,
    ensures
        r == field_order_at(i as int),
{
    match i {
            0 => ButtonId::Up,
            1 => ButtonId::Down,
            2 => ButtonId::Left,
            3 => ButtonId::Right,
            4 => ButtonId::Start,
            5 => ButtonId::Back,
            6 => ButtonId::LeftThumb,
            7 => ButtonId::RightThumb,
            8 => ButtonId::LeftShoulder,
            9 => ButtonId::RightShoulder,
            10 => ButtonId::Guide,
            11 => ButtonId::A,
            12 => ButtonId::B,
            13 => ButtonId::X,
            _ => ButtonId::Y,
    }
}

impl Default for ControllerState {
    fn default() -> (r: ControllerState)
        ensures
            r.is_rest(),
    {
        ControllerState::new()
    }
}

} // verus!
