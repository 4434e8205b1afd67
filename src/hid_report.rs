//! The 8-byte joystick layout: six signed 8-bit axes and sixteen buttons.
use crate::axis::{signed_scaled, AxisValue};
use crate::bits::{
    flags_word, high_byte, lemma_flags_word_bits, lemma_report_bit_of_word, lemma_word_at_bytes,
    lemma_word_ext_forall, low_byte, report_bit, word_at, word_bit,
};
use crate::axis::lemma_signed_scaled_on_grid;
use crate::controller::{ButtonId, ControllerState};
use crate::layout::{button_word, set_buttons_from_word, ReportLayout};
use crate::descriptor::{
    declared_input_bits, input_bits_from, item_value, lemma_known_prefixes, matches_report_len, pow256,
};
use vstd::prelude::*;

verus! {

/// Logical maximum of the signed 8-bit axes (the minimum is its negation).
pub const AXIS_I8_MAX: u16 = 127;

/// The bytes of the descriptor, in order.
pub open spec fn xbox_descriptor_bytes() -> Seq<u8> {
    seq![
        0x05u8,
        0x01u8,
        0x09u8,
        0x04u8,
        0xa1u8,
        0x01u8,
        0x09u8,
        0x01u8,
        0xa1u8,
        0x00u8,
        0x09u8,
        0x30u8,
        0x09u8,
        0x31u8,
        0x09u8,
        0x32u8,
        0x09u8,
        0x33u8,
        0x09u8,
        0x34u8,
        0x09u8,
        0x35u8,
        0x15u8,
        0x81u8,
        0x25u8,
        0x7fu8,
        0x75u8,
        0x08u8,
        0x95u8,
        0x06u8,
        0x81u8,
        0x02u8,
        0xc0u8,
        0x05u8,
        0x09u8,
        0x19u8,
        0x01u8,
        0x29u8,
        0x10u8,
        0x15u8,
        0x00u8,
        0x25u8,
        0x01u8,
        0x75u8,
        0x01u8,
        0x95u8,
        0x10u8,
        0x81u8,
        0x02u8,
        0xc0u8,
    ]
}

/// HID report descriptor of the joystick layout.
///
/// Six axes X, Y, Z, Rx, Ry, Rz of 8 bits in `[-127, 127]`, then sixteen
/// one-bit buttons; 64 input bits in all.
pub fn xbox_joystick_descriptor() -> (r: [u8; 50])
    ensures
        r@ == xbox_descriptor_bytes(),
{
    let r = [
        0x05, 0x01, // Usage Page (Generic Desktop)
        0x09, 0x04, // Usage (Joystick)
        0xa1, 0x01, // Collection (Application)
        0x09, 0x01, //   Usage (Pointer)
        0xa1, 0x00, //   Collection (Physical)
        0x09, 0x30, //     Usage (X)
        0x09, 0x31, //     Usage (Y)
        0x09, 0x32, //     Usage (Z)
        0x09, 0x33, //     Usage (Rx)
        0x09, 0x34, //     Usage (Ry)
        0x09, 0x35, //     Usage (Rz)
        0x15, 0x81, //     Logical Minimum (-127)
        0x25, 0x7f, //     Logical Maximum (127)
        0x75, 0x08, //     Report Size (8)
        0x95, 0x06, //     Report Count (6)
        0x81, 0x02, //     Input (Data, Variable, Absolute)
        0xc0, //   End Collection
        0x05, 0x09, //   Usage Page (Button)
        0x19, 0x01, //   Usage Minimum (1)
        0x29, 0x10, //   Usage Maximum (16)
        0x15, 0x00, //   Logical Minimum (0)
        0x25, 0x01, //   Logical Maximum (1)
        0x75, 0x01, //   Report Size (1)
        0x95, 0x10, //   Report Count (16)
        0x81, 0x02, //   Input (Data, Variable, Absolute)
        0xc0, // End Collection
    ];
    assert(r@ =~= xbox_descriptor_bytes());
    r
}

/// Declared button order: button `i` of the order is HID button `i + 1`, at bit
/// `i` of the button word.
pub open spec fn xbox_button_at(i: int) -> ButtonId {
    if i == 0 {
        ButtonId::A
    } else if i == 1 {
        ButtonId::B
    } else if i == 2 {
        ButtonId::X
    } else if i == 3 {
        ButtonId::Y
    } else if i == 4 {
        ButtonId::LeftShoulder
    } else if i == 5 {
        ButtonId::RightShoulder
    } else if i == 6 {
        ButtonId::Up
    } else if i == 7 {
        ButtonId::Down
    } else if i == 8 {
        ButtonId::Right
    } else if i == 9 {
        ButtonId::Left
    } else if i == 10 {
        ButtonId::Start
    } else if i == 11 {
        ButtonId::Back
    } else if i == 12 {
        ButtonId::LeftThumb
    } else if i == 13 {
        ButtonId::RightThumb
    } else {
        ButtonId::Guide
    }
}

/// Report bit that carries the button `id`: the button word starts at byte 6.
pub open spec fn xbox_button_bit(id: ButtonId) -> int {
    48 + match id {
        ButtonId::A => 0int,
        ButtonId::B => 1,
        ButtonId::X => 2,
        ButtonId::Y => 3,
        ButtonId::LeftShoulder => 4,
        ButtonId::RightShoulder => 5,
        ButtonId::Up => 6,
        ButtonId::Down => 7,
        ButtonId::Right => 8,
        ButtonId::Left => 9,
        ButtonId::Start => 10,
        ButtonId::Back => 11,
        ButtonId::LeftThumb => 12,
        ButtonId::RightThumb => 13,
        ButtonId::Guide => 14,
    }
}

/// The joystick report before packing.
#[derive(Clone, Copy, Debug, PartialEq, Eq, Structural)]
pub struct XboxJoystickReport {
    pub x: i8,
    pub y: i8,
    pub z: i8,
    pub rx: i8,
    pub ry: i8,
    pub rz: i8,
    pub buttons: u16,
}

impl XboxJoystickReport {
    /// Wire bytes: the six axes in order, then the button word little-endian.
    pub open spec fn packed(self) -> Seq<u8> {
        seq![
            self.x as u8,
            self.y as u8,
            self.z as u8,
            self.rx as u8,
            self.ry as u8,
            self.rz as u8,
            low_byte(self.buttons),
            high_byte(self.buttons),
        ]
    }

    /// The wire bytes of this report.
    pub fn pack(&self) -> (r: [u8; 8])
        ensures
            r@ == self.packed(),
    {
        let r = [
            self.x as u8,
            self.y as u8,
            self.z as u8,
            self.rx as u8,
            self.ry as u8,
            self.rz as u8,
            (self.buttons & 0xff) as u8,
            (self.buttons >> 8) as u8,
        ];
        assert(r@ =~= self.packed());
        r
    }
}

/// The signed 8-bit field of an axis.
pub open spec fn axis_byte(v: AxisValue) -> i8 {
    signed_scaled(v.numer(), v.denom(), AXIS_I8_MAX as int) as i8
}

/// The joystick report of a state: each axis `round(v * 127)` clamped to
/// `[-127, 127]`, each button at its declared bit.
pub open spec fn xbox_report_of(s: ControllerState) -> XboxJoystickReport {
    XboxJoystickReport {
        x: axis_byte(s.left_thumb_x),
        y: axis_byte(s.left_thumb_y),
        z: axis_byte(s.right_thumb_x),
        rx: axis_byte(s.right_thumb_y),
        ry: axis_byte(s.left_trigger),
        rz: axis_byte(s.right_trigger),
        buttons: flags_word(s.flags_of(ReportLayout::Joystick.button_order())),
    }
}

/// The joystick report of `state`.
pub fn get_report(state: &ControllerState) -> (r: XboxJoystickReport)
    ensures
        r == xbox_report_of(*state),
{
    let buttons = button_word(state, ReportLayout::Joystick);
    XboxJoystickReport {
        x: state.left_thumb_x.to_signed_field(AXIS_I8_MAX) as i8,
        y: state.left_thumb_y.to_signed_field(AXIS_I8_MAX) as i8,
        z: state.right_thumb_x.to_signed_field(AXIS_I8_MAX) as i8,
        rx: state.right_thumb_y.to_signed_field(AXIS_I8_MAX) as i8,
        ry: state.left_trigger.to_signed_field(AXIS_I8_MAX) as i8,
        rz: state.right_trigger.to_signed_field(AXIS_I8_MAX) as i8,
        buttons,
    }
}

/// The 8 wire bytes of `state` under the joystick layout.
pub fn encode_xbox(state: &ControllerState) -> (r: [u8; 8])
    ensures
        r@ == xbox_report_of(*state).packed(),
{
    get_report(state).pack()
}

/// `s` is the state read back from the joystick report `bytes`: each axis is
/// its byte over `127`, each button its declared bit.
pub open spec fn xbox_decodes_to(bytes: Seq<u8>, s: ControllerState) -> bool {
    &&& s.left_thumb_x.numer() == bytes[0] as i8 && s.left_thumb_x.denom() == 127
    &&& s.left_thumb_y.numer() == bytes[1] as i8 && s.left_thumb_y.denom() == 127
    &&& s.right_thumb_x.numer() == bytes[2] as i8 && s.right_thumb_x.denom() == 127
    &&& s.right_thumb_y.numer() == bytes[3] as i8 && s.right_thumb_y.denom() == 127
    &&& s.left_trigger.numer() == bytes[4] as i8 && s.left_trigger.denom() == 127
    &&& s.right_trigger.numer() == bytes[5] as i8 && s.right_trigger.denom() == 127
    &&& forall|i: int| 0 <= i < 15 ==> #[trigger] s.button(xbox_button_at(i)) == report_bit(bytes, 48 + i)
}

/// Reads a joystick report back into a state (the inverse of [`encode_xbox`]).
pub fn decode_xbox(bytes: &[u8; 8]) -> (r: ControllerState)
    ensures
        xbox_decodes_to(bytes@, r),
{
    let mut s = ControllerState::new();
    s.left_thumb_x = AxisValue::ratio((#[verifier::truncate] (bytes[0] as i8)) as i32, AXIS_I8_MAX);
    s.left_thumb_y = AxisValue::ratio((#[verifier::truncate] (bytes[1] as i8)) as i32, AXIS_I8_MAX);
    s.right_thumb_x = AxisValue::ratio((#[verifier::truncate] (bytes[2] as i8)) as i32, AXIS_I8_MAX);
    s.right_thumb_y = AxisValue::ratio((#[verifier::truncate] (bytes[3] as i8)) as i32, AXIS_I8_MAX);
    s.left_trigger = AxisValue::ratio((#[verifier::truncate] (bytes[4] as i8)) as i32, AXIS_I8_MAX);
    s.right_trigger = AxisValue::ratio((#[verifier::truncate] (bytes[5] as i8)) as i32, AXIS_I8_MAX);
    let word: u16 = (bytes[6] as u16) | ((bytes[7] as u16) << 8);
    set_buttons_from_word(&mut s, ReportLayout::Joystick, word);
    proof {
        assert(word == word_at(bytes@, 6));
        assert forall|j: int| 0 <= j < 15 implies #[trigger] s.button(xbox_button_at(j)) == report_bit(bytes@, 48 + j) by {
            lemma_report_bit_of_word(bytes@, 6, j as u16);
            assert(s.button(ReportLayout::Joystick.button_at(j)) == word_bit(word, j as u16));
        }
    }
    s
}

/// Encoding is a function of the state alone: two encodings of one unchanged
/// state are byte-identical.
pub proof fn lemma_xbox_encode_deterministic(s1: ControllerState, s2: ControllerState)
    requires
        s1 == s2,
    ensures
        xbox_report_of(s1).packed() == xbox_report_of(s2).packed(),
{
}

/// Decoding a joystick report whose axes lie in the declared range `[-127, 127]`
/// and whose unused sixteenth button is clear, then encoding the result, gives
/// back the original bytes.
pub proof fn lemma_xbox_round_trip(bytes: Seq<u8>, s: ControllerState)
    requires
        bytes.len() == 8,
        forall|k: int| 0 <= k < 6 ==> bytes[k] != 0x80,
        !report_bit(bytes, 63),
        xbox_decodes_to(bytes, s),
    ensures
        xbox_report_of(s).packed() == bytes,
{
    let r = xbox_report_of(s);
    assert forall|k: int| 0 <= k < 6 implies -127 <= #[trigger] (bytes[k] as i8) <= 127 && (bytes[k] as i8) as u8
        == bytes[k] by {
        let b = bytes[k];
        assert(b != 0x80 ==> -127 <= (b as i8) <= 127 && (b as i8) as u8 == b) by (bit_vector);
    }
    lemma_signed_scaled_on_grid(bytes[0] as i8 as int, 127);
    lemma_signed_scaled_on_grid(bytes[1] as i8 as int, 127);
    lemma_signed_scaled_on_grid(bytes[2] as i8 as int, 127);
    lemma_signed_scaled_on_grid(bytes[3] as i8 as int, 127);
    lemma_signed_scaled_on_grid(bytes[4] as i8 as int, 127);
    lemma_signed_scaled_on_grid(bytes[5] as i8 as int, 127);
    let flags = s.flags_of(ReportLayout::Joystick.button_order());
    lemma_flags_word_bits(flags);
    let w = word_at(bytes, 6);
    assert forall|i: u16| i < 16 implies #[trigger] word_bit(r.buttons, i) == word_bit(w, i) by {
        lemma_report_bit_of_word(bytes, 6, i);
        if i < 15 {
            assert(s.button(xbox_button_at(i as int)) == report_bit(bytes, 48 + i));
        }
    }
    lemma_word_ext_forall(r.buttons, w);
    lemma_report_bit_of_word(bytes, 6, 0);
    assert(r.packed() =~= bytes);
}

/// Toggling exactly one button changes exactly one bit of the joystick report:
/// the bit that the descriptor declares for that button.
#[verifier::rlimit(40)]
pub proof fn lemma_xbox_single_button(s: ControllerState, id: ButtonId)
    ensures
        forall|p: int|
            0 <= p < 64 ==> (report_bit(xbox_report_of(s).packed(), p) != report_bit(
                xbox_report_of(s.with_button(id, !s.button(id))).packed(),
                p,
            ) <==> p == xbox_button_bit(id)),
{
    let order = ReportLayout::Joystick.button_order();
    let k = xbox_button_bit(id) - 48;
    assert(order[k] == id);
    ReportLayout::Joystick.lemma_order_distinct();
    s.lemma_toggle_flags(order, k);
    let t = s.with_button(id, !s.button(id));
    s.lemma_with_button_axes(id, !s.button(id));
    let f1 = s.flags_of(order);
    let f2 = t.flags_of(order);
    lemma_flags_word_bits(f1);
    lemma_flags_word_bits(f2);
    let r1 = xbox_report_of(s);
    let r2 = xbox_report_of(t);
    let b1 = r1.packed();
    let b2 = r2.packed();
    lemma_word_at_bytes(b1, 6, r1.buttons);
    lemma_word_at_bytes(b2, 6, r2.buttons);
    assert forall|p: int| 0 <= p < 64 implies (report_bit(b1, p) != report_bit(b2, p) <==> p
        == xbox_button_bit(id)) by {
        if p < 48 {
            assert(b1[p / 8] == b2[p / 8]);
        } else {
            let i = (p - 48) as u16;
            lemma_report_bit_of_word(b1, 6, i);
            lemma_report_bit_of_word(b2, 6, i);
            assert(word_bit(r1.buttons, i) == (i < 15 && f1[i as int]));
            assert(word_bit(r2.buttons, i) == (i < 15 && f2[i as int]));
        }
    }
}

/// The joystick descriptor declares 64 input bits: exactly the 8 bytes that
/// the encoder writes.
pub proof fn lemma_xbox_descriptor_matches_report()
    ensures
        declared_input_bits(xbox_descriptor_bytes()) == Some(64int),
        matches_report_len(xbox_descriptor_bytes(), 8),
{
    let d = xbox_descriptor_bytes();
    reveal_with_fuel(item_value, 2);
    reveal_with_fuel(pow256, 1);
    lemma_known_prefixes();
    assert(d.len() == 50);
    assert(input_bits_from(d, 50, 1, 16, 64) == Some(64int));
    assert(input_bits_from(d, 49, 1, 16, 64) == Some(64int));
    assert(input_bits_from(d, 47, 1, 16, 48) == Some(64int));
    assert(input_bits_from(d, 45, 1, 6, 48) == Some(64int));
    assert(input_bits_from(d, 43, 8, 6, 48) == Some(64int));
    assert(input_bits_from(d, 41, 8, 6, 48) == Some(64int));
    assert(input_bits_from(d, 39, 8, 6, 48) == Some(64int));
    assert(input_bits_from(d, 37, 8, 6, 48) == Some(64int));
    assert(input_bits_from(d, 35, 8, 6, 48) == Some(64int));
    assert(input_bits_from(d, 33, 8, 6, 48) == Some(64int));
    assert(input_bits_from(d, 32, 8, 6, 48) == Some(64int));
    assert(input_bits_from(d, 30, 8, 6, 0) == Some(64int));
    assert(input_bits_from(d, 28, 8, 0, 0) == Some(64int));
    assert(input_bits_from(d, 26, 0, 0, 0) == Some(64int));
    assert(input_bits_from(d, 24, 0, 0, 0) == Some(64int));
    assert(input_bits_from(d, 22, 0, 0, 0) == Some(64int));
    assert(input_bits_from(d, 20, 0, 0, 0) == Some(64int));
    assert(input_bits_from(d, 18, 0, 0, 0) == Some(64int));
    assert(input_bits_from(d, 16, 0, 0, 0) == Some(64int));
    assert(input_bits_from(d, 14, 0, 0, 0) == Some(64int));
    assert(input_bits_from(d, 12, 0, 0, 0) == Some(64int));
    assert(input_bits_from(d, 10, 0, 0, 0) == Some(64int));
    assert(input_bits_from(d, 8, 0, 0, 0) == Some(64int));
    assert(input_bits_from(d, 6, 0, 0, 0) == Some(64int));
    assert(input_bits_from(d, 4, 0, 0, 0) == Some(64int));
    assert(input_bits_from(d, 2, 0, 0, 0) == Some(64int));
    assert(input_bits_from(d, 0, 0, 0, 0) == Some(64int));
}

} // verus!
