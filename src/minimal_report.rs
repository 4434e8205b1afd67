//! The minimal 3-byte layout: X and Y as signed bytes, then eight buttons.
use crate::bits::{
    flags_word, lemma_flags_word_bits, lemma_split_word_bits, lemma_word_ext_forall, low_byte, report_bit,
    word_bit,
};
use crate::controller::axis_at_rest;
use crate::descriptor::{declared_input_bits, input_bits_from, item_value, matches_report_len, pow256, lemma_known_prefixes};
use crate::controller::{ButtonId, ControllerState};
use crate::hid_report::{axis_byte, AXIS_I8_MAX};
use crate::layout::{button_word, set_buttons_from_word, ReportLayout};
use crate::axis::{lemma_signed_scaled_on_grid, AxisValue};
use vstd::prelude::*;

verus! {

/// The bytes of the descriptor, in order.
pub open spec fn minimal_descriptor_bytes() -> Seq<u8> {
    seq![
        0x05u8,
        0x01u8,
        0x09u8,
        0x05u8,
        0xa1u8,
        0x01u8,
        0x09u8,
        0x30u8,
        0x09u8,
        0x31u8,
        0x15u8,
        0x81u8,
        0x25u8,
        0x7fu8,
        0x75u8,
        0x08u8,
        0x95u8,
        0x02u8,
        0x81u8,
        0x02u8,
        0x05u8,
        0x09u8,
        0x19u8,
        0x01u8,
        0x29u8,
        0x08u8,
        0x15u8,
        0x00u8,
        0x25u8,
        0x01u8,
        0x75u8,
        0x01u8,
        0x95u8,
        0x08u8,
        0x81u8,
        0x02u8,
        0xc0u8,
    ]
}

/// HID report descriptor of the minimal layout.
///
/// Axes X and Y of 8 bits in `[-127, 127]`, then eight one-bit buttons; 24 input
/// bits in all.
pub fn minimal_descriptor() -> (r: [u8; 37])
    ensures
        r@ == minimal_descriptor_bytes(),
{
    let r = [
        0x05, 0x01, // Usage Page (Generic Desktop)
        0x09, 0x05, // Usage (Game Pad)
        0xa1, 0x01, // Collection (Application)
        0x09, 0x30, //   Usage (X)
        0x09, 0x31, //   Usage (Y)
        0x15, 0x81, //   Logical Minimum (-127)
        0x25, 0x7f, //   Logical Maximum (127)
        0x75, 0x08, //   Report Size (8)
        0x95, 0x02, //   Report Count (2)
        0x81, 0x02, //   Input (Data, Variable, Absolute)
        0x05, 0x09, //   Usage Page (Button)
        0x19, 0x01, //   Usage Minimum (1)
        0x29, 0x08, //   Usage Maximum (8)
        0x15, 0x00, //   Logical Minimum (0)
        0x25, 0x01, //   Logical Maximum (1)
        0x75, 0x01, //   Report Size (1)
        0x95, 0x08, //   Report Count (8)
        0x81, 0x02, //   Input (Data, Variable, Absolute)
        0xc0, // End Collection
    ];
    assert(r@ =~= minimal_descriptor_bytes());
    r
}

/// Declared button order of the minimal layout: button `i` is at bit `i` of byte 2.
pub open spec fn minimal_button_at(i: int) -> ButtonId {
    if i == 0 {
        ButtonId::A
    } else if i == 1 {
        ButtonId::B
    } else if i == 2 {
        ButtonId::X
    } else if i == 3 {
        ButtonId::Y
    } else if i == 4 {
        ButtonId::LeftShoulder
    } else if i == 5 {
        ButtonId::RightShoulder
    } else if i == 6 {
        ButtonId::Start
    } else {
        ButtonId::Back
    }
}

/// The minimal report of a state: left stick X and Y as `round(v * 127)` clamped
/// to `[-127, 127]`, then the button byte.
pub open spec fn minimal_report_of(s: ControllerState) -> Seq<u8> {
    seq![
        axis_byte(s.left_thumb_x) as u8,
        axis_byte(s.left_thumb_y) as u8,
        low_byte(flags_word(s.flags_of(ReportLayout::Minimal.button_order()))),
    ]
}

/// The 3 wire bytes of `state` under the minimal layout.
pub fn encode_minimal(state: &ControllerState) -> (r: [u8; 3])
    ensures
        r@ == minimal_report_of(*state),
{
    let buttons = button_word(state, ReportLayout::Minimal);
    let r = [
        state.left_thumb_x.to_signed_field(AXIS_I8_MAX) as i8 as u8,
        state.left_thumb_y.to_signed_field(AXIS_I8_MAX) as i8 as u8,
        (buttons & 0xff) as u8,
    ];
    assert(r@ =~= minimal_report_of(*state));
    r
}

/// `s` is the state read back from the minimal report `bytes`: X and Y are
/// their bytes over `127`, each carried button its declared bit.
pub open spec fn minimal_decodes_to(bytes: Seq<u8>, s: ControllerState) -> bool {
    &&& s.left_thumb_x.numer() == bytes[0] as i8 && s.left_thumb_x.denom() == 127
    &&& s.left_thumb_y.numer() == bytes[1] as i8 && s.left_thumb_y.denom() == 127
    &&& forall|i: int| 0 <= i < 8 ==> #[trigger] s.button(minimal_button_at(i)) == report_bit(bytes, 16 + i)
}

proof fn lemma_byte_word_bits(b: u8, i: u16)
    by (bit_vector)
    requires
        i < 16,
    ensures
        i < 8 ==> (((b as u16) >> i) & 1 == 1 <==> (b >> (i as u8)) & 1 == 1),
        i >= 8 ==> ((b as u16) >> i) & 1 != 1,
        ((b as u16) & 0xff) as u8 == b,
{
}

/// Reads a minimal report back into a state (the inverse of [`encode_minimal`]);
/// the fields that the layout does not carry are at rest.
pub fn decode_minimal(bytes: &[u8; 3]) -> (r: ControllerState)
    ensures
        minimal_decodes_to(bytes@, r),
        !r.up && !r.down && !r.left && !r.right,
        !r.left_thumb && !r.right_thumb && !r.guide,
        axis_at_rest(r.right_thumb_x) && axis_at_rest(r.right_thumb_y),
        axis_at_rest(r.left_trigger) && axis_at_rest(r.right_trigger),
{
    let mut s = ControllerState::new();
    s.left_thumb_x = AxisValue::ratio((#[verifier::truncate] (bytes[0] as i8)) as i32, AXIS_I8_MAX);
    s.left_thumb_y = AxisValue::ratio((#[verifier::truncate] (bytes[1] as i8)) as i32, AXIS_I8_MAX);
    let word: u16 = bytes[2] as u16;
    let ghost rest = s;
    set_buttons_from_word(&mut s, ReportLayout::Minimal, word);
    proof {
        assert(s.button(ButtonId::Up) == rest.button(ButtonId::Up));
        assert(s.button(ButtonId::Down) == rest.button(ButtonId::Down));
        assert(s.button(ButtonId::Left) == rest.button(ButtonId::Left));
        assert(s.button(ButtonId::Right) == rest.button(ButtonId::Right));
        assert(s.button(ButtonId::LeftThumb) == rest.button(ButtonId::LeftThumb));
        assert(s.button(ButtonId::RightThumb) == rest.button(ButtonId::RightThumb));
        assert(s.button(ButtonId::Guide) == rest.button(ButtonId::Guide));
        assert forall|j: int| 0 <= j < 8 implies #[trigger] s.button(minimal_button_at(j)) == report_bit(bytes@, 16 + j) by {
            lemma_byte_word_bits(bytes[2], j as u16);
            assert((16 + j) / 8 == 2);
            assert((16 + j) % 8 == j);
            assert(s.button(ReportLayout::Minimal.button_at(j)) == word_bit(word, j as u16));
        }
    }
    s
}

/// Decoding a minimal report whose axes lie in the declared range `[-127, 127]`,
/// then encoding the result, gives back the original bytes.
pub proof fn lemma_minimal_round_trip(bytes: Seq<u8>, s: ControllerState)
    requires
        bytes.len() == 3,
        bytes[0] != 0x80,
        bytes[1] != 0x80,
        minimal_decodes_to(bytes, s),
    ensures
        minimal_report_of(s) == bytes,
{
    let b0 = bytes[0];
    let b1 = bytes[1];
    assert(b0 != 0x80 ==> -127 <= (b0 as i8) <= 127 && (b0 as i8) as u8 == b0) by (bit_vector);
    assert(b1 != 0x80 ==> -127 <= (b1 as i8) <= 127 && (b1 as i8) as u8 == b1) by (bit_vector);
    lemma_signed_scaled_on_grid(b0 as i8 as int, 127);
    lemma_signed_scaled_on_grid(b1 as i8 as int, 127);
    let flags = s.flags_of(ReportLayout::Minimal.button_order());
    lemma_flags_word_bits(flags);
    let w = bytes[2] as u16;
    assert forall|i: u16| i < 16 implies #[trigger] word_bit(flags_word(flags), i) == word_bit(w, i) by {
        lemma_byte_word_bits(bytes[2], i);
        if i < 8 {
            assert((16 + i) / 8 == 2);
            assert((16 + i) % 8 == i);
            assert(s.button(minimal_button_at(i as int)) == report_bit(bytes, 16 + i));
        }
    }
    lemma_word_ext_forall(flags_word(flags), w);
    lemma_byte_word_bits(bytes[2], 0);
    assert(minimal_report_of(s) =~= bytes);
}

proof fn lemma_zero_word_bits(i: u16)
    by (bit_vector)
    requires
        i < 16,
    ensures
        (0u16 >> i) & 1 != 1,
        (0u16 & 0xff) as u8 == 0,
{
}

/// The rest state (no button pressed, every axis at `0`) encodes to three zero bytes.
pub proof fn lemma_minimal_rest_is_zero(s: ControllerState)
    requires
        s.is_rest(),
    ensures
        minimal_report_of(s) == seq![0u8, 0u8, 0u8],
{
    let flags = s.flags_of(ReportLayout::Minimal.button_order());
    lemma_flags_word_bits(flags);
    assert forall|i: u16| i < 16 implies #[trigger] word_bit(flags_word(flags), i) == word_bit(0, i) by {
        lemma_zero_word_bits(i);
        if i < 8 {
            assert(!flags[i as int]);
        }
    }
    lemma_word_ext_forall(flags_word(flags), 0);
    lemma_zero_word_bits(0);
    assert(axis_at_rest(s.left_thumb_x));
    assert(minimal_report_of(s) =~= seq![0u8, 0u8, 0u8]);
}

/// Toggling a button that the minimal layout carries, button `k` of its order,
/// changes exactly one bit of the report: bit `16 + k`.
pub proof fn lemma_minimal_single_button(s: ControllerState, k: int)
    requires
        0 <= k < 8,
    ensures
        ({
            let id = minimal_button_at(k);
            forall|p: int|
                0 <= p < 24 ==> (report_bit(minimal_report_of(s), p) != report_bit(
                    minimal_report_of(s.with_button(id, !s.button(id))),
                    p,
                ) <==> p == 16 + k)
        }),
{
    let order = ReportLayout::Minimal.button_order();
    let id = minimal_button_at(k);
    assert(order[k] == id);
    ReportLayout::Minimal.lemma_order_distinct();
    s.lemma_toggle_flags(order, k);
    let t = s.with_button(id, !s.button(id));
    s.lemma_with_button_axes(id, !s.button(id));
    let f1 = s.flags_of(order);
    let f2 = t.flags_of(order);
    lemma_flags_word_bits(f1);
    lemma_flags_word_bits(f2);
    let b1 = minimal_report_of(s);
    let b2 = minimal_report_of(t);
    assert forall|p: int| 0 <= p < 24 implies (report_bit(b1, p) != report_bit(b2, p) <==> p == 16
        + k) by {
        if p < 16 {
            assert(b1[p / 8] == b2[p / 8]);
        } else {
            let i = (p - 16) as u8;
            assert(p / 8 == 2);
            assert(p % 8 == i);
            lemma_split_word_bits(flags_word(f1), i);
            lemma_split_word_bits(flags_word(f2), i);
            assert(word_bit(flags_word(f1), i as u16) == f1[i as int]);
            assert(word_bit(flags_word(f2), i as u16) == f2[i as int]);
        }
    }
}

/// Toggling a button that the minimal layout does not carry (the d-pad, the
/// thumb buttons, the guide button) leaves the report unchanged.
pub proof fn lemma_minimal_uncarried_button(s: ControllerState, id: ButtonId)
    requires
        forall|k: int| 0 <= k < 8 ==> minimal_button_at(k) != id,
    ensures
        minimal_report_of(s.with_button(id, !s.button(id))) == minimal_report_of(s),
{
    let order = ReportLayout::Minimal.button_order();
    let t = s.with_button(id, !s.button(id));
    s.lemma_with_button_axes(id, !s.button(id));
    assert forall|j: int| 0 <= j < 8 implies #[trigger] t.flags_of(order)[j] == s.flags_of(order)[j] by {
        s.lemma_with_button(id, !s.button(id), order[j]);
    }
    assert(t.flags_of(order) =~= s.flags_of(order));
}

/// The minimal descriptor declares 24 input bits: exactly the 3 bytes that
/// the encoder writes.
pub proof fn lemma_minimal_descriptor_matches_report()
    ensures
        declared_input_bits(minimal_descriptor_bytes()) == Some(24int),
        matches_report_len(minimal_descriptor_bytes(), 3),
{
    let d = minimal_descriptor_bytes();
    reveal_with_fuel(item_value, 2);
    reveal_with_fuel(pow256, 1);
    assert(d.len() == 37);
    lemma_known_prefixes();
    assert(input_bits_from(d, 37, 1, 8, 24) == Some(24int));
    assert(input_bits_from(d, 36, 1, 8, 24) == Some(24int));
    assert(input_bits_from(d, 34, 1, 8, 16) == Some(24int));
    assert(input_bits_from(d, 32, 1, 2, 16) == Some(24int));
    assert(input_bits_from(d, 30, 8, 2, 16) == Some(24int));
    assert(input_bits_from(d, 28, 8, 2, 16) == Some(24int));
    assert(input_bits_from(d, 26, 8, 2, 16) == Some(24int));
    assert(input_bits_from(d, 24, 8, 2, 16) == Some(24int));
    assert(input_bits_from(d, 22, 8, 2, 16) == Some(24int));
    assert(input_bits_from(d, 20, 8, 2, 16) == Some(24int));
    assert(input_bits_from(d, 18, 8, 2, 0) == Some(24int));
    assert(input_bits_from(d, 16, 8, 0, 0) == Some(24int));
    assert(input_bits_from(d, 14, 0, 0, 0) == Some(24int));
    assert(input_bits_from(d, 12, 0, 0, 0) == Some(24int));
    assert(input_bits_from(d, 10, 0, 0, 0) == Some(24int));
    assert(input_bits_from(d, 8, 0, 0, 0) == Some(24int));
    assert(input_bits_from(d, 6, 0, 0, 0) == Some(24int));
    assert(input_bits_from(d, 4, 0, 0, 0) == Some(24int));
    assert(input_bits_from(d, 2, 0, 0, 0) == Some(24int));
    assert(input_bits_from(d, 0, 0, 0, 0) == Some(24int));
}

} // verus!
