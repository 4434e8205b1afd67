//! The interchangeable report layouts: each pairs a descriptor with its encoder.
use crate::bits::{flags_word, report_bit, word_bit};
use crate::controller::{ButtonId, ControllerState};
use crate::hid_report::{
    decode_xbox, encode_xbox, lemma_xbox_round_trip, lemma_xbox_single_button, xbox_button_at, xbox_button_bit,
    xbox_decodes_to, xbox_report_of,
};
use crate::minimal_report::{
    decode_minimal, encode_minimal, lemma_minimal_round_trip, lemma_minimal_single_button, minimal_button_at,
    minimal_decodes_to, minimal_report_of,
};
use vstd::prelude::*;

verus! {

/// Room for the longest packed report of any layout.
pub const MAX_REPORT_LEN: usize = 8;

/// A report layout: a descriptor and the encoder that matches it, chosen as a unit.
#[derive(Clone, Copy, Debug, PartialEq, Eq, Structural)]
pub enum ReportLayout {
    /// 3 bytes: X and Y as signed bytes, then eight buttons.
    Minimal,
    /// 8 bytes: six signed byte axes, then sixteen buttons.
    Joystick,
}

impl ReportLayout {
    /// Number of buttons that the layout carries, one bit each.
    pub open spec fn button_count(self) -> int {
        match self {
            ReportLayout::Minimal => 8,
            ReportLayout::Joystick => 15,
        }
    }

    /// Button `i` of the layout's declared order (HID button `i + 1`).
    pub open spec fn button_at(self, i: int) -> ButtonId {
        match self {
            ReportLayout::Minimal => minimal_button_at(i),
            ReportLayout::Joystick => xbox_button_at(i),
        }
    }

    /// The buttons of the layout in declared order.
    pub open spec fn button_order(self) -> Seq<ButtonId> {
        Seq::new(self.button_count() as nat, |i: int| self.button_at(i))
    }

    /// Length in bytes of the layout's packed report.
    pub open spec fn report_len(self) -> nat {
        match self {
            ReportLayout::Minimal => 3,
            ReportLayout::Joystick => 8,
        }
    }

    /// Report bit of the layout's first button; button `k` of the order is `k` bits on.
    pub open spec fn first_button_bit(self) -> int {
        match self {
            ReportLayout::Minimal => 16,
            ReportLayout::Joystick => 48,
        }
    }

    /// `s` is the state read back from the packed report `bytes` of this layout.
    pub open spec fn decodes_to(self, bytes: Seq<u8>, s: ControllerState) -> bool {
        match self {
            ReportLayout::Minimal => minimal_decodes_to(bytes, s),
            ReportLayout::Joystick => xbox_decodes_to(bytes, s),
        }
    }

    /// `bytes` is a report of this layout whose fields lie in their declared
    /// logical ranges: no signed axis byte is `-128`, and no bit is set where the
    /// descriptor declares a button that no field carries.
    pub open spec fn within_ranges(self, bytes: Seq<u8>) -> bool {
        match self {
            ReportLayout::Minimal => bytes.len() == 3 && bytes[0] != 0x80 && bytes[1] != 0x80,
            ReportLayout::Joystick => {
                &&& bytes.len() == 8
                &&& forall|k: int| 0 <= k < 6 ==> bytes[k] != 0x80
                &&& !report_bit(bytes, 63)
            },
        }
    }

    /// The packed report of `s` under this layout.
    pub open spec fn encoded(self, s: ControllerState) -> Seq<u8> {
        match self {
            ReportLayout::Minimal => minimal_report_of(s),
            ReportLayout::Joystick => xbox_report_of(s).packed(),
        }
    }

    /// The declared order names each button once.
    pub proof fn lemma_order_distinct(self)
        ensures
            self.button_order().no_duplicates(),
            forall|i: int, j: int|
                0 <= i < self.button_count() && 0 <= j < self.button_count() && i != j
                    ==> self.button_at(i) != self.button_at(j),
    {
    }

    /// Button `i` of the declared order.
    pub fn button_id(&self, i: usize) -> (r: ButtonId)
        requires
            i < self.button_count(),
        ensures
            r == self.button_at(i as int),
    {
        match self {
            ReportLayout::Minimal => match i {
                0 => ButtonId::A,
                1 => ButtonId::B,
                2 => ButtonId::X,
                3 => ButtonId::Y,
                4 => ButtonId::LeftShoulder,
                5 => ButtonId::RightShoulder,
                6 => ButtonId::Start,
                _ => ButtonId::Back,
            },
            ReportLayout::Joystick => match i {
                0 => ButtonId::A,
                1 => ButtonId::B,
                2 => ButtonId::X,
                3 => ButtonId::Y,
                4 => ButtonId::LeftShoulder,
                5 => ButtonId::RightShoulder,
                6 => ButtonId::Up,
                7 => ButtonId::Down,
                8 => ButtonId::Right,
                9 => ButtonId::Left,
                10 => ButtonId::Start,
                11 => ButtonId::Back,
                12 => ButtonId::LeftThumb,
                13 => ButtonId::RightThumb,
                _ => ButtonId::Guide,
            },
        }
    }

    /// Number of buttons that the layout carries.
    pub fn buttons(&self) -> (r: usize)
        ensures
            r == self.button_count(),
    {
        match self {
            ReportLayout::Minimal => 8,
            ReportLayout::Joystick => 15,
        }
    }

    /// Length in bytes of the layout's packed report.
    pub fn report_size(&self) -> (r: usize)
        ensures
            r == self.report_len(),
    {
        match self {
            ReportLayout::Minimal => 3,
            ReportLayout::Joystick => 8,
        }
    }
}

/// The button word of `state` under `layout`: bit `i` is set when button `i`
/// of the declared order is pressed.
pub fn button_word(state: &ControllerState, layout: ReportLayout) -> (r: u16)
    ensures
        r == flags_word(state.flags_of(layout.button_order())),
{
    let ghost flags = state.flags_of(layout.button_order());
    let n = layout.buttons();
    let mut word: u16 = 0;
    let mut i: usize = 0;
    while i < n
        invariant
            n == layout.button_count(),
            n <= 15,
            i <= n,
            flags == state.flags_of(layout.button_order()),
            flags.len() == n,
            word == flags_word(flags.take(i as int)),
        decreases n - i,
    {
        let id = layout.button_id(i);
        let pressed = state.pressed(id);
        let term: u16 = if pressed {
            1u16 << (i as u16)
        } else {
            0
        };
        proof {
            let next = flags.take(i as int + 1);
            assert(next.drop_last() =~= flags.take(i as int));
            assert(next.last() == flags[i as int]);
            assert(flags[i as int] == state.button(layout.button_order()[i as int]));
            assert(term == crate::bits::flag_term(next.last(), i as u16));
        }
        word = word | term;
        i = i + 1;
    }
    assert(flags.take(n as int) =~= flags);
    word
}

/// Sets each button of the layout's order from its bit of `word`, leaving every
/// other field as it was.
pub fn set_buttons_from_word(state: &mut ControllerState, layout: ReportLayout, word: u16)
    ensures
        forall|i: int|
            0 <= i < layout.button_count()
                ==> #[trigger] final(state).button(layout.button_at(i)) == word_bit(word, i as u16),
        forall|id: ButtonId|
            (forall|i: int| 0 <= i < layout.button_count() ==> layout.button_at(i) != id)
                ==> #[trigger] final(state).button(id) == old(state).button(id),
        final(state).left_thumb_x == old(state).left_thumb_x,
        final(state).left_thumb_y == old(state).left_thumb_y,
        final(state).right_thumb_x == old(state).right_thumb_x,
        final(state).right_thumb_y == old(state).right_thumb_y,
        final(state).left_trigger == old(state).left_trigger,
        final(state).right_trigger == old(state).right_trigger,
{
    proof {
        layout.lemma_order_distinct();
    }
    let ghost start = *state;
    let n = layout.buttons();
    let mut i: usize = 0;
    while i < n
        invariant
            n == layout.button_count(),
            n <= 15,
            i <= n,
            forall|j: int| 0 <= j < i ==> #[trigger] state.button(layout.button_at(j)) == word_bit(word, j as u16),
            forall|id: ButtonId|
                (forall|j: int| 0 <= j < i ==> layout.button_at(j) != id) ==> #[trigger] state.button(id)
                    == start.button(id),
            forall|a: int, b: int|
                0 <= a < n && 0 <= b < n && a != b ==> layout.button_at(a) != layout.button_at(b),
            state.left_thumb_x == start.left_thumb_x,
            state.left_thumb_y == start.left_thumb_y,
            state.right_thumb_x == start.right_thumb_x,
            state.right_thumb_y == start.right_thumb_y,
            state.left_trigger == start.left_trigger,
            state.right_trigger == start.right_trigger,
        decreases n - i,
    {
        let id = layout.button_id(i);
        let set: bool = (word >> (i as u16)) & 1 == 1;
        let ghost before = *state;
        state.set_button(id, set);
        proof {
            before.lemma_with_button_axes(id, set);
            assert forall|j: int| 0 <= j < i + 1 implies #[trigger] state.button(layout.button_at(j)) == word_bit(
                word,
                j as u16,
            ) by {
                before.lemma_with_button(id, set, layout.button_at(j));
            }
            assert forall|other: ButtonId|
                (forall|j: int| 0 <= j < i + 1 ==> layout.button_at(j) != other) implies #[trigger] state.button(
                other,
            ) == start.button(other) by {
                before.lemma_with_button(id, set, other);
                assert(layout.button_at(i as int) != other);
            }
        }
        i = i + 1;
    }
}

/// Under every layout, toggling exactly one button that the layout carries,
/// button `k` of its order, changes exactly one bit of the packed report: the
/// bit that the descriptor declares for that button.
pub proof fn lemma_single_button(layout: ReportLayout, s: ControllerState, k: int)
    requires
        0 <= k < layout.button_count(),
    ensures
        ({
            let id = layout.button_at(k);
            let t = s.with_button(id, !s.button(id));
            forall|p: int|
                0 <= p < 8 * layout.report_len() ==> (report_bit(layout.encoded(s), p) != report_bit(
                    layout.encoded(t),
                    p,
                ) <==> p == layout.first_button_bit() + k)
        }),
{
    match layout {
        ReportLayout::Minimal => {
            lemma_minimal_single_button(s, k);
        },
        ReportLayout::Joystick => {
            let id = xbox_button_at(k);
            assert(xbox_button_bit(id) == 48 + k);
            lemma_xbox_single_button(s, id);
        },
    }
}

/// Under every layout, decoding a report whose fields lie in their declared
/// ranges and encoding the result again gives back the original bytes.
pub proof fn lemma_round_trip(layout: ReportLayout, bytes: Seq<u8>, s: ControllerState)
    requires
        layout.within_ranges(bytes),
        layout.decodes_to(bytes, s),
    ensures
        layout.encoded(s) == bytes,
{
    match layout {
        ReportLayout::Minimal => lemma_minimal_round_trip(bytes, s),
        ReportLayout::Joystick => lemma_xbox_round_trip(bytes, s),
    }
}

/// A packed report: the first `len` bytes of a buffer sized for every layout.
#[derive(Clone, Copy, Debug)]
pub struct PackedReport {
    bytes: [u8; MAX_REPORT_LEN],
    len: usize,
}

impl View for PackedReport {
    type V = Seq<u8>;

    closed spec fn view(&self) -> Seq<u8> {
        self.bytes@.subrange(0, self.len as int)
    }
}

impl PackedReport {
    #[verifier::type_invariant]
    spec fn fits(self) -> bool {
        self.len <= 8
    }

    /// The report bytes.
    pub fn as_slice(&self) -> (r: &[u8])
        ensures
            r@ == self@,
    {
        proof {
            use_type_invariant(self);
        }
        &self.bytes[0..self.len]
    }

    /// Number of report bytes.
    pub fn len(&self) -> (r: usize)
        ensures
            r == self@.len(),
    {
        proof {
            use_type_invariant(self);
        }
        self.len
    }
}

/// The packed report of `state` under `layout`: exactly `layout.report_len()` bytes.
pub fn encode(layout: ReportLayout, state: &ControllerState) -> (r: PackedReport)
    ensures
        r@ == layout.encoded(*state),
        r@.len() == layout.report_len(),
{
    match layout {
        ReportLayout::Minimal => {
            let b = encode_minimal(state);
            let r = PackedReport { bytes: [b[0], b[1], b[2], 0, 0, 0, 0, 0], len: 3 };
            assert(r@ =~= layout.encoded(*state));
            r
        },
        ReportLayout::Joystick => {
            let r = PackedReport { bytes: encode_xbox(state), len: 8 };
            assert(r@ =~= layout.encoded(*state));
            r
        },
    }
}

/// Reads a packed report of `layout` back into a state; `None` when `bytes` is
/// not exactly one report long.
pub fn decode(layout: ReportLayout, bytes: &[u8]) -> (r: Option<ControllerState>)
    ensures
        r is None <==> bytes@.len() != layout.report_len(),
        r matches Some(s) ==> layout.decodes_to(bytes@, s),
{
    if bytes.len() != layout.report_size() {
        return None;
    }
    match layout {
        ReportLayout::Minimal => {
            let a = [bytes[0], bytes[1], bytes[2]];
            assert(a@ =~= bytes@);
            Some(decode_minimal(&a))
        },
        ReportLayout::Joystick => {
            let a = [bytes[0], bytes[1], bytes[2], bytes[3], bytes[4], bytes[5], bytes[6], bytes[7]];
            assert(a@ =~= bytes@);
            Some(decode_xbox(&a))
        },
    }
}

} // verus!
