use xbox_gamepad::axis::AxisValue;
use xbox_gamepad::controller::{ButtonId, ControllerState};
use xbox_gamepad::hid_report::{decode_xbox, encode_xbox, get_report, xbox_joystick_descriptor};
use xbox_gamepad::layout::{decode, encode, ReportLayout};
use xbox_gamepad::minimal_report::{decode_minimal, encode_minimal, minimal_descriptor};

const ALL_BUTTONS: [ButtonId; 15] = [
    ButtonId::Up,
    ButtonId::Down,
    ButtonId::Left,
    ButtonId::Right,
    ButtonId::Start,
    ButtonId::Back,
    ButtonId::LeftThumb,
    ButtonId::RightThumb,
    ButtonId::LeftShoulder,
    ButtonId::RightShoulder,
    ButtonId::Guide,
    ButtonId::A,
    ButtonId::B,
    ButtonId::X,
    ButtonId::Y,
];

fn bit(bytes: &[u8], p: usize) -> bool {
    (bytes[p / 8] >> (p % 8)) & 1 == 1
}

fn differing_bits(a: &[u8], b: &[u8]) -> Vec<usize> {
    (0..a.len() * 8).filter(|&p| bit(a, p) != bit(b, p)).collect()
}

fn ratio(num: i32, den: u16) -> AxisValue {
    AxisValue::new(num, den).unwrap()
}

#[test]
fn minimal_default_is_all_zero() {
    let s = ControllerState::default();
    assert_eq!(encode_minimal(&s), [0x00, 0x00, 0x00]);
    let r = encode(ReportLayout::Minimal, &s);
    assert_eq!(r.as_slice(), &[0x00, 0x00, 0x00]);
    assert_eq!(r.len(), 3);
}

#[test]
fn joystick_a_sets_bit_zero_only() {
    let rest = encode_xbox(&ControllerState::new());
    let mut s = ControllerState::new();
    s.a = true;
    let bytes = encode_xbox(&s);
    assert_eq!(&bytes[0..6], &rest[0..6]);
    assert_eq!(bytes[6], 0x01);
    assert_eq!(bytes[7], 0x00);
    assert_eq!(bytes, [0, 0, 0, 0, 0, 0, 1, 0]);
}

#[test]
fn joystick_button_bit_order() {
    let expected = [
        (ButtonId::A, 0),
        (ButtonId::B, 1),
        (ButtonId::X, 2),
        (ButtonId::Y, 3),
        (ButtonId::LeftShoulder, 4),
        (ButtonId::RightShoulder, 5),
        (ButtonId::Up, 6),
        (ButtonId::Down, 7),
        (ButtonId::Right, 8),
        (ButtonId::Left, 9),
        (ButtonId::Start, 10),
        (ButtonId::Back, 11),
        (ButtonId::LeftThumb, 12),
        (ButtonId::RightThumb, 13),
        (ButtonId::Guide, 14),
    ];
    for (id, k) in expected {
        let mut s = ControllerState::new();
        s.set_button(id, true);
        assert_eq!(get_report(&s).buttons, 1u16 << k);
    }
}

#[test]
fn joystick_toggle_changes_one_bit() {
    let mut base = ControllerState::new();
    base.left_thumb_x = ratio(1, 3);
    base.b = true;
    base.start = true;
    for id in ALL_BUTTONS {
        let before = encode_xbox(&base);
        let mut t = base;
        t.set_button(id, !base.pressed(id));
        let after = encode_xbox(&t);
        let diff = differing_bits(&before, &after);
        assert_eq!(diff.len(), 1);
        assert!(diff[0] >= 48 && diff[0] < 63);
    }
}

#[test]
fn minimal_toggle_changes_one_bit_or_none() {
    let base = ControllerState::new();
    let carried = [
        (ButtonId::A, 16),
        (ButtonId::B, 17),
        (ButtonId::X, 18),
        (ButtonId::Y, 19),
        (ButtonId::LeftShoulder, 20),
        (ButtonId::RightShoulder, 21),
        (ButtonId::Start, 22),
        (ButtonId::Back, 23),
    ];
    for id in ALL_BUTTONS {
        let mut t = base;
        t.set_button(id, true);
        let diff = differing_bits(&encode_minimal(&base), &encode_minimal(&t));
        match carried.iter().find(|(c, _)| *c == id) {
            Some((_, p)) => assert_eq!(diff, vec![*p]),
            None => assert!(diff.is_empty()),
        }
    }
}

#[test]
fn joystick_axes_scaled_and_packed() {
    let mut s = ControllerState::new();
    s.left_thumb_x = ratio(1, 1);
    s.left_thumb_y = ratio(-1, 1);
    s.right_thumb_x = ratio(1, 2);
    s.right_thumb_y = ratio(-1, 2);
    s.left_trigger = ratio(3, 1);
    s.right_trigger = ratio(0, 7);
    s.guide = true;
    s.left = true;
    let bytes = encode_xbox(&s);
    assert_eq!(bytes, [127, (-127i8) as u8, 64, (-64i8) as u8, 127, 0, 0x00, 0x42]);
    let r = get_report(&s);
    assert_eq!((r.x, r.y, r.z, r.rx, r.ry, r.rz), (127, -127, 64, -64, 127, 0));
    assert_eq!(r.pack(), bytes);
}

#[test]
fn encoding_is_deterministic() {
    let mut s = ControllerState::new();
    s.x = true;
    s.right_thumb_y = ratio(-2, 3);
    assert_eq!(encode_xbox(&s), encode_xbox(&s));
    assert_eq!(
        encode(ReportLayout::Joystick, &s).as_slice(),
        encode(ReportLayout::Joystick, &s).as_slice()
    );
    assert_eq!(encode(ReportLayout::Joystick, &s).as_slice(), &encode_xbox(&s)[..]);
}

#[test]
fn joystick_decode_encode_round_trip() {
    let samples: [[u8; 8]; 4] = [
        [0, 0, 0, 0, 0, 0, 0, 0],
        [0x7f, 0x81, 0x01, 0xff, 0x40, 0xc0, 0xff, 0x7f],
        [0x10, 0x20, 0x30, 0x40, 0x50, 0x60, 0xa5, 0x5a],
        [0x81, 0x7f, 0x00, 0x00, 0x7f, 0x81, 0x01, 0x40],
    ];
    for bytes in samples {
        let s = decode_xbox(&bytes);
        assert_eq!(encode_xbox(&s), bytes);
    }
}

#[test]
fn joystick_decode_reads_fields() {
    let s = decode_xbox(&[0x7f, 0x81, 0, 0, 0, 0, 0x01, 0x40]);
    assert_eq!((s.left_thumb_x.num(), s.left_thumb_x.den()), (127, 127));
    assert_eq!((s.left_thumb_y.num(), s.left_thumb_y.den()), (-127, 127));
    assert!(s.a);
    assert!(s.guide);
    assert!(!s.b);
}

#[test]
fn layout_sizes_and_descriptors() {
    assert_eq!(ReportLayout::Minimal.report_size(), 3);
    assert_eq!(ReportLayout::Joystick.report_size(), 8);
    let d = xbox_joystick_descriptor();
    assert_eq!(d.len(), 50);
    assert_eq!(&d[0..4], &[0x05, 0x01, 0x09, 0x04]);
    let m = minimal_descriptor();
    assert_eq!(m.len(), 37);
    assert_eq!(m[36], 0xc0);
}

#[test]
fn minimal_decode_encode_round_trip() {
    let samples: [[u8; 3]; 4] = [[0, 0, 0], [0x7f, 0x81, 0xff], [0x12, 0xee, 0xa5], [0x81, 0x01, 0x80]];
    for bytes in samples {
        let s = decode_minimal(&bytes);
        assert_eq!(encode_minimal(&s), bytes);
    }
}

#[test]
fn minimal_decode_reads_fields() {
    let s = decode_minimal(&[0x40, 0xc0, 0x81]);
    assert_eq!((s.left_thumb_x.num(), s.left_thumb_x.den()), (64, 127));
    assert_eq!((s.left_thumb_y.num(), s.left_thumb_y.den()), (-64, 127));
    assert!(s.a && s.back);
    assert!(!s.b && !s.start && !s.up && !s.guide);
}

#[test]
fn minimal_axes_scaled() {
    let mut s = ControllerState::new();
    s.left_thumb_x = ratio(-1, 1);
    s.left_thumb_y = ratio(1, 2);
    s.right_thumb_x = ratio(1, 1);
    s.start = true;
    s.guide = true;
    assert_eq!(encode_minimal(&s), [(-127i8) as u8, 64, 0x40]);
}

#[test]
fn layout_decode_checks_length_and_round_trips() {
    assert!(decode(ReportLayout::Joystick, &[0u8; 7]).is_none());
    assert!(decode(ReportLayout::Minimal, &[0u8; 8]).is_none());
    let bytes = [0x05, 0xfb, 0x10];
    let s = decode(ReportLayout::Minimal, &bytes).unwrap();
    assert_eq!(encode(ReportLayout::Minimal, &s).as_slice(), &bytes);
    let joy = [1, 2, 3, 0xfd, 0x80 + 1, 0x7f, 0x34, 0x12];
    let t = decode(ReportLayout::Joystick, &joy).unwrap();
    assert_eq!(encode(ReportLayout::Joystick, &t).as_slice(), &joy);
}
