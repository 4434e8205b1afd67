use xbox_gamepad::descriptor::{input_report_bits, is_consistent};
use xbox_gamepad::hid_report::xbox_joystick_descriptor;
use xbox_gamepad::layout::ReportLayout;
use xbox_gamepad::minimal_report::minimal_descriptor;

#[test]
fn joystick_descriptor_declares_its_report() {
    let d = xbox_joystick_descriptor();
    assert_eq!(input_report_bits(&d), Some(64));
    assert!(is_consistent(&d, ReportLayout::Joystick.report_size()));
    assert!(!is_consistent(&d, 7));
}

#[test]
fn minimal_descriptor_declares_its_report() {
    let d = minimal_descriptor();
    assert_eq!(input_report_bits(&d), Some(24));
    assert!(is_consistent(&d, ReportLayout::Minimal.report_size()));
    assert!(!is_consistent(&d, 8));
}

#[test]
fn partial_bytes_round_up() {
    let d = [0x75, 0x01, 0x95, 0x0b, 0x81, 0x02];
    assert_eq!(input_report_bits(&d), Some(11));
    assert!(is_consistent(&d, 2));
    assert!(!is_consistent(&d, 1));
}

#[test]
fn multi_byte_item_data() {
    let d = [0x75, 0x08, 0x96, 0x00, 0x01, 0x81, 0x02, 0x77, 0x02, 0x00, 0x00, 0x00, 0x81, 0x02];
    assert_eq!(input_report_bits(&d), Some(256 * 8 + 256 * 2));
}

#[test]
fn output_items_are_not_input() {
    let d = [0x75, 0x08, 0x95, 0x02, 0x81, 0x02, 0x95, 0x04, 0x91, 0x02];
    assert_eq!(input_report_bits(&d), Some(16));
}

#[test]
fn long_or_cut_items_are_rejected() {
    assert_eq!(input_report_bits(&[0xfe, 0x00, 0x00]), None);
    assert_eq!(input_report_bits(&[0x75, 0x08, 0x95]), None);
    assert_eq!(input_report_bits(&[0x77, 0x01, 0x02]), None);
    assert!(!is_consistent(&[0xfe, 0x00, 0x00], 0));
}

#[test]
fn empty_descriptor_declares_nothing() {
    assert_eq!(input_report_bits(&[]), Some(0));
    assert!(is_consistent(&[], 0));
}
