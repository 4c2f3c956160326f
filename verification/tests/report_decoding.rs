use input_capture::descriptor::{decode_descriptor, DecodeError};
use input_capture::hid::{
    list_hid_game_controllers, parse_hid_full_report, EnumeratedDevice, HidDeviceListItem,
};
use input_capture::report::{
    decode_report, find_matching_report, format_axis_label,
};

/// Report id 7; X as a signed byte; four bits of padding; an array of two
/// button entries of eight bits.
fn pad_descriptor() -> Vec<u8> {
    vec![
        0x05, 0x01, 0x09, 0x04, 0xa1, 0x01, 0x85, 0x07, 0x09, 0x30, 0x15, 0x81, 0x25, 0x7f, 0x75,
        0x08, 0x95, 0x01, 0x81, 0x02, 0x75, 0x04, 0x95, 0x01, 0x81, 0x01, 0x05, 0x09, 0x19, 0x01,
        0x29, 0x10, 0x15, 0x00, 0x25, 0x10, 0x75, 0x08, 0x95, 0x02, 0x81, 0x00, 0xc0,
    ]
}

/// Two input reports, with the ids 1 and 2, each with one axis of a byte.
fn two_report_descriptor() -> Vec<u8> {
    vec![
        0x05, 0x01, 0x09, 0x04, 0xa1, 0x01, 0x15, 0x00, 0x26, 0xff, 0x00, 0x75, 0x08, 0x95, 0x01,
        0x85, 0x01, 0x09, 0x30, 0x81, 0x02, // report 1: X
        0x85, 0x02, 0x09, 0x32, 0x81, 0x02, // report 2: Z
        0xc0,
    ]
}

/// A hat switch of four bits, four bits of padding, and an axis whose
/// usage has no name.
fn hat_descriptor() -> Vec<u8> {
    vec![
        0x05, 0x01, 0x09, 0x04, 0xa1, 0x01, 0x09, 0x39, 0x15, 0x00, 0x25, 0x07, 0x75, 0x04, 0x95,
        0x01, 0x81, 0x42, // hat switch
        0x75, 0x04, 0x95, 0x01, 0x81, 0x01, // padding
        0x0a, 0xff, 0x0f, 0x15, 0x00, 0x26, 0xff, 0x00, 0x75, 0x08, 0x95, 0x01, 0x81,
        0x02, // axis without a name
        0xc0,
    ]
}

#[test]
fn signed_axis_below_zero_is_held_at_zero() {
    let snapshot = parse_hid_full_report(&[7, 0x85, 0, 0, 0], &pad_descriptor()).unwrap();
    assert_eq!(snapshot.axis_values[&0x30], 0);
    assert_eq!(snapshot.axis_ranges[&0x30], (-127, 127));
    assert_eq!(snapshot.axis_bit_depths[&0x30], 8);
    assert!(!snapshot.is_16bit);
}

#[test]
fn signed_axis_above_zero_keeps_its_value() {
    let snapshot = parse_hid_full_report(&[7, 0x7f, 0, 0, 0], &pad_descriptor()).unwrap();
    assert_eq!(snapshot.axis_values[&0x30], 127);
}

#[test]
fn array_entries_name_the_buttons_that_are_down() {
    // the array starts at bit 20: entries at bits 20..28 and 28..36
    let report = [7, 0, 0x50, 0xc0, 0x00];
    let snapshot = parse_hid_full_report(&report, &pad_descriptor()).unwrap();
    assert_eq!(snapshot.pressed_buttons, vec![5, 12]);
}

#[test]
fn array_entry_of_zero_names_no_button() {
    let report = [7, 0, 0x00, 0x30, 0x00];
    let snapshot = parse_hid_full_report(&report, &pad_descriptor()).unwrap();
    assert_eq!(snapshot.pressed_buttons, vec![3]);
}

#[test]
fn report_with_another_id_is_refused() {
    let r = parse_hid_full_report(&[8, 0, 0, 0, 0], &pad_descriptor());
    assert_eq!(r.unwrap_err(), "No matching input report found");
}

#[test]
fn report_is_matched_by_its_first_byte() {
    let decoded = decode_descriptor(&two_report_descriptor()).unwrap();
    assert_eq!(find_matching_report(&decoded, 1), Some(0));
    assert_eq!(find_matching_report(&decoded, 2), Some(1));
    assert_eq!(find_matching_report(&decoded, 3), None);
    let first = decode_report(&decoded, &[1, 0x40], 5).unwrap();
    assert_eq!(first.axis_values.len(), 1);
    assert_eq!(first.axis_values[&0x30], 0x40);
    assert_eq!(first.timestamp_ms, 5);
    let second = decode_report(&decoded, &[2, 0x90], 6).unwrap();
    assert_eq!(second.axis_values.len(), 1);
    assert_eq!(second.axis_values[&0x32], 0x90);
}

#[test]
fn each_failure_has_its_variant() {
    let decoded = decode_descriptor(&two_report_descriptor()).unwrap();
    assert_eq!(decode_report(&decoded, &[], 0).unwrap_err(), DecodeError::EmptyReport);
    assert_eq!(decode_report(&decoded, &[9, 0], 0).unwrap_err(), DecodeError::NoMatchingReport);
    assert_eq!(decode_report(&decoded, &[1], 0).unwrap_err(), DecodeError::ReportTooShort);
}

#[test]
fn report_without_ids_matches_any_first_byte() {
    let descriptor = [0x05, 0x01, 0x09, 0x30, 0x15, 0x00, 0x25, 0x7f, 0x75, 0x08, 0x95, 0x01, 0x81, 0x02];
    let decoded = decode_descriptor(&descriptor).unwrap();
    assert_eq!(find_matching_report(&decoded, 0), Some(0));
    assert_eq!(find_matching_report(&decoded, 200), Some(0));
}

#[test]
fn longer_report_is_accepted() {
    let decoded = decode_descriptor(&two_report_descriptor()).unwrap();
    let snapshot = decode_report(&decoded, &[1, 0x11, 0xee, 0xee], 0).unwrap();
    assert_eq!(snapshot.axis_values[&0x30], 0x11);
}

#[test]
fn hat_and_nameless_axis_are_axes() {
    let snapshot = parse_hid_full_report(&[0x03, 0x80], &hat_descriptor()).unwrap();
    assert_eq!(snapshot.axis_values[&0x39], 3);
    assert_eq!(snapshot.axis_names[&0x39], "Hat Switch");
    assert_eq!(snapshot.axis_values[&0x0fff], 0x80);
    assert_eq!(snapshot.axis_names[&0x0fff], "Usage 0001:0fff");
    assert_eq!(snapshot.axis_bit_depths[&0x39], 3);
}

#[test]
fn usage_without_a_name_is_shown_in_hexadecimal() {
    assert_eq!(format_axis_label(0x01, 0x30), "X");
    assert_eq!(format_axis_label(0x01, 0x35), "Rz");
    assert_eq!(format_axis_label(0x0001, 0x0fff), "Usage 0001:0fff");
    assert_eq!(format_axis_label(0xff00, 0x01), "Vendor Usage 0x01");
    assert_eq!(format_axis_label(0x0001, 0x0abc), "Usage 0001:0abc");
}

fn item(vendor_id: u16, product: &str) -> HidDeviceListItem {
    HidDeviceListItem {
        vendor_id,
        product_id: 1,
        serial_number: None,
        manufacturer: None,
        product: Some(product.to_string()),
        path: format!("/dev/hidraw{}", vendor_id),
        interface_number: 0,
    }
}

#[test]
fn only_joysticks_and_gamepads_are_listed() {
    let found = vec![
        EnumeratedDevice { usage_page: 0x01, usage: 0x04, item: item(1, "stick") },
        EnumeratedDevice { usage_page: 0x01, usage: 0x06, item: item(2, "keyboard") },
        EnumeratedDevice { usage_page: 0x01, usage: 0x05, item: item(3, "pad") },
        EnumeratedDevice { usage_page: 0x0c, usage: 0x04, item: item(4, "remote") },
        EnumeratedDevice { usage_page: 0x01, usage: 0x02, item: item(5, "mouse") },
    ];
    let listed = list_hid_game_controllers(&found);
    assert_eq!(listed.len(), 2);
    assert_eq!(listed[0].vendor_id, 1);
    assert_eq!(listed[0].product.as_deref(), Some("stick"));
    assert_eq!(listed[0].path, "/dev/hidraw1");
    assert_eq!(listed[1].vendor_id, 3);
}

/// Two buttons as fields of one bit, six bits of padding, and an array of
/// two button entries of eight bits.
fn mixed_button_descriptor() -> Vec<u8> {
    vec![
        0x05, 0x09, 0x19, 0x01, 0x29, 0x02, 0x15, 0x00, 0x25, 0x01, 0x75, 0x01, 0x95, 0x02, 0x81,
        0x02, // buttons 1 and 2
        0x75, 0x06, 0x95, 0x01, 0x81, 0x01, // padding
        0x19, 0x01, 0x29, 0x10, 0x15, 0x00, 0x25, 0x10, 0x75, 0x08, 0x95, 0x02, 0x81,
        0x00, // array of two entries
    ]
}

#[test]
fn button_is_listed_once_whatever_fields_report_it() {
    // button 1 is down as a field, and both array entries name it too
    let snapshot = parse_hid_full_report(&[0b01, 1, 1], &mixed_button_descriptor()).unwrap();
    assert_eq!(snapshot.pressed_buttons, vec![1]);
    // button 2 as a field, then 5 and 2 in the array
    let snapshot = parse_hid_full_report(&[0b10, 5, 2], &mixed_button_descriptor()).unwrap();
    assert_eq!(snapshot.pressed_buttons, vec![2, 5]);
    // the same entry twice in the array
    let snapshot = parse_hid_full_report(&[0b00, 9, 9], &mixed_button_descriptor()).unwrap();
    assert_eq!(snapshot.pressed_buttons, vec![9]);
    let snapshot = parse_hid_full_report(&[0b11, 3, 1], &mixed_button_descriptor()).unwrap();
    assert_eq!(snapshot.pressed_buttons, vec![1, 2, 3]);
}
