//! The library reads the fields of a report itself. These tests hold what
//! it reads against what the `hidreport` crate extracts from the same
//! report.

use hidreport::{Field, Report, ReportDescriptor};
use input_capture::hid::parse_hid_full_report;

fn stick_descriptor() -> Vec<u8> {
    vec![
        0x05, 0x01, 0x09, 0x04, 0xa1, 0x01, 0x09, 0x30, 0x09, 0x31, 0x15, 0x00, 0x26, 0xff, 0x03,
        0x75, 0x10, 0x95, 0x02, 0x81, 0x02, 0x05, 0x09, 0x19, 0x01, 0x29, 0x08, 0x15, 0x00, 0x25,
        0x01, 0x75, 0x01, 0x95, 0x08, 0x81, 0x02, 0xc0,
    ]
}

/// Report id 7; X as a signed byte; four bits of padding; an array of two
/// button entries of eight bits.
fn pad_descriptor() -> Vec<u8> {
    vec![
        0x05, 0x01, 0x09, 0x04, 0xa1, 0x01, 0x85, 0x07, 0x09, 0x30, 0x15, 0x81, 0x25, 0x7f, 0x75,
        0x08, 0x95, 0x01, 0x81, 0x02, 0x75, 0x04, 0x95, 0x01, 0x81, 0x01, 0x05, 0x09, 0x19, 0x01,
        0x29, 0x10, 0x15, 0x00, 0x25, 0x10, 0x75, 0x08, 0x95, 0x02, 0x81, 0x00, 0xc0,
    ]
}

/// Axes of odd widths that straddle bytes: 3, 11, 17 and 32 bits, the
/// second and the fourth signed, and a signed array of one entry.
fn odd_descriptor() -> Vec<u8> {
    vec![
        0x05, 0x01, 0x09, 0x04, 0xa1, 0x01, //
        0x09, 0x30, 0x15, 0x00, 0x25, 0x07, 0x75, 0x03, 0x95, 0x01, 0x81, 0x02, // 3 bits
        0x09, 0x31, 0x16, 0x00, 0xfc, 0x26, 0xff, 0x03, 0x75, 0x0b, 0x95, 0x01, 0x81,
        0x02, // 11 bits, signed
        0x09, 0x32, 0x15, 0x00, 0x27, 0xff, 0xff, 0x01, 0x00, 0x75, 0x11, 0x95, 0x01, 0x81,
        0x02, // 17 bits
        0x09, 0x33, 0x17, 0x00, 0x00, 0x00, 0x80, 0x27, 0xff, 0xff, 0xff, 0x7f, 0x75, 0x20, 0x95,
        0x01, 0x81, 0x02, // 32 bits, signed
        0x05, 0x09, 0x19, 0x01, 0x29, 0x7f, 0x15, 0x81, 0x25, 0x7f, 0x75, 0x08, 0x95, 0x01, 0x81,
        0x00, // array of one signed entry
        0xc0,
    ]
}

/// A sequence of bytes that looks random and is the same in every run.
struct Bytes(u64);

impl Bytes {
    fn next(&mut self) -> u8 {
        self.0 = self.0.wrapping_mul(6364136223846793005).wrapping_add(1442695040888963407);
        (self.0 >> 33) as u8
    }

    fn report(&mut self, first: Option<u8>, len: usize) -> Vec<u8> {
        let mut report: Vec<u8> = (0..len).map(|_| self.next()).collect();
        if let Some(first) = first {
            report[0] = first;
        }
        report
    }
}

fn hold_against_the_parser(descriptor: &[u8], first: Option<u8>, len: usize, rounds: usize) {
    let parsed = ReportDescriptor::try_from(descriptor).unwrap();
    let mut bytes = Bytes(len as u64);
    for _ in 0..rounds {
        let report = bytes.report(first, len);
        let snapshot = parse_hid_full_report(&report, descriptor).unwrap();
        let layout = parsed.find_input_report(&report).unwrap();
        let mut axes = std::collections::HashMap::new();
        let mut pressed = Vec::new();
        let mut button = 1u32;
        for field in layout.fields() {
            match field {
                Field::Variable(v) => {
                    let value: i32 = v.extract(&report).unwrap().into();
                    if u16::from(v.usage.usage_page) == 0x09 {
                        if value != 0 && !pressed.contains(&button) {
                            pressed.push(button);
                        }
                        button += 1;
                    } else {
                        axes.insert(
                            u16::from(v.usage.usage_id) as u32,
                            value.max(0).min(u16::MAX as i32) as u16,
                        );
                    }
                }
                Field::Array(a) => {
                    for value in a.extract(&report).unwrap() {
                        let value: i32 = value.into();
                        if value > 0 && value <= 255 && !pressed.contains(&(value as u32)) {
                            pressed.push(value as u32);
                        }
                    }
                }
                Field::Constant(_) => {}
            }
        }
        assert_eq!(snapshot.axis_values, axes, "axes of {:?}", report);
        assert_eq!(snapshot.pressed_buttons, pressed, "buttons of {:?}", report);
    }
}

#[test]
fn stick_reports_are_read_as_the_parser_reads_them() {
    hold_against_the_parser(&stick_descriptor(), None, 5, 500);
}

#[test]
fn signed_axis_and_array_are_read_as_the_parser_reads_them() {
    hold_against_the_parser(&pad_descriptor(), Some(7), 5, 500);
}

#[test]
fn fields_of_odd_widths_are_read_as_the_parser_reads_them() {
    hold_against_the_parser(&odd_descriptor(), None, 9, 2000);
}

#[test]
fn longer_reports_are_read_as_the_parser_reads_them() {
    hold_against_the_parser(&odd_descriptor(), None, 16, 200);
}

#[test]
fn report_is_matched_as_the_parser_matches_it() {
    let descriptor = [
        0x05, 0x01, 0x09, 0x04, 0xa1, 0x01, 0x15, 0x00, 0x26, 0xff, 0x00, 0x75, 0x08, 0x95, 0x01,
        0x85, 0x01, 0x09, 0x30, 0x81, 0x02, 0x85, 0x02, 0x09, 0x32, 0x81, 0x02, 0x85, 0x05, 0x09,
        0x33, 0x81, 0x02, 0xc0,
    ];
    let parsed = ReportDescriptor::try_from(&descriptor[..]).unwrap();
    for first in 0..=255u8 {
        let report = [first, 0x55];
        let ours = parse_hid_full_report(&report, &descriptor).ok();
        let theirs = parsed.find_input_report(&report);
        assert_eq!(ours.is_some(), theirs.is_some(), "for the first byte {}", first);
        if let (Some(snapshot), Some(layout)) = (ours, theirs) {
            let usages: Vec<u32> = layout
                .fields()
                .iter()
                .filter_map(|f| match f {
                    Field::Variable(v) => Some(u16::from(v.usage.usage_id) as u32),
                    _ => None,
                })
                .collect();
            let mut keys: Vec<u32> = snapshot.axis_values.keys().copied().collect();
            keys.sort();
            assert_eq!(keys, usages);
        }
    }
}
