use input_capture::descriptor::{
    decode_descriptor, error_message, is_descriptor_supported, DecodeError, Field,
};

fn stick_descriptor() -> Vec<u8> {
    vec![
        0x05, 0x01, 0x09, 0x04, 0xa1, 0x01, 0x09, 0x30, 0x09, 0x31, 0x15, 0x00, 0x26, 0xff, 0x03,
        0x75, 0x10, 0x95, 0x02, 0x81, 0x02, 0x05, 0x09, 0x19, 0x01, 0x29, 0x08, 0x15, 0x00, 0x25,
        0x01, 0x75, 0x01, 0x95, 0x08, 0x81, 0x02, 0xc0,
    ]
}

#[test]
fn usual_descriptor_is_supported() {
    assert!(is_descriptor_supported(&stick_descriptor()));
}

#[test]
fn empty_descriptor_is_left_to_the_parser() {
    assert!(is_descriptor_supported(&[]));
    let failure = decode_descriptor(&[]).unwrap_err();
    assert_eq!(failure.error, DecodeError::MalformedDescriptor);
}

#[test]
fn usage_without_page_needs_a_usage_page() {
    // a usage of one byte, then a data item: no page to resolve it with
    assert!(!is_descriptor_supported(&[0x09, 0x30, 0x75, 0x08, 0x95, 0x01, 0x81, 0x02]));
    // the same before a collection
    assert!(!is_descriptor_supported(&[0x09, 0x04, 0xa1, 0x01, 0xc0]));
    // a usage of two bytes names no page either
    assert!(!is_descriptor_supported(&[0x0a, 0x30, 0x00, 0x81, 0x02]));
    // with a usage page before the data item all is well
    assert!(is_descriptor_supported(&[0x09, 0x30, 0x05, 0x01, 0x75, 0x08, 0x95, 0x01, 0x81, 0x02]));
}

#[test]
fn items_that_use_no_usage_need_no_usage_page() {
    assert!(is_descriptor_supported(&[0xa1, 0x01, 0x05, 0x01, 0xc0]));
    assert!(is_descriptor_supported(&[0xa4, 0x05, 0x01]));
    assert!(is_descriptor_supported(&[0x75, 0x08, 0x95, 0x01, 0x81, 0x01]));
    assert!(decode_descriptor(&[0xa1, 0x01, 0x05, 0x01, 0xc0]).is_ok());
}

#[test]
fn usage_that_names_its_page_needs_no_usage_page() {
    let descriptor = [
        0x0b, 0x04, 0x00, 0x01, 0x00, 0xa1, 0x01, 0x0b, 0x30, 0x00, 0x01, 0x00, 0x15, 0x00, 0x25,
        0x7f, 0x75, 0x08, 0x95, 0x01, 0x81, 0x02, 0xc0,
    ];
    assert!(is_descriptor_supported(&descriptor));
    let decoded = decode_descriptor(&descriptor).unwrap();
    assert_eq!(decoded.axes().len(), 1);
    assert_eq!(decoded.axes()[0].usage_page, 0x01);
    assert_eq!(decoded.axes()[0].usage_id, 0x30);
}

#[test]
fn usage_is_used_up_by_the_item_that_resolves_it() {
    // the usage waits only until the first data item; the page may come after that
    assert!(is_descriptor_supported(&[
        0x05, 0x01, 0x09, 0x30, 0x75, 0x08, 0x95, 0x01, 0x81, 0x02, 0x81, 0x02
    ]));
    // an end of collection drops the usage that waits
    assert!(is_descriptor_supported(&[0x09, 0x30, 0xc0, 0x75, 0x08, 0x95, 0x01, 0x81, 0x02]));
}

#[test]
fn saved_state_keeps_its_usage_page() {
    // the page is set, saved, and restored: the usage after it can be resolved
    assert!(is_descriptor_supported(&[
        0x05, 0x01, 0xa4, 0xb4, 0x09, 0x30, 0x75, 0x08, 0x95, 0x01, 0x81, 0x02
    ]));
    // the page is set after the state was saved: restoring takes it away
    assert!(!is_descriptor_supported(&[
        0xa4, 0x05, 0x01, 0xb4, 0x09, 0x30, 0x75, 0x08, 0x95, 0x01, 0x81, 0x02
    ]));
    // the usage waits in the saved state and comes back with it
    assert!(!is_descriptor_supported(&[0x09, 0x30, 0xa4, 0x05, 0x01, 0xb4, 0x81, 0x02]));
    // a state that was saved with the usage is resolved with the page set after
    assert!(is_descriptor_supported(&[0x09, 0x30, 0xa4, 0x05, 0x01, 0x81, 0x02]));
    // restoring without a saved state ends the scan: the parser refuses it
    assert!(is_descriptor_supported(&[0xb4, 0x09, 0x30, 0x81, 0x02]));
    assert_eq!(
        decode_descriptor(&[0xb4, 0x09, 0x30, 0x81, 0x02]).unwrap_err().error,
        DecodeError::MalformedDescriptor
    );
}

#[test]
fn usage_range_of_more_than_65536_usages_is_not_supported() {
    let wide = [
        0x05, 0x09, 0x19, 0x00, 0x2b, 0x00, 0x00, 0x01, 0x00, 0x75, 0x01, 0x95, 0x01, 0x81, 0x00,
    ];
    assert!(!is_descriptor_supported(&wide));
    assert_eq!(decode_descriptor(&wide).unwrap_err().error, DecodeError::UnsupportedDescriptor);
    let widest = [
        0x05, 0x09, 0x19, 0x00, 0x2a, 0xff, 0xff, 0x75, 0x01, 0x95, 0x01, 0x81, 0x00,
    ];
    assert!(is_descriptor_supported(&widest));
    assert!(decode_descriptor(&widest).is_ok());
    // a range that runs backwards holds no usage
    let backwards = [
        0x05, 0x09, 0x1b, 0x00, 0x00, 0x01, 0x00, 0x29, 0x00, 0x75, 0x01, 0x95, 0x01, 0x81, 0x00,
    ];
    assert!(is_descriptor_supported(&backwards));
}

#[test]
fn large_report_count_is_not_supported() {
    let descriptor = [0x05, 0x01, 0x09, 0x30, 0x75, 0x08, 0x97, 0x00, 0x00, 0x01, 0x00, 0x81, 0x02];
    assert!(!is_descriptor_supported(&descriptor));
    let failure = decode_descriptor(&descriptor).unwrap_err();
    assert_eq!(failure.error, DecodeError::UnsupportedDescriptor);
}

#[test]
fn large_report_size_is_not_supported() {
    let descriptor = [0x05, 0x01, 0x09, 0x30, 0x77, 0x00, 0x00, 0x00, 0x01, 0x95, 0x01, 0x81, 0x02];
    assert!(!is_descriptor_supported(&descriptor));
}

#[test]
fn report_count_of_four_bytes_within_bounds_is_supported() {
    let descriptor = [0x05, 0x01, 0x09, 0x30, 0x75, 0x08, 0x97, 0x02, 0x00, 0x00, 0x00, 0x81, 0x02];
    assert!(is_descriptor_supported(&descriptor));
    let decoded = decode_descriptor(&descriptor).unwrap();
    assert_eq!(decoded.reports.len(), 1);
    assert_eq!(decoded.reports[0].fields.len(), 2);
}

#[test]
fn long_descriptor_is_not_supported() {
    let mut descriptor = vec![0x05, 0x01];
    while descriptor.len() <= 4096 {
        descriptor.extend_from_slice(&[0x05, 0x01]);
    }
    assert!(!is_descriptor_supported(&descriptor));
}

#[test]
fn cut_off_item_ends_the_scan() {
    assert!(is_descriptor_supported(&[0x05, 0x01, 0x26, 0xff]));
    let failure = decode_descriptor(&[0x05, 0x01, 0x26, 0xff]).unwrap_err();
    assert_eq!(failure.error, DecodeError::MalformedDescriptor);
    assert!(!failure.detail.is_empty());
}

#[test]
fn fields_are_copied_in_declaration_order() {
    let decoded = decode_descriptor(&stick_descriptor()).unwrap();
    assert_eq!(decoded.reports.len(), 1);
    let report = &decoded.reports[0];
    assert_eq!(report.report_id, None);
    assert_eq!(report.fields.len(), 10);
    match report.fields[0] {
        Field::Variable(v) => {
            assert_eq!(v.usage_page, 0x01);
            assert_eq!(v.usage_id, 0x30);
            assert_eq!((v.bit_start, v.bit_end), (0, 16));
            assert_eq!((v.logical_min, v.logical_max), (0, 1023));
        }
        _ => panic!("the first field is the X axis"),
    }
    match report.fields[1] {
        Field::Variable(v) => {
            assert_eq!(v.usage_id, 0x31);
            assert_eq!((v.bit_start, v.bit_end), (16, 32));
        }
        _ => panic!("the second field is the Y axis"),
    }
    match report.fields[9] {
        Field::Variable(v) => {
            assert_eq!(v.usage_page, 0x09);
            assert_eq!(v.usage_id, 8);
            assert_eq!((v.bit_start, v.bit_end), (39, 40));
        }
        _ => panic!("the last field is button 8"),
    }
}

#[test]
fn axes_leave_out_buttons_and_padding() {
    let decoded = decode_descriptor(&stick_descriptor()).unwrap();
    let axes = decoded.axes();
    assert_eq!(axes.len(), 2);
    assert_eq!(axes[0].usage_id, 0x30);
    assert_eq!(axes[1].usage_id, 0x31);
}

#[test]
fn report_id_and_padding_and_array_are_copied() {
    let descriptor = [
        0x05, 0x01, 0x09, 0x04, 0xa1, 0x01, 0x85, 0x07, // report id 7
        0x09, 0x30, 0x15, 0x81, 0x25, 0x7f, 0x75, 0x08, 0x95, 0x01, 0x81, 0x02, // X, signed
        0x75, 0x04, 0x95, 0x01, 0x81, 0x01, // padding of 4 bits
        0x05, 0x09, 0x19, 0x01, 0x29, 0x10, 0x15, 0x00, 0x25, 0x10, 0x75, 0x08, 0x95, 0x02, 0x81,
        0x00, // array of two entries
        0xc0,
    ];
    let decoded = decode_descriptor(&descriptor).unwrap();
    assert_eq!(decoded.reports.len(), 1);
    let report = &decoded.reports[0];
    assert_eq!(report.report_id, Some(7));
    assert_eq!(report.fields.len(), 3);
    match report.fields[0] {
        Field::Variable(v) => {
            assert_eq!((v.bit_start, v.bit_end), (8, 16));
            assert_eq!((v.logical_min, v.logical_max), (-127, 127));
        }
        _ => panic!("the first field is the X axis"),
    }
    match report.fields[1] {
        Field::Constant(c) => assert_eq!((c.bit_start, c.bit_end), (16, 20)),
        _ => panic!("the second field is padding"),
    }
    match report.fields[2] {
        Field::Array(a) => {
            assert_eq!((a.bit_start, a.bit_end), (20, 36));
            assert_eq!(a.report_count, 2);
            assert_eq!((a.logical_min, a.logical_max), (0, 16));
        }
        _ => panic!("the third field is the array"),
    }
}

#[test]
fn messages_name_the_failure() {
    assert_eq!(
        error_message(DecodeError::UnsupportedDescriptor, "ignored"),
        "Failed to parse report descriptor: unsupported layout"
    );
    assert_eq!(
        error_message(DecodeError::MalformedDescriptor, "too short"),
        "Failed to parse report descriptor: too short"
    );
    assert_eq!(error_message(DecodeError::EmptyReport, ""), "No matching input report found");
    assert_eq!(error_message(DecodeError::NoMatchingReport, ""), "No matching input report found");
    assert_eq!(error_message(DecodeError::ReportTooShort, ""), "No matching input report found");
}
