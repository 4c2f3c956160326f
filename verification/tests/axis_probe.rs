use input_capture::axis::AxisValue;
use input_capture::events::AxisMovement;
use input_capture::gamepad::GamepadState;
use input_capture::hid::HidDeviceListItem;
use input_capture::probe::{
    detect_axis_movement_for_device, find_device, gamepad_axis_movement, parse_slot_number,
    probe_running, probe_target, AxisProbe, HidProbe, ProbeReading, ProbeTarget,
};

fn stick_descriptor() -> Vec<u8> {
    vec![
        0x05, 0x01, 0x09, 0x04, 0xa1, 0x01, 0x09, 0x30, 0x09, 0x31, 0x15, 0x00, 0x26, 0xff, 0x03,
        0x75, 0x10, 0x95, 0x02, 0x81, 0x02, 0x05, 0x09, 0x19, 0x01, 0x29, 0x08, 0x15, 0x00, 0x25,
        0x01, 0x75, 0x01, 0x95, 0x08, 0x81, 0x02, 0xc0,
    ]
}

fn report(x: u16, y: u16) -> Vec<u8> {
    vec![(x & 0xff) as u8, (x >> 8) as u8, (y & 0xff) as u8, (y >> 8) as u8, 0]
}

#[test]
fn identity_names_a_slot_or_a_hid_device() {
    assert_eq!(probe_target("xinput_0"), Ok(ProbeTarget::Gamepad(0)));
    assert_eq!(probe_target("xinput_3"), Ok(ProbeTarget::Gamepad(3)));
    assert_eq!(probe_target("xinput_17"), Ok(ProbeTarget::Gamepad(17)));
    assert_eq!(probe_target("231d:0200"), Ok(ProbeTarget::Hid));
    assert_eq!(probe_target(""), Ok(ProbeTarget::Hid));
    assert_eq!(probe_target("xinput"), Ok(ProbeTarget::Hid));
    assert_eq!(probe_target("Xinput_1"), Ok(ProbeTarget::Hid));
}

#[test]
fn slot_identity_without_a_number_is_refused() {
    assert_eq!(probe_target("xinput_"), Err("Invalid XInput UUID".to_string()));
    assert_eq!(probe_target("xinput_x"), Err("Invalid XInput UUID".to_string()));
    assert_eq!(probe_target("xinput_1 "), Err("Invalid XInput UUID".to_string()));
    assert_eq!(probe_target("xinput_-1"), Err("Invalid XInput UUID".to_string()));
    assert_eq!(probe_target("xinput_4294967296"), Err("Invalid XInput UUID".to_string()));
}

#[test]
fn slot_number_reads_as_the_standard_library_reads_it() {
    for text in [
        "0", "7", "42", "007", "+5", "+", "", "-3", "4294967295", "4294967296", "99999999999",
        "12a", "a12", " 1", "1 ", "1_0", "++1", "٣",
    ] {
        assert_eq!(parse_slot_number(text), text.parse::<u32>().ok(), "for {:?}", text);
    }
}

#[test]
fn device_is_found_by_its_key() {
    let device = |vendor_id: u16, product_id: u16| HidDeviceListItem {
        vendor_id,
        product_id,
        serial_number: None,
        manufacturer: None,
        product: None,
        path: String::new(),
        interface_number: 0,
    };
    let devices = vec![device(1, 2), device(0x231d, 0x0200), device(0x231d, 0x0200)];
    assert_eq!(find_device(&devices, "231d:0200"), Ok(1));
    assert_eq!(find_device(&devices, "0001:0002"), Ok(0));
    assert_eq!(find_device(&devices, "231D:0200"), Err("Device not found: 231D:0200".to_string()));
    assert_eq!(find_device(&vec![], "0001:0002"), Err("Device not found: 0001:0002".to_string()));
}

#[test]
fn probe_runs_while_time_is_left() {
    assert!(probe_running(0, 1));
    assert!(probe_running(999, 1000));
    assert!(!probe_running(1000, 1000));
    assert!(!probe_running(0, 0));
    assert!(!probe_running(u128::MAX, u64::MAX));
}

fn pad(lx: i16, ry: i16, right_trigger: u8) -> GamepadState {
    GamepadState {
        buttons: 0,
        left_trigger: 0,
        right_trigger,
        thumb_lx: lx,
        thumb_ly: 0,
        thumb_rx: 0,
        thumb_ry: ry,
    }
}

#[test]
fn controller_axis_that_moved_is_found() {
    let initial = pad(0, 0, 0);
    assert_eq!(gamepad_axis_movement(&initial, &initial), None);
    assert_eq!(
        gamepad_axis_movement(&initial, &pad(0, -8000, 0)),
        Some(AxisMovement { axis_id: 4, value: AxisValue { num: -8000, den: 32768 } })
    );
    // 4915 / 32768 is just below three twentieths, 4916 / 32768 just above
    assert_eq!(gamepad_axis_movement(&initial, &pad(4915, 0, 0)), None);
    assert_eq!(
        gamepad_axis_movement(&initial, &pad(4916, 0, 0)),
        Some(AxisMovement { axis_id: 1, value: AxisValue { num: 4916, den: 32768 } })
    );
}

#[test]
fn lowest_numbered_controller_axis_is_found_first() {
    let initial = pad(0, 0, 0);
    assert_eq!(
        gamepad_axis_movement(&initial, &pad(20000, 20000, 255)).map(|m| m.axis_id),
        Some(1)
    );
    assert_eq!(gamepad_axis_movement(&initial, &pad(0, 20000, 255)).map(|m| m.axis_id), Some(4));
    assert_eq!(gamepad_axis_movement(&initial, &pad(0, 0, 255)).map(|m| m.axis_id), Some(6));
}

#[test]
fn trigger_at_rest_has_not_moved() {
    // a trigger at rest stands at -1, far from the center, but has not moved
    let initial = pad(0, 0, 0);
    assert_eq!(gamepad_axis_movement(&initial, &pad(0, 0, 0)), None);
    // an axis that was deflected from the start and stays there has not moved
    let deflected = pad(30000, 0, 0);
    assert_eq!(gamepad_axis_movement(&deflected, &pad(30000, 0, 0)), None);
}

#[test]
fn hid_axis_that_moved_is_found() {
    let probe = HidProbe::begin(&stick_descriptor(), &report(512, 512), 0).unwrap();
    assert_eq!(probe.check(&report(512, 512), 1), None);
    assert_eq!(
        probe.check(&report(512, 1023), 2),
        Some(AxisMovement { axis_id: 2, value: AxisValue { num: 1023, den: 1023 } })
    );
    assert_eq!(
        probe.check(&report(0, 1023), 3),
        Some(AxisMovement { axis_id: 1, value: AxisValue { num: -1023, den: 1023 } })
    );
}

#[test]
fn hid_axis_must_move_by_a_twentieth_and_leave_the_center() {
    let probe = HidProbe::begin(&stick_descriptor(), &report(512, 512), 0).unwrap();
    // 51 * 20 = 1020 < 1023: not moved enough
    assert_eq!(probe.check(&report(563, 512), 0), None);
    // moved enough, but 2 * 564 - 1023 = 105, and 105 * 20 < 3 * 1023
    assert_eq!(probe.check(&report(564, 512), 0), None);
    // 2 * 589 - 1023 = 155, and 155 * 20 = 3100 > 3069
    assert_eq!(probe.check(&report(589, 512), 0).map(|m| m.axis_id), Some(1));
    // 2 * 588 - 1023 = 153, and 153 * 20 = 3060 < 3069
    assert_eq!(probe.check(&report(588, 512), 0), None);
}

#[test]
fn report_that_cannot_be_decoded_shows_no_movement() {
    let probe = HidProbe::begin(&stick_descriptor(), &report(512, 512), 0).unwrap();
    assert_eq!(probe.check(&[], 0), None);
    assert_eq!(probe.check(&[0xff, 0x03], 0), None);
}

#[test]
fn probe_cannot_begin_without_a_first_snapshot() {
    let short = HidProbe::begin(&stick_descriptor(), &[1, 2], 0).unwrap_err();
    assert_eq!(short, "Failed to parse initial report: No matching input report found");
    let broken = HidProbe::begin(&[0x05, 0x01, 0x26], &report(0, 0), 0).unwrap_err();
    assert!(broken.starts_with("Failed to parse initial report: Failed to parse report descriptor: "));
    let odd = HidProbe::begin(&[0x09, 0x30, 0x81, 0x02], &report(0, 0), 0).unwrap_err();
    assert_eq!(
        odd,
        "Failed to parse initial report: Failed to parse report descriptor: unsupported layout"
    );
}

#[test]
fn probe_takes_the_reading_of_its_own_backend() {
    let pad_probe = AxisProbe::Gamepad(pad(0, 0, 0));
    assert_eq!(
        detect_axis_movement_for_device(&pad_probe, &ProbeReading::Gamepad(pad(0, 0, 255)), 0)
            .map(|m| m.axis_id),
        Some(6)
    );
    assert_eq!(
        detect_axis_movement_for_device(&pad_probe, &ProbeReading::Report(report(0, 0)), 0),
        None
    );
    let hid_probe =
        AxisProbe::Hid(HidProbe::begin(&stick_descriptor(), &report(512, 512), 0).unwrap());
    assert_eq!(
        detect_axis_movement_for_device(&hid_probe, &ProbeReading::Report(report(0, 512)), 0)
            .map(|m| m.axis_id),
        Some(1)
    );
    assert_eq!(
        detect_axis_movement_for_device(&hid_probe, &ProbeReading::Gamepad(pad(30000, 0, 0)), 0),
        None
    );
}
