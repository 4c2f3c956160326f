use input_capture::axis::AxisValue;
use input_capture::gamepad::{axis_name, gamepad_button, newly_set_buttons, GamepadState};

fn resting() -> GamepadState {
    GamepadState {
        buttons: 0,
        left_trigger: 0,
        right_trigger: 0,
        thumb_lx: 0,
        thumb_ly: 0,
        thumb_rx: 0,
        thumb_ry: 0,
    }
}

#[test]
fn newly_set_bits_are_those_that_were_clear() {
    assert_eq!(newly_set_buttons(0x0000, 0x1000), 0x1000);
    assert_eq!(newly_set_buttons(0x1000, 0x1000), 0x0000);
    assert_eq!(newly_set_buttons(0x1000, 0x3000), 0x2000);
    assert_eq!(newly_set_buttons(0x3000, 0x1000), 0x0000);
    assert_eq!(newly_set_buttons(0x00ff, 0xff00), 0xff00);
}

#[test]
fn each_button_has_its_number() {
    let table: [(u16, u32); 14] = [
        (0x1000, 1),
        (0x2000, 2),
        (0x4000, 3),
        (0x8000, 4),
        (0x0100, 5),
        (0x0200, 6),
        (0x0010, 7),
        (0x0020, 8),
        (0x0040, 9),
        (0x0080, 10),
        (0x0001, 11),
        (0x0002, 12),
        (0x0004, 13),
        (0x0008, 14),
    ];
    for (mask, number) in table {
        assert_eq!(gamepad_button(mask), Some(number));
    }
}

#[test]
fn several_bits_and_unnumbered_bits_stand_for_no_button() {
    assert_eq!(gamepad_button(0), None);
    assert_eq!(gamepad_button(0x3000), None);
    assert_eq!(gamepad_button(0x0400), None);
    assert_eq!(gamepad_button(0x0800), None);
    assert_eq!(gamepad_button(0xffff), None);
}

#[test]
fn stick_value_is_raw_over_32768() {
    let mut state = resting();
    state.thumb_lx = 16384;
    state.thumb_ly = -32768;
    state.thumb_rx = 32767;
    state.thumb_ry = -1;
    assert_eq!(state.axis_value(1), AxisValue { num: 16384, den: 32768 });
    assert_eq!(state.axis_value(2), AxisValue { num: -32768, den: 32768 });
    assert_eq!(state.axis_value(3), AxisValue { num: 32767, den: 32768 });
    assert_eq!(state.axis_value(4), AxisValue { num: -1, den: 32768 });
}

#[test]
fn trigger_value_runs_from_minus_one_to_one() {
    let mut state = resting();
    state.left_trigger = 0;
    state.right_trigger = 255;
    assert_eq!(state.axis_value(5), AxisValue { num: -255, den: 255 });
    assert_eq!(state.axis_value(6), AxisValue { num: 255, den: 255 });
    state.left_trigger = 128;
    assert_eq!(state.axis_value(5), AxisValue { num: 1, den: 255 });
}

#[test]
fn axes_have_their_names() {
    assert_eq!(axis_name(1), "Left Stick X");
    assert_eq!(axis_name(2), "Left Stick Y");
    assert_eq!(axis_name(3), "Right Stick X");
    assert_eq!(axis_name(4), "Right Stick Y");
    assert_eq!(axis_name(5), "Left Trigger");
    assert_eq!(axis_name(6), "Right Trigger");
}
