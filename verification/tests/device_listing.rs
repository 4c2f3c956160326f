use input_capture::devices::{
    detect_joysticks, get_active_modifiers, is_gamepad, list_connected_devices, ModifierKeys,
};
use input_capture::hid::HidDeviceListItem;
use input_capture::polling::OpenedDevice;

fn stick_descriptor() -> Vec<u8> {
    vec![
        0x05, 0x01, 0x09, 0x04, 0xa1, 0x01, 0x09, 0x30, 0x09, 0x31, 0x15, 0x00, 0x26, 0xff, 0x03,
        0x75, 0x10, 0x95, 0x02, 0x81, 0x02, 0x05, 0x09, 0x19, 0x01, 0x29, 0x08, 0x15, 0x00, 0x25,
        0x01, 0x75, 0x01, 0x95, 0x08, 0x81, 0x02, 0xc0,
    ]
}

fn item(maker: Option<&str>, product: Option<&str>, vendor_id: u16, product_id: u16) -> HidDeviceListItem {
    HidDeviceListItem {
        vendor_id,
        product_id,
        serial_number: None,
        manufacturer: maker.map(|m| m.to_string()),
        product: product.map(|p| p.to_string()),
        path: "p".to_string(),
        interface_number: 0,
    }
}

#[test]
fn gamepad_words_mark_a_gamepad() {
    assert!(is_gamepad("Xbox Wireless Controller"));
    assert!(is_gamepad("Sony PLAYSTATION(R)3 Controller"));
    assert!(is_gamepad("DualSense Wireless Controller"));
    assert!(is_gamepad("PS4 Controller"));
    assert!(is_gamepad("Controller for Windows"));
    assert!(is_gamepad("Logitech Gamepad F310"));
    assert!(is_gamepad("XInput device"));
}

#[test]
fn joystick_words_mark_a_joystick() {
    assert!(!is_gamepad("Logitech Joystick"));
    assert!(!is_gamepad("T.16000M"));
    assert!(!is_gamepad("T16000M FCS"));
    assert!(!is_gamepad("VKBsim Gladiator EVO R"));
    assert!(!is_gamepad("HOTAS Warthog Throttle"));
    assert!(!is_gamepad("VIRPIL Controls 20220720 R-VPC Stick MT-50CM2"));
    assert!(!is_gamepad("Saitek Pro Flight X-56 Rhino Stick"));
}

#[test]
fn name_with_x52_is_never_a_gamepad() {
    assert!(!is_gamepad("X52 Professional H.O.T.A.S."));
    assert!(!is_gamepad("X52 Gamepad"));
    assert!(!is_gamepad("Xbox X52 controller"));
    assert!(!is_gamepad("gamepad-x52-xinput"));
}

#[test]
fn joystick_words_take_precedence() {
    assert!(!is_gamepad("Thrustmaster Gamepad"));
    assert!(!is_gamepad("Xbox Joystick"));
    assert!(!is_gamepad("PS5 Throttle"));
}

#[test]
fn name_without_any_word_is_a_joystick() {
    assert!(!is_gamepad("Generic USB Device"));
    assert!(!is_gamepad(""));
}

#[test]
fn modifiers_come_in_fixed_order() {
    let none = ModifierKeys {
        left_alt: 0,
        right_alt: 0,
        left_ctrl: 0,
        right_ctrl: 0,
        left_shift: 0,
        right_shift: 0,
    };
    assert!(get_active_modifiers(&none).is_empty());
    let all = ModifierKeys {
        left_alt: i16::MIN,
        right_alt: -1,
        left_ctrl: i16::MIN + 1,
        right_ctrl: -32767,
        left_shift: -2,
        right_shift: i16::MIN,
    };
    assert_eq!(get_active_modifiers(&all), vec!["LALT", "RALT", "LCTRL", "RCTRL", "LSHIFT", "RSHIFT"]);
    let some = ModifierKeys { right_alt: i16::MIN, left_shift: -1, ..none };
    assert_eq!(get_active_modifiers(&some), vec!["RALT", "LSHIFT"]);
    // the low bit says that the key was pressed since the last call: it does not count
    let stale = ModifierKeys { left_ctrl: 1, right_shift: i16::MAX, ..none };
    assert!(get_active_modifiers(&stale).is_empty());
}

#[test]
fn joysticks_are_listed_with_their_axes() {
    let devices = vec![
        OpenedDevice {
            item: item(Some("VKB"), Some("Gladiator"), 0x231d, 0x0200),
            descriptor: Some(stick_descriptor()),
        },
        OpenedDevice { item: item(None, None, 0x0001, 0x0002), descriptor: None },
        OpenedDevice {
            item: item(Some(""), Some("Dualshock pad"), 0x054c, 0x05c4),
            descriptor: Some(vec![0x05]),
        },
    ];
    let listed = detect_joysticks(&devices, &vec![false, true, false, true], true).unwrap();
    assert_eq!(listed.len(), 5);

    assert_eq!(listed[0].id, 1);
    assert_eq!(listed[0].name, "VKB Gladiator");
    assert!(listed[0].is_connected);
    assert_eq!(listed[0].button_count, 32);
    assert_eq!(listed[0].axis_count, 2);
    assert_eq!(listed[0].hat_count, 1);
    assert_eq!(listed[0].device_type, "Joystick");
    assert_eq!(listed[0].uuid.as_deref(), Some("231d:0200"));

    assert_eq!(listed[1].id, 2);
    assert_eq!(listed[1].name, "Unknown HID Device");
    assert_eq!(listed[1].axis_count, 6);
    assert_eq!(listed[1].device_type, "Joystick");
    assert_eq!(listed[1].uuid.as_deref(), Some("0001:0002"));

    assert_eq!(listed[2].id, 3);
    assert_eq!(listed[2].name, "Dualshock pad");
    assert_eq!(listed[2].axis_count, 6);
    assert_eq!(listed[2].device_type, "Gamepad");

    assert_eq!(listed[3].id, 4);
    assert_eq!(listed[3].name, "Xbox Controller (XInput 1)");
    assert_eq!(listed[3].button_count, 15);
    assert_eq!(listed[3].axis_count, 6);
    assert_eq!(listed[3].hat_count, 1);
    assert_eq!(listed[3].device_type, "Gamepad");
    assert_eq!(listed[3].uuid, None);

    assert_eq!(listed[4].id, 5);
    assert_eq!(listed[4].name, "Xbox Controller (XInput 3)");
}

#[test]
fn devices_of_the_vendor_api_are_left_out_of_the_hid_listing() {
    let devices = vec![
        OpenedDevice { item: item(Some("Microsoft"), Some("Xbox One pad"), 1, 1), descriptor: None },
        OpenedDevice { item: item(None, Some("XINPUT compatible"), 2, 2), descriptor: None },
        OpenedDevice { item: item(None, Some("Controller for Windows"), 3, 3), descriptor: None },
        OpenedDevice { item: item(Some("Xbox"), Some("stick"), 4, 4), descriptor: None },
        OpenedDevice { item: item(None, Some("Warthog"), 5, 5), descriptor: None },
    ];
    let with_api = detect_joysticks(&devices, &vec![], true).unwrap();
    assert_eq!(with_api.len(), 1);
    assert_eq!(with_api[0].id, 1);
    assert_eq!(with_api[0].name, "Warthog");
    let without_api = detect_joysticks(&devices, &vec![], false).unwrap();
    assert_eq!(without_api.len(), 5);
    assert_eq!(without_api[0].device_type, "Gamepad");
    assert_eq!(without_api[4].id, 5);
}

#[test]
fn connected_devices_are_listed_with_their_identity() {
    let items = vec![
        item(Some("VKB"), Some("Gladiator"), 0x231d, 0x0200),
        item(None, Some("DualSense"), 0x054c, 0x0ce6),
        item(None, None, 0x1234, 0xabcd),
        item(None, Some("Xbox pad"), 0x045e, 0x02ea),
    ];
    let listed = list_connected_devices(&items, &vec![true, false, false, true], true).unwrap();
    assert_eq!(listed.len(), 5);

    assert_eq!(listed[0].uuid, "231d:0200");
    assert_eq!(listed[0].name, "Gladiator");
    assert_eq!(listed[0].axis_count, 7);
    assert_eq!(listed[0].button_count, 32);
    assert_eq!(listed[0].hat_count, 1);
    assert_eq!(listed[0].device_type, "joystick");
    assert!(listed[0].is_connected);

    assert_eq!(listed[1].uuid, "054c:0ce6");
    assert_eq!(listed[1].axis_count, 6);
    assert_eq!(listed[1].button_count, 15);
    assert_eq!(listed[1].device_type, "gamepad");

    assert_eq!(listed[2].uuid, "1234:abcd");
    assert_eq!(listed[2].name, "Unknown Device");
    assert_eq!(listed[2].device_type, "joystick");

    assert_eq!(listed[3].uuid, "xinput_0");
    assert_eq!(listed[3].name, "Xbox Controller (XInput 0)");
    assert_eq!(listed[3].axis_count, 6);
    assert_eq!(listed[3].button_count, 15);
    assert_eq!(listed[3].hat_count, 1);
    assert_eq!(listed[3].device_type, "Gamepad");

    assert_eq!(listed[4].uuid, "xinput_3");
}

#[test]
fn hid_listing_keeps_xbox_devices_where_there_is_no_vendor_api() {
    let items = vec![item(None, Some("Xbox pad"), 0x045e, 0x02ea)];
    let listed = list_connected_devices(&items, &vec![], false).unwrap();
    assert_eq!(listed.len(), 1);
    assert_eq!(listed[0].device_type, "gamepad");
    // a "controller for windows" is only left out of the listing with makers
    let items = vec![item(None, Some("Controller for Windows"), 1, 1)];
    let listed = list_connected_devices(&items, &vec![], true).unwrap();
    assert_eq!(listed.len(), 1);
}
