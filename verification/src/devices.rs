//! The listing of the connected devices: which of them are shown, under
//! which name and class, and with how many controls.

use crate::descriptor::{axes_of, descriptor_fault, parsed_input_reports};
use crate::events::{
    format_xinput_device_name, resolve_xinput_uuid, xinput_device_name, xinput_uuid,
};
use crate::gamepad::GAMEPAD_SLOTS;
use crate::hid::{get_axis_names_from_descriptor, listed_names, HidDeviceListItem};
use crate::polling::{descriptor_bytes, OpenedDevice};
use crate::report::name_texts;
use crate::text::{
    format_hardware_key, hardware_key, has_substring, lowercase, str_contains, text_of, texts_of,
    to_lowercase,
};
use vstd::prelude::*;

verus! {

/// One device of the combined listing of HID devices and controllers of
/// the vendor API.
#[derive(Clone, Debug)]
pub struct JoystickInfo {
    /// The 1-based position in the listing.
    pub id: usize,
    pub name: String,
    pub is_connected: bool,
    pub button_count: usize,
    pub axis_count: usize,
    pub hat_count: usize,
    pub device_type: String,
    /// The vendor:product key of a HID device.
    pub uuid: Option<String>,
}

/// One connected device with its identity.
#[derive(Clone, Debug)]
pub struct DeviceInfo {
    pub uuid: String,
    pub name: String,
    pub axis_count: usize,
    pub button_count: usize,
    pub hat_count: usize,
    pub device_type: String,
    pub is_connected: bool,
}

/// What a `JoystickInfo` holds, as mathematical values.
pub struct JoystickRecord {
    pub id: nat,
    pub name: Seq<char>,
    pub is_connected: bool,
    pub button_count: nat,
    pub axis_count: nat,
    pub hat_count: nat,
    pub device_type: Seq<char>,
    pub uuid: Option<Seq<char>>,
}

/// What a `DeviceInfo` holds, as mathematical values.
pub struct DeviceRecord {
    pub uuid: Seq<char>,
    pub name: Seq<char>,
    pub axis_count: nat,
    pub button_count: nat,
    pub hat_count: nat,
    pub device_type: Seq<char>,
    pub is_connected: bool,
}

impl View for JoystickInfo {
    type V = JoystickRecord;

    open spec fn view(&self) -> JoystickRecord {
        JoystickRecord {
            id: self.id as nat,
            name: self.name@,
            is_connected: self.is_connected,
            button_count: self.button_count as nat,
            axis_count: self.axis_count as nat,
            hat_count: self.hat_count as nat,
            device_type: self.device_type@,
            uuid: text_of(self.uuid),
        }
    }
}

impl View for DeviceInfo {
    type V = DeviceRecord;

    open spec fn view(&self) -> DeviceRecord {
        DeviceRecord {
            uuid: self.uuid@,
            name: self.name@,
            axis_count: self.axis_count as nat,
            button_count: self.button_count as nat,
            hat_count: self.hat_count as nat,
            device_type: self.device_type@,
            is_connected: self.is_connected,
        }
    }
}

/// Whether a name in lower case holds one of the words that mark a
/// joystick, a throttle or a HOTAS.
pub open spec fn names_joystick(lower: Seq<char>) -> bool {
    ||| has_substring(lower, "joystick"@)
    ||| has_substring(lower, "hotas"@)
    ||| has_substring(lower, "throttle"@)
    ||| has_substring(lower, "gladiator"@)
    ||| has_substring(lower, "warthog"@)
    ||| has_substring(lower, "t16000"@)
    ||| has_substring(lower, "vkb"@)
    ||| has_substring(lower, "vkbsim"@)
    ||| has_substring(lower, "virpil"@)
    ||| has_substring(lower, "thrustmaster"@)
    ||| has_substring(lower, "saitek"@)
    ||| has_substring(lower, "x52"@)
    ||| has_substring(lower, "x56"@)
}

/// Whether a name in lower case holds one of the words that mark a
/// gamepad.
pub open spec fn names_gamepad(lower: Seq<char>) -> bool {
    ||| has_substring(lower, "xbox"@)
    ||| has_substring(lower, "playstation"@)
    ||| has_substring(lower, "dualshock"@)
    ||| has_substring(lower, "dualsense"@)
    ||| has_substring(lower, "ps3"@)
    ||| has_substring(lower, "ps4"@)
    ||| has_substring(lower, "ps5"@)
    ||| has_substring(lower, "controller for windows"@)
    ||| has_substring(lower, "gamepad"@)
    ||| has_substring(lower, "xinput"@)
}

/// Whether a device of this name counts as a gamepad: its name in lower
/// case holds a word that marks a gamepad and none that marks a joystick.
/// The words that mark a joystick take precedence, and a name with
/// neither kind of word is that of a joystick.
pub open spec fn is_gamepad_name(name: Seq<char>) -> bool {
    !names_joystick(lowercase(name)) && names_gamepad(lowercase(name))
}

fn has_joystick_word(lower: &str) -> (found: bool)
    ensures
        found == names_joystick(lower@),
{
    str_contains(lower, "joystick") || str_contains(lower, "hotas") || str_contains(
        lower,
        "throttle",
    ) || str_contains(lower, "gladiator") || str_contains(lower, "warthog") || str_contains(
        lower,
        "t16000",
    ) || str_contains(lower, "vkb") || str_contains(lower, "vkbsim") || str_contains(
        lower,
        "virpil",
    ) || str_contains(lower, "thrustmaster") || str_contains(lower, "saitek") || str_contains(
        lower,
        "x52",
    ) || str_contains(lower, "x56")
}

fn has_gamepad_word(lower: &str) -> (found: bool)
    ensures
        found == names_gamepad(lower@),
{
    str_contains(lower, "xbox") || str_contains(lower, "playstation") || str_contains(
        lower,
        "dualshock",
    ) || str_contains(lower, "dualsense") || str_contains(lower, "ps3") || str_contains(
        lower,
        "ps4",
    ) || str_contains(lower, "ps5") || str_contains(lower, "controller for windows")
        || str_contains(lower, "gamepad") || str_contains(lower, "xinput")
}

/// Whether a device of this name counts as a gamepad.
pub fn is_gamepad(name: &str) -> (gamepad: bool)
    ensures
        gamepad == is_gamepad_name(name@),
{
    let lower = to_lowercase(name);
    if has_joystick_word(lower.as_str()) {
        false
    } else {
        has_gamepad_word(lower.as_str())
    }
}

/// A name that holds `x52` in its lower-case form is never that of a
/// gamepad, whatever else it holds: the words that mark a joystick take
/// precedence.
pub proof fn lemma_x52_is_no_gamepad(name: Seq<char>)
    requires
        has_substring(lowercase(name), "x52"@),
    ensures
        !is_gamepad_name(name),
{
}

/// A name that holds a word that marks a joystick is never that of a
/// gamepad.
pub proof fn lemma_joystick_words_take_precedence(name: Seq<char>)
    requires
        names_joystick(lowercase(name)),
    ensures
        !is_gamepad_name(name),
{
}

/// The state of the six modifier keys as the platform reports them: a
/// key is down where its state is negative, which is where the high bit
/// of the state is set.
#[derive(Clone, Copy, Debug, PartialEq, Eq, Structural)]
pub struct ModifierKeys {
    pub left_alt: i16,
    pub right_alt: i16,
    pub left_ctrl: i16,
    pub right_ctrl: i16,
    pub left_shift: i16,
    pub right_shift: i16,
}

/// The list with `name` at its end where the key is down.
pub open spec fn with_key(names: Seq<Seq<char>>, state: i16, name: Seq<char>) -> Seq<Seq<char>> {
    if state < 0 {
        names.push(name)
    } else {
        names
    }
}

/// The names of the modifier keys that are down, in the fixed order
/// `LALT`, `RALT`, `LCTRL`, `RCTRL`, `LSHIFT`, `RSHIFT`.
pub open spec fn active_modifiers(keys: ModifierKeys) -> Seq<Seq<char>> {
    with_key(
        with_key(
            with_key(
                with_key(
                    with_key(
                        with_key(Seq::empty(), keys.left_alt, "LALT"@),
                        keys.right_alt,
                        "RALT"@,
                    ),
                    keys.left_ctrl,
                    "LCTRL"@,
                ),
                keys.right_ctrl,
                "RCTRL"@,
            ),
            keys.left_shift,
            "LSHIFT"@,
        ),
        keys.right_shift,
        "RSHIFT"@,
    )
}

fn push_key(names: &mut Vec<String>, state: i16, name: &str)
    ensures
        texts_of(final(names)@) == with_key(
            texts_of(old(names)@),
            state,
            name@,
        ),
{
    if state < 0 {
        names.push(String::from_str(name));
        assert(texts_of(names@) =~= texts_of(old(names)@).push(name@));
    }
}

/// The names of the modifier keys that are down.
pub fn get_active_modifiers(keys: &ModifierKeys) -> (names: Vec<String>)
    ensures
        texts_of(names@) == active_modifiers(*keys),
{
    let mut names: Vec<String> = Vec::new();
    assert(texts_of(names@) =~= Seq::empty());
    push_key(&mut names, keys.left_alt, "LALT");
    push_key(&mut names, keys.right_alt, "RALT");
    push_key(&mut names, keys.left_ctrl, "LCTRL");
    push_key(&mut names, keys.right_ctrl, "RCTRL");
    push_key(&mut names, keys.left_shift, "LSHIFT");
    push_key(&mut names, keys.right_shift, "RSHIFT");
    names
}

/// The name under which a HID device is listed with its maker: the maker
/// and the product with a blank between them, or the product alone where
/// no maker is known.
pub open spec fn full_name(item: HidDeviceListItem) -> Seq<char> {
    let product = match item.product {
        Some(product) => product@,
        None => "Unknown HID Device"@,
    };
    match item.manufacturer {
        Some(maker) => if maker@.len() > 0 {
            maker@ + " "@ + product
        } else {
            product
        },
        None => product,
    }
}

/// Whether the vendor API lists a device of this name itself, so that the
/// HID listing leaves it out.
pub open spec fn covered_by_vendor_api(name: Seq<char>) -> bool {
    ||| has_substring(lowercase(name), "xbox"@)
    ||| has_substring(lowercase(name), "xinput"@)
    ||| has_substring(lowercase(name), "controller for windows"@)
}

/// Whether the vendor API lists a device of this product name itself.
pub open spec fn product_covered_by_vendor_api(name: Seq<char>) -> bool {
    ||| has_substring(lowercase(name), "xbox"@)
    ||| has_substring(lowercase(name), "xinput"@)
}

/// How many axes a HID device is listed with: as many as its descriptor
/// names, and 6 where it has no descriptor that can be decoded.
pub open spec fn listed_axis_count(descriptor: Option<Seq<u8>>) -> nat {
    match descriptor {
        Some(bytes) => if descriptor_fault(bytes) is None {
            listed_names(axes_of(parsed_input_reports(bytes).unwrap())).len()
        } else {
            6
        },
        None => 6,
    }
}

/// The word for the class of a device.
pub open spec fn class_word(gamepad: bool) -> Seq<char> {
    if gamepad {
        "Gamepad"@
    } else {
        "Joystick"@
    }
}

/// The entry of a HID device that is listed at position `id`.
pub open spec fn hid_joystick_record(id: nat, device: OpenedDevice) -> JoystickRecord {
    JoystickRecord {
        id,
        name: full_name(device.item),
        is_connected: true,
        button_count: 32,
        axis_count: listed_axis_count(descriptor_bytes(device.descriptor)),
        hat_count: 1,
        device_type: class_word(is_gamepad_name(full_name(device.item))),
        uuid: Some(hardware_key(device.item.vendor_id, device.item.product_id)),
    }
}

/// The entry of a controller of the vendor API that is listed at position
/// `id`.
pub open spec fn gamepad_joystick_record(id: nat, controller_id: u32) -> JoystickRecord {
    JoystickRecord {
        id,
        name: xinput_device_name(controller_id),
        is_connected: true,
        button_count: 15,
        axis_count: 6,
        hat_count: 1,
        device_type: "Gamepad"@,
        uuid: None,
    }
}

/// The listing of the first `upto` HID devices. Where the vendor API is at
/// hand, the devices that it lists itself are left out.
pub open spec fn listed_hid_joysticks(
    devices: Seq<OpenedDevice>,
    vendor_api: bool,
    upto: nat,
) -> Seq<JoystickRecord>
    decreases upto,
{
    if upto == 0 {
        Seq::empty()
    } else {
        let before = listed_hid_joysticks(devices, vendor_api, (upto - 1) as nat);
        let device = devices[upto - 1];
        if vendor_api && covered_by_vendor_api(full_name(device.item)) {
            before
        } else {
            before.push(hid_joystick_record(before.len() + 1, device))
        }
    }
}

/// Whether the controller in slot `i` is connected.
pub open spec fn connected_at(connected: Seq<bool>, i: int) -> bool {
    0 <= i < connected.len() && connected[i]
}

/// The listing with the first `upto` controllers of the vendor API that
/// are connected added to it.
pub open spec fn with_gamepad_joysticks(
    listed: Seq<JoystickRecord>,
    connected: Seq<bool>,
    upto: nat,
) -> Seq<JoystickRecord>
    decreases upto,
{
    if upto == 0 {
        listed
    } else {
        let before = with_gamepad_joysticks(listed, connected, (upto - 1) as nat);
        if connected_at(connected, upto - 1) {
            before.push(gamepad_joystick_record(before.len() + 1, (upto - 1) as u32))
        } else {
            before
        }
    }
}

/// The combined listing: the HID devices in enumeration order, then the
/// controllers of the vendor API in the order of their slots, numbered
/// from 1 without gaps.
pub open spec fn joystick_listing(
    devices: Seq<OpenedDevice>,
    connected: Seq<bool>,
    vendor_api: bool,
) -> Seq<JoystickRecord> {
    with_gamepad_joysticks(
        listed_hid_joysticks(devices, vendor_api, devices.len()),
        connected,
        GAMEPAD_SLOTS as nat,
    )
}

/// The records of a listing.
pub open spec fn joystick_records(v: Seq<JoystickInfo>) -> Seq<JoystickRecord> {
    Seq::new(v.len(), |i: int| v[i]@)
}

/// The records of a listing.
pub open spec fn device_records(v: Seq<DeviceInfo>) -> Seq<DeviceRecord> {
    Seq::new(v.len(), |i: int| v[i]@)
}

fn format_full_name(item: &HidDeviceListItem) -> (name: String)
    ensures
        name@ == full_name(*item),
{
    let product = match &item.product {
        Some(product) => product.clone(),
        None => String::from_str("Unknown HID Device"),
    };
    match &item.manufacturer {
        Some(maker) => {
            if maker.as_str().unicode_len() > 0 {
                let mut name = maker.clone();
                name.append(" ");
                name.append(product.as_str());
                name
            } else {
                product
            }
        },
        None => product,
    }
}

fn is_covered_by_vendor_api(name: &str) -> (covered: bool)
    ensures
        covered == covered_by_vendor_api(name@),
{
    let lower = to_lowercase(name);
    str_contains(lower.as_str(), "xbox") || str_contains(lower.as_str(), "xinput")
        || str_contains(lower.as_str(), "controller for windows")
}

fn is_product_covered_by_vendor_api(name: &str) -> (covered: bool)
    ensures
        covered == product_covered_by_vendor_api(name@),
{
    let lower = to_lowercase(name);
    str_contains(lower.as_str(), "xbox") || str_contains(lower.as_str(), "xinput")
}

fn count_listed_axes(descriptor: &Option<Vec<u8>>) -> (count: usize)
    ensures
        count == listed_axis_count(descriptor_bytes(*descriptor)),
{
    broadcast use vstd::std_specs::hash::group_hash_axioms;

    match descriptor {
        Some(bytes) => match get_axis_names_from_descriptor(bytes.as_slice()) {
            Ok(names) => {
                assert(name_texts(names@).dom() =~= names@.dom());
                names.len()
            },
            Err(_) => 6,
        },
        None => 6,
    }
}

/// Lists the connected devices: the HID game controllers that were found,
/// then the controllers of the vendor API that are connected.
///
/// `vendor_api` says whether the platform has the vendor API; where it
/// has, the HID devices that the API lists itself are left out. The
/// listing never fails.
pub fn detect_joysticks(
    devices: &Vec<OpenedDevice>,
    connected: &Vec<bool>,
    vendor_api: bool,
) -> (r: Result<Vec<JoystickInfo>, String>)
    requires
        devices.len() + GAMEPAD_SLOTS <= usize::MAX,
    ensures
        r is Ok,
        joystick_records(r.unwrap()@) == joystick_listing(devices@, connected@, vendor_api),
{
    let mut listed: Vec<JoystickInfo> = Vec::new();
    assert(joystick_records(listed@) =~= listed_hid_joysticks(devices@, vendor_api, 0));
    let mut i: usize = 0;
    while i < devices.len()
        invariant
            i <= devices.len(),
            listed@.len() <= i,
            joystick_records(listed@) == listed_hid_joysticks(devices@, vendor_api, i as nat),
        decreases devices.len() - i,
    {
        let device = &devices[i];
        let name = format_full_name(&device.item);
        if !(vendor_api && is_covered_by_vendor_api(name.as_str())) {
            let gamepad = is_gamepad(name.as_str());
            let entry = JoystickInfo {
                id: listed.len() + 1,
                name,
                is_connected: true,
                button_count: 32,
                axis_count: count_listed_axes(&device.descriptor),
                hat_count: 1,
                device_type: if gamepad {
                    String::from_str("Gamepad")
                } else {
                    String::from_str("Joystick")
                },
                uuid: Some(format_hardware_key(device.item.vendor_id, device.item.product_id)),
            };
            let ghost before = listed@;
            listed.push(entry);
            assert(joystick_records(listed@) =~= joystick_records(before).push(entry@));
        }
        i += 1;
    }
    let ghost hid = joystick_records(listed@);
    let mut slot: usize = 0;
    while slot < GAMEPAD_SLOTS
        invariant
            slot <= GAMEPAD_SLOTS,
            devices.len() + GAMEPAD_SLOTS <= usize::MAX,
            listed@.len() <= devices.len() + slot,
            joystick_records(listed@) == with_gamepad_joysticks(hid, connected@, slot as nat),
        decreases GAMEPAD_SLOTS - slot,
    {
        if slot < connected.len() && connected[slot] {
            let entry = JoystickInfo {
                id: listed.len() + 1,
                name: format_xinput_device_name(slot as u32),
                is_connected: true,
                button_count: 15,
                axis_count: 6,
                hat_count: 1,
                device_type: String::from_str("Gamepad"),
                uuid: None,
            };
            let ghost before = listed@;
            listed.push(entry);
            assert(joystick_records(listed@) =~= joystick_records(before).push(entry@));
        }
        slot += 1;
    }
    Ok(listed)
}

/// The name under which a HID device is shown.
pub open spec fn product_name(item: HidDeviceListItem) -> Seq<char> {
    match item.product {
        Some(product) => product@,
        None => "Unknown Device"@,
    }
}

/// The entry of a HID device: a gamepad is listed with 6 axes and 15
/// buttons, a joystick with 7 axes and 32 buttons.
pub open spec fn hid_device_record(item: HidDeviceListItem) -> DeviceRecord {
    let gamepad = is_gamepad_name(product_name(item));
    DeviceRecord {
        uuid: hardware_key(item.vendor_id, item.product_id),
        name: product_name(item),
        axis_count: if gamepad {
            6
        } else {
            7
        },
        button_count: if gamepad {
            15
        } else {
            32
        },
        hat_count: 1,
        device_type: if gamepad {
            "gamepad"@
        } else {
            "joystick"@
        },
        is_connected: true,
    }
}

/// The entry of a controller of the vendor API.
pub open spec fn gamepad_device_record(controller_id: u32) -> DeviceRecord {
    DeviceRecord {
        uuid: xinput_uuid(controller_id),
        name: xinput_device_name(controller_id),
        axis_count: 6,
        button_count: 15,
        hat_count: 1,
        device_type: "Gamepad"@,
        is_connected: true,
    }
}

/// The entries of the first `upto` HID devices.
pub open spec fn listed_hid_devices(
    items: Seq<HidDeviceListItem>,
    vendor_api: bool,
    upto: nat,
) -> Seq<DeviceRecord>
    decreases upto,
{
    if upto == 0 {
        Seq::empty()
    } else {
        let before = listed_hid_devices(items, vendor_api, (upto - 1) as nat);
        let item = items[upto - 1];
        if vendor_api && product_covered_by_vendor_api(product_name(item)) {
            before
        } else {
            before.push(hid_device_record(item))
        }
    }
}

/// Whether an entry of the listing has the identity.
pub open spec fn lists_uuid(listed: Seq<DeviceRecord>, uuid: Seq<char>) -> bool {
    exists|i: int| 0 <= i < listed.len() && (#[trigger] listed[i]).uuid == uuid
}

/// The listing with the first `upto` controllers of the vendor API that
/// are connected added to it, each unless its identity is listed already.
pub open spec fn with_gamepad_devices(
    listed: Seq<DeviceRecord>,
    connected: Seq<bool>,
    upto: nat,
) -> Seq<DeviceRecord>
    decreases upto,
{
    if upto == 0 {
        listed
    } else {
        let before = with_gamepad_devices(listed, connected, (upto - 1) as nat);
        if connected_at(connected, upto - 1) && !lists_uuid(
            before,
            xinput_uuid((upto - 1) as u32),
        ) {
            before.push(gamepad_device_record((upto - 1) as u32))
        } else {
            before
        }
    }
}

/// The listing of the connected devices with their identities.
pub open spec fn device_listing(
    items: Seq<HidDeviceListItem>,
    connected: Seq<bool>,
    vendor_api: bool,
) -> Seq<DeviceRecord> {
    with_gamepad_devices(
        listed_hid_devices(items, vendor_api, items.len()),
        connected,
        GAMEPAD_SLOTS as nat,
    )
}

fn has_uuid(listed: &Vec<DeviceInfo>, uuid: &String) -> (found: bool)
    ensures
        found == lists_uuid(device_records(listed@), uuid@),
{
    let mut i: usize = 0;
    while i < listed.len()
        invariant
            i <= listed.len(),
            forall|j: int| 0 <= j < i ==> (#[trigger] device_records(listed@)[j]).uuid != uuid@,
        decreases listed.len() - i,
    {
        if listed[i].uuid == *uuid {
            assert(device_records(listed@)[i as int].uuid == uuid@);
            return true;
        }
        i += 1;
    }
    false
}

/// Lists the connected devices with their identities: the HID game
/// controllers that were found, then the controllers of the vendor API
/// that are connected. The listing never fails.
pub fn list_connected_devices(
    items: &Vec<HidDeviceListItem>,
    connected: &Vec<bool>,
    vendor_api: bool,
) -> (r: Result<Vec<DeviceInfo>, String>)
    ensures
        r is Ok,
        device_records(r.unwrap()@) == device_listing(items@, connected@, vendor_api),
{
    let mut listed: Vec<DeviceInfo> = Vec::new();
    assert(device_records(listed@) =~= listed_hid_devices(items@, vendor_api, 0));
    let mut i: usize = 0;
    while i < items.len()
        invariant
            i <= items.len(),
            device_records(listed@) == listed_hid_devices(items@, vendor_api, i as nat),
        decreases items.len() - i,
    {
        let item = &items[i];
        let name = match &item.product {
            Some(product) => product.clone(),
            None => String::from_str("Unknown Device"),
        };
        if !(vendor_api && is_product_covered_by_vendor_api(name.as_str())) {
            let gamepad = is_gamepad(name.as_str());
            let entry = DeviceInfo {
                uuid: format_hardware_key(item.vendor_id, item.product_id),
                name,
                axis_count: if gamepad {
                    6
                } else {
                    7
                },
                button_count: if gamepad {
                    15
                } else {
                    32
                },
                hat_count: 1,
                device_type: if gamepad {
                    String::from_str("gamepad")
                } else {
                    String::from_str("joystick")
                },
                is_connected: true,
            };
            let ghost before = listed@;
            listed.push(entry);
            assert(device_records(listed@) =~= device_records(before).push(entry@));
        }
        i += 1;
    }
    let ghost hid = device_records(listed@);
    let mut slot: usize = 0;
    while slot < GAMEPAD_SLOTS
        invariant
            slot <= GAMEPAD_SLOTS,
            device_records(listed@) == with_gamepad_devices(hid, connected@, slot as nat),
        decreases GAMEPAD_SLOTS - slot,
    {
        if slot < connected.len() && connected[slot] {
            let uuid = resolve_xinput_uuid(slot as u32);
            if !has_uuid(&listed, &uuid) {
                let entry = DeviceInfo {
                    uuid,
                    name: format_xinput_device_name(slot as u32),
                    axis_count: 6,
                    button_count: 15,
                    hat_count: 1,
                    device_type: String::from_str("Gamepad"),
                    is_connected: true,
                };
                let ghost before = listed@;
                listed.push(entry);
                assert(device_records(listed@) =~= device_records(before).push(entry@));
            }
        }
        slot += 1;
    }
    Ok(listed)
}

} // verus!
