//! The records that detection publishes, and the canonical identifiers
//! that they carry.

use crate::axis::{AxisValue, Direction};
use crate::text::{
    decimal, format_hardware_key, hardware_key, hex4, push_decimal, push_hex4, text_of, texts_of,
};
use vstd::prelude::*;

verus! {

/// One of the four directions that a hat switch reports.
#[derive(Clone, Copy, Debug, PartialEq, Eq, Structural)]
pub enum HatDirection {
    Up,
    Right,
    Down,
    Left,
}

/// One detected input, as it is published.
#[derive(Clone, Debug)]
pub struct DetectedInput {
    /// The canonical identifier, such as `js1_button3` or `gp1_axis2_negative`.
    pub input_string: String,
    pub display_name: String,
    pub device_type: String,
    /// The normalized value of the axis, for an event of an axis, and of
    /// a hat whose logical range is not empty.
    pub axis_value: Option<AxisValue>,
    /// The modifier keys that were held when the input occurred.
    pub modifiers: Vec<String>,
    pub is_modifier: bool,
    pub session_id: String,
    pub device_uuid: Option<String>,
    pub raw_button_code: Option<String>,
    pub raw_code_index: Option<u32>,
    pub device_name: Option<String>,
    pub hid_usage_id: Option<u32>,
    pub hid_axis_name: Option<String>,
}

/// The signal that ends a detection session.
#[derive(Clone, Debug)]
pub struct DetectionComplete {
    pub session_id: String,
}

/// An axis movement found by the single-device probe.
#[derive(Clone, Copy, Debug, PartialEq, Eq, Structural)]
pub struct AxisMovement {
    pub axis_id: u32,
    pub value: AxisValue,
}

/// What a `DetectedInput` holds, as mathematical values.
pub struct InputRecord {
    pub input_string: Seq<char>,
    pub display_name: Seq<char>,
    pub device_type: Seq<char>,
    pub axis_value: Option<AxisValue>,
    pub modifiers: Seq<Seq<char>>,
    pub is_modifier: bool,
    pub session_id: Seq<char>,
    pub device_uuid: Option<Seq<char>>,
    pub raw_button_code: Option<Seq<char>>,
    pub raw_code_index: Option<u32>,
    pub device_name: Option<Seq<char>>,
    pub hid_usage_id: Option<u32>,
    pub hid_axis_name: Option<Seq<char>>,
}

impl View for DetectedInput {
    type V = InputRecord;

    open spec fn view(&self) -> InputRecord {
        InputRecord {
            input_string: self.input_string@,
            display_name: self.display_name@,
            device_type: self.device_type@,
            axis_value: self.axis_value,
            modifiers: texts_of(self.modifiers@),
            is_modifier: self.is_modifier,
            session_id: self.session_id@,
            device_uuid: text_of(self.device_uuid),
            raw_button_code: text_of(self.raw_button_code),
            raw_code_index: self.raw_code_index,
            device_name: text_of(self.device_name),
            hid_usage_id: self.hid_usage_id,
            hid_axis_name: text_of(self.hid_axis_name),
        }
    }
}

/// The records of a list of detected inputs.
pub open spec fn records_of(v: Seq<DetectedInput>) -> Seq<InputRecord> {
    Seq::new(v.len(), |i: int| v[i]@)
}

/// The word that names a direction in an identifier.
pub open spec fn direction_word(d: Direction) -> Seq<char> {
    match d {
        Direction::Positive => "positive"@,
        Direction::Negative => "negative"@,
    }
}

/// The sign that stands for a direction in a display string.
pub open spec fn direction_sign(d: Direction) -> Seq<char> {
    match d {
        Direction::Positive => "+"@,
        Direction::Negative => "-"@,
    }
}

/// The word that names a hat direction in an identifier.
pub open spec fn hat_word(d: HatDirection) -> Seq<char> {
    match d {
        HatDirection::Up => "up"@,
        HatDirection::Right => "right"@,
        HatDirection::Down => "down"@,
        HatDirection::Left => "left"@,
    }
}

/// The word that names a hat direction in a display string.
pub open spec fn hat_word_upper(d: HatDirection) -> Seq<char> {
    match d {
        HatDirection::Up => "UP"@,
        HatDirection::Right => "RIGHT"@,
        HatDirection::Down => "DOWN"@,
        HatDirection::Left => "LEFT"@,
    }
}

/// `{prefix}{instance}_button{n}`.
pub open spec fn button_identifier(prefix: Seq<char>, instance: nat, button: nat) -> Seq<char> {
    prefix + decimal(instance) + "_button"@ + decimal(button)
}

/// `{prefix}{instance}_axis{n}_{positive|negative}`.
pub open spec fn axis_identifier(
    prefix: Seq<char>,
    instance: nat,
    axis: nat,
    d: Direction,
) -> Seq<char> {
    prefix + decimal(instance) + "_axis"@ + decimal(axis) + "_"@ + direction_word(d)
}

/// `js{instance}_hat1_{up|down|left|right}`.
pub open spec fn hat_identifier(instance: nat, d: HatDirection) -> Seq<char> {
    "js"@ + decimal(instance) + "_hat1_"@ + hat_word(d)
}

/// The identity of a vendor-API controller: `xinput_` and its slot.
pub open spec fn xinput_uuid(controller_id: u32) -> Seq<char> {
    "xinput_"@ + decimal(controller_id as nat)
}

/// The name under which a vendor-API controller is listed.
pub open spec fn xinput_device_name(controller_id: u32) -> Seq<char> {
    "Xbox Controller (XInput "@ + decimal(controller_id as nat) + ")"@
}

/// The event of a button on a vendor-API controller.
pub open spec fn gamepad_button_record(
    session_id: Seq<char>,
    controller_id: u32,
    button: u32,
    mask: u16,
    modifiers: Seq<Seq<char>>,
) -> InputRecord {
    let instance = (controller_id + 1) as nat;
    InputRecord {
        input_string: button_identifier("gp"@, instance, button as nat),
        display_name: "Gamepad "@ + decimal(instance) + " - Button "@ + decimal(button as nat),
        device_type: "Gamepad"@,
        axis_value: None,
        modifiers,
        is_modifier: false,
        session_id,
        device_uuid: Some(xinput_uuid(controller_id)),
        raw_button_code: Some("XInput 0x"@ + hex4(mask, true)),
        raw_code_index: Some(button),
        device_name: Some(xinput_device_name(controller_id)),
        hid_usage_id: None,
        hid_axis_name: None,
    }
}

/// The event of an axis on a vendor-API controller.
pub open spec fn gamepad_axis_record(
    session_id: Seq<char>,
    controller_id: u32,
    axis: u32,
    axis_name: Seq<char>,
    d: Direction,
    value: AxisValue,
    modifiers: Seq<Seq<char>>,
) -> InputRecord {
    let instance = (controller_id + 1) as nat;
    InputRecord {
        input_string: axis_identifier("gp"@, instance, axis as nat, d),
        display_name: "Gamepad "@ + decimal(instance) + " - "@ + axis_name + " "@
            + direction_sign(d) + " (Axis "@ + decimal(axis as nat) + ")"@,
        device_type: "Gamepad"@,
        axis_value: Some(value),
        modifiers,
        is_modifier: false,
        session_id,
        device_uuid: Some(xinput_uuid(controller_id)),
        raw_button_code: None,
        raw_code_index: Some(axis),
        device_name: Some(xinput_device_name(controller_id)),
        hid_usage_id: None,
        hid_axis_name: None,
    }
}

/// What identifies a HID device in the events it causes.
pub struct DeviceLabel {
    /// The 1-based number of the device in enumeration order.
    pub instance: nat,
    pub vendor_id: u16,
    pub product_id: u16,
    /// The product name, or the stand-in for a device without one.
    pub name: Seq<char>,
}

/// The event of a button on a HID device.
pub open spec fn joystick_button_record(
    session_id: Seq<char>,
    device: DeviceLabel,
    button: u32,
    modifiers: Seq<Seq<char>>,
) -> InputRecord {
    InputRecord {
        input_string: button_identifier("js"@, device.instance, button as nat),
        display_name: "Joystick "@ + decimal(device.instance) + " - Button "@ + decimal(
            button as nat,
        ),
        device_type: "Joystick"@,
        axis_value: None,
        modifiers,
        is_modifier: false,
        session_id,
        device_uuid: Some(hardware_key(device.vendor_id, device.product_id)),
        raw_button_code: Some("HID Button "@ + decimal(button as nat)),
        raw_code_index: Some(button),
        device_name: Some(device.name),
        hid_usage_id: None,
        hid_axis_name: None,
    }
}

/// The event of a hat switch on a HID device.
pub open spec fn joystick_hat_record(
    session_id: Seq<char>,
    device: DeviceLabel,
    axis: u32,
    usage_id: u32,
    axis_name: Seq<char>,
    d: HatDirection,
    value: Option<AxisValue>,
    modifiers: Seq<Seq<char>>,
) -> InputRecord {
    InputRecord {
        input_string: hat_identifier(device.instance, d),
        display_name: "Joystick "@ + decimal(device.instance) + " - Hat 1 "@ + hat_word_upper(d),
        device_type: "Joystick"@,
        axis_value: value,
        modifiers,
        is_modifier: false,
        session_id,
        device_uuid: Some(hardware_key(device.vendor_id, device.product_id)),
        raw_button_code: None,
        raw_code_index: Some(axis),
        device_name: Some(device.name),
        hid_usage_id: Some(usage_id),
        hid_axis_name: Some(axis_name),
    }
}

/// The event of an axis on a HID device.
pub open spec fn joystick_axis_record(
    session_id: Seq<char>,
    device: DeviceLabel,
    axis: u32,
    usage_id: u32,
    axis_name: Seq<char>,
    d: Direction,
    value: AxisValue,
    modifiers: Seq<Seq<char>>,
) -> InputRecord {
    InputRecord {
        input_string: axis_identifier("js"@, device.instance, axis as nat, d),
        display_name: "Joystick "@ + decimal(device.instance) + " - "@ + axis_name + " "@
            + direction_sign(d) + " (Axis "@ + decimal(axis as nat) + ")"@,
        device_type: "Joystick"@,
        axis_value: Some(value),
        modifiers,
        is_modifier: false,
        session_id,
        device_uuid: Some(hardware_key(device.vendor_id, device.product_id)),
        raw_button_code: None,
        raw_code_index: Some(axis),
        device_name: Some(device.name),
        hid_usage_id: Some(usage_id),
        hid_axis_name: Some(axis_name),
    }
}

/// A copy of a list of strings.
pub fn clone_strings(v: &Vec<String>) -> (r: Vec<String>)
    ensures
        r@ == v@,
{
    let mut r: Vec<String> = Vec::new();
    let mut i: usize = 0;
    while i < v.len()
        invariant
            i <= v.len(),
            r@ == v@.subrange(0, i as int),
        decreases v.len() - i,
    {
        r.push(v[i].clone());
        i += 1;
        assert(r@ =~= v@.subrange(0, i as int));
    }
    assert(v@.subrange(0, v.len() as int) =~= v@);
    r
}

fn direction_str(d: Direction) -> (s: &'static str)
    ensures
        s@ == direction_word(d),
{
    match d {
        Direction::Positive => "positive",
        Direction::Negative => "negative",
    }
}

fn direction_sign_str(d: Direction) -> (s: &'static str)
    ensures
        s@ == direction_sign(d),
{
    match d {
        Direction::Positive => "+",
        Direction::Negative => "-",
    }
}

fn hat_str(d: HatDirection) -> (s: &'static str)
    ensures
        s@ == hat_word(d),
{
    match d {
        HatDirection::Up => "up",
        HatDirection::Right => "right",
        HatDirection::Down => "down",
        HatDirection::Left => "left",
    }
}

fn hat_upper_str(d: HatDirection) -> (s: &'static str)
    ensures
        s@ == hat_word_upper(d),
{
    match d {
        HatDirection::Up => "UP",
        HatDirection::Right => "RIGHT",
        HatDirection::Down => "DOWN",
        HatDirection::Left => "LEFT",
    }
}

/// Builds `{prefix}{instance}_button{n}`.
pub fn format_button_identifier(prefix: &str, instance: u64, button: u32) -> (s: String)
    ensures
        s@ == button_identifier(prefix@, instance as nat, button as nat),
{
    let mut s = String::from_str(prefix);
    push_decimal(&mut s, instance);
    s.append("_button");
    push_decimal(&mut s, button as u64);
    s
}

/// Builds `{prefix}{instance}_axis{n}_{positive|negative}`.
pub fn format_axis_identifier(prefix: &str, instance: u64, axis: u32, d: Direction) -> (s: String)
    ensures
        s@ == axis_identifier(prefix@, instance as nat, axis as nat, d),
{
    let mut s = String::from_str(prefix);
    push_decimal(&mut s, instance);
    s.append("_axis");
    push_decimal(&mut s, axis as u64);
    s.append("_");
    s.append(direction_str(d));
    s
}

/// Builds `js{instance}_hat1_{up|down|left|right}`.
pub fn format_hat_identifier(instance: u64, d: HatDirection) -> (s: String)
    ensures
        s@ == hat_identifier(instance as nat, d),
{
    let mut s = String::from_str("js");
    push_decimal(&mut s, instance);
    s.append("_hat1_");
    s.append(hat_str(d));
    s
}

/// The identity of the vendor-API controller in the given slot.
pub fn resolve_xinput_uuid(controller_id: u32) -> (s: String)
    ensures
        s@ == xinput_uuid(controller_id),
{
    let mut s = String::from_str("xinput_");
    push_decimal(&mut s, controller_id as u64);
    s
}

/// The name under which the vendor-API controller in the given slot is
/// listed.
pub fn format_xinput_device_name(controller_id: u32) -> (s: String)
    ensures
        s@ == xinput_device_name(controller_id),
{
    let mut s = String::from_str("Xbox Controller (XInput ");
    push_decimal(&mut s, controller_id as u64);
    s.append(")");
    s
}

/// The event of a button on a vendor-API controller.
pub fn gamepad_button_input(
    session_id: &String,
    controller_id: u32,
    button: u32,
    mask: u16,
    modifiers: &Vec<String>,
) -> (e: DetectedInput)
    ensures
        e@ == gamepad_button_record(
            session_id@,
            controller_id,
            button,
            mask,
            texts_of(modifiers@),
        ),
{
    let instance: u64 = controller_id as u64 + 1;
    let mut display = String::from_str("Gamepad ");
    push_decimal(&mut display, instance);
    display.append(" - Button ");
    push_decimal(&mut display, button as u64);
    let mut code = String::from_str("XInput 0x");
    push_hex4(&mut code, mask, true);
    DetectedInput {
        input_string: format_button_identifier("gp", instance, button),
        display_name: display,
        device_type: String::from_str("Gamepad"),
        axis_value: None,
        modifiers: clone_strings(modifiers),
        is_modifier: false,
        session_id: session_id.clone(),
        device_uuid: Some(resolve_xinput_uuid(controller_id)),
        raw_button_code: Some(code),
        raw_code_index: Some(button),
        device_name: Some(format_xinput_device_name(controller_id)),
        hid_usage_id: None,
        hid_axis_name: None,
    }
}

/// The event of an axis on a vendor-API controller.
pub fn gamepad_axis_input(
    session_id: &String,
    controller_id: u32,
    axis: u32,
    axis_name: &str,
    d: Direction,
    value: AxisValue,
    modifiers: &Vec<String>,
) -> (e: DetectedInput)
    ensures
        e@ == gamepad_axis_record(
            session_id@,
            controller_id,
            axis,
            axis_name@,
            d,
            value,
            texts_of(modifiers@),
        ),
{
    let instance: u64 = controller_id as u64 + 1;
    let mut display = String::from_str("Gamepad ");
    push_decimal(&mut display, instance);
    display.append(" - ");
    display.append(axis_name);
    display.append(" ");
    display.append(direction_sign_str(d));
    display.append(" (Axis ");
    push_decimal(&mut display, axis as u64);
    display.append(")");
    DetectedInput {
        input_string: format_axis_identifier("gp", instance, axis, d),
        display_name: display,
        device_type: String::from_str("Gamepad"),
        axis_value: Some(value),
        modifiers: clone_strings(modifiers),
        is_modifier: false,
        session_id: session_id.clone(),
        device_uuid: Some(resolve_xinput_uuid(controller_id)),
        raw_button_code: None,
        raw_code_index: Some(axis),
        device_name: Some(format_xinput_device_name(controller_id)),
        hid_usage_id: None,
        hid_axis_name: None,
    }
}

/// What identifies a HID device in the events it causes.
#[derive(Clone, Debug)]
pub struct DeviceTag {
    /// The 1-based number of the device in enumeration order.
    pub instance: u64,
    pub vendor_id: u16,
    pub product_id: u16,
    /// The product name, or the stand-in for a device without one.
    pub name: String,
}

impl View for DeviceTag {
    type V = DeviceLabel;

    open spec fn view(&self) -> DeviceLabel {
        DeviceLabel {
            instance: self.instance as nat,
            vendor_id: self.vendor_id,
            product_id: self.product_id,
            name: self.name@,
        }
    }
}

/// The event of a button on a HID device.
pub fn joystick_button_input(
    session_id: &String,
    device: &DeviceTag,
    button: u32,
    modifiers: &Vec<String>,
) -> (e: DetectedInput)
    ensures
        e@ == joystick_button_record(session_id@, device@, button, texts_of(modifiers@)),
{
    let mut display = String::from_str("Joystick ");
    push_decimal(&mut display, device.instance);
    display.append(" - Button ");
    push_decimal(&mut display, button as u64);
    let mut code = String::from_str("HID Button ");
    push_decimal(&mut code, button as u64);
    DetectedInput {
        input_string: format_button_identifier("js", device.instance, button),
        display_name: display,
        device_type: String::from_str("Joystick"),
        axis_value: None,
        modifiers: clone_strings(modifiers),
        is_modifier: false,
        session_id: session_id.clone(),
        device_uuid: Some(format_hardware_key(device.vendor_id, device.product_id)),
        raw_button_code: Some(code),
        raw_code_index: Some(button),
        device_name: Some(device.name.clone()),
        hid_usage_id: None,
        hid_axis_name: None,
    }
}

/// The event of a hat switch on a HID device.
pub fn joystick_hat_input(
    session_id: &String,
    device: &DeviceTag,
    axis: u32,
    usage_id: u32,
    axis_name: &String,
    d: HatDirection,
    value: Option<AxisValue>,
    modifiers: &Vec<String>,
) -> (e: DetectedInput)
    ensures
        e@ == joystick_hat_record(
            session_id@,
            device@,
            axis,
            usage_id,
            axis_name@,
            d,
            value,
            texts_of(modifiers@),
        ),
{
    let mut display = String::from_str("Joystick ");
    push_decimal(&mut display, device.instance);
    display.append(" - Hat 1 ");
    display.append(hat_upper_str(d));
    DetectedInput {
        input_string: format_hat_identifier(device.instance, d),
        display_name: display,
        device_type: String::from_str("Joystick"),
        axis_value: value,
        modifiers: clone_strings(modifiers),
        is_modifier: false,
        session_id: session_id.clone(),
        device_uuid: Some(format_hardware_key(device.vendor_id, device.product_id)),
        raw_button_code: None,
        raw_code_index: Some(axis),
        device_name: Some(device.name.clone()),
        hid_usage_id: Some(usage_id),
        hid_axis_name: Some(axis_name.clone()),
    }
}

/// The event of an axis on a HID device.
pub fn joystick_axis_input(
    session_id: &String,
    device: &DeviceTag,
    axis: u32,
    usage_id: u32,
    axis_name: &String,
    d: Direction,
    value: AxisValue,
    modifiers: &Vec<String>,
) -> (e: DetectedInput)
    ensures
        e@ == joystick_axis_record(
            session_id@,
            device@,
            axis,
            usage_id,
            axis_name@,
            d,
            value,
            texts_of(modifiers@),
        ),
{
    let mut display = String::from_str("Joystick ");
    push_decimal(&mut display, device.instance);
    display.append(" - ");
    display.append(axis_name.as_str());
    display.append(" ");
    display.append(direction_sign_str(d));
    display.append(" (Axis ");
    push_decimal(&mut display, axis as u64);
    display.append(")");
    DetectedInput {
        input_string: format_axis_identifier("js", device.instance, axis, d),
        display_name: display,
        device_type: String::from_str("Joystick"),
        axis_value: Some(value),
        modifiers: clone_strings(modifiers),
        is_modifier: false,
        session_id: session_id.clone(),
        device_uuid: Some(format_hardware_key(device.vendor_id, device.product_id)),
        raw_button_code: None,
        raw_code_index: Some(axis),
        device_name: Some(device.name.clone()),
        hid_usage_id: Some(usage_id),
        hid_axis_name: Some(axis_name.clone()),
    }
}

} // verus!
