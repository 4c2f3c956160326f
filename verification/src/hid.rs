//! What a caller asks of a HID device: the snapshot that a report gives,
//! the names and the numbering of its axes, and which of the devices found
//! are game controllers.

use crate::descriptor::{
    axes_of, decode_descriptor, descriptor_fault, error_message, failure_text, message_text,
    parsed_input_reports, DecodeError, DecodeFailure, VariableField,
};
use crate::report::{
    axis_label, current_time_ms, decode_report, decoded_snapshot,
    format_axis_label, name_texts, report_fault, HidAxisReport, HidFullReport, Snapshot,
};
use std::collections::HashMap;
use vstd::prelude::*;

verus! {

/// The usage page of the generic desktop controls.
pub const GENERIC_DESKTOP_PAGE: u16 = 0x01;

/// The usage of a joystick.
pub const JOYSTICK_USAGE: u16 = 0x04;

/// The usage of a gamepad.
pub const GAMEPAD_USAGE: u16 = 0x05;

/// One HID device as it is listed.
#[derive(Clone, Debug)]
pub struct HidDeviceListItem {
    pub vendor_id: u16,
    pub product_id: u16,
    pub serial_number: Option<String>,
    pub manufacturer: Option<String>,
    pub product: Option<String>,
    pub path: String,
    pub interface_number: i32,
}

/// One HID device as the transport finds it: what is listed of it, and
/// the usage that its top-level collection declares.
#[derive(Clone, Debug)]
pub struct EnumeratedDevice {
    pub usage_page: u16,
    pub usage: u16,
    pub item: HidDeviceListItem,
}

/// A copy of an optional string.
pub fn clone_text(s: &Option<String>) -> (r: Option<String>)
    ensures
        r == *s,
{
    match s {
        Some(s) => Some(s.clone()),
        None => None,
    }
}

impl HidDeviceListItem {
    /// A copy of the item.
    pub fn duplicate(&self) -> (r: HidDeviceListItem)
        ensures
            r == *self,
    {
        HidDeviceListItem {
            vendor_id: self.vendor_id,
            product_id: self.product_id,
            serial_number: clone_text(&self.serial_number),
            manufacturer: clone_text(&self.manufacturer),
            product: clone_text(&self.product),
            path: self.path.clone(),
            interface_number: self.interface_number,
        }
    }
}

/// Whether a device declares itself a joystick or a gamepad.
pub open spec fn is_game_controller(usage_page: u16, usage: u16) -> bool {
    usage_page == GENERIC_DESKTOP_PAGE && (usage == JOYSTICK_USAGE || usage == GAMEPAD_USAGE)
}

/// The game controllers among the devices found, in the order in which
/// they were found.
pub open spec fn game_controllers(found: Seq<EnumeratedDevice>) -> Seq<HidDeviceListItem>
    decreases found.len(),
{
    if found.len() == 0 {
        Seq::empty()
    } else {
        let before = game_controllers(found.drop_last());
        if is_game_controller(found.last().usage_page, found.last().usage) {
            before.push(found.last().item)
        } else {
            before
        }
    }
}

/// Lists the devices that declare themselves joysticks or gamepads.
pub fn list_hid_game_controllers(found: &Vec<EnumeratedDevice>) -> (listed: Vec<
    HidDeviceListItem,
>)
    ensures
        listed@ == game_controllers(found@),
{
    let mut listed: Vec<HidDeviceListItem> = Vec::new();
    let mut i: usize = 0;
    while i < found.len()
        invariant
            i <= found.len(),
            listed@ == game_controllers(found@.subrange(0, i as int)),
        decreases found.len() - i,
    {
        proof {
            assert(found@.subrange(0, i + 1).drop_last() =~= found@.subrange(0, i as int));
        }
        let device = &found[i];
        if device.usage_page == GENERIC_DESKTOP_PAGE && (device.usage == JOYSTICK_USAGE
            || device.usage == GAMEPAD_USAGE) {
            listed.push(device.item.duplicate());
        }
        i += 1;
    }
    assert(found@.subrange(0, i as int) =~= found@);
    listed
}

/// Why a report cannot be decoded against descriptor bytes, if it cannot.
pub open spec fn decode_fault(descriptor: Seq<u8>, report: Seq<u8>) -> Option<DecodeError> {
    match descriptor_fault(descriptor) {
        Some(e) => Some(e),
        None => report_fault(parsed_input_reports(descriptor).unwrap(), report),
    }
}

/// Decodes a report against the descriptor of its device, and stamps the
/// snapshot with the given time.
pub fn decode(report: &[u8], descriptor: &[u8], timestamp_ms: u64) -> (r: Result<
    HidFullReport,
    DecodeFailure,
>)
    ensures
        match r {
            Ok(snapshot) => decode_fault(descriptor@, report@) is None && snapshot@
                == decoded_snapshot(
                parsed_input_reports(descriptor@).unwrap(),
                report@,
                timestamp_ms,
            ) && snapshot@.pressed_buttons.no_duplicates(),
            Err(failure) => decode_fault(descriptor@, report@) == Some(failure.error)
                && message_text(failure.error, failure.detail@) == failure_text(
                failure.error,
                descriptor@,
            ),
        },
{
    match decode_descriptor(descriptor) {
        Err(failure) => Err(failure),
        Ok(decoded) => match decode_report(&decoded, report, timestamp_ms) {
            Ok(snapshot) => Ok(snapshot),
            Err(error) => Err(DecodeFailure { error, detail: String::new() }),
        },
    }
}

/// Decodes a report against the descriptor of its device: the values of
/// the axes and the buttons that are down, stamped with the time of the
/// call.
///
/// It fails where the descriptor cannot be parsed and where the report
/// does not match it; the text says which.
pub fn parse_hid_full_report(report: &[u8], descriptor: &[u8]) -> (r: Result<
    HidFullReport,
    String,
>)
    ensures
        r is Ok <==> decode_fault(descriptor@, report@) is None,
        match r {
            Ok(snapshot) => snapshot@ == decoded_snapshot(
                parsed_input_reports(descriptor@).unwrap(),
                report@,
                snapshot.timestamp_ms,
            ) && snapshot@.pressed_buttons.no_duplicates(),
            Err(text) => text@ == failure_text(
                decode_fault(descriptor@, report@).unwrap(),
                descriptor@,
            ),
        },
{
    match decode(report, descriptor, current_time_ms()) {
        Ok(snapshot) => Ok(snapshot),
        Err(failure) => Err(error_message(failure.error, failure.detail.as_str())),
    }
}

/// The snapshot without its buttons.
pub open spec fn axes_only(s: Snapshot) -> Snapshot {
    Snapshot { pressed_buttons: Seq::empty(), ..s }
}

/// Decodes the axes of a report against the descriptor of its device.
///
/// It fails where `parse_hid_full_report` fails.
pub fn parse_hid_axes_from_descriptor_bytes(report: &[u8], descriptor: &[u8]) -> (r: Result<
    HidAxisReport,
    String,
>)
    ensures
        r is Ok <==> decode_fault(descriptor@, report@) is None,
        match r {
            Ok(axes) => axes@ == axes_only(
                decoded_snapshot(
                    parsed_input_reports(descriptor@).unwrap(),
                    report@,
                    axes.timestamp_ms,
                ),
            ),
            Err(text) => text@ == failure_text(
                decode_fault(descriptor@, report@).unwrap(),
                descriptor@,
            ),
        },
{
    match parse_hid_full_report(report, descriptor) {
        Ok(full) => {
            let axes = HidAxisReport {
                axis_values: full.axis_values,
                axis_bit_depths: full.axis_bit_depths,
                axis_names: full.axis_names,
                axis_ranges: full.axis_ranges,
                timestamp_ms: full.timestamp_ms,
                is_16bit: full.is_16bit,
            };
            assert(axes@ =~= axes_only(full@));
            Ok(axes)
        },
        Err(text) => Err(text),
    }
}

/// The names under which axes are listed, by usage id. Where two axes
/// share a usage id, the later one gives the name.
pub open spec fn listed_names(axes: Seq<VariableField>) -> Map<u32, Seq<char>>
    decreases axes.len(),
{
    if axes.len() == 0 {
        Map::empty()
    } else {
        listed_names(axes.drop_last()).insert(
            axes.last().usage_id as u32,
            axis_label(axes.last().usage_page, axes.last().usage_id),
        )
    }
}

/// The usage id of each axis by the number of the axis. Axes are numbered
/// from 1 in the order in which the descriptor declares them.
pub open spec fn numbered_usages(axes: Seq<VariableField>) -> Map<u32, u32> {
    Map::new(|k: u32| 1 <= k <= axes.len(), |k: u32| axes[k - 1].usage_id as u32)
}

/// The name of each axis that a descriptor declares, by usage id.
///
/// It fails where the descriptor cannot be parsed; the text says why.
pub fn get_axis_names_from_descriptor(descriptor: &[u8]) -> (r: Result<
    HashMap<u32, String>,
    String,
>)
    ensures
        r is Ok <==> descriptor_fault(descriptor@) is None,
        match r {
            Ok(names) => name_texts(names@) == listed_names(
                axes_of(parsed_input_reports(descriptor@).unwrap()),
            ),
            Err(text) => text@ == failure_text(descriptor_fault(descriptor@).unwrap(), descriptor@),
        },
{
    broadcast use vstd::std_specs::hash::group_hash_axioms;

    match decode_descriptor(descriptor) {
        Err(failure) => Err(error_message(failure.error, failure.detail.as_str())),
        Ok(decoded) => {
            let axes = decoded.axes();
            let mut names: HashMap<u32, String> = HashMap::new();
            assert(name_texts(names@) =~= listed_names(axes@.subrange(0, 0)));
            let mut i: usize = 0;
            while i < axes.len()
                invariant
                    i <= axes.len(),
                    name_texts(names@) == listed_names(axes@.subrange(0, i as int)),
                decreases axes.len() - i,
            {
                proof {
                    assert(axes@.subrange(0, i + 1).drop_last() =~= axes@.subrange(0, i as int));
                }
                let axis = axes[i];
                let ghost before = names@;
                names.insert(
                    axis.usage_id as u32,
                    format_axis_label(axis.usage_page, axis.usage_id),
                );
                assert(name_texts(names@) =~= name_texts(before).insert(
                    axis.usage_id as u32,
                    axis_label(axis.usage_page, axis.usage_id),
                ));
                i += 1;
            }
            assert(axes@.subrange(0, i as int) =~= axes@);
            Ok(names)
        },
    }
}

/// The usage id of each axis that a descriptor declares, by the number of
/// the axis.
///
/// It fails where the descriptor cannot be parsed; the text says why.
pub fn get_directinput_to_hid_axis_mapping(descriptor: &[u8]) -> (r: Result<
    HashMap<u32, u32>,
    String,
>)
    ensures
        r is Ok <==> descriptor_fault(descriptor@) is None,
        match r {
            Ok(mapping) => mapping@ == numbered_usages(
                axes_of(parsed_input_reports(descriptor@).unwrap()),
            ),
            Err(text) => text@ == failure_text(descriptor_fault(descriptor@).unwrap(), descriptor@),
        },
{
    broadcast use vstd::std_specs::hash::group_hash_axioms;

    match decode_descriptor(descriptor) {
        Err(failure) => {
            Err(error_message(failure.error, failure.detail.as_str()))
        },
        Ok(decoded) => {
            let axes = decoded.axes();
            let mut mapping: HashMap<u32, u32> = HashMap::new();
            assert(mapping@ =~= numbered_usages(axes@.subrange(0, 0)));
            let mut i: usize = 0;
            while i < axes.len() && i < u32::MAX as usize
                invariant
                    i <= axes.len(),
                    i <= u32::MAX,
                    mapping@ == numbered_usages(axes@.subrange(0, i as int)),
                decreases axes.len() - i,
            {
                let ghost before = mapping@;
                mapping.insert((i + 1) as u32, axes[i].usage_id as u32);
                i += 1;
                assert(mapping@ =~= numbered_usages(axes@.subrange(0, i as int)));
            }
            assert(mapping@ =~= numbered_usages(axes@));
            Ok(mapping)
        },
    }
}

} // verus!
