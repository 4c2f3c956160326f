//! The single-device probe: it waits for the user to move an axis of one
//! device and says which axis it was.
//!
//! An axis counts as moved when it has left its position at the start of
//! the probe and stands away from the center by more than three
//! twentieths of its half range.

use crate::descriptor::{
    axes_of, decode_descriptor, error_message, failure_text, parsed_input_reports, DecodeError,
    DecodedDescriptor, VariableField,
};
use crate::detector::{
    axis_number, is_last_with_usage, normalize, normalized, number_of_axis, numbers_its_usage,
    range_or_full, raw_or_zero,
};
use crate::events::{xinput_uuid, AxisMovement};
use crate::gamepad::{gamepad_axis_value, GamepadState, GAMEPAD_AXES};
use crate::hid::{decode_fault, HidDeviceListItem};
use crate::report::{decode_report, decoded_snapshot, report_fault, HidFullReport, Snapshot};
use crate::text::{decimal, digit_char, format_hardware_key, hardware_key};
use vstd::prelude::*;

verus! {

/// The device that a probe is aimed at.
#[derive(Clone, Copy, Debug, PartialEq, Eq, Structural)]
pub enum ProbeTarget {
    /// The controller of the vendor API in the given slot.
    Gamepad(u32),
    /// A HID device, named by its vendor:product key.
    Hid,
}

/// Whether `s` begins with `prefix`.
pub open spec fn has_prefix(s: Seq<char>, prefix: Seq<char>) -> bool {
    prefix.len() <= s.len() && s.subrange(0, prefix.len() as int) == prefix
}

/// The number that a decimal digit stands for.
pub open spec fn digit_value(c: char) -> Option<int> {
    if c == '0' {
        Some(0int)
    } else if c == '1' {
        Some(1int)
    } else if c == '2' {
        Some(2int)
    } else if c == '3' {
        Some(3int)
    } else if c == '4' {
        Some(4int)
    } else if c == '5' {
        Some(5int)
    } else if c == '6' {
        Some(6int)
    } else if c == '7' {
        Some(7int)
    } else if c == '8' {
        Some(8int)
    } else if c == '9' {
        Some(9int)
    } else {
        None
    }
}

/// The number that a string of decimal digits stands for; `None` for the
/// empty string and for a string with anything but digits in it.
pub open spec fn digits_value(s: Seq<char>) -> Option<int>
    decreases s.len(),
{
    if s.len() == 0 {
        None
    } else if s.len() == 1 {
        digit_value(s[0])
    } else {
        match (digits_value(s.drop_last()), digit_value(s.last())) {
            (Some(high), Some(low)) => Some(10 * high + low),
            _ => None,
        }
    }
}

/// A string without the plus sign that it may begin with.
pub open spec fn unsigned_part(s: Seq<char>) -> Seq<char> {
    if s.len() > 0 && s[0] == '+' {
        s.drop_first()
    } else {
        s
    }
}

/// The slot number that a string stands for: decimal digits, with a plus
/// sign before them or without, of a value that 32 bits hold.
pub open spec fn slot_number(s: Seq<char>) -> Option<u32> {
    match digits_value(unsigned_part(s)) {
        Some(v) => if v <= u32::MAX {
            Some(v as u32)
        } else {
            None
        },
        None => None,
    }
}

/// The target that an identity names. An identity that begins with
/// `xinput_` names a slot of the vendor API and must go on with the number
/// of the slot; any other identity names a HID device.
pub open spec fn target_of(uuid: Seq<char>) -> Option<ProbeTarget> {
    if has_prefix(uuid, "xinput_"@) {
        match slot_number(uuid.subrange("xinput_"@.len() as int, uuid.len() as int)) {
            Some(slot) => Some(ProbeTarget::Gamepad(slot)),
            None => None,
        }
    } else {
        Some(ProbeTarget::Hid)
    }
}

/// The decimal numeral of a number reads back as the number.
pub proof fn lemma_decimal_reads_back(n: nat)
    ensures
        digits_value(decimal(n)) == Some(n as int),
        decimal(n).len() > 0,
        decimal(n)[0] != '+',
    decreases n,
{
    if n >= 10 {
        lemma_decimal_reads_back(n / 10);
        assert(decimal(n).drop_last() =~= decimal(n / 10));
        assert(decimal(n).last() == digit_char((n % 10) as int));
        assert(decimal(n)[0] == decimal(n / 10)[0]);
    }
}

/// The identity that a controller of the vendor API is given names the
/// slot of the controller: what `resolve_xinput_uuid` builds for a slot,
/// `probe_target` reads as that slot.
pub proof fn lemma_xinput_uuid_names_its_slot(controller_id: u32)
    ensures
        target_of(xinput_uuid(controller_id)) == Some(ProbeTarget::Gamepad(controller_id)),
{
    reveal_strlit("xinput_");
    let uuid = xinput_uuid(controller_id);
    let numeral = decimal(controller_id as nat);
    lemma_decimal_reads_back(controller_id as nat);
    assert(uuid.subrange(0, 7) =~= "xinput_"@);
    assert(uuid.subrange(7, uuid.len() as int) =~= numeral);
    assert(unsigned_part(numeral) == numeral);
}

fn value_of_digit(c: char) -> (v: Option<u64>)
    ensures
        match v {
            Some(v) => digit_value(c) == Some(v as int) && v <= 9,
            None => digit_value(c) is None,
        },
{
    if c == '0' {
        Some(0)
    } else if c == '1' {
        Some(1)
    } else if c == '2' {
        Some(2)
    } else if c == '3' {
        Some(3)
    } else if c == '4' {
        Some(4)
    } else if c == '5' {
        Some(5)
    } else if c == '6' {
        Some(6)
    } else if c == '7' {
        Some(7)
    } else if c == '8' {
        Some(8)
    } else if c == '9' {
        Some(9)
    } else {
        None
    }
}

/// A string of digits that goes on after a bad start is bad.
proof fn lemma_digits_stay_bad(s: Seq<char>, k: int)
    requires
        1 <= k <= s.len(),
        digits_value(s.subrange(0, k)) is None,
    ensures
        digits_value(s) is None,
    decreases s.len() - k,
{
    if k < s.len() {
        assert(s.subrange(0, k + 1).drop_last() =~= s.subrange(0, k));
        lemma_digits_stay_bad(s, k + 1);
    } else {
        assert(s.subrange(0, k) =~= s);
    }
}

/// A string of digits that goes on after a large start is large.
proof fn lemma_digits_stay_large(s: Seq<char>, k: int)
    requires
        1 <= k <= s.len(),
        digits_value(s.subrange(0, k)) matches Some(v) && v > u32::MAX,
    ensures
        digits_value(s) matches Some(v) ==> v > u32::MAX,
    decreases s.len() - k,
{
    if k < s.len() {
        assert(s.subrange(0, k + 1).drop_last() =~= s.subrange(0, k));
        assert(s.subrange(0, k + 1).last() == s[k]);
        if digits_value(s.subrange(0, k + 1)) is Some {
            lemma_digits_stay_large(s, k + 1);
        } else {
            lemma_digits_stay_bad(s, k + 1);
        }
    } else {
        assert(s.subrange(0, k) =~= s);
    }
}

/// Reads the number of a slot.
pub fn parse_slot_number(s: &str) -> (slot: Option<u32>)
    ensures
        slot == slot_number(s@),
{
    let len = s.unicode_len();
    let start: usize = if len > 0 && s.get_char(0) == '+' {
        1
    } else {
        0
    };
    let ghost digits = s@.subrange(start as int, len as int);
    proof {
        if start == 1 {
            assert(digits =~= s@.drop_first());
        } else {
            assert(digits =~= s@);
        }
    }
    if start >= len {
        return None;
    }
    let mut acc: u64 = 0;
    let mut i: usize = start;
    while i < len
        invariant
            start <= i <= len,
            len == s@.len(),
            digits == s@.subrange(start as int, len as int),
            digits == unsigned_part(s@),
            acc <= u32::MAX,
            i > start ==> digits_value(digits.subrange(0, i - start)) == Some(acc as int),
            i == start ==> acc == 0,
        decreases len - i,
    {
        let c = s.get_char(i);
        proof {
            assert(digits[i - start] == c);
            assert(digits.subrange(0, i - start + 1).last() == c);
            assert(digits.subrange(0, i - start + 1).drop_last() =~= digits.subrange(
                0,
                i - start,
            ));
            if i == start {
                assert(digits.subrange(0, 1).len() == 1);
                assert(digits.subrange(0, 1)[0] == c);
            }
        }
        match value_of_digit(c) {
            None => {
                proof {
                    lemma_digits_stay_bad(digits, i - start + 1);
                }
                return None;
            },
            Some(d) => {
                acc = 10 * acc + d;
                if acc > u32::MAX as u64 {
                    proof {
                        lemma_digits_stay_large(digits, i - start + 1);
                    }
                    return None;
                }
            },
        }
        i += 1;
    }
    proof {
        assert(digits.subrange(0, len - start) =~= digits);
    }
    Some(acc as u32)
}

fn starts_with_xinput(s: &str) -> (found: bool)
    ensures
        found == has_prefix(s@, "xinput_"@),
{
    proof {
        reveal_strlit("xinput_");
    }
    if s.unicode_len() < 7 {
        return false;
    }
    let found = s.get_char(0) == 'x' && s.get_char(1) == 'i' && s.get_char(2) == 'n' && s.get_char(
        3,
    ) == 'p' && s.get_char(4) == 'u' && s.get_char(5) == 't' && s.get_char(6) == '_';
    proof {
        let head = s@.subrange(0, 7);
        if found {
            assert(head =~= "xinput_"@);
        } else {
            if head == "xinput_"@ {
                assert(head[0] == 'x' && head[1] == 'i' && head[2] == 'n' && head[3] == 'p'
                    && head[4] == 'u' && head[5] == 't' && head[6] == '_');
            }
        }
    }
    found
}

/// Tells which device an identity names.
///
/// It fails on an identity that begins with `xinput_` and does not go on
/// with the number of a slot.
pub fn probe_target(target_uuid: &str) -> (r: Result<ProbeTarget, String>)
    ensures
        match r {
            Ok(target) => target_of(target_uuid@) == Some(target),
            Err(text) => target_of(target_uuid@) is None && text@ == "Invalid XInput UUID"@,
        },
{
    proof {
        reveal_strlit("xinput_");
    }
    if starts_with_xinput(target_uuid) {
        let rest = target_uuid.substring_char(7, target_uuid.unicode_len());
        match parse_slot_number(rest) {
            Some(slot) => Ok(ProbeTarget::Gamepad(slot)),
            None => Err(String::from_str("Invalid XInput UUID")),
        }
    } else {
        Ok(ProbeTarget::Hid)
    }
}

/// Whether the device at position `i` has the identity.
pub open spec fn has_identity(devices: Seq<HidDeviceListItem>, uuid: Seq<char>, i: int) -> bool {
    0 <= i < devices.len() && hardware_key(devices[i].vendor_id, devices[i].product_id) == uuid
}

/// The text that says that no device has the identity.
pub open spec fn not_found_text(uuid: Seq<char>) -> Seq<char> {
    "Device not found: "@ + uuid
}

/// Finds the first device with the given vendor:product key.
///
/// It fails where no device has the key; the text names the key.
pub fn find_device(devices: &Vec<HidDeviceListItem>, target_uuid: &str) -> (r: Result<
    usize,
    String,
>)
    ensures
        match r {
            Ok(i) => has_identity(devices@, target_uuid@, i as int) && forall|j: int|
                0 <= j < i ==> !has_identity(devices@, target_uuid@, j),
            Err(text) => text@ == not_found_text(target_uuid@) && forall|j: int|
                !has_identity(devices@, target_uuid@, j),
        },
{
    let wanted = String::from_str(target_uuid);
    let mut i: usize = 0;
    while i < devices.len()
        invariant
            i <= devices.len(),
            wanted@ == target_uuid@,
            forall|j: int| 0 <= j < i ==> !has_identity(devices@, target_uuid@, j),
        decreases devices.len() - i,
    {
        let key = format_hardware_key(devices[i].vendor_id, devices[i].product_id);
        if key == wanted {
            return Ok(i);
        }
        i += 1;
    }
    let mut text = String::from_str("Device not found: ");
    text.append(target_uuid);
    Err(text)
}

/// Whether a probe goes on: the time that has passed is less than the
/// time it is given.
pub fn probe_running(elapsed_ms: u128, timeout_ms: u64) -> (running: bool)
    ensures
        running == (elapsed_ms < timeout_ms),
{
    elapsed_ms < timeout_ms as u128
}

/// The movement of axis `axis` of a controller since the start of the
/// probe, if it counts.
pub open spec fn gamepad_axis_moved(
    initial: GamepadState,
    current: GamepadState,
    axis: int,
) -> Option<AxisMovement> {
    let v = gamepad_axis_value(current, axis);
    if v.distance_exceeds(gamepad_axis_value(initial, axis), 3, 20) && v.magnitude_exceeds(3, 20) {
        Some(AxisMovement { axis_id: axis as u32, value: v })
    } else {
        None
    }
}

/// The first of the axes from `from` to 6 of a controller that has moved.
pub open spec fn gamepad_moved_from(
    initial: GamepadState,
    current: GamepadState,
    from: int,
) -> Option<AxisMovement>
    decreases GAMEPAD_AXES + 1 - from,
{
    if from < 1 || from > GAMEPAD_AXES {
        None
    } else {
        match gamepad_axis_moved(initial, current, from) {
            Some(m) => Some(m),
            None => gamepad_moved_from(initial, current, from + 1),
        }
    }
}

/// The axis of a controller that the user has moved since the start of
/// the probe: the lowest-numbered of the axes that have moved.
pub fn gamepad_axis_movement(initial: &GamepadState, current: &GamepadState) -> (moved: Option<
    AxisMovement,
>)
    ensures
        moved == gamepad_moved_from(*initial, *current, 1),
{
    let mut axis: u32 = 1;
    while axis <= GAMEPAD_AXES as u32
        invariant
            1 <= axis <= GAMEPAD_AXES + 1,
            gamepad_moved_from(*initial, *current, 1) == gamepad_moved_from(
                *initial,
                *current,
                axis as int,
            ),
        decreases GAMEPAD_AXES + 1 - axis,
    {
        let v = current.axis_value(axis);
        let before = initial.axis_value(axis);
        if v.exceeds_distance(&before, 3, 20) && v.exceeds_magnitude(3, 20) {
            return Some(AxisMovement { axis_id: axis, value: v });
        }
        axis += 1;
    }
    None
}

/// Whether a raw value has changed by at least a twentieth of the logical
/// range.
pub open spec fn changed_enough(before: u16, now: u16, low: i32, high: i32) -> bool {
    20 * (now - before) >= high - low || 20 * (before - now) >= high - low
}

/// The movement of the axis at position `i` of a HID device since the
/// start of the probe, if it counts.
pub open spec fn hid_axis_moved(
    axes: Seq<VariableField>,
    i: int,
    initial: Snapshot,
    current: Snapshot,
) -> Option<AxisMovement> {
    let usage = axes[i].usage_id as u32;
    let (low, high) = range_or_full(current, usage);
    if numbers_its_usage(axes, i) && current.axis_values.contains_key(usage) && high - low > 0 {
        let raw = current.axis_values[usage];
        let v = normalized(raw, low, high);
        if changed_enough(raw_or_zero(initial, usage), raw, low, high) && v.magnitude_exceeds(
            3,
            20,
        ) {
            Some(AxisMovement { axis_id: axis_number(i), value: v })
        } else {
            None
        }
    } else {
        None
    }
}

/// The first of the axes from position `from` on that has moved.
pub open spec fn hid_moved_from(
    axes: Seq<VariableField>,
    initial: Snapshot,
    current: Snapshot,
    from: int,
) -> Option<AxisMovement>
    decreases axes.len() - from,
{
    if from < 0 || from >= axes.len() {
        None
    } else {
        match hid_axis_moved(axes, from, initial, current) {
            Some(m) => Some(m),
            None => hid_moved_from(axes, initial, current, from + 1),
        }
    }
}

/// A probe of a HID device: its field model and its snapshot at the
/// start.
#[derive(Debug)]
pub struct HidProbe {
    pub descriptor: DecodedDescriptor,
    pub axes: Vec<VariableField>,
    pub initial: HidFullReport,
}

impl HidProbe {
    /// The axes are those of the descriptor.
    pub open spec fn wf(self) -> bool {
        self.axes@ == axes_of(self.descriptor@)
    }
}

/// The text of a probe that could not begin.
pub open spec fn begin_failure_text(error: DecodeError, descriptor: Seq<u8>) -> Seq<char> {
    "Failed to parse initial report: "@ + failure_text(error, descriptor)
}

/// The axis of a HID device that the user has moved since the snapshot
/// `initial`: the lowest-numbered of the axes that have moved.
pub fn hid_axis_movement(
    axes: &Vec<VariableField>,
    initial: &HidFullReport,
    current: &HidFullReport,
) -> (moved: Option<AxisMovement>)
    ensures
        moved == hid_moved_from(axes@, initial@, current@, 0),
{
    broadcast use vstd::std_specs::hash::group_hash_axioms;

    let mut i: usize = 0;
    while i < axes.len()
        invariant
            i <= axes.len(),
            hid_moved_from(axes@, initial@, current@, 0) == hid_moved_from(
                axes@,
                initial@,
                current@,
                i as int,
            ),
        decreases axes.len() - i,
    {
        let usage = axes[i].usage_id as u32;
        let (low, high) = match current.axis_ranges.get(&usage) {
            Some(range) => *range,
            None => (0, 65535),
        };
        let found = match current.axis_values.get(&usage) {
            Some(raw) => Some(*raw),
            None => None,
        };
        match found {
            Some(raw) => {
                if is_last_with_usage(axes, i) && high as i64 - low as i64 > 0 {
                    let before: u16 = match initial.axis_values.get(&usage) {
                        Some(before) => *before,
                        None => 0,
                    };
                    let range: i64 = high as i64 - low as i64;
                    let change: i64 = if raw >= before {
                        (raw - before) as i64
                    } else {
                        (before - raw) as i64
                    };
                    let v = normalize(raw, low, high);
                    if 20 * change >= range && v.exceeds_magnitude(3, 20) {
                        return Some(AxisMovement { axis_id: number_of_axis(i), value: v });
                    }
                }
            },
            None => {},
        }
        i += 1;
    }
    None
}

impl HidProbe {
    /// Begins a probe with the descriptor of the device and the first
    /// report that was read of it.
    ///
    /// It fails where the report cannot be decoded against the descriptor;
    /// the text says why.
    pub fn begin(descriptor: &[u8], initial_report: &[u8], now_ms: u64) -> (r: Result<
        HidProbe,
        String,
    >)
        ensures
            r is Ok <==> decode_fault(descriptor@, initial_report@) is None,
            match r {
                Ok(probe) => probe.wf() && probe.descriptor@ == parsed_input_reports(
                    descriptor@,
                ).unwrap() && probe.initial@ == decoded_snapshot(
                    probe.descriptor@,
                    initial_report@,
                    now_ms,
                ),
                Err(text) => text@ == begin_failure_text(
                    decode_fault(descriptor@, initial_report@).unwrap(),
                    descriptor@,
                ),
            },
    {
        match decode_descriptor(descriptor) {
            Err(failure) => {
                let inner = error_message(failure.error, failure.detail.as_str());
                let mut text = String::from_str("Failed to parse initial report: ");
                text.append(inner.as_str());
                Err(text)
            },
            Ok(decoded) => match decode_report(&decoded, initial_report, now_ms) {
                Err(e) => {
                    let inner = error_message(e, "");
                    let mut text = String::from_str("Failed to parse initial report: ");
                    text.append(inner.as_str());
                    Err(text)
                },
                Ok(initial) => {
                    let axes = decoded.axes();
                    Ok(HidProbe { descriptor: decoded, axes, initial })
                },
            },
        }
    }

    /// Takes one report that was read during the probe: the axis that has
    /// moved, if the report can be decoded and shows one.
    pub fn check(&self, report: &[u8], now_ms: u64) -> (moved: Option<AxisMovement>)
        requires
            self.wf(),
        ensures
            moved == if report_fault(self.descriptor@, report@) is None {
                hid_moved_from(
                    axes_of(self.descriptor@),
                    self.initial@,
                    decoded_snapshot(self.descriptor@, report@, now_ms),
                    0,
                )
            } else {
                None
            },
    {
        match decode_report(&self.descriptor, report, now_ms) {
            Err(_) => None,
            Ok(current) => hid_axis_movement(&self.axes, &self.initial, &current),
        }
    }
}

/// A probe of one device: what was read of it when the probe began.
#[derive(Debug)]
pub enum AxisProbe {
    /// A controller of the vendor API, in the state it had.
    Gamepad(GamepadState),
    /// A HID device, with its field model and its first snapshot.
    Hid(HidProbe),
}

/// What is read of a device in one round of a probe.
#[derive(Debug)]
pub enum ProbeReading {
    /// The state of a controller of the vendor API.
    Gamepad(GamepadState),
    /// One report of a HID device.
    Report(Vec<u8>),
}

impl AxisProbe {
    pub open spec fn wf(self) -> bool {
        match self {
            AxisProbe::Gamepad(_) => true,
            AxisProbe::Hid(probe) => probe.wf(),
        }
    }
}

/// The axis that a reading shows to have moved since the probe began.
pub open spec fn probe_outcome(
    probe: AxisProbe,
    reading: ProbeReading,
    now_ms: u64,
) -> Option<AxisMovement> {
    match (probe, reading) {
        (AxisProbe::Gamepad(initial), ProbeReading::Gamepad(current)) => gamepad_moved_from(
            initial,
            current,
            1,
        ),
        (AxisProbe::Hid(probe), ProbeReading::Report(report)) => if report_fault(
            probe.descriptor@,
            report@,
        ) is None {
            hid_moved_from(
                axes_of(probe.descriptor@),
                probe.initial@,
                decoded_snapshot(probe.descriptor@, report@, now_ms),
                0,
            )
        } else {
            None
        },
        _ => None,
    }
}

/// Takes what one round of a probe has read of the device and says which
/// axis the user has moved, if the reading shows one: the lowest-numbered
/// axis that has left its position at the start of the probe and stands
/// away from the center. A reading of the other backend shows nothing.
pub fn detect_axis_movement_for_device(
    probe: &AxisProbe,
    reading: &ProbeReading,
    now_ms: u64,
) -> (moved: Option<AxisMovement>)
    requires
        probe.wf(),
    ensures
        moved == probe_outcome(*probe, *reading, now_ms),
{
    match probe {
        AxisProbe::Gamepad(initial) => match reading {
            ProbeReading::Gamepad(current) => gamepad_axis_movement(initial, current),
            ProbeReading::Report(_) => None,
        },
        AxisProbe::Hid(probe) => match reading {
            ProbeReading::Report(report) => probe.check(report.as_slice(), now_ms),
            ProbeReading::Gamepad(_) => None,
        },
    }
}

} // verus!
