//! The state of a detection session and its poll.
//!
//! The transport is not called from here. Whoever runs a session reads
//! the controllers and the devices and hands what was read to `poll`.

use crate::axis::AxisEdgeState;
use crate::descriptor::{
    axes_of, decode_descriptor, descriptor_fault, parsed_input_reports, InputReportModel,
    VariableField,
};
use crate::detector::{
    byte_strings, drain_step, lemma_drain_stops, slot_step, DeviceModel, GamepadSlot,
    GamepadSlotModel, HidDevice,
};
use crate::events::{records_of, DetectedInput, DeviceLabel, DeviceTag, InputRecord};
use crate::gamepad::{gamepad_axis_value, GamepadState, GAMEPAD_AXES, GAMEPAD_SLOTS};
use crate::hid::HidDeviceListItem;
use crate::text::texts_of;
use vstd::prelude::*;

verus! {

/// A HID game controller as a session finds it: what is listed of it, and
/// its descriptor where the device could be opened and the descriptor
/// read.
#[derive(Clone, Debug)]
pub struct OpenedDevice {
    pub item: HidDeviceListItem,
    pub descriptor: Option<Vec<u8>>,
}

/// The state of one detection session.
#[derive(Debug)]
pub struct InputDetector {
    pub session_id: String,
    /// The four slots of the vendor API.
    pub gamepads: Vec<GamepadSlot>,
    /// The HID devices in enumeration order.
    pub devices: Vec<HidDevice>,
}

/// What an `InputDetector` holds, as mathematical values.
pub struct DetectorModel {
    pub session_id: Seq<char>,
    pub gamepads: Seq<GamepadSlotModel>,
    pub devices: Seq<DeviceModel>,
}

/// What a list of slots holds.
pub open spec fn slot_models(slots: Seq<GamepadSlot>) -> Seq<GamepadSlotModel> {
    Seq::new(slots.len(), |i: int| slots[i]@)
}

/// What a list of devices holds.
pub open spec fn device_models(devices: Seq<HidDevice>) -> Seq<DeviceModel> {
    Seq::new(devices.len(), |i: int| devices[i]@)
}

/// Every slot of the list is well formed.
pub open spec fn slots_wf(slots: Seq<GamepadSlotModel>) -> bool {
    forall|i: int| 0 <= i < slots.len() ==> (#[trigger] slots[i]).wf()
}

/// Every device of the list is well formed.
pub open spec fn devices_wf(devices: Seq<DeviceModel>) -> bool {
    forall|i: int| 0 <= i < devices.len() ==> (#[trigger] devices[i]).wf()
}

impl View for InputDetector {
    type V = DetectorModel;

    open spec fn view(&self) -> DetectorModel {
        DetectorModel {
            session_id: self.session_id@,
            gamepads: slot_models(self.gamepads@),
            devices: device_models(self.devices@),
        }
    }
}

impl DetectorModel {
    /// There are four slots, and every slot and every device is well
    /// formed.
    pub open spec fn wf(self) -> bool {
        &&& self.gamepads.len() == GAMEPAD_SLOTS
        &&& slots_wf(self.gamepads)
        &&& devices_wf(self.devices)
    }
}

/// What was read of the controller in slot `i`: `None` where it is not
/// connected, and where nothing was handed in for the slot.
pub open spec fn reading_at(readings: Seq<Option<GamepadState>>, i: int) -> Option<GamepadState> {
    if 0 <= i < readings.len() {
        readings[i]
    } else {
        None
    }
}

/// The reports that were read of device `i`, none where nothing was
/// handed in for the device.
pub open spec fn queue_at(queues: Seq<Vec<Vec<u8>>>, i: int) -> Seq<Seq<u8>> {
    if 0 <= i < queues.len() {
        byte_strings(queues[i]@)
    } else {
        Seq::empty()
    }
}

/// The slot of a controller at the start of a session. A controller that
/// is connected is remembered in its state, with every axis at rest there.
pub open spec fn initial_slot(reading: Option<GamepadState>) -> GamepadSlotModel {
    match reading {
        Some(state) => GamepadSlotModel {
            previous: Some(state),
            axes: Seq::new(
                GAMEPAD_AXES as nat,
                |i: int| Some(AxisEdgeState::resting_at(gamepad_axis_value(state, i + 1))),
            ),
        },
        None => GamepadSlotModel {
            previous: None,
            axes: Seq::new(GAMEPAD_AXES as nat, |i: int| None),
        },
    }
}

/// The name of a device in its events.
pub open spec fn device_name(item: HidDeviceListItem) -> Seq<char> {
    match item.product {
        Some(product) => product@,
        None => "Unknown Device"@,
    }
}

/// The field model with which a device takes part in a session: that of
/// its descriptor, where it has one that can be decoded.
pub open spec fn session_reports(descriptor: Option<Seq<u8>>) -> Option<Seq<InputReportModel>> {
    match descriptor {
        Some(bytes) => if descriptor_fault(bytes) is None {
            parsed_input_reports(bytes)
        } else {
            None
        },
        None => None,
    }
}

/// The axes of a device in a session.
pub open spec fn session_axes(reports: Option<Seq<InputReportModel>>) -> Seq<VariableField> {
    match reports {
        Some(reports) => axes_of(reports),
        None => Seq::empty(),
    }
}

/// The bytes of an optional descriptor.
pub open spec fn descriptor_bytes(descriptor: Option<Vec<u8>>) -> Option<Seq<u8>> {
    match descriptor {
        Some(bytes) => Some(bytes@),
        None => None,
    }
}

/// The device at position `index` of the enumeration at the start of a
/// session. Its instance number is its position counted from 1.
pub open spec fn initial_device(index: int, device: OpenedDevice) -> DeviceModel {
    let reports = session_reports(descriptor_bytes(device.descriptor));
    DeviceModel {
        tag: DeviceLabel {
            instance: (index + 1) as nat,
            vendor_id: device.item.vendor_id,
            product_id: device.item.product_id,
            name: device_name(device.item),
        },
        reports,
        axes: session_axes(reports),
        axis_states: Seq::new(session_axes(reports).len(), |i: int| None),
        previous: None,
    }
}

/// The detector at the start of a session.
pub open spec fn initial_detector(
    session_id: Seq<char>,
    readings: Seq<Option<GamepadState>>,
    devices: Seq<OpenedDevice>,
) -> DetectorModel {
    DetectorModel {
        session_id,
        gamepads: Seq::new(GAMEPAD_SLOTS as nat, |i: int| initial_slot(reading_at(readings, i))),
        devices: Seq::new(devices.len(), |i: int| initial_device(i, devices[i])),
    }
}

/// The first `upto` slots of the vendor API in one poll.
pub open spec fn poll_gamepads(
    slots: Seq<GamepadSlotModel>,
    session_id: Seq<char>,
    readings: Seq<Option<GamepadState>>,
    modifiers: Seq<Seq<char>>,
    upto: nat,
) -> (Seq<GamepadSlotModel>, Seq<InputRecord>)
    decreases upto,
{
    if upto == 0 {
        (slots, Seq::empty())
    } else {
        let (before, events) = poll_gamepads(
            slots,
            session_id,
            readings,
            modifiers,
            (upto - 1) as nat,
        );
        let (slot, fired) = slot_step(
            before[upto - 1],
            session_id,
            (upto - 1) as u32,
            reading_at(readings, upto - 1),
            modifiers,
        );
        (before.update(upto - 1, slot), events + fired)
    }
}

/// The first `upto` HID devices in one poll.
pub open spec fn poll_devices(
    devices: Seq<DeviceModel>,
    session_id: Seq<char>,
    queues: Seq<Vec<Vec<u8>>>,
    now_ms: u64,
    modifiers: Seq<Seq<char>>,
    upto: nat,
) -> (Seq<DeviceModel>, Seq<InputRecord>)
    decreases upto,
{
    if upto == 0 {
        (devices, Seq::empty())
    } else {
        let (before, events) = poll_devices(
            devices,
            session_id,
            queues,
            now_ms,
            modifiers,
            (upto - 1) as nat,
        );
        let (device, fired) = drain_step(
            before[upto - 1],
            session_id,
            queue_at(queues, upto - 1),
            0,
            now_ms,
            modifiers,
        );
        (before.update(upto - 1, device), events + fired)
    }
}

/// One poll: the controllers of the vendor API in the order of their
/// slots, then the HID devices in enumeration order.
pub open spec fn poll_step(
    detector: DetectorModel,
    readings: Seq<Option<GamepadState>>,
    queues: Seq<Vec<Vec<u8>>>,
    now_ms: u64,
    modifiers: Seq<Seq<char>>,
) -> (DetectorModel, Seq<InputRecord>) {
    let (gamepads, first) = poll_gamepads(
        detector.gamepads,
        detector.session_id,
        readings,
        modifiers,
        detector.gamepads.len(),
    );
    let (devices, second) = poll_devices(
        detector.devices,
        detector.session_id,
        queues,
        now_ms,
        modifiers,
        detector.devices.len(),
    );
    (DetectorModel { session_id: detector.session_id, gamepads, devices }, first + second)
}

/// The device at position `index` of the enumeration at the start of a
/// session.
pub fn open_device(index: usize, device: &OpenedDevice) -> (opened: HidDevice)
    requires
        index < usize::MAX,
    ensures
        opened@ == initial_device(index as int, *device),
        opened@.wf(),
{
    let name = match &device.item.product {
        Some(product) => product.clone(),
        None => String::from_str("Unknown Device"),
    };
    let descriptor = match &device.descriptor {
        Some(bytes) => match decode_descriptor(bytes.as_slice()) {
            Ok(decoded) => Some(decoded),
            Err(_) => None,
        },
        None => None,
    };
    let axes = match &descriptor {
        Some(decoded) => decoded.axes(),
        None => Vec::new(),
    };
    let mut axis_states: Vec<Option<AxisEdgeState>> = Vec::new();
    let mut i: usize = 0;
    while i < axes.len()
        invariant
            i <= axes.len(),
            axis_states@.len() == i,
            forall|j: int| 0 <= j < i ==> axis_states@[j] is None,
        decreases axes.len() - i,
    {
        axis_states.push(None);
        i += 1;
    }
    let opened = HidDevice {
        tag: DeviceTag {
            instance: index as u64 + 1,
            vendor_id: device.item.vendor_id,
            product_id: device.item.product_id,
            name,
        },
        descriptor,
        axes,
        axis_states,
        previous: None,
    };
    assert(opened@.axis_states =~= initial_device(index as int, *device).axis_states);
    opened
}

impl InputDetector {
    /// The detector at the start of a session: the controllers as they
    /// were found, and the HID devices in enumeration order.
    pub fn new(
        session_id: String,
        readings: &Vec<Option<GamepadState>>,
        devices: &Vec<OpenedDevice>,
    ) -> (detector: InputDetector)
        ensures
            detector@ == initial_detector(session_id@, readings@, devices@),
            detector@.wf(),
    {
        let mut gamepads: Vec<GamepadSlot> = Vec::new();
        let mut i: usize = 0;
        while i < GAMEPAD_SLOTS
            invariant
                i <= GAMEPAD_SLOTS,
                gamepads@.len() == i,
                forall|j: int|
                    0 <= j < i ==> (#[trigger] gamepads@[j])@ == initial_slot(
                        reading_at(readings@, j),
                    ) && gamepads@[j]@.wf(),
                forall|j: int| 0 <= j < i ==> (#[trigger] slot_models(gamepads@)[j]).wf(),
            decreases GAMEPAD_SLOTS - i,
        {
            let reading = if i < readings.len() {
                readings[i]
            } else {
                None
            };
            let slot = match reading {
                Some(state) => GamepadSlot::starting_at(state),
                None => GamepadSlot::new(),
            };
            assert(slot@.axes =~= initial_slot(reading).axes);
            gamepads.push(slot);
            i += 1;
        }
        let mut opened: Vec<HidDevice> = Vec::new();
        let mut d: usize = 0;
        while d < devices.len()
            invariant
                d <= devices.len(),
                opened@.len() == d,
                forall|j: int|
                    0 <= j < d ==> (#[trigger] opened@[j])@ == initial_device(j, devices@[j])
                        && opened@[j]@.wf(),
                forall|j: int| 0 <= j < d ==> (#[trigger] device_models(opened@)[j]).wf(),
            decreases devices.len() - d,
        {
            opened.push(open_device(d, &devices[d]));
            d += 1;
        }
        let detector = InputDetector { session_id, gamepads, devices: opened };
        assert(detector@.gamepads =~= initial_detector(
            session_id@,
            readings@,
            devices@,
        ).gamepads);
        assert(detector@.devices =~= initial_detector(session_id@, readings@, devices@).devices);
        detector
    }

    /// One poll. `readings` holds what was read of each slot of the vendor
    /// API, `queues` the reports that were read of each HID device, in the
    /// order in which they came, and `modifiers` the modifier keys that
    /// are held. Returns the events of the poll in order.
    pub fn poll(
        &mut self,
        readings: &Vec<Option<GamepadState>>,
        queues: &Vec<Vec<Vec<u8>>>,
        now_ms: u64,
        modifiers: &Vec<String>,
    ) -> (events: Vec<DetectedInput>)
        requires
            old(self)@.wf(),
        ensures
            final(self)@.wf(),
            final(self)@ == poll_step(
                old(self)@,
                readings@,
                queues@,
                now_ms,
                texts_of(modifiers@),
            ).0,
            records_of(events@) == poll_step(
                old(self)@,
                readings@,
                queues@,
                now_ms,
                texts_of(modifiers@),
            ).1,
    {
        let mut events: Vec<DetectedInput> = Vec::new();
        assert(records_of(events@) =~= Seq::empty());
        poll_slots(&mut self.gamepads, &self.session_id, readings, modifiers, &mut events);
        let ghost first = records_of(events@);
        poll_queues(&mut self.devices, &self.session_id, queues, now_ms, modifiers, &mut events);
        assert(records_of(events@) =~= poll_step(
            old(self)@,
            readings@,
            queues@,
            now_ms,
            texts_of(modifiers@),
        ).1);
        events
    }
}

/// The controllers of the vendor API in one poll.
fn poll_slots(
    slots: &mut Vec<GamepadSlot>,
    session_id: &String,
    readings: &Vec<Option<GamepadState>>,
    modifiers: &Vec<String>,
    events: &mut Vec<DetectedInput>,
)
    requires
        old(slots).len() == GAMEPAD_SLOTS,
        slots_wf(slot_models(old(slots)@)),
    ensures
        final(slots).len() == GAMEPAD_SLOTS,
        slots_wf(slot_models(final(slots)@)),
        slot_models(final(slots)@) == poll_gamepads(
            slot_models(old(slots)@),
            session_id@,
            readings@,
            texts_of(modifiers@),
            GAMEPAD_SLOTS as nat,
        ).0,
        records_of(final(events)@) == records_of(old(events)@) + poll_gamepads(
            slot_models(old(slots)@),
            session_id@,
            readings@,
            texts_of(modifiers@),
            GAMEPAD_SLOTS as nat,
        ).1,
{
    let ghost start = slot_models(slots@);
    let ghost held = texts_of(modifiers@);
    assert(records_of(events@) =~= records_of(old(events)@) + Seq::empty());
    let mut i: usize = 0;
    while i < GAMEPAD_SLOTS
        invariant
            i <= GAMEPAD_SLOTS,
            slots.len() == GAMEPAD_SLOTS,
            start == slot_models(old(slots)@),
            held == texts_of(modifiers@),
            slots_wf(slot_models(slots@)),
            slot_models(slots@) == poll_gamepads(start, session_id@, readings@, held, i as nat).0,
            records_of(events@) == records_of(old(events)@) + poll_gamepads(
                start,
                session_id@,
                readings@,
                held,
                i as nat,
            ).1,
        decreases GAMEPAD_SLOTS - i,
    {
        let reading = if i < readings.len() {
            readings[i]
        } else {
            None
        };
        let ghost before = slots@;
        let ghost sofar = records_of(events@);
        let ghost step = slot_step(before[i as int]@, session_id@, i as u32, reading, held);
        assert(slot_models(before)[i as int].wf());
        slots[i].process(session_id, i as u32, reading, modifiers, events);
        proof {
            assert(slots@ =~= before.update(i as int, slots@[i as int]));
            assert(slot_models(slots@) =~= slot_models(before).update(i as int, step.0));
            assert forall|j: int| 0 <= j < slots@.len() implies (#[trigger] slot_models(
                slots@,
            )[j]).wf() by {
                if j != i {
                    assert(slot_models(before)[j].wf());
                }
            }
            assert(records_of(old(events)@) + (poll_gamepads(
                start,
                session_id@,
                readings@,
                held,
                i as nat,
            ).1 + step.1) =~= sofar + step.1);
        }
        i += 1;
    }
}

/// The HID devices in one poll.
fn poll_queues(
    devices: &mut Vec<HidDevice>,
    session_id: &String,
    queues: &Vec<Vec<Vec<u8>>>,
    now_ms: u64,
    modifiers: &Vec<String>,
    events: &mut Vec<DetectedInput>,
)
    requires
        devices_wf(device_models(old(devices)@)),
    ensures
        final(devices).len() == old(devices).len(),
        devices_wf(device_models(final(devices)@)),
        device_models(final(devices)@) == poll_devices(
            device_models(old(devices)@),
            session_id@,
            queues@,
            now_ms,
            texts_of(modifiers@),
            old(devices).len() as nat,
        ).0,
        records_of(final(events)@) == records_of(old(events)@) + poll_devices(
            device_models(old(devices)@),
            session_id@,
            queues@,
            now_ms,
            texts_of(modifiers@),
            old(devices).len() as nat,
        ).1,
{
    let ghost start = device_models(devices@);
    let ghost held = texts_of(modifiers@);
    assert(records_of(events@) =~= records_of(old(events)@) + Seq::empty());
    let mut d: usize = 0;
    while d < devices.len()
        invariant
            d <= devices.len(),
            devices.len() == old(devices).len(),
            start == device_models(old(devices)@),
            held == texts_of(modifiers@),
            devices_wf(device_models(devices@)),
            device_models(devices@) == poll_devices(
                start,
                session_id@,
                queues@,
                now_ms,
                held,
                d as nat,
            ).0,
            records_of(events@) == records_of(old(events)@) + poll_devices(
                start,
                session_id@,
                queues@,
                now_ms,
                held,
                d as nat,
            ).1,
        decreases devices.len() - d,
    {
        let ghost before = devices@;
        let ghost sofar = records_of(events@);
        let ghost step = drain_step(
            before[d as int]@,
            session_id@,
            queue_at(queues@, d as int),
            0,
            now_ms,
            held,
        );
        assert(device_models(before)[d as int].wf());
        if d < queues.len() {
            devices[d].drain(session_id, &queues[d], now_ms, modifiers, events);
        } else {
            proof {
                let queue = queue_at(queues@, d as int);
                assert(queue.skip(0) =~= queue);
                lemma_drain_stops(before[d as int]@, session_id@, queue, 0, now_ms, held);
                assert(records_of(events@) =~= sofar + step.1);
            }
        }
        proof {
            assert(devices@ =~= before.update(d as int, devices@[d as int]));
            assert(device_models(devices@) =~= device_models(before).update(d as int, step.0));
            assert forall|j: int| 0 <= j < devices@.len() implies (#[trigger] device_models(
                devices@,
            )[j]).wf() by {
                if j != d {
                    assert(device_models(before)[j].wf());
                }
            }
            assert(records_of(old(events)@) + (poll_devices(
                start,
                session_id@,
                queues@,
                now_ms,
                held,
                d as nat,
            ).1 + step.1) =~= sofar + step.1);
        }
        d += 1;
    }
}

} // verus!
