//! The detector of one session: what it remembers of each controller and
//! each HID device between two polls, and the events that a poll gives.

use crate::axis::{AxisEdgeState, AxisValue, Direction};
use crate::buttons::{
    first_new_button, hat_turn, hat_turn_of,
    is_lowest_new_button, lemma_reported_button_went_down, lowest_new_button,
};
use crate::descriptor::{
    axes_of, DecodedDescriptor, InputReportModel, VariableField, HAT_SWITCH_USAGE,
};
use crate::events::{
    gamepad_axis_input, gamepad_axis_record, gamepad_button_input, gamepad_button_record,
    joystick_axis_input, joystick_axis_record, joystick_button_input, joystick_button_record,
    joystick_hat_input, joystick_hat_record, records_of, DetectedInput, DeviceLabel, DeviceTag,
    HatDirection, InputRecord,
};
use crate::gamepad::{
    axis_name, gamepad_axis_name, gamepad_axis_value, gamepad_button, gamepad_button_of,
    newly_set, newly_set_buttons, GamepadState, GAMEPAD_AXES, GAMEPAD_SLOTS,
};
use crate::report::{decode_report, decoded_snapshot, report_fault, HidFullReport, Snapshot};
use crate::text::texts_of;
use vstd::prelude::*;

verus! {

/// How many reports of one device a poll takes at most.
pub const MAX_REPORTS_PER_POLL: usize = 10;

/// What is remembered of one controller of the vendor API.
#[derive(Clone, Debug)]
pub struct GamepadSlot {
    /// The state at the last poll that found the controller.
    pub previous: Option<GamepadState>,
    /// The edge state of each of the six axes, once the axis was sampled.
    pub axes: Vec<Option<AxisEdgeState>>,
}

/// What a `GamepadSlot` holds, as mathematical values.
pub struct GamepadSlotModel {
    pub previous: Option<GamepadState>,
    pub axes: Seq<Option<AxisEdgeState>>,
}

impl View for GamepadSlot {
    type V = GamepadSlotModel;

    open spec fn view(&self) -> GamepadSlotModel {
        GamepadSlotModel { previous: self.previous, axes: self.axes@ }
    }
}

/// Every edge state of the list that is there is well formed.
pub open spec fn states_wf(states: Seq<Option<AxisEdgeState>>) -> bool {
    forall|i: int|
        0 <= i < states.len() ==> match #[trigger] states[i] {
            Some(s) => s.wf(),
            None => true,
        }
}

impl GamepadSlotModel {
    pub open spec fn wf(self) -> bool {
        self.axes.len() == GAMEPAD_AXES && states_wf(self.axes)
    }
}

/// The list of one record, or of none.
pub open spec fn one_or_none(e: Option<InputRecord>) -> Seq<InputRecord> {
    match e {
        Some(e) => seq![e],
        None => Seq::empty(),
    }
}

/// One sample of an axis whose edge state may not exist yet: an axis that
/// is sampled for the first time rests at that sample and fires nothing.
pub open spec fn sample_axis(state: Option<AxisEdgeState>, v: AxisValue) -> (
    AxisEdgeState,
    Option<Direction>,
) {
    match state {
        Some(s) => s.step_spec(v),
        None => (AxisEdgeState::resting_at(v), None),
    }
}

/// One axis of a controller: its next edge state and the event it fires.
pub open spec fn gamepad_axis_step(
    session_id: Seq<char>,
    controller_id: u32,
    axis: int,
    state: Option<AxisEdgeState>,
    current: GamepadState,
    modifiers: Seq<Seq<char>>,
) -> (Option<AxisEdgeState>, Option<InputRecord>) {
    let v = gamepad_axis_value(current, axis);
    let (next, fired) = sample_axis(state, v);
    (
        Some(next),
        match fired {
            Some(d) => Some(
                gamepad_axis_record(
                    session_id,
                    controller_id,
                    axis as u32,
                    gamepad_axis_name(axis),
                    d,
                    v,
                    modifiers,
                ),
            ),
            None => None,
        },
    )
}

/// The first `upto` axes of a controller, taken in order.
pub open spec fn gamepad_axes_step(
    session_id: Seq<char>,
    controller_id: u32,
    states: Seq<Option<AxisEdgeState>>,
    current: GamepadState,
    modifiers: Seq<Seq<char>>,
    upto: nat,
) -> (Seq<Option<AxisEdgeState>>, Seq<InputRecord>)
    decreases upto,
{
    if upto == 0 {
        (states, Seq::empty())
    } else {
        let (before, events) = gamepad_axes_step(
            session_id,
            controller_id,
            states,
            current,
            modifiers,
            (upto - 1) as nat,
        );
        let (next, fired) = gamepad_axis_step(
            session_id,
            controller_id,
            upto as int,
            before[upto - 1],
            current,
            modifiers,
        );
        (before.update(upto - 1, next), events + one_or_none(fired))
    }
}

/// The button event of a controller: the button whose bit alone is newly
/// set.
pub open spec fn gamepad_button_event(
    session_id: Seq<char>,
    controller_id: u32,
    previous: GamepadState,
    current: GamepadState,
    modifiers: Seq<Seq<char>>,
) -> Option<InputRecord> {
    let mask = newly_set(previous.buttons, current.buttons);
    match gamepad_button_of(mask) {
        Some(b) => Some(gamepad_button_record(session_id, controller_id, b, mask, modifiers)),
        None => None,
    }
}

/// One poll of one controller. A controller that is not connected changes
/// nothing. The first state that is read of a controller is only
/// remembered. Any later state is compared with the one before it: first
/// the buttons, then the six axes in order.
pub open spec fn slot_step(
    slot: GamepadSlotModel,
    session_id: Seq<char>,
    controller_id: u32,
    reading: Option<GamepadState>,
    modifiers: Seq<Seq<char>>,
) -> (GamepadSlotModel, Seq<InputRecord>) {
    match reading {
        None => (slot, Seq::empty()),
        Some(current) => match slot.previous {
            None => (GamepadSlotModel { previous: Some(current), axes: slot.axes }, Seq::empty()),
            Some(previous) => {
                let button = gamepad_button_event(
                    session_id,
                    controller_id,
                    previous,
                    current,
                    modifiers,
                );
                let (axes, moved) = gamepad_axes_step(
                    session_id,
                    controller_id,
                    slot.axes,
                    current,
                    modifiers,
                    GAMEPAD_AXES as nat,
                );
                (GamepadSlotModel { previous: Some(current), axes }, one_or_none(button) + moved)
            },
        },
    }
}

/// Appending an event appends its record.
pub proof fn lemma_records_push(v: Seq<DetectedInput>, e: DetectedInput)
    ensures
        records_of(v.push(e)) == records_of(v).push(e@),
{
    assert(records_of(v.push(e)) =~= records_of(v).push(e@));
}

impl GamepadSlot {
    /// A slot of which nothing is known yet.
    pub fn new() -> (slot: GamepadSlot)
        ensures
            slot@.wf(),
            slot@.previous is None,
            forall|i: int| 0 <= i < GAMEPAD_AXES ==> slot@.axes[i] is None,
    {
        let mut axes: Vec<Option<AxisEdgeState>> = Vec::new();
        let mut i: usize = 0;
        while i < GAMEPAD_AXES
            invariant
                i <= GAMEPAD_AXES,
                axes@.len() == i,
                forall|j: int| 0 <= j < i ==> axes@[j] is None,
            decreases GAMEPAD_AXES - i,
        {
            axes.push(None);
            i += 1;
        }
        GamepadSlot { previous: None, axes }
    }

    /// A slot whose controller was found in `state` when the session began:
    /// every axis rests at its value in that state.
    pub fn starting_at(state: GamepadState) -> (slot: GamepadSlot)
        ensures
            slot@.wf(),
            slot@.previous == Some(state),
            forall|i: int|
                0 <= i < GAMEPAD_AXES ==> slot@.axes[i] == Some(
                    AxisEdgeState::resting_at(gamepad_axis_value(state, i + 1)),
                ),
    {
        let mut axes: Vec<Option<AxisEdgeState>> = Vec::new();
        let mut i: usize = 0;
        while i < GAMEPAD_AXES
            invariant
                i <= GAMEPAD_AXES,
                axes@.len() == i,
                states_wf(axes@),
                forall|j: int|
                    0 <= j < i ==> axes@[j] == Some(
                        AxisEdgeState::resting_at(gamepad_axis_value(state, j + 1)),
                    ),
            decreases GAMEPAD_AXES - i,
        {
            axes.push(Some(AxisEdgeState::new(state.axis_value((i + 1) as u32))));
            i += 1;
        }
        GamepadSlot { previous: Some(state), axes }
    }

    /// Takes the state that a poll has read of the controller, if it read
    /// one, and appends the events that it causes.
    pub fn process(
        &mut self,
        session_id: &String,
        controller_id: u32,
        reading: Option<GamepadState>,
        modifiers: &Vec<String>,
        events: &mut Vec<DetectedInput>,
    )
        requires
            old(self)@.wf(),
            controller_id < GAMEPAD_SLOTS,
        ensures
            final(self)@.wf(),
            final(self)@ == slot_step(
                old(self)@,
                session_id@,
                controller_id,
                reading,
                texts_of(modifiers@),
            ).0,
            records_of(final(events)@) == records_of(old(events)@) + slot_step(
                old(self)@,
                session_id@,
                controller_id,
                reading,
                texts_of(modifiers@),
            ).1,
    {
        let current = match reading {
            None => {
                assert(records_of(events@) =~= records_of(old(events)@) + Seq::empty());
                return ;
            },
            Some(current) => current,
        };
        let previous = match self.previous {
            None => {
                self.previous = Some(current);
                assert(records_of(events@) =~= records_of(old(events)@) + Seq::empty());
                return ;
            },
            Some(previous) => previous,
        };
        let ghost session = session_id@;
        let ghost held = texts_of(modifiers@);
        let mask = newly_set_buttons(previous.buttons, current.buttons);
        match gamepad_button(mask) {
            Some(b) => {
                let e = gamepad_button_input(session_id, controller_id, b, mask, modifiers);
                proof {
                    lemma_records_push(events@, e);
                }
                events.push(e);
            },
            None => {},
        }
        let ghost button = gamepad_button_event(session, controller_id, previous, current, held);
        assert(records_of(events@) =~= records_of(old(events)@) + one_or_none(button));
        let mut axis: usize = 0;
        while axis < GAMEPAD_AXES
            invariant
                axis <= GAMEPAD_AXES,
                controller_id < GAMEPAD_SLOTS,
                session == session_id@,
                held == texts_of(modifiers@),
                self.axes@.len() == GAMEPAD_AXES,
                states_wf(self.axes@),
                self.previous == old(self).previous,
                self.axes@ == gamepad_axes_step(
                    session,
                    controller_id,
                    old(self).axes@,
                    current,
                    held,
                    axis as nat,
                ).0,
                records_of(events@) == records_of(old(events)@) + one_or_none(button)
                    + gamepad_axes_step(
                    session,
                    controller_id,
                    old(self).axes@,
                    current,
                    held,
                    axis as nat,
                ).1,
            decreases GAMEPAD_AXES - axis,
        {
            let number = (axis + 1) as u32;
            let v = current.axis_value(number);
            let ghost before = self.axes@;
            let ghost sofar = records_of(events@);
            let ghost step = gamepad_axis_step(
                session,
                controller_id,
                number as int,
                before[axis as int],
                current,
                held,
            );
            let mut state = match self.axes[axis] {
                Some(s) => s,
                None => AxisEdgeState::new(v),
            };
            let fired = match self.axes[axis] {
                Some(_) => state.step(v),
                None => None,
            };
            self.axes[axis] = Some(state);
            match fired {
                Some(d) => {
                    let e = gamepad_axis_input(
                        session_id,
                        controller_id,
                        number,
                        axis_name(number),
                        d,
                        v,
                        modifiers,
                    );
                    proof {
                        lemma_records_push(events@, e);
                    }
                    events.push(e);
                },
                None => {},
            }
            assert(self.axes@ =~= before.update(axis as int, step.0));
            assert(records_of(events@) =~= sofar + one_or_none(step.1));
            axis += 1;
        }
        self.previous = Some(current);
    }
}

/// What is remembered of one HID device.
#[derive(Debug)]
pub struct HidDevice {
    /// What identifies the device in its events.
    pub tag: DeviceTag,
    /// The field model of the device; `None` for a device that takes no
    /// part in the session.
    pub descriptor: Option<DecodedDescriptor>,
    /// The axis fields of the device in declaration order.
    pub axes: Vec<VariableField>,
    /// The edge state of each axis, once the axis was sampled.
    pub axis_states: Vec<Option<AxisEdgeState>>,
    /// The last snapshot; `None` until the first report is decoded.
    pub previous: Option<HidFullReport>,
}

/// What a `HidDevice` holds, as mathematical values.
pub struct DeviceModel {
    pub tag: DeviceLabel,
    pub reports: Option<Seq<InputReportModel>>,
    pub axes: Seq<VariableField>,
    pub axis_states: Seq<Option<AxisEdgeState>>,
    pub previous: Option<Snapshot>,
}

/// The snapshot that an optional report holds.
pub open spec fn snapshot_view(s: Option<HidFullReport>) -> Option<Snapshot> {
    match s {
        Some(s) => Some(s@),
        None => None,
    }
}

/// The field model that an optional descriptor holds.
pub open spec fn reports_view(d: Option<DecodedDescriptor>) -> Option<Seq<InputReportModel>> {
    match d {
        Some(d) => Some(d@),
        None => None,
    }
}

impl View for HidDevice {
    type V = DeviceModel;

    open spec fn view(&self) -> DeviceModel {
        DeviceModel {
            tag: self.tag@,
            reports: reports_view(self.descriptor),
            axes: self.axes@,
            axis_states: self.axis_states@,
            previous: snapshot_view(self.previous),
        }
    }
}

impl DeviceModel {
    /// The axes are those of the descriptor, and each has its place among
    /// the edge states.
    pub open spec fn wf(self) -> bool {
        &&& self.axes == match self.reports {
            Some(reports) => axes_of(reports),
            None => Seq::empty(),
        }
        &&& self.axis_states.len() == self.axes.len()
        &&& states_wf(self.axis_states)
    }
}

/// The normalized value of an axis: its raw value mapped from the logical
/// range onto the range from -1 to 1.
pub open spec fn normalized(raw: u16, logical_min: i32, logical_max: i32) -> AxisValue {
    AxisValue {
        num: (2 * (raw - logical_min) - (logical_max - logical_min)) as i64,
        den: (logical_max - logical_min) as i64,
    }
}

/// The normalized value of an axis with a logical range that is not empty.
pub fn normalize(raw: u16, logical_min: i32, logical_max: i32) -> (v: AxisValue)
    requires
        logical_max - logical_min > 0,
    ensures
        v == normalized(raw, logical_min, logical_max),
        v.wf(),
{
    let range: i64 = logical_max as i64 - logical_min as i64;
    AxisValue { num: 2 * (raw as i64 - logical_min as i64) - range, den: range }
}

/// Whether axis `i` gives its usage id its number: no later axis has the
/// same usage id.
pub open spec fn numbers_its_usage(axes: Seq<VariableField>, i: int) -> bool {
    forall|j: int| i < j < axes.len() ==> (#[trigger] axes[j]).usage_id != axes[i].usage_id
}

/// The number of the axis at position `i`: positions are counted from 1.
pub open spec fn axis_number(i: int) -> u32 {
    if i < u32::MAX {
        (i + 1) as u32
    } else {
        u32::MAX
    }
}

/// The raw value of an axis in a snapshot, 0 where the snapshot does not
/// hold the axis.
pub open spec fn raw_or_zero(s: Snapshot, usage: u32) -> u16 {
    if s.axis_values.contains_key(usage) {
        s.axis_values[usage]
    } else {
        0
    }
}

/// The logical range of an axis in a snapshot, the full 16-bit range where
/// the snapshot has none.
pub open spec fn range_or_full(s: Snapshot, usage: u32) -> (i32, i32) {
    if s.axis_ranges.contains_key(usage) {
        s.axis_ranges[usage]
    } else {
        (0, 65535)
    }
}

/// The name of an axis in a snapshot.
pub open spec fn name_or_unknown(s: Snapshot, usage: u32) -> Seq<char> {
    if s.axis_names.contains_key(usage) {
        s.axis_names[usage]
    } else {
        "Unknown"@
    }
}

/// The normalized value of an axis, where its logical range is not
/// empty.
pub open spec fn normalized_in_range(raw: u16, low: i32, high: i32) -> Option<AxisValue> {
    if high - low > 0 {
        Some(normalized(raw, low, high))
    } else {
        None
    }
}

/// The direction that the hat has turned to since the last snapshot:
/// the direction of its raw value, where the raw value of the last
/// snapshot did not stand for that direction. The first snapshot of a
/// device turns the hat to none.
pub open spec fn hat_turned(previous: Option<Snapshot>, usage: u32, raw: u16) -> Option<
    HatDirection,
> {
    match previous {
        Some(p) => hat_turn_of(raw_or_zero(p, usage), raw),
        None => None,
    }
}

/// One axis of a HID device in one snapshot: its next edge state and the
/// event it fires.
///
/// An axis takes part where it gives its usage id its number and the
/// snapshot holds its value. The hat switch fires the direction that it
/// has turned to since the last snapshot. Any other axis is sampled at its
/// normalized value, where its logical range is not empty.
pub open spec fn hid_axis_step(
    session_id: Seq<char>,
    tag: DeviceLabel,
    axes: Seq<VariableField>,
    i: int,
    state: Option<AxisEdgeState>,
    previous: Option<Snapshot>,
    current: Snapshot,
    modifiers: Seq<Seq<char>>,
) -> (Option<AxisEdgeState>, Option<InputRecord>) {
    let usage = axes[i].usage_id as u32;
    let (low, high) = range_or_full(current, usage);
    if !numbers_its_usage(axes, i) || !current.axis_values.contains_key(usage) {
        (state, None)
    } else {
        let raw = current.axis_values[usage];
        let name = name_or_unknown(current, usage);
        if usage == HAT_SWITCH_USAGE {
            (
                state,
                match hat_turned(previous, usage, raw) {
                    Some(d) => Some(
                        joystick_hat_record(
                            session_id,
                            tag,
                            axis_number(i),
                            usage,
                            name,
                            d,
                            normalized_in_range(raw, low, high),
                            modifiers,
                        ),
                    ),
                    None => None,
                },
            )
        } else if high - low <= 0 {
            (state, None)
        } else {
            let v = normalized(raw, low, high);
            let (next, fired) = sample_axis(state, v);
            (
                Some(next),
                match fired {
                    Some(d) => Some(
                        joystick_axis_record(
                            session_id,
                            tag,
                            axis_number(i),
                            usage,
                            name,
                            d,
                            v,
                            modifiers,
                        ),
                    ),
                    None => None,
                },
            )
        }
    }
}

/// The first `upto` axes of a HID device in one snapshot, taken in order.
pub open spec fn hid_axes_step(
    session_id: Seq<char>,
    tag: DeviceLabel,
    axes: Seq<VariableField>,
    states: Seq<Option<AxisEdgeState>>,
    previous: Option<Snapshot>,
    current: Snapshot,
    modifiers: Seq<Seq<char>>,
    upto: nat,
) -> (Seq<Option<AxisEdgeState>>, Seq<InputRecord>)
    decreases upto,
{
    if upto == 0 {
        (states, Seq::empty())
    } else {
        let (before, events) = hid_axes_step(
            session_id,
            tag,
            axes,
            states,
            previous,
            current,
            modifiers,
            (upto - 1) as nat,
        );
        let (next, fired) = hid_axis_step(
            session_id,
            tag,
            axes,
            upto - 1,
            before[upto - 1],
            previous,
            current,
            modifiers,
        );
        (before.update(upto - 1, next), events + one_or_none(fired))
    }
}

/// The button event of a HID device in one snapshot: the lowest-numbered
/// button that went down since the last snapshot. The first snapshot of a
/// device causes none.
pub open spec fn hid_button_event(
    session_id: Seq<char>,
    tag: DeviceLabel,
    previous: Option<Snapshot>,
    current: Snapshot,
    modifiers: Seq<Seq<char>>,
) -> Option<InputRecord> {
    match previous {
        None => None,
        Some(p) => match lowest_new_button(p.pressed_buttons, current.pressed_buttons) {
            Some(b) => Some(joystick_button_record(session_id, tag, b, modifiers)),
            None => None,
        },
    }
}

/// One snapshot of a HID device: first the buttons, then the axes in the
/// order of their numbers. The snapshot is remembered for the next one.
pub open spec fn snapshot_step(
    device: DeviceModel,
    session_id: Seq<char>,
    current: Snapshot,
    modifiers: Seq<Seq<char>>,
) -> (DeviceModel, Seq<InputRecord>) {
    let button = hid_button_event(session_id, device.tag, device.previous, current, modifiers);
    let (states, moved) = hid_axes_step(
        session_id,
        device.tag,
        device.axes,
        device.axis_states,
        device.previous,
        current,
        modifiers,
        device.axes.len(),
    );
    (
        DeviceModel { axis_states: states, previous: Some(current), ..device },
        one_or_none(button) + moved,
    )
}

/// One report of a HID device. A device without a field model takes no
/// part, and a report that cannot be decoded is dropped.
pub open spec fn report_step(
    device: DeviceModel,
    session_id: Seq<char>,
    report: Seq<u8>,
    now_ms: u64,
    modifiers: Seq<Seq<char>>,
) -> (DeviceModel, Seq<InputRecord>) {
    match device.reports {
        None => (device, Seq::empty()),
        Some(reports) => if report_fault(reports, report) is Some {
            (device, Seq::empty())
        } else {
            snapshot_step(device, session_id, decoded_snapshot(reports, report, now_ms), modifiers)
        },
    }
}

/// The reports that a poll has read of one device, taken in order: at most
/// ten of them, and none after the first empty one, which stands for the
/// end of the queue. `taken` counts the reports taken before.
#[verifier::opaque]
pub open spec fn drain_step(
    device: DeviceModel,
    session_id: Seq<char>,
    reports: Seq<Seq<u8>>,
    taken: nat,
    now_ms: u64,
    modifiers: Seq<Seq<char>>,
) -> (DeviceModel, Seq<InputRecord>)
    decreases reports.len(),
{
    if reports.len() == 0 || taken >= MAX_REPORTS_PER_POLL || reports[0].len() == 0 {
        (device, Seq::empty())
    } else {
        let (next, first) = report_step(device, session_id, reports[0], now_ms, modifiers);
        let (last, rest) = drain_step(
            next,
            session_id,
            reports.drop_first(),
            taken + 1,
            now_ms,
            modifiers,
        );
        (last, first + rest)
    }
}

/// The axes from `upto` on are untouched by the first `upto` axes.
pub proof fn lemma_hid_axes_step_frame(
    session_id: Seq<char>,
    tag: DeviceLabel,
    axes: Seq<VariableField>,
    states: Seq<Option<AxisEdgeState>>,
    previous: Option<Snapshot>,
    current: Snapshot,
    modifiers: Seq<Seq<char>>,
    upto: nat,
)
    requires
        upto <= states.len(),
    ensures
        hid_axes_step(session_id, tag, axes, states, previous, current, modifiers, upto).0.len()
            == states.len(),
        forall|j: int|
            upto <= j < states.len() ==> hid_axes_step(
                session_id,
                tag,
                axes,
                states,
                previous,
                current,
                modifiers,
                upto,
            ).0[j] == #[trigger] states[j],
    decreases upto,
{
    if upto > 0 {
        lemma_hid_axes_step_frame(
            session_id,
            tag,
            axes,
            states,
            previous,
            current,
            modifiers,
            (upto - 1) as nat,
        );
    }
}

/// Axes that are sampled for the first time, with no snapshot before,
/// fire nothing.
pub proof fn lemma_first_samples_are_silent(
    session_id: Seq<char>,
    tag: DeviceLabel,
    axes: Seq<VariableField>,
    states: Seq<Option<AxisEdgeState>>,
    current: Snapshot,
    modifiers: Seq<Seq<char>>,
    upto: nat,
)
    requires
        upto <= states.len(),
        forall|j: int| 0 <= j < states.len() ==> states[j] is None,
    ensures
        hid_axes_step(session_id, tag, axes, states, None, current, modifiers, upto).1
            == Seq::<InputRecord>::empty(),
    decreases upto,
{
    if upto > 0 {
        lemma_first_samples_are_silent(
            session_id,
            tag,
            axes,
            states,
            current,
            modifiers,
            (upto - 1) as nat,
        );
        lemma_hid_axes_step_frame(
            session_id,
            tag,
            axes,
            states,
            None,
            current,
            modifiers,
            (upto - 1) as nat,
        );
        let before = hid_axes_step(
            session_id,
            tag,
            axes,
            states,
            None,
            current,
            modifiers,
            (upto - 1) as nat,
        );
        assert(states[upto - 1] is None);
        assert(before.0[upto - 1] == states[upto - 1]);
        assert(before.1 + Seq::<InputRecord>::empty() =~= Seq::<InputRecord>::empty());
    }
}

/// The first snapshot of a device that was just opened only sets the
/// baseline: it causes no event, whatever buttons are down in it and
/// wherever its axes stand.
pub proof fn lemma_first_snapshot_is_silent(
    device: DeviceModel,
    session_id: Seq<char>,
    current: Snapshot,
    modifiers: Seq<Seq<char>>,
)
    requires
        device.previous is None,
        device.axis_states.len() == device.axes.len(),
        forall|j: int| 0 <= j < device.axis_states.len() ==> device.axis_states[j] is None,
    ensures
        snapshot_step(device, session_id, current, modifiers).1 == Seq::<InputRecord>::empty(),
        snapshot_step(device, session_id, current, modifiers).0.previous == Some(current),
{
    lemma_first_samples_are_silent(
        session_id,
        device.tag,
        device.axes,
        device.axis_states,
        current,
        modifiers,
        device.axes.len(),
    );
    assert(Seq::<InputRecord>::empty() + Seq::<InputRecord>::empty() =~= Seq::<
        InputRecord,
    >::empty());
}

/// A button event is caused only by a button that went down since the
/// snapshot before: it names a button that is down now and was not down
/// then, and the lowest-numbered of these.
pub proof fn lemma_button_event_is_an_edge(
    session_id: Seq<char>,
    tag: DeviceLabel,
    previous: Snapshot,
    current: Snapshot,
    modifiers: Seq<Seq<char>>,
)
    requires
        hid_button_event(session_id, tag, Some(previous), current, modifiers) is Some,
    ensures
        is_lowest_new_button(
            previous.pressed_buttons,
            current.pressed_buttons,
            hid_button_event(
                session_id,
                tag,
                Some(previous),
                current,
                modifiers,
            ).unwrap().raw_code_index.unwrap(),
        ),
{
    lemma_reported_button_went_down(
        previous.pressed_buttons,
        current.pressed_buttons,
    );
}

/// The events fired so far, followed by what the rest of a queue gives.
pub open spec fn drained(sofar: Seq<InputRecord>, rest: (DeviceModel, Seq<InputRecord>)) -> (
    DeviceModel,
    Seq<InputRecord>,
) {
    (rest.0, sofar + rest.1)
}

/// Events that are put before a rest twice are put before it once, one
/// after the other.
pub proof fn lemma_drained_twice(
    sofar: Seq<InputRecord>,
    next: Seq<InputRecord>,
    rest: (DeviceModel, Seq<InputRecord>),
)
    ensures
        drained(sofar, drained(next, rest)) == drained(sofar + next, rest),
{
    assert(sofar + (next + rest.1) =~= (sofar + next) + rest.1);
}

/// Where the queue goes on, its next report is taken before the rest.
pub proof fn lemma_drain_takes_first(
    device: DeviceModel,
    session_id: Seq<char>,
    queue: Seq<Seq<u8>>,
    i: nat,
    now_ms: u64,
    modifiers: Seq<Seq<char>>,
)
    requires
        i < queue.len(),
        i < MAX_REPORTS_PER_POLL,
        queue[i as int].len() > 0,
    ensures
        drain_step(device, session_id, queue.skip(i as int), i, now_ms, modifiers) == drained(
            report_step(device, session_id, queue[i as int], now_ms, modifiers).1,
            drain_step(
                report_step(device, session_id, queue[i as int], now_ms, modifiers).0,
                session_id,
                queue.skip(i as int + 1),
                i + 1,
                now_ms,
                modifiers,
            ),
        ),
{
    reveal(drain_step);
    assert(queue.skip(i as int)[0] == queue[i as int]);
    assert(queue.skip(i as int).drop_first() =~= queue.skip(i as int + 1));
}

/// Where the queue ends, nothing more is taken.
pub proof fn lemma_drain_stops(
    device: DeviceModel,
    session_id: Seq<char>,
    queue: Seq<Seq<u8>>,
    i: nat,
    now_ms: u64,
    modifiers: Seq<Seq<char>>,
)
    requires
        i <= queue.len(),
        i >= queue.len() || i >= MAX_REPORTS_PER_POLL || queue[i as int].len() == 0,
    ensures
        drain_step(device, session_id, queue.skip(i as int), i, now_ms, modifiers) == (
            device,
            Seq::<InputRecord>::empty(),
        ),
{
    reveal(drain_step);
    if i < queue.len() {
        assert(queue.skip(i as int)[0] == queue[i as int]);
    }
}

/// The byte strings of a list of reports.
pub open spec fn byte_strings(reports: Seq<Vec<u8>>) -> Seq<Seq<u8>> {
    Seq::new(reports.len(), |i: int| reports[i]@)
}

/// Whether a poll that has taken `taken` reports of a device takes
/// another: it takes ten at most.
pub fn takes_another_report(taken: usize) -> (more: bool)
    ensures
        more == (taken < MAX_REPORTS_PER_POLL),
{
    taken < MAX_REPORTS_PER_POLL
}

/// Whether what was read of a device ends its queue for this poll: an
/// empty read says that no report waits.
pub fn ends_queue(report: &Vec<u8>) -> (ends: bool)
    ensures
        ends == (report@.len() == 0),
{
    report.len() == 0
}

/// Whether no later axis has the usage id of the axis at position `i`.
pub fn is_last_with_usage(axes: &Vec<VariableField>, i: usize) -> (last: bool)
    requires
        i < axes.len(),
    ensures
        last == numbers_its_usage(axes@, i as int),
{
    let mut j: usize = i + 1;
    while j < axes.len()
        invariant
            i < j <= axes.len(),
            forall|k: int| i < k < j ==> (#[trigger] axes@[k]).usage_id != axes@[i as int].usage_id,
        decreases axes.len() - j,
    {
        if axes[j].usage_id == axes[i].usage_id {
            return false;
        }
        j += 1;
    }
    true
}

/// The number of the axis at position `i`.
pub fn number_of_axis(i: usize) -> (n: u32)
    ensures
        n == axis_number(i as int),
{
    if i < u32::MAX as usize {
        (i + 1) as u32
    } else {
        u32::MAX
    }
}

impl HidDevice {
    /// One axis in one snapshot.
    fn process_axis(
        &mut self,
        session_id: &String,
        i: usize,
        current: &HidFullReport,
        modifiers: &Vec<String>,
        events: &mut Vec<DetectedInput>,
    )
        requires
            i < old(self).axes.len(),
            old(self).axis_states.len() == old(self).axes.len(),
            states_wf(old(self).axis_states@),
        ensures
            final(self).tag == old(self).tag,
            final(self).descriptor == old(self).descriptor,
            final(self).axes == old(self).axes,
            final(self).previous == old(self).previous,
            states_wf(final(self).axis_states@),
            final(self).axis_states@ == old(self).axis_states@.update(
                i as int,
                hid_axis_step(
                    session_id@,
                    old(self).tag@,
                    old(self).axes@,
                    i as int,
                    old(self).axis_states@[i as int],
                    snapshot_view(old(self).previous),
                    current@,
                    texts_of(modifiers@),
                ).0,
            ),
            records_of(final(events)@) == records_of(old(events)@) + one_or_none(
                hid_axis_step(
                    session_id@,
                    old(self).tag@,
                    old(self).axes@,
                    i as int,
                    old(self).axis_states@[i as int],
                    snapshot_view(old(self).previous),
                    current@,
                    texts_of(modifiers@),
                ).1,
            ),
    {
        broadcast use vstd::std_specs::hash::group_hash_axioms;

        let ghost step = hid_axis_step(
            session_id@,
            self.tag@,
            self.axes@,
            i as int,
            self.axis_states@[i as int],
            snapshot_view(self.previous),
            current@,
            texts_of(modifiers@),
        );
        let usage = self.axes[i].usage_id as u32;
        let (low, high) = match current.axis_ranges.get(&usage) {
            Some(range) => *range,
            None => (0, 65535),
        };
        let raw = match current.axis_values.get(&usage) {
            Some(raw) => *raw,
            None => {
                assert(self.axis_states@ =~= old(self).axis_states@.update(i as int, step.0));
                assert(records_of(events@) =~= records_of(old(events)@) + one_or_none(step.1));
                return ;
            },
        };
        if !is_last_with_usage(&self.axes, i) {
            assert(self.axis_states@ =~= old(self).axis_states@.update(i as int, step.0));
            assert(records_of(events@) =~= records_of(old(events)@) + one_or_none(step.1));
            return ;
        }
        let in_range = high as i64 - low as i64 > 0;
        let name = match current.axis_names.get(&usage) {
            Some(name) => name.clone(),
            None => String::from_str("Unknown"),
        };
        let number = number_of_axis(i);
        if usage == HAT_SWITCH_USAGE {
            let turned = match &self.previous {
                Some(p) => {
                    let before = match p.axis_values.get(&usage) {
                        Some(before) => *before,
                        None => 0,
                    };
                    hat_turn(before, raw)
                },
                None => None,
            };
            match turned {
                Some(d) => {
                    let value = if in_range {
                        Some(normalize(raw, low, high))
                    } else {
                        None
                    };
                    let e = joystick_hat_input(
                        session_id,
                        &self.tag,
                        number,
                        usage,
                        &name,
                        d,
                        value,
                        modifiers,
                    );
                    proof {
                        lemma_records_push(events@, e);
                    }
                    events.push(e);
                },
                None => {},
            }
            assert(self.axis_states@ =~= old(self).axis_states@.update(i as int, step.0));
            assert(records_of(events@) =~= records_of(old(events)@) + one_or_none(step.1));
        } else if !in_range {
            assert(self.axis_states@ =~= old(self).axis_states@.update(i as int, step.0));
            assert(records_of(events@) =~= records_of(old(events)@) + one_or_none(step.1));
        } else {
            let v = normalize(raw, low, high);
            let mut state = match self.axis_states[i] {
                Some(s) => s,
                None => AxisEdgeState::new(v),
            };
            let fired = match self.axis_states[i] {
                Some(_) => state.step(v),
                None => None,
            };
            self.axis_states[i] = Some(state);
            match fired {
                Some(d) => {
                    let e = joystick_axis_input(
                        session_id,
                        &self.tag,
                        number,
                        usage,
                        &name,
                        d,
                        v,
                        modifiers,
                    );
                    proof {
                        lemma_records_push(events@, e);
                    }
                    events.push(e);
                },
                None => {},
            }
            assert(self.axis_states@ =~= old(self).axis_states@.update(i as int, step.0));
            assert(records_of(events@) =~= records_of(old(events)@) + one_or_none(step.1));
        }
    }

    /// One snapshot: the events that it causes are appended, and it takes
    /// the place of the last snapshot.
    pub fn process_snapshot(
        &mut self,
        session_id: &String,
        current: HidFullReport,
        modifiers: &Vec<String>,
        events: &mut Vec<DetectedInput>,
    )
        requires
            old(self)@.wf(),
        ensures
            final(self)@.wf(),
            final(self)@ == snapshot_step(
                old(self)@,
                session_id@,
                current@,
                texts_of(modifiers@),
            ).0,
            records_of(final(events)@) == records_of(old(events)@) + snapshot_step(
                old(self)@,
                session_id@,
                current@,
                texts_of(modifiers@),
            ).1,
    {
        let ghost session = session_id@;
        let ghost held = texts_of(modifiers@);
        let ghost button = hid_button_event(
            session,
            self.tag@,
            snapshot_view(self.previous),
            current@,
            held,
        );
        match &self.previous {
            Some(p) => {
                match first_new_button(&p.pressed_buttons, &current.pressed_buttons) {
                    Some(b) => {
                        let e = joystick_button_input(session_id, &self.tag, b, modifiers);
                        proof {
                            lemma_records_push(events@, e);
                        }
                        events.push(e);
                    },
                    None => {},
                }
            },
            None => {},
        }
        assert(records_of(events@) =~= records_of(old(events)@) + one_or_none(button));
        let mut i: usize = 0;
        while i < self.axes.len()
            invariant
                i <= self.axes.len(),
                session == session_id@,
                held == texts_of(modifiers@),
                self.tag == old(self).tag,
                self.descriptor == old(self).descriptor,
                self.axes == old(self).axes,
                self.previous == old(self).previous,
                self.axis_states.len() == self.axes.len(),
                states_wf(self.axis_states@),
                self.axis_states@ == hid_axes_step(
                    session,
                    old(self).tag@,
                    old(self).axes@,
                    old(self).axis_states@,
                    snapshot_view(old(self).previous),
                    current@,
                    held,
                    i as nat,
                ).0,
                records_of(events@) == records_of(old(events)@) + one_or_none(button)
                    + hid_axes_step(
                    session,
                    old(self).tag@,
                    old(self).axes@,
                    old(self).axis_states@,
                    snapshot_view(old(self).previous),
                    current@,
                    held,
                    i as nat,
                ).1,
            decreases self.axes.len() - i,
        {
            self.process_axis(session_id, i, &current, modifiers, events);
            i += 1;
        }
        self.previous = Some(current);
    }

    /// One report: it is decoded, and the events of its snapshot are
    /// appended.
    pub fn process_report(
        &mut self,
        session_id: &String,
        report: &[u8],
        now_ms: u64,
        modifiers: &Vec<String>,
        events: &mut Vec<DetectedInput>,
    )
        requires
            old(self)@.wf(),
        ensures
            final(self)@.wf(),
            final(self)@ == report_step(
                old(self)@,
                session_id@,
                report@,
                now_ms,
                texts_of(modifiers@),
            ).0,
            records_of(final(events)@) == records_of(old(events)@) + report_step(
                old(self)@,
                session_id@,
                report@,
                now_ms,
                texts_of(modifiers@),
            ).1,
    {
        let decoded = match &self.descriptor {
            None => {
                assert(records_of(events@) =~= records_of(old(events)@) + Seq::empty());
                return ;
            },
            Some(descriptor) => decode_report(descriptor, report, now_ms),
        };
        match decoded {
            Err(_) => {
                assert(records_of(events@) =~= records_of(old(events)@) + Seq::empty());
            },
            Ok(current) => {
                self.process_snapshot(session_id, current, modifiers, events);
            },
        }
    }

    /// The reports that a poll has read of the device.
    pub fn drain(
        &mut self,
        session_id: &String,
        reports: &Vec<Vec<u8>>,
        now_ms: u64,
        modifiers: &Vec<String>,
        events: &mut Vec<DetectedInput>,
    )
        requires
            old(self)@.wf(),
        ensures
            final(self)@.wf(),
            final(self)@ == drain_step(
                old(self)@,
                session_id@,
                byte_strings(reports@),
                0,
                now_ms,
                texts_of(modifiers@),
            ).0,
            records_of(final(events)@) == records_of(old(events)@) + drain_step(
                old(self)@,
                session_id@,
                byte_strings(reports@),
                0,
                now_ms,
                texts_of(modifiers@),
            ).1,
    {
        let ghost session = session_id@;
        let ghost held = texts_of(modifiers@);
        let ghost queue = byte_strings(reports@);
        let ghost whole = drain_step(old(self)@, session, queue, 0, now_ms, held);
        assert(queue.skip(0) =~= queue);
        assert(records_of(events@) =~= records_of(old(events)@) + Seq::empty());
        let ghost mut sofar: Seq<InputRecord> = Seq::empty();
        let mut i: usize = 0;
        while i < reports.len() && takes_another_report(i) && !ends_queue(&reports[i])
            invariant
                i <= reports.len(),
                session == session_id@,
                held == texts_of(modifiers@),
                queue == byte_strings(reports@),
                self@.wf(),
                records_of(events@) == records_of(old(events)@) + sofar,
                whole == drained(
                    sofar,
                    drain_step(self@, session, queue.skip(i as int), i as nat, now_ms, held),
                ),
            decreases reports.len() - i,
        {
            let ghost before = self@;
            let ghost step = report_step(before, session, queue[i as int], now_ms, held);
            let ghost rest = drain_step(
                step.0,
                session,
                queue.skip(i + 1),
                (i + 1) as nat,
                now_ms,
                held,
            );
            proof {
                lemma_drain_takes_first(before, session, queue, i as nat, now_ms, held);
                lemma_drained_twice(sofar, step.1, rest);
            }
            self.process_report(session_id, reports[i].as_slice(), now_ms, modifiers, events);
            proof {
                assert(records_of(events@) =~= records_of(old(events)@) + (sofar + step.1));
                sofar = sofar + step.1;
            }
            i += 1;
        }
        proof {
            lemma_drain_stops(self@, session, queue, i as nat, now_ms, held);
            assert(whole.1 =~= sofar);
        }
    }
}

} // verus!
