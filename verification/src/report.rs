//! Decoding of one raw input report against the field model of its
//! device: the values of the axes and the buttons that are down.

use crate::bits::{effective_bits, field_value, infer_bit_depth, read_field, MAX_FIELD_WIDTH};
use crate::buttons::holds_button;
use crate::descriptor::{
    axes_in, axes_of, field_end, ArrayField, DecodeError, DecodedDescriptor, Field, InputReport, InputReportModel,
    VariableField, BUTTON_PAGE,
};
use crate::text::{hex4, push_hex4, text_of};
use std::collections::HashMap;
use vstd::prelude::*;

verus! {

/// The state of a device as one report gives it.
///
/// The four maps are keyed by the usage id of the axis.
#[derive(Clone, Debug)]
pub struct HidFullReport {
    /// The raw value of each axis, held within 16 bits.
    pub axis_values: HashMap<u32, u16>,
    /// The bit depth of each axis, from its logical range.
    pub axis_bit_depths: HashMap<u32, u8>,
    /// The name of the usage of each axis.
    pub axis_names: HashMap<u32, String>,
    /// The logical minimum and maximum of each axis.
    pub axis_ranges: HashMap<u32, (i32, i32)>,
    /// The numbers of the buttons that are down.
    pub pressed_buttons: Vec<u32>,
    pub timestamp_ms: u64,
    /// Whether some axis field is wider than 8 bits.
    pub is_16bit: bool,
}

/// The axes of a device as one report gives them.
#[derive(Clone, Debug)]
pub struct HidAxisReport {
    pub axis_values: HashMap<u32, u16>,
    pub axis_bit_depths: HashMap<u32, u8>,
    pub axis_names: HashMap<u32, String>,
    pub axis_ranges: HashMap<u32, (i32, i32)>,
    pub timestamp_ms: u64,
    pub is_16bit: bool,
}

/// What a `HidFullReport` holds, as mathematical values.
#[verifier::ext_equal]
pub struct Snapshot {
    pub axis_values: Map<u32, u16>,
    pub axis_bit_depths: Map<u32, u8>,
    pub axis_names: Map<u32, Seq<char>>,
    pub axis_ranges: Map<u32, (i32, i32)>,
    pub pressed_buttons: Seq<u32>,
    pub timestamp_ms: u64,
    pub is_16bit: bool,
}

/// The texts of a map of strings.
pub open spec fn name_texts(names: Map<u32, String>) -> Map<u32, Seq<char>> {
    names.map_values(|s: String| s@)
}

/// The snapshot that the parts of a report make up.
pub open spec fn snapshot_of(
    axis_values: Map<u32, u16>,
    axis_bit_depths: Map<u32, u8>,
    axis_names: Map<u32, String>,
    axis_ranges: Map<u32, (i32, i32)>,
    pressed_buttons: Seq<u32>,
    timestamp_ms: u64,
    is_16bit: bool,
) -> Snapshot {
    Snapshot {
        axis_values,
        axis_bit_depths,
        axis_names: name_texts(axis_names),
        axis_ranges,
        pressed_buttons,
        timestamp_ms,
        is_16bit,
    }
}

impl View for HidFullReport {
    type V = Snapshot;

    open spec fn view(&self) -> Snapshot {
        snapshot_of(
            self.axis_values@,
            self.axis_bit_depths@,
            self.axis_names@,
            self.axis_ranges@,
            self.pressed_buttons@,
            self.timestamp_ms,
            self.is_16bit,
        )
    }
}

impl View for HidAxisReport {
    type V = Snapshot;

    /// The snapshot without buttons.
    open spec fn view(&self) -> Snapshot {
        snapshot_of(
            self.axis_values@,
            self.axis_bit_depths@,
            self.axis_names@,
            self.axis_ranges@,
            Seq::empty(),
            self.timestamp_ms,
            self.is_16bit,
        )
    }
}

/// The name that the `hut` crate has for a usage, `None` where its tables
/// do not hold the usage.
pub uninterp spec fn usage_name(usage_page: u16, usage_id: u16) -> Option<Seq<char>>;

/// Looks a usage up with `hut::Usage::new_from_page_and_id` and asks it
/// for its `name`. The contract names the result: the tables are fixed.
#[verifier::external_body]
pub(crate) fn lookup_usage_name(usage_page: u16, usage_id: u16) -> (name: Option<String>)
    ensures
        text_of(name) == usage_name(usage_page, usage_id),
{
    hut::Usage::new_from_page_and_id(usage_page, usage_id).ok().map(|u| u.name())
}

/// Reads the system clock through std's `SystemTime::now`, in milliseconds
/// since the Unix epoch. Nothing is claimed of the result.
#[verifier::external_body]
pub(crate) fn current_time_ms() -> (now: u64) {
    let since = std::time::SystemTime::now().duration_since(std::time::UNIX_EPOCH);
    since.map(|d| d.as_millis() as u64).unwrap_or(0)
}

/// The snapshot of a device that reports nothing.
pub open spec fn empty_snapshot() -> Snapshot {
    Snapshot {
        axis_values: Map::empty(),
        axis_bit_depths: Map::empty(),
        axis_names: Map::empty(),
        axis_ranges: Map::empty(),
        pressed_buttons: Seq::empty(),
        timestamp_ms: 0,
        is_16bit: false,
    }
}

/// The name under which an axis is shown: the name of its usage, or the
/// usage page and id in hexadecimal where the usage has no name.
pub open spec fn axis_label(usage_page: u16, usage_id: u16) -> Seq<char> {
    match usage_name(usage_page, usage_id) {
        Some(name) => name,
        None => "Usage "@ + hex4(usage_page, false) + ":"@ + hex4(usage_id, false),
    }
}

/// A value held within 16 bits: what is below zero counts as zero, what is
/// above 65535 as 65535.
pub open spec fn clamp_u16(v: int) -> u16 {
    if v < 0 {
        0
    } else if v > 65535 {
        65535
    } else {
        v as u16
    }
}

/// Whether a field of these bits can be read: it has 1 to 32 bits.
pub open spec fn readable(bit_start: usize, bit_end: usize) -> bool {
    1 <= bit_end - bit_start <= MAX_FIELD_WIDTH
}

/// The value of a field of one control.
pub open spec fn variable_value(v: VariableField, bytes: Seq<u8>) -> int {
    field_value(
        bytes,
        v.bit_start as int,
        (v.bit_end - v.bit_start) as nat,
        v.logical_min < 0,
    )
}

/// How many bits one entry of an array field has.
pub open spec fn entry_width(a: ArrayField) -> int {
    if a.report_count == 0 {
        0
    } else {
        (a.bit_end - a.bit_start) / (a.report_count as int)
    }
}

/// Whether the entries of an array field can be read.
pub open spec fn array_readable(a: ArrayField) -> bool {
    a.bit_start <= a.bit_end && 1 <= entry_width(a) <= MAX_FIELD_WIDTH
}

/// Entry `k` of an array field. The entries of a field with several
/// entries are unsigned; a field with a single entry is signed where its
/// logical minimum is negative.
pub open spec fn array_entry(a: ArrayField, bytes: Seq<u8>, k: int) -> int {
    field_value(
        bytes,
        a.bit_start + k * entry_width(a),
        entry_width(a) as nat,
        a.logical_min < 0 && a.report_count == 1,
    )
}

/// The list of buttons with `b` added at its end, unless it holds `b`
/// already: the buttons that are down are a set.
pub open spec fn with_pressed(pressed: Seq<u32>, b: u32) -> Seq<u32> {
    if pressed.contains(b) {
        pressed
    } else {
        pressed.push(b)
    }
}

/// The list of buttons with those added that the first `upto` entries of
/// an array field report: the entries from 1 to 255, in the order of the
/// entries.
pub open spec fn array_buttons(
    a: ArrayField,
    bytes: Seq<u8>,
    pressed: Seq<u32>,
    upto: nat,
) -> Seq<u32>
    decreases upto,
{
    if upto == 0 {
        pressed
    } else {
        let before = array_buttons(a, bytes, pressed, (upto - 1) as nat);
        let v = array_entry(a, bytes, upto - 1);
        if 1 <= v <= 255 {
            with_pressed(before, v as u32)
        } else {
            before
        }
    }
}

/// How many button fields of one control a list of fields holds.
pub open spec fn buttons_in(fields: Seq<Field>) -> nat
    decreases fields.len(),
{
    if fields.len() == 0 {
        0
    } else {
        let before = buttons_in(fields.drop_last());
        match fields.last() {
            Field::Variable(v) => if v.usage_page == BUTTON_PAGE {
                before + 1
            } else {
                before
            },
            _ => before,
        }
    }
}

/// The number of the button that follows `before` buttons: buttons are
/// numbered from 1.
pub open spec fn button_number(before: nat) -> u32 {
    if before < u32::MAX {
        (before + 1) as u32
    } else {
        u32::MAX
    }
}

/// The snapshot with the reading of one more axis field.
pub open spec fn with_axis(s: Snapshot, v: VariableField, bytes: Seq<u8>) -> Snapshot {
    let wide = s.is_16bit || v.bit_end - v.bit_start > 8;
    if readable(v.bit_start, v.bit_end) {
        let key = v.usage_id as u32;
        Snapshot {
            axis_values: s.axis_values.insert(key, clamp_u16(variable_value(v, bytes))),
            axis_bit_depths: s.axis_bit_depths.insert(
                key,
                effective_bits(
                    v.logical_min,
                    v.logical_max,
                    (v.bit_end - v.bit_start) as nat,
                ) as u8,
            ),
            axis_names: s.axis_names.insert(key, axis_label(v.usage_page, v.usage_id)),
            axis_ranges: s.axis_ranges.insert(key, (v.logical_min, v.logical_max)),
            is_16bit: wide,
            ..s
        }
    } else {
        Snapshot { is_16bit: wide, ..s }
    }
}

/// The snapshot with the reading of one more button field.
pub open spec fn with_button(
    s: Snapshot,
    v: VariableField,
    bytes: Seq<u8>,
    before: nat,
) -> Snapshot {
    if readable(v.bit_start, v.bit_end) && variable_value(v, bytes) != 0 {
        Snapshot { pressed_buttons: with_pressed(s.pressed_buttons, button_number(before)), ..s }
    } else {
        s
    }
}

/// The snapshot with the reading of one more array field.
pub open spec fn with_array(s: Snapshot, a: ArrayField, bytes: Seq<u8>) -> Snapshot {
    if array_readable(a) {
        Snapshot {
            pressed_buttons: array_buttons(a, bytes, s.pressed_buttons, a.report_count as nat),
            ..s
        }
    } else {
        s
    }
}

/// What a report says of a list of fields, taken in order.
///
/// A field of one control on the button page is a button, numbered by its
/// place among such fields, and down when its value is not zero. Any other
/// field of one control is an axis. An array field reports the usage ids
/// of the buttons that are down. No button is listed twice. Padding is
/// passed over, and so is a field of more than 32 bits.
pub open spec fn snapshot_after(fields: Seq<Field>, bytes: Seq<u8>) -> Snapshot
    decreases fields.len(),
{
    if fields.len() == 0 {
        empty_snapshot()
    } else {
        let s = snapshot_after(fields.drop_last(), bytes);
        match fields.last() {
            Field::Variable(v) => if v.usage_page == BUTTON_PAGE {
                with_button(s, v, bytes, buttons_in(fields.drop_last()))
            } else {
                with_axis(s, v, bytes)
            },
            Field::Array(a) => with_array(s, a, bytes),
            Field::Constant(_) => s,
        }
    }
}

/// Whether a report of `len` bytes holds every field of the list.
pub open spec fn fields_fit(fields: Seq<Field>, len: nat) -> bool {
    forall|i: int| 0 <= i < fields.len() ==> field_end(#[trigger] fields[i]) <= 8 * len
}

/// Whether some report from position `from` on has the given id.
pub open spec fn id_listed(reports: Seq<InputReportModel>, id: u8, i: int) -> bool {
    0 <= i < reports.len() && reports[i].report_id == Some(id)
}

/// The input report that a report with the given first byte belongs to.
///
/// Where the first input report has no id, the device sends one kind of
/// report and that is it. Else it is the first input report whose id is
/// the first byte.
pub open spec fn matching_report(reports: Seq<InputReportModel>, first_byte: u8) -> Option<int> {
    if reports.len() == 0 {
        None
    } else if reports[0].report_id is None {
        Some(0)
    } else if exists|i: int| id_listed(reports, first_byte, i) {
        let first = choose|i: int|
            id_listed(reports, first_byte, i) && forall|j: int|
                0 <= j < i ==> !id_listed(reports, first_byte, j);
        Some(first)
    } else {
        None
    }
}

/// Why a report cannot be decoded against a descriptor, if it cannot.
pub open spec fn report_fault(reports: Seq<InputReportModel>, bytes: Seq<u8>) -> Option<
    DecodeError,
> {
    if bytes.len() == 0 {
        Some(DecodeError::EmptyReport)
    } else {
        match matching_report(reports, bytes[0]) {
            None => Some(DecodeError::NoMatchingReport),
            Some(i) => if fields_fit(reports[i].fields, bytes.len()) {
                None
            } else {
                Some(DecodeError::ReportTooShort)
            },
        }
    }
}

/// What a report says of the device, where it can be decoded.
pub open spec fn decoded_snapshot(
    reports: Seq<InputReportModel>,
    bytes: Seq<u8>,
    timestamp_ms: u64,
) -> Snapshot {
    let i = matching_report(reports, bytes[0]).unwrap();
    Snapshot { timestamp_ms, ..snapshot_after(reports[i].fields, bytes) }
}

/// Whether a field is an axis field with the usage id that can be read.
pub open spec fn reads_axis(f: Field, usage: u32) -> bool {
    match f {
        Field::Variable(v) => v.usage_page != BUTTON_PAGE && v.usage_id == usage && readable(
            v.bit_start,
            v.bit_end,
        ),
        _ => false,
    }
}

/// The value that a snapshot holds for an axis is that of the last axis
/// field with the usage id of the axis: its value in the report, held
/// within 16 bits, with the logical range and the name of that field.
pub proof fn lemma_snapshot_holds_last_field(fields: Seq<Field>, bytes: Seq<u8>, i: int)
    requires
        0 <= i < fields.len(),
        fields[i] is Variable,
        reads_axis(fields[i], fields[i]->Variable_0.usage_id as u32),
        forall|j: int|
            i < j < fields.len() ==> !reads_axis(
                #[trigger] fields[j],
                fields[i]->Variable_0.usage_id as u32,
            ),
    ensures
        ({
            let v = fields[i]->Variable_0;
            let s = snapshot_after(fields, bytes);
            let key = v.usage_id as u32;
            &&& s.axis_values.contains_key(key)
            &&& s.axis_values[key] == clamp_u16(variable_value(v, bytes))
            &&& s.axis_ranges[key] == (v.logical_min, v.logical_max)
            &&& s.axis_names[key] == axis_label(v.usage_page, v.usage_id)
            &&& s.axis_bit_depths[key] == effective_bits(
                v.logical_min,
                v.logical_max,
                (v.bit_end - v.bit_start) as nat,
            ) as u8
        }),
    decreases fields.len(),
{
    let before = fields.drop_last();
    if i < fields.len() - 1 {
        assert(before[i] == fields[i]);
        assert forall|j: int| i < j < before.len() implies !reads_axis(
            #[trigger] before[j],
            fields[i]->Variable_0.usage_id as u32,
        ) by {
            assert(before[j] == fields[j]);
        }
        lemma_snapshot_holds_last_field(before, bytes, i);
        assert(!reads_axis(fields[fields.len() - 1], fields[i]->Variable_0.usage_id as u32));
    }
}

/// Adding a button keeps the buttons that are listed, and lists the
/// button; and it keeps a list without a button that occurs twice so.
pub proof fn lemma_with_pressed(pressed: Seq<u32>, b: u32)
    ensures
        with_pressed(pressed, b).contains(b),
        forall|c: u32| pressed.contains(c) ==> with_pressed(pressed, b).contains(c),
        pressed.no_duplicates() ==> with_pressed(pressed, b).no_duplicates(),
{
    if !pressed.contains(b) {
        let after = pressed.push(b);
        assert(after[pressed.len() as int] == b);
        assert forall|c: u32| pressed.contains(c) implies after.contains(c) by {
            let k = choose|k: int| 0 <= k < pressed.len() && pressed[k] == c;
            assert(after[k] == c);
        }
        if pressed.no_duplicates() {
            assert forall|i: int, j: int|
                0 <= i < after.len() && 0 <= j < after.len() && i != j implies after[i]
                != after[j] by {
                if i < pressed.len() && j < pressed.len() {
                    assert(pressed[i] != pressed[j]);
                } else if i < pressed.len() {
                    assert(pressed.contains(pressed[i]));
                } else {
                    assert(pressed.contains(pressed[j]));
                }
            }
        }
    }
}

/// An array field keeps the buttons that are listed, and keeps a list
/// without a button that occurs twice so.
pub proof fn lemma_array_buttons(a: ArrayField, bytes: Seq<u8>, pressed: Seq<u32>, upto: nat)
    ensures
        forall|c: u32| pressed.contains(c) ==> array_buttons(a, bytes, pressed, upto).contains(c),
        pressed.no_duplicates() ==> array_buttons(a, bytes, pressed, upto).no_duplicates(),
    decreases upto,
{
    if upto > 0 {
        lemma_array_buttons(a, bytes, pressed, (upto - 1) as nat);
        let before = array_buttons(a, bytes, pressed, (upto - 1) as nat);
        let v = array_entry(a, bytes, upto - 1);
        if 1 <= v <= 255 {
            lemma_with_pressed(before, v as u32);
        }
    }
}

/// The buttons that are down are a set: no button is listed twice in a
/// snapshot, whatever mix of button fields and array fields the report
/// has.
pub proof fn lemma_pressed_buttons_are_distinct(fields: Seq<Field>, bytes: Seq<u8>)
    ensures
        snapshot_after(fields, bytes).pressed_buttons.no_duplicates(),
    decreases fields.len(),
{
    if fields.len() > 0 {
        let before = fields.drop_last();
        lemma_pressed_buttons_are_distinct(before, bytes);
        let known = snapshot_after(before, bytes).pressed_buttons;
        match fields.last() {
            Field::Variable(v) => {
                lemma_with_pressed(known, button_number(buttons_in(before)));
            },
            Field::Array(a) => {
                lemma_array_buttons(a, bytes, known, a.report_count as nat);
            },
            Field::Constant(_) => {},
        }
    }
}

/// A button field of one control that reads other than zero puts its
/// number among the buttons that are down: the number of its place among
/// the button fields, counted from 1.
pub proof fn lemma_button_field_is_down(fields: Seq<Field>, bytes: Seq<u8>, i: int)
    requires
        0 <= i < fields.len(),
        fields[i] is Variable,
        fields[i]->Variable_0.usage_page == BUTTON_PAGE,
        readable(fields[i]->Variable_0.bit_start, fields[i]->Variable_0.bit_end),
        variable_value(fields[i]->Variable_0, bytes) != 0,
    ensures
        snapshot_after(fields, bytes).pressed_buttons.contains(
            button_number(buttons_in(fields.subrange(0, i))),
        ),
    decreases fields.len(),
{
    let before = fields.drop_last();
    let known = snapshot_after(before, bytes).pressed_buttons;
    if i < fields.len() - 1 {
        assert(before[i] == fields[i]);
        assert(before.subrange(0, i) =~= fields.subrange(0, i));
        lemma_button_field_is_down(before, bytes, i);
        match fields.last() {
            Field::Variable(v) => {
                lemma_with_pressed(known, button_number(buttons_in(before)));
            },
            Field::Array(a) => {
                lemma_array_buttons(a, bytes, known, a.report_count as nat);
            },
            Field::Constant(_) => {},
        }
    } else {
        assert(fields.subrange(0, i) =~= before);
        lemma_with_pressed(known, button_number(buttons_in(before)));
    }
}

/// Every axis of a snapshot is an axis field of the report it was read
/// from.
pub proof fn lemma_snapshot_axes_are_fields(fields: Seq<Field>, bytes: Seq<u8>, usage: u32)
    requires
        snapshot_after(fields, bytes).axis_values.contains_key(usage),
    ensures
        exists|i: int|
            0 <= i < axes_in(fields).len() && (#[trigger] axes_in(fields)[i]).usage_id == usage,
    decreases fields.len(),
{
    if fields.len() > 0 {
        let before = fields.drop_last();
        if snapshot_after(before, bytes).axis_values.contains_key(usage) {
            lemma_snapshot_axes_are_fields(before, bytes, usage);
            let i = choose|i: int|
                0 <= i < axes_in(before).len() && (#[trigger] axes_in(before)[i]).usage_id
                    == usage;
            assert(axes_in(fields)[i] == axes_in(before)[i]);
        } else {
            let last = axes_in(fields).len() - 1;
            assert(axes_in(fields)[last].usage_id == usage);
        }
    }
}

/// The axis fields of every input report are among the axes of the
/// device.
pub proof fn lemma_report_axes_are_device_axes(reports: Seq<InputReportModel>, r: int, i: int)
    requires
        0 <= r < reports.len(),
        0 <= i < axes_in(reports[r].fields).len(),
    ensures
        exists|k: int|
            0 <= k < axes_of(reports).len() && #[trigger] axes_of(reports)[k] == axes_in(
                reports[r].fields,
            )[i],
    decreases reports.len(),
{
    let before = reports.drop_last();
    if r == reports.len() - 1 {
        let k = axes_of(before).len() + i;
        assert(axes_of(reports)[k] == axes_in(reports[r].fields)[i]);
    } else {
        assert(before[r] == reports[r]);
        lemma_report_axes_are_device_axes(before, r, i);
        let k = choose|k: int|
            0 <= k < axes_of(before).len() && #[trigger] axes_of(before)[k] == axes_in(
                reports[r].fields,
            )[i];
        assert(axes_of(reports)[k] == axes_of(before)[k]);
    }
}

/// The input report that matches a report is one of the input reports.
pub proof fn lemma_matching_report_is_listed(reports: Seq<InputReportModel>, first_byte: u8)
    requires
        matching_report(reports, first_byte) is Some,
    ensures
        0 <= matching_report(reports, first_byte).unwrap() < reports.len(),
{
    if reports.len() > 0 && reports[0].report_id is Some {
        let witness = choose|i: int| id_listed(reports, first_byte, i);
        lemma_first_listed_exists(reports, first_byte, witness);
    }
}

/// Where some input report has the id, a first one has it.
proof fn lemma_first_listed_exists(reports: Seq<InputReportModel>, id: u8, i: int)
    requires
        id_listed(reports, id, i),
    ensures
        exists|k: int|
            id_listed(reports, id, k) && forall|j: int| 0 <= j < k ==> !id_listed(reports, id, j),
    decreases i,
{
    if exists|j: int| 0 <= j < i && id_listed(reports, id, j) {
        lemma_first_listed_exists(
            reports,
            id,
            choose|j: int| 0 <= j < i && id_listed(reports, id, j),
        );
    } else {
        assert(id_listed(reports, id, i) && forall|j: int|
            0 <= j < i ==> !id_listed(reports, id, j));
    }
}

/// The axes of a snapshot are axes that the descriptor of the device
/// declares: every usage id for which a decoded report holds a value is
/// the usage id of an axis field of the descriptor.
pub proof fn lemma_snapshot_axes_are_declared(
    reports: Seq<InputReportModel>,
    bytes: Seq<u8>,
    timestamp_ms: u64,
    usage: u32,
)
    requires
        report_fault(reports, bytes) is None,
        decoded_snapshot(reports, bytes, timestamp_ms).axis_values.contains_key(usage),
    ensures
        exists|k: int|
            0 <= k < axes_of(reports).len() && (#[trigger] axes_of(reports)[k]).usage_id == usage,
{
    lemma_matching_report_is_listed(reports, bytes[0]);
    let r = matching_report(reports, bytes[0]).unwrap();
    lemma_snapshot_axes_are_fields(reports[r].fields, bytes, usage);
    let i = choose|i: int|
        0 <= i < axes_in(reports[r].fields).len() && (#[trigger] axes_in(
            reports[r].fields,
        )[i]).usage_id == usage;
    lemma_report_axes_are_device_axes(reports, r, i);
    let k = choose|k: int|
        0 <= k < axes_of(reports).len() && #[trigger] axes_of(reports)[k] == axes_in(
            reports[r].fields,
        )[i];
    assert(axes_of(reports)[k].usage_id == usage);
}

/// Finds the input report that a report with the given first byte belongs
/// to.
pub fn find_matching_report(d: &DecodedDescriptor, first_byte: u8) -> (found: Option<usize>)
    ensures
        match found {
            Some(i) => matching_report(d@, first_byte) == Some(i as int) && i < d.reports.len(),
            None => matching_report(d@, first_byte) is None,
        },
{
    if d.reports.len() == 0 {
        return None;
    }
    if d.reports[0].report_id.is_none() {
        return Some(0);
    }
    let mut i: usize = 0;
    while i < d.reports.len()
        invariant
            i <= d.reports.len(),
            d.reports.len() > 0,
            d@[0].report_id is Some,
            forall|j: int| 0 <= j < i ==> !id_listed(d@, first_byte, j),
        decreases d.reports.len() - i,
    {
        let hit = match d.reports[i].report_id {
            Some(id) => id == first_byte,
            None => false,
        };
        if hit {
            assert(id_listed(d@, first_byte, i as int));
            let ghost first = choose|k: int|
                id_listed(d@, first_byte, k) && forall|j: int|
                    0 <= j < k ==> !id_listed(d@, first_byte, j);
            assert(first == i) by {
                if first < i {
                    assert(!id_listed(d@, first_byte, first));
                }
                if first > i {
                    assert(!id_listed(d@, first_byte, i as int));
                }
            }
            return Some(i);
        }
        i += 1;
    }
    assert(!exists|k: int| id_listed(d@, first_byte, k));
    None
}

/// Whether a report of `len` bytes holds every field of an input report.
pub fn report_holds_fields(report: &InputReport, len: usize) -> (fits: bool)
    ensures
        fits == fields_fit(report@.fields, len as nat),
{
    let bits: u128 = 8 * (len as u128);
    let mut i: usize = 0;
    while i < report.fields.len()
        invariant
            i <= report.fields.len(),
            bits == 8 * len,
            forall|j: int| 0 <= j < i ==> field_end(#[trigger] report.fields@[j]) <= 8 * len,
        decreases report.fields.len() - i,
    {
        let end: usize = match report.fields[i] {
            Field::Variable(v) => v.bit_end,
            Field::Array(a) => a.bit_end,
            Field::Constant(c) => c.bit_end,
        };
        if end as u128 > bits {
            assert(field_end(report.fields@[i as int]) > 8 * len);
            return false;
        }
        i += 1;
    }
    true
}

/// The name under which an axis is shown.
pub fn format_axis_label(usage_page: u16, usage_id: u16) -> (label: String)
    ensures
        label@ == axis_label(usage_page, usage_id),
{
    match lookup_usage_name(usage_page, usage_id) {
        Some(name) => name,
        None => {
            let mut label = String::from_str("Usage ");
            push_hex4(&mut label, usage_page, false);
            label.append(":");
            push_hex4(&mut label, usage_id, false);
            label
        },
    }
}

fn clamp_to_u16(v: i32) -> (r: u16)
    ensures
        r == clamp_u16(v as int),
{
    if v < 0 {
        0
    } else if v > 65535 {
        65535
    } else {
        v as u16
    }
}

/// Lists a button as down, unless it is listed already.
fn press(pressed: &mut Vec<u32>, b: u32)
    ensures
        final(pressed)@ == with_pressed(old(pressed)@, b),
{
    if !holds_button(pressed, b) {
        pressed.push(b);
    }
}

/// Reads the buttons that an array field reports and lists them in
/// `pressed`.
fn read_array_buttons(a: &ArrayField, bytes: &[u8], pressed: &mut Vec<u32>)
    requires
        array_readable(*a),
        a.bit_end <= 8 * bytes.len(),
    ensures
        final(pressed)@ == array_buttons(*a, bytes@, old(pressed)@, a.report_count as nat),
{
    let per: usize = (a.bit_end - a.bit_start) / a.report_count;
    let signed = a.logical_min < 0 && a.report_count == 1;
    let mut k: usize = 0;
    while k < a.report_count
        invariant
            k <= a.report_count,
            array_readable(*a),
            a.bit_end <= 8 * bytes.len(),
            per == entry_width(*a),
            signed == (a.logical_min < 0 && a.report_count == 1),
            pressed@ == array_buttons(*a, bytes@, old(pressed)@, k as nat),
        decreases a.report_count - k,
    {
        assert(a.bit_start + k * per + per <= a.bit_end) by (nonlinear_arith)
            requires
                k < a.report_count,
                per == (a.bit_end - a.bit_start) / (a.report_count as int),
                a.bit_start <= a.bit_end,
                a.report_count > 0,
        ;
        assert(0 <= k * per) by (nonlinear_arith)
            requires
                0 <= k,
                0 <= per,
        ;
        let v = read_field(bytes, a.bit_start + k * per, per, signed);
        if 1 <= v && v <= 255 {
            press(pressed, v as u32);
        }
        k += 1;
    }
}

/// Decodes a report against the field model of its device, and stamps the
/// snapshot with the given time.
///
/// It fails where the report is empty, where no input report of the
/// descriptor matches its first byte, and where it is too short for the
/// fields of the input report that matches.
pub fn decode_report(d: &DecodedDescriptor, report: &[u8], timestamp_ms: u64) -> (r: Result<
    HidFullReport,
    DecodeError,
>)
    ensures
        match r {
            Ok(snapshot) => report_fault(d@, report@) is None && snapshot@ == decoded_snapshot(
                d@,
                report@,
                timestamp_ms,
            ) && snapshot@.pressed_buttons.no_duplicates(),
            Err(e) => report_fault(d@, report@) == Some(e),
        },
{
    broadcast use vstd::std_specs::hash::group_hash_axioms;

    if report.len() == 0 {
        return Err(DecodeError::EmptyReport);
    }
    let index = match find_matching_report(d, report[0]) {
        None => {
            return Err(DecodeError::NoMatchingReport);
        },
        Some(index) => index,
    };
    let layout = &d.reports[index];
    if !report_holds_fields(layout, report.len()) {
        return Err(DecodeError::ReportTooShort);
    }
    let mut axis_values: HashMap<u32, u16> = HashMap::new();
    let mut axis_bit_depths: HashMap<u32, u8> = HashMap::new();
    let mut axis_names: HashMap<u32, String> = HashMap::new();
    let mut axis_ranges: HashMap<u32, (i32, i32)> = HashMap::new();
    let mut pressed_buttons: Vec<u32> = Vec::new();
    let mut is_16bit = false;
    let mut next_button: u32 = 1;
    let ghost fields = layout.fields@;
    let mut i: usize = 0;
    while i < layout.fields.len()
        invariant
            i <= layout.fields.len(),
            fields == layout.fields@,
            fields_fit(fields, report.len() as nat),
            next_button == button_number(buttons_in(fields.subrange(0, i as int))),
            snapshot_of(
                axis_values@,
                axis_bit_depths@,
                axis_names@,
                axis_ranges@,
                pressed_buttons@,
                0,
                is_16bit,
            ) == snapshot_after(fields.subrange(0, i as int), report@),
        decreases layout.fields.len() - i,
    {
        let ghost before = fields.subrange(0, i as int);
        let ghost s = snapshot_after(before, report@);
        proof {
            assert(fields.subrange(0, i + 1).drop_last() =~= before);
            assert(fields.subrange(0, i + 1).last() == fields[i as int]);
            assert(field_end(fields[i as int]) <= 8 * report.len());
        }
        match layout.fields[i] {
            Field::Variable(v) => {
                let fits = v.bit_start < v.bit_end && v.bit_end - v.bit_start <= MAX_FIELD_WIDTH;
                if v.usage_page == BUTTON_PAGE {
                    if fits {
                        let value = read_field(
                            report,
                            v.bit_start,
                            v.bit_end - v.bit_start,
                            v.logical_min < 0,
                        );
                        if value != 0 {
                            press(&mut pressed_buttons, next_button);
                        }
                    }
                    if next_button < u32::MAX {
                        next_button += 1;
                    }
                } else {
                    if v.bit_end > v.bit_start && v.bit_end - v.bit_start > 8 {
                        is_16bit = true;
                    }
                    if fits {
                        let width = v.bit_end - v.bit_start;
                        let value = read_field(report, v.bit_start, width, v.logical_min < 0);
                        let key = v.usage_id as u32;
                        let name = format_axis_label(v.usage_page, v.usage_id);
                        let ghost names_before = axis_names@;
                        axis_values.insert(key, clamp_to_u16(value));
                        axis_bit_depths.insert(
                            key,
                            infer_bit_depth(v.logical_min, v.logical_max, width as u8),
                        );
                        axis_names.insert(key, name);
                        axis_ranges.insert(key, (v.logical_min, v.logical_max));
                        assert(name_texts(axis_names@) =~= name_texts(names_before).insert(
                            key,
                            axis_label(v.usage_page, v.usage_id),
                        ));
                    }
                }
            },
            Field::Array(a) => {
                if a.report_count > 0 && a.bit_start <= a.bit_end {
                    let per = (a.bit_end - a.bit_start) / a.report_count;
                    if 1 <= per && per <= MAX_FIELD_WIDTH {
                        read_array_buttons(&a, report, &mut pressed_buttons);
                    }
                }
            },
            Field::Constant(_) => {},
        }
        i += 1;
        assert(snapshot_of(
            axis_values@,
            axis_bit_depths@,
            axis_names@,
            axis_ranges@,
            pressed_buttons@,
            0,
            is_16bit,
        ) =~= snapshot_after(fields.subrange(0, i as int), report@));
    }
    assert(fields.subrange(0, i as int) =~= fields);
    let snapshot = HidFullReport {
        axis_values,
        axis_bit_depths,
        axis_names,
        axis_ranges,
        pressed_buttons,
        timestamp_ms,
        is_16bit,
    };
    assert(snapshot@ =~= decoded_snapshot(d@, report@, timestamp_ms));
    proof {
        lemma_pressed_buttons_are_distinct(fields, report@);
    }
    Ok(snapshot)
}

} // verus!
