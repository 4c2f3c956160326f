//! The field model of a HID report descriptor.
//!
//! The descriptor bytes are parsed by the `hidreport` crate. Before they
//! are handed to it they are scanned item by item, and a descriptor on
//! which that parser would stop the process is turned away. What the
//! parser returns is copied into plain values, on which the rest of the
//! library works.

use vstd::prelude::*;

verus! {

/// The usage page whose fields are buttons, whatever kind they declare.
pub const BUTTON_PAGE: u16 = 0x09;

/// The usage id of the hat switch.
pub const HAT_SWITCH_USAGE: u32 = 0x39;

/// The longest descriptor that is looked at.
pub const MAX_DESCRIPTOR_LEN: usize = 4096;

/// A field that holds one control: an axis, or one button.
#[derive(Clone, Copy, Debug, PartialEq, Eq, Structural)]
pub struct VariableField {
    pub usage_page: u16,
    pub usage_id: u16,
    /// The first bit of the field in the report.
    pub bit_start: usize,
    /// The bit after the last bit of the field.
    pub bit_end: usize,
    pub logical_min: i32,
    pub logical_max: i32,
}

/// A field that holds the usage ids of the buttons that are down.
#[derive(Clone, Copy, Debug, PartialEq, Eq, Structural)]
pub struct ArrayField {
    pub bit_start: usize,
    pub bit_end: usize,
    /// How many usage ids the field holds at once.
    pub report_count: usize,
    pub logical_min: i32,
    pub logical_max: i32,
}

/// Padding.
#[derive(Clone, Copy, Debug, PartialEq, Eq, Structural)]
pub struct ConstantField {
    pub bit_start: usize,
    pub bit_end: usize,
}

/// One field of an input report.
#[derive(Clone, Copy, Debug, PartialEq, Eq, Structural)]
pub enum Field {
    Variable(VariableField),
    Array(ArrayField),
    Constant(ConstantField),
}

/// One input report: its id, where the device uses ids, and its fields in
/// the order in which the descriptor declares them.
#[derive(Clone, Debug)]
pub struct InputReport {
    pub report_id: Option<u8>,
    pub fields: Vec<Field>,
}

/// What an `InputReport` holds, as mathematical values.
pub struct InputReportModel {
    pub report_id: Option<u8>,
    pub fields: Seq<Field>,
}

impl View for InputReport {
    type V = InputReportModel;

    open spec fn view(&self) -> InputReportModel {
        InputReportModel { report_id: self.report_id, fields: self.fields@ }
    }
}

/// The input reports of a device, in the order of the descriptor.
#[derive(Clone, Debug)]
pub struct DecodedDescriptor {
    pub reports: Vec<InputReport>,
}

impl View for DecodedDescriptor {
    type V = Seq<InputReportModel>;

    open spec fn view(&self) -> Seq<InputReportModel> {
        Seq::new(self.reports@.len(), |i: int| self.reports@[i]@)
    }
}

/// Why a descriptor or a report could not be decoded.
#[derive(Clone, Copy, Debug, PartialEq, Eq, Structural)]
pub enum DecodeError {
    /// The descriptor cannot be handed to the parser: it is longer than
    /// 4096 bytes, sets a report size or count above 65535, declares a
    /// range of more than 65536 usages, or uses a usage that names no
    /// page while no usage page is set.
    UnsupportedDescriptor,
    /// The parser refused the descriptor.
    MalformedDescriptor,
    /// The report holds no byte.
    EmptyReport,
    /// No input report of the descriptor has the id that the report starts
    /// with, or the descriptor declares no input report.
    NoMatchingReport,
    /// The report is shorter than the fields that the descriptor declares.
    ReportTooShort,
}

/// A failure to decode: why, and what the parser said where it was the
/// parser that refused the descriptor.
#[derive(Clone, Debug)]
pub struct DecodeFailure {
    pub error: DecodeError,
    pub detail: String,
}

/// What an error says. `detail` stands for the words of the parser.
pub open spec fn message_text(error: DecodeError, detail: Seq<char>) -> Seq<char> {
    match error {
        DecodeError::UnsupportedDescriptor => "Failed to parse report descriptor: unsupported layout"@,
        DecodeError::MalformedDescriptor => "Failed to parse report descriptor: "@ + detail,
        _ => "No matching input report found"@,
    }
}

/// What an error says of a descriptor: where the parser refused the
/// descriptor, its words follow the colon.
pub open spec fn failure_text(error: DecodeError, descriptor: Seq<u8>) -> Seq<char> {
    message_text(error, parser_words(descriptor))
}

/// What an error says.
pub fn error_message(error: DecodeError, detail: &str) -> (text: String)
    ensures
        text@ == message_text(error, detail@),
{
    match error {
        DecodeError::UnsupportedDescriptor => String::from_str(
            "Failed to parse report descriptor: unsupported layout",
        ),
        DecodeError::MalformedDescriptor => {
            let mut text = String::from_str("Failed to parse report descriptor: ");
            text.append(detail);
            text
        },
        _ => String::from_str("No matching input report found"),
    }
}

/// How many bytes of data follow the first byte of an item.
pub open spec fn item_data_len(prefix: u8) -> int {
    if prefix % 4 == 3 {
        4
    } else {
        (prefix % 4) as int
    }
}

/// The number that the data of the item at `at` spells, least significant
/// byte first; 0 for an item without data.
pub open spec fn item_value(bytes: Seq<u8>, at: int) -> int {
    let len = item_data_len(bytes[at]);
    if len == 0 {
        0
    } else if len == 1 {
        bytes[at + 1] as int
    } else if len == 2 {
        bytes[at + 1] + 256 * bytes[at + 2]
    } else {
        bytes[at + 1] + 256 * bytes[at + 2] + 65536 * bytes[at + 3] + 16777216 * bytes[at + 4]
    }
}

/// The tag and the kind of an item: its first byte without the size.
pub open spec fn item_tag(prefix: u8) -> int {
    prefix as int / 4
}

/// The tag of the item that sets the usage page.
pub const TAG_USAGE_PAGE: u8 = 0x01;

/// The tag of the item that names a usage.
pub const TAG_USAGE: u8 = 0x02;

/// The tag of the item that sets the first usage of a range.
pub const TAG_USAGE_MINIMUM: u8 = 0x06;

/// The tag of the item that sets the last usage of a range.
pub const TAG_USAGE_MAXIMUM: u8 = 0x0a;

/// The tag of the item that sets the report size.
pub const TAG_REPORT_SIZE: u8 = 0x1d;

/// The tag of the item that sets the report count.
pub const TAG_REPORT_COUNT: u8 = 0x25;

/// The tag of the item that saves the state.
pub const TAG_PUSH: u8 = 0x29;

/// The tag of the item that restores the state.
pub const TAG_POP: u8 = 0x2d;

/// The tag of an input item.
pub const TAG_INPUT: u8 = 0x20;

/// The tag of an output item.
pub const TAG_OUTPUT: u8 = 0x24;

/// The tag of a feature item.
pub const TAG_FEATURE: u8 = 0x2c;

/// The tag of the item that opens a collection.
pub const TAG_COLLECTION: u8 = 0x28;

/// The tag of the item that closes a collection.
pub const TAG_END_COLLECTION: u8 = 0x30;

/// The largest report size, report count and span of a usage range that
/// are handed to the parser.
pub const MAX_ITEM_VALUE: u32 = 0xFFFF;

/// What the scan remembers of the state of the parser at one level of
/// saved states.
#[derive(Clone, Copy, Debug, PartialEq, Eq)]
pub struct ScanFrame {
    /// A usage page is set.
    pub page_set: bool,
    /// A usage that names no page waits for the next data item or
    /// collection.
    pub pending_usage: bool,
    /// The first usage of the range that waits, if one is set.
    pub usage_min: Option<u32>,
    /// The last usage of the range that waits, if one is set.
    pub usage_max: Option<u32>,
}

/// The state at the start of a descriptor: nothing is set.
pub open spec fn first_frame() -> ScanFrame {
    ScanFrame { page_set: false, pending_usage: false, usage_min: None, usage_max: None }
}

/// The state after a data item or a collection: the usages that waited
/// are used up.
pub open spec fn frame_after_use(f: ScanFrame) -> ScanFrame {
    ScanFrame { page_set: f.page_set, pending_usage: false, usage_min: None, usage_max: None }
}

/// Whether the parser cannot resolve the usages that wait: one of them
/// names no page and no usage page is set, or they are a range of more
/// than 65536 usages.
pub open spec fn frame_unresolvable(f: ScanFrame) -> bool {
    ||| f.pending_usage && !f.page_set
    ||| f.usage_min is Some && f.usage_max is Some && f.usage_max.unwrap() - f.usage_min.unwrap()
        > MAX_ITEM_VALUE
}

/// The state after the item at `at`, for the items that only set
/// something.
pub open spec fn frame_after_item(f: ScanFrame, bytes: Seq<u8>, at: int) -> ScanFrame {
    let tag = item_tag(bytes[at]);
    let len = item_data_len(bytes[at]);
    if tag == TAG_USAGE_PAGE {
        ScanFrame { page_set: true, ..f }
    } else if tag == TAG_USAGE && (len == 1 || len == 2) {
        ScanFrame { pending_usage: true, ..f }
    } else if tag == TAG_USAGE_MINIMUM {
        ScanFrame { usage_min: Some(item_value(bytes, at) as u32), ..f }
    } else if tag == TAG_USAGE_MAXIMUM {
        ScanFrame { usage_max: Some(item_value(bytes, at) as u32), ..f }
    } else if tag == TAG_END_COLLECTION {
        frame_after_use(f)
    } else {
        f
    }
}

/// Whether the item resolves the usages that wait: a data item or the
/// opening of a collection.
pub open spec fn item_resolves_usages(prefix: u8) -> bool {
    let tag = item_tag(prefix);
    tag == TAG_INPUT || tag == TAG_OUTPUT || tag == TAG_FEATURE || tag == TAG_COLLECTION
}

/// Whether the item sets a report size or count above 65535.
pub open spec fn item_too_large(bytes: Seq<u8>, at: int) -> bool {
    let tag = item_tag(bytes[at]);
    (tag == TAG_REPORT_SIZE || tag == TAG_REPORT_COUNT) && item_value(bytes, at) > MAX_ITEM_VALUE
}

/// The saved states with `f` in the place of the one on top.
pub open spec fn with_top(frames: Seq<ScanFrame>, f: ScanFrame) -> Seq<ScanFrame> {
    frames.update(frames.len() - 1, f)
}

/// Whether the items from `at` on can be handed to the parser, where
/// `frames` are the saved states, the current one last.
///
/// The scan follows the state of the parser as far as it decides whether
/// the parser can go on: the usage page, the usages that wait, and the
/// saving and restoring of both. An item that is cut off ends the scan,
/// and so does a restoring without a saved state: the parser refuses such
/// bytes before it resolves another usage.
pub open spec fn items_supported(bytes: Seq<u8>, at: int, frames: Seq<ScanFrame>) -> bool
    decreases bytes.len() - at,
{
    if at < 0 || at >= bytes.len() || frames.len() == 0 {
        true
    } else {
        let prefix = bytes[at];
        let next = at + 1 + item_data_len(prefix);
        let top = frames.last();
        if next > bytes.len() {
            true
        } else if item_tag(prefix) == TAG_PUSH {
            items_supported(bytes, next, frames.push(top))
        } else if item_tag(prefix) == TAG_POP {
            if frames.len() == 1 {
                true
            } else {
                items_supported(bytes, next, frames.drop_last())
            }
        } else if item_resolves_usages(prefix) {
            if frame_unresolvable(top) {
                false
            } else {
                items_supported(bytes, next, with_top(frames, frame_after_use(top)))
            }
        } else if item_too_large(bytes, at) {
            false
        } else {
            items_supported(bytes, next, with_top(frames, frame_after_item(top, bytes, at)))
        }
    }
}

/// Whether a descriptor can be handed to the parser. It is at most 4096
/// bytes long and sets no report size or count above 65535. And at every
/// data item and every opening of a collection the usages that wait can
/// be resolved: a usage page is set if one of them names no page, and a
/// range holds at most 65536 usages.
pub open spec fn descriptor_supported(bytes: Seq<u8>) -> bool {
    bytes.len() <= MAX_DESCRIPTOR_LEN && items_supported(bytes, 0, seq![first_frame()])
}

fn read_item_value(bytes: &[u8], at: usize, data_len: usize) -> (value: u32)
    requires
        at + 1 + data_len <= bytes.len(),
        data_len == item_data_len(bytes@[at as int]),
    ensures
        value == item_value(bytes@, at as int),
{
    if data_len == 0 {
        0
    } else if data_len == 1 {
        bytes[at + 1] as u32
    } else if data_len == 2 {
        bytes[at + 1] as u32 + 256 * (bytes[at + 2] as u32)
    } else {
        let low: u64 = bytes[at + 1] as u64 + 256 * (bytes[at + 2] as u64);
        let high: u64 = 65536 * (bytes[at + 3] as u64) + 16777216 * (bytes[at + 4] as u64);
        (low + high) as u32
    }
}

fn is_frame_unresolvable(f: &ScanFrame) -> (bad: bool)
    ensures
        bad == frame_unresolvable(*f),
{
    if f.pending_usage && !f.page_set {
        return true;
    }
    match (f.usage_min, f.usage_max) {
        (Some(low), Some(high)) => high > low && high - low > MAX_ITEM_VALUE,
        _ => false,
    }
}

/// Scans the items of a descriptor and says whether it can be handed to
/// the parser.
pub fn is_descriptor_supported(bytes: &[u8]) -> (ok: bool)
    ensures
        ok == descriptor_supported(bytes@),
{
    if bytes.len() > MAX_DESCRIPTOR_LEN {
        return false;
    }
    let mut frames: Vec<ScanFrame> = Vec::new();
    frames.push(
        ScanFrame { page_set: false, pending_usage: false, usage_min: None, usage_max: None },
    );
    assert(frames@ =~= seq![first_frame()]);
    let mut at: usize = 0;
    while at < bytes.len()
        invariant
            bytes.len() <= MAX_DESCRIPTOR_LEN,
            frames@.len() > 0,
            items_supported(bytes@, 0, seq![first_frame()]) == items_supported(
                bytes@,
                at as int,
                frames@,
            ),
        decreases bytes.len() - at,
    {
        let prefix = bytes[at];
        let code = prefix % 4;
        let data_len: usize = if code == 3 {
            4
        } else {
            code as usize
        };
        let next = at + 1 + data_len;
        if next > bytes.len() {
            return true;
        }
        let tag = prefix / 4;
        let last = frames.len() - 1;
        let top = frames[last];
        if tag == TAG_PUSH {
            frames.push(top);
        } else if tag == TAG_POP {
            if frames.len() == 1 {
                return true;
            }
            frames.pop();
        } else if tag == TAG_INPUT || tag == TAG_OUTPUT || tag == TAG_FEATURE || tag
            == TAG_COLLECTION {
            if is_frame_unresolvable(&top) {
                return false;
            }
            frames.set(
                last,
                ScanFrame {
                    page_set: top.page_set,
                    pending_usage: false,
                    usage_min: None,
                    usage_max: None,
                },
            );
        } else {
            let value = read_item_value(bytes, at, data_len);
            if (tag == TAG_REPORT_SIZE || tag == TAG_REPORT_COUNT) && value > MAX_ITEM_VALUE {
                return false;
            }
            let after = if tag == TAG_USAGE_PAGE {
                ScanFrame { page_set: true, ..top }
            } else if tag == TAG_USAGE && (data_len == 1 || data_len == 2) {
                ScanFrame { pending_usage: true, ..top }
            } else if tag == TAG_USAGE_MINIMUM {
                ScanFrame { usage_min: Some(value), ..top }
            } else if tag == TAG_USAGE_MAXIMUM {
                ScanFrame { usage_max: Some(value), ..top }
            } else if tag == TAG_END_COLLECTION {
                ScanFrame {
                    page_set: top.page_set,
                    pending_usage: false,
                    usage_min: None,
                    usage_max: None,
                }
            } else {
                top
            };
            frames.set(last, after);
        }
        at = next;
    }
    true
}

/// What the `hidreport` parser makes of descriptor bytes: `None` where it
/// refuses them, else the input reports that it found, each with its id
/// and its fields as plain values.
pub uninterp spec fn parsed_input_reports(bytes: Seq<u8>) -> Option<Seq<InputReportModel>>;

/// What the `hidreport` parser says of descriptor bytes that it refuses:
/// its error, written out by the `Debug` impl of the error.
pub uninterp spec fn parser_words(bytes: Seq<u8>) -> Seq<char>;

/// The input reports that a parsed descriptor holds.
pub uninterp spec fn input_reports_of(d: hidreport::ReportDescriptor) -> Seq<InputReportModel>;

/// `hidreport::ReportDescriptor`: a parsed descriptor, carried as it is.
#[verifier::external_type_specification]
#[verifier::external_body]
pub struct ExReportDescriptor(hidreport::ReportDescriptor);

/// Calls `hidreport::ReportDescriptor::try_from` on the bytes, and writes
/// the error out with its `Debug` impl where the parser refuses them. The
/// contract names what the parser returns and what it says: the same
/// bytes always give the same answer.
///
/// The descriptors that `requires` leaves out are those on which the
/// parser can stop the process or take memory without bound. It expects
/// the usage page to be set when it resolves a usage that names none,
/// which a data item or a collection asks of it. It lists every usage of
/// a usage range. And it numbers the fields of a data item by adding the
/// bit offset of the field, which the report size and count decide, to
/// eight times the position of the item in the descriptor, within 32
/// bits.
#[verifier::external_body]
pub(crate) fn parse_report_descriptor(bytes: &[u8]) -> (r: Result<
    hidreport::ReportDescriptor,
    String,
>)
    requires
        descriptor_supported(bytes@),
    ensures
        match r {
            Ok(d) => parsed_input_reports(bytes@) == Some(input_reports_of(d)),
            Err(words) => parsed_input_reports(bytes@) is None && words@ == parser_words(bytes@),
        },
{
    hidreport::ReportDescriptor::try_from(bytes).map_err(|e| format!("{:?}", e))
}

/// The length of `ReportDescriptor::input_reports`.
#[verifier::external_body]
pub(crate) fn input_report_count(d: &hidreport::ReportDescriptor) -> (n: usize)
    ensures
        n == input_reports_of(*d).len(),
{
    d.input_reports().len()
}

/// `Report::report_id` of one input report, as a plain number.
#[verifier::external_body]
pub(crate) fn input_report_id(d: &hidreport::ReportDescriptor, r: usize) -> (id: Option<u8>)
    requires
        r < input_reports_of(*d).len(),
    ensures
        id == input_reports_of(*d)[r as int].report_id,
{
    hidreport::Report::report_id(&d.input_reports()[r]).map(u8::from)
}

/// The length of `Report::fields` of one input report.
#[verifier::external_body]
pub(crate) fn input_field_count(d: &hidreport::ReportDescriptor, r: usize) -> (n: usize)
    requires
        r < input_reports_of(*d).len(),
    ensures
        n == input_reports_of(*d)[r as int].fields.len(),
{
    hidreport::Report::fields(&d.input_reports()[r]).len()
}

/// The field of one control among the fields of an input report.
pub open spec fn as_variable(f: Field) -> Option<VariableField> {
    match f {
        Field::Variable(v) => Some(v),
        _ => None,
    }
}

/// The array field among the fields of an input report.
pub open spec fn as_array(f: Field) -> Option<ArrayField> {
    match f {
        Field::Array(a) => Some(a),
        _ => None,
    }
}

/// One entry of `Report::fields` where it is a `Field::Variable`, with
/// its usage, bit range and logical range copied into the library's own
/// type.
#[verifier::external_body]
pub(crate) fn input_variable_field(d: &hidreport::ReportDescriptor, r: usize, f: usize) -> (field:
    Option<VariableField>)
    requires
        r < input_reports_of(*d).len(),
        f < input_reports_of(*d)[r as int].fields.len(),
    ensures
        field == as_variable(input_reports_of(*d)[r as int].fields[f as int]),
{
    match &hidreport::Report::fields(&d.input_reports()[r])[f] {
        hidreport::Field::Variable(v) => Some(VariableField {
            usage_page: v.usage.usage_page.into(),
            usage_id: v.usage.usage_id.into(),
            bit_start: v.bits.start,
            bit_end: v.bits.end,
            logical_min: v.logical_minimum.into(),
            logical_max: v.logical_maximum.into(),
        }),
        _ => None,
    }
}

/// One entry of `Report::fields` where it is a `Field::Array`, with its
/// bit range, report count and logical range copied into the library's
/// own type.
#[verifier::external_body]
pub(crate) fn input_array_field(d: &hidreport::ReportDescriptor, r: usize, f: usize) -> (field:
    Option<ArrayField>)
    requires
        r < input_reports_of(*d).len(),
        f < input_reports_of(*d)[r as int].fields.len(),
    ensures
        field == as_array(input_reports_of(*d)[r as int].fields[f as int]),
{
    match &hidreport::Report::fields(&d.input_reports()[r])[f] {
        hidreport::Field::Array(a) => Some(ArrayField {
            bit_start: a.bits.start,
            bit_end: a.bits.end,
            report_count: a.report_count.into(),
            logical_min: a.logical_minimum.into(),
            logical_max: a.logical_maximum.into(),
        }),
        _ => None,
    }
}

/// The bit range of one entry of `Report::fields`, from `Field::bits`.
#[verifier::external_body]
pub(crate) fn input_field_bits(d: &hidreport::ReportDescriptor, r: usize, f: usize) -> (bits:
    ConstantField)
    requires
        r < input_reports_of(*d).len(),
        f < input_reports_of(*d)[r as int].fields.len(),
    ensures
        bits.bit_start == field_start(input_reports_of(*d)[r as int].fields[f as int]),
        bits.bit_end == field_end(input_reports_of(*d)[r as int].fields[f as int]),
{
    let bits = hidreport::Report::fields(&d.input_reports()[r])[f].bits();
    ConstantField { bit_start: bits.start, bit_end: bits.end }
}

/// The first bit of a field.
pub open spec fn field_start(f: Field) -> usize {
    match f {
        Field::Variable(v) => v.bit_start,
        Field::Array(a) => a.bit_start,
        Field::Constant(c) => c.bit_start,
    }
}

/// The bit after the last bit of a field.
pub open spec fn field_end(f: Field) -> usize {
    match f {
        Field::Variable(v) => v.bit_end,
        Field::Array(a) => a.bit_end,
        Field::Constant(c) => c.bit_end,
    }
}

/// One field of an input report of a parsed descriptor.
fn input_field(d: &hidreport::ReportDescriptor, r: usize, f: usize) -> (field: Field)
    requires
        r < input_reports_of(*d).len(),
        f < input_reports_of(*d)[r as int].fields.len(),
    ensures
        field == input_reports_of(*d)[r as int].fields[f as int],
{
    match input_variable_field(d, r, f) {
        Some(v) => Field::Variable(v),
        None => match input_array_field(d, r, f) {
            Some(a) => Field::Array(a),
            None => Field::Constant(input_field_bits(d, r, f)),
        },
    }
}

/// Why a descriptor cannot be decoded, if it cannot.
pub open spec fn descriptor_fault(bytes: Seq<u8>) -> Option<DecodeError> {
    if !descriptor_supported(bytes) {
        Some(DecodeError::UnsupportedDescriptor)
    } else if parsed_input_reports(bytes) is None {
        Some(DecodeError::MalformedDescriptor)
    } else {
        None
    }
}

/// Parses a descriptor and copies its input reports into plain values.
///
/// The result is decided by what the parser makes of the bytes: its input
/// reports where it accepts them, an error where it refuses them or where
/// the descriptor cannot be handed to it.
pub fn decode_descriptor(bytes: &[u8]) -> (r: Result<DecodedDescriptor, DecodeFailure>)
    ensures
        match r {
            Ok(d) => descriptor_fault(bytes@) is None && parsed_input_reports(bytes@) == Some(d@),
            Err(failure) => descriptor_fault(bytes@) == Some(failure.error) && message_text(
                failure.error,
                failure.detail@,
            ) == failure_text(failure.error, bytes@),
        },
{
    if !is_descriptor_supported(bytes) {
        return Err(
            DecodeFailure { error: DecodeError::UnsupportedDescriptor, detail: String::new() },
        );
    }
    match parse_report_descriptor(bytes) {
        Err(words) => Err(DecodeFailure { error: DecodeError::MalformedDescriptor, detail: words }),
        Ok(parsed) => {
            let n = input_report_count(&parsed);
            let mut reports: Vec<InputReport> = Vec::new();
            let mut r: usize = 0;
            while r < n
                invariant
                    n == input_reports_of(parsed).len(),
                    r <= n,
                    reports@.len() == r,
                    forall|i: int| 0 <= i < r ==> (#[trigger] reports@[i])@ == input_reports_of(
                        parsed,
                    )[i],
                decreases n - r,
            {
                let count = input_field_count(&parsed, r);
                let mut fields: Vec<Field> = Vec::new();
                let mut f: usize = 0;
                while f < count
                    invariant
                        r < input_reports_of(parsed).len(),
                        count == input_reports_of(parsed)[r as int].fields.len(),
                        f <= count,
                        fields@ == input_reports_of(parsed)[r as int].fields.subrange(
                            0,
                            f as int,
                        ),
                    decreases count - f,
                {
                    fields.push(input_field(&parsed, r, f));
                    f += 1;
                    assert(fields@ =~= input_reports_of(parsed)[r as int].fields.subrange(
                        0,
                        f as int,
                    ));
                }
                assert(fields@ =~= input_reports_of(parsed)[r as int].fields);
                reports.push(InputReport { report_id: input_report_id(&parsed, r), fields });
                r += 1;
            }
            let decoded = DecodedDescriptor { reports };
            assert(decoded@ =~= input_reports_of(parsed));
            Ok(decoded)
        },
    }
}

/// The axis fields among the fields of one report: the fields of one
/// control that are not on the button page.
pub open spec fn axes_in(fields: Seq<Field>) -> Seq<VariableField>
    decreases fields.len(),
{
    if fields.len() == 0 {
        Seq::empty()
    } else {
        let before = axes_in(fields.drop_last());
        match fields.last() {
            Field::Variable(v) => if v.usage_page != BUTTON_PAGE {
                before.push(v)
            } else {
                before
            },
            _ => before,
        }
    }
}

/// The axis fields of a device, in the order in which the descriptor
/// declares them over all its input reports. The position of a field in
/// this list, counted from 1, is the number of the axis.
pub open spec fn axes_of(reports: Seq<InputReportModel>) -> Seq<VariableField>
    decreases reports.len(),
{
    if reports.len() == 0 {
        Seq::empty()
    } else {
        axes_of(reports.drop_last()) + axes_in(reports.last().fields)
    }
}

impl DecodedDescriptor {
    /// The axis fields of the device in declaration order.
    pub fn axes(&self) -> (axes: Vec<VariableField>)
        ensures
            axes@ == axes_of(self@),
    {
        let mut axes: Vec<VariableField> = Vec::new();
        let mut r: usize = 0;
        while r < self.reports.len()
            invariant
                r <= self.reports.len(),
                axes@ == axes_of(self@.subrange(0, r as int)),
            decreases self.reports.len() - r,
        {
            let report = &self.reports[r];
            let ghost before = axes@;
            let mut f: usize = 0;
            while f < report.fields.len()
                invariant
                    f <= report.fields.len(),
                    axes@ == before + axes_in(report.fields@.subrange(0, f as int)),
                decreases report.fields.len() - f,
            {
                proof {
                    assert(report.fields@.subrange(0, f + 1).drop_last()
                        =~= report.fields@.subrange(0, f as int));
                }
                match report.fields[f] {
                    Field::Variable(v) => {
                        if v.usage_page != BUTTON_PAGE {
                            axes.push(v);
                        }
                    },
                    _ => {},
                }
                f += 1;
                assert(axes@ =~= before + axes_in(report.fields@.subrange(0, f as int)));
            }
            proof {
                assert(report.fields@.subrange(0, f as int) =~= report.fields@);
                assert(self@.subrange(0, r + 1).drop_last() =~= self@.subrange(0, r as int));
                assert(self@.subrange(0, r + 1).last() == report@);
            }
            r += 1;
        }
        assert(self@.subrange(0, r as int) =~= self@);
        axes
    }
}

} // verus!
