//! The vendor controller backend: four slots, each with sixteen buttons
//! in a bit mask, two sticks and two analog triggers.

use crate::axis::AxisValue;
use vstd::prelude::*;

verus! {

/// How many controllers the vendor API serves.
pub const GAMEPAD_SLOTS: usize = 4;

/// How many axes a controller has: two sticks of two axes, two triggers.
pub const GAMEPAD_AXES: usize = 6;

/// The state of one controller as the vendor API reports it.
#[derive(Clone, Copy, Debug, PartialEq, Eq, Structural)]
pub struct GamepadState {
    /// One bit for each button that is down.
    pub buttons: u16,
    pub left_trigger: u8,
    pub right_trigger: u8,
    pub thumb_lx: i16,
    pub thumb_ly: i16,
    pub thumb_rx: i16,
    pub thumb_ry: i16,
}

/// The bits that are set in `now` and were not set in `before`.
pub open spec fn newly_set(before: u16, now: u16) -> u16 {
    now & !before
}

/// The bits of the buttons that went down.
pub fn newly_set_buttons(before: u16, now: u16) -> (mask: u16)
    ensures
        mask == newly_set(before, now),
{
    now & !before
}

/// The number of the button that a mask of one bit stands for. A mask of
/// several bits, and the bits of no numbered button, stand for none.
pub open spec fn gamepad_button_of(mask: u16) -> Option<u32> {
    if mask == 0x1000 {
        Some(1u32)
    } else if mask == 0x2000 {
        Some(2u32)
    } else if mask == 0x4000 {
        Some(3u32)
    } else if mask == 0x8000 {
        Some(4u32)
    } else if mask == 0x0100 {
        Some(5u32)
    } else if mask == 0x0200 {
        Some(6u32)
    } else if mask == 0x0010 {
        Some(7u32)
    } else if mask == 0x0020 {
        Some(8u32)
    } else if mask == 0x0040 {
        Some(9u32)
    } else if mask == 0x0080 {
        Some(10u32)
    } else if mask == 0x0001 {
        Some(11u32)
    } else if mask == 0x0002 {
        Some(12u32)
    } else if mask == 0x0004 {
        Some(13u32)
    } else if mask == 0x0008 {
        Some(14u32)
    } else {
        None
    }
}

/// The number of the button that a mask stands for.
pub fn gamepad_button(mask: u16) -> (button: Option<u32>)
    ensures
        button == gamepad_button_of(mask),
{
    if mask == 0x1000 {
        Some(1)
    } else if mask == 0x2000 {
        Some(2)
    } else if mask == 0x4000 {
        Some(3)
    } else if mask == 0x8000 {
        Some(4)
    } else if mask == 0x0100 {
        Some(5)
    } else if mask == 0x0200 {
        Some(6)
    } else if mask == 0x0010 {
        Some(7)
    } else if mask == 0x0020 {
        Some(8)
    } else if mask == 0x0040 {
        Some(9)
    } else if mask == 0x0080 {
        Some(10)
    } else if mask == 0x0001 {
        Some(11)
    } else if mask == 0x0002 {
        Some(12)
    } else if mask == 0x0004 {
        Some(13)
    } else if mask == 0x0008 {
        Some(14)
    } else {
        None
    }
}

/// The value of a stick axis: its raw value over 32768.
pub open spec fn stick_value(raw: i16) -> AxisValue {
    AxisValue { num: raw as i64, den: 32768 }
}

/// The value of a trigger: its raw value from 0 to 255, mapped onto the
/// range from -1 to 1.
pub open spec fn trigger_value(raw: u8) -> AxisValue {
    AxisValue { num: (2 * raw - 255) as i64, den: 255 }
}

/// The value of axis `axis` of a controller, for the axes 1 to 6: the left
/// stick, the right stick, the left and the right trigger.
pub open spec fn gamepad_axis_value(state: GamepadState, axis: int) -> AxisValue {
    if axis == 1 {
        stick_value(state.thumb_lx)
    } else if axis == 2 {
        stick_value(state.thumb_ly)
    } else if axis == 3 {
        stick_value(state.thumb_rx)
    } else if axis == 4 {
        stick_value(state.thumb_ry)
    } else if axis == 5 {
        trigger_value(state.left_trigger)
    } else {
        trigger_value(state.right_trigger)
    }
}

/// The name of axis `axis` of a controller.
pub open spec fn gamepad_axis_name(axis: int) -> Seq<char> {
    if axis == 1 {
        "Left Stick X"@
    } else if axis == 2 {
        "Left Stick Y"@
    } else if axis == 3 {
        "Right Stick X"@
    } else if axis == 4 {
        "Right Stick Y"@
    } else if axis == 5 {
        "Left Trigger"@
    } else {
        "Right Trigger"@
    }
}

impl GamepadState {
    /// The value of one of the axes 1 to 6.
    pub fn axis_value(&self, axis: u32) -> (v: AxisValue)
        requires
            1 <= axis <= GAMEPAD_AXES,
        ensures
            v == gamepad_axis_value(*self, axis as int),
            v.wf(),
    {
        if axis == 1 {
            AxisValue { num: self.thumb_lx as i64, den: 32768 }
        } else if axis == 2 {
            AxisValue { num: self.thumb_ly as i64, den: 32768 }
        } else if axis == 3 {
            AxisValue { num: self.thumb_rx as i64, den: 32768 }
        } else if axis == 4 {
            AxisValue { num: self.thumb_ry as i64, den: 32768 }
        } else if axis == 5 {
            AxisValue { num: 2 * (self.left_trigger as i64) - 255, den: 255 }
        } else {
            AxisValue { num: 2 * (self.right_trigger as i64) - 255, den: 255 }
        }
    }
}

/// The name of one of the axes 1 to 6.
pub fn axis_name(axis: u32) -> (name: &'static str)
    ensures
        name@ == gamepad_axis_name(axis as int),
{
    if axis == 1 {
        "Left Stick X"
    } else if axis == 2 {
        "Left Stick Y"
    } else if axis == 3 {
        "Right Stick X"
    } else if axis == 4 {
        "Right Stick Y"
    } else if axis == 5 {
        "Left Trigger"
    } else {
        "Right Trigger"
    }
}

} // verus!
