//! Detection of game-controller input for the capture of bindings.
//!
//! Two backends are read: HID devices, whose reports are decoded against
//! the descriptor that the device supplies, and the controllers of the
//! vendor API, which have a fixed layout. From what is read of them the
//! library makes discrete events, each with a canonical identifier such as
//! `js1_button3`, `js1_axis2_negative`, `js1_hat1_up` or `gp1_axis5_positive`.
//!
//! The library does no input or output of its own. Its callers read the
//! devices and hand it bytes and states; it decides.
//!
//! - [`descriptor`], [`bits`], [`report`], [`hid`]: from descriptor and
//!   report bytes to the snapshot of a device.
//! - [`axis`], [`buttons`]: from successive snapshots to edges.
//! - [`gamepad`]: the vendor controller backend.
//! - [`events`], [`text`]: the records that are published.
//! - [`detector`], [`polling`], [`session`]: the state of a session, its
//!   poll and its timing.
//! - [`devices`], [`probe`]: the listing of devices and the probe of one
//!   device.

pub mod axis;
pub mod bits;
pub mod buttons;
pub mod descriptor;
pub mod detector;
pub mod devices;
pub mod events;
pub mod gamepad;
pub mod hid;
pub mod polling;
pub mod probe;
pub mod report;
pub mod session;
pub mod text;
