//! Input-state model, HID report encoding and sampling cadence of a USB gamepad.

pub mod axis;
pub mod bits;
pub mod controller;
pub mod descriptor;
pub mod hid_report;
pub mod layout;
pub mod minimal_report;
pub mod sampling;
pub mod scheduler;
pub mod text;
