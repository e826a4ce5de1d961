//! Session logic of a terminal front end for `bluetoothctl`.
//!
//! The crate holds the parts of the program that decide something: the device
//! registry, the two parsers for the tool's output, the operator's command
//! language, and the step functions of the three loops that share the state.
//! Spawning the tool, reading the keyboard and drawing the screen are left to
//! the caller, which hands these functions plain values and carries out the
//! actions they return.

pub mod command;
pub mod device;
pub mod discovery;
pub mod input;
pub mod panes;
pub mod pattern;
pub mod protocol;
pub mod registry;
pub mod session;
pub mod text;

pub use crate::device::{Device, DeviceType};
pub use crate::registry::Registry;
