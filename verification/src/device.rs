//! Devices as the registry records them.

use vstd::prelude::*;

verus! {

/// What kind of thing an entry stands for. Only peripheral devices are shown
/// to the operator.
#[derive(Clone, Copy, Debug, PartialEq, Eq, Structural)]
pub enum DeviceType {
    _Controller,
    Device,
}

/// A peripheral that was discovered in this session or was paired before it.
///
/// `paired` and `connected` record what the operator asked for; the tool does
/// not confirm them.
#[derive(Clone, Debug, PartialEq, Eq)]
pub struct Device {
    pub devicetype: DeviceType,
    pub addr: String,
    pub name: String,
    pub paired: bool,
    pub connected: bool,
}

/// The mathematical value of a [`Device`].
pub struct DeviceView {
    pub devicetype: DeviceType,
    pub addr: Seq<char>,
    pub name: Seq<char>,
    pub paired: bool,
    pub connected: bool,
}

impl View for Device {
    type V = DeviceView;

    open spec fn view(&self) -> DeviceView {
        DeviceView {
            devicetype: self.devicetype,
            addr: self.addr@,
            name: self.name@,
            paired: self.paired,
            connected: self.connected,
        }
    }
}

impl DeepView for Device {
    type V = DeviceView;

    open spec fn deep_view(&self) -> DeviceView {
        self@
    }
}

/// The device that a discovery line announces: unpaired and unconnected.
pub open spec fn discovered(addr: Seq<char>, name: Seq<char>) -> DeviceView {
    DeviceView { devicetype: DeviceType::Device, addr, name, paired: false, connected: false }
}

/// The device that the enumeration of paired devices lists.
pub open spec fn known(addr: Seq<char>, name: Seq<char>) -> DeviceView {
    DeviceView { devicetype: DeviceType::Device, addr, name, paired: true, connected: false }
}

impl Device {
    /// A newly discovered peripheral.
    pub fn discovered(addr: String, name: String) -> (device: Device)
        ensures
            device@ == discovered(addr@, name@),
    {
        Device { devicetype: DeviceType::Device, addr, name, paired: false, connected: false }
    }

    /// A peripheral that was paired before the session began.
    pub fn known(addr: String, name: String) -> (device: Device)
        ensures
            device@ == known(addr@, name@),
    {
        Device { devicetype: DeviceType::Device, addr, name, paired: true, connected: false }
    }
}

} // verus!
