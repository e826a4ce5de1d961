//! The registry of devices: an ordered list in which no address occurs twice.

use vstd::prelude::*;
use crate::device::{Device, DeviceView};
use crate::pattern::{address_shaped, is_address_shaped};

verus! {

/// Whether some entry of `devices` has the address `addr`.
pub open spec fn has_address(devices: Seq<DeviceView>, addr: Seq<char>) -> bool {
    exists|i: int| 0 <= i < devices.len() && (#[trigger] devices[i]).addr == addr
}

/// Whether no two entries of `devices` share an address.
pub open spec fn distinct_addresses(devices: Seq<DeviceView>) -> bool {
    forall|i: int, j: int|
        0 <= i < j < devices.len() ==> (#[trigger] devices[i]).addr != (#[trigger] devices[j]).addr
}

/// `devices` with `device` at its end, unless its address is there already.
pub open spec fn with_device(devices: Seq<DeviceView>, device: DeviceView) -> Seq<DeviceView> {
    if has_address(devices, device.addr) {
        devices
    } else {
        devices.push(device)
    }
}

/// `devices` after `device` was offered together with the answer of the name
/// filter: it is taken only where its name is no address.
pub open spec fn with_screened(
    devices: Seq<DeviceView>,
    device: DeviceView,
    name_is_address: bool,
) -> Seq<DeviceView> {
    if name_is_address {
        devices
    } else {
        with_device(devices, device)
    }
}

/// `device` with the flags that are given replaced.
pub open spec fn with_flags(
    device: DeviceView,
    paired: Option<bool>,
    connected: Option<bool>,
) -> DeviceView {
    DeviceView {
        paired: if let Some(p) = paired { p } else { device.paired },
        connected: if let Some(c) = connected { c } else { device.connected },
        ..device
    }
}

/// `devices` with the flags of the entry at `index` replaced; unchanged where
/// there is no such entry.
pub open spec fn with_flags_at(
    devices: Seq<DeviceView>,
    index: int,
    paired: Option<bool>,
    connected: Option<bool>,
) -> Seq<DeviceView> {
    if 0 <= index < devices.len() {
        devices.update(index, with_flags(devices[index], paired, connected))
    } else {
        devices
    }
}

/// Adding a device keeps the addresses distinct.
pub proof fn lemma_with_device_distinct(devices: Seq<DeviceView>, device: DeviceView)
    requires
        distinct_addresses(devices),
    ensures
        distinct_addresses(with_device(devices, device)),
{
    if !has_address(devices, device.addr) {
        let grown = devices.push(device);
        assert forall|i: int, j: int| 0 <= i < j < grown.len() implies (#[trigger] grown[i]).addr != (
        #[trigger] grown[j]).addr by {
            if j == devices.len() {
            } else {
            }
        }
    }
}

/// Offering a device that is already there, or the same device twice, changes
/// the registry at most once.
pub proof fn lemma_with_device_idempotent(devices: Seq<DeviceView>, device: DeviceView)
    ensures
        with_device(with_device(devices, device), device) == with_device(devices, device),
{
    if !has_address(devices, device.addr) {
        let grown = devices.push(device);
        assert(grown[devices.len() as int].addr == device.addr);
    }
}

/// Replacing flags keeps every address, and so keeps them distinct.
pub proof fn lemma_with_flags_distinct(
    devices: Seq<DeviceView>,
    index: int,
    paired: Option<bool>,
    connected: Option<bool>,
)
    requires
        distinct_addresses(devices),
    ensures
        distinct_addresses(with_flags_at(devices, index, paired, connected)),
{
    let changed = with_flags_at(devices, index, paired, connected);
    assert forall|i: int, j: int| 0 <= i < j < changed.len() implies (#[trigger] changed[i]).addr != (
    #[trigger] changed[j]).addr by {
    }
}

/// Adding a device leaves every entry where and as it was: the order of the
/// registry is the order in which the devices were first seen.
pub proof fn lemma_with_device_keeps_entries(devices: Seq<DeviceView>, device: DeviceView)
    ensures
        with_device(devices, device).len() >= devices.len(),
        with_device(devices, device).take(devices.len() as int) == devices,
{
}

/// Replacing flags changes neither the address nor the name nor the kind of
/// any entry, nor the number of entries.
pub proof fn lemma_with_flags_keeps_identity(
    devices: Seq<DeviceView>,
    index: int,
    paired: Option<bool>,
    connected: Option<bool>,
)
    ensures
        with_flags_at(devices, index, paired, connected).len() == devices.len(),
        forall|i: int|
            0 <= i < devices.len() ==> {
                let entry = #[trigger] with_flags_at(devices, index, paired, connected)[i];
                &&& entry.addr == devices[i].addr
                &&& entry.name == devices[i].name
                &&& entry.devicetype == devices[i].devicetype
                &&& i != index ==> entry == devices[i]
            },
{
}

/// The devices of one session, in the order in which they were first seen.
/// The operator names a device by its position in this order.
#[derive(Debug)]
pub struct Registry {
    devices: Vec<Device>,
}

impl View for Registry {
    type V = Seq<DeviceView>;

    closed spec fn view(&self) -> Seq<DeviceView> {
        self.devices.deep_view()
    }
}

impl Registry {
    /// What holds of every registry: no address occurs twice.
    #[verifier::type_invariant]
    pub open spec fn well_formed(self) -> bool {
        distinct_addresses(self@)
    }

    /// The empty registry.
    pub fn new() -> (registry: Registry)
        ensures
            registry@ == Seq::<DeviceView>::empty(),
    {
        let devices: Vec<Device> = Vec::new();
        Registry { devices }
    }

    /// The number of entries.
    pub fn len(&self) -> (n: usize)
        ensures
            n == self@.len(),
            distinct_addresses(self@),
    {
        proof {
            use_type_invariant(self);
        }
        self.devices.len()
    }

    /// The entries in order, for whoever draws them.
    pub fn devices(&self) -> (all: &Vec<Device>)
        ensures
            all.deep_view() == self@,
            distinct_addresses(self@),
    {
        proof {
            use_type_invariant(self);
        }
        &self.devices
    }

    /// The entry at `index`, if there is one.
    pub fn get(&self, index: usize) -> (entry: Option<&Device>)
        ensures
            index < self@.len() ==> entry is Some && entry->0@ == self@[index as int],
            index >= self@.len() ==> entry is None,
    {
        if index < self.devices.len() {
            Some(&self.devices[index])
        } else {
            None
        }
    }

    /// Whether an entry has the address `addr`.
    pub fn contains_address(&self, addr: &str) -> (found: bool)
        ensures
            found == has_address(self@, addr@),
    {
        let wanted = addr.to_owned();
        let mut k: usize = 0;
        while k < self.devices.len()
            invariant
                k <= self.devices.len(),
                wanted@ == addr@,
                forall|i: int| 0 <= i < k ==> (#[trigger] self.devices.deep_view()[i]).addr != addr@,
            decreases self.devices.len() - k,
        {
            if self.devices[k].addr == wanted {
                assert(self.devices.deep_view()[k as int].addr == addr@);
                return true;
            }
            k += 1;
        }
        false
    }

    /// Adds `device` at the end unless its address is already present.
    /// Returns whether it was added.
    pub fn insert_unique(&mut self, device: Device) -> (added: bool)
        ensures
            added == !has_address(old(self)@, device@.addr),
            final(self)@ == with_device(old(self)@, device@),
            distinct_addresses(final(self)@),
    {
        proof {
            use_type_invariant(&*self);
            lemma_with_device_distinct(self@, device@);
        }
        if self.contains_address(device.addr.as_str()) {
            return false;
        }
        let mut devices: Vec<Device> = Vec::new();
        std::mem::swap(&mut self.devices, &mut devices);
        let ghost before = devices.deep_view();
        devices.push(device);
        assert(devices.deep_view() =~= before.push(device@));
        self.devices = devices;
        true
    }

    /// Adds `device` as [`Registry::insert_unique`] does, unless
    /// `name_is_address`, the answer of the name filter for this device's
    /// name, forbids it. Returns whether the device was added.
    pub fn insert_screened(&mut self, device: Device, name_is_address: bool) -> (added: bool)
        ensures
            added == (!name_is_address && !has_address(old(self)@, device@.addr)),
            final(self)@ == with_screened(old(self)@, device@, name_is_address),
            distinct_addresses(final(self)@),
    {
        proof {
            use_type_invariant(&*self);
        }
        if name_is_address {
            false
        } else {
            self.insert_unique(device)
        }
    }

    /// Adds a discovered `device` unless its address is already present or
    /// its name has the shape of an address. Returns whether it was added.
    ///
    /// The name is tested with the regular expression of
    /// [`crate::pattern::ADDRESS_PATTERN`].
    pub fn insert_if_new(&mut self, device: Device) -> (added: bool)
        ensures
            added == (!has_address(old(self)@, device@.addr) && !address_shaped(device@.name)),
            final(self)@ == with_screened(old(self)@, device@, address_shaped(device@.name)),
            distinct_addresses(final(self)@),
    {
        let name_is_address = is_address_shaped(device.name.as_str());
        self.insert_screened(device, name_is_address)
    }

    /// Replaces the flags of the entry at `index` that are given. Does
    /// nothing where there is no such entry.
    pub fn set_flags(&mut self, index: usize, paired: Option<bool>, connected: Option<bool>)
        ensures
            final(self)@ == with_flags_at(old(self)@, index as int, paired, connected),
            distinct_addresses(final(self)@),
    {
        proof {
            use_type_invariant(&*self);
            lemma_with_flags_distinct(self@, index as int, paired, connected);
        }
        if index >= self.devices.len() {
            return;
        }
        let mut devices: Vec<Device> = Vec::new();
        std::mem::swap(&mut self.devices, &mut devices);
        let ghost before = devices.deep_view();
        if let Some(p) = paired {
            devices[index].paired = p;
        }
        if let Some(c) = connected {
            devices[index].connected = c;
        }
        assert(devices.deep_view() =~= with_flags_at(before, index as int, paired, connected));
        self.devices = devices;
    }

    /// Removes every entry.
    pub fn clear(&mut self)
        ensures
            final(self)@ == Seq::<DeviceView>::empty(),
    {
        let devices: Vec<Device> = Vec::new();
        self.devices = devices;
    }
}

} // verus!
