//! What the screen shows: the three lists of devices and the input line.

use vstd::prelude::*;
use vstd::string::*;
use crate::command::{digits_of, push_digits};
use crate::device::{Device, DeviceType, DeviceView};

verus! {

/// The three lists on the screen.
#[derive(Clone, Copy, Debug, PartialEq, Eq, Structural)]
pub enum Pane {
    Available,
    Paired,
    Connected,
}

/// The list in which `device` is shown: a connected device among the
/// connected ones, whether paired or not; any other paired device among the
/// paired ones; the rest among the available ones.
pub open spec fn pane_of(device: DeviceView) -> Pane {
    if device.connected {
        Pane::Connected
    } else if device.paired {
        Pane::Paired
    } else {
        Pane::Available
    }
}

/// Whether `device` is shown in `pane`. Controllers are shown nowhere.
pub open spec fn shown_in(device: DeviceView, pane: Pane) -> bool {
    device.devicetype == DeviceType::Device && pane_of(device) == pane
}

/// Whether `positions` lists, in rising order, exactly the positions in
/// `devices` of the devices that are shown in `pane`.
pub open spec fn lists_pane(positions: Seq<usize>, devices: Seq<DeviceView>, pane: Pane) -> bool {
    &&& forall|a: int, b: int| 0 <= a < b < positions.len() ==> positions[a] < positions[b]
    &&& forall|a: int|
        0 <= a < positions.len() ==> (#[trigger] positions[a]) < devices.len() && shown_in(
            devices[positions[a] as int],
            pane,
        )
    &&& forall|i: int|
        0 <= i < devices.len() && shown_in(#[trigger] devices[i], pane) ==> positions.contains(
            i as usize,
        )
}

/// For each list on the screen, the positions in the registry of the devices
/// that it shows. The operator names a device by this position.
#[derive(Clone, Debug, PartialEq, Eq)]
pub struct Panes {
    pub available: Vec<usize>,
    pub paired: Vec<usize>,
    pub connected: Vec<usize>,
}

/// Sorts the devices into the three lists of the screen.
pub fn partition(devices: &Vec<Device>) -> (panes: Panes)
    ensures
        lists_pane(panes.available@, devices.deep_view(), Pane::Available),
        lists_pane(panes.paired@, devices.deep_view(), Pane::Paired),
        lists_pane(panes.connected@, devices.deep_view(), Pane::Connected),
{
    let mut available: Vec<usize> = Vec::new();
    let mut paired: Vec<usize> = Vec::new();
    let mut connected: Vec<usize> = Vec::new();
    let mut k: usize = 0;
    while k < devices.len()
        invariant
            k <= devices.len(),
            lists_pane(available@, devices.deep_view().take(k as int), Pane::Available),
            lists_pane(paired@, devices.deep_view().take(k as int), Pane::Paired),
            lists_pane(connected@, devices.deep_view().take(k as int), Pane::Connected),
        decreases devices.len() - k,
    {
        let ghost seen = devices.deep_view().take(k as int);
        let ghost next = devices.deep_view().take(k + 1);
        let ghost a0 = available@;
        let ghost p0 = paired@;
        let ghost c0 = connected@;
        let device = &devices[k];
        let shown = match device.devicetype {
            DeviceType::Device => true,
            DeviceType::_Controller => false,
        };
        if shown {
            if device.connected {
                connected.push(k);
            } else if device.paired {
                paired.push(k);
            } else {
                available.push(k);
            }
        }
        proof {
            assert(next.drop_last() =~= seen);
            lemma_pane_grows(a0, available@, seen, next, Pane::Available);
            lemma_pane_grows(p0, paired@, seen, next, Pane::Paired);
            lemma_pane_grows(c0, connected@, seen, next, Pane::Connected);
        }
        k += 1;
    }
    assert(devices.deep_view().take(devices.len() as int) =~= devices.deep_view());
    Panes { available, paired, connected }
}

/// A list stays right when one more device is looked at and its position is
/// added exactly if the device is shown in the list.
proof fn lemma_pane_grows(
    before: Seq<usize>,
    after: Seq<usize>,
    seen: Seq<DeviceView>,
    next: Seq<DeviceView>,
    pane: Pane,
)
    requires
        next.len() == seen.len() + 1,
        next.len() - 1 <= usize::MAX,
        next.drop_last() == seen,
        lists_pane(before, seen, pane),
        after == if shown_in(next.last(), pane) {
            before.push(seen.len() as usize)
        } else {
            before
        },
    ensures
        lists_pane(after, next, pane),
{
    assert forall|i: int| 0 <= i < next.len() && shown_in(#[trigger] next[i], pane) implies after.contains(
        i as usize,
    ) by {
        if i < seen.len() {
            assert(seen[i] == next[i]);
            let a = choose|a: int| 0 <= a < before.len() && before[a] == i as usize;
            assert(after[a] == i as usize);
        } else {
            assert(after[before.len() as int] == i as usize);
        }
    }
}

/// What stands before the name of the device at `position` on the screen.
pub open spec fn label_of(position: nat) -> Seq<char> {
    "DEVICE "@ + digits_of(position) + ": "@
}

/// Builds what stands before the name of the device at `position`.
pub fn device_label(position: usize) -> (label: String)
    ensures
        label@ == label_of(position as nat),
{
    let mut label = String::from_str("DEVICE ");
    push_digits(&mut label, position);
    label.append(": ");
    label
}

/// The input line as the screen shows it.
pub open spec fn prompt_of(input: Seq<char>) -> Seq<char> {
    " > "@ + input + " "@
}

/// Builds the input line that the screen shows.
pub fn prompt_line(user_input: &Vec<char>) -> (line: String)
    ensures
        line@ == prompt_of(user_input@),
{
    let mut line = String::from_str(" > ");
    let mut k: usize = 0;
    while k < user_input.len()
        invariant
            k <= user_input.len(),
            line@ == " > "@ + user_input@.take(k as int),
        decreases user_input.len() - k,
    {
        line.push(user_input[k]);
        k += 1;
    }
    line.append(" ");
    line
}

} // verus!
