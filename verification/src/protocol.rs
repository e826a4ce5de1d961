//! The lines that are written to `bluetoothctl` in answer to a command.

use vstd::prelude::*;
use vstd::string::*;

verus! {

/// A control line that names a device: the verb, a space, the address of the
/// device and a line feed.
pub open spec fn control_line(verb: Seq<char>, addr: Seq<char>) -> Seq<char> {
    (verb.push(' ') + addr).push('\n')
}

/// The lines that switch everything off and on again to start discovery
/// afresh.
pub open spec fn rescan_sequence() -> Seq<Seq<char>> {
    seq![
        "scan off\n"@,
        "agent off\n"@,
        "power off\n"@,
        "power on\n"@,
        "agent on\n"@,
        "default-agent\n"@,
        "scan on\n"@,
    ]
}

/// Builds the control line for `verb` and `addr`.
pub fn make_control_line(verb: &str, addr: &str) -> (line: String)
    ensures
        line@ == control_line(verb@, addr@),
{
    let mut line = String::from_str(verb);
    line.push(' ');
    line.append(addr);
    line.push('\n');
    line
}

/// Appends the lines of [`rescan_sequence`] to `lines`.
pub fn push_rescan_lines(lines: &mut Vec<String>)
    ensures
        final(lines).deep_view() == old(lines).deep_view() + rescan_sequence(),
{
    lines.push(String::from_str("scan off\n"));
    lines.push(String::from_str("agent off\n"));
    lines.push(String::from_str("power off\n"));
    lines.push(String::from_str("power on\n"));
    lines.push(String::from_str("agent on\n"));
    lines.push(String::from_str("default-agent\n"));
    lines.push(String::from_str("scan on\n"));
}

} // verus!
