//! The parsers for what `bluetoothctl` prints, and the step of the loop that
//! reads its output.
//!
//! Both kinds of line are columns separated by white space, with the name
//! of the device, which may itself be several words, in the last column.
//! The words of a name are joined with single spaces.

use vstd::prelude::*;
use vstd::string::*;
use crate::device::{discovered, known, Device, DeviceView};
use crate::pattern::address_shaped;
use crate::registry::{
    distinct_addresses, has_address, lemma_with_device_distinct, lemma_with_device_idempotent,
    with_device, with_screened, Registry,
};
use crate::text::{
    is_blank, is_gap, is_word, join_from, join_with, lemma_join_merge_last, lemma_words_are_words,
    lemma_words_of_spaced, lines, lines_of, spaced, words, words_of,
};

verus! {

/// The second column of a line that announces a new device: the word `NEW`
/// in square brackets, with the colour codes that the tool puts around it.
///
/// Written out, it is ESC `[0m`, `[`, ESC `[0;92m`, `NEW`, ESC `[0m`, `]`: the
/// twenty bytes 1B 5B 30 6D 5B 1B 5B 30 3B 39 32 6D 4E 45 57 1B 5B 30 6D 5D.
/// A version of the tool that colours its output differently is not
/// understood.
pub const NEW_MARKER: &'static str = "\u{1b}[0m[\u{1b}[0;92mNEW\u{1b}[0m]";

/// The third column of a line that announces a new device.
pub const DEVICE_WORD: &'static str = "Device";

/// The number of columns of a line that announces a new device.
pub const DISCOVERY_COLUMNS: usize = 5;

/// The columns of a line whose name is several words: from the fifth column
/// on, the words are joined with a space between them.
pub open spec fn folded(columns: Seq<Seq<char>>) -> Seq<Seq<char>> {
    if columns.len() > 5 {
        columns.take(4).push(join_with(columns.skip(4), ' '))
    } else {
        columns
    }
}

/// The address and the name of the device that `line` announces, if it
/// announces one: it has five columns or more, of which the second is
/// [`NEW_MARKER`] and the third is [`DEVICE_WORD`].
pub open spec fn discovery_of(line: Seq<char>) -> Option<(Seq<char>, Seq<char>)> {
    let columns = folded(words_of(line));
    if columns.len() >= 5 && columns[1] == NEW_MARKER@ && columns[2] == DEVICE_WORD@ {
        Some((columns[3], columns[4]))
    } else {
        None
    }
}

/// The address and the name of the device that `line` lists, if it has the
/// three columns of a line of the enumeration of paired devices.
pub open spec fn paired_of(line: Seq<char>) -> Option<(Seq<char>, Seq<char>)> {
    let columns = words_of(line);
    if columns.len() >= 3 {
        Some((columns[1], join_with(columns.skip(2), ' ')))
    } else {
        None
    }
}

/// Joins the words of a name into the fifth column, last word first.
pub fn fold_name(columns: &mut Vec<String>)
    ensures
        final(columns).deep_view() == folded(old(columns).deep_view()),
{
    let ghost start = columns.deep_view();
    while columns.len() > DISCOVERY_COLUMNS
        invariant
            start == old(columns).deep_view(),
            start.len() <= 5 ==> columns.deep_view() == start,
            start.len() > 5 ==> columns.len() >= 5,
            start.len() > 5 ==> columns.deep_view().take(4) == start.take(4),
            start.len() > 5 ==> join_with(columns.deep_view().skip(4), ' ') == join_with(
                start.skip(4),
                ' ',
            ),
        decreases columns.len(),
    {
        let ghost before = columns.deep_view();
        let last = columns.pop().unwrap();
        let mut name = columns.pop().unwrap();
        name.push(' ');
        name.append(last.as_str());
        columns.push(name);
        proof {
            let n = before.len() as int;
            let tail = before.skip(4);
            let merged = before[n - 2].push(' ') + before[n - 1];
            assert(columns.deep_view().skip(4) =~= tail.drop_last().drop_last().push(merged));
            lemma_join_merge_last(tail, ' ');
        }
    }
}

/// Reads `line` as the announcement of a new device and returns its address
/// and its name.
pub fn parse_discovery_line(line: &str) -> (found: Option<(String, String)>)
    ensures
        found.deep_view() == discovery_of(line@),
{
    let mut columns = words(line);
    fold_name(&mut columns);
    if columns.len() >= DISCOVERY_COLUMNS {
        if columns[1] == String::from_str(NEW_MARKER) && columns[2] == String::from_str(DEVICE_WORD) {
            return Some((columns[3].clone(), columns[4].clone()));
        }
    }
    None
}

/// Reads `line` as one line of the enumeration of paired devices and returns
/// the address and the name of the device.
pub fn parse_paired_line(line: &str) -> (found: Option<(String, String)>)
    ensures
        found.deep_view() == paired_of(line@),
{
    let columns = words(line);
    if columns.len() >= 3 {
        let name = join_from(&columns, 2, ' ');
        Some((columns[1].clone(), name))
    } else {
        None
    }
}

/// Whether `line` announces a device that `devices` takes in: one with an
/// address that is not there yet and a name that is no address.
pub open spec fn announces_new(devices: Seq<DeviceView>, line: Seq<char>) -> bool {
    discovery_of(line) matches Some((addr, name)) && !has_address(devices, addr) && !address_shaped(
        name,
    )
}

/// The registry after `line` was read: with the device that the line
/// announces at its end, if it announces one that is taken in.
pub open spec fn after_line(devices: Seq<DeviceView>, line: Seq<char>) -> Seq<DeviceView> {
    match discovery_of(line) {
        Some((addr, name)) => with_screened(devices, discovered(addr, name), address_shaped(name)),
        None => devices,
    }
}

/// The registry after the lines `lines` were read, first line first.
pub open spec fn after_lines(devices: Seq<DeviceView>, lines: Seq<Seq<char>>) -> Seq<DeviceView>
    decreases lines.len(),
{
    if lines.len() == 0 {
        devices
    } else {
        after_line(after_lines(devices, lines.drop_last()), lines.last())
    }
}

/// Whatever lines are read, no address comes to stand in the registry twice.
pub proof fn lemma_lines_keep_addresses_distinct(devices: Seq<DeviceView>, lines: Seq<Seq<char>>)
    requires
        distinct_addresses(devices),
    ensures
        distinct_addresses(after_lines(devices, lines)),
    decreases lines.len(),
{
    if lines.len() > 0 {
        lemma_lines_keep_addresses_distinct(devices, lines.drop_last());
        let before = after_lines(devices, lines.drop_last());
        if let Some((addr, name)) = discovery_of(lines.last()) {
            lemma_with_device_distinct(before, discovered(addr, name));
        }
    }
}

/// A line that is read a second time changes nothing.
pub proof fn lemma_line_read_twice(devices: Seq<DeviceView>, line: Seq<char>)
    ensures
        after_line(after_line(devices, line), line) == after_line(devices, line),
{
    if let Some((addr, name)) = discovery_of(line) {
        lemma_with_device_idempotent(devices, discovered(addr, name));
    }
}

/// A line that announces a device under its own address as the name never
/// changes the registry.
pub proof fn lemma_address_as_name_is_refused(devices: Seq<DeviceView>, line: Seq<char>)
    requires
        discovery_of(line) matches Some((addr, name)) && address_shaped(name),
    ensures
        !announces_new(devices, line),
        after_line(devices, line) == devices,
{
}

/// Records the device that `line` announces, if it announces one that is
/// taken in. Returns whether the registry grew.
///
/// A device is added if its address is new and its name does not have the
/// shape of an address. Every other line leaves the registry as it was.
pub fn handle_discovery_line(registry: &mut Registry, line: &str) -> (inserted: bool)
    ensures
        inserted == announces_new(old(registry)@, line@),
        final(registry)@ == after_line(old(registry)@, line@),
        distinct_addresses(final(registry)@),
{
    match parse_discovery_line(line) {
        Some((addr, name)) => registry.insert_if_new(Device::discovered(addr, name)),
        None => {
            proof {
                use_type_invariant(&*registry);
            }
            false
        },
    }
}

/// What the loop that reads the tool's output is handed: the next line, or
/// the news that reading failed.
#[derive(Clone, Debug, PartialEq, Eq)]
pub enum OutputEvent {
    Line(String),
    Failed,
}

/// What the loop that reads the tool's output does next.
#[derive(Clone, Copy, Debug, PartialEq, Eq, Structural)]
pub enum ReaderAction {
    /// Read the next line.
    Continue,
    /// Draw the screen, then read the next line.
    Render,
    /// Leave the loop.
    Stop,
}

/// One turn of the loop that reads the tool's output.
///
/// Once the running flag is cleared the loop stops and touches nothing. A
/// failed read clears the flag and stops the loop. A line is handled as
/// [`handle_discovery_line`] says, and the screen is drawn again exactly
/// when the registry grew.
pub fn reader_step(event: &OutputEvent, registry: &mut Registry, running: &mut bool) -> (action:
    ReaderAction)
    ensures
        !*old(running) ==> {
            &&& action == ReaderAction::Stop
            &&& !*final(running)
            &&& final(registry)@ == old(registry)@
        },
        *old(running) ==> match *event {
            OutputEvent::Failed => {
                &&& action == ReaderAction::Stop
                &&& !*final(running)
                &&& final(registry)@ == old(registry)@
            },
            OutputEvent::Line(line) => {
                &&& action == if announces_new(old(registry)@, line@) {
                    ReaderAction::Render
                } else {
                    ReaderAction::Continue
                }
                &&& *final(running)
                &&& final(registry)@ == after_line(old(registry)@, line@)
            },
        },
        distinct_addresses(final(registry)@),
{
    proof {
        use_type_invariant(&*registry);
    }
    if !*running {
        return ReaderAction::Stop;
    }
    match event {
        OutputEvent::Failed => {
            *running = false;
            ReaderAction::Stop
        },
        OutputEvent::Line(line) => {
            if handle_discovery_line(registry, line.as_str()) {
                ReaderAction::Render
            } else {
                ReaderAction::Continue
            }
        },
    }
}

/// The registry after the lines `lines` of an enumeration of paired devices
/// were taken in, first line first: each line that lists a device adds it as
/// paired, unless its address is there already.
pub open spec fn seeded(devices: Seq<DeviceView>, lines: Seq<Seq<char>>) -> Seq<DeviceView>
    decreases lines.len(),
{
    if lines.len() == 0 {
        devices
    } else {
        let before = seeded(devices, lines.drop_last());
        match paired_of(lines.last()) {
            Some((addr, name)) => with_device(before, known(addr, name)),
            None => before,
        }
    }
}

/// Takes the output `listing` of the enumeration of paired devices into the
/// registry. The names are taken as they stand.
pub fn seed_registry(registry: &mut Registry, listing: &str)
    ensures
        final(registry)@ == seeded(old(registry)@, lines_of(listing@)),
        distinct_addresses(final(registry)@),
{
    proof {
        use_type_invariant(&*registry);
    }
    let all = lines(listing);
    let mut k: usize = 0;
    while k < all.len()
        invariant
            k <= all.len(),
            registry@ == seeded(old(registry)@, all.deep_view().take(k as int)),
            distinct_addresses(registry@),
        decreases all.len() - k,
    {
        assert(all.deep_view().take(k + 1).drop_last() =~= all.deep_view().take(k as int));
        if let Some((addr, name)) = parse_paired_line(all[k].as_str()) {
            let _ = registry.insert_unique(Device::known(addr, name));
        }
        k += 1;
    }
    assert(all.deep_view().take(all.len() as int) =~= all.deep_view());
}

/// The columns of a line that announces the device `addr` under a name made
/// of the words `name`, after whatever word the tool printed first.
pub open spec fn announcement_columns(
    prompt: Seq<char>,
    addr: Seq<char>,
    name: Seq<Seq<char>>,
) -> Seq<Seq<char>> {
    seq![prompt, NEW_MARKER@, DEVICE_WORD@, addr] + name
}

/// The columns of a line that lists the paired device `addr` under a name
/// made of the words `name`.
pub open spec fn listing_columns(marker: Seq<char>, addr: Seq<char>, name: Seq<Seq<char>>) -> Seq<
    Seq<char>,
> {
    seq![marker, addr] + name
}

/// A line that announces a device is read as that device, with the words of
/// its name joined by single spaces, whatever white space stands between
/// the columns and at the two ends of the line.
pub proof fn lemma_announcement_is_read(
    lead: Seq<char>,
    prompt: Seq<char>,
    addr: Seq<char>,
    name: Seq<Seq<char>>,
    gaps: Seq<Seq<char>>,
    trail: Seq<char>,
)
    requires
        is_word(prompt),
        is_word(addr),
        name.len() > 0,
        forall|k: int| 0 <= k < name.len() ==> is_word(#[trigger] name[k]),
        forall|k: int| 0 <= k < name.len() + 3 ==> is_gap(#[trigger] gaps[k]),
        forall|i: int| 0 <= i < lead.len() ==> is_blank(#[trigger] lead[i]),
        forall|i: int| 0 <= i < trail.len() ==> is_blank(#[trigger] trail[i]),
    ensures
        discovery_of(lead + spaced(announcement_columns(prompt, addr, name), gaps) + trail) == Some(
            (addr, join_with(name, ' ')),
        ),
{
    reveal_strlit("\u{1b}[0m[\u{1b}[0;92mNEW\u{1b}[0m]");
    reveal_strlit("Device");
    let columns = announcement_columns(prompt, addr, name);
    lemma_words_of_spaced(lead, columns, gaps, trail);
    assert(columns.skip(4) =~= name);
}

/// A line of the enumeration of paired devices is read as the device it
/// lists, with the words of its name joined by single spaces, whatever
/// white space stands between the columns and at the two ends of the line.
pub proof fn lemma_listing_is_read(
    lead: Seq<char>,
    marker: Seq<char>,
    addr: Seq<char>,
    name: Seq<Seq<char>>,
    gaps: Seq<Seq<char>>,
    trail: Seq<char>,
)
    requires
        is_word(marker),
        is_word(addr),
        name.len() > 0,
        forall|k: int| 0 <= k < name.len() ==> is_word(#[trigger] name[k]),
        forall|k: int| 0 <= k < name.len() + 1 ==> is_gap(#[trigger] gaps[k]),
        forall|i: int| 0 <= i < lead.len() ==> is_blank(#[trigger] lead[i]),
        forall|i: int| 0 <= i < trail.len() ==> is_blank(#[trigger] trail[i]),
    ensures
        paired_of(lead + spaced(listing_columns(marker, addr, name), gaps) + trail) == Some(
            (addr, join_with(name, ' ')),
        ),
{
    let columns = listing_columns(marker, addr, name);
    lemma_words_of_spaced(lead, columns, gaps, trail);
    assert(columns.skip(2) =~= name);
}

/// No line is read as a device without an address or without a name: the
/// address of a device that a line announces or lists is a word, and its
/// name is not empty.
pub proof fn lemma_address_is_a_word(line: Seq<char>)
    ensures
        discovery_of(line) matches Some((addr, name)) ==> is_word(addr) && name.len() > 0,
        paired_of(line) matches Some((addr, name)) ==> is_word(addr) && name.len() > 0,
{
    lemma_words_are_words(line);
    let columns = words_of(line);
    if columns.len() > 5 {
        lemma_join_starts_with_first(columns.skip(4));
    }
    if columns.len() >= 3 {
        lemma_join_starts_with_first(columns.skip(2));
    }
}

/// A joined text is at least as long as its first piece.
proof fn lemma_join_starts_with_first(parts: Seq<Seq<char>>)
    requires
        parts.len() > 0,
    ensures
        join_with(parts, ' ').len() >= parts[0].len(),
    decreases parts.len(),
{
    if parts.len() > 1 {
        lemma_join_starts_with_first(parts.drop_last());
    }
}

} // verus!
