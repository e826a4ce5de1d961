//! The operator's command language and what each command does.
//!
//! A submitted line is split at its spaces. `exit` takes no argument; `pair`,
//! `connect` and `remove` take the position of a device in the registry.
//! Anything else is dropped without a word.

use vstd::prelude::*;
use vstd::string::*;
use crate::device::DeviceView;
use crate::protocol::{control_line, make_control_line, push_rescan_lines, rescan_sequence};
use crate::registry::{with_flags_at, Registry};
use crate::text::{
    free_of, lemma_join_split, lemma_split_around, lemma_split_nonempty, lemma_split_pieces_free,
    lemma_split_single, split, split_on,
};

verus! {

broadcast use vstd::string::group_string_axioms;

/// Whether `c` is one of the ten decimal digits.
pub open spec fn is_digit(c: char) -> bool {
    '0' <= c <= '9'
}

/// The number that the digit `c` stands for.
pub open spec fn digit_value(c: char) -> nat {
    (c as nat - '0' as nat) as nat
}

/// Whether `s` holds decimal digits only.
pub open spec fn all_digits(s: Seq<char>) -> bool {
    forall|i: int| 0 <= i < s.len() ==> is_digit(#[trigger] s[i])
}

/// The number that the decimal digits `digits` write.
pub open spec fn decimal_value(digits: Seq<char>) -> nat
    decreases digits.len(),
{
    if digits.len() == 0 {
        0
    } else {
        decimal_value(digits.drop_last()) * 10 + digit_value(digits.last())
    }
}

/// `token` without a plus sign at its front.
pub open spec fn unsigned_part(token: Seq<char>) -> Seq<char> {
    if token.len() > 0 && token[0] == '+' {
        token.skip(1)
    } else {
        token
    }
}

/// The position that `token` names: one or more decimal digits, with at most
/// one plus sign before them, whose number fits a `usize`.
pub open spec fn index_of(token: Seq<char>) -> Option<usize> {
    let digits = unsigned_part(token);
    if digits.len() > 0 && all_digits(digits) && decimal_value(digits) <= usize::MAX {
        Some(decimal_value(digits) as usize)
    } else {
        None
    }
}

/// The digit that stands for `d`, a number below ten.
pub open spec fn digit_char(d: nat) -> char {
    (('0' as u8) + (d as u8)) as char
}

/// The decimal digits that write `n`, without leading zeros.
pub open spec fn digits_of(n: nat) -> Seq<char>
    decreases n,
{
    if n < 10 {
        seq![digit_char(n)]
    } else {
        digits_of(n / 10).push(digit_char(n % 10))
    }
}

/// A position that is written out with [`digits_of`] is read back by
/// [`index_of`] as the same position: what the screen shows can be typed.
pub proof fn lemma_digits_read_back(n: nat)
    ensures
        digits_of(n).len() > 0,
        all_digits(digits_of(n)),
        decimal_value(digits_of(n)) == n,
        n <= usize::MAX ==> index_of(digits_of(n)) == Some(n as usize),
    decreases n,
{
    let digits = digits_of(n);
    if n < 10 {
        assert(decimal_value(digits.drop_last()) == 0);
    } else {
        lemma_digits_read_back(n / 10);
        assert(digits.drop_last() =~= digits_of(n / 10));
    }
}

/// Appends the decimal digits of `n` to `text`.
pub fn push_digits(text: &mut String, n: usize)
    ensures
        final(text)@ == old(text)@ + digits_of(n as nat),
    decreases n,
{
    if n >= 10 {
        push_digits(text, n / 10);
    }
    let digit: u8 = (n % 10) as u8;
    text.push((48u8 + digit) as char);
}

/// More digits never write a smaller number.
pub proof fn lemma_decimal_value_grows(digits: Seq<char>, k: int)
    requires
        0 <= k <= digits.len(),
    ensures
        decimal_value(digits.take(k)) <= decimal_value(digits),
    decreases digits.len(),
{
    if k == digits.len() {
        assert(digits.take(k) =~= digits);
    } else {
        lemma_decimal_value_grows(digits.drop_last(), k);
        assert(digits.drop_last().take(k) =~= digits.take(k));
    }
}

/// Reads `token` as a position in the registry.
pub fn parse_index(token: &str) -> (index: Option<usize>)
    ensures
        index == index_of(token@),
{
    let mut value: usize = 0;
    let mut any: bool = false;
    let mut first: bool = true;
    for c in it: token.chars()
        invariant
            it.seq() == token@,
            first == (it.index() == 0),
            all_digits(unsigned_part(token@.take(it.index()))),
            value == decimal_value(unsigned_part(token@.take(it.index()))),
            any == (unsigned_part(token@.take(it.index())).len() > 0),
    {
        let ghost seen = token@.take(it.index());
        let ghost next = token@.take(it.index() + 1);
        let ghost at = it.index();
        if !(first && c == '+') {
            proof {
                assert(unsigned_part(next) =~= unsigned_part(seen).push(c));
                assert(unsigned_part(next).drop_last() =~= unsigned_part(seen));
                if token@[0] == '+' {
                    assert(unsigned_part(token@)[at - 1] == c);
                }
            }
            if !(c >= '0' && c <= '9') {
                return None;
            }
            let digit: usize = (c as u32 - '0' as u32) as usize;
            proof {
                let rest = unsigned_part(token@);
                let upto = if token@[0] == '+' { at } else { at + 1 };
                assert(rest.take(upto) =~= unsigned_part(next));
                if all_digits(rest) {
                    lemma_decimal_value_grows(rest, upto);
                }
            }
            let scaled = match value.checked_mul(10) {
                Some(scaled) => scaled,
                None => { return None; },
            };
            value = match scaled.checked_add(digit) {
                Some(sum) => sum,
                None => { return None; },
            };
            any = true;
        }
        first = false;
    }
    assert(token@.take(token@.len() as int) =~= token@);
    if any {
        Some(value)
    } else {
        None
    }
}

/// What the operator can ask for.
#[derive(Clone, Copy, Debug, PartialEq, Eq, Structural)]
pub enum Command {
    /// End the session.
    Exit,
    /// Pair with the device at this position.
    Pair(usize),
    /// Connect to the device at this position.
    Connect(usize),
    /// Forget the device at this position and start discovery afresh.
    Remove(usize),
}

/// The command that the submitted line `text` holds, if it holds one.
pub open spec fn command_of(text: Seq<char>) -> Option<Command> {
    let words = split_on(text, ' ');
    if words.len() == 1 {
        if words[0] == "exit"@ {
            Some(Command::Exit)
        } else {
            None
        }
    } else if words.len() == 2 {
        match index_of(words[1]) {
            Some(index) => {
                if words[0] == "pair"@ {
                    Some(Command::Pair(index))
                } else if words[0] == "connect"@ {
                    Some(Command::Connect(index))
                } else if words[0] == "remove"@ {
                    Some(Command::Remove(index))
                } else {
                    None
                }
            },
            None => None,
        }
    } else {
        None
    }
}

/// Reads a submitted line as a command.
pub fn parse_command(text: &str) -> (command: Option<Command>)
    ensures
        command == command_of(text@),
{
    let words = split(text, ' ');
    if words.len() == 1 {
        if words[0] == String::from_str("exit") {
            Some(Command::Exit)
        } else {
            None
        }
    } else if words.len() == 2 {
        match parse_index(words[1].as_str()) {
            Some(index) => {
                if words[0] == String::from_str("pair") {
                    Some(Command::Pair(index))
                } else if words[0] == String::from_str("connect") {
                    Some(Command::Connect(index))
                } else if words[0] == String::from_str("remove") {
                    Some(Command::Remove(index))
                } else {
                    None
                }
            },
            None => None,
        }
    } else {
        None
    }
}

/// What a submitted line leaves behind: the registry, the running flag, and
/// the control lines to write, in order.
pub struct Effect {
    pub devices: Seq<DeviceView>,
    pub running: bool,
    pub lines: Seq<Seq<char>>,
}

/// The effect that changes nothing and writes nothing.
pub open spec fn no_effect(devices: Seq<DeviceView>, running: bool) -> Effect {
    Effect { devices, running, lines: Seq::empty() }
}

/// The effect of `command` on a session with the registry `devices`.
///
/// `exit` clears the running flag. The other three name a device by its
/// position and do nothing where the registry has no such position. `pair`
/// and `connect` write one control line and set the flag they stand for.
/// `remove` writes its control line and the rescan sequence, and empties the
/// whole registry.
pub open spec fn effect_of(command: Option<Command>, devices: Seq<DeviceView>, running: bool) -> Effect {
    match command {
        Some(Command::Exit) => Effect { devices, running: false, lines: Seq::empty() },
        Some(Command::Pair(index)) => if index < devices.len() {
            Effect {
                devices: with_flags_at(devices, index as int, Some(true), None),
                running,
                lines: seq![control_line("pair"@, devices[index as int].addr)],
            }
        } else {
            no_effect(devices, running)
        },
        Some(Command::Connect(index)) => if index < devices.len() {
            Effect {
                devices: with_flags_at(devices, index as int, None, Some(true)),
                running,
                lines: seq![control_line("connect"@, devices[index as int].addr)],
            }
        } else {
            no_effect(devices, running)
        },
        Some(Command::Remove(index)) => if index < devices.len() {
            Effect {
                devices: Seq::empty(),
                running,
                lines: seq![control_line("remove"@, devices[index as int].addr)] + rescan_sequence(),
            }
        } else {
            no_effect(devices, running)
        },
        None => no_effect(devices, running),
    }
}

/// Carries out `command` on the registry and the running flag and returns
/// the control lines to write, in order.
pub fn execute(command: Option<Command>, registry: &mut Registry, running: &mut bool) -> (lines: Vec<
    String,
>)
    ensures
        effect_of(command, old(registry)@, *old(running)) == (Effect {
            devices: final(registry)@,
            running: *final(running),
            lines: lines.deep_view(),
        }),
{
    let mut lines: Vec<String> = Vec::new();
    assert(lines.deep_view() =~= Seq::<Seq<char>>::empty());
    match command {
        Some(Command::Exit) => {
            *running = false;
        },
        Some(Command::Pair(index)) => {
            if let Some(device) = registry.get(index) {
                lines.push(make_control_line("pair", device.addr.as_str()));
                registry.set_flags(index, Some(true), None);
                assert(lines.deep_view() =~= seq![control_line("pair"@, old(registry)@[index as int].addr)]);
            }
        },
        Some(Command::Connect(index)) => {
            if let Some(device) = registry.get(index) {
                lines.push(make_control_line("connect", device.addr.as_str()));
                registry.set_flags(index, None, Some(true));
                assert(lines.deep_view() =~= seq![
                    control_line("connect"@, old(registry)@[index as int].addr),
                ]);
            }
        },
        Some(Command::Remove(index)) => {
            if let Some(device) = registry.get(index) {
                lines.push(make_control_line("remove", device.addr.as_str()));
                assert(lines.deep_view() =~= seq![
                    control_line("remove"@, old(registry)@[index as int].addr),
                ]);
                registry.set_flags(index, Some(false), Some(false));
                registry.clear();
                push_rescan_lines(&mut lines);
            }
        },
        None => {},
    }
    lines
}

/// Reads the submitted line `text` and carries out the command it holds.
/// A line that holds none changes nothing and writes nothing.
pub fn dispatch(text: &str, registry: &mut Registry, running: &mut bool) -> (lines: Vec<String>)
    ensures
        effect_of(command_of(text@), old(registry)@, *old(running)) == (Effect {
            devices: final(registry)@,
            running: *final(running),
            lines: lines.deep_view(),
        }),
{
    let command = parse_command(text);
    execute(command, registry, running)
}

/// A submitted line of a verb, a space and `token` splits into the two, as
/// long as `token` holds no space; otherwise into more than two pieces.
proof fn lemma_two_words(verb: Seq<char>, token: Seq<char>)
    requires
        free_of(verb, ' '),
    ensures
        free_of(token, ' ') ==> split_on(verb.push(' ') + token, ' ') == seq![verb, token],
        !free_of(token, ' ') ==> split_on(verb.push(' ') + token, ' ').len() > 2,
        !free_of(token, ' ') ==> index_of(token) is None,
{
    lemma_split_single(verb, ' ');
    lemma_split_around(verb, token, ' ');
    lemma_split_nonempty(token, ' ');
    if free_of(token, ' ') {
        lemma_split_single(token, ' ');
    } else {
        if split_on(token, ' ').len() == 1 {
            lemma_join_split(token, ' ');
            lemma_split_pieces_free(token, ' ');
        }
        let at = choose|i: int| 0 <= i < token.len() && token[i] == ' ';
        if token[0] == '+' {
            assert(token.skip(1)[at - 1] == ' ');
        }
    }
}

/// `pair` with a position that the registry has marks that one device as
/// paired and writes the one line that names its address. With any other
/// argument nothing changes and nothing is written.
pub proof fn lemma_pair(devices: Seq<DeviceView>, running: bool, token: Seq<char>)
    ensures
        ({
            let effect = effect_of(command_of("pair"@.push(' ') + token), devices, running);
            match index_of(token) {
                Some(index) => if index < devices.len() {
                    &&& effect.running == running
                    &&& effect.lines == seq![control_line("pair"@, devices[index as int].addr)]
                    &&& effect.devices == devices.update(
                        index as int,
                        DeviceView { paired: true, ..devices[index as int] },
                    )
                } else {
                    effect == no_effect(devices, running)
                },
                None => effect == no_effect(devices, running),
            }
        }),
{
    reveal_strlit("pair");
    lemma_two_words("pair"@, token);
}

/// `connect` with a position that the registry has marks that one device as
/// connected and writes the one line that names its address. With any other
/// argument nothing changes and nothing is written.
pub proof fn lemma_connect(devices: Seq<DeviceView>, running: bool, token: Seq<char>)
    ensures
        ({
            let effect = effect_of(command_of("connect"@.push(' ') + token), devices, running);
            match index_of(token) {
                Some(index) => if index < devices.len() {
                    &&& effect.running == running
                    &&& effect.lines == seq![control_line("connect"@, devices[index as int].addr)]
                    &&& effect.devices == devices.update(
                        index as int,
                        DeviceView { connected: true, ..devices[index as int] },
                    )
                } else {
                    effect == no_effect(devices, running)
                },
                None => effect == no_effect(devices, running),
            }
        }),
{
    reveal_strlit("pair");
    reveal_strlit("connect");
    lemma_two_words("connect"@, token);
}

/// `remove` with a position that the registry has empties the registry,
/// however many devices it held, and writes the line that names the address
/// and then the whole rescan sequence. With any other argument nothing
/// changes and nothing is written.
pub proof fn lemma_remove(devices: Seq<DeviceView>, running: bool, token: Seq<char>)
    ensures
        ({
            let effect = effect_of(command_of("remove"@.push(' ') + token), devices, running);
            match index_of(token) {
                Some(index) => if index < devices.len() {
                    &&& effect.running == running
                    &&& effect.lines == seq![control_line("remove"@, devices[index as int].addr)]
                        + rescan_sequence()
                    &&& effect.devices.len() == 0
                } else {
                    effect == no_effect(devices, running)
                },
                None => effect == no_effect(devices, running),
            }
        }),
{
    reveal_strlit("pair");
    reveal_strlit("connect");
    reveal_strlit("remove");
    lemma_two_words("remove"@, token);
}

} // verus!
