use bluetooth_manager::command::{dispatch, execute, parse_command, parse_index, push_digits, Command};
use bluetooth_manager::device::Device;
use bluetooth_manager::protocol::{make_control_line, push_rescan_lines};
use bluetooth_manager::registry::Registry;

fn strings(items: &[&str]) -> Vec<String> {
    items.iter().map(|s| s.to_string()).collect()
}

fn two_devices() -> Registry {
    let mut registry = Registry::new();
    registry.insert_unique(Device::discovered("AA-BB-CC-DD-EE-FF".to_string(), "Headset".to_string()));
    registry.insert_unique(Device::discovered("11-22-33-44-55-66".to_string(), "Speaker".to_string()));
    registry
}

const RESCAN: [&str; 7] = [
    "scan off\n",
    "agent off\n",
    "power off\n",
    "power on\n",
    "agent on\n",
    "default-agent\n",
    "scan on\n",
];

#[test]
fn parse_index_reads_decimal_digits() {
    assert_eq!(parse_index("0"), Some(0));
    assert_eq!(parse_index("7"), Some(7));
    assert_eq!(parse_index("12"), Some(12));
    assert_eq!(parse_index("007"), Some(7));
    assert_eq!(parse_index("1234567890"), Some(1234567890));
}

#[test]
fn parse_index_allows_one_plus_sign() {
    assert_eq!(parse_index("+5"), Some(5));
    assert_eq!(parse_index("+"), None);
    assert_eq!(parse_index("++5"), None);
    assert_eq!(parse_index("5+"), None);
}

#[test]
fn parse_index_refuses_what_is_no_number() {
    for token in ["", " ", "-1", "-0", "1 ", " 1", "1.0", "x", "1x", "0x10", "1_000", "٣"] {
        assert_eq!(parse_index(token), None, "{:?}", token);
    }
}

#[test]
fn parse_index_reads_the_largest_position_and_no_larger() {
    assert_eq!(parse_index(&usize::MAX.to_string()), Some(usize::MAX));
    assert_eq!(parse_index(&format!("{}0", usize::MAX)), None);
    assert_eq!(parse_index("340282366920938463463374607431768211456"), None);
    let next = (usize::MAX as u128 + 1).to_string();
    assert_eq!(parse_index(&next), None);
}

#[test]
fn parse_index_agrees_with_std_on_samples() {
    for token in ["", "+", "-", "0", "+0", "-0", "42", "+42", "0042", "4 2", "18446744073709551615", "18446744073709551616", "99999999999999999999"] {
        assert_eq!(parse_index(token), token.parse::<usize>().ok(), "{:?}", token);
    }
}

#[test]
fn push_digits_writes_decimal() {
    for (n, expected) in [(0usize, "0"), (7, "7"), (10, "10"), (305, "305"), (usize::MAX, &usize::MAX.to_string())] {
        let mut text = String::from("#");
        push_digits(&mut text, n);
        assert_eq!(text, format!("#{}", expected));
    }
}

#[test]
fn written_positions_are_read_back() {
    for n in [0usize, 1, 9, 10, 99, 100, 65535, usize::MAX] {
        let mut text = String::new();
        push_digits(&mut text, n);
        assert_eq!(parse_index(&text), Some(n));
    }
}

#[test]
fn parse_command_knows_the_four_commands() {
    assert_eq!(parse_command("exit"), Some(Command::Exit));
    assert_eq!(parse_command("pair 0"), Some(Command::Pair(0)));
    assert_eq!(parse_command("connect 12"), Some(Command::Connect(12)));
    assert_eq!(parse_command("remove 3"), Some(Command::Remove(3)));
}

#[test]
fn parse_command_drops_everything_else() {
    for text in [
        "", " ", "quit", "Exit", "exit ", " exit", "exit 0", "pair", "pair x", "pair -1", "pair 0 1",
        "pair  0", "pair 0 ", "scan 0", "connect", "remove 1.5",
    ] {
        assert_eq!(parse_command(text), None, "{:?}", text);
    }
}

#[test]
fn control_line_is_verb_address_and_line_feed() {
    assert_eq!(make_control_line("pair", "AA-BB-CC-DD-EE-FF"), "pair AA-BB-CC-DD-EE-FF\n");
    assert_eq!(make_control_line("remove", ""), "remove \n");
}

#[test]
fn rescan_lines_follow_what_is_there() {
    let mut lines = strings(&["first\n"]);
    push_rescan_lines(&mut lines);
    let mut expected = strings(&["first\n"]);
    expected.extend(strings(&RESCAN));
    assert_eq!(lines, expected);
}

#[test]
fn pair_in_range_sets_paired_and_writes_one_line() {
    let mut registry = two_devices();
    let mut running = true;
    let lines = dispatch("pair 1", &mut registry, &mut running);
    assert_eq!(lines, strings(&["pair 11-22-33-44-55-66\n"]));
    assert!(registry.get(1).unwrap().paired);
    assert!(!registry.get(1).unwrap().connected);
    assert!(!registry.get(0).unwrap().paired);
    assert!(running);
}

#[test]
fn pair_out_of_range_or_not_a_number_does_nothing() {
    for text in ["pair 2", "pair 99", "pair x", "pair -1", "pair", "pair 0 0"] {
        let mut registry = two_devices();
        let mut running = true;
        let lines = dispatch(text, &mut registry, &mut running);
        assert!(lines.is_empty(), "{:?}", text);
        assert_eq!(registry.devices(), two_devices().devices(), "{:?}", text);
        assert!(running);
    }
}

#[test]
fn connect_in_range_sets_connected_and_writes_one_line() {
    let mut registry = two_devices();
    let mut running = true;
    let lines = dispatch("connect 0", &mut registry, &mut running);
    assert_eq!(lines, strings(&["connect AA-BB-CC-DD-EE-FF\n"]));
    assert!(registry.get(0).unwrap().connected);
    assert!(!registry.get(0).unwrap().paired);
    assert!(!registry.get(1).unwrap().connected);
}

#[test]
fn connect_out_of_range_does_nothing() {
    let mut registry = two_devices();
    let mut running = true;
    assert!(dispatch("connect 2", &mut registry, &mut running).is_empty());
    assert_eq!(registry.devices(), two_devices().devices());
}

#[test]
fn remove_in_range_clears_the_registry_and_rescans() {
    let mut registry = two_devices();
    registry.insert_unique(Device::known("77".to_string(), "Third".to_string()));
    let mut running = true;
    let lines = dispatch("remove 0", &mut registry, &mut running);
    let mut expected = strings(&["remove AA-BB-CC-DD-EE-FF\n"]);
    expected.extend(strings(&RESCAN));
    assert_eq!(lines, expected);
    assert_eq!(registry.len(), 0);
    assert!(running);
}

#[test]
fn remove_of_the_only_device_clears_the_registry() {
    let mut registry = Registry::new();
    registry.insert_unique(Device::discovered("AA".to_string(), "Only".to_string()));
    let mut running = true;
    let lines = dispatch("remove 0", &mut registry, &mut running);
    assert_eq!(lines.len(), 8);
    assert_eq!(lines[0], "remove AA\n");
    assert_eq!(registry.len(), 0);
}

#[test]
fn remove_out_of_range_does_nothing() {
    let mut registry = two_devices();
    let mut running = true;
    assert!(dispatch("remove 2", &mut registry, &mut running).is_empty());
    assert_eq!(registry.len(), 2);
}

#[test]
fn exit_clears_the_running_flag_and_writes_nothing() {
    let mut registry = two_devices();
    let mut running = true;
    assert!(dispatch("exit", &mut registry, &mut running).is_empty());
    assert!(!running);
    assert_eq!(registry.len(), 2);
}

#[test]
fn unknown_line_is_dropped() {
    let mut registry = two_devices();
    let mut running = true;
    for text in ["", "help", "exit now", "pair one"] {
        assert!(dispatch(text, &mut registry, &mut running).is_empty());
    }
    assert!(running);
    assert_eq!(registry.devices(), two_devices().devices());
}

#[test]
fn execute_without_a_command_does_nothing() {
    let mut registry = two_devices();
    let mut running = true;
    assert!(execute(None, &mut registry, &mut running).is_empty());
    assert!(running);
    assert_eq!(registry.len(), 2);
}

#[test]
fn execute_carries_out_a_command() {
    let mut registry = two_devices();
    let mut running = true;
    let lines = execute(Some(Command::Pair(0)), &mut registry, &mut running);
    assert_eq!(lines, strings(&["pair AA-BB-CC-DD-EE-FF\n"]));
    assert!(registry.get(0).unwrap().paired);
    assert!(execute(Some(Command::Pair(usize::MAX)), &mut registry, &mut running).is_empty());
}
