use bluetooth_manager::device::Device;
use bluetooth_manager::discovery::{
    fold_name, handle_discovery_line, parse_discovery_line, parse_paired_line, reader_step,
    seed_registry, OutputEvent, ReaderAction, DEVICE_WORD, NEW_MARKER,
};
use bluetooth_manager::registry::Registry;

fn announce(addr: &str, name: &str) -> String {
    format!("[bluetooth]# {} Device {} {}", NEW_MARKER, addr, name)
}

fn strings(items: &[&str]) -> Vec<String> {
    items.iter().map(|s| s.to_string()).collect()
}

#[test]
fn new_marker_is_the_coloured_word() {
    assert_eq!(
        NEW_MARKER.as_bytes(),
        [
            0x1b, 0x5b, 0x30, 0x6d, 0x5b, 0x1b, 0x5b, 0x30, 0x3b, 0x39, 0x32, 0x6d, 0x4e, 0x45, 0x57,
            0x1b, 0x5b, 0x30, 0x6d, 0x5d
        ]
    );
    assert_eq!(DEVICE_WORD, "Device");
}

#[test]
fn fold_name_leaves_five_columns_alone() {
    let mut columns = strings(&["a", "b", "c", "d", "e"]);
    fold_name(&mut columns);
    assert_eq!(columns, strings(&["a", "b", "c", "d", "e"]));
    let mut short = strings(&["a", "b"]);
    fold_name(&mut short);
    assert_eq!(short, strings(&["a", "b"]));
}

#[test]
fn fold_name_joins_everything_from_the_fifth_column() {
    let mut columns = strings(&["p", "m", "Device", "addr", "My", "Noise", "Cancelling", "Headphones"]);
    fold_name(&mut columns);
    assert_eq!(columns, strings(&["p", "m", "Device", "addr", "My Noise Cancelling Headphones"]));
}

#[test]
fn runs_of_white_space_between_columns_give_no_empty_column() {
    let line = format!("#\t{}  Device \t AA:BB:CC:DD:EE:FF   My  Noise\tCancelling Headphones ", NEW_MARKER);
    assert_eq!(
        parse_discovery_line(&line),
        Some(("AA:BB:CC:DD:EE:FF".to_string(), "My Noise Cancelling Headphones".to_string()))
    );
}

#[test]
fn two_blanks_before_the_address_leave_address_and_name_in_place() {
    let mut registry = Registry::new();
    let mut running = true;
    let line = OutputEvent::Line(
        "# \u{1b}[0m[\u{1b}[0;92mNEW\u{1b}[0m] Device  AA:BB:CC:DD:EE:FF Headset".to_string(),
    );
    assert_eq!(reader_step(&line, &mut registry, &mut running), ReaderAction::Render);
    assert_eq!(registry.len(), 1);
    assert_eq!(registry.get(0).unwrap().addr, "AA:BB:CC:DD:EE:FF");
    assert_eq!(registry.get(0).unwrap().name, "Headset");
}

#[test]
fn four_words_are_no_discovery_however_they_are_spaced() {
    let line = format!("#  {} Device  AA:BB:CC:DD:EE:FF ", NEW_MARKER);
    assert_eq!(parse_discovery_line(&line), None);
    let mut registry = Registry::new();
    assert!(!handle_discovery_line(&mut registry, &line));
    assert_eq!(registry.len(), 0);
}

#[test]
fn address_as_name_is_refused_however_the_line_is_spaced() {
    let mut registry = Registry::new();
    let line = format!("#  {}\tDevice   AA:BB:CC:DD:EE:FF  AA-BB-CC-DD-EE-FF", NEW_MARKER);
    assert!(!handle_discovery_line(&mut registry, &line));
    assert_eq!(registry.len(), 0);
}

#[test]
fn discovery_line_gives_address_and_name() {
    assert_eq!(
        parse_discovery_line(&announce("AA:BB:CC:DD:EE:FF", "Headset")),
        Some(("AA:BB:CC:DD:EE:FF".to_string(), "Headset".to_string()))
    );
}

#[test]
fn discovery_line_with_spaces_in_the_name_folds_into_one_name() {
    let line = announce("AA:BB:CC:DD:EE:FF", "My Noise Cancelling Headphones");
    assert_eq!(line.split(' ').count(), 8);
    assert_eq!(
        parse_discovery_line(&line),
        Some(("AA:BB:CC:DD:EE:FF".to_string(), "My Noise Cancelling Headphones".to_string()))
    );
}

#[test]
fn discovery_line_needs_the_marker() {
    assert_eq!(parse_discovery_line("[bluetooth]# [NEW] Device AA:BB:CC:DD:EE:FF Headset"), None);
    assert_eq!(
        parse_discovery_line("[bluetooth]# \u{1b}[0m[\u{1b}[0;93mCHG\u{1b}[0m] Device AA:BB:CC:DD:EE:FF Headset"),
        None
    );
}

#[test]
fn discovery_line_needs_the_device_word() {
    let line = format!("[bluetooth]# {} Controller AA:BB:CC:DD:EE:FF Headset", NEW_MARKER);
    assert_eq!(parse_discovery_line(&line), None);
}

#[test]
fn discovery_line_needs_five_columns() {
    assert_eq!(parse_discovery_line(""), None);
    assert_eq!(parse_discovery_line("one two"), None);
    let short = format!("[bluetooth]# {} Device AA:BB:CC:DD:EE:FF", NEW_MARKER);
    assert_eq!(parse_discovery_line(&short), None);
}

#[test]
fn discovery_line_with_shifted_columns_is_ignored() {
    let line = format!("{} Device AA:BB:CC:DD:EE:FF Headset now", NEW_MARKER);
    assert_eq!(parse_discovery_line(&line), None);
}

#[test]
fn paired_line_gives_address_and_whole_name() {
    assert_eq!(
        parse_paired_line("Device 11:22:33:44:55:66 My Cool Speaker"),
        Some(("11:22:33:44:55:66".to_string(), "My Cool Speaker".to_string()))
    );
    assert_eq!(
        parse_paired_line("Device 11:22:33:44:55:66 Speaker"),
        Some(("11:22:33:44:55:66".to_string(), "Speaker".to_string()))
    );
}

#[test]
fn paired_line_joins_the_words_of_the_name_with_single_spaces() {
    assert_eq!(
        parse_paired_line("Device 11:22:33:44:55:66 My  Speaker "),
        Some(("11:22:33:44:55:66".to_string(), "My Speaker".to_string()))
    );
    assert_eq!(
        parse_paired_line("  Device\t11:22:33:44:55:66\tMy\tCool   Speaker"),
        Some(("11:22:33:44:55:66".to_string(), "My Cool Speaker".to_string()))
    );
}

#[test]
fn paired_line_of_two_words_lists_nothing_however_it_is_spaced() {
    assert_eq!(parse_paired_line("Device  11:22:33:44:55:66 "), None);
    assert_eq!(parse_paired_line("   "), None);
}

#[test]
fn paired_line_needs_three_columns() {
    assert_eq!(parse_paired_line(""), None);
    assert_eq!(parse_paired_line("Device 11:22:33:44:55:66"), None);
}

#[test]
fn handled_line_adds_the_device() {
    let mut registry = Registry::new();
    assert!(handle_discovery_line(&mut registry, &announce("AA:BB:CC:DD:EE:FF", "Headset")));
    assert_eq!(
        registry.get(0),
        Some(&Device::discovered("AA:BB:CC:DD:EE:FF".to_string(), "Headset".to_string()))
    );
}

#[test]
fn repeated_discovery_leaves_one_entry_per_address() {
    let mut registry = Registry::new();
    let lines = [
        announce("AA:BB:CC:DD:EE:FF", "Headset"),
        announce("11:22:33:44:55:66", "Speaker"),
        announce("AA:BB:CC:DD:EE:FF", "Headset"),
        announce("AA:BB:CC:DD:EE:FF", "Another Name"),
        announce("11:22:33:44:55:66", "Speaker"),
    ];
    let inserted: Vec<bool> = lines.iter().map(|l| handle_discovery_line(&mut registry, l)).collect();
    assert_eq!(inserted, vec![true, true, false, false, false]);
    assert_eq!(registry.len(), 2);
    assert_eq!(registry.get(0).unwrap().name, "Headset");
    assert_eq!(registry.get(1).unwrap().name, "Speaker");
}

#[test]
fn discovery_with_address_as_name_is_never_inserted() {
    let mut registry = Registry::new();
    assert!(!handle_discovery_line(&mut registry, &announce("AA:BB:CC:DD:EE:FF", "AA-BB-CC-DD-EE-FF")));
    assert_eq!(registry.len(), 0);
    assert!(handle_discovery_line(&mut registry, &announce("AA:BB:CC:DD:EE:FF", "Headset")));
    assert_eq!(registry.len(), 1);
}

#[test]
fn unmatched_line_changes_nothing() {
    let mut registry = Registry::new();
    assert!(!handle_discovery_line(&mut registry, "Agent registered"));
    assert!(!handle_discovery_line(&mut registry, ""));
    assert_eq!(registry.len(), 0);
}

#[test]
fn reader_renders_after_an_insert_only() {
    let mut registry = Registry::new();
    let mut running = true;
    let line = OutputEvent::Line(announce("AA:BB:CC:DD:EE:FF", "Headset"));
    assert_eq!(reader_step(&line, &mut registry, &mut running), ReaderAction::Render);
    assert_eq!(reader_step(&line, &mut registry, &mut running), ReaderAction::Continue);
    let noise = OutputEvent::Line("Discovery started".to_string());
    assert_eq!(reader_step(&noise, &mut registry, &mut running), ReaderAction::Continue);
    assert!(running);
    assert_eq!(registry.len(), 1);
}

#[test]
fn reader_stops_the_session_on_a_failed_read() {
    let mut registry = Registry::new();
    let mut running = true;
    assert_eq!(reader_step(&OutputEvent::Failed, &mut registry, &mut running), ReaderAction::Stop);
    assert!(!running);
}

#[test]
fn reader_stops_once_the_session_has_ended() {
    let mut registry = Registry::new();
    let mut running = false;
    let line = OutputEvent::Line(announce("AA:BB:CC:DD:EE:FF", "Headset"));
    assert_eq!(reader_step(&line, &mut registry, &mut running), ReaderAction::Stop);
    assert!(!running);
    assert_eq!(registry.len(), 0);
}

#[test]
fn seeding_takes_every_listed_device_as_paired() {
    let mut registry = Registry::new();
    seed_registry(
        &mut registry,
        "Device 11:22:33:44:55:66 My Cool Speaker\nDevice AA:BB:CC:DD:EE:FF Headset\n",
    );
    assert_eq!(registry.len(), 2);
    assert_eq!(
        registry.get(0),
        Some(&Device::known("11:22:33:44:55:66".to_string(), "My Cool Speaker".to_string()))
    );
    assert_eq!(
        registry.get(1),
        Some(&Device::known("AA:BB:CC:DD:EE:FF".to_string(), "Headset".to_string()))
    );
}

#[test]
fn seeding_applies_no_name_filter() {
    let mut registry = Registry::new();
    seed_registry(&mut registry, "Device AA:BB:CC:DD:EE:FF AA-BB-CC-DD-EE-FF\n");
    assert_eq!(registry.len(), 1);
    assert_eq!(registry.get(0).unwrap().name, "AA-BB-CC-DD-EE-FF");
    assert!(registry.get(0).unwrap().paired);
}

#[test]
fn seeding_skips_short_lines_and_repeated_addresses() {
    let mut registry = Registry::new();
    seed_registry(
        &mut registry,
        "\nNo default controller\nDevice A One\r\nDevice A Again\nDevice B Two",
    );
    let listed: Vec<(&str, &str)> =
        registry.devices().iter().map(|d| (d.addr.as_str(), d.name.as_str())).collect();
    assert_eq!(listed, vec![("default", "controller"), ("A", "One"), ("B", "Two")]);
}

#[test]
fn seeding_from_empty_output_adds_nothing() {
    let mut registry = Registry::new();
    seed_registry(&mut registry, "");
    assert_eq!(registry.len(), 0);
}

#[test]
fn discovery_after_seeding_does_not_repeat_a_paired_device() {
    let mut registry = Registry::new();
    seed_registry(&mut registry, "Device AA:BB:CC:DD:EE:FF Headset\n");
    assert!(!handle_discovery_line(&mut registry, &announce("AA:BB:CC:DD:EE:FF", "Headset")));
    assert_eq!(registry.len(), 1);
    assert!(registry.get(0).unwrap().paired);
}
