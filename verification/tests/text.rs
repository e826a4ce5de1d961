use bluetooth_manager::text::{is_whitespace, join_from, lines, split, text_of, words};

fn strings(items: &[&str]) -> Vec<String> {
    items.iter().map(|s| s.to_string()).collect()
}

#[test]
fn split_gives_the_pieces_between_spaces() {
    assert_eq!(split("pair 0", ' '), strings(&["pair", "0"]));
    assert_eq!(split("a b c", ' '), strings(&["a", "b", "c"]));
}

#[test]
fn split_of_empty_text_is_one_empty_piece() {
    assert_eq!(split("", ' '), strings(&[""]));
}

#[test]
fn split_keeps_empty_pieces() {
    assert_eq!(split(" a  b ", ' '), strings(&["", "a", "", "b", ""]));
    assert_eq!(split("  ", ' '), strings(&["", "", ""]));
}

#[test]
fn split_agrees_with_std_on_samples() {
    for sample in ["", " ", "exit", "pair 12", "a  b", " lead", "trail ", "tab\tis no space"] {
        let expected: Vec<String> = sample.split(' ').map(|s| s.to_string()).collect();
        assert_eq!(split(sample, ' '), expected);
    }
}

#[test]
fn split_handles_characters_beyond_ascii() {
    assert_eq!(split("Jürgen's ♫ box", ' '), strings(&["Jürgen's", "♫", "box"]));
}

#[test]
fn join_from_joins_the_rest() {
    let parts = strings(&["Device", "AA", "My", "Cool", "Speaker"]);
    assert_eq!(join_from(&parts, 2, ' '), "My Cool Speaker");
    assert_eq!(join_from(&parts, 0, '-'), "Device-AA-My-Cool-Speaker");
    assert_eq!(join_from(&parts, 4, ' '), "Speaker");
}

#[test]
fn join_from_at_or_past_the_end_is_empty() {
    let parts = strings(&["a", "b"]);
    assert_eq!(join_from(&parts, 2, ' '), "");
    assert_eq!(join_from(&parts, 3, ' '), "");
    assert_eq!(join_from(&Vec::new(), 0, ' '), "");
}

#[test]
fn join_undoes_split() {
    for sample in ["", " ", "a b", "  a  ", "one two  three"] {
        assert_eq!(join_from(&split(sample, ' '), 0, ' '), sample);
    }
}

#[test]
fn lines_splits_at_line_feeds() {
    assert_eq!(lines("a\nb"), strings(&["a", "b"]));
    assert_eq!(lines("a\nb\n"), strings(&["a", "b"]));
    assert_eq!(lines("a\n\nb"), strings(&["a", "", "b"]));
}

#[test]
fn lines_of_empty_text_are_none() {
    assert_eq!(lines(""), Vec::<String>::new());
    assert_eq!(lines("\n"), strings(&[""]));
}

#[test]
fn lines_drops_the_carriage_return_of_a_line_ending() {
    assert_eq!(lines("a\r\nb\r\n"), strings(&["a", "b"]));
    assert_eq!(lines("a\r\r\nb"), strings(&["a\r", "b"]));
}

#[test]
fn lines_keeps_a_bare_carriage_return() {
    assert_eq!(lines("a\rb\nc\r"), strings(&["a\rb", "c\r"]));
}

#[test]
fn lines_agrees_with_std_on_samples() {
    for sample in ["", "\n", "\r\n", "\r", "x", "x\n", "x\r\n", "x\ny", "x\r\ny\r", "\n\n", "a\n\r\nb"] {
        let expected: Vec<String> = sample.lines().map(|s| s.to_string()).collect();
        assert_eq!(lines(sample), expected);
    }
}

#[test]
fn text_of_spells_the_characters() {
    assert_eq!(text_of(&vec!['p', 'a', 'i', 'r', ' ', '0']), "pair 0");
    assert_eq!(text_of(&Vec::new()), "");
}

#[test]
fn is_whitespace_agrees_with_std_on_every_character() {
    for code in 0..=0x10FFFFu32 {
        if let Some(c) = char::from_u32(code) {
            assert_eq!(is_whitespace(c), c.is_whitespace(), "U+{:04X}", code);
        }
    }
}

#[test]
fn is_whitespace_knows_blank_tab_and_line_ends() {
    for c in [' ', '\t', '\n', '\r', '\u{b}', '\u{c}', '\u{85}', '\u{a0}', '\u{2003}', '\u{3000}'] {
        assert!(is_whitespace(c), "{:?}", c);
    }
    for c in ['a', '-', '\u{1b}', '\u{8}', '\u{e}', '\u{200b}', '\u{feff}'] {
        assert!(!is_whitespace(c), "{:?}", c);
    }
}

#[test]
fn words_are_the_runs_between_white_space() {
    assert_eq!(words("Device AA Headset"), strings(&["Device", "AA", "Headset"]));
    assert_eq!(words("  Device \t AA\r\nHeadset  "), strings(&["Device", "AA", "Headset"]));
    assert_eq!(words("one"), strings(&["one"]));
}

#[test]
fn words_of_empty_or_blank_text_are_none() {
    assert_eq!(words(""), Vec::<String>::new());
    assert_eq!(words(" \t \n"), Vec::<String>::new());
}

#[test]
fn words_agree_with_std_on_samples() {
    for sample in ["", " ", "a", " a", "a ", "a b", "a  b", "\ta\u{a0}b\u{3000}c\n", "x\u{1b}[0m y", "Jürgen's ♫  box"] {
        let expected: Vec<String> = sample.split_whitespace().map(|s| s.to_string()).collect();
        assert_eq!(words(sample), expected, "{:?}", sample);
    }
}

#[test]
fn joined_words_are_read_back() {
    let parts = strings(&["My", "Noise", "Cancelling", "Headphones"]);
    assert_eq!(words(&join_from(&parts, 0, ' ')), parts);
}
