use twoinone::text::{
    contains_char, find_first, index_of_char_from, matches_at, replace_first_in, same_text,
    slice_text, starts_with,
};

#[test]
fn matches_at_finds_needle_at_offset() {
    assert!(matches_at("/sys/bus/usb", "bus", 5));
    assert!(!matches_at("/sys/bus/usb", "bus", 4));
    assert!(matches_at("abc", "", 3));
}

#[test]
fn matches_at_rejects_offsets_past_the_end() {
    assert!(!matches_at("abc", "c", 3));
    assert!(!matches_at("abc", "", 4));
    assert!(!matches_at("abc", "abcd", 0));
}

#[test]
fn same_text_compares_every_character() {
    assert!(same_text("tablet", "tablet"));
    assert!(!same_text("tablet", "Tablet"));
    assert!(!same_text("tablet", "tablets"));
    assert!(same_text("", ""));
}

#[test]
fn starts_with_checks_the_prefix() {
    assert!(starts_with("sudo reboot", "sudo "));
    assert!(!starts_with("sudoku", "sudo "));
    assert!(starts_with("x", ""));
}

#[test]
fn contains_char_looks_at_all_positions() {
    assert!(contains_char("usb*", '*'));
    assert!(contains_char("*usb", '*'));
    assert!(!contains_char("usb", '*'));
    assert!(!contains_char("", '*'));
}

#[test]
fn index_of_char_from_returns_next_or_length() {
    assert_eq!(index_of_char_from("/sys/bus", '/', 0), 0);
    assert_eq!(index_of_char_from("/sys/bus", '/', 1), 4);
    assert_eq!(index_of_char_from("/sys/bus", '/', 5), 8);
    assert_eq!(index_of_char_from("/sys/bus", '/', 8), 8);
}

#[test]
fn slice_text_counts_characters_not_bytes() {
    assert_eq!(slice_text("häßlich", 1, 3), "äß");
    assert_eq!(slice_text("abc", 1, 1), "");
}

#[test]
fn find_first_returns_the_leftmost_occurrence() {
    assert_eq!(find_first("a*b*c", "*"), Some(1));
    assert_eq!(find_first("abcabc", "bc"), Some(1));
    assert_eq!(find_first("abc", "abc"), Some(0));
    assert_eq!(find_first("abc", "d"), None);
    assert_eq!(find_first("ab", "abc"), None);
    assert_eq!(find_first("abc", ""), Some(0));
}

#[test]
fn replace_first_in_exchanges_only_the_first_occurrence() {
    assert_eq!(replace_first_in("/a/*/b/*", "*", "x"), "/a/x/b/*");
    assert_eq!(replace_first_in("usb*", "usb*", "usb1"), "usb1");
    assert_eq!(replace_first_in("abc", "b", ""), "ac");
    assert_eq!(replace_first_in("abc", "b", "xyz"), "axyzc");
}

#[test]
fn replace_first_in_leaves_text_without_the_needle() {
    assert_eq!(replace_first_in("/sys/bus/usb", "*", "x"), "/sys/bus/usb");
    assert_eq!(replace_first_in("", "*", "x"), "");
}

#[test]
fn index_of_char_from_past_the_end_is_the_length() {
    assert_eq!(index_of_char_from("/sys", '/', 9), 4);
    assert_eq!(index_of_char_from("", '/', 0), 0);
}
