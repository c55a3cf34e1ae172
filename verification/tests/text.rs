use smmdb::text::{encode_text_region, get_utf16_string_from_slice};

#[test]
fn text_is_read_up_to_the_first_zero_unit() {
    let bytes = [b'H', 0, b'i', 0, 0, 0, b'X', 0];
    assert_eq!(get_utf16_string_from_slice(&bytes), "Hi");
}

#[test]
fn text_without_zero_unit_is_read_whole() {
    let bytes = [b'a', 0, b'b', 0, b'c', 0];
    assert_eq!(get_utf16_string_from_slice(&bytes), "abc");
}

#[test]
fn text_of_empty_region_is_empty() {
    assert_eq!(get_utf16_string_from_slice(&[]), "");
    assert_eq!(get_utf16_string_from_slice(&[0, 0, b'a', 0]), "");
}

#[test]
fn text_drops_a_last_byte_without_partner() {
    let bytes = [b'a', 0, b'b'];
    assert_eq!(get_utf16_string_from_slice(&bytes), "a");
}

#[test]
fn text_reads_units_least_significant_byte_first() {
    let bytes = [0xE9, 0x00, 0x42, 0x30];
    assert_eq!(get_utf16_string_from_slice(&bytes), "\u{E9}\u{3042}");
}

#[test]
fn text_reads_surrogate_pairs() {
    let bytes = [0x3D, 0xD8, 0x00, 0xDE, b'!', 0];
    assert_eq!(get_utf16_string_from_slice(&bytes), "\u{1F600}!");
}

#[test]
fn text_replaces_surrogates_without_partner() {
    let lone_high = [0x3D, 0xD8, b'a', 0];
    assert_eq!(get_utf16_string_from_slice(&lone_high), "\u{FFFD}a");
    let lone_low = [0x00, 0xDE, b'a', 0];
    assert_eq!(get_utf16_string_from_slice(&lone_low), "\u{FFFD}a");
    let high_at_end = [b'a', 0, 0x3D, 0xD8];
    assert_eq!(get_utf16_string_from_slice(&high_at_end), "a\u{FFFD}");
}

#[test]
fn region_holds_units_then_zeros() {
    let region = encode_text_region("Hi\u{1F600}");
    assert_eq!(region.len(), 150);
    assert_eq!(&region[..8], &[b'H', 0, b'i', 0, 0x3D, 0xD8, 0x00, 0xDE]);
    assert!(region[8..].iter().all(|b| *b == 0));
}

#[test]
fn region_of_longest_text_is_full() {
    let text: String = "x".repeat(75);
    let region = encode_text_region(&text);
    assert_eq!(region.len(), 150);
    assert_eq!(get_utf16_string_from_slice(&region), text);
}

#[test]
fn region_is_read_back_as_written() {
    for text in ["", "Hey there!", "\u{3042}\u{3044}", "\u{1F600}\u{1F601}"] {
        assert_eq!(get_utf16_string_from_slice(&encode_text_region(text)), text);
    }
}
