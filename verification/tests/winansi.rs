use docxside_pdf::winansi::{char_to_winansi, to_winansi_bytes, winansi_to_char};

#[test]
fn ascii_and_latin_1_map_to_themselves() {
    assert_eq!(to_winansi_bytes("Az 09~"), b"Az 09~".to_vec());
    assert_eq!(to_winansi_bytes("\u{a0}\u{e9}\u{ff}"), vec![0xa0, 0xe9, 0xff]);
    assert_eq!(winansi_to_char(0x41), 'A');
    assert_eq!(winansi_to_char(0xe9), '\u{e9}');
}

#[test]
fn the_upper_block_is_remapped() {
    assert_eq!(to_winansi_bytes("\u{20ac}\u{2022}\u{2014}\u{2122}\u{0178}"), vec![0x80, 0x95, 0x97, 0x99, 0x9f]);
    assert_eq!(winansi_to_char(0x80), '\u{20ac}');
    assert_eq!(winansi_to_char(0x95), '\u{2022}');
    assert_eq!(winansi_to_char(0x9f), '\u{0178}');
}

#[test]
fn what_the_set_lacks_is_left_out() {
    assert_eq!(to_winansi_bytes("a\u{65e5}b\u{1f600}c\u{81}"), b"abc".to_vec());
    assert_eq!(char_to_winansi('\u{0100}'), None);
    assert_eq!(char_to_winansi('\u{9f}'), None);
    assert_eq!(to_winansi_bytes(""), Vec::<u8>::new());
}

#[test]
fn bytes_and_characters_round_trip() {
    for b in 0u8..=255 {
        let unassigned = matches!(b, 0x81 | 0x8d | 0x8f | 0x90 | 0x9d);
        let back = char_to_winansi(winansi_to_char(b));
        if unassigned {
            assert_eq!(back, None);
        } else {
            assert_eq!(back, Some(b));
        }
    }
}

#[test]
fn control_characters_are_not_shown() {
    assert_eq!(to_winansi_bytes("\u{1}"), Vec::<u8>::new());
    assert_eq!(to_winansi_bytes("a\u{0}b\tc\nd\u{1f}e\u{7f}"), b"abcde\x7f".to_vec());
    assert_eq!(to_winansi_bytes(" "), vec![32]);
    assert!(to_winansi_bytes("\u{0}\u{1}\r\n\t x\u{a0}\u{20ac}").iter().all(|b| *b >= 32));
    // The byte of a control character is still known.
    assert_eq!(char_to_winansi('\t'), Some(9));
}
