use bettervote::poll::poll_id_from;
use bettervote::text::{
    char_count, char_is_id_char, char_is_white_space, chars_of, frame, padded_hex_string,
    push_decimal, text_all_id_chars, text_is_blank,
};

#[test]
fn padded_hex_is_right_aligned_in_sixteen_places() {
    assert_eq!(padded_hex_string(0), "               0");
    assert_eq!(padded_hex_string(0xabc), "             abc");
    assert_eq!(padded_hex_string(0x1000), "            1000");
    assert_eq!(padded_hex_string(0x0123_4567_89ab_cdef), " 123456789abcdef");
    assert_eq!(padded_hex_string(u64::MAX), "ffffffffffffffff");
    for r in [1u64, 15, 16, 255, 256, 0xdead_beef, 1 << 59, 1 << 60, u64::MAX - 1] {
        assert_eq!(padded_hex_string(r), format!("{:16x}", r));
    }
}

#[test]
fn poll_id_is_made_of_the_number_drawn() {
    assert_eq!(poll_id_from(0x2a), "              2a");
    assert_eq!(poll_id_from(0xfeed_f00d_0000_0001), "feedf00d00000001");
}

#[test]
fn decimal_is_appended() {
    let mut s = String::from("n = ");
    push_decimal(&mut s, 0);
    assert_eq!(s, "n = 0");
    let mut s = String::new();
    push_decimal(&mut s, 7);
    push_decimal(&mut s, 10);
    push_decimal(&mut s, 1024);
    assert_eq!(s, "7101024");
    let mut s = String::new();
    push_decimal(&mut s, usize::MAX);
    assert_eq!(s, format!("{}", usize::MAX));
}

#[test]
fn frame_puts_three_texts_together() {
    assert_eq!(frame("<", "middle", ">"), "<middle>");
    assert_eq!(frame("", "", ""), "");
}

#[test]
fn chars_are_counted_not_bytes() {
    assert_eq!(char_count(""), 0);
    assert_eq!(char_count("abc"), 3);
    assert_eq!(char_count("äöü"), 3);
    assert_eq!(char_count("日本語の名前"), 6);
    assert_eq!(chars_of("aß日"), vec!['a', 'ß', '日']);
}

#[test]
fn blank_means_white_space_only() {
    assert!(text_is_blank(""));
    assert!(text_is_blank(" "));
    assert!(text_is_blank(" \t\r\n"));
    assert!(text_is_blank("\u{a0}\u{2003}\u{3000}\u{85}\u{1680}\u{2028}\u{2029}\u{202f}\u{205f}"));
    assert!(!text_is_blank("a"));
    assert!(!text_is_blank("  a  "));
    assert!(!text_is_blank("\u{200b}"));
    for c in ['\u{8}', '\u{9}', '\u{d}', '\u{e}', ' ', '!', '\u{1fff}', '\u{2000}', '\u{200a}', '\u{200b}'] {
        assert_eq!(char_is_white_space(c), c.is_whitespace(), "{:?}", c);
    }
}

#[test]
fn identifier_characters() {
    assert!(text_all_id_chars("abcXYZ019_.-"));
    assert!(text_all_id_chars(""));
    assert!(!text_all_id_chars("a b"));
    assert!(!text_all_id_chars("a??b"));
    assert!(!text_all_id_chars("ä"));
    for c in ['a', 'z', 'A', 'Z', '0', '9', '_', '.', '-', '/', ':', '@', '[', '`', '{', ' ', 'é'] {
        let allowed = c.is_ascii_alphanumeric() || c == '_' || c == '.' || c == '-';
        assert_eq!(char_is_id_char(c), allowed, "{:?}", c);
    }
}
