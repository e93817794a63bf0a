use toy_payments_engine::common::text::{
    char_is_whitespace, chars_of, nat_to_string, parse_u16, parse_u32, push_fixed_digits, push_nat,
    same_text, trim,
};

#[test]
fn white_space_is_what_the_standard_library_calls_white_space() {
    let mut count = 0;
    for code in 0..=0x10FFFFu32 {
        if let Some(c) = char::from_u32(code) {
            assert_eq!(char_is_whitespace(c), c.is_whitespace());
            if char_is_whitespace(c) {
                count += 1;
            }
        }
    }
    assert_eq!(count, 25);
    assert!(char_is_whitespace(' '));
    assert!(char_is_whitespace('\n'));
    assert!(char_is_whitespace('\u{3000}'));
    assert!(!char_is_whitespace('a'));
    assert!(!char_is_whitespace('\u{200B}'));
}

#[test]
fn trim_removes_white_space_at_both_ends_only() {
    let cases = [
        ("", ""),
        (" ", ""),
        ("\t\r\n ", ""),
        ("a", "a"),
        (" a", "a"),
        ("a ", "a"),
        ("  a b  ", "a b"),
        ("\u{2003}déjà vu\u{a0}\n", "déjà vu"),
        ("x\u{200B} ", "x\u{200B}"),
    ];
    for (text, expected) in cases {
        assert_eq!(trim(text), expected);
        assert_eq!(trim(text), text.trim());
    }
}

#[test]
fn chars_of_lists_the_characters() {
    assert_eq!(chars_of(""), Vec::<char>::new());
    assert_eq!(chars_of("a1 é"), vec!['a', '1', ' ', 'é']);
    assert_eq!(chars_of("日本"), "日本".chars().collect::<Vec<char>>());
}

#[test]
fn same_text_compares_character_by_character() {
    assert!(same_text("", ""));
    assert!(same_text("deposit", "deposit"));
    assert!(!same_text("deposit", "deposiT"));
    assert!(!same_text("deposit", "deposi"));
    assert!(!same_text("", "x"));
    assert!(same_text("é", "\u{e9}"));
    assert!(!same_text("e\u{301}", "\u{e9}"));
}

#[test]
fn numbers_are_read_as_the_standard_library_reads_them() {
    let texts = [
        "", "0", "1", "7", "12", "007", "+5", "+", "-", "-0", "-5", "++5", "5+", " 5", "5 ", "65535",
        "65536", "065535", "0000000000000000000000065535", "99999", "4294967295", "4294967296",
        "4294967300", "42949672950", "18446744073709551615", "18446744073709551616", "1.0", "1e3",
        "0x1f", "１２", "1_000", "12a", "a12", "+65535", "+4294967295", "+4294967296",
    ];
    for text in texts {
        assert_eq!(parse_u16(text), text.parse::<u16>().ok());
        assert_eq!(parse_u32(text), text.parse::<u32>().ok());
    }
    assert_eq!(parse_u16("65535"), Some(65535));
    assert_eq!(parse_u16("65536"), None);
    assert_eq!(parse_u32("4294967295"), Some(4294967295));
    assert_eq!(parse_u32("4294967296"), None);
    assert_eq!(parse_u32("+12"), Some(12));
    assert_eq!(parse_u32(""), None);
}

#[test]
fn numbers_are_written_in_decimal_notation() {
    for n in [0u128, 1, 9, 10, 11, 99, 100, 65535, 4294967295, u64::MAX as u128, u128::MAX] {
        assert_eq!(nat_to_string(n), n.to_string());
    }
    assert_eq!(nat_to_string(0), "0");
    assert_eq!(nat_to_string(1203), "1203");
    let mut text = String::from("id=");
    push_nat(&mut text, 42);
    assert_eq!(text, "id=42");
}

#[test]
fn fixed_digits_keep_leading_zeros_and_drop_the_rest() {
    let cases: [(u128, u8, &str); 7] = [
        (0, 4, "0000"),
        (7, 4, "0007"),
        (1234, 4, "1234"),
        (51234, 4, "1234"),
        (9, 1, "9"),
        (9, 0, ""),
        (120, 2, "20"),
    ];
    for (n, width, expected) in cases {
        let mut text = String::new();
        push_fixed_digits(&mut text, n, width);
        assert_eq!(text, expected);
    }
}

#[test]
fn written_numbers_read_back() {
    for n in [0u32, 5, 10, 65535, 65536, 4294967295] {
        assert_eq!(parse_u32(&nat_to_string(n as u128)), Some(n));
    }
}
