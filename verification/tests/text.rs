use xlsx_import::text::{
    chars_of, decimal_text, find_char, float_text, parse_canonical, parse_number, same_text, space,
    string_of, strip_bounds, trim_bounds,
};

#[test]
fn numbers_are_digits_with_or_without_a_plus_sign() {
    assert_eq!(parse_number("0"), Some(0));
    assert_eq!(parse_number("007"), Some(7));
    assert_eq!(parse_number("+12"), Some(12));
    assert_eq!(parse_number("4294967295"), Some(4294967295));
    assert_eq!(parse_number("4294967296"), None);
    assert_eq!(parse_number("99999999999999999999999"), None);
    assert_eq!(parse_number(""), None);
    assert_eq!(parse_number("+"), None);
    assert_eq!(parse_number("++1"), None);
    assert_eq!(parse_number("-1"), None);
    assert_eq!(parse_number("1 "), None);
    assert_eq!(parse_number("1.0"), None);
    assert_eq!(parse_number("\u{661}"), None);
}

#[test]
fn numbers_are_read_as_the_standard_library_reads_them() {
    for text in ["0", "1", "+1", "00", "+0042", "4294967295", "4294967296", "", "+", "-0", "1e3", " 1"] {
        assert_eq!(parse_number(text), text.parse::<u32>().ok(), "{:?}", text);
    }
}

#[test]
fn canonical_numbers_have_no_sign_and_no_leading_zero() {
    assert_eq!(parse_canonical("0"), Some(0));
    assert_eq!(parse_canonical("10"), Some(10));
    assert_eq!(parse_canonical("4294967295"), Some(4294967295));
    assert_eq!(parse_canonical("00"), None);
    assert_eq!(parse_canonical("01"), None);
    assert_eq!(parse_canonical("+1"), None);
    assert_eq!(parse_canonical(""), None);
    assert_eq!(parse_canonical("4294967296"), None);
}

#[test]
fn decimal_text_writes_every_digit() {
    assert_eq!(decimal_text(0), "0");
    assert_eq!(decimal_text(9), "9");
    assert_eq!(decimal_text(10), "10");
    assert_eq!(decimal_text(1234567890), "1234567890");
    assert_eq!(decimal_text(u64::MAX), u64::MAX.to_string());
}

#[test]
fn texts_are_compared_by_their_characters() {
    assert!(same_text("", ""));
    assert!(same_text("caf\u{e9}", "caf\u{e9}"));
    assert!(!same_text("cafe", "caf\u{e9}"));
    assert!(!same_text("a", "ab"));
    assert!(!same_text("ab", "ac"));
}

#[test]
fn characters_and_strings_convert_both_ways() {
    let chars = chars_of("a\u{e9}\u{1f600}z");
    assert_eq!(chars, vec!['a', '\u{e9}', '\u{1f600}', 'z']);
    assert_eq!(string_of(&chars, 1, 3), "\u{e9}\u{1f600}");
    assert_eq!(string_of(&chars, 2, 2), "");
    assert_eq!(find_char(&chars, 0, 4, 'z'), 3);
    assert_eq!(find_char(&chars, 0, 3, 'z'), 3);
    assert_eq!(find_char(&chars, 1, 4, 'a'), 4);
}

#[test]
fn white_space_is_what_the_standard_library_calls_white_space() {
    for code in 0..=0x10ffffu32 {
        if let Some(c) = char::from_u32(code) {
            assert_eq!(space(c), c.is_whitespace(), "{:x}", code);
        }
    }
}

#[test]
fn trimming_and_stripping_give_bounds() {
    let chars = chars_of("  a b \n");
    assert_eq!(trim_bounds(&chars, 0, chars.len()), (2, 5));
    assert_eq!(trim_bounds(&chars, 3, 4), (4, 4));
    let chars = chars_of("ababxyzcc");
    assert_eq!(strip_bounds(&chars, &chars_of("ab"), &chars_of("c")), (4, 7));
    assert_eq!(strip_bounds(&chars, &chars_of(""), &chars_of("")), (0, 9));
    let chars = chars_of("aaa");
    assert_eq!(strip_bounds(&chars, &chars_of("a"), &chars_of("a")), (3, 3));
}

#[test]
fn floating_point_text_is_what_the_standard_library_reads() {
    let cases = [
        "0", "15.75", "+1", "-1", "1.", ".5", "-.5e3", "1e5", "1E+5", "1e-5", "1.5e10", "inf",
        "-INF", "+Infinity", "infinity", "NaN", "nan", "-nan", "", "+", "-", ".", "e5", "1e",
        "1e+", "1.5.2", " 1", "1 ", "1,5", "0x10", "1_000", "infinit", "infinityy", "in", "na",
        "++1", "1e5e5", "1.e5", ".e5", "\u{661}", "1\u{661}", "9999999999999999999999999999999999999999",
        "1e999999", "0.0000000000000000000000000000000000000000000000000001",
    ];
    for text in cases {
        assert_eq!(float_text(text), text.parse::<f32>().is_ok(), "{:?}", text);
        assert_eq!(float_text(text), text.parse::<f64>().is_ok(), "{:?}", text);
    }
}

#[test]
fn short_floating_point_texts_are_told_apart() {
    let alphabet = ['0', '7', '+', '-', '.', 'e', 'E', 'i', 'n', 'f', 'N', 'a', ' '];
    let mut texts = vec![String::new()];
    let mut from = 0;
    for _ in 0..5 {
        let upto = texts.len();
        for i in from..upto {
            for c in alphabet {
                let mut longer = texts[i].clone();
                longer.push(c);
                texts.push(longer);
            }
        }
        from = upto;
    }
    for text in &texts {
        assert_eq!(float_text(text), text.parse::<f32>().is_ok(), "{:?}", text);
    }
}
