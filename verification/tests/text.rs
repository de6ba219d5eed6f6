use clipway::decimal::{decimal_string, parse_i64, signed_decimal_string};
use clipway::text::{
    collapse, from_chars, lines, lower_char, same, same_ignoring_case, to_chars, trim, white,
};

const SAMPLES: [&str; 14] = [
    "",
    " ",
    "a",
    " a ",
    "a b",
    "\ta\u{a0}\u{2003}b\u{3000}",
    "one\ntwo",
    "one\r\ntwo\r\n",
    "\n",
    "\n\n",
    "one\rtwo\r",
    "a\r\r\nb",
    "  many   words  here ",
    "\u{85}\u{2028}x\u{200b}",
];

#[test]
fn white_space_is_that_of_unicode() {
    for code in 0..=0x10ffff {
        if let Some(c) = char::from_u32(code) {
            assert_eq!(white(c), c.is_whitespace(), "{code:x}");
        }
    }
}

#[test]
fn ascii_letters_alone_are_lowered() {
    for code in 0..=0x10ffff {
        if let Some(c) = char::from_u32(code) {
            assert_eq!(lower_char(c), c.to_ascii_lowercase());
        }
    }
    assert!(same_ignoring_case(&to_chars("FireFox"), &to_chars("fIREfOX")));
    assert!(!same_ignoring_case(&to_chars("\u{c9}"), &to_chars("\u{e9}")));
    assert!(same(&['c', 'u', 't'], "cut"));
    assert!(!same(&['c', 'u'], "cut"));
}

#[test]
fn texts_are_trimmed_split_and_collapsed_as_in_std() {
    for text in SAMPLES {
        let chars = to_chars(text);
        assert_eq!(from_chars(&chars), text);
        assert_eq!(from_chars(trim(&chars)), text.trim());
        let parts: Vec<String> = lines(&chars).iter().map(|line| from_chars(line)).collect();
        let expected: Vec<String> = text.lines().map(|line| line.to_string()).collect();
        assert_eq!(parts, expected, "{text:?}");
        let words: Vec<&str> = text.split_whitespace().collect();
        assert_eq!(from_chars(&collapse(&chars)), words.join(" "));
    }
}

#[test]
fn numbers_are_written_as_in_std() {
    for n in [0, 1, 9, 10, 99, 100, 12_345, u64::MAX] {
        assert_eq!(decimal_string(n), n.to_string());
    }
    for n in [0, 7, -7, -10, i64::MAX, i64::MIN] {
        assert_eq!(signed_decimal_string(n), n.to_string());
        assert_eq!(parse_i64(&signed_decimal_string(n)), Some(n));
    }
}

#[test]
fn numbers_are_read_as_in_std() {
    for text in [
        "",
        "+",
        "-",
        "0",
        "-0",
        "+7",
        "007",
        " 7",
        "7 ",
        "--7",
        "1_000",
        "9223372036854775807",
        "9223372036854775808",
        "-9223372036854775808",
        "-9223372036854775809",
        "0000000000000000000000000000000000000001",
        "99999999999999999999999999999999999999999999",
        "\u{663}",
    ] {
        assert_eq!(parse_i64(text), text.parse::<i64>().ok(), "{text:?}");
    }
}
