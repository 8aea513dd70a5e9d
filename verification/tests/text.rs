use rustversion_detect::decimal::{
    decimal_len, parse_u16, parse_u32, parse_u8, parse_unsigned, push_decimal, push_padded,
};
use rustversion_detect::text::{
    chars_of, equals, find, is_whitespace, last_line, split, split_once, starts_with, strip_cr,
    trim,
};

fn chars(text: &str) -> Vec<char> {
    text.chars().collect()
}

fn string(chars: &[char]) -> String {
    chars.iter().collect()
}

fn pieces(text: &str, sep: char) -> Vec<String> {
    split(&chars(text), sep).into_iter().map(string).collect()
}

#[test]
fn the_characters_of_a_text_are_kept_in_order() {
    assert_eq!(chars_of("rustc 1.32.0"), chars("rustc 1.32.0"));
    assert_eq!(chars_of(""), chars(""));
    assert_eq!(chars_of("a\u{e9}\u{3000}\u{1f980}z"), vec!['a', '\u{e9}', '\u{3000}', '\u{1f980}', 'z']);
}

#[test]
fn find_gives_the_first_place() {
    assert_eq!(find(&chars("1.32.0"), '.'), 1);
    assert_eq!(find(&chars(".32.0"), '.'), 0);
    assert_eq!(find(&chars("1320."), '.'), 4);
    assert_eq!(find(&chars("1320"), '.'), 4);
    assert_eq!(find(&chars(""), '.'), 0);
}

#[test]
fn split_once_cuts_at_the_first_place() {
    let text = chars("1.60.0-beta-2");
    let (head, tail) = split_once(&text, '-');
    assert_eq!(string(head), "1.60.0");
    assert_eq!(tail.map(string), Some("beta-2".to_string()));
    let text = chars("1.60.0");
    let (head, tail) = split_once(&text, '-');
    assert_eq!(string(head), "1.60.0");
    assert_eq!(tail, None);
    let text = chars("1.60.0-");
    let (head, tail) = split_once(&text, '-');
    assert_eq!(string(head), "1.60.0");
    assert_eq!(tail.map(string), Some(String::new()));
    let text = chars("");
    let (head, tail) = split_once(&text, '-');
    assert_eq!(string(head), "");
    assert_eq!(tail, None);
}

#[test]
fn split_gives_one_piece_more_than_there_are_separators() {
    assert_eq!(pieces("1.32.0", '.'), vec!["1", "32", "0"]);
    assert_eq!(pieces("1320", '.'), vec!["1320"]);
    assert_eq!(pieces("", '.'), vec![""]);
    assert_eq!(pieces(".", '.'), vec!["", ""]);
    assert_eq!(pieces("a..b.", '.'), vec!["a", "", "b", ""]);
    assert_eq!(pieces("rustc  1.32.0 ", ' '), vec!["rustc", "", "1.32.0", ""]);
    for text in ["", "a", "a b", " a  b ", "   "] {
        let expected: Vec<String> = text.split(' ').map(|piece| piece.to_string()).collect();
        assert_eq!(pieces(text, ' '), expected);
    }
}

#[test]
fn the_last_line_is_the_last_that_is_not_empty() {
    assert_eq!(string(last_line(&chars("one\ntwo\nthree"))), "three");
    assert_eq!(string(last_line(&chars("one\ntwo\nthree\n"))), "three");
    assert_eq!(string(last_line(&chars("one\ntwo\r\n\r\n\n"))), "two");
    assert_eq!(string(last_line(&chars("one\ntwo\r\r\n"))), "two\r");
    assert_eq!(string(last_line(&chars("one\n\r"))), "\r");
    assert_eq!(string(last_line(&chars("one\n \n"))), " ");
    assert_eq!(string(last_line(&chars("one"))), "one");
    assert_eq!(string(last_line(&chars(""))), "");
    assert_eq!(string(last_line(&chars("\n\n\r\n"))), "");
    assert_eq!(string(strip_cr(&chars("two\r"))), "two");
    assert_eq!(string(strip_cr(&chars("two\r\r"))), "two\r");
    assert_eq!(string(strip_cr(&chars("\rtwo"))), "\rtwo");
    assert_eq!(string(strip_cr(&chars(""))), "");
    for text in ["a\nb", "a\r\nb\r\n", "a\n\nb\n", "a\rb\r", "\na"] {
        let expected = text.lines().filter(|line| !line.is_empty()).last().unwrap_or("");
        assert_eq!(string(last_line(&chars(text))), expected);
    }
}

#[test]
fn trim_drops_white_space_at_both_ends() {
    assert_eq!(string(trim(&chars("  rustc 1.32.0 \t\r\n"))), "rustc 1.32.0");
    assert_eq!(string(trim(&chars("rustc"))), "rustc");
    assert_eq!(string(trim(&chars("   "))), "");
    assert_eq!(string(trim(&chars(""))), "");
    assert_eq!(string(trim(&chars(" a b "))), "a b");
    for text in ["\u{a0}a\u{2028}", "\u{1680}\u{2000}a b\u{200a}\u{205f}", "\u{200b}a\u{feff}"] {
        assert_eq!(string(trim(&chars(text))), text.trim());
    }
}

#[test]
fn white_space_is_what_the_standard_says() {
    for code in 0..=0x3100u32 {
        if let Some(c) = char::from_u32(code) {
            assert_eq!(is_whitespace(c), c.is_whitespace(), "{}", code);
        }
    }
    assert!(!is_whitespace('\u{feff}'));
    assert!(!is_whitespace('\u{10ffff}'));
}

#[test]
fn the_start_and_the_whole_of_a_word_are_told_apart() {
    assert!(starts_with(&chars("beta.2"), "beta"));
    assert!(starts_with(&chars("beta"), "beta"));
    assert!(starts_with(&chars("beta"), ""));
    assert!(!starts_with(&chars("bet"), "beta"));
    assert!(!starts_with(&chars("abeta"), "beta"));
    assert!(!starts_with(&chars(""), "beta"));
    assert!(equals(&chars("dev"), "dev"));
    assert!(equals(&chars(""), ""));
    assert!(!equals(&chars("devel"), "dev"));
    assert!(!equals(&chars("de"), "dev"));
    assert!(!equals(&chars("dew"), "dev"));
    assert!(equals(&chars("\u{e9}t\u{e9}"), "\u{e9}t\u{e9}"));
}

#[test]
fn numbers_are_read_in_base_ten() {
    assert_eq!(parse_u32(&chars("0")), Some(0));
    assert_eq!(parse_u32(&chars("32")), Some(32));
    assert_eq!(parse_u32(&chars("007")), Some(7));
    assert_eq!(parse_u32(&chars("+7")), Some(7));
    assert_eq!(parse_u32(&chars("4294967295")), Some(4294967295));
    assert_eq!(parse_u32(&chars("0000000004294967295")), Some(4294967295));
    assert_eq!(parse_u32(&chars("4294967296")), None);
    assert_eq!(parse_u32(&chars("42949672950")), None);
    assert_eq!(parse_u32(&chars("99999999999999999999999")), None);
    assert_eq!(parse_u32(&chars("")), None);
    assert_eq!(parse_u32(&chars("+")), None);
    assert_eq!(parse_u32(&chars("-")), None);
    assert_eq!(parse_u32(&chars("-7")), None);
    assert_eq!(parse_u32(&chars("++7")), None);
    assert_eq!(parse_u32(&chars("7+")), None);
    assert_eq!(parse_u32(&chars(" 7")), None);
    assert_eq!(parse_u32(&chars("7 ")), None);
    assert_eq!(parse_u32(&chars("7a")), None);
    assert_eq!(parse_u32(&chars("1_000")), None);
    assert_eq!(parse_u32(&chars("\u{661}")), None);
    assert_eq!(parse_u16(&chars("65535")), Some(65535));
    assert_eq!(parse_u16(&chars("65536")), None);
    assert_eq!(parse_u8(&chars("255")), Some(255));
    assert_eq!(parse_u8(&chars("256")), None);
    assert_eq!(parse_unsigned(&chars("12"), 12), Some(12));
    assert_eq!(parse_unsigned(&chars("13"), 12), None);
    assert_eq!(parse_unsigned(&chars("0"), 0), Some(0));
    for text in ["", "0", "+0", "12", "+12", "-12", "4294967295", "4294967296", "1x", "x1"] {
        assert_eq!(parse_u32(&chars(text)), text.parse::<u32>().ok());
        assert_eq!(parse_u16(&chars(text)), text.parse::<u16>().ok());
        assert_eq!(parse_u8(&chars(text)), text.parse::<u8>().ok());
    }
}

#[test]
fn numbers_are_written_in_base_ten() {
    for n in [0u32, 1, 9, 10, 11, 99, 100, 101, 1234567890, 4294967294, 4294967295] {
        let mut out = String::from("v");
        push_decimal(&mut out, n);
        assert_eq!(out, format!("v{}", n));
        assert_eq!(decimal_len(n), format!("{}", n).len());
        for width in [0usize, 1, 2, 4, 10, 12] {
            let mut out = String::from("v");
            push_padded(&mut out, n, width);
            assert_eq!(out, format!("v{:0width$}", n, width = width));
        }
    }
}
