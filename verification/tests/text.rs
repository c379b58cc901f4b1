use sdplay_lib::error::DecimalError;
use sdplay_lib::text::{
    chars_of, contains_text, find, first_two_bounds, parse_decimal, parse_digits, parse_number,
    same_text, split_bounds, trim_bounds, whitespace,
};

fn chars(s: &str) -> Vec<char> {
    s.chars().collect()
}

fn cut(s: &str, bounds: (usize, usize)) -> String {
    chars(s)[bounds.0..bounds.1].iter().collect()
}

#[test]
fn characters_of_a_text() {
    assert_eq!(chars_of(""), Vec::<char>::new());
    assert_eq!(chars_of("a\u{e9}\u{1f600}z"), vec!['a', '\u{e9}', '\u{1f600}', 'z']);
}

#[test]
fn same_text_compares_characters() {
    assert!(same_text("", ""));
    assert!(same_text("audio", "audio"));
    assert!(!same_text("audio", "audi"));
    assert!(!same_text("audio", "audiO"));
}

#[test]
fn whitespace_is_what_the_standard_library_says() {
    for code in 0..=0x11_0000u32 {
        if let Some(c) = char::from_u32(code) {
            assert_eq!(whitespace(c), c.is_whitespace(), "U+{:04X}", code);
        }
    }
}

#[test]
fn trim_agrees_with_the_standard_library() {
    for text in ["", " ", "a", "  a b \t\r\n", "\u{a0}x\u{3000}", "#  ", " \u{2003} ", "x  "] {
        let bounds = trim_bounds(&chars(text));
        assert_eq!(cut(text, bounds), text.trim());
    }
}

#[test]
fn find_returns_the_first_position() {
    let text = chars("a=b=c");
    assert_eq!(find(&text, '=', 0, 5), Some(1));
    assert_eq!(find(&text, '=', 2, 5), Some(3));
    assert_eq!(find(&text, '=', 4, 5), None);
    assert_eq!(find(&text, '=', 1, 1), None);
    assert_eq!(find(&text, 'c', 0, 4), None);
}

#[test]
fn split_agrees_with_the_standard_library() {
    for text in ["", "a", "\n", "a\nb", "a\n\nb\n", "\n\n", "v=0\r\no=x"] {
        let bounds = split_bounds(&chars(text), '\n');
        let pieces: Vec<String> = bounds.iter().map(|b| cut(text, *b)).collect();
        let expected: Vec<String> = text.split('\n').map(str::to_owned).collect();
        assert_eq!(pieces, expected);
    }
}

#[test]
fn first_two_pieces() {
    let text = "k=v=w";
    let (key, value) = first_two_bounds(&chars(text), '=', 0, 5).unwrap();
    assert_eq!((cut(text, key), cut(text, value)), ("k".to_owned(), "v".to_owned()));
    let (key, value) = first_two_bounds(&chars(text), '=', 2, 5).unwrap();
    assert_eq!((cut(text, key), cut(text, value)), ("v".to_owned(), "w".to_owned()));
    assert_eq!(first_two_bounds(&chars(text), '=', 4, 5), None);
    let (key, value) = first_two_bounds(&chars("="), '=', 0, 1).unwrap();
    assert_eq!((key, value), ((0, 0), (1, 1)));
}

#[test]
fn contains_agrees_with_the_standard_library() {
    for hay in ["", "L16", "1L6", "float32", "xxfloa", "616", "16"] {
        for needle in ["", "16", "float", "6", "L16x"] {
            assert_eq!(
                contains_text(&chars(hay), &chars(needle)),
                hay.contains(needle),
                "{hay:?} {needle:?}"
            );
        }
    }
}

#[test]
fn decimal_numbers() {
    assert_eq!(parse_number("0", 0), Ok(0));
    assert_eq!(parse_number("007", 10), Ok(7));
    assert_eq!(parse_number("+42", 65535), Ok(42));
    assert_eq!(parse_number("65535", 65535), Ok(65535));
    assert_eq!(parse_number("65536", 65535), Err(DecimalError::Overflow));
    assert_eq!(parse_number("18446744073709551615", u64::MAX), Ok(u64::MAX));
    assert_eq!(parse_number("18446744073709551616", u64::MAX), Err(DecimalError::Overflow));
    assert_eq!(parse_number("99999999999999999999999999", u64::MAX), Err(DecimalError::Overflow));
    assert_eq!(parse_number("", 10), Err(DecimalError::Empty));
    assert_eq!(parse_number("+", 10), Err(DecimalError::InvalidDigit));
    assert_eq!(parse_number("-1", 10), Err(DecimalError::InvalidDigit));
    assert_eq!(parse_number("1 ", 10), Err(DecimalError::InvalidDigit));
    assert_eq!(parse_number("++1", 10), Err(DecimalError::InvalidDigit));
    assert_eq!(parse_number("99999x", 10), Err(DecimalError::InvalidDigit));
    assert_eq!(parse_number("\u{661}", 10), Err(DecimalError::InvalidDigit));
}

#[test]
fn decimal_numbers_agree_with_the_standard_library() {
    for text in ["0", "1", "00012", "+5", "65535", "65536", "", "+", "-0", "1_0", " 1", "12a"] {
        assert_eq!(parse_number(text, 65535).ok(), text.parse::<u16>().ok().map(u64::from));
    }
}

#[test]
fn numbers_inside_a_text() {
    let text = chars("ab+12cd");
    assert_eq!(parse_decimal(&text, 2, 5, 100), Ok(12));
    assert_eq!(parse_decimal(&text, 3, 5, 11), Err(DecimalError::Overflow));
    assert_eq!(parse_decimal(&text, 3, 3, 11), Err(DecimalError::Empty));
    assert_eq!(parse_decimal(&text, 2, 3, 11), Err(DecimalError::InvalidDigit));
    assert_eq!(parse_digits(&text, 3, 5, 100), Ok(12));
    assert_eq!(parse_digits(&text, 3, 3, 100), Ok(0));
    assert_eq!(parse_digits(&text, 2, 5, 100), Err(DecimalError::InvalidDigit));
}
