use bench_list::parse::{parse_numbers, ParseError};

#[test]
fn parses_whitespace_separated_numbers() {
    assert_eq!(parse_numbers(b"1 2  3\n-4\t+5\r\n"), Ok(vec![1, 2, 3, -4, 5]));
}

#[test]
fn empty_and_blank_text_hold_no_numbers() {
    assert_eq!(parse_numbers(b""), Ok(vec![]));
    assert_eq!(parse_numbers(b" \n\t  "), Ok(vec![]));
}

#[test]
fn bounds_of_i32_are_accepted() {
    assert_eq!(
        parse_numbers(b"-2147483648 2147483647 0007"),
        Ok(vec![i32::MIN, i32::MAX, 7])
    );
}

#[test]
fn out_of_range_word_is_refused() {
    assert_eq!(parse_numbers(b"1 2147483648"), Err(ParseError { word: 1 }));
    assert_eq!(parse_numbers(b"-2147483649"), Err(ParseError { word: 0 }));
    assert_eq!(parse_numbers(b"99999999999999999999999 x"), Err(ParseError { word: 0 }));
}

#[test]
fn malformed_word_is_refused_at_its_position() {
    assert_eq!(parse_numbers(b"4 5 six 7"), Err(ParseError { word: 2 }));
    assert_eq!(parse_numbers(b"- 1"), Err(ParseError { word: 0 }));
    assert_eq!(parse_numbers(b"1 +"), Err(ParseError { word: 1 }));
    assert_eq!(parse_numbers(b"1 2-3"), Err(ParseError { word: 1 }));
    assert_eq!(parse_numbers(b"--1"), Err(ParseError { word: 0 }));
}
