use async_executor::text::{characters, contains, find_line_end, parse_decimal, strip_prefix};

#[test]
fn characters_are_in_order() {
    assert_eq!(characters("a\u{e9}b"), vec!['a', '\u{e9}', 'b']);
    assert!(characters("").is_empty());
}

#[test]
fn parts_are_found() {
    let text = characters("xxHTTPyy");
    assert!(contains(&text, &characters("HTTP")));
    assert!(contains(&text, &characters("yy")));
    assert!(contains(&text, &characters("")));
    assert!(!contains(&text, &characters("HTTPS")));
    assert!(!contains(&characters(""), &characters("a")));
    assert!(contains(&characters(""), &characters("")));
}

#[test]
fn prefixes_are_stripped() {
    assert_eq!(strip_prefix(&characters("abc"), &characters("ab")), Some(vec!['c']));
    assert_eq!(strip_prefix(&characters("ab"), &characters("ab")), Some(vec![]));
    assert_eq!(strip_prefix(&characters("ab"), &characters("b")), None);
    assert_eq!(strip_prefix(&characters("a"), &characters("ab")), None);
}

#[test]
fn lines_end_at_newlines() {
    let text = characters("ab\ncd");
    assert_eq!(find_line_end(&text, 0), 2);
    assert_eq!(find_line_end(&text, 2), 2);
    assert_eq!(find_line_end(&text, 3), 5);
    assert_eq!(find_line_end(&text, 5), 5);
}

#[test]
fn decimals_are_read() {
    assert_eq!(parse_decimal(&characters("0")), Some(0));
    assert_eq!(parse_decimal(&characters("1024")), Some(1024));
    assert_eq!(parse_decimal(&characters("+12")), Some(12));
    assert_eq!(parse_decimal(&characters("")), None);
    assert_eq!(parse_decimal(&characters("+")), None);
    assert_eq!(parse_decimal(&characters("++1")), None);
    assert_eq!(parse_decimal(&characters("-1")), None);
    assert_eq!(parse_decimal(&characters("1 ")), None);
    assert_eq!(parse_decimal(&characters("\u{663}")), None);
}
