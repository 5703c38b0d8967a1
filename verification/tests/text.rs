use hello::text::{decimal, same_text};

#[test]
fn decimal_writes_single_digits() {
    for (n, expected) in ["0", "1", "2", "3", "4", "5", "6", "7", "8", "9"].iter().enumerate() {
        assert_eq!(decimal(n), *expected);
    }
}

#[test]
fn decimal_writes_longer_numbers() {
    assert_eq!(decimal(10), "10");
    assert_eq!(decimal(42), "42");
    assert_eq!(decimal(100), "100");
    assert_eq!(decimal(12345), "12345");
    assert_eq!(decimal(9_007_199_254_740_993), "9007199254740993");
}

#[test]
fn decimal_writes_the_largest_number() {
    assert_eq!(decimal(usize::MAX), usize::MAX.to_string());
}

#[test]
fn same_text_compares_whole_strings() {
    assert!(same_text("", ""));
    assert!(same_text("GET / HTTP/1.1", "GET / HTTP/1.1"));
    assert!(!same_text("GET / HTTP/1.1", "GET / HTTP/1.0"));
    assert!(!same_text("400", "400\r\n"));
    assert!(!same_text("400\r\n", "400"));
    assert!(!same_text("a", ""));
    assert!(same_text("gr\u{fc}\u{df}e", "gr\u{fc}\u{df}e"));
    assert!(!same_text("gr\u{fc}\u{df}e", "gr\u{fc}sse"));
}
