use web_server::text::{chars_of, decimal};

#[test]
fn decimal_renders_digits() {
    assert_eq!(decimal(0), "0");
    assert_eq!(decimal(7), "7");
    assert_eq!(decimal(10), "10");
    assert_eq!(decimal(65536), "65536");
    assert_eq!(decimal(usize::MAX), usize::MAX.to_string());
}

#[test]
fn chars_of_keeps_order() {
    assert_eq!(chars_of("aé\r\n"), vec!['a', 'é', '\r', '\n']);
    assert!(chars_of("").is_empty());
}
