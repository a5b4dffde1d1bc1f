use web_server::paths::{bookmark_location, decimal_string};

#[test]
fn writes_decimal_numbers() {
    assert_eq!(decimal_string(0), "0");
    assert_eq!(decimal_string(7), "7");
    assert_eq!(decimal_string(42), "42");
    assert_eq!(decimal_string(1000), "1000");
    assert_eq!(decimal_string(-7), "-7");
    assert_eq!(decimal_string(i64::MAX), "9223372036854775807");
    assert_eq!(decimal_string(i64::MIN), "-9223372036854775808");
}

#[test]
fn decimal_matches_display() {
    for n in [-1000i64, -99, -1, 1, 9, 10, 11, 99, 100, 123456789] {
        assert_eq!(decimal_string(n), n.to_string());
    }
}

#[test]
fn bookmark_locations() {
    assert_eq!(bookmark_location(1), "/bookmarks/1");
    assert_eq!(bookmark_location(999), "/bookmarks/999");
}
