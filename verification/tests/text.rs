use moss::text::{decimal_string, str_contains, trim_str, uuid_string};

#[test]
fn text_helpers() {
    assert_eq!(decimal_string(0), "0");
    assert_eq!(decimal_string(65536), "65536");
    assert_eq!(trim_str("\u{a0} a b \t\n"), "a b");
    assert!(str_contains("hello world", "o w"));
    assert!(!str_contains("hello", "hello!"));
    assert!(str_contains("x", ""));
    assert_eq!(uuid_string(0), "00000000-0000-0000-0000-000000000000");
    assert_eq!(uuid_string(u128::MAX), "ffffffff-ffff-ffff-ffff-ffffffffffff");
}
