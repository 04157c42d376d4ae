use rusty_variety::control::Config;
use rusty_variety::parse::parse_interval;

#[test]
fn plain_number() {
    assert_eq!(parse_interval("5"), Some(5));
    assert_eq!(parse_interval("10"), Some(10));
    assert_eq!(parse_interval("007"), Some(7));
}

#[test]
fn surrounding_whitespace_is_trimmed() {
    assert_eq!(parse_interval(" 42 "), Some(42));
    assert_eq!(parse_interval("\t9\n"), Some(9));
    assert_eq!(parse_interval("  300"), Some(300));
}

#[test]
fn leading_plus_sign() {
    assert_eq!(parse_interval("+7"), Some(7));
    assert_eq!(parse_interval(" +0 "), Some(0));
}

#[test]
fn non_numeric_is_rejected() {
    assert_eq!(parse_interval(""), None);
    assert_eq!(parse_interval("   "), None);
    assert_eq!(parse_interval("abc"), None);
    assert_eq!(parse_interval("12a"), None);
    assert_eq!(parse_interval("1 2"), None);
    assert_eq!(parse_interval("-3"), None);
    assert_eq!(parse_interval("+"), None);
    assert_eq!(parse_interval("++5"), None);
    assert_eq!(parse_interval("5.0"), None);
}

#[test]
fn largest_value_fits_and_overflow_is_rejected() {
    assert_eq!(parse_interval("18446744073709551615"), Some(u64::MAX));
    assert_eq!(parse_interval("18446744073709551616"), None);
    assert_eq!(parse_interval("99999999999999999999999"), None);
}

#[test]
fn config_requires_positive_interval() {
    let none = Config::new(0, String::from("/wallpapers"));
    assert!(none.is_none());
    let some = Config::new(5, String::from("/wallpapers"));
    let cfg = some.expect("a positive interval is accepted");
    assert_eq!(cfg.interval_secs, 5);
    assert_eq!(cfg.dir, "/wallpapers");
}
