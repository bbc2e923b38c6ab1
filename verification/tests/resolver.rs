use sampling_counter::config::effective_rate;
use sampling_counter::default_log_rate;
use sampling_counter::digits::parse_usize;
use sampling_counter::DEFAULT_METRICS_RATE;

#[test]
fn absent_value_resolves_to_default() {
    assert_eq!(default_log_rate(None), DEFAULT_METRICS_RATE);
}

#[test]
fn zero_resolves_to_default() {
    assert_eq!(default_log_rate(Some("0")), 100);
}

#[test]
fn negative_resolves_to_default() {
    assert_eq!(default_log_rate(Some("-5")), 100);
}

#[test]
fn garbage_resolves_to_default() {
    assert_eq!(default_log_rate(Some("abc")), 100);
}

#[test]
fn positive_value_resolves_to_itself() {
    assert_eq!(default_log_rate(Some("7")), 7);
    assert_eq!(default_log_rate(Some("250")), 250);
}

#[test]
fn plus_prefixed_value_is_accepted() {
    assert_eq!(default_log_rate(Some("+42")), 42);
}

#[test]
fn overflowing_value_resolves_to_default() {
    assert_eq!(default_log_rate(Some("99999999999999999999999999")), 100);
}

#[test]
fn resolution_is_idempotent() {
    let first = default_log_rate(Some("13"));
    let second = default_log_rate(Some("13"));
    let third = default_log_rate(Some("13"));
    assert_eq!(first, 13);
    assert_eq!(second, first);
    assert_eq!(third, first);
    assert_eq!(default_log_rate(None), default_log_rate(None));
}

#[test]
fn effective_rate_replaces_zero_only() {
    assert_eq!(effective_rate(0), DEFAULT_METRICS_RATE);
    assert_eq!(effective_rate(5), 5);
    assert_eq!(effective_rate(1), 1);
}

#[test]
fn parse_accepts_exactly_decimal_usize() {
    assert_eq!(parse_usize("0"), Some(0));
    assert_eq!(parse_usize("123"), Some(123));
    assert_eq!(parse_usize("+0"), Some(0));
    assert_eq!(parse_usize(""), None);
    assert_eq!(parse_usize("+"), None);
    assert_eq!(parse_usize("12a"), None);
    assert_eq!(parse_usize(" 12"), None);
    assert_eq!(parse_usize("-1"), None);
    let max = format!("{}", usize::MAX);
    assert_eq!(parse_usize(&max), Some(usize::MAX));
    let over = format!("{}0", usize::MAX);
    assert_eq!(parse_usize(&over), None);
}

#[test]
fn parse_matches_std() {
    for s in ["0", "00", "042", "+17", "", "+", "abc", "18446744073709551616", "65535"] {
        assert_eq!(parse_usize(s), s.parse::<usize>().ok());
    }
}
