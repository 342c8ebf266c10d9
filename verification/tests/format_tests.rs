use batch_core::format::{debug, normalize_ether, summarize_str, ternary, truncate_ether};

#[test]
fn ternary_picks_by_condition() {
    assert_eq!(ternary(true, 1, 2), 1);
    assert_eq!(ternary(false, 1, 2), 2);
}

#[test]
fn debug_renders_simple_values() {
    assert_eq!(debug(5u64), "5");
    assert_eq!(debug("x"), "\"x\"");
}

#[test]
fn summarize_keeps_short_text() {
    assert_eq!(summarize_str("hello", 8), "hello");
    assert_eq!(summarize_str("", 4), "");
    assert_eq!(summarize_str("12345678", 8), "12345678");
}

#[test]
fn summarize_shortens_long_text() {
    assert_eq!(summarize_str("hello world", 8), "hell...orld");
    assert_eq!(summarize_str("abcdef", 4), "ab...ef");
    assert_eq!(summarize_str("abcdef", 5), "ab...ef");
    assert_eq!(summarize_str("abc", 0), "...");
}

#[test]
fn normalize_trims_a_decimal_amount() {
    assert_eq!(normalize_ether("0012.3400".to_string()), "12.34");
    assert_eq!(normalize_ether("0.500".to_string()), "0.5");
    assert_eq!(normalize_ether(".5".to_string()), "0.5");
    assert_eq!(normalize_ether("10.".to_string()), "10");
    assert_eq!(normalize_ether("0.000".to_string()), "0");
}

#[test]
fn normalize_without_a_point_trims_leading_zeros() {
    assert_eq!(normalize_ether("000".to_string()), "0");
    assert_eq!(normalize_ether("".to_string()), "0");
    assert_eq!(normalize_ether("0100".to_string()), "100");
    assert_eq!(normalize_ether("1200".to_string()), "1200");
}

#[test]
fn truncate_cuts_after_the_point() {
    assert_eq!(truncate_ether("1.23456".to_string(), 3), "1.23");
    assert_eq!(truncate_ether("1.2".to_string(), 5), "1.2");
    assert_eq!(truncate_ether("123".to_string(), 2), "123");
    assert_eq!(truncate_ether("1.23".to_string(), 0), "1");
}
