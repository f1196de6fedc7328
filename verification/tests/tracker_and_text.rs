use gateway_session::sequence_tracker::SequenceTracker;
use gateway_session::text::{decimal_text, parse_u64, starts_with};

#[test]
fn fresh_tracker_holds_zero() {
    let tracker = SequenceTracker::new();
    assert_eq!(tracker.get(), 0);
    assert_eq!(tracker.last(), None);
}

#[test]
fn tracker_keeps_the_greatest_value() {
    let mut tracker = SequenceTracker::new();
    tracker.update(5);
    tracker.update(2);
    tracker.update(9);
    tracker.update(3);
    assert_eq!(tracker.get(), 9);
    assert_eq!(tracker.last(), Some(9));
}

#[test]
fn tracker_ignores_the_order_of_updates() {
    let orders: [[u64; 4]; 4] = [[5, 2, 9, 3], [9, 5, 3, 2], [2, 3, 5, 9], [3, 9, 2, 5]];
    for order in orders.iter() {
        let mut tracker = SequenceTracker::new();
        for value in order.iter() {
            tracker.update(*value);
        }
        assert_eq!(tracker.get(), 9);
    }
}

#[test]
fn tracker_update_with_equal_or_smaller_value_changes_nothing() {
    let mut tracker = SequenceTracker::new();
    tracker.update(7);
    tracker.update(7);
    assert_eq!(tracker.get(), 7);
    tracker.update(0);
    assert_eq!(tracker.get(), 7);
    tracker.update(u64::MAX);
    assert_eq!(tracker.get(), u64::MAX);
    tracker.update(8);
    assert_eq!(tracker.get(), u64::MAX);
}

#[test]
fn parse_u64_reads_plain_digits() {
    assert_eq!(parse_u64("77"), Some(77));
    assert_eq!(parse_u64("0"), Some(0));
    assert_eq!(parse_u64("007"), Some(7));
    assert_eq!(parse_u64("1439298298371379270"), Some(1439298298371379270));
}

#[test]
fn parse_u64_accepts_a_leading_plus() {
    assert_eq!(parse_u64("+5"), Some(5));
    assert_eq!(parse_u64("+"), None);
    assert_eq!(parse_u64("++5"), None);
}

#[test]
fn parse_u64_refuses_what_is_no_number() {
    assert_eq!(parse_u64(""), None);
    assert_eq!(parse_u64("-1"), None);
    assert_eq!(parse_u64("12a"), None);
    assert_eq!(parse_u64(" 12"), None);
    assert_eq!(parse_u64("12 "), None);
    assert_eq!(parse_u64("1_000"), None);
    assert_eq!(parse_u64("٣"), None);
}

#[test]
fn parse_u64_stops_at_the_limit() {
    assert_eq!(parse_u64("18446744073709551615"), Some(u64::MAX));
    assert_eq!(parse_u64("18446744073709551616"), None);
    assert_eq!(parse_u64("99999999999999999999"), None);
    assert_eq!(parse_u64("000000000000000000000000000001"), Some(1));
}

#[test]
fn parse_u64_agrees_with_the_standard_parser() {
    let samples = [
        "", "+", "-", "0", "+0", "-0", "42", "+42", "4 2", "18446744073709551615",
        "18446744073709551616", "184467440737095516150", "abc", "1e3", "0x10", "٣٤",
    ];
    for sample in samples.iter() {
        assert_eq!(parse_u64(sample), sample.parse::<u64>().ok(), "{}", sample);
    }
}

#[test]
fn decimal_text_writes_digits() {
    assert_eq!(decimal_text(0), "0");
    assert_eq!(decimal_text(9), "9");
    assert_eq!(decimal_text(10), "10");
    assert_eq!(decimal_text(77), "77");
    assert_eq!(decimal_text(1203), "1203");
    assert_eq!(decimal_text(u64::MAX), "18446744073709551615");
}

#[test]
fn decimal_text_reads_back() {
    let samples: [u64; 6] = [0, 1, 10, 99, 1439298298371379270, u64::MAX];
    for n in samples.iter() {
        assert_eq!(parse_u64(&decimal_text(*n)), Some(*n));
    }
}

#[test]
fn starts_with_compares_the_beginning() {
    assert!(starts_with("a_123", "a_"));
    assert!(!starts_with("b_123", "a_"));
    assert!(!starts_with("a", "a_"));
    assert!(starts_with("a_", "a_"));
    assert!(starts_with("anything", ""));
    assert!(!starts_with("", "a_"));
    assert!(starts_with("äö", "ä"));
}
