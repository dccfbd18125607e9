//! Component-level tests: bound resolution, decimal rendering and
//! parsing, splitting and joining, classification, the draw bounds
//! property, and the exact body texts.

use randoku::classify::{classify, UserAgentClass};
use randoku::handlers::{both_limits, index_plain, shuffle, upper_limit};
use randoku::range::{resolve, Range, RangeError};
use randoku::response::{index_page, render_inverted_order_message, render_number};
use randoku::rng::RandomSource;
use randoku::routes::dispatch;
use randoku::text::{join_lines, parse_u64, split_str, str_eq, str_starts_with, u64_to_string};

#[test]
fn draw_stays_within_bounds() {
    let mut source = RandomSource::new();
    let pairs: Vec<(u64, u64)> = vec![
        (0, 0),
        (5, 5),
        (0, 3),
        (5, 9),
        (0, 100),
        (0, u64::MAX),
        (u64::MAX - 1, u64::MAX),
        (u64::MAX, u64::MAX),
    ];
    for &(from, to) in pairs.iter() {
        for _ in 0..1000 {
            let rg = resolve(Some(from), Some(to)).expect("bounds in order");
            let v = source.draw(rg);
            assert!(from <= v);
            assert!(v <= to);
        }
    }
}

#[test]
fn resolve_applies_defaults() {
    assert_eq!(resolve(None, None), Ok(Range { from: 0, to: 100 }));
    assert_eq!(resolve(None, Some(7)), Ok(Range { from: 0, to: 7 }));
    assert_eq!(resolve(Some(3), None), Ok(Range { from: 3, to: 100 }));
    assert_eq!(resolve(Some(5), Some(5)), Ok(Range { from: 5, to: 5 }));
}

#[test]
fn resolve_rejects_inverted_bounds() {
    assert_eq!(resolve(Some(9), Some(5)), Err(RangeError::InvertedOrder(9, 5)));
    assert_eq!(
        resolve(Some(u64::MAX), Some(0)),
        Err(RangeError::InvertedOrder(u64::MAX, 0))
    );
    assert!(resolve(Some(5), Some(9)).is_ok());
}

#[test]
fn parse_accepts_digits_only() {
    assert_eq!(parse_u64("0"), Some(0));
    assert_eq!(parse_u64("3"), Some(3));
    assert_eq!(parse_u64("007"), Some(7));
    assert_eq!(parse_u64("9999999999"), Some(9999999999));
    assert_eq!(parse_u64(""), None);
    assert_eq!(parse_u64("abc"), None);
    assert_eq!(parse_u64("12a"), None);
    assert_eq!(parse_u64("-3"), None);
    assert_eq!(parse_u64("+3"), None);
    assert_eq!(parse_u64("1 2"), None);
}

#[test]
fn parse_handles_the_64_bit_edge() {
    assert_eq!(parse_u64("18446744073709551615"), Some(u64::MAX));
    assert_eq!(parse_u64("18446744073709551616"), None);
    assert_eq!(parse_u64("99999999999999999999"), None);
}

#[test]
fn renders_decimal_exactly() {
    assert_eq!(u64_to_string(0), "0");
    assert_eq!(u64_to_string(7), "7");
    assert_eq!(u64_to_string(105), "105");
    assert_eq!(u64_to_string(18446744073709551615), "18446744073709551615");
}

#[test]
fn renders_numeric_body_with_trailing_newline() {
    assert_eq!(render_number(42), "42\n");
    assert_eq!(render_number(0), "0\n");
}

#[test]
fn renders_inverted_order_message_exactly() {
    assert_eq!(
        render_inverted_order_message(9, 5),
        "Wrong parameter order: 9 should be <= 5 (try switching them around)."
    );
    assert_eq!(
        render_inverted_order_message(100, 0),
        "Wrong parameter order: 100 should be <= 0 (try switching them around)."
    );
}

#[test]
fn split_preserves_empty_items() {
    assert_eq!(split_str("a,,b", ','), vec!["a", "", "b"]);
    assert_eq!(split_str("x,", ','), vec!["x", ""]);
    assert_eq!(split_str(",x", ','), vec!["", "x"]);
    assert_eq!(split_str("", ','), vec![""]);
    assert_eq!(split_str("solo", ','), vec!["solo"]);
}

#[test]
fn join_puts_newlines_between_items() {
    assert_eq!(join_lines(&vec!["a".to_string(), "b".to_string()]), "a\nb");
    assert_eq!(join_lines(&vec!["solo".to_string()]), "solo");
    assert_eq!(join_lines(&vec![String::new()]), "");
    assert_eq!(join_lines(&Vec::new()), "");
}

#[test]
fn string_helpers_compare_by_characters() {
    assert!(str_starts_with("Mozilla/5.0 (X11; Linux)", "Mozilla/5.0"));
    assert!(!str_starts_with("Mozilla/4.0", "Mozilla/5.0"));
    assert!(!str_starts_with("Moz", "Mozilla/5.0"));
    assert!(str_eq("shuffle", "shuffle"));
    assert!(!str_eq("shuffle", "shuffled"));
    assert!(!str_eq("shuffle", "shufflE"));
}

#[test]
fn classifies_by_user_agent_prefix() {
    assert_eq!(classify(Some("Mozilla/5.0 (X11; Linux)")), UserAgentClass::Browser);
    assert_eq!(classify(Some("Mozilla/5.0")), UserAgentClass::Browser);
    assert_eq!(classify(Some("Mozilla/4.0")), UserAgentClass::ToolClient);
    assert_eq!(classify(Some("curl/1.1.1")), UserAgentClass::ToolClient);
    assert_eq!(classify(Some("")), UserAgentClass::ToolClient);
    assert_eq!(classify(None), UserAgentClass::ToolClient);
}

#[test]
fn index_plain_body_is_a_number_up_to_100() {
    let mut source = RandomSource::new();
    for _ in 0..100 {
        let body = index_plain(&mut source);
        assert!(body.ends_with('\n'));
        let num: u64 = body.trim_end().parse().expect("a number");
        assert!(num <= 100);
    }
}

#[test]
fn upper_limit_body_stays_in_range() {
    let mut source = RandomSource::new();
    for _ in 0..100 {
        let body = upper_limit(&mut source, 3);
        let num: u64 = body.trim_end().parse().expect("a number");
        assert!(num <= 3);
    }
    let body = upper_limit(&mut source, 0);
    assert_eq!(body, "0\n");
}

#[test]
fn both_limits_succeeds_exactly_when_ordered() {
    let mut source = RandomSource::new();
    let body = both_limits(&mut source, 5, 9).expect("ordered bounds succeed");
    let num: u64 = body.trim_end().parse().expect("a number");
    assert!((5..=9).contains(&num));
    assert_eq!(
        both_limits(&mut source, 9, 5),
        Err(RangeError::InvertedOrder(9, 5))
    );
}

#[test]
fn shuffle_keeps_every_item_exactly_once() {
    let mut source = RandomSource::new();
    for _ in 0..50 {
        let body = shuffle(&mut source, "a,b,c,a,");
        let mut items: Vec<&str> = body.split('\n').collect();
        items.sort();
        assert_eq!(items, vec!["", "a", "a", "b", "c"]);
    }
}

#[test]
fn index_page_carries_the_marker() {
    assert!(index_page().contains("Randoku"));
}

#[test]
fn dispatch_handles_the_64_bit_maximum() {
    let mut source = RandomSource::new();
    let resp = dispatch(&mut source, "/18446744073709551615", None);
    assert_eq!(resp.status, 200);
    let num: u64 = resp.body.trim_end().parse().expect("a number");
    assert!(num <= u64::MAX);
}

#[test]
fn dispatch_rejects_unknown_paths() {
    let mut source = RandomSource::new();
    assert_eq!(dispatch(&mut source, "/abc", None).status, 404);
    assert_eq!(dispatch(&mut source, "/1/2/3", None).status, 404);
    assert_eq!(dispatch(&mut source, "/shuffle", None).status, 404);
    assert_eq!(dispatch(&mut source, "/5/abc", None).status, 404);
    assert_eq!(dispatch(&mut source, "/-1/5", None).status, 404);
    assert_eq!(dispatch(&mut source, "", None).status, 404);
}

#[test]
fn dispatch_serves_empty_shuffle_items() {
    let mut source = RandomSource::new();
    let resp = dispatch(&mut source, "/shuffle/,", None);
    assert_eq!(resp.status, 200);
    assert_eq!(resp.body, "\n");
}
