//! End-to-end tests of the route dispatcher: one request in, one
//! response out, as the service's HTTP surface promises.

use randoku::rng::RandomSource;
use randoku::routes::dispatch;

#[test]
fn test_index() {
    let mut source = RandomSource::new();
    let response = dispatch(&mut source, "/", Some("Mozilla/5.0"));
    let content = response.content_type.header_value();
    assert!(content.contains("text/html"));
    assert!(response.body.contains("Randoku"));
}

#[test]
fn test_upto() {
    let mut source = RandomSource::new();
    let resp = dispatch(&mut source, "/3", None);
    let num: u64 = resp.body.trim_end().parse().expect("a number");
    assert!(num <= 3);
}

#[test]
fn test_upto_large_number() {
    let mut source = RandomSource::new();
    let resp = dispatch(&mut source, "/9999999999", None);
    assert_eq!(resp.status, 200);

    let num: u64 = resp.body.trim_end().parse().expect("a number");
    assert!(num <= 9999999999);
}

#[test]
fn test_from_to() {
    let mut source = RandomSource::new();
    let resp = dispatch(&mut source, "/5/9", None);
    let num: u64 = resp.body.trim_end().parse().expect("a number");
    assert!(num <= 9);
    assert!(num >= 5);
}

#[test]
fn test_from_greater_than_to_fails() {
    let mut source = RandomSource::new();
    let resp = dispatch(&mut source, "/9/5", None);
    assert_eq!(resp.status, 400);
    assert_eq!(
        resp.body,
        "Wrong parameter order: 9 should be <= 5 (try switching them around).".to_string()
    );
}

#[test]
fn test_random() {
    let mut source = RandomSource::new();
    let response = dispatch(&mut source, "/", Some("curl/1.1.1"));

    let num: u64 = response.body.trim_end().parse().expect("a number");
    assert!(num <= 100);
}

#[test]
fn test_shuffle() {
    let mut source = RandomSource::new();
    let response = dispatch(&mut source, "/shuffle/apples,bananas,oranges", None);

    let body = response.body.trim_end();
    assert!(body.contains("apples"));
    assert!(body.contains("bananas"));
    assert!(body.contains("oranges"));
}

#[test]
fn main_test_index() {
    let mut source = RandomSource::new();
    let resp = dispatch(&mut source, "/", Some("Mozilla/5.0"));

    assert_eq!(resp.status, 200);
    assert_eq!(resp.content_type.header_value(), "text/html; charset=utf-8");
    assert!(resp.body.contains("Randoku"));
}

#[test]
fn main_test_upto() {
    let mut source = RandomSource::new();
    let resp = dispatch(&mut source, "/3", None);

    assert_eq!(resp.status, 200);
    let num: u64 = resp.body.trim_end().parse().expect("a number");
    assert!(num <= 3);
}

#[test]
fn main_test_upto_large_number() {
    let mut source = RandomSource::new();
    let resp = dispatch(&mut source, "/9999999999", None);

    assert_eq!(resp.status, 200);
    let _: u64 = resp.body.trim_end().parse().expect("a number");
}

#[test]
fn main_test_from_to() {
    let mut source = RandomSource::new();
    let resp = dispatch(&mut source, "/5/9", None);

    assert_eq!(resp.status, 200);
    let num: u64 = resp.body.trim_end().parse().expect("a number");
    assert!(num <= 9);
    assert!(num >= 5);
}

#[test]
fn main_test_from_greater_than_to_fails() {
    let mut source = RandomSource::new();
    let resp = dispatch(&mut source, "/9/5", None);

    assert_eq!(resp.status, 400);
    assert_eq!(
        resp.body,
        "Wrong parameter order: 9 should be <= 5 (try switching them around).".to_string()
    );
}

#[test]
fn main_test_random() {
    let mut source = RandomSource::new();
    let resp = dispatch(&mut source, "/", Some("curl/1.1.1"));

    assert_eq!(resp.status, 200);
    assert_eq!(resp.content_type.header_value(), "text/plain; charset=utf-8");
    let num: u64 = resp.body.trim_end().parse().unwrap();
    assert!(num <= 100);
}

#[test]
fn main_test_shuffle() {
    let mut source = RandomSource::new();
    let resp = dispatch(&mut source, "/shuffle/apples,bananas,oranges", None);

    assert_eq!(resp.status, 200);
    assert!(resp.body.contains("apples"));
    assert!(resp.body.contains("bananas"));
    assert!(resp.body.contains("oranges"));
}
