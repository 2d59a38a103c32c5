use rust_service::text::health_body;
use rust_service::text::render_i64;
use rust_service::text::response_body;

#[test]
fn renders_zero() {
    assert_eq!(render_i64(0), "0");
}

#[test]
fn renders_multi_digit() {
    assert_eq!(render_i64(10), "10");
    assert_eq!(render_i64(12345), "12345");
    assert_eq!(render_i64(1_000_000), "1000000");
}

#[test]
fn renders_negative() {
    assert_eq!(render_i64(-1), "-1");
    assert_eq!(render_i64(-42), "-42");
}

#[test]
fn renders_extremes() {
    assert_eq!(render_i64(i64::MAX), "9223372036854775807");
    assert_eq!(render_i64(i64::MIN), "-9223372036854775808");
}

#[test]
fn response_body_matches_pattern() {
    assert_eq!(response_body(0), "ok (checksum: 0)");
    assert_eq!(response_body(12345), "ok (checksum: 12345)");
    assert_eq!(response_body(-42), "ok (checksum: -42)");
}

#[test]
fn health_body_is_ok() {
    assert_eq!(health_body(), "ok");
}
