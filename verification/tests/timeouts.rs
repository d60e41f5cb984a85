use std::time::Duration;

use connectrpc::protocol::Protocol;
use connectrpc::timeout::{format_timeout, format_timeout_nanos};

#[test]
fn test_format_timeout_connect() {
    assert_eq!(format_timeout(Duration::from_millis(5000), Protocol::Connect), "5000");
    assert_eq!(format_timeout(Duration::from_secs(0), Protocol::Connect), "0");
}

#[test]
fn test_format_timeout_connect_caps_at_10_digits() {
    assert_eq!(
        format_timeout(Duration::from_millis(9_999_999_999), Protocol::Connect),
        "9999999999"
    );
    assert_eq!(
        format_timeout(Duration::from_secs(365 * 86400), Protocol::Connect),
        "9999999999"
    );
    assert_eq!(format_timeout(Duration::MAX, Protocol::Connect), "9999999999");
}

#[test]
fn test_format_timeout_grpc_seconds() {
    assert_eq!(format_timeout(Duration::from_secs(30), Protocol::Grpc), "30S");
}

#[test]
fn test_format_timeout_grpc_milliseconds() {
    assert_eq!(format_timeout(Duration::from_millis(500), Protocol::Grpc), "500m");
}

#[test]
fn test_format_timeout_grpc_microseconds() {
    assert_eq!(format_timeout(Duration::from_micros(100), Protocol::Grpc), "100u");
}

#[test]
fn test_format_timeout_grpc_nanoseconds() {
    assert_eq!(format_timeout(Duration::from_nanos(999), Protocol::Grpc), "999n");
}

#[test]
fn test_format_timeout_grpc_zero() {
    assert_eq!(format_timeout(Duration::from_secs(0), Protocol::Grpc), "0n");
}

#[test]
fn test_format_timeout_grpc_8_digit_limit() {
    assert_eq!(
        format_timeout(Duration::from_secs(99_999_999), Protocol::Grpc),
        "99999999S"
    );
    assert_eq!(
        format_timeout(Duration::from_secs(100_000_000), Protocol::Grpc),
        "99999999S"
    );
}

#[test]
fn test_format_timeout_grpc_web_same_as_grpc() {
    assert_eq!(format_timeout(Duration::from_millis(500), Protocol::GrpcWeb), "500m");
}

#[test]
fn test_format_timeout_grpc_subsecond_nanosecond_residue() {
    assert_eq!(
        format_timeout(Duration::from_nanos(100_000_001), Protocol::Grpc),
        "100000u"
    );
    assert_eq!(
        format_timeout(Duration::from_nanos(100_000_000), Protocol::Grpc),
        "100m"
    );
    assert_eq!(
        format_timeout(Duration::from_nanos(200_000_000_001), Protocol::Grpc),
        "200000m"
    );
}

#[test]
fn connect_timeout_drops_what_is_below_a_millisecond() {
    assert_eq!(format_timeout(Duration::from_micros(1999), Protocol::Connect), "1");
    assert_eq!(format_timeout(Duration::from_nanos(1), Protocol::Connect), "0");
}

#[test]
fn grpc_timeout_of_long_uneven_duration_is_cut_to_seconds() {
    assert_eq!(
        format_timeout(Duration::new(1_000_000, 1), Protocol::Grpc),
        "1000000S"
    );
    assert_eq!(format_timeout(Duration::MAX, Protocol::Grpc), "99999999S");
}

#[test]
fn nanoseconds_and_durations_are_formatted_alike() {
    for nanos in [0u64, 1, 999, 1_000, 99_999_999, 100_000_001, 3_600_000_000_000] {
        for protocol in [Protocol::Connect, Protocol::Grpc, Protocol::GrpcWeb] {
            assert_eq!(
                format_timeout(Duration::from_nanos(nanos), protocol),
                format_timeout_nanos(nanos as u128, protocol)
            );
        }
    }
}
