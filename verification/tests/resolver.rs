use l4p::clock::{clamp_millis, Clock};
use l4p::relay::{copy, join, shuts_down_writer, CopyEnd, RelayTotals};
use l4p::resolver::{
    filter_addresses, Resolution, ResolutionFailure, ResolutionMode, SocketAddress,
    UpstreamAddress, NEGATIVE_TTL_MS, POSITIVE_TTL_MS,
};

fn v4(last: u32, port: u16) -> SocketAddress {
    SocketAddress::V4 { ip: 0x0a00_0000 + last, port }
}

fn v6(last: u128, port: u16) -> SocketAddress {
    SocketAddress::V6 { ip6: last, port, flowinfo: 0, scope_id: 0 }
}

fn mixed() -> Vec<SocketAddress> {
    vec![v6(1, 80), v4(1, 80), v4(2, 80), v6(2, 80), v4(3, 80)]
}

#[test]
fn mode_from_protocol() {
    assert_eq!(ResolutionMode::from_protocol("tcp"), Some(ResolutionMode::Ipv4AndIpv6));
    assert_eq!(ResolutionMode::from_protocol("tcp4"), Some(ResolutionMode::Ipv4));
    assert_eq!(ResolutionMode::from_protocol("tcp6"), Some(ResolutionMode::Ipv6));
    assert_eq!(ResolutionMode::from_protocol("udp"), None);
    assert_eq!(ResolutionMode::from_protocol(""), None);
    assert_eq!(ResolutionMode::from_protocol("TCP"), None);
}

#[test]
fn mode_names() {
    assert_eq!(ResolutionMode::Ipv4.describe(), "IPv4Only");
    assert_eq!(ResolutionMode::Ipv6.describe(), "IPv6Only");
    assert_eq!(ResolutionMode::Ipv4AndIpv6.describe(), "IPv4 and IPv6");
}

#[test]
fn filter_keeps_family_and_order() {
    assert_eq!(filter_addresses(&mixed(), ResolutionMode::Ipv4), vec![v4(1, 80), v4(2, 80), v4(3, 80)]);
    assert_eq!(filter_addresses(&mixed(), ResolutionMode::Ipv6), vec![v6(1, 80), v6(2, 80)]);
    assert_eq!(filter_addresses(&mixed(), ResolutionMode::Ipv4AndIpv6), mixed());
    assert_eq!(filter_addresses(&Vec::new(), ResolutionMode::Ipv4), Vec::new());
}

#[test]
fn new_entry_needs_a_lookup() {
    let e = UpstreamAddress::new("example.com:443".to_string());
    assert_eq!(e.address, "example.com:443");
    assert!(!e.is_valid(0));
    assert!(!e.is_resolved());
    assert_eq!(e.time_remaining(0), 0);
    assert_eq!(e.resolve(0), Resolution::Lookup);
}

#[test]
fn successful_lookup_is_cached_for_a_minute() {
    let mut e = UpstreamAddress::new("example.com:443".to_string());
    let got = e.record_lookup(ResolutionMode::Ipv4, 1000, Some(mixed()));
    assert_eq!(got, Ok(vec![v4(1, 80), v4(2, 80), v4(3, 80)]));
    assert_eq!(e.ttl, Some(60000));
    assert_eq!(POSITIVE_TTL_MS, 60000);
    assert_eq!(e.resolved_time, Some(1000));
    assert!(e.is_valid(1000));
    assert!(e.is_valid(60999));
    assert!(!e.is_valid(61000));
    assert_eq!(e.time_remaining(1000), 60000);
    assert_eq!(e.time_remaining(31000), 30000);
    assert_eq!(e.time_remaining(60999), 1);
    assert_eq!(e.time_remaining(61000), 0);
    assert_eq!(e.resolve(60999), Resolution::Cached(vec![v4(1, 80), v4(2, 80), v4(3, 80)]));
    assert_eq!(e.resolve(61000), Resolution::Lookup);
}

#[test]
fn resolve_twice_within_ttl_gives_the_same_addresses() {
    let mut e = UpstreamAddress::new("example.com:443".to_string());
    let stored = e.record_lookup(ResolutionMode::Ipv4AndIpv6, 5, Some(mixed())).unwrap();
    let first = e.resolve(10);
    let second = e.resolve(59000);
    assert_eq!(first, Resolution::Cached(stored));
    assert_eq!(first, second);
}

#[test]
fn failed_lookup_is_remembered_for_three_seconds() {
    let mut e = UpstreamAddress::new("nowhere.invalid:1".to_string());
    let _ = e.record_lookup(ResolutionMode::Ipv4AndIpv6, 0, Some(mixed()));
    let got = e.record_lookup(ResolutionMode::Ipv4AndIpv6, 100, None);
    assert_eq!(got, Err(ResolutionFailure::LookupFailed));
    assert_eq!(e.ttl, Some(3000));
    assert_eq!(NEGATIVE_TTL_MS, 3000);
    assert_eq!(e.resolved_time, Some(100));
    assert!(e.resolved_addresses.is_empty());
    assert!(e.is_valid(3099));
    assert!(!e.is_valid(3100));
    assert_eq!(e.resolve(200), Resolution::Lookup);
}

#[test]
fn lookup_without_wanted_family_fails() {
    let mut e = UpstreamAddress::new("v6only.example:1".to_string());
    let got = e.record_lookup(ResolutionMode::Ipv4, 7, Some(vec![v6(1, 1), v6(2, 1)]));
    assert_eq!(got, Err(ResolutionFailure::NoAddresses));
    assert_eq!(e.ttl, Some(3000));
    assert!(e.resolved_addresses.is_empty());
    assert_eq!(e.resolve(8), Resolution::Lookup);
    let got = e.record_lookup(ResolutionMode::Ipv6, 9, Some(Vec::new()));
    assert_eq!(got, Err(ResolutionFailure::NoAddresses));
}

#[test]
fn clock_reading_before_resolution_counts_as_valid() {
    let mut e = UpstreamAddress::new("example.com:443".to_string());
    let _ = e.record_lookup(ResolutionMode::Ipv4, 1000, Some(mixed()));
    assert!(e.is_valid(999));
    assert_eq!(e.time_remaining(999), 60000);
}

#[test]
fn clamp_millis_cuts_to_range() {
    assert_eq!(clamp_millis(-1), 0);
    assert_eq!(clamp_millis(0), 0);
    assert_eq!(clamp_millis(1234), 1234);
    assert_eq!(clamp_millis(u64::MAX as i128), u64::MAX);
    assert_eq!(clamp_millis(u64::MAX as i128 + 1), u64::MAX);
    assert_eq!(clamp_millis(i128::MIN), 0);
}

#[test]
fn clock_starts_near_zero_and_does_not_go_back() {
    let clock = Clock::start();
    let a = clock.now_ms();
    let b = clock.now_ms();
    assert!(a < 10_000);
    assert!(a <= b);
}

#[test]
fn relay_totals() {
    assert_eq!(copy(CopyEnd::Eof(11)), 11);
    assert_eq!(copy(CopyEnd::Failed), 0);
    assert!(shuts_down_writer(CopyEnd::Eof(0)));
    assert!(!shuts_down_writer(CopyEnd::Failed));
    assert_eq!(join(CopyEnd::Eof(2), CopyEnd::Eof(5)), RelayTotals { sent: 2, received: 5 });
    assert_eq!(join(CopyEnd::Failed, CopyEnd::Eof(5)), RelayTotals { sent: 0, received: 5 });
}
