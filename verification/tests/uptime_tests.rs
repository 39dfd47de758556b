use pathfinder_nav::uptime::{format_uptime, parse_uptime_to_seconds};

#[test]
fn test_format_uptime_units() {
    assert_eq!(format_uptime(30), "30s");
    assert_eq!(format_uptime(60), "1m");
    assert_eq!(format_uptime(90), "1m30s");
    assert_eq!(format_uptime(3600), "1h");
    assert_eq!(format_uptime(3660), "1h1m");
    assert_eq!(format_uptime(3725), "1h2m");
}

#[test]
fn health_test_test_parse_uptime_to_seconds() {
    assert_eq!(parse_uptime_to_seconds(Some("5s")), Some(5));
    assert_eq!(parse_uptime_to_seconds(Some("1m30s")), Some(90));
    assert_eq!(parse_uptime_to_seconds(Some("2h15m")), Some(8100));
    assert_eq!(parse_uptime_to_seconds(Some("1h30m45s")), Some(5445));
    assert_eq!(parse_uptime_to_seconds(Some("1m")), Some(60));
    assert_eq!(parse_uptime_to_seconds(Some("1h")), Some(3600));
    assert_eq!(parse_uptime_to_seconds(None), None);
}

#[test]
fn format_uptime_edges() {
    assert_eq!(format_uptime(0), "0s");
    assert_eq!(format_uptime(59), "59s");
    assert_eq!(format_uptime(3599), "59m59s");
    assert_eq!(format_uptime(7200), "2h");
    assert_eq!(format_uptime(86399), "23h59m");
}

#[test]
fn parse_uptime_ignores_unparsable_fields() {
    assert_eq!(parse_uptime_to_seconds(Some("")), Some(0));
    assert_eq!(parse_uptime_to_seconds(Some("abc")), Some(0));
    assert_eq!(parse_uptime_to_seconds(Some("xhym5s")), Some(5));
    assert_eq!(parse_uptime_to_seconds(Some("3h")), Some(10800));
}

#[test]
fn uptime_round_trip_drops_only_seconds_past_an_hour() {
    for s in [0u64, 1, 59, 60, 61, 3599, 3600, 3601, 3659, 3725, 90061] {
        let back = parse_uptime_to_seconds(Some(&format_uptime(s))).unwrap();
        let expected = if s >= 3600 { s - s % 60 } else { s };
        assert_eq!(back, expected, "round trip of {s}");
    }
}
