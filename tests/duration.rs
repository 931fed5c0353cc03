use srcomapi::duration::parse_duration;

#[test]
fn hours_minutes_seconds() {
    assert_eq!(parse_duration("PT1H2M3S"), Some((3723, 0)));
}

#[test]
fn fractional_seconds() {
    assert_eq!(parse_duration("PT1H2M3.5S"), Some((3723, 500_000_000)));
    assert_eq!(parse_duration("PT0.123S"), Some((0, 123_000_000)));
    assert_eq!(parse_duration("PT.5S"), Some((0, 500_000_000)));
    assert_eq!(parse_duration("PT5.S"), Some((5, 0)));
}

#[test]
fn fractional_hours_and_minutes() {
    assert_eq!(parse_duration("PT1.5H"), Some((5400, 0)));
    assert_eq!(parse_duration("PT0.5M"), Some((30, 0)));
    assert_eq!(parse_duration("PT0.0001H0.001M"), Some((0, 420_000_000)));
}

#[test]
fn decimals_beyond_nanoseconds_round_down() {
    assert_eq!(parse_duration("PT0.1234567899S"), Some((0, 123_456_789)));
}

#[test]
fn parts_are_optional() {
    assert_eq!(parse_duration("PT"), Some((0, 0)));
    assert_eq!(parse_duration("PT42M"), Some((2520, 0)));
    assert_eq!(parse_duration("PT2H10S"), Some((7210, 0)));
}

#[test]
fn malformed_durations() {
    assert_eq!(parse_duration(""), None);
    assert_eq!(parse_duration("P1D"), None);
    assert_eq!(parse_duration("PT5"), None);
    assert_eq!(parse_duration("PT1S2M"), None);
    assert_eq!(parse_duration("PT1.2.3S"), None);
    assert_eq!(parse_duration("PT.S"), None);
    assert_eq!(parse_duration("PTxS"), None);
    assert_eq!(parse_duration("PT1M "), None);
}

#[test]
fn overlong_parts_are_refused() {
    assert_eq!(parse_duration("PT1234567890123S"), None);
    assert_eq!(parse_duration("PT123456789012S"), Some((123_456_789_012, 0)));
}
