use hlc::counter::parse_counter;
use hlc::error::HlcError;
use hlc::timestamp::HlcTimestamp;
use hlc::wall::WallTime;

fn stamp(secs: i64, nanos: u32, counter: u16, node: &str) -> HlcTimestamp {
    HlcTimestamp { date_time: WallTime::new(secs, nanos).unwrap(), counter, node_id: node.to_string() }
}

#[test]
fn formats_canonical_text() {
    let t = stamp(1705314600, 123_000_000, 0x1A, "alpha");
    assert_eq!(t.to_string(), "2024-01-15T10:30:00.123Z-001A-alpha");
    let t = stamp(1705314600, 0, 0xFFFF, "n");
    assert_eq!(t.to_string(), "2024-01-15T10:30:00Z-FFFF-n");
}

#[test]
fn parses_canonical_text() {
    let t = HlcTimestamp::parse("2024-01-15T10:30:00.123Z-001A-alpha").unwrap();
    assert_eq!(t, stamp(1705314600, 123_000_000, 0x1A, "alpha"));
    let t = HlcTimestamp::parse("2024-01-15T12:30:00+02:00-ff-n9").unwrap();
    assert_eq!(t, stamp(1705314600, 0, 0xFF, "n9"));
}

#[test]
fn node_id_may_hold_dashes() {
    let t = HlcTimestamp::parse("2024-01-15T10:30:00.123Z-001A-node-alpha").unwrap();
    assert_eq!(t, stamp(1705314600, 123_000_000, 0x1A, "node-alpha"));
    let t = HlcTimestamp::parse("2024-01-15T12:30:00-02:00-0001-a-b-").unwrap();
    assert_eq!(t, stamp(1705329000, 0, 1, "a-b-"));
    let t = HlcTimestamp::parse("2024-01-15T10:30:00Z-0001-").unwrap();
    assert_eq!(t, stamp(1705314600, 0, 1, ""));
}

#[test]
fn round_trips() {
    let cases = [
        stamp(0, 0, 0, "n1"),
        stamp(1705314600, 1, 7, "node_alpha"),
        stamp(1705314600, 1_500, 0xABCD, ""),
        stamp(-62167219200, 0, 0xFFFF, "x"),
        stamp(253402300799, 999_999_999, 16, "y"),
        stamp(1705314600, 0, 1, "a-b"),
        stamp(1705314600, 250_000_000, 2, "-"),
        stamp(0, 0, 3, "2024-01-15T10:30:00Z-0001-n"),
    ];
    for t in cases {
        let text = t.to_string();
        assert_eq!(HlcTimestamp::parse(&text), Ok(t));
    }
}

#[test]
fn rejects_malformed_text() {
    for s in [
        "",
        "no dashes at all",
        "0001-n1",
        "2024-01-15T10:30:00Z-XYZ-n1",
        "2024-01-15T10:30:00Z--n1",
        "2024-01-15T10:30:00Z-10000-n1",
        "2024-01-15-0000-n1",
    ] {
        assert_eq!(HlcTimestamp::parse(s), Err(HlcError::InvalidFormat), "{}", s);
    }
}

#[test]
fn counter_text_reads_hex_of_either_case() {
    assert_eq!(parse_counter("001a"), Some(0x1A));
    assert_eq!(parse_counter("FFFF"), Some(0xFFFF));
    assert_eq!(parse_counter("0000000F"), Some(15));
    assert_eq!(parse_counter("10000"), None);
    assert_eq!(parse_counter(""), None);
    assert_eq!(parse_counter("+1"), None);
}

#[test]
fn wall_time_reads_and_writes_rfc3339() {
    let w = WallTime::parse_rfc3339("2024-01-15T10:30:00Z").unwrap();
    assert_eq!(w, WallTime { secs: 1705314600, nanos: 0 });
    let w = WallTime::parse_rfc3339("1969-12-31T23:59:59.5Z").unwrap();
    assert_eq!(w, WallTime { secs: -1, nanos: 500_000_000 });
    assert_eq!(w.to_rfc3339(), "1969-12-31T23:59:59.500Z");
    assert_eq!(WallTime::epoch().to_rfc3339(), "1970-01-01T00:00:00Z");
    assert_eq!(WallTime::parse_rfc3339("2024-01-15"), None);
    assert_eq!(WallTime::new(253402300800, 0), None);
    assert_eq!(WallTime::new(0, 1_000_000_000), None);
}

#[test]
fn minutes_since_truncates_toward_zero() {
    let a = WallTime { secs: 1000, nanos: 0 };
    let b = WallTime { secs: 1000 + 179, nanos: 999_999_999 };
    assert_eq!(b.minutes_since(&a), 2);
    assert_eq!(a.minutes_since(&b), -2);
    assert_eq!(a.minutes_since(&a), 0);
}

#[test]
fn input_falls_back_to_unknown_epoch() {
    assert_eq!(HlcTimestamp::input("1970-01-01T00:00:00Z-0002-n7"), stamp(0, 0, 2, "n7"));
    assert_eq!(HlcTimestamp::input("garbage"), stamp(0, 0, 0, "unknown"));
}

#[test]
fn operators_follow_the_order() {
    let a = stamp(10, 0, 1, "b");
    let b = stamp(10, 0, 1, "c");
    let c = stamp(10, 5, 0, "a");
    assert!(a < b && b < c && a < c);
    assert!(c > a && a <= a && a >= a && !(a < a));
    assert!(a.is_valid());
    let bad = HlcTimestamp { date_time: WallTime { secs: 0, nanos: 1_000_000_000 }, counter: 0, node_id: String::new() };
    assert!(!bad.is_valid());
}
