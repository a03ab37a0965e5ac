use hlc::clock::{
    hlc_compare, hlc_eq, hlc_from_date, hlc_get_state, hlc_gt, hlc_gte, hlc_increment,
    hlc_increment_at, hlc_increment_simple, hlc_lt, hlc_lte, hlc_merge, hlc_merge_at,
    hlc_merge_simple, hlc_now, hlc_parse, hlc_reset, hlc_to_string, hlc_zero,
};
use hlc::error::HlcError;
use hlc::store::ClockStore;
use hlc::timestamp::HlcTimestamp;
use hlc::wall::WallTime;

const T: i64 = 1705314600; // 2024-01-15T10:30:00Z

fn at(secs: i64) -> WallTime {
    WallTime::new(secs, 0).unwrap()
}

fn stamp(secs: i64, counter: u16, node: &str) -> HlcTimestamp {
    HlcTimestamp { date_time: at(secs), counter, node_id: node.to_string() }
}

#[test]
fn zero_is_epoch_and_formats() {
    let mut store = ClockStore::new();
    let t = hlc_zero(&mut store, "n1");
    assert_eq!(t, stamp(0, 0, "n1"));
    assert_eq!(hlc_to_string(&t), "1970-01-01T00:00:00Z-0000-n1");
}

#[test]
fn increment_twice_at_same_wall_time() {
    let mut store = ClockStore::new();
    hlc_from_date(&mut store, "2024-01-15T10:30:00Z", "n1").unwrap();
    let a = hlc_increment(&mut store, "n1", Some("2024-01-15T10:30:00Z"), at(0)).unwrap();
    let b = hlc_increment(&mut store, "n1", Some("2024-01-15T10:30:00Z"), at(0)).unwrap();
    assert_eq!(a, stamp(T, 1, "n1"));
    assert_eq!(b, stamp(T, 2, "n1"));
    assert!(hlc_lt(&a, &b));
}

#[test]
fn increment_with_state_an_hour_ahead_drifts() {
    let mut store = ClockStore::new();
    hlc_from_date(&mut store, "2024-01-15T11:30:00Z", "n1").unwrap();
    let r = hlc_increment_at(&mut store, "n1", at(T));
    assert_eq!(r, Err(HlcError::ClockDrift { drift_minutes: 60 }));
    assert_eq!(hlc_get_state(&mut store, "n1"), stamp(T + 3600, 0, "n1"));
}

#[test]
fn increment_with_wall_time_an_hour_ahead_adopts_it() {
    let mut store = ClockStore::new();
    hlc_from_date(&mut store, "2024-01-15T10:30:00Z", "n1").unwrap();
    let r = hlc_increment_at(&mut store, "n1", at(T + 3600)).unwrap();
    assert_eq!(r, stamp(T + 3600, 0, "n1"));
}

#[test]
fn drift_over_one_minute_fails() {
    let mut store = ClockStore::new();
    hlc_now(&mut store, "n1", at(T + 60));
    let r = hlc_increment_at(&mut store, "n1", at(T)).unwrap();
    assert_eq!(r, stamp(T + 60, 1, "n1"));
    let r = hlc_increment_at(&mut store, "n1", WallTime::new(T, 999_999_999).unwrap()).unwrap();
    assert_eq!(r, stamp(T + 60, 2, "n1"));
    let r = hlc_increment_at(&mut store, "n1", WallTime::new(T - 1, 999_999_999).unwrap());
    assert_eq!(r, Err(HlcError::ClockDrift { drift_minutes: 1 }));
    hlc_now(&mut store, "n1", at(T + 90));
    let r = hlc_increment_at(&mut store, "n1", at(T));
    assert_eq!(r, Err(HlcError::ClockDrift { drift_minutes: 1 }));
    hlc_now(&mut store, "n1", at(T + 119));
    let r = hlc_increment_at(&mut store, "n1", at(T));
    assert_eq!(r, Err(HlcError::ClockDrift { drift_minutes: 1 }));
    hlc_now(&mut store, "n1", at(T + 120));
    let r = hlc_increment_at(&mut store, "n1", at(T));
    assert_eq!(r, Err(HlcError::ClockDrift { drift_minutes: 2 }));
}

#[test]
fn merge_of_remote_ninety_seconds_ahead_drifts() {
    let mut store = ClockStore::new();
    let r = hlc_merge_at(&mut store, "n1", &stamp(T + 90, 0, "n2"), at(T));
    assert_eq!(r, Err(HlcError::ClockDrift { drift_minutes: 1 }));
    let r = hlc_merge_at(&mut store, "n1", &stamp(T + 60, 0, "n2"), at(T)).unwrap();
    assert_eq!(r, stamp(T + 60, 0, "n1"));
}

#[test]
fn dashed_node_ids_survive_format_and_parse() {
    let mut store = ClockStore::new();
    let t = hlc_zero(&mut store, "a-b");
    assert_eq!(hlc_parse(&hlc_to_string(&t)), Ok(t));
    let t = hlc_increment_at(&mut store, "node-alpha", at(T)).unwrap();
    assert_eq!(hlc_to_string(&t), "2024-01-15T10:30:00Z-0000-node-alpha");
    assert_eq!(hlc_parse(&hlc_to_string(&t)), Ok(t));
}

#[test]
fn increment_overflows_past_ffff() {
    let mut store = ClockStore::new();
    hlc_merge_at(&mut store, "n1", &stamp(T, 0xFFFF, "n2"), at(T)).unwrap();
    let r = hlc_increment_at(&mut store, "n1", at(T));
    assert_eq!(r, Err(HlcError::Overflow { counter: 0x10000 }));
    assert_eq!(hlc_get_state(&mut store, "n1"), stamp(T, 0xFFFF, "n1"));
}

#[test]
fn increment_rejects_bad_wall_time() {
    let mut store = ClockStore::new();
    let r = hlc_increment(&mut store, "n1", Some("yesterday"), at(T));
    assert_eq!(r, Err(HlcError::InvalidTimestamp));
}

#[test]
fn increment_without_wall_time_uses_now() {
    let mut store = ClockStore::new();
    let r = hlc_increment(&mut store, "n1", None, at(T)).unwrap();
    assert_eq!(r, stamp(T, 0, "n1"));
}

#[test]
fn merge_adopts_newer_remote_with_local_id() {
    let mut store = ClockStore::new();
    hlc_from_date(&mut store, "2024-01-15T10:30:00Z", "n1").unwrap();
    let remote = stamp(T + 5, 3, "n2");
    let r = hlc_merge(&mut store, "n1", &remote, Some("2024-01-15T10:30:05Z"), at(0)).unwrap();
    assert_eq!(r, stamp(T + 5, 3, "n1"));
    assert_eq!(hlc_get_state(&mut store, "n1"), stamp(T + 5, 3, "n1"));
}

#[test]
fn merge_with_own_node_id_fails() {
    let mut store = ClockStore::new();
    hlc_from_date(&mut store, "2024-01-15T10:30:00Z", "n1").unwrap();
    let r = hlc_merge_at(&mut store, "n1", &stamp(T + 5, 0, "n1"), at(T + 5));
    assert_eq!(r, Err(HlcError::DuplicateNode { node_id: "n1".to_string() }));
    assert_eq!(hlc_get_state(&mut store, "n1"), stamp(T, 0, "n1"));
}

#[test]
fn merge_of_older_remote_changes_nothing() {
    let mut store = ClockStore::new();
    hlc_merge_at(&mut store, "n1", &stamp(T, 4, "n2"), at(T)).unwrap();
    let r = hlc_merge_at(&mut store, "n1", &stamp(T, 4, "n3"), at(T)).unwrap();
    assert_eq!(r, stamp(T, 4, "n1"));
    let r = hlc_merge_at(&mut store, "n1", &stamp(T - 1, 9, "n1"), at(T)).unwrap();
    assert_eq!(r, stamp(T, 4, "n1"));
    assert_eq!(hlc_get_state(&mut store, "n1"), stamp(T, 4, "n1"));
}

#[test]
fn merge_of_remote_far_ahead_drifts() {
    let mut store = ClockStore::new();
    let r = hlc_merge_at(&mut store, "n1", &stamp(T + 3600, 0, "n2"), at(T));
    assert_eq!(r, Err(HlcError::ClockDrift { drift_minutes: 60 }));
    assert_eq!(hlc_get_state(&mut store, "n1"), stamp(0, 0, "n1"));
}

#[test]
fn merge_rejects_bad_wall_time() {
    let mut store = ClockStore::new();
    let r = hlc_merge(&mut store, "n1", &stamp(T, 1, "n2"), Some("2024-13-01T00:00:00Z"), at(T));
    assert_eq!(r, Err(HlcError::InvalidTimestamp));
}

#[test]
fn simple_variants_fall_back_to_now() {
    let mut store = ClockStore::new();
    hlc_now(&mut store, "n1", at(T + 3600));
    let r = hlc_increment_simple(&mut store, "n1", at(T));
    assert_eq!(r, stamp(T, 0, "n1"));
    let r = hlc_increment_simple(&mut store, "n1", at(T));
    assert_eq!(r, stamp(T, 1, "n1"));
    let r = hlc_merge_simple(&mut store, "n1", &stamp(T + 10, 0, "n1"), at(T + 20));
    assert_eq!(r, stamp(T + 20, 0, "n1"));
    let r = hlc_merge_simple(&mut store, "n1", &stamp(T + 30, 2, "n2"), at(T + 30));
    assert_eq!(r, stamp(T + 30, 2, "n1"));
}

#[test]
fn from_date_reads_offsets_and_rejects_garbage() {
    let mut store = ClockStore::new();
    let r = hlc_from_date(&mut store, "2024-01-15T11:30:00+01:00", "n1").unwrap();
    assert_eq!(r, stamp(T, 0, "n1"));
    let r = hlc_from_date(&mut store, "not a date", "n1");
    assert_eq!(r, Err(HlcError::InvalidTimestamp));
    assert_eq!(hlc_get_state(&mut store, "n1"), stamp(T, 0, "n1"));
}

#[test]
fn reset_returns_node_to_zero() {
    let mut store = ClockStore::new();
    hlc_now(&mut store, "n1", at(T));
    hlc_now(&mut store, "n2", at(T + 1));
    hlc_reset(&mut store, "n1");
    assert_eq!(hlc_get_state(&mut store, "n1"), stamp(0, 0, "n1"));
    assert_eq!(hlc_get_state(&mut store, "n2"), stamp(T + 1, 0, "n2"));
}

#[test]
fn nodes_are_independent() {
    let mut store = ClockStore::new();
    hlc_now(&mut store, "a", at(T));
    hlc_increment_at(&mut store, "b", at(T + 7)).unwrap();
    assert_eq!(hlc_get_state(&mut store, "a"), stamp(T, 0, "a"));
    assert_eq!(hlc_get_state(&mut store, "b"), stamp(T + 7, 0, "b"));
}

#[test]
fn repeated_increments_strictly_increase() {
    let mut store = ClockStore::new();
    let walls = [T, T, T + 1, T + 1, T + 1, T + 2];
    let mut prev = hlc_get_state(&mut store, "n1");
    for w in walls {
        let next = hlc_increment_at(&mut store, "n1", at(w)).unwrap();
        assert_eq!(hlc_compare(&prev, &next), -1);
        prev = next;
    }
    assert_eq!(prev, stamp(T + 2, 0, "n1"));
}

#[test]
fn order_goes_by_time_counter_then_node() {
    let a = stamp(T, 5, "z");
    let b = stamp(T + 1, 0, "a");
    assert_eq!(hlc_compare(&a, &b), -1);
    assert_eq!(hlc_compare(&b, &a), 1);
    let c = stamp(T, 6, "a");
    assert!(hlc_lt(&a, &c) && hlc_gt(&c, &a));
    let d = stamp(T, 5, "zz");
    assert!(hlc_lt(&a, &d) && hlc_lte(&a, &d) && !hlc_gte(&a, &d));
    let e = stamp(T, 5, "z");
    assert_eq!(hlc_compare(&a, &e), 0);
    assert!(hlc_eq(&a, &e) && hlc_lte(&a, &e) && hlc_gte(&a, &e));
    let f = HlcTimestamp { date_time: WallTime::new(T, 1).unwrap(), counter: 0, node_id: "a".to_string() };
    assert_eq!(hlc_compare(&a, &f), -1);
}

#[test]
fn parse_via_clock_entry() {
    let t = hlc_parse("2024-01-15T10:30:00Z-001A-alpha").unwrap();
    assert_eq!(t, stamp(T, 0x1A, "alpha"));
}
