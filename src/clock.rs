//! The clock algorithm: the operations that read and advance a node's
//! state in a `ClockStore` and hand out timestamps.
use vstd::prelude::*;

use crate::counter::MAX_COUNTER;
use crate::error::HlcError;
use crate::store::{state_in, zero_state, ClockState, ClockStore};
use crate::timestamp::{fields_cmp, parse_fields, Fields, HlcTimestamp};
use crate::wall::{drift_minutes, rfc3339_instant, total_nanos, wall_from_reading, WallTime};

verus! {

/// How many minutes a clock may run ahead of the wall time it observes.
pub const MAX_DRIFT_MINUTES: i64 = 1;

/// `MAX_DRIFT_MINUTES` in nanoseconds.
pub const MAX_DRIFT_NANOS: i128 = 60_000_000_000;

/// `later` is ahead of `earlier` by more than the drift allowed.
pub open spec fn drift_exceeded(later: WallTime, earlier: WallTime) -> bool {
    total_nanos(later) - total_nanos(earlier) > MAX_DRIFT_NANOS
}

/// The wall time an operation goes by: the given RFC 3339 text where there
/// is one, else `now`; `None` where the text is not a timestamp in range.
pub open spec fn observed_wall(wall_time: Option<&str>, now: WallTime) -> Option<WallTime> {
    match wall_time {
        Some(s) => wall_from_reading(rfc3339_instant(s@)),
        None => Some(now),
    }
}

/// The wall time after an increment: the later of the state's and `w`.
pub open spec fn next_time(st: ClockState, w: WallTime) -> WallTime {
    if st.date_time.before(w) {
        w
    } else {
        st.date_time
    }
}

/// The counter after an increment: one more where the wall time stays,
/// else 0.
pub open spec fn next_counter(st: ClockState, w: WallTime) -> int {
    if next_time(st, w) == st.date_time {
        st.counter + 1
    } else {
        0
    }
}

/// The state an increment at wall time `w` moves to, if it is allowed.
pub open spec fn increment_step(st: ClockState, w: WallTime) -> Option<ClockState> {
    if drift_exceeded(next_time(st, w), w) || next_counter(st, w) > MAX_COUNTER {
        None
    } else {
        Some(ClockState { date_time: next_time(st, w), counter: next_counter(st, w) as u16 })
    }
}

/// What an increment of `id` at wall time `w` returns, and how it changes
/// the store's map from `before` to `after`.
pub open spec fn increment_post(
    before: Map<Seq<char>, ClockState>,
    after: Map<Seq<char>, ClockState>,
    id: Seq<char>,
    w: WallTime,
    r: Result<HlcTimestamp, HlcError>,
) -> bool {
    let st = state_in(before, id);
    let t = next_time(st, w);
    let c = next_counter(st, w);
    let d = drift_minutes(t, w);
    if drift_exceeded(t, w) {
        r == Err::<HlcTimestamp, HlcError>(HlcError::ClockDrift { drift_minutes: d as i64 })
            && after == before
    } else if c > MAX_COUNTER {
        r == Err::<HlcTimestamp, HlcError>(HlcError::Overflow { counter: c as u32 }) && after
            == before
    } else {
        &&& r matches Ok(ts)
        &&& ts.wf()
        &&& ts.fields() == (t, c as u16, id)
        &&& increment_step(st, w) == Some(ClockState { date_time: t, counter: c as u16 })
        &&& after == before.insert(id, ClockState { date_time: t, counter: c as u16 })
    }
}

/// The remote timestamp is causally after the local state: a later wall
/// time, or the same wall time with a higher counter.
pub open spec fn remote_is_newer(st: ClockState, remote: Fields) -> bool {
    st.date_time.before(remote.0) || (remote.0 == st.date_time && remote.1 > st.counter)
}

/// What a merge of `remote` into node `local` at wall time `w` returns, and
/// how it changes the store's map from `before` to `after`.
pub open spec fn merge_post(
    before: Map<Seq<char>, ClockState>,
    after: Map<Seq<char>, ClockState>,
    local: Seq<char>,
    remote: Fields,
    w: WallTime,
    r: Result<HlcTimestamp, HlcError>,
) -> bool {
    let st = state_in(before, local);
    let d = drift_minutes(remote.0, w);
    if !remote_is_newer(st, remote) {
        &&& r matches Ok(ts)
        &&& ts.wf()
        &&& ts.fields() == (st.date_time, st.counter, local)
        &&& after == before
    } else if remote.2 == local {
        &&& r matches Err(HlcError::DuplicateNode { node_id })
        &&& node_id@ == local
        &&& after == before
    } else if drift_exceeded(remote.0, w) {
        r == Err::<HlcTimestamp, HlcError>(HlcError::ClockDrift { drift_minutes: d as i64 })
            && after == before
    } else {
        &&& r matches Ok(ts)
        &&& ts.wf()
        &&& ts.fields() == (remote.0, remote.1, local)
        &&& after == before.insert(local, ClockState { date_time: remote.0, counter: remote.1 })
    }
}

/// The wall time to go by: `wall_time` read as RFC 3339 where given, else
/// `now`.
fn observe(wall_time: Option<&str>, now: WallTime) -> (r: Option<WallTime>)
    ensures
        r == observed_wall(wall_time, now),
{
    match wall_time {
        Some(s) => WallTime::parse_rfc3339(s),
        None => Some(now),
    }
}

/// Sets `node_id` to the Unix epoch with counter 0.
pub fn hlc_zero(store: &mut ClockStore, node_id: &str) -> (r: HlcTimestamp)
    requires
        old(store).wf(),
    ensures
        final(store).wf(),
        final(store)@ == old(store)@.insert(node_id@, zero_state()),
        r.wf(),
        r.fields() == (zero_state().date_time, 0u16, node_id@),
{
    let state = ClockState::new();
    store.put(node_id, state);
    HlcTimestamp::from_state(node_id, &state)
}

/// Sets `node_id` to the RFC 3339 time `date_time` with counter 0.
pub fn hlc_from_date(store: &mut ClockStore, date_time: &str, node_id: &str) -> (r: Result<
    HlcTimestamp,
    HlcError,
>)
    requires
        old(store).wf(),
    ensures
        final(store).wf(),
        match wall_from_reading(rfc3339_instant(date_time@)) {
            Some(w) => {
                &&& r matches Ok(ts)
                &&& ts.wf()
                &&& ts.fields() == (w, 0u16, node_id@)
                &&& final(store)@ == old(store)@.insert(
                    node_id@,
                    ClockState { date_time: w, counter: 0 },
                )
            },
            None => r == Err::<HlcTimestamp, HlcError>(HlcError::InvalidTimestamp) && final(store)@ == old(store)@,
        },
{
    match WallTime::parse_rfc3339(date_time) {
        Some(w) => {
            let state = ClockState { date_time: w, counter: 0 };
            store.put(node_id, state);
            Ok(HlcTimestamp::from_state(node_id, &state))
        },
        None => Err(HlcError::InvalidTimestamp),
    }
}

/// Sets `node_id` to the wall time `now` with counter 0.
pub fn hlc_now(store: &mut ClockStore, node_id: &str, now: WallTime) -> (r: HlcTimestamp)
    requires
        old(store).wf(),
        now.wf(),
    ensures
        final(store).wf(),
        final(store)@ == old(store)@.insert(node_id@, ClockState { date_time: now, counter: 0 }),
        r.wf(),
        r.fields() == (now, 0u16, node_id@),
{
    let state = ClockState { date_time: now, counter: 0 };
    store.put(node_id, state);
    HlcTimestamp::from_state(node_id, &state)
}

/// Reads a timestamp from its canonical text.
pub fn hlc_parse(timestamp: &str) -> (r: Result<HlcTimestamp, HlcError>)
    ensures
        match r {
            Ok(t) => t.wf() && parse_fields(timestamp@) == Some(t.fields()),
            Err(e) => e == HlcError::InvalidFormat && parse_fields(timestamp@) is None,
        },
{
    HlcTimestamp::parse(timestamp)
}

/// Advances `node_id` past its current state, going by wall time `w`.
pub fn hlc_increment_at(store: &mut ClockStore, node_id: &str, w: WallTime) -> (r: Result<
    HlcTimestamp,
    HlcError,
>)
    requires
        old(store).wf(),
        w.wf(),
    ensures
        final(store).wf(),
        increment_post(old(store)@, final(store)@, node_id@, w, r),
{
    let current = store.lookup(node_id);
    let date_time_new = if current.date_time.is_before(&w) {
        w
    } else {
        current.date_time
    };
    let counter_new: u32 = if date_time_new == current.date_time {
        current.counter as u32 + 1
    } else {
        0
    };
    if date_time_new.nanos_since(&w) > MAX_DRIFT_NANOS {
        return Err(HlcError::ClockDrift { drift_minutes: date_time_new.minutes_since(&w) });
    }
    if counter_new > MAX_COUNTER {
        return Err(HlcError::Overflow { counter: counter_new });
    }
    let state = ClockState { date_time: date_time_new, counter: counter_new as u16 };
    store.put(node_id, state);
    Ok(HlcTimestamp::from_state(node_id, &state))
}

/// Advances `node_id` past its current state, going by the RFC 3339 time
/// `wall_time` where given, else by `now`.
pub fn hlc_increment(
    store: &mut ClockStore,
    node_id: &str,
    wall_time: Option<&str>,
    now: WallTime,
) -> (r: Result<HlcTimestamp, HlcError>)
    requires
        old(store).wf(),
        now.wf(),
    ensures
        final(store).wf(),
        match observed_wall(wall_time, now) {
            Some(w) => increment_post(old(store)@, final(store)@, node_id@, w, r),
            None => r == Err::<HlcTimestamp, HlcError>(HlcError::InvalidTimestamp) && final(store)@ == old(store)@,
        },
{
    match observe(wall_time, now) {
        Some(w) => hlc_increment_at(store, node_id, w),
        None => Err(HlcError::InvalidTimestamp),
    }
}

/// Moves node `local_node_id` up to a newer `remote` timestamp, keeping its
/// own node id, going by wall time `w`; an older or equal remote leaves it
/// as it is.
pub fn hlc_merge_at(
    store: &mut ClockStore,
    local_node_id: &str,
    remote: &HlcTimestamp,
    w: WallTime,
) -> (r: Result<HlcTimestamp, HlcError>)
    requires
        old(store).wf(),
        remote.wf(),
        w.wf(),
    ensures
        final(store).wf(),
        merge_post(old(store)@, final(store)@, local_node_id@, remote.fields(), w, r),
{
    let local = store.lookup(local_node_id);
    if remote.date_time.is_before(&local.date_time) || (remote.date_time == local.date_time
        && remote.counter <= local.counter) {
        return Ok(HlcTimestamp::from_state(local_node_id, &local));
    }
    let local_id = String::from_str(local_node_id);
    if local_id == remote.node_id {
        return Err(HlcError::DuplicateNode { node_id: local_id });
    }
    if remote.date_time.nanos_since(&w) > MAX_DRIFT_NANOS {
        return Err(HlcError::ClockDrift { drift_minutes: remote.date_time.minutes_since(&w) });
    }
    let state = ClockState { date_time: remote.date_time, counter: remote.counter };
    store.put(local_node_id, state);
    Ok(HlcTimestamp::from_state(local_node_id, &state))
}

/// Merges `remote` into node `local_node_id`, going by the RFC 3339 time
/// `wall_time` where given, else by `now`.
pub fn hlc_merge(
    store: &mut ClockStore,
    local_node_id: &str,
    remote: &HlcTimestamp,
    wall_time: Option<&str>,
    now: WallTime,
) -> (r: Result<HlcTimestamp, HlcError>)
    requires
        old(store).wf(),
        remote.wf(),
        now.wf(),
    ensures
        final(store).wf(),
        match observed_wall(wall_time, now) {
            Some(w) => merge_post(old(store)@, final(store)@, local_node_id@, remote.fields(), w, r),
            None => r == Err::<HlcTimestamp, HlcError>(HlcError::InvalidTimestamp) && final(store)@ == old(store)@,
        },
{
    match observe(wall_time, now) {
        Some(w) => hlc_merge_at(store, local_node_id, remote, w),
        None => Err(HlcError::InvalidTimestamp),
    }
}

/// The canonical text of a timestamp.
pub fn hlc_to_string(hlc: &HlcTimestamp) -> (r: String)
    requires
        hlc.wf(),
    ensures
        r@ == crate::timestamp::format_fields(hlc.fields()),
        parse_fields(r@) == Some(hlc.fields()),
{
    hlc.to_string()
}

/// -1, 0 or 1 as `left` comes before, equals or comes after `right`.
pub fn hlc_compare(left: &HlcTimestamp, right: &HlcTimestamp) -> (r: i32)
    ensures
        r as int == fields_cmp(left.fields(), right.fields()),
{
    left.compare(right)
}

pub fn hlc_lt(left: &HlcTimestamp, right: &HlcTimestamp) -> (r: bool)
    ensures
        r == (fields_cmp(left.fields(), right.fields()) < 0),
{
    left < right
}

pub fn hlc_gt(left: &HlcTimestamp, right: &HlcTimestamp) -> (r: bool)
    ensures
        r == (fields_cmp(left.fields(), right.fields()) > 0),
{
    left > right
}

pub fn hlc_eq(left: &HlcTimestamp, right: &HlcTimestamp) -> (r: bool)
    ensures
        r == (left.fields() == right.fields()),
{
    left.date_time == right.date_time && left.counter == right.counter && left.node_id
        == right.node_id
}

pub fn hlc_lte(left: &HlcTimestamp, right: &HlcTimestamp) -> (r: bool)
    ensures
        r == (fields_cmp(left.fields(), right.fields()) <= 0),
{
    left <= right
}

pub fn hlc_gte(left: &HlcTimestamp, right: &HlcTimestamp) -> (r: bool)
    ensures
        r == (fields_cmp(left.fields(), right.fields()) >= 0),
{
    left >= right
}

/// Clears the state of `node_id`; it starts again from the zero state.
pub fn hlc_reset(store: &mut ClockStore, node_id: &str)
    requires
        old(store).wf(),
    ensures
        final(store).wf(),
        final(store)@ == old(store)@.remove(node_id@),
{
    store.reset(node_id);
}

/// The current timestamp of `node_id`; a node with no state is given the
/// zero state.
pub fn hlc_get_state(store: &mut ClockStore, node_id: &str) -> (r: HlcTimestamp)
    requires
        old(store).wf(),
    ensures
        final(store).wf(),
        final(store)@ == (if old(store)@.contains_key(node_id@) {
            old(store)@
        } else {
            old(store)@.insert(node_id@, zero_state())
        }),
        r.wf(),
        r.fields() == (state_in(old(store)@, node_id@).date_time, state_in(
            old(store)@,
            node_id@,
        ).counter, node_id@),
{
    let state = store.get_or_create(node_id);
    HlcTimestamp::from_state(node_id, &state)
}

/// Increments at `now`; where that fails, falls back to `hlc_now`. The
/// fallback gives up the drift and monotonicity guarantees.
pub fn hlc_increment_simple(store: &mut ClockStore, node_id: &str, now: WallTime) -> (r:
    HlcTimestamp)
    requires
        old(store).wf(),
        now.wf(),
    ensures
        final(store).wf(),
        r.wf(),
        match increment_step(state_in(old(store)@, node_id@), now) {
            Some(ns) => r.fields() == (ns.date_time, ns.counter, node_id@) && final(store)@ == old(store)@.insert(node_id@, ns),
            None => r.fields() == (now, 0u16, node_id@) && final(store)@ == old(store)@.insert(
                node_id@,
                ClockState { date_time: now, counter: 0 },
            ),
        },
{
    match hlc_increment_at(store, node_id, now) {
        Ok(t) => t,
        Err(_) => hlc_now(store, node_id, now),
    }
}

/// Merges `remote` at `now`; where that fails, falls back to `hlc_now`. The
/// fallback gives up the drift and monotonicity guarantees.
pub fn hlc_merge_simple(
    store: &mut ClockStore,
    local_node_id: &str,
    remote: &HlcTimestamp,
    now: WallTime,
) -> (r: HlcTimestamp)
    requires
        old(store).wf(),
        remote.wf(),
        now.wf(),
    ensures
        final(store).wf(),
        r.wf(),
        ({
            let st = state_in(old(store)@, local_node_id@);
            if !remote_is_newer(st, remote.fields()) {
                r.fields() == (st.date_time, st.counter, local_node_id@) && final(store)@ == old(store)@
            } else if remote.node_id@ == local_node_id@ || drift_exceeded(remote.date_time, now) {
                r.fields() == (now, 0u16, local_node_id@) && final(store)@ == old(store)@.insert(
                    local_node_id@,
                    ClockState { date_time: now, counter: 0 },
                )
            } else {
                r.fields() == (remote.date_time, remote.counter, local_node_id@) && final(store)@
                    == old(store)@.insert(
                    local_node_id@,
                    ClockState { date_time: remote.date_time, counter: remote.counter },
                )
            }
        }),
{
    match hlc_merge_at(store, local_node_id, remote, now) {
        Ok(t) => t,
        Err(_) => hlc_now(store, local_node_id, now),
    }
}

} // verus!
