//! Laws that relate the clock's operations and its order.
use vstd::prelude::*;

use crate::clock::{increment_post, increment_step};
use crate::error::HlcError;
use crate::store::ClockState;
use crate::timestamp::{fields_cmp, seq_cmp, Fields, HlcTimestamp};
use crate::wall::WallTime;

verus! {

proof fn lemma_seq_cmp_total(a: Seq<char>, b: Seq<char>)
    ensures
        seq_cmp(a, b) == -1 || seq_cmp(a, b) == 0 || seq_cmp(a, b) == 1,
        seq_cmp(a, b) == 0 <==> a == b,
        seq_cmp(a, b) == -seq_cmp(b, a),
    decreases a.len(),
{
    if a.len() > 0 && b.len() > 0 && (a[0] as int) == (b[0] as int) {
        assert(a[0] == b[0]);
        lemma_seq_cmp_total(a.skip(1), b.skip(1));
        if a.skip(1) == b.skip(1) {
            assert(a =~= seq![a[0]] + a.skip(1));
            assert(b =~= seq![b[0]] + b.skip(1));
        }
    } else if a.len() > 0 && b.len() > 0 {
        assert(a[0] != b[0]);
        assert(a != b);
    } else if a.len() > 0 || b.len() > 0 {
        assert(a.len() != b.len());
    } else {
        assert(a =~= b);
    }
}

proof fn lemma_seq_cmp_transitive(a: Seq<char>, b: Seq<char>, c: Seq<char>)
    requires
        seq_cmp(a, b) == -1,
        seq_cmp(b, c) == -1,
    ensures
        seq_cmp(a, c) == -1,
    decreases a.len(),
{
    if a.len() > 0 && b.len() > 0 && c.len() > 0 && (a[0] as int) == (b[0] as int) && (b[0] as int)
        == (c[0] as int) {
        lemma_seq_cmp_transitive(a.skip(1), b.skip(1), c.skip(1));
    }
}

/// The order of timestamps is transitive.
pub proof fn lemma_order_transitive(a: Fields, b: Fields, c: Fields)
    requires
        fields_cmp(a, b) == -1,
        fields_cmp(b, c) == -1,
    ensures
        fields_cmp(a, c) == -1,
{
    if a.0 == b.0 && b.0 == c.0 && a.1 == b.1 && b.1 == c.1 {
        lemma_seq_cmp_transitive(a.2, b.2, c.2);
    }
}

/// The order of timestamps is total: exactly one of `a < b`, `a == b` and
/// `a > b` holds, going by wall time, then counter, then node id.
pub proof fn lemma_order_total(a: Fields, b: Fields)
    ensures
        fields_cmp(a, b) == -1 || fields_cmp(a, b) == 0 || fields_cmp(a, b) == 1,
        fields_cmp(a, b) == 0 <==> a == b,
        fields_cmp(a, b) == -fields_cmp(b, a),
{
    lemma_seq_cmp_total(a.2, b.2);
    if !a.0.before(b.0) && !b.0.before(a.0) {
        assert(a.0 == b.0);
    }
}

/// An increment that succeeds moves a node strictly forward: the new state's
/// timestamp comes after the old state's.
pub proof fn lemma_increment_moves_forward(st: ClockState, w: WallTime, id: Seq<char>)
    requires
        increment_step(st, w) is Some,
    ensures
        fields_cmp(
            (st.date_time, st.counter, id),
            (increment_step(st, w)->Some_0.date_time, increment_step(st, w)->Some_0.counter, id),
        ) == -1,
{
}

/// Two increments of one node in a row that both succeed hand out strictly
/// increasing timestamps.
pub proof fn lemma_increments_increase(
    m0: Map<Seq<char>, ClockState>,
    m1: Map<Seq<char>, ClockState>,
    m2: Map<Seq<char>, ClockState>,
    id: Seq<char>,
    w1: WallTime,
    w2: WallTime,
    r1: Result<HlcTimestamp, HlcError>,
    r2: Result<HlcTimestamp, HlcError>,
)
    requires
        increment_post(m0, m1, id, w1, r1),
        increment_post(m1, m2, id, w2, r2),
        r1 is Ok,
        r2 is Ok,
    ensures
        fields_cmp(r1->Ok_0.fields(), r2->Ok_0.fields()) == -1,
{
    assert(m1.contains_key(id));
    lemma_increment_moves_forward(m1[id], w2, id);
}

} // verus!
