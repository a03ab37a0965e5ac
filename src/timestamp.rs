//! The timestamp value: wall time, logical counter and node id, with its
//! canonical text form `<RFC 3339 time>-<4 hex digits>-<node id>` and its
//! total order.
use vstd::prelude::*;

use crate::counter::{counter_from_text, counter_text, lemma_counter_text_reads_back, parse_counter, push_counter_text};
use crate::error::HlcError;
use crate::store::ClockState;
use crate::wall::{rfc3339_instant, rfc3339_text, wall_from_reading, WallTime};

verus! {

/// A point in a node's logical time.
#[derive(Debug, Clone)]
pub struct HlcTimestamp {
    pub date_time: WallTime,
    pub counter: u16,
    pub node_id: String,
}

/// The three fields of a timestamp, as values.
pub type Fields = (WallTime, u16, Seq<char>);

/// Index of the first `-` at or after `k` whose prefix reads as an RFC 3339
/// time in range, or -1 where there is none.
pub open spec fn date_cut_from(s: Seq<char>, k: int) -> int
    decreases s.len() - k,
{
    if k < 0 || k >= s.len() {
        -1
    } else if s[k] == '-' && wall_from_reading(rfc3339_instant(s.take(k))) is Some {
        k
    } else {
        date_cut_from(s, k + 1)
    }
}

/// Index of the first `-` at or after `k`, or -1 where there is none.
pub open spec fn dash_from(s: Seq<char>, k: int) -> int
    decreases s.len() - k,
{
    if k < 0 || k >= s.len() {
        -1
    } else if s[k] == '-' {
        k
    } else {
        dash_from(s, k + 1)
    }
}

pub open spec fn no_dash(s: Seq<char>) -> bool {
    forall|i: int| 0 <= i < s.len() ==> s[i] != '-'
}

/// Splits the text into its wall-time field, the shortest prefix before a
/// `-` that reads as a time; its counter field, up to the next `-`; and its
/// node id, all the rest, which may hold `-`.
pub open spec fn split_fields(s: Seq<char>) -> Option<(Seq<char>, Seq<char>, Seq<char>)> {
    let i = date_cut_from(s, 0);
    let j = dash_from(s, i + 1);
    if i < 0 || j < 0 {
        None
    } else {
        Some((s.take(i), s.subrange(i + 1, j), s.skip(j + 1)))
    }
}

/// The fields that a canonical text stands for, if it is one.
pub open spec fn parse_fields(s: Seq<char>) -> Option<Fields> {
    match split_fields(s) {
        Some((d, h, n)) => match (wall_from_reading(rfc3339_instant(d)), counter_from_text(h)) {
            (Some(w), Some(c)) => Some((w, c, n)),
            _ => None,
        },
        None => None,
    }
}

/// The canonical text of a timestamp.
pub open spec fn format_fields(t: Fields) -> Seq<char> {
    rfc3339_text(t.0.secs, t.0.nanos) + seq!['-'] + counter_text(t.1) + seq!['-'] + t.2
}

/// Lexicographic order of two char sequences by code point, which is the
/// byte order of their UTF-8 encodings: -1, 0 or 1.
pub open spec fn seq_cmp(a: Seq<char>, b: Seq<char>) -> int
    decreases a.len(),
{
    if a.len() == 0 && b.len() == 0 {
        0
    } else if a.len() == 0 {
        -1
    } else if b.len() == 0 {
        1
    } else if (a[0] as int) < (b[0] as int) {
        -1
    } else if (a[0] as int) > (b[0] as int) {
        1
    } else {
        seq_cmp(a.skip(1), b.skip(1))
    }
}

/// The order of timestamps: wall time, then counter, then node id; -1, 0 or 1.
pub open spec fn fields_cmp(a: Fields, b: Fields) -> int {
    if a.0.before(b.0) {
        -1
    } else if b.0.before(a.0) {
        1
    } else if a.1 < b.1 {
        -1
    } else if a.1 > b.1 {
        1
    } else {
        seq_cmp(a.2, b.2)
    }
}

/// No prefix of `d` cut before a `-` reads as a time.
pub open spec fn no_time_prefix(d: Seq<char>) -> bool {
    forall|k: int|
        0 <= k < d.len() && d[k] == '-' ==> (#[trigger] rfc3339_instant(d.take(k))) is None
}

proof fn lemma_date_cut(s: Seq<char>, d: Seq<char>, k: int)
    requires
        d.len() < s.len(),
        s.take(d.len() as int) == d,
        s[d.len() as int] == '-',
        wall_from_reading(rfc3339_instant(d)) is Some,
        no_time_prefix(d),
        0 <= k <= d.len(),
    ensures
        date_cut_from(s, k) == d.len(),
    decreases d.len() - k,
{
    if k < d.len() {
        assert(s[k] == d[k]);
        assert(s.take(k) =~= d.take(k));
        lemma_date_cut(s, d, k + 1);
    } else {
        assert(s.take(k) =~= d);
    }
}

proof fn lemma_dash_from(s: Seq<char>, j: int, k: int)
    requires
        0 <= k <= j < s.len(),
        s[j] == '-',
        forall|m: int| k <= m < j ==> s[m] != '-',
    ensures
        dash_from(s, k) == j,
    decreases j - k,
{
    if k < j {
        lemma_dash_from(s, j, k + 1);
    }
}

proof fn lemma_counter_text_no_dash(c: u16)
    ensures
        no_dash(counter_text(c)),
{
    lemma_counter_text_reads_back(c);
    let t = counter_text(c);
    assert forall|i: int| 0 <= i < t.len() implies t[i] != '-' by {
        assert(crate::counter::digit_value(t[i]) is Some);
    }
}

/// The canonical text reads back to the same fields.
proof fn lemma_fields_round_trip(t: Fields)
    requires
        wall_from_reading(rfc3339_instant(rfc3339_text(t.0.secs, t.0.nanos))) == Some(t.0),
        no_time_prefix(rfc3339_text(t.0.secs, t.0.nanos)),
    ensures
        parse_fields(format_fields(t)) == Some(t),
{
    let d = rfc3339_text(t.0.secs, t.0.nanos);
    let h = counter_text(t.1);
    let s = format_fields(t);
    let left = d + seq!['-'] + h;
    assert(s =~= left + seq!['-'] + t.2);
    lemma_counter_text_no_dash(t.1);
    assert(s.take(d.len() as int) =~= d);
    lemma_date_cut(s, d, 0);
    let i = d.len() as int;
    let j = left.len() as int;
    assert forall|m: int| i + 1 <= m < j implies s[m] != '-' by {
        assert(s[m] == h[m - i - 1]);
    }
    lemma_dash_from(s, j, i + 1);
    assert(s.subrange(i + 1, j) =~= h);
    assert(s.skip(j + 1) =~= t.2);
    lemma_counter_text_reads_back(t.1);
}

proof fn lemma_seq_cmp_step(a: Seq<char>, b: Seq<char>, i: int)
    requires
        0 <= i < a.len(),
        i < b.len(),
        a[i] == b[i],
    ensures
        seq_cmp(a.skip(i), b.skip(i)) == seq_cmp(a.skip(i + 1), b.skip(i + 1)),
{
    assert(a.skip(i).skip(1) =~= a.skip(i + 1));
    assert(b.skip(i).skip(1) =~= b.skip(i + 1));
}

/// The first `-` whose prefix reads as a time in range, with that time.
fn find_date_cut(s: &str) -> (r: Option<(usize, WallTime)>)
    ensures
        r matches Some((i, w)) ==> i as int == date_cut_from(s@, 0) && i < s@.len() && Some(w)
            == wall_from_reading(rfc3339_instant(s@.take(i as int))),
        r is None ==> date_cut_from(s@, 0) < 0,
{
    let n = s.unicode_len();
    let mut k: usize = 0;
    while k < n
        invariant
            n == s@.len(),
            k <= n,
            date_cut_from(s@, 0) == date_cut_from(s@, k as int),
        decreases n - k,
    {
        if s.get_char(k) == '-' {
            if let Some(w) = WallTime::parse_rfc3339(s.substring_char(0, k)) {
                return Some((k, w));
            }
        }
        k = k + 1;
    }
    None
}

/// The first `-` at or after `start`.
fn find_dash_from(s: &str, start: usize) -> (r: Option<usize>)
    requires
        start <= s@.len(),
    ensures
        r matches Some(j) ==> j as int == dash_from(s@, start as int) && start <= j < s@.len(),
        r is None ==> dash_from(s@, start as int) < 0,
{
    let n = s.unicode_len();
    let mut k: usize = start;
    while k < n
        invariant
            n == s@.len(),
            start <= k <= n,
            dash_from(s@, start as int) == dash_from(s@, k as int),
        decreases n - k,
    {
        if s.get_char(k) == '-' {
            return Some(k);
        }
        k = k + 1;
    }
    None
}

/// Compares two strings char by char: -1, 0 or 1.
fn compare_text(a: &str, b: &str) -> (r: i32)
    ensures
        r as int == seq_cmp(a@, b@),
{
    let na = a.unicode_len();
    let nb = b.unicode_len();
    let mut i: usize = 0;
    assert(a@.skip(0) =~= a@);
    assert(b@.skip(0) =~= b@);
    while i < na && i < nb
        invariant
            na == a@.len(),
            nb == b@.len(),
            i <= na,
            i <= nb,
            seq_cmp(a@, b@) == seq_cmp(a@.skip(i as int), b@.skip(i as int)),
        decreases na - i,
    {
        let ca = a.get_char(i);
        let cb = b.get_char(i);
        if (ca as u32) < (cb as u32) {
            return -1;
        }
        if (ca as u32) > (cb as u32) {
            return 1;
        }
        proof {
            lemma_seq_cmp_step(a@, b@, i as int);
        }
        i = i + 1;
    }
    if na == nb {
        0
    } else if i == na {
        -1
    } else {
        1
    }
}

impl HlcTimestamp {
    pub open spec fn wf(&self) -> bool {
        self.date_time.wf()
    }

    /// The timestamp's fields, as values.
    pub open spec fn fields(&self) -> Fields {
        (self.date_time, self.counter, self.node_id@)
    }

    /// Reads the canonical text `<RFC 3339 time>-<hex counter>-<node id>`.
    /// The time is the shortest prefix before a `-` that reads as RFC 3339,
    /// the counter is the field up to the next `-` (one or more hex digits up
    /// to `FFFF`), and the node id is all the rest, `-` included.
    pub fn parse(timestamp: &str) -> (r: Result<HlcTimestamp, HlcError>)
        ensures
            match r {
                Ok(t) => t.wf() && parse_fields(timestamp@) == Some(t.fields()),
                Err(e) => e == HlcError::InvalidFormat && parse_fields(timestamp@) is None,
            },
    {
        let n = timestamp.unicode_len();
        let (i, date_time) = match find_date_cut(timestamp) {
            Some(found) => found,
            None => {
                return Err(HlcError::InvalidFormat);
            },
        };
        let j = match find_dash_from(timestamp, i + 1) {
            Some(j) => j,
            None => {
                return Err(HlcError::InvalidFormat);
            },
        };
        let counter_text = timestamp.substring_char(i + 1, j);
        let node_text = timestamp.substring_char(j + 1, n);
        assert(node_text@ =~= timestamp@.skip(j + 1));
        let counter = match parse_counter(counter_text) {
            Some(c) => c,
            None => {
                return Err(HlcError::InvalidFormat);
            },
        };
        Ok(HlcTimestamp { date_time, counter, node_id: String::from_str(node_text) })
    }

    /// The canonical text; it reads back to the same timestamp.
    pub fn to_string(&self) -> (r: String)
        requires
            self.wf(),
        ensures
            r@ == format_fields(self.fields()),
            parse_fields(r@) == Some(self.fields()),
    {
        let mut out = self.date_time.to_rfc3339();
        out.push('-');
        push_counter_text(&mut out, self.counter);
        out.push('-');
        out.append(self.node_id.as_str());
        assert(out@ =~= format_fields(self.fields()));
        proof {
            lemma_fields_round_trip(self.fields());
        }
        out
    }

    /// Whether the wall time lies in the range held.
    pub fn is_valid(&self) -> (r: bool)
        ensures
            r == self.wf(),
    {
        self.date_time.is_valid()
    }

    /// Reads the canonical text, giving the epoch with counter 0 at node
    /// `unknown` where the text is malformed.
    pub fn input(text: &str) -> (r: HlcTimestamp)
        ensures
            r.wf(),
            match parse_fields(text@) {
                Some(f) => r.fields() == f,
                None => r.fields() == (WallTime { secs: 0, nanos: 0 }, 0u16, "unknown"@),
            },
    {
        match HlcTimestamp::parse(text) {
            Ok(t) => t,
            Err(_) => HlcTimestamp {
                date_time: WallTime::epoch(),
                counter: 0,
                node_id: String::from_str("unknown"),
            },
        }
    }

    /// The timestamp of node `node_id` in clock state `state`.
    pub fn from_state(node_id: &str, state: &ClockState) -> (r: HlcTimestamp)
        ensures
            r.fields() == (state.date_time, state.counter, node_id@),
            state.wf() ==> r.wf(),
    {
        HlcTimestamp {
            date_time: state.date_time,
            counter: state.counter,
            node_id: String::from_str(node_id),
        }
    }

    /// Compares by wall time, then counter, then node id: -1, 0 or 1.
    pub fn compare(&self, other: &HlcTimestamp) -> (r: i32)
        ensures
            r as int == fields_cmp(self.fields(), other.fields()),
    {
        if self.date_time.is_before(&other.date_time) {
            -1
        } else if other.date_time.is_before(&self.date_time) {
            1
        } else if self.counter < other.counter {
            -1
        } else if self.counter > other.counter {
            1
        } else {
            compare_text(self.node_id.as_str(), other.node_id.as_str())
        }
    }
}

impl PartialEq for HlcTimestamp {
    fn eq(&self, other: &HlcTimestamp) -> (r: bool) {
        self.date_time == other.date_time && self.counter == other.counter && self.node_id
            == other.node_id
    }
}

impl vstd::std_specs::cmp::PartialEqSpecImpl for HlcTimestamp {
    open spec fn obeys_eq_spec() -> bool {
        true
    }

    open spec fn eq_spec(&self, other: &HlcTimestamp) -> bool {
        self.fields() == other.fields()
    }
}

impl Eq for HlcTimestamp {

}

/// The `Ordering` that a -1, 0 or 1 comparison stands for.
pub open spec fn ordering_of(c: int) -> core::cmp::Ordering {
    if c < 0 {
        core::cmp::Ordering::Less
    } else if c == 0 {
        core::cmp::Ordering::Equal
    } else {
        core::cmp::Ordering::Greater
    }
}

impl PartialOrd for HlcTimestamp {
    fn partial_cmp(&self, other: &HlcTimestamp) -> (r: Option<core::cmp::Ordering>) {
        let c = self.compare(other);
        if c < 0 {
            Some(core::cmp::Ordering::Less)
        } else if c == 0 {
            Some(core::cmp::Ordering::Equal)
        } else {
            Some(core::cmp::Ordering::Greater)
        }
    }
}

impl vstd::std_specs::cmp::PartialOrdSpecImpl for HlcTimestamp {
    open spec fn obeys_partial_cmp_spec() -> bool {
        true
    }

    open spec fn partial_cmp_spec(&self, other: &HlcTimestamp) -> Option<core::cmp::Ordering> {
        Some(ordering_of(fields_cmp(self.fields(), other.fields())))
    }
}

} // verus!
