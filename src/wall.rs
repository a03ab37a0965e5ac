//! Wall-clock instants, held as whole seconds and nanoseconds since the
//! Unix epoch, and their RFC 3339 text form.
use vstd::prelude::*;

verus! {

/// Whole seconds of 0000-01-01T00:00:00Z since the Unix epoch.
pub const MIN_SECS: i64 = -62167219200;

/// Whole seconds of 9999-12-31T23:59:59Z since the Unix epoch.
pub const MAX_SECS: i64 = 253402300799;

pub const NANOS_PER_SECOND: u32 = 1_000_000_000;

pub const NANOS_PER_MINUTE: i128 = 60_000_000_000;

/// A UTC instant: `secs` whole seconds after the Unix epoch, plus `nanos`.
///
/// Only the years 0 to 9999 are held, the range in which the RFC 3339 text
/// form has four year digits and reads back to the same instant.
#[derive(Clone, Copy, Debug, PartialEq, Eq, Structural)]
pub struct WallTime {
    pub secs: i64,
    pub nanos: u32,
}

pub open spec fn valid_parts(secs: i64, nanos: u32) -> bool {
    MIN_SECS <= secs <= MAX_SECS && nanos < NANOS_PER_SECOND
}

/// The instant that an RFC 3339 reading stands for, if it lies in range.
pub open spec fn wall_from_reading(o: Option<(i64, u32)>) -> Option<WallTime> {
    match o {
        Some((s, n)) => if valid_parts(s, n) {
            Some(WallTime { secs: s, nanos: n })
        } else {
            None
        },
        None => None,
    }
}

/// Nanoseconds since the Unix epoch.
pub open spec fn total_nanos(w: WallTime) -> int {
    w.secs * NANOS_PER_SECOND + w.nanos
}

/// The signed span from `earlier` to `later`, in whole minutes, rounded
/// toward zero.
pub open spec fn drift_minutes(later: WallTime, earlier: WallTime) -> int {
    let d = total_nanos(later) - total_nanos(earlier);
    if d >= 0 {
        d / (NANOS_PER_MINUTE as int)
    } else {
        -((-d) / (NANOS_PER_MINUTE as int))
    }
}

/// What chrono reads from an RFC 3339 string: seconds and nanoseconds since
/// the Unix epoch, or nothing where the text is not RFC 3339.
pub uninterp spec fn rfc3339_instant(s: Seq<char>) -> Option<(i64, u32)>;

/// The RFC 3339 text that chrono writes for an instant, in UTC with a `Z`.
pub uninterp spec fn rfc3339_text(secs: i64, nanos: u32) -> Seq<char>;

/// Relies on chrono's `DateTime::parse_from_rfc3339`, read back through
/// `DateTime::timestamp` and `DateTime::timestamp_subsec_nanos`.
#[verifier::external_body]
fn read_rfc3339(s: &str) -> (r: Option<(i64, u32)>)
    ensures
        r == rfc3339_instant(s@),
{
    match chrono::DateTime::parse_from_rfc3339(s) {
        Ok(d) => Some((d.timestamp(), d.timestamp_subsec_nanos())),
        Err(_) => None,
    }
}

/// Relies on chrono's `DateTime::from_timestamp`, which is `Some` for these
/// inputs, and `DateTime::to_rfc3339_opts` with `SecondsFormat::AutoSi` and a
/// `Z`: for a year from 0 to 9999 it writes four year digits and as many
/// fraction digits as the nanoseconds need, which `parse_from_rfc3339` reads
/// back to the same instant. Its only `-` are the two in the date, after the
/// year and the month, and `parse_from_rfc3339` refuses any text shorter than
/// a full date and time, so no part of it cut before a `-` reads as a time.
#[verifier::external_body]
fn write_rfc3339(secs: i64, nanos: u32) -> (r: String)
    requires
        valid_parts(secs, nanos),
    ensures
        r@ == rfc3339_text(secs, nanos),
        rfc3339_instant(r@) == Some((secs, nanos)),
        forall|k: int|
            0 <= k < r@.len() && r@[k] == '-' ==> (#[trigger] rfc3339_instant(r@.take(k))) is None,
{
    match chrono::DateTime::from_timestamp(secs, nanos) {
        Some(d) => d.to_rfc3339_opts(chrono::SecondsFormat::AutoSi, true),
        None => String::new(),
    }
}

impl WallTime {
    pub open spec fn wf(&self) -> bool {
        valid_parts(self.secs, self.nanos)
    }

    /// `self` comes strictly before `other`.
    pub open spec fn before(&self, other: WallTime) -> bool {
        self.secs < other.secs || (self.secs == other.secs && self.nanos < other.nanos)
    }

    /// The Unix epoch, 1970-01-01T00:00:00Z.
    pub fn epoch() -> (r: WallTime)
        ensures
            r == (WallTime { secs: 0, nanos: 0 }),
            r.wf(),
    {
        WallTime { secs: 0, nanos: 0 }
    }

    /// The instant `secs` seconds and `nanos` nanoseconds after the epoch, if
    /// it lies in the range held.
    pub fn new(secs: i64, nanos: u32) -> (r: Option<WallTime>)
        ensures
            r == wall_from_reading(Some((secs, nanos))),
    {
        if MIN_SECS <= secs && secs <= MAX_SECS && nanos < NANOS_PER_SECOND {
            Some(WallTime { secs, nanos })
        } else {
            None
        }
    }

    /// Reads an RFC 3339 timestamp with any UTC offset.
    pub fn parse_rfc3339(s: &str) -> (r: Option<WallTime>)
        ensures
            r == wall_from_reading(rfc3339_instant(s@)),
    {
        match read_rfc3339(s) {
            Some((secs, nanos)) => WallTime::new(secs, nanos),
            None => None,
        }
    }

    /// The RFC 3339 text of the instant, in UTC with a `Z`; it reads back to
    /// the same instant.
    pub fn to_rfc3339(&self) -> (r: String)
        requires
            self.wf(),
        ensures
            r@ == rfc3339_text(self.secs, self.nanos),
            wall_from_reading(rfc3339_instant(r@)) == Some(*self),
            forall|k: int|
                0 <= k < r@.len() && r@[k] == '-' ==> (#[trigger] rfc3339_instant(r@.take(k)))
                    is None,
    {
        write_rfc3339(self.secs, self.nanos)
    }

    /// Whether the instant lies in the range held.
    pub fn is_valid(&self) -> (r: bool)
        ensures
            r == self.wf(),
    {
        MIN_SECS <= self.secs && self.secs <= MAX_SECS && self.nanos < NANOS_PER_SECOND
    }

    /// `self` comes strictly before `other`.
    pub fn is_before(&self, other: &WallTime) -> (r: bool)
        ensures
            r == self.before(*other),
    {
        self.secs < other.secs || (self.secs == other.secs && self.nanos < other.nanos)
    }

    /// The signed span from `earlier` to `self` in nanoseconds.
    pub fn nanos_since(&self, earlier: &WallTime) -> (r: i128)
        requires
            self.wf(),
            earlier.wf(),
        ensures
            r == total_nanos(*self) - total_nanos(*earlier),
            -500_000_000_000_000_000_000 <= r <= 500_000_000_000_000_000_000,
    {
        let ds: i128 = self.secs as i128 - earlier.secs as i128;
        let dn: i128 = self.nanos as i128 - earlier.nanos as i128;
        assert(-400_000_000_000 <= ds <= 400_000_000_000);
        assert(-400_000_000_000_000_000_000 <= ds * 1_000_000_000 <= 400_000_000_000_000_000_000)
            by (nonlinear_arith)
            requires
                -400_000_000_000 <= ds <= 400_000_000_000,
        ;
        let d: i128 = ds * 1_000_000_000 + dn;
        assert(d == total_nanos(*self) - total_nanos(*earlier)) by (nonlinear_arith)
            requires
                ds == self.secs - earlier.secs,
                dn == self.nanos - earlier.nanos,
                d == ds * 1_000_000_000 + dn,
        ;
        d
    }

    /// The signed span from `earlier` to `self` in whole minutes, rounded
    /// toward zero.
    pub fn minutes_since(&self, earlier: &WallTime) -> (r: i64)
        requires
            self.wf(),
            earlier.wf(),
        ensures
            r == drift_minutes(*self, *earlier),
    {
        let d = self.nanos_since(earlier);
        if d >= 0 {
            let q: i128 = d / NANOS_PER_MINUTE;
            assert(0 <= q <= 10_000_000_000) by (nonlinear_arith)
                requires
                    0 <= d <= 500_000_000_000_000_000_000,
                    q == d / 60_000_000_000,
            ;
            q as i64
        } else {
            let q: i128 = (-d) / NANOS_PER_MINUTE;
            assert(0 <= q <= 10_000_000_000) by (nonlinear_arith)
                requires
                    0 < -d <= 500_000_000_000_000_000_000,
                    q == (-d) / 60_000_000_000,
            ;
            -(q as i64)
        }
    }
}

} // verus!
