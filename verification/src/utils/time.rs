use vstd::prelude::*;

verus! {

/// The earliest second chrono's `DateTime<Utc>` can hold (January 1 of year -262143).
pub const MIN_UTC_SECS: i64 = -8334601315200;

/// The latest second chrono's `DateTime<Utc>` can hold (December 31 of year 262142).
pub const MAX_UTC_SECS: i64 = 8210266876799;

/// A UTC instant: whole seconds since the Unix epoch and the nanoseconds within
/// that second, as `DateTime<Utc>` reports them through `timestamp()` and
/// `timestamp_subsec_nanos()`.
#[derive(Clone, Copy, Debug, PartialEq, Eq, Structural)]
pub struct Timestamp {
    pub secs: i64,
    pub nanos: u32,
}

/// The order of `DateTime<Utc>`: by second, then by nanosecond.
pub open spec fn spec_before(a: Timestamp, b: Timestamp) -> bool {
    a.secs < b.secs || (a.secs == b.secs && a.nanos < b.nanos)
}

/// Whether `secs` names a second that `DateTime<Utc>` can represent.
pub open spec fn secs_in_range(secs: int) -> bool {
    MIN_UTC_SECS <= secs <= MAX_UTC_SECS
}

impl Timestamp {
    /// Whether `self` is strictly earlier than `other`.
    pub fn is_before(&self, other: &Timestamp) -> (r: bool)
        ensures
            r == spec_before(*self, *other),
    {
        self.secs < other.secs || (self.secs == other.secs && self.nanos < other.nanos)
    }
}

/// The system clock's instant type, `std::time::SystemTime`.
#[verifier::external_type_specification]
#[verifier::external_body]
pub struct ExSystemTime(std::time::SystemTime);

/// `SystemTime::now()`. Trusted for nothing: which instant the clock gives is
/// not stated.
#[verifier::external_body]
fn system_now() -> (t: std::time::SystemTime) {
    std::time::SystemTime::now()
}

/// `SystemTime::duration_since(UNIX_EPOCH)`, as whole seconds and the
/// nanoseconds past them (`as_secs`, `subsec_nanos`). Trusted: `None` where `t`
/// lies before the epoch; otherwise the nanoseconds are below a billion.
#[verifier::external_body]
fn since_epoch(t: &std::time::SystemTime) -> (r: Option<(u64, u32)>)
    ensures
        r matches Some(d) ==> d.1 < 1_000_000_000,
{
    match t.duration_since(std::time::UNIX_EPOCH) {
        Ok(d) => Some((d.as_secs(), d.subsec_nanos())),
        Err(_) => None,
    }
}

/// The current time, as seconds and nanoseconds since the Unix epoch: `None`
/// where the clock reads before the epoch or its seconds exceed `i64`. Which
/// instant it is depends on the clock.
pub(crate) fn now() -> (t: Option<Timestamp>)
    ensures
        t matches Some(x) ==> 0 <= x.secs && x.nanos < 1_000_000_000,
{
    let clock = system_now();
    match since_epoch(&clock) {
        Some((secs, nanos)) => {
            if secs <= 0x7fff_ffff_ffff_ffffu64 {
                Some(Timestamp { secs: secs as i64, nanos })
            } else {
                None
            }
        },
        None => None,
    }
}

/// Whether `t` is an instant `DateTime<Utc>` holds: a second inside chrono's
/// range and fewer than a billion nanoseconds.
pub open spec fn time_ok(t: Timestamp) -> bool {
    secs_in_range(t.secs as int) && t.nanos < 1_000_000_000
}

/// Whether `t` is an instant chrono holds.
pub fn is_time_ok(t: Timestamp) -> (r: bool)
    ensures
        r == time_ok(t),
{
    MIN_UTC_SECS <= t.secs && t.secs <= MAX_UTC_SECS && t.nanos < 1_000_000_000
}

/// The patterns this crate formats instants with: the month, and the date with
/// the time of day.
pub open spec fn known_pattern(pattern: Seq<char>) -> bool {
    pattern == "%Y-%m"@ || pattern == "%Y-%m-%d %H:%M:%S"@
}

/// What `DateTime::<Utc>::from_timestamp(secs, nanos)` formatted with `pattern`
/// gives.
pub uninterp spec fn time_label(secs: int, nanos: int, pattern: Seq<char>) -> Seq<char>;

/// The instant `t` formatted with `pattern` through chrono's
/// `DateTime::format`. Trusted: for an instant chrono holds there is a text, and
/// it is the named result [`time_label`] of the instant and the pattern; the
/// pattern is one of the valid ones the crate uses, so formatting cannot fail.
#[verifier::external_body]
pub(crate) fn format_time(t: Timestamp, pattern: &str) -> (r: Option<String>)
    requires
        known_pattern(pattern@),
    ensures
        time_ok(t) ==> r is Some,
        r matches Some(s) ==> s@ == time_label(t.secs as int, t.nanos as int, pattern@),
{
    match chrono::DateTime::from_timestamp(t.secs, t.nanos) {
        Some(d) => Some(d.format(pattern).to_string()),
        None => None,
    }
}

} // verus!
