//! Timestamps: the structured value records carry, its validity bounds,
//! the clock, and the rendering to the wire's display string.

use vstd::prelude::*;

verus! {

/// Upper bound on the seconds a stored timestamp may hold; far inside the
/// range that the calendar rendering below supports.
pub const MAX_TIMESTAMP_SECS: i64 = 200_000_000_000;

/// A point in time: non-leap seconds since the Unix epoch together with the
/// nanoseconds since the last whole second.  Records keep this structured
/// value; the wire format renders it to a display string.
#[derive(Clone, Copy, Debug, PartialEq, Eq, Structural)]
pub struct Timestamp {
    pub secs: i64,
    pub nanos: u32,
}

impl Timestamp {
    /// Timestamps the store accepts: nanoseconds below one whole second,
    /// and a seconds bound that keeps the value renderable as a calendar
    /// date.
    pub open spec fn wf(self) -> bool {
        0 <= self.secs <= MAX_TIMESTAMP_SECS && self.nanos < 1_000_000_000
    }

    /// Runtime check of `wf`, for callers outside verified code.
    pub fn is_wf(&self) -> (b: bool)
        ensures
            b == self.wf(),
    {
        0 <= self.secs && self.secs <= MAX_TIMESTAMP_SECS && self.nanos < 1_000_000_000
    }
}

/// What the clock gave: epoch seconds and subsecond nanoseconds.
/// Relies on `std::time::SystemTime::now`; nothing is assumed of the values
/// it returns, and a clock reading before the Unix epoch yields the epoch
/// instead of an error.
#[verifier::external_body]
fn system_now_parts() -> (i64, u32) {
    match std::time::SystemTime::now().duration_since(std::time::UNIX_EPOCH) {
        Ok(d) => (d.as_secs() as i64, d.subsec_nanos()),
        Err(_) => (0, 0),
    }
}

/// The current time, clamped into `Timestamp::wf`.
pub fn now_timestamp() -> (t: Timestamp)
    ensures
        t.wf(),
{
    let (secs, nanos) = system_now_parts();
    let s: i64 = if secs < 0 {
        0
    } else if secs > MAX_TIMESTAMP_SECS {
        MAX_TIMESTAMP_SECS
    } else {
        secs
    };
    let n: u32 = if nanos >= 1_000_000_000 {
        999_999_999
    } else {
        nanos
    };
    Timestamp { secs: s, nanos: n }
}

/// The display string of the timestamp with the given parts.
pub uninterp spec fn rendered_timestamp(secs: int, nanos: int) -> Seq<char>;

/// Relies on `chrono::DateTime::from_timestamp` and the `Display` of
/// `chrono::NaiveDateTime`: the rendered text is a function of the seconds
/// and nanoseconds alone.  For every timestamp within `Timestamp::wf`'s
/// bounds (seconds far inside the calendar range, nanoseconds below one
/// second) `from_timestamp` returns `Some`, so the unwrap cannot panic.
#[verifier::external_body]
pub(crate) fn render_timestamp(t: &Timestamp) -> (r: String)
    requires
        t.wf(),
    ensures
        r@ == rendered_timestamp(t.secs as int, t.nanos as int),
{
    let rendered = chrono::DateTime::from_timestamp(t.secs, t.nanos).unwrap().naive_utc();
    rendered.to_string()
}

} // verus!
