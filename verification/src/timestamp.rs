//! Timestamps for record headers: a UTC instant held as plain seconds and
//! nanoseconds, with a chosen display precision.
//!
//! Reading the clock and rendering RFC 3339 text are the `chrono` crate's
//! work; the rendered text is a fixed function of the instant and the
//! precision, named by [`rfc3339_of`], so that contracts over formatted
//! records stay exact.

use vstd::prelude::*;

verus! {

/// The lowest timestamp (in seconds since the Unix epoch) a UTC instant
/// can hold.
pub const TS_MIN_SECS: i64 = -8_334_601_228_800;

/// The highest timestamp (in seconds since the Unix epoch) a UTC instant
/// can hold.
pub const TS_MAX_SECS: i64 = 8_210_266_876_799;

/// Subsecond display precision of a timestamp.
#[derive(Clone, Copy, Debug, Eq, Hash, PartialEq, Structural)]
pub enum TimestampPrecision {
    /// Whole seconds.
    Seconds,
    /// Milliseconds.
    Millis,
    /// Microseconds.
    Micros,
    /// Nanoseconds.
    Nanos,
}

impl Default for TimestampPrecision {
    fn default() -> (r: Self)
        ensures
            r == TimestampPrecision::Seconds,
    {
        TimestampPrecision::Seconds
    }
}

/// Numeric code of a precision, as handed to the rendering call.
pub open spec fn prec_code(p: TimestampPrecision) -> u8 {
    match p {
        TimestampPrecision::Seconds => 0,
        TimestampPrecision::Millis => 1,
        TimestampPrecision::Micros => 2,
        TimestampPrecision::Nanos => 3,
    }
}

/// The RFC 3339 text of the UTC instant `secs`/`nanos` at the given
/// precision, with a `Z` offset — a function of the instant and precision
/// alone.
pub uninterp spec fn rfc3339_of(secs: i64, nanos: u32, precision: u8) -> Seq<char>;

/// Relies on `chrono::Utc::now` with `DateTime::timestamp` and
/// `DateTime::timestamp_subsec_nanos`: every `DateTime<Utc>` lies between
/// chrono's `MIN_UTC` and `MAX_UTC`, and its subsecond nanoseconds are
/// below two billion (values above a billion encode leap seconds).
#[verifier::external_body]
fn now_parts() -> (r: (i64, u32))
    ensures
        TS_MIN_SECS <= r.0 <= TS_MAX_SECS,
        r.1 < 2_000_000_000,
{
    let now = chrono::Utc::now();
    (now.timestamp(), now.timestamp_subsec_nanos())
}

/// Relies on `chrono::DateTime::from_timestamp` and `to_rfc3339_opts`:
/// within chrono's range the conversion succeeds, and the RFC 3339 text
/// (UTC, `Z` offset) is a function of the instant and the precision alone.
#[verifier::external_body]
fn rfc3339_string(secs: i64, nanos: u32, precision: u8) -> (r: String)
    requires
        TS_MIN_SECS <= secs <= TS_MAX_SECS,
        nanos < 2_000_000_000,
        precision <= 3,
    ensures
        r@ == rfc3339_of(secs, nanos, precision),
{
    let form = match precision {
        0 => chrono::SecondsFormat::Secs,
        1 => chrono::SecondsFormat::Millis,
        2 => chrono::SecondsFormat::Micros,
        _ => chrono::SecondsFormat::Nanos,
    };
    match chrono::DateTime::<chrono::Utc>::from_timestamp(secs, nanos) {
        Some(dt) => dt.to_rfc3339_opts(form, true),
        None => String::new(),
    }
}

/// A UTC instant with a display precision. Rendering it is deterministic:
/// the same instant and precision always give the same text.
#[derive(Clone, Copy, Debug)]
pub struct Timestamp {
    secs: i64,
    nanos: u32,
    precision: TimestampPrecision,
}

/// Ghost image of a [`Timestamp`].
pub struct TimestampView {
    /// Seconds since the Unix epoch.
    pub secs: i64,
    /// Subsecond nanoseconds.
    pub nanos: u32,
    /// Display precision.
    pub precision: TimestampPrecision,
}

impl View for Timestamp {
    type V = TimestampView;

    closed spec fn view(&self) -> TimestampView {
        TimestampView { secs: self.secs, nanos: self.nanos, precision: self.precision }
    }
}

impl Timestamp {
    #[verifier::type_invariant]
    closed spec fn inv(self) -> bool {
        TS_MIN_SECS <= self.secs <= TS_MAX_SECS && self.nanos < 2_000_000_000
    }

    /// The current instant, to be displayed at the given precision.
    pub fn now(precision: TimestampPrecision) -> (r: Timestamp)
        ensures
            r@.precision == precision,
    {
        let (secs, nanos) = now_parts();
        Timestamp { secs, nanos, precision }
    }

    /// An instant from its parts, or `None` when it lies outside the
    /// representable range.
    pub fn from_parts(secs: i64, nanos: u32, precision: TimestampPrecision) -> (r: Option<
        Timestamp,
    >)
        ensures
            r matches Some(t) ==> t@ == (TimestampView { secs, nanos, precision }),
            r is Some <==> TS_MIN_SECS <= secs <= TS_MAX_SECS && nanos < 2_000_000_000,
    {
        if TS_MIN_SECS <= secs && secs <= TS_MAX_SECS && nanos < 2_000_000_000 {
            Some(Timestamp { secs, nanos, precision })
        } else {
            None
        }
    }

    /// Seconds since the Unix epoch.
    pub fn secs(&self) -> (r: i64)
        ensures
            r == self@.secs,
    {
        self.secs
    }

    /// Subsecond nanoseconds.
    pub fn nanos(&self) -> (r: u32)
        ensures
            r == self@.nanos,
    {
        self.nanos
    }

    /// Display precision.
    pub fn precision(&self) -> (r: TimestampPrecision)
        ensures
            r == self@.precision,
    {
        self.precision
    }

    /// The RFC 3339 rendering of this instant at its precision, with a
    /// `Z` offset.
    pub fn to_rfc3339(&self) -> (r: String)
        ensures
            r@ == rfc3339_of(self@.secs, self@.nanos, prec_code(self@.precision)),
    {
        proof {
            use_type_invariant(self);
        }
        let prec = match self.precision {
            TimestampPrecision::Seconds => 0,
            TimestampPrecision::Millis => 1,
            TimestampPrecision::Micros => 2,
            TimestampPrecision::Nanos => 3,
        };
        rfc3339_string(self.secs, self.nanos, prec)
    }
}

} // verus!
