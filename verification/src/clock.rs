//! Points in time and their text form, with chrono doing the calendar work.
//!
//! A moment carries two numbers: the seconds since the Unix epoch, which
//! durations are computed from, and the local wall-clock time in the same
//! unit, which the stored text shows.

use vstd::prelude::*;

use crate::error::{AppError, AppResult, ErrorView};

verus! {

/// Storage format of time stamps: local time without an offset.
pub const TS_FORMAT: &'static str = "%Y-%m-%d %H:%M:%S";
/// Format of a calendar day.
pub const DAY_FORMAT: &'static str = "%Y-%m-%d";
/// Format accepted from forms besides the full one: without seconds.
pub const MINUTE_FORMAT: &'static str = "%Y-%m-%d %H:%M";

/// Seconds of chrono's earliest and latest `NaiveDateTime`.
pub const NAIVE_MIN: i64 = -8334601315200;
pub const NAIVE_MAX: i64 = 8210266876799;

pub open spec fn in_naive_range(t: int) -> bool {
    NAIVE_MIN <= t <= NAIVE_MAX
}

/// A point in time.
#[derive(Debug, Clone, Copy, PartialEq, Eq, Structural)]
pub struct Moment {
    /// Seconds since 1970-01-01 00:00:00 UTC.
    pub secs: i64,
    /// The local wall-clock time, counted in seconds from 1970-01-01 00:00:00.
    pub local: i64,
}

impl Moment {
    /// Both readings are in chrono's range and differ by less than a day, as
    /// every offset from UTC does.
    pub open spec fn wf(self) -> bool {
        &&& in_naive_range(self.secs as int)
        &&& in_naive_range(self.local as int)
        &&& -86400 < self.local - self.secs < 86400
    }
}

/// chrono's text for a naive date and time in the given format.
pub uninterp spec fn naive_text(t: i64, format: Seq<char>) -> Seq<char>;

/// The naive date and time (in seconds) that chrono reads from `text` in the
/// given format, if it reads one.
pub uninterp spec fn naive_read(text: Seq<char>, format: Seq<char>) -> Option<i64>;

pub open spec fn known_format(format: Seq<char>) -> bool {
    format == TS_FORMAT@ || format == DAY_FORMAT@ || format == MINUTE_FORMAT@
}

/// The current time.
///
/// Wraps `chrono::Local::now`. What it returns depends on the clock and the
/// time zone; the contract says only that it is a valid moment.
#[verifier::external_body]
pub fn now() -> (m: Moment)
    ensures
        m.wf(),
{
    let t = chrono::Local::now();
    Moment { secs: t.timestamp(), local: t.naive_local().and_utc().timestamp() }
}

/// The moment at the given second since the epoch, read in the local time zone.
///
/// Wraps `chrono::TimeZone::timestamp_opt` for `chrono::Local`; it returns
/// `None` where the time zone gives no single answer. The local reading
/// depends on the time zone and is not stated beyond being valid.
#[verifier::external_body]
pub fn moment_at(secs: i64) -> (r: Option<Moment>)
    requires
        NAIVE_MIN + 86400 <= secs <= NAIVE_MAX - 86400,
    ensures
        r matches Some(m) ==> m.wf() && m.secs == secs,
{
    chrono::TimeZone::timestamp_opt(&chrono::Local, secs, 0).single().map(
        |t| Moment { secs: t.timestamp(), local: t.naive_local().and_utc().timestamp() },
    )
}

/// The moment whose local wall-clock time is `local`.
///
/// Wraps `chrono::TimeZone::from_local_datetime` for `chrono::Local` followed by
/// `single`: `None` when the wall-clock time does not exist or exists twice in
/// the time zone. Which it is, and the seconds since the epoch, depend on the
/// time zone and are not stated beyond the moment being valid.
#[verifier::external_body]
fn moment_from_local(local: i64) -> (r: Option<Moment>)
    requires
        in_naive_range(local as int),
    ensures
        r matches Some(m) ==> m.wf() && m.local == local,
{
    let naive = chrono::DateTime::from_timestamp(local, 0).unwrap().naive_utc();
    chrono::TimeZone::from_local_datetime(&chrono::Local, &naive).single().map(
        |t| Moment { secs: t.timestamp(), local: t.naive_local().and_utc().timestamp() },
    )
}

/// Text of a naive date and time.
///
/// Wraps `chrono::NaiveDateTime::format(..).to_string()`; the result is named.
#[verifier::external_body]
fn format_naive(t: i64, format: &str) -> (r: String)
    requires
        in_naive_range(t as int),
        known_format(format@),
    ensures
        r@ == naive_text(t, format@),
{
    chrono::DateTime::from_timestamp(t, 0).unwrap().naive_utc().format(format).to_string()
}

/// Reads a naive date and time.
///
/// Wraps `chrono::NaiveDateTime::parse_from_str`; the result is named, and
/// every value chrono can produce lies in its range.
#[verifier::external_body]
fn parse_naive(text: &str, format: &str) -> (r: Option<i64>)
    ensures
        r == naive_read(text@, format@),
        r matches Some(t) ==> in_naive_range(t as int),
{
    chrono::NaiveDateTime::parse_from_str(text, format).ok().map(|n| n.and_utc().timestamp())
}

/// Local time stamp of a moment in the storage format.
pub fn format_ts(m: &Moment) -> (r: String)
    requires
        m.wf(),
    ensures
        r@ == naive_text(m.local, TS_FORMAT@),
{
    format_naive(m.local, TS_FORMAT)
}

/// The calendar day of a moment, local time.
pub fn day_of(m: &Moment) -> (r: String)
    requires
        m.wf(),
    ensures
        r@ == naive_text(m.local, DAY_FORMAT@),
{
    format_naive(m.local, DAY_FORMAT)
}

/// Universal time stamp of a moment in the storage format, as SQLite's
/// `CURRENT_TIMESTAMP` writes it.
pub fn format_utc(m: &Moment) -> (r: String)
    requires
        m.wf(),
    ensures
        r@ == naive_text(m.secs, TS_FORMAT@),
{
    format_naive(m.secs, TS_FORMAT)
}

/// Reads `raw` as local time in `format`: `Ok(None)` when the text does not
/// match, an error when the wall-clock time is not unique in the time zone.
pub fn read_local_moment(raw: &str, format: &str, shown: &str) -> (r: AppResult<Option<Moment>>)
    ensures
        r matches Ok(None) ==> naive_read(raw@, format@) is None,
        r matches Ok(Some(m)) ==> naive_read(raw@, format@) == Some(m.local) && m.wf(),
        r matches Err(e) ==> naive_read(raw@, format@) is Some && e@ == ErrorView::Key(
            "entry.ambiguous_timestamp"@,
            seq![("value"@, shown@)],
        ),
{
    match parse_naive(raw, format) {
        None => Ok(None),
        Some(local) => match moment_from_local(local) {
            Some(m) => Ok(Some(m)),
            None => Err(AppError::arg("entry.ambiguous_timestamp", "value", crate::text::owned(shown))),
        },
    }
}

/// Reads a stored time stamp.
pub fn parse_ts(raw: &str) -> (r: AppResult<Moment>)
    ensures
        match r {
            Ok(m) => naive_read(raw@, TS_FORMAT@) == Some(m.local) && m.wf(),
            Err(e) => match naive_read(raw@, TS_FORMAT@) {
                None => e@ == ErrorView::Key("db.bad_timestamp"@, seq![("value"@, raw@)]),
                Some(_) => e@ == ErrorView::Key("entry.ambiguous_timestamp"@, seq![("value"@, raw@)]),
            },
        },
{
    match read_local_moment(raw, TS_FORMAT, raw) {
        Ok(Some(m)) => Ok(m),
        Ok(None) => Err(AppError::arg("db.bad_timestamp", "value", crate::text::owned(raw))),
        Err(e) => Err(e),
    }
}

} // verus!
