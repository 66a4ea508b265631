use chrono::{DateTime, FixedOffset, Utc};
use std::fmt::Write;
use std::time::SystemTime;
use crate::naming::{digit_char, digit_str};
use vstd::prelude::*;

verus! {

/// The last millisecond, counted from 1970-01-01 00:00:00 UTC, that chrono can
/// represent: the end of the year 262142.
pub const MAX_MILLIS: i64 = 8_210_266_876_799_999;

/// The first millisecond, counted from 1970-01-01 00:00:00 UTC, that chrono
/// can represent: the start of the year -262143.
pub const MIN_MILLIS: i64 = -8_334_601_315_200_000;

/// The pattern of a file group's date by default: `2024-01-31`.
pub const DAY_PATTERN: &'static str = "%Y-%m-%d";

/// The pattern in which a message's instant is shown.
pub const TIME_PATTERN: &'static str = "%Y-%m-%d %H:%M:%S%.3f";

/// An instant that chrono can represent.
pub open spec fn instant_ok(ms: i64) -> bool {
    MIN_MILLIS <= ms <= MAX_MILLIS
}

/// A pattern made only of numeric date and time fields, which chrono renders
/// for every instant.
pub open spec fn always_renders(pattern: Seq<char>) -> bool {
    pattern == DAY_PATTERN@ || pattern == TIME_PATTERN@
}

/// A time zone offset, in whole hours, that a fixed offset can hold.
pub open spec fn zone_ok(hours: i32) -> bool {
    -24 < hours < 24
}

/// The text of instant `ms` shifted by `offset_secs` and written in the strftime
/// pattern `pattern`.
pub uninterp spec fn date_text(ms: i64, offset_secs: i32, pattern: Seq<char>) -> Seq<char>;

/// Relies on chrono's `From<SystemTime> for DateTime<Utc>` and
/// `DateTime::timestamp_millis`: the instant the system clock reads, in
/// milliseconds, before 1970 as well as after. A `DateTime` lies within
/// chrono's range.
#[verifier::external_body]
fn now_millis() -> (r: i64)
    ensures
        instant_ok(r),
{
    DateTime::<Utc>::from(SystemTime::now()).timestamp_millis()
}

/// Relies on chrono's `DateTime::format` of the instant `ms` at the fixed offset
/// `offset_secs` with a strftime pattern. `DateTime::from_timestamp_millis`
/// gives `Some` for every instant up to `MAX_MILLIS`, and `FixedOffset::east_opt`
/// for every offset under a day. Writing it fails, and this gives
/// `None`, where the pattern holds an item chrono cannot parse, or one it
/// cannot render for this instant; the items of `DAY_PATTERN` and
/// `TIME_PATTERN` are numeric fields of the date and time, which it always
/// renders.
#[verifier::external_body]
fn format_date(ms: i64, offset_secs: i32, pattern: &str) -> (r: Option<String>)
    requires
        instant_ok(ms),
        -86_400 < offset_secs < 86_400,
    ensures
        r matches Some(t) ==> t@ == date_text(ms, offset_secs, pattern@),
        always_renders(pattern@) ==> r is Some,
{
    let utc = DateTime::from_timestamp_millis(ms).unwrap();
    let offset = FixedOffset::east_opt(offset_secs).unwrap();
    let mut out = String::new();
    match write!(out, "{}", utc.with_timezone(&offset).format(pattern)) {
        Ok(()) => Some(out),
        Err(_) => None,
    }
}

/// A zone offset of whole hours as chrono's `FixedOffset` shows it: sign,
/// two-digit hour, colon, two-digit minute (`+01:00`, `-05:00`).
pub open spec fn zone_text(hours: i32) -> Seq<char> {
    let a: nat = if hours < 0 { (-hours) as nat } else { hours as nat };
    seq![if hours < 0 { '-' } else { '+' }, digit_char(a / 10), digit_char(a % 10), ':', '0', '0']
}

/// Appends `zone_text(hours)` to `s`.
fn push_zone(s: &mut String, hours: i32)
    requires
        zone_ok(hours),
    ensures
        final(s)@ == old(s)@ + zone_text(hours),
{
    proof {
        reveal_strlit("-");
        reveal_strlit("+");
        reveal_strlit(":00");
    }
    let a: usize = if hours < 0 { (-hours) as usize } else { hours as usize };
    if hours < 0 {
        s.append("-");
    } else {
        s.append("+");
    }
    s.append(digit_str(a / 10));
    s.append(digit_str(a % 10));
    s.append(":00");
    assert(s@ =~= old(s)@ + zone_text(hours));
}

/// Whether `t` is the date of some instant in the zone `time_zone` (in hours),
/// written with `pattern`.
pub open spec fn is_date(t: Seq<char>, time_zone: i32, pattern: Seq<char>) -> bool {
    exists|ms: i64| instant_ok(ms) && t == #[trigger] date_text(ms, offset_secs(time_zone), pattern)
}

/// The offset in seconds of a zone given in hours.
pub open spec fn offset_secs(hours: i32) -> i32 {
    (hours * 3600) as i32
}

/// The current date prefix in the zone `time_zone`, written with `pattern`, or
/// `None` where chrono cannot render the pattern.
pub fn today(time_zone: i32, pattern: &str) -> (r: Option<String>)
    requires
        zone_ok(time_zone),
    ensures
        r matches Some(t) ==> is_date(t@, time_zone, pattern@),
        always_renders(pattern@) ==> r is Some,
{
    let ms = now_millis();
    let r = format_date(ms, time_zone * 3600, pattern);
    proof {
        if r is Some {
            assert(instant_ok(ms) && r->0@ == date_text(ms, offset_secs(time_zone), pattern@));
        }
    }
    r
}

/// An instant together with the zone in which it is shown.
#[derive(Clone, Copy, Debug)]
pub struct Time {
    /// The milliseconds since 1970-01-01 00:00:00 UTC.
    pub utc_millis: i64,
    /// The zone's offset from UTC, in hours.
    pub time_zone: i32,
    /// Whether to show the instant in UTC with the zone's offset beside it,
    /// rather than as the zone's local time.
    pub detailed_display: bool,
}

impl Time {
    pub open spec fn wf(self) -> bool {
        instant_ok(self.utc_millis) && zone_ok(self.time_zone)
    }

    /// The text that `to_string` gives.
    pub open spec fn text(self) -> Seq<char> {
        if self.detailed_display {
            date_text(self.utc_millis, 0, TIME_PATTERN@) + seq![' ', '('] + zone_text(
                self.time_zone,
            ) + seq![')']
        } else {
            date_text(self.utc_millis, offset_secs(self.time_zone), TIME_PATTERN@)
        }
    }

    /// The instant `utc_millis` shown in the zone `time_zone` (in hours), as local time.
    pub fn new(utc_millis: i64, time_zone: i32) -> (r: Time)
        requires
            instant_ok(utc_millis),
            zone_ok(time_zone),
        ensures
            r.wf(),
            r.utc_millis == utc_millis,
            r.time_zone == time_zone,
            !r.detailed_display,
    {
        Time { utc_millis, time_zone, detailed_display: false }
    }

    /// The current instant, shown in the zone `time_zone` (in hours), as local time.
    pub fn now(time_zone: i32) -> (r: Time)
        requires
            zone_ok(time_zone),
        ensures
            r.wf(),
            r.time_zone == time_zone,
            !r.detailed_display,
    {
        Time::new(now_millis(), time_zone)
    }

    /// The instant as text: the zone's local time, or the UTC time followed by
    /// the zone's offset where `detailed_display` is set.
    pub fn to_string(&self) -> (r: String)
        requires
            self.wf(),
        ensures
            r@ == self.text(),
    {
        if self.detailed_display {
            proof {
                reveal_strlit(" (");
                reveal_strlit(")");
            }
            let mut r = format_date(self.utc_millis, 0, TIME_PATTERN).unwrap();
            r.append(" (");
            push_zone(&mut r, self.time_zone);
            r.append(")");
            assert(r@ =~= self.text());
            r
        } else {
            format_date(self.utc_millis, self.time_zone * 3600, TIME_PATTERN).unwrap()
        }
    }
}

} // verus!
